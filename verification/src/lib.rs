pub mod map;
pub mod schemas;
pub mod transport;
pub mod state;
pub mod territory;
pub mod hex;
pub mod world;
pub mod identity;
pub mod ui;
pub mod input;
