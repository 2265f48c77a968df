//! Client-side game state: players, territories and units, with the questions
//! the client asks of them (is this my territory, can I build here).
use vstd::prelude::*;
use std::collections::HashMap;
use vstd::std_specs::hash::spec_hash_map_iter;
use vstd::std_specs::iter::IteratorSpec;

verus! {

broadcast use vstd::std_specs::hash::group_hash_axioms;

#[derive(Debug, Clone)]
pub struct PlayerCosmetics {
    pub flag: String,
    pub pattern: Option<String>,
}

/// A player as the client knows it.
#[derive(Debug, Clone)]
pub struct Player {
    pub id: u32,
    pub name: String,
    /// The player's colour as the bit patterns of its red, green, blue and
    /// alpha components (each an `f32` in 0..=1, sRGB).
    pub color_rgba_bits: [u32; 4],
    pub gold: u32,
    pub troops: u32,
    pub territory_count: u32,
    pub is_alive: bool,
    pub team: Option<u32>,
    pub cosmetics: PlayerCosmetics,
}

#[derive(Debug, Clone, Copy, PartialEq, Eq, Structural)]
pub enum TerrainType {
    Land,
    Water,
    Mountain,
    Forest,
    Desert,
}

/// A territory at hex coordinates (q, r).
#[derive(Debug, Clone, Copy)]
pub struct Territory {
    pub position: (i32, i32),
    pub owner: Option<u32>,
    pub troops: u32,
    pub terrain_type: TerrainType,
}

#[derive(Debug, Clone, Copy, PartialEq, Eq, Structural)]
pub enum UnitType {
    Capital,
    City,
    Camp,
    Tower,
    Fort,
    Port,
    Airport,
    Radar,
    Bridge,
}

/// A unit (a structure) placed on the map.
#[derive(Debug, Clone, Copy)]
pub struct Unit {
    pub id: u32,
    pub unit_type: UnitType,
    pub owner: u32,
    pub position: (i32, i32),
    /// Current health, as the bit pattern of an `f32`.
    pub health_bits: u32,
    /// Full health, as the bit pattern of an `f32`.
    pub max_health_bits: u32,
}

/// The 64-bit key under which a position is stored: the two coordinates'
/// 32-bit patterns side by side.
pub open spec fn spec_position_key(p: (i32, i32)) -> u64 {
    ((p.0 as u32 as u64) << 32u64) | (p.1 as u32 as u64)
}

/// Distinct positions have distinct keys.
pub proof fn lemma_position_key_injective(a: (i32, i32), b: (i32, i32))
    ensures
        spec_position_key(a) == spec_position_key(b) ==> a == b,
{
    let (a0, a1, b0, b1) = (a.0, a.1, b.0, b.1);
    assert(((a0 as u32 as u64) << 32u64) | (a1 as u32 as u64) == ((b0 as u32 as u64) << 32u64) | (
    b1 as u32 as u64) ==> a0 == b0 && a1 == b1) by (bit_vector);
}

fn position_key(p: (i32, i32)) -> (r: u64)
    ensures
        r == spec_position_key(p),
{
    ((p.0 as u32 as u64) << 32u64) | (p.1 as u32 as u64)
}

/// Everything the client tracks about a running game.
pub struct GameState {
    pub tick: u32,
    pub players: HashMap<u32, Player>,
    pub territories: HashMap<u64, Territory>,
    pub units: HashMap<u32, Unit>,
    pub my_player_id: Option<u32>,
    pub game_started: bool,
}

impl GameState {
    /// The territories by position.
    pub open spec fn territory_map(&self) -> Map<(i32, i32), Territory> {
        Map::new(
            |p: (i32, i32)| self.territories@.contains_key(spec_position_key(p)),
            |p: (i32, i32)| self.territories@[spec_position_key(p)],
        )
    }

    /// Whether some unit stands at a position.
    pub open spec fn unit_at(&self, position: (i32, i32)) -> bool {
        exists|id: u32| #[trigger] self.units@.contains_key(id) && self.units@[id].position == position
    }

    /// The territory at `position` is owned by this client's player.
    pub open spec fn spec_is_my_territory(&self, position: (i32, i32)) -> bool {
        &&& self.territory_map().contains_key(position)
        &&& self.territory_map()[position].owner is Some
        &&& self.my_player_id == self.territory_map()[position].owner
    }

    /// A structure may go at `position`: it is this client's territory and no
    /// unit stands there.
    pub open spec fn spec_can_build_at(&self, position: (i32, i32)) -> bool {
        self.spec_is_my_territory(position) && !self.unit_at(position)
    }

    /// An empty state at tick 0, before the game starts.
    pub fn new() -> (r: Self)
        ensures
            r.tick == 0,
            r.players@ == Map::<u32, Player>::empty(),
            r.territory_map() == Map::<(i32, i32), Territory>::empty(),
            r.units@ == Map::<u32, Unit>::empty(),
            r.my_player_id is None,
            !r.game_started,
    {
        let r = GameState {
            tick: 0,
            players: HashMap::new(),
            territories: HashMap::new(),
            units: HashMap::new(),
            my_player_id: None,
            game_started: false,
        };
        assert(r.territory_map() =~= Map::<(i32, i32), Territory>::empty());
        r
    }

    /// Records a player under its id, replacing any player with that id.
    pub fn add_player(&mut self, player: Player)
        ensures
            final(self).players@ == old(self).players@.insert(player.id, player),
            final(self).territory_map() == old(self).territory_map(),
            final(self).units@ == old(self).units@,
            final(self).tick == old(self).tick,
            final(self).my_player_id == old(self).my_player_id,
            final(self).game_started == old(self).game_started,
    {
        let id = player.id;
        self.players.insert(id, player);
    }

    /// Stores a territory at a position, replacing any territory there.
    pub fn set_territory(&mut self, position: (i32, i32), territory: Territory)
        ensures
            final(self).territory_map() == old(self).territory_map().insert(position, territory),
            final(self).players@ == old(self).players@,
            final(self).units@ == old(self).units@,
            final(self).tick == old(self).tick,
            final(self).my_player_id == old(self).my_player_id,
            final(self).game_started == old(self).game_started,
    {
        self.territories.insert(position_key(position), territory);
        proof {
            assert forall|p: (i32, i32)| true implies (spec_position_key(p) == spec_position_key(
                position,
            )) == (p == position) by {
                lemma_position_key_injective(p, position);
            }
            assert(self.territory_map() =~= old(self).territory_map().insert(position, territory));
        }
    }

    /// The territory at a position, if there is one.
    pub fn get_territory(&self, position: (i32, i32)) -> (r: Option<Territory>)
        ensures
            r == (if self.territory_map().contains_key(position) {
                Some(self.territory_map()[position])
            } else {
                None
            }),
    {
        match self.territories.get(&position_key(position)) {
            Some(t) => Some(*t),
            None => None,
        }
    }

    /// Sets owner and troops of the territory at a position; nothing happens
    /// when there is no territory there.
    pub fn update_territory(&mut self, position: (i32, i32), owner: Option<u32>, troops: u32)
        ensures
            final(self).territory_map() == (if old(self).territory_map().contains_key(position) {
                old(self).territory_map().insert(
                    position,
                    Territory { owner, troops, ..old(self).territory_map()[position] },
                )
            } else {
                old(self).territory_map()
            }),
            final(self).players@ == old(self).players@,
            final(self).units@ == old(self).units@,
            final(self).tick == old(self).tick,
            final(self).my_player_id == old(self).my_player_id,
            final(self).game_started == old(self).game_started,
    {
        match self.get_territory(position) {
            Some(t) => {
                let updated = Territory { owner, troops, ..t };
                self.set_territory(position, updated);
            },
            None => {},
        }
    }

    /// Records a unit under its id, replacing any unit with that id.
    pub fn add_unit(&mut self, unit: Unit)
        ensures
            final(self).units@ == old(self).units@.insert(unit.id, unit),
            final(self).players@ == old(self).players@,
            final(self).territory_map() == old(self).territory_map(),
            final(self).tick == old(self).tick,
            final(self).my_player_id == old(self).my_player_id,
            final(self).game_started == old(self).game_started,
    {
        self.units.insert(unit.id, unit);
    }

    /// Forgets the unit with an id, if any.
    pub fn remove_unit(&mut self, unit_id: u32)
        ensures
            final(self).units@ == old(self).units@.remove(unit_id),
            final(self).players@ == old(self).players@,
            final(self).territory_map() == old(self).territory_map(),
            final(self).tick == old(self).tick,
            final(self).my_player_id == old(self).my_player_id,
            final(self).game_started == old(self).game_started,
    {
        self.units.remove(&unit_id);
    }

    /// This client's player, when its id is known and the player is recorded.
    pub fn get_my_player(&self) -> (r: Option<&Player>)
        ensures
            r == (match self.my_player_id {
                Some(id) => if self.players@.contains_key(id) {
                    Some(&self.players@[id])
                } else {
                    None
                },
                None => None,
            }),
    {
        match self.my_player_id {
            Some(id) => self.players.get(&id),
            None => None,
        }
    }

    /// Whether the territory at a position is owned by this client's player.
    pub fn is_my_territory(&self, position: (i32, i32)) -> (r: bool)
        ensures
            r == self.spec_is_my_territory(position),
    {
        match self.get_territory(position) {
            Some(t) => match t.owner {
                Some(owner) => match self.my_player_id {
                    Some(me) => owner == me,
                    None => false,
                },
                None => false,
            },
            None => false,
        }
    }

    /// Whether a structure may be built at a position.
    pub fn can_build_at(&self, position: (i32, i32)) -> (r: bool)
        ensures
            r == self.spec_can_build_at(position),
    {
        if !self.is_my_territory(position) {
            return false;
        }
        let ghost m = self.units@;
        for entry in it: self.units.iter()
            invariant
                m == self.units@,
                it.seq() == spec_hash_map_iter(&self.units).remaining(),
                forall|j: int| 0 <= j < it.index() ==> (#[trigger] it.seq()[j]).1.position != position,
        {
            let (k, u) = entry;
            if u.position.0 == position.0 && u.position.1 == position.1 {
                proof {
                    let v = spec_hash_map_iter(&self.units).remaining();
                    assert(v[it.index() as int] == entry);
                    assert(m.contains_key(*v[it.index() as int].0));
                    assert(m[*k] == *u);
                    assert(self.units@.contains_key(*k) && self.units@[*k].position == position);
                }
                return false;
            }
        }
        true
    }

    /// Advances the tick by the elapsed ticks once the game has started.
    pub fn advance_tick(&mut self, ticks_elapsed: u32)
        requires
            old(self).game_started ==> old(self).tick + ticks_elapsed <= u32::MAX,
        ensures
            final(self).tick == if old(self).game_started {
                (old(self).tick + ticks_elapsed) as u32
            } else {
                old(self).tick
            },
            final(self).players@ == old(self).players@,
            final(self).territory_map() == old(self).territory_map(),
            final(self).units@ == old(self).units@,
            final(self).my_player_id == old(self).my_player_id,
            final(self).game_started == old(self).game_started,
    {
        if !self.game_started {
            return;
        }
        self.tick = self.tick + ticks_elapsed;
    }
}

/// After a unit is recorded, nothing can be built at its position.
pub proof fn lemma_unit_blocks_building(before: GameState, after: GameState, unit: Unit)
    requires
        after.units@ == before.units@.insert(unit.id, unit),
    ensures
        !after.spec_can_build_at(unit.position),
{
    assert(after.units@.contains_key(unit.id));
}

/// Building is only ever allowed on this client's own territory, and never
/// before this client's player is known.
pub proof fn lemma_build_needs_ownership(s: GameState, position: (i32, i32))
    ensures
        s.spec_can_build_at(position) ==> s.spec_is_my_territory(position),
        s.my_player_id is None ==> !s.spec_is_my_territory(position),
{
}

/// Reading a territory after updating it gives the new owner and troops and
/// the old position and terrain; other positions are unaffected.
pub proof fn lemma_territory_read_after_update(
    before: GameState,
    after: GameState,
    position: (i32, i32),
    owner: Option<u32>,
    troops: u32,
    other: (i32, i32),
)
    requires
        before.territory_map().contains_key(position),
        after.territory_map() == before.territory_map().insert(
            position,
            Territory { owner, troops, ..before.territory_map()[position] },
        ),
        other != position,
    ensures
        after.territory_map()[position].owner == owner,
        after.territory_map()[position].troops == troops,
        after.territory_map()[position].position == before.territory_map()[position].position,
        after.territory_map()[position].terrain_type == before.territory_map()[position].terrain_type,
        after.territory_map().contains_key(other) == before.territory_map().contains_key(other),
        after.territory_map().contains_key(other) ==> after.territory_map()[other]
            == before.territory_map()[other],
{
}
} // verus!
