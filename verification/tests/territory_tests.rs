use openfront_client::map::GameMap;
use openfront_client::territory::{clear_tile, paint_territory, paint_tile, PlayerColor, TerritoryTexture};

fn palette(id: u16) -> PlayerColor {
    PlayerColor { r: id as u8 * 10, g: 100, b: 250 }
}

#[test]
fn border_color_matches_float_darkening_for_every_channel_value() {
    for v in 0..=255u8 {
        let c = PlayerColor { r: v, g: v, b: v }.border_color();
        let expected = (v as f32 * 0.7) as u8;
        assert_eq!(c.r, expected, "channel {}", v);
        assert_eq!(c.g, expected);
        assert_eq!(c.b, expected);
    }
}

#[test]
fn shades() {
    let c = PlayerColor { r: 100, g: 230, b: 0 };
    assert_eq!(c.border_color(), PlayerColor { r: 70, g: 161, b: 0 });
    assert_eq!(c.territory_color(), PlayerColor { r: 130, g: 255, b: 30 });
}

#[test]
fn paint_and_clear_tile() {
    let mut data = vec![7u8; 8];
    paint_tile(&mut data, 1, PlayerColor { r: 1, g: 2, b: 3 }, 4);
    assert_eq!(data, vec![7, 7, 7, 7, 1, 2, 3, 4]);
    clear_tile(&mut data, 1);
    assert_eq!(data, vec![7, 7, 7, 7, 1, 2, 3, 0]);
    // beyond the image: nothing happens
    paint_tile(&mut data, 2, PlayerColor { r: 9, g: 9, b: 9 }, 9);
    clear_tile(&mut data, 5);
    assert_eq!(data, vec![7, 7, 7, 7, 1, 2, 3, 0]);
}

#[test]
fn paint_territory_cases() {
    // 3 x 1 land; tile 0 owned by 1, tile 1 owned by 1, tile 2 fallout.
    let mut map = GameMap::new(3, 1, vec![0x80, 0x80, 0x80]);
    map.set_owner_id(0, 1);
    map.set_owner_id(1, 1);
    map.set_fallout(2, true);
    let mut data = vec![5u8; 12];
    for t in 0..3 {
        paint_territory(&mut data, &map, t, &palette);
    }
    // tile 0: neighbours are tile 1 (same owner) only -> interior
    assert_eq!(&data[0..4], &[40, 130, 255, 150]);
    // tile 1: neighbour tile 2 unowned -> border
    assert_eq!(&data[4..8], &[7, 70, 175, 255]);
    // tile 2: fallout
    assert_eq!(&data[8..12], &[128, 64, 0, 150]);
    map.set_fallout(2, false);
    paint_territory(&mut data, &map, 2, &palette);
    assert_eq!(&data[8..12], &[128, 64, 0, 0]);
}

#[test]
fn texture_repaint_and_views() {
    let mut tex = TerritoryTexture::default();
    assert!(tex.dirty);
    assert_eq!(tex.width, 0);
    tex.initialize(2, 2);
    assert_eq!(tex.image_data.len(), 16);
    assert_eq!(tex.alternative_image_data.len(), 16);
    let mut map = GameMap::new(2, 2, vec![0x80; 4]);
    map.set_owner_id(3, 2);
    tex.repaint(&map, &palette);
    assert!(!tex.dirty);
    assert_eq!(&tex.image_data[12..16], &[14, 70, 175, 255]);
    assert_eq!(&tex.image_data[0..4], &[0, 0, 0, 0]);
    // clean texture: a repaint does nothing
    map.set_owner_id(0, 2);
    tex.repaint(&map, &palette);
    assert_eq!(&tex.image_data[0..4], &[0, 0, 0, 0]);
    assert!(std::ptr::eq(tex.active_image_data(), &tex.image_data));
    tex.alternative_view = true;
    assert!(std::ptr::eq(tex.active_image_data(), &tex.alternative_image_data));
}

#[test]
fn repaint_leaves_a_partial_last_pixel_alone() {
    let mut tex = TerritoryTexture::default();
    // room for one whole pixel and two bytes of the next
    tex.image_data = vec![9; 6];
    let mut map = GameMap::new(2, 1, vec![0x80; 2]);
    map.set_owner_id(0, 2);
    map.set_owner_id(1, 2);
    tex.repaint(&map, &palette);
    assert_eq!(&tex.image_data[0..4], &[50, 130, 255, 150]);
    assert_eq!(&tex.image_data[4..6], &[9, 9]);
}
