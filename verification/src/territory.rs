//! The territory layer: an RGBA image with one pixel per map tile, painted from
//! tile ownership, border status and fallout.
use vstd::prelude::*;
use crate::map::{GameMap, MapModel, TileRef, word_with_fallout, lemma_fallout_after_set};

verus! {

/// An RGB colour.
#[derive(Debug, Clone, Copy, PartialEq, Eq, Structural)]
pub struct PlayerColor {
    pub r: u8,
    pub g: u8,
    pub b: u8,
}

/// A channel darkened to 70%, rounded down.
pub open spec fn darken(c: u8) -> u8 {
    (c * 7 / 10) as u8
}

/// A channel lightened by 30, capped at 255.
pub open spec fn lighten(c: u8) -> u8 {
    if c + 30 > 255 {
        255
    } else {
        (c + 30) as u8
    }
}

pub open spec fn spec_border_color(c: PlayerColor) -> PlayerColor {
    PlayerColor { r: darken(c.r), g: darken(c.g), b: darken(c.b) }
}

pub open spec fn spec_territory_color(c: PlayerColor) -> PlayerColor {
    PlayerColor { r: lighten(c.r), g: lighten(c.g), b: lighten(c.b) }
}

/// The colour of fallout tiles (brown).
pub open spec fn fallout_color() -> PlayerColor {
    PlayerColor { r: 128, g: 64, b: 0 }
}

/// Opacity of border pixels.
pub const BORDER_ALPHA: u8 = 255;

/// Opacity of interior and fallout pixels.
pub const FILL_ALPHA: u8 = 150;

fn darken_channel(c: u8) -> (r: u8)
    ensures
        r == darken(c),
{
    ((c as u32) * 7 / 10) as u8
}

impl PlayerColor {
    /// A darker version for borders: each channel at 70%, rounded down.
    pub fn border_color(&self) -> (r: Self)
        ensures
            r == spec_border_color(*self),
    {
        PlayerColor { r: darken_channel(self.r), g: darken_channel(self.g), b: darken_channel(self.b) }
    }

    /// A lighter version for territory interiors: each channel plus 30, capped.
    pub fn territory_color(&self) -> (r: Self)
        ensures
            r == spec_territory_color(*self),
    {
        PlayerColor {
            r: self.r.saturating_add(30),
            g: self.g.saturating_add(30),
            b: self.b.saturating_add(30),
        }
    }
}

/// Byte offset of a tile's pixel.
pub open spec fn pixel_offset(tile_ref: int) -> int {
    tile_ref * 4
}

/// The image after painting a tile's pixel; unchanged when the pixel lies
/// beyond the image.
pub open spec fn painted(data: Seq<u8>, tile_ref: int, color: PlayerColor, alpha: u8) -> Seq<u8> {
    let o = pixel_offset(tile_ref);
    if o + 3 < data.len() {
        data.update(o, color.r).update(o + 1, color.g).update(o + 2, color.b).update(o + 3, alpha)
    } else {
        data
    }
}

/// The image after making a tile's pixel transparent; unchanged when the pixel
/// lies beyond the image.
pub open spec fn cleared(data: Seq<u8>, tile_ref: int) -> Seq<u8> {
    let o = pixel_offset(tile_ref);
    if o + 3 < data.len() {
        data.update(o + 3, 0)
    } else {
        data
    }
}

/// Writes colour and opacity into the pixel of a tile, if the image holds it.
pub fn paint_tile(image_data: &mut [u8], tile_ref: TileRef, color: PlayerColor, alpha: u8)
    requires
        tile_ref * 4 + 3 <= usize::MAX,
    ensures
        final(image_data)@ == painted(old(image_data)@, tile_ref as int, color, alpha),
{
    let offset = tile_ref * 4;
    if offset + 3 < image_data.len() {
        image_data[offset] = color.r;
        image_data[offset + 1] = color.g;
        image_data[offset + 2] = color.b;
        image_data[offset + 3] = alpha;
    }
}

/// Makes the pixel of a tile fully transparent, if the image holds it.
pub fn clear_tile(image_data: &mut [u8], tile_ref: TileRef)
    requires
        tile_ref * 4 + 3 <= usize::MAX,
    ensures
        final(image_data)@ == cleared(old(image_data)@, tile_ref as int),
{
    let offset = tile_ref * 4;
    if offset + 3 < image_data.len() {
        image_data[offset + 3] = 0;
    }
}

/// The image after painting one tile: owned tiles in their owner's colour
/// (darker and opaque on borders, lighter and translucent inside), unowned
/// fallout tiles brown, other tiles transparent. `base` is the owner's colour.
pub open spec fn territory_painted(data: Seq<u8>, m: MapModel, t: int, base: PlayerColor) -> Seq<u8> {
    match m.owner(t) {
        Some(_) => if m.is_border(t) {
            painted(data, t, spec_border_color(base), BORDER_ALPHA)
        } else {
            painted(data, t, spec_territory_color(base), FILL_ALPHA)
        },
        None => if m.has_fallout(t) {
            painted(data, t, fallout_color(), FILL_ALPHA)
        } else {
            cleared(data, t)
        },
    }
}

/// Conditions under which a tile can be painted from the map.
pub open spec fn paintable(map: &GameMap, t: int) -> bool {
    &&& map.wf()
    &&& map@.fits_i32()
    &&& map@.in_bounds(t)
    &&& (map@.owner(t) is Some ==> t < map@.terrain.len())
    &&& t * 4 + 3 <= usize::MAX
}

/// Paints one tile's pixel from the map. `color_of` gives a player's colour.
pub fn paint_territory<F: Fn(u16) -> PlayerColor>(
    image_data: &mut [u8],
    map: &GameMap,
    tile_ref: TileRef,
    color_of: &F,
)
    requires
        paintable(map, tile_ref as int),
        forall|id: u16| #[trigger] call_requires(*color_of, (id,)),
    ensures
        match map@.owner(tile_ref as int) {
            Some(id) => exists|base: PlayerColor|
                #[trigger] call_ensures(*color_of, (id,), base) && final(image_data)@
                    == territory_painted(old(image_data)@, map@, tile_ref as int, base),
            None => final(image_data)@ == territory_painted(
                old(image_data)@,
                map@,
                tile_ref as int,
                fallout_color(),
            ),
        },
{
    if let Some(owner_id) = map.owner_id(tile_ref) {
        let player_color = color_of(owner_id);
        if map.is_border(tile_ref) {
            paint_tile(image_data, tile_ref, player_color.border_color(), BORDER_ALPHA);
        } else {
            paint_tile(image_data, tile_ref, player_color.territory_color(), FILL_ALPHA);
        }
    } else if map.has_fallout(tile_ref) {
        let fallout = PlayerColor { r: 128, g: 64, b: 0 };
        paint_tile(image_data, tile_ref, fallout, FILL_ALPHA);
    } else {
        clear_tile(image_data, tile_ref);
    }
}

/// The four bytes of a tile's pixel.
pub open spec fn pixel(data: Seq<u8>, t: int) -> Seq<u8> {
    data.subrange(pixel_offset(t), pixel_offset(t) + 4)
}

/// The pixel of tile `t` in `new_data` is what painting that tile alone into
/// `old_data` gives, for some colour that `color_of` returns for its owner.
pub open spec fn pixel_repainted<F: Fn(u16) -> PlayerColor>(
    old_data: Seq<u8>,
    new_data: Seq<u8>,
    m: MapModel,
    color_of: F,
    t: int,
) -> bool {
    exists|base: PlayerColor|
        {
            &&& (m.owner(t) matches Some(id) ==> call_ensures(color_of, (id,), base))
            &&& pixel(new_data, t) == #[trigger] pixel(territory_painted(old_data, m, t, base), t)
        }
}

/// After a full repaint: the pixel of every tile that the image holds is
/// repainted from the map; all bytes past the last tile's pixel, and the bytes
/// of a last pixel that the image holds only in part, are unchanged.
pub open spec fn repainted<F: Fn(u16) -> PlayerColor>(
    old_data: Seq<u8>,
    new_data: Seq<u8>,
    m: MapModel,
    color_of: F,
) -> bool {
    &&& new_data.len() == old_data.len()
    &&& forall|t: int|
        0 <= t < m.num_tiles() && pixel_offset(t) + 3 < old_data.len() ==> #[trigger] pixel_repainted(
            old_data,
            new_data,
            m,
            color_of,
            t,
        )
    &&& forall|i: int| pixel_offset(m.num_tiles()) <= i < old_data.len() ==> new_data[i] == old_data[i]
    &&& forall|i: int|
        pixel_offset((old_data.len() / 4) as int) <= i < old_data.len() ==> new_data[i] == old_data[i]
}

/// Painting a tile changes no byte outside its pixel, and nothing at all when
/// the image does not hold the whole pixel.
proof fn lemma_painted_frame(data: Seq<u8>, m: MapModel, t: int, base: PlayerColor)
    requires
        0 <= t,
    ensures
        territory_painted(data, m, t, base).len() == data.len(),
        pixel_offset(t) + 3 >= data.len() ==> territory_painted(data, m, t, base) == data,
        forall|i: int|
            0 <= i < data.len() && !(pixel_offset(t) <= i < pixel_offset(t) + 4) ==> territory_painted(
                data,
                m,
                t,
                base,
            )[i] == data[i],
{
}

/// The territory texture: the image painted from the map, a second image for an
/// alternative view, its size, which image is shown, and whether a repaint is
/// due.
pub struct TerritoryTexture {
    pub image_data: Vec<u8>,
    pub alternative_image_data: Vec<u8>,
    pub width: usize,
    pub height: usize,
    pub alternative_view: bool,
    pub dirty: bool,
}

impl Default for TerritoryTexture {
    /// Empty images of size zero, the normal view, a repaint due.
    fn default() -> (r: Self)
        ensures
            r.image_data@ == Seq::<u8>::empty(),
            r.alternative_image_data@ == Seq::<u8>::empty(),
            r.width == 0,
            r.height == 0,
            !r.alternative_view,
            r.dirty,
    {
        TerritoryTexture {
            image_data: Vec::new(),
            alternative_image_data: Vec::new(),
            width: 0,
            height: 0,
            alternative_view: false,
            dirty: true,
        }
    }
}

/// `n` zero bytes.
fn zeroed(n: usize) -> (r: Vec<u8>)
    ensures
        r@ == Seq::new(n as nat, |i: int| 0u8),
{
    let mut v: Vec<u8> = Vec::new();
    let mut k: usize = 0;
    while k < n
        invariant
            k <= n,
            v@ == Seq::new(k as nat, |i: int| 0u8),
        decreases n - k,
    {
        v.push(0u8);
        k = k + 1;
    }
    v
}

impl TerritoryTexture {
    /// Sizes both images for a `width` x `height` texture, all pixels zero.
    pub fn initialize(&mut self, width: usize, height: usize)
        requires
            width * height * 4 <= usize::MAX,
        ensures
            final(self).image_data@ == Seq::new((width * height * 4) as nat, |i: int| 0u8),
            final(self).alternative_image_data@ == Seq::new(
                (width * height * 4) as nat,
                |i: int| 0u8,
            ),
            final(self).width == width,
            final(self).height == height,
            final(self).alternative_view == old(self).alternative_view,
            final(self).dirty == old(self).dirty,
    {
        let n = width * height * 4;
        self.image_data = zeroed(n);
        self.alternative_image_data = zeroed(n);
        self.width = width;
        self.height = height;
    }

    /// The image currently shown.
    pub fn active_image_data(&self) -> (r: &Vec<u8>)
        ensures
            r == (if self.alternative_view {
                &self.alternative_image_data
            } else {
                &self.image_data
            }),
    {
        if self.alternative_view {
            &self.alternative_image_data
        } else {
            &self.image_data
        }
    }

    /// When a repaint is due, repaints every tile of the map into the main image
    /// and marks the texture clean; otherwise does nothing.
    pub fn repaint<F: Fn(u16) -> PlayerColor>(&mut self, map: &GameMap, color_of: &F)
        requires
            map.wf(),
            map@.fits_i32(),
            map@.num_tiles() * 4 <= usize::MAX,
            forall|t: int| map@.in_bounds(t) && map@.owner(t) is Some ==> t < map@.terrain.len(),
            forall|id: u16| #[trigger] call_requires(*color_of, (id,)),
        ensures
            if old(self).dirty {
                &&& repainted(old(self).image_data@, final(self).image_data@, map@, *color_of)
                &&& !final(self).dirty
            } else {
                final(self).image_data@ == old(self).image_data@ && !final(self).dirty == !old(
                    self,
                ).dirty
            },
            final(self).alternative_image_data@ == old(self).alternative_image_data@,
            final(self).width == old(self).width,
            final(self).height == old(self).height,
            final(self).alternative_view == old(self).alternative_view,
    {
        if !self.dirty {
            return;
        }
        let n = map.width() * map.height();
        let ghost old_data = self.image_data@;
        let ghost mut bases: Seq<PlayerColor> = Seq::empty();
        let mut tile_ref: usize = 0;
        while tile_ref < n
            invariant
                map.wf(),
                map@.fits_i32(),
                map@.num_tiles() * 4 <= usize::MAX,
                n == map@.num_tiles(),
                forall|t: int| map@.in_bounds(t) && map@.owner(t) is Some ==> t < map@.terrain.len(),
                forall|id: u16| #[trigger] call_requires(*color_of, (id,)),
                tile_ref <= n,
                bases.len() == tile_ref,
                self.image_data@.len() == old_data.len(),
                self.alternative_image_data@ == old(self).alternative_image_data@,
                self.width == old(self).width,
                self.height == old(self).height,
                self.alternative_view == old(self).alternative_view,
                forall|t: int|
                    0 <= t < tile_ref ==> (map@.owner(t) matches Some(id) ==> call_ensures(
                        *color_of,
                        (id,),
                        #[trigger] bases[t],
                    )),
                forall|t: int|
                    0 <= t < tile_ref && pixel_offset(t) + 3 < old_data.len() ==> #[trigger] pixel(
                        self.image_data@,
                        t,
                    ) == pixel(territory_painted(old_data, map@, t, bases[t]), t),
                forall|i: int|
                    pixel_offset(tile_ref as int) <= i < old_data.len() ==> self.image_data@[i]
                        == old_data[i],
                forall|i: int|
                    pixel_offset((old_data.len() / 4) as int) <= i < old_data.len() ==> self.image_data@[i]
                        == old_data[i],
            decreases n - tile_ref,
        {
            let ghost before = self.image_data@;
            proof {
                assert(map@.in_bounds(tile_ref as int));
                assert(map@.owner(tile_ref as int) is Some ==> tile_ref < map@.terrain.len());
                assert(tile_ref * 4 + 3 <= usize::MAX);
            }
            paint_territory(self.image_data.as_mut_slice(), map, tile_ref, color_of);
            proof {
                let t = tile_ref as int;
                let after = self.image_data@;
                let base = match map@.owner(t) {
                    Some(id) => choose|b: PlayerColor|
                        call_ensures(*color_of, (id,), b) && after == territory_painted(
                            before,
                            map@,
                            t,
                            b,
                        ),
                    None => fallout_color(),
                };
                assert(after == territory_painted(before, map@, t, base));
                lemma_painted_frame(before, map@, t, base);
                lemma_painted_frame(old_data, map@, t, base);
                bases = bases.push(base);
                assert forall|u: int|
                    0 <= u < t + 1 && pixel_offset(u) + 3 < old_data.len() implies #[trigger] pixel(
                        after,
                        u,
                    ) == pixel(territory_painted(old_data, map@, u, bases[u]), u) by {
                    if u < t {
                        assert(pixel(before, u) == pixel(
                            territory_painted(old_data, map@, u, bases[u]),
                            u,
                        ));
                        assert(pixel(after, u) =~= pixel(before, u));
                    } else {
                        assert(pixel(after, u) =~= pixel(
                            territory_painted(old_data, map@, u, base),
                            u,
                        ));
                    }
                }
                assert forall|u: int| 0 <= u < t + 1 implies (map@.owner(u) matches Some(id)
                    ==> call_ensures(*color_of, (id,), #[trigger] bases[u])) by {
                    if u < t {
                    }
                }
            }
            tile_ref = tile_ref + 1;
        }
        proof {
            assert(tile_ref == map@.num_tiles());
            assert forall|t: int|
                0 <= t < map@.num_tiles() && pixel_offset(t) + 3 < old_data.len() implies #[trigger] pixel_repainted(
                    old_data,
                    self.image_data@,
                    map@,
                    *color_of,
                    t,
                ) by {
                assert(pixel(self.image_data@, t) == pixel(
                    territory_painted(old_data, map@, t, bases[t]),
                    t,
                ));
                assert(map@.owner(t) matches Some(id) ==> call_ensures(*color_of, (id,), bases[t]));
            }
        }
        self.dirty = false;
    }
}

/// A border shade is never brighter than the player's colour, an interior shade
/// never darker.
pub proof fn lemma_shades_order(c: PlayerColor)
    ensures
        spec_border_color(c).r <= c.r && spec_border_color(c).g <= c.g && spec_border_color(c).b
            <= c.b,
        spec_territory_color(c).r >= c.r && spec_territory_color(c).g >= c.g
            && spec_territory_color(c).b >= c.b,
{
}

/// Painting a tile touches only that tile's four bytes.
pub proof fn lemma_paint_is_local(data: Seq<u8>, t: int, color: PlayerColor, alpha: u8, i: int)
    requires
        0 <= t,
        0 <= i < data.len(),
        !(pixel_offset(t) <= i < pixel_offset(t) + 4),
    ensures
        painted(data, t, color, alpha)[i] == data[i],
        cleared(data, t)[i] == data[i],
{
}
/// What painting a tile gives its pixel (when the image holds it), all other
/// bytes being unchanged:
/// - an owned border tile: each of the owner's channels at 70%, rounded down,
///   fully opaque;
/// - an owned inner tile: each channel plus 30, capped at 255, at opacity 150;
/// - an unowned tile with fallout: brown (128, 64, 0) at opacity 150;
/// - any other tile: its colour kept, fully transparent.
/// An owned tile's pixel does not depend on its fallout bit.
pub proof fn lemma_painted_pixel(data: Seq<u8>, m: MapModel, t: int, base: PlayerColor)
    requires
        0 <= t,
        4 * t + 3 < data.len(),
    ensures
        ({
            let out = territory_painted(data, m, t, base);
            let px = out.subrange(4 * t, 4 * t + 4);
            &&& out.len() == data.len()
            &&& forall|i: int| 0 <= i < data.len() && !(4 * t <= i < 4 * t + 4) ==> out[i] == data[i]
            &&& (m.owner(t) is Some && m.is_border(t)) ==> px == seq![
                (base.r * 7 / 10) as u8,
                (base.g * 7 / 10) as u8,
                (base.b * 7 / 10) as u8,
                255u8,
            ]
            &&& (m.owner(t) is Some && !m.is_border(t)) ==> px == seq![
                if base.r + 30 > 255 { 255u8 } else { (base.r + 30) as u8 },
                if base.g + 30 > 255 { 255u8 } else { (base.g + 30) as u8 },
                if base.b + 30 > 255 { 255u8 } else { (base.b + 30) as u8 },
                150u8,
            ]
            &&& (m.owner(t) is None && m.has_fallout(t)) ==> px == seq![128u8, 64u8, 0u8, 150u8]
            &&& (m.owner(t) is None && !m.has_fallout(t)) ==> px == seq![
                data[4 * t],
                data[4 * t + 1],
                data[4 * t + 2],
                0u8,
            ]
        }),
{
    let out = territory_painted(data, m, t, base);
    assert(out.subrange(4 * t, 4 * t + 4) =~= seq![out[4 * t], out[4 * t + 1], out[4 * t + 2], out[4 * t + 3]]);
}

/// Setting or clearing the fallout bit of an owned tile does not change how it
/// is painted.
pub proof fn lemma_owned_paint_ignores_fallout(data: Seq<u8>, m: MapModel, t: int, base: PlayerColor, value: bool)
    requires
        0 <= t < m.num_tiles(),
        m.state.len() == m.num_tiles(),
        4 * t + 3 < data.len(),
        m.owner(t) is Some,
    ensures
        territory_painted(data, MapModel { state: m.state.update(t, word_with_fallout(m.state[t], value)), ..m }, t, base)
            == territory_painted(data, m, t, base),
{
    let m2 = MapModel { state: m.state.update(t, word_with_fallout(m.state[t], value)), ..m };
    lemma_fallout_after_set(m, t, value);
    assert(m2.owner(t) == m.owner(t));
    assert forall|u: int| 0 <= u < m.num_tiles() implies #[trigger] m2.owner(u) == m.owner(u) by {
        if u != t {
            assert(m2.state[u] == m.state[u]);
        }
    }
    crate::map::lemma_neighbors_in_bounds(m, t);
    let ns = m.neighbors(t);
    assert(m2.neighbors(t) == ns);
    assert forall|i: int| 0 <= i < ns.len() implies #[trigger] m2.owner(ns[i]) == m.owner(ns[i]) by {
        assert(m.in_bounds(ns[i]));
    }
    if m.is_border(t) {
        let i = choose|i: int| 0 <= i < ns.len() && #[trigger] m.owner(ns[i]) != m.owner(t);
        assert(m2.owner(ns[i]) != m2.owner(t));
    }
    if m2.is_border(t) {
        let i = choose|i: int| 0 <= i < ns.len() && #[trigger] m2.owner(ns[i]) != m2.owner(t);
        assert(m.owner(ns[i]) != m.owner(t));
    }
    assert(m2.is_border(t) == m.is_border(t));
}

} // verus!
