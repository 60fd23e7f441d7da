//! A display slot: one on-screen image bound to at most one cached asset,
//! with its placement, stretch flag and zoom.
//!
//! Zoom is kept in thousandths (1000 is 100%) and never drops below
//! `MIN_ZOOM` (10%). Positions and box sizes are in whole pixels; drawn
//! sizes come out in thousandths of a pixel, so no rounding takes place.
use vstd::prelude::*;

use crate::alpha_mask::{mask_bit, mask_bit_at};
use crate::image_preload::{AssetEntry, TextureManager};

verus! {

/// The smallest zoom a slot keeps, in thousandths.
pub const MIN_ZOOM: u32 = 100;

/// The zoom of an unscaled image, in thousandths.
pub const UNIT_ZOOM: u32 = 1000;

/// A requested zoom, held to the floor (and to what a `u32` can hold).
pub open spec fn clamp_zoom(z: int) -> int {
    if z < MIN_ZOOM as int {
        MIN_ZOOM as int
    } else if z > u32::MAX as int {
        u32::MAX as int
    } else {
        z
    }
}

/// What a slot records.
pub struct SlotView {
    pub bound: Option<Seq<char>>,
    pub x: int,
    pub y: int,
    pub width: nat,
    pub height: nat,
    pub stretch: bool,
    pub zoom: nat,
}

/// Where and how large to draw a slot's texture. Sizes are in thousandths
/// of a pixel.
#[derive(Clone, Copy, Debug, PartialEq, Eq, Structural)]
pub struct RenderParams {
    pub x: i32,
    pub y: i32,
    pub width_milli: u64,
    pub height_milli: u64,
}

/// The size to draw: the slot's box when stretching, else the asset's own
/// size, scaled by the zoom.
pub open spec fn render_size(stretch: bool, box_w: nat, box_h: nat, asset_w: nat, asset_h: nat, zoom: nat) -> (
    nat,
    nat,
) {
    if stretch {
        ((box_w * zoom) as nat, (box_h * zoom) as nat)
    } else {
        ((asset_w * zoom) as nat, (asset_h * zoom) as nat)
    }
}

/// One image slot. It holds the id of the asset it shows, never pixel data.
pub struct ImageObject {
    bound: Option<String>,
    x: i32,
    y: i32,
    width: u32,
    height: u32,
    stretch_enabled: bool,
    zoom_level: u32,
}

impl View for ImageObject {
    type V = SlotView;

    closed spec fn view(&self) -> SlotView {
        SlotView {
            bound: match self.bound {
                Some(s) => Some(s@),
                None => None,
            },
            x: self.x as int,
            y: self.y as int,
            width: self.width as nat,
            height: self.height as nat,
            stretch: self.stretch_enabled,
            zoom: self.zoom_level as nat,
        }
    }
}

impl ImageObject {
    /// The zoom is at or above its floor.
    pub open spec fn wf(&self) -> bool {
        self@.zoom >= MIN_ZOOM
    }

    /// The bound asset, if any, is in `cache`.
    pub open spec fn bound_in(&self, cache: &TextureManager) -> bool {
        self@.bound matches Some(id) ==> cache.entries().contains_key(id)
    }

    /// A slot bound to whatever `asset_path` resolves to in `cache`, or
    /// cleared when it resolves to nothing.
    pub fn new(
        cache: &TextureManager,
        asset_path: &str,
        width: u32,
        height: u32,
        x: i32,
        y: i32,
        stretch_enabled: bool,
        zoom_level: i64,
    ) -> (r: Self)
        requires
            cache.wf(),
        ensures
            r.wf(),
            r.bound_in(cache),
            r@ == (SlotView {
                bound: cache.resolves_to(asset_path@),
                x: x as int,
                y: y as int,
                width: width as nat,
                height: height as nat,
                stretch: stretch_enabled,
                zoom: clamp_zoom(zoom_level as int) as nat,
            }),
    {
        let bound = match cache.resolve(asset_path) {
            Some(e) => Some(e.id.clone()),
            None => None,
        };
        ImageObject {
            bound,
            x,
            y,
            width,
            height,
            stretch_enabled,
            zoom_level: Self::clamped(zoom_level as i128),
        }
    }

    fn clamped(z: i128) -> (r: u32)
        ensures
            r == clamp_zoom(z as int),
    {
        if z < MIN_ZOOM as i128 {
            MIN_ZOOM
        } else if z > u32::MAX as i128 {
            u32::MAX
        } else {
            z as u32
        }
    }

    pub fn pos(&self) -> (r: (i32, i32))
        ensures
            r.0 == self@.x && r.1 == self@.y,
    {
        (self.x, self.y)
    }

    /// The slot's box size.
    pub fn size(&self) -> (r: (u32, u32))
        ensures
            r.0 == self@.width && r.1 == self@.height,
    {
        (self.width, self.height)
    }

    pub fn set_position(&mut self, x: i32, y: i32)
        ensures
            final(self)@ == (SlotView { x: x as int, y: y as int, ..old(self)@ }),
    {
        self.x = x;
        self.y = y;
    }

    pub fn enable_stretch(&mut self)
        ensures
            final(self)@ == (SlotView { stretch: true, ..old(self)@ }),
    {
        self.stretch_enabled = true;
    }

    pub fn disable_stretch(&mut self)
        ensures
            final(self)@ == (SlotView { stretch: false, ..old(self)@ }),
    {
        self.stretch_enabled = false;
    }

    pub fn toggle_stretch(&mut self)
        ensures
            final(self)@ == (SlotView { stretch: !old(self)@.stretch, ..old(self)@ }),
    {
        self.stretch_enabled = !self.stretch_enabled;
    }

    pub fn is_stretch_enabled(&self) -> (r: bool)
        ensures
            r == self@.stretch,
    {
        self.stretch_enabled
    }

    pub fn set_stretch(&mut self, enabled: bool)
        ensures
            final(self)@ == (SlotView { stretch: enabled, ..old(self)@ }),
    {
        self.stretch_enabled = enabled;
    }

    /// Sets the zoom, in thousandths, held to the floor.
    pub fn set_zoom(&mut self, zoom_level: i64)
        ensures
            final(self).wf(),
            final(self)@ == (SlotView { zoom: clamp_zoom(zoom_level as int) as nat, ..old(self)@ }),
    {
        self.zoom_level = Self::clamped(zoom_level as i128);
    }

    /// Adds `amount` thousandths to the zoom, held to the floor.
    pub fn zoom_in(&mut self, amount: i64)
        ensures
            final(self).wf(),
            final(self)@ == (SlotView {
                zoom: clamp_zoom(old(self)@.zoom + amount) as nat,
                ..old(self)@
            }),
    {
        self.zoom_level = Self::clamped(self.zoom_level as i128 + amount as i128);
    }

    /// Takes `amount` thousandths off the zoom, held to the floor.
    pub fn zoom_out(&mut self, amount: i64)
        ensures
            final(self).wf(),
            final(self)@ == (SlotView {
                zoom: clamp_zoom(old(self)@.zoom - amount) as nat,
                ..old(self)@
            }),
    {
        self.zoom_level = Self::clamped(self.zoom_level as i128 - amount as i128);
    }

    /// The zoom, in thousandths.
    pub fn get_zoom_level(&self) -> (r: u32)
        ensures
            r == self@.zoom,
    {
        self.zoom_level
    }

    pub fn reset_zoom(&mut self)
        ensures
            final(self).wf(),
            final(self)@ == (SlotView { zoom: UNIT_ZOOM as nat, ..old(self)@ }),
    {
        self.zoom_level = UNIT_ZOOM;
    }

    /// Binds the slot to the asset `key` resolves to (an id, else an
    /// alias). When nothing resolves, reports `false` and keeps the slot as
    /// it was.
    pub fn switch_texture(&mut self, cache: &TextureManager, key: &str) -> (r: bool)
        requires
            cache.wf(),
        ensures
            r == cache.resolves_to(key@) is Some,
            r ==> final(self)@ == (SlotView { bound: cache.resolves_to(key@), ..old(self)@ }),
            !r ==> final(self)@ == old(self)@,
            old(self).bound_in(cache) ==> final(self).bound_in(cache),
    {
        match cache.resolve(key) {
            Some(e) => {
                self.bound = Some(e.id.clone());
                true
            },
            None => false,
        }
    }

    /// Binds the slot to the asset that alias `name` points at. When `name`
    /// is no alias, reports `false` and keeps the slot as it was.
    pub fn switch_texture_by_name(&mut self, cache: &TextureManager, name: &str) -> (r: bool)
        requires
            cache.wf(),
        ensures
            r == cache.aliases().contains_key(name@),
            r ==> final(self)@ == (SlotView {
                bound: Some(cache.aliases()[name@]),
                ..old(self)@
            }),
            !r ==> final(self)@ == old(self)@,
            old(self).bound_in(cache) ==> final(self).bound_in(cache),
    {
        match cache.get_by_name(name) {
            Some(e) => {
                self.bound = Some(e.id.clone());
                true
            },
            None => false,
        }
    }

    /// Unbinds the slot: it shows nothing until bound again.
    pub fn clear_image(&mut self)
        ensures
            final(self)@ == (SlotView { bound: None, ..old(self)@ }),
    {
        self.bound = None;
    }

    pub fn is_empty(&self) -> (r: bool)
        ensures
            r == self@.bound is None,
    {
        self.bound.is_none()
    }

    /// Whether hit-testing applies: the slot shows an asset.
    pub fn is_collidable(&self) -> (r: bool)
        ensures
            r == self@.bound is Some,
    {
        !self.is_empty()
    }

    /// The id of the bound asset.
    pub fn get_current_texture_path(&self) -> (r: Option<String>)
        ensures
            match r {
                Some(s) => self@.bound == Some(s@),
                None => self@.bound is None,
            },
    {
        match &self.bound {
            Some(s) => Some(s.clone()),
            None => None,
        }
    }

    fn bound_entry<'a>(&self, cache: &'a TextureManager) -> (r: Option<&'a AssetEntry>)
        requires
            cache.wf(),
            self.bound_in(cache),
        ensures
            match self@.bound {
                Some(id) => r is Some && r->0.id@ == id && r->0@ == cache.entries()[id],
                None => r is None,
            },
    {
        match &self.bound {
            Some(id) => cache.get(id.as_str()),
            None => None,
        }
    }

    /// The pixel size of the bound asset.
    pub fn texture_size(&self, cache: &TextureManager) -> (r: Option<(u16, u16)>)
        requires
            cache.wf(),
            self.bound_in(cache),
        ensures
            match self@.bound {
                Some(id) => r == Some(
                    (cache.entries()[id].width as u16, cache.entries()[id].height as u16),
                ),
                None => r is None,
            },
    {
        match self.bound_entry(cache) {
            Some(e) => Some((e.width, e.height)),
            None => None,
        }
    }

    /// The alpha mask of the bound asset.
    pub fn get_mask<'a>(&self, cache: &'a TextureManager) -> (r: Option<&'a Vec<u8>>)
        requires
            cache.wf(),
            self.bound_in(cache),
        ensures
            match self@.bound {
                Some(id) => r is Some && r->0@ == cache.entries()[id].mask,
                None => r is None,
            },
    {
        match self.bound_entry(cache) {
            Some(e) => Some(&e.mask),
            None => None,
        }
    }

    /// Where and how large to draw the bound asset; nothing when cleared.
    pub fn render_params(&self, cache: &TextureManager) -> (r: Option<RenderParams>)
        requires
            cache.wf(),
            self.bound_in(cache),
        ensures
            match self@.bound {
                Some(id) => r is Some && r->0.x == self@.x && r->0.y == self@.y && (
                    r->0.width_milli as nat,
                    r->0.height_milli as nat,
                ) == render_size(
                    self@.stretch,
                    self@.width,
                    self@.height,
                    cache.entries()[id].width,
                    cache.entries()[id].height,
                    self@.zoom,
                ),
                None => r is None,
            },
    {
        match self.bound_entry(cache) {
            Some(e) => {
                let (w, h): (u64, u64) = if self.stretch_enabled {
                    (self.width as u64, self.height as u64)
                } else {
                    (e.width as u64, e.height as u64)
                };
                let z = self.zoom_level as u64;
                assert(w * z <= u32::MAX * u32::MAX && h * z <= u32::MAX * u32::MAX)
                    by (nonlinear_arith)
                    requires
                        w <= u32::MAX,
                        h <= u32::MAX,
                        z <= u32::MAX,
                ;
                Some(RenderParams { x: self.x, y: self.y, width_milli: w * z, height_milli: h * z })
            },
            None => None,
        }
    }

    /// Whether the bound asset is opaque at pixel (`local_x`, `local_y`) of
    /// its own pixel grid. False when cleared or outside the image.
    pub fn hit_test(&self, cache: &TextureManager, local_x: u32, local_y: u32) -> (r: bool)
        requires
            cache.wf(),
            self.bound_in(cache),
        ensures
            r == match self@.bound {
                Some(id) => {
                    let a = cache.entries()[id];
                    local_x < a.width && local_y < a.height && mask_bit(
                        a.mask,
                        local_y * a.width + local_x,
                    )
                },
                None => false,
            },
    {
        match self.bound_entry(cache) {
            Some(e) => {
                if local_x >= e.width as u32 || local_y >= e.height as u32 {
                    return false;
                }
                let w = e.width as u64;
                assert((local_y as int) * (w as int) <= 0xffff * 0xffff) by (nonlinear_arith)
                    requires
                        local_y < 0x10000,
                        w < 0x10000,
                ;
                let p: u64 = local_y as u64 * w + local_x as u64;
                proof {
                    let a = e@;
                    cache.lemma_wf_facts();
                    assert(a.wf());
                    assert((local_y as int) * (a.width as int) + (local_x as int) < (a.width as int)
                        * (a.height as int)) by (nonlinear_arith)
                        requires
                            local_x < a.width,
                            local_y < a.height,
                    ;
                }
                mask_bit_at(&e.mask, p)
            },
            None => false,
        }
    }
}

/// The zoom left after adding each delta in turn, clamping after each.
pub open spec fn zoom_after(start: int, deltas: Seq<int>) -> int
    decreases deltas.len(),
{
    if deltas.len() == 0 {
        start
    } else {
        clamp_zoom(zoom_after(start, deltas.drop_last()) + deltas.last())
    }
}

/// No sequence of zoom changes, however negative, takes a slot's zoom below
/// the floor.
pub proof fn lemma_zoom_stays_above_floor(start: int, deltas: Seq<int>)
    requires
        start >= MIN_ZOOM,
    ensures
        zoom_after(start, deltas) >= MIN_ZOOM,
        forall|z: int| #[trigger] clamp_zoom(z) >= MIN_ZOOM,
    decreases deltas.len(),
{
    if deltas.len() > 0 {
        lemma_zoom_stays_above_floor(start, deltas.drop_last());
    }
}

/// A slot's binding stays valid while the cache only gains entries.
pub proof fn lemma_binding_survives_growth(
    slot: &ImageObject,
    before: &TextureManager,
    after: &TextureManager,
)
    requires
        slot.bound_in(before),
        before.entries().submap_of(after.entries()),
    ensures
        slot.bound_in(after),
{
}

} // verus!
