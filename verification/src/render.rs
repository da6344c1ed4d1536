//! The CPU rasterizer's bookkeeping: what it drew, and its masks.
//!
//! Masks: Ruffle's mask protocol is `push_mask`, the
//! mask's own geometry, `activate_mask`, the maskee, `deactivate_mask`, the
//! same geometry once more (replayed for a stencil to clear), `pop_mask`. A
//! mask can also be pushed and popped again without ever being activated,
//! so each level carries its own state rather than sharing a depth counter.
//!
//! Each mask remembers the box of pixels it may have touched: only that box
//! is ever cleared or multiplied, and outside it the mask is zero. Here a
//! mask is modelled by its size and that box; rasterizing geometry into it
//! is the rasterizer's part, which reports the box the geometry covers.

use vstd::prelude::*;

verus! {

/// What a frame asked the rasterizer to draw, by kind.
#[derive(Default, Debug)]
pub struct SpikeStats {
    pub shapes: u32,
    pub bitmaps: u32,
    pub rects: u32,
    pub lines: u32,
    pub masks: u32,
    pub alpha_masks: u32,
    pub blends: u32,
    pub offscreen: u32,
    pub bitmap_fills: u32,
}

/// A non-empty box of pixels: `left`/`top` inclusive, `right`/`bottom`
/// exclusive.
#[derive(Debug, Clone, Copy, PartialEq, Eq, Structural)]
pub struct PixelBox {
    pub left: i32,
    pub top: i32,
    pub right: i32,
    pub bottom: i32,
}

/// The box `from_ltrb` makes: width and height positive and no wider than
/// `i32::MAX`.
pub open spec fn ltrb_ok(l: int, t: int, r: int, b: int) -> bool {
    0 < r - l <= i32::MAX && 0 < b - t <= i32::MAX
}

pub open spec fn box_ok(b: PixelBox) -> bool {
    ltrb_ok(b.left as int, b.top as int, b.right as int, b.bottom as int)
}

/// The box with the given edges, `None` when it would be empty or too wide.
pub fn from_ltrb(left: i32, top: i32, right: i32, bottom: i32) -> (r: Option<PixelBox>)
    ensures
        r is Some <==> ltrb_ok(left as int, top as int, right as int, bottom as int),
        r matches Some(b) ==> b == (PixelBox { left, top, right, bottom }),
{
    let w = (right as i64) - (left as i64);
    let h = (bottom as i64) - (top as i64);
    if 0 < w && w <= i32::MAX as i64 && 0 < h && h <= i32::MAX as i64 {
        Some(PixelBox { left, top, right, bottom })
    } else {
        None
    }
}

pub open spec fn min(a: int, b: int) -> int {
    if a <= b {
        a
    } else {
        b
    }
}

pub open spec fn max(a: int, b: int) -> int {
    if a >= b {
        a
    } else {
        b
    }
}

/// The smallest box holding both, or `a` when that box would be too wide.
pub open spec fn union_spec(a: PixelBox, b: PixelBox) -> PixelBox {
    let l = min(a.left as int, b.left as int);
    let t = min(a.top as int, b.top as int);
    let r = max(a.right as int, b.right as int);
    let bt = max(a.bottom as int, b.bottom as int);
    if ltrb_ok(l, t, r, bt) {
        PixelBox { left: l as i32, top: t as i32, right: r as i32, bottom: bt as i32 }
    } else {
        a
    }
}

/// The overlap of two boxes, `None` when they do not overlap.
pub open spec fn intersection_spec(a: PixelBox, b: PixelBox) -> Option<PixelBox> {
    let l = max(a.left as int, b.left as int);
    let t = max(a.top as int, b.top as int);
    let r = min(a.right as int, b.right as int);
    let bt = min(a.bottom as int, b.bottom as int);
    if l >= r || t >= bt || !ltrb_ok(l, t, r, bt) {
        None
    } else {
        Some(PixelBox { left: l as i32, top: t as i32, right: r as i32, bottom: bt as i32 })
    }
}

/// The smallest box holding both boxes.
pub fn union(a: PixelBox, b: PixelBox) -> (r: PixelBox)
    ensures
        r == union_spec(a, b),
{
    let l = if a.left <= b.left { a.left } else { b.left };
    let t = if a.top <= b.top { a.top } else { b.top };
    let r = if a.right >= b.right { a.right } else { b.right };
    let bt = if a.bottom >= b.bottom { a.bottom } else { b.bottom };
    match from_ltrb(l, t, r, bt) {
        Some(u) => u,
        None => a,
    }
}

/// The overlap of two boxes.
pub fn intersection(a: PixelBox, b: PixelBox) -> (r: Option<PixelBox>)
    ensures
        r == intersection_spec(a, b),
{
    let l = if a.left >= b.left { a.left } else { b.left };
    let t = if a.top >= b.top { a.top } else { b.top };
    let r = if a.right <= b.right { a.right } else { b.right };
    let bt = if a.bottom <= b.bottom { a.bottom } else { b.bottom };
    if l >= r || t >= bt {
        return None;
    }
    from_ltrb(l, t, r, bt)
}

/// `inner` lies within `outer`.
pub open spec fn within(inner: PixelBox, outer: PixelBox) -> bool {
    outer.left <= inner.left && inner.right <= outer.right && outer.top <= inner.top
        && inner.bottom <= outer.bottom
}

/// The overlap of two boxes lies within each of them.
pub proof fn law_intersection_within(a: PixelBox, b: PixelBox)
    ensures
        intersection_spec(a, b) matches Some(c) ==> within(c, a) && within(c, b),
{
}

/// Each of two well-formed boxes lies within their union.
pub proof fn law_union_holds_both(a: PixelBox, b: PixelBox)
    requires
        box_ok(a),
        box_ok(b),
    ensures
        within(a, union_spec(a, b)),
        ltrb_ok(
            min(a.left as int, b.left as int),
            min(a.top as int, b.top as int),
            max(a.right as int, b.right as int),
            max(a.bottom as int, b.bottom as int),
        ) ==> within(b, union_spec(a, b)),
{
}


/// A full-frame mask: its size, and the box of pixels that may be non-zero
/// (`None`: all zero, a clip that lets nothing through).
#[derive(Debug, Clone, Copy, PartialEq, Eq, Structural)]
pub struct BoundedMask {
    pub width: u32,
    pub height: u32,
    pub dirty: Option<PixelBox>,
}

/// One level of the stack.
#[derive(Debug, Clone, Copy, PartialEq, Eq, Structural)]
pub enum MaskLevel {
    /// Geometry submitted now defines this mask instead of being drawn.
    Building(BoundedMask),
    /// This mask clips every draw until it is popped.
    Active(BoundedMask),
}

/// The mask stack, and the retired masks kept for reuse.
pub struct MaskStack {
    pub levels: Vec<MaskLevel>,
    pub spare: Vec<BoundedMask>,
}

/// The stack's levels and spares.
pub type Masks = (Seq<MaskLevel>, Seq<BoundedMask>);

pub open spec fn masks_of(m: MaskStack) -> Masks {
    (m.levels@, m.spare@)
}

pub open spec fn level_mask(l: MaskLevel) -> BoundedMask {
    match l {
        MaskLevel::Building(m) => m,
        MaskLevel::Active(m) => m,
    }
}

/// A fresh (or cleared) mask of the given size.
pub open spec fn clean(width: u32, height: u32) -> BoundedMask {
    BoundedMask { width, height, dirty: None }
}

/// The last spare of the given size.
pub open spec fn last_fit(spare: Seq<BoundedMask>, width: u32, height: u32) -> Option<int>
    decreases spare.len(),
{
    if spare.len() == 0 {
        None
    } else if spare.last().width == width && spare.last().height == height {
        Some(spare.len() - 1)
    } else {
        last_fit(spare.drop_last(), width, height)
    }
}

proof fn lemma_last_fit_range(spare: Seq<BoundedMask>, width: u32, height: u32)
    ensures
        last_fit(spare, width, height) matches Some(k) ==> 0 <= k < spare.len(),
    decreases spare.len(),
{
    if spare.len() > 0 {
        lemma_last_fit_range(spare.drop_last(), width, height);
    }
}

/// A mask for a new level: spares are taken from the top, those of another
/// size dropped, the first that fits cleared and reused; when none fits a
/// new one is made, unless the size is empty.
pub open spec fn take_spec(spare: Seq<BoundedMask>, width: u32, height: u32) -> (Option<BoundedMask>, Seq<BoundedMask>) {
    match last_fit(spare, width, height) {
        Some(k) => (Some(clean(width, height)), spare.take(k)),
        None => (
            if width > 0 && height > 0 {
                Some(clean(width, height))
            } else {
                None
            },
            Seq::empty(),
        ),
    }
}

/// The innermost mask that is clipping.
pub open spec fn active_of(levels: Seq<MaskLevel>) -> Option<BoundedMask>
    decreases levels.len(),
{
    if levels.len() == 0 {
        None
    } else {
        match levels.last() {
            MaskLevel::Active(m) => Some(m),
            MaskLevel::Building(_) => active_of(levels.drop_last()),
        }
    }
}

/// Geometry submitted now defines a mask.
pub open spec fn defining_spec(levels: Seq<MaskLevel>) -> bool {
    levels.len() > 0 && levels.last() is Building
}

/// The innermost clip lets nothing through.
pub open spec fn clip_empty_spec(levels: Seq<MaskLevel>) -> bool {
    active_of(levels) matches Some(m) && m.dirty is None
}

pub open spec fn push_spec(s: Masks, width: u32, height: u32) -> Masks {
    let (m, spare) = take_spec(s.1, width, height);
    match m {
        Some(mask) => (s.0.push(MaskLevel::Building(mask)), spare),
        None => (s.0, spare),
    }
}

/// Geometry's box added to the mask being defined; ignored when none is.
pub open spec fn fill_spec(s: Masks, bounds: Option<PixelBox>) -> Masks {
    match bounds {
        None => s,
        Some(b) => if defining_spec(s.0) {
            let m = level_mask(s.0.last());
            let d = match m.dirty {
                Some(d) => union_spec(d, b),
                None => b,
            };
            (
                s.0.update(
                    s.0.len() - 1,
                    MaskLevel::Building(BoundedMask { width: m.width, height: m.height, dirty: Some(d) }),
                ),
                s.1,
            )
        } else {
            s
        },
    }
}

/// A mask intersected with an enclosing clip: only the inner box is
/// multiplied, so the box shrinks to the overlap, or to nothing. Masks of
/// different sizes are left alone.
pub open spec fn intersect_spec(mask: BoundedMask, other: BoundedMask) -> BoundedMask {
    if mask.width != other.width || mask.height != other.height {
        mask
    } else {
        match mask.dirty {
            None => mask,
            Some(inner) => BoundedMask {
                width: mask.width,
                height: mask.height,
                dirty: match other.dirty {
                    Some(o) => intersection_spec(inner, o),
                    None => None,
                },
            },
        }
    }
}

pub open spec fn activate_spec(s: Masks) -> Masks {
    if !defining_spec(s.0) {
        s
    } else {
        let m = level_mask(s.0.last());
        let rest = s.0.drop_last();
        let m2 = match active_of(rest) {
            Some(outer) => intersect_spec(m, outer),
            None => m,
        };
        (rest.push(MaskLevel::Active(m2)), s.1)
    }
}

pub open spec fn deactivate_spec(s: Masks, width: u32, height: u32) -> Masks {
    let s1 = if s.0.len() > 0 && s.0.last() is Active {
        (s.0.drop_last(), s.1.push(level_mask(s.0.last())))
    } else {
        s
    };
    push_spec(s1, width, height)
}

pub open spec fn pop_spec(s: Masks) -> Masks {
    if s.0.len() == 0 {
        s
    } else {
        (s.0.drop_last(), s.1.push(level_mask(s.0.last())))
    }
}

pub open spec fn level_masks(levels: Seq<MaskLevel>) -> Seq<BoundedMask> {
    levels.map_values(|l: MaskLevel| level_mask(l))
}

pub open spec fn reset_spec(s: Masks) -> Masks {
    (Seq::empty(), s.1 + level_masks(s.0))
}

fn mask_of(l: MaskLevel) -> (m: BoundedMask)
    ensures
        m == level_mask(l),
{
    match l {
        MaskLevel::Building(m) => m,
        MaskLevel::Active(m) => m,
    }
}

impl MaskStack {
    /// No levels, no spares.
    pub fn new() -> (s: MaskStack)
        ensures
            s.levels@.len() == 0,
            s.spare@.len() == 0,
    {
        MaskStack { levels: Vec::new(), spare: Vec::new() }
    }

    /// Geometry submitted now defines a mask instead of being drawn.
    pub fn defining(&self) -> (b: bool)
        ensures
            b == defining_spec(self.levels@),
    {
        match self.levels.last() {
            Some(MaskLevel::Building(_)) => true,
            _ => false,
        }
    }

    /// The innermost mask that is clipping.
    pub fn active(&self) -> (r: Option<BoundedMask>)
        ensures
            r == active_of(self.levels@),
    {
        let mut i = self.levels.len();
        assert(self.levels@.take(i as int) =~= self.levels@);
        while i > 0
            invariant
                i <= self.levels@.len(),
                active_of(self.levels@) == active_of(self.levels@.take(i as int)),
            decreases i,
        {
            proof {
                assert(self.levels@.take(i as int).drop_last() =~= self.levels@.take(i - 1));
            }
            match self.levels[i - 1] {
                MaskLevel::Active(m) => {
                    return Some(m);
                },
                MaskLevel::Building(_) => {},
            }
            i = i - 1;
        }
        None
    }

    /// The innermost clip lets nothing through: skip the draw.
    pub fn clip_is_empty(&self) -> (b: bool)
        ensures
            b == clip_empty_spec(self.levels@),
    {
        match self.active() {
            Some(m) => m.dirty.is_none(),
            None => false,
        }
    }

    fn take(&mut self, width: u32, height: u32) -> (r: Option<BoundedMask>)
        ensures
            (r, final(self).spare@) == take_spec(old(self).spare@, width, height),
            final(self).levels@ == old(self).levels@,
    {
        while self.spare.len() > 0
            invariant
                self.levels@ == old(self).levels@,
                last_fit(old(self).spare@, width, height) == last_fit(self.spare@, width, height),
                take_spec(old(self).spare@, width, height).1 == take_spec(self.spare@, width, height).1,
            decreases self.spare@.len(),
        {
            let ghost before = self.spare@;
            let m = self.spare.pop().unwrap();
            proof {
                assert(self.spare@ =~= before.drop_last());
            }
            if m.width == width && m.height == height {
                assert(before.take(before.len() - 1) =~= self.spare@);
                return Some(BoundedMask { width, height, dirty: None });
            }
            proof {
                match last_fit(self.spare@, width, height) {
                    Some(k) => {
                        lemma_last_fit_range(self.spare@, width, height);
                        assert(before.take(k) =~= self.spare@.take(k));
                    },
                    None => {},
                }
            }
        }
        if width > 0 && height > 0 {
            Some(BoundedMask { width, height, dirty: None })
        } else {
            None
        }
    }

    /// Start defining a new mask of the given size.
    pub fn push(&mut self, width: u32, height: u32)
        ensures
            masks_of(*final(self)) == push_spec(masks_of(*old(self)), width, height),
    {
        match self.take(width, height) {
            Some(m) => {
                self.levels.push(MaskLevel::Building(m));
            },
            None => {},
        }
    }

    /// Geometry covering `bounds` (as the rasterizer reports it, `None` for
    /// degenerate geometry) goes into the mask being defined.
    pub fn fill(&mut self, bounds: Option<PixelBox>)
        ensures
            masks_of(*final(self)) == fill_spec(masks_of(*old(self)), bounds),
    {
        let b = match bounds {
            Some(b) => b,
            None => {
                return;
            },
        };
        if !self.defining() {
            return;
        }
        let ghost before = self.levels@;
        let m = mask_of(self.levels.pop().unwrap());
        let d = match m.dirty {
            Some(d) => union(d, b),
            None => b,
        };
        self.levels.push(
            MaskLevel::Building(BoundedMask { width: m.width, height: m.height, dirty: Some(d) }),
        );
        assert(self.levels@ =~= before.update(
            before.len() - 1,
            MaskLevel::Building(BoundedMask { width: m.width, height: m.height, dirty: Some(d) }),
        ));
    }

    /// The mask is complete: intersect it with any enclosing clip and apply
    /// it.
    pub fn activate(&mut self)
        ensures
            masks_of(*final(self)) == activate_spec(masks_of(*old(self))),
    {
        if !self.defining() {
            return;
        }
        let m = mask_of(self.levels.pop().unwrap());
        let m2 = match self.active() {
            Some(outer) => intersect(m, outer),
            None => m,
        };
        self.levels.push(MaskLevel::Active(m2));
    }

    /// The maskee is done; the mask's geometry follows again, collected in a
    /// fresh mask that is thrown away.
    pub fn deactivate(&mut self, width: u32, height: u32)
        ensures
            masks_of(*final(self)) == deactivate_spec(masks_of(*old(self)), width, height),
    {
        let is_active = match self.levels.last() {
            Some(MaskLevel::Active(_)) => true,
            _ => false,
        };
        if is_active {
            let m = mask_of(self.levels.pop().unwrap());
            self.spare.push(m);
        }
        self.push(width, height);
    }

    /// Drop the innermost level, whatever its state.
    pub fn pop(&mut self)
        ensures
            masks_of(*final(self)) == pop_spec(masks_of(*old(self))),
    {
        match self.levels.pop() {
            Some(l) => {
                self.spare.push(mask_of(l));
            },
            None => {},
        }
    }

    /// A frame must not inherit a clip from an unbalanced previous one.
    pub fn reset(&mut self)
        ensures
            masks_of(*final(self)) == reset_spec(masks_of(*old(self))),
    {
        let mut i: usize = 0;
        let n = self.levels.len();
        assert(level_masks(self.levels@).take(0) =~= Seq::<BoundedMask>::empty());
        while i < n
            invariant
                i <= n,
                n == old(self).levels@.len(),
                self.levels@ == old(self).levels@,
                self.spare@ == old(self).spare@ + level_masks(old(self).levels@).take(i as int),
            decreases n - i,
        {
            let m = mask_of(self.levels[i]);
            self.spare.push(m);
            proof {
                assert(level_masks(old(self).levels@).take(i + 1) =~= level_masks(
                    old(self).levels@,
                ).take(i as int).push(m));
                assert(self.spare@ =~= old(self).spare@ + level_masks(old(self).levels@).take(
                    i + 1,
                ));
            }
            i = i + 1;
        }
        self.levels.clear();
        assert(level_masks(old(self).levels@).take(n as int) =~= level_masks(old(self).levels@));
    }
}

fn intersect(mask: BoundedMask, other: BoundedMask) -> (r: BoundedMask)
    ensures
        r == intersect_spec(mask, other),
{
    if mask.width != other.width || mask.height != other.height {
        return mask;
    }
    match mask.dirty {
        None => mask,
        Some(inner) => BoundedMask {
            width: mask.width,
            height: mask.height,
            dirty: match other.dirty {
                Some(o) => intersection(inner, o),
                None => None,
            },
        },
    }
}


proof fn lemma_active_push_building(levels: Seq<MaskLevel>, m: BoundedMask)
    ensures
        active_of(levels.push(MaskLevel::Building(m))) == active_of(levels),
{
    assert(levels.push(MaskLevel::Building(m)).drop_last() =~= levels);
}

/// A pushed mask is clean, whether new or reused, and is being defined:
/// geometry now defines it and draws are clipped as before.
pub proof fn law_pushed_mask_is_clean(s: Masks, width: u32, height: u32)
    requires
        width > 0,
        height > 0,
    ensures
        push_spec(s, width, height).0 == s.0.push(MaskLevel::Building(clean(width, height))),
        defining_spec(push_spec(s, width, height).0),
        active_of(push_spec(s, width, height).0) == active_of(s.0),
{
    lemma_active_push_building(s.0, clean(width, height));
}

/// A mask pushed and popped again without activation leaves the clip
/// stack as it was: the outer clip survives.
pub proof fn law_push_pop_keeps_outer(s: Masks, width: u32, height: u32)
    requires
        width > 0,
        height > 0,
    ensures
        pop_spec(push_spec(s, width, height)).0 == s.0,
{
    assert(s.0.push(MaskLevel::Building(clean(width, height))).drop_last() =~= s.0);
}

/// The protocol: push defines a clean mask; after its geometry, activate
/// makes it the clip; deactivate retires it and collects the replayed
/// geometry in a mask that is not content; pop returns to the outer state.
pub proof fn law_mask_protocol(s: Masks, width: u32, height: u32, geometry: Option<PixelBox>)
    requires
        width > 0,
        height > 0,
    ensures
        ({
            let a = fill_spec(push_spec(s, width, height), geometry);
            let b = activate_spec(a);
            let c = deactivate_spec(b, width, height);
            let d = pop_spec(c);
            &&& defining_spec(a.0)
            &&& !defining_spec(b.0)
            &&& active_of(b.0) is Some
            &&& b.0.len() == s.0.len() + 1
            &&& defining_spec(c.0)
            &&& c.0.len() == s.0.len() + 1
            &&& active_of(c.0) == active_of(s.0)
            &&& level_mask(c.0.last()).dirty is None
            &&& d.0 == s.0
        }),
{
    let p = push_spec(s, width, height);
    assert(p.0 == s.0.push(MaskLevel::Building(clean(width, height))));
    let a = fill_spec(p, geometry);
    assert(a.0.len() == p.0.len());
    assert(a.0.drop_last() =~= s.0);
    let b = activate_spec(a);
    assert(b.0.drop_last() =~= s.0);
    let b1 = (b.0.drop_last(), b.1.push(level_mask(b.0.last())));
    let c = deactivate_spec(b, width, height);
    assert(c.0 == b1.0.push(MaskLevel::Building(clean(width, height))));
    lemma_active_push_building(s.0, clean(width, height));
    assert(c.0.drop_last() =~= s.0);
}

/// Activating a mask inside a clip of the same size keeps it within that
/// clip's box: what the outer mask blocks, the inner one blocks too.
pub proof fn law_activate_within_outer(s: Masks, outer: BoundedMask, o: PixelBox)
    requires
        defining_spec(s.0),
        active_of(s.0.drop_last()) == Some(outer),
        outer.dirty == Some(o),
        level_mask(s.0.last()).width == outer.width,
        level_mask(s.0.last()).height == outer.height,
    ensures
        ({
            let inner = level_mask(activate_spec(s).0.last());
            &&& activate_spec(s).0.last() is Active
            &&& inner.dirty matches Some(d) ==> within(d, o)
        }),
{
}

/// A reset leaves no level: nothing is defined and nothing clips.
pub proof fn law_reset_clears(s: Masks)
    ensures
        reset_spec(s).0.len() == 0,
        !defining_spec(reset_spec(s).0),
        active_of(reset_spec(s).0) is None,
        reset_spec(s).1.len() == s.1.len() + s.0.len(),
{
}


/// Pixel `i` of a frame `width` pixels wide lies in the box.
pub open spec fn in_box(i: int, width: int, b: PixelBox) -> bool {
    &&& b.top <= i / width < b.bottom
    &&& b.left <= i % width < b.right
}

/// The box lies inside a `width` × `height` frame.
pub open spec fn box_in_frame(b: PixelBox, width: int, height: int) -> bool {
    0 <= b.left && b.right <= width && 0 <= b.top && b.bottom <= height
}

/// Pixel `i` is in the box and, row by row, before (`y`, `x`).
pub open spec fn done_before(i: int, width: int, b: PixelBox, y: int, x: int) -> bool {
    in_box(i, width, b) && (i / width < y || (i / width == y && i % width < x))
}

/// A mask pixel scaled by another: `a × b / 255`, rounded.
pub open spec fn scaled(a: u8, b: u8) -> int {
    (a as int * b as int + 127) / 255
}

proof fn lemma_pixel_index(width: int, height: int, y: int, x: int)
    requires
        0 < width,
        0 <= y < height,
        0 <= x < width,
    ensures
        (y * width + x) / width == y,
        (y * width + x) % width == x,
        0 <= y * width + x < width * height,
{
    vstd::arithmetic::div_mod::lemma_fundamental_div_mod_converse(y * width + x, width, y, x);
    assert(y * width + x < width * height) by (nonlinear_arith)
        requires
            0 <= y < height,
            0 <= x < width,
    ;
    assert(0 <= y * width) by (nonlinear_arith)
        requires
            0 <= y,
            0 < width,
    ;
}

proof fn lemma_same_pixel(i: int, width: int, y: int, x: int)
    requires
        0 < width,
        0 <= i,
        i / width == y,
        i % width == x,
    ensures
        i == y * width + x,
{
    vstd::arithmetic::div_mod::lemma_fundamental_div_mod(i, width);
    assert(width * (i / width) == y * width) by (nonlinear_arith)
        requires
            i / width == y,
    ;
}

/// Zero the box of a `width` × `height` mask; the rest never changed
/// (`BoundedMask::clear_dirty`, before a mask is reused).
pub fn clear_box(data: &mut Vec<u8>, width: u32, height: u32, b: PixelBox)
    requires
        old(data)@.len() == width * height,
        width > 0,
        box_ok(b),
        box_in_frame(b, width as int, height as int),
    ensures
        final(data)@.len() == old(data)@.len(),
        forall|i: int|
            0 <= i < old(data)@.len() ==> #[trigger] final(data)@[i] == if in_box(i, width as int, b) {
                0u8
            } else {
                old(data)@[i]
            },
{
    let w = width as usize;
    let n = data.len();
    let mut y = b.top as usize;
    while y < b.bottom as usize
        invariant
            n == data@.len(),
            data@.len() == old(data)@.len(),
            old(data)@.len() == width * height,
            w == width,
            width > 0,
            box_ok(b),
            box_in_frame(b, width as int, height as int),
            b.top <= y <= b.bottom,
            forall|i: int|
                0 <= i < data@.len() ==> #[trigger] data@[i] == if done_before(
                    i,
                    width as int,
                    b,
                    y as int,
                    b.left as int,
                ) {
                    0u8
                } else {
                    old(data)@[i]
                },
        decreases b.bottom - y,
    {
        let mut x = b.left as usize;
        while x < b.right as usize
            invariant
                n == data@.len(),
                data@.len() == old(data)@.len(),
                old(data)@.len() == width * height,
                w == width,
                width > 0,
                box_ok(b),
                box_in_frame(b, width as int, height as int),
                b.top <= y < b.bottom,
                b.left <= x <= b.right,
                forall|i: int|
                    0 <= i < data@.len() ==> #[trigger] data@[i] == if done_before(
                        i,
                        width as int,
                        b,
                        y as int,
                        x as int,
                    ) {
                        0u8
                    } else {
                        old(data)@[i]
                    },
            decreases b.right - x,
        {
            proof {
                lemma_pixel_index(width as int, height as int, y as int, x as int);
                assert(y * w + x < n);
            }
            let idx = y * w + x;
            let ghost before = data@;
            data.set(idx, 0);
            proof {
                assert forall|i: int| 0 <= i < data@.len() implies #[trigger] data@[i] == if done_before(
                    i,
                    width as int,
                    b,
                    y as int,
                    x + 1,
                ) {
                    0u8
                } else {
                    old(data)@[i]
                } by {
                    if i != idx {
                        if i / (width as int) == y && i % (width as int) == x {
                            lemma_same_pixel(i, width as int, y as int, x as int);
                        }
                        assert(data@[i] == before[i]);
                    }
                }
            }
            x = x + 1;
        }
        y = y + 1;
    }
    proof {
        assert forall|i: int| 0 <= i < data@.len() implies #[trigger] data@[i] == if in_box(
            i,
            width as int,
            b,
        ) {
            0u8
        } else {
            old(data)@[i]
        } by {
            assert(done_before(i, width as int, b, y as int, b.left as int) == in_box(i, width as int, b));
        }
    }
}

/// Multiply the box of a `width` × `height` mask by another mask of the
/// same size, pixel by pixel (`a × b / 255`, rounded); the rest never
/// changed. Outside the box the mask is zero already, so this is the whole
/// intersection of the two masks.
pub fn multiply_box(data: &mut Vec<u8>, other: &[u8], width: u32, height: u32, b: PixelBox)
    requires
        old(data)@.len() == width * height,
        other@.len() == width * height,
        width > 0,
        box_ok(b),
        box_in_frame(b, width as int, height as int),
    ensures
        final(data)@.len() == old(data)@.len(),
        forall|i: int|
            0 <= i < old(data)@.len() ==> #[trigger] final(data)@[i] == if in_box(i, width as int, b) {
                scaled(old(data)@[i], other@[i])
            } else {
                old(data)@[i] as int
            },
{
    let w = width as usize;
    let n = data.len();
    let mut y = b.top as usize;
    while y < b.bottom as usize
        invariant
            n == data@.len(),
            data@.len() == old(data)@.len(),
            old(data)@.len() == width * height,
            other@.len() == width * height,
            w == width,
            width > 0,
            box_ok(b),
            box_in_frame(b, width as int, height as int),
            b.top <= y <= b.bottom,
            forall|i: int|
                0 <= i < data@.len() ==> #[trigger] data@[i] == if done_before(
                    i,
                    width as int,
                    b,
                    y as int,
                    b.left as int,
                ) {
                    scaled(old(data)@[i], other@[i])
                } else {
                    old(data)@[i] as int
                },
        decreases b.bottom - y,
    {
        let mut x = b.left as usize;
        while x < b.right as usize
            invariant
                n == data@.len(),
                data@.len() == old(data)@.len(),
                old(data)@.len() == width * height,
                other@.len() == width * height,
                w == width,
                width > 0,
                box_ok(b),
                box_in_frame(b, width as int, height as int),
                b.top <= y < b.bottom,
                b.left <= x <= b.right,
                forall|i: int|
                    0 <= i < data@.len() ==> #[trigger] data@[i] == if done_before(
                        i,
                        width as int,
                        b,
                        y as int,
                        x as int,
                    ) {
                        scaled(old(data)@[i], other@[i])
                    } else {
                        old(data)@[i] as int
                    },
            decreases b.right - x,
        {
            proof {
                lemma_pixel_index(width as int, height as int, y as int, x as int);
                assert(y * w + x < n);
            }
            let idx = y * w + x;
            let ghost before = data@;
            let a = data[idx];
            let c = other[idx];
            assert(a == old(data)@[idx as int]);
            assert((a as u16) * (c as u16) + 127 <= 65152 && ((a as u16) * (c as u16) + 127) / 255 <= 255) by (nonlinear_arith)
                requires
                    a <= 255,
                    c <= 255,
            ;
            let v = (((a as u16) * (c as u16) + 127) / 255) as u8;
            data.set(idx, v);
            proof {
                assert forall|i: int| 0 <= i < data@.len() implies #[trigger] data@[i] == if done_before(
                    i,
                    width as int,
                    b,
                    y as int,
                    x + 1,
                ) {
                    scaled(old(data)@[i], other@[i])
                } else {
                    old(data)@[i] as int
                } by {
                    if i != idx {
                        if i / (width as int) == y && i % (width as int) == x {
                            lemma_same_pixel(i, width as int, y as int, x as int);
                        }
                        assert(data@[i] == before[i]);
                    }
                }
            }
            x = x + 1;
        }
        y = y + 1;
    }
    proof {
        assert forall|i: int| 0 <= i < data@.len() implies #[trigger] data@[i] == if in_box(
            i,
            width as int,
            b,
        ) {
            scaled(old(data)@[i], other@[i])
        } else {
            old(data)@[i] as int
        } by {
            assert(done_before(i, width as int, b, y as int, b.left as int) == in_box(i, width as int, b));
        }
    }
}


/// A mask is zero outside its box (everywhere when it has none).
pub open spec fn zero_outside(d: Seq<u8>, width: int, b: Option<PixelBox>) -> bool {
    forall|i: int|
        0 <= i < d.len() ==> (match b {
            Some(bb) => !in_box(i, width, bb),
            None => true,
        }) ==> #[trigger] d[i] == 0
}

/// Multiplying only the inner mask's box is the whole intersection: when
/// each mask is zero outside its box, the product is zero outside the
/// overlap of the two boxes, the box the inner mask keeps.
pub proof fn law_box_multiply_is_intersection(
    d: Seq<u8>,
    o: Seq<u8>,
    width: int,
    inner: PixelBox,
    outer: Option<PixelBox>,
    result: Seq<u8>,
)
    requires
        width > 0,
        box_ok(inner),
        outer matches Some(x) ==> box_ok(x),
        d.len() == o.len(),
        result.len() == d.len(),
        zero_outside(d, width, Some(inner)),
        zero_outside(o, width, outer),
        forall|i: int|
            0 <= i < d.len() ==> #[trigger] result[i] == if in_box(i, width, inner) {
                scaled(d[i], o[i])
            } else {
                d[i] as int
            },
    ensures
        zero_outside(
            result,
            width,
            match outer {
                Some(x) => intersection_spec(inner, x),
                None => None,
            },
        ),
{
    let kept = match outer {
        Some(x) => intersection_spec(inner, x),
        None => None,
    };
    assert forall|i: int|
        0 <= i < result.len() && (match kept {
            Some(bb) => !in_box(i, width, bb),
            None => true,
        }) implies #[trigger] result[i] == 0 by {
        if in_box(i, width, inner) {
            match outer {
                Some(x) => {
                    if in_box(i, width, x) {
                        assert(kept is Some && in_box(i, width, kept.unwrap()));
                    }
                    assert(o[i] == 0);
                },
                None => {
                    assert(o[i] == 0);
                },
            }
            assert(scaled(d[i], 0) == 0);
        } else {
            assert(d[i] == 0);
        }
    }
}


/// Clearing a mask's box clears the mask: a reused mask is all zero.
pub proof fn law_cleared_mask_is_zero(d: Seq<u8>, width: int, b: PixelBox, result: Seq<u8>)
    requires
        width > 0,
        result.len() == d.len(),
        zero_outside(d, width, Some(b)),
        forall|i: int|
            0 <= i < d.len() ==> #[trigger] result[i] == if in_box(i, width, b) {
                0u8
            } else {
                d[i]
            },
    ensures
        zero_outside(result, width, None),
{
    assert forall|i: int| 0 <= i < result.len() implies #[trigger] result[i] == 0 by {
        if !in_box(i, width, b) {
            assert(d[i] == 0);
        }
    }
}

} // verus!
