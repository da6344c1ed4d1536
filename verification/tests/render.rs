use chumby::render::{clear_box, from_ltrb, intersection, multiply_box, union, MaskStack, PixelBox, SpikeStats};

fn pb(l: i32, t: i32, r: i32, b: i32) -> PixelBox {
    PixelBox { left: l, top: t, right: r, bottom: b }
}

/// A mask can be pushed and popped again without ever being activated;
/// that must not disturb the clip of an enclosing mask.
#[test]
fn mask_popped_without_activation_keeps_outer_clip() {
    let mut stack = MaskStack::new();
    stack.push(4, 4);
    stack.activate();
    assert!(stack.active().is_some());

    stack.push(4, 4);
    stack.pop();
    assert!(stack.active().is_some(), "outer clip must survive");

    stack.pop();
    assert!(stack.active().is_none());
}

/// While a mask is being defined, geometry defines it instead of being
/// drawn; once activated, drawing resumes and is clipped.
#[test]
fn mask_states_follow_the_protocol() {
    let mut stack = MaskStack::new();
    assert!(!stack.defining());
    stack.push(4, 4);
    assert!(stack.defining());
    stack.activate();
    assert!(!stack.defining());
    stack.deactivate(4, 4);
    assert!(stack.defining(), "the replayed geometry is not content");
    stack.pop();
    assert!(!stack.defining());
}

/// A reused mask is clean again, whatever was drawn into it.
#[test]
fn reused_mask_starts_clean() {
    let mut stack = MaskStack::new();
    stack.push(8, 8);
    stack.fill(Some(pb(1, 1, 7, 7)));
    stack.activate();
    assert_eq!(stack.active().unwrap().dirty, Some(pb(1, 1, 7, 7)));
    stack.pop();
    assert_eq!(stack.spare.len(), 1);
    stack.push(8, 8);
    assert!(stack.spare.is_empty(), "the spare was reused");
    stack.activate();
    assert!(stack.clip_is_empty());
}

/// An inner mask's box shrinks to the overlap with the outer clip.
#[test]
fn activation_shrinks_to_the_outer_box() {
    let mut stack = MaskStack::new();
    stack.push(8, 8);
    stack.fill(Some(pb(0, 0, 5, 8)));
    stack.activate();
    stack.push(8, 8);
    stack.fill(Some(pb(0, 0, 8, 8)));
    stack.activate();
    let d = stack.active().unwrap().dirty.unwrap();
    assert!(d.right <= 5 && d.left == 0, "box shrank to the overlap: {d:?}");
    assert!(!stack.clip_is_empty());
}

/// Geometry with no area defines nothing.
#[test]
fn degenerate_geometry_keeps_the_mask_empty() {
    let mut stack = MaskStack::new();
    stack.push(8, 8);
    stack.fill(None);
    stack.activate();
    assert!(stack.clip_is_empty());
}

#[test]
fn disjoint_masks_clip_everything() {
    let mut stack = MaskStack::new();
    stack.push(8, 8);
    stack.fill(Some(pb(0, 0, 2, 2)));
    stack.activate();
    stack.push(8, 8);
    stack.fill(Some(pb(4, 4, 6, 6)));
    stack.activate();
    assert!(stack.clip_is_empty());
    stack.reset();
    assert!(stack.active().is_none());
    assert!(!stack.defining());
    assert_eq!(stack.spare.len(), 2);
}

#[test]
fn zero_sized_masks_are_not_pushed() {
    let mut stack = MaskStack::new();
    stack.push(0, 8);
    assert!(!stack.defining());
    assert!(stack.levels.is_empty());
}

#[test]
fn pixel_boxes() {
    assert_eq!(from_ltrb(0, 0, 0, 5), None);
    assert_eq!(from_ltrb(3, 0, 1, 5), None);
    assert_eq!(from_ltrb(i32::MIN, 0, i32::MAX, 1), None);
    assert_eq!(from_ltrb(1, 2, 3, 4), Some(pb(1, 2, 3, 4)));
    assert_eq!(union(pb(0, 0, 2, 2), pb(5, 1, 6, 9)), pb(0, 0, 6, 9));
    assert_eq!(intersection(pb(0, 0, 4, 4), pb(2, 2, 8, 8)), Some(pb(2, 2, 4, 4)));
    assert_eq!(intersection(pb(0, 0, 2, 2), pb(2, 0, 4, 2)), None);
    let stats = SpikeStats::default();
    assert_eq!(stats.shapes + stats.masks, 0);
}

#[test]
fn clearing_touches_only_the_box() {
    let mut data = vec![9u8; 4 * 3];
    clear_box(&mut data, 4, 3, pb(1, 1, 3, 3));
    assert_eq!(data, vec![9, 9, 9, 9, 9, 0, 0, 9, 9, 0, 0, 9]);
}

#[test]
fn multiplying_scales_inside_the_box() {
    let mut data = vec![255u8, 255, 128, 0, 255, 255];
    let other = vec![255u8, 128, 255, 255, 0, 1];
    multiply_box(&mut data, &other, 3, 2, pb(0, 0, 2, 2));
    // (a * b + 127) / 255, rounded; column 2 is outside the box.
    assert_eq!(data, vec![255, 128, 128, 0, 0, 255]);
}
