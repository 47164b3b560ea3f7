use bevy_nannou_render::geometry::{Rect, Scissor, ScissorMode, Viewport};
use bevy_nannou_render::transform::{offset_by, Affine3, AffineRow, Vec3, FIXED_ONE};

const VP: Viewport = Viewport { width: 100, height: 50 };

#[test]
fn full_scissor_is_the_viewport() {
    assert_eq!(ScissorMode::Full.resolve(VP), Scissor { left: 0, bottom: 0, width: 100, height: 50 });
}

#[test]
fn no_overlap_scissor_has_no_area() {
    assert_eq!(ScissorMode::NoOverlap.resolve(VP), Scissor { left: 0, bottom: 0, width: 0, height: 0 });
    assert_eq!(Scissor::empty(), Scissor { left: 0, bottom: 0, width: 0, height: 0 });
}

#[test]
fn rect_inside_the_viewport_is_kept() {
    let mode = ScissorMode::Rect(Rect { left: 10, bottom: 5, right: 40, top: 25 });
    assert_eq!(mode.resolve(VP), Scissor { left: 10, bottom: 5, width: 30, height: 20 });
}

#[test]
fn rect_scissor_is_cut_to_the_viewport() {
    let mode = ScissorMode::Rect(Rect { left: -10, bottom: 20, right: 30, top: 80 });
    assert_eq!(mode.resolve(VP), Scissor { left: 0, bottom: 20, width: 30, height: 30 });
    let mode = ScissorMode::Rect(Rect { left: 90, bottom: -7, right: 300, top: 8 });
    assert_eq!(mode.resolve(VP), Scissor { left: 90, bottom: 0, width: 10, height: 8 });
}

#[test]
fn rect_outside_the_viewport_collapses() {
    let right_of = ScissorMode::Rect(Rect { left: 150, bottom: 0, right: 200, top: 10 });
    assert_eq!(right_of.resolve(VP), Scissor { left: 0, bottom: 0, width: 0, height: 0 });
    let below = ScissorMode::Rect(Rect { left: 0, bottom: -30, right: 20, top: -10 });
    assert_eq!(below.resolve(VP), Scissor { left: 0, bottom: 0, width: 0, height: 0 });
    let above = ScissorMode::Rect(Rect { left: 0, bottom: 51, right: 20, top: 60 });
    assert_eq!(above.resolve(VP), Scissor { left: 0, bottom: 0, width: 0, height: 0 });
}

#[test]
fn inverted_rect_is_clamped_to_empty() {
    let flipped_x = ScissorMode::Rect(Rect { left: 40, bottom: 5, right: 10, top: 25 });
    assert_eq!(flipped_x.resolve(VP), Scissor { left: 0, bottom: 0, width: 0, height: 0 });
    let flipped_y = ScissorMode::Rect(Rect { left: 10, bottom: 25, right: 40, top: 5 });
    assert_eq!(flipped_y.resolve(VP), Scissor { left: 0, bottom: 0, width: 0, height: 0 });
}

#[test]
fn rect_that_touches_an_edge_has_zero_width() {
    let touching = ScissorMode::Rect(Rect { left: 100, bottom: 10, right: 120, top: 20 });
    assert_eq!(touching.resolve(VP), Scissor { left: 100, bottom: 10, width: 0, height: 10 });
}

#[test]
fn viewport_larger_than_a_rect_can_reach() {
    let vp = Viewport { width: u32::MAX, height: u32::MAX };
    let mode = ScissorMode::Rect(Rect { left: i32::MIN, bottom: 7, right: i32::MAX, top: i32::MAX });
    assert_eq!(
        mode.resolve(vp),
        Scissor { left: 0, bottom: 7, width: i32::MAX as u32, height: (i32::MAX - 7) as u32 }
    );
}

#[test]
fn identity_moves_nothing() {
    let p = Vec3 { x: 7, y: -9, z: i32::MIN };
    assert_eq!(Affine3::identity().apply(p), p);
    assert_eq!(FIXED_ONE, 65536);
}

#[test]
fn translation_adds_and_saturates() {
    let t = Affine3::translation(Vec3 { x: 5, y: -3, z: 1 });
    assert_eq!(t.apply(Vec3 { x: 1, y: 1, z: 1 }), Vec3 { x: 6, y: -2, z: 2 });
    assert_eq!(t.apply(Vec3 { x: i32::MAX, y: i32::MIN, z: 0 }), Vec3 { x: i32::MAX, y: i32::MIN, z: 1 });
}

#[test]
fn fixed_point_row_rounds_down() {
    // 1.5 * x - 0.25 * y + 2
    let row = AffineRow { x: 98304, y: -16384, z: 0, offset: 2 };
    assert_eq!(row.apply(Vec3 { x: 3, y: 0, z: 9 }), 6); // 4.5 -> 4, + 2
    assert_eq!(row.apply(Vec3 { x: -3, y: 0, z: 9 }), -3); // -4.5 -> -5, + 2
    assert_eq!(row.apply(Vec3 { x: 0, y: 1, z: 9 }), 1); // -0.25 -> -1, + 2
    assert_eq!(row.apply(Vec3 { x: 4, y: 8, z: 0 }), 6); // 6 - 2 + 2
}

#[test]
fn fixed_point_row_saturates() {
    let row = AffineRow { x: i32::MAX, y: i32::MAX, z: i32::MAX, offset: i32::MAX };
    assert_eq!(row.apply(Vec3 { x: i32::MAX, y: i32::MAX, z: i32::MAX }), i32::MAX);
    assert_eq!(row.apply(Vec3 { x: i32::MIN, y: i32::MIN, z: i32::MIN }), i32::MIN);
    let min_row = AffineRow { x: i32::MIN, y: i32::MIN, z: i32::MIN, offset: i32::MIN };
    assert_eq!(min_row.apply(Vec3 { x: i32::MIN, y: i32::MIN, z: i32::MIN }), i32::MAX);
}

#[test]
fn offset_is_held_to_the_range() {
    assert_eq!(offset_by(10, 5), 15);
    assert_eq!(offset_by(-10, 5), -5);
    assert_eq!(offset_by(i32::MAX - 2, 5), i32::MAX);
}

#[test]
fn quarter_turn_maps_axes() {
    // x' = -y, y' = x
    let t = Affine3 {
        row_x: AffineRow { x: 0, y: -FIXED_ONE, z: 0, offset: 0 },
        row_y: AffineRow { x: FIXED_ONE, y: 0, z: 0, offset: 0 },
        row_z: AffineRow { x: 0, y: 0, z: FIXED_ONE, offset: 0 },
    };
    assert_eq!(t.apply(Vec3 { x: 3, y: 4, z: 5 }), Vec3 { x: -4, y: 3, z: 5 });
}

#[test]
fn composition_applies_the_inner_map_first() {
    let scale2 = Affine3 {
        row_x: AffineRow { x: 2 * FIXED_ONE, y: 0, z: 0, offset: 0 },
        row_y: AffineRow { x: 0, y: 2 * FIXED_ONE, z: 0, offset: 0 },
        row_z: AffineRow { x: 0, y: 0, z: FIXED_ONE, offset: 0 },
    };
    let shift = Affine3::translation(Vec3 { x: 3, y: 4, z: 5 });
    let p = Vec3 { x: 1, y: 1, z: 1 };
    // Shift, then scale.
    let a = shift.then(&scale2);
    assert_eq!(a.apply(p), Vec3 { x: 8, y: 10, z: 6 });
    assert_eq!(a.apply(p), scale2.apply(shift.apply(p)));
    assert_eq!(a.row_x, AffineRow { x: 2 * FIXED_ONE, y: 0, z: 0, offset: 6 });
    // Scale, then shift.
    let b = scale2.then(&shift);
    assert_eq!(b.apply(p), Vec3 { x: 5, y: 6, z: 6 });
    assert_eq!(b.apply(p), shift.apply(scale2.apply(p)));
}

#[test]
fn composition_with_identity_changes_nothing() {
    let t = Affine3 {
        row_x: AffineRow { x: 3, y: -70000, z: i32::MAX, offset: -9 },
        row_y: AffineRow { x: i32::MIN, y: 5, z: 6, offset: 7 },
        row_z: AffineRow { x: 8, y: 9, z: 10, offset: i32::MAX },
    };
    assert_eq!(t.then(&Affine3::identity()), t);
    assert_eq!(Affine3::identity().then(&t), t);
}

#[test]
fn translations_add_up() {
    let a = Affine3::translation(Vec3 { x: 1, y: 2, z: 3 });
    let b = Affine3::translation(Vec3 { x: 10, y: 20, z: i32::MAX });
    assert_eq!(a.then(&b), Affine3::translation(Vec3 { x: 11, y: 22, z: i32::MAX }));
}
