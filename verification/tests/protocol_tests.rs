use bsdos_metal_viewer::protocol::{clamp_damage_to_surface, merge_damage, Rect};

// ── clamp_damage_to_surface ─────────────────────────────────────────────

#[test]
fn damage_inside_bounds_passes_through() {
    let damage = Rect::new(10, 20, 30, 40);
    let result = clamp_damage_to_surface(damage, 100, 100);
    assert_eq!(result, Some(Rect::new(10, 20, 30, 40)));
}

#[test]
fn damage_partially_outside_is_clamped() {
    let damage = Rect::new(80, 80, 50, 50);
    let result = clamp_damage_to_surface(damage, 100, 100);
    assert_eq!(result, Some(Rect::new(80, 80, 20, 20)));
}

#[test]
fn damage_completely_outside_returns_none() {
    let damage = Rect::new(200, 200, 10, 10);
    let result = clamp_damage_to_surface(damage, 100, 100);
    assert_eq!(result, None);
}

#[test]
fn damage_zero_size_means_full_surface() {
    let damage = Rect::new(0, 0, 0, 0);
    let result = clamp_damage_to_surface(damage, 100, 100);
    assert_eq!(result, Some(Rect::new(0, 0, 100, 100)));
}

#[test]
fn damage_exactly_at_surface_edge_kept() {
    let damage = Rect::new(90, 90, 10, 10);
    let result = clamp_damage_to_surface(damage, 100, 100);
    assert_eq!(result, Some(Rect::new(90, 90, 10, 10)));
}

#[test]
fn damage_with_overflow_xy_clamps() {
    let damage = Rect::new(65535, 65535, 100, 100);
    let result = clamp_damage_to_surface(damage, 100, 100);
    assert_eq!(result, None);
}

#[test]
fn damage_zero_width_means_full_surface() {
    let damage = Rect::new(0, 0, 0, 50);
    let result = clamp_damage_to_surface(damage, 100, 100);
    assert_eq!(result, Some(Rect::new(0, 0, 100, 100)));
}

#[test]
fn damage_zero_height_means_full_surface() {
    let damage = Rect::new(0, 0, 50, 0);
    let result = clamp_damage_to_surface(damage, 100, 100);
    assert_eq!(result, Some(Rect::new(0, 0, 100, 100)));
}

// ── merge_damage ────────────────────────────────────────────────────────

#[test]
fn merge_disjoint_rects_returns_enclosing() {
    let d1 = Rect::new(0, 0, 10, 10);
    let d2 = Rect::new(20, 20, 10, 10);
    let result = merge_damage(d1, d2);
    assert_eq!(result, Rect::new(0, 0, 30, 30));
}

#[test]
fn merge_overlapping_rects_returns_enclosing() {
    let d1 = Rect::new(0, 0, 20, 20);
    let d2 = Rect::new(10, 10, 20, 20);
    let result = merge_damage(d1, d2);
    assert_eq!(result, Rect::new(0, 0, 30, 30));
}

#[test]
fn merge_same_rects_returns_same() {
    let d1 = Rect::new(5, 5, 10, 10);
    let d2 = Rect::new(5, 5, 10, 10);
    let result = merge_damage(d1, d2);
    assert_eq!(result, Rect::new(5, 5, 10, 10));
}

#[test]
fn merge_with_empty_returns_other() {
    let d1 = Rect::new(0, 0, 0, 0);
    let d2 = Rect::new(10, 10, 20, 20);
    let result = merge_damage(d1, d2);
    assert_eq!(result, Rect::new(10, 10, 20, 20));
}
