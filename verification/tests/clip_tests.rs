use imgui_godot::clip::{append_fan, clip_order, clip_pass, ClipStep, RectSide};

#[test]
fn pass_keeps_polygon_inside() {
    assert_eq!(
        clip_pass(&vec![true, true, true, true]),
        vec![ClipStep::Keep(0), ClipStep::Keep(1), ClipStep::Keep(2), ClipStep::Keep(3)]
    );
}

#[test]
fn pass_drops_polygon_outside() {
    assert_eq!(clip_pass(&vec![false, false, false]), vec![]);
}

#[test]
fn pass_cuts_one_corner() {
    assert_eq!(
        clip_pass(&vec![false, true, true]),
        vec![ClipStep::Cut(0, 1), ClipStep::Keep(1), ClipStep::Keep(2), ClipStep::Cut(2, 0)]
    );
}

#[test]
fn pass_keeps_one_corner() {
    assert_eq!(
        clip_pass(&vec![true, false, false]),
        vec![ClipStep::Keep(0), ClipStep::Cut(0, 1), ClipStep::Cut(2, 0)]
    );
}

#[test]
fn pass_drops_degenerate_polygon() {
    assert_eq!(clip_pass(&vec![true, false]), vec![]);
    assert_eq!(clip_pass(&vec![]), vec![]);
}

#[test]
fn crossings_come_in_pairs() {
    let flags = vec![true, false, true, false, true];
    let steps = clip_pass(&flags);
    let cuts = steps.iter().filter(|s| matches!(s, ClipStep::Cut(_, _))).count();
    let keeps = steps.iter().filter(|s| matches!(s, ClipStep::Keep(_))).count();
    assert_eq!(keeps, 3);
    assert_eq!(cuts, 4);
}

#[test]
fn fan_appends_after_existing_vertices() {
    let mut out = vec!['x', 'y'];
    let mut idx = vec![7];
    append_fan(&vec!['a', 'b', 'c', 'd', 'e'], &mut out, &mut idx);
    assert_eq!(out, vec!['x', 'y', 'a', 'b', 'c', 'd', 'e']);
    assert_eq!(idx, vec![7, 2, 3, 4, 2, 4, 5, 2, 5, 6]);
}

#[test]
fn fan_of_triangle_is_one_triangle() {
    let mut out: Vec<u8> = vec![];
    let mut idx = vec![];
    append_fan(&vec![1u8, 2, 3], &mut out, &mut idx);
    assert_eq!(out, vec![1, 2, 3]);
    assert_eq!(idx, vec![0, 1, 2]);
}

#[test]
fn fan_skips_degenerate_polygon() {
    let mut out = vec![1u8];
    let mut idx = vec![0];
    append_fan(&vec![5u8, 6], &mut out, &mut idx);
    assert_eq!(out, vec![1]);
    assert_eq!(idx, vec![0]);
}

#[test]
fn sides_are_clipped_left_right_top_bottom() {
    let order = clip_order();
    assert_eq!(order, vec![RectSide::Left, RectSide::Right, RectSide::Top, RectSide::Bottom]);
    let slots: Vec<usize> = order.iter().map(|s| s.bound_slot()).collect();
    assert_eq!(slots, vec![0, 2, 1, 3]);
    let greater: Vec<bool> = order.iter().map(|s| s.keeps_greater()).collect();
    assert_eq!(greater, vec![true, false, true, false]);
    let xs: Vec<bool> = order.iter().map(|s| s.uses_x()).collect();
    assert_eq!(xs, vec![true, true, false, false]);
}

#[test]
fn pass_at_most_doubles_vertices() {
    let flags = vec![true, false, true, false, true, false];
    let steps = clip_pass(&flags);
    assert_eq!(steps.len(), 9);
    assert!(steps.len() <= 2 * flags.len());
}

#[test]
fn fan_of_degenerate_polygon_needs_no_room() {
    let mut out: Vec<u8> = vec![];
    let mut idx = vec![];
    append_fan(&vec![], &mut out, &mut idx);
    assert!(out.is_empty() && idx.is_empty());
}
