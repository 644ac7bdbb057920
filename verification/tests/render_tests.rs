use imgui_godot::render::{check_draw_list, plan_command, plan_draw_list, plan_triangles, DrawCommand, DrawListData, VERTEX_WINDOW};

#[test]
fn empty_command_is_skipped() {
    let idx: Vec<u16> = vec![0, 1, 2];
    assert!(plan_command(3, &idx, 0, 7, 0, 0).is_none());
}

#[test]
fn plan_keeps_indices_relative_to_offset() {
    let idx: Vec<u16> = vec![9, 9, 0, 1, 2, 2, 1, 3];
    let plan = plan_command(10, &idx, 6, 7, 4, 2).unwrap();
    assert_eq!(plan.texture_id, 7);
    assert_eq!(plan.base, 4);
    assert_eq!(plan.end, 10);
    assert_eq!(plan.indices, vec![0, 1, 2, 2, 1, 3]);
}

#[test]
fn window_is_capped_at_sixteen_bit_range() {
    let idx: Vec<u16> = vec![0, 65535, 1];
    let plan = plan_command(200_000, &idx, 3, 1, 100, 0).unwrap();
    assert_eq!(VERTEX_WINDOW, 65536);
    assert_eq!(plan.base, 100);
    assert_eq!(plan.end, 100 + 65536);
    assert_eq!(plan.indices, vec![0, 65535, 1]);
}

#[test]
fn draw_list_plans_follow_command_order() {
    let list = DrawListData {
        vtx_len: 6,
        idx: vec![0, 1, 2, 0, 2, 3, 1, 2, 0],
        commands: vec![
            DrawCommand::Elements { count: 3, texture_id: 1, vtx_offset: 0, idx_offset: 0 },
            DrawCommand::Other,
            DrawCommand::Elements { count: 0, texture_id: 1, vtx_offset: 0, idx_offset: 3 },
            DrawCommand::Elements { count: 6, texture_id: 2, vtx_offset: 2, idx_offset: 3 },
        ],
    };
    let plans = plan_draw_list(&list);
    assert_eq!(plans.len(), 4);
    let first = plans[0].as_ref().unwrap();
    assert_eq!(first.texture_id, 1);
    assert_eq!(first.indices, vec![0, 1, 2]);
    assert!(plans[1].is_none());
    assert!(plans[2].is_none());
    let last = plans[3].as_ref().unwrap();
    assert_eq!(last.texture_id, 2);
    assert_eq!((last.base, last.end), (2, 6));
    assert_eq!(last.indices, vec![0, 2, 3, 1, 2, 0]);
}

#[test]
fn triangles_are_absolute_vertex_numbers() {
    let idx: Vec<u16> = vec![0, 1, 2, 2, 1, 3, 0];
    let plan = plan_command(20, &idx, 7, 0, 10, 0).unwrap();
    let tris = plan_triangles(&plan);
    assert_eq!(tris, vec![(10, 11, 12), (12, 11, 13)]);
    for t in &tris {
        assert!(t.0 < plan.end && t.1 < plan.end && t.2 < plan.end);
    }
}

#[test]
fn check_accepts_in_range_lists() {
    let list = DrawListData {
        vtx_len: 4,
        idx: vec![0, 1, 2, 3],
        commands: vec![
            DrawCommand::Elements { count: 3, texture_id: 0, vtx_offset: 1, idx_offset: 0 },
            DrawCommand::Elements { count: 0, texture_id: 0, vtx_offset: 99, idx_offset: 99 },
            DrawCommand::Other,
        ],
    };
    assert!(check_draw_list(&list));
}

#[test]
fn check_rejects_vertex_past_buffer() {
    let list = DrawListData {
        vtx_len: 4,
        idx: vec![0, 1, 3],
        commands: vec![DrawCommand::Elements { count: 3, texture_id: 0, vtx_offset: 1, idx_offset: 0 }],
    };
    assert!(!check_draw_list(&list));
}

#[test]
fn check_rejects_indices_past_buffer() {
    let list = DrawListData {
        vtx_len: 4,
        idx: vec![0, 1, 2],
        commands: vec![DrawCommand::Elements { count: 3, texture_id: 0, vtx_offset: 0, idx_offset: 1 }],
    };
    assert!(!check_draw_list(&list));
}
