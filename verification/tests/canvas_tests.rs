use imgui_godot::canvas::{CanvasAction, CanvasRenderer, INVALID_RID};
use imgui_godot::render::{DrawCommand, DrawListData};
use imgui_godot::signal::emit_args;

#[test]
fn new_renderer_owns_nothing() {
    let r = CanvasRenderer::new(5);
    assert_eq!(r.layer(), 5);
    assert_eq!(r.item(), INVALID_RID);
    assert_eq!(r.release(), vec![]);
}

#[test]
fn init_wires_canvas_item_and_viewport() {
    let mut r = CanvasRenderer::new(0);
    let calls = r.init(100, 200, 300, 7);
    assert_eq!(
        calls,
        vec![
            CanvasAction::AttachCanvas { viewport: 100, canvas: 200 },
            CanvasAction::SetStacking { viewport: 100, canvas: 200, layer: 7 },
            CanvasAction::SetParent { item: 300, canvas: 200 },
        ]
    );
    assert_eq!(r.layer(), 7);
    assert_eq!(r.item(), 300);
}

#[test]
fn sync_layer_restacks_only_on_change() {
    let mut r = CanvasRenderer::new(0);
    r.init(1, 2, 3, 4);
    assert_eq!(r.sync_layer(4), None);
    assert_eq!(r.sync_layer(9), Some(CanvasAction::SetStacking { viewport: 1, canvas: 2, layer: 9 }));
    assert_eq!(r.layer(), 9);
    assert_eq!(r.sync_layer(9), None);
}

#[test]
fn sync_layer_waits_for_canvas() {
    let mut r = CanvasRenderer::new(1);
    assert_eq!(r.sync_layer(2), None);
    assert_eq!(r.layer(), 1);
}

#[test]
fn release_frees_item_then_canvas() {
    let mut r = CanvasRenderer::new(0);
    r.init(1, 2, 3, 0);
    assert_eq!(r.release(), vec![CanvasAction::Free { rid: 3 }, CanvasAction::Free { rid: 2 }]);
}

#[test]
fn frame_clears_item_then_plans_lists() {
    let mut r = CanvasRenderer::new(0);
    r.init(1, 2, 3, 0);
    let lists = vec![
        DrawListData {
            vtx_len: 3,
            idx: vec![0, 1, 2],
            commands: vec![DrawCommand::Elements { count: 3, texture_id: 1, vtx_offset: 0, idx_offset: 0 }],
        },
        DrawListData { vtx_len: 0, idx: vec![], commands: vec![DrawCommand::Other] },
    ];
    let frame = r.render(&lists);
    assert_eq!(frame.clear, CanvasAction::ClearItem { item: 3 });
    assert_eq!(frame.item, 3);
    assert_eq!(frame.lists.len(), 2);
    assert_eq!(frame.lists[0][0].as_ref().unwrap().indices, vec![0, 1, 2]);
    assert!(frame.lists[1][0].is_none());
}

#[test]
fn signal_args_put_value_first() {
    assert_eq!(emit_args(1.5f64, vec![2.0, 3.0]), vec![1.5, 2.0, 3.0]);
    assert_eq!(emit_args("v", vec![]), vec!["v"]);
}
