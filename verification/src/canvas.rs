use vstd::prelude::*;
use crate::render::{plan_draw_list, valid_draw_list, plan_of, CommandPlan, DrawListData};

verus! {

/// The raw value of an invalid rendering-server resource id.
pub const INVALID_RID: u64 = 0;

/// A call the renderer asks the rendering server to make. Resource ids are
/// their raw 64-bit values, `INVALID_RID` for none.
#[derive(Clone, Copy, PartialEq, Eq, Debug)]
pub enum CanvasAction {
    /// Attach `canvas` to `viewport`.
    AttachCanvas { viewport: u64, canvas: u64 },
    /// Stack `canvas` on `layer` within `viewport` (sublayer 0).
    SetStacking { viewport: u64, canvas: u64, layer: i32 },
    /// Make `item` a child of `canvas`.
    SetParent { item: u64, canvas: u64 },
    /// Remove everything drawn on `item`.
    ClearItem { item: u64 },
    /// Free the resource `rid`.
    Free { rid: u64 },
}

/// What the renderer holds: its canvas, the single canvas item everything is
/// drawn on, the viewport they belong to, and the canvas layer in use.
pub ghost struct CanvasView {
    pub canvas: u64,
    pub item: u64,
    pub viewport: u64,
    pub layer: i32,
}

/// Draws Dear ImGui output onto one canvas item of one canvas, stacked on a
/// canvas layer of a viewport.
pub struct CanvasRenderer {
    canvas: u64,
    item: u64,
    viewport: u64,
    layer: i32,
}

/// The work of one frame: clear the item, then draw each planned command of
/// each draw list, in order, all on that same item.
pub struct FramePlan {
    pub clear: CanvasAction,
    pub item: u64,
    pub lists: Vec<Vec<Option<CommandPlan>>>,
}

impl View for CanvasRenderer {
    type V = CanvasView;

    closed spec fn view(&self) -> CanvasView {
        CanvasView { canvas: self.canvas, item: self.item, viewport: self.viewport, layer: self.layer }
    }
}

/// What `sync_layer` does to a renderer in state `v` asked for `layer`: nothing
/// when the layer is already in use or there is no canvas yet; otherwise the
/// layer changes and the canvas is restacked onto it.
pub open spec fn spec_sync_layer(v: CanvasView, layer: i32) -> (CanvasView, Option<CanvasAction>) {
    if layer == v.layer || v.canvas == INVALID_RID {
        (v, None)
    } else {
        (
            CanvasView { layer, ..v },
            Some(CanvasAction::SetStacking { viewport: v.viewport, canvas: v.canvas, layer }),
        )
    }
}

/// What is freed when a renderer in state `v` goes away: its item, then its
/// canvas, each only if it exists.
pub open spec fn spec_release(v: CanvasView) -> Seq<CanvasAction> {
    let item = if v.item != INVALID_RID { seq![CanvasAction::Free { rid: v.item }] } else { Seq::empty() };
    let canvas = if v.canvas != INVALID_RID { seq![CanvasAction::Free { rid: v.canvas }] } else { Seq::empty() };
    item + canvas
}

impl CanvasRenderer {
    /// A renderer with no resources yet, meant for canvas layer `layer`.
    pub fn new(layer: i32) -> (r: Self)
        ensures
            r@ == (CanvasView { canvas: INVALID_RID, item: INVALID_RID, viewport: INVALID_RID, layer }),
    {
        CanvasRenderer { canvas: INVALID_RID, item: INVALID_RID, viewport: INVALID_RID, layer }
    }

    /// Takes on the freshly created `canvas` and `item` for `viewport` and the
    /// wanted `layer`, and returns the calls that wire them up, in order:
    /// attach the canvas to the viewport, stack it on the layer, parent the
    /// item to it.
    pub fn init(&mut self, viewport: u64, canvas: u64, item: u64, layer: i32) -> (r: Vec<CanvasAction>)
        ensures
            final(self)@ == (CanvasView { canvas, item, viewport, layer }),
            r@ == seq![
                CanvasAction::AttachCanvas { viewport, canvas },
                CanvasAction::SetStacking { viewport, canvas, layer },
                CanvasAction::SetParent { item, canvas },
            ],
    {
        self.viewport = viewport;
        self.canvas = canvas;
        self.item = item;
        self.layer = layer;
        let mut calls: Vec<CanvasAction> = Vec::new();
        calls.push(CanvasAction::AttachCanvas { viewport, canvas });
        calls.push(CanvasAction::SetStacking { viewport, canvas, layer });
        calls.push(CanvasAction::SetParent { item, canvas });
        calls
    }

    /// Restacks the canvas onto `layer` when it differs from the layer in use;
    /// returns the call to make, if any.
    pub fn sync_layer(&mut self, layer: i32) -> (r: Option<CanvasAction>)
        ensures
            (final(self)@, r) == spec_sync_layer(old(self)@, layer),
    {
        if layer == self.layer || self.canvas == INVALID_RID {
            return None;
        }
        self.layer = layer;
        Some(CanvasAction::SetStacking { viewport: self.viewport, canvas: self.canvas, layer })
    }

    /// Plans a frame: clear the item, then draw each draw list's commands, in
    /// order, on that one item, each list planned as `plan_draw_list` does.
    pub fn render(&self, lists: &Vec<DrawListData>) -> (r: FramePlan)
        requires
            forall|l: int| 0 <= l < lists@.len() ==> valid_draw_list(#[trigger] lists@[l]),
        ensures
            r.clear == (CanvasAction::ClearItem { item: self@.item }),
            r.item == self@.item,
            r.lists@.len() == lists@.len(),
            forall|l: int| 0 <= l < lists@.len() ==> (#[trigger] r.lists@[l])@.len() == lists@[l].commands@.len(),
            forall|l: int, i: int| 0 <= l < lists@.len() && 0 <= i < lists@[l].commands@.len() ==> plan_of(
                #[trigger] r.lists@[l]@[i],
                lists@[l].vtx_len as nat,
                lists@[l].idx@,
                lists@[l].commands@[i],
            ),
    {
        let mut planned: Vec<Vec<Option<CommandPlan>>> = Vec::new();
        let n = lists.len();
        let mut l: usize = 0;
        while l < n
            invariant
                l <= n,
                n == lists@.len(),
                forall|m: int| 0 <= m < lists@.len() ==> valid_draw_list(#[trigger] lists@[m]),
                planned@.len() == l,
                forall|m: int| 0 <= m < l ==> (#[trigger] planned@[m])@.len() == lists@[m].commands@.len(),
                forall|m: int, i: int| 0 <= m < l && 0 <= i < lists@[m].commands@.len() ==> plan_of(
                    #[trigger] planned@[m]@[i],
                    lists@[m].vtx_len as nat,
                    lists@[m].idx@,
                    lists@[m].commands@[i],
                ),
            decreases n - l,
        {
            let plans = plan_draw_list(&lists[l]);
            planned.push(plans);
            l = l + 1;
        }
        FramePlan { clear: CanvasAction::ClearItem { item: self.item }, item: self.item, lists: planned }
    }

    /// The frees to make when the renderer goes away: the item first, then
    /// the canvas, skipping whichever was never created.
    pub fn release(&self) -> (r: Vec<CanvasAction>)
        ensures
            r@ == spec_release(self@),
    {
        let mut calls: Vec<CanvasAction> = Vec::new();
        if self.item != INVALID_RID {
            calls.push(CanvasAction::Free { rid: self.item });
        }
        if self.canvas != INVALID_RID {
            calls.push(CanvasAction::Free { rid: self.canvas });
        }
        assert(calls@ =~= spec_release(self@));
        calls
    }

    /// The canvas item everything is drawn on.
    pub fn item(&self) -> (r: u64)
        ensures
            r == self@.item,
    {
        self.item
    }

    /// The canvas layer in use.
    pub fn layer(&self) -> (r: i32)
        ensures
            r == self@.layer,
    {
        self.layer
    }
}

/// Asking twice for the same layer restacks at most once: right after a
/// `sync_layer(layer)`, another `sync_layer(layer)` changes nothing.
pub proof fn law_sync_layer_idempotent(v: CanvasView, layer: i32)
    ensures
        spec_sync_layer(spec_sync_layer(v, layer).0, layer) == (spec_sync_layer(v, layer).0, None::<CanvasAction>),
{
}

/// Once a canvas exists, `sync_layer(layer)` leaves `layer` in use, and it
/// restacks exactly when the layer changed.
pub proof fn law_sync_layer_reaches_layer(v: CanvasView, layer: i32)
    requires
        v.canvas != INVALID_RID,
    ensures
        spec_sync_layer(v, layer).0.layer == layer,
        spec_sync_layer(v, layer).1 is Some <==> v.layer != layer,
{
}

/// What `sync_layer` does, case by case: with a canvas, a request for a layer
/// other than the one in use moves the renderer to that layer and restacks
/// its canvas, in its viewport, onto exactly the requested layer; without a
/// canvas, or for the layer in use, nothing changes and nothing is called.
pub proof fn law_sync_layer_cases(v: CanvasView, layer: i32)
    ensures
        v.canvas != INVALID_RID && layer != v.layer ==> {
            &&& spec_sync_layer(v, layer).1 == Some(CanvasAction::SetStacking { viewport: v.viewport, canvas: v.canvas, layer: layer })
            &&& spec_sync_layer(v, layer).0.layer == layer
            &&& spec_sync_layer(v, layer).0.canvas == v.canvas
            &&& spec_sync_layer(v, layer).0.item == v.item
            &&& spec_sync_layer(v, layer).0.viewport == v.viewport
        },
        v.canvas == INVALID_RID || layer == v.layer ==> {
            &&& spec_sync_layer(v, layer).1 == None::<CanvasAction>
            &&& spec_sync_layer(v, layer).0 == v
        },
{
}

/// What going away frees depends only on the item and the canvas: each one
/// that exists is freed, the item first, whatever the layer or viewport.
pub proof fn law_release_cases(v: CanvasView)
    ensures
        v.item != INVALID_RID && v.canvas != INVALID_RID ==> spec_release(v) == seq![
            CanvasAction::Free { rid: v.item },
            CanvasAction::Free { rid: v.canvas },
        ],
        v.item != INVALID_RID && v.canvas == INVALID_RID ==> spec_release(v) == seq![CanvasAction::Free { rid: v.item }],
        v.item == INVALID_RID && v.canvas != INVALID_RID ==> spec_release(v) == seq![CanvasAction::Free { rid: v.canvas }],
        v.item == INVALID_RID && v.canvas == INVALID_RID ==> spec_release(v) == Seq::<CanvasAction>::empty(),
{
    assert(seq![CanvasAction::Free { rid: v.item }] + Seq::<CanvasAction>::empty() =~= seq![CanvasAction::Free { rid: v.item }]);
    assert(Seq::<CanvasAction>::empty() + seq![CanvasAction::Free { rid: v.canvas }] =~= seq![CanvasAction::Free { rid: v.canvas }]);
    assert(Seq::<CanvasAction>::empty() + Seq::<CanvasAction>::empty() =~= Seq::<CanvasAction>::empty());
    assert(seq![CanvasAction::Free { rid: v.item }] + seq![CanvasAction::Free { rid: v.canvas }] =~= seq![
        CanvasAction::Free { rid: v.item },
        CanvasAction::Free { rid: v.canvas },
    ]);
}

/// Two renderers with the same item and canvas free the same resources.
pub proof fn law_release_depends_on_resources(v: CanvasView, w: CanvasView)
    requires
        v.item == w.item,
        v.canvas == w.canvas,
    ensures
        spec_release(v) == spec_release(w),
{
}

/// A renderer that never created its resources frees nothing.
pub proof fn law_release_new(layer: i32)
    ensures
        spec_release(CanvasView { canvas: INVALID_RID, item: INVALID_RID, viewport: INVALID_RID, layer }) == Seq::<CanvasAction>::empty(),
{
    assert(spec_release(CanvasView { canvas: INVALID_RID, item: INVALID_RID, viewport: INVALID_RID, layer }) =~= Seq::<CanvasAction>::empty());
}

} // verus!
