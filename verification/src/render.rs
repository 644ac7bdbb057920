use vstd::prelude::*;

verus! {

/// Number of vertices one draw command can address: its indices are 16-bit and
/// count from the command's vertex offset.
pub const VERTEX_WINDOW: usize = 65536;

/// A draw command of a Dear ImGui draw list, with the plain values the
/// renderer reads from it.
#[derive(Clone, Copy, PartialEq, Eq, Debug)]
pub enum DrawCommand {
    /// Draw `count` indices starting at `idx_offset`; each index is relative
    /// to `vtx_offset`.
    Elements { count: usize, texture_id: usize, vtx_offset: usize, idx_offset: usize },
    /// Any other command (render-state reset, user callback): nothing to draw.
    Other,
}

/// What one drawable command turns into: the vertex window
/// `[base, end)` it reads and its index list, relative to `base`.
pub struct CommandPlan {
    pub texture_id: usize,
    pub base: usize,
    pub end: usize,
    pub indices: Vec<i32>,
}

/// The plain data of one draw list that the planner reads.
pub struct DrawListData {
    pub vtx_len: usize,
    pub idx: Vec<u16>,
    pub commands: Vec<DrawCommand>,
}

/// A command whose indices all exist and all address an existing vertex.
pub open spec fn valid_elements(
    vtx_len: nat,
    idx: Seq<u16>,
    count: nat,
    vtx_offset: nat,
    idx_offset: nat,
) -> bool {
    &&& idx_offset + count <= idx.len()
    &&& vtx_offset + VERTEX_WINDOW <= usize::MAX
    &&& forall|k: int| 0 <= k < count ==> vtx_offset + #[trigger] idx[idx_offset + k] < vtx_len
}

/// The commands that the renderer can draw without reading out of bounds:
/// every drawable command (non-zero count) is valid.
pub open spec fn valid_command(vtx_len: nat, idx: Seq<u16>, cmd: DrawCommand) -> bool {
    match cmd {
        DrawCommand::Elements { count, texture_id, vtx_offset, idx_offset } => count > 0
            ==> valid_elements(vtx_len, idx, count as nat, vtx_offset as nat, idx_offset as nat),
        DrawCommand::Other => true,
    }
}

pub open spec fn valid_draw_list(l: DrawListData) -> bool {
    forall|i: int| 0 <= i < l.commands@.len() ==> valid_command(l.vtx_len as nat, l.idx@, #[trigger] l.commands@[i])
}

pub open spec fn min(a: int, b: int) -> int {
    if a <= b { a } else { b }
}

impl CommandPlan {
    /// The window is non-empty and at most `VERTEX_WINDOW` long, and every
    /// index addresses a vertex inside it.
    pub open spec fn wf(&self) -> bool {
        &&& self.base < self.end
        &&& self.end - self.base <= VERTEX_WINDOW
        &&& forall|k: int| 0 <= k < self.indices@.len()
            ==> 0 <= #[trigger] self.indices@[k] && self.base + self.indices@[k] < self.end
    }

    /// The plan is the one the command `Elements { count, texture_id,
    /// vtx_offset, idx_offset }` gets over a buffer of `vtx_len` vertices.
    pub open spec fn describes(
        &self,
        vtx_len: nat,
        idx: Seq<u16>,
        count: nat,
        texture_id: usize,
        vtx_offset: nat,
        idx_offset: nat,
    ) -> bool {
        &&& self.texture_id == texture_id
        &&& self.base == vtx_offset
        &&& self.end == min(vtx_offset + VERTEX_WINDOW, vtx_len as int)
        &&& self.indices@.len() == count
        &&& forall|k: int| 0 <= k < count ==> #[trigger] self.indices@[k] == idx[idx_offset + k] as i32
    }
}

/// What the planner makes of one command.
pub open spec fn plan_of(p: Option<CommandPlan>, vtx_len: nat, idx: Seq<u16>, cmd: DrawCommand) -> bool {
    match cmd {
        DrawCommand::Elements { count, texture_id, vtx_offset, idx_offset } => if count == 0 {
            p is None
        } else {
            p matches Some(plan) && plan.describes(vtx_len, idx, count as nat, texture_id, vtx_offset as nat, idx_offset as nat)
                && plan.wf()
        },
        DrawCommand::Other => p is None,
    }
}

/// Plans one `Elements` command: `None` for an empty one, otherwise its
/// vertex window (at most `VERTEX_WINDOW` vertices from `vtx_offset`, cut at
/// the end of the buffer) and its indices relative to the window.
pub fn plan_command(
    vtx_len: usize,
    idx: &Vec<u16>,
    count: usize,
    texture_id: usize,
    vtx_offset: usize,
    idx_offset: usize,
) -> (r: Option<CommandPlan>)
    requires
        count > 0 ==> valid_elements(vtx_len as nat, idx@, count as nat, vtx_offset as nat, idx_offset as nat),
    ensures
        plan_of(r, vtx_len as nat, idx@, DrawCommand::Elements { count, texture_id, vtx_offset, idx_offset }),
{
    if count == 0 {
        return None;
    }
    let base = vtx_offset;
    let reach = base + VERTEX_WINDOW;
    let end = if reach < vtx_len { reach } else { vtx_len };
    let mut indices: Vec<i32> = Vec::with_capacity(count);
    let mut k: usize = 0;
    while k < count
        invariant
            k <= count,
            idx_offset + count <= idx.len(),
            valid_elements(vtx_len as nat, idx@, count as nat, vtx_offset as nat, idx_offset as nat),
            indices@.len() == k,
            forall|j: int| 0 <= j < k ==> #[trigger] indices@[j] == idx@[idx_offset + j] as i32,
        decreases count - k,
    {
        let li = idx[idx_offset + k];
        indices.push(li as i32);
        k = k + 1;
    }
    assert(vtx_offset + idx@[idx_offset + 0] < vtx_len);
    let plan = CommandPlan { texture_id, base, end, indices };
    assert forall|j: int| 0 <= j < plan.indices@.len() implies 0 <= #[trigger] plan.indices@[j]
        && plan.base + plan.indices@[j] < plan.end by {
        assert(vtx_offset + idx@[idx_offset + j] < vtx_len);
    }
    Some(plan)
}

/// Whether every drawable command of `list` reads only existing indices and
/// vertices, so that `plan_draw_list` accepts it.
pub fn check_draw_list(list: &DrawListData) -> (r: bool)
    ensures
        r == valid_draw_list(*list),
        r <==> forall|i: int| 0 <= i < list.commands@.len() ==> match #[trigger] list.commands@[i] {
            DrawCommand::Elements { count, texture_id, vtx_offset, idx_offset } => count > 0 ==> {
                &&& idx_offset + count <= list.idx@.len()
                &&& vtx_offset + 65536 <= usize::MAX
                &&& forall|k: int| 0 <= k < count ==> vtx_offset + #[trigger] list.idx@[idx_offset + k] < list.vtx_len
            },
            DrawCommand::Other => true,
        },
{
    proof {
        law_valid_draw_list_meaning(*list);
    }
    let n = list.commands.len();
    let mut i: usize = 0;
    while i < n
        invariant
            i <= n,
            n == list.commands@.len(),
            forall|j: int| 0 <= j < i ==> valid_command(list.vtx_len as nat, list.idx@, #[trigger] list.commands@[j]),
        decreases n - i,
    {
        let ok = match list.commands[i] {
            DrawCommand::Elements { count, texture_id, vtx_offset, idx_offset } => count == 0 || check_elements(
                list.vtx_len,
                &list.idx,
                count,
                vtx_offset,
                idx_offset,
            ),
            DrawCommand::Other => true,
        };
        if !ok {
            return false;
        }
        i = i + 1;
    }
    true
}

fn check_elements(vtx_len: usize, idx: &Vec<u16>, count: usize, vtx_offset: usize, idx_offset: usize) -> (r: bool)
    ensures
        r == valid_elements(vtx_len as nat, idx@, count as nat, vtx_offset as nat, idx_offset as nat),
{
    if idx_offset > idx.len() || count > idx.len() - idx_offset {
        return false;
    }
    if vtx_offset > usize::MAX - VERTEX_WINDOW {
        return false;
    }
    let mut k: usize = 0;
    while k < count
        invariant
            k <= count,
            idx_offset + count <= idx.len(),
            forall|j: int| 0 <= j < k ==> vtx_offset + #[trigger] idx@[idx_offset + j] < vtx_len,
        decreases count - k,
    {
        let li = idx[idx_offset + k] as usize;
        if li >= vtx_len || vtx_offset >= vtx_len - li {
            assert(!(vtx_offset + idx@[idx_offset + k] < vtx_len));
            return false;
        }
        k = k + 1;
    }
    true
}

/// A draw list is accepted exactly when each command that draws anything
/// reads only indices the buffer has (its last index may be the buffer's
/// last), its 16-bit window fits in `usize`, and each index, counted from the
/// command's vertex offset, addresses a vertex the buffer has.
pub proof fn law_valid_draw_list_meaning(list: DrawListData)
    ensures
        valid_draw_list(list) <==> forall|i: int| 0 <= i < list.commands@.len() ==> match #[trigger] list.commands@[i] {
            DrawCommand::Elements { count, texture_id, vtx_offset, idx_offset } => count > 0 ==> {
                &&& idx_offset + count <= list.idx@.len()
                &&& vtx_offset + 65536 <= usize::MAX
                &&& forall|k: int| 0 <= k < count ==> vtx_offset + #[trigger] list.idx@[idx_offset + k] < list.vtx_len
            },
            DrawCommand::Other => true,
        },
{
    if valid_draw_list(list) {
        assert forall|i: int| 0 <= i < list.commands@.len() implies match #[trigger] list.commands@[i] {
            DrawCommand::Elements { count, texture_id, vtx_offset, idx_offset } => count > 0 ==> {
                &&& idx_offset + count <= list.idx@.len()
                &&& vtx_offset + 65536 <= usize::MAX
                &&& forall|k: int| 0 <= k < count ==> vtx_offset + #[trigger] list.idx@[idx_offset + k] < list.vtx_len
            },
            DrawCommand::Other => true,
        } by {
            assert(valid_command(list.vtx_len as nat, list.idx@, list.commands@[i]));
        }
    }
    if forall|i: int| 0 <= i < list.commands@.len() ==> match #[trigger] list.commands@[i] {
            DrawCommand::Elements { count, texture_id, vtx_offset, idx_offset } => count > 0 ==> {
                &&& idx_offset + count <= list.idx@.len()
                &&& vtx_offset + 65536 <= usize::MAX
                &&& forall|k: int| 0 <= k < count ==> vtx_offset + #[trigger] list.idx@[idx_offset + k] < list.vtx_len
            },
            DrawCommand::Other => true,
        } {
        assert forall|i: int| 0 <= i < list.commands@.len() implies valid_command(list.vtx_len as nat, list.idx@, #[trigger] list.commands@[i]) by {
            match list.commands@[i] {
                DrawCommand::Elements { count, texture_id, vtx_offset, idx_offset } => {
                    if count > 0 {
                        assert(idx_offset + count <= list.idx@.len());
                        assert forall|k: int| 0 <= k < count implies vtx_offset + #[trigger] list.idx@[idx_offset + k] < list.vtx_len by {
                        }
                    }
                },
                DrawCommand::Other => {},
            }
        }
    }
}

/// Plans every command of a draw list, in order: entry `i` of the result is
/// the plan of command `i`, `None` where there is nothing to draw.
pub fn plan_draw_list(list: &DrawListData) -> (r: Vec<Option<CommandPlan>>)
    requires
        valid_draw_list(*list),
    ensures
        r@.len() == list.commands@.len(),
        forall|i: int| 0 <= i < r@.len() ==> plan_of(#[trigger] r@[i], list.vtx_len as nat, list.idx@, list.commands@[i]),
{
    let mut plans: Vec<Option<CommandPlan>> = Vec::new();
    let n = list.commands.len();
    let mut i: usize = 0;
    while i < n
        invariant
            i <= n,
            n == list.commands@.len(),
            valid_draw_list(*list),
            plans@.len() == i,
            forall|j: int| 0 <= j < i ==> plan_of(#[trigger] plans@[j], list.vtx_len as nat, list.idx@, list.commands@[j]),
        decreases n - i,
    {
        let cmd = list.commands[i];
        assert(valid_command(list.vtx_len as nat, list.idx@, list.commands@[i as int]));
        let plan = match cmd {
            DrawCommand::Elements { count, texture_id, vtx_offset, idx_offset } =>
                plan_command(list.vtx_len, &list.idx, count, texture_id, vtx_offset, idx_offset),
            DrawCommand::Other => None,
        };
        plans.push(plan);
        i = i + 1;
    }
    plans
}

/// The triangles of a planned command, as absolute vertex numbers: triangle
/// `t` is made of the vertices `base + indices[3t + j]`, `j < 3`. A trailing
/// group of fewer than three indices makes no triangle.
pub fn plan_triangles(plan: &CommandPlan) -> (r: Vec<(usize, usize, usize)>)
    requires
        plan.wf(),
    ensures
        r@.len() == plan.indices@.len() / 3,
        forall|t: int| 0 <= t < r@.len() ==> {
            &&& (#[trigger] r@[t]).0 == plan.base + plan.indices@[3 * t]
            &&& r@[t].1 == plan.base + plan.indices@[3 * t + 1]
            &&& r@[t].2 == plan.base + plan.indices@[3 * t + 2]
        },
        forall|t: int| 0 <= t < r@.len() ==> {
            &&& (#[trigger] r@[t]).0 < plan.end
            &&& r@[t].1 < plan.end
            &&& r@[t].2 < plan.end
        },
{
    let mut tris: Vec<(usize, usize, usize)> = Vec::new();
    let len = plan.indices.len();
    let mut j: usize = 0;
    while 3 <= len - j
        invariant
            len == plan.indices@.len(),
            plan.wf(),
            j % 3 == 0,
            j <= len,
            tris@.len() == j / 3,
            forall|t: int| 0 <= t < tris@.len() ==> {
                &&& (#[trigger] tris@[t]).0 == plan.base + plan.indices@[3 * t]
                &&& tris@[t].1 == plan.base + plan.indices@[3 * t + 1]
                &&& tris@[t].2 == plan.base + plan.indices@[3 * t + 2]
            },
        decreases len - j,
    {
        let a = plan.indices[j];
        let b = plan.indices[j + 1];
        let c = plan.indices[j + 2];
        assert(0 <= plan.indices@[j as int] && plan.base + plan.indices@[j as int] < plan.end);
        assert(0 <= plan.indices@[j + 1] && plan.base + plan.indices@[j + 1] < plan.end);
        assert(0 <= plan.indices@[j + 2] && plan.base + plan.indices@[j + 2] < plan.end);
        tris.push((plan.base + a as usize, plan.base + b as usize, plan.base + c as usize));
        j = j + 3;
    }
    assert forall|t: int| 0 <= t < tris@.len() implies {
        &&& (#[trigger] tris@[t]).0 < plan.end
        &&& tris@[t].1 < plan.end
        &&& tris@[t].2 < plan.end
    } by {
        assert(0 <= plan.indices@[3 * t] && plan.base + plan.indices@[3 * t] < plan.end);
        assert(0 <= plan.indices@[3 * t + 1] && plan.base + plan.indices@[3 * t + 1] < plan.end);
        assert(0 <= plan.indices@[3 * t + 2] && plan.base + plan.indices@[3 * t + 2] < plan.end);
    }
    tris
}

} // verus!
