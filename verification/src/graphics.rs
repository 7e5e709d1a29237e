use crate::id_map::IdMap;
use crate::material::{
    descriptor_of, BlendComponent, BlendFactor, BlendOperation, Material, MaterialHandle,
};
use crate::msaa::Msaa;
use crate::render_target::RenderTargetHandle;
use crate::uniform::Uniform;
use crate::uniform_values::{values_eq, UniformValues};
use vstd::prelude::*;

verus! {

/// Makes `new_mat` the material of the following draws; switching to another material
/// breaks the current batch, keeping the same one changes nothing.
pub fn set_material(
    current_material: &mut Option<MaterialHandle>,
    break_batching: &mut bool,
    new_mat: MaterialHandle,
)
    ensures
        *final(current_material) == Some(new_mat),
        *final(break_batching) == (*old(break_batching) || *old(current_material) != Some(
            new_mat,
        )),
{
    if let Some(current_mat_handle) = *current_material {
        if current_mat_handle == new_mat {
            return ;
        }
    }
    *break_batching = true;
    *current_material = Some(new_mat);
}

/// The render target that draws go to: the camera's, if it has one, else the default.
pub fn active_render_target(
    camera_target: Option<RenderTargetHandle>,
    default_render_target: RenderTargetHandle,
) -> (rt: RenderTargetHandle)
    ensures
        rt == match camera_target {
            Some(t) => t,
            None => default_render_target,
        },
{
    match camera_target {
        Some(t) => t,
        None => default_render_target,
    }
}

/// Whether the renderer must follow a window resize from `current` to `new` (width,
/// height): not when the size is unchanged or a side is zero (a minimised window).
pub fn resize_needed(current: (u32, u32), new: (u32, u32)) -> (r: bool)
    ensures
        r == !(new == current || new.0 == 0 || new.1 == 0),
{
    !((new.0 == current.0 && new.1 == current.1) || new.0 == 0 || new.1 == 0)
}

/// The MSAA level that the render targets and pipelines must be rebuilt with at the end
/// of a frame, if any: the level that the game asked for, when it differs from the
/// current one.
pub fn msaa_change(current: Msaa, requested: Option<Msaa>) -> (r: Option<Msaa>)
    ensures
        r == match requested {
            Some(m) => if m == current {
                None
            } else {
                Some(m)
            },
            None => None,
        },
{
    match requested {
        Some(m) => if m == current {
            None
        } else {
            Some(m)
        },
        None => None,
    }
}

/// One recorded draw: its vertices and indices (into its own vertices), its material,
/// uniform values, render target, render queue and depth (a 32-bit float, as its bit
/// pattern; the renderer sorts by it).
pub struct RenderCommand<V> {
    pub id: u32,
    pub vertices: Vec<V>,
    pub indices: Vec<u32>,
    pub mat_handle: MaterialHandle,
    pub uniforms: Option<UniformValues>,
    pub render_target: RenderTargetHandle,
    pub render_queue: u32,
    pub depth_bits: u32,
}

/// A copy of `items`.
fn copy_items<V: Copy>(items: &[V]) -> (out: Vec<V>)
    ensures
        out@ == items@,
{
    let mut out: Vec<V> = Vec::new();
    let mut i: usize = 0;
    while i < items.len()
        invariant
            i <= items.len(),
            out@ == items@.take(i as int),
        decreases items.len() - i,
    {
        out.push(items[i]);
        i = i + 1;
        assert(out@ =~= items@.take(i as int));
    }
    assert(items@.take(items.len() as int) =~= items@);
    out
}

/// The uniform values of a command or draw call as a plain sequence, if it has any.
pub open spec fn uniforms_view(u: Option<UniformValues>) -> Option<Seq<(Seq<char>, Uniform)>> {
    match u {
        Some(v) => Some(v@),
        None => None,
    }
}

impl<V: Copy> RenderCommand<V> {
    /// A draw of copies of `vertices` and `indices` with the material's current uniform
    /// values (none if the material is not registered).
    pub fn new<R>(
        id: u32,
        vertices: &[V],
        indices: &[u32],
        mat_handle: MaterialHandle,
        render_target: RenderTargetHandle,
        z_order: u32,
        depth_bits: u32,
        materials: &IdMap<Material<R>, MaterialHandle>,
    ) -> (c: Self)
        ensures
            c.id == id,
            c.vertices@ == vertices@,
            c.indices@ == indices@,
            c.mat_handle == mat_handle,
            c.render_target == render_target,
            c.render_queue == z_order,
            c.depth_bits == depth_bits,
            uniforms_view(c.uniforms) == (if materials@.contains_key(mat_handle.0) {
                Some(materials@[mat_handle.0].uniforms.values())
            } else {
                None
            }),
            c.uniforms matches Some(u) ==> u.wf(),
    {
        RenderCommand {
            id,
            render_queue: z_order,
            vertices: copy_items(vertices),
            indices: copy_items(indices),
            uniforms: mat_handle.get_all_uniform(materials),
            depth_bits,
            mat_handle,
            render_target,
        }
    }
}

/// How many of a command's vertices go into the batch: all, but at most `max_vertices`.
pub open spec fn vertices_taken<V>(c: RenderCommand<V>, max_vertices: int) -> int {
    if c.vertices.len() < max_vertices {
        c.vertices.len() as int
    } else {
        max_vertices
    }
}

/// How many of a command's indices go into the batch: all, but at most `max_indices`.
pub open spec fn indices_taken<V>(c: RenderCommand<V>, max_indices: int) -> int {
    if c.indices.len() < max_indices {
        c.indices.len() as int
    } else {
        max_indices
    }
}

/// The number of vertices that the first `k` commands put into the batch.
pub open spec fn vertices_before<V>(cmds: Seq<RenderCommand<V>>, k: int, max_vertices: int) -> int
    decreases k,
{
    if k <= 0 {
        0
    } else {
        vertices_before(cmds, k - 1, max_vertices) + vertices_taken(cmds[k - 1], max_vertices)
    }
}

/// The number of indices that the first `k` commands put into the batch.
pub open spec fn indices_before<V>(cmds: Seq<RenderCommand<V>>, k: int, max_indices: int) -> int
    decreases k,
{
    if k <= 0 {
        0
    } else {
        indices_before(cmds, k - 1, max_indices) + indices_taken(cmds[k - 1], max_indices)
    }
}

/// The vertices that the first `k` commands put into the batch, in order.
pub open spec fn batched_vertices<V>(cmds: Seq<RenderCommand<V>>, k: int, max_vertices: int) -> Seq<
    V,
>
    decreases k,
{
    if k <= 0 {
        Seq::empty()
    } else {
        batched_vertices(cmds, k - 1, max_vertices) + cmds[k - 1].vertices@.take(
            vertices_taken(cmds[k - 1], max_vertices),
        )
    }
}

/// The indices that the first `k` commands put into the batch, in order, each moved by
/// the position of its command's first vertex in the batch (which starts at `vbase`).
pub open spec fn batched_indices<V>(
    cmds: Seq<RenderCommand<V>>,
    k: int,
    vbase: int,
    max_vertices: int,
    max_indices: int,
) -> Seq<u32>
    decreases k,
{
    if k <= 0 {
        Seq::empty()
    } else {
        batched_indices(cmds, k - 1, vbase, max_vertices, max_indices) + cmds[k
            - 1].indices@.take(indices_taken(cmds[k - 1], max_indices)).map_values(
            |x: u32| (x + vbase + vertices_before(cmds, k - 1, max_vertices)) as u32,
        )
    }
}

/// Whether two sets of uniform values are equal as in the renderer: both absent, or both
/// present and equal as maps.
pub open spec fn same_uniforms(
    a: Option<Seq<(Seq<char>, Uniform)>>,
    b: Option<Seq<(Seq<char>, Uniform)>>,
) -> bool {
    match (a, b) {
        (None, None) => true,
        (Some(x), Some(y)) => values_eq(x, y),
        _ => false,
    }
}

/// The draw call that command `k` opens.
pub open spec fn opened_by<V>(
    cmds: Seq<RenderCommand<V>>,
    k: int,
    vbase: int,
    ibase: int,
    max_vertices: int,
    max_indices: int,
) -> DrawCallModel {
    DrawCallModel {
        vertices_count: vertices_taken(cmds[k], max_vertices),
        indices_count: indices_taken(cmds[k], max_indices),
        vertices_start: vbase + vertices_before(cmds, k, max_vertices),
        indices_start: ibase + indices_before(cmds, k, max_indices),
        mat_handle: cmds[k].mat_handle,
        uniforms: uniforms_view(cmds[k].uniforms),
        render_target: cmds[k].render_target,
    }
}

/// Whether command `c` must open a new draw call after `cur`: another render target,
/// material or uniforms, or no room left for its vertices or indices.
pub open spec fn breaks_batch<V>(
    cur: DrawCallModel,
    c: RenderCommand<V>,
    max_vertices: int,
    max_indices: int,
) -> bool {
    let compatible = c.render_target == cur.render_target && c.mat_handle == cur.mat_handle
        && same_uniforms(uniforms_view(c.uniforms), cur.uniforms);
    let has_space = cur.vertices_count + vertices_taken(c, max_vertices) <= max_vertices
        && cur.indices_count + indices_taken(c, max_indices) <= max_indices;
    !compatible || !has_space
}

/// Batching the first `k` (at least one) commands in order: the draw calls closed so far
/// and the one still open. Each command joins the open draw call unless
/// `breaks_batch`, in which case it closes it and opens its own.
pub open spec fn batching<V>(
    cmds: Seq<RenderCommand<V>>,
    k: int,
    vbase: int,
    ibase: int,
    max_vertices: int,
    max_indices: int,
) -> (Seq<DrawCallModel>, DrawCallModel)
    decreases k,
{
    if k <= 1 {
        (Seq::empty(), opened_by(cmds, 0, vbase, ibase, max_vertices, max_indices))
    } else {
        let prev = batching(cmds, k - 1, vbase, ibase, max_vertices, max_indices);
        let c = cmds[k - 1];
        if breaks_batch(prev.1, c, max_vertices, max_indices) {
            (
                prev.0.push(prev.1),
                opened_by(cmds, k - 1, vbase, ibase, max_vertices, max_indices),
            )
        } else {
            (
                prev.0,
                DrawCallModel {
                    vertices_count: prev.1.vertices_count + vertices_taken(c, max_vertices),
                    indices_count: prev.1.indices_count + indices_taken(c, max_indices),
                    ..prev.1
                },
            )
        }
    }
}

/// The draw calls that batching all of `cmds` gives (none for no command).
pub open spec fn batched_draw_calls<V>(
    cmds: Seq<RenderCommand<V>>,
    vbase: int,
    ibase: int,
    max_vertices: int,
    max_indices: int,
) -> Seq<DrawCallModel> {
    if cmds.len() == 0 {
        Seq::empty()
    } else {
        let b = batching(cmds, cmds.len() as int, vbase, ibase, max_vertices, max_indices);
        b.0.push(b.1)
    }
}

/// No moved index overflows 32 bits: the batch holds fewer than 2^32 vertices, and each
/// taken index plus the position of its command's first vertex fits.
pub open spec fn indices_fit<V>(cmds: Seq<RenderCommand<V>>, vbase: int, max_vertices: int, max_indices: int) -> bool {
    &&& vbase + vertices_before(cmds, cmds.len() as int, max_vertices) <= u32::MAX
    &&& forall|k: int, j: int|
        0 <= k < cmds.len() && 0 <= j < indices_taken(cmds[k], max_indices) ==> #[trigger] cmds[k].indices@[j]
            + vbase + vertices_before(cmds, k, max_vertices) <= u32::MAX
}

/// Whether the uniform values of every command are well formed.
pub open spec fn uniforms_wf<V>(cmds: Seq<RenderCommand<V>>) -> bool {
    forall|k: int| 0 <= k < cmds.len() ==> (#[trigger] cmds[k].uniforms matches Some(u) ==> u.wf())
}

proof fn lemma_before_nonneg<V>(cmds: Seq<RenderCommand<V>>, a: int, max_vertices: int, max_indices: int)
    requires
        0 <= max_vertices,
        0 <= max_indices,
    ensures
        0 <= vertices_before(cmds, a, max_vertices),
        0 <= indices_before(cmds, a, max_indices),
    decreases a,
{
    if a > 0 {
        lemma_before_nonneg(cmds, a - 1, max_vertices, max_indices);
    }
}

proof fn lemma_before_monotone<V>(cmds: Seq<RenderCommand<V>>, a: int, b: int, max_vertices: int, max_indices: int)
    requires
        0 <= a <= b <= cmds.len(),
        0 <= max_vertices,
        0 <= max_indices,
    ensures
        0 <= vertices_before(cmds, a, max_vertices) <= vertices_before(cmds, b, max_vertices),
        0 <= indices_before(cmds, a, max_indices) <= indices_before(cmds, b, max_indices),
    decreases b - a,
{
    lemma_before_nonneg(cmds, a, max_vertices, max_indices);
    if a < b {
        lemma_before_monotone(cmds, a, b - 1, max_vertices, max_indices);
    }
}

/// A batch of consecutive draws with the same render target, material and uniforms: a
/// range of the frame's vertex buffer and one of its index buffer.
pub struct DrawCall {
    pub vertices_count: usize,
    pub indices_count: usize,
    pub vertices_start: usize,
    pub indices_start: usize,
    pub mat_handle: MaterialHandle,
    pub uniforms: Option<UniformValues>,
    pub render_target: RenderTargetHandle,
}

/// A draw call as plain values.
pub struct DrawCallModel {
    pub vertices_count: int,
    pub indices_count: int,
    pub vertices_start: int,
    pub indices_start: int,
    pub mat_handle: MaterialHandle,
    pub uniforms: Option<Seq<(Seq<char>, Uniform)>>,
    pub render_target: RenderTargetHandle,
}

impl View for DrawCall {
    type V = DrawCallModel;

    open spec fn view(&self) -> DrawCallModel {
        DrawCallModel {
            vertices_count: self.vertices_count as int,
            indices_count: self.indices_count as int,
            vertices_start: self.vertices_start as int,
            indices_start: self.indices_start as int,
            mat_handle: self.mat_handle,
            uniforms: uniforms_view(self.uniforms),
            render_target: self.render_target,
        }
    }
}

impl DrawCall {
    /// An empty draw call (no vertices, no indices) with the command's material,
    /// uniforms and render target.
    pub fn new<V>(command: RenderCommand<V>) -> (d: DrawCall)
        ensures
            d@ == (DrawCallModel {
                vertices_count: 0,
                indices_count: 0,
                vertices_start: 0,
                indices_start: 0,
                mat_handle: command.mat_handle,
                uniforms: uniforms_view(command.uniforms),
                render_target: command.render_target,
            }),
    {
        DrawCall {
            vertices_start: 0,
            indices_start: 0,
            vertices_count: 0,
            indices_count: 0,
            mat_handle: command.mat_handle,
            uniforms: command.uniforms,
            render_target: command.render_target,
        }
    }
}

proof fn lemma_batching<V>(
    cmds: Seq<RenderCommand<V>>,
    k: int,
    vbase: int,
    ibase: int,
    max_vertices: int,
    max_indices: int,
)
    requires
        1 <= k <= cmds.len(),
        0 <= max_vertices,
        0 <= max_indices,
    ensures
        ({
            let b = batching(cmds, k, vbase, ibase, max_vertices, max_indices);
            let all = b.0.push(b.1);
            &&& all[0].vertices_start == vbase
            &&& all[0].indices_start == ibase
            &&& b.1.vertices_start + b.1.vertices_count == vbase + vertices_before(cmds, k, max_vertices)
            &&& b.1.indices_start + b.1.indices_count == ibase + indices_before(cmds, k, max_indices)
            &&& forall|i: int| 0 <= i < all.len() ==> (#[trigger] all[i]).vertices_count <= max_vertices
                && all[i].indices_count <= max_indices
            &&& forall|i: int| 0 <= i < b.0.len() ==> #[trigger] all[i].vertices_start + all[i].vertices_count
                == all[i + 1].vertices_start && all[i].indices_start + all[i].indices_count == all[i + 1].indices_start
        }),
    decreases k,
{
    if k > 1 {
        lemma_batching(cmds, k - 1, vbase, ibase, max_vertices, max_indices);
        let prev = batching(cmds, k - 1, vbase, ibase, max_vertices, max_indices);
        let b = batching(cmds, k, vbase, ibase, max_vertices, max_indices);
        let prev_all = prev.0.push(prev.1);
        let all = b.0.push(b.1);
        if breaks_batch(prev.1, cmds[k - 1], max_vertices, max_indices) {
            assert forall|i: int| 0 <= i < all.len() implies (#[trigger] all[i]).vertices_count <= max_vertices
                && all[i].indices_count <= max_indices by {
                if i < prev_all.len() {
                    assert(all[i] == prev_all[i]);
                }
            }
            assert forall|i: int| 0 <= i < b.0.len() implies #[trigger] all[i].vertices_start + all[i].vertices_count
                == all[i + 1].vertices_start && all[i].indices_start + all[i].indices_count == all[i + 1].indices_start by {
                if i < prev.0.len() {
                    assert(all[i] == prev_all[i]);
                    assert(all[i + 1] == prev_all[i + 1]);
                }
            }
            assert(all[0] == prev_all[0]);
        } else {
            assert forall|i: int| 0 <= i < all.len() implies (#[trigger] all[i]).vertices_count <= max_vertices
                && all[i].indices_count <= max_indices by {
                if i < b.0.len() {
                    assert(all[i] == prev_all[i]);
                }
            }
            assert forall|i: int| 0 <= i < b.0.len() implies #[trigger] all[i].vertices_start + all[i].vertices_count
                == all[i + 1].vertices_start && all[i].indices_start + all[i].indices_count == all[i + 1].indices_start by {
                assert(all[i] == prev_all[i]);
                if i + 1 < b.0.len() {
                    assert(all[i + 1] == prev_all[i + 1]);
                } else {
                    assert(all[i + 1].vertices_start == prev_all[i + 1].vertices_start);
                }
            }
            if b.0.len() > 0 {
                assert(all[0] == prev_all[0]);
            }
        }
    }
}

/// The draw calls of a frame split its batch buffers into consecutive ranges: the first
/// starts where the frame's draws start, each ends where the next starts, the last ends
/// after the last draw's data; and no draw call holds more than `max_vertices` vertices or
/// `max_indices` indices.
pub proof fn law_draw_calls_partition<V>(
    cmds: Seq<RenderCommand<V>>,
    vbase: int,
    ibase: int,
    max_vertices: int,
    max_indices: int,
)
    requires
        cmds.len() > 0,
        0 <= max_vertices,
        0 <= max_indices,
    ensures
        ({
            let dcs = batched_draw_calls(cmds, vbase, ibase, max_vertices, max_indices);
            &&& dcs.len() >= 1
            &&& dcs[0].vertices_start == vbase
            &&& dcs[0].indices_start == ibase
            &&& dcs.last().vertices_start + dcs.last().vertices_count == vbase + vertices_before(
                cmds,
                cmds.len() as int,
                max_vertices,
            )
            &&& dcs.last().indices_start + dcs.last().indices_count == ibase + indices_before(
                cmds,
                cmds.len() as int,
                max_indices,
            )
            &&& forall|i: int| 0 <= i < dcs.len() ==> (#[trigger] dcs[i]).vertices_count <= max_vertices
                && dcs[i].indices_count <= max_indices
            &&& forall|i: int| 0 <= i < dcs.len() - 1 ==> #[trigger] dcs[i].vertices_start + dcs[i].vertices_count
                == dcs[i + 1].vertices_start && dcs[i].indices_start + dcs[i].indices_count == dcs[i + 1].indices_start
        }),
{
    lemma_batching(cmds, cmds.len() as int, vbase, ibase, max_vertices, max_indices);
}

/// The draw call still open after the first `k` commands holds at least nothing.
proof fn lemma_open_counts_nonneg<V>(
    cmds: Seq<RenderCommand<V>>,
    k: int,
    vbase: int,
    ibase: int,
    max_vertices: int,
    max_indices: int,
)
    requires
        1 <= k <= cmds.len(),
        0 <= max_vertices,
        0 <= max_indices,
    ensures
        batching(cmds, k, vbase, ibase, max_vertices, max_indices).1.vertices_count >= 0,
        batching(cmds, k, vbase, ibase, max_vertices, max_indices).1.indices_count >= 0,
    decreases k,
{
    if k > 1 {
        lemma_open_counts_nonneg(cmds, k - 1, vbase, ibase, max_vertices, max_indices);
    }
}

/// Right after command `k` is batched, the open draw call has its render target and
/// material, its uniforms (the very values, where `k` opened it; equal ones, where `k`
/// joined it), and covers its vertices and indices.
proof fn lemma_open_call_holds_command<V>(
    cmds: Seq<RenderCommand<V>>,
    k: int,
    vbase: int,
    ibase: int,
    max_vertices: int,
    max_indices: int,
)
    requires
        0 <= k < cmds.len(),
        0 <= max_vertices,
        0 <= max_indices,
    ensures
        ({
            let d = batching(cmds, k + 1, vbase, ibase, max_vertices, max_indices).1;
            &&& d.render_target == cmds[k].render_target
            &&& d.mat_handle == cmds[k].mat_handle
            &&& d.uniforms == uniforms_view(cmds[k].uniforms) || same_uniforms(
                uniforms_view(cmds[k].uniforms),
                d.uniforms,
            )
            &&& d.vertices_start <= vbase + vertices_before(cmds, k, max_vertices)
            &&& d.indices_start <= ibase + indices_before(cmds, k, max_indices)
            &&& vbase + vertices_before(cmds, k + 1, max_vertices) <= d.vertices_start + d.vertices_count
            &&& ibase + indices_before(cmds, k + 1, max_indices) <= d.indices_start + d.indices_count
        }),
{
    lemma_batching(cmds, k + 1, vbase, ibase, max_vertices, max_indices);
    if k > 0 {
        lemma_batching(cmds, k, vbase, ibase, max_vertices, max_indices);
        lemma_open_counts_nonneg(cmds, k, vbase, ibase, max_vertices, max_indices);
    }
}

/// A draw call opened by then stays in the list from then on, at the same place, with
/// the same render target, material, uniforms and start, and at least as long.
proof fn lemma_open_call_kept<V>(
    cmds: Seq<RenderCommand<V>>,
    k: int,
    m: int,
    vbase: int,
    ibase: int,
    max_vertices: int,
    max_indices: int,
)
    requires
        1 <= k <= m <= cmds.len(),
        0 <= max_vertices,
        0 <= max_indices,
    ensures
        ({
            let bk = batching(cmds, k, vbase, ibase, max_vertices, max_indices);
            let bm = batching(cmds, m, vbase, ibase, max_vertices, max_indices);
            let all = bm.0.push(bm.1);
            let i = bk.0.len() as int;
            &&& i < all.len()
            &&& all[i].render_target == bk.1.render_target
            &&& all[i].mat_handle == bk.1.mat_handle
            &&& all[i].uniforms == bk.1.uniforms
            &&& all[i].vertices_start == bk.1.vertices_start
            &&& all[i].indices_start == bk.1.indices_start
            &&& all[i].vertices_count >= bk.1.vertices_count
            &&& all[i].indices_count >= bk.1.indices_count
        }),
    decreases m - k,
{
    if m > k {
        lemma_open_call_kept(cmds, k, m - 1, vbase, ibase, max_vertices, max_indices);
        let bk = batching(cmds, k, vbase, ibase, max_vertices, max_indices);
        let prev = batching(cmds, m - 1, vbase, ibase, max_vertices, max_indices);
        let bm = batching(cmds, m, vbase, ibase, max_vertices, max_indices);
        let prev_all = prev.0.push(prev.1);
        let all = bm.0.push(bm.1);
        let i = bk.0.len() as int;
        if breaks_batch(prev.1, cmds[m - 1], max_vertices, max_indices) {
            assert(all[i] == prev_all[i]);
        } else if i < prev.0.len() {
            assert(all[i] == prev_all[i]);
        }
    }
}

/// Every draw is drawn by a draw call with its render target, its material and its
/// uniform values (the same values, or equal ones as maps), one that covers its vertices
/// and indices: draws whose uniforms differ are never merged into one draw call.
pub proof fn law_draw_call_holds_its_draws<V>(
    cmds: Seq<RenderCommand<V>>,
    vbase: int,
    ibase: int,
    max_vertices: int,
    max_indices: int,
    k: int,
)
    requires
        0 <= k < cmds.len(),
        0 <= max_vertices,
        0 <= max_indices,
    ensures
        exists|i: int|
            0 <= i < batched_draw_calls(cmds, vbase, ibase, max_vertices, max_indices).len() && {
                let d = #[trigger] batched_draw_calls(cmds, vbase, ibase, max_vertices, max_indices)[i];
                &&& d.render_target == cmds[k].render_target
                &&& d.mat_handle == cmds[k].mat_handle
                &&& d.uniforms == uniforms_view(cmds[k].uniforms) || same_uniforms(
                    uniforms_view(cmds[k].uniforms),
                    d.uniforms,
                )
                &&& d.vertices_start <= vbase + vertices_before(cmds, k, max_vertices)
                &&& d.indices_start <= ibase + indices_before(cmds, k, max_indices)
                &&& vbase + vertices_before(cmds, k + 1, max_vertices) <= d.vertices_start
                    + d.vertices_count
                &&& ibase + indices_before(cmds, k + 1, max_indices) <= d.indices_start
                    + d.indices_count
            },
{
    lemma_open_call_holds_command(cmds, k, vbase, ibase, max_vertices, max_indices);
    lemma_open_call_kept(cmds, k + 1, cmds.len() as int, vbase, ibase, max_vertices, max_indices);
    let i = batching(cmds, k + 1, vbase, ibase, max_vertices, max_indices).0.len() as int;
    let dcs = batched_draw_calls(cmds, vbase, ibase, max_vertices, max_indices);
    assert(0 <= i < dcs.len());
}

/// The views of a list of draw calls.
pub open spec fn draw_call_views(s: Seq<DrawCall>) -> Seq<DrawCallModel> {
    s.map_values(|d: DrawCall| d@)
}

/// Appends the first `n` items of `src` to `buf`.
fn append_vertices<V: Copy>(buf: &mut Vec<V>, src: &Vec<V>, n: usize)
    requires
        n <= src.len(),
    ensures
        final(buf)@ == old(buf)@ + src@.take(n as int),
{
    let mut j: usize = 0;
    while j < n
        invariant
            j <= n,
            n <= src.len(),
            buf@ == old(buf)@ + src@.take(j as int),
        decreases n - j,
    {
        buf.push(src[j]);
        j = j + 1;
        assert(buf@ =~= old(buf)@ + src@.take(j as int));
    }
}

/// Appends the first `n` indices of `src` to `buf`, each moved by `offset`.
fn append_indices(buf: &mut Vec<u32>, src: &Vec<u32>, n: usize, offset: u32)
    requires
        n <= src.len(),
        forall|j: int| 0 <= j < n ==> #[trigger] src@[j] + offset <= u32::MAX,
    ensures
        final(buf)@.len() == old(buf)@.len() + n,
        forall|j: int| 0 <= j < old(buf)@.len() ==> #[trigger] final(buf)@[j] == old(buf)@[j],
        forall|j: int|
            0 <= j < n ==> #[trigger] final(buf)@[old(buf)@.len() + j] == src@[j] + offset,
{
    let mut j: usize = 0;
    while j < n
        invariant
            j <= n,
            n <= src.len(),
            forall|t: int| 0 <= t < n ==> #[trigger] src@[t] + offset <= u32::MAX,
            buf@.len() == old(buf)@.len() + j,
            forall|t: int| 0 <= t < old(buf)@.len() ==> #[trigger] buf@[t] == old(buf)@[t],
            forall|t: int| 0 <= t < j ==> #[trigger] buf@[old(buf)@.len() + t] == src@[t] + offset,
        decreases n - j,
    {
        buf.push(src[j] + offset);
        j = j + 1;
    }
}

/// A copy of a command's or draw call's uniform values.
fn copy_uniforms(u: &Option<UniformValues>) -> (c: Option<UniformValues>)
    requires
        u matches Some(v) ==> v.wf(),
    ensures
        uniforms_view(c) == uniforms_view(*u),
        c matches Some(v) ==> v.wf(),
{
    match u {
        Some(v) => {
            let c = v.copy();
            assert(c.wf());
            Some(c)
        },
        None => None,
    }
}

/// Whether two commands or draw calls have the same uniforms, as the renderer compares
/// them.
fn uniforms_same(a: &Option<UniformValues>, b: &Option<UniformValues>) -> (r: bool)
    requires
        a matches Some(v) ==> v.wf(),
        b matches Some(v) ==> v.wf(),
    ensures
        r == same_uniforms(uniforms_view(*a), uniforms_view(*b)),
{
    match (a, b) {
        (None, None) => true,
        (Some(x), Some(y)) => x.same_as(y),
        _ => false,
    }
}

/// Whether `geometry` can batch `render_commands` after `vertex_base` vertices and
/// `index_base` indices: no moved index passes 32 bits (`indices_fit`) and the index
/// buffer's length stays within `usize`.
pub fn batch_fits<V>(
    render_commands: &Vec<RenderCommand<V>>,
    vertex_base: usize,
    index_base: usize,
    max_vertices: usize,
    max_indices: usize,
) -> (r: bool)
    ensures
        r == (indices_fit(render_commands@, vertex_base as int, max_vertices as int, max_indices as int)
            && index_base + indices_before(render_commands@, render_commands.len() as int, max_indices as int) <= usize::MAX),
{
    let ghost cmds = render_commands@;
    let ghost mv = max_vertices as int;
    let ghost mi = max_indices as int;
    let n = render_commands.len();
    if vertex_base > 0xffff_ffffusize {
        proof {
            lemma_before_nonneg(cmds, n as int, mv, mi);
        }
        return false;
    }
    let mut before: usize = vertex_base;
    let mut ibefore: usize = index_base;
    let mut k: usize = 0;
    while k < n
        invariant
            n == cmds.len(),
            cmds == render_commands@,
            mv == max_vertices as int,
            mi == max_indices as int,
            k <= n,
            before == vertex_base + vertices_before(cmds, k as int, mv),
            before <= u32::MAX,
            ibefore == index_base + indices_before(cmds, k as int, mi),
            forall|a: int, j: int|
                0 <= a < k && 0 <= j < indices_taken(cmds[a], mi) ==> #[trigger] cmds[a].indices@[j]
                    + vertex_base + vertices_before(cmds, a, mv) <= u32::MAX,
        decreases n - k,
    {
        let cmd = &render_commands[k];
        let v_len = if cmd.vertices.len() < max_vertices {
            cmd.vertices.len()
        } else {
            max_vertices
        };
        let i_len = if cmd.indices.len() < max_indices {
            cmd.indices.len()
        } else {
            max_indices
        };
        let mut j: usize = 0;
        while j < i_len
            invariant
                j <= i_len,
                k < n,
                n == cmds.len(),
                cmds == render_commands@,
                mv == max_vertices as int,
                mi == max_indices as int,
                i_len == indices_taken(cmds[k as int], mi),
                i_len <= cmd.indices.len(),
                *cmd == cmds[k as int],
                before == vertex_base + vertices_before(cmds, k as int, mv),
                before <= u32::MAX,
                forall|b: int| 0 <= b < j ==> #[trigger] cmds[k as int].indices@[b] + before <= u32::MAX,
            decreases i_len - j,
        {
            if cmd.indices[j] as usize > 0xffff_ffffusize - before {
                proof {
                    assert(cmds[k as int].indices@[j as int] + vertex_base + vertices_before(cmds, k as int, mv) > u32::MAX);
                }
                return false;
            }
            j = j + 1;
        }
        proof {
            lemma_before_monotone(cmds, k as int + 1, n as int, mv, mi);
        }
        if v_len > 0xffff_ffffusize - before {
            return false;
        }
        if i_len > usize::MAX - ibefore {
            return false;
        }
        before = before + v_len;
        ibefore = ibefore + i_len;
        k = k + 1;
    }
    true
}

/// Turns the frame's draws, in the order the renderer sorted them, into draw calls:
/// appends each draw's vertices (at most `max_vertices`) and indices (at most
/// `max_indices`, each moved by the position of its draw's first vertex in the vertex
/// buffer) to the frame's buffers, and merges consecutive draws into one draw call while
/// they share render target, material and uniforms and fit the limits (see `batching`).
#[verifier::rlimit(40)]
pub fn geometry<V: Copy>(
    render_commands: &Vec<RenderCommand<V>>,
    max_vertices: usize,
    max_indices: usize,
    batch_vertex_buffer: &mut Vec<V>,
    batch_index_buffer: &mut Vec<u32>,
    draw_calls: &mut Vec<DrawCall>,
)
    requires
        uniforms_wf(render_commands@),
        indices_fit(render_commands@, old(batch_vertex_buffer).len() as int, max_vertices as int, max_indices as int),
        old(batch_index_buffer).len() + indices_before(render_commands@, render_commands.len() as int, max_indices as int) <= usize::MAX,
    ensures
        final(batch_vertex_buffer)@ == old(batch_vertex_buffer)@ + batched_vertices(
            render_commands@,
            render_commands.len() as int,
            max_vertices as int,
        ),
        final(batch_index_buffer)@ == old(batch_index_buffer)@ + batched_indices(
            render_commands@,
            render_commands.len() as int,
            old(batch_vertex_buffer).len() as int,
            max_vertices as int,
            max_indices as int,
        ),
        draw_call_views(final(draw_calls)@) == draw_call_views(old(draw_calls)@) + batched_draw_calls(
            render_commands@,
            old(batch_vertex_buffer).len() as int,
            old(batch_index_buffer).len() as int,
            max_vertices as int,
            max_indices as int,
        ),
{
    let n = render_commands.len();
    let ghost cmds = render_commands@;
    let ghost mv = max_vertices as int;
    let ghost mi = max_indices as int;
    let ghost vb = batch_vertex_buffer.len() as int;
    let ghost ib = batch_index_buffer.len() as int;
    let ghost old_bvb = batch_vertex_buffer@;
    let ghost old_bib = batch_index_buffer@;
    let ghost old_dc = draw_call_views(draw_calls@);
    if n == 0 {
        proof {
            assert(batched_vertices(cmds, 0, mv) =~= Seq::<V>::empty());
            assert(batched_indices(cmds, 0, vb, mv, mi) =~= Seq::<u32>::empty());
            assert(old_bvb + Seq::<V>::empty() =~= old_bvb);
            assert(old_bib + Seq::<u32>::empty() =~= old_bib);
            assert(old_dc + Seq::<DrawCallModel>::empty() =~= old_dc);
        }
        return ;
    }
    proof {
        lemma_before_monotone(cmds, 1, n as int, mv, mi);
        lemma_before_monotone(cmds, 0, 1, mv, mi);
    }
    let first_cmd = &render_commands[0];
    let v_limit = if max_vertices < first_cmd.vertices.len() {
        max_vertices
    } else {
        first_cmd.vertices.len()
    };
    let i_limit = if max_indices < first_cmd.indices.len() {
        max_indices
    } else {
        first_cmd.indices.len()
    };
    let mut current_draw_call = DrawCall {
        vertices_start: batch_vertex_buffer.len(),
        indices_start: batch_index_buffer.len(),
        vertices_count: v_limit,
        indices_count: i_limit,
        mat_handle: first_cmd.mat_handle,
        uniforms: copy_uniforms(&first_cmd.uniforms),
        render_target: first_cmd.render_target,
    };
    let vertex_offset = batch_vertex_buffer.len() as u32;
    append_vertices(batch_vertex_buffer, &first_cmd.vertices, v_limit);
    proof {
        assert forall|j: int| 0 <= j < i_limit implies #[trigger] first_cmd.indices@[j] + vertex_offset <= u32::MAX by {
            assert(cmds[0].indices@[j] + vb + vertices_before(cmds, 0, mv) <= u32::MAX);
        }
    }
    append_indices(batch_index_buffer, &first_cmd.indices, i_limit, vertex_offset);
    proof {
        assert(*first_cmd == cmds[0]);
        assert(batched_vertices(cmds, 0, mv) =~= Seq::<V>::empty());
        assert(batched_vertices(cmds, 1, mv) =~= first_cmd.vertices@.take(v_limit as int));
        assert(batched_indices(cmds, 0, vb, mv, mi) =~= Seq::<u32>::empty());
        let bi = batched_indices(cmds, 1, vb, mv, mi);
        let added = first_cmd.indices@.take(i_limit as int).map_values(
            |x: u32| (x + vb + vertices_before(cmds, 0, mv)) as u32);
        assert(bi =~= added);
        assert(vertex_offset as int == vb);
        assert forall|j: int| 0 <= j < i_limit implies #[trigger] batch_index_buffer@[old_bib.len() + j] == added[j] by {
            assert(batch_index_buffer@[old_bib.len() + j] == first_cmd.indices@[j] + vertex_offset);
        }
        assert forall|t: int| 0 <= t < batch_index_buffer@.len() implies #[trigger] batch_index_buffer@[t] == (old_bib + bi)[t] by {
            if t >= old_bib.len() {
                let j = t - old_bib.len();
                assert(batch_index_buffer@[old_bib.len() + j] == added[j]);
            }
        }
        assert(batch_index_buffer@ =~= old_bib + bi);
    }
    let mut k: usize = 1;
    while k < n
        invariant
            1 <= k <= n,
            n == render_commands.len(),
            cmds == render_commands@,
            mv == max_vertices as int,
            mi == max_indices as int,
            uniforms_wf(cmds),
            indices_fit(cmds, vb, mv, mi),
            ib + indices_before(cmds, n as int, mi) <= usize::MAX,
            0 <= vb,
            0 <= ib,
            current_draw_call@ == batching(cmds, k as int, vb, ib, mv, mi).1,
            current_draw_call.uniforms matches Some(u) ==> u.wf(),
            current_draw_call.vertices_count <= vertices_before(cmds, k as int, mv),
            current_draw_call.indices_count <= indices_before(cmds, k as int, mi),
            draw_call_views(draw_calls@) == old_dc + batching(cmds, k as int, vb, ib, mv, mi).0,
            batch_vertex_buffer@ == old_bvb + batched_vertices(cmds, k as int, mv),
            batch_index_buffer@ == old_bib + batched_indices(cmds, k as int, vb, mv, mi),
            batch_vertex_buffer.len() == vb + vertices_before(cmds, k as int, mv),
            batch_index_buffer.len() == ib + indices_before(cmds, k as int, mi),
        decreases n - k,
    {
        proof {
            lemma_before_monotone(cmds, k + 1, n as int, mv, mi);
            lemma_before_monotone(cmds, k as int, k + 1, mv, mi);
        }
        let cmd = &render_commands[k];
        let v_len = if cmd.vertices.len() < max_vertices {
            cmd.vertices.len()
        } else {
            max_vertices
        };
        let i_len = if cmd.indices.len() < max_indices {
            cmd.indices.len()
        } else {
            max_indices
        };
        let is_state_compatible = cmd.render_target == current_draw_call.render_target
            && cmd.mat_handle == current_draw_call.mat_handle && uniforms_same(
            &cmd.uniforms,
            &current_draw_call.uniforms,
        );
        let has_space = current_draw_call.vertices_count + v_len <= max_vertices
            && current_draw_call.indices_count + i_len <= max_indices;
        let ghost prev = batching(cmds, k as int, vb, ib, mv, mi);
        if !is_state_compatible || !has_space {
            let closed = current_draw_call;
            let ghost before_dc = draw_calls@;
            let ghost closed_view = closed@;
            draw_calls.push(closed);
            proof {
                assert(draw_calls@ == before_dc.push(closed));
                assert(draw_call_views(draw_calls@) =~= draw_call_views(before_dc).push(closed_view));
            }
            current_draw_call = DrawCall {
                vertices_start: batch_vertex_buffer.len(),
                indices_start: batch_index_buffer.len(),
                vertices_count: 0,
                indices_count: 0,
                mat_handle: cmd.mat_handle,
                uniforms: copy_uniforms(&cmd.uniforms),
                render_target: cmd.render_target,
            };
            proof {
                assert(draw_call_views(draw_calls@) =~= old_dc + prev.0.push(prev.1));
            }
        }
        let current_v_offset = batch_vertex_buffer.len() as u32;
        let ghost bvb_before = batch_vertex_buffer@;
        let ghost bib_before = batch_index_buffer@;
        append_vertices(batch_vertex_buffer, &cmd.vertices, v_len);
        proof {
            assert forall|j: int| 0 <= j < i_len implies #[trigger] cmd.indices@[j] + current_v_offset <= u32::MAX by {
                assert(cmds[k as int].indices@[j] + vb + vertices_before(cmds, k as int, mv) <= u32::MAX);
            }
        }
        append_indices(batch_index_buffer, &cmd.indices, i_len, current_v_offset);
        current_draw_call.vertices_count = current_draw_call.vertices_count + v_len;
        current_draw_call.indices_count = current_draw_call.indices_count + i_len;
        proof {
            assert(batch_vertex_buffer@ =~= old_bvb + batched_vertices(cmds, k + 1, mv));
            assert(*cmd == cmds[k as int]);
            let added = cmd.indices@.take(i_len as int).map_values(
                |x: u32| (x + vb + vertices_before(cmds, k as int, mv)) as u32);
            assert(batched_indices(cmds, k + 1, vb, mv, mi) == batched_indices(cmds, k as int, vb, mv, mi) + added);
            assert(current_v_offset as int == vb + vertices_before(cmds, k as int, mv));
            assert forall|j: int| 0 <= j < i_len implies #[trigger] batch_index_buffer@[bib_before.len() + j] == added[j] by {
                assert(batch_index_buffer@[bib_before.len() + j] == cmd.indices@[j] + current_v_offset);
            }
            assert forall|t: int| 0 <= t < batch_index_buffer@.len() implies #[trigger] batch_index_buffer@[t] == (bib_before + added)[t] by {
                if t >= bib_before.len() {
                    let j = t - bib_before.len();
                    assert(batch_index_buffer@[bib_before.len() + j] == added[j]);
                }
            }
            assert(batch_index_buffer@ =~= bib_before + added);
            assert(batch_index_buffer@ =~= old_bib + batched_indices(cmds, k + 1, vb, mv, mi));
        }
        k = k + 1;
    }
    let ghost fin = batching(cmds, n as int, vb, ib, mv, mi);
    let ghost before_dc = draw_calls@;
    let ghost cur_view = current_draw_call@;
    draw_calls.push(current_draw_call);
    proof {
        assert(draw_calls@ == before_dc.push(current_draw_call));
        assert(draw_call_views(draw_calls@) =~= draw_call_views(before_dc).push(cur_view));
        assert(draw_call_views(draw_calls@) =~= old_dc + fin.0.push(fin.1));
    }
}

/// The outcome of comparing two draws: which is drawn first.
#[derive(Debug, Clone, Copy, PartialEq, Eq, Structural)]
pub enum DrawOrder {
    Less,
    Equal,
    Greater,
}

/// The outcome with the two sides swapped.
pub open spec fn reversed(o: DrawOrder) -> DrawOrder {
    match o {
        DrawOrder::Less => DrawOrder::Greater,
        DrawOrder::Equal => DrawOrder::Equal,
        DrawOrder::Greater => DrawOrder::Less,
    }
}

/// The order of two integers.
pub open spec fn int_order(a: int, b: int) -> DrawOrder {
    if a < b {
        DrawOrder::Less
    } else if a == b {
        DrawOrder::Equal
    } else {
        DrawOrder::Greater
    }
}

/// What the renderer sorts a draw by, besides its depth.
pub struct DrawSortKey {
    pub render_target: u64,
    pub render_queue: u32,
    pub transparent: bool,
    pub material: u64,
    pub id: u32,
}

/// The sort key of a recorded draw; a draw whose material is not registered counts as
/// opaque.
pub open spec fn sort_key_of<V, R>(
    c: RenderCommand<V>,
    materials: &IdMap<Material<R>, MaterialHandle>,
) -> DrawSortKey {
    DrawSortKey {
        render_target: c.render_target.0,
        render_queue: c.render_queue,
        transparent: match descriptor_of(materials, c.mat_handle) {
            Some(d) => d.spec_is_transparent(),
            None => false,
        },
        material: c.mat_handle.0,
        id: c.id,
    }
}

/// The order in which the renderer draws two draws, given how their depths compare
/// (`depth`, the order of `a`'s depth against `b`'s, `Equal` where they are unordered):
/// by render target, then render queue; within those, two transparent draws from far to
/// near, two opaque ones from near to far, and an opaque draw before a transparent one;
/// then by material, and last by the id of the draw.
pub open spec fn draw_order(a: DrawSortKey, b: DrawSortKey, depth: DrawOrder) -> DrawOrder {
    let by_depth = if a.transparent && b.transparent {
        reversed(depth)
    } else if !a.transparent && !b.transparent {
        depth
    } else if a.transparent {
        DrawOrder::Greater
    } else {
        DrawOrder::Less
    };
    if a.render_target != b.render_target {
        int_order(a.render_target as int, b.render_target as int)
    } else if a.render_queue != b.render_queue {
        int_order(a.render_queue as int, b.render_queue as int)
    } else if by_depth != DrawOrder::Equal {
        by_depth
    } else if a.material != b.material {
        int_order(a.material as int, b.material as int)
    } else {
        int_order(a.id as int, b.id as int)
    }
}

/// The order of two unsigned integers.
fn order_u64(a: u64, b: u64) -> (o: DrawOrder)
    ensures
        o == int_order(a as int, b as int),
{
    if a < b {
        DrawOrder::Less
    } else if a == b {
        DrawOrder::Equal
    } else {
        DrawOrder::Greater
    }
}

/// Compares two recorded draws as the renderer sorts them before batching (see
/// `draw_order`); `depth` is the comparison of `a`'s depth with `b`'s.
pub fn compare_render_commands<V, R>(
    a: &RenderCommand<V>,
    b: &RenderCommand<V>,
    depth: DrawOrder,
    materials: &IdMap<Material<R>, MaterialHandle>,
) -> (o: DrawOrder)
    ensures
        o == draw_order(sort_key_of(*a, materials), sort_key_of(*b, materials), depth),
{
    if a.render_target.0 != b.render_target.0 {
        return order_u64(a.render_target.0, b.render_target.0);
    }
    if a.render_queue != b.render_queue {
        return order_u64(a.render_queue as u64, b.render_queue as u64);
    }
    let a_transparent = a.mat_handle.should_render_as_transparent(materials);
    let b_transparent = b.mat_handle.should_render_as_transparent(materials);
    let by_depth = if a_transparent && b_transparent {
        match depth {
            DrawOrder::Less => DrawOrder::Greater,
            DrawOrder::Equal => DrawOrder::Equal,
            DrawOrder::Greater => DrawOrder::Less,
        }
    } else if !a_transparent && !b_transparent {
        depth
    } else if a_transparent {
        DrawOrder::Greater
    } else {
        DrawOrder::Less
    };
    match by_depth {
        DrawOrder::Equal => {},
        _ => {
            return by_depth;
        },
    }
    if a.mat_handle.0 != b.mat_handle.0 {
        return order_u64(a.mat_handle.0, b.mat_handle.0);
    }
    order_u64(a.id as u64, b.id as u64)
}

/// Swapping two draws reverses their order (where their depths compare the other way
/// round too), and two draws with different ids never compare as equal: the sort does
/// not depend on where the draws started.
pub proof fn law_draw_order_antisymmetric(a: DrawSortKey, b: DrawSortKey, depth: DrawOrder)
    ensures
        draw_order(b, a, reversed(depth)) == reversed(draw_order(a, b, depth)),
        a.id != b.id ==> draw_order(a, b, depth) != DrawOrder::Equal,
{
}

/// How the renderer orders two draws on the same render target and in the same render
/// queue whose depths differ: two transparent draws far to near (the farther first), two
/// opaque draws near to far, an opaque draw before a transparent one, whatever their
/// materials and ids. Draws on different render targets, or else in different queues,
/// go by target, then by queue.
pub proof fn law_draw_order_by_depth(a: DrawSortKey, b: DrawSortKey, depth: DrawOrder)
    ensures
        a.render_target < b.render_target ==> draw_order(a, b, depth) == DrawOrder::Less,
        a.render_target == b.render_target && a.render_queue < b.render_queue ==> draw_order(
            a,
            b,
            depth,
        ) == DrawOrder::Less,
        a.render_target == b.render_target && a.render_queue == b.render_queue ==> {
            &&& a.transparent && b.transparent && depth == DrawOrder::Less ==> draw_order(a, b, depth)
                == DrawOrder::Greater
            &&& a.transparent && b.transparent && depth == DrawOrder::Greater ==> draw_order(
                a,
                b,
                depth,
            ) == DrawOrder::Less
            &&& !a.transparent && !b.transparent && depth != DrawOrder::Equal ==> draw_order(
                a,
                b,
                depth,
            ) == depth
            &&& !a.transparent && b.transparent ==> draw_order(a, b, depth) == DrawOrder::Less
            &&& a.transparent && !b.transparent ==> draw_order(a, b, depth) == DrawOrder::Greater
        },
{
}

/// Among draws on the same render target, in the same queue, of the same transparency
/// and at equal depth, the lower material comes first, and with the same material the
/// lower id.
pub proof fn law_draw_order_ties(a: DrawSortKey, b: DrawSortKey)
    requires
        a.render_target == b.render_target,
        a.render_queue == b.render_queue,
        a.transparent == b.transparent,
    ensures
        a.material < b.material ==> draw_order(a, b, DrawOrder::Equal) == DrawOrder::Less,
        a.material == b.material && a.id < b.id ==> draw_order(a, b, DrawOrder::Equal)
            == DrawOrder::Less,
{
}

/// A draw is sorted as transparent exactly when its material is registered and blends
/// its colour or its alpha (anything but "source replaces destination"); it is sorted by
/// its own render target, queue, material and id.
pub proof fn law_sort_key_of_draw<V, R>(c: RenderCommand<V>, materials: &IdMap<Material<R>, MaterialHandle>)
    ensures
        ({
            let key = sort_key_of(c, materials);
            let replace = BlendComponent {
                src_factor: BlendFactor::One,
                dst_factor: BlendFactor::Zero,
                operation: BlendOperation::Add,
            };
            &&& key.render_target == c.render_target.0
            &&& key.render_queue == c.render_queue
            &&& key.material == c.mat_handle.0
            &&& key.id == c.id
            &&& !materials@.contains_key(c.mat_handle.0) ==> !key.transparent
            &&& materials@.contains_key(c.mat_handle.0) ==> key.transparent == (
            materials@[c.mat_handle.0].material_descriptor.color_blend != replace
                || materials@[c.mat_handle.0].material_descriptor.alpha_blend != replace)
        }),
{
}

} // verus!
