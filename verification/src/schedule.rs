//! The decisions made while a graph runs on the GPU: which node is dispatched
//! next, which slots its push-constant table holds, and which memory barriers
//! guard each resource.
use vstd::prelude::*;
use crate::definition::AccessType;
use crate::format::ImageFormat;
use crate::graph::ComputeGraph;
use crate::hazards::is_prerequisite_list;
use crate::validate::{
    binding_error, binding_errors, lemma_no_first_error, node_error, node_errors,
};

verus! {

/// Every prerequisite of node `i` has completed.
pub open spec fn prerequisites_done(lists: Seq<Seq<usize>>, completed: Seq<bool>, i: int) -> bool {
    forall|x: int| 0 <= x < lists[i].len() ==> completed[lists[i][x] as int]
}

/// Node `i` is not completed and every prerequisite of it is.
pub open spec fn ready(lists: Seq<Seq<usize>>, completed: Seq<bool>, i: int) -> bool {
    !completed[i] && prerequisites_done(lists, completed, i)
}

/// Exactly the first `k` of `n` nodes have completed.
pub open spec fn first_completed(n: nat, k: int) -> Seq<bool> {
    Seq::new(n, |x: int| x < k)
}

/// Nodes run in declaration order: when exactly the first `k` nodes have
/// completed, node `k` is the first ready node, so scheduling a graph never
/// finds it stalled on a dependency cycle.
pub proof fn lemma_declaration_order_is_ready(g: ComputeGraph, k: int)
    requires
        g.consistent(),
        0 <= k < g.graph_definition().nodes@.len(),
    ensures
        ready(
            g.prerequisite_lists(),
            first_completed(g.graph_definition().nodes@.len(), k),
            k,
        ),
        forall|j: int|
            0 <= j < k ==> !ready(
                g.prerequisite_lists(),
                first_completed(g.graph_definition().nodes@.len(), k),
                j,
            ),
{
    let lists = g.prerequisite_lists();
    let completed = first_completed(g.graph_definition().nodes@.len(), k);
    assert(is_prerequisite_list(g.graph_definition().nodes@, k, lists[k]));
    assert forall|x: int| 0 <= x < lists[k].len() implies completed[lists[k][x] as int] by {
        assert(lists[k][x] < k);
    }
}

impl ComputeGraph {
    /// The first node that has not completed and whose prerequisites all
    /// have; `None` when there is no such node.
    pub fn next_ready_node(&self, completed: &Vec<bool>) -> (r: Option<usize>)
        requires
            completed@.len() == self.graph_definition().nodes@.len(),
        ensures
            match r {
                Some(i) => i < completed@.len() && ready(self.prerequisite_lists(), completed@, i as int)
                    && forall|j: int| 0 <= j < i ==> !ready(self.prerequisite_lists(), completed@, j),
                None => forall|j: int|
                    0 <= j < completed@.len() ==> !ready(self.prerequisite_lists(), completed@, j),
            },
    {
        proof {
            use_type_invariant(self);
        }
        let n = completed.len();
        let mut i: usize = 0;
        while i < n
            invariant
                n == completed@.len(),
                n == self.prerequisite_lists().len(),
                n == self.graph_definition().nodes@.len(),
                i <= n,
                forall|j: int| 0 <= j < i ==> !ready(self.prerequisite_lists(), completed@, j),
                forall|j: int|
                    0 <= j < n ==> is_prerequisite_list(
                        self.graph_definition().nodes@,
                        j,
                        #[trigger] self.prerequisite_lists()[j],
                    ),
            decreases n - i,
        {
            if !completed[i] {
                let deps = self.dependencies(i).unwrap();
                let mut all_done = true;
                let mut x: usize = 0;
                while x < deps.len()
                    invariant
                        deps@ == self.prerequisite_lists()[i as int],
                        n == completed@.len(),
                        i < n,
                        forall|y: int| 0 <= y < deps@.len() ==> deps@[y] < i,
                        x <= deps@.len(),
                        all_done == forall|y: int| 0 <= y < x ==> completed@[deps@[y] as int],
                    decreases deps@.len() - x,
                {
                    if !completed[deps[x]] {
                        all_done = false;
                    }
                    x = x + 1;
                }
                if all_done {
                    return Some(i);
                }
            }
            i = i + 1;
        }
        None
    }

    /// The 120-byte push-constant slot table of node `node`: entry `k` is the
    /// slot of the resource of the node's binding `k`, the remaining entries
    /// are 0.
    pub fn node_slot_table(&self, node: usize) -> (table: [u32; 30])
        requires
            node < self.graph_definition().nodes@.len(),
        ensures
            forall|k: int|
                0 <= k < 30 ==> {
                    let bindings = self.graph_definition().nodes@[node as int].bindings@;
                    if k < bindings.len() {
                        &&& #[trigger] table@[k] < self.graph_definition().resources.keys().len()
                        &&& self.graph_definition().resources.keys()[table@[k] as int]
                            == bindings[k].resource@
                    } else {
                        table@[k] == 0
                    }
                },
    {
        proof {
            use_type_invariant(self);
            let d = self.graph_definition();
            lemma_no_first_error(node_errors(d.nodes@, d.resources@));
            assert(node_errors(d.nodes@, d.resources@)[node as int] is None);
            assert(node_error(node as int, d.nodes@[node as int], d.resources@) is None);
            lemma_no_first_error(binding_errors(d.nodes@[node as int], d.resources@));
        }
        let ghost d = self.graph_definition();
        let bindings = &self.definition().nodes[node].bindings;
        let mut table: [u32; 30] = [0; 30];
        let mut k: usize = 0;
        proof {
            assert forall|m: int| 0 <= m < bindings@.len() implies #[trigger] binding_error(
                d.nodes@[node as int],
                m,
                d.resources@,
            ) is None by {
                assert(binding_errors(d.nodes@[node as int], d.resources@)[m] is None);
            }
        }
        while k < bindings.len()
            invariant
                *bindings == d.nodes@[node as int].bindings,
                d == self.graph_definition(),
                bindings@.len() <= 30,
                k <= bindings@.len(),
                forall|m: int| 0 <= m < bindings@.len() ==> #[trigger] binding_error(d.nodes@[node as int], m, d.resources@) is None,
                forall|m: int| k <= m < 30 ==> table@[m] == 0,
                forall|m: int|
                    0 <= m < k ==> table@[m] < d.resources.keys().len()
                        && d.resources.keys()[table@[m] as int] == bindings@[m].resource@,
            decreases bindings@.len() - k,
        {
            assert(binding_error(d.nodes@[node as int], k as int, d.resources@) is None);
            let slot = self.resource_slot(bindings[k].resource.as_str()).unwrap();
            table[k] = slot;
            k = k + 1;
        }
        table
    }
}


/// The kinds of memory access a barrier orders.
#[derive(Clone, Copy, Debug, PartialEq, Eq, Structural)]
pub struct AccessMask {
    pub shader_read: bool,
    pub shader_write: bool,
    pub transfer_read: bool,
    pub transfer_write: bool,
}

/// The layouts a graph image passes through.
#[derive(Clone, Copy, Debug, PartialEq, Eq, Structural)]
pub enum ImageLayout {
    Undefined,
    General,
    ShaderReadOnlyOptimal,
    TransferSrcOptimal,
    TransferDstOptimal,
}

/// Pipeline stages a barrier waits on.
#[derive(Clone, Copy, Debug, PartialEq, Eq, Structural)]
pub struct StageMask {
    pub top_of_pipe: bool,
    pub transfer: bool,
    pub compute_shader: bool,
}

/// The last layout and access of a graph image.
#[derive(Clone, Copy, Debug, PartialEq, Eq, Structural)]
pub struct ImageState {
    pub layout: ImageLayout,
    pub access: AccessMask,
}

/// A layout transition and memory dependency on an image.
#[derive(Clone, Copy, Debug, PartialEq, Eq, Structural)]
pub struct ImageBarrier {
    pub src_access: AccessMask,
    pub dst_access: AccessMask,
    pub old_layout: ImageLayout,
    pub new_layout: ImageLayout,
}

/// A memory dependency on a buffer.
#[derive(Clone, Copy, Debug, PartialEq, Eq, Structural)]
pub struct BufferBarrier {
    pub src_access: AccessMask,
    pub dst_access: AccessMask,
}

impl AccessMask {
    /// No access.
    pub open spec fn nothing() -> AccessMask {
        AccessMask { shader_read: false, shader_write: false, transfer_read: false, transfer_write: false }
    }

    /// The mask holds no access.
    pub open spec fn empty(self) -> bool {
        !self.shader_read && !self.shader_write && !self.transfer_read && !self.transfer_write
    }

    /// The mask holds a transfer access.
    pub open spec fn has_transfer(self) -> bool {
        self.transfer_read || self.transfer_write
    }

    /// Whether the mask holds no access.
    pub fn is_empty(&self) -> (r: bool)
        ensures
            r == self.empty(),
    {
        !self.shader_read && !self.shader_write && !self.transfer_read && !self.transfer_write
    }
}

/// The shader accesses of a binding's access type.
pub open spec fn shader_access(access: AccessType) -> AccessMask {
    AccessMask {
        shader_read: access.is_read(),
        shader_write: access.is_write(),
        transfer_read: false,
        transfer_write: false,
    }
}

/// The shader accesses of a binding's access type.
pub fn access_flags(access: AccessType) -> (r: AccessMask)
    ensures
        r == shader_access(access),
{
    AccessMask {
        shader_read: access.reads(),
        shader_write: access.writes(),
        transfer_read: false,
        transfer_write: false,
    }
}

/// The layout an image is used in by a binding with this access.
pub open spec fn binding_layout(access: AccessType) -> ImageLayout {
    if access.is_write() {
        ImageLayout::General
    } else {
        ImageLayout::ShaderReadOnlyOptimal
    }
}

/// Bindings that write an image use the general layout and bindings that
/// only read it use the read-only layout; the shader access of a binding
/// reads exactly when the binding reads and writes exactly when it writes.
pub proof fn lemma_binding_layout_follows_writes(access: AccessType)
    ensures
        access is Write || access is ReadWrite ==> binding_layout(access) == ImageLayout::General,
        access is Read ==> binding_layout(access) == ImageLayout::ShaderReadOnlyOptimal,
        shader_access(access).shader_read == (access is Read || access is ReadWrite),
        shader_access(access).shader_write == (access is Write || access is ReadWrite),
        !shader_access(access).transfer_read && !shader_access(access).transfer_write,
{
}

/// A binding of an image needs a barrier when the layout changes, when an
/// earlier access must be made visible, or when the binding writes.
pub open spec fn image_needs_barrier(state: ImageState, access: AccessType) -> bool {
    state.layout != binding_layout(access) || !state.access.empty() || access.is_write()
}

/// Plans the barrier before a dispatch binds an image, and records the
/// image's new layout and access.
pub fn image_binding_barrier(state: &mut ImageState, access: AccessType) -> (r: Option<ImageBarrier>)
    ensures
        r == if image_needs_barrier(*old(state), access) {
            Some(
                ImageBarrier {
                    src_access: old(state).access,
                    dst_access: shader_access(access),
                    old_layout: old(state).layout,
                    new_layout: binding_layout(access),
                },
            )
        } else {
            None::<ImageBarrier>
        },
        *final(state) == (ImageState { layout: binding_layout(access), access: shader_access(access) }),
        access is Write || access is ReadWrite ==> final(state).layout == ImageLayout::General && r
            is Some,
        access is Read ==> final(state).layout == ImageLayout::ShaderReadOnlyOptimal,
        final(state).access.shader_read == (access is Read || access is ReadWrite),
        final(state).access.shader_write == (access is Write || access is ReadWrite),
        !final(state).access.transfer_read && !final(state).access.transfer_write,
        r matches Some(b) ==> b.new_layout == final(state).layout && b.dst_access
            == final(state).access && b.old_layout == old(state).layout && b.src_access
            == old(state).access,
        r is None <==> (access is Read && old(state).layout == final(state).layout && old(
            state,
        ).access.empty()),
{
    let writes = access.writes();
    let new_layout = if writes {
        ImageLayout::General
    } else {
        ImageLayout::ShaderReadOnlyOptimal
    };
    let needs = state.layout != new_layout || !state.access.is_empty() || writes;
    let dst = access_flags(access);
    let barrier = if needs {
        Some(
            ImageBarrier {
                src_access: state.access,
                dst_access: dst,
                old_layout: state.layout,
                new_layout,
            },
        )
    } else {
        None
    };
    *state = ImageState { layout: new_layout, access: dst };
    barrier
}

/// A binding of a buffer needs a barrier when an earlier access must be made
/// visible or when the binding writes.
pub open spec fn buffer_needs_barrier(previous: AccessMask, access: AccessType) -> bool {
    !previous.empty() || access.is_write()
}

/// Plans the barrier before a dispatch binds a buffer, and records the
/// buffer's new access.
pub fn buffer_binding_barrier(state: &mut AccessMask, access: AccessType) -> (r: Option<BufferBarrier>)
    ensures
        r == if buffer_needs_barrier(*old(state), access) {
            Some(BufferBarrier { src_access: *old(state), dst_access: shader_access(access) })
        } else {
            None::<BufferBarrier>
        },
        *final(state) == shader_access(access),
        r is None <==> (access is Read && old(state).empty()),
        r matches Some(b) ==> b.src_access == *old(state) && b.dst_access == *final(state),
{
    let dst = access_flags(access);
    let barrier = if !state.is_empty() || access.writes() {
        Some(BufferBarrier { src_access: *state, dst_access: dst })
    } else {
        None
    };
    *state = dst;
    barrier
}

/// The stage that produced an access: transfers for transfer accesses, the
/// compute shader for other accesses, the top of the pipe for none.
pub open spec fn source_stage_of(access: AccessMask) -> StageMask {
    StageMask {
        top_of_pipe: !access.has_transfer() && access.empty(),
        transfer: access.has_transfer(),
        compute_shader: !access.has_transfer() && !access.empty(),
    }
}

/// The stage that produced an access.
pub fn source_stage(access: AccessMask) -> (r: StageMask)
    ensures
        r == source_stage_of(access),
{
    let transfer = access.transfer_read || access.transfer_write;
    let empty = access.is_empty();
    StageMask { top_of_pipe: !transfer && empty, transfer, compute_shader: !transfer && !empty }
}

/// The union of the source stages of several accesses.
pub open spec fn combined_source_stage(accesses: Seq<AccessMask>) -> StageMask {
    StageMask {
        top_of_pipe: exists|i: int| 0 <= i < accesses.len() && #[trigger] source_stage_of(accesses[i]).top_of_pipe,
        transfer: exists|i: int| 0 <= i < accesses.len() && #[trigger] source_stage_of(accesses[i]).transfer,
        compute_shader: exists|i: int|
            0 <= i < accesses.len() && #[trigger] source_stage_of(accesses[i]).compute_shader,
    }
}

/// The union of the source stages of the accesses that barriers wait on.
pub fn barrier_source_stage(accesses: &Vec<AccessMask>) -> (r: StageMask)
    ensures
        r == combined_source_stage(accesses@),
{
    let mut top = false;
    let mut transfer = false;
    let mut compute = false;
    let mut i: usize = 0;
    while i < accesses.len()
        invariant
            i <= accesses@.len(),
            top == exists|j: int| 0 <= j < i && #[trigger] source_stage_of(accesses@[j]).top_of_pipe,
            transfer == exists|j: int| 0 <= j < i && #[trigger] source_stage_of(accesses@[j]).transfer,
            compute == exists|j: int|
                0 <= j < i && #[trigger] source_stage_of(accesses@[j]).compute_shader,
        decreases accesses@.len() - i,
    {
        let stage = source_stage(accesses[i]);
        proof {
            assert(stage == source_stage_of(accesses@[i as int]));
        }
        top = top || stage.top_of_pipe;
        transfer = transfer || stage.transfer;
        compute = compute || stage.compute_shader;
        i = i + 1;
    }
    StageMask { top_of_pipe: top, transfer, compute_shader: compute }
}

/// The barrier before an input is copied into a fresh image, and the state
/// the image is left in.
pub fn upload_image_barrier() -> (r: (ImageBarrier, ImageState))
    ensures
        r.0 == (ImageBarrier {
            src_access: AccessMask::nothing(),
            dst_access: AccessMask { transfer_write: true, ..AccessMask::nothing() },
            old_layout: ImageLayout::Undefined,
            new_layout: ImageLayout::TransferDstOptimal,
        }),
        r.1 == (ImageState { layout: r.0.new_layout, access: r.0.dst_access }),
{
    let written = AccessMask {
        shader_read: false,
        shader_write: false,
        transfer_read: false,
        transfer_write: true,
    };
    let barrier = ImageBarrier {
        src_access: AccessMask {
            shader_read: false,
            shader_write: false,
            transfer_read: false,
            transfer_write: false,
        },
        dst_access: written,
        old_layout: ImageLayout::Undefined,
        new_layout: ImageLayout::TransferDstOptimal,
    };
    (barrier, ImageState { layout: ImageLayout::TransferDstOptimal, access: written })
}

/// Plans the barrier before an image is copied out to the host, and records
/// the image's new layout and access.
pub fn readback_image_barrier(state: &mut ImageState) -> (r: ImageBarrier)
    ensures
        r == (ImageBarrier {
            src_access: old(state).access,
            dst_access: AccessMask { transfer_read: true, ..AccessMask::nothing() },
            old_layout: old(state).layout,
            new_layout: ImageLayout::TransferSrcOptimal,
        }),
        *final(state) == (ImageState { layout: r.new_layout, access: r.dst_access }),
{
    let read = AccessMask {
        shader_read: false,
        shader_write: false,
        transfer_read: true,
        transfer_write: false,
    };
    let barrier = ImageBarrier {
        src_access: state.access,
        dst_access: read,
        old_layout: state.layout,
        new_layout: ImageLayout::TransferSrcOptimal,
    };
    *state = ImageState { layout: ImageLayout::TransferSrcOptimal, access: read };
    barrier
}

/// The barrier before an input is copied into a fresh buffer, and the
/// access the buffer is left with.
pub fn upload_buffer_barrier() -> (r: (BufferBarrier, AccessMask))
    ensures
        r.0 == (BufferBarrier {
            src_access: AccessMask::nothing(),
            dst_access: AccessMask { transfer_write: true, ..AccessMask::nothing() },
        }),
        r.1 == r.0.dst_access,
{
    let written = AccessMask {
        shader_read: false,
        shader_write: false,
        transfer_read: false,
        transfer_write: true,
    };
    let barrier = BufferBarrier {
        src_access: AccessMask {
            shader_read: false,
            shader_write: false,
            transfer_read: false,
            transfer_write: false,
        },
        dst_access: written,
    };
    (barrier, written)
}

/// Plans the barrier before a buffer is copied out to the host, and records
/// the buffer's new access.
pub fn readback_buffer_barrier(state: &mut AccessMask) -> (r: BufferBarrier)
    ensures
        r == (BufferBarrier {
            src_access: *old(state),
            dst_access: AccessMask { transfer_read: true, ..AccessMask::nothing() },
        }),
        *final(state) == r.dst_access,
{
    let read = AccessMask {
        shader_read: false,
        shader_write: false,
        transfer_read: true,
        transfer_write: false,
    };
    let barrier = BufferBarrier { src_access: *state, dst_access: read };
    *state = read;
    barrier
}

/// Entries of a bindless image table.
pub const BINDLESS_IMAGE_COUNT: usize = 64;

/// Which entries of a bindless image table hold a descriptor. An entry is
/// claimed once and kept for the lifetime of the table.
#[derive(Debug)]
pub struct BindlessSlots {
    occupied: [bool; 64],
}

impl BindlessSlots {
    /// Whether each entry is taken.
    pub closed spec fn taken(&self) -> Seq<bool> {
        self.occupied@
    }

    /// A table whose entries are all free.
    pub fn new() -> (t: Self)
        ensures
            t.taken() == Seq::new(BINDLESS_IMAGE_COUNT as nat, |i: int| false),
    {
        let t = BindlessSlots { occupied: [false; 64] };
        assert(t.taken() =~= Seq::new(BINDLESS_IMAGE_COUNT as nat, |i: int| false));
        t
    }

    /// Claims the lowest free entry; `None` when every entry is taken.
    pub fn claim(&mut self) -> (r: Option<u32>)
        ensures
            old(self).taken().len() == BINDLESS_IMAGE_COUNT,
            match r {
                Some(i) => {
                    &&& i < BINDLESS_IMAGE_COUNT
                    &&& !old(self).taken()[i as int]
                    &&& forall|j: int| 0 <= j < i ==> old(self).taken()[j]
                    &&& final(self).taken() == old(self).taken().update(i as int, true)
                },
                None => {
                    &&& forall|j: int| 0 <= j < BINDLESS_IMAGE_COUNT ==> old(self).taken()[j]
                    &&& final(self).taken() == old(self).taken()
                },
            },
    {
        let mut i: usize = 0;
        while i < BINDLESS_IMAGE_COUNT
            invariant
                i <= BINDLESS_IMAGE_COUNT,
                *self == *old(self),
                forall|j: int| 0 <= j < i ==> self.occupied@[j],
            decreases BINDLESS_IMAGE_COUNT - i,
        {
            if !self.occupied[i] {
                self.occupied[i] = true;
                return Some(i as u32);
            }
            i = i + 1;
        }
        None
    }
}

/// The byte count of an image's texels, if it fits in 64 bits.
pub fn image_byte_count(width: u32, height: u32, format: ImageFormat) -> (r: Option<u64>)
    ensures
        match r {
            Some(n) => n == width * height * format.texel_bytes(),
            None => width * height * format.texel_bytes() > 0xffff_ffff_ffff_ffff,
        },
{
    let w = width as u64;
    let h = height as u64;
    assert(w * h <= 0xffff_ffff_ffff_ffff) by (nonlinear_arith)
        requires
            w <= 0xffff_ffff,
            h <= 0xffff_ffff,
    ;
    let pixels = w * h;
    let size = format.pixel_size();
    if size != 0 && pixels > 0xffff_ffff_ffff_ffffu64 / size {
        assert(pixels * size > 0xffff_ffff_ffff_ffff) by (nonlinear_arith)
            requires
                size > 0,
                pixels > 0xffff_ffff_ffff_ffffu64 / size,
        ;
        None
    } else {
        assert(pixels * size <= 0xffff_ffff_ffff_ffff) by (nonlinear_arith)
            requires
                size == 0 || pixels <= 0xffff_ffff_ffff_ffffu64 / size,
        ;
        Some(pixels * size)
    }
}

} // verus!
