//! Resource hazards between dispatches and the prerequisites they induce.
//!
//! A node depends on an earlier node when both bind a resource, at least one
//! of them writes it, and no node in between writes it: read after write,
//! write after write and write after read.
use vstd::prelude::*;
use crate::definition::ComputeNodeDefinition;
use crate::names::same_name;

verus! {

/// The node binds the resource.
pub open spec fn binds(node: ComputeNodeDefinition, resource: Seq<char>) -> bool {
    exists|c: int| 0 <= c < node.bindings@.len() && #[trigger] node.bindings@[c].resource@ == resource
}

/// The node binds the resource with an access that writes it.
pub open spec fn writes_to(node: ComputeNodeDefinition, resource: Seq<char>) -> bool {
    exists|c: int|
        0 <= c < node.bindings@.len() && #[trigger] node.bindings@[c].resource@ == resource
            && node.bindings@[c].access.is_write()
}

/// Some node strictly between `j` and `i` writes the resource.
pub open spec fn written_between(
    nodes: Seq<ComputeNodeDefinition>,
    j: int,
    i: int,
    resource: Seq<char>,
) -> bool {
    exists|k: int| j < k < i && #[trigger] writes_to(nodes[k], resource)
}

/// Binding `a` of node `i` conflicts with node `j`: node `j` binds the same
/// resource, one of the two writes it, and no node in between writes it.
pub open spec fn conflict(nodes: Seq<ComputeNodeDefinition>, j: int, i: int, a: int) -> bool {
    let b = nodes[i].bindings@[a];
    &&& binds(nodes[j], b.resource@)
    &&& (b.access.is_write() || writes_to(nodes[j], b.resource@))
    &&& !written_between(nodes, j, i, b.resource@)
}

/// Node `i` must wait for node `j`.
pub open spec fn hazard(nodes: Seq<ComputeNodeDefinition>, j: int, i: int) -> bool {
    &&& 0 <= j < i < nodes.len()
    &&& exists|a: int| 0 <= a < nodes[i].bindings@.len() && #[trigger] conflict(nodes, j, i, a)
}

/// `list` enumerates, in increasing order, exactly the nodes that node `i`
/// must wait for.
pub open spec fn is_prerequisite_list(
    nodes: Seq<ComputeNodeDefinition>,
    i: int,
    list: Seq<usize>,
) -> bool {
    &&& forall|x: int, y: int| 0 <= x < y < list.len() ==> list[x] < list[y]
    &&& forall|x: int| 0 <= x < list.len() ==> list[x] < i && hazard(nodes, list[x] as int, i)
    &&& forall|j: int| 0 <= j < i && hazard(nodes, j, i) ==> list.contains(j as usize)
}

/// Whether the node binds the resource, and whether it writes it.
fn binding_usage(node: &ComputeNodeDefinition, resource: &String) -> (r: (bool, bool))
    ensures
        r.0 == binds(*node, resource@),
        r.1 == writes_to(*node, resource@),
{
    let mut bound = false;
    let mut wrote = false;
    let n = node.bindings.len();
    let mut c: usize = 0;
    while c < n
        invariant
            n == node.bindings@.len(),
            c <= n,
            bound == exists|c2: int|
                0 <= c2 < c && #[trigger] node.bindings@[c2].resource@ == resource@,
            wrote == exists|c2: int|
                0 <= c2 < c && #[trigger] node.bindings@[c2].resource@ == resource@
                    && node.bindings@[c2].access.is_write(),
        decreases n - c,
    {
        if same_name(node.bindings[c].resource.as_str(), resource.as_str()) {
            bound = true;
            if node.bindings[c].access.writes() {
                wrote = true;
            }
        }
        proof {
            assert(node.bindings@[c as int].resource@ == node.bindings@[c as int].resource@);
        }
        c = c + 1;
    }
    (bound, wrote)
}

/// The nodes that node `i` must wait for, in increasing order.
pub fn node_prerequisites(nodes: &Vec<ComputeNodeDefinition>, i: usize) -> (list: Vec<usize>)
    requires
        i < nodes@.len(),
    ensures
        is_prerequisite_list(nodes@, i as int, list@),
{
    let mut marks: Vec<bool> = Vec::new();
    let mut j: usize = 0;
    while j < i
        invariant
            j <= i,
            marks@.len() == j,
            forall|x: int| 0 <= x < j ==> !marks@[x],
        decreases i - j,
    {
        marks.push(false);
        j = j + 1;
    }
    let node = &nodes[i];
    let nb = node.bindings.len();
    let mut a: usize = 0;
    while a < nb
        invariant
            i < nodes@.len(),
            *node == nodes@[i as int],
            nb == node.bindings@.len(),
            a <= nb,
            marks@.len() == i,
            forall|x: int|
                0 <= x < i ==> marks@[x] == (exists|a2: int|
                    0 <= a2 < a && #[trigger] conflict(nodes@, x, i as int, a2)),
        decreases nb - a,
    {
        let resource = &node.bindings[a].resource;
        let w = node.bindings[a].access.writes();
        let ghost before = marks@;
        let mut k: usize = i;
        let mut stop = false;
        while k > 0 && !stop
            invariant
                i < nodes@.len(),
                *node == nodes@[i as int],
                a < nb,
                nb == node.bindings@.len(),
                *resource == node.bindings@[a as int].resource,
                w == node.bindings@[a as int].access.is_write(),
                k <= i,
                marks@.len() == i,
                before.len() == i,
                !stop ==> forall|k2: int| k <= k2 < i ==> !#[trigger] writes_to(nodes@[k2], resource@),
                stop ==> k < i && writes_to(nodes@[k as int], resource@),
                stop ==> forall|k2: int| k < k2 < i ==> !#[trigger] writes_to(nodes@[k2], resource@),
                forall|x: int| 0 <= x < k ==> marks@[x] == before[x],
                forall|x: int|
                    k <= x < i ==> marks@[x] == (before[x] || conflict(nodes@, x, i as int, a as int)),
            decreases k,
        {
            k = k - 1;
            let (bound, wrote) = binding_usage(&nodes[k], resource);
            proof {
                assert(!written_between(nodes@, k as int, i as int, resource@));
                assert(conflict(nodes@, k as int, i as int, a as int) == (bound && (w || wrote)));
            }
            if bound && (w || wrote) {
                marks.set(k, true);
            }
            if wrote {
                stop = true;
            }
        }
        proof {
            assert forall|x: int| 0 <= x < k implies !conflict(nodes@, x, i as int, a as int) by {
                if stop {
                    assert(written_between(nodes@, x, i as int, resource@));
                }
            }
            assert forall|x: int| 0 <= x < i implies marks@[x] == (exists|a2: int|
                0 <= a2 < a + 1 && #[trigger] conflict(nodes@, x, i as int, a2)) by {
                if x < k {
                    assert(!conflict(nodes@, x, i as int, a as int));
                    assert(marks@[x] == before[x]);
                } else {
                    assert(marks@[x] == (before[x] || conflict(nodes@, x, i as int, a as int)));
                }
                if exists|a2: int| 0 <= a2 < a + 1 && #[trigger] conflict(nodes@, x, i as int, a2) {
                    let a2 = choose|a2: int| 0 <= a2 < a + 1 && #[trigger] conflict(nodes@, x, i as int, a2);
                    if a2 < a {
                        assert(before[x]);
                    }
                }
                if marks@[x] && !conflict(nodes@, x, i as int, a as int) {
                    assert(before[x]);
                }
            }
        }
        a = a + 1;
    }
    let mut list: Vec<usize> = Vec::new();
    let mut j: usize = 0;
    while j < i
        invariant
            i < nodes@.len(),
            j <= i,
            marks@.len() == i,
            forall|x: int|
                0 <= x < i ==> marks@[x] == (exists|a2: int|
                    0 <= a2 < nodes@[i as int].bindings@.len() && #[trigger] conflict(
                        nodes@,
                        x,
                        i as int,
                        a2,
                    )),
            forall|x: int, y: int| 0 <= x < y < list@.len() ==> list@[x] < list@[y],
            forall|x: int| 0 <= x < list@.len() ==> list@[x] < j && marks@[list@[x] as int],
            forall|y: int| 0 <= y < j && marks@[y] ==> list@.contains(y as usize),
        decreases i - j,
    {
        if marks[j] {
            let ghost old_list = list@;
            list.push(j);
            proof {
                assert(list@[list@.len() - 1] == j);
                assert forall|y: int| 0 <= y < j + 1 && marks@[y] implies list@.contains(y as usize) by {
                    if y == j {
                        assert(list@[list@.len() - 1] == j);
                    } else {
                        assert(old_list.contains(y as usize));
                        let idx = choose|idx: int| 0 <= idx < old_list.len() && old_list[idx] == y as usize;
                        assert(list@[idx] == y as usize);
                    }
                }
            }
        }
        j = j + 1;
    }
    proof {
        assert forall|x: int| 0 <= x < list@.len() implies list@[x] < i && hazard(
            nodes@,
            list@[x] as int,
            i as int,
        ) by {
            assert(marks@[list@[x] as int]);
        }
        assert forall|y: int| 0 <= y < i && hazard(nodes@, y, i as int) implies list@.contains(
            y as usize,
        ) by {
            let a2 = choose|a2: int|
                0 <= a2 < nodes@[i as int].bindings@.len() && #[trigger] conflict(
                    nodes@,
                    y,
                    i as int,
                    a2,
                );
            assert(marks@[y]);
        }
    }
    list
}


/// Step `t` of the path is a hazard: node `path[t + 1]` waits for `path[t]`.
pub open spec fn hazard_step(nodes: Seq<ComputeNodeDefinition>, path: Seq<int>, t: int) -> bool {
    hazard(nodes, path[t], path[t + 1])
}

/// Each node of the path waits for the one before it.
pub open spec fn hazard_chain(nodes: Seq<ComputeNodeDefinition>, path: Seq<int>) -> bool {
    &&& path.len() >= 2
    &&& forall|t: int| 0 <= t < path.len() - 1 ==> #[trigger] hazard_step(nodes, path, t)
}

/// A writer of the resource strictly between `j` and `i` after which no
/// other node before `i` writes it.
proof fn lemma_last_writer(
    nodes: Seq<ComputeNodeDefinition>,
    j: int,
    i: int,
    resource: Seq<char>,
    k0: int,
) -> (k: int)
    requires
        j < k0 < i,
        writes_to(nodes[k0], resource),
    ensures
        j < k < i,
        writes_to(nodes[k], resource),
        !written_between(nodes, k, i, resource),
    decreases i - k0,
{
    if written_between(nodes, k0, i, resource) {
        let k1 = choose|k1: int| k0 < k1 < i && #[trigger] writes_to(nodes[k1], resource);
        lemma_last_writer(nodes, j, i, resource, k1)
    } else {
        k0
    }
}

/// If node `i` binds a resource that node `j` binds, and one of them writes
/// it, then node `i` waits for node `j`, unless some node in between writes
/// the resource.
proof fn lemma_direct_hazard(nodes: Seq<ComputeNodeDefinition>, j: int, i: int, resource: Seq<char>)
    requires
        0 <= j < i < nodes.len(),
        binds(nodes[j], resource),
        binds(nodes[i], resource),
        writes_to(nodes[j], resource) || writes_to(nodes[i], resource),
        !written_between(nodes, j, i, resource),
    ensures
        hazard(nodes, j, i),
{
    if writes_to(nodes[i], resource) {
        let a = choose|c: int|
            0 <= c < nodes[i].bindings@.len() && #[trigger] nodes[i].bindings@[c].resource@ == resource
                && nodes[i].bindings@[c].access.is_write();
        assert(conflict(nodes, j, i, a));
    } else {
        let a = choose|c: int|
            0 <= c < nodes[i].bindings@.len() && #[trigger] nodes[i].bindings@[c].resource@ == resource;
        assert(conflict(nodes, j, i, a));
    }
}

/// Conflicting uses of a resource are ordered: when two nodes bind the same
/// resource and at least one of them writes it, the later one waits, through
/// a chain of prerequisites, for the earlier one.
pub proof fn lemma_conflicting_uses_are_ordered(
    nodes: Seq<ComputeNodeDefinition>,
    j: int,
    i: int,
    resource: Seq<char>,
)
    requires
        0 <= j < i < nodes.len(),
        binds(nodes[j], resource),
        binds(nodes[i], resource),
        writes_to(nodes[j], resource) || writes_to(nodes[i], resource),
    ensures
        exists|path: Seq<int>| path[0] == j && path.last() == i && #[trigger] hazard_chain(nodes, path),
    decreases i - j,
{
    if !written_between(nodes, j, i, resource) {
        lemma_direct_hazard(nodes, j, i, resource);
        let path = seq![j, i];
        assert(hazard_step(nodes, path, 0));
        assert(hazard_chain(nodes, path));
    } else {
        let k0 = choose|k: int| j < k < i && #[trigger] writes_to(nodes[k], resource);
        let k = lemma_last_writer(nodes, j, i, resource, k0);
        assert(binds(nodes[k], resource));
        lemma_direct_hazard(nodes, k, i, resource);
        lemma_conflicting_uses_are_ordered(nodes, j, k, resource);
        let prefix = choose|path: Seq<int>|
            path[0] == j && path.last() == k && #[trigger] hazard_chain(nodes, path);
        let path = prefix.push(i);
        assert forall|t: int| 0 <= t < path.len() - 1 implies #[trigger] hazard_step(nodes, path, t) by {
            if t < prefix.len() - 1 {
                assert(hazard_step(nodes, prefix, t));
            }
        }
        assert(hazard_chain(nodes, path));
    }
}

/// A node waits only for a node it conflicts with: some binding of the
/// waiting node names a resource that the earlier node also binds, one of
/// the two bindings writes it, and no node in between binds it for writing.
pub proof fn lemma_waits_only_on_conflicts(nodes: Seq<ComputeNodeDefinition>, j: int, i: int)
    requires
        hazard(nodes, j, i),
    ensures
        0 <= j < i < nodes.len(),
        exists|a: int, b: int|
            #![trigger nodes[i].bindings@[a], nodes[j].bindings@[b]]
            0 <= a < nodes[i].bindings@.len() && 0 <= b < nodes[j].bindings@.len()
                && nodes[j].bindings@[b].resource@ == nodes[i].bindings@[a].resource@ && (
            nodes[i].bindings@[a].access is Write || nodes[i].bindings@[a].access is ReadWrite
                || nodes[j].bindings@[b].access is Write || nodes[j].bindings@[b].access
                is ReadWrite) && forall|k: int, c: int|
                j < k < i && 0 <= c < nodes[k].bindings@.len() && (#[trigger] nodes[k].bindings@[c]).resource@
                    == nodes[i].bindings@[a].resource@ ==> nodes[k].bindings@[c].access is Read,
{
    let a = choose|a: int| 0 <= a < nodes[i].bindings@.len() && #[trigger] conflict(nodes, j, i, a);
    let r = nodes[i].bindings@[a].resource@;
    let b = if nodes[i].bindings@[a].access.is_write() {
        choose|c: int| 0 <= c < nodes[j].bindings@.len() && #[trigger] nodes[j].bindings@[c].resource@ == r
    } else {
        choose|c: int|
            0 <= c < nodes[j].bindings@.len() && #[trigger] nodes[j].bindings@[c].resource@ == r
                && nodes[j].bindings@[c].access.is_write()
    };
    assert forall|k: int, c: int|
        j < k < i && 0 <= c < nodes[k].bindings@.len() && (#[trigger] nodes[k].bindings@[c]).resource@
            == r implies nodes[k].bindings@[c].access is Read by {
        if !(nodes[k].bindings@[c].access is Read) {
            assert(nodes[k].bindings@[c].resource@ == r);
            assert(writes_to(nodes[k], r));
            assert(written_between(nodes, j, i, r));
        }
    }
    assert(nodes[i].bindings@[a] == nodes[i].bindings@[a]);
    assert(nodes[j].bindings@[b] == nodes[j].bindings@[b]);
}

} // verus!
