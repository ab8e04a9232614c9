//! A validated compute graph: resource slots, resource extents and the
//! prerequisites of every dispatch.
use vstd::prelude::*;
use crate::definition::{ComputeGraphDefinition, ResourceDefinition, ResourceKind};
use crate::errors::{ComputeGraphError, GraphError};
use crate::hazards::{
    binds, hazard_chain, hazard_step, is_prerequisite_list, lemma_conflicting_uses_are_ordered,
    lemma_waits_only_on_conflicts,
    node_prerequisites, writes_to,
};
use crate::name_map::NameMap;
use crate::names::{count_before, lemma_index_is_rank};
use crate::validate::{
    check_nodes, check_resources, definition_error, extent_declared_by, lemma_validated_extent, first_error, node_errors, resource_check,
    resource_errors, InputProbe, ResourceShape, MAX_RESOURCES,
};

verus! {

/// A validated, data-driven compute graph.
#[derive(Debug)]
pub struct ComputeGraph {
    definition: ComputeGraphDefinition,
    base_dir: String,
    shapes: Vec<ResourceShape>,
    prerequisites: Vec<Vec<usize>>,
}

/// The extent matches the kind of the resource and is not empty.
pub open spec fn shape_fits(r: ResourceDefinition, shape: ResourceShape) -> bool {
    match shape {
        ResourceShape::Image { width, height, .. } => r.kind is Image && width > 0 && height > 0,
        ResourceShape::Buffer { size } => r.kind is Buffer && size > 0,
    }
}

impl ComputeGraph {
    /// The definition the graph was built from.
    pub closed spec fn graph_definition(&self) -> ComputeGraphDefinition {
        self.definition
    }

    /// The directory relative to which the graph's paths are resolved.
    pub closed spec fn base_directory(&self) -> Seq<char> {
        self.base_dir@
    }

    /// The extent of each resource, in name order.
    pub closed spec fn shapes(&self) -> Seq<ResourceShape> {
        self.shapes@
    }

    /// The prerequisites of each node.
    pub closed spec fn prerequisite_lists(&self) -> Seq<Seq<usize>> {
        self.prerequisites@.map_values(|list: Vec<usize>| list@)
    }

    /// What holds of every graph: its resources fit in the bindless slots,
    /// its nodes pass their checks, each resource has a fitting extent, and
    /// each node's prerequisites are exactly the nodes it must wait for.
    #[verifier::type_invariant]
    pub open spec fn consistent(&self) -> bool {
        let d = self.graph_definition();
        &&& d.resources.well_formed()
        &&& d.resources.keys().len() <= MAX_RESOURCES
        &&& first_error(node_errors(d.nodes@, d.resources@)) is None
        &&& self.shapes().len() == d.resources.keys().len()
        &&& forall|i: int|
            0 <= i < self.shapes().len() ==> shape_fits(
                d.resources.values()[i],
                #[trigger] self.shapes()[i],
            )
        &&& self.prerequisite_lists().len() == d.nodes@.len()
        &&& forall|i: int|
            0 <= i < d.nodes@.len() ==> is_prerequisite_list(
                d.nodes@,
                i,
                #[trigger] self.prerequisite_lists()[i],
            )
    }

    /// Validates a definition and computes the slots, extents and
    /// prerequisites of its resources and nodes. `inputs` holds what was found
    /// in the input file of each resource that declares one.
    pub fn from_definition_with_base(
        definition: ComputeGraphDefinition,
        base_dir: String,
        inputs: &NameMap<InputProbe>,
    ) -> (r: Result<ComputeGraph, ComputeGraphError>)
        ensures
            match r {
                Ok(g) => {
                    &&& definition_error(definition, inputs@) is None
                    &&& g.graph_definition() == definition
                    &&& g.base_directory() == base_dir@
                    &&& forall|i: int|
                        0 <= i < g.shapes().len() ==> resource_check(
                            definition.resources.keys()[i],
                            definition.resources.values()[i],
                            inputs@,
                        ) == Ok::<ResourceShape, GraphError<Seq<char>>>(#[trigger] g.shapes()[i])
                    &&& g.shapes().len() == definition.resources.keys().len()
                    &&& forall|i: int|
                        0 <= i < g.shapes().len() ==> extent_declared_by(
                            definition.resources.keys()[i],
                            definition.resources.values()[i],
                            inputs@,
                            #[trigger] g.shapes()[i],
                        )
                },
                Err(e) => definition_error(definition, inputs@) == Some(e@),
            },
    {
        proof {
            use_type_invariant(&definition.resources);
        }
        if definition.resources.len() > MAX_RESOURCES {
            return Err(GraphError::TooManyResources);
        }
        let shapes = check_resources(&definition.resources, inputs)?;
        check_nodes(&definition.nodes, &definition.resources)?;
        let n = definition.nodes.len();
        let mut prerequisites: Vec<Vec<usize>> = Vec::new();
        let mut i: usize = 0;
        while i < n
            invariant
                n == definition.nodes@.len(),
                i <= n,
                prerequisites@.len() == i,
                forall|j: int|
                    0 <= j < i ==> is_prerequisite_list(
                        definition.nodes@,
                        j,
                        #[trigger] prerequisites@[j]@,
                    ),
            decreases n - i,
        {
            prerequisites.push(node_prerequisites(&definition.nodes, i));
            i = i + 1;
        }
        proof {
            assert forall|j: int| 0 <= j < shapes@.len() implies shape_fits(
                definition.resources.values()[j],
                #[trigger] shapes@[j],
            ) by {
                assert(resource_check(
                    definition.resources.keys()[j],
                    definition.resources.values()[j],
                    inputs@,
                ) == Ok::<ResourceShape, GraphError<Seq<char>>>(shapes@[j]));
            }
        }
        proof {
            assert forall|j: int| 0 <= j < shapes@.len() implies extent_declared_by(
                definition.resources.keys()[j],
                definition.resources.values()[j],
                inputs@,
                #[trigger] shapes@[j],
            ) by {
                assert(resource_check(
                    definition.resources.keys()[j],
                    definition.resources.values()[j],
                    inputs@,
                ) == Ok::<ResourceShape, GraphError<Seq<char>>>(shapes@[j]));
                lemma_validated_extent(
                    definition.resources.keys()[j],
                    definition.resources.values()[j],
                    inputs@,
                );
            }
        }
        let g = ComputeGraph { definition, base_dir, shapes, prerequisites };
        proof {
            assert(g.prerequisite_lists().len() == n);
            assert forall|j: int| 0 <= j < n implies is_prerequisite_list(
                g.graph_definition().nodes@,
                j,
                #[trigger] g.prerequisite_lists()[j],
            ) by {
                assert(g.prerequisite_lists()[j] == g.prerequisites@[j]@);
            }
        }
        Ok(g)
    }

    /// The definition the graph was built from.
    pub fn definition(&self) -> (d: &ComputeGraphDefinition)
        ensures
            *d == self.graph_definition(),
    {
        &self.definition
    }

    /// The directory relative to which the graph's paths are resolved.
    pub fn base_dir(&self) -> (b: &String)
        ensures
            b@ == self.base_directory(),
    {
        &self.base_dir
    }

    /// The persistent bindless slot of a resource: its index in name order.
    pub fn resource_slot(&self, name: &str) -> (slot: Option<u32>)
        ensures
            match slot {
                Some(s) => s < self.graph_definition().resources.keys().len()
                    && self.graph_definition().resources.keys()[s as int] == name@,
                None => !self.graph_definition().resources.keys().contains(name@),
            },
    {
        proof {
            use_type_invariant(self);
        }
        match self.definition.resources.position(name) {
            Some(i) => Some(i as u32),
            None => None,
        }
    }

    /// The extent the named resource is created with.
    pub fn resource_shape(&self, name: &str) -> (shape: Option<ResourceShape>)
        ensures
            match shape {
                Some(s) => exists|i: int|
                    0 <= i < self.shapes().len() && self.graph_definition().resources.keys()[i]
                        == name@ && s == #[trigger] self.shapes()[i] && shape_fits(
                        self.graph_definition().resources.values()[i],
                        s,
                    ),
                None => !self.graph_definition().resources.keys().contains(name@),
            },
    {
        proof {
            use_type_invariant(self);
        }
        match self.definition.resources.position(name) {
            Some(i) => Some(self.shapes[i]),
            None => None,
        }
    }

    /// The nodes that must complete before node `node` is dispatched, in
    /// increasing order.
    pub fn dependencies(&self, node: usize) -> (deps: Option<&[usize]>)
        ensures
            match deps {
                Some(list) => {
                    &&& node < self.graph_definition().nodes@.len()
                    &&& list@ == self.prerequisite_lists()[node as int]
                    &&& is_prerequisite_list(self.graph_definition().nodes@, node as int, list@)
                },
                None => node >= self.graph_definition().nodes@.len(),
            },
    {
        proof {
            use_type_invariant(self);
        }
        if node < self.prerequisites.len() {
            Some(self.prerequisites[node].as_slice())
        } else {
            None
        }
    }
}


/// The bindless slot of a resource is its rank: the number of declared
/// resources whose names sort before its name.
pub proof fn lemma_slot_is_rank(g: ComputeGraph, slot: int)
    requires
        g.consistent(),
        0 <= slot < g.graph_definition().resources.keys().len(),
    ensures
        count_before(
            g.graph_definition().resources.keys(),
            g.graph_definition().resources.keys()[slot],
        ) == slot,
{
    lemma_index_is_rank(g.graph_definition().resources.keys(), slot);
}

/// Step `t` of the path is a dependency: node `path[t + 1]` lists `path[t]`
/// among its prerequisites.
pub open spec fn dependency_step(lists: Seq<Seq<usize>>, path: Seq<int>, t: int) -> bool {
    &&& 0 <= path[t] < path[t + 1] < lists.len()
    &&& lists[path[t + 1]].contains(path[t] as usize)
}

/// Each node of the path lists the one before it among its prerequisites.
pub open spec fn dependency_chain(lists: Seq<Seq<usize>>, path: Seq<int>) -> bool {
    &&& path.len() >= 2
    &&& forall|t: int| 0 <= t < path.len() - 1 ==> #[trigger] dependency_step(lists, path, t)
}

/// Conflicting uses of a resource are ordered by the graph: when two nodes
/// bind the same resource and at least one of them writes it, the later one
/// is reached from the earlier one through the nodes' prerequisites.
pub proof fn lemma_graph_orders_conflicting_uses(g: ComputeGraph, j: int, i: int, resource: Seq<char>)
    requires
        g.consistent(),
        0 <= j < i < g.graph_definition().nodes@.len(),
        binds(g.graph_definition().nodes@[j], resource),
        binds(g.graph_definition().nodes@[i], resource),
        writes_to(g.graph_definition().nodes@[j], resource) || writes_to(
            g.graph_definition().nodes@[i],
            resource,
        ),
    ensures
        exists|path: Seq<int>|
            path[0] == j && path.last() == i && #[trigger] dependency_chain(
                g.prerequisite_lists(),
                path,
            ),
{
    let nodes = g.graph_definition().nodes@;
    lemma_conflicting_uses_are_ordered(nodes, j, i, resource);
    let path = choose|path: Seq<int>| path[0] == j && path.last() == i && #[trigger] hazard_chain(nodes, path);
    assert forall|t: int| 0 <= t < path.len() - 1 implies #[trigger] dependency_step(
        g.prerequisite_lists(),
        path,
        t,
    ) by {
        assert(hazard_step(nodes, path, t));
        assert(is_prerequisite_list(nodes, path[t + 1], g.prerequisite_lists()[path[t + 1]]));
    }
    assert(dependency_chain(g.prerequisite_lists(), path));
}

/// Every prerequisite listed for a node conflicts with it: the two nodes
/// bind a common resource, one of them writes it, and no node in between
/// binds it for writing. Nodes that only read a resource never wait for one
/// another on its account.
pub proof fn lemma_graph_waits_only_on_conflicts(g: ComputeGraph, i: int, x: int)
    requires
        g.consistent(),
        0 <= i < g.graph_definition().nodes@.len(),
        0 <= x < g.prerequisite_lists()[i].len(),
    ensures
        ({
            let nodes = g.graph_definition().nodes@;
            let j = g.prerequisite_lists()[i][x] as int;
            &&& 0 <= j < i
            &&& exists|a: int, b: int|
                #![trigger nodes[i].bindings@[a], nodes[j].bindings@[b]]
                0 <= a < nodes[i].bindings@.len() && 0 <= b < nodes[j].bindings@.len()
                    && nodes[j].bindings@[b].resource@ == nodes[i].bindings@[a].resource@ && (
                nodes[i].bindings@[a].access is Write || nodes[i].bindings@[a].access is ReadWrite
                    || nodes[j].bindings@[b].access is Write || nodes[j].bindings@[b].access
                    is ReadWrite) && forall|k: int, c: int|
                    j < k < i && 0 <= c < nodes[k].bindings@.len() && (
                    #[trigger] nodes[k].bindings@[c]).resource@ == nodes[i].bindings@[a].resource@
                        ==> nodes[k].bindings@[c].access is Read
        }),
{
    let nodes = g.graph_definition().nodes@;
    assert(is_prerequisite_list(nodes, i, g.prerequisite_lists()[i]));
    lemma_waits_only_on_conflicts(nodes, g.prerequisite_lists()[i][x] as int, i);
}

} // verus!
