//! The checks a graph definition must pass, in the order in which they are
//! made, and the extent each resource ends up with.
use vstd::prelude::*;
use crate::definition::{ComputeGraphDefinition, ComputeNodeDefinition, ResourceDefinition, ResourceKind};
use crate::errors::{ComputeGraphError, GraphError};
use crate::format::ImageFormat;
use crate::name_map::{lemma_map_of_at, NameMap};
use crate::names::same_name;
use crate::text::{has_png_extension, is_png_path};

verus! {

/// Resources beyond this count have no bindless slot.
pub const MAX_RESOURCES: usize = 64;

/// Bindings per node that fit in the dispatch's slot table.
pub const RESOURCE_TABLE_CAPACITY: usize = 30;

/// What was found when the input file of a resource was read.
#[derive(Clone, Debug)]
pub enum InputProbe {
    /// The file decoded as an image of this size.
    Image { width: u32, height: u32 },
    /// The file holds this many bytes.
    File { length: u64 },
    /// The file could not be read; the reason.
    Failed { message: String },
}

/// The extent a validated resource is created with.
#[derive(Clone, Copy, Debug, PartialEq, Eq, Structural)]
pub enum ResourceShape {
    Image { width: u32, height: u32, format: ImageFormat },
    Buffer { size: u64 },
}

/// The first error of a sequence of check outcomes.
pub open spec fn first_error<E>(errors: Seq<Option<E>>) -> Option<E>
    decreases errors.len(),
{
    if errors.len() == 0 {
        None
    } else if errors[0] is Some {
        errors[0]
    } else {
        first_error(errors.drop_first())
    }
}

pub proof fn lemma_first_error_none<E>(errors: Seq<Option<E>>)
    requires
        forall|i: int| 0 <= i < errors.len() ==> errors[i] is None,
    ensures
        first_error(errors) is None,
    decreases errors.len(),
{
    if errors.len() > 0 {
        lemma_first_error_none(errors.drop_first());
    }
}

/// When a sequence of outcomes has no first error, it has no error at all.
pub proof fn lemma_no_first_error<E>(errors: Seq<Option<E>>)
    requires
        first_error(errors) is None,
    ensures
        forall|i: int| 0 <= i < errors.len() ==> errors[i] is None,
    decreases errors.len(),
{
    if errors.len() > 0 {
        lemma_no_first_error(errors.drop_first());
        assert forall|i: int| 0 <= i < errors.len() implies errors[i] is None by {
            if i > 0 {
                assert(errors[i] == errors.drop_first()[i - 1]);
            }
        }
    }
}

pub proof fn lemma_first_error_at<E>(errors: Seq<Option<E>>, i: int)
    requires
        0 <= i < errors.len(),
        errors[i] is Some,
        forall|j: int| 0 <= j < i ==> errors[j] is None,
    ensures
        first_error(errors) == errors[i],
    decreases i,
{
    if i > 0 {
        lemma_first_error_at(errors.drop_first(), i - 1);
    }
}

/// An error outcome as an optional error.
pub open spec fn error_of<T>(r: Result<T, GraphError<Seq<char>>>) -> Option<GraphError<Seq<char>>> {
    match r {
        Ok(_) => None,
        Err(e) => Some(e),
    }
}

/// The image declares its own width, height or extent.
pub open spec fn declares_dimensions(r: ResourceDefinition) -> bool {
    r.width is Some || r.height is Some || r.extent is Some
}

/// The dimensions taken from the input of an image resource, if it has one.
pub open spec fn input_dimensions(
    name: Seq<char>,
    r: ResourceDefinition,
    probes: Map<Seq<char>, InputProbe>,
) -> Result<Option<(u32, u32)>, GraphError<Seq<char>>> {
    match r.input {
        None => Ok(None),
        Some(input) => if !probes.contains_key(name) {
            Err(GraphError::InputNotInspected { resource: name })
        } else {
            match probes[name] {
                InputProbe::Image { width, height } => if width == 0 || height == 0 {
                    Err(GraphError::ImageInputZeroDimensions { resource: name, input: input@ })
                } else {
                    Ok(Some((width, height)))
                },
                InputProbe::File { .. } => Err(GraphError::InputNotInspected { resource: name }),
                InputProbe::Failed { message } => Err(
                    GraphError::ImageInputUnreadable { resource: name, message: message@ },
                ),
            }
        },
    }
}

/// Width of an image: `width`, else `extent[0]`, else the input's width, else 0.
pub open spec fn image_width(r: ResourceDefinition, input: Option<(u32, u32)>) -> u32 {
    match r.width {
        Some(w) => w,
        None => match r.extent {
            Some(e) => e@[0],
            None => match input {
                Some(d) => d.0,
                None => 0,
            },
        },
    }
}

/// Height of an image: `height`, else `extent[1]`, else the input's height, else 0.
pub open spec fn image_height(r: ResourceDefinition, input: Option<(u32, u32)>) -> u32 {
    match r.height {
        Some(h) => h,
        None => match r.extent {
            Some(e) => e@[1],
            None => match input {
                Some(d) => d.1,
                None => 0,
            },
        },
    }
}

/// The format of an image: the declared one, else `r8g8b8a8_unorm`.
pub open spec fn image_format(r: ResourceDefinition) -> ImageFormat {
    match r.format {
        Some(f) => f,
        None => ImageFormat::R8G8B8A8Unorm,
    }
}

/// The outcome of the checks on an image resource.
pub open spec fn image_check(
    name: Seq<char>,
    r: ResourceDefinition,
    probes: Map<Seq<char>, InputProbe>,
) -> Result<ResourceShape, GraphError<Seq<char>>> {
    if r.input is Some && declares_dimensions(r) {
        Err(GraphError::ImageInputWithDimensions { resource: name })
    } else if r.input is Some && r.format is None {
        Err(GraphError::ImageInputWithoutFormat { resource: name })
    } else {
        match input_dimensions(name, r, probes) {
            Err(e) => Err(e),
            Ok(input) => {
                let width = image_width(r, input);
                let height = image_height(r, input);
                if width == 0 || height == 0 {
                    Err(GraphError::ZeroImageExtent { resource: name })
                } else {
                    match r.output {
                        Some(output) => if !has_png_extension(output@) {
                            Err(GraphError::ImageOutputNotPng { resource: name, output: output@ })
                        } else {
                            Ok(ResourceShape::Image { width, height, format: image_format(r) })
                        },
                        None => Ok(ResourceShape::Image { width, height, format: image_format(r) }),
                    }
                }
            },
        }
    }
}

/// The size of a buffer: the input's length when it has an input, else
/// `size`, else 0.
pub open spec fn buffer_length(
    name: Seq<char>,
    r: ResourceDefinition,
    probes: Map<Seq<char>, InputProbe>,
) -> Result<u64, GraphError<Seq<char>>> {
    match r.input {
        None => Ok(
            match r.size {
                Some(s) => s,
                None => 0,
            },
        ),
        Some(_) => if !probes.contains_key(name) {
            Err(GraphError::InputNotInspected { resource: name })
        } else {
            match probes[name] {
                InputProbe::File { length } => Ok(length),
                InputProbe::Image { .. } => Err(GraphError::InputNotInspected { resource: name }),
                InputProbe::Failed { message } => Err(
                    GraphError::BufferInputUnreadable { resource: name, message: message@ },
                ),
            }
        },
    }
}

/// The outcome of the checks on a buffer resource.
pub open spec fn buffer_check(
    name: Seq<char>,
    r: ResourceDefinition,
    probes: Map<Seq<char>, InputProbe>,
) -> Result<ResourceShape, GraphError<Seq<char>>> {
    if r.input is Some && r.size is Some {
        Err(GraphError::BufferInputWithSize { resource: name })
    } else {
        match buffer_length(name, r, probes) {
            Err(e) => Err(e),
            Ok(size) => if size == 0 {
                Err(GraphError::ZeroBufferSize { resource: name })
            } else {
                Ok(ResourceShape::Buffer { size })
            },
        }
    }
}

/// The outcome of the checks on one resource.
pub open spec fn resource_check(
    name: Seq<char>,
    r: ResourceDefinition,
    probes: Map<Seq<char>, InputProbe>,
) -> Result<ResourceShape, GraphError<Seq<char>>> {
    match r.kind {
        ResourceKind::Image => image_check(name, r, probes),
        ResourceKind::Buffer => buffer_check(name, r, probes),
    }
}

/// What the extent of a validated resource is, field by field: an image is
/// as wide as its declared `width`, else `extent[0]`, else its input image,
/// and as high as its declared `height`, else `extent[1]`, else its input
/// image; its format is the declared one, else `r8g8b8a8_unorm`. A buffer is
/// as large as its declared `size`, or as its input file.
pub open spec fn extent_declared_by(
    name: Seq<char>,
    r: ResourceDefinition,
    probes: Map<Seq<char>, InputProbe>,
    shape: ResourceShape,
) -> bool {
    match shape {
        ResourceShape::Image { width, height, format } => {
            &&& r.kind is Image
            &&& width > 0 && height > 0
            &&& (r.width matches Some(w) ==> width == w)
            &&& (r.width is None && r.extent is Some ==> width == r.extent->Some_0@[0])
            &&& (r.height matches Some(h) ==> height == h)
            &&& (r.height is None && r.extent is Some ==> height == r.extent->Some_0@[1])
            &&& (r.input is Some ==> probes.contains_key(name) && probes[name] == (InputProbe::Image {
                width,
                height,
            }))
            &&& (r.format matches Some(f) ==> format == f)
            &&& (r.format is None ==> format == ImageFormat::R8G8B8A8Unorm)
        },
        ResourceShape::Buffer { size } => {
            &&& r.kind is Buffer
            &&& size > 0
            &&& (r.input is None ==> r.size == Some(size))
            &&& (r.input is Some ==> probes.contains_key(name) && probes[name] == (InputProbe::File {
                length: size,
            }))
        },
    }
}

/// A resource that passes its checks gets the extent its declaration gives.
pub proof fn lemma_validated_extent(
    name: Seq<char>,
    r: ResourceDefinition,
    probes: Map<Seq<char>, InputProbe>,
)
    requires
        resource_check(name, r, probes) is Ok,
    ensures
        extent_declared_by(name, r, probes, resource_check(name, r, probes)->Ok_0),
{
}

/// The outcome of checking the resources in name order.
pub open spec fn resource_errors(
    resources: NameMap<ResourceDefinition>,
    probes: Map<Seq<char>, InputProbe>,
) -> Seq<Option<GraphError<Seq<char>>>> {
    Seq::new(
        resources.keys().len(),
        |i: int| error_of(resource_check(resources.keys()[i], resources.values()[i], probes)),
    )
}

/// The check of one binding of a node.
pub open spec fn binding_error(
    node: ComputeNodeDefinition,
    k: int,
    resources: Map<Seq<char>, ResourceDefinition>,
) -> Option<GraphError<Seq<char>>> {
    let resource = node.bindings@[k].resource@;
    if !resources.contains_key(resource) {
        Some(GraphError::UndeclaredResource { node: node.name@, resource })
    } else if exists|k2: int| 0 <= k2 < k && node.bindings@[k2].resource@ == resource {
        Some(GraphError::DuplicateBinding { node: node.name@, resource })
    } else {
        None
    }
}

/// The checks of a node's bindings, in order.
pub open spec fn binding_errors(
    node: ComputeNodeDefinition,
    resources: Map<Seq<char>, ResourceDefinition>,
) -> Seq<Option<GraphError<Seq<char>>>> {
    Seq::new(node.bindings@.len(), |k: int| binding_error(node, k, resources))
}

/// The check of the node at `index`.
pub open spec fn node_error(
    index: int,
    node: ComputeNodeDefinition,
    resources: Map<Seq<char>, ResourceDefinition>,
) -> Option<GraphError<Seq<char>>> {
    if node.name@.len() == 0 {
        Some(GraphError::EmptyNodeName { node: index as usize })
    } else if node.kernel@.len() == 0 {
        Some(GraphError::EmptyKernel { node: node.name@ })
    } else if node.dispatch@[0] == 0 || node.dispatch@[1] == 0 || node.dispatch@[2] == 0 {
        Some(GraphError::ZeroDispatch { node: node.name@ })
    } else if first_error(binding_errors(node, resources)) is Some {
        first_error(binding_errors(node, resources))
    } else if node.bindings@.len() > RESOURCE_TABLE_CAPACITY {
        Some(GraphError::TooManyBindings { node: node.name@ })
    } else {
        None
    }
}

/// The checks of the nodes, in order.
pub open spec fn node_errors(
    nodes: Seq<ComputeNodeDefinition>,
    resources: Map<Seq<char>, ResourceDefinition>,
) -> Seq<Option<GraphError<Seq<char>>>> {
    Seq::new(nodes.len(), |i: int| node_error(i, nodes[i], resources))
}

/// The first error of a graph definition, given what its inputs hold.
pub open spec fn definition_error(
    d: ComputeGraphDefinition,
    probes: Map<Seq<char>, InputProbe>,
) -> Option<GraphError<Seq<char>>> {
    if d.resources.keys().len() > MAX_RESOURCES {
        Some(GraphError::TooManyResources)
    } else if first_error(resource_errors(d.resources, probes)) is Some {
        first_error(resource_errors(d.resources, probes))
    } else {
        first_error(node_errors(d.nodes@, d.resources@))
    }
}

/// Looks up the probe of the resource's input.
fn probe_of<'a>(name: &String, probes: &'a NameMap<InputProbe>) -> (r: Option<&'a InputProbe>)
    ensures
        match r {
            Some(p) => probes@.contains_key(name@) && *p == probes@[name@],
            None => !probes@.contains_key(name@),
        },
{
    probes.get(name.as_str())
}

/// Checks an image resource and computes its extent.
pub fn check_image(name: &String, r: &ResourceDefinition, probes: &NameMap<InputProbe>) -> (res:
    Result<ResourceShape, ComputeGraphError>)
    requires
        r.kind is Image,
    ensures
        match res {
            Ok(s) => image_check(name@, *r, probes@) == Ok::<ResourceShape, GraphError<Seq<char>>>(
                s,
            ),
            Err(e) => image_check(name@, *r, probes@) == Err::<ResourceShape, GraphError<Seq<char>>>(
                e@,
            ),
        },
{
    let declares = r.width.is_some() || r.height.is_some() || r.extent.is_some();
    if r.input.is_some() && declares {
        return Err(GraphError::ImageInputWithDimensions { resource: name.clone() });
    }
    if r.input.is_some() && r.format.is_none() {
        return Err(GraphError::ImageInputWithoutFormat { resource: name.clone() });
    }
    let input: Option<(u32, u32)> = match &r.input {
        None => None,
        Some(path) => match probe_of(name, probes) {
            None => {
                return Err(GraphError::InputNotInspected { resource: name.clone() });
            },
            Some(InputProbe::Image { width, height }) => {
                if *width == 0 || *height == 0 {
                    return Err(
                        GraphError::ImageInputZeroDimensions {
                            resource: name.clone(),
                            input: path.clone(),
                        },
                    );
                }
                Some((*width, *height))
            },
            Some(InputProbe::File { .. }) => {
                return Err(GraphError::InputNotInspected { resource: name.clone() });
            },
            Some(InputProbe::Failed { message }) => {
                return Err(
                    GraphError::ImageInputUnreadable { resource: name.clone(), message: message.clone() },
                );
            },
        },
    };
    assert(input_dimensions(name@, *r, probes@) == Ok::<
        Option<(u32, u32)>,
        GraphError<Seq<char>>,
    >(input));
    let width = match r.width {
        Some(w) => w,
        None => match r.extent {
            Some(e) => e[0],
            None => match input {
                Some(d) => d.0,
                None => 0,
            },
        },
    };
    let height = match r.height {
        Some(h) => h,
        None => match r.extent {
            Some(e) => e[1],
            None => match input {
                Some(d) => d.1,
                None => 0,
            },
        },
    };
    assert(width == image_width(*r, input));
    assert(height == image_height(*r, input));
    if width == 0 || height == 0 {
        return Err(GraphError::ZeroImageExtent { resource: name.clone() });
    }
    if let Some(output) = &r.output {
        if !is_png_path(output.as_str()) {
            return Err(GraphError::ImageOutputNotPng { resource: name.clone(), output: output.clone() });
        }
    }
    let format = match r.format {
        Some(f) => f,
        None => ImageFormat::R8G8B8A8Unorm,
    };
    Ok(ResourceShape::Image { width, height, format })
}

/// Checks a buffer resource and computes its size.
pub fn check_buffer(name: &String, r: &ResourceDefinition, probes: &NameMap<InputProbe>) -> (res:
    Result<ResourceShape, ComputeGraphError>)
    requires
        r.kind is Buffer,
    ensures
        match res {
            Ok(s) => buffer_check(name@, *r, probes@) == Ok::<ResourceShape, GraphError<Seq<char>>>(
                s,
            ),
            Err(e) => buffer_check(name@, *r, probes@) == Err::<ResourceShape, GraphError<Seq<char>>>(
                e@,
            ),
        },
{
    if r.input.is_some() && r.size.is_some() {
        return Err(GraphError::BufferInputWithSize { resource: name.clone() });
    }
    let size: u64 = match &r.input {
        None => match r.size {
            Some(s) => s,
            None => 0,
        },
        Some(_) => match probe_of(name, probes) {
            None => {
                return Err(GraphError::InputNotInspected { resource: name.clone() });
            },
            Some(InputProbe::File { length }) => *length,
            Some(InputProbe::Image { .. }) => {
                return Err(GraphError::InputNotInspected { resource: name.clone() });
            },
            Some(InputProbe::Failed { message }) => {
                return Err(
                    GraphError::BufferInputUnreadable { resource: name.clone(), message: message.clone() },
                );
            },
        },
    };
    if size == 0 {
        return Err(GraphError::ZeroBufferSize { resource: name.clone() });
    }
    Ok(ResourceShape::Buffer { size })
}

/// Checks one resource and computes its extent.
pub fn check_resource(name: &String, r: &ResourceDefinition, probes: &NameMap<InputProbe>) -> (res:
    Result<ResourceShape, ComputeGraphError>)
    ensures
        match res {
            Ok(s) => resource_check(name@, *r, probes@) == Ok::<
                ResourceShape,
                GraphError<Seq<char>>,
            >(s),
            Err(e) => resource_check(name@, *r, probes@) == Err::<
                ResourceShape,
                GraphError<Seq<char>>,
            >(e@),
        },
{
    match r.kind {
        ResourceKind::Image => check_image(name, r, probes),
        ResourceKind::Buffer => check_buffer(name, r, probes),
    }
}

/// Checks the resources in name order and computes their extents.
pub fn check_resources(resources: &NameMap<ResourceDefinition>, probes: &NameMap<InputProbe>) -> (res:
    Result<Vec<ResourceShape>, ComputeGraphError>)
    ensures
        match res {
            Ok(shapes) => {
                &&& first_error(resource_errors(*resources, probes@)) is None
                &&& shapes@.len() == resources.keys().len()
                &&& forall|i: int|
                    0 <= i < shapes@.len() ==> resource_check(
                        resources.keys()[i],
                        resources.values()[i],
                        probes@,
                    ) == Ok::<ResourceShape, GraphError<Seq<char>>>(#[trigger] shapes@[i])
            },
            Err(e) => first_error(resource_errors(*resources, probes@)) == Some(e@),
        },
{
    proof {
        use_type_invariant(resources);
    }
    let n = resources.len();
    let ghost errors = resource_errors(*resources, probes@);
    let mut shapes: Vec<ResourceShape> = Vec::new();
    let mut i: usize = 0;
    while i < n
        invariant
            n == resources.keys().len(),
            resources.values().len() == n,
            errors == resource_errors(*resources, probes@),
            i <= n,
            shapes@.len() == i,
            forall|j: int| 0 <= j < i ==> errors[j] is None,
            forall|j: int|
                0 <= j < i ==> resource_check(resources.keys()[j], resources.values()[j], probes@)
                    == Ok::<ResourceShape, GraphError<Seq<char>>>(#[trigger] shapes@[j]),
        decreases n - i,
    {
        match check_resource(resources.name_at(i), resources.value_at(i), probes) {
            Ok(shape) => {
                shapes.push(shape);
            },
            Err(e) => {
                proof {
                    lemma_first_error_at(errors, i as int);
                }
                return Err(e);
            },
        }
        i = i + 1;
    }
    proof {
        lemma_first_error_none(errors);
    }
    Ok(shapes)
}

/// Checks the binding at index `k` of a node.
fn check_binding(node: &ComputeNodeDefinition, k: usize, resources: &NameMap<ResourceDefinition>) -> (res:
    Result<(), ComputeGraphError>)
    requires
        k < node.bindings@.len(),
    ensures
        match res {
            Ok(()) => binding_error(*node, k as int, resources@) is None,
            Err(e) => binding_error(*node, k as int, resources@) == Some(e@),
        },
{
    let resource = &node.bindings[k].resource;
    if !resources.contains(resource.as_str()) {
        return Err(
            GraphError::UndeclaredResource { node: node.name.clone(), resource: resource.clone() },
        );
    }
    let mut k2: usize = 0;
    while k2 < k
        invariant
            k < node.bindings@.len(),
            *resource == node.bindings@[k as int].resource,
            resources@.contains_key(resource@),
            k2 <= k,
            forall|j: int| 0 <= j < k2 ==> node.bindings@[j].resource@ != resource@,
        decreases k - k2,
    {
        if same_name(node.bindings[k2].resource.as_str(), resource.as_str()) {
            assert(0 <= k2 < k && node.bindings@[k2 as int].resource@ == resource@);
            return Err(
                GraphError::DuplicateBinding { node: node.name.clone(), resource: resource.clone() },
            );
        }
        k2 = k2 + 1;
    }
    Ok(())
}

/// Checks the node at `index`.
pub fn check_node(index: usize, node: &ComputeNodeDefinition, resources: &NameMap<ResourceDefinition>) -> (res:
    Result<(), ComputeGraphError>)
    ensures
        match res {
            Ok(()) => node_error(index as int, *node, resources@) is None,
            Err(e) => node_error(index as int, *node, resources@) == Some(e@),
        },
{
    if node.name.as_str().is_empty() {
        return Err(GraphError::EmptyNodeName { node: index });
    }
    if node.kernel.as_str().is_empty() {
        return Err(GraphError::EmptyKernel { node: node.name.clone() });
    }
    if node.dispatch[0] == 0 || node.dispatch[1] == 0 || node.dispatch[2] == 0 {
        return Err(GraphError::ZeroDispatch { node: node.name.clone() });
    }
    let ghost errors = binding_errors(*node, resources@);
    let nb = node.bindings.len();
    let mut k: usize = 0;
    while k < nb
        invariant
            nb == node.bindings@.len(),
            errors == binding_errors(*node, resources@),
            k <= nb,
            node.name@.len() != 0,
            node.kernel@.len() != 0,
            node.dispatch@[0] != 0 && node.dispatch@[1] != 0 && node.dispatch@[2] != 0,
            forall|j: int| 0 <= j < k ==> errors[j] is None,
        decreases nb - k,
    {
        match check_binding(node, k, resources) {
            Ok(()) => {},
            Err(e) => {
                proof {
                    lemma_first_error_at(errors, k as int);
                    assert(node.name@.len() != 0);
                    assert(node.kernel@.len() != 0);
                    assert(node.dispatch@[0] != 0 && node.dispatch@[1] != 0 && node.dispatch@[2] != 0);
                    assert(first_error(binding_errors(*node, resources@)) == Some(e@));
                }
                return Err(e);
            },
        }
        k = k + 1;
    }
    proof {
        lemma_first_error_none(errors);
    }
    if nb > RESOURCE_TABLE_CAPACITY {
        return Err(GraphError::TooManyBindings { node: node.name.clone() });
    }
    Ok(())
}

/// Checks the nodes in order.
pub fn check_nodes(nodes: &Vec<ComputeNodeDefinition>, resources: &NameMap<ResourceDefinition>) -> (res:
    Result<(), ComputeGraphError>)
    ensures
        match res {
            Ok(()) => first_error(node_errors(nodes@, resources@)) is None,
            Err(e) => first_error(node_errors(nodes@, resources@)) == Some(e@),
        },
{
    let ghost errors = node_errors(nodes@, resources@);
    let n = nodes.len();
    let mut i: usize = 0;
    while i < n
        invariant
            n == nodes@.len(),
            errors == node_errors(nodes@, resources@),
            i <= n,
            forall|j: int| 0 <= j < i ==> errors[j] is None,
        decreases n - i,
    {
        match check_node(i, &nodes[i], resources) {
            Ok(()) => {},
            Err(e) => {
                proof {
                    lemma_first_error_at(errors, i as int);
                }
                return Err(e);
            },
        }
        i = i + 1;
    }
    proof {
        lemma_first_error_none(errors);
    }
    Ok(())
}

} // verus!
