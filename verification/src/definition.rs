//! The resolved, directly usable description of a compute graph.
use vstd::prelude::*;
use crate::format::ImageFormat;
use crate::name_map::NameMap;

verus! {

/// How a dispatch uses a graph resource.
#[derive(Clone, Copy, Debug, PartialEq, Eq, Structural)]
pub enum AccessType {
    Read,
    Write,
    ReadWrite,
}

impl AccessType {
    /// The access reads the resource.
    pub open spec fn is_read(self) -> bool {
        self is Read || self is ReadWrite
    }

    /// The access writes the resource.
    pub open spec fn is_write(self) -> bool {
        self is Write || self is ReadWrite
    }

    /// Whether the access reads the resource.
    pub fn reads(self) -> (r: bool)
        ensures
            r == self.is_read(),
    {
        match self {
            AccessType::Read | AccessType::ReadWrite => true,
            AccessType::Write => false,
        }
    }

    /// Whether the access writes the resource.
    pub fn writes(self) -> (r: bool)
        ensures
            r == self.is_write(),
    {
        match self {
            AccessType::Write | AccessType::ReadWrite => true,
            AccessType::Read => false,
        }
    }
}

/// Reading accesses are `read` and `read_write`; writing accesses are
/// `write` and `read_write`.
pub proof fn lemma_access_reads_and_writes(access: AccessType)
    ensures
        access.is_read() <==> (access is Read || access is ReadWrite),
        access.is_write() <==> (access is Write || access is ReadWrite),
        access.is_read() || access.is_write(),
{
}

/// The resource kinds supported by the graph executor.
#[derive(Clone, Copy, Debug, PartialEq, Eq, Structural)]
pub enum ResourceKind {
    Image,
    Buffer,
}

/// A resource declared in the `[resources.<name>]` tables.
#[derive(Clone, Debug)]
pub struct ResourceDefinition {
    pub kind: ResourceKind,
    pub width: Option<u32>,
    pub height: Option<u32>,
    pub extent: Option<[u32; 2]>,
    pub size: Option<u64>,
    /// Optional input path, resolved relative to the graph file.
    pub input: Option<String>,
    /// GPU image format. Defaults to `r8g8b8a8_unorm` when no input is used.
    pub format: Option<ImageFormat>,
    /// Optional output path, resolved relative to the graph file.
    pub output: Option<String>,
}

/// A resource use declared in a node's `bindings` array.
#[derive(Clone, Debug)]
pub struct ResourceBindingDefinition {
    pub resource: String,
    pub access: AccessType,
}

/// A compute dispatch declared in `[[nodes]]`.
#[derive(Clone, Debug)]
pub struct ComputeNodeDefinition {
    pub name: String,
    pub shader: String,
    pub kernel: String,
    pub dispatch: [u32; 3],
    pub bindings: Vec<ResourceBindingDefinition>,
}

/// A compute graph with every argument already substituted.
#[derive(Debug)]
pub struct ComputeGraphDefinition {
    /// The value of each declared graph argument.
    pub arguments: NameMap<String>,
    pub resources: NameMap<ResourceDefinition>,
    pub nodes: Vec<ComputeNodeDefinition>,
}

impl ComputeGraphDefinition {
    /// The declared resource with the given name.
    pub fn resource(&self, name: &str) -> (r: Option<&ResourceDefinition>)
        ensures
            match r {
                Some(d) => self.resources@.contains_key(name@) && *d == self.resources@[name@],
                None => !self.resources@.contains_key(name@),
            },
    {
        self.resources.get(name)
    }

    /// The value of the graph argument with the given name.
    pub fn argument(&self, name: &str) -> (r: Option<&String>)
        ensures
            match r {
                Some(v) => self.arguments@.contains_key(name@) && *v == self.arguments@[name@],
                None => !self.arguments@.contains_key(name@),
            },
    {
        self.arguments.get(name)
    }
}

} // verus!
