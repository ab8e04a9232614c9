//! Data-driven Vulkan compute graphs: argument substitution, validation,
//! persistent resource slots, hazard tracking between dispatches, barrier
//! planning and the pixel layouts used around graph execution.
pub mod arguments;
pub mod compiler;
pub mod definition;
pub mod device;
pub mod errors;
pub mod format;
pub mod graph;
pub mod hazards;
pub mod name_map;
pub mod names;
pub mod requests;
pub mod schedule;
pub mod shader;
pub mod text;
pub mod validate;

pub use arguments::{parse_arguments, ComputeGraphSource, ComputeNodeSource, GraphValue, ResourceSource};
pub use definition::{
    AccessType, ComputeGraphDefinition, ComputeNodeDefinition, ResourceBindingDefinition,
    ResourceDefinition, ResourceKind,
};
pub use device::PhysicalDeviceInfo;
pub use errors::{ComputeGraphError, GraphError};
pub use format::ImageFormat;
pub use graph::ComputeGraph;
pub use name_map::NameMap;
pub use validate::{InputProbe, ResourceShape};
