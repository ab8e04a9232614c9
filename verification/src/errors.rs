//! Errors produced while resolving and validating a compute graph.
use vstd::prelude::*;
use vstd::string::StringExecFns;
use crate::format::ImageFormat;
use crate::text::{decimal, push_decimal};

verus! {

/// Why a graph, or data handed to it, was rejected. `S` is the text type:
/// `String` in executable code and `Seq<char>` in specifications.
#[derive(Clone, Debug)]
pub enum GraphError<S> {
    /// An argument override names an argument the graph does not declare.
    UndeclaredOverride { argument: S },
    /// A value refers to an argument the graph does not declare.
    UndeclaredArgument { argument: S },
    /// A text value is neither `$name` nor `${name}`.
    MalformedReference { text: S },
    /// A referenced argument's value is not an unsigned decimal integer.
    ArgumentNotInteger { argument: S, value: S },
    /// A value of the named resource or node does not fit its field.
    ValueOutOfRange { owner: S },
    /// More resources than there are bindless slots.
    TooManyResources,
    /// An image with an input also declares its dimensions.
    ImageInputWithDimensions { resource: S },
    /// An image with an input declares no format.
    ImageInputWithoutFormat { resource: S },
    /// No facts about the resource's input were handed over.
    InputNotInspected { resource: S },
    /// The image read as the resource's input could not be opened or decoded.
    ImageInputUnreadable { resource: S, message: S },
    /// The file read as the resource's input could not be inspected.
    BufferInputUnreadable { resource: S, message: S },
    /// The image read as the resource's input is empty.
    ImageInputZeroDimensions { resource: S, input: S },
    /// An image whose width or height is zero.
    ZeroImageExtent { resource: S },
    /// An image output whose path does not end in `.png`.
    ImageOutputNotPng { resource: S, output: S },
    /// A buffer with an input also declares its size.
    BufferInputWithSize { resource: S },
    /// A buffer of size zero.
    ZeroBufferSize { resource: S },
    /// The node at this index has an empty name.
    EmptyNodeName { node: usize },
    /// The node has an empty kernel name.
    EmptyKernel { node: S },
    /// A dispatch dimension of the node is zero.
    ZeroDispatch { node: S },
    /// The node binds a resource that is not declared.
    UndeclaredResource { node: S, resource: S },
    /// The node binds a resource twice.
    DuplicateBinding { node: S, resource: S },
    /// The node binds more resources than its slot table holds.
    TooManyBindings { node: S },
    /// Image data whose length is not a multiple of the texel size.
    UnalignedImageData { format: ImageFormat, length: usize },
    /// The shader compiler rejected a node's shader.
    ShaderCompilation { shader: S, message: S },
    /// The compiler output for a shader is not a sequence of 32-bit words.
    InvalidSpirv { shader: S },
    /// The node's kernel name holds a NUL character.
    InvalidKernelName { node: S },
    /// The shader path or the header directory holds a NUL character.
    InvalidShaderPath { shader: S },
}

/// The error type of this library.
pub type ComputeGraphError = GraphError<String>;

impl View for GraphError<String> {
    type V = GraphError<Seq<char>>;

    open spec fn view(&self) -> GraphError<Seq<char>> {
        match self {
            GraphError::UndeclaredOverride { argument } => GraphError::UndeclaredOverride {
                argument: argument@,
            },
            GraphError::UndeclaredArgument { argument } => GraphError::UndeclaredArgument {
                argument: argument@,
            },
            GraphError::MalformedReference { text } => GraphError::MalformedReference {
                text: text@,
            },
            GraphError::ArgumentNotInteger { argument, value } => GraphError::ArgumentNotInteger {
                argument: argument@,
                value: value@,
            },
            GraphError::ValueOutOfRange { owner } => GraphError::ValueOutOfRange { owner: owner@ },
            GraphError::TooManyResources => GraphError::TooManyResources,
            GraphError::ImageInputWithDimensions { resource } =>
                GraphError::ImageInputWithDimensions { resource: resource@ },
            GraphError::ImageInputWithoutFormat { resource } =>
                GraphError::ImageInputWithoutFormat { resource: resource@ },
            GraphError::InputNotInspected { resource } => GraphError::InputNotInspected {
                resource: resource@,
            },
            GraphError::ImageInputUnreadable { resource, message } =>
                GraphError::ImageInputUnreadable { resource: resource@, message: message@ },
            GraphError::BufferInputUnreadable { resource, message } =>
                GraphError::BufferInputUnreadable { resource: resource@, message: message@ },
            GraphError::ImageInputZeroDimensions { resource, input } =>
                GraphError::ImageInputZeroDimensions { resource: resource@, input: input@ },
            GraphError::ZeroImageExtent { resource } => GraphError::ZeroImageExtent {
                resource: resource@,
            },
            GraphError::ImageOutputNotPng { resource, output } => GraphError::ImageOutputNotPng {
                resource: resource@,
                output: output@,
            },
            GraphError::BufferInputWithSize { resource } => GraphError::BufferInputWithSize {
                resource: resource@,
            },
            GraphError::ZeroBufferSize { resource } => GraphError::ZeroBufferSize {
                resource: resource@,
            },
            GraphError::EmptyNodeName { node } => GraphError::EmptyNodeName { node: *node },
            GraphError::EmptyKernel { node } => GraphError::EmptyKernel { node: node@ },
            GraphError::ZeroDispatch { node } => GraphError::ZeroDispatch { node: node@ },
            GraphError::UndeclaredResource { node, resource } => GraphError::UndeclaredResource {
                node: node@,
                resource: resource@,
            },
            GraphError::DuplicateBinding { node, resource } => GraphError::DuplicateBinding {
                node: node@,
                resource: resource@,
            },
            GraphError::TooManyBindings { node } => GraphError::TooManyBindings { node: node@ },
            GraphError::UnalignedImageData { format, length } => GraphError::UnalignedImageData {
                format: *format,
                length: *length,
            },
            GraphError::ShaderCompilation { shader, message } => GraphError::ShaderCompilation {
                shader: shader@,
                message: message@,
            },
            GraphError::InvalidSpirv { shader } => GraphError::InvalidSpirv { shader: shader@ },
            GraphError::InvalidKernelName { node } => GraphError::InvalidKernelName { node: node@ },
            GraphError::InvalidShaderPath { shader } => GraphError::InvalidShaderPath {
                shader: shader@,
            },
        }
    }
}

/// The name of an image format's variant.
pub open spec fn format_name(format: ImageFormat) -> Seq<char> {
    match format {
        ImageFormat::R8Unorm => "R8Unorm"@,
        ImageFormat::R8G8Unorm => "R8G8Unorm"@,
        ImageFormat::R8G8B8A8Unorm => "R8G8B8A8Unorm"@,
        ImageFormat::B8G8R8A8Unorm => "B8G8R8A8Unorm"@,
        ImageFormat::R32Sfloat => "R32Sfloat"@,
        ImageFormat::R32G32Sfloat => "R32G32Sfloat"@,
        ImageFormat::R32G32B32A32Sfloat => "R32G32B32A32Sfloat"@,
    }
}

fn format_text(format: ImageFormat) -> (s: &'static str)
    ensures
        s@ == format_name(format),
{
    match format {
        ImageFormat::R8Unorm => "R8Unorm",
        ImageFormat::R8G8Unorm => "R8G8Unorm",
        ImageFormat::R8G8B8A8Unorm => "R8G8B8A8Unorm",
        ImageFormat::B8G8R8A8Unorm => "B8G8R8A8Unorm",
        ImageFormat::R32Sfloat => "R32Sfloat",
        ImageFormat::R32G32Sfloat => "R32G32Sfloat",
        ImageFormat::R32G32B32A32Sfloat => "R32G32B32A32Sfloat",
    }
}

/// The message that describes an error.
pub open spec fn error_text(e: GraphError<Seq<char>>) -> Seq<char> {
    match e {
        GraphError::UndeclaredOverride { argument } => "graph argument `"@ + argument
            + "` has no declaration"@,
        GraphError::UndeclaredArgument { argument } => "reference to undeclared graph argument `"@
            + argument + "`"@,
        GraphError::MalformedReference { text } => "value `"@ + text
            + "` is neither an integer nor a `$name` argument reference"@,
        GraphError::ArgumentNotInteger { argument, value } => "graph argument `"@ + argument
            + "` value `"@ + value + "` is not an unsigned integer"@,
        GraphError::ValueOutOfRange { owner } => "a value of `"@ + owner
            + "` is out of range for its field"@,
        GraphError::TooManyResources => "compute graph declares more than 64 resources"@,
        GraphError::ImageInputWithDimensions { resource } => "image resource `"@ + resource
            + "` must not specify dimensions when input is used"@,
        GraphError::ImageInputWithoutFormat { resource } => "image resource `"@ + resource
            + "` must specify a format when input is used"@,
        GraphError::InputNotInspected { resource } => "the input of resource `"@ + resource
            + "` was not inspected"@,
        GraphError::ImageInputUnreadable { resource, message } => "image error: "@ + message,
        GraphError::BufferInputUnreadable { resource, message } => "I/O error: "@ + message,
        GraphError::ImageInputZeroDimensions { resource, input } => "image resource `"@ + resource
            + "` input `"@ + input + "` has zero dimensions"@,
        GraphError::ZeroImageExtent { resource } => "image resource `"@ + resource
            + "` must have non-zero width and height"@,
        GraphError::ImageOutputNotPng { resource, output } => "image resource `"@ + resource
            + "` output path `"@ + output + "` must use a .png extension"@,
        GraphError::BufferInputWithSize { resource } => "buffer resource `"@ + resource
            + "` must not specify size when input is used"@,
        GraphError::ZeroBufferSize { resource } => "buffer resource `"@ + resource
            + "` must have a non-zero size"@,
        GraphError::EmptyNodeName { node } => "node "@ + decimal(node as nat)
            + " has an empty name"@,
        GraphError::EmptyKernel { node } => "node `"@ + node + "` has an empty kernel name"@,
        GraphError::ZeroDispatch { node } => "node `"@ + node + "` has a zero dispatch dimension"@,
        GraphError::UndeclaredResource { node, resource } => "node `"@ + node
            + "` refers to undeclared resource `"@ + resource + "`"@,
        GraphError::DuplicateBinding { node, resource } => "node `"@ + node
            + "` binds resource `"@ + resource + "` more than once"@,
        GraphError::TooManyBindings { node } => "node `"@ + node
            + "` binds more than 30 resources"@,
        GraphError::UnalignedImageData { format, length } => "image data length "@ + decimal(
            length as nat,
        ) + " is not aligned to the `"@ + format_name(format) + "` pixel size"@,
        GraphError::ShaderCompilation { shader, message } => "shader compilation error: "@ + message,
        GraphError::InvalidSpirv { shader } => "shader compilation error: shader `"@ + shader
            + "` produced invalid SPIR-V"@,
        GraphError::InvalidKernelName { node } => "node `"@ + node + "` has an invalid kernel name"@,
        GraphError::InvalidShaderPath { shader } => "shader path `"@ + shader
            + "` or its header directory holds a NUL character"@,
    }
}

impl GraphError<String> {
    /// The message that describes the error.
    pub fn message(&self) -> (m: String)
        ensures
            m@ == error_text(self@),
    {
        let mut m = String::new();
        match self {
            GraphError::UndeclaredOverride { argument } => {
                m.append("graph argument `");
                m.append(argument.as_str());
                m.append("` has no declaration");
            },
            GraphError::UndeclaredArgument { argument } => {
                m.append("reference to undeclared graph argument `");
                m.append(argument.as_str());
                m.append("`");
            },
            GraphError::MalformedReference { text } => {
                m.append("value `");
                m.append(text.as_str());
                m.append("` is neither an integer nor a `$name` argument reference");
            },
            GraphError::ArgumentNotInteger { argument, value } => {
                m.append("graph argument `");
                m.append(argument.as_str());
                m.append("` value `");
                m.append(value.as_str());
                m.append("` is not an unsigned integer");
            },
            GraphError::ValueOutOfRange { owner } => {
                m.append("a value of `");
                m.append(owner.as_str());
                m.append("` is out of range for its field");
            },
            GraphError::TooManyResources => {
                m.append("compute graph declares more than 64 resources");
            },
            GraphError::ImageInputWithDimensions { resource } => {
                m.append("image resource `");
                m.append(resource.as_str());
                m.append("` must not specify dimensions when input is used");
            },
            GraphError::ImageInputWithoutFormat { resource } => {
                m.append("image resource `");
                m.append(resource.as_str());
                m.append("` must specify a format when input is used");
            },
            GraphError::InputNotInspected { resource } => {
                m.append("the input of resource `");
                m.append(resource.as_str());
                m.append("` was not inspected");
            },
            GraphError::ImageInputUnreadable { resource, message } => {
                m.append("image error: ");
                m.append(message.as_str());
            },
            GraphError::BufferInputUnreadable { resource, message } => {
                m.append("I/O error: ");
                m.append(message.as_str());
            },
            GraphError::ImageInputZeroDimensions { resource, input } => {
                m.append("image resource `");
                m.append(resource.as_str());
                m.append("` input `");
                m.append(input.as_str());
                m.append("` has zero dimensions");
            },
            GraphError::ZeroImageExtent { resource } => {
                m.append("image resource `");
                m.append(resource.as_str());
                m.append("` must have non-zero width and height");
            },
            GraphError::ImageOutputNotPng { resource, output } => {
                m.append("image resource `");
                m.append(resource.as_str());
                m.append("` output path `");
                m.append(output.as_str());
                m.append("` must use a .png extension");
            },
            GraphError::BufferInputWithSize { resource } => {
                m.append("buffer resource `");
                m.append(resource.as_str());
                m.append("` must not specify size when input is used");
            },
            GraphError::ZeroBufferSize { resource } => {
                m.append("buffer resource `");
                m.append(resource.as_str());
                m.append("` must have a non-zero size");
            },
            GraphError::EmptyNodeName { node } => {
                m.append("node ");
                push_decimal(&mut m, *node as u64);
                m.append(" has an empty name");
            },
            GraphError::EmptyKernel { node } => {
                m.append("node `");
                m.append(node.as_str());
                m.append("` has an empty kernel name");
            },
            GraphError::ZeroDispatch { node } => {
                m.append("node `");
                m.append(node.as_str());
                m.append("` has a zero dispatch dimension");
            },
            GraphError::UndeclaredResource { node, resource } => {
                m.append("node `");
                m.append(node.as_str());
                m.append("` refers to undeclared resource `");
                m.append(resource.as_str());
                m.append("`");
            },
            GraphError::DuplicateBinding { node, resource } => {
                m.append("node `");
                m.append(node.as_str());
                m.append("` binds resource `");
                m.append(resource.as_str());
                m.append("` more than once");
            },
            GraphError::TooManyBindings { node } => {
                m.append("node `");
                m.append(node.as_str());
                m.append("` binds more than 30 resources");
            },
            GraphError::UnalignedImageData { format, length } => {
                m.append("image data length ");
                push_decimal(&mut m, *length as u64);
                m.append(" is not aligned to the `");
                m.append(format_text(*format));
                m.append("` pixel size");
            },
            GraphError::ShaderCompilation { shader, message } => {
                m.append("shader compilation error: ");
                m.append(message.as_str());
            },
            GraphError::InvalidSpirv { shader } => {
                m.append("shader compilation error: shader `");
                m.append(shader.as_str());
                m.append("` produced invalid SPIR-V");
            },
            GraphError::InvalidKernelName { node } => {
                m.append("node `");
                m.append(node.as_str());
                m.append("` has an invalid kernel name");
            },
            GraphError::InvalidShaderPath { shader } => {
                m.append("shader path `");
                m.append(shader.as_str());
                m.append("` or its header directory holds a NUL character");
            },
        }
        m
    }
}

} // verus!
