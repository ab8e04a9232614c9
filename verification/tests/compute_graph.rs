use ai_vk::{
    AccessType, ComputeGraph, ComputeGraphDefinition, ComputeGraphSource, ComputeNodeDefinition,
    ComputeNodeSource, GraphValue, ImageFormat, InputProbe, NameMap, ResourceBindingDefinition,
    ResourceDefinition, ResourceKind, ResourceShape, ResourceSource,
};

fn resource(kind: ResourceKind) -> ResourceDefinition {
    ResourceDefinition {
        kind,
        width: None,
        height: None,
        extent: None,
        size: None,
        input: None,
        format: None,
        output: None,
    }
}

fn image(width: u32, height: u32) -> ResourceDefinition {
    ResourceDefinition {
        width: Some(width),
        height: Some(height),
        ..resource(ResourceKind::Image)
    }
}

fn image_extent(width: u32, height: u32) -> ResourceDefinition {
    ResourceDefinition {
        extent: Some([width, height]),
        ..resource(ResourceKind::Image)
    }
}

fn buffer(size: u64) -> ResourceDefinition {
    ResourceDefinition {
        size: Some(size),
        ..resource(ResourceKind::Buffer)
    }
}

fn bind(resource: &str, access: AccessType) -> ResourceBindingDefinition {
    ResourceBindingDefinition {
        resource: resource.to_string(),
        access,
    }
}

fn node(name: &str, shader: &str, bindings: Vec<ResourceBindingDefinition>) -> ComputeNodeDefinition {
    ComputeNodeDefinition {
        name: name.to_string(),
        shader: shader.to_string(),
        kernel: "main".to_string(),
        dispatch: [1, 1, 1],
        bindings,
    }
}

fn definition(
    resources: Vec<(&str, ResourceDefinition)>,
    nodes: Vec<ComputeNodeDefinition>,
) -> ComputeGraphDefinition {
    let mut map = NameMap::new();
    for (name, definition) in resources {
        map.insert(name.to_string(), definition);
    }
    ComputeGraphDefinition {
        arguments: NameMap::new(),
        resources: map,
        nodes,
    }
}

fn build(definition: ComputeGraphDefinition) -> Result<ComputeGraph, ai_vk::ComputeGraphError> {
    ComputeGraph::from_definition_with_base(definition, ".".to_string(), &NameMap::new())
}

fn error_message(result: Result<ComputeGraph, ai_vk::ComputeGraphError>) -> String {
    match result {
        Ok(_) => panic!("the graph should have been rejected"),
        Err(error) => error.message(),
    }
}

#[test]
fn parses_resources_nodes_and_resource_hazards_from_toml() {
    let graph = build(definition(
        vec![("source", image(8, 8)), ("output", buffer(256))],
        vec![
            node(
                "produce",
                "produce.hlsl",
                vec![bind("source", AccessType::Write)],
            ),
            node(
                "consume",
                "consume.hlsl",
                vec![
                    bind("source", AccessType::Read),
                    bind("output", AccessType::Write),
                ],
            ),
        ],
    ))
    .expect("graph TOML should parse");

    assert_eq!(graph.resource_slot("output"), Some(0));
    assert_eq!(graph.resource_slot("source"), Some(1));
    assert_eq!(
        graph.definition().resource("source").unwrap().kind,
        ResourceKind::Image
    );
    assert_eq!(
        graph.definition().nodes[0].bindings[0].access,
        AccessType::Write
    );
    assert_eq!(graph.dependencies(0), Some([].as_slice()));
    assert_eq!(graph.dependencies(1), Some([0].as_slice()));
}

#[test]
fn rejects_unknown_resources_and_invalid_dimensions() {
    let unknown = error_message(build(definition(
        vec![],
        vec![node("bad", "bad.hlsl", vec![bind("missing", AccessType::Read)])],
    )));
    assert!(unknown.contains("undeclared resource"));

    let invalid_image = error_message(build(definition(vec![("output", image(0, 8))], vec![])));
    assert!(invalid_image.contains("non-zero width"));

    let invalid_output = error_message(build(definition(
        vec![(
            "output",
            ResourceDefinition {
                output: Some("output.raw".to_string()),
                ..image_extent(8, 8)
            },
        )],
        vec![],
    )));
    assert!(invalid_output.contains(".png extension"));
}

fn declared(values: Vec<(&str, &str)>) -> NameMap<String> {
    let mut map = NameMap::new();
    for (name, value) in values {
        map.insert(name.to_string(), value.to_string());
    }
    map
}

fn text(value: &str) -> GraphValue {
    GraphValue::Text(value.to_string())
}

fn source_resource(kind: ResourceKind) -> ResourceSource {
    ResourceSource {
        kind,
        width: None,
        height: None,
        extent: None,
        size: None,
        input: None,
        format: None,
        output: None,
    }
}

#[test]
fn resolves_graph_arguments_in_dimensions_and_dispatches() {
    let overrides = declared(vec![("width", "16")]);
    let mut resources = NameMap::new();
    resources.insert(
        "image".to_string(),
        ResourceSource {
            extent: Some([text("$width"), text("${height}")]),
            ..source_resource(ResourceKind::Image)
        },
    );
    resources.insert(
        "buffer".to_string(),
        ResourceSource {
            size: Some(text("$buffer_size")),
            ..source_resource(ResourceKind::Buffer)
        },
    );
    let source = ComputeGraphSource {
        arguments: declared(vec![
            ("width", "8"),
            ("height", "4"),
            ("buffer_size", "64"),
            ("groups", "2"),
        ]),
        resources,
        nodes: vec![ComputeNodeSource {
            name: "fill".to_string(),
            shader: "fill.hlsl".to_string(),
            kernel: "main".to_string(),
            dispatch: [text("$groups"), GraphValue::Integer(1), GraphValue::Integer(1)],
            bindings: vec![],
        }],
    };
    let definition = source
        .resolve(&overrides)
        .expect("graph arguments should resolve");
    let graph = build(definition).expect("graph arguments should resolve");

    assert_eq!(graph.definition().argument("width").unwrap(), "16");
    assert_eq!(graph.definition().argument("height").unwrap(), "4");
    assert_eq!(
        graph.definition().resource("image").unwrap().extent,
        Some([16, 4])
    );
    assert_eq!(graph.definition().resource("buffer").unwrap().size, Some(64));
    assert_eq!(graph.definition().nodes[0].dispatch, [2, 1, 1]);
}

#[test]
fn rejects_undeclared_graph_argument_overrides() {
    let overrides = declared(vec![("width", "16")]);
    let source = ComputeGraphSource {
        arguments: declared(vec![("height", "8")]),
        resources: NameMap::new(),
        nodes: vec![],
    };
    let error = source
        .resolve(&overrides)
        .expect_err("undeclared arguments should be rejected");
    assert!(error.message().contains("has no declaration"));
}

fn probes(values: Vec<(&str, InputProbe)>) -> NameMap<InputProbe> {
    let mut map = NameMap::new();
    for (name, probe) in values {
        map.insert(name.to_string(), probe);
    }
    map
}

#[test]
fn derives_input_resource_dimensions_and_sizes() {
    let image_path = "input-image.png".to_string();
    let buffer_path = "input-buffer.bin".to_string();
    let graph = ComputeGraph::from_definition_with_base(
        definition(
            vec![
                (
                    "image",
                    ResourceDefinition {
                        input: Some(image_path.clone()),
                        format: Some(ImageFormat::R8G8B8A8Unorm),
                        ..resource(ResourceKind::Image)
                    },
                ),
                (
                    "buffer",
                    ResourceDefinition {
                        input: Some(buffer_path.clone()),
                        ..resource(ResourceKind::Buffer)
                    },
                ),
            ],
            vec![],
        ),
        ".".to_string(),
        &probes(vec![
            ("image", InputProbe::Image { width: 3, height: 2 }),
            ("buffer", InputProbe::File { length: 5 }),
        ]),
    )
    .expect("input resources should parse");

    assert_eq!(
        graph.definition().resource("image").unwrap().input,
        Some(image_path.clone())
    );
    assert_eq!(
        graph.definition().resource("buffer").unwrap().input,
        Some(buffer_path.clone())
    );
    assert_eq!(
        graph.resource_shape("image"),
        Some(ResourceShape::Image {
            width: 3,
            height: 2,
            format: ImageFormat::R8G8B8A8Unorm
        })
    );
    assert_eq!(
        graph.resource_shape("buffer"),
        Some(ResourceShape::Buffer { size: 5 })
    );
}

#[test]
fn rejects_explicit_dimensions_and_missing_image_format_for_inputs() {
    let inputs = probes(vec![("image", InputProbe::Image { width: 2, height: 2 })]);
    let explicit_dimensions = ComputeGraph::from_definition_with_base(
        definition(
            vec![(
                "image",
                ResourceDefinition {
                    input: Some("input.png".to_string()),
                    format: Some(ImageFormat::R8G8B8A8Unorm),
                    ..image_extent(2, 2)
                },
            )],
            vec![],
        ),
        ".".to_string(),
        &inputs,
    );
    assert!(error_message(explicit_dimensions).contains("must not specify dimensions"));

    let missing_format = ComputeGraph::from_definition_with_base(
        definition(
            vec![(
                "image",
                ResourceDefinition {
                    input: Some("input.png".to_string()),
                    ..resource(ResourceKind::Image)
                },
            )],
            vec![],
        ),
        ".".to_string(),
        &inputs,
    );
    assert!(error_message(missing_format).contains("must specify a format"));
}
