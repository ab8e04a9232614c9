use ai_vk::graph::ComputeGraph;
use ai_vk::{
    AccessType, ComputeGraphDefinition, ComputeGraphError, ComputeGraphSource, ComputeNodeDefinition,
    ComputeNodeSource, GraphError, GraphValue, ImageFormat, InputProbe, NameMap,
    ResourceBindingDefinition, ResourceDefinition, ResourceKind, ResourceSource,
};

fn resource(kind: ResourceKind) -> ResourceDefinition {
    ResourceDefinition {
        kind,
        width: None,
        height: None,
        extent: None,
        size: None,
        input: None,
        format: None,
        output: None,
    }
}

fn image(width: u32, height: u32) -> ResourceDefinition {
    ResourceDefinition {
        width: Some(width),
        height: Some(height),
        ..resource(ResourceKind::Image)
    }
}

fn buffer(size: u64) -> ResourceDefinition {
    ResourceDefinition {
        size: Some(size),
        ..resource(ResourceKind::Buffer)
    }
}

fn bind(resource: &str, access: AccessType) -> ResourceBindingDefinition {
    ResourceBindingDefinition {
        resource: resource.to_string(),
        access,
    }
}

fn node(name: &str, bindings: Vec<ResourceBindingDefinition>) -> ComputeNodeDefinition {
    ComputeNodeDefinition {
        name: name.to_string(),
        shader: format!("{name}.hlsl"),
        kernel: "main".to_string(),
        dispatch: [1, 1, 1],
        bindings,
    }
}

fn definition(
    resources: Vec<(&str, ResourceDefinition)>,
    nodes: Vec<ComputeNodeDefinition>,
) -> ComputeGraphDefinition {
    let mut map = NameMap::new();
    for (name, definition) in resources {
        map.insert(name.to_string(), definition);
    }
    ComputeGraphDefinition {
        arguments: NameMap::new(),
        resources: map,
        nodes,
    }
}

fn build(definition: ComputeGraphDefinition) -> Result<ComputeGraph, ComputeGraphError> {
    ComputeGraph::from_definition_with_base(definition, ".".to_string(), &NameMap::new())
}

fn rejection(definition: ComputeGraphDefinition) -> String {
    match build(definition) {
        Ok(_) => panic!("the graph should have been rejected"),
        Err(error) => error.message(),
    }
}

#[test]
fn slots_follow_name_order() {
    let graph = build(definition(
        vec![
            ("zeta", buffer(4)),
            ("alpha", buffer(4)),
            ("Beta", buffer(4)),
            ("mid", image(1, 1)),
        ],
        vec![],
    ))
    .unwrap();
    assert_eq!(graph.resource_slot("Beta"), Some(0));
    assert_eq!(graph.resource_slot("alpha"), Some(1));
    assert_eq!(graph.resource_slot("mid"), Some(2));
    assert_eq!(graph.resource_slot("zeta"), Some(3));
    assert_eq!(graph.resource_slot("other"), None);
}

#[test]
fn read_after_write_write_after_read_and_write_after_write() {
    let graph = build(definition(
        vec![("a", buffer(4)), ("b", buffer(4))],
        vec![
            node("w0", vec![bind("a", AccessType::Write)]),
            node("r1", vec![bind("a", AccessType::Read)]),
            node("r2", vec![bind("a", AccessType::Read), bind("b", AccessType::Read)]),
            node("w3", vec![bind("a", AccessType::Write)]),
            node("w4", vec![bind("a", AccessType::Write)]),
            node("rw5", vec![bind("b", AccessType::ReadWrite)]),
        ],
    ))
    .unwrap();
    assert_eq!(graph.dependencies(0), Some([].as_slice()));
    assert_eq!(graph.dependencies(1), Some([0].as_slice()));
    assert_eq!(graph.dependencies(2), Some([0].as_slice()));
    assert_eq!(graph.dependencies(3), Some([0, 1, 2].as_slice()));
    assert_eq!(graph.dependencies(4), Some([3].as_slice()));
    assert_eq!(graph.dependencies(5), Some([2].as_slice()));
    assert_eq!(graph.dependencies(6), None);
}

#[test]
fn conflicting_uses_are_ordered_through_an_intervening_writer() {
    // Node 2 does not wait for node 0 directly, but through node 1.
    let graph = build(definition(
        vec![("a", buffer(4))],
        vec![
            node("first", vec![bind("a", AccessType::Write)]),
            node("second", vec![bind("a", AccessType::ReadWrite)]),
            node("third", vec![bind("a", AccessType::Read)]),
        ],
    ))
    .unwrap();
    assert_eq!(graph.dependencies(2), Some([1].as_slice()));
    assert_eq!(graph.dependencies(1), Some([0].as_slice()));
}

#[test]
fn nodes_are_ready_in_declaration_order() {
    let graph = build(definition(
        vec![("a", buffer(4)), ("b", buffer(4))],
        vec![
            node("w", vec![bind("a", AccessType::Write)]),
            node("x", vec![bind("b", AccessType::Write)]),
            node("r", vec![bind("a", AccessType::Read), bind("b", AccessType::Read)]),
        ],
    ))
    .unwrap();
    let mut completed = vec![false; 3];
    let mut order = Vec::new();
    while let Some(next) = graph.next_ready_node(&completed) {
        order.push(next);
        completed[next] = true;
    }
    assert_eq!(order, vec![0, 1, 2]);
    assert_eq!(graph.next_ready_node(&vec![false, false, false]), Some(0));
    assert_eq!(graph.next_ready_node(&vec![true, false, false]), Some(1));
    assert_eq!(graph.next_ready_node(&vec![false, true, false]), Some(0));
}

#[test]
fn slot_table_lists_the_slots_of_the_bindings() {
    let graph = build(definition(
        vec![("c", buffer(4)), ("a", buffer(4)), ("b", image(2, 2))],
        vec![node(
            "n",
            vec![bind("c", AccessType::Read), bind("a", AccessType::Write)],
        )],
    ))
    .unwrap();
    let table = graph.node_slot_table(0);
    assert_eq!(std::mem::size_of_val(&table), 120);
    assert_eq!(table[0], 2);
    assert_eq!(table[1], 0);
    assert!(table[2..].iter().all(|slot| *slot == 0));
}

#[test]
fn every_node_check_has_its_message() {
    let mut unnamed = node("", vec![]);
    unnamed.name.clear();
    let message = rejection(definition(vec![], vec![node("ok", vec![]), unnamed]));
    assert_eq!(message, "node 1 has an empty name");

    let mut no_kernel = node("k", vec![]);
    no_kernel.kernel.clear();
    assert_eq!(
        rejection(definition(vec![], vec![no_kernel])),
        "node `k` has an empty kernel name"
    );

    let mut zero = node("z", vec![]);
    zero.dispatch = [1, 0, 1];
    assert_eq!(
        rejection(definition(vec![], vec![zero])),
        "node `z` has a zero dispatch dimension"
    );

    assert_eq!(
        rejection(definition(
            vec![("a", buffer(4))],
            vec![node("d", vec![bind("a", AccessType::Read), bind("a", AccessType::Write)])],
        )),
        "node `d` binds resource `a` more than once"
    );

    let many: Vec<(String, ResourceDefinition)> =
        (0..31).map(|i| (format!("r{i:02}"), buffer(4))).collect();
    let bindings = many
        .iter()
        .map(|(name, _)| bind(name, AccessType::Read))
        .collect();
    let resources = many
        .iter()
        .map(|(name, definition)| (name.as_str(), definition.clone()))
        .collect();
    assert_eq!(
        rejection(definition(resources, vec![node("wide", bindings)])),
        "node `wide` binds more than 30 resources"
    );
}

#[test]
fn every_resource_check_has_its_message() {
    assert_eq!(
        rejection(definition(vec![("b", buffer(0))], vec![])),
        "buffer resource `b` must have a non-zero size"
    );
    assert_eq!(
        rejection(definition(vec![("b", resource(ResourceKind::Buffer))], vec![])),
        "buffer resource `b` must have a non-zero size"
    );
    assert_eq!(
        rejection(definition(
            vec![(
                "b",
                ResourceDefinition {
                    input: Some("data.bin".to_string()),
                    ..buffer(4)
                }
            )],
            vec![]
        )),
        "buffer resource `b` must not specify size when input is used"
    );
    assert_eq!(
        rejection(definition(
            vec![(
                "b",
                ResourceDefinition {
                    input: Some("data.bin".to_string()),
                    ..resource(ResourceKind::Buffer)
                }
            )],
            vec![]
        )),
        "the input of resource `b` was not inspected"
    );
    let many: Vec<(String, ResourceDefinition)> =
        (0..65).map(|i| (format!("r{i:02}"), buffer(4))).collect();
    let resources = many
        .iter()
        .map(|(name, definition)| (name.as_str(), definition.clone()))
        .collect();
    assert_eq!(
        rejection(definition(resources, vec![])),
        "compute graph declares more than 64 resources"
    );
}

#[test]
fn the_first_failing_resource_in_name_order_is_reported() {
    let message = rejection(definition(
        vec![("zz", buffer(0)), ("aa", image(0, 1))],
        vec![],
    ));
    assert_eq!(message, "image resource `aa` must have non-zero width and height");
}

#[test]
fn input_facts_decide_input_resources() {
    let input_image = ResourceDefinition {
        input: Some("in.png".to_string()),
        format: Some(ImageFormat::R8Unorm),
        ..resource(ResourceKind::Image)
    };
    let run = |probe: InputProbe| {
        let mut inputs = NameMap::new();
        inputs.insert("i".to_string(), probe);
        ComputeGraph::from_definition_with_base(
            definition(vec![("i", input_image.clone())], vec![]),
            ".".to_string(),
            &inputs,
        )
    };
    assert_eq!(
        run(InputProbe::Image { width: 0, height: 3 }).err().unwrap().message(),
        "image resource `i` input `in.png` has zero dimensions"
    );
    assert_eq!(
        run(InputProbe::Failed { message: "no such file".to_string() })
            .err()
            .unwrap()
            .message(),
        "image error: no such file"
    );
    assert!(run(InputProbe::Image { width: 4, height: 3 }).is_ok());

    let input_buffer = ResourceDefinition {
        input: Some("in.bin".to_string()),
        ..resource(ResourceKind::Buffer)
    };
    let mut inputs = NameMap::new();
    inputs.insert(
        "b".to_string(),
        InputProbe::Failed {
            message: "no such file".to_string(),
        },
    );
    let unreadable = ComputeGraph::from_definition_with_base(
        definition(vec![("b", input_buffer)], vec![]),
        ".".to_string(),
        &inputs,
    );
    assert_eq!(unreadable.err().unwrap().message(), "I/O error: no such file");
}

#[test]
fn thirty_bindings_fit_in_the_slot_table() {
    let many: Vec<(String, ResourceDefinition)> =
        (0..30).map(|i| (format!("r{i:02}"), buffer(4))).collect();
    let bindings = many
        .iter()
        .map(|(name, _)| bind(name, AccessType::Read))
        .collect();
    let resources = many
        .iter()
        .map(|(name, definition)| (name.as_str(), definition.clone()))
        .collect();
    let graph = build(definition(resources, vec![node("wide", bindings)])).unwrap();
    let table = graph.node_slot_table(0);
    assert!((0..30).all(|k| table[k] == k as u32));
}

#[test]
fn image_outputs_need_a_png_extension_in_any_case() {
    let with_output = |path: &str| {
        build(definition(
            vec![(
                "o",
                ResourceDefinition {
                    output: Some(path.to_string()),
                    ..image(2, 2)
                },
            )],
            vec![],
        ))
    };
    assert!(with_output("out/result.png").is_ok());
    assert!(with_output("RESULT.PNG").is_ok());
    assert!(with_output("result.Png").is_ok());
    assert!(with_output("result.raw").is_err());
    assert!(with_output(".png").is_err());
    assert!(with_output("dir.png/result").is_err());
    assert_eq!(
        with_output("result").err().unwrap().message(),
        "image resource `o` output path `result` must use a .png extension"
    );
}

fn declared(values: Vec<(&str, &str)>) -> NameMap<String> {
    let mut map = NameMap::new();
    for (name, value) in values {
        map.insert(name.to_string(), value.to_string());
    }
    map
}

fn source_with_width(width: GraphValue, arguments: Vec<(&str, &str)>) -> ComputeGraphSource {
    let mut resources = NameMap::new();
    resources.insert(
        "img".to_string(),
        ResourceSource {
            kind: ResourceKind::Image,
            width: Some(width),
            height: Some(GraphValue::Integer(1)),
            extent: None,
            size: None,
            input: None,
            format: None,
            output: None,
        },
    );
    ComputeGraphSource {
        arguments: declared(arguments),
        resources,
        nodes: vec![],
    }
}

fn resolution_message(source: ComputeGraphSource) -> String {
    source
        .resolve(&NameMap::new())
        .err()
        .expect("resolution should fail")
        .message()
}

#[test]
fn argument_references_and_their_errors() {
    let ok = source_with_width(GraphValue::Text("${w}".to_string()), vec![("w", "12")])
        .resolve(&NameMap::new())
        .unwrap();
    assert_eq!(ok.resource("img").unwrap().width, Some(12));

    assert_eq!(
        resolution_message(source_with_width(GraphValue::Text("$q".to_string()), vec![])),
        "reference to undeclared graph argument `q`"
    );
    assert_eq!(
        resolution_message(source_with_width(GraphValue::Text("12".to_string()), vec![])),
        "value `12` is neither an integer nor a `$name` argument reference"
    );
    assert_eq!(
        resolution_message(source_with_width(
            GraphValue::Text("$w".to_string()),
            vec![("w", "twelve")]
        )),
        "graph argument `w` value `twelve` is not an unsigned integer"
    );
    assert_eq!(
        resolution_message(source_with_width(
            GraphValue::Text("$w".to_string()),
            vec![("w", "4294967296")]
        )),
        "a value of `img` is out of range for its field"
    );
    assert_eq!(
        resolution_message(source_with_width(GraphValue::Integer(-1), vec![])),
        "a value of `img` is out of range for its field"
    );
    let max = source_with_width(GraphValue::Text("$w".to_string()), vec![("w", "4294967295")])
        .resolve(&NameMap::new())
        .unwrap();
    assert_eq!(max.resource("img").unwrap().width, Some(u32::MAX));
}

#[test]
fn overrides_replace_declared_values() {
    let source = source_with_width(
        GraphValue::Text("$w".to_string()),
        vec![("w", "3"), ("unused", "x")],
    );
    let resolved = source.resolve(&declared(vec![("w", "7")])).unwrap();
    assert_eq!(resolved.argument("w").unwrap(), "7");
    assert_eq!(resolved.argument("unused").unwrap(), "x");
    assert_eq!(resolved.resource("img").unwrap().width, Some(7));
}

#[test]
fn dispatch_values_are_resolved_in_order() {
    let source = ComputeGraphSource {
        arguments: declared(vec![("x", "5")]),
        resources: NameMap::new(),
        nodes: vec![ComputeNodeSource {
            name: "n".to_string(),
            shader: "n.hlsl".to_string(),
            kernel: "main".to_string(),
            dispatch: [
                GraphValue::Text("$x".to_string()),
                GraphValue::Integer(3),
                GraphValue::Text("$y".to_string()),
            ],
            bindings: vec![],
        }],
    };
    assert_eq!(
        source.resolve(&NameMap::new()).err().unwrap().message(),
        "reference to undeclared graph argument `y`"
    );
}

#[test]
fn errors_compare_by_variant() {
    let error = build(definition(vec![("b", buffer(0))], vec![])).err().unwrap();
    assert!(matches!(error, GraphError::ZeroBufferSize { ref resource } if resource == "b"));
}
