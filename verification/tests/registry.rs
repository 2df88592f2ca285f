use echocad::mesh::Mesh;
use echocad::plugin::{resolve_param, GeneratorInfo, ParamDef, Plugin, PluginError, ToolDefinition, ToolType};
use echocad::registry::PluginRegistry;

/// A minimal plugin that only implements `generate_solid`.
struct StubSolidPlugin;

impl Plugin for StubSolidPlugin {
    fn id(&self) -> &str {
        "stub.solid"
    }
    fn name(&self) -> &str {
        "Stub Solid"
    }
    fn version(&self) -> &str {
        "0.0.1"
    }
    fn description(&self) -> &str {
        "test plugin"
    }

    fn generate_solid(&self, generator_id: &str, _params: &Vec<(String, u64)>) -> Result<Mesh, PluginError> {
        if generator_id != "cube" {
            return Err(PluginError::Generic(format!("unknown generator: {}", generator_id)));
        }
        let f = |v: &[f32]| v.iter().map(|x| x.to_bits()).collect::<Vec<u32>>();
        Ok(Mesh {
            positions: f(&[0.0, 0.0, 0.0, 1.0, 0.0, 0.0, 1.0, 1.0, 0.0, 0.0, 1.0, 0.0]),
            normals: f(&[0.0, 0.0, 1.0, 0.0, 0.0, 1.0, 0.0, 0.0, 1.0, 0.0, 0.0, 1.0]),
            indices: vec![0, 1, 2, 0, 2, 3],
        })
    }

    fn tools(&self) -> Vec<ToolDefinition> {
        vec![ToolDefinition { id: "stub_tool".to_string(), name: "Stub".to_string(), tool_type: ToolType::Solid }]
    }

    fn generators(&self) -> Vec<GeneratorInfo> {
        vec![GeneratorInfo {
            id: "cube".to_string(),
            name: "Cube".to_string(),
            description: "unit cube".to_string(),
            icon: "cube".to_string(),
            parameters: vec![ParamDef {
                id: "size".to_string(),
                name: "Size".to_string(),
                description: "edge length".to_string(),
                default_value: 1.0f64.to_bits(),
                min: None,
                max: None,
                step: 0.5f64.to_bits(),
            }],
        }]
    }
}

/// A plugin that provides nothing but the required metadata.
struct SketchOnly;

impl Plugin for SketchOnly {
    fn id(&self) -> &str {
        "sketch.only"
    }
    fn name(&self) -> &str {
        "SketchOnly"
    }
    fn version(&self) -> &str {
        "0.0.1"
    }
    fn description(&self) -> &str {
        "no solid"
    }
}

/// A plugin whose initialisation fails.
struct Broken;

impl Plugin for Broken {
    fn id(&self) -> &str {
        "broken"
    }
    fn name(&self) -> &str {
        "Broken"
    }
    fn version(&self) -> &str {
        "0"
    }
    fn description(&self) -> &str {
        ""
    }
    fn on_init(&mut self) -> Result<(), PluginError> {
        Err(PluginError::Generic("cannot start".to_string()))
    }
}

#[test]
fn default_generate_solid_returns_not_supported() {
    let plugin = SketchOnly;
    let params = Vec::new();
    let err = plugin.generate_solid("anything", &params).unwrap_err();
    match err {
        PluginError::Generic(msg) => assert!(msg.contains("not supported"), "got: {}", msg),
        other => panic!("expected Generic, got {:?}", other),
    }
}

#[test]
fn registry_generate_solid_dispatches_to_plugin() {
    let mut registry = PluginRegistry::new();
    registry.register(StubSolidPlugin).unwrap();
    let params = Vec::new();
    let mesh = registry.generate_solid("stub.solid", "cube", &params).expect("mesh");
    assert_eq!(mesh.vertex_count(), 4);
    assert_eq!(mesh.indices.len(), 6);
}

#[test]
fn registry_generate_solid_errors_when_plugin_missing() {
    let registry: PluginRegistry<StubSolidPlugin> = PluginRegistry::new();
    let params = Vec::new();
    let err = registry.generate_solid("does.not.exist", "cube", &params).unwrap_err();
    assert!(matches!(err, PluginError::Generic(_)));
}

#[test]
fn registry_generate_solid_propagates_generator_error() {
    let mut registry = PluginRegistry::new();
    registry.register(StubSolidPlugin).unwrap();
    let params = Vec::new();
    let err = registry.generate_solid("stub.solid", "missing_gen", &params).unwrap_err();
    match err {
        PluginError::Generic(msg) => assert!(msg.contains("unknown generator"), "got: {}", msg),
        other => panic!("expected Generic, got {:?}", other),
    }
}

#[test]
fn registry_lists_and_finds() {
    let mut registry = PluginRegistry::new();
    registry.register(StubSolidPlugin).unwrap();
    let tools = registry.list_tools();
    assert_eq!(tools.len(), 1);
    assert_eq!(tools[0].0, "stub.solid");
    assert_eq!(tools[0].1.id, "stub_tool");
    let gens = registry.list_generators();
    assert_eq!(gens.len(), 1);
    assert_eq!(gens[0].0, "stub.solid");
    assert_eq!(gens[0].1.id, "cube");
    assert!(registry.find_generator("stub.solid", "cube").is_some());
    assert!(registry.find_generator("stub.solid", "sphere").is_none());
    assert!(registry.find_generator("other", "cube").is_none());
    let params = registry.generator_params("stub.solid", "cube");
    assert_eq!(params.len(), 1);
    assert!(registry.generator_params("other", "cube").is_empty());
    let infos = registry.list_plugins();
    assert_eq!(infos.len(), 1);
    assert_eq!(infos[0].id, "stub.solid");
    assert_eq!(infos[0].version, "0.0.1");
    assert_eq!(infos[0].tools.len(), 1);
    match registry.generate_sketch("nope", "cube", &Vec::new()) {
        Err(PluginError::Generic(m)) => assert_eq!(m, "Plugin 'nope' not found"),
        other => panic!("expected Generic, got {:?}", other.map(|_| ())),
    }
    // The stub does not generate sketches.
    match registry.generate_sketch("stub.solid", "cube", &Vec::new()) {
        Err(PluginError::Generic(m)) => assert_eq!(m, "not implemented"),
        other => panic!("expected Generic, got {:?}", other.map(|_| ())),
    }
}

#[test]
fn failed_initialisation_is_not_registered() {
    let mut registry = PluginRegistry::new();
    assert!(registry.register(Broken).is_err());
    assert!(registry.list_plugins().is_empty());
}

#[test]
fn parameters_resolve_to_given_value_or_default() {
    let def = ParamDef {
        id: "teeth".to_string(),
        name: "Teeth".to_string(),
        description: String::new(),
        default_value: 20.0f64.to_bits(),
        min: None,
        max: None,
        step: 1.0f64.to_bits(),
    };
    assert_eq!(resolve_param(&Vec::new(), &def), 20.0f64.to_bits());
    let given = vec![("module".to_string(), 2.0f64.to_bits()), ("teeth".to_string(), 31.0f64.to_bits())];
    assert_eq!(resolve_param(&given, &def), 31.0f64.to_bits());
}

#[test]
fn register_initialized_passes_on_the_initialisation_error() {
    let mut registry: PluginRegistry<SketchOnly> = PluginRegistry::new();
    let r = registry.register_initialized(SketchOnly, Err(PluginError::Generic("no licence".to_string())));
    match r {
        Err(PluginError::Generic(m)) => assert_eq!(m, "no licence"),
        other => panic!("unexpected {:?}", other),
    }
    assert!(registry.list_plugins().is_empty());
}

#[test]
fn register_initialized_appends_under_the_reported_id() {
    let mut registry: PluginRegistry<SketchOnly> = PluginRegistry::new();
    assert!(registry.register_initialized(SketchOnly, Ok(())).is_ok());
    assert!(registry.register_initialized(SketchOnly, Ok(())).is_ok());
    let infos = registry.list_plugins();
    assert_eq!(infos.len(), 2);
    assert_eq!(infos[0].id, SketchOnly.id());
    assert_eq!(infos[1].id, SketchOnly.id());
}
