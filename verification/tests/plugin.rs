use echocad::plugin::{PluginError, ToolDefDto, ToolDefinition, ToolType};

#[test]
fn invalid_param_has_no_name() {
    match PluginError::invalid_param("teeth must be >= 6") {
        PluginError::InvalidParameter { name, reason } => {
            assert!(name.is_empty());
            assert_eq!(reason, "teeth must be >= 6");
        }
        other => panic!("expected InvalidParameter, got {:?}", other),
    }
}

#[test]
fn plugin_error_texts() {
    assert_eq!(PluginError::Generic("x".to_string()).to_string(), "Plugin error: x");
    assert_eq!(PluginError::MissingParameter("teeth".to_string()).to_string(), "Parameter missing: teeth");
    assert_eq!(PluginError::invalid_param("too small").to_string(), "Invalid parameter: too small");
    assert_eq!(PluginError::Geometry("open loop".to_string()).to_string(), "Geometry error: open loop");
    assert_eq!(PluginError::GeneratorNotFound("gear".to_string()).to_string(), "Generator 'gear' not found");
    assert_eq!(PluginError::Unsupported("solid".to_string()).to_string(), "Operation not supported: solid");
}

#[test]
fn tool_type_tags() {
    let t = ToolDefinition { id: "gear".to_string(), name: "Gear".to_string(), tool_type: ToolType::Sketch };
    assert_eq!(t.tool_type.tag(), "sketch");
    assert_eq!(ToolType::Solid.tag(), "solid");
}

#[test]
fn tool_dto_carries_plugin_and_tag() {
    let t = ToolDefinition { id: "cyc".to_string(), name: "Cycloidal".to_string(), tool_type: ToolType::Solid };
    let d = ToolDefDto::from_tool("cycloidal", t);
    assert_eq!(d.plugin_id, "cycloidal");
    assert_eq!(d.id, "cyc");
    assert_eq!(d.name, "Cycloidal");
    assert_eq!(d.tool_type, "solid");
}
