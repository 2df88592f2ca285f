//! The plugin interface: what a plugin tells the host about itself (its
//! generators, their parameters, its toolbar tools), the errors it reports,
//! and the trait plugins implement.
//!
//! Real-valued parameter data are `f64` bit patterns.

use vstd::prelude::*;

use crate::mesh::Mesh;
use crate::sketch::Sketch;

verus! {

/// Errors a plugin reports.
#[derive(Debug)]
pub enum PluginError {
    Generic(String),
    MissingParameter(String),
    InvalidParameter { name: String, reason: String },
    Geometry(String),
    GeneratorNotFound(String),
    Unsupported(String),
}

/// The human-readable text of a plugin error.
pub open spec fn plugin_error_text(e: PluginError) -> Seq<char> {
    match e {
        PluginError::Generic(m) => "Plugin error: "@ + m@,
        PluginError::MissingParameter(m) => "Parameter missing: "@ + m@,
        PluginError::InvalidParameter { reason, .. } => "Invalid parameter: "@ + reason@,
        PluginError::Geometry(m) => "Geometry error: "@ + m@,
        PluginError::GeneratorNotFound(m) => "Generator '"@ + m@ + "' not found"@,
        PluginError::Unsupported(m) => "Operation not supported: "@ + m@,
    }
}

impl PluginError {
    /// An `InvalidParameter` error with no parameter name, for callers that
    /// only have a single message.
    pub fn invalid_param(reason: &str) -> (e: Self)
        ensures
            e matches PluginError::InvalidParameter { name, reason: r } && name@.len() == 0 && r@
                == reason@,
    {
        PluginError::InvalidParameter { name: String::new(), reason: reason.to_owned() }
    }

    /// The human-readable text of the error.
    pub fn to_string(&self) -> (s: String)
        ensures
            s@ == plugin_error_text(*self),
    {
        match self {
            PluginError::Generic(m) => {
                let mut s = "Plugin error: ".to_owned();
                s.append(m.as_str());
                s
            },
            PluginError::MissingParameter(m) => {
                let mut s = "Parameter missing: ".to_owned();
                s.append(m.as_str());
                s
            },
            PluginError::InvalidParameter { reason, .. } => {
                let mut s = "Invalid parameter: ".to_owned();
                s.append(reason.as_str());
                s
            },
            PluginError::Geometry(m) => {
                let mut s = "Geometry error: ".to_owned();
                s.append(m.as_str());
                s
            },
            PluginError::GeneratorNotFound(m) => {
                let mut s = "Generator '".to_owned();
                s.append(m.as_str());
                s.append("' not found");
                s
            },
            PluginError::Unsupported(m) => {
                let mut s = "Operation not supported: ".to_owned();
                s.append(m.as_str());
                s
            },
        }
    }
}

/// Kind of UI tool a plugin contributes.
#[derive(Debug, Clone, Copy, PartialEq, Eq, Structural)]
pub enum ToolType {
    Sketch,
    Solid,
}

/// A tool that appears in the UI toolbar.
#[derive(Debug, Clone)]
pub struct ToolDefinition {
    pub id: String,
    pub name: String,
    pub tool_type: ToolType,
}

impl ToolType {
    /// The lower-case tag under which the frontend knows the tool type.
    pub fn tag(&self) -> (s: &'static str)
        ensures
            s@ == match *self {
                ToolType::Sketch => "sketch"@,
                ToolType::Solid => "solid"@,
            },
    {
        match self {
            ToolType::Sketch => "sketch",
            ToolType::Solid => "solid",
        }
    }
}

/// A plugin tool as the frontend lists it: the owning plugin, the tool and
/// its type tag.
#[derive(Debug, Clone)]
pub struct ToolDefDto {
    pub plugin_id: String,
    pub id: String,
    pub name: String,
    pub tool_type: String,
}

impl ToolDefDto {
    /// Lists the tool `t` of the plugin `plugin_id`.
    pub fn from_tool(plugin_id: &str, t: ToolDefinition) -> (d: Self)
        ensures
            d.plugin_id@ == plugin_id@,
            d.id@ == t.id@,
            d.name@ == t.name@,
            d.tool_type@ == match t.tool_type {
                ToolType::Sketch => "sketch"@,
                ToolType::Solid => "solid"@,
            },
    {
        let tag = t.tool_type.tag();
        ToolDefDto {
            plugin_id: plugin_id.to_owned(),
            id: t.id,
            name: t.name,
            tool_type: tag.to_owned(),
        }
    }
}

/// Describes a parameter accepted by a feature generator (values are
/// `f64` bit patterns).
#[derive(Debug, Clone)]
pub struct ParamDef {
    pub id: String,
    pub name: String,
    pub description: String,
    pub default_value: u64,
    pub min: Option<u64>,
    pub max: Option<u64>,
    pub step: u64,
}

/// A feature generator a plugin provides.
#[derive(Debug, Clone)]
pub struct GeneratorInfo {
    pub id: String,
    pub name: String,
    pub description: String,
    pub icon: String,
    pub parameters: Vec<ParamDef>,
}

/// What a plugin tells the frontend about itself.
#[derive(Debug, Clone)]
pub struct PluginInfo {
    pub id: String,
    pub name: String,
    pub version: String,
    pub description: String,
    pub generators: Vec<GeneratorInfo>,
    pub tools: Vec<ToolDefinition>,
}

/// The trait plugins implement to extend the application. Parameters are
/// passed by name, values as `f64` bit patterns.
pub trait Plugin {
    fn id(&self) -> &str;

    fn name(&self) -> &str;

    fn version(&self) -> &str;

    fn description(&self) -> &str;

    /// Called once when the plugin is loaded.
    fn on_init(&mut self) -> (r: Result<(), PluginError>)
        default_ensures
            r is Ok,
    {
        Ok(())
    }

    /// Feature generators this plugin provides.
    fn generators(&self) -> (r: Vec<GeneratorInfo>)
        default_ensures
            r@.len() == 0,
    {
        Vec::new()
    }

    /// Generate the sketch for a feature generator.
    fn generate_sketch(&self, generator_id: &str, params: &Vec<(String, u64)>) -> (r: Result<
        Sketch,
        PluginError,
    >)
        default_ensures
            r matches Err(PluginError::Generic(m)) && m@ == "not implemented"@,
    {
        Err(PluginError::Generic("not implemented".to_owned()))
    }

    /// Generate a solid (triangle mesh) directly from a feature generator.
    fn generate_solid(&self, generator_id: &str, params: &Vec<(String, u64)>) -> (r: Result<
        Mesh,
        PluginError,
    >)
        default_ensures
            r matches Err(PluginError::Generic(m)) && m@ == "solid generation not supported"@,
    {
        Err(PluginError::Generic("solid generation not supported".to_owned()))
    }

    /// UI tools this plugin contributes.
    fn tools(&self) -> (r: Vec<ToolDefinition>)
        default_ensures
            r@.len() == 0,
    {
        Vec::new()
    }

    /// Collect plugin metadata for the frontend.
    fn info(&self) -> (r: PluginInfo)
        default_ensures
            exists|s: &str| call_ensures(Self::id, (self,), s) && r.id@ == s@,
            exists|s: &str| call_ensures(Self::name, (self,), s) && r.name@ == s@,
            exists|s: &str| call_ensures(Self::version, (self,), s) && r.version@ == s@,
            exists|s: &str| call_ensures(Self::description, (self,), s) && r.description@ == s@,
            call_ensures(Self::generators, (self,), r.generators),
            call_ensures(Self::tools, (self,), r.tools),
    {
        PluginInfo {
            id: self.id().to_owned(),
            name: self.name().to_owned(),
            version: self.version().to_owned(),
            description: self.description().to_owned(),
            generators: self.generators(),
            tools: self.tools(),
        }
    }
}

/// The value of parameter `def` in `params`, or its default when absent.
pub fn resolve_param(params: &Vec<(String, u64)>, def: &ParamDef) -> (v: u64)
    ensures
        match first_named(params@, def.id@, 0) {
            Some(k) => v == params@[k].1,
            None => v == def.default_value,
        },
{
    let mut k: usize = 0;
    while k < params.len()
        invariant
            k <= params@.len(),
            first_named(params@, def.id@, 0) == first_named(params@, def.id@, k as int),
        decreases params@.len() - k,
    {
        if params[k].0 == def.id {
            return params[k].1;
        }
        k = k + 1;
    }
    def.default_value
}

/// The position of the first parameter named `name`, at or after `k`.
pub open spec fn first_named(params: Seq<(String, u64)>, name: Seq<char>, k: int) -> Option<int>
    decreases params.len() - k,
{
    if k < 0 || k >= params.len() {
        None
    } else if params[k].0@ == name {
        Some(k)
    } else {
        first_named(params, name, k + 1)
    }
}

} // verus!
