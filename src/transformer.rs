//! The content handlers that can own a path.

use vstd::prelude::*;

verus! {

/// Which content handler owns a path.
#[derive(Debug, Clone, PartialEq, Eq)]
pub enum Transformer {
    Project,
    LuauModule,
    LuauServer,
    LuauClient,
    Json,
    JsonModel,
    Toml,
    Csv,
    Plain,
    Rbxmx,
    Rbxm,
    Ignore,
    /// An override identifier that names no known handler.
    Other(String),
}

/// The runtime role of a script.
#[derive(Debug, Clone, Copy, PartialEq, Eq, Structural)]
pub enum ScriptType {
    Module,
    Server,
    Client,
}

impl Transformer {
    /// A copy of this transformer.
    pub fn duplicate(&self) -> (r: Transformer)
        ensures
            r == *self,
    {
        match self {
            Transformer::Project => Transformer::Project,
            Transformer::LuauModule => Transformer::LuauModule,
            Transformer::LuauServer => Transformer::LuauServer,
            Transformer::LuauClient => Transformer::LuauClient,
            Transformer::Json => Transformer::Json,
            Transformer::JsonModel => Transformer::JsonModel,
            Transformer::Toml => Transformer::Toml,
            Transformer::Csv => Transformer::Csv,
            Transformer::Plain => Transformer::Plain,
            Transformer::Rbxmx => Transformer::Rbxmx,
            Transformer::Rbxm => Transformer::Rbxm,
            Transformer::Ignore => Transformer::Ignore,
            Transformer::Other(name) => Transformer::Other(name.clone()),
        }
    }
}

} // verus!
