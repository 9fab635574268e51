use crate::events::Type;
use crate::logger::{line, Level, LogLine};
use crate::modules::Module;
use crate::session::Session;
use vstd::prelude::*;

verus! {

/// Announces that the session is ready.
pub struct ModuleReady {}

impl Default for ModuleReady {
    fn default() -> (m: ModuleReady) {
        Self::new()
    }
}

impl ModuleReady {
    pub fn new() -> (m: ModuleReady) {
        ModuleReady {}
    }

    /// The announcement this module makes when the session is ready.
    pub fn execute(&self, _session: &Session) -> (l: LogLine)
        ensures
            l.level == Level::Info,
            l.source@ == "ready"@,
            l.message@ == "Project Serpens is now ready and will start doing its magic!"@,
    {
        line(
            Level::Info,
            "ready",
            String::from_str("Project Serpens is now ready and will start doing its magic!"),
        )
    }
}

impl Module for ModuleReady {
    open spec fn spec_name(&self) -> Seq<char> {
        "ready"@
    }

    open spec fn spec_description(&self) -> Seq<char> {
        "This module is responsible to know when Project Serpens is ready and will start to do the work"@
    }

    open spec fn spec_subscribers(&self) -> Seq<Type> {
        seq![Type::Ready]
    }

    fn name(&self) -> (n: String) {
        String::from_str("ready")
    }

    fn description(&self) -> (d: String) {
        String::from_str(
            "This module is responsible to know when Project Serpens is ready and will start to do the work",
        )
    }

    fn subscribers(&self) -> (s: Vec<Type>) {
        let s = vec![Type::Ready];
        assert(s@ =~= seq![Type::Ready]);
        s
    }
}

} // verus!
