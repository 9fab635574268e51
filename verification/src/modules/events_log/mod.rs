use crate::events::{all_owned, arg_texts, EventArg, Type};
use crate::logger::{Level, LogLine};
use crate::modules::Module;
use crate::session::Session;
use vstd::prelude::*;

verus! {

/// Writes the log lines that other modules ask for through `Log` events.
pub struct ModuleEventsLog {}

impl Default for ModuleEventsLog {
    fn default() -> (m: ModuleEventsLog) {
        Self::new()
    }
}

impl ModuleEventsLog {
    pub fn new() -> (m: ModuleEventsLog) {
        ModuleEventsLog {}
    }

    /// The arguments of a `Log` event: the name to log under, then the message, both as
    /// strings built at run time.
    pub fn new_args(name: String, message: String) -> (args: Vec<EventArg>)
        ensures
            arg_texts(args@) == seq![name@, message@],
            all_owned(args@),
    {
        let ghost (n, m) = (name@, message@);
        let args = vec![EventArg::Owned(name), EventArg::Owned(message)];
        assert(arg_texts(args@) =~= seq![n, m]);
        args
    }

    /// The line that a `Log` event with `args` asks for: it is said by `args[0]` and
    /// says `args[1]`; both must be strings built at run time.
    pub fn execute(&self, _session: &Session, args: &Vec<EventArg>) -> (l: LogLine)
        requires
            args.len() >= 2,
            args[0] is Owned,
            args[1] is Owned,
        ensures
            l.level == Level::Info,
            l.source@ == args[0].text(),
            l.message@ == args[1].text(),
    {
        let source = match &args[0] {
            EventArg::Owned(s) => s.clone(),
            EventArg::Static(s) => String::from_str(s),
        };
        let message = match &args[1] {
            EventArg::Owned(s) => s.clone(),
            EventArg::Static(s) => String::from_str(s),
        };
        LogLine { level: Level::Info, source, message }
    }
}

impl Module for ModuleEventsLog {
    open spec fn spec_name(&self) -> Seq<char> {
        "events.log"@
    }

    open spec fn spec_description(&self) -> Seq<char> {
        "This module handles the logs to perform"@
    }

    open spec fn spec_subscribers(&self) -> Seq<Type> {
        seq![Type::Log]
    }

    fn name(&self) -> (n: String) {
        String::from_str("events.log")
    }

    fn description(&self) -> (d: String) {
        String::from_str("This module handles the logs to perform")
    }

    fn subscribers(&self) -> (s: Vec<Type>) {
        let s = vec![Type::Log];
        assert(s@ =~= seq![Type::Log]);
        s
    }
}

} // verus!
