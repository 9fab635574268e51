use vstd::prelude::*;

verus! {

/// The kinds of events that flow through a session.
#[derive(Debug, Clone, Copy, PartialEq, Eq, Structural, Hash)]
pub enum Type {
    Log,
    Ready,
    DiscoveredDomain,
}

/// The text by which an event kind is shown.
pub open spec fn type_label(t: Type) -> Seq<char> {
    match t {
        Type::Log => "log"@,
        Type::Ready => "ready"@,
        Type::DiscoveredDomain => "discovered:domain"@,
    }
}

impl Type {
    /// The text by which this event kind is shown ("log", "ready" or "discovered:domain").
    pub fn label(&self) -> (s: String)
        ensures
            s@ == type_label(*self),
    {
        match self {
            Type::Log => String::from_str("log"),
            Type::Ready => String::from_str("ready"),
            Type::DiscoveredDomain => String::from_str("discovered:domain"),
        }
    }
}

/// Two different event kinds never share a label.
pub proof fn lemma_labels_distinct(a: Type, b: Type)
    requires
        a != b,
    ensures
        type_label(a) != type_label(b),
{
    reveal_strlit("log");
    reveal_strlit("ready");
    reveal_strlit("discovered:domain");
    if type_label(a) == type_label(b) {
        match (a, b) {
            (Type::Log, Type::Ready) => { assert(type_label(a)[0] != type_label(b)[0]); },
            (Type::Ready, Type::Log) => { assert(type_label(a)[0] != type_label(b)[0]); },
            (Type::Log, Type::DiscoveredDomain) => { assert(type_label(a)[0] != type_label(b)[0]); },
            (Type::DiscoveredDomain, Type::Log) => { assert(type_label(a)[0] != type_label(b)[0]); },
            (Type::Ready, Type::DiscoveredDomain) => { assert(type_label(a)[0] != type_label(b)[0]); },
            (Type::DiscoveredDomain, Type::Ready) => { assert(type_label(a)[0] != type_label(b)[0]); },
            _ => {},
        }
    }
}

/// One argument carried by an event: a string literal, or a string built at run time.
/// A module that reads an argument expects one of the two, and cannot use the other.
#[derive(Debug, Clone, PartialEq, Eq)]
pub enum EventArg {
    Static(&'static str),
    Owned(String),
}

impl EventArg {
    /// The text of the argument, whichever kind it is.
    pub open spec fn text(&self) -> Seq<char> {
        match self {
            EventArg::Static(s) => s@,
            EventArg::Owned(s) => s@,
        }
    }
}

/// The texts of a list of arguments.
pub open spec fn arg_texts(args: Seq<EventArg>) -> Seq<Seq<char>> {
    args.map_values(|a: EventArg| a.text())
}

/// Every argument in `args` is a string built at run time.
pub open spec fn all_owned(args: Seq<EventArg>) -> bool {
    forall|i: int| 0 <= i < args.len() ==> (#[trigger] args[i]) is Owned
}

} // verus!
