use vstd::prelude::*;

verus! {

/// How loud a log line is.
#[derive(Debug, Clone, Copy, PartialEq, Eq, Structural)]
pub enum Level {
    Info,
    Error,
    Debug,
}

/// One line for the log: the module that speaks, and what it says.
pub struct LogLine {
    pub level: Level,
    pub source: String,
    pub message: String,
}

/// A line at the given level from `source`, saying `message`.
pub fn line(level: Level, source: &str, message: String) -> (l: LogLine)
    ensures
        l.level == level,
        l.source@ == source@,
        l.message@ == message@,
{
    LogLine { level, source: String::from_str(source), message }
}

} // verus!

verus! {

/// "Discovered '" followed by `name`, then `rest`.
pub open spec fn discovered_text(name: Seq<char>, rest: Seq<char>) -> Seq<char> {
    "Discovered '"@ + name + rest
}

/// The text "Discovered '{name}{rest}".
pub fn discovered_message(name: &str, rest: &str) -> (m: String)
    ensures
        m@ == discovered_text(name@, rest@),
{
    let mut m = String::from_str("Discovered '");
    m.append(name);
    m.append(rest);
    m
}

/// The announcement text is "Discovered '" (twelve characters), then the whole name, then
/// the rest.
pub proof fn lemma_discovered_text_parts(name: Seq<char>, rest: Seq<char>)
    ensures
        discovered_text(name, rest).len() == 12 + name.len() + rest.len(),
        discovered_text(name, rest).take(12) == "Discovered '"@,
        discovered_text(name, rest).subrange(12, 12 + name.len() as int) == name,
        discovered_text(name, rest).skip(12 + name.len() as int) == rest,
{
    reveal_strlit("Discovered '");
    let t = discovered_text(name, rest);
    assert(t.take(12) =~= "Discovered '"@);
    assert(t.subrange(12, 12 + name.len() as int) =~= name);
    assert(t.skip(12 + name.len() as int) =~= rest);
}

} // verus!
