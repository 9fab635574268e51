use crate::events::Type;
use crate::logger::{discovered_message, discovered_text, line, Level, LogLine};
use crate::modules::Module;
use crate::session::Session;
use crate::domains::lemma_push_fresh_distinct;
use vstd::prelude::*;

verus! {

/// The subdomain named by the wordlist entry `word` under `domain`.
pub open spec fn subdomain_uri(word: Seq<char>, domain: Seq<char>) -> Seq<char> {
    word + "."@ + domain
}

/// The subdomain is the whole word, then '.', then the domain.
pub proof fn lemma_subdomain_uri_parts(word: Seq<char>, domain: Seq<char>)
    ensures
        subdomain_uri(word, domain).len() == word.len() + 1 + domain.len(),
        subdomain_uri(word, domain).take(word.len() as int) == word,
        subdomain_uri(word, domain)[word.len() as int] == '.',
        subdomain_uri(word, domain).skip(word.len() as int + 1) == domain,
{
    reveal_strlit(".");
    let u = subdomain_uri(word, domain);
    assert(u.take(word.len() as int) =~= word);
    assert(u.skip(word.len() as int + 1) =~= domain);
}

/// The discovered subdomains after the answer for `uri`: a reachable subdomain that was
/// not discovered yet is added at the end.
pub open spec fn after_probe(discovered: Seq<Seq<char>>, uri: Seq<char>, reachable: bool) -> Seq<Seq<char>> {
    if reachable && !discovered.contains(uri) {
        discovered.push(uri)
    } else {
        discovered
    }
}

/// The discovered subdomains after the answers for the first `n` of `uris`, the `i`-th
/// reachable when `reachable[i]` holds.
pub open spec fn after_probes(
    discovered: Seq<Seq<char>>,
    uris: Seq<Seq<char>>,
    reachable: Seq<bool>,
    n: nat,
) -> Seq<Seq<char>>
    decreases n,
{
    if n == 0 {
        discovered
    } else {
        after_probe(after_probes(discovered, uris, reachable, (n - 1) as nat), uris[n - 1], reachable[n - 1])
    }
}

/// A run over a wordlist never records a subdomain twice: when the discovered subdomains
/// hold no repetition before, they hold none after any number of answers; and what was
/// discovered before stays discovered.
pub proof fn lemma_probes_keep_distinct(
    discovered: Seq<Seq<char>>,
    uris: Seq<Seq<char>>,
    reachable: Seq<bool>,
    n: nat,
)
    requires
        discovered.no_duplicates(),
    ensures
        after_probes(discovered, uris, reachable, n).no_duplicates(),
        discovered.is_prefix_of(after_probes(discovered, uris, reachable, n)),
    decreases n,
{
    if n > 0 {
        lemma_probes_keep_distinct(discovered, uris, reachable, (n - 1) as nat);
        let before = after_probes(discovered, uris, reachable, (n - 1) as nat);
        if reachable[n - 1] && !before.contains(uris[n - 1]) {
            lemma_push_fresh_distinct(before, uris[n - 1]);
        }
    }
}

/// Looks for subdomains of the domain, one word of a wordlist at a time.
pub struct ModuleEnumerateSubdomains {}

impl Default for ModuleEnumerateSubdomains {
    fn default() -> (m: ModuleEnumerateSubdomains) {
        Self::new()
    }
}

impl ModuleEnumerateSubdomains {
    pub fn new() -> (m: ModuleEnumerateSubdomains) {
        ModuleEnumerateSubdomains {}
    }

    /// The subdomain to try for the wordlist entry `word`: "{word}.{domain}".
    pub fn target(&self, domain: &String, word: &String) -> (uri: String)
        ensures
            uri@ == subdomain_uri(word@, domain@),
    {
        let mut uri = word.clone();
        uri.append(".");
        uri.append(domain.as_str());
        uri
    }

    /// Once the request for `uri` has been made (`reachable` when it was answered at all):
    /// a reachable subdomain that the session has not discovered yet is recorded as
    /// discovered, and announced.
    pub fn on_response(&self, session: &mut Session, uri: &String, reachable: bool) -> (l: Option<LogLine>)
        ensures
            l is Some <==> reachable && !old(session).discovered().contains(uri@),
            final(session).discovered() == after_probe(old(session).discovered(), uri@, reachable),
            final(session).subscriptions() == old(session).subscriptions(),
            final(session).module_names() == old(session).module_names(),
            final(session).spec_dev_mode() == old(session).spec_dev_mode(),
            final(session).spec_options() == old(session).spec_options(),
            l matches Some(l) ==> l.level == Level::Info && l.source@ == "enumerate:subdomains"@
                && l.message@ == discovered_text(uri@, "' as a new subdomain"@),
    {
        if reachable && !session.has_discovered_subdomain(uri.clone()) {
            let l = line(
                Level::Info,
                "enumerate:subdomains",
                discovered_message(uri.as_str(), "' as a new subdomain"),
            );
            session.discover_subdomain(uri.clone());
            Some(l)
        } else {
            None
        }
    }
}

impl Module for ModuleEnumerateSubdomains {
    open spec fn spec_name(&self) -> Seq<char> {
        "enumerate:subdomains"@
    }

    open spec fn spec_description(&self) -> Seq<char> {
        "This module will aggressively try to find subdomains based on the given wordlist"@
    }

    open spec fn spec_subscribers(&self) -> Seq<Type> {
        seq![Type::DiscoveredDomain]
    }

    fn name(&self) -> (n: String) {
        String::from_str("enumerate:subdomains")
    }

    fn description(&self) -> (d: String) {
        String::from_str(
            "This module will aggressively try to find subdomains based on the given wordlist",
        )
    }

    fn subscribers(&self) -> (s: Vec<Type>) {
        let s = vec![Type::DiscoveredDomain];
        assert(s@ =~= seq![Type::DiscoveredDomain]);
        s
    }
}

} // verus!
