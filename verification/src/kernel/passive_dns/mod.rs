use crate::crt_sh::{first_name, first_name_of, CrtShItem};
use crate::text::{lemma_split_first, split_on, strip_wildcard};
use crate::domains::{fresh_names, lemma_concat_contains, lemma_concat_distinct, lemma_fresh_names, DomainList};
use crate::events::{all_owned, arg_texts, EventArg, Type};
use crate::logger::{discovered_message, discovered_text, line, Level, LogLine};
use crate::modules::events_log::ModuleEventsLog;
use crate::modules::Module;
use crate::modules::passive_dns::crt_sh_url;
use vstd::prelude::*;

verus! {

/// The first name of each certificate, in order.
pub open spec fn first_names(items: Seq<CrtShItem>) -> Seq<Seq<char>> {
    items.map_values(|it: CrtShItem| first_name(it.name_value@))
}

/// The arguments of the `Log` event that announces the subdomain `name`.
pub open spec fn announcement(name: Seq<char>) -> Seq<Seq<char>> {
    seq!["dns:passive"@, discovered_text(name, "' as a new subdomain"@)]
}

/// `out` are the announcements of `names`, one for one.
pub open spec fn announces(out: Seq<Vec<EventArg>>, names: Seq<Seq<char>>) -> bool {
    &&& out.len() == names.len()
    &&& forall|k: int|
        0 <= k < out.len() ==> arg_texts((#[trigger] out[k])@) == announcement(names[k]) && all_owned(
            out[k]@,
        )
}

/// The name taken from each certificate is its first line (the text up to the first
/// newline, or all of it), without a leading "*.".
pub proof fn lemma_first_names_first_line(items: Seq<CrtShItem>, i: int, k: int)
    requires
        0 <= i < items.len(),
        0 <= k <= items[i].name_value@.len(),
        !items[i].name_value@.take(k).contains('\n'),
        k == items[i].name_value@.len() || items[i].name_value@[k] == '\n',
    ensures
        first_names(items)[i] == strip_wildcard(items[i].name_value@.take(k)),
        first_names(items).len() == items.len(),
{
    let s = items[i].name_value@;
    lemma_split_first(s, '\n');
    let p = split_on(s, '\n')[0];
    let k0 = p.len() as int;
    if k < k0 {
        assert(p[k] == s[k]);
        assert(p.contains('\n'));
    } else if k > k0 {
        assert(s.take(k)[k0] == s[k0]);
        assert(s.take(k).contains('\n'));
    }
}

/// The module never announces a subdomain twice: when the announced subdomains hold no
/// repetition, adding the new names of any answer keeps it so.
pub proof fn lemma_announcements_keep_distinct(
    discovered: Seq<Seq<char>>,
    names: Seq<Seq<char>>,
    domain: Seq<char>,
    n: nat,
)
    requires
        discovered.no_duplicates(),
        n <= names.len(),
    ensures
        (discovered + fresh_names(names, domain, discovered, n)).no_duplicates(),
{
    lemma_fresh_names(names, domain, discovered, n);
    let f = fresh_names(names, domain, discovered, n);
    assert forall|k: int| 0 <= k < f.len() implies !discovered.contains(#[trigger] f[k]) by {}
    lemma_concat_distinct(discovered, f);
}

/// Finds subdomains of a domain passively, in the certificates that crt.sh has logged for
/// it, and announces them through `Log` events.
pub struct ModulePassiveDNS {
    discovered_domains: DomainList,
    processed_domains: DomainList,
}

impl Default for ModulePassiveDNS {
    fn default() -> (m: ModulePassiveDNS)
        ensures
            m.discovered() == Seq::<Seq<char>>::empty(),
            m.processed() == Seq::<Seq<char>>::empty(),
    {
        Self::new()
    }
}

impl ModulePassiveDNS {
    /// The subdomains announced so far, in order.
    pub closed spec fn discovered(&self) -> Seq<Seq<char>> {
        self.discovered_domains@
    }

    /// The domains queried so far, in order.
    pub closed spec fn processed(&self) -> Seq<Seq<char>> {
        self.processed_domains@
    }

    pub fn new() -> (m: ModulePassiveDNS)
        ensures
            m.discovered() == Seq::<Seq<char>>::empty(),
            m.processed() == Seq::<Seq<char>>::empty(),
    {
        ModulePassiveDNS { discovered_domains: DomainList::new(), processed_domains: DomainList::new() }
    }

    /// The arguments of a `DiscoveredDomain` event for `domain`, as a string built at run
    /// time. (`prepare` takes its domain only as a string literal, so it does not accept
    /// these arguments.)
    pub fn new_args(domain: String) -> (args: Vec<EventArg>)
        ensures
            arg_texts(args@) == seq![domain@],
            all_owned(args@),
    {
        let ghost d = domain@;
        let args = vec![EventArg::Owned(domain)];
        assert(arg_texts(args@) =~= seq![d]);
        args
    }

    /// Records `domain` as queried.
    pub fn process(&mut self, domain: String)
        ensures
            final(self).processed() == old(self).processed().push(domain@),
            final(self).discovered() == old(self).discovered(),
    {
        self.processed_domains.push(domain)
    }

    /// Whether `domain` has been queried.
    pub fn has_processed(&self, domain: String) -> (b: bool)
        ensures
            b == self.processed().contains(domain@),
    {
        self.processed_domains.contains(&domain)
    }

    /// Records `domain` as announced.
    pub fn discover(&mut self, domain: String)
        ensures
            final(self).discovered() == old(self).discovered().push(domain@),
            final(self).processed() == old(self).processed(),
    {
        self.discovered_domains.push(domain)
    }

    /// Whether `domain` has been announced.
    pub fn has_discovered(&self, domain: String) -> (b: bool)
        ensures
            b == self.discovered().contains(domain@),
    {
        self.discovered_domains.contains(&domain)
    }

    /// Starts the work on the domain `args[0]` of a `DiscoveredDomain` event, which must be a
    /// string literal: nothing when it has been queried before; otherwise it is recorded as
    /// queried and the crt.sh query to make is returned.
    pub fn prepare(&mut self, args: &Vec<EventArg>) -> (url: Option<String>)
        requires
            args.len() >= 1,
            args[0] is Static,
        ensures
            url is None <==> old(self).processed().contains(args[0].text()),
            final(self).processed() == (if url is None {
                old(self).processed()
            } else {
                old(self).processed().push(args[0].text())
            }),
            final(self).discovered() == old(self).discovered(),
            url matches Some(u) ==> u@ == crt_sh_url(args[0].text()),
    {
        let domain = match &args[0] {
            EventArg::Static(s) => String::from_str(s),
            EventArg::Owned(s) => s.clone(),
        };
        if self.has_processed(domain.clone()) {
            return None;
        }
        self.process(domain.clone());
        let mut url = String::from_str("https://crt.sh/?q=");
        url.append(domain.as_str());
        url.append("&output=json");
        Some(url)
    }

    /// The announcements for the certificates `items` that crt.sh listed for `domain`: the
    /// first name of each certificate, unless it is `domain` itself or was announced before,
    /// is announced and recorded as announced.
    pub fn handle_items(&mut self, domain: &String, items: &Vec<CrtShItem>) -> (out: Vec<Vec<EventArg>>)
        ensures
            ({
                let fresh = fresh_names(first_names(items@), domain@, old(self).discovered(), items@.len());
                &&& final(self).discovered() == old(self).discovered() + fresh
                &&& announces(out@, fresh)
            }),
            final(self).processed() == old(self).processed(),
    {
        let ghost names = first_names(items@);
        let ghost d0 = self.discovered();
        let mut out: Vec<Vec<EventArg>> = Vec::new();
        let n = items.len();
        let mut i: usize = 0;
        assert(d0 + fresh_names(names, domain@, d0, 0) =~= d0);
        while i < n
            invariant
                n == items@.len(),
                i <= n,
                names == first_names(items@),
                self.discovered() == d0 + fresh_names(names, domain@, d0, i as nat),
                announces(out@, fresh_names(names, domain@, d0, i as nat)),
                self.processed() == old(self).processed(),
            decreases n - i,
        {
            let name = first_name_of(&items[i].name_value);
            assert(names[i as int] == name@);
            let ghost f = fresh_names(names, domain@, d0, i as nat);
            proof {
                lemma_concat_contains(d0, f, name@);
            }
            if !(name == *domain) && !self.has_discovered(name.clone()) {
                let message = discovered_message(name.as_str(), "' as a new subdomain");
                let args = ModuleEventsLog::new_args(String::from_str("dns:passive"), message);
                out.push(args);
                self.discover(name);
                assert(self.discovered() =~= d0 + f.push(name@));
            }
            i = i + 1;
        }
        out
    }

    /// What follows the answer to the crt.sh query for `domain`: the announcements of
    /// [`Self::handle_items`] when crt.sh answered (`Some`, with the certificates it listed),
    /// the error line to log otherwise.
    pub fn handle_response(&mut self, domain: &String, response: Option<&Vec<CrtShItem>>) -> (r: Result<Vec<Vec<EventArg>>, LogLine>)
        ensures
            response is None ==> (r matches Err(l) && l.level == Level::Error && l.source@
                == "dns:passive"@ && l.message@ == "Failed performing a request to crt.sh"@
                && final(self).discovered() == old(self).discovered()),
            response matches Some(items) ==> ({
                let fresh = fresh_names(first_names(items@), domain@, old(self).discovered(), items@.len());
                &&& r matches Ok(out)
                &&& final(self).discovered() == old(self).discovered() + fresh
                &&& announces(out@, fresh)
            }),
            final(self).processed() == old(self).processed(),
    {
        match response {
            Some(items) => Ok(self.handle_items(domain, items)),
            None => Err(line(Level::Error, "dns:passive", String::from_str("Failed performing a request to crt.sh"))),
        }
    }
}

impl Module for ModulePassiveDNS {
    open spec fn spec_name(&self) -> Seq<char> {
        "dns:passive"@
    }

    open spec fn spec_description(&self) -> Seq<char> {
        "This module will use crt.sh to discover new domains perform a passive discovery"@
    }

    open spec fn spec_subscribers(&self) -> Seq<Type> {
        seq![Type::DiscoveredDomain]
    }

    fn name(&self) -> (n: String) {
        String::from_str("dns:passive")
    }

    fn description(&self) -> (d: String) {
        String::from_str("This module will use crt.sh to discover new domains perform a passive discovery")
    }

    fn subscribers(&self) -> (s: Vec<Type>) {
        let s = vec![Type::DiscoveredDomain];
        assert(s@ =~= seq![Type::DiscoveredDomain]);
        s
    }
}

} // verus!
