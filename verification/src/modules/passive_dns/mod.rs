use crate::crt_sh::{
    certificate_status, current_time, is_expired, is_valid_timestamp, is_kept, is_recent, item_names, names_of,
    CrtShItem, Timestamp,
};
use crate::domains::{fresh_names, lemma_fresh_names_complete, lemma_concat_contains, lemma_concat_distinct, lemma_push_then_contains, DomainList};
use crate::events::Type;
use crate::logger::{discovered_message, discovered_text, line, Level, LogLine};
use crate::modules::Module;
use crate::options::Options;
use crate::session::Session;
use crate::user_agents::{random_user_agent, Request};
use crate::text::{split_on, strip_wildcard, views};
use vstd::prelude::*;

verus! {

/// A name found in the crt.sh answer, with the validity period of the certificate that
/// lists it.
pub type Candidate = (Seq<char>, Timestamp, Timestamp);

/// Every name that the certificates list, certificate by certificate and line by line.
pub open spec fn candidates(items: Seq<CrtShItem>) -> Seq<Candidate>
    decreases items.len(),
{
    if items.len() == 0 {
        Seq::<Candidate>::empty()
    } else {
        let last = items.last();
        candidates(items.drop_last()) + item_names(last.name_value@).map_values(
            |n: Seq<char>| (n, last.not_before, last.not_after),
        )
    }
}

/// Where a pass over the candidates stands: the subdomains known to the session, the
/// subdomains reported (each with whether its certificate had expired and whether it was
/// recent), and how many readings of the clock were taken.
pub struct Scan {
    pub known: Seq<Seq<char>>,
    pub found: Seq<(Seq<char>, bool, bool)>,
    pub used: nat,
}

/// The pass over the first `n` candidates, starting from the known subdomains `known0`.
/// A candidate that is the queried domain, or is known already, is passed over. Otherwise
/// the clock is read (the readings are `nows`, in order) and the certificate is judged at
/// that moment: when the filters keep it, the name is reported and becomes known.
pub open spec fn scan(
    cands: Seq<Candidate>,
    domain: Seq<char>,
    known0: Seq<Seq<char>>,
    nows: Seq<Timestamp>,
    ignore_expired: bool,
    recent_only: bool,
    n: nat,
) -> Scan
    decreases n,
{
    if n == 0 {
        Scan { known: known0, found: Seq::empty(), used: 0 }
    } else {
        let st = scan(cands, domain, known0, nows, ignore_expired, recent_only, (n - 1) as nat);
        let c = cands[n - 1];
        if c.0 == domain || st.known.contains(c.0) {
            st
        } else {
            let now = nows[st.used as int];
            if is_kept(c.1, c.2, now, ignore_expired, recent_only) {
                Scan {
                    known: st.known.push(c.0),
                    found: st.found.push((c.0, is_expired(c.2, now), is_recent(c.1, now))),
                    used: st.used + 1,
                }
            } else {
                Scan { known: st.known, found: st.found, used: st.used + 1 }
            }
        }
    }
}

/// The pass over all the names that the certificates `items` list.
pub open spec fn scan_items(
    items: Seq<CrtShItem>,
    domain: Seq<char>,
    known0: Seq<Seq<char>>,
    nows: Seq<Timestamp>,
    ignore_expired: bool,
    recent_only: bool,
) -> Scan {
    scan(
        candidates(items),
        domain,
        known0,
        nows,
        ignore_expired,
        recent_only,
        candidates(items).len(),
    )
}

/// The names of the reports, in order.
pub open spec fn found_names(found: Seq<(Seq<char>, bool, bool)>) -> Seq<Seq<char>> {
    found.map_values(|f: (Seq<char>, bool, bool)| f.0)
}

/// What follows the name in the report of a new subdomain.
pub open spec fn subdomain_note(expired: bool, recent: bool) -> Seq<char> {
    "' as a new subdomain"@ + (if expired {
        " $[fg:red]$[effect:bold](Certificate expired, likely inactive)"@
    } else {
        Seq::<char>::empty()
    }) + (if recent {
        " $[fg:blue]$[effect:bold](Active since less than 24 hours)"@
    } else {
        Seq::<char>::empty()
    })
}

/// `out` are the log lines of the reports `found`, one for one.
pub open spec fn reports(out: Seq<LogLine>, found: Seq<(Seq<char>, bool, bool)>) -> bool {
    &&& out.len() == found.len()
    &&& forall|k: int|
        0 <= k < out.len() ==> {
            &&& (#[trigger] out[k]).level == Level::Info
            &&& out[k].source@ == "dns:passive"@
            &&& out[k].message@ == discovered_text(found[k].0, subdomain_note(found[k].1, found[k].2))
        }
}

/// The crt.sh query for the certificates of `domain`.
pub open spec fn crt_sh_url(domain: Seq<char>) -> Seq<char> {
    "https://crt.sh/?q="@ + domain + "&output=json"@
}

/// The domains queried once `domain` is about to be: it is added unless it was queried before.
pub open spec fn after_query(processed: Seq<Seq<char>>, domain: Seq<char>) -> Seq<Seq<char>> {
    if processed.contains(domain) {
        processed
    } else {
        processed.push(domain)
    }
}

/// The views of names paired with validity periods.
pub open spec fn candidate_views(c: Seq<(String, Timestamp, Timestamp)>) -> Seq<Candidate> {
    c.map_values(|x: (String, Timestamp, Timestamp)| (x.0@, x.1, x.2))
}

/// Every name that the certificates `items` list, with the validity period of its certificate.
fn collect_candidates(items: &Vec<CrtShItem>) -> (c: Vec<(String, Timestamp, Timestamp)>)
    ensures
        candidate_views(c@) == candidates(items@),
{
    let mut c: Vec<(String, Timestamp, Timestamp)> = Vec::new();
    let n = items.len();
    let mut i: usize = 0;
    assert(items@.take(0) =~= Seq::<CrtShItem>::empty());
    assert(candidate_views(c@) =~= Seq::<Candidate>::empty());
    while i < n
        invariant
            n == items@.len(),
            i <= n,
            candidate_views(c@) == candidates(items@.take(i as int)),
        decreases n - i,
    {
        let item = &items[i];
        let names = names_of(&item.name_value);
        let ghost base = candidate_views(c@);
        let ghost mapped = item_names(item.name_value@).map_values(
            |nm: Seq<char>| (nm, item.not_before, item.not_after),
        );
        let m = names.len();
        let mut j: usize = 0;
        assert(base + mapped.take(0) =~= base);
        while j < m
            invariant
                m == names@.len(),
                j <= m,
                views(names@) == item_names(item.name_value@),
                mapped == item_names(item.name_value@).map_values(
                    |nm: Seq<char>| (nm, item.not_before, item.not_after),
                ),
                candidate_views(c@) == base + mapped.take(j as int),
            decreases m - j,
        {
            let ghost before = candidate_views(c@);
            c.push((names[j].clone(), item.not_before, item.not_after));
            assert(views(names@)[j as int] == names@[j as int]@);
            assert(candidate_views(c@) =~= before.push(mapped[j as int]));
            assert(mapped.take(j + 1) =~= mapped.take(j as int).push(mapped[j as int]));
            assert(base + mapped.take(j + 1) =~= (base + mapped.take(j as int)).push(mapped[j as int]));
            j = j + 1;
        }
        assert(mapped.take(m as int) =~= mapped);
        assert(items@.take(i + 1).drop_last() =~= items@.take(i as int));
        assert(items@.take(i + 1).last() == items@[i as int]);
        i = i + 1;
    }
    assert(items@.take(n as int) =~= items@);
    c
}

/// Readings of the clock beyond those a pass used do not change the pass.
pub proof fn lemma_scan_extra_readings(
    cands: Seq<Candidate>,
    domain: Seq<char>,
    known0: Seq<Seq<char>>,
    nows: Seq<Timestamp>,
    extra: Seq<Timestamp>,
    ignore_expired: bool,
    recent_only: bool,
    n: nat,
)
    requires
        scan(cands, domain, known0, nows, ignore_expired, recent_only, n).used <= nows.len(),
    ensures
        scan(cands, domain, known0, nows + extra, ignore_expired, recent_only, n) == scan(
            cands,
            domain,
            known0,
            nows,
            ignore_expired,
            recent_only,
            n,
        ),
    decreases n,
{
    if n > 0 {
        let prev = scan(cands, domain, known0, nows, ignore_expired, recent_only, (n - 1) as nat);
        assert(prev.used <= scan(cands, domain, known0, nows, ignore_expired, recent_only, n).used);
        lemma_scan_extra_readings(cands, domain, known0, nows, extra, ignore_expired, recent_only, (n - 1) as nat);
        let c = cands[n - 1];
        if !(c.0 == domain || prev.known.contains(c.0)) {
            assert((nows + extra)[prev.used as int] == nows[prev.used as int]);
        }
    }
}

/// The names of the candidates, in order.
pub open spec fn candidate_names(cands: Seq<Candidate>) -> Seq<Seq<char>> {
    cands.map_values(|c: Candidate| c.0)
}

/// Whatever the clock reads, a pass reports only names that the certificates list, that are
/// not the queried domain and were not known before, each at most once, and only those that
/// the filters keep; the known subdomains afterwards are those known before followed by the
/// reported ones, and at most one reading is taken per name.
pub proof fn lemma_scan_sound(
    cands: Seq<Candidate>,
    domain: Seq<char>,
    known0: Seq<Seq<char>>,
    nows: Seq<Timestamp>,
    ignore_expired: bool,
    recent_only: bool,
    n: nat,
)
    requires
        n <= cands.len(),
    ensures
        ({
            let st = scan(cands, domain, known0, nows, ignore_expired, recent_only, n);
            &&& st.known == known0 + found_names(st.found)
            &&& st.used <= n
            &&& found_names(st.found).no_duplicates()
            &&& forall|k: int|
                0 <= k < st.found.len() ==> {
                    let f = #[trigger] st.found[k];
                    &&& f.0 != domain
                    &&& !known0.contains(f.0)
                    &&& candidate_names(cands).take(n as int).contains(f.0)
                    &&& (ignore_expired ==> !f.1)
                    &&& (recent_only ==> f.2)
                }
        }),
    decreases n,
{
    let st = scan(cands, domain, known0, nows, ignore_expired, recent_only, n);
    if n == 0 {
        assert(known0 + found_names(st.found) =~= known0);
    } else {
        lemma_scan_sound(cands, domain, known0, nows, ignore_expired, recent_only, (n - 1) as nat);
        let prev = scan(cands, domain, known0, nows, ignore_expired, recent_only, (n - 1) as nat);
        let c = cands[n - 1];
        let names = candidate_names(cands);
        assert forall|k: int| 0 <= k < prev.found.len() implies names.take(n as int).contains(
            (#[trigger] prev.found[k]).0,
        ) by {
            let x = prev.found[k].0;
            assert(names.take((n - 1) as int).contains(x));
            let j = choose|j: int| 0 <= j < n - 1 && #[trigger] names.take((n - 1) as int)[j] == x;
            assert(names.take(n as int)[j] == x);
        }
        if !(c.0 == domain || prev.known.contains(c.0)) {
            let now = nows[prev.used as int];
            if is_kept(c.1, c.2, now, ignore_expired, recent_only) {
                let item = (c.0, is_expired(c.2, now), is_recent(c.1, now));
                assert(found_names(st.found) =~= found_names(prev.found).push(c.0));
                assert(st.known =~= known0 + found_names(st.found));
                lemma_concat_contains(known0, found_names(prev.found), c.0);
                assert(names.take(n as int)[n - 1] == c.0);
                assert forall|a: int, b: int|
                    0 <= a < found_names(st.found).len() && 0 <= b < found_names(st.found).len()
                        && a != b implies found_names(st.found)[a] != found_names(st.found)[b] by {
                    let pf = found_names(prev.found);
                    if a == pf.len() {
                        assert(pf[b] == found_names(st.found)[b]);
                        assert(pf.contains(pf[b]));
                    } else if b == pf.len() {
                        assert(pf[a] == found_names(st.found)[a]);
                        assert(pf.contains(pf[a]));
                    }
                }
                assert forall|k: int| 0 <= k < st.found.len() implies {
                    let f = #[trigger] st.found[k];
                    &&& f.0 != domain
                    &&& !known0.contains(f.0)
                    &&& names.take(n as int).contains(f.0)
                    &&& (ignore_expired ==> !f.1)
                    &&& (recent_only ==> f.2)
                } by {
                    if k < prev.found.len() {
                        assert(st.found[k] == prev.found[k]);
                    } else {
                        assert(st.found[k] == item);
                    }
                }
            }
        }
    }
}

/// Whatever the clock reads, a pass never records a subdomain twice: when the known
/// subdomains hold no repetition before, they hold none after.
pub proof fn lemma_scan_keeps_distinct(
    cands: Seq<Candidate>,
    domain: Seq<char>,
    known0: Seq<Seq<char>>,
    nows: Seq<Timestamp>,
    ignore_expired: bool,
    recent_only: bool,
    n: nat,
)
    requires
        n <= cands.len(),
        known0.no_duplicates(),
    ensures
        scan(cands, domain, known0, nows, ignore_expired, recent_only, n).known.no_duplicates(),
{
    lemma_scan_sound(cands, domain, known0, nows, ignore_expired, recent_only, n);
    let st = scan(cands, domain, known0, nows, ignore_expired, recent_only, n);
    let names = found_names(st.found);
    assert forall|k: int| 0 <= k < names.len() implies !known0.contains(#[trigger] names[k]) by {
        assert(names[k] == st.found[k].0);
    }
    lemma_concat_distinct(known0, names);
}

/// With neither filter set, the clock plays no part: a pass reports exactly the new names
/// (not the queried domain, not known before, first occurrence only), in the order in which
/// the certificates list them.
pub proof fn lemma_scan_unfiltered(
    cands: Seq<Candidate>,
    domain: Seq<char>,
    known0: Seq<Seq<char>>,
    nows: Seq<Timestamp>,
    n: nat,
)
    requires
        n <= cands.len(),
    ensures
        found_names(scan(cands, domain, known0, nows, false, false, n).found) == fresh_names(
            candidate_names(cands),
            domain,
            known0,
            n,
        ),
    decreases n,
{
    if n > 0 {
        lemma_scan_unfiltered(cands, domain, known0, nows, (n - 1) as nat);
        lemma_scan_sound(cands, domain, known0, nows, false, false, (n - 1) as nat);
        let prev = scan(cands, domain, known0, nows, false, false, (n - 1) as nat);
        let st = scan(cands, domain, known0, nows, false, false, n);
        let c = cands[n - 1];
        assert(candidate_names(cands)[n - 1] == c.0);
        lemma_concat_contains(known0, found_names(prev.found), c.0);
        if !(c.0 == domain || prev.known.contains(c.0)) {
            assert(found_names(st.found) =~= found_names(prev.found).push(c.0));
        }
    }
}

/// Every line of every certificate is a candidate: line `j` of certificate `i`, without a
/// leading "*.", with the validity period of certificate `i`.
pub proof fn lemma_candidates_complete(items: Seq<CrtShItem>, i: int, j: int)
    requires
        0 <= i < items.len(),
        0 <= j < split_on(items[i].name_value@, '\n').len(),
    ensures
        candidates(items).contains(
            (strip_wildcard(split_on(items[i].name_value@, '\n')[j]), items[i].not_before, items[i].not_after),
        ),
    decreases items.len(),
{
    let c = (strip_wildcard(split_on(items[i].name_value@, '\n')[j]), items[i].not_before, items[i].not_after);
    let rest = items.drop_last();
    let last = items.last();
    let mapped = item_names(last.name_value@).map_values(
        |n: Seq<char>| (n, last.not_before, last.not_after),
    );
    let prev = candidates(rest);
    assert(candidates(items) == prev + mapped);
    if i == items.len() - 1 {
        assert(mapped[j] == c);
        assert((prev + mapped)[prev.len() + j] == c);
    } else {
        assert(rest[i] == items[i]);
        lemma_candidates_complete(rest, i, j);
        let k = choose|k: int| 0 <= k < prev.len() && prev[k] == c;
        assert((prev + mapped)[k] == c);
    }
}

/// Every candidate is a line of some certificate, without a leading "*.", with the
/// validity period of that certificate.
pub proof fn lemma_candidates_sound(items: Seq<CrtShItem>, k: int)
    requires
        0 <= k < candidates(items).len(),
    ensures
        exists|i: int, j: int|
            0 <= i < items.len() && 0 <= j < split_on(items[i].name_value@, '\n').len() && #[trigger] candidates(items)[k]
                == (strip_wildcard(split_on(items[i].name_value@, '\n')[j]), items[i].not_before, items[i].not_after),
    decreases items.len(),
{
    let rest = items.drop_last();
    let last = items.last();
    let mapped = item_names(last.name_value@).map_values(
        |n: Seq<char>| (n, last.not_before, last.not_after),
    );
    let prev = candidates(rest);
    assert(candidates(items) == prev + mapped);
    if k < prev.len() {
        lemma_candidates_sound(rest, k);
        let (i, j) = choose|i: int, j: int|
            0 <= i < rest.len() && 0 <= j < split_on(rest[i].name_value@, '\n').len() && #[trigger] prev[k]
                == (strip_wildcard(split_on(rest[i].name_value@, '\n')[j]), rest[i].not_before, rest[i].not_after);
        assert(rest[i] == items[i]);
        assert(candidates(items)[k] == prev[k]);
    } else {
        let j = k - prev.len();
        assert(candidates(items)[k] == mapped[j]);
        assert(items[items.len() - 1] == last);
    }
}

/// With neither filter set, whatever the clock reads, every name that some certificate
/// lists on any of its lines (without a leading "*.") is reported, unless it is the queried
/// domain or was known before; and every reported name is such a name.
pub proof fn lemma_report_complete(
    items: Seq<CrtShItem>,
    domain: Seq<char>,
    known0: Seq<Seq<char>>,
    nows: Seq<Timestamp>,
    i: int,
    j: int,
)
    requires
        0 <= i < items.len(),
        0 <= j < split_on(items[i].name_value@, '\n').len(),
        strip_wildcard(split_on(items[i].name_value@, '\n')[j]) != domain,
        !known0.contains(strip_wildcard(split_on(items[i].name_value@, '\n')[j])),
    ensures
        found_names(scan_items(items, domain, known0, nows, false, false).found).contains(
            strip_wildcard(split_on(items[i].name_value@, '\n')[j]),
        ),
{
    let cands = candidates(items);
    let name = strip_wildcard(split_on(items[i].name_value@, '\n')[j]);
    lemma_candidates_complete(items, i, j);
    let k = choose|k: int| 0 <= k < cands.len() && cands[k] == (name, items[i].not_before, items[i].not_after);
    assert(candidate_names(cands)[k] == name);
    lemma_scan_unfiltered(cands, domain, known0, nows, cands.len());
    lemma_fresh_names_complete(candidate_names(cands), domain, known0, cands.len(), k);
}

/// Whatever the filters and the clock, every reported name is a line of some certificate,
/// without a leading "*.".
pub proof fn lemma_report_listed(
    items: Seq<CrtShItem>,
    domain: Seq<char>,
    known0: Seq<Seq<char>>,
    nows: Seq<Timestamp>,
    ignore_expired: bool,
    recent_only: bool,
    r: int,
)
    requires
        0 <= r < scan_items(items, domain, known0, nows, ignore_expired, recent_only).found.len(),
    ensures
        exists|i: int, j: int|
            0 <= i < items.len() && 0 <= j < split_on(items[i].name_value@, '\n').len()
                && #[trigger] scan_items(items, domain, known0, nows, ignore_expired, recent_only).found[r].0
                == strip_wildcard(split_on(items[i].name_value@, '\n')[j]),
{
    let cands = candidates(items);
    let st = scan_items(items, domain, known0, nows, ignore_expired, recent_only);
    lemma_scan_sound(cands, domain, known0, nows, ignore_expired, recent_only, cands.len());
    let x = st.found[r].0;
    assert(candidate_names(cands).take(cands.len() as int).contains(x));
    let k = choose|k: int| 0 <= k < cands.len() && #[trigger] candidate_names(cands).take(cands.len() as int)[k] == x;
    assert(cands[k].0 == x);
    lemma_candidates_sound(items, k);
}

/// The crt.sh query carries the domain verbatim: "https://crt.sh/?q=", then exactly the
/// characters of the domain, then "&output=json".
pub proof fn lemma_crt_sh_url_parts(domain: Seq<char>)
    ensures
        crt_sh_url(domain).len() == 18 + domain.len() + 12,
        crt_sh_url(domain).take(18) == "https://crt.sh/?q="@,
        crt_sh_url(domain).subrange(18, 18 + domain.len() as int) == domain,
        crt_sh_url(domain).skip(18 + domain.len() as int) == "&output=json"@,
{
    reveal_strlit("https://crt.sh/?q=");
    reveal_strlit("&output=json");
    let u = crt_sh_url(domain);
    assert(u.take(18) =~= "https://crt.sh/?q="@);
    assert(u.subrange(18, 18 + domain.len() as int) =~= domain);
    assert(u.skip(18 + domain.len() as int) =~= "&output=json"@);
}

/// A domain is queried at most once: after it has been prepared, it counts as queried, and
/// preparing it again changes nothing (and, by the contract of `prepare`, makes no query).
pub proof fn lemma_query_once(processed: Seq<Seq<char>>, domain: Seq<char>)
    ensures
        after_query(processed, domain).contains(domain),
        after_query(after_query(processed, domain), domain) == after_query(processed, domain),
{
    lemma_push_then_contains(processed, domain, domain);
}

impl Default for ModulePassiveDNS {
    fn default() -> (m: ModulePassiveDNS)
        ensures
            m.processed() == Seq::<Seq<char>>::empty(),
    {
        Self::new()
    }
}

/// Finds subdomains of the domain passively: in the certificates that crt.sh has logged
/// for it.
pub struct ModulePassiveDNS {
    processed_domains: DomainList,
}

impl ModulePassiveDNS {
    /// The domains queried so far, in order.
    pub closed spec fn processed(&self) -> Seq<Seq<char>> {
        self.processed_domains@
    }

    pub fn new() -> (m: ModulePassiveDNS)
        ensures
            m.processed() == Seq::<Seq<char>>::empty(),
    {
        ModulePassiveDNS { processed_domains: DomainList::new() }
    }

    /// Records `domain` as queried.
    pub fn process(&mut self, domain: String)
        ensures
            final(self).processed() == old(self).processed().push(domain@),
    {
        self.processed_domains.push(domain)
    }

    /// Whether `domain` has been queried.
    pub fn has_processed(&self, domain: String) -> (b: bool)
        ensures
            b == self.processed().contains(domain@),
    {
        self.processed_domains.contains(&domain)
    }

    /// Starts the work on the session's domain: nothing when it has been queried before;
    /// otherwise it is recorded as queried and the crt.sh query to make is returned, with a
    /// user agent drawn from `user_agents` (which must then list at least one).
    pub fn prepare(&mut self, opts: &Options, user_agents: &Vec<String>) -> (req: Option<Request>)
        requires
            !old(self).processed().contains(opts.domain@) ==> user_agents.len() > 0,
        ensures
            req is None <==> old(self).processed().contains(opts.domain@),
            final(self).processed() == after_query(old(self).processed(), opts.domain@),
            req matches Some(r) ==> r.url@ == crt_sh_url(opts.domain@) && views(
                user_agents@,
            ).contains(r.user_agent@),
    {
        let domain = &opts.domain;
        if self.has_processed(domain.clone()) {
            return None;
        }
        self.process(domain.clone());
        let user_agent = random_user_agent(user_agents);
        let mut url = String::from_str("https://crt.sh/?q=");
        url.append(domain.as_str());
        url.append("&output=json");
        Some(Request { url, user_agent })
    }

    /// The reports for the certificates `items` that crt.sh listed for the session's domain:
    /// each name that is not the domain itself and is not yet known to the session is judged
    /// by its certificate at the moment read from the clock; when the session's filters keep
    /// it, it is reported and recorded as discovered.
    pub fn report(&self, session: &mut Session, items: &Vec<CrtShItem>) -> (out: Vec<LogLine>)
        ensures
            exists|nows: Seq<Timestamp>|
                {
                    let st = #[trigger] scan_items(
                        items@,
                        old(session).spec_options().domain@,
                        old(session).discovered(),
                        nows,
                        old(session).spec_options().passive_dns.passive_dns_ignore_expired,
                        old(session).spec_options().passive_dns.passive_dns_recent_only,
                    );
                    &&& st.used == nows.len()
                    &&& forall|k: int| 0 <= k < nows.len() ==> is_valid_timestamp(#[trigger] nows[k])
                    &&& final(session).discovered() == st.known
                    &&& reports(out@, st.found)
                },
            final(session).subscriptions() == old(session).subscriptions(),
            final(session).module_names() == old(session).module_names(),
            final(session).spec_dev_mode() == old(session).spec_dev_mode(),
            final(session).spec_options() == old(session).spec_options(),
    {
        let ignore_expired = session.options().passive_dns.passive_dns_ignore_expired;
        let recent_only = session.options().passive_dns.passive_dns_recent_only;
        let domain = session.options().domain.clone();
        let cands = collect_candidates(items);
        let ghost cv = candidate_views(cands@);
        let ghost known0 = session.discovered();
        let ghost mut nows: Seq<Timestamp> = Seq::empty();
        let ghost mut found: Seq<(Seq<char>, bool, bool)> = Seq::empty();
        let mut out: Vec<LogLine> = Vec::new();
        let n = cands.len();
        let mut i: usize = 0;
        while i < n
            invariant
                n == cv.len(),
                i <= n,
                cv == candidate_views(cands@),
                cv == candidates(items@),
                scan(cv, domain@, known0, nows, ignore_expired, recent_only, i as nat) == (Scan {
                    known: session.discovered(),
                    found,
                    used: nows.len(),
                }),
                reports(out@, found),
                forall|k: int| 0 <= k < nows.len() ==> is_valid_timestamp(#[trigger] nows[k]),
                session.subscriptions() == old(session).subscriptions(),
                session.module_names() == old(session).module_names(),
                session.spec_dev_mode() == old(session).spec_dev_mode(),
                session.spec_options() == old(session).spec_options(),
            decreases n - i,
        {
            let name = &cands[i].0;
            assert(cv[i as int] == (name@, cands@[i as int].1, cands@[i as int].2));
            if !(*name == domain) && !session.has_discovered_subdomain(name.clone()) {
                let now = current_time();
                proof {
                    lemma_scan_extra_readings(
                        cv, domain@, known0, nows, seq![now], ignore_expired, recent_only, i as nat,
                    );
                    nows = nows + seq![now];
                }
                match certificate_status(cands[i].1, cands[i].2, now, ignore_expired, recent_only) {
                    Some(st) => {
                        let mut note = String::from_str("' as a new subdomain");
                        if st.expired {
                            note.append(" $[fg:red]$[effect:bold](Certificate expired, likely inactive)");
                        }
                        if st.recent {
                            note.append(" $[fg:blue]$[effect:bold](Active since less than 24 hours)");
                        }
                        assert(note@ =~= subdomain_note(st.expired, st.recent));
                        let l = line(Level::Info, "dns:passive", discovered_message(name.as_str(), note.as_str()));
                        out.push(l);
                        session.discover_subdomain(name.clone());
                        proof {
                            found = found.push((name@, st.expired, st.recent));
                        }
                    },
                    None => {},
                }
            }
            i = i + 1;
        }
        assert(scan_items(items@, domain@, known0, nows, ignore_expired, recent_only) == scan(
            cv,
            domain@,
            known0,
            nows,
            ignore_expired,
            recent_only,
            n as nat,
        ));
        out
    }

    /// The log lines for the answer to the crt.sh query: the reports of [`Self::report`]
    /// when crt.sh answered (`Some`, with the certificates it listed), an error otherwise.
    pub fn handle_response(&self, session: &mut Session, response: Option<&Vec<CrtShItem>>) -> (out: Vec<LogLine>)
        ensures
            response is None ==> out.len() == 1 && out[0].level == Level::Error && out[0].source@
                == "dns:passive"@ && out[0].message@ == "Failed performing a request to crt.sh"@
                && final(session).discovered() == old(session).discovered(),
            response matches Some(items) ==> exists|nows: Seq<Timestamp>|
                {
                    let st = #[trigger] scan_items(
                        items@,
                        old(session).spec_options().domain@,
                        old(session).discovered(),
                        nows,
                        old(session).spec_options().passive_dns.passive_dns_ignore_expired,
                        old(session).spec_options().passive_dns.passive_dns_recent_only,
                    );
                    &&& st.used == nows.len()
                    &&& forall|k: int| 0 <= k < nows.len() ==> is_valid_timestamp(#[trigger] nows[k])
                    &&& final(session).discovered() == st.known
                    &&& reports(out@, st.found)
                },
            final(session).subscriptions() == old(session).subscriptions(),
            final(session).module_names() == old(session).module_names(),
            final(session).spec_dev_mode() == old(session).spec_dev_mode(),
            final(session).spec_options() == old(session).spec_options(),
    {
        match response {
            Some(items) => self.report(session, items),
            None => {
                let mut out: Vec<LogLine> = Vec::new();
                out.push(line(Level::Error, "dns:passive", String::from_str("Failed performing a request to crt.sh")));
                out
            },
        }
    }
}

impl Module for ModulePassiveDNS {
    open spec fn spec_name(&self) -> Seq<char> {
        "dns:passive"@
    }

    open spec fn spec_description(&self) -> Seq<char> {
        "This module will perform a passive discovery of new subdomains by using crt.sh"@
    }

    open spec fn spec_subscribers(&self) -> Seq<Type> {
        seq![Type::DiscoveredDomain]
    }

    fn name(&self) -> (n: String) {
        String::from_str("dns:passive")
    }

    fn description(&self) -> (d: String) {
        String::from_str("This module will perform a passive discovery of new subdomains by using crt.sh")
    }

    fn subscribers(&self) -> (s: Vec<Type>) {
        let s = vec![Type::DiscoveredDomain];
        assert(s@ =~= seq![Type::DiscoveredDomain]);
        s
    }
}

} // verus!
