use vstd::prelude::*;

verus! {

/// An append-only record of domain names, in the order in which they were added.
pub struct DomainList {
    items: Vec<String>,
}

impl View for DomainList {
    type V = Seq<Seq<char>>;

    closed spec fn view(&self) -> Seq<Seq<char>> {
        self.items@.map_values(|s: String| s@)
    }
}

impl DomainList {
    /// An empty record.
    pub fn new() -> (l: DomainList)
        ensures
            l@ == Seq::<Seq<char>>::empty(),
    {
        DomainList { items: Vec::new() }
    }

    /// Appends `domain` at the end, whether or not it is already recorded.
    pub fn push(&mut self, domain: String)
        ensures
            final(self)@ == old(self)@.push(domain@),
    {
        self.items.push(domain);
        proof {
            assert(self@ =~= old(self)@.push(domain@));
        }
    }

    /// Whether `domain` has been recorded.
    pub fn contains(&self, domain: &String) -> (b: bool)
        ensures
            b == self@.contains(domain@),
    {
        let n = self.items.len();
        let mut i: usize = 0;
        while i < n
            invariant
                n == self.items.len(),
                i <= n,
                forall|j: int| 0 <= j < i ==> self@[j] != domain@,
            decreases n - i,
        {
            if self.items[i] == *domain {
                assert(self@[i as int] == domain@);
                return true;
            }
            i = i + 1;
        }
        proof {
            if self@.contains(domain@) {
                let k = choose|k: int| 0 <= k < self@.len() && self@[k] == domain@;
                assert(self@[k] != domain@);
            }
        }
        false
    }
}

impl Default for DomainList {
    fn default() -> (l: DomainList)
        ensures
            l@ == Seq::<Seq<char>>::empty(),
    {
        DomainList::new()
    }
}

/// After `d` is pushed, the record contains `d`; every name it held before is still held,
/// and no other name appears.
pub proof fn lemma_push_then_contains<A>(before: Seq<A>, d: A, q: A)
    ensures
        before.push(d).contains(d),
        before.push(d).contains(q) <==> (q == d || before.contains(q)),
{
    let after = before.push(d);
    assert(after[before.len() as int] == d);
    if after.contains(q) && q != d {
        let k = choose|k: int| 0 <= k < after.len() && after[k] == q;
        assert(before[k] == q);
    }
    if before.contains(q) {
        let k = choose|k: int| 0 <= k < before.len() && before[k] == q;
        assert(after[k] == q);
    }
}

/// The first `n` of `names` that are new: not `domain`, not in `known`, and not seen
/// earlier among them; in order.
pub open spec fn fresh_names(
    names: Seq<Seq<char>>,
    domain: Seq<char>,
    known: Seq<Seq<char>>,
    n: nat,
) -> Seq<Seq<char>>
    decreases n,
{
    if n == 0 {
        Seq::<Seq<char>>::empty()
    } else {
        let f = fresh_names(names, domain, known, (n - 1) as nat);
        let x = names[n - 1];
        if x == domain || known.contains(x) || f.contains(x) {
            f
        } else {
            f.push(x)
        }
    }
}

/// Every one of the first `n` names that is not `domain` and not in `known` is among the
/// new names.
pub proof fn lemma_fresh_names_complete(
    names: Seq<Seq<char>>,
    domain: Seq<char>,
    known: Seq<Seq<char>>,
    n: nat,
    k: int,
)
    requires
        0 <= k < n,
        n <= names.len(),
        names[k] != domain,
        !known.contains(names[k]),
    ensures
        fresh_names(names, domain, known, n).contains(names[k]),
    decreases n,
{
    let f = fresh_names(names, domain, known, (n - 1) as nat);
    let x = names[n - 1];
    if k < n - 1 {
        lemma_fresh_names_complete(names, domain, known, (n - 1) as nat, k);
        if !(x == domain || known.contains(x) || f.contains(x)) {
            lemma_push_then_contains(f, x, names[k]);
        }
    } else {
        if !f.contains(x) {
            lemma_push_then_contains(f, x, x);
        }
    }
}

/// A name is in `a + b` exactly when it is in `a` or in `b`.
pub proof fn lemma_concat_contains<A>(a: Seq<A>, b: Seq<A>, q: A)
    ensures
        (a + b).contains(q) <==> (a.contains(q) || b.contains(q)),
{
    if (a + b).contains(q) {
        let k = choose|k: int| 0 <= k < (a + b).len() && (a + b)[k] == q;
        if k < a.len() {
            assert(a[k] == q);
        } else {
            assert(b[k - a.len()] == q);
        }
    }
    if a.contains(q) {
        let k = choose|k: int| 0 <= k < a.len() && a[k] == q;
        assert((a + b)[k] == q);
    }
    if b.contains(q) {
        let k = choose|k: int| 0 <= k < b.len() && b[k] == q;
        assert((a + b)[k + a.len()] == q);
    }
}

/// The new names are never `domain`, never in `known`, each appears only once, and each
/// is one of the first `n` names.
pub proof fn lemma_fresh_names(names: Seq<Seq<char>>, domain: Seq<char>, known: Seq<Seq<char>>, n: nat)
    requires
        n <= names.len(),
    ensures
        forall|k: int| 0 <= k < fresh_names(names, domain, known, n).len() ==> {
            let x = #[trigger] fresh_names(names, domain, known, n)[k];
            &&& x != domain
            &&& !known.contains(x)
            &&& names.take(n as int).contains(x)
        },
        fresh_names(names, domain, known, n).no_duplicates(),
    decreases n,
{
    if n > 0 {
        lemma_fresh_names(names, domain, known, (n - 1) as nat);
        let f = fresh_names(names, domain, known, (n - 1) as nat);
        let x = names[n - 1];
        let g = fresh_names(names, domain, known, n);
        assert forall|k: int| 0 <= k < g.len() implies {
            let y = #[trigger] g[k];
            &&& y != domain
            &&& !known.contains(y)
            &&& names.take(n as int).contains(y)
        } by {
            if k < f.len() {
                assert(g[k] == f[k]);
                let y = f[k];
                assert(names.take((n - 1) as int).contains(y));
                let j = choose|j: int| 0 <= j < n - 1 && #[trigger] names.take((n - 1) as int)[j] == y;
                assert(names.take(n as int)[j] == y);
            } else {
                assert(g[k] == x);
                assert(names.take(n as int)[n - 1] == x);
            }
        }
        if !(x == domain || known.contains(x) || f.contains(x)) {
            assert forall|a: int, b: int| 0 <= a < g.len() && 0 <= b < g.len() && a != b implies g[a] != g[b] by {
                if a == f.len() {
                    assert(f[b] == g[b]);
                } else if b == f.len() {
                    assert(f[a] == g[a]);
                } else {
                    assert(f[a] == g[a] && f[b] == g[b]);
                }
            }
        }
    }
}

/// Two lists without repetitions, with nothing in common, give a list without repetitions.
pub proof fn lemma_concat_distinct<A>(a: Seq<A>, b: Seq<A>)
    requires
        a.no_duplicates(),
        b.no_duplicates(),
        forall|k: int| 0 <= k < b.len() ==> !a.contains(#[trigger] b[k]),
    ensures
        (a + b).no_duplicates(),
{
    let c = a + b;
    assert forall|i: int, j: int| 0 <= i < c.len() && 0 <= j < c.len() && i != j implies c[i] != c[j] by {
        if i < a.len() && j >= a.len() {
            assert(b[j - a.len()] == c[j]);
            assert(a.contains(c[i]));
        } else if j < a.len() && i >= a.len() {
            assert(b[i - a.len()] == c[i]);
            assert(a.contains(c[j]));
        } else if i >= a.len() && j >= a.len() {
            assert(b[i - a.len()] != b[j - a.len()]);
        }
    }
}

/// Appending a name that is not yet in a list without repetitions keeps it without
/// repetitions.
pub proof fn lemma_push_fresh_distinct<A>(a: Seq<A>, x: A)
    requires
        a.no_duplicates(),
        !a.contains(x),
    ensures
        a.push(x).no_duplicates(),
{
    assert(a.push(x) =~= a + seq![x]);
    lemma_concat_distinct(a, seq![x]);
}

} // verus!
