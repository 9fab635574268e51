use vstd::prelude::*;

verus! {

/// The pieces of `s` between occurrences of `sep`, in order; `sep` itself is dropped.
/// There is always at least one piece: an empty text gives one empty piece.
pub open spec fn split_on(s: Seq<char>, sep: char) -> Seq<Seq<char>>
    decreases s.len(),
{
    if s.len() == 0 {
        seq![Seq::<char>::empty()]
    } else {
        let rest = split_on(s.drop_last(), sep);
        if s.last() == sep {
            rest.push(Seq::<char>::empty())
        } else {
            rest.update(rest.len() - 1, rest.last().push(s.last()))
        }
    }
}

/// The pieces glued back together, with `sep` between each two neighbours.
pub open spec fn join_with(parts: Seq<Seq<char>>, sep: char) -> Seq<char>
    decreases parts.len(),
{
    if parts.len() == 0 {
        Seq::<char>::empty()
    } else if parts.len() == 1 {
        parts[0]
    } else {
        join_with(parts.drop_last(), sep).push(sep) + parts.last()
    }
}

/// `s` without a leading "*." (one occurrence at most).
pub open spec fn strip_wildcard(s: Seq<char>) -> Seq<char> {
    if s.len() >= 2 && s[0] == '*' && s[1] == '.' {
        s.skip(2)
    } else {
        s
    }
}

/// `s` without one trailing carriage return.
pub open spec fn strip_cr(s: Seq<char>) -> Seq<char> {
    if s.len() > 0 && s.last() == '\r' {
        s.drop_last()
    } else {
        s
    }
}

/// The lines of `s`: split at '\n'; a line that ends in "\r\n" loses its '\r';
/// a last line that is empty (the text is empty or ends in '\n') is not a line.
pub open spec fn lines_of(s: Seq<char>) -> Seq<Seq<char>> {
    let parts = split_on(s, '\n');
    let ended = parts.drop_last().map_values(|p: Seq<char>| strip_cr(p));
    if parts.last().len() == 0 {
        ended
    } else {
        ended.push(parts.last())
    }
}

/// The views of a vector of strings.
pub open spec fn views(v: Seq<String>) -> Seq<Seq<char>> {
    v.map_values(|x: String| x@)
}

pub proof fn lemma_split_nonempty(s: Seq<char>, sep: char)
    ensures
        split_on(s, sep).len() >= 1,
    decreases s.len(),
{
    if s.len() > 0 {
        lemma_split_nonempty(s.drop_last(), sep);
    }
}

/// Splitting at `sep` and joining again with `sep` gives back the text.
pub proof fn lemma_join_split(s: Seq<char>, sep: char)
    ensures
        join_with(split_on(s, sep), sep) == s,
    decreases s.len(),
{
    if s.len() > 0 {
        let t = s.drop_last();
        let c = s.last();
        let rest = split_on(t, sep);
        lemma_split_nonempty(t, sep);
        lemma_join_split(t, sep);
        if c == sep {
            let parts = rest.push(Seq::<char>::empty());
            assert(parts.drop_last() =~= rest);
            assert(join_with(parts, sep) =~= t.push(sep));
            assert(t.push(sep) =~= s);
        } else {
            let parts = rest.update(rest.len() - 1, rest.last().push(c));
            if rest.len() == 1 {
                assert(join_with(rest, sep) == rest[0]);
                assert(parts[0] =~= s);
            } else {
                assert(parts.drop_last() =~= rest.drop_last());
                let head = join_with(rest.drop_last(), sep).push(sep);
                assert(join_with(rest, sep) == head + rest.last());
                assert(join_with(parts, sep) == head + rest.last().push(c));
                assert(head + rest.last().push(c) =~= (head + rest.last()).push(c));
                assert(t.push(c) =~= s);
            }
        }
    }
}

/// No piece of a split holds the separator.
pub proof fn lemma_split_pieces_free_of_sep(s: Seq<char>, sep: char)
    ensures
        forall|i: int| 0 <= i < split_on(s, sep).len() ==> !(#[trigger] split_on(s, sep)[i]).contains(sep),
    decreases s.len(),
{
    if s.len() > 0 {
        let t = s.drop_last();
        let c = s.last();
        let rest = split_on(t, sep);
        lemma_split_nonempty(t, sep);
        lemma_split_pieces_free_of_sep(t, sep);
        let parts = split_on(s, sep);
        assert forall|i: int| 0 <= i < parts.len() implies !(#[trigger] parts[i]).contains(sep) by {
            if c == sep {
                if i < rest.len() {
                    assert(parts[i] == rest[i]);
                } else {
                    assert(parts[i] =~= Seq::<char>::empty());
                }
            } else {
                if i < rest.len() - 1 {
                    assert(parts[i] == rest[i]);
                } else {
                    let last = rest.last();
                    assert(parts[i] == last.push(c));
                    assert(!rest[rest.len() - 1].contains(sep));
                    if last.push(c).contains(sep) {
                        let k = choose|k: int| 0 <= k < last.push(c).len() && last.push(c)[k] == sep;
                        assert(last[k] == sep);
                    }
                }
            }
        }
    }
}

/// The first piece of a split is the text up to the first `sep` (all of it when there is
/// none): a prefix of the text that holds no `sep`, followed by `sep` unless it is the whole
/// text; and it is the whole text exactly when the split has one piece.
pub proof fn lemma_split_first(s: Seq<char>, sep: char)
    ensures
        ({
            let first = split_on(s, sep)[0];
            &&& first.len() <= s.len()
            &&& first == s.take(first.len() as int)
            &&& !first.contains(sep)
            &&& (first.len() == s.len() <==> split_on(s, sep).len() == 1)
            &&& first.len() < s.len() ==> s[first.len() as int] == sep
        }),
    decreases s.len(),
{
    if s.len() == 0 {
        assert(s.take(0) =~= Seq::<char>::empty());
    } else {
        let t = s.drop_last();
        let c = s.last();
        let r = split_on(t, sep);
        lemma_split_nonempty(t, sep);
        lemma_split_first(t, sep);
        let f0 = r[0];
        let first = split_on(s, sep)[0];
        assert(t.take(f0.len() as int) =~= s.take(f0.len() as int));
        if c == sep {
            assert(first == f0);
            if f0.len() == t.len() {
                assert(s[f0.len() as int] == c);
            } else {
                assert(s[f0.len() as int] == t[f0.len() as int]);
            }
        } else if r.len() == 1 {
            assert(first == f0.push(c));
            assert(first =~= s);
            assert(s.take(s.len() as int) =~= s);
            if first.contains(sep) {
                let k = choose|k: int| 0 <= k < first.len() && first[k] == sep;
                assert(f0[k] == sep);
                assert(f0.contains(sep));
            }
        } else {
            assert(first == f0);
            assert(s[f0.len() as int] == t[f0.len() as int]);
        }
    }
}

/// Stripping the wildcard removes exactly the two leading characters "*." when the text
/// starts with them, and changes nothing otherwise.
pub proof fn lemma_strip_wildcard(s: Seq<char>)
    ensures
        s.len() >= 2 && s[0] == '*' && s[1] == '.' ==> strip_wildcard(s) == s.subrange(2, s.len() as int)
            && strip_wildcard(s).len() + 2 == s.len(),
        !(s.len() >= 2 && s[0] == '*' && s[1] == '.') ==> strip_wildcard(s) == s,
{
}

/// Splits `s` at every `sep`, as `str::split` with a `char` pattern does.
pub fn split_char(s: &str, sep: char) -> (parts: Vec<String>)
    ensures
        views(parts@) == split_on(s@, sep),
{
    let n = s.unicode_len();
    let mut parts: Vec<String> = Vec::new();
    let mut start: usize = 0;
    let mut i: usize = 0;
    assert(s@.take(0) =~= Seq::<char>::empty());
    assert(s@.subrange(0, 0) =~= Seq::<char>::empty());
    assert(views(parts@).push(s@.subrange(0, 0)) =~= seq![Seq::<char>::empty()]);
    while i < n
        invariant
            n == s@.len(),
            start <= i <= n,
            split_on(s@.take(i as int), sep) == views(parts@).push(s@.subrange(start as int, i as int)),
        decreases n - i,
    {
        let c = s.get_char(i);
        let ghost before = views(parts@);
        assert(s@.take(i + 1).drop_last() =~= s@.take(i as int));
        assert(s@.take(i + 1).last() == c);
        if c == sep {
            let piece = s.substring_char(start, i);
            parts.push(String::from_str(piece));
            assert(views(parts@) =~= before.push(s@.subrange(start as int, i as int)));
            start = i + 1;
            assert(s@.subrange(start as int, start as int) =~= Seq::<char>::empty());
        } else {
            assert(s@.subrange(start as int, i + 1) =~= s@.subrange(start as int, i as int).push(c));
            assert(before.push(s@.subrange(start as int, i as int)).update(
                before.len() as int,
                s@.subrange(start as int, i as int).push(c),
            ) =~= before.push(s@.subrange(start as int, i + 1)));
        }
        i = i + 1;
    }
    let last = s.substring_char(start, n);
    let ghost before = views(parts@);
    parts.push(String::from_str(last));
    assert(s@.take(n as int) =~= s@);
    assert(views(parts@) =~= before.push(s@.subrange(start as int, n as int)));
    parts
}

/// `s` without a leading "*.", as `s.strip_prefix("*.").unwrap_or(s)` gives it.
pub fn strip_wildcard_prefix(s: &str) -> (r: String)
    ensures
        r@ == strip_wildcard(s@),
{
    let n = s.unicode_len();
    if n >= 2 && s.get_char(0) == '*' && s.get_char(1) == '.' {
        String::from_str(s.substring_char(2, n))
    } else {
        String::from_str(s)
    }
}

fn strip_trailing_cr(s: &String) -> (r: String)
    ensures
        r@ == strip_cr(s@),
{
    let n = s.as_str().unicode_len();
    if n > 0 && s.as_str().get_char(n - 1) == '\r' {
        let r = String::from_str(s.as_str().substring_char(0, n - 1));
        assert(r@ =~= s@.drop_last());
        r
    } else {
        s.clone()
    }
}

/// The lines of `s`, as `str::lines` gives them.
pub fn lines(s: &str) -> (out: Vec<String>)
    ensures
        views(out@) == lines_of(s@),
{
    let parts = split_char(s, '\n');
    proof {
        lemma_split_nonempty(s@, '\n');
    }
    let n = parts.len();
    let mut out: Vec<String> = Vec::new();
    let mut i: usize = 0;
    while i + 1 < n
        invariant
            n == parts@.len(),
            n >= 1,
            i + 1 <= n,
            views(parts@) == split_on(s@, '\n'),
            out@.len() == i,
            forall|j: int| 0 <= j < i ==> #[trigger] out@[j]@ == strip_cr(parts@[j]@),
        decreases n - i,
    {
        let line = strip_trailing_cr(&parts[i]);
        out.push(line);
        i = i + 1;
    }
    assert(views(out@) =~= views(parts@).drop_last().map_values(|p: Seq<char>| strip_cr(p)));
    assert(views(parts@).last() == parts@[n - 1]@);
    if parts[n - 1].as_str().unicode_len() == 0 {
        out
    } else {
        let last = parts[n - 1].clone();
        let ghost before = views(out@);
        out.push(last);
        assert(views(out@) =~= before.push(views(parts@).last()));
        out
    }
}

} // verus!
