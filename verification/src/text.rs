use vstd::prelude::*;

verus! {

/// The concatenation of all parts, in order.
pub open spec fn concat(parts: Seq<Seq<char>>) -> Seq<char>
    decreases parts.len(),
{
    if parts.len() == 0 {
        Seq::empty()
    } else {
        concat(parts.drop_last()) + parts.last()
    }
}

/// The concatenation of non-empty parts is the first part followed by the concatenation
/// of the others.
pub proof fn lemma_concat_front(parts: Seq<Seq<char>>)
    requires
        parts.len() > 0,
    ensures
        concat(parts) == parts[0] + concat(parts.skip(1)),
    decreases parts.len(),
{
    if parts.len() == 1 {
        assert(parts.drop_last() =~= Seq::<Seq<char>>::empty());
        assert(parts.skip(1) =~= Seq::<Seq<char>>::empty());
        assert(Seq::<char>::empty() + parts[0] =~= parts[0] + Seq::<char>::empty());
    } else {
        let front = parts.drop_last();
        lemma_concat_front(front);
        assert(front.skip(1) =~= parts.skip(1).drop_last());
        assert(parts.skip(1).last() == parts.last());
        assert(front[0] == parts[0]);
        assert(parts[0] + concat(front.skip(1)) + parts.last() =~= parts[0] + (concat(
            front.skip(1),
        ) + parts.last()));
    }
}

/// The views of a sequence of strings.
pub open spec fn string_views(v: Seq<String>) -> Seq<Seq<char>> {
    v.map_values(|s: String| s@)
}

/// `s` with every leftmost, non-overlapping occurrence of `pat` replaced by `to`,
/// scanning from the left (for a non-empty `pat`).
pub open spec fn replaced(s: Seq<char>, pat: Seq<char>, to: Seq<char>) -> Seq<char>
    decreases s.len(),
{
    if s.len() == 0 {
        Seq::empty()
    } else if 0 < pat.len() <= s.len() && s.take(pat.len() as int) == pat {
        to + replaced(s.skip(pat.len() as int), pat, to)
    } else {
        seq![s[0]] + replaced(s.skip(1), pat, to)
    }
}

/// `pat` occurs in `s` at position `i`.
pub open spec fn occurs_at(s: Seq<char>, pat: Seq<char>, i: int) -> bool {
    0 <= i && i + pat.len() <= s.len() && s.subrange(i, i + pat.len()) == pat
}

/// `pat` occurs somewhere in `s`.
pub open spec fn contains_seq(s: Seq<char>, pat: Seq<char>) -> bool {
    exists|i: int| #[trigger] occurs_at(s, pat, i)
}

/// Replacing a pattern that does not occur leaves the text as it is.
pub proof fn lemma_replace_without_match(s: Seq<char>, pat: Seq<char>, to: Seq<char>)
    requires
        pat.len() > 0,
        !contains_seq(s, pat),
    ensures
        replaced(s, pat, to) == s,
    decreases s.len(),
{
    if s.len() > 0 {
        if pat.len() <= s.len() && s.take(pat.len() as int) == pat {
            assert(s.subrange(0, pat.len() as int) =~= s.take(pat.len() as int));
            assert(occurs_at(s, pat, 0));
        }
        let t = s.skip(1);
        assert forall|i: int| !#[trigger] occurs_at(t, pat, i) by {
            if occurs_at(t, pat, i) {
                assert(s.subrange(i + 1, i + 1 + pat.len()) =~= t.subrange(i, i + pat.len()));
                assert(occurs_at(s, pat, i + 1));
            }
        }
        lemma_replace_without_match(t, pat, to);
        assert(seq![s[0]] + t =~= s);
    }
}

/// The characters of `s`, in order.
pub fn chars_of(s: &str) -> (r: Vec<char>)
    ensures
        r@ == s@,
{
    let mut out: Vec<char> = Vec::new();
    for c in it: s.chars()
        invariant
            out@ == it.seq().take(it.index() as int),
            it.seq() == s@,
    {
        out.push(c);
    }
    out
}

/// Concatenates the parts in order (what collecting text pieces into a `String` does).
pub fn concat_strings(parts: &Vec<String>) -> (r: String)
    ensures
        r@ == concat(string_views(parts@)),
{
    let mut out = String::new();
    let ghost views = string_views(parts@);
    for i in 0..parts.len()
        invariant
            views == string_views(parts@),
            out@ == concat(views.take(i as int)),
    {
        out.append(parts[i].as_str());
        assert(views.take(i + 1).drop_last() =~= views.take(i as int));
    }
    assert(views.take(parts.len() as int) =~= views);
    out
}

/// Whether `pat` occurs in `cs` at position `i`.
fn matches_at(cs: &Vec<char>, pat: &Vec<char>, i: usize) -> (r: bool)
    requires
        i <= cs.len(),
    ensures
        r == occurs_at(cs@, pat@, i as int),
{
    if pat.len() > cs.len() - i {
        return false;
    }
    let mut j: usize = 0;
    while j < pat.len()
        invariant
            j <= pat.len(),
            i + pat.len() <= cs.len(),
            forall|k: int| 0 <= k < j ==> cs@[i + k] == pat@[k],
        decreases pat.len() - j,
    {
        if cs[i + j] != pat[j] {
            assert(cs@.subrange(i as int, i + pat.len())[j as int] != pat@[j as int]);
            return false;
        }
        j += 1;
    }
    assert(cs@.subrange(i as int, i + pat.len()) =~= pat@);
    true
}

proof fn lemma_replaced_step(s: Seq<char>, pat: Seq<char>, to: Seq<char>, i: int)
    requires
        pat.len() > 0,
        0 <= i < s.len(),
    ensures
        occurs_at(s, pat, i) ==> replaced(s.skip(i), pat, to) == to + replaced(
            s.skip(i + pat.len()),
            pat,
            to,
        ),
        !occurs_at(s, pat, i) ==> replaced(s.skip(i), pat, to) == seq![s[i]] + replaced(
            s.skip(i + 1),
            pat,
            to,
        ),
{
    let t = s.skip(i);
    assert(t.skip(1) =~= s.skip(i + 1));
    if i + pat.len() <= s.len() {
        assert(t.skip(pat.len() as int) =~= s.skip(i + pat.len()));
        assert(t.take(pat.len() as int) =~= s.subrange(i, i + pat.len()));
    }
}

/// `s` with every occurrence of the non-empty `pat` replaced by `to`, as `str::replace` does.
pub fn replace_all(s: &str, pat: &str, to: &str) -> (r: String)
    requires
        pat@.len() > 0,
    ensures
        r@ == replaced(s@, pat@, to@),
{
    let cs = chars_of(s);
    let ps = chars_of(pat);
    let n = cs.len();
    let m = ps.len();
    let mut out = String::new();
    let mut seg: usize = 0;
    let mut i: usize = 0;
    assert(s@.skip(0) =~= s@);
    while i < n
        invariant
            n == cs@.len(),
            cs@ == s@,
            ps@ == pat@,
            m == pat@.len(),
            m > 0,
            seg <= i <= n,
            replaced(s@, pat@, to@) == out@ + s@.subrange(seg as int, i as int) + replaced(
                s@.skip(i as int),
                pat@,
                to@,
            ),
        decreases n - i,
    {
        proof {
            lemma_replaced_step(s@, pat@, to@, i as int);
        }
        if matches_at(&cs, &ps, i) {
            let piece = s.substring_char(seg, i);
            out.append(piece);
            out.append(to);
            i = i + m;
            seg = i;
            assert(s@.subrange(seg as int, i as int) =~= Seq::<char>::empty());
        } else {
            assert(s@.subrange(seg as int, i + 1) =~= s@.subrange(seg as int, i as int) + seq![
                s@[i as int],
            ]);
            i = i + 1;
        }
    }
    assert(s@.skip(n as int) =~= Seq::<char>::empty());
    let piece = s.substring_char(seg, n);
    out.append(piece);
    out
}


/// The pieces of `s` between occurrences of `sep`, in order, as `str::split` with a
/// single-character pattern yields them (there is always at least one piece).
pub open spec fn split_on(s: Seq<char>, sep: char) -> Seq<Seq<char>>
    decreases s.len(),
{
    if s.len() == 0 {
        seq![Seq::empty()]
    } else {
        let r = split_on(s.drop_last(), sep);
        if s.last() == sep {
            r.push(Seq::empty())
        } else {
            r.update(r.len() - 1, r.last().push(s.last()))
        }
    }
}

/// The pieces joined back together with `sep` between consecutive pieces.
pub open spec fn join_with(parts: Seq<Seq<char>>, sep: char) -> Seq<char>
    decreases parts.len(),
{
    if parts.len() == 0 {
        Seq::empty()
    } else if parts.len() == 1 {
        parts[0]
    } else {
        join_with(parts.drop_last(), sep) + seq![sep] + parts.last()
    }
}

proof fn lemma_split_nonempty(s: Seq<char>, sep: char)
    ensures
        split_on(s, sep).len() >= 1,
    decreases s.len(),
{
    if s.len() > 0 {
        lemma_split_nonempty(s.drop_last(), sep);
    }
}

/// Splitting on `sep` and joining the pieces with `sep` gives back the original text.
pub proof fn lemma_split_join(s: Seq<char>, sep: char)
    ensures
        join_with(split_on(s, sep), sep) == s,
    decreases s.len(),
{
    if s.len() > 0 {
        let r = split_on(s.drop_last(), sep);
        lemma_split_nonempty(s.drop_last(), sep);
        lemma_split_join(s.drop_last(), sep);
        if s.last() == sep {
            assert(r.push(Seq::empty()).drop_last() =~= r);
            assert(s =~= s.drop_last() + seq![sep] + Seq::<char>::empty());
        } else {
            let u = r.update(r.len() - 1, r.last().push(s.last()));
            if r.len() == 1 {
                assert(s =~= r[0].push(s.last()));
            } else {
                assert(u.drop_last() =~= r.drop_last());
                assert(join_with(r, sep) == join_with(r.drop_last(), sep) + seq![sep] + r.last());
                assert(s.drop_last() == join_with(r, sep));
                assert(s =~= s.drop_last().push(s.last()));
                assert(s =~= join_with(r.drop_last(), sep) + seq![sep] + r.last().push(s.last()));
            }
        }
    }
}

/// A text without `sep` is a single piece.
pub proof fn lemma_split_without_sep(s: Seq<char>, sep: char)
    requires
        forall|i: int| 0 <= i < s.len() ==> #[trigger] s[i] != sep,
    ensures
        split_on(s, sep) == seq![s],
    decreases s.len(),
{
    if s.len() > 0 {
        assert forall|i: int| 0 <= i < s.drop_last().len() implies #[trigger] s.drop_last()[i]
            != sep by {
            assert(s.drop_last()[i] == s[i]);
        }
        lemma_split_without_sep(s.drop_last(), sep);
        assert(s.last() == s[s.len() - 1]);
        assert(s.drop_last().push(s.last()) =~= s);
        assert(seq![s.drop_last()].update(0, s.drop_last().push(s.last())) =~= seq![s]);
    } else {
        assert(s =~= Seq::<char>::empty());
    }
}

/// Splitting `a`, `sep`, `b` gives the pieces of `a` followed by the pieces of `b`.
pub proof fn lemma_split_concat(a: Seq<char>, b: Seq<char>, sep: char)
    ensures
        split_on(a + seq![sep] + b, sep) == split_on(a, sep) + split_on(b, sep),
    decreases b.len(),
{
    let s = a + seq![sep] + b;
    if b.len() == 0 {
        assert(s.drop_last() =~= a);
        assert(split_on(b, sep) == seq![Seq::<char>::empty()]);
        assert(split_on(a, sep).push(Seq::empty()) =~= split_on(a, sep) + seq![Seq::<char>::empty()]);
    } else {
        assert(s.drop_last() =~= a + seq![sep] + b.drop_last());
        lemma_split_concat(a, b.drop_last(), sep);
        lemma_split_nonempty(b.drop_last(), sep);
        let ra = split_on(a, sep);
        let rb = split_on(b.drop_last(), sep);
        let r = ra + rb;
        assert(split_on(s.drop_last(), sep) == r);
        assert(s.last() == b.last());
        if b.last() == sep {
            assert(r.push(Seq::empty()) =~= ra + rb.push(Seq::empty()));
        } else {
            assert(r.update(r.len() - 1, r.last().push(s.last())) =~= ra + rb.update(
                rb.len() - 1,
                rb.last().push(b.last()),
            ));
        }
    }
}

/// The pieces of `s` between occurrences of `sep` (what `s.split(sep)` yields).
pub fn split_pieces(s: &str, sep: char) -> (r: Vec<String>)
    ensures
        string_views(r@) == split_on(s@, sep),
{
    let cs = chars_of(s);
    let n = cs.len();
    let mut out: Vec<String> = Vec::new();
    let mut start: usize = 0;
    let mut i: usize = 0;
    assert(s@.take(0) =~= Seq::<char>::empty());
    assert(split_on(s@.take(0), sep) == seq![Seq::<char>::empty()]);
    assert(string_views(out@).push(s@.subrange(0, 0)) =~= split_on(s@.take(0), sep));
    while i < n
        invariant
            n == cs@.len(),
            cs@ == s@,
            start <= i <= n,
            string_views(out@).push(s@.subrange(start as int, i as int)) == split_on(
                s@.take(i as int),
                sep,
            ),
        decreases n - i,
    {
        let ghost prev = split_on(s@.take(i as int), sep);
        assert(s@.take(i + 1).drop_last() =~= s@.take(i as int));
        if cs[i] == sep {
            let piece = s.substring_char(start, i);
            out.push(piece.to_string());
            i = i + 1;
            start = i;
            assert(string_views(out@) =~= prev);
            assert(s@.subrange(start as int, i as int) =~= Seq::<char>::empty());
        } else {
            assert(s@.subrange(start as int, i + 1) =~= s@.subrange(start as int, i as int).push(
                cs@[i as int],
            ));
            i = i + 1;
        }
        assert(string_views(out@).push(s@.subrange(start as int, i as int)) =~= split_on(
            s@.take(i as int),
            sep,
        ));
    }
    let last = s.substring_char(start, n);
    out.push(last.to_string());
    assert(s@.take(n as int) =~= s@);
    assert(string_views(out@) =~= split_on(s@, sep));
    out
}

} // verus!
