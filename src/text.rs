//! Substring search, counting and replacement over character sequences.

use vstd::prelude::*;
use vstd::std_specs::iter::IteratorSpec;

verus! {

/// `p` stands at the very start of `s`.
pub open spec fn starts_with(s: Seq<char>, p: Seq<char>) -> bool {
    p.len() <= s.len() && s.subrange(0, p.len() as int) == p
}

/// `p` occurs in `s` starting at position `i`.
pub open spec fn occurs_at(s: Seq<char>, p: Seq<char>, i: int) -> bool {
    0 <= i && i + p.len() <= s.len() && s.subrange(i, i + p.len()) == p
}

/// `p` occurs somewhere in `s`.
pub open spec fn contains(s: Seq<char>, p: Seq<char>) -> bool {
    exists|i: int| occurs_at(s, p, i)
}

/// No nonempty proper prefix of `v` is also a suffix of it, so two
/// occurrences of `v` can never overlap.
pub open spec fn unbordered(v: Seq<char>) -> bool {
    forall|k: int|
        0 < k < v.len() ==> #[trigger] v.subrange(0, k) != v.subrange(v.len() - k, v.len() as int)
}

/// Number of positions of `s` at which `p` starts, overlapping ones included.
pub open spec fn occurrence_count(s: Seq<char>, p: Seq<char>) -> nat
    decreases s.len(),
{
    if s.len() == 0 {
        0
    } else {
        (if starts_with(s, p) { 1nat } else { 0nat }) + occurrence_count(s.drop_first(), p)
    }
}

/// `s` with the occurrences of `p` replaced by `v`, scanning from the left
/// and resuming after each replaced occurrence. An empty `p` matches before
/// every character and at the end.
pub open spec fn replaced(s: Seq<char>, p: Seq<char>, v: Seq<char>) -> Seq<char>
    decreases s.len(),
{
    if p.len() == 0 {
        if s.len() == 0 {
            v
        } else {
            v + seq![s[0]] + replaced(s.drop_first(), p, v)
        }
    } else if s.len() == 0 {
        s
    } else if starts_with(s, p) {
        v + replaced(s.skip(p.len() as int), p, v)
    } else {
        seq![s[0]] + replaced(s.drop_first(), p, v)
    }
}

/// Number of occurrences of `p` in `s` counted from the left without
/// overlap. An empty `p` matches before every character and at the end.
pub open spec fn match_count(s: Seq<char>, p: Seq<char>) -> nat
    decreases s.len(),
{
    if p.len() == 0 {
        s.len() + 1
    } else if s.len() == 0 {
        0
    } else if starts_with(s, p) {
        1 + match_count(s.skip(p.len() as int), p)
    } else {
        match_count(s.drop_first(), p)
    }
}

/// `p` occurs in `s` exactly when it stands at the start of `s` or occurs in
/// the rest after the first character.
proof fn lemma_contains_unfold(s: Seq<char>, p: Seq<char>)
    requires
        s.len() > 0,
        p.len() > 0,
    ensures
        contains(s, p) == (starts_with(s, p) || contains(s.drop_first(), p)),
{
    if starts_with(s, p) {
        assert(s.subrange(0, p.len() as int) =~= p);
        assert(occurs_at(s, p, 0));
    }
    if contains(s.drop_first(), p) {
        let i = choose|i: int| occurs_at(s.drop_first(), p, i);
        assert(s.drop_first().subrange(i, i + p.len()) =~= s.subrange(i + 1, i + 1 + p.len()));
        assert(occurs_at(s, p, i + 1));
    }
    if contains(s, p) {
        let i = choose|i: int| occurs_at(s, p, i);
        if i == 0 {
            assert(s.subrange(0, p.len() as int) =~= p);
        } else {
            assert(s.drop_first().subrange(i - 1, i - 1 + p.len()) =~= s.subrange(
                i,
                i + p.len(),
            ));
            assert(occurs_at(s.drop_first(), p, i - 1));
        }
    }
}

/// The count of a nonempty pattern is zero exactly when the pattern does not
/// occur in the text.
pub proof fn lemma_count_zero_iff_absent(s: Seq<char>, p: Seq<char>)
    requires
        p.len() > 0,
    ensures
        (match_count(s, p) == 0) == !contains(s, p),
    decreases s.len(),
{
    if s.len() == 0 {
        if contains(s, p) {
            let i = choose|i: int| occurs_at(s, p, i);
        }
    } else {
        lemma_contains_unfold(s, p);
        if !starts_with(s, p) {
            lemma_count_zero_iff_absent(s.drop_first(), p);
        }
    }
}

/// After an occurrence of an unbordered `p` at the start of `s`, no other
/// occurrence starts before its end.
proof fn lemma_skip_inside_occurrence(s: Seq<char>, p: Seq<char>, j: int)
    requires
        starts_with(s, p),
        unbordered(p),
        1 <= j <= p.len(),
    ensures
        occurrence_count(s.drop_first(), p) == occurrence_count(s.skip(j), p),
    decreases j,
{
    if j == 1 {
        assert(s.drop_first() =~= s.skip(1));
    } else {
        lemma_skip_inside_occurrence(s, p, j - 1);
        let t = s.skip(j - 1);
        assert(t.len() > 0);
        assert(!starts_with(t, p)) by {
            if starts_with(t, p) {
                let k = p.len() - (j - 1);
                assert(p.subrange(0, k) =~= t.subrange(0, k));
                assert(t.subrange(0, k) =~= s.subrange(j - 1, p.len() as int));
                assert(s.subrange(j - 1, p.len() as int) =~= p.subrange(j - 1, p.len() as int));
                assert(p.subrange(0, k) == p.subrange(p.len() - k, p.len() as int));
            }
        }
        assert(t.drop_first() =~= s.skip(j));
    }
}

/// For a nonempty pattern that cannot overlap itself, counting from the
/// left without overlap finds every occurrence.
pub proof fn lemma_count_is_occurrences(s: Seq<char>, p: Seq<char>)
    requires
        p.len() > 0,
        unbordered(p),
    ensures
        match_count(s, p) == occurrence_count(s, p),
    decreases s.len(),
{
    if s.len() > 0 {
        if starts_with(s, p) {
            lemma_skip_inside_occurrence(s, p, p.len() as int);
            lemma_count_is_occurrences(s.skip(p.len() as int), p);
        } else {
            lemma_count_is_occurrences(s.drop_first(), p);
        }
    }
}

/// Relies on `String::push`: appends one character at the end.
#[verifier::external_body]
fn push_char(s: &mut String, c: char)
    ensures
        final(s)@ == old(s)@.push(c),
{
    s.push(c);
}

/// Whether `p` stands in `t` at position `i`.
fn matches_at(t: &Vec<char>, i: usize, p: &Vec<char>) -> (r: bool)
    requires
        i <= t.len(),
    ensures
        r == starts_with(t@.skip(i as int), p@),
        r == occurs_at(t@, p@, i as int),
{
    if p.len() > t.len() - i {
        return false;
    }
    let mut j: usize = 0;
    while j < p.len()
        invariant
            j <= p.len(),
            i + p.len() <= t.len(),
            forall|k: int| 0 <= k < j ==> t@[i + k] == p@[k],
        decreases p.len() - j,
    {
        if t[i + j] != p[j] {
            assert(t@.skip(i as int).subrange(0, p.len() as int)[j as int] != p@[j as int]);
            assert(t@.subrange(i as int, i + p.len())[j as int] != p@[j as int]);
            return false;
        }
        j = j + 1;
    }
    assert(t@.skip(i as int).subrange(0, p.len() as int) =~= p@);
    assert(t@.subrange(i as int, i + p.len()) =~= p@);
    true
}

/// Whether `pat` occurs in `text`.
pub fn contains_text(text: &str, pat: &str) -> (r: bool)
    ensures
        r == contains(text@, pat@),
{
    let t = chars_of(text);
    let p = chars_of(pat);
    if p.len() == 0 {
        assert(t@.subrange(0, 0) =~= p@);
        assert(occurs_at(t@, p@, 0));
        return true;
    }
    if p.len() > t.len() {
        return false;
    }
    let mut i: usize = 0;
    while i <= t.len() - p.len()
        invariant
            0 < p.len() <= t.len(),
            i <= t.len() - p.len() + 1,
            t@ == text@,
            p@ == pat@,
            forall|k: int| 0 <= k < i ==> !occurs_at(t@, p@, k),
        decreases t.len() - p.len() + 1 - i,
    {
        if matches_at(&t, i, &p) {
            return true;
        }
        i = i + 1;
    }
    false
}

/// Number of occurrences of `pat` in `text`, counted from the left without
/// overlap; case is significant.
pub fn count_matches(text: &str, pat: &str) -> (r: usize)
    requires
        pat@.len() == 0 ==> text@.len() < usize::MAX,
    ensures
        r == match_count(text@, pat@),
{
    let t = chars_of(text);
    let p = chars_of(pat);
    if p.len() == 0 {
        return t.len() + 1;
    }
    let mut n: usize = 0;
    let mut i: usize = 0;
    assert(t@.skip(0) =~= t@);
    while i < t.len()
        invariant
            i <= t.len(),
            p.len() > 0,
            t@ == text@,
            p@ == pat@,
            n + match_count(t@.skip(i as int), p@) == match_count(t@, p@),
            n <= i,
        decreases t.len() - i,
    {
        assert(t@.skip(i as int).len() > 0);
        if matches_at(&t, i, &p) {
            assert(t@.skip(i as int).skip(p.len() as int) =~= t@.skip(i + p.len()));
            n = n + 1;
            i = i + p.len();
        } else {
            assert(t@.skip(i as int).drop_first() =~= t@.skip(i + 1));
            i = i + 1;
        }
    }
    assert(t@.skip(i as int).len() == 0);
    n
}

/// `text` with every occurrence of `from` replaced by `to`, scanning from the
/// left without overlap.
pub fn replace_all(text: &str, from: &str, to: &str) -> (r: String)
    ensures
        r@ == replaced(text@, from@, to@),
{
    let t = chars_of(text);
    let p = chars_of(from);
    let mut out = String::new();
    let mut i: usize = 0;
    assert(t@.skip(0) =~= t@);
    assert(out@ + replaced(t@, p@, to@) =~= replaced(t@, p@, to@));
    if p.len() == 0 {
        while i < t.len()
            invariant
                i <= t.len(),
                p@.len() == 0,
                t@ == text@,
                p@ == from@,
                out@ + replaced(t@.skip(i as int), p@, to@) == replaced(t@, p@, to@),
            decreases t.len() - i,
        {
            let ghost before = out@;
            assert(t@.skip(i as int).drop_first() =~= t@.skip(i + 1));
            out.append(to);
            push_char(&mut out, t[i]);
            assert(before + replaced(t@.skip(i as int), p@, to@) =~= out@ + replaced(
                t@.skip(i + 1),
                p@,
                to@,
            ));
            i = i + 1;
        }
        let ghost before = out@;
        out.append(to);
        assert(t@.skip(i as int).len() == 0);
        assert(before + replaced(t@.skip(i as int), p@, to@) =~= out@);
        return out;
    }
    while i < t.len()
        invariant
            i <= t.len(),
            p@.len() > 0,
            t@ == text@,
            p@ == from@,
            out@ + replaced(t@.skip(i as int), p@, to@) == replaced(t@, p@, to@),
        decreases t.len() - i,
    {
        let ghost before = out@;
        assert(t@.skip(i as int).len() > 0);
        if matches_at(&t, i, &p) {
            assert(t@.skip(i as int).skip(p.len() as int) =~= t@.skip(i + p.len()));
            out.append(to);
            assert(before + replaced(t@.skip(i as int), p@, to@) =~= out@ + replaced(
                t@.skip(i + p.len()),
                p@,
                to@,
            ));
            i = i + p.len();
        } else {
            assert(t@.skip(i as int).drop_first() =~= t@.skip(i + 1));
            push_char(&mut out, t[i]);
            assert(before + replaced(t@.skip(i as int), p@, to@) =~= out@ + replaced(
                t@.skip(i + 1),
                p@,
                to@,
            ));
            i = i + 1;
        }
    }
    assert(t@.skip(i as int).len() == 0);
    assert(out@ + replaced(t@.skip(i as int), p@, to@) =~= out@);
    out
}

/// Collects the characters of `s` into a vector.
pub fn chars_of(s: &str) -> (r: Vec<char>)
    ensures
        r@ == s@,
{
    let mut it = s.chars();
    let mut out: Vec<char> = Vec::new();
    loop
        invariant
            it.remaining() == s@.skip(out.len() as int),
            out@ == s@.take(out.len() as int),
            out.len() <= s@.len(),
        ensures
            out@ == s@,
        decreases s@.len() - out.len(),
    {
        match it.next() {
            Some(c) => {
                assert(s@.skip(out.len() as int)[0] == c);
                out.push(c);
                assert(out@ =~= s@.take(out.len() as int));
                assert(s@.skip(out.len() as int) =~= s@.skip((out.len() - 1) as int).drop_first());
            },
            None => {
                assert(out@ =~= s@);
                break;
            },
        }
    }
    out
}

} // verus!
