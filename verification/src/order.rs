use crate::diagnostic::Diagnostic;
use vstd::prelude::*;

verus! {

/// Lexicographic comparison of two byte strings from index `i` on, given that
/// they agree before `i`: negative, zero or positive as `a` sorts before,
/// with or after `b`.
pub open spec fn lex_order_from(a: Seq<u8>, b: Seq<u8>, i: int) -> int
    decreases a.len() - i,
{
    if i < 0 || i >= a.len() || i >= b.len() {
        if a.len() < b.len() {
            -1
        } else if a.len() > b.len() {
            1
        } else {
            0
        }
    } else if a[i] < b[i] {
        -1
    } else if a[i] > b[i] {
        1
    } else {
        lex_order_from(a, b, i + 1)
    }
}

/// Lexicographic comparison of two byte strings.
pub open spec fn lex_order(a: Seq<u8>, b: Seq<u8>) -> int {
    lex_order_from(a, b, 0)
}

/// The bytes by which a diagnostic's file name is ordered.
pub open spec fn name_bytes(d: Diagnostic) -> Seq<u8> {
    vstd::utf8::encode_utf8(d.filename@)
}

/// `a` may stand before `b`: by file name, then start line, then start column.
pub open spec fn in_order(a: Diagnostic, b: Diagnostic) -> bool {
    let f = lex_order(name_bytes(a), name_bytes(b));
    f < 0 || (f == 0 && (a.range.start.line_index < b.range.start.line_index || (
    a.range.start.line_index == b.range.start.line_index && a.range.start.column_index
        <= b.range.start.column_index)))
}

/// `a` and `b` have the same file name bytes, start line and start column.
pub open spec fn same_key(a: Diagnostic, b: Diagnostic) -> bool {
    name_bytes(a) == name_bytes(b) && a.range.start == b.range.start
}

/// Every element may stand before every later one.
pub open spec fn is_sorted(s: Seq<Diagnostic>) -> bool {
    forall|i: int, j: int| 0 <= i < j < s.len() ==> in_order(#[trigger] s[i], #[trigger] s[j])
}

/// Where `x` goes in the sorted sequence `s`: behind the last element that may
/// stand before it.
pub open spec fn insert_pos(s: Seq<Diagnostic>, x: Diagnostic) -> int
    decreases s.len(),
{
    if s.len() == 0 || in_order(s.last(), x) {
        s.len() as int
    } else {
        insert_pos(s.drop_last(), x)
    }
}

/// The stable ordering of `s`: its elements taken from first to last, each put
/// behind the elements that may stand before it.
pub open spec fn stable_sorted(s: Seq<Diagnostic>) -> Seq<Diagnostic>
    decreases s.len(),
{
    if s.len() == 0 {
        Seq::empty()
    } else {
        let p = stable_sorted(s.drop_last());
        p.insert(insert_pos(p, s.last()), s.last())
    }
}

pub proof fn lemma_lex_flip(a: Seq<u8>, b: Seq<u8>, i: int)
    ensures
        lex_order_from(a, b, i) == -lex_order_from(b, a, i),
    decreases a.len() - i,
{
    if !(i < 0 || i >= a.len() || i >= b.len()) && a[i] == b[i] {
        lemma_lex_flip(a, b, i + 1);
    }
}

pub proof fn lemma_lex_equal(a: Seq<u8>, b: Seq<u8>, i: int)
    requires
        0 <= i,
        lex_order_from(a, b, i) == 0,
        i <= a.len(),
        i <= b.len(),
        a.take(i) == b.take(i),
    ensures
        a == b,
    decreases a.len() - i,
{
    if i >= a.len() || i >= b.len() {
        assert(a.len() == b.len());
        assert(a.take(i) == a);
        assert(b.take(i) == b);
    } else {
        assert(a[i] == b[i]);
        assert(a.take(i + 1) == a.take(i).push(a[i]));
        assert(b.take(i + 1) == b.take(i).push(b[i]));
        lemma_lex_equal(a, b, i + 1);
    }
}

pub proof fn lemma_lex_transitive(a: Seq<u8>, b: Seq<u8>, c: Seq<u8>, i: int)
    requires
        0 <= i,
        lex_order_from(a, b, i) <= 0,
        lex_order_from(b, c, i) <= 0,
    ensures
        lex_order_from(a, c, i) <= 0,
        lex_order_from(a, b, i) < 0 || lex_order_from(b, c, i) < 0 ==> lex_order_from(a, c, i) < 0,
    decreases a.len() - i,
{
    if i < a.len() && i < b.len() && i < c.len() && a[i] == b[i] && b[i] == c[i] {
        lemma_lex_transitive(a, b, c, i + 1);
    }
}

/// Of two diagnostics one may always stand before the other.
pub proof fn lemma_in_order_total(a: Diagnostic, b: Diagnostic)
    ensures
        in_order(a, b) || in_order(b, a),
{
    lemma_lex_flip(name_bytes(a), name_bytes(b), 0);
}

/// The order is transitive.
pub proof fn lemma_in_order_transitive(a: Diagnostic, b: Diagnostic, c: Diagnostic)
    requires
        in_order(a, b),
        in_order(b, c),
    ensures
        in_order(a, c),
{
    lemma_lex_transitive(name_bytes(a), name_bytes(b), name_bytes(c), 0);
}

/// Two diagnostics that may stand either way round have the same key.
pub proof fn lemma_in_order_antisymmetric(a: Diagnostic, b: Diagnostic)
    requires
        in_order(a, b),
        in_order(b, a),
    ensures
        same_key(a, b),
{
    lemma_lex_flip(name_bytes(a), name_bytes(b), 0);
    assert(name_bytes(a).take(0) == name_bytes(b).take(0));
    lemma_lex_equal(name_bytes(a), name_bytes(b), 0);
}

/// Compares two byte strings lexicographically.
pub fn compare_bytes(a: &[u8], b: &[u8]) -> (r: i8)
    ensures
        r == lex_order(a@, b@),
{
    let mut i: usize = 0;
    while i < a.len() && i < b.len()
        invariant
            0 <= i <= a.len(),
            i <= b.len(),
            lex_order(a@, b@) == lex_order_from(a@, b@, i as int),
        decreases a.len() - i,
    {
        if a[i] < b[i] {
            return -1;
        }
        if a[i] > b[i] {
            return 1;
        }
        i += 1;
    }
    if a.len() < b.len() {
        -1
    } else if a.len() > b.len() {
        1
    } else {
        0
    }
}

/// Decides whether `a` may stand before `b`.
pub fn precedes_or_ties(a: &Diagnostic, b: &Diagnostic) -> (r: bool)
    ensures
        r == in_order(*a, *b),
{
    let f: i8 = compare_bytes(a.filename.as_str().as_bytes(), b.filename.as_str().as_bytes());
    f < 0 || (f == 0 && (a.range.start.line_index < b.range.start.line_index || (
    a.range.start.line_index == b.range.start.line_index && a.range.start.column_index
        <= b.range.start.column_index)))
}

/// Inserting at `insert_pos` keeps a sorted sequence sorted.
pub proof fn lemma_insert_keeps_sorted(s: Seq<Diagnostic>, x: Diagnostic)
    requires
        is_sorted(s),
    ensures
        0 <= insert_pos(s, x) <= s.len(),
        forall|k: int| insert_pos(s, x) <= k < s.len() ==> !in_order(#[trigger] s[k], x),
        insert_pos(s, x) > 0 ==> in_order(s[insert_pos(s, x) - 1], x),
        is_sorted(s.insert(insert_pos(s, x), x)),
    decreases s.len(),
{
    let p = insert_pos(s, x);
    if s.len() == 0 || in_order(s.last(), x) {
    } else {
        let t = s.drop_last();
        assert(forall|i: int| 0 <= i < t.len() ==> t[i] == s[i]);
        lemma_insert_keeps_sorted(t, x);
        assert(forall|k: int| p <= k < s.len() ==> !in_order(#[trigger] s[k], x)) by {
            assert forall|k: int| p <= k < s.len() implies !in_order(#[trigger] s[k], x) by {
                if k < t.len() {
                    assert(s[k] == t[k]);
                }
            }
        }
        if p > 0 {
            assert(t[p - 1] == s[p - 1]);
        }
    }
    let r = s.insert(p, x);
    assert forall|i: int, j: int| 0 <= i < j < r.len() implies in_order(
        #[trigger] r[i],
        #[trigger] r[j],
    ) by {
        if j < p {
            assert(r[i] == s[i] && r[j] == s[j]);
        } else if j == p {
            assert(r[i] == s[i]);
            if i < p - 1 {
                assert(in_order(s[i], s[p - 1]));
                lemma_in_order_transitive(s[i], s[p - 1], x);
            }
        } else if i == p {
            assert(r[j] == s[j - 1]);
            lemma_in_order_total(s[j - 1], x);
        } else if i > p {
            assert(r[i] == s[i - 1] && r[j] == s[j - 1]);
        } else {
            assert(r[i] == s[i] && r[j] == s[j - 1]);
        }
    }
}

/// The stable ordering is sorted and holds each element as often as the input.
pub proof fn lemma_stable_sorted(s: Seq<Diagnostic>)
    ensures
        is_sorted(stable_sorted(s)),
        stable_sorted(s).to_multiset() == s.to_multiset(),
        stable_sorted(s).len() == s.len(),
    decreases s.len(),
{
    broadcast use vstd::seq_lib::group_to_multiset_ensures;

    if s.len() == 0 {
    } else {
        let t = s.drop_last();
        let p = stable_sorted(t);
        lemma_stable_sorted(t);
        lemma_insert_keeps_sorted(p, s.last());
        vstd::seq_lib::to_multiset_insert(p, insert_pos(p, s.last()), s.last());
        assert(t.push(s.last()) == s);
        vstd::seq_lib::to_multiset_build(t, s.last());
    }
}

/// Puts the diagnostics in order of file name, start line and start column;
/// diagnostics with the same key keep their relative order.
pub fn sort_diagnostics(diagnostics: &mut Vec<Diagnostic>)
    ensures
        final(diagnostics)@ == stable_sorted(old(diagnostics)@),
        is_sorted(final(diagnostics)@),
        final(diagnostics)@.to_multiset() == old(diagnostics)@.to_multiset(),
        final(diagnostics)@.len() == old(diagnostics)@.len(),
{
    let mut out: Vec<Diagnostic> = Vec::new();
    let n: usize = diagnostics.len();
    let mut i: usize = 0;
    while i < n
        invariant
            n == diagnostics@.len(),
            *diagnostics == *old(diagnostics),
            0 <= i <= n,
            out@ == stable_sorted(diagnostics@.take(i as int)),
        decreases n - i,
    {
        let x = diagnostics[i].duplicate();
        let mut pos: usize = out.len();
        proof {
            lemma_stable_sorted(diagnostics@.take(i as int));
            assert(out@.take(out@.len() as int) == out@);
        }
        while pos > 0 && !precedes_or_ties(&out[pos - 1], &x)
            invariant
                0 <= pos <= out@.len(),
                insert_pos(out@, x) == insert_pos(out@.take(pos as int), x),
            decreases pos,
        {
            proof {
                assert(out@.take(pos as int).drop_last() == out@.take(pos - 1));
            }
            pos -= 1;
        }
        proof {
            assert(diagnostics@.take(i + 1).drop_last() == diagnostics@.take(i as int));
            assert(diagnostics@.take(i + 1).last() == x);
        }
        out.insert(pos, x);
        i += 1;
    }
    proof {
        assert(diagnostics@.take(n as int) == diagnostics@);
        lemma_stable_sorted(diagnostics@);
    }
    *diagnostics = out;
}

} // verus!
