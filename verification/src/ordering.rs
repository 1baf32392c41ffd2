//! Lexicographic order on text, and a stable insertion sort by a pair of keys.

use vstd::prelude::*;
use vstd::seq_lib::{to_multiset_build, to_multiset_insert};

verus! {

/// `a` sorts strictly before `b`, comparing character by character as Rust
/// orders strings.
pub open spec fn lex_lt(a: Seq<char>, b: Seq<char>) -> bool
    decreases a.len(),
{
    if a.len() == 0 {
        b.len() > 0
    } else if b.len() == 0 {
        false
    } else if (a[0] as u32) < (b[0] as u32) {
        true
    } else if a[0] == b[0] {
        lex_lt(a.drop_first(), b.drop_first())
    } else {
        false
    }
}

pub proof fn lemma_lex_irreflexive(a: Seq<char>)
    ensures
        !lex_lt(a, a),
    decreases a.len(),
{
    if a.len() > 0 {
        lemma_lex_irreflexive(a.drop_first());
    }
}

pub proof fn lemma_lex_asymmetric(a: Seq<char>, b: Seq<char>)
    ensures
        !(lex_lt(a, b) && lex_lt(b, a)),
    decreases a.len(),
{
    if a.len() > 0 && b.len() > 0 && a[0] == b[0] {
        lemma_lex_asymmetric(a.drop_first(), b.drop_first());
    }
}

pub proof fn lemma_lex_total(a: Seq<char>, b: Seq<char>)
    ensures
        a == b || lex_lt(a, b) || lex_lt(b, a),
    decreases a.len(),
{
    if a.len() > 0 && b.len() > 0 && a[0] == b[0] {
        lemma_lex_total(a.drop_first(), b.drop_first());
        if a.drop_first() == b.drop_first() {
            assert(a == seq![a[0]] + a.drop_first());
            assert(b == seq![b[0]] + b.drop_first());
        }
    } else if a.len() == 0 && b.len() == 0 {
        assert(a == b);
    } else if a.len() > 0 && b.len() > 0 {
        vstd::utf8::char_u32_cast(a[0], a[0] as u32);
        vstd::utf8::char_u32_cast(b[0], b[0] as u32);
    }
}

pub proof fn lemma_lex_transitive(a: Seq<char>, b: Seq<char>, c: Seq<char>)
    requires
        lex_lt(a, b),
        lex_lt(b, c),
    ensures
        lex_lt(a, c),
    decreases a.len(),
{
    if a.len() > 0 && b.len() > 0 && c.len() > 0 && a[0] == b[0] && b[0] == c[0] {
        lemma_lex_transitive(a.drop_first(), b.drop_first(), c.drop_first());
    }
}

/// Compares two character sequences.
pub fn lex_less(a: &[char], b: &[char]) -> (r: bool)
    ensures
        r == lex_lt(a@, b@),
{
    let mut i: usize = 0;
    assert(a@.skip(0) == a@);
    assert(b@.skip(0) == b@);
    while i < a.len() && i < b.len() && a[i] == b[i]
        invariant
            i <= a@.len(),
            i <= b@.len(),
            lex_lt(a@, b@) == lex_lt(a@.skip(i as int), b@.skip(i as int)),
        decreases a@.len() - i,
    {
        assert(a@.skip(i as int).drop_first() == a@.skip(i + 1));
        assert(b@.skip(i as int).drop_first() == b@.skip(i + 1));
        i += 1;
    }
    if i == a.len() {
        i < b.len()
    } else if i == b.len() {
        false
    } else {
        (a[i] as u32) < (b[i] as u32)
    }
}

/// An item to sort: a primary and a secondary key, and a payload.
pub struct SortEntry {
    pub primary: Vec<char>,
    pub secondary: Vec<char>,
    pub value: String,
}

/// The abstract content of an entry.
pub open spec fn entry_view(e: SortEntry) -> (Seq<char>, Seq<char>, Seq<char>) {
    (e.primary@, e.secondary@, e.value@)
}

pub open spec fn entries_view(s: Seq<SortEntry>) -> Seq<(Seq<char>, Seq<char>, Seq<char>)> {
    s.map_values(|e: SortEntry| entry_view(e))
}

/// Strict order on entries: by primary key, then by secondary key.
pub open spec fn key_lt(x: (Seq<char>, Seq<char>, Seq<char>), y: (Seq<char>, Seq<char>, Seq<char>)) -> bool {
    lex_lt(x.0, y.0) || (x.0 == y.0 && lex_lt(x.1, y.1))
}

/// Non-strict order on entries: `x` does not sort after `y`.
pub open spec fn key_le(x: (Seq<char>, Seq<char>, Seq<char>), y: (Seq<char>, Seq<char>, Seq<char>)) -> bool {
    !key_lt(y, x)
}

/// Entries are in order of their keys.
pub open spec fn keys_sorted(s: Seq<(Seq<char>, Seq<char>, Seq<char>)>) -> bool {
    forall|i: int, j: int| 0 <= i < j < s.len() ==> key_le(#[trigger] s[i], #[trigger] s[j])
}

pub proof fn lemma_key_lt_transitive(
    x: (Seq<char>, Seq<char>, Seq<char>),
    y: (Seq<char>, Seq<char>, Seq<char>),
    z: (Seq<char>, Seq<char>, Seq<char>),
)
    requires
        key_lt(x, y),
        key_lt(y, z),
    ensures
        key_lt(x, z),
{
    if lex_lt(x.0, y.0) && lex_lt(y.0, z.0) {
        lemma_lex_transitive(x.0, y.0, z.0);
    } else if x.0 == y.0 && lex_lt(x.1, y.1) && y.0 == z.0 && lex_lt(y.1, z.1) {
        lemma_lex_transitive(x.1, y.1, z.1);
    }
}

/// `key_le` is transitive.
pub proof fn lemma_key_le_transitive(
    x: (Seq<char>, Seq<char>, Seq<char>),
    y: (Seq<char>, Seq<char>, Seq<char>),
    z: (Seq<char>, Seq<char>, Seq<char>),
)
    requires
        key_le(x, y),
        key_le(y, z),
    ensures
        key_le(x, z),
{
    if key_lt(z, x) {
        lemma_lex_total(x.0, y.0);
        lemma_lex_total(x.1, y.1);
        lemma_lex_total(y.0, z.0);
        lemma_lex_total(y.1, z.1);
        if key_lt(y, x) {
        } else if key_lt(x, y) {
            lemma_key_lt_transitive(z, x, y);
        } else {
            assert(x.0 == y.0 && x.1 == y.1);
            assert(key_lt(z, y));
        }
    }
}

/// Sorts entries by their keys, stably.
pub fn sort_entries(items: Vec<SortEntry>) -> (r: Vec<SortEntry>)
    ensures
        entries_view(r@).to_multiset() == entries_view(items@).to_multiset(),
        keys_sorted(entries_view(r@)),
{
    let mut out: Vec<SortEntry> = Vec::new();
    let mut items = items;
    let ghost orig = entries_view(items@);
    let ghost mut taken: Seq<(Seq<char>, Seq<char>, Seq<char>)> = Seq::empty();
    assert(orig == taken + entries_view(items@));
    proof {
        assert(entries_view(out@) =~= taken);
    }
    while items.len() > 0
        invariant
            orig == taken + entries_view(items@),
            entries_view(out@).to_multiset() == taken.to_multiset(),
            keys_sorted(entries_view(out@)),
        decreases items@.len(),
    {
        let x = items.remove(0);
        let ghost xv = entry_view(x);
        proof {
            assert(orig == taken + seq![xv] + entries_view(items@));
        }
        let mut p: usize = 0;
        while p < out.len() && !key_less_exec(&x, &out[p])
            invariant
                p <= out@.len(),
                forall|k: int| 0 <= k < p ==> key_le(#[trigger] entries_view(out@)[k], xv),
                xv == entry_view(x),
            decreases out@.len() - p,
        {
            p += 1;
        }
        let ghost ov = entries_view(out@);
        out.insert(p, x);
        proof {
            let nv = entries_view(out@);
            assert(nv == ov.insert(p as int, xv));
            to_multiset_insert(ov, p as int, xv);
            if p < ov.len() {
                assert(key_lt(xv, ov[p as int]));
            }
            assert forall|i: int, j: int| 0 <= i < j < nv.len() implies key_le(#[trigger] nv[i], #[trigger] nv[j]) by {
                if j < p {
                    assert(nv[i] == ov[i] && nv[j] == ov[j]);
                } else if j == p {
                    assert(nv[j] == xv && nv[i] == ov[i]);
                } else if i > p {
                    assert(nv[i] == ov[i - 1] && nv[j] == ov[j - 1]);
                } else if i == p {
                    // x sorts before ov[p] which is no later than ov[j - 1]
                    assert(nv[j] == ov[j - 1]);
                    if j - 1 > p {
                        assert(key_le(ov[p as int], ov[j - 1]));
                    }
                    lemma_lex_asymmetric(xv.0, ov[p as int].0);
                    lemma_lex_asymmetric(xv.1, ov[p as int].1);
                    assert(key_le(xv, ov[p as int]));
                    if j - 1 > p {
                        lemma_key_le_transitive(xv, ov[p as int], ov[j - 1]);
                    }
                } else {
                    // i < p < j
                    assert(nv[i] == ov[i] && nv[j] == ov[j - 1]);
                    assert(key_le(ov[i], xv));
                    if i < j - 1 {
                        assert(key_le(ov[i], ov[j - 1]));
                    }
                }
            }
        }
        proof {
            to_multiset_build(taken, xv);
            assert(orig == taken.push(xv) + entries_view(items@));
            taken = taken.push(xv);
        }
    }
    proof {
        assert(taken == orig);
    }
    out
}

fn key_less_exec(x: &SortEntry, y: &SortEntry) -> (r: bool)
    ensures
        r == key_lt(entry_view(*x), entry_view(*y)),
{
    if lex_less(x.primary.as_slice(), y.primary.as_slice()) {
        true
    } else if crate::text::chars_eq(x.primary.as_slice(), y.primary.as_slice()) {
        lex_less(x.secondary.as_slice(), y.secondary.as_slice())
    } else {
        false
    }
}

} // verus!
