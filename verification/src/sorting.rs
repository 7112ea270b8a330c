//! Display ordering.  Features and dependencies are shown sorted by
//! (status, name); the underlying maps have no defined iteration order,
//! so the sort is what makes the report reproducible.  Entries carry
//! their position in the declaration order as a final tie-breaker, which
//! makes the sort key strict and the sorted order unique.

use vstd::prelude::*;
use vstd::multiset::Multiset;
use vstd::string::StrSliceExecFns;

verus! {

broadcast use vstd::seq_lib::group_to_multiset_ensures;

/// Strict lexicographic order on name texts, by code point; a proper
/// prefix orders before its extensions.
pub open spec fn lex_lt(a: Seq<char>, b: Seq<char>) -> bool
    decreases a.len(),
{
    if b.len() == 0 {
        false
    } else if a.len() == 0 {
        true
    } else if a[0] == b[0] {
        lex_lt(a.drop_first(), b.drop_first())
    } else {
        (a[0] as int) < (b[0] as int)
    }
}

proof fn lemma_lex_lt_asym(a: Seq<char>, b: Seq<char>)
    requires
        lex_lt(a, b),
    ensures
        !lex_lt(b, a),
    decreases a.len(),
{
    if b.len() != 0 && a.len() != 0 && a[0] == b[0] {
        lemma_lex_lt_asym(a.drop_first(), b.drop_first());
    }
}

proof fn lemma_lex_lt_trans(a: Seq<char>, b: Seq<char>, c: Seq<char>)
    requires
        lex_lt(a, b),
        lex_lt(b, c),
    ensures
        lex_lt(a, c),
    decreases a.len(),
{
    if c.len() != 0 && a.len() != 0 && b.len() != 0 && a[0] == b[0] && b[0] == c[0] {
        lemma_lex_lt_trans(a.drop_first(), b.drop_first(), c.drop_first());
    }
}

proof fn lemma_lex_lt_connected(a: Seq<char>, b: Seq<char>)
    ensures
        lex_lt(a, b) || lex_lt(b, a) || a == b,
    decreases a.len(),
{
    if a.len() == 0 && b.len() == 0 {
        assert(a =~= b);
    } else if a.len() != 0 && b.len() != 0 && a[0] == b[0] {
        lemma_lex_lt_connected(a.drop_first(), b.drop_first());
        if a.drop_first() == b.drop_first() {
            assert(a.drop_first().len() == b.drop_first().len());
            assert(a.len() == b.len());
            assert forall|i: int| 0 <= i < a.len() implies a[i] == b[i] by {
                if i > 0 {
                    assert(a.drop_first()[i - 1] == a[i]);
                    assert(b.drop_first()[i - 1] == b[i]);
                }
            }
            assert(a =~= b);
        }
    }
}

/// One line of the display order: the status rank, the name, and the
/// position in the declaration order, which breaks ties so that the key
/// is strict.
pub struct DisplayEntry {
    pub rank: u8,
    pub name: String,
    pub idx: usize,
}

pub open spec fn entry_key(e: DisplayEntry) -> (u8, Seq<char>, usize) {
    (e.rank, e.name@, e.idx)
}

/// The display order: by rank, then name, then declaration position.
pub open spec fn entry_le(a: DisplayEntry, b: DisplayEntry) -> bool {
    if a.rank != b.rank {
        a.rank < b.rank
    } else if a.name@ != b.name@ {
        lex_lt(a.name@, b.name@)
    } else {
        a.idx <= b.idx
    }
}

pub open spec fn sorted_entries(s: Seq<DisplayEntry>) -> bool {
    forall|i: int, j: int| 0 <= i < j < s.len() ==> entry_le(#[trigger] s[i], #[trigger] s[j])
}

pub proof fn lemma_entry_le_total(a: DisplayEntry, b: DisplayEntry)
    ensures
        entry_le(a, b) || entry_le(b, a),
{
    if a.rank == b.rank && a.name@ != b.name@ {
        lemma_lex_lt_connected(a.name@, b.name@);
    }
}

pub proof fn lemma_entry_le_trans(a: DisplayEntry, b: DisplayEntry, c: DisplayEntry)
    requires
        entry_le(a, b),
        entry_le(b, c),
    ensures
        entry_le(a, c),
{
    if a.rank == b.rank && b.rank == c.rank {
        if a.name@ != b.name@ && b.name@ != c.name@ && a.name@ != c.name@ {
            lemma_lex_lt_trans(a.name@, b.name@, c.name@);
        } else if a.name@ != b.name@ && b.name@ != c.name@ && a.name@ == c.name@ {
            lemma_lex_lt_asym(a.name@, b.name@);
        }
    }
}

/// Two entries ranking no higher than each other carry the same key.
pub proof fn lemma_entry_le_antisymmetric(a: DisplayEntry, b: DisplayEntry)
    requires
        entry_le(a, b),
        entry_le(b, a),
    ensures
        entry_key(a) == entry_key(b),
{
    if a.rank == b.rank && a.name@ != b.name@ {
        lemma_lex_lt_asym(a.name@, b.name@);
    }
}

fn string_lex_lt(a: &String, b: &String) -> (r: bool)
    ensures
        r == lex_lt(a@, b@),
{
    let la = a.as_str().unicode_len();
    let lb = b.as_str().unicode_len();
    let mut i: usize = 0;
    while i < la && i < lb
        invariant
            la == a@.len(),
            lb == b@.len(),
            i <= la,
            i <= lb,
            forall|t: int| 0 <= t < i ==> a@[t] == b@[t],
        decreases la - i,
    {
        let ca = a.as_str().get_char(i);
        let cb = b.as_str().get_char(i);
        if ca != cb {
            proof {
                lemma_lex_skip(a@, b@, i as int);
                assert(a@.skip(i as int)[0] == a@[i as int]);
                assert(b@.skip(i as int)[0] == b@[i as int]);
            }
            return (ca as u32) < (cb as u32);
        }
        i += 1;
    }
    proof {
        lemma_lex_skip(a@, b@, i as int);
    }
    la < lb
}

proof fn lemma_lex_skip(a: Seq<char>, b: Seq<char>, i: int)
    requires
        0 <= i <= a.len(),
        i <= b.len(),
        forall|t: int| 0 <= t < i ==> a[t] == b[t],
    ensures
        lex_lt(a, b) == lex_lt(a.skip(i), b.skip(i)),
    decreases i,
{
    if i == 0 {
        assert(a.skip(0) =~= a);
        assert(b.skip(0) =~= b);
    } else {
        assert(a[0] == b[0]);
        assert(forall|t: int|
            0 <= t < i - 1 ==> a.drop_first()[t] == b.drop_first()[t]);
        lemma_lex_skip(a.drop_first(), b.drop_first(), i - 1);
        assert(a.drop_first().skip(i - 1) =~= a.skip(i));
        assert(b.drop_first().skip(i - 1) =~= b.skip(i));
    }
}

pub fn entry_le_exec(a: &DisplayEntry, b: &DisplayEntry) -> (r: bool)
    ensures
        r == entry_le(*a, *b),
{
    if a.rank != b.rank {
        a.rank < b.rank
    } else if !(a.name == b.name) {
        string_lex_lt(&a.name, &b.name)
    } else {
        a.idx <= b.idx
    }
}

/// Sorts display entries into the display order.  The result is the
/// unique permutation of the input ordered by (rank, name, position);
/// since the input carries the declaration position, ties on (rank,
/// name) keep the declaration order.
pub fn sort_entries(input: Vec<DisplayEntry>) -> (r: Vec<DisplayEntry>)
    ensures
        sorted_entries(r@),
        r@.to_multiset() == input@.to_multiset(),
{
    let mut src = input;
    let ghost input_view = src@;
    let mut out: Vec<DisplayEntry> = Vec::new();
    proof {
        assert(out@.to_multiset().add(src@.to_multiset()) =~= input_view.to_multiset());
    }
    while src.len() > 0
        invariant
            out@.to_multiset().add(src@.to_multiset()) == input_view.to_multiset(),
            sorted_entries(out@),
            forall|i: int, j: int|
                0 <= i < out@.len() && 0 <= j < src@.len() ==> entry_le(
                    #[trigger] out@[i],
                    #[trigger] src@[j],
                ),
        decreases src@.len(),
    {
        let n = src.len();
        let mut mi: usize = 0;
        let mut t: usize = 1;
        while t < n
            invariant
                n == src@.len(),
                mi < t,
                t <= n,
                forall|q: int| 0 <= q < t ==> entry_le(src@[mi as int], #[trigger] src@[q]),
            decreases n - t,
        {
            if !entry_le_exec(&src[mi], &src[t]) {
                proof {
                    lemma_entry_le_total(src@[mi as int], src@[t as int]);
                    assert forall|q: int| 0 <= q < t + 1 implies entry_le(
                        src@[t as int],
                        #[trigger] src@[q],
                    ) by {
                        if q < t {
                            lemma_entry_le_trans(src@[t as int], src@[mi as int], src@[q]);
                        }
                    }
                }
                mi = t;
            }
            t += 1;
        }
        let ghost src_before = src@;
        let ghost out_before = out@;
        let x = src.remove(mi);
        out.push(x);
        proof {
            assert(src@ == src_before.remove(mi as int));
            assert(out@ == out_before.push(x));
            assert(out@.to_multiset().add(src@.to_multiset()) =~= input_view.to_multiset());
            assert forall|i: int, j: int|
                0 <= i < out@.len() && 0 <= j < src@.len() implies entry_le(
                #[trigger] out@[i],
                #[trigger] src@[j],
            ) by {
                assert(src@[j] == if j < mi as int {
                    src_before[j]
                } else {
                    src_before[j + 1]
                });
                if i < out_before.len() {
                    assert(out@[i] == out_before[i]);
                } else {
                    assert(out@[i] == x);
                }
            }
            assert forall|i: int, j: int| 0 <= i < j < out@.len() implies entry_le(
                #[trigger] out@[i],
                #[trigger] out@[j],
            ) by {
                if j < out_before.len() {
                    assert(out@[i] == out_before[i]);
                    assert(out@[j] == out_before[j]);
                } else {
                    assert(out@[j] == x);
                    assert(out@[i] == out_before[i]);
                    assert(entry_le(out_before[i], src_before[mi as int]));
                }
            }
        }
    }
    proof {
        assert(src@.to_multiset() =~= Multiset::<DisplayEntry>::empty());
        assert(out@.to_multiset() =~= input_view.to_multiset());
    }
    out
}

/// The sorted order is unique: two sorted sequences over the same
/// entries, whose keys identify their entries, are equal throughout.
/// This is what makes every display listing reproducible run over run.
pub proof fn lemma_sorted_permutation_unique(s1: Seq<DisplayEntry>, s2: Seq<DisplayEntry>)
    requires
        sorted_entries(s1),
        sorted_entries(s2),
        s1.to_multiset() == s2.to_multiset(),
        forall|x: DisplayEntry, y: DisplayEntry|
            s1.contains(x) && s1.contains(y) && entry_key(x) == entry_key(y) ==> x == y,
    ensures
        s1 == s2,
    decreases s1.len(),
{
    if s1.len() == 0 {
        assert(s2.to_multiset().len() == 0);
        assert(s1 =~= s2);
    } else {
        assert(s1.to_multiset().len() == s1.len());
        assert(s2.to_multiset().len() == s2.len());
        assert(s2.len() == s1.len());

        assert(s1.contains(s1[0]));
        assert(s2.contains(s2[0]));
        assert(s1.to_multiset().count(s2[0]) > 0);
        assert(s1.contains(s2[0]));
        assert(s2.to_multiset().count(s1[0]) > 0);
        assert(s2.contains(s1[0]));

        let v = choose|v: int| 0 <= v < s1.len() && s1[v] == s2[0];
        lemma_entry_le_refl(s1[0]);
        assert(entry_le(s1[0], s2[0]));
        let w = choose|w: int| 0 <= w < s2.len() && s2[w] == s1[0];
        lemma_entry_le_refl(s2[0]);
        assert(entry_le(s2[0], s1[0]));
        lemma_entry_le_antisymmetric(s1[0], s2[0]);
        assert(s1[0] == s2[0]);

        let d1 = s1.drop_first();
        let d2 = s2.drop_first();
        assert(s1.remove(0) =~= d1);
        assert(s2.remove(0) =~= d2);
        assert(d1.to_multiset() == s1.to_multiset().remove(s1[0]));
        assert(d2.to_multiset() == s2.to_multiset().remove(s2[0]));
        assert(d1.to_multiset() == d2.to_multiset());

        assert forall|x: DisplayEntry| d1.contains(x) implies s1.contains(x) by {
            assert(d1.to_multiset().count(x) > 0);
            assert(s1.to_multiset().count(x) >= d1.to_multiset().count(x));
        }
        assert forall|i: int, j: int| 0 <= i < j < d1.len() implies entry_le(
            #[trigger] d1[i],
            #[trigger] d1[j],
        ) by {
            assert(d1[i] == s1[i + 1]);
            assert(d1[j] == s1[j + 1]);
        }
        assert forall|i: int, j: int| 0 <= i < j < d2.len() implies entry_le(
            #[trigger] d2[i],
            #[trigger] d2[j],
        ) by {
            assert(d2[i] == s2[i + 1]);
            assert(d2[j] == s2[j + 1]);
        }
        lemma_sorted_permutation_unique(d1, d2);
        assert forall|i: int| 0 <= i < s1.len() implies s1[i] == s2[i] by {
            if i > 0 {
                assert(d1[i - 1] == s1[i]);
                assert(d2[i - 1] == s2[i]);
            }
        }
        assert(s1 =~= s2);
    }
}

pub proof fn lemma_entry_le_refl(a: DisplayEntry)
    ensures
        entry_le(a, a),
{
}

} // verus!
