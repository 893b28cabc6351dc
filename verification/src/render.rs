//! Frame-local draw ordering of collision primitives: a stable sort of
//! render-order entries by a depth coordinate carried as an IEEE-754
//! single-precision bit pattern. Entries whose key is not a number are never
//! admitted; for the admitted keys the order below coincides with the usual
//! order on the values they encode.

use vstd::prelude::*;

verus! {

/// What a render-order entry points at: a collision box of the frame, or a
/// link that melds two boxes into one capsule.
#[derive(Clone, Copy, Debug, PartialEq, Eq, Structural)]
pub enum RenderOrder {
    Colbox(usize),
    Link(usize),
}

/// A render-order entry before sorting: the reference and its depth sort key
/// (a single-precision bit pattern).
#[derive(Clone, Copy, Debug, PartialEq, Eq, Structural)]
pub struct RenderEntry {
    pub order: RenderOrder,
    pub key: u32,
}

/// True when the bit pattern encodes a not-a-number value: exponent bits all
/// set and a nonzero mantissa.
pub open spec fn is_nan_bits(k: u32) -> bool {
    k / 0x80_0000 % 0x100 == 0xFF && k % 0x80_0000 != 0
}

/// Reports whether the bit pattern encodes a not-a-number value.
pub fn is_nan_bits_exec(k: u32) -> (r: bool)
    ensures
        r == is_nan_bits(k),
{
    k / 0x80_0000 % 0x100 == 0xFF && k % 0x80_0000 != 0
}

/// The negative zero bit pattern encodes the same value as zero; ranking
/// rewrites it to zero first.
pub open spec fn canon_zero(k: u32) -> u32 {
    if k == 0x8000_0000 {
        0
    } else {
        k
    }
}

/// Rank of a non-NaN single-precision bit pattern: a monotone mapping of the
/// encoded values into the integers. Bit patterns with the sign bit clear
/// encode values that grow with the pattern; patterns with the sign bit set
/// encode negative values that shrink as the pattern grows, so their order is
/// reversed and they rank below all of the former.
pub open spec fn key_rank(k: u32) -> int {
    let c = canon_zero(k);
    if c < 0x8000_0000 {
        c + 0x8000_0000
    } else {
        0xFFFF_FFFFu32 - c
    }
}

/// Computes the rank of a sort key.
pub fn key_rank_exec(k: u32) -> (r: u32)
    ensures
        r == key_rank(k),
{
    let c: u32 = if k == 0x8000_0000 {
        0
    } else {
        k
    };
    if c < 0x8000_0000 {
        c + 0x8000_0000
    } else {
        0xFFFF_FFFFu32 - c
    }
}

/// True when the entries are sorted by rank, smallest first.
pub open spec fn sorted_by_rank(s: Seq<RenderEntry>) -> bool {
    forall|i: int, j: int| 0 <= i < j < s.len() ==> key_rank(s[i].key) <= key_rank(s[j].key)
}

/// Where a stable sort puts one more entry: after every settled entry whose
/// rank does not exceed the new entry's rank.
pub open spec fn insert_spec(s: Seq<RenderEntry>, x: RenderEntry) -> Seq<RenderEntry>
    decreases s.len(),
{
    if s.len() == 0 {
        seq![x]
    } else if key_rank(s.last().key) <= key_rank(x.key) {
        s.push(x)
    } else {
        insert_spec(s.drop_last(), x).push(s.last())
    }
}

/// The stable sort of the entries by rank: each entry in turn is inserted
/// after all earlier-settled entries of rank up to its own.
pub open spec fn sort_spec(s: Seq<RenderEntry>) -> Seq<RenderEntry>
    decreases s.len(),
{
    if s.len() == 0 {
        Seq::empty()
    } else {
        insert_spec(sort_spec(s.drop_last()), s.last())
    }
}

pub proof fn lemma_insert_spec_len(s: Seq<RenderEntry>, x: RenderEntry)
    ensures
        insert_spec(s, x).len() == s.len() + 1,
    decreases s.len(),
{
    if s.len() > 0 && !(key_rank(s.last().key) <= key_rank(x.key)) {
        lemma_insert_spec_len(s.drop_last(), x);
    }
}

pub proof fn lemma_sort_spec_len(s: Seq<RenderEntry>)
    ensures
        sort_spec(s).len() == s.len(),
    decreases s.len(),
{
    if s.len() > 0 {
        lemma_sort_spec_len(s.drop_last());
        lemma_insert_spec_len(sort_spec(s.drop_last()), s.last());
    }
}

/// Every entry of an insertion result is the new entry or one of the old.
proof fn lemma_insert_spec_elems(s: Seq<RenderEntry>, x: RenderEntry)
    ensures
        forall|i: int| #![auto]
            0 <= i < insert_spec(s, x).len() ==> (insert_spec(s, x)[i] == x || exists|j: int|
                0 <= j < s.len() && insert_spec(s, x)[i] == s[j]),
    decreases s.len(),
{
    lemma_insert_spec_len(s, x);
    if s.len() == 0 {
    } else if key_rank(s.last().key) <= key_rank(x.key) {
        assert forall|i: int| #![auto] 0 <= i < insert_spec(s, x).len() implies (insert_spec(s, x)[i]
            == x || exists|j: int| 0 <= j < s.len() && insert_spec(s, x)[i] == s[j]) by {
            if i < s.len() {
                assert(insert_spec(s, x)[i] == s[i]);
            }
        }
    } else {
        lemma_insert_spec_elems(s.drop_last(), x);
        let t = insert_spec(s.drop_last(), x);
        assert forall|i: int| #![auto] 0 <= i < insert_spec(s, x).len() implies (insert_spec(s, x)[i]
            == x || exists|j: int| 0 <= j < s.len() && insert_spec(s, x)[i] == s[j]) by {
            if i < t.len() {
                assert(insert_spec(s, x)[i] == t[i]);
                if t[i] != x {
                    let j = choose|j: int| 0 <= j < s.drop_last().len() && t[i] == s.drop_last()[j];
                    assert(insert_spec(s, x)[i] == s[j]);
                }
            } else {
                assert(insert_spec(s, x)[i] == s[s.len() - 1]);
            }
        }
    }
}

proof fn lemma_insert_spec_sorted(s: Seq<RenderEntry>, x: RenderEntry)
    requires
        sorted_by_rank(s),
    ensures
        sorted_by_rank(insert_spec(s, x)),
    decreases s.len(),
{
    lemma_insert_spec_len(s, x);
    if s.len() == 0 {
    } else if key_rank(s.last().key) <= key_rank(x.key) {
        let r = s.push(x);
        assert forall|i: int, j: int| 0 <= i < j < r.len() implies key_rank(r[i].key) <= key_rank(
            r[j].key,
        ) by {
            if j == s.len() {
                if i < s.len() - 1 {
                    assert(key_rank(s[i].key) <= key_rank(s[s.len() - 1].key));
                }
            }
        }
    } else {
        assert(sorted_by_rank(s.drop_last())) by {
            assert(forall|i: int, j: int| #![auto]
                0 <= i < j < s.drop_last().len() ==> s.drop_last()[i] == s[i] && s.drop_last()[j]
                    == s[j]);
        }
        lemma_insert_spec_sorted(s.drop_last(), x);
        lemma_insert_spec_elems(s.drop_last(), x);
        let t = insert_spec(s.drop_last(), x);
        let r = t.push(s.last());
        assert forall|i: int, j: int| 0 <= i < j < r.len() implies key_rank(r[i].key) <= key_rank(
            r[j].key,
        ) by {
            if j == t.len() {
                assert(r[j] == s.last());
                assert(r[i] == t[i]);
                if t[i] == x {
                } else {
                    let m = choose|m: int| 0 <= m < s.drop_last().len() && t[i] == s.drop_last()[m];
                    assert(key_rank(s[m].key) <= key_rank(s[s.len() - 1].key));
                }
            }
        }
    }
}

/// The sort leaves the entries sorted by rank.
pub proof fn lemma_sort_spec_sorted(s: Seq<RenderEntry>)
    ensures
        sorted_by_rank(sort_spec(s)),
    decreases s.len(),
{
    if s.len() > 0 {
        lemma_sort_spec_sorted(s.drop_last());
        lemma_insert_spec_sorted(sort_spec(s.drop_last()), s.last());
    }
}

/// The sort is a permutation: it keeps exactly the entries it was given.
pub proof fn lemma_sort_spec_multiset(s: Seq<RenderEntry>)
    ensures
        sort_spec(s).to_multiset() == s.to_multiset(),
    decreases s.len(),
{
    if s.len() == 0 {
        assert(sort_spec(s) =~= s);
    } else {
        lemma_sort_spec_multiset(s.drop_last());
        lemma_insert_spec_multiset(sort_spec(s.drop_last()), s.last());
        s.drop_last().to_multiset_ensures();
        assert(s.drop_last().push(s.last()) =~= s);
        assert(sort_spec(s).to_multiset() =~= s.to_multiset());
    }
}

proof fn lemma_insert_spec_multiset(s: Seq<RenderEntry>, x: RenderEntry)
    ensures
        insert_spec(s, x).to_multiset() == s.to_multiset().insert(x),
    decreases s.len(),
{
    if s.len() == 0 {
        assert(insert_spec(s, x) =~= Seq::empty().push(x));
        Seq::<RenderEntry>::empty().to_multiset_ensures();
        Seq::<RenderEntry>::empty().push(x).to_multiset_ensures();
        assert(s =~= Seq::empty());
    } else if key_rank(s.last().key) <= key_rank(x.key) {
        s.to_multiset_ensures();
        s.push(x).to_multiset_ensures();
    } else {
        lemma_insert_spec_multiset(s.drop_last(), x);
        let t = insert_spec(s.drop_last(), x);
        t.to_multiset_ensures();
        t.push(s.last()).to_multiset_ensures();
        s.drop_last().to_multiset_ensures();
        s.drop_last().push(s.last()).to_multiset_ensures();
        assert(s.drop_last().push(s.last()) =~= s);
        assert(t.push(s.last()).to_multiset() =~= s.to_multiset().insert(x));
    }
}

/// Entries with one given key keep their relative order through an insertion:
/// the entries with that key, read in order, are the old ones followed by the
/// new one when it carries the key, and are unchanged otherwise.
proof fn lemma_insert_spec_stable(s: Seq<RenderEntry>, x: RenderEntry, k: u32)
    requires
        sorted_by_rank(s),
    ensures
        insert_spec(s, x).filter(|e: RenderEntry| e.key == k) == if x.key == k {
            s.filter(|e: RenderEntry| e.key == k).push(x)
        } else {
            s.filter(|e: RenderEntry| e.key == k)
        },
    decreases s.len(),
{
    let f = |e: RenderEntry| e.key == k;
    reveal_with_fuel(Seq::filter, 2);
    if s.len() == 0 {
        assert(insert_spec(s, x) =~= Seq::empty().push(x));
        assert(Seq::<RenderEntry>::empty().push(x).drop_last() =~= Seq::<RenderEntry>::empty());
        assert(s =~= Seq::<RenderEntry>::empty());
    } else if key_rank(s.last().key) <= key_rank(x.key) {
        assert(s.push(x).drop_last() =~= s);
    } else {
        assert(sorted_by_rank(s.drop_last())) by {
            assert(forall|i: int, j: int| #![auto]
                0 <= i < j < s.drop_last().len() ==> s.drop_last()[i] == s[i] && s.drop_last()[j]
                    == s[j]);
        }
        lemma_insert_spec_stable(s.drop_last(), x, k);
        let t = insert_spec(s.drop_last(), x);
        assert(t.push(s.last()).drop_last() =~= t);
        // The new entry ranks strictly below the settled last entry, so when
        // both carry the key their ranks would agree: the last entry cannot
        // carry the key when the new one does.
        if x.key == k && s.last().key == k {
            assert(false);
        }
        if s.last().key == k {
            assert(s.filter(f) == s.drop_last().filter(f).push(s.last()));
            assert(t.filter(f) == s.drop_last().filter(f));
            assert(t.push(s.last()).filter(f) == t.filter(f).push(s.last()));
        } else {
            assert(s.filter(f) == s.drop_last().filter(f));
            assert(t.push(s.last()).filter(f) == t.filter(f));
        }
    }
}

/// Stability: for every key, the entries carrying that key stand in the same
/// order after the sort as they were emitted, so two entries with equal sort
/// keys keep their original relative order.
pub proof fn lemma_sort_spec_stable(s: Seq<RenderEntry>, k: u32)
    ensures
        sort_spec(s).filter(|e: RenderEntry| e.key == k) == s.filter(|e: RenderEntry| e.key == k),
    decreases s.len(),
{
    let f = |e: RenderEntry| e.key == k;
    reveal_with_fuel(Seq::filter, 2);
    if s.len() == 0 {
    } else {
        lemma_sort_spec_stable(s.drop_last(), k);
        lemma_sort_spec_sorted(s.drop_last());
        lemma_insert_spec_stable(sort_spec(s.drop_last()), s.last(), k);
        assert(s.drop_last().push(s.last()) =~= s);
        if s.last().key == k {
            assert(s.filter(f) == s.drop_last().filter(f).push(s.last()));
        } else {
            assert(s.filter(f) == s.drop_last().filter(f));
        }
    }
}

/// Sorts the entries by rank, stably: equal ranks keep their emission order.
pub fn sort_render_entries(entries: &Vec<RenderEntry>) -> (r: Vec<RenderEntry>)
    ensures
        r@ == sort_spec(entries@),
{
    let mut out: Vec<RenderEntry> = Vec::new();
    let mut i: usize = 0;
    while i < entries.len()
        invariant
            0 <= i <= entries@.len(),
            out@ == sort_spec(entries@.take(i as int)),
        decreases entries@.len() - i,
    {
        let x = entries[i];
        proof {
            lemma_sort_spec_sorted(entries@.take(i as int));
            lemma_sort_spec_len(entries@.take(i as int));
        }
        // Scan back over the settled entries of strictly larger rank to find
        // where the new entry belongs.
        let xr = key_rank_exec(x.key);
        let mut p: usize = out.len();
        while p > 0 && key_rank_exec(out[p - 1].key) > xr
            invariant
                0 <= p <= out@.len(),
                xr == key_rank(x.key),
                forall|q: int| p <= q < out@.len() ==> key_rank(out@[q].key) > key_rank(x.key),
            decreases p,
        {
            p -= 1;
        }
        proof {
            lemma_insert_spec_at(out@, x, p as int);
        }
        out.insert(p, x);
        proof {
            assert(entries@.take(i + 1).drop_last() =~= entries@.take(i as int));
            assert(entries@.take(i + 1).last() == x);
        }
        i += 1;
    }
    proof {
        assert(entries@.take(entries@.len() as int) =~= entries@);
    }
    out
}

/// Inserting lands exactly at the scanned position: before the suffix of
/// strictly larger ranks, after a prefix ending at rank up to the new one.
proof fn lemma_insert_spec_at(s: Seq<RenderEntry>, x: RenderEntry, p: int)
    requires
        0 <= p <= s.len(),
        forall|q: int| p <= q < s.len() ==> key_rank(s[q].key) > key_rank(x.key),
        p > 0 ==> key_rank(s[p - 1].key) <= key_rank(x.key),
    ensures
        insert_spec(s, x) == s.subrange(0, p).push(x) + s.subrange(p, s.len() as int),
    decreases s.len(),
{
    if s.len() == 0 {
        assert(insert_spec(s, x) =~= s.subrange(0, 0).push(x) + s.subrange(0, 0));
    } else if key_rank(s.last().key) <= key_rank(x.key) {
        assert(p == s.len());
        assert(insert_spec(s, x) =~= s.subrange(0, p).push(x) + s.subrange(p, s.len() as int));
    } else {
        assert(p < s.len());
        lemma_insert_spec_at(s.drop_last(), x, p);
        assert(s.drop_last().subrange(0, p) =~= s.subrange(0, p));
        assert(s.drop_last().subrange(p, s.drop_last().len() as int) =~= s.subrange(
            p,
            s.len() - 1,
        ));
        assert(insert_spec(s, x) =~= s.subrange(0, p).push(x) + s.subrange(p, s.len() as int));
    }
}

} // verus!
