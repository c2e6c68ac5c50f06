//! Sequence model of splitting and merging. A split cuts a byte sequence into
//! parts of a fixed chunk size (the last part holds the remainder); a merge
//! concatenates the parts that exist at contiguous indices, stopping at the
//! first missing one. The lemmas here state the relationship between the two:
//! part count, part sizing, the round trip, and that parts beyond the first
//! gap play no role in a merge.

use vstd::prelude::*;
use vstd::arithmetic::div_mod::lemma_basic_div;
use vstd::arithmetic::div_mod::lemma_div_plus_one;
use vstd::arithmetic::div_mod::lemma_div_multiples_vanish_fancy;
use vstd::arithmetic::div_mod::lemma_small_mod;
use vstd::arithmetic::div_mod::lemma_mod_sub_multiples_vanish;

verus! {

/// The parts that splitting `data` with chunk size `n` produces: full chunks
/// of `n` bytes, with the remainder (if any) in the final part, and no parts
/// at all for empty input.
pub open spec fn chunks_of(data: Seq<u8>, n: nat) -> Seq<Seq<u8>>
    recommends
        n > 0,
    decreases data.len(),
{
    if n == 0 || data.len() == 0 {
        Seq::empty()
    } else if data.len() <= n {
        seq![data]
    } else {
        seq![data.take(n as int)] + chunks_of(data.skip(n as int), n)
    }
}

/// Concatenation of parts in index order.
pub open spec fn concat_all(parts: Seq<Seq<u8>>) -> Seq<u8>
    decreases parts.len(),
{
    if parts.len() == 0 {
        Seq::<u8>::empty()
    } else {
        parts[0] + concat_all(parts.drop_first())
    }
}

/// Ceiling division: the least `k` with `k * n >= l`.
pub open spec fn ceil_div(l: nat, n: nat) -> nat
    recommends
        n > 0,
{
    ((l + n - 1) / (n as int)) as nat
}

/// Round trip: for any byte sequence and any positive chunk size, merging the
/// parts of a split in index order reproduces the original sequence exactly.
pub proof fn lemma_round_trip(data: Seq<u8>, n: nat)
    requires
        n > 0,
    ensures
        concat_all(chunks_of(data, n)) == data,
    decreases data.len(),
{
    if data.len() == 0 {
        assert(concat_all(chunks_of(data, n)) =~= data);
    } else if data.len() <= n {
        let c = chunks_of(data, n);
        assert(c == seq![data]);
        assert(c.drop_first() =~= Seq::<Seq<u8>>::empty());
        assert(concat_all(c) == c[0] + concat_all(c.drop_first()));
        assert(concat_all(Seq::<Seq<u8>>::empty()) == Seq::<u8>::empty());
        assert(concat_all(c) =~= data);
    } else {
        lemma_round_trip(data.skip(n as int), n);
        let c = chunks_of(data, n);
        assert(c == seq![data.take(n as int)] + chunks_of(data.skip(n as int), n));
        assert(c.drop_first() =~= chunks_of(data.skip(n as int), n));
        assert(c[0] == data.take(n as int));
        assert(concat_all(c) =~= data);
    }
}

/// Round trip across both operations: when a merge's lookups find exactly
/// the parts a split produced, at contiguous indices in order, the merge
/// reproduces the split input exactly.
pub proof fn lemma_split_merge_round_trip(data: Seq<u8>, n: nat)
    requires
        n > 0,
    ensures
        merged_bytes(chunks_of(data, n).map_values(|p: Seq<u8>| Some(p))) == data,
{
    let parts = chunks_of(data, n);
    let slots = parts.map_values(|p: Seq<u8>| Some(p));
    lemma_first_gap_is(slots, slots.len() as int);
    assert(found_parts(slots) =~= parts);
    lemma_round_trip(data, n);
}

/// Part count: splitting a sequence of length `l` with positive chunk size
/// `n` produces `ceil(l / n)` parts, and in particular none for `l == 0`.
pub proof fn lemma_part_count(data: Seq<u8>, n: nat)
    requires
        n > 0,
    ensures
        chunks_of(data, n).len() == ceil_div(data.len(), n),
        data.len() == 0 ==> chunks_of(data, n).len() == 0,
    decreases data.len(),
{
    let l = data.len() as int;
    let d = n as int;
    if data.len() == 0 {
        lemma_basic_div(d - 1, d);
    } else if data.len() <= n {
        lemma_div_multiples_vanish_fancy(1, l - 1, d);
        assert(d * 1 + (l - 1) == l + d - 1);
    } else {
        lemma_part_count(data.skip(d), n);
        lemma_div_plus_one(l - 1, d);
        assert(d + (l - 1) == l + d - 1);
        assert((l - d) + d - 1 == l - 1);
    }
}

/// Part sizing: every part except the last has length exactly `n`; the last
/// has length `l % n` if that is nonzero, else `n`.
pub proof fn lemma_part_sizing(data: Seq<u8>, n: nat, i: int)
    requires
        n > 0,
        0 <= i < chunks_of(data, n).len(),
    ensures
        i < chunks_of(data, n).len() - 1 ==> chunks_of(data, n)[i].len() == n,
        i == chunks_of(data, n).len() - 1 ==> chunks_of(data, n)[i].len() == (
        if data.len() % n == 0 {
            n as int
        } else {
            (data.len() % n) as int
        }),
    decreases data.len(),
{
    let l = data.len();
    if l == 0 {
        // no parts, nothing to show
    } else if l <= n {
        if l == n {
            lemma_small_mod(0, n);
        } else {
            lemma_small_mod(l, n);
        }
    } else {
        let rest = data.skip(n as int);
        assert(chunks_of(data, n) == seq![data.take(n as int)] + chunks_of(rest, n));
        assert(chunks_of(rest, n).len() >= 1);
        if i == 0 {
            assert(data.take(n as int).len() == n);
        } else {
            lemma_part_sizing(rest, n, i - 1);
            assert(chunks_of(data, n)[i] == chunks_of(rest, n)[i - 1]);
            lemma_mod_sub_multiples_vanish(l as int, n as int);
            assert(rest.len() % n == l % n);
        }
    }
}

/// Every part starts strictly inside the data: part `i` begins at byte
/// `i * n`.
pub proof fn lemma_part_start_bound(data: Seq<u8>, n: nat, i: int)
    requires
        n > 0,
        0 <= i < chunks_of(data, n).len(),
    ensures
        i * n < data.len(),
    decreases data.len(),
{
    let d = n as int;
    if data.len() <= n {
        assert(i == 0);
    } else {
        let rest = data.skip(d);
        assert(chunks_of(data, n) == seq![data.take(d)] + chunks_of(rest, n));
        if i > 0 {
            lemma_part_start_bound(rest, n, i - 1);
            assert((i - 1) * d + d == i * d) by (nonlinear_arith);
        }
    }
}

/// The exact content of part `i`: the bytes from `i * n` up to `(i + 1) * n`,
/// clipped to the end of the data.
pub proof fn lemma_part_content(data: Seq<u8>, n: nat, i: int)
    requires
        n > 0,
        0 <= i < chunks_of(data, n).len(),
    ensures
        chunks_of(data, n)[i] == data.subrange(
            i * n,
            if (i + 1) * n <= data.len() {
                (i + 1) * n
            } else {
                data.len() as int
            },
        ),
    decreases data.len(),
{
    let l = data.len() as int;
    let d = n as int;
    if l == 0 {
        // no parts
    } else if l <= d {
        assert(chunks_of(data, n)[0] == data);
        assert(data =~= data.subrange(0, l));
    } else {
        let rest = data.skip(d);
        assert(chunks_of(data, n) == seq![data.take(d)] + chunks_of(rest, n));
        if i == 0 {
            assert(data.take(d) =~= data.subrange(0, d));
        } else {
            lemma_part_content(rest, n, i - 1);
            lemma_part_start_bound(rest, n, i - 1);
            assert(chunks_of(data, n)[i] == chunks_of(rest, n)[i - 1]);
            assert((i - 1) * d + d == i * d) by (nonlinear_arith);
            assert(i * d + d == (i + 1) * d) by (nonlinear_arith);
            let hi_rest = if i * d <= rest.len() {
                i * d
            } else {
                rest.len() as int
            };
            let hi = if (i + 1) * d <= l {
                (i + 1) * d
            } else {
                l
            };
            assert((i - 1) * d < rest.len());
            assert((i - 1) * d <= hi_rest <= rest.len());
            assert(hi_rest + d == hi);
            assert(rest.subrange((i - 1) * d, hi_rest) =~= data.subrange(i * d, hi));
        }
    }
}

/// Splitting a sequence whose length is a whole number of chunks, followed by
/// more data, splits each piece on its own.
pub proof fn lemma_chunks_append_full(s: Seq<u8>, t: Seq<u8>, n: nat)
    requires
        n > 0,
        s.len() % n == 0,
    ensures
        chunks_of(s + t, n) == chunks_of(s, n) + chunks_of(t, n),
    decreases s.len(),
{
    if s.len() == 0 {
        assert(s + t =~= t);
        assert(chunks_of(s, n) + chunks_of(t, n) =~= chunks_of(t, n));
    } else {
        assert(s.len() >= n) by {
            if s.len() < n {
                lemma_small_mod(s.len(), n);
            }
        }
        let d = n as int;
        lemma_mod_sub_multiples_vanish(s.len() as int, d);
        assert(s.skip(d).len() % n == 0);
        lemma_chunks_append_full(s.skip(d), t, n);
        if t.len() == 0 {
            assert(s + t =~= s);
            assert(chunks_of(t, n) == Seq::<Seq<u8>>::empty());
            assert(chunks_of(s, n) + chunks_of(t, n) =~= chunks_of(s, n));
        } else {
            assert((s + t).len() > n);
            assert((s + t).take(d) =~= s.take(d));
            assert((s + t).skip(d) =~= s.skip(d) + t);
            if s.len() == n {
                assert(s.take(d) =~= s);
                assert(s.skip(d) =~= Seq::<u8>::empty());
                assert(chunks_of(s, n) == seq![s]);
                assert(chunks_of(s + t, n) =~= chunks_of(s, n) + chunks_of(t, n));
            } else {
                assert(chunks_of(s, n) == seq![s.take(d)] + chunks_of(s.skip(d), n));
                assert(chunks_of(s + t, n) =~= chunks_of(s, n) + chunks_of(t, n));
            }
        }
    }
}

/// Appending one more part to a merge appends its bytes to the result.
pub proof fn lemma_concat_all_push(parts: Seq<Seq<u8>>, p: Seq<u8>)
    ensures
        concat_all(parts.push(p)) == concat_all(parts) + p,
    decreases parts.len(),
{
    if parts.len() == 0 {
        assert(parts.push(p).drop_first() =~= Seq::<Seq<u8>>::empty());
        assert(concat_all(parts.push(p)) == parts.push(p)[0] + concat_all(
            parts.push(p).drop_first(),
        ));
        assert(parts.push(p)[0] == p);
        assert(concat_all(Seq::<Seq<u8>>::empty()) == Seq::<u8>::empty());
        assert(concat_all(parts.push(p)) =~= concat_all(parts) + p);
    } else {
        lemma_concat_all_push(parts.drop_first(), p);
        assert(parts.push(p).drop_first() =~= parts.drop_first().push(p));
        assert(parts.push(p)[0] == parts[0]);
        assert(concat_all(parts.push(p)) == parts[0] + concat_all(parts.drop_first().push(p)));
        assert(concat_all(parts.push(p)) == parts[0] + (concat_all(parts.drop_first()) + p));
        assert(parts[0] + (concat_all(parts.drop_first()) + p) =~= (parts[0] + concat_all(
            parts.drop_first(),
        )) + p);
    }
}

/// The index of the first missing slot in a run of part lookups: the merger
/// reads slots `0, 1, 2, ...` and stops here.
pub open spec fn first_gap(slots: Seq<Option<Seq<u8>>>) -> nat
    decreases slots.len(),
{
    if slots.len() == 0 {
        0
    } else if slots[0] is None {
        0
    } else {
        1 + first_gap(slots.drop_first())
    }
}

/// The parts a merge consumes: the contents of the slots strictly before the
/// first gap.
pub open spec fn found_parts(slots: Seq<Option<Seq<u8>>>) -> Seq<Seq<u8>> {
    Seq::new(first_gap(slots) as nat, |i: int| slots[i]->Some_0)
}

/// What a merge of `slots` produces as a whole.
pub open spec fn merged_bytes(slots: Seq<Option<Seq<u8>>>) -> Seq<u8> {
    concat_all(found_parts(slots))
}

/// Basic shape of the first gap: it lies within the slots, everything before
/// it is present, and (unless every slot is present) the slot at the gap is
/// missing.
pub proof fn lemma_first_gap_bound(slots: Seq<Option<Seq<u8>>>)
    ensures
        first_gap(slots) <= slots.len(),
        forall|i: int| 0 <= i < first_gap(slots) ==> slots[i] is Some,
        first_gap(slots) < slots.len() ==> slots[first_gap(slots) as int] is None,
    decreases slots.len(),
{
    if slots.len() == 0 {
    } else if slots[0] is None {
    } else {
        lemma_first_gap_bound(slots.drop_first());
        assert forall|i: int| 0 <= i < first_gap(slots) implies slots[i] is Some by {
            if i > 0 {
                assert(slots.drop_first()[i - 1] is Some);
            }
        }
    }
}

/// Converse characterization: a position with only present slots before it,
/// and a missing slot (or the end) at it, is the first gap.
pub proof fn lemma_first_gap_is(slots: Seq<Option<Seq<u8>>>, i: int)
    requires
        0 <= i <= slots.len(),
        forall|j: int| 0 <= j < i ==> slots[j] is Some,
        i == slots.len() || slots[i] is None,
    ensures
        first_gap(slots) == i,
    decreases slots.len(),
{
    if i == 0 {
    } else {
        assert(slots[0] is Some);
        let rest = slots.drop_first();
        assert(forall|j: int| 0 <= j < i - 1 ==> rest[j] == slots[j + 1]);
        lemma_first_gap_is(rest, i - 1);
    }
}

/// Gap termination: a merge stops at the first missing index, so a slot at
/// any higher index has no effect on what a merge finds or produces, whatever
/// it holds.
pub proof fn lemma_gap_termination(slots: Seq<Option<Seq<u8>>>, j: int, v: Option<Seq<u8>>)
    requires
        first_gap(slots) < j < slots.len(),
    ensures
        first_gap(slots.update(j, v)) == first_gap(slots),
        found_parts(slots.update(j, v)) == found_parts(slots),
        merged_bytes(slots.update(j, v)) == merged_bytes(slots),
    decreases slots.len(),
{
    if slots[0] is None {
        assert(first_gap(slots) == 0);
        assert(slots.update(j, v)[0] is None);
        assert(found_parts(slots.update(j, v)) =~= found_parts(slots));
    } else {
        let rest = slots.drop_first();
        assert(slots.update(j, v)[0] is Some);
        assert(slots.update(j, v).drop_first() =~= rest.update(j - 1, v));
        lemma_gap_termination(rest, j - 1, v);
        assert(first_gap(slots.update(j, v)) == first_gap(slots));
        lemma_first_gap_bound(slots);
        assert forall|i: int| 0 <= i < first_gap(slots) implies slots.update(j, v)[i]
            == slots[i] by {}
        assert(found_parts(slots.update(j, v)) =~= found_parts(slots));
    }
}

} // verus!
