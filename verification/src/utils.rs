//! Small reusable helpers on vectors of items.

use vstd::pervasive::VecAdditionalExecFns;
use vstd::prelude::*;

verus! {

/// Exchange two entries of a vector.
pub fn vec_swap<T: Copy>(data: &mut Vec<T>, i: usize, j: usize)
    requires
        i < old(data)@.len(),
        j < old(data)@.len(),
    ensures
        final(data)@ == old(data)@.update(i as int, old(data)@[j as int]).update(
            j as int,
            old(data)@[i as int],
        ),
        final(data)@.to_multiset() == old(data)@.to_multiset(),
{
    let a = data[i];
    let b = data[j];
    data.set(i, b);
    data.set(j, a);
    proof {
        broadcast use vstd::seq_lib::to_multiset_update;

        let s0 = old(data)@;
        let s1 = s0.update(i as int, s0[j as int]);
        let s2 = s1.update(j as int, s0[i as int]);
        assert(s1.to_multiset() == s0.to_multiset().insert(s0[j as int]).remove(s0[i as int]));
        assert(s2.to_multiset() == s1.to_multiset().insert(s0[i as int]).remove(s1[j as int]));
        assert(s1[j as int] == s0[j as int]);
        s0.to_multiset_ensures();
        assert(s0.to_multiset().contains(s0[i as int]));
        assert(s0.to_multiset().contains(s0[j as int]));
        assert(s2.to_multiset() =~= s0.to_multiset());
    }
}

/// Partition a vector in place around a predicate.
///
/// Returns the pivot index: every entry before it can satisfy the
/// predicate, every entry from it on can fail it, and the final vector
/// holds exactly the entries it started with.
pub fn partition<T: Copy, P: Fn(&T) -> bool>(data: &mut Vec<T>, predicate: P) -> (pivot: usize)
    requires
        forall|i: int|
            0 <= i < old(data)@.len() ==> call_requires(predicate, (&old(data)@[i],)),
    ensures
        pivot <= final(data)@.len(),
        final(data)@.len() == old(data)@.len(),
        final(data)@.to_multiset() == old(data)@.to_multiset(),
        forall|i: int| 0 <= i < pivot ==> call_ensures(predicate, (&final(data)@[i],), true),
        forall|i: int|
            pivot <= i < final(data)@.len() ==> call_ensures(predicate, (&final(data)@[i],), false),
{
    let len = data.len();
    if len == 0 {
        return 0;
    }
    let mut l: usize = 0;
    let mut r: usize = len - 1;
    loop
        invariant
            len == data@.len(),
            data@.len() == old(data)@.len(),
            data@.to_multiset() == old(data)@.to_multiset(),
            l <= len,
            r < len,
            forall|i: int| 0 <= i < data@.len() ==> call_requires(predicate, (&data@[i],)),
            forall|i: int| 0 <= i < l ==> call_ensures(predicate, (&data@[i],), true),
            forall|i: int| r < i < data@.len() ==> call_ensures(predicate, (&data@[i],), false),
        ensures
            l <= len,
            forall|i: int| 0 <= i < l ==> call_ensures(predicate, (&data@[i],), true),
            forall|i: int| l <= i < data@.len() ==> call_ensures(predicate, (&data@[i],), false),
        decreases (if l <= r {
            r + 1 - l
        } else {
            0int
        }),
    {
        let ghost l0 = l;
        let ghost r0 = r;
        while l < len && predicate(&data[l])
            invariant
                len == data@.len(),
                data@.len() == old(data)@.len(),
                data@.to_multiset() == old(data)@.to_multiset(),
                l <= len,
                r < len,
                forall|i: int| 0 <= i < data@.len() ==> call_requires(predicate, (&data@[i],)),
                l0 <= l,
                forall|i: int| 0 <= i < l ==> call_ensures(predicate, (&data@[i],), true),
                forall|i: int|
                    r < i < data@.len() ==> call_ensures(predicate, (&data@[i],), false),
            ensures
                l == len || call_ensures(predicate, (&data@[l as int],), false),
            decreases len - l,
        {
            l = l + 1;
        }
        while r > 0 && !predicate(&data[r])
            invariant
                len == data@.len(),
                data@.len() == old(data)@.len(),
                data@.to_multiset() == old(data)@.to_multiset(),
                l <= len,
                r < len,
                forall|i: int| 0 <= i < data@.len() ==> call_requires(predicate, (&data@[i],)),
                r <= r0,
                forall|i: int| 0 <= i < l ==> call_ensures(predicate, (&data@[i],), true),
                forall|i: int|
                    r < i < data@.len() ==> call_ensures(predicate, (&data@[i],), false),
            ensures
                r == 0 || call_ensures(predicate, (&data@[r as int],), true),
            decreases r,
        {
            r = r - 1;
        }
        if l >= r {
            return l;
        }
        // `l` fails and `r` satisfies the predicate: exchange them and move on.
        vec_swap(data, l, r);
        l = l + 1;
        r = r - 1;
    }
}

/// Partition one range of a vector in place around a predicate, leaving
/// everything outside the range untouched.
///
/// Returns the pivot index inside `[start, end]`: every entry of the range
/// before it can satisfy the predicate, every range entry from it on can
/// fail it, and the range keeps exactly the entries it started with.
pub fn partition_range<T: Copy, P: Fn(&T) -> bool>(
    data: &mut Vec<T>,
    start: usize,
    end: usize,
    predicate: P,
) -> (pivot: usize)
    requires
        start <= end <= old(data)@.len(),
        forall|i: int|
            start <= i < end ==> call_requires(predicate, (&old(data)@[i],)),
    ensures
        start <= pivot <= end,
        final(data)@.len() == old(data)@.len(),
        final(data)@.subrange(start as int, end as int).to_multiset() == old(data)@.subrange(
            start as int,
            end as int,
        ).to_multiset(),
        forall|i: int|
            (0 <= i < start || end <= i < old(data)@.len()) ==> final(data)@[i] == old(data)@[i],
        forall|i: int|
            start <= i < pivot ==> call_ensures(predicate, (&final(data)@[i],), true),
        forall|i: int|
            pivot <= i < end ==> call_ensures(predicate, (&final(data)@[i],), false),
{
    if start == end {
        proof {
            assert(final(data)@.subrange(start as int, end as int) =~= old(data)@.subrange(
                start as int,
                end as int,
            ));
        }
        return start;
    }
    let ghost orig = old(data)@;
    let mut l: usize = start;
    let mut r: usize = end - 1;
    loop
        invariant
            orig == old(data)@,
            start <= end <= data@.len(),
            data@.len() == orig.len(),
            data@.subrange(start as int, end as int).to_multiset() == orig.subrange(
                start as int,
                end as int,
            ).to_multiset(),
            forall|i: int| (0 <= i < start || end <= i < orig.len()) ==> data@[i] == orig[i],
            start <= l <= end,
            start <= r < end,
            forall|i: int| start <= i < data@.len() && i < end ==> call_requires(predicate, (&data@[i],)),
            forall|i: int| start <= i < l ==> call_ensures(predicate, (&data@[i],), true),
            forall|i: int| r < i < end ==> call_ensures(predicate, (&data@[i],), false),
        ensures
            start <= l <= end,
            data@.len() == orig.len(),
            data@.subrange(start as int, end as int).to_multiset() == orig.subrange(
                start as int,
                end as int,
            ).to_multiset(),
            forall|i: int| (0 <= i < start || end <= i < orig.len()) ==> data@[i] == orig[i],
            forall|i: int| start <= i < l ==> call_ensures(predicate, (&data@[i],), true),
            forall|i: int| l <= i < end ==> call_ensures(predicate, (&data@[i],), false),
        decreases (if l <= r {
            r + 1 - l
        } else {
            0int
        }),
    {
        let ghost l0 = l;
        let ghost r0 = r;
        while l < end && predicate(&data[l])
            invariant
                orig == old(data)@,
                start <= end <= data@.len(),
                data@.len() == orig.len(),
                data@.subrange(start as int, end as int).to_multiset() == orig.subrange(
                    start as int,
                    end as int,
                ).to_multiset(),
                forall|i: int| (0 <= i < start || end <= i < orig.len()) ==> data@[i] == orig[i],
                start <= l <= end,
                start <= r < end,
                l0 <= l,
                forall|i: int|
                    start <= i < data@.len() && i < end ==> call_requires(predicate, (&data@[i],)),
                forall|i: int| start <= i < l ==> call_ensures(predicate, (&data@[i],), true),
                forall|i: int| r < i < end ==> call_ensures(predicate, (&data@[i],), false),
            ensures
                l == end || call_ensures(predicate, (&data@[l as int],), false),
            decreases end - l,
        {
            l = l + 1;
        }
        while r > start && !predicate(&data[r])
            invariant
                orig == old(data)@,
                start <= end <= data@.len(),
                data@.len() == orig.len(),
                data@.subrange(start as int, end as int).to_multiset() == orig.subrange(
                    start as int,
                    end as int,
                ).to_multiset(),
                forall|i: int| (0 <= i < start || end <= i < orig.len()) ==> data@[i] == orig[i],
                start <= l <= end,
                start <= r < end,
                r <= r0,
                forall|i: int|
                    start <= i < data@.len() && i < end ==> call_requires(predicate, (&data@[i],)),
                forall|i: int| start <= i < l ==> call_ensures(predicate, (&data@[i],), true),
                forall|i: int| r < i < end ==> call_ensures(predicate, (&data@[i],), false),
            ensures
                r == start || call_ensures(predicate, (&data@[r as int],), true),
            decreases r,
        {
            r = r - 1;
        }
        if l >= r {
            return l;
        }
        // The entry at `l` fails and the one at `r` satisfies the predicate:
        // exchange them and keep scanning inward.
        let ghost before = data@;
        vec_swap(data, l, r);
        proof {
            assert(data@.subrange(start as int, end as int).to_multiset() == orig.subrange(
                start as int,
                end as int,
            ).to_multiset()) by {
                broadcast use vstd::seq_lib::to_multiset_update;

                let sb = before.subrange(start as int, end as int);
                let sa = data@.subrange(start as int, end as int);
                assert(0 <= l - start < sb.len() && 0 <= r - start < sb.len());
                assert(sa =~= sb.update(l - start, sb[r - start]).update(r - start, sb[l - start]));
                sb.to_multiset_ensures();
                assert(sb.contains(sb[l - start]));
                assert(sb.contains(sb[r - start]));
                assert(sa.to_multiset() =~= sb.to_multiset());
            }
        }
        l = l + 1;
        r = r - 1;
    }
}

} // verus!
