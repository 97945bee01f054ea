//! Ordered members of a document as mathematical sequences: looking a key
//! up, giving it a value, taking it out, and what these keep.

use vstd::prelude::*;
use crate::value::{Json, Members};

verus! {

/// Whether some member has this key.
pub open spec fn has_key(members: Members, key: Seq<char>) -> bool {
    exists|i: int| 0 <= i < members.len() && (#[trigger] members[i]).0 == key
}

/// Whether no two members have the same key.
pub open spec fn distinct_keys(members: Members) -> bool {
    forall|i: int, j: int|
        0 <= i < j < members.len() ==> (#[trigger] members[i]).0 != (#[trigger] members[j]).0
}

/// The test that a member has another key than this one.
pub open spec fn other_key(key: Seq<char>) -> spec_fn((Seq<char>, Json)) -> bool {
    |member: (Seq<char>, Json)| member.0 != key
}

/// The members with another key than this one, in their order.
pub open spec fn without(members: Members, key: Seq<char>) -> Members {
    members.filter(other_key(key))
}

/// The members after `key` has been given `value`: in place where the key is
/// present, at the end where it is not.
pub open spec fn inserted(members: Members, key: Seq<char>, value: Json) -> Members {
    if has_key(members, key) {
        Seq::new(
            members.len(),
            |i: int|
                if members[i].0 == key {
                    (key, value)
                } else {
                    members[i]
                },
        )
    } else {
        members.push((key, value))
    }
}

/// Whether some member before `index` has this key.
pub open spec fn has_key_before(members: Members, index: int, key: Seq<char>) -> bool {
    exists|i: int| 0 <= i < index && i < members.len() && (#[trigger] members[i]).0 == key
}

/// The members after `key` with `value` has been put before the member at
/// `index`: a member that had the key leaves its place, the others close
/// up, and the new member stands before the one that was at `index`.
pub open spec fn inserted_before(members: Members, index: int, key: Seq<char>, value: Json)
    -> Members {
    let place = if has_key_before(members, index, key) {
        index - 1
    } else {
        index
    };
    without(members, key).insert(place, (key, value))
}

/// What is left after a key was taken out: members of the old document, in
/// their order, none of them with the key.
pub proof fn lemma_without(members: Members, key: Seq<char>)
    ensures
        without(members, key).len() <= members.len(),
        forall|i: int|
            0 <= i < without(members, key).len() ==> (#[trigger] without(members, key)[i]).0
                != key,
        forall|i: int|
            0 <= i < without(members, key).len() ==> members.contains(
                #[trigger] without(members, key)[i],
            ),
        !has_key(members, key) ==> without(members, key) == members,
{
    let keep = other_key(key);
    let rest = without(members, key);
    members.lemma_filter_len(keep);
    assert forall|i: int| 0 <= i < rest.len() implies (#[trigger] rest[i]).0 != key by {
        members.lemma_filter_pred(keep, i);
    }
    assert forall|i: int| 0 <= i < rest.len() implies members.contains(#[trigger] rest[i]) by {
        assert(rest.contains(rest[i]));
        members.lemma_filter_contains_rev(keep, rest[i]);
    }
    if !has_key(members, key) {
        lemma_filter_all(members, key, members.len());
        assert(members.take(members.len() as int) =~= members);
    }
}

/// Taking out a key that the first `n` members do not have leaves them as
/// they are.
proof fn lemma_filter_all(members: Members, key: Seq<char>, n: nat)
    requires
        n <= members.len(),
        !has_key(members, key),
    ensures
        without(members.take(n as int), key) == members.take(n as int),
    decreases n,
{
    reveal(Seq::filter);
    let front = members.take(n as int);
    if n > 0 {
        lemma_filter_all(members, key, (n - 1) as nat);
        assert(front.drop_last() =~= members.take(n - 1));
        assert(front.last() == members[n - 1]);
        assert(front.drop_last().push(front.last()) =~= front);
    } else {
        assert(front =~= Seq::empty());
    }
}

/// A member put first stands first, and behind it stand the other members
/// in their order, none of them with its key.
pub proof fn lemma_inserted_first(members: Members, key: Seq<char>, value: Json)
    ensures
        inserted_before(members, 0, key, value).len() == without(members, key).len() + 1,
        inserted_before(members, 0, key, value)[0] == (key, value),
        forall|i: int|
            1 <= i < inserted_before(members, 0, key, value).len() ==> #[trigger] inserted_before(
                members,
                0,
                key,
                value,
            )[i] == without(members, key)[i - 1],
{
    assert(!has_key_before(members, 0, key));
    without(members, key).insert_ensures(0, (key, value));
}

/// Giving a key a value keeps the number of members or adds one, and every
/// member afterwards is the new one or an old one.
pub proof fn lemma_inserted(members: Members, key: Seq<char>, value: Json)
    ensures
        has_key(inserted(members, key, value), key),
        members.len() <= inserted(members, key, value).len() <= members.len() + 1,
        forall|i: int|
            0 <= i < inserted(members, key, value).len() ==> #[trigger] inserted(
                members,
                key,
                value,
            )[i] == (key, value) || (i < members.len() && inserted(members, key, value)[i]
                == members[i]),
{
    let after = inserted(members, key, value);
    if has_key(members, key) {
        let at = choose|i: int| 0 <= i < members.len() && (#[trigger] members[i]).0 == key;
        assert(after[at].0 == key);
    } else {
        assert(after[members.len() as int].0 == key);
    }
}

/// Giving a key a value keeps the keys distinct.
pub proof fn lemma_inserted_distinct(members: Members, key: Seq<char>, value: Json)
    requires
        distinct_keys(members),
    ensures
        distinct_keys(inserted(members, key, value)),
{
    let after = inserted(members, key, value);
    if has_key(members, key) {
        assert forall|i: int, j: int| 0 <= i < j < after.len() implies (#[trigger] after[i]).0 != (
        #[trigger] after[j]).0 by {
            assert(after[i].0 == members[i].0);
            assert(after[j].0 == members[j].0);
        }
    } else {
        assert forall|i: int, j: int| 0 <= i < j < after.len() implies (#[trigger] after[i]).0 != (
        #[trigger] after[j]).0 by {
            if j < members.len() {
                assert(after[i] == members[i]);
                assert(after[j] == members[j]);
            } else {
                assert(after[i] == members[i]);
            }
        }
    }
}

/// Taking a key out of the first `n` members keeps the keys distinct, and
/// what is left are members among the first `n`.
proof fn lemma_without_prefix(members: Members, key: Seq<char>, n: nat)
    requires
        n <= members.len(),
        distinct_keys(members),
    ensures
        distinct_keys(without(members.take(n as int), key)),
        forall|i: int|
            0 <= i < without(members.take(n as int), key).len() ==> exists|j: int|
                0 <= j < n && members[j] == #[trigger] without(members.take(n as int), key)[i],
    decreases n,
{
    let front = members.take(n as int);
    if n == 0 {
        front.lemma_filter_len(other_key(key));
    } else {
        let shorter = members.take(n - 1);
        let last = members[n - 1];
        lemma_without_prefix(members, key, (n - 1) as nat);
        assert(front =~= shorter.push(last));
        shorter.lemma_filter_push(last, other_key(key));
        let rest = without(shorter, key);
        let all = without(front, key);
        assert forall|i: int| 0 <= i < all.len() implies exists|j: int|
            0 <= j < n && members[j] == #[trigger] all[i] by {
            if i < rest.len() {
                assert(all[i] == rest[i]);
                let j = choose|j: int| 0 <= j < n - 1 && members[j] == rest[i];
                assert(members[j] == all[i]);
            } else {
                assert(members[n - 1] == all[i]);
            }
        }
        assert forall|i: int, j: int| 0 <= i < j < all.len() implies (#[trigger] all[i]).0 != (
        #[trigger] all[j]).0 by {
            if j < rest.len() {
                assert(all[i] == rest[i] && all[j] == rest[j]);
            } else {
                assert(all[i] == rest[i]);
                let k = choose|k: int| 0 <= k < n - 1 && members[k] == rest[i];
                assert(members[k].0 != members[n - 1].0);
            }
        }
    }
}

/// Taking a key out keeps the keys distinct.
pub proof fn lemma_without_distinct(members: Members, key: Seq<char>)
    requires
        distinct_keys(members),
    ensures
        distinct_keys(without(members, key)),
{
    lemma_without_prefix(members, key, members.len());
    assert(members.take(members.len() as int) =~= members);
}

/// Putting a member first keeps the keys distinct.
pub proof fn lemma_inserted_first_distinct(members: Members, key: Seq<char>, value: Json)
    requires
        distinct_keys(members),
    ensures
        distinct_keys(inserted_before(members, 0, key, value)),
{
    let rest = without(members, key);
    let all = inserted_before(members, 0, key, value);
    lemma_without(members, key);
    lemma_without_distinct(members, key);
    lemma_inserted_first(members, key, value);
    assert forall|i: int, j: int| 0 <= i < j < all.len() implies (#[trigger] all[i]).0 != (
    #[trigger] all[j]).0 by {
        assert(all[j] == rest[j - 1]);
        if i > 0 {
            assert(all[i] == rest[i - 1]);
        }
    }
}

} // verus!
