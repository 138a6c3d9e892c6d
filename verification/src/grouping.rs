//! Putting positions with equal types together.

use linked_hash_map::LinkedHashMap;
use vstd::prelude::*;

use crate::read::{equal_types, type_class};

verus! {

#[verifier::external_type_specification]
#[verifier::external_body]
#[verifier::reject_recursive_types(K)]
#[verifier::reject_recursive_types(V)]
#[verifier::reject_recursive_types(S)]
pub struct ExLinkedHashMap<K, V, S>(linked_hash_map::LinkedHashMap<K, V, S>);

/// The keys and values of a map, in the order in which the keys came in.
pub uninterp spec fn entries(map: LinkedHashMap<usize, Vec<usize>>) -> Seq<(usize, Seq<usize>)>;

/// `linked_hash_map::LinkedHashMap::new`: a map without entries.
#[verifier::external_body]
fn new_map() -> (map: LinkedHashMap<usize, Vec<usize>>)
    ensures
        entries(map) == Seq::<(usize, Seq<usize>)>::empty(),
{
    LinkedHashMap::new()
}

/// `linked_hash_map::LinkedHashMap::get_mut`: the value of the entry with the key, where there is
/// one. The entry keeps its place, and writing through the reference writes its value.
#[verifier::external_body]
fn get_mut<'a>(
    map: &'a mut LinkedHashMap<usize, Vec<usize>>,
    key: usize,
) -> (value: Option<&'a mut Vec<usize>>)
    ensures
        match value {
            Some(value) => exists|i: int|
                #![trigger entries(*old(map))[i]]
                {
                    &&& 0 <= i < entries(*old(map)).len()
                    &&& entries(*old(map))[i] == (key, value@)
                    &&& entries(*final(map)) == entries(*old(map)).update(i, (key, final(value)@))
                },
            None => {
                &&& entries(*final(map)) == entries(*old(map))
                &&& forall|i: int|
                    0 <= i < entries(*old(map)).len() ==> (#[trigger] entries(*old(map))[i]).0 != key
            },
        },
{
    map.get_mut(&key)
}

/// `linked_hash_map::LinkedHashMap::insert` of a key that the map does not have: the entry comes
/// after all the others.
#[verifier::external_body]
fn insert(map: &mut LinkedHashMap<usize, Vec<usize>>, key: usize, value: Vec<usize>)
    requires
        forall|i: int|
            0 <= i < entries(*old(map)).len() ==> (#[trigger] entries(*old(map))[i]).0 != key,
    ensures
        entries(*final(map)) == entries(*old(map)).push((key, value@)),
{
    map.insert(key, value);
}

/// `linked_hash_map::LinkedHashMap::into_iter`: the entries, in the order in which the keys came
/// in.
#[verifier::external_body]
fn into_entries(map: LinkedHashMap<usize, Vec<usize>>) -> (list: Vec<(usize, Vec<usize>)>)
    ensures
        list@.map_values(|entry: (usize, Vec<usize>)| (entry.0, entry.1@)) == entries(map),
{
    map.into_iter().collect()
}

/// The number of each type of a list.
pub open spec fn classes(list: Seq<syn::Type>) -> Seq<int> {
    list.map_values(|ty: syn::Type| type_class(ty))
}

/// The positions at which a type stands for the first time, in order.
pub open spec fn leaders(types: Seq<int>) -> Seq<int>
    decreases types.len(),
{
    if types.len() == 0 {
        Seq::empty()
    } else if types.drop_last().contains(types.last()) {
        leaders(types.drop_last())
    } else {
        leaders(types.drop_last()).push(types.len() - 1)
    }
}

/// The positions at which `ty` stands, in order.
pub open spec fn members(types: Seq<int>, ty: int) -> Seq<int>
    decreases types.len(),
{
    if types.len() == 0 {
        Seq::empty()
    } else if types.last() == ty {
        members(types.drop_last(), ty).push(types.len() - 1)
    } else {
        members(types.drop_last(), ty)
    }
}

/// The positions of the list, those of equal types together: the groups in the order of their
/// first positions, the positions within each in order.
pub open spec fn groups(types: Seq<int>) -> Seq<Seq<int>> {
    leaders(types).map_values(|leader: int| members(types, types[leader]))
}

/// Positions as numbers.
pub open spec fn positions(list: Seq<usize>) -> Seq<int> {
    list.map_values(|position: usize| position as int)
}

/// Each group of a list of groups, as numbers.
pub open spec fn position_lists(list: Seq<Vec<usize>>) -> Seq<Seq<int>> {
    list.map_values(|group: Vec<usize>| positions(group@))
}

/// A leader is a position of the list, at which its type stands for the first time. The leaders
/// are in order.
proof fn lemma_leaders(types: Seq<int>)
    ensures
        forall|k: int|
            0 <= k < leaders(types).len() ==> 0 <= #[trigger] leaders(types)[k] < types.len(),
        forall|k: int, j: int|
            0 <= k < leaders(types).len() && 0 <= j < leaders(types)[k] ==> #[trigger] types[j]
                != types[#[trigger] leaders(types)[k]],
        forall|k: int, m: int|
            0 <= k < m < leaders(types).len() ==> #[trigger] leaders(types)[k]
                < #[trigger] leaders(types)[m],
    decreases types.len(),
{
    if types.len() > 0 {
        let rest = types.drop_last();
        lemma_leaders(rest);
        assert forall|k: int, j: int|
            0 <= k < leaders(types).len() && 0 <= j < leaders(types)[k] implies #[trigger] types[j]
            != types[#[trigger] leaders(types)[k]] by {
            if k < leaders(rest).len() {
                assert(leaders(types)[k] == leaders(rest)[k]);
                assert(rest[j] == types[j]);
                assert(rest[leaders(rest)[k]] == types[leaders(rest)[k]]);
            } else {
                assert(rest[j] == types[j]);
                assert(rest.contains(types[j]));
            }
        }
    }
}

/// Each type of the list has a leader.
proof fn lemma_led(types: Seq<int>, i: int) -> (k: int)
    requires
        0 <= i < types.len(),
    ensures
        0 <= k < leaders(types).len(),
        0 <= leaders(types)[k] <= i,
        types[leaders(types)[k]] == types[i],
    decreases types.len(),
{
    let rest = types.drop_last();
    lemma_leaders(rest);
    if i < rest.len() {
        let k = lemma_led(rest, i);
        assert(rest[leaders(rest)[k]] == types[leaders(rest)[k]]);
        k
    } else if rest.contains(types.last()) {
        let j = choose|j: int| 0 <= j < rest.len() && rest[j] == types.last();
        let k = lemma_led(rest, j);
        assert(rest[leaders(rest)[k]] == types[leaders(rest)[k]]);
        k
    } else {
        leaders(types).len() - 1
    }
}

/// The first position with the same type as position `n`.
fn first_same(types: &Vec<syn::Type>, n: usize) -> (first: usize)
    requires
        n < types.len(),
    ensures
        first <= n,
        classes(types@)[first as int] == classes(types@)[n as int],
        forall|j: int| 0 <= j < first ==> #[trigger] classes(types@)[j] != classes(types@)[n as int],
{
    let mut j: usize = 0;
    while j < n
        invariant
            j <= n < types.len(),
            forall|i: int| 0 <= i < j ==> #[trigger] classes(types@)[i] != classes(types@)[n as int],
        decreases n - j,
    {
        assert(classes(types@)[j as int] == type_class(types[j as int]));
        assert(classes(types@)[n as int] == type_class(types[n as int]));
        if equal_types(&types[j], &types[n]) {
            return j;
        }
        j += 1;
    }
    n
}

/// A type that does not stand in the list has no positions.
proof fn lemma_no_members(types: Seq<int>, ty: int)
    requires
        !types.contains(ty),
    ensures
        members(types, ty).len() == 0,
    decreases types.len(),
{
    if types.len() > 0 {
        assert(types.contains(types.last()));
        assert forall|j: int| 0 <= j < types.drop_last().len() implies types.drop_last()[j] != ty by {
            assert(types.contains(types[j]));
        }
        lemma_no_members(types.drop_last(), ty);
    }
}

/// What the entries are once the types of the list have come in: the key of a group is its first
/// position.
spec fn holds(list: Seq<(usize, Seq<usize>)>, types: Seq<int>) -> bool {
    &&& list.len() == leaders(types).len()
    &&& forall|k: int|
        0 <= k < list.len() ==> {
            &&& (#[trigger] list[k]).0 as int == leaders(types)[k]
            &&& positions(list[k].1) == members(types, types[leaders(types)[k]])
        }
}

/// The entry with the key takes the position in.
spec fn extended(
    before: Seq<(usize, Seq<usize>)>,
    after: Seq<(usize, Seq<usize>)>,
    i: int,
    key: usize,
    position: usize,
) -> bool {
    &&& 0 <= i < before.len()
    &&& before[i].0 == key
    &&& after == before.update(i, (key, before[i].1.push(position)))
}

/// The position starts an entry of its own.
spec fn opened(
    before: Seq<(usize, Seq<usize>)>,
    after: Seq<(usize, Seq<usize>)>,
    key: usize,
    position: usize,
) -> bool {
    &&& forall|i: int| 0 <= i < before.len() ==> (#[trigger] before[i]).0 != key
    &&& after == before.push((key, seq![position]))
}

/// One more type comes in.
proof fn lemma_enter(
    types: Seq<int>,
    ty: int,
    key: usize,
    position: usize,
    before: Seq<(usize, Seq<usize>)>,
    after: Seq<(usize, Seq<usize>)>,
)
    requires
        holds(before, types),
        position == types.len(),
        key <= position,
        types.push(ty)[key as int] == ty,
        forall|j: int| 0 <= j < key ==> #[trigger] types[j] != ty,
        opened(before, after, key, position) || exists|i: int|
            extended(before, after, i, key, position),
    ensures
        holds(after, types.push(ty)),
{
    let more = types.push(ty);
    assert(more.drop_last() == types);
    lemma_leaders(types);
    if key < position {
        assert(types[key as int] == ty);
        assert(types.contains(ty));
        let k = lemma_led(types, key as int);
        assert(leaders(types)[k] == key);
        assert(before[k].0 == key);
        let i = choose|i: int| extended(before, after, i, key, position);
        assert(i == k) by {
            assert(leaders(types)[i] == key);
        }
        assert forall|m: int| 0 <= m < after.len() implies {
            &&& (#[trigger] after[m]).0 as int == leaders(more)[m]
            &&& positions(after[m].1) == members(more, more[leaders(more)[m]])
        } by {
            let leader = leaders(types)[m];
            assert(before[m].0 == leader);
            assert(more[leader] == types[leader]);
            if m == k {
                assert(positions(before[m].1.push(position)) =~= positions(before[m].1).push(
                    position as int,
                ));
            } else if types[leader] == ty {
                assert(types[leader] == types[leaders(types)[k]]);
                assert(leader < leaders(types)[k] || leaders(types)[k] < leader);
                assert(false);
            }
        }
    } else {
        assert forall|i: int| !extended(before, after, i, key, position) by {
            if 0 <= i < before.len() {
                assert(before[i].0 as int == leaders(types)[i]);
            }
        }
        assert(!types.contains(ty));
        lemma_no_members(types, ty);
        assert forall|m: int| 0 <= m < after.len() implies {
            &&& (#[trigger] after[m]).0 as int == leaders(more)[m]
            &&& positions(after[m].1) == members(more, more[leaders(more)[m]])
        } by {
            if m < before.len() {
                let leader = leaders(types)[m];
                assert(before[m].0 == leader);
                assert(more[leader] == types[leader]);
                assert(types.contains(types[leader]));
            } else {
                assert(positions(seq![position]) =~= Seq::<int>::empty().push(position as int));
                assert(members(types, ty) =~= Seq::<int>::empty());
            }
        }
    }
}

/// Puts the positions with equal types together, in the order in which the types come up.
pub fn group(types: &Vec<syn::Type>) -> (list: Vec<Vec<usize>>)
    ensures
        position_lists(list@) == groups(classes(types@)),
{
    let ghost all = classes(types@);
    let mut map = new_map();
    let mut n: usize = 0;
    while n < types.len()
        invariant
            n <= types.len(),
            all == classes(types@),
            holds(entries(map), all.take(n as int)),
        decreases types.len() - n,
    {
        let key = first_same(types, n);
        let ghost before = entries(map);
        match get_mut(&mut map, key) {
            Some(value) => {
                let ghost found = value@;
                value.push(n);
                proof {
                    let i = choose|i: int|
                        0 <= i < before.len() && before[i] == (key, found) && entries(map)
                            == before.update(i, (key, found.push(n)));
                    assert(extended(before, entries(map), i, key, n));
                }
            },
            None => {
                let value = vec![n];
                assert(value@ == seq![n]);
                insert(&mut map, key, value);
                assert(opened(before, entries(map), key, n));
            },
        }
        proof {
            let types = all.take(n as int);
            assert(all.take(n + 1) == types.push(all[n as int]));
            lemma_enter(types, all[n as int], key, n, before, entries(map));
        }
        n += 1;
    }
    assert(all.take(n as int) == all);
    let ghost held = entries(map);
    let entered = into_entries(map);
    let mut list: Vec<Vec<usize>> = Vec::new();
    let mut k: usize = 0;
    while k < entered.len()
        invariant
            k <= entered.len(),
            k == list.len(),
            entered@.map_values(|entry: (usize, Vec<usize>)| (entry.0, entry.1@)) == held,
            holds(held, all),
            forall|m: int|
                0 <= m < k ==> positions((#[trigger] list[m])@) == groups(all)[m],
        decreases entered.len() - k,
    {
        let group = entered[k].1.clone();
        assert(held[k as int] == (entered[k as int].0, entered[k as int].1@));
        list.push(group);
        k += 1;
    }
    assert(held.len() == entered.len());
    assert(position_lists(list@) =~= groups(all));
    list
}

/// The positions of a type are where it stands, and they are in order.
pub proof fn lemma_members(types: Seq<int>, ty: int)
    ensures
        forall|k: int|
            0 <= k < members(types, ty).len() ==> 0 <= #[trigger] members(types, ty)[k]
                < types.len() && types[members(types, ty)[k]] == ty,
        forall|k: int, m: int|
            0 <= k < m < members(types, ty).len() ==> #[trigger] members(types, ty)[k]
                < #[trigger] members(types, ty)[m],
        forall|i: int|
            0 <= i < types.len() && #[trigger] types[i] == ty ==> members(types, ty).contains(i),
    decreases types.len(),
{
    if types.len() > 0 {
        let rest = types.drop_last();
        lemma_members(rest, ty);
        assert forall|k: int| 0 <= k < members(types, ty).len() implies 0 <= #[trigger] members(
            types,
            ty,
        )[k] < types.len() && types[members(types, ty)[k]] == ty by {
            if k < members(rest, ty).len() {
                assert(rest[members(rest, ty)[k]] == types[members(rest, ty)[k]]);
            }
        }
        assert forall|i: int| 0 <= i < types.len() && #[trigger] types[i] == ty implies members(
            types,
            ty,
        ).contains(i) by {
            if i < rest.len() {
                assert(rest[i] == types[i]);
                let k = choose|k: int| 0 <= k < members(rest, ty).len() && members(rest, ty)[k] == i;
                assert(members(types, ty)[k] == i);
            } else {
                assert(members(types, ty).last() == i);
            }
        }
    }
}

/// Each group has a position, and its first one is where its type stands for the first time. All
/// its positions hold that type.
pub proof fn law_group_of_one_type(types: Seq<int>, k: int)
    requires
        0 <= k < groups(types).len(),
    ensures
        groups(types)[k].len() > 0,
        groups(types)[k][0] == leaders(types)[k],
        forall|m: int|
            0 <= m < groups(types)[k].len() ==> 0 <= #[trigger] groups(types)[k][m] < types.len()
                && types[groups(types)[k][m]] == types[groups(types)[k][0]],
        forall|j: int|
            0 <= j < groups(types)[k][0] ==> #[trigger] types[j] != types[groups(types)[k][0]],
{
    let leader = leaders(types)[k];
    lemma_leaders(types);
    lemma_members(types, types[leader]);
    let list = members(types, types[leader]);
    assert(types[leader] == types[leader]);
    assert(list.contains(leader));
    let m = choose|m: int| 0 <= m < list.len() && list[m] == leader;
    if list[0] != leader {
        assert(list[0] < list[m]);
        assert(types[list[0]] == types[leader]);
    }
}

/// Each position stands in exactly one group, and there once.
pub proof fn law_groups_partition(types: Seq<int>, i: int)
    requires
        0 <= i < types.len(),
    ensures
        exists|k: int, m: int|
            0 <= k < groups(types).len() && 0 <= m < groups(types)[k].len()
                && #[trigger] groups(types)[k][m] == i,
        forall|k: int, m: int, k2: int, m2: int|
            0 <= k < groups(types).len() && 0 <= m < groups(types)[k].len() && 0 <= k2 < groups(
                types,
            ).len() && 0 <= m2 < groups(types)[k2].len() && #[trigger] groups(types)[k][m] == i
                && #[trigger] groups(types)[k2][m2] == i ==> k == k2 && m == m2,
{
    let k = lemma_led(types, i);
    let ty = types[leaders(types)[k]];
    lemma_members(types, ty);
    assert(groups(types)[k] == members(types, ty));
    let m = choose|m: int| 0 <= m < members(types, ty).len() && members(types, ty)[m] == i;
    assert(groups(types)[k][m] == i);
    assert forall|k: int, m: int, k2: int, m2: int|
        0 <= k < groups(types).len() && 0 <= m < groups(types)[k].len() && 0 <= k2 < groups(
            types,
        ).len() && 0 <= m2 < groups(types)[k2].len() && #[trigger] groups(types)[k][m] == i
            && #[trigger] groups(types)[k2][m2] == i implies k == k2 && m == m2 by {
        lemma_leaders(types);
        law_group_of_one_type(types, k);
        law_group_of_one_type(types, k2);
        lemma_members(types, types[leaders(types)[k]]);
        assert(types[leaders(types)[k]] == types[leaders(types)[k2]]);
        if k < k2 {
            assert(leaders(types)[k] < leaders(types)[k2]);
        } else if k2 < k {
            assert(leaders(types)[k2] < leaders(types)[k]);
        }
    }
}

/// The groups come in the order of their first positions, and within a group the positions are in
/// order.
pub proof fn law_groups_in_order(types: Seq<int>)
    ensures
        forall|k: int, k2: int|
            0 <= k < k2 < groups(types).len() ==> (#[trigger] groups(types)[k])[0]
                < (#[trigger] groups(types)[k2])[0],
        forall|k: int, m: int, m2: int|
            0 <= k < groups(types).len() && 0 <= m < m2 < groups(types)[k].len()
                ==> #[trigger] groups(types)[k][m] < #[trigger] groups(types)[k][m2],
{
    lemma_leaders(types);
    assert forall|k: int, k2: int| 0 <= k < k2 < groups(types).len() implies (
    #[trigger] groups(types)[k])[0] < (#[trigger] groups(types)[k2])[0] by {
        law_group_of_one_type(types, k);
        law_group_of_one_type(types, k2);
        assert(leaders(types)[k] < leaders(types)[k2]);
    }
    assert forall|k: int, m: int, m2: int|
        0 <= k < groups(types).len() && 0 <= m < m2 < groups(types)[k].len() implies #[trigger] groups(
        types,
    )[k][m] < #[trigger] groups(types)[k][m2] by {
        lemma_members(types, types[leaders(types)[k]]);
    }
}

/// Different groups hold different types.
pub proof fn law_group_types_differ(types: Seq<int>, k: int, k2: int)
    requires
        0 <= k < k2 < groups(types).len(),
    ensures
        types[groups(types)[k][0]] != types[groups(types)[k2][0]],
{
    law_groups_in_order(types);
    law_group_of_one_type(types, k);
    law_group_of_one_type(types, k2);
    assert(groups(types)[k][0] < groups(types)[k2][0]);
}

/// Lists of positions are seen whole, each position where it stands.
pub proof fn law_positions_are_seen_whole(list: Seq<Vec<usize>>, k: int, m: int)
    requires
        0 <= k < list.len(),
        0 <= m < list[k]@.len(),
    ensures
        position_lists(list).len() == list.len(),
        position_lists(list)[k].len() == list[k]@.len(),
        position_lists(list)[k][m] == list[k]@[m],
{
}

} // verus!
