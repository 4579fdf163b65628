use vstd::prelude::*;
use crate::model::{
    create_all, has_id, ids_unique, index_of_id, lemma_index_of_id, mentions_id, take_limit,
    update_one, with_status, without_id, without_ids,
};
use crate::todo::TodoView;

verus! {

/// Creating items one after another appends them in the order of creation
/// and keeps what was stored: each created item keeps its name and flag,
/// and its id where it had one.
pub proof fn lemma_creates_in_order(s: Seq<TodoView>, ts: Seq<TodoView>)
    ensures
        create_all(s, ts).len() == s.len() + ts.len(),
        create_all(s, ts).take(s.len() as int) == s,
        forall|k: int|
            0 <= k < ts.len() ==> {
                let c = #[trigger] create_all(s, ts)[s.len() + k];
                &&& c.name == ts[k].name
                &&& c.completed == ts[k].completed
                &&& (ts[k].id != 0 ==> c.id == ts[k].id)
            },
    decreases ts.len(),
{
    if ts.len() > 0 {
        let prev = create_all(s, ts.drop_last());
        lemma_creates_in_order(s, ts.drop_last());
        assert(create_all(s, ts).take(s.len() as int) =~= prev.take(s.len() as int));
        assert forall|k: int| 0 <= k < ts.len() implies {
            let c = #[trigger] create_all(s, ts)[s.len() + k];
            &&& c.name == ts[k].name
            &&& c.completed == ts[k].completed
            &&& (ts[k].id != 0 ==> c.id == ts[k].id)
        } by {
            if k < ts.len() - 1 {
                assert(create_all(s, ts)[s.len() + k] == prev[s.len() + k]);
                assert(ts[k] == ts.drop_last()[k]);
            }
        }
    }
}

/// An item is among those with flag `completed` exactly when it is stored
/// and has that flag.
pub proof fn lemma_with_status_contains(s: Seq<TodoView>, completed: bool)
    ensures
        forall|x: TodoView|
            #[trigger] with_status(s, completed).contains(x) <==> (s.contains(x) && x.completed
                == completed),
    decreases s.len(),
{
    if s.len() > 0 {
        lemma_with_status_contains(s.drop_last(), completed);
        assert forall|x: TodoView|
            #[trigger] with_status(s, completed).contains(x) <==> (s.contains(x) && x.completed
                == completed) by {
            if s.contains(x) && x != s.last() {
                let i = choose|i: int| 0 <= i < s.len() && s[i] == x;
                assert(s.drop_last()[i] == x);
            }
            if s.drop_last().contains(x) {
                let i = choose|i: int| 0 <= i < s.drop_last().len() && s.drop_last()[i] == x;
                assert(s[i] == x);
            }
            let rest = with_status(s.drop_last(), completed);
            if s.last().completed == completed {
                assert(rest.push(s.last())[rest.len() as int] == s.last());
                if rest.contains(x) {
                    let i = choose|i: int| 0 <= i < rest.len() && rest[i] == x;
                    assert(rest.push(s.last())[i] == x);
                }
                if rest.push(s.last()).contains(x) && x != s.last() {
                    let i = choose|i: int| 0 <= i < rest.len() + 1 && rest.push(s.last())[i] == x;
                    assert(rest[i] == x);
                }
            }
            assert(s[s.len() - 1] == s.last());
        }
    }
}

/// The completed and the incomplete items together are the stored items,
/// and no item is among both.
pub proof fn lemma_status_partition(s: Seq<TodoView>)
    ensures
        with_status(s, true).to_set() + with_status(s, false).to_set() == s.to_set(),
        with_status(s, true).to_set() * with_status(s, false).to_set() == Set::<TodoView>::empty(),
{
    lemma_with_status_contains(s, true);
    lemma_with_status_contains(s, false);
    assert(with_status(s, true).to_set() + with_status(s, false).to_set() =~= s.to_set());
    assert(with_status(s, true).to_set() * with_status(s, false).to_set() =~= Set::<TodoView>::empty());
}

/// A limit of `n` gives the first `min(n, total)` items.
pub proof fn lemma_limit_len(s: Seq<TodoView>, n: usize)
    ensures
        take_limit(s, Some(n)).len() == if n < s.len() { n as int } else { s.len() as int },
        take_limit(s, Some(n)) == s.take(take_limit(s, Some(n)).len() as int),
{
    if n >= s.len() {
        assert(s.take(s.len() as int) =~= s);
    }
}

/// Updating with an id that no stored item has changes nothing.
pub proof fn lemma_update_missing(s: Seq<TodoView>, t: TodoView)
    requires
        !has_id(s, t.id),
    ensures
        update_one(s, t) == s,
{
    lemma_index_of_id(s, t.id);
}

/// Deleting an id that no stored item has changes nothing.
pub proof fn lemma_delete_missing(s: Seq<TodoView>, id: usize)
    requires
        !has_id(s, id),
    ensures
        without_id(s, id) == s,
    decreases s.len(),
{
    if s.len() > 0 {
        assert(!has_id(s.drop_last(), id)) by {
            if has_id(s.drop_last(), id) {
                let i = choose|i: int| 0 <= i < s.drop_last().len() && s.drop_last()[i].id == id;
                assert(s[i].id == id);
            }
        }
        lemma_delete_missing(s.drop_last(), id);
        assert(s.drop_last().push(s.last()) =~= s);
    }
}

/// Where ids are unique, deleting the id of a stored item removes that item
/// and nothing else.
pub proof fn lemma_delete_matching(s: Seq<TodoView>, i: int)
    requires
        ids_unique(s),
        0 <= i < s.len(),
    ensures
        without_id(s, s[i].id) == s.remove(i),
    decreases s.len(),
{
    let id = s[i].id;
    let d = s.drop_last();
    if i == s.len() - 1 {
        assert(!has_id(d, id)) by {
            if has_id(d, id) {
                let j = choose|j: int| 0 <= j < d.len() && d[j].id == id;
                assert(s[j].id == id);
            }
        }
        lemma_delete_missing(d, id);
        assert(s.remove(i) =~= d);
    } else {
        assert(ids_unique(d)) by {
            assert forall|a: int, b: int| 0 <= a < d.len() && 0 <= b < d.len() && a != b implies d[a].id
                != d[b].id by {
                assert(d[a] == s[a] && d[b] == s[b]);
            }
        }
        assert(d[i] == s[i]);
        lemma_delete_matching(d, i);
        assert(s.last().id != id) by {
            assert(s[s.len() - 1] == s.last());
        }
        assert(s.remove(i) =~= d.remove(i).push(s.last()));
    }
}

/// Removing by the ids of no items changes nothing.
pub proof fn lemma_without_no_ids(s: Seq<TodoView>, ts: Seq<TodoView>)
    requires
        ts.len() == 0,
    ensures
        without_ids(s, ts) == s,
    decreases s.len(),
{
    if s.len() > 0 {
        lemma_without_no_ids(s.drop_last(), ts);
        assert(s.drop_last().push(s.last()) =~= s);
    }
}

/// Where no stored item is completed, there are no completed items to list.
pub proof fn lemma_none_completed(s: Seq<TodoView>)
    requires
        forall|i: int| 0 <= i < s.len() ==> !s[i].completed,
    ensures
        with_status(s, true).len() == 0,
    decreases s.len(),
{
    if s.len() > 0 {
        lemma_none_completed(s.drop_last());
        assert(!s[s.len() - 1].completed);
    }
}

/// Cleaning a store that holds no completed item changes nothing.
pub proof fn lemma_clean_without_completed(s: Seq<TodoView>)
    requires
        forall|i: int| 0 <= i < s.len() ==> !s[i].completed,
    ensures
        without_ids(s, with_status(s, true)) == s,
{
    lemma_none_completed(s);
    lemma_without_no_ids(s, with_status(s, true));
}

/// Removing by the ids of items that cover every stored id leaves nothing.
pub proof fn lemma_without_all_ids(s: Seq<TodoView>, ts: Seq<TodoView>)
    requires
        forall|i: int| 0 <= i < s.len() ==> mentions_id(ts, #[trigger] s[i].id),
    ensures
        without_ids(s, ts).len() == 0,
    decreases s.len(),
{
    if s.len() > 0 {
        assert forall|i: int| 0 <= i < s.drop_last().len() implies mentions_id(
            ts,
            #[trigger] s.drop_last()[i].id,
        ) by {
            assert(s.drop_last()[i] == s[i]);
        }
        lemma_without_all_ids(s.drop_last(), ts);
        assert(mentions_id(ts, s[s.len() - 1].id));
    }
}

/// Removing by the ids of `ts`, where an item's id is among them exactly
/// when the item is completed, keeps the incomplete items.
proof fn lemma_without_ids_of_completed(s: Seq<TodoView>, ts: Seq<TodoView>)
    requires
        forall|k: int| 0 <= k < s.len() ==> (mentions_id(ts, #[trigger] s[k].id) <==> s[k].completed),
    ensures
        without_ids(s, ts) == with_status(s, false),
    decreases s.len(),
{
    if s.len() > 0 {
        assert forall|k: int| 0 <= k < s.drop_last().len() implies (mentions_id(
            ts,
            #[trigger] s.drop_last()[k].id,
        ) <==> s.drop_last()[k].completed) by {
            assert(s.drop_last()[k] == s[k]);
        }
        lemma_without_ids_of_completed(s.drop_last(), ts);
        assert(mentions_id(ts, s[s.len() - 1].id) <==> s[s.len() - 1].completed);
    }
}

/// Where ids are unique, cleaning keeps exactly the incomplete items, in
/// order.
pub proof fn lemma_clean_keeps_incomplete(s: Seq<TodoView>)
    requires
        ids_unique(s),
    ensures
        without_ids(s, with_status(s, true)) == with_status(s, false),
{
    let ts = with_status(s, true);
    lemma_with_status_contains(s, true);
    assert forall|k: int| 0 <= k < s.len() implies (mentions_id(ts, #[trigger] s[k].id)
        <==> s[k].completed) by {
        if s[k].completed {
            assert(s.contains(s[k]));
            assert(ts.contains(s[k]));
            let j = choose|j: int| 0 <= j < ts.len() && ts[j] == s[k];
            assert(ts[j].id == s[k].id);
        }
        if mentions_id(ts, s[k].id) {
            let j = choose|j: int| 0 <= j < ts.len() && ts[j].id == s[k].id;
            assert(ts.contains(ts[j]));
            let m = choose|m: int| 0 <= m < s.len() && s[m] == ts[j];
            assert(s[m].id == s[k].id);
        }
    }
    lemma_without_ids_of_completed(s, ts);
}

} // verus!
