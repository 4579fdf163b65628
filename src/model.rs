use vstd::prelude::*;
use crate::todo::{Todo, TodoView};

verus! {

/// The views of a sequence of items, in order.
pub open spec fn views(v: Seq<Todo>) -> Seq<TodoView> {
    v.map_values(|t: Todo| t@)
}

/// No two stored items share an id.
pub open spec fn ids_unique(s: Seq<TodoView>) -> bool {
    forall|i: int, j: int| 0 <= i < s.len() && 0 <= j < s.len() && i != j ==> s[i].id != s[j].id
}

/// Some stored item has this id.
pub open spec fn has_id(s: Seq<TodoView>, id: usize) -> bool {
    exists|i: int| 0 <= i < s.len() && s[i].id == id
}

/// The position of the first item with this id, if any.
pub open spec fn index_of_id(s: Seq<TodoView>, id: usize) -> Option<int>
    decreases s.len(),
{
    if s.len() == 0 {
        None
    } else if s[0].id == id {
        Some(0)
    } else {
        match index_of_id(s.drop_first(), id) {
            Some(j) => Some(j + 1),
            None => None,
        }
    }
}

/// The position of the first item with this name, if any.
pub open spec fn index_of_name(s: Seq<TodoView>, name: Seq<char>) -> Option<int>
    decreases s.len(),
{
    if s.len() == 0 {
        None
    } else if s[0].name == name {
        Some(0)
    } else {
        match index_of_name(s.drop_first(), name) {
            Some(j) => Some(j + 1),
            None => None,
        }
    }
}

/// The first `n` items, or all of them where there are fewer; everything
/// where no limit is given.
pub open spec fn take_limit(s: Seq<TodoView>, limit: Option<usize>) -> Seq<TodoView> {
    match limit {
        Some(n) => if n < s.len() { s.take(n as int) } else { s },
        None => s,
    }
}

/// The last `n` items, in stored order, or all of them where there are
/// fewer.
pub open spec fn take_last(s: Seq<TodoView>, n: nat) -> Seq<TodoView> {
    if n < s.len() { s.subrange(s.len() - n, s.len() as int) } else { s }
}

/// No stored item has the id `0`, which marks an item not yet stored.
pub open spec fn ids_nonzero(s: Seq<TodoView>) -> bool {
    forall|i: int| 0 <= i < s.len() ==> s[i].id != 0
}

/// The items whose completion flag is `completed`, in stored order.
pub open spec fn with_status(s: Seq<TodoView>, completed: bool) -> Seq<TodoView>
    decreases s.len(),
{
    if s.len() == 0 {
        s
    } else {
        let rest = with_status(s.drop_last(), completed);
        if s.last().completed == completed { rest.push(s.last()) } else { rest }
    }
}

/// The items whose id is not `id`, in stored order.
pub open spec fn without_id(s: Seq<TodoView>, id: usize) -> Seq<TodoView>
    decreases s.len(),
{
    if s.len() == 0 {
        s
    } else {
        let rest = without_id(s.drop_last(), id);
        if s.last().id != id { rest.push(s.last()) } else { rest }
    }
}

/// Some item of `ts` has this id.
pub open spec fn mentions_id(ts: Seq<TodoView>, id: usize) -> bool {
    exists|j: int| 0 <= j < ts.len() && ts[j].id == id
}

/// The items whose id no item of `ts` has, in stored order.
pub open spec fn without_ids(s: Seq<TodoView>, ts: Seq<TodoView>) -> Seq<TodoView>
    decreases s.len(),
{
    if s.len() == 0 {
        s
    } else {
        let rest = without_ids(s.drop_last(), ts);
        if !mentions_id(ts, s.last().id) { rest.push(s.last()) } else { rest }
    }
}

/// The largest stored id, `0` for an empty store.
pub open spec fn max_id(s: Seq<TodoView>) -> nat
    decreases s.len(),
{
    if s.len() == 0 {
        0
    } else {
        let m = max_id(s.drop_last());
        if s.last().id > m { s.last().id as nat } else { m }
    }
}

/// `t` as it is stored: an id of `0` is replaced by one past the largest
/// stored id.
pub open spec fn assign_id(s: Seq<TodoView>, t: TodoView) -> TodoView {
    if t.id == 0 { TodoView { id: (max_id(s) + 1) as usize, ..t } } else { t }
}

/// An id can be assigned to `t`: it has one, or the largest stored id has a
/// successor in `usize`.
pub open spec fn can_assign(s: Seq<TodoView>, t: TodoView) -> bool {
    t.id != 0 || max_id(s) < usize::MAX
}

/// The store after creating `t`.
pub open spec fn create_one(s: Seq<TodoView>, t: TodoView) -> Seq<TodoView> {
    s.push(assign_id(s, t))
}

/// The store after creating each item of `ts` in turn.
pub open spec fn create_all(s: Seq<TodoView>, ts: Seq<TodoView>) -> Seq<TodoView>
    decreases ts.len(),
{
    if ts.len() == 0 {
        s
    } else {
        create_one(create_all(s, ts.drop_last()), ts.last())
    }
}

/// Each item of `ts` can be given an id when they are created in turn.
pub open spec fn can_assign_all(s: Seq<TodoView>, ts: Seq<TodoView>) -> bool
    decreases ts.len(),
{
    if ts.len() == 0 {
        true
    } else {
        can_assign_all(s, ts.drop_last()) && can_assign(create_all(s, ts.drop_last()), ts.last())
    }
}

/// The store after replacing the first item with the id of `t` by `t`;
/// unchanged where no item has that id.
pub open spec fn update_one(s: Seq<TodoView>, t: TodoView) -> Seq<TodoView> {
    match index_of_id(s, t.id) {
        Some(i) => s.update(i, t),
        None => s,
    }
}

/// The store after updating with each item of `ts` in turn.
pub open spec fn update_all(s: Seq<TodoView>, ts: Seq<TodoView>) -> Seq<TodoView>
    decreases ts.len(),
{
    if ts.len() == 0 {
        s
    } else {
        update_one(update_all(s, ts.drop_last()), ts.last())
    }
}

/// `index_of_id` finds the first position with the id, and nothing where no
/// item has it.
pub proof fn lemma_index_of_id(s: Seq<TodoView>, id: usize)
    ensures
        match index_of_id(s, id) {
            Some(i) => 0 <= i < s.len() && s[i].id == id && forall|j: int|
                0 <= j < i ==> s[j].id != id,
            None => forall|j: int| 0 <= j < s.len() ==> s[j].id != id,
        },
    decreases s.len(),
{
    if s.len() > 0 {
        lemma_index_of_id(s.drop_first(), id);
        if s[0].id != id {
            match index_of_id(s.drop_first(), id) {
                Some(i) => {
                    assert forall|j: int| 0 <= j < i + 1 implies s[j].id != id by {
                        if j > 0 {
                            assert(s[j] == s.drop_first()[j - 1]);
                        }
                    }
                },
                None => {
                    assert forall|j: int| 0 <= j < s.len() implies s[j].id != id by {
                        if j > 0 {
                            assert(s[j] == s.drop_first()[j - 1]);
                        }
                    }
                },
            }
        }
    }
}

/// `index_of_name` finds the first position with the name, and nothing where
/// no item has it.
pub proof fn lemma_index_of_name(s: Seq<TodoView>, name: Seq<char>)
    ensures
        match index_of_name(s, name) {
            Some(i) => 0 <= i < s.len() && s[i].name == name && forall|j: int|
                0 <= j < i ==> s[j].name != name,
            None => forall|j: int| 0 <= j < s.len() ==> s[j].name != name,
        },
    decreases s.len(),
{
    if s.len() > 0 {
        lemma_index_of_name(s.drop_first(), name);
        if s[0].name != name {
            match index_of_name(s.drop_first(), name) {
                Some(i) => {
                    assert forall|j: int| 0 <= j < i + 1 implies s[j].name != name by {
                        if j > 0 {
                            assert(s[j] == s.drop_first()[j - 1]);
                        }
                    }
                },
                None => {
                    assert forall|j: int| 0 <= j < s.len() implies s[j].name != name by {
                        if j > 0 {
                            assert(s[j] == s.drop_first()[j - 1]);
                        }
                    }
                },
            }
        }
    }
}

/// Every stored id is at most the largest one.
pub proof fn lemma_max_id(s: Seq<TodoView>)
    ensures
        forall|i: int| 0 <= i < s.len() ==> s[i].id <= max_id(s),
    decreases s.len(),
{
    if s.len() > 0 {
        lemma_max_id(s.drop_last());
        assert forall|i: int| 0 <= i < s.len() implies s[i].id <= max_id(s) by {
            if i < s.len() - 1 {
                assert(s[i] == s.drop_last()[i]);
            }
        }
    }
}

} // verus!
