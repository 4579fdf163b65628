use vstd::prelude::*;
use crate::model::{
    assign_id, can_assign, can_assign_all, create_all, create_one, has_id, ids_unique,
    index_of_id, index_of_name, lemma_index_of_id, lemma_index_of_name, lemma_max_id, max_id,
    mentions_id, take_limit, update_all, update_one, views, with_status, without_id, without_ids,
};
use crate::todo::{Todo, TodoError, TodoRepository, TodoView};

verus! {

/// The contents of the todo file, held in memory in the order in which the
/// file lists them. Reading and writing the file is left to the caller:
/// build the repository from what was read, and write back `into_todos`.
#[derive(Debug)]
pub struct FileTodoRepository {
    todos: Vec<Todo>,
}

impl FileTodoRepository {
    /// A repository holding `todos`, in their order.
    pub fn new(todos: Vec<Todo>) -> (r: FileTodoRepository)
        ensures
            r.stored() == views(todos@),
    {
        FileTodoRepository { todos }
    }

    /// The stored items, in order, to be written back.
    pub fn into_todos(self) -> (r: Vec<Todo>)
        ensures
            views(r@) == self.stored(),
    {
        self.todos
    }

    /// The id that `create_todo` gives to an item whose id is `0`; `None`
    /// where the largest stored id has no successor in `usize`.
    pub fn next_id(&self) -> (r: Option<usize>)
        ensures
            match r {
                Some(n) => max_id(self.stored()) < usize::MAX && n == max_id(self.stored()) + 1,
                None => max_id(self.stored()) == usize::MAX,
            },
    {
        let m = largest_id(&self.todos);
        if m < usize::MAX {
            Some(m + 1)
        } else {
            None
        }
    }
}

/// The position of the first item with this id.
fn find_id(v: &Vec<Todo>, id: usize) -> (r: Option<usize>)
    ensures
        match r {
            Some(i) => i < v@.len() && index_of_id(views(v@), id) == Some(i as int),
            None => index_of_id(views(v@), id) is None,
        },
{
    proof {
        lemma_index_of_id(views(v@), id);
    }
    let mut i: usize = 0;
    while i < v.len()
        invariant
            i <= v.len(),
            forall|j: int| 0 <= j < i ==> views(v@)[j].id != id,
        decreases v.len() - i,
    {
        if v[i].id == id {
            proof {
                lemma_index_of_id(views(v@), id);
            }
            assert(views(v@)[i as int].id == id);
            return Some(i);
        }
        i += 1;
    }
    None
}

/// The position of the first item with this name.
fn find_name(v: &Vec<Todo>, name: &String) -> (r: Option<usize>)
    ensures
        match r {
            Some(i) => i < v@.len() && index_of_name(views(v@), name@) == Some(i as int),
            None => index_of_name(views(v@), name@) is None,
        },
{
    proof {
        lemma_index_of_name(views(v@), name@);
    }
    let mut i: usize = 0;
    while i < v.len()
        invariant
            i <= v.len(),
            forall|j: int| 0 <= j < i ==> views(v@)[j].name != name@,
        decreases v.len() - i,
    {
        if v[i].name == *name {
            proof {
                lemma_index_of_name(views(v@), name@);
            }
            assert(views(v@)[i as int].name == name@);
            return Some(i);
        }
        i += 1;
    }
    None
}

/// Copies of the first `limit` items, or of all where no limit is given.
fn copy_prefix(v: &Vec<Todo>, limit: Option<usize>) -> (r: Vec<Todo>)
    ensures
        views(r@) == take_limit(views(v@), limit),
{
    let n: usize = match limit {
        Some(n) => if n < v.len() { n } else { v.len() },
        None => v.len(),
    };
    let mut out: Vec<Todo> = Vec::new();
    let mut i: usize = 0;
    while i < n
        invariant
            n <= v.len(),
            i <= n,
            views(out@) == views(v@).take(i as int),
        decreases n - i,
    {
        let ghost prev = out@;
        let t = v[i].clone();
        assert(t@ == v@[i as int]@);
        out.push(t);
        assert(views(out@) =~= views(prev).push(v@[i as int]@));
        assert(views(v@).take(i + 1) =~= views(v@).take(i as int).push(v@[i as int]@));
        i += 1;
    }
    assert(views(v@).take(n as int) =~= take_limit(views(v@), limit));
    out
}

/// Copies of the items whose completion flag is `completed`, in order.
fn filter_status(v: &Vec<Todo>, completed: bool) -> (r: Vec<Todo>)
    ensures
        views(r@) == with_status(views(v@), completed),
{
    let mut out: Vec<Todo> = Vec::new();
    let mut i: usize = 0;
    while i < v.len()
        invariant
            i <= v.len(),
            views(out@) == with_status(views(v@).take(i as int), completed),
        decreases v.len() - i,
    {
        let ghost pre = views(v@).take(i as int);
        assert(views(v@).take(i + 1).drop_last() =~= pre);
        if v[i].completed == completed {
            let ghost prev = out@;
            out.push(v[i].clone());
            assert(views(out@) =~= views(prev).push(v@[i as int]@));
        }
        i += 1;
    }
    assert(views(v@).take(v.len() as int) =~= views(v@));
    out
}

/// Copies of the items whose id is not `id`, in order.
fn filter_other_id(v: &Vec<Todo>, id: usize) -> (r: Vec<Todo>)
    ensures
        views(r@) == without_id(views(v@), id),
{
    let mut out: Vec<Todo> = Vec::new();
    let mut i: usize = 0;
    while i < v.len()
        invariant
            i <= v.len(),
            views(out@) == without_id(views(v@).take(i as int), id),
        decreases v.len() - i,
    {
        assert(views(v@).take(i + 1).drop_last() =~= views(v@).take(i as int));
        if v[i].id != id {
            let ghost prev = out@;
            out.push(v[i].clone());
            assert(views(out@) =~= views(prev).push(v@[i as int]@));
        }
        i += 1;
    }
    assert(views(v@).take(v.len() as int) =~= views(v@));
    out
}

/// Whether some item of `ts` has this id.
fn mentions(ts: &Vec<Todo>, id: usize) -> (r: bool)
    ensures
        r == mentions_id(views(ts@), id),
{
    let mut j: usize = 0;
    while j < ts.len()
        invariant
            j <= ts.len(),
            forall|k: int| 0 <= k < j ==> views(ts@)[k].id != id,
        decreases ts.len() - j,
    {
        if ts[j].id == id {
            assert(views(ts@)[j as int].id == id);
            return true;
        }
        j += 1;
    }
    false
}

/// Copies of the items whose id no item of `ts` has, in order.
fn filter_unmentioned(v: &Vec<Todo>, ts: &Vec<Todo>) -> (r: Vec<Todo>)
    ensures
        views(r@) == without_ids(views(v@), views(ts@)),
{
    let mut out: Vec<Todo> = Vec::new();
    let mut i: usize = 0;
    while i < v.len()
        invariant
            i <= v.len(),
            views(out@) == without_ids(views(v@).take(i as int), views(ts@)),
        decreases v.len() - i,
    {
        assert(views(v@).take(i + 1).drop_last() =~= views(v@).take(i as int));
        if !mentions(ts, v[i].id) {
            let ghost prev = out@;
            out.push(v[i].clone());
            assert(views(out@) =~= views(prev).push(v@[i as int]@));
        }
        i += 1;
    }
    assert(views(v@).take(v.len() as int) =~= views(v@));
    out
}

/// The largest id in `v`, `0` when it is empty.
fn largest_id(v: &Vec<Todo>) -> (r: usize)
    ensures
        r as nat == max_id(views(v@)),
{
    let mut m: usize = 0;
    let mut i: usize = 0;
    while i < v.len()
        invariant
            i <= v.len(),
            m as nat == max_id(views(v@).take(i as int)),
        decreases v.len() - i,
    {
        assert(views(v@).take(i + 1).drop_last() =~= views(v@).take(i as int));
        if v[i].id > m {
            m = v[i].id;
        }
        i += 1;
    }
    assert(views(v@).take(v.len() as int) =~= views(v@));
    m
}

/// Appends `t`, with an id assigned as `create_one` says; `m` is the largest
/// id in `v`.
fn push_created(v: &mut Vec<Todo>, m: usize, t: Todo)
    requires
        m as nat == max_id(views(old(v)@)),
        can_assign(views(old(v)@), t@),
    ensures
        views(final(v)@) == create_one(views(old(v)@), t@),
{
    let ghost t0 = t@;
    let mut t = t;
    if t.id == 0 {
        t.id = m + 1;
    }
    v.push(t);
    assert(views(v@) =~= create_one(views(old(v)@), t0));
}

/// Replaces the first item with the id of `t` by `t`.
fn replace_first(v: &mut Vec<Todo>, t: Todo)
    ensures
        views(final(v)@) == update_one(views(old(v)@), t@),
{
    match find_id(v, t.id) {
        Some(i) => {
            v.set(i, t);
            assert(views(v@) =~= views(old(v)@).update(i as int, t@));
        },
        None => {},
    }
}

impl TodoRepository for FileTodoRepository {
    closed spec fn stored(&self) -> Seq<TodoView> {
        views(self.todos@)
    }

    fn get_todo(&self, id: usize) -> (r: Result<Todo, TodoError>) {
        match find_id(&self.todos, id) {
            Some(i) => Ok(self.todos[i].clone()),
            None => Err(TodoError::NotFound),
        }
    }

    fn get_todo_by_name(&self, name: String) -> (r: Result<Todo, TodoError>) {
        match find_name(&self.todos, &name) {
            Some(i) => Ok(self.todos[i].clone()),
            None => Err(TodoError::NotFound),
        }
    }

    fn get_todos(&self, limit: Option<usize>) -> (r: Result<Vec<Todo>, TodoError>) {
        Ok(copy_prefix(&self.todos, limit))
    }

    fn get_completed_todos(&self, limit: Option<usize>) -> (r: Result<Vec<Todo>, TodoError>) {
        let completed = filter_status(&self.todos, true);
        Ok(copy_prefix(&completed, limit))
    }

    fn get_incomplete_todos(&self, limit: Option<usize>) -> (r: Result<Vec<Todo>, TodoError>) {
        let incomplete = filter_status(&self.todos, false);
        Ok(copy_prefix(&incomplete, limit))
    }

    fn create_todo(&mut self, todo: Todo) -> (r: Result<(), TodoError>) {
        let m = largest_id(&self.todos);
        proof {
            lemma_max_id(self.stored());
        }
        push_created(&mut self.todos, m, todo);
        proof {
            let s = old(self).stored();
            let s2 = self.stored();
            if todo.id == 0 {
                assert(s2 == s.push(assign_id(s, todo@)));
                assert forall|i: int, j: int|
                    ids_unique(s) && 0 <= i < s2.len() && 0 <= j < s2.len() && i != j implies s2[i].id
                    != s2[j].id by {
                    if i < s.len() && j < s.len() {
                        assert(s2[i] == s[i] && s2[j] == s[j]);
                    } else if i < s.len() {
                        assert(s2[i] == s[i]);
                    } else {
                        assert(s2[j] == s[j]);
                    }
                }
            }
        }
        Ok(())
    }

    fn create_todos(&mut self, todos: Vec<Todo>) -> (r: Result<(), TodoError>) {
        let ghost s0 = self.stored();
        let ghost ts = views(todos@);
        let mut m = largest_id(&self.todos);
        let mut i: usize = 0;
        while i < todos.len()
            invariant
                i <= todos.len(),
                ts == views(todos@),
                can_assign_all(s0, ts),
                self.stored() == create_all(s0, ts.take(i as int)),
                m as nat == max_id(self.stored()),
            decreases todos.len() - i,
        {
            proof {
                lemma_can_assign_prefix(s0, ts, i + 1);
                assert(ts.take(i + 1).drop_last() =~= ts.take(i as int));
            }
            let t = todos[i].clone();
            let ghost before = self.stored();
            push_created(&mut self.todos, m, t);
            proof {
                assert(self.stored().drop_last() =~= before);
            }
            let id = self.todos[self.todos.len() - 1].id;
            if id > m {
                m = id;
            }
            i += 1;
        }
        assert(ts.take(todos.len() as int) =~= ts);
        Ok(())
    }

    fn update_todo(&mut self, todo: Todo) -> (r: Result<(), TodoError>) {
        replace_first(&mut self.todos, todo);
        Ok(())
    }

    fn update_todos(&mut self, todos: Vec<Todo>) -> (r: Result<(), TodoError>) {
        let ghost s0 = self.stored();
        let ghost ts = views(todos@);
        let mut i: usize = 0;
        while i < todos.len()
            invariant
                i <= todos.len(),
                ts == views(todos@),
                self.stored() == update_all(s0, ts.take(i as int)),
            decreases todos.len() - i,
        {
            proof {
                assert(ts.take(i + 1).drop_last() =~= ts.take(i as int));
            }
            replace_first(&mut self.todos, todos[i].clone());
            i += 1;
        }
        assert(ts.take(todos.len() as int) =~= ts);
        Ok(())
    }

    fn delete_todo(&mut self, todo: Todo) -> (r: Result<(), TodoError>) {
        self.todos = filter_other_id(&self.todos, todo.id);
        Ok(())
    }

    fn delete_todos(&mut self, todos: Vec<Todo>) -> (r: Result<(), TodoError>) {
        self.todos = filter_unmentioned(&self.todos, &todos);
        Ok(())
    }
}

/// Where every item of `ts` can be given an id, so can every item of each
/// of its prefixes.
proof fn lemma_can_assign_prefix(s: Seq<TodoView>, ts: Seq<TodoView>, k: int)
    requires
        can_assign_all(s, ts),
        0 <= k <= ts.len(),
    ensures
        can_assign_all(s, ts.take(k)),
    decreases ts.len(),
{
    if k == ts.len() {
        assert(ts.take(k) =~= ts);
    } else {
        lemma_can_assign_prefix(s, ts.drop_last(), k);
        assert(ts.drop_last().take(k) =~= ts.take(k));
    }
}

} // verus!
