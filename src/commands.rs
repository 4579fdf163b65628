use vstd::prelude::*;
use crate::laws::lemma_without_all_ids;
use crate::model::{
    index_of_id, index_of_name, mentions_id, take_last, take_limit, update_one, views, with_status, without_id,
    without_ids,
};
use crate::todo::{Todo, TodoError, TodoRepository, TodoView};

verus! {

/// What the user asked for on the command line.
#[derive(Debug)]
pub enum Command {
    /// Add an item with this name.
    Todo { name: String },
    /// Mark an item completed, found by id or else by name.
    Todone { name: Option<String>, id: Option<usize> },
    /// Mark an item not completed, found by id or else by name.
    Tundo { name: Option<String>, id: Option<usize> },
    /// Show items, filtered by the two flags and cut to `limit`.
    List { completed: Option<bool>, incomplete: Option<bool>, limit: Option<usize> },
    /// Remove an item, found by id or else by name.
    Togone { name: Option<String>, id: Option<usize> },
    /// Remove every completed item.
    Clean {},
    /// Remove every item.
    Wipe {},
}

/// Which items a listing shows.
#[derive(Debug, Clone, Copy, PartialEq, Eq)]
pub enum ListFilter {
    All,
    Completed,
    Incomplete,
}

/// The filter that the `completed` and `incomplete` flags select: a flag
/// counts as set only where it is `Some(true)`, and only one of the two set
/// narrows the listing.
pub open spec fn filter_for(completed: Option<bool>, incomplete: Option<bool>) -> ListFilter {
    match (completed, incomplete) {
        (Some(true), None) => ListFilter::Completed,
        (Some(true), Some(false)) => ListFilter::Completed,
        (Some(false), Some(true)) => ListFilter::Incomplete,
        (None, Some(true)) => ListFilter::Incomplete,
        _ => ListFilter::All,
    }
}

/// The items of `s` that `f` lets through, in order.
pub open spec fn filtered(s: Seq<TodoView>, f: ListFilter) -> Seq<TodoView> {
    match f {
        ListFilter::All => s,
        ListFilter::Completed => with_status(s, true),
        ListFilter::Incomplete => with_status(s, false),
    }
}

/// The position of the item that a command names: the first with `id` where
/// an id is given, else the first with `name`.
pub open spec fn target_index(s: Seq<TodoView>, name: Option<String>, id: Option<usize>) -> Option<int> {
    match id {
        Some(n) => index_of_id(s, n),
        None => match name {
            Some(nm) => index_of_name(s, nm@),
            None => None,
        },
    }
}

/// The filter that the two listing flags select.
pub fn list_filter(completed: Option<bool>, incomplete: Option<bool>) -> (r: ListFilter)
    ensures
        r == filter_for(completed, incomplete),
{
    match (completed, incomplete) {
        (Some(true), None) => ListFilter::Completed,
        (Some(false), None) => ListFilter::All,
        (Some(true), Some(false)) => ListFilter::Completed,
        (Some(false), Some(true)) => ListFilter::Incomplete,
        (None, Some(true)) => ListFilter::Incomplete,
        (None, Some(false)) => ListFilter::All,
        (None, None) => ListFilter::All,
        (Some(false), Some(false)) => ListFilter::All,
        (Some(true), Some(true)) => ListFilter::All,
    }
}

/// The last five stored items, in stored order, shown after an item is
/// added.
pub fn list_last_five<R: TodoRepository>(todo_repo: &R) -> (r: Result<Vec<Todo>, TodoError>)
    ensures
        r matches Ok(v) && views(v@) == take_last(todo_repo.stored(), 5),
{
    match todo_repo.get_todos(None) {
        Ok(all) => Ok(copy_last(&all, 5)),
        Err(e) => Err(e),
    }
}

/// Copies of the last `n` items of `v`, in order, or of all where there are
/// fewer.
fn copy_last(v: &Vec<Todo>, n: usize) -> (r: Vec<Todo>)
    ensures
        views(r@) == take_last(views(v@), n as nat),
{
    let start: usize = if n < v.len() { v.len() - n } else { 0 };
    let mut out: Vec<Todo> = Vec::new();
    let mut i: usize = start;
    while i < v.len()
        invariant
            start <= i <= v.len(),
            start == (if n < v.len() { v.len() - n } else { 0 }),
            views(out@) == views(v@).subrange(start as int, i as int),
        decreases v.len() - i,
    {
        let ghost prev = out@;
        let t = v[i].clone();
        out.push(t);
        assert(views(out@) =~= views(prev).push(v@[i as int]@));
        assert(views(v@).subrange(start as int, i + 1) =~= views(v@).subrange(start as int, i as int).push(
            v@[i as int]@,
        ));
        i += 1;
    }
    assert(views(v@).subrange(0, v.len() as int) =~= views(v@));
    out
}

/// The items that a listing with these flags shows, cut to `limit`.
pub fn list_all_todos<R: TodoRepository>(
    todo_repo: &R,
    completed_flag: Option<bool>,
    incomplete_flag: Option<bool>,
    limit: Option<usize>,
) -> (r: Result<Vec<Todo>, TodoError>)
    ensures
        r matches Ok(v) && views(v@) == take_limit(
            filtered(todo_repo.stored(), filter_for(completed_flag, incomplete_flag)),
            limit,
        ),
{
    match list_filter(completed_flag, incomplete_flag) {
        ListFilter::All => todo_repo.get_todos(limit),
        ListFilter::Completed => todo_repo.get_completed_todos(limit),
        ListFilter::Incomplete => todo_repo.get_incomplete_todos(limit),
    }
}

/// The item that a command names: looked up by `id` where one is given,
/// else by `name`.
pub fn find_target<R: TodoRepository>(todo_repo: &R, name: Option<String>, id: Option<usize>) -> (r:
    Result<Todo, TodoError>)
    requires
        name is Some || id is Some,
    ensures
        match target_index(todo_repo.stored(), name, id) {
            Some(i) => r matches Ok(t) && t@ == todo_repo.stored()[i],
            None => r == Err::<Todo, TodoError>(TodoError::NotFound),
        },
{
    match id {
        Some(n) => todo_repo.get_todo(n),
        None => match name {
            Some(nm) => todo_repo.get_todo_by_name(nm),
            None => Err(TodoError::NotFound),
        },
    }
}

/// Sets the completion flag of the item that a command names. Where no item
/// matches, reports `NotFound` and leaves the store as it was.
pub fn set_completed<R: TodoRepository>(
    todo_repo: &mut R,
    name: Option<String>,
    id: Option<usize>,
    completed: bool,
) -> (r: Result<(), TodoError>)
    requires
        name is Some || id is Some,
    ensures
        match target_index(old(todo_repo).stored(), name, id) {
            Some(i) => r is Ok && final(todo_repo).stored() == update_one(
                old(todo_repo).stored(),
                TodoView { completed, ..old(todo_repo).stored()[i] },
            ),
            None => r == Err::<(), TodoError>(TodoError::NotFound) && final(todo_repo).stored()
                == old(todo_repo).stored(),
        },
{
    match find_target(todo_repo, name, id) {
        Ok(todo) => todo_repo.update_todo(Todo { id: todo.id, name: todo.name, completed }),
        Err(e) => Err(e),
    }
}

/// Removes the item that a command names, and every other item with its id.
/// Where no item matches, reports `NotFound` and leaves the store as it was.
pub fn remove_target<R: TodoRepository>(todo_repo: &mut R, name: Option<String>, id: Option<usize>) -> (r:
    Result<(), TodoError>)
    requires
        name is Some || id is Some,
    ensures
        match target_index(old(todo_repo).stored(), name, id) {
            Some(i) => r is Ok && final(todo_repo).stored() == without_id(
                old(todo_repo).stored(),
                old(todo_repo).stored()[i].id,
            ),
            None => r == Err::<(), TodoError>(TodoError::NotFound) && final(todo_repo).stored()
                == old(todo_repo).stored(),
        },
{
    match find_target(todo_repo, name, id) {
        Ok(todo) => todo_repo.delete_todo(todo),
        Err(e) => Err(e),
    }
}

/// Removes every completed item, and any other item that shares an id with
/// one.
pub fn clean<R: TodoRepository>(todo_repo: &mut R) -> (r: Result<(), TodoError>)
    ensures
        r is Ok,
        final(todo_repo).stored() == without_ids(
            old(todo_repo).stored(),
            with_status(old(todo_repo).stored(), true),
        ),
{
    match todo_repo.get_completed_todos(None) {
        Ok(done) => todo_repo.delete_todos(done),
        Err(e) => Err(e),
    }
}

/// Removes every item.
pub fn wipe<R: TodoRepository>(todo_repo: &mut R) -> (r: Result<(), TodoError>)
    ensures
        r is Ok,
        final(todo_repo).stored().len() == 0,
{
    let ghost s = todo_repo.stored();
    match todo_repo.get_todos(None) {
        Ok(all) => {
            proof {
                assert forall|i: int| 0 <= i < s.len() implies mentions_id(views(all@), #[trigger] s[i].id) by {
                    assert(views(all@)[i].id == s[i].id);
                }
                lemma_without_all_ids(s, views(all@));
            }
            todo_repo.delete_todos(all)
        },
        Err(e) => Err(e),
    }
}

} // verus!
