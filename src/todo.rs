use vstd::prelude::*;
use crate::model::{
    can_assign, can_assign_all, create_all, create_one, has_id, ids_nonzero, ids_unique, index_of_id, index_of_name,
    take_limit, update_all, update_one, views, with_status, without_id, without_ids,
};

verus! {

/// The mathematical value of a [`Todo`]: its id, the characters of its name,
/// and whether it is done.
pub struct TodoView {
    pub id: usize,
    pub name: Seq<char>,
    pub completed: bool,
}

/// One tracked item.
#[derive(Debug, PartialEq, Eq)]
pub struct Todo {
    pub id: usize,
    pub name: String,
    pub completed: bool,
}

impl View for Todo {
    type V = TodoView;

    open spec fn view(&self) -> TodoView {
        TodoView { id: self.id, name: self.name@, completed: self.completed }
    }
}

impl Clone for Todo {
    fn clone(&self) -> (r: Todo)
        ensures
            r@ == self@,
    {
        Todo { id: self.id, name: self.name.clone(), completed: self.completed }
    }
}

impl Todo {
    /// A fresh item: not completed. An `id` of `0` means that the repository
    /// assigns one when the item is stored.
    pub fn new(id: usize, name: String) -> (r: Todo)
        ensures
            r@ == (TodoView { id, name: name@, completed: false }),
    {
        Todo { id, name, completed: false }
    }
}

/// Why a repository call failed.
#[derive(Debug, PartialEq, Eq)]
pub enum TodoError {
    /// No stored item matched the lookup.
    NotFound,
    /// The backing store could not be read or written; the text says why.
    Storage(String),
}

impl TodoError {
    /// The message shown to the user.
    pub fn to_string(&self) -> (r: String)
        ensures
            self is NotFound ==> r@ == "Todo not found"@,
            self is Storage ==> r@ == self->Storage_0@,
    {
        match self {
            TodoError::NotFound => "Todo not found".to_owned(),
            TodoError::Storage(msg) => msg.clone(),
        }
    }
}

/// The operations that every store of items offers. `stored` is the sequence
/// of items in the store, in the order in which they were added.
pub trait TodoRepository {
    spec fn stored(&self) -> Seq<TodoView>;

    /// The first stored item with this id.
    fn get_todo(&self, id: usize) -> (r: Result<Todo, TodoError>)
        ensures
            match index_of_id(self.stored(), id) {
                Some(i) => r matches Ok(t) && t@ == self.stored()[i],
                None => r == Err::<Todo, TodoError>(TodoError::NotFound),
            },
    ;

    /// The first stored item with this name.
    fn get_todo_by_name(&self, name: String) -> (r: Result<Todo, TodoError>)
        ensures
            match index_of_name(self.stored(), name@) {
                Some(i) => r matches Ok(t) && t@ == self.stored()[i],
                None => r == Err::<Todo, TodoError>(TodoError::NotFound),
            },
    ;

    /// The stored items, cut to the first `limit` where one is given.
    fn get_todos(&self, limit: Option<usize>) -> (r: Result<Vec<Todo>, TodoError>)
        ensures
            r matches Ok(v) && views(v@) == take_limit(self.stored(), limit),
    ;

    /// The completed items, cut to the first `limit` where one is given.
    fn get_completed_todos(&self, limit: Option<usize>) -> (r: Result<Vec<Todo>, TodoError>)
        ensures
            r matches Ok(v) && views(v@) == take_limit(with_status(self.stored(), true), limit),
    ;

    /// The items not yet completed, cut to the first `limit` where one is given.
    fn get_incomplete_todos(&self, limit: Option<usize>) -> (r: Result<Vec<Todo>, TodoError>)
        ensures
            r matches Ok(v) && views(v@) == take_limit(with_status(self.stored(), false), limit),
    ;

    /// Appends `todo`, giving it the id after the largest stored one if its id
    /// is `0`.
    fn create_todo(&mut self, todo: Todo) -> (r: Result<(), TodoError>)
        requires
            can_assign(old(self).stored(), todo@),
        ensures
            r is Ok,
            final(self).stored() == create_one(old(self).stored(), todo@),
            todo.id == 0 ==> !has_id(old(self).stored(), final(self).stored().last().id),
            todo.id == 0 ==> final(self).stored().last().id != 0,
            todo.id == 0 && ids_unique(old(self).stored()) ==> ids_unique(final(self).stored()),
            todo.id == 0 && ids_nonzero(old(self).stored()) ==> ids_nonzero(final(self).stored()),
    ;

    /// Creates each item of `todos` in turn, as `create_todo` does. Each id of
    /// `0` follows the largest id stored by then, not the id of the last
    /// stored item, so a store reordered by deletions gets no repeated id.
    fn create_todos(&mut self, todos: Vec<Todo>) -> (r: Result<(), TodoError>)
        requires
            can_assign_all(old(self).stored(), views(todos@)),
        ensures
            r is Ok,
            final(self).stored() == create_all(old(self).stored(), views(todos@)),
    ;

    /// Replaces the first stored item with the id of `todo` by `todo`; does
    /// nothing where no item has that id.
    fn update_todo(&mut self, todo: Todo) -> (r: Result<(), TodoError>)
        ensures
            r is Ok,
            final(self).stored() == update_one(old(self).stored(), todo@),
    ;

    /// Updates with each item of `todos` in turn, as `update_todo` does.
    fn update_todos(&mut self, todos: Vec<Todo>) -> (r: Result<(), TodoError>)
        ensures
            r is Ok,
            final(self).stored() == update_all(old(self).stored(), views(todos@)),
    ;

    /// Removes every stored item with the id of `todo`.
    fn delete_todo(&mut self, todo: Todo) -> (r: Result<(), TodoError>)
        ensures
            r is Ok,
            final(self).stored() == without_id(old(self).stored(), todo.id),
    ;

    /// Removes every stored item whose id is that of an item of `todos`.
    fn delete_todos(&mut self, todos: Vec<Todo>) -> (r: Result<(), TodoError>)
        ensures
            r is Ok,
            final(self).stored() == without_ids(old(self).stored(), views(todos@)),
    ;
}

/// The stored items of `repo`, cut to the first `limit` where one is given.
pub fn get_todos<R: TodoRepository>(repo: &R, limit: Option<usize>) -> (r: Result<Vec<Todo>, TodoError>)
    ensures
        r matches Ok(v) && views(v@) == take_limit(repo.stored(), limit),
{
    repo.get_todos(limit)
}

} // verus!
