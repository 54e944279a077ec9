use vstd::prelude::*;

verus! {

/// A single task record: a server-assigned identifier, a title, and a
/// completion flag. The identifier is a 128-bit value and never changes
/// after the record is created.
#[derive(Debug)]
pub struct Todo {
    pub id: u128,
    pub title: String,
    pub completed: bool,
}

/// The mathematical content of a record: its identifier, the characters
/// of its title, and its completion flag.
pub ghost struct TodoView {
    pub id: u128,
    pub title: Seq<char>,
    pub completed: bool,
}

impl View for Todo {
    type V = TodoView;

    open spec fn view(&self) -> TodoView {
        TodoView { id: self.id, title: self.title@, completed: self.completed }
    }
}

impl Clone for Todo {
    fn clone(&self) -> (r: Self)
        ensures
            r@ == self@,
    {
        Todo { id: self.id, title: self.title.clone(), completed: self.completed }
    }
}

/// The records of `s`, as mathematical values.
pub open spec fn views_of(s: Seq<Todo>) -> Seq<TodoView> {
    s.map_values(|t: Todo| t@)
}

} // verus!
