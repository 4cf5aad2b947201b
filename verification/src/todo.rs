use vstd::prelude::*;

verus! {

/// The sole domain entity: an id/content pair, mirroring one row of the
/// `todos` table (`id INTEGER PRIMARY KEY AUTOINCREMENT, content TEXT`).
pub struct Todo {
    pub id: i32,
    pub content: String,
}

/// Mathematical model of a `Todo`: the id as an unbounded integer and the
/// content as a sequence of characters.
pub ghost struct TodoView {
    pub id: int,
    pub content: Seq<char>,
}

impl View for Todo {
    type V = TodoView;

    open spec fn view(&self) -> TodoView {
        TodoView { id: self.id as int, content: self.content@ }
    }
}

/// The models of a sequence of todos, in the same order.
pub open spec fn todos_view(ts: Seq<Todo>) -> Seq<TodoView> {
    Seq::new(ts.len(), |i: int| ts[i]@)
}

impl Todo {
    /// A copy of this todo, equal to it in the model.
    pub fn duplicate(&self) -> (r: Todo)
        ensures
            r@ == self@,
    {
        Todo { id: self.id, content: self.content.clone() }
    }
}

} // verus!
