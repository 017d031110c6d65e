//! The todo store and the HTML page that lists it.

use vstd::prelude::*;
use crate::num::{decimal, push_decimal};

verus! {

pub const OK_HEADER: &'static str = "HTTP/1.1 200 OK\r\nContent-Type: text/html\r\n\r\n";

pub const TOP_HTML: &'static str = "<!DOCTYPE html>
<html lang='en'>

<head>
    <meta charset='UTF-8' />
    <meta name='viewport' content='width=device-width, initial-scale=1.0' />
    <title>Todo</title>
    <style>
        span {
            display: inline-block;
            width: 200px;
            text-align: left;
        }
        form {
            margin: 4px 0;
        }
    </style>
</head>

<body>
    <h1>To-Do</h1>";

pub const NO_TODOS_HTML: &'static str = "<p>No todos yet</p>";

pub const TODO_HTML_START: &'static str = "<form action='/delete_todo' method='POST'>
    <input type='submit' value='X' />
    <span>";

pub const TODO_HTML_MIDDLE: &'static str = "</span>
    <input type='hidden' name='id' value='";

pub const TODO_HTML_END: &'static str = "' />
</form>";

pub const FORM_HTML: &'static str = "<form action='/add_todo' method='POST'>
    <input type='text' name='todo' />
    <input type='submit' value='Add' />
</form>";

pub const END_HTML: &'static str = "</body>

</html>";

/// One entry of the list: its id and its text.
pub struct Todo {
    pub id: i32,
    pub text: String,
}

impl View for Todo {
    type V = (i32, Seq<char>);

    open spec fn view(&self) -> (i32, Seq<char>) {
        (self.id, self.text@)
    }
}

pub open spec fn todo_views(v: Seq<Todo>) -> Seq<(i32, Seq<char>)> {
    v.map_values(|t: Todo| t@)
}

/// The HTML block of one todo: a delete form that shows its text and
/// carries its id in a hidden field.
pub open spec fn todo_html(t: (i32, Seq<char>)) -> Seq<char> {
    TODO_HTML_START@ + t.1 + TODO_HTML_MIDDLE@ + decimal(t.0 as int) + TODO_HTML_END@
}

/// The blocks of all todos, in order.
pub open spec fn todos_html(ts: Seq<(i32, Seq<char>)>) -> Seq<char>
    decreases ts.len(),
{
    if ts.len() == 0 {
        Seq::empty()
    } else {
        todos_html(ts.drop_last()) + todo_html(ts.last())
    }
}

/// The whole `200 OK` response that lists `ts`, or says that there are none.
pub open spec fn list_page(ts: Seq<(i32, Seq<char>)>) -> Seq<char> {
    OK_HEADER@ + TOP_HTML@ + (if ts.len() == 0 {
        NO_TODOS_HTML@
    } else {
        todos_html(ts)
    }) + FORM_HTML@ + END_HTML@
}

/// Builds the response that lists `todos`.
pub fn create_http_response(todos: &Vec<Todo>) -> (r: String)
    ensures
        r@ == list_page(todo_views(todos@)),
{
    let ghost ts = todo_views(todos@);
    let mut html = String::new();
    let mut i: usize = 0;
    while i < todos.len()
        invariant
            i <= todos@.len(),
            ts == todo_views(todos@),
            html@ == todos_html(ts.subrange(0, i as int)),
        decreases todos@.len() - i,
    {
        let t = &todos[i];
        html.append(TODO_HTML_START);
        html.append(t.text.as_str());
        html.append(TODO_HTML_MIDDLE);
        push_decimal(&mut html, t.id);
        html.append(TODO_HTML_END);
        assert(ts.subrange(0, i + 1).drop_last() =~= ts.subrange(0, i as int));
        assert(html@ =~= todos_html(ts.subrange(0, i + 1)));
        i += 1;
    }
    assert(ts.subrange(0, todos@.len() as int) =~= ts);
    let mut response = String::from_str(OK_HEADER);
    response.append(TOP_HTML);
    if todos.len() == 0 {
        response.append(NO_TODOS_HTML);
    } else {
        response.append(html.as_str());
    }
    response.append(FORM_HTML);
    response.append(END_HTML);
    assert(response@ =~= list_page(ts));
    response
}

/// What a store holds: its todos, and whether an earlier operation failed
/// while it held the store, which leaves the store refusing all later work.
pub struct StoreState {
    pub items: Seq<(i32, Seq<char>)>,
    pub poisoned: bool,
}

/// The todo list with its failure flag.
pub struct TodoStore {
    pub todos: Vec<Todo>,
    pub poisoned: bool,
}

impl View for TodoStore {
    type V = StoreState;

    open spec fn view(&self) -> StoreState {
        StoreState { items: todo_views(self.todos@), poisoned: self.poisoned }
    }
}

/// The todos whose id is not `id`, in their order.
pub open spec fn without_id(items: Seq<(i32, Seq<char>)>, id: i32) -> Seq<(i32, Seq<char>)> {
    items.filter(|t: (i32, Seq<char>)| t.0 != id)
}

impl TodoStore {
    /// An empty store.
    pub fn new() -> (r: TodoStore)
        ensures
            r@.items.len() == 0,
            !r@.poisoned,
    {
        TodoStore { todos: Vec::new(), poisoned: false }
    }

    /// Appends a todo with `text`, whose id is the number of todos before it
    /// (as an `i32`).
    pub fn push_todo(&mut self, text: String)
        ensures
            final(self)@.items == old(self)@.items.push(
                (old(self)@.items.len() as i32, text@),
            ),
            final(self).poisoned == old(self).poisoned,
    {
        let id = self.todos.len() as i32;
        let ghost before = self.todos@;
        self.todos.push(Todo { id, text });
        assert(todo_views(self.todos@) =~= todo_views(before).push((id, text@)));
    }

    /// Removes every todo whose id is `id`.
    pub fn remove_id(&mut self, id: i32)
        ensures
            final(self)@.items == without_id(old(self)@.items, id),
            final(self).poisoned == old(self).poisoned,
    {
        let ghost ts = self@.items;
        let mut kept: Vec<Todo> = Vec::new();
        let mut i: usize = 0;
        while i < self.todos.len()
            invariant
                i <= self.todos@.len(),
                ts == todo_views(self.todos@),
                todo_views(kept@) == without_id(ts.subrange(0, i as int), id),
            decreases self.todos@.len() - i,
        {
            let t = &self.todos[i];
            let ghost kv = todo_views(kept@);
            assert(ts.subrange(0, i + 1).drop_last() =~= ts.subrange(0, i as int));
            proof {
                reveal(Seq::filter);
            }
            if t.id != id {
                kept.push(Todo { id: t.id, text: t.text.clone() });
                assert(todo_views(kept@) =~= kv.push(ts[i as int]));
            }
            i += 1;
        }
        assert(ts.subrange(0, i as int) =~= ts);
        self.todos = kept;
    }
}

} // verus!
