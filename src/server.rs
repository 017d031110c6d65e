//! Request routing and the handlers that read and change the todo store.
//!
//! Each handler returns `Some(response)`, or `None` where the request is too
//! malformed to answer: the connection is then closed without a reply.

use vstd::prelude::*;
use crate::num::{i32_of, parse_i32};
use crate::text::{
    after_first, contains, matches_at, first_field, first_piece, has_substring, second_field, second_piece,
    text_after, trim_nul, trim_trailing_nul,
};
use crate::num::decimal;
use crate::todo::{
    create_http_response, list_page, todo_html, todos_html, without_id, StoreState, TodoStore,
    END_HTML, FORM_HTML, OK_HEADER, TODO_HTML_END, TODO_HTML_MIDDLE, TODO_HTML_START, TOP_HTML,
};

verus! {

pub const BAD_REQUEST: &'static str = "HTTP/1.1 400 Bad Request\r\n\r\n";

pub const NOT_FOUND: &'static str = "HTTP/1.1 404 Not Found\r\n\r\n";

pub const PAGE_NOT_FOUND: &'static str = "HTTP/1.1 404 Not Found\r\n\r\n404 Page not found\r\n\r\n";

pub const INTERNAL_ERROR: &'static str = "HTTP/1.1 500 Internal Server Error\r\n\r\n";

pub open spec fn opt_view(r: Option<String>) -> Option<Seq<char>> {
    match r {
        Some(s) => Some(s@),
        None => None,
    }
}

/// The path of a request: the second space-separated word of its first line.
pub open spec fn request_path(req: Seq<char>) -> Option<Seq<char>> {
    second_piece(first_piece(req, "\r\n"@), " "@)
}

/// The body of a request: what follows the first blank line (all of it if
/// there is none), without the NUL padding at its end.
pub open spec fn request_body(req: Seq<char>) -> Seq<char> {
    trim_nul(after_first(req, "\r\n\r\n"@))
}

/// The response to a request for the list.
pub open spec fn list_response(st: StoreState) -> Seq<char> {
    if st.poisoned {
        INTERNAL_ERROR@
    } else {
        list_page(st.items)
    }
}

/// A failed operation on the store: it refuses all later work.
pub open spec fn poison(st: StoreState) -> StoreState {
    StoreState { items: st.items, poisoned: true }
}

/// Adding the todo that a `key=text` body names.
pub open spec fn add_outcome(st: StoreState, body: Seq<char>) -> (StoreState, Option<Seq<char>>) {
    if st.poisoned {
        (st, Some(INTERNAL_ERROR@))
    } else {
        match second_piece(body, "="@) {
            None => (poison(st), None),
            Some(text) => {
                let items = st.items.push((st.items.len() as i32, text));
                (StoreState { items, poisoned: false }, Some(list_page(items)))
            },
        }
    }
}

/// Deleting the todos whose id a `key=id` body names.
pub open spec fn delete_outcome(st: StoreState, body: Seq<char>) -> (
    StoreState,
    Option<Seq<char>>,
) {
    if st.poisoned {
        (st, Some(INTERNAL_ERROR@))
    } else {
        match second_piece(body, "="@) {
            None => (poison(st), None),
            Some(field) => match i32_of(field) {
                None => (st, Some(INTERNAL_ERROR@)),
                Some(id) => {
                    let items = without_id(st.items, id);
                    (StoreState { items, poisoned: false }, Some(list_page(items)))
                },
            },
        }
    }
}

/// The response to a GET request.
pub open spec fn get_outcome(st: StoreState, req: Seq<char>) -> Option<Seq<char>> {
    match request_path(req) {
        None => None,
        Some(path) => if path == "/"@ {
            Some(list_response(st))
        } else {
            Some(PAGE_NOT_FOUND@)
        },
    }
}

/// The store after a POST request, and the response.
pub open spec fn post_outcome(st: StoreState, req: Seq<char>) -> (StoreState, Option<Seq<char>>) {
    match request_path(req) {
        None => (st, None),
        Some(path) => if has_substring(path, "/add_todo"@) {
            add_outcome(st, request_body(req))
        } else if has_substring(path, "/delete_todo"@) {
            delete_outcome(st, request_body(req))
        } else {
            (st, Some(NOT_FOUND@))
        },
    }
}

/// The store after a request, and the response.
pub open spec fn handle_outcome(st: StoreState, req: Seq<char>) -> (
    StoreState,
    Option<Seq<char>>,
) {
    if has_substring(req, "GET"@) {
        (st, get_outcome(st, req))
    } else if has_substring(req, "POST"@) {
        post_outcome(st, req)
    } else {
        (st, Some(BAD_REQUEST@))
    }
}

/// The response that lists the store.
pub fn get_todos_request(store: &TodoStore) -> (r: String)
    ensures
        r@ == list_response(store@),
{
    if store.poisoned {
        String::from_str(INTERNAL_ERROR)
    } else {
        create_http_response(&store.todos)
    }
}

/// Adds the todo that `body` names and lists the store.
pub fn add_todos_request(store: &mut TodoStore, body: &str) -> (r: Option<String>)
    ensures
        (final(store)@, opt_view(r)) == add_outcome(old(store)@, body@),
{
    if store.poisoned {
        return Some(String::from_str(INTERNAL_ERROR));
    }
    match second_field(body, "=") {
        None => {
            store.poisoned = true;
            assert(final(store)@.items =~= old(store)@.items);
            None
        },
        Some(text) => {
            store.push_todo(String::from_str(text));
            Some(create_http_response(&store.todos))
        },
    }
}

/// Deletes the todos whose id `body` names and lists the store.
pub fn delete_todos_request(store: &mut TodoStore, body: &str) -> (r: Option<String>)
    ensures
        (final(store)@, opt_view(r)) == delete_outcome(old(store)@, body@),
{
    if store.poisoned {
        return Some(String::from_str(INTERNAL_ERROR));
    }
    match second_field(body, "=") {
        None => {
            store.poisoned = true;
            assert(final(store)@.items =~= old(store)@.items);
            None
        },
        Some(field) => match parse_i32(field) {
            None => Some(String::from_str(INTERNAL_ERROR)),
            Some(id) => {
                store.remove_id(id);
                Some(create_http_response(&store.todos))
            },
        },
    }
}

/// Whether `path` is exactly `/`.
fn is_root(path: &str) -> (r: bool)
    ensures
        r == (path@ == "/"@),
{
    proof {
        reveal_strlit("/");
    }
    let n = path.unicode_len();
    if n != 1 {
        return false;
    }
    let c = path.get_char(0);
    assert(c == '/' ==> path@ =~= "/"@);
    c == '/'
}

/// The path of `request`, if its first line has one.
pub fn get_path(request: &str) -> (r: Option<&str>)
    ensures
        opt_str_view(r) == request_path(request@),
{
    let line = first_field(request, "\r\n");
    second_field(line, " ")
}

pub open spec fn opt_str_view(r: Option<&str>) -> Option<Seq<char>> {
    match r {
        Some(s) => Some(s@),
        None => None,
    }
}

/// Answers a GET request.
pub fn get_request(store: &TodoStore, request: &str) -> (r: Option<String>)
    ensures
        opt_view(r) == get_outcome(store@, request@),
{
    match get_path(request) {
        None => None,
        Some(path) => if is_root(path) {
            Some(get_todos_request(store))
        } else {
            Some(String::from_str(PAGE_NOT_FOUND))
        },
    }
}

/// Answers a POST request.
pub fn post_request(store: &mut TodoStore, request: &str) -> (r: Option<String>)
    ensures
        (final(store)@, opt_view(r)) == post_outcome(old(store)@, request@),
{
    match get_path(request) {
        None => None,
        Some(path) => {
            let body = trim_trailing_nul(text_after(request, "\r\n\r\n"));
            if contains(path, "/add_todo") {
                add_todos_request(store, body)
            } else if contains(path, "/delete_todo") {
                delete_todos_request(store, body)
            } else {
                Some(String::from_str(NOT_FOUND))
            }
        },
    }
}

/// Answers a request: GET if it mentions `GET`, else POST if it mentions
/// `POST`, else `400 Bad Request`.
pub fn handle_request(store: &mut TodoStore, request: &str) -> (r: Option<String>)
    ensures
        (final(store)@, opt_view(r)) == handle_outcome(old(store)@, request@),
{
    if contains(request, "GET") {
        get_request(store, request)
    } else if contains(request, "POST") {
        post_request(store, request)
    } else {
        Some(String::from_str(BAD_REQUEST))
    }
}

proof fn lemma_without_absent_id(items: Seq<(i32, Seq<char>)>, id: i32)
    requires
        forall|i: int| 0 <= i < items.len() ==> items[i].0 != id,
    ensures
        without_id(items, id) == items,
    decreases items.len(),
{
    reveal(Seq::filter);
    if items.len() > 0 {
        lemma_without_absent_id(items.drop_last(), id);
        assert(items.drop_last().push(items.last()) =~= items);
    }
}

/// Deleting an id that no todo has changes nothing, and the answer is the
/// `200 OK` page of the unchanged list.
pub proof fn lemma_delete_absent_id(st: StoreState, body: Seq<char>, field: Seq<char>, id: i32)
    requires
        !st.poisoned,
        second_piece(body, "="@) == Some(field),
        i32_of(field) == Some(id),
        forall|i: int| 0 <= i < st.items.len() ==> st.items[i].0 != id,
    ensures
        delete_outcome(st, body) == (st, Some(list_page(st.items))),
{
    lemma_without_absent_id(st.items, id);
}

/// Deleting with an id field that is no integer answers
/// `500 Internal Server Error` and leaves the store as it is.
pub proof fn lemma_delete_bad_id(st: StoreState, body: Seq<char>, field: Seq<char>)
    requires
        second_piece(body, "="@) == Some(field),
        i32_of(field) is None,
    ensures
        delete_outcome(st, body) == (st, Some(INTERNAL_ERROR@)),
{
}

/// The store after the adds of `bodies`, made one after another.
pub open spec fn apply_adds(st: StoreState, bodies: Seq<Seq<char>>) -> StoreState
    decreases bodies.len(),
{
    if bodies.len() == 0 {
        st
    } else {
        add_outcome(apply_adds(st, bodies.drop_last()), bodies.last()).0
    }
}

/// Adds made one at a time lose none: whatever their order, each add whose
/// body names a text leaves exactly one more todo in the store.
pub proof fn lemma_adds_are_counted(st: StoreState, bodies: Seq<Seq<char>>)
    requires
        !st.poisoned,
        forall|i: int| 0 <= i < bodies.len() ==> second_piece(#[trigger] bodies[i], "="@) is Some,
    ensures
        apply_adds(st, bodies).items.len() == st.items.len() + bodies.len(),
        !apply_adds(st, bodies).poisoned,
    decreases bodies.len(),
{
    if bodies.len() > 0 {
        let rest = bodies.drop_last();
        assert forall|i: int| 0 <= i < rest.len() implies second_piece(
            #[trigger] rest[i],
            "="@,
        ) is Some by {
            assert(rest[i] == bodies[i]);
        }
        lemma_adds_are_counted(st, rest);
        assert(second_piece(bodies[bodies.len() - 1], "="@) is Some);
    }
}

/// A GET request for any path other than `/` answers `404` and leaves the
/// store as it is.
pub proof fn lemma_get_unknown_path(st: StoreState, req: Seq<char>, path: Seq<char>)
    requires
        has_substring(req, "GET"@),
        request_path(req) == Some(path),
        path != "/"@,
    ensures
        handle_outcome(st, req) == (st, Some(PAGE_NOT_FOUND@)),
{
}

/// After a todo is added, the add's answer and the list's answer are the
/// same page, and it holds the todo's text exactly as it was given.
pub proof fn lemma_added_text_is_listed(st: StoreState, body: Seq<char>, text: Seq<char>)
    requires
        !st.poisoned,
        second_piece(body, "="@) == Some(text),
    ensures
        add_outcome(st, body).1 == Some(list_response(add_outcome(st, body).0)),
        has_substring(list_response(add_outcome(st, body).0), text),
{
    let t = (st.items.len() as i32, text);
    let items = st.items.push(t);
    assert(items.drop_last() =~= st.items);
    let pre = OK_HEADER@ + TOP_HTML@ + todos_html(st.items) + TODO_HTML_START@;
    let post = TODO_HTML_MIDDLE@ + decimal(t.0 as int) + TODO_HTML_END@ + FORM_HTML@ + END_HTML@;
    assert(todos_html(items) == todos_html(st.items) + todo_html(t));
    assert(list_page(items) =~= pre + text + post);
    assert((pre + text + post).subrange(pre.len() as int, (pre.len() + text.len()) as int) =~= text);
    assert(matches_at(list_page(items), text, pre.len() as int));
}

} // verus!
