use todo_server::num::{parse_i32, push_decimal};
use todo_server::server::{
    add_todos_request, delete_todos_request, get_request, get_todos_request, handle_request,
    post_request, BAD_REQUEST, INTERNAL_ERROR, NOT_FOUND, PAGE_NOT_FOUND,
};
use todo_server::text::{contains, find, first_field, second_field, text_after, trim_trailing_nul};
use todo_server::todo::{create_http_response, Todo, TodoStore, NO_TODOS_HTML};

fn decimal_of(v: i32) -> String {
    let mut out = String::from("id:");
    push_decimal(&mut out, v);
    out
}

fn add_request(body: &str) -> String {
    format!("POST /add_todo HTTP/1.1\r\nHost: localhost\r\n\r\n{}\0\0\0\0", body)
}

fn delete_request(body: &str) -> String {
    format!("POST /delete_todo HTTP/1.1\r\nHost: localhost\r\n\r\n{}\0\0", body)
}

#[test]
fn add_to_empty_store_lists_one_todo() {
    let mut store = TodoStore::new();
    let r = handle_request(&mut store, &add_request("todo=Buy milk")).unwrap();
    assert_eq!(store.todos.len(), 1);
    assert_eq!(store.todos[0].id, 0);
    assert_eq!(store.todos[0].text, "Buy milk");
    assert!(r.starts_with("HTTP/1.1 200 OK\r\nContent-Type: text/html\r\n\r\n"));
    assert!(r.contains("Buy milk"));
    assert!(r.contains("value='0'"));
    assert!(!r.contains(NO_TODOS_HTML));
}

#[test]
fn delete_after_add_falls_back_to_placeholder() {
    let mut store = TodoStore::new();
    handle_request(&mut store, &add_request("todo=Buy milk")).unwrap();
    let r = handle_request(&mut store, &delete_request("id=0")).unwrap();
    assert!(store.todos.is_empty());
    assert!(r.starts_with("HTTP/1.1 200 OK"));
    assert!(r.contains(NO_TODOS_HTML));
    assert!(!r.contains("Buy milk"));
}

#[test]
fn delete_absent_id_keeps_list() {
    let mut store = TodoStore::new();
    let added = handle_request(&mut store, &add_request("todo=Buy milk")).unwrap();
    let r = handle_request(&mut store, &delete_request("id=7")).unwrap();
    assert_eq!(store.todos.len(), 1);
    assert_eq!(r, added);
    assert!(r.starts_with("HTTP/1.1 200 OK"));
}

#[test]
fn delete_non_numeric_id_is_server_error() {
    let mut store = TodoStore::new();
    handle_request(&mut store, &add_request("todo=Buy milk")).unwrap();
    let r = handle_request(&mut store, &delete_request("id=abc")).unwrap();
    assert_eq!(r, INTERNAL_ERROR);
    assert_eq!(store.todos.len(), 1);
    assert!(!store.poisoned);
    let again = get_todos_request(&store);
    assert!(again.contains("Buy milk"));
}

#[test]
fn serialized_adds_are_all_kept() {
    let mut store = TodoStore::new();
    let n: usize = 8;
    for i in 0..n {
        handle_request(&mut store, &add_request(&format!("todo=task{}", i))).unwrap();
    }
    assert_eq!(store.todos.len(), n);
    for i in 0..n {
        assert_eq!(store.todos[i].id, i as i32);
    }
}

#[test]
fn ids_collide_after_delete() {
    let mut store = TodoStore::new();
    handle_request(&mut store, &add_request("todo=a")).unwrap();
    handle_request(&mut store, &add_request("todo=b")).unwrap();
    handle_request(&mut store, &delete_request("id=0")).unwrap();
    handle_request(&mut store, &add_request("todo=c")).unwrap();
    assert_eq!(store.todos.len(), 2);
    assert_eq!(store.todos[0].id, 1);
    assert_eq!(store.todos[1].id, 1);
    let r = handle_request(&mut store, &delete_request("id=1")).unwrap();
    assert!(store.todos.is_empty());
    assert!(r.contains(NO_TODOS_HTML));
}

#[test]
fn get_unknown_path_is_not_found() {
    let mut store = TodoStore::new();
    handle_request(&mut store, &add_request("todo=x")).unwrap();
    let r = handle_request(&mut store, "GET /nope HTTP/1.1\r\n\r\n").unwrap();
    assert_eq!(r, PAGE_NOT_FOUND);
    assert_eq!(store.todos.len(), 1);
    assert_eq!(store.todos[0].text, "x");
}

#[test]
fn added_html_text_is_listed_verbatim() {
    let mut store = TodoStore::new();
    let text = "<b>bold</b> & 'quoted'";
    let added = handle_request(&mut store, &add_request(&format!("todo={}", text))).unwrap();
    let listed = handle_request(&mut store, "GET / HTTP/1.1\r\n\r\n\0\0").unwrap();
    assert_eq!(added, listed);
    assert!(listed.contains(text));
}

#[test]
fn get_root_on_empty_store() {
    let mut store = TodoStore::new();
    let r = handle_request(&mut store, "GET / HTTP/1.1\r\nHost: a\r\n\r\n").unwrap();
    assert_eq!(r, create_http_response(&Vec::new()));
    assert!(r.contains("<p>No todos yet</p>"));
    assert!(r.ends_with("</body>\n\n</html>"));
}

#[test]
fn neither_get_nor_post_is_bad_request() {
    let mut store = TodoStore::new();
    let r = handle_request(&mut store, "PUT /x HTTP/1.1\r\n\r\n").unwrap();
    assert_eq!(r, BAD_REQUEST);
    assert_eq!(r, "HTTP/1.1 400 Bad Request\r\n\r\n");
}

#[test]
fn post_unknown_path_is_not_found() {
    let mut store = TodoStore::new();
    let r = post_request(&mut store, "POST /files HTTP/1.1\r\n\r\na=b").unwrap();
    assert_eq!(r, NOT_FOUND);
    assert!(store.todos.is_empty());
}

#[test]
fn request_line_without_path_gets_no_reply() {
    let mut store = TodoStore::new();
    assert!(handle_request(&mut store, "GET\r\n\r\n").is_none());
    assert!(get_request(&store, "GET").is_none());
    assert!(!store.poisoned);
}

#[test]
fn add_without_field_poisons_store() {
    let mut store = TodoStore::new();
    assert!(handle_request(&mut store, &add_request("nofield")).is_none());
    assert!(store.poisoned);
    assert!(store.todos.is_empty());
    let r = handle_request(&mut store, "GET / HTTP/1.1\r\n\r\n").unwrap();
    assert_eq!(r, INTERNAL_ERROR);
    let r = handle_request(&mut store, &add_request("todo=x")).unwrap();
    assert_eq!(r, INTERNAL_ERROR);
    assert!(store.todos.is_empty());
}

#[test]
fn delete_without_field_poisons_store() {
    let mut store = TodoStore::new();
    assert!(delete_todos_request(&mut store, "nofield").is_none());
    assert!(store.poisoned);
    assert_eq!(delete_todos_request(&mut store, "id=0").unwrap(), INTERNAL_ERROR);
}

#[test]
fn add_takes_second_field_only() {
    let mut store = TodoStore::new();
    add_todos_request(&mut store, "todo=a=b").unwrap();
    assert_eq!(store.todos[0].text, "a");
    add_todos_request(&mut store, "todo=").unwrap();
    assert_eq!(store.todos[1].text, "");
    assert_eq!(store.todos[1].id, 1);
}

#[test]
fn body_follows_first_blank_line() {
    let mut store = TodoStore::new();
    handle_request(&mut store, "POST /add_todo HTTP/1.1\r\n\r\ntodo=one\r\n\r\nx=two\0").unwrap();
    assert_eq!(store.todos[0].text, "one\r\n\r\nx");
}

#[test]
fn rendered_todo_block() {
    let todos = vec![Todo { id: -12, text: "t".to_string() }];
    let r = create_http_response(&todos);
    assert!(r.contains("<span>t</span>\n    <input type='hidden' name='id' value='-12' />\n</form>"));
    assert!(!r.contains("No todos yet"));
    assert!(!r.contains("Content-Length"));
}

#[test]
fn parse_i32_cases() {
    assert_eq!(parse_i32("0"), Some(0));
    assert_eq!(parse_i32("42"), Some(42));
    assert_eq!(parse_i32("+7"), Some(7));
    assert_eq!(parse_i32("-15"), Some(-15));
    assert_eq!(parse_i32("2147483647"), Some(2147483647));
    assert_eq!(parse_i32("-2147483648"), Some(-2147483648));
    assert_eq!(parse_i32("2147483648"), None);
    assert_eq!(parse_i32("99999999999999999999"), None);
    assert_eq!(parse_i32(""), None);
    assert_eq!(parse_i32("-"), None);
    assert_eq!(parse_i32("+"), None);
    assert_eq!(parse_i32("abc"), None);
    assert_eq!(parse_i32(" 1"), None);
    assert_eq!(parse_i32("1 "), None);
}

#[test]
fn decimal_text_cases() {
    assert_eq!(decimal_of(0), "id:0");
    assert_eq!(decimal_of(7), "id:7");
    assert_eq!(decimal_of(1234), "id:1234");
    assert_eq!(decimal_of(-5), "id:-5");
    assert_eq!(decimal_of(i32::MAX), "id:2147483647");
    assert_eq!(decimal_of(i32::MIN), "id:-2147483648");
}

#[test]
fn text_helpers() {
    assert_eq!(find("abcabc", "ca"), Some(2));
    assert_eq!(find("abc", "d"), None);
    assert_eq!(find("héllo", "l"), Some(2));
    assert!(contains("xxGETxx", "GET"));
    assert!(!contains("", "GET"));
    assert_eq!(first_field("GET / HTTP\r\nrest", "\r\n"), "GET / HTTP");
    assert_eq!(first_field("no line end", "\r\n"), "no line end");
    assert_eq!(second_field("GET /a b", " "), Some("/a"));
    assert_eq!(second_field("GET /a", " "), Some("/a"));
    assert_eq!(second_field("GET", " "), None);
    assert_eq!(text_after("h\r\n\r\nbody", "\r\n\r\n"), "body");
    assert_eq!(text_after("nobody", "\r\n\r\n"), "nobody");
    assert_eq!(trim_trailing_nul("ab\0\0"), "ab");
    assert_eq!(trim_trailing_nul("\0a\0"), "\0a");
    assert_eq!(trim_trailing_nul("\0\0"), "");
}
