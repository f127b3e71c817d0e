use dualdef::definition::definition_tokens;
use dualdef::definition::parse_definition;
use dualdef::error::ExpandError;
use dualdef::expand::expand_definition;
use dualdef::marker::expand_marker_direct;
use dualdef::marker::expand_marker_suspend;
use dualdef::tree::Delim;
use dualdef::tree::Node;
use dualdef::tree::nodes_eq;

fn ident(name: &str, span: u64) -> Node {
    Node::Ident { name: name.to_string(), span }
}

fn punct(ch: char, joint: bool, span: u64) -> Node {
    Node::Punct { ch, joint, span }
}

fn lit(text: &str, span: u64) -> Node {
    Node::Lit { text: text.to_string(), span }
}

fn group(delim: Delim, span: u64, children: Vec<Node>) -> Node {
    Node::Group { delim, span, children }
}

fn clone_nodes(v: &Vec<Node>) -> Vec<Node> {
    dualdef::tree::copy_nodes(v)
}

#[test]
fn expands_sibling_pair() {
    let input = vec![
        ident("fn", 1),
        ident("get", 2),
        group(Delim::Paren, 3, vec![]),
        group(Delim::Brace, 4, vec![]),
    ];
    let out = expand_definition(&input).unwrap();
    let expected = vec![
        ident("fn", 1),
        ident("get", 2),
        group(Delim::Paren, 3, vec![]),
        group(Delim::Brace, 4, vec![]),
        ident("async", 2),
        ident("fn", 1),
        ident("get_async", 2),
        group(Delim::Paren, 3, vec![]),
        group(Delim::Brace, 4, vec![]),
    ];
    assert!(nodes_eq(&out, &expected));
}

#[test]
fn keeps_bodies_without_markers() {
    let body = vec![ident("a", 5), punct('+', false, 6), ident("b", 7)];
    let input = vec![
        ident("fn", 1),
        ident("get", 2),
        group(Delim::Paren, 3, vec![]),
        group(Delim::Brace, 4, clone_nodes(&body)),
    ];
    let out = expand_definition(&input).unwrap();
    let expected = vec![
        ident("fn", 1),
        ident("get", 2),
        group(Delim::Paren, 3, vec![]),
        group(Delim::Brace, 4, clone_nodes(&body)),
        ident("async", 2),
        ident("fn", 1),
        ident("get_async", 2),
        group(Delim::Paren, 3, vec![]),
        group(Delim::Brace, 4, clone_nodes(&body)),
    ];
    assert!(nodes_eq(&out, &expected));
}

#[test]
fn retargets_markers_per_member() {
    let payload = vec![
        ident("self", 10),
        punct('.', false, 11),
        ident("get", 12),
        group(Delim::Paren, 13, vec![ident("x", 14)]),
    ];
    let input = vec![
        ident("fn", 1),
        ident("run", 2),
        group(Delim::Paren, 3, vec![]),
        group(
            Delim::Brace,
            4,
            vec![
                ident("_await", 5),
                punct('!', false, 6),
                group(Delim::Paren, 7, clone_nodes(&payload)),
            ],
        ),
    ];
    let out = expand_definition(&input).unwrap();
    let expected = vec![
        ident("fn", 1),
        ident("run", 2),
        group(Delim::Paren, 3, vec![]),
        group(
            Delim::Brace,
            4,
            vec![
                ident("_await_sync", 5),
                punct('!', false, 6),
                group(Delim::Paren, 7, clone_nodes(&payload)),
            ],
        ),
        ident("async", 2),
        ident("fn", 1),
        ident("run_async", 2),
        group(Delim::Paren, 3, vec![]),
        group(
            Delim::Brace,
            4,
            vec![
                ident("_await_async", 5),
                punct('!', false, 6),
                group(Delim::Paren, 7, clone_nodes(&payload)),
            ],
        ),
    ];
    assert!(nodes_eq(&out, &expected));
}

#[test]
fn expands_member_declaration() {
    let input = vec![
        ident("fn", 1),
        ident("get", 2),
        group(Delim::Paren, 3, vec![punct('&', false, 4), ident("self", 5)]),
        punct(';', false, 6),
    ];
    let out = expand_definition(&input).unwrap();
    let expected = vec![
        ident("fn", 1),
        ident("get", 2),
        group(Delim::Paren, 3, vec![punct('&', false, 4), ident("self", 5)]),
        punct(';', false, 6),
        ident("async", 2),
        ident("fn", 1),
        ident("get_async", 2),
        group(Delim::Paren, 3, vec![punct('&', false, 4), ident("self", 5)]),
        punct(';', false, 6),
    ];
    assert!(nodes_eq(&out, &expected));
}

#[test]
fn keeps_existing_qualifier() {
    let input = vec![
        ident("pub", 0),
        ident("async", 1),
        ident("fn", 2),
        ident("get", 3),
        group(Delim::Paren, 4, vec![]),
        group(Delim::Brace, 5, vec![]),
    ];
    let out = expand_definition(&input).unwrap();
    let expected = vec![
        ident("pub", 0),
        ident("async", 1),
        ident("fn", 2),
        ident("get", 3),
        group(Delim::Paren, 4, vec![]),
        group(Delim::Brace, 5, vec![]),
        ident("pub", 0),
        ident("async", 1),
        ident("fn", 2),
        ident("get_async", 3),
        group(Delim::Paren, 4, vec![]),
        group(Delim::Brace, 5, vec![]),
    ];
    assert!(nodes_eq(&out, &expected));
}

#[test]
fn refuses_non_function_item() {
    let input = vec![
        ident("const", 1),
        ident("LIMIT", 2),
        punct(':', false, 3),
        ident("u32", 4),
        punct('=', false, 5),
        lit("5", 6),
        punct(';', false, 7),
    ];
    let err = expand_definition(&input).unwrap_err();
    assert_eq!(err, ExpandError::UnsupportedItem);
    assert_eq!(
        err.message(),
        "The macro `#[_async]` can only be applied to a function definition.",
    );
}

#[test]
fn refuses_empty_stream() {
    let input: Vec<Node> = vec![];
    let err = expand_definition(&input).unwrap_err();
    assert_eq!(err, ExpandError::UnsupportedItem);
}

#[test]
fn direct_marker_is_identity() {
    let payload = vec![
        ident("self", 1),
        punct('.', false, 2),
        ident("get", 3),
        group(Delim::Paren, 4, vec![ident("x", 5)]),
    ];
    let copy = clone_nodes(&payload);
    let out = expand_marker_direct(payload);
    assert!(nodes_eq(&out, &copy));
}

#[test]
fn suspend_marker_retargets_method_call() {
    let payload = vec![
        ident("self", 1),
        punct('.', false, 2),
        ident("get", 3),
        group(Delim::Paren, 4, vec![ident("x", 5)]),
    ];
    let out = expand_marker_suspend(&payload).unwrap();
    let expected = vec![
        ident("self", 1),
        punct('.', false, 2),
        ident("get_async", 3),
        group(Delim::Paren, 4, vec![ident("x", 5)]),
        punct('.', false, 3),
        ident("await", 3),
    ];
    assert!(nodes_eq(&out, &expected));
}

#[test]
fn suspend_marker_retargets_path_call() {
    let payload = vec![
        ident("store", 1),
        punct(':', true, 2),
        punct(':', false, 3),
        ident("fetch", 4),
        group(Delim::Paren, 5, vec![]),
    ];
    let out = expand_marker_suspend(&payload).unwrap();
    let expected = vec![
        ident("store", 1),
        punct(':', true, 2),
        punct(':', false, 3),
        ident("fetch_async", 4),
        group(Delim::Paren, 5, vec![]),
        punct('.', false, 4),
        ident("await", 4),
    ];
    assert!(nodes_eq(&out, &expected));
}

#[test]
fn suspend_marker_retargets_plain_call() {
    let payload = vec![ident("fetch", 1), group(Delim::Paren, 2, vec![])];
    let out = expand_marker_suspend(&payload).unwrap();
    let expected = vec![
        ident("fetch_async", 1),
        group(Delim::Paren, 2, vec![]),
        punct('.', false, 1),
        ident("await", 1),
    ];
    assert!(nodes_eq(&out, &expected));
}

#[test]
fn refuses_literal_payload() {
    let payload = vec![lit("42", 1)];
    let err = expand_marker_suspend(&payload).unwrap_err();
    assert_eq!(err, ExpandError::NotACall);
    assert_eq!(
        err.message(),
        "The macro `_await!` can only be applied to a function or method call.",
    );
}

#[test]
fn refuses_non_path_callee() {
    let payload = vec![
        group(Delim::Paren, 1, vec![ident("f", 2)]),
        group(Delim::Paren, 3, vec![ident("x", 4)]),
    ];
    let err = expand_marker_suspend(&payload).unwrap_err();
    assert_eq!(err, ExpandError::CalleeNotAPath);
    assert_eq!(
        err.message(),
        "The macro `_await!` can only be applied to a method or explicit function call.",
    );
}

#[test]
fn parse_and_serialize_round_trip() {
    let input = vec![
        ident("pub", 0),
        ident("fn", 1),
        ident("get", 2),
        punct('<', false, 3),
        ident("T", 4),
        punct('>', false, 5),
        group(Delim::Paren, 6, vec![ident("x", 7), punct(':', false, 8), ident("T", 9)]),
        punct('-', true, 10),
        punct('>', false, 11),
        ident("T", 12),
        group(Delim::Brace, 13, vec![ident("x", 14)]),
    ];
    let d = parse_definition(&input).unwrap();
    assert_eq!(d.name, "get");
    assert!(d.body.is_some());
    let back = definition_tokens(&d);
    assert!(nodes_eq(&back, &input));
}

#[test]
fn emitted_members_parse_as_definitions() {
    let sync_member = vec![
        ident("fn", 1),
        ident("get", 2),
        group(Delim::Paren, 3, vec![]),
        group(Delim::Brace, 4, vec![]),
    ];
    let async_member = vec![
        ident("async", 2),
        ident("fn", 1),
        ident("get_async", 2),
        group(Delim::Paren, 3, vec![]),
        group(Delim::Brace, 4, vec![]),
    ];
    let s = parse_definition(&sync_member).unwrap();
    assert_eq!(s.name, "get");
    let a = parse_definition(&async_member).unwrap();
    assert_eq!(a.name, "get_async");
    assert!(matches!(&a.qual[0], Node::Ident { name, .. } if name == "async"));
    assert!(nodes_eq(&definition_tokens(&s), &sync_member));
    assert!(nodes_eq(&definition_tokens(&a), &async_member));
}
