use dualdef::rewrite::replace_ident;
use dualdef::tree::Delim;
use dualdef::tree::Node;
use dualdef::tree::node_eq;
use dualdef::tree::nodes_eq;

fn ident(name: &str, span: u64) -> Node {
    Node::Ident { name: name.to_string(), span }
}

fn punct(ch: char, joint: bool, span: u64) -> Node {
    Node::Punct { ch, joint, span }
}

fn lit(text: &str, span: u64) -> Node {
    Node::Lit { text: text.to_string(), span }
}

fn group(delim: Delim, span: u64, children: Vec<Node>) -> Node {
    Node::Group { delim, span, children }
}

#[test]
fn rewrites_exact_matches_only() {
    let input = vec![ident("foo", 1), ident("foobar", 2), ident("foo", 3)];
    let out = replace_ident(&input, "foo", "baz");
    let expected = vec![ident("baz", 1), ident("foobar", 2), ident("baz", 3)];
    assert!(nodes_eq(&out, &expected));
    assert!(matches!(&out[1], Node::Ident { name, .. } if name == "foobar"));
}

#[test]
fn renamed_identifier_keeps_its_span() {
    let input = vec![ident("foo", 7)];
    let out = replace_ident(&input, "foo", "baz");
    assert!(matches!(&out[0], Node::Ident { name, span: 7 } if name == "baz"));
}

#[test]
fn passes_through_without_match() {
    let input = vec![
        ident("alpha", 1),
        punct('+', false, 2),
        lit("42", 3),
        group(Delim::Paren, 4, vec![ident("beta", 5)]),
    ];
    let out = replace_ident(&input, "gamma", "delta");
    assert!(nodes_eq(&out, &input));
}

#[test]
fn rewrites_inside_nested_groups() {
    let input = vec![group(
        Delim::Brace,
        1,
        vec![group(Delim::Paren, 2, vec![ident("foo", 3)]), ident("foo", 4)],
    )];
    let out = replace_ident(&input, "foo", "baz");
    let expected = vec![group(
        Delim::Brace,
        1,
        vec![group(Delim::Paren, 2, vec![ident("baz", 3)]), ident("baz", 4)],
    )];
    assert!(nodes_eq(&out, &expected));
}

#[test]
fn delimiters_are_not_identifiers() {
    let input = vec![group(Delim::Paren, 1, vec![lit("1", 2)])];
    let out = replace_ident(&input, "paren", "bracket");
    assert!(nodes_eq(&out, &input));
}

#[test]
fn literals_and_punctuation_pass_unexamined() {
    let input = vec![lit("foo", 1), punct('.', true, 2)];
    let out = replace_ident(&input, "foo", "baz");
    assert!(nodes_eq(&out, &input));
    assert!(matches!(&out[0], Node::Lit { text, .. } if text == "foo"));
}

#[test]
fn node_eq_distinguishes_nodes() {
    assert!(node_eq(&ident("a", 1), &ident("a", 1)));
    assert!(!node_eq(&ident("a", 1), &ident("b", 1)));
    assert!(!node_eq(&ident("a", 1), &ident("a", 2)));
    assert!(!node_eq(&ident("a", 1), &lit("a", 1)));
    assert!(!node_eq(
        &group(Delim::Paren, 1, vec![ident("a", 2)]),
        &group(Delim::Paren, 1, vec![ident("b", 2)]),
    ));
    assert!(!nodes_eq(&vec![ident("a", 1)], &vec![ident("a", 1), ident("b", 2)]));
}
