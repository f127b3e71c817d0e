//! The tree rewriter: generic recursive substitution over a syntax tree,
//! renaming every identifier token whose name exactly equals a given name.

use vstd::prelude::*;

verus! {

use crate::tree::Node;
use crate::tree::TreeV;
use crate::tree::copy_node;
use crate::tree::lemma_trees_of_push;
use crate::tree::str_eq;
use crate::tree::trees_of;

/// What renaming `from` to `to` does to one tree: an identifier whose name
/// exactly equals `from` becomes an identifier named `to` at the same
/// position; a group is rebuilt from its renamed children with its delimiter
/// kept; punctuation and literals pass through unchanged.
pub open spec fn replace_tree(t: TreeV, from: Seq<char>, to: Seq<char>) -> TreeV
    decreases t,
{
    match t {
        TreeV::Group { delim, span, children } => TreeV::Group {
            delim,
            span,
            children: replace_trees(children, from, to),
        },
        TreeV::Ident { name, span } => if name == from {
            TreeV::Ident { name: to, span }
        } else {
            t
        },
        TreeV::Punct { .. } => t,
        TreeV::Lit { .. } => t,
    }
}

/// `replace_tree` applied to every tree of a stream, in order.
pub open spec fn replace_trees(ts: Seq<TreeV>, from: Seq<char>, to: Seq<char>) -> Seq<TreeV>
    decreases ts,
{
    if ts.len() == 0 {
        Seq::empty()
    } else {
        replace_trees(ts.subrange(0, ts.len() - 1), from, to).push(
            replace_tree(ts[ts.len() - 1], from, to),
        )
    }
}

/// `replace_trees` maps the stream element by element.
pub proof fn lemma_replace_trees_index(ts: Seq<TreeV>, from: Seq<char>, to: Seq<char>)
    ensures
        replace_trees(ts, from, to).len() == ts.len(),
        forall|i: int|
            0 <= i < ts.len() ==> replace_trees(ts, from, to)[i] == replace_tree(
                ts[i],
                from,
                to,
            ),
    decreases ts,
{
    if ts.len() > 0 {
        lemma_replace_trees_index(ts.subrange(0, ts.len() - 1), from, to);
    }
}

/// `replace_trees` commutes with appending one tree.
pub proof fn lemma_replace_trees_push(ts: Seq<TreeV>, t: TreeV, from: Seq<char>, to: Seq<char>)
    ensures
        replace_trees(ts.push(t), from, to) == replace_trees(ts, from, to).push(
            replace_tree(t, from, to),
        ),
{
    assert(ts.push(t).subrange(0, ts.push(t).len() - 1) =~= ts);
    assert(ts.push(t)[ts.push(t).len() - 1] == t);
}

/// Whether a tree contains an identifier whose name equals `name`.
pub open spec fn tree_mentions(t: TreeV, name: Seq<char>) -> bool
    decreases t,
{
    match t {
        TreeV::Group { children, .. } => trees_mention(children, name),
        TreeV::Ident { name: n, .. } => n == name,
        TreeV::Punct { .. } => false,
        TreeV::Lit { .. } => false,
    }
}

/// Whether any tree of a stream contains an identifier named `name`.
pub open spec fn trees_mention(ts: Seq<TreeV>, name: Seq<char>) -> bool
    decreases ts,
{
    if ts.len() == 0 {
        false
    } else {
        trees_mention(ts.subrange(0, ts.len() - 1), name) || tree_mentions(
            ts[ts.len() - 1],
            name,
        )
    }
}

/// Renaming a name that a tree never mentions returns the tree unchanged.
pub proof fn lemma_replace_tree_no_match(t: TreeV, from: Seq<char>, to: Seq<char>)
    requires
        !tree_mentions(t, from),
    ensures
        replace_tree(t, from, to) == t,
    decreases t,
{
    match t {
        TreeV::Group { children, .. } => {
            lemma_replace_trees_no_match(children, from, to);
        },
        _ => {},
    }
}

/// Renaming a name that a stream never mentions returns the stream unchanged.
pub proof fn lemma_replace_trees_no_match(ts: Seq<TreeV>, from: Seq<char>, to: Seq<char>)
    requires
        !trees_mention(ts, from),
    ensures
        replace_trees(ts, from, to) == ts,
    decreases ts,
{
    if ts.len() > 0 {
        let ts0 = ts.subrange(0, ts.len() - 1);
        lemma_replace_trees_no_match(ts0, from, to);
        lemma_replace_tree_no_match(ts[ts.len() - 1], from, to);
        assert(ts0.push(ts[ts.len() - 1]) =~= ts);
    }
}

/// Whether two trees have the same shape: the same variants, spans and
/// delimiters everywhere, with only the names of identifiers free to differ.
pub open spec fn same_shape(a: TreeV, b: TreeV) -> bool
    decreases a,
{
    match a {
        TreeV::Group { delim, span, children } => b matches TreeV::Group {
            delim: bd,
            span: bs,
            children: bc,
        } && bd == delim && bs == span && same_shapes(children, bc),
        TreeV::Ident { span, .. } => b matches TreeV::Ident { span: bs, .. } && bs == span,
        TreeV::Punct { .. } => b == a,
        TreeV::Lit { .. } => b == a,
    }
}

/// `same_shape`, tree by tree, over two streams of equal length.
pub open spec fn same_shapes(a: Seq<TreeV>, b: Seq<TreeV>) -> bool
    decreases a,
{
    a.len() == b.len() && forall|i: int| 0 <= i < a.len() ==> same_shape(a[i], b[i])
}

/// Rewriting preserves the shape of the tree: only identifier names change.
pub proof fn lemma_replace_tree_same_shape(t: TreeV, from: Seq<char>, to: Seq<char>)
    ensures
        same_shape(t, replace_tree(t, from, to)),
    decreases t,
{
    match t {
        TreeV::Group { children, .. } => {
            lemma_replace_trees_same_shape(children, from, to);
        },
        _ => {},
    }
}

/// Rewriting preserves the shape of every tree of a stream.
pub proof fn lemma_replace_trees_same_shape(ts: Seq<TreeV>, from: Seq<char>, to: Seq<char>)
    ensures
        same_shapes(ts, replace_trees(ts, from, to)),
    decreases ts,
{
    lemma_replace_trees_index(ts, from, to);
    assert forall|i: int| 0 <= i < ts.len() implies same_shape(
        ts[i],
        replace_trees(ts, from, to)[i],
    ) by {
        lemma_replace_tree_same_shape(ts[i], from, to);
    }
}

/// Rename every identifier equal to `from` in one node to `to`.
pub fn replace_in_node(n: &Node, from: &str, to: &str) -> (r: Node)
    ensures
        r@ == replace_tree(n@, from@, to@),
    decreases *n,
{
    match n {
        Node::Group { delim, span, children } => {
            let mut out: Vec<Node> = Vec::new();
            let mut i: usize = 0;
            while i < children.len()
                invariant
                    i <= children.len(),
                    trees_of(out@) == replace_trees(
                        trees_of(children@.subrange(0, i as int)),
                        from@,
                        to@,
                    ),
                    *n matches Node::Group { children: cs, .. } && cs == *children,
                decreases children.len() - i,
            {
                proof {
                    assert(decreases_to!(*n => children@[i as int]));
                }
                let c = replace_in_node(&children[i], from, to);
                let ghost old_out = out@;
                out.push(c);
                proof {
                    lemma_trees_of_push(old_out, c);
                    assert(children@.subrange(0, i as int).push(children@[i as int])
                        =~= children@.subrange(0, i + 1 as int));
                    lemma_trees_of_push(children@.subrange(0, i as int), children@[i as int]);
                    lemma_replace_trees_push(
                        trees_of(children@.subrange(0, i as int)),
                        children@[i as int].to_tree(),
                        from@,
                        to@,
                    );
                }
                i = i + 1;
            }
            proof {
                assert(children@.subrange(0, children@.len() as int) =~= children@);
            }
            Node::Group { delim: *delim, span: *span, children: out }
        },
        Node::Ident { name, span } => {
            if str_eq(name.as_str(), from) {
                Node::Ident { name: String::from_str(to), span: *span }
            } else {
                Node::Ident { name: name.clone(), span: *span }
            }
        },
        Node::Punct { .. } => copy_node(n),
        Node::Lit { .. } => copy_node(n),
    }
}

/// Rename every identifier equal to `from` in a stream of nodes to `to`.
///
/// This is the tree rewriter: a pure, total substitution over the literal
/// token stream, matching names by exact string equality only.
pub fn replace_ident(stream: &Vec<Node>, from: &str, to: &str) -> (r: Vec<Node>)
    ensures
        trees_of(r@) == replace_trees(trees_of(stream@), from@, to@),
{
    let mut out: Vec<Node> = Vec::new();
    let mut i: usize = 0;
    while i < stream.len()
        invariant
            i <= stream.len(),
            trees_of(out@) == replace_trees(trees_of(stream@.subrange(0, i as int)), from@, to@),
        decreases stream.len() - i,
    {
        let c = replace_in_node(&stream[i], from, to);
        let ghost old_out = out@;
        out.push(c);
        proof {
            lemma_trees_of_push(old_out, c);
            assert(stream@.subrange(0, i as int).push(stream@[i as int]) =~= stream@.subrange(
                0,
                i + 1 as int,
            ));
            lemma_trees_of_push(stream@.subrange(0, i as int), stream@[i as int]);
            lemma_replace_trees_push(
                trees_of(stream@.subrange(0, i as int)),
                stream@[i as int].to_tree(),
                from@,
                to@,
            );
        }
        i = i + 1;
    }
    proof {
        assert(stream@.subrange(0, stream@.len() as int) =~= stream@);
    }
    out
}

} // verus!

