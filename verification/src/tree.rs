//! The syntax tree that every pass of the expander works on.
//!
//! A stream of tokens is a `Vec<Node>`; a `Node` is either a delimited group
//! of child nodes, an identifier, a punctuation character, or a literal.
//! Source positions are carried as opaque span handles (`u64`); the library
//! never interprets them, it only preserves and copies them.

use vstd::prelude::*;

verus! {

use vstd::string::StringExecFns;

/// The delimiter of a group node.
#[derive(Clone, Copy, PartialEq, Eq, Structural, Debug)]
pub enum Delim {
    /// `( ... )`
    Paren,
    /// `{ ... }`
    Brace,
    /// `[ ... ]`
    Bracket,
    /// An invisible delimiter.
    Bare,
}

/// One node of a syntax tree.
#[derive(Debug)]
pub enum Node {
    /// A delimited group owning an ordered sequence of child nodes.
    Group { delim: Delim, span: u64, children: Vec<Node> },
    /// An identifier token carrying its name.
    Ident { name: String, span: u64 },
    /// A punctuation character; `joint` records whether it is glued to the
    /// next punctuation character (as in `::` or `->`).
    Punct { ch: char, joint: bool, span: u64 },
    /// A literal token carrying its source text.
    Lit { text: String, span: u64 },
}

/// The mathematical model of a node: the same shape with mathematical
/// sequences in place of vectors and strings.
pub enum TreeV {
    Group { delim: Delim, span: u64, children: Seq<TreeV> },
    Ident { name: Seq<char>, span: u64 },
    Punct { ch: char, joint: bool, span: u64 },
    Lit { text: Seq<char>, span: u64 },
}

impl Node {
    /// The model of this node.
    pub open spec fn to_tree(self) -> TreeV
        decreases self,
    {
        match self {
            Node::Group { delim, span, children } => TreeV::Group {
                delim,
                span,
                children: trees_of(children@),
            },
            Node::Ident { name, span } => TreeV::Ident { name: name@, span },
            Node::Punct { ch, joint, span } => TreeV::Punct { ch, joint, span },
            Node::Lit { text, span } => TreeV::Lit { text: text@, span },
        }
    }
}

impl View for Node {
    type V = TreeV;

    open spec fn view(&self) -> TreeV {
        (*self).to_tree()
    }
}

/// The model of a sequence of nodes: each node replaced by its model.
pub open spec fn trees_of(ns: Seq<Node>) -> Seq<TreeV>
    decreases ns,
{
    if ns.len() == 0 {
        Seq::empty()
    } else {
        trees_of(ns.subrange(0, ns.len() - 1)).push(ns[ns.len() - 1].to_tree())
    }
}

/// `trees_of` maps the sequence element by element.
pub proof fn lemma_trees_of_index(ns: Seq<Node>)
    ensures
        trees_of(ns).len() == ns.len(),
        forall|i: int| 0 <= i < ns.len() ==> trees_of(ns)[i] == ns[i].to_tree(),
    decreases ns,
{
    if ns.len() > 0 {
        lemma_trees_of_index(ns.subrange(0, ns.len() - 1));
    }
}

/// `trees_of` commutes with appending one node.
pub proof fn lemma_trees_of_push(ns: Seq<Node>, n: Node)
    ensures
        trees_of(ns.push(n)) == trees_of(ns).push(n.to_tree()),
{
    assert(ns.push(n).subrange(0, ns.push(n).len() - 1) =~= ns);
    assert(ns.push(n)[ns.push(n).len() - 1] == n);
}

/// `trees_of` commutes with concatenation.
pub proof fn lemma_trees_of_concat(a: Seq<Node>, b: Seq<Node>)
    ensures
        trees_of(a + b) == trees_of(a) + trees_of(b),
    decreases b,
{
    if b.len() == 0 {
        assert(a + b =~= a);
        assert(trees_of(a) + trees_of(b) =~= trees_of(a));
    } else {
        let b0 = b.subrange(0, b.len() - 1);
        lemma_trees_of_concat(a, b0);
        assert(a + b =~= (a + b0).push(b[b.len() - 1]));
        lemma_trees_of_push(a + b0, b[b.len() - 1]);
        lemma_trees_of_push(b0, b[b.len() - 1]);
        assert(b0.push(b[b.len() - 1]) =~= b);
        assert(trees_of(a) + trees_of(b0).push(b[b.len() - 1].to_tree()) =~= (trees_of(a)
            + trees_of(b0)).push(b[b.len() - 1].to_tree()));
    }
}

/// `trees_of` commutes with taking a subrange.
pub proof fn lemma_trees_of_subrange(ns: Seq<Node>, a: int, b: int)
    requires
        0 <= a <= b <= ns.len(),
    ensures
        trees_of(ns.subrange(a, b)) == trees_of(ns).subrange(a, b),
{
    lemma_trees_of_index(ns);
    lemma_trees_of_index(ns.subrange(a, b));
    assert(trees_of(ns.subrange(a, b)) =~= trees_of(ns).subrange(a, b));
}

/// Whether two string slices hold the same characters.
pub fn str_eq(a: &str, b: &str) -> (r: bool)
    ensures
        r == (a@ == b@),
{
    let sa = String::from_str(a);
    let sb = String::from_str(b);
    sa == sb
}

/// A deep copy of one node, preserving its whole model.
pub fn copy_node(n: &Node) -> (r: Node)
    ensures
        r@ == n@,
    decreases *n,
{
    match n {
        Node::Group { delim, span, children } => {
            let mut out: Vec<Node> = Vec::new();
            let mut i: usize = 0;
            while i < children.len()
                invariant
                    i <= children.len(),
                    trees_of(out@) == trees_of(children@.subrange(0, i as int)),
                    *n matches Node::Group { children: cs, .. } && cs == *children,
                decreases children.len() - i,
            {
                proof {
                    assert(decreases_to!(*n => children@[i as int]));
                }
                let c = copy_node(&children[i]);
                proof {
                    assert(children@.subrange(0, i as int).push(children@[i as int])
                        =~= children@.subrange(0, i + 1 as int));
                    lemma_trees_of_push(children@.subrange(0, i as int), children@[i as int]);
                }
                let ghost old_out = out@;
                out.push(c);
                proof {
                    lemma_trees_of_push(old_out, c);
                }
                i = i + 1;
            }
            proof {
                assert(children@.subrange(0, children@.len() as int) =~= children@);
            }
            Node::Group { delim: *delim, span: *span, children: out }
        },
        Node::Ident { name, span } => Node::Ident { name: name.clone(), span: *span },
        Node::Punct { ch, joint, span } => Node::Punct { ch: *ch, joint: *joint, span: *span },
        Node::Lit { text, span } => Node::Lit { text: text.clone(), span: *span },
    }
}

/// A deep copy of the nodes of a stream between two bounds.
pub fn copy_range(ns: &Vec<Node>, a: usize, b: usize) -> (r: Vec<Node>)
    requires
        a <= b && b <= ns.len(),
    ensures
        trees_of(r@) == trees_of(ns@.subrange(a as int, b as int)),
{
    let mut out: Vec<Node> = Vec::new();
    let mut i: usize = a;
    while i < b
        invariant
            a <= i <= b <= ns.len(),
            trees_of(out@) == trees_of(ns@.subrange(a as int, i as int)),
        decreases b - i,
    {
        let c = copy_node(&ns[i]);
        let ghost old_out = out@;
        out.push(c);
        proof {
            lemma_trees_of_push(old_out, c);
            assert(ns@.subrange(a as int, i as int).push(ns@[i as int]) =~= ns@.subrange(
                a as int,
                i + 1 as int,
            ));
            lemma_trees_of_push(ns@.subrange(a as int, i as int), ns@[i as int]);
        }
        i = i + 1;
    }
    out
}

/// A deep copy of a stream of nodes.
pub fn copy_nodes(ns: &Vec<Node>) -> (r: Vec<Node>)
    ensures
        trees_of(r@) == trees_of(ns@),
{
    let mut out: Vec<Node> = Vec::new();
    let mut i: usize = 0;
    while i < ns.len()
        invariant
            i <= ns.len(),
            trees_of(out@) == trees_of(ns@.subrange(0, i as int)),
        decreases ns.len() - i,
    {
        let c = copy_node(&ns[i]);
        let ghost old_out = out@;
        out.push(c);
        proof {
            lemma_trees_of_push(old_out, c);
            assert(ns@.subrange(0, i as int).push(ns@[i as int]) =~= ns@.subrange(0, i + 1 as int));
            lemma_trees_of_push(ns@.subrange(0, i as int), ns@[i as int]);
        }
        i = i + 1;
    }
    proof {
        assert(ns@.subrange(0, ns@.len() as int) =~= ns@);
    }
    out
}

/// Whether two nodes are syntactically equal: the same model tree.
pub fn node_eq(a: &Node, b: &Node) -> (r: bool)
    ensures
        r == (a@ == b@),
    decreases *a,
{
    match a {
        Node::Group { delim: d1, span: s1, children: c1 } => {
            let (d2, s2, c2) = match b {
                Node::Group { delim: d2, span: s2, children: c2 } => (d2, s2, c2),
                _ => {
                    return false;
                },
            };
            proof {
                lemma_trees_of_index(c1@);
                lemma_trees_of_index(c2@);
            }
            if !(*d1 == *d2 && *s1 == *s2) {
                return false;
            }
            if c1.len() != c2.len() {
                return false;
            }
            let mut i: usize = 0;
            while i < c1.len()
                invariant
                    i <= c1.len(),
                    c1.len() == c2.len(),
                    *a matches Node::Group { children: ac, .. } && ac == *c1,
                    a@ matches TreeV::Group { delim: gd, span: gs, children: gc } && gc
                        == trees_of(c1@) && (b@ matches TreeV::Group {
                        delim: hd,
                        span: hs,
                        children: hc,
                    } && hd == gd && hs == gs && hc == trees_of(c2@)),
                    trees_of(c1@).len() == c1@.len(),
                    trees_of(c2@).len() == c2@.len(),
                    forall|m: int| 0 <= m < c1@.len() ==> trees_of(c1@)[m] == c1@[m].to_tree(),
                    forall|m: int| 0 <= m < c2@.len() ==> trees_of(c2@)[m] == c2@[m].to_tree(),
                    forall|m: int| 0 <= m < i ==> trees_of(c1@)[m] == trees_of(c2@)[m],
                decreases c1.len() - i,
            {
                proof {
                    assert(decreases_to!(*a => c1@[i as int]));
                }
                if !node_eq(&c1[i], &c2[i]) {
                    proof {
                        assert(trees_of(c1@)[i as int] != trees_of(c2@)[i as int]);
                    }
                    return false;
                }
                i = i + 1;
            }
            proof {
                assert(trees_of(c1@) =~= trees_of(c2@));
            }
            true
        },
        Node::Ident { name: n1, span: s1 } => match b {
            Node::Ident { name: n2, span: s2 } => *s1 == *s2 && *n1 == *n2,
            _ => false,
        },
        Node::Punct { ch: c1, joint: j1, span: s1 } => match b {
            Node::Punct { ch: c2, joint: j2, span: s2 } => *c1 == *c2 && *j1 == *j2 && *s1 == *s2,
            _ => false,
        },
        Node::Lit { text: t1, span: s1 } => match b {
            Node::Lit { text: t2, span: s2 } => *s1 == *s2 && *t1 == *t2,
            _ => false,
        },
    }
}

/// Whether two streams of nodes are syntactically equal.
pub fn nodes_eq(a: &Vec<Node>, b: &Vec<Node>) -> (r: bool)
    ensures
        r == (trees_of(a@) == trees_of(b@)),
{
    proof {
        lemma_trees_of_index(a@);
        lemma_trees_of_index(b@);
    }
    if a.len() != b.len() {
        return false;
    }
    let mut i: usize = 0;
    while i < a.len()
        invariant
            i <= a.len(),
            a.len() == b.len(),
            trees_of(a@).len() == a@.len(),
            trees_of(b@).len() == b@.len(),
            forall|m: int| 0 <= m < a@.len() ==> trees_of(a@)[m] == a@[m].to_tree(),
            forall|m: int| 0 <= m < b@.len() ==> trees_of(b@)[m] == b@[m].to_tree(),
            forall|m: int| 0 <= m < i ==> trees_of(a@)[m] == trees_of(b@)[m],
        decreases a.len() - i,
    {
        if !node_eq(&a[i], &b[i]) {
            proof {
                assert(trees_of(a@)[i as int] != trees_of(b@)[i as int]);
            }
            return false;
        }
        i = i + 1;
    }
    proof {
        assert(trees_of(a@) =~= trees_of(b@));
    }
    true
}

} // verus!

