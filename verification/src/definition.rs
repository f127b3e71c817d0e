//! The structured form of a definition: a free-standing operation definition
//! or a member-operation definition of a behavior contract, read out of a
//! token stream and written back to one.
//!
//! The grammar recognised here is the one token shape the expander handles:
//! qualifier tokens, the `fn` keyword, the name, optional generics, the
//! parameter group, return-type tokens, and either a braced body or a
//! terminating semicolon.

use vstd::prelude::*;

verus! {

use vstd::string::StringExecFns;

use crate::error::ExpandError;
use crate::tree::Delim;
use crate::tree::Node;
use crate::tree::TreeV;
use crate::tree::copy_nodes;
use crate::tree::copy_range;
use crate::tree::lemma_trees_of_concat;
use crate::tree::lemma_trees_of_index;
use crate::tree::lemma_trees_of_push;
use crate::tree::lemma_trees_of_subrange;
use crate::tree::str_eq;
use crate::tree::trees_of;

/// One definition in structured form.
pub struct Definition {
    /// The tokens standing before `fn`: attributes, visibility, qualifiers.
    pub qual: Vec<Node>,
    /// The span of the `fn` keyword.
    pub fn_span: u64,
    /// The name of the definition.
    pub name: String,
    /// The span of the name.
    pub name_span: u64,
    /// The tokens between the name and the parameter group (generics).
    pub mid: Vec<Node>,
    /// The children of the parameter group.
    pub params: Vec<Node>,
    /// The span of the parameter group.
    pub params_span: u64,
    /// The tokens between the parameter group and the end: return type and
    /// where clause.
    pub tail: Vec<Node>,
    /// The children of the braced body, or nothing for a bodiless
    /// member-operation declaration that ends in a semicolon.
    pub body: Option<Vec<Node>>,
    /// The span of the body group, or of the terminating semicolon.
    pub end_span: u64,
}

/// The mathematical model of a definition.
#[verifier::ext_equal]
pub struct DefView {
    pub qual: Seq<TreeV>,
    pub fn_span: u64,
    pub name: Seq<char>,
    pub name_span: u64,
    pub mid: Seq<TreeV>,
    pub params: Seq<TreeV>,
    pub params_span: u64,
    pub tail: Seq<TreeV>,
    pub body: Option<Seq<TreeV>>,
    pub end_span: u64,
}

impl View for Definition {
    type V = DefView;

    open spec fn view(&self) -> DefView {
        DefView {
            qual: trees_of(self.qual@),
            fn_span: self.fn_span,
            name: self.name@,
            name_span: self.name_span,
            mid: trees_of(self.mid@),
            params: trees_of(self.params@),
            params_span: self.params_span,
            tail: trees_of(self.tail@),
            body: match self.body {
                Option::Some(b) => Option::Some(trees_of(b@)),
                Option::None => Option::None,
            },
            end_span: self.end_span,
        }
    }
}

/// Whether a tree is the `fn` keyword.
pub open spec fn is_fn_kw(t: TreeV) -> bool {
    t matches TreeV::Ident { name, .. } && name == "fn"@
}

/// Whether a tree is the `async` keyword.
pub open spec fn is_async_kw(t: TreeV) -> bool {
    t matches TreeV::Ident { name, .. } && name == "async"@
}

/// Whether a tree is a parenthesis group.
pub open spec fn is_paren_group(t: TreeV) -> bool {
    t matches TreeV::Group { delim: Delim::Paren, .. }
}

/// The first index at or after `k` holding the `fn` keyword.
pub open spec fn first_fn_idx(s: Seq<TreeV>, k: int) -> Option<int>
    decreases s.len() - k,
{
    if k < 0 || k >= s.len() {
        Option::None
    } else if is_fn_kw(s[k]) {
        Option::Some(k)
    } else {
        first_fn_idx(s, k + 1)
    }
}

/// The first index at or after `k`, and before the last token, holding a
/// parenthesis group.
pub open spec fn first_paren_idx(s: Seq<TreeV>, k: int) -> Option<int>
    decreases s.len() - k,
{
    if k < 0 || k + 1 >= s.len() {
        Option::None
    } else if is_paren_group(s[k]) {
        Option::Some(k)
    } else {
        first_paren_idx(s, k + 1)
    }
}

/// What reading a token stream as a definition yields: the decomposition
/// around the first `fn` keyword, its name, the first parenthesis group
/// after the name, and a braced body or terminating semicolon; or nothing
/// when the stream has no such shape.
pub open spec fn spec_parse_def(s: Seq<TreeV>) -> Option<DefView> {
    match first_fn_idx(s, 0) {
        Option::None => Option::None,
        Option::Some(i) => if i + 1 < s.len() && s[i + 1] is Ident {
            match first_paren_idx(s, i + 2) {
                Option::None => Option::None,
                Option::Some(j) => {
                    let d = DefView {
                        qual: s.subrange(0, i),
                        fn_span: s[i]->Ident_span,
                        name: s[i + 1]->Ident_name,
                        name_span: s[i + 1]->Ident_span,
                        mid: s.subrange(i + 2, j),
                        params: s[j]->Group_children,
                        params_span: s[j]->Group_span,
                        tail: s.subrange(j + 1, s.len() - 1),
                        body: Option::None,
                        end_span: 0,
                    };
                    match s[s.len() - 1] {
                        TreeV::Group { delim: Delim::Brace, span, children } => Option::Some(
                            DefView { body: Option::Some(children), end_span: span, ..d },
                        ),
                        TreeV::Punct { ch, joint, span } => if ch == ';' && !joint {
                            Option::Some(DefView { body: Option::None, end_span: span, ..d })
                        } else {
                            Option::None
                        },
                        _ => Option::None,
                    }
                },
            }
        } else {
            Option::None
        },
    }
}

/// The token stream that a definition in structured form stands for.
pub open spec fn def_tokens(d: DefView) -> Seq<TreeV> {
    d.qual + seq![
        TreeV::Ident { name: "fn"@, span: d.fn_span },
        TreeV::Ident { name: d.name, span: d.name_span },
    ] + d.mid + seq![
        TreeV::Group { delim: Delim::Paren, span: d.params_span, children: d.params },
    ] + d.tail + (match d.body {
        Option::Some(b) => seq![
            TreeV::Group { delim: Delim::Brace, span: d.end_span, children: b },
        ],
        Option::None => seq![TreeV::Punct { ch: ';', joint: false, span: d.end_span }],
    })
}

/// Whether the qualifier tokens carry the suspension qualifier.
pub open spec fn quals_async(q: Seq<TreeV>) -> bool {
    exists|k: int| 0 <= k < q.len() && is_async_kw(q[k])
}

/// A found `fn` keyword stands in range and its index is the least one.
proof fn lemma_first_fn_idx_props(s: Seq<TreeV>, k: int)
    ensures
        match first_fn_idx(s, k) {
            Option::Some(i) => k <= i < s.len() && is_fn_kw(s[i]) && (forall|m: int|
                k <= m < i ==> !is_fn_kw(#[trigger] s[m])),
            Option::None => true,
        },
    decreases s.len() - k,
{
    if 0 <= k < s.len() && !is_fn_kw(s[k]) {
        lemma_first_fn_idx_props(s, k + 1);
    }
}

/// A found parameter group stands in range, before the last token, and its
/// index is the least one.
proof fn lemma_first_paren_idx_props(s: Seq<TreeV>, k: int)
    ensures
        match first_paren_idx(s, k) {
            Option::Some(j) => k <= j && j + 1 < s.len() && is_paren_group(s[j]) && (forall|
                m: int,
            |
                k <= m < j ==> !is_paren_group(#[trigger] s[m])),
            Option::None => true,
        },
    decreases s.len() - k,
{
    if 0 <= k && k + 1 < s.len() && !is_paren_group(s[k]) {
        lemma_first_paren_idx_props(s, k + 1);
    }
}

/// The scan for the `fn` keyword finds exactly the first index holding it.
proof fn lemma_first_fn_idx_found(s: Seq<TreeV>, k: int, i: int)
    requires
        0 <= k <= i < s.len(),
        is_fn_kw(s[i]),
        forall|m: int| k <= m < i ==> !is_fn_kw(#[trigger] s[m]),
    ensures
        first_fn_idx(s, k) == Option::Some(i),
    decreases i - k,
{
    if k < i {
        lemma_first_fn_idx_found(s, k + 1, i);
    }
}

/// The scan for the parameter group finds exactly the first index holding
/// one before the last token.
proof fn lemma_first_paren_idx_found(s: Seq<TreeV>, k: int, j: int)
    requires
        0 <= k <= j,
        j + 1 < s.len(),
        is_paren_group(s[j]),
        forall|m: int| k <= m < j ==> !is_paren_group(#[trigger] s[m]),
    ensures
        first_paren_idx(s, k) == Option::Some(j),
    decreases j - k,
{
    if k < j {
        lemma_first_paren_idx_found(s, k + 1, j);
    }
}

/// Whether a definition in structured form writes back to a stream that
/// reads as itself: nothing among its qualifier tokens passes for the `fn`
/// keyword, and nothing among its generics passes for the parameter group.
pub open spec fn def_wf(d: DefView) -> bool {
    &&& forall|m: int| 0 <= m < d.qual.len() ==> !is_fn_kw(#[trigger] d.qual[m])
    &&& forall|m: int| 0 <= m < d.mid.len() ==> !is_paren_group(#[trigger] d.mid[m])
}

/// Every definition read out of a stream is well formed.
pub proof fn lemma_parse_wf(s: Seq<TreeV>, d: DefView)
    requires
        spec_parse_def(s) == Option::<DefView>::Some(d),
    ensures
        def_wf(d),
{
    lemma_first_fn_idx_props(s, 0);
    let i = first_fn_idx(s, 0)->0;
    lemma_first_paren_idx_props(s, i + 2);
}

/// A well-formed definition reads back from its own token stream: the
/// structured form and the stream form carry the same information.
pub proof fn lemma_serialize_reparse(d: DefView)
    requires
        def_wf(d),
    ensures
        spec_parse_def(def_tokens(d)) == Option::Some(d),
{
    let s = def_tokens(d);
    let i = d.qual.len() as int;
    let j = i + 2 + d.mid.len();
    assert(s[i] == (TreeV::Ident { name: "fn"@, span: d.fn_span }));
    assert(s[i + 1] == (TreeV::Ident { name: d.name, span: d.name_span }));
    assert(s[j] == (TreeV::Group { delim: Delim::Paren, span: d.params_span, children: d.params }));
    assert forall|m: int| 0 <= m < i implies !is_fn_kw(#[trigger] s[m]) by {
        assert(s[m] == d.qual[m]);
    }
    assert forall|m: int| i + 2 <= m < j implies !is_paren_group(#[trigger] s[m]) by {
        assert(s[m] == d.mid[m - (i + 2)]);
    }
    lemma_first_fn_idx_found(s, 0, i);
    lemma_first_paren_idx_found(s, i + 2, j);
    let rd = spec_parse_def(s)->0;
    assert(s.subrange(0, i) =~= d.qual);
    assert(s.subrange(i + 2, j) =~= d.mid);
    assert(s.subrange(j + 1, s.len() - 1) =~= d.tail);
    assert(rd =~= d);
}

/// Reading a stream as a definition loses nothing: writing the structured
/// form back yields the stream it was read from.
pub proof fn lemma_parse_round_trip(s: Seq<TreeV>, d: DefView)
    requires
        spec_parse_def(s) == Option::<DefView>::Some(d),
    ensures
        def_tokens(d) == s,
{
    lemma_first_fn_idx_props(s, 0);
    let i = first_fn_idx(s, 0)->0;
    lemma_first_paren_idx_props(s, i + 2);
    let j = first_paren_idx(s, i + 2)->0;
    assert(s[i] == (TreeV::Ident { name: "fn"@, span: d.fn_span }));
    assert(s[i + 1] == (TreeV::Ident { name: d.name, span: d.name_span }));
    assert(s[j] == (TreeV::Group { delim: Delim::Paren, span: d.params_span, children: d.params }));
    assert(def_tokens(d) =~= s);
}

/// The index and span of the first `fn` keyword of a stream, if any.
fn find_fn_idx(stream: &Vec<Node>) -> (r: Option<(usize, u64)>)
    ensures
        match r {
            Option::Some(p) => {
                &&& first_fn_idx(trees_of(stream@), 0) == Option::Some(p.0 as int)
                &&& p.0 < stream.len()
                &&& trees_of(stream@)[p.0 as int] == (TreeV::Ident { name: "fn"@, span: p.1 })
            },
            Option::None => first_fn_idx(trees_of(stream@), 0) is None,
        },
{
    proof {
        lemma_trees_of_index(stream@);
    }
    let ghost s = trees_of(stream@);
    let n = stream.len();
    let mut i: usize = 0;
    while i < n
        invariant
            i <= n,
            n == stream.len(),
            s == trees_of(stream@),
            s.len() == n,
            forall|m: int| 0 <= m < s.len() ==> s[m] == stream@[m].to_tree(),
            first_fn_idx(s, 0) == first_fn_idx(s, i as int),
        decreases n - i,
    {
        match &stream[i] {
            Node::Ident { name, span } => {
                if str_eq(name.as_str(), "fn") {
                    return Option::Some((i, *span));
                }
            },
            _ => {},
        }
        proof {
            assert(!is_fn_kw(s[i as int]));
        }
        i = i + 1;
    }
    Option::None
}

/// The index of the first parenthesis group of a stream at or after `start`
/// and before the last token, with its span and a copy of its children.
fn find_paren_idx(stream: &Vec<Node>, start: usize) -> (r: Option<(usize, u64, Vec<Node>)>)
    ensures
        match r {
            Option::Some(p) => {
                &&& first_paren_idx(trees_of(stream@), start as int) == Option::Some(p.0 as int)
                &&& start <= p.0 && p.0 + 1 < stream.len()
                &&& trees_of(stream@)[p.0 as int] == (TreeV::Group {
                    delim: Delim::Paren,
                    span: p.1,
                    children: trees_of(p.2@),
                })
            },
            Option::None => first_paren_idx(trees_of(stream@), start as int) is None,
        },
{
    proof {
        lemma_trees_of_index(stream@);
    }
    let ghost s = trees_of(stream@);
    let n = stream.len();
    if n == 0 {
        return Option::None;
    }
    let mut i: usize = start;
    while i < n - 1
        invariant
            start <= i,
            1 <= n,
            n == stream.len(),
            s == trees_of(stream@),
            s.len() == n,
            forall|m: int| 0 <= m < s.len() ==> s[m] == stream@[m].to_tree(),
            first_paren_idx(s, start as int) == first_paren_idx(s, i as int),
        decreases n - i,
    {
        match &stream[i] {
            Node::Group { delim: Delim::Paren, span, children } => {
                let cs = copy_nodes(children);
                return Option::Some((i, *span, cs));
            },
            _ => {},
        }
        proof {
            assert(!is_paren_group(s[i as int]));
        }
        i = i + 1;
    }
    Option::None
}

/// Read a token stream as a definition.
///
/// Succeeds exactly on streams of the definition shape; any other stream is
/// an unsupported item and is refused whole, with no partial result.
pub fn parse_definition(stream: &Vec<Node>) -> (r: Result<Definition, ExpandError>)
    ensures
        r matches Ok(d) ==> spec_parse_def(trees_of(stream@)) == Option::Some(d@),
        r matches Err(e) ==> spec_parse_def(trees_of(stream@)) is None && e
            == ExpandError::UnsupportedItem,
{
    proof {
        lemma_trees_of_index(stream@);
    }
    let ghost s = trees_of(stream@);
    let n = stream.len();
    let (i, fn_span) = match find_fn_idx(stream) {
        Option::Some(p) => p,
        Option::None => {
            return Result::Err(ExpandError::UnsupportedItem);
        },
    };
    if i + 1 >= n {
        return Result::Err(ExpandError::UnsupportedItem);
    }
    let (name, name_span) = match &stream[i + 1] {
        Node::Ident { name, span } => (name.clone(), *span),
        _ => {
            return Result::Err(ExpandError::UnsupportedItem);
        },
    };
    let (j, params_span, params) = match find_paren_idx(stream, i + 2) {
        Option::Some(p) => p,
        Option::None => {
            return Result::Err(ExpandError::UnsupportedItem);
        },
    };
    let (body, end_span) = match &stream[n - 1] {
        Node::Group { delim: Delim::Brace, span, children } => (
            Option::Some(copy_nodes(children)),
            *span,
        ),
        Node::Punct { ch, joint, span } => {
            if *ch == ';' && !*joint {
                (Option::None, *span)
            } else {
                return Result::Err(ExpandError::UnsupportedItem);
            }
        },
        _ => {
            return Result::Err(ExpandError::UnsupportedItem);
        },
    };
    let qual = copy_range(stream, 0, i);
    let mid = copy_range(stream, i + 2, j);
    let tail = copy_range(stream, j + 1, n - 1);
    let d = Definition {
        qual,
        fn_span,
        name,
        name_span,
        mid,
        params,
        params_span,
        tail,
        body,
        end_span,
    };
    proof {
        lemma_trees_of_subrange(stream@, 0, i as int);
        lemma_trees_of_subrange(stream@, i + 2, j as int);
        lemma_trees_of_subrange(stream@, j + 1, n - 1);
        assert(spec_parse_def(s) matches Option::Some(sd) && sd =~= d@);
    }
    Result::Ok(d)
}

/// Write a definition in structured form back to a token stream.
pub fn definition_tokens(d: &Definition) -> (r: Vec<Node>)
    ensures
        trees_of(r@) == def_tokens(d@),
{
    let mut out = copy_nodes(&d.qual);
    let ghost s0 = out@;
    let fn_ident = Node::Ident { name: String::from_str("fn"), span: d.fn_span };
    let ghost g_fn = fn_ident;
    out.push(fn_ident);
    let ghost s1 = out@;
    let name_ident = Node::Ident { name: d.name.clone(), span: d.name_span };
    let ghost g_name = name_ident;
    out.push(name_ident);
    let mut mid = copy_nodes(&d.mid);
    let ghost s2 = out@;
    let ghost m2 = mid@;
    out.append(&mut mid);
    let params = copy_nodes(&d.params);
    let param_group = Node::Group { delim: Delim::Paren, span: d.params_span, children: params };
    let ghost g_params = param_group;
    let ghost s3 = out@;
    out.push(param_group);
    let mut tail = copy_nodes(&d.tail);
    let ghost s4 = out@;
    let ghost t4 = tail@;
    out.append(&mut tail);
    let ghost s5 = out@;
    let end = match &d.body {
        Option::Some(b) => Node::Group {
            delim: Delim::Brace,
            span: d.end_span,
            children: copy_nodes(b),
        },
        Option::None => Node::Punct { ch: ';', joint: false, span: d.end_span },
    };
    let ghost g_end = end;
    out.push(end);
    proof {
        lemma_trees_of_push(s0, g_fn);
        lemma_trees_of_push(s1, g_name);
        lemma_trees_of_concat(s2, m2);
        lemma_trees_of_push(s3, g_params);
        lemma_trees_of_concat(s4, t4);
        lemma_trees_of_push(s5, g_end);
        assert(trees_of(out@) =~= def_tokens(d@));
    }
    out
}

} // verus!
