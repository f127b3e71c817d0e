//! The call-marker expander: resolves one call-site marker payload either to
//! a plain call (the direct form) or to a call on the suspending sibling
//! followed by a suspension point (the suspending form).

use vstd::prelude::*;

verus! {

use vstd::string::StringExecFns;

use crate::error::ExpandError;
use crate::tree::Delim;
use crate::tree::Node;
use crate::tree::TreeV;
use crate::tree::copy_range;
use crate::tree::lemma_trees_of_index;
use crate::tree::lemma_trees_of_push;
use crate::tree::lemma_trees_of_subrange;
use crate::tree::copy_nodes;
use crate::tree::trees_of;
use crate::definition::is_paren_group;

/// Whether a marker payload is a call the suspending form accepts: a stream
/// ending in a callee identifier and an argument group, where what stands
/// before the callee is empty (a plain call), ends with a dot after a
/// nonempty receiver (a method call), or ends with a path separator.
pub open spec fn marker_call_shape(s: Seq<TreeV>) -> bool {
    &&& s.len() >= 2
    &&& is_paren_group(s[s.len() - 1])
    &&& s[s.len() - 2] is Ident
    &&& marker_prefix_ok(s.subrange(0, s.len() - 2))
}

/// Whether the tokens before the callee identifier are an acceptable
/// receiver or path prefix.
pub open spec fn marker_prefix_ok(p: Seq<TreeV>) -> bool {
    ||| p.len() == 0
    ||| (p.len() >= 2 && p[p.len() - 1] matches TreeV::Punct { ch: '.', .. })
    ||| (p.len() >= 2 && (p[p.len() - 1] matches TreeV::Punct { ch: ':', .. }) && (p[p.len()
        - 2] matches TreeV::Punct { ch: ':', joint: true, .. }))
}

/// Which failure a payload of the wrong shape is reported as: a stream that
/// still ends in an argument group looks like a call on an unsupported
/// callee; anything else is not a call at all.
pub open spec fn marker_error(s: Seq<TreeV>) -> ExpandError {
    if s.len() >= 2 && is_paren_group(s[s.len() - 1]) {
        ExpandError::CalleeNotAPath
    } else {
        ExpandError::NotACall
    }
}

/// The expansion of a suspending marker payload: the callee renamed to its
/// suspending sibling, the argument group kept, and a suspension point
/// appended.
pub open spec fn suspend_tokens(s: Seq<TreeV>) -> Seq<TreeV>
    recommends
        marker_call_shape(s),
{
    let name = s[s.len() - 2]->Ident_name;
    let span = s[s.len() - 2]->Ident_span;
    s.subrange(0, s.len() - 2) + seq![
        TreeV::Ident { name: name + "_async"@, span },
        s[s.len() - 1],
        TreeV::Punct { ch: '.', joint: false, span },
        TreeV::Ident { name: "await"@, span },
    ]
}

/// Expand a direct-form marker: the payload passes through unchanged.
///
/// A direct call needs no suspension semantics, and the callee was already
/// retargeted before this expander runs, so this is the identity transform.
pub fn expand_marker_direct(stream: Vec<Node>) -> (r: Vec<Node>)
    ensures
        r@ == stream@,
{
    stream
}

/// Expand a suspending-form marker: rename the callee to its suspending
/// sibling and append a suspension point, or refuse any payload that is not
/// a call or method call.
pub fn expand_marker_suspend(stream: &Vec<Node>) -> (r: Result<Vec<Node>, ExpandError>)
    ensures
        r matches Ok(out) ==> marker_call_shape(trees_of(stream@)) && trees_of(out@)
            == suspend_tokens(trees_of(stream@)),
        r matches Err(e) ==> !marker_call_shape(trees_of(stream@)) && e == marker_error(
            trees_of(stream@),
        ),
{
    proof {
        lemma_trees_of_index(stream@);
    }
    let ghost s = trees_of(stream@);
    let n = stream.len();
    if n < 2 {
        return Result::Err(ExpandError::NotACall);
    }
    let (args_span, args) = match &stream[n - 1] {
        Node::Group { delim: Delim::Paren, span, children } => (*span, copy_nodes(children)),
        _ => {
            return Result::Err(ExpandError::NotACall);
        },
    };
    let (name, name_span) = match &stream[n - 2] {
        Node::Ident { name, span } => (name.clone(), *span),
        _ => {
            return Result::Err(ExpandError::CalleeNotAPath);
        },
    };
    let prefix_ok: bool = if n == 2 {
        true
    } else if n >= 4 {
        let dot = match &stream[n - 3] {
            Node::Punct { ch, .. } => *ch == '.',
            _ => false,
        };
        let colons = match (&stream[n - 3], &stream[n - 4]) {
            (Node::Punct { ch: c1, .. }, Node::Punct { ch: c0, joint, .. }) => *c1 == ':' && *c0
                == ':' && *joint,
            _ => false,
        };
        dot || colons
    } else {
        false
    };
    proof {
        let p = s.subrange(0, n - 2);
        assert(forall|m: int| 0 <= m < p.len() ==> p[m] == s[m]);
        assert(prefix_ok == marker_prefix_ok(p));
    }
    if !prefix_ok {
        return Result::Err(ExpandError::CalleeNotAPath);
    }
    let mut out = copy_range(stream, 0, n - 2);
    let callee = Node::Ident { name: name.concat("_async"), span: name_span };
    let ghost g_callee = callee;
    let ghost s0 = out@;
    out.push(callee);
    let arg_group = Node::Group { delim: Delim::Paren, span: args_span, children: args };
    let ghost g_args = arg_group;
    let ghost s1 = out@;
    out.push(arg_group);
    let dot = Node::Punct { ch: '.', joint: false, span: name_span };
    let ghost g_dot = dot;
    let ghost s2 = out@;
    out.push(dot);
    let await_ident = Node::Ident { name: String::from_str("await"), span: name_span };
    let ghost g_await = await_ident;
    let ghost s3 = out@;
    out.push(await_ident);
    proof {
        lemma_trees_of_subrange(stream@, 0, n - 2);
        lemma_trees_of_push(s0, g_callee);
        lemma_trees_of_push(s1, g_args);
        lemma_trees_of_push(s2, g_dot);
        lemma_trees_of_push(s3, g_await);
        assert(trees_of(out@) =~= suspend_tokens(s));
    }
    Result::Ok(out)
}

} // verus!
