//! The dual-definition expander: from one annotated definition, produce the
//! sibling pair — the direct member, then the suspending member — emitted
//! back-to-back as a single token stream.

use vstd::prelude::*;

verus! {

use vstd::string::StringExecFns;

use crate::error::ExpandError;
use crate::definition::DefView;
use crate::definition::Definition;
use crate::definition::def_tokens;
use crate::definition::def_wf;
use crate::definition::definition_tokens;
use crate::definition::is_async_kw;
use crate::definition::is_fn_kw;
use crate::definition::lemma_parse_wf;
use crate::definition::lemma_serialize_reparse;
use crate::definition::parse_definition;
use crate::definition::quals_async;
use crate::definition::spec_parse_def;
use crate::rewrite::replace_ident;
use crate::rewrite::replace_trees;
use crate::rewrite::lemma_replace_trees_no_match;
use crate::rewrite::trees_mention;
use crate::tree::Node;
use crate::tree::TreeV;
use crate::tree::copy_nodes;
use crate::tree::lemma_trees_of_concat;
use crate::tree::lemma_trees_of_push;
use crate::tree::str_eq;
use crate::tree::trees_of;

/// The body of a definition with every occurrence of the suspending-marker
/// name renamed, where there is a body.
pub open spec fn body_retargeted(b: Option<Seq<TreeV>>, to: Seq<char>) -> Option<Seq<TreeV>> {
    match b {
        Option::Some(ts) => Option::Some(replace_trees(ts, "_await"@, to)),
        Option::None => Option::None,
    }
}

/// The direct member of the sibling pair: the input definition with its name
/// and signature unchanged, its body retargeted at the direct marker.
pub open spec fn sync_member(d: DefView) -> DefView {
    DefView { body: body_retargeted(d.body, "_await_sync"@), ..d }
}

/// The suspending member of the sibling pair: the suspension qualifier made
/// present, the name suffixed, and the body retargeted at the suspending
/// marker.
pub open spec fn async_member(d: DefView) -> DefView {
    DefView {
        qual: if quals_async(d.qual) {
            d.qual
        } else {
            d.qual.push(TreeV::Ident { name: "async"@, span: d.name_span })
        },
        name: d.name + "_async"@,
        body: body_retargeted(d.body, "_await_async"@),
        ..d
    }
}

/// The whole output of one expansion: the direct member's tokens, then the
/// suspending member's tokens.
pub open spec fn dual_tokens(d: DefView) -> Seq<TreeV> {
    def_tokens(sync_member(d)) + def_tokens(async_member(d))
}

/// The sibling pair relates to its source as the expansion promises: the
/// direct member keeps the base name and the source's qualifier, while the
/// suspending member carries the suffixed name and the suspension qualifier;
/// the signatures agree with the source everywhere else.
pub proof fn lemma_sibling_pair(d: DefView)
    ensures
        sync_member(d).name == d.name,
        quals_async(sync_member(d).qual) == quals_async(d.qual),
        async_member(d).name == d.name + "_async"@,
        quals_async(async_member(d).qual),
        sync_member(d).mid == d.mid && sync_member(d).params == d.params && sync_member(d).tail
            == d.tail,
        async_member(d).mid == d.mid && async_member(d).params == d.params && async_member(d).tail
            == d.tail,
{
    if !quals_async(d.qual) {
        let q = d.qual.push(TreeV::Ident { name: "async"@, span: d.name_span });
        assert(is_async_kw(q[q.len() - 1]));
    }
}

/// The two members of the sibling pair are independently valid definitions:
/// each one's token stream reads back as exactly that member.
pub proof fn lemma_members_are_definitions(s: Seq<TreeV>, d: DefView)
    requires
        spec_parse_def(s) == Option::<DefView>::Some(d),
    ensures
        spec_parse_def(def_tokens(sync_member(d))) == Option::Some(sync_member(d)),
        spec_parse_def(def_tokens(async_member(d))) == Option::Some(async_member(d)),
{
    lemma_parse_wf(s, d);
    let a = async_member(d);
    if !quals_async(d.qual) {
        let q = a.qual;
        assert forall|m: int| 0 <= m < q.len() implies !is_fn_kw(#[trigger] q[m]) by {
            if m < d.qual.len() {
                assert(q[m] == d.qual[m]);
            } else {
                reveal_strlit("async");
                reveal_strlit("fn");
                assert(q[m] == (TreeV::Ident { name: "async"@, span: d.name_span }));
                assert("async"@.len() == 5 && "fn"@.len() == 2);
            }
        }
    }
    assert(def_wf(sync_member(d)));
    assert(def_wf(a));
    lemma_serialize_reparse(sync_member(d));
    lemma_serialize_reparse(a);
}

/// Expanding a definition whose body never mentions the marker name leaves
/// both members' bodies identical to the input body.
pub proof fn lemma_round_trip_stable(d: DefView)
    requires
        d.body matches Option::Some(b) ==> !trees_mention(b, "_await"@),
    ensures
        sync_member(d).body == d.body,
        async_member(d).body == d.body,
{
    match d.body {
        Option::Some(b) => {
            lemma_replace_trees_no_match(b, "_await"@, "_await_sync"@);
            lemma_replace_trees_no_match(b, "_await"@, "_await_async"@);
        },
        Option::None => {},
    }
}

/// Build the direct member of the sibling pair from a definition.
pub fn make_sync_member(d: &Definition) -> (r: Definition)
    ensures
        r@ == sync_member(d@),
{
    let r = Definition {
        qual: copy_nodes(&d.qual),
        fn_span: d.fn_span,
        name: d.name.clone(),
        name_span: d.name_span,
        mid: copy_nodes(&d.mid),
        params: copy_nodes(&d.params),
        params_span: d.params_span,
        tail: copy_nodes(&d.tail),
        body: match &d.body {
            Option::Some(b) => Option::Some(replace_ident(b, "_await", "_await_sync")),
            Option::None => Option::None,
        },
        end_span: d.end_span,
    };
    proof {
        assert(r@ =~= sync_member(d@));
    }
    r
}

/// Whether the qualifier tokens already carry the suspension qualifier.
pub fn has_async_qual(q: &Vec<Node>) -> (r: bool)
    ensures
        r == quals_async(trees_of(q@)),
{
    proof {
        crate::tree::lemma_trees_of_index(q@);
    }
    let ghost s = trees_of(q@);
    let n = q.len();
    let mut i: usize = 0;
    while i < n
        invariant
            i <= n,
            n == q.len(),
            s == trees_of(q@),
            s.len() == n,
            forall|m: int| 0 <= m < s.len() ==> s[m] == q@[m].to_tree(),
            forall|m: int| 0 <= m < i ==> !is_async_kw(s[m]),
        decreases n - i,
    {
        match &q[i] {
            Node::Ident { name, .. } => {
                if str_eq(name.as_str(), "async") {
                    proof {
                        assert(is_async_kw(s[i as int]));
                    }
                    return true;
                }
            },
            _ => {},
        }
        proof {
            assert(!is_async_kw(s[i as int]));
        }
        i = i + 1;
    }
    false
}

/// Build the suspending member of the sibling pair from a definition.
pub fn make_async_member(d: &Definition) -> (r: Definition)
    ensures
        r@ == async_member(d@),
{
    let mut qual = copy_nodes(&d.qual);
    if !has_async_qual(&d.qual) {
        let async_ident = Node::Ident { name: String::from_str("async"), span: d.name_span };
        let ghost g_async = async_ident;
        let ghost q0 = qual@;
        qual.push(async_ident);
        proof {
            lemma_trees_of_push(q0, g_async);
        }
    }
    let r = Definition {
        qual,
        fn_span: d.fn_span,
        name: d.name.clone().concat("_async"),
        name_span: d.name_span,
        mid: copy_nodes(&d.mid),
        params: copy_nodes(&d.params),
        params_span: d.params_span,
        tail: copy_nodes(&d.tail),
        body: match &d.body {
            Option::Some(b) => Option::Some(replace_ident(b, "_await", "_await_async")),
            Option::None => Option::None,
        },
        end_span: d.end_span,
    };
    proof {
        assert(r@ =~= async_member(d@));
    }
    r
}

/// Expand one annotated definition into the token stream of its sibling
/// pair: the direct member first, then the suspending member.
///
/// Succeeds exactly on streams that read as a definition; any other stream
/// is refused whole, with no partial output.
pub fn expand_definition(stream: &Vec<Node>) -> (r: Result<Vec<Node>, ExpandError>)
    ensures
        r matches Ok(out) ==> (spec_parse_def(trees_of(stream@)) matches Option::Some(d)
            && trees_of(out@) == dual_tokens(d)),
        r matches Err(e) ==> spec_parse_def(trees_of(stream@)) is None && e
            == ExpandError::UnsupportedItem,
{
    let d = match parse_definition(stream) {
        Result::Ok(d) => d,
        Result::Err(e) => {
            return Result::Err(e);
        },
    };
    let sync_def = make_sync_member(&d);
    let async_def = make_async_member(&d);
    let mut out = definition_tokens(&sync_def);
    let mut rest = definition_tokens(&async_def);
    let ghost a = out@;
    let ghost b = rest@;
    out.append(&mut rest);
    proof {
        lemma_trees_of_concat(a, b);
    }
    Result::Ok(out)
}

} // verus!
