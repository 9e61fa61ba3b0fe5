//! Command resolution: parse the addressing convention out of the token
//! sequence, look the label up in the store, chase alias indirection up to a
//! fixed depth, and compose the addressed reply.

use vstd::prelude::*;
use vstd::string::StrSliceExecFns;
use vstd::string::StringExecFns;

use crate::model::FactoidView;
use crate::model::Factoid;
use crate::model::Intent;
use crate::model::Response;
use crate::model::ResponseView;
use crate::model::spec_to_response;
use crate::model::to_response;
use crate::store::Store;
use crate::text::str_eq;

verus! {

/// The notice text for a label with no usable factoid.
pub open spec fn unknown_factoid_text(word: Seq<char>) -> Seq<char> {
    "unknown factoid '"@ + word + "'"@
}

/// The notice text for an alias whose target label is not stored.
pub open spec fn unknown_alias_text(target: Seq<char>) -> Seq<char> {
    "unknown factoid alias '"@ + target + "'"@
}

/// The notice text for an alias chain that exceeds the hop budget.
pub open spec fn too_deep_text() -> Seq<char> {
    "alias depth too deep"@
}

/// Reply text readdressed to a named third party.
pub open spec fn addressed_text(name: Seq<char>, text: Seq<char>) -> Seq<char> {
    name + ": "@ + text
}

fn notice_unknown(word: &str) -> (r: Response)
    ensures
        r@ == ResponseView::Notice(unknown_factoid_text(word@)),
{
    let mut s = "unknown factoid '".to_owned();
    s.append(word);
    s.append("'");
    Response::Notice(s)
}

fn notice_unknown_alias(target: &str) -> (r: Response)
    ensures
        r@ == ResponseView::Notice(unknown_alias_text(target@)),
{
    let mut s = "unknown factoid alias '".to_owned();
    s.append(target);
    s.append("'");
    Response::Notice(s)
}

fn addressed_string(name: &str, text: &str) -> (r: String)
    ensures
        r@ == addressed_text(name@, text@),
{
    let mut s = name.to_owned();
    s.append(": ");
    s.append(text);
    s
}

/// The full token sequence of an invocation: the command word followed by
/// the argument tokens.
pub open spec fn spec_tokens(cmd: Seq<char>, args: Seq<Seq<char>>) -> Seq<Seq<char>> {
    seq![cmd] + args
}

/// The addressee of an invocation: the last token, when the sequence has
/// more than two tokens and the second-to-last is exactly `@`.
pub open spec fn spec_addressee(toks: Seq<Seq<char>>) -> Option<Seq<char>> {
    if toks.len() > 2 && toks[toks.len() - 2] == "@"@ {
        Some(toks.last())
    } else {
        None
    }
}

/// Tokens joined by single spaces.
pub open spec fn spec_join(toks: Seq<Seq<char>>) -> Seq<char>
    decreases toks.len(),
{
    if toks.len() == 0 {
        Seq::empty()
    } else if toks.len() == 1 {
        toks[0]
    } else {
        spec_join(toks.drop_last()) + " "@ + toks.last()
    }
}

/// The label an invocation looks up: the join of all tokens, or of all but
/// the trailing `@ name` pair when an addressee is present.
pub open spec fn spec_label(toks: Seq<Seq<char>>) -> Seq<char> {
    if spec_addressee(toks) is Some {
        spec_join(toks.take(toks.len() - 2))
    } else {
        spec_join(toks)
    }
}

/// What chasing alias indirection from `f` with `hops_left` replacements
/// still allowed yields: the generic response of the first non-alias factoid
/// reached, a notice for an alias whose target is not stored, or the
/// depth notice once the budget is spent.
pub open spec fn spec_follow_alias(
    m: Map<Seq<char>, FactoidView>,
    f: FactoidView,
    hops_left: nat,
) -> ResponseView
    decreases hops_left,
{
    if f.intent != Intent::Alias {
        spec_to_response(f.intent, f.description)
    } else if hops_left == 0 {
        ResponseView::Notice(too_deep_text())
    } else if m.contains_key(f.description) {
        spec_follow_alias(m, m[f.description], (hops_left - 1) as nat)
    } else {
        ResponseView::Notice(unknown_alias_text(f.description))
    }
}

/// The reply before addressing: a stored tombstone or an absent label with
/// no arguments report the unknown command word, an absent label with
/// arguments is silently ignored, an alias is chased, and any other intent
/// converts generically.
pub open spec fn spec_base_response(
    m: Map<Seq<char>, FactoidView>,
    cmd: Seq<char>,
    args: Seq<Seq<char>>,
) -> ResponseView {
    let label = spec_label(spec_tokens(cmd, args));
    if m.contains_key(label) {
        let f = m[label];
        if f.intent == Intent::Forget {
            ResponseView::Notice(unknown_factoid_text(cmd))
        } else if f.intent == Intent::Alias {
            spec_follow_alias(m, f, 3)
        } else {
            spec_to_response(f.intent, f.description)
        }
    } else if args.len() == 0 {
        ResponseView::Notice(unknown_factoid_text(cmd))
    } else {
        ResponseView::Silent
    }
}

/// Readdressing: a silent reply stays silent; every other kind keeps its
/// kind and has the addressee name prepended to its payload.
pub open spec fn spec_address(name: Option<Seq<char>>, r: ResponseView) -> ResponseView {
    match name {
        None => r,
        Some(n) => match r {
            ResponseView::Silent => ResponseView::Silent,
            ResponseView::Say(t) => ResponseView::Say(addressed_text(n, t)),
            ResponseView::Act(t) => ResponseView::Act(addressed_text(n, t)),
            ResponseView::Notice(t) => ResponseView::Notice(addressed_text(n, t)),
        },
    }
}

/// What resolving an invocation against a store yields.
pub open spec fn spec_resolve(
    cmd: Seq<char>,
    args: Seq<Seq<char>>,
    m: Map<Seq<char>, FactoidView>,
) -> ResponseView {
    spec_address(spec_addressee(spec_tokens(cmd, args)), spec_base_response(m, cmd, args))
}

/// Chases alias indirection from `factoid`, allowing at most three
/// replacements, exactly as [`spec_follow_alias`] describes. Bounding by a
/// fixed hop count rather than cycle detection guarantees termination on any
/// alias graph, including self-loops.
pub fn process_alias<'a>(factoid: &'a Factoid, store: &'a Store) -> (r: Response)
    requires
        store.wf(),
    ensures
        r@ == spec_follow_alias(store.factoid_map(), factoid@, 3),
{
    let mut current: &Factoid = factoid;
    let mut hops: usize = 0;
    loop
        invariant
            store.wf(),
            hops <= 3,
            spec_follow_alias(store.factoid_map(), factoid@, 3) == spec_follow_alias(
                store.factoid_map(),
                current@,
                (3 - hops) as nat,
            ),
        decreases 3 - hops,
    {
        if current.intent != Intent::Alias {
            return to_response(current.intent, current.description.as_str());
        }
        if hops == 3 {
            return Response::Notice("alias depth too deep".to_owned());
        }
        match store.get_factoid(current.description.as_str()) {
            Some(next) => {
                current = next;
                hops += 1;
            },
            None => {
                return notice_unknown_alias(current.description.as_str());
            },
        }
    }
}

fn join_prefix(tokens: &Vec<&str>, upto: usize) -> (r: String)
    requires
        upto <= tokens@.len(),
    ensures
        r@ == spec_join(tokens.deep_view().take(upto as int)),
{
    let ghost d = tokens.deep_view();
    if upto == 0 {
        proof {
            assert(d.take(0) =~= Seq::<Seq<char>>::empty());
        }
        return String::new();
    }
    let mut s = tokens[0].to_owned();
    proof {
        assert(d.take(1).len() == 1);
        assert(d.take(1)[0] == d[0]);
    }
    let mut i: usize = 1;
    while i < upto
        invariant
            1 <= i <= upto <= tokens@.len(),
            d == tokens.deep_view(),
            d.len() == tokens@.len(),
            s@ == spec_join(d.take(i as int)),
        decreases upto - i,
    {
        s.append(" ");
        s.append(tokens[i]);
        proof {
            assert(d.take(i + 1).drop_last() =~= d.take(i as int));
            assert(d.take(i + 1).last() == d[i as int]);
        }
        i += 1;
    }
    s
}

/// Readdresses a reply to `name`, exactly as [`spec_address`] describes for
/// a present addressee.
pub fn address_to(name: &str, response: Response) -> (r: Response)
    ensures
        r@ == spec_address(Some(name@), response@),
{
    match response {
        Response::Silent => Response::Silent,
        Response::Say(t) => Response::Say(addressed_string(name, t.as_str())),
        Response::Act(t) => Response::Act(addressed_string(name, t.as_str())),
        Response::Notice(t) => Response::Notice(addressed_string(name, t.as_str())),
    }
}

/// Resolves a user-defined command: detects the `@ name` addressing suffix,
/// looks the joined label up in the store, chases aliases, and readdresses
/// the reply, exactly as [`spec_resolve`] describes.
pub fn user_defined(command_str: &str, arguments: &Vec<String>, store: &Store) -> (r: Response)
    requires
        store.wf(),
    ensures
        r@ == spec_resolve(command_str@, arguments.deep_view(), store.factoid_map()),
{
    let ghost args_dv = arguments.deep_view();
    let mut tokens: Vec<&str> = Vec::new();
    tokens.push(command_str);
    let mut k: usize = 0;
    while k < arguments.len()
        invariant
            k <= arguments@.len(),
            args_dv == arguments.deep_view(),
            args_dv.len() == arguments@.len(),
            tokens@.len() == 1 + k,
            tokens@[0]@ == command_str@,
            forall|j: int| 1 <= j <= k ==> tokens@[j]@ == args_dv[j - 1],
        decreases arguments@.len() - k,
    {
        tokens.push(arguments[k].as_str());
        proof {
            assert(args_dv[k as int] == arguments@[k as int]@);
        }
        k += 1;
    }
    let ghost toks = spec_tokens(command_str@, args_dv);
    proof {
        assert(tokens.deep_view() =~~= toks);
    }

    let n = tokens.len();
    let addressed = n > 2 && str_eq(tokens[n - 2], "@");
    proof {
        assert(addressed <==> spec_addressee(toks) is Some);
    }
    let label = if addressed {
        join_prefix(&tokens, n - 2)
    } else {
        join_prefix(&tokens, n)
    };
    proof {
        assert(toks.take(toks.len() as int) =~= toks);
        assert(label@ == spec_label(toks));
    }

    let base = match store.get_factoid(label.as_str()) {
        Some(f) => {
            if f.intent == Intent::Forget {
                notice_unknown(command_str)
            } else if f.intent == Intent::Alias {
                process_alias(f, store)
            } else {
                to_response(f.intent, f.description.as_str())
            }
        },
        None => {
            if arguments.len() == 0 {
                notice_unknown(command_str)
            } else {
                Response::Silent
            }
        },
    };

    if addressed {
        address_to(tokens[n - 1], base)
    } else {
        base
    }
}

/// Law: a label with no stored factoid, invoked with no arguments, reports
/// the unknown command word.
pub proof fn lemma_unknown_without_args(m: Map<Seq<char>, FactoidView>, cmd: Seq<char>)
    requires
        !m.contains_key(cmd),
    ensures
        spec_resolve(cmd, Seq::empty(), m) == ResponseView::Notice(unknown_factoid_text(cmd)),
{
    let toks = spec_tokens(cmd, Seq::empty());
    assert(toks.len() == 1);
    assert(spec_label(toks) == cmd);
}

/// Law: a label with no stored factoid, invoked with one or more arguments,
/// resolves to silence.
pub proof fn lemma_unknown_with_args_is_silent(
    m: Map<Seq<char>, FactoidView>,
    cmd: Seq<char>,
    args: Seq<Seq<char>>,
)
    requires
        args.len() >= 1,
        !m.contains_key(spec_label(spec_tokens(cmd, args))),
    ensures
        spec_resolve(cmd, args, m) == ResponseView::Silent,
{
}

/// Law: a stored tombstone reports the unknown command word whatever the
/// argument count, for any invocation that carries no addressee.
pub proof fn lemma_tombstone_reports_unknown(
    m: Map<Seq<char>, FactoidView>,
    cmd: Seq<char>,
    args: Seq<Seq<char>>,
)
    requires
        spec_addressee(spec_tokens(cmd, args)) is None,
        m.contains_key(spec_label(spec_tokens(cmd, args))),
        m[spec_label(spec_tokens(cmd, args))].intent == Intent::Forget,
    ensures
        spec_resolve(cmd, args, m) == ResponseView::Notice(unknown_factoid_text(cmd)),
{
}

/// Law: an alias chain of three hops ending at a non-alias factoid resolves
/// to that factoid's generic response, unchanged.
pub proof fn lemma_alias_chain_three_hops(
    m: Map<Seq<char>, FactoidView>,
    a: Seq<char>,
    b: Seq<char>,
    c: Seq<char>,
    d: Seq<char>,
)
    requires
        m.contains_key(a) && m[a].intent == Intent::Alias && m[a].description == b,
        m.contains_key(b) && m[b].intent == Intent::Alias && m[b].description == c,
        m.contains_key(c) && m[c].intent == Intent::Alias && m[c].description == d,
        m.contains_key(d) && m[d].intent != Intent::Alias,
    ensures
        spec_resolve(a, Seq::empty(), m) == spec_to_response(m[d].intent, m[d].description),
{
    let toks = spec_tokens(a, Seq::empty());
    assert(toks.len() == 1);
    assert(spec_label(toks) == a);
    assert(spec_follow_alias(m, m[a], 3) == spec_follow_alias(m, m[b], 2));
    assert(spec_follow_alias(m, m[b], 2) == spec_follow_alias(m, m[c], 1));
    assert(spec_follow_alias(m, m[c], 1) == spec_follow_alias(m, m[d], 0));
}

/// Law: an alias chain of four hops exhausts the budget and resolves to the
/// depth notice.
pub proof fn lemma_alias_chain_too_deep(
    m: Map<Seq<char>, FactoidView>,
    a: Seq<char>,
    b: Seq<char>,
    c: Seq<char>,
    d: Seq<char>,
    e: Seq<char>,
)
    requires
        m.contains_key(a) && m[a].intent == Intent::Alias && m[a].description == b,
        m.contains_key(b) && m[b].intent == Intent::Alias && m[b].description == c,
        m.contains_key(c) && m[c].intent == Intent::Alias && m[c].description == d,
        m.contains_key(d) && m[d].intent == Intent::Alias && m[d].description == e,
        m.contains_key(e) && m[e].intent != Intent::Alias,
    ensures
        spec_resolve(a, Seq::empty(), m) == ResponseView::Notice(too_deep_text()),
{
    let toks = spec_tokens(a, Seq::empty());
    assert(toks.len() == 1);
    assert(spec_label(toks) == a);
    assert(spec_follow_alias(m, m[a], 3) == spec_follow_alias(m, m[b], 2));
    assert(spec_follow_alias(m, m[b], 2) == spec_follow_alias(m, m[c], 1));
    assert(spec_follow_alias(m, m[c], 1) == spec_follow_alias(m, m[d], 0));
}

/// Law: a self-referential alias terminates with the depth notice.
pub proof fn lemma_alias_self_loop_terminates(m: Map<Seq<char>, FactoidView>, a: Seq<char>)
    requires
        m.contains_key(a) && m[a].intent == Intent::Alias && m[a].description == a,
    ensures
        spec_resolve(a, Seq::empty(), m) == ResponseView::Notice(too_deep_text()),
{
    let toks = spec_tokens(a, Seq::empty());
    assert(toks.len() == 1);
    assert(spec_label(toks) == a);
    assert(spec_follow_alias(m, m[a], 3) == spec_follow_alias(m, m[a], 2));
    assert(spec_follow_alias(m, m[a], 2) == spec_follow_alias(m, m[a], 1));
    assert(spec_follow_alias(m, m[a], 1) == spec_follow_alias(m, m[a], 0));
}

/// Law: an alias whose target label is not stored reports the unknown
/// alias target.
pub proof fn lemma_alias_unknown_target(
    m: Map<Seq<char>, FactoidView>,
    a: Seq<char>,
    x: Seq<char>,
)
    requires
        m.contains_key(a) && m[a].intent == Intent::Alias && m[a].description == x,
        !m.contains_key(x),
    ensures
        spec_resolve(a, Seq::empty(), m) == ResponseView::Notice(unknown_alias_text(x)),
{
    let toks = spec_tokens(a, Seq::empty());
    assert(toks.len() == 1);
    assert(spec_label(toks) == a);
}

/// Law: addressing never revives a silent reply, whatever the addressee.
pub proof fn lemma_address_silent(name: Option<Seq<char>>)
    ensures
        spec_address(name, ResponseView::Silent) == ResponseView::Silent,
{
}

} // verus!
