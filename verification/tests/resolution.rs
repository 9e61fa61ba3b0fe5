//! Resolution behavior: lookup, addressing, alias chasing, tombstones.

use rustbot::model::Factoid;
use rustbot::model::Intent;
use rustbot::model::Response;
use rustbot::resolve::user_defined;
use rustbot::store::Store;

fn stored(label: &str, intent: Intent, description: &str) -> Factoid {
    Factoid { label: label.to_string(), intent, description: description.to_string() }
}

fn store_with(factoids: Vec<Factoid>) -> Store {
    let mut store = Store::new();
    for f in factoids {
        store.create_or_replace(f);
    }
    store
}

#[test]
fn unknown_label_no_args_reports_unknown() {
    let store = Store::new();
    let r = user_defined("foo", &vec![], &store);
    assert_eq!(r, Response::Notice("unknown factoid 'foo'".to_string()));
}

#[test]
fn unknown_label_with_args_is_silent() {
    let store = Store::new();
    let r = user_defined("foo", &vec!["bar".to_string()], &store);
    assert_eq!(r, Response::Silent);
}

#[test]
fn known_say_factoid_replies() {
    let store = store_with(vec![stored("hello", Intent::Say, "hi")]);
    let r = user_defined("hello", &vec![], &store);
    assert_eq!(r, Response::Say("hi".to_string()));
}

#[test]
fn known_act_and_notice_keep_their_kind() {
    let store = store_with(vec![
        stored("wave", Intent::Act, "waves"),
        stored("psst", Intent::Notice, "a notice"),
    ]);
    assert_eq!(user_defined("wave", &vec![], &store), Response::Act("waves".to_string()));
    assert_eq!(user_defined("psst", &vec![], &store), Response::Notice("a notice".to_string()));
}

#[test]
fn multiword_label_is_joined_with_single_spaces() {
    let store = store_with(vec![stored("foo bar", Intent::Say, "joined")]);
    let r = user_defined("foo", &vec!["bar".to_string()], &store);
    assert_eq!(r, Response::Say("joined".to_string()));
}

#[test]
fn lookup_is_case_sensitive() {
    let store = store_with(vec![stored("Hello", Intent::Say, "hi")]);
    let r = user_defined("hello", &vec![], &store);
    assert_eq!(r, Response::Notice("unknown factoid 'hello'".to_string()));
}

#[test]
fn tombstone_reports_unknown_without_args() {
    let store = store_with(vec![stored("gone", Intent::Forget, "")]);
    let r = user_defined("gone", &vec![], &store);
    assert_eq!(r, Response::Notice("unknown factoid 'gone'".to_string()));
}

#[test]
fn tombstone_reports_unknown_with_args() {
    let store = store_with(vec![stored("gone now", Intent::Forget, "")]);
    let r = user_defined("gone", &vec!["now".to_string()], &store);
    assert_eq!(r, Response::Notice("unknown factoid 'gone'".to_string()));
}

#[test]
fn alias_chain_of_three_hops_resolves() {
    let store = store_with(vec![
        stored("a", Intent::Alias, "b"),
        stored("b", Intent::Alias, "c"),
        stored("c", Intent::Alias, "d"),
        stored("d", Intent::Say, "deep answer"),
    ]);
    let r = user_defined("a", &vec![], &store);
    assert_eq!(r, Response::Say("deep answer".to_string()));
}

#[test]
fn alias_chain_of_four_hops_is_too_deep() {
    let store = store_with(vec![
        stored("a", Intent::Alias, "b"),
        stored("b", Intent::Alias, "c"),
        stored("c", Intent::Alias, "d"),
        stored("d", Intent::Alias, "e"),
        stored("e", Intent::Say, "unreached"),
    ]);
    let r = user_defined("a", &vec![], &store);
    assert_eq!(r, Response::Notice("alias depth too deep".to_string()));
}

#[test]
fn self_referential_alias_terminates_too_deep() {
    let store = store_with(vec![stored("a", Intent::Alias, "a")]);
    let r = user_defined("a", &vec![], &store);
    assert_eq!(r, Response::Notice("alias depth too deep".to_string()));
}

#[test]
fn alias_to_missing_label_reports_unknown_alias() {
    let store = store_with(vec![stored("a", Intent::Alias, "X")]);
    let r = user_defined("a", &vec![], &store);
    assert_eq!(r, Response::Notice("unknown factoid alias 'X'".to_string()));
}

#[test]
fn tombstone_reached_through_alias_is_silent() {
    // A terminal Forget inside an alias chain converts generically, unlike
    // the top-level lookup: the reply is silence, not an unknown notice.
    let store = store_with(vec![
        stored("a", Intent::Alias, "t"),
        stored("t", Intent::Forget, ""),
    ]);
    let r = user_defined("a", &vec![], &store);
    assert_eq!(r, Response::Silent);
}

#[test]
fn addressed_reply_prepends_name() {
    let store = store_with(vec![stored("hello", Intent::Say, "hi")]);
    let r = user_defined("hello", &vec!["@".to_string(), "bob".to_string()], &store);
    assert_eq!(r, Response::Say("bob: hi".to_string()));
}

#[test]
fn addressed_notice_keeps_its_kind() {
    let store = store_with(vec![stored("psst", Intent::Notice, "a notice")]);
    let r = user_defined("psst", &vec!["@".to_string(), "eve".to_string()], &store);
    assert_eq!(r, Response::Notice("eve: a notice".to_string()));
}

#[test]
fn addressed_silent_reply_stays_silent() {
    let store = Store::new();
    let r = user_defined("hello", &vec!["@".to_string(), "bob".to_string()], &store);
    assert_eq!(r, Response::Silent);
}

#[test]
fn two_tokens_with_at_sign_are_not_addressing() {
    // Addressing needs more than two tokens: `@ bob` alone looks up "@".
    let store = store_with(vec![stored("@", Intent::Say, "at")]);
    let r = user_defined("@", &vec![], &store);
    assert_eq!(r, Response::Say("at".to_string()));
    let two = user_defined("hello", &vec!["@".to_string()], &store);
    assert_eq!(two, Response::Silent);
}

#[test]
fn replacing_a_factoid_overrides_the_old_response() {
    let mut store = Store::new();
    store.create_or_replace(stored("hello", Intent::Say, "old"));
    store.create_or_replace(stored("hello", Intent::Say, "new"));
    let r = user_defined("hello", &vec![], &store);
    assert_eq!(r, Response::Say("new".to_string()));
}
