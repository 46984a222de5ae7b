use acl_engine::acl::{AccessDecision, Commands, Scopes};

#[test]
fn deny_wins_over_allow() {
    let commands = Commands {
        allow: vec!["read".to_string(), "write".to_string()],
        deny: vec!["write".to_string()],
    };
    assert_eq!(commands.decide(&"write".to_string()), AccessDecision::Deny);
    assert_eq!(commands.decide(&"read".to_string()), AccessDecision::Allow);
}

#[test]
fn deny_wins_when_lists_are_identical() {
    let commands = Commands { allow: vec!["exec".to_string()], deny: vec!["exec".to_string()] };
    assert_eq!(commands.decide(&"exec".to_string()), AccessDecision::Deny);
}

#[test]
fn unmentioned_command_is_unspecified() {
    let commands = Commands { allow: vec!["read".to_string()], deny: vec!["write".to_string()] };
    assert_eq!(commands.decide(&"delete".to_string()), AccessDecision::Unspecified);
}

#[test]
fn command_identifiers_match_exactly() {
    let commands = Commands { allow: vec!["read".to_string()], deny: vec![] };
    assert_eq!(commands.decide(&"rea".to_string()), AccessDecision::Unspecified);
    assert_eq!(commands.decide(&"read2".to_string()), AccessDecision::Unspecified);
}

#[test]
fn scopes_empty_only_when_both_absent() {
    let empty = Scopes { allow: None, deny: None };
    assert!(empty.is_empty());

    let zero_length_allow = Scopes { allow: Some(vec![]), deny: None };
    assert!(!zero_length_allow.is_empty());

    let zero_length_deny = Scopes { allow: None, deny: Some(vec![]) };
    assert!(!zero_length_deny.is_empty());
}

#[test]
fn default_scopes_are_empty() {
    let scopes = Scopes::default();
    assert!(scopes.is_empty());
}
