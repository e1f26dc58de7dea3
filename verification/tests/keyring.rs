//! Keyrings and standing.
use lex_k8s::trust::{Keyring, Standing, Submitter};

#[test]
fn a_keyring_reads_the_shape_lex_lang_writes() {
    let k =
        Keyring::from_json(r#"{"trusted":["system:serviceaccount:payments:deployer"]}"#).unwrap();
    assert!(k.admits("system:serviceaccount:payments:deployer"));
    assert!(!k.admits("system:serviceaccount:payments:other"));
}

#[test]
fn an_empty_keyring_trusts_nobody() {
    let k = Keyring::from_json(r#"{"trusted":[]}"#).unwrap();
    assert_eq!(k.standing_of("system:serviceaccount:payments:deployer"), Standing::Unknown);
}

#[test]
fn a_keyring_without_the_field_trusts_nobody() {
    let k = Keyring::from_json("{}").unwrap();
    assert_eq!(k.standing_of("system:serviceaccount:payments:deployer"), Standing::Unknown);
}

#[test]
fn a_malformed_keyring_is_an_error_not_an_empty_one() {
    assert!(Keyring::from_json("{not json").is_err());
}

#[test]
fn not_consulted_is_not_the_same_as_unknown() {
    assert!(!Standing::NotConsulted.needs_the_verb_named());
    assert!(Standing::Unknown.needs_the_verb_named());
    assert!(!Standing::Trusted.needs_the_verb_named());
}

#[test]
fn standing_comes_from_the_keyring() {
    let k = Keyring::new(&["system:serviceaccount:payments:deployer"]);
    assert_eq!(
        Submitter::against("system:serviceaccount:payments:deployer", &k).standing,
        Standing::Trusted
    );
    assert_eq!(
        Submitter::against("system:serviceaccount:payments:other", &k).standing,
        Standing::Unknown
    );
    assert_eq!(
        Submitter::unconsulted("system:serviceaccount:payments:deployer").standing,
        Standing::NotConsulted
    );
}

#[test]
fn a_keyring_given_twice_is_an_error() {
    let e = Keyring::from_json(r#"{"trusted":["a"],"trusted":["b"]}"#).unwrap_err();
    assert_eq!(e.to_text(), "the keyring is not readable JSON: duplicate field `trusted` at line 1 column 26");
}
