//! What a server is started with, and the ledger that it keeps.
use lex_k8s::audit::start_fault;
use lex_k8s::cost::{PriceList, SpendReport};
use lex_k8s::ledger::{reconcile, LedgerEvent};
use lex_k8s::serve::ledger::{start, witness, LedgerError};
use lex_k8s::serve::options::{
    take_audit_key, take_keyring, take_prices, take_report, Options, ServeError,
};
use lex_k8s::trust::Keyring;

const KEY: &str = "0102030405060708090a0b0c0d0e0f101112131415161718191a1b1c1d1e1f20";

fn decided(head: &str) -> LedgerEvent {
    LedgerEvent::PodDecided {
        uid: "u".into(),
        namespace: "n".into(),
        name: "p".into(),
        verdict: "admitted".into(),
        decision_head: head.into(),
        decision_entries: 2,
        snapshot_sha256: "s".into(),
        signer: None,
    }
}

#[test]
fn options_are_read_from_the_command_line() {
    let o = Options::from_args(&[
        "--cert=/tls/tls.crt",
        "--key",
        "/tls/tls.key",
        "--trusted-image-prefix=registry.internal/",
        "--trusted-image-prefix",
        "ghcr.io/",
        "--audit-dir=/audit",
    ])
    .unwrap();
    assert_eq!(o.cert, "/tls/tls.crt");
    assert_eq!(o.key, "/tls/tls.key");
    assert_eq!(o.trusted_image_prefixes, ["registry.internal/", "ghcr.io/"]);
    assert_eq!(o.audit_dir.as_deref(), Some("/audit"));
    assert_eq!(o.address(), "0.0.0.0:8443");
    assert_eq!(o.root(), "lex-system");
    assert!(o.unsealed());
    assert_eq!(o.budget_inputs(), Ok(None));

    let sealed = Options { audit_key_file: Some("k".into()), ..o.clone() };
    assert!(!sealed.unsealed());
    let other = Options { addr: Some("[::]:1".into()), root_namespace: Some("r".into()), ..o };
    assert_eq!((other.address().as_str(), other.root().as_str()), ("[::]:1", "r"));
}

#[test]
fn a_certificate_and_its_key_are_required() {
    for args in [vec!["--cert=a"], vec!["--key=b"], vec![], vec!["--cert"]] {
        assert_eq!(Options::from_args(&args), Err("serve needs --cert and --key".to_string()));
    }
}

#[test]
fn half_a_budget_stops_the_server() {
    let o = Options::from_args(&["--cert=a", "--key=b", "--prices=p"]).unwrap();
    let Err(ServeError::Input(e)) = o.budget_inputs() else { panic!("half a budget") };
    assert!(e.starts_with("--prices and --spend go together"));
    let both = Options { spend: Some("s".into()), ..o };
    assert_eq!(both.budget_inputs(), Ok(Some(("p", "s"))));
}

#[test]
fn what_cannot_be_read_is_named() {
    let e = take_keyring("/k", Keyring::from_json("{")).unwrap_err();
    assert!(e.to_text().starts_with("keyring /k: the keyring is not readable JSON: "));
    let e = take_prices("/p", PriceList::from_json("{}")).unwrap_err();
    assert!(e.to_text().starts_with("prices /p: the price list is not JSON: "));
    let e = take_report("/s", SpendReport::from_json("{}")).unwrap_err();
    assert!(e.to_text().starts_with("spend /s: the spend report is not JSON: "));
    assert!(take_keyring("/k", Keyring::from_json("{}")).is_ok());
}

#[test]
fn an_audit_key_is_32_bytes_or_nothing_starts() {
    let k = take_audit_key("/key", &format!(" {KEY}\n")).unwrap();
    assert_eq!((k[0], k[31]), (1, 32));
    for bad in ["", "00", "zz", &KEY[2..]] {
        assert_eq!(
            take_audit_key("/key", bad).unwrap_err().to_text(),
            "/key: the audit signing key must be 32 hex-encoded bytes"
        );
    }
}

#[test]
fn server_errors_read_as_sentences() {
    let said = |e: ServeError| e.to_text();
    assert_eq!(said(ServeError::Read("/a".into(), "x".into())), "could not read /a: x");
    assert_eq!(said(ServeError::Kube("x".into())), "could not reach the API server: x");
    assert_eq!(said(ServeError::Io("x".into())), "could not serve: x");
    assert_eq!(
        LedgerError::Poisoned.to_text(),
        "the ledger lock was poisoned by a panic in another request"
    );
    assert_eq!(
        LedgerError::Write { path: "/l".into(), source: "full".into() }.to_text(),
        "could not write the ledger to /l: full"
    );
    assert_eq!(LedgerError::Serialise("x".into()).to_text(), "could not serialise the ledger: x");
}

#[test]
fn a_ledger_starts_with_its_start() {
    let mut key = [0u8; 32];
    key[0] = 0xab;
    let mut l = start(Some(key), Some("/audit".into()));
    assert_eq!(
        l,
        vec![LedgerEvent::WallStarted {
            signer: Some(format!("ab{}", "00".repeat(31))),
            audit_dir: Some("/audit".into()),
        }]
    );
    assert_eq!(witness(&mut l, decided("h1")), "n/p admitted");
    assert_eq!(l.len(), 2);
    assert_eq!(start_fault(&l), None);
    assert_eq!(
        start(None, None),
        vec![LedgerEvent::WallStarted { signer: None, audit_dir: None }]
    );
}

#[test]
fn a_decision_that_is_kept_and_witnessed_agrees() {
    let mut l = start(None, None);
    let mut found: Vec<String> = vec![];
    for head in ["h1", "h2", "h1"] {
        witness(&mut l, decided(head));
        found.push(head.to_string());
        assert!(reconcile(&l, &found).is_clean());
    }
    witness(&mut l, decided("gone"));
    let r = reconcile(&l, &found);
    assert_eq!(r.missing, ["gone"]);
    assert_eq!(r.matched, 3);
}
