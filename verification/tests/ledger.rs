//! The ledger of decision heads.
use lex_k8s::admission::AdmissionEvent;
use lex_k8s::json::Writable;
use lex_k8s::ledger::{reconcile, Ledger, LedgerEvent};

fn witness(head: &str, name: &str) -> LedgerEvent {
    LedgerEvent::PodDecided {
        uid: format!("uid-{name}"),
        namespace: "payments".into(),
        name: name.into(),
        verdict: "refused".into(),
        decision_head: head.into(),
        decision_entries: 2,
        snapshot_sha256: "snap".into(),
        signer: Some("system:serviceaccount:payments:deployer".into()),
    }
}

fn ledger_with(heads: &[&str]) -> Ledger {
    let mut l = vec![LedgerEvent::WallStarted {
        signer: Some("01".repeat(32)),
        audit_dir: Some("/audit".into()),
    }];
    for (i, h) in heads.iter().enumerate() {
        l.push(witness(h, &format!("pod-{i}")));
    }
    l
}

fn found(heads: &[&str]) -> Vec<String> {
    heads.iter().map(|h| h.to_string()).collect()
}

#[test]
fn a_ledger_and_its_decisions_agree() {
    let l = ledger_with(&["aaa", "bbb", "ccc"]);
    let r = reconcile(&l, &found(&["aaa", "bbb", "ccc"]));
    assert!(r.is_clean());
    assert_eq!(r.matched, 3);
    assert_eq!(l.len(), 4);
}

#[test]
fn a_deleted_decision_leaves_a_gap_the_ledger_names() {
    let l = ledger_with(&["aaa", "bbb", "ccc"]);
    let r = reconcile(&l, &found(&["aaa", "ccc"]));
    assert!(!r.is_clean());
    assert_eq!(r.missing, vec!["bbb".to_string()]);
    assert!(r.unwitnessed.is_empty());
    assert_eq!(r.matched, 2);
}

#[test]
fn a_decision_the_ledger_never_witnessed_is_also_a_disagreement() {
    let l = ledger_with(&["aaa"]);
    let r = reconcile(&l, &found(&["aaa", "zzz"]));
    assert!(!r.is_clean());
    assert!(r.missing.is_empty());
    assert_eq!(r.unwitnessed, vec!["zzz".to_string()]);
}

#[test]
fn nothing_and_nothing_agree() {
    let l = ledger_with(&[]);
    let r = reconcile(&l, &found(&[]));
    assert!(r.is_clean());
    assert_eq!(r.matched, 0);
}

#[test]
fn manifest_decisions_are_witnessed() {
    let l = vec![
        LedgerEvent::WallStarted { signer: None, audit_dir: None },
        LedgerEvent::ManifestDecided {
            uid: "uid-1".into(),
            child: "payments/payments-wider".into(),
            parent: Some("cluster/platform-default".into()),
            verdict: "widens".into(),
            reason: Some("trust widening on filesystem".into()),
            signer: Some("kubernetes-admin".into()),
        },
    ];
    let r = reconcile(&l, &found(&[]));
    assert!(r.is_clean(), "a manifest entry is not a missing decision");
    assert_eq!(r.matched, 0);
}

#[test]
fn the_ledger_domain_is_separate_from_the_decision_domain() {
    assert_ne!(
        LedgerEvent::domain(),
        AdmissionEvent::domain(),
        "a shared domain would let an entry cross between the two chains"
    );
}

#[test]
fn an_entry_reads_as_one_line() {
    assert_eq!(ledger_with(&["aaa"])[0].subject(), "wall started");
    assert_eq!(ledger_with(&["aaa"])[1].subject(), "payments/pod-0 refused");
    assert_eq!(ledger_with(&["aaa"])[0].decision_head(), None);
    assert_eq!(ledger_with(&["aaa"])[1].decision_head(), Some("aaa"));
}

#[test]
fn an_entry_is_written_with_its_kind() {
    let e = LedgerEvent::WallStarted { signer: None, audit_dir: Some("/audit".into()) };
    assert_eq!(e.to_json().to_text(), r#"{"kind":"wall_started","audit_dir":"/audit"}"#);
}

#[test]
fn different_entries_are_written_differently() {
    let entries = [
        LedgerEvent::WallStarted { signer: None, audit_dir: None },
        LedgerEvent::WallStarted { signer: Some("x".into()), audit_dir: None },
        LedgerEvent::WallStarted { signer: None, audit_dir: Some("x".into()) },
        LedgerEvent::ManifestDecided {
            uid: "u".into(),
            child: "c".into(),
            parent: None,
            verdict: "admit".into(),
            reason: Some("x".into()),
            signer: None,
        },
        LedgerEvent::ManifestDecided {
            uid: "u".into(),
            child: "c".into(),
            parent: None,
            verdict: "admit".into(),
            reason: None,
            signer: Some("x".into()),
        },
    ];
    for (i, a) in entries.iter().enumerate() {
        for (j, b) in entries.iter().enumerate() {
            assert_eq!(a.to_json().to_text() == b.to_json().to_text(), i == j);
        }
    }
}
