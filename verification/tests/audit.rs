//! Whether records can be relied on.
use lex_k8s::audit::{
    checkpoint_allowed, is_decision_file, outcome, reconcile_report, start_fault, AuditOutcome,
    Commitment, Found, LedgerAudit, LedgerFault,
};
use lex_k8s::ledger::{Ledger, LedgerEvent};

fn started_with(heads: &[&str]) -> Ledger {
    let mut l = vec![LedgerEvent::WallStarted { signer: None, audit_dir: None }];
    for h in heads {
        l.push(LedgerEvent::PodDecided {
            uid: "u".into(),
            namespace: "n".into(),
            name: "p".into(),
            verdict: "admitted".into(),
            decision_head: h.to_string(),
            decision_entries: 2,
            snapshot_sha256: "s".into(),
            signer: None,
        });
    }
    l
}

#[test]
fn the_ledger_is_not_a_decision() {
    assert!(is_decision_file("1700-uid.json"));
    assert!(!is_decision_file("ledger.json"));
    assert!(!is_decision_file("notes.txt"));
    assert!(!is_decision_file(".json"));
}

#[test]
fn a_ledger_begins_where_a_ledger_begins() {
    assert_eq!(start_fault(&vec![]), Some(LedgerFault::Empty));
    let started = LedgerEvent::WallStarted { signer: None, audit_dir: None };
    assert_eq!(start_fault(&vec![started]), None);
    let headless = LedgerEvent::ManifestDecided {
        uid: "u".into(),
        child: "a/b".into(),
        parent: None,
        verdict: "narrows".into(),
        reason: None,
        signer: None,
    };
    let fault = start_fault(&vec![headless]).unwrap();
    assert_eq!(fault, LedgerFault::Start("a/b narrows".into()));
    let report = fault.report();
    assert_eq!(report.code, 8);
    assert_eq!(report.lines[1], "  first entry is `a/b narrows`, not `wall_started`.");
}

#[test]
fn every_fault_of_a_ledger_is_a_refusal() {
    for fault in [
        LedgerFault::Chain("e".into()),
        LedgerFault::Empty,
        LedgerFault::Seals("e".into()),
        LedgerFault::Unsigned,
        LedgerFault::Contradicted("e".into()),
        LedgerFault::NotADecision { path: "p".into(), why: "e".into() },
    ] {
        let r = fault.report();
        assert_eq!(r.code, 8);
        assert!(r.lines[0].starts_with("REFUSED — "), "{:?}", r.lines);
    }
}

#[test]
fn a_reconciliation_is_reported() {
    let ledger = vec![
        LedgerEvent::WallStarted { signer: None, audit_dir: None },
        LedgerEvent::PodDecided {
            uid: "u".into(),
            namespace: "n".into(),
            name: "p".into(),
            verdict: "admitted".into(),
            decision_head: "aaa".into(),
            decision_entries: 2,
            snapshot_sha256: "s".into(),
            signer: None,
        },
    ];
    let clean = reconcile_report(&ledger, "h", &vec!["aaa".to_string()]);
    assert_eq!(clean.code, 0);
    assert_eq!(clean.lines[0], "ledger: 2 entries, head sha256:h");
    assert_eq!(clean.lines[1], "matched: 1 decision(s) witnessed and present");
    let gap = reconcile_report(&ledger, "h", &vec!["zzz".to_string()]);
    assert_eq!(gap.code, 8);
    assert!(gap.lines.contains(
        &"  DELETED?    witnessed head aaa has no file behind it".to_string()
    ));
    assert!(gap.lines.contains(
        &"  UNWITNESSED file with head zzz that the ledger never recorded".to_string()
    ));
}

#[test]
fn seals_nobody_checked_are_not_seals_that_hold() {
    let r = AuditOutcome::NotChecked { entries: 2, head: "h".into(), sealed: 1 }.report();
    assert_eq!(r.code, 0);
    assert_eq!(r.lines[1], "seals:  NOT CHECKED — 1 of 2 entries carry one.");
    assert_eq!(AuditOutcome::Sealed { entries: 2, head: "h".into() }.report().code, 0);
    assert_eq!(AuditOutcome::BrokenChain("e".into()).report().code, 8);
    assert_eq!(AuditOutcome::BrokenSeals("e".into()).report().code, 8);
}

#[test]
fn faults_are_found_in_the_order_of_the_checks() {
    let mut a = LedgerAudit::of(vec![], "h");
    assert_eq!(a.fault(), Some(LedgerFault::Empty));
    a.events = started_with(&["aaa"]);
    assert_eq!(a.fault(), None);
    assert_eq!(a.report().code, 8, "a witnessed record that nobody found");

    a.found = vec![Found::Head("aaa".into())];
    assert_eq!(a.report().code, 0);
    a.commitment = Commitment::Held { len: 2 };
    let held = a.report();
    assert_eq!(held.code, 0);
    assert_eq!(
        held.lines[0],
        "checkpoint: OK — the ledger is at least the 2 entries committed to."
    );

    a.found.push(Found::Unreadable { path: "/a/x.json".into(), why: "not JSON".into() });
    a.found.push(Found::Unreadable { path: "/a/y.json".into(), why: "not JSON".into() });
    let unreadable = a.report();
    assert_eq!(unreadable.code, 8);
    assert_eq!(unreadable.lines.len(), 2);
    assert_eq!(
        unreadable.lines[1],
        "REFUSED — /a/x.json is not a decision chain: not JSON"
    );

    a.commitment = Commitment::Contradicted("shorter".into());
    assert_eq!(a.fault(), Some(LedgerFault::Contradicted("shorter".into())));
    a.commitment = Commitment::Unsigned;
    assert_eq!(a.fault(), Some(LedgerFault::Unsigned));
    a.seals = Some("unsealed".into());
    assert_eq!(a.fault(), Some(LedgerFault::Seals("unsealed".into())));
    a.events.remove(0);
    assert!(matches!(a.fault(), Some(LedgerFault::Start(_))));
    a.chain = Some("broken".into());
    assert_eq!(a.fault(), Some(LedgerFault::Chain("broken".into())));
    assert_eq!(a.report().lines[0], "REFUSED — the ledger's own chain is broken.");
}

#[test]
fn the_chain_is_judged_before_the_seals() {
    let of = |chain: Result<(), String>, keys: usize, seals: Option<Result<(), String>>| {
        outcome(chain, keys, seals, 2, "h".into(), 1)
    };
    let bad = || Err("e".to_string());
    assert_eq!(of(bad(), 1, Some(bad())), AuditOutcome::BrokenChain("e".into()));
    assert_eq!(of(bad(), 0, None), AuditOutcome::BrokenChain("e".into()));
    let not_checked = AuditOutcome::NotChecked { entries: 2, head: "h".into(), sealed: 1 };
    assert_eq!(of(Ok(()), 0, None), not_checked);
    assert_eq!(of(Ok(()), 1, None), not_checked);
    let sealed = AuditOutcome::Sealed { entries: 2, head: "h".into() };
    assert_eq!(of(Ok(()), 1, Some(Ok(()))), sealed);
    assert_eq!(of(Ok(()), 1, Some(bad())), AuditOutcome::BrokenSeals("e".into()));
}

#[test]
fn a_checkpoint_needs_a_trusted_key() {
    assert!(checkpoint_allowed(true, 0).unwrap_err().contains("needs --trusted-key"));
    assert_eq!(checkpoint_allowed(true, 1), Ok(()));
    assert_eq!(checkpoint_allowed(false, 0), Ok(()));
}
