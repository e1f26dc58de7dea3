//! The command line.
use lex_k8s::admission::{admit_str, RequestMeta, Spend};
use lex_k8s::cli::{
    admission_report, command, compile_report, flag, flags, narrow_report, pair_spend, signing_key,
    spend_flags, undeclared_budget, Command,
};
use lex_k8s::cluster::{ClusterSnapshot, EgressPolicy};
use lex_k8s::cost::{CostError, PriceList, SpendReport};
use lex_k8s::manifest::{narrow, Budget, LexManifest, Manifest};
use lex_k8s::pod::compile_str;
use lex_k8s::trust::Keyring;

#[test]
fn flags_read_both_spellings() {
    let args = [
        "--cert=/tls/tls.crt",
        "--key",
        "/tls/tls.key",
        "--trusted-image-prefix=registry.internal/",
        "--trusted-image-prefix",
        "ghcr.io/alpibrusl/",
    ];
    assert_eq!(flags(&args, "--cert"), vec!["/tls/tls.crt"]);
    assert_eq!(flags(&args, "--key"), vec!["/tls/tls.key"]);
    assert_eq!(
        flags(&args, "--trusted-image-prefix"),
        vec!["registry.internal/", "ghcr.io/alpibrusl/"]
    );
    assert!(flags(&args, "--audit-dir").is_empty());
}

#[test]
fn a_prefix_of_a_flag_is_not_that_flag() {
    let args = ["--audit-dir=/audit"];
    assert!(flags(&args, "--audit").is_empty());
    assert_eq!(flags(&args, "--audit-dir"), vec!["/audit"]);
}

#[test]
fn a_trailing_flag_has_no_value() {
    assert!(flags(&["--cert"], "--cert").is_empty());
}

#[test]
fn the_first_value_of_a_flag_wins() {
    assert_eq!(flag(&["--a", "1", "--a=2"], "--a"), Some("1"));
    assert_eq!(flag(&["--a="], "--a"), Some(""));
    assert_eq!(flag(&["--b", "1"], "--a"), None);
}

#[test]
fn a_flag_is_not_read_as_a_value() {
    let args = ["--cert", "--key", "k.pem"];
    assert!(flags(&args, "--cert").is_empty());
    assert_eq!(flags(&args, "--key"), vec!["k.pem"]);
    assert_eq!(flags(&["--a", "--a", "--a", "x"], "--a"), vec!["x"]);
    assert_eq!(flags(&["--a=--b", "--a", "-"], "--a"), vec!["--b", "-"]);
}

#[test]
fn commands_are_told_apart() {
    assert_eq!(command(&[]), (Command::Help, 0));
    assert_eq!(command(&["--help"]), (Command::Help, 1));
    assert_eq!(command(&["-h", "x"]), (Command::Unknown, 0));
    assert_eq!(command(&["admit", "--manifest", "m"]), (Command::Admit, 1));
    assert_eq!(command(&["compile"]), (Command::Compile, 1));
    assert_eq!(command(&["serve"]), (Command::Serve, 1));
    assert_eq!(command(&["manifest", "narrow"]), (Command::Narrow, 2));
    assert_eq!(command(&["manifest"]), (Command::Unknown, 0));
    assert_eq!(command(&["audit", "verify"]), (Command::AuditVerify, 2));
    assert_eq!(command(&["audit", "reconcile", "x"]), (Command::AuditReconcile, 2));
    assert_eq!(command(&["audit", "pubkey"]), (Command::AuditPubkey, 2));
    assert_eq!(command(&["nonsense"]), (Command::Unknown, 0));
}

#[test]
fn half_a_budget_is_an_error() {
    assert_eq!(spend_flags(None, None), Ok(None));
    assert_eq!(spend_flags(Some("p"), Some("s")), Ok(Some(("p", "s"))));
    assert!(spend_flags(Some("p"), None).unwrap_err().contains("go together"));
    assert!(spend_flags(None, Some("s")).unwrap_err().contains("go together"));
    assert!(undeclared_budget(0).contains("(0 minor units)"));
}

#[test]
fn a_signing_key_is_32_bytes() {
    let hex = "0102030405060708090a0b0c0d0e0f101112131415161718191a1b1c1d1e1f20";
    let mut want = [0u8; 32];
    for (i, b) in want.iter_mut().enumerate() {
        *b = i as u8 + 1;
    }
    assert_eq!(signing_key(None, None), Ok(None));
    assert_eq!(signing_key(Some(hex), None), Ok(Some(want)));
    assert_eq!(signing_key(None, Some(&format!("{hex}\n"))), Ok(Some(want)));
    assert_eq!(signing_key(Some("abcd"), Some(hex)).unwrap_err(), "`abcd` is not 32 hex-encoded bytes");
    assert!(signing_key(Some("zz"), None).is_err());
}

fn manifest(grant: &str, cents: u64) -> Manifest {
    let budget =
        Budget { wall_clock_secs: 1, max_commands: 1, max_money_cents: cents, max_api_calls: 1 };
    LexManifest::read(&format!(r#"{{"spec":{{"grant":{grant}}}}}"#), budget).unwrap().1
}

fn bounded() -> ClusterSnapshot {
    ClusterSnapshot {
        egress: Some(EgressPolicy { cidrs: vec!["10.0.0.0/8".into()], ..Default::default() }),
        ..Default::default()
    }
}

fn asked_by(signer: Option<&str>) -> RequestMeta {
    RequestMeta {
        uid: "u".into(),
        namespace: "n".into(),
        name: "p".into(),
        signer: signer.map(String::from),
    }
}

#[test]
fn an_admission_is_reported_with_what_was_not_checked() {
    let pod = r#"{"containers":[{"name":"a","image":"x:1"}]}"#;
    let m = manifest(r#"{"egress":["db"]}"#, 0);
    let d = admit_str(pod, &m, "m", &bounded(), &asked_by(Some("who")), None, None).unwrap();
    assert_eq!(
        admission_report("n/p", &d, 2, "abc", 2),
        [
            "ADMITTED  n/p",
            "  not checked: image provenance: the manifest names no `imagePrefixes`, so images \
             were not checked",
            "spend:     unpriced — no --prices/--spend",
            "submitter: who (trust not consulted)",
            "audit: 2 entries, head sha256:abc (sealed)",
        ]
    );
}

#[test]
fn a_refusal_is_reported_wall_by_wall() {
    let pod = r#"{"containers":[{"name":"a","image":"x:1",
        "resources":{"requests":{"cpu":"1"}}}]}"#;
    let m = manifest(r#"{"egress":["db"]}"#, 100);
    let spend = Spend {
        prices: PriceList {
            currency: "USD".into(),
            cpu_core_month_minor: 250,
            gib_month_minor: 0,
        },
        report: SpendReport { currency: "USD".into(), namespace_monthly_minor: 5 },
    };
    let nobody = Keyring::new(&[]);
    let d = admit_str(
        pod,
        &m,
        "m",
        &bounded(),
        &asked_by(None),
        Some(&nobody),
        Some(&spend),
    )
    .unwrap();
    let lines = admission_report("n/p", &d, 3, "abc", 0);
    assert_eq!(lines[0], "REFUSED   n/p — 2 wall(s) tripped");
    assert_eq!(lines[1], "  [trust] unchecked");
    assert_eq!(lines[2], "    at:     image provenance");
    assert_eq!(lines[4], "  [budget] spend");
    assert_eq!(lines[5], "    at:     resources.requests");
    assert_eq!(
        lines[7],
        "spend:     this pod reserves 2.50 / month (forecast on requests, not a meter)"
    );
    assert_eq!(lines[8], "submitter: unauthenticated (no earned standing)");
    assert_eq!(
        lines[9],
        "audit: 3 entries, head sha256:abc (UNSEALED — anyone who can reach the file can \
         rewrite it)"
    );
    assert_eq!(lines.len(), 10);
}

#[test]
fn a_compiled_pod_is_reported_row_by_row() {
    let pod = compile_str(r#"{"hostNetwork":true,"containers":[]}"#, &bounded()).unwrap();
    let lines = compile_report(&pod);
    assert_eq!(lines[0], format!("spec:   sha256:{}", pod.spec_sha256));
    assert_eq!(lines[1], format!("state:  sha256:{}", pod.snapshot_sha256));
    assert_eq!(lines[3], format!("{:<50} {:<44} CLASS", "SOURCE", "EFFECT"));
    assert_eq!(lines.len(), 9 + pod.rows.len());
    for (line, row) in lines[4..].iter().zip(&pod.rows) {
        let shown = format!("{:<50} {:<44} ", row.source.to_text(), row.effect.name());
        assert!(line.starts_with(&shown), "{line}");
    }
    assert_eq!(
        lines[lines.len() - 4..],
        ["this pod demands:", "  filesystem: None", "  network:    Full", "  exec:       None"]
    );
}

#[test]
fn a_narrowing_is_reported_with_its_identities() {
    let (parent, child) =
        (manifest(r#"{"secrets":["a"]}"#, 0), manifest(r#"{"secrets":["b"]}"#, 0));
    let good = narrow_report(&narrow(&parent, &parent), "p-id", "c-id");
    assert_eq!(good.code, 0);
    assert_eq!(good.lines[1..], ["  parent: p-id", "  child:  c-id"]);
    let outcome = narrow(&parent, &child);
    let bad = narrow_report(&outcome, "p-id", "c-id");
    assert_eq!(bad.code, 8);
    assert_eq!(bad.lines[0], "REFUSED — the child widens its parent.");
    assert_eq!(bad.lines[1], format!("  {}", outcome.unwrap_err().to_text()));
}

#[test]
fn prices_and_spend_are_taken_together() {
    let prices = r#"{"currency":"usd","cpu_core_month_minor":1,"gib_month_minor":2}"#;
    let report = r#"{"currency":"usd","namespace_monthly_minor":3}"#;
    let both = pair_spend(PriceList::from_json(prices), SpendReport::from_json(report)).unwrap();
    assert_eq!((both.prices.currency.as_str(), both.report.namespace_monthly_minor), ("USD", 3));
    let e = pair_spend(PriceList::from_json("{"), SpendReport::from_json("{")).unwrap_err();
    assert!(matches!(e, CostError::NotJson { what, .. } if what == "the price list"));
    let e = pair_spend(PriceList::from_json(prices), SpendReport::from_json("{")).unwrap_err();
    assert!(matches!(e, CostError::NotJson { what, .. } if what == "the spend report"));
}
