//! Manifests: reading, resolving and narrowing.
use lex_k8s::grant::Level;
use lex_k8s::manifest::{
    narrow, pod_facet, Budget, IsolationFloor, LexManifest, Manifest, ManifestReadError,
};

const PAYMENTS: &str = r#"{
  "apiVersion": "lex.dev/v1alpha1",
  "kind": "LexManifest",
  "metadata": { "name": "payments", "namespace": "payments" },
  "spec": {
    "goal": "serve the payments API",
    "grant": {
      "egress": ["postgres.payments.svc", "api.stripe.com:443"],
      "secrets": ["stripe-live-key"],
      "capabilities": ["NET_BIND_SERVICE"],
      "hostPath": false,
      "privileged": false
    },
    "parent": "cluster/platform-default"
  }
}"#;

const UNBUDGETED: Budget =
    Budget { wall_clock_secs: 3600, max_commands: 100, max_money_cents: 0, max_api_calls: 1000 };

fn read(src: &str) -> Result<(LexManifest, Manifest), ManifestReadError> {
    LexManifest::read(src, UNBUDGETED)
}

#[test]
fn the_crd_resolves_to_a_lex_os_manifest() {
    let (crd, m) = read(PAYMENTS).unwrap();
    assert_eq!(crd.reference(), "payments/payments");
    assert_eq!(crd.spec.parent.as_deref(), Some("cluster/platform-default"));

    assert_eq!(m.grant.filesystem, Level::ReadOnly, "one Secret");
    assert_eq!(m.grant.network, Level::Allowlist, "two named hosts");
    assert_eq!(m.grant.execution, Level::Sandboxed);

    assert!(m.has_facet("pod"));
    assert!(!m.has_facet("plan"));
    assert_eq!(pod_facet(&m).unwrap().secrets, ["stripe-live-key"]);
    assert_eq!(m.egress, ["postgres.payments.svc", "api.stripe.com:443"]);
}

#[test]
fn a_document_without_a_spec_is_not_a_manifest() {
    for not_a_manifest in [
        r#"{}"#,
        r#"[]"#,
        r#"{"apiVersion":"lex.dev/v1alpha1","kind":"LexManifest","metadata":{}}"#,
        r#"{"kind":"ConfigMap","data":{}}"#,
    ] {
        assert_eq!(
            LexManifest::from_json(not_a_manifest),
            Err(ManifestReadError::NotAManifest),
            "{not_a_manifest}"
        );
    }
    let (_, m) = read(r#"{"spec":{"grant":{}}}"#).unwrap();
    assert_eq!(m.grant.network, Level::Nothing);
    assert!(pod_facet(&m).unwrap().secrets.is_empty());
}

#[test]
fn an_unenforceable_isolation_floor_is_refused() {
    let asking = r#"{"spec":{"grant":{},"isolationFloor":"microvm"}}"#;
    assert!(matches!(read(asking), Err(ManifestReadError::UnenforceableFloor { .. })));

    let knowing = r#"{"spec":{"grant":{},"isolationFloor":"unenforced-microvm"}}"#;
    let (_, m) = read(knowing).unwrap();
    assert_eq!(m.isolation_floor, Some(IsolationFloor::MicroVm));
}

#[test]
fn a_child_manifest_that_widens_its_parent_is_refused() {
    let (_, parent) = read(PAYMENTS).unwrap();

    let tighter = r#"{"spec":{"grant":{
        "egress":["postgres.payments.svc"], "secrets":["stripe-live-key"]}}}"#;
    let (_, child) = read(tighter).unwrap();
    assert!(narrow(&parent, &child).is_ok());

    let mints = r#"{"spec":{"grant":{
        "egress":["postgres.payments.svc","exfil.example.com:443"],
        "secrets":["stripe-live-key"]}}}"#;
    let (_, widening) = read(mints).unwrap();
    let err = narrow(&parent, &widening).unwrap_err();
    assert!(
        err.to_text().contains("exfil.example.com:443"),
        "the refusal names the entry that widened: {}",
        err.to_text()
    );
}

#[test]
fn claiming_privileged_widens_both_walls() {
    let (_, parent) = read(PAYMENTS).unwrap();
    let priv_child = r#"{"spec":{"grant":{
        "egress":["postgres.payments.svc"],"privileged":true}}}"#;
    let (_, child) = read(priv_child).unwrap();

    assert_eq!(child.grant.execution, Level::Full);
    assert!(narrow(&parent, &child).is_err());
}

#[test]
fn a_larger_budget_widens() {
    let (_, parent) = read(PAYMENTS).unwrap();
    let richer = Manifest {
        budget: Budget { max_money_cents: 1, ..UNBUDGETED },
        ..read(PAYMENTS).unwrap().1
    };
    assert!(narrow(&parent, &richer).is_err());
    assert!(narrow(&richer, &parent).is_ok());
}

#[test]
fn a_declared_budget_replaces_the_default() {
    let src = r#"{"spec":{"grant":{},"budget":{"wall_clock_secs":1,"max_commands":2,
        "max_money_cents":3,"max_api_calls":4}}}"#;
    let (_, m) = read(src).unwrap();
    assert_eq!(
        m.budget,
        Budget { wall_clock_secs: 1, max_commands: 2, max_money_cents: 3, max_api_calls: 4 }
    );
    assert_eq!(read(r#"{"spec":{}}"#).unwrap().1.budget, UNBUDGETED);
}

#[test]
fn a_misspelled_field_is_refused_not_ignored() {
    let src = r#"{"apiVersion":"lex.dev/v1alpha1","kind":"LexManifest",
                  "metadata":{"name":"t","namespace":"n"},
                  "spec":{"goal":"g","isolation_floor":"microvm"}}"#;
    let err = LexManifest::from_json(src)
        .expect_err("snake_case `isolation_floor` is not this reader's spelling");
    assert!(
        err.to_text().contains("isolation_floor"),
        "the refusal must name the field: {}",
        err.to_text()
    );
}

#[test]
fn the_camel_case_spelling_still_parses() {
    let src = r#"{"apiVersion":"lex.dev/v1alpha1","kind":"LexManifest",
                  "metadata":{"name":"t","namespace":"n"},
                  "spec":{"goal":"g","isolationFloor":"microvm"}}"#;
    let m = LexManifest::from_json(src).expect("camelCase is the wire spelling");
    assert_eq!(m.spec.isolation_floor.as_deref(), Some("microvm"));
}

#[test]
fn a_cluster_manifest_is_named_as_the_clusters() {
    let m = LexManifest::from_json(r#"{"metadata":{"name":"platform"},"spec":{}}"#).unwrap();
    assert_eq!(m.reference(), "cluster/platform");
}

#[test]
fn a_manifest_written_against_the_crd_parses() {
    let keys = ["max_api_calls", "max_commands", "max_money_cents", "wall_clock_secs"];
    let budget: String =
        keys.iter().map(|k| format!("\"{k}\": 10")).collect::<Vec<_>>().join(",");
    let src = format!(
        r#"{{"apiVersion":"lex.dev/v1alpha1","kind":"LexManifest",
             "metadata":{{"name":"t","namespace":"n"}},
             "spec":{{"goal":"g","budget":{{{budget}}}}}}}"#
    );
    let m = LexManifest::from_json(&src)
        .unwrap_or_else(|e| panic!("a CRD-shaped manifest must parse: {}", e.to_text()));
    assert_eq!(m.spec.budget.map(|b| b.max_money_cents), Some(10));
}

#[test]
fn a_budget_in_another_spelling_is_refused() {
    let src = r#"{"spec":{"goal":"g","budget":{"wallClockSecs":10,"maxCommands":10,
        "maxMoneyCents":10,"maxApiCalls":10}}}"#;
    assert!(matches!(LexManifest::from_json(src), Err(ManifestReadError::Json(_))));
}

#[test]
fn a_misspelled_grant_is_refused_too() {
    let src = r#"{"spec":{"grant":{"image_prefixes":["registry.internal/"]}}}"#;
    let err = LexManifest::from_json(src).unwrap_err().to_text();
    assert!(
        err.contains(
            "unknown field `image_prefixes`, expected one of `egress`, `secrets`, `capabilities`, \
             `hostPath`, `privileged`, `hostNamespaces`, `imagePrefixes`, `currency`"
        ),
        "{err}"
    );
    let src = r#"{"spec":{"budget":{"wall_clock_secs":1,"max_commands":1,"max_money_cents":1,
                                    "max_api_calls":1,"maxMoneyCents":5}}}"#;
    let err = LexManifest::from_json(src).unwrap_err().to_text();
    assert!(err.contains("unknown field `maxMoneyCents`"), "{err}");
}

#[test]
fn an_unknown_member_is_complained_of_where_it_stands() {
    let of = |grant: &str| {
        let src = format!(r#"{{"metadata":{{"name":"x"}},"spec":{{"grant":{grant}}}}}"#);
        LexManifest::from_json(&src).unwrap_err().to_text()
    };
    let err = of(r#"{"a": 1, "egress": 7}"#);
    assert!(err.contains("unknown field `a`"), "{err}");
    let err = of(r#"{"egress": 7, "z": 1}"#);
    assert!(err.contains("invalid type: integer `7`, expected a sequence"), "{err}");
}
