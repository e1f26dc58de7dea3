//! The walls over whole reviews, manifests and snapshots: trust, budget and what is recorded.
use lex_k8s::admission::{
    admit_str, AdmissionError, AdmissionEvent, Decision, Spend, Verdict, Wall,
};
use lex_k8s::cluster::ClusterSnapshot;
use lex_k8s::cost::{PriceList, SpendReport};
use lex_k8s::effect::{Effect, Reach};
use lex_k8s::grant::{Level, Reversibility};
use lex_k8s::json::Writable;
use lex_k8s::manifest::{narrow, Budget, LexManifest, Manifest, ManifestReadError};
use lex_k8s::pod::{compile_str, EffectRow};
use lex_k8s::review::{respond, AdmissionReview};
use lex_k8s::spec::ContainerKind;
use lex_k8s::trust::{Keyring, Standing};

const UNBUDGETED: Budget =
    Budget { wall_clock_secs: 3600, max_commands: 100, max_money_cents: 0, max_api_calls: 1000 };

const MANIFEST_PLATFORM: &str = r#"{
  "apiVersion": "lex.dev/v1alpha1", "kind": "LexManifest",
  "metadata": { "name": "platform-default", "namespace": "" },
  "spec": { "goal": "the platform's ceiling", "grant": {
    "egress": ["postgres.payments.svc", "api.stripe.com:443"],
    "secrets": ["payments-db", "stripe-live-key"],
    "capabilities": ["NET_BIND_SERVICE"],
    "imagePrefixes": ["registry.internal/"] } }
}"#;

const MANIFEST_PAYMENTS: &str = r#"{
  "apiVersion": "lex.dev/v1alpha1", "kind": "LexManifest",
  "metadata": { "name": "payments", "namespace": "payments" },
  "spec": { "goal": "serve the payments API", "parent": "cluster/platform-default", "grant": {
    "egress": ["postgres.payments.svc", "api.stripe.com:443"],
    "secrets": ["payments-db"],
    "imagePrefixes": ["registry.internal/"] } }
}"#;

const MANIFEST_NO_IMAGE_POLICY: &str = r#"{
  "metadata": { "name": "payments", "namespace": "payments" },
  "spec": { "goal": "serve the payments API", "grant": {
    "egress": ["postgres.payments.svc", "api.stripe.com:443"],
    "secrets": ["payments-db"] } }
}"#;

const MANIFEST_MINTS_ITSELF_ROOT: &str = r#"{
  "metadata": { "name": "payments", "namespace": "payments" },
  "spec": { "goal": "serve the payments API", "parent": "cluster/platform-default", "grant": {
    "egress": ["postgres.payments.svc", "exfil.example.com:443"],
    "secrets": ["cluster-root-ca"], "hostPath": true, "privileged": true } }
}"#;

const SNAPSHOT_LOCKED_DOWN: &str = r#"{
  "egress": { "policy_names": ["payments-egress"], "cidrs": ["10.42.0.0/16"],
              "selectors": [], "deny_all": false },
  "trusted_image_prefixes": ["registry.internal/"]
}"#;

const SNAPSHOT_POLICY_IS_A_LIE: &str = r#"{
  "egress": { "policy_names": ["payments-egress", "legacy-allow-all"],
              "cidrs": ["10.42.0.0/16", "0.0.0.0/0"], "selectors": [], "deny_all": false },
  "trusted_image_prefixes": ["registry.internal/"]
}"#;

const SNAPSHOT_NO_POLICY: &str = r#"{ "trusted_image_prefixes": ["registry.internal/"] }"#;

const SNAPSHOT_CI_SERVICEACCOUNT: &str = r#"{
  "egress": { "policy_names": ["payments-egress"], "cidrs": ["10.42.0.0/16"],
              "selectors": [], "deny_all": false },
  "rbac": [
    { "binding": "ci-deployer", "api_group": "apps", "resource": "deployments",
      "verbs": ["create", "update"], "namespace": "payments" },
    { "binding": "ci-reader", "api_group": "", "resource": "configmaps",
      "verbs": ["get"], "namespace": "payments" }
  ],
  "trusted_image_prefixes": ["registry.internal/"]
}"#;

const BENIGN: &str = r#"{
  "apiVersion": "v1", "kind": "Pod", "metadata": { "name": "api", "namespace": "payments" },
  "spec": { "containers": [{ "name": "api",
    "image": "registry.internal/payments/api@sha256:aa",
    "securityContext": { "capabilities": { "drop": ["ALL"] } },
    "env": [{ "name": "DB", "valueFrom": {
      "secretKeyRef": { "name": "payments-db", "key": "url" } } }] }] }
}"#;

const LYING_ABOUT_EGRESS: &str = r#"{
  "apiVersion": "v1", "kind": "Pod",
  "metadata": { "generateName": "exporter-7d9f-", "namespace": "payments",
    "annotations": { "lex.dev/egress": "metrics.internal:9090" } },
  "spec": { "containers": [{ "name": "exporter",
    "image": "registry.internal/payments/exporter@sha256:cc",
    "securityContext": { "capabilities": { "drop": ["ALL"] } } }] }
}"#;

const PRIVILEGED_INIT: &str = r#"{
  "apiVersion": "v1", "kind": "Pod", "metadata": { "name": "api", "namespace": "payments" },
  "spec": {
    "initContainers": [{ "name": "sysctl-tuner", "image": "registry.internal/ops@sha256:bb",
      "securityContext": { "privileged": true } }],
    "containers": [{ "name": "api", "image": "registry.internal/payments/api@sha256:aa" }] }
}"#;

const DEBUG_CONTAINER: &str = r#"{
  "apiVersion": "v1", "kind": "Pod", "metadata": { "name": "api", "namespace": "payments" },
  "spec": {
    "containers": [{ "name": "api", "image": "registry.internal/payments/api@sha256:aa" }],
    "ephemeralContainers": [{ "name": "debug", "image": "busybox:latest",
      "securityContext": { "capabilities": { "add": ["SYS_PTRACE"] } } }] }
}"#;

const NODE_FILESYSTEM: &str = r#"{
  "apiVersion": "v1", "kind": "Pod", "metadata": { "name": "shipper", "namespace": "logging" },
  "spec": { "hostNetwork": true,
    "volumes": [
      { "name": "logs", "hostPath": { "path": "/var/log" } },
      { "name": "docker", "hostPath": { "path": "/var/lib/docker/containers" } } ],
    "containers": [{ "name": "shipper", "image": "docker.io/fluent/fluent-bit:3.0",
      "volumeMounts": [
        { "name": "logs", "mountPath": "/var/log", "readOnly": true },
        { "name": "docker", "mountPath": "/docker", "readOnly": true } ] }] }
}"#;

const FUTURE_SHAPE: &str = r#"{
  "apiVersion": "v2", "kind": "Pod", "metadata": { "name": "api", "futureMeta": 1 },
  "spec": { "someFutureField": { "a": [1, 2] },
    "containers": [{ "name": "api", "image": "registry.internal/payments/api@sha256:aa",
      "futureContainerField": true,
      "securityContext": { "capabilities": { "add": ["CAP_UNKNOWN_FUTURE"] } } }] }
}"#;

const UNVOUCHED_IMAGE: &str = r#"{
  "apiVersion": "v1", "kind": "Pod", "metadata": { "name": "cache", "namespace": "payments" },
  "spec": { "containers": [{ "name": "cache", "image": "docker.io/library/redis:latest" }] }
}"#;

const PRICED_WITH_MIGRATION: &str = r#"{
  "apiVersion": "v1", "kind": "Pod", "metadata": { "name": "api", "namespace": "payments" },
  "spec": {
    "initContainers": [{ "name": "migrate", "image": "registry.internal/payments/m@sha256:bb",
      "resources": { "requests": { "cpu": "2", "memory": "2Gi" } } }],
    "containers": [{ "name": "api", "image": "registry.internal/payments/api@sha256:aa",
      "resources": { "requests": { "cpu": "500m", "memory": "512Mi" } } }] }
}"#;

const UNPRICED: &str = r#"{
  "apiVersion": "v1", "kind": "Pod", "metadata": { "name": "api", "namespace": "payments" },
  "spec": {
    "initContainers": [{ "name": "migrate", "image": "registry.internal/payments/m@sha256:bb" }],
    "containers": [{ "name": "api", "image": "registry.internal/payments/api@sha256:aa" }] }
}"#;

const DEPLOYER: &str = "system:serviceaccount:payments:deployer";
const STRANGER: &str = "system:serviceaccount:payments:intern";

fn manifest(src: &str) -> Manifest {
    LexManifest::read(src, UNBUDGETED).expect("the manifest reads").1
}

fn snapshot(src: &str) -> ClusterSnapshot {
    ClusterSnapshot::from_json(src).expect("the snapshot parses")
}

fn keyring() -> Keyring {
    Keyring::new(&[DEPLOYER])
}

fn review(pod: &str, name: &str, username: Option<&str>) -> String {
    let user = match username {
        Some(u) => format!(r#""userInfo":{{"username":"{u}"}},"#),
        None => String::new(),
    };
    format!(
        r#"{{"apiVersion":"admission.k8s.io/v1","kind":"AdmissionReview","request":{{
            "uid":"705ab4f5-6393-11e8-b7cc-42010a800002","namespace":"payments","name":"{name}",
            "operation":"CREATE",{user}"object":{pod}}}}}"#
    )
}

fn judged(
    raw: &str,
    m: &Manifest,
    snap: &ClusterSnapshot,
    k: Option<&Keyring>,
    s: Option<&Spend>,
) -> Result<Decision, AdmissionError> {
    let r = AdmissionReview::from_json(raw).expect("a real review");
    let req = r.request().expect("with a request");
    admit_str(&req.object_json(), m, "sha256:manifest", snap, &req.meta(), k, s)
}

fn decide(pod: &str, username: Option<&str>, m: &str, k: Option<&Keyring>) -> Decision {
    judged(
        &review(pod, "api", username),
        &manifest(m),
        &snapshot(SNAPSHOT_LOCKED_DOWN),
        k,
        None,
    )
    .expect("the wall runs")
}

fn lying(snap: &str) -> Decision {
    judged(
        &review(LYING_ABOUT_EGRESS, "", Some(DEPLOYER)),
        &manifest(MANIFEST_PAYMENTS),
        &snapshot(snap),
        None,
        None,
    )
    .expect("the wall runs")
}

// ------------------------------------------------------------------------------- admission

#[test]
fn a_pod_that_lies_about_its_egress_is_refused() {
    let uid = "705ab4f5-6393-11e8-b7cc-42010a800002";
    let d = lying(SNAPSHOT_POLICY_IS_A_LIE);
    assert_eq!(d.exit_code(), 8);

    let Verdict::Deny { all, .. } = &d.verdict else {
        panic!("expected a refusal, got {:?}", d.verdict);
    };
    assert!(
        all.iter().any(|r| r.wall == Wall::TypeCheck),
        "the lattice: `full` exceeds `allowlist`"
    );
    assert!(
        all.iter().any(|r| r.wall == Wall::Narrowing),
        "the facet: 0.0.0.0/0 is not one of the named hosts"
    );
    assert_eq!(
        all[1].reason,
        "`0.0.0.0/0` is not among the 2 the manifest grants: postgres.payments.svc, \
         api.stripe.com:443"
    );

    let out = respond(uid, &d);
    let resp = out.response.expect("a response");
    assert_eq!(resp.uid, uid, "the uid must echo or the API server drops it");
    assert!(!resp.allowed);
    let status = resp.status.expect("a status");
    assert_eq!(status.code, 403);

    let causes = status.details.expect("details").causes;
    assert_eq!(causes.len(), 2);
    assert!(causes.iter().any(|c| c.reason == "type-check"));
    let narrowing = causes.iter().find(|c| c.reason == "narrowing").unwrap();
    assert!(
        narrowing.grant_allows.contains(&"api.stripe.com:443".to_string()),
        "what the manifest does grant, as data: {:?}",
        narrowing.grant_allows
    );
}

#[test]
fn the_same_pod_is_admitted_when_the_cluster_is_what_it_claims() {
    let d = lying(SNAPSHOT_LOCKED_DOWN);
    assert!(d.verdict.allowed(), "{:?}", d.verdict);
    assert_eq!(d.exit_code(), 0);

    let resp = respond("u", &d).response.expect("a response");
    assert!(resp.allowed);
    assert!(resp.status.is_none(), "an admission carries no error status");
}

#[test]
fn a_namespace_lead_cannot_mint_authority_the_platform_never_gave_them() {
    let platform = manifest(MANIFEST_PLATFORM);
    let payments = manifest(MANIFEST_PAYMENTS);
    assert!(narrow(&platform, &payments).is_ok(), "a genuine narrowing is accepted");

    let root = manifest(MANIFEST_MINTS_ITSELF_ROOT);
    let err = narrow(&platform, &root).unwrap_err();
    let said = err.to_text();
    assert!(
        said.contains("widening") || said.contains("widens"),
        "the refusal says what happened: {said}"
    );
    assert_eq!(
        said,
        "trust widening on filesystem: child requests `full` but parent only grants `read-only`"
    );
}

#[test]
fn each_widening_is_refused_individually() {
    let platform = manifest(MANIFEST_PLATFORM);
    for (label, grant) in [
        ("an egress host", r#""egress":["exfil.example.com:443"]"#),
        ("a Secret", r#""secrets":["cluster-root-ca"]"#),
        ("hostPath", r#""hostPath":true"#),
        ("privileged", r#""privileged":true"#),
        ("the node's namespaces", r#""hostNamespaces":true"#),
        ("a capability", r#""capabilities":["SYS_ADMIN"]"#),
    ] {
        let src = format!(r#"{{"spec":{{"grant":{{{grant}}}}}}}"#);
        let child = manifest(&src);
        assert!(narrow(&platform, &child).is_err(), "{label} must be refused");
    }
}

/// What is held here is the record and its order; hashes over it are the program's.
#[test]
fn the_chain_verifies_across_admissions_and_refusals() {
    for (snap, expect_allowed) in [
        (SNAPSHOT_LOCKED_DOWN, true),
        (SNAPSHOT_POLICY_IS_A_LIE, false),
        (SNAPSHOT_NO_POLICY, false),
    ] {
        let d = lying(snap);
        assert_eq!(d.verdict.allowed(), expect_allowed, "{snap}");
        assert_eq!(d.audit.len(), 2, "{snap}: request then decision");
        assert!(
            matches!(d.audit[0], AdmissionEvent::PodRequested { .. }),
            "{snap}: the request is recorded first, refused or not"
        );
    }
}

#[test]
fn a_namespace_with_no_network_policy_is_refused_not_waved_through() {
    let d = lying(SNAPSHOT_NO_POLICY);
    let Verdict::Deny { all, .. } = &d.verdict else {
        panic!("expected a refusal, got {:?}", d.verdict);
    };
    assert!(all.iter().any(|r| r.reason.contains("default is open")
        || r.effect.contains("no-policy")
        || r.wall == Wall::TypeCheck));
}

#[test]
fn an_admission_reports_the_dimensions_nobody_declared_a_policy_for() {
    let permissive = manifest(
        r#"{"spec":{"grant":{"egress":["postgres.payments.svc"],"secrets":["payments-db"]}}}"#,
    );
    let raw = review(LYING_ABOUT_EGRESS, "", Some(DEPLOYER));

    let unvouched = ClusterSnapshot {
        trusted_image_prefixes: vec![],
        ..snapshot(SNAPSHOT_LOCKED_DOWN)
    };
    let d = judged(&raw, &permissive, &unvouched, None, None).unwrap();
    assert!(d.verdict.allowed(), "{:?}", d.verdict);
    let resp = respond("u", &d).response.unwrap();
    assert!(
        resp.warnings.iter().any(|w| w.contains("image provenance")),
        "nobody checked the image, and the admission says so: {:?}",
        resp.warnings
    );

    let vouched =
        judged(&raw, &permissive, &snapshot(SNAPSHOT_LOCKED_DOWN), None, None).unwrap();
    assert!(vouched.verdict.allowed());
    assert!(
        vouched.unchecked.is_empty(),
        "the snapshot vouched, so the wall must not claim nobody looked: {:?}",
        vouched.unchecked
    );
}

#[test]
fn a_document_that_is_not_a_review_is_refused_to_be_read() {
    for bad in [
        r#"{}"#,
        r#"[]"#,
        r#"{"response":{"allowed":true}}"#,
        r#"{"apiVersion":"admission.k8s.io/v1","kind":"AdmissionReview"}"#,
        "not json at all",
    ] {
        assert!(AdmissionReview::from_json(bad).is_err(), "{bad} must not read as a request");
    }
}

#[test]
fn a_review_whose_object_is_not_a_pod_stops_the_wall() {
    let raw = r#"{"request":{"uid":"u1","namespace":"payments","name":"x",
        "operation":"CREATE","object":{"kind":"ConfigMap","data":{"a":"b"}}}}"#;
    let err = judged(
        raw,
        &manifest(MANIFEST_PAYMENTS),
        &snapshot(SNAPSHOT_LOCKED_DOWN),
        None,
        None,
    )
    .unwrap_err();
    assert!(matches!(err, AdmissionError::Spec(_)), "{}", err.to_text());
}

#[test]
fn an_unnamed_pod_is_still_named_in_the_record() {
    let d = lying(SNAPSHOT_LOCKED_DOWN);
    let AdmissionEvent::PodRequested { name, uid, .. } = &d.audit[0] else {
        panic!("the first entry is the request")
    };
    assert_eq!(name, "exporter-7d9f-");
    assert!(!uid.is_empty());
}

#[test]
fn a_manifest_declaring_an_unenforceable_isolation_floor_is_refused() {
    let asking = r#"{"spec":{"grant":{"egress":["a"]},"isolationFloor":"microvm"}}"#;
    assert!(matches!(
        LexManifest::read(asking, UNBUDGETED),
        Err(ManifestReadError::UnenforceableFloor { .. })
    ));

    let knowing = r#"{"spec":{"grant":{"egress":["a"]},"isolationFloor":"unenforced-microvm"}}"#;
    assert!(LexManifest::read(knowing, UNBUDGETED).is_ok());
}

// ----------------------------------------------------------------------------------- trust

#[test]
fn a_waived_dimension_is_admitted_and_reported() {
    let d = decide(UNVOUCHED_IMAGE, Some(DEPLOYER), MANIFEST_NO_IMAGE_POLICY, None);
    assert!(d.verdict.allowed(), "{:?}", d.verdict);
    assert_eq!(d.standing, Standing::NotConsulted);
    assert!(
        d.unchecked.iter().any(|u| u.contains("image provenance")),
        "the waiver has to be reported: {:?}",
        d.unchecked
    );
}

#[test]
fn an_unscored_submitter_gets_no_waiver() {
    let d =
        decide(UNVOUCHED_IMAGE, Some(STRANGER), MANIFEST_NO_IMAGE_POLICY, Some(&keyring()));
    assert_eq!(d.standing, Standing::Unknown);
    let Verdict::Deny { first, .. } = &d.verdict else {
        panic!("expected a refusal, got {:?}", d.verdict);
    };
    assert_eq!(first.wall, Wall::Trust);
    assert_eq!(d.exit_code(), 8);
    assert!(
        first.reason.contains(STRANGER),
        "the refusal names who was refused: {}",
        first.reason
    );
    assert!(first.reason.contains("declare the policy"));
    assert!(first.reason.contains("earn a score"));
    assert_eq!(first.source, "image provenance");
}

#[test]
fn a_scored_submitter_keeps_the_waiver() {
    let d =
        decide(UNVOUCHED_IMAGE, Some(DEPLOYER), MANIFEST_NO_IMAGE_POLICY, Some(&keyring()));
    assert_eq!(d.standing, Standing::Trusted);
    assert!(d.verdict.allowed(), "{:?}", d.verdict);
}

#[test]
fn an_unauthenticated_review_gets_no_waiver_either() {
    let d = decide(UNVOUCHED_IMAGE, None, MANIFEST_NO_IMAGE_POLICY, Some(&keyring()));
    assert_eq!(d.signer, None);
    assert_eq!(d.standing, Standing::Unknown);
    assert!(!d.verdict.allowed(), "{:?}", d.verdict);
}

#[test]
fn no_keyring_changes_nothing() {
    for who in [Some(DEPLOYER), Some(STRANGER), None] {
        let d = decide(UNVOUCHED_IMAGE, who, MANIFEST_NO_IMAGE_POLICY, None);
        assert!(
            d.verdict.allowed(),
            "an unconsulted wall admits as before ({who:?}): {:?}",
            d.verdict
        );
        assert_eq!(d.standing, Standing::NotConsulted);
    }
}

#[test]
fn a_manifest_that_declares_its_policy_has_no_waiver_to_withhold() {
    for who in [DEPLOYER, STRANGER] {
        let d = decide(BENIGN, Some(who), MANIFEST_PAYMENTS, Some(&keyring()));
        assert!(
            d.verdict.allowed(),
            "a declared policy is checked for everyone alike ({who}): {:?}",
            d.verdict
        );
        assert!(d.unchecked.is_empty(), "nothing was waived: {:?}", d.unchecked);
    }
}

#[test]
fn trust_never_widens_the_manifest() {
    for who in [DEPLOYER, STRANGER] {
        let d = decide(PRIVILEGED_INIT, Some(who), MANIFEST_NO_IMAGE_POLICY, Some(&keyring()));
        let Verdict::Deny { first, .. } = &d.verdict else {
            panic!("a privileged pod must not be admitted for {who}: {d:?}");
        };
        assert_ne!(
            first.wall,
            Wall::Trust,
            "the lattice refuses this before standing is even asked ({who})"
        );
    }
}

fn as_json(d: &Decision) -> Vec<serde_json::Value> {
    d.audit.iter().map(|e| serde_json::from_str(&e.to_json().to_text()).unwrap()).collect()
}

fn event_of<'a>(events: &'a [serde_json::Value], kind: &str) -> &'a serde_json::Value {
    events
        .iter()
        .find(|e| e["kind"] == kind)
        .unwrap_or_else(|| panic!("no `{kind}` event in the log"))
}

fn assert_promotable(event: &serde_json::Value, signer: &str) {
    let sha =
        event["artifact_sha256"].as_str().expect("a promotable event names the decided bytes");
    assert_eq!(sha.len(), 64, "artifact_sha256 must be a full SHA-256");
    assert!(
        sha.chars().all(|c| c.is_ascii_hexdigit() && !c.is_ascii_uppercase()),
        "artifact_sha256 must be lowercase hex, got `{sha}`"
    );
    assert!(
        event["manifest"].as_str().is_some_and(|m| !m.is_empty()),
        "a promotable event names the ceiling it was checked against"
    );
    assert_eq!(
        event["signer"].as_str(),
        Some(signer),
        "a promotable event names who authorised it"
    );
}

#[test]
fn an_admission_is_promotable() {
    let d = decide(BENIGN, Some(DEPLOYER), MANIFEST_PAYMENTS, Some(&keyring()));
    assert!(d.verdict.allowed());

    let entries = as_json(&d);
    assert_promotable(event_of(&entries, "pod_admitted"), DEPLOYER);
    assert_promotable(event_of(&entries, "pod_requested"), DEPLOYER);
    assert_eq!(
        event_of(&entries, "pod_admitted")["subject"].as_str(),
        Some("payments/api"),
        "the subject is what an operator would grep for"
    );
}

#[test]
fn a_refusal_is_promotable_and_carries_why() {
    let d = decide(PRIVILEGED_INIT, Some(DEPLOYER), MANIFEST_PAYMENTS, None);
    assert!(!d.verdict.allowed());

    let entries = as_json(&d);
    let refused = event_of(&entries, "pod_refused");
    assert_promotable(refused, DEPLOYER);
    assert!(
        refused["reason"].as_str().is_some_and(|r| !r.is_empty()),
        "a refusal's detail has to survive promotion: {refused}"
    );
}

#[test]
fn an_unauthenticated_decision_carries_no_signer_at_all() {
    let d = decide(BENIGN, None, MANIFEST_PAYMENTS, None);
    let entries = as_json(&d);
    let admitted = event_of(&entries, "pod_admitted");
    assert!(
        admitted.get("signer").is_none(),
        "an absent signer is absent, not empty: {admitted}"
    );
    assert_eq!(admitted["artifact_sha256"].as_str().unwrap().len(), 64);
    assert!(admitted["manifest"].as_str().is_some());
}

#[test]
fn the_contract_fields_are_the_same_three_lex_iac_emits() {
    let d = decide(BENIGN, Some(DEPLOYER), MANIFEST_PAYMENTS, Some(&keyring()));
    let entries = as_json(&d);
    let admitted = event_of(&entries, "pod_admitted");
    for field in ["artifact_sha256", "manifest", "signer"] {
        assert!(
            admitted.get(field).is_some(),
            "`{field}` is named by the contract, not by this repo: {admitted}"
        );
    }
    assert_eq!(admitted["kind"], "pod_admitted");
}

#[test]
fn the_log_records_what_the_keyring_said() {
    for (who, k, expected) in [
        (Some(DEPLOYER), Some(keyring()), "trusted"),
        (Some(STRANGER), Some(keyring()), "unknown"),
        (Some(DEPLOYER), None, "not-consulted"),
        (None, Some(keyring()), "unknown"),
    ] {
        let d = decide(BENIGN, who, MANIFEST_PAYMENTS, k.as_ref());
        let entries = as_json(&d);
        assert_eq!(
            event_of(&entries, "pod_requested")["trust"].as_str(),
            Some(expected),
            "for {who:?}"
        );
    }
}

/// What is held here is the record and its order; hashes over it are the program's.
#[test]
fn the_promotable_log_is_still_a_verifying_chain() {
    let d =
        decide(UNVOUCHED_IMAGE, Some(STRANGER), MANIFEST_NO_IMAGE_POLICY, Some(&keyring()));
    let entries = as_json(&d);
    assert_eq!(entries[0]["kind"], "pod_requested");
    assert_eq!(
        entries.last().unwrap()["kind"],
        "pod_refused",
        "the decision is the last word in the log"
    );
}

// ---------------------------------------------------------------------------------- budget

fn prices() -> PriceList {
    PriceList { currency: "USD".into(), cpu_core_month_minor: 3_000, gib_month_minor: 400 }
}

fn spend(committed_minor: u64) -> Spend {
    Spend {
        prices: prices(),
        report: SpendReport { currency: "USD".into(), namespace_monthly_minor: committed_minor },
    }
}

fn manifest_at(budget_minor: u64) -> Manifest {
    let mut m = manifest(MANIFEST_PAYMENTS);
    m.budget.max_money_cents = budget_minor;
    m
}

fn priced(pod: &str, budget_minor: u64, s: Option<&Spend>) -> Decision {
    judged(
        &review(pod, "api", Some(DEPLOYER)),
        &manifest_at(budget_minor),
        &snapshot(SNAPSHOT_LOCKED_DOWN),
        None,
        s,
    )
    .expect("the wall runs")
}

const POD_MONTHLY: u64 = 6_800;

#[test]
fn a_pod_that_fits_is_admitted_and_the_charge_is_recorded() {
    let d = priced(PRICED_WITH_MIGRATION, 20_000, Some(&spend(5_000)));
    assert!(d.verdict.allowed(), "{:?}", d.verdict);
    assert_eq!(d.charged, Some(POD_MONTHLY));

    let entries = as_json(&d);
    let charge = event_of(&entries, "spend_charged");
    assert_eq!(charge["pod_monthly_minor"].as_u64(), Some(POD_MONTHLY));
    assert_eq!(charge["namespace_monthly_minor"].as_u64(), Some(5_000));
    assert_eq!(charge["budget_minor"].as_u64(), Some(20_000));
    assert_eq!(charge["currency"].as_str(), Some("USD"));
}

#[test]
fn a_pod_that_would_exceed_the_ceiling_is_refused() {
    let d = priced(PRICED_WITH_MIGRATION, 10_000, Some(&spend(5_000)));
    let Verdict::Deny { first, .. } = &d.verdict else {
        panic!("expected a refusal, got {:?}", d.verdict);
    };
    assert_eq!(first.wall, Wall::Budget);
    assert_eq!(d.exit_code(), 8);
    assert!(
        first.reason.contains("18.00") && first.reason.contains("100.00"),
        "the refusal states the total and the ceiling: {}",
        first.reason
    );
    assert!(first.reason.contains("not the invoice"));
    assert_eq!(
        first.reason,
        "this pod reserves USD 68.00/month (2000m CPU, 2048 MiB), which would put `payments` at \
         118.00 against a ceiling of 100.00 (18.00 over) — this bounds committed reservation, not \
         the invoice"
    );
    assert_eq!(d.charged, Some(POD_MONTHLY));
}

#[test]
fn an_over_budget_namespace_refuses_admissions_and_nothing_else() {
    let d = priced(PRICED_WITH_MIGRATION, 10_000, Some(&spend(50_000)));
    let Verdict::Deny { all, .. } = &d.verdict else {
        panic!("expected a refusal");
    };
    assert_eq!(all.len(), 1);
    assert_eq!(all[0].wall, Wall::Budget);
    assert_eq!(all[0].source, "resources.requests");
    assert_eq!(d.exit_code(), 8);
}

#[test]
fn the_init_container_is_a_peak_not_a_sum() {
    let d = priced(PRICED_WITH_MIGRATION, POD_MONTHLY, Some(&spend(0)));
    assert!(
        d.verdict.allowed(),
        "the pod costs max(init, app), not their sum: {:?}",
        d.verdict
    );
    let d = priced(PRICED_WITH_MIGRATION, POD_MONTHLY - 1, Some(&spend(0)));
    assert!(!d.verdict.allowed());
}

#[test]
fn a_pod_that_cannot_be_priced_is_refused_not_charged_at_zero() {
    let d = priced(UNPRICED, 1_000_000, Some(&spend(0)));
    let Verdict::Deny { first, .. } = &d.verdict else {
        panic!("a huge budget must not admit an unpriceable pod: {:?}", d.verdict);
    };
    assert_eq!(first.wall, Wall::Budget);
    assert_eq!(first.effect, "unpriced");
    assert!(first.reason.contains("not a request for nothing"), "{}", first.reason);
    assert!(first.source.contains("resources.requests"));
}

#[test]
fn no_price_list_means_no_budget_wall() {
    for pod in [PRICED_WITH_MIGRATION, UNPRICED] {
        let d = priced(pod, 0, None);
        assert!(
            d.verdict.allowed(),
            "an unpriced wall admits as before ({pod}): {:?}",
            d.verdict
        );
        assert_eq!(d.charged, None, "None means unpriced, never zero");
    }
    let d = priced(PRICED_WITH_MIGRATION, 0, None);
    assert!(
        !as_json(&d).iter().any(|e| e["kind"] == "spend_charged"),
        "a wall that did not run records nothing"
    );
}

#[test]
fn a_report_in_another_currency_stops_the_wall() {
    let mismatched = Spend {
        prices: prices(),
        report: SpendReport { currency: "EUR".into(), namespace_monthly_minor: 0 },
    };
    let e = judged(
        &review(PRICED_WITH_MIGRATION, "api", Some(DEPLOYER)),
        &manifest_at(1_000_000),
        &snapshot(SNAPSHOT_LOCKED_DOWN),
        None,
        Some(&mismatched),
    )
    .expect_err("a currency mismatch is not a verdict");
    assert!(e.to_text().contains("EUR") && e.to_text().contains("USD"));
    assert!(matches!(e, AdmissionError::Cost(_)));
}

#[test]
fn a_manifest_with_no_budget_authorises_no_spend() {
    let m = manifest(MANIFEST_PAYMENTS);
    assert_eq!(
        m.budget.max_money_cents, 0,
        "the fixture declares no budget, so it authorises nothing"
    );

    let d = priced(PRICED_WITH_MIGRATION, 0, Some(&spend(0)));
    let Verdict::Deny { first, .. } = &d.verdict else {
        panic!("a zero ceiling admits no priced pod: {:?}", d.verdict);
    };
    assert_eq!(first.wall, Wall::Budget);
}

#[test]
fn a_pod_that_trips_an_earlier_wall_is_told_about_that_wall() {
    let d = priced(PRIVILEGED_INIT, 1, Some(&spend(0)));
    let Verdict::Deny { first, .. } = &d.verdict else {
        panic!("expected a refusal");
    };
    assert_ne!(first.wall, Wall::Budget, "a privileged pod's problem is not its price");
}

#[test]
fn the_charge_sits_between_the_request_and_the_decision() {
    let d = priced(PRICED_WITH_MIGRATION, 20_000, Some(&spend(5_000)));
    let entries = as_json(&d);
    let kinds: Vec<&str> = entries.iter().map(|e| e["kind"].as_str().unwrap()).collect();
    assert_eq!(kinds, vec!["pod_requested", "spend_charged", "pod_admitted"]);
}

#[test]
fn the_promotion_contract_survives_the_new_event() {
    let d = priced(PRICED_WITH_MIGRATION, 20_000, Some(&spend(5_000)));
    let entries = as_json(&d);
    let admitted = event_of(&entries, "pod_admitted");
    for field in ["artifact_sha256", "manifest", "signer"] {
        assert!(
            admitted.get(field).is_some(),
            "`{field}` is named by the promotion contract: {admitted}"
        );
    }
    let charge = event_of(&entries, "spend_charged");
    assert!(charge.get("signer").is_none());
}

// --------------------------------------------------------------------------------- effects

#[test]
fn a_well_behaved_pod_asks_for_very_little() {
    let pod = compile_str(BENIGN, &snapshot(SNAPSHOT_LOCKED_DOWN)).unwrap();

    assert_eq!(pod.demands.filesystem, Level::ReadOnly, "one Secret in env");
    assert_eq!(pod.demands.network, Level::Allowlist, "a real egress policy");
    assert_eq!(pod.demands.execution, Level::Nothing, "no capabilities, no escapes");
    assert!(!pod.has_consequential());
    assert!(pod.unreadable().is_empty());
}

#[test]
fn a_pod_that_lies_about_its_egress_is_compiled_on_what_the_cluster_enforces() {
    let claimed = compile_str(LYING_ABOUT_EGRESS, &snapshot(SNAPSHOT_LOCKED_DOWN)).unwrap();
    let enforced = compile_str(LYING_ABOUT_EGRESS, &snapshot(SNAPSHOT_POLICY_IS_A_LIE)).unwrap();

    assert_eq!(claimed.spec_sha256, enforced.spec_sha256);
    assert_ne!(claimed.snapshot_sha256, enforced.snapshot_sha256);

    assert_eq!(claimed.demands.network, Level::Allowlist);
    assert_eq!(enforced.demands.network, Level::Full);

    let row = enforced
        .rows
        .iter()
        .find(|r| matches!(r.effect, Effect::Egress { .. }))
        .expect("an egress row is always emitted");
    assert_eq!(
        row.reversibility,
        Reversibility::IrreversibleConsequential,
        "data that leaves the cluster does not come back"
    );
    assert!(
        row.effect.explain().contains("legacy-allow-all"),
        "the refusal must name the policy that opened it: {}",
        row.effect.explain()
    );
}

#[test]
fn no_network_policy_is_not_no_reach() {
    let pod = compile_str(BENIGN, &snapshot(SNAPSHOT_NO_POLICY)).unwrap();
    assert_eq!(pod.demands.network, Level::Full);

    let row = pod.rows.iter().find(|r| matches!(r.effect, Effect::Egress { .. })).unwrap();
    assert!(
        matches!(row.effect, Effect::Egress { reach: Reach::NoPolicy, .. }),
        "distinguishable from a policy that permits everything"
    );
    assert!(row.effect.explain().contains("default is open"));
}

#[test]
fn a_privileged_init_container_decides_the_pods_demand() {
    let pod = compile_str(PRIVILEGED_INIT, &snapshot(SNAPSHOT_LOCKED_DOWN)).unwrap();

    assert_eq!(pod.demands.execution, Level::Full);
    assert_eq!(pod.demands.filesystem, Level::Full);

    let row = pod
        .rows
        .iter()
        .find(|r| matches!(r.effect, Effect::Privileged))
        .expect("the init container is privileged");
    assert_eq!(row.source.kind, Some(ContainerKind::Init));
    assert_eq!(row.source.container.as_deref(), Some("sysctl-tuner"));
    assert_eq!(
        row.reversibility,
        Reversibility::IrreversibleConsequential,
        "what it did to the node outlives the pod"
    );
}

#[test]
fn an_ephemeral_debug_container_carries_its_own_authority() {
    let pod = compile_str(DEBUG_CONTAINER, &snapshot(SNAPSHOT_LOCKED_DOWN)).unwrap();

    let row = pod
        .rows
        .iter()
        .find(|r| matches!(&r.effect, Effect::Capability { name, .. } if name == "SYS_PTRACE"))
        .expect("SYS_PTRACE on the debug container");
    assert_eq!(row.source.kind, Some(ContainerKind::Ephemeral));
    assert_eq!(pod.demands.execution, Level::Full, "SYS_PTRACE is an escape");

    assert!(pod.rows.iter().any(|r| matches!(r.effect, Effect::UntrustedImage { .. })));
}

#[test]
fn a_log_shipper_reaches_the_node_read_only() {
    let pod = compile_str(NODE_FILESYSTEM, &snapshot(SNAPSHOT_LOCKED_DOWN)).unwrap();

    assert_eq!(pod.demands.filesystem, Level::ReadWrite, "read-only, but off-pod");
    assert_eq!(pod.demands.network, Level::Full, "hostNetwork");

    let paths: Vec<String> = pod
        .rows
        .iter()
        .filter_map(|r| match &r.effect {
            Effect::HostPath { path, writable } => {
                assert!(!writable, "both mounts are readOnly: {path}");
                Some(path.clone())
            }
            _ => None,
        })
        .collect();
    assert_eq!(paths, ["/var/log", "/var/lib/docker/containers"]);

    assert!(pod.rows.iter().any(|r| matches!(r.effect, Effect::UntrustedImage { .. })));
}

#[test]
fn a_service_accounts_reach_comes_from_the_snapshot() {
    let pod = compile_str(BENIGN, &snapshot(SNAPSHOT_CI_SERVICEACCOUNT)).unwrap();

    let api: Vec<&EffectRow> =
        pod.rows.iter().filter(|r| matches!(r.effect, Effect::ApiAccess { .. })).collect();
    assert_eq!(api.len(), 2);

    let escalating = api
        .iter()
        .find(|r| matches!(&r.effect, Effect::ApiAccess { escalation: Some(_), .. }))
        .expect("writing Deployments is an escalation path");
    assert!(escalating.source.to_text().contains("ci-deployer"));
    assert!(escalating.effect.explain().contains("create Pods"));
    assert_eq!(pod.demands.execution, Level::Full);

    assert!(api
        .iter()
        .any(|r| matches!(&r.effect, Effect::ApiAccess { escalation: None, .. })));
}

#[test]
fn a_future_spec_compiles_and_an_unknown_capability_is_still_a_capability() {
    let pod = compile_str(FUTURE_SHAPE, &snapshot(SNAPSHOT_LOCKED_DOWN)).unwrap();

    let row = pod
        .rows
        .iter()
        .find(|r| matches!(r.effect, Effect::Capability { .. }))
        .expect("CAP_UNKNOWN_FUTURE is still an added capability");
    assert!(
        matches!(&row.effect, Effect::Capability { dangerous: false, .. }),
        "not on the dangerous list, so sandboxed rather than full"
    );
    assert_eq!(pod.demands.execution, Level::Sandboxed);
}

#[test]
fn compilation_is_deterministic_and_both_inputs_are_pinned() {
    let a = compile_str(BENIGN, &snapshot(SNAPSHOT_LOCKED_DOWN)).unwrap();
    let b = compile_str(BENIGN, &snapshot(SNAPSHOT_LOCKED_DOWN)).unwrap();
    assert_eq!(a, b);

    let c = compile_str(BENIGN, &snapshot(SNAPSHOT_NO_POLICY)).unwrap();
    assert_eq!(a.spec_sha256, c.spec_sha256);
    assert_ne!(a.snapshot_sha256, c.snapshot_sha256);
    assert_ne!(a.demands, c.demands);
}

#[test]
fn conformance_malformed_input_never_panics_and_is_never_harmless() {
    let snap = snapshot(SNAPSHOT_LOCKED_DOWN);
    for case in [
        "",
        "{",
        "[]",
        "null",
        "3",
        r#""a string""#,
        r#"{"containers":null}"#,
        r#"{"containers":"not a list"}"#,
        r#"{"containers":[{}]}"#,
        r#"{"containers":[{"securityContext":{"capabilities":{"add":["","CAP_","-"]}}}]}"#,
        r#"{"volumes":[{"name":"h","hostPath":{}}],"containers":[]}"#,
        r#"{"spec":{"spec":{"containers":[]}}}"#,
        r#"{"containers":[{"image":"@sha256:"}]}"#,
    ] {
        let _ = compile_str(case, &snap);
    }

    for not_a_pod in ["{}", "[]", r#"{"kind":"ConfigMap","data":{}}"#] {
        assert!(
            compile_str(not_a_pod, &snap).is_err(),
            "{not_a_pod} must not compile to an empty, admissible pod"
        );
    }

    let pod = compile_str(r#"{"containers":[{}]}"#, &snap).unwrap();
    assert!(pod.rows.iter().any(|r| matches!(r.effect, Effect::UntrustedImage { .. })));
}

#[test]
fn different_events_are_written_differently() {
    let admitted = |signer: Option<&str>, subject: &str| AdmissionEvent::PodAdmitted {
        uid: "u".into(),
        artifact_sha256: "a".into(),
        manifest: "m".into(),
        signer: signer.map(String::from),
        subject: subject.into(),
    };
    let charged = |budget_minor: u64| AdmissionEvent::SpendCharged {
        uid: "u".into(),
        artifact_sha256: "a".into(),
        currency: "EUR".into(),
        cpu_millicores: 1,
        memory_bytes: 2,
        pod_monthly_minor: 3,
        namespace_monthly_minor: 4,
        budget_minor,
    };
    let events = [
        admitted(None, "s"),
        admitted(Some("s"), "s"),
        admitted(Some(""), "s"),
        admitted(None, "s\",\"wall\":\""),
        charged(5),
        charged(50),
    ];
    for (i, a) in events.iter().enumerate() {
        for (j, b) in events.iter().enumerate() {
            assert_eq!(a.to_json().to_text() == b.to_json().to_text(), i == j);
        }
    }
}
