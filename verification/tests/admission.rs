//! The walls, over pods written out in full.
use lex_k8s::admission::{
    admit_str, is_in_cluster, money, worst_row, AdmissionError, AdmissionEvent, Decision,
    RequestMeta, Spend, Verdict, Wall,
};
use lex_k8s::cluster::{ClusterSnapshot, EgressPolicy};
use lex_k8s::effect::Effect;
use lex_k8s::grant::{Grant, Level};
use lex_k8s::manifest::{Budget, FacetSlot, LexManifest, Manifest};
use lex_k8s::pod::compile_str;
use lex_k8s::trust::Keyring;

const PAYMENTS: &str = r#"{
  "metadata": { "name": "payments", "namespace": "payments" },
  "spec": {
    "goal": "serve the payments API",
    "grant": {
      "egress": ["postgres.payments.svc", "api.stripe.com:443"],
      "secrets": ["stripe-live-key"],
      "capabilities": ["NET_BIND_SERVICE"]
    }
  }
}"#;

const UNBUDGETED: Budget =
    Budget { wall_clock_secs: 3600, max_commands: 100, max_money_cents: 0, max_api_calls: 1000 };

fn resolved(src: &str) -> Manifest {
    LexManifest::read(src, UNBUDGETED).unwrap().1
}

fn manifest() -> Manifest {
    resolved(PAYMENTS)
}

fn snapshot() -> ClusterSnapshot {
    ClusterSnapshot {
        egress: Some(EgressPolicy {
            policy_names: vec!["payments-egress".into()],
            cidrs: vec!["10.42.0.0/16".into()],
            ..Default::default()
        }),
        trusted_image_prefixes: vec!["registry.internal/".into()],
        ..Default::default()
    }
}

fn meta() -> RequestMeta {
    RequestMeta {
        uid: "abc-123".into(),
        namespace: "payments".into(),
        name: "api".into(),
        signer: Some("system:serviceaccount:payments:deployer".into()),
    }
}

fn wall(
    spec: &str,
    m: &Manifest,
    snap: &ClusterSnapshot,
    keyring: Option<&Keyring>,
    spend: Option<&Spend>,
) -> Result<Decision, AdmissionError> {
    admit_str(spec, m, "manifest-1", snap, &meta(), keyring, spend)
}

const GOOD: &str = r#"{"containers":[{"name":"api",
    "image":"registry.internal/payments/api@sha256:aa",
    "env":[{"name":"K","valueFrom":{"secretKeyRef":{"name":"stripe-live-key","key":"k"}}}],
    "securityContext":{"capabilities":{"add":["NET_BIND_SERVICE"]}}}]}"#;

#[test]
fn a_pod_inside_its_grant_is_admitted_and_recorded() {
    let d = wall(GOOD, &manifest(), &snapshot(), None, None).unwrap();
    assert!(d.verdict.allowed(), "{:?}", d.verdict);
    assert_eq!(d.exit_code(), 0);
    assert_eq!(d.audit.len(), 2, "request then decision");
    assert!(matches!(d.audit[0], AdmissionEvent::PodRequested { .. }));
    assert!(matches!(d.audit[1], AdmissionEvent::PodAdmitted { .. }));
}

#[test]
fn a_pod_that_lies_about_its_egress_is_refused_by_both_walls() {
    let open = ClusterSnapshot {
        egress: Some(EgressPolicy {
            policy_names: vec!["payments-egress".into(), "legacy-allow-all".into()],
            cidrs: vec!["10.42.0.0/16".into(), "0.0.0.0/0".into()],
            ..Default::default()
        }),
        ..snapshot()
    };
    let d = wall(GOOD, &manifest(), &open, None, None).unwrap();
    assert_eq!(d.exit_code(), 8);

    let Verdict::Deny { all, .. } = &d.verdict else {
        panic!("expected a refusal, got {:?}", d.verdict);
    };
    assert!(all.iter().any(|r| r.wall == Wall::TypeCheck));
    let facet_refusal =
        all.iter().find(|r| r.wall == Wall::Narrowing).expect("the facet refuses it too");
    assert!(facet_refusal.grant_allows.contains(&"api.stripe.com:443".to_string()));
}

#[test]
fn a_secret_the_manifest_never_named_is_refused_by_the_facet_alone() {
    let spec = r#"{"containers":[{"name":"api",
        "image":"registry.internal/payments/api@sha256:aa",
        "env":[{"name":"K","valueFrom":{"secretKeyRef":{"name":"root-ca-key","key":"k"}}}]}]}"#;
    let d = wall(spec, &manifest(), &snapshot(), None, None).unwrap();

    let Verdict::Deny { all, .. } = &d.verdict else {
        panic!("expected a refusal, got {:?}", d.verdict);
    };
    assert_eq!(all.len(), 1, "the lattice is satisfied; only the facet trips");
    assert_eq!(all[0].wall, Wall::Narrowing);
    assert!(all[0].reason.contains("root-ca-key"));
    assert!(all[0].source.contains("containers[api]"));
}

#[test]
fn host_network_is_caught_by_the_lattice_not_the_egress_list() {
    let spec = r#"{"hostNetwork":true,"containers":[{"name":"api",
        "image":"registry.internal/payments/api@sha256:aa"}]}"#;
    let d = wall(spec, &manifest(), &snapshot(), None, None).unwrap();

    let Verdict::Deny { all, .. } = &d.verdict else {
        panic!("expected a refusal");
    };
    assert!(all.iter().any(|r| r.wall == Wall::TypeCheck));
    let tc = all.iter().find(|r| r.wall == Wall::TypeCheck).unwrap();
    assert!(tc.source.contains("hostNetwork"), "names the field: {}", tc.source);
    assert!(tc.grant_allows.iter().any(|g| g.contains("network")));
    assert_eq!(
        tc.grant_allows,
        ["filesystem: ReadOnly", "network: Allowlist", "exec: Sandboxed"]
    );
    assert_eq!(
        tc.reason,
        "trust widening on network: child requests `full` but parent only grants `allowlist`"
    );
}

#[test]
fn in_cluster_names_are_enforceable() {
    for h in [
        "postgres",
        "postgres.payments.svc",
        "postgres.payments.svc.cluster.local",
        "postgres.payments.svc:5432",
    ] {
        assert!(is_in_cluster(h), "{h} maps onto a selector");
    }
}

#[test]
fn external_hosts_are_not() {
    for h in ["api.stripe.com:443", "github.com", "1.2.3.4", "example.co.uk"] {
        assert!(!is_in_cluster(h), "{h} has no NetworkPolicy expression");
    }
}

#[test]
fn an_address_is_external() {
    for h in [
        "2001:db8::1",
        "::1",
        "[2001:db8::1]:443",
        "[::1]",
        "fe80::1%eth0",
        "https://api",
        "postgres:5432:1",
        "10",
        "a b",
    ] {
        assert!(!is_in_cluster(h), "{h}");
    }
    for h in ["postgres:5432", "redis-0", "db.svc:", "Postgres"] {
        assert!(is_in_cluster(h), "{h}");
    }
}

#[test]
fn a_name_of_nothing_is_external() {
    for h in ["", ":443", ".", "..:80"] {
        assert!(!is_in_cluster(h), "{h:?}");
    }
    assert!(is_in_cluster("db.cluster.local."), "a trailing point changes nothing");
}

#[test]
fn an_external_grant_is_disclosed_but_admitted() {
    let spec = r#"{"containers":[{"name":"api",
        "image":"registry.internal/payments/api@sha256:aa"}]}"#;
    let d = wall(spec, &manifest(), &snapshot(), None, None).unwrap();
    assert!(d.verdict.allowed(), "{:?}", d.verdict);
    assert!(d.unenforceable.iter().any(|u| u.contains("api.stripe.com")), "{:?}", d.unenforceable);
}

#[test]
fn it_is_not_a_waiver_the_submitter_could_have_avoided() {
    let spec = r#"{"containers":[{"name":"api",
        "image":"registry.internal/payments/api@sha256:aa"}]}"#;
    let d = wall(spec, &manifest(), &snapshot(), None, None).unwrap();
    assert!(
        !d.unchecked.iter().any(|u| u.contains("stripe")),
        "an unenforceable grant is not an undeclared one: {:?}",
        d.unchecked
    );
}

#[test]
fn an_in_cluster_only_grant_discloses_nothing() {
    let m = resolved(
        r#"{
          "metadata": { "name": "payments", "namespace": "payments" },
          "spec": {
            "goal": "serve the payments API",
            "grant": { "egress": ["postgres.payments.svc"], "secrets": [],
                       "capabilities": [] }
          }
        }"#,
    );
    let spec = r#"{"containers":[{"name":"api",
        "image":"registry.internal/payments/api@sha256:aa"}]}"#;
    let d = wall(spec, &m, &snapshot(), None, None).unwrap();
    assert!(d.unenforceable.is_empty(), "{:?}", d.unenforceable);
}

fn narrowed_to_payments() -> Manifest {
    resolved(
        r#"{
          "metadata": { "name": "payments", "namespace": "payments" },
          "spec": {
            "goal": "serve the payments API",
            "grant": {
              "egress": ["postgres.payments.svc"],
              "secrets": [],
              "capabilities": [],
              "imagePrefixes": ["registry.internal/payments/"]
            }
          }
        }"#,
    )
}

#[test]
fn an_image_outside_the_manifests_prefixes_is_refused() {
    let spec = r#"{"containers":[{"name":"api",
        "image":"registry.internal/shared/base@sha256:aa"}]}"#;
    let d = wall(spec, &narrowed_to_payments(), &snapshot(), None, None).unwrap();
    let Verdict::Deny { all, .. } = &d.verdict else {
        panic!("a manifest that names imagePrefixes must hold images to them");
    };
    let r = all
        .iter()
        .find(|r| r.effect.starts_with("image:"))
        .expect("the refusal names the image");
    assert!(r.reason.contains("imagePrefixes"), "{}", r.reason);
    assert!(
        r.grant_allows.iter().any(|g| g == "registry.internal/payments/"),
        "the operator is told what is allowed: {:?}",
        r.grant_allows
    );
}

#[test]
fn an_image_inside_the_manifests_prefixes_is_admitted() {
    let spec = r#"{"containers":[{"name":"api",
        "image":"registry.internal/payments/api@sha256:aa"}]}"#;
    let d = wall(spec, &narrowed_to_payments(), &snapshot(), None, None).unwrap();
    assert!(d.verdict.allowed(), "{:?}", d.verdict);
}

#[test]
fn an_init_containers_image_is_held_to_the_same_prefixes() {
    let spec = r#"{"containers":[{"name":"api",
        "image":"registry.internal/payments/api@sha256:aa"}],
        "initContainers":[{"name":"tuner","image":"registry.internal/ops@sha256:bb"}]}"#;
    let d = wall(spec, &narrowed_to_payments(), &snapshot(), None, None).unwrap();
    assert!(!d.verdict.allowed(), "an init container is a container");
}

#[test]
fn a_manifest_naming_no_prefixes_does_not_refuse_on_images() {
    let spec = r#"{"containers":[{"name":"api",
        "image":"registry.internal/payments/api@sha256:aa"}]}"#;
    let d = wall(spec, &manifest(), &snapshot(), None, None).unwrap();
    let refused_on_image = match &d.verdict {
        Verdict::Deny { all, .. } => all.iter().any(|r| r.effect.starts_with("image:")),
        _ => false,
    };
    assert!(!refused_on_image, "{:?}", d.verdict);
}

#[test]
fn a_manifest_cannot_widen_past_what_the_cluster_trusts() {
    let m = resolved(
        r#"{
          "metadata": { "name": "payments", "namespace": "payments" },
          "spec": {
            "goal": "serve the payments API",
            "grant": { "egress": [], "secrets": [], "capabilities": [],
                       "imagePrefixes": ["docker.io/"] }
          }
        }"#,
    );
    let spec = r#"{"containers":[{"name":"api","image":"docker.io/library/nginx@sha256:aa"}]}"#;
    let d = wall(spec, &m, &snapshot(), None, None).unwrap();
    assert!(
        !d.verdict.allowed(),
        "the cluster trusts only registry.internal/; a manifest cannot grant past it"
    );
}

#[test]
fn a_privileged_init_container_is_refused() {
    let spec = r#"{"containers":[{"name":"api",
        "image":"registry.internal/payments/api@sha256:aa"}],
        "initContainers":[{"name":"tuner","image":"registry.internal/ops@sha256:bb",
          "securityContext":{"privileged":true}}]}"#;
    let d = wall(spec, &manifest(), &snapshot(), None, None).unwrap();
    assert!(!d.verdict.allowed());
    let Verdict::Deny { all, .. } = &d.verdict else { panic!() };
    assert!(all.iter().any(|r| r.source.contains("initContainers[tuner]")));
}

#[test]
fn a_dimension_the_manifest_declares_no_policy_for_is_reported_not_hidden() {
    let spec = r#"{"containers":[{"name":"api","image":"docker.io/nginx:latest"}]}"#;
    let d = wall(spec, &manifest(), &snapshot(), None, None).unwrap();
    assert!(
        d.unchecked.iter().any(|u| u.contains("image provenance")),
        "unchecked: {:?}",
        d.unchecked
    );
}

#[test]
fn a_declared_image_policy_is_enforced() {
    let strict = resolved(
        r#"{"spec":{"grant":{"egress":["postgres.payments.svc"],
            "imagePrefixes":["registry.internal/"]}}}"#,
    );
    let spec = r#"{"containers":[{"name":"api","image":"docker.io/nginx:latest"}]}"#;
    let d = wall(spec, &strict, &snapshot(), None, None).unwrap();

    let Verdict::Deny { all, .. } = &d.verdict else {
        panic!("expected a refusal, got {:?}", d.verdict);
    };
    assert!(all.iter().any(|r| r.reason.contains("docker.io/nginx")));
    assert!(d.unchecked.is_empty(), "it was checked");
}

#[test]
fn a_document_that_is_not_a_pod_stops_the_wall_rather_than_refusing() {
    for not_a_pod in [r#"{}"#, r#"[]"#, r#"{"kind":"ConfigMap"}"#] {
        let err = wall(not_a_pod, &manifest(), &snapshot(), None, None).unwrap_err();
        assert!(matches!(err, AdmissionError::Spec(_)), "{not_a_pod}: {}", err.to_text());
    }
}

#[test]
fn an_unreadable_facet_stops_the_wall() {
    let m = Manifest { facet: FacetSlot::Unreadable("expected a map".into()), ..manifest() };
    let err = wall(GOOD, &m, &snapshot(), None, None).unwrap_err();
    assert!(matches!(err, AdmissionError::Manifest(_)));
    assert!(err
        .to_text()
        .starts_with("the manifest's `pod` facet is present but unreadable: "));
}

#[test]
fn the_request_is_recorded_before_the_verdict() {
    let d = wall(
        r#"{"hostNetwork":true,"containers":[{"name":"a","image":"x@sha256:1"}]}"#,
        &manifest(),
        &snapshot(),
        None,
        None,
    )
    .unwrap();
    assert!(!d.verdict.allowed());
    assert_eq!(d.audit.len(), 2);
    assert!(matches!(d.audit[0], AdmissionEvent::PodRequested { .. }));
    assert!(matches!(d.audit[1], AdmissionEvent::PodRefused { .. }));

    let AdmissionEvent::PodRequested { demands, .. } = &d.audit[0] else { panic!() };
    assert_eq!(demands.network, Level::Full);
}

#[test]
fn money_is_minor_units_in_two_digits() {
    assert_eq!(money(0), "0.00");
    assert_eq!(money(5), "0.05");
    assert_eq!(money(99), "0.99");
    assert_eq!(money(6_800), "68.00");
    assert_eq!(money(u64::MAX), "184467440737095516.15");
}

#[test]
fn a_prefix_that_the_cluster_does_not_trust_is_not_made_trustworthy() {
    let m = resolved(
        r#"{"spec":{"grant":{"egress":["db.svc"],
            "imagePrefixes":["docker.io/","registry.internal/"]}}}"#,
    );
    for image in [
        "docker.io/library/nginx@sha256:aa",
        "docker.io/library/nginx:1.27",
        "docker.io/library/nginx:latest",
        "docker.io/library/nginx",
    ] {
        let spec = format!(r#"{{"containers":[{{"name":"api","image":"{image}"}}]}}"#);
        let d = wall(&spec, &m, &snapshot(), None, None).unwrap();
        let Verdict::Deny { all, .. } = &d.verdict else {
            panic!("expected a refusal, got {:?}", d.verdict);
        };
        assert_eq!(all.len(), 1, "{all:?}");
        assert_eq!(all[0].effect, format!("image:{image}"));
        assert_eq!(all[0].source, "spec.containers[].image");
        assert_eq!(
            all[0].reason,
            format!(
                "`{image}` is from a source the cluster does not trust, and a manifest cannot grant past that"
            )
        );
    }
    let unpinned = r#"{"containers":[{"name":"api","image":"registry.internal/api:1"}]}"#;
    assert!(wall(unpinned, &m, &snapshot(), None, None).unwrap().verdict.allowed());
    let trusted = r#"{"containers":[{"name":"api","image":"registry.internal/api@sha256:aa"}]}"#;
    assert!(wall(trusted, &m, &snapshot(), None, None).unwrap().verdict.allowed());
}

#[test]
fn the_row_that_is_named_exceeds_the_grant_by_the_most() {
    let snapshot = ClusterSnapshot {
        egress: Some(EgressPolicy { deny_all: true, ..Default::default() }),
        trusted_image_prefixes: vec!["r/".into()],
        ..Default::default()
    };
    let pod = compile_str(
        r#"{"hostNetwork":true,"containers":[{"name":"a","image":"r/a@sha256:1",
            "securityContext":{"privileged":true}}]}"#,
        &snapshot,
    )
    .unwrap();
    let granted = Grant::new(Level::Full, Level::Nothing, Level::Sandboxed);
    assert_eq!(worst_row(&pod.rows, &granted).unwrap().effect, Effect::HostNetwork);
    let granted = Grant::new(Level::Nothing, Level::Full, Level::Nothing);
    assert_eq!(worst_row(&pod.rows, &granted).unwrap().effect, Effect::Privileged);
    let granted = Grant::new(Level::Full, Level::Full, Level::Full);
    assert!(worst_row(&pod.rows, &granted).is_none());
}
