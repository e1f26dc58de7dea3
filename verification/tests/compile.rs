//! The compiler, over pods written out in full.
use lex_k8s::cluster::{ClusterSnapshot, EgressPolicy, RbacRule};
use lex_k8s::effect::{Effect, ImageDoubt};
use lex_k8s::grant::{Grant, Level, Reversibility};
use lex_k8s::pod::{compile_str, image_doubt};

fn snap_open() -> ClusterSnapshot {
    ClusterSnapshot {
        trusted_image_prefixes: vec!["registry.internal/".into()],
        ..Default::default()
    }
}

#[test]
fn the_spec_hash_pins_the_exact_bytes() {
    let a = compile_str(r#"{"containers":[]}"#, &ClusterSnapshot::default()).unwrap();
    let b = compile_str(r#"{"containers":[] }"#, &ClusterSnapshot::default()).unwrap();
    assert_ne!(a.spec_sha256, b.spec_sha256);
    assert_eq!(
        a.spec_sha256,
        "122ec23ea1553fa8da9f689b70a1e2bc1b344fac17397e9e02a040a1544c65d3"
    );
}

#[test]
fn the_same_spec_on_two_clusters_records_two_snapshots() {
    let spec = r#"{"containers":[{"name":"a","image":"registry.internal/a@sha256:x"}]}"#;
    let open = compile_str(spec, &snap_open()).unwrap();
    let closed = compile_str(
        spec,
        &ClusterSnapshot {
            egress: Some(EgressPolicy {
                deny_all: true,
                policy_names: vec!["default-deny".into()],
                ..Default::default()
            }),
            ..snap_open()
        },
    )
    .unwrap();

    assert_eq!(open.spec_sha256, closed.spec_sha256);
    assert_ne!(open.snapshot_sha256, closed.snapshot_sha256);
    assert_eq!(open.demands.network, Level::Full);
    assert_eq!(closed.demands.network, Level::Nothing);
}

#[test]
fn every_container_kind_contributes_authority() {
    let spec = r#"{
      "containers":[{"name":"app","image":"registry.internal/app@sha256:a"}],
      "initContainers":[
        {"name":"setup","image":"registry.internal/s@sha256:b",
         "securityContext":{"privileged":true}},
        {"name":"proxy","image":"registry.internal/p@sha256:c","restartPolicy":"Always",
         "securityContext":{"capabilities":{"add":["NET_ADMIN"]}}}
      ],
      "ephemeralContainers":[
        {"name":"debug","image":"registry.internal/d@sha256:e",
         "securityContext":{"capabilities":{"add":["SYS_PTRACE"]}}}
      ]
    }"#;
    let pod = compile_str(spec, &snap_open()).unwrap();

    let sources: Vec<String> = pod
        .rows
        .iter()
        .filter(|r| !matches!(r.effect, Effect::Egress { .. }))
        .map(|r| r.source.to_text())
        .collect();
    assert!(sources.iter().any(|s| s.starts_with("initContainers[setup]")));
    assert!(sources.iter().any(|s| s.starts_with("initContainers(sidecar)[proxy]")));
    assert!(sources.iter().any(|s| s.starts_with("ephemeralContainers[debug]")));

    assert_eq!(pod.demands.execution, Level::Full);
    assert_eq!(pod.demands.filesystem, Level::Full);
}

#[test]
fn secrets_are_found_wherever_they_hide() {
    let spec = r#"{
      "volumes":[
        {"name":"v1","secret":{"secretName":"tls"}},
        {"name":"v2","projected":{"sources":[{"secret":{"secretName":"ca"}}]}}
      ],
      "containers":[{"name":"app","image":"registry.internal/a@sha256:x",
        "env":[{"name":"PW","valueFrom":{"secretKeyRef":{"name":"db","key":"pw"}}}],
        "envFrom":[{"secretRef":{"name":"bulk"}}]}]
    }"#;
    let pod = compile_str(spec, &snap_open()).unwrap();

    let mut found: Vec<String> = pod
        .rows
        .iter()
        .filter_map(|r| match &r.effect {
            Effect::Secret { name, .. } => Some(name.clone()),
            _ => None,
        })
        .collect();
    found.sort();
    assert_eq!(found, ["bulk", "ca", "db", "tls"]);
}

#[test]
fn a_host_path_mount_is_writable_unless_it_says_otherwise() {
    let writable = r#"{"volumes":[{"name":"h","hostPath":{"path":"/var/run"}}],
      "containers":[{"name":"a","image":"registry.internal/a@sha256:x",
        "volumeMounts":[{"name":"h","mountPath":"/host"}]}]}"#;
    let ro = r#"{"volumes":[{"name":"h","hostPath":{"path":"/var/run"}}],
      "containers":[{"name":"a","image":"registry.internal/a@sha256:x",
        "volumeMounts":[{"name":"h","mountPath":"/host","readOnly":true}]}]}"#;

    assert_eq!(compile_str(writable, &snap_open()).unwrap().demands.filesystem, Level::Full);
    assert_eq!(compile_str(ro, &snap_open()).unwrap().demands.filesystem, Level::ReadWrite);
}

#[test]
fn an_unmounted_host_path_is_still_authority() {
    let spec = r#"{"volumes":[{"name":"h","hostPath":{"path":"/"}}],
      "containers":[{"name":"a","image":"registry.internal/a@sha256:x"}]}"#;
    let pod = compile_str(spec, &snap_open()).unwrap();
    assert_eq!(pod.demands.filesystem, Level::Full);
}

#[test]
fn image_doubts_are_distinguished() {
    for (image, want) in [
        ("nginx", Some(ImageDoubt::Floating)),
        ("nginx:latest", Some(ImageDoubt::Floating)),
        ("nginx:1.27", Some(ImageDoubt::NotPinned)),
        ("registry:5000/app", Some(ImageDoubt::Floating)),
        ("registry:5000/app:1.2", Some(ImageDoubt::NotPinned)),
        ("docker.io/nginx@sha256:abc", Some(ImageDoubt::UntrustedSource)),
        ("registry.internal/app@sha256:abc", None),
        ("", Some(ImageDoubt::Floating)),
    ] {
        assert_eq!(image_doubt(image, &snap_open()), want, "{image:?}");
    }
}

#[test]
fn rbac_escalation_lifts_the_exec_demand() {
    let spec = r#"{"serviceAccountName":"ci","containers":[
        {"name":"a","image":"registry.internal/a@sha256:x"}]}"#;
    let snapshot = ClusterSnapshot {
        rbac: vec![RbacRule {
            binding: "ci-can-deploy".into(),
            resource: "pods".into(),
            verbs: vec!["create".into()],
            namespace: Some("ci".into()),
            ..Default::default()
        }],
        ..snap_open()
    };
    let pod = compile_str(spec, &snapshot).unwrap();
    assert_eq!(pod.demands.execution, Level::Full, "creating pods is privilege");
    assert!(pod.has_consequential());

    let row = pod.rows.iter().find(|r| matches!(r.effect, Effect::ApiAccess { .. })).unwrap();
    assert!(row.source.to_text().contains("ci-can-deploy"));
    assert!(row.effect.explain().contains("privileged"));
}

#[test]
fn a_pod_within_its_grant_and_one_that_is_not() {
    let spec = r#"{"containers":[{"name":"a","image":"registry.internal/a@sha256:x",
        "env":[{"name":"P","valueFrom":{"secretKeyRef":{"name":"db","key":"p"}}}]}]}"#;
    let snapshot = ClusterSnapshot {
        egress: Some(EgressPolicy {
            policy_names: vec!["egress-api".into()],
            cidrs: vec!["10.0.0.0/8".into()],
            ..Default::default()
        }),
        ..snap_open()
    };
    let pod = compile_str(spec, &snapshot).unwrap();
    assert_eq!(pod.demands, Grant::new(Level::ReadOnly, Level::Allowlist, Level::Nothing));

    assert!(pod
        .within(&Grant::new(Level::ReadWrite, Level::Allowlist, Level::Sandboxed))
        .is_ok());
    assert!(pod
        .within(&Grant::new(Level::ReadWrite, Level::Loopback, Level::Sandboxed))
        .is_err());
}

#[test]
fn lib_malformed_input_never_panics_and_is_never_harmless() {
    for case in [
        "",
        "{",
        "[]",
        "null",
        r#"{"containers":[{}]}"#,
        r#"{"containers":[{"securityContext":{"capabilities":{"add":["","CAP_"]}}}]}"#,
        r#"{"volumes":[{"name":"h","hostPath":{}}],"containers":[]}"#,
    ] {
        let _ = compile_str(case, &ClusterSnapshot::default());
    }

    let pod = compile_str(r#"{"containers":[{}]}"#, &ClusterSnapshot::default()).unwrap();
    assert_eq!(pod.demands.network, Level::Full);
    assert!(pod.rows.iter().any(|r| matches!(r.effect, Effect::UntrustedImage { .. })));
}

#[test]
fn rows_are_found_by_how_hard_they_are_to_walk_back() {
    let p = compile_str(
        r#"{"hostPID":true,"containers":[{"name":"a","image":"registry.internal/a@sha256:1",
            "securityContext":{"privileged":true}}]}"#,
        &snap_open(),
    )
    .unwrap();
    let worst = p.rows_at(Reversibility::IrreversibleConsequential);
    assert!(worst.iter().any(|r| matches!(r.effect, Effect::Privileged)));
    assert!(p.has_consequential());
    let total = [
        Reversibility::ReversibleCheap,
        Reversibility::IrreversibleBounded,
        Reversibility::IrreversibleConsequential,
    ]
    .into_iter()
    .map(|c| p.rows_at(c).len())
    .sum::<usize>();
    assert_eq!(total, p.rows.len());
    assert!(p.unreadable().is_empty());
}
