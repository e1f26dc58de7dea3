//! Snapshots and what they permit.
use lex_k8s::cluster::{ClusterSnapshot, EgressPolicy, RbacRule};
use lex_k8s::json::Writable;

#[test]
fn a_slash_zero_cidr_is_unrestricted_however_it_is_spelled() {
    for cidr in ["0.0.0.0/0", "::/0", " 0.0.0.0/0 "] {
        let p = EgressPolicy { cidrs: vec![cidr.into()], ..Default::default() };
        assert!(p.is_unrestricted(), "{cidr}");
    }
    let narrow = EgressPolicy { cidrs: vec!["10.0.0.0/8".into()], ..Default::default() };
    assert!(!narrow.is_unrestricted());
}

#[test]
fn one_open_rule_opens_the_pod() {
    let p = EgressPolicy {
        cidrs: vec!["10.0.0.0/8".into(), "192.168.0.0/16".into(), "0.0.0.0/0".into()],
        ..Default::default()
    };
    assert!(p.is_unrestricted());
}

#[test]
fn a_policy_permitting_nothing_is_a_deny_all() {
    assert!(EgressPolicy::default().permits_nothing());
    assert!(EgressPolicy {
        deny_all: true,
        cidrs: vec!["10.0.0.0/8".into()],
        ..Default::default()
    }
    .permits_nothing());
}

#[test]
fn escalation_paths_are_named_individually() {
    let secrets = RbacRule {
        resource: "secrets".into(),
        verbs: vec!["get".into()],
        namespace: Some("prod".into()),
        ..Default::default()
    };
    assert!(secrets.escalation_path().unwrap().contains("Secrets"));

    let pods =
        RbacRule { resource: "pods".into(), verbs: vec!["create".into()], ..Default::default() };
    assert!(pods.escalation_path().unwrap().contains("privileged"));

    let star = RbacRule { resource: "*".into(), verbs: vec!["*".into()], ..Default::default() };
    assert!(star.escalation_path().is_some());

    let benign = RbacRule {
        resource: "configmaps".into(),
        verbs: vec!["get".into(), "list".into()],
        namespace: Some("prod".into()),
        ..Default::default()
    };
    assert_eq!(benign.escalation_path(), None);
    assert!(!benign.is_write());
}

#[test]
fn a_star_verb_permits_everything() {
    let r = RbacRule { resource: "secrets".into(), verbs: vec!["*".into()], ..Default::default() };
    assert!(r.permits("get") && r.permits("delete") && r.is_write());
}

#[test]
fn an_empty_trust_list_trusts_nothing() {
    let snap = ClusterSnapshot::default();
    assert!(!snap.trusts_image("registry.internal/app@sha256:abc"));

    let with = ClusterSnapshot {
        trusted_image_prefixes: vec!["registry.internal/".into()],
        ..Default::default()
    };
    assert!(with.trusts_image("registry.internal/app@sha256:abc"));
    assert!(!with.trusts_image("docker.io/library/nginx:latest"));
}

#[test]
fn the_snapshot_id_changes_with_the_state() {
    let a = ClusterSnapshot::default();
    let b = ClusterSnapshot {
        rbac: vec![RbacRule {
            resource: "pods".into(),
            verbs: vec!["create".into()],
            ..Default::default()
        }],
        ..Default::default()
    };
    assert_ne!(a.content_id(), b.content_id());
    assert_eq!(a.content_id().len(), 64);
}

#[test]
fn a_snapshot_reads_back_what_it_wrote() {
    let a = ClusterSnapshot {
        egress: Some(EgressPolicy {
            policy_names: vec!["p/q".into()],
            cidrs: vec!["10.0.0.0/8".into()],
            selectors: vec!["pods app=\"x\"\n".into()],
            deny_all: false,
        }),
        rbac: vec![RbacRule {
            binding: "b".into(),
            resource: "pods".into(),
            verbs: vec!["create".into()],
            namespace: Some("n".into()),
            ..Default::default()
        }],
        trusted_image_prefixes: vec!["registry.internal/".into()],
        ..Default::default()
    };
    let text = a.to_json().to_text();
    assert_eq!(ClusterSnapshot::from_json(&text).unwrap(), a);
}

#[test]
fn a_document_that_is_no_snapshot_is_refused() {
    assert!(ClusterSnapshot::from_json("not json").is_err());
    assert!(ClusterSnapshot::from_json(r#"{"rbac":3}"#).is_err());
}

#[test]
fn a_prefix_length_of_zero_is_open_whatever_stands_before_it() {
    for cidr in ["0:0:0:0:0:0:0:0/0", "0000::/0", "0.0.0.0/00", "10.1.2.3/0", "\t::/0\n"] {
        let p = EgressPolicy { cidrs: vec![cidr.into()], ..Default::default() };
        assert!(p.is_unrestricted(), "{cidr}");
    }
    for cidr in ["10.0.0.0/10", "::/1", "0.0.0.0", "0", "/", "10.0.0.0/", "0/0/8", "::/0x", ""] {
        let p = EgressPolicy { cidrs: vec![cidr.into()], ..Default::default() };
        assert!(!p.is_unrestricted(), "{cidr}");
    }
}

#[test]
fn a_field_given_twice_is_refused() {
    for (src, field, column) in [
        (r#"{"egress":null,"rbac":[],"egress":{"deny_all":true}}"#, "egress", 33),
        (r#"{ "\u0065gress" : null , "egress" : null }"#, "egress", 34),
        (r#"{"egress":{"cidrs":[],"deny_all":true,"cidrs":["0.0.0.0/0"]}}"#, "cidrs", 45),
        (r#"{"rbac":[{"verbs":["get"]}, {"verbs":["get"],"verbs":["*"]}]}"#, "verbs", 52),
    ] {
        let want = format!("duplicate field `{field}` at line 1 column {column}");
        assert_eq!(ClusterSnapshot::from_json(src), Err(want), "{src}");
    }
    // A map takes the last entry, a field that is not known is no field, and a text is no name.
    for src in [
        r#"{"provenance":{"a":"1","a":"2"}}"#,
        r#"{"note":1,"note":2}"#,
        r#"{"note":{"egress":1,"egress":2},"egress":null}"#,
        r#"{"trusted_image_prefixes":["{\"egress\":1","\"egress\":"],"egress":null}"#,
        r#"{"rbac":[{"verbs":["get"]},{"verbs":["get"]}]}"#,
        "{}",
        "[]",
        " \n{ }",
    ] {
        assert!(ClusterSnapshot::from_json(src).is_ok(), "{src}");
    }
}
