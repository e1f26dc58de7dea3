//! The two webhooks: what is answered, and when nothing is decided.
use lex_k8s::admission::Verdict;
use lex_k8s::ledger::LedgerEvent;
use lex_k8s::manifest::Budget;
use lex_k8s::review::{AdmissionRequest, AdmissionReview};
use lex_k8s::serve::cache::{manifest_by_reference, manifest_for, ManifestLookup, Readiness};
use lex_k8s::serve::handlers::{
    begin_narrow, finish_narrow, judge, place_ceiling, read_ceiling, read_request, record_name,
    sanitise, witness_pod, Listed, NarrowStep,
};
use lex_k8s::serve::objects::{
    IpBlock, LabelSelector, NetworkPolicy, NetworkPolicyEgressRule, NetworkPolicyPeer,
    NetworkPolicySpec, ObjectMeta,
};

const DEFAULT: Budget =
    Budget { wall_clock_secs: 1, max_commands: 1, max_money_cents: 0, max_api_calls: 1 };

const WARM: Readiness = Readiness {
    manifests: true,
    policies: true,
    roles: true,
    cluster_roles: true,
    role_bindings: true,
    cluster_role_bindings: true,
};

const PAYMENTS: &str = r#"{"metadata":{"name":"payments","namespace":"payments"},
    "spec":{"grant":{"egress":["postgres.payments.svc"],"imagePrefixes":["registry.internal/"]}}}"#;

fn pod_request(image: &str) -> AdmissionRequest {
    let body = format!(
        r#"{{"request":{{"uid":"u-1/x","namespace":"payments","name":"api",
            "userInfo":{{"username":"someone"}},
            "object":{{"spec":{{"containers":[{{"name":"api","image":"{image}"}}]}}}}}}}}"#
    );
    read_request(&body).unwrap()
}

fn manifest_request(object: &str) -> AdmissionRequest {
    let body = format!(
        r#"{{"request":{{"uid":"u-2","namespace":"payments","userInfo":{{"username":"lead"}},
            "object":{object}}}}}"#
    );
    read_request(&body).unwrap()
}

fn meta(name: &str, namespace: Option<&str>) -> ObjectMeta {
    ObjectMeta {
        name: Some(name.into()),
        namespace: namespace.map(String::from),
        resource_version: None,
    }
}

fn listed(policies: Vec<NetworkPolicy>) -> Listed {
    Listed {
        policies,
        roles: vec![],
        cluster_roles: vec![],
        role_bindings: vec![],
        cluster_role_bindings: vec![],
    }
}

fn egress_to(cidr: &str) -> NetworkPolicy {
    NetworkPolicy {
        metadata: meta("db-only", Some("payments")),
        spec: Some(NetworkPolicySpec {
            pod_selector: Some(LabelSelector { match_labels: None, match_expressions: None }),
            policy_types: Some(vec!["Egress".into()]),
            egress: Some(vec![NetworkPolicyEgressRule {
                to: Some(vec![NetworkPolicyPeer {
                    ip_block: Some(IpBlock { cidr: cidr.into(), except: None }),
                    pod_selector: None,
                    namespace_selector: None,
                }]),
            }]),
        }),
    }
}

fn status(review: &AdmissionReview) -> (bool, Option<u16>, String) {
    let r = review.response.as_ref().unwrap();
    match &r.status {
        Some(s) => (r.allowed, Some(s.code), s.message.clone()),
        None => (r.allowed, None, r.warnings.join(";")),
    }
}

#[test]
fn a_body_without_a_request_is_an_http_error() {
    assert!(read_request("{").unwrap_err().ends_with('\n'));
    assert!(read_request("{}").unwrap_err().ends_with('\n'));
    assert!(read_request(r#"{"request":null}"#).unwrap_err().ends_with('\n'));
}

#[test]
fn the_probe_names_what_is_cold() {
    assert_eq!(WARM.report(), (200, "ready\n".to_string()));
    let cold = Readiness { policies: false, role_bindings: false, ..WARM };
    assert_eq!(cold.cold(), ["networkpolicies", "rolebindings"]);
    assert_eq!(
        cold.report(),
        (503, "caches still cold: networkpolicies, rolebindings\n".to_string())
    );
}

#[test]
fn a_cold_cache_never_decides() {
    let q = pod_request("registry.internal/api@sha256:aa");
    let cold = Readiness { cluster_roles: false, ..WARM };
    let a = place_ceiling(&q, &cold, &vec![meta("payments", Some("payments"))]).unwrap_err();
    let (allowed, code, message) = status(&a);
    assert!(!allowed);
    assert_eq!(code, Some(500));
    assert!(message.contains("still cold (clusterroles), so the cluster state is unknown"));
    assert_eq!(a.response.unwrap().uid, "u-1/x", "answered under the request's own uid");
}

#[test]
fn exactly_one_manifest_governs_a_namespace() {
    let q = pod_request("registry.internal/api@sha256:aa");
    let one = vec![meta("other", Some("web")), meta("payments", Some("payments"))];
    assert_eq!(place_ceiling(&q, &WARM, &one), Ok(1));

    let none = place_ceiling(&q, &WARM, &vec![meta("payments", Some("web"))]).unwrap_err();
    assert_eq!(status(&none).1, Some(500));
    assert!(status(&none).2.contains("no LexManifest governs namespace `payments`"));

    let two = vec![meta("b", Some("payments")), meta("a", Some("payments"))];
    assert_eq!(
        manifest_for(&two, "payments"),
        ManifestLookup::Ambiguous(vec!["a".into(), "b".into()])
    );
    let several = place_ceiling(&q, &WARM, &two).unwrap_err();
    assert!(status(&several).2.contains("namespace `payments` has 2 LexManifests (a, b)"));
}

#[test]
fn a_reference_names_a_manifest_and_its_namespace() {
    let all = vec![
        meta("platform", Some("web")),
        meta("platform", Some("lex-system")),
        meta("bare", None),
        meta("empty", Some("")),
    ];
    let found = |reference: &str| manifest_by_reference(&all, reference, "lex-system");
    assert_eq!(found("cluster/platform"), Some(1));
    assert_eq!(found("web/platform"), Some(0));
    assert_eq!(found("cluster/bare"), Some(2));
    assert_eq!(found("cluster/empty"), Some(3));
    assert_eq!(found("web/bare"), None);
    assert_eq!(found("platform"), None);
    assert_eq!(found("cluster/absent"), None);
}

#[test]
fn a_ceiling_that_cannot_be_read_decides_nothing() {
    let q = pod_request("registry.internal/api@sha256:aa");
    assert!(read_ceiling(&q, PAYMENTS, DEFAULT).is_ok());
    let a = read_ceiling(&q, "{}", DEFAULT).unwrap_err();
    assert_eq!(status(&a).1, Some(500));
    assert!(status(&a).2.contains("this namespace has no usable ceiling"));
}

#[test]
fn a_pod_is_judged_on_what_the_caches_list() {
    let q = pod_request("registry.internal/api@sha256:aa");
    let m = read_ceiling(&q, PAYMENTS, DEFAULT).unwrap();
    let trusted = vec!["registry.internal/".to_string()];
    let narrow =
        judge(&q, &m, "m", &listed(vec![egress_to("10.0.0.0/8")]), &trusted, None, None).unwrap();
    assert!(narrow.decision.verdict.allowed(), "{:?}", narrow.decision.verdict);
    assert_eq!(narrow.snapshot_sha256, narrow.decision.pod.snapshot_sha256);

    let open =
        judge(&q, &m, "m", &listed(vec![egress_to("0.0.0.0/0")]), &trusted, None, None).unwrap();
    assert!(!open.decision.verdict.allowed());
    let nothing = judge(&q, &m, "m", &listed(vec![]), &trusted, None, None).unwrap();
    assert!(!nothing.decision.verdict.allowed(), "no policy is no restriction");
    assert_ne!(open.snapshot_sha256, nothing.snapshot_sha256);
}

#[test]
fn what_is_no_pod_is_answered_and_not_decided() {
    let body = r#"{"request":{"uid":"u","namespace":"payments","object":{"kind":"ConfigMap"}}}"#;
    let q = read_request(body).unwrap();
    let m = read_ceiling(&q, PAYMENTS, DEFAULT).unwrap();
    let a = judge(&q, &m, "m", &listed(vec![]), &vec![], None, None).unwrap_err();
    assert_eq!(status(&a).1, Some(500));
}

#[test]
fn a_decision_is_witnessed_by_its_head() {
    let q = pod_request("registry.internal/api@sha256:aa");
    let m = read_ceiling(&q, PAYMENTS, DEFAULT).unwrap();
    let trusted = vec!["registry.internal/".to_string()];
    let j = judge(&q, &m, "m", &listed(vec![]), &trusted, None, None).unwrap();
    assert!(matches!(j.decision.verdict, Verdict::Deny { .. }));
    assert_eq!(
        witness_pod(&q, &j, "head", 2),
        LedgerEvent::PodDecided {
            uid: "u-1/x".into(),
            namespace: "payments".into(),
            name: "api".into(),
            verdict: "refused".into(),
            decision_head: "head".into(),
            decision_entries: 2,
            snapshot_sha256: j.snapshot_sha256.clone(),
            signer: Some("someone".into()),
        }
    );
}

#[test]
fn a_manifest_without_a_parent_has_nothing_to_narrow() {
    let q = manifest_request(PAYMENTS);
    let NarrowStep::Answer(a) = begin_narrow(&q, DEFAULT, false, &vec![], "lex-system") else {
        panic!("nothing to compare with")
    };
    assert_eq!(status(&a), (true, None, "no parent named; nothing to narrow against".into()));
}

#[test]
fn an_unresolvable_parent_is_a_refusal() {
    let child = r#"{"spec":{"parent":"cluster/platform","grant":{}}}"#;
    let q = manifest_request(child);
    let NarrowStep::Answer(cold) = begin_narrow(&q, DEFAULT, false, &vec![], "lex-system") else {
        panic!("a cold cache resolves nothing")
    };
    assert_eq!(status(&cold).1, Some(500), "not listed yet is not absent");

    let NarrowStep::Answer(absent) = begin_narrow(&q, DEFAULT, true, &vec![], "lex-system") else {
        panic!("there is no such parent")
    };
    assert_eq!(status(&absent).1, Some(403));
    assert!(status(&absent).2.starts_with("parent `cluster/platform` is not in the cluster."));

    let q = manifest_request(r#"{"spec":{"grant":{},"isolationFloor":"microvm"}}"#);
    let NarrowStep::Answer(bad) = begin_narrow(&q, DEFAULT, true, &vec![], "lex-system") else {
        panic!("it cannot be read")
    };
    assert_eq!(status(&bad).1, Some(403));
}

#[test]
fn a_manifest_is_held_to_the_parent_it_names() {
    let places = vec![meta("platform", Some("lex-system"))];
    let parent = r#"{"metadata":{"name":"platform","namespace":"lex-system"},
        "spec":{"grant":{"secrets":["db"]}}}"#;
    for (secrets, allowed, verdict) in
        [(r#"["db"]"#, true, "narrows"), (r#"["db","root"]"#, false, "widens")]
    {
        let child = format!(
            r#"{{"metadata":{{"name":"payments","namespace":"payments"}},
                "spec":{{"parent":"cluster/platform","grant":{{"secrets":{secrets}}}}}}}"#
        );
        let q = manifest_request(&child);
        let NarrowStep::Compare { child, resolved, reference, parent: at } =
            begin_narrow(&q, DEFAULT, true, &places, "lex-system")
        else {
            panic!("the parent is listed")
        };
        assert_eq!((at, reference.as_str()), (0, "cluster/platform"));
        let n = finish_narrow(&q, &child, &resolved, &reference, parent, DEFAULT).unwrap();
        assert_eq!(status(&n.answer).0, allowed);
        let LedgerEvent::ManifestDecided { verdict: said, child, parent, signer, reason, .. } =
            n.event
        else {
            panic!("a manifest was decided")
        };
        assert_eq!(said, verdict);
        assert_eq!(child, "payments/payments");
        assert_eq!(parent.as_deref(), Some("cluster/platform"));
        assert_eq!(signer.as_deref(), Some("lead"));
        assert_eq!(reason.is_none(), allowed);

        let unread = finish_narrow(
            &q,
            &lex_k8s::LexManifest::from_json(PAYMENTS).unwrap(),
            &resolved,
            &reference,
            "{}",
            DEFAULT,
        )
        .unwrap_err();
        assert_eq!(status(&unread).1, Some(403));
        assert!(status(&unread).2.starts_with("parent `cluster/platform` cannot be read: "));
    }
}

#[test]
fn a_record_is_named_by_time_and_request() {
    assert_eq!(sanitise("a/B-9_é"), "a-B-9--");
    assert_eq!(record_name(1700000000, "u-1/x"), "1700000000-u-1-x.json");
}
