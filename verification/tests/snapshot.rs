//! The snapshot that is built from what the caches list.
use lex_k8s::json::Json;
use lex_k8s::map::TextMap;
use lex_k8s::serve::objects::{
    ClusterRole, ClusterRoleBinding, IpBlock, LabelSelector, LabelSelectorRequirement,
    NetworkPolicy, NetworkPolicyEgressRule, NetworkPolicyPeer, NetworkPolicySpec, ObjectMeta,
    PolicyRule, Role, RoleBinding, RoleRef, Subject,
};
use lex_k8s::serve::snapshot::{build, egress_for, rbac_for, selects, PodSubject};

fn labels(pairs: &[(&str, &str)]) -> TextMap {
    let mut m = TextMap::new();
    for (k, v) in pairs {
        m = m.with(k, v);
    }
    m
}

fn subject(pairs: &[(&str, &str)]) -> PodSubject {
    PodSubject {
        namespace: "payments".into(),
        labels: labels(pairs),
        service_account: "api".into(),
    }
}

fn meta(name: &str, namespace: Option<&str>, version: Option<&str>) -> ObjectMeta {
    ObjectMeta {
        name: Some(name.into()),
        namespace: namespace.map(String::from),
        resource_version: version.map(String::from),
    }
}

fn everything() -> LabelSelector {
    LabelSelector { match_labels: None, match_expressions: None }
}

fn to_block(cidr: &str) -> NetworkPolicyEgressRule {
    NetworkPolicyEgressRule {
        to: Some(vec![NetworkPolicyPeer {
            ip_block: Some(IpBlock { cidr: cidr.into(), except: None }),
            pod_selector: None,
            namespace_selector: None,
        }]),
    }
}

fn np(name: &str, selector: LabelSelector, egress: Vec<NetworkPolicyEgressRule>) -> NetworkPolicy {
    NetworkPolicy {
        metadata: meta(name, Some("payments"), Some("42")),
        spec: Some(NetworkPolicySpec {
            pod_selector: Some(selector),
            policy_types: Some(vec!["Egress".into()]),
            egress: Some(egress),
        }),
    }
}

#[test]
fn no_policy_selecting_the_pod_is_unrestricted_not_empty() {
    let elsewhere = np(
        "other-app",
        LabelSelector { match_labels: Some(labels(&[("app", "web")])), match_expressions: None },
        vec![to_block("10.0.0.0/8")],
    );
    assert_eq!(
        egress_for(&subject(&[("app", "api")]), &vec![elsewhere]),
        None,
        "a policy that does not select the pod must leave it unrestricted"
    );
}

#[test]
fn an_empty_selector_selects_every_pod() {
    let deny_all = np("default-deny", everything(), vec![]);
    let e = egress_for(&subject(&[("app", "api")]), &vec![deny_all])
        .expect("the empty selector selects this pod");
    assert!(e.deny_all, "selected with nothing permitted is a deny-all");
    assert!(e.permits_nothing());
}

#[test]
fn an_ingress_only_policy_does_not_govern_egress() {
    let ingress = NetworkPolicy {
        metadata: meta("web-in", Some("payments"), None),
        spec: Some(NetworkPolicySpec {
            pod_selector: Some(everything()),
            policy_types: Some(vec!["Ingress".into()]),
            egress: None,
        }),
    };
    assert_eq!(egress_for(&subject(&[]), &vec![ingress]), None);
}

#[test]
fn a_rule_with_no_destination_is_wide_open() {
    let open = np("allow-all", everything(), vec![NetworkPolicyEgressRule { to: None }]);
    let e = egress_for(&subject(&[]), &vec![open]).expect("selected");
    assert!(e.is_unrestricted(), "a rule with no `to` permits everything");
    assert!(!e.deny_all);
}

#[test]
fn one_open_rule_in_any_policy_opens_the_pod() {
    let narrow = np("db-only", everything(), vec![to_block("10.0.0.0/8")]);
    let open = np("debug", everything(), vec![to_block("0.0.0.0/0")]);
    let e = egress_for(&subject(&[]), &vec![narrow, open]).expect("selected");
    assert!(e.is_unrestricted());
    assert_eq!(e.policy_names.len(), 2, "both policies are named in the record");
}

#[test]
fn narrow_rules_alone_are_not_unrestricted() {
    let narrow = np("db-only", everything(), vec![to_block("10.0.0.0/8")]);
    let e = egress_for(&subject(&[]), &vec![narrow]).expect("selected");
    assert!(!e.is_unrestricted());
    assert!(!e.permits_nothing());
}

#[test]
fn match_expressions_are_honoured() {
    let labels = labels(&[("app", "api"), ("tier", "backend")]);
    let sel = |op: &str, key: &str, values: Option<Vec<&str>>| LabelSelector {
        match_labels: None,
        match_expressions: Some(vec![LabelSelectorRequirement {
            key: key.into(),
            operator: op.into(),
            values: values.map(|v| v.into_iter().map(String::from).collect()),
        }]),
    };

    assert!(selects(&sel("In", "app", Some(vec!["api", "web"])), &labels));
    assert!(!selects(&sel("In", "app", Some(vec!["web"])), &labels));
    assert!(selects(&sel("NotIn", "app", Some(vec!["web"])), &labels));
    assert!(!selects(&sel("NotIn", "app", Some(vec!["api"])), &labels));
    assert!(selects(&sel("Exists", "tier", None), &labels));
    assert!(!selects(&sel("Exists", "zone", None), &labels));
    assert!(selects(&sel("DoesNotExist", "zone", None), &labels));
    assert!(!selects(&sel("DoesNotExist", "app", None), &labels));
    assert!(selects(&sel("Gt", "app", None), &labels), "an unknown operator brings a policy to bear");
}

fn rules(resource: &str, verbs: &[&str]) -> Option<Vec<PolicyRule>> {
    Some(vec![PolicyRule {
        api_groups: Some(vec!["".into()]),
        resources: Some(vec![resource.into()]),
        verbs: verbs.iter().map(|v| v.to_string()).collect(),
    }])
}

fn role(name: &str, resource: &str, verbs: &[&str]) -> Role {
    Role { metadata: meta(name, Some("payments"), None), rules: rules(resource, verbs) }
}

fn cluster_role(name: &str, resource: &str, verbs: &[&str]) -> ClusterRole {
    ClusterRole { metadata: meta(name, None, None), rules: rules(resource, verbs) }
}

fn account(name: &str) -> Option<Vec<Subject>> {
    Some(vec![Subject {
        kind: "ServiceAccount".into(),
        name: name.into(),
        namespace: Some("payments".into()),
    }])
}

fn binding(name: &str, kind: &str, role: &str, subject_name: &str) -> RoleBinding {
    RoleBinding {
        metadata: meta(name, Some("payments"), None),
        role_ref: RoleRef { kind: kind.into(), name: role.into() },
        subjects: account(subject_name),
    }
}

#[test]
fn a_binding_that_does_not_name_the_account_grants_nothing() {
    let rules = rbac_for(
        &subject(&[]),
        &vec![role("reader", "configmaps", &["get"])],
        &vec![],
        &vec![binding("other", "Role", "reader", "someone-else")],
        &vec![],
    );
    assert!(rules.is_empty(), "no binding names this ServiceAccount");
}

#[test]
fn a_rolebinding_is_namespaced_and_a_clusterrolebinding_is_not() {
    let crb = ClusterRoleBinding {
        metadata: meta("cluster-reader", None, None),
        role_ref: RoleRef { kind: "ClusterRole".into(), name: "secret-reader".into() },
        subjects: account("api"),
    };

    let rules = rbac_for(
        &subject(&[]),
        &vec![role("reader", "configmaps", &["get"])],
        &vec![cluster_role("secret-reader", "secrets", &["get"])],
        &vec![binding("local", "Role", "reader", "api")],
        &vec![crb],
    );

    let scoped =
        rules.iter().find(|r| r.resource == "configmaps").expect("the RoleBinding's rule");
    assert_eq!(scoped.namespace.as_deref(), Some("payments"));
    assert!(!scoped.cluster_wide());

    let wide =
        rules.iter().find(|r| r.resource == "secrets").expect("the ClusterRoleBinding's rule");
    assert!(wide.cluster_wide(), "a ClusterRoleBinding is cluster-wide");
    assert!(wide.escalation_path().is_some());
}

#[test]
fn a_rolebinding_to_a_clusterrole_keeps_the_bindings_scope() {
    let rules = rbac_for(
        &subject(&[]),
        &vec![],
        &vec![cluster_role("view", "pods", &["get", "list"])],
        &vec![binding("view-here", "ClusterRole", "view", "api")],
        &vec![],
    );
    let r = rules.first().expect("one rule");
    assert_eq!(r.resource, "pods");
    assert_eq!(r.namespace.as_deref(), Some("payments"), "scoped by the binding");
}

#[test]
fn a_group_binding_covers_the_accounts_in_it() {
    let crb = ClusterRoleBinding {
        metadata: meta("everyone", None, None),
        role_ref: RoleRef { kind: "ClusterRole".into(), name: "admin".into() },
        subjects: Some(vec![Subject {
            kind: "Group".into(),
            name: "system:serviceaccounts:payments".into(),
            namespace: None,
        }]),
    };
    let rules = rbac_for(
        &subject(&[]),
        &vec![],
        &vec![cluster_role("admin", "*", &["*"])],
        &vec![],
        &vec![crb],
    );
    assert_eq!(rules.len(), 1);
    assert!(rules[0].escalation_path().is_some(), "`*` on `*` is unrestricted authority");
}

#[test]
fn an_unresolvable_role_is_recorded_rather_than_dropped() {
    let rules = rbac_for(
        &subject(&[]),
        &vec![],
        &vec![],
        &vec![binding("dangling", "Role", "gone", "api")],
        &vec![],
    );
    let r = rules.first().expect("the binding is still recorded");
    assert_eq!(r.resource, "<unresolved>");
    assert!(r.binding.contains("not in cache"));
    assert!(r.verbs.is_empty(), "unknown rules are not invented");
}

#[test]
fn the_service_account_defaults_the_way_kubernetes_does() {
    let none = PodSubject::from_object("payments", &Json::parse(r#"{"spec": {}}"#).unwrap());
    assert_eq!(none.service_account, "default");

    let modern = PodSubject::from_object(
        "payments",
        &Json::parse(r#"{"spec": {"serviceAccountName": "api"}}"#).unwrap(),
    );
    assert_eq!(modern.service_account, "api");

    let legacy = PodSubject::from_object(
        "payments",
        &Json::parse(r#"{"spec": {"serviceAccount": "api"}}"#).unwrap(),
    );
    assert_eq!(legacy.service_account, "api");
}

#[test]
fn labels_that_are_no_text_are_left_out() {
    let s = PodSubject::from_object(
        "payments",
        &Json::parse(r#"{"metadata":{"labels":{"b":"2","a":"1","n":3}}}"#).unwrap(),
    );
    assert_eq!(s.labels, labels(&[("a", "1"), ("b", "2")]));
}

#[test]
fn the_snapshot_pins_the_revision_it_read() {
    let older = np("db-only", everything(), vec![to_block("10.0.0.0/8")]);
    let mut newer = older.clone();
    newer.metadata.resource_version = Some("99".into());

    let s = &subject(&[]);
    let none = || vec![];
    let a = build(s, &vec![older], &vec![], &vec![], &vec![], &vec![], none());
    let b = build(s, &vec![newer], &vec![], &vec![], &vec![], &vec![], none());

    assert!(a.provenance.get("networkPolicies").unwrap().ends_with("@42"));
    assert!(b.provenance.get("networkPolicies").unwrap().ends_with("@99"));
    assert_ne!(a.content_id(), b.content_id(), "a different revision is different state");
}

#[test]
fn the_record_says_when_nothing_selected_the_pod() {
    let s = build(&subject(&[]), &vec![], &vec![], &vec![], &vec![], &vec![], vec![]);
    assert_eq!(s.egress, None);
    assert_eq!(s.provenance.get("networkPolicies").unwrap(), "none selected");
    assert_eq!(s.provenance.get("serviceAccount").unwrap(), "api");
}

#[test]
fn what_a_cache_lists_first_makes_no_difference() {
    let one = np("b-one", everything(), vec![to_block("10.0.0.0/8"), to_block("10.0.0.0/8")]);
    let two = np("a-two", everything(), vec![to_block("192.168.0.0/16")]);
    let s = subject(&[]);
    let a = build(
        &s,
        &vec![one.clone(), two.clone()],
        &vec![role("r1", "pods", &["get"]), role("r2", "secrets", &["get"])],
        &vec![],
        &vec![binding("x", "Role", "r1", "api"), binding("y", "Role", "r2", "api")],
        &vec![],
        vec![],
    );
    let b = build(
        &s,
        &vec![two, one],
        &vec![role("r1", "pods", &["get"]), role("r2", "secrets", &["get"])],
        &vec![],
        &vec![binding("y", "Role", "r2", "api"), binding("x", "Role", "r1", "api")],
        &vec![],
        vec![],
    );
    assert_eq!(a, b);
    let e = a.egress.unwrap();
    assert_eq!(e.policy_names, ["payments/a-two", "payments/b-one"]);
    assert_eq!(e.cidrs, ["10.0.0.0/8", "192.168.0.0/16"]);
}

#[test]
fn selectors_and_holes_are_named() {
    let rule = NetworkPolicyEgressRule {
        to: Some(vec![
            NetworkPolicyPeer {
                ip_block: Some(IpBlock {
                    cidr: "10.0.0.0/8".into(),
                    except: Some(vec!["10.1.0.0/16".into()]),
                }),
                pod_selector: None,
                namespace_selector: None,
            },
            NetworkPolicyPeer {
                ip_block: None,
                pod_selector: Some(LabelSelector {
                    match_labels: Some(labels(&[("app", "db"), ("tier", "x")])),
                    match_expressions: None,
                }),
                namespace_selector: Some(everything()),
            },
        ]),
    };
    let e = egress_for(&subject(&[]), &vec![np("p", everything(), vec![rule])]).unwrap();
    assert_eq!(e.selectors, ["except 10.1.0.0/16", "namespaces (all)", "pods app=db,tier=x"]);
}
