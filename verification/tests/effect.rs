//! Effects and what they demand.
use lex_k8s::effect::{is_dangerous_capability, join, Effect, Reach, SecretVia, Source};
use lex_k8s::grant::{Grant, Level, Reversibility};
use lex_k8s::spec::ContainerKind;

#[test]
fn capability_names_match_however_they_are_spelled() {
    for spelling in ["SYS_ADMIN", "CAP_SYS_ADMIN", "cap_sys_admin", " sys_admin "] {
        assert!(is_dangerous_capability(spelling), "{spelling}");
    }
    assert!(!is_dangerous_capability("NET_BIND_SERVICE"));
    assert!(!is_dangerous_capability("CHOWN"));
}

#[test]
fn a_read_only_host_path_outranks_a_mounted_secret() {
    let secret = Effect::Secret { name: "db".into(), via: SecretVia::Volume }.demands();
    let host_ro =
        Effect::HostPath { path: "/var/lib/kubelet".into(), writable: false }.demands();
    let host_rw = Effect::HostPath { path: "/".into(), writable: true }.demands();

    assert!(secret.filesystem.rank() < host_ro.filesystem.rank());
    assert!(host_ro.filesystem.rank() < host_rw.filesystem.rank());
    assert_eq!(host_rw.filesystem, Level::Full);
}

#[test]
fn no_network_policy_demands_full_network() {
    let none = Effect::Egress { reach: Reach::NoPolicy, policies: vec![] };
    assert_eq!(none.demands().network, Level::Full);
    assert_eq!(none.reversibility(), Reversibility::IrreversibleConsequential);
    assert!(none.explain().contains("default is open"));

    let open = Effect::Egress { reach: Reach::Unrestricted, policies: vec!["allow-all".into()] };
    assert_eq!(open.demands().network, Level::Full);
    assert_ne!(none.name(), open.name());
}

#[test]
fn an_unreadable_field_demands_everything() {
    let d = Effect::Unreadable { detail: "securityContext is not an object".into() }.demands();
    assert_eq!(d, Grant::new(Level::Full, Level::Full, Level::Full));
}

#[test]
fn a_pods_demand_is_the_join_of_its_effects() {
    let demanded = [
        Effect::Secret { name: "db".into(), via: SecretVia::Env },
        Effect::Egress { reach: Reach::Allowlist, policies: vec!["egress-api".into()] },
        Effect::Capability { name: "NET_BIND_SERVICE".into(), dangerous: false },
    ]
    .iter()
    .map(Effect::demands)
    .fold(Grant::new(Level::Nothing, Level::Nothing, Level::Nothing), join);

    assert_eq!(demanded, Grant::new(Level::ReadOnly, Level::Allowlist, Level::Sandboxed));
}

#[test]
fn a_source_reads_like_something_you_can_grep_for() {
    assert_eq!(Source::pod("hostNetwork").to_text(), "spec.hostNetwork");
    assert_eq!(
        Source::container(ContainerKind::Sidecar, "proxy", "securityContext.privileged").to_text(),
        "initContainers(sidecar)[proxy].securityContext.privileged"
    );
}
