//! The facet: what a manifest grants by name.
use lex_k8s::effect::{Effect, ImageDoubt, Reach, SecretVia};
use lex_k8s::facet::PodFacet;
use lex_k8s::grant::Level;

fn facet() -> PodFacet {
    PodFacet {
        egress: vec!["postgres.payments.svc".into(), "api.stripe.com:443".into()],
        secrets: vec!["stripe-live-key".into()],
        capabilities: vec!["NET_BIND_SERVICE".into()],
        ..Default::default()
    }
}

#[test]
fn a_named_secret_is_admitted_and_an_unnamed_one_is_not() {
    let f = facet();
    assert!(f
        .admits(&Effect::Secret { name: "stripe-live-key".into(), via: SecretVia::Volume })
        .is_ok());

    let denial = f
        .admits(&Effect::Secret { name: "root-ca-key".into(), via: SecretVia::Env })
        .unwrap_err();
    assert!(denial.to_text().contains("root-ca-key"));
    assert!(denial.to_text().contains("stripe-live-key"));
}

#[test]
fn capabilities_match_however_either_side_spells_them() {
    let f = PodFacet { capabilities: vec!["CAP_NET_BIND_SERVICE".into()], ..Default::default() };
    for spelling in ["NET_BIND_SERVICE", "CAP_NET_BIND_SERVICE", "net_bind_service"] {
        assert!(
            f.admits(&Effect::Capability { name: spelling.into(), dangerous: false }).is_ok(),
            "{spelling}"
        );
    }
    assert!(f.admits(&Effect::Capability { name: "SYS_ADMIN".into(), dangerous: true }).is_err());
}

#[test]
fn an_allowlist_cannot_admit_unbounded_egress() {
    let f = facet();
    assert!(f
        .admits(&Effect::Egress {
            reach: Reach::Allowlist,
            policies: vec!["payments-egress".into()]
        })
        .is_ok());

    for open in [Reach::Unrestricted, Reach::NoPolicy] {
        let denial = f.admits(&Effect::Egress { reach: open, policies: vec![] }).unwrap_err();
        assert!(
            denial.to_text().contains("api.stripe.com:443"),
            "the refusal names what the manifest does grant: {}",
            denial.to_text()
        );
    }
}

#[test]
fn host_network_is_governed_by_namespaces_not_egress() {
    let generous_egress = PodFacet { egress: vec!["0.0.0.0/0".into()], ..Default::default() };
    assert!(generous_egress.admits(&Effect::HostNetwork).is_err());

    let allows = PodFacet { host_namespaces: true, ..Default::default() };
    assert!(allows.admits(&Effect::HostNetwork).is_ok());
}

#[test]
fn an_empty_allowlist_grants_nothing_rather_than_everything() {
    let f = PodFacet::default();
    let denial =
        f.admits(&Effect::Secret { name: "anything".into(), via: SecretVia::Env }).unwrap_err();
    assert!(denial.to_text().contains("grants none"), "{}", denial.to_text());
    assert!(f.admits(&Effect::Privileged).is_err());
    assert!(f.admits(&Effect::HostPath { path: "/".into(), writable: true }).is_err());
}

#[test]
fn an_empty_image_list_is_no_policy() {
    let doubtful =
        Effect::UntrustedImage { image: "docker.io/nginx".into(), why: ImageDoubt::Floating };
    assert!(PodFacet::default().admits(&doubtful).is_ok());
    let strict = PodFacet { image_prefixes: vec!["registry/".into()], ..Default::default() };
    assert!(strict.admits(&doubtful).is_err());
    let blank = PodFacet { image_prefixes: vec!["".into()], ..Default::default() };
    assert!(blank.admits(&doubtful).is_err(), "an empty prefix vouches for nothing");
}

#[test]
fn a_child_manifest_cannot_hand_itself_what_its_parent_lacks() {
    let parent = facet();

    let tighter = PodFacet {
        egress: vec!["postgres.payments.svc".into()],
        secrets: vec![],
        capabilities: vec![],
        ..Default::default()
    };
    assert!(PodFacet::validate_narrowing(&parent, &tighter).is_ok());

    for (label, child) in [
        (
            "an egress host the parent never held",
            PodFacet { egress: vec!["evil.example.com:443".into()], ..parent.clone() },
        ),
        (
            "a Secret the parent never held",
            PodFacet { secrets: vec!["root-ca-key".into()], ..parent.clone() },
        ),
        (
            "privileged, which the parent withholds",
            PodFacet { privileged: true, ..parent.clone() },
        ),
        ("hostPath, which the parent withholds", PodFacet { host_path: true, ..parent.clone() }),
        ("the node's namespaces", PodFacet { host_namespaces: true, ..parent.clone() }),
    ] {
        assert!(
            PodFacet::validate_narrowing(&parent, &child).is_err(),
            "{label} must be refused"
        );
    }
}

#[test]
fn the_lattice_ceiling_follows_from_the_facet() {
    let modest = facet().implied_grant(Level::Sandboxed);
    assert_eq!(modest.filesystem, Level::ReadOnly, "one Secret");
    assert_eq!(modest.network, Level::Allowlist, "two named hosts");
    assert_eq!(modest.execution, Level::Sandboxed, "one capability");

    let nothing = PodFacet::default().implied_grant(Level::Nothing);
    assert_eq!(nothing.network, Level::Nothing, "no egress named, none granted");
    assert_eq!(nothing.filesystem, Level::Nothing);

    let permissive = PodFacet { privileged: true, ..facet() }.implied_grant(Level::Sandboxed);
    assert_eq!(permissive.filesystem, Level::Full);
    assert_eq!(permissive.execution, Level::Full);
}

#[test]
fn a_budget_in_another_unit_is_another_budget() {
    let parent = facet();
    let same = PodFacet { currency: "usd".into(), ..facet() };
    assert!(PodFacet::validate_narrowing(&parent, &same).is_ok());
    let other = PodFacet { currency: "EUR".into(), ..facet() };
    let e = PodFacet::validate_narrowing(&parent, &other).unwrap_err();
    assert!(e.to_text().contains("different budget"), "{}", e.to_text());
}

#[test]
fn an_image_policy_is_held_to_its_prefixes() {
    let f = PodFacet { image_prefixes: vec!["docker.io/".into()], ..Default::default() };
    let of = |why: ImageDoubt| Effect::UntrustedImage { image: "docker.io/x".into(), why };
    assert!(f.admits(&of(ImageDoubt::NotPinned)).is_ok());
    assert!(f.admits(&of(ImageDoubt::Floating)).is_ok());
    assert!(f.admits(&of(ImageDoubt::UntrustedSource)).is_ok());
    let other = PodFacet { image_prefixes: vec!["registry.internal/".into()], ..Default::default() };
    for why in [ImageDoubt::NotPinned, ImageDoubt::Floating, ImageDoubt::UntrustedSource] {
        assert!(other.admits(&of(why)).is_err());
    }
    assert!(PodFacet::default().admits(&of(ImageDoubt::UntrustedSource)).is_ok());
}

#[test]
fn a_child_may_not_drop_its_parents_image_policy() {
    let parent = PodFacet { image_prefixes: vec!["registry.internal/".into()], ..facet() };
    let e = PodFacet::validate_narrowing(&parent, &facet()).unwrap_err();
    assert!(e.detail.starts_with("imagePrefixes: child names none"), "{}", e.detail);
    assert!(PodFacet::validate_narrowing(&parent, &parent).is_ok());
    assert!(PodFacet::validate_narrowing(&facet(), &facet()).is_ok());
    assert!(PodFacet::validate_narrowing(&facet(), &parent).is_err());
}
