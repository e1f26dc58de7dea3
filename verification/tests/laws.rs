//! What holds of the library as a whole, on chosen values.
use lex_k8s::cluster::{EgressPolicy, RbacRule};
use lex_k8s::cost::{effective_requests, PriceList, Reservation};
use lex_k8s::digest::sha256_hex;
use lex_k8s::effect::{join, Effect, Reach};
use lex_k8s::facet::PodFacet;
use lex_k8s::grant::{Grant, Level};
use lex_k8s::json::{Json, Writable};
use lex_k8s::manifest::{narrow, Budget, LexManifest, Manifest};
use lex_k8s::map::TextMap;
use lex_k8s::order::{sort, sort_once};
use lex_k8s::pod::compile_str;
use lex_k8s::spec::{Container, ContainerKind, ResourceList, Resources};
use lex_k8s::text::{before, join as joined, show, trim};
use lex_k8s::ClusterSnapshot;

const LEVELS: [Level; 6] = [
    Level::Nothing,
    Level::ReadOnly,
    Level::Allowlist,
    Level::Sandboxed,
    Level::ReadWrite,
    Level::Full,
];

#[test]
fn a_level_is_between_nothing_and_full() {
    for l in LEVELS {
        assert!(Level::Nothing.rank() <= l.rank() && l.rank() <= Level::Full.rank());
        assert_eq!(l.join(l), l);
        assert_eq!(l.join(Level::Full), Level::Full);
        assert_eq!(l.join(Level::Nothing), l);
    }
}

#[test]
fn a_join_is_the_least_that_covers_both() {
    let a = Grant::new(Level::ReadOnly, Level::Nothing, Level::Full);
    let b = Grant::new(Level::Nothing, Level::Allowlist, Level::Nothing);
    let both = join(a, b);
    assert_eq!(both, Grant::new(Level::ReadOnly, Level::Allowlist, Level::Full));
    assert!(Grant::narrow(&both, &a).is_ok());
    assert!(Grant::narrow(&both, &b).is_ok());
    assert!(Grant::narrow(&a, &both).is_err());
    assert!(Grant::narrow(&a, &a).is_ok());
}

#[test]
fn a_pod_that_gains_an_effect_never_demands_less() {
    let snap = ClusterSnapshot::default();
    let plain = compile_str(r#"{"containers":[{"name":"a"}]}"#, &snap).unwrap();
    let more = compile_str(
        r#"{"containers":[{"name":"a","securityContext":{"privileged":true}}]}"#,
        &snap,
    )
    .unwrap();
    assert!(Grant::narrow(&more.demands, &plain.demands).is_ok());
    assert!(Grant::narrow(&plain.demands, &more.demands).is_err());
    assert!(plain
        .rows
        .iter()
        .any(|r| matches!(r.effect, Effect::Egress { reach: Reach::NoPolicy, .. })));
}

fn manifest(grant: &str) -> Manifest {
    let budget =
        Budget { wall_clock_secs: 1, max_commands: 1, max_money_cents: 0, max_api_calls: 1 };
    LexManifest::read(&format!(r#"{{"spec":{{"grant":{grant}}}}}"#), budget).unwrap().1
}

#[test]
fn narrowing_a_narrowing_narrows() {
    let top = manifest(r#"{"secrets":["a","b","c"],"egress":["x","y"]}"#);
    let middle = manifest(r#"{"secrets":["a","b"],"egress":["x","y"]}"#);
    let bottom = manifest(r#"{"secrets":["b"],"egress":["y"]}"#);
    assert!(narrow(&top, &middle).is_ok());
    assert!(narrow(&middle, &bottom).is_ok());
    assert!(narrow(&top, &bottom).is_ok());
    assert!(narrow(&top, &top).is_ok());
    assert!(narrow(&bottom, &top).is_err());
    assert!(narrow(&top, &manifest("{}")).is_ok(), "nothing narrows everything");
}

#[test]
fn a_narrower_facet_implies_a_narrower_grant() {
    let parent = PodFacet { egress: vec!["x".into()], privileged: true, ..Default::default() };
    let child = PodFacet { egress: vec!["x".into()], ..Default::default() };
    assert!(PodFacet::validate_narrowing(&parent, &child).is_ok());
    let (above, below) =
        (parent.implied_grant(Level::Sandboxed), child.implied_grant(Level::Sandboxed));
    assert!(Grant::narrow(&above, &below).is_ok());
}

#[test]
fn sorting_forgets_how_things_were_listed() {
    let text = |v: &[&str]| v.iter().map(|s| s.to_string()).collect::<Vec<String>>();
    let a = text(&["b", "a", "é", "B", "a", ""]);
    let b = text(&["a", "", "a", "B", "b", "é"]);
    assert_eq!(sort(&a), text(&["", "B", "a", "a", "b", "é"]));
    assert_eq!(sort(&a), sort(&b));
    assert_eq!(sort_once(&a), text(&["", "B", "a", "b", "é"]));
    assert!(before("a", "b") && before("a", "aa") && !before("b", "a") && !before("a", "a"));
}

#[test]
fn a_map_finds_what_was_put_in() {
    let m = TextMap::new().with("b", "1").with("a", "2").with("b", "3");
    assert_eq!(m.len(), 2);
    assert_eq!(m.get("b").map(String::as_str), Some("3"));
    assert_eq!(m.get("a").map(String::as_str), Some("2"));
    assert_eq!(m.get("c"), None);
    assert_eq!(m.entry(0).0, "a", "in the order of the keys");
    assert_eq!(m.to_json().to_text(), r#"{"a":"2","b":"3"}"#);
}

fn asks(cpu: &str) -> Container {
    Container {
        name: "c".into(),
        resources: Resources {
            requests: ResourceList { cpu: Some(cpu.into()), memory: None },
            ..Default::default()
        },
        ..Default::default()
    }
}

#[test]
fn the_order_of_containers_makes_no_difference() {
    let (small, big) = (asks("100m"), asks("2"));
    let one = [
        (ContainerKind::Init, &big),
        (ContainerKind::App, &small),
        (ContainerKind::Sidecar, &small),
    ];
    let other = [
        (ContainerKind::Sidecar, &small),
        (ContainerKind::App, &small),
        (ContainerKind::Init, &big),
    ];
    let held = |cs: &[(ContainerKind, &Container)]| effective_requests(cs).unwrap().reservation;
    assert_eq!(held(&one), held(&other));
    assert_eq!(held(&one).cpu_millicores, 2000);
    assert_eq!(held(&one[1..]).cpu_millicores, 200);
}

#[test]
fn holding_more_never_costs_less() {
    let prices =
        PriceList { currency: "USD".into(), cpu_core_month_minor: 3000, gib_month_minor: 400 };
    let held = |cpu_millicores: u64, memory_bytes: u64| Reservation { cpu_millicores, memory_bytes };
    let mut last = 0;
    for i in 0..64u64 {
        let minor = prices.price(&held(i * 37, i << 27));
        assert!(minor >= last);
        last = minor;
    }
    assert_eq!(prices.price(&held(u64::MAX, u64::MAX)), u64::MAX, "capped, never wrapped");
}

#[test]
fn a_document_is_read_and_written() {
    let src = r#"{"z":[1,true,null,"a\"b\\\n\u0001é"],"a":{"n":-1}}"#;
    let j = Json::parse(src).unwrap();
    assert_eq!(Json::parse(&j.to_text()).unwrap(), j);
    assert_eq!(
        j.to_text(),
        "{\"a\":{\"n\":-1},\"z\":[1,true,null,\"a\\\"b\\\\\\n\\u0001é\"]}"
    );
    assert!(Json::parse("{\"a\":1,}").is_err());
}

#[test]
fn a_hash_is_the_published_one() {
    assert_eq!(
        sha256_hex("abc"),
        "ba7816bf8f01cfea414140de5dae2223b00361a396177a9cb410ff61f20015ad"
    );
    assert_eq!(
        sha256_hex(""),
        "e3b0c44298fc1c149afbf4c8996fb92427ae41e4649b934ca495991b7852b855"
    );
}

#[test]
fn texts_are_cut_and_joined() {
    assert_eq!(trim("\u{a0} a b\t\n"), "a b");
    assert_eq!(show(0), "0");
    assert_eq!(show(u64::MAX), "18446744073709551615");
    assert_eq!(joined(&vec!["a".into(), "".into(), "b".into()], ", "), "a, , b");
    assert_eq!(joined(&vec![], ", "), "");
}

#[test]
fn what_is_written_is_what_serde_json_writes() {
    for src in [
        "null",
        "[]",
        "{}",
        r#"{"b":[true,false,null],"a":{"":""}}"#,
        r#"[0,-0,1.5,1e10,-2.5e-3,18446744073709551615,-9223372036854775808,1E400]"#,
        r#""\u0000\u001f\b\t\n\f\r\"\\\/\u007f\u2028\ud83d\ude00 é""#,
        r#"{"dup":1,"dup":2,"z":"z","A":"A"}"#,
    ] {
        match serde_json::from_str::<serde_json::Value>(src) {
            Ok(v) => assert_eq!(Json::parse(src).unwrap().to_text(), v.to_string(), "{src}"),
            Err(e) => assert_eq!(Json::parse(src), Err(e.to_string()), "{src}"),
        }
    }
}

fn two_states() -> (ClusterSnapshot, ClusterSnapshot) {
    let a = ClusterSnapshot {
        egress: Some(EgressPolicy {
            policy_names: vec!["payments/open".into()],
            cidrs: vec!["10.0.0.0/8".into()],
            selectors: vec!["pods app=\"db\"".into()],
            deny_all: false,
        }),
        rbac: vec![RbacRule {
            binding: "RoleBinding payments/reader".into(),
            api_group: "".into(),
            resource: "secrets".into(),
            verbs: vec!["get".into(), "list".into()],
            namespace: Some("payments".into()),
        }],
        trusted_image_prefixes: vec!["registry.internal/".into()],
        provenance: TextMap::new().with("serviceAccount", "default").with("networkPolicies", "a,b"),
    };
    let mut b = a.clone();
    b.rbac[0].namespace = None;
    (a, b)
}

#[test]
fn a_snapshot_that_is_written_reads_back() {
    let (a, b) = two_states();
    for s in [a, b, ClusterSnapshot::default()] {
        assert_eq!(ClusterSnapshot::from_document(&s.to_json()), Ok(s.clone()));
        assert_eq!(ClusterSnapshot::from_json(&s.to_json().to_text()), Ok(s));
    }
}

#[test]
fn different_states_are_written_differently() {
    let (a, b) = two_states();
    assert_ne!(a.to_json().to_text(), b.to_json().to_text());
    assert_ne!(a.content_id(), b.content_id());
    // Where a text ends is part of the text: what looks like punctuation is quoted.
    let mut c = ClusterSnapshot::default();
    c.trusted_image_prefixes = vec!["a\",\"b".into()];
    let mut d = ClusterSnapshot::default();
    d.trusted_image_prefixes = vec!["a".into(), "b".into()];
    assert_ne!(c.to_json().to_text(), d.to_json().to_text());
    assert_ne!(c.content_id(), d.content_id());
}

#[test]
fn a_complaint_is_in_the_words_of_serde_json() {
    for src in ["null", "0", "-7", "1.5", "1e300", r#""a \"b\"\n\u00e9\u200b'""#, "[1]", "{}"] {
        let value: serde_json::Value = serde_json::from_str(src).unwrap();
        let want = serde_json::from_value::<bool>(value).unwrap_err().to_string();
        let doc = Json::parse(&format!(r#"{{"egress":{{"deny_all":{src}}}}}"#)).unwrap();
        assert_eq!(ClusterSnapshot::from_document(&doc), Err(want), "{src}");
    }
    for src in ["null", "true", "-7", "1.5", "18446744073709551616", r#""7""#, "[1]", "{}"] {
        let value: serde_json::Value = serde_json::from_str(src).unwrap();
        let want = serde_json::from_value::<u64>(value).unwrap_err().to_string();
        let doc = Json::parse(&format!(
            r#"{{"currency":"USD","cpu_core_month_minor":{src},"gib_month_minor":1}}"#
        ))
        .unwrap();
        let e = PriceList::from_document(&doc).unwrap_err();
        assert_eq!(e.to_text(), format!("the price list is not JSON: {want}"), "{src}");
    }
    let of = |src: &str| ClusterSnapshot::from_json(src).unwrap_err();
    assert_eq!(of("7"), "invalid type: integer `7`, expected struct ClusterSnapshot at line 1 column 1");
    assert_eq!(of("[null,[],[],{},1]"), "trailing characters at line 1 column 16");
    let of = |src: &str| ClusterSnapshot::from_document(&Json::parse(src).unwrap()).unwrap_err();
    assert_eq!(of("[null,[],[],{},1]"), "invalid length 5, expected fewer elements in array");
    let of = |src: &str| PriceList::from_json(src).unwrap_err().to_text();
    assert_eq!(of("{}"), "the price list is not JSON: missing field `currency` at line 1 column 2");
    assert_eq!(
        of(r#"["USD"]"#),
        "the price list is not JSON: invalid length 1, expected struct PriceList with 3 elements at line 1 column 7"
    );
}

#[test]
fn nothing_that_is_kept_once_comes_twice() {
    let once = sort_once(&vec!["b".to_string(), "a".into(), "b".into(), "a".into(), "c".into()]);
    assert_eq!(once, ["a", "b", "c"]);
}
