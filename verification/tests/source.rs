//! The records that are read straight from a text, held against `serde_json` itself: the same texts
//! are read into plain structs, through visitors of the usual shape.
use lex_k8s::cluster::ClusterSnapshot;
use lex_k8s::cost::{PriceList, SpendReport};
use lex_k8s::json::Json;
use lex_k8s::trust::Keyring;
use serde::de::{Deserialize, Deserializer, Error, IgnoredAny, MapAccess, SeqAccess, Visitor};
use std::collections::BTreeMap;
use std::fmt;
use std::marker::PhantomData;

trait Shape: Default {
    const NAME: &'static str;
    const EXPECTED: &'static str;
    const LENGTH: &'static str;
    const FIELDS: &'static [&'static str];
    const REQUIRED: bool;

    /// Read field `i` from a list; `false` where the list has ended.
    fn from_seq<'de, A: SeqAccess<'de>>(&mut self, i: usize, a: &mut A) -> Result<bool, A::Error>;

    fn from_map<'de, A: MapAccess<'de>>(&mut self, i: usize, a: &mut A) -> Result<(), A::Error>;
}

struct Shaped<T>(PhantomData<T>);

impl<'de, T: Shape> Visitor<'de> for Shaped<T> {
    type Value = T;

    fn expecting(&self, f: &mut fmt::Formatter) -> fmt::Result {
        f.write_str(T::EXPECTED)
    }

    fn visit_seq<A: SeqAccess<'de>>(self, mut a: A) -> Result<T, A::Error> {
        let mut out = T::default();
        for i in 0..T::FIELDS.len() {
            if !out.from_seq(i, &mut a)? && T::REQUIRED {
                return Err(Error::invalid_length(i, &T::LENGTH));
            }
        }
        Ok(out)
    }

    fn visit_map<A: MapAccess<'de>>(self, mut a: A) -> Result<T, A::Error> {
        let mut out = T::default();
        let mut seen = vec![false; T::FIELDS.len()];
        while let Some(key) = a.next_key::<String>()? {
            match T::FIELDS.iter().position(|f| *f == key) {
                Some(i) if seen[i] => return Err(Error::duplicate_field(T::FIELDS[i])),
                Some(i) => {
                    out.from_map(i, &mut a)?;
                    seen[i] = true;
                }
                None => {
                    a.next_value::<IgnoredAny>()?;
                }
            }
        }
        for i in 0..T::FIELDS.len() {
            if T::REQUIRED && !seen[i] {
                return Err(Error::missing_field(T::FIELDS[i]));
            }
        }
        Ok(out)
    }
}

fn seq<'de, A: SeqAccess<'de>, V: Deserialize<'de>>(a: &mut A, to: &mut V) -> Result<bool, A::Error> {
    match a.next_element()? {
        Some(v) => {
            *to = v;
            Ok(true)
        }
        None => Ok(false),
    }
}

fn map<'de, A: MapAccess<'de>, V: Deserialize<'de>>(a: &mut A, to: &mut V) -> Result<(), A::Error> {
    *to = a.next_value()?;
    Ok(())
}

#[derive(Default)]
struct Prices {
    currency: String,
    core: u64,
    gib: u64,
}

impl Shape for Prices {
    const NAME: &'static str = "PriceList";
    const EXPECTED: &'static str = "struct PriceList";
    const LENGTH: &'static str = "struct PriceList with 3 elements";
    const FIELDS: &'static [&'static str] =
        &["currency", "cpu_core_month_minor", "gib_month_minor"];
    const REQUIRED: bool = true;

    fn from_seq<'de, A: SeqAccess<'de>>(&mut self, i: usize, a: &mut A) -> Result<bool, A::Error> {
        match i {
            0 => seq(a, &mut self.currency),
            1 => seq(a, &mut self.core),
            _ => seq(a, &mut self.gib),
        }
    }

    fn from_map<'de, A: MapAccess<'de>>(&mut self, i: usize, a: &mut A) -> Result<(), A::Error> {
        match i {
            0 => map(a, &mut self.currency),
            1 => map(a, &mut self.core),
            _ => map(a, &mut self.gib),
        }
    }
}

impl<'de> Deserialize<'de> for Prices {
    fn deserialize<D: Deserializer<'de>>(d: D) -> Result<Self, D::Error> {
        d.deserialize_struct(Self::NAME, Self::FIELDS, Shaped(PhantomData))
    }
}

#[derive(Default)]
struct Spend {
    currency: String,
    minor: u64,
}

impl Shape for Spend {
    const NAME: &'static str = "SpendReport";
    const EXPECTED: &'static str = "struct SpendReport";
    const LENGTH: &'static str = "struct SpendReport with 2 elements";
    const FIELDS: &'static [&'static str] = &["currency", "namespace_monthly_minor"];
    const REQUIRED: bool = true;

    fn from_seq<'de, A: SeqAccess<'de>>(&mut self, i: usize, a: &mut A) -> Result<bool, A::Error> {
        match i {
            0 => seq(a, &mut self.currency),
            _ => seq(a, &mut self.minor),
        }
    }

    fn from_map<'de, A: MapAccess<'de>>(&mut self, i: usize, a: &mut A) -> Result<(), A::Error> {
        match i {
            0 => map(a, &mut self.currency),
            _ => map(a, &mut self.minor),
        }
    }
}

impl<'de> Deserialize<'de> for Spend {
    fn deserialize<D: Deserializer<'de>>(d: D) -> Result<Self, D::Error> {
        d.deserialize_struct(Self::NAME, Self::FIELDS, Shaped(PhantomData))
    }
}

#[derive(Default)]
struct Keys {
    trusted: Vec<String>,
}

impl Shape for Keys {
    const NAME: &'static str = "Keyring";
    const EXPECTED: &'static str = "struct Keyring";
    const LENGTH: &'static str = "struct Keyring with 1 element";
    const FIELDS: &'static [&'static str] = &["trusted"];
    const REQUIRED: bool = false;

    fn from_seq<'de, A: SeqAccess<'de>>(&mut self, _: usize, a: &mut A) -> Result<bool, A::Error> {
        seq(a, &mut self.trusted)
    }

    fn from_map<'de, A: MapAccess<'de>>(&mut self, _: usize, a: &mut A) -> Result<(), A::Error> {
        map(a, &mut self.trusted)
    }
}

impl<'de> Deserialize<'de> for Keys {
    fn deserialize<D: Deserializer<'de>>(d: D) -> Result<Self, D::Error> {
        d.deserialize_struct(Self::NAME, Self::FIELDS, Shaped(PhantomData))
    }
}

#[derive(Default)]
struct Egress {
    policy_names: Vec<String>,
    cidrs: Vec<String>,
    selectors: Vec<String>,
    deny_all: bool,
}

impl Shape for Egress {
    const NAME: &'static str = "EgressPolicy";
    const EXPECTED: &'static str = "struct EgressPolicy";
    const LENGTH: &'static str = "struct EgressPolicy with 4 elements";
    const FIELDS: &'static [&'static str] = &["policy_names", "cidrs", "selectors", "deny_all"];
    const REQUIRED: bool = false;

    fn from_seq<'de, A: SeqAccess<'de>>(&mut self, i: usize, a: &mut A) -> Result<bool, A::Error> {
        match i {
            0 => seq(a, &mut self.policy_names),
            1 => seq(a, &mut self.cidrs),
            2 => seq(a, &mut self.selectors),
            _ => seq(a, &mut self.deny_all),
        }
    }

    fn from_map<'de, A: MapAccess<'de>>(&mut self, i: usize, a: &mut A) -> Result<(), A::Error> {
        match i {
            0 => map(a, &mut self.policy_names),
            1 => map(a, &mut self.cidrs),
            2 => map(a, &mut self.selectors),
            _ => map(a, &mut self.deny_all),
        }
    }
}

impl<'de> Deserialize<'de> for Egress {
    fn deserialize<D: Deserializer<'de>>(d: D) -> Result<Self, D::Error> {
        d.deserialize_struct(Self::NAME, Self::FIELDS, Shaped(PhantomData))
    }
}

#[derive(Default)]
struct Rule {
    binding: String,
    api_group: String,
    resource: String,
    verbs: Vec<String>,
    namespace: Option<String>,
}

impl Shape for Rule {
    const NAME: &'static str = "RbacRule";
    const EXPECTED: &'static str = "struct RbacRule";
    const LENGTH: &'static str = "struct RbacRule with 5 elements";
    const FIELDS: &'static [&'static str] =
        &["binding", "api_group", "resource", "verbs", "namespace"];
    const REQUIRED: bool = false;

    fn from_seq<'de, A: SeqAccess<'de>>(&mut self, i: usize, a: &mut A) -> Result<bool, A::Error> {
        match i {
            0 => seq(a, &mut self.binding),
            1 => seq(a, &mut self.api_group),
            2 => seq(a, &mut self.resource),
            3 => seq(a, &mut self.verbs),
            _ => seq(a, &mut self.namespace),
        }
    }

    fn from_map<'de, A: MapAccess<'de>>(&mut self, i: usize, a: &mut A) -> Result<(), A::Error> {
        match i {
            0 => map(a, &mut self.binding),
            1 => map(a, &mut self.api_group),
            2 => map(a, &mut self.resource),
            3 => map(a, &mut self.verbs),
            _ => map(a, &mut self.namespace),
        }
    }
}

impl<'de> Deserialize<'de> for Rule {
    fn deserialize<D: Deserializer<'de>>(d: D) -> Result<Self, D::Error> {
        d.deserialize_struct(Self::NAME, Self::FIELDS, Shaped(PhantomData))
    }
}

#[derive(Default)]
struct Snapshot {
    egress: Option<Egress>,
    rbac: Vec<Rule>,
    prefixes: Vec<String>,
    provenance: BTreeMap<String, String>,
}

impl Shape for Snapshot {
    const NAME: &'static str = "ClusterSnapshot";
    const EXPECTED: &'static str = "struct ClusterSnapshot";
    const LENGTH: &'static str = "struct ClusterSnapshot with 4 elements";
    const FIELDS: &'static [&'static str] =
        &["egress", "rbac", "trusted_image_prefixes", "provenance"];
    const REQUIRED: bool = false;

    fn from_seq<'de, A: SeqAccess<'de>>(&mut self, i: usize, a: &mut A) -> Result<bool, A::Error> {
        match i {
            0 => seq(a, &mut self.egress),
            1 => seq(a, &mut self.rbac),
            2 => seq(a, &mut self.prefixes),
            _ => seq(a, &mut self.provenance),
        }
    }

    fn from_map<'de, A: MapAccess<'de>>(&mut self, i: usize, a: &mut A) -> Result<(), A::Error> {
        match i {
            0 => map(a, &mut self.egress),
            1 => map(a, &mut self.rbac),
            2 => map(a, &mut self.prefixes),
            _ => map(a, &mut self.provenance),
        }
    }
}

impl<'de> Deserialize<'de> for Snapshot {
    fn deserialize<D: Deserializer<'de>>(d: D) -> Result<Self, D::Error> {
        d.deserialize_struct(Self::NAME, Self::FIELDS, Shaped(PhantomData))
    }
}

fn agree_on_prices(src: &str) {
    match (serde_json::from_str::<Prices>(src), PriceList::from_json(src)) {
        (Ok(a), Ok(b)) => {
            assert_eq!(a.currency.to_uppercase(), b.currency, "{src}");
            assert_eq!(a.core, b.cpu_core_month_minor, "{src}");
            assert_eq!(a.gib, b.gib_month_minor, "{src}");
        }
        (Err(a), Err(b)) => {
            assert_eq!(format!("the price list is not JSON: {a}"), b.to_text(), "{src}")
        }
        (a, b) => panic!("{src}: {} {}", a.is_ok(), b.is_ok()),
    }
}

fn agree_on_spend(src: &str) {
    match (serde_json::from_str::<Spend>(src), SpendReport::from_json(src)) {
        (Ok(a), Ok(b)) => {
            assert_eq!(a.currency.to_uppercase(), b.currency, "{src}");
            assert_eq!(a.minor, b.namespace_monthly_minor, "{src}");
        }
        (Err(a), Err(b)) => {
            assert_eq!(format!("the spend report is not JSON: {a}"), b.to_text(), "{src}")
        }
        (a, b) => panic!("{src}: {} {}", a.is_ok(), b.is_ok()),
    }
}

fn agree_on_keys(src: &str) {
    match (serde_json::from_str::<Keys>(src), Keyring::from_json(src)) {
        (Ok(a), Ok(b)) => assert_eq!(a.trusted, b.trusted, "{src}"),
        (Err(a), Err(b)) => {
            assert_eq!(format!("the keyring is not readable JSON: {a}"), b.to_text(), "{src}")
        }
        (a, b) => panic!("{src}: {} {}", a.is_ok(), b.is_ok()),
    }
}

fn agree_on_snapshot(src: &str) {
    match (serde_json::from_str::<Snapshot>(src), ClusterSnapshot::from_json(src)) {
        (Ok(a), Ok(b)) => {
            assert_eq!(a.prefixes, b.trusted_image_prefixes, "{src}");
            assert_eq!(a.rbac.len(), b.rbac.len(), "{src}");
            for (x, y) in a.rbac.iter().zip(b.rbac.iter()) {
                assert_eq!(x.binding, y.binding, "{src}");
                assert_eq!(x.api_group, y.api_group, "{src}");
                assert_eq!(x.resource, y.resource, "{src}");
                assert_eq!(x.verbs, y.verbs, "{src}");
                assert_eq!(x.namespace, y.namespace, "{src}");
            }
            assert_eq!(a.egress.is_some(), b.egress.is_some(), "{src}");
            if let (Some(x), Some(y)) = (a.egress, b.egress) {
                assert_eq!(x.policy_names, y.policy_names, "{src}");
                assert_eq!(x.cidrs, y.cidrs, "{src}");
                assert_eq!(x.selectors, y.selectors, "{src}");
                assert_eq!(x.deny_all, y.deny_all, "{src}");
            }
            assert_eq!(a.provenance.len(), b.provenance.len(), "{src}");
            for (k, v) in a.provenance.iter() {
                assert_eq!(b.provenance.get(k), Some(v), "{src}");
            }
        }
        (Err(a), Err(b)) => assert_eq!(a.to_string(), b, "{src}"),
        (a, b) => panic!("{src}: {} {}", a.is_ok(), b.is_ok()),
    }
}

/// Every text that comes of `src` by dropping, doubling or replacing one character, or by ending
/// early.
fn spoiled(src: &str) -> Vec<String> {
    let all: Vec<char> = src.chars().collect();
    let mut out = vec![src.to_string()];
    for i in 0..all.len() {
        let before: String = all[..i].iter().collect();
        let after: String = all[i + 1..].iter().collect();
        out.push(before.clone());
        out.push(format!("{before}{after}"));
        for c in ['"', '[', ']', '{', '}', ',', ':', '7', '-', '.', 'n', 't', '\\', '\n', ' ', 'é'] {
            out.push(format!("{before}{c}{after}"));
            out.push(format!("{before}{c}{}{after}", all[i]));
        }
    }
    out
}

#[test]
fn a_price_list_is_read_as_serde_json_reads_it() {
    for src in [
        "{}",
        "[]",
        "[\"usd\"]",
        "[\"usd\",1,2]",
        "[\"usd\",1,2,3]",
        "[ \"usd\" , 1 , 2 , \"é\" ]",
        "7",
        "null",
        "\"usd\"",
        "{\"currency\":7}",
        "{\"currency\":null}",
        "{\"currency\":[1]}",
        "{\"currency\":\"usd\",\"cpu_core_month_minor\":-3,\"gib_month_minor\":{}}",
        "{\"currency\":\"usd\",\"cpu_core_month_minor\":1.5}",
        "{\"currency\":\"usd\",\"cpu_core_month_minor\":18446744073709551616}",
        "{\"currency\":\"usd\",\"cpu_core_month_minor\":18446744073709551615,\"gib_month_minor\":0}",
        "{\"x\":1e400,\"currency\":\"usd\",\"cpu_core_month_minor\":1,\"gib_month_minor\":2}",
        "{\"currency\":\"usd\",\n\"cpu_core_month_minor\":1,\n\"currency\":\"eur\"}",
        "{\"currency\":\"usd\",\n \"cpu_core_month_minor\":1 }\n",
        "{\"é\":\"éé\",\"currency\":true}",
        "",
        " ",
        "\u{feff}{}",
    ] {
        agree_on_prices(src);
    }
    let deep = format!(
        "{{\"x\":{}{},\"currency\":\"usd\",\"cpu_core_month_minor\":1,\"gib_month_minor\":2}}",
        "[".repeat(200),
        "]".repeat(200)
    );
    agree_on_prices(&deep);
    assert!(PriceList::from_json(&deep).is_ok());
    for src in spoiled(
        "{\"currency\": \"usd\",\n \"cpu_core_month_minor\":12, \"x\": [3.5, \"é\"],\n \"gib_month_minor\": 4}\n",
    ) {
        agree_on_prices(&src);
    }
    for src in spoiled("[ \"usd\",\n 12,4 ]") {
        agree_on_prices(&src);
    }
}

#[test]
fn a_spend_report_is_read_as_serde_json_reads_it() {
    for src in spoiled("{\"namespace_monthly_minor\": 400,\n\t\"currency\": \"é\\u0041\"}") {
        agree_on_spend(&src);
    }
    for src in spoiled("[\"usd\",12]") {
        agree_on_spend(&src);
    }
}

#[test]
fn a_keyring_is_read_as_serde_json_reads_it() {
    for src in spoiled("{\"trusted\": [\"a\", \"bé\"],\n \"x\": {\"trusted\": true, \"y\": null}}") {
        agree_on_keys(&src);
    }
    for src in spoiled("[[\"a\", \"b\"]]") {
        agree_on_keys(&src);
    }
}

#[test]
fn a_snapshot_is_read_as_serde_json_reads_it() {
    for src in spoiled(
        "{\"egress\": {\"cidrs\": [\"10.0.0.0/8\"], \"deny_all\": false},\n \"rbac\": [{\"binding\": \"b\", \"verbs\": [\"get\"], \"namespace\": null}, [\"c\", \"\"]],\n \"provenance\": {\"k\": \"v\", \"a\": \"b\", \"k\": \"w\"}}",
    ) {
        agree_on_snapshot(&src);
    }
    for src in spoiled("[null, [], [\"docker.io/\"], {\"k\": \"v\"}]") {
        agree_on_snapshot(&src);
    }
    for src in spoiled("{\"egress\":[[],[],[],true],\"trusted_image_prefixes\":[]}") {
        agree_on_snapshot(&src);
    }
}

#[test]
fn a_document_is_read_as_serde_json_reads_it() {
    for src in [
        "{\"egress\": {\"deny_all\": 1, \"cidrs\": [\"10.0.0.0/8\", 7]}, \"rbac\": [{\"verbs\": 1, \"binding\": 2}, 3]}",
        "{\"rbac\": [[\"c\", \"\"], {\"namespace\": 1.5}], \"provenance\": {\"k\": null}}",
        "[null, [[\"b\", \"\", \"\", [], null]], [\"docker.io/\"], {\"k\": \"v\"}]",
        "[[[], [\"x\"], [], true], [], 7, 8]",
    ] {
        for src in spoiled(src) {
            let Ok(value) = serde_json::from_str::<serde_json::Value>(&src) else {
                continue;
            };
            let doc = Json::parse(&src).unwrap();
            match (serde_json::from_value::<Snapshot>(value), ClusterSnapshot::from_document(&doc)) {
                (Ok(a), Ok(b)) => {
                    assert_eq!(a.prefixes, b.trusted_image_prefixes, "{src}");
                    assert_eq!(a.rbac.len(), b.rbac.len(), "{src}");
                }
                (Err(a), Err(b)) => assert_eq!(a.to_string(), b, "{src}"),
                (a, b) => panic!("{src}: {} {}", a.is_ok(), b.is_ok()),
            }
        }
    }
    for src in spoiled("{\"currency\": 7, \"gib_month_minor\": true, \"cpu_core_month_minor\": -1}") {
        let Ok(value) = serde_json::from_str::<serde_json::Value>(&src) else {
            continue;
        };
        let doc = Json::parse(&src).unwrap();
        match (serde_json::from_value::<Prices>(value), PriceList::from_document(&doc)) {
            (Ok(a), Ok(b)) => assert_eq!(a.core, b.cpu_core_month_minor, "{src}"),
            (Err(a), Err(b)) => {
                assert_eq!(format!("the price list is not JSON: {a}"), b.to_text(), "{src}")
            }
            (a, b) => panic!("{src}: {} {}", a.is_ok(), b.is_ok()),
        }
    }
}

#[test]
fn a_complaint_says_where() {
    let e = PriceList::from_json("{\n  \"currency\": \"usd\",\n  \"cpu_core_month_minor\": \"x\"\n}")
        .unwrap_err();
    assert_eq!(
        e.to_text(),
        "the price list is not JSON: invalid type: string \"x\", expected u64 at line 3 column 29"
    );
    let e = Keyring::from_json("{\"trusted\":[],\n\"trusted\" : []}").unwrap_err();
    assert_eq!(
        e.to_text(),
        "the keyring is not readable JSON: duplicate field `trusted` at line 2 column 10"
    );
    assert_eq!(
        ClusterSnapshot::from_json("{\"rbac\":[{\"verbs\":{}}]}").unwrap_err(),
        "invalid type: map, expected a sequence at line 1 column 18"
    );
}
