//! Quantities, reservations and prices.
use lex_k8s::cost::{
    effective_requests, parse_cpu, parse_memory, CostError, PriceList, Reservation, SpendReport,
};
use lex_k8s::spec::{Container, ContainerKind, ResourceList, Resources};

fn c(name: &str, cpu: Option<&str>, mem: Option<&str>) -> Container {
    Container {
        name: name.to_string(),
        resources: Resources {
            requests: ResourceList { cpu: cpu.map(String::from), memory: mem.map(String::from) },
        },
        ..Default::default()
    }
}

#[test]
fn cpu_quantities_parse_without_a_float() {
    assert_eq!(parse_cpu("100m"), Some(100));
    assert_eq!(parse_cpu("1"), Some(1000));
    assert_eq!(parse_cpu("0.5"), Some(500));
    assert_eq!(parse_cpu("2.25"), Some(2250));
    assert_eq!(parse_cpu("0.001"), Some(1));
    assert_eq!(parse_cpu(""), None);
    assert_eq!(parse_cpu("half"), None);
    assert_eq!(parse_cpu("0.0001"), None);
}

#[test]
fn binary_and_decimal_memory_suffixes_are_not_the_same() {
    assert_eq!(parse_memory("1Mi"), Some(1_048_576));
    assert_eq!(parse_memory("1M"), Some(1_000_000));
    assert_eq!(parse_memory("1Gi"), Some(1_073_741_824));
    assert_eq!(parse_memory("512Mi"), Some(536_870_912));
    assert_eq!(parse_memory("1024"), Some(1024));
    assert_eq!(parse_memory("lots"), None);
}

#[test]
fn init_containers_are_a_peak_not_a_sum() {
    let migrate = c("migrate", Some("2"), Some("1Gi"));
    let api = c("api", Some("500m"), Some("512Mi"));
    let r = effective_requests(&[(ContainerKind::Init, &migrate), (ContainerKind::App, &api)])
        .unwrap();
    assert_eq!(r.reservation.cpu_millicores, 2000);
    assert_eq!(r.reservation.memory_bytes, 1 << 30);
}

#[test]
fn sidecars_are_in_the_sum_not_the_peak() {
    let proxy = c("proxy", Some("200m"), Some("128Mi"));
    let api = c("api", Some("500m"), Some("512Mi"));
    let r = effective_requests(&[(ContainerKind::Sidecar, &proxy), (ContainerKind::App, &api)])
        .unwrap();
    assert_eq!(r.reservation.cpu_millicores, 700);
    assert_eq!(r.reservation.memory_bytes, (512 << 20) + (128 << 20));
}

#[test]
fn ephemeral_containers_reserve_nothing() {
    let api = c("api", Some("500m"), Some("512Mi"));
    let debug = c("debug", Some("4"), Some("8Gi"));
    let r = effective_requests(&[(ContainerKind::App, &api), (ContainerKind::Ephemeral, &debug)])
        .unwrap();
    assert_eq!(r.reservation.cpu_millicores, 500);
    assert!(r.undeclared.is_empty());
}

#[test]
fn a_container_with_no_requests_is_reported_not_priced_at_zero() {
    let api = c("api", None, None);
    let r = effective_requests(&[(ContainerKind::App, &api)]).unwrap();
    assert_eq!(r.reservation, Reservation::default());
    assert_eq!(r.undeclared.len(), 1);
    assert_eq!(r.undeclared[0].container, "api");
}

#[test]
fn a_partial_request_is_charged_for_what_it_names() {
    let api = c("api", Some("500m"), None);
    let r = effective_requests(&[(ContainerKind::App, &api)]).unwrap();
    assert_eq!(r.reservation.cpu_millicores, 500);
    assert_eq!(r.reservation.memory_bytes, 0);
    assert!(r.undeclared.is_empty());
}

#[test]
fn an_unreadable_quantity_is_an_error() {
    let api = c("api", Some("half a core"), None);
    let e = effective_requests(&[(ContainerKind::App, &api)]).unwrap_err();
    assert!(matches!(e, CostError::NotAQuantity { .. }));
    assert!(e.to_text().contains("half a core"));
}

#[test]
fn pricing_is_integer_arithmetic() {
    let prices =
        PriceList { currency: "USD".into(), cpu_core_month_minor: 3_000, gib_month_minor: 400 };
    let r = Reservation { cpu_millicores: 500, memory_bytes: 2 << 30 };
    assert_eq!(prices.price(&r), 2_300);
}

#[test]
fn a_price_is_truncated_once_and_capped() {
    let prices =
        PriceList { currency: "USD".into(), cpu_core_month_minor: 999, gib_month_minor: 999 };
    assert_eq!(prices.price(&Reservation { cpu_millicores: 1, memory_bytes: 1 }), 0);
    assert_eq!(prices.price(&Reservation { cpu_millicores: 1_001, memory_bytes: 0 }), 999);
    // Half a unit of each is one, and a little less than that is none.
    let halves =
        PriceList { currency: "USD".into(), cpu_core_month_minor: 500, gib_month_minor: 1 };
    assert_eq!(halves.price(&Reservation { cpu_millicores: 1, memory_bytes: 1 << 29 }), 1);
    assert_eq!(halves.price(&Reservation { cpu_millicores: 1, memory_bytes: (1 << 29) - 1 }), 0);
    assert_eq!(halves.price(&Reservation { cpu_millicores: 3, memory_bytes: 3 << 29 }), 3);
    let dear = PriceList {
        currency: "USD".into(),
        cpu_core_month_minor: u64::MAX,
        gib_month_minor: u64::MAX,
    };
    assert_eq!(
        dear.price(&Reservation { cpu_millicores: u64::MAX, memory_bytes: u64::MAX }),
        u64::MAX
    );
}

#[test]
fn a_report_in_another_currency_is_refused_rather_than_converted() {
    let s = SpendReport { currency: "EUR".into(), namespace_monthly_minor: 100 };
    assert!(s.check_currency("USD").is_err());
    assert!(s.check_currency("eur").is_ok());
}

#[test]
fn price_lists_and_reports_are_read_from_json() {
    let p = PriceList::from_json(
        r#"{"currency":"usd","cpu_core_month_minor":3000,"gib_month_minor":400}"#,
    )
    .unwrap();
    assert_eq!(p.cpu_core_month_minor, 3_000);
    assert_eq!(p.gib_month_minor, 400);
    assert_eq!(p.currency, "USD", "a currency is one whatever its case");
    assert!(PriceList::from_json("{").is_err());
    assert!(PriceList::from_json(r#"{"cpu_core_month_minor":-1,"gib_month_minor":1}"#).is_err());

    let s = SpendReport::from_json(r#"{"currency":"EUR","namespace_monthly_minor":12}"#).unwrap();
    assert_eq!(s.namespace_monthly_minor, 12);
    assert!(SpendReport::from_json("[").is_err());
}

#[test]
fn a_price_given_twice_is_an_error() {
    let e = PriceList::from_json(
        r#"{"currency":"USD","cpu_core_month_minor":1,"gib_month_minor":1,"currency":"EUR"}"#,
    )
    .unwrap_err();
    assert_eq!(e.to_text(), "the price list is not JSON: duplicate field `currency` at line 1 column 73");
    let e = SpendReport::from_json(
        r#"{"currency":"USD","namespace_monthly_minor":1,"namespace_monthly_minor":2}"#,
    )
    .unwrap_err();
    assert_eq!(
        e.to_text(),
        "the spend report is not JSON: duplicate field `namespace_monthly_minor` at line 1 column 71"
    );
}
