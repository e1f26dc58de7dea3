//! What a pod's reservation is, and what it costs.
//!
//! A pod declares what it wants reserved, and reservation times rate is arithmetic. Two things
//! are supplied: the price list, and what the namespace already spends. Money is an integer
//! number of minor units throughout.
//!
//! Requests are charged, not limits: they are what the scheduler reserves. The result bounds what
//! a namespace has committed to reserving; it is no meter of what it uses.
use vstd::prelude::*;

use crate::json;
use crate::json::{check, check_members, read_required, Json, Members, Readable, Tree};
use crate::scan;
use crate::scan::{
    check_record, read_source, Field, FieldModel, Record, Scan, Scannable, Scanned,
};
use crate::spec::{Container, ContainerKind, ContainerModel};
use crate::text;
use crate::text::{digits_only, owned, parse, same, split_once, strip_suffix, to_upper, trim};

verus! {

/// Why spend could not be read. There is no assuming zero: a quantity that nobody can parse is not a
/// quantity of nothing.
#[derive(Debug, Clone, PartialEq, Eq)]
pub enum CostError {
    /// `what` is not JSON of the right shape.
    NotJson { what: String, why: String },
    /// A request that is no Kubernetes quantity.
    NotAQuantity { container: String, field: String, value: String },
    /// The report is in another currency than the budget.
    CurrencyMismatch { report: String, expected: String },
}

/// What a [`CostError`] says.
#[verifier::ext_equal]
pub enum CostErrorModel {
    NotJson { what: Seq<char>, why: Seq<char> },
    NotAQuantity { container: Seq<char>, field: Seq<char>, value: Seq<char> },
    CurrencyMismatch { report: Seq<char>, expected: Seq<char> },
}

impl DeepView for CostError {
    type V = CostErrorModel;

    open spec fn deep_view(&self) -> CostErrorModel {
        match self {
            CostError::NotJson { what, why } => CostErrorModel::NotJson {
                what: what.deep_view(),
                why: why.deep_view(),
            },
            CostError::NotAQuantity { container, field, value } => CostErrorModel::NotAQuantity {
                container: container.deep_view(),
                field: field.deep_view(),
                value: value.deep_view(),
            },
            CostError::CurrencyMismatch { report, expected } => CostErrorModel::CurrencyMismatch {
                report: report.deep_view(),
                expected: expected.deep_view(),
            },
        }
    }
}

/// What a core-month and a GiB-month cost, in integer minor units.
#[derive(Debug, Clone, PartialEq, Eq)]
pub struct PriceList {
    /// ISO 4217, in upper case.
    pub currency: String,
    /// Minor units per CPU core per month.
    pub cpu_core_month_minor: u64,
    /// Minor units per GiB of memory per month.
    pub gib_month_minor: u64,
}

/// What a [`PriceList`] says.
#[verifier::ext_equal]
pub struct PriceListModel {
    pub currency: Seq<char>,
    pub cpu_core_month_minor: u64,
    pub gib_month_minor: u64,
}

impl DeepView for PriceList {
    type V = PriceListModel;

    open spec fn deep_view(&self) -> PriceListModel {
        PriceListModel {
            currency: self.currency.deep_view(),
            cpu_core_month_minor: self.cpu_core_month_minor.deep_view(),
            gib_month_minor: self.gib_month_minor.deep_view(),
        }
    }
}

/// What a namespace already spends per month, in minor units.
#[derive(Debug, Clone, PartialEq, Eq)]
pub struct SpendReport {
    /// ISO 4217, in upper case.
    pub currency: String,
    pub namespace_monthly_minor: u64,
}

/// What a [`SpendReport`] says.
#[verifier::ext_equal]
pub struct SpendReportModel {
    pub currency: Seq<char>,
    pub namespace_monthly_minor: u64,
}

impl DeepView for SpendReport {
    type V = SpendReportModel;

    open spec fn deep_view(&self) -> SpendReportModel {
        SpendReportModel {
            currency: self.currency.deep_view(),
            namespace_monthly_minor: self.namespace_monthly_minor.deep_view(),
        }
    }
}

impl Members for PriceList {
    open spec fn member_fault(name: Seq<char>, v: Tree) -> Option<Seq<char>> {
        if name == "currency"@ {
            String::fault(v)
        } else if name == "cpu_core_month_minor"@ {
            u64::fault(v)
        } else if name == "gib_month_minor"@ {
            u64::fault(v)
        } else {
            None
        }
    }

    fn check_member(name: &str, v: &Json) -> (r: Result<(), String>) {
        if same(name, "currency") {
            check::<String>(v)
        } else if same(name, "cpu_core_month_minor") {
            check::<u64>(v)
        } else if same(name, "gib_month_minor") {
            check::<u64>(v)
        } else {
            Ok(())
        }
    }
}

impl Readable for PriceList {
    open spec fn fault(t: Tree) -> Option<Seq<char>> {
        let f = t.record_fault("struct PriceList"@);
        let f = json::first_fault(f, json::members_fault::<PriceList>(t));
        let f = json::first_fault(
            f,
            json::required_fault::<String>(t, "currency"@, 0, "struct PriceList with 3 elements"@),
        );
        let f = json::first_fault(
            f,
            json::required_fault::<u64>(t, "cpu_core_month_minor"@, 1, "struct PriceList with 3 elements"@),
        );
        let f = json::first_fault(
            f,
            json::required_fault::<u64>(t, "gib_month_minor"@, 2, "struct PriceList with 3 elements"@),
        );
        json::first_fault(f, t.surplus_fault(3))
    }

    open spec fn value(t: Tree) -> PriceListModel {
        PriceListModel {
            currency: json::field_value::<String>(t, "currency"@, 0),
            cpu_core_month_minor: json::field_value::<u64>(t, "cpu_core_month_minor"@, 1),
            gib_month_minor: json::field_value::<u64>(t, "gib_month_minor"@, 2),
        }
    }

    open spec fn nothing() -> PriceListModel {
        PriceListModel {
            currency: Seq::empty(),
            cpu_core_month_minor: 0,
            gib_month_minor: 0,
        }
    }

    fn read(j: &Json) -> (r: Result<Self, String>) {
        if let Err(e) = j.check_record("struct PriceList") {
            return Err(e);
        }
        if let Err(e) = check_members::<PriceList>(j) {
            return Err(e);
        }
        let currency: String = match read_required(
            j,
            "currency",
            0,
            "struct PriceList with 3 elements",
        ) {
            Ok(x) => x,
            Err(e) => return Err(e),
        };
        let cpu_core_month_minor: u64 = match read_required(
            j,
            "cpu_core_month_minor",
            1,
            "struct PriceList with 3 elements",
        ) {
            Ok(x) => x,
            Err(e) => return Err(e),
        };
        let gib_month_minor: u64 = match read_required(
            j,
            "gib_month_minor",
            2,
            "struct PriceList with 3 elements",
        ) {
            Ok(x) => x,
            Err(e) => return Err(e),
        };
        if let Err(e) = j.check_surplus(3) {
            return Err(e);
        }
        Ok(PriceList { currency, cpu_core_month_minor, gib_month_minor })
    }

    fn absent() -> (r: Self) {
        PriceList { currency: String::new(), cpu_core_month_minor: 0, gib_month_minor: 0 }
    }
}

impl Members for SpendReport {
    open spec fn member_fault(name: Seq<char>, v: Tree) -> Option<Seq<char>> {
        if name == "currency"@ {
            String::fault(v)
        } else if name == "namespace_monthly_minor"@ {
            u64::fault(v)
        } else {
            None
        }
    }

    fn check_member(name: &str, v: &Json) -> (r: Result<(), String>) {
        if same(name, "currency") {
            check::<String>(v)
        } else if same(name, "namespace_monthly_minor") {
            check::<u64>(v)
        } else {
            Ok(())
        }
    }
}

impl Readable for SpendReport {
    open spec fn fault(t: Tree) -> Option<Seq<char>> {
        let f = t.record_fault("struct SpendReport"@);
        let f = json::first_fault(f, json::members_fault::<SpendReport>(t));
        let f = json::first_fault(
            f,
            json::required_fault::<String>(t, "currency"@, 0, "struct SpendReport with 2 elements"@),
        );
        let f = json::first_fault(
            f,
            json::required_fault::<u64>(t, "namespace_monthly_minor"@, 1, "struct SpendReport with 2 elements"@),
        );
        json::first_fault(f, t.surplus_fault(2))
    }

    open spec fn value(t: Tree) -> SpendReportModel {
        SpendReportModel {
            currency: json::field_value::<String>(t, "currency"@, 0),
            namespace_monthly_minor: json::field_value::<u64>(t, "namespace_monthly_minor"@, 1),
        }
    }

    open spec fn nothing() -> SpendReportModel {
        SpendReportModel {
            currency: Seq::empty(),
            namespace_monthly_minor: 0,
        }
    }

    fn read(j: &Json) -> (r: Result<Self, String>) {
        if let Err(e) = j.check_record("struct SpendReport") {
            return Err(e);
        }
        if let Err(e) = check_members::<SpendReport>(j) {
            return Err(e);
        }
        let currency: String = match read_required(
            j,
            "currency",
            0,
            "struct SpendReport with 2 elements",
        ) {
            Ok(x) => x,
            Err(e) => return Err(e),
        };
        let namespace_monthly_minor: u64 = match read_required(
            j,
            "namespace_monthly_minor",
            1,
            "struct SpendReport with 2 elements",
        ) {
            Ok(x) => x,
            Err(e) => return Err(e),
        };
        if let Err(e) = j.check_surplus(2) {
            return Err(e);
        }
        Ok(SpendReport { currency, namespace_monthly_minor })
    }

    fn absent() -> (r: Self) {
        SpendReport { currency: String::new(), namespace_monthly_minor: 0 }
    }
}

/// What a pod asks the scheduler to reserve.
#[derive(Debug, Clone, Copy, PartialEq, Eq, Structural)]
pub struct Reservation {
    pub cpu_millicores: u64,
    pub memory_bytes: u64,
}

impl DeepView for Reservation {
    type V = Reservation;

    open spec fn deep_view(&self) -> Reservation {
        *self
    }
}

impl Default for Reservation {
    fn default() -> (r: Reservation)
        ensures
            r == (Reservation { cpu_millicores: 0, memory_bytes: 0 }),
    {
        Reservation { cpu_millicores: 0, memory_bytes: 0 }
    }
}

/// A container that declared no request at all.
#[derive(Debug, Clone, PartialEq, Eq)]
pub struct Undeclared {
    pub container: String,
    pub kind: String,
}

/// What an [`Undeclared`] says.
#[verifier::ext_equal]
pub struct UndeclaredModel {
    pub container: Seq<char>,
    pub kind: Seq<char>,
}

impl DeepView for Undeclared {
    type V = UndeclaredModel;

    open spec fn deep_view(&self) -> UndeclaredModel {
        UndeclaredModel {
            container: self.container.deep_view(),
            kind: self.kind.deep_view(),
        }
    }
}

/// A pod's effective reservation, and the containers that declared nothing.
#[derive(Debug, Clone, PartialEq, Eq)]
pub struct PodReservation {
    pub reservation: Reservation,
    /// Containers with no request at all. An empty request is not a request for nothing: such a
    /// container uses whatever the node has spare.
    pub undeclared: Vec<Undeclared>,
}

/// What a [`PodReservation`] says.
#[verifier::ext_equal]
pub struct PodReservationModel {
    pub reservation: Reservation,
    pub undeclared: Seq<UndeclaredModel>,
}

impl DeepView for PodReservation {
    type V = PodReservationModel;

    open spec fn deep_view(&self) -> PodReservationModel {
        PodReservationModel {
            reservation: self.reservation.deep_view(),
            undeclared: self.undeclared.deep_view(),
        }
    }
}

impl CostErrorModel {
    /// The complaint in words.
    pub open spec fn message(self) -> Seq<char> {
        match self {
            CostErrorModel::NotJson { what, why } => what + " is not JSON: "@ + why,
            CostErrorModel::NotAQuantity { container, field, value } => "container `"@ + container
                + "` declares "@ + field + ": `"@ + value
                + "`, which is not a Kubernetes quantity — a request nobody can read cannot be charged"@,
            CostErrorModel::CurrencyMismatch { report, expected } => "the spend report is in "@ + report
                + ", but the grant's budget is denominated in "@ + expected
                + " — comparing them would silently mis-size the ceiling"@,
        }
    }
}

impl CostError {
    pub fn to_text(&self) -> (r: String)
        ensures
            r@ == self.deep_view().message(),
    {
        match self {
            CostError::NotJson { what, why } => {
                let mut m = what.clone();
                m.append(" is not JSON: ");
                m.append(why.as_str());
                m
            },
            CostError::NotAQuantity { container, field, value } => {
                let mut m = owned("container `");
                m.append(container.as_str());
                m.append("` declares ");
                m.append(field.as_str());
                m.append(": `");
                m.append(value.as_str());
                m.append(
                    "`, which is not a Kubernetes quantity — a request nobody can read cannot be charged",
                );
                m
            },
            CostError::CurrencyMismatch { report, expected } => {
                let mut m = owned("the spend report is in ");
                m.append(report.as_str());
                m.append(", but the grant's budget is denominated in ");
                m.append(expected.as_str());
                m.append(" — comparing them would silently mis-size the ceiling");
                m
            },
        }
    }
}

// ---------------------------------------------------------------------------------------------
// Prices and reports
// ---------------------------------------------------------------------------------------------
/// What `str::to_uppercase` makes of a text.
pub uninterp spec fn uppercase(s: Seq<char>) -> Seq<char>;

/// `str::to_uppercase`: a function of the text alone, which on ASCII text is the ASCII upper case.
#[verifier::external_body]
fn to_uppercase(s: &str) -> (r: String)
    ensures
        r@ == uppercase(s@),
        vstd::utf8::is_ascii_chars(s@) ==> r@ == text::ascii_upper(s@),
{
    s.to_uppercase()
}

/// What it is called, and its fields in order.
impl Record for PriceList {
    open spec fn title() -> Seq<char> {
        "struct PriceList"@
    }

    open spec fn layout() -> Seq<FieldModel> {
        seq![
            FieldModel { name: "currency"@, required: true },
            FieldModel { name: "cpu_core_month_minor"@, required: true },
            FieldModel { name: "gib_month_minor"@, required: true },
        ]
    }

    open spec fn scan_field(i: nat, s: Seq<char>) -> Scan {
        if i == 0 {
            String::scan(s)
        } else if i == 1 {
            u64::scan(s)
        } else {
            u64::scan(s)
        }
    }

    fn called() -> (r: &'static str) {
        "struct PriceList"
    }

    fn fields() -> (r: Vec<Field>) {
        let mut v: Vec<Field> = Vec::new();
        v.push(Field { name: "currency", required: true });
        v.push(Field { name: "cpu_core_month_minor", required: true });
        v.push(Field { name: "gib_month_minor", required: true });
        assert(v.deep_view() =~= Self::layout());
        v
    }

    fn check_field<'a>(i: usize, s: &'a str) -> (r: Scanned<'a>) {
        if i == 0 {
            String::check_text(s)
        } else if i == 1 {
            u64::check_text(s)
        } else {
            u64::check_text(s)
        }
    }
}

/// Read straight from a text.
impl Scannable for PriceList {
    open spec fn scan(s: Seq<char>) -> Scan {
        scan::scan_record::<PriceList>(s)
    }

    fn check_text<'a>(s: &'a str) -> (r: Scanned<'a>) {
        check_record::<PriceList>(s)
    }
}

/// What it is called, and its fields in order.
impl Record for SpendReport {
    open spec fn title() -> Seq<char> {
        "struct SpendReport"@
    }

    open spec fn layout() -> Seq<FieldModel> {
        seq![
            FieldModel { name: "currency"@, required: true },
            FieldModel { name: "namespace_monthly_minor"@, required: true },
        ]
    }

    open spec fn scan_field(i: nat, s: Seq<char>) -> Scan {
        if i == 0 {
            String::scan(s)
        } else {
            u64::scan(s)
        }
    }

    fn called() -> (r: &'static str) {
        "struct SpendReport"
    }

    fn fields() -> (r: Vec<Field>) {
        let mut v: Vec<Field> = Vec::new();
        v.push(Field { name: "currency", required: true });
        v.push(Field { name: "namespace_monthly_minor", required: true });
        assert(v.deep_view() =~= Self::layout());
        v
    }

    fn check_field<'a>(i: usize, s: &'a str) -> (r: Scanned<'a>) {
        if i == 0 {
            String::check_text(s)
        } else {
            u64::check_text(s)
        }
    }
}

/// Read straight from a text.
impl Scannable for SpendReport {
    open spec fn scan(s: Seq<char>) -> Scan {
        scan::scan_record::<SpendReport>(s)
    }

    fn check_text<'a>(s: &'a str) -> (r: Scanned<'a>) {
        check_record::<SpendReport>(s)
    }
}

impl PriceListModel {
    /// The price list that a document says: its currency is held in upper case.
    pub open spec fn of(t: Tree) -> PriceListModel {
        let p = PriceList::value(t);
        PriceListModel { currency: uppercase(p.currency), ..p }
    }

    /// The price of a reservation, in minor units per month: millicores by the core rate and
    /// bytes by the GiB rate, summed, truncated once, and capped at what fits.
    pub open spec fn priced(self, r: Reservation) -> nat {
        let exact = r.cpu_millicores * self.cpu_core_month_minor * 0x4000_0000 + r.memory_bytes
            * self.gib_month_minor * 1000;
        let minor = exact / (1000int * 0x4000_0000int);
        if minor <= u64::MAX {
            minor as nat
        } else {
            u64::MAX as nat
        }
    }
}

impl PriceList {
    /// The price list that a document says.
    pub fn from_document(doc: &Json) -> (r: Result<PriceList, CostError>)
        ensures
            match r {
                Ok(p) => PriceList::fault(doc@) is None && p.deep_view() == PriceListModel::of(doc@),
                Err(e) => PriceList::fault(doc@) is Some && e.deep_view() == (CostErrorModel::NotJson {
                    what: "the price list"@,
                    why: PriceList::fault(doc@)->0,
                }),
            },
    {
        match PriceList::read(doc) {
            Ok(p) => {
                let currency = to_uppercase(p.currency.as_str());
                Ok(
                    PriceList {
                        currency,
                        cpu_core_month_minor: p.cpu_core_month_minor,
                        gib_month_minor: p.gib_month_minor,
                    },
                )
            },
            Err(why) => Err(CostError::NotJson { what: owned("the price list"), why }),
        }
    }

    /// Parse it, and hold it to its text: the first thing that does not fit is complained of, with
    /// its line and column, and a field that is given twice does not fit.
    pub fn from_json(src: &str) -> (r: Result<PriceList, CostError>)
        ensures
            match scan::source::<PriceList>(src@) {
                Ok(t) => match r {
                    Ok(p) => PriceList::fault(t) is None && p.deep_view() == PriceListModel::of(t),
                    Err(e) => PriceList::fault(t) is Some && e.deep_view() == (CostErrorModel::NotJson {
                        what: "the price list"@,
                        why: PriceList::fault(t)->0,
                    }),
                },
                Err(complaint) => r matches Err(e) && e.deep_view() == (CostErrorModel::NotJson {
                    what: "the price list"@,
                    why: complaint,
                }),
            },
    {
        match read_source::<PriceList>(src) {
            Ok(doc) => PriceList::from_document(&doc),
            Err(why) => Err(CostError::NotJson { what: owned("the price list"), why }),
        }
    }

    /// Price one pod's reservation, in minor units per month.
    pub fn price(&self, r: &Reservation) -> (minor: u64)
        ensures
            minor == self.deep_view().priced(*r),
    {
        let a: u128 = r.cpu_millicores as u128;
        let b: u128 = self.cpu_core_month_minor as u128;
        let c: u128 = r.memory_bytes as u128;
        let d: u128 = self.gib_month_minor as u128;
        assert(a * b <= 0xffff_ffff_ffff_ffff * 0xffff_ffff_ffff_ffff) by (nonlinear_arith)
            requires
                a <= 0xffff_ffff_ffff_ffff,
                b <= 0xffff_ffff_ffff_ffff,
        ;
        assert(c * d <= 0xffff_ffff_ffff_ffff * 0xffff_ffff_ffff_ffff) by (nonlinear_arith)
            requires
                c <= 0xffff_ffff_ffff_ffff,
                d <= 0xffff_ffff_ffff_ffff,
        ;
        assert(a * b >= 0 && c * d >= 0) by (nonlinear_arith)
            requires
                a >= 0,
                b >= 0,
                c >= 0,
                d >= 0,
        ;
        let cpu: u128 = a * b;
        let memory: u128 = c * d;
        // What the two divisions leave over is less than one unit each, so it adds one at most.
        let over: u128 = (cpu % 1000) * 0x4000_0000 + (memory % 0x4000_0000) * 1000;
        let total: u128 = cpu / 1000 + memory / 0x4000_0000 + over / 1_073_741_824_000;
        assert(total == (cpu * 0x4000_0000 + memory * 1000) / (1000int * 0x4000_0000int));
        if total <= u64::MAX as u128 {
            total as u64
        } else {
            u64::MAX
        }
    }
}

impl SpendReportModel {
    /// The report that a document says: its currency is held in upper case.
    pub open spec fn of(t: Tree) -> SpendReportModel {
        let s = SpendReport::value(t);
        SpendReportModel { currency: uppercase(s.currency), ..s }
    }

    /// The report is in `expected`, whatever the case of either.
    pub open spec fn is_in(self, expected: Seq<char>) -> bool {
        text::ascii_upper(self.currency) == text::ascii_upper(expected)
    }
}

impl SpendReport {
    /// The report that a document says.
    pub fn from_document(doc: &Json) -> (r: Result<SpendReport, CostError>)
        ensures
            match r {
                Ok(p) => SpendReport::fault(doc@) is None && p.deep_view() == SpendReportModel::of(
                    doc@,
                ),
                Err(e) => SpendReport::fault(doc@) is Some && e.deep_view() == (
                CostErrorModel::NotJson {
                    what: "the spend report"@,
                    why: SpendReport::fault(doc@)->0,
                }),
            },
    {
        match SpendReport::read(doc) {
            Ok(s) => {
                let currency = to_uppercase(s.currency.as_str());
                Ok(SpendReport { currency, namespace_monthly_minor: s.namespace_monthly_minor })
            },
            Err(why) => Err(CostError::NotJson { what: owned("the spend report"), why }),
        }
    }

    /// Parse it, and hold it to its text: the first thing that does not fit is complained of, with
    /// its line and column, and a field that is given twice does not fit.
    pub fn from_json(src: &str) -> (r: Result<SpendReport, CostError>)
        ensures
            match scan::source::<SpendReport>(src@) {
                Ok(t) => match r {
                    Ok(p) => SpendReport::fault(t) is None && p.deep_view() == SpendReportModel::of(t),
                    Err(e) => SpendReport::fault(t) is Some && e.deep_view() == (CostErrorModel::NotJson {
                        what: "the spend report"@,
                        why: SpendReport::fault(t)->0,
                    }),
                },
                Err(complaint) => r matches Err(e) && e.deep_view() == (CostErrorModel::NotJson {
                    what: "the spend report"@,
                    why: complaint,
                }),
            },
    {
        match read_source::<SpendReport>(src) {
            Ok(doc) => SpendReport::from_document(&doc),
            Err(why) => Err(CostError::NotJson { what: owned("the spend report"), why }),
        }
    }

    /// Is the report in the currency the budget is in? It is never converted.
    pub fn check_currency(&self, expected: &str) -> (r: Result<(), CostError>)
        ensures
            match r {
                Ok(()) => self.deep_view().is_in(expected@),
                Err(e) => !self.deep_view().is_in(expected@) && e.deep_view() == (
                CostErrorModel::CurrencyMismatch {
                    report: self.currency@,
                    expected: expected@,
                }),
            },
    {
        if same(to_upper(self.currency.as_str()).as_str(), to_upper(expected).as_str()) {
            Ok(())
        } else {
            Err(
                CostError::CurrencyMismatch {
                    report: self.currency.clone(),
                    expected: owned(expected),
                },
            )
        }
    }
}

// ---------------------------------------------------------------------------------------------
// Quantities
// ---------------------------------------------------------------------------------------------
/// Ten to the power `n`.
pub open spec fn pow10(n: nat) -> nat
    decreases n,
{
    if n == 0 {
        1
    } else {
        10 * pow10((n - 1) as nat)
    }
}

/// `v`, where it fits in 64 bits.
pub open spec fn fitting(v: nat) -> Option<u64> {
    if v <= u64::MAX {
        Some(v as u64)
    } else {
        None
    }
}

/// What stands before the first point of `s`.
pub open spec fn whole_part(s: Seq<char>) -> Seq<char> {
    s.subrange(0, text::first_at(s, '.'))
}

/// What stands after the first point of `s`.
pub open spec fn fraction_part(s: Seq<char>) -> Seq<char> {
    let at = text::first_at(s, '.');
    if at < s.len() {
        s.subrange(at + 1, s.len() as int)
    } else {
        Seq::empty()
    }
}

/// `s` is decimal digits with at most one point among them, at most `places` digits after it and
/// at least one digit in all.
pub open spec fn is_decimal(s: Seq<char>, places: nat) -> bool {
    let whole = whole_part(s);
    let fraction = fraction_part(s);
    &&& whole.len() + fraction.len() > 0
    &&& text::all_digits(whole)
    &&& text::all_digits(fraction)
    &&& fraction.len() <= places
}

/// The decimal number `s`, scaled by ten to the power `places`.
pub open spec fn scaled(s: Seq<char>, places: nat) -> Option<u64> {
    let fraction = fraction_part(s);
    if is_decimal(s, places) && pow10(places) <= u64::MAX {
        fitting(
            text::digits_value(whole_part(s)) * pow10(places) + text::digits_value(fraction) * pow10(
                (places - fraction.len()) as nat,
            ),
        )
    } else {
        None
    }
}

/// The millicores that a CPU quantity says: `100m`, `0.5`, `2`.
pub open spec fn cpu_quantity(q: Seq<char>) -> Option<u64> {
    let s = text::trimmed(q);
    if s.len() == 0 {
        None
    } else if text::ends_with(s, "m"@) {
        text::number_u64(text::before_suffix(s, "m"@))
    } else {
        scaled(s, 3)
    }
}

/// `n` units of `size`, where `s` is the text of `n` before `suffix`.
pub open spec fn units(s: Seq<char>, suffix: Seq<char>, size: nat) -> Option<u64> {
    match text::number_u64(text::trimmed(text::before_suffix(s, suffix))) {
        Some(n) => fitting(n as nat * size),
        None => None,
    }
}

/// The bytes that a memory quantity says. The binary and the decimal suffixes are different
/// numbers: `1Mi` is 1048576 and `1M` is 1000000.
pub open spec fn memory_quantity(q: Seq<char>) -> Option<u64> {
    let s = text::trimmed(q);
    if s.len() == 0 {
        None
    } else if text::ends_with(s, "Ki"@) {
        units(s, "Ki"@, 0x400)
    } else if text::ends_with(s, "Mi"@) {
        units(s, "Mi"@, 0x10_0000)
    } else if text::ends_with(s, "Gi"@) {
        units(s, "Gi"@, 0x4000_0000)
    } else if text::ends_with(s, "Ti"@) {
        units(s, "Ti"@, 0x100_0000_0000)
    } else if text::ends_with(s, "Pi"@) {
        units(s, "Pi"@, 0x4_0000_0000_0000)
    } else if text::ends_with(s, "k"@) {
        units(s, "k"@, 1_000)
    } else if text::ends_with(s, "K"@) {
        units(s, "K"@, 1_000)
    } else if text::ends_with(s, "M"@) {
        units(s, "M"@, 1_000_000)
    } else if text::ends_with(s, "G"@) {
        units(s, "G"@, 1_000_000_000)
    } else if text::ends_with(s, "T"@) {
        units(s, "T"@, 1_000_000_000_000)
    } else if text::ends_with(s, "P"@) {
        units(s, "P"@, 1_000_000_000_000_000)
    } else {
        text::number_u64(s)
    }
}

/// Parse a Kubernetes CPU quantity into millicores.
pub fn parse_cpu(q: &str) -> (r: Option<u64>)
    ensures
        r == cpu_quantity(q@),
{
    let s = trim(q);
    if s.unicode_len() == 0 {
        return None;
    }
    if let Some(milli) = strip_suffix(s, "m") {
        return parse(milli);
    }
    scale_decimal(s, 3)
}

proof fn pow10_adds(a: nat, b: nat)
    ensures
        pow10(a + b) == pow10(a) * pow10(b),
        pow10(a) >= 1,
    decreases a,
{
    if a > 0 {
        pow10_adds((a - 1) as nat, b);
        assert((a - 1) as nat + b == (a + b - 1) as nat);
        assert(10 * (pow10((a - 1) as nat) * pow10(b)) == (10 * pow10((a - 1) as nat)) * pow10(b))
            by (nonlinear_arith);
    } else {
        assert(1 * pow10(b) == pow10(b));
    }
}

proof fn pow10_grows(a: nat, b: nat)
    requires
        a <= b,
    ensures
        pow10(a) <= pow10(b),
{
    pow10_adds((b - a) as nat, a);
    assert(pow10(a) <= pow10((b - a) as nat) * pow10(a)) by (nonlinear_arith)
        requires
            pow10((b - a) as nat) >= 1,
    ;
}

proof fn digits_value_bounded(s: Seq<char>)
    requires
        text::all_digits(s),
    ensures
        text::digits_value(s) < pow10(s.len()),
    decreases s.len(),
{
    if s.len() > 0 {
        assert(text::is_digit(s[s.len() - 1]));
        assert(text::all_digits(s.drop_last())) by {
            assert forall|i: int| 0 <= i < s.drop_last().len() implies text::is_digit(
                #[trigger] s.drop_last()[i],
            ) by {
                assert(text::is_digit(s[i]));
            }
        }
        digits_value_bounded(s.drop_last());
    }
}

/// Ten to the power `n`, where it fits.
fn power_of_ten(n: u32) -> (r: Option<u64>)
    ensures
        r == fitting(pow10(n as nat)),
{
    let mut p: u64 = 1;
    let mut i: u32 = 0;
    while i < n
        invariant
            i <= n,
            p == pow10(i as nat),
        decreases n - i,
    {
        assert(pow10((i + 1) as nat) == 10 * pow10(i as nat));
        match p.checked_mul(10) {
            Some(q) => {
                p = q;
            },
            None => {
                proof {
                    pow10_grows((i + 1) as nat, n as nat);
                }
                return None;
            },
        }
        i += 1;
    }
    Some(p)
}

/// The decimal number `src`, scaled by ten to the power `places`: `"1.5"` with three places is 1500.
pub fn scale_decimal(src: &str, places: u32) -> (r: Option<u64>)
    ensures
        r == scaled(src@, places as nat),
{
    let (whole, fraction) = match split_once(src, '.') {
        Some((w, f)) => (w, f),
        None => {
            assert(whole_part(src@) =~= src@);
            (src, "")
        },
    };
    proof {
        reveal_strlit("");
        assert(fraction@ =~= fraction_part(src@));
    }
    let n: usize = fraction.unicode_len();
    if whole.unicode_len() == 0 && n == 0 {
        return None;
    }
    if !digits_only(whole) || !digits_only(fraction) || n > places as usize {
        return None;
    }
    let scale: u64 = match power_of_ten(places) {
        Some(s) => s,
        None => return None,
    };
    let pad: u64 = match power_of_ten(places - n as u32) {
        Some(p) => p,
        None => {
            proof {
                pow10_grows((places - n) as nat, places as nat);
            }
            return None;
        },
    };
    let ghost value = text::digits_value(whole@) * pow10(places as nat) + text::digits_value(
        fraction@,
    ) * pow10((places - n) as nat);
    proof {
        digits_value_bounded(fraction@);
        pow10_adds(n as nat, (places - n) as nat);
        pow10_adds((places - n) as nat, 0);
        pow10_grows(n as nat, places as nat);
        assert(text::digits_value(fraction@) * pow10((places - n) as nat) <= pow10(n as nat) * pow10(
            (places - n) as nat,
        )) by (nonlinear_arith)
            requires
                text::digits_value(fraction@) < pow10(n as nat),
        ;
    }
    let head: u64 = match digits_number(whole) {
        Some(v) => v,
        None => {
            proof {
                pow10_adds(places as nat, 0);
                assert(text::digits_value(whole@) <= text::digits_value(whole@) * pow10(places as nat))
                    by (nonlinear_arith)
                    requires
                        pow10(places as nat) >= 1,
                ;
            }
            return None;
        },
    };
    let tail: u64 = match digits_number(fraction) {
        Some(v) => v,
        None => return None,
    };
    assert(head as int * scale as int <= 0xffff_ffff_ffff_ffff * 0xffff_ffff_ffff_ffff) by (nonlinear_arith)
        requires
            head <= 0xffff_ffff_ffff_ffff,
            scale <= 0xffff_ffff_ffff_ffff,
    ;
    assert(head as int * scale as int >= 0 && tail as int * pad as int >= 0) by (nonlinear_arith);
    let total: u128 = head as u128 * scale as u128 + tail as u128 * pad as u128;
    assert(total == value);
    if total <= u64::MAX as u128 {
        Some(total as u64)
    } else {
        None
    }
}

/// The number that decimal digits write, where it fits; none at all write zero.
fn digits_number(s: &str) -> (r: Option<u64>)
    requires
        text::all_digits(s@),
    ensures
        r == fitting(text::digits_value(s@)),
{
    if s.unicode_len() == 0 {
        return Some(0);
    }
    assert(text::is_digit(s@[0]));
    parse(s)
}

/// [`units`], computed, where `s` ends in `suffix`.
fn suffixed(s: &str, suffix: &str, size: u64) -> (r: Option<Option<u64>>)
    ensures
        match r {
            Some(n) => text::ends_with(s@, suffix@) && n == units(s@, suffix@, size as nat),
            None => !text::ends_with(s@, suffix@),
        },
{
    match strip_suffix(s, suffix) {
        Some(head) => match parse(trim(head)) {
            Some(n) => {
                assert(n as nat * size as nat == n * size) by (nonlinear_arith);
                Some(n.checked_mul(size))
            },
            None => Some(None),
        },
        None => None,
    }
}

/// Parse a Kubernetes memory quantity into bytes.
pub fn parse_memory(q: &str) -> (r: Option<u64>)
    ensures
        r == memory_quantity(q@),
{
    let s = trim(q);
    if s.unicode_len() == 0 {
        return None;
    }
    if let Some(n) = suffixed(s, "Ki", 0x400) {
        return n;
    }
    if let Some(n) = suffixed(s, "Mi", 0x10_0000) {
        return n;
    }
    if let Some(n) = suffixed(s, "Gi", 0x4000_0000) {
        return n;
    }
    if let Some(n) = suffixed(s, "Ti", 0x100_0000_0000) {
        return n;
    }
    if let Some(n) = suffixed(s, "Pi", 0x4_0000_0000_0000) {
        return n;
    }
    if let Some(n) = suffixed(s, "k", 1_000) {
        return n;
    }
    if let Some(n) = suffixed(s, "K", 1_000) {
        return n;
    }
    if let Some(n) = suffixed(s, "M", 1_000_000) {
        return n;
    }
    if let Some(n) = suffixed(s, "G", 1_000_000_000) {
        return n;
    }
    if let Some(n) = suffixed(s, "T", 1_000_000_000_000) {
        return n;
    }
    if let Some(n) = suffixed(s, "P", 1_000_000_000_000_000) {
        return n;
    }
    parse(s)
}

// ---------------------------------------------------------------------------------------------
// The effective reservation
// ---------------------------------------------------------------------------------------------
/// One container with the role it plays.
pub type Placed = (ContainerKind, ContainerModel);

/// The request of `c` that is no quantity, its CPU request first.
pub open spec fn bad_quantity(c: ContainerModel) -> Option<CostErrorModel> {
    let cpu = c.resources.requests.cpu;
    let memory = c.resources.requests.memory;
    if cpu is Some && cpu_quantity(cpu->0) is None {
        Some(
            CostErrorModel::NotAQuantity {
                container: c.name,
                field: "resources.requests.cpu"@,
                value: cpu->0,
            },
        )
    } else if memory is Some && memory_quantity(memory->0) is None {
        Some(
            CostErrorModel::NotAQuantity {
                container: c.name,
                field: "resources.requests.memory"@,
                value: memory->0,
            },
        )
    } else {
        None
    }
}

/// The millicores that `c` asks for; none where it says nothing.
pub open spec fn cpu_of(c: ContainerModel) -> nat {
    match c.resources.requests.cpu {
        Some(q) => match cpu_quantity(q) {
            Some(n) => n as nat,
            None => 0,
        },
        None => 0,
    }
}

/// The bytes that `c` asks for; none where it says nothing.
pub open spec fn memory_of(c: ContainerModel) -> nat {
    match c.resources.requests.memory {
        Some(q) => match memory_quantity(q) {
            Some(n) => n as nat,
            None => 0,
        },
        None => 0,
    }
}

/// `c` asks for neither CPU nor memory.
pub open spec fn asks_nothing(c: ContainerModel) -> bool {
    c.resources.requests.cpu is None && c.resources.requests.memory is None
}

/// Containers of this kind run for the pod's whole life.
pub open spec fn keeps_running(k: ContainerKind) -> bool {
    k is App || k is Sidecar
}

/// The first request that is no quantity. Ephemeral containers reserve nothing, so theirs are
/// not read.
pub open spec fn first_bad(cs: Seq<Placed>) -> Option<CostErrorModel>
    decreases cs.len(),
{
    if cs.len() == 0 {
        None
    } else {
        let before = first_bad(cs.drop_last());
        if before is Some || cs.last().0 is Ephemeral {
            before
        } else {
            bad_quantity(cs.last().1)
        }
    }
}

/// What the containers that keep running ask for together.
pub open spec fn running_cpu(cs: Seq<Placed>) -> nat
    decreases cs.len(),
{
    if cs.len() == 0 {
        0
    } else {
        running_cpu(cs.drop_last()) + if keeps_running(cs.last().0) {
            cpu_of(cs.last().1)
        } else {
            0
        }
    }
}

/// What the containers that keep running ask for together.
pub open spec fn running_memory(cs: Seq<Placed>) -> nat
    decreases cs.len(),
{
    if cs.len() == 0 {
        0
    } else {
        running_memory(cs.drop_last()) + if keeps_running(cs.last().0) {
            memory_of(cs.last().1)
        } else {
            0
        }
    }
}

/// The most that any one init container asks for.
pub open spec fn init_cpu(cs: Seq<Placed>) -> nat
    decreases cs.len(),
{
    if cs.len() == 0 {
        0
    } else {
        larger(
            init_cpu(cs.drop_last()),
            if cs.last().0 is Init {
                cpu_of(cs.last().1)
            } else {
                0
            },
        )
    }
}

/// The most that any one init container asks for.
pub open spec fn init_memory(cs: Seq<Placed>) -> nat
    decreases cs.len(),
{
    if cs.len() == 0 {
        0
    } else {
        larger(
            init_memory(cs.drop_last()),
            if cs.last().0 is Init {
                memory_of(cs.last().1)
            } else {
                0
            },
        )
    }
}

/// The larger of two numbers.
pub open spec fn larger(a: nat, b: nat) -> nat {
    if a >= b {
        a
    } else {
        b
    }
}

/// `v`, or the largest 64-bit number where it does not fit.
pub open spec fn capped(v: nat) -> u64 {
    if v <= u64::MAX {
        v as u64
    } else {
        u64::MAX
    }
}

/// The containers that declared nothing, in order; ephemeral ones cannot.
pub open spec fn undeclared_in(cs: Seq<Placed>) -> Seq<UndeclaredModel>
    decreases cs.len(),
{
    if cs.len() == 0 {
        Seq::empty()
    } else {
        let before = undeclared_in(cs.drop_last());
        if !(cs.last().0 is Ephemeral) && asks_nothing(cs.last().1) {
            before.push(UndeclaredModel { container: cs.last().1.name, kind: cs.last().0.place() })
        } else {
            before
        }
    }
}

/// A pod's effective reservation: on each axis the larger of what the running phase needs, which
/// is the sum over app containers and sidecars, and what the init phase needs, which is the
/// largest of the init containers, since they run one after another.
pub open spec fn effective(cs: Seq<Placed>) -> PodReservationModel {
    PodReservationModel {
        reservation: Reservation {
            cpu_millicores: larger(capped(running_cpu(cs)) as nat, init_cpu(cs)) as u64,
            memory_bytes: larger(capped(running_memory(cs)) as nat, init_memory(cs)) as u64,
        },
        undeclared: undeclared_in(cs),
    }
}

impl Reservation {
    /// The larger of the two on each axis.
    pub fn max(self, other: Reservation) -> (r: Reservation)
        ensures
            r.cpu_millicores == larger(self.cpu_millicores as nat, other.cpu_millicores as nat),
            r.memory_bytes == larger(self.memory_bytes as nat, other.memory_bytes as nat),
    {
        Reservation {
            cpu_millicores: if self.cpu_millicores >= other.cpu_millicores {
                self.cpu_millicores
            } else {
                other.cpu_millicores
            },
            memory_bytes: if self.memory_bytes >= other.memory_bytes {
                self.memory_bytes
            } else {
                other.memory_bytes
            },
        }
    }

    /// The sum on each axis, capped at what fits.
    pub fn plus(self, other: Reservation) -> (r: Reservation)
        ensures
            r.cpu_millicores == capped((self.cpu_millicores + other.cpu_millicores) as nat),
            r.memory_bytes == capped((self.memory_bytes + other.memory_bytes) as nat),
    {
        Reservation {
            cpu_millicores: self.cpu_millicores.saturating_add(other.cpu_millicores),
            memory_bytes: self.memory_bytes.saturating_add(other.memory_bytes),
        }
    }
}

/// What one container asks for, or the request that is no quantity.
fn request_of(c: &Container) -> (r: Result<Reservation, CostError>)
    ensures
        match r {
            Ok(q) => {
                &&& bad_quantity(c.deep_view()) is None
                &&& q.cpu_millicores == cpu_of(c.deep_view())
                &&& q.memory_bytes == memory_of(c.deep_view())
            },
            Err(e) => bad_quantity(c.deep_view()) == Some(e.deep_view()),
        },
{
    let cpu: u64 = match &c.resources.requests.cpu {
        Some(q) => match parse_cpu(q.as_str()) {
            Some(n) => n,
            None => return Err(
                CostError::NotAQuantity {
                    container: c.name.clone(),
                    field: owned("resources.requests.cpu"),
                    value: q.clone(),
                },
            ),
        },
        None => 0,
    };
    let memory: u64 = match &c.resources.requests.memory {
        Some(q) => match parse_memory(q.as_str()) {
            Some(n) => n,
            None => return Err(
                CostError::NotAQuantity {
                    container: c.name.clone(),
                    field: owned("resources.requests.memory"),
                    value: q.clone(),
                },
            ),
        },
        None => 0,
    };
    Ok(Reservation { cpu_millicores: cpu, memory_bytes: memory })
}

proof fn first_bad_stays(cs: Seq<Placed>, i: int)
    requires
        0 <= i <= cs.len(),
        first_bad(cs.subrange(0, i)) is Some,
    ensures
        first_bad(cs) == first_bad(cs.subrange(0, i)),
    decreases cs.len() - i,
{
    if i == cs.len() {
        assert(cs.subrange(0, i) =~= cs);
    } else {
        assert(cs.subrange(0, i + 1).drop_last() =~= cs.subrange(0, i));
        first_bad_stays(cs, i + 1);
    }
}

/// A pod's effective reservation, by Kubernetes' own rule.
pub fn effective_requests(containers: &[(ContainerKind, &Container)]) -> (r: Result<
    PodReservation,
    CostError,
>)
    ensures
        match r {
            Ok(p) => first_bad(containers.deep_view()) is None && p.deep_view() == effective(
                containers.deep_view(),
            ),
            Err(e) => first_bad(containers.deep_view()) == Some(e.deep_view()),
        },
{
    let ghost cs = containers.deep_view();
    let mut running = Reservation { cpu_millicores: 0, memory_bytes: 0 };
    let mut peak = Reservation { cpu_millicores: 0, memory_bytes: 0 };
    let mut undeclared: Vec<Undeclared> = Vec::new();
    let mut i: usize = 0;
    assert(undeclared.deep_view() =~= Seq::empty());
    while i < containers.len()
        invariant
            i <= containers@.len(),
            cs == containers.deep_view(),
            first_bad(cs.subrange(0, i as int)) is None,
            running.cpu_millicores == capped(running_cpu(cs.subrange(0, i as int))),
            running.memory_bytes == capped(running_memory(cs.subrange(0, i as int))),
            peak.cpu_millicores == init_cpu(cs.subrange(0, i as int)),
            peak.memory_bytes == init_memory(cs.subrange(0, i as int)),
            undeclared.deep_view() == undeclared_in(cs.subrange(0, i as int)),
        decreases containers@.len() - i,
    {
        let ghost next = cs.subrange(0, i + 1);
        assert(next.drop_last() =~= cs.subrange(0, i as int));
        let (kind, c) = containers[i];
        assert(next.last() == (kind, c.deep_view()));
        if kind != ContainerKind::Ephemeral {
            let asked = match request_of(c) {
                Ok(q) => q,
                Err(e) => {
                    proof {
                        first_bad_stays(cs, i + 1);
                    }
                    return Err(e);
                },
            };
            if c.resources.requests.cpu.is_none() && c.resources.requests.memory.is_none() {
                let ghost before = undeclared.deep_view();
                undeclared.push(
                    Undeclared { container: c.name.clone(), kind: owned(kind.as_str()) },
                );
                assert(undeclared.deep_view() =~= before.push(
                    UndeclaredModel { container: c.name@, kind: kind.place() },
                ));
            }
            if kind == ContainerKind::Init {
                peak = peak.max(asked);
            } else {
                running = running.plus(asked);
            }
        }
        i += 1;
    }
    assert(cs.subrange(0, i as int) =~= cs);
    Ok(PodReservation { reservation: running.max(peak), undeclared })
}

// ---------------------------------------------------------------------------------------------
// Laws
// ---------------------------------------------------------------------------------------------
/// An ephemeral container reserves nothing: it changes neither what a pod holds nor whether it can
/// be priced.
pub proof fn an_ephemeral_container_reserves_nothing(cs: Seq<Placed>, c: ContainerModel)
    ensures
        effective(cs.push((ContainerKind::Ephemeral, c))) == effective(cs),
        first_bad(cs.push((ContainerKind::Ephemeral, c))) == first_bad(cs),
{
    assert(cs.push((ContainerKind::Ephemeral, c)).drop_last() =~= cs);
}

/// An init container is a peak: on each axis the pod then holds the larger of what it held and what
/// the init container asks for, never their sum.
pub proof fn an_init_container_is_a_peak(cs: Seq<Placed>, c: ContainerModel)
    ensures
        effective(cs.push((ContainerKind::Init, c))).reservation == (Reservation {
            cpu_millicores: larger(
                effective(cs).reservation.cpu_millicores as nat,
                cpu_of(c),
            ) as u64,
            memory_bytes: larger(
                effective(cs).reservation.memory_bytes as nat,
                memory_of(c),
            ) as u64,
        }),
{
    assert(cs.push((ContainerKind::Init, c)).drop_last() =~= cs);
    peaks_fit(cs);
}

/// No init container asks for more than 64 bits hold.
proof fn peaks_fit(cs: Seq<Placed>)
    ensures
        init_cpu(cs) <= u64::MAX,
        init_memory(cs) <= u64::MAX,
    decreases cs.len(),
{
    if cs.len() > 0 {
        peaks_fit(cs.drop_last());
    }
}

/// An app container and a sidecar are added to what runs, up to what 64 bits hold.
pub proof fn a_running_container_adds(cs: Seq<Placed>, k: ContainerKind, c: ContainerModel)
    requires
        keeps_running(k),
    ensures
        running_cpu(cs.push((k, c))) == running_cpu(cs) + cpu_of(c),
        running_memory(cs.push((k, c))) == running_memory(cs) + memory_of(c),
        init_cpu(cs.push((k, c))) == init_cpu(cs),
        init_memory(cs.push((k, c))) == init_memory(cs),
{
    assert(cs.push((k, c)).drop_last() =~= cs);
}

/// A pod that gains a container never holds less.
pub proof fn one_more_container_never_holds_less(cs: Seq<Placed>, c: Placed)
    ensures
        effective(cs.push(c)).reservation.cpu_millicores >= effective(
            cs,
        ).reservation.cpu_millicores,
        effective(cs.push(c)).reservation.memory_bytes >= effective(cs).reservation.memory_bytes,
{
    assert(cs.push(c).drop_last() =~= cs);
    peaks_fit(cs);
    peaks_fit(cs.push(c));
}

/// Leaving out every request is no way to be cheap: such a container is reported, wherever it stands
/// and whatever runs beside it.
pub proof fn a_container_that_declares_nothing_is_reported(cs: Seq<Placed>, i: int)
    requires
        0 <= i < cs.len(),
        !(cs[i].0 is Ephemeral),
        asks_nothing(cs[i].1),
    ensures
        effective(cs).undeclared.contains(
            UndeclaredModel { container: cs[i].1.name, kind: cs[i].0.place() },
        ),
    decreases cs.len(),
{
    let x = UndeclaredModel { container: cs[i].1.name, kind: cs[i].0.place() };
    let before = undeclared_in(cs.drop_last());
    if i == cs.len() - 1 {
        assert(undeclared_in(cs) == before.push(x));
        assert(before.push(x)[before.len() as int] == x);
    } else {
        assert(cs.drop_last()[i] == cs[i]);
        a_container_that_declares_nothing_is_reported(cs.drop_last(), i);
        let k = choose|k: int| 0 <= k < before.len() && before[k] == x;
        assert(undeclared_in(cs)[k] == x);
    }
}

/// Holding more never costs less, and neither does a higher price.
pub proof fn holding_more_never_costs_less(
    cheap: PriceListModel,
    dear: PriceListModel,
    small: Reservation,
    big: Reservation,
)
    requires
        small.cpu_millicores <= big.cpu_millicores,
        small.memory_bytes <= big.memory_bytes,
        cheap.cpu_core_month_minor <= dear.cpu_core_month_minor,
        cheap.gib_month_minor <= dear.gib_month_minor,
    ensures
        cheap.priced(small) <= dear.priced(big),
{
    products_grow(
        small.cpu_millicores as nat,
        big.cpu_millicores as nat,
        cheap.cpu_core_month_minor as nat,
        dear.cpu_core_month_minor as nat,
    );
    products_grow(
        small.memory_bytes as nat,
        big.memory_bytes as nat,
        cheap.gib_month_minor as nat,
        dear.gib_month_minor as nat,
    );
}

proof fn products_grow(a: nat, b: nat, c: nat, d: nat)
    requires
        a <= b,
        c <= d,
    ensures
        0 <= a * c <= b * d,
{
    assert(0 <= a * c <= b * d) by (nonlinear_arith)
        requires
            0 <= a <= b,
            0 <= c <= d,
    ;
}

/// A currency is one in either case.
pub proof fn a_currency_is_one_in_either_case(report: SpendReportModel, expected: Seq<char>)
    ensures
        report.is_in(expected) == report.is_in(text::ascii_upper(expected)),
        report.is_in(report.currency),
{
    assert(text::ascii_upper(text::ascii_upper(expected)) =~= text::ascii_upper(expected));
}

/// What one container adds to what runs.
spec fn running_share(c: Placed) -> (nat, nat) {
    if keeps_running(c.0) {
        (cpu_of(c.1), memory_of(c.1))
    } else {
        (0, 0)
    }
}

/// What one container adds to the peak.
spec fn peak_share(c: Placed) -> (nat, nat) {
    if c.0 is Init {
        (cpu_of(c.1), memory_of(c.1))
    } else {
        (0, 0)
    }
}

/// A container contributes the same wherever it stands.
proof fn taken_out(cs: Seq<Placed>, i: int)
    requires
        0 <= i < cs.len(),
    ensures
        running_cpu(cs) == running_cpu(cs.remove(i)) + running_share(cs[i]).0,
        running_memory(cs) == running_memory(cs.remove(i)) + running_share(cs[i]).1,
        init_cpu(cs) == larger(init_cpu(cs.remove(i)), peak_share(cs[i]).0),
        init_memory(cs) == larger(init_memory(cs.remove(i)), peak_share(cs[i]).1),
    decreases cs.len(),
{
    if i == cs.len() - 1 {
        assert(cs.remove(i) =~= cs.drop_last());
    } else {
        taken_out(cs.drop_last(), i);
        assert(cs.remove(i).drop_last() =~= cs.drop_last().remove(i));
        assert(cs.remove(i).last() == cs.last());
    }
}

/// The order in which a pod lists its containers makes no difference to what it holds.
pub proof fn the_order_of_containers_makes_no_difference(a: Seq<Placed>, b: Seq<Placed>)
    requires
        a.to_multiset() == b.to_multiset(),
    ensures
        effective(a).reservation == effective(b).reservation,
{
    order_makes_no_difference(a, b);
}

proof fn order_makes_no_difference(a: Seq<Placed>, b: Seq<Placed>)
    requires
        a.to_multiset() == b.to_multiset(),
    ensures
        running_cpu(a) == running_cpu(b),
        running_memory(a) == running_memory(b),
        init_cpu(a) == init_cpu(b),
        init_memory(a) == init_memory(b),
    decreases b.len(),
{
    broadcast use vstd::seq_lib::group_to_multiset_ensures;

    assert(a.len() == a.to_multiset().len());
    assert(b.len() == b.to_multiset().len());
    if b.len() > 0 {
        let last = b.len() - 1;
        assert(b.to_multiset().count(b[last]) > 0) by {
            assert(b.contains(b[last]));
        }
        assert(a.contains(b[last]));
        let i = choose|i: int| 0 <= i < a.len() && a[i] == b[last];
        taken_out(a, i);
        taken_out(b, last);
        order_makes_no_difference(a.remove(i), b.remove(last));
    }
}

/// A quantity is worth `v`, where that can be counted, and is none where it cannot.
pub open spec fn is_worth(q: Option<u64>, v: nat) -> bool {
    match q {
        Some(n) => n == v,
        None => v > u64::MAX,
    }
}

proof fn quantity_before(d: Seq<char>, suffix: Seq<char>)
    requires
        d.len() > 0,
        text::all_digits(d),
        0 < suffix.len() <= 2,
        !text::is_space(suffix.last()),
    ensures
        text::trimmed(d + suffix) == d + suffix,
        text::before_suffix(d + suffix, suffix) == d,
        (d + suffix).subrange(d.len() as int, (d + suffix).len() as int) == suffix,
        text::trimmed(d) == d,
        (d + suffix).last() == suffix.last(),
        suffix.len() == 2 ==> (d + suffix)[(d + suffix).len() - 2] == suffix[0],
        text::number_u64(d) == (if text::digits_value(d) <= u64::MAX {
            Some(text::digits_value(d) as u64)
        } else {
            None
        }),
{
    let s = d + suffix;
    assert(text::is_digit(d[0]) && text::is_digit(d[d.len() - 1]));
    assert(s[0] == d[0]);
    text::nothing_to_trim(s);
    text::nothing_to_trim(d);
    assert(s.subrange(0, s.len() - suffix.len()) =~= d);
    assert(s.subrange(d.len() as int, s.len() as int) =~= suffix);
    text::a_number_is_its_digits(d);
    assert(d[0] != '+');
}

/// A memory quantity is worth its digits times the power that its suffix stands for: a thousand to the
/// first, second, third, fourth and fifth for `k` or `K`, `M`, `G`, `T` and `P`, and 1024 to the same
/// for `Ki`, `Mi`, `Gi`, `Ti` and `Pi`. Without a suffix it is bytes.
#[verifier::rlimit(50)]
pub proof fn a_memory_suffix_is_a_power(d: Seq<char>)
    requires
        d.len() > 0,
        text::all_digits(d),
    ensures
        is_worth(memory_quantity(d), text::digits_value(d)),
        is_worth(memory_quantity(d + "k"@), text::digits_value(d) * (1_000)),
        is_worth(memory_quantity(d + "K"@), text::digits_value(d) * (1_000)),
        is_worth(memory_quantity(d + "M"@), text::digits_value(d) * (1_000_000)),
        is_worth(memory_quantity(d + "G"@), text::digits_value(d) * (1_000_000_000)),
        is_worth(memory_quantity(d + "T"@), text::digits_value(d) * (1_000_000_000_000)),
        is_worth(memory_quantity(d + "P"@), text::digits_value(d) * (1_000_000_000_000_000)),
        is_worth(memory_quantity(d + "Ki"@), text::digits_value(d) * 1_024),
        is_worth(memory_quantity(d + "Mi"@), text::digits_value(d) * 1_048_576),
        is_worth(memory_quantity(d + "Gi"@), text::digits_value(d) * 1_073_741_824),
        is_worth(memory_quantity(d + "Ti"@), text::digits_value(d) * 1_099_511_627_776),
        is_worth(memory_quantity(d + "Pi"@), text::digits_value(d) * 1_125_899_906_842_624),
{
    reveal_strlit("k");
    reveal_strlit("K");
    reveal_strlit("M");
    reveal_strlit("G");
    reveal_strlit("T");
    reveal_strlit("P");
    reveal_strlit("Ki");
    reveal_strlit("Mi");
    reveal_strlit("Gi");
    reveal_strlit("Ti");
    reveal_strlit("Pi");
    quantity_before(d, "k"@);
    quantity_before(d, "K"@);
    quantity_before(d, "M"@);
    quantity_before(d, "G"@);
    quantity_before(d, "T"@);
    quantity_before(d, "P"@);
    quantity_before(d, "Ki"@);
    quantity_before(d, "Mi"@);
    quantity_before(d, "Gi"@);
    quantity_before(d, "Ti"@);
    quantity_before(d, "Pi"@);
    assert(text::is_digit(d[d.len() - 1]));
    assert forall|suffix: Seq<char>|
        suffix.len() > 0 && #[trigger] text::ends_with(d, suffix) implies suffix.last() == d.last() by {
        let end = d.subrange(d.len() - suffix.len(), d.len() as int);
        assert(end[end.len() - 1] == d.last());
    }
    ends_alike(d);
    ends_alike(d + "k"@);
    ends_alike(d + "K"@);
    ends_alike(d + "M"@);
    ends_alike(d + "G"@);
    ends_alike(d + "T"@);
    ends_alike(d + "P"@);
    ends_alike(d + "Ki"@);
    ends_alike(d + "Mi"@);
    ends_alike(d + "Gi"@);
    ends_alike(d + "Ti"@);
    ends_alike(d + "Pi"@);
}

/// Two endings of one text end in one character.
proof fn ends_alike(s: Seq<char>)
    ensures
        forall|suffix: Seq<char>|
            suffix.len() > 0 && #[trigger] text::ends_with(s, suffix) ==> suffix.last() == s.last()
                && (suffix.len() == 2 ==> suffix[0] == s[s.len() - 2]),
{
    assert forall|suffix: Seq<char>| suffix.len() > 0 && #[trigger] text::ends_with(s, suffix) implies
        suffix.last() == s.last() && (suffix.len() == 2 ==> suffix[0] == s[s.len() - 2]) by {
        let end = s.subrange(s.len() - suffix.len(), s.len() as int);
        assert(end[end.len() - 1] == s.last());
        if suffix.len() == 2 {
            assert(end[0] == s[s.len() - 2]);
        }
    }
}

/// A CPU quantity is counted in thousandths of a core: `m` counts them, a whole number counts cores,
/// and decimals count tenths, hundredths and thousandths. A fourth decimal is no quantity.
pub proof fn a_cpu_quantity_is_in_thousandths(w: Seq<char>, f: Seq<char>)
    requires
        text::all_digits(w),
        text::all_digits(f),
    ensures
        w.len() > 0 ==> is_worth(cpu_quantity(w + "m"@), text::digits_value(w)),
        w.len() > 0 ==> is_worth(cpu_quantity(w), text::digits_value(w) * 1000),
        w.len() + f.len() > 0 && f.len() <= 3 ==> is_worth(
            cpu_quantity(w + seq!['.'] + f),
            text::digits_value(w) * 1000 + text::digits_value(f) * (if f.len() == 3 {
                1nat
            } else if f.len() == 2 {
                10nat
            } else {
                100nat
            }),
        ),
        f.len() > 3 ==> cpu_quantity(w + seq!['.'] + f) is None,
{
    reveal_strlit("m");
    reveal_with_fuel(pow10, 5);
    if w.len() > 0 {
        quantity_before(w, "m"@);
        ends_alike(w);
        ends_alike(w + "m"@);
        assert(text::is_digit(w[w.len() - 1]));
        text::the_first_place_is_first(w, '.');
        assert(!w.contains('.')) by {
            if w.contains('.') {
                let i = choose|i: int| 0 <= i < w.len() && w[i] == '.';
                assert(text::is_digit(w[i]));
            }
        }
        assert(whole_part(w) =~= w);
        assert(text::digits_value(Seq::empty()) == 0);
    }
    let s = w + seq!['.'] + f;
    if w.len() + f.len() > 0 {
        assert(!text::is_space(s[0]) && !text::is_space(s.last())) by {
            if w.len() > 0 {
                assert(s[0] == w[0] && text::is_digit(w[0]));
            } else {
                assert(s[0] == '.');
            }
            if f.len() > 0 {
                assert(s.last() == f[f.len() - 1] && text::is_digit(f[f.len() - 1]));
            } else {
                assert(s.last() == '.');
            }
        }
        text::nothing_to_trim(s);
        ends_alike(s);
        assert(s.last() != 'm') by {
            if f.len() > 0 {
                assert(s.last() == f[f.len() - 1] && text::is_digit(f[f.len() - 1]));
            }
        }
        text::the_first_place_is_first(s, '.');
        let at = text::first_at(s, '.');
        assert(at == w.len()) by {
            assert(s[w.len() as int] == '.');
            if at < w.len() {
                assert(s[at] == w[at] && text::is_digit(w[at]));
            }
        }
        assert(whole_part(s) =~= w);
        assert(fraction_part(s) =~= f);
        if f.len() == 0 {
            assert(f =~= Seq::<char>::empty());
            assert(text::digits_value(f) == 0);
        }
    }
}

/// A core for a month costs the price of a core, and a GiB for a month the price of a GiB, however
/// many of either are reserved.
pub proof fn a_whole_unit_costs_its_price(p: PriceListModel, n: nat)
    requires
        1000 * n <= u64::MAX,
        0x4000_0000 * n <= u64::MAX,
    ensures
        n * p.cpu_core_month_minor <= u64::MAX ==> p.priced(
            Reservation { cpu_millicores: (1000 * n) as u64, memory_bytes: 0 },
        ) == n * p.cpu_core_month_minor,
        n * p.gib_month_minor <= u64::MAX ==> p.priced(
            Reservation { cpu_millicores: 0, memory_bytes: (0x4000_0000 * n) as u64 },
        ) == n * p.gib_month_minor,
        p.priced(Reservation { cpu_millicores: 0, memory_bytes: 0 }) == 0,
{
    let c = p.cpu_core_month_minor;
    let g = p.gib_month_minor;
    let x: int = n * c;
    let y: int = n * g;
    assert((1000 * n) * c == 1000 * x) by (nonlinear_arith)
        requires
            x == n * c,
    ;
    assert((0x4000_0000 * n) * g == 0x4000_0000 * y) by (nonlinear_arith)
        requires
            y == n * g,
    ;
    assert(0 * c == 0 && 0 * g == 0) by (nonlinear_arith);
    assert(x >= 0 && y >= 0) by (nonlinear_arith)
        requires
            x == n * c,
            y == n * g,
    ;
}

/// A reservation is charged once for both: in the units that both divide into evenly, the charge is
/// the most whole minor units that do not exceed the two costs together.
pub proof fn a_reservation_is_charged_in_whole_units(p: PriceListModel, r: Reservation)
    ensures
        ({
            let cost: int = r.cpu_millicores * p.cpu_core_month_minor * 1_073_741_824
                + r.memory_bytes * p.gib_month_minor * 1000;
            let unit: int = 1_073_741_824_000;
            &&& p.priced(r) * unit <= cost
            &&& p.priced(r) < u64::MAX ==> cost < (p.priced(r) + 1) * unit
        }),
{
    let x: int = r.cpu_millicores * p.cpu_core_month_minor;
    let y: int = r.memory_bytes * p.gib_month_minor;
    assert(x >= 0 && y >= 0) by (nonlinear_arith)
        requires
            x == r.cpu_millicores * p.cpu_core_month_minor,
            y == r.memory_bytes * p.gib_month_minor,
    ;
}

/// What a container requests is what its two quantities are worth, and nothing where it gives none.
pub proof fn a_request_is_worth_its_quantity(c: ContainerModel)
    ensures
        c.resources.requests.cpu matches Some(q) ==> (cpu_quantity(q) matches Some(n) ==> cpu_of(c)
            == n),
        c.resources.requests.memory matches Some(q) ==> (memory_quantity(q) matches Some(n)
            ==> memory_of(c) == n),
        c.resources.requests.cpu is None ==> cpu_of(c) == 0,
        c.resources.requests.memory is None ==> memory_of(c) == 0,
{
}

/// Containers that run together add up, apps and sidecars alike: beside others with no init container
/// among them, each adds its request to what the pod reserves, as far as that can be counted.
pub proof fn containers_that_run_together_add_up(
    cs: Seq<Placed>,
    k: ContainerKind,
    c: ContainerModel,
)
    requires
        k is App || k is Sidecar,
        forall|i: int| 0 <= i < cs.len() ==> !((#[trigger] cs[i]).0 is Init),
    ensures
        effective(Seq::empty()).reservation == (Reservation { cpu_millicores: 0, memory_bytes: 0 }),
        ({
            let before = effective(cs).reservation;
            let after = effective(cs.push((k, c))).reservation;
            let cpu: int = before.cpu_millicores + cpu_of(c);
            let memory: int = before.memory_bytes + memory_of(c);
            &&& after.cpu_millicores == (if cpu <= u64::MAX {
                cpu
            } else {
                u64::MAX as int
            })
            &&& after.memory_bytes == (if memory <= u64::MAX {
                memory
            } else {
                u64::MAX as int
            })
        }),
{
    a_running_container_adds(cs, k, c);
    no_peak_without_init(cs);
}

proof fn no_peak_without_init(cs: Seq<Placed>)
    requires
        forall|i: int| 0 <= i < cs.len() ==> !((#[trigger] cs[i]).0 is Init),
    ensures
        init_cpu(cs) == 0,
        init_memory(cs) == 0,
    decreases cs.len(),
{
    if cs.len() > 0 {
        assert forall|i: int| 0 <= i < cs.drop_last().len() implies !((
        #[trigger] cs.drop_last()[i]).0 is Init) by {
            assert(cs.drop_last()[i] == cs[i]);
        }
        no_peak_without_init(cs.drop_last());
        assert(!(cs[cs.len() - 1].0 is Init));
    }
}

/// Each quantity that the container requests can be read.
pub open spec fn requests_quantities(c: ContainerModel) -> bool {
    &&& (c.resources.requests.cpu matches Some(q) ==> cpu_quantity(q) is Some)
    &&& (c.resources.requests.memory matches Some(q) ==> memory_quantity(q) is Some)
}

/// A pod's requests can be read exactly where each container that is no ephemeral one requests
/// quantities, or nothing.
pub proof fn one_request_that_cannot_be_read_is_enough(cs: Seq<Placed>)
    ensures
        first_bad(cs) is None <==> forall|i: int|
            0 <= i < cs.len() ==> (#[trigger] cs[i]).0 is Ephemeral || requests_quantities(cs[i].1),
    decreases cs.len(),
{
    if cs.len() > 0 {
        let before = cs.drop_last();
        one_request_that_cannot_be_read_is_enough(before);
        assert(cs[cs.len() - 1] == cs.last());
        if first_bad(before) is Some {
            let i = choose|i: int|
                0 <= i < before.len() && !((#[trigger] before[i]).0 is Ephemeral)
                    && !requests_quantities(before[i].1);
            assert(cs[i] == before[i]);
        } else {
            assert forall|i: int| 0 <= i < cs.len() - 1 implies (#[trigger] cs[i]).0 is Ephemeral
                || requests_quantities(cs[i].1) by {
                assert(before[i] == cs[i]);
            }
        }
    }
}

/// Only a container that runs for the pod and requests neither quantity is reported as undeclared.
pub proof fn nothing_that_is_declared_is_reported(cs: Seq<Placed>, u: UndeclaredModel)
    requires
        effective(cs).undeclared.contains(u),
    ensures
        exists|i: int|
            0 <= i < cs.len() && !((#[trigger] cs[i]).0 is Ephemeral)
                && cs[i].1.resources.requests.cpu is None && cs[i].1.resources.requests.memory is None
                && u.container == cs[i].1.name && u.kind == cs[i].0.place(),
    decreases cs.len(),
{
    if cs.len() > 0 {
        let before = cs.drop_last();
        let all = undeclared_in(cs);
        let j = choose|j: int| 0 <= j < all.len() && all[j] == u;
        if j < undeclared_in(before).len() {
            assert(undeclared_in(before)[j] == u);
            assert(effective(before).undeclared.contains(u));
            nothing_that_is_declared_is_reported(before, u);
            let i = choose|i: int|
                0 <= i < before.len() && !((#[trigger] before[i]).0 is Ephemeral)
                    && before[i].1.resources.requests.cpu is None
                    && before[i].1.resources.requests.memory is None && u.container
                    == before[i].1.name && u.kind == before[i].0.place();
            assert(cs[i] == before[i]);
        } else {
            assert(cs[cs.len() - 1] == cs.last());
        }
    }
}

/// A report is in a currency exactly where the two are spelled alike but for case, so that one in
/// another currency is never taken for it.
pub proof fn another_currency_is_another(report: SpendReportModel, expected: Seq<char>)
    ensures
        report.is_in(expected) <==> report.currency.len() == expected.len() && forall|i: int|
            0 <= i < expected.len() ==> text::upper(#[trigger] report.currency[i]) == text::upper(
                expected[i],
            ),
{
    let a = text::ascii_upper(report.currency);
    let b = text::ascii_upper(expected);
    if report.is_in(expected) {
        assert(a.len() == b.len());
        assert forall|i: int| 0 <= i < expected.len() implies text::upper(
            #[trigger] report.currency[i],
        ) == text::upper(expected[i]) by {
            assert(a[i] == b[i]);
        }
    } else if report.currency.len() == expected.len() && forall|i: int|
        0 <= i < expected.len() ==> text::upper(#[trigger] report.currency[i]) == text::upper(
            expected[i],
        ) {
        assert(a =~= b);
    }
}

/// An init container runs alone, before the others: the pod holds what it held, or what the init
/// container requests where that is more.
pub proof fn an_init_container_counts_where_it_is_more(cs: Seq<Placed>, c: ContainerModel)
    ensures
        ({
            let before = effective(cs).reservation;
            let after = effective(cs.push((ContainerKind::Init, c))).reservation;
            &&& after.cpu_millicores == (if cpu_of(c) > before.cpu_millicores {
                cpu_of(c)
            } else {
                before.cpu_millicores as nat
            })
            &&& after.memory_bytes == (if memory_of(c) > before.memory_bytes {
                memory_of(c)
            } else {
                before.memory_bytes as nat
            })
        }),
{
    an_init_container_is_a_peak(cs, c);
}

/// A price list is read field by field: each from the member of its name or the item of its place, and left
/// empty where there is neither.
pub proof fn a_price_list_is_read_field_by_field(
    members: Seq<(Seq<char>, Tree)>,
    items: Seq<Tree>,
    i: int,
)
    requires
        json::are_distinct(members),
    ensures
        0 <= i < members.len() && members[i].0 == "currency"@ ==> PriceList::value(Tree::Object(members)).currency
            == String::value(members[i].1),
        !json::is_there(members, "currency"@) ==> PriceList::value(Tree::Object(members)).currency == String::nothing(),
        items.len() > 0 ==> PriceList::value(Tree::List(items)).currency == String::value(items[0]),
        0 <= i < members.len() && members[i].0 == "cpu_core_month_minor"@ ==> PriceList::value(Tree::Object(members)).cpu_core_month_minor
            == u64::value(members[i].1),
        !json::is_there(members, "cpu_core_month_minor"@) ==> PriceList::value(Tree::Object(members)).cpu_core_month_minor == u64::nothing(),
        items.len() > 1 ==> PriceList::value(Tree::List(items)).cpu_core_month_minor == u64::value(items[1]),
        0 <= i < members.len() && members[i].0 == "gib_month_minor"@ ==> PriceList::value(Tree::Object(members)).gib_month_minor
            == u64::value(members[i].1),
        !json::is_there(members, "gib_month_minor"@) ==> PriceList::value(Tree::Object(members)).gib_month_minor == u64::nothing(),
        items.len() > 2 ==> PriceList::value(Tree::List(items)).gib_month_minor == u64::value(items[2]),
{
    json::a_field_is_read_by_name_or_place::<String>(members, items, i, "currency"@, 0);
    json::a_field_is_read_by_name_or_place::<u64>(members, items, i, "cpu_core_month_minor"@, 1);
    json::a_field_is_read_by_name_or_place::<u64>(members, items, i, "gib_month_minor"@, 2);
}

/// A price list is read wherever each of its members can be and none that it needs is missing.
pub proof fn a_price_list_is_read_where_its_members_are(members: Seq<(Seq<char>, Tree)>)
    requires
        json::are_distinct(members),
        forall|j: int|
            0 <= j < members.len() && (#[trigger] members[j]).0 == "currency"@ ==> String::fault(members[j].1) is None,
        forall|j: int|
            0 <= j < members.len() && (#[trigger] members[j]).0 == "cpu_core_month_minor"@ ==> u64::fault(members[j].1) is None,
        forall|j: int|
            0 <= j < members.len() && (#[trigger] members[j]).0 == "gib_month_minor"@ ==> u64::fault(members[j].1) is None,
        json::is_there(members, "currency"@),
        json::is_there(members, "cpu_core_month_minor"@),
        json::is_there(members, "gib_month_minor"@),
    ensures
        PriceList::fault(Tree::Object(members)) is None,
{
    assert forall|j: int| 0 <= j < members.len() implies PriceList::member_fault(
        (#[trigger] members[j]).0,
        members[j].1,
    ) is None by {}
    json::members_are_read_where_each_is::<PriceList>(members);
    assert(json::field_fault::<String>(Tree::Object(members), "currency"@, 0) is None) by {
        json::a_member_is_found_by_name(members, "currency"@);
        if let Some(v) = json::lookup(members, "currency"@) {
            let j = choose|j: int| 0 <= j < members.len() && members[j] == ("currency"@, v);
            assert(members[j].0 == "currency"@);
        }
    }
    assert(json::field_fault::<u64>(Tree::Object(members), "cpu_core_month_minor"@, 1) is None) by {
        json::a_member_is_found_by_name(members, "cpu_core_month_minor"@);
        if let Some(v) = json::lookup(members, "cpu_core_month_minor"@) {
            let j = choose|j: int| 0 <= j < members.len() && members[j] == ("cpu_core_month_minor"@, v);
            assert(members[j].0 == "cpu_core_month_minor"@);
        }
    }
    assert(json::field_fault::<u64>(Tree::Object(members), "gib_month_minor"@, 2) is None) by {
        json::a_member_is_found_by_name(members, "gib_month_minor"@);
        if let Some(v) = json::lookup(members, "gib_month_minor"@) {
            let j = choose|j: int| 0 <= j < members.len() && members[j] == ("gib_month_minor"@, v);
            assert(members[j].0 == "gib_month_minor"@);
        }
    }
    json::a_member_is_found_by_name(members, "currency"@);
    json::a_member_is_found_by_name(members, "cpu_core_month_minor"@);
    json::a_member_is_found_by_name(members, "gib_month_minor"@);
}

/// A price list is refused for any one member that cannot be read, and where one that it needs is missing.
pub proof fn a_price_list_is_refused_for_one_member(members: Seq<(Seq<char>, Tree)>, i: int)
    requires
        json::are_distinct(members),
    ensures
        0 <= i < members.len() && members[i].0 == "currency"@ && String::fault(members[i].1) is Some
            ==> PriceList::fault(Tree::Object(members)) is Some,
        0 <= i < members.len() && members[i].0 == "cpu_core_month_minor"@ && u64::fault(members[i].1) is Some
            ==> PriceList::fault(Tree::Object(members)) is Some,
        0 <= i < members.len() && members[i].0 == "gib_month_minor"@ && u64::fault(members[i].1) is Some
            ==> PriceList::fault(Tree::Object(members)) is Some,
        !json::is_there(members, "currency"@) ==> PriceList::fault(Tree::Object(members)) is Some,
        !json::is_there(members, "cpu_core_month_minor"@) ==> PriceList::fault(Tree::Object(members)) is Some,
        !json::is_there(members, "gib_month_minor"@) ==> PriceList::fault(Tree::Object(members)) is Some,
{
    json::a_field_is_read_by_name_or_place::<String>(members, Seq::empty(), i, "currency"@, 0);
    json::a_field_is_read_by_name_or_place::<u64>(members, Seq::empty(), i, "cpu_core_month_minor"@, 1);
    json::a_field_is_read_by_name_or_place::<u64>(members, Seq::empty(), i, "gib_month_minor"@, 2);
    json::a_member_is_found_by_name(members, "currency"@);
    json::a_member_is_found_by_name(members, "cpu_core_month_minor"@);
    json::a_member_is_found_by_name(members, "gib_month_minor"@);
}

/// A spend report is read field by field: each from the member of its name or the item of its place, and left
/// empty where there is neither.
pub proof fn a_spend_report_is_read_field_by_field(
    members: Seq<(Seq<char>, Tree)>,
    items: Seq<Tree>,
    i: int,
)
    requires
        json::are_distinct(members),
    ensures
        0 <= i < members.len() && members[i].0 == "currency"@ ==> SpendReport::value(Tree::Object(members)).currency
            == String::value(members[i].1),
        !json::is_there(members, "currency"@) ==> SpendReport::value(Tree::Object(members)).currency == String::nothing(),
        items.len() > 0 ==> SpendReport::value(Tree::List(items)).currency == String::value(items[0]),
        0 <= i < members.len() && members[i].0 == "namespace_monthly_minor"@ ==> SpendReport::value(Tree::Object(members)).namespace_monthly_minor
            == u64::value(members[i].1),
        !json::is_there(members, "namespace_monthly_minor"@) ==> SpendReport::value(Tree::Object(members)).namespace_monthly_minor == u64::nothing(),
        items.len() > 1 ==> SpendReport::value(Tree::List(items)).namespace_monthly_minor == u64::value(items[1]),
{
    json::a_field_is_read_by_name_or_place::<String>(members, items, i, "currency"@, 0);
    json::a_field_is_read_by_name_or_place::<u64>(members, items, i, "namespace_monthly_minor"@, 1);
}

/// A spend report is read wherever each of its members can be and none that it needs is missing.
pub proof fn a_spend_report_is_read_where_its_members_are(members: Seq<(Seq<char>, Tree)>)
    requires
        json::are_distinct(members),
        forall|j: int|
            0 <= j < members.len() && (#[trigger] members[j]).0 == "currency"@ ==> String::fault(members[j].1) is None,
        forall|j: int|
            0 <= j < members.len() && (#[trigger] members[j]).0 == "namespace_monthly_minor"@ ==> u64::fault(members[j].1) is None,
        json::is_there(members, "currency"@),
        json::is_there(members, "namespace_monthly_minor"@),
    ensures
        SpendReport::fault(Tree::Object(members)) is None,
{
    assert forall|j: int| 0 <= j < members.len() implies SpendReport::member_fault(
        (#[trigger] members[j]).0,
        members[j].1,
    ) is None by {}
    json::members_are_read_where_each_is::<SpendReport>(members);
    assert(json::field_fault::<String>(Tree::Object(members), "currency"@, 0) is None) by {
        json::a_member_is_found_by_name(members, "currency"@);
        if let Some(v) = json::lookup(members, "currency"@) {
            let j = choose|j: int| 0 <= j < members.len() && members[j] == ("currency"@, v);
            assert(members[j].0 == "currency"@);
        }
    }
    assert(json::field_fault::<u64>(Tree::Object(members), "namespace_monthly_minor"@, 1) is None) by {
        json::a_member_is_found_by_name(members, "namespace_monthly_minor"@);
        if let Some(v) = json::lookup(members, "namespace_monthly_minor"@) {
            let j = choose|j: int| 0 <= j < members.len() && members[j] == ("namespace_monthly_minor"@, v);
            assert(members[j].0 == "namespace_monthly_minor"@);
        }
    }
    json::a_member_is_found_by_name(members, "currency"@);
    json::a_member_is_found_by_name(members, "namespace_monthly_minor"@);
}

/// A spend report is refused for any one member that cannot be read, and where one that it needs is missing.
pub proof fn a_spend_report_is_refused_for_one_member(members: Seq<(Seq<char>, Tree)>, i: int)
    requires
        json::are_distinct(members),
    ensures
        0 <= i < members.len() && members[i].0 == "currency"@ && String::fault(members[i].1) is Some
            ==> SpendReport::fault(Tree::Object(members)) is Some,
        0 <= i < members.len() && members[i].0 == "namespace_monthly_minor"@ && u64::fault(members[i].1) is Some
            ==> SpendReport::fault(Tree::Object(members)) is Some,
        !json::is_there(members, "currency"@) ==> SpendReport::fault(Tree::Object(members)) is Some,
        !json::is_there(members, "namespace_monthly_minor"@) ==> SpendReport::fault(Tree::Object(members)) is Some,
{
    json::a_field_is_read_by_name_or_place::<String>(members, Seq::empty(), i, "currency"@, 0);
    json::a_field_is_read_by_name_or_place::<u64>(members, Seq::empty(), i, "namespace_monthly_minor"@, 1);
    json::a_member_is_found_by_name(members, "currency"@);
    json::a_member_is_found_by_name(members, "namespace_monthly_minor"@);
}

/// A price list and a report say what their documents say, with the currency in upper case.
pub proof fn a_price_is_what_the_document_says(t: Tree)
    ensures
        PriceListModel::of(t).cpu_core_month_minor == PriceList::value(t).cpu_core_month_minor,
        PriceListModel::of(t).gib_month_minor == PriceList::value(t).gib_month_minor,
        PriceListModel::of(t).currency == uppercase(PriceList::value(t).currency),
        SpendReportModel::of(t).namespace_monthly_minor == SpendReport::value(
            t,
        ).namespace_monthly_minor,
        SpendReportModel::of(t).currency == uppercase(SpendReport::value(t).currency),
{
}

} // verus!
