//! The wall: a pod and the manifest that governs it in, a decision out.
//!
//! ```text
//! pod_requested                    recorded before any wall decides
//!   → effects       spec and snapshot to rows
//!   → lattice       what the pod demands ≤ what the manifest grants
//!   → facet         every named thing is named in the grant
//!   → trust         an unscored submitter gets no waivers
//!   → spend_charged the pod's reservation, priced and recorded
//!   → budget        the namespace must still fit its ceiling
//!   → pod_admitted | pod_refused
//! ```
//!
//! The lattice bounds how far a pod reaches, the facet bounds where; neither alone is enough. The
//! request is recorded before either runs, so that a refusal is as auditable as an admission. A
//! refusal is a typed record: the effect that tripped, where it came from, and what the grant does
//! allow.
use vstd::prelude::*;

use crate::canonical;
use crate::cluster;
use crate::cluster::{has_image_prefix, ClusterSnapshot, ClusterSnapshotModel};
use crate::cost::{
    CostError, CostErrorModel, PriceList, PriceListModel, SpendReport, SpendReportModel, Undeclared,
    UndeclaredModel,
};
use crate::effect::{Effect, EffectModel, ImageDoubt};
use crate::facet;
use crate::facet::{PodFacet, PodFacetModel};
use crate::grant;
use crate::grant::{Grant, Level};
use crate::json;
use crate::json::{member, object, Json, Tree, Writable};
use crate::manifest;
use crate::manifest::{pod_facet, Manifest, ManifestModel};
use crate::model;
use crate::pod;
use crate::pod::{compile_str, EffectRow, EffectRowModel, PodEffects, PodEffectsModel};
use crate::spec::{PodSpecModel, SpecError, SpecErrorModel};
use crate::text;
use crate::text::{chars, copied, digits_only, has_suffix, listed, owned, show, split_once};
use crate::trust::{Keyring, KeyringModel, Standing};

verus! {

/// Who asked, and for what.
#[derive(Debug, Clone, PartialEq, Eq)]
pub struct RequestMeta {
    pub uid: String,
    pub namespace: String,
    pub name: String,
    /// The authenticated requester. `None` where nobody was authenticated: such a decision is no
    /// evidence about anyone.
    pub signer: Option<String>,
}

/// What a [`RequestMeta`] says.
#[verifier::ext_equal]
pub struct RequestMetaModel {
    pub uid: Seq<char>,
    pub namespace: Seq<char>,
    pub name: Seq<char>,
    pub signer: Option<Seq<char>>,
}

impl DeepView for RequestMeta {
    type V = RequestMetaModel;

    open spec fn deep_view(&self) -> RequestMetaModel {
        RequestMetaModel {
            uid: self.uid.deep_view(),
            namespace: self.namespace.deep_view(),
            name: self.name.deep_view(),
            signer: self.signer.deep_view(),
        }
    }
}

/// What the wall records. The decided bytes are `artifact_sha256`, the ceiling is `manifest`, and who
/// authorised it is `signer`, in admissions and refusals alike.
#[derive(Debug, Clone, PartialEq, Eq)]
pub enum AdmissionEvent {
    /// Written before anything is decided.
    PodRequested {
        uid: String,
        namespace: String,
        name: String,
        artifact_sha256: String,
        snapshot_sha256: String,
        manifest: String,
        demands: Grant,
        signer: Option<String>,
        trust: String,
    },
    /// The pod's priced reservation, recorded whether or not it fits.
    SpendCharged {
        uid: String,
        artifact_sha256: String,
        currency: String,
        cpu_millicores: u64,
        memory_bytes: u64,
        pod_monthly_minor: u64,
        namespace_monthly_minor: u64,
        budget_minor: u64,
    },
    /// Admitted.
    PodAdmitted {
        uid: String,
        artifact_sha256: String,
        manifest: String,
        signer: Option<String>,
        subject: String,
    },
    /// Refused, naming the first effect that tripped a wall.
    PodRefused {
        uid: String,
        artifact_sha256: String,
        manifest: String,
        signer: Option<String>,
        subject: String,
        wall: String,
        effect: String,
        source: String,
        reason: String,
    },
}

/// What an [`AdmissionEvent`] says.
#[verifier::ext_equal]
pub enum AdmissionEventModel {
    PodRequested {
        uid: Seq<char>,
        namespace: Seq<char>,
        name: Seq<char>,
        artifact_sha256: Seq<char>,
        snapshot_sha256: Seq<char>,
        manifest: Seq<char>,
        demands: Grant,
        signer: Option<Seq<char>>,
        trust: Seq<char>,
    },
    SpendCharged {
        uid: Seq<char>,
        artifact_sha256: Seq<char>,
        currency: Seq<char>,
        cpu_millicores: u64,
        memory_bytes: u64,
        pod_monthly_minor: u64,
        namespace_monthly_minor: u64,
        budget_minor: u64,
    },
    PodAdmitted {
        uid: Seq<char>,
        artifact_sha256: Seq<char>,
        manifest: Seq<char>,
        signer: Option<Seq<char>>,
        subject: Seq<char>,
    },
    PodRefused {
        uid: Seq<char>,
        artifact_sha256: Seq<char>,
        manifest: Seq<char>,
        signer: Option<Seq<char>>,
        subject: Seq<char>,
        wall: Seq<char>,
        effect: Seq<char>,
        source: Seq<char>,
        reason: Seq<char>,
    },
}

impl DeepView for AdmissionEvent {
    type V = AdmissionEventModel;

    open spec fn deep_view(&self) -> AdmissionEventModel {
        match self {
            AdmissionEvent::PodRequested {
                uid,
                namespace,
                name,
                artifact_sha256,
                snapshot_sha256,
                manifest,
                demands,
                signer,
                trust,
            } => AdmissionEventModel::PodRequested {
                uid: uid.deep_view(),
                namespace: namespace.deep_view(),
                name: name.deep_view(),
                artifact_sha256: artifact_sha256.deep_view(),
                snapshot_sha256: snapshot_sha256.deep_view(),
                manifest: manifest.deep_view(),
                demands: demands.deep_view(),
                signer: signer.deep_view(),
                trust: trust.deep_view(),
            },
            AdmissionEvent::SpendCharged {
                uid,
                artifact_sha256,
                currency,
                cpu_millicores,
                memory_bytes,
                pod_monthly_minor,
                namespace_monthly_minor,
                budget_minor,
            } => AdmissionEventModel::SpendCharged {
                uid: uid.deep_view(),
                artifact_sha256: artifact_sha256.deep_view(),
                currency: currency.deep_view(),
                cpu_millicores: cpu_millicores.deep_view(),
                memory_bytes: memory_bytes.deep_view(),
                pod_monthly_minor: pod_monthly_minor.deep_view(),
                namespace_monthly_minor: namespace_monthly_minor.deep_view(),
                budget_minor: budget_minor.deep_view(),
            },
            AdmissionEvent::PodAdmitted {
                uid,
                artifact_sha256,
                manifest,
                signer,
                subject,
            } => AdmissionEventModel::PodAdmitted {
                uid: uid.deep_view(),
                artifact_sha256: artifact_sha256.deep_view(),
                manifest: manifest.deep_view(),
                signer: signer.deep_view(),
                subject: subject.deep_view(),
            },
            AdmissionEvent::PodRefused {
                uid,
                artifact_sha256,
                manifest,
                signer,
                subject,
                wall,
                effect,
                source,
                reason,
            } => AdmissionEventModel::PodRefused {
                uid: uid.deep_view(),
                artifact_sha256: artifact_sha256.deep_view(),
                manifest: manifest.deep_view(),
                signer: signer.deep_view(),
                subject: subject.deep_view(),
                wall: wall.deep_view(),
                effect: effect.deep_view(),
                source: source.deep_view(),
                reason: reason.deep_view(),
            },
        }
    }
}

/// Which wall a refusal hit.
#[derive(Debug, Clone, Copy, PartialEq, Eq, Structural)]
pub enum Wall {
    /// The pod reaches further than the grant's lattice permits.
    TypeCheck,
    /// The pod names something that the grant does not.
    Narrowing,
    /// The manifest waived a check, and the submitter has no standing to be waived for.
    Trust,
    /// The namespace would be over its ceiling.
    Budget,
}

impl DeepView for Wall {
    type V = Wall;

    open spec fn deep_view(&self) -> Wall {
        *self
    }
}

/// One refusal, in a shape that can be acted on.
#[derive(Debug, Clone, PartialEq, Eq)]
pub struct Refusal {
    pub wall: Wall,
    /// The effect that tripped the wall.
    pub effect: String,
    /// The field that it came from.
    pub source: String,
    pub reason: String,
    /// What the grant does allow.
    pub grant_allows: Vec<String>,
}

/// What a [`Refusal`] says.
#[verifier::ext_equal]
pub struct RefusalModel {
    pub wall: Wall,
    pub effect: Seq<char>,
    pub source: Seq<char>,
    pub reason: Seq<char>,
    pub grant_allows: Seq<Seq<char>>,
}

impl DeepView for Refusal {
    type V = RefusalModel;

    open spec fn deep_view(&self) -> RefusalModel {
        RefusalModel {
            wall: self.wall.deep_view(),
            effect: self.effect.deep_view(),
            source: self.source.deep_view(),
            reason: self.reason.deep_view(),
            grant_allows: self.grant_allows.deep_view(),
        }
    }
}

/// The wall's answer.
#[derive(Debug, Clone, PartialEq, Eq)]
pub enum Verdict {
    Admit,
    Deny { first: Refusal, all: Vec<Refusal> },
}

/// What a [`Verdict`] says.
#[verifier::ext_equal]
pub enum VerdictModel {
    Admit,
    Deny { first: RefusalModel, all: Seq<RefusalModel> },
}

impl DeepView for Verdict {
    type V = VerdictModel;

    open spec fn deep_view(&self) -> VerdictModel {
        match self {
            Verdict::Admit => VerdictModel::Admit,
            Verdict::Deny { first, all } => VerdictModel::Deny {
                first: first.deep_view(),
                all: all.deep_view(),
            },
        }
    }
}

/// A completed admission: the verdict, the compiled pod, the record.
#[derive(Debug, Clone, PartialEq, Eq)]
pub struct Decision {
    pub verdict: Verdict,
    pub pod: PodEffects,
    /// What is recorded, in order: the request first, the decision last.
    pub audit: Vec<AdmissionEvent>,
    /// Dimensions that the manifest declares no policy for. Not to have looked is another fact than to
    /// have looked and found nothing.
    pub unchecked: Vec<String>,
    /// Grants that the cluster can check but cannot enforce; they refuse nobody.
    pub unenforceable: Vec<String>,
    pub signer: Option<String>,
    /// What the keyring said about the signer.
    pub standing: Standing,
    /// What the reservation was priced at. `None` means unpriced, never zero.
    pub charged: Option<u64>,
}

/// What a [`Decision`] says.
#[verifier::ext_equal]
pub struct DecisionModel {
    pub verdict: VerdictModel,
    pub pod: PodEffectsModel,
    pub audit: Seq<AdmissionEventModel>,
    pub unchecked: Seq<Seq<char>>,
    pub unenforceable: Seq<Seq<char>>,
    pub signer: Option<Seq<char>>,
    pub standing: Standing,
    pub charged: Option<u64>,
}

impl DeepView for Decision {
    type V = DecisionModel;

    open spec fn deep_view(&self) -> DecisionModel {
        DecisionModel {
            verdict: self.verdict.deep_view(),
            pod: self.pod.deep_view(),
            audit: self.audit.deep_view(),
            unchecked: self.unchecked.deep_view(),
            unenforceable: self.unenforceable.deep_view(),
            signer: self.signer.deep_view(),
            standing: self.standing.deep_view(),
            charged: self.charged.deep_view(),
        }
    }
}

/// The wall could not run. That is no refusal: a refusal is a decision.
#[derive(Debug, Clone, PartialEq, Eq)]
pub enum AdmissionError {
    /// The document is no pod.
    Spec(SpecError),
    /// The manifest's `pod` facet is there and cannot be read.
    Manifest(String),
    /// The spend inputs cannot be reconciled with the grant.
    Cost(CostError),
}

/// What an [`AdmissionError`] says.
#[verifier::ext_equal]
pub enum AdmissionErrorModel {
    Spec(SpecErrorModel),
    Manifest(Seq<char>),
    Cost(CostErrorModel),
}

impl DeepView for AdmissionError {
    type V = AdmissionErrorModel;

    open spec fn deep_view(&self) -> AdmissionErrorModel {
        match self {
            AdmissionError::Spec(x) => AdmissionErrorModel::Spec(x.deep_view()),
            AdmissionError::Manifest(x) => AdmissionErrorModel::Manifest(x.deep_view()),
            AdmissionError::Cost(x) => AdmissionErrorModel::Cost(x.deep_view()),
        }
    }
}

/// What resources cost, and what the namespace already spends.
#[derive(Debug, Clone, PartialEq, Eq)]
pub struct Spend {
    pub prices: PriceList,
    pub report: SpendReport,
}

/// What a [`Spend`] says.
#[verifier::ext_equal]
pub struct SpendModel {
    pub prices: PriceListModel,
    pub report: SpendReportModel,
}

impl DeepView for Spend {
    type V = SpendModel;

    open spec fn deep_view(&self) -> SpendModel {
        SpendModel {
            prices: self.prices.deep_view(),
            report: self.report.deep_view(),
        }
    }
}

impl AdmissionEvent {
    /// What the hash of every entry of a decision's record begins with, so that an entry of another
    /// record can never stand in it.
    pub fn domain() -> (r: &'static str)
        ensures
            r@ == "lex.k8s.audit.v1"@,
    {
        "lex.k8s.audit.v1"
    }
}

impl Wall {
    /// The name of the wall.
    pub open spec fn word(self) -> Seq<char> {
        match self {
            Wall::TypeCheck => "type-check"@,
            Wall::Narrowing => "narrowing"@,
            Wall::Trust => "trust"@,
            Wall::Budget => "budget"@,
        }
    }

    pub fn as_str(self) -> (r: &'static str)
        ensures
            r@ == self.word(),
    {
        match self {
            Wall::TypeCheck => "type-check",
            Wall::Narrowing => "narrowing",
            Wall::Trust => "trust",
            Wall::Budget => "budget",
        }
    }
}

impl AdmissionErrorModel {
    /// The complaint in words.
    pub open spec fn message(self) -> Seq<char> {
        match self {
            AdmissionErrorModel::Spec(e) => e.message(),
            AdmissionErrorModel::Manifest(e) =>
                "the manifest's `pod` facet is present but unreadable: "@ + e,
            AdmissionErrorModel::Cost(e) => e.message(),
        }
    }
}

impl AdmissionError {
    pub fn to_text(&self) -> (r: String)
        ensures
            r@ == self.deep_view().message(),
    {
        match self {
            AdmissionError::Spec(e) => e.to_text(),
            AdmissionError::Manifest(e) => owned(
                "the manifest's `pod` facet is present but unreadable: ",
            ).concat(e.as_str()),
            AdmissionError::Cost(e) => e.to_text(),
        }
    }
}

impl Refusal {
    /// A copy of the refusal.
    pub fn copy(&self) -> (r: Refusal)
        ensures
            r.deep_view() == self.deep_view(),
    {
        Refusal {
            wall: self.wall,
            effect: self.effect.clone(),
            source: self.source.clone(),
            reason: self.reason.clone(),
            grant_allows: copied(&self.grant_allows),
        }
    }
}

// ---------------------------------------------------------------------------------------------
// The record on the wire
// ---------------------------------------------------------------------------------------------
impl Writable for AdmissionEvent {
    open spec fn tree(v: AdmissionEventModel) -> Tree {
        match v {
            AdmissionEventModel::PodRequested {
                uid,
                namespace,
                name,
                artifact_sha256,
                snapshot_sha256,
                manifest,
                demands,
                signer,
                trust,
            } => Tree::Object(
                seq![
                    ("kind"@, Tree::Text("pod_requested"@)),
                    ("uid"@, <String as Writable>::tree(uid)),
                    ("namespace"@, <String as Writable>::tree(namespace)),
                    ("name"@, <String as Writable>::tree(name)),
                    ("artifact_sha256"@, <String as Writable>::tree(artifact_sha256)),
                    ("snapshot_sha256"@, <String as Writable>::tree(snapshot_sha256)),
                    ("manifest"@, <String as Writable>::tree(manifest)),
                    ("demands"@, <Grant as Writable>::tree(demands)),
                ] + json::optional_text("signer"@, signer) + seq![
                    ("trust"@, <String as Writable>::tree(trust)),
                ],
            ),
            AdmissionEventModel::SpendCharged {
                uid,
                artifact_sha256,
                currency,
                cpu_millicores,
                memory_bytes,
                pod_monthly_minor,
                namespace_monthly_minor,
                budget_minor,
            } => Tree::Object(
                seq![
                    ("kind"@, Tree::Text("spend_charged"@)),
                    ("uid"@, <String as Writable>::tree(uid)),
                    ("artifact_sha256"@, <String as Writable>::tree(artifact_sha256)),
                    ("currency"@, <String as Writable>::tree(currency)),
                    ("cpu_millicores"@, <u64 as Writable>::tree(cpu_millicores)),
                    ("memory_bytes"@, <u64 as Writable>::tree(memory_bytes)),
                    ("pod_monthly_minor"@, <u64 as Writable>::tree(pod_monthly_minor)),
                    ("namespace_monthly_minor"@, <u64 as Writable>::tree(namespace_monthly_minor)),
                    ("budget_minor"@, <u64 as Writable>::tree(budget_minor)),
                ],
            ),
            AdmissionEventModel::PodAdmitted {
                uid,
                artifact_sha256,
                manifest,
                signer,
                subject,
            } => Tree::Object(
                seq![
                    ("kind"@, Tree::Text("pod_admitted"@)),
                    ("uid"@, <String as Writable>::tree(uid)),
                    ("artifact_sha256"@, <String as Writable>::tree(artifact_sha256)),
                    ("manifest"@, <String as Writable>::tree(manifest)),
                ] + json::optional_text("signer"@, signer) + seq![
                    ("subject"@, <String as Writable>::tree(subject)),
                ],
            ),
            AdmissionEventModel::PodRefused {
                uid,
                artifact_sha256,
                manifest,
                signer,
                subject,
                wall,
                effect,
                source,
                reason,
            } => Tree::Object(
                seq![
                    ("kind"@, Tree::Text("pod_refused"@)),
                    ("uid"@, <String as Writable>::tree(uid)),
                    ("artifact_sha256"@, <String as Writable>::tree(artifact_sha256)),
                    ("manifest"@, <String as Writable>::tree(manifest)),
                ] + json::optional_text("signer"@, signer) + seq![
                    ("subject"@, <String as Writable>::tree(subject)),
                    ("wall"@, <String as Writable>::tree(wall)),
                    ("effect"@, <String as Writable>::tree(effect)),
                    ("source"@, <String as Writable>::tree(source)),
                    ("reason"@, <String as Writable>::tree(reason)),
                ],
            ),
        }
    }

    fn to_json(&self) -> (r: Json) {
        let mut m: Vec<(String, Json)> = Vec::new();
        match self {
            AdmissionEvent::PodRequested {
                uid,
                namespace,
                name,
                artifact_sha256,
                snapshot_sha256,
                manifest,
                demands,
                signer,
                trust,
            } => {
                m.push(member("kind", Json::Text(owned("pod_requested"))));
                m.push(member("uid", uid.to_json()));
                m.push(member("namespace", namespace.to_json()));
                m.push(member("name", name.to_json()));
                m.push(member("artifact_sha256", artifact_sha256.to_json()));
                m.push(member("snapshot_sha256", snapshot_sha256.to_json()));
                m.push(member("manifest", manifest.to_json()));
                m.push(member("demands", demands.to_json()));
                if let Some(x) = signer {
                    m.push(member("signer", x.to_json()));
                }
                m.push(member("trust", trust.to_json()));
            },
            AdmissionEvent::SpendCharged {
                uid,
                artifact_sha256,
                currency,
                cpu_millicores,
                memory_bytes,
                pod_monthly_minor,
                namespace_monthly_minor,
                budget_minor,
            } => {
                m.push(member("kind", Json::Text(owned("spend_charged"))));
                m.push(member("uid", uid.to_json()));
                m.push(member("artifact_sha256", artifact_sha256.to_json()));
                m.push(member("currency", currency.to_json()));
                m.push(member("cpu_millicores", cpu_millicores.to_json()));
                m.push(member("memory_bytes", memory_bytes.to_json()));
                m.push(member("pod_monthly_minor", pod_monthly_minor.to_json()));
                m.push(member("namespace_monthly_minor", namespace_monthly_minor.to_json()));
                m.push(member("budget_minor", budget_minor.to_json()));
            },
            AdmissionEvent::PodAdmitted { uid, artifact_sha256, manifest, signer, subject } => {
                m.push(member("kind", Json::Text(owned("pod_admitted"))));
                m.push(member("uid", uid.to_json()));
                m.push(member("artifact_sha256", artifact_sha256.to_json()));
                m.push(member("manifest", manifest.to_json()));
                if let Some(x) = signer {
                    m.push(member("signer", x.to_json()));
                }
                m.push(member("subject", subject.to_json()));
            },
            AdmissionEvent::PodRefused {
                uid,
                artifact_sha256,
                manifest,
                signer,
                subject,
                wall,
                effect,
                source,
                reason,
            } => {
                m.push(member("kind", Json::Text(owned("pod_refused"))));
                m.push(member("uid", uid.to_json()));
                m.push(member("artifact_sha256", artifact_sha256.to_json()));
                m.push(member("manifest", manifest.to_json()));
                if let Some(x) = signer {
                    m.push(member("signer", x.to_json()));
                }
                m.push(member("subject", subject.to_json()));
                m.push(member("wall", wall.to_json()));
                m.push(member("effect", effect.to_json()));
                m.push(member("source", source.to_json()));
                m.push(member("reason", reason.to_json()));
            },
        }
        let j = object(m);
        assert(j@->Object_0 =~= Self::tree(self.deep_view())->Object_0);
        j
    }
}

// ---------------------------------------------------------------------------------------------
// Money and names
// ---------------------------------------------------------------------------------------------
/// A number below one hundred, in two digits.
pub open spec fn two_digits(n: nat) -> Seq<char> {
    seq![text::digit_char(n / 10), text::digit_char(n % 10)]
}

/// Minor units as a decimal.
pub open spec fn amount(minor: nat) -> Seq<char> {
    text::decimal(minor / 100) + "."@ + two_digits(minor % 100)
}

/// Minor units as a decimal. Integer arithmetic only: money never touches a float.
pub fn money(minor: u64) -> (r: String)
    ensures
        r@ == amount(minor as nat),
{
    let mut m = show(minor / 100);
    m.append(".");
    let cents: u64 = minor % 100;
    let ghost head = m@;
    if cents < 10 {
        m.append("0");
        m.append(show(cents).as_str());
        proof {
            reveal_strlit("0");
            assert(text::decimal(cents as nat) =~= seq![text::digit_char(cents as nat)]);
            assert(text::digit_char(0) == '0');
        }
    } else {
        m.append(show(cents).as_str());
        proof {
            assert(text::decimal((cents / 10) as nat) =~= seq![text::digit_char((cents / 10) as nat)]);
            assert(text::decimal(cents as nat) =~= two_digits(cents as nat));
        }
    }
    assert(m@ =~= head + two_digits(cents as nat));
    m
}

/// What stands before the first colon.
pub open spec fn before_colon(s: Seq<char>) -> Seq<char> {
    s.subrange(0, text::first_at(s, ':'))
}

fn head_of(s: &str) -> (r: &str)
    ensures
        r@ == before_colon(s@),
{
    match split_once(s, ':') {
        Some((head, _)) => head,
        None => {
            assert(before_colon(s@) =~= s@);
            s
        },
    }
}

/// `s` without the points at its end.
pub open spec fn without_last_points(s: Seq<char>) -> Seq<char>
    decreases s.len(),
{
    if s.len() > 0 && s.last() == '.' {
        without_last_points(s.drop_last())
    } else {
        s
    }
}

fn strip_last_points(s: &str) -> (r: &str)
    ensures
        r@ == without_last_points(s@),
    decreases s@.len(),
{
    let n: usize = s.unicode_len();
    if n > 0 && s.get_char(n - 1) == '.' {
        let t = s.substring_char(0, n - 1);
        assert(t@ =~= s@.drop_last());
        strip_last_points(t)
    } else {
        s
    }
}

/// What follows the first colon; nothing where there is none.
pub open spec fn after_colon(s: Seq<char>) -> Seq<char> {
    let at = text::first_at(s, ':');
    if at < s.len() {
        s.subrange(at + 1, s.len() as int)
    } else {
        Seq::empty()
    }
}

/// A letter.
pub open spec fn is_letter(c: char) -> bool {
    'a' <= c <= 'z' || 'A' <= c <= 'Z'
}

/// A name that a service can have: letters, digits and hyphens, a letter first.
pub open spec fn is_service_name(s: Seq<char>) -> bool {
    &&& s.len() > 0
    &&& is_letter(s[0])
    &&& forall|i: int|
        0 <= i < s.len() ==> is_letter(#[trigger] s[i]) || text::is_digit(s[i]) || s[i] == '-'
}

/// Is this a name that a service can have?
fn names_service(s: &str) -> (r: bool)
    ensures
        r == is_service_name(s@),
{
    let v = chars(s);
    let mut i: usize = 0;
    while i < v.len()
        invariant
            i <= v.len(),
            v@ == s@,
            i > 0 ==> is_letter(s@[0]),
            forall|k: int|
                0 <= k < i ==> is_letter(#[trigger] s@[k]) || text::is_digit(s@[k]) || s@[k] == '-',
        decreases v.len() - i,
    {
        let c: char = v[i];
        let letter = ('a' <= c && c <= 'z') || ('A' <= c && c <= 'Z');
        let other = ('0' <= c && c <= '9') || c == '-';
        if !letter && (i == 0 || !other) {
            assert(!is_letter(s@[i as int]));
            return false;
        }
        i += 1;
    }
    v.len() > 0
}

/// The host names something in the cluster: a bare service name, or one under Kubernetes' own
/// suffixes, with a port or without. What is not recognised is external, an address above all: more
/// than one colon is no port, and what stands in brackets is no name.
pub open spec fn names_in_cluster(host: Seq<char>) -> bool {
    let name = without_last_points(before_colon(host));
    &&& !host.contains('[')
    &&& text::all_digits(after_colon(host))
    &&& is_service_name(name) || text::ends_with(name, ".svc"@) || text::ends_with(
        name,
        ".svc.cluster.local"@,
    ) || text::ends_with(name, ".cluster.local"@)
}

/// Can a `NetworkPolicy` hold a pod to this egress entry? Only if it names something in the
/// cluster, because a policy has no hostnames. What is not recognised counts as external.
pub fn is_in_cluster(host: &str) -> (r: bool)
    ensures
        r == names_in_cluster(host@),
{
    if split_once(host, '[').is_some() {
        return false;
    }
    if let Some((_, port)) = split_once(host, ':') {
        if !digits_only(port) {
            return false;
        }
    }
    let name = strip_last_points(head_of(host));
    names_service(name) || has_suffix(name, ".svc") || has_suffix(
        name,
        ".svc.cluster.local",
    ) || has_suffix(name, ".cluster.local")
}

// ---------------------------------------------------------------------------------------------
// What each wall refuses
// ---------------------------------------------------------------------------------------------
/// How far a demand on one axis goes beyond what is granted there.
pub open spec fn beyond(demand: Level, granted: Level) -> nat {
    if demand.height() > granted.height() {
        (demand.height() - granted.height()) as nat
    } else {
        0
    }
}

/// How far a demand goes beyond the grant, over all axes.
pub open spec fn excess(demand: Grant, granted: Grant) -> nat {
    beyond(demand.filesystem, granted.filesystem) + beyond(demand.network, granted.network)
        + beyond(demand.execution, granted.execution)
}

/// The row worth naming in a refusal: of those that exceed the grant, the one that exceeds it by
/// the most, and of equals the last.
pub open spec fn worst(rows: Seq<EffectRowModel>, granted: Grant) -> Option<EffectRowModel>
    decreases rows.len(),
{
    if rows.len() == 0 {
        None
    } else {
        let before = worst(rows.drop_last(), granted);
        let r = rows.last();
        if r.demands.fits(granted) {
            before
        } else {
            match before {
                Some(b) => if excess(r.demands, granted) >= excess(b.demands, granted) {
                    Some(r)
                } else {
                    Some(b)
                },
                None => Some(r),
            }
        }
    }
}

/// The grant's lattice in words.
pub open spec fn described(g: Grant) -> Seq<Seq<char>> {
    seq![
        "filesystem: "@ + g.filesystem.label(),
        "network: "@ + g.network.label(),
        "exec: "@ + g.execution.label(),
    ]
}

/// What the lattice refuses: how far the pod reaches, against the ceiling.
pub open spec fn lattice_refusals(pod: PodEffectsModel, granted: Grant) -> Seq<RefusalModel> {
    match Grant::widening(granted, pod.demands) {
        None => Seq::empty(),
        Some(w) => seq![
            RefusalModel {
                wall: Wall::TypeCheck,
                effect: match worst(pod.rows, granted) {
                    Some(r) => r.effect.label(),
                    None => "grant"@,
                },
                source: match worst(pod.rows, granted) {
                    Some(r) => r.source.path(),
                    None => "spec"@,
                },
                reason: w.message(),
                grant_allows: described(granted),
            },
        ],
    }
}

/// What the facet grants in the dimension of an effect.
pub open spec fn allowed_for(f: PodFacetModel, e: EffectModel) -> Seq<Seq<char>> {
    match e {
        EffectModel::Secret { .. } => f.secrets,
        EffectModel::Capability { .. } => f.capabilities,
        EffectModel::Egress { .. } => f.egress,
        EffectModel::UntrustedImage { .. } => f.image_prefixes,
        _ => Seq::empty(),
    }
}

/// What the facet refuses of one row.
pub open spec fn row_refusal(f: PodFacetModel, r: EffectRowModel) -> Seq<RefusalModel> {
    match f.denial(r.effect) {
        None => Seq::empty(),
        Some(d) => seq![
            RefusalModel {
                wall: Wall::Narrowing,
                effect: r.effect.label(),
                source: r.source.path(),
                reason: d.message(),
                grant_allows: allowed_for(f, r.effect),
            },
        ],
    }
}

/// What the facet refuses of the first `n` rows.
pub open spec fn facet_refusals(f: PodFacetModel, rows: Seq<EffectRowModel>, n: nat) -> Seq<
    RefusalModel,
>
    decreases n,
{
    if n == 0 || n > rows.len() {
        Seq::empty()
    } else {
        facet_refusals(f, rows, (n - 1) as nat) + row_refusal(f, rows[n - 1])
    }
}

/// What is refused of one image under a manifest that names prefixes: one that is outside them, and
/// one that is under them but from a source that the cluster does not trust.
pub open spec fn image_refusal(
    f: PodFacetModel,
    image: Seq<char>,
    untrusted: Seq<Seq<char>>,
) -> Seq<RefusalModel> {
    let outside = !cluster::under_prefix(image, f.image_prefixes);
    if outside || untrusted.contains(image) {
        seq![
            RefusalModel {
                wall: Wall::Narrowing,
                effect: "image:"@ + image,
                source: "spec.containers[].image"@,
                reason: if outside {
                    "`"@ + image + "` is outside the `imagePrefixes` this manifest grants"@
                } else {
                    "`"@ + image
                        + "` is from a source the cluster does not trust, and a manifest cannot grant past that"@
                },
                grant_allows: f.image_prefixes,
            },
        ]
    } else {
        Seq::empty()
    }
}

/// What is refused of the first `n` images. Every image is held to the manifest's prefixes, those
/// that the cluster vouches for too, and to what the cluster trusts; no prefixes at all is no policy.
pub open spec fn image_refusals(
    f: PodFacetModel,
    images: Seq<Seq<char>>,
    untrusted: Seq<Seq<char>>,
    n: nat,
) -> Seq<RefusalModel>
    decreases n,
{
    if n == 0 || n > images.len() || f.image_prefixes.len() == 0 {
        Seq::empty()
    } else {
        image_refusals(f, images, untrusted, (n - 1) as nat) + image_refusal(
            f,
            images[n - 1],
            untrusted,
        )
    }
}

/// Some row is about an image in doubt.
pub open spec fn has_untrusted_image(rows: Seq<EffectRowModel>) -> bool {
    exists|i: int| 0 <= i < rows.len() && (#[trigger] rows[i]).effect is UntrustedImage
}

/// The dimensions that the manifest declares no policy for, though the pod has something in them.
pub open spec fn unchecked_in(f: PodFacetModel, rows: Seq<EffectRowModel>) -> Seq<Seq<char>> {
    if f.image_prefixes.len() == 0 && has_untrusted_image(rows) {
        seq![
            "image provenance: the manifest names no `imagePrefixes`, so images were not checked"@,
        ]
    } else {
        Seq::empty()
    }
}

/// What is said of a host that no policy can hold a pod to.
pub open spec fn unenforceable_note(host: Seq<char>) -> Seq<char> {
    "`"@ + host
        + "` is outside the cluster: NetworkPolicy has no hostname, so this pod can be held to a port but not to that host"@
}

/// The notes on the hosts of a list that are outside the cluster, in order.
pub open spec fn unenforceable_in(hosts: Seq<Seq<char>>) -> Seq<Seq<char>>
    decreases hosts.len(),
{
    if hosts.len() == 0 {
        Seq::empty()
    } else {
        let before = unenforceable_in(hosts.drop_last());
        if names_in_cluster(hosts.last()) {
            before
        } else {
            before.push(unenforceable_note(hosts.last()))
        }
    }
}

/// Who is named in a refusal of standing.
pub open spec fn submitter_name(signer: Option<Seq<char>>) -> Seq<char> {
    match signer {
        Some(s) => s,
        None => "an unauthenticated submitter"@,
    }
}

/// What standing refuses: to a submitter without a record, each dimension that was not checked.
/// It can only refuse what the other walls let through.
pub open spec fn trust_refusals(
    standing: Standing,
    unchecked: Seq<Seq<char>>,
    signer: Option<Seq<char>>,
) -> Seq<RefusalModel> {
    if standing is Unknown {
        Seq::new(
            unchecked.len(),
            |i: int|
                RefusalModel {
                    wall: Wall::Trust,
                    effect: "unchecked"@,
                    source: before_colon(unchecked[i]),
                    reason: unchecked[i] + "; the manifest waives that check, and "@
                        + submitter_name(signer)
                        + " has no earned standing to be waived for — declare the policy, or let the submitter earn a score"@,
                    grant_allows: Seq::empty(),
                },
        )
    } else {
        Seq::empty()
    }
}

/// What the budget refuses of one container that declared nothing: it cannot be charged, and to
/// price it at zero would make omitting requests the cheapest way past the ceiling.
pub open spec fn unpriced_refusal(
    u: UndeclaredModel,
    currency: Seq<char>,
    budget: u64,
) -> RefusalModel {
    RefusalModel {
        wall: Wall::Budget,
        effect: "unpriced"@,
        source: u.kind + "["@ + u.container + "].resources.requests"@,
        reason: "container `"@ + u.container
            + "` declares no CPU or memory request, so it cannot be charged against the namespace budget — an empty request is not a request for nothing, it is a BestEffort pod that uses whatever the node has spare"@,
        grant_allows: seq!["budget: "@ + currency + " "@ + amount(budget as nat) + " / month"@],
    }
}

/// What the namespace would spend with the pod, capped at what fits.
pub open spec fn spent_after(report: SpendReportModel, pod_minor: nat) -> nat {
    if report.namespace_monthly_minor + pod_minor <= u64::MAX {
        (report.namespace_monthly_minor + pod_minor) as nat
    } else {
        u64::MAX as nat
    }
}

/// What the budget refuses of the sum: a namespace that would be over its ceiling.
pub open spec fn overspend_refusal(
    pod: PodEffectsModel,
    currency: Seq<char>,
    budget: u64,
    spend: SpendModel,
    namespace: Seq<char>,
) -> Seq<RefusalModel> {
    let r = pod.reservation.reservation;
    let minor = spend.prices.priced(r);
    let after = spent_after(spend.report, minor);
    if after > budget {
        seq![
            RefusalModel {
                wall: Wall::Budget,
                effect: "spend"@,
                source: "resources.requests"@,
                reason: "this pod reserves "@ + currency + " "@ + amount(minor) + "/month ("@
                    + text::decimal(r.cpu_millicores as nat) + "m CPU, "@ + text::decimal(
                    (r.memory_bytes / 0x10_0000) as nat,
                ) + " MiB), which would put `"@ + namespace + "` at "@ + amount(after)
                    + " against a ceiling of "@ + amount(budget as nat) + " ("@ + amount(
                    (after - budget) as nat,
                ) + " over) — this bounds committed reservation, not the invoice"@,
                grant_allows: seq![
                    "budget: "@ + currency + " "@ + amount(budget as nat) + " / month, of which "@
                        + amount(spend.report.namespace_monthly_minor as nat)
                        + " is already committed"@,
                ],
            },
        ]
    } else {
        Seq::empty()
    }
}

/// What the budget refuses. It refuses admissions and evicts nothing.
pub open spec fn budget_refusals(
    pod: PodEffectsModel,
    currency: Seq<char>,
    budget: u64,
    spend: Option<SpendModel>,
    namespace: Seq<char>,
) -> Seq<RefusalModel> {
    match spend {
        None => Seq::empty(),
        Some(s) => Seq::new(
            pod.reservation.undeclared.len(),
            |i: int| unpriced_refusal(pod.reservation.undeclared[i], currency, budget),
        ) + overspend_refusal(pod, currency, budget, s, namespace),
    }
}

// ---------------------------------------------------------------------------------------------
// The decision
// ---------------------------------------------------------------------------------------------
/// What the keyring says about whoever asked. Without a keyring nothing is asked; a review that
/// nobody authenticated is no submitter at all, and gets the narrower reading.
pub open spec fn standing_of(
    signer: Option<Seq<char>>,
    keyring: Option<KeyringModel>,
) -> Standing {
    match keyring {
        None => Standing::NotConsulted,
        Some(k) => match signer {
            Some(s) => k.standing(s),
            None => Standing::Unknown,
        },
    }
}

/// `<namespace>/<name>`.
pub open spec fn subject_of(request: RequestMetaModel) -> Seq<char> {
    request.namespace + "/"@ + request.name
}

/// Everything that the walls refuse, in the order in which they run.
pub open spec fn refusals_of(
    pod: PodEffectsModel,
    manifest: ManifestModel,
    facet: PodFacetModel,
    request: RequestMetaModel,
    standing: Standing,
    spend: Option<SpendModel>,
) -> Seq<RefusalModel> {
    lattice_refusals(pod, manifest.grant) + facet_refusals(facet, pod.rows, pod.rows.len())
        + image_refusals(facet, pod.images, pod.untrusted_images, pod.images.len()) + trust_refusals(
        standing,
        unchecked_in(facet, pod.rows),
        request.signer,
    ) + budget_refusals(
        pod,
        facet.currency,
        manifest.budget.max_money_cents,
        spend,
        request.namespace,
    )
}

/// The record of the request.
pub open spec fn requested_event(
    pod: PodEffectsModel,
    manifest_id: Seq<char>,
    request: RequestMetaModel,
    standing: Standing,
) -> AdmissionEventModel {
    AdmissionEventModel::PodRequested {
        uid: request.uid,
        namespace: request.namespace,
        name: request.name,
        artifact_sha256: pod.spec_sha256,
        snapshot_sha256: pod.snapshot_sha256,
        manifest: manifest_id,
        demands: pod.demands,
        signer: request.signer,
        trust: standing.word(),
    }
}

/// The record of the charge, where there is one.
pub open spec fn charge_events(
    pod: PodEffectsModel,
    currency: Seq<char>,
    budget: u64,
    request: RequestMetaModel,
    spend: Option<SpendModel>,
) -> Seq<AdmissionEventModel> {
    match spend {
        None => Seq::empty(),
        Some(s) => seq![
            AdmissionEventModel::SpendCharged {
                uid: request.uid,
                artifact_sha256: pod.spec_sha256,
                currency,
                cpu_millicores: pod.reservation.reservation.cpu_millicores,
                memory_bytes: pod.reservation.reservation.memory_bytes,
                pod_monthly_minor: s.prices.priced(pod.reservation.reservation) as u64,
                namespace_monthly_minor: s.report.namespace_monthly_minor,
                budget_minor: budget,
            },
        ],
    }
}

/// The record of the decision.
pub open spec fn decision_event(
    pod: PodEffectsModel,
    manifest_id: Seq<char>,
    request: RequestMetaModel,
    refusals: Seq<RefusalModel>,
) -> AdmissionEventModel {
    if refusals.len() == 0 {
        AdmissionEventModel::PodAdmitted {
            uid: request.uid,
            artifact_sha256: pod.spec_sha256,
            manifest: manifest_id,
            signer: request.signer,
            subject: subject_of(request),
        }
    } else {
        AdmissionEventModel::PodRefused {
            uid: request.uid,
            artifact_sha256: pod.spec_sha256,
            manifest: manifest_id,
            signer: request.signer,
            subject: subject_of(request),
            wall: refusals[0].wall.word(),
            effect: refusals[0].effect,
            source: refusals[0].source,
            reason: refusals[0].reason,
        }
    }
}

/// Admitted where nothing is refused, and denied with everything that is.
pub open spec fn verdict_on(refusals: Seq<RefusalModel>) -> VerdictModel {
    if refusals.len() == 0 {
        VerdictModel::Admit
    } else {
        VerdictModel::Deny { first: refusals[0], all: refusals }
    }
}

/// The decision on a compiled pod whose facet could be read.
pub open spec fn decision_with(
    pod: PodEffectsModel,
    manifest: ManifestModel,
    facet: PodFacetModel,
    manifest_id: Seq<char>,
    request: RequestMetaModel,
    keyring: Option<KeyringModel>,
    spend: Option<SpendModel>,
) -> DecisionModel {
    let standing = standing_of(request.signer, keyring);
    let refusals = refusals_of(pod, manifest, facet, request, standing, spend);
    DecisionModel {
        verdict: verdict_on(refusals),
        pod,
        audit: seq![requested_event(pod, manifest_id, request, standing)] + charge_events(
            pod,
            facet.currency,
            manifest.budget.max_money_cents,
            request,
            spend,
        ) + seq![decision_event(pod, manifest_id, request, refusals)],
        unchecked: unchecked_in(facet, pod.rows),
        unenforceable: unenforceable_in(facet.egress),
        signer: request.signer,
        standing,
        charged: match spend {
            Some(s) => Some(s.prices.priced(pod.reservation.reservation) as u64),
            None => None,
        },
    }
}

/// The decision on a compiled pod, or why the wall could not run.
pub open spec fn decision_on(
    pod: PodEffectsModel,
    manifest: ManifestModel,
    manifest_id: Seq<char>,
    request: RequestMetaModel,
    keyring: Option<KeyringModel>,
    spend: Option<SpendModel>,
) -> Result<DecisionModel, AdmissionErrorModel> {
    match manifest.pod_facet() {
        Err(e) => Err(AdmissionErrorModel::Manifest(e.message())),
        Ok(facet) => if spend is Some && !spend->0.report.is_in(facet.currency) {
            Err(
                AdmissionErrorModel::Cost(
                    CostErrorModel::CurrencyMismatch {
                        report: spend->0.report.currency,
                        expected: facet.currency,
                    },
                ),
            )
        } else {
            Ok(decision_with(pod, manifest, facet, manifest_id, request, keyring, spend))
        },
    }
}

/// The decision on a pod's text, or why the wall could not run.
pub open spec fn admission(
    spec_json: Seq<char>,
    manifest: ManifestModel,
    manifest_id: Seq<char>,
    snapshot: ClusterSnapshotModel,
    request: RequestMetaModel,
    keyring: Option<KeyringModel>,
    spend: Option<SpendModel>,
) -> Result<DecisionModel, AdmissionErrorModel> {
    match pod::compiled_text(spec_json, snapshot) {
        Err(e) => Err(AdmissionErrorModel::Spec(e)),
        Ok(pod) => decision_on(pod, manifest, manifest_id, request, keyring, spend),
    }
}

// ---------------------------------------------------------------------------------------------
// Deciding
// ---------------------------------------------------------------------------------------------
/// One text in a list.
fn one(s: String) -> (r: Vec<String>)
    ensures
        r.deep_view() == seq![s@],
{
    let mut v: Vec<String> = Vec::new();
    v.push(s);
    assert(v.deep_view() =~= seq![s@]);
    v
}

fn none_listed() -> (r: Vec<String>)
    ensures
        r.deep_view() == Seq::<Seq<char>>::empty(),
{
    let r: Vec<String> = Vec::new();
    assert(r.deep_view() =~= Seq::<Seq<char>>::empty());
    r
}

/// Add one refusal.
fn push_refusal(out: &mut Vec<Refusal>, r: Refusal)
    ensures
        final(out).deep_view() == old(out).deep_view().push(r.deep_view()),
{
    let ghost before = out.deep_view();
    let ghost added = r.deep_view();
    out.push(r);
    assert(out.deep_view() =~= before.push(added));
}

/// The row worth naming in a refusal.
pub fn worst_row<'a>(rows: &'a Vec<EffectRow>, granted: &Grant) -> (r: Option<&'a EffectRow>)
    ensures
        r.deep_view() == worst(rows.deep_view(), *granted),
{
    let ghost all = rows.deep_view();
    let mut found: Option<&EffectRow> = None;
    let mut i: usize = 0;
    while i < rows.len()
        invariant
            i <= rows.len(),
            all == rows.deep_view(),
            found.deep_view() == worst(all.subrange(0, i as int), *granted),
        decreases rows.len() - i,
    {
        let ghost next = all.subrange(0, i + 1);
        assert(next.drop_last() =~= all.subrange(0, i as int));
        let r: &EffectRow = &rows[i];
        assert(next.last() == r.deep_view());
        if Grant::narrow(granted, &r.demands).is_err() {
            match found {
                Some(b) => {
                    if excess_over(&r.demands, granted) >= excess_over(&b.demands, granted) {
                        found = Some(r);
                    }
                },
                None => {
                    found = Some(r);
                },
            }
        }
        i += 1;
    }
    assert(all.subrange(0, i as int) =~= all);
    found
}

fn levels_beyond(demand: Level, granted: Level) -> (r: u16)
    ensures
        r == beyond(demand, granted),
        r <= 255,
{
    let wanted: u8 = demand.rank();
    let given: u8 = granted.rank();
    if wanted > given {
        (wanted - given) as u16
    } else {
        0
    }
}

fn excess_over(demand: &Grant, granted: &Grant) -> (r: u16)
    ensures
        r == excess(*demand, *granted),
{
    levels_beyond(demand.filesystem, granted.filesystem) + levels_beyond(
        demand.network,
        granted.network,
    ) + levels_beyond(demand.execution, granted.execution)
}

/// The grant's lattice in words.
pub fn describe(g: &Grant) -> (r: Vec<String>)
    ensures
        r.deep_view() == described(*g),
{
    let mut v: Vec<String> = Vec::new();
    v.push(owned("filesystem: ").concat(g.filesystem.name()));
    v.push(owned("network: ").concat(g.network.name()));
    v.push(owned("exec: ").concat(g.execution.name()));
    assert(v.deep_view() =~= described(*g));
    v
}

/// What the facet grants in the dimension of an effect.
pub fn granted_for(facet: &PodFacet, effect: &Effect) -> (r: Vec<String>)
    ensures
        r.deep_view() == allowed_for(facet.deep_view(), effect.deep_view()),
{
    match effect {
        Effect::Secret { .. } => copied(&facet.secrets),
        Effect::Capability { .. } => copied(&facet.capabilities),
        Effect::Egress { .. } => copied(&facet.egress),
        Effect::UntrustedImage { .. } => copied(&facet.image_prefixes),
        _ => none_listed(),
    }
}

/// The hosts of the facet that the cluster can check but cannot hold a pod to.
pub fn unenforceable_egress(facet: &PodFacet) -> (r: Vec<String>)
    ensures
        r.deep_view() == unenforceable_in(facet.deep_view().egress),
{
    let ghost all = facet.egress.deep_view();
    let mut out: Vec<String> = Vec::new();
    let mut i: usize = 0;
    assert(out.deep_view() =~= unenforceable_in(all.subrange(0, 0)));
    while i < facet.egress.len()
        invariant
            i <= facet.egress.len(),
            all == facet.egress.deep_view(),
            out.deep_view() == unenforceable_in(all.subrange(0, i as int)),
        decreases facet.egress.len() - i,
    {
        let ghost next = all.subrange(0, i + 1);
        assert(next.drop_last() =~= all.subrange(0, i as int));
        let h = facet.egress[i].as_str();
        assert(next.last() == h@);
        if !is_in_cluster(h) {
            let ghost before = out.deep_view();
            let note = owned("`").concat(h).concat(
                "` is outside the cluster: NetworkPolicy has no hostname, so this pod can be held to a port but not to that host",
            );
            out.push(note);
            assert(out.deep_view() =~= before.push(unenforceable_note(h@)));
        }
        i += 1;
    }
    assert(all.subrange(0, i as int) =~= all);
    out
}

/// The dimensions that the manifest declares no policy for.
pub fn unchecked_dimensions(facet: &PodFacet, rows: &Vec<EffectRow>) -> (r: Vec<String>)
    ensures
        r.deep_view() == unchecked_in(facet.deep_view(), rows.deep_view()),
{
    if facet.image_prefixes.len() > 0 {
        return none_listed();
    }
    let ghost all = rows.deep_view();
    let mut i: usize = 0;
    while i < rows.len()
        invariant
            i <= rows.len(),
            all == rows.deep_view(),
            facet.image_prefixes.len() == 0,
            forall|k: int| 0 <= k < i ==> !((#[trigger] all[k]).effect is UntrustedImage),
        decreases rows.len() - i,
    {
        assert(all[i as int] == rows@[i as int].deep_view());
        if matches!(rows[i].effect, Effect::UntrustedImage { .. }) {
            assert(all[i as int].effect is UntrustedImage);
            return one(
                owned(
                    "image provenance: the manifest names no `imagePrefixes`, so images were not checked",
                ),
            );
        }
        i += 1;
    }
    none_listed()
}

/// The lattice: one comparison, and the row that pushed the demand there.
fn check_lattice(pod: &PodEffects, granted: &Grant) -> (r: Vec<Refusal>)
    ensures
        r.deep_view() == lattice_refusals(pod.deep_view(), *granted),
{
    let mut out: Vec<Refusal> = Vec::new();
    assert(out.deep_view() =~= Seq::<RefusalModel>::empty());
    if let Err(w) = pod.within(granted) {
        let culprit = worst_row(&pod.rows, granted);
        let (effect, source): (String, String) = match culprit {
            Some(r) => (r.effect.name(), r.source.to_text()),
            None => (owned("grant"), owned("spec")),
        };
        push_refusal(
            &mut out,
            Refusal {
                wall: Wall::TypeCheck,
                effect,
                source,
                reason: w.to_text(),
                grant_allows: describe(granted),
            },
        );
        assert(out.deep_view() =~= lattice_refusals(pod.deep_view(), *granted));
    }
    out
}

/// The facet: what the pod names, against what the grant names.
fn check_facet(pod: &PodEffects, facet: &PodFacet) -> (r: Vec<Refusal>)
    ensures
        r.deep_view() == facet_refusals(
            facet.deep_view(),
            pod.deep_view().rows,
            pod.deep_view().rows.len(),
        ),
{
    let ghost rows = pod.rows.deep_view();
    let ghost f = facet.deep_view();
    let mut out: Vec<Refusal> = Vec::new();
    let mut i: usize = 0;
    assert(out.deep_view() =~= facet_refusals(f, rows, 0));
    while i < pod.rows.len()
        invariant
            i <= pod.rows.len(),
            rows == pod.rows.deep_view(),
            f == facet.deep_view(),
            out.deep_view() == facet_refusals(f, rows, i as nat),
        decreases pod.rows.len() - i,
    {
        let row: &EffectRow = &pod.rows[i];
        assert(rows[i as int] == row.deep_view());
        if let Err(denial) = facet.admits(&row.effect) {
            push_refusal(
                &mut out,
                Refusal {
                    wall: Wall::Narrowing,
                    effect: row.effect.name(),
                    source: row.source.to_text(),
                    reason: denial.to_text(),
                    grant_allows: granted_for(facet, &row.effect),
                },
            );
        }
        assert(out.deep_view() =~= facet_refusals(f, rows, (i + 1) as nat));
        i += 1;
    }
    out
}

/// Image provenance. The cluster says which sources it trusts, the manifest which of those the
/// workload may use: the two intersect, and a prefix that the cluster does not trust is not made
/// trustworthy by naming it.
fn check_images(pod: &PodEffects, facet: &PodFacet) -> (r: Vec<Refusal>)
    ensures
        r.deep_view() == image_refusals(
            facet.deep_view(),
            pod.deep_view().images,
            pod.deep_view().untrusted_images,
            pod.deep_view().images.len(),
        ),
{
    let ghost images = pod.images.deep_view();
    let ghost untrusted = pod.untrusted_images.deep_view();
    let ghost f = facet.deep_view();
    let mut out: Vec<Refusal> = Vec::new();
    assert(out.deep_view() =~= Seq::<RefusalModel>::empty());
    if facet.image_prefixes.len() == 0 {
        return out;
    }
    let mut i: usize = 0;
    while i < pod.images.len()
        invariant
            i <= pod.images.len(),
            images == pod.images.deep_view(),
            untrusted == pod.untrusted_images.deep_view(),
            f == facet.deep_view(),
            f.image_prefixes.len() > 0,
            out.deep_view() == image_refusals(f, images, untrusted, i as nat),
        decreases pod.images.len() - i,
    {
        let image = pod.images[i].as_str();
        assert(images[i as int] == image@);
        let outside = !has_image_prefix(image, &facet.image_prefixes);
        if outside || listed(&pod.untrusted_images, image) {
            let why = if outside {
                "` is outside the `imagePrefixes` this manifest grants"
            } else {
                "` is from a source the cluster does not trust, and a manifest cannot grant past that"
            };
            push_refusal(
                &mut out,
                Refusal {
                    wall: Wall::Narrowing,
                    effect: owned("image:").concat(image),
                    source: owned("spec.containers[].image"),
                    reason: owned("`").concat(image).concat(why),
                    grant_allows: copied(&facet.image_prefixes),
                },
            );
        }
        assert(out.deep_view() =~= image_refusals(f, images, untrusted, (i + 1) as nat));
        i += 1;
    }
    out
}

/// Standing: a submitter with a record keeps the manifest's waivers, one without does not.
fn check_standing(standing: Standing, unchecked: &Vec<String>, signer: &Option<String>) -> (r: Vec<
    Refusal,
>)
    ensures
        r.deep_view() == trust_refusals(standing, unchecked.deep_view(), signer.deep_view()),
{
    let ghost all = unchecked.deep_view();
    let ghost target = trust_refusals(standing, all, signer.deep_view());
    let mut out: Vec<Refusal> = Vec::new();
    assert(out.deep_view() =~= Seq::<RefusalModel>::empty());
    if !standing.needs_the_verb_named() {
        return out;
    }
    let who: &str = match signer {
        Some(s) => s.as_str(),
        None => "an unauthenticated submitter",
    };
    let mut i: usize = 0;
    assert(target.subrange(0, 0) =~= Seq::<RefusalModel>::empty());
    while i < unchecked.len()
        invariant
            i <= unchecked.len(),
            all == unchecked.deep_view(),
            target == trust_refusals(standing, all, signer.deep_view()),
            standing is Unknown,
            who@ == submitter_name(signer.deep_view()),
            out.deep_view() == target.subrange(0, i as int),
        decreases unchecked.len() - i,
    {
        let d = unchecked[i].as_str();
        assert(all[i as int] == d@);
        push_refusal(
            &mut out,
            Refusal {
                wall: Wall::Trust,
                effect: owned("unchecked"),
                source: owned(head_of(d)),
                reason: owned(d).concat("; the manifest waives that check, and ").concat(who).concat(
                    " has no earned standing to be waived for — declare the policy, or let the submitter earn a score",
                ),
                grant_allows: none_listed(),
            },
        );
        assert(target.subrange(0, i + 1) =~= target.subrange(0, i as int).push(target[i as int]));
        i += 1;
    }
    assert(target.subrange(0, i as int) =~= target);
    out
}

/// One container that declared nothing.
fn refuse_unpriced(u: &Undeclared, currency: &str, budget: u64) -> (r: Refusal)
    ensures
        r.deep_view() == unpriced_refusal(u.deep_view(), currency@, budget),
{
    let allows = owned("budget: ").concat(currency).concat(" ").concat(
        money(budget).as_str(),
    ).concat(" / month");
    Refusal {
        wall: Wall::Budget,
        effect: owned("unpriced"),
        source: u.kind.clone().concat("[").concat(u.container.as_str()).concat(
            "].resources.requests",
        ),
        reason: owned("container `").concat(u.container.as_str()).concat(
            "` declares no CPU or memory request, so it cannot be charged against the namespace budget — an empty request is not a request for nothing, it is a BestEffort pod that uses whatever the node has spare",
        ),
        grant_allows: one(allows),
    }
}

/// A namespace that would be over its ceiling.
fn check_ceiling(
    pod: &PodEffects,
    currency: &str,
    budget: u64,
    spend: &Spend,
    minor: u64,
    namespace: &str,
) -> (r: Vec<Refusal>)
    requires
        minor == spend.deep_view().prices.priced(pod.deep_view().reservation.reservation),
    ensures
        r.deep_view() == overspend_refusal(
            pod.deep_view(),
            currency@,
            budget,
            spend.deep_view(),
            namespace@,
        ),
{
    let mut out: Vec<Refusal> = Vec::new();
    assert(out.deep_view() =~= Seq::<RefusalModel>::empty());
    let held = pod.reservation.reservation;
    let after: u64 = spend.report.namespace_monthly_minor.saturating_add(minor);
    if after > budget {
        let reason = owned("this pod reserves ").concat(currency).concat(" ").concat(
            money(minor).as_str(),
        ).concat("/month (").concat(show(held.cpu_millicores).as_str()).concat("m CPU, ").concat(
            show(held.memory_bytes / 0x10_0000).as_str(),
        ).concat(" MiB), which would put `").concat(namespace).concat("` at ").concat(
            money(after).as_str(),
        ).concat(" against a ceiling of ").concat(money(budget).as_str()).concat(" (").concat(
            money(after - budget).as_str(),
        ).concat(" over) — this bounds committed reservation, not the invoice");
        let allows = owned("budget: ").concat(currency).concat(" ").concat(
            money(budget).as_str(),
        ).concat(" / month, of which ").concat(
            money(spend.report.namespace_monthly_minor).as_str(),
        ).concat(" is already committed");
        push_refusal(
            &mut out,
            Refusal {
                wall: Wall::Budget,
                effect: owned("spend"),
                source: owned("resources.requests"),
                reason,
                grant_allows: one(allows),
            },
        );
        assert(out.deep_view() =~= overspend_refusal(
            pod.deep_view(),
            currency@,
            budget,
            spend.deep_view(),
            namespace@,
        ));
    }
    out
}

/// The budget: containers that cannot be charged, then the sum.
fn check_budget(
    pod: &PodEffects,
    currency: &str,
    budget: u64,
    spend: Option<&Spend>,
    namespace: &str,
) -> (r: Vec<Refusal>)
    ensures
        r.deep_view() == budget_refusals(
            pod.deep_view(),
            currency@,
            budget,
            spend.deep_view(),
            namespace@,
        ),
{
    let ghost target = budget_refusals(
        pod.deep_view(),
        currency@,
        budget,
        spend.deep_view(),
        namespace@,
    );
    let mut out: Vec<Refusal> = Vec::new();
    assert(out.deep_view() =~= Seq::<RefusalModel>::empty());
    if let Some(s) = spend {
        let ghost all = pod.deep_view().reservation.undeclared;
        let undeclared = &pod.reservation.undeclared;
        let mut i: usize = 0;
        assert(target.subrange(0, 0) =~= Seq::<RefusalModel>::empty());
        while i < undeclared.len()
            invariant
                i <= undeclared.len(),
                all == undeclared.deep_view(),
                spend is Some,
                target.len() >= all.len(),
                forall|k: int|
                    0 <= k < all.len() ==> #[trigger] target[k] == unpriced_refusal(
                        all[k],
                        currency@,
                        budget,
                    ),
                out.deep_view() == target.subrange(0, i as int),
            decreases undeclared.len() - i,
        {
            assert(all[i as int] == undeclared@[i as int].deep_view());
            push_refusal(&mut out, refuse_unpriced(&undeclared[i], currency, budget));
            assert(target.subrange(0, i + 1) =~= target.subrange(0, i as int).push(
                target[i as int],
            ));
            i += 1;
        }
        let minor: u64 = s.prices.price(&pod.reservation.reservation);
        let mut over = check_ceiling(pod, currency, budget, s, minor, namespace);
        let ghost before = out.deep_view();
        let ghost added = over.deep_view();
        out.append(&mut over);
        assert(out.deep_view() =~= before + added);
        assert(before + added =~= target);
    }
    out
}

/// The record of the decision.
fn record_decision(
    pod: &PodEffects,
    manifest_id: &str,
    request: &RequestMeta,
    refusals: &Vec<Refusal>,
) -> (r: AdmissionEvent)
    ensures
        r.deep_view() == decision_event(
            pod.deep_view(),
            manifest_id@,
            request.deep_view(),
            refusals.deep_view(),
        ),
{
    let subject = request.namespace.clone().concat("/").concat(request.name.as_str());
    if refusals.len() == 0 {
        AdmissionEvent::PodAdmitted {
            uid: request.uid.clone(),
            artifact_sha256: pod.spec_sha256.clone(),
            manifest: owned(manifest_id),
            signer: request.signer.clone(),
            subject,
        }
    } else {
        let first = &refusals[0];
        AdmissionEvent::PodRefused {
            uid: request.uid.clone(),
            artifact_sha256: pod.spec_sha256.clone(),
            manifest: owned(manifest_id),
            signer: request.signer.clone(),
            subject,
            wall: owned(first.wall.as_str()),
            effect: first.effect.clone(),
            source: first.source.clone(),
            reason: first.reason.clone(),
        }
    }
}

/// What the keyring says about whoever asked.
fn consult(signer: &Option<String>, keyring: Option<&Keyring>) -> (r: Standing)
    ensures
        r == standing_of(signer.deep_view(), keyring.deep_view()),
{
    match keyring {
        None => Standing::NotConsulted,
        Some(k) => match signer {
            Some(s) => k.standing_of(s.as_str()),
            None => Standing::Unknown,
        },
    }
}

/// Everything that the walls refuse.
fn run_walls(
    pod: &PodEffects,
    manifest: &Manifest,
    facet: &PodFacet,
    request: &RequestMeta,
    standing: Standing,
    unchecked: &Vec<String>,
    spend: Option<&Spend>,
) -> (r: Vec<Refusal>)
    requires
        unchecked.deep_view() == unchecked_in(facet.deep_view(), pod.deep_view().rows),
    ensures
        r.deep_view() == refusals_of(
            pod.deep_view(),
            manifest.deep_view(),
            facet.deep_view(),
            request.deep_view(),
            standing,
            spend.deep_view(),
        ),
{
    let mut out = check_lattice(pod, &manifest.grant);
    let mut facet_part = check_facet(pod, facet);
    let mut image_part = check_images(pod, facet);
    let mut trust_part = check_standing(standing, unchecked, &request.signer);
    let mut budget_part = check_budget(
        pod,
        facet.currency.as_str(),
        manifest.budget.max_money_cents,
        spend,
        request.namespace.as_str(),
    );
    let ghost parts = out.deep_view() + facet_part.deep_view() + image_part.deep_view()
        + trust_part.deep_view() + budget_part.deep_view();
    out.append(&mut facet_part);
    out.append(&mut image_part);
    out.append(&mut trust_part);
    out.append(&mut budget_part);
    assert(out.deep_view() =~= parts);
    out
}

/// The record: the request, the charge where there is one, the decision.
fn record(
    pod: &PodEffects,
    manifest: &Manifest,
    currency: &str,
    manifest_id: &str,
    request: &RequestMeta,
    standing: Standing,
    spend: Option<&Spend>,
    refusals: &Vec<Refusal>,
) -> (r: Vec<AdmissionEvent>)
    ensures
        r.deep_view() == seq![
            requested_event(pod.deep_view(), manifest_id@, request.deep_view(), standing),
        ] + charge_events(
            pod.deep_view(),
            currency@,
            manifest.deep_view().budget.max_money_cents,
            request.deep_view(),
            spend.deep_view(),
        ) + seq![
            decision_event(
                pod.deep_view(),
                manifest_id@,
                request.deep_view(),
                refusals.deep_view(),
            ),
        ],
{
    let mut audit: Vec<AdmissionEvent> = Vec::new();
    audit.push(
        AdmissionEvent::PodRequested {
            uid: request.uid.clone(),
            namespace: request.namespace.clone(),
            name: request.name.clone(),
            artifact_sha256: pod.spec_sha256.clone(),
            snapshot_sha256: pod.snapshot_sha256.clone(),
            manifest: owned(manifest_id),
            demands: pod.demands,
            signer: request.signer.clone(),
            trust: owned(standing.as_str()),
        },
    );
    if let Some(s) = spend {
        audit.push(
            AdmissionEvent::SpendCharged {
                uid: request.uid.clone(),
                artifact_sha256: pod.spec_sha256.clone(),
                currency: owned(currency),
                cpu_millicores: pod.reservation.reservation.cpu_millicores,
                memory_bytes: pod.reservation.reservation.memory_bytes,
                pod_monthly_minor: s.prices.price(&pod.reservation.reservation),
                namespace_monthly_minor: s.report.namespace_monthly_minor,
                budget_minor: manifest.budget.max_money_cents,
            },
        );
    }
    audit.push(record_decision(pod, manifest_id, request, refusals));
    assert(audit.deep_view() =~= seq![
        requested_event(pod.deep_view(), manifest_id@, request.deep_view(), standing),
    ] + charge_events(
        pod.deep_view(),
        currency@,
        manifest.deep_view().budget.max_money_cents,
        request.deep_view(),
        spend.deep_view(),
    ) + seq![
        decision_event(pod.deep_view(), manifest_id@, request.deep_view(), refusals.deep_view()),
    ]);
    audit
}

/// Judge a compiled pod by the manifest that governs its namespace. `manifest_id` is the
/// manifest's identity, for the record.
pub fn decide(
    pod: PodEffects,
    manifest: &Manifest,
    manifest_id: &str,
    request: &RequestMeta,
    keyring: Option<&Keyring>,
    spend: Option<&Spend>,
) -> (r: Result<Decision, AdmissionError>)
    ensures
        model::outcome(r) == decision_on(
            pod.deep_view(),
            manifest.deep_view(),
            manifest_id@,
            request.deep_view(),
            keyring.deep_view(),
            spend.deep_view(),
        ),
{
    let facet = match pod_facet(manifest) {
        Ok(f) => f,
        Err(e) => return Err(AdmissionError::Manifest(e.to_text())),
    };
    if let Some(s) = spend {
        if let Err(e) = s.report.check_currency(facet.currency.as_str()) {
            return Err(AdmissionError::Cost(e));
        }
    }
    let standing = consult(&request.signer, keyring);
    let unchecked = unchecked_dimensions(&facet, &pod.rows);
    let unenforceable = unenforceable_egress(&facet);
    let refusals = run_walls(&pod, manifest, &facet, request, standing, &unchecked, spend);
    let audit = record(
        &pod,
        manifest,
        facet.currency.as_str(),
        manifest_id,
        request,
        standing,
        spend,
        &refusals,
    );
    let charged: Option<u64> = match spend {
        Some(s) => Some(s.prices.price(&pod.reservation.reservation)),
        None => None,
    };
    let verdict = if refusals.len() == 0 {
        Verdict::Admit
    } else {
        let first = refusals[0].copy();
        assert(refusals.deep_view()[0] == refusals@[0].deep_view());
        Verdict::Deny { first, all: refusals }
    };
    Ok(
        Decision {
            verdict,
            pod,
            audit,
            unchecked,
            unenforceable,
            signer: request.signer.clone(),
            standing,
            charged,
        },
    )
}

/// Check one pod against the manifest that governs its namespace.
///
/// `keyring` never widens anything: it decides whether a waiver that the manifest already grants
/// applies to this submitter, and `None` consults nothing. `spend` enables the budget wall, and
/// `None` runs none.
pub fn admit_str(
    spec_json: &str,
    manifest: &Manifest,
    manifest_id: &str,
    snapshot: &ClusterSnapshot,
    request: &RequestMeta,
    keyring: Option<&Keyring>,
    spend: Option<&Spend>,
) -> (r: Result<Decision, AdmissionError>)
    ensures
        model::outcome(r) == admission(
            spec_json@,
            manifest.deep_view(),
            manifest_id@,
            snapshot.deep_view(),
            request.deep_view(),
            keyring.deep_view(),
            spend.deep_view(),
        ),
{
    match compile_str(spec_json, snapshot) {
        Ok(pod) => decide(pod, manifest, manifest_id, request, keyring, spend),
        Err(e) => Err(AdmissionError::Spec(e)),
    }
}

impl Verdict {
    pub fn allowed(&self) -> (r: bool)
        ensures
            r == (self.deep_view() is Admit),
    {
        matches!(self, Verdict::Admit)
    }
}

impl Decision {
    /// The exit code of a decision: 0 admitted, 8 refused.
    pub fn exit_code(&self) -> (r: i32)
        ensures
            r == (if self.deep_view().verdict is Admit {
                0int
            } else {
                8
            }),
    {
        match self.verdict {
            Verdict::Admit => 0,
            Verdict::Deny { .. } => 8,
        }
    }
}

// ---------------------------------------------------------------------------------------------
// Laws
// ---------------------------------------------------------------------------------------------
/// Every row is authorised by name.
pub open spec fn every_row_is_named(f: PodFacetModel, rows: Seq<EffectRowModel>) -> bool {
    forall|i: int| 0 <= i < rows.len() ==> f.denial((#[trigger] rows[i]).effect) is None
}

/// Every image is under one of the manifest's prefixes and from a source that the cluster trusts, or
/// the manifest has no prefixes.
pub open spec fn every_image_is_accepted(
    f: PodFacetModel,
    images: Seq<Seq<char>>,
    untrusted: Seq<Seq<char>>,
) -> bool {
    f.image_prefixes.len() == 0 || forall|i: int|
        0 <= i < images.len() ==> cluster::under_prefix(#[trigger] images[i], f.image_prefixes)
            && !untrusted.contains(images[i])
}

/// No waiver is needed, or the submitter has not been found to have no record.
pub open spec fn no_waiver_is_missing(
    f: PodFacetModel,
    rows: Seq<EffectRowModel>,
    standing: Standing,
) -> bool {
    standing is Unknown ==> !(f.image_prefixes.len() == 0 && has_untrusted_image(rows))
}

/// Nothing is priced, or every container declared what it reserves and the namespace stays within
/// its ceiling.
pub open spec fn budget_holds(
    pod: PodEffectsModel,
    budget: u64,
    spend: Option<SpendModel>,
) -> bool {
    spend matches Some(s) ==> {
        &&& pod.reservation.undeclared.len() == 0
        &&& spent_after(s.report, s.prices.priced(pod.reservation.reservation)) <= budget
    }
}

proof fn nothing_refused_by_name(f: PodFacetModel, rows: Seq<EffectRowModel>, n: nat)
    requires
        n <= rows.len(),
    ensures
        facet_refusals(f, rows, n).len() == 0 <==> forall|i: int|
            0 <= i < n ==> f.denial((#[trigger] rows[i]).effect) is None,
    decreases n,
{
    if n > 0 {
        nothing_refused_by_name(f, rows, (n - 1) as nat);
        assert(row_refusal(f, rows[n - 1]).len() == 0 <==> f.denial(rows[n - 1].effect) is None);
    }
}

proof fn no_image_refused(
    f: PodFacetModel,
    images: Seq<Seq<char>>,
    untrusted: Seq<Seq<char>>,
    n: nat,
)
    requires
        n <= images.len(),
        f.image_prefixes.len() > 0,
    ensures
        image_refusals(f, images, untrusted, n).len() == 0 <==> forall|i: int|
            0 <= i < n ==> cluster::under_prefix(#[trigger] images[i], f.image_prefixes)
                && !untrusted.contains(images[i]),
    decreases n,
{
    if n > 0 {
        no_image_refused(f, images, untrusted, (n - 1) as nat);
    }
}

/// A pod is admitted exactly where every wall lets it through: its demand fits the grant, the
/// facet names every row, every image is accepted, no waiver is missing, and the budget holds.
pub proof fn a_pod_is_admitted_where_every_wall_lets_it_through(
    pod: PodEffectsModel,
    manifest: ManifestModel,
    facet: PodFacetModel,
    manifest_id: Seq<char>,
    request: RequestMetaModel,
    keyring: Option<KeyringModel>,
    spend: Option<SpendModel>,
)
    ensures
        decision_with(pod, manifest, facet, manifest_id, request, keyring, spend).verdict is Admit
            <==> {
            &&& pod.demands.fits(manifest.grant)
            &&& every_row_is_named(facet, pod.rows)
            &&& every_image_is_accepted(facet, pod.images, pod.untrusted_images)
            &&& no_waiver_is_missing(facet, pod.rows, standing_of(request.signer, keyring))
            &&& budget_holds(pod, manifest.budget.max_money_cents, spend)
        },
{
    nothing_refused_by_name(facet, pod.rows, pod.rows.len());
    if facet.image_prefixes.len() > 0 {
        no_image_refused(facet, pod.images, pod.untrusted_images, pod.images.len());
    }
    let standing = standing_of(request.signer, keyring);
    let a = lattice_refusals(pod, manifest.grant);
    let b = facet_refusals(facet, pod.rows, pod.rows.len());
    let c = image_refusals(facet, pod.images, pod.untrusted_images, pod.images.len());
    let d = trust_refusals(standing, unchecked_in(facet, pod.rows), request.signer);
    let e = budget_refusals(
        pod,
        facet.currency,
        manifest.budget.max_money_cents,
        spend,
        request.namespace,
    );
    assert(a.len() == 0 <==> pod.demands.fits(manifest.grant));
    assert(c.len() == 0 <==> every_image_is_accepted(facet, pod.images, pod.untrusted_images));
    assert(d.len() == 0 <==> no_waiver_is_missing(facet, pod.rows, standing));
    assert(e.len() == 0 <==> budget_holds(pod, manifest.budget.max_money_cents, spend));
    assert(refusals_of(pod, manifest, facet, request, standing, spend).len() == a.len() + b.len()
        + c.len() + d.len() + e.len());
}

/// Trust never widens: whatever is admitted with a keyring is admitted without one, and whatever
/// is refused without one is refused with it, for the same reasons at least.
pub proof fn a_keyring_never_widens(
    pod: PodEffectsModel,
    manifest: ManifestModel,
    facet: PodFacetModel,
    request: RequestMetaModel,
    keyring: Option<KeyringModel>,
    spend: Option<SpendModel>,
    r: RefusalModel,
)
    requires
        refusals_of(pod, manifest, facet, request, Standing::NotConsulted, spend).contains(r),
    ensures
        refusals_of(
            pod,
            manifest,
            facet,
            request,
            standing_of(request.signer, keyring),
            spend,
        ).contains(r),
{
    let standing = standing_of(request.signer, keyring);
    let before = lattice_refusals(pod, manifest.grant) + facet_refusals(
        facet,
        pod.rows,
        pod.rows.len(),
    ) + image_refusals(facet, pod.images, pod.untrusted_images, pod.images.len());
    let added = trust_refusals(standing, unchecked_in(facet, pod.rows), request.signer);
    let none = trust_refusals(
        Standing::NotConsulted,
        unchecked_in(facet, pod.rows),
        request.signer,
    );
    let tail = budget_refusals(
        pod,
        facet.currency,
        manifest.budget.max_money_cents,
        spend,
        request.namespace,
    );
    let without = before + none + tail;
    let with = before + added + tail;
    let i = choose|i: int| 0 <= i < without.len() && without[i] == r;
    if i < before.len() {
        assert(with[i] == r);
    } else {
        assert(with[i + added.len()] == r);
    }
}

/// A submitter in the keyring is judged as if none had been consulted.
pub proof fn a_record_keeps_the_waivers(
    pod: PodEffectsModel,
    manifest: ManifestModel,
    facet: PodFacetModel,
    request: RequestMetaModel,
    spend: Option<SpendModel>,
)
    ensures
        refusals_of(pod, manifest, facet, request, Standing::Trusted, spend) == refusals_of(
            pod,
            manifest,
            facet,
            request,
            Standing::NotConsulted,
            spend,
        ),
{
}

/// Nobody authenticated is nobody with a record, whatever the keyring lists.
pub proof fn an_unauthenticated_submitter_has_no_standing(keyring: KeyringModel)
    ensures
        standing_of(None, Some(keyring)) is Unknown,
{
}

/// The budget wall only refuses: whatever is refused without prices is refused with them.
pub proof fn a_price_list_never_widens(
    pod: PodEffectsModel,
    manifest: ManifestModel,
    facet: PodFacetModel,
    request: RequestMetaModel,
    standing: Standing,
    spend: SpendModel,
)
    ensures
        refusals_of(pod, manifest, facet, request, standing, None).is_prefix_of(
            refusals_of(pod, manifest, facet, request, standing, Some(spend)),
        ),
{
    let without = refusals_of(pod, manifest, facet, request, standing, None);
    let with = refusals_of(pod, manifest, facet, request, standing, Some(spend));
    assert(without =~= with.subrange(0, without.len() as int));
}

/// The record is written in order: the request first, whatever is decided; the charge exactly
/// where there are prices; the decision last, an admission exactly where the verdict admits. Either
/// decision names the decided bytes, the ceiling, who asked, and the pod.
pub proof fn the_record_is_in_order(
    pod: PodEffectsModel,
    manifest: ManifestModel,
    facet: PodFacetModel,
    manifest_id: Seq<char>,
    request: RequestMetaModel,
    keyring: Option<KeyringModel>,
    spend: Option<SpendModel>,
)
    ensures
        ({
            let d = decision_with(pod, manifest, facet, manifest_id, request, keyring, spend);
            let last = d.audit.last();
            &&& d.audit[0] == requested_event(pod, manifest_id, request, d.standing)
            &&& d.audit.len() == if spend is Some { 3nat } else { 2nat }
            &&& spend is Some ==> d.audit[1] is SpendCharged
            &&& last is PodAdmitted <==> d.verdict is Admit
            &&& last is PodRefused <==> d.verdict is Deny
            &&& last matches AdmissionEventModel::PodAdmitted {
                artifact_sha256,
                manifest,
                signer,
                subject,
                ..
            } ==> {
                &&& artifact_sha256 == pod.spec_sha256
                &&& manifest == manifest_id
                &&& signer == request.signer
                &&& subject == subject_of(request)
            }
            &&& last matches AdmissionEventModel::PodRefused {
                artifact_sha256,
                manifest,
                signer,
                subject,
                ..
            } ==> {
                &&& artifact_sha256 == pod.spec_sha256
                &&& manifest == manifest_id
                &&& signer == request.signer
                &&& subject == subject_of(request)
            }
        }),
{
}

/// A denial gives every reason, and names the first.
pub proof fn a_denial_gives_every_reason(refusals: Seq<RefusalModel>)
    ensures
        verdict_on(refusals) matches VerdictModel::Deny { first, all } ==> all == refusals
            && all.len() > 0 && first == all[0],
        verdict_on(refusals) is Admit <==> refusals.len() == 0,
{
}

/// The row that a refusal names is one that exceeds the grant, and none exceeds it by more.
pub proof fn the_worst_row_exceeds_the_grant(rows: Seq<EffectRowModel>, granted: Grant)
    ensures
        worst(rows, granted) is None <==> forall|i: int|
            0 <= i < rows.len() ==> (#[trigger] rows[i]).demands.fits(granted),
        worst(rows, granted) matches Some(r) ==> rows.contains(r) && !r.demands.fits(granted) && (
        forall|i: int|
            0 <= i < rows.len() ==> excess((#[trigger] rows[i]).demands, granted) <= excess(
                r.demands,
                granted,
            )),
    decreases rows.len(),
{
    if rows.len() > 0 {
        let before = rows.drop_last();
        the_worst_row_exceeds_the_grant(before, granted);
        assert forall|i: int| 0 <= i < before.len() implies before[i] == #[trigger] rows[i] by {}
        assert(rows[rows.len() - 1] == rows.last());
        if let Some(r) = worst(before, granted) {
            let k = choose|k: int| 0 <= k < before.len() && before[k] == r;
            assert(rows[k] == r);
        }
        if forall|i: int| 0 <= i < rows.len() ==> (#[trigger] rows[i]).demands.fits(granted) {
            assert forall|i: int| 0 <= i < before.len() implies (
            #[trigger] before[i]).demands.fits(granted) by {
                assert(rows[i].demands.fits(granted));
            }
        }
    }
}

/// A refusal by the lattice points at a row of the pod: a joint demand that exceeds the grant is
/// the demand of some row.
pub proof fn a_lattice_refusal_names_a_row(pod: PodEffectsModel, granted: Grant)
    requires
        pod.demands == pod::joint_demand(pod.rows),
        !pod.demands.fits(granted),
    ensures
        worst(pod.rows, granted) matches Some(r) && pod.rows.contains(r) && lattice_refusals(
            pod,
            granted,
        )[0].effect == r.effect.label(),
{
    pod::a_demand_fits_where_every_row_does(pod.rows, granted);
    the_worst_row_exceeds_the_grant(pod.rows, granted);
}

/// A manifest cannot widen past what the cluster trusts: under one that names image prefixes, a pod
/// is refused for an image from a source that the cluster does not trust, pinned or not, whatever
/// the prefixes are and in whichever container the image stands.
pub proof fn no_manifest_vouches_past_the_cluster(
    p: PodSpecModel,
    s: ClusterSnapshotModel,
    raw: Seq<char>,
    k: int,
    manifest: ManifestModel,
    facet: PodFacetModel,
    manifest_id: Seq<char>,
    request: RequestMetaModel,
    keyring: Option<KeyringModel>,
    spend: Option<SpendModel>,
)
    requires
        0 <= k < p.placed().len(),
        !pod::source_is_trusted(p.placed()[k].1.image, s.trusted_image_prefixes),
        facet.image_prefixes.len() > 0,
        pod::compiled(p, s, raw) is Ok,
    ensures
        decision_with(
            pod::compiled(p, s, raw)->Ok_0,
            manifest,
            facet,
            manifest_id,
            request,
            keyring,
            spend,
        ).verdict is Deny,
{
    let pod = pod::compiled(p, s, raw)->Ok_0;
    assert(pod.images[k] == p.placed()[k].1.image);
    pod::an_untrusted_image_is_listed(pod.images, s.trusted_image_prefixes, pod.images[k]);
    a_pod_is_admitted_where_every_wall_lets_it_through(
        pod,
        manifest,
        facet,
        manifest_id,
        request,
        keyring,
        spend,
    );
}

/// An image that the cluster doubts passes in two ways only. The manifest waives the check, the
/// submitter keeps its waivers, and the decision says that nobody looked; or the doubt is not about
/// the source, and the manifest's prefixes cover that image.
pub proof fn an_image_in_doubt_is_vouched_for_or_reported(
    p: PodSpecModel,
    s: ClusterSnapshotModel,
    raw: Seq<char>,
    k: int,
    manifest: ManifestModel,
    facet: PodFacetModel,
    manifest_id: Seq<char>,
    request: RequestMetaModel,
    keyring: Option<KeyringModel>,
    spend: Option<SpendModel>,
)
    requires
        0 <= k < p.placed().len(),
        pod::doubt(p.placed()[k].1.image, s.trusted_image_prefixes) is Some,
        pod::compiled(p, s, raw) is Ok,
        decision_with(
            pod::compiled(p, s, raw)->Ok_0,
            manifest,
            facet,
            manifest_id,
            request,
            keyring,
            spend,
        ).verdict is Admit,
    ensures
        ({
            let image = p.placed()[k].1.image;
            let d = decision_with(
                pod::compiled(p, s, raw)->Ok_0,
                manifest,
                facet,
                manifest_id,
                request,
                keyring,
                spend,
            );
            ||| {
                &&& cluster::under_prefix(image, facet.image_prefixes)
                &&& pod::source_is_trusted(image, s.trusted_image_prefixes)
                &&& pod::doubt(image, s.trusted_image_prefixes) != Some(ImageDoubt::UntrustedSource)
            }
            ||| {
                &&& facet.image_prefixes.len() == 0
                &&& d.standing !is Unknown
                &&& d.unchecked.len() == 1
            }
        }),
{
    let pod = pod::compiled(p, s, raw)->Ok_0;
    let c = p.placed()[k];
    let part = pod::container_rows(c.0, c.1, s.trusted_image_prefixes);
    pod::every_container_contributes(p, s, raw, k);
    let at = choose|i: int|
        0 <= i <= pod.rows.len() - part.len() && #[trigger] pod.rows.subrange(i, i + part.len())
            == part;
    let last = at + part.len() - 1;
    assert(pod.rows[last] == pod.rows.subrange(at, at + part.len())[part.len() - 1]);
    assert(pod.rows[last].effect is UntrustedImage);
    assert(pod.images[k] == c.1.image);
    pod::an_untrusted_image_is_listed(pod.images, s.trusted_image_prefixes, c.1.image);
    a_pod_is_admitted_where_every_wall_lets_it_through(
        pod,
        manifest,
        facet,
        manifest_id,
        request,
        keyring,
        spend,
    );
}

/// Naming image prefixes only narrows: whatever is admitted under a manifest that names some is
/// admitted under the same manifest without them, for everyone who keeps its waivers.
pub proof fn naming_image_prefixes_only_narrows(
    pod: PodEffectsModel,
    manifest: ManifestModel,
    facet: PodFacetModel,
    manifest_id: Seq<char>,
    request: RequestMetaModel,
    keyring: Option<KeyringModel>,
    spend: Option<SpendModel>,
)
    requires
        standing_of(request.signer, keyring) !is Unknown,
        decision_with(pod, manifest, facet, manifest_id, request, keyring, spend).verdict is Admit,
    ensures
        decision_with(
            pod,
            manifest,
            PodFacetModel { image_prefixes: Seq::empty(), ..facet },
            manifest_id,
            request,
            keyring,
            spend,
        ).verdict is Admit,
{
    let silent = PodFacetModel { image_prefixes: Seq::empty(), ..facet };
    a_pod_is_admitted_where_every_wall_lets_it_through(
        pod,
        manifest,
        facet,
        manifest_id,
        request,
        keyring,
        spend,
    );
    a_pod_is_admitted_where_every_wall_lets_it_through(
        pod,
        manifest,
        silent,
        manifest_id,
        request,
        keyring,
        spend,
    );
    assert forall|i: int| 0 <= i < pod.rows.len() implies silent.denial(
        (#[trigger] pod.rows[i]).effect,
    ) is None by {
        assert(facet.denial(pod.rows[i].effect) is None);
    }
}

/// A manifest that narrows another admits nothing that the other would refuse: a lead hands out
/// authority they hold, never authority they do not.
pub proof fn a_narrower_manifest_admits_no_more(
    pod: PodEffectsModel,
    parent: ManifestModel,
    child: ManifestModel,
    parent_id: Seq<char>,
    child_id: Seq<char>,
    request: RequestMetaModel,
    keyring: Option<KeyringModel>,
    spend: Option<SpendModel>,
)
    requires
        manifest::manifest_widening(parent, child) is None,
        decision_on(pod, child, child_id, request, keyring, spend) matches Ok(d)
            && d.verdict is Admit,
    ensures
        decision_on(pod, parent, parent_id, request, keyring, spend) matches Ok(d)
            && d.verdict is Admit,
{
    let above = parent.pod_facet()->Ok_0;
    let below = child.pod_facet()->Ok_0;
    manifest::a_narrowing_narrows_at_every_wall(parent, child);
    a_pod_is_admitted_where_every_wall_lets_it_through(
        pod,
        child,
        below,
        child_id,
        request,
        keyring,
        spend,
    );
    a_pod_is_admitted_where_every_wall_lets_it_through(
        pod,
        parent,
        above,
        parent_id,
        request,
        keyring,
        spend,
    );
    assert forall|i: int| 0 <= i < pod.rows.len() implies above.denial(
        (#[trigger] pod.rows[i]).effect,
    ) is None by {
        facet::a_child_authorises_no_more_than_its_parent(above, below, pod.rows[i].effect);
    }
    if below.image_prefixes.len() > 0 {
        assert(above.image_prefixes.contains(below.image_prefixes[0]));
    }
    if above.image_prefixes.len() > 0 {
        assert forall|i: int| 0 <= i < pod.images.len() implies cluster::under_prefix(
            #[trigger] pod.images[i],
            above.image_prefixes,
        ) && !pod.untrusted_images.contains(pod.images[i]) by {
            assert(cluster::under_prefix(pod.images[i], below.image_prefixes));
            let k = choose|k: int|
                0 <= k < below.image_prefixes.len() && below.image_prefixes[k].len() > 0
                    && text::starts_with(pod.images[i], #[trigger] below.image_prefixes[k]);
            assert(above.image_prefixes.contains(below.image_prefixes[k]));
        }
    }
}

/// An address is external, not a bare name: a host with more than one colon, or in brackets, is
/// nothing that a policy can hold a pod to.
pub proof fn an_address_is_external(host: Seq<char>, i: int, j: int)
    requires
        0 <= i < host.len(),
        host[i] == '[' || (host[i] == ':' && i < j < host.len() && host[j] == ':'),
    ensures
        !names_in_cluster(host),
{
    if host[i] == ':' {
        first_is_no_later(host, ':', i);
        let at = text::first_at(host, ':');
        assert(after_colon(host)[j - at - 1] == ':');
    }
}

proof fn first_is_no_later(s: Seq<char>, c: char, i: int)
    requires
        0 <= i < s.len(),
        s[i] == c,
    ensures
        0 <= text::first_at(s, c) <= i,
    decreases s.len(),
{
    if s[0] != c {
        first_is_no_later(s.drop_first(), c, i - 1);
    }
}

proof fn an_event_is_well_written(e: AdmissionEventModel)
    ensures
        canonical::well_written(AdmissionEvent::tree(e)),
{
    match e {
        AdmissionEventModel::PodRequested { demands, .. } => {
            grant::no_two_grants_are_written_alike(demands, demands);
        },
        AdmissionEventModel::SpendCharged {
            cpu_millicores,
            memory_bytes,
            pod_monthly_minor,
            namespace_monthly_minor,
            budget_minor,
            ..
        } => {
            canonical::a_number_is_well_written(cpu_millicores, memory_bytes);
            canonical::a_number_is_well_written(memory_bytes, pod_monthly_minor);
            canonical::a_number_is_well_written(pod_monthly_minor, namespace_monthly_minor);
            canonical::a_number_is_well_written(namespace_monthly_minor, budget_minor);
            canonical::a_number_is_well_written(budget_minor, cpu_millicores);
        },
        _ => {},
    }
    canonical::members_are_well_written(AdmissionEvent::tree(e)->Object_0);
}

/// No two events are written alike: an entry of a record that says something else is another text.
pub proof fn no_two_events_are_written_alike(a: AdmissionEventModel, b: AdmissionEventModel)
    requires
        json::rendered(AdmissionEvent::tree(a)) == json::rendered(AdmissionEvent::tree(b)),
    ensures
        a == b,
{
    an_event_is_well_written(a);
    an_event_is_well_written(b);
    canonical::a_text_says_one_document(AdmissionEvent::tree(a), AdmissionEvent::tree(b));
    let x = AdmissionEvent::tree(a)->Object_0;
    let y = AdmissionEvent::tree(b)->Object_0;
    let n = x.len() as int;
    reveal_strlit("pod_requested");
    reveal_strlit("spend_charged");
    reveal_strlit("pod_admitted");
    reveal_strlit("pod_refused");
    assert(x[0].1->Text_0.len() == y[0].1->Text_0.len());
    assert(x[0].1->Text_0[0] == y[0].1->Text_0[0]);
    assert(x[1] == y[1] && x[2] == y[2] && x[3] == y[3] && x[4] == y[4]);
    match (a, b) {
        (
            AdmissionEventModel::PodRequested { demands: p, .. },
            AdmissionEventModel::PodRequested { demands: q, .. },
        ) => {
            assert(x[5] == y[5] && x[6] == y[6] && x[7] == y[7] && x[8] == y[8]);
            assert(x[n - 1] == y[n - 1]);
            grant::no_two_grants_are_written_alike(p, q);
        },
        (
            AdmissionEventModel::SpendCharged {
                cpu_millicores: a1,
                memory_bytes: a2,
                pod_monthly_minor: a3,
                namespace_monthly_minor: a4,
                budget_minor: a5,
                ..
            },
            AdmissionEventModel::SpendCharged {
                cpu_millicores: b1,
                memory_bytes: b2,
                pod_monthly_minor: b3,
                namespace_monthly_minor: b4,
                budget_minor: b5,
                ..
            },
        ) => {
            assert(x[5] == y[5] && x[6] == y[6] && x[7] == y[7] && x[8] == y[8]);
            canonical::a_number_is_well_written(a1, b1);
            canonical::a_number_is_well_written(a2, b2);
            canonical::a_number_is_well_written(a3, b3);
            canonical::a_number_is_well_written(a4, b4);
            canonical::a_number_is_well_written(a5, b5);
        },
        (AdmissionEventModel::PodAdmitted { .. }, AdmissionEventModel::PodAdmitted { .. }) => {
            assert(x[n - 1] == y[n - 1]);
        },
        (AdmissionEventModel::PodRefused { .. }, AdmissionEventModel::PodRefused { .. }) => {
            assert(x[n - 1] == y[n - 1] && x[n - 2] == y[n - 2] && x[n - 3] == y[n - 3]);
            assert(x[n - 4] == y[n - 4] && x[n - 5] == y[n - 5]);
        },
        _ => {},
    }
}

/// A pod is admitted exactly where: its demand fits the grant; the facet denies none of its rows; under
/// an image policy, every image begins with a prefix of the policy and comes from a source that the
/// cluster trusts; without one, no image is in doubt, or no keyring is consulted, or the submitter is
/// in it; and, where there are prices, every container declares a request and what the namespace has
/// committed together with the price of the pod is within the budget.
pub proof fn the_verdict_is_what_every_wall_says(
    pod: PodEffectsModel,
    manifest: ManifestModel,
    facet: PodFacetModel,
    manifest_id: Seq<char>,
    request: RequestMetaModel,
    keyring: Option<KeyringModel>,
    spend: Option<SpendModel>,
)
    ensures
        decision_with(pod, manifest, facet, manifest_id, request, keyring, spend).verdict is Admit
            <==> {
            &&& pod.demands.filesystem.height() <= manifest.grant.filesystem.height()
            &&& pod.demands.network.height() <= manifest.grant.network.height()
            &&& pod.demands.execution.height() <= manifest.grant.execution.height()
            &&& forall|i: int|
                0 <= i < pod.rows.len() ==> facet.denial((#[trigger] pod.rows[i]).effect) is None
            &&& facet.image_prefixes.len() > 0 ==> forall|i: int|
                0 <= i < pod.images.len() ==> cluster::under_prefix(
                    #[trigger] pod.images[i],
                    facet.image_prefixes,
                ) && !pod.untrusted_images.contains(pod.images[i])
            &&& (keyring matches Some(k) && (request.signer is None || !k.trusted.contains(
                request.signer->0,
            )) && facet.image_prefixes.len() == 0) ==> forall|i: int|
                0 <= i < pod.rows.len() ==> !((#[trigger] pod.rows[i]).effect is UntrustedImage)
            &&& spend matches Some(s) ==> pod.reservation.undeclared.len() == 0 && (
            s.report.namespace_monthly_minor + s.prices.priced(pod.reservation.reservation)
                <= manifest.budget.max_money_cents || manifest.budget.max_money_cents == u64::MAX)
        },
{
    a_pod_is_admitted_where_every_wall_lets_it_through(
        pod,
        manifest,
        facet,
        manifest_id,
        request,
        keyring,
        spend,
    );
}

/// A pod is judged by the facet that its manifest carries, and not judged at all where that cannot be
/// read, or where the report of what is spent is in another currency than the budget.
pub proof fn a_pod_is_judged_by_its_manifest(
    pod: PodEffectsModel,
    manifest: ManifestModel,
    manifest_id: Seq<char>,
    request: RequestMetaModel,
    keyring: Option<KeyringModel>,
    spend: Option<SpendModel>,
)
    ensures
        ({
            let d = decision_on(pod, manifest, manifest_id, request, keyring, spend);
            &&& manifest.pod_facet() is Err ==> d is Err && d->Err_0 is Manifest
            &&& manifest.pod_facet() matches Ok(f) ==> (spend matches Some(s)
                && text::ascii_upper(s.report.currency) != text::ascii_upper(f.currency)) ==> d is Err
                && d->Err_0 is Cost
            &&& manifest.pod_facet() matches Ok(f) ==> (spend is None || text::ascii_upper(
                spend->0.report.currency,
            ) == text::ascii_upper(f.currency)) ==> d == Ok::<DecisionModel, AdmissionErrorModel>(
                decision_with(pod, manifest, f, manifest_id, request, keyring, spend),
            )
        }),
{
}

/// Every row that the facet denies is a reason to refuse, by the wall that narrows, under the name of
/// its effect and the field that it comes from, with what the facet does grant of the kind.
pub proof fn every_denied_row_is_a_reason(
    pod: PodEffectsModel,
    manifest: ManifestModel,
    facet: PodFacetModel,
    request: RequestMetaModel,
    standing: Standing,
    spend: Option<SpendModel>,
    i: int,
)
    requires
        0 <= i < pod.rows.len(),
        facet.denial(pod.rows[i].effect) is Some,
    ensures
        exists|r: RefusalModel| #[trigger]
            refusals_of(pod, manifest, facet, request, standing, spend).contains(r) && r.wall
                == Wall::Narrowing && r.effect == pod.rows[i].effect.label() && r.source
                == pod.rows[i].source.path() && r.reason == facet.denial(
                pod.rows[i].effect,
            )->0.message() && (pod.rows[i].effect is Secret ==> r.grant_allows == facet.secrets) && (
            pod.rows[i].effect is Capability ==> r.grant_allows == facet.capabilities) && (
            pod.rows[i].effect is Egress ==> r.grant_allows == facet.egress) && (
            pod.rows[i].effect is UntrustedImage ==> r.grant_allows == facet.image_prefixes) && (
            pod.rows[i].effect is HostPath ==> r.grant_allows.len() == 0),
{
    let r = row_refusal(facet, pod.rows[i])[0];
    denied_row_is_among(facet, pod.rows, pod.rows.len(), i);
    let a = lattice_refusals(pod, manifest.grant);
    let b = facet_refusals(facet, pod.rows, pod.rows.len());
    let k = choose|k: int| 0 <= k < b.len() && b[k] == r;
    let all = refusals_of(pod, manifest, facet, request, standing, spend);
    assert(all[a.len() + k] == r);
    assert(all.contains(r));
}

proof fn denied_row_is_among(f: PodFacetModel, rows: Seq<EffectRowModel>, n: nat, i: int)
    requires
        0 <= i < n <= rows.len(),
        f.denial(rows[i].effect) is Some,
    ensures
        facet_refusals(f, rows, n).contains(row_refusal(f, rows[i])[0]),
    decreases n,
{
    let before = facet_refusals(f, rows, (n - 1) as nat);
    let all = facet_refusals(f, rows, n);
    let r = row_refusal(f, rows[i])[0];
    if i == n - 1 {
        assert(all[before.len() as int] == r);
    } else {
        denied_row_is_among(f, rows, (n - 1) as nat, i);
        let k = choose|k: int| 0 <= k < before.len() && before[k] == r;
        assert(all[k] == r);
    }
}

/// Where the demand exceeds the grant, the first reason is the wall of the lattice, with the level that
/// the grant allows on each axis; and no reason is that wall's where the demand fits.
pub proof fn the_lattice_speaks_first(
    pod: PodEffectsModel,
    manifest: ManifestModel,
    facet: PodFacetModel,
    request: RequestMetaModel,
    standing: Standing,
    spend: Option<SpendModel>,
)
    ensures
        ({
            let all = refusals_of(pod, manifest, facet, request, standing, spend);
            let g = manifest.grant;
            &&& !pod.demands.fits(g) ==> all.len() > 0 && all[0].wall == Wall::TypeCheck
                && all[0].grant_allows == seq![
                "filesystem: "@ + g.filesystem.label(),
                "network: "@ + g.network.label(),
                "exec: "@ + g.execution.label(),
            ]
            &&& pod.demands.fits(g) ==> lattice_refusals(pod, g).len() == 0
        }),
{
}

/// A demand exceeds a grant by nothing exactly where it fits, and otherwise by the levels that it lies
/// above the grant, on all its axes together.
pub proof fn an_excess_counts_every_axis(demand: Grant, granted: Grant, l: Level)
    ensures
        excess(demand, granted) == 0 <==> demand.fits(granted),
        excess(Grant { filesystem: l, ..Grant::nothing() }, Grant::nothing()) == l.height(),
        excess(Grant { network: l, ..Grant::nothing() }, Grant::nothing()) == l.height(),
        excess(Grant { execution: l, ..Grant::nothing() }, Grant::nothing()) == l.height(),
        excess(demand, Grant::nothing()) == demand.filesystem.height() + demand.network.height()
            + demand.execution.height(),
{
}

/// Without an image policy, a pod with an image in doubt is recorded as not checked; with one, or with
/// no image in doubt, nothing is left unchecked.
pub proof fn an_unchecked_image_is_recorded(f: PodFacetModel, rows: Seq<EffectRowModel>)
    ensures
        unchecked_in(f, rows).len() > 0 <==> f.image_prefixes.len() == 0 && exists|i: int|
            0 <= i < rows.len() && (#[trigger] rows[i]).effect is UntrustedImage,
        unchecked_in(f, rows).len() <= 1,
{
}

/// A submitter stands as the keyring says: trusted where it lists them, unknown where it does not or
/// where nobody signed, and not consulted where there is none.
pub proof fn a_submitter_stands_as_the_keyring_says(
    signer: Option<Seq<char>>,
    keyring: Option<KeyringModel>,
)
    ensures
        standing_of(signer, keyring) is NotConsulted <==> keyring is None,
        standing_of(signer, keyring) is Trusted <==> (keyring matches Some(k) && signer matches Some(
            s,
        ) && k.trusted.contains(s)),
        standing_of(signer, keyring) is Unknown <==> (keyring matches Some(k) && (signer is None
            || !k.trusted.contains(signer->0))),
{
}

/// The record says what was asked and what was decided: the request names the pod, its bytes, the state
/// and the ceiling that it was held to, its demand and who submitted it; the charge gives the
/// reservation, its price, what was committed and the budget; and a refusal gives the first reason.
pub proof fn the_record_says_what_was_decided(
    pod: PodEffectsModel,
    manifest: ManifestModel,
    facet: PodFacetModel,
    manifest_id: Seq<char>,
    request: RequestMetaModel,
    keyring: Option<KeyringModel>,
    spend: Option<SpendModel>,
)
    ensures
        ({
            let d = decision_with(pod, manifest, facet, manifest_id, request, keyring, spend);
            let standing = standing_of(request.signer, keyring);
            let all = refusals_of(pod, manifest, facet, request, standing, spend);
            &&& d.audit[0] == (AdmissionEventModel::PodRequested {
                uid: request.uid,
                namespace: request.namespace,
                name: request.name,
                artifact_sha256: pod.spec_sha256,
                snapshot_sha256: pod.snapshot_sha256,
                manifest: manifest_id,
                demands: pod.demands,
                signer: request.signer,
                trust: standing.word(),
            })
            &&& spend matches Some(s) ==> d.audit[1] == (AdmissionEventModel::SpendCharged {
                uid: request.uid,
                artifact_sha256: pod.spec_sha256,
                currency: facet.currency,
                cpu_millicores: pod.reservation.reservation.cpu_millicores,
                memory_bytes: pod.reservation.reservation.memory_bytes,
                pod_monthly_minor: s.prices.priced(pod.reservation.reservation) as u64,
                namespace_monthly_minor: s.report.namespace_monthly_minor,
                budget_minor: manifest.budget.max_money_cents,
            })
            &&& d.verdict is Admit ==> d.audit.last() == (AdmissionEventModel::PodAdmitted {
                uid: request.uid,
                artifact_sha256: pod.spec_sha256,
                manifest: manifest_id,
                signer: request.signer,
                subject: request.namespace + "/"@ + request.name,
            })
            &&& d.verdict matches VerdictModel::Deny { first, .. } ==> d.audit.last() == (
            AdmissionEventModel::PodRefused {
                uid: request.uid,
                artifact_sha256: pod.spec_sha256,
                manifest: manifest_id,
                signer: request.signer,
                subject: request.namespace + "/"@ + request.name,
                wall: first.wall.word(),
                effect: first.effect,
                source: first.source,
                reason: first.reason,
            })
            &&& d.pod == pod
            &&& d.signer == request.signer
            &&& d.standing == standing
            &&& d.charged is Some <==> spend is Some
            &&& spend matches Some(s) ==> d.charged == Some(
                s.prices.priced(pod.reservation.reservation) as u64,
            )
        }),
{
}

/// An amount is written in whole units and hundredths, and reads back as what it is.
pub proof fn an_amount_reads_back(minor: nat)
    ensures
        ({
            let s = amount(minor);
            let n = s.len() as int;
            &&& n >= 4
            &&& s[n - 3] == '.'
            &&& text::all_digits(s.subrange(0, n - 3) + s.subrange(n - 2, n))
            &&& text::digits_value(s.subrange(0, n - 3) + s.subrange(n - 2, n)) == minor
        }),
{
    reveal_strlit(".");
    let s = amount(minor);
    let n = s.len() as int;
    let q = minor / 100;
    let r = minor % 100;
    text::a_written_number_reads_back(q);
    let w = s.subrange(0, n - 3);
    let c = s.subrange(n - 2, n);
    assert(w =~= text::decimal(q));
    assert(c =~= two_digits(r));
    let d = w + c;
    assert(d.drop_last().drop_last() =~= w);
    assert(d.last() == text::digit_char(r % 10));
    assert(d.drop_last().last() == text::digit_char(r / 10));
    assert(text::digits_value(d.drop_last()) == q * 10 + r / 10);
    assert(text::digits_value(d) == (q * 10 + r / 10) * 10 + r % 10);
    assert forall|i: int| 0 <= i < d.len() implies text::is_digit(#[trigger] d[i]) by {
        if i < w.len() {
            assert(d[i] == text::decimal(q)[i]);
        } else {
            assert(d[i] == c[i - w.len()]);
        }
    }
}

proof fn host_parts(name: Seq<char>, port: Seq<char>)
    requires
        !name.contains(':'),
    ensures
        before_colon(name) == name,
        after_colon(name).len() == 0,
        before_colon(name + seq![':'] + port) == name,
        after_colon(name + seq![':'] + port) == port,
{
    let s = name + seq![':'] + port;
    text::the_first_place_is_first(name, ':');
    text::the_first_place_is_first(s, ':');
    let at = text::first_at(s, ':');
    assert(s[name.len() as int] == ':');
    if at < name.len() {
        assert(name[at] == ':');
        assert(name.contains(name[at]));
    }
    assert(at == name.len());
    assert(before_colon(name) =~= name);
    assert(before_colon(s) =~= name);
    assert(after_colon(s) =~= port);
}

/// A host is in the cluster by its name: by a bare name that begins with a letter and holds letters,
/// digits and hyphens, or by an ending that only the cluster resolves. A port makes no difference,
/// and what follows a colon and is no port makes the host external.
pub proof fn a_host_is_in_the_cluster_by_its_name(name: Seq<char>, port: Seq<char>)
    requires
        !name.contains(':'),
        !name.contains('['),
        !port.contains('['),
        name.len() > 0,
        name.last() != '.',
    ensures
        names_in_cluster(name) <==> {
            ||| ('a' <= name[0] <= 'z' || 'A' <= name[0] <= 'Z') && forall|i: int|
                0 <= i < name.len() ==> 'a' <= #[trigger] name[i] <= 'z' || 'A' <= name[i] <= 'Z'
                    || '0' <= name[i] <= '9' || name[i] == '-'
            ||| text::ends_with(name, ".svc"@)
            ||| text::ends_with(name, ".cluster.local"@)
        },
        text::all_digits(port) ==> names_in_cluster(name + seq![':'] + port) == names_in_cluster(name),
        !text::all_digits(port) ==> !names_in_cluster(name + seq![':'] + port),
{
    let s = name + seq![':'] + port;
    host_parts(name, port);
    assert(without_last_points(name) == name);
    assert(!s.contains('[')) by {
        if s.contains('[') {
            let i = choose|i: int| 0 <= i < s.len() && s[i] == '[';
            if i < name.len() {
                assert(name[i] == '[');
                assert(name.contains('['));
            } else if i > name.len() {
                assert(port[i - name.len() - 1] == '[');
                assert(port.contains('['));
            }
        }
    }
    reveal_strlit(".svc.cluster.local");
    reveal_strlit(".cluster.local");
    if text::ends_with(name, ".svc.cluster.local"@) {
        let long = name.subrange(name.len() - 18, name.len() as int);
        assert forall|i: int| 0 <= i < 14 implies name.subrange(
            name.len() - 14,
            name.len() as int,
        )[i] == ".cluster.local"@[i] by {
            assert(name[name.len() - 14 + i] == long[4 + i]);
            assert(long[4 + i] == ".svc.cluster.local"@[4 + i]);
        }
        assert(name.subrange(name.len() - 14, name.len() as int) =~= ".cluster.local"@);
    }
}

/// A host that the facet names and that is not in the cluster is reported as one that no policy can
/// hold the pod to, and no other is.
pub proof fn an_external_host_is_reported(hosts: Seq<Seq<char>>, note: Seq<char>)
    ensures
        unenforceable_in(hosts).contains(note) <==> exists|i: int|
            0 <= i < hosts.len() && !names_in_cluster(#[trigger] hosts[i]) && note
                == unenforceable_note(hosts[i]),
    decreases hosts.len(),
{
    if hosts.len() > 0 {
        let before = hosts.drop_last();
        let all = unenforceable_in(hosts);
        an_external_host_is_reported(before, note);
        assert(hosts[hosts.len() - 1] == hosts.last());
        if unenforceable_in(before).contains(note) {
            let k = choose|k: int|
                0 <= k < unenforceable_in(before).len() && unenforceable_in(before)[k] == note;
            assert(all[k] == note);
            let i = choose|i: int|
                0 <= i < before.len() && !names_in_cluster(#[trigger] before[i]) && note
                    == unenforceable_note(before[i]);
            assert(hosts[i] == before[i]);
        }
        if !names_in_cluster(hosts.last()) {
            assert(all[all.len() - 1] == unenforceable_note(hosts.last()));
        }
        if all.contains(note) {
            let k = choose|k: int| 0 <= k < all.len() && all[k] == note;
            if k < unenforceable_in(before).len() {
                assert(unenforceable_in(before)[k] == note);
            }
        }
        if exists|i: int|
            0 <= i < hosts.len() && !names_in_cluster(#[trigger] hosts[i]) && note
                == unenforceable_note(hosts[i]) {
            let i = choose|i: int|
                0 <= i < hosts.len() && !names_in_cluster(#[trigger] hosts[i]) && note
                    == unenforceable_note(hosts[i]);
            if i < before.len() {
                assert(before[i] == hosts[i]);
            }
        }
    }
}

/// A request is recorded with each part under its own name.
#[verifier::rlimit(50)]
pub proof fn a_request_is_recorded_under_its_names(v: AdmissionEventModel)
    ensures
        v matches AdmissionEventModel::PodRequested {
            uid,
            namespace,
            name,
            artifact_sha256,
            snapshot_sha256,
            manifest,
            demands,
            signer,
            trust,
        } ==> {
            let t = AdmissionEvent::tree(v);
            &&& t.member("kind"@) == Some(Tree::Text("pod_requested"@))
            &&& t.member("uid"@) == Some(Tree::Text(uid))
            &&& t.member("namespace"@) == Some(Tree::Text(namespace))
            &&& t.member("name"@) == Some(Tree::Text(name))
            &&& t.member("artifact_sha256"@) == Some(Tree::Text(artifact_sha256))
            &&& t.member("snapshot_sha256"@) == Some(Tree::Text(snapshot_sha256))
            &&& t.member("manifest"@) == Some(Tree::Text(manifest))
            &&& t.member("demands"@) == Some(<Grant as Writable>::tree(demands))
            &&& t.member("signer"@) == (match signer {
                Some(x) => Some(Tree::Text(x)),
                None => None,
            })
            &&& t.member("trust"@) == Some(Tree::Text(trust))
        },
{
    if let AdmissionEventModel::PodRequested {
        signer,
        .. } = v {
        let all = AdmissionEvent::tree(v)->Object_0;
        reveal_strlit("kind");
        reveal_strlit("uid");
        reveal_strlit("namespace");
        reveal_strlit("name");
        reveal_strlit("artifact_sha256");
        reveal_strlit("snapshot_sha256");
        reveal_strlit("manifest");
        reveal_strlit("demands");
        reveal_strlit("signer");
        reveal_strlit("trust");
        assert("kind"@.len() != "uid"@.len());
        assert("kind"@.len() != "namespace"@.len());
        assert("kind"@[0] != "name"@[0]);
        assert("kind"@.len() != "artifact_sha256"@.len());
        assert("kind"@.len() != "snapshot_sha256"@.len());
        assert("kind"@.len() != "manifest"@.len());
        assert("kind"@.len() != "demands"@.len());
        assert("kind"@.len() != "signer"@.len());
        assert("kind"@.len() != "trust"@.len());
        assert("uid"@.len() != "namespace"@.len());
        assert("uid"@.len() != "name"@.len());
        assert("uid"@.len() != "artifact_sha256"@.len());
        assert("uid"@.len() != "snapshot_sha256"@.len());
        assert("uid"@.len() != "manifest"@.len());
        assert("uid"@.len() != "demands"@.len());
        assert("uid"@.len() != "signer"@.len());
        assert("uid"@.len() != "trust"@.len());
        assert("namespace"@.len() != "name"@.len());
        assert("namespace"@.len() != "artifact_sha256"@.len());
        assert("namespace"@.len() != "snapshot_sha256"@.len());
        assert("namespace"@.len() != "manifest"@.len());
        assert("namespace"@.len() != "demands"@.len());
        assert("namespace"@.len() != "signer"@.len());
        assert("namespace"@.len() != "trust"@.len());
        assert("name"@.len() != "artifact_sha256"@.len());
        assert("name"@.len() != "snapshot_sha256"@.len());
        assert("name"@.len() != "manifest"@.len());
        assert("name"@.len() != "demands"@.len());
        assert("name"@.len() != "signer"@.len());
        assert("name"@.len() != "trust"@.len());
        assert("artifact_sha256"@[0] != "snapshot_sha256"@[0]);
        assert("artifact_sha256"@.len() != "manifest"@.len());
        assert("artifact_sha256"@.len() != "demands"@.len());
        assert("artifact_sha256"@.len() != "signer"@.len());
        assert("artifact_sha256"@.len() != "trust"@.len());
        assert("snapshot_sha256"@.len() != "manifest"@.len());
        assert("snapshot_sha256"@.len() != "demands"@.len());
        assert("snapshot_sha256"@.len() != "signer"@.len());
        assert("snapshot_sha256"@.len() != "trust"@.len());
        assert("manifest"@.len() != "demands"@.len());
        assert("manifest"@.len() != "signer"@.len());
        assert("manifest"@.len() != "trust"@.len());
        assert("demands"@.len() != "signer"@.len());
        assert("demands"@.len() != "trust"@.len());
        assert("signer"@.len() != "trust"@.len());
        if signer is Some {
            assert(all[0].0 == "kind"@);
            json::a_first_member_is_found(all, 0);
            assert(all[1].0 == "uid"@);
            json::a_first_member_is_found(all, 1);
            assert(all[2].0 == "namespace"@);
            json::a_first_member_is_found(all, 2);
            assert(all[3].0 == "name"@);
            json::a_first_member_is_found(all, 3);
            assert(all[4].0 == "artifact_sha256"@);
            json::a_first_member_is_found(all, 4);
            assert(all[5].0 == "snapshot_sha256"@);
            json::a_first_member_is_found(all, 5);
            assert(all[6].0 == "manifest"@);
            json::a_first_member_is_found(all, 6);
            assert(all[7].0 == "demands"@);
            json::a_first_member_is_found(all, 7);
            assert(all[8].0 == "signer"@);
            json::a_first_member_is_found(all, 8);
            assert(all[9].0 == "trust"@);
            json::a_first_member_is_found(all, 9);
            assert(all.len() == 10);
        }
        if signer is None {
            assert(all[0].0 == "kind"@);
            json::a_first_member_is_found(all, 0);
            assert(all[1].0 == "uid"@);
            json::a_first_member_is_found(all, 1);
            assert(all[2].0 == "namespace"@);
            json::a_first_member_is_found(all, 2);
            assert(all[3].0 == "name"@);
            json::a_first_member_is_found(all, 3);
            assert(all[4].0 == "artifact_sha256"@);
            json::a_first_member_is_found(all, 4);
            assert(all[5].0 == "snapshot_sha256"@);
            json::a_first_member_is_found(all, 5);
            assert(all[6].0 == "manifest"@);
            json::a_first_member_is_found(all, 6);
            assert(all[7].0 == "demands"@);
            json::a_first_member_is_found(all, 7);
            assert(all[8].0 == "trust"@);
            json::a_first_member_is_found(all, 8);
            assert(all.len() == 9);
            json::a_member_is_found_by_name(all, "signer"@);
        }
    }
}

/// A charge is recorded with each part under its own name.
#[verifier::rlimit(50)]
pub proof fn a_charge_is_recorded_under_its_names(v: AdmissionEventModel)
    ensures
        v matches AdmissionEventModel::SpendCharged {
            uid,
            artifact_sha256,
            currency,
            cpu_millicores,
            memory_bytes,
            pod_monthly_minor,
            namespace_monthly_minor,
            budget_minor,
        } ==> {
            let t = AdmissionEvent::tree(v);
            &&& t.member("kind"@) == Some(Tree::Text("spend_charged"@))
            &&& t.member("uid"@) == Some(Tree::Text(uid))
            &&& t.member("artifact_sha256"@) == Some(Tree::Text(artifact_sha256))
            &&& t.member("currency"@) == Some(Tree::Text(currency))
            &&& t.member("cpu_millicores"@) == Some(<u64 as Writable>::tree(cpu_millicores))
            &&& t.member("memory_bytes"@) == Some(<u64 as Writable>::tree(memory_bytes))
            &&& t.member("pod_monthly_minor"@) == Some(<u64 as Writable>::tree(pod_monthly_minor))
            &&& t.member("namespace_monthly_minor"@) == Some(<u64 as Writable>::tree(namespace_monthly_minor))
            &&& t.member("budget_minor"@) == Some(<u64 as Writable>::tree(budget_minor))
        },
{
    if v is SpendCharged {
        let all = AdmissionEvent::tree(v)->Object_0;
        reveal_strlit("kind");
        reveal_strlit("uid");
        reveal_strlit("artifact_sha256");
        reveal_strlit("currency");
        reveal_strlit("cpu_millicores");
        reveal_strlit("memory_bytes");
        reveal_strlit("pod_monthly_minor");
        reveal_strlit("namespace_monthly_minor");
        reveal_strlit("budget_minor");
        assert("kind"@.len() != "uid"@.len());
        assert("kind"@.len() != "artifact_sha256"@.len());
        assert("kind"@.len() != "currency"@.len());
        assert("kind"@.len() != "cpu_millicores"@.len());
        assert("kind"@.len() != "memory_bytes"@.len());
        assert("kind"@.len() != "pod_monthly_minor"@.len());
        assert("kind"@.len() != "namespace_monthly_minor"@.len());
        assert("kind"@.len() != "budget_minor"@.len());
        assert("uid"@.len() != "artifact_sha256"@.len());
        assert("uid"@.len() != "currency"@.len());
        assert("uid"@.len() != "cpu_millicores"@.len());
        assert("uid"@.len() != "memory_bytes"@.len());
        assert("uid"@.len() != "pod_monthly_minor"@.len());
        assert("uid"@.len() != "namespace_monthly_minor"@.len());
        assert("uid"@.len() != "budget_minor"@.len());
        assert("artifact_sha256"@.len() != "currency"@.len());
        assert("artifact_sha256"@.len() != "cpu_millicores"@.len());
        assert("artifact_sha256"@.len() != "memory_bytes"@.len());
        assert("artifact_sha256"@.len() != "pod_monthly_minor"@.len());
        assert("artifact_sha256"@.len() != "namespace_monthly_minor"@.len());
        assert("artifact_sha256"@.len() != "budget_minor"@.len());
        assert("currency"@.len() != "cpu_millicores"@.len());
        assert("currency"@.len() != "memory_bytes"@.len());
        assert("currency"@.len() != "pod_monthly_minor"@.len());
        assert("currency"@.len() != "namespace_monthly_minor"@.len());
        assert("currency"@.len() != "budget_minor"@.len());
        assert("cpu_millicores"@.len() != "memory_bytes"@.len());
        assert("cpu_millicores"@.len() != "pod_monthly_minor"@.len());
        assert("cpu_millicores"@.len() != "namespace_monthly_minor"@.len());
        assert("cpu_millicores"@.len() != "budget_minor"@.len());
        assert("memory_bytes"@.len() != "pod_monthly_minor"@.len());
        assert("memory_bytes"@.len() != "namespace_monthly_minor"@.len());
        assert("memory_bytes"@[0] != "budget_minor"@[0]);
        assert("pod_monthly_minor"@.len() != "namespace_monthly_minor"@.len());
        assert("pod_monthly_minor"@.len() != "budget_minor"@.len());
        assert("namespace_monthly_minor"@.len() != "budget_minor"@.len());
            assert(all[0].0 == "kind"@);
            json::a_first_member_is_found(all, 0);
            assert(all[1].0 == "uid"@);
            json::a_first_member_is_found(all, 1);
            assert(all[2].0 == "artifact_sha256"@);
            json::a_first_member_is_found(all, 2);
            assert(all[3].0 == "currency"@);
            json::a_first_member_is_found(all, 3);
            assert(all[4].0 == "cpu_millicores"@);
            json::a_first_member_is_found(all, 4);
            assert(all[5].0 == "memory_bytes"@);
            json::a_first_member_is_found(all, 5);
            assert(all[6].0 == "pod_monthly_minor"@);
            json::a_first_member_is_found(all, 6);
            assert(all[7].0 == "namespace_monthly_minor"@);
            json::a_first_member_is_found(all, 7);
            assert(all[8].0 == "budget_minor"@);
            json::a_first_member_is_found(all, 8);
            assert(all.len() == 9);
    }
}

/// An admission is recorded with each part under its own name.
#[verifier::rlimit(50)]
pub proof fn an_admission_is_recorded_under_its_names(v: AdmissionEventModel)
    ensures
        v matches AdmissionEventModel::PodAdmitted {
            uid,
            artifact_sha256,
            manifest,
            signer,
            subject,
        } ==> {
            let t = AdmissionEvent::tree(v);
            &&& t.member("kind"@) == Some(Tree::Text("pod_admitted"@))
            &&& t.member("uid"@) == Some(Tree::Text(uid))
            &&& t.member("artifact_sha256"@) == Some(Tree::Text(artifact_sha256))
            &&& t.member("manifest"@) == Some(Tree::Text(manifest))
            &&& t.member("signer"@) == (match signer {
                Some(x) => Some(Tree::Text(x)),
                None => None,
            })
            &&& t.member("subject"@) == Some(Tree::Text(subject))
        },
{
    if let AdmissionEventModel::PodAdmitted {
        signer,
        .. } = v {
        let all = AdmissionEvent::tree(v)->Object_0;
        reveal_strlit("kind");
        reveal_strlit("uid");
        reveal_strlit("artifact_sha256");
        reveal_strlit("manifest");
        reveal_strlit("signer");
        reveal_strlit("subject");
        assert("kind"@.len() != "uid"@.len());
        assert("kind"@.len() != "artifact_sha256"@.len());
        assert("kind"@.len() != "manifest"@.len());
        assert("kind"@.len() != "signer"@.len());
        assert("kind"@.len() != "subject"@.len());
        assert("uid"@.len() != "artifact_sha256"@.len());
        assert("uid"@.len() != "manifest"@.len());
        assert("uid"@.len() != "signer"@.len());
        assert("uid"@.len() != "subject"@.len());
        assert("artifact_sha256"@.len() != "manifest"@.len());
        assert("artifact_sha256"@.len() != "signer"@.len());
        assert("artifact_sha256"@.len() != "subject"@.len());
        assert("manifest"@.len() != "signer"@.len());
        assert("manifest"@.len() != "subject"@.len());
        assert("signer"@.len() != "subject"@.len());
        if signer is Some {
            assert(all[0].0 == "kind"@);
            json::a_first_member_is_found(all, 0);
            assert(all[1].0 == "uid"@);
            json::a_first_member_is_found(all, 1);
            assert(all[2].0 == "artifact_sha256"@);
            json::a_first_member_is_found(all, 2);
            assert(all[3].0 == "manifest"@);
            json::a_first_member_is_found(all, 3);
            assert(all[4].0 == "signer"@);
            json::a_first_member_is_found(all, 4);
            assert(all[5].0 == "subject"@);
            json::a_first_member_is_found(all, 5);
            assert(all.len() == 6);
        }
        if signer is None {
            assert(all[0].0 == "kind"@);
            json::a_first_member_is_found(all, 0);
            assert(all[1].0 == "uid"@);
            json::a_first_member_is_found(all, 1);
            assert(all[2].0 == "artifact_sha256"@);
            json::a_first_member_is_found(all, 2);
            assert(all[3].0 == "manifest"@);
            json::a_first_member_is_found(all, 3);
            assert(all[4].0 == "subject"@);
            json::a_first_member_is_found(all, 4);
            assert(all.len() == 5);
            json::a_member_is_found_by_name(all, "signer"@);
        }
    }
}

/// A refusal is recorded with each part under its own name.
#[verifier::rlimit(50)]
pub proof fn a_refusal_is_recorded_under_its_names(v: AdmissionEventModel)
    ensures
        v matches AdmissionEventModel::PodRefused {
            uid,
            artifact_sha256,
            manifest,
            signer,
            subject,
            wall,
            effect,
            source,
            reason,
        } ==> {
            let t = AdmissionEvent::tree(v);
            &&& t.member("kind"@) == Some(Tree::Text("pod_refused"@))
            &&& t.member("uid"@) == Some(Tree::Text(uid))
            &&& t.member("artifact_sha256"@) == Some(Tree::Text(artifact_sha256))
            &&& t.member("manifest"@) == Some(Tree::Text(manifest))
            &&& t.member("signer"@) == (match signer {
                Some(x) => Some(Tree::Text(x)),
                None => None,
            })
            &&& t.member("subject"@) == Some(Tree::Text(subject))
            &&& t.member("wall"@) == Some(Tree::Text(wall))
            &&& t.member("effect"@) == Some(Tree::Text(effect))
            &&& t.member("source"@) == Some(Tree::Text(source))
            &&& t.member("reason"@) == Some(Tree::Text(reason))
        },
{
    if let AdmissionEventModel::PodRefused {
        signer,
        .. } = v {
        let all = AdmissionEvent::tree(v)->Object_0;
        reveal_strlit("kind");
        reveal_strlit("uid");
        reveal_strlit("artifact_sha256");
        reveal_strlit("manifest");
        reveal_strlit("signer");
        reveal_strlit("subject");
        reveal_strlit("wall");
        reveal_strlit("effect");
        reveal_strlit("source");
        reveal_strlit("reason");
        assert("kind"@.len() != "uid"@.len());
        assert("kind"@.len() != "artifact_sha256"@.len());
        assert("kind"@.len() != "manifest"@.len());
        assert("kind"@.len() != "signer"@.len());
        assert("kind"@.len() != "subject"@.len());
        assert("kind"@[0] != "wall"@[0]);
        assert("kind"@.len() != "effect"@.len());
        assert("kind"@.len() != "source"@.len());
        assert("kind"@.len() != "reason"@.len());
        assert("uid"@.len() != "artifact_sha256"@.len());
        assert("uid"@.len() != "manifest"@.len());
        assert("uid"@.len() != "signer"@.len());
        assert("uid"@.len() != "subject"@.len());
        assert("uid"@.len() != "wall"@.len());
        assert("uid"@.len() != "effect"@.len());
        assert("uid"@.len() != "source"@.len());
        assert("uid"@.len() != "reason"@.len());
        assert("artifact_sha256"@.len() != "manifest"@.len());
        assert("artifact_sha256"@.len() != "signer"@.len());
        assert("artifact_sha256"@.len() != "subject"@.len());
        assert("artifact_sha256"@.len() != "wall"@.len());
        assert("artifact_sha256"@.len() != "effect"@.len());
        assert("artifact_sha256"@.len() != "source"@.len());
        assert("artifact_sha256"@.len() != "reason"@.len());
        assert("manifest"@.len() != "signer"@.len());
        assert("manifest"@.len() != "subject"@.len());
        assert("manifest"@.len() != "wall"@.len());
        assert("manifest"@.len() != "effect"@.len());
        assert("manifest"@.len() != "source"@.len());
        assert("manifest"@.len() != "reason"@.len());
        assert("signer"@.len() != "subject"@.len());
        assert("signer"@.len() != "wall"@.len());
        assert("signer"@[0] != "effect"@[0]);
        assert("signer"@[1] != "source"@[1]);
        assert("signer"@[0] != "reason"@[0]);
        assert("subject"@.len() != "wall"@.len());
        assert("subject"@.len() != "effect"@.len());
        assert("subject"@.len() != "source"@.len());
        assert("subject"@.len() != "reason"@.len());
        assert("wall"@.len() != "effect"@.len());
        assert("wall"@.len() != "source"@.len());
        assert("wall"@.len() != "reason"@.len());
        assert("effect"@[0] != "source"@[0]);
        assert("effect"@[0] != "reason"@[0]);
        assert("source"@[0] != "reason"@[0]);
        if signer is Some {
            assert(all[0].0 == "kind"@);
            json::a_first_member_is_found(all, 0);
            assert(all[1].0 == "uid"@);
            json::a_first_member_is_found(all, 1);
            assert(all[2].0 == "artifact_sha256"@);
            json::a_first_member_is_found(all, 2);
            assert(all[3].0 == "manifest"@);
            json::a_first_member_is_found(all, 3);
            assert(all[4].0 == "signer"@);
            json::a_first_member_is_found(all, 4);
            assert(all[5].0 == "subject"@);
            json::a_first_member_is_found(all, 5);
            assert(all[6].0 == "wall"@);
            json::a_first_member_is_found(all, 6);
            assert(all[7].0 == "effect"@);
            json::a_first_member_is_found(all, 7);
            assert(all[8].0 == "source"@);
            json::a_first_member_is_found(all, 8);
            assert(all[9].0 == "reason"@);
            json::a_first_member_is_found(all, 9);
            assert(all.len() == 10);
        }
        if signer is None {
            assert(all[0].0 == "kind"@);
            json::a_first_member_is_found(all, 0);
            assert(all[1].0 == "uid"@);
            json::a_first_member_is_found(all, 1);
            assert(all[2].0 == "artifact_sha256"@);
            json::a_first_member_is_found(all, 2);
            assert(all[3].0 == "manifest"@);
            json::a_first_member_is_found(all, 3);
            assert(all[4].0 == "subject"@);
            json::a_first_member_is_found(all, 4);
            assert(all[5].0 == "wall"@);
            json::a_first_member_is_found(all, 5);
            assert(all[6].0 == "effect"@);
            json::a_first_member_is_found(all, 6);
            assert(all[7].0 == "source"@);
            json::a_first_member_is_found(all, 7);
            assert(all[8].0 == "reason"@);
            json::a_first_member_is_found(all, 8);
            assert(all.len() == 9);
            json::a_member_is_found_by_name(all, "signer"@);
        }
    }
}

/// The walls have different names, and so do the ways that a submitter can stand.
pub proof fn no_two_walls_have_one_name(a: Wall, b: Wall, s: Standing, t: Standing)
    ensures
        a.word() == b.word() ==> a == b,
        s.word() == t.word() ==> s == t,
{
    reveal_strlit("type-check");
    reveal_strlit("narrowing");
    reveal_strlit("trust");
    reveal_strlit("budget");
    assert("type-check"@.len() != "narrowing"@.len());
    assert("type-check"@.len() != "trust"@.len());
    assert("type-check"@.len() != "budget"@.len());
    assert("narrowing"@.len() != "trust"@.len());
    assert("narrowing"@.len() != "budget"@.len());
    assert("trust"@.len() != "budget"@.len());
    reveal_strlit("not-consulted");
    reveal_strlit("trusted");
    reveal_strlit("unknown");
    assert("not-consulted"@.len() != "trusted"@.len());
    assert("not-consulted"@.len() != "unknown"@.len());
    assert("trusted"@[0] != "unknown"@[0]);
}

/// What every wall is told of a container that declares no request, and of a pod that is too dear: the
/// wall of the budget refuses, one reason for each such container and one for the pod.
pub proof fn the_budget_gives_a_reason_for_each(
    pod: PodEffectsModel,
    currency: Seq<char>,
    budget: u64,
    s: SpendModel,
    namespace: Seq<char>,
    i: int,
)
    requires
        s.report.namespace_monthly_minor + s.prices.priced(pod.reservation.reservation) <= u64::MAX,
    ensures
        ({
            let all = budget_refusals(pod, currency, budget, Some(s), namespace);
            let n = pod.reservation.undeclared.len();
            let over = s.report.namespace_monthly_minor + s.prices.priced(
                pod.reservation.reservation,
            ) > budget;
            &&& all.len() == n + if over {
                1nat
            } else {
                0nat
            }
            &&& 0 <= i < all.len() ==> all[i].wall == Wall::Budget
            &&& 0 <= i < n ==> all[i].effect == "unpriced"@
            &&& over ==> all[n as int].effect == "spend"@
        }),
        budget_refusals(pod, currency, budget, None, namespace).len() == 0,
{
}

/// A waiver that is missing is refused by the wall of trust, once for each check that was waived, and
/// only for a submitter without standing.
pub proof fn a_missing_waiver_is_refused_by_trust(
    standing: Standing,
    unchecked: Seq<Seq<char>>,
    signer: Option<Seq<char>>,
    i: int,
)
    ensures
        standing is Unknown ==> trust_refusals(standing, unchecked, signer).len() == unchecked.len(),
        !(standing is Unknown) ==> trust_refusals(standing, unchecked, signer).len() == 0,
        standing is Unknown && 0 <= i < unchecked.len() ==> trust_refusals(
            standing,
            unchecked,
            signer,
        )[i].wall == Wall::Trust,
{
}

} // verus!
