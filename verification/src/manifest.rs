//! The `LexManifest` resource, and the manifest that it resolves to.
//!
//! ```yaml
//! apiVersion: lex.dev/v1alpha1
//! kind: LexManifest
//! metadata: { name: payments, namespace: payments }
//! spec:
//!   goal: "serve the payments API"
//!   grant:
//!     egress: ["postgres.payments.svc", "api.stripe.com:443"]
//!     secrets: ["stripe-live-key"]
//!     capabilities: ["NET_BIND_SERVICE"]
//!   exec: Sandboxed
//!   parent: cluster/platform-default
//! ```
//!
//! The resource is a serialisation; [`LexManifest::resolve`] turns it into the [`Manifest`] that the
//! wall judges by. A manifest that names a parent is checked against it: a team lead hands out
//! authority they hold, never authority they do not.
use vstd::prelude::*;

use crate::effect::EffectModel;
use crate::facet;
use crate::facet::{FacetError, FacetErrorModel, PodFacet, PodFacetModel};
use crate::grant::{Grant, Level, Widening};
use crate::json;
use crate::json::{
    check, check_members, read_field, read_required, say_unknown, Json, Members, Readable, Tree,
};
use crate::model;
use crate::text;
use crate::text::{copied, has_prefix, listed, owned, same, show, to_upper};

verus! {

/// What a manifest may spend. Every field must be there in a budget that is declared.
#[derive(Debug, Clone, Copy, PartialEq, Eq, Structural)]
pub struct Budget {
    pub wall_clock_secs: u64,
    pub max_commands: u64,
    /// The ceiling on money, in minor units.
    pub max_money_cents: u64,
    pub max_api_calls: u64,
}


impl DeepView for Budget {
    type V = Budget;

    open spec fn deep_view(&self) -> Budget {
        *self
    }
}

/// The fields of a budget, of which none may be left out and none added.
pub open spec fn budget_fields() -> Seq<Seq<char>> {
    seq!["wall_clock_secs"@, "max_commands"@, "max_money_cents"@, "max_api_calls"@]
}

fn known_budget_fields() -> (r: Vec<String>)
    ensures
        r.deep_view() == budget_fields(),
{
    let mut v: Vec<String> = Vec::new();
    v.push(owned("wall_clock_secs"));
    v.push(owned("max_commands"));
    v.push(owned("max_money_cents"));
    v.push(owned("max_api_calls"));
    assert(v.deep_view() =~= budget_fields());
    v
}

impl Members for Budget {
    open spec fn member_fault(name: Seq<char>, v: Tree) -> Option<Seq<char>> {
        if name == "wall_clock_secs"@ {
            u64::fault(v)
        } else if name == "max_commands"@ {
            u64::fault(v)
        } else if name == "max_money_cents"@ {
            u64::fault(v)
        } else if name == "max_api_calls"@ {
            u64::fault(v)
        } else {
            Some(json::unknown_field(name, budget_fields()))
        }
    }

    fn check_member(name: &str, v: &Json) -> (r: Result<(), String>) {
        if same(name, "wall_clock_secs") {
            check::<u64>(v)
        } else if same(name, "max_commands") {
            check::<u64>(v)
        } else if same(name, "max_money_cents") {
            check::<u64>(v)
        } else if same(name, "max_api_calls") {
            check::<u64>(v)
        } else {
            Err(say_unknown(name, &known_budget_fields()))
        }
    }
}

impl Readable for Budget {
    open spec fn fault(t: Tree) -> Option<Seq<char>> {
        let f = t.record_fault("struct Budget"@);
        let f = json::first_fault(f, json::members_fault::<Budget>(t));
        let f = json::first_fault(
            f,
            json::required_fault::<u64>(t, "wall_clock_secs"@, 0, "struct Budget with 4 elements"@),
        );
        let f = json::first_fault(
            f,
            json::required_fault::<u64>(t, "max_commands"@, 1, "struct Budget with 4 elements"@),
        );
        let f = json::first_fault(
            f,
            json::required_fault::<u64>(t, "max_money_cents"@, 2, "struct Budget with 4 elements"@),
        );
        let f = json::first_fault(
            f,
            json::required_fault::<u64>(t, "max_api_calls"@, 3, "struct Budget with 4 elements"@),
        );
        json::first_fault(f, t.surplus_fault(4))
    }

    open spec fn value(t: Tree) -> Budget {
        Budget {
            wall_clock_secs: json::field_value::<u64>(t, "wall_clock_secs"@, 0),
            max_commands: json::field_value::<u64>(t, "max_commands"@, 1),
            max_money_cents: json::field_value::<u64>(t, "max_money_cents"@, 2),
            max_api_calls: json::field_value::<u64>(t, "max_api_calls"@, 3),
        }
    }

    open spec fn nothing() -> Budget {
        Budget {
            wall_clock_secs: 0,
            max_commands: 0,
            max_money_cents: 0,
            max_api_calls: 0,
        }
    }

    fn read(j: &Json) -> (r: Result<Self, String>) {
        if let Err(e) = j.check_record("struct Budget") {
            return Err(e);
        }
        if let Err(e) = check_members::<Budget>(j) {
            return Err(e);
        }
        let wall_clock_secs: u64 = match read_required(
            j,
            "wall_clock_secs",
            0,
            "struct Budget with 4 elements",
        ) {
            Ok(x) => x,
            Err(e) => return Err(e),
        };
        let max_commands: u64 = match read_required(
            j,
            "max_commands",
            1,
            "struct Budget with 4 elements",
        ) {
            Ok(x) => x,
            Err(e) => return Err(e),
        };
        let max_money_cents: u64 = match read_required(
            j,
            "max_money_cents",
            2,
            "struct Budget with 4 elements",
        ) {
            Ok(x) => x,
            Err(e) => return Err(e),
        };
        let max_api_calls: u64 = match read_required(
            j,
            "max_api_calls",
            3,
            "struct Budget with 4 elements",
        ) {
            Ok(x) => x,
            Err(e) => return Err(e),
        };
        if let Err(e) = j.check_surplus(4) {
            return Err(e);
        }
        Ok(Budget { wall_clock_secs, max_commands, max_money_cents, max_api_calls })
    }

    fn absent() -> (r: Self) {
        Budget { wall_clock_secs: 0, max_commands: 0, max_money_cents: 0, max_api_calls: 0 }
    }
}

/// The resource, as it appears on the API server.
#[derive(Debug, Clone, PartialEq, Eq)]
pub struct LexManifest {
    pub api_version: String,
    pub kind: String,
    pub metadata: Metadata,
    pub spec: Spec,
}

/// What a [`LexManifest`] says.
#[verifier::ext_equal]
pub struct LexManifestModel {
    pub api_version: Seq<char>,
    pub kind: Seq<char>,
    pub metadata: MetadataModel,
    pub spec: SpecModel,
}

impl DeepView for LexManifest {
    type V = LexManifestModel;

    open spec fn deep_view(&self) -> LexManifestModel {
        LexManifestModel {
            api_version: self.api_version.deep_view(),
            kind: self.kind.deep_view(),
            metadata: self.metadata.deep_view(),
            spec: self.spec.deep_view(),
        }
    }
}

impl Default for LexManifest {
    fn default() -> (r: LexManifest)
        ensures
            r.deep_view() == LexManifest::nothing(),
    {
        let r = LexManifest {
            api_version: String::new(),
            kind: String::new(),
            metadata: Metadata::default(),
            spec: Spec::default(),
        };
        r
    }
}

impl Members for LexManifest {
    open spec fn member_fault(name: Seq<char>, v: Tree) -> Option<Seq<char>> {
        if name == "apiVersion"@ {
            String::fault(v)
        } else if name == "kind"@ {
            String::fault(v)
        } else if name == "metadata"@ {
            Metadata::fault(v)
        } else if name == "spec"@ {
            Spec::fault(v)
        } else {
            None
        }
    }

    fn check_member(name: &str, v: &Json) -> (r: Result<(), String>) {
        if same(name, "apiVersion") {
            check::<String>(v)
        } else if same(name, "kind") {
            check::<String>(v)
        } else if same(name, "metadata") {
            check::<Metadata>(v)
        } else if same(name, "spec") {
            check::<Spec>(v)
        } else {
            Ok(())
        }
    }
}

impl Readable for LexManifest {
    open spec fn fault(t: Tree) -> Option<Seq<char>> {
        let f = t.record_fault("struct LexManifest"@);
        let f = json::first_fault(f, json::members_fault::<LexManifest>(t));
        let f = json::first_fault(f, json::field_fault::<String>(t, "apiVersion"@, 0));
        let f = json::first_fault(f, json::field_fault::<String>(t, "kind"@, 1));
        let f = json::first_fault(f, json::field_fault::<Metadata>(t, "metadata"@, 2));
        let f = json::first_fault(
            f,
            json::required_fault::<Spec>(t, "spec"@, 3, "struct LexManifest with 4 elements"@),
        );
        json::first_fault(f, t.surplus_fault(4))
    }

    open spec fn value(t: Tree) -> LexManifestModel {
        LexManifestModel {
            api_version: json::field_value::<String>(t, "apiVersion"@, 0),
            kind: json::field_value::<String>(t, "kind"@, 1),
            metadata: json::field_value::<Metadata>(t, "metadata"@, 2),
            spec: json::field_value::<Spec>(t, "spec"@, 3),
        }
    }

    open spec fn nothing() -> LexManifestModel {
        LexManifestModel {
            api_version: Seq::empty(),
            kind: Seq::empty(),
            metadata: Metadata::nothing(),
            spec: Spec::nothing(),
        }
    }

    fn read(j: &Json) -> (r: Result<Self, String>) {
        if let Err(e) = j.check_record("struct LexManifest") {
            return Err(e);
        }
        if let Err(e) = check_members::<LexManifest>(j) {
            return Err(e);
        }
        let api_version: String = match read_field(j, "apiVersion", 0) {
            Ok(x) => x,
            Err(e) => return Err(e),
        };
        let kind: String = match read_field(j, "kind", 1) {
            Ok(x) => x,
            Err(e) => return Err(e),
        };
        let metadata: Metadata = match read_field(j, "metadata", 2) {
            Ok(x) => x,
            Err(e) => return Err(e),
        };
        let spec: Spec = match read_required(
            j,
            "spec",
            3,
            "struct LexManifest with 4 elements",
        ) {
            Ok(x) => x,
            Err(e) => return Err(e),
        };
        if let Err(e) = j.check_surplus(4) {
            return Err(e);
        }
        Ok(LexManifest { api_version, kind, metadata, spec })
    }

    fn absent() -> (r: Self) {
        LexManifest::default()
    }
}

/// The name of a resource.
#[derive(Debug, Clone, PartialEq, Eq)]
pub struct Metadata {
    pub name: String,
    pub namespace: String,
}

/// What a [`Metadata`] says.
#[verifier::ext_equal]
pub struct MetadataModel {
    pub name: Seq<char>,
    pub namespace: Seq<char>,
}

impl DeepView for Metadata {
    type V = MetadataModel;

    open spec fn deep_view(&self) -> MetadataModel {
        MetadataModel {
            name: self.name.deep_view(),
            namespace: self.namespace.deep_view(),
        }
    }
}

impl Default for Metadata {
    fn default() -> (r: Metadata)
        ensures
            r.deep_view() == Metadata::nothing(),
    {
        let r = Metadata {
            name: String::new(),
            namespace: String::new(),
        };
        r
    }
}

impl Members for Metadata {
    open spec fn member_fault(name: Seq<char>, v: Tree) -> Option<Seq<char>> {
        if name == "name"@ {
            String::fault(v)
        } else if name == "namespace"@ {
            String::fault(v)
        } else {
            None
        }
    }

    fn check_member(name: &str, v: &Json) -> (r: Result<(), String>) {
        if same(name, "name") {
            check::<String>(v)
        } else if same(name, "namespace") {
            check::<String>(v)
        } else {
            Ok(())
        }
    }
}

impl Readable for Metadata {
    open spec fn fault(t: Tree) -> Option<Seq<char>> {
        let f = t.record_fault("struct Metadata"@);
        let f = json::first_fault(f, json::members_fault::<Metadata>(t));
        let f = json::first_fault(f, json::field_fault::<String>(t, "name"@, 0));
        let f = json::first_fault(f, json::field_fault::<String>(t, "namespace"@, 1));
        json::first_fault(f, t.surplus_fault(2))
    }

    open spec fn value(t: Tree) -> MetadataModel {
        MetadataModel {
            name: json::field_value::<String>(t, "name"@, 0),
            namespace: json::field_value::<String>(t, "namespace"@, 1),
        }
    }

    open spec fn nothing() -> MetadataModel {
        MetadataModel {
            name: Seq::empty(),
            namespace: Seq::empty(),
        }
    }

    fn read(j: &Json) -> (r: Result<Self, String>) {
        if let Err(e) = j.check_record("struct Metadata") {
            return Err(e);
        }
        if let Err(e) = check_members::<Metadata>(j) {
            return Err(e);
        }
        let name: String = match read_field(j, "name", 0) {
            Ok(x) => x,
            Err(e) => return Err(e),
        };
        let namespace: String = match read_field(j, "namespace", 1) {
            Ok(x) => x,
            Err(e) => return Err(e),
        };
        if let Err(e) = j.check_surplus(2) {
            return Err(e);
        }
        Ok(Metadata { name, namespace })
    }

    fn absent() -> (r: Self) {
        Metadata::default()
    }
}

/// What a manifest declares.
#[derive(Debug, Clone, PartialEq, Eq)]
pub struct Spec {
    pub goal: String,
    pub grant: PodFacet,
    /// The level on the exec axis that pods have before any capability or privilege raises it.
    pub execution: Option<String>,
    pub budget: Option<Budget>,
    /// Declared, and not enforced here: see [`Spec::isolation_floor_is_unenforced`].
    pub isolation_floor: Option<String>,
    /// `<namespace>/<name>`, or `cluster/<name>`: the manifest that this one must narrow.
    pub parent: Option<String>,
}

/// What a [`Spec`] says.
#[verifier::ext_equal]
pub struct SpecModel {
    pub goal: Seq<char>,
    pub grant: PodFacetModel,
    pub execution: Option<Seq<char>>,
    pub budget: Option<Budget>,
    pub isolation_floor: Option<Seq<char>>,
    pub parent: Option<Seq<char>>,
}

impl DeepView for Spec {
    type V = SpecModel;

    open spec fn deep_view(&self) -> SpecModel {
        SpecModel {
            goal: self.goal.deep_view(),
            grant: self.grant.deep_view(),
            execution: self.execution.deep_view(),
            budget: self.budget.deep_view(),
            isolation_floor: self.isolation_floor.deep_view(),
            parent: self.parent.deep_view(),
        }
    }
}

impl Default for Spec {
    fn default() -> (r: Spec)
        ensures
            r.deep_view() == Spec::nothing(),
    {
        let r = Spec {
            goal: String::new(),
            grant: PodFacet::default(),
            execution: None,
            budget: None,
            isolation_floor: None,
            parent: None,
        };
        r
    }
}

/// The fields of a spec. Any other is refused rather than ignored, because a mis-spelled
/// declaration must not disappear in silence.
pub open spec fn spec_fields() -> Seq<Seq<char>> {
    seq!["goal"@, "grant"@, "exec"@, "budget"@, "isolationFloor"@, "parent"@]
}

fn known_spec_fields() -> (r: Vec<String>)
    ensures
        r.deep_view() == spec_fields(),
{
    let mut v: Vec<String> = Vec::new();
    v.push(owned("goal"));
    v.push(owned("grant"));
    v.push(owned("exec"));
    v.push(owned("budget"));
    v.push(owned("isolationFloor"));
    v.push(owned("parent"));
    assert(v.deep_view() =~= spec_fields());
    v
}

impl Members for Spec {
    open spec fn member_fault(name: Seq<char>, v: Tree) -> Option<Seq<char>> {
        if name == "goal"@ {
            String::fault(v)
        } else if name == "grant"@ {
            PodFacet::fault(v)
        } else if name == "exec"@ {
            <Option<String> as Readable>::fault(v)
        } else if name == "budget"@ {
            <Option<Budget> as Readable>::fault(v)
        } else if name == "isolationFloor"@ {
            <Option<String> as Readable>::fault(v)
        } else if name == "parent"@ {
            <Option<String> as Readable>::fault(v)
        } else {
            Some(json::unknown_field(name, spec_fields()))
        }
    }

    fn check_member(name: &str, v: &Json) -> (r: Result<(), String>) {
        if same(name, "goal") {
            check::<String>(v)
        } else if same(name, "grant") {
            check::<PodFacet>(v)
        } else if same(name, "exec") {
            check::<Option<String>>(v)
        } else if same(name, "budget") {
            check::<Option<Budget>>(v)
        } else if same(name, "isolationFloor") {
            check::<Option<String>>(v)
        } else if same(name, "parent") {
            check::<Option<String>>(v)
        } else {
            Err(say_unknown(name, &known_spec_fields()))
        }
    }
}

impl Readable for Spec {
    open spec fn fault(t: Tree) -> Option<Seq<char>> {
        let f = t.record_fault("struct Spec"@);
        let f = json::first_fault(f, json::members_fault::<Spec>(t));
        let f = json::first_fault(f, json::field_fault::<String>(t, "goal"@, 0));
        let f = json::first_fault(f, json::field_fault::<PodFacet>(t, "grant"@, 1));
        let f = json::first_fault(f, json::field_fault::<Option<String>>(t, "exec"@, 2));
        let f = json::first_fault(f, json::field_fault::<Option<Budget>>(t, "budget"@, 3));
        let f = json::first_fault(f, json::field_fault::<Option<String>>(t, "isolationFloor"@, 4));
        let f = json::first_fault(f, json::field_fault::<Option<String>>(t, "parent"@, 5));
        json::first_fault(f, t.surplus_fault(6))
    }

    open spec fn value(t: Tree) -> SpecModel {
        SpecModel {
            goal: json::field_value::<String>(t, "goal"@, 0),
            grant: json::field_value::<PodFacet>(t, "grant"@, 1),
            execution: json::field_value::<Option<String>>(t, "exec"@, 2),
            budget: json::field_value::<Option<Budget>>(t, "budget"@, 3),
            isolation_floor: json::field_value::<Option<String>>(t, "isolationFloor"@, 4),
            parent: json::field_value::<Option<String>>(t, "parent"@, 5),
        }
    }

    open spec fn nothing() -> SpecModel {
        SpecModel {
            goal: Seq::empty(),
            grant: PodFacet::nothing(),
            execution: None,
            budget: None,
            isolation_floor: None,
            parent: None,
        }
    }

    fn read(j: &Json) -> (r: Result<Self, String>) {
        if let Err(e) = j.check_record("struct Spec") {
            return Err(e);
        }
        if let Err(e) = check_members::<Spec>(j) {
            return Err(e);
        }
        let goal: String = match read_field(j, "goal", 0) {
            Ok(x) => x,
            Err(e) => return Err(e),
        };
        let grant: PodFacet = match read_field(j, "grant", 1) {
            Ok(x) => x,
            Err(e) => return Err(e),
        };
        let execution: Option<String> = match read_field(j, "exec", 2) {
            Ok(x) => x,
            Err(e) => return Err(e),
        };
        let budget: Option<Budget> = match read_field(j, "budget", 3) {
            Ok(x) => x,
            Err(e) => return Err(e),
        };
        let isolation_floor: Option<String> = match read_field(j, "isolationFloor", 4) {
            Ok(x) => x,
            Err(e) => return Err(e),
        };
        let parent: Option<String> = match read_field(j, "parent", 5) {
            Ok(x) => x,
            Err(e) => return Err(e),
        };
        if let Err(e) = j.check_surplus(6) {
            return Err(e);
        }
        Ok(Spec { goal, grant, execution, budget, isolation_floor, parent })
    }

    fn absent() -> (r: Self) {
        Spec::default()
    }
}

/// How a workload is to be isolated.
#[derive(Debug, Clone, Copy, PartialEq, Eq, Structural)]
pub enum IsolationFloor {
    Namespace,
    Gvisor,
    MicroVm,
}

impl DeepView for IsolationFloor {
    type V = IsolationFloor;

    open spec fn deep_view(&self) -> IsolationFloor {
        *self
    }
}

/// The slot of a manifest that a `pod` facet stands in.
#[derive(Debug, Clone, PartialEq, Eq)]
pub enum FacetSlot {
    /// No `pod` facet.
    Absent,
    /// A `pod` facet.
    Pod(PodFacet),
    /// A `pod` facet that could not be read, and why.
    Unreadable(String),
}

/// What a [`FacetSlot`] says.
#[verifier::ext_equal]
pub enum FacetSlotModel {
    Absent,
    Pod(PodFacetModel),
    Unreadable(Seq<char>),
}

impl DeepView for FacetSlot {
    type V = FacetSlotModel;

    open spec fn deep_view(&self) -> FacetSlotModel {
        match self {
            FacetSlot::Absent => FacetSlotModel::Absent,
            FacetSlot::Pod(x) => FacetSlotModel::Pod(x.deep_view()),
            FacetSlot::Unreadable(x) => FacetSlotModel::Unreadable(x.deep_view()),
        }
    }
}

/// The manifest that the wall judges by.
#[derive(Debug, Clone, PartialEq, Eq)]
pub struct Manifest {
    pub goal: String,
    /// The lattice ceiling.
    pub grant: Grant,
    pub budget: Budget,
    /// The hosts of the facet's egress list.
    pub egress: Vec<String>,
    /// `None` where the floor is the one that the grant implies.
    pub isolation_floor: Option<IsolationFloor>,
    pub facet: FacetSlot,
}

/// What a [`Manifest`] says.
#[verifier::ext_equal]
pub struct ManifestModel {
    pub goal: Seq<char>,
    pub grant: Grant,
    pub budget: Budget,
    pub egress: Seq<Seq<char>>,
    pub isolation_floor: Option<IsolationFloor>,
    pub facet: FacetSlotModel,
}

impl DeepView for Manifest {
    type V = ManifestModel;

    open spec fn deep_view(&self) -> ManifestModel {
        ManifestModel {
            goal: self.goal.deep_view(),
            grant: self.grant.deep_view(),
            budget: self.budget.deep_view(),
            egress: self.egress.deep_view(),
            isolation_floor: self.isolation_floor.deep_view(),
            facet: self.facet.deep_view(),
        }
    }
}

/// Why a `LexManifest` could not be read.
#[derive(Debug, Clone, PartialEq, Eq)]
pub enum ManifestReadError {
    /// Not JSON, or a field of the wrong shape.
    Json(String),
    /// JSON, but no manifest: there is no `spec`.
    NotAManifest,
    /// An isolation floor that nothing here can enforce.
    UnenforceableFloor { declared: String },
}

/// What a [`ManifestReadError`] says.
#[verifier::ext_equal]
pub enum ManifestReadErrorModel {
    Json(Seq<char>),
    NotAManifest,
    UnenforceableFloor { declared: Seq<char> },
}

impl DeepView for ManifestReadError {
    type V = ManifestReadErrorModel;

    open spec fn deep_view(&self) -> ManifestReadErrorModel {
        match self {
            ManifestReadError::Json(x) => ManifestReadErrorModel::Json(x.deep_view()),
            ManifestReadError::NotAManifest => ManifestReadErrorModel::NotAManifest,
            ManifestReadError::UnenforceableFloor {
                declared,
            } => ManifestReadErrorModel::UnenforceableFloor {
                declared: declared.deep_view(),
            },
        }
    }
}

/// Why a manifest is no narrowing of another.
#[derive(Debug, Clone, PartialEq, Eq)]
pub enum ManifestError {
    /// The lattice widens.
    Trust(Widening),
    /// A ceiling of the budget is raised.
    Budget { field: String, requested: u64, granted: u64 },
    /// A host that the parent does not list.
    Egress { entry: String },
    /// The `pod` facet widens.
    Facet(FacetError),
    /// A `pod` facet that could not be read.
    FacetUnreadable(String),
}

/// What a [`ManifestError`] says.
#[verifier::ext_equal]
pub enum ManifestErrorModel {
    Trust(Widening),
    Budget { field: Seq<char>, requested: u64, granted: u64 },
    Egress { entry: Seq<char> },
    Facet(FacetErrorModel),
    FacetUnreadable(Seq<char>),
}

impl DeepView for ManifestError {
    type V = ManifestErrorModel;

    open spec fn deep_view(&self) -> ManifestErrorModel {
        match self {
            ManifestError::Trust(x) => ManifestErrorModel::Trust(x.deep_view()),
            ManifestError::Budget { field, requested, granted } => ManifestErrorModel::Budget {
                field: field.deep_view(),
                requested: requested.deep_view(),
                granted: granted.deep_view(),
            },
            ManifestError::Egress { entry } => ManifestErrorModel::Egress {
                entry: entry.deep_view(),
            },
            ManifestError::Facet(x) => ManifestErrorModel::Facet(x.deep_view()),
            ManifestError::FacetUnreadable(x) => ManifestErrorModel::FacetUnreadable(x.deep_view()),
        }
    }
}

impl ManifestReadErrorModel {
    /// The complaint in words.
    pub open spec fn message(self) -> Seq<char> {
        match self {
            ManifestReadErrorModel::Json(e) => "LexManifest is not valid JSON: "@ + e,
            ManifestReadErrorModel::NotAManifest =>
                "not a LexManifest: no `spec` field. A manifest granting nothing says `spec: {grant: {}}`; a document that omits it is truncated or a different kind, and this wall will not admit what it cannot read"@,
            ManifestReadErrorModel::UnenforceableFloor { declared } => "isolationFloor `"@ + declared
                + "` is not enforceable: this repo is the admission wall only, and the RuntimeClass that would back a floor is deliberately not here (alpibrusl/lex-k8s#1). Remove the field, or accept it explicitly with `unenforced-"@
                + declared + "`"@,
        }
    }
}

impl ManifestReadError {
    pub fn to_text(&self) -> (r: String)
        ensures
            r@ == self.deep_view().message(),
    {
        match self {
            ManifestReadError::Json(e) => owned("LexManifest is not valid JSON: ").concat(
                e.as_str(),
            ),
            ManifestReadError::NotAManifest => owned(
                "not a LexManifest: no `spec` field. A manifest granting nothing says `spec: {grant: {}}`; a document that omits it is truncated or a different kind, and this wall will not admit what it cannot read",
            ),
            ManifestReadError::UnenforceableFloor { declared } => owned("isolationFloor `").concat(
                declared.as_str(),
            ).concat(
                "` is not enforceable: this repo is the admission wall only, and the RuntimeClass that would back a floor is deliberately not here (alpibrusl/lex-k8s#1). Remove the field, or accept it explicitly with `unenforced-",
            ).concat(declared.as_str()).concat("`"),
        }
    }
}

impl ManifestErrorModel {
    /// The complaint in words.
    pub open spec fn message(self) -> Seq<char> {
        match self {
            ManifestErrorModel::Trust(w) => w.message(),
            ManifestErrorModel::Budget { field, requested, granted } => "budget widening on "@ + field
                + ": child requests "@ + text::decimal(requested as nat)
                + " but parent only grants "@ + text::decimal(granted as nat),
            ManifestErrorModel::Egress { entry } => "egress widening: child claims `"@ + entry
                + "`, which the parent does not grant"@,
            ManifestErrorModel::Facet(e) => e.message(),
            ManifestErrorModel::FacetUnreadable(e) => "the `pod` facet is unreadable: "@ + e,
        }
    }
}

impl ManifestError {
    pub fn to_text(&self) -> (r: String)
        ensures
            r@ == self.deep_view().message(),
    {
        match self {
            ManifestError::Trust(w) => w.to_text(),
            ManifestError::Budget { field, requested, granted } => owned(
                "budget widening on ",
            ).concat(field.as_str()).concat(": child requests ").concat(
                show(*requested).as_str(),
            ).concat(" but parent only grants ").concat(show(*granted).as_str()),
            ManifestError::Egress { entry } => owned("egress widening: child claims `").concat(
                entry.as_str(),
            ).concat("`, which the parent does not grant"),
            ManifestError::Facet(e) => e.to_text(),
            ManifestError::FacetUnreadable(e) => owned("the `pod` facet is unreadable: ").concat(
                e.as_str(),
            ),
        }
    }
}

// ---------------------------------------------------------------------------------------------
// Reading and resolving
// ---------------------------------------------------------------------------------------------
/// The level that a word names, in any case.
pub open spec fn level_named(s: Seq<char>) -> Option<Level> {
    let n = text::ascii_upper(s);
    if n == "NONE"@ {
        Some(Level::Nothing)
    } else if n == "READONLY"@ || n == "READ-ONLY"@ {
        Some(Level::ReadOnly)
    } else if n == "SANDBOXED"@ {
        Some(Level::Sandboxed)
    } else if n == "LOOPBACK"@ {
        Some(Level::Loopback)
    } else if n == "READWRITE"@ || n == "READ-WRITE"@ {
        Some(Level::ReadWrite)
    } else if n == "ALLOWLIST"@ {
        Some(Level::Allowlist)
    } else if n == "FULL"@ {
        Some(Level::Full)
    } else {
        None
    }
}

/// The floor that a word names, in any case and after any number of `unenforced-`.
pub open spec fn floor_named(s: Seq<char>) -> Option<IsolationFloor> {
    let n = text::ascii_upper(text::without_all(s, "unenforced-"@));
    if n == "NAMESPACE"@ {
        Some(IsolationFloor::Namespace)
    } else if n == "GVISOR"@ {
        Some(IsolationFloor::Gvisor)
    } else if n == "MICROVM"@ {
        Some(IsolationFloor::MicroVm)
    } else {
        None
    }
}

pub fn parse_level(s: &Option<String>) -> (r: Option<Level>)
    ensures
        r == (match s.deep_view() {
            Some(n) => level_named(n),
            None => None,
        }),
{
    match s {
        None => None,
        Some(s) => {
            let upper = to_upper(s.as_str());
            let n = upper.as_str();
            if same(n, "NONE") {
                Some(Level::Nothing)
            } else if same(n, "READONLY") || same(n, "READ-ONLY") {
                Some(Level::ReadOnly)
            } else if same(n, "SANDBOXED") {
                Some(Level::Sandboxed)
            } else if same(n, "LOOPBACK") {
                Some(Level::Loopback)
            } else if same(n, "READWRITE") || same(n, "READ-WRITE") {
                Some(Level::ReadWrite)
            } else if same(n, "ALLOWLIST") {
                Some(Level::Allowlist)
            } else if same(n, "FULL") {
                Some(Level::Full)
            } else {
                None
            }
        },
    }
}

pub fn parse_floor(s: &Option<String>) -> (r: Option<IsolationFloor>)
    ensures
        r == (match s.deep_view() {
            Some(n) => floor_named(n),
            None => None,
        }),
{
    match s {
        None => None,
        Some(s) => {
            proof {
                reveal_strlit("unenforced-");
            }
            let upper = to_upper(text::strip_all(s.as_str(), "unenforced-"));
            let n = upper.as_str();
            if same(n, "NAMESPACE") {
                Some(IsolationFloor::Namespace)
            } else if same(n, "GVISOR") {
                Some(IsolationFloor::Gvisor)
            } else if same(n, "MICROVM") {
                Some(IsolationFloor::MicroVm)
            } else {
                None
            }
        },
    }
}

impl SpecModel {
    /// The spec declares a floor without saying that it is not enforced.
    pub open spec fn floor_unenforced(self) -> bool {
        match self.isolation_floor {
            Some(f) => !text::starts_with(f, "unenforced-"@),
            None => false,
        }
    }

    /// The base level on the exec axis: the one declared, or `Sandboxed`.
    pub open spec fn base_level(self) -> Level {
        match self.execution {
            Some(n) => match level_named(n) {
                Some(l) => l,
                None => Level::Sandboxed,
            },
            None => Level::Sandboxed,
        }
    }

    /// The manifest that the spec resolves to, where `default_budget` stands for a budget that it
    /// does not declare.
    pub open spec fn resolved(self, default_budget: Budget) -> ManifestModel {
        ManifestModel {
            goal: self.goal,
            grant: self.grant.ceiling(self.base_level()),
            budget: match self.budget {
                Some(b) => b,
                None => default_budget,
            },
            egress: self.grant.egress,
            isolation_floor: match self.isolation_floor {
                Some(f) => floor_named(f),
                None => None,
            },
            facet: FacetSlotModel::Pod(self.grant),
        }
    }
}

impl Spec {
    /// Does this spec declare an isolation floor that nothing here can enforce? Accepting it in
    /// silence would let an operator believe that a boundary exists, so it is refused unless it is
    /// spelled `unenforced-…`, by which the operator says that they know.
    pub fn isolation_floor_is_unenforced(&self) -> (r: bool)
        ensures
            r == self.deep_view().floor_unenforced(),
    {
        match &self.isolation_floor {
            None => false,
            Some(f) => !has_prefix(f.as_str(), "unenforced-"),
        }
    }
}

/// The manifest that a document says.
pub open spec fn manifest_of(t: Tree) -> Result<LexManifestModel, ManifestReadErrorModel> {
    if t.member("spec"@) is None {
        Err(ManifestReadErrorModel::NotAManifest)
    } else {
        match LexManifest::fault(t) {
            Some(e) => Err(ManifestReadErrorModel::Json(e)),
            None => Ok(LexManifest::value(t)),
        }
    }
}

/// The manifest that a text says.
pub open spec fn manifest_of_text(src: Seq<char>) -> Result<
    LexManifestModel,
    ManifestReadErrorModel,
> {
    match json::parsed(src) {
        Ok(t) => manifest_of(t),
        Err(e) => Err(ManifestReadErrorModel::Json(e)),
    }
}

/// A manifest, read and resolved; a floor that nothing can back is refused.
pub open spec fn accepted(
    m: Result<LexManifestModel, ManifestReadErrorModel>,
    default_budget: Budget,
) -> Result<(LexManifestModel, ManifestModel), ManifestReadErrorModel> {
    match m {
        Ok(crd) => if crd.spec.floor_unenforced() {
            Err(
                ManifestReadErrorModel::UnenforceableFloor {
                    declared: crd.spec.isolation_floor->0,
                },
            )
        } else {
            Ok((crd, crd.spec.resolved(default_budget)))
        },
        Err(e) => Err(e),
    }
}

impl LexManifestModel {
    /// `<namespace>/<name>`: how a parent reference names this one.
    pub open spec fn named(self) -> Seq<char> {
        (if self.metadata.namespace.len() == 0 {
            "cluster"@
        } else {
            self.metadata.namespace
        }) + "/"@ + self.metadata.name
    }
}

impl LexManifest {
    /// The manifest that a document says.
    pub fn from_document(doc: &Json) -> (r: Result<LexManifest, ManifestReadError>)
        ensures
            model::outcome(r) == manifest_of(doc@),
    {
        if doc.member("spec").is_none() {
            return Err(ManifestReadError::NotAManifest);
        }
        match LexManifest::read_value(doc) {
            Ok(m) => Ok(m),
            Err(e) => Err(ManifestReadError::Json(e)),
        }
    }

    fn read_value(doc: &Json) -> (r: Result<LexManifest, String>)
        ensures
            match r {
                Ok(x) => LexManifest::fault(doc@) is None && x.deep_view() == LexManifest::value(
                    doc@,
                ),
                Err(e) => LexManifest::fault(doc@) == Some(e@),
            },
    {
        <LexManifest as Readable>::read(doc)
    }

    /// Parse a manifest.
    pub fn from_json(src: &str) -> (r: Result<LexManifest, ManifestReadError>)
        ensures
            model::outcome(r) == manifest_of_text(src@),
    {
        match Json::parse(src) {
            Ok(doc) => LexManifest::from_document(&doc),
            Err(e) => Err(ManifestReadError::Json(e)),
        }
    }

    /// `<namespace>/<name>`: how a parent reference names this one.
    pub fn reference(&self) -> (r: String)
        ensures
            r@ == self.deep_view().named(),
    {
        let ns: &str = if self.metadata.namespace.as_str().unicode_len() == 0 {
            "cluster"
        } else {
            self.metadata.namespace.as_str()
        };
        owned(ns).concat("/").concat(self.metadata.name.as_str())
    }

    /// The manifest that the wall judges by. The lattice ceiling follows from the grant.
    /// `default_budget` stands for a budget that is not declared.
    pub fn resolve(&self, default_budget: Budget) -> (r: Manifest)
        ensures
            r.deep_view() == self.deep_view().spec.resolved(default_budget),
    {
        let base = match parse_level(&self.spec.execution) {
            Some(l) => l,
            None => Level::Sandboxed,
        };
        Manifest {
            goal: self.spec.goal.clone(),
            grant: self.spec.grant.implied_grant(base),
            budget: match self.spec.budget {
                Some(b) => b,
                None => default_budget,
            },
            egress: copied(&self.spec.grant.egress),
            isolation_floor: parse_floor(&self.spec.isolation_floor),
            facet: FacetSlot::Pod(self.spec.grant.copy()),
        }
    }

    /// A manifest, resolved; a floor that this deployment cannot back is refused.
    pub fn accept(self, default_budget: Budget) -> (r: Result<
        (LexManifest, Manifest),
        ManifestReadError,
    >)
        ensures
            model::outcome(r) == accepted(
                Ok::<LexManifestModel, ManifestReadErrorModel>(self.deep_view()),
                default_budget,
            ),
    {
        if self.spec.isolation_floor_is_unenforced() {
            let declared: String = match &self.spec.isolation_floor {
                Some(f) => f.clone(),
                None => String::new(),
            };
            return Err(ManifestReadError::UnenforceableFloor { declared });
        }
        let manifest = self.resolve(default_budget);
        Ok((self, manifest))
    }

    /// Read and resolve, refusing a floor that this deployment cannot back.
    pub fn read(src: &str, default_budget: Budget) -> (r: Result<
        (LexManifest, Manifest),
        ManifestReadError,
    >)
        ensures
            model::outcome(r) == accepted(manifest_of_text(src@), default_budget),
    {
        match LexManifest::from_json(src) {
            Ok(crd) => crd.accept(default_budget),
            Err(e) => Err(e),
        }
    }
}

// ---------------------------------------------------------------------------------------------
// Narrowing
// ---------------------------------------------------------------------------------------------
impl ManifestModel {
    /// The `pod` facet that the manifest carries, or an empty one: absent grants nothing. One that
    /// is there and cannot be read is another thing.
    pub open spec fn pod_facet(self) -> Result<PodFacetModel, ManifestErrorModel> {
        match self.facet {
            FacetSlotModel::Absent => Ok(PodFacet::nothing()),
            FacetSlotModel::Pod(f) => Ok(f),
            FacetSlotModel::Unreadable(e) => Err(ManifestErrorModel::FacetUnreadable(e)),
        }
    }
}

/// The first ceiling of `parent` that `child` raises.
pub open spec fn budget_widening(parent: Budget, child: Budget) -> Option<ManifestErrorModel> {
    if child.wall_clock_secs > parent.wall_clock_secs {
        Some(
            ManifestErrorModel::Budget {
                field: "wall_clock_secs"@,
                requested: child.wall_clock_secs,
                granted: parent.wall_clock_secs,
            },
        )
    } else if child.max_commands > parent.max_commands {
        Some(
            ManifestErrorModel::Budget {
                field: "max_commands"@,
                requested: child.max_commands,
                granted: parent.max_commands,
            },
        )
    } else if child.max_money_cents > parent.max_money_cents {
        Some(
            ManifestErrorModel::Budget {
                field: "max_money_cents"@,
                requested: child.max_money_cents,
                granted: parent.max_money_cents,
            },
        )
    } else if child.max_api_calls > parent.max_api_calls {
        Some(
            ManifestErrorModel::Budget {
                field: "max_api_calls"@,
                requested: child.max_api_calls,
                granted: parent.max_api_calls,
            },
        )
    } else {
        None
    }
}

/// No ceiling of `child` is above that of `parent`.
pub open spec fn budget_narrows(parent: Budget, child: Budget) -> bool {
    &&& child.wall_clock_secs <= parent.wall_clock_secs
    &&& child.max_commands <= parent.max_commands
    &&& child.max_money_cents <= parent.max_money_cents
    &&& child.max_api_calls <= parent.max_api_calls
}

/// Why `child` is no narrowing of `parent`: the lattice, then the budget, then the egress list,
/// then the facet.
pub open spec fn manifest_widening(parent: ManifestModel, child: ManifestModel) -> Option<
    ManifestErrorModel,
> {
    if Grant::widening(parent.grant, child.grant) is Some {
        Some(ManifestErrorModel::Trust(Grant::widening(parent.grant, child.grant)->0))
    } else if budget_widening(parent.budget, child.budget) is Some {
        budget_widening(parent.budget, child.budget)
    } else if facet::first_unlisted(parent.egress, child.egress) is Some {
        Some(
            ManifestErrorModel::Egress {
                entry: facet::first_unlisted(parent.egress, child.egress)->0,
            },
        )
    } else {
        match parent.pod_facet() {
            Err(e) => Some(e),
            Ok(p) => match child.pod_facet() {
                Err(e) => Some(e),
                Ok(c) => match p.widening(c) {
                    Some(detail) => Some(ManifestErrorModel::Facet(FacetErrorModel { detail })),
                    None => None,
                },
            },
        }
    }
}

fn narrow_budget(parent: &Budget, child: &Budget) -> (r: Result<(), ManifestError>)
    ensures
        match r {
            Ok(()) => budget_widening(*parent, *child) is None,
            Err(e) => budget_widening(*parent, *child) == Some(e.deep_view()),
        },
{
    if child.wall_clock_secs > parent.wall_clock_secs {
        return Err(
            ManifestError::Budget {
                field: owned("wall_clock_secs"),
                requested: child.wall_clock_secs,
                granted: parent.wall_clock_secs,
            },
        );
    }
    if child.max_commands > parent.max_commands {
        return Err(
            ManifestError::Budget {
                field: owned("max_commands"),
                requested: child.max_commands,
                granted: parent.max_commands,
            },
        );
    }
    if child.max_money_cents > parent.max_money_cents {
        return Err(
            ManifestError::Budget {
                field: owned("max_money_cents"),
                requested: child.max_money_cents,
                granted: parent.max_money_cents,
            },
        );
    }
    if child.max_api_calls > parent.max_api_calls {
        return Err(
            ManifestError::Budget {
                field: owned("max_api_calls"),
                requested: child.max_api_calls,
                granted: parent.max_api_calls,
            },
        );
    }
    Ok(())
}

fn narrow_egress(parent: &Vec<String>, child: &Vec<String>) -> (r: Result<(), ManifestError>)
    ensures
        match r {
            Ok(()) => facet::first_unlisted(parent.deep_view(), child.deep_view()) is None,
            Err(e) => facet::first_unlisted(parent.deep_view(), child.deep_view()) matches Some(
                entry,
            ) && e.deep_view() == (ManifestErrorModel::Egress { entry }),
        },
{
    let ghost p = parent.deep_view();
    let ghost all = child.deep_view();
    let mut i: usize = 0;
    assert(all.subrange(0, all.len() as int) =~= all);
    while i < child.len()
        invariant
            i <= child.len(),
            p == parent.deep_view(),
            all == child.deep_view(),
            facet::first_unlisted(p, all) == facet::first_unlisted(
                p,
                all.subrange(i as int, all.len() as int),
            ),
        decreases child.len() - i,
    {
        let ghost rest = all.subrange(i as int, all.len() as int);
        assert(rest[0] == child@[i as int]@);
        if !listed(parent, child[i].as_str()) {
            return Err(ManifestError::Egress { entry: child[i].clone() });
        }
        assert(rest.drop_first() =~= all.subrange(i + 1, all.len() as int));
        i += 1;
    }
    Ok(())
}

/// Is `child` a well-formed narrowing of `parent`: in the trust lattice, the budget, the egress
/// list and the `pod` facet?
pub fn narrow(parent: &Manifest, child: &Manifest) -> (r: Result<(), ManifestError>)
    ensures
        match r {
            Ok(()) => manifest_widening(parent.deep_view(), child.deep_view()) is None,
            Err(e) => manifest_widening(parent.deep_view(), child.deep_view()) == Some(
                e.deep_view(),
            ),
        },
{
    if let Err(w) = Grant::narrow(&parent.grant, &child.grant) {
        return Err(ManifestError::Trust(w));
    }
    if let Err(e) = narrow_budget(&parent.budget, &child.budget) {
        return Err(e);
    }
    if let Err(e) = narrow_egress(&parent.egress, &child.egress) {
        return Err(e);
    }
    let p = match pod_facet(parent) {
        Ok(f) => f,
        Err(e) => return Err(e),
    };
    let c = match pod_facet(child) {
        Ok(f) => f,
        Err(e) => return Err(e),
    };
    match PodFacet::validate_narrowing(&p, &c) {
        Ok(()) => Ok(()),
        Err(e) => Err(ManifestError::Facet(e)),
    }
}

/// The `pod` facet that a manifest carries, or an empty one.
pub fn pod_facet(m: &Manifest) -> (r: Result<PodFacet, ManifestError>)
    ensures
        model::outcome(r) == m.deep_view().pod_facet(),
{
    match &m.facet {
        FacetSlot::Absent => Ok(PodFacet::default()),
        FacetSlot::Pod(f) => Ok(f.copy()),
        FacetSlot::Unreadable(e) => Err(ManifestError::FacetUnreadable(e.clone())),
    }
}

impl Manifest {
    /// Does the manifest carry a facet of that name?
    pub fn has_facet(&self, name: &str) -> (r: bool)
        ensures
            r == (name@ == "pod"@ && !(self.deep_view().facet is Absent)),
    {
        same(name, "pod") && !matches!(self.facet, FacetSlot::Absent)
    }
}

// ---------------------------------------------------------------------------------------------
// Laws
// ---------------------------------------------------------------------------------------------
/// A child is accepted exactly where no wall finds it wider: the lattice, the budget, the egress
/// list and the facet must each narrow, and both facets must be readable.
pub proof fn a_narrowing_narrows_at_every_wall(parent: ManifestModel, child: ManifestModel)
    ensures
        manifest_widening(parent, child) is None <==> {
            &&& child.grant.fits(parent.grant)
            &&& budget_narrows(parent.budget, child.budget)
            &&& facet::is_subset(parent.egress, child.egress)
            &&& parent.pod_facet() is Ok
            &&& child.pod_facet() is Ok
            &&& parent.pod_facet()->Ok_0.narrows_to(child.pod_facet()->Ok_0)
        },
{
    facet::nothing_unlisted_is_a_subset(parent.egress, child.egress);
    if parent.pod_facet() is Ok && child.pod_facet() is Ok {
        facet::nothing_widens_is_a_narrowing(
            parent.pod_facet()->Ok_0,
            child.pod_facet()->Ok_0,
        );
    }
}

/// Narrowing is transitive along a chain of manifests: a grandchild that narrows its parent
/// narrows its grandparent.
pub proof fn manifest_narrowing_is_transitive(a: ManifestModel, b: ManifestModel, c: ManifestModel)
    requires
        manifest_widening(a, b) is None,
        manifest_widening(b, c) is None,
    ensures
        manifest_widening(a, c) is None,
{
    a_narrowing_narrows_at_every_wall(a, b);
    a_narrowing_narrows_at_every_wall(b, c);
    a_narrowing_narrows_at_every_wall(a, c);
    facet::facet_narrowing_is_transitive(
        a.pod_facet()->Ok_0,
        b.pod_facet()->Ok_0,
        c.pod_facet()->Ok_0,
    );
    assert forall|i: int| 0 <= i < c.egress.len() implies a.egress.contains(
        #[trigger] c.egress[i],
    ) by {
        let j = choose|j: int| 0 <= j < b.egress.len() && b.egress[j] == c.egress[i];
        assert(a.egress.contains(b.egress[j]));
    }
}

/// A manifest without a `budget` authorises no more money than the budget that stands in for one.
pub proof fn an_undeclared_budget_is_the_default(spec: SpecModel, default_budget: Budget)
    requires
        spec.budget is None,
    ensures
        spec.resolved(default_budget).budget == default_budget,
{
}

/// An explicitly empty grant grants nothing on the filesystem and network axes, and no Secret.
pub proof fn an_empty_grant_grants_nothing(spec: SpecModel, default_budget: Budget)
    requires
        spec.grant == PodFacet::nothing(),
    ensures
        spec.resolved(default_budget).grant.filesystem == Level::Nothing,
        spec.resolved(default_budget).grant.network == Level::Nothing,
        spec.resolved(default_budget).grant.execution == spec.base_level(),
        spec.resolved(default_budget).pod_facet() matches Ok(f) && f.secrets.len() == 0,
{
}

/// A declaration that is mis-spelled is refused, in the spec, in its grant and in its budget: it
/// never disappears in silence.
pub proof fn a_misspelled_declaration_is_refused(members: Seq<(Seq<char>, Tree)>, i: int)
    requires
        0 <= i < members.len(),
    ensures
        !spec_fields().contains(members[i].0) ==> Spec::fault(Tree::Object(members)) is Some,
        !facet::facet_fields().contains(members[i].0) ==> PodFacet::fault(Tree::Object(members))
            is Some,
        !budget_fields().contains(members[i].0) ==> Budget::fault(Tree::Object(members)) is Some,
{
    let name = members[i].0;
    if !spec_fields().contains(name) {
        let k = spec_fields();
        assert(name != k[0] && name != k[1] && name != k[2] && name != k[3] && name != k[4]);
        assert(name != k[5]);
        json::a_faulty_member_is_a_fault::<Spec>(members, i);
    }
    if !facet::facet_fields().contains(name) {
        let k = facet::facet_fields();
        assert(name != k[0] && name != k[1] && name != k[2] && name != k[3] && name != k[4]);
        assert(name != k[5] && name != k[6] && name != k[7]);
        json::a_faulty_member_is_a_fault::<PodFacet>(members, i);
    }
    if !budget_fields().contains(name) {
        let k = budget_fields();
        assert(name != k[0] && name != k[1] && name != k[2] && name != k[3]);
        json::a_faulty_member_is_a_fault::<Budget>(members, i);
    }
}

/// A budget is read field by field: each from the member of its name or the item of its place, and left
/// empty where there is neither.
pub proof fn a_budget_is_read_field_by_field(
    members: Seq<(Seq<char>, Tree)>,
    items: Seq<Tree>,
    i: int,
)
    requires
        json::are_distinct(members),
    ensures
        0 <= i < members.len() && members[i].0 == "wall_clock_secs"@ ==> Budget::value(Tree::Object(members)).wall_clock_secs
            == u64::value(members[i].1),
        !json::is_there(members, "wall_clock_secs"@) ==> Budget::value(Tree::Object(members)).wall_clock_secs == u64::nothing(),
        items.len() > 0 ==> Budget::value(Tree::List(items)).wall_clock_secs == u64::value(items[0]),
        0 <= i < members.len() && members[i].0 == "max_commands"@ ==> Budget::value(Tree::Object(members)).max_commands
            == u64::value(members[i].1),
        !json::is_there(members, "max_commands"@) ==> Budget::value(Tree::Object(members)).max_commands == u64::nothing(),
        items.len() > 1 ==> Budget::value(Tree::List(items)).max_commands == u64::value(items[1]),
        0 <= i < members.len() && members[i].0 == "max_money_cents"@ ==> Budget::value(Tree::Object(members)).max_money_cents
            == u64::value(members[i].1),
        !json::is_there(members, "max_money_cents"@) ==> Budget::value(Tree::Object(members)).max_money_cents == u64::nothing(),
        items.len() > 2 ==> Budget::value(Tree::List(items)).max_money_cents == u64::value(items[2]),
        0 <= i < members.len() && members[i].0 == "max_api_calls"@ ==> Budget::value(Tree::Object(members)).max_api_calls
            == u64::value(members[i].1),
        !json::is_there(members, "max_api_calls"@) ==> Budget::value(Tree::Object(members)).max_api_calls == u64::nothing(),
        items.len() > 3 ==> Budget::value(Tree::List(items)).max_api_calls == u64::value(items[3]),
{
    json::a_field_is_read_by_name_or_place::<u64>(members, items, i, "wall_clock_secs"@, 0);
    json::a_field_is_read_by_name_or_place::<u64>(members, items, i, "max_commands"@, 1);
    json::a_field_is_read_by_name_or_place::<u64>(members, items, i, "max_money_cents"@, 2);
    json::a_field_is_read_by_name_or_place::<u64>(members, items, i, "max_api_calls"@, 3);
}

/// A budget is read wherever each of its members can be and none that it needs is missing.
pub proof fn a_budget_is_read_where_its_members_are(members: Seq<(Seq<char>, Tree)>)
    requires
        json::are_distinct(members),
        forall|j: int|
            0 <= j < members.len() && (#[trigger] members[j]).0 == "wall_clock_secs"@ ==> u64::fault(members[j].1) is None,
        forall|j: int|
            0 <= j < members.len() && (#[trigger] members[j]).0 == "max_commands"@ ==> u64::fault(members[j].1) is None,
        forall|j: int|
            0 <= j < members.len() && (#[trigger] members[j]).0 == "max_money_cents"@ ==> u64::fault(members[j].1) is None,
        forall|j: int|
            0 <= j < members.len() && (#[trigger] members[j]).0 == "max_api_calls"@ ==> u64::fault(members[j].1) is None,
        forall|j: int|
            0 <= j < members.len() ==> (#[trigger] members[j]).0 == "wall_clock_secs"@ || members[j].0 == "max_commands"@ || members[j].0 == "max_money_cents"@ || members[j].0 == "max_api_calls"@,
        json::is_there(members, "wall_clock_secs"@),
        json::is_there(members, "max_commands"@),
        json::is_there(members, "max_money_cents"@),
        json::is_there(members, "max_api_calls"@),
    ensures
        Budget::fault(Tree::Object(members)) is None,
{
    assert forall|j: int| 0 <= j < members.len() implies Budget::member_fault(
        (#[trigger] members[j]).0,
        members[j].1,
    ) is None by {}
    json::members_are_read_where_each_is::<Budget>(members);
    assert(json::field_fault::<u64>(Tree::Object(members), "wall_clock_secs"@, 0) is None) by {
        json::a_member_is_found_by_name(members, "wall_clock_secs"@);
        if let Some(v) = json::lookup(members, "wall_clock_secs"@) {
            let j = choose|j: int| 0 <= j < members.len() && members[j] == ("wall_clock_secs"@, v);
            assert(members[j].0 == "wall_clock_secs"@);
        }
    }
    assert(json::field_fault::<u64>(Tree::Object(members), "max_commands"@, 1) is None) by {
        json::a_member_is_found_by_name(members, "max_commands"@);
        if let Some(v) = json::lookup(members, "max_commands"@) {
            let j = choose|j: int| 0 <= j < members.len() && members[j] == ("max_commands"@, v);
            assert(members[j].0 == "max_commands"@);
        }
    }
    assert(json::field_fault::<u64>(Tree::Object(members), "max_money_cents"@, 2) is None) by {
        json::a_member_is_found_by_name(members, "max_money_cents"@);
        if let Some(v) = json::lookup(members, "max_money_cents"@) {
            let j = choose|j: int| 0 <= j < members.len() && members[j] == ("max_money_cents"@, v);
            assert(members[j].0 == "max_money_cents"@);
        }
    }
    assert(json::field_fault::<u64>(Tree::Object(members), "max_api_calls"@, 3) is None) by {
        json::a_member_is_found_by_name(members, "max_api_calls"@);
        if let Some(v) = json::lookup(members, "max_api_calls"@) {
            let j = choose|j: int| 0 <= j < members.len() && members[j] == ("max_api_calls"@, v);
            assert(members[j].0 == "max_api_calls"@);
        }
    }
    json::a_member_is_found_by_name(members, "wall_clock_secs"@);
    json::a_member_is_found_by_name(members, "max_commands"@);
    json::a_member_is_found_by_name(members, "max_money_cents"@);
    json::a_member_is_found_by_name(members, "max_api_calls"@);
}

/// A budget is refused for any one member that cannot be read, and where one that it needs is missing.
pub proof fn a_budget_is_refused_for_one_member(members: Seq<(Seq<char>, Tree)>, i: int)
    requires
        json::are_distinct(members),
    ensures
        0 <= i < members.len() && members[i].0 == "wall_clock_secs"@ && u64::fault(members[i].1) is Some
            ==> Budget::fault(Tree::Object(members)) is Some,
        0 <= i < members.len() && members[i].0 == "max_commands"@ && u64::fault(members[i].1) is Some
            ==> Budget::fault(Tree::Object(members)) is Some,
        0 <= i < members.len() && members[i].0 == "max_money_cents"@ && u64::fault(members[i].1) is Some
            ==> Budget::fault(Tree::Object(members)) is Some,
        0 <= i < members.len() && members[i].0 == "max_api_calls"@ && u64::fault(members[i].1) is Some
            ==> Budget::fault(Tree::Object(members)) is Some,
        !json::is_there(members, "wall_clock_secs"@) ==> Budget::fault(Tree::Object(members)) is Some,
        !json::is_there(members, "max_commands"@) ==> Budget::fault(Tree::Object(members)) is Some,
        !json::is_there(members, "max_money_cents"@) ==> Budget::fault(Tree::Object(members)) is Some,
        !json::is_there(members, "max_api_calls"@) ==> Budget::fault(Tree::Object(members)) is Some,
{
    json::a_field_is_read_by_name_or_place::<u64>(members, Seq::empty(), i, "wall_clock_secs"@, 0);
    json::a_field_is_read_by_name_or_place::<u64>(members, Seq::empty(), i, "max_commands"@, 1);
    json::a_field_is_read_by_name_or_place::<u64>(members, Seq::empty(), i, "max_money_cents"@, 2);
    json::a_field_is_read_by_name_or_place::<u64>(members, Seq::empty(), i, "max_api_calls"@, 3);
    json::a_member_is_found_by_name(members, "wall_clock_secs"@);
    json::a_member_is_found_by_name(members, "max_commands"@);
    json::a_member_is_found_by_name(members, "max_money_cents"@);
    json::a_member_is_found_by_name(members, "max_api_calls"@);
}

/// A lex manifest is read field by field: each from the member of its name or the item of its place, and left
/// empty where there is neither.
pub proof fn a_lex_manifest_is_read_field_by_field(
    members: Seq<(Seq<char>, Tree)>,
    items: Seq<Tree>,
    i: int,
)
    requires
        json::are_distinct(members),
    ensures
        0 <= i < members.len() && members[i].0 == "apiVersion"@ ==> LexManifest::value(Tree::Object(members)).api_version
            == String::value(members[i].1),
        !json::is_there(members, "apiVersion"@) ==> LexManifest::value(Tree::Object(members)).api_version == String::nothing(),
        items.len() > 0 ==> LexManifest::value(Tree::List(items)).api_version == String::value(items[0]),
        0 <= i < members.len() && members[i].0 == "kind"@ ==> LexManifest::value(Tree::Object(members)).kind
            == String::value(members[i].1),
        !json::is_there(members, "kind"@) ==> LexManifest::value(Tree::Object(members)).kind == String::nothing(),
        items.len() > 1 ==> LexManifest::value(Tree::List(items)).kind == String::value(items[1]),
        0 <= i < members.len() && members[i].0 == "metadata"@ ==> LexManifest::value(Tree::Object(members)).metadata
            == Metadata::value(members[i].1),
        !json::is_there(members, "metadata"@) ==> LexManifest::value(Tree::Object(members)).metadata == Metadata::nothing(),
        items.len() > 2 ==> LexManifest::value(Tree::List(items)).metadata == Metadata::value(items[2]),
        0 <= i < members.len() && members[i].0 == "spec"@ ==> LexManifest::value(Tree::Object(members)).spec
            == Spec::value(members[i].1),
        !json::is_there(members, "spec"@) ==> LexManifest::value(Tree::Object(members)).spec == Spec::nothing(),
        items.len() > 3 ==> LexManifest::value(Tree::List(items)).spec == Spec::value(items[3]),
{
    json::a_field_is_read_by_name_or_place::<String>(members, items, i, "apiVersion"@, 0);
    json::a_field_is_read_by_name_or_place::<String>(members, items, i, "kind"@, 1);
    json::a_field_is_read_by_name_or_place::<Metadata>(members, items, i, "metadata"@, 2);
    json::a_field_is_read_by_name_or_place::<Spec>(members, items, i, "spec"@, 3);
}

/// A lex manifest is read wherever each of its members can be and none that it needs is missing.
pub proof fn a_lex_manifest_is_read_where_its_members_are(members: Seq<(Seq<char>, Tree)>)
    requires
        json::are_distinct(members),
        forall|j: int|
            0 <= j < members.len() && (#[trigger] members[j]).0 == "apiVersion"@ ==> String::fault(members[j].1) is None,
        forall|j: int|
            0 <= j < members.len() && (#[trigger] members[j]).0 == "kind"@ ==> String::fault(members[j].1) is None,
        forall|j: int|
            0 <= j < members.len() && (#[trigger] members[j]).0 == "metadata"@ ==> Metadata::fault(members[j].1) is None,
        forall|j: int|
            0 <= j < members.len() && (#[trigger] members[j]).0 == "spec"@ ==> Spec::fault(members[j].1) is None,
        json::is_there(members, "spec"@),
    ensures
        LexManifest::fault(Tree::Object(members)) is None,
{
    assert forall|j: int| 0 <= j < members.len() implies LexManifest::member_fault(
        (#[trigger] members[j]).0,
        members[j].1,
    ) is None by {}
    json::members_are_read_where_each_is::<LexManifest>(members);
    assert(json::field_fault::<String>(Tree::Object(members), "apiVersion"@, 0) is None) by {
        json::a_member_is_found_by_name(members, "apiVersion"@);
        if let Some(v) = json::lookup(members, "apiVersion"@) {
            let j = choose|j: int| 0 <= j < members.len() && members[j] == ("apiVersion"@, v);
            assert(members[j].0 == "apiVersion"@);
        }
    }
    assert(json::field_fault::<String>(Tree::Object(members), "kind"@, 1) is None) by {
        json::a_member_is_found_by_name(members, "kind"@);
        if let Some(v) = json::lookup(members, "kind"@) {
            let j = choose|j: int| 0 <= j < members.len() && members[j] == ("kind"@, v);
            assert(members[j].0 == "kind"@);
        }
    }
    assert(json::field_fault::<Metadata>(Tree::Object(members), "metadata"@, 2) is None) by {
        json::a_member_is_found_by_name(members, "metadata"@);
        if let Some(v) = json::lookup(members, "metadata"@) {
            let j = choose|j: int| 0 <= j < members.len() && members[j] == ("metadata"@, v);
            assert(members[j].0 == "metadata"@);
        }
    }
    assert(json::field_fault::<Spec>(Tree::Object(members), "spec"@, 3) is None) by {
        json::a_member_is_found_by_name(members, "spec"@);
        if let Some(v) = json::lookup(members, "spec"@) {
            let j = choose|j: int| 0 <= j < members.len() && members[j] == ("spec"@, v);
            assert(members[j].0 == "spec"@);
        }
    }
    json::a_member_is_found_by_name(members, "spec"@);
}

/// A lex manifest is refused for any one member that cannot be read, and where one that it needs is missing.
pub proof fn a_lex_manifest_is_refused_for_one_member(members: Seq<(Seq<char>, Tree)>, i: int)
    requires
        json::are_distinct(members),
    ensures
        0 <= i < members.len() && members[i].0 == "apiVersion"@ && String::fault(members[i].1) is Some
            ==> LexManifest::fault(Tree::Object(members)) is Some,
        0 <= i < members.len() && members[i].0 == "kind"@ && String::fault(members[i].1) is Some
            ==> LexManifest::fault(Tree::Object(members)) is Some,
        0 <= i < members.len() && members[i].0 == "metadata"@ && Metadata::fault(members[i].1) is Some
            ==> LexManifest::fault(Tree::Object(members)) is Some,
        0 <= i < members.len() && members[i].0 == "spec"@ && Spec::fault(members[i].1) is Some
            ==> LexManifest::fault(Tree::Object(members)) is Some,
        !json::is_there(members, "spec"@) ==> LexManifest::fault(Tree::Object(members)) is Some,
{
    json::a_field_is_read_by_name_or_place::<String>(members, Seq::empty(), i, "apiVersion"@, 0);
    json::a_field_is_read_by_name_or_place::<String>(members, Seq::empty(), i, "kind"@, 1);
    json::a_field_is_read_by_name_or_place::<Metadata>(members, Seq::empty(), i, "metadata"@, 2);
    json::a_field_is_read_by_name_or_place::<Spec>(members, Seq::empty(), i, "spec"@, 3);
    json::a_member_is_found_by_name(members, "spec"@);
}

/// A metadata is read field by field: each from the member of its name or the item of its place, and left
/// empty where there is neither.
pub proof fn a_metadata_is_read_field_by_field(
    members: Seq<(Seq<char>, Tree)>,
    items: Seq<Tree>,
    i: int,
)
    requires
        json::are_distinct(members),
    ensures
        0 <= i < members.len() && members[i].0 == "name"@ ==> Metadata::value(Tree::Object(members)).name
            == String::value(members[i].1),
        !json::is_there(members, "name"@) ==> Metadata::value(Tree::Object(members)).name == String::nothing(),
        items.len() > 0 ==> Metadata::value(Tree::List(items)).name == String::value(items[0]),
        0 <= i < members.len() && members[i].0 == "namespace"@ ==> Metadata::value(Tree::Object(members)).namespace
            == String::value(members[i].1),
        !json::is_there(members, "namespace"@) ==> Metadata::value(Tree::Object(members)).namespace == String::nothing(),
        items.len() > 1 ==> Metadata::value(Tree::List(items)).namespace == String::value(items[1]),
{
    json::a_field_is_read_by_name_or_place::<String>(members, items, i, "name"@, 0);
    json::a_field_is_read_by_name_or_place::<String>(members, items, i, "namespace"@, 1);
}

/// A metadata is read wherever each of its members can be.
pub proof fn a_metadata_is_read_where_its_members_are(members: Seq<(Seq<char>, Tree)>)
    requires
        json::are_distinct(members),
        forall|j: int|
            0 <= j < members.len() && (#[trigger] members[j]).0 == "name"@ ==> String::fault(members[j].1) is None,
        forall|j: int|
            0 <= j < members.len() && (#[trigger] members[j]).0 == "namespace"@ ==> String::fault(members[j].1) is None,
    ensures
        Metadata::fault(Tree::Object(members)) is None,
{
    assert forall|j: int| 0 <= j < members.len() implies Metadata::member_fault(
        (#[trigger] members[j]).0,
        members[j].1,
    ) is None by {}
    json::members_are_read_where_each_is::<Metadata>(members);
    assert(json::field_fault::<String>(Tree::Object(members), "name"@, 0) is None) by {
        json::a_member_is_found_by_name(members, "name"@);
        if let Some(v) = json::lookup(members, "name"@) {
            let j = choose|j: int| 0 <= j < members.len() && members[j] == ("name"@, v);
            assert(members[j].0 == "name"@);
        }
    }
    assert(json::field_fault::<String>(Tree::Object(members), "namespace"@, 1) is None) by {
        json::a_member_is_found_by_name(members, "namespace"@);
        if let Some(v) = json::lookup(members, "namespace"@) {
            let j = choose|j: int| 0 <= j < members.len() && members[j] == ("namespace"@, v);
            assert(members[j].0 == "namespace"@);
        }
    }
}

/// A metadata is refused for any one member that cannot be read.
pub proof fn a_metadata_is_refused_for_one_member(members: Seq<(Seq<char>, Tree)>, i: int)
    requires
        json::are_distinct(members),
    ensures
        0 <= i < members.len() && members[i].0 == "name"@ && String::fault(members[i].1) is Some
            ==> Metadata::fault(Tree::Object(members)) is Some,
        0 <= i < members.len() && members[i].0 == "namespace"@ && String::fault(members[i].1) is Some
            ==> Metadata::fault(Tree::Object(members)) is Some,
{
    json::a_field_is_read_by_name_or_place::<String>(members, Seq::empty(), i, "name"@, 0);
    json::a_field_is_read_by_name_or_place::<String>(members, Seq::empty(), i, "namespace"@, 1);
}

/// A spec is read field by field: each from the member of its name or the item of its place, and left
/// empty where there is neither.
pub proof fn a_spec_is_read_field_by_field(
    members: Seq<(Seq<char>, Tree)>,
    items: Seq<Tree>,
    i: int,
)
    requires
        json::are_distinct(members),
    ensures
        0 <= i < members.len() && members[i].0 == "goal"@ ==> Spec::value(Tree::Object(members)).goal
            == String::value(members[i].1),
        !json::is_there(members, "goal"@) ==> Spec::value(Tree::Object(members)).goal == String::nothing(),
        items.len() > 0 ==> Spec::value(Tree::List(items)).goal == String::value(items[0]),
        0 <= i < members.len() && members[i].0 == "grant"@ ==> Spec::value(Tree::Object(members)).grant
            == PodFacet::value(members[i].1),
        !json::is_there(members, "grant"@) ==> Spec::value(Tree::Object(members)).grant == PodFacet::nothing(),
        items.len() > 1 ==> Spec::value(Tree::List(items)).grant == PodFacet::value(items[1]),
        0 <= i < members.len() && members[i].0 == "exec"@ ==> Spec::value(Tree::Object(members)).execution
            == <Option<String> as Readable>::value(members[i].1),
        !json::is_there(members, "exec"@) ==> Spec::value(Tree::Object(members)).execution == <Option<String> as Readable>::nothing(),
        items.len() > 2 ==> Spec::value(Tree::List(items)).execution == <Option<String> as Readable>::value(items[2]),
        0 <= i < members.len() && members[i].0 == "budget"@ ==> Spec::value(Tree::Object(members)).budget
            == <Option<Budget> as Readable>::value(members[i].1),
        !json::is_there(members, "budget"@) ==> Spec::value(Tree::Object(members)).budget == <Option<Budget> as Readable>::nothing(),
        items.len() > 3 ==> Spec::value(Tree::List(items)).budget == <Option<Budget> as Readable>::value(items[3]),
        0 <= i < members.len() && members[i].0 == "isolationFloor"@ ==> Spec::value(Tree::Object(members)).isolation_floor
            == <Option<String> as Readable>::value(members[i].1),
        !json::is_there(members, "isolationFloor"@) ==> Spec::value(Tree::Object(members)).isolation_floor == <Option<String> as Readable>::nothing(),
        items.len() > 4 ==> Spec::value(Tree::List(items)).isolation_floor == <Option<String> as Readable>::value(items[4]),
        0 <= i < members.len() && members[i].0 == "parent"@ ==> Spec::value(Tree::Object(members)).parent
            == <Option<String> as Readable>::value(members[i].1),
        !json::is_there(members, "parent"@) ==> Spec::value(Tree::Object(members)).parent == <Option<String> as Readable>::nothing(),
        items.len() > 5 ==> Spec::value(Tree::List(items)).parent == <Option<String> as Readable>::value(items[5]),
{
    json::a_field_is_read_by_name_or_place::<String>(members, items, i, "goal"@, 0);
    json::a_field_is_read_by_name_or_place::<PodFacet>(members, items, i, "grant"@, 1);
    json::a_field_is_read_by_name_or_place::<Option<String>>(members, items, i, "exec"@, 2);
    json::a_field_is_read_by_name_or_place::<Option<Budget>>(members, items, i, "budget"@, 3);
    json::a_field_is_read_by_name_or_place::<Option<String>>(members, items, i, "isolationFloor"@, 4);
    json::a_field_is_read_by_name_or_place::<Option<String>>(members, items, i, "parent"@, 5);
}

/// A spec is read wherever each of its members can be.
pub proof fn a_spec_is_read_where_its_members_are(members: Seq<(Seq<char>, Tree)>)
    requires
        json::are_distinct(members),
        forall|j: int|
            0 <= j < members.len() && (#[trigger] members[j]).0 == "goal"@ ==> String::fault(members[j].1) is None,
        forall|j: int|
            0 <= j < members.len() && (#[trigger] members[j]).0 == "grant"@ ==> PodFacet::fault(members[j].1) is None,
        forall|j: int|
            0 <= j < members.len() && (#[trigger] members[j]).0 == "exec"@ ==> <Option<String> as Readable>::fault(members[j].1) is None,
        forall|j: int|
            0 <= j < members.len() && (#[trigger] members[j]).0 == "budget"@ ==> <Option<Budget> as Readable>::fault(members[j].1) is None,
        forall|j: int|
            0 <= j < members.len() && (#[trigger] members[j]).0 == "isolationFloor"@ ==> <Option<String> as Readable>::fault(members[j].1) is None,
        forall|j: int|
            0 <= j < members.len() && (#[trigger] members[j]).0 == "parent"@ ==> <Option<String> as Readable>::fault(members[j].1) is None,
        forall|j: int|
            0 <= j < members.len() ==> (#[trigger] members[j]).0 == "goal"@ || members[j].0 == "grant"@ || members[j].0 == "exec"@ || members[j].0 == "budget"@ || members[j].0 == "isolationFloor"@ || members[j].0 == "parent"@,
    ensures
        Spec::fault(Tree::Object(members)) is None,
{
    assert forall|j: int| 0 <= j < members.len() implies Spec::member_fault(
        (#[trigger] members[j]).0,
        members[j].1,
    ) is None by {}
    json::members_are_read_where_each_is::<Spec>(members);
    assert(json::field_fault::<String>(Tree::Object(members), "goal"@, 0) is None) by {
        json::a_member_is_found_by_name(members, "goal"@);
        if let Some(v) = json::lookup(members, "goal"@) {
            let j = choose|j: int| 0 <= j < members.len() && members[j] == ("goal"@, v);
            assert(members[j].0 == "goal"@);
        }
    }
    assert(json::field_fault::<PodFacet>(Tree::Object(members), "grant"@, 1) is None) by {
        json::a_member_is_found_by_name(members, "grant"@);
        if let Some(v) = json::lookup(members, "grant"@) {
            let j = choose|j: int| 0 <= j < members.len() && members[j] == ("grant"@, v);
            assert(members[j].0 == "grant"@);
        }
    }
    assert(json::field_fault::<Option<String>>(Tree::Object(members), "exec"@, 2) is None) by {
        json::a_member_is_found_by_name(members, "exec"@);
        if let Some(v) = json::lookup(members, "exec"@) {
            let j = choose|j: int| 0 <= j < members.len() && members[j] == ("exec"@, v);
            assert(members[j].0 == "exec"@);
        }
    }
    assert(json::field_fault::<Option<Budget>>(Tree::Object(members), "budget"@, 3) is None) by {
        json::a_member_is_found_by_name(members, "budget"@);
        if let Some(v) = json::lookup(members, "budget"@) {
            let j = choose|j: int| 0 <= j < members.len() && members[j] == ("budget"@, v);
            assert(members[j].0 == "budget"@);
        }
    }
    assert(json::field_fault::<Option<String>>(Tree::Object(members), "isolationFloor"@, 4) is None) by {
        json::a_member_is_found_by_name(members, "isolationFloor"@);
        if let Some(v) = json::lookup(members, "isolationFloor"@) {
            let j = choose|j: int| 0 <= j < members.len() && members[j] == ("isolationFloor"@, v);
            assert(members[j].0 == "isolationFloor"@);
        }
    }
    assert(json::field_fault::<Option<String>>(Tree::Object(members), "parent"@, 5) is None) by {
        json::a_member_is_found_by_name(members, "parent"@);
        if let Some(v) = json::lookup(members, "parent"@) {
            let j = choose|j: int| 0 <= j < members.len() && members[j] == ("parent"@, v);
            assert(members[j].0 == "parent"@);
        }
    }
}

/// A spec is refused for any one member that cannot be read.
pub proof fn a_spec_is_refused_for_one_member(members: Seq<(Seq<char>, Tree)>, i: int)
    requires
        json::are_distinct(members),
    ensures
        0 <= i < members.len() && members[i].0 == "goal"@ && String::fault(members[i].1) is Some
            ==> Spec::fault(Tree::Object(members)) is Some,
        0 <= i < members.len() && members[i].0 == "grant"@ && PodFacet::fault(members[i].1) is Some
            ==> Spec::fault(Tree::Object(members)) is Some,
        0 <= i < members.len() && members[i].0 == "exec"@ && <Option<String> as Readable>::fault(members[i].1) is Some
            ==> Spec::fault(Tree::Object(members)) is Some,
        0 <= i < members.len() && members[i].0 == "budget"@ && <Option<Budget> as Readable>::fault(members[i].1) is Some
            ==> Spec::fault(Tree::Object(members)) is Some,
        0 <= i < members.len() && members[i].0 == "isolationFloor"@ && <Option<String> as Readable>::fault(members[i].1) is Some
            ==> Spec::fault(Tree::Object(members)) is Some,
        0 <= i < members.len() && members[i].0 == "parent"@ && <Option<String> as Readable>::fault(members[i].1) is Some
            ==> Spec::fault(Tree::Object(members)) is Some,
{
    json::a_field_is_read_by_name_or_place::<String>(members, Seq::empty(), i, "goal"@, 0);
    json::a_field_is_read_by_name_or_place::<PodFacet>(members, Seq::empty(), i, "grant"@, 1);
    json::a_field_is_read_by_name_or_place::<Option<String>>(members, Seq::empty(), i, "exec"@, 2);
    json::a_field_is_read_by_name_or_place::<Option<Budget>>(members, Seq::empty(), i, "budget"@, 3);
    json::a_field_is_read_by_name_or_place::<Option<String>>(members, Seq::empty(), i, "isolationFloor"@, 4);
    json::a_field_is_read_by_name_or_place::<Option<String>>(members, Seq::empty(), i, "parent"@, 5);
}

/// A level is read by either of the names that it is written by, in any case; a manifest that names
/// no level, or none that there is, has its pods run in a sandbox.
pub proof fn a_level_is_read_by_its_name(l: Level, s: SpecModel, name: Seq<char>)
    ensures
        level_named(l.word()) == Some(l),
        level_named(l.label()) == Some(l),
        level_named(text::ascii_upper(name)) == level_named(name),
        s.execution is None ==> s.base_level() == Level::Sandboxed,
        s.execution matches Some(n) ==> level_named(n) is None ==> s.base_level()
            == Level::Sandboxed,
        s.execution == Some(l.word()) ==> s.base_level() == l,
{
    text::case_is_not_space(name);
    level_words(l);
}

proof fn level_words(l: Level)
    ensures
        level_named(l.word()) == Some(l),
        level_named(l.label()) == Some(l),
{
    reveal_strlit("NONE");
    reveal_strlit("READONLY");
    reveal_strlit("READ-ONLY");
    reveal_strlit("SANDBOXED");
    reveal_strlit("LOOPBACK");
    reveal_strlit("READWRITE");
    reveal_strlit("READ-WRITE");
    reveal_strlit("ALLOWLIST");
    reveal_strlit("FULL");
    reveal_strlit("none");
    reveal_strlit("read-only");
    reveal_strlit("sandboxed");
    reveal_strlit("loopback");
    reveal_strlit("read-write");
    reveal_strlit("allowlist");
    reveal_strlit("full");
    reveal_strlit("None");
    reveal_strlit("ReadOnly");
    reveal_strlit("Sandboxed");
    reveal_strlit("Loopback");
    reveal_strlit("ReadWrite");
    reveal_strlit("Allowlist");
    reveal_strlit("Full");
    let w = text::ascii_upper(l.word());
    let n = text::ascii_upper(l.label());
    match l {
        Level::Nothing => {
            assert(w =~= "NONE"@ && n =~= "NONE"@);
        },
        Level::ReadOnly => {
            assert(w =~= "READ-ONLY"@ && n =~= "READONLY"@);
            assert(w.len() == 9 && n.len() == 8 && "NONE"@.len() == 4);
        },
        Level::Sandboxed => {
            assert(w =~= "SANDBOXED"@ && n =~= "SANDBOXED"@);
            assert(w[0] == 'S' && "READ-ONLY"@[0] == 'R' && "READONLY"@[0] == 'R' && "NONE"@[0]
                == 'N');
        },
        Level::Loopback => {
            assert(w =~= "LOOPBACK"@ && n =~= "LOOPBACK"@);
            assert(w[0] == 'L' && "READ-ONLY"@[0] == 'R' && "READONLY"@[0] == 'R' && "NONE"@[0]
                == 'N' && "SANDBOXED"@[0] == 'S');
        },
        Level::ReadWrite => {
            assert(w =~= "READ-WRITE"@ && n =~= "READWRITE"@);
            assert(w[0] == 'R' && n[0] == 'R' && "NONE"@[0] == 'N' && "SANDBOXED"@[0] == 'S'
                && "LOOPBACK"@[0] == 'L');
            assert(w.len() == 10 && n.len() == 9 && "READONLY"@.len() == 8 && "READ-ONLY"@[4] == '-'
                && n[4] == 'W');
        },
        Level::Allowlist => {
            assert(w =~= "ALLOWLIST"@ && n =~= "ALLOWLIST"@);
            assert(w[0] == 'A' && "READ-ONLY"@[0] == 'R' && "READONLY"@[0] == 'R' && "NONE"@[0]
                == 'N' && "SANDBOXED"@[0] == 'S' && "LOOPBACK"@[0] == 'L' && "READWRITE"@[0] == 'R'
                && "READ-WRITE"@[0] == 'R');
        },
        Level::Full => {
            assert(w =~= "FULL"@ && n =~= "FULL"@);
            assert(w[0] == 'F' && "READ-ONLY"@[0] == 'R' && "READONLY"@[0] == 'R' && "NONE"@[0]
                == 'N' && "SANDBOXED"@[0] == 'S' && "LOOPBACK"@[0] == 'L' && "READWRITE"@[0] == 'R'
                && "READ-WRITE"@[0] == 'R' && "ALLOWLIST"@[0] == 'A');
        },
    }
}

/// A manifest resolves to what it declares: its goal, its egress and its grant as they stand, its
/// budget where it has one, and a ceiling under which everything that a flag or the list of Secrets
/// names fits.
pub proof fn a_manifest_resolves_to_what_it_declares(
    s: SpecModel,
    default_budget: Budget,
    e: EffectModel,
)
    ensures
        ({
            let m = s.resolved(default_budget);
            &&& m.goal == s.goal
            &&& m.egress == s.grant.egress
            &&& m.pod_facet() == Ok::<PodFacetModel, ManifestErrorModel>(s.grant)
            &&& s.budget matches Some(b) ==> m.budget == b
            &&& s.budget is None ==> m.budget == default_budget
            &&& m.grant == s.grant.ceiling(s.base_level())
            &&& s.grant.denial(e) is None && (e is HostNetwork || e is HostNamespace
                || e is Privileged || e is HostPath || e is Secret) ==> e.demanded().fits(m.grant)
        }),
{
    if s.grant.denial(e) is None && (e is HostNetwork || e is HostNamespace || e is Privileged
        || e is HostPath || e is Secret) {
        facet::the_ceiling_covers_what_is_named(s.grant, s.base_level(), e);
    }
}

/// A floor is accepted only where it is declared as one that nothing enforces, and a manifest is
/// otherwise accepted as it was read.
pub proof fn a_floor_is_never_taken_on_faith(
    crd: LexManifestModel,
    default_budget: Budget,
    floor: Seq<char>,
)
    ensures
        ({
            let read = accepted(Ok::<LexManifestModel, ManifestReadErrorModel>(crd), default_budget);
            &&& crd.spec.isolation_floor is None ==> read == Ok::<
                (LexManifestModel, ManifestModel),
                ManifestReadErrorModel,
            >((crd, crd.spec.resolved(default_budget)))
            &&& crd.spec.isolation_floor == Some("unenforced-"@ + floor) ==> read is Ok
            &&& crd.spec.isolation_floor == Some(floor) && !(floor.len() >= 11 && floor.subrange(
                0,
                11,
            ) == "unenforced-"@) ==> read == Err::<
                (LexManifestModel, ManifestModel),
                ManifestReadErrorModel,
            >(ManifestReadErrorModel::UnenforceableFloor { declared: floor })
        }),
{
    reveal_strlit("unenforced-");
    assert(("unenforced-"@ + floor).subrange(0, 11) =~= "unenforced-"@);
}

/// A floor is read by its name, in any case, with or without saying that nothing enforces it.
pub proof fn a_floor_is_read_by_its_name(s: Seq<char>)
    ensures
        floor_named("unenforced-"@ + s) == floor_named(s),
        floor_named("namespace"@) == Some(IsolationFloor::Namespace),
        floor_named("gvisor"@) == Some(IsolationFloor::Gvisor),
        floor_named("microvm"@) == Some(IsolationFloor::MicroVm),
{
    reveal_strlit("unenforced-");
    let u = "unenforced-"@ + s;
    assert(u.subrange(0, 11) =~= "unenforced-"@);
    assert(u.subrange(11, u.len() as int) =~= s);
    reveal_strlit("namespace");
    reveal_strlit("gvisor");
    reveal_strlit("microvm");
    reveal_strlit("NAMESPACE");
    reveal_strlit("GVISOR");
    reveal_strlit("MICROVM");
    assert("namespace"@.len() < 11 && "gvisor"@.len() < 11 && "microvm"@.len() < 11);
    assert(text::ascii_upper("namespace"@) =~= "NAMESPACE"@);
    assert(text::ascii_upper("gvisor"@) =~= "GVISOR"@);
    assert(text::ascii_upper("microvm"@) =~= "MICROVM"@);
    assert("NAMESPACE"@.len() == 9 && "GVISOR"@.len() == 6 && "MICROVM"@.len() == 7);
}

/// A child narrows its parent exactly where no axis of its grant is higher, no part of its budget is
/// larger, it claims no egress that the parent does not, both facets can be read, and its facet claims
/// nothing that the parent's does not.
pub proof fn a_child_narrows_where_nothing_is_larger(parent: ManifestModel, child: ManifestModel)
    ensures
        manifest_widening(parent, child) is None <==> {
            &&& child.grant.filesystem.height() <= parent.grant.filesystem.height()
            &&& child.grant.network.height() <= parent.grant.network.height()
            &&& child.grant.execution.height() <= parent.grant.execution.height()
            &&& child.budget.wall_clock_secs <= parent.budget.wall_clock_secs
            &&& child.budget.max_commands <= parent.budget.max_commands
            &&& child.budget.max_money_cents <= parent.budget.max_money_cents
            &&& child.budget.max_api_calls <= parent.budget.max_api_calls
            &&& forall|i: int|
                0 <= i < child.egress.len() ==> parent.egress.contains(#[trigger] child.egress[i])
            &&& parent.pod_facet() is Ok
            &&& child.pod_facet() is Ok
            &&& parent.pod_facet()->Ok_0.widening(child.pod_facet()->Ok_0) is None
        },
{
    facet::nothing_unlisted_is_a_subset(parent.egress, child.egress);
}

/// A budget that widens is complained of by the part that is larger, with what each side has of it.
pub proof fn a_larger_budget_is_named(parent: Budget, child: Budget)
    ensures
        budget_widening(parent, child) matches Some(e) ==> (e matches ManifestErrorModel::Budget {
            field,
            requested,
            granted,
        } && requested > granted && ((field == "wall_clock_secs"@ && requested
            == child.wall_clock_secs && granted == parent.wall_clock_secs) || (field
            == "max_commands"@ && requested == child.max_commands && granted == parent.max_commands)
            || (field == "max_money_cents"@ && requested == child.max_money_cents && granted
            == parent.max_money_cents) || (field == "max_api_calls"@ && requested
            == child.max_api_calls && granted == parent.max_api_calls))),
{
}

/// A manifest is referred to by its namespace and its name, and by `cluster` where it has no
/// namespace.
pub proof fn a_manifest_is_referred_to_in_full(m: LexManifestModel)
    ensures
        m.metadata.namespace.len() > 0 ==> m.named() == m.metadata.namespace + "/"@
            + m.metadata.name,
        m.metadata.namespace.len() == 0 ==> m.named() == "cluster"@ + "/"@ + m.metadata.name,
{
}

/// A document without a `spec` is no manifest, and one with a `spec` that can be read is one.
pub proof fn a_manifest_needs_a_spec(t: Tree)
    ensures
        t.member("spec"@) is None ==> manifest_of(t) == Err::<
            LexManifestModel,
            ManifestReadErrorModel,
        >(ManifestReadErrorModel::NotAManifest),
        t.member("spec"@) is Some && LexManifest::fault(t) is None ==> manifest_of(t) == Ok::<
            LexManifestModel,
            ManifestReadErrorModel,
        >(LexManifest::value(t)),
{
}

/// A facet that is absent grants nothing by name, and one that cannot be read grants nothing at all.
pub proof fn an_absent_facet_grants_nothing(m: ManifestModel, e: EffectModel)
    ensures
        m.facet is Absent && (e is Secret || e is Capability || e is HostPath || e is Privileged
            || e is HostNamespace || e is HostNetwork) ==> (m.pod_facet() matches Ok(f) && f.denial(
            e,
        ) is Some),
        m.facet is Unreadable ==> m.pod_facet() is Err,
        m.facet matches FacetSlotModel::Pod(f) ==> m.pod_facet() == Ok::<
            PodFacetModel,
            ManifestErrorModel,
        >(f),
{
    if e is Secret || e is Capability || e is HostPath || e is Privileged || e is HostNamespace
        || e is HostNetwork {
        facet::an_empty_facet_grants_nothing(e);
    }
}

} // verus!
