//! The `pod` facet: authority that the trust lattice cannot name.
//!
//! The lattice says how much a pod reaches for; the facet says what. Every field is a lattice of
//! its own: the lists are allow-lists, which narrow by subset, and the booleans are ordered, with
//! `false` below `true`. There is no deny list, because leaving an entry out of one widens it.
//!
//! An empty allow-list grants nothing. The one exception is `image_prefixes`, where an empty list
//! means that the facet does not check images at all.
use vstd::prelude::*;

use crate::cluster;
use crate::cluster::has_image_prefix;
use crate::effect;
use crate::effect::{strip_cap, Effect, EffectModel, ImageDoubt, Reach, SecretVia};
use crate::grant::{Grant, Level};
use crate::json;
use crate::json::{check, check_members, read_field, say_unknown, Json, Members, Readable, Tree};
use crate::text;
use crate::text::{copied, listed, owned, same, show, to_upper};

verus! {

/// What a namespace's pods may reach, by name.
#[derive(Debug, Clone, PartialEq, Eq)]
pub struct PodFacet {
    /// Hosts, `host:port` entries or selectors that a pod may egress to.
    pub egress: Vec<String>,
    /// Secrets that a pod may mount or read into its environment.
    pub secrets: Vec<String>,
    /// Linux capabilities that a pod may add beyond the default set.
    pub capabilities: Vec<String>,
    /// May a pod mount a path from the node?
    pub host_path: bool,
    /// May a pod run privileged?
    pub privileged: bool,
    /// May a pod share the node's namespaces?
    pub host_namespaces: bool,
    /// Image prefixes that the namespace accepts. Empty means that the facet does not check.
    pub image_prefixes: Vec<String>,
    /// What the budget is denominated in. It narrows with everything else: a budget in another unit
    /// is another budget.
    pub currency: String,
}

/// What a [`PodFacet`] says.
#[verifier::ext_equal]
pub struct PodFacetModel {
    pub egress: Seq<Seq<char>>,
    pub secrets: Seq<Seq<char>>,
    pub capabilities: Seq<Seq<char>>,
    pub host_path: bool,
    pub privileged: bool,
    pub host_namespaces: bool,
    pub image_prefixes: Seq<Seq<char>>,
    pub currency: Seq<char>,
}

impl DeepView for PodFacet {
    type V = PodFacetModel;

    open spec fn deep_view(&self) -> PodFacetModel {
        PodFacetModel {
            egress: self.egress.deep_view(),
            secrets: self.secrets.deep_view(),
            capabilities: self.capabilities.deep_view(),
            host_path: self.host_path.deep_view(),
            privileged: self.privileged.deep_view(),
            host_namespaces: self.host_namespaces.deep_view(),
            image_prefixes: self.image_prefixes.deep_view(),
            currency: self.currency.deep_view(),
        }
    }
}

impl Default for PodFacet {
    fn default() -> (r: PodFacet)
        ensures
            r.deep_view() == PodFacet::nothing(),
    {
        let r = PodFacet {
            egress: Vec::new(),
            secrets: Vec::new(),
            capabilities: Vec::new(),
            host_path: false,
            privileged: false,
            host_namespaces: false,
            image_prefixes: Vec::new(),
            currency: default_currency(),
        };
        assert(r.egress.deep_view() =~= Seq::empty());
        assert(r.secrets.deep_view() =~= Seq::empty());
        assert(r.capabilities.deep_view() =~= Seq::empty());
        assert(r.image_prefixes.deep_view() =~= Seq::empty());
        r
    }
}

/// The fields of a grant. Any other is refused rather than ignored: a mis-spelled declaration must
/// not disappear in silence, and with it the policy that it declares.
pub open spec fn facet_fields() -> Seq<Seq<char>> {
    seq![
        "egress"@,
        "secrets"@,
        "capabilities"@,
        "hostPath"@,
        "privileged"@,
        "hostNamespaces"@,
        "imagePrefixes"@,
        "currency"@,
    ]
}

fn known_facet_fields() -> (r: Vec<String>)
    ensures
        r.deep_view() == facet_fields(),
{
    let mut v: Vec<String> = Vec::new();
    v.push(owned("egress"));
    v.push(owned("secrets"));
    v.push(owned("capabilities"));
    v.push(owned("hostPath"));
    v.push(owned("privileged"));
    v.push(owned("hostNamespaces"));
    v.push(owned("imagePrefixes"));
    v.push(owned("currency"));
    assert(v.deep_view() =~= facet_fields());
    v
}

impl Members for PodFacet {
    open spec fn member_fault(name: Seq<char>, v: Tree) -> Option<Seq<char>> {
        if name == "egress"@ {
            <Vec<String> as Readable>::fault(v)
        } else if name == "secrets"@ {
            <Vec<String> as Readable>::fault(v)
        } else if name == "capabilities"@ {
            <Vec<String> as Readable>::fault(v)
        } else if name == "hostPath"@ {
            bool::fault(v)
        } else if name == "privileged"@ {
            bool::fault(v)
        } else if name == "hostNamespaces"@ {
            bool::fault(v)
        } else if name == "imagePrefixes"@ {
            <Vec<String> as Readable>::fault(v)
        } else if name == "currency"@ {
            String::fault(v)
        } else {
            Some(json::unknown_field(name, facet_fields()))
        }
    }

    fn check_member(name: &str, v: &Json) -> (r: Result<(), String>) {
        if same(name, "egress") {
            check::<Vec<String>>(v)
        } else if same(name, "secrets") {
            check::<Vec<String>>(v)
        } else if same(name, "capabilities") {
            check::<Vec<String>>(v)
        } else if same(name, "hostPath") {
            check::<bool>(v)
        } else if same(name, "privileged") {
            check::<bool>(v)
        } else if same(name, "hostNamespaces") {
            check::<bool>(v)
        } else if same(name, "imagePrefixes") {
            check::<Vec<String>>(v)
        } else if same(name, "currency") {
            check::<String>(v)
        } else {
            Err(say_unknown(name, &known_facet_fields()))
        }
    }
}

impl Readable for PodFacet {
    open spec fn fault(t: Tree) -> Option<Seq<char>> {
        let f = t.record_fault("struct PodFacet"@);
        let f = json::first_fault(f, json::members_fault::<PodFacet>(t));
        let f = json::first_fault(f, json::field_fault::<Vec<String>>(t, "egress"@, 0));
        let f = json::first_fault(f, json::field_fault::<Vec<String>>(t, "secrets"@, 1));
        let f = json::first_fault(f, json::field_fault::<Vec<String>>(t, "capabilities"@, 2));
        let f = json::first_fault(f, json::field_fault::<bool>(t, "hostPath"@, 3));
        let f = json::first_fault(f, json::field_fault::<bool>(t, "privileged"@, 4));
        let f = json::first_fault(f, json::field_fault::<bool>(t, "hostNamespaces"@, 5));
        let f = json::first_fault(f, json::field_fault::<Vec<String>>(t, "imagePrefixes"@, 6));
        let f = json::first_fault(f, json::field_fault::<String>(t, "currency"@, 7));
        json::first_fault(f, t.surplus_fault(8))
    }

    open spec fn value(t: Tree) -> PodFacetModel {
        PodFacetModel {
            egress: json::field_value::<Vec<String>>(t, "egress"@, 0),
            secrets: json::field_value::<Vec<String>>(t, "secrets"@, 1),
            capabilities: json::field_value::<Vec<String>>(t, "capabilities"@, 2),
            host_path: json::field_value::<bool>(t, "hostPath"@, 3),
            privileged: json::field_value::<bool>(t, "privileged"@, 4),
            host_namespaces: json::field_value::<bool>(t, "hostNamespaces"@, 5),
            image_prefixes: json::field_value::<Vec<String>>(t, "imagePrefixes"@, 6),
            currency: match t.field("currency"@, 7) {
                Some(c) => String::value(c),
                None => "USD"@,
            },
        }
    }

    open spec fn nothing() -> PodFacetModel {
        PodFacetModel {
            egress: Seq::empty(),
            secrets: Seq::empty(),
            capabilities: Seq::empty(),
            host_path: false,
            privileged: false,
            host_namespaces: false,
            image_prefixes: Seq::empty(),
            currency: "USD"@,
        }
    }

    fn read(j: &Json) -> (r: Result<Self, String>) {
        if let Err(e) = j.check_record("struct PodFacet") {
            return Err(e);
        }
        if let Err(e) = check_members::<PodFacet>(j) {
            return Err(e);
        }
        let egress: Vec<String> = match read_field(j, "egress", 0) {
            Ok(x) => x,
            Err(e) => return Err(e),
        };
        let secrets: Vec<String> = match read_field(j, "secrets", 1) {
            Ok(x) => x,
            Err(e) => return Err(e),
        };
        let capabilities: Vec<String> = match read_field(j, "capabilities", 2) {
            Ok(x) => x,
            Err(e) => return Err(e),
        };
        let host_path: bool = match read_field(j, "hostPath", 3) {
            Ok(x) => x,
            Err(e) => return Err(e),
        };
        let privileged: bool = match read_field(j, "privileged", 4) {
            Ok(x) => x,
            Err(e) => return Err(e),
        };
        let host_namespaces: bool = match read_field(j, "hostNamespaces", 5) {
            Ok(x) => x,
            Err(e) => return Err(e),
        };
        let image_prefixes: Vec<String> = match read_field(j, "imagePrefixes", 6) {
            Ok(x) => x,
            Err(e) => return Err(e),
        };
        let currency: String = match j.field("currency", 7) {
            Some(c) => match String::read(c) {
                Ok(x) => x,
                Err(e) => return Err(e),
            },
            None => default_currency(),
        };
        if let Err(e) = j.check_surplus(8) {
            return Err(e);
        }
        Ok(PodFacet {
            egress,
            secrets,
            capabilities,
            host_path,
            privileged,
            host_namespaces,
            image_prefixes,
            currency,
        })
    }

    fn absent() -> (r: Self) {
        PodFacet::default()
    }
}

/// The currency of a budget that names none.
pub fn default_currency() -> (r: String)
    ensures
        r@ == "USD"@,
{
    owned("USD")
}

/// Why an effect is not authorised by the facet.
#[derive(Debug, Clone, PartialEq, Eq)]
pub enum Denial {
    /// A named thing that the facet does not list.
    NotGranted { what: String, granted: Vec<String> },
    /// A boolean that the facet withholds.
    Withheld { what: String },
}

/// What a [`Denial`] says.
#[verifier::ext_equal]
pub enum DenialModel {
    NotGranted { what: Seq<char>, granted: Seq<Seq<char>> },
    Withheld { what: Seq<char> },
}

impl DeepView for Denial {
    type V = DenialModel;

    open spec fn deep_view(&self) -> DenialModel {
        match self {
            Denial::NotGranted { what, granted } => DenialModel::NotGranted {
                what: what.deep_view(),
                granted: granted.deep_view(),
            },
            Denial::Withheld { what } => DenialModel::Withheld {
                what: what.deep_view(),
            },
        }
    }
}

/// How a child facet widens its parent.
#[derive(Debug, Clone, PartialEq, Eq)]
pub struct FacetError {
    pub detail: String,
}

/// What a [`FacetError`] says.
#[verifier::ext_equal]
pub struct FacetErrorModel {
    pub detail: Seq<char>,
}

impl DeepView for FacetError {
    type V = FacetErrorModel;

    open spec fn deep_view(&self) -> FacetErrorModel {
        FacetErrorModel {
            detail: self.detail.deep_view(),
        }
    }
}

impl DenialModel {
    /// The denial in words.
    pub open spec fn message(self) -> Seq<char> {
        match self {
            DenialModel::NotGranted { what, granted } => if granted.len() == 0 {
                "the manifest grants none, so `"@ + what + "` is not among them"@
            } else {
                "`"@ + what + "` is not among the "@ + text::decimal(granted.len())
                    + " the manifest grants: "@ + text::joined(granted, ", "@)
            },
            DenialModel::Withheld { what } => "the manifest does not grant "@ + what,
        }
    }
}

impl Denial {
    pub fn to_text(&self) -> (r: String)
        ensures
            r@ == self.deep_view().message(),
    {
        match self {
            Denial::NotGranted { what, granted } => if granted.len() == 0 {
                owned("the manifest grants none, so `").concat(what.as_str()).concat(
                    "` is not among them",
                )
            } else {
                owned("`").concat(what.as_str()).concat("` is not among the ").concat(
                    show(granted.len() as u64).as_str(),
                ).concat(" the manifest grants: ").concat(text::join(granted, ", ").as_str())
            },
            Denial::Withheld { what } => owned("the manifest does not grant ").concat(
                what.as_str(),
            ),
        }
    }
}

impl FacetErrorModel {
    /// The error in words.
    pub open spec fn message(self) -> Seq<char> {
        "pod facet: "@ + self.detail
    }
}

impl FacetError {
    pub fn to_text(&self) -> (r: String)
        ensures
            r@ == self.deep_view().message(),
    {
        owned("pod facet: ").concat(self.detail.as_str())
    }
}

// ---------------------------------------------------------------------------------------------
// What a facet admits
// ---------------------------------------------------------------------------------------------
impl PodFacetModel {
    /// Some capability of the facet is the one named, however either side spells it.
    pub open spec fn lists_capability(self, name: Seq<char>) -> bool {
        exists|i: int|
            0 <= i < self.capabilities.len() && effect::capability_name(
                #[trigger] self.capabilities[i],
            ) == effect::capability_name(name)
    }

    /// Why the facet does not authorise an effect by name, where it does not.
    pub open spec fn denial(self, e: EffectModel) -> Option<DenialModel> {
        match e {
            EffectModel::Secret { name, .. } => if self.secrets.contains(name) {
                None
            } else {
                Some(
                    DenialModel::NotGranted {
                        what: "Secret"@ + " `"@ + name + "`"@,
                        granted: self.secrets,
                    },
                )
            },
            EffectModel::Capability { name, .. } => if self.lists_capability(name) {
                None
            } else {
                Some(DenialModel::NotGranted { what: name, granted: self.capabilities })
            },
            EffectModel::HostPath { path, .. } => if self.host_path {
                None
            } else {
                Some(DenialModel::NotGranted { what: path, granted: Seq::empty() })
            },
            EffectModel::Privileged => withheld_unless(
                self.privileged,
                "privileged containers"@,
            ),
            EffectModel::HostNamespace { which } => withheld_unless(
                self.host_namespaces,
                "the node's "@ + which + " namespace"@,
            ),
            EffectModel::HostNetwork => withheld_unless(
                self.host_namespaces,
                "the node's network namespace"@,
            ),
            EffectModel::Egress { reach, .. } => match reach {
                Reach::Nothing | Reach::Allowlist => None,
                Reach::Unrestricted | Reach::NoPolicy => Some(
                    DenialModel::NotGranted { what: "0.0.0.0/0"@, granted: self.egress },
                ),
            },
            EffectModel::UntrustedImage { image, .. } => if self.image_prefixes.len() == 0
                || cluster::under_prefix(image, self.image_prefixes) {
                None
            } else {
                Some(DenialModel::NotGranted { what: image, granted: self.image_prefixes })
            },
            EffectModel::PrivilegeEscalation
            | EffectModel::ApiAccess { .. }
            | EffectModel::Unreadable { .. } => None,
        }
    }

    /// The lattice ceiling that the facet implies, over a base level on the exec axis.
    pub open spec fn ceiling(self, execution: Level) -> Grant {
        Grant {
            filesystem: if self.privileged || self.host_path {
                Level::Full
            } else if self.secrets.len() > 0 {
                Level::ReadOnly
            } else {
                Level::Nothing
            },
            network: if self.host_namespaces {
                Level::Full
            } else if self.egress.len() == 0 {
                Level::Nothing
            } else {
                Level::Allowlist
            },
            execution: if self.privileged || self.host_namespaces {
                Level::Full
            } else if self.capabilities.len() == 0 {
                execution
            } else {
                execution.joined(Level::Sandboxed)
            },
        }
    }
}

/// A boolean that the facet withholds.
pub open spec fn withheld_unless(granted: bool, what: Seq<char>) -> Option<DenialModel> {
    if granted {
        None
    } else {
        Some(DenialModel::Withheld { what })
    }
}

/// What a check says, as the denial that it gives.
pub open spec fn denied(r: Result<(), Denial>) -> Option<DenialModel> {
    match r {
        Ok(()) => None,
        Err(d) => Some(d.deep_view()),
    }
}

fn nothing_listed() -> (r: Vec<String>)
    ensures
        r.deep_view() == Seq::<Seq<char>>::empty(),
{
    let r: Vec<String> = Vec::new();
    assert(r.deep_view() =~= Seq::<Seq<char>>::empty());
    r
}

impl PodFacet {
    /// Is this effect authorised by name? Only the effects that the lattice cannot describe are
    /// checked here: one wall bounds how far, the other bounds where.
    pub fn admits(&self, effect: &Effect) -> (r: Result<(), Denial>)
        ensures
            denied(r) == self.deep_view().denial(effect.deep_view()),
    {
        match effect {
            Effect::Secret { name, .. } => self.named("Secret", name.as_str(), &self.secrets),
            Effect::Capability { name, .. } => if self.has_capability(name.as_str()) {
                Ok(())
            } else {
                Err(
                    Denial::NotGranted { what: name.clone(), granted: copied(&self.capabilities) },
                )
            },
            Effect::HostPath { path, .. } => if self.host_path {
                Ok(())
            } else {
                Err(Denial::NotGranted { what: path.clone(), granted: nothing_listed() })
            },
            Effect::Privileged => self.boolean("privileged containers", self.privileged),
            Effect::HostNamespace { which } => {
                let what = owned("the node's ").concat(which.as_str()).concat(" namespace");
                self.boolean(what.as_str(), self.host_namespaces)
            },
            // The node's network is more than any list of hosts can describe, so it is a matter of
            // namespaces, not of egress.
            Effect::HostNetwork => self.boolean(
                "the node's network namespace",
                self.host_namespaces,
            ),
            Effect::Egress { reach, .. } => match reach {
                Reach::Nothing | Reach::Allowlist => Ok(()),
                // Unbounded reach cannot be admitted by a list of hosts.
                Reach::Unrestricted | Reach::NoPolicy => Err(
                    Denial::NotGranted { what: owned("0.0.0.0/0"), granted: copied(&self.egress) },
                ),
            },
            Effect::UntrustedImage { image, .. } => if self.image_prefixes.len() == 0
                || has_image_prefix(image.as_str(), &self.image_prefixes) {
                Ok(())
            } else {
                Err(
                    Denial::NotGranted {
                        what: image.clone(),
                        granted: copied(&self.image_prefixes),
                    },
                )
            },
            // These are the lattice's: naming them here would check one thing twice.
            Effect::PrivilegeEscalation | Effect::ApiAccess { .. } | Effect::Unreadable { .. } => {
                Ok(())
            },
        }
    }

    /// A copy of the facet.
    pub fn copy(&self) -> (r: PodFacet)
        ensures
            r.deep_view() == self.deep_view(),
    {
        PodFacet {
            egress: copied(&self.egress),
            secrets: copied(&self.secrets),
            capabilities: copied(&self.capabilities),
            host_path: self.host_path,
            privileged: self.privileged,
            host_namespaces: self.host_namespaces,
            image_prefixes: copied(&self.image_prefixes),
            currency: self.currency.clone(),
        }
    }

    /// Does the facet list this capability, however either side spells it?
    fn has_capability(&self, name: &str) -> (r: bool)
        ensures
            r == self.deep_view().lists_capability(name@),
    {
        let ghost all = self.capabilities.deep_view();
        let wanted = strip_cap(name);
        let mut i: usize = 0;
        while i < self.capabilities.len()
            invariant
                i <= self.capabilities.len(),
                all == self.capabilities.deep_view(),
                wanted@ == effect::capability_name(name@),
                forall|k: int|
                    0 <= k < i ==> effect::capability_name(#[trigger] all[k]) != wanted@,
            decreases self.capabilities.len() - i,
        {
            assert(all[i as int] == self.capabilities@[i as int]@);
            if same(strip_cap(self.capabilities[i].as_str()).as_str(), wanted.as_str()) {
                assert(effect::capability_name(self.deep_view().capabilities[i as int]) == wanted@);
                return true;
            }
            i += 1;
        }
        false
    }

    /// Is a named thing among those granted?
    pub fn named(&self, what: &str, name: &str, granted: &Vec<String>) -> (r: Result<(), Denial>)
        ensures
            denied(r) == (if granted.deep_view().contains(name@) {
                None
            } else {
                Some(
                    DenialModel::NotGranted {
                        what: what@ + " `"@ + name@ + "`"@,
                        granted: granted.deep_view(),
                    },
                )
            }),
    {
        if listed(granted, name) {
            Ok(())
        } else {
            Err(
                Denial::NotGranted {
                    what: owned(what).concat(" `").concat(name).concat("`"),
                    granted: copied(granted),
                },
            )
        }
    }

    /// Is a boolean granted?
    pub fn boolean(&self, what: &str, granted: bool) -> (r: Result<(), Denial>)
        ensures
            denied(r) == withheld_unless(granted, what@),
    {
        if granted {
            Ok(())
        } else {
            Err(Denial::Withheld { what: owned(what) })
        }
    }

    /// The grant that this facet implies on its own: an operator writes what pods may do, and the
    /// lattice ceiling follows.
    pub fn implied_grant(&self, execution: Level) -> (r: Grant)
        ensures
            r == self.deep_view().ceiling(execution),
    {
        let filesystem = if self.privileged || self.host_path {
            Level::Full
        } else if self.secrets.len() > 0 {
            Level::ReadOnly
        } else {
            Level::Nothing
        };
        let network = if self.host_namespaces {
            Level::Full
        } else if self.egress.len() == 0 {
            Level::Nothing
        } else {
            Level::Allowlist
        };
        let execution = if self.privileged || self.host_namespaces {
            Level::Full
        } else if self.capabilities.len() == 0 {
            execution
        } else {
            execution.join(Level::Sandboxed)
        };
        Grant::new(filesystem, network, execution)
    }
}

// ---------------------------------------------------------------------------------------------
// Narrowing
// ---------------------------------------------------------------------------------------------
/// The first entry of `child` that `parent` does not list.
pub open spec fn first_unlisted(parent: Seq<Seq<char>>, child: Seq<Seq<char>>) -> Option<Seq<char>>
    decreases child.len(),
{
    if child.len() == 0 {
        None
    } else if !parent.contains(child[0]) {
        Some(child[0])
    } else {
        first_unlisted(parent, child.drop_first())
    }
}

/// Every entry of `child` is one of `parent`.
pub open spec fn is_subset(parent: Seq<Seq<char>>, child: Seq<Seq<char>>) -> bool {
    forall|i: int| 0 <= i < child.len() ==> parent.contains(#[trigger] child[i])
}

/// A list has no entry that the parent does not list exactly where it is a subset.
pub proof fn nothing_unlisted_is_a_subset(parent: Seq<Seq<char>>, child: Seq<Seq<char>>)
    ensures
        first_unlisted(parent, child) is None <==> is_subset(parent, child),
        first_unlisted(parent, child) matches Some(e) ==> child.contains(e) && !parent.contains(e),
    decreases child.len(),
{
    if child.len() > 0 && parent.contains(child[0]) {
        let rest = child.drop_first();
        nothing_unlisted_is_a_subset(parent, rest);
        if is_subset(parent, rest) {
            assert forall|i: int| 0 <= i < child.len() implies parent.contains(
                #[trigger] child[i],
            ) by {
                if i > 0 {
                    assert(child[i] == rest[i - 1]);
                }
            }
        }
        if is_subset(parent, child) {
            assert forall|i: int| 0 <= i < rest.len() implies parent.contains(
                #[trigger] rest[i],
            ) by {
                assert(rest[i] == child[i + 1]);
            }
        }
        if let Some(e) = first_unlisted(parent, rest) {
            let i = choose|i: int| 0 <= i < rest.len() && rest[i] == e;
            assert(child[i + 1] == e);
        }
    } else if child.len() > 0 {
        assert(child.contains(child[0]));
    }
}

/// The complaint that an allow-list widens.
pub open spec fn list_complaint(
    field: Seq<char>,
    parent: Seq<Seq<char>>,
    child: Seq<Seq<char>>,
) -> Option<Seq<char>> {
    match first_unlisted(parent, child) {
        Some(e) => Some(field + ": child claims `"@ + e + "`, which the parent does not grant"@),
        None => None,
    }
}

/// The complaint that an ordered boolean widens.
pub open spec fn flag_complaint(field: Seq<char>, parent: bool, child: bool) -> Option<Seq<char>> {
    if child && !parent {
        Some(
            field
                + ": child claims it, and the parent does not grant it (a team lead hands out authority they hold, never authority they do not)"@,
        )
    } else {
        None
    }
}

/// The complaint that the image policy is dropped: without prefixes no image is checked.
pub open spec fn image_policy_complaint(parent: Seq<Seq<char>>, child: Seq<Seq<char>>) -> Option<
    Seq<char>,
> {
    if child.len() == 0 && parent.len() > 0 {
        Some(
            "imagePrefixes: child names none, so it would check no image, and the parent holds images to its own (a team lead hands out authority they hold, never authority they do not)"@,
        )
    } else {
        None
    }
}

/// The complaint that the budget is in another currency.
pub open spec fn currency_complaint(parent: Seq<char>, child: Seq<char>) -> Option<Seq<char>> {
    if text::ascii_upper(parent) == text::ascii_upper(child) {
        None
    } else {
        Some(
            "currency: child is denominated in `"@ + child + "` but the parent grants `"@ + parent
                + "` — a budget in another unit is a different budget"@,
        )
    }
}

impl PodFacetModel {
    /// The first complaint about `child` as a narrowing of `self`.
    pub open spec fn widening(self, child: PodFacetModel) -> Option<Seq<char>> {
        let c = list_complaint("egress"@, self.egress, child.egress);
        let c = json::first_fault(c, list_complaint("secrets"@, self.secrets, child.secrets));
        let c = json::first_fault(
            c,
            list_complaint("capabilities"@, self.capabilities, child.capabilities),
        );
        let c = json::first_fault(
            c,
            list_complaint("imagePrefixes"@, self.image_prefixes, child.image_prefixes),
        );
        let c = json::first_fault(
            c,
            image_policy_complaint(self.image_prefixes, child.image_prefixes),
        );
        let c = json::first_fault(c, currency_complaint(self.currency, child.currency));
        let c = json::first_fault(c, flag_complaint("hostPath"@, self.host_path, child.host_path));
        let c = json::first_fault(
            c,
            flag_complaint("privileged"@, self.privileged, child.privileged),
        );
        json::first_fault(
            c,
            flag_complaint("hostNamespaces"@, self.host_namespaces, child.host_namespaces),
        )
    }

    /// `child` grants nothing by name that `self` does not, in the same currency.
    pub open spec fn narrows_to(self, child: PodFacetModel) -> bool {
        &&& is_subset(self.egress, child.egress)
        &&& is_subset(self.secrets, child.secrets)
        &&& is_subset(self.capabilities, child.capabilities)
        &&& is_subset(self.image_prefixes, child.image_prefixes)
        &&& child.image_prefixes.len() == 0 ==> self.image_prefixes.len() == 0
        &&& text::ascii_upper(self.currency) == text::ascii_upper(child.currency)
        &&& child.host_path ==> self.host_path
        &&& child.privileged ==> self.privileged
        &&& child.host_namespaces ==> self.host_namespaces
    }
}

/// An allow-list narrows by subset.
fn narrow_allowlist(field: &str, parent: &Vec<String>, child: &Vec<String>) -> (r: Result<
    (),
    FacetError,
>)
    ensures
        match r {
            Ok(()) => list_complaint(field@, parent.deep_view(), child.deep_view()) is None,
            Err(e) => list_complaint(field@, parent.deep_view(), child.deep_view()) == Some(
                e.detail@,
            ),
        },
{
    let ghost p = parent.deep_view();
    let ghost all = child.deep_view();
    let mut i: usize = 0;
    assert(all.subrange(0, all.len() as int) =~= all);
    while i < child.len()
        invariant
            i <= child.len(),
            p == parent.deep_view(),
            all == child.deep_view(),
            first_unlisted(p, all) == first_unlisted(p, all.subrange(i as int, all.len() as int)),
        decreases child.len() - i,
    {
        let ghost rest = all.subrange(i as int, all.len() as int);
        assert(rest[0] == child@[i as int]@);
        if !listed(parent, child[i].as_str()) {
            return Err(
                FacetError {
                    detail: owned(field).concat(": child claims `").concat(
                        child[i].as_str(),
                    ).concat("`, which the parent does not grant"),
                },
            );
        }
        assert(rest.drop_first() =~= all.subrange(i + 1, all.len() as int));
        i += 1;
    }
    Ok(())
}

/// An ordered boolean narrows from `true` to `false`.
fn narrow_flag(field: &str, parent: bool, child: bool) -> (r: Result<(), FacetError>)
    ensures
        match r {
            Ok(()) => flag_complaint(field@, parent, child) is None,
            Err(e) => flag_complaint(field@, parent, child) == Some(e.detail@),
        },
{
    if child && !parent {
        Err(
            FacetError {
                detail: owned(field).concat(
                    ": child claims it, and the parent does not grant it (a team lead hands out authority they hold, never authority they do not)",
                ),
            },
        )
    } else {
        Ok(())
    }
}

/// A child may not drop its parent's image policy.
fn narrow_image_policy(parent: &Vec<String>, child: &Vec<String>) -> (r: Result<(), FacetError>)
    ensures
        match r {
            Ok(()) => image_policy_complaint(parent.deep_view(), child.deep_view()) is None,
            Err(e) => image_policy_complaint(parent.deep_view(), child.deep_view()) == Some(
                e.detail@,
            ),
        },
{
    if child.len() == 0 && parent.len() > 0 {
        Err(
            FacetError {
                detail: owned(
                    "imagePrefixes: child names none, so it would check no image, and the parent holds images to its own (a team lead hands out authority they hold, never authority they do not)",
                ),
            },
        )
    } else {
        Ok(())
    }
}

/// A child may not redenominate its budget.
fn narrow_currency(parent: &str, child: &str) -> (r: Result<(), FacetError>)
    ensures
        match r {
            Ok(()) => currency_complaint(parent@, child@) is None,
            Err(e) => currency_complaint(parent@, child@) == Some(e.detail@),
        },
{
    if same(to_upper(parent).as_str(), to_upper(child).as_str()) {
        Ok(())
    } else {
        Err(
            FacetError {
                detail: owned("currency: child is denominated in `").concat(child).concat(
                    "` but the parent grants `",
                ).concat(parent).concat("` — a budget in another unit is a different budget"),
            },
        )
    }
}

impl PodFacet {
    /// Is `child` a narrowing of `parent`?
    pub fn validate_narrowing(parent: &PodFacet, child: &PodFacet) -> (r: Result<(), FacetError>)
        ensures
            match r {
                Ok(()) => parent.deep_view().widening(child.deep_view()) is None,
                Err(e) => parent.deep_view().widening(child.deep_view()) == Some(e.detail@),
            },
            r is Ok <==> parent.deep_view().narrows_to(child.deep_view()),
    {
        proof {
            nothing_widens_is_a_narrowing(parent.deep_view(), child.deep_view());
        }
        if let Err(e) = narrow_allowlist("egress", &parent.egress, &child.egress) {
            return Err(e);
        }
        if let Err(e) = narrow_allowlist("secrets", &parent.secrets, &child.secrets) {
            return Err(e);
        }
        if let Err(e) = narrow_allowlist("capabilities", &parent.capabilities, &child.capabilities) {
            return Err(e);
        }
        // An empty parent list is the tightest image policy that a facet can express here, so a
        // child that adds prefixes widens it. A child that drops them checks no image at all.
        if let Err(e) = narrow_allowlist(
            "imagePrefixes",
            &parent.image_prefixes,
            &child.image_prefixes,
        ) {
            return Err(e);
        }
        if let Err(e) = narrow_image_policy(&parent.image_prefixes, &child.image_prefixes) {
            return Err(e);
        }
        if let Err(e) = narrow_currency(parent.currency.as_str(), child.currency.as_str()) {
            return Err(e);
        }
        if let Err(e) = narrow_flag("hostPath", parent.host_path, child.host_path) {
            return Err(e);
        }
        if let Err(e) = narrow_flag("privileged", parent.privileged, child.privileged) {
            return Err(e);
        }
        narrow_flag("hostNamespaces", parent.host_namespaces, child.host_namespaces)
    }
}

/// A facet narrows exactly where nothing in it widens.
pub proof fn nothing_widens_is_a_narrowing(parent: PodFacetModel, child: PodFacetModel)
    ensures
        parent.widening(child) is None <==> parent.narrows_to(child),
{
    nothing_unlisted_is_a_subset(parent.egress, child.egress);
    nothing_unlisted_is_a_subset(parent.secrets, child.secrets);
    nothing_unlisted_is_a_subset(parent.capabilities, child.capabilities);
    nothing_unlisted_is_a_subset(parent.image_prefixes, child.image_prefixes);
}

// ---------------------------------------------------------------------------------------------
// Laws
// ---------------------------------------------------------------------------------------------
/// Narrowing of facets is reflexive.
pub proof fn facet_narrowing_is_reflexive(f: PodFacetModel)
    ensures
        f.narrows_to(f),
{
}

/// Narrowing of facets is transitive: whoever hands out authority they hold cannot end up with a
/// grandchild that holds more than they do.
pub proof fn facet_narrowing_is_transitive(a: PodFacetModel, b: PodFacetModel, c: PodFacetModel)
    requires
        a.narrows_to(b),
        b.narrows_to(c),
    ensures
        a.narrows_to(c),
{
    subset_is_transitive(a.egress, b.egress, c.egress);
    subset_is_transitive(a.secrets, b.secrets, c.secrets);
    subset_is_transitive(a.capabilities, b.capabilities, c.capabilities);
    subset_is_transitive(a.image_prefixes, b.image_prefixes, c.image_prefixes);
}

proof fn subset_is_transitive(a: Seq<Seq<char>>, b: Seq<Seq<char>>, c: Seq<Seq<char>>)
    requires
        is_subset(a, b),
        is_subset(b, c),
    ensures
        is_subset(a, c),
{
    assert forall|i: int| 0 <= i < c.len() implies a.contains(#[trigger] c[i]) by {
        let j = choose|j: int| 0 <= j < b.len() && b[j] == c[i];
        assert(a.contains(b[j]));
    }
}

/// A child that narrows its parent authorises no effect that the parent does not.
pub proof fn a_child_authorises_no_more_than_its_parent(
    parent: PodFacetModel,
    child: PodFacetModel,
    e: EffectModel,
)
    requires
        parent.narrows_to(child),
        child.denial(e) is None,
    ensures
        parent.denial(e) is None,
{
    match e {
        EffectModel::Secret { name, .. } => {
            let i = choose|i: int| 0 <= i < child.secrets.len() && child.secrets[i] == name;
            assert(parent.secrets.contains(child.secrets[i]));
        },
        EffectModel::Capability { name, .. } => {
            let i = choose|i: int|
                0 <= i < child.capabilities.len() && effect::capability_name(
                    #[trigger] child.capabilities[i],
                ) == effect::capability_name(name);
            assert(parent.capabilities.contains(child.capabilities[i]));
            let j = choose|j: int|
                0 <= j < parent.capabilities.len() && parent.capabilities[j]
                    == child.capabilities[i];
            assert(effect::capability_name(parent.capabilities[j]) == effect::capability_name(
                name,
            ));
        },
        EffectModel::UntrustedImage { image, .. } => if child.image_prefixes.len() > 0 {
            let i = choose|i: int|
                0 <= i < child.image_prefixes.len() && (#[trigger] child.image_prefixes[i]).len()
                    > 0 && text::starts_with(image, child.image_prefixes[i]);
            assert(parent.image_prefixes.contains(child.image_prefixes[i]));
            let j = choose|j: int|
                0 <= j < parent.image_prefixes.len() && parent.image_prefixes[j]
                    == child.image_prefixes[i];
            assert(parent.image_prefixes[j].len() > 0);
        },
        _ => {},
    }
}

/// Where the facet narrows, so does the lattice ceiling that it implies.
pub proof fn a_narrower_facet_implies_a_narrower_ceiling(
    parent: PodFacetModel,
    child: PodFacetModel,
    above: Level,
    below: Level,
)
    requires
        parent.narrows_to(child),
        below.height() <= above.height(),
    ensures
        child.ceiling(below).fits(parent.ceiling(above)),
{
    if child.secrets.len() > 0 {
        assert(parent.secrets.contains(child.secrets[0]));
    }
    if child.egress.len() > 0 {
        assert(parent.egress.contains(child.egress[0]));
    }
    if child.capabilities.len() > 0 {
        assert(parent.capabilities.contains(child.capabilities[0]));
    }
}

/// An empty facet grants nothing by name: no Secret, no capability, no path on the node, no
/// privilege, no namespace of the node and no unbounded egress.
pub proof fn an_empty_facet_grants_nothing(e: EffectModel)
    requires
        e is Secret || e is Capability || e is HostPath || e is Privileged || e is HostNamespace
            || e is HostNetwork || (e is Egress && (e->reach is Unrestricted || e->reach is NoPolicy)),
    ensures
        PodFacet::nothing().denial(e) is Some,
{
}

/// A capability is authorised however either side spells it: only its plain name counts.
pub proof fn a_capability_is_one_however_it_is_spelled(
    f: PodFacetModel,
    a: Seq<char>,
    b: Seq<char>,
    dangerous: bool,
)
    requires
        effect::capability_name(a) == effect::capability_name(b),
    ensures
        f.denial(EffectModel::Capability { name: a, dangerous }) is None <==> f.denial(
            EffectModel::Capability { name: b, dangerous },
        ) is None,
{
}

/// Each flag alone decides what it is named for: a path on the node, whatever the path and however it
/// is mounted; privileged containers; and the node's namespaces, its network among them.
pub proof fn each_flag_decides_its_own_effect(
    f: PodFacetModel,
    path: Seq<char>,
    writable: bool,
    which: Seq<char>,
)
    ensures
        f.denial(EffectModel::HostPath { path, writable }) is None <==> f.host_path,
        f.denial(EffectModel::Privileged) is None <==> f.privileged,
        f.denial(EffectModel::HostNetwork) is None <==> f.host_namespaces,
        f.denial(EffectModel::HostNamespace { which }) is None <==> f.host_namespaces,
{
}

/// Each list alone decides what it names: a Secret is authorised exactly where it is listed, however
/// it reaches the container, and a capability exactly where one of the same plain name is. No list
/// authorises egress without bounds, and egress within bounds needs no name.
pub proof fn each_list_decides_its_own_effect(
    f: PodFacetModel,
    name: Seq<char>,
    via: SecretVia,
    dangerous: bool,
    reach: Reach,
    policies: Seq<Seq<char>>,
)
    ensures
        f.denial(EffectModel::Secret { name, via }) is None <==> f.secrets.contains(name),
        f.denial(EffectModel::Capability { name, dangerous }) is None <==> exists|i: int|
            0 <= i < f.capabilities.len() && effect::capability_name(#[trigger] f.capabilities[i])
                == effect::capability_name(name),
        f.denial(EffectModel::Egress { reach, policies }) is None <==> (reach is Nothing
            || reach is Allowlist),
{
}

/// An image in doubt is authorised exactly where the facet names no prefixes at all, or one that the
/// image begins with. An empty prefix authorises nothing.
pub proof fn an_image_is_authorised_by_prefix(f: PodFacetModel, image: Seq<char>, why: ImageDoubt)
    ensures
        f.denial(EffectModel::UntrustedImage { image, why }) is None <==> (f.image_prefixes.len() == 0
            || exists|i: int|
            0 <= i < f.image_prefixes.len() && 0 < (#[trigger] f.image_prefixes[i]).len()
                <= image.len() && image.subrange(0, f.image_prefixes[i].len() as int)
                == f.image_prefixes[i]),
{
    if exists|i: int|
        0 <= i < f.image_prefixes.len() && 0 < (#[trigger] f.image_prefixes[i]).len() <= image.len()
            && image.subrange(0, f.image_prefixes[i].len() as int) == f.image_prefixes[i] {
        let i = choose|i: int|
            0 <= i < f.image_prefixes.len() && 0 < (#[trigger] f.image_prefixes[i]).len()
                <= image.len() && image.subrange(0, f.image_prefixes[i].len() as int)
                == f.image_prefixes[i];
        assert(text::starts_with(image, f.image_prefixes[i]));
    }
}

/// What the lattice describes in full is left to the lattice: the facet denies no escalation, no
/// access to the API and nothing that could not be read.
pub proof fn what_the_lattice_bounds_is_not_named(f: PodFacetModel, e: EffectModel)
    requires
        e is PrivilegeEscalation || e is ApiAccess || e is Unreadable,
    ensures
        f.denial(e) is None,
{
}

/// A denial of something that a list could name gives that list, and no other.
pub proof fn a_denial_shows_the_list_it_was_held_to(f: PodFacetModel, e: EffectModel)
    ensures
        f.denial(e) matches Some(DenialModel::NotGranted { granted, .. }) ==> (e is Secret
            ==> granted == f.secrets) && (e is Capability ==> granted == f.capabilities) && (
        e is Egress ==> granted == f.egress) && (e is UntrustedImage ==> granted
            == f.image_prefixes) && (e is HostPath ==> granted.len() == 0),
        f.denial(e) matches Some(DenialModel::Withheld { .. }) ==> e is Privileged
            || e is HostNamespace || e is HostNetwork,
{
}

/// The ceiling covers what the facet grants by name: whatever the base level, an effect that a flag or
/// the list of Secrets authorises fits the ceiling that the facet implies. A capability that it lists
/// fits too, unless it is a way out of the container.
pub proof fn the_ceiling_covers_what_is_named(f: PodFacetModel, base: Level, e: EffectModel)
    requires
        f.denial(e) is None,
        e is HostNetwork || e is HostNamespace || e is Privileged || e is HostPath || e is Secret || (
        e matches EffectModel::Capability { dangerous, .. } && !dangerous),
    ensures
        e.demanded().fits(f.ceiling(base)),
{
    if e is Secret {
        assert(f.secrets.len() > 0);
    }
    if e is Capability {
        assert(f.capabilities.len() > 0);
    }
}

/// The ceiling covers no more than the facet names. The filesystem beyond Secrets takes a node path or
/// privilege; the network takes a destination, and the whole of it the node's namespaces; and exec
/// rises above the base level only for a capability, for privilege or for the node's namespaces.
pub proof fn the_ceiling_covers_nothing_else(f: PodFacetModel, base: Level)
    ensures
        f.ceiling(base).filesystem.height() > Level::ReadOnly.height() <==> f.host_path
            || f.privileged,
        f.ceiling(base).filesystem == Level::Nothing <==> !f.host_path && !f.privileged
            && f.secrets.len() == 0,
        f.ceiling(base).network == Level::Full <==> f.host_namespaces,
        f.ceiling(base).network == Level::Nothing <==> !f.host_namespaces && f.egress.len() == 0,
        f.egress.len() > 0 ==> Level::Allowlist.height() <= f.ceiling(base).network.height(),
        f.ceiling(base).execution == Level::Full <==> base == Level::Full || f.privileged
            || f.host_namespaces,
        f.ceiling(base).execution.height() >= base.height(),
        f.ceiling(base).execution != base ==> f.privileged || f.host_namespaces
            || f.capabilities.len() > 0,
        f.capabilities.len() > 0 && !f.privileged && !f.host_namespaces
            ==> f.ceiling(base).execution == base || f.ceiling(base).execution == Level::Sandboxed,
        f.capabilities.len() > 0 ==> f.ceiling(base).execution.height()
            >= Level::Sandboxed.height(),
{
}

/// A child narrows its parent exactly where it lists nothing that the parent does not, claims no flag
/// that the parent does not hold, keeps an image policy where the parent has one and is denominated
/// alike.
pub proof fn a_narrowing_claims_nothing_new(parent: PodFacetModel, child: PodFacetModel)
    ensures
        parent.widening(child) is None <==> {
            &&& forall|x: Seq<char>| #[trigger] child.egress.contains(x) ==> parent.egress.contains(x)
            &&& forall|x: Seq<char>| #[trigger]
                child.secrets.contains(x) ==> parent.secrets.contains(x)
            &&& forall|x: Seq<char>| #[trigger]
                child.capabilities.contains(x) ==> parent.capabilities.contains(x)
            &&& forall|x: Seq<char>| #[trigger]
                child.image_prefixes.contains(x) ==> parent.image_prefixes.contains(x)
            &&& parent.image_prefixes.len() > 0 ==> child.image_prefixes.len() > 0
            &&& text::ascii_upper(parent.currency) == text::ascii_upper(child.currency)
            &&& child.host_path ==> parent.host_path
            &&& child.privileged ==> parent.privileged
            &&& child.host_namespaces ==> parent.host_namespaces
        },
{
    nothing_widens_is_a_narrowing(parent, child);
    subset_by_entry(parent.egress, child.egress);
    subset_by_entry(parent.secrets, child.secrets);
    subset_by_entry(parent.capabilities, child.capabilities);
    subset_by_entry(parent.image_prefixes, child.image_prefixes);
}

proof fn subset_by_entry(parent: Seq<Seq<char>>, child: Seq<Seq<char>>)
    ensures
        is_subset(parent, child) <==> forall|x: Seq<char>| #[trigger]
            child.contains(x) ==> parent.contains(x),
{
    if forall|x: Seq<char>| #[trigger] child.contains(x) ==> parent.contains(x) {
        assert forall|i: int| 0 <= i < child.len() implies parent.contains(#[trigger] child[i]) by {
            assert(child.contains(child[i]));
        }
    }
}

/// A pod facet is read field by field: each from the member of its name or the item of its place, and left
/// empty where there is neither.
pub proof fn a_pod_facet_is_read_field_by_field(
    members: Seq<(Seq<char>, Tree)>,
    items: Seq<Tree>,
    i: int,
)
    requires
        json::are_distinct(members),
    ensures
        0 <= i < members.len() && members[i].0 == "egress"@ ==> PodFacet::value(Tree::Object(members)).egress
            == <Vec<String> as Readable>::value(members[i].1),
        !json::is_there(members, "egress"@) ==> PodFacet::value(Tree::Object(members)).egress == <Vec<String> as Readable>::nothing(),
        items.len() > 0 ==> PodFacet::value(Tree::List(items)).egress == <Vec<String> as Readable>::value(items[0]),
        0 <= i < members.len() && members[i].0 == "secrets"@ ==> PodFacet::value(Tree::Object(members)).secrets
            == <Vec<String> as Readable>::value(members[i].1),
        !json::is_there(members, "secrets"@) ==> PodFacet::value(Tree::Object(members)).secrets == <Vec<String> as Readable>::nothing(),
        items.len() > 1 ==> PodFacet::value(Tree::List(items)).secrets == <Vec<String> as Readable>::value(items[1]),
        0 <= i < members.len() && members[i].0 == "capabilities"@ ==> PodFacet::value(Tree::Object(members)).capabilities
            == <Vec<String> as Readable>::value(members[i].1),
        !json::is_there(members, "capabilities"@) ==> PodFacet::value(Tree::Object(members)).capabilities == <Vec<String> as Readable>::nothing(),
        items.len() > 2 ==> PodFacet::value(Tree::List(items)).capabilities == <Vec<String> as Readable>::value(items[2]),
        0 <= i < members.len() && members[i].0 == "hostPath"@ ==> PodFacet::value(Tree::Object(members)).host_path
            == bool::value(members[i].1),
        !json::is_there(members, "hostPath"@) ==> PodFacet::value(Tree::Object(members)).host_path == bool::nothing(),
        items.len() > 3 ==> PodFacet::value(Tree::List(items)).host_path == bool::value(items[3]),
        0 <= i < members.len() && members[i].0 == "privileged"@ ==> PodFacet::value(Tree::Object(members)).privileged
            == bool::value(members[i].1),
        !json::is_there(members, "privileged"@) ==> PodFacet::value(Tree::Object(members)).privileged == bool::nothing(),
        items.len() > 4 ==> PodFacet::value(Tree::List(items)).privileged == bool::value(items[4]),
        0 <= i < members.len() && members[i].0 == "hostNamespaces"@ ==> PodFacet::value(Tree::Object(members)).host_namespaces
            == bool::value(members[i].1),
        !json::is_there(members, "hostNamespaces"@) ==> PodFacet::value(Tree::Object(members)).host_namespaces == bool::nothing(),
        items.len() > 5 ==> PodFacet::value(Tree::List(items)).host_namespaces == bool::value(items[5]),
        0 <= i < members.len() && members[i].0 == "imagePrefixes"@ ==> PodFacet::value(Tree::Object(members)).image_prefixes
            == <Vec<String> as Readable>::value(members[i].1),
        !json::is_there(members, "imagePrefixes"@) ==> PodFacet::value(Tree::Object(members)).image_prefixes == <Vec<String> as Readable>::nothing(),
        items.len() > 6 ==> PodFacet::value(Tree::List(items)).image_prefixes == <Vec<String> as Readable>::value(items[6]),
        0 <= i < members.len() && members[i].0 == "currency"@ ==> PodFacet::value(Tree::Object(members)).currency
            == String::value(members[i].1),
        !json::is_there(members, "currency"@) ==> PodFacet::value(Tree::Object(members)).currency == "USD"@,
{
    json::a_member_is_found_by_name(members, "currency"@);
    if 0 <= i < members.len() && members[i].0 == "currency"@ {
        json::a_first_member_is_found(members, i);
    }
    json::a_field_is_read_by_name_or_place::<Vec<String>>(members, items, i, "egress"@, 0);
    json::a_field_is_read_by_name_or_place::<Vec<String>>(members, items, i, "secrets"@, 1);
    json::a_field_is_read_by_name_or_place::<Vec<String>>(members, items, i, "capabilities"@, 2);
    json::a_field_is_read_by_name_or_place::<bool>(members, items, i, "hostPath"@, 3);
    json::a_field_is_read_by_name_or_place::<bool>(members, items, i, "privileged"@, 4);
    json::a_field_is_read_by_name_or_place::<bool>(members, items, i, "hostNamespaces"@, 5);
    json::a_field_is_read_by_name_or_place::<Vec<String>>(members, items, i, "imagePrefixes"@, 6);
    json::a_field_is_read_by_name_or_place::<String>(members, items, i, "currency"@, 7);
}

/// A pod facet is read wherever each of its members can be.
pub proof fn a_pod_facet_is_read_where_its_members_are(members: Seq<(Seq<char>, Tree)>)
    requires
        json::are_distinct(members),
        forall|j: int|
            0 <= j < members.len() && (#[trigger] members[j]).0 == "egress"@ ==> <Vec<String> as Readable>::fault(members[j].1) is None,
        forall|j: int|
            0 <= j < members.len() && (#[trigger] members[j]).0 == "secrets"@ ==> <Vec<String> as Readable>::fault(members[j].1) is None,
        forall|j: int|
            0 <= j < members.len() && (#[trigger] members[j]).0 == "capabilities"@ ==> <Vec<String> as Readable>::fault(members[j].1) is None,
        forall|j: int|
            0 <= j < members.len() && (#[trigger] members[j]).0 == "hostPath"@ ==> bool::fault(members[j].1) is None,
        forall|j: int|
            0 <= j < members.len() && (#[trigger] members[j]).0 == "privileged"@ ==> bool::fault(members[j].1) is None,
        forall|j: int|
            0 <= j < members.len() && (#[trigger] members[j]).0 == "hostNamespaces"@ ==> bool::fault(members[j].1) is None,
        forall|j: int|
            0 <= j < members.len() && (#[trigger] members[j]).0 == "imagePrefixes"@ ==> <Vec<String> as Readable>::fault(members[j].1) is None,
        forall|j: int|
            0 <= j < members.len() && (#[trigger] members[j]).0 == "currency"@ ==> String::fault(members[j].1) is None,
        forall|j: int|
            0 <= j < members.len() ==> (#[trigger] members[j]).0 == "egress"@ || members[j].0 == "secrets"@ || members[j].0 == "capabilities"@ || members[j].0 == "hostPath"@ || members[j].0 == "privileged"@ || members[j].0 == "hostNamespaces"@ || members[j].0 == "imagePrefixes"@ || members[j].0 == "currency"@,
    ensures
        PodFacet::fault(Tree::Object(members)) is None,
{
    assert forall|j: int| 0 <= j < members.len() implies PodFacet::member_fault(
        (#[trigger] members[j]).0,
        members[j].1,
    ) is None by {}
    json::members_are_read_where_each_is::<PodFacet>(members);
    assert(json::field_fault::<Vec<String>>(Tree::Object(members), "egress"@, 0) is None) by {
        json::a_member_is_found_by_name(members, "egress"@);
        if let Some(v) = json::lookup(members, "egress"@) {
            let j = choose|j: int| 0 <= j < members.len() && members[j] == ("egress"@, v);
            assert(members[j].0 == "egress"@);
        }
    }
    assert(json::field_fault::<Vec<String>>(Tree::Object(members), "secrets"@, 1) is None) by {
        json::a_member_is_found_by_name(members, "secrets"@);
        if let Some(v) = json::lookup(members, "secrets"@) {
            let j = choose|j: int| 0 <= j < members.len() && members[j] == ("secrets"@, v);
            assert(members[j].0 == "secrets"@);
        }
    }
    assert(json::field_fault::<Vec<String>>(Tree::Object(members), "capabilities"@, 2) is None) by {
        json::a_member_is_found_by_name(members, "capabilities"@);
        if let Some(v) = json::lookup(members, "capabilities"@) {
            let j = choose|j: int| 0 <= j < members.len() && members[j] == ("capabilities"@, v);
            assert(members[j].0 == "capabilities"@);
        }
    }
    assert(json::field_fault::<bool>(Tree::Object(members), "hostPath"@, 3) is None) by {
        json::a_member_is_found_by_name(members, "hostPath"@);
        if let Some(v) = json::lookup(members, "hostPath"@) {
            let j = choose|j: int| 0 <= j < members.len() && members[j] == ("hostPath"@, v);
            assert(members[j].0 == "hostPath"@);
        }
    }
    assert(json::field_fault::<bool>(Tree::Object(members), "privileged"@, 4) is None) by {
        json::a_member_is_found_by_name(members, "privileged"@);
        if let Some(v) = json::lookup(members, "privileged"@) {
            let j = choose|j: int| 0 <= j < members.len() && members[j] == ("privileged"@, v);
            assert(members[j].0 == "privileged"@);
        }
    }
    assert(json::field_fault::<bool>(Tree::Object(members), "hostNamespaces"@, 5) is None) by {
        json::a_member_is_found_by_name(members, "hostNamespaces"@);
        if let Some(v) = json::lookup(members, "hostNamespaces"@) {
            let j = choose|j: int| 0 <= j < members.len() && members[j] == ("hostNamespaces"@, v);
            assert(members[j].0 == "hostNamespaces"@);
        }
    }
    assert(json::field_fault::<Vec<String>>(Tree::Object(members), "imagePrefixes"@, 6) is None) by {
        json::a_member_is_found_by_name(members, "imagePrefixes"@);
        if let Some(v) = json::lookup(members, "imagePrefixes"@) {
            let j = choose|j: int| 0 <= j < members.len() && members[j] == ("imagePrefixes"@, v);
            assert(members[j].0 == "imagePrefixes"@);
        }
    }
    assert(json::field_fault::<String>(Tree::Object(members), "currency"@, 7) is None) by {
        json::a_member_is_found_by_name(members, "currency"@);
        if let Some(v) = json::lookup(members, "currency"@) {
            let j = choose|j: int| 0 <= j < members.len() && members[j] == ("currency"@, v);
            assert(members[j].0 == "currency"@);
        }
    }
}

/// A pod facet is refused for any one member that cannot be read.
pub proof fn a_pod_facet_is_refused_for_one_member(members: Seq<(Seq<char>, Tree)>, i: int)
    requires
        json::are_distinct(members),
    ensures
        0 <= i < members.len() && members[i].0 == "egress"@ && <Vec<String> as Readable>::fault(members[i].1) is Some
            ==> PodFacet::fault(Tree::Object(members)) is Some,
        0 <= i < members.len() && members[i].0 == "secrets"@ && <Vec<String> as Readable>::fault(members[i].1) is Some
            ==> PodFacet::fault(Tree::Object(members)) is Some,
        0 <= i < members.len() && members[i].0 == "capabilities"@ && <Vec<String> as Readable>::fault(members[i].1) is Some
            ==> PodFacet::fault(Tree::Object(members)) is Some,
        0 <= i < members.len() && members[i].0 == "hostPath"@ && bool::fault(members[i].1) is Some
            ==> PodFacet::fault(Tree::Object(members)) is Some,
        0 <= i < members.len() && members[i].0 == "privileged"@ && bool::fault(members[i].1) is Some
            ==> PodFacet::fault(Tree::Object(members)) is Some,
        0 <= i < members.len() && members[i].0 == "hostNamespaces"@ && bool::fault(members[i].1) is Some
            ==> PodFacet::fault(Tree::Object(members)) is Some,
        0 <= i < members.len() && members[i].0 == "imagePrefixes"@ && <Vec<String> as Readable>::fault(members[i].1) is Some
            ==> PodFacet::fault(Tree::Object(members)) is Some,
        0 <= i < members.len() && members[i].0 == "currency"@ && String::fault(members[i].1) is Some
            ==> PodFacet::fault(Tree::Object(members)) is Some,
{
    json::a_field_is_read_by_name_or_place::<Vec<String>>(members, Seq::empty(), i, "egress"@, 0);
    json::a_field_is_read_by_name_or_place::<Vec<String>>(members, Seq::empty(), i, "secrets"@, 1);
    json::a_field_is_read_by_name_or_place::<Vec<String>>(members, Seq::empty(), i, "capabilities"@, 2);
    json::a_field_is_read_by_name_or_place::<bool>(members, Seq::empty(), i, "hostPath"@, 3);
    json::a_field_is_read_by_name_or_place::<bool>(members, Seq::empty(), i, "privileged"@, 4);
    json::a_field_is_read_by_name_or_place::<bool>(members, Seq::empty(), i, "hostNamespaces"@, 5);
    json::a_field_is_read_by_name_or_place::<Vec<String>>(members, Seq::empty(), i, "imagePrefixes"@, 6);
    json::a_field_is_read_by_name_or_place::<String>(members, Seq::empty(), i, "currency"@, 7);
}

/// A denial names the thing that is denied.
pub proof fn a_denial_names_what_is_denied(
    f: PodFacetModel,
    name: Seq<char>,
    via: SecretVia,
    dangerous: bool,
    why: ImageDoubt,
)
    ensures
        f.denial(EffectModel::Secret { name, via }) matches Some(d) ==> (d matches
            DenialModel::NotGranted { what, .. } && what == "Secret"@ + " `"@ + name + "`"@),
        f.denial(EffectModel::Capability { name, dangerous }) matches Some(d) ==> (d matches
            DenialModel::NotGranted { what, .. } && what == name),
        f.denial(EffectModel::HostPath { path: name, writable: dangerous }) matches Some(d) ==> (
        d matches DenialModel::NotGranted { what, .. } && what == name),
        f.denial(EffectModel::UntrustedImage { image: name, why }) matches Some(d) ==> (d matches
            DenialModel::NotGranted { what, .. } && what == name),
{
}

proof fn one_more_is_unlisted(parent: Seq<Seq<char>>, x: Seq<char>)
    requires
        !parent.contains(x),
    ensures
        first_unlisted(parent, parent.push(x)) == Some(x),
        first_unlisted(parent, parent) is None,
{
    let child = parent.push(x);
    nothing_unlisted_is_a_subset(parent, child);
    nothing_unlisted_is_a_subset(parent, parent);
    assert(child[parent.len() as int] == x);
    assert(!is_subset(parent, child));
    let e = first_unlisted(parent, child)->0;
    let i = choose|i: int| 0 <= i < child.len() && child[i] == e;
    if i < parent.len() {
        assert(parent[i] == e);
    }
}

/// A child that claims one thing more than its parent is refused for that thing: the complaint begins
/// with the field, and for a list with the entry.
pub proof fn a_claim_is_refused_by_its_field(f: PodFacetModel, x: Seq<char>)
    ensures
        !f.egress.contains(x) ==> f.widening(PodFacetModel { egress: f.egress.push(x), ..f }) == Some(
            "egress"@ + ": child claims `"@ + x + "`, which the parent does not grant"@,
        ),
        !f.secrets.contains(x) ==> f.widening(
            PodFacetModel { secrets: f.secrets.push(x), ..f },
        ) == Some("secrets"@ + ": child claims `"@ + x + "`, which the parent does not grant"@),
        !f.capabilities.contains(x) ==> f.widening(
            PodFacetModel { capabilities: f.capabilities.push(x), ..f },
        ) == Some("capabilities"@ + ": child claims `"@ + x + "`, which the parent does not grant"@),
        !f.image_prefixes.contains(x) ==> f.widening(
            PodFacetModel { image_prefixes: f.image_prefixes.push(x), ..f },
        ) == Some("imagePrefixes"@ + ": child claims `"@ + x + "`, which the parent does not grant"@),
        !f.host_path ==> (f.widening(PodFacetModel { host_path: true, ..f }) matches Some(m)
            && text::starts_with(m, "hostPath"@)),
        !f.privileged ==> (f.widening(PodFacetModel { privileged: true, ..f }) matches Some(m)
            && text::starts_with(m, "privileged"@)),
        !f.host_namespaces ==> (f.widening(PodFacetModel { host_namespaces: true, ..f }) matches Some(
            m,
        ) && text::starts_with(m, "hostNamespaces"@)),
{
    nothing_unlisted_is_a_subset(f.egress, f.egress);
    nothing_unlisted_is_a_subset(f.secrets, f.secrets);
    nothing_unlisted_is_a_subset(f.capabilities, f.capabilities);
    nothing_unlisted_is_a_subset(f.image_prefixes, f.image_prefixes);
    if !f.egress.contains(x) {
        one_more_is_unlisted(f.egress, x);
    }
    if !f.secrets.contains(x) {
        one_more_is_unlisted(f.secrets, x);
    }
    if !f.capabilities.contains(x) {
        one_more_is_unlisted(f.capabilities, x);
    }
    if !f.image_prefixes.contains(x) {
        one_more_is_unlisted(f.image_prefixes, x);
    }
    let tail =
        ": child claims it, and the parent does not grant it (a team lead hands out authority they hold, never authority they do not)"@;
    assert(("hostPath"@ + tail).subrange(0, "hostPath"@.len() as int) =~= "hostPath"@);
    assert(("privileged"@ + tail).subrange(0, "privileged"@.len() as int) =~= "privileged"@);
    assert(("hostNamespaces"@ + tail).subrange(0, "hostNamespaces"@.len() as int)
        =~= "hostNamespaces"@);
}

} // verus!
