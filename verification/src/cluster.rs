//! What a pod's authority depends on but its spec does not contain.
//!
//! A pod's egress is decided by the `NetworkPolicy` objects that select it, its API reach by the
//! bindings of its ServiceAccount. Both live elsewhere in the cluster, and both are inputs here:
//! a verdict is a function of the spec and a snapshot, and never of when it was made.
use vstd::prelude::*;

use crate::canonical;
use crate::digest;
use crate::digest::sha256_hex;
use crate::json;
use crate::json::{
    check, check_members, member, object, read_field, Json, Members, Readable, Tree, Writable,
};
use crate::map::{Pair, TextMap};
use crate::order;
use crate::order::Ordered;
use crate::scan;
use crate::scan::{
    check_record, read_source, Field, FieldModel, Record, Scan, Scannable, Scanned,
};
use crate::text;
use crate::text::{chars, has_prefix, last_part, owned, same, split_once, trim};

verus! {

/// The cluster state that a verdict depends on, captured at one instant.
#[derive(Debug, Clone, PartialEq, Eq)]
pub struct ClusterSnapshot {
    /// Egress as the cluster will enforce it. `None` is the case that matters: no policy selects the
    /// pod, which means unrestricted egress.
    pub egress: Option<EgressPolicy>,
    /// What the pod's ServiceAccount may do, resolved through its bindings.
    pub rbac: Vec<RbacRule>,
    /// Image references that the cluster will accept as signed, by prefix. Empty means that nothing
    /// is known to be signed.
    pub trusted_image_prefixes: Vec<String>,
    /// Anything else to fold into the snapshot's identity; it is not interpreted.
    pub provenance: TextMap,
}

/// What a [`ClusterSnapshot`] says.
#[verifier::ext_equal]
pub struct ClusterSnapshotModel {
    pub egress: Option<EgressPolicyModel>,
    pub rbac: Seq<RbacRuleModel>,
    pub trusted_image_prefixes: Seq<Seq<char>>,
    pub provenance: Seq<Pair>,
}

impl DeepView for ClusterSnapshot {
    type V = ClusterSnapshotModel;

    open spec fn deep_view(&self) -> ClusterSnapshotModel {
        ClusterSnapshotModel {
            egress: self.egress.deep_view(),
            rbac: self.rbac.deep_view(),
            trusted_image_prefixes: self.trusted_image_prefixes.deep_view(),
            provenance: self.provenance.deep_view(),
        }
    }
}

impl Default for ClusterSnapshot {
    fn default() -> (r: ClusterSnapshot)
        ensures
            r.deep_view() == ClusterSnapshot::nothing(),
    {
        let r = ClusterSnapshot {
            egress: None,
            rbac: Vec::new(),
            trusted_image_prefixes: Vec::new(),
            provenance: TextMap::new(),
        };
        assert(r.rbac.deep_view() =~= Seq::empty());
        assert(r.trusted_image_prefixes.deep_view() =~= Seq::empty());
        r
    }
}

impl Members for ClusterSnapshot {
    open spec fn member_fault(name: Seq<char>, v: Tree) -> Option<Seq<char>> {
        if name == "egress"@ {
            <Option<EgressPolicy> as Readable>::fault(v)
        } else if name == "rbac"@ {
            <Vec<RbacRule> as Readable>::fault(v)
        } else if name == "trusted_image_prefixes"@ {
            <Vec<String> as Readable>::fault(v)
        } else if name == "provenance"@ {
            TextMap::fault(v)
        } else {
            None
        }
    }

    fn check_member(name: &str, v: &Json) -> (r: Result<(), String>) {
        if same(name, "egress") {
            check::<Option<EgressPolicy>>(v)
        } else if same(name, "rbac") {
            check::<Vec<RbacRule>>(v)
        } else if same(name, "trusted_image_prefixes") {
            check::<Vec<String>>(v)
        } else if same(name, "provenance") {
            check::<TextMap>(v)
        } else {
            Ok(())
        }
    }
}

impl Readable for ClusterSnapshot {
    open spec fn fault(t: Tree) -> Option<Seq<char>> {
        let f = t.record_fault("struct ClusterSnapshot"@);
        let f = json::first_fault(f, json::members_fault::<ClusterSnapshot>(t));
        let f = json::first_fault(f, json::field_fault::<Option<EgressPolicy>>(t, "egress"@, 0));
        let f = json::first_fault(f, json::field_fault::<Vec<RbacRule>>(t, "rbac"@, 1));
        let f = json::first_fault(f, json::field_fault::<Vec<String>>(t, "trusted_image_prefixes"@, 2));
        let f = json::first_fault(f, json::field_fault::<TextMap>(t, "provenance"@, 3));
        json::first_fault(f, t.surplus_fault(4))
    }

    open spec fn value(t: Tree) -> ClusterSnapshotModel {
        ClusterSnapshotModel {
            egress: json::field_value::<Option<EgressPolicy>>(t, "egress"@, 0),
            rbac: json::field_value::<Vec<RbacRule>>(t, "rbac"@, 1),
            trusted_image_prefixes: json::field_value::<Vec<String>>(t, "trusted_image_prefixes"@, 2),
            provenance: json::field_value::<TextMap>(t, "provenance"@, 3),
        }
    }

    open spec fn nothing() -> ClusterSnapshotModel {
        ClusterSnapshotModel {
            egress: None,
            rbac: Seq::empty(),
            trusted_image_prefixes: Seq::empty(),
            provenance: Seq::empty(),
        }
    }

    fn read(j: &Json) -> (r: Result<Self, String>) {
        if let Err(e) = j.check_record("struct ClusterSnapshot") {
            return Err(e);
        }
        if let Err(e) = check_members::<ClusterSnapshot>(j) {
            return Err(e);
        }
        let egress: Option<EgressPolicy> = match read_field(j, "egress", 0) {
            Ok(x) => x,
            Err(e) => return Err(e),
        };
        let rbac: Vec<RbacRule> = match read_field(j, "rbac", 1) {
            Ok(x) => x,
            Err(e) => return Err(e),
        };
        let trusted_image_prefixes: Vec<String> = match read_field(j, "trusted_image_prefixes", 2) {
            Ok(x) => x,
            Err(e) => return Err(e),
        };
        let provenance: TextMap = match read_field(j, "provenance", 3) {
            Ok(x) => x,
            Err(e) => return Err(e),
        };
        if let Err(e) = j.check_surplus(4) {
            return Err(e);
        }
        Ok(ClusterSnapshot { egress, rbac, trusted_image_prefixes, provenance })
    }

    fn absent() -> (r: Self) {
        ClusterSnapshot::default()
    }
}

/// The egress that network policies permit, flattened.
#[derive(Debug, Clone, PartialEq, Eq)]
pub struct EgressPolicy {
    /// The policies that produced this.
    pub policy_names: Vec<String>,
    /// CIDRs that the pod may reach.
    pub cidrs: Vec<String>,
    /// Destinations in the cluster, as legible selectors.
    pub selectors: Vec<String>,
    /// A policy selects the pod and permits nothing.
    pub deny_all: bool,
}

/// What an [`EgressPolicy`] says.
#[verifier::ext_equal]
pub struct EgressPolicyModel {
    pub policy_names: Seq<Seq<char>>,
    pub cidrs: Seq<Seq<char>>,
    pub selectors: Seq<Seq<char>>,
    pub deny_all: bool,
}

impl DeepView for EgressPolicy {
    type V = EgressPolicyModel;

    open spec fn deep_view(&self) -> EgressPolicyModel {
        EgressPolicyModel {
            policy_names: self.policy_names.deep_view(),
            cidrs: self.cidrs.deep_view(),
            selectors: self.selectors.deep_view(),
            deny_all: self.deny_all.deep_view(),
        }
    }
}

impl Default for EgressPolicy {
    fn default() -> (r: EgressPolicy)
        ensures
            r.deep_view() == EgressPolicy::nothing(),
    {
        let r = EgressPolicy {
            policy_names: Vec::new(),
            cidrs: Vec::new(),
            selectors: Vec::new(),
            deny_all: false,
        };
        assert(r.policy_names.deep_view() =~= Seq::empty());
        assert(r.cidrs.deep_view() =~= Seq::empty());
        assert(r.selectors.deep_view() =~= Seq::empty());
        r
    }
}

impl Members for EgressPolicy {
    open spec fn member_fault(name: Seq<char>, v: Tree) -> Option<Seq<char>> {
        if name == "policy_names"@ {
            <Vec<String> as Readable>::fault(v)
        } else if name == "cidrs"@ {
            <Vec<String> as Readable>::fault(v)
        } else if name == "selectors"@ {
            <Vec<String> as Readable>::fault(v)
        } else if name == "deny_all"@ {
            bool::fault(v)
        } else {
            None
        }
    }

    fn check_member(name: &str, v: &Json) -> (r: Result<(), String>) {
        if same(name, "policy_names") {
            check::<Vec<String>>(v)
        } else if same(name, "cidrs") {
            check::<Vec<String>>(v)
        } else if same(name, "selectors") {
            check::<Vec<String>>(v)
        } else if same(name, "deny_all") {
            check::<bool>(v)
        } else {
            Ok(())
        }
    }
}

impl Readable for EgressPolicy {
    open spec fn fault(t: Tree) -> Option<Seq<char>> {
        let f = t.record_fault("struct EgressPolicy"@);
        let f = json::first_fault(f, json::members_fault::<EgressPolicy>(t));
        let f = json::first_fault(f, json::field_fault::<Vec<String>>(t, "policy_names"@, 0));
        let f = json::first_fault(f, json::field_fault::<Vec<String>>(t, "cidrs"@, 1));
        let f = json::first_fault(f, json::field_fault::<Vec<String>>(t, "selectors"@, 2));
        let f = json::first_fault(f, json::field_fault::<bool>(t, "deny_all"@, 3));
        json::first_fault(f, t.surplus_fault(4))
    }

    open spec fn value(t: Tree) -> EgressPolicyModel {
        EgressPolicyModel {
            policy_names: json::field_value::<Vec<String>>(t, "policy_names"@, 0),
            cidrs: json::field_value::<Vec<String>>(t, "cidrs"@, 1),
            selectors: json::field_value::<Vec<String>>(t, "selectors"@, 2),
            deny_all: json::field_value::<bool>(t, "deny_all"@, 3),
        }
    }

    open spec fn nothing() -> EgressPolicyModel {
        EgressPolicyModel {
            policy_names: Seq::empty(),
            cidrs: Seq::empty(),
            selectors: Seq::empty(),
            deny_all: false,
        }
    }

    fn read(j: &Json) -> (r: Result<Self, String>) {
        if let Err(e) = j.check_record("struct EgressPolicy") {
            return Err(e);
        }
        if let Err(e) = check_members::<EgressPolicy>(j) {
            return Err(e);
        }
        let policy_names: Vec<String> = match read_field(j, "policy_names", 0) {
            Ok(x) => x,
            Err(e) => return Err(e),
        };
        let cidrs: Vec<String> = match read_field(j, "cidrs", 1) {
            Ok(x) => x,
            Err(e) => return Err(e),
        };
        let selectors: Vec<String> = match read_field(j, "selectors", 2) {
            Ok(x) => x,
            Err(e) => return Err(e),
        };
        let deny_all: bool = match read_field(j, "deny_all", 3) {
            Ok(x) => x,
            Err(e) => return Err(e),
        };
        if let Err(e) = j.check_surplus(4) {
            return Err(e);
        }
        Ok(EgressPolicy { policy_names, cidrs, selectors, deny_all })
    }

    fn absent() -> (r: Self) {
        EgressPolicy::default()
    }
}

/// One resolved RBAC permission.
#[derive(Debug, Clone, PartialEq, Eq)]
pub struct RbacRule {
    /// Where it came from.
    pub binding: String,
    /// `""` is the core API group.
    pub api_group: String,
    pub resource: String,
    pub verbs: Vec<String>,
    /// `None` means cluster-wide.
    pub namespace: Option<String>,
}

/// What a [`RbacRule`] says.
#[verifier::ext_equal]
pub struct RbacRuleModel {
    pub binding: Seq<char>,
    pub api_group: Seq<char>,
    pub resource: Seq<char>,
    pub verbs: Seq<Seq<char>>,
    pub namespace: Option<Seq<char>>,
}

impl DeepView for RbacRule {
    type V = RbacRuleModel;

    open spec fn deep_view(&self) -> RbacRuleModel {
        RbacRuleModel {
            binding: self.binding.deep_view(),
            api_group: self.api_group.deep_view(),
            resource: self.resource.deep_view(),
            verbs: self.verbs.deep_view(),
            namespace: self.namespace.deep_view(),
        }
    }
}

impl Default for RbacRule {
    fn default() -> (r: RbacRule)
        ensures
            r.deep_view() == RbacRule::nothing(),
    {
        let r = RbacRule {
            binding: String::new(),
            api_group: String::new(),
            resource: String::new(),
            verbs: Vec::new(),
            namespace: None,
        };
        assert(r.verbs.deep_view() =~= Seq::empty());
        r
    }
}

impl Members for RbacRule {
    open spec fn member_fault(name: Seq<char>, v: Tree) -> Option<Seq<char>> {
        if name == "binding"@ {
            String::fault(v)
        } else if name == "api_group"@ {
            String::fault(v)
        } else if name == "resource"@ {
            String::fault(v)
        } else if name == "verbs"@ {
            <Vec<String> as Readable>::fault(v)
        } else if name == "namespace"@ {
            <Option<String> as Readable>::fault(v)
        } else {
            None
        }
    }

    fn check_member(name: &str, v: &Json) -> (r: Result<(), String>) {
        if same(name, "binding") {
            check::<String>(v)
        } else if same(name, "api_group") {
            check::<String>(v)
        } else if same(name, "resource") {
            check::<String>(v)
        } else if same(name, "verbs") {
            check::<Vec<String>>(v)
        } else if same(name, "namespace") {
            check::<Option<String>>(v)
        } else {
            Ok(())
        }
    }
}

impl Readable for RbacRule {
    open spec fn fault(t: Tree) -> Option<Seq<char>> {
        let f = t.record_fault("struct RbacRule"@);
        let f = json::first_fault(f, json::members_fault::<RbacRule>(t));
        let f = json::first_fault(f, json::field_fault::<String>(t, "binding"@, 0));
        let f = json::first_fault(f, json::field_fault::<String>(t, "api_group"@, 1));
        let f = json::first_fault(f, json::field_fault::<String>(t, "resource"@, 2));
        let f = json::first_fault(f, json::field_fault::<Vec<String>>(t, "verbs"@, 3));
        let f = json::first_fault(f, json::field_fault::<Option<String>>(t, "namespace"@, 4));
        json::first_fault(f, t.surplus_fault(5))
    }

    open spec fn value(t: Tree) -> RbacRuleModel {
        RbacRuleModel {
            binding: json::field_value::<String>(t, "binding"@, 0),
            api_group: json::field_value::<String>(t, "api_group"@, 1),
            resource: json::field_value::<String>(t, "resource"@, 2),
            verbs: json::field_value::<Vec<String>>(t, "verbs"@, 3),
            namespace: json::field_value::<Option<String>>(t, "namespace"@, 4),
        }
    }

    open spec fn nothing() -> RbacRuleModel {
        RbacRuleModel {
            binding: Seq::empty(),
            api_group: Seq::empty(),
            resource: Seq::empty(),
            verbs: Seq::empty(),
            namespace: None,
        }
    }

    fn read(j: &Json) -> (r: Result<Self, String>) {
        if let Err(e) = j.check_record("struct RbacRule") {
            return Err(e);
        }
        if let Err(e) = check_members::<RbacRule>(j) {
            return Err(e);
        }
        let binding: String = match read_field(j, "binding", 0) {
            Ok(x) => x,
            Err(e) => return Err(e),
        };
        let api_group: String = match read_field(j, "api_group", 1) {
            Ok(x) => x,
            Err(e) => return Err(e),
        };
        let resource: String = match read_field(j, "resource", 2) {
            Ok(x) => x,
            Err(e) => return Err(e),
        };
        let verbs: Vec<String> = match read_field(j, "verbs", 3) {
            Ok(x) => x,
            Err(e) => return Err(e),
        };
        let namespace: Option<String> = match read_field(j, "namespace", 4) {
            Ok(x) => x,
            Err(e) => return Err(e),
        };
        if let Err(e) = j.check_surplus(5) {
            return Err(e);
        }
        Ok(RbacRule { binding, api_group, resource, verbs, namespace })
    }

    fn absent() -> (r: Self) {
        RbacRule::default()
    }
}

/// Rules are ordered field by field.
impl Ordered for RbacRule {
    open spec fn precedes(a: RbacRuleModel, b: RbacRuleModel) -> bool {
        if a.binding != b.binding {
            String::precedes(a.binding, b.binding)
        } else if a.api_group != b.api_group {
            String::precedes(a.api_group, b.api_group)
        } else if a.resource != b.resource {
            String::precedes(a.resource, b.resource)
        } else if a.verbs != b.verbs {
            Vec::<String>::precedes(a.verbs, b.verbs)
        } else {
            Option::<String>::precedes(a.namespace, b.namespace)
        }
    }

    proof fn strict(a: RbacRuleModel, b: RbacRuleModel) {
        String::strict(a.binding, b.binding);
        String::strict(a.api_group, b.api_group);
        String::strict(a.resource, b.resource);
        Vec::<String>::strict(a.verbs, b.verbs);
        Option::<String>::strict(a.namespace, b.namespace);
    }

    proof fn total(a: RbacRuleModel, b: RbacRuleModel) {
        String::total(a.binding, b.binding);
        String::total(a.api_group, b.api_group);
        String::total(a.resource, b.resource);
        Vec::<String>::total(a.verbs, b.verbs);
        Option::<String>::total(a.namespace, b.namespace);
    }

    proof fn transitive(a: RbacRuleModel, b: RbacRuleModel, c: RbacRuleModel) {
        order::transitive_where_ordered::<String>(a.binding, b.binding, c.binding);
        order::transitive_where_ordered::<String>(a.api_group, b.api_group, c.api_group);
        order::transitive_where_ordered::<String>(a.resource, b.resource, c.resource);
        order::transitive_where_ordered::<Vec<String>>(a.verbs, b.verbs, c.verbs);
        order::transitive_where_ordered::<Option<String>>(a.namespace, b.namespace, c.namespace);
        String::strict(a.binding, c.binding);
        String::strict(a.binding, b.binding);
        String::strict(a.api_group, b.api_group);
        String::strict(a.api_group, c.api_group);
        String::strict(a.resource, b.resource);
        String::strict(a.resource, c.resource);
        Vec::<String>::strict(a.verbs, b.verbs);
        Vec::<String>::strict(a.verbs, c.verbs);
    }

    fn is_before(&self, other: &Self) -> (r: bool) {
        proof {
            String::total(self.deep_view().binding, other.deep_view().binding);
            String::strict(self.deep_view().binding, other.deep_view().binding);
            String::strict(other.deep_view().binding, self.deep_view().binding);
            String::total(self.deep_view().api_group, other.deep_view().api_group);
            String::strict(self.deep_view().api_group, other.deep_view().api_group);
            String::strict(other.deep_view().api_group, self.deep_view().api_group);
            String::total(self.deep_view().resource, other.deep_view().resource);
            String::strict(self.deep_view().resource, other.deep_view().resource);
            String::strict(other.deep_view().resource, self.deep_view().resource);
            Vec::<String>::total(self.deep_view().verbs, other.deep_view().verbs);
            Vec::<String>::strict(self.deep_view().verbs, other.deep_view().verbs);
            Vec::<String>::strict(other.deep_view().verbs, self.deep_view().verbs);
        }
        if self.binding.is_before(&other.binding) {
            true
        } else if other.binding.is_before(&self.binding) {
            false
        } else if self.api_group.is_before(&other.api_group) {
            true
        } else if other.api_group.is_before(&self.api_group) {
            false
        } else if self.resource.is_before(&other.resource) {
            true
        } else if other.resource.is_before(&self.resource) {
            false
        } else if self.verbs.is_before(&other.verbs) {
            true
        } else if other.verbs.is_before(&self.verbs) {
            false
        } else {
            self.namespace.is_before(&other.namespace)
        }
    }

    fn duplicate(&self) -> (r: Self) {
        RbacRule {
            binding: self.binding.duplicate(),
            api_group: self.api_group.duplicate(),
            resource: self.resource.duplicate(),
            verbs: self.verbs.duplicate(),
            namespace: self.namespace.duplicate(),
        }
    }
}

impl Writable for ClusterSnapshot {
    open spec fn tree(v: ClusterSnapshotModel) -> Tree {
        Tree::Object(
            seq![
                ("egress"@, <Option<EgressPolicy> as Writable>::tree(v.egress)),
                ("rbac"@, <Vec<RbacRule> as Writable>::tree(v.rbac)),
                ("trusted_image_prefixes"@, <Vec<String> as Writable>::tree(v.trusted_image_prefixes)),
                ("provenance"@, <TextMap as Writable>::tree(v.provenance)),
            ],
        )
    }

    fn to_json(&self) -> (r: Json) {
        let mut m: Vec<(String, Json)> = Vec::new();
        m.push(member("egress", self.egress.to_json()));
        m.push(member("rbac", self.rbac.to_json()));
        m.push(member("trusted_image_prefixes", self.trusted_image_prefixes.to_json()));
        m.push(member("provenance", self.provenance.to_json()));
        let j = object(m);
        assert(j@->Object_0 =~= Self::tree(self.deep_view())->Object_0);
        j
    }
}

impl Writable for EgressPolicy {
    open spec fn tree(v: EgressPolicyModel) -> Tree {
        Tree::Object(
            seq![
                ("policy_names"@, <Vec<String> as Writable>::tree(v.policy_names)),
                ("cidrs"@, <Vec<String> as Writable>::tree(v.cidrs)),
                ("selectors"@, <Vec<String> as Writable>::tree(v.selectors)),
                ("deny_all"@, <bool as Writable>::tree(v.deny_all)),
            ],
        )
    }

    fn to_json(&self) -> (r: Json) {
        let mut m: Vec<(String, Json)> = Vec::new();
        m.push(member("policy_names", self.policy_names.to_json()));
        m.push(member("cidrs", self.cidrs.to_json()));
        m.push(member("selectors", self.selectors.to_json()));
        m.push(member("deny_all", self.deny_all.to_json()));
        let j = object(m);
        assert(j@->Object_0 =~= Self::tree(self.deep_view())->Object_0);
        j
    }
}

impl Writable for RbacRule {
    open spec fn tree(v: RbacRuleModel) -> Tree {
        Tree::Object(
            seq![
                ("binding"@, <String as Writable>::tree(v.binding)),
                ("api_group"@, <String as Writable>::tree(v.api_group)),
                ("resource"@, <String as Writable>::tree(v.resource)),
                ("verbs"@, <Vec<String> as Writable>::tree(v.verbs)),
                ("namespace"@, <Option<String> as Writable>::tree(v.namespace)),
            ],
        )
    }

    fn to_json(&self) -> (r: Json) {
        let mut m: Vec<(String, Json)> = Vec::new();
        m.push(member("binding", self.binding.to_json()));
        m.push(member("api_group", self.api_group.to_json()));
        m.push(member("resource", self.resource.to_json()));
        m.push(member("verbs", self.verbs.to_json()));
        m.push(member("namespace", self.namespace.to_json()));
        let j = object(m);
        assert(j@->Object_0 =~= Self::tree(self.deep_view())->Object_0);
        j
    }
}

impl EgressPolicyModel {
    /// Some CIDR permits every destination, however it is spelled and whatever stands beside it:
    /// the rules are a union, so one open rule opens the pod.
    pub open spec fn unrestricted(self) -> bool {
        exists|i: int| 0 <= i < self.cidrs.len() && is_open_cidr(#[trigger] self.cidrs[i])
    }

    /// Nothing is permitted at all.
    pub open spec fn nothing_permitted(self) -> bool {
        self.deny_all || (self.cidrs.len() == 0 && self.selectors.len() == 0)
    }
}

/// The CIDR of every address, however the address is spelled: what follows the last `/` is a prefix
/// length of zero.
pub open spec fn is_open_cidr(c: Seq<char>) -> bool {
    let t = text::trimmed(c);
    t.contains('/') && is_zero(text::after_last(t, '/'))
}

/// Zero in digits.
pub open spec fn is_zero(digits: Seq<char>) -> bool {
    digits.len() > 0 && forall|i: int| 0 <= i < digits.len() ==> #[trigger] digits[i] == '0'
}

/// Is this the CIDR of every address?
fn opens_everything(cidr: &str) -> (r: bool)
    ensures
        r == is_open_cidr(cidr@),
{
    let t = trim(cidr);
    if split_once(t, '/').is_none() {
        return false;
    }
    let length = chars(last_part(t, '/'));
    let mut i: usize = 0;
    while i < length.len()
        invariant
            i <= length.len(),
            length@ == text::after_last(text::trimmed(cidr@), '/'),
            forall|k: int| 0 <= k < i ==> #[trigger] length@[k] == '0',
        decreases length.len() - i,
    {
        if length[i] != '0' {
            return false;
        }
        i += 1;
    }
    length.len() > 0
}

impl EgressPolicy {
    /// Does this permit every destination?
    pub fn is_unrestricted(&self) -> (r: bool)
        ensures
            r == self.deep_view().unrestricted(),
    {
        let mut i: usize = 0;
        while i < self.cidrs.len()
            invariant
                i <= self.cidrs.len(),
                forall|k: int| 0 <= k < i ==> !is_open_cidr(#[trigger] self.deep_view().cidrs[k]),
            decreases self.cidrs.len() - i,
        {
            if opens_everything(self.cidrs[i].as_str()) {
                assert(is_open_cidr(self.deep_view().cidrs[i as int]));
                return true;
            }
            i += 1;
        }
        false
    }

    /// Is nothing permitted at all?
    pub fn permits_nothing(&self) -> (r: bool)
        ensures
            r == self.deep_view().nothing_permitted(),
    {
        self.deny_all || (self.cidrs.len() == 0 && self.selectors.len() == 0)
    }
}

impl RbacRuleModel {
    /// The rule permits `verb`; `*` permits every verb.
    pub open spec fn allows(self, verb: Seq<char>) -> bool {
        exists|i: int|
            0 <= i < self.verbs.len() && (#[trigger] self.verbs[i] == "*"@ || self.verbs[i] == verb)
    }

    /// The rule permits a verb that changes the cluster.
    pub open spec fn writes(self) -> bool {
        self.allows("create"@) || self.allows("update"@) || self.allows("patch"@) || self.allows(
            "delete"@,
        ) || self.allows("deletecollection"@) || self.allows("*"@)
    }

    /// The resource is one that creates pods.
    pub open spec fn is_workload(self) -> bool {
        ||| self.resource == "deployments"@
        ||| self.resource == "daemonsets"@
        ||| self.resource == "statefulsets"@
        ||| self.resource == "jobs"@
        ||| self.resource == "cronjobs"@
        ||| self.resource == "replicasets"@
    }

    /// The route that the rule opens to authority that was not granted directly, the first of
    /// those known.
    pub open spec fn escalation(self) -> Option<Seq<char>> {
        let core = self.api_group.len() == 0;
        if core && self.resource == "secrets"@ && (self.allows("get"@) || self.allows("list"@)) {
            Some("can read Secrets, which includes other ServiceAccounts' tokens"@)
        } else if core && self.resource == "pods"@ && self.allows("create"@) {
            Some("can create Pods, and so can create a privileged one"@)
        } else if self.is_workload() && self.writes() {
            Some("can write workloads, which create Pods on its behalf"@)
        } else if self.allows("escalate"@) || self.allows("bind"@) || self.allows("impersonate"@) {
            Some("holds an API privilege-escalation verb (escalate/bind/impersonate)"@)
        } else if self.resource == "*"@ && self.allows("*"@) {
            Some("holds `*` on `*` — unrestricted API authority"@)
        } else {
            None
        }
    }
}

impl RbacRule {
    pub fn cluster_wide(&self) -> (r: bool)
        ensures
            r == (self.deep_view().namespace is None),
    {
        self.namespace.is_none()
    }

    /// Does this rule permit `verb`?
    pub fn permits(&self, verb: &str) -> (r: bool)
        ensures
            r == self.deep_view().allows(verb@),
    {
        let mut i: usize = 0;
        while i < self.verbs.len()
            invariant
                i <= self.verbs.len(),
                forall|k: int|
                    0 <= k < i ==> (#[trigger] self.deep_view().verbs[k]) != "*"@
                        && self.deep_view().verbs[k] != verb@,
            decreases self.verbs.len() - i,
        {
            assert(self.deep_view().verbs[i as int] == self.verbs@[i as int]@);
            if same(self.verbs[i].as_str(), "*") || same(self.verbs[i].as_str(), verb) {
                return true;
            }
            i += 1;
        }
        false
    }

    /// Does this rule permit a verb that changes the cluster?
    pub fn is_write(&self) -> (r: bool)
        ensures
            r == self.deep_view().writes(),
    {
        self.permits("create") || self.permits("update") || self.permits("patch") || self.permits(
            "delete",
        ) || self.permits("deletecollection") || self.permits("*")
    }

    /// Does this rule hand its holder a route to authority that it was not granted directly?
    /// Reading secrets is reading every credential in scope; creating pods, or what creates pods,
    /// is creating a privileged one; the API has escalation verbs of its own.
    pub fn escalation_path(&self) -> (r: Option<&'static str>)
        ensures
            r.deep_view() == self.deep_view().escalation(),
    {
        let core: bool = self.api_group.as_str().unicode_len() == 0;
        let resource = self.resource.as_str();
        if core && same(resource, "secrets") && (self.permits("get") || self.permits("list")) {
            return Some("can read Secrets, which includes other ServiceAccounts' tokens");
        }
        if core && same(resource, "pods") && self.permits("create") {
            return Some("can create Pods, and so can create a privileged one");
        }
        let workload: bool = same(resource, "deployments") || same(resource, "daemonsets") || same(
            resource,
            "statefulsets",
        ) || same(resource, "jobs") || same(resource, "cronjobs") || same(resource, "replicasets");
        if workload && self.is_write() {
            return Some("can write workloads, which create Pods on its behalf");
        }
        if self.permits("escalate") || self.permits("bind") || self.permits("impersonate") {
            return Some("holds an API privilege-escalation verb (escalate/bind/impersonate)");
        }
        if same(resource, "*") && self.permits("*") {
            return Some("holds `*` on `*` — unrestricted API authority");
        }
        None
    }
}

/// `image` begins with one of the prefixes; an empty prefix matches nothing.
pub open spec fn under_prefix(image: Seq<char>, prefixes: Seq<Seq<char>>) -> bool {
    exists|i: int|
        0 <= i < prefixes.len() && (#[trigger] prefixes[i]).len() > 0 && text::starts_with(
            image,
            prefixes[i],
        )
}

/// Does `image` begin with one of the prefixes?
pub fn has_image_prefix(image: &str, prefixes: &Vec<String>) -> (r: bool)
    ensures
        r == under_prefix(image@, prefixes.deep_view()),
{
    let ghost all = prefixes.deep_view();
    let mut i: usize = 0;
    while i < prefixes.len()
        invariant
            i <= prefixes.len(),
            all == prefixes.deep_view(),
            forall|k: int|
                0 <= k < i ==> (#[trigger] all[k]).len() == 0 || !text::starts_with(image@, all[k]),
        decreases prefixes.len() - i,
    {
        let p = prefixes[i].as_str();
        assert(all[i as int] == p@);
        if p.unicode_len() > 0 && has_prefix(image, p) {
            return true;
        }
        i += 1;
    }
    false
}

impl ClusterSnapshotModel {
    /// The identity of this cluster state: the hash of its canonical form.
    pub open spec fn id(self) -> Seq<char> {
        digest::text_id("lex.k8s.snapshot.v1"@ + json::rendered(ClusterSnapshot::tree(self)))
    }
}

/// What it is called, and its fields in order.
impl Record for ClusterSnapshot {
    open spec fn title() -> Seq<char> {
        "struct ClusterSnapshot"@
    }

    open spec fn layout() -> Seq<FieldModel> {
        seq![
            FieldModel { name: "egress"@, required: false },
            FieldModel { name: "rbac"@, required: false },
            FieldModel { name: "trusted_image_prefixes"@, required: false },
            FieldModel { name: "provenance"@, required: false },
        ]
    }

    open spec fn scan_field(i: nat, s: Seq<char>) -> Scan {
        if i == 0 {
            <Option<EgressPolicy> as Scannable>::scan(s)
        } else if i == 1 {
            <Vec<RbacRule> as Scannable>::scan(s)
        } else if i == 2 {
            <Vec<String> as Scannable>::scan(s)
        } else {
            TextMap::scan(s)
        }
    }

    fn called() -> (r: &'static str) {
        "struct ClusterSnapshot"
    }

    fn fields() -> (r: Vec<Field>) {
        let mut v: Vec<Field> = Vec::new();
        v.push(Field { name: "egress", required: false });
        v.push(Field { name: "rbac", required: false });
        v.push(Field { name: "trusted_image_prefixes", required: false });
        v.push(Field { name: "provenance", required: false });
        assert(v.deep_view() =~= Self::layout());
        v
    }

    fn check_field<'a>(i: usize, s: &'a str) -> (r: Scanned<'a>) {
        if i == 0 {
            <Option<EgressPolicy> as Scannable>::check_text(s)
        } else if i == 1 {
            <Vec<RbacRule> as Scannable>::check_text(s)
        } else if i == 2 {
            <Vec<String> as Scannable>::check_text(s)
        } else {
            TextMap::check_text(s)
        }
    }
}

/// Read straight from a text.
impl Scannable for ClusterSnapshot {
    open spec fn scan(s: Seq<char>) -> Scan {
        scan::scan_record::<ClusterSnapshot>(s)
    }

    fn check_text<'a>(s: &'a str) -> (r: Scanned<'a>) {
        check_record::<ClusterSnapshot>(s)
    }
}

/// What it is called, and its fields in order.
impl Record for EgressPolicy {
    open spec fn title() -> Seq<char> {
        "struct EgressPolicy"@
    }

    open spec fn layout() -> Seq<FieldModel> {
        seq![
            FieldModel { name: "policy_names"@, required: false },
            FieldModel { name: "cidrs"@, required: false },
            FieldModel { name: "selectors"@, required: false },
            FieldModel { name: "deny_all"@, required: false },
        ]
    }

    open spec fn scan_field(i: nat, s: Seq<char>) -> Scan {
        if i == 0 {
            <Vec<String> as Scannable>::scan(s)
        } else if i == 1 {
            <Vec<String> as Scannable>::scan(s)
        } else if i == 2 {
            <Vec<String> as Scannable>::scan(s)
        } else {
            bool::scan(s)
        }
    }

    fn called() -> (r: &'static str) {
        "struct EgressPolicy"
    }

    fn fields() -> (r: Vec<Field>) {
        let mut v: Vec<Field> = Vec::new();
        v.push(Field { name: "policy_names", required: false });
        v.push(Field { name: "cidrs", required: false });
        v.push(Field { name: "selectors", required: false });
        v.push(Field { name: "deny_all", required: false });
        assert(v.deep_view() =~= Self::layout());
        v
    }

    fn check_field<'a>(i: usize, s: &'a str) -> (r: Scanned<'a>) {
        if i == 0 {
            <Vec<String> as Scannable>::check_text(s)
        } else if i == 1 {
            <Vec<String> as Scannable>::check_text(s)
        } else if i == 2 {
            <Vec<String> as Scannable>::check_text(s)
        } else {
            bool::check_text(s)
        }
    }
}

/// Read straight from a text.
impl Scannable for EgressPolicy {
    open spec fn scan(s: Seq<char>) -> Scan {
        scan::scan_record::<EgressPolicy>(s)
    }

    fn check_text<'a>(s: &'a str) -> (r: Scanned<'a>) {
        check_record::<EgressPolicy>(s)
    }
}

/// What it is called, and its fields in order.
impl Record for RbacRule {
    open spec fn title() -> Seq<char> {
        "struct RbacRule"@
    }

    open spec fn layout() -> Seq<FieldModel> {
        seq![
            FieldModel { name: "binding"@, required: false },
            FieldModel { name: "api_group"@, required: false },
            FieldModel { name: "resource"@, required: false },
            FieldModel { name: "verbs"@, required: false },
            FieldModel { name: "namespace"@, required: false },
        ]
    }

    open spec fn scan_field(i: nat, s: Seq<char>) -> Scan {
        if i == 0 {
            String::scan(s)
        } else if i == 1 {
            String::scan(s)
        } else if i == 2 {
            String::scan(s)
        } else if i == 3 {
            <Vec<String> as Scannable>::scan(s)
        } else {
            <Option<String> as Scannable>::scan(s)
        }
    }

    fn called() -> (r: &'static str) {
        "struct RbacRule"
    }

    fn fields() -> (r: Vec<Field>) {
        let mut v: Vec<Field> = Vec::new();
        v.push(Field { name: "binding", required: false });
        v.push(Field { name: "api_group", required: false });
        v.push(Field { name: "resource", required: false });
        v.push(Field { name: "verbs", required: false });
        v.push(Field { name: "namespace", required: false });
        assert(v.deep_view() =~= Self::layout());
        v
    }

    fn check_field<'a>(i: usize, s: &'a str) -> (r: Scanned<'a>) {
        if i == 0 {
            String::check_text(s)
        } else if i == 1 {
            String::check_text(s)
        } else if i == 2 {
            String::check_text(s)
        } else if i == 3 {
            <Vec<String> as Scannable>::check_text(s)
        } else {
            <Option<String> as Scannable>::check_text(s)
        }
    }
}

/// Read straight from a text.
impl Scannable for RbacRule {
    open spec fn scan(s: Seq<char>) -> Scan {
        scan::scan_record::<RbacRule>(s)
    }

    fn check_text<'a>(s: &'a str) -> (r: Scanned<'a>) {
        check_record::<RbacRule>(s)
    }
}

impl ClusterSnapshot {
    /// The snapshot that a document says.
    pub fn from_document(doc: &Json) -> (r: Result<ClusterSnapshot, String>)
        ensures
            match r {
                Ok(s) => ClusterSnapshot::fault(doc@) is None && s.deep_view()
                    == ClusterSnapshot::value(doc@),
                Err(e) => ClusterSnapshot::fault(doc@) == Some(e@),
            },
    {
        ClusterSnapshot::read(doc)
    }

    /// Parse a snapshot, and hold it to its text: the first thing that does not fit is complained of,
    /// with its line and column, and a field that is given twice does not fit.
    pub fn from_json(src: &str) -> (r: Result<ClusterSnapshot, String>)
        ensures
            match scan::source::<ClusterSnapshot>(src@) {
                Ok(t) => match r {
                    Ok(s) => ClusterSnapshot::fault(t) is None && s.deep_view()
                        == ClusterSnapshot::value(t),
                    Err(e) => ClusterSnapshot::fault(t) == Some(e@),
                },
                Err(complaint) => r matches Err(e) && e@ == complaint,
            },
    {
        match read_source::<ClusterSnapshot>(src) {
            Ok(doc) => ClusterSnapshot::from_document(&doc),
            Err(e) => Err(e),
        }
    }

    /// Is this image reference one that the cluster is known to accept? An empty list means that
    /// nothing is trusted.
    pub fn trusts_image(&self, image: &str) -> (r: bool)
        ensures
            r == under_prefix(image@, self.deep_view().trusted_image_prefixes),
    {
        has_image_prefix(image, &self.trusted_image_prefixes)
    }

    /// Hex SHA-256 over the canonical form: the handle that an audit record pins, so that a
    /// verdict can be reproduced against the state that it was made on.
    pub fn content_id(&self) -> (r: String)
        ensures
            r@ == self.deep_view().id(),
            r@.len() == 64,
    {
        let canonical = owned("lex.k8s.snapshot.v1").concat(self.to_json().to_text().as_str());
        sha256_hex(canonical.as_str())
    }
}

// ---------------------------------------------------------------------------------------------
// Laws
// ---------------------------------------------------------------------------------------------
proof fn only_leading_space_is_cut(address: Seq<char>, tail: Seq<char>)
    requires
        tail.len() > 0,
        !text::is_space(tail[0]),
        !text::is_space(tail.last()),
    ensures
        ({
            let t = text::trimmed(address + tail);
            t.len() >= tail.len() && t.subrange(t.len() - tail.len(), t.len() as int) == tail
        }),
    decreases address.len(),
{
    let s = address + tail;
    if address.len() > 0 && text::is_space(address[0]) {
        assert(s.drop_first() =~= address.drop_first() + tail);
        only_leading_space_is_cut(address.drop_first(), tail);
    } else {
        assert(text::trim_start(s) == s);
        assert(s.last() == tail.last());
        assert(s.subrange(s.len() - tail.len(), s.len() as int) =~= tail);
    }
}

/// A prefix length of zero opens the pod however the address before it is spelled.
pub proof fn a_zero_prefix_length_is_open_however_it_is_spelled(address: Seq<char>)
    ensures
        is_open_cidr(address + "/0"@),
{
    reveal_strlit("/0");
    reveal_with_fuel(text::after_last, 3);
    only_leading_space_is_cut(address, "/0"@);
    let t = text::trimmed(address + "/0"@);
    let end = t.subrange(t.len() - 2, t.len() as int);
    assert(end[0] == t[t.len() - 2] && end[1] == t[t.len() - 1]);
    assert(t.drop_last().last() == '/');
    assert(text::after_last(t, '/') =~= seq!['0']);
}

proof fn texts_read_back(v: Seq<Seq<char>>)
    ensures
        <Vec<String> as Readable>::fault(<Vec<String> as Writable>::tree(v)) is None,
        <Vec<String> as Readable>::value(<Vec<String> as Writable>::tree(v)) == v,
        canonical::well_written(<Vec<String> as Writable>::tree(v)),
{
    let t = <Vec<String> as Writable>::tree(v);
    json::a_list_is_read_where_every_item_is::<String>(t->List_0);
    assert(<Vec<String> as Readable>::value(t) =~= v);
    assert forall|i: int| 0 <= i < v.len() implies canonical::well_written(
        #[trigger] t->List_0[i],
    ) by {}
}

proof fn an_egress_policy_reads_back(v: EgressPolicyModel)
    ensures
        EgressPolicy::fault(EgressPolicy::tree(v)) is None,
        EgressPolicy::value(EgressPolicy::tree(v)) == v,
        canonical::well_written(EgressPolicy::tree(v)),
{
    let t = EgressPolicy::tree(v);
    let members = t->Object_0;
    reveal_strlit("policy_names");
    reveal_strlit("cidrs");
    reveal_strlit("selectors");
    reveal_strlit("deny_all");
    assert(members[0].0 == "policy_names"@);
    assert(members[1].0 == "cidrs"@);
    assert(members[2].0 == "selectors"@);
    assert(members[3].0 == "deny_all"@);
    json::a_first_member_is_found(members, 0);
    json::a_first_member_is_found(members, 1);
    json::a_first_member_is_found(members, 2);
    json::a_first_member_is_found(members, 3);
    texts_read_back(v.policy_names);
    texts_read_back(v.cidrs);
    texts_read_back(v.selectors);
    assert(canonical::well_written(members[3].1));
    assert forall|j: int| 0 <= j < members.len() implies EgressPolicy::member_fault(
        (#[trigger] members[j]).0,
        members[j].1,
    ) is None by {}
    json::members_are_read_where_each_is::<EgressPolicy>(members);
}

proof fn a_rule_reads_back(v: RbacRuleModel)
    ensures
        RbacRule::fault(RbacRule::tree(v)) is None,
        RbacRule::value(RbacRule::tree(v)) == v,
        canonical::well_written(RbacRule::tree(v)),
{
    let t = RbacRule::tree(v);
    let members = t->Object_0;
    reveal_strlit("binding");
    reveal_strlit("api_group");
    reveal_strlit("resource");
    reveal_strlit("verbs");
    reveal_strlit("namespace");
    assert("api_group"@[0] != "namespace"@[0]);
    assert(members[0].0 == "binding"@);
    assert(members[1].0 == "api_group"@);
    assert(members[2].0 == "resource"@);
    assert(members[3].0 == "verbs"@);
    assert(members[4].0 == "namespace"@);
    json::a_first_member_is_found(members, 0);
    json::a_first_member_is_found(members, 1);
    json::a_first_member_is_found(members, 2);
    json::a_first_member_is_found(members, 3);
    json::a_first_member_is_found(members, 4);
    texts_read_back(v.verbs);
    assert(canonical::well_written(members[0].1));
    assert(canonical::well_written(members[1].1));
    assert(canonical::well_written(members[2].1));
    assert(canonical::well_written(members[4].1));
    assert forall|j: int| 0 <= j < members.len() implies RbacRule::member_fault(
        (#[trigger] members[j]).0,
        members[j].1,
    ) is None by {}
    json::members_are_read_where_each_is::<RbacRule>(members);
}

proof fn rules_read_back(v: Seq<RbacRuleModel>)
    ensures
        <Vec<RbacRule> as Readable>::fault(<Vec<RbacRule> as Writable>::tree(v)) is None,
        <Vec<RbacRule> as Readable>::value(<Vec<RbacRule> as Writable>::tree(v)) == v,
        canonical::well_written(<Vec<RbacRule> as Writable>::tree(v)),
{
    let t = <Vec<RbacRule> as Writable>::tree(v);
    let items = t->List_0;
    assert forall|i: int| 0 <= i < items.len() implies RbacRule::fault(#[trigger] items[i]) is None
        && RbacRule::value(items[i]) == v[i] && canonical::well_written(items[i]) by {
        a_rule_reads_back(v[i]);
    }
    json::a_list_is_read_where_every_item_is::<RbacRule>(items);
    assert(<Vec<RbacRule> as Readable>::value(t) =~= v);
}

proof fn a_map_is_well_written(v: Seq<Pair>)
    ensures
        canonical::well_written(TextMap::tree(v)),
{
    let members = TextMap::tree(v)->Object_0;
    assert forall|i: int| 0 <= i < members.len() implies canonical::well_written(
        (#[trigger] members[i]).1,
    ) by {}
}

/// A snapshot that is written reads back as it was: a decision can be made again on the state that
/// it was made on.
pub proof fn a_written_snapshot_reads_back(v: ClusterSnapshotModel)
    requires
        crate::map::ascending(v.provenance),
    ensures
        ClusterSnapshot::fault(ClusterSnapshot::tree(v)) is None,
        ClusterSnapshot::value(ClusterSnapshot::tree(v)) == v,
        canonical::well_written(ClusterSnapshot::tree(v)),
{
    let t = ClusterSnapshot::tree(v);
    let members = t->Object_0;
    reveal_strlit("egress");
    reveal_strlit("rbac");
    reveal_strlit("trusted_image_prefixes");
    reveal_strlit("provenance");
    assert(members[0].0 == "egress"@);
    assert(members[1].0 == "rbac"@);
    assert(members[2].0 == "trusted_image_prefixes"@);
    assert(members[3].0 == "provenance"@);
    json::a_first_member_is_found(members, 0);
    json::a_first_member_is_found(members, 1);
    json::a_first_member_is_found(members, 2);
    json::a_first_member_is_found(members, 3);
    if let Some(policy) = v.egress {
        an_egress_policy_reads_back(policy);
    }
    assert(canonical::well_written(members[0].1));
    rules_read_back(v.rbac);
    texts_read_back(v.trusted_image_prefixes);
    crate::map::a_written_map_reads_back(v.provenance);
    a_map_is_well_written(v.provenance);
    assert forall|j: int| 0 <= j < members.len() implies ClusterSnapshot::member_fault(
        (#[trigger] members[j]).0,
        members[j].1,
    ) is None by {}
    json::members_are_read_where_each_is::<ClusterSnapshot>(members);
}

/// What is hashed into an identity says one cluster state: no two are written alike.
pub proof fn no_two_states_are_written_alike(a: ClusterSnapshotModel, b: ClusterSnapshotModel)
    requires
        crate::map::ascending(a.provenance),
        crate::map::ascending(b.provenance),
        json::rendered(ClusterSnapshot::tree(a)) == json::rendered(ClusterSnapshot::tree(b)),
    ensures
        a == b,
{
    a_written_snapshot_reads_back(a);
    a_written_snapshot_reads_back(b);
    canonical::a_text_says_one_document(ClusterSnapshot::tree(a), ClusterSnapshot::tree(b));
}

/// A block is open exactly where its prefix length is zero, however many digits it has and whatever
/// address stands before it; and an address without a prefix length is never open.
pub proof fn a_block_is_open_where_its_prefix_length_is_zero(address: Seq<char>, d: Seq<char>)
    requires
        d.len() > 0,
        text::all_digits(d),
    ensures
        is_open_cidr(address + seq!['/'] + d) <==> text::digits_value(d) == 0,
        !address.contains('/') ==> !is_open_cidr(address),
{
    let tail = seq!['/'] + d;
    let s = address + seq!['/'] + d;
    assert(s =~= address + tail);
    assert(text::is_digit(d[d.len() - 1]));
    assert(tail.last() == d[d.len() - 1]);
    only_leading_space_is_cut(address, tail);
    let t = text::trimmed(s);
    let head = t.subrange(0, t.len() - tail.len());
    assert(t =~= head + seq!['/'] + d) by {
        let end = t.subrange(t.len() - tail.len(), t.len() as int);
        assert forall|i: int| 0 <= i < t.len() implies t[i] == (head + seq!['/'] + d)[i] by {
            if i >= head.len() {
                assert(t[i] == end[i - head.len()]);
            }
        }
    }
    assert(!d.contains('/')) by {
        if d.contains('/') {
            let i = choose|i: int| 0 <= i < d.len() && d[i] == '/';
            assert(text::is_digit(d[i]));
        }
    }
    text::what_stands_after_the_last(head, '/', d);
    assert(t[head.len() as int] == '/');
    zeros_are_worth_nothing(d);
    if !address.contains('/') {
        text::trimming_takes_off_space_alone(address);
        let u = text::trimmed(address);
        if u.contains('/') {
            let i = choose|i: int| 0 <= i < u.len() && u[i] == '/';
            let (a, b) = choose|a: int, b: int|
                0 <= a <= b <= address.len() && u == #[trigger] address.subrange(a, b) && (
                forall|i: int|
                    0 <= i < a || b <= i < address.len() ==> text::is_space(#[trigger] address[i]));
            assert(address[a + i] == '/');
        }
    }
}

proof fn zeros_are_worth_nothing(d: Seq<char>)
    requires
        text::all_digits(d),
    ensures
        text::digits_value(d) == 0 <==> forall|i: int| 0 <= i < d.len() ==> #[trigger] d[i] == '0',
    decreases d.len(),
{
    if d.len() > 0 {
        let short = d.drop_last();
        assert forall|i: int| 0 <= i < short.len() implies text::is_digit(#[trigger] short[i]) by {
            assert(short[i] == d[i]);
        }
        zeros_are_worth_nothing(short);
        assert(text::is_digit(d[d.len() - 1]));
        if text::digits_value(d) == 0 {
            assert forall|i: int| 0 <= i < d.len() implies #[trigger] d[i] == '0' by {
                if i < short.len() {
                    assert(short[i] == d[i]);
                }
            }
        }
        if forall|i: int| 0 <= i < d.len() ==> #[trigger] d[i] == '0' {
            assert forall|i: int| 0 <= i < short.len() implies #[trigger] short[i] == '0' by {
                assert(short[i] == d[i]);
            }
            assert(d[d.len() - 1] == '0');
        }
    }
}

/// A verb is held where it is listed or every verb is, and to write is to hold any verb that changes
/// something.
pub proof fn a_verb_is_held_by_name_or_by_star(r: RbacRuleModel, verb: Seq<char>)
    ensures
        r.allows(verb) <==> r.verbs.contains(verb) || r.verbs.contains("*"@),
        r.writes() <==> r.verbs.contains("*"@) || r.verbs.contains("create"@) || r.verbs.contains(
            "update"@,
        ) || r.verbs.contains("patch"@) || r.verbs.contains("delete"@) || r.verbs.contains(
            "deletecollection"@,
        ),
{
    holds_verb(r, verb);
    holds_verb(r, "create"@);
    holds_verb(r, "update"@);
    holds_verb(r, "patch"@);
    holds_verb(r, "delete"@);
    holds_verb(r, "deletecollection"@);
    holds_verb(r, "*"@);
}

proof fn holds_verb(r: RbacRuleModel, verb: Seq<char>)
    ensures
        r.allows(verb) <==> r.verbs.contains(verb) || r.verbs.contains("*"@),
{
    if r.allows(verb) {
        let i = choose|i: int|
            0 <= i < r.verbs.len() && (#[trigger] r.verbs[i] == "*"@ || r.verbs[i] == verb);
        assert(r.verbs.contains(r.verbs[i]));
    }
    if r.verbs.contains(verb) {
        let i = choose|i: int| 0 <= i < r.verbs.len() && r.verbs[i] == verb;
        assert(r.verbs[i] == verb);
    }
    if r.verbs.contains("*"@) {
        let i = choose|i: int| 0 <= i < r.verbs.len() && r.verbs[i] == "*"@;
        assert(r.verbs[i] == "*"@);
    }
}

/// A rule is a route to more authority exactly where it reads core Secrets, creates core Pods, writes a
/// workload that creates Pods on its behalf, holds a verb that hands out authority, or holds
/// everything on everything. The scope of the rule has no part in it.
pub proof fn a_route_to_more_authority(r: RbacRuleModel, scope: Option<Seq<char>>)
    ensures
        r.escalation() is Some <==> {
            let holds = |verb: Seq<char>| r.verbs.contains(verb) || r.verbs.contains("*"@);
            ||| r.api_group.len() == 0 && r.resource == "secrets"@ && (holds("get"@) || holds(
                "list"@,
            ))
            ||| r.api_group.len() == 0 && r.resource == "pods"@ && holds("create"@)
            ||| seq![
                "deployments"@,
                "daemonsets"@,
                "statefulsets"@,
                "jobs"@,
                "cronjobs"@,
                "replicasets"@,
            ].contains(r.resource) && (holds("create"@) || holds("update"@) || holds("patch"@)
                || holds("delete"@) || holds("deletecollection"@))
            ||| holds("escalate"@) || holds("bind"@) || holds("impersonate"@)
            ||| r.resource == "*"@ && r.verbs.contains("*"@)
        },
        (RbacRuleModel { namespace: scope, ..r }).escalation() == r.escalation(),
        r.verbs.contains("*"@) ==> r.escalation() is Some,
{
    holds_verb(r, "get"@);
    holds_verb(r, "list"@);
    holds_verb(r, "escalate"@);
    holds_verb(r, "bind"@);
    holds_verb(r, "impersonate"@);
    a_verb_is_held_by_name_or_by_star(r, "create"@);
    holds_verb(r, "*"@);
    let w = seq![
        "deployments"@,
        "daemonsets"@,
        "statefulsets"@,
        "jobs"@,
        "cronjobs"@,
        "replicasets"@,
    ];
    assert(w.len() == 6);
    assert(w[0] == "deployments"@ && w[1] == "daemonsets"@ && w[2] == "statefulsets"@ && w[3]
        == "jobs"@ && w[4] == "cronjobs"@ && w[5] == "replicasets"@);
    let q = RbacRuleModel { namespace: scope, ..r };
    a_verb_is_held_by_name_or_by_star(q, "create"@);
    holds_verb(q, "get"@);
    holds_verb(q, "list"@);
    holds_verb(q, "escalate"@);
    holds_verb(q, "bind"@);
    holds_verb(q, "impersonate"@);
    holds_verb(q, "*"@);
}

/// A source is vouched for by any prefix that it begins with, except an empty one, and by nothing
/// else.
pub proof fn a_prefix_vouches_for_what_begins_with_it(
    prefix: Seq<char>,
    rest: Seq<char>,
    prefixes: Seq<Seq<char>>,
    image: Seq<char>,
)
    ensures
        prefixes.contains(prefix) && prefix.len() > 0 ==> under_prefix(prefix + rest, prefixes),
        under_prefix(image, prefixes) ==> exists|p: Seq<char>|
            p.len() > 0 && #[trigger] prefixes.contains(p) && p.len() <= image.len()
                && image.subrange(0, p.len() as int) == p,
        !under_prefix(image, seq![Seq::empty()]),
{
    if prefixes.contains(prefix) && prefix.len() > 0 {
        let i = choose|i: int| 0 <= i < prefixes.len() && prefixes[i] == prefix;
        assert((prefix + rest).subrange(0, prefix.len() as int) =~= prefix);
        assert(prefixes[i].len() > 0 && text::starts_with(prefix + rest, prefixes[i]));
    }
    if under_prefix(image, prefixes) {
        let i = choose|i: int|
            0 <= i < prefixes.len() && (#[trigger] prefixes[i]).len() > 0 && text::starts_with(
                image,
                prefixes[i],
            );
        assert(prefixes.contains(prefixes[i]));
    }
}

/// A cluster snapshot is read field by field: each from the member of its name or the item of its place, and left
/// empty where there is neither.
pub proof fn a_cluster_snapshot_is_read_field_by_field(
    members: Seq<(Seq<char>, Tree)>,
    items: Seq<Tree>,
    i: int,
)
    requires
        json::are_distinct(members),
    ensures
        0 <= i < members.len() && members[i].0 == "egress"@ ==> ClusterSnapshot::value(Tree::Object(members)).egress
            == <Option<EgressPolicy> as Readable>::value(members[i].1),
        !json::is_there(members, "egress"@) ==> ClusterSnapshot::value(Tree::Object(members)).egress == <Option<EgressPolicy> as Readable>::nothing(),
        items.len() > 0 ==> ClusterSnapshot::value(Tree::List(items)).egress == <Option<EgressPolicy> as Readable>::value(items[0]),
        0 <= i < members.len() && members[i].0 == "rbac"@ ==> ClusterSnapshot::value(Tree::Object(members)).rbac
            == <Vec<RbacRule> as Readable>::value(members[i].1),
        !json::is_there(members, "rbac"@) ==> ClusterSnapshot::value(Tree::Object(members)).rbac == <Vec<RbacRule> as Readable>::nothing(),
        items.len() > 1 ==> ClusterSnapshot::value(Tree::List(items)).rbac == <Vec<RbacRule> as Readable>::value(items[1]),
        0 <= i < members.len() && members[i].0 == "trusted_image_prefixes"@ ==> ClusterSnapshot::value(Tree::Object(members)).trusted_image_prefixes
            == <Vec<String> as Readable>::value(members[i].1),
        !json::is_there(members, "trusted_image_prefixes"@) ==> ClusterSnapshot::value(Tree::Object(members)).trusted_image_prefixes == <Vec<String> as Readable>::nothing(),
        items.len() > 2 ==> ClusterSnapshot::value(Tree::List(items)).trusted_image_prefixes == <Vec<String> as Readable>::value(items[2]),
        0 <= i < members.len() && members[i].0 == "provenance"@ ==> ClusterSnapshot::value(Tree::Object(members)).provenance
            == TextMap::value(members[i].1),
        !json::is_there(members, "provenance"@) ==> ClusterSnapshot::value(Tree::Object(members)).provenance == TextMap::nothing(),
        items.len() > 3 ==> ClusterSnapshot::value(Tree::List(items)).provenance == TextMap::value(items[3]),
{
    json::a_field_is_read_by_name_or_place::<Option<EgressPolicy>>(members, items, i, "egress"@, 0);
    json::a_field_is_read_by_name_or_place::<Vec<RbacRule>>(members, items, i, "rbac"@, 1);
    json::a_field_is_read_by_name_or_place::<Vec<String>>(members, items, i, "trusted_image_prefixes"@, 2);
    json::a_field_is_read_by_name_or_place::<TextMap>(members, items, i, "provenance"@, 3);
}

/// A cluster snapshot is read wherever each of its members can be.
pub proof fn a_cluster_snapshot_is_read_where_its_members_are(members: Seq<(Seq<char>, Tree)>)
    requires
        json::are_distinct(members),
        forall|j: int|
            0 <= j < members.len() && (#[trigger] members[j]).0 == "egress"@ ==> <Option<EgressPolicy> as Readable>::fault(members[j].1) is None,
        forall|j: int|
            0 <= j < members.len() && (#[trigger] members[j]).0 == "rbac"@ ==> <Vec<RbacRule> as Readable>::fault(members[j].1) is None,
        forall|j: int|
            0 <= j < members.len() && (#[trigger] members[j]).0 == "trusted_image_prefixes"@ ==> <Vec<String> as Readable>::fault(members[j].1) is None,
        forall|j: int|
            0 <= j < members.len() && (#[trigger] members[j]).0 == "provenance"@ ==> TextMap::fault(members[j].1) is None,
    ensures
        ClusterSnapshot::fault(Tree::Object(members)) is None,
{
    assert forall|j: int| 0 <= j < members.len() implies ClusterSnapshot::member_fault(
        (#[trigger] members[j]).0,
        members[j].1,
    ) is None by {}
    json::members_are_read_where_each_is::<ClusterSnapshot>(members);
    assert(json::field_fault::<Option<EgressPolicy>>(Tree::Object(members), "egress"@, 0) is None) by {
        json::a_member_is_found_by_name(members, "egress"@);
        if let Some(v) = json::lookup(members, "egress"@) {
            let j = choose|j: int| 0 <= j < members.len() && members[j] == ("egress"@, v);
            assert(members[j].0 == "egress"@);
        }
    }
    assert(json::field_fault::<Vec<RbacRule>>(Tree::Object(members), "rbac"@, 1) is None) by {
        json::a_member_is_found_by_name(members, "rbac"@);
        if let Some(v) = json::lookup(members, "rbac"@) {
            let j = choose|j: int| 0 <= j < members.len() && members[j] == ("rbac"@, v);
            assert(members[j].0 == "rbac"@);
        }
    }
    assert(json::field_fault::<Vec<String>>(Tree::Object(members), "trusted_image_prefixes"@, 2) is None) by {
        json::a_member_is_found_by_name(members, "trusted_image_prefixes"@);
        if let Some(v) = json::lookup(members, "trusted_image_prefixes"@) {
            let j = choose|j: int| 0 <= j < members.len() && members[j] == ("trusted_image_prefixes"@, v);
            assert(members[j].0 == "trusted_image_prefixes"@);
        }
    }
    assert(json::field_fault::<TextMap>(Tree::Object(members), "provenance"@, 3) is None) by {
        json::a_member_is_found_by_name(members, "provenance"@);
        if let Some(v) = json::lookup(members, "provenance"@) {
            let j = choose|j: int| 0 <= j < members.len() && members[j] == ("provenance"@, v);
            assert(members[j].0 == "provenance"@);
        }
    }
}

/// A cluster snapshot is refused for any one member that cannot be read.
pub proof fn a_cluster_snapshot_is_refused_for_one_member(members: Seq<(Seq<char>, Tree)>, i: int)
    requires
        json::are_distinct(members),
    ensures
        0 <= i < members.len() && members[i].0 == "egress"@ && <Option<EgressPolicy> as Readable>::fault(members[i].1) is Some
            ==> ClusterSnapshot::fault(Tree::Object(members)) is Some,
        0 <= i < members.len() && members[i].0 == "rbac"@ && <Vec<RbacRule> as Readable>::fault(members[i].1) is Some
            ==> ClusterSnapshot::fault(Tree::Object(members)) is Some,
        0 <= i < members.len() && members[i].0 == "trusted_image_prefixes"@ && <Vec<String> as Readable>::fault(members[i].1) is Some
            ==> ClusterSnapshot::fault(Tree::Object(members)) is Some,
        0 <= i < members.len() && members[i].0 == "provenance"@ && TextMap::fault(members[i].1) is Some
            ==> ClusterSnapshot::fault(Tree::Object(members)) is Some,
{
    json::a_field_is_read_by_name_or_place::<Option<EgressPolicy>>(members, Seq::empty(), i, "egress"@, 0);
    json::a_field_is_read_by_name_or_place::<Vec<RbacRule>>(members, Seq::empty(), i, "rbac"@, 1);
    json::a_field_is_read_by_name_or_place::<Vec<String>>(members, Seq::empty(), i, "trusted_image_prefixes"@, 2);
    json::a_field_is_read_by_name_or_place::<TextMap>(members, Seq::empty(), i, "provenance"@, 3);
}

/// An egress policy is read field by field: each from the member of its name or the item of its place, and left
/// empty where there is neither.
pub proof fn an_egress_policy_is_read_field_by_field(
    members: Seq<(Seq<char>, Tree)>,
    items: Seq<Tree>,
    i: int,
)
    requires
        json::are_distinct(members),
    ensures
        0 <= i < members.len() && members[i].0 == "policy_names"@ ==> EgressPolicy::value(Tree::Object(members)).policy_names
            == <Vec<String> as Readable>::value(members[i].1),
        !json::is_there(members, "policy_names"@) ==> EgressPolicy::value(Tree::Object(members)).policy_names == <Vec<String> as Readable>::nothing(),
        items.len() > 0 ==> EgressPolicy::value(Tree::List(items)).policy_names == <Vec<String> as Readable>::value(items[0]),
        0 <= i < members.len() && members[i].0 == "cidrs"@ ==> EgressPolicy::value(Tree::Object(members)).cidrs
            == <Vec<String> as Readable>::value(members[i].1),
        !json::is_there(members, "cidrs"@) ==> EgressPolicy::value(Tree::Object(members)).cidrs == <Vec<String> as Readable>::nothing(),
        items.len() > 1 ==> EgressPolicy::value(Tree::List(items)).cidrs == <Vec<String> as Readable>::value(items[1]),
        0 <= i < members.len() && members[i].0 == "selectors"@ ==> EgressPolicy::value(Tree::Object(members)).selectors
            == <Vec<String> as Readable>::value(members[i].1),
        !json::is_there(members, "selectors"@) ==> EgressPolicy::value(Tree::Object(members)).selectors == <Vec<String> as Readable>::nothing(),
        items.len() > 2 ==> EgressPolicy::value(Tree::List(items)).selectors == <Vec<String> as Readable>::value(items[2]),
        0 <= i < members.len() && members[i].0 == "deny_all"@ ==> EgressPolicy::value(Tree::Object(members)).deny_all
            == bool::value(members[i].1),
        !json::is_there(members, "deny_all"@) ==> EgressPolicy::value(Tree::Object(members)).deny_all == bool::nothing(),
        items.len() > 3 ==> EgressPolicy::value(Tree::List(items)).deny_all == bool::value(items[3]),
{
    json::a_field_is_read_by_name_or_place::<Vec<String>>(members, items, i, "policy_names"@, 0);
    json::a_field_is_read_by_name_or_place::<Vec<String>>(members, items, i, "cidrs"@, 1);
    json::a_field_is_read_by_name_or_place::<Vec<String>>(members, items, i, "selectors"@, 2);
    json::a_field_is_read_by_name_or_place::<bool>(members, items, i, "deny_all"@, 3);
}

/// An egress policy is read wherever each of its members can be.
pub proof fn an_egress_policy_is_read_where_its_members_are(members: Seq<(Seq<char>, Tree)>)
    requires
        json::are_distinct(members),
        forall|j: int|
            0 <= j < members.len() && (#[trigger] members[j]).0 == "policy_names"@ ==> <Vec<String> as Readable>::fault(members[j].1) is None,
        forall|j: int|
            0 <= j < members.len() && (#[trigger] members[j]).0 == "cidrs"@ ==> <Vec<String> as Readable>::fault(members[j].1) is None,
        forall|j: int|
            0 <= j < members.len() && (#[trigger] members[j]).0 == "selectors"@ ==> <Vec<String> as Readable>::fault(members[j].1) is None,
        forall|j: int|
            0 <= j < members.len() && (#[trigger] members[j]).0 == "deny_all"@ ==> bool::fault(members[j].1) is None,
    ensures
        EgressPolicy::fault(Tree::Object(members)) is None,
{
    assert forall|j: int| 0 <= j < members.len() implies EgressPolicy::member_fault(
        (#[trigger] members[j]).0,
        members[j].1,
    ) is None by {}
    json::members_are_read_where_each_is::<EgressPolicy>(members);
    assert(json::field_fault::<Vec<String>>(Tree::Object(members), "policy_names"@, 0) is None) by {
        json::a_member_is_found_by_name(members, "policy_names"@);
        if let Some(v) = json::lookup(members, "policy_names"@) {
            let j = choose|j: int| 0 <= j < members.len() && members[j] == ("policy_names"@, v);
            assert(members[j].0 == "policy_names"@);
        }
    }
    assert(json::field_fault::<Vec<String>>(Tree::Object(members), "cidrs"@, 1) is None) by {
        json::a_member_is_found_by_name(members, "cidrs"@);
        if let Some(v) = json::lookup(members, "cidrs"@) {
            let j = choose|j: int| 0 <= j < members.len() && members[j] == ("cidrs"@, v);
            assert(members[j].0 == "cidrs"@);
        }
    }
    assert(json::field_fault::<Vec<String>>(Tree::Object(members), "selectors"@, 2) is None) by {
        json::a_member_is_found_by_name(members, "selectors"@);
        if let Some(v) = json::lookup(members, "selectors"@) {
            let j = choose|j: int| 0 <= j < members.len() && members[j] == ("selectors"@, v);
            assert(members[j].0 == "selectors"@);
        }
    }
    assert(json::field_fault::<bool>(Tree::Object(members), "deny_all"@, 3) is None) by {
        json::a_member_is_found_by_name(members, "deny_all"@);
        if let Some(v) = json::lookup(members, "deny_all"@) {
            let j = choose|j: int| 0 <= j < members.len() && members[j] == ("deny_all"@, v);
            assert(members[j].0 == "deny_all"@);
        }
    }
}

/// An egress policy is refused for any one member that cannot be read.
pub proof fn an_egress_policy_is_refused_for_one_member(members: Seq<(Seq<char>, Tree)>, i: int)
    requires
        json::are_distinct(members),
    ensures
        0 <= i < members.len() && members[i].0 == "policy_names"@ && <Vec<String> as Readable>::fault(members[i].1) is Some
            ==> EgressPolicy::fault(Tree::Object(members)) is Some,
        0 <= i < members.len() && members[i].0 == "cidrs"@ && <Vec<String> as Readable>::fault(members[i].1) is Some
            ==> EgressPolicy::fault(Tree::Object(members)) is Some,
        0 <= i < members.len() && members[i].0 == "selectors"@ && <Vec<String> as Readable>::fault(members[i].1) is Some
            ==> EgressPolicy::fault(Tree::Object(members)) is Some,
        0 <= i < members.len() && members[i].0 == "deny_all"@ && bool::fault(members[i].1) is Some
            ==> EgressPolicy::fault(Tree::Object(members)) is Some,
{
    json::a_field_is_read_by_name_or_place::<Vec<String>>(members, Seq::empty(), i, "policy_names"@, 0);
    json::a_field_is_read_by_name_or_place::<Vec<String>>(members, Seq::empty(), i, "cidrs"@, 1);
    json::a_field_is_read_by_name_or_place::<Vec<String>>(members, Seq::empty(), i, "selectors"@, 2);
    json::a_field_is_read_by_name_or_place::<bool>(members, Seq::empty(), i, "deny_all"@, 3);
}

/// A rbac rule is read field by field: each from the member of its name or the item of its place, and left
/// empty where there is neither.
pub proof fn a_rbac_rule_is_read_field_by_field(
    members: Seq<(Seq<char>, Tree)>,
    items: Seq<Tree>,
    i: int,
)
    requires
        json::are_distinct(members),
    ensures
        0 <= i < members.len() && members[i].0 == "binding"@ ==> RbacRule::value(Tree::Object(members)).binding
            == String::value(members[i].1),
        !json::is_there(members, "binding"@) ==> RbacRule::value(Tree::Object(members)).binding == String::nothing(),
        items.len() > 0 ==> RbacRule::value(Tree::List(items)).binding == String::value(items[0]),
        0 <= i < members.len() && members[i].0 == "api_group"@ ==> RbacRule::value(Tree::Object(members)).api_group
            == String::value(members[i].1),
        !json::is_there(members, "api_group"@) ==> RbacRule::value(Tree::Object(members)).api_group == String::nothing(),
        items.len() > 1 ==> RbacRule::value(Tree::List(items)).api_group == String::value(items[1]),
        0 <= i < members.len() && members[i].0 == "resource"@ ==> RbacRule::value(Tree::Object(members)).resource
            == String::value(members[i].1),
        !json::is_there(members, "resource"@) ==> RbacRule::value(Tree::Object(members)).resource == String::nothing(),
        items.len() > 2 ==> RbacRule::value(Tree::List(items)).resource == String::value(items[2]),
        0 <= i < members.len() && members[i].0 == "verbs"@ ==> RbacRule::value(Tree::Object(members)).verbs
            == <Vec<String> as Readable>::value(members[i].1),
        !json::is_there(members, "verbs"@) ==> RbacRule::value(Tree::Object(members)).verbs == <Vec<String> as Readable>::nothing(),
        items.len() > 3 ==> RbacRule::value(Tree::List(items)).verbs == <Vec<String> as Readable>::value(items[3]),
        0 <= i < members.len() && members[i].0 == "namespace"@ ==> RbacRule::value(Tree::Object(members)).namespace
            == <Option<String> as Readable>::value(members[i].1),
        !json::is_there(members, "namespace"@) ==> RbacRule::value(Tree::Object(members)).namespace == <Option<String> as Readable>::nothing(),
        items.len() > 4 ==> RbacRule::value(Tree::List(items)).namespace == <Option<String> as Readable>::value(items[4]),
{
    json::a_field_is_read_by_name_or_place::<String>(members, items, i, "binding"@, 0);
    json::a_field_is_read_by_name_or_place::<String>(members, items, i, "api_group"@, 1);
    json::a_field_is_read_by_name_or_place::<String>(members, items, i, "resource"@, 2);
    json::a_field_is_read_by_name_or_place::<Vec<String>>(members, items, i, "verbs"@, 3);
    json::a_field_is_read_by_name_or_place::<Option<String>>(members, items, i, "namespace"@, 4);
}

/// A rbac rule is read wherever each of its members can be.
pub proof fn a_rbac_rule_is_read_where_its_members_are(members: Seq<(Seq<char>, Tree)>)
    requires
        json::are_distinct(members),
        forall|j: int|
            0 <= j < members.len() && (#[trigger] members[j]).0 == "binding"@ ==> String::fault(members[j].1) is None,
        forall|j: int|
            0 <= j < members.len() && (#[trigger] members[j]).0 == "api_group"@ ==> String::fault(members[j].1) is None,
        forall|j: int|
            0 <= j < members.len() && (#[trigger] members[j]).0 == "resource"@ ==> String::fault(members[j].1) is None,
        forall|j: int|
            0 <= j < members.len() && (#[trigger] members[j]).0 == "verbs"@ ==> <Vec<String> as Readable>::fault(members[j].1) is None,
        forall|j: int|
            0 <= j < members.len() && (#[trigger] members[j]).0 == "namespace"@ ==> <Option<String> as Readable>::fault(members[j].1) is None,
    ensures
        RbacRule::fault(Tree::Object(members)) is None,
{
    assert forall|j: int| 0 <= j < members.len() implies RbacRule::member_fault(
        (#[trigger] members[j]).0,
        members[j].1,
    ) is None by {}
    json::members_are_read_where_each_is::<RbacRule>(members);
    assert(json::field_fault::<String>(Tree::Object(members), "binding"@, 0) is None) by {
        json::a_member_is_found_by_name(members, "binding"@);
        if let Some(v) = json::lookup(members, "binding"@) {
            let j = choose|j: int| 0 <= j < members.len() && members[j] == ("binding"@, v);
            assert(members[j].0 == "binding"@);
        }
    }
    assert(json::field_fault::<String>(Tree::Object(members), "api_group"@, 1) is None) by {
        json::a_member_is_found_by_name(members, "api_group"@);
        if let Some(v) = json::lookup(members, "api_group"@) {
            let j = choose|j: int| 0 <= j < members.len() && members[j] == ("api_group"@, v);
            assert(members[j].0 == "api_group"@);
        }
    }
    assert(json::field_fault::<String>(Tree::Object(members), "resource"@, 2) is None) by {
        json::a_member_is_found_by_name(members, "resource"@);
        if let Some(v) = json::lookup(members, "resource"@) {
            let j = choose|j: int| 0 <= j < members.len() && members[j] == ("resource"@, v);
            assert(members[j].0 == "resource"@);
        }
    }
    assert(json::field_fault::<Vec<String>>(Tree::Object(members), "verbs"@, 3) is None) by {
        json::a_member_is_found_by_name(members, "verbs"@);
        if let Some(v) = json::lookup(members, "verbs"@) {
            let j = choose|j: int| 0 <= j < members.len() && members[j] == ("verbs"@, v);
            assert(members[j].0 == "verbs"@);
        }
    }
    assert(json::field_fault::<Option<String>>(Tree::Object(members), "namespace"@, 4) is None) by {
        json::a_member_is_found_by_name(members, "namespace"@);
        if let Some(v) = json::lookup(members, "namespace"@) {
            let j = choose|j: int| 0 <= j < members.len() && members[j] == ("namespace"@, v);
            assert(members[j].0 == "namespace"@);
        }
    }
}

/// A rbac rule is refused for any one member that cannot be read.
pub proof fn a_rbac_rule_is_refused_for_one_member(members: Seq<(Seq<char>, Tree)>, i: int)
    requires
        json::are_distinct(members),
    ensures
        0 <= i < members.len() && members[i].0 == "binding"@ && String::fault(members[i].1) is Some
            ==> RbacRule::fault(Tree::Object(members)) is Some,
        0 <= i < members.len() && members[i].0 == "api_group"@ && String::fault(members[i].1) is Some
            ==> RbacRule::fault(Tree::Object(members)) is Some,
        0 <= i < members.len() && members[i].0 == "resource"@ && String::fault(members[i].1) is Some
            ==> RbacRule::fault(Tree::Object(members)) is Some,
        0 <= i < members.len() && members[i].0 == "verbs"@ && <Vec<String> as Readable>::fault(members[i].1) is Some
            ==> RbacRule::fault(Tree::Object(members)) is Some,
        0 <= i < members.len() && members[i].0 == "namespace"@ && <Option<String> as Readable>::fault(members[i].1) is Some
            ==> RbacRule::fault(Tree::Object(members)) is Some,
{
    json::a_field_is_read_by_name_or_place::<String>(members, Seq::empty(), i, "binding"@, 0);
    json::a_field_is_read_by_name_or_place::<String>(members, Seq::empty(), i, "api_group"@, 1);
    json::a_field_is_read_by_name_or_place::<String>(members, Seq::empty(), i, "resource"@, 2);
    json::a_field_is_read_by_name_or_place::<Vec<String>>(members, Seq::empty(), i, "verbs"@, 3);
    json::a_field_is_read_by_name_or_place::<Option<String>>(members, Seq::empty(), i, "namespace"@, 4);
}

/// A policy is open where any block that it permits is, and permits nothing where it denies all or
/// names no destination of either kind.
pub proof fn a_policy_is_as_wide_as_it_names(p: EgressPolicyModel, i: int)
    ensures
        0 <= i < p.cidrs.len() && is_open_cidr(p.cidrs[i]) ==> p.unrestricted(),
        (forall|j: int| 0 <= j < p.cidrs.len() ==> !is_open_cidr(#[trigger] p.cidrs[j]))
            ==> !p.unrestricted(),
        p.deny_all ==> p.nothing_permitted(),
        !p.deny_all && (p.cidrs.len() > 0 || p.selectors.len() > 0) ==> !p.nothing_permitted(),
        p.cidrs.len() == 0 && p.selectors.len() == 0 ==> p.nothing_permitted(),
{
}

} // verus!
