//! Building a snapshot from what the caches hold.
//!
//! The snapshot is an input, not a lookup: the API server calls the wall inside its own request
//! path. So the server watches, and everything here turns objects that are already cached into the
//! snapshot that the compiler takes.
//!
//! Two absences point in opposite directions. No network policy that selects the pod means
//! unrestricted egress, because that is what Kubernetes does; no binding that names its
//! ServiceAccount means no rules, which grants nothing.
use vstd::prelude::*;
use vstd::seq_lib;

use crate::cluster;
use crate::cluster::{
    ClusterSnapshot, ClusterSnapshotModel, EgressPolicy, EgressPolicyModel, RbacRule, RbacRuleModel,
};
use crate::json;
use crate::json::{Json, Tree};
use crate::map::{Pair, TextMap};
use crate::order;
use crate::order::{sort, sort_once};
use crate::serve::objects::{
    ClusterRole, ClusterRoleBinding, ClusterRoleBindingModel, ClusterRoleModel, IpBlock,
    LabelSelector, LabelSelectorModel, LabelSelectorRequirement, LabelSelectorRequirementModel,
    NetworkPolicy, NetworkPolicyEgressRule, NetworkPolicyEgressRuleModel, NetworkPolicyModel,
    NetworkPolicyPeer, NetworkPolicyPeerModel, PolicyRule, PolicyRuleModel, Role, RoleBinding,
    RoleBindingModel, RoleModel, Subject, SubjectModel,
};
use crate::text;
use crate::text::{copied, join, listed, owned, same};

verus! {

/// The facts about a pod that a snapshot depends on.
#[derive(Debug, Clone, PartialEq, Eq)]
pub struct PodSubject {
    pub namespace: String,
    pub labels: TextMap,
    pub service_account: String,
}

/// What a [`PodSubject`] says.
#[verifier::ext_equal]
pub struct PodSubjectModel {
    pub namespace: Seq<char>,
    pub labels: Seq<Pair>,
    pub service_account: Seq<char>,
}

impl DeepView for PodSubject {
    type V = PodSubjectModel;

    open spec fn deep_view(&self) -> PodSubjectModel {
        PodSubjectModel {
            namespace: self.namespace.deep_view(),
            labels: self.labels.deep_view(),
            service_account: self.service_account.deep_view(),
        }
    }
}

// ---------------------------------------------------------------------------------------------
// The pod
// ---------------------------------------------------------------------------------------------
/// The first `n` members whose value is a text, as a map.
pub open spec fn text_members(members: Seq<(Seq<char>, Tree)>, n: nat) -> Seq<Pair>
    decreases n,
{
    if n == 0 || n > members.len() {
        Seq::empty()
    } else {
        let before = text_members(members, (n - 1) as nat);
        match members[n - 1].1.as_text() {
            Some(v) => crate::map::inserted(before, members[n - 1].0, v),
            None => before,
        }
    }
}

/// The labels of an object: those that are texts.
pub open spec fn labels_of(object: Tree) -> Seq<Pair> {
    match object.at("metadata"@, "labels"@) {
        Some(Tree::Object(members)) => text_members(members, members.len()),
        _ => Seq::empty(),
    }
}

/// The ServiceAccount of a pod: the one it names, or else the one it names in the older field, and
/// Kubernetes' own default where that is no text or an empty one.
pub open spec fn account_of(object: Tree) -> Seq<char> {
    let found = match object.at("spec"@, "serviceAccountName"@) {
        Some(v) => Some(v),
        None => object.at("spec"@, "serviceAccount"@),
    };
    match found {
        Some(v) => match v.as_text() {
            Some(s) => if s.len() > 0 {
                s
            } else {
                "default"@
            },
            None => "default"@,
        },
        None => "default"@,
    }
}

fn read_labels(object: &Json) -> (r: TextMap)
    ensures
        r.deep_view() == labels_of(object@),
{
    match object.at("metadata", "labels") {
        Some(Json::Object(members)) => {
            let ghost tree = Json::Object(*members)@->Object_0;
            proof {
                crate::json::object_view(Json::Object(*members));
            }
            let mut out = TextMap::new();
            let mut i: usize = 0;
            while i < members.len()
                invariant
                    i <= members.len(),
                    tree == Seq::new(members@.len(), |k: int| (members@[k].0@, members@[k].1@)),
                    out.deep_view() == text_members(tree, i as nat),
                decreases members.len() - i,
            {
                assert(tree[i as int] == (members@[i as int].0@, members@[i as int].1@));
                if let Some(v) = members[i].1.as_text() {
                    out = out.with(members[i].0.as_str(), v.as_str());
                }
                i += 1;
            }
            out
        },
        _ => TextMap::new(),
    }
}

fn read_account(object: &Json) -> (r: String)
    ensures
        r@ == account_of(object@),
{
    let found: Option<&Json> = match object.at("spec", "serviceAccountName") {
        Some(v) => Some(v),
        None => object.at("spec", "serviceAccount"),
    };
    match found {
        Some(v) => match v.as_text() {
            Some(s) => if s.as_str().unicode_len() > 0 {
                s.clone()
            } else {
                owned("default")
            },
            None => owned("default"),
        },
        None => owned("default"),
    }
}

impl PodSubject {
    /// Read the facts out of a whole `Pod`, as the API server sends it.
    pub fn from_object(namespace: &str, object: &Json) -> (r: PodSubject)
        ensures
            r.deep_view() == (PodSubjectModel {
                namespace: namespace@,
                labels: labels_of(object@),
                service_account: account_of(object@),
            }),
    {
        PodSubject {
            namespace: owned(namespace),
            labels: read_labels(object),
            service_account: read_account(object),
        }
    }
}

// ---------------------------------------------------------------------------------------------
// Selection
// ---------------------------------------------------------------------------------------------
/// What an absent list holds.
pub open spec fn list_or_empty<A>(list: Option<Seq<A>>) -> Seq<A> {
    match list {
        Some(s) => s,
        None => Seq::empty(),
    }
}

/// An absent text is empty.
pub open spec fn text_or_empty(s: Option<Seq<char>>) -> Seq<char> {
    match s {
        Some(x) => x,
        None => Seq::empty(),
    }
}

/// An absent text is `other`.
pub open spec fn text_or(s: Option<Seq<char>>, other: Seq<char>) -> Seq<char> {
    match s {
        Some(x) => x,
        None => other,
    }
}

/// The labels meet one condition. An operator that is not known is no reason not to select:
/// selecting brings the policy's restrictions to bear.
pub open spec fn meets(e: LabelSelectorRequirementModel, labels: Seq<Pair>) -> bool {
    let present = crate::map::found(labels, e.key);
    let values = list_or_empty(e.values);
    if e.operator == "In"@ {
        present matches Some(v) && values.contains(v)
    } else if e.operator == "NotIn"@ {
        !(present matches Some(v) && values.contains(v))
    } else if e.operator == "Exists"@ {
        present is Some
    } else if e.operator == "DoesNotExist"@ {
        present is None
    } else {
        true
    }
}

/// A selector selects these labels: each of its labels is among them, and they meet each of its
/// conditions. An empty selector selects everything.
pub open spec fn selected_by(selector: LabelSelectorModel, labels: Seq<Pair>) -> bool {
    &&& forall|i: int|
        0 <= i < list_or_empty(selector.match_labels).len() ==> crate::map::found(
            labels,
            (#[trigger] list_or_empty(selector.match_labels)[i]).0,
        ) == Some(list_or_empty(selector.match_labels)[i].1)
    &&& forall|i: int|
        0 <= i < list_or_empty(selector.match_expressions).len() ==> meets(
            #[trigger] list_or_empty(selector.match_expressions)[i],
            labels,
        )
}

/// A policy governs egress: it says so, or it says nothing of the kind and has egress rules.
pub open spec fn is_about_egress(p: NetworkPolicyModel) -> bool {
    match p.spec {
        None => false,
        Some(s) => match s.policy_types {
            Some(types) => if types.len() > 0 {
                types.contains("Egress"@)
            } else {
                s.egress is Some
            },
            None => s.egress is Some,
        },
    }
}

/// A policy governs this pod's egress. A policy without a selector selects every pod of its
/// namespace.
pub open spec fn governs(subject: PodSubjectModel, p: NetworkPolicyModel) -> bool {
    &&& text_or_empty(p.metadata.namespace) == subject.namespace
    &&& is_about_egress(p)
    &&& p.spec->0.pod_selector matches Some(s) ==> selected_by(s, subject.labels)
}

fn meets_requirement(e: &LabelSelectorRequirement, labels: &TextMap) -> (r: bool)
    ensures
        r == meets(e.deep_view(), labels.deep_view()),
{
    let present = labels.get(e.key.as_str());
    let among: bool = match present {
        Some(v) => match &e.values {
            Some(values) => listed(values, v.as_str()),
            None => false,
        },
        None => false,
    };
    let op = e.operator.as_str();
    if same(op, "In") {
        among
    } else if same(op, "NotIn") {
        !among
    } else if same(op, "Exists") {
        present.is_some()
    } else if same(op, "DoesNotExist") {
        present.is_none()
    } else {
        true
    }
}

/// Does a selector select these labels?
pub fn selects(selector: &LabelSelector, labels: &TextMap) -> (r: bool)
    ensures
        r == selected_by(selector.deep_view(), labels.deep_view()),
{
    let ghost wanted = list_or_empty(selector.deep_view().match_labels);
    let ghost conditions = list_or_empty(selector.deep_view().match_expressions);
    if let Some(m) = &selector.match_labels {
        let n: usize = m.len();
        let mut i: usize = 0;
        while i < n
            invariant
                i <= n,
                n == m.deep_view().len(),
                wanted == m.deep_view(),
                wanted == list_or_empty(selector.deep_view().match_labels),
                forall|k: int|
                    0 <= k < i ==> crate::map::found(labels.deep_view(), (#[trigger] wanted[k]).0) == Some(
                        wanted[k].1,
                    ),
            decreases n - i,
        {
            let (k, v) = m.entry(i);
            assert(wanted[i as int] == (k@, v@));
            match labels.get(k.as_str()) {
                Some(x) => if !same(x.as_str(), v.as_str()) {
                    return false;
                },
                None => return false,
            }
            i += 1;
        }
    }
    if let Some(es) = &selector.match_expressions {
        let mut i: usize = 0;
        while i < es.len()
            invariant
                i <= es.len(),
                conditions == es.deep_view(),
                conditions == list_or_empty(selector.deep_view().match_expressions),
                forall|k: int|
                    0 <= k < i ==> meets(#[trigger] conditions[k], labels.deep_view()),
            decreases es.len() - i,
        {
            assert(conditions[i as int] == es@[i as int].deep_view());
            if !meets_requirement(&es[i], labels) {
                return false;
            }
            i += 1;
        }
    }
    true
}

/// Does this policy govern egress at all?
pub fn governs_egress(p: &NetworkPolicy) -> (r: bool)
    ensures
        r == is_about_egress(p.deep_view()),
{
    match &p.spec {
        None => false,
        Some(s) => match &s.policy_types {
            Some(types) => if types.len() > 0 {
                listed(types, "Egress")
            } else {
                s.egress.is_some()
            },
            None => s.egress.is_some(),
        },
    }
}

/// The text, or an empty one.
fn or_empty(s: &Option<String>) -> (r: &str)
    ensures
        r@ == text_or_empty(s.deep_view()),
{
    match s {
        Some(x) => x.as_str(),
        None => {
            proof {
                reveal_strlit("");
            }
            assert(""@ =~= Seq::<char>::empty());
            ""
        },
    }
}

/// The text, or another.
fn or_else<'a>(s: &'a Option<String>, other: &'a str) -> (r: &'a str)
    ensures
        r@ == text_or(s.deep_view(), other@),
{
    match s {
        Some(x) => x.as_str(),
        None => other,
    }
}

/// Does this policy govern this pod's egress?
pub fn policy_selects(subject: &PodSubject, p: &NetworkPolicy) -> (r: bool)
    ensures
        r == governs(subject.deep_view(), p.deep_view()),
{
    if !same(or_empty(&p.metadata.namespace), subject.namespace.as_str()) || !governs_egress(p) {
        return false;
    }
    match &p.spec {
        Some(s) => match &s.pod_selector {
            Some(sel) => selects(sel, &subject.labels),
            None => true,
        },
        None => false,
    }
}

// ---------------------------------------------------------------------------------------------
// Egress
// ---------------------------------------------------------------------------------------------
/// The policies that govern the pod's egress, in the order in which they are listed.
pub open spec fn governing(
    subject: PodSubjectModel,
    policies: Seq<NetworkPolicyModel>,
) -> Seq<NetworkPolicyModel>
    decreases policies.len(),
{
    if policies.len() == 0 {
        Seq::empty()
    } else {
        let before = governing(subject, policies.drop_last());
        if governs(subject, policies.last()) {
            before.push(policies.last())
        } else {
            before
        }
    }
}

/// `<namespace>/<name>`.
pub open spec fn policy_name(p: NetworkPolicyModel) -> Seq<char> {
    text_or_empty(p.metadata.namespace) + "/"@ + text_or(p.metadata.name, "<unnamed>"@)
}

/// `<namespace>/<name>@<resourceVersion>`.
pub open spec fn policy_pin(p: NetworkPolicyModel) -> Seq<char> {
    policy_name(p) + "@"@ + text_or(p.metadata.resource_version, "?"@)
}

/// The names of policies.
pub open spec fn policy_names(policies: Seq<NetworkPolicyModel>) -> Seq<Seq<char>> {
    Seq::new(policies.len(), |i: int| policy_name(policies[i]))
}

/// The revisions of policies.
pub open spec fn policy_pins(policies: Seq<NetworkPolicyModel>) -> Seq<Seq<char>> {
    Seq::new(policies.len(), |i: int| policy_pin(policies[i]))
}

/// A selector in words. The empty selector means all of them.
pub open spec fn selector_words(sel: LabelSelectorModel) -> Seq<char> {
    match sel.match_labels {
        Some(m) => if m.len() > 0 {
            text::joined(Seq::new(m.len(), |i: int| m[i].0 + "="@ + m[i].1), ","@)
        } else {
            "(all)"@
        },
        None => "(all)"@,
    }
}

/// Where a pod may reach: ranges of addresses, and everything else in words.
#[verifier::ext_equal]
pub struct Destinations {
    pub cidrs: Seq<Seq<char>>,
    pub selectors: Seq<Seq<char>>,
}

impl Destinations {
    /// Nowhere.
    pub open spec fn nowhere() -> Destinations {
        Destinations { cidrs: Seq::empty(), selectors: Seq::empty() }
    }

    /// These, and then others: rules add up.
    pub open spec fn plus(self, other: Destinations) -> Destinations {
        Destinations {
            cidrs: self.cidrs + other.cidrs,
            selectors: self.selectors + other.selectors,
        }
    }
}

/// A selector of one kind, where there is one.
pub open spec fn selector_words_of(kind: Seq<char>, sel: Option<LabelSelectorModel>) -> Seq<
    Seq<char>,
> {
    match sel {
        Some(s) => seq![kind + selector_words(s)],
        None => Seq::empty(),
    }
}

/// What one destination adds. A hole in a range adds no reach; it is named all the same.
pub open spec fn peer_reach(p: NetworkPolicyPeerModel) -> Destinations {
    let excepts = match p.ip_block {
        Some(b) => list_or_empty(b.except),
        None => Seq::empty(),
    };
    Destinations {
        cidrs: match p.ip_block {
            Some(b) => seq![b.cidr],
            None => Seq::empty(),
        },
        selectors: Seq::new(excepts.len(), |i: int| "except "@ + excepts[i]) + selector_words_of(
            "pods "@,
            p.pod_selector,
        ) + selector_words_of("namespaces "@, p.namespace_selector),
    }
}

/// What destinations add.
pub open spec fn peers_reach(peers: Seq<NetworkPolicyPeerModel>) -> Destinations
    decreases peers.len(),
{
    if peers.len() == 0 {
        Destinations::nowhere()
    } else {
        peers_reach(peers.drop_last()).plus(peer_reach(peers.last()))
    }
}

/// A rule that names no destination, which is every destination.
pub open spec fn is_open(r: NetworkPolicyEgressRuleModel) -> bool {
    list_or_empty(r.to).len() == 0
}

/// What one rule adds.
pub open spec fn rule_reach(r: NetworkPolicyEgressRuleModel) -> Destinations {
    if is_open(r) {
        Destinations { cidrs: seq!["0.0.0.0/0"@], selectors: Seq::empty() }
    } else {
        peers_reach(r.to->0)
    }
}

/// What rules add.
pub open spec fn rules_reach(rules: Seq<NetworkPolicyEgressRuleModel>) -> Destinations
    decreases rules.len(),
{
    if rules.len() == 0 {
        Destinations::nowhere()
    } else {
        rules_reach(rules.drop_last()).plus(rule_reach(rules.last()))
    }
}

/// What one policy adds.
pub open spec fn policy_reach(p: NetworkPolicyModel) -> Destinations {
    match p.spec {
        Some(s) => rules_reach(list_or_empty(s.egress)),
        None => Destinations::nowhere(),
    }
}

/// What policies add.
pub open spec fn policies_reach(policies: Seq<NetworkPolicyModel>) -> Destinations
    decreases policies.len(),
{
    if policies.len() == 0 {
        Destinations::nowhere()
    } else {
        policies_reach(policies.drop_last()).plus(policy_reach(policies.last()))
    }
}

/// The egress that the cluster will enforce on a pod: none known where no policy governs it, and
/// otherwise the sum of those that do.
pub open spec fn enforced_egress(
    subject: PodSubjectModel,
    policies: Seq<NetworkPolicyModel>,
) -> Option<EgressPolicyModel> {
    let g = governing(subject, policies);
    let d = policies_reach(g);
    if g.len() == 0 {
        None
    } else {
        Some(
            EgressPolicyModel {
                policy_names: order::in_order::<String>(policy_names(g)),
                cidrs: order::each_once::<String>(d.cidrs),
                selectors: order::each_once::<String>(d.selectors),
                deny_all: d.cidrs.len() == 0 && d.selectors.len() == 0,
            },
        )
    }
}

fn name_policy(p: &NetworkPolicy) -> (r: String)
    ensures
        r@ == policy_name(p.deep_view()),
{
    owned(or_empty(&p.metadata.namespace)).concat("/").concat(
        or_else(&p.metadata.name, "<unnamed>"),
    )
}

/// `<namespace>/<name>@<resourceVersion>` of every policy that governs the pod's egress: the
/// revision is what makes a cached read reproducible.
pub fn pinned(subject: &PodSubject, policies: &Vec<NetworkPolicy>) -> (r: Vec<String>)
    ensures
        r.deep_view() == order::in_order::<String>(
            policy_pins(governing(subject.deep_view(), policies.deep_view())),
        ),
{
    let ghost all = policies.deep_view();
    let ghost who = subject.deep_view();
    let mut out: Vec<String> = Vec::new();
    let mut i: usize = 0;
    assert(out.deep_view() =~= policy_pins(governing(who, all.subrange(0, 0))));
    while i < policies.len()
        invariant
            i <= policies.len(),
            all == policies.deep_view(),
            who == subject.deep_view(),
            out.deep_view() == policy_pins(governing(who, all.subrange(0, i as int))),
        decreases policies.len() - i,
    {
        let ghost next = all.subrange(0, i + 1);
        assert(next.drop_last() =~= all.subrange(0, i as int));
        let p = &policies[i];
        assert(next.last() == p.deep_view());
        if policy_selects(subject, p) {
            let ghost before = out.deep_view();
            let pin = name_policy(p).concat("@").concat(or_else(&p.metadata.resource_version, "?"));
            out.push(pin);
            assert(out.deep_view() =~= before.push(policy_pin(p.deep_view())));
            assert(out.deep_view() =~= policy_pins(governing(who, next)));
        }
        i += 1;
    }
    assert(all.subrange(0, i as int) =~= all);
    sort(&out)
}

/// A selector in words.
pub fn describe(sel: &LabelSelector) -> (r: String)
    ensures
        r@ == selector_words(sel.deep_view()),
{
    match &sel.match_labels {
        Some(m) => {
            let n: usize = m.len();
            if n == 0 {
                return owned("(all)");
            }
            let ghost all = m.deep_view();
            let mut parts: Vec<String> = Vec::new();
            let mut i: usize = 0;
            while i < n
                invariant
                    i <= n,
                    n == all.len(),
                    all == m.deep_view(),
                    parts@.len() == i,
                    forall|k: int|
                        0 <= k < i ==> (#[trigger] parts@[k])@ == all[k].0 + "="@ + all[k].1,
                decreases n - i,
            {
                let (k, v) = m.entry(i);
                assert(all[i as int] == (k@, v@));
                parts.push(k.clone().concat("=").concat(v.as_str()));
                i += 1;
            }
            assert(parts.deep_view() =~= Seq::new(
                all.len(),
                |i: int| all[i].0 + "="@ + all[i].1,
            ));
            join(&parts, ",")
        },
        None => owned("(all)"),
    }
}

/// Add one text.
fn push_text(out: &mut Vec<String>, s: String)
    ensures
        final(out).deep_view() == old(out).deep_view().push(s@),
{
    let ghost before = out.deep_view();
    out.push(s);
    assert(out.deep_view() =~= before.push(s@));
}

fn add_block(b: &IpBlock, cidrs: &mut Vec<String>, selectors: &mut Vec<String>)
    ensures
        final(cidrs).deep_view() == old(cidrs).deep_view().push(b.deep_view().cidr),
        final(selectors).deep_view() == old(selectors).deep_view() + Seq::new(
            list_or_empty(b.deep_view().except).len(),
            |i: int| "except "@ + list_or_empty(b.deep_view().except)[i],
        ),
{
    push_text(cidrs, b.cidr.clone());
    let ghost start = selectors.deep_view();
    let ghost holes = list_or_empty(b.deep_view().except);
    let ghost named = Seq::new(holes.len(), |i: int| "except "@ + holes[i]);
    assert(start =~= start + named.subrange(0, 0));
    if let Some(es) = &b.except {
        let mut i: usize = 0;
        while i < es.len()
            invariant
                i <= es.len(),
                holes == es.deep_view(),
                named == Seq::new(holes.len(), |i: int| "except "@ + holes[i]),
                selectors.deep_view() == start + named.subrange(0, i as int),
            decreases es.len() - i,
        {
            assert(holes[i as int] == es@[i as int]@);
            push_text(selectors, owned("except ").concat(es[i].as_str()));
            assert(selectors.deep_view() =~= start + named.subrange(0, i + 1));
            i += 1;
        }
        assert(named.subrange(0, i as int) =~= named);
    } else {
        assert(start =~= start + named);
    }
}

fn add_peer(p: &NetworkPolicyPeer, cidrs: &mut Vec<String>, selectors: &mut Vec<String>)
    ensures
        final(cidrs).deep_view() == old(cidrs).deep_view() + peer_reach(p.deep_view()).cidrs,
        final(selectors).deep_view() == old(selectors).deep_view() + peer_reach(
            p.deep_view(),
        ).selectors,
{
    let ghost c = cidrs.deep_view();
    let ghost s = selectors.deep_view();
    if let Some(b) = &p.ip_block {
        add_block(b, cidrs, selectors);
    }
    if let Some(sel) = &p.pod_selector {
        push_text(selectors, owned("pods ").concat(describe(sel).as_str()));
    }
    if let Some(sel) = &p.namespace_selector {
        push_text(selectors, owned("namespaces ").concat(describe(sel).as_str()));
    }
    assert(cidrs.deep_view() =~= c + peer_reach(p.deep_view()).cidrs);
    assert(selectors.deep_view() =~= s + peer_reach(p.deep_view()).selectors);
}

fn add_rule(r: &NetworkPolicyEgressRule, cidrs: &mut Vec<String>, selectors: &mut Vec<String>)
    ensures
        final(cidrs).deep_view() == old(cidrs).deep_view() + rule_reach(r.deep_view()).cidrs,
        final(selectors).deep_view() == old(selectors).deep_view() + rule_reach(
            r.deep_view(),
        ).selectors,
{
    let ghost c = cidrs.deep_view();
    let ghost s = selectors.deep_view();
    let ghost model = r.deep_view();
    match &r.to {
        Some(tos) => {
            if tos.len() > 0 {
                let ghost all = tos.deep_view();
                let mut i: usize = 0;
                assert(all.subrange(0, 0) =~= Seq::empty());
                assert(c =~= c + peers_reach(all.subrange(0, 0)).cidrs);
                assert(s =~= s + peers_reach(all.subrange(0, 0)).selectors);
                while i < tos.len()
                    invariant
                        i <= tos.len(),
                        all == tos.deep_view(),
                        cidrs.deep_view() == c + peers_reach(all.subrange(0, i as int)).cidrs,
                        selectors.deep_view() == s + peers_reach(
                            all.subrange(0, i as int),
                        ).selectors,
                    decreases tos.len() - i,
                {
                    let ghost next = all.subrange(0, i + 1);
                    assert(next.drop_last() =~= all.subrange(0, i as int));
                    assert(next.last() == tos@[i as int].deep_view());
                    add_peer(&tos[i], cidrs, selectors);
                    assert(cidrs.deep_view() =~= c + peers_reach(next).cidrs);
                    assert(selectors.deep_view() =~= s + peers_reach(next).selectors);
                    i += 1;
                }
                assert(all.subrange(0, i as int) =~= all);
                return;
            }
        },
        None => {},
    }
    assert(is_open(model));
    push_text(cidrs, owned("0.0.0.0/0"));
    assert(cidrs.deep_view() =~= c + rule_reach(model).cidrs);
    assert(selectors.deep_view() =~= s + rule_reach(model).selectors);
}

fn add_policy(p: &NetworkPolicy, cidrs: &mut Vec<String>, selectors: &mut Vec<String>)
    ensures
        final(cidrs).deep_view() == old(cidrs).deep_view() + policy_reach(p.deep_view()).cidrs,
        final(selectors).deep_view() == old(selectors).deep_view() + policy_reach(
            p.deep_view(),
        ).selectors,
{
    let ghost c = cidrs.deep_view();
    let ghost s = selectors.deep_view();
    let ghost reach = policy_reach(p.deep_view());
    if let Some(spec) = &p.spec {
        if let Some(rules) = &spec.egress {
            let ghost all = rules.deep_view();
            let mut i: usize = 0;
            assert(all.subrange(0, 0) =~= Seq::empty());
            assert(c =~= c + rules_reach(all.subrange(0, 0)).cidrs);
            assert(s =~= s + rules_reach(all.subrange(0, 0)).selectors);
            while i < rules.len()
                invariant
                    i <= rules.len(),
                    all == rules.deep_view(),
                    cidrs.deep_view() == c + rules_reach(all.subrange(0, i as int)).cidrs,
                    selectors.deep_view() == s + rules_reach(all.subrange(0, i as int)).selectors,
                decreases rules.len() - i,
            {
                let ghost next = all.subrange(0, i + 1);
                assert(next.drop_last() =~= all.subrange(0, i as int));
                assert(next.last() == rules@[i as int].deep_view());
                add_rule(&rules[i], cidrs, selectors);
                assert(cidrs.deep_view() =~= c + rules_reach(next).cidrs);
                assert(selectors.deep_view() =~= s + rules_reach(next).selectors);
                i += 1;
            }
            assert(all.subrange(0, i as int) =~= all);
            return;
        }
    }
    assert(reach =~= Destinations::nowhere());
    assert(c =~= c + reach.cidrs);
    assert(s =~= s + reach.selectors);
}

/// The egress that the cluster will enforce on this pod. `None` where no policy selects it, which
/// is unrestricted egress. Rules add up: one open rule opens the pod. A policy that selects the pod
/// and permits nothing is a deny-all, and another fact than no policy.
pub fn egress_for(subject: &PodSubject, policies: &Vec<NetworkPolicy>) -> (r: Option<EgressPolicy>)
    ensures
        r.deep_view() == enforced_egress(subject.deep_view(), policies.deep_view()),
{
    let ghost all = policies.deep_view();
    let ghost who = subject.deep_view();
    let mut names: Vec<String> = Vec::new();
    let mut cidrs: Vec<String> = Vec::new();
    let mut selectors: Vec<String> = Vec::new();
    let mut i: usize = 0;
    assert(names.deep_view() =~= policy_names(governing(who, all.subrange(0, 0))));
    assert(cidrs.deep_view() =~= policies_reach(governing(who, all.subrange(0, 0))).cidrs);
    assert(selectors.deep_view() =~= policies_reach(governing(who, all.subrange(0, 0))).selectors);
    while i < policies.len()
        invariant
            i <= policies.len(),
            all == policies.deep_view(),
            who == subject.deep_view(),
            names.deep_view() == policy_names(governing(who, all.subrange(0, i as int))),
            cidrs.deep_view() == policies_reach(governing(who, all.subrange(0, i as int))).cidrs,
            selectors.deep_view() == policies_reach(
                governing(who, all.subrange(0, i as int)),
            ).selectors,
        decreases policies.len() - i,
    {
        let ghost next = all.subrange(0, i + 1);
        let ghost before = governing(who, all.subrange(0, i as int));
        assert(next.drop_last() =~= all.subrange(0, i as int));
        let p = &policies[i];
        assert(next.last() == p.deep_view());
        if policy_selects(subject, p) {
            let ghost g = governing(who, next);
            assert(g == before.push(p.deep_view()));
            assert(g.drop_last() =~= before);
            push_text(&mut names, name_policy(p));
            add_policy(p, &mut cidrs, &mut selectors);
            assert(names.deep_view() =~= policy_names(g));
        }
        i += 1;
    }
    assert(all.subrange(0, i as int) =~= all);
    if names.len() == 0 {
        assert(policy_names(governing(who, all)).len() == 0);
        return None;
    }
    assert(names.deep_view().len() == names.len());
    let deny_all: bool = cidrs.len() == 0 && selectors.len() == 0;
    assert(cidrs.deep_view().len() == cidrs.len());
    assert(selectors.deep_view().len() == selectors.len());
    Some(
        EgressPolicy {
            policy_names: sort(&names),
            cidrs: sort_once(&cidrs),
            selectors: sort_once(&selectors),
            deny_all,
        },
    )
}

// ---------------------------------------------------------------------------------------------
// What the pod's account may do
// ---------------------------------------------------------------------------------------------
/// A subject covers the pod's account: it is that account, or a group that every account of the
/// cluster or of the pod's namespace is in.
pub open spec fn covers(s: SubjectModel, subject: PodSubjectModel) -> bool {
    ||| s.kind == "ServiceAccount"@ && s.name == subject.service_account && text_or(
        s.namespace,
        subject.namespace,
    ) == subject.namespace
    ||| s.kind == "Group"@ && (s.name == "system:serviceaccounts"@ || s.name
        == "system:serviceaccounts:"@ + subject.namespace)
}

/// Some subject of a binding covers the pod's account.
pub open spec fn names_account(subjects: Option<Seq<SubjectModel>>, subject: PodSubjectModel) -> bool {
    exists|i: int|
        0 <= i < list_or_empty(subjects).len() && covers(
            #[trigger] list_or_empty(subjects)[i],
            subject,
        )
}

/// The rules of the first role of that name in a namespace.
pub open spec fn role_rules(
    roles: Seq<RoleModel>,
    name: Seq<char>,
    namespace: Seq<char>,
) -> Option<Seq<PolicyRuleModel>>
    decreases roles.len(),
{
    if roles.len() == 0 {
        None
    } else if roles[0].metadata.name == Some(name) && text_or_empty(roles[0].metadata.namespace)
        == namespace {
        roles[0].rules
    } else {
        role_rules(roles.drop_first(), name, namespace)
    }
}

/// The rules of the first cluster role of that name.
pub open spec fn cluster_role_rules(
    roles: Seq<ClusterRoleModel>,
    name: Seq<char>,
) -> Option<Seq<PolicyRuleModel>>
    decreases roles.len(),
{
    if roles.len() == 0 {
        None
    } else if roles[0].metadata.name == Some(name) {
        roles[0].rules
    } else {
        cluster_role_rules(roles.drop_first(), name)
    }
}

/// What one rule grants in one API group: one row for each resource.
pub open spec fn group_rows(
    rule: PolicyRuleModel,
    group: Seq<char>,
    binding: Seq<char>,
    namespace: Option<Seq<char>>,
) -> Seq<RbacRuleModel> {
    let resources = list_or_empty(rule.resources);
    Seq::new(
        resources.len(),
        |i: int|
            RbacRuleModel {
                binding,
                api_group: group,
                resource: resources[i],
                verbs: rule.verbs,
                namespace,
            },
    )
}

/// What one rule grants in several API groups.
pub open spec fn groups_rows(
    rule: PolicyRuleModel,
    groups: Seq<Seq<char>>,
    binding: Seq<char>,
    namespace: Option<Seq<char>>,
) -> Seq<RbacRuleModel>
    decreases groups.len(),
{
    if groups.len() == 0 {
        Seq::empty()
    } else {
        groups_rows(rule, groups.drop_last(), binding, namespace) + group_rows(
            rule,
            groups.last(),
            binding,
            namespace,
        )
    }
}

/// What one rule grants. A rule that names no API group is about the core group.
pub open spec fn rule_rows(
    rule: PolicyRuleModel,
    binding: Seq<char>,
    namespace: Option<Seq<char>>,
) -> Seq<RbacRuleModel> {
    let groups = match rule.api_groups {
        Some(g) => g,
        None => seq![Seq::empty()],
    };
    groups_rows(rule, groups, binding, namespace)
}

/// What rules grant.
pub open spec fn rules_rows(
    rules: Seq<PolicyRuleModel>,
    binding: Seq<char>,
    namespace: Option<Seq<char>>,
) -> Seq<RbacRuleModel>
    decreases rules.len(),
{
    if rules.len() == 0 {
        Seq::empty()
    } else {
        rules_rows(rules.drop_last(), binding, namespace) + rule_rows(
            rules.last(),
            binding,
            namespace,
        )
    }
}

/// The row of a binding whose role is not known: no verbs are invented, and it is not dropped.
pub open spec fn unresolved(
    binding: Seq<char>,
    namespace: Option<Seq<char>>,
    role_name: Seq<char>,
) -> RbacRuleModel {
    RbacRuleModel {
        binding: binding + " -> "@ + role_name + " (not in cache)"@,
        api_group: Seq::empty(),
        resource: "<unresolved>"@,
        verbs: Seq::empty(),
        namespace,
    }
}

/// What a binding grants, given the rules of its role where they are known.
pub open spec fn bound_rows(
    binding: Seq<char>,
    namespace: Option<Seq<char>>,
    rules: Option<Seq<PolicyRuleModel>>,
    role_name: Seq<char>,
) -> Seq<RbacRuleModel> {
    match rules {
        Some(rs) => rules_rows(rs, binding, namespace),
        None => seq![unresolved(binding, namespace, role_name)],
    }
}

/// What a binding in a namespace grants the pod. The rules are those of its role, which may be one
/// of the cluster; the scope is the binding's.
pub open spec fn local_rows(
    subject: PodSubjectModel,
    b: RoleBindingModel,
    roles: Seq<RoleModel>,
    cluster_roles: Seq<ClusterRoleModel>,
) -> Seq<RbacRuleModel> {
    if text_or_empty(b.metadata.namespace) == subject.namespace && names_account(
        b.subjects,
        subject,
    ) {
        bound_rows(
            "RoleBinding "@ + subject.namespace + "/"@ + text_or(b.metadata.name, "<unnamed>"@),
            Some(subject.namespace),
            if b.role_ref.kind == "Role"@ {
                role_rules(roles, b.role_ref.name, subject.namespace)
            } else if b.role_ref.kind == "ClusterRole"@ {
                cluster_role_rules(cluster_roles, b.role_ref.name)
            } else {
                None
            },
            b.role_ref.name,
        )
    } else {
        Seq::empty()
    }
}

/// What a binding in the cluster grants the pod, everywhere.
pub open spec fn cluster_rows(
    subject: PodSubjectModel,
    b: ClusterRoleBindingModel,
    cluster_roles: Seq<ClusterRoleModel>,
) -> Seq<RbacRuleModel> {
    if names_account(b.subjects, subject) {
        bound_rows(
            "ClusterRoleBinding "@ + text_or(b.metadata.name, "<unnamed>"@),
            None,
            cluster_role_rules(cluster_roles, b.role_ref.name),
            b.role_ref.name,
        )
    } else {
        Seq::empty()
    }
}

/// What the bindings of namespaces grant the pod.
pub open spec fn all_local_rows(
    subject: PodSubjectModel,
    bindings: Seq<RoleBindingModel>,
    roles: Seq<RoleModel>,
    cluster_roles: Seq<ClusterRoleModel>,
) -> Seq<RbacRuleModel>
    decreases bindings.len(),
{
    if bindings.len() == 0 {
        Seq::empty()
    } else {
        all_local_rows(subject, bindings.drop_last(), roles, cluster_roles) + local_rows(
            subject,
            bindings.last(),
            roles,
            cluster_roles,
        )
    }
}

/// What the bindings of the cluster grant the pod.
pub open spec fn all_cluster_rows(
    subject: PodSubjectModel,
    bindings: Seq<ClusterRoleBindingModel>,
    cluster_roles: Seq<ClusterRoleModel>,
) -> Seq<RbacRuleModel>
    decreases bindings.len(),
{
    if bindings.len() == 0 {
        Seq::empty()
    } else {
        all_cluster_rows(subject, bindings.drop_last(), cluster_roles) + cluster_rows(
            subject,
            bindings.last(),
            cluster_roles,
        )
    }
}

/// What the pod's account may do: each row once, in order.
pub open spec fn held_rules(
    subject: PodSubjectModel,
    roles: Seq<RoleModel>,
    cluster_roles: Seq<ClusterRoleModel>,
    role_bindings: Seq<RoleBindingModel>,
    cluster_role_bindings: Seq<ClusterRoleBindingModel>,
) -> Seq<RbacRuleModel> {
    order::each_once::<RbacRule>(
        all_local_rows(subject, role_bindings, roles, cluster_roles) + all_cluster_rows(
            subject,
            cluster_role_bindings,
            cluster_roles,
        ),
    )
}

fn covers_account(s: &Subject, subject: &PodSubject) -> (r: bool)
    ensures
        r == covers(s.deep_view(), subject.deep_view()),
{
    let ns = subject.namespace.as_str();
    let account = same(s.kind.as_str(), "ServiceAccount") && same(
        s.name.as_str(),
        subject.service_account.as_str(),
    ) && same(or_else(&s.namespace, ns), ns);
    let group = same(s.kind.as_str(), "Group") && (same(s.name.as_str(), "system:serviceaccounts")
        || same(s.name.as_str(), owned("system:serviceaccounts:").concat(ns).as_str()));
    account || group
}

fn names_subject(subjects: &Option<Vec<Subject>>, subject: &PodSubject) -> (r: bool)
    ensures
        r == names_account(subjects.deep_view(), subject.deep_view()),
{
    let ghost all = list_or_empty(subjects.deep_view());
    if let Some(v) = subjects {
        let mut i: usize = 0;
        while i < v.len()
            invariant
                i <= v.len(),
                all == v.deep_view(),
                all == list_or_empty(subjects.deep_view()),
                forall|k: int| 0 <= k < i ==> !covers(#[trigger] all[k], subject.deep_view()),
            decreases v.len() - i,
        {
            assert(all[i as int] == v@[i as int].deep_view());
            if covers_account(&v[i], subject) {
                return true;
            }
            i += 1;
        }
    }
    false
}

/// Does the name match?
fn is_named(name: &Option<String>, wanted: &str) -> (r: bool)
    ensures
        r == (name.deep_view() == Some(wanted@)),
{
    match name {
        Some(n) => same(n.as_str(), wanted),
        None => false,
    }
}

fn find_role<'a>(roles: &'a Vec<Role>, name: &str, namespace: &str) -> (r: Option<
    &'a Vec<PolicyRule>,
>)
    ensures
        r.deep_view() == role_rules(roles.deep_view(), name@, namespace@),
{
    let ghost all = roles.deep_view();
    let mut i: usize = 0;
    assert(all.subrange(0, all.len() as int) =~= all);
    while i < roles.len()
        invariant
            i <= roles.len(),
            all == roles.deep_view(),
            role_rules(all, name@, namespace@) == role_rules(
                all.subrange(i as int, all.len() as int),
                name@,
                namespace@,
            ),
        decreases roles.len() - i,
    {
        let ghost rest = all.subrange(i as int, all.len() as int);
        let role = &roles[i];
        assert(rest[0] == role.deep_view());
        if is_named(&role.metadata.name, name) && same(
            or_empty(&role.metadata.namespace),
            namespace,
        ) {
            return match &role.rules {
                Some(rules) => Some(rules),
                None => None,
            };
        }
        assert(rest.drop_first() =~= all.subrange(i + 1, all.len() as int));
        i += 1;
    }
    None
}

fn find_cluster_role<'a>(roles: &'a Vec<ClusterRole>, name: &str) -> (r: Option<
    &'a Vec<PolicyRule>,
>)
    ensures
        r.deep_view() == cluster_role_rules(roles.deep_view(), name@),
{
    let ghost all = roles.deep_view();
    let mut i: usize = 0;
    assert(all.subrange(0, all.len() as int) =~= all);
    while i < roles.len()
        invariant
            i <= roles.len(),
            all == roles.deep_view(),
            cluster_role_rules(all, name@) == cluster_role_rules(
                all.subrange(i as int, all.len() as int),
                name@,
            ),
        decreases roles.len() - i,
    {
        let ghost rest = all.subrange(i as int, all.len() as int);
        let role = &roles[i];
        assert(rest[0] == role.deep_view());
        if is_named(&role.metadata.name, name) {
            return match &role.rules {
                Some(rules) => Some(rules),
                None => None,
            };
        }
        assert(rest.drop_first() =~= all.subrange(i + 1, all.len() as int));
        i += 1;
    }
    None
}

/// Add one row.
fn push_row(out: &mut Vec<RbacRule>, r: RbacRule)
    ensures
        final(out).deep_view() == old(out).deep_view().push(r.deep_view()),
{
    let ghost before = out.deep_view();
    let ghost added = r.deep_view();
    out.push(r);
    assert(out.deep_view() =~= before.push(added));
}

fn push_group(
    out: &mut Vec<RbacRule>,
    rule: &PolicyRule,
    group: &str,
    binding: &str,
    namespace: &Option<String>,
)
    ensures
        final(out).deep_view() == old(out).deep_view() + group_rows(
            rule.deep_view(),
            group@,
            binding@,
            namespace.deep_view(),
        ),
{
    let ghost start = out.deep_view();
    let ghost rows = group_rows(rule.deep_view(), group@, binding@, namespace.deep_view());
    let ghost named = list_or_empty(rule.deep_view().resources);
    assert(start =~= start + rows.subrange(0, 0));
    if let Some(resources) = &rule.resources {
        let mut i: usize = 0;
        while i < resources.len()
            invariant
                i <= resources.len(),
                named == resources.deep_view(),
                named == list_or_empty(rule.deep_view().resources),
                rows == group_rows(rule.deep_view(), group@, binding@, namespace.deep_view()),
                out.deep_view() == start + rows.subrange(0, i as int),
            decreases resources.len() - i,
        {
            assert(named[i as int] == resources@[i as int]@);
            push_row(
                out,
                RbacRule {
                    binding: owned(binding),
                    api_group: owned(group),
                    resource: resources[i].clone(),
                    verbs: copied(&rule.verbs),
                    namespace: namespace.clone(),
                },
            );
            assert(out.deep_view() =~= start + rows.subrange(0, i + 1));
            i += 1;
        }
        assert(rows.subrange(0, i as int) =~= rows);
    } else {
        assert(start =~= start + rows);
    }
}

fn push_rule(
    out: &mut Vec<RbacRule>,
    rule: &PolicyRule,
    binding: &str,
    namespace: &Option<String>,
)
    ensures
        final(out).deep_view() == old(out).deep_view() + rule_rows(
            rule.deep_view(),
            binding@,
            namespace.deep_view(),
        ),
{
    let ghost start = out.deep_view();
    let ghost model = rule.deep_view();
    let ghost ns = namespace.deep_view();
    match &rule.api_groups {
        Some(groups) => {
            let ghost all = groups.deep_view();
            let mut i: usize = 0;
            assert(start =~= start + groups_rows(model, all.subrange(0, 0), binding@, ns));
            while i < groups.len()
                invariant
                    i <= groups.len(),
                    all == groups.deep_view(),
                    model == rule.deep_view(),
                    ns == namespace.deep_view(),
                    out.deep_view() == start + groups_rows(
                        model,
                        all.subrange(0, i as int),
                        binding@,
                        ns,
                    ),
                decreases groups.len() - i,
            {
                let ghost next = all.subrange(0, i + 1);
                assert(next.drop_last() =~= all.subrange(0, i as int));
                assert(next.last() == groups@[i as int]@);
                push_group(out, rule, groups[i].as_str(), binding, namespace);
                assert(out.deep_view() =~= start + groups_rows(model, next, binding@, ns));
                i += 1;
            }
            assert(all.subrange(0, i as int) =~= all);
        },
        None => {
            let core = String::new();
            push_group(out, rule, core.as_str(), binding, namespace);
            let ghost only = seq![Seq::<char>::empty()];
            assert(only.drop_last() =~= Seq::empty());
            assert(groups_rows(model, only.drop_last(), binding@, ns) =~= Seq::empty());
            assert(core@ =~= Seq::<char>::empty());
            assert(out.deep_view() =~= start + groups_rows(model, only, binding@, ns));
        },
    }
}

/// Add what a binding grants. One whose role is missing is recorded, not dropped.
pub fn push_rules(
    out: &mut Vec<RbacRule>,
    binding: &str,
    namespace: &Option<String>,
    rules: Option<&Vec<PolicyRule>>,
    role_name: &str,
)
    ensures
        final(out).deep_view() == old(out).deep_view() + bound_rows(
            binding@,
            namespace.deep_view(),
            rules.deep_view(),
            role_name@,
        ),
{
    let ghost start = out.deep_view();
    let ghost ns = namespace.deep_view();
    match rules {
        None => {
            let row = RbacRule {
                binding: owned(binding).concat(" -> ").concat(role_name).concat(
                    " (not in cache)",
                ),
                api_group: String::new(),
                resource: owned("<unresolved>"),
                verbs: Vec::new(),
                namespace: namespace.clone(),
            };
            assert(row.verbs.deep_view() =~= Seq::<Seq<char>>::empty());
            assert(row.api_group@ =~= Seq::<char>::empty());
            assert(row.deep_view() == unresolved(binding@, ns, role_name@));
            push_row(out, row);
            assert(out.deep_view() =~= start + seq![unresolved(binding@, ns, role_name@)]);
        },
        Some(rs) => {
            let ghost all = rs.deep_view();
            let mut i: usize = 0;
            assert(start =~= start + rules_rows(all.subrange(0, 0), binding@, ns));
            while i < rs.len()
                invariant
                    i <= rs.len(),
                    all == rs.deep_view(),
                    ns == namespace.deep_view(),
                    out.deep_view() == start + rules_rows(
                        all.subrange(0, i as int),
                        binding@,
                        ns,
                    ),
                decreases rs.len() - i,
            {
                let ghost next = all.subrange(0, i + 1);
                assert(next.drop_last() =~= all.subrange(0, i as int));
                assert(next.last() == rs@[i as int].deep_view());
                push_rule(out, &rs[i], binding, namespace);
                assert(out.deep_view() =~= start + rules_rows(next, binding@, ns));
                i += 1;
            }
            assert(all.subrange(0, i as int) =~= all);
        },
    }
}

fn push_local(
    out: &mut Vec<RbacRule>,
    subject: &PodSubject,
    b: &RoleBinding,
    roles: &Vec<Role>,
    cluster_roles: &Vec<ClusterRole>,
)
    ensures
        final(out).deep_view() == old(out).deep_view() + local_rows(
            subject.deep_view(),
            b.deep_view(),
            roles.deep_view(),
            cluster_roles.deep_view(),
        ),
{
    let ghost start = out.deep_view();
    let ns = subject.namespace.as_str();
    if !same(or_empty(&b.metadata.namespace), ns) || !names_subject(&b.subjects, subject) {
        assert(start =~= start + Seq::<RbacRuleModel>::empty());
        return;
    }
    let binding = owned("RoleBinding ").concat(ns).concat("/").concat(
        or_else(&b.metadata.name, "<unnamed>"),
    );
    let rules: Option<&Vec<PolicyRule>> = if same(b.role_ref.kind.as_str(), "Role") {
        find_role(roles, b.role_ref.name.as_str(), ns)
    } else if same(b.role_ref.kind.as_str(), "ClusterRole") {
        find_cluster_role(cluster_roles, b.role_ref.name.as_str())
    } else {
        None
    };
    let scope: Option<String> = Some(owned(ns));
    push_rules(out, binding.as_str(), &scope, rules, b.role_ref.name.as_str());
}

fn push_cluster(
    out: &mut Vec<RbacRule>,
    subject: &PodSubject,
    b: &ClusterRoleBinding,
    cluster_roles: &Vec<ClusterRole>,
)
    ensures
        final(out).deep_view() == old(out).deep_view() + cluster_rows(
            subject.deep_view(),
            b.deep_view(),
            cluster_roles.deep_view(),
        ),
{
    let ghost start = out.deep_view();
    if !names_subject(&b.subjects, subject) {
        assert(start =~= start + Seq::<RbacRuleModel>::empty());
        return;
    }
    let binding = owned("ClusterRoleBinding ").concat(or_else(&b.metadata.name, "<unnamed>"));
    let rules = find_cluster_role(cluster_roles, b.role_ref.name.as_str());
    push_rules(out, binding.as_str(), &None, rules, b.role_ref.name.as_str());
}

/// What the pod's ServiceAccount may do, resolved through its bindings. A binding in a namespace is
/// scoped to it, one in the cluster is not; that difference is most of the blast radius.
pub fn rbac_for(
    subject: &PodSubject,
    roles: &Vec<Role>,
    cluster_roles: &Vec<ClusterRole>,
    role_bindings: &Vec<RoleBinding>,
    cluster_role_bindings: &Vec<ClusterRoleBinding>,
) -> (r: Vec<RbacRule>)
    ensures
        r.deep_view() == held_rules(
            subject.deep_view(),
            roles.deep_view(),
            cluster_roles.deep_view(),
            role_bindings.deep_view(),
            cluster_role_bindings.deep_view(),
        ),
{
    let ghost who = subject.deep_view();
    let ghost rs = roles.deep_view();
    let ghost crs = cluster_roles.deep_view();
    let ghost local = role_bindings.deep_view();
    let ghost wide = cluster_role_bindings.deep_view();
    let mut out: Vec<RbacRule> = Vec::new();
    let mut i: usize = 0;
    assert(out.deep_view() =~= all_local_rows(who, local.subrange(0, 0), rs, crs));
    while i < role_bindings.len()
        invariant
            i <= role_bindings.len(),
            who == subject.deep_view(),
            rs == roles.deep_view(),
            crs == cluster_roles.deep_view(),
            local == role_bindings.deep_view(),
            out.deep_view() == all_local_rows(who, local.subrange(0, i as int), rs, crs),
        decreases role_bindings.len() - i,
    {
        let ghost next = local.subrange(0, i + 1);
        assert(next.drop_last() =~= local.subrange(0, i as int));
        assert(next.last() == role_bindings@[i as int].deep_view());
        push_local(&mut out, subject, &role_bindings[i], roles, cluster_roles);
        i += 1;
    }
    assert(local.subrange(0, i as int) =~= local);
    let ghost start = out.deep_view();
    let mut j: usize = 0;
    assert(start =~= start + all_cluster_rows(who, wide.subrange(0, 0), crs));
    while j < cluster_role_bindings.len()
        invariant
            j <= cluster_role_bindings.len(),
            who == subject.deep_view(),
            crs == cluster_roles.deep_view(),
            wide == cluster_role_bindings.deep_view(),
            out.deep_view() == start + all_cluster_rows(who, wide.subrange(0, j as int), crs),
        decreases cluster_role_bindings.len() - j,
    {
        let ghost next = wide.subrange(0, j + 1);
        assert(next.drop_last() =~= wide.subrange(0, j as int));
        assert(next.last() == cluster_role_bindings@[j as int].deep_view());
        push_cluster(&mut out, subject, &cluster_role_bindings[j], cluster_roles);
        assert(out.deep_view() =~= start + all_cluster_rows(who, next, crs));
        j += 1;
    }
    assert(wide.subrange(0, j as int) =~= wide);
    sort_once(&out)
}

// ---------------------------------------------------------------------------------------------
// The snapshot
// ---------------------------------------------------------------------------------------------
/// The bindings that rules came from.
pub open spec fn bindings_of(rules: Seq<RbacRuleModel>) -> Seq<Seq<char>> {
    Seq::new(rules.len(), |i: int| rules[i].binding)
}

/// What a snapshot pins: the account, the revision of every policy that governs the pod, or that
/// none does, and the bindings that were resolved.
pub open spec fn pins(
    subject: PodSubjectModel,
    policies: Seq<NetworkPolicyModel>,
    rbac: Seq<RbacRuleModel>,
) -> Seq<Pair> {
    let account = crate::map::inserted(Seq::empty(), "serviceAccount"@, subject.service_account);
    let policies = crate::map::inserted(
        account,
        "networkPolicies"@,
        if enforced_egress(subject, policies) is Some {
            text::joined(order::in_order::<String>(policy_pins(governing(subject, policies))), ","@)
        } else {
            "none selected"@
        },
    );
    crate::map::inserted(
        policies,
        "rbacBindings"@,
        text::joined(order::each_once::<String>(bindings_of(rbac)), ","@),
    )
}

/// Everything that the caches hold about one pod.
pub open spec fn snapshot_of(
    subject: PodSubjectModel,
    policies: Seq<NetworkPolicyModel>,
    roles: Seq<RoleModel>,
    cluster_roles: Seq<ClusterRoleModel>,
    role_bindings: Seq<RoleBindingModel>,
    cluster_role_bindings: Seq<ClusterRoleBindingModel>,
    trusted_image_prefixes: Seq<Seq<char>>,
) -> ClusterSnapshotModel {
    let rbac = held_rules(subject, roles, cluster_roles, role_bindings, cluster_role_bindings);
    ClusterSnapshotModel {
        egress: enforced_egress(subject, policies),
        rbac,
        trusted_image_prefixes,
        provenance: pins(subject, policies, rbac),
    }
}

fn list_bindings(rules: &Vec<RbacRule>) -> (r: Vec<String>)
    ensures
        r.deep_view() == bindings_of(rules.deep_view()),
{
    let mut out: Vec<String> = Vec::new();
    let mut i: usize = 0;
    while i < rules.len()
        invariant
            i <= rules.len(),
            out@.len() == i,
            forall|k: int| 0 <= k < i ==> (#[trigger] out@[k])@ == rules@[k].binding@,
        decreases rules.len() - i,
    {
        out.push(rules[i].binding.clone());
        i += 1;
    }
    assert(out.deep_view() =~= bindings_of(rules.deep_view()));
    out
}

/// Everything that the caches hold about one pod, at one instant. What was read is pinned into the
/// snapshot's provenance, so a verdict names the cluster state that it was made on.
pub fn build(
    subject: &PodSubject,
    policies: &Vec<NetworkPolicy>,
    roles: &Vec<Role>,
    cluster_roles: &Vec<ClusterRole>,
    role_bindings: &Vec<RoleBinding>,
    cluster_role_bindings: &Vec<ClusterRoleBinding>,
    trusted_image_prefixes: Vec<String>,
) -> (r: ClusterSnapshot)
    ensures
        r.deep_view() == snapshot_of(
            subject.deep_view(),
            policies.deep_view(),
            roles.deep_view(),
            cluster_roles.deep_view(),
            role_bindings.deep_view(),
            cluster_role_bindings.deep_view(),
            trusted_image_prefixes.deep_view(),
        ),
{
    let egress = egress_for(subject, policies);
    let rbac = rbac_for(subject, roles, cluster_roles, role_bindings, cluster_role_bindings);
    let selected: String = if egress.is_some() {
        join(&pinned(subject, policies), ",")
    } else {
        owned("none selected")
    };
    let bindings = join(&sort_once(&list_bindings(&rbac)), ",");
    let provenance = TextMap::new().with(
        "serviceAccount",
        subject.service_account.as_str(),
    ).with("networkPolicies", selected.as_str()).with("rbacBindings", bindings.as_str());
    ClusterSnapshot { egress, rbac, trusted_image_prefixes, provenance }
}

// ---------------------------------------------------------------------------------------------
// Laws
// ---------------------------------------------------------------------------------------------
/// The empty selector selects everything.
pub proof fn an_empty_selector_selects_everything(selector: LabelSelectorModel, labels: Seq<Pair>)
    requires
        list_or_empty(selector.match_labels).len() == 0,
        list_or_empty(selector.match_expressions).len() == 0,
    ensures
        selected_by(selector, labels),
{
}

/// A policy is among those that govern exactly where it is listed and governs.
proof fn governing_holds(subject: PodSubjectModel, policies: Seq<NetworkPolicyModel>, i: int)
    requires
        0 <= i < policies.len(),
        governs(subject, policies[i]),
    ensures
        governing(subject, policies).contains(policies[i]),
    decreases policies.len(),
{
    let g = governing(subject, policies);
    if i == policies.len() - 1 {
        assert(g[g.len() - 1] == policies[i]);
    } else {
        let before = policies.drop_last();
        governing_holds(subject, before, i);
        let h = governing(subject, before);
        let k = choose|k: int| 0 <= k < h.len() && h[k] == before[i];
        assert(g[k] == policies[i]);
    }
}

proof fn governing_is_listed(subject: PodSubjectModel, policies: Seq<NetworkPolicyModel>)
    ensures
        (forall|i: int| 0 <= i < policies.len() ==> !governs(subject, #[trigger] policies[i]))
            ==> governing(subject, policies).len() == 0,
    decreases policies.len(),
{
    if policies.len() > 0 {
        let before = policies.drop_last();
        governing_is_listed(subject, before);
        if forall|i: int| 0 <= i < policies.len() ==> !governs(subject, #[trigger] policies[i]) {
            assert forall|i: int| 0 <= i < before.len() implies !governs(
                subject,
                #[trigger] before[i],
            ) by {
                assert(before[i] == policies[i]);
            }
            assert(!governs(subject, policies[policies.len() - 1]));
        }
    }
}

/// No restriction is known exactly where no listed policy governs the pod.
pub proof fn no_policy_is_no_restriction(
    subject: PodSubjectModel,
    policies: Seq<NetworkPolicyModel>,
)
    ensures
        enforced_egress(subject, policies) is None <==> forall|i: int|
            0 <= i < policies.len() ==> !governs(subject, #[trigger] policies[i]),
{
    governing_is_listed(subject, policies);
    if exists|i: int| 0 <= i < policies.len() && governs(subject, #[trigger] policies[i]) {
        let i = choose|i: int| 0 <= i < policies.len() && governs(subject, #[trigger] policies[i]);
        governing_holds(subject, policies, i);
    }
}

proof fn reach_holds(policies: Seq<NetworkPolicyModel>, p: NetworkPolicyModel, c: Seq<char>)
    requires
        policies.contains(p),
        policy_reach(p).cidrs.contains(c),
    ensures
        policies_reach(policies).cidrs.contains(c),
    decreases policies.len(),
{
    let k = choose|k: int| 0 <= k < policies.len() && policies[k] == p;
    let before = policies_reach(policies.drop_last()).cidrs;
    let last = policy_reach(policies.last()).cidrs;
    let all = policies_reach(policies).cidrs;
    if k == policies.len() - 1 {
        let j = choose|j: int| 0 <= j < last.len() && last[j] == c;
        assert(all[before.len() + j] == c);
    } else {
        assert(policies.drop_last()[k] == p);
        reach_holds(policies.drop_last(), p, c);
        let j = choose|j: int| 0 <= j < before.len() && before[j] == c;
        assert(all[j] == c);
    }
}

proof fn open_rule_reaches(rules: Seq<NetworkPolicyEgressRuleModel>, k: int)
    requires
        0 <= k < rules.len(),
        is_open(rules[k]),
    ensures
        rules_reach(rules).cidrs.contains("0.0.0.0/0"@),
    decreases rules.len(),
{
    let before = rules_reach(rules.drop_last()).cidrs;
    let last = rule_reach(rules.last()).cidrs;
    let all = rules_reach(rules).cidrs;
    if k == rules.len() - 1 {
        assert(last[0] == "0.0.0.0/0"@);
        assert(all[before.len() as int] == "0.0.0.0/0"@);
    } else {
        open_rule_reaches(rules.drop_last(), k);
        let j = choose|j: int| 0 <= j < before.len() && before[j] == "0.0.0.0/0"@;
        assert(all[j] == "0.0.0.0/0"@);
    }
}

/// Policies add up: every range that a governing policy permits is one that the pod may reach,
/// whatever else governs it.
pub proof fn every_governing_policy_adds_its_reach(
    subject: PodSubjectModel,
    policies: Seq<NetworkPolicyModel>,
    i: int,
    cidr: Seq<char>,
)
    requires
        0 <= i < policies.len(),
        governs(subject, policies[i]),
        policy_reach(policies[i]).cidrs.contains(cidr),
    ensures
        enforced_egress(subject, policies) matches Some(e) && e.cidrs.contains(cidr),
{
    governing_holds(subject, policies, i);
    reach_holds(governing(subject, policies), policies[i], cidr);
    order::each_value_is_kept::<String>(
        policies_reach(governing(subject, policies)).cidrs,
        cidr,
    );
}

/// One rule without a destination, in any policy that governs the pod, opens it.
pub proof fn one_open_rule_opens_the_pod(
    subject: PodSubjectModel,
    policies: Seq<NetworkPolicyModel>,
    i: int,
    k: int,
)
    requires
        0 <= i < policies.len(),
        governs(subject, policies[i]),
        0 <= k < list_or_empty(policies[i].spec->0.egress).len(),
        is_open(list_or_empty(policies[i].spec->0.egress)[k]),
    ensures
        enforced_egress(subject, policies) matches Some(e) && e.unrestricted(),
{
    open_rule_reaches(list_or_empty(policies[i].spec->0.egress), k);
    every_governing_policy_adds_its_reach(subject, policies, i, "0.0.0.0/0"@);
    let e = enforced_egress(subject, policies)->0;
    let j = choose|j: int| 0 <= j < e.cidrs.len() && e.cidrs[j] == "0.0.0.0/0"@;
    assert("0.0.0.0"@ + "/0"@ =~= "0.0.0.0/0"@) by {
        reveal_strlit("0.0.0.0/0");
        reveal_strlit("0.0.0.0");
        reveal_strlit("/0");
    }
    cluster::a_zero_prefix_length_is_open_however_it_is_spelled("0.0.0.0"@);
    assert(cluster::is_open_cidr(e.cidrs[j]));
}

proof fn no_local_rows(
    subject: PodSubjectModel,
    bindings: Seq<RoleBindingModel>,
    roles: Seq<RoleModel>,
    cluster_roles: Seq<ClusterRoleModel>,
)
    requires
        forall|i: int|
            0 <= i < bindings.len() ==> !names_account((#[trigger] bindings[i]).subjects, subject),
    ensures
        all_local_rows(subject, bindings, roles, cluster_roles).len() == 0,
    decreases bindings.len(),
{
    if bindings.len() > 0 {
        assert(!names_account(bindings[bindings.len() - 1].subjects, subject));
        assert forall|i: int| 0 <= i < bindings.drop_last().len() implies !names_account(
            (#[trigger] bindings.drop_last()[i]).subjects,
            subject,
        ) by {
            assert(!names_account(bindings[i].subjects, subject));
        }
        no_local_rows(subject, bindings.drop_last(), roles, cluster_roles);
    }
}

proof fn no_cluster_rows(
    subject: PodSubjectModel,
    bindings: Seq<ClusterRoleBindingModel>,
    cluster_roles: Seq<ClusterRoleModel>,
)
    requires
        forall|i: int|
            0 <= i < bindings.len() ==> !names_account((#[trigger] bindings[i]).subjects, subject),
    ensures
        all_cluster_rows(subject, bindings, cluster_roles).len() == 0,
    decreases bindings.len(),
{
    if bindings.len() > 0 {
        assert(!names_account(bindings[bindings.len() - 1].subjects, subject));
        assert forall|i: int| 0 <= i < bindings.drop_last().len() implies !names_account(
            (#[trigger] bindings.drop_last()[i]).subjects,
            subject,
        ) by {
            assert(!names_account(bindings[i].subjects, subject));
        }
        no_cluster_rows(subject, bindings.drop_last(), cluster_roles);
    }
}

/// No binding that names the pod's account grants nothing: the absence that is not permission.
pub proof fn no_binding_grants_nothing(
    subject: PodSubjectModel,
    roles: Seq<RoleModel>,
    cluster_roles: Seq<ClusterRoleModel>,
    role_bindings: Seq<RoleBindingModel>,
    cluster_role_bindings: Seq<ClusterRoleBindingModel>,
)
    requires
        forall|i: int|
            0 <= i < role_bindings.len() ==> !names_account(
                (#[trigger] role_bindings[i]).subjects,
                subject,
            ),
        forall|i: int|
            0 <= i < cluster_role_bindings.len() ==> !names_account(
                (#[trigger] cluster_role_bindings[i]).subjects,
                subject,
            ),
    ensures
        held_rules(subject, roles, cluster_roles, role_bindings, cluster_role_bindings).len() == 0,
{
    no_local_rows(subject, role_bindings, roles, cluster_roles);
    no_cluster_rows(subject, cluster_role_bindings, cluster_roles);
    let held = held_rules(subject, roles, cluster_roles, role_bindings, cluster_role_bindings);
    let all = all_local_rows(subject, role_bindings, roles, cluster_roles) + all_cluster_rows(
        subject,
        cluster_role_bindings,
        cluster_roles,
    );
    if held.len() > 0 {
        assert(held.contains(held[0]));
        order::each_value_is_kept::<RbacRule>(all, held[0]);
    }
}

proof fn local_rows_are_kept(
    subject: PodSubjectModel,
    bindings: Seq<RoleBindingModel>,
    roles: Seq<RoleModel>,
    cluster_roles: Seq<ClusterRoleModel>,
    i: int,
    r: RbacRuleModel,
)
    requires
        0 <= i < bindings.len(),
        local_rows(subject, bindings[i], roles, cluster_roles).contains(r),
    ensures
        all_local_rows(subject, bindings, roles, cluster_roles).contains(r),
    decreases bindings.len(),
{
    let before = all_local_rows(subject, bindings.drop_last(), roles, cluster_roles);
    let last = local_rows(subject, bindings.last(), roles, cluster_roles);
    let all = before + last;
    if i == bindings.len() - 1 {
        let k = choose|k: int| 0 <= k < last.len() && last[k] == r;
        assert(all[before.len() + k] == r);
    } else {
        local_rows_are_kept(subject, bindings.drop_last(), roles, cluster_roles, i, r);
        let k = choose|k: int| 0 <= k < before.len() && before[k] == r;
        assert(all[k] == r);
    }
}

proof fn cluster_rows_are_kept(
    subject: PodSubjectModel,
    bindings: Seq<ClusterRoleBindingModel>,
    cluster_roles: Seq<ClusterRoleModel>,
    i: int,
    r: RbacRuleModel,
)
    requires
        0 <= i < bindings.len(),
        cluster_rows(subject, bindings[i], cluster_roles).contains(r),
    ensures
        all_cluster_rows(subject, bindings, cluster_roles).contains(r),
    decreases bindings.len(),
{
    let before = all_cluster_rows(subject, bindings.drop_last(), cluster_roles);
    let last = cluster_rows(subject, bindings.last(), cluster_roles);
    let all = before + last;
    if i == bindings.len() - 1 {
        let k = choose|k: int| 0 <= k < last.len() && last[k] == r;
        assert(all[before.len() + k] == r);
    } else {
        cluster_rows_are_kept(subject, bindings.drop_last(), cluster_roles, i, r);
        let k = choose|k: int| 0 <= k < before.len() && before[k] == r;
        assert(all[k] == r);
    }
}

/// Whatever a binding in the pod's namespace grants is held, in that namespace's scope; and a
/// binding whose role is not known is recorded, not dropped.
pub proof fn a_local_binding_is_held(
    subject: PodSubjectModel,
    roles: Seq<RoleModel>,
    cluster_roles: Seq<ClusterRoleModel>,
    role_bindings: Seq<RoleBindingModel>,
    cluster_role_bindings: Seq<ClusterRoleBindingModel>,
    i: int,
    r: RbacRuleModel,
)
    requires
        0 <= i < role_bindings.len(),
        local_rows(subject, role_bindings[i], roles, cluster_roles).contains(r),
    ensures
        held_rules(subject, roles, cluster_roles, role_bindings, cluster_role_bindings).contains(r),
{
    let local = all_local_rows(subject, role_bindings, roles, cluster_roles);
    let all = local + all_cluster_rows(subject, cluster_role_bindings, cluster_roles);
    local_rows_are_kept(subject, role_bindings, roles, cluster_roles, i, r);
    let k = choose|k: int| 0 <= k < local.len() && local[k] == r;
    assert(all[k] == r);
    order::each_value_is_kept::<RbacRule>(all, r);
}

/// Whatever a binding in the cluster grants is held, everywhere.
pub proof fn a_cluster_binding_is_held(
    subject: PodSubjectModel,
    roles: Seq<RoleModel>,
    cluster_roles: Seq<ClusterRoleModel>,
    role_bindings: Seq<RoleBindingModel>,
    cluster_role_bindings: Seq<ClusterRoleBindingModel>,
    i: int,
    r: RbacRuleModel,
)
    requires
        0 <= i < cluster_role_bindings.len(),
        cluster_rows(subject, cluster_role_bindings[i], cluster_roles).contains(r),
    ensures
        held_rules(subject, roles, cluster_roles, role_bindings, cluster_role_bindings).contains(r),
{
    let local = all_local_rows(subject, role_bindings, roles, cluster_roles);
    let wide = all_cluster_rows(subject, cluster_role_bindings, cluster_roles);
    let all = local + wide;
    cluster_rows_are_kept(subject, cluster_role_bindings, cluster_roles, i, r);
    let k = choose|k: int| 0 <= k < wide.len() && wide[k] == r;
    assert(all[local.len() + k] == r);
    order::each_value_is_kept::<RbacRule>(all, r);
}

/// A binding that names the pod's account and whose role is not known leaves a row that says so.
pub proof fn an_unknown_role_is_recorded(
    subject: PodSubjectModel,
    roles: Seq<RoleModel>,
    cluster_roles: Seq<ClusterRoleModel>,
    role_bindings: Seq<RoleBindingModel>,
    cluster_role_bindings: Seq<ClusterRoleBindingModel>,
    i: int,
)
    requires
        0 <= i < cluster_role_bindings.len(),
        names_account(cluster_role_bindings[i].subjects, subject),
        cluster_role_rules(cluster_roles, cluster_role_bindings[i].role_ref.name) is None,
    ensures
        exists|r: RbacRuleModel|
            r.resource == "<unresolved>"@ && r.verbs.len() == 0 && r.namespace is None
                && #[trigger] held_rules(
                subject,
                roles,
                cluster_roles,
                role_bindings,
                cluster_role_bindings,
            ).contains(r),
{
    let b = cluster_role_bindings[i];
    let r = unresolved(
        "ClusterRoleBinding "@ + text_or(b.metadata.name, "<unnamed>"@),
        None,
        b.role_ref.name,
    );
    assert(cluster_rows(subject, b, cluster_roles)[0] == r);
    a_cluster_binding_is_held(
        subject,
        roles,
        cluster_roles,
        role_bindings,
        cluster_role_bindings,
        i,
        r,
    );
}

// -- What a cache lists first makes no difference ---------------------------------------------
spec fn name_found(subject: PodSubjectModel) -> spec_fn(NetworkPolicyModel) -> Seq<Seq<char>> {
    |p: NetworkPolicyModel|
        if governs(subject, p) {
            seq![policy_name(p)]
        } else {
            Seq::empty()
        }
}

spec fn pin_found(subject: PodSubjectModel) -> spec_fn(NetworkPolicyModel) -> Seq<Seq<char>> {
    |p: NetworkPolicyModel|
        if governs(subject, p) {
            seq![policy_pin(p)]
        } else {
            Seq::empty()
        }
}

spec fn cidrs_found(subject: PodSubjectModel) -> spec_fn(NetworkPolicyModel) -> Seq<Seq<char>> {
    |p: NetworkPolicyModel|
        if governs(subject, p) {
            policy_reach(p).cidrs
        } else {
            Seq::empty()
        }
}

spec fn selectors_found(subject: PodSubjectModel) -> spec_fn(NetworkPolicyModel) -> Seq<Seq<char>> {
    |p: NetworkPolicyModel|
        if governs(subject, p) {
            policy_reach(p).selectors
        } else {
            Seq::empty()
        }
}

spec fn local_found(
    subject: PodSubjectModel,
    roles: Seq<RoleModel>,
    cluster_roles: Seq<ClusterRoleModel>,
) -> spec_fn(RoleBindingModel) -> Seq<RbacRuleModel> {
    |b: RoleBindingModel| local_rows(subject, b, roles, cluster_roles)
}

spec fn cluster_found(subject: PodSubjectModel, cluster_roles: Seq<ClusterRoleModel>) -> spec_fn(
    ClusterRoleBindingModel,
) -> Seq<RbacRuleModel> {
    |b: ClusterRoleBindingModel| cluster_rows(subject, b, cluster_roles)
}

proof fn egress_is_gathered(subject: PodSubjectModel, policies: Seq<NetworkPolicyModel>)
    ensures
        policy_names(governing(subject, policies)) == order::gathered(policies, name_found(subject)),
        policy_pins(governing(subject, policies)) == order::gathered(policies, pin_found(subject)),
        policies_reach(governing(subject, policies)).cidrs == order::gathered(
            policies,
            cidrs_found(subject),
        ),
        policies_reach(governing(subject, policies)).selectors == order::gathered(
            policies,
            selectors_found(subject),
        ),
    decreases policies.len(),
{
    let g = governing(subject, policies);
    if policies.len() == 0 {
        assert(policy_names(g) =~= Seq::empty());
        assert(policy_pins(g) =~= Seq::empty());
    } else {
        let before = policies.drop_last();
        egress_is_gathered(subject, before);
        if governs(subject, policies.last()) {
            let h = governing(subject, before);
            assert(g.drop_last() =~= h);
            assert(policy_names(g) =~= policy_names(h) + seq![policy_name(policies.last())]);
            assert(policy_pins(g) =~= policy_pins(h) + seq![policy_pin(policies.last())]);
        } else {
            assert(order::gathered(policies, name_found(subject)) =~= order::gathered(
                before,
                name_found(subject),
            ));
            assert(order::gathered(policies, pin_found(subject)) =~= order::gathered(
                before,
                pin_found(subject),
            ));
            assert(order::gathered(policies, cidrs_found(subject)) =~= order::gathered(
                before,
                cidrs_found(subject),
            ));
            assert(order::gathered(policies, selectors_found(subject)) =~= order::gathered(
                before,
                selectors_found(subject),
            ));
        }
    }
}

proof fn local_rows_are_gathered(
    subject: PodSubjectModel,
    bindings: Seq<RoleBindingModel>,
    roles: Seq<RoleModel>,
    cluster_roles: Seq<ClusterRoleModel>,
)
    ensures
        all_local_rows(subject, bindings, roles, cluster_roles) == order::gathered(
            bindings,
            local_found(subject, roles, cluster_roles),
        ),
    decreases bindings.len(),
{
    if bindings.len() > 0 {
        local_rows_are_gathered(subject, bindings.drop_last(), roles, cluster_roles);
    }
}

proof fn cluster_rows_are_gathered(
    subject: PodSubjectModel,
    bindings: Seq<ClusterRoleBindingModel>,
    cluster_roles: Seq<ClusterRoleModel>,
)
    ensures
        all_cluster_rows(subject, bindings, cluster_roles) == order::gathered(
            bindings,
            cluster_found(subject, cluster_roles),
        ),
    decreases bindings.len(),
{
    if bindings.len() > 0 {
        cluster_rows_are_gathered(subject, bindings.drop_last(), cluster_roles);
    }
}

/// A cache lists its objects in no particular order, and the snapshot does not depend on it: the
/// same policies and the same bindings, listed otherwise, give the same snapshot.
pub proof fn the_order_of_a_listing_makes_no_difference(
    subject: PodSubjectModel,
    policies: Seq<NetworkPolicyModel>,
    other_policies: Seq<NetworkPolicyModel>,
    roles: Seq<RoleModel>,
    cluster_roles: Seq<ClusterRoleModel>,
    role_bindings: Seq<RoleBindingModel>,
    other_role_bindings: Seq<RoleBindingModel>,
    cluster_role_bindings: Seq<ClusterRoleBindingModel>,
    other_cluster_role_bindings: Seq<ClusterRoleBindingModel>,
    trusted_image_prefixes: Seq<Seq<char>>,
)
    requires
        policies.to_multiset() == other_policies.to_multiset(),
        role_bindings.to_multiset() == other_role_bindings.to_multiset(),
        cluster_role_bindings.to_multiset() == other_cluster_role_bindings.to_multiset(),
    ensures
        snapshot_of(
            subject,
            policies,
            roles,
            cluster_roles,
            role_bindings,
            cluster_role_bindings,
            trusted_image_prefixes,
        ) == snapshot_of(
            subject,
            other_policies,
            roles,
            cluster_roles,
            other_role_bindings,
            other_cluster_role_bindings,
            trusted_image_prefixes,
        ),
{
    let g = governing(subject, policies);
    let h = governing(subject, other_policies);
    egress_is_gathered(subject, policies);
    egress_is_gathered(subject, other_policies);
    order::gathering_forgets_the_order(policies, other_policies, name_found(subject));
    order::gathering_forgets_the_order(policies, other_policies, pin_found(subject));
    order::gathering_forgets_the_order(policies, other_policies, cidrs_found(subject));
    order::gathering_forgets_the_order(policies, other_policies, selectors_found(subject));
    order::sorting_forgets_the_order::<String>(policy_names(g), policy_names(h));
    order::sorting_forgets_the_order::<String>(policy_pins(g), policy_pins(h));
    order::sorting_forgets_the_order::<String>(policies_reach(g).cidrs, policies_reach(h).cidrs);
    order::sorting_forgets_the_order::<String>(
        policies_reach(g).selectors,
        policies_reach(h).selectors,
    );
    seq_lib::to_multiset_len(policy_names(g));
    seq_lib::to_multiset_len(policy_names(h));
    seq_lib::to_multiset_len(policies_reach(g).cidrs);
    seq_lib::to_multiset_len(policies_reach(h).cidrs);
    seq_lib::to_multiset_len(policies_reach(g).selectors);
    seq_lib::to_multiset_len(policies_reach(h).selectors);
    assert(g.len() == policy_names(g).len() && h.len() == policy_names(h).len());
    let local = all_local_rows(subject, role_bindings, roles, cluster_roles);
    let other_local = all_local_rows(subject, other_role_bindings, roles, cluster_roles);
    let wide = all_cluster_rows(subject, cluster_role_bindings, cluster_roles);
    let other_wide = all_cluster_rows(subject, other_cluster_role_bindings, cluster_roles);
    local_rows_are_gathered(subject, role_bindings, roles, cluster_roles);
    local_rows_are_gathered(subject, other_role_bindings, roles, cluster_roles);
    cluster_rows_are_gathered(subject, cluster_role_bindings, cluster_roles);
    cluster_rows_are_gathered(subject, other_cluster_role_bindings, cluster_roles);
    order::gathering_forgets_the_order(
        role_bindings,
        other_role_bindings,
        local_found(subject, roles, cluster_roles),
    );
    order::gathering_forgets_the_order(
        cluster_role_bindings,
        other_cluster_role_bindings,
        cluster_found(subject, cluster_roles),
    );
    seq_lib::lemma_multiset_commutative(local, wide);
    seq_lib::lemma_multiset_commutative(other_local, other_wide);
    order::sorting_forgets_the_order::<RbacRule>(local + wide, other_local + other_wide);
}

/// A snapshot pins what it read: the account, and the revisions of the policies that govern the
/// pod, or that none does.
pub proof fn a_snapshot_pins_what_it_read(
    subject: PodSubjectModel,
    policies: Seq<NetworkPolicyModel>,
    rbac: Seq<RbacRuleModel>,
)
    ensures
        crate::map::found(pins(subject, policies, rbac), "serviceAccount"@) == Some(
            subject.service_account,
        ),
        crate::map::found(pins(subject, policies, rbac), "networkPolicies"@) == Some(
            if enforced_egress(subject, policies) is None {
                "none selected"@
            } else {
                text::joined(
                    order::in_order::<String>(policy_pins(governing(subject, policies))),
                    ","@,
                )
            },
        ),
{
    reveal_strlit("serviceAccount");
    reveal_strlit("networkPolicies");
    reveal_strlit("rbacBindings");
    assert("serviceAccount"@.len() != "networkPolicies"@.len());
    assert("serviceAccount"@.len() != "rbacBindings"@.len());
    assert("networkPolicies"@.len() != "rbacBindings"@.len());
    let empty = Seq::<Pair>::empty();
    let a = crate::map::inserted(empty, "serviceAccount"@, subject.service_account);
    let policies_text = if enforced_egress(subject, policies) is Some {
        text::joined(order::in_order::<String>(policy_pins(governing(subject, policies))), ","@)
    } else {
        "none selected"@
    };
    let b = crate::map::inserted(a, "networkPolicies"@, policies_text);
    let bindings = text::joined(order::each_once::<String>(bindings_of(rbac)), ","@);
    crate::map::inserting_keeps_order(empty, "serviceAccount"@, subject.service_account);
    crate::map::inserting_keeps_order(a, "networkPolicies"@, policies_text);
    crate::map::an_insertion_is_found(
        empty,
        "serviceAccount"@,
        subject.service_account,
        "networkPolicies"@,
    );
    crate::map::an_insertion_is_found(a, "networkPolicies"@, policies_text, "serviceAccount"@);
    crate::map::an_insertion_is_found(b, "rbacBindings"@, bindings, "serviceAccount"@);
    crate::map::an_insertion_is_found(b, "rbacBindings"@, bindings, "networkPolicies"@);
}

/// Nothing is listed twice: destinations and rules come strictly in order.
pub proof fn nothing_is_listed_twice(
    subject: PodSubjectModel,
    policies: Seq<NetworkPolicyModel>,
    roles: Seq<RoleModel>,
    cluster_roles: Seq<ClusterRoleModel>,
    role_bindings: Seq<RoleBindingModel>,
    cluster_role_bindings: Seq<ClusterRoleBindingModel>,
)
    ensures
        ({
            let held = held_rules(
                subject,
                roles,
                cluster_roles,
                role_bindings,
                cluster_role_bindings,
            );
            held.no_duplicates() && order::ascends::<RbacRule>(held)
        }),
        enforced_egress(subject, policies) matches Some(e) ==> {
            &&& e.cidrs.no_duplicates() && order::ascends::<String>(e.cidrs)
            &&& e.selectors.no_duplicates() && order::ascends::<String>(e.selectors)
        },
{
    order::each_once_ascends::<RbacRule>(
        all_local_rows(subject, role_bindings, roles, cluster_roles) + all_cluster_rows(
            subject,
            cluster_role_bindings,
            cluster_roles,
        ),
    );
    let d = policies_reach(governing(subject, policies));
    order::each_once_ascends::<String>(d.cidrs);
    order::each_once_ascends::<String>(d.selectors);
}

// ---------------------------------------------------------------------------------------------
// What is enforced and held, read off the objects
// ---------------------------------------------------------------------------------------------
/// An optional name is `wanted`, where no name stands for an empty one.
pub open spec fn is_name(name: Option<Seq<char>>, wanted: Seq<char>) -> bool {
    match name {
        Some(n) => n == wanted,
        None => wanted.len() == 0,
    }
}

/// The values that a requirement lists hold `v`.
pub open spec fn lists_value(e: LabelSelectorRequirementModel, v: Seq<char>) -> bool {
    e.values matches Some(values) && values.contains(v)
}

/// The labels meet a requirement, in the words of its operator.
pub open spec fn label_fits(e: LabelSelectorRequirementModel, label: Option<Seq<char>>) -> bool {
    &&& e.operator == "In"@ ==> label is Some && lists_value(e, label->0)
    &&& e.operator == "NotIn"@ ==> label is None || !lists_value(e, label->0)
    &&& e.operator == "Exists"@ ==> label is Some
    &&& e.operator == "DoesNotExist"@ ==> label is None
}

/// A selector picks a pod with these labels: every label that it asks for is there with its value, and
/// every requirement fits.
pub open spec fn picks(selector: LabelSelectorModel, labels: Seq<Pair>) -> bool {
    &&& (selector.match_labels matches Some(m) ==> forall|i: int|
        0 <= i < m.len() ==> crate::map::found(labels, (#[trigger] m[i]).0) == Some(m[i].1))
    &&& (selector.match_expressions matches Some(m) ==> forall|i: int|
        0 <= i < m.len() ==> label_fits(
            #[trigger] m[i],
            crate::map::found(labels, m[i].key),
        ))
}

/// The policy is of the pod's namespace, restricts egress and picks the pod.
pub open spec fn applies(subject: PodSubjectModel, p: NetworkPolicyModel) -> bool {
    &&& is_name(p.metadata.namespace, subject.namespace)
    &&& p.spec matches Some(s) && {
        &&& if s.policy_types is Some && s.policy_types->0.len() > 0 {
            s.policy_types->0.contains("Egress"@)
        } else {
            s.egress is Some
        }
        &&& s.pod_selector is None || picks(s.pod_selector->0, subject.labels)
    }
}

proof fn applying_is_governing(subject: PodSubjectModel, p: NetworkPolicyModel)
    ensures
        governs(subject, p) <==> applies(subject, p),
{
    reveal_strlit("In");
    reveal_strlit("NotIn");
    reveal_strlit("Exists");
    reveal_strlit("DoesNotExist");
    if p.metadata.namespace is None && subject.namespace.len() == 0 {
        assert(subject.namespace =~= Seq::<char>::empty());
    }
    if let Some(s) = p.spec {
        if let Some(sel) = s.pod_selector {
            let m = list_or_empty(sel.match_expressions);
            assert forall|i: int| 0 <= i < m.len() implies meets(#[trigger] m[i], subject.labels)
                == label_fits(m[i], crate::map::found(subject.labels, m[i].key)) by {
                let e = m[i];
                assert("In"@.len() == 2 && "NotIn"@.len() == 5 && "Exists"@.len() == 6
                    && "DoesNotExist"@.len() == 12);
            }
            let l = list_or_empty(sel.match_labels);
            if picks(sel, subject.labels) {
                assert forall|i: int| 0 <= i < m.len() implies meets(
                    #[trigger] m[i],
                    subject.labels,
                ) by {}
                assert forall|i: int| 0 <= i < l.len() implies crate::map::found(
                    subject.labels,
                    (#[trigger] l[i]).0,
                ) == Some(l[i].1) by {}
            }
            if selected_by(sel, subject.labels) {
                if let Some(x) = sel.match_expressions {
                    assert forall|i: int| 0 <= i < x.len() implies label_fits(
                        #[trigger] x[i],
                        crate::map::found(subject.labels, x[i].key),
                    ) by {
                        assert(meets(m[i], subject.labels));
                    }
                }
                if let Some(x) = sel.match_labels {
                    assert forall|i: int| 0 <= i < x.len() implies crate::map::found(
                        subject.labels,
                        (#[trigger] x[i]).0,
                    ) == Some(x[i].1) by {
                        assert(l[i] == x[i]);
                    }
                }
            }
        }
    }
}

/// A policy that is of another namespace, does not restrict egress or does not pick the pod changes
/// nothing: what is enforced is what the other policies say.
pub proof fn a_policy_that_does_not_apply_changes_nothing(
    subject: PodSubjectModel,
    policies: Seq<NetworkPolicyModel>,
    p: NetworkPolicyModel,
)
    requires
        !applies(subject, p),
    ensures
        enforced_egress(subject, policies.push(p)) == enforced_egress(subject, policies),
{
    applying_is_governing(subject, p);
    assert(policies.push(p).drop_last() =~= policies);
}

/// A policy of another namespace changes nothing, and where every listed policy is of another
/// namespace the pod's egress is not restricted at all.
pub proof fn a_policy_of_another_namespace_changes_nothing(
    subject: PodSubjectModel,
    policies: Seq<NetworkPolicyModel>,
    p: NetworkPolicyModel,
)
    ensures
        !is_name(p.metadata.namespace, subject.namespace) ==> enforced_egress(
            subject,
            policies.push(p),
        ) == enforced_egress(subject, policies),
        (forall|i: int|
            0 <= i < policies.len() ==> !is_name(
                (#[trigger] policies[i]).metadata.namespace,
                subject.namespace,
            )) ==> enforced_egress(subject, policies) is None,
{
    if !is_name(p.metadata.namespace, subject.namespace) {
        a_policy_that_does_not_apply_changes_nothing(subject, policies, p);
    }
    if forall|i: int|
        0 <= i < policies.len() ==> !is_name(
            (#[trigger] policies[i]).metadata.namespace,
            subject.namespace,
        ) {
        egress_is_restricted_where_a_policy_applies(subject, policies);
    }
}

/// Egress is restricted exactly where some listed policy applies to the pod.
pub proof fn egress_is_restricted_where_a_policy_applies(
    subject: PodSubjectModel,
    policies: Seq<NetworkPolicyModel>,
)
    ensures
        enforced_egress(subject, policies) is Some <==> exists|i: int|
            0 <= i < policies.len() && applies(subject, #[trigger] policies[i]),
{
    no_policy_is_no_restriction(subject, policies);
    assert forall|i: int| 0 <= i < policies.len() implies governs(subject, #[trigger] policies[i])
        == applies(subject, policies[i]) by {
        applying_is_governing(subject, policies[i]);
    }
}

/// The rule lets traffic out to the range `c`: by name, or to everywhere where it names nothing.
pub open spec fn rule_reaches(r: NetworkPolicyEgressRuleModel, c: Seq<char>) -> bool {
    if r.to is None || r.to->0.len() == 0 {
        c == "0.0.0.0/0"@
    } else {
        exists|j: int|
            0 <= j < r.to->0.len() && ((#[trigger] r.to->0[j]).ip_block matches Some(b) && b.cidr
                == c)
    }
}

/// The peer is described by `x`: an exception of its block, its pods or its namespaces.
pub open spec fn peer_is_described(p: NetworkPolicyPeerModel, x: Seq<char>) -> bool {
    ||| p.ip_block matches Some(b) && b.except matches Some(es) && exists|k: int|
        0 <= k < es.len() && "except "@ + #[trigger] es[k] == x
    ||| p.pod_selector matches Some(s) && x == "pods "@ + selector_words(s)
    ||| p.namespace_selector matches Some(s) && x == "namespaces "@ + selector_words(s)
}

/// Some destination of the rule is described by `x`.
pub open spec fn rule_describes(r: NetworkPolicyEgressRuleModel, x: Seq<char>) -> bool {
    r.to matches Some(to) && exists|j: int|
        0 <= j < to.len() && peer_is_described(#[trigger] to[j], x)
}

/// Some rule of the policy lets traffic out to the range `c`.
pub open spec fn policy_reaches(p: NetworkPolicyModel, c: Seq<char>) -> bool {
    p.spec matches Some(s) && s.egress matches Some(rules) && exists|k: int|
        0 <= k < rules.len() && rule_reaches(#[trigger] rules[k], c)
}

/// Some rule of the policy has a destination that is described by `x`.
pub open spec fn policy_describes(p: NetworkPolicyModel, x: Seq<char>) -> bool {
    p.spec matches Some(s) && s.egress matches Some(rules) && exists|k: int|
        0 <= k < rules.len() && rule_describes(#[trigger] rules[k], x)
}

proof fn in_sum<A>(a: Seq<A>, b: Seq<A>, x: A)
    ensures
        (a + b).contains(x) <==> a.contains(x) || b.contains(x),
{
    if a.contains(x) {
        let i = choose|i: int| 0 <= i < a.len() && a[i] == x;
        assert((a + b)[i] == x);
    }
    if b.contains(x) {
        let i = choose|i: int| 0 <= i < b.len() && b[i] == x;
        assert((a + b)[a.len() + i] == x);
    }
    if (a + b).contains(x) {
        let i = choose|i: int| 0 <= i < (a + b).len() && (a + b)[i] == x;
        if i < a.len() {
            assert(a[i] == x);
        } else {
            assert(b[i - a.len()] == x);
        }
    }
}

proof fn peer_parts(p: NetworkPolicyPeerModel, x: Seq<char>)
    ensures
        peer_reach(p).cidrs.contains(x) <==> (p.ip_block matches Some(b) && b.cidr == x),
        peer_reach(p).selectors.contains(x) <==> peer_is_described(p, x),
{
    let excepts = match p.ip_block {
        Some(b) => list_or_empty(b.except),
        None => Seq::empty(),
    };
    let a = Seq::new(excepts.len(), |i: int| "except "@ + excepts[i]);
    let b = selector_words_of("pods "@, p.pod_selector);
    let c = selector_words_of("namespaces "@, p.namespace_selector);
    in_sum(a, b, x);
    in_sum(a + b, c, x);
    if let Some(s) = p.pod_selector {
        assert(b[0] == "pods "@ + selector_words(s));
    }
    if let Some(s) = p.namespace_selector {
        assert(c[0] == "namespaces "@ + selector_words(s));
    }
    if let Some(blk) = p.ip_block {
        assert(peer_reach(p).cidrs[0] == blk.cidr);
    }
    if a.contains(x) {
        let k = choose|k: int| 0 <= k < a.len() && a[k] == x;
        assert("except "@ + excepts[k] == x);
    }
    if p.ip_block is Some && p.ip_block->0.except is Some && exists|k: int|
        0 <= k < excepts.len() && "except "@ + #[trigger] excepts[k] == x {
        let k = choose|k: int| 0 <= k < excepts.len() && "except "@ + #[trigger] excepts[k] == x;
        assert(a[k] == x);
    }
}

proof fn peers_parts(peers: Seq<NetworkPolicyPeerModel>, x: Seq<char>)
    ensures
        peers_reach(peers).cidrs.contains(x) <==> exists|j: int|
            0 <= j < peers.len() && ((#[trigger] peers[j]).ip_block matches Some(b) && b.cidr == x),
        peers_reach(peers).selectors.contains(x) <==> exists|j: int|
            0 <= j < peers.len() && peer_is_described(#[trigger] peers[j], x),
    decreases peers.len(),
{
    if peers.len() > 0 {
        let before = peers.drop_last();
        peers_parts(before, x);
        peer_parts(peers.last(), x);
        in_sum(peers_reach(before).cidrs, peer_reach(peers.last()).cidrs, x);
        in_sum(peers_reach(before).selectors, peer_reach(peers.last()).selectors, x);
        assert forall|j: int| 0 <= j < before.len() implies #[trigger] before[j] == peers[j] by {}
        assert(peers[peers.len() - 1] == peers.last());
        if exists|j: int|
            0 <= j < before.len() && ((#[trigger] before[j]).ip_block matches Some(b) && b.cidr
                == x) {
            let j = choose|j: int|
                0 <= j < before.len() && ((#[trigger] before[j]).ip_block matches Some(b) && b.cidr
                    == x);
            assert(peers[j].ip_block is Some);
        }
        if exists|j: int| 0 <= j < before.len() && peer_is_described(#[trigger] before[j], x) {
            let j = choose|j: int| 0 <= j < before.len() && peer_is_described(#[trigger] before[j], x);
            assert(peer_is_described(peers[j], x));
        }
        if exists|j: int|
            0 <= j < peers.len() && ((#[trigger] peers[j]).ip_block matches Some(b) && b.cidr == x) {
            let j = choose|j: int|
                0 <= j < peers.len() && ((#[trigger] peers[j]).ip_block matches Some(b) && b.cidr
                    == x);
            if j < before.len() {
                assert(before[j].ip_block is Some);
            }
        }
        if exists|j: int| 0 <= j < peers.len() && peer_is_described(#[trigger] peers[j], x) {
            let j = choose|j: int| 0 <= j < peers.len() && peer_is_described(#[trigger] peers[j], x);
            if j < before.len() {
                assert(peer_is_described(before[j], x));
            }
        }
    }
}

proof fn rule_parts(r: NetworkPolicyEgressRuleModel, x: Seq<char>)
    ensures
        rule_reach(r).cidrs.contains(x) <==> rule_reaches(r, x),
        rule_reach(r).selectors.contains(x) <==> rule_describes(r, x),
{
    if is_open(r) {
        assert(rule_reach(r).cidrs[0] == "0.0.0.0/0"@);
    } else {
        peers_parts(r.to->0, x);
    }
}

proof fn rules_parts(rules: Seq<NetworkPolicyEgressRuleModel>, x: Seq<char>)
    ensures
        rules_reach(rules).cidrs.contains(x) <==> exists|k: int|
            0 <= k < rules.len() && rule_reaches(#[trigger] rules[k], x),
        rules_reach(rules).selectors.contains(x) <==> exists|k: int|
            0 <= k < rules.len() && rule_describes(#[trigger] rules[k], x),
    decreases rules.len(),
{
    if rules.len() > 0 {
        let before = rules.drop_last();
        rules_parts(before, x);
        rule_parts(rules.last(), x);
        in_sum(rules_reach(before).cidrs, rule_reach(rules.last()).cidrs, x);
        in_sum(rules_reach(before).selectors, rule_reach(rules.last()).selectors, x);
        assert(rules[rules.len() - 1] == rules.last());
        if exists|k: int| 0 <= k < before.len() && rule_reaches(#[trigger] before[k], x) {
            let k = choose|k: int| 0 <= k < before.len() && rule_reaches(#[trigger] before[k], x);
            assert(rule_reaches(rules[k], x));
        }
        if exists|k: int| 0 <= k < before.len() && rule_describes(#[trigger] before[k], x) {
            let k = choose|k: int| 0 <= k < before.len() && rule_describes(#[trigger] before[k], x);
            assert(rule_describes(rules[k], x));
        }
        if exists|k: int| 0 <= k < rules.len() && rule_reaches(#[trigger] rules[k], x) {
            let k = choose|k: int| 0 <= k < rules.len() && rule_reaches(#[trigger] rules[k], x);
            if k < before.len() {
                assert(rule_reaches(before[k], x));
            }
        }
        if exists|k: int| 0 <= k < rules.len() && rule_describes(#[trigger] rules[k], x) {
            let k = choose|k: int| 0 <= k < rules.len() && rule_describes(#[trigger] rules[k], x);
            if k < before.len() {
                assert(rule_describes(before[k], x));
            }
        }
    }
}

proof fn policy_parts(p: NetworkPolicyModel, x: Seq<char>)
    ensures
        policy_reach(p).cidrs.contains(x) <==> policy_reaches(p, x),
        policy_reach(p).selectors.contains(x) <==> policy_describes(p, x),
{
    if let Some(s) = p.spec {
        rules_parts(list_or_empty(s.egress), x);
    }
}

proof fn gathered_parts(subject: PodSubjectModel, policies: Seq<NetworkPolicyModel>, x: Seq<char>)
    ensures
        policies_reach(governing(subject, policies)).cidrs.contains(x) <==> exists|i: int|
            0 <= i < policies.len() && applies(subject, #[trigger] policies[i]) && policy_reaches(
                policies[i],
                x,
            ),
        policies_reach(governing(subject, policies)).selectors.contains(x) <==> exists|i: int|
            0 <= i < policies.len() && applies(subject, #[trigger] policies[i]) && policy_describes(
                policies[i],
                x,
            ),
        policy_names(governing(subject, policies)).contains(x) <==> exists|i: int|
            0 <= i < policies.len() && applies(subject, #[trigger] policies[i]) && policy_name(
                policies[i],
            ) == x,
    decreases policies.len(),
{
    let g = governing(subject, policies);
    if policies.len() > 0 {
        let before = policies.drop_last();
        let h = governing(subject, before);
        let last = policies.last();
        gathered_parts(subject, before, x);
        applying_is_governing(subject, last);
        policy_parts(last, x);
        assert(policies[policies.len() - 1] == last);
        assert forall|i: int| 0 <= i < before.len() implies #[trigger] before[i] == policies[i] by {}
        if governs(subject, last) {
            assert(g.drop_last() =~= h);
            in_sum(policies_reach(h).cidrs, policy_reach(last).cidrs, x);
            in_sum(policies_reach(h).selectors, policy_reach(last).selectors, x);
            assert(policy_names(g) =~= policy_names(h) + seq![policy_name(last)]);
            in_sum(policy_names(h), seq![policy_name(last)], x);
            assert(seq![policy_name(last)][0] == policy_name(last));
        }
        if exists|i: int|
            0 <= i < before.len() && applies(subject, #[trigger] before[i]) && policy_reaches(
                before[i],
                x,
            ) {
            let i = choose|i: int|
                0 <= i < before.len() && applies(subject, #[trigger] before[i]) && policy_reaches(
                    before[i],
                    x,
                );
            assert(applies(subject, policies[i]));
        }
        if exists|i: int|
            0 <= i < before.len() && applies(subject, #[trigger] before[i]) && policy_describes(
                before[i],
                x,
            ) {
            let i = choose|i: int|
                0 <= i < before.len() && applies(subject, #[trigger] before[i]) && policy_describes(
                    before[i],
                    x,
                );
            assert(applies(subject, policies[i]));
        }
        if exists|i: int|
            0 <= i < before.len() && applies(subject, #[trigger] before[i]) && policy_name(before[i])
                == x {
            let i = choose|i: int|
                0 <= i < before.len() && applies(subject, #[trigger] before[i]) && policy_name(
                    before[i],
                ) == x;
            assert(applies(subject, policies[i]));
        }
        if exists|i: int|
            0 <= i < policies.len() && applies(subject, #[trigger] policies[i]) && policy_reaches(
                policies[i],
                x,
            ) {
            let i = choose|i: int|
                0 <= i < policies.len() && applies(subject, #[trigger] policies[i])
                    && policy_reaches(policies[i], x);
            if i < before.len() {
                assert(applies(subject, before[i]));
            }
        }
        if exists|i: int|
            0 <= i < policies.len() && applies(subject, #[trigger] policies[i]) && policy_describes(
                policies[i],
                x,
            ) {
            let i = choose|i: int|
                0 <= i < policies.len() && applies(subject, #[trigger] policies[i])
                    && policy_describes(policies[i], x);
            if i < before.len() {
                assert(applies(subject, before[i]));
            }
        }
        if exists|i: int|
            0 <= i < policies.len() && applies(subject, #[trigger] policies[i]) && policy_name(
                policies[i],
            ) == x {
            let i = choose|i: int|
                0 <= i < policies.len() && applies(subject, #[trigger] policies[i]) && policy_name(
                    policies[i],
                ) == x;
            if i < before.len() {
                assert(applies(subject, before[i]));
            }
        }
    }
}

/// Where egress is restricted, the pod reaches the ranges and destinations that the policies that
/// apply to it name, each of them and no other; the policies are named, each and no other; and it
/// reaches nothing exactly where they name nothing.
pub proof fn what_is_enforced_is_what_applies(
    subject: PodSubjectModel,
    policies: Seq<NetworkPolicyModel>,
    x: Seq<char>,
)
    ensures
        enforced_egress(subject, policies) matches Some(e) ==> {
            &&& e.cidrs.contains(x) <==> exists|i: int|
                0 <= i < policies.len() && applies(subject, #[trigger] policies[i])
                    && policy_reaches(policies[i], x)
            &&& e.selectors.contains(x) <==> exists|i: int|
                0 <= i < policies.len() && applies(subject, #[trigger] policies[i])
                    && policy_describes(policies[i], x)
            &&& e.policy_names.contains(x) <==> exists|i: int|
                0 <= i < policies.len() && applies(subject, #[trigger] policies[i]) && policy_name(
                    policies[i],
                ) == x
            &&& e.deny_all <==> e.cidrs.len() == 0 && e.selectors.len() == 0
        },
{
    let g = governing(subject, policies);
    let d = policies_reach(g);
    gathered_parts(subject, policies, x);
    order::each_value_is_kept::<String>(d.cidrs, x);
    order::each_value_is_kept::<String>(d.selectors, x);
    in_order_keeps(policy_names(g), x);
    once_is_empty(d.cidrs);
    once_is_empty(d.selectors);
}

proof fn in_order_keeps(s: Seq<Seq<char>>, x: Seq<char>)
    ensures
        order::in_order::<String>(s).contains(x) <==> s.contains(x),
{
    order::each_value_is_kept::<String>(s, x);
    order::nothing_is_lost(order::in_order::<String>(s), x);
}

proof fn once_is_empty(s: Seq<Seq<char>>)
    ensures
        order::each_once::<String>(s).len() == 0 <==> s.len() == 0,
{
    let r = order::each_once::<String>(s);
    if s.len() > 0 {
        assert(s.contains(s[0]));
        order::each_value_is_kept::<String>(s, s[0]);
    }
    if r.len() > 0 {
        assert(r.contains(r[0]));
        order::each_value_is_kept::<String>(s, r[0]);
    }
}

/// A policy is named by its namespace and its name.
pub proof fn a_policy_is_named_in_full(p: NetworkPolicyModel, namespace: Seq<char>, name: Seq<char>)
    requires
        p.metadata.namespace == Some(namespace),
        p.metadata.name == Some(name),
    ensures
        policy_name(p) == namespace + "/"@ + name,
        p.metadata.resource_version matches Some(v) ==> policy_pin(p) == namespace + "/"@ + name
            + "@"@ + v,
{
}

/// A subject of a binding is the pod's ServiceAccount, by its own name or by a group that holds it.
pub open spec fn is_account(s: SubjectModel, subject: PodSubjectModel) -> bool {
    ||| s.kind == "ServiceAccount"@ && s.name == subject.service_account && (s.namespace is None
        || s.namespace->0 == subject.namespace)
    ||| s.kind == "Group"@ && s.name == "system:serviceaccounts"@
    ||| s.kind == "Group"@ && s.name == "system:serviceaccounts:"@ + subject.namespace
}

/// Some subject of a binding is the pod's ServiceAccount.
pub open spec fn is_bound(subjects: Option<Seq<SubjectModel>>, subject: PodSubjectModel) -> bool {
    subjects matches Some(ss) && exists|i: int|
        0 <= i < ss.len() && is_account(#[trigger] ss[i], subject)
}

proof fn bound_is_named(subjects: Option<Seq<SubjectModel>>, subject: PodSubjectModel)
    ensures
        names_account(subjects, subject) <==> is_bound(subjects, subject),
{
    let ss = list_or_empty(subjects);
    assert forall|i: int| 0 <= i < ss.len() implies covers(#[trigger] ss[i], subject) == is_account(
        ss[i],
        subject,
    ) by {}
    if names_account(subjects, subject) {
        let i = choose|i: int| 0 <= i < ss.len() && covers(#[trigger] ss[i], subject);
        assert(is_account(subjects->0[i], subject));
    }
    if is_bound(subjects, subject) {
        let i = choose|i: int|
            0 <= i < subjects->0.len() && is_account(#[trigger] subjects->0[i], subject);
        assert(covers(ss[i], subject));
    }
}

/// The row is one of a rule: one of its resources, in one of its groups, with its verbs. A rule that
/// names no groups is one of the core group.
pub open spec fn is_row_of(rule: PolicyRuleModel, r: RbacRuleModel) -> bool {
    &&& r.verbs == rule.verbs
    &&& rule.resources matches Some(rs) && rs.contains(r.resource)
    &&& match rule.api_groups {
        Some(gs) => gs.contains(r.api_group),
        None => r.api_group.len() == 0,
    }
}

/// The row is one that a binding to these rules gives, in this scope; where the role is not known, the
/// row that says so.
pub open spec fn is_given(
    rules: Option<Seq<PolicyRuleModel>>,
    binding: Seq<char>,
    scope: Option<Seq<char>>,
    role: Seq<char>,
    r: RbacRuleModel,
) -> bool {
    r.namespace == scope && match rules {
        Some(rs) => r.binding == binding && exists|k: int|
            0 <= k < rs.len() && is_row_of(#[trigger] rs[k], r),
        None => r.binding == binding + " -> "@ + role + " (not in cache)"@ && r.resource
            == "<unresolved>"@ && r.verbs.len() == 0 && r.api_group.len() == 0,
    }
}

proof fn group_parts(
    rule: PolicyRuleModel,
    groups: Seq<Seq<char>>,
    binding: Seq<char>,
    scope: Option<Seq<char>>,
    r: RbacRuleModel,
)
    ensures
        groups_rows(rule, groups, binding, scope).contains(r) <==> r.binding == binding
            && r.namespace == scope && r.verbs == rule.verbs && groups.contains(r.api_group)
            && list_or_empty(rule.resources).contains(r.resource),
    decreases groups.len(),
{
    if groups.len() > 0 {
        let before = groups.drop_last();
        let last = group_rows(rule, groups.last(), binding, scope);
        let rs = list_or_empty(rule.resources);
        group_parts(rule, before, binding, scope, r);
        in_sum(groups_rows(rule, before, binding, scope), last, r);
        assert(groups =~= before + seq![groups.last()]);
        in_sum(before, seq![groups.last()], r.api_group);
        assert(seq![groups.last()][0] == groups.last());
        assert(seq![groups.last()].contains(r.api_group) <==> groups.last() == r.api_group);
        if last.contains(r) {
            let i = choose|i: int| 0 <= i < last.len() && last[i] == r;
            assert(rs[i] == r.resource);
        }
        if r.binding == binding && r.namespace == scope && r.verbs == rule.verbs && groups.last()
            == r.api_group && rs.contains(r.resource) {
            let i = choose|i: int| 0 <= i < rs.len() && rs[i] == r.resource;
            assert(last[i] == r);
        }
    }
}

proof fn rule_gives(
    rule: PolicyRuleModel,
    binding: Seq<char>,
    scope: Option<Seq<char>>,
    r: RbacRuleModel,
)
    ensures
        rule_rows(rule, binding, scope).contains(r) <==> r.binding == binding && r.namespace == scope
            && is_row_of(rule, r),
{
    let groups = match rule.api_groups {
        Some(g) => g,
        None => seq![Seq::empty()],
    };
    group_parts(rule, groups, binding, scope, r);
    if rule.api_groups is None {
        assert(groups[0] =~= Seq::<char>::empty());
        if r.api_group.len() == 0 {
            assert(r.api_group =~= groups[0]);
        }
    }
}

proof fn rules_give(
    rules: Seq<PolicyRuleModel>,
    binding: Seq<char>,
    scope: Option<Seq<char>>,
    r: RbacRuleModel,
)
    ensures
        rules_rows(rules, binding, scope).contains(r) <==> r.binding == binding && r.namespace
            == scope && exists|k: int| 0 <= k < rules.len() && is_row_of(#[trigger] rules[k], r),
    decreases rules.len(),
{
    if rules.len() > 0 {
        let before = rules.drop_last();
        rules_give(before, binding, scope, r);
        rule_gives(rules.last(), binding, scope, r);
        in_sum(
            rules_rows(before, binding, scope),
            rule_rows(rules.last(), binding, scope),
            r,
        );
        assert(rules[rules.len() - 1] == rules.last());
        if exists|k: int| 0 <= k < before.len() && is_row_of(#[trigger] before[k], r) {
            let k = choose|k: int| 0 <= k < before.len() && is_row_of(#[trigger] before[k], r);
            assert(is_row_of(rules[k], r));
        }
        if exists|k: int| 0 <= k < rules.len() && is_row_of(#[trigger] rules[k], r) {
            let k = choose|k: int| 0 <= k < rules.len() && is_row_of(#[trigger] rules[k], r);
            if k < before.len() {
                assert(is_row_of(before[k], r));
            }
        }
    }
}

proof fn binding_gives(
    binding: Seq<char>,
    scope: Option<Seq<char>>,
    rules: Option<Seq<PolicyRuleModel>>,
    role: Seq<char>,
    r: RbacRuleModel,
)
    ensures
        bound_rows(binding, scope, rules, role).contains(r) <==> is_given(
            rules,
            binding,
            scope,
            role,
            r,
        ),
{
    match rules {
        Some(rs) => rules_give(rs, binding, scope, r),
        None => {
            let u = unresolved(binding, scope, role);
            assert(bound_rows(binding, scope, rules, role)[0] == u);
            if is_given(rules, binding, scope, role, r) {
                assert(r.verbs =~= u.verbs);
                assert(r.api_group =~= u.api_group);
                assert(r == u);
            }
        },
    }
}

/// A RoleBinding gives the row: it is of the pod's namespace and binds its account, and the row is one
/// of its Role's, or of its ClusterRole's, held in that namespace alone.
pub open spec fn gives_locally(
    subject: PodSubjectModel,
    b: RoleBindingModel,
    roles: Seq<RoleModel>,
    cluster_roles: Seq<ClusterRoleModel>,
    r: RbacRuleModel,
) -> bool {
    &&& is_name(b.metadata.namespace, subject.namespace)
    &&& is_bound(b.subjects, subject)
    &&& is_given(
        if b.role_ref.kind == "Role"@ {
            role_rules(roles, b.role_ref.name, subject.namespace)
        } else if b.role_ref.kind == "ClusterRole"@ {
            cluster_role_rules(cluster_roles, b.role_ref.name)
        } else {
            None
        },
        "RoleBinding "@ + subject.namespace + "/"@ + text_or(b.metadata.name, "<unnamed>"@),
        Some(subject.namespace),
        b.role_ref.name,
        r,
    )
}

/// A ClusterRoleBinding gives the row: it binds the pod's account, and the row is one of its
/// ClusterRole's, held everywhere.
pub open spec fn gives_everywhere(
    subject: PodSubjectModel,
    b: ClusterRoleBindingModel,
    cluster_roles: Seq<ClusterRoleModel>,
    r: RbacRuleModel,
) -> bool {
    &&& is_bound(b.subjects, subject)
    &&& is_given(
        cluster_role_rules(cluster_roles, b.role_ref.name),
        "ClusterRoleBinding "@ + text_or(b.metadata.name, "<unnamed>"@),
        None,
        b.role_ref.name,
        r,
    )
}

proof fn local_gives(
    subject: PodSubjectModel,
    b: RoleBindingModel,
    roles: Seq<RoleModel>,
    cluster_roles: Seq<ClusterRoleModel>,
    r: RbacRuleModel,
)
    ensures
        local_rows(subject, b, roles, cluster_roles).contains(r) <==> gives_locally(
            subject,
            b,
            roles,
            cluster_roles,
            r,
        ),
{
    bound_is_named(b.subjects, subject);
    if b.metadata.namespace is None && subject.namespace.len() == 0 {
        assert(subject.namespace =~= Seq::<char>::empty());
    }
    binding_gives(
        "RoleBinding "@ + subject.namespace + "/"@ + text_or(b.metadata.name, "<unnamed>"@),
        Some(subject.namespace),
        if b.role_ref.kind == "Role"@ {
            role_rules(roles, b.role_ref.name, subject.namespace)
        } else if b.role_ref.kind == "ClusterRole"@ {
            cluster_role_rules(cluster_roles, b.role_ref.name)
        } else {
            None
        },
        b.role_ref.name,
        r,
    );
}

proof fn cluster_gives(
    subject: PodSubjectModel,
    b: ClusterRoleBindingModel,
    cluster_roles: Seq<ClusterRoleModel>,
    r: RbacRuleModel,
)
    ensures
        cluster_rows(subject, b, cluster_roles).contains(r) <==> gives_everywhere(
            subject,
            b,
            cluster_roles,
            r,
        ),
{
    bound_is_named(b.subjects, subject);
    binding_gives(
        "ClusterRoleBinding "@ + text_or(b.metadata.name, "<unnamed>"@),
        None,
        cluster_role_rules(cluster_roles, b.role_ref.name),
        b.role_ref.name,
        r,
    );
}

proof fn all_local_give(
    subject: PodSubjectModel,
    bindings: Seq<RoleBindingModel>,
    roles: Seq<RoleModel>,
    cluster_roles: Seq<ClusterRoleModel>,
    r: RbacRuleModel,
)
    ensures
        all_local_rows(subject, bindings, roles, cluster_roles).contains(r) <==> exists|i: int|
            0 <= i < bindings.len() && gives_locally(
                subject,
                #[trigger] bindings[i],
                roles,
                cluster_roles,
                r,
            ),
    decreases bindings.len(),
{
    if bindings.len() > 0 {
        let before = bindings.drop_last();
        all_local_give(subject, before, roles, cluster_roles, r);
        local_gives(subject, bindings.last(), roles, cluster_roles, r);
        in_sum(
            all_local_rows(subject, before, roles, cluster_roles),
            local_rows(subject, bindings.last(), roles, cluster_roles),
            r,
        );
        assert(bindings[bindings.len() - 1] == bindings.last());
        if exists|i: int|
            0 <= i < before.len() && gives_locally(
                subject,
                #[trigger] before[i],
                roles,
                cluster_roles,
                r,
            ) {
            let i = choose|i: int|
                0 <= i < before.len() && gives_locally(
                    subject,
                    #[trigger] before[i],
                    roles,
                    cluster_roles,
                    r,
                );
            assert(gives_locally(subject, bindings[i], roles, cluster_roles, r));
        }
        if exists|i: int|
            0 <= i < bindings.len() && gives_locally(
                subject,
                #[trigger] bindings[i],
                roles,
                cluster_roles,
                r,
            ) {
            let i = choose|i: int|
                0 <= i < bindings.len() && gives_locally(
                    subject,
                    #[trigger] bindings[i],
                    roles,
                    cluster_roles,
                    r,
                );
            if i < before.len() {
                assert(gives_locally(subject, before[i], roles, cluster_roles, r));
            }
        }
    }
}

proof fn all_cluster_give(
    subject: PodSubjectModel,
    bindings: Seq<ClusterRoleBindingModel>,
    cluster_roles: Seq<ClusterRoleModel>,
    r: RbacRuleModel,
)
    ensures
        all_cluster_rows(subject, bindings, cluster_roles).contains(r) <==> exists|i: int|
            0 <= i < bindings.len() && gives_everywhere(
                subject,
                #[trigger] bindings[i],
                cluster_roles,
                r,
            ),
    decreases bindings.len(),
{
    if bindings.len() > 0 {
        let before = bindings.drop_last();
        all_cluster_give(subject, before, cluster_roles, r);
        cluster_gives(subject, bindings.last(), cluster_roles, r);
        in_sum(
            all_cluster_rows(subject, before, cluster_roles),
            cluster_rows(subject, bindings.last(), cluster_roles),
            r,
        );
        assert(bindings[bindings.len() - 1] == bindings.last());
        if exists|i: int|
            0 <= i < before.len() && gives_everywhere(
                subject,
                #[trigger] before[i],
                cluster_roles,
                r,
            ) {
            let i = choose|i: int|
                0 <= i < before.len() && gives_everywhere(
                    subject,
                    #[trigger] before[i],
                    cluster_roles,
                    r,
                );
            assert(gives_everywhere(subject, bindings[i], cluster_roles, r));
        }
        if exists|i: int|
            0 <= i < bindings.len() && gives_everywhere(
                subject,
                #[trigger] bindings[i],
                cluster_roles,
                r,
            ) {
            let i = choose|i: int|
                0 <= i < bindings.len() && gives_everywhere(
                    subject,
                    #[trigger] bindings[i],
                    cluster_roles,
                    r,
                );
            if i < before.len() {
                assert(gives_everywhere(subject, before[i], cluster_roles, r));
            }
        }
    }
}

/// A ServiceAccount holds what the bindings that bind it give, each row and no other: in its own
/// namespace what a RoleBinding there gives, and everywhere what a ClusterRoleBinding gives.
pub proof fn what_is_held_is_what_is_bound(
    subject: PodSubjectModel,
    roles: Seq<RoleModel>,
    cluster_roles: Seq<ClusterRoleModel>,
    role_bindings: Seq<RoleBindingModel>,
    cluster_role_bindings: Seq<ClusterRoleBindingModel>,
    r: RbacRuleModel,
)
    ensures
        held_rules(subject, roles, cluster_roles, role_bindings, cluster_role_bindings).contains(r)
            <==> (exists|i: int|
            0 <= i < role_bindings.len() && gives_locally(
                subject,
                #[trigger] role_bindings[i],
                roles,
                cluster_roles,
                r,
            )) || (exists|i: int|
            0 <= i < cluster_role_bindings.len() && gives_everywhere(
                subject,
                #[trigger] cluster_role_bindings[i],
                cluster_roles,
                r,
            )),
{
    let a = all_local_rows(subject, role_bindings, roles, cluster_roles);
    let b = all_cluster_rows(subject, cluster_role_bindings, cluster_roles);
    all_local_give(subject, role_bindings, roles, cluster_roles, r);
    all_cluster_give(subject, cluster_role_bindings, cluster_roles, r);
    in_sum(a, b, r);
    order::each_value_is_kept::<RbacRule>(a + b, r);
}

/// A role is found by its name and namespace, and a cluster role by its name: the rules are those of
/// the first that has them, and there are none where none has.
pub proof fn a_role_is_found_by_name(
    roles: Seq<RoleModel>,
    cluster_roles: Seq<ClusterRoleModel>,
    name: Seq<char>,
    namespace: Seq<char>,
    i: int,
)
    ensures
        0 <= i < roles.len() && roles[i].metadata.name == Some(name) && is_name(
            roles[i].metadata.namespace,
            namespace,
        ) && (forall|j: int|
            0 <= j < i ==> !((#[trigger] roles[j]).metadata.name == Some(name) && is_name(
                roles[j].metadata.namespace,
                namespace,
            ))) ==> role_rules(roles, name, namespace) == roles[i].rules,
        (forall|j: int|
            0 <= j < roles.len() ==> !((#[trigger] roles[j]).metadata.name == Some(name) && is_name(
                roles[j].metadata.namespace,
                namespace,
            ))) ==> role_rules(roles, name, namespace) is None,
        0 <= i < cluster_roles.len() && cluster_roles[i].metadata.name == Some(name) && (forall|j:
            int|
            0 <= j < i ==> (#[trigger] cluster_roles[j]).metadata.name != Some(name))
            ==> cluster_role_rules(cluster_roles, name) == cluster_roles[i].rules,
        (forall|j: int|
            0 <= j < cluster_roles.len() ==> (#[trigger] cluster_roles[j]).metadata.name != Some(
                name,
            )) ==> cluster_role_rules(cluster_roles, name) is None,
{
    role_found(roles, name, namespace, i);
    cluster_role_found(cluster_roles, name, i);
}

proof fn role_found(roles: Seq<RoleModel>, name: Seq<char>, namespace: Seq<char>, i: int)
    ensures
        0 <= i < roles.len() && roles[i].metadata.name == Some(name) && is_name(
            roles[i].metadata.namespace,
            namespace,
        ) && (forall|j: int|
            0 <= j < i ==> !((#[trigger] roles[j]).metadata.name == Some(name) && is_name(
                roles[j].metadata.namespace,
                namespace,
            ))) ==> role_rules(roles, name, namespace) == roles[i].rules,
        (forall|j: int|
            0 <= j < roles.len() ==> !((#[trigger] roles[j]).metadata.name == Some(name) && is_name(
                roles[j].metadata.namespace,
                namespace,
            ))) ==> role_rules(roles, name, namespace) is None,
    decreases roles.len(),
{
    if roles.len() > 0 {
        let rest = roles.drop_first();
        role_found(rest, name, namespace, i - 1);
        assert forall|j: int| 0 <= j < rest.len() implies #[trigger] rest[j] == roles[j + 1] by {}
        if namespace.len() == 0 {
            assert(namespace =~= Seq::<char>::empty());
        }
        let first = roles[0];
        assert((text_or_empty(first.metadata.namespace) == namespace) == is_name(
            first.metadata.namespace,
            namespace,
        ));
    }
}

proof fn cluster_role_found(roles: Seq<ClusterRoleModel>, name: Seq<char>, i: int)
    ensures
        0 <= i < roles.len() && roles[i].metadata.name == Some(name) && (forall|j: int|
            0 <= j < i ==> (#[trigger] roles[j]).metadata.name != Some(name)) ==> cluster_role_rules(
            roles,
            name,
        ) == roles[i].rules,
        (forall|j: int| 0 <= j < roles.len() ==> (#[trigger] roles[j]).metadata.name != Some(name))
            ==> cluster_role_rules(roles, name) is None,
    decreases roles.len(),
{
    if roles.len() > 0 {
        let rest = roles.drop_first();
        cluster_role_found(rest, name, i - 1);
        assert forall|j: int| 0 <= j < rest.len() implies #[trigger] rest[j] == roles[j + 1] by {}
        assert(roles[0].metadata.name == roles[0].metadata.name);
    }
}

/// A pod runs as the account that its spec names, in the field of today or else in the one of old, and
/// as `default` where it names none.
pub proof fn a_pod_runs_as_the_account_it_names(object: Tree, name: Seq<char>)
    ensures
        name.len() > 0 && object.at("spec"@, "serviceAccountName"@) == Some(Tree::Text(name))
            ==> account_of(object) == name,
        name.len() > 0 && object.at("spec"@, "serviceAccountName"@) is None && object.at(
            "spec"@,
            "serviceAccount"@,
        ) == Some(Tree::Text(name)) ==> account_of(object) == name,
        object.at("spec"@, "serviceAccountName"@) is None && object.at(
            "spec"@,
            "serviceAccount"@,
        ) is None ==> account_of(object) == "default"@,
        object.at("spec"@, "serviceAccountName"@) == Some(Tree::Text(Seq::empty())) ==> account_of(
            object,
        ) == "default"@,
        account_of(object).len() > 0,
{
    reveal_strlit("default");
}

/// A snapshot carries what is enforced and held for the pod, and the prefixes that were given.
pub proof fn a_snapshot_is_of_its_pod(
    subject: PodSubjectModel,
    policies: Seq<NetworkPolicyModel>,
    roles: Seq<RoleModel>,
    cluster_roles: Seq<ClusterRoleModel>,
    role_bindings: Seq<RoleBindingModel>,
    cluster_role_bindings: Seq<ClusterRoleBindingModel>,
    prefixes: Seq<Seq<char>>,
)
    ensures
        ({
            let s = snapshot_of(
                subject,
                policies,
                roles,
                cluster_roles,
                role_bindings,
                cluster_role_bindings,
                prefixes,
            );
            &&& s.egress == enforced_egress(subject, policies)
            &&& s.rbac == held_rules(
                subject,
                roles,
                cluster_roles,
                role_bindings,
                cluster_role_bindings,
            )
            &&& s.trusted_image_prefixes == prefixes
        }),
{
}

/// A pod's labels are the texts under `metadata.labels`, each under its name; without any, it has none.
pub proof fn a_pod_has_the_labels_it_carries(
    object: Tree,
    members: Seq<(Seq<char>, Tree)>,
    i: int,
    key: Seq<char>,
    value: Seq<char>,
)
    requires
        json::are_distinct(members),
    ensures
        object.at("metadata"@, "labels"@) == Some(Tree::Object(members)) && 0 <= i < members.len()
            && members[i] == (key, Tree::Text(value)) ==> crate::map::found(labels_of(object), key)
            == Some(value),
        object.at("metadata"@, "labels"@) is None ==> labels_of(object).len() == 0,
{
    if 0 <= i < members.len() && members[i] == (key, Tree::Text(value)) {
        label_is_kept(members, members.len(), i, key, value);
    }
}

proof fn label_is_kept(
    members: Seq<(Seq<char>, Tree)>,
    n: nat,
    i: int,
    key: Seq<char>,
    value: Seq<char>,
)
    requires
        json::are_distinct(members),
        n <= members.len(),
        0 <= i < members.len(),
        members[i] == (key, Tree::Text(value)),
    ensures
        crate::map::ascending(text_members(members, n)),
        i < n ==> crate::map::found(text_members(members, n), key) == Some(value),
    decreases n,
{
    if n > 0 {
        let m = (n - 1) as nat;
        let before = text_members(members, m);
        label_is_kept(members, m, i, key, value);
        if let Some(v) = members[n - 1].1.as_text() {
            crate::map::inserting_keeps_order(before, members[n - 1].0, v);
            crate::map::an_insertion_is_found(before, members[n - 1].0, v, key);
            if i < n - 1 {
                assert(members[i].0 != members[n - 1].0);
            }
        }
    }
}

} // verus!
