//! The cluster objects that a snapshot is built from: of each, what the snapshot depends on.
//!
//! What the API leaves out is `None` here, and not the same as an empty list: which of the two it
//! is decides, in several places, whether a pod is wide open.
use vstd::prelude::*;

use crate::map::{Pair, TextMap};

verus! {

/// An object's identity, and the revision of it that was read.
#[derive(Debug, Clone, PartialEq, Eq)]
pub struct ObjectMeta {
    pub name: Option<String>,
    pub namespace: Option<String>,
    pub resource_version: Option<String>,
}

/// What an [`ObjectMeta`] says.
#[verifier::ext_equal]
pub struct ObjectMetaModel {
    pub name: Option<Seq<char>>,
    pub namespace: Option<Seq<char>>,
    pub resource_version: Option<Seq<char>>,
}

impl DeepView for ObjectMeta {
    type V = ObjectMetaModel;

    open spec fn deep_view(&self) -> ObjectMetaModel {
        ObjectMetaModel {
            name: self.name.deep_view(),
            namespace: self.namespace.deep_view(),
            resource_version: self.resource_version.deep_view(),
        }
    }
}

/// A selector of objects by their labels.
#[derive(Debug, Clone, PartialEq, Eq)]
pub struct LabelSelector {
    pub match_labels: Option<TextMap>,
    pub match_expressions: Option<Vec<LabelSelectorRequirement>>,
}

/// What a [`LabelSelector`] says.
#[verifier::ext_equal]
pub struct LabelSelectorModel {
    pub match_labels: Option<Seq<Pair>>,
    pub match_expressions: Option<Seq<LabelSelectorRequirementModel>>,
}

impl DeepView for LabelSelector {
    type V = LabelSelectorModel;

    open spec fn deep_view(&self) -> LabelSelectorModel {
        LabelSelectorModel {
            match_labels: self.match_labels.deep_view(),
            match_expressions: self.match_expressions.deep_view(),
        }
    }
}

/// One condition on a label.
#[derive(Debug, Clone, PartialEq, Eq)]
pub struct LabelSelectorRequirement {
    pub key: String,
    pub operator: String,
    pub values: Option<Vec<String>>,
}

/// What a [`LabelSelectorRequirement`] says.
#[verifier::ext_equal]
pub struct LabelSelectorRequirementModel {
    pub key: Seq<char>,
    pub operator: Seq<char>,
    pub values: Option<Seq<Seq<char>>>,
}

impl DeepView for LabelSelectorRequirement {
    type V = LabelSelectorRequirementModel;

    open spec fn deep_view(&self) -> LabelSelectorRequirementModel {
        LabelSelectorRequirementModel {
            key: self.key.deep_view(),
            operator: self.operator.deep_view(),
            values: self.values.deep_view(),
        }
    }
}

/// A network policy.
#[derive(Debug, Clone, PartialEq, Eq)]
pub struct NetworkPolicy {
    pub metadata: ObjectMeta,
    pub spec: Option<NetworkPolicySpec>,
}

/// What a [`NetworkPolicy`] says.
#[verifier::ext_equal]
pub struct NetworkPolicyModel {
    pub metadata: ObjectMetaModel,
    pub spec: Option<NetworkPolicySpecModel>,
}

impl DeepView for NetworkPolicy {
    type V = NetworkPolicyModel;

    open spec fn deep_view(&self) -> NetworkPolicyModel {
        NetworkPolicyModel {
            metadata: self.metadata.deep_view(),
            spec: self.spec.deep_view(),
        }
    }
}

/// What a network policy says about egress.
#[derive(Debug, Clone, PartialEq, Eq)]
pub struct NetworkPolicySpec {
    pub pod_selector: Option<LabelSelector>,
    pub policy_types: Option<Vec<String>>,
    pub egress: Option<Vec<NetworkPolicyEgressRule>>,
}

/// What a [`NetworkPolicySpec`] says.
#[verifier::ext_equal]
pub struct NetworkPolicySpecModel {
    pub pod_selector: Option<LabelSelectorModel>,
    pub policy_types: Option<Seq<Seq<char>>>,
    pub egress: Option<Seq<NetworkPolicyEgressRuleModel>>,
}

impl DeepView for NetworkPolicySpec {
    type V = NetworkPolicySpecModel;

    open spec fn deep_view(&self) -> NetworkPolicySpecModel {
        NetworkPolicySpecModel {
            pod_selector: self.pod_selector.deep_view(),
            policy_types: self.policy_types.deep_view(),
            egress: self.egress.deep_view(),
        }
    }
}

/// One egress rule.
#[derive(Debug, Clone, PartialEq, Eq)]
pub struct NetworkPolicyEgressRule {
    /// The destinations. None at all, absent or empty, is every destination.
    pub to: Option<Vec<NetworkPolicyPeer>>,
}

/// What a [`NetworkPolicyEgressRule`] says.
#[verifier::ext_equal]
pub struct NetworkPolicyEgressRuleModel {
    pub to: Option<Seq<NetworkPolicyPeerModel>>,
}

impl DeepView for NetworkPolicyEgressRule {
    type V = NetworkPolicyEgressRuleModel;

    open spec fn deep_view(&self) -> NetworkPolicyEgressRuleModel {
        NetworkPolicyEgressRuleModel {
            to: self.to.deep_view(),
        }
    }
}

/// A destination.
#[derive(Debug, Clone, PartialEq, Eq)]
pub struct NetworkPolicyPeer {
    pub ip_block: Option<IpBlock>,
    pub pod_selector: Option<LabelSelector>,
    pub namespace_selector: Option<LabelSelector>,
}

/// What a [`NetworkPolicyPeer`] says.
#[verifier::ext_equal]
pub struct NetworkPolicyPeerModel {
    pub ip_block: Option<IpBlockModel>,
    pub pod_selector: Option<LabelSelectorModel>,
    pub namespace_selector: Option<LabelSelectorModel>,
}

impl DeepView for NetworkPolicyPeer {
    type V = NetworkPolicyPeerModel;

    open spec fn deep_view(&self) -> NetworkPolicyPeerModel {
        NetworkPolicyPeerModel {
            ip_block: self.ip_block.deep_view(),
            pod_selector: self.pod_selector.deep_view(),
            namespace_selector: self.namespace_selector.deep_view(),
        }
    }
}

/// A range of addresses, and the holes in it.
#[derive(Debug, Clone, PartialEq, Eq)]
pub struct IpBlock {
    pub cidr: String,
    pub except: Option<Vec<String>>,
}

/// What an [`IpBlock`] says.
#[verifier::ext_equal]
pub struct IpBlockModel {
    pub cidr: Seq<char>,
    pub except: Option<Seq<Seq<char>>>,
}

impl DeepView for IpBlock {
    type V = IpBlockModel;

    open spec fn deep_view(&self) -> IpBlockModel {
        IpBlockModel {
            cidr: self.cidr.deep_view(),
            except: self.except.deep_view(),
        }
    }
}

/// What a role permits.
#[derive(Debug, Clone, PartialEq, Eq)]
pub struct PolicyRule {
    pub api_groups: Option<Vec<String>>,
    pub resources: Option<Vec<String>>,
    pub verbs: Vec<String>,
}

/// What a [`PolicyRule`] says.
#[verifier::ext_equal]
pub struct PolicyRuleModel {
    pub api_groups: Option<Seq<Seq<char>>>,
    pub resources: Option<Seq<Seq<char>>>,
    pub verbs: Seq<Seq<char>>,
}

impl DeepView for PolicyRule {
    type V = PolicyRuleModel;

    open spec fn deep_view(&self) -> PolicyRuleModel {
        PolicyRuleModel {
            api_groups: self.api_groups.deep_view(),
            resources: self.resources.deep_view(),
            verbs: self.verbs.deep_view(),
        }
    }
}

/// A role of one namespace.
#[derive(Debug, Clone, PartialEq, Eq)]
pub struct Role {
    pub metadata: ObjectMeta,
    pub rules: Option<Vec<PolicyRule>>,
}

/// What a [`Role`] says.
#[verifier::ext_equal]
pub struct RoleModel {
    pub metadata: ObjectMetaModel,
    pub rules: Option<Seq<PolicyRuleModel>>,
}

impl DeepView for Role {
    type V = RoleModel;

    open spec fn deep_view(&self) -> RoleModel {
        RoleModel {
            metadata: self.metadata.deep_view(),
            rules: self.rules.deep_view(),
        }
    }
}

/// A role of the whole cluster.
#[derive(Debug, Clone, PartialEq, Eq)]
pub struct ClusterRole {
    pub metadata: ObjectMeta,
    pub rules: Option<Vec<PolicyRule>>,
}

/// What a [`ClusterRole`] says.
#[verifier::ext_equal]
pub struct ClusterRoleModel {
    pub metadata: ObjectMetaModel,
    pub rules: Option<Seq<PolicyRuleModel>>,
}

impl DeepView for ClusterRole {
    type V = ClusterRoleModel;

    open spec fn deep_view(&self) -> ClusterRoleModel {
        ClusterRoleModel {
            metadata: self.metadata.deep_view(),
            rules: self.rules.deep_view(),
        }
    }
}

/// The role that a binding points at.
#[derive(Debug, Clone, PartialEq, Eq)]
pub struct RoleRef {
    pub kind: String,
    pub name: String,
}

/// What a [`RoleRef`] says.
#[verifier::ext_equal]
pub struct RoleRefModel {
    pub kind: Seq<char>,
    pub name: Seq<char>,
}

impl DeepView for RoleRef {
    type V = RoleRefModel;

    open spec fn deep_view(&self) -> RoleRefModel {
        RoleRefModel {
            kind: self.kind.deep_view(),
            name: self.name.deep_view(),
        }
    }
}

/// Whom a binding names.
#[derive(Debug, Clone, PartialEq, Eq)]
pub struct Subject {
    pub kind: String,
    pub name: String,
    pub namespace: Option<String>,
}

/// What a [`Subject`] says.
#[verifier::ext_equal]
pub struct SubjectModel {
    pub kind: Seq<char>,
    pub name: Seq<char>,
    pub namespace: Option<Seq<char>>,
}

impl DeepView for Subject {
    type V = SubjectModel;

    open spec fn deep_view(&self) -> SubjectModel {
        SubjectModel {
            kind: self.kind.deep_view(),
            name: self.name.deep_view(),
            namespace: self.namespace.deep_view(),
        }
    }
}

/// A binding in one namespace.
#[derive(Debug, Clone, PartialEq, Eq)]
pub struct RoleBinding {
    pub metadata: ObjectMeta,
    pub role_ref: RoleRef,
    pub subjects: Option<Vec<Subject>>,
}

/// What a [`RoleBinding`] says.
#[verifier::ext_equal]
pub struct RoleBindingModel {
    pub metadata: ObjectMetaModel,
    pub role_ref: RoleRefModel,
    pub subjects: Option<Seq<SubjectModel>>,
}

impl DeepView for RoleBinding {
    type V = RoleBindingModel;

    open spec fn deep_view(&self) -> RoleBindingModel {
        RoleBindingModel {
            metadata: self.metadata.deep_view(),
            role_ref: self.role_ref.deep_view(),
            subjects: self.subjects.deep_view(),
        }
    }
}

/// A binding in the whole cluster.
#[derive(Debug, Clone, PartialEq, Eq)]
pub struct ClusterRoleBinding {
    pub metadata: ObjectMeta,
    pub role_ref: RoleRef,
    pub subjects: Option<Vec<Subject>>,
}

/// What a [`ClusterRoleBinding`] says.
#[verifier::ext_equal]
pub struct ClusterRoleBindingModel {
    pub metadata: ObjectMetaModel,
    pub role_ref: RoleRefModel,
    pub subjects: Option<Seq<SubjectModel>>,
}

impl DeepView for ClusterRoleBinding {
    type V = ClusterRoleBindingModel;

    open spec fn deep_view(&self) -> ClusterRoleBindingModel {
        ClusterRoleBindingModel {
            metadata: self.metadata.deep_view(),
            role_ref: self.role_ref.deep_view(),
            subjects: self.subjects.deep_view(),
        }
    }
}

} // verus!
