//! What a pod asks for, in the vocabulary that the grant is written in.
//!
//! Every authority-bearing field becomes an effect, and every effect carries the grant that it
//! demands. A pod's total demand is their join.
//!
//! | pod declares | filesystem | network | exec |
//! | --- | --- | --- | --- |
//! | secret mounted or in env | `read-only` | | |
//! | `hostPath`, read-only | `read-write` | | |
//! | `hostPath`, writable | `full` | | |
//! | `privileged: true` | `full` | | `full` |
//! | `hostPID` / `hostIPC` | | | `full` |
//! | `allowPrivilegeEscalation: true` | | | `full` |
//! | dangerous capability | | | `full` |
//! | other added capability | | | `sandboxed` |
//! | `hostNetwork: true` | | `full` | |
//! | egress policy permitting `0.0.0.0/0` | | `full` | |
//! | no egress policy at all | | `full` | |
//! | egress policy with rules | | `allowlist` | |
//! | egress deny-all | | `none` | |
//! | any RBAC binding | | `allowlist` | |
//! | unreadable field | `full` | `full` | `full` |
//!
//! A read-only `hostPath` is `read-write`: the level describes reach, not the mount flag. No
//! egress policy is `full`, because a pod that no `NetworkPolicy` selects has unrestricted egress.
use vstd::prelude::*;

use crate::grant::{Grant, Level, Reversibility};
use crate::spec::ContainerKind;
use crate::text;
use crate::text::{owned, same, strip_prefix, to_upper, trim};

verus! {

/// Where an effect came from, so that a refusal names one line of YAML.
#[derive(Debug, Clone, PartialEq, Eq)]
pub struct Source {
    /// `None` for fields of the pod itself.
    pub container: Option<String>,
    pub kind: Option<ContainerKind>,
    /// The field path, as an operator would search for it.
    pub field: String,
}

/// What a [`Source`] says.
#[verifier::ext_equal]
pub struct SourceModel {
    pub container: Option<Seq<char>>,
    pub kind: Option<ContainerKind>,
    pub field: Seq<char>,
}

impl DeepView for Source {
    type V = SourceModel;

    open spec fn deep_view(&self) -> SourceModel {
        SourceModel {
            container: self.container.deep_view(),
            kind: self.kind.deep_view(),
            field: self.field.deep_view(),
        }
    }
}

/// One thing that a pod asks to be able to do.
#[derive(Debug, Clone, PartialEq, Eq)]
pub enum Effect {
    /// Shares the node's network namespace.
    HostNetwork,
    /// Shares the node's PID or IPC namespace.
    HostNamespace { which: String },
    /// Effectively root on the node.
    Privileged,
    /// A process may gain privileges that its parent did not have.
    PrivilegeEscalation,
    /// A Linux capability added beyond the default set.
    Capability { name: String, dangerous: bool },
    /// A path on the node, mounted into the pod.
    HostPath { path: String, writable: bool },
    /// A Secret reachable from inside the container.
    Secret { name: String, via: SecretVia },
    /// Reach outside the pod.
    Egress { reach: Reach, policies: Vec<String> },
    /// What the pod's ServiceAccount may do against the API; `escalation` is set where that is a route
    /// to authority that was not granted directly.
    ApiAccess {
        resource: String,
        verbs: Vec<String>,
        cluster_wide: bool,
        escalation: Option<String>,
    },
    /// The image is not pinned, or comes from a source that nobody vouches for.
    UntrustedImage { image: String, why: ImageDoubt },
    /// A field that could not be read.
    Unreadable { detail: String },
}

/// What an [`Effect`] says.
#[verifier::ext_equal]
pub enum EffectModel {
    HostNetwork,
    HostNamespace { which: Seq<char> },
    Privileged,
    PrivilegeEscalation,
    Capability { name: Seq<char>, dangerous: bool },
    HostPath { path: Seq<char>, writable: bool },
    Secret { name: Seq<char>, via: SecretVia },
    Egress { reach: Reach, policies: Seq<Seq<char>> },
    ApiAccess {
        resource: Seq<char>,
        verbs: Seq<Seq<char>>,
        cluster_wide: bool,
        escalation: Option<Seq<char>>,
    },
    UntrustedImage { image: Seq<char>, why: ImageDoubt },
    Unreadable { detail: Seq<char> },
}

impl DeepView for Effect {
    type V = EffectModel;

    open spec fn deep_view(&self) -> EffectModel {
        match self {
            Effect::HostNetwork => EffectModel::HostNetwork,
            Effect::HostNamespace { which } => EffectModel::HostNamespace {
                which: which.deep_view(),
            },
            Effect::Privileged => EffectModel::Privileged,
            Effect::PrivilegeEscalation => EffectModel::PrivilegeEscalation,
            Effect::Capability { name, dangerous } => EffectModel::Capability {
                name: name.deep_view(),
                dangerous: dangerous.deep_view(),
            },
            Effect::HostPath { path, writable } => EffectModel::HostPath {
                path: path.deep_view(),
                writable: writable.deep_view(),
            },
            Effect::Secret { name, via } => EffectModel::Secret {
                name: name.deep_view(),
                via: via.deep_view(),
            },
            Effect::Egress { reach, policies } => EffectModel::Egress {
                reach: reach.deep_view(),
                policies: policies.deep_view(),
            },
            Effect::ApiAccess {
                resource,
                verbs,
                cluster_wide,
                escalation,
            } => EffectModel::ApiAccess {
                resource: resource.deep_view(),
                verbs: verbs.deep_view(),
                cluster_wide: cluster_wide.deep_view(),
                escalation: escalation.deep_view(),
            },
            Effect::UntrustedImage { image, why } => EffectModel::UntrustedImage {
                image: image.deep_view(),
                why: why.deep_view(),
            },
            Effect::Unreadable { detail } => EffectModel::Unreadable {
                detail: detail.deep_view(),
            },
        }
    }
}

/// How far a pod can reach off the pod.
#[derive(Debug, Clone, Copy, PartialEq, Eq, Structural)]
pub enum Reach {
    /// A policy selects the pod and permits nothing.
    Nothing,
    /// A policy selects the pod and permits specific destinations.
    Allowlist,
    /// A policy permits every destination.
    Unrestricted,
    /// No policy selects the pod, which means unrestricted. The remedy differs: here there is a policy
    /// to write, not one to tighten.
    NoPolicy,
}

impl DeepView for Reach {
    type V = Reach;

    open spec fn deep_view(&self) -> Reach {
        *self
    }
}

/// How a Secret reaches a container.
#[derive(Debug, Clone, Copy, PartialEq, Eq, Structural)]
pub enum SecretVia {
    Volume,
    Projected,
    Env,
    EnvFrom,
}

impl DeepView for SecretVia {
    type V = SecretVia;

    open spec fn deep_view(&self) -> SecretVia {
        *self
    }
}

/// Why an image is in doubt.
#[derive(Debug, Clone, Copy, PartialEq, Eq, Structural)]
pub enum ImageDoubt {
    /// A tag, not a digest.
    NotPinned,
    /// `:latest`, or no tag at all.
    Floating,
    /// Pinned, but from a prefix that nobody vouches for.
    UntrustedSource,
}

impl DeepView for ImageDoubt {
    type V = ImageDoubt;

    open spec fn deep_view(&self) -> ImageDoubt {
        *self
    }
}

// ---------------------------------------------------------------------------------------------
// Capabilities
// ---------------------------------------------------------------------------------------------
/// A capability by its plain name: white space around it, its case and a `CAP_` prefix do not
/// matter.
pub open spec fn capability_name(s: Seq<char>) -> Seq<char> {
    text::without_prefix(text::ascii_upper(text::trimmed(s)), "CAP_"@)
}

/// The capability of this plain name is a way out of the container.
pub open spec fn is_escape(n: Seq<char>) -> bool {
    ||| n == "ALL"@
    ||| n == "SYS_ADMIN"@
    ||| n == "SYS_PTRACE"@
    ||| n == "SYS_MODULE"@
    ||| n == "SYS_RAWIO"@
    ||| n == "SYS_BOOT"@
    ||| n == "SYS_CHROOT"@
    ||| n == "DAC_READ_SEARCH"@
    ||| n == "DAC_OVERRIDE"@
    ||| n == "NET_ADMIN"@
    ||| n == "NET_RAW"@
    ||| n == "BPF"@
    ||| n == "PERFMON"@
    ||| n == "SETUID"@
    ||| n == "SETGID"@
}

/// The plain name of a capability.
pub fn strip_cap(name: &str) -> (r: String)
    ensures
        r@ == capability_name(name@),
{
    let n = to_upper(trim(name));
    match strip_prefix(n.as_str(), "CAP_") {
        Some(rest) => owned(rest),
        None => n.clone(),
    }
}

/// Is this capability a way out of the container, however it is spelled?
pub fn is_dangerous_capability(name: &str) -> (r: bool)
    ensures
        r == is_escape(capability_name(name@)),
{
    let n = strip_cap(name);
    let s = n.as_str();
    same(s, "ALL") || same(s, "SYS_ADMIN") || same(s, "SYS_PTRACE") || same(s, "SYS_MODULE") || same(
        s,
        "SYS_RAWIO",
    ) || same(s, "SYS_BOOT") || same(s, "SYS_CHROOT") || same(s, "DAC_READ_SEARCH") || same(
        s,
        "DAC_OVERRIDE",
    ) || same(s, "NET_ADMIN") || same(s, "NET_RAW") || same(s, "BPF") || same(s, "PERFMON") || same(
        s,
        "SETUID",
    ) || same(s, "SETGID")
}

// ---------------------------------------------------------------------------------------------
// Words
// ---------------------------------------------------------------------------------------------
impl Reach {
    /// The word for this reach.
    pub open spec fn word(self) -> Seq<char> {
        match self {
            Reach::Nothing => "none"@,
            Reach::Allowlist => "allowlist"@,
            Reach::Unrestricted => "unrestricted"@,
            Reach::NoPolicy => "no-policy"@,
        }
    }

    pub fn as_str(self) -> (r: &'static str)
        ensures
            r@ == self.word(),
    {
        match self {
            Reach::Nothing => "none",
            Reach::Allowlist => "allowlist",
            Reach::Unrestricted => "unrestricted",
            Reach::NoPolicy => "no-policy",
        }
    }
}

impl SecretVia {
    /// The words for this way.
    pub open spec fn word(self) -> Seq<char> {
        match self {
            SecretVia::Volume => "volume"@,
            SecretVia::Projected => "projected volume"@,
            SecretVia::Env => "env"@,
            SecretVia::EnvFrom => "envFrom"@,
        }
    }

    pub fn as_str(self) -> (r: &'static str)
        ensures
            r@ == self.word(),
    {
        match self {
            SecretVia::Volume => "volume",
            SecretVia::Projected => "projected volume",
            SecretVia::Env => "env",
            SecretVia::EnvFrom => "envFrom",
        }
    }
}

impl SourceModel {
    /// A field of the pod itself.
    pub open spec fn of_pod(field: Seq<char>) -> SourceModel {
        SourceModel { container: None, kind: None, field }
    }

    /// A field of one container.
    pub open spec fn of_container(
        kind: ContainerKind,
        name: Seq<char>,
        field: Seq<char>,
    ) -> SourceModel {
        SourceModel { container: Some(name), kind: Some(kind), field }
    }

    /// The source as an operator would search for it.
    pub open spec fn path(self) -> Seq<char> {
        match (self.kind, self.container) {
            (Some(k), Some(c)) => k.place() + "["@ + c + "]."@ + self.field,
            _ => "spec."@ + self.field,
        }
    }
}

impl Source {
    pub fn pod(field: &str) -> (r: Source)
        ensures
            r.deep_view() == SourceModel::of_pod(field@),
    {
        Source { container: None, kind: None, field: owned(field) }
    }

    pub fn container(kind: ContainerKind, name: &str, field: &str) -> (r: Source)
        ensures
            r.deep_view() == SourceModel::of_container(kind, name@, field@),
    {
        Source { container: Some(owned(name)), kind: Some(kind), field: owned(field) }
    }

    pub fn to_text(&self) -> (r: String)
        ensures
            r@ == self.deep_view().path(),
    {
        match (&self.kind, &self.container) {
            (Some(k), Some(c)) => {
                let mut m = owned(k.as_str());
                m.append("[");
                m.append(c.as_str());
                m.append("].");
                m.append(self.field.as_str());
                m
            },
            _ => {
                let mut m = owned("spec.");
                m.append(self.field.as_str());
                m
            },
        }
    }
}

// ---------------------------------------------------------------------------------------------
// What an effect demands, and what is said of it
// ---------------------------------------------------------------------------------------------
impl EffectModel {
    /// The grant that this effect requires.
    pub open spec fn demanded(self) -> Grant {
        let (filesystem, network, execution) = match self {
            EffectModel::HostNetwork => (Level::Nothing, Level::Full, Level::Nothing),
            EffectModel::HostNamespace { .. } => (Level::Nothing, Level::Nothing, Level::Full),
            EffectModel::Privileged => (Level::Full, Level::Nothing, Level::Full),
            EffectModel::PrivilegeEscalation => (Level::Nothing, Level::Nothing, Level::Full),
            EffectModel::Capability { dangerous, .. } => (
                Level::Nothing,
                Level::Nothing,
                if dangerous {
                    Level::Full
                } else {
                    Level::Sandboxed
                },
            ),
            EffectModel::HostPath { writable, .. } => (
                if writable {
                    Level::Full
                } else {
                    Level::ReadWrite
                },
                Level::Nothing,
                Level::Nothing,
            ),
            EffectModel::Secret { .. } => (Level::ReadOnly, Level::Nothing, Level::Nothing),
            EffectModel::Egress { reach, .. } => (
                Level::Nothing,
                match reach {
                    Reach::Nothing => Level::Nothing,
                    Reach::Allowlist => Level::Allowlist,
                    Reach::Unrestricted | Reach::NoPolicy => Level::Full,
                },
                Level::Nothing,
            ),
            EffectModel::ApiAccess { escalation, .. } => (
                Level::Nothing,
                Level::Allowlist,
                if escalation is Some {
                    Level::Full
                } else {
                    Level::Nothing
                },
            ),
            EffectModel::UntrustedImage { .. } => (Level::Nothing, Level::Nothing, Level::Nothing),
            EffectModel::Unreadable { .. } => (Level::Full, Level::Full, Level::Full),
        };
        Grant { filesystem, network, execution }
    }

    /// How hard this effect is to walk back.
    pub open spec fn class(self) -> Reversibility {
        match self {
            EffectModel::Privileged
            | EffectModel::HostNamespace { .. }
            | EffectModel::Unreadable { .. } => Reversibility::IrreversibleConsequential,
            EffectModel::Capability { dangerous, .. } => if dangerous {
                Reversibility::IrreversibleConsequential
            } else {
                Reversibility::IrreversibleBounded
            },
            EffectModel::HostPath { writable, .. } => if writable {
                Reversibility::IrreversibleConsequential
            } else {
                Reversibility::IrreversibleBounded
            },
            EffectModel::HostNetwork
            | EffectModel::PrivilegeEscalation
            | EffectModel::Secret { .. }
            | EffectModel::UntrustedImage { .. } => Reversibility::IrreversibleBounded,
            EffectModel::ApiAccess { escalation, .. } => if escalation is Some {
                Reversibility::IrreversibleConsequential
            } else {
                Reversibility::IrreversibleBounded
            },
            EffectModel::Egress { reach, .. } => match reach {
                Reach::Nothing => Reversibility::ReversibleCheap,
                Reach::Allowlist => Reversibility::IrreversibleBounded,
                Reach::Unrestricted | Reach::NoPolicy => Reversibility::IrreversibleConsequential,
            },
        }
    }

    /// A short, stable name.
    pub open spec fn label(self) -> Seq<char> {
        match self {
            EffectModel::HostNetwork => "host-network"@,
            EffectModel::HostNamespace { which } => "host-"@ + which,
            EffectModel::Privileged => "privileged"@,
            EffectModel::PrivilegeEscalation => "privilege-escalation"@,
            EffectModel::Capability { name, .. } => "capability:"@ + name,
            EffectModel::HostPath { path, writable } => "host-path:"@ + path + if writable {
                ":rw"@
            } else {
                ":ro"@
            },
            EffectModel::Secret { name, .. } => "secret:"@ + name,
            EffectModel::Egress { reach, .. } => "egress:"@ + reach.word(),
            EffectModel::ApiAccess { resource, cluster_wide, .. } => "api:"@ + resource
                + if cluster_wide {
                ":cluster"@
            } else {
                ""@
            },
            EffectModel::UntrustedImage { image, .. } => "image:"@ + image,
            EffectModel::Unreadable { .. } => "unreadable"@,
        }
    }

    /// One sentence that an operator can act on.
    pub open spec fn explanation(self) -> Seq<char> {
        match self {
            EffectModel::HostNetwork =>
                "shares the node's network namespace, so every interface and the node's own network identity are reachable"@,
            EffectModel::HostNamespace { which } => "shares the node's "@ + which
                + " namespace, so every other process on the node is visible and signallable"@,
            EffectModel::Privileged => "runs privileged, which is effectively root on the node"@,
            EffectModel::PrivilegeEscalation =>
                "permits a process to gain privileges its parent did not have"@,
            EffectModel::Capability { name, dangerous } => if dangerous {
                "adds "@ + name + ", which is a route out of the container"@
            } else {
                "adds the capability "@ + name
            },
            EffectModel::HostPath { path, writable } => "mounts the node's `"@ + path + "`"@
                + if writable {
                " with write access — changes outlive the pod"@
            } else {
                " read-only, which still reads files outside the pod"@
            },
            EffectModel::Secret { name, via } => "reaches the Secret `"@ + name + "` (via "@
                + via.word() + ")"@,
            EffectModel::Egress { reach, policies } => match reach {
                Reach::NoPolicy =>
                    "no NetworkPolicy selects this pod, so its egress is unrestricted — Kubernetes' default is open"@,
                Reach::Unrestricted => if policies.len() == 0 {
                    "egress is unrestricted: a policy permits 0.0.0.0/0"@
                } else if policies.len() == 1 {
                    "egress is unrestricted: `"@ + policies[0] + "` permits 0.0.0.0/0"@
                } else {
                    "egress is unrestricted: one of `"@ + text::joined(policies, "`, `"@)
                        + "` permits 0.0.0.0/0"@
                },
                Reach::Allowlist => "egress is restricted to named destinations"@,
                Reach::Nothing => "egress is denied entirely"@,
            },
            EffectModel::ApiAccess { resource, verbs, cluster_wide, escalation } => {
                let what = text::joined(verbs, "/"@) + " on `"@ + resource + "` "@ + if cluster_wide {
                    "cluster-wide"@
                } else {
                    "in its namespace"@
                };
                match escalation {
                    Some(why) => what + " — "@ + why,
                    None => what,
                }
            },
            EffectModel::UntrustedImage { image, why } => match why {
                ImageDoubt::NotPinned => "`"@ + image
                    + "` is pinned by tag, not digest — a tag can be repointed after admission, so what was admitted is not necessarily what runs"@,
                ImageDoubt::Floating => "`"@ + image
                    + "` has a floating or absent tag, so the admitted image is not identified at all"@,
                ImageDoubt::UntrustedSource => "`"@ + image
                    + "` is not from a source this snapshot vouches for"@,
            },
            EffectModel::Unreadable { detail } => detail
                + " — this build cannot read it, so it is treated as the widest thing it could mean"@,
        }
    }
}

impl Effect {
    /// The grant that this effect requires. A pod's demand is the join of these over every row.
    pub fn demands(&self) -> (r: Grant)
        ensures
            r == self.deep_view().demanded(),
    {
        let (filesystem, network, execution) = match self {
            Effect::HostNetwork => (Level::Nothing, Level::Full, Level::Nothing),
            Effect::HostNamespace { .. } => (Level::Nothing, Level::Nothing, Level::Full),
            Effect::Privileged => (Level::Full, Level::Nothing, Level::Full),
            Effect::PrivilegeEscalation => (Level::Nothing, Level::Nothing, Level::Full),
            Effect::Capability { dangerous, .. } => (
                Level::Nothing,
                Level::Nothing,
                if *dangerous {
                    Level::Full
                } else {
                    Level::Sandboxed
                },
            ),
            // Reach beyond the box, so the second rank even where it is read-only.
            Effect::HostPath { writable, .. } => (
                if *writable {
                    Level::Full
                } else {
                    Level::ReadWrite
                },
                Level::Nothing,
                Level::Nothing,
            ),
            Effect::Secret { .. } => (Level::ReadOnly, Level::Nothing, Level::Nothing),
            Effect::Egress { reach, .. } => (
                Level::Nothing,
                match reach {
                    Reach::Nothing => Level::Nothing,
                    Reach::Allowlist => Level::Allowlist,
                    Reach::Unrestricted | Reach::NoPolicy => Level::Full,
                },
                Level::Nothing,
            ),
            // Reaching the API server is network reach. An escalation path counts as exec: to
            // create a privileged pod is privilege, one step removed.
            Effect::ApiAccess { escalation, .. } => (
                Level::Nothing,
                Level::Allowlist,
                if escalation.is_some() {
                    Level::Full
                } else {
                    Level::Nothing
                },
            ),
            // An image that nobody vouches for is still confined by all that the pod declares.
            Effect::UntrustedImage { .. } => (Level::Nothing, Level::Nothing, Level::Nothing),
            Effect::Unreadable { .. } => (Level::Full, Level::Full, Level::Full),
        };
        Grant::new(filesystem, network, execution)
    }

    /// How hard this is to walk back. Refusing a pod costs a retry; what a pod does once it has
    /// the node can outlive it.
    pub fn reversibility(&self) -> (r: Reversibility)
        ensures
            r == self.deep_view().class(),
    {
        match self {
            Effect::Privileged | Effect::HostNamespace { .. } | Effect::Unreadable { .. } => {
                Reversibility::IrreversibleConsequential
            },
            Effect::Capability { dangerous, .. } => if *dangerous {
                Reversibility::IrreversibleConsequential
            } else {
                Reversibility::IrreversibleBounded
            },
            Effect::HostPath { writable, .. } => if *writable {
                Reversibility::IrreversibleConsequential
            } else {
                Reversibility::IrreversibleBounded
            },
            Effect::HostNetwork
            | Effect::PrivilegeEscalation
            | Effect::Secret { .. }
            | Effect::UntrustedImage { .. } => Reversibility::IrreversibleBounded,
            Effect::ApiAccess { escalation, .. } => if escalation.is_some() {
                Reversibility::IrreversibleConsequential
            } else {
                Reversibility::IrreversibleBounded
            },
            Effect::Egress { reach, .. } => match reach {
                Reach::Nothing => Reversibility::ReversibleCheap,
                Reach::Allowlist => Reversibility::IrreversibleBounded,
                // Data that leaves the cluster does not come back.
                Reach::Unrestricted | Reach::NoPolicy => Reversibility::IrreversibleConsequential,
            },
        }
    }

    /// A short, stable name for logs and refusals.
    pub fn name(&self) -> (r: String)
        ensures
            r@ == self.deep_view().label(),
    {
        match self {
            Effect::HostNetwork => owned("host-network"),
            Effect::HostNamespace { which } => owned("host-").concat(which.as_str()),
            Effect::Privileged => owned("privileged"),
            Effect::PrivilegeEscalation => owned("privilege-escalation"),
            Effect::Capability { name, .. } => owned("capability:").concat(name.as_str()),
            Effect::HostPath { path, writable } => owned("host-path:").concat(path.as_str()).concat(
                if *writable {
                    ":rw"
                } else {
                    ":ro"
                },
            ),
            Effect::Secret { name, .. } => owned("secret:").concat(name.as_str()),
            Effect::Egress { reach, .. } => owned("egress:").concat(reach.as_str()),
            Effect::ApiAccess { resource, cluster_wide, .. } => owned("api:").concat(
                resource.as_str(),
            ).concat(
                if *cluster_wide {
                    ":cluster"
                } else {
                    ""
                },
            ),
            Effect::UntrustedImage { image, .. } => owned("image:").concat(image.as_str()),
            Effect::Unreadable { .. } => owned("unreadable"),
        }
    }

    /// One sentence that an operator can act on.
    pub fn explain(&self) -> (r: String)
        ensures
            r@ == self.deep_view().explanation(),
    {
        match self {
            Effect::HostNetwork => owned(
                "shares the node's network namespace, so every interface and the node's own network identity are reachable",
            ),
            Effect::HostNamespace { which } => owned("shares the node's ").concat(
                which.as_str(),
            ).concat(
                " namespace, so every other process on the node is visible and signallable",
            ),
            Effect::Privileged => owned("runs privileged, which is effectively root on the node"),
            Effect::PrivilegeEscalation => owned(
                "permits a process to gain privileges its parent did not have",
            ),
            Effect::Capability { name, dangerous } => if *dangerous {
                owned("adds ").concat(name.as_str()).concat(
                    ", which is a route out of the container",
                )
            } else {
                owned("adds the capability ").concat(name.as_str())
            },
            Effect::HostPath { path, writable } => owned("mounts the node's `").concat(
                path.as_str(),
            ).concat("`").concat(
                if *writable {
                    " with write access — changes outlive the pod"
                } else {
                    " read-only, which still reads files outside the pod"
                },
            ),
            Effect::Secret { name, via } => owned("reaches the Secret `").concat(
                name.as_str(),
            ).concat("` (via ").concat(via.as_str()).concat(")"),
            Effect::Egress { reach, policies } => explain_egress(*reach, policies),
            Effect::ApiAccess { resource, verbs, cluster_wide, escalation } => {
                let what = text::join(verbs, "/").concat(" on `").concat(resource.as_str()).concat(
                    "` ",
                ).concat(
                    if *cluster_wide {
                        "cluster-wide"
                    } else {
                        "in its namespace"
                    },
                );
                match escalation {
                    Some(why) => what.concat(" — ").concat(why.as_str()),
                    None => what,
                }
            },
            Effect::UntrustedImage { image, why } => {
                let quoted = owned("`").concat(image.as_str());
                match why {
                    ImageDoubt::NotPinned => quoted.concat(
                        "` is pinned by tag, not digest — a tag can be repointed after admission, so what was admitted is not necessarily what runs",
                    ),
                    ImageDoubt::Floating => quoted.concat(
                        "` has a floating or absent tag, so the admitted image is not identified at all",
                    ),
                    ImageDoubt::UntrustedSource => quoted.concat(
                        "` is not from a source this snapshot vouches for",
                    ),
                }
            },
            Effect::Unreadable { detail } => detail.clone().concat(
                " — this build cannot read it, so it is treated as the widest thing it could mean",
            ),
        }
    }
}

/// The sentence about a pod's egress.
fn explain_egress(reach: Reach, policies: &Vec<String>) -> (r: String)
    ensures
        r@ == (EffectModel::Egress { reach, policies: policies.deep_view() }).explanation(),
{
    match reach {
        Reach::NoPolicy => owned(
            "no NetworkPolicy selects this pod, so its egress is unrestricted — Kubernetes' default is open",
        ),
        Reach::Unrestricted => if policies.len() == 0 {
            owned("egress is unrestricted: a policy permits 0.0.0.0/0")
        } else if policies.len() == 1 {
            owned("egress is unrestricted: `").concat(policies[0].as_str()).concat(
                "` permits 0.0.0.0/0",
            )
        } else {
            owned("egress is unrestricted: one of `").concat(text::join(policies, "`, `").as_str()).concat(
                "` permits 0.0.0.0/0",
            )
        },
        Reach::Allowlist => owned("egress is restricted to named destinations"),
        Reach::Nothing => owned("egress is denied entirely"),
    }
}

/// The join of two grants, per axis. A pod's demand is the join over all its effects: it needs
/// the most that any one of them needs.
pub fn join(a: Grant, b: Grant) -> (r: Grant)
    ensures
        r == a.joined(b),
{
    Grant::new(
        a.filesystem.join(b.filesystem),
        a.network.join(b.network),
        a.execution.join(b.execution),
    )
}

// ---------------------------------------------------------------------------------------------
// Laws
// ---------------------------------------------------------------------------------------------
/// The whole filesystem is demanded by what is root on the node, by a node path that is writable and
/// by what cannot be read; a node path that is read-only reaches beyond the pod and demands
/// `read-write`; a Secret demands `read-only`; and nothing else demands any of it.
pub proof fn what_demands_the_filesystem(e: EffectModel)
    ensures
        e.demanded().filesystem == Level::Full <==> (e is Privileged || e is Unreadable || (
        e matches EffectModel::HostPath { writable, .. } && writable)),
        e.demanded().filesystem == Level::ReadWrite <==> (e matches EffectModel::HostPath {
            writable,
            ..
        } && !writable),
        e.demanded().filesystem == Level::ReadOnly <==> e is Secret,
        !(e is Privileged || e is Unreadable || e is HostPath || e is Secret)
            ==> e.demanded().filesystem == Level::Nothing,
{
}

/// The whole network is demanded by what shares the node's, by egress that nothing bounds and by what
/// cannot be read; a list of destinations and any access to the API demand `allowlist`; and nothing
/// else demands any of it.
pub proof fn what_demands_the_network(e: EffectModel)
    ensures
        e.demanded().network == Level::Full <==> (e is HostNetwork || e is Unreadable || (
        e matches EffectModel::Egress { reach, .. } && (reach is Unrestricted || reach is NoPolicy))),
        e.demanded().network == Level::Allowlist <==> (e is ApiAccess || (
        e matches EffectModel::Egress { reach, .. } && reach is Allowlist)),
        !(e is HostNetwork || e is Unreadable || e is ApiAccess || e is Egress)
            ==> e.demanded().network == Level::Nothing,
        (e matches EffectModel::Egress { reach, .. } && reach is Nothing) ==> e.demanded().network
            == Level::Nothing,
{
}

/// The whole of exec is demanded by every way out of the container: privilege, the node's PID and IPC
/// namespaces, escalation, a dangerous capability, a route to more authority through the API, and what
/// cannot be read. Any other capability demands `sandboxed`, and nothing else demands any of it.
pub proof fn what_demands_exec(e: EffectModel)
    ensures
        e.demanded().execution == Level::Full <==> (e is Privileged || e is HostNamespace
            || e is PrivilegeEscalation || e is Unreadable || (e matches EffectModel::Capability {
            dangerous,
            ..
        } && dangerous) || (e matches EffectModel::ApiAccess { escalation, .. }
            && escalation is Some)),
        e.demanded().execution == Level::Sandboxed <==> (e matches EffectModel::Capability {
            dangerous,
            ..
        } && !dangerous),
        !(e is Privileged || e is HostNamespace || e is PrivilegeEscalation || e is Unreadable
            || e is Capability || e is ApiAccess) ==> e.demanded().execution == Level::Nothing,
        (e matches EffectModel::ApiAccess { escalation, .. } && escalation is None)
            ==> e.demanded().execution == Level::Nothing,
{
}

/// Only egress that is denied entirely is cheap to walk back. What has the node, leaves the cluster
/// or opens a route to more authority is consequential, and everything else is bounded.
pub proof fn what_cannot_be_walked_back(e: EffectModel)
    ensures
        e.class() == Reversibility::ReversibleCheap <==> (e matches EffectModel::Egress { reach, .. }
            && reach is Nothing),
        e.class() == Reversibility::IrreversibleConsequential <==> (e is Privileged
            || e is HostNamespace || e is Unreadable || (e matches EffectModel::Capability {
            dangerous,
            ..
        } && dangerous) || (e matches EffectModel::HostPath { writable, .. } && writable) || (
        e matches EffectModel::ApiAccess { escalation, .. } && escalation is Some) || (
        e matches EffectModel::Egress { reach, .. } && (reach is Unrestricted || reach is NoPolicy))),
{
}

/// A capability has one plain name, however it is spelled: space around it, its case and a `CAP_`
/// before it make no difference.
pub proof fn a_capability_has_one_plain_name(s: Seq<char>, n: Seq<char>)
    requires
        n.len() > 0,
        n == text::ascii_upper(n),
        n == text::trimmed(n),
        !text::starts_with(n, "CAP_"@),
    ensures
        capability_name(text::trimmed(s)) == capability_name(s),
        capability_name(text::ascii_upper(s)) == capability_name(s),
        capability_name(n) == n,
        capability_name("CAP_"@ + n) == n,
{
    spelling_makes_no_difference(s);
    prefix_makes_no_difference(n);
}

proof fn spelling_makes_no_difference(s: Seq<char>)
    ensures
        capability_name(text::trimmed(s)) == capability_name(s),
        capability_name(text::ascii_upper(s)) == capability_name(s),
{
    assert(text::trimmed(text::trimmed(s)) == text::trimmed(s)) by {
        text::trimming_takes_off_space_alone(s);
    }
    assert(text::trimmed(text::ascii_upper(s)) == text::ascii_upper(text::trimmed(s))) by {
        text::case_is_not_space(s);
    }
    assert(text::ascii_upper(text::ascii_upper(text::trimmed(s))) == text::ascii_upper(
        text::trimmed(s),
    )) by {
        text::case_is_not_space(text::trimmed(s));
    }
}

proof fn prefix_makes_no_difference(n: Seq<char>)
    requires
        n.len() > 0,
        n == text::ascii_upper(n),
        n == text::trimmed(n),
        !text::starts_with(n, "CAP_"@),
    ensures
        capability_name(n) == n,
        capability_name("CAP_"@ + n) == n,
{
    reveal_strlit("CAP_");
    let c = "CAP_"@ + n;
    assert(text::trimmed(c) == c) by {
        assert(!text::is_space(n.last())) by {
            text::trimming_takes_off_space_alone(n);
        }
        assert(c.last() == n.last());
        assert(c[0] == 'C');
        text::nothing_to_trim(c);
    }
    assert(text::ascii_upper(c) =~= c) by {
        assert forall|i: int| 0 <= i < c.len() implies text::upper(#[trigger] c[i]) == c[i] by {
            if i >= 4 {
                assert(c[i] == n[i - 4]);
                assert(text::ascii_upper(n)[i - 4] == n[i - 4]);
            }
        }
    }
    assert(c.subrange(0, 4) =~= "CAP_"@);
    assert(c.subrange(4, c.len() as int) =~= n);
}

/// The ways out of a container are these capabilities, and no other.
pub proof fn the_ways_out_are_known(n: Seq<char>)
    ensures
        is_escape(n) <==> seq![
            "ALL"@,
            "BPF"@,
            "DAC_OVERRIDE"@,
            "DAC_READ_SEARCH"@,
            "NET_ADMIN"@,
            "NET_RAW"@,
            "PERFMON"@,
            "SETGID"@,
            "SETUID"@,
            "SYS_ADMIN"@,
            "SYS_BOOT"@,
            "SYS_CHROOT"@,
            "SYS_MODULE"@,
            "SYS_PTRACE"@,
            "SYS_RAWIO"@,
        ].contains(n),
{
    let all = seq![
        "ALL"@,
        "BPF"@,
        "DAC_OVERRIDE"@,
        "DAC_READ_SEARCH"@,
        "NET_ADMIN"@,
        "NET_RAW"@,
        "PERFMON"@,
        "SETGID"@,
        "SETUID"@,
        "SYS_ADMIN"@,
        "SYS_BOOT"@,
        "SYS_CHROOT"@,
        "SYS_MODULE"@,
        "SYS_PTRACE"@,
        "SYS_RAWIO"@,
    ];
    assert(all.len() == 15);
    assert(all[0] == "ALL"@ && all[1] == "BPF"@ && all[2] == "DAC_OVERRIDE"@ && all[3]
        == "DAC_READ_SEARCH"@ && all[4] == "NET_ADMIN"@ && all[5] == "NET_RAW"@ && all[6]
        == "PERFMON"@ && all[7] == "SETGID"@ && all[8] == "SETUID"@ && all[9] == "SYS_ADMIN"@
        && all[10] == "SYS_BOOT"@ && all[11] == "SYS_CHROOT"@ && all[12] == "SYS_MODULE"@ && all[13]
        == "SYS_PTRACE"@ && all[14] == "SYS_RAWIO"@);
}

/// Two effects of different kinds never go by one name, and two of one kind only where they name the
/// same thing.
pub proof fn an_effect_is_named_for_what_it_is(a: Seq<char>, b: Seq<char>, via: SecretVia)
    ensures
        ({
            let secret = |n: Seq<char>| (EffectModel::Secret { name: n, via }).label();
            let image = |n: Seq<char>|
                (EffectModel::UntrustedImage { image: n, why: ImageDoubt::NotPinned }).label();
            let capability = |n: Seq<char>|
                (EffectModel::Capability { name: n, dangerous: true }).label();
            let path = |n: Seq<char>, writable: bool|
                (EffectModel::HostPath { path: n, writable }).label();
            &&& secret(a) == secret(b) ==> a == b
            &&& image(a) == image(b) ==> a == b
            &&& capability(a) == capability(b) ==> a == b
            &&& secret(a) != image(b)
            &&& secret(a) != capability(b)
            &&& image(a) != capability(b)
            &&& path(a, true) != path(b, false)
            &&& path(a, true) != secret(b)
            &&& path(a, false) != image(b)
        }),
{
    reveal_strlit("secret:");
    reveal_strlit("image:");
    reveal_strlit("capability:");
    reveal_strlit("host-path:");
    reveal_strlit(":rw");
    reveal_strlit(":ro");
    let s = |n: Seq<char>| "secret:"@ + n;
    let i = |n: Seq<char>| "image:"@ + n;
    let c = |n: Seq<char>| "capability:"@ + n;
    assert(s(a).subrange(7, s(a).len() as int) =~= a);
    assert(s(b).subrange(7, s(b).len() as int) =~= b);
    assert(i(a).subrange(6, i(a).len() as int) =~= a);
    assert(i(b).subrange(6, i(b).len() as int) =~= b);
    assert(c(a).subrange(11, c(a).len() as int) =~= a);
    assert(c(b).subrange(11, c(b).len() as int) =~= b);
    assert(s(a)[0] == 's' && i(a)[0] == 'i' && c(a)[0] == 'c');
    assert(s(b)[0] == 's' && i(b)[0] == 'i' && c(b)[0] == 'c');
    let w = "host-path:"@ + a + ":rw"@;
    let r = "host-path:"@ + b + ":ro"@;
    assert(w.last() == 'w' && r.last() == 'o');
    assert(w[0] == 'h');
    assert(("host-path:"@ + a + ":ro"@)[0] == 'h');
}

/// A source is found by its path: a field of the pod under `spec`, and a field of a container under the
/// list that it stands in and its name.
pub proof fn a_source_is_found_by_its_path(name: Seq<char>, field: Seq<char>)
    ensures
        SourceModel::of_pod(field).path() == "spec."@ + field,
        SourceModel::of_container(ContainerKind::App, name, field).path() == "containers"@ + "["@ + name
            + "]."@ + field,
        SourceModel::of_container(ContainerKind::Init, name, field).path() == "initContainers"@ + "["@
            + name + "]."@ + field,
        SourceModel::of_container(ContainerKind::Sidecar, name, field).path()
            == "initContainers(sidecar)"@ + "["@ + name + "]."@ + field,
        SourceModel::of_container(ContainerKind::Ephemeral, name, field).path()
            == "ephemeralContainers"@ + "["@ + name + "]."@ + field,
{
}

/// The ways that a Secret reaches a container have different names, and so do the reaches of a pod.
pub proof fn no_two_ways_have_one_name(a: SecretVia, b: SecretVia, r: Reach, s: Reach)
    ensures
        a.word() == b.word() ==> a == b,
        r.word() == s.word() ==> r == s,
{
    reveal_strlit("volume");
    reveal_strlit("projected volume");
    reveal_strlit("env");
    reveal_strlit("envFrom");
    assert("volume"@.len() != "projected volume"@.len());
    assert("volume"@.len() != "env"@.len());
    assert("volume"@.len() != "envFrom"@.len());
    assert("projected volume"@.len() != "env"@.len());
    assert("projected volume"@.len() != "envFrom"@.len());
    assert("env"@.len() != "envFrom"@.len());
    reveal_strlit("none");
    reveal_strlit("allowlist");
    reveal_strlit("unrestricted");
    reveal_strlit("no-policy");
    assert("none"@.len() != "allowlist"@.len());
    assert("none"@.len() != "unrestricted"@.len());
    assert("none"@.len() != "no-policy"@.len());
    assert("allowlist"@.len() != "unrestricted"@.len());
    assert("allowlist"@[0] != "no-policy"@[0]);
    assert("unrestricted"@.len() != "no-policy"@.len());
}

} // verus!
