//! Compiling a pod: from its spec and the cluster's state to the rows of what it asks for.
//!
//! The result is a function of the two, with no API server, network or file system behind it. The
//! only failure is a document that is no pod spec.
use vstd::prelude::*;

use crate::cluster;
use crate::cluster::{ClusterSnapshot, ClusterSnapshotModel, RbacRule, RbacRuleModel};
use crate::cost;
use crate::cost::{effective_requests, Placed, PodReservation, PodReservationModel};
use crate::digest;
use crate::digest::sha256_hex;
use crate::effect;
use crate::effect::{
    is_dangerous_capability, Effect, EffectModel, ImageDoubt, Reach, SecretVia, Source, SourceModel,
};
use crate::grant::{Grant, Level, Reversibility, Widening};
use crate::model;
use crate::spec;
use crate::spec::{
    Container, ContainerKind, ContainerModel, EnvFromSourceModel, EnvVarModel, PodSpec,
    PodSpecModel, ProjectedSourceModel, SpecError, SpecErrorModel, Volume, VolumeModel,
};
use crate::text;
use crate::text::{contains, last_part, owned, same, split_once, trim};

verus! {

/// One authority-bearing thing that the pod declares.
#[derive(Debug, Clone, PartialEq, Eq)]
pub struct EffectRow {
    pub effect: Effect,
    pub source: Source,
    pub demands: Grant,
    pub reversibility: Reversibility,
}

/// What an [`EffectRow`] says.
#[verifier::ext_equal]
pub struct EffectRowModel {
    pub effect: EffectModel,
    pub source: SourceModel,
    pub demands: Grant,
    pub reversibility: Reversibility,
}

impl DeepView for EffectRow {
    type V = EffectRowModel;

    open spec fn deep_view(&self) -> EffectRowModel {
        EffectRowModel {
            effect: self.effect.deep_view(),
            source: self.source.deep_view(),
            demands: self.demands.deep_view(),
            reversibility: self.reversibility.deep_view(),
        }
    }
}

/// A compiled pod: the rows, their join, and the identity of what was read.
#[derive(Debug, Clone, PartialEq, Eq)]
pub struct PodEffects {
    /// Hex SHA-256 of the exact spec text. An admission is only ever an admission of these bytes.
    pub spec_sha256: String,
    /// Hex SHA-256 of the snapshot that the verdict depended on.
    pub snapshot_sha256: String,
    pub rows: Vec<EffectRow>,
    /// The join of every row: the grant that this pod needs.
    pub demands: Grant,
    /// Every container's image, trusted or not.
    pub images: Vec<String>,
    /// Those of the images whose source the cluster does not trust, pinned or not.
    pub untrusted_images: Vec<String>,
    /// What the pod asks the scheduler to reserve.
    pub reservation: PodReservation,
}

/// What a [`PodEffects`] says.
#[verifier::ext_equal]
pub struct PodEffectsModel {
    pub spec_sha256: Seq<char>,
    pub snapshot_sha256: Seq<char>,
    pub rows: Seq<EffectRowModel>,
    pub demands: Grant,
    pub images: Seq<Seq<char>>,
    pub untrusted_images: Seq<Seq<char>>,
    pub reservation: PodReservationModel,
}

impl DeepView for PodEffects {
    type V = PodEffectsModel;

    open spec fn deep_view(&self) -> PodEffectsModel {
        PodEffectsModel {
            spec_sha256: self.spec_sha256.deep_view(),
            snapshot_sha256: self.snapshot_sha256.deep_view(),
            rows: self.rows.deep_view(),
            demands: self.demands.deep_view(),
            images: self.images.deep_view(),
            untrusted_images: self.untrusted_images.deep_view(),
            reservation: self.reservation.deep_view(),
        }
    }
}

// ---------------------------------------------------------------------------------------------
// What a pod's rows are
// ---------------------------------------------------------------------------------------------
/// The row of an effect.
pub open spec fn row(effect: EffectModel, source: SourceModel) -> EffectRowModel {
    EffectRowModel { effect, source, demands: effect.demanded(), reversibility: effect.class() }
}

/// One row where `there`, none otherwise.
pub open spec fn row_if(there: bool, effect: EffectModel, source: SourceModel) -> Seq<
    EffectRowModel,
> {
    if there {
        seq![row(effect, source)]
    } else {
        Seq::empty()
    }
}

/// The rows of the node's namespaces.
pub open spec fn namespace_rows(p: PodSpecModel) -> Seq<EffectRowModel> {
    row_if(p.host_network, EffectModel::HostNetwork, SourceModel::of_pod("hostNetwork"@)) + row_if(
        p.host_pid,
        EffectModel::HostNamespace { which: "PID"@ },
        SourceModel::of_pod("hostPID"@),
    ) + row_if(
        p.host_ipc,
        EffectModel::HostNamespace { which: "IPC"@ },
        SourceModel::of_pod("hostIPC"@),
    )
}

/// Container `i` mounts the volume `name` with its mount number `j`.
pub open spec fn mounts(cs: Seq<Placed>, name: Seq<char>, i: int, j: int) -> bool {
    &&& 0 <= i < cs.len()
    &&& 0 <= j < cs[i].1.volume_mounts.len()
    &&& cs[i].1.volume_mounts[j].name == name
}

/// Some container mounts the volume.
pub open spec fn is_mounted(cs: Seq<Placed>, name: Seq<char>) -> bool {
    exists|i: int, j: int| #[trigger] mounts(cs, name, i, j)
}

/// Some container mounts the volume without saying that the mount is read-only.
pub open spec fn is_mounted_writable(cs: Seq<Placed>, name: Seq<char>) -> bool {
    exists|i: int, j: int|
        #[trigger] mounts(cs, name, i, j) && cs[i].1.volume_mounts[j].read_only != Some(true)
}

/// The rows of the first `n` sources of a projected volume.
pub open spec fn projected_rows(
    sources: Seq<ProjectedSourceModel>,
    volume: Seq<char>,
    n: nat,
) -> Seq<EffectRowModel>
    decreases n,
{
    if n == 0 || n > sources.len() {
        Seq::empty()
    } else {
        projected_rows(sources, volume, (n - 1) as nat) + match sources[n - 1].secret {
            Some(s) => seq![
                row(
                    EffectModel::Secret { name: s.secret_name, via: SecretVia::Projected },
                    SourceModel::of_pod("volumes["@ + volume + "].projected.secret"@),
                ),
            ],
            None => Seq::empty(),
        }
    }
}

/// The rows of one volume. A path on the node is authority whether or not anything mounts it, and
/// it is writable unless every mount of it says otherwise.
pub open spec fn volume_rows(cs: Seq<Placed>, v: VolumeModel) -> Seq<EffectRowModel> {
    (match v.host_path {
        Some(h) => seq![
            row(
                EffectModel::HostPath {
                    path: h.path,
                    writable: is_mounted_writable(cs, v.name) || !is_mounted(cs, v.name),
                },
                SourceModel::of_pod("volumes["@ + v.name + "].hostPath"@),
            ),
        ],
        None => Seq::empty(),
    }) + (match v.secret {
        Some(s) => seq![
            row(
                EffectModel::Secret { name: s.secret_name, via: SecretVia::Volume },
                SourceModel::of_pod("volumes["@ + v.name + "].secret"@),
            ),
        ],
        None => Seq::empty(),
    }) + (match v.projected {
        Some(p) => projected_rows(p.sources, v.name, p.sources.len()),
        None => Seq::empty(),
    })
}

/// The rows of the first `n` volumes.
pub open spec fn volumes_rows(cs: Seq<Placed>, vs: Seq<VolumeModel>, n: nat) -> Seq<EffectRowModel>
    decreases n,
{
    if n == 0 || n > vs.len() {
        Seq::empty()
    } else {
        volumes_rows(cs, vs, (n - 1) as nat) + volume_rows(cs, vs[n - 1])
    }
}

/// A container's name in a source; one without a name is `?`.
pub open spec fn shown_name(c: ContainerModel) -> Seq<char> {
    if c.name.len() == 0 {
        "?"@
    } else {
        c.name
    }
}

/// The rows of the first `n` capabilities that a container adds.
pub open spec fn capability_rows(
    kind: ContainerKind,
    name: Seq<char>,
    caps: Seq<Seq<char>>,
    n: nat,
) -> Seq<EffectRowModel>
    decreases n,
{
    if n == 0 || n > caps.len() {
        Seq::empty()
    } else {
        capability_rows(kind, name, caps, (n - 1) as nat).push(
            row(
                EffectModel::Capability {
                    name: caps[n - 1],
                    dangerous: effect::is_escape(effect::capability_name(caps[n - 1])),
                },
                SourceModel::of_container(kind, name, "securityContext.capabilities.add"@),
            ),
        )
    }
}

/// The Secret that an environment variable takes its value from.
pub open spec fn env_secret(e: EnvVarModel) -> Option<Seq<char>> {
    match e.value_from {
        Some(from) => match from.secret_key_ref {
            Some(k) => Some(k.name),
            None => None,
        },
        None => None,
    }
}

/// The rows of the first `n` environment variables.
pub open spec fn env_rows(
    kind: ContainerKind,
    name: Seq<char>,
    env: Seq<EnvVarModel>,
    n: nat,
) -> Seq<EffectRowModel>
    decreases n,
{
    if n == 0 || n > env.len() {
        Seq::empty()
    } else {
        env_rows(kind, name, env, (n - 1) as nat) + match env_secret(env[n - 1]) {
            Some(s) => seq![
                row(
                    EffectModel::Secret { name: s, via: SecretVia::Env },
                    SourceModel::of_container(
                        kind,
                        name,
                        "env["@ + env[n - 1].name + "].valueFrom"@,
                    ),
                ),
            ],
            None => Seq::empty(),
        }
    }
}

/// The rows of the first `n` sets of environment variables.
pub open spec fn env_from_rows(
    kind: ContainerKind,
    name: Seq<char>,
    from: Seq<EnvFromSourceModel>,
    n: nat,
) -> Seq<EffectRowModel>
    decreases n,
{
    if n == 0 || n > from.len() {
        Seq::empty()
    } else {
        env_from_rows(kind, name, from, (n - 1) as nat) + match from[n - 1].secret_ref {
            Some(s) => seq![
                row(
                    EffectModel::Secret { name: s.name, via: SecretVia::EnvFrom },
                    SourceModel::of_container(kind, name, "envFrom.secretRef"@),
                ),
            ],
            None => Seq::empty(),
        }
    }
}

/// Why an image is in doubt: an image that is not identified is reported before one that nobody
/// vouches for. A digest pins the bytes; everything else is a moving target.
pub open spec fn doubt(image: Seq<char>, prefixes: Seq<Seq<char>>) -> Option<ImageDoubt> {
    let img = text::trimmed(image);
    if img.len() == 0 {
        Some(ImageDoubt::Floating)
    } else if !text::holds_text(img, "@sha256:"@) {
        // A registry's port is no tag: only what follows the last `/` can hold one.
        let last = text::after_last(img, '/');
        let at = text::first_at(last, ':');
        if at == last.len() {
            Some(ImageDoubt::Floating)
        } else {
            let tag = last.subrange(at + 1, last.len() as int);
            if tag == "latest"@ || tag.len() == 0 {
                Some(ImageDoubt::Floating)
            } else {
                Some(ImageDoubt::NotPinned)
            }
        }
    } else if !cluster::under_prefix(img, prefixes) {
        Some(ImageDoubt::UntrustedSource)
    } else {
        None
    }
}

/// The rows of one container.
pub open spec fn container_rows(
    kind: ContainerKind,
    c: ContainerModel,
    prefixes: Seq<Seq<char>>,
) -> Seq<EffectRowModel> {
    let name = shown_name(c);
    let sc = c.security_context;
    row_if(
        sc.privileged == Some(true),
        EffectModel::Privileged,
        SourceModel::of_container(kind, name, "securityContext.privileged"@),
    ) + row_if(
        sc.allow_privilege_escalation == Some(true),
        EffectModel::PrivilegeEscalation,
        SourceModel::of_container(kind, name, "securityContext.allowPrivilegeEscalation"@),
    ) + capability_rows(kind, name, sc.capabilities.add, sc.capabilities.add.len()) + env_rows(
        kind,
        name,
        c.env,
        c.env.len(),
    ) + env_from_rows(kind, name, c.env_from, c.env_from.len()) + (match doubt(c.image, prefixes) {
        Some(why) => seq![
            row(
                EffectModel::UntrustedImage { image: c.image, why },
                SourceModel::of_container(kind, name, "image"@),
            ),
        ],
        None => Seq::empty(),
    })
}

/// The rows of the first `n` containers.
pub open spec fn containers_rows(cs: Seq<Placed>, prefixes: Seq<Seq<char>>, n: nat) -> Seq<
    EffectRowModel,
>
    decreases n,
{
    if n == 0 || n > cs.len() {
        Seq::empty()
    } else {
        containers_rows(cs, prefixes, (n - 1) as nat) + container_rows(
            cs[n - 1].0,
            cs[n - 1].1,
            prefixes,
        )
    }
}

/// How far the cluster lets the pod reach, and by which policies.
pub open spec fn egress_effect(s: ClusterSnapshotModel) -> EffectModel {
    match s.egress {
        None => EffectModel::Egress { reach: Reach::NoPolicy, policies: Seq::empty() },
        Some(p) => EffectModel::Egress {
            reach: if p.unrestricted() {
                Reach::Unrestricted
            } else if p.nothing_permitted() {
                Reach::Nothing
            } else {
                Reach::Allowlist
            },
            policies: p.policy_names,
        },
    }
}

/// `s`, or `other` where it is empty.
pub open spec fn or_else_text(s: Seq<char>, other: Seq<char>) -> Seq<char> {
    if s.len() == 0 {
        other
    } else {
        s
    }
}

/// The row of one permission of the pod's ServiceAccount.
pub open spec fn rbac_row(account: Seq<char>, r: RbacRuleModel) -> EffectRowModel {
    row(
        EffectModel::ApiAccess {
            resource: r.resource,
            verbs: r.verbs,
            cluster_wide: r.namespace is None,
            escalation: r.escalation(),
        },
        SourceModel::of_pod(
            "serviceAccountName="@ + or_else_text(account, "default"@) + " via "@ + or_else_text(
                r.binding,
                "(binding)"@,
            ),
        ),
    )
}

/// All the rows of a pod, given the cluster state that its authority depends on.
pub open spec fn rows_of(p: PodSpecModel, s: ClusterSnapshotModel) -> Seq<EffectRowModel> {
    let cs = p.placed();
    namespace_rows(p) + volumes_rows(cs, p.volumes, p.volumes.len()) + containers_rows(
        cs,
        s.trusted_image_prefixes,
        cs.len(),
    ) + seq![row(egress_effect(s), SourceModel::of_pod("egress"@))] + Seq::new(
        s.rbac.len(),
        |i: int| rbac_row(p.service_account_name, s.rbac[i]),
    )
}

/// The join of the demands of some rows.
pub open spec fn joint_demand(rows: Seq<EffectRowModel>) -> Grant
    decreases rows.len(),
{
    if rows.len() == 0 {
        Grant::nothing()
    } else {
        joint_demand(rows.drop_last()).joined(rows.last().demands)
    }
}

/// Every container's image.
pub open spec fn images_in(p: PodSpecModel) -> Seq<Seq<char>> {
    Seq::new(p.placed().len(), |i: int| p.placed()[i].1.image)
}

/// The source of an image is under one of the prefixes that the cluster trusts.
pub open spec fn source_is_trusted(image: Seq<char>, prefixes: Seq<Seq<char>>) -> bool {
    cluster::under_prefix(text::trimmed(image), prefixes)
}

/// The images whose source the cluster does not trust, in order.
pub open spec fn untrusted_among(images: Seq<Seq<char>>, prefixes: Seq<Seq<char>>) -> Seq<Seq<char>> {
    images.filter(|image: Seq<char>| !source_is_trusted(image, prefixes))
}

/// The compiled pod: its rows and their join, what it reserves, and the identity of what was read.
pub open spec fn compiled(p: PodSpecModel, s: ClusterSnapshotModel, raw: Seq<char>) -> Result<
    PodEffectsModel,
    SpecErrorModel,
> {
    match cost::first_bad(p.placed()) {
        Some(e) => Err(SpecErrorModel::Cost(e)),
        None => Ok(
            PodEffectsModel {
                spec_sha256: digest::text_id(raw),
                snapshot_sha256: s.id(),
                rows: rows_of(p, s),
                demands: joint_demand(rows_of(p, s)),
                images: images_in(p),
                untrusted_images: untrusted_among(images_in(p), s.trusted_image_prefixes),
                reservation: cost::effective(p.placed()),
            },
        ),
    }
}

/// What compiling a text gives.
pub open spec fn compiled_text(src: Seq<char>, s: ClusterSnapshotModel) -> Result<
    PodEffectsModel,
    SpecErrorModel,
> {
    match spec::pod_of_text(src) {
        Ok(p) => compiled(p, s, src),
        Err(e) => Err(e),
    }
}

// ---------------------------------------------------------------------------------------------
// Compiling
// ---------------------------------------------------------------------------------------------
/// Add the row of an effect.
fn push_row(rows: &mut Vec<EffectRow>, effect: Effect, source: Source)
    ensures
        final(rows).deep_view() == old(rows).deep_view().push(
            row(effect.deep_view(), source.deep_view()),
        ),
{
    let ghost before = rows.deep_view();
    let demands = effect.demands();
    let reversibility = effect.reversibility();
    let r = EffectRow { effect, source, demands, reversibility };
    let ghost added = r.deep_view();
    rows.push(r);
    assert(rows.deep_view() =~= before.push(added));
}

/// Add all of some rows.
fn push_all(rows: &mut Vec<EffectRow>, more: Vec<EffectRow>)
    ensures
        final(rows).deep_view() == old(rows).deep_view() + more.deep_view(),
{
    let ghost before = rows.deep_view();
    let ghost added = more.deep_view();
    let mut more = more;
    rows.append(&mut more);
    assert(rows.deep_view() =~= before + added);
}

fn no_rows() -> (r: Vec<EffectRow>)
    ensures
        r.deep_view() == Seq::<EffectRowModel>::empty(),
{
    let r: Vec<EffectRow> = Vec::new();
    assert(r.deep_view() =~= Seq::<EffectRowModel>::empty());
    r
}

fn compile_namespaces(spec: &PodSpec) -> (r: Vec<EffectRow>)
    ensures
        r.deep_view() == namespace_rows(spec.deep_view()),
{
    let mut rows = no_rows();
    if spec.host_network {
        push_row(&mut rows, Effect::HostNetwork, Source::pod("hostNetwork"));
    }
    if spec.host_pid {
        push_row(&mut rows, Effect::HostNamespace { which: owned("PID") }, Source::pod("hostPID"));
    }
    if spec.host_ipc {
        push_row(&mut rows, Effect::HostNamespace { which: owned("IPC") }, Source::pod("hostIPC"));
    }
    assert(rows.deep_view() =~= namespace_rows(spec.deep_view()));
    rows
}

/// Is the volume mounted at all, and is it mounted without being read-only?
fn mount_state(cs: &Vec<(ContainerKind, &Container)>, name: &str) -> (r: (bool, bool))
    ensures
        r.0 == is_mounted(cs.deep_view(), name@),
        r.1 == is_mounted_writable(cs.deep_view(), name@),
{
    let ghost all = cs.deep_view();
    let mut mounted: bool = false;
    let mut writable: bool = false;
    let mut i: usize = 0;
    while i < cs.len()
        invariant
            i <= cs.len(),
            all == cs.deep_view(),
            mounted ==> is_mounted(all, name@),
            writable ==> is_mounted_writable(all, name@),
            forall|a: int, b: int| a < i && #[trigger] mounts(all, name@, a, b) ==> mounted,
            forall|a: int, b: int|
                a < i && #[trigger] mounts(all, name@, a, b) && all[a].1.volume_mounts[b].read_only
                    != Some(true) ==> writable,
        decreases cs.len() - i,
    {
        let c: &Container = cs[i].1;
        assert(all[i as int].1 == c.deep_view());
        let mut j: usize = 0;
        while j < c.volume_mounts.len()
            invariant
                i < cs.len(),
                j <= c.volume_mounts.len(),
                all == cs.deep_view(),
                all[i as int].1 == c.deep_view(),
                mounted ==> is_mounted(all, name@),
                writable ==> is_mounted_writable(all, name@),
                forall|a: int, b: int|
                    (a < i || (a == i && b < j)) && #[trigger] mounts(all, name@, a, b) ==> mounted,
                forall|a: int, b: int|
                    (a < i || (a == i && b < j)) && #[trigger] mounts(all, name@, a, b)
                        && all[a].1.volume_mounts[b].read_only != Some(true) ==> writable,
            decreases c.volume_mounts.len() - j,
        {
            let m = &c.volume_mounts[j];
            assert(all[i as int].1.volume_mounts[j as int] == m.deep_view());
            if same(m.name.as_str(), name) {
                assert(mounts(all, name@, i as int, j as int));
                mounted = true;
                let read_only: bool = match m.read_only {
                    Some(b) => b,
                    None => false,
                };
                if !read_only {
                    writable = true;
                }
            }
            j += 1;
        }
        i += 1;
    }
    (mounted, writable)
}

/// The source of something that a volume holds.
fn volume_source(volume: &str, what: &str) -> (r: Source)
    ensures
        r.deep_view() == SourceModel::of_pod("volumes["@ + volume@ + what@),
{
    let field = owned("volumes[").concat(volume).concat(what);
    Source::pod(field.as_str())
}

fn compile_volume(cs: &Vec<(ContainerKind, &Container)>, volume: &Volume) -> (r: Vec<EffectRow>)
    ensures
        r.deep_view() == volume_rows(cs.deep_view(), volume.deep_view()),
{
    let ghost all = cs.deep_view();
    let ghost v = volume.deep_view();
    let mut rows = no_rows();
    if let Some(h) = &volume.host_path {
        let (mounted, writable) = mount_state(cs, volume.name.as_str());
        push_row(
            &mut rows,
            Effect::HostPath { path: h.path.clone(), writable: writable || !mounted },
            volume_source(volume.name.as_str(), "].hostPath"),
        );
    }
    let ghost first = rows.deep_view();
    if let Some(s) = &volume.secret {
        push_row(
            &mut rows,
            Effect::Secret { name: s.secret_name.clone(), via: SecretVia::Volume },
            volume_source(volume.name.as_str(), "].secret"),
        );
    }
    let ghost second = rows.deep_view();
    if let Some(p) = &volume.projected {
        let ghost sources = p.sources.deep_view();
        let mut i: usize = 0;
        assert(second =~= second + projected_rows(sources, v.name, 0));
        while i < p.sources.len()
            invariant
                i <= p.sources.len(),
                sources == p.sources.deep_view(),
                v.name == volume.name@,
                rows.deep_view() == second + projected_rows(sources, v.name, i as nat),
            decreases p.sources.len() - i,
        {
            assert(sources[i as int] == p.sources@[i as int].deep_view());
            let ghost before = rows.deep_view();
            if let Some(s) = &p.sources[i].secret {
                push_row(
                    &mut rows,
                    Effect::Secret { name: s.secret_name.clone(), via: SecretVia::Projected },
                    volume_source(volume.name.as_str(), "].projected.secret"),
                );
            }
            assert(rows.deep_view() =~= second + projected_rows(sources, v.name, (i + 1) as nat));
            i += 1;
        }
    }
    assert(rows.deep_view() =~= volume_rows(all, v));
    rows
}

fn compile_capabilities(
    kind: ContainerKind,
    name: &str,
    caps: &Vec<String>,
    rows: &mut Vec<EffectRow>,
)
    ensures
        final(rows).deep_view() == old(rows).deep_view() + capability_rows(
            kind,
            name@,
            caps.deep_view(),
            caps@.len(),
        ),
{
    let ghost before = rows.deep_view();
    let ghost all = caps.deep_view();
    let mut i: usize = 0;
    assert(before =~= before + capability_rows(kind, name@, all, 0));
    while i < caps.len()
        invariant
            i <= caps.len(),
            all == caps.deep_view(),
            rows.deep_view() == before + capability_rows(kind, name@, all, i as nat),
        decreases caps.len() - i,
    {
        let dangerous: bool = is_dangerous_capability(caps[i].as_str());
        push_row(
            rows,
            Effect::Capability { name: caps[i].clone(), dangerous },
            Source::container(kind, name, "securityContext.capabilities.add"),
        );
        assert(rows.deep_view() =~= before + capability_rows(kind, name@, all, (i + 1) as nat));
        i += 1;
    }
}

fn compile_env(kind: ContainerKind, name: &str, c: &Container, rows: &mut Vec<EffectRow>)
    ensures
        final(rows).deep_view() == old(rows).deep_view() + env_rows(
            kind,
            name@,
            c.deep_view().env,
            c.env@.len(),
        ) + env_from_rows(kind, name@, c.deep_view().env_from, c.env_from@.len()),
{
    let ghost before = rows.deep_view();
    let ghost env = c.env.deep_view();
    let mut i: usize = 0;
    assert(before =~= before + env_rows(kind, name@, env, 0));
    while i < c.env.len()
        invariant
            i <= c.env.len(),
            env == c.env.deep_view(),
            rows.deep_view() == before + env_rows(kind, name@, env, i as nat),
        decreases c.env.len() - i,
    {
        let e = &c.env[i];
        assert(env[i as int] == e.deep_view());
        if let Some(from) = &e.value_from {
            if let Some(k) = &from.secret_key_ref {
                let field = owned("env[").concat(e.name.as_str()).concat("].valueFrom");
                push_row(
                    rows,
                    Effect::Secret { name: k.name.clone(), via: SecretVia::Env },
                    Source::container(kind, name, field.as_str()),
                );
            }
        }
        assert(rows.deep_view() =~= before + env_rows(kind, name@, env, (i + 1) as nat));
        i += 1;
    }
    let ghost middle = rows.deep_view();
    let ghost from = c.env_from.deep_view();
    let mut k: usize = 0;
    assert(middle =~= middle + env_from_rows(kind, name@, from, 0));
    while k < c.env_from.len()
        invariant
            k <= c.env_from.len(),
            from == c.env_from.deep_view(),
            rows.deep_view() == middle + env_from_rows(kind, name@, from, k as nat),
        decreases c.env_from.len() - k,
    {
        assert(from[k as int] == c.env_from@[k as int].deep_view());
        if let Some(s) = &c.env_from[k].secret_ref {
            push_row(
                rows,
                Effect::Secret { name: s.name.clone(), via: SecretVia::EnvFrom },
                Source::container(kind, name, "envFrom.secretRef"),
            );
        }
        assert(rows.deep_view() =~= middle + env_from_rows(kind, name@, from, (k + 1) as nat));
        k += 1;
    }
}

fn compile_container(kind: ContainerKind, c: &Container, snapshot: &ClusterSnapshot) -> (r: Vec<
    EffectRow,
>)
    ensures
        r.deep_view() == container_rows(
            kind,
            c.deep_view(),
            snapshot.deep_view().trusted_image_prefixes,
        ),
{
    let name: &str = if c.name.as_str().unicode_len() == 0 {
        "?"
    } else {
        c.name.as_str()
    };
    let sc = &c.security_context;
    let mut rows = no_rows();
    let privileged: bool = match sc.privileged {
        Some(b) => b,
        None => false,
    };
    if privileged {
        push_row(
            &mut rows,
            Effect::Privileged,
            Source::container(kind, name, "securityContext.privileged"),
        );
    }
    let escalates: bool = match sc.allow_privilege_escalation {
        Some(b) => b,
        None => false,
    };
    if escalates {
        push_row(
            &mut rows,
            Effect::PrivilegeEscalation,
            Source::container(kind, name, "securityContext.allowPrivilegeEscalation"),
        );
    }
    compile_capabilities(kind, name, &sc.capabilities.add, &mut rows);
    compile_env(kind, name, c, &mut rows);
    if let Some(why) = image_doubt(c.image.as_str(), snapshot) {
        push_row(
            &mut rows,
            Effect::UntrustedImage { image: c.image.clone(), why },
            Source::container(kind, name, "image"),
        );
    }
    assert(rows.deep_view() =~= container_rows(
        kind,
        c.deep_view(),
        snapshot.deep_view().trusted_image_prefixes,
    ));
    rows
}

fn compile_egress(snapshot: &ClusterSnapshot) -> (r: Effect)
    ensures
        r.deep_view() == egress_effect(snapshot.deep_view()),
{
    match &snapshot.egress {
        None => {
            let policies: Vec<String> = Vec::new();
            assert(policies.deep_view() =~= Seq::<Seq<char>>::empty());
            Effect::Egress { reach: Reach::NoPolicy, policies }
        },
        Some(p) => {
            let reach = if p.is_unrestricted() {
                Reach::Unrestricted
            } else if p.permits_nothing() {
                Reach::Nothing
            } else {
                Reach::Allowlist
            };
            let policies = p.policy_names.clone();
            assert(policies@ =~= p.policy_names@);
            Effect::Egress { reach, policies }
        },
    }
}

fn push_rbac(account: &str, rule: &RbacRule, rows: &mut Vec<EffectRow>)
    ensures
        final(rows).deep_view() == old(rows).deep_view().push(rbac_row(account@, rule.deep_view())),
{
    let verbs = rule.verbs.clone();
    assert(verbs@ =~= rule.verbs@);
    let escalation: Option<String> = match rule.escalation_path() {
        Some(why) => Some(owned(why)),
        None => None,
    };
    let who: &str = if account.unicode_len() == 0 {
        "default"
    } else {
        account
    };
    let via: &str = if rule.binding.as_str().unicode_len() == 0 {
        "(binding)"
    } else {
        rule.binding.as_str()
    };
    let field = owned("serviceAccountName=").concat(who).concat(" via ").concat(via);
    push_row(
        rows,
        Effect::ApiAccess {
            resource: rule.resource.clone(),
            verbs,
            cluster_wide: rule.cluster_wide(),
            escalation,
        },
        Source::pod(field.as_str()),
    );
}

/// All the rows of a pod.
fn compile_rows(
    spec: &PodSpec,
    containers: &Vec<(ContainerKind, &Container)>,
    snapshot: &ClusterSnapshot,
) -> (r: Vec<EffectRow>)
    requires
        containers.deep_view() == spec.deep_view().placed(),
    ensures
        r.deep_view() == rows_of(spec.deep_view(), snapshot.deep_view()),
{
    let ghost p = spec.deep_view();
    let ghost s = snapshot.deep_view();
    let ghost cs = p.placed();
    let mut rows = compile_namespaces(spec);
    let ghost base = rows.deep_view();

    // A path on the node is authority whether or not anything mounts it: it is staged for the pod
    // either way, and a container added later can mount it.
    let mut i: usize = 0;
    assert(base =~= base + volumes_rows(cs, p.volumes, 0));
    while i < spec.volumes.len()
        invariant
            i <= spec.volumes.len(),
            containers.deep_view() == cs,
            p == spec.deep_view(),
            rows.deep_view() == base + volumes_rows(cs, p.volumes, i as nat),
        decreases spec.volumes.len() - i,
    {
        assert(p.volumes[i as int] == spec.volumes@[i as int].deep_view());
        push_all(&mut rows, compile_volume(containers, &spec.volumes[i]));
        assert(rows.deep_view() =~= base + volumes_rows(cs, p.volumes, (i + 1) as nat));
        i += 1;
    }
    let ghost base2 = rows.deep_view();

    let mut k: usize = 0;
    assert(base2 =~= base2 + containers_rows(cs, s.trusted_image_prefixes, 0));
    while k < containers.len()
        invariant
            k <= containers.len(),
            containers.deep_view() == cs,
            s == snapshot.deep_view(),
            rows.deep_view() == base2 + containers_rows(cs, s.trusted_image_prefixes, k as nat),
        decreases containers.len() - k,
    {
        let (kind, c) = containers[k];
        assert(cs[k as int] == (kind, c.deep_view()));
        push_all(&mut rows, compile_container(kind, c, snapshot));
        assert(rows.deep_view() =~= base2 + containers_rows(
            cs,
            s.trusted_image_prefixes,
            (k + 1) as nat,
        ));
        k += 1;
    }
    let ghost base3 = rows.deep_view();

    // The egress row says what the cluster permits, which is another fact than what the pod asks
    // for, so it is there whether or not the pod is on the node's network.
    push_row(&mut rows, compile_egress(snapshot), Source::pod("egress"));
    let ghost base4 = rows.deep_view();

    let mut n: usize = 0;
    let ghost rbac = Seq::new(s.rbac.len(), |i: int| rbac_row(p.service_account_name, s.rbac[i]));
    assert(base4 =~= base4 + rbac.subrange(0, 0));
    while n < snapshot.rbac.len()
        invariant
            n <= snapshot.rbac.len(),
            s == snapshot.deep_view(),
            p == spec.deep_view(),
            rbac == Seq::new(s.rbac.len(), |i: int| rbac_row(p.service_account_name, s.rbac[i])),
            rows.deep_view() == base4 + rbac.subrange(0, n as int),
        decreases snapshot.rbac.len() - n,
    {
        push_rbac(spec.service_account_name.as_str(), &snapshot.rbac[n], &mut rows);
        assert(rows.deep_view() =~= base4 + rbac.subrange(0, n + 1));
        n += 1;
    }
    assert(rbac.subrange(0, n as int) =~= rbac);
    assert(rows.deep_view() =~= rows_of(p, s));
    rows
}

/// The join of the demands of some rows.
fn demand_of(rows: &Vec<EffectRow>) -> (r: Grant)
    ensures
        r == joint_demand(rows.deep_view()),
{
    let ghost all = rows.deep_view();
    let mut g = Grant::new(Level::Nothing, Level::Nothing, Level::Nothing);
    let mut i: usize = 0;
    while i < rows.len()
        invariant
            i <= rows.len(),
            all == rows.deep_view(),
            g == joint_demand(all.subrange(0, i as int)),
        decreases rows.len() - i,
    {
        let ghost next = all.subrange(0, i + 1);
        assert(next.drop_last() =~= all.subrange(0, i as int));
        assert(next.last() == rows@[i as int].deep_view());
        g = effect::join(g, rows[i].demands);
        i += 1;
    }
    assert(all.subrange(0, i as int) =~= all);
    g
}

/// Every container's image.
fn images_of(containers: &Vec<(ContainerKind, &Container)>) -> (r: Vec<String>)
    ensures
        r.deep_view() == Seq::new(
            containers.deep_view().len(),
            |i: int| containers.deep_view()[i].1.image,
        ),
{
    let mut out: Vec<String> = Vec::new();
    let mut i: usize = 0;
    while i < containers.len()
        invariant
            i <= containers.len(),
            out@.len() == i,
            forall|k: int| 0 <= k < i ==> (#[trigger] out@[k])@ == containers@[k].1.image@,
        decreases containers.len() - i,
    {
        out.push(containers[i].1.image.clone());
        i += 1;
    }
    assert(out.deep_view() =~= Seq::new(
        containers.deep_view().len(),
        |i: int| containers.deep_view()[i].1.image,
    ));
    out
}

/// Compile a spec, given the cluster state that its authority depends on.
pub fn compile_str(src: &str, snapshot: &ClusterSnapshot) -> (r: Result<PodEffects, SpecError>)
    ensures
        model::outcome(r) == compiled_text(src@, snapshot.deep_view()),
{
    match PodSpec::from_json(src) {
        Ok(spec) => compile(&spec, snapshot, src),
        Err(e) => Err(e),
    }
}

/// Compile a spec that is already parsed, pinning `raw` as the identity of its bytes.
pub fn compile(spec: &PodSpec, snapshot: &ClusterSnapshot, raw: &str) -> (r: Result<
    PodEffects,
    SpecError,
>)
    ensures
        model::outcome(r) == compiled(spec.deep_view(), snapshot.deep_view(), raw@),
{
    let containers = spec.all_containers();
    let rows = compile_rows(spec, &containers, snapshot);
    let demands = demand_of(&rows);
    let images = images_of(&containers);
    let untrusted_images = untrusted_of(&images, snapshot);
    let slice: &[(ContainerKind, &Container)] = containers.as_slice();
    assert(slice.deep_view() =~= containers.deep_view());
    let reservation = match effective_requests(slice) {
        Ok(r) => r,
        Err(e) => return Err(SpecError::Cost(e)),
    };
    Ok(
        PodEffects {
            spec_sha256: sha256_hex(raw),
            snapshot_sha256: snapshot.content_id(),
            rows,
            demands,
            images,
            untrusted_images,
            reservation,
        },
    )
}

/// The images whose source the cluster does not trust.
fn untrusted_of(images: &Vec<String>, snapshot: &ClusterSnapshot) -> (r: Vec<String>)
    ensures
        r.deep_view() == untrusted_among(
            images.deep_view(),
            snapshot.deep_view().trusted_image_prefixes,
        ),
{
    let ghost all = images.deep_view();
    let ghost prefixes = snapshot.deep_view().trusted_image_prefixes;
    let ghost keep = |image: Seq<char>| !source_is_trusted(image, prefixes);
    let mut out: Vec<String> = Vec::new();
    let mut i: usize = 0;
    assert(out.deep_view() =~= all.subrange(0, 0).filter(keep)) by {
        reveal(Seq::filter);
    }
    while i < images.len()
        invariant
            i <= images.len(),
            all == images.deep_view(),
            prefixes == snapshot.deep_view().trusted_image_prefixes,
            keep == (|image: Seq<char>| !source_is_trusted(image, prefixes)),
            out.deep_view() == all.subrange(0, i as int).filter(keep),
        decreases images.len() - i,
    {
        let image = images[i].as_str();
        assert(all[i as int] == image@);
        proof {
            filter_grows(all, i as int, keep);
        }
        if !snapshot.trusts_image(trim(image)) {
            let ghost before = out.deep_view();
            out.push(images[i].clone());
            assert(out.deep_view() =~= before.push(image@));
        }
        i += 1;
    }
    assert(all.subrange(0, i as int) =~= all);
    out
}

/// An image is among those that are not trusted exactly where it is among the images and its source
/// is not trusted.
pub proof fn an_untrusted_image_is_listed(
    images: Seq<Seq<char>>,
    prefixes: Seq<Seq<char>>,
    image: Seq<char>,
)
    ensures
        untrusted_among(images, prefixes).contains(image) <==> images.contains(image)
            && !source_is_trusted(image, prefixes),
    decreases images.len(),
{
    reveal(Seq::filter);
    if images.len() > 0 {
        let before = images.drop_last();
        let keep = |image: Seq<char>| !source_is_trusted(image, prefixes);
        let kept = untrusted_among(before, prefixes);
        an_untrusted_image_is_listed(before, prefixes, image);
        assert(images =~= before.push(images.last()));
        assert(images.contains(image) <==> before.contains(image) || images.last() == image) by {
            if images.contains(image) {
                let i = choose|i: int| 0 <= i < images.len() && images[i] == image;
                if i < before.len() {
                    assert(before[i] == image);
                }
            }
            if before.contains(image) {
                let i = choose|i: int| 0 <= i < before.len() && before[i] == image;
                assert(images[i] == image);
            }
            assert(images[images.len() - 1] == images.last());
        }
        if keep(images.last()) {
            let all = kept.push(images.last());
            assert(untrusted_among(images, prefixes) == all);
            assert(all[all.len() - 1] == images.last());
            if kept.contains(image) {
                let i = choose|i: int| 0 <= i < kept.len() && kept[i] == image;
                assert(all[i] == image);
            }
            if all.contains(image) {
                let i = choose|i: int| 0 <= i < all.len() && all[i] == image;
                if i < kept.len() {
                    assert(kept[i] == image);
                }
            }
        } else {
            assert(untrusted_among(images, prefixes) == kept);
        }
    }
}

/// Is there reason to doubt that this image is what it claims to be?
pub fn image_doubt(image: &str, snapshot: &ClusterSnapshot) -> (r: Option<ImageDoubt>)
    ensures
        r == doubt(image@, snapshot.deep_view().trusted_image_prefixes),
{
    let img = trim(image);
    if img.unicode_len() == 0 {
        return Some(ImageDoubt::Floating);
    }
    if !contains(img, "@sha256:") {
        let last = last_part(img, '/');
        return match split_once(last, ':') {
            None => Some(ImageDoubt::Floating),
            Some((_, tag)) => if same(tag, "latest") || tag.unicode_len() == 0 {
                Some(ImageDoubt::Floating)
            } else {
                Some(ImageDoubt::NotPinned)
            },
        };
    }
    if !snapshot.trusts_image(img) {
        return Some(ImageDoubt::UntrustedSource);
    }
    None
}

// ---------------------------------------------------------------------------------------------
// Asking a compiled pod
// ---------------------------------------------------------------------------------------------
/// The rows of one class, in order.
pub open spec fn at_class(rows: Seq<EffectRowModel>, class: Reversibility) -> Seq<EffectRowModel> {
    rows.filter(|r: EffectRowModel| r.reversibility == class)
}

/// The rows that could not be read, in order.
pub open spec fn unread(rows: Seq<EffectRowModel>) -> Seq<EffectRowModel> {
    rows.filter(|r: EffectRowModel| r.effect is Unreadable)
}

proof fn filter_grows<A>(s: Seq<A>, i: int, keep: spec_fn(A) -> bool)
    requires
        0 <= i < s.len(),
    ensures
        s.subrange(0, i + 1).filter(keep) == if keep(s[i]) {
            s.subrange(0, i).filter(keep).push(s[i])
        } else {
            s.subrange(0, i).filter(keep)
        },
{
    reveal(Seq::filter);
    assert(s.subrange(0, i + 1).drop_last() =~= s.subrange(0, i));
}

impl PodEffects {
    /// Rows of the given class.
    pub fn rows_at(&self, class: Reversibility) -> (r: Vec<&EffectRow>)
        ensures
            r.deep_view() == at_class(self.deep_view().rows, class),
    {
        let ghost all = self.rows.deep_view();
        let ghost keep = |r: EffectRowModel| r.reversibility == class;
        let mut out: Vec<&EffectRow> = Vec::new();
        let mut i: usize = 0;
        proof {
            reveal(Seq::filter);
            assert(out.deep_view() =~= all.subrange(0, 0).filter(keep));
        }
        while i < self.rows.len()
            invariant
                i <= self.rows.len(),
                all == self.rows.deep_view(),
                keep == (|r: EffectRowModel| r.reversibility == class),
                out.deep_view() == all.subrange(0, i as int).filter(keep),
            decreases self.rows.len() - i,
        {
            proof {
                filter_grows(all, i as int, keep);
            }
            let ghost before = out.deep_view();
            let row: &EffectRow = &self.rows[i];
            if row.reversibility == class {
                out.push(row);
                assert(out.deep_view() =~= before.push(row.deep_view()));
            }
            i += 1;
        }
        assert(all.subrange(0, i as int) =~= all);
        out
    }

    /// Does anything here outlive the pod in a way that eviction will not undo?
    pub fn has_consequential(&self) -> (r: bool)
        ensures
            r == exists|i: int|
                0 <= i < self.deep_view().rows.len() && (
                #[trigger] self.deep_view().rows[i]).reversibility
                    == Reversibility::IrreversibleConsequential,
    {
        let ghost all = self.rows.deep_view();
        let mut i: usize = 0;
        while i < self.rows.len()
            invariant
                i <= self.rows.len(),
                all == self.rows.deep_view(),
                forall|k: int|
                    0 <= k < i ==> (#[trigger] all[k]).reversibility
                        != Reversibility::IrreversibleConsequential,
            decreases self.rows.len() - i,
        {
            assert(all[i as int] == self.rows@[i as int].deep_view());
            if self.rows[i].reversibility == Reversibility::IrreversibleConsequential {
                return true;
            }
            i += 1;
        }
        false
    }

    /// Rows that could not be read, and so were read at their widest.
    pub fn unreadable(&self) -> (r: Vec<&EffectRow>)
        ensures
            r.deep_view() == unread(self.deep_view().rows),
    {
        let ghost all = self.rows.deep_view();
        let ghost keep = |r: EffectRowModel| r.effect is Unreadable;
        let mut out: Vec<&EffectRow> = Vec::new();
        let mut i: usize = 0;
        proof {
            reveal(Seq::filter);
            assert(out.deep_view() =~= all.subrange(0, 0).filter(keep));
        }
        while i < self.rows.len()
            invariant
                i <= self.rows.len(),
                all == self.rows.deep_view(),
                keep == (|r: EffectRowModel| r.effect is Unreadable),
                out.deep_view() == all.subrange(0, i as int).filter(keep),
            decreases self.rows.len() - i,
        {
            proof {
                filter_grows(all, i as int, keep);
            }
            let ghost before = out.deep_view();
            let row: &EffectRow = &self.rows[i];
            if matches!(row.effect, Effect::Unreadable { .. }) {
                out.push(row);
                assert(out.deep_view() =~= before.push(row.deep_view()));
            }
            i += 1;
        }
        assert(all.subrange(0, i as int) =~= all);
        out
    }

    /// Is this pod inside `granted`? The whole wall, in one comparison.
    pub fn within(&self, granted: &Grant) -> (r: Result<(), Widening>)
        ensures
            r == (match Grant::widening(*granted, self.demands) {
                None => Ok::<(), Widening>(()),
                Some(w) => Err::<(), Widening>(w),
            }),
            r is Ok <==> self.demands.fits(*granted),
    {
        match Grant::narrow(granted, &self.demands) {
            Ok(_) => Ok(()),
            Err(w) => Err(w),
        }
    }
}

// ---------------------------------------------------------------------------------------------
// Laws
// ---------------------------------------------------------------------------------------------
/// A pod's demand is the join of its rows: a grant holds the demand exactly where it holds every
/// row, so one comparison is the whole check.
pub proof fn a_demand_fits_where_every_row_does(rows: Seq<EffectRowModel>, granted: Grant)
    ensures
        joint_demand(rows).fits(granted) <==> (forall|i: int|
            0 <= i < rows.len() ==> (#[trigger] rows[i]).demands.fits(granted)),
    decreases rows.len(),
{
    if rows.len() > 0 {
        let before = rows.drop_last();
        a_demand_fits_where_every_row_does(before, granted);
        if joint_demand(rows).fits(granted) {
            assert forall|i: int| 0 <= i < rows.len() implies (#[trigger] rows[i]).demands.fits(
                granted,
            ) by {
                if i < rows.len() - 1 {
                    assert(before[i] == rows[i]);
                }
            }
        } else if forall|i: int| 0 <= i < rows.len() ==> (#[trigger] rows[i]).demands.fits(granted) {
            assert forall|i: int| 0 <= i < before.len() implies (#[trigger] before[i]).demands.fits(
                granted,
            ) by {
                assert(before[i] == rows[i]);
            }
            assert(rows[rows.len() - 1].demands.fits(granted));
        }
    }
}

/// Some part of a pod's rows is `part`.
pub open spec fn holds_rows(rows: Seq<EffectRowModel>, part: Seq<EffectRowModel>) -> bool {
    exists|i: int|
        0 <= i <= rows.len() - part.len() && #[trigger] rows.subrange(i, i + part.len()) == part
}

proof fn containers_rows_hold(cs: Seq<Placed>, prefixes: Seq<Seq<char>>, n: nat, k: int)
    requires
        0 <= k < n <= cs.len(),
    ensures
        holds_rows(
            containers_rows(cs, prefixes, n),
            container_rows(cs[k].0, cs[k].1, prefixes),
        ),
    decreases n,
{
    let part = container_rows(cs[k].0, cs[k].1, prefixes);
    let head = containers_rows(cs, prefixes, (n - 1) as nat);
    let all = containers_rows(cs, prefixes, n);
    if k == n - 1 {
        assert(all.subrange(head.len() as int, head.len() as int + part.len()) =~= part);
    } else {
        containers_rows_hold(cs, prefixes, (n - 1) as nat, k);
        let i = choose|i: int|
            0 <= i <= head.len() - part.len() && #[trigger] head.subrange(i, i + part.len()) == part;
        assert(all.subrange(i, i + part.len()) =~= head.subrange(i, i + part.len()));
    }
}

/// Every container contributes: init, sidecar, app and ephemeral containers alike have all their
/// rows among the pod's, and their images among its images.
pub proof fn every_container_contributes(
    p: PodSpecModel,
    s: ClusterSnapshotModel,
    raw: Seq<char>,
    k: int,
)
    requires
        0 <= k < p.placed().len(),
    ensures
        holds_rows(
            rows_of(p, s),
            container_rows(p.placed()[k].0, p.placed()[k].1, s.trusted_image_prefixes),
        ),
        compiled(p, s, raw) matches Ok(pod) ==> pod.images[k] == p.placed()[k].1.image,
{
    let cs = p.placed();
    let part = container_rows(cs[k].0, cs[k].1, s.trusted_image_prefixes);
    let before = namespace_rows(p) + volumes_rows(cs, p.volumes, p.volumes.len());
    let middle = containers_rows(cs, s.trusted_image_prefixes, cs.len());
    containers_rows_hold(cs, s.trusted_image_prefixes, cs.len(), k);
    let i = choose|i: int|
        0 <= i <= middle.len() - part.len() && #[trigger] middle.subrange(i, i + part.len()) == part;
    let at = before.len() + i;
    assert(rows_of(p, s).subrange(at, at + part.len()) =~= middle.subrange(i, i + part.len()));
}

/// A row among the rows is within the demand.
proof fn a_row_is_demanded(rows: Seq<EffectRowModel>, i: int)
    requires
        0 <= i < rows.len(),
    ensures
        rows[i].demands.fits(joint_demand(rows)),
{
    a_demand_fits_where_every_row_does(rows, joint_demand(rows));
}

/// The egress row is always there.
pub proof fn the_egress_row_is_always_there(p: PodSpecModel, s: ClusterSnapshotModel)
    ensures
        rows_of(p, s).contains(row(egress_effect(s), SourceModel::of_pod("egress"@))),
{
    let cs = p.placed();
    let before = namespace_rows(p) + volumes_rows(cs, p.volumes, p.volumes.len())
        + containers_rows(cs, s.trusted_image_prefixes, cs.len());
    assert(rows_of(p, s)[before.len() as int] == row(
        egress_effect(s),
        SourceModel::of_pod("egress"@),
    ));
}

/// Kubernetes' default is open: on a cluster where no policy selects the pod, and on one where a
/// policy permits every destination, whatever else it says, every pod demands the whole network.
pub proof fn an_open_cluster_demands_the_whole_network(p: PodSpecModel, s: ClusterSnapshotModel)
    requires
        s.egress is None || s.egress->0.unrestricted(),
    ensures
        joint_demand(rows_of(p, s)).network == Level::Full,
{
    let r = row(egress_effect(s), SourceModel::of_pod("egress"@));
    the_egress_row_is_always_there(p, s);
    let i = choose|i: int| 0 <= i < rows_of(p, s).len() && rows_of(p, s)[i] == r;
    a_row_is_demanded(rows_of(p, s), i);
}

/// A privileged container demands the node's file system and everything on the exec axis,
/// whichever role it plays: an init container is enough.
pub proof fn a_privileged_container_demands_the_node(
    p: PodSpecModel,
    s: ClusterSnapshotModel,
    k: int,
)
    requires
        0 <= k < p.placed().len(),
        p.placed()[k].1.security_context.privileged == Some(true),
    ensures
        joint_demand(rows_of(p, s)).filesystem == Level::Full,
        joint_demand(rows_of(p, s)).execution == Level::Full,
{
    let rows = rows_of(p, s);
    let c = p.placed()[k];
    let part = container_rows(c.0, c.1, s.trusted_image_prefixes);
    every_container_contributes(p, s, Seq::empty(), k);
    let i = choose|i: int|
        0 <= i <= rows.len() - part.len() && #[trigger] rows.subrange(i, i + part.len()) == part;
    assert(part[0].effect is Privileged);
    assert(rows[i] == rows.subrange(i, i + part.len())[0]);
    a_row_is_demanded(rows, i);
}

/// There is no floor: a pod that declares nothing, on a cluster that lets it reach nothing, demands
/// nothing.
pub proof fn a_pod_that_declares_nothing_demands_nothing(p: PodSpecModel, s: ClusterSnapshotModel)
    requires
        !p.host_network && !p.host_pid && !p.host_ipc,
        p.volumes.len() == 0,
        p.placed().len() == 0,
        s.rbac.len() == 0,
        s.egress is Some && !s.egress->0.unrestricted() && s.egress->0.nothing_permitted(),
    ensures
        joint_demand(rows_of(p, s)) == Grant::nothing(),
{
    let only = row(egress_effect(s), SourceModel::of_pod("egress"@));
    assert(rows_of(p, s) =~= seq![only]);
    assert(seq![only].drop_last() =~= Seq::<EffectRowModel>::empty());
    reveal_with_fuel(joint_demand, 3);
}

/// The record pins what was read: the spec's hash is that of its text and of nothing else, and
/// the snapshot's that of the snapshot and of nothing else.
pub proof fn the_hashes_pin_what_was_read(
    p: PodSpecModel,
    q: PodSpecModel,
    s: ClusterSnapshotModel,
    t: ClusterSnapshotModel,
    raw: Seq<char>,
    other: Seq<char>,
)
    ensures
        compiled(p, s, raw) matches Ok(a) ==> compiled(q, t, raw) matches Ok(b) ==> a.spec_sha256
            == b.spec_sha256,
        compiled(p, s, raw) matches Ok(a) ==> compiled(q, s, other) matches Ok(b)
            ==> a.snapshot_sha256 == b.snapshot_sha256,
{
}

// ---------------------------------------------------------------------------------------------
// What the rows are, read off the pod and the cluster
// ---------------------------------------------------------------------------------------------
/// `c` is a container of the pod, in whichever field it stands.
pub open spec fn is_container(p: PodSpecModel, c: ContainerModel) -> bool {
    p.init_containers.contains(c) || p.containers.contains(c) || p.ephemeral_containers.contains(c)
}

/// An environment variable takes its value from the Secret `name`.
pub open spec fn reads_secret(e: EnvVarModel, name: Seq<char>) -> bool {
    e.value_from matches Some(from) && from.secret_key_ref matches Some(k) && k.name == name
}

/// The container reads the Secret `name` into one variable.
pub open spec fn env_reads(c: ContainerModel, name: Seq<char>) -> bool {
    exists|j: int| 0 <= j < c.env.len() && reads_secret(#[trigger] c.env[j], name)
}

/// The container reads the whole Secret `name` into its environment.
pub open spec fn env_takes(c: ContainerModel, name: Seq<char>) -> bool {
    exists|j: int|
        0 <= j < c.env_from.len() && ((#[trigger] c.env_from[j]).secret_ref matches Some(s) && s.name
            == name)
}

/// The container asks for an effect by itself.
pub open spec fn container_asks(
    c: ContainerModel,
    prefixes: Seq<Seq<char>>,
    e: EffectModel,
) -> bool {
    match e {
        EffectModel::Privileged => c.security_context.privileged == Some(true),
        EffectModel::PrivilegeEscalation => c.security_context.allow_privilege_escalation == Some(
            true,
        ),
        EffectModel::Capability { name, dangerous } => c.security_context.capabilities.add.contains(
            name,
        ) && dangerous == effect::is_escape(effect::capability_name(name)),
        EffectModel::Secret { name, via } => (via is Env && env_reads(c, name)) || (via is EnvFrom
            && env_takes(c, name)),
        EffectModel::UntrustedImage { image, why } => image == c.image && doubt(image, prefixes)
            == Some(why),
        _ => false,
    }
}

/// Some container mounts the volume `name`.
pub open spec fn some_mount(p: PodSpecModel, name: Seq<char>) -> bool {
    exists|c: ContainerModel, j: int|
        #![trigger is_container(p, c), c.volume_mounts[j]]
        is_container(p, c) && 0 <= j < c.volume_mounts.len() && c.volume_mounts[j].name == name
}

/// Some container mounts the volume `name` and does not say that it is read-only.
pub open spec fn some_writable_mount(p: PodSpecModel, name: Seq<char>) -> bool {
    exists|c: ContainerModel, j: int|
        #![trigger is_container(p, c), c.volume_mounts[j]]
        is_container(p, c) && 0 <= j < c.volume_mounts.len() && c.volume_mounts[j].name == name
            && c.volume_mounts[j].read_only != Some(true)
}

/// The volume projects the Secret `name`.
pub open spec fn projects(v: VolumeModel, name: Seq<char>) -> bool {
    v.projected matches Some(pr) && exists|j: int|
        0 <= j < pr.sources.len() && ((#[trigger] pr.sources[j]).secret matches Some(s)
            && s.secret_name == name)
}

/// The volume asks for an effect, in a pod that mounts it or does not.
pub open spec fn volume_asks(p: PodSpecModel, v: VolumeModel, e: EffectModel) -> bool {
    match e {
        EffectModel::HostPath { path, writable } => v.host_path matches Some(h) && h.path == path
            && writable == (some_writable_mount(p, v.name) || !some_mount(p, v.name)),
        EffectModel::Secret { name, via } => (via is Volume && (v.secret matches Some(s)
            && s.secret_name == name)) || (via is Projected && projects(v, name)),
        _ => false,
    }
}

/// The rule of the ServiceAccount is this effect.
pub open spec fn rule_asks(r: RbacRuleModel, e: EffectModel) -> bool {
    e == (EffectModel::ApiAccess {
        resource: r.resource,
        verbs: r.verbs,
        cluster_wide: r.namespace is None,
        escalation: r.escalation(),
    })
}

/// The cluster lets the pod reach this far, by these policies.
pub open spec fn is_reach(s: ClusterSnapshotModel, reach: Reach, policies: Seq<Seq<char>>) -> bool {
    match s.egress {
        None => reach is NoPolicy && policies.len() == 0,
        Some(p) => policies == p.policy_names && match reach {
            Reach::NoPolicy => false,
            Reach::Unrestricted => exists|i: int|
                0 <= i < p.cidrs.len() && cluster::is_open_cidr(#[trigger] p.cidrs[i]),
            Reach::Nothing => (forall|i: int|
                0 <= i < p.cidrs.len() ==> !cluster::is_open_cidr(#[trigger] p.cidrs[i])) && (
            p.deny_all || (p.cidrs.len() == 0 && p.selectors.len() == 0)),
            Reach::Allowlist => (forall|i: int|
                0 <= i < p.cidrs.len() ==> !cluster::is_open_cidr(#[trigger] p.cidrs[i]))
                && !p.deny_all && (p.cidrs.len() > 0 || p.selectors.len() > 0),
        },
    }
}

/// The pod on this cluster asks for an effect, as its fields and the cluster's state say.
pub open spec fn asks(p: PodSpecModel, s: ClusterSnapshotModel, e: EffectModel) -> bool {
    ||| e is HostNetwork && p.host_network
    ||| e matches EffectModel::HostNamespace { which } && ((which == "PID"@ && p.host_pid) || (which
        == "IPC"@ && p.host_ipc))
    ||| exists|i: int| 0 <= i < p.volumes.len() && volume_asks(p, #[trigger] p.volumes[i], e)
    ||| exists|c: ContainerModel| #[trigger]
        is_container(p, c) && container_asks(c, s.trusted_image_prefixes, e)
    ||| e matches EffectModel::Egress { reach, policies } && is_reach(s, reach, policies)
    ||| exists|i: int| 0 <= i < s.rbac.len() && rule_asks(#[trigger] s.rbac[i], e)
}

/// Some row is of this effect.
pub open spec fn has_effect(rows: Seq<EffectRowModel>, e: EffectModel) -> bool {
    exists|i: int| 0 <= i < rows.len() && (#[trigger] rows[i]).effect == e
}

/// Every row carries what its effect demands, and how hard that is to walk back.
pub open spec fn are_told(rows: Seq<EffectRowModel>) -> bool {
    forall|i: int|
        0 <= i < rows.len() ==> (#[trigger] rows[i]).demands == rows[i].effect.demanded()
            && rows[i].reversibility == rows[i].effect.class()
}

proof fn in_either(a: Seq<EffectRowModel>, b: Seq<EffectRowModel>, e: EffectModel)
    ensures
        has_effect(a + b, e) <==> has_effect(a, e) || has_effect(b, e),
        are_told(a) && are_told(b) ==> are_told(a + b),
{
    if has_effect(a, e) {
        let i = choose|i: int| 0 <= i < a.len() && (#[trigger] a[i]).effect == e;
        assert((a + b)[i].effect == e);
    }
    if has_effect(b, e) {
        let i = choose|i: int| 0 <= i < b.len() && (#[trigger] b[i]).effect == e;
        assert((a + b)[a.len() + i].effect == e);
    }
    if has_effect(a + b, e) {
        let i = choose|i: int| 0 <= i < (a + b).len() && (#[trigger] (a + b)[i]).effect == e;
        if i < a.len() {
            assert(a[i].effect == e);
        } else {
            assert(b[i - a.len()].effect == e);
        }
    }
}

proof fn in_one(r: EffectRowModel, e: EffectModel)
    ensures
        has_effect(seq![r], e) <==> r.effect == e,
        !has_effect(Seq::<EffectRowModel>::empty(), e),
{
    assert(seq![r][0] == r);
}

proof fn in_projected(sources: Seq<ProjectedSourceModel>, volume: Seq<char>, n: nat, e: EffectModel)
    requires
        n <= sources.len(),
    ensures
        has_effect(projected_rows(sources, volume, n), e) <==> (e matches EffectModel::Secret {
            name,
            via,
        } && via is Projected && exists|j: int|
            0 <= j < n && ((#[trigger] sources[j]).secret matches Some(s) && s.secret_name == name)),
        are_told(projected_rows(sources, volume, n)),
    decreases n,
{
    if n > 0 {
        let m = (n - 1) as nat;
        in_projected(sources, volume, m, e);
        let last = match sources[n - 1].secret {
            Some(s) => seq![
                row(
                    EffectModel::Secret { name: s.secret_name, via: SecretVia::Projected },
                    SourceModel::of_pod("volumes["@ + volume + "].projected.secret"@),
                ),
            ],
            None => Seq::empty(),
        };
        in_either(projected_rows(sources, volume, m), last, e);
        if let Some(s) = sources[n - 1].secret {
            in_one(last[0], e);
        }
    }
}

proof fn in_mounts(p: PodSpecModel, name: Seq<char>)
    ensures
        is_mounted(p.placed(), name) <==> some_mount(p, name),
        is_mounted_writable(p.placed(), name) <==> some_writable_mount(p, name),
{
    let cs = p.placed();
    if is_mounted(cs, name) {
        let (i, j) = choose|i: int, j: int| #[trigger] mounts(cs, name, i, j);
        placed_is_container(p, i);
        assert(is_container(p, cs[i].1) && cs[i].1.volume_mounts[j].name == name);
    }
    if is_mounted_writable(cs, name) {
        let (i, j) = choose|i: int, j: int|
            #[trigger] mounts(cs, name, i, j) && cs[i].1.volume_mounts[j].read_only != Some(true);
        placed_is_container(p, i);
        assert(is_container(p, cs[i].1) && cs[i].1.volume_mounts[j].name == name);
    }
    if some_mount(p, name) {
        let (c, j) = choose|c: ContainerModel, j: int|
            #![trigger is_container(p, c), c.volume_mounts[j]]
            is_container(p, c) && 0 <= j < c.volume_mounts.len() && c.volume_mounts[j].name == name;
        let i = container_is_placed(p, c);
        assert(mounts(cs, name, i, j));
    }
    if some_writable_mount(p, name) {
        let (c, j) = choose|c: ContainerModel, j: int|
            #![trigger is_container(p, c), c.volume_mounts[j]]
            is_container(p, c) && 0 <= j < c.volume_mounts.len() && c.volume_mounts[j].name == name
                && c.volume_mounts[j].read_only != Some(true);
        let i = container_is_placed(p, c);
        assert(mounts(cs, name, i, j));
    }
}

proof fn placed_is_container(p: PodSpecModel, i: int)
    requires
        0 <= i < p.placed().len(),
    ensures
        is_container(p, p.placed()[i].1),
{
    spec::every_container_has_its_role(p, p.placed()[i].0, p.placed()[i].1);
    assert(p.placed().contains((p.placed()[i].0, p.placed()[i].1)));
}

proof fn container_is_placed(p: PodSpecModel, c: ContainerModel) -> (i: int)
    requires
        is_container(p, c),
    ensures
        0 <= i < p.placed().len(),
        p.placed()[i].1 == c,
{
    spec::every_container_has_its_role(p, ContainerKind::Init, c);
    spec::every_container_has_its_role(p, ContainerKind::Sidecar, c);
    spec::every_container_has_its_role(p, ContainerKind::App, c);
    spec::every_container_has_its_role(p, ContainerKind::Ephemeral, c);
    let k = if p.placed().contains((ContainerKind::Init, c)) {
        ContainerKind::Init
    } else if p.placed().contains((ContainerKind::Sidecar, c)) {
        ContainerKind::Sidecar
    } else if p.placed().contains((ContainerKind::App, c)) {
        ContainerKind::App
    } else {
        ContainerKind::Ephemeral
    };
    choose|i: int| 0 <= i < p.placed().len() && p.placed()[i] == (k, c)
}

proof fn in_volume(p: PodSpecModel, v: VolumeModel, e: EffectModel)
    ensures
        has_effect(volume_rows(p.placed(), v), e) <==> volume_asks(p, v, e),
        are_told(volume_rows(p.placed(), v)),
{
    let cs = p.placed();
    in_mounts(p, v.name);
    let a = match v.host_path {
        Some(h) => seq![
            row(
                EffectModel::HostPath {
                    path: h.path,
                    writable: is_mounted_writable(cs, v.name) || !is_mounted(cs, v.name),
                },
                SourceModel::of_pod("volumes["@ + v.name + "].hostPath"@),
            ),
        ],
        None => Seq::empty(),
    };
    let b = match v.secret {
        Some(s) => seq![
            row(
                EffectModel::Secret { name: s.secret_name, via: SecretVia::Volume },
                SourceModel::of_pod("volumes["@ + v.name + "].secret"@),
            ),
        ],
        None => Seq::empty(),
    };
    let d = match v.projected {
        Some(pr) => projected_rows(pr.sources, v.name, pr.sources.len()),
        None => Seq::empty(),
    };
    if a.len() > 0 {
        in_one(a[0], e);
    }
    if b.len() > 0 {
        in_one(b[0], e);
    }
    if let Some(pr) = v.projected {
        in_projected(pr.sources, v.name, pr.sources.len(), e);
    }
    in_either(a, b, e);
    in_either(a + b, d, e);
}

proof fn in_volumes(p: PodSpecModel, n: nat, e: EffectModel)
    requires
        n <= p.volumes.len(),
    ensures
        has_effect(volumes_rows(p.placed(), p.volumes, n), e) <==> exists|i: int|
            0 <= i < n && volume_asks(p, #[trigger] p.volumes[i], e),
        are_told(volumes_rows(p.placed(), p.volumes, n)),
    decreases n,
{
    if n > 0 {
        let m = (n - 1) as nat;
        in_volumes(p, m, e);
        in_volume(p, p.volumes[n - 1], e);
        in_either(
            volumes_rows(p.placed(), p.volumes, m),
            volume_rows(p.placed(), p.volumes[n - 1]),
            e,
        );
    }
}

proof fn in_capabilities(
    kind: ContainerKind,
    name: Seq<char>,
    caps: Seq<Seq<char>>,
    n: nat,
    e: EffectModel,
)
    requires
        n <= caps.len(),
    ensures
        has_effect(capability_rows(kind, name, caps, n), e) <==> (e matches EffectModel::Capability {
            name,
            dangerous,
        } && dangerous == effect::is_escape(effect::capability_name(name)) && exists|j: int|
            0 <= j < n && #[trigger] caps[j] == name),
        are_told(capability_rows(kind, name, caps, n)),
    decreases n,
{
    if n > 0 {
        let m = (n - 1) as nat;
        in_capabilities(kind, name, caps, m, e);
        let before = capability_rows(kind, name, caps, m);
        let all = capability_rows(kind, name, caps, n);
        let last = seq![all.last()];
        assert(all =~= before + last);
        in_either(before, last, e);
        in_one(all.last(), e);
    }
}

proof fn in_env(kind: ContainerKind, name: Seq<char>, env: Seq<EnvVarModel>, n: nat, e: EffectModel)
    requires
        n <= env.len(),
    ensures
        has_effect(env_rows(kind, name, env, n), e) <==> (e matches EffectModel::Secret { name, via }
            && via is Env && exists|j: int| 0 <= j < n && reads_secret(#[trigger] env[j], name)),
        are_told(env_rows(kind, name, env, n)),
    decreases n,
{
    if n > 0 {
        let m = (n - 1) as nat;
        in_env(kind, name, env, m, e);
        let last = match env_secret(env[n - 1]) {
            Some(s) => seq![
                row(
                    EffectModel::Secret { name: s, via: SecretVia::Env },
                    SourceModel::of_container(
                        kind,
                        name,
                        "env["@ + env[n - 1].name + "].valueFrom"@,
                    ),
                ),
            ],
            None => Seq::empty(),
        };
        in_either(env_rows(kind, name, env, m), last, e);
        if last.len() > 0 {
            in_one(last[0], e);
        }
    }
}

proof fn in_env_from(
    kind: ContainerKind,
    name: Seq<char>,
    from: Seq<EnvFromSourceModel>,
    n: nat,
    e: EffectModel,
)
    requires
        n <= from.len(),
    ensures
        has_effect(env_from_rows(kind, name, from, n), e) <==> (e matches EffectModel::Secret {
            name,
            via,
        } && via is EnvFrom && exists|j: int|
            0 <= j < n && ((#[trigger] from[j]).secret_ref matches Some(s) && s.name == name)),
        are_told(env_from_rows(kind, name, from, n)),
    decreases n,
{
    if n > 0 {
        let m = (n - 1) as nat;
        in_env_from(kind, name, from, m, e);
        let last = match from[n - 1].secret_ref {
            Some(s) => seq![
                row(
                    EffectModel::Secret { name: s.name, via: SecretVia::EnvFrom },
                    SourceModel::of_container(kind, name, "envFrom.secretRef"@),
                ),
            ],
            None => Seq::empty(),
        };
        in_either(env_from_rows(kind, name, from, m), last, e);
        if last.len() > 0 {
            in_one(last[0], e);
        }
    }
}

proof fn in_container(
    kind: ContainerKind,
    c: ContainerModel,
    prefixes: Seq<Seq<char>>,
    e: EffectModel,
)
    ensures
        has_effect(container_rows(kind, c, prefixes), e) <==> container_asks(c, prefixes, e),
        are_told(container_rows(kind, c, prefixes)),
{
    let name = shown_name(c);
    let sc = c.security_context;
    let add = sc.capabilities.add;
    let a = row_if(
        sc.privileged == Some(true),
        EffectModel::Privileged,
        SourceModel::of_container(kind, name, "securityContext.privileged"@),
    );
    let b = row_if(
        sc.allow_privilege_escalation == Some(true),
        EffectModel::PrivilegeEscalation,
        SourceModel::of_container(kind, name, "securityContext.allowPrivilegeEscalation"@),
    );
    let d = capability_rows(kind, name, add, add.len());
    let f = env_rows(kind, name, c.env, c.env.len());
    let g = env_from_rows(kind, name, c.env_from, c.env_from.len());
    let h = match doubt(c.image, prefixes) {
        Some(why) => seq![
            row(
                EffectModel::UntrustedImage { image: c.image, why },
                SourceModel::of_container(kind, name, "image"@),
            ),
        ],
        None => Seq::empty(),
    };
    if a.len() > 0 {
        in_one(a[0], e);
    }
    if b.len() > 0 {
        in_one(b[0], e);
    }
    if h.len() > 0 {
        in_one(h[0], e);
    }
    in_capabilities(kind, name, add, add.len(), e);
    in_env(kind, name, c.env, c.env.len(), e);
    in_env_from(kind, name, c.env_from, c.env_from.len(), e);
    in_either(a, b, e);
    in_either(a + b, d, e);
    in_either(a + b + d, f, e);
    in_either(a + b + d + f, g, e);
    in_either(a + b + d + f + g, h, e);
}

proof fn in_containers(cs: Seq<Placed>, prefixes: Seq<Seq<char>>, n: nat, e: EffectModel)
    requires
        n <= cs.len(),
    ensures
        has_effect(containers_rows(cs, prefixes, n), e) <==> exists|k: int|
            0 <= k < n && container_asks((#[trigger] cs[k]).1, prefixes, e),
        are_told(containers_rows(cs, prefixes, n)),
    decreases n,
{
    if n > 0 {
        let m = (n - 1) as nat;
        in_containers(cs, prefixes, m, e);
        in_container(cs[n - 1].0, cs[n - 1].1, prefixes, e);
        in_either(
            containers_rows(cs, prefixes, m),
            container_rows(cs[n - 1].0, cs[n - 1].1, prefixes),
            e,
        );
    }
}

/// A pod has a row for everything that its fields and the cluster's state ask for, and for nothing
/// else; and each row carries the demand and the class of its effect.
pub proof fn there_is_a_row_for_all_that_is_asked(
    p: PodSpecModel,
    s: ClusterSnapshotModel,
    e: EffectModel,
)
    ensures
        has_effect(rows_of(p, s), e) <==> asks(p, s, e),
        are_told(rows_of(p, s)),
{
    let cs = p.placed();
    let prefixes = s.trusted_image_prefixes;
    let a = row_if(p.host_network, EffectModel::HostNetwork, SourceModel::of_pod("hostNetwork"@));
    let b = row_if(
        p.host_pid,
        EffectModel::HostNamespace { which: "PID"@ },
        SourceModel::of_pod("hostPID"@),
    );
    let d = row_if(
        p.host_ipc,
        EffectModel::HostNamespace { which: "IPC"@ },
        SourceModel::of_pod("hostIPC"@),
    );
    if a.len() > 0 {
        in_one(a[0], e);
    }
    if b.len() > 0 {
        in_one(b[0], e);
    }
    if d.len() > 0 {
        in_one(d[0], e);
    }
    in_either(a, b, e);
    in_either(a + b, d, e);
    let n = namespace_rows(p);
    let v = volumes_rows(cs, p.volumes, p.volumes.len());
    let c = containers_rows(cs, prefixes, cs.len());
    let g = seq![row(egress_effect(s), SourceModel::of_pod("egress"@))];
    let r = Seq::new(s.rbac.len(), |i: int| rbac_row(p.service_account_name, s.rbac[i]));
    in_volumes(p, p.volumes.len(), e);
    in_containers(cs, prefixes, cs.len(), e);
    in_one(g[0], e);
    in_either(n, v, e);
    in_either(n + v, c, e);
    in_either(n + v + c, g, e);
    in_either(n + v + c + g, r, e);
    if exists|k: int| 0 <= k < cs.len() && container_asks((#[trigger] cs[k]).1, prefixes, e) {
        let k = choose|k: int|
            0 <= k < cs.len() && container_asks((#[trigger] cs[k]).1, prefixes, e);
        placed_is_container(p, k);
        assert(is_container(p, cs[k].1));
    }
    if exists|c: ContainerModel| #[trigger] is_container(p, c) && container_asks(c, prefixes, e) {
        let c = choose|c: ContainerModel| #[trigger]
            is_container(p, c) && container_asks(c, prefixes, e);
        let k = container_is_placed(p, c);
        assert(container_asks(cs[k].1, prefixes, e));
    }
    if has_effect(r, e) {
        let i = choose|i: int| 0 <= i < r.len() && (#[trigger] r[i]).effect == e;
        assert(rule_asks(s.rbac[i], e));
    }
    if exists|i: int| 0 <= i < s.rbac.len() && rule_asks(#[trigger] s.rbac[i], e) {
        let i = choose|i: int| 0 <= i < s.rbac.len() && rule_asks(#[trigger] s.rbac[i], e);
        assert(r[i].effect == e);
    }
    assert(egress_effect(s) == e <==> (e matches EffectModel::Egress { reach, policies } && is_reach(
        s,
        reach,
        policies,
    ))) by {
        if let EffectModel::Egress { reach, policies } = e {
            if s.egress is None && is_reach(s, reach, policies) {
                assert(policies =~= Seq::<Seq<char>>::empty());
            }
        }
    }
}

/// A pod demands what everything that it asks for demands together, and nothing beyond that: a grant
/// holds the demand exactly where it holds each thing that is asked for.
pub proof fn a_pod_demands_what_it_asks_for(
    p: PodSpecModel,
    s: ClusterSnapshotModel,
    granted: Grant,
)
    ensures
        joint_demand(rows_of(p, s)).fits(granted) <==> forall|e: EffectModel| #[trigger]
            asks(p, s, e) ==> e.demanded().fits(granted),
{
    let rows = rows_of(p, s);
    a_demand_fits_where_every_row_does(rows, granted);
    there_is_a_row_for_all_that_is_asked(p, s, EffectModel::HostNetwork);
    if joint_demand(rows).fits(granted) {
        assert forall|e: EffectModel| #[trigger] asks(p, s, e) implies e.demanded().fits(
            granted,
        ) by {
            there_is_a_row_for_all_that_is_asked(p, s, e);
            let i = choose|i: int| 0 <= i < rows.len() && (#[trigger] rows[i]).effect == e;
            assert(rows[i].demands.fits(granted));
        }
    }
    if forall|e: EffectModel| #[trigger] asks(p, s, e) ==> e.demanded().fits(granted) {
        assert forall|i: int| 0 <= i < rows.len() implies (#[trigger] rows[i]).demands.fits(
            granted,
        ) by {
            there_is_a_row_for_all_that_is_asked(p, s, rows[i].effect);
            assert(asks(p, s, rows[i].effect));
        }
    }
}

proof fn an_ask_is_within_the_demand(p: PodSpecModel, s: ClusterSnapshotModel, e: EffectModel)
    requires
        asks(p, s, e),
    ensures
        e.demanded().fits(joint_demand(rows_of(p, s))),
{
    a_pod_demands_what_it_asks_for(p, s, joint_demand(rows_of(p, s)));
}

/// The node's namespaces are demanded by the flag that shares them: `hostNetwork` the whole network,
/// `hostPID` and `hostIPC` the whole of exec.
pub proof fn a_shared_namespace_demands_the_node(p: PodSpecModel, s: ClusterSnapshotModel)
    ensures
        p.host_network ==> joint_demand(rows_of(p, s)).network == Level::Full,
        p.host_pid ==> joint_demand(rows_of(p, s)).execution == Level::Full,
        p.host_ipc ==> joint_demand(rows_of(p, s)).execution == Level::Full,
{
    if p.host_network {
        an_ask_is_within_the_demand(p, s, EffectModel::HostNetwork);
    }
    if p.host_pid {
        an_ask_is_within_the_demand(p, s, EffectModel::HostNamespace { which: "PID"@ });
    }
    if p.host_ipc {
        an_ask_is_within_the_demand(p, s, EffectModel::HostNamespace { which: "IPC"@ });
    }
}

/// Whatever field a container stands in, what its security context allows is demanded: privilege the
/// file system and exec, escalation and a capability that is a way out exec, and any other capability
/// at least a sandbox.
pub proof fn a_security_context_is_demanded(
    p: PodSpecModel,
    s: ClusterSnapshotModel,
    c: ContainerModel,
    cap: Seq<char>,
)
    requires
        is_container(p, c),
    ensures
        c.security_context.privileged == Some(true) ==> joint_demand(rows_of(p, s)).filesystem
            == Level::Full && joint_demand(rows_of(p, s)).execution == Level::Full,
        c.security_context.allow_privilege_escalation == Some(true) ==> joint_demand(
            rows_of(p, s),
        ).execution == Level::Full,
        c.security_context.capabilities.add.contains(cap) && effect::is_escape(
            effect::capability_name(cap),
        ) ==> joint_demand(rows_of(p, s)).execution == Level::Full,
        c.security_context.capabilities.add.contains(cap) ==> joint_demand(
            rows_of(p, s),
        ).execution.height() >= Level::Sandboxed.height(),
{
    let sc = c.security_context;
    let escape = EffectModel::Capability {
        name: cap,
        dangerous: effect::is_escape(effect::capability_name(cap)),
    };
    if sc.privileged == Some(true) {
        assert(container_asks(c, s.trusted_image_prefixes, EffectModel::Privileged));
        an_ask_is_within_the_demand(p, s, EffectModel::Privileged);
    }
    if sc.allow_privilege_escalation == Some(true) {
        assert(container_asks(c, s.trusted_image_prefixes, EffectModel::PrivilegeEscalation));
        an_ask_is_within_the_demand(p, s, EffectModel::PrivilegeEscalation);
    }
    if sc.capabilities.add.contains(cap) {
        assert(container_asks(c, s.trusted_image_prefixes, escape));
        an_ask_is_within_the_demand(p, s, escape);
    }
}

/// A path on the node is demanded as writable wherever some container mounts it without saying that it
/// is read-only, and where no container mounts it at all; otherwise it still reaches beyond the pod.
pub proof fn a_node_path_is_demanded(
    p: PodSpecModel,
    s: ClusterSnapshotModel,
    v: VolumeModel,
    c: ContainerModel,
    j: int,
)
    requires
        p.volumes.contains(v),
        v.host_path is Some,
    ensures
        joint_demand(rows_of(p, s)).filesystem.height() >= Level::ReadWrite.height(),
        is_container(p, c) && 0 <= j < c.volume_mounts.len() && c.volume_mounts[j].name == v.name
            && c.volume_mounts[j].read_only != Some(true) ==> joint_demand(rows_of(p, s)).filesystem
            == Level::Full,
        !some_mount(p, v.name) ==> joint_demand(rows_of(p, s)).filesystem == Level::Full,
{
    let i = choose|i: int| 0 <= i < p.volumes.len() && p.volumes[i] == v;
    let e = EffectModel::HostPath {
        path: v.host_path->0.path,
        writable: some_writable_mount(p, v.name) || !some_mount(p, v.name),
    };
    assert(volume_asks(p, p.volumes[i], e));
    an_ask_is_within_the_demand(p, s, e);
    if is_container(p, c) && 0 <= j < c.volume_mounts.len() && c.volume_mounts[j].name == v.name
        && c.volume_mounts[j].read_only != Some(true) {
        assert(some_writable_mount(p, v.name));
    }
}

/// A Secret is demanded however it reaches a container: by a volume, by a projection, by one variable
/// or by the whole environment.
pub proof fn a_secret_is_demanded(
    p: PodSpecModel,
    s: ClusterSnapshotModel,
    v: VolumeModel,
    c: ContainerModel,
    name: Seq<char>,
)
    ensures
        (p.volumes.contains(v) && (v.secret matches Some(x) && x.secret_name == name)) || (
        p.volumes.contains(v) && projects(v, name)) || (is_container(p, c) && env_reads(c, name)) || (
        is_container(p, c) && env_takes(c, name)) ==> joint_demand(
            rows_of(p, s),
        ).filesystem.height() >= Level::ReadOnly.height() && exists|via: SecretVia| #[trigger]
            has_effect(rows_of(p, s), EffectModel::Secret { name, via }),
{
    if p.volumes.contains(v) {
        let i = choose|i: int| 0 <= i < p.volumes.len() && p.volumes[i] == v;
        if v.secret is Some && v.secret->0.secret_name == name {
            let e = EffectModel::Secret { name, via: SecretVia::Volume };
            assert(volume_asks(p, p.volumes[i], e));
            an_ask_is_within_the_demand(p, s, e);
            there_is_a_row_for_all_that_is_asked(p, s, e);
        }
        if projects(v, name) {
            let e = EffectModel::Secret { name, via: SecretVia::Projected };
            assert(volume_asks(p, p.volumes[i], e));
            an_ask_is_within_the_demand(p, s, e);
            there_is_a_row_for_all_that_is_asked(p, s, e);
        }
    }
    if is_container(p, c) && env_reads(c, name) {
        let e = EffectModel::Secret { name, via: SecretVia::Env };
        assert(container_asks(c, s.trusted_image_prefixes, e));
        an_ask_is_within_the_demand(p, s, e);
        there_is_a_row_for_all_that_is_asked(p, s, e);
    }
    if is_container(p, c) && env_takes(c, name) {
        let e = EffectModel::Secret { name, via: SecretVia::EnvFrom };
        assert(container_asks(c, s.trusted_image_prefixes, e));
        an_ask_is_within_the_demand(p, s, e);
        there_is_a_row_for_all_that_is_asked(p, s, e);
    }
}

/// Any rule of the ServiceAccount demands that the API be reachable, and one that is a route to more
/// authority demands exec as well.
pub proof fn an_api_rule_is_demanded(p: PodSpecModel, s: ClusterSnapshotModel, i: int)
    requires
        0 <= i < s.rbac.len(),
    ensures
        joint_demand(rows_of(p, s)).network.height() >= Level::Allowlist.height(),
        s.rbac[i].escalation() is Some ==> joint_demand(rows_of(p, s)).execution == Level::Full,
{
    let r = s.rbac[i];
    let e = EffectModel::ApiAccess {
        resource: r.resource,
        verbs: r.verbs,
        cluster_wide: r.namespace is None,
        escalation: r.escalation(),
    };
    assert(rule_asks(s.rbac[i], e));
    an_ask_is_within_the_demand(p, s, e);
}

/// The whole of exec is demanded only for a reason: the node's PID or IPC namespace, a container's
/// privilege, escalation or way out, or a rule that is a route to more authority.
pub proof fn exec_is_demanded_for_a_reason(p: PodSpecModel, s: ClusterSnapshotModel)
    requires
        !p.host_pid && !p.host_ipc,
        forall|c: ContainerModel| #[trigger]
            is_container(p, c) ==> c.security_context.privileged != Some(true)
                && c.security_context.allow_privilege_escalation != Some(true) && forall|j: int|
                0 <= j < c.security_context.capabilities.add.len() ==> !effect::is_escape(
                    effect::capability_name(#[trigger] c.security_context.capabilities.add[j]),
                ),
        forall|i: int| 0 <= i < s.rbac.len() ==> (#[trigger] s.rbac[i]).escalation() is None,
    ensures
        joint_demand(rows_of(p, s)).execution != Level::Full,
{
    let bounded = Grant {
        filesystem: Level::Full,
        network: Level::Full,
        execution: Level::Sandboxed,
    };
    assert forall|e: EffectModel| #[trigger] asks(p, s, e) implies e.demanded().fits(bounded) by {
        if exists|c: ContainerModel| #[trigger]
            is_container(p, c) && container_asks(c, s.trusted_image_prefixes, e) {
            let c = choose|c: ContainerModel| #[trigger]
                is_container(p, c) && container_asks(c, s.trusted_image_prefixes, e);
            if let EffectModel::Capability { name, dangerous } = e {
                let add = c.security_context.capabilities.add;
                let j = choose|j: int| 0 <= j < add.len() && add[j] == name;
                assert(!effect::is_escape(effect::capability_name(add[j])));
            }
        }
    }
    a_pod_demands_what_it_asks_for(p, s, bounded);
}

/// A container's rows say which container they come from, and in which role it stands.
pub proof fn a_row_names_its_container(
    kind: ContainerKind,
    c: ContainerModel,
    prefixes: Seq<Seq<char>>,
    i: int,
)
    requires
        0 <= i < container_rows(kind, c, prefixes).len(),
    ensures
        container_rows(kind, c, prefixes)[i].source.kind == Some(kind),
        c.name.len() > 0 ==> container_rows(kind, c, prefixes)[i].source.container == Some(c.name),
{
    let name = shown_name(c);
    let add = c.security_context.capabilities.add;
    capabilities_name_their_container(kind, name, add, add.len());
    env_names_its_container(kind, name, c.env, c.env.len());
    env_from_names_its_container(kind, name, c.env_from, c.env_from.len());
}

spec fn are_of(rows: Seq<EffectRowModel>, kind: ContainerKind, name: Seq<char>) -> bool {
    forall|i: int|
        0 <= i < rows.len() ==> (#[trigger] rows[i]).source.kind == Some(kind)
            && rows[i].source.container == Some(name)
}

proof fn capabilities_name_their_container(
    kind: ContainerKind,
    name: Seq<char>,
    caps: Seq<Seq<char>>,
    n: nat,
)
    ensures
        are_of(capability_rows(kind, name, caps, n), kind, name),
    decreases n,
{
    if n > 0 && n <= caps.len() {
        capabilities_name_their_container(kind, name, caps, (n - 1) as nat);
    }
}

proof fn env_names_its_container(
    kind: ContainerKind,
    name: Seq<char>,
    env: Seq<EnvVarModel>,
    n: nat,
)
    ensures
        are_of(env_rows(kind, name, env, n), kind, name),
    decreases n,
{
    if n > 0 && n <= env.len() {
        env_names_its_container(kind, name, env, (n - 1) as nat);
    }
}

proof fn env_from_names_its_container(
    kind: ContainerKind,
    name: Seq<char>,
    from: Seq<EnvFromSourceModel>,
    n: nat,
)
    ensures
        are_of(env_from_rows(kind, name, from, n), kind, name),
    decreases n,
{
    if n > 0 && n <= from.len() {
        env_from_names_its_container(kind, name, from, (n - 1) as nat);
    }
}

/// An image is in no doubt exactly where it is pinned by a digest and begins with a prefix that the
/// cluster trusts; and space around it makes no difference.
pub proof fn an_image_in_no_doubt_is_pinned_and_trusted(image: Seq<char>, prefixes: Seq<Seq<char>>)
    ensures
        doubt(image, prefixes) is None <==> {
            let t = text::trimmed(image);
            &&& exists|i: int| 0 <= i <= t.len() - 8 && #[trigger] t.subrange(i, i + 8) == "@sha256:"@
            &&& cluster::under_prefix(t, prefixes)
        },
        doubt(image, prefixes) == Some(ImageDoubt::UntrustedSource) <==> {
            let t = text::trimmed(image);
            &&& exists|i: int| 0 <= i <= t.len() - 8 && #[trigger] t.subrange(i, i + 8) == "@sha256:"@
            &&& !cluster::under_prefix(t, prefixes)
        },
        doubt(text::trimmed(image), prefixes) == doubt(image, prefixes),
{
    reveal_strlit("@sha256:");
    text::trimming_takes_off_space_alone(image);
    let t = text::trimmed(image);
    if exists|i: int| 0 <= i <= t.len() - 8 && #[trigger] t.subrange(i, i + 8) == "@sha256:"@ {
        let i = choose|i: int| 0 <= i <= t.len() - 8 && #[trigger] t.subrange(i, i + 8) == "@sha256:"@;
        assert(t.subrange(i, i + "@sha256:"@.len()) == "@sha256:"@);
        assert(text::holds_text(t, "@sha256:"@));
    }
    if text::holds_text(t, "@sha256:"@) {
        let i = choose|i: int|
            0 <= i <= t.len() - "@sha256:"@.len() && #[trigger] t.subrange(i, i + "@sha256:"@.len())
                == "@sha256:"@;
        assert(t.subrange(i, i + 8) == "@sha256:"@);
    }
}

/// An image without a digest is held to its tag: with no tag, an empty one or `latest` it floats, and
/// with any other it is not pinned. A colon in a registry's address is no tag.
pub proof fn an_image_without_a_digest_is_held_to_its_tag(
    dir: Seq<char>,
    name: Seq<char>,
    tag: Seq<char>,
    prefixes: Seq<Seq<char>>,
)
    requires
        dir.len() > 0 ==> dir.last() == '/',
        !name.contains('/') && !name.contains(':'),
        !tag.contains('/'),
    ensures
        ({
            let s = dir + name + seq![':'] + tag;
            !text::is_space(s[0]) && !text::is_space(s.last()) && !text::holds_text(s, "@sha256:"@)
                ==> doubt(s, prefixes) == Some(
                if tag.len() == 0 || tag == "latest"@ {
                    ImageDoubt::Floating
                } else {
                    ImageDoubt::NotPinned
                },
            )
        }),
        ({
            let s = dir + name;
            name.len() > 0 && !text::is_space(s[0]) && !text::is_space(s.last())
                && !text::holds_text(s, "@sha256:"@) ==> doubt(s, prefixes) == Some(
                ImageDoubt::Floating,
            )
        }),
        doubt(Seq::empty(), prefixes) == Some(ImageDoubt::Floating),
{
    let last = name + seq![':'] + tag;
    let s = dir + name + seq![':'] + tag;
    let u = dir + name;
    assert(!last.contains('/')) by {
        if last.contains('/') {
            let i = choose|i: int| 0 <= i < last.len() && last[i] == '/';
            if i < name.len() {
                assert(name[i] == '/');
                assert(name.contains('/'));
            } else if i > name.len() {
                assert(tag[i - name.len() - 1] == '/');
                assert(tag.contains('/'));
            }
        }
    }
    if dir.len() > 0 {
        let head = dir.drop_last();
        assert(s =~= head + seq!['/'] + last);
        assert(u =~= head + seq!['/'] + name);
        text::what_stands_after_the_last(head, '/', last);
        text::what_stands_after_the_last(head, '/', name);
    } else {
        assert(s =~= last);
        assert(u =~= name);
        text::what_stands_after_the_last(dir, '/', last);
        text::what_stands_after_the_last(dir, '/', name);
    }
    text::the_first_place_is_first(last, ':');
    text::the_first_place_is_first(name, ':');
    let at = text::first_at(last, ':');
    assert(last[name.len() as int] == ':');
    if at < name.len() {
        assert(name[at] == ':');
        assert(name.contains(':'));
    }
    assert(at == name.len());
    assert(last.subrange(at + 1, last.len() as int) =~= tag);
    if s.len() > 0 && !text::is_space(s[0]) && !text::is_space(s.last()) {
        text::nothing_to_trim(s);
    }
    if u.len() > 0 && !text::is_space(u[0]) && !text::is_space(u.last()) {
        text::nothing_to_trim(u);
    }
}

/// A pod that compiles gives the rows, the demand, the images and the reservation of its spec, and one
/// that does not has a request that cannot be read.
pub proof fn a_compiled_pod_is_of_its_spec(
    p: PodSpecModel,
    s: ClusterSnapshotModel,
    raw: Seq<char>,
    image: Seq<char>,
)
    ensures
        compiled(p, s, raw) is Err <==> exists|i: int|
            0 <= i < p.placed().len() && !((#[trigger] p.placed()[i]).0 is Ephemeral)
                && !cost::requests_quantities(p.placed()[i].1),
        compiled(p, s, raw) matches Ok(pod) ==> {
            &&& pod.rows == rows_of(p, s)
            &&& pod.demands == joint_demand(rows_of(p, s))
            &&& pod.reservation == cost::effective(p.placed())
            &&& pod.images.contains(image) <==> exists|c: ContainerModel| #[trigger]
                is_container(p, c) && c.image == image
            &&& pod.untrusted_images.contains(image) <==> pod.images.contains(image)
                && !cluster::under_prefix(text::trimmed(image), s.trusted_image_prefixes)
        },
{
    cost::one_request_that_cannot_be_read_is_enough(p.placed());
    let images = images_in(p);
    an_untrusted_image_is_listed(images, s.trusted_image_prefixes, image);
    if images.contains(image) {
        let i = choose|i: int| 0 <= i < images.len() && images[i] == image;
        placed_is_container(p, i);
        assert(is_container(p, p.placed()[i].1));
    }
    if exists|c: ContainerModel| #[trigger] is_container(p, c) && c.image == image {
        let c = choose|c: ContainerModel| #[trigger] is_container(p, c) && c.image == image;
        let i = container_is_placed(p, c);
        assert(images[i] == image);
    }
}

/// The rows of a class are those of the pod's rows that have it, and the unreadable ones those whose
/// effect could not be read.
pub proof fn rows_are_picked_by_what_they_are(
    rows: Seq<EffectRowModel>,
    class: Reversibility,
    r: EffectRowModel,
)
    ensures
        at_class(rows, class).contains(r) <==> rows.contains(r) && r.reversibility == class,
        unread(rows).contains(r) <==> rows.contains(r) && r.effect is Unreadable,
{
    let f = |x: EffectRowModel| x.reversibility == class;
    let g = |x: EffectRowModel| x.effect is Unreadable;
    filter_keeps(rows, f, r);
    filter_keeps(rows, g, r);
}

proof fn filter_keeps<A>(s: Seq<A>, keep: spec_fn(A) -> bool, x: A)
    ensures
        s.filter(keep).contains(x) <==> s.contains(x) && keep(x),
    decreases s.len(),
{
    reveal(Seq::filter);
    if s.len() > 0 {
        let before = s.drop_last();
        filter_keeps(before, keep, x);
        assert(s[s.len() - 1] == s.last());
        let all = s.filter(keep);
        if before.filter(keep).contains(x) {
            let i = choose|i: int| 0 <= i < before.filter(keep).len() && before.filter(keep)[i] == x;
            assert(all[i] == x);
            let j = choose|j: int| 0 <= j < before.len() && before[j] == x;
            assert(s[j] == x);
        }
        if keep(s.last()) {
            assert(all[all.len() - 1] == s.last());
        }
        if all.contains(x) {
            let i = choose|i: int| 0 <= i < all.len() && all[i] == x;
            if i < before.filter(keep).len() {
                assert(before.filter(keep)[i] == x);
            }
        }
        if s.contains(x) {
            let j = choose|j: int| 0 <= j < s.len() && s[j] == x;
            if j < before.len() {
                assert(before[j] == x);
            }
        }
    }
}

} // verus!
