//! What is answered to the two webhooks: a pod against the grant that governs its namespace, and a
//! manifest against the parent that it names.
//!
//! Everything that cannot decide is answered under the request's own uid: an answer to nobody is one
//! that the API server drops, which would turn "could not decide" into a timeout.
use vstd::prelude::*;

use crate::admission;
use crate::admission::{admit_str, Decision, DecisionModel, Spend, Verdict, VerdictModel};
use crate::cluster::ClusterSnapshotModel;
use crate::json;
use crate::ledger::{LedgerEvent, LedgerEventModel};
use crate::manifest;
use crate::manifest::{
    narrow, Budget, LexManifest, LexManifestModel, Manifest, ManifestModel, ManifestReadError,
};
use crate::model;
use crate::review;
use crate::review::{
    cannot_run, refuse, AdmissionRequest, AdmissionRequestModel, AdmissionReview,
    AdmissionReviewModel,
};
use crate::serve::cache;
use crate::serve::cache::{
    manifest_by_reference, manifest_for, ManifestLookup, ManifestLookupModel, Readiness,
};
use crate::serve::objects::{
    ClusterRole, ClusterRoleBinding, ClusterRoleBindingModel, ClusterRoleModel, NetworkPolicy,
    NetworkPolicyModel, ObjectMeta, ObjectMetaModel, Role, RoleBinding, RoleBindingModel, RoleModel,
};
use crate::serve::snapshot;
use crate::serve::snapshot::{build, PodSubject, PodSubjectModel};
use crate::text;
use crate::text::{chars, copied, join, owned, show};
use crate::trust::Keyring;

verus! {

/// What the caches of cluster objects list.
#[derive(Debug, Clone, PartialEq, Eq)]
pub struct Listed {
    pub policies: Vec<NetworkPolicy>,
    pub roles: Vec<Role>,
    pub cluster_roles: Vec<ClusterRole>,
    pub role_bindings: Vec<RoleBinding>,
    pub cluster_role_bindings: Vec<ClusterRoleBinding>,
}

/// What a [`Listed`] says.
#[verifier::ext_equal]
pub struct ListedModel {
    pub policies: Seq<NetworkPolicyModel>,
    pub roles: Seq<RoleModel>,
    pub cluster_roles: Seq<ClusterRoleModel>,
    pub role_bindings: Seq<RoleBindingModel>,
    pub cluster_role_bindings: Seq<ClusterRoleBindingModel>,
}

impl DeepView for Listed {
    type V = ListedModel;

    open spec fn deep_view(&self) -> ListedModel {
        ListedModel {
            policies: self.policies.deep_view(),
            roles: self.roles.deep_view(),
            cluster_roles: self.cluster_roles.deep_view(),
            role_bindings: self.role_bindings.deep_view(),
            cluster_role_bindings: self.cluster_role_bindings.deep_view(),
        }
    }
}

/// A pod that was decided, and the cluster state that the decision depends on.
#[derive(Debug, Clone, PartialEq, Eq)]
pub struct Judged {
    pub decision: Decision,
    pub snapshot_sha256: String,
}

/// What a [`Judged`] says.
#[verifier::ext_equal]
pub struct JudgedModel {
    pub decision: DecisionModel,
    pub snapshot_sha256: Seq<char>,
}

impl DeepView for Judged {
    type V = JudgedModel;

    open spec fn deep_view(&self) -> JudgedModel {
        JudgedModel {
            decision: self.decision.deep_view(),
            snapshot_sha256: self.snapshot_sha256.deep_view(),
        }
    }
}

/// A manifest that was held to its parent: what is witnessed, and what is answered.
#[derive(Debug, Clone, PartialEq, Eq)]
pub struct Narrowed {
    pub event: LedgerEvent,
    pub answer: AdmissionReview,
}

/// What a [`Narrowed`] says.
#[verifier::ext_equal]
pub struct NarrowedModel {
    pub event: LedgerEventModel,
    pub answer: AdmissionReviewModel,
}

impl DeepView for Narrowed {
    type V = NarrowedModel;

    open spec fn deep_view(&self) -> NarrowedModel {
        NarrowedModel {
            event: self.event.deep_view(),
            answer: self.answer.deep_view(),
        }
    }
}

/// What is to be done with a manifest that was posted.
#[derive(Debug, Clone, PartialEq, Eq)]
pub enum NarrowStep {
    Answer(AdmissionReview),
    /// Hold it to the parent that it names, which stands at this place of the listing.
    Compare { child: LexManifest, resolved: Manifest, reference: String, parent: usize },
}

/// What a [`NarrowStep`] says.
#[verifier::ext_equal]
pub enum NarrowStepModel {
    Answer(AdmissionReviewModel),
    Compare {
        child: LexManifestModel,
        resolved: ManifestModel,
        reference: Seq<char>,
        parent: usize,
    },
}

impl DeepView for NarrowStep {
    type V = NarrowStepModel;

    open spec fn deep_view(&self) -> NarrowStepModel {
        match self {
            NarrowStep::Answer(x) => NarrowStepModel::Answer(x.deep_view()),
            NarrowStep::Compare { child, resolved, reference, parent } => NarrowStepModel::Compare {
                child: child.deep_view(),
                resolved: resolved.deep_view(),
                reference: reference.deep_view(),
                parent: parent.deep_view(),
            },
        }
    }
}

// ---------------------------------------------------------------------------------------------
// Reading a request
// ---------------------------------------------------------------------------------------------
/// The request of a review, or the text of an HTTP error: without a request there is no uid to
/// answer to.
pub open spec fn request_of(
    r: Result<review::AdmissionReviewModel, review::ReviewErrorModel>,
) -> Result<AdmissionRequestModel, Seq<char>> {
    match r {
        Err(e) => Err(e.message() + "\n"@),
        Ok(m) => match m.asked() {
            Err(e) => Err(e.message() + "\n"@),
            Ok(q) => Ok(q),
        },
    }
}

/// The request of a review that was read.
pub fn take_request(review: AdmissionReview) -> (r: Result<AdmissionRequest, String>)
    ensures
        model::outcome(r) == request_of(Ok(review.deep_view())),
{
    match review.request {
        Some(q) => Ok(q),
        None => Err(review::ReviewError::NotARequest.to_text().concat("\n")),
    }
}

/// The request of a posted body.
pub fn read_request(body: &str) -> (r: Result<AdmissionRequest, String>)
    ensures
        model::outcome(r) == request_of(review::review_of_text(body@)),
{
    match AdmissionReview::from_json(body) {
        Ok(review) => take_request(review),
        Err(e) => Err(e.to_text().concat("\n")),
    }
}

// ---------------------------------------------------------------------------------------------
// A pod
// ---------------------------------------------------------------------------------------------
/// Where the manifest that governs a request's namespace is listed, or why nothing can be decided:
/// a cold cache, no manifest, or several.
pub open spec fn ceiling_place(
    q: AdmissionRequestModel,
    ready: Readiness,
    manifests: Seq<ObjectMetaModel>,
) -> Result<usize, AdmissionReviewModel> {
    if ready.cold_ones().len() > 0 {
        Err(
            review::undecided(
                q.uid,
                "the caches this verdict depends on are still cold ("@ + text::joined(
                    ready.cold_ones(),
                    ", "@,
                ) + "), so the cluster state is unknown rather than empty"@,
            ),
        )
    } else {
        match cache::governing_manifest(manifests, q.namespace) {
            ManifestLookupModel::One(i) => Ok(i),
            ManifestLookupModel::Nothing => Err(
                review::undecided(
                    q.uid,
                    "no LexManifest governs namespace `"@ + q.namespace
                        + "`. A namespace with no grant grants nothing; create one, or take this namespace out of the webhook's namespaceSelector"@,
                ),
            ),
            ManifestLookupModel::Ambiguous(names) => Err(
                review::undecided(
                    q.uid,
                    "namespace `"@ + q.namespace + "` has "@ + text::decimal(names.len())
                        + " LexManifests ("@ + text::joined(names, ", "@)
                        + "), and this wall will not choose which ceiling applies. Leave exactly one"@,
                ),
            ),
        }
    }
}

/// Where the manifest that governs a request's namespace is listed, or the answer that nothing can
/// be decided.
pub fn place_ceiling(
    request: &AdmissionRequest,
    ready: &Readiness,
    manifests: &Vec<ObjectMeta>,
) -> (r: Result<usize, AdmissionReview>)
    ensures
        match r {
            Ok(i) => ceiling_place(request.deep_view(), *ready, manifests.deep_view()) == Ok::<
                usize,
                AdmissionReviewModel,
            >(i),
            Err(a) => ceiling_place(request.deep_view(), *ready, manifests.deep_view()) == Err::<
                usize,
                AdmissionReviewModel,
            >(a.deep_view()),
        },
{
    let uid = request.uid.as_str();
    let cold = ready.cold();
    assert(cold.deep_view().len() == cold.len());
    if cold.len() > 0 {
        let why = owned("the caches this verdict depends on are still cold (").concat(
            join(&cold, ", ").as_str(),
        ).concat("), so the cluster state is unknown rather than empty");
        return Err(cannot_run(uid, why.as_str()));
    }
    match manifest_for(manifests, request.namespace.as_str()) {
        ManifestLookup::One(i) => Ok(i),
        ManifestLookup::Nothing => {
            let why = owned("no LexManifest governs namespace `").concat(
                request.namespace.as_str(),
            ).concat(
                "`. A namespace with no grant grants nothing; create one, or take this namespace out of the webhook's namespaceSelector",
            );
            Err(cannot_run(uid, why.as_str()))
        },
        ManifestLookup::Ambiguous(names) => {
            assert(names.deep_view().len() == names.len());
            let why = owned("namespace `").concat(request.namespace.as_str()).concat(
                "` has ",
            ).concat(show(names.len() as u64).as_str()).concat(" LexManifests (").concat(
                join(&names, ", ").as_str(),
            ).concat(
                "), and this wall will not choose which ceiling applies. Leave exactly one",
            );
            Err(cannot_run(uid, why.as_str()))
        },
    }
}

/// The manifest that a document resolves to, or the answer that the namespace has no usable
/// ceiling.
pub open spec fn ceiling_of(
    q: AdmissionRequestModel,
    m: Result<(LexManifestModel, ManifestModel), manifest::ManifestReadErrorModel>,
) -> Result<ManifestModel, AdmissionReviewModel> {
    match m {
        Ok((_, resolved)) => Ok(resolved),
        Err(e) => Err(
            review::undecided(
                q.uid,
                "the LexManifest governing namespace `"@ + q.namespace
                    + "` cannot be read, so this namespace has no usable ceiling: "@ + e.message(),
            ),
        ),
    }
}

/// Read the manifest that governs a request's namespace.
pub fn read_ceiling(request: &AdmissionRequest, document: &str, default_budget: Budget) -> (r: Result<
    Manifest,
    AdmissionReview,
>)
    ensures
        model::outcome(r) == ceiling_of(
            request.deep_view(),
            manifest::accepted(manifest::manifest_of_text(document@), default_budget),
        ),
{
    match LexManifest::read(document, default_budget) {
        Ok((_, resolved)) => Ok(resolved),
        Err(e) => {
            let why = owned("the LexManifest governing namespace `").concat(
                request.namespace.as_str(),
            ).concat("` cannot be read, so this namespace has no usable ceiling: ").concat(
                e.to_text().as_str(),
            );
            Err(cannot_run(request.uid.as_str(), why.as_str()))
        },
    }
}

/// The snapshot that a request is judged on.
pub open spec fn snapshot_for(
    q: AdmissionRequestModel,
    listed: ListedModel,
    trusted_image_prefixes: Seq<Seq<char>>,
) -> ClusterSnapshotModel {
    snapshot::snapshot_of(
        PodSubjectModel {
            namespace: q.namespace,
            labels: snapshot::labels_of(q.object),
            service_account: snapshot::account_of(q.object),
        },
        listed.policies,
        listed.roles,
        listed.cluster_roles,
        listed.role_bindings,
        listed.cluster_role_bindings,
        trusted_image_prefixes,
    )
}

/// The decision on a request, or the answer that the wall could not run.
pub open spec fn judged(
    q: AdmissionRequestModel,
    d: Result<DecisionModel, admission::AdmissionErrorModel>,
    snapshot: ClusterSnapshotModel,
) -> Result<JudgedModel, AdmissionReviewModel> {
    match d {
        Ok(decision) => Ok(JudgedModel { decision, snapshot_sha256: snapshot.id() }),
        Err(e) => Err(review::undecided(q.uid, e.message())),
    }
}

/// Judge a request by the manifest that governs its namespace and the cluster as it is listed. The
/// submitter is the one that the API server authenticated.
pub fn judge(
    request: &AdmissionRequest,
    manifest: &Manifest,
    manifest_id: &str,
    listed: &Listed,
    trusted_image_prefixes: &Vec<String>,
    keyring: Option<&Keyring>,
    spend: Option<&Spend>,
) -> (r: Result<Judged, AdmissionReview>)
    ensures
        model::outcome(r) == judged(
            request.deep_view(),
            admission::admission(
                json::rendered(request.deep_view().object),
                manifest.deep_view(),
                manifest_id@,
                snapshot_for(
                    request.deep_view(),
                    listed.deep_view(),
                    trusted_image_prefixes.deep_view(),
                ),
                request.deep_view().who(),
                keyring.deep_view(),
                spend.deep_view(),
            ),
            snapshot_for(
                request.deep_view(),
                listed.deep_view(),
                trusted_image_prefixes.deep_view(),
            ),
        ),
{
    let subject = PodSubject::from_object(request.namespace.as_str(), &request.object);
    let snap = build(
        &subject,
        &listed.policies,
        &listed.roles,
        &listed.cluster_roles,
        &listed.role_bindings,
        &listed.cluster_role_bindings,
        copied(trusted_image_prefixes),
    );
    let meta = request.meta();
    match admit_str(
        request.object_json().as_str(),
        manifest,
        manifest_id,
        &snap,
        &meta,
        keyring,
        spend,
    ) {
        Ok(decision) => Ok(Judged { decision, snapshot_sha256: snap.content_id() }),
        Err(e) => Err(cannot_run(request.uid.as_str(), e.to_text().as_str())),
    }
}

/// The word for a verdict.
pub open spec fn verdict_word(v: VerdictModel) -> Seq<char> {
    match v {
        VerdictModel::Admit => "admitted"@,
        VerdictModel::Deny { .. } => "refused"@,
    }
}

/// What the ledger keeps of a decision on a pod.
pub open spec fn pod_witness(
    q: AdmissionRequestModel,
    j: JudgedModel,
    head: Seq<char>,
    entries: u64,
) -> LedgerEventModel {
    LedgerEventModel::PodDecided {
        uid: q.uid,
        namespace: q.namespace,
        name: q.who().name,
        verdict: verdict_word(j.decision.verdict),
        decision_head: head,
        decision_entries: entries,
        snapshot_sha256: j.snapshot_sha256,
        signer: q.who().signer,
    }
}

/// What the ledger keeps of a decision on a pod, whose record has this head and this many entries.
pub fn witness_pod(request: &AdmissionRequest, judged: &Judged, head: &str, entries: u64) -> (r:
    LedgerEvent)
    ensures
        r.deep_view() == pod_witness(request.deep_view(), judged.deep_view(), head@, entries),
{
    let meta = request.meta();
    let verdict: &str = match &judged.decision.verdict {
        Verdict::Admit => "admitted",
        Verdict::Deny { .. } => "refused",
    };
    LedgerEvent::PodDecided {
        uid: request.uid.clone(),
        namespace: request.namespace.clone(),
        name: meta.name,
        verdict: owned(verdict),
        decision_head: owned(head),
        decision_entries: entries,
        snapshot_sha256: judged.snapshot_sha256.clone(),
        signer: meta.signer,
    }
}

// ---------------------------------------------------------------------------------------------
// A manifest
// ---------------------------------------------------------------------------------------------
/// Where the parent that a manifest names is listed, or the answer: a cold cache cannot tell a
/// parent that does not exist from one that is not listed yet, and one that does not exist is no
/// ceiling at all.
pub open spec fn parent_place(
    uid: Seq<char>,
    reference: Seq<char>,
    ready: bool,
    manifests: Seq<ObjectMetaModel>,
    root_namespace: Seq<char>,
) -> Result<int, AdmissionReviewModel> {
    if !ready {
        Err(
            review::undecided(
                uid,
                "the LexManifest cache is still cold, so the parent cannot be resolved"@,
            ),
        )
    } else {
        match cache::referred_to(manifests, reference, root_namespace) {
            Some(i) => Ok(i),
            None => Err(
                review::refused(
                    uid,
                    "parent `"@ + reference
                        + "` is not in the cluster. An unresolvable ceiling is not an absent one: a child that could name a parent nobody can read would be granting itself whatever it liked"@,
                ),
            ),
        }
    }
}

/// What is to be done with a manifest that was read: refused where it cannot be, allowed where it
/// names no parent, and otherwise held to the parent that it names.
pub open spec fn first_step(
    q: AdmissionRequestModel,
    child: Result<(LexManifestModel, ManifestModel), manifest::ManifestReadErrorModel>,
    ready: bool,
    manifests: Seq<ObjectMetaModel>,
    root_namespace: Seq<char>,
) -> NarrowStepModel {
    match child {
        Err(e) => NarrowStepModel::Answer(review::refused(q.uid, e.message())),
        Ok((crd, resolved)) => match crd.spec.parent {
            None => NarrowStepModel::Answer(
                review::allowed_with(q.uid, "no parent named; nothing to narrow against"@),
            ),
            Some(reference) => match parent_place(
                q.uid,
                reference,
                ready,
                manifests,
                root_namespace,
            ) {
                Err(a) => NarrowStepModel::Answer(a),
                Ok(i) => NarrowStepModel::Compare {
                    child: crd,
                    resolved,
                    reference,
                    parent: i as usize,
                },
            },
        },
    }
}

/// Where the parent that a manifest names is listed.
pub fn place_parent(
    uid: &str,
    reference: &str,
    ready: bool,
    manifests: &Vec<ObjectMeta>,
    root_namespace: &str,
) -> (r: Result<usize, AdmissionReview>)
    ensures
        match r {
            Ok(i) => parent_place(
                uid@,
                reference@,
                ready,
                manifests.deep_view(),
                root_namespace@,
            ) == Ok::<int, AdmissionReviewModel>(i as int),
            Err(a) => parent_place(
                uid@,
                reference@,
                ready,
                manifests.deep_view(),
                root_namespace@,
            ) == Err::<int, AdmissionReviewModel>(a.deep_view()),
        },
{
    if !ready {
        return Err(
            cannot_run(
                uid,
                "the LexManifest cache is still cold, so the parent cannot be resolved",
            ),
        );
    }
    match manifest_by_reference(manifests, reference, root_namespace) {
        Some(i) => Ok(i),
        None => {
            let why = owned("parent `").concat(reference).concat(
                "` is not in the cluster. An unresolvable ceiling is not an absent one: a child that could name a parent nobody can read would be granting itself whatever it liked",
            );
            Err(refuse(uid, why.as_str()))
        },
    }
}

/// What is to be done with a manifest, given what was read of it.
pub fn step(
    request: &AdmissionRequest,
    child: Result<(LexManifest, Manifest), ManifestReadError>,
    ready: bool,
    manifests: &Vec<ObjectMeta>,
    root_namespace: &str,
) -> (r: NarrowStep)
    ensures
        r.deep_view() == first_step(
            request.deep_view(),
            model::outcome(child),
            ready,
            manifests.deep_view(),
            root_namespace@,
        ),
{
    let uid = request.uid.as_str();
    let (crd, resolved): (LexManifest, Manifest) = match child {
        Ok(pair) => pair,
        Err(e) => return NarrowStep::Answer(refuse(uid, e.to_text().as_str())),
    };
    let reference: String = match &crd.spec.parent {
        Some(p) => p.clone(),
        None => {
            return NarrowStep::Answer(crate::review::allow(uid, "no parent named; nothing to narrow against"));
        },
    };
    match place_parent(uid, reference.as_str(), ready, manifests, root_namespace) {
        Ok(i) => NarrowStep::Compare { child: crd, resolved, reference, parent: i },
        Err(a) => NarrowStep::Answer(a),
    }
}

/// What is to be done with a posted manifest.
pub fn begin_narrow(
    request: &AdmissionRequest,
    default_budget: Budget,
    ready: bool,
    manifests: &Vec<ObjectMeta>,
    root_namespace: &str,
) -> (r: NarrowStep)
    ensures
        r.deep_view() == first_step(
            request.deep_view(),
            manifest::accepted(
                manifest::manifest_of_text(json::rendered(request.deep_view().object)),
                default_budget,
            ),
            ready,
            manifests.deep_view(),
            root_namespace@,
        ),
{
    let child = LexManifest::read(request.object_json().as_str(), default_budget);
    step(request, child, ready, manifests, root_namespace)
}

/// What comes of holding a manifest to its parent.
pub open spec fn held_to_parent(
    q: AdmissionRequestModel,
    child: LexManifestModel,
    resolved: ManifestModel,
    reference: Seq<char>,
    parent: ManifestModel,
) -> NarrowedModel {
    let widening = manifest::manifest_widening(parent, resolved);
    NarrowedModel {
        event: LedgerEventModel::ManifestDecided {
            uid: q.uid,
            child: child.named(),
            parent: Some(reference),
            verdict: if widening is None {
                "narrows"@
            } else {
                "widens"@
            },
            reason: match widening {
                Some(e) => Some(e.message()),
                None => None,
            },
            signer: q.who().signer,
        },
        answer: match widening {
            None => review::allowed_with(q.uid, "narrows `"@ + reference + "`"@),
            Some(e) => review::refused(
                q.uid,
                "this LexManifest widens its parent `"@ + reference + "`: "@ + e.message()
                    + ". A team lead hands out authority they hold, never authority they do not"@,
            ),
        },
    }
}

/// What comes of holding a manifest to what was read of its parent.
pub open spec fn last_step(
    q: AdmissionRequestModel,
    child: LexManifestModel,
    resolved: ManifestModel,
    reference: Seq<char>,
    parent: Result<(LexManifestModel, ManifestModel), manifest::ManifestReadErrorModel>,
) -> Result<NarrowedModel, AdmissionReviewModel> {
    match parent {
        Ok((_, p)) => Ok(held_to_parent(q, child, resolved, reference, p)),
        Err(e) => Err(
            review::refused(
                q.uid,
                "parent `"@ + reference + "` cannot be read: "@ + e.message(),
            ),
        ),
    }
}

/// Hold a manifest to its parent.
pub fn hold(
    request: &AdmissionRequest,
    child: &LexManifest,
    resolved: &Manifest,
    reference: &str,
    parent: &Manifest,
) -> (r: Narrowed)
    ensures
        r.deep_view() == held_to_parent(
            request.deep_view(),
            child.deep_view(),
            resolved.deep_view(),
            reference@,
            parent.deep_view(),
        ),
{
    let uid = request.uid.as_str();
    let signer = request.meta().signer;
    match narrow(parent, resolved) {
        Ok(()) => {
            let note = owned("narrows `").concat(reference).concat("`");
            Narrowed {
                event: LedgerEvent::ManifestDecided {
                    uid: owned(uid),
                    child: child.reference(),
                    parent: Some(owned(reference)),
                    verdict: owned("narrows"),
                    reason: None,
                    signer,
                },
                answer: crate::review::allow(uid, note.as_str()),
            }
        },
        Err(e) => {
            let detail = e.to_text();
            let why = owned("this LexManifest widens its parent `").concat(reference).concat(
                "`: ",
            ).concat(detail.as_str()).concat(
                ". A team lead hands out authority they hold, never authority they do not",
            );
            Narrowed {
                event: LedgerEvent::ManifestDecided {
                    uid: owned(uid),
                    child: child.reference(),
                    parent: Some(owned(reference)),
                    verdict: owned("widens"),
                    reason: Some(detail),
                    signer,
                },
                answer: refuse(uid, why.as_str()),
            }
        },
    }
}

/// Hold a manifest to the document of its parent, or refuse it where that cannot be read.
pub fn finish_narrow(
    request: &AdmissionRequest,
    child: &LexManifest,
    resolved: &Manifest,
    reference: &str,
    parent_document: &str,
    default_budget: Budget,
) -> (r: Result<Narrowed, AdmissionReview>)
    ensures
        model::outcome(r) == last_step(
            request.deep_view(),
            child.deep_view(),
            resolved.deep_view(),
            reference@,
            manifest::accepted(manifest::manifest_of_text(parent_document@), default_budget),
        ),
{
    match LexManifest::read(parent_document, default_budget) {
        Ok((_, parent)) => Ok(hold(request, child, resolved, reference, &parent)),
        Err(e) => {
            let why = owned("parent `").concat(reference).concat("` cannot be read: ").concat(
                e.to_text().as_str(),
            );
            Err(refuse(request.uid.as_str(), why.as_str()))
        },
    }
}

// ---------------------------------------------------------------------------------------------
// Records
// ---------------------------------------------------------------------------------------------
/// An ASCII letter or digit.
pub open spec fn is_plain(c: char) -> bool {
    ||| '0' <= c && c <= '9'
    ||| 'a' <= c && c <= 'z'
    ||| 'A' <= c && c <= 'Z'
}

/// `s` with a hyphen for everything that is no ASCII letter or digit.
pub open spec fn hyphenated(s: Seq<char>) -> Seq<char> {
    Seq::new(
        s.len(),
        |i: int|
            if is_plain(s[i]) {
                s[i]
            } else {
                '-'
            },
    )
}

/// A uid as a part of a file name.
pub fn sanitise(uid: &str) -> (r: String)
    ensures
        r@ == hyphenated(uid@),
{
    let v = chars(uid);
    let mut out = String::new();
    let mut i: usize = 0;
    assert(out@ =~= hyphenated(uid@).subrange(0, 0));
    while i < v.len()
        invariant
            i <= v.len(),
            v@ == uid@,
            out@ == hyphenated(uid@).subrange(0, i as int),
        decreases v.len() - i,
    {
        let c = v[i];
        let plain: bool = ('0' <= c && c <= '9') || ('a' <= c && c <= 'z') || ('A' <= c && c
            <= 'Z');
        out.push(
            if plain {
                c
            } else {
                '-'
            },
        );
        assert(out@ =~= hyphenated(uid@).subrange(0, i + 1));
        i += 1;
    }
    assert(hyphenated(uid@).subrange(0, i as int) =~= hyphenated(uid@));
    out
}

/// The name of the file that keeps a decision's record: sortable by time, and then by the request.
pub fn record_name(seconds: u64, uid: &str) -> (r: String)
    ensures
        r@ == text::decimal(seconds as nat) + "-"@ + hyphenated(uid@) + ".json"@,
{
    show(seconds).concat("-").concat(sanitise(uid).as_str()).concat(".json")
}

// ---------------------------------------------------------------------------------------------
// Laws
// ---------------------------------------------------------------------------------------------
/// A cold cache never decides: while one is cold, every pod is answered that nothing was decided.
pub proof fn a_cold_cache_never_decides(
    q: AdmissionRequestModel,
    ready: Readiness,
    manifests: Seq<ObjectMetaModel>,
)
    requires
        !(ready.manifests && ready.policies && ready.roles && ready.cluster_roles
            && ready.role_bindings && ready.cluster_role_bindings),
    ensures
        exists|why: Seq<char>|
            ceiling_place(q, ready, manifests) == Err::<usize, AdmissionReviewModel>(
                #[trigger] review::undecided(q.uid, why),
            ),
{
    cache::ready_means_every_cache(ready);
    let why = "the caches this verdict depends on are still cold ("@ + text::joined(
        ready.cold_ones(),
        ", "@,
    ) + "), so the cluster state is unknown rather than empty"@;
    assert(ceiling_place(q, ready, manifests) == Err::<usize, AdmissionReviewModel>(
        review::undecided(q.uid, why),
    ));
}

/// Nothing short of a decision allows: a request that was not decided is answered as not allowed,
/// whatever stood in the way.
pub proof fn nothing_short_of_a_decision_allows(
    q: AdmissionRequestModel,
    ready: Readiness,
    manifests: Seq<ObjectMetaModel>,
    m: Result<(LexManifestModel, ManifestModel), manifest::ManifestReadErrorModel>,
    d: Result<DecisionModel, admission::AdmissionErrorModel>,
    snapshot: ClusterSnapshotModel,
)
    ensures
        ceiling_place(q, ready, manifests) matches Err(a) ==> a.response matches Some(r)
            && !r.allowed && r.uid == q.uid,
        ceiling_of(q, m) matches Err(a) ==> a.response matches Some(r) && !r.allowed && r.uid
            == q.uid,
        judged(q, d, snapshot) matches Err(a) ==> a.response matches Some(r) && !r.allowed && r.uid
            == q.uid,
{
}

/// A namespace with no manifest, or with several, is decided by none of them.
pub proof fn a_namespace_needs_exactly_one_manifest(
    q: AdmissionRequestModel,
    ready: Readiness,
    manifests: Seq<ObjectMetaModel>,
)
    ensures
        ceiling_place(q, ready, manifests) is Ok ==> cache::places_in(
            manifests,
            q.namespace,
        ).len() == 1,
        ceiling_place(q, ready, manifests) matches Err(a) ==> a.response matches Some(r)
            && !r.allowed && r.uid == q.uid,
{
}

/// A manifest that names a parent is allowed only by being held to a parent that is listed: one
/// that cannot be found is no permission.
pub proof fn an_unresolvable_parent_is_no_permission(
    q: AdmissionRequestModel,
    crd: LexManifestModel,
    resolved: ManifestModel,
    ready: bool,
    manifests: Seq<ObjectMetaModel>,
    root_namespace: Seq<char>,
)
    requires
        crd.spec.parent is Some,
    ensures
        first_step(q, Ok((crd, resolved)), ready, manifests, root_namespace) matches
            NarrowStepModel::Answer(a) ==> a.response matches Some(r) && !r.allowed,
{
}

/// A manifest that was held to its parent is allowed exactly where it narrows it, and the ledger
/// says the same.
pub proof fn a_manifest_is_allowed_where_it_narrows(
    q: AdmissionRequestModel,
    child: LexManifestModel,
    resolved: ManifestModel,
    reference: Seq<char>,
    parent: ManifestModel,
)
    ensures
        ({
            let n = held_to_parent(q, child, resolved, reference, parent);
            let narrows = manifest::manifest_widening(parent, resolved) is None;
            &&& n.answer.response is Some
            &&& n.answer.response->0.uid == q.uid
            &&& n.answer.response->0.allowed <==> narrows
            &&& n.event->ManifestDecided_verdict == (if narrows {
                "narrows"@
            } else {
                "widens"@
            })
        }),
{
}

/// The state that a pod is held to is of its own namespace, its own labels and its own account.
pub proof fn a_pod_is_held_to_its_own_state(
    q: AdmissionRequestModel,
    listed: ListedModel,
    prefixes: Seq<Seq<char>>,
)
    ensures
        ({
            let subject = PodSubjectModel {
                namespace: q.namespace,
                labels: snapshot::labels_of(q.object),
                service_account: snapshot::account_of(q.object),
            };
            let s = snapshot_for(q, listed, prefixes);
            &&& s.egress == snapshot::enforced_egress(subject, listed.policies)
            &&& s.rbac == snapshot::held_rules(
                subject,
                listed.roles,
                listed.cluster_roles,
                listed.role_bindings,
                listed.cluster_role_bindings,
            )
            &&& s.trusted_image_prefixes == prefixes
        }),
{
}

/// A pod that was decided is witnessed as it was asked for and as it was decided, with the head and the
/// length of its record, the state that it was held to and who submitted it.
pub proof fn a_decided_pod_is_witnessed_as_decided(
    q: AdmissionRequestModel,
    j: JudgedModel,
    head: Seq<char>,
    entries: u64,
)
    ensures
        pod_witness(q, j, head, entries) matches LedgerEventModel::PodDecided {
            uid,
            namespace,
            name,
            verdict,
            decision_head,
            decision_entries,
            snapshot_sha256,
            signer,
        } && uid == q.uid && namespace == q.namespace && name == q.who().name && decision_head == head
            && decision_entries == entries && snapshot_sha256 == j.snapshot_sha256 && signer
            == q.who().signer && (verdict == "admitted"@ <==> j.decision.verdict is Admit) && (verdict
            == "refused"@ <==> j.decision.verdict is Deny),
{
    reveal_strlit("admitted");
    reveal_strlit("refused");
    assert("admitted"@.len() == 8 && "refused"@.len() == 7);
}

/// A manifest that names no parent is allowed, one that cannot be read is refused, and one that names a
/// parent is compared with the manifest that the reference finds, or is not allowed.
pub proof fn a_manifest_is_compared_with_the_parent_it_names(
    q: AdmissionRequestModel,
    child: Result<(LexManifestModel, ManifestModel), manifest::ManifestReadErrorModel>,
    ready: bool,
    manifests: Seq<ObjectMetaModel>,
    root: Seq<char>,
)
    requires
        manifests.len() <= usize::MAX,
    ensures
        child is Err ==> (first_step(q, child, ready, manifests, root) matches
            NarrowStepModel::Answer(a) && (a.response matches Some(r) && !r.allowed)),
        child matches Ok((crd, resolved)) ==> (crd.spec.parent is None ==> (first_step(
            q,
            child,
            ready,
            manifests,
            root,
        ) matches NarrowStepModel::Answer(a) && (a.response matches Some(r) && r.allowed))),
        child matches Ok((crd, resolved)) ==> (crd.spec.parent matches Some(reference) ==> match (
        first_step(q, child, ready, manifests, root)) {
            NarrowStepModel::Answer(a) => (a.response matches Some(r) && !r.allowed) && (!ready
                || cache::referred_to(manifests, reference, root) is None),
            NarrowStepModel::Compare { child: c, resolved: m, reference: named, parent } => ready && c
                == crd && m == resolved && named == reference && (cache::referred_to(
                manifests,
                reference,
                root,
            ) matches Some(i) && parent == i as usize),
        }),
{
}

/// What is decided of a manifest is answered and witnessed alike: it narrows where nothing in it is
/// larger than its parent's, and otherwise widens and is refused with the reason.
pub proof fn a_manifest_is_witnessed_as_decided(
    q: AdmissionRequestModel,
    child: LexManifestModel,
    resolved: ManifestModel,
    reference: Seq<char>,
    parent: ManifestModel,
)
    ensures
        ({
            let n = held_to_parent(q, child, resolved, reference, parent);
            let w = manifest::manifest_widening(parent, resolved);
            &&& n.event == (LedgerEventModel::ManifestDecided {
                uid: q.uid,
                child: child.named(),
                parent: Some(reference),
                verdict: if w is None {
                    "narrows"@
                } else {
                    "widens"@
                },
                reason: if w is None {
                    None
                } else {
                    Some(w->0.message())
                },
                signer: q.who().signer,
            })
            &&& n.answer.response is Some
            &&& n.answer.response->0.allowed <==> w is None
            &&& w is Some ==> n.answer.response->0.status is Some
                && n.answer.response->0.status->0.code == 403
        }),
{
}

/// A uid is made safe for a file's name: letters and digits stay, anything else becomes a hyphen, and
/// nothing is added or lost.
pub proof fn a_file_name_holds_only_plain_characters(uid: Seq<char>, i: int)
    requires
        0 <= i < uid.len(),
    ensures
        hyphenated(uid).len() == uid.len(),
        ({
            let c = uid[i];
            let plain = '0' <= c <= '9' || 'a' <= c <= 'z' || 'A' <= c <= 'Z';
            hyphenated(uid)[i] == (if plain {
                c
            } else {
                '-'
            })
        }),
{
}

/// With every cache warm, a namespace with exactly one manifest is held to that one, and any other is
/// not decided.
pub proof fn a_namespace_is_held_to_its_one_manifest(
    q: AdmissionRequestModel,
    ready: Readiness,
    manifests: Seq<ObjectMetaModel>,
    i: int,
)
    requires
        manifests.len() <= usize::MAX,
        ready.manifests && ready.policies && ready.roles && ready.cluster_roles
            && ready.role_bindings && ready.cluster_role_bindings,
    ensures
        0 <= i < manifests.len() && manifests[i].namespace == Some(q.namespace) && (forall|j: int|
            0 <= j < manifests.len() && j != i ==> (#[trigger] manifests[j]).namespace != Some(
                q.namespace,
            )) ==> ceiling_place(q, ready, manifests) == Ok::<usize, AdmissionReviewModel>(
            i as usize,
        ),
        (forall|j: int|
            0 <= j < manifests.len() ==> (#[trigger] manifests[j]).namespace != Some(q.namespace))
            ==> ceiling_place(q, ready, manifests) is Err,
{
    cache::ready_means_every_cache(ready);
    cache::the_one_manifest_in_a_namespace_governs(manifests, q.namespace, i);
}

/// A request is judged by the decision on it, with the state that it was held to, and is not decided
/// where there is none.
pub proof fn a_request_is_judged_by_its_decision(
    q: AdmissionRequestModel,
    d: Result<DecisionModel, admission::AdmissionErrorModel>,
    s: ClusterSnapshotModel,
)
    ensures
        d matches Ok(x) ==> (judged(q, d, s) matches Ok(j) && j.decision == x && j.snapshot_sha256
            == s.id()),
        d matches Err(e) ==> judged(q, d, s) == Err::<JudgedModel, AdmissionReviewModel>(
            review::undecided(q.uid, e.message()),
        ),
{
}

} // verus!
