//! The running ledger of decision heads.
//!
//! Each admission has a record of its own, so deleting a whole record would leave no gap to notice.
//! The ledger is one long-lived sequence that the wall adds to after every decision: enough to show
//! that a decision happened and what it said, and the head of the record that says the rest. It is
//! a witness, not a copy.
use vstd::prelude::*;

use crate::canonical;
use crate::json;
use crate::json::{member, object, Json, Tree, Writable};
use crate::text::{listed, owned};

verus! {

/// One decision, witnessed.
#[derive(Debug, Clone, PartialEq, Eq)]
pub enum LedgerEvent {
    /// The wall started, and with which sealing identity. First in every ledger: one that does not
    /// begin here has lost its head, whatever its hashes say.
    WallStarted { signer: Option<String>, audit_dir: Option<String> },
    /// A pod admission, with the head of its own record and the cluster state that it depended on.
    PodDecided {
        uid: String,
        namespace: String,
        name: String,
        verdict: String,
        decision_head: String,
        decision_entries: u64,
        snapshot_sha256: String,
        signer: Option<String>,
    },
    /// A check that a manifest narrows its parent.
    ManifestDecided {
        uid: String,
        child: String,
        parent: Option<String>,
        verdict: String,
        reason: Option<String>,
        signer: Option<String>,
    },
}

/// What a [`LedgerEvent`] says.
#[verifier::ext_equal]
pub enum LedgerEventModel {
    WallStarted { signer: Option<Seq<char>>, audit_dir: Option<Seq<char>> },
    PodDecided {
        uid: Seq<char>,
        namespace: Seq<char>,
        name: Seq<char>,
        verdict: Seq<char>,
        decision_head: Seq<char>,
        decision_entries: u64,
        snapshot_sha256: Seq<char>,
        signer: Option<Seq<char>>,
    },
    ManifestDecided {
        uid: Seq<char>,
        child: Seq<char>,
        parent: Option<Seq<char>>,
        verdict: Seq<char>,
        reason: Option<Seq<char>>,
        signer: Option<Seq<char>>,
    },
}

impl DeepView for LedgerEvent {
    type V = LedgerEventModel;

    open spec fn deep_view(&self) -> LedgerEventModel {
        match self {
            LedgerEvent::WallStarted { signer, audit_dir } => LedgerEventModel::WallStarted {
                signer: signer.deep_view(),
                audit_dir: audit_dir.deep_view(),
            },
            LedgerEvent::PodDecided {
                uid,
                namespace,
                name,
                verdict,
                decision_head,
                decision_entries,
                snapshot_sha256,
                signer,
            } => LedgerEventModel::PodDecided {
                uid: uid.deep_view(),
                namespace: namespace.deep_view(),
                name: name.deep_view(),
                verdict: verdict.deep_view(),
                decision_head: decision_head.deep_view(),
                decision_entries: decision_entries.deep_view(),
                snapshot_sha256: snapshot_sha256.deep_view(),
                signer: signer.deep_view(),
            },
            LedgerEvent::ManifestDecided {
                uid,
                child,
                parent,
                verdict,
                reason,
                signer,
            } => LedgerEventModel::ManifestDecided {
                uid: uid.deep_view(),
                child: child.deep_view(),
                parent: parent.deep_view(),
                verdict: verdict.deep_view(),
                reason: reason.deep_view(),
                signer: signer.deep_view(),
            },
        }
    }
}

impl Writable for LedgerEvent {
    open spec fn tree(v: LedgerEventModel) -> Tree {
        match v {
            LedgerEventModel::WallStarted { signer, audit_dir } => Tree::Object(
                seq![
                    ("kind"@, Tree::Text("wall_started"@)),
                ] + json::optional_text("signer"@, signer) + json::optional_text("audit_dir"@, audit_dir),
            ),
            LedgerEventModel::PodDecided {
                uid,
                namespace,
                name,
                verdict,
                decision_head,
                decision_entries,
                snapshot_sha256,
                signer,
            } => Tree::Object(
                seq![
                    ("kind"@, Tree::Text("pod_decided"@)),
                    ("uid"@, <String as Writable>::tree(uid)),
                    ("namespace"@, <String as Writable>::tree(namespace)),
                    ("name"@, <String as Writable>::tree(name)),
                    ("verdict"@, <String as Writable>::tree(verdict)),
                    ("decision_head"@, <String as Writable>::tree(decision_head)),
                    ("decision_entries"@, <u64 as Writable>::tree(decision_entries)),
                    ("snapshot_sha256"@, <String as Writable>::tree(snapshot_sha256)),
                ] + json::optional_text("signer"@, signer),
            ),
            LedgerEventModel::ManifestDecided {
                uid,
                child,
                parent,
                verdict,
                reason,
                signer,
            } => Tree::Object(
                seq![
                    ("kind"@, Tree::Text("manifest_decided"@)),
                    ("uid"@, <String as Writable>::tree(uid)),
                    ("child"@, <String as Writable>::tree(child)),
                ] + json::optional_text("parent"@, parent) + seq![
                    ("verdict"@, <String as Writable>::tree(verdict)),
                ] + json::optional_text("reason"@, reason) + json::optional_text("signer"@, signer),
            ),
        }
    }

    fn to_json(&self) -> (r: Json) {
        let mut m: Vec<(String, Json)> = Vec::new();
        match self {
            LedgerEvent::WallStarted { signer, audit_dir } => {
                m.push(member("kind", Json::Text(owned("wall_started"))));
                if let Some(x) = signer {
                    m.push(member("signer", x.to_json()));
                }
                if let Some(x) = audit_dir {
                    m.push(member("audit_dir", x.to_json()));
                }
            },
            LedgerEvent::PodDecided {
                uid,
                namespace,
                name,
                verdict,
                decision_head,
                decision_entries,
                snapshot_sha256,
                signer,
            } => {
                m.push(member("kind", Json::Text(owned("pod_decided"))));
                m.push(member("uid", uid.to_json()));
                m.push(member("namespace", namespace.to_json()));
                m.push(member("name", name.to_json()));
                m.push(member("verdict", verdict.to_json()));
                m.push(member("decision_head", decision_head.to_json()));
                m.push(member("decision_entries", decision_entries.to_json()));
                m.push(member("snapshot_sha256", snapshot_sha256.to_json()));
                if let Some(x) = signer {
                    m.push(member("signer", x.to_json()));
                }
            },
            LedgerEvent::ManifestDecided { uid, child, parent, verdict, reason, signer } => {
                m.push(member("kind", Json::Text(owned("manifest_decided"))));
                m.push(member("uid", uid.to_json()));
                m.push(member("child", child.to_json()));
                if let Some(x) = parent {
                    m.push(member("parent", x.to_json()));
                }
                m.push(member("verdict", verdict.to_json()));
                if let Some(x) = reason {
                    m.push(member("reason", x.to_json()));
                }
                if let Some(x) = signer {
                    m.push(member("signer", x.to_json()));
                }
            },
        }
        let j = object(m);
        assert(j@->Object_0 =~= Self::tree(self.deep_view())->Object_0);
        j
    }
}

/// What a ledger and the decision records that were found say about each other.
#[derive(Debug, Clone, PartialEq, Eq)]
pub struct Reconciliation {
    /// Heads that the ledger witnesses and no record provides.
    pub missing: Vec<String>,
    /// Records that are there and that the ledger never witnessed.
    pub unwitnessed: Vec<String>,
    /// Decisions that are in both.
    pub matched: usize,
}

/// What a [`Reconciliation`] says.
#[verifier::ext_equal]
pub struct ReconciliationModel {
    pub missing: Seq<Seq<char>>,
    pub unwitnessed: Seq<Seq<char>>,
    pub matched: usize,
}

impl DeepView for Reconciliation {
    type V = ReconciliationModel;

    open spec fn deep_view(&self) -> ReconciliationModel {
        ReconciliationModel {
            missing: self.missing.deep_view(),
            unwitnessed: self.unwitnessed.deep_view(),
            matched: self.matched.deep_view(),
        }
    }
}

/// The ledger: its events, oldest first.
pub type Ledger = Vec<LedgerEvent>;

impl LedgerEventModel {
    /// The head of the decision record that this entry witnesses, if it witnesses one.
    pub open spec fn head(self) -> Option<Seq<char>> {
        match self {
            LedgerEventModel::PodDecided { decision_head, .. } => Some(decision_head),
            _ => None,
        }
    }

    /// The entry in one line.
    pub open spec fn line(self) -> Seq<char> {
        match self {
            LedgerEventModel::WallStarted { .. } => "wall started"@,
            LedgerEventModel::PodDecided { namespace, name, verdict, .. } => namespace + "/"@ + name
                + " "@ + verdict,
            LedgerEventModel::ManifestDecided { child, verdict, .. } => child + " "@ + verdict,
        }
    }
}

impl LedgerEvent {
    /// What the hash of every entry of the ledger begins with: another text than for the record of a
    /// decision, so that no entry can be moved from one to the other.
    pub fn domain() -> (r: &'static str)
        ensures
            r@ == "lex.k8s.ledger.v1"@,
    {
        "lex.k8s.ledger.v1"
    }

    /// The head of the decision record that this entry witnesses, if it witnesses one.
    pub fn decision_head(&self) -> (r: Option<&str>)
        ensures
            r.deep_view() == self.deep_view().head(),
    {
        match self {
            LedgerEvent::PodDecided { decision_head, .. } => Some(decision_head.as_str()),
            _ => None,
        }
    }

    /// The entry in one line.
    pub fn subject(&self) -> (r: String)
        ensures
            r@ == self.deep_view().line(),
    {
        match self {
            LedgerEvent::WallStarted { .. } => owned("wall started"),
            LedgerEvent::PodDecided { namespace, name, verdict, .. } => namespace.clone().concat(
                "/",
            ).concat(name.as_str()).concat(" ").concat(verdict.as_str()),
            LedgerEvent::ManifestDecided { child, verdict, .. } => child.clone().concat(" ").concat(
                verdict.as_str(),
            ),
        }
    }
}

impl ReconciliationModel {
    /// The two agree, in both directions.
    pub open spec fn clean(self) -> bool {
        self.missing.len() == 0 && self.unwitnessed.len() == 0
    }
}

impl Reconciliation {
    /// Do the two agree, in both directions?
    pub fn is_clean(&self) -> (r: bool)
        ensures
            r == self.deep_view().clean(),
    {
        self.missing.len() == 0 && self.unwitnessed.len() == 0
    }
}

// ---------------------------------------------------------------------------------------------
// Reconciling
// ---------------------------------------------------------------------------------------------
/// The heads that a ledger witnesses, in order.
pub open spec fn witnessed(events: Seq<LedgerEventModel>) -> Seq<Seq<char>>
    decreases events.len(),
{
    if events.len() == 0 {
        Seq::empty()
    } else {
        let before = witnessed(events.drop_last());
        match events.last().head() {
            Some(h) => before.push(h),
            None => before,
        }
    }
}

/// The entries of `items` that are not among `others`, in order.
pub open spec fn not_among(items: Seq<Seq<char>>, others: Seq<Seq<char>>) -> Seq<Seq<char>>
    decreases items.len(),
{
    if items.len() == 0 {
        Seq::empty()
    } else {
        let before = not_among(items.drop_last(), others);
        if others.contains(items.last()) {
            before
        } else {
            before.push(items.last())
        }
    }
}

/// What a ledger and the heads that were found say about each other.
pub open spec fn reconciled(
    events: Seq<LedgerEventModel>,
    found: Seq<Seq<char>>,
) -> ReconciliationModel {
    let heads = witnessed(events);
    ReconciliationModel {
        missing: not_among(heads, found),
        unwitnessed: not_among(found, heads),
        matched: (heads.len() - not_among(heads, found).len()) as usize,
    }
}

proof fn not_among_is_shorter(items: Seq<Seq<char>>, others: Seq<Seq<char>>)
    ensures
        not_among(items, others).len() <= items.len(),
    decreases items.len(),
{
    if items.len() > 0 {
        not_among_is_shorter(items.drop_last(), others);
    }
}

/// The entries of `items` that are not among `others`.
fn left_over(items: &Vec<String>, others: &Vec<String>) -> (r: Vec<String>)
    ensures
        r.deep_view() == not_among(items.deep_view(), others.deep_view()),
{
    let ghost all = items.deep_view();
    let mut out: Vec<String> = Vec::new();
    let mut i: usize = 0;
    assert(out.deep_view() =~= not_among(all.subrange(0, 0), others.deep_view()));
    while i < items.len()
        invariant
            i <= items.len(),
            all == items.deep_view(),
            out.deep_view() == not_among(all.subrange(0, i as int), others.deep_view()),
        decreases items.len() - i,
    {
        let ghost next = all.subrange(0, i + 1);
        assert(next.drop_last() =~= all.subrange(0, i as int));
        assert(next.last() == items@[i as int]@);
        if !listed(others, items[i].as_str()) {
            let ghost before = out.deep_view();
            out.push(items[i].clone());
            assert(out.deep_view() =~= before.push(next.last()));
        }
        i += 1;
    }
    assert(all.subrange(0, i as int) =~= all);
    out
}

/// The heads that a ledger witnesses.
fn heads_of(ledger: &Ledger) -> (r: Vec<String>)
    ensures
        r.deep_view() == witnessed(ledger.deep_view()),
{
    let ghost all = ledger.deep_view();
    let mut out: Vec<String> = Vec::new();
    let mut i: usize = 0;
    assert(out.deep_view() =~= witnessed(all.subrange(0, 0)));
    while i < ledger.len()
        invariant
            i <= ledger.len(),
            all == ledger.deep_view(),
            out.deep_view() == witnessed(all.subrange(0, i as int)),
        decreases ledger.len() - i,
    {
        let ghost next = all.subrange(0, i + 1);
        assert(next.drop_last() =~= all.subrange(0, i as int));
        assert(next.last() == ledger@[i as int].deep_view());
        if let Some(h) = ledger[i].decision_head() {
            let ghost before = out.deep_view();
            out.push(owned(h));
            assert(out.deep_view() =~= before.push(h@));
        }
        i += 1;
    }
    assert(all.subrange(0, i as int) =~= all);
    out
}

/// Hold a ledger and the heads of the records that were found to each other, in both directions.
/// A head without a record is a deleted decision; a record that the ledger does not name is a
/// planted one, or one of a ledger that lost its tail.
pub fn reconcile(ledger: &Ledger, found_heads: &Vec<String>) -> (r: Reconciliation)
    ensures
        r.deep_view() == reconciled(ledger.deep_view(), found_heads.deep_view()),
{
    let heads = heads_of(ledger);
    let missing = left_over(&heads, found_heads);
    let unwitnessed = left_over(found_heads, &heads);
    proof {
        not_among_is_shorter(heads.deep_view(), found_heads.deep_view());
        assert(heads.deep_view().len() == heads.len());
        assert(missing.deep_view().len() == missing.len());
    }
    let matched: usize = heads.len() - missing.len();
    Reconciliation { missing, unwitnessed, matched }
}

// ---------------------------------------------------------------------------------------------
// Laws
// ---------------------------------------------------------------------------------------------
/// What is not among others is exactly the entries that the others lack.
pub proof fn what_is_left_over(items: Seq<Seq<char>>, others: Seq<Seq<char>>, x: Seq<char>)
    ensures
        not_among(items, others).contains(x) <==> items.contains(x) && !others.contains(x),
    decreases items.len(),
{
    if items.len() > 0 {
        let before = items.drop_last();
        let rest = not_among(before, others);
        what_is_left_over(before, others, x);
        if items.contains(x) {
            let k = choose|k: int| 0 <= k < items.len() && items[k] == x;
            if k < items.len() - 1 {
                assert(before[k] == x);
            }
        }
        if before.contains(x) {
            let k = choose|k: int| 0 <= k < before.len() && before[k] == x;
            assert(items[k] == x);
        }
        if !others.contains(items.last()) {
            let all = rest.push(items.last());
            assert(all[all.len() - 1] == items.last());
            if rest.contains(x) {
                let k = choose|k: int| 0 <= k < rest.len() && rest[k] == x;
                assert(all[k] == x);
            }
            if all.contains(x) {
                let k = choose|k: int| 0 <= k < all.len() && all[k] == x;
                if k < rest.len() {
                    assert(rest[k] == x);
                }
            }
        }
        assert(items[items.len() - 1] == items.last());
    }
}

/// A witnessed decision without a record is reported, and so is a record that nobody witnessed; and
/// nothing else is.
pub proof fn a_gap_is_reported_in_both_directions(
    events: Seq<LedgerEventModel>,
    found: Seq<Seq<char>>,
    head: Seq<char>,
)
    ensures
        reconciled(events, found).missing.contains(head) <==> witnessed(events).contains(head)
            && !found.contains(head),
        reconciled(events, found).unwitnessed.contains(head) <==> found.contains(head)
            && !witnessed(events).contains(head),
{
    what_is_left_over(witnessed(events), found, head);
    what_is_left_over(found, witnessed(events), head);
}

/// The two records agree exactly where they hold the same heads.
pub proof fn a_clean_reconciliation_holds_the_same_heads(
    events: Seq<LedgerEventModel>,
    found: Seq<Seq<char>>,
)
    ensures
        reconciled(events, found).clean() <==> forall|h: Seq<char>|
            witnessed(events).contains(h) <==> found.contains(h),
{
    let r = reconciled(events, found);
    if r.clean() {
        assert forall|h: Seq<char>| witnessed(events).contains(h) <==> found.contains(h) by {
            a_gap_is_reported_in_both_directions(events, found, h);
        }
    }
    if forall|h: Seq<char>| witnessed(events).contains(h) <==> found.contains(h) {
        if r.missing.len() > 0 {
            assert(r.missing.contains(r.missing[0]));
            a_gap_is_reported_in_both_directions(events, found, r.missing[0]);
        }
        if r.unwitnessed.len() > 0 {
            assert(r.unwitnessed.contains(r.unwitnessed[0]));
            a_gap_is_reported_in_both_directions(events, found, r.unwitnessed[0]);
        }
    }
}

/// A head is witnessed exactly where an entry names it.
pub proof fn every_decided_pod_is_witnessed(events: Seq<LedgerEventModel>, h: Seq<char>)
    ensures
        witnessed(events).contains(h) <==> exists|i: int|
            0 <= i < events.len() && (#[trigger] events[i]).head() == Some(h),
    decreases events.len(),
{
    if events.len() > 0 {
        let before = events.drop_last();
        let rest = witnessed(before);
        every_decided_pod_is_witnessed(before, h);
        if exists|i: int| 0 <= i < events.len() && (#[trigger] events[i]).head() == Some(h) {
            let i = choose|i: int| 0 <= i < events.len() && (#[trigger] events[i]).head() == Some(h);
            if i < before.len() {
                assert(before[i].head() == Some(h));
            }
        }
        if rest.contains(h) {
            let i = choose|i: int| 0 <= i < before.len() && (#[trigger] before[i]).head() == Some(h);
            assert(events[i].head() == Some(h));
        }
        match events.last().head() {
            Some(x) => {
                let all = rest.push(x);
                assert(all[all.len() - 1] == x);
                assert(events[events.len() - 1].head() == Some(x));
                if rest.contains(h) {
                    let k = choose|k: int| 0 <= k < rest.len() && rest[k] == h;
                    assert(all[k] == h);
                }
                if all.contains(h) {
                    let k = choose|k: int| 0 <= k < all.len() && all[k] == h;
                    if k < rest.len() {
                        assert(rest[k] == h);
                    }
                }
            },
            None => {},
        }
    }
}

proof fn an_entry_is_well_written(e: LedgerEventModel)
    ensures
        canonical::well_written(LedgerEvent::tree(e)),
{
    if let LedgerEventModel::PodDecided { decision_entries, .. } = e {
        canonical::a_number_is_well_written(decision_entries, decision_entries);
    }
    canonical::members_are_well_written(LedgerEvent::tree(e)->Object_0);
}

/// No two entries of a ledger are written alike: a witness that says something else is another
/// text.
pub proof fn no_two_entries_are_written_alike(a: LedgerEventModel, b: LedgerEventModel)
    requires
        json::rendered(LedgerEvent::tree(a)) == json::rendered(LedgerEvent::tree(b)),
    ensures
        a == b,
{
    an_entry_is_well_written(a);
    an_entry_is_well_written(b);
    canonical::a_text_says_one_document(LedgerEvent::tree(a), LedgerEvent::tree(b));
    let x = LedgerEvent::tree(a)->Object_0;
    let y = LedgerEvent::tree(b)->Object_0;
    let n = x.len() as int;
    reveal_strlit("wall_started");
    reveal_strlit("pod_decided");
    reveal_strlit("manifest_decided");
    reveal_strlit("signer");
    reveal_strlit("audit_dir");
    reveal_strlit("parent");
    reveal_strlit("verdict");
    reveal_strlit("reason");
    assert(x[0].1->Text_0.len() == y[0].1->Text_0.len());
    assert(n > 1 ==> x[1] == y[1]);
    assert(n > 2 ==> x[2] == y[2]);
    match (a, b) {
        (
            LedgerEventModel::PodDecided { decision_entries: p, .. },
            LedgerEventModel::PodDecided { decision_entries: q, .. },
        ) => {
            assert(x[3] == y[3] && x[4] == y[4] && x[5] == y[5] && x[6] == y[6] && x[7] == y[7]);
            assert(x[n - 1] == y[n - 1]);
            canonical::a_number_is_well_written(p, q);
        },
        (LedgerEventModel::ManifestDecided { .. }, LedgerEventModel::ManifestDecided { .. }) => {
            assert(x[3] == y[3]);
            assert("reason"@[0] == 'r' && "signer"@[0] == 's');
            assert(n > 4 ==> x[4] == y[4]);
            assert(n > 5 ==> x[5] == y[5]);
            assert(n > 6 ==> x[6] == y[6]);
        },
        _ => {},
    }
}

/// An entry of a decision's record is never replayed as an entry of the ledger, nor the reverse:
/// whatever follows the two domains, the texts differ.
pub proof fn a_decision_is_never_replayed_as_a_witness(decision: Seq<char>, witness: Seq<char>)
    ensures
        "lex.k8s.audit.v1"@ + decision != "lex.k8s.ledger.v1"@ + witness,
{
    reveal_strlit("lex.k8s.audit.v1");
    reveal_strlit("lex.k8s.ledger.v1");
    assert(("lex.k8s.audit.v1"@ + decision)[8] == 'a');
    assert(("lex.k8s.ledger.v1"@ + witness)[8] == 'l');
}

/// A ledger witnesses exactly the records of the pods that it says were decided.
pub proof fn only_a_decided_pod_is_witnessed(events: Seq<LedgerEventModel>, h: Seq<char>)
    ensures
        witnessed(events).contains(h) <==> exists|i: int|
            0 <= i < events.len() && (#[trigger] events[i] matches LedgerEventModel::PodDecided {
                decision_head,
                ..
            } && decision_head == h),
{
    every_decided_pod_is_witnessed(events, h);
    if witnessed(events).contains(h) {
        let i = choose|i: int| 0 <= i < events.len() && (#[trigger] events[i]).head() == Some(h);
        assert(events[i] is PodDecided);
    }
    if exists|i: int|
        0 <= i < events.len() && (#[trigger] events[i] matches LedgerEventModel::PodDecided {
            decision_head,
            ..
        } && decision_head == h) {
        let i = choose|i: int|
            0 <= i < events.len() && (#[trigger] events[i] matches LedgerEventModel::PodDecided {
                decision_head,
                ..
            } && decision_head == h);
        assert(events[i].head() == Some(h));
    }
}

/// One more entry counts once: as matched where its record is found, as missing where it is not, and
/// not at all where it is of no pod.
pub proof fn one_more_entry_counts_once(
    events: Seq<LedgerEventModel>,
    found: Seq<Seq<char>>,
    e: LedgerEventModel,
)
    requires
        witnessed(events).len() < usize::MAX,
    ensures
        ({
            let before = reconciled(events, found);
            let after = reconciled(events.push(e), found);
            match e {
                LedgerEventModel::PodDecided { decision_head, .. } => if found.contains(
                    decision_head,
                ) {
                    after.matched == before.matched + 1 && after.missing == before.missing
                } else {
                    after.matched == before.matched && after.missing == before.missing.push(
                        decision_head,
                    )
                },
                _ => after == before,
            }
        }),
        reconciled(Seq::empty(), found).matched == 0,
{
    assert(events.push(e).drop_last() =~= events);
    let heads = witnessed(events);
    not_among_is_shorter(heads, found);
    if let LedgerEventModel::PodDecided { decision_head, .. } = e {
        assert(heads.push(decision_head).drop_last() =~= heads);
    }
}

/// A reconciliation is clean exactly where nothing is missing and nothing is unwitnessed, and an entry
/// is described by what it decided of what.
pub proof fn an_entry_is_described_by_what_it_decided(r: ReconciliationModel, e: LedgerEventModel)
    ensures
        r.clean() <==> r.missing.len() == 0 && r.unwitnessed.len() == 0,
        e matches LedgerEventModel::PodDecided { namespace, name, verdict, .. } ==> e.line()
            == namespace + "/"@ + name + " "@ + verdict,
        e matches LedgerEventModel::ManifestDecided { child, verdict, .. } ==> e.line() == child
            + " "@ + verdict,
{
}

/// A start is recorded with each part under its own name.
#[verifier::rlimit(50)]
pub proof fn a_start_is_recorded_under_its_names(v: LedgerEventModel)
    ensures
        v matches LedgerEventModel::WallStarted {
            signer,
            audit_dir,
        } ==> {
            let t = LedgerEvent::tree(v);
            &&& t.member("kind"@) == Some(Tree::Text("wall_started"@))
            &&& t.member("signer"@) == (match signer {
                Some(x) => Some(Tree::Text(x)),
                None => None,
            })
            &&& t.member("audit_dir"@) == (match audit_dir {
                Some(x) => Some(Tree::Text(x)),
                None => None,
            })
        },
{
    if let LedgerEventModel::WallStarted {
        signer,
        audit_dir,
        .. } = v {
        let all = LedgerEvent::tree(v)->Object_0;
        reveal_strlit("kind");
        reveal_strlit("signer");
        reveal_strlit("audit_dir");
        assert("kind"@.len() != "signer"@.len());
        assert("kind"@.len() != "audit_dir"@.len());
        assert("signer"@.len() != "audit_dir"@.len());
        if signer is Some && audit_dir is Some {
            assert(all[0].0 == "kind"@);
            json::a_first_member_is_found(all, 0);
            assert(all[1].0 == "signer"@);
            json::a_first_member_is_found(all, 1);
            assert(all[2].0 == "audit_dir"@);
            json::a_first_member_is_found(all, 2);
            assert(all.len() == 3);
        }
        if signer is Some && audit_dir is None {
            assert(all[0].0 == "kind"@);
            json::a_first_member_is_found(all, 0);
            assert(all[1].0 == "signer"@);
            json::a_first_member_is_found(all, 1);
            assert(all.len() == 2);
            json::a_member_is_found_by_name(all, "audit_dir"@);
        }
        if signer is None && audit_dir is Some {
            assert(all[0].0 == "kind"@);
            json::a_first_member_is_found(all, 0);
            assert(all[1].0 == "audit_dir"@);
            json::a_first_member_is_found(all, 1);
            assert(all.len() == 2);
            json::a_member_is_found_by_name(all, "signer"@);
        }
        if signer is None && audit_dir is None {
            assert(all[0].0 == "kind"@);
            json::a_first_member_is_found(all, 0);
            assert(all.len() == 1);
            json::a_member_is_found_by_name(all, "signer"@);
            json::a_member_is_found_by_name(all, "audit_dir"@);
        }
    }
}

/// A decided pod is recorded with each part under its own name.
#[verifier::rlimit(50)]
pub proof fn a_decided_pod_is_recorded_under_its_names(v: LedgerEventModel)
    ensures
        v matches LedgerEventModel::PodDecided {
            uid,
            namespace,
            name,
            verdict,
            decision_head,
            decision_entries,
            snapshot_sha256,
            signer,
        } ==> {
            let t = LedgerEvent::tree(v);
            &&& t.member("kind"@) == Some(Tree::Text("pod_decided"@))
            &&& t.member("uid"@) == Some(Tree::Text(uid))
            &&& t.member("namespace"@) == Some(Tree::Text(namespace))
            &&& t.member("name"@) == Some(Tree::Text(name))
            &&& t.member("verdict"@) == Some(Tree::Text(verdict))
            &&& t.member("decision_head"@) == Some(Tree::Text(decision_head))
            &&& t.member("decision_entries"@) == Some(<u64 as Writable>::tree(decision_entries))
            &&& t.member("snapshot_sha256"@) == Some(Tree::Text(snapshot_sha256))
            &&& t.member("signer"@) == (match signer {
                Some(x) => Some(Tree::Text(x)),
                None => None,
            })
        },
{
    if let LedgerEventModel::PodDecided {
        signer,
        .. } = v {
        let all = LedgerEvent::tree(v)->Object_0;
        reveal_strlit("kind");
        reveal_strlit("uid");
        reveal_strlit("namespace");
        reveal_strlit("name");
        reveal_strlit("verdict");
        reveal_strlit("decision_head");
        reveal_strlit("decision_entries");
        reveal_strlit("snapshot_sha256");
        reveal_strlit("signer");
        assert("kind"@.len() != "uid"@.len());
        assert("kind"@.len() != "namespace"@.len());
        assert("kind"@[0] != "name"@[0]);
        assert("kind"@.len() != "verdict"@.len());
        assert("kind"@.len() != "decision_head"@.len());
        assert("kind"@.len() != "decision_entries"@.len());
        assert("kind"@.len() != "snapshot_sha256"@.len());
        assert("kind"@.len() != "signer"@.len());
        assert("uid"@.len() != "namespace"@.len());
        assert("uid"@.len() != "name"@.len());
        assert("uid"@.len() != "verdict"@.len());
        assert("uid"@.len() != "decision_head"@.len());
        assert("uid"@.len() != "decision_entries"@.len());
        assert("uid"@.len() != "snapshot_sha256"@.len());
        assert("uid"@.len() != "signer"@.len());
        assert("namespace"@.len() != "name"@.len());
        assert("namespace"@.len() != "verdict"@.len());
        assert("namespace"@.len() != "decision_head"@.len());
        assert("namespace"@.len() != "decision_entries"@.len());
        assert("namespace"@.len() != "snapshot_sha256"@.len());
        assert("namespace"@.len() != "signer"@.len());
        assert("name"@.len() != "verdict"@.len());
        assert("name"@.len() != "decision_head"@.len());
        assert("name"@.len() != "decision_entries"@.len());
        assert("name"@.len() != "snapshot_sha256"@.len());
        assert("name"@.len() != "signer"@.len());
        assert("verdict"@.len() != "decision_head"@.len());
        assert("verdict"@.len() != "decision_entries"@.len());
        assert("verdict"@.len() != "snapshot_sha256"@.len());
        assert("verdict"@.len() != "signer"@.len());
        assert("decision_head"@.len() != "decision_entries"@.len());
        assert("decision_head"@.len() != "snapshot_sha256"@.len());
        assert("decision_head"@.len() != "signer"@.len());
        assert("decision_entries"@.len() != "snapshot_sha256"@.len());
        assert("decision_entries"@.len() != "signer"@.len());
        assert("snapshot_sha256"@.len() != "signer"@.len());
        if signer is Some {
            assert(all[0].0 == "kind"@);
            json::a_first_member_is_found(all, 0);
            assert(all[1].0 == "uid"@);
            json::a_first_member_is_found(all, 1);
            assert(all[2].0 == "namespace"@);
            json::a_first_member_is_found(all, 2);
            assert(all[3].0 == "name"@);
            json::a_first_member_is_found(all, 3);
            assert(all[4].0 == "verdict"@);
            json::a_first_member_is_found(all, 4);
            assert(all[5].0 == "decision_head"@);
            json::a_first_member_is_found(all, 5);
            assert(all[6].0 == "decision_entries"@);
            json::a_first_member_is_found(all, 6);
            assert(all[7].0 == "snapshot_sha256"@);
            json::a_first_member_is_found(all, 7);
            assert(all[8].0 == "signer"@);
            json::a_first_member_is_found(all, 8);
            assert(all.len() == 9);
        }
        if signer is None {
            assert(all[0].0 == "kind"@);
            json::a_first_member_is_found(all, 0);
            assert(all[1].0 == "uid"@);
            json::a_first_member_is_found(all, 1);
            assert(all[2].0 == "namespace"@);
            json::a_first_member_is_found(all, 2);
            assert(all[3].0 == "name"@);
            json::a_first_member_is_found(all, 3);
            assert(all[4].0 == "verdict"@);
            json::a_first_member_is_found(all, 4);
            assert(all[5].0 == "decision_head"@);
            json::a_first_member_is_found(all, 5);
            assert(all[6].0 == "decision_entries"@);
            json::a_first_member_is_found(all, 6);
            assert(all[7].0 == "snapshot_sha256"@);
            json::a_first_member_is_found(all, 7);
            assert(all.len() == 8);
            json::a_member_is_found_by_name(all, "signer"@);
        }
    }
}

/// A decided manifest is recorded with each part under its own name.
#[verifier::rlimit(50)]
pub proof fn a_decided_manifest_is_recorded_under_its_names(v: LedgerEventModel)
    ensures
        v matches LedgerEventModel::ManifestDecided {
            uid,
            child,
            parent,
            verdict,
            reason,
            signer,
        } ==> {
            let t = LedgerEvent::tree(v);
            &&& t.member("kind"@) == Some(Tree::Text("manifest_decided"@))
            &&& t.member("uid"@) == Some(Tree::Text(uid))
            &&& t.member("child"@) == Some(Tree::Text(child))
            &&& t.member("parent"@) == (match parent {
                Some(x) => Some(Tree::Text(x)),
                None => None,
            })
            &&& t.member("verdict"@) == Some(Tree::Text(verdict))
            &&& t.member("reason"@) == (match reason {
                Some(x) => Some(Tree::Text(x)),
                None => None,
            })
            &&& t.member("signer"@) == (match signer {
                Some(x) => Some(Tree::Text(x)),
                None => None,
            })
        },
{
    if let LedgerEventModel::ManifestDecided {
        parent,
        reason,
        signer,
        .. } = v {
        let all = LedgerEvent::tree(v)->Object_0;
        reveal_strlit("kind");
        reveal_strlit("uid");
        reveal_strlit("child");
        reveal_strlit("parent");
        reveal_strlit("verdict");
        reveal_strlit("reason");
        reveal_strlit("signer");
        assert("kind"@.len() != "uid"@.len());
        assert("kind"@.len() != "child"@.len());
        assert("kind"@.len() != "parent"@.len());
        assert("kind"@.len() != "verdict"@.len());
        assert("kind"@.len() != "reason"@.len());
        assert("kind"@.len() != "signer"@.len());
        assert("uid"@.len() != "child"@.len());
        assert("uid"@.len() != "parent"@.len());
        assert("uid"@.len() != "verdict"@.len());
        assert("uid"@.len() != "reason"@.len());
        assert("uid"@.len() != "signer"@.len());
        assert("child"@.len() != "parent"@.len());
        assert("child"@.len() != "verdict"@.len());
        assert("child"@.len() != "reason"@.len());
        assert("child"@.len() != "signer"@.len());
        assert("parent"@.len() != "verdict"@.len());
        assert("parent"@[0] != "reason"@[0]);
        assert("parent"@[0] != "signer"@[0]);
        assert("verdict"@.len() != "reason"@.len());
        assert("verdict"@.len() != "signer"@.len());
        assert("reason"@[0] != "signer"@[0]);
        if parent is Some && reason is Some && signer is Some {
            assert(all[0].0 == "kind"@);
            json::a_first_member_is_found(all, 0);
            assert(all[1].0 == "uid"@);
            json::a_first_member_is_found(all, 1);
            assert(all[2].0 == "child"@);
            json::a_first_member_is_found(all, 2);
            assert(all[3].0 == "parent"@);
            json::a_first_member_is_found(all, 3);
            assert(all[4].0 == "verdict"@);
            json::a_first_member_is_found(all, 4);
            assert(all[5].0 == "reason"@);
            json::a_first_member_is_found(all, 5);
            assert(all[6].0 == "signer"@);
            json::a_first_member_is_found(all, 6);
            assert(all.len() == 7);
        }
        if parent is Some && reason is Some && signer is None {
            assert(all[0].0 == "kind"@);
            json::a_first_member_is_found(all, 0);
            assert(all[1].0 == "uid"@);
            json::a_first_member_is_found(all, 1);
            assert(all[2].0 == "child"@);
            json::a_first_member_is_found(all, 2);
            assert(all[3].0 == "parent"@);
            json::a_first_member_is_found(all, 3);
            assert(all[4].0 == "verdict"@);
            json::a_first_member_is_found(all, 4);
            assert(all[5].0 == "reason"@);
            json::a_first_member_is_found(all, 5);
            assert(all.len() == 6);
            json::a_member_is_found_by_name(all, "signer"@);
        }
        if parent is Some && reason is None && signer is Some {
            assert(all[0].0 == "kind"@);
            json::a_first_member_is_found(all, 0);
            assert(all[1].0 == "uid"@);
            json::a_first_member_is_found(all, 1);
            assert(all[2].0 == "child"@);
            json::a_first_member_is_found(all, 2);
            assert(all[3].0 == "parent"@);
            json::a_first_member_is_found(all, 3);
            assert(all[4].0 == "verdict"@);
            json::a_first_member_is_found(all, 4);
            assert(all[5].0 == "signer"@);
            json::a_first_member_is_found(all, 5);
            assert(all.len() == 6);
            json::a_member_is_found_by_name(all, "reason"@);
        }
        if parent is Some && reason is None && signer is None {
            assert(all[0].0 == "kind"@);
            json::a_first_member_is_found(all, 0);
            assert(all[1].0 == "uid"@);
            json::a_first_member_is_found(all, 1);
            assert(all[2].0 == "child"@);
            json::a_first_member_is_found(all, 2);
            assert(all[3].0 == "parent"@);
            json::a_first_member_is_found(all, 3);
            assert(all[4].0 == "verdict"@);
            json::a_first_member_is_found(all, 4);
            assert(all.len() == 5);
            json::a_member_is_found_by_name(all, "reason"@);
            json::a_member_is_found_by_name(all, "signer"@);
        }
        if parent is None && reason is Some && signer is Some {
            assert(all[0].0 == "kind"@);
            json::a_first_member_is_found(all, 0);
            assert(all[1].0 == "uid"@);
            json::a_first_member_is_found(all, 1);
            assert(all[2].0 == "child"@);
            json::a_first_member_is_found(all, 2);
            assert(all[3].0 == "verdict"@);
            json::a_first_member_is_found(all, 3);
            assert(all[4].0 == "reason"@);
            json::a_first_member_is_found(all, 4);
            assert(all[5].0 == "signer"@);
            json::a_first_member_is_found(all, 5);
            assert(all.len() == 6);
            json::a_member_is_found_by_name(all, "parent"@);
        }
        if parent is None && reason is Some && signer is None {
            assert(all[0].0 == "kind"@);
            json::a_first_member_is_found(all, 0);
            assert(all[1].0 == "uid"@);
            json::a_first_member_is_found(all, 1);
            assert(all[2].0 == "child"@);
            json::a_first_member_is_found(all, 2);
            assert(all[3].0 == "verdict"@);
            json::a_first_member_is_found(all, 3);
            assert(all[4].0 == "reason"@);
            json::a_first_member_is_found(all, 4);
            assert(all.len() == 5);
            json::a_member_is_found_by_name(all, "parent"@);
            json::a_member_is_found_by_name(all, "signer"@);
        }
        if parent is None && reason is None && signer is Some {
            assert(all[0].0 == "kind"@);
            json::a_first_member_is_found(all, 0);
            assert(all[1].0 == "uid"@);
            json::a_first_member_is_found(all, 1);
            assert(all[2].0 == "child"@);
            json::a_first_member_is_found(all, 2);
            assert(all[3].0 == "verdict"@);
            json::a_first_member_is_found(all, 3);
            assert(all[4].0 == "signer"@);
            json::a_first_member_is_found(all, 4);
            assert(all.len() == 5);
            json::a_member_is_found_by_name(all, "parent"@);
            json::a_member_is_found_by_name(all, "reason"@);
        }
        if parent is None && reason is None && signer is None {
            assert(all[0].0 == "kind"@);
            json::a_first_member_is_found(all, 0);
            assert(all[1].0 == "uid"@);
            json::a_first_member_is_found(all, 1);
            assert(all[2].0 == "child"@);
            json::a_first_member_is_found(all, 2);
            assert(all[3].0 == "verdict"@);
            json::a_first_member_is_found(all, 3);
            assert(all.len() == 4);
            json::a_member_is_found_by_name(all, "parent"@);
            json::a_member_is_found_by_name(all, "reason"@);
            json::a_member_is_found_by_name(all, "signer"@);
        }
    }
}

} // verus!
