//! The ledger as a running server keeps it: how it starts, and what is added to it.
//!
//! The lock, the file and the signed commitment to its length and head are the server's own. What
//! the ledger says is decided here.
use vstd::prelude::*;

use crate::audit;
use crate::digest;
use crate::digest::hex_encode;
use crate::ledger;
use crate::ledger::{Ledger, LedgerEvent, LedgerEventModel};
use crate::text::owned;

verus! {

/// Why a decision could not be witnessed.
#[derive(Debug, Clone, PartialEq, Eq)]
pub enum LedgerError {
    /// Another request failed while it held the ledger.
    Poisoned,
    Write { path: String, source: String },
    Serialise(String),
}

/// What a [`LedgerError`] says.
#[verifier::ext_equal]
pub enum LedgerErrorModel {
    Poisoned,
    Write { path: Seq<char>, source: Seq<char> },
    Serialise(Seq<char>),
}

impl DeepView for LedgerError {
    type V = LedgerErrorModel;

    open spec fn deep_view(&self) -> LedgerErrorModel {
        match self {
            LedgerError::Poisoned => LedgerErrorModel::Poisoned,
            LedgerError::Write { path, source } => LedgerErrorModel::Write {
                path: path.deep_view(),
                source: source.deep_view(),
            },
            LedgerError::Serialise(e) => LedgerErrorModel::Serialise(e.deep_view()),
        }
    }
}

impl LedgerErrorModel {
    /// The complaint in words.
    pub open spec fn message(self) -> Seq<char> {
        match self {
            LedgerErrorModel::Poisoned => "the ledger lock was poisoned by a panic in another request"@,
            LedgerErrorModel::Write { path, source } => "could not write the ledger to "@ + path
                + ": "@ + source,
            LedgerErrorModel::Serialise(e) => "could not serialise the ledger: "@ + e,
        }
    }
}

impl LedgerError {
    pub fn to_text(&self) -> (r: String)
        ensures
            r@ == self.deep_view().message(),
    {
        match self {
            LedgerError::Poisoned => owned(
                "the ledger lock was poisoned by a panic in another request",
            ),
            LedgerError::Write { path, source } => owned("could not write the ledger to ").concat(
                path.as_str(),
            ).concat(": ").concat(source.as_str()),
            LedgerError::Serialise(e) => owned("could not serialise the ledger: ").concat(
                e.as_str(),
            ),
        }
    }
}

/// The entry that a wall starts with: under which public key it seals, if it seals, and where its
/// records are kept.
pub open spec fn started(
    public_key: Option<Seq<u8>>,
    audit_dir: Option<Seq<char>>,
) -> LedgerEventModel {
    LedgerEventModel::WallStarted {
        signer: match public_key {
            Some(k) => Some(digest::hex_of(k)),
            None => None,
        },
        audit_dir,
    }
}

/// Start a ledger, and witness the start. The entry is first in every ledger, so that one that
/// begins otherwise is known to have lost its front.
pub fn start(public_key: Option<[u8; 32]>, audit_dir: Option<String>) -> (r: Ledger)
    ensures
        r.deep_view() == seq![
            started(
                match public_key {
                    Some(k) => Some(k@),
                    None => None,
                },
                audit_dir.deep_view(),
            ),
        ],
{
    let signer: Option<String> = match public_key {
        Some(k) => Some(hex_encode(k.as_slice())),
        None => None,
    };
    let mut ledger: Ledger = Vec::new();
    let _ = witness(&mut ledger, LedgerEvent::WallStarted { signer, audit_dir });
    assert(ledger.deep_view() =~= seq![
        started(
            match public_key {
                Some(k) => Some(k@),
                None => None,
            },
            audit_dir.deep_view(),
        ),
    ]);
    ledger
}

/// Add one witness, and say in a line what was witnessed.
pub fn witness(ledger: &mut Ledger, event: LedgerEvent) -> (r: String)
    ensures
        final(ledger).deep_view() == old(ledger).deep_view().push(event.deep_view()),
        r@ == event.deep_view().line(),
{
    let ghost before = ledger.deep_view();
    let subject = event.subject();
    ledger.push(event);
    assert(ledger.deep_view() =~= before.push(event.deep_view()));
    subject
}

// ---------------------------------------------------------------------------------------------
// Laws
// ---------------------------------------------------------------------------------------------
/// A ledger that was started begins where a ledger begins, whatever was witnessed since.
pub proof fn a_started_ledger_keeps_its_start(
    public_key: Option<Seq<u8>>,
    audit_dir: Option<Seq<char>>,
    since: Seq<LedgerEventModel>,
)
    ensures
        audit::lost_start(seq![started(public_key, audit_dir)] + since) is None,
{
}

/// Where a ledger and the records agree, they still do once one more decision is both kept and
/// witnessed.
pub proof fn keeping_and_witnessing_agree(
    events: Seq<LedgerEventModel>,
    found: Seq<Seq<char>>,
    event: LedgerEventModel,
)
    requires
        ledger::reconciled(events, found).clean(),
        event.head() is Some,
    ensures
        ledger::reconciled(events.push(event), found.push(event.head()->0)).clean(),
{
    let head = event.head()->0;
    let heads = ledger::witnessed(events);
    assert(events.push(event).drop_last() =~= events);
    assert(ledger::witnessed(events.push(event)) == heads.push(head));
    ledger::a_clean_reconciliation_holds_the_same_heads(events, found);
    assert forall|h: Seq<char>|
        heads.push(head).contains(h) <==> found.push(head).contains(h) by {
        with_one_more(heads, head, h);
        with_one_more(found, head, h);
        assert(heads.contains(h) <==> found.contains(h));
    }
    ledger::a_clean_reconciliation_holds_the_same_heads(events.push(event), found.push(head));
}

proof fn with_one_more(s: Seq<Seq<char>>, x: Seq<char>, y: Seq<char>)
    ensures
        s.push(x).contains(y) <==> s.contains(y) || x == y,
{
    if s.contains(y) {
        let k = choose|k: int| 0 <= k < s.len() && s[k] == y;
        assert(s.push(x)[k] == y);
    }
    assert(s.push(x)[s.len() as int] == x);
    if s.push(x).contains(y) {
        let k = choose|k: int| 0 <= k < s.push(x).len() && s.push(x)[k] == y;
        if k < s.len() {
            assert(s[k] == y);
        }
    }
}

/// A decision that was witnessed, and whose record is gone, is reported as missing.
pub proof fn a_deleted_record_leaves_a_gap(
    events: Seq<LedgerEventModel>,
    found: Seq<Seq<char>>,
    event: LedgerEventModel,
)
    requires
        event.head() is Some,
        !found.contains(event.head()->0),
    ensures
        ledger::reconciled(events.push(event), found).missing.contains(event.head()->0),
        !ledger::reconciled(events.push(event), found).clean(),
{
    let head = event.head()->0;
    let after = events.push(event);
    assert(after.drop_last() =~= events);
    let heads = ledger::witnessed(after);
    assert(heads[heads.len() - 1] == head);
    ledger::a_gap_is_reported_in_both_directions(after, found, head);
}

} // verus!
