//! Whether the records of decisions can be relied on: a decision's own record, and the ledger that
//! witnesses them all.
//!
//! A record's hashes catch an edit, its seals catch whoever edits and then recomputes the hashes, and
//! the ledger catches a record that is gone. Each is reported apart, so that nobody takes a record to
//! be held to what nobody asked about.
use vstd::prelude::*;

use crate::cli::{say, silence, Report, ReportModel};
use crate::ledger;
use crate::ledger::{
    reconcile, Ledger, LedgerEvent, LedgerEventModel, Reconciliation, ReconciliationModel,
};
use crate::text;
use crate::text::{has_suffix, owned, same, show};

verus! {

/// Why a ledger, or the records beside it, cannot be relied on.
#[derive(Debug, Clone, PartialEq, Eq)]
pub enum LedgerFault {
    /// Its own hashes do not hold.
    Chain(String),
    /// It has no entries.
    Empty,
    /// It does not begin where a ledger begins, but with this entry.
    Start(String),
    /// Its seals do not hold.
    Seals(String),
    /// The checkpoint that it is held to is signed by no trusted key.
    Unsigned,
    /// It contradicts that checkpoint.
    Contradicted(String),
    /// A file beside it is no decision record.
    NotADecision { path: String, why: String },
}

/// What a [`LedgerFault`] says.
#[verifier::ext_equal]
pub enum LedgerFaultModel {
    Chain(Seq<char>),
    Empty,
    Start(Seq<char>),
    Seals(Seq<char>),
    Unsigned,
    Contradicted(Seq<char>),
    NotADecision { path: Seq<char>, why: Seq<char> },
}

impl DeepView for LedgerFault {
    type V = LedgerFaultModel;

    open spec fn deep_view(&self) -> LedgerFaultModel {
        match self {
            LedgerFault::Chain(x) => LedgerFaultModel::Chain(x.deep_view()),
            LedgerFault::Empty => LedgerFaultModel::Empty,
            LedgerFault::Start(x) => LedgerFaultModel::Start(x.deep_view()),
            LedgerFault::Seals(x) => LedgerFaultModel::Seals(x.deep_view()),
            LedgerFault::Unsigned => LedgerFaultModel::Unsigned,
            LedgerFault::Contradicted(x) => LedgerFaultModel::Contradicted(x.deep_view()),
            LedgerFault::NotADecision { path, why } => LedgerFaultModel::NotADecision {
                path: path.deep_view(),
                why: why.deep_view(),
            },
        }
    }
}

/// What came of checking a decision record.
#[derive(Debug, Clone, PartialEq, Eq)]
pub enum AuditOutcome {
    BrokenChain(String),
    /// The hashes hold, and nobody asked about the seals.
    NotChecked { entries: u64, head: String, sealed: u64 },
    Sealed { entries: u64, head: String },
    BrokenSeals(String),
}

/// What an [`AuditOutcome`] says.
#[verifier::ext_equal]
pub enum AuditOutcomeModel {
    BrokenChain(Seq<char>),
    NotChecked { entries: u64, head: Seq<char>, sealed: u64 },
    Sealed { entries: u64, head: Seq<char> },
    BrokenSeals(Seq<char>),
}

impl DeepView for AuditOutcome {
    type V = AuditOutcomeModel;

    open spec fn deep_view(&self) -> AuditOutcomeModel {
        match self {
            AuditOutcome::BrokenChain(x) => AuditOutcomeModel::BrokenChain(x.deep_view()),
            AuditOutcome::NotChecked { entries, head, sealed } => AuditOutcomeModel::NotChecked {
                entries: entries.deep_view(),
                head: head.deep_view(),
                sealed: sealed.deep_view(),
            },
            AuditOutcome::Sealed { entries, head } => AuditOutcomeModel::Sealed {
                entries: entries.deep_view(),
                head: head.deep_view(),
            },
            AuditOutcome::BrokenSeals(x) => AuditOutcomeModel::BrokenSeals(x.deep_view()),
        }
    }
}

// ---------------------------------------------------------------------------------------------
// The ledger
// ---------------------------------------------------------------------------------------------
/// A file among the decision records is one itself: it is a `.json` file, and not the ledger.
pub open spec fn names_a_decision(name: Seq<char>) -> bool {
    name != "ledger.json"@ && text::ends_with(name, ".json"@) && name.len() > 5
}

/// Is the file of this name a decision record?
pub fn is_decision_file(name: &str) -> (r: bool)
    ensures
        r == names_a_decision(name@),
{
    !same(name, "ledger.json") && has_suffix(name, ".json") && name.unicode_len() > 5
}

impl LedgerFaultModel {
    /// What is reported of the fault. Every fault is a refusal.
    pub open spec fn reported(self) -> ReportModel {
        ReportModel {
            lines: match self {
                LedgerFaultModel::Chain(e) => seq![
                    "REFUSED — the ledger's own chain is broken."@,
                    "  "@ + e,
                ],
                LedgerFaultModel::Empty => seq![
                    "REFUSED — the ledger is empty, which no running wall ever writes."@,
                ],
                LedgerFaultModel::Start(first) => seq![
                    "REFUSED — the ledger does not begin where a ledger begins."@,
                    "  first entry is `"@ + first + "`, not `wall_started`."@,
                    "  A chain re-based from its second entry verifies perfectly; this is"@,
                    "  the one position the hashes cannot defend, so it is checked by name."@,
                ],
                LedgerFaultModel::Seals(e) => seq![
                    "REFUSED — the ledger's seals do not hold."@,
                    "  "@ + e,
                ],
                LedgerFaultModel::Unsigned => seq![
                    "REFUSED — the checkpoint is not signed by any trusted key."@,
                ],
                LedgerFaultModel::Contradicted(e) => seq![
                    "REFUSED — the ledger contradicts a checkpoint."@,
                    "  "@ + e,
                ],
                LedgerFaultModel::NotADecision { path, why } => seq![
                    "REFUSED — "@ + path + " is not a decision chain: "@ + why,
                ],
            },
            code: 8,
        }
    }
}

impl LedgerFault {
    /// What is reported of the fault.
    pub fn report(&self) -> (r: Report)
        ensures
            r.deep_view() == self.deep_view().reported(),
    {
        let mut lines = silence();
        match self {
            LedgerFault::Chain(e) => {
                say(&mut lines, owned("REFUSED — the ledger's own chain is broken."));
                say(&mut lines, owned("  ").concat(e.as_str()));
            },
            LedgerFault::Empty => {
                say(
                    &mut lines,
                    owned("REFUSED — the ledger is empty, which no running wall ever writes."),
                );
            },
            LedgerFault::Start(first) => {
                say(
                    &mut lines,
                    owned("REFUSED — the ledger does not begin where a ledger begins."),
                );
                say(
                    &mut lines,
                    owned("  first entry is `").concat(first.as_str()).concat(
                        "`, not `wall_started`.",
                    ),
                );
                say(
                    &mut lines,
                    owned("  A chain re-based from its second entry verifies perfectly; this is"),
                );
                say(
                    &mut lines,
                    owned("  the one position the hashes cannot defend, so it is checked by name."),
                );
            },
            LedgerFault::Seals(e) => {
                say(&mut lines, owned("REFUSED — the ledger's seals do not hold."));
                say(&mut lines, owned("  ").concat(e.as_str()));
            },
            LedgerFault::Unsigned => {
                say(
                    &mut lines,
                    owned("REFUSED — the checkpoint is not signed by any trusted key."),
                );
            },
            LedgerFault::Contradicted(e) => {
                say(&mut lines, owned("REFUSED — the ledger contradicts a checkpoint."));
                say(&mut lines, owned("  ").concat(e.as_str()));
            },
            LedgerFault::NotADecision { path, why } => {
                say(
                    &mut lines,
                    owned("REFUSED — ").concat(path.as_str()).concat(
                        " is not a decision chain: ",
                    ).concat(why.as_str()),
                );
            },
        }
        let r = Report { lines, code: 8 };
        assert(r.deep_view().lines =~= self.deep_view().reported().lines);
        r
    }
}

/// Why a ledger does not begin where a ledger begins, where it does not.
pub open spec fn lost_start(events: Seq<LedgerEventModel>) -> Option<LedgerFaultModel> {
    if events.len() == 0 {
        Some(LedgerFaultModel::Empty)
    } else if events[0] is WallStarted {
        None
    } else {
        Some(LedgerFaultModel::Start(events[0].line()))
    }
}

/// Does a ledger begin where a ledger begins? A sequence re-based on a later entry has good hashes;
/// the first entry is the one position that they cannot defend, so it is checked by name.
pub fn start_fault(ledger: &Ledger) -> (r: Option<LedgerFault>)
    ensures
        r.deep_view() == lost_start(ledger.deep_view()),
{
    if ledger.len() == 0 {
        return Some(LedgerFault::Empty);
    }
    assert(ledger.deep_view()[0] == ledger@[0].deep_view());
    match &ledger[0] {
        LedgerEvent::WallStarted { .. } => None,
        other => Some(LedgerFault::Start(other.subject())),
    }
}

/// The lines on the gaps between a ledger and the records that were found.
pub open spec fn gap_lines(r: ReconciliationModel) -> Seq<Seq<char>> {
    Seq::new(
        r.missing.len(),
        |i: int|
            "  DELETED?    witnessed head "@ + r.missing[i] + " has no file behind it"@,
    ) + Seq::new(
        r.unwitnessed.len(),
        |i: int|
            "  UNWITNESSED file with head "@ + r.unwitnessed[i] + " that the ledger never recorded"@,
    )
}

/// What is reported of a ledger and the records that were found: accepted exactly where they agree.
pub open spec fn reconciliation_reported(
    events: Seq<LedgerEventModel>,
    head: Seq<char>,
    found: Seq<Seq<char>>,
) -> ReportModel {
    let r = ledger::reconciled(events, found);
    let opening = seq![
        "ledger: "@ + text::decimal(events.len()) + " entries, head sha256:"@ + head,
        "matched: "@ + text::decimal(r.matched as nat) + " decision(s) witnessed and present"@,
        Seq::empty(),
    ];
    if r.clean() {
        ReportModel {
            lines: opening + seq![
                "ACCEPTED — every witnessed decision is present, and every present"@,
                "decision was witnessed."@,
            ],
            code: 0,
        }
    } else {
        ReportModel {
            lines: opening + seq!["REFUSED — the ledger and the decisions disagree."@] + gap_lines(r)
                + seq![
                Seq::empty(),
                "A missing file is the attack sealing cannot catch: a seal proves what a"@,
                "record says, never that the record is still there."@,
            ],
            code: 8,
        }
    }
}

fn say_gaps(out: &mut Vec<String>, r: &Reconciliation)
    ensures
        final(out).deep_view() == old(out).deep_view() + gap_lines(r.deep_view()),
{
    let ghost start = out.deep_view();
    let ghost model = r.deep_view();
    let ghost all = gap_lines(model);
    let ghost n = model.missing.len();
    assert(start =~= start + all.subrange(0, 0));
    let mut i: usize = 0;
    while i < r.missing.len()
        invariant
            i <= r.missing.len(),
            model == r.deep_view(),
            all == gap_lines(model),
            n == model.missing.len(),
            out.deep_view() == start + all.subrange(0, i as int),
        decreases r.missing.len() - i,
    {
        assert(model.missing[i as int] == r.missing@[i as int]@);
        say(
            out,
            owned("  DELETED?    witnessed head ").concat(r.missing[i].as_str()).concat(
                " has no file behind it",
            ),
        );
        assert(out.deep_view() =~= start + all.subrange(0, i + 1));
        i += 1;
    }
    let mut j: usize = 0;
    assert(n == r.missing.len());
    while j < r.unwitnessed.len()
        invariant
            j <= r.unwitnessed.len(),
            model == r.deep_view(),
            all == gap_lines(model),
            n == model.missing.len(),
            out.deep_view() == start + all.subrange(0, n + j),
        decreases r.unwitnessed.len() - j,
    {
        assert(model.unwitnessed[j as int] == r.unwitnessed@[j as int]@);
        say(
            out,
            owned("  UNWITNESSED file with head ").concat(r.unwitnessed[j].as_str()).concat(
                " that the ledger never recorded",
            ),
        );
        assert(out.deep_view() =~= start + all.subrange(0, n + j + 1));
        j += 1;
    }
    assert(all.subrange(0, n + j) =~= all);
}

/// Hold a ledger to the heads of the records that were found, and report it.
pub fn reconcile_report(ledger: &Ledger, head: &str, found: &Vec<String>) -> (r: Report)
    ensures
        r.deep_view() == reconciliation_reported(ledger.deep_view(), head@, found.deep_view()),
{
    let ghost model = reconciliation_reported(ledger.deep_view(), head@, found.deep_view());
    let r = reconcile(ledger, found);
    let mut lines = silence();
    assert(ledger.deep_view().len() == ledger.len());
    say(
        &mut lines,
        owned("ledger: ").concat(show(ledger.len() as u64).as_str()).concat(
            " entries, head sha256:",
        ).concat(head),
    );
    say(
        &mut lines,
        owned("matched: ").concat(show(r.matched as u64).as_str()).concat(
            " decision(s) witnessed and present",
        ),
    );
    let blank = String::new();
    assert(blank@ =~= Seq::<char>::empty());
    say(&mut lines, blank);
    if r.is_clean() {
        say(
            &mut lines,
            owned("ACCEPTED — every witnessed decision is present, and every present"),
        );
        say(&mut lines, owned("decision was witnessed."));
        assert(lines.deep_view() =~= model.lines);
        return Report { lines, code: 0 };
    }
    say(&mut lines, owned("REFUSED — the ledger and the decisions disagree."));
    say_gaps(&mut lines, &r);
    let blank = String::new();
    assert(blank@ =~= Seq::<char>::empty());
    say(&mut lines, blank);
    say(
        &mut lines,
        owned("A missing file is the attack sealing cannot catch: a seal proves what a"),
    );
    say(&mut lines, owned("record says, never that the record is still there."));
    assert(lines.deep_view() =~= model.lines);
    Report { lines, code: 8 }
}

impl AuditOutcomeModel {
    /// What is reported of a decision record. Seals that nobody checked are not seals that hold, and
    /// the report says so.
    pub open spec fn reported(self) -> ReportModel {
        match self {
            AuditOutcomeModel::BrokenChain(e) => ReportModel {
                lines: seq!["REFUSED — the hash chain is broken."@, "  "@ + e],
                code: 8,
            },
            AuditOutcomeModel::NotChecked { entries, head, sealed } => ReportModel {
                lines: seq![
                    "chain:  OK — "@ + text::decimal(entries as nat) + " entries, head sha256:"@
                        + head,
                    "seals:  NOT CHECKED — "@ + text::decimal(sealed as nat) + " of "@
                        + text::decimal(entries as nat) + " entries carry one."@,
                    "        Pass --trusted-key <hex> to hold them to it."@,
                ],
                code: 0,
            },
            AuditOutcomeModel::Sealed { entries, head } => ReportModel {
                lines: seq![
                    "chain:  OK — "@ + text::decimal(entries as nat) + " entries, head sha256:"@
                        + head,
                    "seals:  OK — every entry sealed by a trusted key."@,
                ],
                code: 0,
            },
            AuditOutcomeModel::BrokenSeals(e) => ReportModel {
                lines: seq![
                    "REFUSED — the seals do not hold."@,
                    "  "@ + e,
                    Seq::empty(),
                    "A broken seal on an intact chain is the interesting case: it means "@,
                    "somebody edited the log and recomputed the hashes. That is what the "@,
                    "chain alone cannot see."@,
                ],
                code: 8,
            },
        }
    }
}

impl AuditOutcomeModel {
    /// What comes of the checks of a decision record: the chain first, and then the seals, which are
    /// checked only where there are keys to hold them to. `sealed` of the entries carry one.
    pub open spec fn of_checks(
        chain: Result<(), Seq<char>>,
        keys: nat,
        seals: Option<Result<(), Seq<char>>>,
        entries: u64,
        head: Seq<char>,
        sealed: u64,
    ) -> AuditOutcomeModel {
        match chain {
            Err(e) => AuditOutcomeModel::BrokenChain(e),
            Ok(()) => if keys == 0 {
                AuditOutcomeModel::NotChecked { entries, head, sealed }
            } else {
                match seals {
                    None => AuditOutcomeModel::NotChecked { entries, head, sealed },
                    Some(Ok(())) => AuditOutcomeModel::Sealed { entries, head },
                    Some(Err(e)) => AuditOutcomeModel::BrokenSeals(e),
                }
            },
        }
    }
}

/// What comes of the checks of a decision record.
pub fn outcome(
    chain: Result<(), String>,
    keys: usize,
    seals: Option<Result<(), String>>,
    entries: u64,
    head: String,
    sealed: u64,
) -> (r: AuditOutcome)
    ensures
        r.deep_view() == AuditOutcomeModel::of_checks(
            check_view(chain),
            keys as nat,
            match seals {
                Some(s) => Some(check_view(s)),
                None => None,
            },
            entries,
            head@,
            sealed,
        ),
{
    match chain {
        Err(e) => AuditOutcome::BrokenChain(e),
        Ok(()) => if keys == 0 {
            AuditOutcome::NotChecked { entries, head, sealed }
        } else {
            match seals {
                None => AuditOutcome::NotChecked { entries, head, sealed },
                Some(Ok(())) => AuditOutcome::Sealed { entries, head },
                Some(Err(e)) => AuditOutcome::BrokenSeals(e),
            }
        },
    }
}

/// What came of one check.
pub open spec fn check_view(r: Result<(), String>) -> Result<(), Seq<char>> {
    match r {
        Ok(()) => Ok(()),
        Err(e) => Err(e@),
    }
}

impl AuditOutcome {
    /// What is reported of a decision record.
    pub fn report(&self) -> (r: Report)
        ensures
            r.deep_view() == self.deep_view().reported(),
    {
        let mut lines = silence();
        let ghost model = self.deep_view().reported();
        match self {
            AuditOutcome::BrokenChain(e) => {
                say(&mut lines, owned("REFUSED — the hash chain is broken."));
                say(&mut lines, owned("  ").concat(e.as_str()));
                assert(lines.deep_view() =~= model.lines);
                Report { lines, code: 8 }
            },
            AuditOutcome::NotChecked { entries, head, sealed } => {
                say(
                    &mut lines,
                    owned("chain:  OK — ").concat(show(*entries).as_str()).concat(
                        " entries, head sha256:",
                    ).concat(head.as_str()),
                );
                say(
                    &mut lines,
                    owned("seals:  NOT CHECKED — ").concat(show(*sealed).as_str()).concat(
                        " of ",
                    ).concat(show(*entries).as_str()).concat(" entries carry one."),
                );
                say(&mut lines, owned("        Pass --trusted-key <hex> to hold them to it."));
                assert(lines.deep_view() =~= model.lines);
                Report { lines, code: 0 }
            },
            AuditOutcome::Sealed { entries, head } => {
                say(
                    &mut lines,
                    owned("chain:  OK — ").concat(show(*entries).as_str()).concat(
                        " entries, head sha256:",
                    ).concat(head.as_str()),
                );
                say(&mut lines, owned("seals:  OK — every entry sealed by a trusted key."));
                assert(lines.deep_view() =~= model.lines);
                Report { lines, code: 0 }
            },
            AuditOutcome::BrokenSeals(e) => {
                say(&mut lines, owned("REFUSED — the seals do not hold."));
                say(&mut lines, owned("  ").concat(e.as_str()));
                let blank = String::new();
                assert(blank@ =~= Seq::<char>::empty());
                say(&mut lines, blank);
                say(
                    &mut lines,
                    owned("A broken seal on an intact chain is the interesting case: it means "),
                );
                say(
                    &mut lines,
                    owned("somebody edited the log and recomputed the hashes. That is what the "),
                );
                say(&mut lines, owned("chain alone cannot see."));
                assert(lines.deep_view() =~= model.lines);
                Report { lines, code: 8 }
            },
        }
    }
}

// ---------------------------------------------------------------------------------------------
// Every check of a ledger, in order
// ---------------------------------------------------------------------------------------------
/// What came of holding a ledger to a checkpoint that somebody else kept.
#[derive(Debug, Clone, PartialEq, Eq)]
pub enum Commitment {
    NotAsked,
    /// No trusted key signed the checkpoint.
    Unsigned,
    Contradicted(String),
    /// The ledger is at least as long as the checkpoint says.
    Held { len: u64 },
}

/// What a [`Commitment`] says.
#[verifier::ext_equal]
pub enum CommitmentModel {
    NotAsked,
    Unsigned,
    Contradicted(Seq<char>),
    Held { len: u64 },
}

impl DeepView for Commitment {
    type V = CommitmentModel;

    open spec fn deep_view(&self) -> CommitmentModel {
        match self {
            Commitment::NotAsked => CommitmentModel::NotAsked,
            Commitment::Unsigned => CommitmentModel::Unsigned,
            Commitment::Contradicted(e) => CommitmentModel::Contradicted(e.deep_view()),
            Commitment::Held { len } => CommitmentModel::Held { len: *len },
        }
    }
}

/// What is said of a checkpoint that no trusted key can vouch for.
pub open spec fn unvouched_checkpoint() -> Seq<char> {
    "--checkpoint needs --trusted-key: a checkpoint nobody vouched for is one the ledger's own holder could have written"@
}

/// May a ledger be held to a checkpoint? Only where there are keys that could have signed it.
pub fn checkpoint_allowed(asked: bool, keys: usize) -> (r: Result<(), String>)
    ensures
        r is Err <==> asked && keys == 0,
        r matches Err(e) ==> e@ == unvouched_checkpoint(),
{
    if asked && keys == 0 {
        Err(
            owned(
                "--checkpoint needs --trusted-key: a checkpoint nobody vouched for is one the ledger's own holder could have written",
            ),
        )
    } else {
        Ok(())
    }
}

/// What was found in one file among the records: the head of a decision's record, or why it is none.
#[derive(Debug, Clone, PartialEq, Eq)]
pub enum Found {
    Head(String),
    Unreadable { path: String, why: String },
}

/// What a [`Found`] says.
#[verifier::ext_equal]
pub enum FoundModel {
    Head(Seq<char>),
    Unreadable { path: Seq<char>, why: Seq<char> },
}

impl DeepView for Found {
    type V = FoundModel;

    open spec fn deep_view(&self) -> FoundModel {
        match self {
            Found::Head(h) => FoundModel::Head(h.deep_view()),
            Found::Unreadable { path, why } => FoundModel::Unreadable {
                path: path.deep_view(),
                why: why.deep_view(),
            },
        }
    }
}

/// What was observed of a ledger and of the records beside it. A check that has not been made yet
/// has found nothing.
#[derive(Debug, Clone, PartialEq, Eq)]
pub struct LedgerAudit {
    pub events: Ledger,
    pub head: String,
    /// Why its hashes do not hold, where they do not.
    pub chain: Option<String>,
    /// Why its seals do not hold, where keys were given and they do not.
    pub seals: Option<String>,
    pub commitment: Commitment,
    pub found: Vec<Found>,
}

/// What a [`LedgerAudit`] says.
#[verifier::ext_equal]
pub struct LedgerAuditModel {
    pub events: Seq<LedgerEventModel>,
    pub head: Seq<char>,
    pub chain: Option<Seq<char>>,
    pub seals: Option<Seq<char>>,
    pub commitment: CommitmentModel,
    pub found: Seq<FoundModel>,
}

impl DeepView for LedgerAudit {
    type V = LedgerAuditModel;

    open spec fn deep_view(&self) -> LedgerAuditModel {
        LedgerAuditModel {
            events: self.events.deep_view(),
            head: self.head.deep_view(),
            chain: self.chain.deep_view(),
            seals: self.seals.deep_view(),
            commitment: self.commitment.deep_view(),
            found: self.found.deep_view(),
        }
    }
}

/// The first file that is no record.
pub open spec fn first_unreadable(found: Seq<FoundModel>) -> Option<LedgerFaultModel>
    decreases found.len(),
{
    if found.len() == 0 {
        None
    } else {
        match first_unreadable(found.drop_last()) {
            Some(e) => Some(e),
            None => match found.last() {
                FoundModel::Head(_) => None,
                FoundModel::Unreadable { path, why } => Some(
                    LedgerFaultModel::NotADecision { path, why },
                ),
            },
        }
    }
}

/// The heads that were found, in order.
pub open spec fn heads_found(found: Seq<FoundModel>) -> Seq<Seq<char>>
    decreases found.len(),
{
    if found.len() == 0 {
        Seq::empty()
    } else {
        let before = heads_found(found.drop_last());
        match found.last() {
            FoundModel::Head(h) => before.push(h),
            FoundModel::Unreadable { .. } => before,
        }
    }
}

impl LedgerAuditModel {
    /// The first fault, in the order of the checks: the hashes, the start, the seals, the
    /// checkpoint, the records.
    pub open spec fn fault(self) -> Option<LedgerFaultModel> {
        match self.chain {
            Some(e) => Some(LedgerFaultModel::Chain(e)),
            None => match lost_start(self.events) {
                Some(e) => Some(e),
                None => match self.seals {
                    Some(e) => Some(LedgerFaultModel::Seals(e)),
                    None => match self.commitment {
                        CommitmentModel::Unsigned => Some(LedgerFaultModel::Unsigned),
                        CommitmentModel::Contradicted(e) => Some(LedgerFaultModel::Contradicted(e)),
                        _ => first_unreadable(self.found),
                    },
                },
            },
        }
    }

    /// The line on a checkpoint that holds.
    pub open spec fn commitment_lines(self) -> Seq<Seq<char>> {
        match self.commitment {
            CommitmentModel::Held { len } => seq![
                "checkpoint: OK — the ledger is at least the "@ + text::decimal(len as nat)
                    + " entries committed to."@,
            ],
            _ => Seq::empty(),
        }
    }

    /// What is reported: the first fault, or what reconciling says. A checkpoint that holds is
    /// reported before what the records say.
    pub open spec fn reported(self) -> ReportModel {
        match self.fault() {
            Some(LedgerFaultModel::NotADecision { path, why }) => ReportModel {
                lines: self.commitment_lines() + LedgerFaultModel::NotADecision {
                    path,
                    why,
                }.reported().lines,
                code: 8,
            },
            Some(e) => e.reported(),
            None => {
                let r = reconciliation_reported(self.events, self.head, heads_found(self.found));
                ReportModel { lines: self.commitment_lines() + r.lines, code: r.code }
            },
        }
    }
}

proof fn first_unreadable_stays(found: Seq<FoundModel>, n: int)
    requires
        0 <= n <= found.len(),
        first_unreadable(found.subrange(0, n)) is Some,
    ensures
        first_unreadable(found) == first_unreadable(found.subrange(0, n)),
    decreases found.len() - n,
{
    if n == found.len() {
        assert(found.subrange(0, n) =~= found);
    } else {
        assert(found.subrange(0, n + 1).drop_last() =~= found.subrange(0, n));
        first_unreadable_stays(found, n + 1);
    }
}

/// The heads of the files that were found, or the first that is no record.
fn take_heads(found: &Vec<Found>) -> (r: Result<Vec<String>, LedgerFault>)
    ensures
        match r {
            Ok(heads) => first_unreadable(found.deep_view()) is None && heads.deep_view()
                == heads_found(found.deep_view()),
            Err(e) => first_unreadable(found.deep_view()) == Some(e.deep_view()),
        },
{
    let ghost all = found.deep_view();
    let mut heads = silence();
    let mut i: usize = 0;
    assert(all.subrange(0, 0) =~= Seq::<FoundModel>::empty());
    while i < found.len()
        invariant
            i <= found.len(),
            all == found.deep_view(),
            first_unreadable(all.subrange(0, i as int)) is None,
            heads.deep_view() == heads_found(all.subrange(0, i as int)),
        decreases found.len() - i,
    {
        let ghost next = all.subrange(0, i + 1);
        assert(next.drop_last() =~= all.subrange(0, i as int));
        assert(next.last() == found@[i as int].deep_view());
        match &found[i] {
            Found::Head(h) => {
                say(&mut heads, h.clone());
            },
            Found::Unreadable { path, why } => {
                let e = LedgerFault::NotADecision { path: path.clone(), why: why.clone() };
                proof {
                    assert(first_unreadable(next) == Some(e.deep_view()));
                    first_unreadable_stays(all, i + 1);
                }
                return Err(e);
            },
        }
        i += 1;
    }
    assert(all.subrange(0, i as int) =~= all);
    Ok(heads)
}

impl LedgerAudit {
    /// Nothing checked yet.
    pub fn of(events: Ledger, head: &str) -> (r: LedgerAudit)
        ensures
            r.deep_view() == (LedgerAuditModel {
                events: events.deep_view(),
                head: head@,
                chain: None,
                seals: None,
                commitment: CommitmentModel::NotAsked,
                found: Seq::empty(),
            }),
    {
        let found: Vec<Found> = Vec::new();
        assert(found.deep_view() =~= Seq::<FoundModel>::empty());
        LedgerAudit {
            events,
            head: owned(head),
            chain: None,
            seals: None,
            commitment: Commitment::NotAsked,
            found,
        }
    }

    /// The first fault, in the order of the checks.
    pub fn fault(&self) -> (r: Option<LedgerFault>)
        ensures
            r.deep_view() == self.deep_view().fault(),
    {
        if let Some(e) = &self.chain {
            return Some(LedgerFault::Chain(e.clone()));
        }
        if let Some(e) = start_fault(&self.events) {
            return Some(e);
        }
        if let Some(e) = &self.seals {
            return Some(LedgerFault::Seals(e.clone()));
        }
        match &self.commitment {
            Commitment::Unsigned => return Some(LedgerFault::Unsigned),
            Commitment::Contradicted(e) => return Some(LedgerFault::Contradicted(e.clone())),
            _ => {},
        }
        match take_heads(&self.found) {
            Ok(_) => None,
            Err(e) => Some(e),
        }
    }

    /// What is reported of everything that was observed.
    pub fn report(&self) -> (r: Report)
        ensures
            r.deep_view() == self.deep_view().reported(),
    {
        let ghost model = self.deep_view();
        let mut lines = silence();
        if let Commitment::Held { len } = &self.commitment {
            say(
                &mut lines,
                owned("checkpoint: OK — the ledger is at least the ").concat(
                    show(*len).as_str(),
                ).concat(" entries committed to."),
            );
        }
        assert(lines.deep_view() =~= model.commitment_lines());
        let ghost before = lines.deep_view();
        if let Some(e) = self.fault() {
            let mut r = e.report();
            return match e {
                LedgerFault::NotADecision { .. } => {
                    let ghost added = r.lines.deep_view();
                    lines.append(&mut r.lines);
                    assert(lines.deep_view() =~= before + added);
                    Report { lines, code: 8 }
                },
                _ => r,
            };
        }
        match take_heads(&self.found) {
            Ok(heads) => {
                let mut r = reconcile_report(&self.events, self.head.as_str(), &heads);
                let ghost added = r.lines.deep_view();
                lines.append(&mut r.lines);
                assert(lines.deep_view() =~= before + added);
                Report { lines, code: r.code }
            },
            Err(e) => e.report(),
        }
    }
}

// ---------------------------------------------------------------------------------------------
// Laws
// ---------------------------------------------------------------------------------------------
/// The ledger and the records are accepted exactly where they hold the same heads.
pub proof fn a_gap_is_refused(
    events: Seq<LedgerEventModel>,
    head: Seq<char>,
    found: Seq<Seq<char>>,
)
    ensures
        reconciliation_reported(events, head, found).code == 0 <==> forall|h: Seq<char>|
            ledger::witnessed(events).contains(h) <==> found.contains(h),
        reconciliation_reported(events, head, found).code == 0 || reconciliation_reported(
            events,
            head,
            found,
        ).code == 8,
{
    ledger::a_clean_reconciliation_holds_the_same_heads(events, found);
}

/// A ledger is accepted only where nothing is left to find: its hashes hold, it begins where a
/// ledger begins, its seals hold where keys were given, a checkpoint that was asked about is signed
/// and not contradicted, every file beside it is a record, and it witnesses exactly those records.
pub proof fn a_ledger_is_accepted_where_every_check_holds(a: LedgerAuditModel)
    ensures
        a.reported().code == 0 <==> {
            &&& a.chain is None
            &&& a.events.len() > 0 && a.events[0] is WallStarted
            &&& a.seals is None
            &&& a.commitment is NotAsked || a.commitment is Held
            &&& forall|i: int| 0 <= i < a.found.len() ==> (#[trigger] a.found[i]) is Head
            &&& forall|h: Seq<char>|
                ledger::witnessed(a.events).contains(h) <==> heads_found(a.found).contains(h)
        },
        a.reported().code == 0 || a.reported().code == 8,
{
    every_file_is_a_record(a.found);
    a_gap_is_refused(a.events, a.head, heads_found(a.found));
}

proof fn every_file_is_a_record(found: Seq<FoundModel>)
    ensures
        first_unreadable(found) is None <==> forall|i: int|
            0 <= i < found.len() ==> (#[trigger] found[i]) is Head,
    decreases found.len(),
{
    if found.len() > 0 {
        let before = found.drop_last();
        every_file_is_a_record(before);
        assert forall|i: int| 0 <= i < before.len() implies before[i] == #[trigger] found[i] by {}
        assert(found[found.len() - 1] == found.last());
        if forall|i: int| 0 <= i < found.len() ==> (#[trigger] found[i]) is Head {
            assert forall|i: int| 0 <= i < before.len() implies (#[trigger] before[i]) is Head by {
                assert(found[i] is Head);
            }
        }
        if first_unreadable(found) is None {
            assert forall|i: int| 0 <= i < found.len() implies (#[trigger] found[i]) is Head by {
                if i < before.len() {
                    assert(before[i] is Head);
                }
            }
        }
    }
}

/// Seals are reported as holding only where the chain holds, there are keys to hold them to, and
/// every check of them passed; and a record is refused exactly where a check that was made failed.
pub proof fn nothing_unchecked_is_reported_as_holding(
    chain: Result<(), Seq<char>>,
    keys: nat,
    seals: Option<Result<(), Seq<char>>>,
    entries: u64,
    head: Seq<char>,
    sealed: u64,
)
    ensures
        ({
            let o = AuditOutcomeModel::of_checks(chain, keys, seals, entries, head, sealed);
            &&& o is Sealed <==> chain is Ok && keys > 0 && seals is Some && seals->0 is Ok
            &&& o.reported().code == 8 <==> chain is Err || (keys > 0 && seals is Some && seals->0 is Err)
        }),
{
}

/// A file is a record by its name: one that ends in `.json` and has something before that, except the
/// ledger itself.
pub proof fn a_record_is_known_by_its_name(stem: Seq<char>, name: Seq<char>)
    ensures
        stem.len() > 0 && stem != "ledger"@ ==> names_a_decision(stem + ".json"@),
        !names_a_decision("ledger.json"@),
        !names_a_decision(".json"@),
        names_a_decision(name) ==> name.len() > 5 && name.subrange(
            name.len() - 5,
            name.len() as int,
        ) == ".json"@,
{
    reveal_strlit(".json");
    reveal_strlit("ledger");
    reveal_strlit("ledger.json");
    let s = stem + ".json"@;
    assert(s.subrange(s.len() - 5, s.len() as int) =~= ".json"@);
    if s == "ledger.json"@ {
        assert(stem =~= s.subrange(0, 6));
        assert("ledger.json"@.subrange(0, 6) =~= "ledger"@);
    }
}

/// The records beside a ledger are those of its files that are records, by their heads.
pub proof fn a_record_is_found_by_its_head(found: Seq<FoundModel>, h: Seq<char>)
    ensures
        heads_found(found).contains(h) <==> exists|i: int|
            0 <= i < found.len() && #[trigger] found[i] == FoundModel::Head(h),
    decreases found.len(),
{
    if found.len() > 0 {
        let before = found.drop_last();
        let all = heads_found(found);
        a_record_is_found_by_its_head(before, h);
        assert(found[found.len() - 1] == found.last());
        if heads_found(before).contains(h) {
            let k = choose|k: int| 0 <= k < heads_found(before).len() && heads_found(before)[k] == h;
            assert(all[k] == h);
            let i = choose|i: int|
                0 <= i < before.len() && #[trigger] before[i] == FoundModel::Head(h);
            assert(found[i] == before[i]);
        }
        if let FoundModel::Head(x) = found.last() {
            assert(all[all.len() - 1] == x);
        }
        if all.contains(h) {
            let k = choose|k: int| 0 <= k < all.len() && all[k] == h;
            if k < heads_found(before).len() {
                assert(heads_found(before)[k] == h);
            }
        }
        if exists|i: int| 0 <= i < found.len() && #[trigger] found[i] == FoundModel::Head(h) {
            let i = choose|i: int| 0 <= i < found.len() && #[trigger] found[i] == FoundModel::Head(h);
            if i < before.len() {
                assert(before[i] == found[i]);
            }
        }
    }
}

/// The first check that fails is the one that is reported: the hashes, then the start, then the seals,
/// then the checkpoint, then the files.
pub proof fn the_first_check_that_fails_is_reported(a: LedgerAuditModel)
    ensures
        a.chain matches Some(e) ==> a.fault() == Some(LedgerFaultModel::Chain(e)),
        a.chain is None && a.events.len() == 0 ==> a.fault() == Some(LedgerFaultModel::Empty),
        a.chain is None && a.events.len() > 0 && !(a.events[0] is WallStarted) ==> a.fault() == Some(
            LedgerFaultModel::Start(a.events[0].line()),
        ),
        a.chain is None && a.events.len() > 0 && a.events[0] is WallStarted ==> {
            &&& a.seals matches Some(e) ==> a.fault() == Some(LedgerFaultModel::Seals(e))
            &&& a.seals is None && a.commitment is Unsigned ==> a.fault() == Some(
                LedgerFaultModel::Unsigned,
            )
            &&& a.seals is None ==> (a.commitment matches CommitmentModel::Contradicted(e)
                ==> a.fault() == Some(LedgerFaultModel::Contradicted(e)))
        },
{
}

} // verus!
