//! The command line: which command, its flags, and what each command reports.
//!
//! The exit codes are 0 for admitted, 8 for refused, and 2 where the wall could not run. A refusal
//! is a decision and not a malfunction.
use vstd::prelude::*;

use crate::admission;
use crate::admission::{
    money, Decision, DecisionModel, Refusal, RefusalModel, Spend, SpendModel, Verdict, VerdictModel,
};
use crate::cost::{
    CostError, CostErrorModel, PriceList, PriceListModel, SpendReport, SpendReportModel,
};
use crate::digest;
use crate::digest::decode_key32;
use crate::grant::Reversibility;
use crate::manifest::{ManifestError, ManifestErrorModel};
use crate::model;
use crate::pod::{EffectRow, EffectRowModel, PodEffects, PodEffectsModel};
use crate::text;
use crate::text::{has_prefix, owned, same, show, strip_prefix, trim};
use crate::trust::Standing;

verus! {

/// A command.
#[derive(Debug, Clone, Copy, PartialEq, Eq, Structural)]
pub enum Command {
    Admit,
    Compile,
    Narrow,
    AuditVerify,
    AuditReconcile,
    AuditPubkey,
    Serve,
    Help,
    Unknown,
}

impl DeepView for Command {
    type V = Command;

    open spec fn deep_view(&self) -> Command {
        *self
    }
}

/// What a command prints, and the code it exits with.
#[derive(Debug, Clone, PartialEq, Eq)]
pub struct Report {
    pub lines: Vec<String>,
    pub code: u8,
}

/// What a [`Report`] says.
#[verifier::ext_equal]
pub struct ReportModel {
    pub lines: Seq<Seq<char>>,
    pub code: u8,
}

impl DeepView for Report {
    type V = ReportModel;

    open spec fn deep_view(&self) -> ReportModel {
        ReportModel {
            lines: self.lines.deep_view(),
            code: self.code.deep_view(),
        }
    }
}

// ---------------------------------------------------------------------------------------------
// Commands and flags
// ---------------------------------------------------------------------------------------------
/// The command that the words say, and how many of them say it.
pub open spec fn commanded(args: Seq<Seq<char>>) -> (Command, int) {
    if args.len() == 0 {
        (Command::Help, 0)
    } else if args[0] == "admit"@ {
        (Command::Admit, 1)
    } else if args[0] == "compile"@ {
        (Command::Compile, 1)
    } else if args[0] == "serve"@ {
        (Command::Serve, 1)
    } else if args.len() >= 2 && args[0] == "manifest"@ && args[1] == "narrow"@ {
        (Command::Narrow, 2)
    } else if args.len() >= 2 && args[0] == "audit"@ && args[1] == "verify"@ {
        (Command::AuditVerify, 2)
    } else if args.len() >= 2 && args[0] == "audit"@ && args[1] == "reconcile"@ {
        (Command::AuditReconcile, 2)
    } else if args.len() >= 2 && args[0] == "audit"@ && args[1] == "pubkey"@ {
        (Command::AuditPubkey, 2)
    } else if args.len() == 1 && (args[0] == "--help"@ || args[0] == "-h"@) {
        (Command::Help, 1)
    } else {
        (Command::Unknown, 0)
    }
}

/// The command that the words say, and how many of them say it.
pub fn command(args: &[&str]) -> (r: (Command, usize))
    ensures
        (r.0, r.1 as int) == commanded(args.deep_view()),
{
    let ghost all = args.deep_view();
    let n: usize = args.len();
    assert(all.len() == n);
    if n == 0 {
        return (Command::Help, 0);
    }
    let first = args[0];
    assert(all[0] == first@);
    if same(first, "admit") {
        return (Command::Admit, 1);
    }
    if same(first, "compile") {
        return (Command::Compile, 1);
    }
    if same(first, "serve") {
        return (Command::Serve, 1);
    }
    if n >= 2 {
        let second = args[1];
        assert(all[1] == second@);
        if same(first, "manifest") && same(second, "narrow") {
            return (Command::Narrow, 2);
        }
        if same(first, "audit") && same(second, "verify") {
            return (Command::AuditVerify, 2);
        }
        if same(first, "audit") && same(second, "reconcile") {
            return (Command::AuditReconcile, 2);
        }
        if same(first, "audit") && same(second, "pubkey") {
            return (Command::AuditPubkey, 2);
        }
    }
    if n == 1 && (same(first, "--help") || same(first, "-h")) {
        return (Command::Help, 1);
    }
    (Command::Unknown, 0)
}

/// The value of `name` that one word gives by itself: what follows the name and a `=`.
pub open spec fn value_in(word: Seq<char>, name: Seq<char>) -> Option<Seq<char>> {
    if text::starts_with(word, name + "="@) {
        Some(word.subrange((name.len() + 1) as int, word.len() as int))
    } else {
        None
    }
}

/// A word that is a flag itself.
pub open spec fn is_flag(word: Seq<char>) -> bool {
    text::starts_with(word, "--"@)
}

/// Every value given for a flag, in order: the word that follows the flag, unless that is a flag
/// itself, or what follows it after a `=`. A flag with nothing after it has no value.
pub open spec fn flag_values(args: Seq<Seq<char>>, name: Seq<char>) -> Seq<Seq<char>>
    decreases args.len(),
{
    if args.len() == 0 {
        Seq::empty()
    } else if args[0] == name && args.len() > 1 && !is_flag(args[1]) {
        seq![args[1]] + flag_values(args.subrange(2, args.len() as int), name)
    } else {
        (match value_in(args[0], name) {
            Some(v) => seq![v],
            None => Seq::empty(),
        }) + flag_values(args.drop_first(), name)
    }
}

/// Every value given for a flag, in order, in either spelling: `--name value` and `--name=value`.
pub fn flags<'a>(args: &[&'a str], name: &str) -> (r: Vec<&'a str>)
    ensures
        r.deep_view() == flag_values(args.deep_view(), name@),
{
    let ghost all = args.deep_view();
    let equals = owned(name).concat("=");
    let mut out: Vec<&'a str> = Vec::new();
    let mut i: usize = 0;
    assert(all.subrange(0, all.len() as int) =~= all);
    assert(out.deep_view() + flag_values(all, name@) =~= flag_values(all, name@));
    while i < args.len()
        invariant
            i <= args@.len(),
            all == args.deep_view(),
            equals@ == name@ + "="@,
            out.deep_view() + flag_values(all.subrange(i as int, all.len() as int), name@)
                == flag_values(all, name@),
        decreases args@.len() - i,
    {
        let ghost rest = all.subrange(i as int, all.len() as int);
        let ghost before = out.deep_view();
        let a = args[i];
        assert(rest[0] == a@);
        if same(a, name) && i + 1 < args.len() && !has_prefix(args[i + 1], "--") {
            let v = args[i + 1];
            assert(rest[1] == v@);
            assert(rest.subrange(2, rest.len() as int) =~= all.subrange(i + 2, all.len() as int));
            out.push(v);
            assert(out.deep_view() =~= before.push(v@));
            assert(before + flag_values(rest, name@) =~= out.deep_view() + flag_values(
                all.subrange(i + 2, all.len() as int),
                name@,
            ));
            i += 2;
        } else {
            assert(i + 1 < args@.len() ==> rest[1] == args@[i + 1]@);
            assert(rest.drop_first() =~= all.subrange(i + 1, all.len() as int));
            if let Some(v) = strip_prefix(a, equals.as_str()) {
                proof {
                    reveal_strlit("=");
                }
                assert(value_in(a@, name@) == Some(v@));
                out.push(v);
                assert(out.deep_view() =~= before.push(v@));
            }
            assert(before + flag_values(rest, name@) =~= out.deep_view() + flag_values(
                all.subrange(i + 1, all.len() as int),
                name@,
            ));
            i += 1;
        }
    }
    assert(all.subrange(i as int, all.len() as int) =~= Seq::empty());
    assert(out.deep_view() =~= flag_values(all, name@));
    out
}

/// The first value given for a flag.
pub open spec fn flag_value(args: Seq<Seq<char>>, name: Seq<char>) -> Option<Seq<char>> {
    let values = flag_values(args, name);
    if values.len() > 0 {
        Some(values[0])
    } else {
        None
    }
}

/// The first value given for a flag.
pub fn flag<'a>(args: &[&'a str], name: &str) -> (r: Option<&'a str>)
    ensures
        r.deep_view() == flag_value(args.deep_view(), name@),
{
    let values = flags(args, name);
    assert(values.deep_view().len() == values.len());
    if values.len() > 0 {
        assert(values.deep_view()[0] == values@[0]@);
        Some(values[0])
    } else {
        None
    }
}

// ---------------------------------------------------------------------------------------------
// Inputs
// ---------------------------------------------------------------------------------------------
/// What is said where only one of the two inputs of the budget wall is given.
pub open spec fn half_a_budget() -> Seq<char> {
    "--prices and --spend go together: pricing a pod without knowing what the namespace already spends checks nothing"@
}

/// The two inputs of the budget wall: both or neither. Half of them is an error and no silent
/// half-check.
pub fn spend_flags<'a>(prices: Option<&'a str>, spend: Option<&'a str>) -> (r: Result<
    Option<(&'a str, &'a str)>,
    String,
>)
    ensures
        model::outcome(r) == (match (prices.deep_view(), spend.deep_view()) {
            (None, None) => Ok(None),
            (Some(p), Some(s)) => Ok(Some((p, s))),
            _ => Err(half_a_budget()),
        }),
{
    match prices {
        None => match spend {
            None => Ok(None),
            Some(_) => Err(
                owned(
                    "--prices and --spend go together: pricing a pod without knowing what the namespace already spends checks nothing",
                ),
            ),
        },
        Some(p) => match spend {
            Some(s) => Ok(Some((p, s))),
            None => Err(
                owned(
                    "--prices and --spend go together: pricing a pod without knowing what the namespace already spends checks nothing",
                ),
            ),
        },
    }
}

/// A price list and a report together, or the first complaint about them.
pub open spec fn spend_of(
    prices: Result<PriceListModel, CostErrorModel>,
    report: Result<SpendReportModel, CostErrorModel>,
) -> Result<SpendModel, CostErrorModel> {
    match prices {
        Err(e) => Err(e),
        Ok(prices) => match report {
            Err(e) => Err(e),
            Ok(report) => Ok(SpendModel { prices, report }),
        },
    }
}

/// A price list and a report together, or the first complaint about them.
pub fn pair_spend(
    prices: Result<PriceList, CostError>,
    report: Result<SpendReport, CostError>,
) -> (r: Result<Spend, CostError>)
    ensures
        model::outcome(r) == spend_of(model::outcome(prices), model::outcome(report)),
{
    match prices {
        Err(e) => Err(e),
        Ok(prices) => match report {
            Err(e) => Err(e),
            Ok(report) => Ok(Spend { prices, report }),
        },
    }
}

/// What is said where pods are priced against a manifest that declares no budget: it authorises no
/// spend, so every one of them will be refused.
pub fn undeclared_budget(max_money_cents: u64) -> (r: String)
    ensures
        r@ == "warning: this LexManifest declares no `budget`, so it authorises no spend at all ("@
            + text::decimal(max_money_cents as nat)
            + " minor units) and every priced pod will be refused — declare one, or drop --prices/--spend"@,
{
    owned(
        "warning: this LexManifest declares no `budget`, so it authorises no spend at all (",
    ).concat(show(max_money_cents).as_str()).concat(
        " minor units) and every priced pod will be refused — declare one, or drop --prices/--spend",
    )
}

/// The text of the key that seals: what the flag says, or else what the file holds.
pub open spec fn key_text(key: Option<Seq<char>>, file: Option<Seq<char>>) -> Option<Seq<char>> {
    match key {
        Some(k) => Some(k),
        None => match file {
            Some(t) => Some(text::trimmed(t)),
            None => None,
        },
    }
}

/// The key that seals, from a flag or from the text of a file. The flag wins.
pub fn signing_key(key: Option<&str>, file: Option<&str>) -> (r: Result<Option<[u8; 32]>, String>)
    ensures
        match r {
            Ok(None) => key_text(key.deep_view(), file.deep_view()) is None,
            Ok(Some(k)) => match key_text(key.deep_view(), file.deep_view()) {
                Some(t) => digest::bytes_of(text::trimmed(t)) == Some(k@),
                None => false,
            },
            Err(e) => match key_text(key.deep_view(), file.deep_view()) {
                Some(t) => e@ == digest::key_complaint(t) && (match digest::bytes_of(
                    text::trimmed(t),
                ) {
                    Some(b) => b.len() != 32,
                    None => true,
                }),
                None => false,
            },
        },
{
    let chosen: &str = match key {
        Some(k) => k,
        None => match file {
            Some(t) => trim(t),
            None => return Ok(None),
        },
    };
    match decode_key32(chosen) {
        Ok(k) => Ok(Some(k)),
        Err(e) => Err(e),
    }
}

// ---------------------------------------------------------------------------------------------
// Reports
// ---------------------------------------------------------------------------------------------
/// Add one line.
pub(crate) fn say(out: &mut Vec<String>, line: String)
    ensures
        final(out).deep_view() == old(out).deep_view().push(line@),
{
    let ghost before = out.deep_view();
    out.push(line);
    assert(out.deep_view() =~= before.push(line@));
}

pub(crate) fn silence() -> (r: Vec<String>)
    ensures
        r.deep_view() == Seq::<Seq<char>>::empty(),
{
    let r: Vec<String> = Vec::new();
    assert(r.deep_view() =~= Seq::<Seq<char>>::empty());
    r
}

/// The three lines on one refusal.
pub open spec fn refusal_lines(r: RefusalModel) -> Seq<Seq<char>> {
    seq![
        "  ["@ + r.wall.word() + "] "@ + r.effect,
        "    at:     "@ + r.source,
        "    reason: "@ + r.reason,
    ]
}

/// The lines on refusals.
pub open spec fn refusals_lines(all: Seq<RefusalModel>) -> Seq<Seq<char>>
    decreases all.len(),
{
    if all.len() == 0 {
        Seq::empty()
    } else {
        refusals_lines(all.drop_last()) + refusal_lines(all.last())
    }
}

/// The lines on a verdict.
pub open spec fn verdict_lines(subject: Seq<char>, d: DecisionModel) -> Seq<Seq<char>> {
    match d.verdict {
        VerdictModel::Admit => seq!["ADMITTED  "@ + subject] + Seq::new(
            d.unchecked.len(),
            |i: int| "  not checked: "@ + d.unchecked[i],
        ),
        VerdictModel::Deny { all, .. } => seq![
            "REFUSED   "@ + subject + " — "@ + text::decimal(all.len()) + " wall(s) tripped"@,
        ] + refusals_lines(all),
    }
}

/// The line on the price.
pub open spec fn spend_line(charged: Option<u64>) -> Seq<char> {
    match charged {
        Some(minor) => "spend:     this pod reserves "@ + admission::amount(minor as nat)
            + " / month (forecast on requests, not a meter)"@,
        None => "spend:     unpriced — no --prices/--spend"@,
    }
}

/// The line on the submitter.
pub open spec fn submitter_line(signer: Option<Seq<char>>, standing: Standing) -> Seq<char> {
    match signer {
        None => if standing is NotConsulted {
            "submitter: unauthenticated"@
        } else {
            "submitter: unauthenticated (no earned standing)"@
        },
        Some(w) => "submitter: "@ + w + (match standing {
            Standing::NotConsulted => " (trust not consulted)"@,
            Standing::Trusted => " (in the trusted keyring)"@,
            Standing::Unknown => " (not in the trusted keyring — no waivers)"@,
        }),
    }
}

/// The line on the record: a record is sealed only where every entry of it is.
pub open spec fn record_line(entries: u64, head: Seq<char>, sealed: u64) -> Seq<char> {
    "audit: "@ + text::decimal(entries as nat) + " entries, head sha256:"@ + head + (if sealed
        == entries && entries > 0 {
        " (sealed)"@
    } else {
        " (UNSEALED — anyone who can reach the file can rewrite it)"@
    })
}

fn say_refusals(out: &mut Vec<String>, all: &Vec<Refusal>)
    ensures
        final(out).deep_view() == old(out).deep_view() + refusals_lines(all.deep_view()),
{
    let ghost start = out.deep_view();
    let ghost models = all.deep_view();
    let mut i: usize = 0;
    assert(start =~= start + refusals_lines(models.subrange(0, 0)));
    while i < all.len()
        invariant
            i <= all.len(),
            models == all.deep_view(),
            out.deep_view() == start + refusals_lines(models.subrange(0, i as int)),
        decreases all.len() - i,
    {
        let ghost next = models.subrange(0, i + 1);
        assert(next.drop_last() =~= models.subrange(0, i as int));
        let r = &all[i];
        assert(next.last() == r.deep_view());
        say(out, owned("  [").concat(r.wall.as_str()).concat("] ").concat(r.effect.as_str()));
        say(out, owned("    at:     ").concat(r.source.as_str()));
        say(out, owned("    reason: ").concat(r.reason.as_str()));
        assert(out.deep_view() =~= start + refusals_lines(next));
        i += 1;
    }
    assert(models.subrange(0, i as int) =~= models);
}

/// What is reported of an admission: the verdict, the price, the submitter and the record.
pub fn admission_report(
    subject: &str,
    decision: &Decision,
    entries: u64,
    head: &str,
    sealed: u64,
) -> (r: Vec<String>)
    ensures
        r.deep_view() == verdict_lines(subject@, decision.deep_view()) + seq![
            spend_line(decision.deep_view().charged),
            submitter_line(decision.deep_view().signer, decision.deep_view().standing),
            record_line(entries, head@, sealed),
        ],
{
    let mut out = silence();
    let ghost model = decision.deep_view();
    match &decision.verdict {
        Verdict::Admit => {
            say(&mut out, owned("ADMITTED  ").concat(subject));
            let ghost start = out.deep_view();
            let ghost notes = Seq::new(
                model.unchecked.len(),
                |i: int| "  not checked: "@ + model.unchecked[i],
            );
            assert(start =~= start + notes.subrange(0, 0));
            let mut i: usize = 0;
            while i < decision.unchecked.len()
                invariant
                    i <= decision.unchecked.len(),
                    model == decision.deep_view(),
                    notes == Seq::new(
                        model.unchecked.len(),
                        |i: int| "  not checked: "@ + model.unchecked[i],
                    ),
                    out.deep_view() == start + notes.subrange(0, i as int),
                decreases decision.unchecked.len() - i,
            {
                assert(model.unchecked[i as int] == decision.unchecked@[i as int]@);
                say(
                    &mut out,
                    owned("  not checked: ").concat(decision.unchecked[i].as_str()),
                );
                assert(out.deep_view() =~= start + notes.subrange(0, i + 1));
                i += 1;
            }
            assert(notes.subrange(0, i as int) =~= notes);
            assert(out.deep_view() =~= verdict_lines(subject@, model));
        },
        Verdict::Deny { all, .. } => {
            assert(all.deep_view().len() == all.len());
            say(
                &mut out,
                owned("REFUSED   ").concat(subject).concat(" — ").concat(
                    show(all.len() as u64).as_str(),
                ).concat(" wall(s) tripped"),
            );
            say_refusals(&mut out, all);
            assert(out.deep_view() =~= verdict_lines(subject@, model));
        },
    }
    let ghost lines = out.deep_view();
    let spend: String = match decision.charged {
        Some(minor) => owned("spend:     this pod reserves ").concat(
            money(minor).as_str(),
        ).concat(" / month (forecast on requests, not a meter)"),
        None => owned("spend:     unpriced — no --prices/--spend"),
    };
    say(&mut out, spend);
    let submitter: String = match &decision.signer {
        None => match decision.standing {
            Standing::NotConsulted => owned("submitter: unauthenticated"),
            _ => owned("submitter: unauthenticated (no earned standing)"),
        },
        Some(w) => owned("submitter: ").concat(w.as_str()).concat(
            match decision.standing {
                Standing::NotConsulted => " (trust not consulted)",
                Standing::Trusted => " (in the trusted keyring)",
                Standing::Unknown => " (not in the trusted keyring — no waivers)",
            },
        ),
    };
    say(&mut out, submitter);
    let seal: &str = if sealed == entries && entries > 0 {
        " (sealed)"
    } else {
        " (UNSEALED — anyone who can reach the file can rewrite it)"
    };
    say(
        &mut out,
        owned("audit: ").concat(show(entries).as_str()).concat(" entries, head sha256:").concat(
            head,
        ).concat(seal),
    );
    assert(out.deep_view() =~= lines + seq![
        spend_line(model.charged),
        submitter_line(model.signer, model.standing),
        record_line(entries, head@, sealed),
    ]);
    out
}

/// `s`, with as many spaces after it as it is short of `width`.
pub open spec fn padded(s: Seq<char>, width: nat) -> Seq<char> {
    if s.len() < width {
        s + Seq::new((width - s.len()) as nat, |i: int| ' ')
    } else {
        s
    }
}

fn pad(s: String, width: usize) -> (r: String)
    ensures
        r@ == padded(s@, width as nat),
{
    let n: usize = s.as_str().unicode_len();
    let ghost given = s@;
    let mut out = s;
    let mut i: usize = n;
    assert(given =~= given + Seq::new(0, |i: int| ' '));
    while i < width
        invariant
            n == given.len(),
            n <= i,
            i <= width || i == n,
            out@ == given + Seq::new((i - n) as nat, |i: int| ' '),
        decreases width - i,
    {
        out.push(' ');
        assert(out@ =~= given + Seq::new((i + 1 - n) as nat, |i: int| ' '));
        i += 1;
    }
    assert(out@ =~= padded(given, width as nat));
    out
}

/// The word for how hard an effect is to walk back.
pub open spec fn class_word(r: Reversibility) -> Seq<char> {
    match r {
        Reversibility::ReversibleCheap => "cheap"@,
        Reversibility::IrreversibleBounded => "bounded"@,
        Reversibility::IrreversibleConsequential => "CONSEQUENTIAL"@,
    }
}

/// The line on one row.
pub open spec fn row_line(r: EffectRowModel) -> Seq<char> {
    padded(r.source.path(), 50) + " "@ + padded(r.effect.label(), 44) + " "@ + class_word(
        r.reversibility,
    )
}

/// What is reported of a compiled pod.
pub open spec fn pod_lines(p: PodEffectsModel) -> Seq<Seq<char>> {
    seq![
        "spec:   sha256:"@ + p.spec_sha256,
        "state:  sha256:"@ + p.snapshot_sha256,
        Seq::empty(),
        padded("SOURCE"@, 50) + " "@ + padded("EFFECT"@, 44) + " CLASS"@,
    ] + Seq::new(p.rows.len(), |i: int| row_line(p.rows[i])) + seq![
        Seq::empty(),
        "this pod demands:"@,
        "  filesystem: "@ + p.demands.filesystem.label(),
        "  network:    "@ + p.demands.network.label(),
        "  exec:       "@ + p.demands.execution.label(),
    ]
}

/// What is reported of a compiled pod: what was read, every row, and what they demand together.
pub fn compile_report(pod: &PodEffects) -> (r: Vec<String>)
    ensures
        r.deep_view() == pod_lines(pod.deep_view()),
{
    let mut out = silence();
    let ghost model = pod.deep_view();
    say(&mut out, owned("spec:   sha256:").concat(pod.spec_sha256.as_str()));
    say(&mut out, owned("state:  sha256:").concat(pod.snapshot_sha256.as_str()));
    let blank = String::new();
    assert(blank@ =~= Seq::<char>::empty());
    say(&mut out, blank);
    say(
        &mut out,
        pad(owned("SOURCE"), 50).concat(" ").concat(pad(owned("EFFECT"), 44).as_str()).concat(
            " CLASS",
        ),
    );
    let ghost start = out.deep_view();
    let ghost rows = Seq::new(model.rows.len(), |i: int| row_line(model.rows[i]));
    assert(start =~= start + rows.subrange(0, 0));
    let mut i: usize = 0;
    while i < pod.rows.len()
        invariant
            i <= pod.rows.len(),
            model == pod.deep_view(),
            rows == Seq::new(model.rows.len(), |i: int| row_line(model.rows[i])),
            out.deep_view() == start + rows.subrange(0, i as int),
        decreases pod.rows.len() - i,
    {
        let row: &EffectRow = &pod.rows[i];
        assert(model.rows[i as int] == row.deep_view());
        let class: &str = match row.reversibility {
            Reversibility::ReversibleCheap => "cheap",
            Reversibility::IrreversibleBounded => "bounded",
            Reversibility::IrreversibleConsequential => "CONSEQUENTIAL",
        };
        say(
            &mut out,
            pad(row.source.to_text(), 50).concat(" ").concat(
                pad(row.effect.name(), 44).as_str(),
            ).concat(" ").concat(class),
        );
        assert(out.deep_view() =~= start + rows.subrange(0, i + 1));
        i += 1;
    }
    assert(rows.subrange(0, i as int) =~= rows);
    let blank = String::new();
    assert(blank@ =~= Seq::<char>::empty());
    say(&mut out, blank);
    say(&mut out, owned("this pod demands:"));
    say(&mut out, owned("  filesystem: ").concat(pod.demands.filesystem.name()));
    say(&mut out, owned("  network:    ").concat(pod.demands.network.name()));
    say(&mut out, owned("  exec:       ").concat(pod.demands.execution.name()));
    assert(out.deep_view() =~= pod_lines(model));
    out
}

/// What is reported of a manifest that was held to its parent.
pub open spec fn narrowing_reported(
    widening: Option<ManifestErrorModel>,
    parent_id: Seq<char>,
    child_id: Seq<char>,
) -> ReportModel {
    match widening {
        None => ReportModel {
            lines: seq![
                "ACCEPTED — the child narrows its parent."@,
                "  parent: "@ + parent_id,
                "  child:  "@ + child_id,
            ],
            code: 0,
        },
        Some(e) => ReportModel {
            lines: seq![
                "REFUSED — the child widens its parent."@,
                "  "@ + e.message(),
                Seq::empty(),
                "A team lead hands out authority they hold, never authority they"@,
                "do not. This is the wall a constraint language has nowhere to put."@,
            ],
            code: 8,
        },
    }
}

/// What is reported of a manifest that was held to its parent.
pub fn narrow_report(outcome: &Result<(), ManifestError>, parent_id: &str, child_id: &str) -> (r:
    Report)
    ensures
        r.deep_view() == narrowing_reported(
            match *outcome {
                Ok(_) => None,
                Err(e) => Some(e.deep_view()),
            },
            parent_id@,
            child_id@,
        ),
{
    let mut lines = silence();
    match outcome {
        Ok(_) => {
            say(&mut lines, owned("ACCEPTED — the child narrows its parent."));
            say(&mut lines, owned("  parent: ").concat(parent_id));
            say(&mut lines, owned("  child:  ").concat(child_id));
            let r = Report { lines, code: 0 };
            assert(r.deep_view() =~= narrowing_reported(None, parent_id@, child_id@));
            r
        },
        Err(e) => {
            say(&mut lines, owned("REFUSED — the child widens its parent."));
            say(&mut lines, owned("  ").concat(e.to_text().as_str()));
            let blank = String::new();
            assert(blank@ =~= Seq::<char>::empty());
            say(&mut lines, blank);
            say(
                &mut lines,
                owned("A team lead hands out authority they hold, never authority they"),
            );
            say(
                &mut lines,
                owned("do not. This is the wall a constraint language has nowhere to put."),
            );
            let r = Report { lines, code: 8 };
            assert(r.deep_view() =~= narrowing_reported(
                Some(e.deep_view()),
                parent_id@,
                child_id@,
            ));
            r
        },
    }
}

// ---------------------------------------------------------------------------------------------
// Laws
// ---------------------------------------------------------------------------------------------
/// Both spellings of a flag say the same, wherever the flag stands first. A value that looks like a
/// flag has only the one with the `=`.
pub proof fn both_spellings_say_the_same(rest: Seq<Seq<char>>, name: Seq<char>, value: Seq<char>)
    requires
        !is_flag(value),
    ensures
        flag_values(seq![name, value] + rest, name) == flag_values(
            seq![name + "="@ + value] + rest,
            name,
        ),
{
    reveal_strlit("=");
    let apart = seq![name, value] + rest;
    let joined = seq![name + "="@ + value] + rest;
    assert(apart.subrange(2, apart.len() as int) =~= rest);
    assert(joined.drop_first() =~= rest);
    let word = name + "="@ + value;
    assert(word.len() > name.len());
    assert(word.subrange(0, (name.len() + 1) as int) =~= name + "="@);
    assert(text::starts_with(word, name + "="@));
    assert(word.subrange((name.len() + 1) as int, word.len() as int) =~= value);
    assert(joined[0] == word);
    assert(apart[0] == name && apart[1] == value);
}

/// A flag without a value of its own says nothing, and leaves the flag that follows alone.
pub proof fn a_flag_never_swallows_the_next(
    rest: Seq<Seq<char>>,
    name: Seq<char>,
    next: Seq<char>,
    other: Seq<char>,
)
    requires
        is_flag(next),
        name != other,
        value_in(name, other) is None,
    ensures
        flag_values(seq![name, next] + rest, name) == flag_values(seq![next] + rest, name),
        flag_values(seq![name, next] + rest, other) == flag_values(seq![next] + rest, other),
{
    reveal_strlit("=");
    let both = seq![name, next] + rest;
    assert(both.drop_first() =~= seq![next] + rest);
    assert(both[0] == name && both[1] == next);
    assert(value_in(name, name) is None);
    let after = flag_values(seq![next] + rest, name);
    assert(Seq::<Seq<char>>::empty() + after =~= after);
    let others = flag_values(seq![next] + rest, other);
    assert(Seq::<Seq<char>>::empty() + others =~= others);
}

/// A flag has the word that follows it as its value, and what is no such flag is passed over.
pub proof fn a_flag_is_followed_by_its_value(
    rest: Seq<Seq<char>>,
    name: Seq<char>,
    value: Seq<char>,
    word: Seq<char>,
)
    ensures
        !is_flag(value) ==> flag_values(seq![name, value] + rest, name) == seq![value]
            + flag_values(rest, name) && flag_value(seq![name, value] + rest, name) == Some(value),
        word != name && !text::starts_with(word, name + "="@) ==> flag_values(
            seq![word] + rest,
            name,
        ) == flag_values(rest, name),
        flag_value(Seq::empty(), name) is None,
{
    let a = seq![name, value] + rest;
    assert(a.subrange(2, a.len() as int) =~= rest);
    assert((seq![word] + rest).drop_first() =~= rest);
    if word != name && !text::starts_with(word, name + "="@) {
        assert(Seq::<Seq<char>>::empty() + flag_values(rest, name) =~= flag_values(rest, name));
    }
}

/// Each command is known by its words, and what follows them is its arguments. Without words the
/// command is to help.
pub proof fn a_command_is_known_by_its_words(rest: Seq<Seq<char>>)
    ensures
        commanded(Seq::empty()) == (Command::Help, 0int),
        commanded(seq!["admit"@] + rest) == (Command::Admit, 1int),
        commanded(seq!["compile"@] + rest) == (Command::Compile, 1int),
        commanded(seq!["serve"@] + rest) == (Command::Serve, 1int),
        commanded(seq!["manifest"@, "narrow"@] + rest) == (Command::Narrow, 2int),
        commanded(seq!["audit"@, "verify"@] + rest) == (Command::AuditVerify, 2int),
        commanded(seq!["audit"@, "reconcile"@] + rest) == (Command::AuditReconcile, 2int),
        commanded(seq!["audit"@, "pubkey"@] + rest) == (Command::AuditPubkey, 2int),
{
    reveal_strlit("admit");
    reveal_strlit("compile");
    reveal_strlit("serve");
    reveal_strlit("manifest");
    reveal_strlit("audit");
    reveal_strlit("verify");
    reveal_strlit("reconcile");
    reveal_strlit("pubkey");
    assert("admit"@[1] == 'd' && "audit"@[1] == 'u' && "serve"@[0] == 's' && "compile"@[0] == 'c'
        && "manifest"@[0] == 'm' && "admit"@[0] == 'a' && "audit"@[0] == 'a');
    assert("verify"@.len() == 6 && "reconcile"@.len() == 9 && "pubkey"@.len() == 6 && "verify"@[0]
        == 'v' && "pubkey"@[0] == 'p');
}

/// A report of an admission says first whether the pod was admitted, and then each reason or each
/// check that was not made.
pub proof fn a_report_says_first_what_was_decided(subject: Seq<char>, d: DecisionModel)
    ensures
        d.verdict is Admit ==> verdict_lines(subject, d)[0] == "ADMITTED  "@ + subject
            && verdict_lines(subject, d).len() == 1 + d.unchecked.len(),
        d.verdict matches VerdictModel::Deny { all, .. } ==> verdict_lines(subject, d)[0]
            == "REFUSED   "@ + subject + " — "@ + text::decimal(all.len()) + " wall(s) tripped"@
            && verdict_lines(subject, d).len() == 1 + 3 * all.len(),
{
    if let VerdictModel::Deny { all, .. } = d.verdict {
        three_lines_each(all);
    }
}

proof fn three_lines_each(all: Seq<RefusalModel>)
    ensures
        refusals_lines(all).len() == 3 * all.len(),
    decreases all.len(),
{
    if all.len() > 0 {
        three_lines_each(all.drop_last());
    }
}

/// A record is reported as sealed only where it has entries and every one of them is.
pub proof fn only_a_sealed_record_is_called_sealed(entries: u64, head: Seq<char>, sealed: u64)
    ensures
        (record_line(entries, head, sealed) == "audit: "@ + text::decimal(entries as nat)
            + " entries, head sha256:"@ + head + " (sealed)"@) <==> (sealed == entries && entries > 0),
{
    reveal_strlit(" (sealed)");
    reveal_strlit(" (UNSEALED — anyone who can reach the file can rewrite it)");
    let a = "audit: "@ + text::decimal(entries as nat) + " entries, head sha256:"@ + head;
    assert((a + " (sealed)"@).len() == a.len() + 9);
    assert((a + " (UNSEALED — anyone who can reach the file can rewrite it)"@).len() > a.len() + 9);
}

/// A key is taken from the flag, or else from the file, where space around it makes no difference.
pub proof fn a_key_is_given_or_read(key: Option<Seq<char>>, file: Option<Seq<char>>)
    ensures
        key matches Some(k) ==> key_text(key, file) == Some(k),
        key is None ==> (file matches Some(t) ==> key_text(key, file) == Some(text::trimmed(t))),
        key is None && file is None ==> key_text(key, file) is None,
{
}

/// A narrowing is accepted with success exactly where nothing widens.
pub proof fn a_widening_is_no_success(
    w: Option<ManifestErrorModel>,
    parent_id: Seq<char>,
    child_id: Seq<char>,
)
    ensures
        narrowing_reported(w, parent_id, child_id).code == 0 <==> w is None,
        narrowing_reported(w, parent_id, child_id).code == 8 <==> w is Some,
{
}

/// A word is a flag exactly where it begins with two hyphens.
pub proof fn a_flag_begins_with_two_hyphens(word: Seq<char>)
    ensures
        is_flag(word) <==> word.len() >= 2 && word[0] == '-' && word[1] == '-',
{
    reveal_strlit("--");
    if word.len() >= 2 {
        let head = word.subrange(0, 2);
        assert(head[0] == word[0] && head[1] == word[1]);
        if word[0] == '-' && word[1] == '-' {
            assert(head =~= "--"@);
        }
    }
}

} // verus!
