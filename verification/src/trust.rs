//! Who submitted a pod, and what their track record says.
//!
//! The record is an input: a `{"trusted":[…]}` keyring of the submitters that have earned a
//! score. The submitter is the identity that the API server authenticated, never one that the
//! caller names.
//!
//! Trust narrows; it never widens. All that standing decides is whether a waiver that the manifest
//! already grants applies to this submitter.
use vstd::prelude::*;

use crate::json;
use crate::json::{check, check_members, read_field, Json, Members, Readable, Tree};
use crate::model;
use crate::scan;
use crate::scan::{
    check_record, read_source, Field, FieldModel, Record, Scan, Scannable, Scanned,
};
use crate::text::{listed, owned, same};

verus! {

/// The submitters that have earned a score.
#[derive(Debug, Clone, PartialEq, Eq)]
pub struct Keyring {
    pub trusted: Vec<String>,
}

/// What a [`Keyring`] says.
#[verifier::ext_equal]
pub struct KeyringModel {
    pub trusted: Seq<Seq<char>>,
}

impl DeepView for Keyring {
    type V = KeyringModel;

    open spec fn deep_view(&self) -> KeyringModel {
        KeyringModel {
            trusted: self.trusted.deep_view(),
        }
    }
}

impl Default for Keyring {
    fn default() -> (r: Keyring)
        ensures
            r.deep_view() == Keyring::nothing(),
    {
        let r = Keyring {
            trusted: Vec::new(),
        };
        assert(r.trusted.deep_view() =~= Seq::empty());
        r
    }
}

impl Members for Keyring {
    open spec fn member_fault(name: Seq<char>, v: Tree) -> Option<Seq<char>> {
        if name == "trusted"@ {
            <Vec<String> as Readable>::fault(v)
        } else {
            None
        }
    }

    fn check_member(name: &str, v: &Json) -> (r: Result<(), String>) {
        if same(name, "trusted") {
            check::<Vec<String>>(v)
        } else {
            Ok(())
        }
    }
}

impl Readable for Keyring {
    open spec fn fault(t: Tree) -> Option<Seq<char>> {
        let f = t.record_fault("struct Keyring"@);
        let f = json::first_fault(f, json::members_fault::<Keyring>(t));
        let f = json::first_fault(f, json::field_fault::<Vec<String>>(t, "trusted"@, 0));
        json::first_fault(f, t.surplus_fault(1))
    }

    open spec fn value(t: Tree) -> KeyringModel {
        KeyringModel {
            trusted: json::field_value::<Vec<String>>(t, "trusted"@, 0),
        }
    }

    open spec fn nothing() -> KeyringModel {
        KeyringModel {
            trusted: Seq::empty(),
        }
    }

    fn read(j: &Json) -> (r: Result<Self, String>) {
        if let Err(e) = j.check_record("struct Keyring") {
            return Err(e);
        }
        if let Err(e) = check_members::<Keyring>(j) {
            return Err(e);
        }
        let trusted: Vec<String> = match read_field(j, "trusted", 0) {
            Ok(x) => x,
            Err(e) => return Err(e),
        };
        if let Err(e) = j.check_surplus(1) {
            return Err(e);
        }
        Ok(Keyring { trusted })
    }

    fn absent() -> (r: Self) {
        Keyring::default()
    }
}

/// The keyring could not be read.
#[derive(Debug, Clone, PartialEq, Eq)]
pub enum TrustError {
    Json(String),
}

/// What a [`TrustError`] says.
#[verifier::ext_equal]
pub enum TrustErrorModel {
    Json(Seq<char>),
}

impl DeepView for TrustError {
    type V = TrustErrorModel;

    open spec fn deep_view(&self) -> TrustErrorModel {
        match self {
            TrustError::Json(x) => TrustErrorModel::Json(x.deep_view()),
        }
    }
}

/// What the keyring says about a submitter.
#[derive(Debug, Clone, Copy, PartialEq, Eq, Structural)]
pub enum Standing {
    /// No keyring was supplied. Not to have asked is another fact than to have asked and found
    /// nothing.
    NotConsulted,
    /// In the keyring.
    Trusted,
    /// Not in the keyring: never scored, or scored too low.
    Unknown,
}

impl DeepView for Standing {
    type V = Standing;

    open spec fn deep_view(&self) -> Standing {
        *self
    }
}

/// Who submitted a pod, as the API server authenticated them.
#[derive(Debug, Clone, PartialEq, Eq)]
pub struct Submitter {
    pub signer: String,
    pub standing: Standing,
}

/// What a [`Submitter`] says.
#[verifier::ext_equal]
pub struct SubmitterModel {
    pub signer: Seq<char>,
    pub standing: Standing,
}

impl DeepView for Submitter {
    type V = SubmitterModel;

    open spec fn deep_view(&self) -> SubmitterModel {
        SubmitterModel {
            signer: self.signer.deep_view(),
            standing: self.standing.deep_view(),
        }
    }
}

impl TrustErrorModel {
    /// The complaint in words.
    pub open spec fn message(self) -> Seq<char> {
        match self {
            TrustErrorModel::Json(e) => "the keyring is not readable JSON: "@ + e,
        }
    }
}

impl TrustError {
    pub fn to_text(&self) -> (r: String)
        ensures
            r@ == self.deep_view().message(),
    {
        match self {
            TrustError::Json(e) => owned("the keyring is not readable JSON: ").concat(e.as_str()),
        }
    }
}

/// What it is called, and its fields in order.
impl Record for Keyring {
    open spec fn title() -> Seq<char> {
        "struct Keyring"@
    }

    open spec fn layout() -> Seq<FieldModel> {
        seq![
            FieldModel { name: "trusted"@, required: false },
        ]
    }

    open spec fn scan_field(i: nat, s: Seq<char>) -> Scan {
        <Vec<String> as Scannable>::scan(s)
    }

    fn called() -> (r: &'static str) {
        "struct Keyring"
    }

    fn fields() -> (r: Vec<Field>) {
        let mut v: Vec<Field> = Vec::new();
        v.push(Field { name: "trusted", required: false });
        assert(v.deep_view() =~= Self::layout());
        v
    }

    fn check_field<'a>(i: usize, s: &'a str) -> (r: Scanned<'a>) {
        <Vec<String> as Scannable>::check_text(s)
    }
}

/// Read straight from a text.
impl Scannable for Keyring {
    open spec fn scan(s: Seq<char>) -> Scan {
        scan::scan_record::<Keyring>(s)
    }

    fn check_text<'a>(s: &'a str) -> (r: Scanned<'a>) {
        check_record::<Keyring>(s)
    }
}

impl KeyringModel {
    /// The keyring that a document says.
    pub open spec fn of(t: Tree) -> Result<KeyringModel, TrustErrorModel> {
        match Keyring::fault(t) {
            Some(e) => Err(TrustErrorModel::Json(e)),
            None => Ok(Keyring::value(t)),
        }
    }

    /// What the keyring says about `signer`. An empty keyring trusts nobody.
    pub open spec fn standing(self, signer: Seq<char>) -> Standing {
        if self.trusted.contains(signer) {
            Standing::Trusted
        } else {
            Standing::Unknown
        }
    }
}

impl Keyring {
    pub fn new(trusted: &[&str]) -> (r: Keyring)
        ensures
            r.deep_view().trusted == trusted.deep_view(),
    {
        let mut v: Vec<String> = Vec::new();
        let mut i: usize = 0;
        while i < trusted.len()
            invariant
                i <= trusted@.len(),
                v@.len() == i,
                forall|k: int| 0 <= k < i ==> (#[trigger] v@[k])@ == trusted@[k]@,
            decreases trusted@.len() - i,
        {
            v.push(owned(trusted[i]));
            i += 1;
        }
        assert(v.deep_view() =~= trusted.deep_view());
        Keyring { trusted: v }
    }

    /// The keyring that a document says. One without a `trusted` list trusts nobody.
    pub fn from_document(doc: &Json) -> (r: Result<Keyring, TrustError>)
        ensures
            model::outcome(r) == KeyringModel::of(doc@),
    {
        match Keyring::read(doc) {
            Ok(k) => Ok(k),
            Err(e) => Err(TrustError::Json(e)),
        }
    }

    /// Parse a keyring, and hold it to its text: the first thing that does not fit is complained of,
    /// with its line and column, and a field that is given twice does not fit.
    pub fn from_json(src: &str) -> (r: Result<Keyring, TrustError>)
        ensures
            model::outcome(r) == (match scan::source::<Keyring>(src@) {
                Ok(t) => KeyringModel::of(t),
                Err(e) => Err(TrustErrorModel::Json(e)),
            }),
    {
        match read_source::<Keyring>(src) {
            Ok(doc) => Keyring::from_document(&doc),
            Err(e) => Err(TrustError::Json(e)),
        }
    }

    pub fn admits(&self, signer: &str) -> (r: bool)
        ensures
            r == self.deep_view().trusted.contains(signer@),
    {
        listed(&self.trusted, signer)
    }

    /// What this keyring says about `signer`.
    pub fn standing_of(&self, signer: &str) -> (r: Standing)
        ensures
            r == self.deep_view().standing(signer@),
    {
        if self.admits(signer) {
            Standing::Trusted
        } else {
            Standing::Unknown
        }
    }
}

impl Standing {
    /// The word for this standing.
    pub open spec fn word(self) -> Seq<char> {
        match self {
            Standing::NotConsulted => "not-consulted"@,
            Standing::Trusted => "trusted"@,
            Standing::Unknown => "unknown"@,
        }
    }

    /// Does this standing hold the submitter to the narrower reading of the manifest, in which no
    /// waivers apply?
    pub fn needs_the_verb_named(self) -> (r: bool)
        ensures
            r == (self is Unknown),
    {
        matches!(self, Standing::Unknown)
    }

    pub fn as_str(self) -> (r: &'static str)
        ensures
            r@ == self.word(),
    {
        match self {
            Standing::NotConsulted => "not-consulted",
            Standing::Trusted => "trusted",
            Standing::Unknown => "unknown",
        }
    }
}

impl Submitter {
    /// A submitter whose trust was not consulted.
    pub fn unconsulted(signer: &str) -> (r: Submitter)
        ensures
            r.deep_view() == (SubmitterModel { signer: signer@, standing: Standing::NotConsulted }),
    {
        Submitter { signer: owned(signer), standing: Standing::NotConsulted }
    }

    /// A submitter checked against a keyring.
    pub fn against(signer: &str, keyring: &Keyring) -> (r: Submitter)
        ensures
            r.deep_view() == (SubmitterModel {
                signer: signer@,
                standing: keyring.deep_view().standing(signer@),
            }),
    {
        let standing = keyring.standing_of(signer);
        Submitter { signer: owned(signer), standing }
    }
}

/// An empty keyring, and one whose document has no `trusted` list, trust nobody. The members of a
/// parsed document have different names.
pub proof fn an_empty_keyring_trusts_nobody(t: Tree, signer: Seq<char>)
    requires
        t is Object,
        forall|i: int, j: int|
            0 <= i < j < t->Object_0.len() ==> (#[trigger] t->Object_0[i]).0 != (
            #[trigger] t->Object_0[j]).0,
        t.member("trusted"@) is None || t.member("trusted"@) == Some(Tree::List(Seq::empty())),
    ensures
        KeyringModel::of(t) matches Ok(k) && k.standing(signer) == Standing::Unknown,
{
    let members = t->Object_0;
    assert forall|i: int| 0 <= i < members.len() implies Keyring::member_fault(
        (#[trigger] members[i]).0,
        members[i].1,
    ) is None by {
        if members[i].0 == "trusted"@ {
            json::a_first_member_is_found(members, i);
        }
    }
    json::members_are_read_where_each_is::<Keyring>(members);
    assert(Keyring::value(t).trusted =~= Seq::empty());
}

/// A keyring is read field by field: each from the member of its name or the item of its place, and left
/// empty where there is neither.
pub proof fn a_keyring_is_read_field_by_field(
    members: Seq<(Seq<char>, Tree)>,
    items: Seq<Tree>,
    i: int,
)
    requires
        json::are_distinct(members),
    ensures
        0 <= i < members.len() && members[i].0 == "trusted"@ ==> Keyring::value(Tree::Object(members)).trusted
            == <Vec<String> as Readable>::value(members[i].1),
        !json::is_there(members, "trusted"@) ==> Keyring::value(Tree::Object(members)).trusted == <Vec<String> as Readable>::nothing(),
        items.len() > 0 ==> Keyring::value(Tree::List(items)).trusted == <Vec<String> as Readable>::value(items[0]),
{
    json::a_field_is_read_by_name_or_place::<Vec<String>>(members, items, i, "trusted"@, 0);
}

/// A keyring is read wherever each of its members can be.
pub proof fn a_keyring_is_read_where_its_members_are(members: Seq<(Seq<char>, Tree)>)
    requires
        json::are_distinct(members),
        forall|j: int|
            0 <= j < members.len() && (#[trigger] members[j]).0 == "trusted"@ ==> <Vec<String> as Readable>::fault(members[j].1) is None,
    ensures
        Keyring::fault(Tree::Object(members)) is None,
{
    assert forall|j: int| 0 <= j < members.len() implies Keyring::member_fault(
        (#[trigger] members[j]).0,
        members[j].1,
    ) is None by {}
    json::members_are_read_where_each_is::<Keyring>(members);
    assert(json::field_fault::<Vec<String>>(Tree::Object(members), "trusted"@, 0) is None) by {
        json::a_member_is_found_by_name(members, "trusted"@);
        if let Some(v) = json::lookup(members, "trusted"@) {
            let j = choose|j: int| 0 <= j < members.len() && members[j] == ("trusted"@, v);
            assert(members[j].0 == "trusted"@);
        }
    }
}

/// A keyring is refused for any one member that cannot be read.
pub proof fn a_keyring_is_refused_for_one_member(members: Seq<(Seq<char>, Tree)>, i: int)
    requires
        json::are_distinct(members),
    ensures
        0 <= i < members.len() && members[i].0 == "trusted"@ && <Vec<String> as Readable>::fault(members[i].1) is Some
            ==> Keyring::fault(Tree::Object(members)) is Some,
{
    json::a_field_is_read_by_name_or_place::<Vec<String>>(members, Seq::empty(), i, "trusted"@, 0);
}

/// A signer is trusted exactly where the keyring lists them.
pub proof fn only_the_listed_are_trusted(k: KeyringModel, signer: Seq<char>)
    ensures
        k.standing(signer) == Standing::Trusted <==> k.trusted.contains(signer),
        k.standing(signer) == Standing::Unknown <==> !k.trusted.contains(signer),
{
}

/// A standing has its word.
pub proof fn a_standing_has_its_word(s: Standing)
    ensures
        s.word() == "trusted"@ <==> s is Trusted,
        s.word() == "unknown"@ <==> s is Unknown,
        s.word() == "not-consulted"@ <==> s is NotConsulted,
{
    reveal_strlit("trusted");
    reveal_strlit("unknown");
    reveal_strlit("not-consulted");
    assert("trusted"@[0] != "unknown"@[0]);
    assert("trusted"@.len() != "not-consulted"@.len());
    assert("unknown"@.len() != "not-consulted"@.len());
}

} // verus!
