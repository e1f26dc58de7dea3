//! JSON documents as plain data: parsing, printing, and reading typed values out of them.
//!
//! Parsing is `serde_json`'s. What it returns is taken apart once, into a [`Json`] that the rest
//! of the library can look inside; everything after that is ordinary verified code over the
//! document's [`Tree`].
use vstd::prelude::*;

use crate::text;
use crate::text::{digits_only, join, owned, parse, parse_signed, same, show, strip_prefix};

verus! {

/// A JSON document.
#[derive(Debug, PartialEq, Eq)]
pub enum Json {
    Null,
    Bool(bool),
    /// A number, as its text.
    Number(String),
    Text(String),
    List(Vec<Json>),
    /// The members, in order.
    Object(Vec<(String, Json)>),
}

/// What a document says.
pub enum Tree {
    Null,
    Bool(bool),
    Number(Seq<char>),
    Text(Seq<char>),
    List(Seq<Tree>),
    Object(Seq<(Seq<char>, Tree)>),
}

impl View for Json {
    type V = Tree;

    open spec fn view(&self) -> Tree
        decreases self,
    {
        match self {
            Json::Null => Tree::Null,
            Json::Bool(b) => Tree::Bool(*b),
            Json::Number(t) => Tree::Number(t@),
            Json::Text(t) => Tree::Text(t@),
            Json::List(v) => Tree::List(
                Seq::new(
                    v@.len(),
                    |i: int|
                        if 0 <= i < v@.len() {
                            v@[i].view()
                        } else {
                            arbitrary()
                        },
                ),
            ),
            Json::Object(v) => Tree::Object(
                Seq::new(
                    v@.len(),
                    |i: int|
                        if 0 <= i < v@.len() {
                            (v@[i].0@, v@[i].1.view())
                        } else {
                            arbitrary()
                        },
                ),
            ),
        }
    }
}

/// A list says its items.
pub proof fn list_view(j: Json)
    requires
        j is List,
    ensures
        j@ == Tree::List(Seq::new(j->List_0@.len(), |i: int| j->List_0@[i]@)),
{
    reveal_with_fuel(<Json as View>::view, 2);
    assert(j@->List_0 =~= Seq::new(j->List_0@.len(), |i: int| j->List_0@[i]@));
}

/// An object says its members.
pub proof fn object_view(j: Json)
    requires
        j is Object,
    ensures
        j@ == Tree::Object(
            Seq::new(j->Object_0@.len(), |i: int| (j->Object_0@[i].0@, j->Object_0@[i].1@)),
        ),
{
    reveal_with_fuel(<Json as View>::view, 2);
    assert(j@->Object_0 =~= Seq::new(
        j->Object_0@.len(),
        |i: int| (j->Object_0@[i].0@, j->Object_0@[i].1@),
    ));
}

// ---------------------------------------------------------------------------------------------
// Parsing
// ---------------------------------------------------------------------------------------------
/// `serde_json::Value`, opaque here.
#[verifier::external_type_specification]
#[verifier::external_body]
pub struct ExValue(serde_json::Value);

/// What a parsed value holds.
pub uninterp spec fn value_tree(v: serde_json::Value) -> Tree;

/// What `serde_json::from_str` makes of a text: the document, or the words of its complaint.
pub uninterp spec fn parsed(src: Seq<char>) -> Result<Tree, Seq<char>>;

/// One level of a parsed value.
pub enum Node {
    Null,
    Bool(bool),
    Number(String),
    Text(String),
    List(Vec<serde_json::Value>),
    Object(Vec<(String, serde_json::Value)>),
}

/// What one level of a parsed value holds, its children included.
pub open spec fn node_tree(n: Node) -> Tree {
    match n {
        Node::Null => Tree::Null,
        Node::Bool(b) => Tree::Bool(b),
        Node::Number(t) => Tree::Number(t@),
        Node::Text(t) => Tree::Text(t@),
        Node::List(v) => Tree::List(Seq::new(v@.len(), |i: int| value_tree(v@[i]))),
        Node::Object(v) => Tree::Object(Seq::new(v@.len(), |i: int| (v@[i].0@, value_tree(v@[i].1)))),
    }
}

/// `serde_json::from_str`, into `serde_json::Value`: the same text always gives the same document
/// or the same complaint, whose words are its `Display`.
#[verifier::external_body]
fn parse_value(src: &str) -> (r: Result<serde_json::Value, String>)
    ensures
        match r {
            Ok(v) => parsed(src@) == Ok::<Tree, Seq<char>>(value_tree(v)),
            Err(e) => parsed(src@) == Err::<Tree, Seq<char>>(e@),
        },
{
    match serde_json::from_str::<serde_json::Value>(src) {
        Ok(v) => Ok(v),
        Err(e) => Err(e.to_string()),
    }
}

/// The variants of `serde_json::Value`, one for one: a number as its `Display`, an array as its
/// elements in order, an object as the entries of its map in the map's order.
#[verifier::external_body]
fn take_apart(v: serde_json::Value) -> (n: Node)
    ensures
        node_tree(n) == value_tree(v),
{
    match v {
        serde_json::Value::Null => Node::Null,
        serde_json::Value::Bool(b) => Node::Bool(b),
        serde_json::Value::Number(n) => Node::Number(n.to_string()),
        serde_json::Value::String(s) => Node::Text(s),
        serde_json::Value::Array(a) => Node::List(a),
        serde_json::Value::Object(m) => Node::Object(m.into_iter().collect()),
    }
}

/// A parsed value as plain data.
pub(crate) fn plain(v: serde_json::Value) -> (j: Json)
    ensures
        j@ == value_tree(v),
    decreases value_tree(v),
{
    match take_apart(v) {
        Node::Null => Json::Null,
        Node::Bool(b) => Json::Bool(b),
        Node::Number(t) => Json::Number(t),
        Node::Text(t) => Json::Text(t),
        Node::List(items) => {
            let ghost all = items@;
            let mut out: Vec<Json> = Vec::new();
            for item in it: items
                invariant
                    it.seq() == all,
                    out@.len() == it.index(),
                    value_tree(v) == Tree::List(Seq::new(all.len(), |i: int| value_tree(all[i]))),
                    forall|i: int|
                        0 <= i < out@.len() ==> (#[trigger] out@[i])@ == value_tree(all[i]),
            {
                proof {
                    let s = value_tree(v)->List_0;
                    assert(s[out@.len() as int] == value_tree(item));
                    assert(decreases_to!(value_tree(v) => value_tree(v)->List_0));
                    assert(decreases_to!(s => s[out@.len() as int]));
                }
                out.push(plain(item));
            }
            let j = Json::List(out);
            proof {
                list_view(j);
            }
            assert(j@->List_0 =~= value_tree(v)->List_0);
            j
        },
        Node::Object(items) => {
            let ghost all = items@;
            let mut out: Vec<(String, Json)> = Vec::new();
            for entry in it: items
                invariant
                    it.seq() == all,
                    out@.len() == it.index(),
                    value_tree(v) == Tree::Object(
                        Seq::new(all.len(), |i: int| (all[i].0@, value_tree(all[i].1))),
                    ),
                    forall|i: int|
                        0 <= i < out@.len() ==> (#[trigger] out@[i]).0@ == all[i].0@ && out@[i].1@
                            == value_tree(all[i].1),
            {
                let (key, item) = entry;
                proof {
                    let s = value_tree(v)->Object_0;
                    assert(s[out@.len() as int] == (key@, value_tree(item)));
                    assert(decreases_to!(value_tree(v) => value_tree(v)->Object_0));
                    assert(decreases_to!(s => s[out@.len() as int]));
                    assert(decreases_to!(s[out@.len() as int] => s[out@.len() as int].1));
                }
                out.push((key, plain(item)));
            }
            let j = Json::Object(out);
            proof {
                object_view(j);
            }
            assert(j@->Object_0 =~= value_tree(v)->Object_0);
            j
        },
    }
}

// ---------------------------------------------------------------------------------------------
// Looking inside
// ---------------------------------------------------------------------------------------------
/// The first member under `key`.
pub open spec fn lookup(members: Seq<(Seq<char>, Tree)>, key: Seq<char>) -> Option<Tree>
    decreases members.len(),
{
    if members.len() == 0 {
        None
    } else if members[0].0 == key {
        Some(members[0].1)
    } else {
        lookup(members.drop_first(), key)
    }
}

/// The first member under its name is the one that is found.
pub proof fn a_first_member_is_found(members: Seq<(Seq<char>, Tree)>, k: int)
    requires
        0 <= k < members.len(),
        forall|j: int| 0 <= j < k ==> (#[trigger] members[j]).0 != members[k].0,
    ensures
        lookup(members, members[k].0) == Some(members[k].1),
    decreases members.len(),
{
    if k > 0 {
        let rest = members.drop_first();
        assert(rest[k - 1] == members[k]);
        assert forall|j: int| 0 <= j < k - 1 implies (#[trigger] rest[j]).0 != rest[k - 1].0 by {
            assert(rest[j] == members[j + 1]);
        }
        a_first_member_is_found(rest, k - 1);
    }
}

impl Tree {
    /// The member of an object under `key`; nothing else has members.
    pub open spec fn member(self, key: Seq<char>) -> Option<Tree> {
        match self {
            Tree::Object(members) => lookup(members, key),
            _ => None,
        }
    }

    /// The member under `inner` of the member under `outer`.
    pub open spec fn at(self, outer: Seq<char>, inner: Seq<char>) -> Option<Tree> {
        match self.member(outer) {
            Some(t) => t.member(inner),
            None => None,
        }
    }

    /// The text of a string; nothing else has one.
    pub open spec fn as_text(self) -> Option<Seq<char>> {
        match self {
            Tree::Text(s) => Some(s),
            _ => None,
        }
    }

    /// The field `key` of a record, which is also its field number `pos`: a record may be written
    /// as an object or, positionally, as a list.
    pub open spec fn field(self, key: Seq<char>, pos: nat) -> Option<Tree> {
        match self {
            Tree::Object(members) => lookup(members, key),
            Tree::List(items) => if pos < items.len() {
                Some(items[pos as int])
            } else {
                None
            },
            _ => None,
        }
    }

    /// What was found, in a complaint: the value itself, where it is a single one.
    pub open spec fn found(self) -> Seq<char> {
        match self {
            Tree::Null => "null"@,
            Tree::Bool(b) => if b {
                "boolean `true`"@
            } else {
                "boolean `false`"@
            },
            Tree::Number(s) => if is_integer(s) {
                "integer `"@ + s + "`"@
            } else {
                "floating point `"@ + s + "`"@
            },
            Tree::Text(s) => unexpected_text(s),
            Tree::List(_) => "sequence"@,
            Tree::Object(_) => "map"@,
        }
    }

    /// The complaint that this is not what was expected.
    pub open spec fn mismatch(self, expected: Seq<char>) -> Seq<char> {
        "invalid type: "@ + self.found() + ", expected "@ + expected
    }

    /// The complaint that this is no number of the kind expected: an integer that does not fit is of
    /// the right type, and has the wrong value.
    pub open spec fn number_complaint(self, expected: Seq<char>) -> Seq<char> {
        match self {
            Tree::Number(s) => if is_integer(s) {
                "invalid value: "@ + self.found() + ", expected "@ + expected
            } else {
                self.mismatch(expected)
            },
            _ => self.mismatch(expected),
        }
    }

    /// Why this is no record: it is neither an object nor a list.
    pub open spec fn record_fault(self, what: Seq<char>) -> Option<Seq<char>> {
        match self {
            Tree::Object(_) | Tree::List(_) => None,
            _ => Some(self.mismatch(what)),
        }
    }

    /// Why this is no record of `fields` fields, though its fields can be read: it is a list with
    /// more.
    pub open spec fn surplus_fault(self, fields: nat) -> Option<Seq<char>> {
        match self {
            Tree::List(items) => if items.len() <= fields {
                None
            } else {
                Some(
                    "invalid length "@ + text::decimal(items.len())
                        + ", expected fewer elements in array"@,
                )
            },
            _ => None,
        }
    }
}

/// The text of a number without a fraction or an exponent.
pub open spec fn is_integer(s: Seq<char>) -> bool {
    text::all_digits(
        if s.len() > 0 && s[0] == '-' {
            s.drop_first()
        } else {
            s
        },
    )
}

/// Is this the text of a number without a fraction or an exponent?
fn is_whole(s: &str) -> (r: bool)
    ensures
        r == is_integer(s@),
{
    proof {
        reveal_strlit("-");
    }
    match strip_prefix(s, "-") {
        Some(rest) => {
            assert(s@.subrange(0, 1)[0] == s@[0]);
            assert(rest@ =~= s@.drop_first());
            digits_only(rest)
        },
        None => {
            assert(s@.len() > 0 && s@[0] == '-' ==> s@.subrange(0, 1) =~= "-"@);
            digits_only(s)
        },
    }
}

/// What `serde` calls a string that it did not expect.
pub uninterp spec fn unexpected_text(s: Seq<char>) -> Seq<char>;

/// Printable ASCII, without quotes and backslashes.
pub open spec fn is_plain(s: Seq<char>) -> bool {
    forall|i: int|
        0 <= i < s.len() ==> ' ' <= #[trigger] s[i] <= '~' && s[i] != '"' && s[i] != '\\' && s[i]
            != '\''
}

/// `serde::de::Unexpected::Str` as it is displayed: the word `string`, and the string as Rust's
/// debug format writes it. That is a function of the string alone; plain text stands in it as it is,
/// between double quotes, and how any other character is written is not stated.
#[verifier::external_body]
fn unexpected_string(s: &str) -> (r: String)
    ensures
        r@ == unexpected_text(s@),
        is_plain(s@) ==> r@ == "string \""@ + s@ + "\""@,
{
    serde::de::Unexpected::Str(s).to_string()
}

impl Json {
    /// Parse a text.
    pub fn parse(src: &str) -> (r: Result<Json, String>)
        ensures
            match r {
                Ok(j) => parsed(src@) == Ok::<Tree, Seq<char>>(j@),
                Err(e) => parsed(src@) == Err::<Tree, Seq<char>>(e@),
            },
    {
        match parse_value(src) {
            Ok(v) => Ok(plain(v)),
            Err(e) => Err(e),
        }
    }

    /// The member of an object under `key`.
    pub fn member(&self, key: &str) -> (r: Option<&Json>)
        ensures
            match r {
                Some(j) => self@.member(key@) == Some(j@),
                None => self@.member(key@) is None,
            },
    {
        match self {
            Json::Object(members) => {
                proof {
                    object_view(*self);
                }
                let ghost all = self@->Object_0;
                let mut i: usize = 0;
                assert(all.subrange(0, all.len() as int) =~= all);
                while i < members.len()
                    invariant
                        i <= members.len(),
                        self@ == Tree::Object(all),
                        all == Seq::new(members@.len(), |i: int| (members@[i].0@, members@[i].1@)),
                        lookup(all, key@) == lookup(
                            all.subrange(i as int, all.len() as int),
                            key@,
                        ),
                    decreases members.len() - i,
                {
                    let ghost rest = all.subrange(i as int, all.len() as int);
                    assert(rest[0] == (members@[i as int].0@, members@[i as int].1@));
                    if same(members[i].0.as_str(), key) {
                        return Some(&members[i].1);
                    }
                    assert(rest.drop_first() =~= all.subrange(i + 1, all.len() as int));
                    i += 1;
                }
                None
            },
            _ => None,
        }
    }

    /// The member under `inner` of the member under `outer`.
    pub fn at(&self, outer: &str, inner: &str) -> (r: Option<&Json>)
        ensures
            match r {
                Some(j) => self@.at(outer@, inner@) == Some(j@),
                None => self@.at(outer@, inner@) is None,
            },
    {
        match self.member(outer) {
            Some(j) => j.member(inner),
            None => None,
        }
    }

    /// The field of a record.
    pub fn field(&self, key: &str, pos: usize) -> (r: Option<&Json>)
        ensures
            match r {
                Some(j) => self@.field(key@, pos as nat) == Some(j@),
                None => self@.field(key@, pos as nat) is None,
            },
    {
        match self {
            Json::Object(_) => self.member(key),
            Json::List(items) => {
                proof {
                    list_view(*self);
                }
                if pos < items.len() {
                    Some(&items[pos])
                } else {
                    None
                }
            },
            _ => None,
        }
    }

    /// The text of a string.
    pub fn as_text(&self) -> (r: Option<&String>)
        ensures
            match r {
                Some(s) => self@.as_text() == Some(s@),
                None => self@.as_text() is None,
            },
    {
        match self {
            Json::Text(s) => Some(s),
            _ => None,
        }
    }

    fn found(&self) -> (r: String)
        ensures
            r@ == self@.found(),
    {
        match self {
            Json::Null => owned("null"),
            Json::Bool(b) => if *b {
                owned("boolean `true`")
            } else {
                owned("boolean `false`")
            },
            Json::Number(s) => if is_whole(s.as_str()) {
                owned("integer `").concat(s.as_str()).concat("`")
            } else {
                owned("floating point `").concat(s.as_str()).concat("`")
            },
            Json::Text(s) => unexpected_string(s.as_str()),
            Json::List(_) => owned("sequence"),
            Json::Object(_) => owned("map"),
        }
    }

    /// The complaint that this is not what was expected.
    pub fn mismatch(&self, expected: &str) -> (r: String)
        ensures
            r@ == self@.mismatch(expected@),
    {
        owned("invalid type: ").concat(self.found().as_str()).concat(", expected ").concat(expected)
    }

    /// The complaint that this is no number of the kind expected.
    fn number_complaint(&self, expected: &str) -> (r: String)
        ensures
            r@ == self@.number_complaint(expected@),
    {
        if let Json::Number(s) = self {
            if is_whole(s.as_str()) {
                return owned("invalid value: ").concat(self.found().as_str()).concat(
                    ", expected ",
                ).concat(expected);
            }
        }
        self.mismatch(expected)
    }

    /// Is this a record?
    pub fn check_record(&self, what: &str) -> (r: Result<(), String>)
        ensures
            match r {
                Ok(()) => self@.record_fault(what@) is None,
                Err(e) => self@.record_fault(what@) == Some(e@),
            },
    {
        match self {
            Json::Object(_) | Json::List(_) => Ok(()),
            _ => Err(self.mismatch(what)),
        }
    }

    /// Has this record at most `fields` fields?
    pub fn check_surplus(&self, fields: usize) -> (r: Result<(), String>)
        ensures
            match r {
                Ok(()) => self@.surplus_fault(fields as nat) is None,
                Err(e) => self@.surplus_fault(fields as nat) == Some(e@),
            },
    {
        match self {
            Json::List(items) => {
                proof {
                    list_view(*self);
                }
                if items.len() <= fields {
                    Ok(())
                } else {
                    Err(
                        owned("invalid length ").concat(show(items.len() as u64).as_str()).concat(
                            ", expected fewer elements in array",
                        ),
                    )
                }
            },
            _ => Ok(()),
        }
    }
}

// ---------------------------------------------------------------------------------------------
// Printing
// ---------------------------------------------------------------------------------------------
/// The lower-case hexadecimal digit for `d`.
pub open spec fn hex_digit(d: nat) -> char {
    if d < 10 {
        (48 + d) as char
    } else {
        (87 + d) as char
    }
}

/// One character inside a quoted string.
pub open spec fn escaped(c: char) -> Seq<char> {
    if c == '"' {
        seq!['\\', '"']
    } else if c == '\\' {
        seq!['\\', '\\']
    } else if c as u32 == 0x8 {
        seq!['\\', 'b']
    } else if c as u32 == 0x9 {
        seq!['\\', 't']
    } else if c as u32 == 0xa {
        seq!['\\', 'n']
    } else if c as u32 == 0xc {
        seq!['\\', 'f']
    } else if c as u32 == 0xd {
        seq!['\\', 'r']
    } else if (c as u32) < 0x20 {
        seq!['\\', 'u', '0', '0', hex_digit(c as nat / 16), hex_digit(c as nat % 16)]
    } else {
        seq![c]
    }
}

/// The characters of `s`, each as it stands inside a quoted string.
pub open spec fn escaped_all(s: Seq<char>) -> Seq<char>
    decreases s.len(),
{
    if s.len() == 0 {
        Seq::empty()
    } else {
        escaped_all(s.drop_last()) + escaped(s.last())
    }
}

/// `s` as a JSON string.
pub open spec fn quoted(s: Seq<char>) -> Seq<char> {
    seq!['"'] + escaped_all(s) + seq!['"']
}

/// The compact text of a document.
pub open spec fn rendered(t: Tree) -> Seq<char>
    decreases t, 0nat,
{
    match t {
        Tree::Null => "null"@,
        Tree::Bool(b) => if b {
            "true"@
        } else {
            "false"@
        },
        Tree::Number(s) => s,
        Tree::Text(s) => quoted(s),
        Tree::List(items) => "["@ + rendered_items(items, items.len()) + "]"@,
        Tree::Object(members) => "{"@ + rendered_members(members, members.len()) + "}"@,
    }
}

/// The texts of the first `n` items, with commas between them.
pub open spec fn rendered_items(items: Seq<Tree>, n: nat) -> Seq<char>
    decreases items, n,
{
    if n == 0 || n > items.len() {
        Seq::empty()
    } else {
        rendered_items(items, (n - 1) as nat) + comma(n) + rendered(items[n - 1])
    }
}

/// The texts of the first `n` members, with commas between them.
pub open spec fn rendered_members(members: Seq<(Seq<char>, Tree)>, n: nat) -> Seq<char>
    decreases members, n,
{
    if n == 0 || n > members.len() {
        Seq::empty()
    } else {
        rendered_members(members, (n - 1) as nat) + comma(n) + quoted(members[n - 1].0) + ":"@
            + rendered(members[n - 1].1)
    }
}

/// What stands before part number `n`.
pub open spec fn comma(n: nat) -> Seq<char> {
    if n == 1 {
        ""@
    } else {
        ","@
    }
}

/// `Display` of a `serde_json::Value::String`: the text in quotes, with the quote, the backslash
/// and the control characters escaped.
#[verifier::external_body]
pub(crate) fn quote(s: &str) -> (r: String)
    ensures
        r@ == quoted(s@),
{
    serde_json::Value::String(s.to_string()).to_string()
}

impl Json {
    /// The compact text of this document.
    pub fn to_text(&self) -> (r: String)
        ensures
            r@ == rendered(self@),
        decreases self,
    {
        match self {
            Json::Null => owned("null"),
            Json::Bool(b) => if *b {
                owned("true")
            } else {
                owned("false")
            },
            Json::Number(s) => s.clone(),
            Json::Text(s) => quote(s.as_str()),
            Json::List(items) => {
                proof {
                    list_view(*self);
                }
                let ghost all = self@->List_0;
                let mut m = owned("[");
                let mut i: usize = 0;
                assert(m@ =~= "["@ + rendered_items(all, 0));
                while i < items.len()
                    invariant
                        i <= items.len(),
                        self@ == Tree::List(all),
                        all == Seq::new(items@.len(), |k: int| items@[k]@),
                        *self == Json::List(*items),
                        m@ == "["@ + rendered_items(all, i as nat),
                    decreases items.len() - i,
                {
                    proof {
                        assert(decreases_to!(*self => self->List_0));
                        assert(decreases_to!(items => items@));
                        assert(decreases_to!(items@ => items@[i as int]));
                    }
                    m.append(if i == 0 { "" } else { "," });
                    m.append(items[i].to_text().as_str());
                    assert(m@ =~= "["@ + rendered_items(all, (i + 1) as nat));
                    i += 1;
                }
                m.append("]");
                m
            },
            Json::Object(members) => {
                proof {
                    object_view(*self);
                }
                let ghost all = self@->Object_0;
                let mut m = owned("{");
                let mut i: usize = 0;
                assert(m@ =~= "{"@ + rendered_members(all, 0));
                while i < members.len()
                    invariant
                        i <= members.len(),
                        self@ == Tree::Object(all),
                        all == Seq::new(members@.len(), |k: int| (members@[k].0@, members@[k].1@)),
                        *self == Json::Object(*members),
                        m@ == "{"@ + rendered_members(all, i as nat),
                    decreases members.len() - i,
                {
                    proof {
                        assert(decreases_to!(*self => self->Object_0));
                        assert(decreases_to!(members => members@));
                        assert(decreases_to!(members@ => members@[i as int]));
                        assert(decreases_to!(members@[i as int] => members@[i as int].1));
                    }
                    m.append(if i == 0 { "" } else { "," });
                    m.append(quote(members[i].0.as_str()).as_str());
                    m.append(":");
                    m.append(members[i].1.to_text().as_str());
                    assert(m@ =~= "{"@ + rendered_members(all, (i + 1) as nat));
                    i += 1;
                }
                m.append("}");
                m
            },
        }
    }
}

// ---------------------------------------------------------------------------------------------
// Reading typed values
// ---------------------------------------------------------------------------------------------
/// The first of two complaints.
pub open spec fn first_fault(a: Option<Seq<char>>, b: Option<Seq<char>>) -> Option<Seq<char>> {
    if a is Some {
        a
    } else {
        b
    }
}

/// The names that are known, in a complaint.
pub open spec fn one_of(known: Seq<Seq<char>>) -> Seq<char> {
    if known.len() == 1 {
        "`"@ + known[0] + "`"@
    } else if known.len() == 2 {
        "`"@ + known[0] + "` or `"@ + known[1] + "`"@
    } else {
        "one of `"@ + text::joined(known, "`, `"@) + "`"@
    }
}

fn say_one_of(known: &Vec<String>) -> (r: String)
    ensures
        r@ == one_of(known.deep_view()),
{
    if known.len() == 1 {
        owned("`").concat(known[0].as_str()).concat("`")
    } else if known.len() == 2 {
        owned("`").concat(known[0].as_str()).concat("` or `").concat(known[1].as_str()).concat("`")
    } else {
        owned("one of `").concat(join(known, "`, `").as_str()).concat("`")
    }
}

/// The complaint about a member whose name is not one of those known.
pub open spec fn unknown_field(name: Seq<char>, known: Seq<Seq<char>>) -> Seq<char> {
    "unknown field `"@ + name + "`, expected "@ + one_of(known)
}

/// The complaint about a member whose name is not one of those known.
pub fn say_unknown(name: &str, known: &Vec<String>) -> (r: String)
    ensures
        r@ == unknown_field(name@, known.deep_view()),
{
    owned("unknown field `").concat(name).concat("`, expected ").concat(
        say_one_of(known).as_str(),
    )
}

/// A type whose values can be read out of a document.
pub trait Readable: DeepView + Sized {
    /// Why `t` does not say a value of this type, where it does not.
    spec fn fault(t: Tree) -> Option<Seq<char>>;

    /// The value that `t` says.
    spec fn value(t: Tree) -> <Self as DeepView>::V;

    /// The value of a field that is not there.
    spec fn nothing() -> <Self as DeepView>::V;

    fn read(j: &Json) -> (r: Result<Self, String>)
        ensures
            match r {
                Ok(x) => Self::fault(j@) is None && x.deep_view() == Self::value(j@),
                Err(e) => Self::fault(j@) == Some(e@),
            },
    ;

    fn absent() -> (r: Self)
        ensures
            r.deep_view() == Self::nothing(),
    ;
}

/// A record whose members can be read by their names.
pub trait Members: Sized {
    /// Why the member `v` cannot be read as the field `name`. What is no field is no concern of the
    /// record, unless it refuses what it does not know.
    spec fn member_fault(name: Seq<char>, v: Tree) -> Option<Seq<char>>;

    fn check_member(name: &str, v: &Json) -> (r: Result<(), String>)
        ensures
            match r {
                Ok(()) => Self::member_fault(name@, v@) is None,
                Err(e) => Self::member_fault(name@, v@) == Some(e@),
            },
    ;
}

/// The complaint about the first of the first `n` members that cannot be read.
pub open spec fn fault_among<R: Members>(members: Seq<(Seq<char>, Tree)>, n: nat) -> Option<
    Seq<char>,
>
    decreases n,
{
    if n == 0 || n > members.len() {
        None
    } else {
        first_fault(
            fault_among::<R>(members, (n - 1) as nat),
            R::member_fault(members[n - 1].0, members[n - 1].1),
        )
    }
}

/// The complaint about the members of an object, in the order in which they stand in it.
pub open spec fn members_fault<R: Members>(t: Tree) -> Option<Seq<char>> {
    match t {
        Tree::Object(members) => fault_among::<R>(members, members.len()),
        _ => None,
    }
}

proof fn fault_stays<R: Members>(members: Seq<(Seq<char>, Tree)>, i: nat, n: nat)
    requires
        i <= n <= members.len(),
        fault_among::<R>(members, i) is Some,
    ensures
        fault_among::<R>(members, n) == fault_among::<R>(members, i),
    decreases n - i,
{
    if i < n {
        fault_stays::<R>(members, i + 1, n);
    }
}

/// Can the members of an object be read?
pub fn check_members<R: Members>(j: &Json) -> (r: Result<(), String>)
    ensures
        match r {
            Ok(()) => members_fault::<R>(j@) is None,
            Err(e) => members_fault::<R>(j@) == Some(e@),
        },
{
    match j {
        Json::Object(members) => {
            proof {
                object_view(*j);
            }
            let ghost all = j@->Object_0;
            let mut i: usize = 0;
            while i < members.len()
                invariant
                    i <= members.len(),
                    j@ == Tree::Object(all),
                    all == Seq::new(members@.len(), |k: int| (members@[k].0@, members@[k].1@)),
                    fault_among::<R>(all, i as nat) is None,
                decreases members.len() - i,
            {
                if let Err(e) = R::check_member(members[i].0.as_str(), &members[i].1) {
                    proof {
                        fault_stays::<R>(all, (i + 1) as nat, all.len());
                    }
                    return Err(e);
                }
                i += 1;
            }
            Ok(())
        },
        _ => Ok(()),
    }
}

/// A member that cannot be read is always complained of.
pub proof fn a_faulty_member_is_a_fault<R: Members>(members: Seq<(Seq<char>, Tree)>, i: int)
    requires
        0 <= i < members.len(),
        R::member_fault(members[i].0, members[i].1) is Some,
    ensures
        members_fault::<R>(Tree::Object(members)) is Some,
{
    fault_stays::<R>(members, (i + 1) as nat, members.len());
}

/// Of two faults in an object, the one that stands first is named.
pub proof fn the_first_fault_is_named<R: Members>(members: Seq<(Seq<char>, Tree)>, i: int)
    requires
        0 <= i < members.len(),
        R::member_fault(members[i].0, members[i].1) is Some,
        forall|j: int|
            0 <= j < i ==> R::member_fault((#[trigger] members[j]).0, members[j].1) is None,
    ensures
        members_fault::<R>(Tree::Object(members)) == R::member_fault(members[i].0, members[i].1),
{
    nothing_before::<R>(members, i as nat);
    fault_stays::<R>(members, (i + 1) as nat, members.len());
}

proof fn nothing_before<R: Members>(members: Seq<(Seq<char>, Tree)>, n: nat)
    requires
        n <= members.len(),
        forall|j: int|
            0 <= j < n ==> R::member_fault((#[trigger] members[j]).0, members[j].1) is None,
    ensures
        fault_among::<R>(members, n) is None,
    decreases n,
{
    if n > 0 {
        nothing_before::<R>(members, (n - 1) as nat);
    }
}

/// The members of an object are read where each of them is.
pub proof fn members_are_read_where_each_is<R: Members>(members: Seq<(Seq<char>, Tree)>)
    requires
        forall|j: int|
            0 <= j < members.len() ==> R::member_fault((#[trigger] members[j]).0, members[j].1)
                is None,
    ensures
        members_fault::<R>(Tree::Object(members)) is None,
{
    nothing_before::<R>(members, members.len());
}

/// Can a value of this type be read?
pub fn check<T: Readable>(j: &Json) -> (r: Result<(), String>)
    ensures
        match r {
            Ok(()) => T::fault(j@) is None,
            Err(e) => T::fault(j@) == Some(e@),
        },
{
    match T::read(j) {
        Ok(_) => Ok(()),
        Err(e) => Err(e),
    }
}

/// Why the field of `t` cannot be read: an absent one always can.
pub open spec fn field_fault<T: Readable>(t: Tree, key: Seq<char>, pos: nat) -> Option<Seq<char>> {
    match t.field(key, pos) {
        Some(f) => T::fault(f),
        None => None,
    }
}

/// What the field of `t` says, or the value of an absent field.
pub open spec fn field_value<T: Readable>(
    t: Tree,
    key: Seq<char>,
    pos: nat,
) -> <T as DeepView>::V {
    match t.field(key, pos) {
        Some(f) => T::value(f),
        None => T::nothing(),
    }
}

/// Why the field of `t`, which must be there, cannot be read. A list is told how long a `whole`
/// record is.
pub open spec fn required_fault<T: Readable>(
    t: Tree,
    key: Seq<char>,
    pos: nat,
    whole: Seq<char>,
) -> Option<Seq<char>> {
    match t.field(key, pos) {
        Some(f) => T::fault(f),
        None => Some(
            if t is List {
                "invalid length "@ + text::decimal(pos) + ", expected "@ + whole
            } else {
                "missing field `"@ + key + "`"@
            },
        ),
    }
}

/// Read one field of a record; an absent one has its own value.
pub fn read_field<T: Readable>(j: &Json, key: &str, pos: usize) -> (r: Result<T, String>)
    ensures
        match r {
            Ok(x) => field_fault::<T>(j@, key@, pos as nat) is None && x.deep_view()
                == field_value::<T>(j@, key@, pos as nat),
            Err(e) => field_fault::<T>(j@, key@, pos as nat) == Some(e@),
        },
{
    match j.field(key, pos) {
        Some(f) => T::read(f),
        None => Ok(T::absent()),
    }
}

/// Read one field of a record that must have it.
pub fn read_required<T: Readable>(j: &Json, key: &str, pos: usize, whole: &str) -> (r: Result<
    T,
    String,
>)
    ensures
        match r {
            Ok(x) => required_fault::<T>(j@, key@, pos as nat, whole@) is None && x.deep_view()
                == field_value::<T>(j@, key@, pos as nat),
            Err(e) => required_fault::<T>(j@, key@, pos as nat, whole@) == Some(e@),
        },
{
    match j.field(key, pos) {
        Some(f) => T::read(f),
        None => Err(
            if matches!(j, Json::List(_)) {
                owned("invalid length ").concat(show(pos as u64).as_str()).concat(
                    ", expected ",
                ).concat(whole)
            } else {
                owned("missing field `").concat(key).concat("`")
            },
        ),
    }
}

impl Readable for bool {
    open spec fn fault(t: Tree) -> Option<Seq<char>> {
        match t {
            Tree::Bool(_) => None,
            _ => Some(t.mismatch("a boolean"@)),
        }
    }

    open spec fn value(t: Tree) -> bool {
        t == Tree::Bool(true)
    }

    open spec fn nothing() -> bool {
        false
    }

    fn read(j: &Json) -> (r: Result<Self, String>) {
        match j {
            Json::Bool(b) => Ok(*b),
            _ => Err(j.mismatch("a boolean")),
        }
    }

    fn absent() -> (r: Self) {
        false
    }
}

impl Readable for String {
    open spec fn fault(t: Tree) -> Option<Seq<char>> {
        match t {
            Tree::Text(_) => None,
            _ => Some(t.mismatch("a string"@)),
        }
    }

    open spec fn value(t: Tree) -> Seq<char> {
        match t {
            Tree::Text(s) => s,
            _ => Seq::empty(),
        }
    }

    open spec fn nothing() -> Seq<char> {
        Seq::empty()
    }

    fn read(j: &Json) -> (r: Result<Self, String>) {
        match j {
            Json::Text(s) => Ok(s.clone()),
            _ => Err(j.mismatch("a string")),
        }
    }

    fn absent() -> (r: Self) {
        String::new()
    }
}

/// The number that `t` writes, where it is one that fits in 64 bits.
pub open spec fn unsigned(t: Tree) -> Option<u64> {
    match t {
        Tree::Number(s) => text::number_u64(s),
        _ => None,
    }
}

impl Readable for u64 {
    open spec fn fault(t: Tree) -> Option<Seq<char>> {
        if unsigned(t) is Some {
            None
        } else {
            Some(t.number_complaint("u64"@))
        }
    }

    open spec fn value(t: Tree) -> u64 {
        match unsigned(t) {
            Some(n) => n,
            None => 0,
        }
    }

    open spec fn nothing() -> u64 {
        0
    }

    fn read(j: &Json) -> (r: Result<Self, String>) {
        match j {
            Json::Number(s) => match parse(s.as_str()) {
                Some(n) => Ok(n),
                None => Err(j.number_complaint("u64")),
            },
            _ => Err(j.number_complaint("u64")),
        }
    }

    fn absent() -> (r: Self) {
        0
    }
}

/// The number that `t` writes, where it is one that fits in 16 bits.
pub open spec fn unsigned_short(t: Tree) -> Option<u16> {
    match unsigned(t) {
        Some(n) => if n <= u16::MAX {
            Some(n as u16)
        } else {
            None
        },
        None => None,
    }
}

impl Readable for u16 {
    open spec fn fault(t: Tree) -> Option<Seq<char>> {
        if unsigned_short(t) is Some {
            None
        } else {
            Some(t.number_complaint("u16"@))
        }
    }

    open spec fn value(t: Tree) -> u16 {
        match unsigned_short(t) {
            Some(n) => n,
            None => 0,
        }
    }

    open spec fn nothing() -> u16 {
        0
    }

    fn read(j: &Json) -> (r: Result<Self, String>) {
        match j {
            Json::Number(s) => match parse(s.as_str()) {
                Some(n) => if n <= 0xffff {
                    Ok(n as u16)
                } else {
                    Err(j.number_complaint("u16"))
                },
                None => Err(j.number_complaint("u16")),
            },
            _ => Err(j.number_complaint("u16")),
        }
    }

    fn absent() -> (r: Self) {
        0
    }
}

/// The signed number that `t` writes, where it is one that fits in 64 bits.
pub open spec fn signed(t: Tree) -> Option<i64> {
    match t {
        Tree::Number(s) => text::number_i64(s),
        _ => None,
    }
}

impl Readable for i64 {
    open spec fn fault(t: Tree) -> Option<Seq<char>> {
        if signed(t) is Some {
            None
        } else {
            Some(t.number_complaint("i64"@))
        }
    }

    open spec fn value(t: Tree) -> i64 {
        match signed(t) {
            Some(n) => n,
            None => 0,
        }
    }

    open spec fn nothing() -> i64 {
        0
    }

    fn read(j: &Json) -> (r: Result<Self, String>) {
        match j {
            Json::Number(s) => match parse_signed(s.as_str()) {
                Some(n) => Ok(n),
                None => Err(j.number_complaint("i64")),
            },
            _ => Err(j.number_complaint("i64")),
        }
    }

    fn absent() -> (r: Self) {
        0
    }
}

impl<T: Readable> Readable for Option<T> {
    open spec fn fault(t: Tree) -> Option<Seq<char>> {
        match t {
            Tree::Null => None,
            _ => T::fault(t),
        }
    }

    open spec fn value(t: Tree) -> Option<<T as DeepView>::V> {
        match t {
            Tree::Null => None,
            _ => Some(T::value(t)),
        }
    }

    open spec fn nothing() -> Option<<T as DeepView>::V> {
        None
    }

    fn read(j: &Json) -> (r: Result<Self, String>) {
        match j {
            Json::Null => Ok(None),
            _ => match T::read(j) {
                Ok(x) => Ok(Some(x)),
                Err(e) => Err(e),
            },
        }
    }

    fn absent() -> (r: Self) {
        None
    }
}

/// The complaint about the first item that cannot be read.
pub open spec fn items_fault<T: Readable>(items: Seq<Tree>) -> Option<Seq<char>>
    decreases items.len(),
{
    if items.len() == 0 {
        None
    } else {
        first_fault(items_fault::<T>(items.drop_last()), T::fault(items.last()))
    }
}

proof fn items_fault_grows<T: Readable>(items: Seq<Tree>, i: int)
    requires
        0 <= i <= items.len(),
        items_fault::<T>(items.subrange(0, i)) is Some,
    ensures
        items_fault::<T>(items) == items_fault::<T>(items.subrange(0, i)),
    decreases items.len() - i,
{
    if i == items.len() {
        assert(items.subrange(0, i) =~= items);
    } else {
        assert(items.subrange(0, i + 1).drop_last() =~= items.subrange(0, i));
        items_fault_grows::<T>(items, i + 1);
    }
}

/// A list is read where every item is.
pub proof fn a_list_is_read_where_every_item_is<T: Readable>(items: Seq<Tree>)
    requires
        forall|i: int| 0 <= i < items.len() ==> T::fault(#[trigger] items[i]) is None,
    ensures
        items_fault::<T>(items) is None,
    decreases items.len(),
{
    if items.len() > 0 {
        a_list_is_read_where_every_item_is::<T>(items.drop_last());
    }
}

impl<T: Readable> Readable for Vec<T> {
    open spec fn fault(t: Tree) -> Option<Seq<char>> {
        match t {
            Tree::List(items) => items_fault::<T>(items),
            _ => Some(t.mismatch("a sequence"@)),
        }
    }

    open spec fn value(t: Tree) -> Seq<<T as DeepView>::V> {
        match t {
            Tree::List(items) => Seq::new(items.len(), |i: int| T::value(items[i])),
            _ => Seq::empty(),
        }
    }

    open spec fn nothing() -> Seq<<T as DeepView>::V> {
        Seq::empty()
    }

    fn read(j: &Json) -> (r: Result<Self, String>) {
        match j {
            Json::List(items) => {
                proof {
                    list_view(*j);
                }
                let ghost all = j@->List_0;
                let mut out: Vec<T> = Vec::new();
                let mut i: usize = 0;
                while i < items.len()
                    invariant
                        i <= items.len(),
                        out@.len() == i,
                        all == Seq::new(items@.len(), |k: int| items@[k]@),
                        j@ == Tree::List(all),
                        items_fault::<T>(all.subrange(0, i as int)) is None,
                        forall|k: int|
                            0 <= k < i ==> (#[trigger] out@[k]).deep_view() == T::value(all[k]),
                    decreases items.len() - i,
                {
                    let ghost next = all.subrange(0, i + 1);
                    assert(next.drop_last() =~= all.subrange(0, i as int));
                    assert(next.last() == items@[i as int]@);
                    match T::read(&items[i]) {
                        Ok(x) => out.push(x),
                        Err(e) => {
                            proof {
                                items_fault_grows::<T>(all, i + 1);
                            }
                            return Err(e);
                        },
                    }
                    i += 1;
                }
                assert(all.subrange(0, i as int) =~= all);
                assert(out.deep_view() =~= Self::value(j@));
                Ok(out)
            },
            _ => Err(j.mismatch("a sequence")),
        }
    }

    fn absent() -> (r: Self) {
        let v: Vec<T> = Vec::new();
        assert(v.deep_view() =~= Seq::empty());
        v
    }
}

impl DeepView for Json {
    type V = Tree;

    open spec fn deep_view(&self) -> Tree {
        self@
    }
}

impl Json {
    /// A copy of the document.
    pub fn copy(&self) -> (r: Json)
        ensures
            r@ == self@,
        decreases self,
    {
        match self {
            Json::Null => Json::Null,
            Json::Bool(b) => Json::Bool(*b),
            Json::Number(t) => Json::Number(t.clone()),
            Json::Text(t) => Json::Text(t.clone()),
            Json::List(items) => {
                let mut out: Vec<Json> = Vec::new();
                let mut i: usize = 0;
                while i < items.len()
                    invariant
                        i <= items.len(),
                        *self == Json::List(*items),
                        out@.len() == i,
                        forall|k: int| 0 <= k < i ==> (#[trigger] out@[k])@ == items@[k]@,
                    decreases items.len() - i,
                {
                    assert(decreases_to!(*self => self->List_0));
                    assert(decreases_to!(items@ => items@[i as int]));
                    out.push(items[i].copy());
                    i += 1;
                }
                let j = Json::List(out);
                proof {
                    list_view(j);
                    list_view(*self);
                    assert(j@->List_0 =~= self@->List_0);
                }
                j
            },
            Json::Object(members) => {
                let mut out: Vec<(String, Json)> = Vec::new();
                let mut i: usize = 0;
                while i < members.len()
                    invariant
                        i <= members.len(),
                        *self == Json::Object(*members),
                        out@.len() == i,
                        forall|k: int|
                            0 <= k < i ==> (#[trigger] out@[k]).0@ == members@[k].0@ && out@[k].1@
                                == members@[k].1@,
                    decreases members.len() - i,
                {
                    assert(decreases_to!(*self => self->Object_0));
                    assert(decreases_to!(members@ => members@[i as int]));
                    assert(decreases_to!(members@[i as int] => members@[i as int].1));
                    out.push((members[i].0.clone(), members[i].1.copy()));
                    i += 1;
                }
                let j = Json::Object(out);
                proof {
                    object_view(j);
                    object_view(*self);
                    assert(j@->Object_0 =~= self@->Object_0);
                }
                j
            },
        }
    }
}

impl Clone for Json {
    fn clone(&self) -> (r: Json)
        ensures
            r@ == self@,
    {
        self.copy()
    }
}

/// A document reads as itself, and an absent one as `null`.
impl Readable for Json {
    open spec fn fault(t: Tree) -> Option<Seq<char>> {
        None
    }

    open spec fn value(t: Tree) -> Tree {
        t
    }

    open spec fn nothing() -> Tree {
        Tree::Null
    }

    fn read(j: &Json) -> (r: Result<Self, String>) {
        Ok(j.copy())
    }

    fn absent() -> (r: Self) {
        Json::Null
    }
}

// ---------------------------------------------------------------------------------------------
// Writing typed values
// ---------------------------------------------------------------------------------------------
/// A type whose values can be written as documents.
pub trait Writable: DeepView + Sized {
    /// The document that says `v`.
    spec fn tree(v: <Self as DeepView>::V) -> Tree;

    fn to_json(&self) -> (r: Json)
        ensures
            r@ == Self::tree(self.deep_view()),
    ;
}

impl Writable for bool {
    open spec fn tree(v: bool) -> Tree {
        Tree::Bool(v)
    }

    fn to_json(&self) -> (r: Json) {
        Json::Bool(*self)
    }
}

impl Writable for String {
    open spec fn tree(v: Seq<char>) -> Tree {
        Tree::Text(v)
    }

    fn to_json(&self) -> (r: Json) {
        Json::Text(self.clone())
    }
}

impl Writable for u64 {
    open spec fn tree(v: u64) -> Tree {
        Tree::Number(text::decimal(v as nat))
    }

    fn to_json(&self) -> (r: Json) {
        Json::Number(text::show(*self))
    }
}

impl Writable for u16 {
    open spec fn tree(v: u16) -> Tree {
        Tree::Number(text::decimal(v as nat))
    }

    fn to_json(&self) -> (r: Json) {
        Json::Number(text::show(*self as u64))
    }
}

impl Writable for Json {
    open spec fn tree(v: Tree) -> Tree {
        v
    }

    fn to_json(&self) -> (r: Json) {
        self.copy()
    }
}

impl<T: Writable> Writable for Option<T> {
    open spec fn tree(v: Option<<T as DeepView>::V>) -> Tree {
        match v {
            Some(x) => T::tree(x),
            None => Tree::Null,
        }
    }

    fn to_json(&self) -> (r: Json) {
        match self {
            Some(x) => x.to_json(),
            None => Json::Null,
        }
    }
}

impl<T: Writable> Writable for Vec<T> {
    open spec fn tree(v: Seq<<T as DeepView>::V>) -> Tree {
        Tree::List(Seq::new(v.len(), |i: int| T::tree(v[i])))
    }

    fn to_json(&self) -> (r: Json) {
        let mut items: Vec<Json> = Vec::new();
        let mut i: usize = 0;
        while i < self.len()
            invariant
                i <= self.len(),
                items@.len() == i,
                forall|k: int|
                    0 <= k < i ==> (#[trigger] items@[k])@ == T::tree(self@[k].deep_view()),
            decreases self.len() - i,
        {
            items.push(self[i].to_json());
            i += 1;
        }
        let j = Json::List(items);
        proof {
            list_view(j);
            assert(j@->List_0 =~= Self::tree(self.deep_view())->List_0);
        }
        j
    }
}

/// The member under `key`, where there is one.
pub open spec fn optional(key: Seq<char>, value: Option<Tree>) -> Seq<(Seq<char>, Tree)> {
    match value {
        Some(t) => seq![(key, t)],
        None => Seq::empty(),
    }
}

/// The text under `key`, where there is one.
pub open spec fn optional_text(key: Seq<char>, value: Option<Seq<char>>) -> Seq<(Seq<char>, Tree)> {
    match value {
        Some(s) => optional(key, Some(Tree::Text(s))),
        None => Seq::empty(),
    }
}

/// One member of an object.
pub fn member(key: &str, value: Json) -> (r: (String, Json))
    ensures
        (r.0@, r.1@) == (key@, value@),
{
    (owned(key), value)
}

/// An object with these members.
pub fn object(members: Vec<(String, Json)>) -> (j: Json)
    ensures
        j@ == Tree::Object(Seq::new(members@.len(), |i: int| (members@[i].0@, members@[i].1@))),
{
    let j = Json::Object(members);
    proof {
        object_view(j);
    }
    j
}

// ---------------------------------------------------------------------------------------------
// Laws
// ---------------------------------------------------------------------------------------------
/// The names in an object are all different.
pub open spec fn are_distinct(members: Seq<(Seq<char>, Tree)>) -> bool {
    forall|i: int, j: int|
        0 <= i < j < members.len() ==> (#[trigger] members[i]).0 != (#[trigger] members[j]).0
}

/// Some member of the object has this name.
pub open spec fn is_there(members: Seq<(Seq<char>, Tree)>, key: Seq<char>) -> bool {
    exists|i: int| 0 <= i < members.len() && (#[trigger] members[i]).0 == key
}

/// What is looked up is a member of that name, and nothing is found only where there is none.
pub proof fn a_member_is_found_by_name(members: Seq<(Seq<char>, Tree)>, key: Seq<char>)
    ensures
        lookup(members, key) is Some <==> is_there(members, key),
        lookup(members, key) matches Some(v) ==> members.contains((key, v)),
    decreases members.len(),
{
    if members.len() > 0 {
        let rest = members.drop_first();
        a_member_is_found_by_name(rest, key);
        assert(members[0] == (members[0].0, members[0].1));
        if is_there(rest, key) {
            let i = choose|i: int| 0 <= i < rest.len() && (#[trigger] rest[i]).0 == key;
            assert(members[i + 1].0 == key);
        }
        if members[0].0 != key && is_there(members, key) {
            let i = choose|i: int| 0 <= i < members.len() && (#[trigger] members[i]).0 == key;
            assert(rest[i - 1].0 == key);
        }
        if let Some(v) = lookup(rest, key) {
            let i = choose|i: int| 0 <= i < rest.len() && rest[i] == (key, v);
            if members[0].0 != key {
                assert(members[i + 1] == (key, v));
            }
        }
    }
}

/// A field of a record is read from the member of its name, wherever that stands, from the item of its
/// place where the record is a list, and is left empty where there is neither.
pub proof fn a_field_is_read_by_name_or_place<T: Readable>(
    members: Seq<(Seq<char>, Tree)>,
    items: Seq<Tree>,
    i: int,
    key: Seq<char>,
    pos: nat,
)
    requires
        are_distinct(members),
    ensures
        0 <= i < members.len() && members[i].0 == key ==> field_value::<T>(
            Tree::Object(members),
            key,
            pos,
        ) == T::value(members[i].1) && field_fault::<T>(Tree::Object(members), key, pos) == T::fault(
            members[i].1,
        ),
        !is_there(members, key) ==> field_value::<T>(Tree::Object(members), key, pos) == T::nothing()
            && field_fault::<T>(Tree::Object(members), key, pos) is None,
        pos < items.len() ==> field_value::<T>(Tree::List(items), key, pos) == T::value(
            items[pos as int],
        ),
        pos >= items.len() ==> field_value::<T>(Tree::List(items), key, pos) == T::nothing(),
{
    a_member_is_found_by_name(members, key);
    if 0 <= i < members.len() && members[i].0 == key {
        a_first_member_is_found(members, i);
    }
}

/// A single value is read as what it is, and what is absent is empty.
pub proof fn a_value_is_read_as_it_stands(b: bool, s: Seq<char>, n: u64)
    ensures
        bool::fault(Tree::Bool(b)) is None && bool::value(Tree::Bool(b)) == b,
        String::fault(Tree::Text(s)) is None && String::value(Tree::Text(s)) == s,
        u64::fault(Tree::Number(text::decimal(n as nat))) is None && u64::value(
            Tree::Number(text::decimal(n as nat)),
        ) == n,
        <Option<String> as Readable>::value(Tree::Text(s)) == Some(s),
        <Option<bool> as Readable>::value(Tree::Bool(b)) == Some(b),
        <Option<String> as Readable>::fault(Tree::Null) is None && <Option<
            String,
        > as Readable>::value(Tree::Null) is None,
        bool::fault(Tree::Text(s)) is Some && String::fault(Tree::Bool(b)) is Some && u64::fault(
            Tree::Text(s),
        ) is Some && bool::fault(Tree::Null) is Some && String::fault(Tree::Null) is Some,
        bool::nothing() == false && String::nothing().len() == 0 && u64::nothing() == 0,
        <Option<String> as Readable>::nothing() is None,
        <Vec<String> as Readable>::nothing().len() == 0,
{
    text::a_written_number_reads_back(n as nat);
}

/// A list is read item by item, in order.
pub proof fn a_list_is_read_item_by_item<T: Readable>(items: Seq<Tree>)
    ensures
        <Vec<T> as Readable>::value(Tree::List(items)).len() == items.len(),
        forall|i: int|
            0 <= i < items.len() ==> #[trigger] <Vec<T> as Readable>::value(Tree::List(items))[i]
                == T::value(items[i]),
{
}

} // verus!
