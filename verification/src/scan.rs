//! Records that are read straight from a text.
//!
//! A parsed document no longer shows where a value stood, in which order the members came, or that
//! one of them was given twice. A record that is read straight from a text is held to the text
//! itself: the first thing in it that does not fit is complained of, with its line and column.
use vstd::prelude::*;

use crate::json;
use crate::json::{plain, Json, Readable, Tree};
use crate::text;
use crate::text::{chars, owned, same, show_wide};

verus! {

/// What comes of reading a value that a text begins with.
#[verifier::ext_equal]
pub enum Scan {
    /// The value fits: what was kept of it, and the text that follows it.
    Read(Tree, Seq<char>),
    /// It does not fit, for a reason, and the complaint points to where this text begins.
    Wrong(Seq<char>, Seq<char>),
    /// The text goes on where it should end, and the complaint points to the first byte of this.
    Surplus(Seq<char>),
    /// A value that would have been passed over is none.
    Astray,
    /// The text is no document at all from somewhere on.
    Lost,
}

/// What comes of reading a value that a text begins with.
pub enum Scanned<'a> {
    Read(Json, &'a str),
    Wrong(String, &'a str),
    Surplus(&'a str),
    Astray,
    Lost,
}

impl<'a> DeepView for Scanned<'a> {
    type V = Scan;

    open spec fn deep_view(&self) -> Scan {
        match self {
            Scanned::Read(v, rest) => Scan::Read(v@, rest@),
            Scanned::Wrong(why, at) => Scan::Wrong(why@, at@),
            Scanned::Surplus(at) => Scan::Surplus(at@),
            Scanned::Astray => Scan::Astray,
            Scanned::Lost => Scan::Lost,
        }
    }
}

impl Scan {
    /// The text that follows, or that is complained of, is no longer than `s`.
    pub open spec fn is_within(self, s: Seq<char>) -> bool {
        match self {
            Scan::Read(_, rest) => rest.len() <= s.len(),
            Scan::Wrong(_, at) => at.len() <= s.len(),
            Scan::Surplus(at) => at.len() <= s.len(),
            Scan::Astray | Scan::Lost => true,
        }
    }
}

// ---------------------------------------------------------------------------------------------
// Values and punctuation
// ---------------------------------------------------------------------------------------------
/// The value that `serde_json` finds where a text begins, and the text that is left.
pub uninterp spec fn first_value(src: Seq<char>) -> Option<(Tree, Seq<char>)>;

/// `serde_json::Value`'s `Deserialize`, run once on `serde_json::Deserializer::from_str(..)`, and the
/// `byte_offset` that it stopped at: the value that the text begins with, where it begins with one,
/// and what follows it. Both depend on the text alone, and a value is never found in nothing, so that
/// what follows is shorter.
#[verifier::external_body]
fn take_first(src: &str) -> (r: Option<(serde_json::Value, &str)>)
    ensures
        match r {
            Some((v, rest)) => first_value(src@) == Some((json::value_tree(v), rest@))
                && rest@.len() < src@.len(),
            None => first_value(src@) is None,
        },
{
    let mut source = serde_json::Deserializer::from_str(src);
    match serde::Deserialize::deserialize(&mut source) {
        Ok(v) => Some((v, &src[source.into_iter::<serde_json::Value>().byte_offset()..])),
        Err(_) => None,
    }
}

/// The text that is left where `serde_json` has passed over the value that a text begins with.
pub uninterp spec fn after_first(src: Seq<char>) -> Option<Seq<char>>;

/// `serde::de::IgnoredAny`'s `Deserialize`, run once on `serde_json::Deserializer::from_str(..)`, and
/// the `byte_offset` that it stopped at: what follows the value that the text begins with, where
/// `serde_json` can pass over it. It keeps nothing of the value, and so passes over some that it
/// would not read, such as a number that is too large. What follows depends on the text alone, and
/// is shorter.
#[verifier::external_body]
fn pass_first(src: &str) -> (r: Option<&str>)
    ensures
        match r {
            Some(rest) => after_first(src@) == Some(rest@) && rest@.len() < src@.len(),
            None => after_first(src@) is None,
        },
{
    let mut source = serde_json::Deserializer::from_str(src);
    match <serde::de::IgnoredAny as serde::Deserialize>::deserialize(&mut source) {
        Ok(_) => Some(&src[source.into_iter::<serde_json::Value>().byte_offset()..]),
        Err(_) => None,
    }
}

/// The complaint of `serde_json` where it passes over a whole text and cannot.
pub uninterp spec fn pass_complaint(src: Seq<char>) -> Option<Seq<char>>;

/// `serde_json::from_str::<serde::de::IgnoredAny>`: passes over the text, or complains with the line
/// and column. What it says depends on the text alone.
#[verifier::external_body]
fn pass_over(src: &str) -> (r: Result<(), String>)
    ensures
        match r {
            Ok(()) => pass_complaint(src@) is None,
            Err(e) => pass_complaint(src@) == Some(e@),
        },
{
    match serde_json::from_str::<serde::de::IgnoredAny>(src) {
        Ok(_) => Ok(()),
        Err(e) => Err(e.to_string()),
    }
}

/// White space between the parts of a document.
pub open spec fn is_blank(c: char) -> bool {
    c == ' ' || c == '\n' || c == '\t' || c == '\r'
}

/// `s` from the first part of a document on.
pub open spec fn after_blanks(s: Seq<char>) -> Seq<char>
    decreases s.len(),
{
    if s.len() > 0 && is_blank(s[0]) {
        after_blanks(s.drop_first())
    } else {
        s
    }
}

/// The next part of the document begins with `c`.
pub open spec fn comes(s: Seq<char>, c: char) -> bool {
    after_blanks(s).len() > 0 && after_blanks(s)[0] == c
}

/// What follows the character that the next part of the document begins with.
pub open spec fn past(s: Seq<char>) -> Seq<char> {
    after_blanks(s).drop_first()
}

fn skip(s: &str) -> (r: &str)
    ensures
        r@ == after_blanks(s@),
        r@.len() <= s@.len(),
{
    let n: usize = s.unicode_len();
    let mut i: usize = 0;
    assert(s@.subrange(0, n as int) =~= s@);
    while i < n && (s.get_char(i) == ' ' || s.get_char(i) == '\n' || s.get_char(i) == '\t'
        || s.get_char(i) == '\r')
        invariant
            i <= n,
            n == s@.len(),
            after_blanks(s@) == after_blanks(s@.subrange(i as int, n as int)),
        decreases n - i,
    {
        assert(s@.subrange(i as int, n as int).drop_first() =~= s@.subrange(i + 1, n as int));
        i += 1;
    }
    s.substring_char(i, n)
}

/// What follows `c`, where the next part of the document begins with it.
fn go_past(s: &str, c: char) -> (r: Option<&str>)
    ensures
        match r {
            Some(rest) => comes(s@, c) && rest@ == past(s@) && rest@.len() < s@.len(),
            None => !comes(s@, c),
        },
{
    let t = skip(s);
    let n: usize = t.unicode_len();
    if n > 0 && t.get_char(0) == c {
        let rest = t.substring_char(1, n);
        assert(rest@ =~= t@.drop_first());
        Some(rest)
    } else {
        None
    }
}

/// What comes of a value where something else was expected. A list or an object is pointed at, and
/// any other value is passed first.
pub open spec fn unfit(s: Seq<char>, expected: Seq<char>) -> Scan {
    if comes(s, '[') {
        Scan::Wrong(Tree::List(Seq::empty()).mismatch(expected), after_blanks(s))
    } else if comes(s, '{') {
        Scan::Wrong(Tree::Object(Seq::empty()).mismatch(expected), after_blanks(s))
    } else {
        match first_value(s) {
            Some((v, rest)) => Scan::Wrong(v.mismatch(expected), rest),
            None => Scan::Lost,
        }
    }
}

fn find_unfit<'a>(s: &'a str, expected: &str) -> (r: Scanned<'a>)
    ensures
        r.deep_view() == unfit(s@, expected@),
        r.deep_view().is_within(s@),
{
    if go_past(s, '[').is_some() {
        let why = owned("invalid type: ").concat("sequence").concat(", expected ").concat(expected);
        return Scanned::Wrong(why, skip(s));
    }
    if go_past(s, '{').is_some() {
        let why = owned("invalid type: ").concat("map").concat(", expected ").concat(expected);
        return Scanned::Wrong(why, skip(s));
    }
    match take_first(s) {
        Some((v, rest)) => Scanned::Wrong(plain(v).mismatch(expected), rest),
        None => Scanned::Lost,
    }
}

// ---------------------------------------------------------------------------------------------
// Single values
// ---------------------------------------------------------------------------------------------
/// A type whose values can be read straight from a text.
pub trait Scannable: Sized {
    /// What comes of reading a value of this type that `s` begins with.
    spec fn scan(s: Seq<char>) -> Scan;

    fn check_text<'a>(s: &'a str) -> (r: Scanned<'a>)
        ensures
            r.deep_view() == Self::scan(s@),
            r.deep_view().is_within(s@),
    ;
}

/// What comes of reading a single value.
pub open spec fn single<T: Readable>(s: Seq<char>) -> Scan {
    if comes(s, '[') {
        match T::fault(Tree::List(Seq::empty())) {
            Some(why) => Scan::Wrong(why, after_blanks(s)),
            None => Scan::Lost,
        }
    } else if comes(s, '{') {
        match T::fault(Tree::Object(Seq::empty())) {
            Some(why) => Scan::Wrong(why, after_blanks(s)),
            None => Scan::Lost,
        }
    } else {
        match first_value(s) {
            Some((v, rest)) => match T::fault(v) {
                Some(why) => Scan::Wrong(why, rest),
                None => Scan::Read(v, rest),
            },
            None => Scan::Lost,
        }
    }
}

fn check_single<'a, T: Readable>(s: &'a str) -> (r: Scanned<'a>)
    ensures
        r.deep_view() == single::<T>(s@),
        r.deep_view().is_within(s@),
{
    if go_past(s, '[').is_some() {
        let nothing: Json = Json::List(Vec::new());
        proof {
            json::list_view(nothing);
            assert(nothing@->List_0 =~= Seq::<Tree>::empty());
        }
        return match T::read(&nothing) {
            Ok(_) => Scanned::Lost,
            Err(why) => Scanned::Wrong(why, skip(s)),
        };
    }
    if go_past(s, '{').is_some() {
        let nothing: Json = Json::Object(Vec::new());
        proof {
            json::object_view(nothing);
            assert(nothing@->Object_0 =~= Seq::<(Seq<char>, Tree)>::empty());
        }
        return match T::read(&nothing) {
            Ok(_) => Scanned::Lost,
            Err(why) => Scanned::Wrong(why, skip(s)),
        };
    }
    match take_first(s) {
        Some((v, rest)) => {
            let v: Json = plain(v);
            match T::read(&v) {
                Ok(_) => Scanned::Read(v, rest),
                Err(why) => Scanned::Wrong(why, rest),
            }
        },
        None => Scanned::Lost,
    }
}

impl Scannable for String {
    open spec fn scan(s: Seq<char>) -> Scan {
        single::<String>(s)
    }

    fn check_text<'a>(s: &'a str) -> (r: Scanned<'a>) {
        check_single::<String>(s)
    }
}

impl Scannable for u64 {
    open spec fn scan(s: Seq<char>) -> Scan {
        single::<u64>(s)
    }

    fn check_text<'a>(s: &'a str) -> (r: Scanned<'a>) {
        check_single::<u64>(s)
    }
}

impl Scannable for bool {
    open spec fn scan(s: Seq<char>) -> Scan {
        single::<bool>(s)
    }

    fn check_text<'a>(s: &'a str) -> (r: Scanned<'a>) {
        check_single::<bool>(s)
    }
}

/// `null`, or a value.
impl<T: Scannable> Scannable for Option<T> {
    open spec fn scan(s: Seq<char>) -> Scan {
        if comes(s, 'n') {
            match first_value(s) {
                Some((v, rest)) => Scan::Read(v, rest),
                None => Scan::Lost,
            }
        } else {
            T::scan(s)
        }
    }

    fn check_text<'a>(s: &'a str) -> (r: Scanned<'a>) {
        if go_past(s, 'n').is_some() {
            match take_first(s) {
                Some((v, rest)) => Scanned::Read(plain(v), rest),
                None => Scanned::Lost,
            }
        } else {
            T::check_text(s)
        }
    }
}

// ---------------------------------------------------------------------------------------------
// Lists and maps
// ---------------------------------------------------------------------------------------------
/// What comes of reading the items of a list from the next one on, after `got`.
pub open spec fn scan_items<T: Scannable>(s: Seq<char>, got: Seq<Tree>) -> Scan
    decreases s.len(),
{
    match T::scan(s) {
        Scan::Read(v, rest) => if comes(rest, ']') {
            Scan::Read(Tree::List(got.push(v)), past(rest))
        } else if comes(rest, ',') && past(rest).len() < s.len() {
            scan_items::<T>(past(rest), got.push(v))
        } else {
            Scan::Lost
        },
        other => other,
    }
}

/// The list of these items.
fn listed(items: Vec<Json>) -> (j: Json)
    ensures
        j@ == Tree::List(items.deep_view()),
{
    let ghost all = items.deep_view();
    let j: Json = Json::List(items);
    proof {
        json::list_view(j);
        assert(j@->List_0 =~= all);
    }
    j
}

/// The object of these members.
fn told(members: Vec<(String, Json)>) -> (j: Json)
    ensures
        j@ == Tree::Object(members.deep_view()),
{
    let ghost all = members.deep_view();
    let j = json::object(members);
    assert(j@->Object_0 =~= all);
    j
}

fn check_items<'a, T: Scannable>(s: &'a str) -> (r: Scanned<'a>)
    ensures
        r.deep_view() == scan_items::<T>(s@, Seq::empty()),
        r.deep_view().is_within(s@),
{
    let mut at: &'a str = s;
    let mut got: Vec<Json> = Vec::new();
    assert(got.deep_view() =~= Seq::<Tree>::empty());
    loop
        invariant
            scan_items::<T>(s@, Seq::empty()) == scan_items::<T>(at@, got.deep_view()),
            at@.len() <= s@.len(),
        decreases at@.len(),
    {
        match T::check_text(at) {
            Scanned::Read(v, rest) => {
                let ghost before = got.deep_view();
                got.push(v);
                assert(got.deep_view() =~= before.push(v@));
                if let Some(after) = go_past(rest, ']') {
                    return Scanned::Read(listed(got), after);
                }
                match go_past(rest, ',') {
                    Some(next) => {
                        at = next;
                    },
                    None => return Scanned::Lost,
                }
            },
            Scanned::Wrong(why, place) => return Scanned::Wrong(why, place),
            Scanned::Surplus(place) => return Scanned::Surplus(place),
            Scanned::Astray => return Scanned::Astray,
            Scanned::Lost => return Scanned::Lost,
        }
    }
}

impl<T: Scannable> Scannable for Vec<T> {
    open spec fn scan(s: Seq<char>) -> Scan {
        if !comes(s, '[') {
            unfit(s, "a sequence"@)
        } else if comes(past(s), ']') {
            Scan::Read(Tree::List(Seq::empty()), past(past(s)))
        } else {
            scan_items::<T>(past(s), Seq::empty())
        }
    }

    fn check_text<'a>(s: &'a str) -> (r: Scanned<'a>) {
        match go_past(s, '[') {
            None => find_unfit(s, "a sequence"),
            Some(t) => match go_past(t, ']') {
                Some(rest) => {
                    let none: Vec<Json> = Vec::new();
                    assert(none.deep_view() =~= Seq::<Tree>::empty());
                    Scanned::Read(listed(none), rest)
                },
                None => check_items::<T>(t),
            },
        }
    }
}

/// A name, and the text that follows it.
pub open spec fn next_name(s: Seq<char>) -> Option<(Seq<char>, Seq<char>)> {
    match first_value(s) {
        Some((Tree::Text(name), rest)) => Some((name, rest)),
        _ => None,
    }
}

fn find_name(s: &str) -> (r: Option<(String, &str)>)
    ensures
        match r {
            Some((name, rest)) => next_name(s@) == Some((name@, rest@)) && rest@.len() < s@.len(),
            None => next_name(s@) is None,
        },
{
    match take_first(s) {
        Some((v, rest)) => match plain(v) {
            Json::Text(name) => Some((name, rest)),
            _ => None,
        },
        None => None,
    }
}

/// What comes of reading the entries of a map from the next name on, after `got`.
pub open spec fn scan_entries(s: Seq<char>, got: Seq<(Seq<char>, Tree)>) -> Scan
    decreases s.len(),
{
    match next_name(s) {
        Some((name, rest)) => if comes(rest, ':') {
            match String::scan(past(rest)) {
                Scan::Read(v, rest) => if comes(rest, '}') {
                    Scan::Read(Tree::Object(got.push((name, v))), past(rest))
                } else if comes(rest, ',') && past(rest).len() < s.len() {
                    scan_entries(past(rest), got.push((name, v)))
                } else {
                    Scan::Lost
                },
                other => other,
            }
        } else {
            Scan::Lost
        },
        None => Scan::Lost,
    }
}

fn check_entries<'a>(s: &'a str) -> (r: Scanned<'a>)
    ensures
        r.deep_view() == scan_entries(s@, Seq::empty()),
        r.deep_view().is_within(s@),
{
    let mut at: &'a str = s;
    let mut got: Vec<(String, Json)> = Vec::new();
    assert(got.deep_view() =~= Seq::<(Seq<char>, Tree)>::empty());
    loop
        invariant
            scan_entries(s@, Seq::empty()) == scan_entries(at@, got.deep_view()),
            at@.len() <= s@.len(),
        decreases at@.len(),
    {
        let (name, rest) = match find_name(at) {
            Some(found) => found,
            None => return Scanned::Lost,
        };
        let value: &'a str = match go_past(rest, ':') {
            Some(value) => value,
            None => return Scanned::Lost,
        };
        match String::check_text(value) {
            Scanned::Read(v, rest) => {
                let ghost before = got.deep_view();
                let ghost entry = (name@, v@);
                got.push((name, v));
                assert(got.deep_view() =~= before.push(entry));
                if let Some(after) = go_past(rest, '}') {
                    return Scanned::Read(told(got), after);
                }
                match go_past(rest, ',') {
                    Some(next) => {
                        at = next;
                    },
                    None => return Scanned::Lost,
                }
            },
            Scanned::Wrong(why, place) => return Scanned::Wrong(why, place),
            Scanned::Surplus(place) => return Scanned::Surplus(place),
            Scanned::Astray => return Scanned::Astray,
            Scanned::Lost => return Scanned::Lost,
        }
    }
}

impl Scannable for crate::map::TextMap {
    open spec fn scan(s: Seq<char>) -> Scan {
        if !comes(s, '{') {
            unfit(s, "a map"@)
        } else if comes(past(s), '}') {
            Scan::Read(Tree::Object(Seq::empty()), past(past(s)))
        } else {
            scan_entries(past(s), Seq::empty())
        }
    }

    fn check_text<'a>(s: &'a str) -> (r: Scanned<'a>) {
        match go_past(s, '{') {
            None => find_unfit(s, "a map"),
            Some(t) => match go_past(t, '}') {
                Some(rest) => {
                    let none: Vec<(String, Json)> = Vec::new();
                    assert(none.deep_view() =~= Seq::<(Seq<char>, Tree)>::empty());
                    Scanned::Read(told(none), rest)
                },
                None => check_entries(t),
            },
        }
    }
}

// ---------------------------------------------------------------------------------------------
// Records
// ---------------------------------------------------------------------------------------------
/// One field of a record: its name, and whether it must be given.
#[verifier::ext_equal]
pub struct FieldModel {
    pub name: Seq<char>,
    pub required: bool,
}

/// One field of a record: its name, and whether it must be given.
pub struct Field {
    pub name: &'static str,
    pub required: bool,
}

impl DeepView for Field {
    type V = FieldModel;

    open spec fn deep_view(&self) -> FieldModel {
        FieldModel { name: self.name@, required: self.required }
    }
}

/// A record that can be read straight from a text.
pub trait Record: Sized {
    /// What it is called.
    spec fn title() -> Seq<char>;

    /// Its fields, in order.
    spec fn layout() -> Seq<FieldModel>;

    /// What comes of reading field number `i`.
    spec fn scan_field(i: nat, s: Seq<char>) -> Scan;

    fn called() -> (r: &'static str)
        ensures
            r@ == Self::title(),
    ;

    fn fields() -> (r: Vec<Field>)
        ensures
            r.deep_view() == Self::layout(),
    ;

    fn check_field<'a>(i: usize, s: &'a str) -> (r: Scanned<'a>)
        ensures
            r.deep_view() == Self::scan_field(i as nat, s@),
            r.deep_view().is_within(s@),
    ;
}

/// The number of the field called `name`, from number `i` on.
pub open spec fn number_of(fields: Seq<FieldModel>, name: Seq<char>, i: nat) -> Option<nat>
    decreases fields.len() - i,
{
    if i >= fields.len() {
        None
    } else if fields[i as int].name == name {
        Some(i)
    } else {
        number_of(fields, name, i + 1)
    }
}

/// A member called `name` is among these.
pub open spec fn is_given(got: Seq<(Seq<char>, Tree)>, name: Seq<char>) -> bool {
    exists|i: int| 0 <= i < got.len() && (#[trigger] got[i]).0 == name
}

/// The complaint about the first field, from number `i` on, that must be given and was not.
pub open spec fn missing(fields: Seq<FieldModel>, got: Seq<(Seq<char>, Tree)>, i: nat) -> Option<
    Seq<char>,
>
    decreases fields.len() - i,
{
    if i >= fields.len() {
        None
    } else if fields[i as int].required && !is_given(got, fields[i as int].name) {
        Some("missing field `"@ + fields[i as int].name + "`"@)
    } else {
        missing(fields, got, i + 1)
    }
}

/// What comes of the end of an object that gave the fields `got`, where `after` follows it.
pub open spec fn finish<R: Record>(after: Seq<char>, got: Seq<(Seq<char>, Tree)>) -> Scan {
    match missing(R::layout(), got, 0) {
        Some(why) => Scan::Wrong(why, after),
        None => Scan::Read(Tree::Object(got), after),
    }
}

/// What comes of reading the value of a member that is field number `number`, or none. What is no
/// field is passed over.
pub open spec fn scan_value<R: Record>(number: Option<nat>, s: Seq<char>) -> Scan {
    match number {
        Some(i) => R::scan_field(i, s),
        None => match after_first(s) {
            Some(rest) => Scan::Read(Tree::Null, rest),
            None => Scan::Astray,
        },
    }
}

/// The fields that were given, with one more where `number` is one.
pub open spec fn also(
    got: Seq<(Seq<char>, Tree)>,
    number: Option<nat>,
    name: Seq<char>,
    v: Tree,
) -> Seq<(Seq<char>, Tree)> {
    if number is Some {
        got.push((name, v))
    } else {
        got
    }
}

/// What comes of reading the members of an object from the next name on, where the fields `got`
/// were given before. A field that is given again is complained of before its value is read.
pub open spec fn scan_members<R: Record>(s: Seq<char>, got: Seq<(Seq<char>, Tree)>) -> Scan
    decreases s.len(),
{
    match next_name(s) {
        Some((name, rest)) => {
            let number = number_of(R::layout(), name, 0);
            if number is Some && is_given(got, name) {
                Scan::Wrong(
                    "duplicate field `"@ + name + "`"@,
                    if comes(rest, '}') {
                        past(rest)
                    } else {
                        after_blanks(rest)
                    },
                )
            } else if !comes(rest, ':') {
                Scan::Lost
            } else {
                match scan_value::<R>(number, past(rest)) {
                    Scan::Read(v, rest) => if comes(rest, '}') {
                        finish::<R>(past(rest), also(got, number, name, v))
                    } else if comes(rest, ',') && past(rest).len() < s.len() {
                        scan_members::<R>(past(rest), also(got, number, name, v))
                    } else {
                        Scan::Lost
                    },
                    other => other,
                }
            }
        },
        None => Scan::Lost,
    }
}

/// What comes of the end of a list that gave every field: more items are too many.
pub open spec fn finish_list(s: Seq<char>, got: Seq<Tree>) -> Scan {
    if comes(s, ']') {
        Scan::Read(Tree::List(got), past(s))
    } else if comes(s, ',') {
        if comes(past(s), ']') {
            Scan::Lost
        } else {
            Scan::Surplus(after_blanks(past(s)))
        }
    } else if after_blanks(s).len() > 0 {
        Scan::Surplus(after_blanks(s))
    } else {
        Scan::Lost
    }
}

/// What comes of reading the fields of a record that is written as a list, from field number `i` on,
/// after `got`.
pub open spec fn scan_fields<R: Record>(s: Seq<char>, i: nat, got: Seq<Tree>) -> Scan
    decreases R::layout().len() - i,
{
    if i >= R::layout().len() {
        finish_list(s, got)
    } else if comes(s, ']') {
        if R::layout()[i as int].required {
            Scan::Wrong(
                "invalid length "@ + text::decimal(i) + ", expected "@ + R::title() + " with "@
                    + text::decimal(R::layout().len()) + if R::layout().len() == 1 {
                    " element"@
                } else {
                    " elements"@
                },
                past(s),
            )
        } else {
            scan_fields::<R>(s, i + 1, got)
        }
    } else if i > 0 && !comes(s, ',') {
        Scan::Lost
    } else {
        match R::scan_field(
            i,
            if i > 0 {
                past(s)
            } else {
                s
            },
        ) {
            Scan::Read(v, rest) => scan_fields::<R>(rest, i + 1, got.push(v)),
            other => other,
        }
    }
}

/// What comes of reading a record.
pub open spec fn scan_record<R: Record>(s: Seq<char>) -> Scan {
    if comes(s, '{') {
        if comes(past(s), '}') {
            finish::<R>(past(past(s)), Seq::empty())
        } else {
            scan_members::<R>(past(s), Seq::empty())
        }
    } else if comes(s, '[') {
        scan_fields::<R>(past(s), 0, Seq::empty())
    } else {
        unfit(s, R::title())
    }
}

fn find_number(fields: &Vec<Field>, name: &str) -> (r: Option<usize>)
    ensures
        match r {
            Some(i) => i < fields.len() && number_of(fields.deep_view(), name@, 0) == Some(i as nat),
            None => number_of(fields.deep_view(), name@, 0) is None,
        },
{
    let ghost all = fields.deep_view();
    let mut i: usize = 0;
    while i < fields.len()
        invariant
            i <= fields.len(),
            all == fields.deep_view(),
            number_of(all, name@, 0) == number_of(all, name@, i as nat),
        decreases fields.len() - i,
    {
        assert(all[i as int] == fields@[i as int].deep_view());
        if same(fields[i].name, name) {
            return Some(i);
        }
        i += 1;
    }
    None
}

fn has_name(got: &Vec<(String, Json)>, name: &str) -> (r: bool)
    ensures
        r == is_given(got.deep_view(), name@),
{
    let ghost all = got.deep_view();
    let mut i: usize = 0;
    while i < got.len()
        invariant
            i <= got.len(),
            all == got.deep_view(),
            forall|k: int| 0 <= k < i ==> (#[trigger] all[k]).0 != name@,
        decreases got.len() - i,
    {
        assert(all[i as int].0 == got@[i as int].0@);
        if same(got[i].0.as_str(), name) {
            return true;
        }
        i += 1;
    }
    false
}

fn find_missing(fields: &Vec<Field>, got: &Vec<(String, Json)>) -> (r: Option<String>)
    ensures
        match r {
            Some(why) => missing(fields.deep_view(), got.deep_view(), 0) == Some(why@),
            None => missing(fields.deep_view(), got.deep_view(), 0) is None,
        },
{
    let ghost all = fields.deep_view();
    let mut i: usize = 0;
    while i < fields.len()
        invariant
            i <= fields.len(),
            all == fields.deep_view(),
            missing(all, got.deep_view(), 0) == missing(all, got.deep_view(), i as nat),
        decreases fields.len() - i,
    {
        assert(all[i as int] == fields@[i as int].deep_view());
        if fields[i].required && !has_name(got, fields[i].name) {
            return Some(owned("missing field `").concat(fields[i].name).concat("`"));
        }
        i += 1;
    }
    None
}

fn check_finish<'a, R: Record>(
    after: &'a str,
    fields: &Vec<Field>,
    got: Vec<(String, Json)>,
) -> (r: Scanned<'a>)
    requires
        fields.deep_view() == R::layout(),
    ensures
        r.deep_view() == finish::<R>(after@, got.deep_view()),
        r.deep_view().is_within(after@),
{
    match find_missing(fields, &got) {
        Some(why) => Scanned::Wrong(why, after),
        None => Scanned::Read(told(got), after),
    }
}

fn check_value<'a, R: Record>(number: Option<usize>, s: &'a str) -> (r: Scanned<'a>)
    ensures
        r.deep_view() == scan_value::<R>(
            match number {
                Some(i) => Some(i as nat),
                None => None,
            },
            s@,
        ),
        r.deep_view().is_within(s@),
{
    match number {
        Some(i) => R::check_field(i, s),
        None => match pass_first(s) {
            Some(rest) => Scanned::Read(Json::Null, rest),
            None => Scanned::Astray,
        },
    }
}

fn check_members<'a, R: Record>(s: &'a str, fields: &Vec<Field>) -> (r: Scanned<'a>)
    requires
        fields.deep_view() == R::layout(),
    ensures
        r.deep_view() == scan_members::<R>(s@, Seq::empty()),
        r.deep_view().is_within(s@),
{
    let mut at: &'a str = s;
    let mut got: Vec<(String, Json)> = Vec::new();
    assert(got.deep_view() =~= Seq::<(Seq<char>, Tree)>::empty());
    loop
        invariant
            fields.deep_view() == R::layout(),
            scan_members::<R>(s@, Seq::empty()) == scan_members::<R>(at@, got.deep_view()),
            at@.len() <= s@.len(),
        decreases at@.len(),
    {
        let (name, rest) = match find_name(at) {
            Some(found) => found,
            None => return Scanned::Lost,
        };
        let number = find_number(fields, name.as_str());
        if number.is_some() && has_name(&got, name.as_str()) {
            let why = owned("duplicate field `").concat(name.as_str()).concat("`");
            return match go_past(rest, '}') {
                Some(after) => Scanned::Wrong(why, after),
                None => Scanned::Wrong(why, skip(rest)),
            };
        }
        let value: &'a str = match go_past(rest, ':') {
            Some(value) => value,
            None => return Scanned::Lost,
        };
        match check_value::<R>(number, value) {
            Scanned::Read(v, rest) => {
                let ghost before = got.deep_view();
                let ghost member = (name@, v@);
                if number.is_some() {
                    got.push((name, v));
                    assert(got.deep_view() =~= before.push(member));
                }
                if let Some(after) = go_past(rest, '}') {
                    return check_finish::<R>(after, fields, got);
                }
                match go_past(rest, ',') {
                    Some(next) => {
                        at = next;
                    },
                    None => return Scanned::Lost,
                }
            },
            Scanned::Wrong(why, place) => return Scanned::Wrong(why, place),
            Scanned::Surplus(place) => return Scanned::Surplus(place),
            Scanned::Astray => return Scanned::Astray,
            Scanned::Lost => return Scanned::Lost,
        }
    }
}

fn check_finish_list<'a>(s: &'a str, got: Vec<Json>) -> (r: Scanned<'a>)
    ensures
        r.deep_view() == finish_list(s@, got.deep_view()),
        r.deep_view().is_within(s@),
{
    if let Some(rest) = go_past(s, ']') {
        return Scanned::Read(listed(got), rest);
    }
    if let Some(rest) = go_past(s, ',') {
        if go_past(rest, ']').is_some() {
            return Scanned::Lost;
        }
        return Scanned::Surplus(skip(rest));
    }
    let t = skip(s);
    if t.unicode_len() > 0 {
        Scanned::Surplus(t)
    } else {
        Scanned::Lost
    }
}

fn check_fields<'a, R: Record>(s: &'a str, fields: &Vec<Field>) -> (r: Scanned<'a>)
    requires
        fields.deep_view() == R::layout(),
    ensures
        r.deep_view() == scan_fields::<R>(s@, 0, Seq::empty()),
        r.deep_view().is_within(s@),
{
    let mut at: &'a str = s;
    let mut i: usize = 0;
    let mut got: Vec<Json> = Vec::new();
    let ghost all = R::layout();
    assert(got.deep_view() =~= Seq::<Tree>::empty());
    while i < fields.len()
        invariant
            i <= fields.len(),
            all == R::layout(),
            fields.deep_view() == all,
            scan_fields::<R>(s@, 0, Seq::empty()) == scan_fields::<R>(
                at@,
                i as nat,
                got.deep_view(),
            ),
            at@.len() <= s@.len(),
        decreases fields.len() - i,
    {
        assert(all[i as int] == fields@[i as int].deep_view());
        if let Some(after) = go_past(at, ']') {
            if fields[i].required {
                let why = owned("invalid length ").concat(show_wide(i as u128).as_str()).concat(
                    ", expected ",
                ).concat(R::called()).concat(" with ").concat(
                    show_wide(fields.len() as u128).as_str(),
                ).concat(
                    if fields.len() == 1 {
                        " element"
                    } else {
                        " elements"
                    },
                );
                return Scanned::Wrong(why, after);
            }
            i += 1;
        } else {
            let item: &'a str = if i > 0 {
                match go_past(at, ',') {
                    Some(next) => next,
                    None => return Scanned::Lost,
                }
            } else {
                at
            };
            match R::check_field(i, item) {
                Scanned::Read(v, rest) => {
                    let ghost before = got.deep_view();
                    got.push(v);
                    assert(got.deep_view() =~= before.push(v@));
                    at = rest;
                    i += 1;
                },
                Scanned::Wrong(why, place) => return Scanned::Wrong(why, place),
                Scanned::Surplus(place) => return Scanned::Surplus(place),
            Scanned::Astray => return Scanned::Astray,
                Scanned::Lost => return Scanned::Lost,
            }
        }
    }
    check_finish_list(at, got)
}

/// Check a record.
pub fn check_record<'a, R: Record>(s: &'a str) -> (r: Scanned<'a>)
    ensures
        r.deep_view() == scan_record::<R>(s@),
        r.deep_view().is_within(s@),
{
    let fields = R::fields();
    if let Some(t) = go_past(s, '{') {
        return match go_past(t, '}') {
            Some(after) => {
                let none: Vec<(String, Json)> = Vec::new();
                assert(none.deep_view() =~= Seq::<(Seq<char>, Tree)>::empty());
                check_finish::<R>(after, &fields, none)
            },
            None => check_members::<R>(t, &fields),
        };
    }
    match go_past(s, '[') {
        Some(t) => check_fields::<R>(t, &fields),
        None => find_unfit(s, R::called()),
    }
}

// ---------------------------------------------------------------------------------------------
// Where it stands
// ---------------------------------------------------------------------------------------------
/// The bytes that a character takes in UTF-8.
pub open spec fn width(c: char) -> nat {
    if c as u32 <= 0x7f {
        1
    } else if c as u32 <= 0x7ff {
        2
    } else if c as u32 <= 0xffff {
        3
    } else {
        4
    }
}

/// The line after `s`, counted from one.
pub open spec fn line_after(s: Seq<char>) -> nat
    decreases s.len(),
{
    if s.len() == 0 {
        1
    } else {
        line_after(s.drop_last()) + if s.last() == '\n' {
            1nat
        } else {
            0nat
        }
    }
}

/// The bytes since the last line break in `s`.
pub open spec fn column_after(s: Seq<char>) -> nat
    decreases s.len(),
{
    if s.len() == 0 || s.last() == '\n' {
        0
    } else {
        column_after(s.drop_last()) + width(s.last())
    }
}

/// The place `ahead` bytes after where `rest` begins in `src`, in words.
pub open spec fn place(src: Seq<char>, rest: Seq<char>, ahead: nat) -> Seq<char> {
    let before = src.subrange(0, src.len() - rest.len());
    " at line "@ + text::decimal(line_after(before)) + " column "@ + text::decimal(
        column_after(before) + ahead,
    )
}

fn say_place(src: &str, rest: &str, ahead: u8) -> (r: String)
    requires
        rest@.len() <= src@.len(),
    ensures
        r@ == place(src@, rest@, ahead as nat),
{
    let v = chars(src);
    let n: usize = v.len() - rest.unicode_len();
    let ghost all = src@;
    let mut line: u128 = 1;
    let mut column: u128 = 0;
    let mut i: usize = 0;
    assert(all.subrange(0, 0) =~= Seq::<char>::empty());
    while i < n
        invariant
            i <= n <= v.len(),
            v@ == all,
            line == line_after(all.subrange(0, i as int)),
            column == column_after(all.subrange(0, i as int)),
            line <= 1 + i,
            column <= 4 * i,
        decreases n - i,
    {
        let ghost next = all.subrange(0, i + 1);
        assert(next.drop_last() =~= all.subrange(0, i as int));
        let c: char = v[i];
        assert(next.last() == c);
        if c == '\n' {
            line = line + 1;
            column = 0;
        } else {
            let u: u32 = c as u32;
            let w: u128 = if u <= 0x7f {
                1
            } else if u <= 0x7ff {
                2
            } else if u <= 0xffff {
                3
            } else {
                4
            };
            column = column + w;
        }
        i += 1;
    }
    owned(" at line ").concat(show_wide(line).as_str()).concat(" column ").concat(
        show_wide(column + ahead as u128).as_str(),
    )
}

/// The complaint that a text goes on at `at`, where it should end.
pub open spec fn surplus(src: Seq<char>, at: Seq<char>) -> Seq<char> {
    "trailing characters"@ + place(
        src,
        at,
        if at.len() > 0 {
            1
        } else {
            0
        },
    )
}

fn say_surplus(src: &str, at: &str) -> (r: String)
    requires
        at@.len() <= src@.len(),
    ensures
        r@ == surplus(src@, at@),
{
    let ahead: u8 = if at.unicode_len() > 0 {
        1
    } else {
        0
    };
    owned("trailing characters").concat(say_place(src, at, ahead).as_str())
}

/// What a text says of a value of this type: a document that such a value is read from, or the
/// complaint about the first thing in it that does not fit, and where it stands. A text that is no
/// document is left to the parser's own complaint.
pub open spec fn source<T: Scannable>(src: Seq<char>) -> Result<Tree, Seq<char>> {
    match T::scan(src) {
        Scan::Wrong(why, at) => Err(why + place(src, at, 0)),
        Scan::Surplus(at) => Err(surplus(src, at)),
        Scan::Read(v, rest) => if after_blanks(rest).len() == 0 {
            Ok(v)
        } else {
            Err(surplus(src, after_blanks(rest)))
        },
        Scan::Astray => match pass_complaint(src) {
            Some(complaint) => Err(complaint),
            None => json::parsed(src),
        },
        Scan::Lost => json::parsed(src),
    }
}

/// Read a text for a value of this type.
pub fn read_source<T: Scannable>(src: &str) -> (r: Result<Json, String>)
    ensures
        match r {
            Ok(j) => source::<T>(src@) == Ok::<Tree, Seq<char>>(j@),
            Err(e) => source::<T>(src@) == Err::<Tree, Seq<char>>(e@),
        },
{
    match T::check_text(src) {
        Scanned::Wrong(why, at) => Err(why.concat(say_place(src, at, 0).as_str())),
        Scanned::Surplus(at) => Err(say_surplus(src, at)),
        Scanned::Read(v, rest) => {
            let rest = skip(rest);
            if rest.unicode_len() == 0 {
                Ok(v)
            } else {
                Err(say_surplus(src, rest))
            }
        },
        Scanned::Astray => match pass_over(src) {
            Err(complaint) => Err(complaint),
            Ok(()) => Json::parse(src),
        },
        Scanned::Lost => Json::parse(src),
    }
}

// ---------------------------------------------------------------------------------------------
// Laws
// ---------------------------------------------------------------------------------------------
/// A field that is given again is complained of, before its value is looked at.
pub proof fn a_field_given_again_is_refused<R: Record>(
    s: Seq<char>,
    got: Seq<(Seq<char>, Tree)>,
    name: Seq<char>,
    rest: Seq<char>,
)
    requires
        next_name(s) == Some((name, rest)),
        number_of(R::layout(), name, 0) is Some,
        is_given(got, name),
    ensures
        scan_members::<R>(s, got) matches Scan::Wrong(why, _) && why == "duplicate field `"@ + name
            + "`"@,
{
}

/// The first member that does not fit is the one that is complained of, whatever follows it.
pub proof fn the_first_misfit_is_named<R: Record>(
    s: Seq<char>,
    got: Seq<(Seq<char>, Tree)>,
    name: Seq<char>,
    rest: Seq<char>,
    why: Seq<char>,
    at: Seq<char>,
)
    requires
        next_name(s) == Some((name, rest)),
        !is_given(got, name),
        comes(rest, ':'),
        scan_value::<R>(number_of(R::layout(), name, 0), past(rest)) == Scan::Wrong(why, at),
    ensures
        scan_members::<R>(s, got) == Scan::Wrong(why, at),
{
}

/// A member that is no field is passed over, whatever its value is: the object says what it would
/// say without it.
pub proof fn what_is_no_field_is_passed_over<R: Record>(
    s: Seq<char>,
    got: Seq<(Seq<char>, Tree)>,
    name: Seq<char>,
    rest: Seq<char>,
    after: Seq<char>,
)
    requires
        next_name(s) == Some((name, rest)),
        number_of(R::layout(), name, 0) is None,
        comes(rest, ':'),
        after_first(past(rest)) == Some(after),
        comes(after, ','),
        past(after).len() < s.len(),
    ensures
        scan_members::<R>(s, got) == scan_members::<R>(past(after), got),
{
}

} // verus!
