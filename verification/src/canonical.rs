//! What is written tells documents apart: no two documents have one text.
//!
//! A record names what it depends on by the hash of a text. That names the thing itself only where
//! no other thing is written in the same way.
use vstd::prelude::*;

use crate::json;
use crate::json::{Tree, Writable};
use crate::text;

verus! {

/// A character of a number's text.
pub open spec fn is_number_char(c: char) -> bool {
    text::is_digit(c) || c == '-' || c == '+' || c == '.' || c == 'e' || c == 'E'
}

/// A text that can stand for a number.
pub open spec fn is_numeral(s: Seq<char>) -> bool {
    s.len() > 0 && forall|i: int| 0 <= i < s.len() ==> is_number_char(#[trigger] s[i])
}

/// Every number in the document is one.
pub open spec fn well_written(t: Tree) -> bool
    decreases t,
{
    match t {
        Tree::Number(s) => is_numeral(s),
        Tree::List(items) => forall|i: int|
            0 <= i < items.len() ==> well_written(#[trigger] items[i]),
        Tree::Object(members) => forall|i: int|
            0 <= i < members.len() ==> well_written((#[trigger] members[i]).1),
        _ => true,
    }
}

/// Nothing, or something that ends a number.
spec fn stops(x: Seq<char>) -> bool {
    x.len() == 0 || !is_number_char(x[0])
}

// ---------------------------------------------------------------------------------------------
// Sequences
// ---------------------------------------------------------------------------------------------
proof fn same_rest(a: Seq<char>, x: Seq<char>, y: Seq<char>)
    requires
        a + x == a + y,
    ensures
        x == y,
{
    assert((a + x).subrange(a.len() as int, (a + x).len() as int) =~= x);
    assert((a + y).subrange(a.len() as int, (a + y).len() as int) =~= y);
}

// ---------------------------------------------------------------------------------------------
// Text
// ---------------------------------------------------------------------------------------------
proof fn hex_digits_differ(a: nat, b: nat)
    requires
        a < 16,
        b < 16,
        json::hex_digit(a) == json::hex_digit(b),
    ensures
        a == b,
{
    assert(json::hex_digit(a) as int == if a < 10 {
        48 + a
    } else {
        87 + a
    });
    assert(json::hex_digit(b) as int == if b < 10 {
        48 + b
    } else {
        87 + b
    });
}

/// No character is written as another, or as the beginning of another.
proof fn same_character(c: char, d: char, x: Seq<char>, y: Seq<char>)
    requires
        json::escaped(c) + x == json::escaped(d) + y,
    ensures
        c == d,
        x == y,
{
    let p = json::escaped(c);
    let q = json::escaped(d);
    assert((p + x)[0] == p[0]);
    assert((q + y)[0] == q[0]);
    if p[0] == '\\' {
        assert((p + x)[1] == p[1]);
        assert((q + y)[1] == q[1]);
        if p[1] == 'u' {
            assert((p + x)[4] == p[4] && (p + x)[5] == p[5]);
            assert((q + y)[4] == q[4] && (q + y)[5] == q[5]);
            hex_digits_differ(c as nat / 16, d as nat / 16);
            hex_digits_differ(c as nat % 16, d as nat % 16);
        }
    }
    assert(c == d);
    same_rest(p, x, y);
}

/// What is written of a text begins with what is written of its first character.
proof fn written_from_the_front(s: Seq<char>)
    requires
        s.len() > 0,
    ensures
        json::escaped_all(s) == json::escaped(s[0]) + json::escaped_all(s.drop_first()),
    decreases s.len(),
{
    if s.len() == 1 {
        assert(s.drop_last() =~= Seq::<char>::empty());
        assert(s.drop_first() =~= Seq::<char>::empty());
        assert(json::escaped_all(s) =~= json::escaped(s[0]) + json::escaped_all(s.drop_first()));
    } else {
        written_from_the_front(s.drop_last());
        assert(s.drop_first().drop_last() =~= s.drop_last().drop_first());
        assert(s.drop_first().last() == s.last());
        assert(json::escaped_all(s) =~= json::escaped(s[0]) + json::escaped_all(s.drop_first()));
    }
}

proof fn same_characters(s: Seq<char>, r: Seq<char>, x: Seq<char>, y: Seq<char>)
    requires
        json::escaped_all(s) + seq!['"'] + x == json::escaped_all(r) + seq!['"'] + y,
    ensures
        s == r,
        x == y,
    decreases s.len(),
{
    let quote = seq!['"'];
    let left = json::escaped_all(s) + quote + x;
    let right = json::escaped_all(r) + quote + y;
    if s.len() > 0 {
        written_from_the_front(s);
        assert(left =~= json::escaped(s[0]) + (json::escaped_all(s.drop_first()) + quote + x));
        assert(left[0] == json::escaped(s[0])[0]);
        assert(left[0] != '"');
    } else {
        assert(left =~= quote + x);
        assert(left[0] == '"');
    }
    if r.len() > 0 {
        written_from_the_front(r);
        assert(right =~= json::escaped(r[0]) + (json::escaped_all(r.drop_first()) + quote + y));
        assert(right[0] == json::escaped(r[0])[0]);
        assert(right[0] != '"');
    } else {
        assert(right =~= quote + y);
        assert(right[0] == '"');
    }
    if s.len() > 0 {
        same_character(
            s[0],
            r[0],
            json::escaped_all(s.drop_first()) + quote + x,
            json::escaped_all(r.drop_first()) + quote + y,
        );
        same_characters(s.drop_first(), r.drop_first(), x, y);
        assert(s =~= seq![s[0]] + s.drop_first());
        assert(r =~= seq![r[0]] + r.drop_first());
    } else {
        assert(s =~= r);
        same_rest(quote, x, y);
    }
}

/// A quoted text ends where its own closing quote stands, and says what it says.
proof fn same_text(s: Seq<char>, r: Seq<char>, x: Seq<char>, y: Seq<char>)
    requires
        json::quoted(s) + x == json::quoted(r) + y,
    ensures
        s == r,
        x == y,
{
    let quote = seq!['"'];
    assert(json::quoted(s) + x =~= quote + (json::escaped_all(s) + quote + x));
    assert(json::quoted(r) + y =~= quote + (json::escaped_all(r) + quote + y));
    same_rest(
        quote,
        json::escaped_all(s) + quote + x,
        json::escaped_all(r) + quote + y,
    );
    same_characters(s, r, x, y);
}

// ---------------------------------------------------------------------------------------------
// Numbers
// ---------------------------------------------------------------------------------------------
proof fn same_number(s: Seq<char>, r: Seq<char>, x: Seq<char>, y: Seq<char>)
    requires
        is_numeral(s),
        is_numeral(r),
        stops(x),
        stops(y),
        s + x == r + y,
    ensures
        s == r,
        x == y,
{
    if s.len() < r.len() {
        let n = s.len() as int;
        assert((r + y)[n] == r[n]);
        assert((s + x).len() == (r + y).len());
        assert((s + x)[n] == x[0]);
        assert(is_number_char(r[n]));
    } else if r.len() < s.len() {
        let n = r.len() as int;
        assert((s + x)[n] == s[n]);
        assert((s + x).len() == (r + y).len());
        assert((r + y)[n] == y[0]);
        assert(is_number_char(s[n]));
    }
    assert(s.len() == r.len());
    assert((s + x).subrange(0, s.len() as int) =~= s);
    assert((r + y).subrange(0, r.len() as int) =~= r);
    same_rest(s, x, y);
}

// ---------------------------------------------------------------------------------------------
// Documents
// ---------------------------------------------------------------------------------------------
/// The texts of the items from number `k` on.
spec fn items_from(items: Seq<Tree>, k: int) -> Seq<char>
    decreases items.len() - k,
{
    if k < 0 || k >= items.len() {
        Seq::empty()
    } else {
        json::comma((k + 1) as nat) + json::rendered(items[k]) + items_from(items, k + 1)
    }
}

/// The texts of the members from number `k` on.
spec fn members_from(members: Seq<(Seq<char>, Tree)>, k: int) -> Seq<char>
    decreases members.len() - k,
{
    if k < 0 || k >= members.len() {
        Seq::empty()
    } else {
        json::comma((k + 1) as nat) + json::quoted(members[k].0) + ":"@ + json::rendered(
            members[k].1,
        ) + members_from(members, k + 1)
    }
}

proof fn items_in_two_parts(items: Seq<Tree>, k: int)
    requires
        0 <= k <= items.len(),
    ensures
        json::rendered_items(items, items.len()) == json::rendered_items(items, k as nat)
            + items_from(items, k),
    decreases items.len() - k,
{
    if k < items.len() {
        items_in_two_parts(items, k + 1);
        assert(json::rendered_items(items, k as nat) + items_from(items, k)
            =~= json::rendered_items(items, (k + 1) as nat) + items_from(items, k + 1));
    } else {
        assert(json::rendered_items(items, k as nat) + items_from(items, k)
            =~= json::rendered_items(items, k as nat));
    }
}

proof fn members_in_two_parts(members: Seq<(Seq<char>, Tree)>, k: int)
    requires
        0 <= k <= members.len(),
    ensures
        json::rendered_members(members, members.len()) == json::rendered_members(
            members,
            k as nat,
        ) + members_from(members, k),
    decreases members.len() - k,
{
    if k < members.len() {
        members_in_two_parts(members, k + 1);
        assert(json::rendered_members(members, k as nat) + members_from(members, k)
            =~= json::rendered_members(members, (k + 1) as nat) + members_from(members, k + 1));
    } else {
        assert(json::rendered_members(members, k as nat) + members_from(members, k)
            =~= json::rendered_members(members, k as nat));
    }
}

/// What kind of document a text begins.
spec fn opening(t: Tree) -> char {
    match t {
        Tree::Null => 'n',
        Tree::Bool(b) => if b {
            't'
        } else {
            'f'
        },
        Tree::Number(s) => s[0],
        Tree::Text(_) => '"',
        Tree::List(_) => '[',
        Tree::Object(_) => '{',
    }
}

proof fn a_document_opens(t: Tree)
    requires
        well_written(t),
    ensures
        json::rendered(t).len() > 0,
        json::rendered(t)[0] == opening(t),
        opening(t) != ',' && opening(t) != ']' && opening(t) != '}',
{
    reveal_strlit("null");
    reveal_strlit("true");
    reveal_strlit("false");
    reveal_strlit("[");
    reveal_strlit("]");
    reveal_strlit("{");
    reveal_strlit("}");
}

proof fn same_document(t: Tree, u: Tree, x: Seq<char>, y: Seq<char>)
    requires
        well_written(t),
        well_written(u),
        stops(x),
        stops(y),
        json::rendered(t) + x == json::rendered(u) + y,
    ensures
        t == u,
        x == y,
    decreases t, 0nat,
{
    let left = json::rendered(t) + x;
    let right = json::rendered(u) + y;
    a_document_opens(t);
    a_document_opens(u);
    assert(left[0] == opening(t) && right[0] == opening(u));
    reveal_strlit("[");
    reveal_strlit("]");
    reveal_strlit("{");
    reveal_strlit("}");
    match t {
        Tree::Null => {
            same_rest("null"@, x, y);
        },
        Tree::Bool(b) => {
            if b {
                same_rest("true"@, x, y);
            } else {
                same_rest("false"@, x, y);
            }
        },
        Tree::Number(s) => {
            assert(u is Number);
            same_number(s, u->Number_0, x, y);
        },
        Tree::Text(s) => {
            same_text(s, u->Text_0, x, y);
        },
        Tree::List(items) => {
            let others = u->List_0;
            items_in_two_parts(items, 0);
            items_in_two_parts(others, 0);
            assert(json::rendered_items(items, 0) =~= Seq::<char>::empty());
            assert(json::rendered_items(others, 0) =~= Seq::<char>::empty());
            assert(json::rendered_items(items, items.len()) =~= items_from(items, 0));
            assert(json::rendered_items(others, others.len()) =~= items_from(others, 0));
            assert(left =~= "["@ + rest_of_items(items, 0, x));
            assert(right =~= "["@ + rest_of_items(others, 0, y));
            same_rest("["@, rest_of_items(items, 0, x), rest_of_items(others, 0, y));
            assert(decreases_to!(t => items));
            same_items(items, others, 0, x, y);
            assert(items =~= others);
        },
        Tree::Object(members) => {
            let others = u->Object_0;
            members_in_two_parts(members, 0);
            members_in_two_parts(others, 0);
            assert(json::rendered_members(members, 0) =~= Seq::<char>::empty());
            assert(json::rendered_members(others, 0) =~= Seq::<char>::empty());
            assert(json::rendered_members(members, members.len()) =~= members_from(members, 0));
            assert(json::rendered_members(others, others.len()) =~= members_from(others, 0));
            assert(left =~= "{"@ + rest_of_members(members, 0, x));
            assert(right =~= "{"@ + rest_of_members(others, 0, y));
            same_rest("{"@, rest_of_members(members, 0, x), rest_of_members(others, 0, y));
            assert(decreases_to!(t => members));
            same_members(members, others, 0, x, y);
            assert(members =~= others);
        },
    }
}

/// What is left of a list, from item `k` on and with what follows the list.
spec fn rest_of_items(a: Seq<Tree>, k: int, x: Seq<char>) -> Seq<char> {
    items_from(a, k) + "]"@ + x
}

proof fn rest_of_items_opens(a: Seq<Tree>, k: int, x: Seq<char>)
    requires
        0 <= k <= a.len(),
        forall|i: int| 0 <= i < a.len() ==> well_written(#[trigger] a[i]),
    ensures
        rest_of_items(a, k, x).len() > 0,
        k < a.len() ==> rest_of_items(a, k, x)[0] != ']',
        k < a.len() ==> rest_of_items(a, k, x) == json::comma((k + 1) as nat) + (json::rendered(a[k])
            + rest_of_items(a, k + 1, x)),
        k == a.len() ==> rest_of_items(a, k, x) == "]"@ + x,
        k == a.len() ==> rest_of_items(a, k, x)[0] == ']',
        k > 0 ==> stops(rest_of_items(a, k, x)),
{
    reveal_strlit("]");
    reveal_strlit(",");
    reveal_strlit("");
    let comma = json::comma((k + 1) as nat);
    if k < a.len() {
        a_document_opens(a[k]);
        let whole = comma + (json::rendered(a[k]) + rest_of_items(a, k + 1, x));
        assert(rest_of_items(a, k, x) =~= whole);
        assert(whole[0] == if k > 0 {
            ','
        } else {
            opening(a[k])
        });
    } else {
        assert(rest_of_items(a, k, x) =~= "]"@ + x);
    }
}

proof fn same_items(a: Seq<Tree>, b: Seq<Tree>, k: int, x: Seq<char>, y: Seq<char>)
    requires
        0 <= k <= a.len(),
        k <= b.len(),
        forall|i: int| 0 <= i < a.len() ==> well_written(#[trigger] a[i]),
        forall|i: int| 0 <= i < b.len() ==> well_written(#[trigger] b[i]),
        rest_of_items(a, k, x) == rest_of_items(b, k, y),
    ensures
        a.len() == b.len(),
        forall|i: int| k <= i < a.len() ==> #[trigger] a[i] == b[i],
        x == y,
    decreases a, (a.len() - k) as nat,
{
    rest_of_items_opens(a, k, x);
    rest_of_items_opens(b, k, y);
    if k < a.len() {
        let rest_a = rest_of_items(a, k + 1, x);
        let rest_b = rest_of_items(b, k + 1, y);
        rest_of_items_opens(a, k + 1, x);
        rest_of_items_opens(b, k + 1, y);
        same_rest(
            json::comma((k + 1) as nat),
            json::rendered(a[k]) + rest_a,
            json::rendered(b[k]) + rest_b,
        );
        assert(decreases_to!(a => a[k]));
        same_document(a[k], b[k], rest_a, rest_b);
        same_items(a, b, k + 1, x, y);
    } else {
        same_rest("]"@, x, y);
    }
}

/// What is left of an object, from member `k` on and with what follows the object.
spec fn rest_of_members(a: Seq<(Seq<char>, Tree)>, k: int, x: Seq<char>) -> Seq<char> {
    members_from(a, k) + "}"@ + x
}

/// What is left after the name of member `k`.
spec fn rest_of_member(a: Seq<(Seq<char>, Tree)>, k: int, x: Seq<char>) -> Seq<char> {
    ":"@ + (json::rendered(a[k].1) + rest_of_members(a, k + 1, x))
}

proof fn rest_of_members_opens(a: Seq<(Seq<char>, Tree)>, k: int, x: Seq<char>)
    requires
        0 <= k <= a.len(),
    ensures
        rest_of_members(a, k, x).len() > 0,
        k < a.len() ==> rest_of_members(a, k, x)[0] != '}',
        k < a.len() ==> rest_of_members(a, k, x) == json::comma((k + 1) as nat) + (json::quoted(
            a[k].0,
        ) + rest_of_member(a, k, x)),
        k == a.len() ==> rest_of_members(a, k, x) == "}"@ + x,
        k == a.len() ==> rest_of_members(a, k, x)[0] == '}',
        k > 0 ==> stops(rest_of_members(a, k, x)),
{
    reveal_strlit("}");
    reveal_strlit(",");
    reveal_strlit("");
    reveal_strlit(":");
    let comma = json::comma((k + 1) as nat);
    if k < a.len() {
        let whole = comma + (json::quoted(a[k].0) + rest_of_member(a, k, x));
        assert(rest_of_members(a, k, x) =~= whole);
        assert(json::quoted(a[k].0)[0] == '"');
        assert(whole[0] == if k > 0 {
            ','
        } else {
            '"'
        });
    } else {
        assert(rest_of_members(a, k, x) =~= "}"@ + x);
    }
}

proof fn same_members(
    a: Seq<(Seq<char>, Tree)>,
    b: Seq<(Seq<char>, Tree)>,
    k: int,
    x: Seq<char>,
    y: Seq<char>,
)
    requires
        0 <= k <= a.len(),
        k <= b.len(),
        forall|i: int| 0 <= i < a.len() ==> well_written((#[trigger] a[i]).1),
        forall|i: int| 0 <= i < b.len() ==> well_written((#[trigger] b[i]).1),
        rest_of_members(a, k, x) == rest_of_members(b, k, y),
    ensures
        a.len() == b.len(),
        forall|i: int| k <= i < a.len() ==> #[trigger] a[i] == b[i],
        x == y,
    decreases a, (a.len() - k) as nat,
{
    rest_of_members_opens(a, k, x);
    rest_of_members_opens(b, k, y);
    if k < a.len() {
        let rest_a = rest_of_members(a, k + 1, x);
        let rest_b = rest_of_members(b, k + 1, y);
        rest_of_members_opens(a, k + 1, x);
        rest_of_members_opens(b, k + 1, y);
        same_rest(
            json::comma((k + 1) as nat),
            json::quoted(a[k].0) + rest_of_member(a, k, x),
            json::quoted(b[k].0) + rest_of_member(b, k, y),
        );
        same_text(a[k].0, b[k].0, rest_of_member(a, k, x), rest_of_member(b, k, y));
        same_rest(":"@, json::rendered(a[k].1) + rest_a, json::rendered(b[k].1) + rest_b);
        assert(decreases_to!(a => a[k]));
        assert(decreases_to!(a[k] => a[k].1));
        same_document(a[k].1, b[k].1, rest_a, rest_b);
        same_members(a, b, k + 1, x, y);
    } else {
        same_rest("}"@, x, y);
    }
}

// ---------------------------------------------------------------------------------------------
// Laws
// ---------------------------------------------------------------------------------------------
/// No two documents have one text.
pub proof fn a_text_says_one_document(t: Tree, u: Tree)
    requires
        well_written(t),
        well_written(u),
        json::rendered(t) == json::rendered(u),
    ensures
        t == u,
{
    let nothing = Seq::<char>::empty();
    assert(json::rendered(t) + nothing =~= json::rendered(t));
    assert(json::rendered(u) + nothing =~= json::rendered(u));
    same_document(t, u, nothing, nothing);
}

/// A number is well written, and no two are written alike.
pub proof fn a_number_is_well_written(a: u64, b: u64)
    ensures
        well_written(<u64 as Writable>::tree(a)),
        <u64 as Writable>::tree(a) == <u64 as Writable>::tree(b) ==> a == b,
{
    text::a_written_number_reads_back(a as nat);
    text::a_written_number_reads_back(b as nat);
    let s = text::decimal(a as nat);
    assert forall|i: int| 0 <= i < s.len() implies is_number_char(#[trigger] s[i]) by {}
}

/// An object is well written where each member is.
pub proof fn members_are_well_written(members: Seq<(Seq<char>, Tree)>)
    requires
        forall|i: int|
            0 <= i < members.len() ==> (#[trigger] members[i]).1 is Text || well_written(
                members[i].1,
            ),
    ensures
        well_written(Tree::Object(members)),
{
    assert forall|i: int| 0 <= i < members.len() implies well_written((#[trigger] members[i]).1) by {
        if let Tree::Text(s) = members[i].1 {
            assert(well_written(Tree::Text(s)));
        }
    }
}

} // verus!
