//! Maps from text to text, in key order.
use vstd::prelude::*;

use crate::json;
use crate::json::{member, object, Json, Readable, Tree, Writable};
use crate::text;
use crate::text::{before, same};

verus! {

/// A key and its value.
pub type Pair = (Seq<char>, Seq<char>);

/// The keys come strictly in order, so that none occurs twice.
pub open spec fn ascending(s: Seq<Pair>) -> bool {
    forall|i: int, j: int|
        0 <= i < j < s.len() ==> text::text_before((#[trigger] s[i]).0, (#[trigger] s[j]).0)
}

/// The value under `key`.
pub open spec fn found(s: Seq<Pair>, key: Seq<char>) -> Option<Seq<char>>
    decreases s.len(),
{
    if s.len() == 0 {
        None
    } else if s[0].0 == key {
        Some(s[0].1)
    } else {
        found(s.drop_first(), key)
    }
}

/// `s` with `value` under `key`, in its place.
pub open spec fn inserted(s: Seq<Pair>, key: Seq<char>, value: Seq<char>) -> Seq<Pair>
    decreases s.len(),
{
    if s.len() == 0 {
        seq![(key, value)]
    } else if s[0].0 == key {
        s.update(0, (key, value))
    } else if text::text_before(key, s[0].0) {
        seq![(key, value)] + s
    } else {
        seq![s[0]] + inserted(s.drop_first(), key, value)
    }
}

/// A map from text to text. Its entries are held in key order.
#[derive(Debug, PartialEq, Eq)]
pub struct TextMap {
    entries: Vec<(String, String)>,
}

impl DeepView for TextMap {
    type V = Seq<Pair>;

    closed spec fn deep_view(&self) -> Seq<Pair> {
        self.entries.deep_view()
    }
}

impl Clone for TextMap {
    fn clone(&self) -> (r: TextMap)
        ensures
            r.deep_view() == self.deep_view(),
    {
        proof {
            use_type_invariant(self);
        }
        let mut entries: Vec<(String, String)> = Vec::new();
        let mut i: usize = 0;
        while i < self.entries.len()
            invariant
                i <= self.entries.len(),
                entries@.len() == i,
                forall|k: int| 0 <= k < i ==> entries@[k] == self.entries@[k],
            decreases self.entries.len() - i,
        {
            entries.push((self.entries[i].0.clone(), self.entries[i].1.clone()));
            i += 1;
        }
        assert(entries@ =~= self.entries@);
        TextMap { entries }
    }
}

impl TextMap {
    #[verifier::type_invariant]
    spec fn in_order(self) -> bool {
        ascending(self.entries.deep_view())
    }

    pub fn new() -> (r: TextMap)
        ensures
            r.deep_view() == Seq::<Pair>::empty(),
    {
        let entries: Vec<(String, String)> = Vec::new();
        assert(entries.deep_view() =~= Seq::<Pair>::empty());
        TextMap { entries }
    }

    /// How many entries there are.
    pub fn len(&self) -> (r: usize)
        ensures
            r == self.deep_view().len(),
            ascending(self.deep_view()),
    {
        proof {
            use_type_invariant(self);
        }
        self.entries.len()
    }

    /// The entry at a position.
    pub fn entry(&self, i: usize) -> (r: (&String, &String))
        requires
            i < self.deep_view().len(),
        ensures
            (r.0@, r.1@) == self.deep_view()[i as int],
    {
        (&self.entries[i].0, &self.entries[i].1)
    }

    /// The value under a key.
    pub fn get(&self, key: &str) -> (r: Option<&String>)
        ensures
            r.deep_view() == found(self.deep_view(), key@),
    {
        let ghost all = self.entries.deep_view();
        let mut i: usize = 0;
        assert(all.subrange(0, all.len() as int) =~= all);
        while i < self.entries.len()
            invariant
                i <= self.entries.len(),
                all == self.entries.deep_view(),
                found(all, key@) == found(all.subrange(i as int, all.len() as int), key@),
            decreases self.entries.len() - i,
        {
            let ghost rest = all.subrange(i as int, all.len() as int);
            assert(rest[0] == (self.entries@[i as int].0@, self.entries@[i as int].1@));
            if same(self.entries[i].0.as_str(), key) {
                return Some(&self.entries[i].1);
            }
            assert(rest.drop_first() =~= all.subrange(i + 1, all.len() as int));
            i += 1;
        }
        None
    }

    /// This map with one more entry; an entry under the same key gives way.
    pub fn with(self, key: &str, value: &str) -> (r: TextMap)
        ensures
            r.deep_view() == inserted(self.deep_view(), key@, value@),
    {
        proof {
            use_type_invariant(&self);
        }
        let ghost all = self.entries.deep_view();
        let mut entries = self.entries;
        let n: usize = entries.len();
        let mut i: usize = 0;
        assert(all.subrange(0, all.len() as int) =~= all);
        assert(all.subrange(0, 0) =~= Seq::<Pair>::empty());
        assert(inserted(all, key@, value@) =~= Seq::<Pair>::empty() + inserted(all, key@, value@));
        while i < n && before(entries[i].0.as_str(), key)
            invariant
                i <= n,
                n == entries@.len(),
                all == entries.deep_view(),
                inserted(all, key@, value@) == all.subrange(0, i as int) + inserted(
                    all.subrange(i as int, n as int),
                    key@,
                    value@,
                ),
            decreases n - i,
        {
            let ghost rest = all.subrange(i as int, n as int);
            assert(rest[0] == (entries@[i as int].0@, entries@[i as int].1@));
            assert(rest.drop_first() =~= all.subrange(i + 1, n as int));
            proof {
                text::order_is_strict(rest[0].0, key@);
            }
            assert(all.subrange(0, i as int) + inserted(rest, key@, value@) =~= all.subrange(0, i + 1)
                + inserted(all.subrange(i + 1, n as int), key@, value@));
            i += 1;
        }
        let ghost rest = all.subrange(i as int, n as int);
        let ghost target = inserted(all, key@, value@);
        if i < n {
            assert(rest[0] == (entries@[i as int].0@, entries@[i as int].1@));
        }
        if i < n && same(entries[i].0.as_str(), key) {
            entries.set(i, (text::owned(key), text::owned(value)));
            assert(entries.deep_view() =~= all.subrange(0, i as int) + rest.update(
                0,
                (key@, value@),
            ));
        } else {
            if i < n {
                proof {
                    text::order_is_total(rest[0].0, key@);
                }
            } else {
                assert(rest =~= Seq::<Pair>::empty());
            }
            entries.insert(i, (text::owned(key), text::owned(value)));
            assert(entries.deep_view() =~= all.subrange(0, i as int) + (seq![(key@, value@)] + rest));
            assert(inserted(rest, key@, value@) =~= seq![(key@, value@)] + rest);
        }
        assert(entries.deep_view() == target);
        proof {
            inserting_keeps_order(all, key@, value@);
        }
        TextMap { entries }
    }
}

/// The map that the first members of an object say; a later member under the same key prevails.
pub open spec fn members_map(members: Seq<(Seq<char>, Tree)>, n: nat) -> Seq<Pair>
    decreases n,
{
    if n == 0 || n > members.len() {
        Seq::empty()
    } else {
        inserted(
            members_map(members, (n - 1) as nat),
            members[n - 1].0,
            String::value(members[n - 1].1),
        )
    }
}

/// The complaint about the first of the first `n` members whose value is no text.
pub open spec fn members_fault(members: Seq<(Seq<char>, Tree)>, n: nat) -> Option<Seq<char>>
    decreases n,
{
    if n == 0 || n > members.len() {
        None
    } else {
        json::first_fault(
            members_fault(members, (n - 1) as nat),
            String::fault(members[n - 1].1),
        )
    }
}

proof fn members_fault_stays(members: Seq<(Seq<char>, Tree)>, i: nat, n: nat)
    requires
        i <= n <= members.len(),
        members_fault(members, i) is Some,
    ensures
        members_fault(members, n) == members_fault(members, i),
    decreases n - i,
{
    if i < n {
        members_fault_stays(members, i + 1, n);
    }
}

impl Readable for TextMap {
    open spec fn fault(t: Tree) -> Option<Seq<char>> {
        match t {
            Tree::Object(members) => members_fault(members, members.len()),
            _ => Some(t.mismatch("a map"@)),
        }
    }

    open spec fn value(t: Tree) -> Seq<Pair> {
        match t {
            Tree::Object(members) => members_map(members, members.len()),
            _ => Seq::empty(),
        }
    }

    open spec fn nothing() -> Seq<Pair> {
        Seq::empty()
    }

    fn read(j: &Json) -> (r: Result<Self, String>) {
        match j {
            Json::Object(members) => {
                proof {
                    json::object_view(*j);
                }
                let ghost all = j@->Object_0;
                let mut out = TextMap::new();
                let mut i: usize = 0;
                while i < members.len()
                    invariant
                        i <= members.len(),
                        j@ == Tree::Object(all),
                        all == Seq::new(members@.len(), |k: int| (members@[k].0@, members@[k].1@)),
                        members_fault(all, i as nat) is None,
                        out.deep_view() == members_map(all, i as nat),
                    decreases members.len() - i,
                {
                    match String::read(&members[i].1) {
                        Ok(v) => {
                            out = out.with(members[i].0.as_str(), v.as_str());
                        },
                        Err(e) => {
                            proof {
                                members_fault_stays(all, (i + 1) as nat, all.len());
                            }
                            return Err(e);
                        },
                    }
                    i += 1;
                }
                Ok(out)
            },
            _ => Err(j.mismatch("a map")),
        }
    }

    fn absent() -> (r: Self) {
        TextMap::new()
    }
}

impl Writable for TextMap {
    open spec fn tree(v: Seq<Pair>) -> Tree {
        Tree::Object(Seq::new(v.len(), |i: int| (v[i].0, Tree::Text(v[i].1))))
    }

    fn to_json(&self) -> (r: Json) {
        let mut m: Vec<(String, Json)> = Vec::new();
        let mut i: usize = 0;
        while i < self.entries.len()
            invariant
                i <= self.entries.len(),
                m@.len() == i,
                forall|k: int|
                    0 <= k < i ==> (#[trigger] m@[k]).0@ == self.entries@[k].0@ && m@[k].1@
                        == Tree::Text(self.entries@[k].1@),
            decreases self.entries.len() - i,
        {
            m.push(member(self.entries[i].0.as_str(), self.entries[i].1.to_json()));
            i += 1;
        }
        let j = object(m);
        assert(j@->Object_0 =~= Self::tree(self.deep_view())->Object_0);
        j
    }
}

pub proof fn inserting_keeps_order(s: Seq<Pair>, key: Seq<char>, value: Seq<char>)
    requires
        ascending(s),
    ensures
        ascending(inserted(s, key, value)),
        inserted(s, key, value).len() > 0,
        forall|k: Seq<char>|
            s.len() > 0 && #[trigger] text::text_before(k, s[0].0) && text::text_before(k, key)
                ==> text::text_before(k, inserted(s, key, value)[0].0),
    decreases s.len(),
{
    let r = inserted(s, key, value);
    if s.len() == 0 {
    } else if s[0].0 == key {
    } else if text::text_before(key, s[0].0) {
        assert forall|i: int, j: int| 0 <= i < j < r.len() implies text::text_before(
            (#[trigger] r[i]).0,
            (#[trigger] r[j]).0,
        ) by {
            if i == 0 {
                assert(r[j] == s[j - 1]);
                if j > 1 {
                    text::order_is_transitive(key, s[0].0, s[j - 1].0);
                }
            } else {
                assert(r[i] == s[i - 1] && r[j] == s[j - 1]);
            }
        }
    } else {
        let rest = s.drop_first();
        assert(ascending(rest)) by {
            assert forall|i: int, j: int| 0 <= i < j < rest.len() implies text::text_before(
                (#[trigger] rest[i]).0,
                (#[trigger] rest[j]).0,
            ) by {
                assert(rest[i] == s[i + 1] && rest[j] == s[j + 1]);
            }
        }
        inserting_keeps_order(rest, key, value);
        let tail = inserted(rest, key, value);
        text::order_is_total(s[0].0, key);
        assert(text::text_before(s[0].0, tail[0].0)) by {
            if rest.len() > 0 {
                assert(rest[0] == s[1]);
                assert(text::text_before(s[0].0, s[1].0));
                if rest[0].0 == key {
                } else if text::text_before(key, rest[0].0) {
                    assert(tail[0] == (key, value));
                } else {
                    assert(tail[0] == rest[0]);
                }
            }
        }
        assert forall|i: int, j: int| 0 <= i < j < r.len() implies text::text_before(
            (#[trigger] r[i]).0,
            (#[trigger] r[j]).0,
        ) by {
            if i == 0 {
                assert(r[j] == tail[j - 1]);
                if j > 1 {
                    text::order_is_transitive(s[0].0, tail[0].0, tail[j - 1].0);
                }
            } else {
                assert(r[i] == tail[i - 1] && r[j] == tail[j - 1]);
            }
        }
    }
}

/// An entry whose key comes last is appended.
proof fn appended_at_the_end(s: Seq<Pair>, key: Seq<char>, value: Seq<char>)
    requires
        forall|i: int| 0 <= i < s.len() ==> text::text_before((#[trigger] s[i]).0, key),
    ensures
        inserted(s, key, value) == s.push((key, value)),
    decreases s.len(),
{
    if s.len() > 0 {
        let rest = s.drop_first();
        text::order_is_strict(s[0].0, key);
        assert forall|i: int| 0 <= i < rest.len() implies text::text_before(
            (#[trigger] rest[i]).0,
            key,
        ) by {
            assert(rest[i] == s[i + 1]);
        }
        appended_at_the_end(rest, key, value);
        assert(seq![s[0]] + rest.push((key, value)) =~= s.push((key, value)));
    } else {
        assert(seq![(key, value)] =~= s.push((key, value)));
    }
}

proof fn first_entries_read_back(v: Seq<Pair>, n: nat)
    requires
        ascending(v),
        n <= v.len(),
    ensures
        members_fault(TextMap::tree(v)->Object_0, n) is None,
        members_map(TextMap::tree(v)->Object_0, n) == v.subrange(0, n as int),
    decreases n,
{
    let members = TextMap::tree(v)->Object_0;
    if n > 0 {
        let most = v.subrange(0, n - 1);
        first_entries_read_back(v, (n - 1) as nat);
        assert(members[n - 1] == (v[n - 1].0, Tree::Text(v[n - 1].1)));
        assert forall|i: int| 0 <= i < most.len() implies text::text_before(
            (#[trigger] most[i]).0,
            v[n - 1].0,
        ) by {
            assert(most[i] == v[i]);
        }
        appended_at_the_end(most, v[n - 1].0, v[n - 1].1);
        assert(most.push(v[n - 1]) =~= v.subrange(0, n as int));
    } else {
        assert(v.subrange(0, 0) =~= Seq::<Pair>::empty());
    }
}

/// A map that is written reads back as it was.
pub proof fn a_written_map_reads_back(v: Seq<Pair>)
    requires
        ascending(v),
    ensures
        TextMap::fault(TextMap::tree(v)) is None,
        TextMap::value(TextMap::tree(v)) == v,
{
    first_entries_read_back(v, v.len());
    assert(v.subrange(0, v.len() as int) =~= v);
}

/// What is under `key` after an insertion: the new value under its own key, and what was there
/// under every other.
pub proof fn an_insertion_is_found(s: Seq<Pair>, key: Seq<char>, value: Seq<char>, other: Seq<char>)
    requires
        ascending(s),
    ensures
        found(inserted(s, key, value), key) == Some(value),
        other != key ==> found(inserted(s, key, value), other) == found(s, other),
    decreases s.len(),
{
    let r = inserted(s, key, value);
    if s.len() == 0 {
        assert(r.drop_first() =~= s);
        assert(found(r.drop_first(), other) == found(s, other));
    } else if s[0].0 == key {
        assert(r.drop_first() =~= s.drop_first());
    } else if text::text_before(key, s[0].0) {
        assert(r.drop_first() =~= s);
    } else {
        let rest = s.drop_first();
        assert(ascending(rest)) by {
            assert forall|i: int, j: int| 0 <= i < j < rest.len() implies text::text_before(
                (#[trigger] rest[i]).0,
                (#[trigger] rest[j]).0,
            ) by {
                assert(rest[i] == s[i + 1] && rest[j] == s[j + 1]);
            }
        }
        an_insertion_is_found(rest, key, value, other);
        assert(r.drop_first() =~= inserted(rest, key, value));
    }
}

} // verus!
