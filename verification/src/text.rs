//! Text as sequences of characters: the few string operations the wall needs, each with a
//! contract that says what it computes on the characters.
use vstd::prelude::*;

verus! {

/// `String::push` appends one character.
pub assume_specification[ String::push ](s: &mut String, c: char)
    ensures
        final(s)@ == old(s)@.push(c),
;

// ---------------------------------------------------------------------------------------------
// What the operations mean
// ---------------------------------------------------------------------------------------------
/// Unicode's `White_Space` property.
pub open spec fn is_space(c: char) -> bool {
    let n = c as u32;
    ||| 0x9 <= n <= 0xd
    ||| n == 0x20
    ||| n == 0x85
    ||| n == 0xa0
    ||| n == 0x1680
    ||| 0x2000 <= n <= 0x200a
    ||| n == 0x2028
    ||| n == 0x2029
    ||| n == 0x202f
    ||| n == 0x205f
    ||| n == 0x3000
}

/// `s` without its leading white space.
pub open spec fn trim_start(s: Seq<char>) -> Seq<char>
    decreases s.len(),
{
    if s.len() > 0 && is_space(s[0]) {
        trim_start(s.drop_first())
    } else {
        s
    }
}

/// `s` without its trailing white space.
pub open spec fn trim_end(s: Seq<char>) -> Seq<char>
    decreases s.len(),
{
    if s.len() > 0 && is_space(s.last()) {
        trim_end(s.drop_last())
    } else {
        s
    }
}

/// `s` without the white space at either end.
pub open spec fn trimmed(s: Seq<char>) -> Seq<char> {
    trim_end(trim_start(s))
}

/// The ASCII upper-case form of one character; every other character is itself.
pub open spec fn upper(c: char) -> char {
    if 'a' <= c <= 'z' {
        (c as u32 - 32) as char
    } else {
        c
    }
}

/// `s` with its ASCII letters in upper case.
pub open spec fn ascii_upper(s: Seq<char>) -> Seq<char> {
    Seq::new(s.len(), |i: int| upper(s[i]))
}

/// `s` begins with `p`.
pub open spec fn starts_with(s: Seq<char>, p: Seq<char>) -> bool {
    p.len() <= s.len() && s.subrange(0, p.len() as int) == p
}

/// `s` ends with `p`.
pub open spec fn ends_with(s: Seq<char>, p: Seq<char>) -> bool {
    p.len() <= s.len() && s.subrange(s.len() - p.len(), s.len() as int) == p
}

/// `s` without the prefix `p`, where it has it.
pub open spec fn without_prefix(s: Seq<char>, p: Seq<char>) -> Seq<char> {
    if starts_with(s, p) {
        s.subrange(p.len() as int, s.len() as int)
    } else {
        s
    }
}

/// `s` without the prefix `p`, as often as it has it.
pub open spec fn without_all(s: Seq<char>, p: Seq<char>) -> Seq<char>
    decreases s.len(),
{
    if p.len() > 0 && starts_with(s, p) {
        without_all(s.subrange(p.len() as int, s.len() as int), p)
    } else {
        s
    }
}

/// `s` up to the suffix `p`, which it must end in.
pub open spec fn before_suffix(s: Seq<char>, p: Seq<char>) -> Seq<char> {
    s.subrange(0, s.len() - p.len())
}

/// Some stretch of `s` is `p`.
pub open spec fn holds_text(s: Seq<char>, p: Seq<char>) -> bool {
    exists|i: int| 0 <= i <= s.len() - p.len() && #[trigger] s.subrange(i, i + p.len()) == p
}

/// The position of the first `c` in `s`, or the length of `s` where there is none.
pub open spec fn first_at(s: Seq<char>, c: char) -> int
    decreases s.len(),
{
    if s.len() == 0 || s[0] == c {
        0
    } else {
        1 + first_at(s.drop_first(), c)
    }
}

/// What follows the last `c` in `s`; all of `s` where there is none.
pub open spec fn after_last(s: Seq<char>, c: char) -> Seq<char>
    decreases s.len(),
{
    if s.len() == 0 || s.last() == c {
        Seq::empty()
    } else {
        after_last(s.drop_last(), c).push(s.last())
    }
}

/// The parts, with `sep` between each two.
pub open spec fn joined(parts: Seq<Seq<char>>, sep: Seq<char>) -> Seq<char>
    decreases parts.len(),
{
    if parts.len() == 0 {
        Seq::empty()
    } else if parts.len() == 1 {
        parts[0]
    } else {
        joined(parts.drop_last(), sep) + sep + parts.last()
    }
}

/// The decimal digit for `d`.
pub open spec fn digit_char(d: nat) -> char {
    (48 + d) as char
}

/// The decimal text of `n`.
pub open spec fn decimal(n: nat) -> Seq<char>
    decreases n,
{
    if n < 10 {
        seq![digit_char(n)]
    } else {
        decimal(n / 10).push(digit_char(n % 10))
    }
}

/// An ASCII decimal digit.
pub open spec fn is_digit(c: char) -> bool {
    '0' <= c <= '9'
}

/// Every character is an ASCII decimal digit.
pub open spec fn all_digits(s: Seq<char>) -> bool {
    forall|i: int| 0 <= i < s.len() ==> is_digit(#[trigger] s[i])
}

/// The number that a sequence of decimal digits writes.
pub open spec fn digits_value(s: Seq<char>) -> nat
    decreases s.len(),
{
    if s.len() == 0 {
        0
    } else {
        digits_value(s.drop_last()) * 10 + (s.last() as u32 - 48) as nat
    }
}

/// A number that is written reads back as it was.
pub proof fn a_written_number_reads_back(n: nat)
    ensures
        decimal(n).len() > 0,
        all_digits(decimal(n)),
        digits_value(decimal(n)) == n,
        number(decimal(n)) == Some(n),
    decreases n,
{
    let s = decimal(n);
    if n < 10 {
        assert(s.drop_last() =~= Seq::<char>::empty());
        assert(digits_value(s.drop_last()) == 0);
    } else {
        a_written_number_reads_back(n / 10);
        assert(s.drop_last() =~= decimal(n / 10));
    }
    assert(is_digit(s[0]));
}

/// The number that `s` writes, where it writes one: decimal digits, at least one of them,
/// after an optional `+`.
pub open spec fn number(s: Seq<char>) -> Option<nat> {
    let digits = if s.len() > 0 && s[0] == '+' {
        s.drop_first()
    } else {
        s
    };
    if digits.len() > 0 && all_digits(digits) {
        Some(digits_value(digits))
    } else {
        None
    }
}

/// [`number`], where it fits in 64 bits.
pub open spec fn number_u64(s: Seq<char>) -> Option<u64> {
    match number(s) {
        Some(n) => if n <= u64::MAX {
            Some(n as u64)
        } else {
            None
        },
        None => None,
    }
}

/// The signed number that `s` writes, where it writes one that fits in 64 bits: a number, or `-`
/// before decimal digits.
pub open spec fn number_i64(s: Seq<char>) -> Option<i64> {
    if s.len() > 0 && s[0] == '-' {
        let digits = s.drop_first();
        if digits.len() > 0 && all_digits(digits) && digits_value(digits) <= 0x8000_0000_0000_0000 {
            Some((-digits_value(digits)) as i64)
        } else {
            None
        }
    } else {
        match number(s) {
            Some(n) => if n <= i64::MAX {
                Some(n as i64)
            } else {
                None
            },
            None => None,
        }
    }
}

/// `a` comes strictly before `b`, character by character and then by length.
pub open spec fn text_before(a: Seq<char>, b: Seq<char>) -> bool
    decreases a.len(),
{
    if b.len() == 0 {
        false
    } else if a.len() == 0 {
        true
    } else if a[0] == b[0] {
        text_before(a.drop_first(), b.drop_first())
    } else {
        a[0] < b[0]
    }
}

/// No text comes before itself, nor do two come each before the other.
pub proof fn order_is_strict(a: Seq<char>, b: Seq<char>)
    ensures
        text_before(a, b) ==> a != b && !text_before(b, a),
    decreases a.len(),
{
    if a.len() > 0 && b.len() > 0 && a[0] == b[0] {
        order_is_strict(a.drop_first(), b.drop_first());
    }
}

/// Of two different texts, one comes before the other.
pub proof fn order_is_total(a: Seq<char>, b: Seq<char>)
    ensures
        a == b || text_before(a, b) || text_before(b, a),
    decreases a.len(),
{
    if a.len() == 0 && b.len() == 0 {
        assert(a =~= b);
    } else if a.len() > 0 && b.len() > 0 && a[0] == b[0] {
        order_is_total(a.drop_first(), b.drop_first());
        if a.drop_first() == b.drop_first() {
            assert(a =~= seq![a[0]] + a.drop_first());
            assert(b =~= seq![b[0]] + b.drop_first());
        }
    }
}

/// What comes before a text comes before all that follow it.
pub proof fn order_is_transitive(a: Seq<char>, b: Seq<char>, c: Seq<char>)
    requires
        text_before(a, b),
        text_before(b, c),
    ensures
        text_before(a, c),
    decreases a.len(),
{
    if a.len() > 0 && b.len() > 0 && c.len() > 0 && a[0] == b[0] && b[0] == c[0] {
        order_is_transitive(a.drop_first(), b.drop_first(), c.drop_first());
    }
}

// ---------------------------------------------------------------------------------------------
// Doing it
// ---------------------------------------------------------------------------------------------
/// An owned copy of `s`.
pub fn owned(s: &str) -> (r: String)
    ensures
        r@ == s@,
{
    String::from_str(s)
}

/// The characters of `s`.
pub fn chars(s: &str) -> (v: Vec<char>)
    ensures
        v@ == s@,
{
    let mut v: Vec<char> = Vec::new();
    for c in it: s.chars()
        invariant
            v@.len() == it.index(),
            it.seq() == s@,
            forall|i: int| 0 <= i < v@.len() ==> v@[i] == s@[i],
    {
        v.push(c);
    }
    v
}

/// The two texts are the same.
pub fn same(a: &str, b: &str) -> (r: bool)
    ensures
        r == (a@ == b@),
{
    let x = chars(a);
    let y = chars(b);
    if x.len() != y.len() {
        return false;
    }
    let mut i: usize = 0;
    while i < x.len()
        invariant
            i <= x.len(),
            x.len() == y.len(),
            x@ == a@,
            y@ == b@,
            forall|k: int| 0 <= k < i ==> x@[k] == y@[k],
        decreases x.len() - i,
    {
        if x[i] != y[i] {
            return false;
        }
        i += 1;
    }
    assert(a@ =~= b@);
    true
}

/// `s` without its leading white space.
fn trim_left(s: &str) -> (r: &str)
    ensures
        r@ == trim_start(s@),
        r@.len() <= s@.len(),
{
    let v = chars(s);
    let n: usize = v.len();
    let mut i: usize = 0;
    assert(s@.subrange(0, n as int) =~= s@);
    while i < n && space(v[i])
        invariant
            i <= n,
            n == v.len(),
            v@ == s@,
            trim_start(s@) == trim_start(s@.subrange(i as int, n as int)),
        decreases n - i,
    {
        assert(s@.subrange(i as int, n as int).drop_first() =~= s@.subrange(i + 1, n as int));
        i += 1;
    }
    s.substring_char(i, n)
}

/// `s` without the white space at either end.
pub fn trim(s: &str) -> (r: &str)
    ensures
        r@ == trimmed(s@),
{
    let t = trim_left(s);
    let v = chars(t);
    let mut j: usize = v.len();
    assert(t@.subrange(0, j as int) =~= t@);
    while 0 < j && space(v[j - 1])
        invariant
            j <= v.len(),
            v@ == t@,
            trim_end(t@) == trim_end(t@.subrange(0, j as int)),
        decreases j,
    {
        assert(t@.subrange(0, j as int).drop_last() =~= t@.subrange(0, j - 1));
        j -= 1;
    }
    t.substring_char(0, j)
}

/// [`is_space`], computed.
fn space(c: char) -> (r: bool)
    ensures
        r == is_space(c),
{
    let n: u32 = c as u32;
    (0x9 <= n && n <= 0xd) || n == 0x20 || n == 0x85 || n == 0xa0 || n == 0x1680 || (0x2000 <= n
        && n <= 0x200a) || n == 0x2028 || n == 0x2029 || n == 0x202f || n == 0x205f || n == 0x3000
}

/// `s` with its ASCII letters in upper case.
pub fn to_upper(s: &str) -> (r: String)
    ensures
        r@ == ascii_upper(s@),
{
    let v = chars(s);
    let mut r = String::new();
    let mut i: usize = 0;
    while i < v.len()
        invariant
            i <= v.len(),
            v@ == s@,
            r@.len() == i,
            forall|k: int| 0 <= k < i ==> r@[k] == upper(s@[k]),
        decreases v.len() - i,
    {
        r.push(char_upper(v[i]));
        i += 1;
    }
    assert(r@ =~= ascii_upper(s@));
    r
}

/// [`upper`], computed.
fn char_upper(c: char) -> (r: char)
    ensures
        r == upper(c),
{
    if 'a' <= c && c <= 'z' {
        ((c as u8) - 32) as char
    } else {
        c
    }
}

/// `s` begins with `p`.
pub fn has_prefix(s: &str, p: &str) -> (r: bool)
    ensures
        r == starts_with(s@, p@),
{
    let n: usize = s.unicode_len();
    let m: usize = p.unicode_len();
    m <= n && same(s.substring_char(0, m), p)
}

/// `s` ends with `p`.
pub fn has_suffix(s: &str, p: &str) -> (r: bool)
    ensures
        r == ends_with(s@, p@),
{
    let n: usize = s.unicode_len();
    let m: usize = p.unicode_len();
    m <= n && same(s.substring_char(n - m, n), p)
}

/// What follows the prefix `p` of `s`.
pub fn strip_prefix<'a>(s: &'a str, p: &str) -> (r: Option<&'a str>)
    ensures
        match r {
            Some(rest) => starts_with(s@, p@) && rest@ == s@.subrange(p@.len() as int, s@.len() as int),
            None => !starts_with(s@, p@),
        },
{
    if has_prefix(s, p) {
        Some(s.substring_char(p.unicode_len(), s.unicode_len()))
    } else {
        None
    }
}

/// `s` without the prefix `p`, as often as it has it.
pub fn strip_all<'a>(s: &'a str, p: &str) -> (r: &'a str)
    requires
        p@.len() > 0,
    ensures
        r@ == without_all(s@, p@),
    decreases s@.len(),
{
    match strip_prefix(s, p) {
        Some(rest) => strip_all(rest, p),
        None => s,
    }
}

/// What precedes the suffix `p` of `s`.
pub fn strip_suffix<'a>(s: &'a str, p: &str) -> (r: Option<&'a str>)
    ensures
        match r {
            Some(rest) => ends_with(s@, p@) && rest@ == before_suffix(s@, p@),
            None => !ends_with(s@, p@),
        },
{
    if has_suffix(s, p) {
        Some(s.substring_char(0, s.unicode_len() - p.unicode_len()))
    } else {
        None
    }
}

/// Some stretch of `s` is `p`.
pub fn contains(s: &str, p: &str) -> (r: bool)
    ensures
        r == holds_text(s@, p@),
{
    let n: usize = s.unicode_len();
    let m: usize = p.unicode_len();
    if m > n {
        return false;
    }
    let mut i: usize = 0;
    while i <= n - m
        invariant
            m <= n,
            n == s@.len(),
            m == p@.len(),
            i <= n - m + 1,
            forall|k: int| 0 <= k < i ==> #[trigger] s@.subrange(k, k + m) != p@,
        decreases n - m + 1 - i,
    {
        if same(s.substring_char(i, i + m), p) {
            assert(s@.subrange(i as int, i + p@.len()) == p@);
            return true;
        }
        if i == n - m {
            return false;
        }
        i += 1;
    }
    false
}

/// `s` before and after its first `c`.
pub fn split_once<'a>(s: &'a str, c: char) -> (r: Option<(&'a str, &'a str)>)
    ensures
        match r {
            Some((head, tail)) => {
                let at = first_at(s@, c);
                &&& 0 <= at < s@.len()
                &&& s@[at] == c
                &&& head@ == s@.subrange(0, at)
                &&& tail@ == s@.subrange(at + 1, s@.len() as int)
            },
            None => first_at(s@, c) == s@.len() && !s@.contains(c),
        },
{
    let v = chars(s);
    let n: usize = v.len();
    let mut i: usize = 0;
    assert(s@.subrange(0, n as int) =~= s@);
    while i < n && v[i] != c
        invariant
            i <= n,
            n == v.len(),
            v@ == s@,
            first_at(s@, c) == i + first_at(s@.subrange(i as int, n as int), c),
            forall|k: int| 0 <= k < i ==> s@[k] != c,
        decreases n - i,
    {
        assert(s@.subrange(i as int, n as int).drop_first() =~= s@.subrange(i + 1, n as int));
        i += 1;
    }
    if i < n {
        Some((s.substring_char(0, i), s.substring_char(i + 1, n)))
    } else {
        None
    }
}

/// What follows the last `c` in `s`; all of `s` where there is none.
pub fn last_part<'a>(s: &'a str, c: char) -> (r: &'a str)
    ensures
        r@ == after_last(s@, c),
{
    let v = chars(s);
    let n: usize = v.len();
    let mut i: usize = n;
    assert(s@.subrange(0, n as int) =~= s@);
    assert(s@.subrange(n as int, n as int) =~= Seq::<char>::empty());
    assert(after_last(s@, c) =~= after_last(s@, c) + Seq::<char>::empty());
    while i > 0 && v[i - 1] != c
        invariant
            i <= n,
            n == v.len(),
            v@ == s@,
            after_last(s@, c) == after_last(s@.subrange(0, i as int), c) + s@.subrange(
                i as int,
                n as int,
            ),
        decreases i,
    {
        let ghost head = s@.subrange(0, i as int);
        assert(head.drop_last() =~= s@.subrange(0, i - 1));
        assert(after_last(head.drop_last(), c).push(head.last()) + s@.subrange(i as int, n as int)
            =~= after_last(head.drop_last(), c) + s@.subrange(i - 1, n as int));
        i -= 1;
    }
    assert(after_last(s@.subrange(0, i as int), c) =~= Seq::<char>::empty());
    assert(after_last(s@, c) =~= s@.subrange(i as int, n as int));
    s.substring_char(i, n)
}

/// The parts, with `sep` between each two.
pub fn join(parts: &Vec<String>, sep: &str) -> (r: String)
    ensures
        r@ == joined(parts.deep_view(), sep@),
{
    let mut r = String::new();
    let mut i: usize = 0;
    assert(parts.deep_view().subrange(0, 0) =~= Seq::<Seq<char>>::empty());
    while i < parts.len()
        invariant
            i <= parts.len(),
            r@ == joined(parts.deep_view().subrange(0, i as int), sep@),
        decreases parts.len() - i,
    {
        let ghost next = parts.deep_view().subrange(0, i + 1);
        assert(next.drop_last() =~= parts.deep_view().subrange(0, i as int));
        if i > 0 {
            r.append(sep);
        }
        r.append(parts[i].as_str());
        assert(i == 0 ==> r@ =~= parts@[0]@);
        i += 1;
    }
    assert(parts.deep_view().subrange(0, i as int) =~= parts.deep_view());
    r
}

/// Is `s` one of the list?
pub fn listed(list: &Vec<String>, s: &str) -> (r: bool)
    ensures
        r == list.deep_view().contains(s@),
{
    let ghost all = list.deep_view();
    let mut i: usize = 0;
    while i < list.len()
        invariant
            i <= list.len(),
            all == list.deep_view(),
            forall|k: int| 0 <= k < i ==> #[trigger] all[k] != s@,
        decreases list.len() - i,
    {
        assert(all[i as int] == list@[i as int]@);
        if same(list[i].as_str(), s) {
            return true;
        }
        i += 1;
    }
    false
}

/// A copy of a list of texts.
pub fn copied(list: &Vec<String>) -> (r: Vec<String>)
    ensures
        r.deep_view() == list.deep_view(),
{
    let r = list.clone();
    assert(r@ =~= list@);
    r
}

/// The decimal text of `n`.
pub fn show(n: u64) -> (r: String)
    ensures
        r@ == decimal(n as nat),
    decreases n,
{
    if n < 10 {
        let mut r = String::new();
        r.push(show_digit(n));
        assert(r@ =~= decimal(n as nat));
        r
    } else {
        let mut r = show(n / 10);
        r.push(show_digit(n % 10));
        r
    }
}

/// The decimal text of `n`, however large.
pub fn show_wide(n: u128) -> (r: String)
    ensures
        r@ == decimal(n as nat),
    decreases n,
{
    if n <= 0xffff_ffff_ffff_ffff {
        show(n as u64)
    } else {
        let mut r = show_wide(n / 10);
        r.push(show_digit((n % 10) as u64));
        r
    }
}

/// The decimal digit for `d`.
fn show_digit(d: u64) -> (c: char)
    requires
        d < 10,
    ensures
        c == digit_char(d as nat),
{
    (48 + d as u8) as char
}

/// Every character is an ASCII decimal digit.
pub fn digits_only(s: &str) -> (r: bool)
    ensures
        r == all_digits(s@),
{
    let v = chars(s);
    let mut i: usize = 0;
    while i < v.len()
        invariant
            i <= v.len(),
            v@ == s@,
            forall|k: int| 0 <= k < i ==> is_digit(#[trigger] s@[k]),
        decreases v.len() - i,
    {
        let c: char = v[i];
        if !('0' <= c && c <= '9') {
            assert(!is_digit(s@[i as int]));
            return false;
        }
        i += 1;
    }
    true
}

/// The number that `s` writes, where it writes one that fits.
pub fn parse(s: &str) -> (r: Option<u64>)
    ensures
        r == number_u64(s@),
{
    let v = chars(s);
    let start: usize = if v.len() > 0 && v[0] == '+' {
        1
    } else {
        0
    };
    let ghost digits = s@.subrange(start as int, s@.len() as int);
    assert(start == 1 ==> digits =~= s@.drop_first());
    assert(start == 0 ==> digits =~= s@);
    if start == v.len() {
        return None;
    }
    let mut value: u64 = 0;
    let mut fits: bool = true;
    let mut i: usize = start;
    assert(digits.subrange(0, 0) =~= Seq::<char>::empty());
    while i < v.len()
        invariant
            start <= i <= v.len(),
            v@ == s@,
            digits == s@.subrange(start as int, s@.len() as int),
            number(s@) == (if all_digits(digits) {
                Some(digits_value(digits))
            } else {
                None::<nat>
            }),
            all_digits(digits.subrange(0, i - start)),
            fits ==> value == digits_value(digits.subrange(0, i - start)),
            !fits ==> digits_value(digits.subrange(0, i - start)) > u64::MAX,
        decreases v.len() - i,
    {
        let c: char = v[i];
        assert(digits[i - start] == c);
        if !('0' <= c && c <= '9') {
            assert(!all_digits(digits));
            return None;
        }
        let ghost next = digits.subrange(0, i - start + 1);
        assert(next.drop_last() =~= digits.subrange(0, i - start));
        assert(all_digits(next)) by {
            assert forall|k: int| 0 <= k < next.len() implies is_digit(#[trigger] next[k]) by {
                if k < i - start {
                    assert(next[k] == digits.subrange(0, i - start)[k]);
                }
            }
        }
        let d: u64 = c as u64 - 48;
        if fits {
            let wide: u128 = value as u128 * 10 + d as u128;
            if wide <= u64::MAX as u128 {
                value = wide as u64;
            } else {
                fits = false;
            }
        }
        i += 1;
    }
    assert(digits.subrange(0, i - start) =~= digits);
    if fits {
        Some(value)
    } else {
        None
    }
}

/// The signed number that `s` writes, where it writes one that fits.
pub fn parse_signed(s: &str) -> (r: Option<i64>)
    ensures
        r == number_i64(s@),
{
    let n: usize = s.unicode_len();
    if n > 0 && s.get_char(0) == '-' {
        let digits = s.substring_char(1, n);
        assert(digits@ =~= s@.drop_first());
        if n > 1 && digits.get_char(0) == '+' {
            assert(!is_digit(digits@[0]));
            return None;
        }
        match parse(digits) {
            Some(v) => if v == 0x8000_0000_0000_0000 {
                Some(i64::MIN)
            } else if v < 0x8000_0000_0000_0000 {
                Some(-(v as i64))
            } else {
                None
            },
            None => None,
        }
    } else {
        match parse(s) {
            Some(v) => if v <= i64::MAX as u64 {
                Some(v as i64)
            } else {
                None
            },
            None => None,
        }
    }
}

/// `a` comes strictly before `b`.
pub fn before(a: &str, b: &str) -> (r: bool)
    ensures
        r == text_before(a@, b@),
{
    let x = chars(a);
    let y = chars(b);
    let mut i: usize = 0;
    assert(a@.subrange(0, x.len() as int) =~= a@);
    assert(b@.subrange(0, y.len() as int) =~= b@);
    while i < x.len() && i < y.len()
        invariant
            x@ == a@,
            y@ == b@,
            i <= x.len(),
            i <= y.len(),
            text_before(a@, b@) == text_before(
                a@.subrange(i as int, x.len() as int),
                b@.subrange(i as int, y.len() as int),
            ),
        decreases x.len() - i,
    {
        if x[i] != y[i] {
            return x[i] < y[i];
        }
        assert(a@.subrange(i as int, x.len() as int).drop_first() =~= a@.subrange(
            i + 1,
            x.len() as int,
        ));
        assert(b@.subrange(i as int, y.len() as int).drop_first() =~= b@.subrange(
            i + 1,
            y.len() as int,
        ));
        i += 1;
    }
    i < y.len()
}

// ---------------------------------------------------------------------------------------------
// Laws
// ---------------------------------------------------------------------------------------------
/// A text with no space at either end is left as it is by trimming.
pub proof fn nothing_to_trim(s: Seq<char>)
    requires
        s.len() > 0 ==> !is_space(s[0]) && !is_space(s.last()),
    ensures
        trimmed(s) == s,
{
}

proof fn start_cut(s: Seq<char>) -> (a: int)
    ensures
        0 <= a <= s.len(),
        trim_start(s) == s.subrange(a, s.len() as int),
        forall|i: int| 0 <= i < a ==> is_space(#[trigger] s[i]),
        a < s.len() ==> !is_space(s[a]),
    decreases s.len(),
{
    if s.len() > 0 && is_space(s[0]) {
        let rest = s.drop_first();
        let b = start_cut(rest);
        assert(trim_start(s) =~= s.subrange(b + 1, s.len() as int));
        assert forall|i: int| 0 <= i < b + 1 implies is_space(#[trigger] s[i]) by {
            if i > 0 {
                assert(s[i] == rest[i - 1]);
            }
        }
        b + 1
    } else {
        assert(s.subrange(0, s.len() as int) =~= s);
        0
    }
}

proof fn end_cut(s: Seq<char>) -> (b: int)
    ensures
        0 <= b <= s.len(),
        trim_end(s) == s.subrange(0, b),
        forall|i: int| b <= i < s.len() ==> is_space(#[trigger] s[i]),
        b > 0 ==> !is_space(s[b - 1]),
    decreases s.len(),
{
    if s.len() > 0 && is_space(s.last()) {
        let rest = s.drop_last();
        let b = end_cut(rest);
        assert(trim_end(s) =~= s.subrange(0, b));
        assert forall|i: int| b <= i < s.len() implies is_space(#[trigger] s[i]) by {
            if i < s.len() - 1 {
                assert(s[i] == rest[i]);
            }
        }
        b
    } else {
        assert(s.subrange(0, s.len() as int) =~= s);
        s.len() as int
    }
}

/// Trimming takes the space off both ends and nothing else: what is left is a part of the text that
/// neither begins nor ends with space, and all that was taken off is space.
pub proof fn trimming_takes_off_space_alone(s: Seq<char>)
    ensures
        exists|a: int, b: int|
            0 <= a <= b <= s.len() && trimmed(s) == #[trigger] s.subrange(a, b) && (forall|i: int|
                0 <= i < a || b <= i < s.len() ==> is_space(#[trigger] s[i])),
        trimmed(s).len() > 0 ==> !is_space(trimmed(s)[0]) && !is_space(trimmed(s).last()),
        trimmed(trimmed(s)) == trimmed(s),
{
    let a = start_cut(s);
    let t = trim_start(s);
    let n = end_cut(t);
    assert(trimmed(s) =~= s.subrange(a, a + n));
    assert forall|i: int| 0 <= i < a || a + n <= i < s.len() implies is_space(#[trigger] s[i]) by {
        if i >= a {
            assert(s[i] == t[i - a]);
        }
    }
    if trimmed(s).len() > 0 {
        assert(trimmed(s)[0] == s[a]);
        assert(trimmed(s).last() == t[n - 1]);
    }
    nothing_to_trim(trimmed(s));
}

/// Case has no bearing on space: a text is trimmed alike before and after it is put in upper case.
pub proof fn case_is_not_space(s: Seq<char>)
    ensures
        trimmed(ascii_upper(s)) == ascii_upper(trimmed(s)),
        ascii_upper(ascii_upper(s)) == ascii_upper(s),
        ascii_upper(s).len() == s.len(),
{
    let u = ascii_upper(s);
    let a = start_cut(s);
    let t = trim_start(s);
    let n = end_cut(t);
    let b = start_cut(u);
    assert forall|i: int| 0 <= i < s.len() implies is_space(#[trigger] u[i]) == is_space(s[i]) by {}
    assert(a == b) by {
        if a < b {
            assert(is_space(u[a]));
        }
        if b < a {
            assert(is_space(s[b]));
        }
    }
    let w = trim_start(u);
    let m = end_cut(w);
    assert forall|i: int| 0 <= i < t.len() implies is_space(#[trigger] w[i]) == is_space(t[i]) by {
        assert(w[i] == u[a + i]);
        assert(t[i] == s[a + i]);
    }
    assert(m == n) by {
        if m < n {
            assert(is_space(w[n - 1]));
        }
        if n < m {
            assert(is_space(t[m - 1]));
        }
    }
    assert(trimmed(u) =~= ascii_upper(trimmed(s)));
    assert(ascii_upper(u) =~= u);
}

/// The first place of a character is one where it stands, with none before it, or the end of the text
/// where it stands nowhere.
pub proof fn the_first_place_is_first(s: Seq<char>, c: char)
    ensures
        0 <= first_at(s, c) <= s.len(),
        first_at(s, c) < s.len() ==> s[first_at(s, c)] == c,
        forall|i: int| 0 <= i < first_at(s, c) ==> #[trigger] s[i] != c,
        first_at(s, c) == s.len() <==> !s.contains(c),
    decreases s.len(),
{
    if s.len() > 0 && s[0] != c {
        let rest = s.drop_first();
        the_first_place_is_first(rest, c);
        assert forall|i: int| 0 <= i < first_at(s, c) implies #[trigger] s[i] != c by {
            if i > 0 {
                assert(s[i] == rest[i - 1]);
            }
        }
        if first_at(s, c) < s.len() {
            assert(rest[first_at(rest, c)] == s[first_at(s, c)]);
        }
        if s.contains(c) {
            let i = choose|i: int| 0 <= i < s.len() && s[i] == c;
            assert(rest[i - 1] == c);
        }
    } else if s.len() > 0 {
        assert(s.contains(s[0]));
    }
}

/// What stands after the last of a character is all that follows it, where it does not stand again.
pub proof fn what_stands_after_the_last(head: Seq<char>, c: char, tail: Seq<char>)
    requires
        !tail.contains(c),
    ensures
        after_last(head + seq![c] + tail, c) == tail,
        after_last(tail, c) == tail,
    decreases tail.len(),
{
    let s = head + seq![c] + tail;
    if tail.len() == 0 {
        assert(s.last() == c);
    } else {
        let short = tail.drop_last();
        assert forall|i: int| 0 <= i < short.len() implies short[i] != c by {
            assert(tail.contains(tail[i]));
        }
        what_stands_after_the_last(head, c, short);
        assert(s.drop_last() =~= head + seq![c] + short);
        assert(tail.contains(tail.last()));
        assert(short.push(tail.last()) =~= tail);
    }
}

/// Joining puts the separator between two parts, and nowhere else.
pub proof fn joining_separates(parts: Seq<Seq<char>>, sep: Seq<char>, x: Seq<char>)
    ensures
        joined(Seq::empty(), sep).len() == 0,
        joined(seq![x], sep) == x,
        parts.len() > 0 ==> joined(parts.push(x), sep) == joined(parts, sep) + sep + x,
{
    assert(parts.push(x).drop_last() =~= parts);
}

/// A number is read by its digits, with or without a plus before them, and a text that holds anything
/// else is none.
pub proof fn a_number_is_its_digits(d: Seq<char>)
    ensures
        d.len() > 0 && all_digits(d) ==> number(d) == Some(digits_value(d)) && number(seq!['+'] + d)
            == Some(digits_value(d)),
        number(d) is Some ==> forall|i: int|
            0 <= i < d.len() ==> is_digit(#[trigger] d[i]) || (i == 0 && d[i] == '+'),
        number(Seq::empty()) is None,
{
    assert((seq!['+'] + d).drop_first() =~= d);
    if number(d) is Some && d.len() > 0 && d[0] == '+' {
        let rest = d.drop_first();
        assert forall|i: int| 0 <= i < d.len() implies is_digit(#[trigger] d[i]) || (i == 0 && d[i]
            == '+') by {
            if i > 0 {
                assert(d[i] == rest[i - 1]);
            }
        }
    }
}

/// Texts are ordered by their first difference, and a text before every longer one that begins with
/// it.
pub proof fn the_first_difference_decides(
    head: Seq<char>,
    a: char,
    b: char,
    after_a: Seq<char>,
    after_b: Seq<char>,
)
    ensures
        a < b ==> text_before(head + seq![a] + after_a, head + seq![b] + after_b),
        text_before(head, head + seq![b] + after_b),
    decreases head.len(),
{
    let x = head + seq![a] + after_a;
    let y = head + seq![b] + after_b;
    if head.len() > 0 {
        let rest = head.drop_first();
        the_first_difference_decides(rest, a, b, after_a, after_b);
        assert(x.drop_first() =~= rest + seq![a] + after_a);
        assert(y.drop_first() =~= rest + seq![b] + after_b);
    }
}

/// Only the letters `a` to `z` are changed by upper case, each to the letter of the same place in the
/// alphabet.
pub proof fn upper_case_changes_small_letters_alone(c: char)
    ensures
        'a' <= c <= 'z' ==> 'A' <= upper(c) <= 'Z' && upper(c) as u32 - 'A' as u32 == c as u32
            - 'a' as u32,
        !('a' <= c <= 'z') ==> upper(c) == c,
{
}

/// Space is what Unicode calls white space: no letter, digit or mark of ASCII is.
pub proof fn space_is_white_space(c: char)
    ensures
        is_space(' ') && is_space('\t') && is_space('\n') && is_space('\r'),
        0x21 <= c as u32 <= 0x7e ==> !is_space(c),
        is_space(c) <==> seq![
            0x9u32,
            0xa,
            0xb,
            0xc,
            0xd,
            0x20,
            0x85,
            0xa0,
            0x1680,
            0x2000,
            0x2001,
            0x2002,
            0x2003,
            0x2004,
            0x2005,
            0x2006,
            0x2007,
            0x2008,
            0x2009,
            0x200a,
            0x2028,
            0x2029,
            0x202f,
            0x205f,
            0x3000,
        ].contains(c as u32),
{
    let all = seq![
        0x9u32,
        0xa,
        0xb,
        0xc,
        0xd,
        0x20,
        0x85,
        0xa0,
        0x1680,
        0x2000,
        0x2001,
        0x2002,
        0x2003,
        0x2004,
        0x2005,
        0x2006,
        0x2007,
        0x2008,
        0x2009,
        0x200a,
        0x2028,
        0x2029,
        0x202f,
        0x205f,
        0x3000,
    ];
    assert(all.len() == 25);
    assert(all[0] == 0x9 && all[1] == 0xa && all[2] == 0xb && all[3] == 0xc && all[4] == 0xd
        && all[5] == 0x20 && all[6] == 0x85 && all[7] == 0xa0 && all[8] == 0x1680 && all[9] == 0x2000
        && all[10] == 0x2001 && all[11] == 0x2002 && all[12] == 0x2003 && all[13] == 0x2004 && all[14]
        == 0x2005 && all[15] == 0x2006 && all[16] == 0x2007 && all[17] == 0x2008 && all[18] == 0x2009
        && all[19] == 0x200a && all[20] == 0x2028 && all[21] == 0x2029 && all[22] == 0x202f && all[23]
        == 0x205f && all[24] == 0x3000);
}

/// A text begins with what it was put together from first, ends with what came last, and holds what
/// stands between; a text that begins or ends with another is that other and the rest.
pub proof fn a_text_holds_its_parts(a: Seq<char>, b: Seq<char>, c: Seq<char>)
    ensures
        starts_with(a + b, a),
        ends_with(a + b, b),
        holds_text(a + b + c, b),
        starts_with(a, b) ==> a == b + a.subrange(b.len() as int, a.len() as int),
        ends_with(a, b) ==> a == a.subrange(0, a.len() - b.len()) + b,
        without_prefix(a + b, a) == b,
{
    assert((a + b).subrange(0, a.len() as int) =~= a);
    assert((a + b).subrange(a.len() as int, (a + b).len() as int) =~= b);
    assert((a + b + c).subrange(a.len() as int, (a.len() + b.len()) as int) =~= b);
    if starts_with(a, b) {
        assert(a =~= a.subrange(0, b.len() as int) + a.subrange(b.len() as int, a.len() as int));
    }
    if ends_with(a, b) {
        assert(a =~= a.subrange(0, a.len() - b.len()) + a.subrange(
            a.len() - b.len(),
            a.len() as int,
        ));
    }
}

/// A signed number is read with its sign, as far as 64 bits hold it.
pub proof fn a_signed_number_is_read_with_its_sign(d: Seq<char>)
    requires
        d.len() > 0,
        all_digits(d),
    ensures
        digits_value(d) <= i64::MAX ==> number_i64(d) == Some(digits_value(d) as i64),
        digits_value(d) > i64::MAX ==> number_i64(d) is None,
        digits_value(d) <= 0x8000_0000_0000_0000 ==> (number_i64(seq!['-'] + d) matches Some(n) && n
            == -digits_value(d)),
        digits_value(d) > 0x8000_0000_0000_0000 ==> number_i64(seq!['-'] + d) is None,
{
    a_number_is_its_digits(d);
    assert((seq!['-'] + d).drop_first() =~= d);
    assert(is_digit(d[0]));
}

} // verus!
