//! Text operations with exact contracts over `Seq<char>`.
//!
//! Strings are modelled by the sequence of their characters. Every message,
//! prompt and file name the library produces is described with the
//! specification functions of this module.

use vstd::prelude::*;
use vstd::utf8::*;

verus! {

broadcast use vstd::string::group_string_axioms;

/// `String::push` appends the given character to the end of the string.
pub assume_specification[ String::push ](s: &mut String, c: char)
    ensures
        final(s)@ == old(s)@.push(c),
;

// ---------------------------------------------------------------------------
// Characters and strings
// ---------------------------------------------------------------------------

/// The characters of `s`, in order.
pub fn chars_of(s: &str) -> (r: Vec<char>)
    ensures
        r@ == s@,
{
    let mut r: Vec<char> = Vec::new();
    for c in it: s.chars()
        invariant
            it.seq() == s@,
            r@ == s@.take(it.index() as int),
    {
        r.push(c);
    }
    assert(s@.take(s@.len() as int) =~= s@);
    r
}

/// The string made of the characters of `cs` from `from` up to `to`.
pub fn string_between(cs: &[char], from: usize, to: usize) -> (r: String)
    requires
        from <= to <= cs@.len(),
    ensures
        r@ == cs@.subrange(from as int, to as int),
{
    let mut r = String::new();
    let mut i: usize = from;
    while i < to
        invariant
            from <= i <= to <= cs@.len(),
            r@ == cs@.subrange(from as int, i as int),
        decreases to - i,
    {
        r.push(cs[i]);
        i += 1;
    }
    r
}

/// The string with exactly the characters `cs`.
pub fn string_of(cs: &[char]) -> (r: String)
    ensures
        r@ == cs@,
{
    let r = string_between(cs, 0, cs.len());
    assert(cs@.subrange(0, cs@.len() as int) =~= cs@);
    r
}

/// Whether two strings hold the same characters.
pub fn same(a: &str, b: &str) -> (r: bool)
    ensures
        r == (a@ == b@),
{
    let x: String = a.to_owned();
    let y: String = b.to_owned();
    x == y
}

/// Whether two optional strings are both absent or hold the same characters.
pub fn same_option(a: Option<&str>, b: Option<&str>) -> (r: bool)
    ensures
        r == match (a, b) {
            (Some(x), Some(y)) => x@ == y@,
            (None, None) => true,
            _ => false,
        },
{
    match (a, b) {
        (Some(x), Some(y)) => same(x, y),
        (None, None) => true,
        _ => false,
    }
}

/// The character sequences of a list of strings.
pub open spec fn strs(v: Seq<String>) -> Seq<Seq<char>> {
    Seq::new(v.len(), |i: int| v[i]@)
}

/// The characters of an optional string.
pub open spec fn opt(o: Option<String>) -> Option<Seq<char>> {
    match o {
        Some(s) => Some(s@),
        None => None,
    }
}

/// The characters of an optional string slice.
pub open spec fn opt_str(o: Option<&str>) -> Option<Seq<char>> {
    match o {
        Some(s) => Some(s@),
        None => None,
    }
}

/// A borrowed view of an optional string.
pub fn as_str_option(o: &Option<String>) -> (r: Option<&str>)
    ensures
        opt_str(r) == opt(*o),
{
    match o {
        Some(s) => Some(s.as_str()),
        None => None,
    }
}

/// A copy of an optional string.
pub fn copy_option(o: &Option<String>) -> (r: Option<String>)
    ensures
        r == *o,
{
    match o {
        Some(s) => Some(s.clone()),
        None => None,
    }
}

/// An owned copy of an optional string slice.
pub fn own_option(o: Option<&str>) -> (r: Option<String>)
    ensures
        opt(r) == opt_str(o),
{
    match o {
        Some(s) => Some(s.to_owned()),
        None => None,
    }
}

/// A copy of a list of strings.
pub fn copy_strings(v: &[String]) -> (r: Vec<String>)
    ensures
        r@ == v@,
{
    let mut r: Vec<String> = Vec::new();
    let mut i: usize = 0;
    while i < v.len()
        invariant
            i <= v@.len(),
            r@ == v@.take(i as int),
        decreases v@.len() - i,
    {
        r.push(v[i].clone());
        i += 1;
    }
    assert(v@.take(v@.len() as int) =~= v@);
    r
}

/// Whether `s` is one of the strings of `v`.
pub fn contains_string(v: &[String], s: &str) -> (r: bool)
    ensures
        r == strs(v@).contains(s@),
{
    let mut i: usize = 0;
    while i < v.len()
        invariant
            i <= v@.len(),
            forall|j: int| 0 <= j < i ==> (#[trigger] v@[j])@ != s@,
        decreases v@.len() - i,
    {
        if same(v[i].as_str(), s) {
            assert(strs(v@)[i as int] == s@);
            return true;
        }
        i += 1;
    }
    assert forall|j: int| 0 <= j < strs(v@).len() implies strs(v@)[j] != s@ by {
        assert(strs(v@)[j] == v@[j]@);
    }
    false
}

// ---------------------------------------------------------------------------
// White space
// ---------------------------------------------------------------------------

/// The Unicode `White_Space` property.
pub open spec fn is_space(c: char) -> bool {
    let u = c as u32;
    ||| 0x9 <= u <= 0xd
    ||| u == 0x20
    ||| u == 0x85
    ||| u == 0xa0
    ||| u == 0x1680
    ||| 0x2000 <= u <= 0x200a
    ||| u == 0x2028
    ||| u == 0x2029
    ||| u == 0x202f
    ||| u == 0x205f
    ||| u == 0x3000
}

/// Decides the Unicode `White_Space` property.
pub fn char_is_space(c: char) -> (r: bool)
    ensures
        r == is_space(c),
{
    let u: u32 = c as u32;
    (0x9 <= u && u <= 0xd) || u == 0x20 || u == 0x85 || u == 0xa0 || u == 0x1680 || (0x2000 <= u
        && u <= 0x200a) || u == 0x2028 || u == 0x2029 || u == 0x202f || u == 0x205f || u == 0x3000
}

/// `s` without its leading white space.
pub open spec fn trim_start(s: Seq<char>) -> Seq<char>
    decreases s.len(),
{
    if s.len() > 0 && is_space(s[0]) {
        trim_start(s.drop_first())
    } else {
        s
    }
}

/// `s` without its trailing white space.
pub open spec fn trim_end(s: Seq<char>) -> Seq<char>
    decreases s.len(),
{
    if s.len() > 0 && is_space(s.last()) {
        trim_end(s.drop_last())
    } else {
        s
    }
}

/// `s` without the white space around it.
pub open spec fn trim(s: Seq<char>) -> Seq<char> {
    trim_end(trim_start(s))
}

/// Whether `s` holds nothing but white space.
pub open spec fn is_blank(s: Seq<char>) -> bool {
    trim(s).len() == 0
}

proof fn lemma_trim_start_at(s: Seq<char>, i: int)
    requires
        0 <= i <= s.len(),
        forall|j: int| 0 <= j < i ==> is_space(s[j]),
        i < s.len() ==> !is_space(s[i]),
    ensures
        trim_start(s) == s.subrange(i, s.len() as int),
    decreases i,
{
    if i > 0 {
        let t = s.drop_first();
        assert forall|j: int| 0 <= j < i - 1 implies is_space(t[j]) by {
            assert(t[j] == s[j + 1]);
        }
        lemma_trim_start_at(t, i - 1);
        assert(t.subrange(i - 1, t.len() as int) =~= s.subrange(i, s.len() as int));
    } else {
        assert(s.subrange(0, s.len() as int) =~= s);
    }
}

proof fn lemma_trim_end_at(s: Seq<char>, i: int)
    requires
        0 <= i <= s.len(),
        forall|j: int| i <= j < s.len() ==> is_space(s[j]),
        i > 0 ==> !is_space(s[i - 1]),
    ensures
        trim_end(s) == s.subrange(0, i),
    decreases s.len() - i,
{
    if i < s.len() {
        let t = s.drop_last();
        lemma_trim_end_at(t, i);
        assert(t.subrange(0, i) =~= s.subrange(0, i));
    } else {
        assert(s.subrange(0, i) =~= s);
    }
}

fn trim_start_index(cs: &[char]) -> (i: usize)
    ensures
        i <= cs@.len(),
        trim_start(cs@) == cs@.subrange(i as int, cs@.len() as int),
{
    let mut i: usize = 0;
    while i < cs.len() && char_is_space(cs[i])
        invariant
            i <= cs@.len(),
            forall|j: int| 0 <= j < i ==> is_space(cs@[j]),
        decreases cs@.len() - i,
    {
        i += 1;
    }
    proof {
        lemma_trim_start_at(cs@, i as int);
    }
    i
}

/// Removes leading white space.
pub fn trim_start_text(s: &str) -> (r: String)
    ensures
        r@ == trim_start(s@),
{
    let cs = chars_of(s);
    let i = trim_start_index(&cs);
    string_between(&cs, i, cs.len())
}

/// Removes trailing white space.
pub fn trim_end_text(s: &str) -> (r: String)
    ensures
        r@ == trim_end(s@),
{
    let cs = chars_of(s);
    let mut i: usize = cs.len();
    while i > 0 && char_is_space(cs[i - 1])
        invariant
            i <= cs@.len(),
            forall|j: int| i <= j < cs@.len() ==> is_space(cs@[j]),
        decreases i,
    {
        i -= 1;
    }
    proof {
        lemma_trim_end_at(cs@, i as int);
    }
    string_between(&cs, 0, i)
}

/// Removes the white space around `s`.
pub fn trim_text(s: &str) -> (r: String)
    ensures
        r@ == trim(s@),
{
    let t = trim_start_text(s);
    trim_end_text(t.as_str())
}

/// Whether `s` holds nothing but white space.
pub fn text_is_blank(s: &str) -> (r: bool)
    ensures
        r == is_blank(s@),
{
    let t = trim_text(s);
    t.as_str().is_empty()
}

/// A text is blank exactly when each of its characters is white space.
pub proof fn lemma_blank(s: Seq<char>)
    ensures
        is_blank(s) <==> (forall|i: int| 0 <= i < s.len() ==> is_space(#[trigger] s[i])),
    decreases s.len(),
{
    if s.len() > 0 && is_space(s[0]) {
        lemma_blank(s.drop_first());
        assert(trim(s) == trim(s.drop_first()));
        if is_blank(s) {
            assert forall|i: int| 0 <= i < s.len() implies is_space(#[trigger] s[i]) by {
                if i > 0 {
                    assert(s.drop_first()[i - 1] == s[i]);
                }
            }
        }
        if forall|i: int| 0 <= i < s.len() ==> is_space(#[trigger] s[i]) {
            assert forall|i: int| 0 <= i < s.drop_first().len() implies is_space(
                #[trigger] s.drop_first()[i],
            ) by {
                assert(s.drop_first()[i] == s[i + 1]);
            }
        }
    } else if s.len() > 0 {
        assert(trim_start(s) == s);
        lemma_trim_end_keeps_first(s);
    }
}

/// Trimming the end keeps a first character that is not white space.
pub proof fn lemma_trim_end_keeps_first(s: Seq<char>)
    requires
        s.len() > 0,
        !is_space(s[0]),
    ensures
        trim_end(s).len() > 0,
        trim_end(s)[0] == s[0],
    decreases s.len(),
{
    if is_space(s.last()) {
        lemma_trim_end_keeps_first(s.drop_last());
    }
}

/// Trimming the end keeps everything up to a character that is not white space.
pub proof fn lemma_trim_end_keeps(s: Seq<char>, k: int)
    requires
        0 <= k < s.len(),
        !is_space(s[k]),
    ensures
        k < trim_end(s).len() <= s.len(),
        trim_end(s).take(k + 1) == s.take(k + 1),
    decreases s.len(),
{
    if is_space(s.last()) {
        lemma_trim_end_keeps(s.drop_last(), k);
        assert(s.drop_last().take(k + 1) =~= s.take(k + 1));
    }
}

// ---------------------------------------------------------------------------
// Prefixes
// ---------------------------------------------------------------------------

/// Whether `s` begins with `p`.
pub open spec fn starts_with(s: Seq<char>, p: Seq<char>) -> bool {
    s.len() >= p.len() && s.take(p.len() as int) == p
}

/// Whether `s` begins with `p`.
pub fn text_starts_with(s: &str, p: &str) -> (r: bool)
    ensures
        r == starts_with(s@, p@),
{
    let a = chars_of(s);
    let b = chars_of(p);
    if a.len() < b.len() {
        return false;
    }
    let mut i: usize = 0;
    while i < b.len()
        invariant
            i <= b@.len() <= a@.len(),
            forall|j: int| 0 <= j < i ==> a@[j] == b@[j],
            a@ == s@,
            b@ == p@,
        decreases b@.len() - i,
    {
        if a[i] != b[i] {
            assert(s@.take(p@.len() as int)[i as int] != p@[i as int]);
            return false;
        }
        i += 1;
    }
    assert(s@.take(p@.len() as int) =~= p@);
    true
}

/// What follows the prefix `p` of `s`, where `s` has it.
pub open spec fn after_prefix(s: Seq<char>, p: Seq<char>) -> Option<Seq<char>> {
    if starts_with(s, p) {
        Some(s.skip(p.len() as int))
    } else {
        None
    }
}

/// What follows the prefix `p` of `s`, where `s` has it.
pub fn strip_text_prefix(s: &str, p: &str) -> (r: Option<String>)
    ensures
        opt(r) == after_prefix(s@, p@),
{
    if text_starts_with(s, p) {
        let a = chars_of(s);
        let n: usize = p.unicode_len();
        let rest = string_between(&a, n, a.len());
        assert(s@.subrange(n as int, s@.len() as int) =~= s@.skip(p@.len() as int));
        Some(rest)
    } else {
        None
    }
}

/// `s` split at the first `c`: what stands before it, and what stands after it
/// where there is one.
pub open spec fn split_first(s: Seq<char>, c: char) -> (Seq<char>, Option<Seq<char>>)
    decreases s.len(),
{
    if s.len() == 0 {
        (s, None)
    } else if s[0] == c {
        (Seq::empty(), Some(s.drop_first()))
    } else {
        let (a, b) = split_first(s.drop_first(), c);
        (seq![s[0]] + a, b)
    }
}

proof fn lemma_split_first_at(s: Seq<char>, c: char, i: int)
    requires
        0 <= i <= s.len(),
        forall|j: int| 0 <= j < i ==> s[j] != c,
        i < s.len() ==> s[i] == c,
    ensures
        split_first(s, c) == (
            s.take(i),
            if i < s.len() {
                Some(s.skip(i + 1))
            } else {
                None
            },
        ),
    decreases i,
{
    if i > 0 {
        let t = s.drop_first();
        lemma_split_first_at(t, c, i - 1);
        assert(seq![s[0]] + t.take(i - 1) =~= s.take(i));
        if i < s.len() {
            assert(t.skip(i) =~= s.skip(i + 1));
        }
    } else {
        assert(s.take(0) =~= Seq::<char>::empty());
        if s.len() > 0 {
            assert(s.skip(1) =~= s.drop_first());
        }
    }
}

/// Splits `s` at its first `c`.
pub fn split_text(s: &str, c: char) -> (r: (String, Option<String>))
    ensures
        (r.0@, opt(r.1)) == split_first(s@, c),
{
    let cs = chars_of(s);
    let mut i: usize = 0;
    while i < cs.len() && cs[i] != c
        invariant
            i <= cs@.len(),
            forall|j: int| 0 <= j < i ==> cs@[j] != c,
        decreases cs@.len() - i,
    {
        i += 1;
    }
    proof {
        lemma_split_first_at(s@, c, i as int);
        assert(s@.subrange(0, i as int) =~= s@.take(i as int));
    }
    let head = string_between(&cs, 0, i);
    if i < cs.len() {
        let rest = string_between(&cs, i + 1, cs.len());
        assert(s@.subrange(i + 1, s@.len() as int) =~= s@.skip(i + 1));
        (head, Some(rest))
    } else {
        (head, None)
    }
}

// ---------------------------------------------------------------------------
// Letter case
// ---------------------------------------------------------------------------

/// `c` with an ASCII capital replaced by its small letter.
pub open spec fn ascii_lower(c: char) -> char {
    if 'A' <= c <= 'Z' {
        ((c as u8) + 32) as u8 as char
    } else {
        c
    }
}

/// `s` with every ASCII capital replaced by its small letter.
pub open spec fn ascii_lowercase(s: Seq<char>) -> Seq<char> {
    Seq::new(s.len(), |i: int| ascii_lower(s[i]))
}

/// Whether every character of `s` is an ASCII character.
pub open spec fn all_ascii(s: Seq<char>) -> bool {
    forall|i: int| 0 <= i < s.len() ==> (#[trigger] s[i] as u32) < 128
}

/// Case does not matter for trimming.
pub proof fn lemma_trim_lowercase(s: Seq<char>)
    ensures
        ascii_lowercase(trim_start(s)) == trim_start(ascii_lowercase(s)),
        ascii_lowercase(trim_end(s)) == trim_end(ascii_lowercase(s)),
        ascii_lowercase(trim(s)) == trim(ascii_lowercase(s)),
    decreases s.len(),
{
    lemma_trim_start_lowercase(s);
    lemma_trim_end_lowercase(s);
    lemma_trim_end_lowercase(trim_start(s));
}

proof fn lemma_trim_start_lowercase(s: Seq<char>)
    ensures
        ascii_lowercase(trim_start(s)) == trim_start(ascii_lowercase(s)),
    decreases s.len(),
{
    let l = ascii_lowercase(s);
    if s.len() > 0 {
        assert(l[0] == ascii_lower(s[0]));
        assert(l.drop_first() =~= ascii_lowercase(s.drop_first()));
        if is_space(s[0]) {
            lemma_trim_start_lowercase(s.drop_first());
        }
    }
}

proof fn lemma_trim_end_lowercase(s: Seq<char>)
    ensures
        ascii_lowercase(trim_end(s)) == trim_end(ascii_lowercase(s)),
    decreases s.len(),
{
    let l = ascii_lowercase(s);
    if s.len() > 0 {
        assert(l.last() == ascii_lower(s.last()));
        assert(l.drop_last() =~= ascii_lowercase(s.drop_last()));
        if is_space(s.last()) {
            lemma_trim_end_lowercase(s.drop_last());
        }
    }
}

/// An ASCII text stays one without its leading white space.
pub proof fn lemma_trim_start_ascii(s: Seq<char>)
    requires
        all_ascii(s),
    ensures
        all_ascii(trim_start(s)),
    decreases s.len(),
{
    if s.len() > 0 && is_space(s[0]) {
        assert(all_ascii(s.drop_first())) by {
            assert forall|i: int| 0 <= i < s.drop_first().len() implies (
            #[trigger] s.drop_first()[i] as u32) < 128 by {
                assert(s.drop_first()[i] == s[i + 1]);
            }
        }
        lemma_trim_start_ascii(s.drop_first());
    }
}

/// What follows the first `c` of an ASCII text is ASCII.
pub proof fn lemma_split_ascii(s: Seq<char>, c: char)
    requires
        all_ascii(s),
    ensures
        split_first(s, c).1 matches Some(rest) ==> all_ascii(rest),
    decreases s.len(),
{
    if s.len() > 0 {
        assert(all_ascii(s.drop_first())) by {
            assert forall|i: int| 0 <= i < s.drop_first().len() implies (
            #[trigger] s.drop_first()[i] as u32) < 128 by {
                assert(s.drop_first()[i] == s[i + 1]);
            }
        }
        if s[0] != c {
            lemma_split_ascii(s.drop_first(), c);
        }
    }
}

/// Replaces every ASCII capital by its small letter.
pub fn ascii_lowercase_text(s: &str) -> (r: String)
    ensures
        r@ == ascii_lowercase(s@),
{
    let cs = chars_of(s);
    let mut r = String::new();
    let mut i: usize = 0;
    while i < cs.len()
        invariant
            i <= cs@.len(),
            r@ == ascii_lowercase(cs@).take(i as int),
        decreases cs@.len() - i,
    {
        let c = cs[i];
        if 'A' <= c && c <= 'Z' {
            r.push(((c as u8) + 32) as char);
        } else {
            r.push(c);
        }
        i += 1;
    }
    assert(ascii_lowercase(cs@).take(cs@.len() as int) =~= ascii_lowercase(cs@));
    r
}

/// The lower-case form of a text, as Unicode defines it.
pub uninterp spec fn lowercase(s: Seq<char>) -> Seq<char>;

/// `str::to_lowercase`: the lower-case equivalent of the text, as Unicode
/// defines it. On a text of ASCII characters alone it changes the ASCII
/// capitals and nothing else.
#[verifier::external_body]
pub(crate) fn to_lowercase(s: &str) -> (r: String)
    ensures
        r@ == lowercase(s@),
        all_ascii(s@) ==> r@ == ascii_lowercase(s@),
{
    s.to_lowercase()
}

// ---------------------------------------------------------------------------
// Numbers
// ---------------------------------------------------------------------------

/// The decimal digit for `d`.
pub open spec fn digit(d: nat) -> char {
    ((48 + d) as u8) as char
}

/// The decimal notation of `n`.
pub open spec fn decimal(n: nat) -> Seq<char>
    decreases n,
{
    if n < 10 {
        seq![digit(n)]
    } else {
        decimal(n / 10).push(digit(n % 10))
    }
}

/// The decimal notation of `i`, with a minus sign where it is negative.
pub open spec fn decimal_signed(i: int) -> Seq<char> {
    if i < 0 {
        seq!['-'] + decimal((-i) as nat)
    } else {
        decimal(i as nat)
    }
}

/// Ten to the power of `k`.
pub open spec fn ten_to(k: nat) -> nat
    decreases k,
{
    if k == 0 {
        1
    } else {
        10 * ten_to((k - 1) as nat)
    }
}

/// A number below ten to the power of `k` has at most `k` digits.
pub proof fn lemma_decimal_len(n: nat, k: nat)
    requires
        0 < k,
        n < ten_to(k),
    ensures
        0 < decimal(n).len() <= k,
    decreases k,
{
    if n >= 10 {
        assert(k > 1) by {
            if k == 1 {
                assert(ten_to(0) == 1);
            }
        }
        lemma_decimal_len(n / 10, (k - 1) as nat);
    }
}

/// Writes `n` in decimal notation.
pub fn decimal_text(n: u64) -> (r: String)
    ensures
        r@ == decimal(n as nat),
    decreases n,
{
    let d: u8 = (48 + n % 10) as u8;
    if n < 10 {
        let mut r = String::new();
        r.push(d as char);
        assert(r@ =~= decimal(n as nat));
        r
    } else {
        let mut r = decimal_text(n / 10);
        r.push(d as char);
        r
    }
}

/// Writes `i` in decimal notation.
pub fn signed_text(i: i32) -> (r: String)
    ensures
        r@ == decimal_signed(i as int),
{
    if i < 0 {
        let m: i64 = -(i as i64);
        let d = decimal_text(m as u64);
        let mut r = String::new();
        r.push('-');
        r.append(d.as_str());
        assert(r@ =~= seq!['-'] + d@);
        r
    } else {
        decimal_text(i as u64)
    }
}

/// Whether `c` is an ASCII digit.
pub open spec fn is_digit(c: char) -> bool {
    '0' <= c <= '9'
}

/// Whether every character of `s` is an ASCII digit.
pub open spec fn all_digits(s: Seq<char>) -> bool {
    forall|i: int| 0 <= i < s.len() ==> is_digit(#[trigger] s[i])
}

/// The number that a sequence of digits denotes.
pub open spec fn digits_value(s: Seq<char>) -> nat
    decreases s.len(),
{
    if s.len() == 0 {
        0
    } else {
        digits_value(s.drop_last()) * 10 + ((s.last() as u32) - 48) as nat
    }
}

/// The number that `s` denotes: digits, with an optional plus sign before them.
pub open spec fn parse_nat(s: Seq<char>) -> Option<nat> {
    let d = if s.len() > 0 && s[0] == '+' {
        s.drop_first()
    } else {
        s
    };
    if d.len() > 0 && all_digits(d) {
        Some(digits_value(d))
    } else {
        None
    }
}

/// What parsing `s` as a machine-sized number gives: nothing where `s` is no
/// number or the number is too large.
pub open spec fn parse_size(s: Seq<char>) -> Option<usize> {
    match parse_nat(s) {
        Some(n) => if n <= usize::MAX {
            Some(n as usize)
        } else {
            None
        },
        None => None,
    }
}

/// Reading the decimal notation of a number gives the number back.
pub proof fn law_decimal_value(n: nat)
    ensures
        all_digits(decimal(n)),
        digits_value(decimal(n)) == n,
    decreases n,
{
    let s = decimal(n);
    if n >= 10 {
        law_decimal_value(n / 10);
        assert(s.drop_last() =~= decimal(n / 10));
        assert(s.last() == digit(n % 10));
        assert forall|i: int| 0 <= i < s.len() implies is_digit(#[trigger] s[i]) by {
            if i < s.len() - 1 {
                assert(s[i] == decimal(n / 10)[i]);
            }
        }
    } else {
        assert(s.drop_last() =~= Seq::<char>::empty());
        assert(digits_value(s.drop_last()) == 0);
    }
}

proof fn lemma_digits_value_prefix(s: Seq<char>, i: int)
    requires
        0 <= i <= s.len(),
        all_digits(s),
    ensures
        digits_value(s.take(i)) <= digits_value(s),
    decreases s.len() - i,
{
    if i < s.len() {
        lemma_digits_value_prefix(s.drop_last(), i);
        assert(s.drop_last().take(i) =~= s.take(i));
    } else {
        assert(s.take(i) =~= s);
    }
}

/// Parses a machine-sized number.
pub fn parse_size_text(s: &str) -> (r: Option<usize>)
    ensures
        r == parse_size(s@),
{
    let cs = chars_of(s);
    let start: usize = if cs.len() > 0 && cs[0] == '+' {
        1
    } else {
        0
    };
    let ghost d = s@.skip(start as int);
    assert(start == 1 ==> d =~= s@.drop_first());
    assert(start == 0 ==> d =~= s@);
    if start == cs.len() {
        return None;
    }
    let mut i: usize = start;
    while i < cs.len()
        invariant
            start <= i <= cs@.len(),
            d == cs@.skip(start as int),
            cs@ == s@,
            start <= 1,
            start == 1 <==> (s@.len() > 0 && s@[0] == '+'),
            start == 1 ==> d == s@.drop_first(),
            start == 0 ==> d == s@,
            forall|j: int| start <= j < i ==> is_digit(#[trigger] cs@[j]),
        decreases cs@.len() - i,
    {
        if !('0' <= cs[i] && cs[i] <= '9') {
            assert(!is_digit(d[i - start]));
            return None;
        }
        i += 1;
    }
    assert forall|j: int| 0 <= j < d.len() implies is_digit(#[trigger] d[j]) by {
        assert(d[j] == cs@[j + start]);
    }
    let mut v: usize = 0;
    let mut k: usize = start;
    assert(d.take(0) =~= Seq::<char>::empty());
    while k < cs.len()
        invariant
            start <= k <= cs@.len(),
            d == cs@.skip(start as int),
            d.len() > 0,
            parse_nat(s@) == Some(digits_value(d)),
            all_digits(d),
            v == digits_value(d.take(k - start)),
        decreases cs@.len() - k,
    {
        let ghost p = d.take(k - start + 1);
        assert(d[k - start] == cs@[k as int]);
        assert(is_digit(d[k - start]));
        proof {
            lemma_digits_value_prefix(d, k - start + 1);
            assert(p.drop_last() =~= d.take(k - start));
            assert(p.last() == cs@[k as int]);
        }
        let x: usize = (cs[k] as u32 - 48) as usize;
        match v.checked_mul(10) {
            None => {
                return None;
            },
            Some(m) => match m.checked_add(x) {
                None => {
                    return None;
                },
                Some(w) => {
                    v = w;
                },
            },
        }
        k += 1;
    }
    assert(d.take(d.len() as int) =~= d);
    Some(v)
}

// ---------------------------------------------------------------------------
// Joining
// ---------------------------------------------------------------------------

/// The parts one after the other, with `sep` between each two.
pub open spec fn join(parts: Seq<Seq<char>>, sep: Seq<char>) -> Seq<char>
    decreases parts.len(),
{
    if parts.len() == 0 {
        Seq::empty()
    } else if parts.len() == 1 {
        parts[0]
    } else {
        join(parts.drop_last(), sep) + sep + parts.last()
    }
}

/// A first part stands in front of the others, with `sep` behind it where there
/// are others.
pub proof fn lemma_join_front(a: Seq<char>, rest: Seq<Seq<char>>, sep: Seq<char>)
    ensures
        join(seq![a] + rest, sep) == (if rest.len() == 0 {
            a
        } else {
            a + sep + join(rest, sep)
        }),
    decreases rest.len(),
{
    let s = seq![a] + rest;
    if rest.len() == 0 {
        assert(s =~= seq![a]);
    } else {
        assert(s.drop_last() =~= seq![a] + rest.drop_last());
        lemma_join_front(a, rest.drop_last(), sep);
        if rest.len() == 1 {
            assert(rest.drop_last() =~= Seq::<Seq<char>>::empty());
        } else {
            assert(join(s, sep) =~= a + sep + join(rest, sep));
        }
    }
}

/// Where `p` first occurs in `s`.
pub open spec fn occurrence(s: Seq<char>, p: Seq<char>) -> Option<nat>
    decreases s.len(),
{
    if starts_with(s, p) {
        Some(0)
    } else if s.len() == 0 {
        None
    } else {
        match occurrence(s.drop_first(), p) {
            Some(i) => Some(i + 1),
            None => None,
        }
    }
}

/// The parts of `s` between the occurrences of `sep`, from the left.
pub open spec fn split(s: Seq<char>, sep: Seq<char>) -> Seq<Seq<char>>
    decreases s.len(),
{
    match occurrence(s, sep) {
        Some(i) if 0 < sep.len() && i + sep.len() <= s.len() => seq![s.take(i as int)] + split(
            s.skip((i + sep.len()) as int),
            sep,
        ),
        _ => seq![s],
    }
}

/// Whether `c` does not occur in `s`.
pub open spec fn lacks(s: Seq<char>, c: char) -> bool {
    forall|i: int| 0 <= i < s.len() ==> #[trigger] s[i] != c
}

proof fn lemma_occurrence(a: Seq<char>, sep: Seq<char>, rest: Option<Seq<char>>)
    requires
        sep.len() > 0,
        lacks(a, sep[0]),
    ensures
        match rest {
            Some(t) => occurrence(a + sep + t, sep) == Some(a.len()),
            None => occurrence(a, sep) is None,
        },
    decreases a.len(),
{
    let s = match rest {
        Some(t) => a + sep + t,
        None => a,
    };
    if a.len() == 0 {
        if rest is Some {
            assert(s.take(sep.len() as int) =~= sep);
        }
    } else {
        let b = a.drop_first();
        assert(lacks(b, sep[0])) by {
            assert forall|i: int| 0 <= i < b.len() implies #[trigger] b[i] != sep[0] by {
                assert(b[i] == a[i + 1]);
            }
        }
        lemma_occurrence(b, sep, rest);
        if starts_with(s, sep) {
            assert(s.take(sep.len() as int)[0] == a[0]);
        }
        match rest {
            Some(t) => {
                assert(s.drop_first() =~= b + sep + t);
            },
            None => {},
        }
    }
}

/// Parts that lack the first character of what joins them are got back by splitting.
pub proof fn law_split_undoes_join(parts: Seq<Seq<char>>, sep: Seq<char>)
    requires
        parts.len() > 0,
        sep.len() > 0,
        forall|i: int| 0 <= i < parts.len() ==> lacks(#[trigger] parts[i], sep[0]),
    ensures
        split(join(parts, sep), sep) == parts,
    decreases parts.len(),
{
    let a = parts[0];
    let rest = parts.drop_first();
    assert(seq![a] + rest =~= parts);
    lemma_join_front(a, rest, sep);
    assert(lacks(parts[0], sep[0]));
    if rest.len() == 0 {
        lemma_occurrence(a, sep, None);
        assert(seq![a] =~= parts);
    } else {
        assert forall|i: int| 0 <= i < rest.len() implies lacks(#[trigger] rest[i], sep[0]) by {
            assert(rest[i] == parts[i + 1]);
        }
        law_split_undoes_join(rest, sep);
        let t = join(rest, sep);
        let s = a + sep + t;
        lemma_occurrence(a, sep, Some(t));
        assert(s.take(a.len() as int) =~= a);
        assert(s.skip((a.len() + sep.len()) as int) =~= t);
    }
}

/// Joins the strings of `parts`, with `sep` between each two.
pub fn join_text(parts: &[String], sep: &str) -> (r: String)
    ensures
        r@ == join(strs(parts@), sep@),
{
    let mut r = String::new();
    let mut i: usize = 0;
    while i < parts.len()
        invariant
            i <= parts@.len(),
            r@ == join(strs(parts@).take(i as int), sep@),
        decreases parts@.len() - i,
    {
        let ghost p = strs(parts@).take(i + 1);
        assert(p.drop_last() =~= strs(parts@).take(i as int));
        assert(p.last() == parts@[i as int]@);
        if i > 0 {
            r.append(sep);
        }
        r.append(parts[i].as_str());
        assert(r@ =~= join(p, sep@));
        i += 1;
    }
    assert(strs(parts@).take(parts@.len() as int) =~= strs(parts@));
    r
}

// ---------------------------------------------------------------------------
// Length in bytes
// ---------------------------------------------------------------------------

/// The number of bytes that UTF-8 uses for `c`.
pub open spec fn utf8_width(c: char) -> nat {
    let u = c as u32;
    if u < 0x80 {
        1
    } else if u < 0x800 {
        2
    } else if u < 0x10000 {
        3
    } else {
        4
    }
}

/// The number of bytes that UTF-8 uses for `s`.
pub open spec fn byte_len(s: Seq<char>) -> nat
    decreases s.len(),
{
    if s.len() == 0 {
        0
    } else {
        utf8_width(s[0]) + byte_len(s.drop_first())
    }
}

/// `byte_len` is the length of the UTF-8 encoding.
pub proof fn lemma_byte_len(s: Seq<char>)
    ensures
        byte_len(s) == encode_utf8(s).len(),
    decreases s.len(),
{
    if s.len() > 0 {
        lemma_byte_len(s.drop_first());
        assert(encode_scalar(s[0] as u32).len() == utf8_width(s[0])) by {
            char_is_scalar(s[0]);
        }
    }
}

/// Concatenation adds the lengths.
pub proof fn lemma_byte_len_concat(a: Seq<char>, b: Seq<char>)
    ensures
        byte_len(a + b) == byte_len(a) + byte_len(b),
    decreases a.len(),
{
    if a.len() == 0 {
        assert(a + b =~= b);
    } else {
        assert((a + b).drop_first() =~= a.drop_first() + b);
        lemma_byte_len_concat(a.drop_first(), b);
    }
}

/// No character takes more than four bytes.
pub proof fn lemma_byte_len_bound(s: Seq<char>)
    ensures
        byte_len(s) <= 4 * s.len(),
    decreases s.len(),
{
    if s.len() > 0 {
        lemma_byte_len_bound(s.drop_first());
    }
}

/// The number of bytes of `s`.
pub fn byte_length(s: &str) -> (n: usize)
    ensures
        n == byte_len(s@),
{
    proof {
        lemma_byte_len(s@);
    }
    let b = s.as_bytes();
    b.len()
}

fn char_width(c: char) -> (n: usize)
    ensures
        n == utf8_width(c),
{
    let u: u32 = c as u32;
    if u < 0x80 {
        1
    } else if u < 0x800 {
        2
    } else if u < 0x10000 {
        3
    } else {
        4
    }
}

/// How many leading characters of `s` fit into `cap` bytes.
pub open spec fn fitting(s: Seq<char>, cap: nat) -> nat
    decreases s.len(),
{
    if s.len() == 0 || utf8_width(s[0]) > cap {
        0
    } else {
        1 + fitting(s.drop_first(), (cap - utf8_width(s[0])) as nat)
    }
}

/// `s` where it has at most `cap` bytes; otherwise the longest run of leading
/// characters that fits into `cap` bytes, followed by `suffix`.
pub open spec fn truncated(s: Seq<char>, cap: nat, suffix: Seq<char>) -> Seq<char> {
    if byte_len(s) <= cap {
        s
    } else {
        s.take(fitting(s, cap) as int) + suffix
    }
}

/// The fitting characters are a prefix, and they fit.
pub proof fn lemma_fitting(s: Seq<char>, cap: nat)
    ensures
        fitting(s, cap) <= s.len(),
        byte_len(s.take(fitting(s, cap) as int)) <= cap,
        byte_len(s) > cap ==> fitting(s, cap) < s.len(),
    decreases s.len(),
{
    let k = fitting(s, cap);
    if s.len() == 0 || utf8_width(s[0]) > cap {
        assert(s.take(0) =~= Seq::<char>::empty());
    } else {
        let rest = (cap - utf8_width(s[0])) as nat;
        lemma_fitting(s.drop_first(), rest);
        let t = s.take(k as int);
        assert(t.drop_first() =~= s.drop_first().take((k - 1) as int));
    }
}

proof fn lemma_fitting_exact(a: Seq<char>, c: char, b: Seq<char>, cap: nat)
    requires
        byte_len(a) <= cap,
        byte_len(a) + utf8_width(c) > cap,
    ensures
        fitting(a + (seq![c] + b), cap) == a.len(),
    decreases a.len(),
{
    let s = a + (seq![c] + b);
    if a.len() == 0 {
        assert(s[0] == c);
    } else {
        assert(s[0] == a[0]);
        assert(s.drop_first() =~= a.drop_first() + (seq![c] + b));
        lemma_fitting_exact(a.drop_first(), c, b, (cap - utf8_width(a[0])) as nat);
    }
}

/// Truncating twice with a one-character suffix is truncating once: the
/// suffixes never stack up.
pub proof fn law_truncated_idempotent(s: Seq<char>, cap: nat, c: char)
    ensures
        truncated(truncated(s, cap, seq![c]), cap, seq![c]) == truncated(s, cap, seq![c]),
{
    let once = truncated(s, cap, seq![c]);
    if byte_len(s) > cap && byte_len(once) > cap {
        let head = s.take(fitting(s, cap) as int);
        lemma_fitting(s, cap);
        lemma_byte_len_concat(head, seq![c]);
        assert(seq![c].drop_first() =~= Seq::<char>::empty());
        assert(byte_len(seq![c]) == utf8_width(c)) by {
            assert(byte_len(seq![c].drop_first()) == 0);
        }
        lemma_fitting_exact(head, c, Seq::empty(), cap);
        assert(head + (seq![c] + Seq::<char>::empty()) =~= once);
        assert(once.take(head.len() as int) =~= head);
    }
}

/// A truncated text has at most `cap` bytes beside the suffix.
pub proof fn law_truncated_bounded(s: Seq<char>, cap: nat, suffix: Seq<char>)
    ensures
        byte_len(truncated(s, cap, suffix)) <= cap + byte_len(suffix),
{
    lemma_fitting(s, cap);
    lemma_byte_len_concat(s.take(fitting(s, cap) as int), suffix);
}

/// Truncates `s` to `cap` bytes at a character boundary and marks the cut with
/// `suffix`.
pub fn truncate_with_suffix(s: &str, cap: usize, suffix: &str) -> (r: String)
    ensures
        r@ == truncated(s@, cap as nat, suffix@),
{
    if byte_length(s) <= cap {
        return s.to_owned();
    }
    let cs = chars_of(s);
    let mut left: usize = cap;
    let mut k: usize = 0;
    assert(cs@.skip(0) =~= cs@);
    while k < cs.len() && char_width(cs[k]) <= left
        invariant
            k <= cs@.len(),
            fitting(cs@, cap as nat) == k + fitting(cs@.skip(k as int), left as nat),
        decreases cs@.len() - k,
    {
        assert(cs@.skip(k as int)[0] == cs@[k as int]);
        assert(cs@.skip(k as int).drop_first() =~= cs@.skip(k + 1));
        left -= char_width(cs[k]);
        k += 1;
    }
    assert(fitting(cs@.skip(k as int), left as nat) == 0) by {
        if k < cs@.len() {
            assert(cs@.skip(k as int)[0] == cs@[k as int]);
        }
    }
    let mut r = string_between(&cs, 0, k);
    assert(cs@.subrange(0, k as int) =~= s@.take(k as int));
    r.append(suffix);
    r
}

// ---------------------------------------------------------------------------
// What the operations are for
// ---------------------------------------------------------------------------

/// Trimming cuts white space off both ends, all of it, and nothing else. The result
/// is where the kept part begins and ends.
pub proof fn law_trim_cuts_blanks_alone(s: Seq<char>) -> (r: (int, int))
    ensures
        0 <= r.0 <= r.1 <= s.len(),
        trim(s) == s.subrange(r.0, r.1),
        forall|i: int| 0 <= i < r.0 ==> is_space(#[trigger] s[i]),
        forall|i: int| r.1 <= i < s.len() ==> is_space(#[trigger] s[i]),
        r.0 < r.1 ==> !is_space(s[r.0]) && !is_space(s[r.1 - 1]),
{
    let a = law_trim_start_cuts_blanks_alone(s);
    let t = trim_start(s);
    let b = law_trim_end_cuts_blanks_alone(t);
    assert forall|i: int| a + b <= i < s.len() implies is_space(#[trigger] s[i]) by {
        assert(t[i - a] == s[i]);
    }
    assert(t.take(b) =~= s.subrange(a, a + b));
    if b > 0 {
        assert(t[b - 1] == s[a + b - 1]);
        assert(t[0] == s[a]);
    }
    (a, a + b)
}

/// Trimming the start cuts the leading white space, all of it, and nothing else.
pub proof fn law_trim_start_cuts_blanks_alone(s: Seq<char>) -> (a: int)
    ensures
        0 <= a <= s.len(),
        trim_start(s) == s.skip(a),
        forall|i: int| 0 <= i < a ==> is_space(#[trigger] s[i]),
        a < s.len() ==> !is_space(s[a]),
    decreases s.len(),
{
    if s.len() > 0 && is_space(s[0]) {
        let d = s.drop_first();
        let b = law_trim_start_cuts_blanks_alone(d);
        assert(d.skip(b) =~= s.skip(b + 1));
        assert forall|i: int| 0 <= i < b + 1 implies is_space(#[trigger] s[i]) by {
            if i > 0 {
                assert(d[i - 1] == s[i]);
            }
        }
        b + 1
    } else {
        assert(s.skip(0) =~= s);
        0
    }
}

/// Trimming the end cuts the trailing white space, all of it, and nothing else.
pub proof fn law_trim_end_cuts_blanks_alone(s: Seq<char>) -> (b: int)
    ensures
        0 <= b <= s.len(),
        trim_end(s) == s.take(b),
        forall|i: int| b <= i < s.len() ==> is_space(#[trigger] s[i]),
        b > 0 ==> !is_space(s[b - 1]),
    decreases s.len(),
{
    if s.len() > 0 && is_space(s.last()) {
        let d = s.drop_last();
        let b = law_trim_end_cuts_blanks_alone(d);
        assert(d.take(b) =~= s.take(b));
        assert forall|i: int| b <= i < s.len() implies is_space(#[trigger] s[i]) by {
            if i < d.len() {
                assert(d[i] == s[i]);
            }
        }
        b
    } else {
        assert(s.take(s.len() as int) =~= s);
        s.len() as int
    }
}

/// The blanks that a keyboard gives are white space; no letter, digit or sign of
/// ASCII is.
pub proof fn law_white_space(c: char)
    ensures
        c == ' ' || c == '\t' || c == '\n' || c == '\r' ==> is_space(c),
        '!' <= c <= '~' ==> !is_space(c),
        (c as u32) == 0xa0 || (c as u32) == 0x2003 || (c as u32) == 0x3000 ==> is_space(c),
        (c as u32) > 0x3000 ==> !is_space(c),
{
}

/// A text is split at the first such character: what stands in front of it has none,
/// and both parts around it make up the whole.
pub proof fn law_split_first(s: Seq<char>, c: char)
    ensures
        forall|i: int| 0 <= i < split_first(s, c).0.len() ==> #[trigger] split_first(s, c).0[i] != c,
        match split_first(s, c).1 {
            Some(rest) => s == split_first(s, c).0.push(c) + rest,
            None => s == split_first(s, c).0,
        },
    decreases s.len(),
{
    if s.len() > 0 {
        let d = s.drop_first();
        if s[0] == c {
            assert(s =~= split_first(s, c).0.push(c) + d);
        } else {
            law_split_first(d, c);
            let (a, b) = split_first(d, c);
            assert(split_first(s, c).0 == seq![s[0]] + a);
            match b {
                Some(rest) => {
                    assert(d == a.push(c) + rest);
                    assert(s =~= seq![s[0]] + d);
                    assert((seq![s[0]] + a).push(c) + rest =~= seq![s[0]] + (a.push(c) + rest));
                },
                None => {
                    assert(s =~= seq![s[0]] + a);
                },
            }
        }
    }
}

/// The small letters of a text stand where its letters stood; everything but the
/// ASCII capitals is as it was.
pub proof fn law_ascii_lowercase(s: Seq<char>, i: int)
    requires
        0 <= i < s.len(),
    ensures
        ascii_lowercase(s).len() == s.len(),
        'A' <= s[i] <= 'Z' ==> ascii_lowercase(s)[i] as u32 == s[i] as u32 + 32,
        !('A' <= s[i] <= 'Z') ==> ascii_lowercase(s)[i] == s[i],
{
}

/// A text that is too long is cut as late as it can be: what is kept fits, one
/// character more would not, and the suffix follows. The result is how many
/// characters are kept.
pub proof fn law_truncated_keeps_what_fits(s: Seq<char>, cap: nat, suffix: Seq<char>) -> (k: int)
    ensures
        encode_utf8(s).len() <= cap ==> truncated(s, cap, suffix) == s,
        encode_utf8(s).len() > cap ==> {
            &&& 0 <= k < s.len()
            &&& truncated(s, cap, suffix) == s.take(k) + suffix
            &&& encode_utf8(s.take(k)).len() <= cap
            &&& encode_utf8(s.take(k + 1)).len() > cap
        },
{
    lemma_byte_len(s);
    lemma_fitting(s, cap);
    let k = fitting(s, cap) as int;
    lemma_byte_len(s.take(k));
    if k < s.len() {
        lemma_fitting_is_tight(s, cap);
        lemma_byte_len(s.take(k + 1));
    }
    k
}

proof fn lemma_fitting_is_tight(s: Seq<char>, cap: nat)
    requires
        fitting(s, cap) < s.len(),
    ensures
        byte_len(s.take(fitting(s, cap) as int + 1)) > cap,
    decreases s.len(),
{
    let k = fitting(s, cap) as int;
    let t = s.take(k + 1);
    assert(t[0] == s[0]);
    assert(byte_len(t) == utf8_width(t[0]) + byte_len(t.drop_first()));
    if utf8_width(s[0]) <= cap {
        let d = s.drop_first();
        let rest = (cap - utf8_width(s[0])) as nat;
        lemma_fitting_is_tight(d, rest);
        assert(t.drop_first() =~= d.take(fitting(d, rest) as int + 1));
    }
}

/// A number is read back from its notation, with a plus sign or without; a text with
/// any other character in it is no number.
pub proof fn law_numbers_are_read_back(n: usize, s: Seq<char>)
    ensures
        parse_size(decimal(n as nat)) == Some(n),
        parse_size(seq!['+'] + decimal(n as nat)) == Some(n),
        s.len() == 0 ==> parse_size(s) is None,
        (exists|i: int| 0 < i < s.len() && !('0' <= #[trigger] s[i] <= '9')) ==> parse_size(
            s,
        ) is None,
        s.len() > 0 && s[0] != '+' && !('0' <= s[0] <= '9') ==> parse_size(s) is None,
{
    let d = decimal(n as nat);
    law_decimal_value(n as nat);
    assert(d.len() > 0);
    assert(is_digit(d[0]));
    let p = seq!['+'] + d;
    assert(p.drop_first() =~= d);
    if exists|i: int| 0 < i < s.len() && !('0' <= #[trigger] s[i] <= '9') {
        let i = choose|i: int| 0 < i < s.len() && !('0' <= #[trigger] s[i] <= '9');
        if s[0] == '+' {
            assert(s.drop_first()[i - 1] == s[i]);
        }
    }
}

/// Joined texts follow one another with the separator between each two.
pub proof fn law_join(parts: Seq<Seq<char>>, last: Seq<char>, sep: Seq<char>)
    ensures
        join(Seq::<Seq<char>>::empty(), sep) == Seq::<char>::empty(),
        join(seq![last], sep) == last,
        parts.len() > 0 ==> join(parts.push(last), sep) == join(parts, sep) + sep + last,
{
    if parts.len() > 0 {
        assert(parts.push(last).drop_last() =~= parts);
    }
}

/// Two texts that differ in their middle alone differ.
pub proof fn lemma_middle_differs(a: Seq<char>, x: Seq<char>, y: Seq<char>, b: Seq<char>)
    requires
        x != y,
    ensures
        a + x + b != a + y + b,
{
    let p = a + x + b;
    let q = a + y + b;
    if p == q {
        assert(p.len() == q.len());
        assert(p.subrange(a.len() as int, (a.len() + x.len()) as int) =~= x);
        assert(q.subrange(a.len() as int, (a.len() + y.len()) as int) =~= y);
    }
}

/// A number's notation is that of its tens with the last digit behind it; a minus sign
/// stands in front of a negative one.
pub proof fn law_decimal_notation(tens: nat, d: nat)
    requires
        d < 10,
    ensures
        decimal(d) == seq![((48 + d) as u8) as char],
        tens > 0 ==> decimal(10 * tens + d) == decimal(tens).push(((48 + d) as u8) as char),
        decimal_signed(d as int) == decimal(d),
        tens > 0 ==> decimal_signed(-(tens as int)) == seq!['-'] + decimal(tens),
        decimal_signed(tens as int) == decimal(tens),
{
}

/// Digits denote a number place by place, and a text is read as a number exactly where it
/// is digits, behind a plus sign or not, and the number fits.
pub proof fn law_digits(s: Seq<char>, c: char)
    ensures
        digits_value(Seq::<char>::empty()) == 0,
        digits_value(s.push(c)) == 10 * digits_value(s) + ((c as u32) - 48) as nat,
        s.len() > 0 && (forall|i: int| 0 <= i < s.len() ==> '0' <= #[trigger] s[i] <= '9') ==> (
        if digits_value(s) <= usize::MAX {
            parse_size(s) == Some(digits_value(s) as usize) && parse_size(seq!['+'] + s) == Some(
                digits_value(s) as usize,
            )
        } else {
            parse_size(s) is None && parse_size(seq!['+'] + s) is None
        }),
{
    assert(s.push(c).drop_last() =~= s);
    assert((seq!['+'] + s).drop_first() =~= s);
    if s.len() > 0 && (forall|i: int| 0 <= i < s.len() ==> '0' <= #[trigger] s[i] <= '9') {
        assert('0' <= s[0] <= '9');
        assert(all_digits(s));
    }
}

/// Lists and options of texts are shown text by text.
pub proof fn law_texts_are_shown_one_by_one(v: Seq<String>, s: String, t: &str)
    ensures
        strs(v).len() == v.len(),
        forall|i: int| 0 <= i < v.len() ==> #[trigger] strs(v)[i] == v[i]@,
        opt(Some(s)) == Some(s@),
        opt(None) is None,
        opt_str(Some(t)) == Some(t@),
        opt_str(None) is None,
{
}

/// A text begins with another exactly where it is that text with something behind it,
/// which is then what follows the prefix.
pub proof fn law_prefix(s: Seq<char>, p: Seq<char>, rest: Seq<char>)
    ensures
        after_prefix(p + rest, p) == Some(rest),
        starts_with(p + rest, p),
        after_prefix(s, p) matches Some(r) ==> s == p + r,
        after_prefix(s, p) is None <==> !starts_with(s, p),
{
    assert((p + rest).take(p.len() as int) =~= p);
    assert((p + rest).skip(p.len() as int) =~= rest);
    if after_prefix(s, p) is Some {
        assert(s =~= s.take(p.len() as int) + s.skip(p.len() as int));
    }
}

} // verus!
