//! Character-level helpers shared by the protocol modules: conversions
//! between `str`, `String` and `Vec<char>`, searching, trimming,
//! splitting and decimal number parsing, each with its specification
//! over `Seq<char>`.

use vstd::prelude::*;
use vstd::utf8::{valid_utf8, decode_utf8};

verus! {

/// What `str::to_lowercase` returns for a given sequence of characters
/// (full Unicode case mapping).
pub uninterp spec fn lowercase(s: Seq<char>) -> Seq<char>;

/// What `str::to_uppercase` returns for a given sequence of characters
/// (full Unicode case mapping).
pub uninterp spec fn uppercase(s: Seq<char>) -> Seq<char>;

/// Every character is ASCII.
pub open spec fn is_ascii_text(s: Seq<char>) -> bool {
    forall|i: int| 0 <= i < s.len() ==> (#[trigger] s[i] as u32) < 128
}

/// An ASCII capital letter in small form; any other character as it is.
pub open spec fn ascii_lower_char(c: char) -> char {
    if 'A' <= c <= 'Z' {
        ((c as u32) + 32) as char
    } else {
        c
    }
}

/// An ASCII small letter in capital form; any other character as it is.
pub open spec fn ascii_upper_char(c: char) -> char {
    if 'a' <= c <= 'z' {
        ((c as u32) - 32) as char
    } else {
        c
    }
}

/// The text with its ASCII capital letters made small.
pub open spec fn ascii_lower(s: Seq<char>) -> Seq<char> {
    s.map_values(|c: char| ascii_lower_char(c))
}

/// The text with its ASCII small letters made capital.
pub open spec fn ascii_upper(s: Seq<char>) -> Seq<char> {
    s.map_values(|c: char| ascii_upper_char(c))
}

/// Calls `str::to_lowercase`; the result is named `lowercase` of the input.
/// On ASCII text, as the documentation of `char::to_lowercase` gives it,
/// only the capital letters A to Z change, each to its small letter.
#[verifier::external_body]
pub(crate) fn to_lowercase(s: &str) -> (r: String)
    ensures
        r@ == lowercase(s@),
        is_ascii_text(s@) ==> r@ == ascii_lower(s@),
{
    s.to_lowercase()
}

/// Calls `str::to_uppercase`; the result is named `uppercase` of the input.
/// On ASCII text, as the documentation of `char::to_uppercase` gives it,
/// only the small letters a to z change, each to its capital letter.
#[verifier::external_body]
pub(crate) fn to_uppercase(s: &str) -> (r: String)
    ensures
        r@ == uppercase(s@),
        is_ascii_text(s@) ==> r@ == ascii_upper(s@),
{
    s.to_uppercase()
}

/// Calls `String::push`, which appends one character.
#[verifier::external_body]
pub(crate) fn push_char(s: &mut String, c: char)
    ensures
        final(s)@ == old(s)@.push(c),
{
    s.push(c)
}

/// The characters of a string slice, in order.
pub fn str_chars(s: &str) -> (r: Vec<char>)
    ensures
        r@ == s@,
{
    let n = s.unicode_len();
    let mut v: Vec<char> = Vec::new();
    let mut i: usize = 0;
    while i < n
        invariant
            i <= n,
            n == s@.len(),
            v@ == s@.subrange(0, i as int),
        decreases n - i,
    {
        v.push(s.get_char(i));
        i = i + 1;
    }
    v
}

/// A string made of the given characters.
pub fn string_from_chars(v: &[char]) -> (r: String)
    ensures
        r@ == v@,
{
    let mut s = String::new();
    let mut i: usize = 0;
    while i < v.len()
        invariant
            i <= v.len(),
            s@ == v@.subrange(0, i as int),
        decreases v.len() - i,
    {
        push_char(&mut s, v[i]);
        i = i + 1;
    }
    s
}

/// A copy of a string slice as an owned `String`.
pub fn str_to_string(s: &str) -> (r: String)
    ensures
        r@ == s@,
{
    let v = str_chars(s);
    string_from_chars(v.as_slice())
}

/// A copy of a string.
pub fn copy_string(s: &String) -> (r: String)
    ensures
        r@ == s@,
{
    s.clone()
}

/// Whether two character sequences are equal, computed element by element.
pub fn chars_equal(a: &[char], b: &[char]) -> (r: bool)
    ensures
        r == (a@ == b@),
{
    if a.len() != b.len() {
        return false;
    }
    let mut i: usize = 0;
    while i < a.len()
        invariant
            i <= a.len(),
            a.len() == b.len(),
            a@.subrange(0, i as int) == b@.subrange(0, i as int),
        decreases a.len() - i,
    {
        if a[i] != b[i] {
            assert(a@[i as int] != b@[i as int]);
            return false;
        }
        assert(a@.subrange(0, i + 1) == a@.subrange(0, i as int).push(a@[i as int]));
        assert(b@.subrange(0, i + 1) == b@.subrange(0, i as int).push(b@[i as int]));
        i = i + 1;
    }
    assert(a@ == a@.subrange(0, a@.len() as int));
    assert(b@ == b@.subrange(0, b@.len() as int));
    true
}

/// Whether two string slices hold the same characters.
pub fn str_equal(a: &str, b: &str) -> (r: bool)
    ensures
        r == (a@ == b@),
{
    let va = str_chars(a);
    let vb = str_chars(b);
    chars_equal(va.as_slice(), vb.as_slice())
}

/// `p` is a prefix of `s`.
pub open spec fn has_prefix(s: Seq<char>, p: Seq<char>) -> bool {
    p.len() <= s.len() && s.subrange(0, p.len() as int) == p
}

/// `p` is a suffix of `s`.
pub open spec fn has_suffix(s: Seq<char>, p: Seq<char>) -> bool {
    p.len() <= s.len() && s.subrange(s.len() - p.len(), s.len() as int) == p
}

/// `needle` occurs in `hay` starting at position `i`.
pub open spec fn occurs_at(hay: Seq<char>, needle: Seq<char>, i: int) -> bool {
    0 <= i && i + needle.len() <= hay.len() && hay.subrange(i, i + needle.len()) == needle
}

/// `needle` occurs somewhere in `hay`.
pub open spec fn contains_seq(hay: Seq<char>, needle: Seq<char>) -> bool {
    exists|i: int| occurs_at(hay, needle, i)
}

/// Whether `needle` occurs in `hay` at position `i` (computed).
pub fn chars_occur_at(hay: &[char], needle: &[char], i: usize) -> (r: bool)
    ensures
        r == occurs_at(hay@, needle@, i as int),
{
    if i > hay.len() || needle.len() > hay.len() - i {
        return false;
    }
    let mut k: usize = 0;
    while k < needle.len()
        invariant
            k <= needle.len(),
            i + needle.len() <= hay.len(),
            forall|j: int| 0 <= j < k ==> hay@[i + j] == needle@[j],
        decreases needle.len() - k,
    {
        if hay[i + k] != needle[k] {
            assert(hay@.subrange(i as int, i + needle.len())[k as int] != needle@[k as int]);
            return false;
        }
        k = k + 1;
    }
    assert(hay@.subrange(i as int, i + needle.len()) =~= needle@);
    true
}

/// Whether `p` is a prefix of `s`.
pub fn chars_start_with(s: &[char], p: &[char]) -> (r: bool)
    ensures
        r == has_prefix(s@, p@),
{
    chars_occur_at(s, p, 0)
}

/// Whether `p` is a suffix of `s`.
pub fn chars_end_with(s: &[char], p: &[char]) -> (r: bool)
    ensures
        r == has_suffix(s@, p@),
{
    if p.len() > s.len() {
        return false;
    }
    chars_occur_at(s, p, s.len() - p.len())
}

/// Whether `needle` occurs anywhere in `hay`.
pub fn chars_contain(hay: &[char], needle: &[char]) -> (r: bool)
    ensures
        r == contains_seq(hay@, needle@),
{
    if needle.len() > hay.len() {
        return false;
    }
    let last = hay.len() - needle.len();
    let mut i: usize = 0;
    loop
        invariant
            i <= last,
            last == hay.len() - needle.len(),
            forall|j: int| 0 <= j < i ==> !occurs_at(hay@, needle@, j),
        ensures
            forall|j: int| 0 <= j <= last ==> !occurs_at(hay@, needle@, j),
        decreases last - i,
    {
        if chars_occur_at(hay, needle, i) {
            return true;
        }
        if i == last {
            break;
        }
        i = i + 1;
    }
    assert forall|j: int| !occurs_at(hay@, needle@, j) by {
        if j > last {
            assert(j + needle@.len() > hay@.len());
        }
    }
    false
}

/// Whether the string slice `s` starts with `p`.
pub fn str_starts_with(s: &str, p: &str) -> (r: bool)
    ensures
        r == has_prefix(s@, p@),
{
    let vs = str_chars(s);
    let vp = str_chars(p);
    chars_start_with(vs.as_slice(), vp.as_slice())
}

/// Whether `s` ends with `p`.
pub fn str_ends_with(s: &str, p: &str) -> (r: bool)
    ensures
        r == has_suffix(s@, p@),
{
    let vs = str_chars(s);
    let vp = str_chars(p);
    chars_end_with(vs.as_slice(), vp.as_slice())
}

/// The position of the first occurrence of `c` in `s`, if any.
pub open spec fn first_index_of(s: Seq<char>, c: char) -> Option<int> {
    if exists|i: int| 0 <= i < s.len() && s[i] == c {
        Some(choose|i: int| 0 <= i < s.len() && s[i] == c && forall|j: int| 0 <= j < i ==> s[j] != c)
    } else {
        None
    }
}

/// Finds the first occurrence of `c` in `s`.
pub fn find_char(s: &[char], c: char) -> (r: Option<usize>)
    ensures
        match r {
            Some(i) => i < s@.len() && s@[i as int] == c && forall|j: int| 0 <= j < i ==> s@[j] != c,
            None => forall|j: int| 0 <= j < s@.len() ==> s@[j] != c,
        },
        r matches Some(i) ==> first_index_of(s@, c) == Some(i as int),
        r is None ==> first_index_of(s@, c) is None,
{
    let mut i: usize = 0;
    while i < s.len()
        invariant
            i <= s.len(),
            forall|j: int| 0 <= j < i ==> s@[j] != c,
        decreases s.len() - i,
    {
        if s[i] == c {
            let ghost w = choose|k: int| 0 <= k < s@.len() && s@[k] == c && forall|j: int| 0 <= j < k ==> s@[j] != c;
            assert(0 <= i < s@.len() && s@[i as int] == c && forall|j: int| 0 <= j < i ==> s@[j] != c);
            proof {
                let w = choose|k: int| 0 <= k < s@.len() && s@[k] == c && forall|j: int| 0 <= j < k ==> s@[j] != c;
                if w < i {
                    assert(s@[w] != c);
                } else if w > i {
                    assert(s@[i as int] != c);
                }
            }
            return Some(i);
        }
        i = i + 1;
    }
    None
}

/// A copy of the characters `s[lo..hi]`.
pub fn slice_chars(s: &[char], lo: usize, hi: usize) -> (r: Vec<char>)
    requires
        lo <= hi <= s@.len(),
    ensures
        r@ == s@.subrange(lo as int, hi as int),
{
    let mut v: Vec<char> = Vec::new();
    let mut i: usize = lo;
    while i < hi
        invariant
            lo <= i <= hi,
            hi <= s@.len(),
            v@ == s@.subrange(lo as int, i as int),
        decreases hi - i,
    {
        v.push(s[i]);
        i = i + 1;
    }
    v
}

/// The string `s[lo..hi]`.
pub fn substring(s: &[char], lo: usize, hi: usize) -> (r: String)
    requires
        lo <= hi <= s@.len(),
    ensures
        r@ == s@.subrange(lo as int, hi as int),
{
    let v = slice_chars(s, lo, hi);
    string_from_chars(v.as_slice())
}

/// Concatenation of two character slices.
pub fn concat_chars(a: &[char], b: &[char]) -> (r: Vec<char>)
    ensures
        r@ == a@ + b@,
{
    let mut v = slice_chars(a, 0, a.len());
    assert(a@.subrange(0, a@.len() as int) == a@);
    let mut i: usize = 0;
    while i < b.len()
        invariant
            i <= b.len(),
            v@ == a@ + b@.subrange(0, i as int),
        decreases b.len() - i,
    {
        v.push(b[i]);
        i = i + 1;
        assert(a@ + b@.subrange(0, i as int) == (a@ + b@.subrange(0, i - 1)).push(b@[i - 1]));
    }
    assert(b@.subrange(0, b@.len() as int) == b@);
    v
}

/// The characters of `a` followed by those of `b`, as a `String`.
pub fn concat_str(a: &str, b: &str) -> (r: String)
    ensures
        r@ == a@ + b@,
{
    let ca = str_chars(a);
    let cb = str_chars(b);
    let v = concat_chars(ca.as_slice(), cb.as_slice());
    string_from_chars(v.as_slice())
}

/// Appends the characters of `t` to `s`.
pub fn push_str(s: &mut String, t: &str)
    ensures
        final(s)@ == old(s)@ + t@,
{
    let chars = str_chars(t);
    let ghost start = s@;
    let mut i: usize = 0;
    while i < chars.len()
        invariant
            i <= chars@.len(),
            chars@ == t@,
            s@ == start + t@.subrange(0, i as int),
        decreases chars@.len() - i,
    {
        push_char(s, chars[i]);
        i = i + 1;
        assert(start + t@.subrange(0, i as int) =~= (start + t@.subrange(0, i - 1)).push(t@[i - 1]));
    }
    assert(t@.subrange(0, t@.len() as int) =~= t@);
}

/// The strings of `v` with `sep` between each two neighbours.
pub open spec fn join_strs(v: Seq<Seq<char>>, sep: Seq<char>) -> Seq<char>
    decreases v.len(),
{
    if v.len() == 0 {
        Seq::empty()
    } else if v.len() == 1 {
        v[0]
    } else {
        join_strs(v.drop_last(), sep) + sep + v.last()
    }
}

/// Joins the strings of `v` with `sep` between each two neighbours, as `join` does.
pub fn join_strings(v: &Vec<String>, sep: &str) -> (r: String)
    ensures
        r@ == join_strs(v@.map_values(|x: String| x@), sep@),
{
    let ghost w = v@.map_values(|x: String| x@);
    if v.len() == 0 {
        return String::new();
    }
    let mut out = copy_string(&v[0]);
    assert(w.subrange(0, 1).len() == 1);
    let mut i: usize = 1;
    while i < v.len()
        invariant
            1 <= i <= v@.len(),
            w == v@.map_values(|x: String| x@),
            out@ == join_strs(w.subrange(0, i as int), sep@),
        decreases v@.len() - i,
    {
        push_str(&mut out, sep);
        push_str(&mut out, v[i].as_str());
        proof {
            let p = w.subrange(0, i + 1);
            assert(p.drop_last() =~= w.subrange(0, i as int));
            assert(p.last() == v@[i as int]@);
        }
        i = i + 1;
    }
    assert(w.subrange(0, v@.len() as int) =~= w);
    out
}

/// The decimal digit for `d`, below ten.
pub open spec fn digit_char(d: nat) -> char {
    if d == 0 { '0' } else if d == 1 { '1' } else if d == 2 { '2' } else if d == 3 { '3' } else if d == 4 {
        '4'
    } else if d == 5 { '5' } else if d == 6 { '6' } else if d == 7 { '7' } else if d == 8 { '8' } else { '9' }
}

/// The decimal notation of `n`, without leading zeros.
pub open spec fn decimal(n: nat) -> Seq<char>
    decreases n,
{
    if n < 10 {
        seq![digit_char(n)]
    } else {
        decimal(n / 10).push(digit_char(n % 10))
    }
}

fn digit(d: u64) -> (c: char)
    requires
        d < 10,
    ensures
        c == digit_char(d as nat),
{
    if d == 0 { '0' } else if d == 1 { '1' } else if d == 2 { '2' } else if d == 3 { '3' } else if d == 4 {
        '4'
    } else if d == 5 { '5' } else if d == 6 { '6' } else if d == 7 { '7' } else if d == 8 { '8' } else { '9' }
}

/// The decimal notation of `n`, as `to_string` writes an unsigned integer.
pub fn decimal_string(n: u128) -> (r: String)
    ensures
        r@ == decimal(n as nat),
    decreases n,
{
    if n < 10 {
        let mut s = String::new();
        push_char(&mut s, digit(n as u64));
        assert(s@ =~= seq![digit_char(n as nat)]);
        s
    } else {
        let mut s = decimal_string(n / 10);
        push_char(&mut s, digit((n % 10) as u64));
        s
    }
}

/// Reading back the decimal notation of a number gives the number.
pub proof fn lemma_decimal_roundtrip(n: nat)
    ensures
        all_digits(decimal(n)),
        decimal(n).len() > 0,
        digits_value(decimal(n)) == n,
    decreases n,
{
    let k = n % 10;
    assert(((digit_char(k) as u32) - ('0' as u32)) as nat == k && is_digit(digit_char(k))) by {
        if k == 0 {} else if k == 1 {} else if k == 2 {} else if k == 3 {} else if k == 4 {}
        else if k == 5 {} else if k == 6 {} else if k == 7 {} else if k == 8 {} else {}
    }
    let d = decimal(n);
    if n >= 10 {
        lemma_decimal_roundtrip(n / 10);
        assert(d.drop_last() =~= decimal(n / 10));
    } else {
        assert(d.drop_last() =~= Seq::<char>::empty());
    }
    assert(d.last() == digit_char(k));
    assert(digits_value(d) == digits_value(d.drop_last()) * 10 + k);
    if n >= 10 {
        assert(digits_value(d.drop_last()) == n / 10);
        assert(n == (n / 10) * 10 + k);
    }
}

/// The pieces of `s` between occurrences of `sep`, as `str::split` gives
/// them: one more piece than there are separators, empty pieces included.
pub open spec fn split_on(s: Seq<char>, sep: char) -> Seq<Seq<char>>
    decreases s.len(),
{
    if s.len() == 0 {
        seq![Seq::empty()]
    } else {
        let rest = split_on(s.drop_last(), sep);
        if s.last() == sep {
            rest.push(Seq::empty())
        } else {
            rest.update(rest.len() - 1, rest.last().push(s.last()))
        }
    }
}

/// Splitting always gives at least one piece.
pub proof fn lemma_split_nonempty(s: Seq<char>, sep: char)
    ensures
        split_on(s, sep).len() >= 1,
    decreases s.len(),
{
    if s.len() > 0 {
        lemma_split_nonempty(s.drop_last(), sep);
    }
}

/// Splits `s` at each occurrence of `sep`.
pub fn split_chars(s: &[char], sep: char) -> (r: Vec<Vec<char>>)
    ensures
        r@.map_values(|v: Vec<char>| v@) == split_on(s@, sep),
{
    let mut pieces: Vec<Vec<char>> = Vec::new();
    let mut cur: Vec<char> = Vec::new();
    let mut i: usize = 0;
    assert(s@.subrange(0, 0) =~= Seq::<char>::empty());
    assert(pieces@.map_values(|v: Vec<char>| v@).push(cur@) =~= split_on(s@.subrange(0, 0), sep));
    while i < s.len()
        invariant
            i <= s@.len(),
            pieces@.map_values(|v: Vec<char>| v@).push(cur@) == split_on(s@.subrange(0, i as int), sep),
        decreases s@.len() - i,
    {
        let ghost prefix = s@.subrange(0, i + 1);
        proof {
            assert(prefix.drop_last() =~= s@.subrange(0, i as int));
            assert(prefix.last() == s@[i as int]);
            lemma_split_nonempty(prefix.drop_last(), sep);
        }
        let ghost before = pieces@.map_values(|v: Vec<char>| v@);
        if s[i] == sep {
            let mut done: Vec<char> = Vec::new();
            std::mem::swap(&mut done, &mut cur);
            pieces.push(done);
            assert(pieces@.map_values(|v: Vec<char>| v@) =~= before.push(done@));
            assert(pieces@.map_values(|v: Vec<char>| v@).push(cur@) =~= split_on(prefix, sep));
        } else {
            cur.push(s[i]);
            assert(pieces@.map_values(|v: Vec<char>| v@).push(cur@) =~= split_on(prefix, sep));
        }
        i = i + 1;
    }
    pieces.push(cur);
    assert(s@.subrange(0, s@.len() as int) =~= s@);
    pieces
}

/// The Unicode `White_Space` property, which `char::is_whitespace` tests.
pub open spec fn is_whitespace(c: char) -> bool {
    let x = c as u32;
    (0x09 <= x && x <= 0x0D) || x == 0x20 || x == 0x85 || x == 0xA0 || x == 0x1680
        || (0x2000 <= x && x <= 0x200A) || x == 0x2028 || x == 0x2029 || x == 0x202F
        || x == 0x205F || x == 0x3000
}

/// Tests the Unicode `White_Space` property of a character.
pub fn char_is_whitespace(c: char) -> (r: bool)
    ensures
        r == is_whitespace(c),
{
    let x = c as u32;
    (0x09 <= x && x <= 0x0D) || x == 0x20 || x == 0x85 || x == 0xA0 || x == 0x1680 || (0x2000
        <= x && x <= 0x200A) || x == 0x2028 || x == 0x2029 || x == 0x202F || x == 0x205F || x
        == 0x3000
}

/// Number of leading whitespace characters of `s`.
pub open spec fn leading_ws(s: Seq<char>) -> nat
    decreases s.len(),
{
    if s.len() > 0 && is_whitespace(s[0]) {
        1 + leading_ws(s.drop_first())
    } else {
        0
    }
}

/// Number of trailing whitespace characters of `s`.
pub open spec fn trailing_ws(s: Seq<char>) -> nat
    decreases s.len(),
{
    if s.len() > 0 && is_whitespace(s.last()) {
        1 + trailing_ws(s.drop_last())
    } else {
        0
    }
}

/// `s` without its leading whitespace.
pub open spec fn trim_start(s: Seq<char>) -> Seq<char>
    decreases s.len(),
{
    if s.len() > 0 && is_whitespace(s[0]) {
        trim_start(s.drop_first())
    } else {
        s
    }
}

/// `s` without its trailing whitespace.
pub open spec fn trim_end(s: Seq<char>) -> Seq<char>
    decreases s.len(),
{
    if s.len() > 0 && is_whitespace(s.last()) {
        trim_end(s.drop_last())
    } else {
        s
    }
}

/// `s` without leading and trailing whitespace, as `str::trim` gives it.
pub open spec fn trim(s: Seq<char>) -> Seq<char> {
    trim_end(trim_start(s))
}

proof fn lemma_trim_start_skip(s: Seq<char>, i: int)
    requires
        0 <= i <= s.len(),
        forall|j: int| 0 <= j < i ==> is_whitespace(s[j]),
    ensures
        trim_start(s) == trim_start(s.subrange(i, s.len() as int)),
    decreases i,
{
    if i > 0 {
        assert(is_whitespace(s[0]));
        let t = s.drop_first();
        assert forall|j: int| 0 <= j < i - 1 implies is_whitespace(t[j]) by {
            assert(t[j] == s[j + 1]);
        }
        lemma_trim_start_skip(t, i - 1);
        assert(t.subrange(i - 1, t.len() as int) == s.subrange(i, s.len() as int));
    } else {
        assert(s.subrange(0, s.len() as int) == s);
    }
}

proof fn lemma_trim_end_skip(s: Seq<char>, i: int)
    requires
        0 <= i <= s.len(),
        forall|j: int| i <= j < s.len() ==> is_whitespace(s[j]),
    ensures
        trim_end(s) == trim_end(s.subrange(0, i)),
    decreases s.len() - i,
{
    if i < s.len() {
        assert(is_whitespace(s.last()));
        let t = s.drop_last();
        lemma_trim_end_skip(t, i);
        assert(t.subrange(0, i) == s.subrange(0, i));
    } else {
        assert(s.subrange(0, s.len() as int) == s);
    }
}

/// The characters of `s` with leading and trailing whitespace removed.
pub fn trim_chars(s: &[char]) -> (r: Vec<char>)
    ensures
        r@ == trim(s@),
{
    let mut lo: usize = 0;
    while lo < s.len() && char_is_whitespace(s[lo])
        invariant
            lo <= s.len(),
            forall|j: int| 0 <= j < lo ==> is_whitespace(s@[j]),
        decreases s.len() - lo,
    {
        lo = lo + 1;
    }
    proof {
        lemma_trim_start_skip(s@, lo as int);
    }
    let ghost mid = s@.subrange(lo as int, s@.len() as int);
    assert(lo < s.len() ==> !is_whitespace(mid[0]));
    assert(trim_start(mid) == mid);
    let mut hi: usize = s.len();
    while hi > lo && char_is_whitespace(s[hi - 1])
        invariant
            lo <= hi <= s.len(),
            forall|j: int| hi <= j < s.len() ==> is_whitespace(s@[j]),
        decreases hi,
    {
        hi = hi - 1;
    }
    proof {
        let k = hi - lo;
        assert forall|j: int| k <= j < mid.len() implies is_whitespace(mid[j]) by {
            assert(mid[j] == s@[lo + j]);
        }
        lemma_trim_end_skip(mid, k);
        let m2 = mid.subrange(0, k);
        assert(m2 == s@.subrange(lo as int, hi as int));
        assert(m2.len() > 0 ==> m2.last() == s@[hi - 1]);
        assert(trim_end(m2) == m2);
    }
    slice_chars(s, lo, hi)
}

/// Decimal value of a string of ASCII digits.
pub open spec fn digits_value(s: Seq<char>) -> nat
    decreases s.len(),
{
    if s.len() == 0 {
        0
    } else {
        digits_value(s.drop_last()) * 10 + ((s.last() as u32) - ('0' as u32)) as nat
    }
}

/// `c` is an ASCII decimal digit.
pub open spec fn is_digit(c: char) -> bool {
    '0' <= c && c <= '9'
}

/// Every character of `s` is an ASCII decimal digit.
pub open spec fn all_digits(s: Seq<char>) -> bool {
    forall|i: int| 0 <= i < s.len() ==> is_digit(s[i])
}

/// The digits part of an unsigned number: `s` without one leading `+`.
pub open spec fn unsigned_digits(s: Seq<char>) -> Seq<char> {
    if s.len() > 0 && s[0] == '+' {
        s.drop_first()
    } else {
        s
    }
}

/// What `str::parse` gives for an unsigned integer type whose largest value is
/// `max`: an optional `+`, then one or more ASCII digits whose value is at most `max`.
pub open spec fn parse_unsigned(s: Seq<char>, max: nat) -> Option<nat> {
    let d = unsigned_digits(s);
    if d.len() > 0 && all_digits(d) && digits_value(d) <= max {
        Some(digits_value(d))
    } else {
        None
    }
}

proof fn lemma_digits_value_monotone(s: Seq<char>, i: int)
    requires
        0 <= i <= s.len(),
        all_digits(s),
    ensures
        digits_value(s.subrange(0, i)) <= digits_value(s),
    decreases s.len() - i,
{
    if i < s.len() {
        lemma_digits_value_monotone(s, i + 1);
        let t = s.subrange(0, i + 1);
        assert(t.drop_last() == s.subrange(0, i));
        assert(is_digit(t.last()));
    } else {
        assert(s.subrange(0, s.len() as int) == s);
    }
}

/// Parses an unsigned decimal number no larger than `max`, as `str::parse` does
/// for an unsigned integer type with that largest value.
pub fn parse_unsigned_chars(s: &[char], max: u64) -> (r: Option<u64>)
    ensures
        match parse_unsigned(s@, max as nat) {
            Some(v) => r == Some(v as u64),
            None => r is None,
        },
{
    let start: usize = if s.len() > 0 && s[0] == '+' {
        1
    } else {
        0
    };
    let ghost d = unsigned_digits(s@);
    assert(d == s@.subrange(start as int, s@.len() as int));
    if start == s.len() {
        return None;
    }
    let mut acc: u64 = 0;
    let mut i: usize = start;
    while i < s.len()
        invariant
            start <= i <= s.len(),
            d == unsigned_digits(s@),
            d == s@.subrange(start as int, s@.len() as int),
            forall|j: int| start <= j < i ==> is_digit(s@[j]),
            acc == digits_value(s@.subrange(start as int, i as int)),
            acc <= max,
        decreases s.len() - i,
    {
        let c = s[i];
        let ghost pre = s@.subrange(start as int, i as int);
        let ghost next = s@.subrange(start as int, i + 1);
        assert(next.drop_last() == pre);
        if !('0' <= c && c <= '9') {
            assert(!is_digit(d[i - start]));
            assert(!all_digits(d));
            return None;
        }
        let dv: u64 = ((c as u32) - ('0' as u32)) as u64;
        assert(digits_value(next) == acc * 10 + dv);
        if dv > max || acc > (max - dv) / 10 {
            proof {
                if dv <= max {
                    assert(acc * 10 + dv > max) by (nonlinear_arith)
                        requires
                            acc > (max - dv) / 10,
                            dv <= max,
                    ;
                }
                if all_digits(d) {
                    assert(next == d.subrange(0, i + 1 - start));
                    lemma_digits_value_monotone(d, i + 1 - start);
                    assert(digits_value(d) > max);
                }
                assert(parse_unsigned(s@, max as nat) is None);
            }
            return None;
        }
        proof {
            assert(acc * 10 + dv <= max) by (nonlinear_arith)
                requires
                    acc <= (max - dv) / 10,
                    dv <= max,
                    acc >= 0,
            ;
        }
        acc = acc * 10 + dv;
        i = i + 1;
    }
    assert(s@.subrange(start as int, s@.len() as int) == d);
    Some(acc)
}

/// The end of the run of non-whitespace characters that starts at `i`.
pub open spec fn word_end(s: Seq<char>, i: int) -> int
    decreases s.len() - i,
{
    if i < 0 || i >= s.len() || is_whitespace(s[i]) {
        i
    } else {
        word_end(s, i + 1)
    }
}

/// The whitespace-separated words of `s` from position `i` on, as
/// `str::split_whitespace` yields them.
pub open spec fn words_from(s: Seq<char>, i: int) -> Seq<Seq<char>>
    decreases s.len() - i,
{
    if i < 0 || i >= s.len() {
        Seq::empty()
    } else if is_whitespace(s[i]) {
        words_from(s, i + 1)
    } else {
        let j = word_end(s, i);
        if j <= i || j > s.len() {
            Seq::empty()
        } else {
            seq![s.subrange(i, j)] + words_from(s, j)
        }
    }
}

/// The whitespace-separated words of `s`.
pub open spec fn words(s: Seq<char>) -> Seq<Seq<char>> {
    words_from(s, 0)
}

proof fn lemma_word_end(s: Seq<char>, i: int, j: int)
    requires
        0 <= i <= j <= s.len(),
        forall|k: int| i <= k < j ==> !is_whitespace(s[k]),
        j == s.len() || is_whitespace(s[j]),
    ensures
        word_end(s, i) == j,
    decreases j - i,
{
    if i < j {
        lemma_word_end(s, i + 1, j);
    }
}

/// The characters of the words, each as its own vector.
pub open spec fn views_of(v: Seq<Vec<char>>) -> Seq<Seq<char>> {
    v.map_values(|w: Vec<char>| w@)
}

/// Splits `s` into its whitespace-separated words.
pub fn split_whitespace_chars(s: &[char]) -> (r: Vec<Vec<char>>)
    ensures
        views_of(r@) == words(s@),
{
    let mut out: Vec<Vec<char>> = Vec::new();
    let mut i: usize = 0;
    while i < s.len()
        invariant
            i <= s.len(),
            words(s@) == views_of(out@) + words_from(s@, i as int),
        decreases s.len() - i,
    {
        if char_is_whitespace(s[i]) {
            i = i + 1;
        } else {
            let mut j: usize = i;
            while j < s.len() && !char_is_whitespace(s[j])
                invariant
                    i <= j <= s.len(),
                    forall|k: int| i <= k < j ==> !is_whitespace(s@[k]),
                decreases s.len() - j,
            {
                j = j + 1;
            }
            proof {
                lemma_word_end(s@, i as int, j as int);
            }
            let w = slice_chars(s, i, j);
            let ghost before = out@;
            out.push(w);
            assert(views_of(out@) == views_of(before) + seq![w@]) by {
                assert(views_of(out@) =~= views_of(before).push(w@));
            }
            assert(views_of(out@) + words_from(s@, j as int) == views_of(before) + words_from(
                s@,
                i as int,
            ));
            i = j;
        }
    }
    assert(words_from(s@, i as int) == Seq::<Seq<char>>::empty());
    assert(views_of(out@) + Seq::<Seq<char>>::empty() == views_of(out@));
    out
}

/// The words joined with single spaces, as `[&str]::join(" ")` gives them.
pub open spec fn join_with_space(ws: Seq<Seq<char>>) -> Seq<char>
    decreases ws.len(),
{
    if ws.len() == 0 {
        Seq::empty()
    } else if ws.len() == 1 {
        ws[0]
    } else {
        join_with_space(ws.drop_last()) + seq![' '] + ws.last()
    }
}

/// Joins the words `ws[from..]` with single spaces.
pub fn join_words_from(ws: &Vec<Vec<char>>, from: usize) -> (r: Vec<char>)
    requires
        from <= ws@.len(),
    ensures
        r@ == join_with_space(views_of(ws@).subrange(from as int, ws@.len() as int)),
{
    let mut out: Vec<char> = Vec::new();
    let mut i: usize = from;
    while i < ws.len()
        invariant
            from <= i <= ws@.len(),
            out@ == join_with_space(views_of(ws@).subrange(from as int, i as int)),
        decreases ws@.len() - i,
    {
        let ghost part = views_of(ws@).subrange(from as int, i + 1);
        assert(part.drop_last() == views_of(ws@).subrange(from as int, i as int));
        assert(part.last() == ws@[i as int]@);
        if i > from {
            out.push(' ');
        } else {
            assert(part.len() == 1);
        }
        let piece = &ws[i];
        out = concat_chars(out.as_slice(), piece.as_slice());
        i = i + 1;
    }
    out
}

/// What the `std::str::Utf8Error` for bytes that are not valid UTF-8 writes
/// (where the valid prefix ends and how long the bad sequence is).
pub uninterp spec fn utf8_error_text(b: Seq<u8>) -> Seq<char>;

/// Calls `std::str::from_utf8`: the bytes are accepted exactly when they are
/// valid UTF-8, and then read as the characters they encode; otherwise the
/// error's text, which depends on the bytes alone.
#[verifier::external_body]
pub(crate) fn utf8_str(b: &[u8]) -> (r: std::result::Result<&str, String>)
    ensures
        r is Ok <==> valid_utf8(b@),
        r matches Ok(s) ==> s@ == decode_utf8(b@),
        r matches Err(m) ==> m@ == utf8_error_text(b@),
{
    std::str::from_utf8(b).map_err(|e| e.to_string())
}

/// What the `std::num::ParseIntError` writes for text that `str::parse::<u16>`
/// refuses (empty text, a character that is not a digit, or a value too large).
pub uninterp spec fn u16_parse_error_text(s: Seq<char>) -> Seq<char>;

/// Calls `str::parse::<u16>`: an optional `+` followed by one or more ASCII
/// digits whose value fits in a `u16` is read as that value; any other text
/// gives the error's text, which depends on the text alone.
#[verifier::external_body]
pub(crate) fn parse_u16(s: &str) -> (r: std::result::Result<u16, String>)
    ensures
        match parse_unsigned(s@, 65535) {
            Some(v) => r matches Ok(x) && x == v,
            None => r matches Err(m) && m@ == u16_parse_error_text(s@),
        },
{
    s.parse::<u16>().map_err(|e| e.to_string())
}

/// A copy of the bytes `b[lo..hi]`.
pub fn byte_range(b: &[u8], lo: usize, hi: usize) -> (r: Vec<u8>)
    requires
        lo <= hi <= b@.len(),
    ensures
        r@ == b@.subrange(lo as int, hi as int),
{
    let mut v: Vec<u8> = Vec::new();
    let mut i: usize = lo;
    while i < hi
        invariant
            lo <= i <= hi,
            hi <= b@.len(),
            v@ == b@.subrange(lo as int, i as int),
        decreases hi - i,
    {
        v.push(b[i]);
        i = i + 1;
    }
    v
}

} // verus!
