//! Character-level string helpers with specifications over `Seq<char>`.

use vstd::prelude::*;
use vstd::string::*;

verus! {

broadcast use vstd::seq_lib::group_seq_properties;

/// Unicode `White_Space` property, as used by `char::is_whitespace`.
pub open spec fn is_ws(c: char) -> bool {
    let u = c as u32;
    (9 <= u <= 13) || u == 32 || u == 0x85 || u == 0xa0 || u == 0x1680 || (0x2000 <= u
        <= 0x200a) || u == 0x2028 || u == 0x2029 || u == 0x202f || u == 0x205f || u == 0x3000
}

pub fn char_is_whitespace(c: char) -> (r: bool)
    ensures
        r == is_ws(c),
{
    let u = c as u32;
    (9 <= u && u <= 13) || u == 32 || u == 0x85 || u == 0xa0 || u == 0x1680 || (0x2000 <= u && u
        <= 0x200a) || u == 0x2028 || u == 0x2029 || u == 0x202f || u == 0x205f || u == 0x3000
}

/// ASCII lowercase mapping of one character.
pub open spec fn ascii_lower(c: char) -> char {
    if 'A' <= c <= 'Z' {
        ((c as u32) + 32) as char
    } else {
        c
    }
}

pub fn char_ascii_lower(c: char) -> (r: char)
    ensures
        r == ascii_lower(c),
{
    if 'A' <= c && c <= 'Z' {
        let b: u8 = (c as u8) + 32;
        assert(b as u32 == (c as u32) + 32);
        b as char
    } else {
        c
    }
}

/// Copies the characters of a string slice into a vector.
pub fn chars_of(s: &str) -> (v: Vec<char>)
    ensures
        v@ == s@,
{
    let n = s.unicode_len();
    let mut v: Vec<char> = Vec::new();
    let mut i: usize = 0;
    while i < n
        invariant
            n == s@.len(),
            i <= n,
            v@ == s@.subrange(0, i as int),
        decreases n - i,
    {
        v.push(s.get_char(i));
        i = i + 1;
    }
    v
}


/// Wrapper of `String::push`, which appends one character to the string.
#[verifier::external_body]
pub(crate) fn push_char(s: &mut String, c: char)
    ensures
        final(s)@ == old(s)@.push(c),
{
    s.push(c);
}

/// Builds a `String` holding exactly the given characters.
pub fn string_of(v: &Vec<char>) -> (r: String)
    ensures
        r@ == v@,
{
    let mut r = String::new();
    let mut i: usize = 0;
    while i < v.len()
        invariant
            i <= v.len(),
            r@ == v@.subrange(0, i as int),
        decreases v.len() - i,
    {
        push_char(&mut r, v[i]);
        i = i + 1;
    }
    r
}

/// Owned copy of a string slice.
pub fn owned(s: &str) -> (r: String)
    ensures
        r@ == s@,
{
    s.to_owned()
}

/// Equality of two string slices by their characters.
pub fn str_equals(a: &str, b: &str) -> (r: bool)
    ensures
        r == (a@ == b@),
{
    let x = a.to_owned();
    let y = b.to_owned();
    x == y
}

/// Concatenation of two slices into a new string.
pub fn concat2(a: &str, b: &str) -> (r: String)
    ensures
        r@ == a@ + b@,
{
    let mut r = a.to_owned();
    r.append(b);
    r
}

/// `t` occurs in `s` starting at index `i`.
pub open spec fn occurs_at(s: Seq<char>, t: Seq<char>, i: int) -> bool {
    0 <= i && i + t.len() <= s.len() && s.subrange(i, i + t.len()) == t
}

/// `t` is a substring of `s` (the empty string is a substring of every string).
pub open spec fn contains_sub(s: Seq<char>, t: Seq<char>) -> bool {
    exists|i: int| #[trigger] occurs_at(s, t, i)
}

/// Position of the first occurrence of `t` in `s`, if any.
pub open spec fn first_occurrence(s: Seq<char>, t: Seq<char>, i: int) -> bool {
    occurs_at(s, t, i) && forall|j: int| 0 <= j < i ==> !#[trigger] occurs_at(s, t, j)
}

pub fn matches_at(s: &Vec<char>, t: &Vec<char>, i: usize) -> (r: bool)
    ensures
        r == occurs_at(s@, t@, i as int),
{
    if i > s.len() || t.len() > s.len() - i {
        return false;
    }
    let mut k: usize = 0;
    while k < t.len()
        invariant
            i + t.len() <= s.len(),
            k <= t.len(),
            forall|j: int| 0 <= j < k ==> s@[i + j] == t@[j],
        decreases t.len() - k,
    {
        if s[i + k] != t[k] {
            assert(s@.subrange(i as int, i + t.len())[k as int] != t@[k as int]);
            return false;
        }
        k = k + 1;
    }
    assert(s@.subrange(i as int, i + t.len()) =~= t@);
    true
}

/// Finds the first occurrence of `t` in `s`.
pub fn find_sub(s: &Vec<char>, t: &Vec<char>) -> (r: Option<usize>)
    ensures
        match r {
            Some(i) => first_occurrence(s@, t@, i as int),
            None => !contains_sub(s@, t@),
        },
{
    if t.len() > s.len() {
        assert forall|j: int| !#[trigger] occurs_at(s@, t@, j) by {}
        return None;
    }
    if t.len() == 0 {
        assert(s@.subrange(0, 0) =~= t@);
        assert(occurs_at(s@, t@, 0));
        return Some(0);
    }
    let last = s.len() - t.len();
    let mut i: usize = 0;
    while i <= last
        invariant
            last == s.len() - t.len(),
            t.len() > 0,
            i <= last + 1,
            forall|j: int| 0 <= j < i ==> !#[trigger] occurs_at(s@, t@, j),
        decreases last + 1 - i,
    {
        if matches_at(s, t, i) {
            return Some(i);
        }
        i = i + 1;
    }
    assert forall|j: int| !#[trigger] occurs_at(s@, t@, j) by {
        if 0 <= j && j < i {
        }
    }
    None
}

/// Substring test on string slices.
pub fn str_contains(s: &str, t: &str) -> (r: bool)
    ensures
        r == contains_sub(s@, t@),
{
    let sv = chars_of(s);
    let tv = chars_of(t);
    match find_sub(&sv, &tv) {
        Some(_) => true,
        None => false,
    }
}

/// `p` is a prefix of `s`.
pub open spec fn has_prefix(s: Seq<char>, p: Seq<char>) -> bool {
    p.len() <= s.len() && s.subrange(0, p.len() as int) == p
}

pub fn str_starts_with(s: &str, p: &str) -> (r: bool)
    ensures
        r == has_prefix(s@, p@),
{
    let sv = chars_of(s);
    let pv = chars_of(p);
    matches_at(&sv, &pv, 0)
}

/// Number of leading whitespace characters.
pub open spec fn leading_ws(s: Seq<char>) -> nat
    decreases s.len(),
{
    if s.len() > 0 && is_ws(s[0]) {
        1 + leading_ws(s.drop_first())
    } else {
        0
    }
}

/// Number of trailing whitespace characters.
pub open spec fn trailing_ws(s: Seq<char>) -> nat
    decreases s.len(),
{
    if s.len() > 0 && is_ws(s.last()) {
        1 + trailing_ws(s.drop_last())
    } else {
        0
    }
}

/// `str::trim_start`: drops leading whitespace.
pub open spec fn trim_start(s: Seq<char>) -> Seq<char> {
    s.subrange(leading_ws(s) as int, s.len() as int)
}

/// `str::trim_end`: drops trailing whitespace.
pub open spec fn trim_end(s: Seq<char>) -> Seq<char> {
    s.subrange(0, s.len() - trailing_ws(s))
}

/// `str::trim`: drops leading and trailing whitespace.
pub open spec fn trim(s: Seq<char>) -> Seq<char> {
    trim_end(trim_start(s))
}

/// The leading whitespace run is whitespace and stops at the first other char.
pub proof fn lemma_leading_ws_bound(s: Seq<char>)
    ensures
        leading_ws(s) <= s.len(),
        forall|j: int| 0 <= j < leading_ws(s) ==> is_ws(#[trigger] s[j]),
        leading_ws(s) < s.len() ==> !is_ws(s[leading_ws(s) as int]),
    decreases s.len(),
{
    if s.len() > 0 && is_ws(s[0]) {
        lemma_leading_ws_bound(s.drop_first());
        assert forall|j: int| 0 <= j < leading_ws(s) implies is_ws(#[trigger] s[j]) by {
            if j > 0 {
                assert(s[j] == s.drop_first()[j - 1]);
            }
        }
    }
}

/// The trailing whitespace run is whitespace and stops at the last other char.
pub proof fn lemma_trailing_ws_bound(s: Seq<char>)
    ensures
        trailing_ws(s) <= s.len(),
        forall|j: int| s.len() - trailing_ws(s) <= j < s.len() ==> is_ws(#[trigger] s[j]),
        trailing_ws(s) < s.len() ==> !is_ws(s[s.len() - trailing_ws(s) - 1]),
    decreases s.len(),
{
    if s.len() > 0 && is_ws(s.last()) {
        lemma_trailing_ws_bound(s.drop_last());
        assert forall|j: int| s.len() - trailing_ws(s) <= j < s.len() implies is_ws(
            #[trigger] s[j],
        ) by {
            if j < s.len() - 1 {
                assert(s[j] == s.drop_last()[j]);
            }
        }
    }
}

/// Index of the first non-whitespace character in `v`.
pub(crate) fn leading_ws_len(v: &Vec<char>) -> (r: usize)
    ensures
        r == leading_ws(v@),
{
    let mut i: usize = 0;
    assert(v@.subrange(0, v.len() as int) =~= v@);
    while i < v.len() && char_is_whitespace(v[i])
        invariant
            i <= v.len(),
            leading_ws(v@) == i + leading_ws(v@.subrange(i as int, v.len() as int)),
        decreases v.len() - i,
    {
        let ghost rest = v@.subrange(i as int, v.len() as int);
        assert(rest.drop_first() =~= v@.subrange(i + 1, v.len() as int));
        i = i + 1;
    }
    i
}

fn trailing_ws_len(v: &Vec<char>) -> (r: usize)
    ensures
        r == trailing_ws(v@),
{
    let mut k: usize = v.len();
    assert(v@.subrange(0, v.len() as int) =~= v@);
    while k > 0 && char_is_whitespace(v[k - 1])
        invariant
            k <= v.len(),
            trailing_ws(v@) == (v.len() - k) + trailing_ws(v@.subrange(0, k as int)),
        decreases k,
    {
        let ghost pre = v@.subrange(0, k as int);
        assert(pre.drop_last() =~= v@.subrange(0, k - 1));
        k = k - 1;
    }
    (v.len() - k) as usize
}

/// Copies `v[lo..hi]` into a new vector.
pub fn slice_vec(v: &Vec<char>, lo: usize, hi: usize) -> (r: Vec<char>)
    requires
        lo <= hi <= v.len(),
    ensures
        r@ == v@.subrange(lo as int, hi as int),
{
    let mut r: Vec<char> = Vec::new();
    let mut i = lo;
    while i < hi
        invariant
            lo <= i <= hi,
            hi <= v.len(),
            r@ == v@.subrange(lo as int, i as int),
        decreases hi - i,
    {
        r.push(v[i]);
        i = i + 1;
    }
    r
}

pub fn trim_chars(v: &Vec<char>) -> (r: Vec<char>)
    ensures
        r@ == trim(v@),
{
    let a = leading_ws_len(v);
    proof {
        lemma_leading_ws_bound(v@);
    }
    let front = slice_vec(v, a, v.len());
    let b = trailing_ws_len(&front);
    proof {
        lemma_trailing_ws_bound(front@);
    }
    slice_vec(&front, 0, front.len() - b)
}

/// `str::trim` as an owned string.
pub fn trim_str(s: &str) -> (r: String)
    ensures
        r@ == trim(s@),
{
    let v = chars_of(s);
    let t = trim_chars(&v);
    string_of(&t)
}

/// The Unicode lowercase mapping of `str::to_lowercase`.
pub uninterp spec fn unicode_lowercase(s: Seq<char>) -> Seq<char>;

/// Wrapper of `str::to_lowercase`: the result is named `unicode_lowercase` of
/// the input; the Unicode tables it applies are not restated here.
#[verifier::external_body]
pub(crate) fn to_lowercase(s: &str) -> (r: String)
    ensures
        r@ == unicode_lowercase(s@),
{
    s.to_lowercase()
}

/// `str::to_ascii_lowercase`.
pub open spec fn ascii_lowercase(s: Seq<char>) -> Seq<char> {
    s.map_values(|c: char| ascii_lower(c))
}

pub fn ascii_lowercase_chars(v: &Vec<char>) -> (r: Vec<char>)
    ensures
        r@ == ascii_lowercase(v@),
{
    let mut r: Vec<char> = Vec::new();
    let mut i: usize = 0;
    while i < v.len()
        invariant
            i <= v.len(),
            r@ == ascii_lowercase(v@.subrange(0, i as int)),
        decreases v.len() - i,
    {
        r.push(char_ascii_lower(v[i]));
        proof {
            assert(ascii_lowercase(v@.subrange(0, i + 1)) =~= ascii_lowercase(
                v@.subrange(0, i as int),
            ).push(ascii_lower(v@[i as int])));
        }
        i = i + 1;
    }
    assert(v@.subrange(0, v.len() as int) =~= v@);
    r
}

pub fn ascii_lowercase_str(s: &str) -> (r: String)
    ensures
        r@ == ascii_lowercase(s@),
{
    let v = chars_of(s);
    let l = ascii_lowercase_chars(&v);
    string_of(&l)
}


/// The character of a decimal digit.
pub open spec fn digit_char(k: int) -> char {
    (48 + k) as char
}

/// Decimal digits of a natural number, without leading zeros.
pub open spec fn nat_text(n: nat) -> Seq<char>
    decreases n,
{
    if n < 10 {
        seq![digit_char(n as int)]
    } else {
        nat_text(n / 10).push(digit_char((n % 10) as int))
    }
}

/// Decimal text of an integer, with a leading `-` when negative.
pub open spec fn int_text(i: int) -> Seq<char> {
    if i < 0 {
        seq!['-'] + nat_text((-i) as nat)
    } else {
        nat_text(i as nat)
    }
}

fn digit_of(k: u64) -> (c: char)
    requires
        k <= 9,
    ensures
        c == digit_char(k as int),
{
    let b: u8 = 48u8 + (k as u8);
    b as char
}

/// Decimal text of an unsigned integer (as `to_string` prints it).
pub fn u64_text(n: u64) -> (r: String)
    ensures
        r@ == nat_text(n as nat),
{
    let mut digits: Vec<char> = Vec::new();
    let mut m: u64 = n;
    while m >= 10
        invariant
            nat_text(n as nat) == nat_text(m as nat) + digits@.reverse(),
        decreases m,
    {
        let ghost old_digits = digits@;
        digits.push(digit_of(m % 10));
        proof {
            assert(nat_text(m as nat) == nat_text((m / 10) as nat).push(digit_char((m % 10) as int)));
            assert(digits@.reverse() =~= seq![digit_char((m % 10) as int)] + old_digits.reverse());
            assert(nat_text(n as nat) =~= nat_text((m / 10) as nat) + digits@.reverse());
        }
        m = m / 10;
    }
    let mut r = String::new();
    push_char(&mut r, digit_of(m));
    assert(r@ =~= nat_text(m as nat));
    let mut k: usize = digits.len();
    while k > 0
        invariant
            k <= digits.len(),
            nat_text(n as nat) == nat_text(m as nat) + digits@.reverse(),
            r@ == nat_text(m as nat) + digits@.subrange(k as int, digits.len() as int).reverse(),
        decreases k,
    {
        push_char(&mut r, digits[k - 1]);
        proof {
            assert(digits@.subrange(k - 1, digits.len() as int).reverse() =~= digits@.subrange(
                k as int,
                digits.len() as int,
            ).reverse().push(digits@[k - 1]));
        }
        k = k - 1;
    }
    assert(digits@.subrange(0, digits.len() as int) =~= digits@);
    r
}

/// Decimal text of a signed integer (as `to_string` prints it).
pub fn i64_text(i: i64) -> (r: String)
    ensures
        r@ == int_text(i as int),
{
    if i < 0 {
        let magnitude: u64 = ((-(i + 1)) as u64) + 1;
        let digits = u64_text(magnitude);
        let mut r = String::new();
        push_char(&mut r, '-');
        r.append(digits.as_str());
        assert(r@ =~= int_text(i as int));
        r
    } else {
        u64_text(i as u64)
    }
}


/// `i` is the first index at or after `from` whose character is in `set`.
pub open spec fn is_first_in(s: Seq<char>, set: Seq<char>, from: int, i: int) -> bool {
    0 <= from <= i < s.len() && set.contains(s[i]) && forall|j: int|
        from <= j < i ==> !set.contains(#[trigger] s[j])
}

/// Some character at or after `from` is in `set`.
pub open spec fn has_in(s: Seq<char>, set: Seq<char>, from: int) -> bool {
    exists|i: int| from <= i < s.len() && 0 <= from && set.contains(#[trigger] s[i])
}

/// The first index at or after `from` whose character is in `set`.
pub open spec fn first_in(s: Seq<char>, set: Seq<char>, from: int) -> int {
    choose|i: int| is_first_in(s, set, from, i)
}

/// A position that is the first match from `from` is what `first_in` names.
pub proof fn lemma_first_in_unique(s: Seq<char>, set: Seq<char>, from: int, i: int)
    requires
        is_first_in(s, set, from, i),
    ensures
        has_in(s, set, from),
        first_in(s, set, from) == i,
{
    let k = first_in(s, set, from);
    assert(is_first_in(s, set, from, k));
    if k < i {
        assert(!set.contains(s[k]));
    }
    if i < k {
        assert(!set.contains(s[i]));
    }
}

fn vec_has(set: &Vec<char>, c: char) -> (r: bool)
    ensures
        r == set@.contains(c),
{
    let mut i: usize = 0;
    while i < set.len()
        invariant
            i <= set.len(),
            forall|j: int| 0 <= j < i ==> set@[j] != c,
        decreases set.len() - i,
    {
        if set[i] == c {
            return true;
        }
        i = i + 1;
    }
    false
}

/// Finds the first index at or after `from` whose character is in `set`.
pub fn find_first_in(v: &Vec<char>, set: &Vec<char>, from: usize) -> (r: Option<usize>)
    ensures
        match r {
            Some(i) => is_first_in(v@, set@, from as int, i as int) && first_in(
                v@,
                set@,
                from as int,
            ) == i,
            None => !has_in(v@, set@, from as int),
        },
{
    let mut i: usize = from;
    while i < v.len()
        invariant
            from <= i,
            forall|j: int| from <= j < i && j < v@.len() ==> !set@.contains(#[trigger] v@[j]),
        decreases v.len() - i,
    {
        if vec_has(set, v[i]) {
            proof {
                lemma_first_in_unique(v@, set@, from as int, i as int);
            }
            return Some(i);
        }
        i = i + 1;
    }
    None
}

/// The part of `s` before its first character in `set` (all of `s` if none),
/// i.e. the first item of `str::split` on that set of characters.
pub open spec fn segment_before(s: Seq<char>, set: Seq<char>) -> Seq<char> {
    if has_in(s, set, 0) {
        s.subrange(0, first_in(s, set, 0))
    } else {
        s
    }
}

pub fn segment_before_chars(v: &Vec<char>, set: &Vec<char>) -> (r: Vec<char>)
    ensures
        r@ == segment_before(v@, set@),
{
    match find_first_in(v, set, 0) {
        Some(i) => slice_vec(v, 0, i),
        None => slice_vec(v, 0, v.len()),
    }
}

/// Number of leading copies of `c` in `s`.
pub open spec fn leading_count(s: Seq<char>, c: char) -> nat
    decreases s.len(),
{
    if s.len() > 0 && s[0] == c {
        1 + leading_count(s.drop_first(), c)
    } else {
        0
    }
}

/// A run of leading copies of `c` fits in the text.
pub proof fn lemma_leading_count_bound(s: Seq<char>, c: char)
    ensures
        leading_count(s, c) <= s.len(),
    decreases s.len(),
{
    if s.len() > 0 && s[0] == c {
        lemma_leading_count_bound(s.drop_first(), c);
    }
}

/// `str::trim_start_matches` with a single character.
pub open spec fn trim_start_char(s: Seq<char>, c: char) -> Seq<char> {
    s.subrange(leading_count(s, c) as int, s.len() as int)
}

pub fn trim_start_char_chars(v: &Vec<char>, c: char) -> (r: Vec<char>)
    ensures
        r@ == trim_start_char(v@, c),
{
    let mut i: usize = 0;
    assert(v@.subrange(0, v.len() as int) =~= v@);
    while i < v.len() && v[i] == c
        invariant
            i <= v.len(),
            leading_count(v@, c) == i + leading_count(v@.subrange(i as int, v.len() as int), c),
        decreases v.len() - i,
    {
        let ghost rest = v@.subrange(i as int, v.len() as int);
        assert(rest.drop_first() =~= v@.subrange(i + 1, v.len() as int));
        i = i + 1;
    }
    slice_vec(v, i, v.len())
}

/// Number of trailing copies of `c` in `s`.
pub open spec fn trailing_count(s: Seq<char>, c: char) -> nat
    decreases s.len(),
{
    if s.len() > 0 && s.last() == c {
        1 + trailing_count(s.drop_last(), c)
    } else {
        0
    }
}

/// A run of trailing copies of `c` fits in the text.
pub proof fn lemma_trailing_count_bound(s: Seq<char>, c: char)
    ensures
        trailing_count(s, c) <= s.len(),
    decreases s.len(),
{
    if s.len() > 0 && s.last() == c {
        lemma_trailing_count_bound(s.drop_last(), c);
    }
}

/// `str::trim_end_matches` with a single character.
pub open spec fn trim_end_char(s: Seq<char>, c: char) -> Seq<char> {
    s.subrange(0, s.len() - trailing_count(s, c))
}

pub fn trim_end_char_chars(v: &Vec<char>, c: char) -> (r: Vec<char>)
    ensures
        r@ == trim_end_char(v@, c),
{
    let mut k: usize = v.len();
    assert(v@.subrange(0, v.len() as int) =~= v@);
    while k > 0 && v[k - 1] == c
        invariant
            k <= v.len(),
            trailing_count(v@, c) == (v.len() - k) + trailing_count(v@.subrange(0, k as int), c),
        decreases k,
    {
        let ghost pre = v@.subrange(0, k as int);
        assert(pre.drop_last() =~= v@.subrange(0, k - 1));
        k = k - 1;
    }
    slice_vec(v, 0, k)
}

/// `str::trim_matches` with a single character.
pub open spec fn trim_char(s: Seq<char>, c: char) -> Seq<char> {
    trim_end_char(trim_start_char(s, c), c)
}

pub fn trim_char_chars(v: &Vec<char>, c: char) -> (r: Vec<char>)
    ensures
        r@ == trim_char(v@, c),
{
    proof {
        lemma_leading_count_bound(v@, c);
    }
    let a = trim_start_char_chars(v, c);
    proof {
        lemma_trailing_count_bound(a@, c);
    }
    trim_end_char_chars(&a, c)
}

/// The first `n` characters of `s` (all of them if shorter).
pub open spec fn take_chars(s: Seq<char>, n: int) -> Seq<char> {
    if s.len() <= n {
        s
    } else {
        s.subrange(0, n)
    }
}

pub fn take_chars_vec(v: &Vec<char>, n: usize) -> (r: Vec<char>)
    ensures
        r@ == take_chars(v@, n as int),
{
    if v.len() <= n {
        slice_vec(v, 0, v.len())
    } else {
        slice_vec(v, 0, n)
    }
}


/// `parts` joined with `sep` between consecutive parts.
pub open spec fn join(parts: Seq<Seq<char>>, sep: Seq<char>) -> Seq<char>
    decreases parts.len(),
{
    if parts.len() == 0 {
        Seq::empty()
    } else if parts.len() == 1 {
        parts[0]
    } else {
        join(parts.drop_last(), sep) + sep + parts.last()
    }
}

/// `[String]::join`.
pub fn join_strings(parts: &Vec<String>, sep: &str) -> (r: String)
    ensures
        r@ == join(parts.deep_view(), sep@),
{
    let mut r = String::new();
    let mut i: usize = 0;
    while i < parts.len()
        invariant
            i <= parts.len(),
            r@ == join(parts.deep_view().subrange(0, i as int), sep@),
        decreases parts.len() - i,
    {
        let ghost pre = parts.deep_view().subrange(0, i + 1);
        assert(pre.drop_last() =~= parts.deep_view().subrange(0, i as int));
        if i > 0 {
            r.append(sep);
        }
        r.append(parts[i].as_str());
        assert(pre.last() == parts[i as int]@);
        if i == 0 {
            assert(r@ =~= join(pre, sep@));
        }
        i = i + 1;
    }
    assert(parts.deep_view().subrange(0, parts.len() as int) =~= parts.deep_view());
    r
}


/// Trimming twice is trimming once.
pub proof fn lemma_trim_idempotent(s: Seq<char>)
    ensures
        trim(trim(s)) == trim(s),
{
    let a = leading_ws(s);
    lemma_leading_ws_bound(s);
    let f = trim_start(s);
    lemma_trailing_ws_bound(f);
    let t = trim(s);
    if t.len() == 0 {
        assert(trim(t) =~= t);
    } else {
        assert(t[0] == f[0]);
        assert(f[0] == s[a as int]);
        assert(!is_ws(t[0]));
        assert(leading_ws(t) == 0);
        assert(trim_start(t) =~= t);
        assert(t.last() == f[f.len() - trailing_ws(f) - 1]);
        assert(!is_ws(t.last()));
        assert(trailing_ws(t) == 0);
        assert(trim_end(t) =~= t);
    }
}


/// Lexicographic order of strings by code point (the order of `String`'s `Ord`).
pub open spec fn lex_le(a: Seq<char>, b: Seq<char>) -> bool
    decreases a.len(),
{
    if a.len() == 0 {
        true
    } else if b.len() == 0 {
        false
    } else if (a[0] as u32) < (b[0] as u32) {
        true
    } else if a[0] == b[0] {
        lex_le(a.drop_first(), b.drop_first())
    } else {
        false
    }
}

/// Any two texts are ordered one way or the other.
pub proof fn lemma_lex_le_total(a: Seq<char>, b: Seq<char>)
    ensures
        lex_le(a, b) || lex_le(b, a),
    decreases a.len(),
{
    if a.len() > 0 && b.len() > 0 && a[0] == b[0] {
        lemma_lex_le_total(a.drop_first(), b.drop_first());
    }
    if a.len() > 0 && b.len() > 0 && a[0] != b[0] {
        vstd::utf8::char_u32_cast(a[0], a[0] as u32);
        vstd::utf8::char_u32_cast(b[0], b[0] as u32);
        assert((a[0] as u32) != (b[0] as u32));
    }
}

/// The text order is transitive.
pub proof fn lemma_lex_le_transitive(a: Seq<char>, b: Seq<char>, c: Seq<char>)
    requires
        lex_le(a, b),
        lex_le(b, c),
    ensures
        lex_le(a, c),
    decreases a.len(),
{
    if a.len() > 0 && b.len() > 0 && c.len() > 0 && a[0] == b[0] && b[0] == c[0] {
        lemma_lex_le_transitive(a.drop_first(), b.drop_first(), c.drop_first());
    }
}

/// Compares two strings as `String`'s `Ord` does; true when `a <= b`.
pub fn str_lex_le(a: &str, b: &str) -> (r: bool)
    ensures
        r == lex_le(a@, b@),
{
    let av = chars_of(a);
    let bv = chars_of(b);
    let mut i: usize = 0;
    assert(a@.subrange(0, a@.len() as int) =~= a@);
    assert(b@.subrange(0, b@.len() as int) =~= b@);
    while i < av.len() && i < bv.len() && av[i] == bv[i]
        invariant
            i <= av.len(),
            i <= bv.len(),
            av@ == a@,
            bv@ == b@,
            lex_le(a@, b@) == lex_le(a@.subrange(i as int, a@.len() as int), b@.subrange(i as int, b@.len() as int)),
        decreases av.len() - i,
    {
        let ghost sa = a@.subrange(i as int, a@.len() as int);
        let ghost sb = b@.subrange(i as int, b@.len() as int);
        assert(sa.drop_first() =~= a@.subrange(i + 1, a@.len() as int));
        assert(sb.drop_first() =~= b@.subrange(i + 1, b@.len() as int));
        i = i + 1;
    }
    if i == av.len() {
        true
    } else if i == bv.len() {
        false
    } else {
        (av[i] as u32) < (bv[i] as u32)
    }
}

/// Texts ordered both ways are equal.
pub proof fn lemma_lex_le_antisymmetric(a: Seq<char>, b: Seq<char>)
    requires
        lex_le(a, b),
        lex_le(b, a),
    ensures
        a == b,
    decreases a.len(),
{
    if a.len() > 0 && b.len() > 0 {
        if a[0] == b[0] {
            lemma_lex_le_antisymmetric(a.drop_first(), b.drop_first());
            assert(a =~= seq![a[0]] + a.drop_first());
            assert(b =~= seq![b[0]] + b.drop_first());
        } else {
            vstd::utf8::char_u32_cast(a[0], a[0] as u32);
            vstd::utf8::char_u32_cast(b[0], b[0] as u32);
        }
    } else {
        assert(a.len() == 0 && b.len() == 0);
        assert(a =~= b);
    }
}

/// The Unicode uppercase mapping of `str::to_uppercase`.
pub uninterp spec fn unicode_uppercase(s: Seq<char>) -> Seq<char>;

/// Wrapper of `str::to_uppercase`: the result is named `unicode_uppercase` of
/// the input; the Unicode tables it applies are not restated here.
#[verifier::external_body]
pub(crate) fn to_uppercase(s: &str) -> (r: String)
    ensures
        r@ == unicode_uppercase(s@),
{
    s.to_uppercase()
}

/// A line without the `\r` of a `\r\n` ending.
pub open spec fn strip_cr(line: Seq<char>) -> Seq<char> {
    if line.len() > 0 && line.last() == '\r' {
        line.drop_last()
    } else {
        line
    }
}

/// The lines of a text as `str::lines` gives them: split after each `\n`,
/// the line ending (`\n` or `\r\n`) removed, no empty line after a final
/// `\n`.
pub open spec fn lines_of(s: Seq<char>) -> Seq<Seq<char>>
    decreases s.len(),
{
    if s.len() == 0 {
        Seq::empty()
    } else {
        let i = first_in(s, seq!['\n'], 0);
        if has_in(s, seq!['\n'], 0) && 0 <= i < s.len() {
            seq![strip_cr(s.take(i))] + lines_of(s.skip(i + 1))
        } else {
            seq![s]
        }
    }
}

/// `str::lines`: the lines of a text.
pub fn text_lines(s: &str) -> (r: Vec<String>)
    ensures
        r.deep_view() == lines_of(s@),
{
    let v = chars_of(s);
    let nl = vec!['\n'];
    assert(nl@ =~= seq!['\n']);
    let mut out: Vec<String> = Vec::new();
    let mut start: usize = 0;
    assert(v@.skip(0) =~= s@);
    while start < v.len()
        invariant
            start <= v.len(),
            v@ == s@,
            nl@ == seq!['\n'],
            out.deep_view() + lines_of(s@.skip(start as int)) == lines_of(s@),
        decreases v.len() - start,
    {
        let ghost rest = s@.skip(start as int);
        match find_first_in(&v, &nl, start) {
            Some(i) => {
                proof {
                    assert(is_first_in(v@, nl@, start as int, i as int));
                    let j = i - start;
                    assert(rest[j] == v@[i as int]);
                    assert(has_in(rest, nl@, 0));
                    assert(is_first_in(rest, nl@, 0, j)) by {
                        assert forall|k: int| 0 <= k < j implies !nl@.contains(#[trigger] rest[k]) by {
                            assert(rest[k] == v@[start + k]);
                        }
                    }
                    lemma_first_in_unique(rest, nl@, 0, j);
                    assert(rest.take(j) =~= v@.subrange(start as int, i as int));
                    assert(rest.skip(j + 1) =~= s@.skip(i + 1));
                }
                let mut end = i;
                if end > start && v[end - 1] == '\r' {
                    end = end - 1;
                }
                let line = slice_vec(&v, start, end);
                let ls = string_of(&line);
                proof {
                    let j = i - start;
                    assert(ls@ == strip_cr(rest.take(j)));
                    assert(lines_of(rest) == seq![strip_cr(rest.take(j))] + lines_of(s@.skip(i + 1)));
                }
                let ghost prev = out.deep_view();
                out.push(ls);
                proof {
                    assert(out.deep_view() =~= prev.push(ls@));
                    assert(prev.push(ls@) + lines_of(s@.skip(i + 1)) =~= prev + lines_of(rest));
                }
                start = i + 1;
            },
            None => {
                proof {
                    assert(!has_in(rest, nl@, 0)) by {
                        if has_in(rest, nl@, 0) {
                            let k = choose|k: int| 0 <= k < rest.len() && 0 <= 0 && nl@.contains(#[trigger] rest[k]);
                            assert(rest[k] == v@[start + k]);
                        }
                    }
                    assert(lines_of(rest) == seq![rest]);
                }
                let line = slice_vec(&v, start, v.len());
                let ls = string_of(&line);
                assert(ls@ == rest);
                let ghost prev = out.deep_view();
                out.push(ls);
                start = v.len();
                proof {
                    assert(out.deep_view() =~= prev.push(rest));
                    assert(s@.skip(start as int) =~= Seq::<char>::empty());
                    assert(lines_of(Seq::<char>::empty()) =~= Seq::<Seq<char>>::empty());
                    assert(out.deep_view() + lines_of(s@.skip(start as int)) =~= prev + lines_of(rest));
                }
            },
        }
    }
    assert(s@.skip(start as int) =~= Seq::<char>::empty());
    assert(out.deep_view() + lines_of(Seq::<char>::empty()) =~= out.deep_view());
    out
}

/// `to` before, between and after each character of `s`: what replacing the
/// empty pattern gives.
pub open spec fn replaced_empty(s: Seq<char>, to: Seq<char>) -> Seq<char>
    decreases s.len(),
{
    if s.len() == 0 {
        to
    } else {
        to + seq![s[0]] + replaced_empty(s.drop_first(), to)
    }
}

/// `str::replace`: the occurrences of `from` found scanning left to right,
/// without overlap, each replaced by `to`.
pub open spec fn replaced(s: Seq<char>, from: Seq<char>, to: Seq<char>) -> Seq<char>
    decreases s.len(),
{
    if from.len() == 0 {
        replaced_empty(s, to)
    } else if s.len() < from.len() {
        s
    } else if s.take(from.len() as int) == from {
        to + replaced(s.skip(from.len() as int), from, to)
    } else {
        seq![s[0]] + replaced(s.drop_first(), from, to)
    }
}

/// `str::replace`: replaces every non-overlapping occurrence of `from`,
/// from left to right, by `to`.
pub fn replace_all(s: &str, from: &str, to: &str) -> (r: String)
    ensures
        r@ == replaced(s@, from@, to@),
{
    let sv = chars_of(s);
    let fv = chars_of(from);
    let mut out = String::new();
    let mut i: usize = 0;
    assert(s@.skip(0) =~= s@);
    if fv.len() == 0 {
        while i < sv.len()
            invariant
                i <= sv.len(),
                sv@ == s@,
                from@.len() == 0,
                out@ + replaced_empty(s@.skip(i as int), to@) == replaced(s@, from@, to@),
            decreases sv.len() - i,
        {
            let ghost rest = s@.skip(i as int);
            let ghost prev = out@;
            out.append(to);
            push_char(&mut out, sv[i]);
            proof {
                assert(rest.drop_first() =~= s@.skip(i + 1));
                assert(rest[0] == sv@[i as int]);
                assert(out@ + replaced_empty(s@.skip(i + 1), to@) =~= prev + replaced_empty(rest, to@));
            }
            i = i + 1;
        }
        out.append(to);
        proof {
            assert(s@.skip(i as int) =~= Seq::<char>::empty());
        }
        return out;
    }
    while i < sv.len()
        invariant
            i <= sv.len(),
            sv@ == s@,
            fv@ == from@,
            from@.len() > 0,
            out@ + replaced(s@.skip(i as int), from@, to@) == replaced(s@, from@, to@),
        decreases sv.len() - i,
    {
        let ghost rest = s@.skip(i as int);
        let ghost prev = out@;
        if matches_at(&sv, &fv, i) {
            out.append(to);
            proof {
                assert(rest.take(from@.len() as int) =~= sv@.subrange(i as int, i + from@.len()));
                assert(rest.skip(from@.len() as int) =~= s@.skip(i + from@.len()));
                assert(out@ + replaced(s@.skip(i + from@.len()), from@, to@) =~= prev + replaced(rest, from@, to@));
            }
            i = i + fv.len();
        } else {
            push_char(&mut out, sv[i]);
            proof {
                if rest.len() >= from@.len() {
                    assert(rest.take(from@.len() as int) =~= sv@.subrange(i as int, i + from@.len()));
                    assert(rest.drop_first() =~= s@.skip(i + 1));
                    assert(out@ + replaced(s@.skip(i + 1), from@, to@) =~= prev + replaced(rest, from@, to@));
                } else {
                    assert(replaced(rest, from@, to@) == rest);
                    assert(rest.drop_first() =~= s@.skip(i + 1));
                    assert(s@.skip(i + 1).len() < from@.len());
                    assert(replaced(s@.skip(i + 1), from@, to@) == s@.skip(i + 1));
                    assert(rest =~= seq![rest[0]] + rest.drop_first());
                    assert(out@ + replaced(s@.skip(i + 1), from@, to@) =~= prev + replaced(rest, from@, to@));
                }
            }
            i = i + 1;
        }
    }
    proof {
        assert(s@.skip(i as int) =~= Seq::<char>::empty());
        assert(out@ + replaced(Seq::<char>::empty(), from@, to@) =~= out@);
    }
    out
}

/// Names sorted strictly by `String`'s order: sorted and without repeats.
pub open spec fn strictly_sorted(list: Seq<Seq<char>>) -> bool {
    forall|a: int, b: int|
        0 <= a < b < list.len() ==> lex_le(#[trigger] list[a], #[trigger] list[b]) && list[a]
            != list[b]
}

/// Two strictly sorted lists with the same elements are the same list.
pub proof fn lemma_strictly_sorted_unique(a: Seq<Seq<char>>, b: Seq<Seq<char>>)
    requires
        strictly_sorted(a),
        strictly_sorted(b),
        forall|x: Seq<char>| a.contains(x) <==> b.contains(x),
    ensures
        a == b,
    decreases a.len(),
{
    if a.len() == 0 {
        if b.len() > 0 {
            assert(b.contains(b[0]));
        }
        assert(a =~= b);
    } else {
        assert(a.contains(a[0]));
        assert(b.len() > 0);
        assert(b.contains(b[0]));
        let i = choose|i: int| 0 <= i < a.len() && a[i] == b[0];
        let j = choose|j: int| 0 <= j < b.len() && b[j] == a[0];
        if i > 0 && j > 0 {
            lemma_lex_le_antisymmetric(a[0], b[0]);
        }
        assert(a[0] == b[0]);
        let a1 = a.drop_first();
        let b1 = b.drop_first();
        assert forall|x: Seq<char>| a1.contains(x) <==> b1.contains(x) by {
            if a1.contains(x) {
                let k = choose|k: int| 0 <= k < a1.len() && a1[k] == x;
                assert(a[k + 1] == x);
                assert(x != a[0]);
                assert(b.contains(x));
                let l = choose|l: int| 0 <= l < b.len() && b[l] == x;
                assert(l != 0);
                assert(b1[l - 1] == x);
            }
            if b1.contains(x) {
                let k = choose|k: int| 0 <= k < b1.len() && b1[k] == x;
                assert(b[k + 1] == x);
                assert(x != b[0]);
                assert(a.contains(x));
                let l = choose|l: int| 0 <= l < a.len() && a[l] == x;
                assert(l != 0);
                assert(a1[l - 1] == x);
            }
        }
        lemma_strictly_sorted_unique(a1, b1);
        assert(a =~= seq![a[0]] + a1);
        assert(b =~= seq![b[0]] + b1);
    }
}

proof fn lemma_replaced_prefix_kept(s: Seq<char>, f: Seq<char>, t: Seq<char>, m: int)
    requires
        f.len() > 0,
        t.len() > 0,
        0 <= m <= replaced(s, f, t).len(),
        forall|k: int| 0 <= k < m ==> #[trigger] replaced(s, f, t)[k] != t[0],
    ensures
        m <= s.len(),
        replaced(s, f, t).take(m) == s.take(m),
    decreases s.len(),
{
    let out = replaced(s, f, t);
    if s.len() < f.len() {
        assert(out == s);
    } else if s.take(f.len() as int) == f {
        if m > 0 {
            assert(out[0] == t[0]);
        }
        assert(out.take(m) =~= s.take(m));
    } else {
        let rest = replaced(s.drop_first(), f, t);
        assert(out == seq![s[0]] + rest);
        if m > 0 {
            assert forall|k: int| 0 <= k < m - 1 implies #[trigger] rest[k] != t[0] by {
                assert(out[k + 1] == rest[k]);
            }
            lemma_replaced_prefix_kept(s.drop_first(), f, t, m - 1);
            assert(out.take(m) =~= seq![s[0]] + rest.take(m - 1));
            assert(s.take(m) =~= seq![s[0]] + s.drop_first().take(m - 1));
        } else {
            assert(out.take(m) =~= s.take(m));
        }
    }
}

/// Replacing a secret by a marker leaves no copy of the secret, provided the
/// marker's first and last characters do not occur in the secret and the
/// secret does not occur in the marker.
pub proof fn lemma_replaced_removes_pattern(s: Seq<char>, f: Seq<char>, t: Seq<char>)
    requires
        f.len() > 0,
        t.len() > 0,
        !f.contains(t[0]),
        !f.contains(t.last()),
        !contains_sub(t, f),
    ensures
        !contains_sub(replaced(s, f, t), f),
    decreases s.len(),
{
    let out = replaced(s, f, t);
    if contains_sub(out, f) {
        let i = choose|i: int| #[trigger] occurs_at(out, f, i);
        if s.len() < f.len() {
            assert(out == s);
        } else if s.take(f.len() as int) == f {
            let rest = replaced(s.skip(f.len() as int), f, t);
            assert(out == t + rest);
            lemma_replaced_removes_pattern(s.skip(f.len() as int), f, t);
            if i >= t.len() {
                assert(occurs_at(rest, f, i - t.len())) by {
                    assert(rest.subrange(i - t.len(), i - t.len() + f.len()) =~= out.subrange(
                        i,
                        i + f.len(),
                    ));
                }
            } else if i + f.len() <= t.len() {
                assert(occurs_at(t, f, i)) by {
                    assert(t.subrange(i, i + f.len()) =~= out.subrange(i, i + f.len()));
                }
            } else {
                let k = t.len() - 1 - i;
                assert(out.subrange(i, i + f.len())[k] == t.last());
                assert(f[k] == t.last());
            }
        } else {
            let rest = replaced(s.drop_first(), f, t);
            assert(out == seq![s[0]] + rest);
            lemma_replaced_removes_pattern(s.drop_first(), f, t);
            if i >= 1 {
                assert(occurs_at(rest, f, i - 1)) by {
                    assert(rest.subrange(i - 1, i - 1 + f.len()) =~= out.subrange(i, i + f.len()));
                }
            } else {
                let m = f.len() - 1;
                if exists|k: int| 0 <= k < m && #[trigger] rest[k] == t[0] {
                    let k = choose|k: int| 0 <= k < m && #[trigger] rest[k] == t[0];
                    assert(out.subrange(0, f.len() as int)[k + 1] == t[0]);
                    assert(f[k + 1] == t[0]);
                } else {
                    lemma_replaced_prefix_kept(s.drop_first(), f, t, m);
                    assert(out.subrange(0, f.len() as int) =~= seq![s[0]] + rest.take(m));
                    assert(s.take(f.len() as int) =~= seq![s[0]] + s.drop_first().take(m));
                }
            }
        }
    }
}

/// Where the secret occurred, the marker now stands.
pub proof fn lemma_replaced_leaves_marker(s: Seq<char>, f: Seq<char>, t: Seq<char>)
    requires
        f.len() > 0,
        contains_sub(s, f),
    ensures
        contains_sub(replaced(s, f, t), t),
    decreases s.len(),
{
    let out = replaced(s, f, t);
    let i = choose|i: int| #[trigger] occurs_at(s, f, i);
    if s.take(f.len() as int) == f {
        assert(occurs_at(out, t, 0)) by {
            assert(out.subrange(0, t.len() as int) =~= t);
        }
    } else {
        if i == 0 {
            assert(s.take(f.len() as int) =~= s.subrange(0, f.len() as int));
        }
        let rest = replaced(s.drop_first(), f, t);
        assert(out == seq![s[0]] + rest);
        assert(occurs_at(s.drop_first(), f, i - 1)) by {
            assert(s.drop_first().subrange(i - 1, i - 1 + f.len()) =~= s.subrange(i, i + f.len()));
        }
        lemma_replaced_leaves_marker(s.drop_first(), f, t);
        let j = choose|j: int| #[trigger] occurs_at(rest, t, j);
        assert(occurs_at(out, t, j + 1)) by {
            assert(out.subrange(j + 1, j + 1 + t.len()) =~= rest.subrange(j, j + t.len()));
        }
    }
}

} // verus!
