//! Text helpers over sequences of characters: conversion between `str` and
//! character vectors, trimming, searching, splitting and decimal numbers.
use vstd::prelude::*;

verus! {

/// The characters of a string slice, in order.
pub fn chars_of(s: &str) -> (v: Vec<char>)
    ensures
        v@ == s@,
{
    broadcast use vstd::string::group_string_axioms;

    let mut v: Vec<char> = Vec::new();
    for c in it: s.chars()
        invariant
            v@ == it.seq().take(it.index() as int),
            it.seq() == s@,
    {
        v.push(c);
    }
    v
}

/// Appends one character to a string (`String::push`).
#[verifier::external_body]
fn push_char(s: &mut String, c: char)
    ensures
        final(s)@ == old(s)@.push(c),
{
    s.push(c);
}

/// The string made of the given characters, in order.
pub fn string_of(v: &[char]) -> (s: String)
    ensures
        s@ == v@,
{
    let mut s = String::new();
    let mut i: usize = 0;
    while i < v.len()
        invariant
            i <= v@.len(),
            s@ == v@.take(i as int),
        decreases v@.len() - i,
    {
        push_char(&mut s, v[i]);
        assert(v@.take(i as int).push(v@[i as int]) == v@.take(i + 1));
        i = i + 1;
    }
    assert(v@.take(v@.len() as int) == v@);
    s
}

/// Whether a string slice holds no character.
pub fn text_is_empty(s: &str) -> (r: bool)
    ensures
        r == (s@.len() == 0),
{
    chars_of(s).len() == 0
}

/// An owned copy of a string slice.
pub fn owned(s: &str) -> (r: String)
    ensures
        r@ == s@,
{
    s.to_owned()
}

/// The string `a` followed by the characters `b`.
pub fn concat_chars(a: &str, b: &[char]) -> (r: String)
    ensures
        r@ == a@ + b@,
{
    let mut v = chars_of(a);
    let mut i: usize = 0;
    let ghost va = v@;
    while i < b.len()
        invariant
            i <= b@.len(),
            va == a@,
            v@ == va + b@.take(i as int),
        decreases b@.len() - i,
    {
        v.push(b[i]);
        assert(b@.take(i as int).push(b@[i as int]) == b@.take(i + 1));
        assert((va + b@.take(i as int)).push(b@[i as int]) == va + b@.take(i + 1));
        i = i + 1;
    }
    assert(b@.take(b@.len() as int) == b@);
    string_of(v.as_slice())
}

/// Unicode `White_Space`: the characters that `char::is_whitespace` accepts.
pub open spec fn is_white_space(c: char) -> bool {
    let u = c as u32;
    ||| (9 <= u && u <= 13)
    ||| u == 32
    ||| u == 0x85
    ||| u == 0xA0
    ||| u == 0x1680
    ||| (0x2000 <= u && u <= 0x200A)
    ||| u == 0x2028
    ||| u == 0x2029
    ||| u == 0x202F
    ||| u == 0x205F
    ||| u == 0x3000
}

/// Whether `c` is Unicode white space.
pub fn white_space(c: char) -> (b: bool)
    ensures
        b == is_white_space(c),
{
    let u = c as u32;
    (9 <= u && u <= 13) || u == 32 || u == 0x85 || u == 0xA0 || u == 0x1680 || (0x2000 <= u
        && u <= 0x200A) || u == 0x2028 || u == 0x2029 || u == 0x202F || u == 0x205F || u == 0x3000
}

/// The sequence without its leading white space.
pub open spec fn trim_start(s: Seq<char>) -> Seq<char>
    decreases s.len(),
{
    if s.len() > 0 && is_white_space(s[0]) {
        trim_start(s.drop_first())
    } else {
        s
    }
}

/// The sequence without its trailing white space.
pub open spec fn trim_end(s: Seq<char>) -> Seq<char>
    decreases s.len(),
{
    if s.len() > 0 && is_white_space(s.last()) {
        trim_end(s.drop_last())
    } else {
        s
    }
}

/// The sequence without leading and trailing white space (`str::trim`).
pub open spec fn trim(s: Seq<char>) -> Seq<char> {
    trim_end(trim_start(s))
}

/// Start and end of the trimmed part of `v`.
pub fn trim_bounds(v: &[char]) -> (r: (usize, usize))
    ensures
        r.0 <= r.1 <= v@.len(),
        v@.subrange(r.0 as int, r.1 as int) == trim(v@),
{
    let n = v.len();
    let mut i: usize = 0;
    assert(v@.skip(0) == v@);
    while i < n && white_space(v[i])
        invariant
            i <= n == v@.len(),
            trim_start(v@) == trim_start(v@.skip(i as int)),
        decreases n - i,
    {
        assert(v@.skip(i as int).drop_first() == v@.skip(i + 1));
        i = i + 1;
    }
    assert(trim_start(v@) == v@.skip(i as int)) by {
        if i == n {
            assert(v@.skip(i as int).len() == 0);
        }
    }
    let mut j: usize = n;
    while j > i && white_space(v[j - 1])
        invariant
            i <= j <= n == v@.len(),
            trim(v@) == trim_end(v@.subrange(i as int, j as int)),
        decreases j - i,
    {
        assert(v@.subrange(i as int, j as int).drop_last() == v@.subrange(i as int, j - 1));
        j = j - 1;
    }
    (i, j)
}

/// Trims white space from both ends of `v`.
pub fn trim_chars(v: &[char]) -> (r: Vec<char>)
    ensures
        r@ == trim(v@),
{
    let (a, b) = trim_bounds(v);
    slice_range(v, a, b)
}

/// The characters `v[a..b]`.
pub fn slice_range(v: &[char], a: usize, b: usize) -> (r: Vec<char>)
    requires
        a <= b <= v@.len(),
    ensures
        r@ == v@.subrange(a as int, b as int),
{
    let mut r: Vec<char> = Vec::new();
    let mut i = a;
    while i < b
        invariant
            a <= i <= b <= v@.len(),
            r@ == v@.subrange(a as int, i as int),
        decreases b - i,
    {
        r.push(v[i]);
        assert(v@.subrange(a as int, i as int).push(v@[i as int]) == v@.subrange(a as int, i + 1));
        i = i + 1;
    }
    r
}

/// Whether `pat` occurs in `s` at position `i`.
pub open spec fn matches_at(s: Seq<char>, pat: Seq<char>, i: int) -> bool {
    0 <= i && i + pat.len() <= s.len() && s.subrange(i, i + pat.len()) == pat
}

/// Whether two character sequences are equal.
pub fn chars_eq(a: &[char], b: &[char]) -> (r: bool)
    ensures
        r == (a@ == b@),
{
    if a.len() != b.len() {
        return false;
    }
    let r = match_at(a, b, 0);
    assert(a@.subrange(0, b@.len() as int) == a@);
    r
}

/// Whether `s` starts with `pat`.
pub open spec fn has_prefix(s: Seq<char>, pat: Seq<char>) -> bool {
    matches_at(s, pat, 0)
}

/// Whether `pat` occurs in `v` at position `i`.
pub fn match_at(v: &[char], pat: &[char], i: usize) -> (b: bool)
    ensures
        b == matches_at(v@, pat@, i as int),
{
    if i > v.len() || pat.len() > v.len() - i {
        return false;
    }
    let n = v.len();
    let mut k: usize = 0;
    while k < pat.len()
        invariant
            n == v@.len(),
            i + pat@.len() <= v@.len(),
            i <= v@.len(),
            k <= pat@.len(),
            forall|m: int| 0 <= m < k ==> v@[i + m] == pat@[m],
        decreases pat@.len() - k,
    {
        assert(i + k < v@.len());
        if v[i + k] != pat[k] {
            assert(v@.subrange(i as int, i + pat@.len())[k as int] != pat@[k as int]);
            return false;
        }
        k = k + 1;
    }
    assert(v@.subrange(i as int, i + pat@.len()) == pat@);
    true
}

/// Whether `v` starts with `pat` (`str::starts_with`).
pub fn starts_with(v: &[char], pat: &[char]) -> (b: bool)
    ensures
        b == has_prefix(v@, pat@),
{
    match_at(v, pat, 0)
}

/// The first position at or after `i` at which `pat` occurs in `s`.
pub open spec fn match_from(s: Seq<char>, pat: Seq<char>, i: int) -> Option<int>
    decreases s.len() + 1 - i,
{
    if i < 0 || i > s.len() {
        None
    } else if matches_at(s, pat, i) {
        Some(i)
    } else {
        match_from(s, pat, i + 1)
    }
}

/// The first position at which `pat` occurs in `s`, if any (`str::find`).
pub open spec fn first_match(s: Seq<char>, pat: Seq<char>) -> Option<int> {
    match_from(s, pat, 0)
}

/// `match_from` finds a match, the first one from `i`.
pub proof fn lemma_match_from(s: Seq<char>, pat: Seq<char>, i: int)
    requires
        0 <= i,
    ensures
        match match_from(s, pat, i) {
            Some(k) => i <= k && matches_at(s, pat, k) && k + pat.len() <= s.len() && forall|j: int|
                i <= j < k ==> !matches_at(s, pat, j),
            None => forall|j: int| i <= j ==> !matches_at(s, pat, j),
        },
    decreases s.len() + 1 - i,
{
    if i <= s.len() && !matches_at(s, pat, i) {
        lemma_match_from(s, pat, i + 1);
    }
}

/// Skipping positions without a match does not change `match_from`.
pub proof fn lemma_match_from_skip(s: Seq<char>, pat: Seq<char>, i: int, k: int)
    requires
        0 <= i <= k <= s.len() + 1,
        forall|j: int| i <= j < k ==> !matches_at(s, pat, j),
    ensures
        match_from(s, pat, i) == match_from(s, pat, k),
    decreases k - i,
{
    if i < k {
        lemma_match_from_skip(s, pat, i + 1, k);
    }
}

/// Position of the first occurrence of `pat` in `v` at or after `from`.
pub fn find_from(v: &[char], pat: &[char], from: usize) -> (r: Option<usize>)
    requires
        from <= v@.len(),
    ensures
        match r {
            Some(i) => from <= i && matches_at(v@, pat@, i as int) && forall|j: int|
                from <= j < i ==> !matches_at(v@, pat@, j),
            None => forall|j: int| from <= j ==> !matches_at(v@, pat@, j),
        },
{
    let mut i = from;
    loop
        invariant
            from <= i <= v@.len(),
            forall|j: int| from <= j < i ==> !matches_at(v@, pat@, j),
        decreases v@.len() - i,
    {
        if match_at(v, pat, i) {
            return Some(i);
        }
        if i == v.len() {
            assert forall|j: int| from <= j implies !matches_at(v@, pat@, j) by {
                if j > v@.len() {
                }
            }
            return None;
        }
        i = i + 1;
    }
}

/// Position of the first occurrence of `pat` in `v` (`str::find`).
pub fn find(v: &[char], pat: &[char]) -> (r: Option<usize>)
    ensures
        r matches Some(i) ==> first_match(v@, pat@) == Some(i as int),
        r is None ==> first_match(v@, pat@) is None,
{
    let r = find_from(v, pat, 0);
    match r {
        Some(i) => {
            proof {
                lemma_match_from_skip(v@, pat@, 0, i as int);
            }
        },
        None => {
            proof {
                lemma_match_from(v@, pat@, 0);
                if first_match(v@, pat@) is Some {
                    assert(false);
                }
            }
        },
    }
    r
}

/// Whether `pat` occurs anywhere in `s`.
pub open spec fn contains_seq(s: Seq<char>, pat: Seq<char>) -> bool {
    exists|i: int| matches_at(s, pat, i)
}

/// Whether `pat` occurs in `v` (`str::contains`).
pub fn contains(v: &[char], pat: &[char]) -> (b: bool)
    ensures
        b == contains_seq(v@, pat@),
{
    let r = find_from(v, pat, 0);
    match r {
        Some(i) => {
            assert(matches_at(v@, pat@, i as int));
            true
        },
        None => false,
    }
}

/// Position of the first `c` in `s`, or `s.len()` when there is none.
pub open spec fn index_of(s: Seq<char>, c: char) -> nat
    decreases s.len(),
{
    if s.len() == 0 {
        0
    } else if s[0] == c {
        0
    } else {
        1 + index_of(s.drop_first(), c)
    }
}

/// The pieces of `s` between occurrences of `c` (`str::split` with a character).
pub open spec fn split_on(s: Seq<char>, c: char) -> Seq<Seq<char>>
    decreases s.len(),
{
    let p = index_of(s, c);
    if p >= s.len() {
        seq![s]
    } else {
        seq![s.take(p as int)] + split_on(s.skip(p as int + 1), c)
    }
}

/// `index_of` is the first position holding `c`.
pub proof fn lemma_index_of(s: Seq<char>, c: char, k: int)
    requires
        0 <= k <= s.len(),
        forall|j: int| 0 <= j < k ==> s[j] != c,
        k == s.len() || s[k] == c,
    ensures
        index_of(s, c) == k,
    decreases k,
{
    if k > 0 {
        lemma_index_of(s.drop_first(), c, k - 1);
    }
}

/// When `index_of` falls inside `s`, `c` is there.
pub proof fn lemma_index_of_found(s: Seq<char>, c: char)
    ensures
        index_of(s, c) <= s.len(),
        index_of(s, c) < s.len() ==> s[index_of(s, c) as int] == c,
    decreases s.len(),
{
    if s.len() > 0 && s[0] != c {
        lemma_index_of_found(s.drop_first(), c);
    }
}

/// Position of the first `c` in `v` (`str::find` with a character).
pub fn find_char(v: &[char], c: char) -> (r: Option<usize>)
    ensures
        match r {
            Some(i) => i == index_of(v@, c) && i < v@.len() && v@[i as int] == c,
            None => index_of(v@, c) == v@.len(),
        },
{
    let n = v.len();
    let mut i: usize = 0;
    while i < n
        invariant
            n == v@.len(),
            i <= n,
            forall|j: int| 0 <= j < i ==> v@[j] != c,
        decreases n - i,
    {
        if v[i] == c {
            proof {
                lemma_index_of(v@, c, i as int);
            }
            return Some(i);
        }
        i = i + 1;
    }
    proof {
        lemma_index_of(v@, c, n as int);
    }
    None
}

/// Position of the last `c` in `s`, if any.
pub open spec fn last_index_of(s: Seq<char>, c: char) -> Option<int>
    decreases s.len(),
{
    if s.len() == 0 {
        None
    } else if s.last() == c {
        Some(s.len() - 1)
    } else {
        last_index_of(s.drop_last(), c)
    }
}

/// Position of the last `c` in `v` (`str::rfind` with a character).
pub fn rfind_char(v: &[char], c: char) -> (r: Option<usize>)
    ensures
        match r {
            Some(i) => last_index_of(v@, c) == Some(i as int) && i < v@.len(),
            None => last_index_of(v@, c) is None,
        },
{
    let mut i: usize = v.len();
    assert(v@.take(i as int) == v@);
    while i > 0
        invariant
            i <= v@.len(),
            last_index_of(v@, c) == last_index_of(v@.take(i as int), c),
        decreases i,
    {
        assert(v@.take(i as int).last() == v@[i - 1]);
        assert(v@.take(i as int).drop_last() == v@.take(i - 1));
        if v[i - 1] == c {
            return Some(i - 1);
        }
        i = i - 1;
    }
    None
}

/// The pieces held in a vector of character vectors.
pub open spec fn pieces(v: Seq<Vec<char>>) -> Seq<Seq<char>> {
    v.map_values(|p: Vec<char>| p@)
}

/// Splits `v` at every `c`.
pub fn split_char(v: &[char], c: char) -> (r: Vec<Vec<char>>)
    ensures
        pieces(r@) == split_on(v@, c),
{
    let n = v.len();
    let mut done: Vec<Vec<char>> = Vec::new();
    let mut cur: Vec<char> = Vec::new();
    let mut start: usize = 0;
    let mut i: usize = 0;
    assert(v@.skip(0) == v@);
    assert(pieces(done@) + split_on(v@, c) == split_on(v@, c));
    while i < n
        invariant
            n == v@.len(),
            start <= i <= n,
            cur@ == v@.subrange(start as int, i as int),
            forall|j: int| start <= j < i ==> v@[j] != c,
            split_on(v@, c) == pieces(done@) + split_on(v@.skip(start as int), c),
        decreases n - i,
    {
        if v[i] == c {
            let ghost t = v@.skip(start as int);
            proof {
                lemma_index_of(t, c, i - start);
                assert(t.take(i - start) == cur@);
                assert(t.skip(i - start + 1) == v@.skip(i + 1));
            }
            let piece = cur;
            let ghost d0 = pieces(done@);
            done.push(piece);
            proof {
                assert(pieces(done@) == d0.push(piece@));
                assert(d0.push(piece@) + split_on(v@.skip(i + 1), c) == d0 + (seq![piece@]
                    + split_on(v@.skip(i + 1), c)));
            }
            cur = Vec::new();
            start = i + 1;
            assert(cur@ == v@.subrange(start as int, start as int));
        } else {
            cur.push(v[i]);
            assert(v@.subrange(start as int, i as int).push(v@[i as int]) == v@.subrange(
                start as int,
                i + 1,
            ));
        }
        i = i + 1;
    }
    let ghost t = v@.skip(start as int);
    proof {
        lemma_index_of(t, c, t.len() as int);
        assert(t == cur@);
    }
    let ghost d0 = pieces(done@);
    done.push(cur);
    assert(pieces(done@) == d0.push(t));
    assert(d0.push(t) == d0 + seq![t]);
    done
}

/// Whether every character of `s` is an ASCII decimal digit.
pub open spec fn all_digits(s: Seq<char>) -> bool {
    forall|i: int| 0 <= i < s.len() ==> '0' <= #[trigger] s[i] <= '9'
}

/// The number that a string of decimal digits denotes.
pub open spec fn digits_value(s: Seq<char>) -> nat
    decreases s.len(),
{
    if s.len() == 0 {
        0
    } else {
        digits_value(s.drop_last()) * 10 + ((s.last() as u32 - '0' as u32) as nat)
    }
}

/// The magnitude of an unsigned decimal number as `str::parse` reads it: an
/// optional `+`, then at least one digit; `None` for any other text.
pub open spec fn unsigned_value(s: Seq<char>) -> Option<nat> {
    let d = if s.len() > 0 && s[0] == '+' {
        s.drop_first()
    } else {
        s
    };
    if d.len() > 0 && all_digits(d) {
        Some(digits_value(d))
    } else {
        None
    }
}

/// The value of a signed decimal number as `str::parse` reads it: an optional
/// `+` or `-`, then at least one digit; `None` for any other text.
pub open spec fn signed_value(s: Seq<char>) -> Option<int> {
    if s.len() > 0 && s[0] == '-' {
        let d = s.drop_first();
        if d.len() > 0 && all_digits(d) {
            Some(-(digits_value(d) as int))
        } else {
            None
        }
    } else {
        match unsigned_value(s) {
            Some(v) => Some(v as int),
            None => None,
        }
    }
}

/// The result of parsing `s` as an unsigned number no larger than `max`.
pub open spec fn parse_unsigned(s: Seq<char>, max: nat) -> Option<nat> {
    match unsigned_value(s) {
        Some(v) => if v <= max {
            Some(v)
        } else {
            None
        },
        None => None,
    }
}

/// A longer digit string is worth at least as much as its prefix.
proof fn lemma_digits_grow(s: Seq<char>, c: char)
    ensures
        digits_value(s.push(c)) >= digits_value(s),
        digits_value(s.push(c)) == digits_value(s) * 10 + ((c as u32 - '0' as u32) as nat),
{
    assert(s.push(c).drop_last() == s);
}

/// A digit string is worth at least as much as any of its prefixes.
proof fn lemma_digits_prefix(s: Seq<char>, k: int)
    requires
        0 <= k <= s.len(),
    ensures
        digits_value(s) >= digits_value(s.take(k)),
    decreases s.len(),
{
    if k < s.len() {
        lemma_digits_prefix(s.drop_last(), k);
        lemma_digits_grow(s.drop_last(), s.last());
        assert(s.drop_last().push(s.last()) == s);
        assert(s.drop_last().take(k) == s.take(k));
    } else {
        assert(s.take(k) == s);
    }
}

/// Value of the digits `v[from..]` when it is at most `max`.
fn digits_bounded(v: &[char], from: usize, max: u64) -> (r: Option<u64>)
    requires
        from <= v@.len(),
        all_digits(v@.skip(from as int)),
        max >= 9,
    ensures
        match r {
            Some(x) => x == digits_value(v@.skip(from as int)) && x <= max,
            None => digits_value(v@.skip(from as int)) > max,
        },
{
    let n = v.len();
    let mut acc: u64 = 0;
    let mut i = from;
    assert(v@.subrange(from as int, from as int).len() == 0);
    while i < n
        invariant
            n == v@.len(),
            from <= i <= n,
            all_digits(v@.skip(from as int)),
            max >= 9,
            acc == digits_value(v@.subrange(from as int, i as int)),
            acc <= max,
        decreases n - i,
    {
        let ghost p = v@.subrange(from as int, i as int);
        assert(v@.skip(from as int)[i - from] == v@[i as int]);
        let d = (v[i] as u32 - '0' as u32) as u64;
        proof {
            lemma_digits_grow(p, v@[i as int]);
            assert(p.push(v@[i as int]) == v@.subrange(from as int, i + 1));
        }
        if acc > (max - d) / 10 {
            // the remaining digits only make the number larger
            assert(digits_value(v@.subrange(from as int, i + 1)) > max) by (nonlinear_arith)
                requires
                    digits_value(v@.subrange(from as int, i + 1)) == acc * 10 + d,
                    acc > (max - d) / 10,
                    d <= 9,
                    d <= max,
            ;
            proof {
                lemma_digits_prefix(v@.skip(from as int), i + 1 - from);
                assert(v@.skip(from as int).take(i + 1 - from) == v@.subrange(from as int, i + 1));
            }
            return None;
        }
        acc = acc * 10 + d;
        i = i + 1;
    }
    assert(v@.subrange(from as int, n as int) == v@.skip(from as int));
    Some(acc)
}

/// The result of parsing `s` as a signed number within `[min, max]`.
pub open spec fn parse_signed(s: Seq<char>, min: int, max: int) -> Option<int> {
    match signed_value(s) {
        Some(v) => if min <= v && v <= max {
            Some(v)
        } else {
            None
        },
        None => None,
    }
}

/// Whether `v[from..]` is made of decimal digits.
pub fn digits_only(v: &[char], from: usize) -> (b: bool)
    requires
        from <= v@.len(),
    ensures
        b == all_digits(v@.skip(from as int)),
{
    let n = v.len();
    let mut i = from;
    while i < n
        invariant
            n == v@.len(),
            from <= i <= n,
            forall|j: int| from <= j < i ==> '0' <= #[trigger] v@[j] <= '9',
        decreases n - i,
    {
        if !('0' <= v[i] && v[i] <= '9') {
            assert(!('0' <= v@.skip(from as int)[i - from] <= '9'));
            return false;
        }
        i = i + 1;
    }
    assert forall|k: int| 0 <= k < v@.skip(from as int).len() implies '0' <= #[trigger] v@.skip(
        from as int,
    )[k] <= '9' by {
        assert(v@.skip(from as int)[k] == v@[from + k]);
    }
    true
}

/// Parses an unsigned decimal number no larger than `max`, as `str::parse`
/// does for the unsigned integer types.
pub fn parse_unsigned_chars(v: &[char], max: u64) -> (r: Option<u64>)
    requires
        max >= 9,
    ensures
        match r {
            Some(x) => parse_unsigned(v@, max as nat) == Some(x as nat),
            None => parse_unsigned(v@, max as nat) is None,
        },
{
    if v.len() == 0 {
        return None;
    }
    let start: usize = if v[0] == '+' { 1 } else { 0 };
    assert(v@.skip(start as int) == (if v@[0] == '+' { v@.drop_first() } else { v@ }));
    if start == v.len() {
        return None;
    }
    if !digits_only(v, start) {
        return None;
    }
    digits_bounded(v, start, max)
}

/// Parses a signed decimal number within `[min, max]`, as `str::parse` does
/// for the signed integer types.
pub fn parse_signed_chars(v: &[char], min: i64, max: i64) -> (r: Option<i64>)
    requires
        min <= -9,
        max >= 9,
    ensures
        match r {
            Some(x) => parse_signed(v@, min as int, max as int) == Some(x as int),
            None => parse_signed(v@, min as int, max as int) is None,
        },
{
    if v.len() == 0 {
        return None;
    }
    if v[0] == '-' {
        if v.len() == 1 || !digits_only(v, 1) {
            return None;
        }
        assert(v@.skip(1) == v@.drop_first());
        let bound: u64 = (-(min + 1)) as u64 + 1;
        match digits_bounded(v, 1, bound) {
            None => None,
            Some(x) => {
                if x == bound {
                    Some(min)
                } else {
                    Some(-(x as i64))
                }
            },
        }
    } else {
        match parse_unsigned_chars(v, max as u64) {
            None => None,
            Some(x) => Some(x as i64),
        }
    }
}

/// The decimal digit character for `d < 10`.
pub open spec fn digit_char(d: nat) -> char {
    ((d + 48) as u8) as char
}

/// The decimal representation of `n`, without leading zeros.
pub open spec fn decimal(n: nat) -> Seq<char>
    decreases n,
{
    if n < 10 {
        seq![digit_char(n)]
    } else {
        decimal(n / 10).push(digit_char(n % 10))
    }
}

/// The decimal representation of `n` (as `format!("{}", n)` writes it).
pub fn decimal_chars(n: u64) -> (r: Vec<char>)
    ensures
        r@ == decimal(n as nat),
    decreases n,
{
    let d = ((n % 10) as u8 + 48u8) as char;
    if n < 10 {
        let mut r = Vec::new();
        r.push(d);
        r
    } else {
        let mut r = decimal_chars(n / 10);
        r.push(d);
        r
    }
}

/// Number of bytes `c` takes in UTF-8 (`char::len_utf8`).
pub open spec fn utf8_width(c: char) -> nat {
    let u = c as u32;
    if u < 0x80 {
        1
    } else if u < 0x800 {
        2
    } else if u < 0x10000 {
        3
    } else {
        4
    }
}

/// When the first `b` bytes of the UTF-8 encoding of `s` end on a character
/// boundary, the number of characters they hold; otherwise `None` (slicing a
/// `str` there would panic).
pub open spec fn chars_at_byte(s: Seq<char>, b: int) -> Option<nat>
    decreases s.len(),
{
    if b == 0 {
        Some(0)
    } else if s.len() == 0 || b < utf8_width(s[0]) {
        None
    } else {
        match chars_at_byte(s.drop_first(), b - utf8_width(s[0])) {
            Some(j) => Some(j + 1),
            None => None,
        }
    }
}

/// The number of bytes `s` takes in UTF-8 (`str::len`).
pub open spec fn utf8_len(s: Seq<char>) -> nat
    decreases s.len(),
{
    if s.len() == 0 {
        0
    } else {
        utf8_len(s.drop_last()) + utf8_width(s.last())
    }
}

/// The number of bytes `v` takes in UTF-8.
pub fn byte_len(v: &[char]) -> (n: usize)
    requires
        utf8_len(v@) <= usize::MAX,
    ensures
        n == utf8_len(v@),
{
    let mut n: usize = 0;
    let mut i: usize = 0;
    while i < v.len()
        invariant
            i <= v@.len(),
            n == utf8_len(v@.take(i as int)),
            utf8_len(v@) <= usize::MAX,
        decreases v@.len() - i,
    {
        proof {
            assert(v@.take(i + 1).drop_last() == v@.take(i as int));
            lemma_utf8_len_prefix(v@, i + 1);
        }
        n = n + utf8_width_of(v[i]);
        i = i + 1;
    }
    assert(v@.take(v@.len() as int) == v@);
    n
}

/// A prefix takes no more bytes than the whole.
proof fn lemma_utf8_len_prefix(s: Seq<char>, k: int)
    requires
        0 <= k <= s.len(),
    ensures
        utf8_len(s.take(k)) <= utf8_len(s),
    decreases s.len() - k,
{
    if k < s.len() {
        lemma_utf8_len_prefix(s, k + 1);
        assert(s.take(k + 1).drop_last() == s.take(k));
    } else {
        assert(s.take(k) == s);
    }
}

/// Number of bytes `c` takes in UTF-8.
pub fn utf8_width_of(c: char) -> (w: usize)
    ensures
        w == utf8_width(c),
{
    let u = c as u32;
    if u < 0x80 {
        1
    } else if u < 0x800 {
        2
    } else if u < 0x10000 {
        3
    } else {
        4
    }
}

/// The number of characters in the first `b` bytes of `v`, when `b` falls on a
/// character boundary.
pub fn char_index_of_byte(v: &[char], b: usize) -> (r: Option<usize>)
    ensures
        match r {
            Some(j) => chars_at_byte(v@, b as int) == Some(j as nat) && j <= v@.len(),
            None => chars_at_byte(v@, b as int) is None,
        },
{
    let n = v.len();
    let mut i: usize = 0;
    let mut acc: usize = 0;
    assert(v@.skip(0) == v@);
    while acc < b && i < n
        invariant
            n == v@.len(),
            i <= n,
            acc <= b,
            match chars_at_byte(v@, b as int) {
                Some(j) => chars_at_byte(v@.skip(i as int), b - acc) == Some((j - i) as nat) && j
                    >= i,
                None => chars_at_byte(v@.skip(i as int), b - acc) is None,
            },
        decreases n - i,
    {
        let w = utf8_width_of(v[i]);
        let ghost t = v@.skip(i as int);
        assert(t[0] == v@[i as int]);
        assert(t.drop_first() == v@.skip(i + 1));
        if w > b - acc {
            return None;
        }
        acc = acc + w;
        i = i + 1;
    }
    if acc == b {
        Some(i)
    } else {
        assert(v@.skip(i as int).len() == 0);
        None
    }
}

/// Unicode lowercase mapping of a string, as `str::to_lowercase` computes it.
pub uninterp spec fn lowercase(s: Seq<char>) -> Seq<char>;

/// Whether every character of `s` is ASCII.
pub open spec fn all_ascii(s: Seq<char>) -> bool {
    forall|i: int| 0 <= i < s.len() ==> (#[trigger] s[i] as u32) < 0x80
}

/// The ASCII lowercase of a character: `A` to `Z` become `a` to `z`, every
/// other character stays.
pub open spec fn ascii_lower_char(c: char) -> char {
    if 0x41 <= (c as u32) <= 0x5a {
        ((c as u32) + 32) as char
    } else {
        c
    }
}

/// The ASCII lowercase of a sequence, character by character.
pub open spec fn ascii_lower(s: Seq<char>) -> Seq<char> {
    s.map_values(|c: char| ascii_lower_char(c))
}

/// Lowercases `v` with `str::to_lowercase`. The contract names the result
/// (`lowercase`) and states the one fact of the Unicode mapping that std
/// documents plainly: on ASCII text only `A` to `Z` change, to `a` to `z`
/// (the ASCII lowercase). Of other text it claims nothing more.
#[verifier::external_body]
pub(crate) fn to_lowercase_chars(v: &[char]) -> (r: Vec<char>)
    ensures
        r@ == lowercase(v@),
        all_ascii(v@) ==> r@ == ascii_lower(v@),
{
    let s: String = v.iter().collect();
    s.to_lowercase().chars().collect()
}

/// The ASCII lowercase of a character is ASCII, keeps its white-space
/// status, and lowercasing it again changes nothing.
pub proof fn lemma_ascii_lower_char(c: char)
    requires
        (c as u32) < 0x80,
    ensures
        (ascii_lower_char(c) as u32) < 0x80,
        is_white_space(ascii_lower_char(c)) == is_white_space(c),
        ascii_lower_char(ascii_lower_char(c)) == ascii_lower_char(c),
{
    if 0x41 <= (c as u32) <= 0x5a {
        assert((((c as u32) + 32) as char) as u32 == (c as u32) + 32);
    }
}

/// Trimming keeps only characters of the text: ASCII text stays ASCII.
pub proof fn lemma_trim_ascii(s: Seq<char>)
    requires
        all_ascii(s),
    ensures
        all_ascii(trim_start(s)),
        all_ascii(trim_end(s)),
        all_ascii(trim(s)),
    decreases s.len(),
{
    if s.len() > 0 {
        assert(all_ascii(s.drop_first())) by {
            assert forall|i: int| 0 <= i < s.drop_first().len() implies (#[trigger] s.drop_first()[i] as u32) < 0x80 by {
                assert(s.drop_first()[i] == s[i + 1]);
            }
        }
        assert(all_ascii(s.drop_last())) by {
            assert forall|i: int| 0 <= i < s.drop_last().len() implies (#[trigger] s.drop_last()[i] as u32) < 0x80 by {
                assert(s.drop_last()[i] == s[i]);
            }
        }
        lemma_trim_ascii(s.drop_first());
        lemma_trim_ascii(s.drop_last());
    }
    if all_ascii(trim_start(s)) {
        lemma_trim_ascii_end(trim_start(s));
    }
}

proof fn lemma_trim_ascii_end(s: Seq<char>)
    requires
        all_ascii(s),
    ensures
        all_ascii(trim_end(s)),
    decreases s.len(),
{
    if s.len() > 0 && is_white_space(s.last()) {
        assert(all_ascii(s.drop_last())) by {
            assert forall|i: int| 0 <= i < s.drop_last().len() implies (#[trigger] s.drop_last()[i] as u32) < 0x80 by {
                assert(s.drop_last()[i] == s[i]);
            }
        }
        lemma_trim_ascii_end(s.drop_last());
    }
}

/// Lowercasing ASCII text and trimming it can be done in either order.
proof fn lemma_trim_start_lower(s: Seq<char>)
    requires
        all_ascii(s),
    ensures
        trim_start(ascii_lower(s)) == ascii_lower(trim_start(s)),
    decreases s.len(),
{
    let l = ascii_lower(s);
    if s.len() > 0 {
        lemma_ascii_lower_char(s[0]);
        assert(l[0] == ascii_lower_char(s[0]));
        if is_white_space(s[0]) {
            assert(l.drop_first() == ascii_lower(s.drop_first()));
            assert(all_ascii(s.drop_first())) by {
                assert forall|i: int| 0 <= i < s.drop_first().len() implies (#[trigger] s.drop_first()[i] as u32) < 0x80 by {
                    assert(s.drop_first()[i] == s[i + 1]);
                }
            }
            lemma_trim_start_lower(s.drop_first());
        }
    }
}

proof fn lemma_trim_end_lower(s: Seq<char>)
    requires
        all_ascii(s),
    ensures
        trim_end(ascii_lower(s)) == ascii_lower(trim_end(s)),
    decreases s.len(),
{
    let l = ascii_lower(s);
    if s.len() > 0 {
        lemma_ascii_lower_char(s.last());
        assert(l.last() == ascii_lower_char(s.last()));
        if is_white_space(s.last()) {
            assert(l.drop_last() == ascii_lower(s.drop_last()));
            assert(all_ascii(s.drop_last())) by {
                assert forall|i: int| 0 <= i < s.drop_last().len() implies (#[trigger] s.drop_last()[i] as u32) < 0x80 by {
                    assert(s.drop_last()[i] == s[i]);
                }
            }
            lemma_trim_end_lower(s.drop_last());
        }
    }
}

/// Trimming twice is trimming once.
proof fn lemma_trim_twice(s: Seq<char>)
    ensures
        trim(trim(s)) == trim(s),
{
    let a = trim_start(s);
    lemma_trim_start_no_lead(s);
    lemma_trim_end_keeps_lead(a);
    let b = trim_end(a);
    assert(trim_start(b) == b);
    lemma_trim_end_twice(a);
}

proof fn lemma_trim_start_no_lead(s: Seq<char>)
    ensures
        trim_start(s).len() == 0 || !is_white_space(trim_start(s)[0]),
    decreases s.len(),
{
    if s.len() > 0 && is_white_space(s[0]) {
        lemma_trim_start_no_lead(s.drop_first());
    }
}

proof fn lemma_trim_end_keeps_lead(s: Seq<char>)
    requires
        s.len() == 0 || !is_white_space(s[0]),
    ensures
        trim_end(s).len() == 0 || !is_white_space(trim_end(s)[0]),
    decreases s.len(),
{
    if s.len() > 0 && is_white_space(s.last()) {
        if s.drop_last().len() > 0 {
            assert(s.drop_last()[0] == s[0]);
        }
        lemma_trim_end_keeps_lead(s.drop_last());
    }
}

proof fn lemma_trim_end_twice(s: Seq<char>)
    ensures
        trim_end(trim_end(s)) == trim_end(s),
    decreases s.len(),
{
    if s.len() > 0 && is_white_space(s.last()) {
        lemma_trim_end_twice(s.drop_last());
    }
}

/// ASCII lowercasing leaves lowercase text as it is.
proof fn lemma_ascii_lower_twice(s: Seq<char>)
    requires
        all_ascii(s),
    ensures
        ascii_lower(ascii_lower(s)) == ascii_lower(s),
        all_ascii(ascii_lower(s)),
{
    assert forall|i: int| 0 <= i < s.len() implies #[trigger] ascii_lower(ascii_lower(s))[i] == ascii_lower(s)[i]
        && (ascii_lower(s)[i] as u32) < 0x80 by {
        lemma_ascii_lower_char(s[i]);
    }
    assert(ascii_lower(ascii_lower(s)) == ascii_lower(s));
}

/// For ASCII text, trimming and lowercasing the trimmed, lowercased text
/// changes nothing: `trim(lower(trim(s)))` is `lower(trim(s))`, and it is
/// lowercase already.
pub proof fn lemma_trim_lower_settled(s: Seq<char>)
    requires
        all_ascii(s),
    ensures
        all_ascii(trim(s)),
        all_ascii(ascii_lower(trim(s))),
        trim(ascii_lower(trim(s))) == ascii_lower(trim(s)),
        ascii_lower(trim(ascii_lower(trim(s)))) == ascii_lower(trim(s)),
{
    let t = trim(s);
    lemma_trim_ascii(s);
    lemma_ascii_lower_twice(t);
    lemma_trim_start_lower(t);
    lemma_trim_ascii(t);
    lemma_trim_end_lower(trim_start(t));
    lemma_trim_twice(s);
}

proof fn lemma_digit_char(k: nat)
    requires
        k < 10,
    ensures
        digit_char(k) as u32 == k + 48,
        '0' <= digit_char(k) <= '9',
{
    assert(((k + 48) as u8) as int == k + 48);
}

/// Reading back a number written in decimal gives the number.
pub proof fn lemma_decimal_parses(n: nat)
    ensures
        all_digits(decimal(n)),
        decimal(n).len() > 0,
        digits_value(decimal(n)) == n,
        unsigned_value(decimal(n)) == Some(n),
    decreases n,
{
    let d = decimal(n);
    if n < 10 {
        lemma_digit_char(n);
        assert(d == seq![digit_char(n)]);
        assert(d.drop_last() == Seq::<char>::empty());
        assert(('0' as u32) == 48);
        assert(digits_value(d) == digits_value(d.drop_last()) * 10 + ((d.last() as u32 - '0' as u32) as nat));
    } else {
        lemma_digit_char(n % 10);
        lemma_decimal_parses(n / 10);
        let front = decimal(n / 10);
        assert(d == front.push(digit_char(n % 10)));
        assert(d.drop_last() == front);
        assert(d.last() == digit_char(n % 10));
        assert(('0' as u32) == 48);
        assert((d.last() as u32 - '0' as u32) as nat == n % 10);
        assert(digits_value(d) == digits_value(front) * 10 + ((d.last() as u32 - '0' as u32) as nat));
        assert(n == (n / 10) * 10 + n % 10);
        assert forall|i: int| 0 <= i < d.len() implies '0' <= #[trigger] d[i] <= '9' by {
            if i < front.len() {
                assert(d[i] == front[i]);
            }
        }
    }
    assert(d[0] != '+') by {
        assert('0' <= d[0] <= '9');
    }
}

} // verus!
