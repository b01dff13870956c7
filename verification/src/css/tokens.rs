//! The tokens of one selector part, found from left to right: a tag name,
//! `*` or `$`; `#id`; `.class`; and `:prop`, where `:not(.x)` and `:not(:x)`
//! are read and dropped.
use crate::text::{slice_range, string_of};
use vstd::prelude::*;

verus! {

/// The groups of one token that the parser reads: the tag (or `*` or `$`),
/// the id, the class and the property.
pub type CssGroups = (Option<String>, Option<String>, Option<String>, Option<String>);

/// A token's groups as character sequences.
pub type CssGroupsView = (Option<Seq<char>>, Option<Seq<char>>, Option<Seq<char>>, Option<Seq<char>>);

/// Whether `c` is a Unicode word character (alphabetic, decimal number, mark,
/// connector punctuation or join control), as `regex_syntax` decides it.
pub uninterp spec fn word_char(c: char) -> bool;

/// The ASCII word characters: `_`, the digits and the ASCII letters.
pub open spec fn ascii_word(c: char) -> bool {
    let u = c as u32;
    u == 0x5f || (0x30 <= u <= 0x39) || (0x41 <= u <= 0x5a) || (0x61 <= u <= 0x7a)
}

/// `regex_syntax::is_word_character`. Its source answers from a fixed table
/// of ranges; below 0x80 the table holds exactly `_`, the digits and the ASCII
/// letters. The contract names the result (`word_char`) and states that
/// ASCII fact; it says nothing of other characters.
#[verifier::external_body]
fn is_word(c: char) -> (r: bool)
    ensures
        r == word_char(c),
        (c as u32) < 0x80 ==> (r == ascii_word(c)),
{
    regex_syntax::is_word_character(c)
}

/// The three kinds of character runs a token is made of.
#[derive(Clone, Copy)]
pub enum RunKind {
    /// Word characters (tag names and ids).
    Word,
    /// Anything but `.`, `:` and space (classes and properties).
    Name,
    /// Anything but `)` (the inside of `:not(...)`).
    Inner,
}

/// Whether `c` may stand in a run of kind `k`.
pub open spec fn in_run(k: RunKind, c: char) -> bool {
    match k {
        RunKind::Word => word_char(c),
        RunKind::Name => c != '.' && c != ':' && c != ' ',
        RunKind::Inner => c != ')',
    }
}

/// Where the longest run of kind `k` that starts at `i` ends.
pub open spec fn run_end(s: Seq<char>, i: int, k: RunKind) -> int
    decreases s.len() - i,
{
    if 0 <= i < s.len() && in_run(k, s[i]) {
        run_end(s, i + 1, k)
    } else {
        i
    }
}

/// A run ends at or after its start and within the text; every character in
/// it belongs to the run, and the character after it (if any) does not.
pub proof fn lemma_run_end(s: Seq<char>, i: int, k: RunKind)
    requires
        0 <= i <= s.len(),
    ensures
        i <= run_end(s, i, k) <= s.len(),
        forall|j: int| i <= j < run_end(s, i, k) ==> #[trigger] in_run(k, s[j]),
        run_end(s, i, k) < s.len() ==> !in_run(k, s[run_end(s, i, k)]),
    decreases s.len() - i,
{
    if i < s.len() && in_run(k, s[i]) {
        lemma_run_end(s, i + 1, k);
    }
}

/// Whether `not(` and then `d` follow the `:` at `i`.
pub open spec fn opens_not(s: Seq<char>, i: int, d: char) -> bool {
    &&& 0 <= i
    &&& i + 5 < s.len()
    &&& s[i + 1] == 'n'
    &&& s[i + 2] == 'o'
    &&& s[i + 3] == 't'
    &&& s[i + 4] == '('
    &&& s[i + 5] == d
}

/// Where `:not(` `d` ... `)` that starts at `i` ends: at least one character
/// other than `)` must follow `d`, and then a `)`.
pub open spec fn closed_not(s: Seq<char>, i: int, d: char) -> Option<int> {
    if opens_not(s, i, d) {
        let e = run_end(s, i + 6, RunKind::Inner);
        if e > i + 6 && e < s.len() {
            Some(e + 1)
        } else {
            None
        }
    } else {
        None
    }
}

/// The token that starts at `i`, if one does: where it ends, and its groups.
/// A word run is a tag; `*` and `$` stand alone; `#` needs a word run after
/// it, `.` and `:` a run of anything but `.`, `:` and space. After `:`,
/// `not(.x)` and `not(:x)` come first and give no group.
pub open spec fn token_at(s: Seq<char>, i: int) -> Option<(int, CssGroupsView)>
    recommends
        0 <= i < s.len(),
{
    let c = s[i];
    if word_char(c) {
        let e = run_end(s, i, RunKind::Word);
        Some((e, (Some(s.subrange(i, e)), None, None, None)))
    } else if c == '*' || c == '$' {
        Some((i + 1, (Some(seq![c]), None, None, None)))
    } else if c == '#' {
        let e = run_end(s, i + 1, RunKind::Word);
        if e > i + 1 {
            Some((e, (None, Some(s.subrange(i + 1, e)), None, None)))
        } else {
            None
        }
    } else if c == '.' {
        let e = run_end(s, i + 1, RunKind::Name);
        if e > i + 1 {
            Some((e, (None, None, Some(s.subrange(i + 1, e)), None)))
        } else {
            None
        }
    } else if c == ':' {
        if closed_not(s, i, '.') is Some {
            Some((closed_not(s, i, '.')->0, (None, None, None, None)))
        } else if closed_not(s, i, ':') is Some {
            Some((closed_not(s, i, ':')->0, (None, None, None, None)))
        } else {
            let e = run_end(s, i + 1, RunKind::Name);
            if e > i + 1 {
                Some((e, (None, None, None, Some(s.subrange(i + 1, e)))))
            } else {
                None
            }
        }
    } else {
        None
    }
}

/// A token moves past its start and stays within the text.
pub proof fn lemma_token_advances(s: Seq<char>, i: int)
    requires
        0 <= i < s.len(),
    ensures
        token_at(s, i) matches Some((e, g)) ==> i < e <= s.len(),
{
    lemma_run_end(s, i, RunKind::Word);
    lemma_run_end(s, i + 1, RunKind::Word);
    lemma_run_end(s, i + 1, RunKind::Name);
    if i + 6 <= s.len() {
        lemma_run_end(s, i + 6, RunKind::Inner);
    }
}

/// The groups of the successive tokens from position `i` on: where no token
/// starts, the search moves one character on; after a token it goes on where
/// the token ends.
pub open spec fn tokens_from(s: Seq<char>, i: int) -> Seq<CssGroupsView>
    decreases s.len() - i,
{
    if i < 0 || i >= s.len() {
        seq![]
    } else {
        proof {
            lemma_token_advances(s, i);
        }
        match token_at(s, i) {
            Some((e, g)) => seq![g] + tokens_from(s, e),
            None => tokens_from(s, i + 1),
        }
    }
}

/// The groups of all tokens of `text`, in order.
pub open spec fn css_matches(text: Seq<char>) -> Seq<CssGroupsView> {
    tokens_from(text, 0)
}

/// Whether `c` may stand in a run of kind `k`, computed.
fn in_run_exec(k: RunKind, c: char) -> (b: bool)
    ensures
        b == in_run(k, c),
{
    match k {
        RunKind::Word => is_word(c),
        RunKind::Name => c != '.' && c != ':' && c != ' ',
        RunKind::Inner => c != ')',
    }
}

/// Where the longest run of kind `k` that starts at `i` ends, computed.
pub fn run_end_exec(s: &[char], i: usize, k: RunKind) -> (e: usize)
    requires
        i <= s@.len(),
    ensures
        e == run_end(s@, i as int, k),
{
    let mut j = i;
    while j < s.len() && in_run_exec(k, s[j])
        invariant
            i <= j <= s@.len(),
            run_end(s@, j as int, k) == run_end(s@, i as int, k),
        decreases s@.len() - j,
    {
        j = j + 1;
    }
    j
}

/// Where `:not(` `d` ... `)` that starts at `i` ends, computed.
fn closed_not_exec(s: &[char], i: usize, d: char) -> (r: Option<usize>)
    requires
        i < s@.len(),
    ensures
        match r {
            Some(e) => closed_not(s@, i as int, d) == Some(e as int),
            None => closed_not(s@, i as int, d) is None,
        },
{
    if s.len() - i > 5 && s[i + 1] == 'n' && s[i + 2] == 'o' && s[i + 3] == 't' && s[i + 4] == '('
        && s[i + 5] == d {
        let e = run_end_exec(s, i + 6, RunKind::Inner);
        proof {
            lemma_run_end(s@, i + 6, RunKind::Inner);
        }
        if e > i + 6 && e < s.len() {
            Some(e + 1)
        } else {
            None
        }
    } else {
        None
    }
}

/// The characters `s[a..b]` as a string.
fn text_between(s: &[char], a: usize, b: usize) -> (r: String)
    requires
        a <= b <= s@.len(),
    ensures
        r@ == s@.subrange(a as int, b as int),
{
    let v = slice_range(s, a, b);
    string_of(v.as_slice())
}

/// The token that starts at `i`, if one does: where it ends, and its groups.
pub fn token_at_exec(s: &[char], i: usize) -> (r: Option<(usize, CssGroups)>)
    requires
        i < s@.len(),
    ensures
        match r {
            Some((e, g)) => token_at(s@, i as int) == Some((e as int, g.deep_view())),
            None => token_at(s@, i as int) is None,
        },
{
    let c = s[i];
    proof {
        lemma_run_end(s@, i as int, RunKind::Word);
        lemma_run_end(s@, i + 1, RunKind::Word);
        lemma_run_end(s@, i + 1, RunKind::Name);
    }
    if is_word(c) {
        let e = run_end_exec(s, i, RunKind::Word);
        Some((e, (Some(text_between(s, i, e)), None, None, None)))
    } else if c == '*' || c == '$' {
        let t = text_between(s, i, i + 1);
        assert(s@.subrange(i as int, i + 1) == seq![c]);
        Some((i + 1, (Some(t), None, None, None)))
    } else if c == '#' {
        let e = run_end_exec(s, i + 1, RunKind::Word);
        if e > i + 1 {
            Some((e, (None, Some(text_between(s, i + 1, e)), None, None)))
        } else {
            None
        }
    } else if c == '.' {
        let e = run_end_exec(s, i + 1, RunKind::Name);
        if e > i + 1 {
            Some((e, (None, None, Some(text_between(s, i + 1, e)), None)))
        } else {
            None
        }
    } else if c == ':' {
        match closed_not_exec(s, i, '.') {
            Some(e) => Some((e, (None, None, None, None))),
            None => match closed_not_exec(s, i, ':') {
                Some(e) => Some((e, (None, None, None, None))),
                None => {
                    let e = run_end_exec(s, i + 1, RunKind::Name);
                    if e > i + 1 {
                        Some((e, (None, None, None, Some(text_between(s, i + 1, e)))))
                    } else {
                        None
                    }
                },
            },
        }
    } else {
        None
    }
}

/// The groups of all tokens of `text`, in order: the tag (or `*` or `$`), id,
/// class and property of each.
pub fn css_captures(text: &[char]) -> (r: Vec<CssGroups>)
    ensures
        r.deep_view() == css_matches(text@),
{
    let mut out: Vec<CssGroups> = Vec::new();
    let mut i: usize = 0;
    while i < text.len()
        invariant
            i <= text@.len(),
            out.deep_view() + tokens_from(text@, i as int) == tokens_from(text@, 0),
        decreases text@.len() - i,
    {
        proof {
            lemma_token_advances(text@, i as int);
        }
        match token_at_exec(text, i) {
            Some((e, g)) => {
                let ghost before = out.deep_view();
                let ghost gv = g.deep_view();
                out.push(g);
                assert(out.deep_view() == before.push(gv));
                assert(before.push(gv) + tokens_from(text@, e as int) == before + (seq![gv]
                    + tokens_from(text@, e as int)));
                i = e;
            },
            None => {
                i = i + 1;
            },
        }
    }
    assert(out.deep_view() + Seq::<CssGroupsView>::empty() == out.deep_view());
    out
}

} // verus!
