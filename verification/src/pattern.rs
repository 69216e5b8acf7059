//! A small regular-expression matcher for `matches` constraints.
//!
//! Supported syntax: literal characters, `.`, the escapes `\d`, `\w`, `\s`
//! (any other escaped character stands for itself), bracket sets such as
//! `[a-z_]` and `[^0-9]`, the quantifiers `*`, `+`, `?`, `{n}`, `{n,}` and
//! `{n,m}` (counts of one to four digits), a leading `^` and a trailing `$`.
//! Without `^` the pattern may match anywhere in the text. Groups and
//! alternation are not supported: a pattern that uses them, or that is
//! otherwise malformed, matches nothing.

use vstd::prelude::*;
use crate::text::chars_of;

verus! {

/// What a single pattern position accepts.
pub enum ClassSpec {
    Any,
    Digit,
    Word,
    Space,
    Lit(char),
    Bracket(bool, Seq<(char, char)>),
}

/// A pattern position with its repetition bounds (`None`: unbounded).
pub struct TokenSpec {
    pub class: ClassSpec,
    pub min: nat,
    pub max: Option<nat>,
}

/// A parsed pattern.
pub struct PatternSpec {
    pub anchored_start: bool,
    pub anchored_end: bool,
    pub tokens: Seq<TokenSpec>,
}

pub open spec fn is_digit(c: char) -> bool {
    '0' as u32 <= c as u32 <= '9' as u32
}

pub open spec fn is_word(c: char) -> bool {
    ||| is_digit(c)
    ||| 'a' as u32 <= c as u32 <= 'z' as u32
    ||| 'A' as u32 <= c as u32 <= 'Z' as u32
    ||| c == '_'
}

pub open spec fn is_space(c: char) -> bool {
    c == ' ' || c == '\t' || c == '\n' || c == '\r' || c as u32 == 11 || c as u32 == 12
}

/// Whether `c` lies in the inclusive character range `r`.
pub open spec fn range_has(r: (char, char), c: char) -> bool {
    r.0 as u32 <= c as u32 <= r.1 as u32
}

/// Whether `c` lies in one of the ranges.
pub open spec fn in_ranges(items: Seq<(char, char)>, c: char) -> bool {
    exists|k: int| 0 <= k < items.len() && #[trigger] range_has(items[k], c)
}

/// Whether character `c` is accepted by `class`.
pub open spec fn class_accepts(class: ClassSpec, c: char) -> bool {
    match class {
        ClassSpec::Any => c != '\n',
        ClassSpec::Digit => is_digit(c),
        ClassSpec::Word => is_word(c),
        ClassSpec::Space => is_space(c),
        ClassSpec::Lit(l) => c == l,
        ClassSpec::Bracket(negated, items) => negated != in_ranges(items, c),
    }
}

/// Parses one atom at `i` (before `end`): its class and the next position.
pub open spec fn parse_atom(p: Seq<char>, i: int, end: int) -> Option<(ClassSpec, int)> {
    if i >= end || i < 0 {
        None
    } else {
        let c = p[i];
        if c == '.' {
            Some((ClassSpec::Any, i + 1))
        } else if c == '\\' {
            if i + 1 >= end {
                None
            } else {
                let d = p[i + 1];
                let class = if d == 'd' {
                    ClassSpec::Digit
                } else if d == 'w' {
                    ClassSpec::Word
                } else if d == 's' {
                    ClassSpec::Space
                } else {
                    ClassSpec::Lit(d)
                };
                Some((class, i + 2))
            }
        } else if c == '[' {
            let negated = i + 1 < end && p[i + 1] == '^';
            let start = if negated { i + 2 } else { i + 1 };
            match parse_set_items(p, start, end) {
                Some((items, next)) => Some((ClassSpec::Bracket(negated, items), next)),
                None => None,
            }
        } else if c == '*' || c == '+' || c == '?' || c == '{' || c == '(' || c == ')' || c
            == '|' {
            None
        } else {
            Some((ClassSpec::Lit(c), i + 1))
        }
    }
}

/// Parses the items of a bracket set from `j` up to and including the closing `]`.
pub open spec fn parse_set_items(p: Seq<char>, j: int, end: int) -> Option<(Seq<(char, char)>, int)>
    decreases end - j,
{
    if j >= end || j < 0 {
        None
    } else if p[j] == ']' {
        Some((Seq::empty(), j + 1))
    } else if j + 2 < end && p[j + 1] == '-' && p[j + 2] != ']' {
        match parse_set_items(p, j + 3, end) {
            Some((rest, next)) => Some((seq![(p[j], p[j + 2])] + rest, next)),
            None => None,
        }
    } else {
        match parse_set_items(p, j + 1, end) {
            Some((rest, next)) => Some((seq![(p[j], p[j])] + rest, next)),
            None => None,
        }
    }
}

/// The number of consecutive digits at `j` (before `end`).
pub open spec fn digit_run(p: Seq<char>, j: int, end: int) -> nat
    decreases end - j,
{
    if j >= end || j < 0 || !is_digit(p[j]) {
        0
    } else {
        1 + digit_run(p, j + 1, end)
    }
}

/// The value of the decimal digits `p[j..k]`.
pub open spec fn digits_value(p: Seq<char>, j: int, k: int) -> nat
    decreases k - j,
{
    if k <= j {
        0
    } else {
        digits_value(p, j, k - 1) * 10 + (p[k - 1] as u32 - '0' as u32) as nat
    }
}

/// Parses a count of one to four digits at `j`.
pub open spec fn parse_count(p: Seq<char>, j: int, end: int) -> Option<(nat, int)> {
    let r = digit_run(p, j, end);
    if r == 0 || r > 4 {
        None
    } else {
        Some((digits_value(p, j, j + r), j + r))
    }
}

/// Parses an optional quantifier at `j`: minimum, maximum and the next position.
pub open spec fn parse_quantifier(p: Seq<char>, j: int, end: int) -> Option<(nat, Option<nat>, int)> {
    if j >= end || j < 0 {
        Some((1, Some(1nat), j))
    } else if p[j] == '*' {
        Some((0, None, j + 1))
    } else if p[j] == '+' {
        Some((1, None, j + 1))
    } else if p[j] == '?' {
        Some((0, Some(1nat), j + 1))
    } else if p[j] == '{' {
        match parse_count(p, j + 1, end) {
            None => None,
            Some((n, k)) => if k < end && p[k] == '}' {
                Some((n, Some(n), k + 1))
            } else if k < end && end - k > 1 && p[k] == ',' && p[k + 1] == '}' {
                Some((n, None, k + 2))
            } else if k < end && p[k] == ',' {
                match parse_count(p, k + 1, end) {
                    None => None,
                    Some((m, l)) => if l < end && p[l] == '}' && n <= m {
                        Some((n, Some(m), l + 1))
                    } else {
                        None
                    },
                }
            } else {
                None
            },
        }
    } else {
        Some((1, Some(1nat), j))
    }
}

/// Parses the tokens of `p[i..end]`.
pub open spec fn parse_tokens(p: Seq<char>, i: int, end: int) -> Option<Seq<TokenSpec>>
    decreases end - i,
{
    if i >= end {
        Some(Seq::empty())
    } else {
        match parse_atom(p, i, end) {
            None => None,
            Some((class, j)) => match parse_quantifier(p, j, end) {
                None => None,
                Some((min, max, k)) => if k <= i || k > end {
                    None
                } else {
                    match parse_tokens(p, k, end) {
                        None => None,
                        Some(rest) => Some(seq![TokenSpec { class, min, max }] + rest),
                    }
                },
            },
        }
    }
}

/// Parses a whole pattern.
pub open spec fn parse_pattern(p: Seq<char>) -> Option<PatternSpec> {
    let anchored_start = p.len() > 0 && p[0] == '^';
    let start: int = if anchored_start { 1 } else { 0 };
    let anchored_end = p.len() > start && p[p.len() - 1] == '$' && !(p.len() >= 2 && p[p.len()
        - 2] == '\\');
    let end: int = if anchored_end { p.len() - 1 } else { p.len() as int };
    match parse_tokens(p, start, end) {
        None => None,
        Some(tokens) => Some(PatternSpec { anchored_start, anchored_end, tokens }),
    }
}

/// Whether the tokens from `ti` on match the text from `pos` on.
pub open spec fn match_here(toks: Seq<TokenSpec>, ti: int, text: Seq<char>, pos: int, end_anchor: bool) -> bool
    decreases toks.len() - ti, text.len() - pos, 1int,
{
    if ti < 0 || pos < 0 || pos > text.len() {
        false
    } else if ti >= toks.len() {
        !end_anchor || pos == text.len()
    } else {
        match_rep(toks, ti, text, pos, 0, end_anchor)
    }
}

/// Whether token `ti`, having already consumed `count` characters at `pos`,
/// can finish so that the rest of the pattern matches.
pub open spec fn match_rep(
    toks: Seq<TokenSpec>,
    ti: int,
    text: Seq<char>,
    pos: int,
    count: int,
    end_anchor: bool,
) -> bool
    decreases toks.len() - ti, text.len() - (pos + count), 0int,
{
    if ti < 0 || ti >= toks.len() || pos < 0 || count < 0 || pos + count > text.len() {
        false
    } else {
        let t = toks[ti];
        ||| count >= t.min && match_here(toks, ti + 1, text, pos + count, end_anchor)
        ||| (t.max is None || count < t.max.unwrap()) && pos + count < text.len() && class_accepts(
            t.class,
            text[pos + count],
        ) && match_rep(toks, ti, text, pos, count + 1, end_anchor)
    }
}

/// Whether the pattern matches at some start position `start` or later.
pub open spec fn search_from(toks: Seq<TokenSpec>, text: Seq<char>, start: int, end_anchor: bool) -> bool
    decreases text.len() - start,
{
    if start < 0 || start > text.len() {
        false
    } else if start == text.len() {
        match_here(toks, 0, text, start, end_anchor)
    } else {
        match_here(toks, 0, text, start, end_anchor) || search_from(toks, text, start + 1, end_anchor)
    }
}

/// Whether `text` matches `pattern`.
pub open spec fn pattern_matches(pattern: Seq<char>, text: Seq<char>) -> bool {
    match parse_pattern(pattern) {
        None => false,
        Some(pat) => if pat.anchored_start {
            match_here(pat.tokens, 0, text, 0, pat.anchored_end)
        } else {
            search_from(pat.tokens, text, 0, pat.anchored_end)
        },
    }
}

enum CharClass {
    Any,
    Digit,
    Word,
    Space,
    Lit(char),
    Bracket(bool, Vec<(char, char)>),
}

impl View for CharClass {
    type V = ClassSpec;

    closed spec fn view(&self) -> ClassSpec {
        match self {
            CharClass::Any => ClassSpec::Any,
            CharClass::Digit => ClassSpec::Digit,
            CharClass::Word => ClassSpec::Word,
            CharClass::Space => ClassSpec::Space,
            CharClass::Lit(c) => ClassSpec::Lit(*c),
            CharClass::Bracket(n, items) => ClassSpec::Bracket(*n, items@),
        }
    }
}

struct Token {
    class: CharClass,
    min: usize,
    max: Option<usize>,
}

impl View for Token {
    type V = TokenSpec;

    closed spec fn view(&self) -> TokenSpec {
        TokenSpec {
            class: self.class@,
            min: self.min as nat,
            max: match self.max {
                Some(m) => Some(m as nat),
                None => None,
            },
        }
    }
}

spec fn token_views(v: Seq<Token>) -> Seq<TokenSpec> {
    v.map_values(|t: Token| t@)
}

fn char_is_digit(c: char) -> (r: bool)
    ensures
        r == is_digit(c),
{
    '0' as u32 <= c as u32 && c as u32 <= '9' as u32
}

fn char_is_word(c: char) -> (r: bool)
    ensures
        r == is_word(c),
{
    let u = c as u32;
    char_is_digit(c) || ('a' as u32 <= u && u <= 'z' as u32) || ('A' as u32 <= u && u <= 'Z'
        as u32) || c == '_'
}

fn char_is_space(c: char) -> (r: bool)
    ensures
        r == is_space(c),
{
    c == ' ' || c == '\t' || c == '\n' || c == '\r' || c as u32 == 11 || c as u32 == 12
}

fn accepts(class: &CharClass, c: char) -> (r: bool)
    ensures
        r == class_accepts(class@, c),
{
    match class {
        CharClass::Any => c != '\n',
        CharClass::Digit => char_is_digit(c),
        CharClass::Word => char_is_word(c),
        CharClass::Space => char_is_space(c),
        CharClass::Lit(l) => c == *l,
        CharClass::Bracket(negated, items) => {
            let mut found = false;
            let mut k: usize = 0;
            while k < items.len()
                invariant
                    k <= items.len(),
                    found == (exists|q: int| 0 <= q < k && #[trigger] range_has(items@[q], c)),
                decreases items.len() - k,
            {
                if items[k].0 as u32 <= c as u32 && c as u32 <= items[k].1 as u32 {
                    assert(range_has(items@[k as int], c));
                    found = true;
                }
                k = k + 1;
            }
            *negated != found
        },
    }
}

fn parse_set_items_exec(p: &Vec<char>, j: usize, end: usize) -> (r: Option<(Vec<(char, char)>, usize)>)
    requires
        end <= p.len(),
    ensures
        match r {
            None => parse_set_items(p@, j as int, end as int) is None,
            Some((items, next)) => parse_set_items(p@, j as int, end as int) == Some(
                (items@, next as int),
            ),
        },
    decreases end - j,
{
    if j >= end {
        None
    } else if p[j] == ']' {
        Some((Vec::new(), j + 1))
    } else if end - j > 2 && p[j + 1] == '-' && p[j + 2] != ']' {
        match parse_set_items_exec(p, j + 3, end) {
            Some((rest, next)) => {
                let mut items = Vec::new();
                items.push((p[j], p[j + 2]));
                let mut rest = rest;
                let ghost r = rest@;
                items.append(&mut rest);
                assert(items@ == seq![(p@[j as int], p@[j + 2])] + r);
                Some((items, next))
            },
            None => None,
        }
    } else {
        match parse_set_items_exec(p, j + 1, end) {
            Some((rest, next)) => {
                let mut items = Vec::new();
                items.push((p[j], p[j]));
                let mut rest = rest;
                let ghost r = rest@;
                items.append(&mut rest);
                assert(items@ == seq![(p@[j as int], p@[j as int])] + r);
                Some((items, next))
            },
            None => None,
        }
    }
}

fn parse_atom_exec(p: &Vec<char>, i: usize, end: usize) -> (r: Option<(CharClass, usize)>)
    requires
        end <= p.len(),
    ensures
        match r {
            None => parse_atom(p@, i as int, end as int) is None,
            Some((class, next)) => parse_atom(p@, i as int, end as int) == Some(
                (class@, next as int),
            ),
        },
{
    if i >= end {
        return None;
    }
    let c = p[i];
    if c == '.' {
        Some((CharClass::Any, i + 1))
    } else if c == '\\' {
        if i + 1 >= end {
            None
        } else {
            let d = p[i + 1];
            let class = if d == 'd' {
                CharClass::Digit
            } else if d == 'w' {
                CharClass::Word
            } else if d == 's' {
                CharClass::Space
            } else {
                CharClass::Lit(d)
            };
            Some((class, i + 2))
        }
    } else if c == '[' {
        let negated = i + 1 < end && p[i + 1] == '^';
        let start = if negated { i + 2 } else { i + 1 };
        match parse_set_items_exec(p, start, end) {
            Some((items, next)) => Some((CharClass::Bracket(negated, items), next)),
            None => None,
        }
    } else if c == '*' || c == '+' || c == '?' || c == '{' || c == '(' || c == ')' || c == '|' {
        None
    } else {
        Some((CharClass::Lit(c), i + 1))
    }
}

fn parse_count_exec(p: &Vec<char>, j: usize, end: usize) -> (r: Option<(usize, usize)>)
    requires
        end <= p.len(),
    ensures
        match r {
            None => parse_count(p@, j as int, end as int) is None,
            Some((n, k)) => parse_count(p@, j as int, end as int) == Some((n as nat, k as int)),
        },
{
    if j >= end {
        return None;
    }
    let mut k = j;
    let mut value: usize = 0;
    while k < end && char_is_digit(p[k]) && k - j < 5
        invariant
            j <= k <= end,
            end <= p.len(),
            k - j <= 5,
            forall|q: int| j <= q < k ==> is_digit(p@[q]),
            value == digits_value(p@, j as int, k as int),
            value <= 99999,
            k - j <= 4 ==> value <= 9999,
            k - j <= 3 ==> value <= 999,
            k - j <= 2 ==> value <= 99,
            k - j <= 1 ==> value <= 9,
            k - j == 0 ==> value == 0,
            digit_run(p@, j as int, end as int) == (k - j) + digit_run(p@, k as int, end as int),
        decreases end - k,
    {
        let d = p[k] as u32 - '0' as u32;
        value = value * 10 + d as usize;
        k = k + 1;
    }
    if k == j || k - j > 4 {
        proof {
            if k == j {
                assert(digit_run(p@, j as int, end as int) == 0);
            } else {
                assert(digit_run(p@, j as int, end as int) >= 5);
            }
        }
        None
    } else {
        assert(digit_run(p@, k as int, end as int) == 0);
        Some((value, k))
    }
}

fn parse_quantifier_exec(p: &Vec<char>, j: usize, end: usize) -> (r: Option<(usize, Option<usize>, usize)>)
    requires
        end <= p.len(),
    ensures
        match r {
            None => parse_quantifier(p@, j as int, end as int) is None,
            Some((min, max, k)) => parse_quantifier(p@, j as int, end as int) == Some(
                (
                    min as nat,
                    match max {
                        Some(m) => Some(m as nat),
                        None => None,
                    },
                    k as int,
                ),
            ),
        },
{
    if j >= end {
        Some((1, Some(1), j))
    } else if p[j] == '*' {
        Some((0, None, j + 1))
    } else if p[j] == '+' {
        Some((1, None, j + 1))
    } else if p[j] == '?' {
        Some((0, Some(1), j + 1))
    } else if p[j] == '{' {
        match parse_count_exec(p, j + 1, end) {
            None => None,
            Some((n, k)) => if k < end && p[k] == '}' {
                Some((n, Some(n), k + 1))
            } else if k < end && end - k > 1 && p[k] == ',' && p[k + 1] == '}' {
                Some((n, None, k + 2))
            } else if k < end && p[k] == ',' {
                match parse_count_exec(p, k + 1, end) {
                    None => None,
                    Some((m, l)) => if l < end && p[l] == '}' && n <= m {
                        Some((n, Some(m), l + 1))
                    } else {
                        None
                    },
                }
            } else {
                None
            },
        }
    } else {
        Some((1, Some(1), j))
    }
}

fn parse_tokens_exec(p: &Vec<char>, start: usize, end: usize) -> (r: Option<Vec<Token>>)
    requires
        end <= p.len(),
    ensures
        match r {
            None => parse_tokens(p@, start as int, end as int) is None,
            Some(toks) => parse_tokens(p@, start as int, end as int) == Some(token_views(toks@)),
        },
{
    let mut toks: Vec<Token> = Vec::new();
    let mut i = start;
    while i < end
        invariant
            end <= p.len(),
            start <= i,
            parse_tokens(p@, start as int, end as int) == match parse_tokens(
                p@,
                i as int,
                end as int,
            ) {
                None => None,
                Some(rest) => Some(token_views(toks@) + rest),
            },
        decreases end - i,
    {
        match parse_atom_exec(p, i, end) {
            None => {
                return None;
            },
            Some((class, j)) => match parse_quantifier_exec(p, j, end) {
                None => {
                    return None;
                },
                Some((min, max, k)) => {
                    if k <= i || k > end {
                        return None;
                    }
                    let t = Token { class, min, max };
                    let ghost before = toks@;
                    proof {
                        match parse_tokens(p@, k as int, end as int) {
                            None => {},
                            Some(rest) => {
                                assert(token_views(before.push(t)) == token_views(before).push(t@));
                                assert(token_views(before) + (seq![t@] + rest) == token_views(
                                    before.push(t),
                                ) + rest);
                            },
                        }
                    }
                    toks.push(t);
                    i = k;
                },
            },
        }
    }
    assert(token_views(toks@) + Seq::<TokenSpec>::empty() == token_views(toks@));
    Some(toks)
}

fn match_here_exec(toks: &Vec<Token>, ti: usize, text: &Vec<char>, pos: usize, end_anchor: bool) -> (r: bool)
    ensures
        r == match_here(token_views(toks@), ti as int, text@, pos as int, end_anchor),
    decreases toks.len() - ti, text.len() - pos, 1int,
{
    if pos > text.len() {
        false
    } else if ti >= toks.len() {
        !end_anchor || pos == text.len()
    } else {
        match_rep_exec(toks, ti, text, pos, 0, end_anchor)
    }
}

fn match_rep_exec(
    toks: &Vec<Token>,
    ti: usize,
    text: &Vec<char>,
    pos: usize,
    count: usize,
    end_anchor: bool,
) -> (r: bool)
    ensures
        r == match_rep(token_views(toks@), ti as int, text@, pos as int, count as int, end_anchor),
    decreases toks.len() - ti, text.len() - (pos + count), 0int,
{
    if ti >= toks.len() || pos > text.len() || count > text.len() - pos {
        return false;
    }
    let t = &toks[ti];
    assert(token_views(toks@)[ti as int] == t@);
    if count >= t.min && match_here_exec(toks, ti + 1, text, pos + count, end_anchor) {
        return true;
    }
    let below_max = match t.max {
        None => true,
        Some(m) => count < m,
    };
    below_max && pos + count < text.len() && accepts(&t.class, text[pos + count]) && match_rep_exec(
        toks,
        ti,
        text,
        pos,
        count + 1,
        end_anchor,
    )
}

fn search_from_exec(toks: &Vec<Token>, text: &Vec<char>, start: usize, end_anchor: bool) -> (r: bool)
    ensures
        r == search_from(token_views(toks@), text@, start as int, end_anchor),
    decreases text.len() - start,
{
    if start > text.len() {
        false
    } else if match_here_exec(toks, 0, text, start, end_anchor) {
        true
    } else if start == text.len() {
        false
    } else {
        search_from_exec(toks, text, start + 1, end_anchor)
    }
}

/// Whether `value` matches `pattern` (see the module documentation for the syntax).
pub fn simple_pattern_match(value: &str, pattern: &str) -> (r: bool)
    ensures
        r == pattern_matches(pattern@, value@),
{
    let p = chars_of(pattern);
    let text = chars_of(value);
    let n = p.len();
    let anchored_start = n > 0 && p[0] == '^';
    let start: usize = if anchored_start { 1 } else { 0 };
    let anchored_end = n > start && p[n - 1] == '$' && !(n >= 2 && p[n - 2] == '\\');
    let end: usize = if anchored_end { n - 1 } else { n };
    match parse_tokens_exec(&p, start, end) {
        None => false,
        Some(toks) => if anchored_start {
            match_here_exec(&toks, 0, &text, 0, anchored_end)
        } else {
            search_from_exec(&toks, &text, 0, anchored_end)
        },
    }
}

} // verus!
