//! Heuristic extraction of a "total" amount from unstructured invoice text.
//!
//! The text is searched, case-insensitively, for the word "total" followed by
//! one or more separators (colon or whitespace), an optional currency symbol
//! with optional trailing whitespace, and a decimal number with exactly two
//! fraction digits.  The first such match wins.  When no "total"-anchored
//! match exists, the last bare amount (optional currency symbol plus decimal
//! number) in the text is taken.  When nothing matches, the default "0.00"
//! is returned.

use vstd::prelude::*;
use vstd::string::StrSliceExecFns;

verus! {

/// An ASCII decimal digit.  Amounts are read as ASCII numbers: the fixed
/// decimal-separator heuristic makes no attempt at locale-aware parsing,
/// and digits from other scripts are not part of it.
pub open spec fn is_digit(c: char) -> bool {
    '0' <= c && c <= '9'
}

/// A whitespace character (the Unicode `White_Space` set).
pub open spec fn is_space(c: char) -> bool {
    ||| c == ' '
    ||| c == '\t'
    ||| c == '\n'
    ||| c == '\r'
    ||| c == '\u{b}'
    ||| c == '\u{c}'
    ||| c == '\u{85}'
    ||| c == '\u{a0}'
    ||| c == '\u{1680}'
    ||| ('\u{2000}' <= c && c <= '\u{200a}')
    ||| c == '\u{2028}'
    ||| c == '\u{2029}'
    ||| c == '\u{202f}'
    ||| c == '\u{205f}'
    ||| c == '\u{3000}'
}

/// A separator allowed between the word "total" and the amount.
pub open spec fn is_sep(c: char) -> bool {
    c == ':' || is_space(c)
}

/// A recognized currency symbol.
pub open spec fn is_currency(c: char) -> bool {
    c == '€' || c == '$' || c == '£'
}

/// A decimal separator inside an amount.
pub open spec fn is_decimal_point(c: char) -> bool {
    c == '.' || c == ','
}

/// The end of the run of digits starting at `i`.
pub open spec fn digit_run_end(t: Seq<char>, i: int) -> int
    decreases t.len() - i,
{
    if i < 0 || i >= t.len() {
        i
    } else if is_digit(t[i]) {
        digit_run_end(t, i + 1)
    } else {
        i
    }
}

/// The end of the run of whitespace starting at `i`.
pub open spec fn space_run_end(t: Seq<char>, i: int) -> int
    decreases t.len() - i,
{
    if i < 0 || i >= t.len() {
        i
    } else if is_space(t[i]) {
        space_run_end(t, i + 1)
    } else {
        i
    }
}

/// The end of the run of separators starting at `i`.
pub open spec fn sep_run_end(t: Seq<char>, i: int) -> int
    decreases t.len() - i,
{
    if i < 0 || i >= t.len() {
        i
    } else if is_sep(t[i]) {
        sep_run_end(t, i + 1)
    } else {
        i
    }
}

/// The end of a decimal-number match starting exactly at `i`: one or more
/// digits, a decimal point, and exactly two digits (no third digit may
/// follow).  `None` when no such number starts at `i`.
pub open spec fn number_match_end(t: Seq<char>, i: int) -> Option<int> {
    let j = digit_run_end(t, i);
    if j == i {
        None
    } else if j + 3 <= t.len() && is_decimal_point(t[j]) && is_digit(t[j + 1]) && is_digit(
        t[j + 2],
    ) && (j + 3 == t.len() || !is_digit(t[j + 3])) {
        Some(j + 3)
    } else {
        None
    }
}

/// The end of an amount match starting exactly at `i`: an optional currency
/// symbol with optional trailing whitespace, then a decimal number.
pub open spec fn amount_match_end(t: Seq<char>, i: int) -> Option<int> {
    if 0 <= i && i < t.len() && is_currency(t[i]) {
        number_match_end(t, space_run_end(t, i + 1))
    } else {
        number_match_end(t, i)
    }
}

/// The word "total", case-insensitively, occupies `t[i..i+5]`.
pub open spec fn total_word_at(t: Seq<char>, i: int) -> bool {
    &&& 0 <= i
    &&& i + 5 <= t.len()
    &&& (t[i] == 't' || t[i] == 'T')
    &&& (t[i + 1] == 'o' || t[i + 1] == 'O')
    &&& (t[i + 2] == 't' || t[i + 2] == 'T')
    &&& (t[i + 3] == 'a' || t[i + 3] == 'A')
    &&& (t[i + 4] == 'l' || t[i + 4] == 'L')
}

/// The end of a "total"-anchored match starting exactly at `i`: the word
/// "total", one or more separators, then an amount.
pub open spec fn total_match_end(t: Seq<char>, i: int) -> Option<int> {
    if total_word_at(t, i) {
        let p = sep_run_end(t, i + 5);
        if p == i + 5 {
            None
        } else {
            amount_match_end(t, p)
        }
    } else {
        None
    }
}

/// The first "total"-anchored match at or after position `i`, as its start
/// and end positions.
pub open spec fn first_total_match_from(t: Seq<char>, i: int) -> Option<(int, int)>
    decreases t.len() - i,
{
    if i < 0 || i >= t.len() {
        None
    } else {
        match total_match_end(t, i) {
            Some(e) => Some((i, e)),
            None => first_total_match_from(t, i + 1),
        }
    }
}

/// The run of digits starting at `i` stays inside the text.
pub proof fn lemma_digit_run_end_bounds(t: Seq<char>, i: int)
    requires
        0 <= i <= t.len(),
    ensures
        i <= digit_run_end(t, i) <= t.len(),
    decreases t.len() - i,
{
    if i < t.len() && is_digit(t[i]) {
        lemma_digit_run_end_bounds(t, i + 1);
    }
}

/// The run of whitespace starting at `i` stays inside the text.
pub proof fn lemma_space_run_end_bounds(t: Seq<char>, i: int)
    requires
        0 <= i <= t.len(),
    ensures
        i <= space_run_end(t, i) <= t.len(),
    decreases t.len() - i,
{
    if i < t.len() && is_space(t[i]) {
        lemma_space_run_end_bounds(t, i + 1);
    }
}

/// A decimal-number match starting at `i` ends strictly after `i` and inside
/// the text; it is at least four characters long.
pub proof fn lemma_number_match_end_bounds(t: Seq<char>, i: int)
    ensures
        number_match_end(t, i) matches Some(e) ==> 0 <= i && i + 4 <= e <= t.len(),
{
    if number_match_end(t, i) is Some {
        let j = digit_run_end(t, i);
        if i < 0 || i > t.len() {
            assert(j == i);
        } else {
            lemma_digit_run_end_bounds(t, i);
        }
    }
}

/// An amount match starting at `i` ends strictly after `i` and inside the
/// text.
pub proof fn lemma_amount_match_end_bounds(t: Seq<char>, i: int)
    ensures
        amount_match_end(t, i) matches Some(e) ==> 0 <= i && i < e <= t.len(),
{
    if 0 <= i && i < t.len() && is_currency(t[i]) {
        let k = space_run_end(t, i + 1);
        lemma_space_run_end_bounds(t, i + 1);
        lemma_number_match_end_bounds(t, k);
    } else {
        lemma_number_match_end_bounds(t, i);
    }
}

/// The last amount match in the non-overlapping left-to-right scan that
/// begins at position `i`, as its start and end positions.
pub open spec fn last_amount_match_from(t: Seq<char>, i: int) -> Option<(int, int)>
    decreases t.len() - i,
    via last_amount_match_from_decreases
{
    if i < 0 || i >= t.len() {
        None
    } else {
        match amount_match_end(t, i) {
            Some(e) => match last_amount_match_from(t, e) {
                Some(m) => Some(m),
                None => Some((i, e)),
            },
            None => last_amount_match_from(t, i + 1),
        }
    }
}

#[via_fn]
proof fn last_amount_match_from_decreases(t: Seq<char>, i: int) {
    lemma_amount_match_end_bounds(t, i);
}

/// What the extractor returns for a text: the first "total"-anchored match,
/// else the last bare amount, else the default "0.00".
pub open spec fn extract_total_spec(t: Seq<char>) -> Seq<char> {
    match first_total_match_from(t, 0) {
        Some((s, e)) => t.subrange(s, e),
        None => match last_amount_match_from(t, 0) {
            Some((s, e)) => t.subrange(s, e),
            None => "0.00"@,
        },
    }
}

/// Every matched amount ends in a decimal point followed by exactly two
/// digits: a number with one or three fraction digits is never matched.
pub proof fn lemma_match_has_two_fraction_digits(t: Seq<char>, i: int)
    ensures
        match amount_match_end(t, i) {
            Some(e) => {
                &&& is_decimal_point(t[e - 3])
                &&& is_digit(t[e - 2])
                &&& is_digit(t[e - 1])
                &&& (e == t.len() || !is_digit(t[e]))
            },
            None => true,
        },
{
    lemma_amount_match_end_bounds(t, i);
}

/// When a "total"-anchored match exists, the extractor returns the first one
/// in document order, never a later one and never a bare amount: the result
/// is the matched span itself, and no "total"-anchored match starts earlier.
pub proof fn lemma_first_total_match_wins(t: Seq<char>)
    ensures
        match first_total_match_from(t, 0) {
            Some(m) => {
                &&& extract_total_spec(t) == t.subrange(m.0, m.1)
                &&& total_match_end(t, m.0) == Some(m.1)
                &&& forall|i: int| 0 <= i < m.0 ==> total_match_end(t, i) is None
            },
            None => true,
        },
{
    lemma_first_total_scan_properties(t, 0);
}

proof fn lemma_first_total_scan_properties(t: Seq<char>, from: int)
    requires
        0 <= from,
    ensures
        match first_total_match_from(t, from) {
            Some(m) => {
                &&& from <= m.0
                &&& total_match_end(t, m.0) == Some(m.1)
                &&& forall|i: int| from <= i < m.0 ==> total_match_end(t, i) is None
            },
            None => forall|i: int| from <= i ==> total_match_end(t, i) is None,
        },
    decreases t.len() - from,
{
    if from >= t.len() {
        assert forall|i: int| from <= i implies total_match_end(t, i) is None by {
            assert(!total_word_at(t, i));
        }
    } else {
        match total_match_end(t, from) {
            Some(e) => {},
            None => {
                lemma_first_total_scan_properties(t, from + 1);
            },
        }
    }
}

/// When no "total"-anchored match exists, the extractor returns the last
/// amount found by the non-overlapping left-to-right scan: the result is a
/// real amount match and the scan finds nothing after it.
pub proof fn lemma_last_amount_is_last(t: Seq<char>)
    ensures
        match last_amount_match_from(t, 0) {
            Some(m) => {
                &&& first_total_match_from(t, 0) is None ==> extract_total_spec(t) == t.subrange(
                    m.0,
                    m.1,
                )
                &&& amount_match_end(t, m.0) == Some(m.1)
                &&& last_amount_match_from(t, m.1) is None
            },
            None => true,
        },
{
    lemma_last_amount_scan_properties(t, 0);
}

proof fn lemma_last_amount_scan_properties(t: Seq<char>, from: int)
    ensures
        match last_amount_match_from(t, from) {
            Some(m) => amount_match_end(t, m.0) == Some(m.1) && last_amount_match_from(t, m.1)
                is None,
            None => true,
        },
    decreases t.len() - from,
{
    if 0 <= from && from < t.len() {
        lemma_amount_match_end_bounds(t, from);
        match amount_match_end(t, from) {
            Some(e) => {
                lemma_last_amount_scan_properties(t, e);
            },
            None => {
                lemma_last_amount_scan_properties(t, from + 1);
            },
        }
    }
}

/// A text in which no position carries an amount match yields the default
/// "0.00".
pub proof fn lemma_default_when_no_amount(t: Seq<char>)
    requires
        forall|i: int| #[trigger] amount_match_end(t, i) is None,
    ensures
        extract_total_spec(t) == "0.00"@,
{
    lemma_no_total_scan(t, 0);
    lemma_no_amount_scan(t, 0);
}

proof fn lemma_no_total_scan(t: Seq<char>, from: int)
    requires
        forall|i: int| #[trigger] amount_match_end(t, i) is None,
    ensures
        first_total_match_from(t, from) is None,
    decreases t.len() - from,
{
    if 0 <= from && from < t.len() {
        lemma_no_total_scan(t, from + 1);
    }
}

proof fn lemma_no_amount_scan(t: Seq<char>, from: int)
    requires
        forall|i: int| #[trigger] amount_match_end(t, i) is None,
    ensures
        last_amount_match_from(t, from) is None,
    decreases t.len() - from,
{
    if 0 <= from && from < t.len() {
        lemma_no_amount_scan(t, from + 1);
    }
}

fn is_digit_exec(c: char) -> (b: bool)
    ensures
        b == is_digit(c),
{
    '0' <= c && c <= '9'
}

fn is_space_exec(c: char) -> (b: bool)
    ensures
        b == is_space(c),
{
    c == ' ' || c == '\t' || c == '\n' || c == '\r' || c == '\u{b}' || c == '\u{c}' || c == '\u{85}'
        || c == '\u{a0}' || c == '\u{1680}' || ('\u{2000}' <= c && c <= '\u{200a}') || c
        == '\u{2028}' || c == '\u{2029}' || c == '\u{202f}' || c == '\u{205f}' || c == '\u{3000}'
}

fn is_sep_exec(c: char) -> (b: bool)
    ensures
        b == is_sep(c),
{
    c == ':' || is_space_exec(c)
}

fn is_currency_exec(c: char) -> (b: bool)
    ensures
        b == is_currency(c),
{
    c == '€' || c == '$' || c == '£'
}

fn is_decimal_point_exec(c: char) -> (b: bool)
    ensures
        b == is_decimal_point(c),
{
    c == '.' || c == ','
}

fn digit_run_end_exec(t: &str, i: usize) -> (j: usize)
    requires
        i <= t@.len(),
    ensures
        j == digit_run_end(t@, i as int),
        i <= j <= t@.len(),
{
    let n = t.unicode_len();
    let mut j = i;
    while j < n && is_digit_exec(t.get_char(j))
        invariant
            i <= j <= n,
            n == t@.len(),
            digit_run_end(t@, i as int) == digit_run_end(t@, j as int),
        decreases n - j,
    {
        j = j + 1;
    }
    j
}

fn space_run_end_exec(t: &str, i: usize) -> (j: usize)
    requires
        i <= t@.len(),
    ensures
        j == space_run_end(t@, i as int),
        i <= j <= t@.len(),
{
    let n = t.unicode_len();
    let mut j = i;
    while j < n && is_space_exec(t.get_char(j))
        invariant
            i <= j <= n,
            n == t@.len(),
            space_run_end(t@, i as int) == space_run_end(t@, j as int),
        decreases n - j,
    {
        j = j + 1;
    }
    j
}

fn sep_run_end_exec(t: &str, i: usize) -> (j: usize)
    requires
        i <= t@.len(),
    ensures
        j == sep_run_end(t@, i as int),
        i <= j <= t@.len(),
{
    let n = t.unicode_len();
    let mut j = i;
    while j < n && is_sep_exec(t.get_char(j))
        invariant
            i <= j <= n,
            n == t@.len(),
            sep_run_end(t@, i as int) == sep_run_end(t@, j as int),
        decreases n - j,
    {
        j = j + 1;
    }
    j
}

fn number_match_end_exec(t: &str, i: usize) -> (r: Option<usize>)
    requires
        i <= t@.len(),
    ensures
        number_match_end(t@, i as int) == (match r {
            Some(e) => Some(e as int),
            None => None::<int>,
        }),
        r matches Some(e) ==> i < e <= t@.len(),
{
    let n = t.unicode_len();
    let j = digit_run_end_exec(t, i);
    if j == i {
        return None;
    }
    if n - j >= 3 && is_decimal_point_exec(t.get_char(j)) && is_digit_exec(t.get_char(j + 1))
        && is_digit_exec(t.get_char(j + 2)) && (j + 3 == n || !is_digit_exec(t.get_char(j + 3))) {
        Some(j + 3)
    } else {
        None
    }
}

fn amount_match_end_exec(t: &str, i: usize) -> (r: Option<usize>)
    requires
        i <= t@.len(),
    ensures
        amount_match_end(t@, i as int) == (match r {
            Some(e) => Some(e as int),
            None => None::<int>,
        }),
        r matches Some(e) ==> i < e <= t@.len(),
{
    let n = t.unicode_len();
    if i < n && is_currency_exec(t.get_char(i)) {
        let k = space_run_end_exec(t, i + 1);
        number_match_end_exec(t, k)
    } else {
        number_match_end_exec(t, i)
    }
}

fn total_match_end_exec(t: &str, i: usize) -> (r: Option<usize>)
    requires
        i <= t@.len(),
    ensures
        total_match_end(t@, i as int) == (match r {
            Some(e) => Some(e as int),
            None => None::<int>,
        }),
        r matches Some(e) ==> i < e <= t@.len(),
{
    let n = t.unicode_len();
    if n - i < 5 {
        return None;
    }
    let c0 = t.get_char(i);
    let c1 = t.get_char(i + 1);
    let c2 = t.get_char(i + 2);
    let c3 = t.get_char(i + 3);
    let c4 = t.get_char(i + 4);
    if !((c0 == 't' || c0 == 'T') && (c1 == 'o' || c1 == 'O') && (c2 == 't' || c2 == 'T') && (c3
        == 'a' || c3 == 'A') && (c4 == 'l' || c4 == 'L')) {
        return None;
    }
    let p = sep_run_end_exec(t, i + 5);
    if p == i + 5 {
        None
    } else {
        amount_match_end_exec(t, p)
    }
}

/// Extract the best-guess total amount from unstructured invoice text: the
/// first "total"-anchored match, else the last bare amount in the text, else
/// the default "0.00".  The match is returned verbatim.
pub fn extract_total(text: &str) -> (r: String)
    ensures
        r@ == extract_total_spec(text@),
{
    let n = text.unicode_len();
    let mut i: usize = 0;
    while i < n
        invariant
            i <= n,
            n == text@.len(),
            first_total_match_from(text@, 0) == first_total_match_from(text@, i as int),
        decreases n - i,
    {
        match total_match_end_exec(text, i) {
            Some(e) => {
                return text.substring_char(i, e).to_owned();
            },
            None => {
                i = i + 1;
            },
        }
    }
    let mut pos: usize = 0;
    let mut best: Option<(usize, usize)> = None;
    while pos < n
        invariant
            pos <= n,
            n == text@.len(),
            first_total_match_from(text@, 0) is None,
            (match last_amount_match_from(text@, pos as int) {
                Some(m) => Some(m),
                None => (match best {
                    Some((s, e)) => Some((s as int, e as int)),
                    None => None::<(int, int)>,
                }),
            }) == last_amount_match_from(text@, 0),
            (match best {
                Some((s, e)) => s < e && e <= n,
                None => true,
            }),
        decreases n - pos,
    {
        match amount_match_end_exec(text, pos) {
            Some(e) => {
                best = Some((pos, e));
                pos = e;
            },
            None => {
                pos = pos + 1;
            },
        }
    }
    match best {
        Some((s, e)) => text.substring_char(s, e).to_owned(),
        None => "0.00".to_owned(),
    }
}

} // verus!
