//! Reading polynomials and quadratic equations: the terms of an expression are found
//! with a regular expression, and each term's power and coefficient text are cut out
//! of it by byte offsets, as `str::find`, `str::get` and `str::parse` do it.
//! Coefficients are decimal fractions; turning their text into numbers is left to
//! the caller.
use vstd::prelude::*;
use crate::text::{parse_i32, parse_i32_spec, string_from_chars, trim, trimmed};

verus! {

/// The pattern that finds polynomial terms: a power term, a linear term or a constant.
pub const POLYNOMIAL_PATTERN: &'static str = r"(?P<first>[+|-]*\s*\d*\w\^\d)|(?P<second>[+|-]*\s*\d*[[:alpha:]])|(?P<third>[+|-]*\s*\d+)";

/// The pattern that finds the terms of a quadratic equation.
pub const QUADRATIC_PATTERN: &'static str = r"(?P<first>[+|-]*\s*\d*\w\^2)|(?P<second>[+|-]*\s*\d*[[:alpha:]])|(?P<third>[+|-]*\s*\d+)";

/// What compiling `pattern` with `regex::Regex::new` and running `captures_iter` over
/// `text` gives: `None` when the pattern does not compile; otherwise, for each match
/// from left to right, its capture groups in order (group 0 is the whole match),
/// each as its text, or `None` where the group took no part in the match.
pub uninterp spec fn regex_captures(pattern: Seq<char>, text: Seq<char>) -> Option<
    Seq<Seq<Option<Seq<char>>>>,
>;

/// Compiles `pattern` with `regex::Regex::new` and lists the captures of
/// `captures_iter(text)`, each group's text as characters. The contract only ties
/// the result to `regex_captures`; what the regex engine matches is not stated here.
#[verifier::external_body]
fn captures_of(pattern: &str, text: &str) -> (r: Option<Vec<Vec<Option<Vec<char>>>>>)
    ensures
        r.deep_view() == regex_captures(pattern@, text@),
{
    regex::Regex::new(pattern).ok().map(
        |re| {
            re.captures_iter(text).map(
                |caps| caps.iter().map(|g| g.map(|m| m.as_str().chars().collect())).collect(),
            ).collect()
        },
    )
}

/// The number of bytes that UTF-8 takes for `c`, as `char::len_utf8` gives it.
pub open spec fn utf8_width(c: char) -> nat {
    let u = c as u32;
    if u < 0x80 {
        1
    } else if u < 0x800 {
        2
    } else if u < 0x10000 {
        3
    } else {
        4
    }
}

/// The number of bytes that UTF-8 takes for `s`.
pub open spec fn byte_len(s: Seq<char>) -> nat
    decreases s.len(),
{
    if s.len() == 0 {
        0
    } else {
        byte_len(s.drop_last()) + utf8_width(s.last())
    }
}

/// The first index at or after `i` whose character satisfies `p`.
pub open spec fn first_from(s: Seq<char>, p: spec_fn(char) -> bool, i: int) -> Option<int>
    decreases s.len() - i,
{
    if i < 0 || i >= s.len() {
        None
    } else if p(s[i]) {
        Some(i)
    } else {
        first_from(s, p, i + 1)
    }
}

/// `str::find(p)`: the byte offset of the first character satisfying `p`.
pub open spec fn find_byte(s: Seq<char>, p: spec_fn(char) -> bool) -> Option<int> {
    match first_from(s, p, 0) {
        Some(i) => Some(byte_len(s.take(i)) as int),
        None => None,
    }
}

/// The character index at which byte offset `b` falls, walking from character `i`
/// that starts at byte `acc`; `None` when `b` is not the start of a character nor
/// the end of `s`.
pub open spec fn boundary_from(s: Seq<char>, i: int, acc: int, b: int) -> Option<int>
    decreases s.len() - i,
{
    if acc == b {
        Some(i)
    } else if i < 0 || i >= s.len() || acc > b {
        None
    } else {
        boundary_from(s, i + 1, acc + utf8_width(s[i]), b)
    }
}

/// `str::get(a..b)`: the text between byte offsets `a` and `b`, if both fall on
/// character boundaries in that order.
pub open spec fn str_get(s: Seq<char>, a: int, b: int) -> Option<Seq<char>> {
    match (boundary_from(s, 0, 0, a), boundary_from(s, 0, 0, b)) {
        (Some(i), Some(j)) => if i <= j { Some(s.subrange(i, j)) } else { None },
        _ => None,
    }
}

pub open spec fn is_caret(c: char) -> bool {
    c == '^'
}

pub open spec fn is_minus(c: char) -> bool {
    c == '-'
}

pub open spec fn is_ascii_digit(c: char) -> bool {
    '0' <= c <= '9'
}

pub open spec fn is_ascii_alphabetic(c: char) -> bool {
    ('A' <= c <= 'Z') || ('a' <= c <= 'z')
}

/// The text of a term's power: what follows the `^` up to the offset that equals
/// the term's length in characters, or `"1"` when that range is not a valid slice.
pub open spec fn power_text(cap: Seq<char>) -> Seq<char> {
    let start = match find_byte(cap, |c: char| is_caret(c)) {
        Some(k) => k,
        None => 0,
    } + 1;
    match str_get(cap, start, cap.len() as int) {
        Some(t) => t,
        None => seq!['1'],
    }
}

/// A term's power, `None` when its text is no `i32`.
pub open spec fn power_of(cap: Seq<char>) -> Option<i32> {
    parse_i32_spec(power_text(cap))
}

/// The text of a term's coefficient: from its first digit to its first letter, or,
/// for a constant (`constant` set), to the offset that equals the length of the
/// trimmed term in characters; `"1"` when that range is not a valid slice.
pub open spec fn coefficient_text(cap: Seq<char>, constant: bool) -> Seq<char> {
    let start = match find_byte(cap, |c: char| is_ascii_digit(c)) {
        Some(k) => k,
        None => 0,
    };
    let end = if constant {
        trimmed(cap).len() as int
    } else {
        match find_byte(cap, |c: char| is_ascii_alphabetic(c)) {
            Some(k) => k,
            None => 0,
        }
    };
    match str_get(cap, start, end) {
        Some(t) => t,
        None => seq!['1'],
    }
}

/// Whether a term counts negatively: its text holds a `-`.
pub open spec fn is_negative(cap: Seq<char>) -> bool {
    exists|i: int| 0 <= i < cap.len() && cap[i] == '-'
}

/// The index of the first `^` in `s`.
fn find_caret(s: &[char]) -> (r: Option<usize>)
    ensures
        r matches Some(k) ==> first_from(s@, |c: char| is_caret(c), 0) == Some(k as int),
        r matches Some(k) ==> k < s@.len(),
        r is None ==> first_from(s@, |c: char| is_caret(c), 0) is None,
{
    let mut i: usize = 0;
    while i < s.len()
        invariant
            i <= s@.len(),
            first_from(s@, |c: char| is_caret(c), i as int) == first_from(
                s@,
                |c: char| is_caret(c),
                0,
            ),
        decreases s@.len() - i,
    {
        if s[i] == '^' {
            return Some(i);
        }
        i = i + 1;
    }
    None
}

/// The index of the first ASCII digit of `s`.
fn find_digit(s: &[char]) -> (r: Option<usize>)
    ensures
        r matches Some(k) ==> first_from(s@, |c: char| is_ascii_digit(c), 0) == Some(k as int),
        r matches Some(k) ==> k < s@.len(),
        r is None ==> first_from(s@, |c: char| is_ascii_digit(c), 0) is None,
{
    let mut i: usize = 0;
    while i < s.len()
        invariant
            i <= s@.len(),
            first_from(s@, |c: char| is_ascii_digit(c), i as int) == first_from(
                s@,
                |c: char| is_ascii_digit(c),
                0,
            ),
        decreases s@.len() - i,
    {
        if '0' <= s[i] && s[i] <= '9' {
            return Some(i);
        }
        i = i + 1;
    }
    None
}

/// The index of the first ASCII letter of `s`.
fn find_alphabetic(s: &[char]) -> (r: Option<usize>)
    ensures
        r matches Some(k) ==> first_from(s@, |c: char| is_ascii_alphabetic(c), 0) == Some(
            k as int,
        ),
        r matches Some(k) ==> k < s@.len(),
        r is None ==> first_from(s@, |c: char| is_ascii_alphabetic(c), 0) is None,
{
    let mut i: usize = 0;
    while i < s.len()
        invariant
            i <= s@.len(),
            first_from(s@, |c: char| is_ascii_alphabetic(c), i as int) == first_from(
                s@,
                |c: char| is_ascii_alphabetic(c),
                0,
            ),
        decreases s@.len() - i,
    {
        let c = s[i];
        if ('A' <= c && c <= 'Z') || ('a' <= c && c <= 'z') {
            return Some(i);
        }
        i = i + 1;
    }
    None
}

/// The number of UTF-8 bytes of `c`.
fn width_of(c: char) -> (w: u128)
    ensures
        w == utf8_width(c),
{
    let u = c as u32;
    if u < 0x80 {
        1
    } else if u < 0x800 {
        2
    } else if u < 0x10000 {
        3
    } else {
        4
    }
}

/// The number of UTF-8 bytes of the first `i` characters of `s`.
fn prefix_bytes(s: &[char], i: usize) -> (r: u128)
    requires
        i <= s@.len(),
    ensures
        r == byte_len(s@.take(i as int)),
        r <= 4 * i,
{
    let mut acc: u128 = 0;
    let mut k: usize = 0;
    while k < i
        invariant
            k <= i <= s@.len(),
            acc == byte_len(s@.take(k as int)),
            acc <= 4 * k,
        decreases i - k,
    {
        proof {
            assert(s@.take(k + 1).drop_last() =~= s@.take(k as int));
        }
        acc = acc + width_of(s[k]);
        k = k + 1;
    }
    acc
}

/// The character index where byte offset `b` falls, if it is a boundary.
fn boundary_of(s: &[char], b: u128) -> (r: Option<usize>)
    ensures
        r matches Some(k) ==> boundary_from(s@, 0, 0, b as int) == Some(k as int),
        r is None ==> boundary_from(s@, 0, 0, b as int) is None,
{
    let mut acc: u128 = 0;
    let mut i: usize = 0;
    loop
        invariant
            i <= s@.len(),
            acc <= 4 * i,
            boundary_from(s@, i as int, acc as int, b as int) == boundary_from(
                s@,
                0,
                0,
                b as int,
            ),
        decreases s@.len() - i,
    {
        if acc == b {
            return Some(i);
        }
        if i >= s.len() || acc > b {
            return None;
        }
        acc = acc + width_of(s[i]);
        i = i + 1;
    }
}

/// The characters `s[i..j]`.
fn slice_chars(s: &[char], i: usize, j: usize) -> (r: Vec<char>)
    requires
        i <= j <= s@.len(),
    ensures
        r@ == s@.subrange(i as int, j as int),
{
    let mut r: Vec<char> = Vec::new();
    let mut k = i;
    while k < j
        invariant
            i <= k <= j <= s@.len(),
            r@ == s@.subrange(i as int, k as int),
        decreases j - k,
    {
        r.push(s[k]);
        k = k + 1;
    }
    r
}

/// `s.get(a..b)` with byte offsets, or `"1"` where that is no valid slice.
fn get_or_one(s: &[char], a: u128, b: u128) -> (r: Vec<char>)
    ensures
        r@ == (match str_get(s@, a as int, b as int) {
            Some(t) => t,
            None => seq!['1'],
        }),
{
    match (boundary_of(s, a), boundary_of(s, b)) {
        (Some(i), Some(j)) => if i <= j {
            proof {
                lemma_boundary_in_range(s@, 0, 0, b as int);
            }
            slice_chars(s, i, j)
        } else {
            vec!['1']
        },
        _ => vec!['1'],
    }
}

proof fn lemma_boundary_in_range(s: Seq<char>, i: int, acc: int, b: int)
    requires
        0 <= i <= s.len(),
    ensures
        boundary_from(s, i, acc, b) matches Some(k) ==> i <= k <= s.len(),
    decreases s.len() - i,
{
    if acc != b && i < s.len() && acc <= b {
        lemma_boundary_in_range(s, i + 1, acc + utf8_width(s[i]), b);
    }
}

/// The text of a term's power.
fn power_text_of(cap: &[char]) -> (r: Vec<char>)
    ensures
        r@ == power_text(cap@),
{
    let start: u128 = match find_caret(cap) {
        Some(k) => prefix_bytes(cap, k),
        None => 0,
    } + 1;
    get_or_one(cap, start, cap.len() as u128)
}

/// A term's power, `None` when it does not read as an `i32`.
pub fn get_power(cap: &[char]) -> (r: Option<i32>)
    ensures
        r == power_of(cap@),
{
    let text = power_text_of(cap);
    parse_i32(text.as_slice())
}

/// The text of a term's coefficient, and whether the term is negative.
pub fn get_term_number(cap: &[char], constant: bool) -> (r: (Vec<char>, bool))
    ensures
        r.0@ == coefficient_text(cap@, constant),
        r.1 == is_negative(cap@),
{
    let start: u128 = match find_digit(cap) {
        Some(k) => prefix_bytes(cap, k),
        None => 0,
    };
    let end: u128 = if constant {
        let t = trim(cap);
        t.len() as u128
    } else {
        match find_alphabetic(cap) {
            Some(k) => prefix_bytes(cap, k),
            None => 0,
        }
    };
    let text = get_or_one(cap, start, end);
    let mut negative = false;
    let mut i: usize = 0;
    while i < cap.len()
        invariant
            i <= cap@.len(),
            negative == exists|k: int| 0 <= k < i && cap@[k] == '-',
        decreases cap@.len() - i,
    {
        if cap[i] == '-' {
            negative = true;
        }
        i = i + 1;
    }
    (text, negative)
}

} // verus!

verus! {

/// Why the terms of an expression could not be read.
#[derive(PartialEq, Eq, Structural, Clone, Copy, Debug)]
pub enum TermError {
    /// A power does not read as an integer, or a coefficient as a number.
    Parse,
    /// The term pattern does not compile.
    InvalidPattern,
}

impl TermError {
    /// The message that the error is reported with.
    pub fn message(&self) -> (m: &'static str)
        ensures
            m@ == (match self {
                TermError::Parse => "Parse error"@,
                TermError::InvalidPattern => "Invalid term pattern"@,
            }),
    {
        proof {
            reveal_strlit("Parse error");
            reveal_strlit("Invalid term pattern");
        }
        match self {
            TermError::Parse => "Parse error",
            TermError::InvalidPattern => "Invalid term pattern",
        }
    }
}

/// A term of a polynomial: its power, the text of its coefficient and its sign.
pub struct PolynomialTerm {
    pub power: i32,
    pub coefficient: String,
    pub negative: bool,
}

impl View for PolynomialTerm {
    type V = (i32, Seq<char>, bool);

    open spec fn view(&self) -> (i32, Seq<char>, bool) {
        (self.power, self.coefficient@, self.negative)
    }
}

/// A term of a quadratic equation: its degree (2, 1 or 0), the text of its
/// coefficient and its sign.
pub struct QuadraticTerm {
    pub degree: u8,
    pub coefficient: String,
    pub negative: bool,
}

impl View for QuadraticTerm {
    type V = (u8, Seq<char>, bool);

    open spec fn view(&self) -> (u8, Seq<char>, bool) {
        (self.degree, self.coefficient@, self.negative)
    }
}

/// Capture group `k` of one match, `None` where there is no such group.
pub open spec fn group(caps: Seq<Option<Seq<char>>>, k: int) -> Option<Seq<char>> {
    if 0 <= k < caps.len() {
        caps[k]
    } else {
        None
    }
}

/// The polynomial term that one match stands for: a power term (group 1), a linear
/// term (group 2) or a constant (group 3). `None` when the power does not parse,
/// `Some(None)` when no group took part.
pub open spec fn polynomial_term(caps: Seq<Option<Seq<char>>>) -> Option<
    Option<(i32, Seq<char>, bool)>,
> {
    match group(caps, 1) {
        Some(cap) => match power_of(cap) {
            Some(p) => Some(Some((p, coefficient_text(cap, false), is_negative(cap)))),
            None => None,
        },
        None => match group(caps, 2) {
            Some(cap) => Some(Some((1i32, coefficient_text(cap, false), is_negative(cap)))),
            None => match group(caps, 3) {
                Some(cap) => Some(Some((0i32, coefficient_text(cap, true), is_negative(cap)))),
                None => Some(None),
            },
        },
    }
}

/// The polynomial terms of a list of matches, in order; `None` when one fails.
pub open spec fn polynomial_terms_of(caps: Seq<Seq<Option<Seq<char>>>>) -> Option<
    Seq<(i32, Seq<char>, bool)>,
>
    decreases caps.len(),
{
    if caps.len() == 0 {
        Some(Seq::empty())
    } else {
        match (polynomial_terms_of(caps.drop_last()), polynomial_term(caps.last())) {
            (Some(p), Some(Some(t))) => Some(p.push(t)),
            (Some(p), Some(None)) => Some(p),
            _ => None,
        }
    }
}

/// The quadratic term that one match stands for: `x^2` (group 1), `x` (group 2) or
/// a constant (group 3); `None` when no group took part.
pub open spec fn quadratic_term(caps: Seq<Option<Seq<char>>>) -> Option<(u8, Seq<char>, bool)> {
    match group(caps, 1) {
        Some(cap) => Some((2u8, coefficient_text(cap, false), is_negative(cap))),
        None => match group(caps, 2) {
            Some(cap) => Some((1u8, coefficient_text(cap, false), is_negative(cap))),
            None => match group(caps, 3) {
                Some(cap) => Some((0u8, coefficient_text(cap, true), is_negative(cap))),
                None => None,
            },
        },
    }
}

/// The quadratic terms of a list of matches, in order.
pub open spec fn quadratic_terms_of(caps: Seq<Seq<Option<Seq<char>>>>) -> Seq<(u8, Seq<char>, bool)>
    decreases caps.len(),
{
    if caps.len() == 0 {
        Seq::empty()
    } else {
        match quadratic_term(caps.last()) {
            Some(t) => quadratic_terms_of(caps.drop_last()).push(t),
            None => quadratic_terms_of(caps.drop_last()),
        }
    }
}

proof fn lemma_failure_persists(caps: Seq<Seq<Option<Seq<char>>>>, i: int)
    requires
        0 <= i <= caps.len(),
        polynomial_terms_of(caps.take(i)) is None,
    ensures
        polynomial_terms_of(caps) is None,
    decreases caps.len() - i,
{
    if i < caps.len() {
        assert(caps.take(i + 1).drop_last() =~= caps.take(i));
        lemma_failure_persists(caps, i + 1);
    } else {
        assert(caps.take(i) =~= caps);
    }
}

/// Capture group `k` of one match.
fn group_at(groups: &Vec<Option<Vec<char>>>, k: usize) -> (r: Option<&Vec<char>>)
    ensures
        r matches Some(c) ==> group(groups.deep_view(), k as int) == Some(c@),
        r is None ==> group(groups.deep_view(), k as int) is None,
{
    if k < groups.len() {
        match &groups[k] {
            Some(c) => Some(c),
            None => None,
        }
    } else {
        None
    }
}

/// The polynomial terms of the matches `caps`, as `Polynomial::parse_terms` reads
/// them; `Err(TermError::Parse)` when a power does not parse.
pub fn polynomial_terms_from_captures(caps: &Vec<Vec<Option<Vec<char>>>>) -> (r: Result<
    Vec<PolynomialTerm>,
    TermError,
>)
    ensures
        match r {
            Ok(v) => polynomial_terms_of(caps.deep_view()) == Some(v@.map_values(|t: PolynomialTerm| t@)),
            Err(e) => e == TermError::Parse && polynomial_terms_of(caps.deep_view()) is None,
        },
{
    let mut out: Vec<PolynomialTerm> = Vec::new();
    let mut i: usize = 0;
    while i < caps.len()
        invariant
            i <= caps@.len(),
            polynomial_terms_of(caps.deep_view().take(i as int)) == Some(
                out@.map_values(|t: PolynomialTerm| t@),
            ),
        decreases caps@.len() - i,
    {
        let groups = &caps[i];
        let ghost all = caps.deep_view();
        proof {
            assert(all.take(i + 1).drop_last() =~= all.take(i as int));
            assert(all.take(i + 1).last() == groups.deep_view());
        }
        let ghost before = out@.map_values(|t: PolynomialTerm| t@);
        match group_at(groups, 1) {
            Some(cap) => {
                match get_power(cap.as_slice()) {
                    Some(p) => {
                        let (text, negative) = get_term_number(cap.as_slice(), false);
                        out.push(
                            PolynomialTerm {
                                power: p,
                                coefficient: string_from_chars(text.as_slice()),
                                negative,
                            },
                        );
                    },
                    None => {
                        proof {
                            lemma_failure_persists(all, i + 1);
                        }
                        return Err(TermError::Parse);
                    },
                }
            },
            None => match group_at(groups, 2) {
                Some(cap) => {
                    let (text, negative) = get_term_number(cap.as_slice(), false);
                    out.push(
                        PolynomialTerm {
                            power: 1,
                            coefficient: string_from_chars(text.as_slice()),
                            negative,
                        },
                    );
                },
                None => match group_at(groups, 3) {
                    Some(cap) => {
                        let (text, negative) = get_term_number(cap.as_slice(), true);
                        out.push(
                            PolynomialTerm {
                                power: 0,
                                coefficient: string_from_chars(text.as_slice()),
                                negative,
                            },
                        );
                    },
                    None => {},
                },
            },
        }
        proof {
            let after = out@.map_values(|t: PolynomialTerm| t@);
            if after.len() == before.len() + 1 {
                assert(after =~= before.push(after.last()));
            } else {
                assert(after =~= before);
            }
        }
        i = i + 1;
    }
    proof {
        assert(caps.deep_view().take(i as int) =~= caps.deep_view());
    }
    Ok(out)
}

/// The terms of the polynomial `expr`, as `Polynomial::parse_terms` finds them with
/// its pattern; `Err(TermError::Parse)` when a power does not parse.
pub fn polynomial_terms(expr: &str) -> (r: Result<Vec<PolynomialTerm>, TermError>)
    ensures
        match regex_captures(POLYNOMIAL_PATTERN@, expr@) {
            None => r == Err::<Vec<PolynomialTerm>, TermError>(TermError::InvalidPattern),
            Some(caps) => match r {
                Ok(v) => polynomial_terms_of(caps) == Some(v@.map_values(|t: PolynomialTerm| t@)),
                Err(e) => e == TermError::Parse && polynomial_terms_of(caps) is None,
            },
        },
{
    match captures_of(POLYNOMIAL_PATTERN, expr) {
        Some(caps) => polynomial_terms_from_captures(&caps),
        None => Err(TermError::InvalidPattern),
    }
}

/// The terms of the quadratic equation found in the matches `caps`, as
/// `Quadratic::parse_terms` reads them.
pub fn quadratic_terms_from_captures(caps: &Vec<Vec<Option<Vec<char>>>>) -> (r: Vec<QuadraticTerm>)
    ensures
        r@.map_values(|t: QuadraticTerm| t@) == quadratic_terms_of(caps.deep_view()),
{
    let mut out: Vec<QuadraticTerm> = Vec::new();
    let mut i: usize = 0;
    while i < caps.len()
        invariant
            i <= caps@.len(),
            quadratic_terms_of(caps.deep_view().take(i as int)) == out@.map_values(
                |t: QuadraticTerm| t@,
            ),
        decreases caps@.len() - i,
    {
        let groups = &caps[i];
        let ghost all = caps.deep_view();
        proof {
            assert(all.take(i + 1).drop_last() =~= all.take(i as int));
            assert(all.take(i + 1).last() == groups.deep_view());
        }
        let ghost before = out@.map_values(|t: QuadraticTerm| t@);
        match group_at(groups, 1) {
            Some(cap) => {
                let (text, negative) = get_term_number(cap.as_slice(), false);
                out.push(
                    QuadraticTerm {
                        degree: 2,
                        coefficient: string_from_chars(text.as_slice()),
                        negative,
                    },
                );
            },
            None => match group_at(groups, 2) {
                Some(cap) => {
                    let (text, negative) = get_term_number(cap.as_slice(), false);
                    out.push(
                        QuadraticTerm {
                            degree: 1,
                            coefficient: string_from_chars(text.as_slice()),
                            negative,
                        },
                    );
                },
                None => match group_at(groups, 3) {
                    Some(cap) => {
                        let (text, negative) = get_term_number(cap.as_slice(), true);
                        out.push(
                            QuadraticTerm {
                                degree: 0,
                                coefficient: string_from_chars(text.as_slice()),
                                negative,
                            },
                        );
                    },
                    None => {},
                },
            },
        }
        proof {
            let after = out@.map_values(|t: QuadraticTerm| t@);
            if after.len() == before.len() + 1 {
                assert(after =~= before.push(after.last()));
            } else {
                assert(after =~= before);
            }
        }
        i = i + 1;
    }
    proof {
        assert(caps.deep_view().take(i as int) =~= caps.deep_view());
    }
    out
}

/// The terms of the quadratic equation `expr`, as `Quadratic::parse_terms` finds
/// them with its pattern.
pub fn quadratic_terms(expr: &str) -> (r: Result<Vec<QuadraticTerm>, TermError>)
    ensures
        match regex_captures(QUADRATIC_PATTERN@, expr@) {
            None => r == Err::<Vec<QuadraticTerm>, TermError>(TermError::InvalidPattern),
            Some(caps) => match r {
                Ok(v) => v@.map_values(|t: QuadraticTerm| t@) == quadratic_terms_of(caps),
                Err(_) => false,
            },
        },
{
    match captures_of(QUADRATIC_PATTERN, expr) {
        Some(caps) => Ok(quadratic_terms_from_captures(&caps)),
        None => Err(TermError::InvalidPattern),
    }
}

} // verus!

verus! {

/// Reading one more match onto a list of matches whose polynomial terms are `terms`:
/// a match whose group 1 (a power term) takes part adds one term, unless its power
/// does not read; a match whose group 2 (a linear term) or else group 3 (a
/// constant) takes part adds one term of power 1 or 0. Whatever the kind, the added
/// term is negative exactly when the matched text holds a `-`, and the terms read
/// before stay as they were.
pub proof fn law_polynomial_term_sign(
    caps: Seq<Seq<Option<Seq<char>>>>,
    m: Seq<Option<Seq<char>>>,
    terms: Seq<(i32, Seq<char>, bool)>,
)
    requires
        polynomial_terms_of(caps) == Some(terms),
    ensures
        m.len() > 1 && m[1] is Some ==> match polynomial_terms_of(caps.push(m)) {
            Some(after) => {
                &&& after.len() == terms.len() + 1
                &&& after.drop_last() == terms
                &&& after.last().2 == (exists|i: int|
                    0 <= i < m[1].unwrap().len() && m[1].unwrap()[i] == '-')
            },
            None => true,
        },
        !(m.len() > 1 && m[1] is Some) && m.len() > 2 && m[2] is Some ==> match polynomial_terms_of(
            caps.push(m),
        ) {
            Some(after) => {
                &&& after.len() == terms.len() + 1
                &&& after.drop_last() == terms
                &&& after.last().0 == 1
                &&& after.last().2 == (exists|i: int|
                    0 <= i < m[2].unwrap().len() && m[2].unwrap()[i] == '-')
            },
            None => false,
        },
        !(m.len() > 1 && m[1] is Some) && !(m.len() > 2 && m[2] is Some) && m.len() > 3
            && m[3] is Some ==> match polynomial_terms_of(caps.push(m)) {
            Some(after) => {
                &&& after.len() == terms.len() + 1
                &&& after.drop_last() == terms
                &&& after.last().0 == 0
                &&& after.last().2 == (exists|i: int|
                    0 <= i < m[3].unwrap().len() && m[3].unwrap()[i] == '-')
            },
            None => false,
        },
{
    let all = caps.push(m);
    assert(all.drop_last() =~= caps);
    assert(all.last() == m);
}

/// Reading one more match onto a list of matches: a match whose group 1 takes part
/// adds an `x^2` term, else one whose group 2 takes part an `x` term, else one whose
/// group 3 takes part a constant; the added term is negative exactly when the
/// matched text holds a `-`, whatever its degree, and the terms read before stay as
/// they were.
pub proof fn law_quadratic_term_sign(caps: Seq<Seq<Option<Seq<char>>>>, m: Seq<Option<Seq<char>>>)
    ensures
        m.len() > 1 && m[1] is Some ==> {
            let after = quadratic_terms_of(caps.push(m));
            &&& after.drop_last() == quadratic_terms_of(caps)
            &&& after.len() == quadratic_terms_of(caps).len() + 1
            &&& after.last().0 == 2
            &&& after.last().2 == (exists|i: int|
                0 <= i < m[1].unwrap().len() && m[1].unwrap()[i] == '-')
        },
        !(m.len() > 1 && m[1] is Some) && m.len() > 2 && m[2] is Some ==> {
            let after = quadratic_terms_of(caps.push(m));
            &&& after.drop_last() == quadratic_terms_of(caps)
            &&& after.len() == quadratic_terms_of(caps).len() + 1
            &&& after.last().0 == 1
            &&& after.last().2 == (exists|i: int|
                0 <= i < m[2].unwrap().len() && m[2].unwrap()[i] == '-')
        },
        !(m.len() > 1 && m[1] is Some) && !(m.len() > 2 && m[2] is Some) && m.len() > 3
            && m[3] is Some ==> {
            let after = quadratic_terms_of(caps.push(m));
            &&& after.drop_last() == quadratic_terms_of(caps)
            &&& after.len() == quadratic_terms_of(caps).len() + 1
            &&& after.last().0 == 0
            &&& after.last().2 == (exists|i: int|
                0 <= i < m[3].unwrap().len() && m[3].unwrap()[i] == '-')
        },
{
    let all = caps.push(m);
    assert(all.drop_last() =~= caps);
    assert(all.last() == m);
}

} // verus!
