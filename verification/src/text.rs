//! Text helpers shared by the applications: whitespace and trimming as `str::trim`
//! does them, decimal integers read as `str::parse` reads them and written as
//! `Display` writes them.
use vstd::prelude::*;
use vstd::string::*;

verus! {

/// Unicode `White_Space`, the property that `char::is_whitespace` and `str::trim` use.
pub open spec fn is_whitespace_char(c: char) -> bool {
    let u = c as u32;
    ||| 0x09 <= u <= 0x0d
    ||| u == 0x20
    ||| u == 0x85
    ||| u == 0xa0
    ||| u == 0x1680
    ||| 0x2000 <= u <= 0x200a
    ||| u == 0x2028
    ||| u == 0x2029
    ||| u == 0x202f
    ||| u == 0x205f
    ||| u == 0x3000
}

/// Whether `c` is Unicode whitespace.
pub fn is_whitespace(c: char) -> (b: bool)
    ensures
        b == is_whitespace_char(c),
{
    let u = c as u32;
    (0x09 <= u && u <= 0x0d) || u == 0x20 || u == 0x85 || u == 0xa0 || u == 0x1680 || (0x2000
        <= u && u <= 0x200a) || u == 0x2028 || u == 0x2029 || u == 0x202f || u == 0x205f || u
        == 0x3000
}

/// The index of the first non-whitespace character at or after `i` (or the length).
pub open spec fn skip_whitespace_from(s: Seq<char>, i: int) -> int
    decreases s.len() - i,
{
    if i < 0 || i >= s.len() {
        s.len() as int
    } else if is_whitespace_char(s[i]) {
        skip_whitespace_from(s, i + 1)
    } else {
        i
    }
}

/// One past the last non-whitespace character before `j` (or 0).
pub open spec fn skip_whitespace_back_to(s: Seq<char>, j: int) -> int
    decreases j,
{
    if j <= 0 || j > s.len() {
        0
    } else if is_whitespace_char(s[j - 1]) {
        skip_whitespace_back_to(s, j - 1)
    } else {
        j
    }
}

/// Where `str::trim` starts cutting.
pub open spec fn trim_start(s: Seq<char>) -> int {
    skip_whitespace_from(s, 0)
}

/// Where `str::trim` stops cutting.
pub open spec fn trim_end(s: Seq<char>) -> int {
    skip_whitespace_back_to(s, s.len() as int)
}

/// `s` without leading and trailing whitespace, as `str::trim` gives it.
pub open spec fn trimmed(s: Seq<char>) -> Seq<char> {
    if trim_start(s) >= trim_end(s) {
        Seq::empty()
    } else {
        s.subrange(trim_start(s), trim_end(s))
    }
}

proof fn lemma_skip_whitespace_from_bounds(s: Seq<char>, i: int)
    requires
        0 <= i <= s.len(),
    ensures
        i <= skip_whitespace_from(s, i) <= s.len(),
    decreases s.len() - i,
{
    if i < s.len() && is_whitespace_char(s[i]) {
        lemma_skip_whitespace_from_bounds(s, i + 1);
    }
}

proof fn lemma_skip_whitespace_back_bounds(s: Seq<char>, j: int)
    requires
        0 <= j <= s.len(),
    ensures
        0 <= skip_whitespace_back_to(s, j) <= j,
    decreases j,
{
    if j > 0 && is_whitespace_char(s[j - 1]) {
        lemma_skip_whitespace_back_bounds(s, j - 1);
    }
}

/// The bounds `(start, end)` of `s` trimmed of whitespace; `start >= end` when
/// nothing is left.
pub fn trim_bounds(s: &[char]) -> (r: (usize, usize))
    ensures
        r.0 == trim_start(s@),
        r.1 == trim_end(s@),
        r.0 <= s@.len(),
        r.1 <= s@.len(),
{
    proof {
        lemma_skip_whitespace_from_bounds(s@, 0);
        lemma_skip_whitespace_back_bounds(s@, s@.len() as int);
    }
    let mut i: usize = 0;
    while i < s.len() && is_whitespace(s[i])
        invariant
            i <= s@.len(),
            skip_whitespace_from(s@, i as int) == trim_start(s@),
        decreases s@.len() - i,
    {
        i = i + 1;
    }
    let mut j: usize = s.len();
    while j > 0 && is_whitespace(s[j - 1])
        invariant
            j <= s@.len(),
            skip_whitespace_back_to(s@, j as int) == trim_end(s@),
        decreases j,
    {
        j = j - 1;
    }
    (i, j)
}

/// `s` trimmed of whitespace, as `str::trim` gives it.
pub fn trim(s: &[char]) -> (r: Vec<char>)
    ensures
        r@ == trimmed(s@),
{
    let (start, end) = trim_bounds(s);
    let mut r: Vec<char> = Vec::new();
    if start < end {
        let mut k = start;
        while k < end
            invariant
                start <= k <= end <= s@.len(),
                r@ == s@.subrange(start as int, k as int),
            decreases end - k,
        {
            r.push(s[k]);
            k = k + 1;
        }
    }
    r
}

/// The characters of `s`.
pub fn chars_of(s: &str) -> (r: Vec<char>)
    ensures
        r@ == s@,
{
    broadcast use vstd::string::group_string_axioms;

    let mut r: Vec<char> = Vec::new();
    for c in it: s.chars()
        invariant
            r@ == it.seq().take(it.index() as int),
    {
        r.push(c);
    }
    r
}

/// A string holding `chars`, through `FromIterator<&char> for String`.
#[verifier::external_body]
pub(crate) fn string_from_chars(chars: &[char]) -> (s: String)
    ensures
        s@ == chars@,
{
    chars.iter().collect()
}

/// `a` followed by `b`.
pub fn join_strs(a: &str, b: &str) -> (r: String)
    ensures
        r@ == a@ + b@,
{
    let mut r = a.to_owned();
    r.append(b);
    r
}

/// Whether `c` is an ASCII decimal digit.
pub open spec fn is_digit_char(c: char) -> bool {
    '0' <= c <= '9'
}

/// The value of the digit `c`.
pub open spec fn digit_value(c: char) -> int {
    c as int - '0' as int
}

/// Every character of `s` is an ASCII digit.
pub open spec fn all_digits(s: Seq<char>) -> bool {
    forall|i: int| 0 <= i < s.len() ==> is_digit_char(#[trigger] s[i])
}

/// The number that the digits `s` write in base ten.
pub open spec fn digits_value(s: Seq<char>) -> int
    decreases s.len(),
{
    if s.len() == 0 {
        0
    } else {
        digits_value(s.drop_last()) * 10 + digit_value(s.last())
    }
}

/// The integer that `str::parse` reads from `s`: an optional `+` (or `-` where
/// `signed`) and then one digit or more, nothing else.
pub open spec fn parse_integer(s: Seq<char>, signed: bool) -> Option<int> {
    if s.len() == 0 {
        None
    } else if s[0] == '+' || (signed && s[0] == '-') {
        let rest = s.drop_first();
        if rest.len() > 0 && all_digits(rest) {
            Some(if s[0] == '-' { -digits_value(rest) } else { digits_value(rest) })
        } else {
            None
        }
    } else if all_digits(s) {
        Some(digits_value(s))
    } else {
        None
    }
}

/// `s.parse::<i32>()`, where `None` stands for the error.
pub open spec fn parse_i32_spec(s: Seq<char>) -> Option<i32> {
    match parse_integer(s, true) {
        Some(v) => if i32::MIN <= v <= i32::MAX { Some(v as i32) } else { None },
        None => None,
    }
}

/// `s.parse::<u32>()`, where `None` stands for the error.
pub open spec fn parse_u32_spec(s: Seq<char>) -> Option<u32> {
    match parse_integer(s, false) {
        Some(v) => if 0 <= v <= u32::MAX { Some(v as u32) } else { None },
        None => None,
    }
}

proof fn lemma_digits_value_nonneg(s: Seq<char>)
    requires
        all_digits(s),
    ensures
        digits_value(s) >= 0,
    decreases s.len(),
{
    if s.len() > 0 {
        assert(all_digits(s.drop_last()));
        lemma_digits_value_nonneg(s.drop_last());
    }
}

/// The digits of `s` from `start` on, read in base ten, as long as their value is
/// at most `limit`; `None` when a character there is no digit, when there are
/// none, or when the value is larger.
fn digits_up_to(s: &[char], start: usize, limit: u64) -> (r: Option<u64>)
    requires
        start <= s@.len(),
        limit <= 0x1_0000_0000,
    ensures
        ({
            let t = s@.subrange(start as int, s@.len() as int);
            &&& r is Some <==> (t.len() > 0 && all_digits(t) && digits_value(t) <= limit)
            &&& r matches Some(v) ==> v as int == digits_value(t) && v <= limit
        }),
{
    if start == s.len() {
        return None;
    }
    let mut acc: u64 = 0;
    let mut i = start;
    while i < s.len()
        invariant
            start <= i <= s@.len(),
            limit <= 0x1_0000_0000,
            all_digits(s@.subrange(start as int, i as int)),
            acc == (if digits_value(s@.subrange(start as int, i as int)) > limit {
                limit + 1
            } else {
                digits_value(s@.subrange(start as int, i as int))
            }),
        decreases s@.len() - i,
    {
        let c = s[i];
        if !('0' <= c && c <= '9') {
            proof {
                let t = s@.subrange(start as int, s@.len() as int);
                assert(t[i - start] == c);
            }
            return None;
        }
        let d = (c as u32 - '0' as u32) as u64;
        proof {
            let p = s@.subrange(start as int, i as int);
            let q = s@.subrange(start as int, i + 1);
            assert(q.drop_last() =~= p);
            assert(q.last() == c);
            lemma_digits_value_nonneg(p);
        }
        if acc > limit {
            acc = limit + 1;
        } else {
            acc = acc * 10 + d;
            if acc > limit {
                acc = limit + 1;
            }
        }
        i = i + 1;
        proof {
            let q = s@.subrange(start as int, i as int);
            assert forall|k: int| 0 <= k < q.len() implies is_digit_char(#[trigger] q[k]) by {
                if k < q.len() - 1 {
                    assert(q[k] == s@.subrange(start as int, i - 1)[k]);
                }
            }
        }
    }
    proof {
        assert(s@.subrange(start as int, i as int) =~= s@.subrange(start as int, s@.len() as int));
        lemma_digits_value_nonneg(s@.subrange(start as int, i as int));
    }
    if acc > limit {
        None
    } else {
        Some(acc)
    }
}

/// `s.parse::<i32>()` on the characters `s`.
pub fn parse_i32(s: &[char]) -> (r: Option<i32>)
    ensures
        r == parse_i32_spec(s@),
{
    if s.len() == 0 {
        return None;
    }
    let c = s[0];
    if c == '+' || c == '-' {
        proof {
            assert(s@.subrange(1, s@.len() as int) =~= s@.drop_first());
        }
        let limit: u64 = if c == '-' { 0x8000_0000 } else { 0x7fff_ffff };
        match digits_up_to(s, 1, limit) {
            Some(v) => if c == '-' {
                let neg: i64 = 0 - (v as i64);
                Some(neg as i32)
            } else {
                Some(v as i32)
            },
            None => {
                proof {
                    let t = s@.drop_first();
                    if t.len() > 0 && all_digits(t) {
                        lemma_digits_value_nonneg(t);
                    }
                }
                None
            },
        }
    } else {
        proof {
            assert(s@.subrange(0, s@.len() as int) =~= s@);
        }
        match digits_up_to(s, 0, 0x7fff_ffff) {
            Some(v) => Some(v as i32),
            None => {
                proof {
                    if all_digits(s@) {
                        lemma_digits_value_nonneg(s@);
                    }
                }
                None
            },
        }
    }
}

/// `s.parse::<u32>()` on the characters `s`.
pub fn parse_u32(s: &[char]) -> (r: Option<u32>)
    ensures
        r == parse_u32_spec(s@),
{
    if s.len() == 0 {
        return None;
    }
    if s[0] == '+' {
        proof {
            assert(s@.subrange(1, s@.len() as int) =~= s@.drop_first());
        }
        match digits_up_to(s, 1, 0xffff_ffff) {
            Some(v) => Some(v as u32),
            None => {
                proof {
                    let t = s@.drop_first();
                    if t.len() > 0 && all_digits(t) {
                        lemma_digits_value_nonneg(t);
                    }
                }
                None
            },
        }
    } else {
        proof {
            assert(s@.subrange(0, s@.len() as int) =~= s@);
        }
        match digits_up_to(s, 0, 0xffff_ffff) {
            Some(v) => Some(v as u32),
            None => {
                proof {
                    if all_digits(s@) {
                        lemma_digits_value_nonneg(s@);
                    }
                }
                None
            },
        }
    }
}

/// The digit character for `d < 10`.
pub open spec fn digit_char(d: int) -> char {
    if d == 0 {
        '0'
    } else if d == 1 {
        '1'
    } else if d == 2 {
        '2'
    } else if d == 3 {
        '3'
    } else if d == 4 {
        '4'
    } else if d == 5 {
        '5'
    } else if d == 6 {
        '6'
    } else if d == 7 {
        '7'
    } else if d == 8 {
        '8'
    } else {
        '9'
    }
}

/// The digit character for `d < 10`.
fn digit_to_char(d: u64) -> (c: char)
    requires
        d < 10,
    ensures
        c == digit_char(d as int),
{
    if d == 0 {
        '0'
    } else if d == 1 {
        '1'
    } else if d == 2 {
        '2'
    } else if d == 3 {
        '3'
    } else if d == 4 {
        '4'
    } else if d == 5 {
        '5'
    } else if d == 6 {
        '6'
    } else if d == 7 {
        '7'
    } else if d == 8 {
        '8'
    } else {
        '9'
    }
}

/// `n` written in base ten, as `Display` writes it.
pub open spec fn decimal(n: nat) -> Seq<char>
    decreases n,
{
    if n < 10 {
        seq![digit_char(n as int)]
    } else {
        decimal(n / 10).push(digit_char((n % 10) as int))
    }
}

/// `n` written in base ten after the characters already in `out`.
pub fn push_decimal(n: u64, out: &mut Vec<char>)
    ensures
        final(out)@ == old(out)@ + decimal(n as nat),
    decreases n,
{
    if n >= 10 {
        push_decimal(n / 10, out);
    }
    let c = digit_to_char(n % 10);
    out.push(c);
}

} // verus!

verus! {

/// Whether `a` and `b` hold the same characters.
pub fn chars_eq(a: &[char], b: &[char]) -> (r: bool)
    ensures
        r == (a@ == b@),
{
    if a.len() != b.len() {
        return false;
    }
    let mut i: usize = 0;
    while i < a.len()
        invariant
            i <= a@.len(),
            a@.len() == b@.len(),
            forall|k: int| 0 <= k < i ==> a@[k] == b@[k],
        decreases a@.len() - i,
    {
        if a[i] != b[i] {
            return false;
        }
        i = i + 1;
    }
    proof {
        assert(a@ =~= b@);
    }
    true
}

/// Whether `a` and `b` are the same text.
pub fn str_eq(a: &str, b: &str) -> (r: bool)
    ensures
        r == (a@ == b@),
{
    let x = chars_of(a);
    let y = chars_of(b);
    chars_eq(x.as_slice(), y.as_slice())
}

} // verus!

verus! {

/// Appends the characters of `s` to `out`.
pub fn append_str(out: &mut Vec<char>, s: &str)
    ensures
        final(out)@ == old(out)@ + s@,
{
    let chars = chars_of(s);
    append_chars(out, chars.as_slice());
}

/// Appends `chars` to `out`.
pub fn append_chars(out: &mut Vec<char>, chars: &[char])
    ensures
        final(out)@ == old(out)@ + chars@,
{
    let ghost before = out@;
    let mut i: usize = 0;
    while i < chars.len()
        invariant
            i <= chars@.len(),
            out@ == before + chars@.take(i as int),
        decreases chars@.len() - i,
    {
        out.push(chars[i]);
        i = i + 1;
        proof {
            assert(before + chars@.take(i as int) =~= (before + chars@.take(i - 1)).push(chars@[i - 1]));
        }
    }
    proof {
        assert(chars@.take(i as int) =~= chars@);
    }
}

/// `n` written in base ten with a leading `-` when negative.
pub open spec fn signed_decimal(n: int) -> Seq<char> {
    if n < 0 {
        seq!['-'] + decimal((-n) as nat)
    } else {
        decimal(n as nat)
    }
}

/// Appends `n` in base ten, as `Display` writes an `i64`.
pub fn push_signed_decimal(n: i64, out: &mut Vec<char>)
    ensures
        final(out)@ == old(out)@ + signed_decimal(n as int),
{
    if n < 0 {
        let ghost before = out@;
        out.push('-');
        let magnitude: u64 = (0 - (n as i128)) as u64;
        push_decimal(magnitude, out);
        proof {
            assert(out@ =~= before + signed_decimal(n as int));
        }
    } else {
        push_decimal(n as u64, out);
    }
}

} // verus!

verus! {

/// The pieces of `s` between occurrences of `sep`, as `str::split(sep)` gives them.
pub open spec fn split_on(s: Seq<char>, sep: char) -> Seq<Seq<char>>
    decreases s.len(),
{
    if s.len() == 0 {
        seq![Seq::empty()]
    } else {
        let parts = split_on(s.drop_last(), sep);
        if s.last() == sep {
            parts.push(Seq::empty())
        } else {
            parts.update(parts.len() - 1, parts.last().push(s.last()))
        }
    }
}

proof fn lemma_split_nonempty(s: Seq<char>, sep: char)
    ensures
        split_on(s, sep).len() >= 1,
    decreases s.len(),
{
    if s.len() > 0 {
        lemma_split_nonempty(s.drop_last(), sep);
    }
}

/// Splits `s` at every `sep`, as `str::split(sep)` does.
pub fn split_text(s: &str, sep: char) -> (r: Vec<String>)
    ensures
        r@.len() == split_on(s@, sep).len(),
        forall|i: int| 0 <= i < r@.len() ==> #[trigger] r@[i]@ == split_on(s@, sep)[i],
{
    let chars = chars_of(s);
    let mut parts: Vec<Vec<char>> = Vec::new();
    let mut current: Vec<char> = Vec::new();
    let mut i: usize = 0;
    while i < chars.len()
        invariant
            i <= chars@.len(),
            chars@ == s@,
            parts@.len() + 1 == split_on(chars@.take(i as int), sep).len(),
            forall|k: int| 0 <= k < parts@.len() ==> #[trigger] parts@[k]@ == split_on(chars@.take(i as int), sep)[k],
            current@ == split_on(chars@.take(i as int), sep).last(),
        decreases chars@.len() - i,
    {
        let c = chars[i];
        proof {
            assert(chars@.take(i + 1).drop_last() =~= chars@.take(i as int));
            lemma_split_nonempty(chars@.take(i as int), sep);
        }
        if c == sep {
            let done = current;
            parts.push(done);
            current = Vec::new();
        } else {
            current.push(c);
        }
        i = i + 1;
    }
    proof {
        assert(chars@.take(i as int) =~= chars@);
    }
    let ghost pieces = split_on(s@, sep);
    parts.push(current);
    let mut r: Vec<String> = Vec::new();
    let mut k: usize = 0;
    while k < parts.len()
        invariant
            k <= parts@.len(),
            parts@.len() == pieces.len(),
            forall|j: int| 0 <= j < parts@.len() ==> #[trigger] parts@[j]@ == pieces[j],
            r@.len() == k,
            forall|j: int| 0 <= j < k ==> #[trigger] r@[j]@ == pieces[j],
        decreases parts@.len() - k,
    {
        r.push(string_from_chars(parts[k].as_slice()));
        k = k + 1;
    }
    r
}

} // verus!

verus! {

proof fn lemma_decimal_digits(n: nat)
    ensures
        decimal(n).len() >= 1,
        all_digits(decimal(n)),
        digits_value(decimal(n)) == n,
    decreases n,
{
    let c = digit_char((n % 10) as int);
    assert(digit_value(c) == n % 10);
    assert(is_digit_char(c));
    let s = decimal(n);
    if n >= 10 {
        lemma_decimal_digits(n / 10);
        assert(s.drop_last() =~= decimal(n / 10));
        assert(s.last() == c);
        assert((n / 10) * 10 + n % 10 == n);
        assert(digits_value(s) == digits_value(s.drop_last()) * 10 + digit_value(s.last()));
        assert(digits_value(s) == digits_value(decimal(n / 10)) * 10 + digit_value(c));
    } else {
        assert(digits_value(s) == digits_value(s.drop_last()) * 10 + digit_value(s.last()));
        assert(s.drop_last() =~= Seq::<char>::empty());
        assert(s.last() == c);
    }
}

/// Writing a `u32` in base ten and reading it back gives the same number.
pub proof fn law_u32_decimal_roundtrip(n: u32)
    ensures
        parse_u32_spec(decimal(n as nat)) == Some(n),
{
    lemma_decimal_digits(n as nat);
}

/// Writing an `i32` in base ten and reading it back gives the same number.
pub proof fn law_i32_decimal_roundtrip(n: i32)
    ensures
        parse_i32_spec(signed_decimal(n as int)) == Some(n),
{
    if n < 0 {
        lemma_decimal_digits((-n) as nat);
        let s = signed_decimal(n as int);
        assert(s.drop_first() =~= decimal((-n) as nat));
    } else {
        lemma_decimal_digits(n as nat);
    }
}

} // verus!

verus! {

/// The pieces joined back together with `sep` between them.
pub open spec fn join_with(parts: Seq<Seq<char>>, sep: char) -> Seq<char>
    decreases parts.len(),
{
    if parts.len() == 0 {
        Seq::empty()
    } else if parts.len() == 1 {
        parts[0]
    } else {
        join_with(parts.drop_last(), sep).push(sep) + parts.last()
    }
}

proof fn lemma_join_extend_last(parts: Seq<Seq<char>>, sep: char, c: char)
    requires
        parts.len() >= 1,
    ensures
        join_with(parts.update(parts.len() - 1, parts.last().push(c)), sep) == join_with(
            parts,
            sep,
        ).push(c),
{
    let updated = parts.update(parts.len() - 1, parts.last().push(c));
    if parts.len() >= 2 {
        assert(updated.drop_last() =~= parts.drop_last());
        assert(join_with(updated, sep) =~= join_with(parts, sep).push(c));
    }
}

/// Splitting a text at a separator and joining the pieces with it gives the text back.
pub proof fn law_split_then_join(s: Seq<char>, sep: char)
    ensures
        join_with(split_on(s, sep), sep) == s,
    decreases s.len(),
{
    if s.len() == 0 {
        assert(join_with(split_on(s, sep), sep) =~= s);
    } else {
        let prefix = s.drop_last();
        law_split_then_join(prefix, sep);
        lemma_split_nonempty(prefix, sep);
        let parts = split_on(prefix, sep);
        if s.last() == sep {
            let pushed = parts.push(Seq::<char>::empty());
            assert(pushed.drop_last() =~= parts);
            assert(join_with(pushed, sep) =~= s);
        } else {
            lemma_join_extend_last(parts, sep, s.last());
            assert(prefix.push(s.last()) =~= s);
        }
    }
}

} // verus!

verus! {

proof fn lemma_skip_from_stops_on_text(s: Seq<char>, i: int)
    requires
        0 <= i <= s.len(),
    ensures
        skip_whitespace_from(s, i) < s.len() ==> !is_whitespace_char(s[skip_whitespace_from(s, i)]),
    decreases s.len() - i,
{
    if i < s.len() && is_whitespace_char(s[i]) {
        lemma_skip_from_stops_on_text(s, i + 1);
    }
}

proof fn lemma_skip_back_stops_on_text(s: Seq<char>, j: int)
    requires
        0 <= j <= s.len(),
    ensures
        skip_whitespace_back_to(s, j) > 0 ==> !is_whitespace_char(
            s[skip_whitespace_back_to(s, j) - 1],
        ),
    decreases j,
{
    if j > 0 && is_whitespace_char(s[j - 1]) {
        lemma_skip_back_stops_on_text(s, j - 1);
    }
}

/// Trimming twice is trimming once.
pub proof fn law_trim_idempotent(s: Seq<char>)
    ensures
        trimmed(trimmed(s)) == trimmed(s),
{
    let t = trimmed(s);
    lemma_skip_whitespace_from_bounds(s, 0);
    lemma_skip_whitespace_back_bounds(s, s.len() as int);
    if trim_start(s) >= trim_end(s) {
        assert(trimmed(t) =~= t);
    } else {
        lemma_skip_from_stops_on_text(s, 0);
        lemma_skip_back_stops_on_text(s, s.len() as int);
        assert(t[0] == s[trim_start(s)]);
        assert(t[t.len() - 1] == s[trim_end(s) - 1]);
        assert(trim_start(t) == 0);
        assert(trim_end(t) == t.len());
        assert(trimmed(t) =~= t);
    }
}

} // verus!
