//! Text primitives shared by the registry formats: decimal rendering,
//! substring search and decimal parsing.
use vstd::prelude::*;

verus! {

/// The views of a sequence of strings.
pub open spec fn string_views(v: Seq<String>) -> Seq<Seq<char>> {
    v.map_values(|s: String| s@)
}

/// The character of a decimal digit value.
pub open spec fn digit_char(d: nat) -> char {
    if d == 0 { '0' }
    else if d == 1 { '1' }
    else if d == 2 { '2' }
    else if d == 3 { '3' }
    else if d == 4 { '4' }
    else if d == 5 { '5' }
    else if d == 6 { '6' }
    else if d == 7 { '7' }
    else if d == 8 { '8' }
    else { '9' }
}

/// The decimal rendering of `n`, without leading zeros.
pub open spec fn decimal(n: nat) -> Seq<char>
    decreases n,
{
    if n < 10 {
        seq![digit_char(n)]
    } else {
        decimal(n / 10).push(digit_char(n % 10))
    }
}

fn digit_str(d: u64) -> (r: &'static str)
    requires
        d < 10,
    ensures
        r@ == seq![digit_char(d as nat)],
{
    proof {
        reveal_strlit("0");
        reveal_strlit("1");
        reveal_strlit("2");
        reveal_strlit("3");
        reveal_strlit("4");
        reveal_strlit("5");
        reveal_strlit("6");
        reveal_strlit("7");
        reveal_strlit("8");
        reveal_strlit("9");
    }
    if d == 0 { "0" }
    else if d == 1 { "1" }
    else if d == 2 { "2" }
    else if d == 3 { "3" }
    else if d == 4 { "4" }
    else if d == 5 { "5" }
    else if d == 6 { "6" }
    else if d == 7 { "7" }
    else if d == 8 { "8" }
    else {
        assert(seq!['9'] =~= "9"@);
        "9"
    }
}

/// Renders `n` in decimal.
pub fn decimal_string(n: u64) -> (r: String)
    ensures
        r@ == decimal(n as nat),
    decreases n,
{
    if n < 10 {
        String::from_str(digit_str(n))
    } else {
        let mut s = decimal_string(n / 10);
        s.append(digit_str(n % 10));
        s
    }
}

} // verus!

verus! {

/// A run of `n` zero digits.
pub open spec fn zeros(n: nat) -> Seq<char> {
    Seq::new(n, |i: int| '0')
}

/// `n` in decimal, left-padded with zeros to at least `width` digits.
pub open spec fn zero_padded(n: nat, width: nat) -> Seq<char> {
    if decimal(n).len() >= width {
        decimal(n)
    } else {
        zeros((width - decimal(n).len()) as nat) + decimal(n)
    }
}

/// Renders `n` in decimal, left-padded with zeros to at least `width` digits.
pub fn zero_padded_string(n: u64, width: usize) -> (r: String)
    ensures
        r@ == zero_padded(n as nat, width as nat),
{
    let digits = decimal_string(n);
    let len = digits.as_str().unicode_len();
    if len >= width {
        return digits;
    }
    let mut r = String::new();
    let mut k: usize = 0;
    proof {
        reveal_strlit("0");
    }
    while k < width - len
        invariant
            len == digits@.len(),
            len < width,
            k <= width - len,
            r@ == zeros(k as nat),
        decreases width - len - k,
    {
        proof {
            reveal_strlit("0");
        }
        assert("0"@ =~= seq!['0']);
        r.append("0");
        k = k + 1;
        assert(r@ =~= zeros(k as nat));
    }
    r.append(digits.as_str());
    r
}

/// Whether `pat` occurs in `s` starting at position `i`.
pub open spec fn occurs_at(s: Seq<char>, pat: Seq<char>, i: int) -> bool {
    0 <= i && i + pat.len() <= s.len() && s.subrange(i, i + pat.len()) == pat
}

/// The first position at or after `i` where `pat` occurs in `s`.
pub open spec fn find_from(s: Seq<char>, pat: Seq<char>, i: int) -> Option<int>
    decreases s.len() + 1 - i,
{
    if i < 0 || i + pat.len() > s.len() {
        None
    } else if occurs_at(s, pat, i) {
        Some(i)
    } else {
        find_from(s, pat, i + 1)
    }
}

/// Whether `pat` occurs anywhere in `s`.
pub open spec fn contains(s: Seq<char>, pat: Seq<char>) -> bool {
    find_from(s, pat, 0) is Some
}

fn occurs_at_exec(s: &str, n: usize, pat: &str, m: usize, i: usize) -> (r: bool)
    requires
        n == s@.len(),
        m == pat@.len(),
        i + m <= n,
    ensures
        r == occurs_at(s@, pat@, i as int),
{
    let mut j: usize = 0;
    while j < m
        invariant
            n == s@.len(),
            m == pat@.len(),
            i + m <= n,
            j <= m,
            forall|k: int| 0 <= k < j ==> s@[i + k] == pat@[k],
        decreases m - j,
    {
        if s.get_char(i + j) != pat.get_char(j) {
            assert(s@.subrange(i as int, i + m)[j as int] != pat@[j as int]);
            return false;
        }
        j = j + 1;
    }
    assert(s@.subrange(i as int, i + m) =~= pat@);
    true
}

/// The first position where `pat` occurs in `s`.
pub fn find(s: &str, pat: &str) -> (r: Option<usize>)
    ensures
        r matches Some(i) ==> find_from(s@, pat@, 0) == Some(i as int),
        r is None ==> find_from(s@, pat@, 0) is None,
{
    let n = s.unicode_len();
    let m = pat.unicode_len();
    if m > n {
        return None;
    }
    let last = n - m;
    let mut i: usize = 0;
    loop
        invariant
            n == s@.len(),
            m == pat@.len(),
            last == n - m,
            i <= last,
            find_from(s@, pat@, 0) == find_from(s@, pat@, i as int),
        decreases last - i,
    {
        if occurs_at_exec(s, n, pat, m, i) {
            return Some(i);
        }
        if i == last {
            assert(find_from(s@, pat@, i + 1) is None);
            return None;
        }
        i = i + 1;
    }
}

/// Whether `pat` occurs anywhere in `s`.
pub fn contains_str(s: &str, pat: &str) -> (r: bool)
    ensures
        r == contains(s@, pat@),
{
    find(s, pat).is_some()
}

} // verus!

verus! {

/// Classes of characters that delimit the fields of a line.
#[derive(Clone, Copy, PartialEq, Eq, Debug)]
pub enum CharClass {
    Space,
    NonSpace,
    Digit,
}

pub open spec fn is_space(c: char) -> bool {
    c == ' ' || c == '\t' || c == '\r' || c == '\n'
}

pub open spec fn is_digit(c: char) -> bool {
    '0' <= c && c <= '9'
}

pub open spec fn in_class(c: char, class: CharClass) -> bool {
    match class {
        CharClass::Space => is_space(c),
        CharClass::NonSpace => !is_space(c),
        CharClass::Digit => is_digit(c),
    }
}

/// The end of the run of `class` characters of `s` that starts at `i`.
pub open spec fn run_end(s: Seq<char>, i: int, class: CharClass) -> int
    decreases s.len() - i,
{
    if 0 <= i < s.len() && in_class(s[i], class) {
        run_end(s, i + 1, class)
    } else {
        i
    }
}

/// The value of a sequence of decimal digits.
pub open spec fn digits_value(t: Seq<char>) -> nat
    decreases t.len(),
{
    if t.len() == 0 {
        0
    } else {
        digits_value(t.drop_last()) * 10 + (t.last() as int - '0' as int) as nat
    }
}

pub open spec fn all_digits(t: Seq<char>) -> bool {
    forall|i: int| 0 <= i < t.len() ==> is_digit(#[trigger] t[i])
}

/// A non-empty run of decimal digits whose value fits in a `u32`.
pub open spec fn parse_u32(t: Seq<char>) -> Option<u32> {
    if t.len() > 0 && all_digits(t) && digits_value(t) <= u32::MAX {
        Some(digits_value(t) as u32)
    } else {
        None
    }
}

/// Where the `k`-th whitespace-separated token of `s` starts (counting from 0).
pub open spec fn token_start(s: Seq<char>, k: nat) -> int
    decreases k,
{
    if k == 0 {
        run_end(s, 0, CharClass::Space)
    } else {
        run_end(s, run_end(s, token_start(s, (k - 1) as nat), CharClass::NonSpace), CharClass::Space)
    }
}

/// The `k`-th whitespace-separated token of `s`, if the line has that many.
pub open spec fn nth_token(s: Seq<char>, k: nat) -> Option<Seq<char>> {
    let b = token_start(s, k);
    if b < s.len() {
        Some(s.subrange(b, run_end(s, b, CharClass::NonSpace)))
    } else {
        None
    }
}

/// The number written right after the first occurrence of `pat` in `s`
/// (spaces in between are allowed).
pub open spec fn number_after(s: Seq<char>, pat: Seq<char>) -> Option<u32> {
    match find_from(s, pat, 0) {
        Some(i) => {
            let b = run_end(s, i + pat.len(), CharClass::Space);
            parse_u32(s.subrange(b, run_end(s, b, CharClass::Digit)))
        },
        None => None,
    }
}

fn char_in_class(c: char, class: CharClass) -> (r: bool)
    ensures
        r == in_class(c, class),
{
    let space = c == ' ' || c == '\t' || c == '\r' || c == '\n';
    match class {
        CharClass::Space => space,
        CharClass::NonSpace => !space,
        CharClass::Digit => '0' <= c && c <= '9',
    }
}

proof fn lemma_run_end_bounds(s: Seq<char>, i: int, class: CharClass)
    requires
        0 <= i <= s.len(),
    ensures
        i <= run_end(s, i, class) <= s.len(),
    decreases s.len() - i,
{
    if i < s.len() && in_class(s[i], class) {
        lemma_run_end_bounds(s, i + 1, class);
    }
}

fn run_end_exec(s: &str, n: usize, i: usize, class: CharClass) -> (r: usize)
    requires
        n == s@.len(),
        i <= n,
    ensures
        r == run_end(s@, i as int, class),
        i <= r <= n,
{
    let mut j = i;
    while j < n && char_in_class(s.get_char(j), class)
        invariant
            n == s@.len(),
            i <= j <= n,
            run_end(s@, i as int, class) == run_end(s@, j as int, class),
        decreases n - j,
    {
        j = j + 1;
    }
    j
}

proof fn lemma_digits_step(s: Seq<char>, from: int, j: int)
    requires
        0 <= from <= j < s.len(),
    ensures
        digits_value(s.subrange(from, j + 1)) == digits_value(s.subrange(from, j)) * 10 + (
        s[j] as int - '0' as int) as nat,
{
    assert(s.subrange(from, j + 1).drop_last() =~= s.subrange(from, j));
}

/// A non-empty run of decimal digits whose value is at most `limit`.
pub open spec fn parse_bounded(t: Seq<char>, limit: nat) -> Option<nat> {
    if t.len() > 0 && all_digits(t) && digits_value(t) <= limit {
        Some(digits_value(t))
    } else {
        None
    }
}

/// A non-empty run of decimal digits whose value fits in a `u64`.
pub open spec fn digits_u64(t: Seq<char>) -> Option<u64> {
    if t.len() > 0 && all_digits(t) && digits_value(t) <= u64::MAX {
        Some(digits_value(t) as u64)
    } else {
        None
    }
}

/// A `u64` written in decimal, as Rust's integer parsing reads it: one
/// optional leading `+` before a non-empty run of digits.
pub open spec fn parse_u64(t: Seq<char>) -> Option<u64> {
    if t.len() > 0 && t[0] == '+' {
        digits_u64(t.drop_first())
    } else {
        digits_u64(t)
    }
}

fn parse_range(s: &str, from: usize, to: usize, limit: u64) -> (r: Option<u64>)
    requires
        from <= to <= s@.len(),
    ensures
        r matches Some(v) ==> parse_bounded(s@.subrange(from as int, to as int), limit as nat)
            == Some(v as nat),
        r is None ==> parse_bounded(s@.subrange(from as int, to as int), limit as nat) is None,
{
    let ghost t = s@.subrange(from as int, to as int);
    if from == to {
        return None;
    }
    let cap: u128 = limit as u128 + 1;
    let mut acc: u128 = 0;
    let mut j = from;
    while j < to
        invariant
            from < to <= s@.len(),
            t == s@.subrange(from as int, to as int),
            from <= j <= to,
            cap == limit + 1,
            forall|k: int| from <= k < j ==> is_digit(#[trigger] s@[k]),
            acc == if digits_value(s@.subrange(from as int, j as int)) > limit {
                cap as nat
            } else {
                digits_value(s@.subrange(from as int, j as int))
            },
        decreases to - j,
    {
        let c = s.get_char(j);
        if !('0' <= c && c <= '9') {
            assert(!is_digit(t[j - from]));
            return None;
        }
        proof {
            lemma_digits_step(s@, from as int, j as int);
        }
        let d = (c as u32 - '0' as u32) as u128;
        if acc < cap {
            acc = acc * 10 + d;
            if acc > limit as u128 {
                acc = cap;
            }
        }
        j = j + 1;
    }
    assert(t =~= s@.subrange(from as int, j as int));
    assert(all_digits(t));
    if acc <= limit as u128 {
        Some(acc as u64)
    } else {
        None
    }
}

/// Parses the characters `from..to` of `s` as a decimal `u32`.
pub fn parse_u32_range(s: &str, from: usize, to: usize) -> (r: Option<u32>)
    requires
        from <= to <= s@.len(),
    ensures
        r == parse_u32(s@.subrange(from as int, to as int)),
{
    match parse_range(s, from, to, u32::MAX as u64) {
        Some(v) => Some(v as u32),
        None => None,
    }
}

/// Parses the whole of `s` as a decimal `u64`, with an optional leading `+`.
pub fn parse_u64_str(s: &str) -> (r: Option<u64>)
    ensures
        r == parse_u64(s@),
{
    let n = s.unicode_len();
    if n > 0 && s.get_char(0) == '+' {
        let r = parse_range(s, 1, n, u64::MAX);
        assert(s@.subrange(1, n as int) =~= s@.drop_first());
        r
    } else {
        let r = parse_range(s, 0, n, u64::MAX);
        assert(s@.subrange(0, n as int) =~= s@);
        r
    }
}

/// The `k`-th whitespace-separated token of `s`, read as a decimal `u32`.
pub fn token_u32(s: &str, k: usize) -> (r: Option<u32>)
    ensures
        r == (match nth_token(s@, k as nat) {
            Some(t) => parse_u32(t),
            None => None,
        }),
{
    let n = s.unicode_len();
    let mut b = run_end_exec(s, n, 0, CharClass::Space);
    let mut i: usize = 0;
    while i < k
        invariant
            n == s@.len(),
            i <= k,
            b <= n,
            b == token_start(s@, i as nat),
        decreases k - i,
    {
        let e = run_end_exec(s, n, b, CharClass::NonSpace);
        b = run_end_exec(s, n, e, CharClass::Space);
        i = i + 1;
    }
    if b < n {
        let e = run_end_exec(s, n, b, CharClass::NonSpace);
        parse_u32_range(s, b, e)
    } else {
        None
    }
}

proof fn lemma_find_from_fits(s: Seq<char>, pat: Seq<char>, j: int)
    ensures
        find_from(s, pat, j) matches Some(i) ==> j <= i && i + pat.len() <= s.len(),
    decreases s.len() + 1 - j,
{
    if !(j < 0 || j + pat.len() > s.len()) && !occurs_at(s, pat, j) {
        lemma_find_from_fits(s, pat, j + 1);
    }
}

/// The number written right after the first occurrence of `pat` in `s`.
pub fn number_after_str(s: &str, pat: &str) -> (r: Option<u32>)
    ensures
        r == number_after(s@, pat@),
{
    match find(s, pat) {
        Some(i) => {
            proof {
                lemma_find_from_fits(s@, pat@, 0);
            }
            let n = s.unicode_len();
            let m = pat.unicode_len();
            let b = run_end_exec(s, n, i + m, CharClass::Space);
            let e = run_end_exec(s, n, b, CharClass::Digit);
            parse_u32_range(s, b, e)
        },
        None => None,
    }
}

/// For two sequences of one length, one contains the other exactly when
/// they are equal.
pub proof fn lemma_contains_same_length(s: Seq<char>, pat: Seq<char>)
    requires
        s.len() == pat.len(),
    ensures
        contains(s, pat) <==> s == pat,
{
    assert(s.subrange(0, s.len() as int) =~= s);
    if !occurs_at(s, pat, 0) {
        assert(find_from(s, pat, 1) is None);
    }
}

proof fn lemma_digit_char(d: nat)
    requires
        d < 10,
    ensures
        is_digit(digit_char(d)),
        digit_char(d) as int - '0' as int == d,
{
}

/// The decimal rendering of `n` is a non-empty run of digits worth `n`.
pub proof fn lemma_decimal_digits(n: nat)
    ensures
        decimal(n).len() > 0,
        all_digits(decimal(n)),
        digits_value(decimal(n)) == n,
    decreases n,
{
    if n >= 10 {
        lemma_decimal_digits(n / 10);
        lemma_digit_char(n % 10);
        let d = decimal(n);
        assert(d.drop_last() =~= decimal(n / 10));
        assert(d.last() == digit_char(n % 10));
        assert(digits_value(d) == (n / 10) * 10 + n % 10);
        assert(n == (n / 10) * 10 + n % 10);
        assert forall|i: int| 0 <= i < d.len() implies is_digit(#[trigger] d[i]) by {
            if i < d.len() - 1 {
                assert(d[i] == decimal(n / 10)[i]);
            }
        }
    } else {
        lemma_digit_char(n);
        assert(decimal(n).drop_last() =~= Seq::<char>::empty());
        assert(digits_value(Seq::<char>::empty()) == 0);
    }
}

/// A run of digits that reaches the end of `s` ends there.
pub proof fn lemma_digit_run_to_end(s: Seq<char>, i: int)
    requires
        0 <= i <= s.len(),
        forall|k: int| i <= k < s.len() ==> is_digit(#[trigger] s[k]),
    ensures
        run_end(s, i, CharClass::Digit) == s.len(),
    decreases s.len() - i,
{
    if i < s.len() {
        lemma_digit_run_to_end(s, i + 1);
    }
}

} // verus!
