//! Text helpers shared by the reports, each proved against a statement over
//! the characters of its arguments.
use vstd::prelude::*;

verus! {

/// Appends `c` to `s` (`String::push`).
#[verifier::external_body]
pub(crate) fn push_char(s: &mut String, c: char)
    ensures
        final(s)@ == old(s)@.push(c),
{
    s.push(c);
}

/// Whether two string slices hold the same characters.
pub fn str_eq(a: &str, b: &str) -> (r: bool)
    ensures
        r == (a@ == b@),
{
    let n = a.unicode_len();
    if n != b.unicode_len() {
        return false;
    }
    let mut i: usize = 0;
    while i < n
        invariant
            n == a@.len(),
            n == b@.len(),
            i <= n,
            forall|j: int| 0 <= j < i ==> a@[j] == b@[j],
        decreases n - i,
    {
        if a.get_char(i) != b.get_char(i) {
            return false;
        }
        i = i + 1;
    }
    assert(a@ =~= b@);
    true
}

/// A new `String` holding the characters of `s`.
pub fn owned(s: &str) -> (r: String)
    ensures
        r@ == s@,
{
    s.to_string()
}

/// `a` followed by `b`.
pub fn concat(a: &str, b: &str) -> (r: String)
    ensures
        r@ == a@ + b@,
{
    let mut r = a.to_string();
    r.append(b);
    r
}


/// The characters of `s`, one by one.
pub fn chars_of(s: &str) -> (r: Vec<char>)
    ensures
        r@ == s@,
{
    let n = s.unicode_len();
    let mut r: Vec<char> = Vec::new();
    let mut i: usize = 0;
    while i < n
        invariant
            n == s@.len(),
            i <= n,
            r@ == s@.subrange(0, i as int),
        decreases n - i,
    {
        r.push(s.get_char(i));
        i = i + 1;
        assert(r@ =~= s@.subrange(0, i as int));
    }
    assert(r@ =~= s@);
    r
}

/// A `String` holding `chars[from..to]`.
pub fn string_of(chars: &Vec<char>, from: usize, to: usize) -> (r: String)
    requires
        from <= to <= chars@.len(),
    ensures
        r@ == chars@.subrange(from as int, to as int),
{
    let mut r = String::new();
    let mut i: usize = from;
    while i < to
        invariant
            from <= i <= to <= chars@.len(),
            r@ == chars@.subrange(from as int, i as int),
        decreases to - i,
    {
        push_char(&mut r, chars[i]);
        i = i + 1;
        assert(r@ =~= chars@.subrange(from as int, i as int));
    }
    r
}

/// ASCII decimal digit.
pub open spec fn is_digit(c: char) -> bool {
    '0' <= c && c <= '9'
}

/// Every character is an ASCII decimal digit.
pub open spec fn all_digits(s: Seq<char>) -> bool {
    forall|i: int| 0 <= i < s.len() ==> is_digit(#[trigger] s[i])
}

pub open spec fn digit_value(c: char) -> int {
    c as int - '0' as int
}

/// The number written by a string of decimal digits.
pub open spec fn digits_value(s: Seq<char>) -> int
    decreases s.len(),
{
    if s.len() == 0 {
        0
    } else {
        digits_value(s.drop_last()) * 10 + digit_value(s.last())
    }
}

/// What `str::parse` of a signed integer type reads, before its range check:
/// an optional `+` or `-`, then at least one decimal digit.
pub open spec fn signed_value(s: Seq<char>) -> Option<int> {
    if s.len() > 0 && (s[0] == '+' || s[0] == '-') {
        let rest = s.skip(1);
        if rest.len() > 0 && all_digits(rest) {
            Some(if s[0] == '-' { -digits_value(rest) } else { digits_value(rest) })
        } else {
            None
        }
    } else if s.len() > 0 && all_digits(s) {
        Some(digits_value(s))
    } else {
        None
    }
}

/// What `str::parse` of an unsigned integer type reads, before its range
/// check: an optional `+`, then at least one decimal digit.
pub open spec fn unsigned_value(s: Seq<char>) -> Option<int> {
    if s.len() > 0 && s[0] == '-' {
        None
    } else {
        signed_value(s)
    }
}

/// `str::parse::<i32>`: the value, or `None` where std reports an error.
pub open spec fn parse_i32_spec(s: Seq<char>) -> Option<i32> {
    match signed_value(s) {
        Some(v) => if i32::MIN <= v <= i32::MAX { Some(v as i32) } else { None },
        None => None,
    }
}

/// `str::parse::<u32>`: the value, or `None` where std reports an error.
pub open spec fn parse_u32_spec(s: Seq<char>) -> Option<u32> {
    match unsigned_value(s) {
        Some(v) => if 0 <= v <= u32::MAX { Some(v as u32) } else { None },
        None => None,
    }
}

proof fn lemma_digits_prefix(s: Seq<char>, i: int)
    requires
        all_digits(s),
        0 <= i <= s.len(),
    ensures
        digits_value(s) >= digits_value(s.subrange(0, i)) >= 0,
    decreases s.len(),
{
    if s.len() == 0 {
        assert(s.subrange(0, i) =~= s);
    } else if i == s.len() {
        assert(s.subrange(0, i) =~= s);
        lemma_digits_prefix(s.drop_last(), 0);
        assert(s.drop_last().subrange(0, 0) =~= Seq::<char>::empty());
        assert(s.subrange(0, 0) =~= Seq::<char>::empty());
    } else {
        lemma_digits_prefix(s.drop_last(), i);
        assert(s.drop_last().subrange(0, i) =~= s.subrange(0, i));
    }
}

/// Reads the decimal digits `chars[from..]`: `Some` of their value when they are
/// all digits, there is at least one, and the value is at most `max`.
fn digits_at_most(chars: &Vec<char>, from: usize, max: u64) -> (r: Option<u64>)
    requires
        from <= chars@.len(),
    ensures
        r matches Some(v) ==> {
            let rest = chars@.skip(from as int);
            &&& rest.len() > 0
            &&& all_digits(rest)
            &&& v == digits_value(rest)
            &&& v <= max
        },
        r is None ==> ({
            let rest = chars@.skip(from as int);
            rest.len() == 0 || !all_digits(rest) || digits_value(rest) > max
        }),
{
    let n = chars.len();
    if from == n {
        return None;
    }
    let ghost rest = chars@.skip(from as int);
    let mut value: u64 = 0;
    let mut i: usize = from;
    while i < n
        invariant
            n == chars@.len(),
            from <= i <= n,
            rest == chars@.skip(from as int),
            all_digits(rest.subrange(0, i - from)),
            value == digits_value(rest.subrange(0, i - from)),
            value <= max,
        decreases n - i,
    {
        let c = chars[i];
        if !('0' <= c && c <= '9') {
            assert(rest[i - from] == c);
            return None;
        }
        let d: u64 = (c as u32 - '0' as u32) as u64;
        let ghost prefix = rest.subrange(0, i - from);
        let ghost next = rest.subrange(0, i + 1 - from);
        assert(next.drop_last() =~= prefix);
        if d > max || value > (max - d) / 10 {
            proof {
                assert(digits_value(next) == value * 10 + d);
                if d <= max {
                    assert(value * 10 + d > max) by (nonlinear_arith)
                        requires value > (max - d) / 10, d <= max;
                }
                if all_digits(rest) {
                    lemma_digits_prefix(rest, i + 1 - from);
                }
            }
            return None;
        }
        assert(value * 10 + d <= max) by (nonlinear_arith)
            requires value <= (max - d) / 10, d <= max;
        value = value * 10 + d;
        i = i + 1;
    }
    assert(rest.subrange(0, n - from) =~= rest);
    Some(value)
}


/// `str::parse::<i32>` over the characters of a string.
pub fn parse_i32_chars(chars: &Vec<char>) -> (r: Option<i32>)
    ensures
        r == parse_i32_spec(chars@),
{
    let ghost s = chars@;
    if chars.len() > 0 && (chars[0] == '+' || chars[0] == '-') {
        let negative = chars[0] == '-';
        let max: u64 = if negative { 2_147_483_648 } else { 2_147_483_647 };
        match digits_at_most(chars, 1, max) {
            Some(v) => {
                if negative {
                    Some((-(v as i64)) as i32)
                } else {
                    Some(v as i32)
                }
            },
            None => None,
        }
    } else {
        match digits_at_most(chars, 0, 2_147_483_647) {
            Some(v) => {
                assert(s.skip(0) =~= s);
                Some(v as i32)
            },
            None => {
                assert(s.skip(0) =~= s);
                None
            },
        }
    }
}

/// `str::parse::<i32>`: the value, or `None` where std reports an error.
pub fn parse_i32(s: &str) -> (r: Option<i32>)
    ensures
        r == parse_i32_spec(s@),
{
    parse_i32_chars(&chars_of(s))
}

/// `str::parse::<u32>` over the characters of a string.
pub fn parse_u32_chars(chars: &Vec<char>) -> (r: Option<u32>)
    ensures
        r == parse_u32_spec(chars@),
{
    let ghost s = chars@;
    if chars.len() > 0 && chars[0] == '-' {
        None
    } else if chars.len() > 0 && chars[0] == '+' {
        match digits_at_most(chars, 1, 4_294_967_295) {
            Some(v) => Some(v as u32),
            None => None,
        }
    } else {
        assert(s.skip(0) =~= s);
        match digits_at_most(chars, 0, 4_294_967_295) {
            Some(v) => Some(v as u32),
            None => None,
        }
    }
}

/// `str::parse::<u32>`: the value, or `None` where std reports an error.
pub fn parse_u32(s: &str) -> (r: Option<u32>)
    ensures
        r == parse_u32_spec(s@),
{
    parse_u32_chars(&chars_of(s))
}

/// `str::parse::<i64>`: the value, or `None` where std reports an error.
pub open spec fn parse_i64_spec(s: Seq<char>) -> Option<i64> {
    match signed_value(s) {
        Some(v) => if i64::MIN <= v <= i64::MAX { Some(v as i64) } else { None },
        None => None,
    }
}

/// `str::parse::<i64>`.
pub fn parse_i64(s: &str) -> (r: Option<i64>)
    ensures
        r == parse_i64_spec(s@),
{
    let chars = chars_of(s);
    let ghost t = chars@;
    if chars.len() > 0 && (chars[0] == '+' || chars[0] == '-') {
        let negative = chars[0] == '-';
        let max: u64 = if negative { 9_223_372_036_854_775_808 } else { 9_223_372_036_854_775_807 };
        match digits_at_most(&chars, 1, max) {
            Some(v) => {
                if negative {
                    if v == 9_223_372_036_854_775_808 {
                        Some(i64::MIN)
                    } else {
                        Some(-(v as i64))
                    }
                } else {
                    Some(v as i64)
                }
            },
            None => None,
        }
    } else {
        assert(t.skip(0) =~= t);
        match digits_at_most(&chars, 0, 9_223_372_036_854_775_807) {
            Some(v) => Some(v as i64),
            None => None,
        }
    }
}

pub open spec fn digit_char(d: int) -> char {
    ('0' as int + d) as char
}

/// The decimal digits of `n`, most significant first, without leading zeros.
pub open spec fn decimal(n: nat) -> Seq<char>
    decreases n,
{
    if n < 10 {
        seq![digit_char(n as int)]
    } else {
        decimal(n / 10).push(digit_char((n % 10) as int))
    }
}

/// `n` written as `Display` writes an integer.
pub open spec fn int_text(n: int) -> Seq<char> {
    if n < 0 {
        seq!['-'] + decimal((-n) as nat)
    } else {
        decimal(n as nat)
    }
}

/// `n` zero characters.
pub open spec fn zeros(n: nat) -> Seq<char> {
    Seq::new(n, |i: int| '0')
}

/// `s` with zeros in front up to `width` characters.
pub open spec fn zeros_before(s: Seq<char>, width: nat) -> Seq<char> {
    if s.len() >= width {
        s
    } else {
        zeros((width - s.len()) as nat) + s
    }
}

/// `n` written with `{:0width$}`: the sign, then zeros, then the digits, at
/// least `width` characters in all.
pub open spec fn int_text_padded(n: int, width: nat) -> Seq<char> {
    if n < 0 {
        seq!['-'] + zeros_before(decimal((-n) as nat), if width >= 1 { (width - 1) as nat } else { 0 })
    } else {
        zeros_before(decimal(n as nat), width)
    }
}

pub proof fn lemma_decimal_len(n: nat)
    ensures
        decimal(n).len() >= 1,
    decreases n,
{
    if n >= 10 {
        lemma_decimal_len(n / 10);
    }
}

fn push_decimal(s: &mut String, n: u64)
    ensures
        final(s)@ == old(s)@ + decimal(n as nat),
    decreases n,
{
    if n >= 10 {
        push_decimal(s, n / 10);
    }
    let c = char_of_digit((n % 10) as u32);
    push_char(s, c);
    proof {
        if n >= 10 {
            assert(decimal(n as nat) == decimal((n / 10) as nat).push(digit_char((n % 10) as int)));
        }
    }
    assert(final(s)@ =~= old(s)@ + decimal(n as nat));
}

fn char_of_digit(d: u32) -> (c: char)
    requires
        d < 10,
    ensures
        c == digit_char(d as int),
{
    if d == 0 { '0' } else if d == 1 { '1' } else if d == 2 { '2' } else if d == 3 { '3' }
    else if d == 4 { '4' } else if d == 5 { '5' } else if d == 6 { '6' } else if d == 7 { '7' }
    else if d == 8 { '8' } else { '9' }
}

/// Writes `n` as `Display` does.
pub fn i64_text(n: i64) -> (r: String)
    ensures
        r@ == int_text(n as int),
{
    let mut r = String::new();
    if n < 0 {
        push_char(&mut r, '-');
        let m: u64 = (-(n as i128)) as u64;
        push_decimal(&mut r, m);
    } else {
        push_decimal(&mut r, n as u64);
    }
    assert(r@ =~= int_text(n as int));
    r
}

/// Writes an index or count as `Display` does.
pub fn usize_text(n: usize) -> (r: String)
    ensures
        r@ == int_text(n as int),
{
    let mut r = String::new();
    push_decimal(&mut r, n as u64);
    assert(r@ =~= int_text(n as int));
    r
}

/// Writes `n` as `{:0width$}` does.
pub fn i64_text_padded(n: i64, width: usize) -> (r: String)
    ensures
        r@ == int_text_padded(n as int, width as nat),
{
    let mut digits = String::new();
    let magnitude: u64 = if n < 0 { (-(n as i128)) as u64 } else { n as u64 };
    push_decimal(&mut digits, magnitude);
    assert(digits@ =~= decimal(magnitude as nat));
    let digit_count = digits.unicode_len();
    let target: usize = if n < 0 { if width >= 1 { width - 1 } else { 0 } } else { width };
    let mut r = String::new();
    if n < 0 {
        push_char(&mut r, '-');
    }
    let ghost start = r@;
    let mut k: usize = digit_count;
    while k < target
        invariant
            digit_count <= k,
            k <= target || k == digit_count,
            digit_count == decimal(magnitude as nat).len(),
            r@ == start + zeros((k - digit_count) as nat),
        decreases target - k,
    {
        push_char(&mut r, '0');
        k = k + 1;
        assert(zeros((k - digit_count) as nat) =~= zeros((k - 1 - digit_count) as nat).push('0'));
        assert(r@ =~= start + zeros((k - digit_count) as nat));
    }
    r.append(digits.as_str());
    proof {
        if target <= digit_count {
            assert(zeros(0nat) =~= Seq::<char>::empty());
        }
    }
    assert(r@ =~= int_text_padded(n as int, width as nat));
    r
}


/// The pieces of `s` between occurrences of `sep`, as `str::split` with a
/// character pattern yields them (an empty string gives one empty piece).
pub open spec fn split_on(s: Seq<char>, sep: char) -> Seq<Seq<char>>
    decreases s.len(),
{
    if s.len() == 0 {
        seq![Seq::<char>::empty()]
    } else {
        let prev = split_on(s.drop_last(), sep);
        if s.last() == sep {
            prev.push(Seq::<char>::empty())
        } else {
            prev.update(prev.len() - 1, prev.last().push(s.last()))
        }
    }
}

pub proof fn lemma_split_on_len(s: Seq<char>, sep: char)
    ensures
        split_on(s, sep).len() >= 1,
    decreases s.len(),
{
    if s.len() > 0 {
        lemma_split_on_len(s.drop_last(), sep);
    }
}

/// `str::split(sep)` with a character, collected.
pub fn split_char(s: &str, sep: char) -> (r: Vec<String>)
    ensures
        r.deep_view() == split_on(s@, sep),
{
    let chars = chars_of(s);
    let n = chars.len();
    let mut pieces: Vec<String> = Vec::new();
    let mut start: usize = 0;
    let mut i: usize = 0;
    while i < n
        invariant
            n == chars@.len(),
            chars@ == s@,
            start <= i <= n,
            ({
                let sp = split_on(chars@.subrange(0, i as int), sep);
                &&& sp.len() == pieces@.len() + 1
                &&& forall|j: int| 0 <= j < pieces@.len() ==> #[trigger] pieces@[j]@ == sp[j]
                &&& sp.last() == chars@.subrange(start as int, i as int)
            }),
        decreases n - i,
    {
        let ghost prev_pieces = pieces@;
        let ghost sub = chars@.subrange(0, i + 1);
        assert(sub.drop_last() =~= chars@.subrange(0, i as int));
        proof { lemma_split_on_len(chars@.subrange(0, i as int), sep); }
        if chars[i] == sep {
            let piece = string_of(&chars, start, i);
            pieces.push(piece);
            start = i + 1;
            i = i + 1;
            assert(chars@.subrange(start as int, i as int) =~= Seq::<char>::empty());
            assert forall|j: int| 0 <= j < pieces@.len() implies #[trigger] pieces@[j]@ == split_on(chars@.subrange(0, i as int), sep)[j] by {
                if j < prev_pieces.len() {
                    assert(pieces@[j] == prev_pieces[j]);
                }
            }
        } else {
            i = i + 1;
            assert(chars@.subrange(start as int, i as int) =~= chars@.subrange(start as int, i - 1).push(chars@[i - 1]));
        }
    }
    let last = string_of(&chars, start, n);
    pieces.push(last);
    assert(chars@.subrange(0, n as int) =~= s@);
    assert(pieces.deep_view() =~= split_on(s@, sep)) by {
        let sp = split_on(s@, sep);
        assert forall|j: int| 0 <= j < pieces@.len() implies #[trigger] pieces.deep_view()[j] == sp[j] by {
            if j < pieces@.len() - 1 {
            }
        }
    }
    pieces
}

/// `char::is_whitespace`: the characters with the Unicode White_Space property.
pub open spec fn is_whitespace(c: char) -> bool {
    c == ' ' || ('\u{9}' <= c && c <= '\u{d}') || c == '\u{85}' || c == '\u{a0}' || c == '\u{1680}'
        || ('\u{2000}' <= c && c <= '\u{200a}') || c == '\u{2028}' || c == '\u{2029}' || c == '\u{202f}'
        || c == '\u{205f}' || c == '\u{3000}'
}

pub fn char_is_whitespace(c: char) -> (r: bool)
    ensures
        r == is_whitespace(c),
{
    c == ' ' || ('\u{9}' <= c && c <= '\u{d}') || c == '\u{85}' || c == '\u{a0}' || c == '\u{1680}'
        || ('\u{2000}' <= c && c <= '\u{200a}') || c == '\u{2028}' || c == '\u{2029}' || c == '\u{202f}'
        || c == '\u{205f}' || c == '\u{3000}'
}

/// `s` without its leading whitespace.
pub open spec fn trim_start(s: Seq<char>) -> Seq<char>
    decreases s.len(),
{
    if s.len() > 0 && is_whitespace(s[0]) {
        trim_start(s.skip(1))
    } else {
        s
    }
}

/// `s` without its trailing whitespace.
pub open spec fn trim_end(s: Seq<char>) -> Seq<char>
    decreases s.len(),
{
    if s.len() > 0 && is_whitespace(s.last()) {
        trim_end(s.drop_last())
    } else {
        s
    }
}

/// `str::trim`: `s` without leading and trailing whitespace.
pub open spec fn trimmed(s: Seq<char>) -> Seq<char> {
    trim_end(trim_start(s))
}

/// The bounds of `chars` without leading and trailing whitespace.
pub fn trim_bounds(chars: &Vec<char>) -> (r: (usize, usize))
    ensures
        r.0 <= r.1 <= chars@.len(),
        chars@.subrange(r.0 as int, r.1 as int) == trimmed(chars@),
{
    let n = chars.len();
    let mut a: usize = 0;
    assert(chars@.skip(0) =~= chars@);
    while a < n && char_is_whitespace(chars[a])
        invariant
            n == chars@.len(),
            a <= n,
            trim_start(chars@) == trim_start(chars@.skip(a as int)),
        decreases n - a,
    {
        assert(chars@.skip(a as int).skip(1) =~= chars@.skip(a + 1));
        a = a + 1;
    }
    let ghost left = chars@.skip(a as int);
    assert(trim_start(chars@) == left);
    let mut b: usize = n;
    while b > a && char_is_whitespace(chars[b - 1])
        invariant
            n == chars@.len(),
            a <= b <= n,
            left == chars@.skip(a as int),
            trim_end(left) == trim_end(chars@.subrange(a as int, b as int)),
        decreases b,
    {
        assert(chars@.subrange(a as int, b as int).drop_last() =~= chars@.subrange(a as int, b - 1));
        b = b - 1;
    }
    assert(chars@.subrange(a as int, n as int) =~= left);
    (a, b)
}

/// `str::trim`, as a new `String`.
pub fn trim(s: &str) -> (r: String)
    ensures
        r@ == trimmed(s@),
{
    let chars = chars_of(s);
    let (a, b) = trim_bounds(&chars);
    string_of(&chars, a, b)
}


/// ASCII letter or digit.
pub open spec fn is_ascii_alphanumeric(c: char) -> bool {
    ('0' <= c && c <= '9') || ('a' <= c && c <= 'z') || ('A' <= c && c <= 'Z')
}

/// `char::to_ascii_lowercase`.
pub open spec fn ascii_lower(c: char) -> char {
    if 'A' <= c && c <= 'Z' { ((c as int) + 32) as char } else { c }
}

/// `char::to_ascii_uppercase`.
pub open spec fn ascii_upper(c: char) -> char {
    if 'a' <= c && c <= 'z' { ((c as int) - 32) as char } else { c }
}

pub fn char_is_ascii_alphanumeric(c: char) -> (r: bool)
    ensures
        r == is_ascii_alphanumeric(c),
{
    ('0' <= c && c <= '9') || ('a' <= c && c <= 'z') || ('A' <= c && c <= 'Z')
}

pub fn to_ascii_lower(c: char) -> (r: char)
    ensures
        r == ascii_lower(c),
{
    if 'A' <= c && c <= 'Z' {
        ((c as u8) + 32) as char
    } else {
        c
    }
}

pub fn to_ascii_upper(c: char) -> (r: char)
    ensures
        r == ascii_upper(c),
{
    if 'a' <= c && c <= 'z' {
        ((c as u8) - 32) as char
    } else {
        c
    }
}

/// The pieces that, once trimmed, are non-empty runs of decimal digits;
/// kept trimmed, in order.
pub open spec fn kept_digit_runs(pieces: Seq<Seq<char>>) -> Seq<Seq<char>>
    decreases pieces.len(),
{
    if pieces.len() == 0 {
        Seq::empty()
    } else {
        let prev = kept_digit_runs(pieces.drop_last());
        let t = trimmed(pieces.last());
        if t.len() > 0 && all_digits(t) {
            prev.push(t)
        } else {
            prev
        }
    }
}

/// The trimmed, non-empty, all-digit fields of `s` separated by `sep`.
pub open spec fn digit_fields(s: Seq<char>, sep: char) -> Seq<Seq<char>> {
    kept_digit_runs(split_on(s, sep))
}

pub fn is_digit_run(s: &String) -> (r: bool)
    ensures
        r == (s@.len() > 0 && all_digits(s@)),
{
    let chars = chars_of(s.as_str());
    let n = chars.len();
    if n == 0 {
        return false;
    }
    let mut i: usize = 0;
    while i < n
        invariant
            n == chars@.len(),
            chars@ == s@,
            i <= n,
            forall|j: int| 0 <= j < i ==> is_digit(#[trigger] chars@[j]),
        decreases n - i,
    {
        let c = chars[i];
        if !('0' <= c && c <= '9') {
            return false;
        }
        i = i + 1;
    }
    true
}

/// The trimmed fields of `s` between `sep`s that are non-empty runs of digits.
pub fn split_digit_fields(s: &str, sep: char) -> (r: Vec<String>)
    ensures
        r.deep_view() == digit_fields(s@, sep),
{
    let range = s;
    let pieces = split_char(s, sep);
    let mut kept: Vec<String> = Vec::new();
    let mut i: usize = 0;
    while i < pieces.len()
        invariant
            i <= pieces@.len(),
            pieces.deep_view() == split_on(range@, sep),
            kept.deep_view() == kept_digit_runs(pieces.deep_view().subrange(0, i as int)),
        decreases pieces@.len() - i,
    {
        let t = trim(pieces[i].as_str());
        let ghost sub = pieces.deep_view().subrange(0, i + 1);
        assert(sub.drop_last() =~= pieces.deep_view().subrange(0, i as int));
        if is_digit_run(&t) {
            kept.push(t);
            assert(kept.deep_view() =~= kept_digit_runs(sub));
        }
        i = i + 1;
    }
    assert(pieces.deep_view().subrange(0, i as int) =~= pieces.deep_view());
    kept
}



/// What `char::to_lowercase` yields for `c`: its Unicode lowercase mapping,
/// one or more characters.
pub uninterp spec fn lowercase_of(c: char) -> Seq<char>;

/// `char::to_lowercase`, collected. An ASCII character maps to its ASCII
/// lowercase alone; for other characters the mapping is Unicode's and is only
/// named here.
#[verifier::external_body]
pub(crate) fn char_to_lowercase(c: char) -> (r: Vec<char>)
    ensures
        r@ == lowercase_of(c),
        (c as u32) < 128 ==> r@ == seq![ascii_lower(c)],
{
    c.to_lowercase().collect()
}

/// The characters of `s`, each replaced by its lowercase mapping.
pub open spec fn lowercased(s: Seq<char>) -> Seq<char>
    decreases s.len(),
{
    if s.len() == 0 {
        Seq::empty()
    } else {
        lowercased(s.drop_last()) + lowercase_of(s.last())
    }
}

/// `s` with every run of characters that are no ASCII letter or digit
/// replaced by one `_`, and whether it ends in such a `_`.
pub open spec fn underscore_runs(s: Seq<char>) -> (Seq<char>, bool)
    decreases s.len(),
{
    if s.len() == 0 {
        (Seq::empty(), false)
    } else {
        let (out, last_was_underscore) = underscore_runs(s.drop_last());
        let c = s.last();
        if is_ascii_alphanumeric(c) {
            (out.push(c), false)
        } else if !last_was_underscore {
            (out.push('_'), true)
        } else {
            (out, last_was_underscore)
        }
    }
}

/// `s` without leading and trailing underscores.
pub open spec fn trim_underscores(s: Seq<char>) -> Seq<char>
    decreases s.len(),
{
    if s.len() > 0 && s[0] == '_' {
        trim_underscores(s.skip(1))
    } else if s.len() > 0 && s.last() == '_' {
        trim_underscores(s.drop_last())
    } else {
        s
    }
}

/// The bounds of `chars` without leading and trailing underscores.
pub fn trim_underscore_bounds(chars: &Vec<char>) -> (r: (usize, usize))
    ensures
        r.0 <= r.1 <= chars@.len(),
        chars@.subrange(r.0 as int, r.1 as int) == trim_underscores(chars@),
{
    let n = chars.len();
    let mut a: usize = 0;
    let mut b: usize = n;
    assert(chars@.subrange(0, n as int) =~= chars@);
    while a < b && (chars[a] == '_' || chars[b - 1] == '_')
        invariant
            n == chars@.len(),
            a <= b <= n,
            trim_underscores(chars@) == trim_underscores(chars@.subrange(a as int, b as int)),
        decreases b - a,
    {
        let ghost sub = chars@.subrange(a as int, b as int);
        if chars[a] == '_' {
            assert(sub.skip(1) =~= chars@.subrange(a + 1, b as int));
            a = a + 1;
        } else {
            assert(sub.drop_last() =~= chars@.subrange(a as int, b - 1));
            b = b - 1;
        }
    }
    (a, b)
}

/// A field name derived from a label: lowercased, each run of characters that
/// are no ASCII letter or digit made one `_`, underscores trimmed at both ends.
pub open spec fn scrubbed_runs(label: Seq<char>) -> Seq<char> {
    trim_underscores(underscore_runs(lowercased(label)).0)
}

pub fn scrub_runs(value: &str) -> (r: String)
    ensures
        r@ == scrubbed_runs(value@),
{
    let chars = chars_of(value);
    let mut lowered: Vec<char> = Vec::new();
    let mut i: usize = 0;
    while i < chars.len()
        invariant
            i <= chars@.len(),
            chars@ == value@,
            lowered@ == lowercased(chars@.subrange(0, i as int)),
        decreases chars@.len() - i,
    {
        let mapped = char_to_lowercase(chars[i]);
        let mut k: usize = 0;
        let ghost before = lowered@;
        while k < mapped.len()
            invariant
                k <= mapped@.len(),
                lowered@ == before + mapped@.subrange(0, k as int),
            decreases mapped@.len() - k,
        {
            lowered.push(mapped[k]);
            k = k + 1;
            assert(lowered@ =~= before + mapped@.subrange(0, k as int));
        }
        assert(mapped@.subrange(0, k as int) =~= mapped@);
        assert(chars@.subrange(0, i + 1).drop_last() =~= chars@.subrange(0, i as int));
        i = i + 1;
    }
    assert(chars@.subrange(0, i as int) =~= chars@);
    let mut output: Vec<char> = Vec::new();
    let mut last_was_underscore = false;
    let mut j: usize = 0;
    while j < lowered.len()
        invariant
            j <= lowered@.len(),
            (output@, last_was_underscore) == underscore_runs(lowered@.subrange(0, j as int)),
        decreases lowered@.len() - j,
    {
        let c = lowered[j];
        assert(lowered@.subrange(0, j + 1).drop_last() =~= lowered@.subrange(0, j as int));
        if char_is_ascii_alphanumeric(c) {
            output.push(c);
            last_was_underscore = false;
        } else if !last_was_underscore {
            output.push('_');
            last_was_underscore = true;
        }
        j = j + 1;
    }
    assert(lowered@.subrange(0, j as int) =~= lowered@);
    let (a, b) = trim_underscore_bounds(&output);
    string_of(&output, a, b)
}


/// The items separated by `sep`, as `join` writes them.
pub open spec fn joined(items: Seq<Seq<char>>, sep: Seq<char>) -> Seq<char>
    decreases items.len(),
{
    if items.len() == 0 {
        Seq::empty()
    } else if items.len() == 1 {
        items[0]
    } else {
        joined(items.drop_last(), sep) + sep + items.last()
    }
}

/// `[&str]::join`.
pub fn join_strs(items: &[&str], sep: &str) -> (r: String)
    ensures
        r@ == joined(items@.map_values(|s: &str| s@), sep@),
{
    let ghost all = items@.map_values(|s: &str| s@);
    let mut r = String::new();
    let mut i: usize = 0;
    while i < items.len()
        invariant
            i <= items@.len(),
            all == items@.map_values(|s: &str| s@),
            r@ == joined(all.subrange(0, i as int), sep@),
        decreases items@.len() - i,
    {
        assert(all.subrange(0, i + 1).drop_last() =~= all.subrange(0, i as int));
        if i > 0 {
            r.append(sep);
        }
        r.append(items[i]);
        proof {
            if i == 0 {
                assert(r@ =~= all.subrange(0, 1)[0]);
            }
        }
        i = i + 1;
    }
    assert(all.subrange(0, i as int) =~= all);
    r
}

/// `[String]::join`.
pub fn join_strings(items: &Vec<String>, sep: &str) -> (r: String)
    ensures
        r@ == joined(items.deep_view(), sep@),
{
    let mut r = String::new();
    let mut i: usize = 0;
    while i < items.len()
        invariant
            i <= items@.len(),
            r@ == joined(items.deep_view().subrange(0, i as int), sep@),
        decreases items@.len() - i,
    {
        assert(items.deep_view().subrange(0, i + 1).drop_last() =~= items.deep_view().subrange(0, i as int));
        if i > 0 {
            r.append(sep);
        }
        r.append(items[i].as_str());
        proof {
            if i == 0 {
                assert(r@ =~= items.deep_view().subrange(0, 1)[0]);
            }
        }
        i = i + 1;
    }
    assert(items.deep_view().subrange(0, i as int) =~= items.deep_view());
    r
}


/// What `str::to_lowercase` gives for a text: Unicode's lowercase mapping of the
/// whole text, which (unlike a mapping character by character) lowers a final
/// sigma by its context.
pub uninterp spec fn lowercase_text(s: Seq<char>) -> Seq<char>;

/// Every character of `s` is ASCII.
pub open spec fn all_ascii(s: Seq<char>) -> bool {
    forall|i: int| 0 <= i < s.len() ==> (#[trigger] s[i] as u32) < 128
}

/// `s` with each ASCII letter lowered.
pub open spec fn ascii_lowered(s: Seq<char>) -> Seq<char> {
    Seq::new(s.len(), |i: int| ascii_lower(s[i]))
}

/// `str::to_lowercase`. The result is named; for a text of ASCII characters
/// alone it is each ASCII letter lowered, the rest kept.
#[verifier::external_body]
pub(crate) fn str_to_lowercase(s: &str) -> (r: String)
    ensures
        r@ == lowercase_text(s@),
        all_ascii(s@) ==> r@ == ascii_lowered(s@),
{
    s.to_lowercase()
}

/// `s` with every `from` replaced by `to`.
pub open spec fn replaced(s: Seq<char>, from: char, to: char) -> Seq<char> {
    Seq::new(s.len(), |i: int| if s[i] == from { to } else { s[i] })
}

/// `str::replace` of one character by another.
pub fn replace_char(s: &str, from: char, to: char) -> (r: String)
    ensures
        r@ == replaced(s@, from, to),
{
    let n = s.unicode_len();
    let mut r = String::new();
    let mut i: usize = 0;
    while i < n
        invariant
            n == s@.len(),
            i <= n,
            r@ == replaced(s@, from, to).subrange(0, i as int),
        decreases n - i,
    {
        let c = s.get_char(i);
        push_char(&mut r, if c == from { to } else { c });
        i = i + 1;
        assert(r@ =~= replaced(s@, from, to).subrange(0, i as int));
    }
    assert(r@ =~= replaced(s@, from, to));
    r
}

/// `[String]::join`, on a slice.
pub fn join_string_slice(items: &[String], sep: &str) -> (r: String)
    ensures
        r@ == joined(items.deep_view(), sep@),
{
    let mut r = String::new();
    let mut i: usize = 0;
    while i < items.len()
        invariant
            i <= items@.len(),
            r@ == joined(items.deep_view().subrange(0, i as int), sep@),
        decreases items@.len() - i,
    {
        assert(items.deep_view().subrange(0, i + 1).drop_last() =~= items.deep_view().subrange(0, i as int));
        if i > 0 {
            r.append(sep);
        }
        r.append(items[i].as_str());
        proof {
            if i == 0 {
                assert(r@ =~= items.deep_view().subrange(0, 1)[0]);
            }
        }
        i = i + 1;
    }
    assert(items.deep_view().subrange(0, i as int) =~= items.deep_view());
    r
}

/// `a` comes before `b` in lexicographic order of characters, which is the
/// order `str`'s `<` gives (UTF-8 keeps the order of code points).
pub open spec fn lex_less(a: Seq<char>, b: Seq<char>) -> bool
    decreases a.len(),
{
    if b.len() == 0 {
        false
    } else if a.len() == 0 {
        true
    } else if a[0] != b[0] {
        a[0] < b[0]
    } else {
        lex_less(a.skip(1), b.skip(1))
    }
}

/// `a < b` on strings.
pub fn str_less(a: &str, b: &str) -> (r: bool)
    ensures
        r == lex_less(a@, b@),
{
    let n = a.unicode_len();
    let m = b.unicode_len();
    let mut i: usize = 0;
    assert(a@.skip(0) =~= a@);
    assert(b@.skip(0) =~= b@);
    while i < n && i < m && a.get_char(i) == b.get_char(i)
        invariant
            n == a@.len(),
            m == b@.len(),
            i <= n,
            i <= m,
            lex_less(a@, b@) == lex_less(a@.skip(i as int), b@.skip(i as int)),
        decreases n - i,
    {
        assert(a@.skip(i as int).skip(1) =~= a@.skip(i + 1));
        assert(b@.skip(i as int).skip(1) =~= b@.skip(i + 1));
        i = i + 1;
    }
    if i == m {
        false
    } else if i == n {
        true
    } else {
        a.get_char(i) < b.get_char(i)
    }
}

/// No text comes before itself.
pub proof fn lemma_lex_irreflexive(a: Seq<char>)
    ensures
        !lex_less(a, a),
    decreases a.len(),
{
    if a.len() > 0 {
        lemma_lex_irreflexive(a.skip(1));
    }
}

/// The order of texts is transitive.
pub proof fn lemma_lex_transitive(a: Seq<char>, b: Seq<char>, c: Seq<char>)
    requires
        lex_less(a, b),
        lex_less(b, c),
    ensures
        lex_less(a, c),
    decreases a.len(),
{
    if a.len() > 0 && b.len() > 0 && c.len() > 0 && a[0] == b[0] && b[0] == c[0] {
        lemma_lex_transitive(a.skip(1), b.skip(1), c.skip(1));
    }
}

/// Of two different texts, one comes before the other.
pub proof fn lemma_lex_total(a: Seq<char>, b: Seq<char>)
    requires
        a != b,
    ensures
        lex_less(a, b) || lex_less(b, a),
    decreases a.len(),
{
    if a.len() > 0 && b.len() > 0 && a[0] == b[0] {
        if a.skip(1) == b.skip(1) {
            assert(a =~= seq![a[0]] + a.skip(1));
            assert(b =~= seq![b[0]] + b.skip(1));
        }
        lemma_lex_total(a.skip(1), b.skip(1));
    } else if a.len() == 0 && b.len() == 0 {
        assert(a =~= b);
    }
}

/// A text that comes before another does not come after it.
pub proof fn lemma_lex_asymmetric(a: Seq<char>, b: Seq<char>)
    requires
        lex_less(a, b),
    ensures
        !lex_less(b, a),
{
    if lex_less(b, a) {
        lemma_lex_transitive(a, b, a);
        lemma_lex_irreflexive(a);
    }
}

/// What `char::to_uppercase` yields for `c`: its Unicode uppercase mapping,
/// one or more characters.
pub uninterp spec fn uppercase_of(c: char) -> Seq<char>;

/// Each text comes before every later one.
pub open spec fn texts_strictly_sorted(s: Seq<Seq<char>>) -> bool {
    forall|i: int, j: int| 0 <= i < j < s.len() ==> lex_less(#[trigger] s[i], #[trigger] s[j])
}

/// The texts of a set in ascending order: the strictly sorted list of exactly
/// its members.
pub open spec fn ordered_texts(members: Set<Seq<char>>) -> Seq<Seq<char>> {
    choose|s: Seq<Seq<char>>| texts_strictly_sorted(s) && forall|k: Seq<char>| #[trigger] s.contains(k) <==> members.contains(k)
}

/// A strictly sorted list of texts is fixed by its members.
pub proof fn lemma_sorted_texts_unique(s1: Seq<Seq<char>>, s2: Seq<Seq<char>>)
    requires
        texts_strictly_sorted(s1),
        texts_strictly_sorted(s2),
        forall|v: Seq<char>| s1.contains(v) <==> s2.contains(v),
    ensures
        s1 == s2,
    decreases s1.len(),
{
    if s1.len() == 0 {
        if s2.len() > 0 {
            assert(s2.contains(s2[0]));
        }
        assert(s1 =~= s2);
    } else {
        assert(s1.contains(s1[0]));
        let j = choose|j: int| 0 <= j < s2.len() && s2[j] == s1[0];
        assert(s2.contains(s2[0]));
        let i = choose|i: int| 0 <= i < s1.len() && s1[i] == s2[0];
        if j > 0 {
            assert(lex_less(s2[0], s2[j]));
            if i > 0 {
                assert(lex_less(s1[0], s1[i]));
                lemma_lex_asymmetric(s1[0], s2[0]);
            } else {
                lemma_lex_irreflexive(s1[0]);
            }
        }
        assert(s1[0] == s2[0]);
        let t1 = s1.skip(1);
        let t2 = s2.skip(1);
        assert forall|v: Seq<char>| t1.contains(v) <==> t2.contains(v) by {
            if t1.contains(v) {
                let a = choose|a: int| 0 <= a < t1.len() && t1[a] == v;
                assert(s1[a + 1] == v);
                assert(lex_less(s1[0], s1[a + 1]));
                lemma_lex_irreflexive(v);
                assert(s2.contains(v));
                let b = choose|b: int| 0 <= b < s2.len() && s2[b] == v;
                assert(b != 0);
                assert(t2[b - 1] == v);
            }
            if t2.contains(v) {
                let a = choose|a: int| 0 <= a < t2.len() && t2[a] == v;
                assert(s2[a + 1] == v);
                assert(lex_less(s2[0], s2[a + 1]));
                lemma_lex_irreflexive(v);
                assert(s1.contains(v));
                let b = choose|b: int| 0 <= b < s1.len() && s1[b] == v;
                assert(b != 0);
                assert(t1[b - 1] == v);
            }
        }
        assert(texts_strictly_sorted(t1)) by {
            assert forall|x: int, y: int| 0 <= x < y < t1.len() implies lex_less(#[trigger] t1[x], #[trigger] t1[y]) by {
                assert(t1[x] == s1[x + 1] && t1[y] == s1[y + 1]);
            }
        }
        assert(texts_strictly_sorted(t2)) by {
            assert forall|x: int, y: int| 0 <= x < y < t2.len() implies lex_less(#[trigger] t2[x], #[trigger] t2[y]) by {
                assert(t2[x] == s2[x + 1] && t2[y] == s2[y + 1]);
            }
        }
        lemma_sorted_texts_unique(t1, t2);
        assert(s1 =~= seq![s1[0]] + t1);
        assert(s2 =~= seq![s2[0]] + t2);
    }
}

/// A strictly sorted list of a set's members is the set's texts in order.
pub proof fn lemma_ordered_texts(s: Seq<Seq<char>>, members: Set<Seq<char>>)
    requires
        texts_strictly_sorted(s),
        forall|k: Seq<char>| s.contains(k) <==> members.contains(k),
    ensures
        ordered_texts(members) == s,
{
    let o = ordered_texts(members);
    assert(texts_strictly_sorted(o) && forall|k: Seq<char>| #[trigger] o.contains(k) <==> members.contains(k));
    lemma_sorted_texts_unique(o, s);
}

/// `char::to_uppercase`, collected. An ASCII character maps to its ASCII
/// uppercase alone; for other characters the mapping is Unicode's and is only
/// named here.
#[verifier::external_body]
pub(crate) fn char_to_uppercase(c: char) -> (r: Vec<char>)
    ensures
        r@ == uppercase_of(c),
        (c as u32) < 128 ==> r@ == seq![ascii_upper(c)],
{
    c.to_uppercase().collect()
}

/// A word with its first character uppercased.
pub open spec fn capitalized(word: Seq<char>) -> Seq<char> {
    if word.len() == 0 { word } else { uppercase_of(word[0]) + word.skip(1) }
}

/// A field name made a title: its `_`-separated words capitalized and joined
/// by spaces.
pub open spec fn title_of(value: Seq<char>) -> Seq<char> {
    joined(split_on(value, '_').map_values(|w: Seq<char>| capitalized(w)), " "@)
}

fn capitalize(word: &str) -> (r: String)
    ensures
        r@ == capitalized(word@),
{
    let n = word.unicode_len();
    if n == 0 {
        return String::new();
    }
    let upper = char_to_uppercase(word.get_char(0));
    let mut r = String::new();
    let mut k: usize = 0;
    while k < upper.len()
        invariant
            k <= upper@.len(),
            r@ == upper@.subrange(0, k as int),
        decreases upper@.len() - k,
    {
        push_char(&mut r, upper[k]);
        k = k + 1;
        assert(r@ =~= upper@.subrange(0, k as int));
    }
    assert(upper@.subrange(0, k as int) =~= upper@);
    let mut i: usize = 1;
    while i < n
        invariant
            n == word@.len(),
            1 <= i <= n,
            r@ == upper@ + word@.subrange(1, i as int),
        decreases n - i,
    {
        push_char(&mut r, word.get_char(i));
        i = i + 1;
        assert(r@ =~= upper@ + word@.subrange(1, i as int));
    }
    assert(word@.subrange(1, n as int) =~= word@.skip(1));
    r
}

/// The title of a field name: each `_`-separated word capitalized, the words
/// joined by spaces.
pub fn title_from_scrub(value: &str) -> (r: String)
    ensures
        r@ == title_of(value@),
{
    let pieces = split_char(value, '_');
    let ghost all = pieces.deep_view();
    let mut words: Vec<String> = Vec::new();
    let mut i: usize = 0;
    while i < pieces.len()
        invariant
            i <= pieces@.len(),
            all == pieces.deep_view(),
            words.deep_view() == all.map_values(|w: Seq<char>| capitalized(w)).subrange(0, i as int),
        decreases pieces@.len() - i,
    {
        let w = capitalize(pieces[i].as_str());
        let ghost before = words.deep_view();
        words.push(w);
        assert(words.deep_view() =~= before.push(w@));
        i = i + 1;
        assert(words.deep_view() =~= all.map_values(|w: Seq<char>| capitalized(w)).subrange(0, i as int));
    }
    assert(all.map_values(|w: Seq<char>| capitalized(w)).subrange(0, i as int) =~= all.map_values(|w: Seq<char>| capitalized(w)));
    join_strings(&words, " ")
}

/// `s` with every occurrence of `pat` replaced by `with`, scanning from the
/// left and resuming after each replaced occurrence (as `str::replace` does
/// for a non-empty pattern).
pub open spec fn replaced_all(s: Seq<char>, pat: Seq<char>, with: Seq<char>) -> Seq<char>
    decreases s.len(),
{
    if pat.len() == 0 || s.len() < pat.len() {
        s
    } else if s.subrange(0, pat.len() as int) == pat {
        with + replaced_all(s.skip(pat.len() as int), pat, with)
    } else {
        seq![s[0]] + replaced_all(s.skip(1), pat, with)
    }
}

fn starts_at(chars: &Vec<char>, i: usize, pat: &Vec<char>) -> (r: bool)
    requires
        i + pat@.len() <= chars@.len(),
        chars@.len() <= usize::MAX,
    ensures
        r == (chars@.subrange(i as int, i + pat@.len()) == pat@),
{
    let mut k: usize = 0;
    while k < pat.len()
        invariant
            k <= pat@.len(),
            i + pat@.len() <= chars@.len(),
            chars@.len() <= usize::MAX,
            forall|j: int| 0 <= j < k ==> chars@[i + j] == pat@[j],
        decreases pat@.len() - k,
    {
        if chars[i + k] != pat[k] {
            assert(chars@.subrange(i as int, i + pat@.len())[k as int] != pat@[k as int]);
            return false;
        }
        k = k + 1;
    }
    assert(chars@.subrange(i as int, i + pat@.len()) =~= pat@);
    true
}

/// `needle` occurs somewhere within `hay`.
pub open spec fn contains_text(hay: Seq<char>, needle: Seq<char>) -> bool {
    exists|i: int| 0 <= i <= hay.len() - needle.len() && #[trigger] hay.subrange(i, i + needle.len()) == needle
}

/// `str::contains` with a text pattern.
pub fn contains_str(hay: &str, needle: &str) -> (r: bool)
    ensures
        r == contains_text(hay@, needle@),
{
    let chars = chars_of(hay);
    let pat = chars_of(needle);
    if pat.len() > chars.len() {
        return false;
    }
    if pat.len() == 0 {
        assert(hay@.subrange(0, 0 + needle@.len() as int) =~= needle@);
        return true;
    }
    let last = chars.len() - pat.len();
    let mut i: usize = 0;
    while i <= last
        invariant
            chars@ == hay@,
            pat@ == needle@,
            last == chars@.len() - pat@.len(),
            1 <= pat@.len() <= chars@.len(),
            chars@.len() <= usize::MAX,
            i <= last + 1,
            forall|j: int| 0 <= j < i ==> #[trigger] chars@.subrange(j, j + pat@.len()) != pat@,
        decreases last + 1 - i,
    {
        if starts_at(&chars, i, &pat) {
            return true;
        }
        i = i + 1;
    }
    false
}

/// `str::replace` with a non-empty pattern.
pub fn replace_str(s: &str, pat: &str, with: &str) -> (r: String)
    requires
        pat@.len() > 0,
    ensures
        r@ == replaced_all(s@, pat@, with@),
{
    let chars = chars_of(s);
    let pc = chars_of(pat);
    let n = chars.len();
    let m = pc.len();
    let mut r = String::new();
    let mut i: usize = 0;
    assert(chars@.skip(0) =~= chars@);
    while i < n
        invariant
            n == chars@.len(),
            m == pc@.len(),
            m > 0,
            pc@ == pat@,
            chars@ == s@,
            i <= n,
            r@ + replaced_all(chars@.skip(i as int), pat@, with@) == replaced_all(s@, pat@, with@),
        decreases n - i,
    {
        let ghost rest = chars@.skip(i as int);
        if n - i >= m && starts_at(&chars, i, &pc) {
            assert(rest.subrange(0, m as int) =~= chars@.subrange(i as int, i + m));
            assert(rest.skip(m as int) =~= chars@.skip(i + m));
            let ghost before = r@;
            r.append(with);
            assert(before + replaced_all(rest, pat@, with@) == r@ + replaced_all(chars@.skip(i + m), pat@, with@));
            i = i + m;
        } else {
            if n - i >= m {
                assert(rest.subrange(0, m as int) =~= chars@.subrange(i as int, i + m));
            }
            assert(rest.skip(1) =~= chars@.skip(i + 1));
            assert(rest[0] == chars@[i as int]);
            let ghost before = r@;
            push_char(&mut r, chars[i]);
            assert(before + replaced_all(rest, pat@, with@) =~= r@ + replaced_all(chars@.skip(i + 1), pat@, with@));
            i = i + 1;
        }
    }
    assert(chars@.skip(i as int) =~= Seq::<char>::empty());
    assert(r@ + Seq::<char>::empty() =~= r@);
    r
}

/// Whether one of `items` is `key`.
pub fn texts_hold(items: &[String], key: &str) -> (r: bool)
    ensures
        r == items.deep_view().contains(key@),
{
    let mut i: usize = 0;
    while i < items.len()
        invariant
            i <= items@.len(),
            forall|j: int| 0 <= j < i ==> items.deep_view()[j] != key@,
        decreases items@.len() - i,
    {
        if str_eq(items[i].as_str(), key) {
            assert(items.deep_view()[i as int] == key@);
            return true;
        }
        i = i + 1;
    }
    false
}

/// The decimal digits of a number are digits and read back as the number.
pub proof fn lemma_decimal_digits(n: nat)
    ensures
        all_digits(decimal(n)),
        digits_value(decimal(n)) == n,
        decimal(n).len() >= 1,
    decreases n,
{
    let k = (n % 10) as int;
    assert(digit_value(digit_char(k)) == k) by {
        assert(0 <= k < 10);
    }
    if n < 10 {
        assert(decimal(n).drop_last() =~= Seq::<char>::empty());
        assert(n % 10 == n);
        assert(digits_value(decimal(n)) == digits_value(decimal(n).drop_last()) * 10 + digit_value(decimal(n).last()));
    }
    if n >= 10 {
        lemma_decimal_digits(n / 10);
        let s = decimal(n);
        assert(s.drop_last() == decimal(n / 10));
        assert(n == (n / 10) * 10 + n % 10);
        assert(s.last() == digit_char(k));
        assert(digits_value(s) == digits_value(s.drop_last()) * 10 + digit_value(s.last()));
        assert forall|i: int| 0 <= i < s.len() implies is_digit(#[trigger] s[i]) by {
            if i < s.len() - 1 {
                assert(s[i] == decimal(n / 10)[i]);
            }
        }
    }
}

proof fn lemma_zeros_value(k: nat)
    ensures
        digits_value(zeros(k)) == 0,
        all_digits(zeros(k)),
    decreases k,
{
    if k > 0 {
        assert(zeros(k).drop_last() =~= zeros((k - 1) as nat));
        lemma_zeros_value((k - 1) as nat);
    }
}

/// Leading zeros change neither that a text is digits nor what it reads as.
pub proof fn lemma_leading_zeros(k: nat, s: Seq<char>)
    requires
        all_digits(s),
    ensures
        all_digits(zeros(k) + s),
        digits_value(zeros(k) + s) == digits_value(s),
    decreases s.len(),
{
    lemma_zeros_value(k);
    if s.len() == 0 {
        assert(zeros(k) + s =~= zeros(k));
    } else {
        lemma_leading_zeros(k, s.drop_last());
        assert((zeros(k) + s).drop_last() =~= zeros(k) + s.drop_last());
    }
    assert forall|i: int| 0 <= i < (zeros(k) + s).len() implies is_digit(#[trigger] (zeros(k) + s)[i]) by {
        if i >= k {
            assert((zeros(k) + s)[i] == s[i - k]);
        }
    }
}

/// A number of at least zero written with `{:0width$}` is digits, at least
/// one, and reads back as the number.
pub proof fn lemma_padded_digits(n: nat, width: nat)
    ensures
        all_digits(int_text_padded(n as int, width)),
        digits_value(int_text_padded(n as int, width)) == n,
        int_text_padded(n as int, width).len() >= 1,
{
    lemma_decimal_digits(n);
    let d = decimal(n);
    if d.len() < width {
        lemma_leading_zeros((width - d.len()) as nat, d);
    }
}

/// Splitting a text that ends in a piece without separators extends the
/// last piece by it.
pub proof fn lemma_split_on_append(x: Seq<char>, y: Seq<char>, sep: char)
    requires
        forall|i: int| 0 <= i < y.len() ==> y[i] != sep,
    ensures
        split_on(x + y, sep) == split_on(x, sep).update(split_on(x, sep).len() - 1, split_on(x, sep).last() + y),
    decreases y.len(),
{
    lemma_split_on_len(x, sep);
    if y.len() == 0 {
        assert(x + y =~= x);
        assert(split_on(x, sep).last() + y =~= split_on(x, sep).last());
        assert(split_on(x, sep).update(split_on(x, sep).len() - 1, split_on(x, sep).last()) =~= split_on(x, sep));
    } else {
        lemma_split_on_append(x, y.drop_last(), sep);
        assert((x + y).drop_last() =~= x + y.drop_last());
        assert((x + y).last() == y.last());
        let prev = split_on(x + y.drop_last(), sep);
        lemma_split_on_len(x + y.drop_last(), sep);
        assert(y.last() == y[y.len() - 1]);
        assert(y.last() != sep);
        assert(prev.len() == split_on(x, sep).len());
        assert(prev.last() == split_on(x, sep).last() + y.drop_last());
        assert(split_on(x + y, sep) == prev.update(prev.len() - 1, prev.last().push((x + y).last())));
        let a = split_on(x, sep);
        assert(prev.last().push(y.last()) =~= a.last() + y);
        assert(prev.update(prev.len() - 1, a.last() + y) =~= a.update(a.len() - 1, a.last() + y));
        assert(prev.last() + seq![y.last()] =~= split_on(x, sep).last() + y.drop_last() + seq![y.last()]);
        assert(split_on(x, sep).last() + y.drop_last() + seq![y.last()] =~= split_on(x, sep).last() + y);
        assert(split_on(x + y, sep) =~= split_on(x, sep).update(split_on(x, sep).len() - 1, split_on(x, sep).last() + y));
    }
}

/// Splitting at a final separator adds an empty piece.
pub proof fn lemma_split_on_sep(x: Seq<char>, sep: char)
    ensures
        split_on(x.push(sep), sep) == split_on(x, sep).push(Seq::<char>::empty()),
{
    assert(x.push(sep).drop_last() =~= x);
}

} // verus!
