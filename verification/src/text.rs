//! Text building blocks: decimal and hexadecimal numerals, joining and
//! splitting, each with a statement of the characters it produces.

use vstd::prelude::*;

verus! {

/// `String::push` appends one character to the end of the string.
pub assume_specification[ String::push ](s: &mut String, c: char)
    ensures
        final(s)@ == old(s)@.push(c),
;

/// The character of the digit `d`, for `d` in `0..16`.
pub open spec fn digit_char(d: nat) -> char {
    if d < 10 {
        (('0' as nat) + d) as char
    } else {
        (('a' as nat) + (d - 10) as nat) as char
    }
}

/// The numeral of `n` in base `base`, without leading zeros; `0` is one digit.
pub open spec fn numeral(n: nat, base: nat) -> Seq<char>
    decreases n,
    when base >= 2
{
    if n < base {
        seq![digit_char(n)]
    } else {
        proof {
            assert(n / base < n) by (nonlinear_arith)
                requires
                    base >= 2,
                    n >= base,
            ;
        }
        numeral(n / base, base).push(digit_char(n % base))
    }
}

/// The decimal numeral of `n`.
pub open spec fn decimal(n: nat) -> Seq<char> {
    numeral(n, 10)
}

fn digit(d: u8) -> (c: char)
    requires
        d < 16,
    ensures
        c == digit_char(d as nat),
{
    if d < 10 {
        (48u8 + d) as char
    } else {
        (97u8 + (d - 10)) as char
    }
}

/// Appends the numeral of `n` in base `base`.
pub fn push_numeral(s: &mut String, n: u64, base: u64)
    requires
        2 <= base <= 16,
    ensures
        final(s)@ == old(s)@ + numeral(n as nat, base as nat),
    decreases n,
{
    if n < base {
        s.push(digit(n as u8));
        assert(s@ =~= old(s)@ + numeral(n as nat, base as nat));
    } else {
        assert(n / base < n) by (nonlinear_arith)
            requires
                2 <= base,
                n >= base,
        ;
        push_numeral(s, n / base, base);
        s.push(digit((n % base) as u8));
        assert(s@ =~= old(s)@ + numeral(n as nat, base as nat));
    }
}

/// Appends the decimal numeral of `n`.
pub fn push_decimal(s: &mut String, n: u64)
    ensures
        final(s)@ == old(s)@ + decimal(n as nat),
{
    push_numeral(s, n, 10);
}

/// Appends the characters of `t`.
pub fn push_text(s: &mut String, t: &str)
    ensures
        final(s)@ == old(s)@ + t@,
{
    s.append(t);
}

/// Whether `c` is white space: a tab, a line break, or one of the spaces.
pub open spec fn is_space(c: char) -> bool {
    let n = c as u32;
    ||| 0x9 <= n <= 0xd
    ||| n == 0x20
    ||| n == 0x85
    ||| n == 0xa0
    ||| n == 0x1680
    ||| 0x2000 <= n <= 0x200a
    ||| n == 0x2028
    ||| n == 0x2029
    ||| n == 0x202f
    ||| n == 0x205f
    ||| n == 0x3000
}

pub fn space(c: char) -> (b: bool)
    ensures
        b == is_space(c),
{
    let n: u32 = c as u32;
    (0x9 <= n && n <= 0xd) || n == 0x20 || n == 0x85 || n == 0xa0 || n == 0x1680 || (0x2000 <= n
        && n <= 0x200a) || n == 0x2028 || n == 0x2029 || n == 0x202f || n == 0x205f || n == 0x3000
}

/// `s` without the white space at its beginning.
pub open spec fn trimmed_start(s: Seq<char>) -> Seq<char>
    decreases s.len(),
{
    if s.len() > 0 && is_space(s[0]) {
        trimmed_start(s.skip(1))
    } else {
        s
    }
}

/// `s` without the white space at its end.
pub open spec fn trimmed_end(s: Seq<char>) -> Seq<char>
    decreases s.len(),
{
    if s.len() > 0 && is_space(s.last()) {
        trimmed_end(s.drop_last())
    } else {
        s
    }
}

/// `s` without the white space around it.
pub open spec fn trimmed(s: Seq<char>) -> Seq<char> {
    trimmed_end(trimmed_start(s))
}

/// Where the characters without the white space around them begin and end.
pub fn trimmed_range(v: &Vec<char>) -> (r: (usize, usize))
    ensures
        r.0 <= r.1 <= v@.len(),
        v@.subrange(r.0 as int, r.1 as int) == trimmed(v@),
{
    let mut from: usize = 0;
    assert(v@.skip(0) =~= v@);
    while from < v.len() && space(v[from])
        invariant
            from <= v@.len(),
            trimmed_start(v@) == trimmed_start(v@.skip(from as int)),
        decreases v@.len() - from,
    {
        assert(v@.skip(from as int).skip(1) =~= v@.skip(from + 1));
        from = from + 1;
    }
    let mut to: usize = v.len();
    assert(v@.skip(from as int) =~= v@.subrange(from as int, to as int));
    assert(trimmed_start(v@) =~= v@.subrange(from as int, to as int));
    while to > from && space(v[to - 1])
        invariant
            from <= to <= v@.len(),
            trimmed(v@) == trimmed_end(v@.subrange(from as int, to as int)),
        decreases to,
    {
        assert(v@.subrange(from as int, to as int).drop_last() =~= v@.subrange(
            from as int,
            to - 1,
        ));
        to = to - 1;
    }
    (from, to)
}

/// The characters of `s`.
pub fn to_chars(s: &str) -> (v: Vec<char>)
    ensures
        v@ == s@,
{
    let mut v: Vec<char> = Vec::new();
    for c in it: s.chars()
        invariant
            it.seq() == s@,
            v@ == s@.take(it.index()),
    {
        v.push(c);
        assert(v@ =~= s@.take(it.index() + 1));
    }
    assert(v@ =~= s@);
    v
}

/// The string with the characters `v[from..to]`.
pub fn from_chars(v: &Vec<char>, from: usize, to: usize) -> (s: String)
    requires
        from <= to <= v@.len(),
    ensures
        s@ == v@.subrange(from as int, to as int),
{
    let mut s = String::new();
    let mut i: usize = from;
    while i < to
        invariant
            from <= i <= to <= v@.len(),
            s@ == v@.subrange(from as int, i as int),
        decreases to - i,
    {
        s.push(v[i]);
        i = i + 1;
        assert(s@ =~= v@.subrange(from as int, i as int));
    }
    s
}

/// The characters `v[from..]`.
pub fn tail_chars(v: &Vec<char>, from: usize) -> (tail: Vec<char>)
    requires
        from <= v@.len(),
    ensures
        tail@ == v@.skip(from as int),
{
    let mut tail: Vec<char> = Vec::new();
    let mut i: usize = from;
    while i < v.len()
        invariant
            from <= i <= v@.len(),
            tail@ == v@.subrange(from as int, i as int),
        decreases v@.len() - i,
    {
        tail.push(v[i]);
        i = i + 1;
        assert(tail@ =~= v@.subrange(from as int, i as int));
    }
    assert(tail@ =~= v@.skip(from as int));
    tail
}

/// Whether the characters `v[at..]` begin with `part`.
pub fn matches_at(v: &Vec<char>, at: usize, part: &Vec<char>) -> (b: bool)
    requires
        at <= v@.len(),
    ensures
        b == (at + part@.len() <= v@.len() && v@.subrange(
            at as int,
            at + part@.len() as int,
        ) == part@),
{
    if part.len() > v.len() - at {
        return false;
    }
    let mut i: usize = 0;
    while i < part.len()
        invariant
            i <= part@.len(),
            at + part@.len() <= v@.len() <= usize::MAX,
            forall|k: int| 0 <= k < i ==> v@[at + k] == part@[k],
        decreases part@.len() - i,
    {
        if v[at + i] != part[i] {
            assert(v@.subrange(at as int, at + part@.len() as int)[i as int] != part@[i as int]);
            return false;
        }
        i = i + 1;
    }
    assert(v@.subrange(at as int, at + part@.len() as int) =~= part@);
    true
}

/// Whether `s` begins with `prefix`.
pub open spec fn has_prefix(s: Seq<char>, prefix: Seq<char>) -> bool {
    prefix.len() <= s.len() && s.take(prefix.len() as int) == prefix
}

/// Whether `s` ends with `suffix`.
pub open spec fn has_suffix(s: Seq<char>, suffix: Seq<char>) -> bool {
    suffix.len() <= s.len() && s.skip(s.len() - suffix.len()) == suffix
}

/// Whether `v` ends with `suffix`.
pub fn ends_with(v: &Vec<char>, suffix: &Vec<char>) -> (b: bool)
    ensures
        b == has_suffix(v@, suffix@),
{
    if suffix.len() > v.len() {
        return false;
    }
    let at: usize = v.len() - suffix.len();
    assert(v@.subrange(at as int, at + suffix@.len() as int) =~= v@.skip(at as int));
    matches_at(v, at, suffix)
}

/// Whether `v` begins with `prefix`.
pub fn starts_with(v: &Vec<char>, prefix: &Vec<char>) -> (b: bool)
    ensures
        b == has_prefix(v@, prefix@),
{
    assert(prefix@.len() <= v@.len() ==> v@.subrange(0, prefix@.len() as int) =~= v@.take(
        prefix@.len() as int,
    ));
    matches_at(v, 0, prefix)
}

/// Whether two strings hold the same characters.
pub fn same_text(a: &str, b: &str) -> (r: bool)
    ensures
        r == (a@ == b@),
{
    let x = to_chars(a);
    let y = to_chars(b);
    if x.len() != y.len() {
        return false;
    }
    assert(x@.subrange(0, y@.len() as int) =~= x@);
    matches_at(&x, 0, &y)
}

/// `n` zeros.
pub open spec fn zeros(n: nat) -> Seq<char> {
    Seq::new(n, |i: int| '0')
}

/// The decimal numeral of `n`, with zeros in front up to `width` characters.
pub open spec fn padded_decimal(n: nat, width: nat) -> Seq<char> {
    let plain = decimal(n);
    if plain.len() < width {
        zeros((width - plain.len()) as nat) + plain
    } else {
        plain
    }
}

/// Appends the decimal numeral of `n`, with zeros in front up to `width`
/// characters.
pub fn push_padded(s: &mut String, n: u64, width: usize)
    ensures
        final(s)@ == old(s)@ + padded_decimal(n as nat, width as nat),
{
    let ghost before = s@;
    let mut plain = String::new();
    push_decimal(&mut plain, n);
    let len: usize = to_chars(plain.as_str()).len();
    assert(plain@ =~= decimal(n as nat));
    let mut missing: usize = if len < width {
        width - len
    } else {
        0
    };
    let ghost total = missing as nat;
    assert(s@ =~= before + zeros(0));
    while missing > 0
        invariant
            missing <= total,
            s@ == before + zeros((total - missing) as nat),
        decreases missing,
    {
        s.push('0');
        missing = missing - 1;
        assert(s@ =~= before + zeros((total - missing) as nat));
    }
    s.append(plain.as_str());
    assert(s@ =~= before + padded_decimal(n as nat, width as nat));
}

/// Whether `c` is a decimal digit.
pub open spec fn is_digit(c: char) -> bool {
    '0' <= c <= '9'
}

/// The value of a decimal digit.
pub open spec fn digit_value(c: char) -> nat {
    (c as nat - '0' as nat) as nat
}

/// Whether every character of `s` is a decimal digit.
pub open spec fn all_digits(s: Seq<char>) -> bool {
    forall|i: int| 0 <= i < s.len() ==> is_digit(#[trigger] s[i])
}

/// The number that the digits `s` stand for.
pub open spec fn digits_value(s: Seq<char>) -> nat
    decreases s.len(),
{
    if s.len() == 0 {
        0
    } else {
        10 * digits_value(s.drop_last()) + digit_value(s.last())
    }
}

/// The 32-bit number that `s` stands for: digits, at least one, with an
/// optional plus sign in front.
pub open spec fn parsed_u32(s: Seq<char>) -> Option<u32> {
    let digits = if s.len() > 0 && s[0] == '+' {
        s.skip(1)
    } else {
        s
    };
    if digits.len() > 0 && all_digits(digits) && digits_value(digits) <= u32::MAX {
        Some(digits_value(digits) as u32)
    } else {
        None
    }
}

proof fn lemma_digits_value_grows(s: Seq<char>, n: int)
    requires
        0 <= n <= s.len(),
    ensures
        digits_value(s) >= digits_value(s.take(n)),
    decreases s.len() - n,
{
    if n == s.len() {
        assert(s.take(n) =~= s);
    } else {
        lemma_digits_value_grows(s, n + 1);
        assert(s.take(n + 1).drop_last() =~= s.take(n));
    }
}

/// The 32-bit number that the characters `v[from..to]` stand for.
pub fn parse_u32(v: &Vec<char>, from: usize, to: usize) -> (r: Option<u32>)
    requires
        from <= to <= v@.len(),
    ensures
        r == parsed_u32(v@.subrange(from as int, to as int)),
{
    let ghost all = v@.subrange(from as int, to as int);
    let mut at: usize = from;
    if at < to && v[at] == '+' {
        at = at + 1;
        assert(all.skip(1) =~= v@.subrange(at as int, to as int));
    }
    let ghost digits = v@.subrange(at as int, to as int);
    if at == to {
        return None;
    }
    let start: usize = at;
    let mut value: u32 = 0;
    assert(digits.take(0) =~= Seq::empty());
    while at < to
        invariant
            from <= start <= at <= to <= v@.len(),
            all == v@.subrange(from as int, to as int),
            digits == v@.subrange(start as int, to as int),
            all_digits(digits.take(at - start)),
            value as nat == digits_value(digits.take(at - start)),
            parsed_u32(all) == (if digits.len() > 0 && all_digits(digits) && digits_value(digits)
                <= u32::MAX {
                Some(digits_value(digits) as u32)
            } else {
                None
            }),
        decreases to - at,
    {
        let c: char = v[at];
        let ghost k = at - start;
        let ghost next = digits.take(k + 1);
        assert(digits[k] == c);
        if c < '0' || c > '9' {
            assert(!is_digit(digits[k]));
            return None;
        }
        let d: u32 = c as u32 - '0' as u32;
        assert(next.drop_last() =~= digits.take(k));
        assert(digits_value(next) == 10 * value + d);
        let wide: u64 = value as u64 * 10 + d as u64;
        if wide > u32::MAX as u64 {
            proof {
                lemma_digits_value_grows(digits, k + 1);
            }
            return None;
        }
        value = wide as u32;
        assert forall|i: int| 0 <= i < next.len() implies is_digit(#[trigger] next[i]) by {
            if i < k {
                assert(next[i] == digits.take(k)[i]);
            }
        }
        at = at + 1;
    }
    assert(digits.take(at - start) =~= digits);
    Some(value)
}

/// A decimal numeral stands for its number.
pub proof fn lemma_decimal_value(n: nat)
    ensures
        decimal(n).len() > 0,
        all_digits(decimal(n)),
        digits_value(decimal(n)) == n,
        decimal(n)[0] != '+',
    decreases n,
{
    if n < 10 {
        assert(decimal(n).drop_last() =~= Seq::empty());
        assert(digits_value(Seq::<char>::empty()) == 0);
    } else {
        lemma_decimal_value(n / 10);
        assert(decimal(n).drop_last() =~= decimal(n / 10));
        assert(n == 10 * (n / 10) + n % 10);
        assert(decimal(n)[0] == decimal(n / 10)[0]);
    }
}

/// What can be handed over as text.
pub trait IntoText: Sized {
    /// The characters of the text.
    spec fn text(self) -> Seq<char>;

    /// The text as a string.
    fn into_text(self) -> (s: String)
        ensures
            s@ == self.text(),
    ;
}

impl IntoText for String {
    open spec fn text(self) -> Seq<char> {
        self@
    }

    fn into_text(self) -> (s: String) {
        self
    }
}

impl<'a> IntoText for &'a str {
    open spec fn text(self) -> Seq<char> {
        self@
    }

    fn into_text(self) -> (s: String) {
        self.to_string()
    }
}

/// Numerals are positional: the digits of a number are those of its quotient by
/// the base, followed by the digit of the remainder. The digits below ten are
/// `0` to `9`, those from ten on the small letters from `a` on.
pub proof fn lemma_numerals_are_positional(n: nat, base: nat)
    requires
        2 <= base <= 16,
    ensures
        n >= base ==> numeral(n, base) == numeral(n / base, base) + numeral(n % base, base),
        n < base ==> numeral(n, base).len() == 1,
        n < base && n < 10 ==> numeral(n, base)[0] as u32 == '0' as u32 + n,
        n < base && n >= 10 ==> numeral(n, base)[0] as u32 == 'a' as u32 + (n - 10),
        decimal(n) == numeral(n, 10),
{
    if n >= base {
        assert(n % base < base) by (nonlinear_arith)
            requires
                base >= 2,
        ;
        assert(numeral(n, base) =~= numeral(n / base, base) + numeral(n % base, base));
    }
}

/// A padded numeral is as wide as it was to be made, or as the number needs;
/// only zeros stand in front of the digits, and it still stands for the number.
pub proof fn lemma_padding_keeps_the_number(n: nat, width: nat)
    ensures
        padded_decimal(n, width).len() == if decimal(n).len() < width {
            width
        } else {
            decimal(n).len()
        },
        padded_decimal(n, width).skip(padded_decimal(n, width).len() - decimal(n).len()) == decimal(
            n,
        ),
        forall|i: int|
            0 <= i < padded_decimal(n, width).len() - decimal(n).len() ==> #[trigger]
                padded_decimal(n, width)[i] == '0',
        digits_value(padded_decimal(n, width)) == n,
{
    let plain = decimal(n);
    let padded = padded_decimal(n, width);
    assert(padded.skip(padded.len() - plain.len()) =~= plain);
    let more = if plain.len() < width {
        (width - plain.len()) as nat
    } else {
        0
    };
    assert(padded =~= zeros(more) + plain);
    lemma_zeros_add_nothing(more, plain);
    lemma_decimal_value(n);
}

proof fn lemma_zeros_add_nothing(n: nat, s: Seq<char>)
    ensures
        digits_value(zeros(n) + s) == digits_value(s),
    decreases n + s.len(),
{
    let all = zeros(n) + s;
    if s.len() > 0 {
        assert(all.drop_last() =~= zeros(n) + s.drop_last());
        lemma_zeros_add_nothing(n, s.drop_last());
    } else if n > 0 {
        assert(all.drop_last() =~= zeros((n - 1) as nat) + s);
        assert(all.last() == '0');
        lemma_zeros_add_nothing((n - 1) as nat, s);
    } else {
        assert(all =~= s);
    }
}

/// A digit adds itself to ten times what stands in front of it.
pub proof fn lemma_digits_are_decimal(s: Seq<char>, c: char)
    requires
        '0' <= c <= '9',
    ensures
        digits_value(Seq::empty()) == 0,
        digits_value(s.push(c)) == 10 * digits_value(s) + (c as u32 - '0' as u32),
{
    assert(s.push(c).drop_last() =~= s);
}

/// What reads as a 32-bit number: one digit at least and nothing but digits,
/// behind a plus sign or not, and not too large. It reads as the number that the
/// digits stand for.
pub proof fn lemma_numbers_are_read_from_digits(s: Seq<char>, digits: Seq<char>)
    requires
        s == seq!['+'] + digits || s == digits && (s.len() > 0 ==> s[0] != '+'),
    ensures
        match parsed_u32(s) {
            Some(n) => digits.len() > 0 && n == digits_value(digits) && forall|i: int|
                0 <= i < digits.len() ==> '0' <= #[trigger] digits[i] <= '9',
            None => digits.len() == 0 || digits_value(digits) > u32::MAX || exists|i: int|
                0 <= i < digits.len() && !('0' <= #[trigger] digits[i] <= '9'),
        },
{
    if s == seq!['+'] + digits {
        assert(s.skip(1) =~= digits);
    }
    if parsed_u32(s) is Some {
        assert forall|i: int| 0 <= i < digits.len() implies '0' <= #[trigger] digits[i] <= '9' by {
            assert(is_digit(digits[i]));
        }
    } else if digits.len() > 0 && digits_value(digits) <= u32::MAX {
        let i = choose|i: int| 0 <= i < digits.len() && !is_digit(#[trigger] digits[i]);
        assert(!('0' <= digits[i] <= '9'));
    }
}

/// A written number reads back.
pub proof fn lemma_written_number_reads_back(n: u32)
    ensures
        parsed_u32(decimal(n as nat)) == Some(n),
{
    lemma_decimal_value(n as nat);
}

/// Trimming takes the white space at both ends away and nothing else: what is
/// left is a stretch of the text with white space alone on both sides of it, and
/// neither begins nor ends with any.
pub proof fn lemma_trimming_takes_the_ends(s: Seq<char>) -> (r: (int, int))
    ensures
        0 <= r.0 <= r.1 <= s.len(),
        trimmed(s) == s.subrange(r.0, r.1),
        forall|i: int| 0 <= i < r.0 ==> is_space(#[trigger] s[i]),
        forall|i: int| r.1 <= i < s.len() ==> is_space(#[trigger] s[i]),
        trimmed(s).len() > 0 ==> !is_space(trimmed(s)[0]) && !is_space(trimmed(s).last()),
{
    let from = lemma_trimmed_start_is_a_tail(s);
    let tail = trimmed_start(s);
    let n = lemma_trimmed_end_is_a_head(tail);
    assert(trimmed(s) =~= s.subrange(from, from + n));
    assert forall|i: int| from + n <= i < s.len() implies is_space(#[trigger] s[i]) by {
        assert(tail[i - from] == s[i]);
    }
    (from, from + n)
}

proof fn lemma_trimmed_start_is_a_tail(s: Seq<char>) -> (from: int)
    ensures
        0 <= from <= s.len(),
        trimmed_start(s) == s.skip(from),
        forall|i: int| 0 <= i < from ==> is_space(#[trigger] s[i]),
        trimmed_start(s).len() > 0 ==> !is_space(trimmed_start(s)[0]),
    decreases s.len(),
{
    if s.len() > 0 && is_space(s[0]) {
        let rest = s.skip(1);
        let from = lemma_trimmed_start_is_a_tail(rest);
        assert(rest.skip(from) =~= s.skip(from + 1));
        assert forall|i: int| 0 <= i < from + 1 implies is_space(#[trigger] s[i]) by {
            if i > 0 {
                assert(rest[i - 1] == s[i]);
            }
        }
        from + 1
    } else {
        assert(s.skip(0) =~= s);
        0
    }
}

proof fn lemma_trimmed_end_is_a_head(s: Seq<char>) -> (to: int)
    ensures
        0 <= to <= s.len(),
        trimmed_end(s) == s.take(to),
        forall|i: int| to <= i < s.len() ==> is_space(#[trigger] s[i]),
        trimmed_end(s).len() > 0 ==> !is_space(trimmed_end(s).last()) && trimmed_end(s)[0] == s[0],
    decreases s.len(),
{
    if s.len() > 0 && is_space(s.last()) {
        let rest = s.drop_last();
        let to = lemma_trimmed_end_is_a_head(rest);
        assert(rest.take(to) =~= s.take(to));
        assert forall|i: int| to <= i < s.len() implies is_space(#[trigger] s[i]) by {
            if i < rest.len() {
                assert(rest[i] == s[i]);
            }
        }
        to
    } else {
        assert(s.take(s.len() as int) =~= s);
        s.len() as int
    }
}

/// In ASCII, white space is the blank, the tab and the line breaks.
pub proof fn lemma_ascii_white_space(c: char)
    requires
        c as u32 <= 0x7f,
    ensures
        is_space(c) <==> c == ' ' || c == '\t' || c == '\n' || c == '\r' || c as u32 == 0xb
            || c as u32 == 0xc,
{
}

/// A text begins with whatever it is made of first, and ends with whatever it is
/// made of last.
pub proof fn lemma_prefix_and_suffix(a: Seq<char>, b: Seq<char>, s: Seq<char>, part: Seq<char>)
    ensures
        has_prefix(a + b, a),
        has_suffix(a + b, b),
        has_prefix(s, part) ==> s == part + s.skip(part.len() as int),
        has_suffix(s, part) ==> s == s.take(s.len() - part.len()) + part,
{
    assert((a + b).take(a.len() as int) =~= a);
    assert((a + b).skip(a.len() as int) =~= b);
    if has_prefix(s, part) {
        assert(s =~= part + s.skip(part.len() as int));
    }
    if has_suffix(s, part) {
        assert(s =~= s.take(s.len() - part.len()) + part);
    }
}

/// A string is handed over as it is.
pub proof fn lemma_text_is_the_string(owned: String, borrowed: &str)
    ensures
        owned.text() == owned@,
        borrowed.text() == borrowed@,
{
}

} // verus!
