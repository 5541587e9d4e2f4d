//! Character-level helpers shared by the two platform adapters: digit and
//! hexadecimal parsing, decimal formatting, and the exact specifications the
//! parsers are proved against.

use vstd::prelude::*;

verus! {

/// A decimal digit `'0'..='9'`.
pub open spec fn is_digit(c: char) -> bool {
    48 <= c as u32 <= 57
}

/// Numeric value of a decimal digit.
pub open spec fn digit_val(c: char) -> nat {
    (c as u32 - 48) as nat
}

/// Every character of `s` is a decimal digit.
pub open spec fn all_digits(s: Seq<char>) -> bool {
    forall|i: int| 0 <= i < s.len() ==> is_digit(#[trigger] s[i])
}

/// The natural number denoted by a sequence of decimal digits (most
/// significant first); the empty sequence denotes zero.
pub open spec fn digits_to_nat(s: Seq<char>) -> nat
    decreases s.len(),
{
    if s.len() == 0 {
        0
    } else {
        digits_to_nat(s.drop_last()) * 10 + digit_val(s.last())
    }
}

/// A prefix of a digit string never denotes more than the whole string.
pub proof fn lemma_digits_prefix_le(s: Seq<char>, i: int)
    requires
        0 <= i <= s.len(),
    ensures
        digits_to_nat(s.take(i)) <= digits_to_nat(s),
    decreases s.len(),
{
    if i < s.len() {
        assert(s.drop_last().take(i) =~= s.take(i));
        lemma_digits_prefix_le(s.drop_last(), i);
    } else {
        assert(s.take(i) =~= s);
    }
}

/// Parse the characters of `s` from code point `from` to the end as a plain
/// run of decimal digits. `None` when the run is empty, holds a non-digit,
/// or denotes a value past 64 bits.
pub fn parse_digits(s: &str, from: usize) -> (r: Option<u64>)
    requires
        from <= s@.len(),
    ensures
        ({
            let tail = s@.subrange(from as int, s@.len() as int);
            &&& r is Some <==> tail.len() > 0 && all_digits(tail) && digits_to_nat(tail)
                <= u64::MAX
            &&& r matches Some(v) ==> v == digits_to_nat(tail)
        }),
{
    let ghost tail = s@.subrange(from as int, s@.len() as int);
    let n = s.unicode_len();
    if from == n {
        return None;
    }
    let mut acc: u64 = 0;
    let mut i: usize = from;
    while i < n
        invariant
            from <= i <= n,
            n == s@.len(),
            tail == s@.subrange(from as int, s@.len() as int),
            all_digits(tail.take(i - from)),
            acc == digits_to_nat(tail.take(i - from)),
        decreases n - i,
    {
        let c = s.get_char(i);
        let v = c as u32;
        proof {
            assert(tail[i - from] == s@[i as int]);
        }
        if v < 48 || v > 57 {
            assert(!is_digit(tail[i - from]));
            return None;
        }
        let d = (v - 48) as u64;
        proof {
            assert(tail.take(i - from + 1).drop_last() =~= tail.take(i - from));
            assert(tail.take(i - from + 1).last() == s@[i as int]);
        }
        let next = match acc.checked_mul(10) {
            Some(m) => m.checked_add(d),
            None => None,
        };
        match next {
            Some(m) => {
                acc = m;
                i = i + 1;
            },
            None => {
                proof {
                    assert(digits_to_nat(tail.take(i - from + 1)) > u64::MAX);
                    lemma_digits_prefix_le(tail, i - from + 1);
                }
                return None;
            },
        }
    }
    proof {
        assert(tail.take(n - from) =~= tail);
    }
    Some(acc)
}

/// What `str::parse::<u64>` accepts: an optional leading `+`, then one or
/// more decimal digits, denoting a value that fits in 64 bits.
pub open spec fn u64_from_str(s: Seq<char>) -> Option<u64> {
    let t = if s.len() > 0 && s[0] == '+' {
        s.drop_first()
    } else {
        s
    };
    if t.len() > 0 && all_digits(t) && digits_to_nat(t) <= u64::MAX {
        Some(digits_to_nat(t) as u64)
    } else {
        None
    }
}

/// Parse an unsigned decimal number, accepting exactly what
/// `str::parse::<u64>` accepts.
pub fn parse_u64(s: &str) -> (r: Option<u64>)
    ensures
        r == u64_from_str(s@),
{
    let n = s.unicode_len();
    let from: usize = if n > 0 && s.get_char(0) == '+' {
        1
    } else {
        0
    };
    let ghost t = if s@.len() > 0 && s@[0] == '+' {
        s@.drop_first()
    } else {
        s@
    };
    proof {
        assert(t =~= s@.subrange(from as int, s@.len() as int));
    }
    parse_digits(s, from)
}

/// What `str::parse` accepts for the narrower unsigned types: the same
/// grammar as for 64 bits, further bounded by the type's maximum.
pub open spec fn bounded_u64_from_str(s: Seq<char>, max: u64) -> Option<u64> {
    match u64_from_str(s) {
        Some(v) => if v <= max {
            Some(v)
        } else {
            None
        },
        None => None,
    }
}

/// Parse a decimal number that must fit below `max`, as `str::parse` does
/// for the narrower unsigned types.
pub fn parse_u64_max(s: &str, max: u64) -> (r: Option<u64>)
    ensures
        r == bounded_u64_from_str(s@, max),
{
    match parse_u64(s) {
        Some(v) => if v <= max {
            Some(v)
        } else {
            None
        },
        None => None,
    }
}

/// What `str::parse::<i64>` accepts: an optional sign, then one or more
/// decimal digits, denoting a value in the range of `i64`.
pub open spec fn i64_from_str(s: Seq<char>) -> Option<i64> {
    let neg = s.len() > 0 && s[0] == '-';
    let t = if s.len() > 0 && (s[0] == '+' || s[0] == '-') {
        s.drop_first()
    } else {
        s
    };
    if t.len() > 0 && all_digits(t) {
        let v = digits_to_nat(t);
        if neg && v <= 0x8000_0000_0000_0000 {
            Some((-(v as int)) as i64)
        } else if !neg && v <= i64::MAX {
            Some(v as i64)
        } else {
            None
        }
    } else {
        None
    }
}

/// Parse a signed decimal number, accepting exactly what
/// `str::parse::<i64>` accepts.
pub fn parse_i64(s: &str) -> (r: Option<i64>)
    ensures
        r == i64_from_str(s@),
{
    let n = s.unicode_len();
    if n == 0 {
        return None;
    }
    let c0 = s.get_char(0);
    let neg = c0 == '-';
    let from: usize = if neg || c0 == '+' {
        1
    } else {
        0
    };
    let ghost t = if s@.len() > 0 && (s@[0] == '+' || s@[0] == '-') {
        s@.drop_first()
    } else {
        s@
    };
    proof {
        assert(t =~= s@.subrange(from as int, s@.len() as int));
    }
    let mag = match parse_digits(s, from) {
        Some(v) => v,
        None => {
            proof {
                if t.len() > 0 && all_digits(t) {
                    assert(digits_to_nat(t) > u64::MAX);
                }
            }
            return None;
        },
    };
    if neg {
        if mag < 0x8000_0000_0000_0000 {
            Some(-(mag as i64))
        } else if mag == 0x8000_0000_0000_0000 {
            Some(i64::MIN)
        } else {
            None
        }
    } else {
        if mag <= i64::MAX as u64 {
            Some(mag as i64)
        } else {
            None
        }
    }
}

/// A hexadecimal digit.
pub open spec fn is_hex_digit(c: char) -> bool {
    is_digit(c) || (97 <= c as u32 <= 102) || (65 <= c as u32 <= 70)
}

/// Numeric value of a hexadecimal digit, either case.
pub open spec fn hex_val(c: char) -> nat {
    if is_digit(c) {
        digit_val(c)
    } else if 97 <= c as u32 <= 102 {
        (c as u32 - 87) as nat
    } else {
        (c as u32 - 55) as nat
    }
}

/// Every character of `s` is a hexadecimal digit.
pub open spec fn all_hex_digits(s: Seq<char>) -> bool {
    forall|i: int| 0 <= i < s.len() ==> is_hex_digit(#[trigger] s[i])
}

/// The natural number denoted by a sequence of hexadecimal digits.
pub open spec fn hex_to_nat(s: Seq<char>) -> nat
    decreases s.len(),
{
    if s.len() == 0 {
        0
    } else {
        hex_to_nat(s.drop_last()) * 16 + hex_val(s.last())
    }
}

/// Sixteen to the given power.
pub open spec fn pow16(n: nat) -> nat
    decreases n,
{
    if n == 0 {
        1nat
    } else {
        16 * pow16((n - 1) as nat)
    }
}

/// A hexadecimal digit string of length `n` denotes a value below `16^n`.
pub proof fn lemma_hex_bound(s: Seq<char>)
    requires
        all_hex_digits(s),
    ensures
        hex_to_nat(s) < pow16(s.len()),
    decreases s.len(),
{
    if s.len() > 0 {
        assert(all_hex_digits(s.drop_last())) by {
            assert(forall|i: int|
                0 <= i < s.len() - 1 ==> s.drop_last()[i] == #[trigger] s[i]);
        }
        lemma_hex_bound(s.drop_last());
        assert(hex_val(s.last()) < 16);
    }
}

/// The first few powers of sixteen, unfolded for the parser's bounds.
pub proof fn lemma_pow16_values()
    ensures
        pow16(7) == 0x1000_0000,
        pow16(8) == 0x1_0000_0000,
{
    assert(pow16(0) == 1);
    assert(pow16(1) == 16);
    assert(pow16(2) == 0x100);
    assert(pow16(3) == 0x1000);
    assert(pow16(4) == 0x1_0000);
    assert(pow16(5) == 0x10_0000);
    assert(pow16(6) == 0x100_0000);
    assert(pow16(7) == 0x1000_0000);
    assert(pow16(8) == 0x1_0000_0000);
}

/// Sixteen to a smaller power is no larger.
pub proof fn lemma_pow16_le(a: nat, b: nat)
    requires
        a <= b,
    ensures
        pow16(a) <= pow16(b),
    decreases b,
{
    if a < b {
        lemma_pow16_le(a, (b - 1) as nat);
        assert(pow16(b) == 16 * pow16((b - 1) as nat));
        assert(pow16((b - 1) as nat) >= 1) by {
            lemma_pow16_le(0, (b - 1) as nat);
        }
    }
}

/// Read `count` hexadecimal digits of `s` starting at code point `from` and
/// return their value; `None` when a character in the span is not a
/// hexadecimal digit.
pub fn parse_hex_span(s: &str, from: usize, count: usize) -> (r: Option<u32>)
    requires
        from + count <= s@.len(),
        s@.len() <= usize::MAX,
        count <= 8,
    ensures
        r is Some <==> all_hex_digits(s@.subrange(from as int, (from + count) as int)),
        r matches Some(v) ==> v == hex_to_nat(s@.subrange(from as int, (from + count) as int)),
{
    let ghost span = s@.subrange(from as int, (from + count) as int);
    let mut acc: u64 = 0;
    let mut i: usize = 0;
    while i < count
        invariant
            0 <= i <= count,
            count <= 8,
            from + count <= s@.len(),
            s@.len() <= usize::MAX,
            span == s@.subrange(from as int, (from + count) as int),
            all_hex_digits(span.take(i as int)),
            acc == hex_to_nat(span.take(i as int)),
            acc < pow16(i as nat),
        decreases count - i,
    {
        let c = s.get_char(from + i);
        let v = c as u32;
        proof {
            assert(span[i as int] == s@[from + i]);
        }
        let d: u64 = if 48 <= v && v <= 57 {
            (v - 48) as u64
        } else if 97 <= v && v <= 102 {
            (v - 87) as u64
        } else if 65 <= v && v <= 70 {
            (v - 55) as u64
        } else {
            assert(!is_hex_digit(span[i as int]));
            return None;
        };
        proof {
            assert(span.take(i + 1).drop_last() =~= span.take(i as int));
            assert(span.take(i + 1).last() == s@[from + i]);
            lemma_pow16_values();
            lemma_pow16_le(i as nat, 7);
        }
        acc = acc * 16 + d;
        i = i + 1;
    }
    proof {
        assert(span.take(count as int) =~= span);
        lemma_pow16_values();
        lemma_pow16_le(i as nat, 8);
    }
    Some(acc as u32)
}

/// Compare two strings character by character.
pub fn str_eq(a: &str, b: &str) -> (r: bool)
    ensures
        r == (a@ == b@),
{
    let na = a.unicode_len();
    let nb = b.unicode_len();
    if na != nb {
        return false;
    }
    let mut i: usize = 0;
    while i < na
        invariant
            0 <= i <= na,
            na == a@.len(),
            na == b@.len(),
            forall|k: int| 0 <= k < i ==> a@[k] == b@[k],
        decreases na - i,
    {
        if a.get_char(i) != b.get_char(i) {
            return false;
        }
        i = i + 1;
    }
    proof {
        assert(a@ =~= b@);
    }
    true
}

/// Index of the first occurrence of `c` in `s` at or past `from`; the
/// length of `s` when there is none.
pub open spec fn find_char(s: Seq<char>, c: char, from: int) -> int
    recommends
        0 <= from <= s.len(),
    decreases s.len() - from,
{
    if from < 0 || from >= s.len() {
        s.len() as int
    } else if s[from] == c {
        from
    } else {
        find_char(s, c, from + 1)
    }
}

/// Where `find_char` points: within bounds, at `c` when inside the string,
/// with no `c` between `from` and it.
pub proof fn lemma_find_char(s: Seq<char>, c: char, from: int)
    requires
        0 <= from <= s.len(),
    ensures
        from <= find_char(s, c, from) <= s.len(),
        find_char(s, c, from) < s.len() ==> s[find_char(s, c, from)] == c,
        forall|k: int| from <= k < find_char(s, c, from) ==> s[k] != c,
    decreases s.len() - from,
{
    if from < s.len() && s[from] != c {
        lemma_find_char(s, c, from + 1);
    }
}

/// Find the first occurrence of `c` in `s` at or past `from`.
pub fn find_char_at(s: &str, c: char, from: usize) -> (i: usize)
    requires
        from <= s@.len(),
    ensures
        i == find_char(s@, c, from as int),
        from <= i <= s@.len(),
        i < s@.len() ==> s@[i as int] == c,
        forall|k: int| from <= k < i ==> s@[k] != c,
{
    proof {
        lemma_find_char(s@, c, from as int);
    }
    let n = s.unicode_len();
    let mut i: usize = from;
    while i < n
        invariant
            from <= i <= n,
            n == s@.len(),
            find_char(s@, c, from as int) == find_char(s@, c, i as int),
        decreases n - i,
    {
        if s.get_char(i) == c {
            proof {
                assert(find_char(s@, c, i as int) == i);
                lemma_find_char(s@, c, from as int);
                assert(forall|k: int| from <= k < i ==> s@[k] != c);
            }
            return i;
        }
        i = i + 1;
    }
    n
}

/// `str::splitn(2, sep)` over a separator character: the part before
/// the first separator and the part after it, or nothing when the
/// separator does not occur.
pub open spec fn split_once_at(s: Seq<char>, sep: char) -> Option<(Seq<char>, Seq<char>)> {
    let i = find_char(s, sep, 0);
    if i < s.len() {
        Some((s.take(i), s.skip(i + 1)))
    } else {
        None
    }
}

/// Split at the first occurrence of `sep`.
pub fn split_once(s: &str, sep: char) -> (r: Option<(&str, &str)>)
    ensures
        r is Some <==> split_once_at(s@, sep) is Some,
        r matches Some(p) ==> split_once_at(s@, sep) matches Some(q) && p.0@ == q.0 && p.1@
            == q.1,
{
    let n = s.unicode_len();
    let i = find_char_at(s, sep, 0);
    if i < n {
        let left = s.substring_char(0, i);
        let right = s.substring_char(i + 1, n);
        proof {
            assert(left@ =~= s@.take(i as int));
            assert(right@ =~= s@.skip(i + 1));
        }
        Some((left, right))
    } else {
        None
    }
}

/// The segments of `s` between occurrences of `sep`, as `str::split`
/// yields them: `n` separators give `n + 1` segments, empty ones included.
pub open spec fn split_char(s: Seq<char>, sep: char) -> Seq<Seq<char>>
    decreases s.len(),
{
    if s.len() == 0 {
        seq![Seq::<char>::empty()]
    } else if s[0] == sep {
        seq![Seq::<char>::empty()].add(split_char(s.drop_first(), sep))
    } else {
        let rest = split_char(s.drop_first(), sep);
        seq![seq![s[0]].add(rest[0])].add(rest.skip(1))
    }
}

/// Splitting yields at least one segment.
pub proof fn lemma_split_char_len(s: Seq<char>, sep: char)
    ensures
        split_char(s, sep).len() >= 1,
    decreases s.len(),
{
    if s.len() > 0 {
        lemma_split_char_len(s.drop_first(), sep);
    }
}

/// Unfold `split_char` at the first separator: the segment before it,
/// then the segments of what follows.
pub proof fn lemma_split_char_head(s: Seq<char>, sep: char, i: int)
    requires
        0 <= i <= s.len(),
        forall|k: int| 0 <= k < i ==> s[k] != sep,
        i < s.len() ==> s[i] == sep,
    ensures
        i == s.len() ==> split_char(s, sep) == seq![s],
        i < s.len() ==> split_char(s, sep) == seq![s.take(i)].add(
            split_char(s.skip(i + 1), sep),
        ),
    decreases s.len(),
{
    lemma_split_char_len(s, sep);
    if s.len() == 0 {
        assert(s =~= Seq::<char>::empty());
        assert(split_char(s, sep) =~= seq![s]);
    } else if s[0] == sep {
        assert(i == 0);
        assert(s.drop_first() =~= s.skip(1));
        assert(s.take(0) =~= Seq::<char>::empty());
        assert(split_char(s, sep) =~= seq![s.take(0)].add(split_char(s.skip(1), sep)));
    } else {
        let d = s.drop_first();
        lemma_split_char_head(d, sep, i - 1);
        lemma_split_char_len(d, sep);
        if i == s.len() {
            assert(split_char(d, sep) == seq![d]);
            assert(seq![s[0]].add(d) =~= s);
            assert(split_char(s, sep) =~= seq![s]);
        } else {
            assert(split_char(d, sep) == seq![d.take(i - 1)].add(split_char(d.skip(i), sep)));
            assert(seq![s[0]].add(d.take(i - 1)) =~= s.take(i));
            assert(d.skip(i) =~= s.skip(i + 1));
            assert(split_char(s, sep) =~= seq![s.take(i)].add(split_char(s.skip(i + 1), sep)));
        }
    }
}

/// Split a string on every occurrence of `sep`, as `str::split` does.
pub fn split_str(s: &str, sep: char) -> (r: Vec<String>)
    ensures
        r.deep_view() == split_char(s@, sep),
{
    let n = s.unicode_len();
    let mut out: Vec<String> = Vec::new();
    let mut start: usize = 0;
    proof {
        assert(s@.skip(0) =~= s@);
        assert(out.deep_view() =~= Seq::<Seq<char>>::empty());
        assert(out.deep_view().add(split_char(s@, sep)) =~= split_char(s@, sep));
    }
    loop
        invariant
            0 <= start <= n,
            n == s@.len(),
            split_char(s@, sep) == out.deep_view().add(split_char(s@.skip(start as int), sep)),
        decreases n - start,
    {
        let j = find_char_at(s, sep, start);
        let seg = s.substring_char(start, j).to_owned();
        proof {
            assert(seg@ =~= s@.skip(start as int).take(j - start));
            lemma_find_char(s@.skip(start as int), sep, 0);
            assert(forall|k: int|
                0 <= k < j - start ==> s@.skip(start as int)[k] == s@[start + k]);
            lemma_split_char_head(s@.skip(start as int), sep, j - start);
        }
        out.push(seg);
        if j < n {
            proof {
                assert(s@.skip(start as int).skip(j - start + 1) =~= s@.skip(j + 1));
                assert(split_char(s@, sep) =~= out.deep_view().add(
                    split_char(s@.skip(j + 1), sep),
                ));
            }
            start = j + 1;
        } else {
            proof {
                assert(s@.skip(start as int).take(j - start) =~= s@.skip(start as int));
                assert(split_char(s@, sep) =~= out.deep_view());
            }
            return out;
        }
    }
}

/// Digit character of a value below ten.
pub open spec fn digit_char(d: nat) -> char {
    if d == 0 {
        '0'
    } else if d == 1 {
        '1'
    } else if d == 2 {
        '2'
    } else if d == 3 {
        '3'
    } else if d == 4 {
        '4'
    } else if d == 5 {
        '5'
    } else if d == 6 {
        '6'
    } else if d == 7 {
        '7'
    } else if d == 8 {
        '8'
    } else {
        '9'
    }
}

/// Decimal representation of a natural number, without sign or padding.
pub open spec fn nat_to_digits(n: nat) -> Seq<char>
    decreases n,
{
    if n < 10 {
        seq![digit_char(n)]
    } else {
        nat_to_digits(n / 10).push(digit_char(n % 10))
    }
}

/// Format a number in decimal, matching `nat_to_digits`.
pub fn u64_to_string(n: u64) -> (r: String)
    ensures
        r@ == nat_to_digits(n as nat),
    decreases n,
{
    let digits = "0123456789";
    proof {
        reveal_strlit("0123456789");
    }
    let d = (n % 10) as usize;
    let last = digits.substring_char(d, d + 1);
    proof {
        assert(last@ =~= seq![digit_char((n % 10) as nat)]);
    }
    if n < 10 {
        last.to_owned()
    } else {
        let prefix = u64_to_string(n / 10);
        let r = prefix.concat(last);
        proof {
            assert(r@ =~= nat_to_digits((n / 10) as nat).push(digit_char((n % 10) as nat)));
        }
        r
    }
}


/// Hexadecimal digit character of a value below sixteen, lower case.
pub open spec fn hex_digit_char(d: nat) -> char {
    if d < 10 {
        digit_char(d)
    } else if d == 10 {
        'a'
    } else if d == 11 {
        'b'
    } else if d == 12 {
        'c'
    } else if d == 13 {
        'd'
    } else if d == 14 {
        'e'
    } else {
        'f'
    }
}

/// How one character is written inside a JSON string literal: quotes and
/// backslashes are escaped, the named control characters take their
/// short escapes, other control characters take a unicode escape, and
/// everything else stands as itself.
pub open spec fn json_escape_char(c: char) -> Seq<char> {
    if c == '"' {
        seq!['\\', '"']
    } else if c == '\\' {
        seq!['\\', '\\']
    } else if c == '\u{8}' {
        seq!['\\', 'b']
    } else if c == '\u{c}' {
        seq!['\\', 'f']
    } else if c == '\n' {
        seq!['\\', 'n']
    } else if c == '\r' {
        seq!['\\', 'r']
    } else if c == '\t' {
        seq!['\\', 't']
    } else if (c as u32) < 0x20 {
        let hi = hex_digit_char((c as u32 / 16) as nat);
        let lo = hex_digit_char((c as u32 % 16) as nat);
        seq!['\\', 'u', '0', '0', hi, lo]
    } else {
        seq![c]
    }
}

/// A string's characters written inside a JSON string literal.
pub open spec fn json_escape(s: Seq<char>) -> Seq<char>
    decreases s.len(),
{
    if s.len() == 0 {
        Seq::empty()
    } else {
        json_escape_char(s[0]).add(json_escape(s.drop_first()))
    }
}

/// Escaping grows one character at a time from the front.
proof fn lemma_json_escape_step(s: Seq<char>, i: int)
    requires
        0 <= i < s.len(),
    ensures
        json_escape(s.take(i + 1)) == json_escape(s.take(i)).add(json_escape_char(s[i])),
    decreases i,
{
    if i == 0 {
        assert(s.take(1)[0] == s[0]);
        assert(s.take(1).drop_first() =~= Seq::<char>::empty());
        assert(s.take(0) =~= Seq::<char>::empty());
        assert(json_escape(Seq::<char>::empty()) =~= Seq::<char>::empty());
        assert(json_escape(s.take(1)) =~= json_escape_char(s[0]).add(json_escape(
            s.take(1).drop_first(),
        )));
        assert(json_escape(s.take(1)) =~= json_escape_char(s[0]));
        assert(json_escape(s.take(0)).add(json_escape_char(s[0])) =~= json_escape_char(s[0]));
    } else {
        let t = s.drop_first();
        lemma_json_escape_step(t, i - 1);
        assert(s.take(i + 1)[0] == s[0]);
        assert(s.take(i + 1).drop_first() =~= t.take(i));
        assert(s.take(i)[0] == s[0]);
        assert(s.take(i).drop_first() =~= t.take(i - 1));
        assert(t[i - 1] == s[i]);
        assert(json_escape_char(s[0]).add(json_escape(t.take(i - 1)).add(json_escape_char(
            s[i],
        ))) =~= json_escape_char(s[0]).add(json_escape(t.take(i - 1))).add(json_escape_char(
            s[i],
        )));
    }
}

/// Append the JSON-escaped form of `s` to `out`.
pub fn append_json_escaped(out: &mut String, s: &str)
    ensures
        final(out)@ == old(out)@ + json_escape(s@),
{
    let n = s.unicode_len();
    let mut i: usize = 0;
    proof {
        assert(s@.take(0) =~= Seq::<char>::empty());
        assert(old(out)@.add(json_escape(s@.take(0))) =~= old(out)@);
    }
    while i < n
        invariant
            0 <= i <= n,
            n == s@.len(),
            out@ == old(out)@ + json_escape(s@.take(i as int)),
        decreases n - i,
    {
        let c = s.get_char(i);
        let v = c as u32;
        proof {
            lemma_json_escape_step(s@, i as int);
        }
        if c == '"' {
            out.append("\\\"");
            proof {
                reveal_strlit("\\\"");
                assert("\\\""@ =~= json_escape_char(s@[i as int]));
            }
        } else if c == '\\' {
            out.append("\\\\");
            proof {
                reveal_strlit("\\\\");
                assert("\\\\"@ =~= json_escape_char(s@[i as int]));
            }
        } else if v == 0x8 {
            out.append("\\b");
            proof {
                reveal_strlit("\\b");
                assert("\\b"@ =~= json_escape_char(s@[i as int]));
            }
        } else if v == 0xc {
            out.append("\\f");
            proof {
                reveal_strlit("\\f");
                assert("\\f"@ =~= json_escape_char(s@[i as int]));
            }
        } else if c == '\n' {
            out.append("\\n");
            proof {
                reveal_strlit("\\n");
                assert("\\n"@ =~= json_escape_char(s@[i as int]));
            }
        } else if c == '\r' {
            out.append("\\r");
            proof {
                reveal_strlit("\\r");
                assert("\\r"@ =~= json_escape_char(s@[i as int]));
            }
        } else if c == '\t' {
            out.append("\\t");
            proof {
                reveal_strlit("\\t");
                assert("\\t"@ =~= json_escape_char(s@[i as int]));
            }
        } else if v < 0x20 {
            out.append("\\u00");
            let hexdigits = "0123456789abcdef";
            proof {
                reveal_strlit("\\u00");
                reveal_strlit("0123456789abcdef");
            }
            let hi = (v / 16) as usize;
            let lo = (v % 16) as usize;
            let hs = hexdigits.substring_char(hi, hi + 1);
            out.append(hs);
            let ls = hexdigits.substring_char(lo, lo + 1);
            out.append(ls);
            proof {
                assert(hs@ =~= seq![hex_digit_char((v / 16) as nat)]);
                assert(ls@ =~= seq![hex_digit_char((v % 16) as nat)]);
                assert(old(out)@.add(json_escape(s@.take(i as int))).add("\\u00"@).add(hs@).add(
                    ls@,
                ) =~= old(out)@.add(json_escape(s@.take(i + 1))));
            }
        } else {
            let cs = s.substring_char(i, i + 1);
            out.append(cs);
            proof {
                assert(cs@ =~= seq![s@[i as int]]);
                assert(json_escape_char(s@[i as int]) =~= seq![s@[i as int]]);
            }
        }
        proof {
            assert(out@ =~= old(out)@ + json_escape(s@.take(i + 1)));
        }
        i = i + 1;
    }
    proof {
        assert(s@.take(n as int) =~= s@);
    }
}


/// Whether the literal `lit` stands in `s` at code point `at`.
pub open spec fn lit_at(s: Seq<char>, lit: Seq<char>, at: int) -> bool {
    0 <= at && at + lit.len() <= s.len() && s.subrange(at, at + lit.len()) == lit
}

/// Test whether `lit` stands in `s` at code point `at`.
pub fn starts_with_at(s: &str, lit: &str, at: usize) -> (r: bool)
    requires
        at <= s@.len(),
    ensures
        r == lit_at(s@, lit@, at as int),
{
    let n = s.unicode_len();
    let l = lit.unicode_len();
    if l > n - at {
        return false;
    }
    let mut i: usize = 0;
    while i < l
        invariant
            0 <= i <= l,
            at + l <= n,
            n == s@.len(),
            l == lit@.len(),
            forall|k: int| 0 <= k < i ==> s@[at + k] == lit@[k],
        decreases l - i,
    {
        if s.get_char(at + i) != lit.get_char(i) {
            proof {
                assert(s@[at + i] != lit@[i as int]);
                if lit_at(s@, lit@, at as int) {
                    assert(s@.subrange(at as int, at + lit@.len())[i as int] == lit@[i as int]);
                }
            }
            return false;
        }
        i = i + 1;
    }
    proof {
        assert(s@.subrange(at as int, at + lit@.len()) =~= lit@);
    }
    true
}

} // verus!
