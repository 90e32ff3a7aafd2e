use vstd::prelude::*;

verus! {

/// The character of a decimal digit.
pub open spec fn digit_char(d: nat) -> char {
    if d == 0 { '0' }
    else if d == 1 { '1' }
    else if d == 2 { '2' }
    else if d == 3 { '3' }
    else if d == 4 { '4' }
    else if d == 5 { '5' }
    else if d == 6 { '6' }
    else if d == 7 { '7' }
    else if d == 8 { '8' }
    else { '9' }
}

pub open spec fn is_digit(c: char) -> bool {
    '0' <= c && c <= '9'
}

pub open spec fn digit_value(c: char) -> nat {
    (c as u32 - '0' as u32) as nat
}

pub open spec fn is_hex_char(c: char) -> bool {
    ('0' <= c && c <= '9') || ('a' <= c && c <= 'f') || ('A' <= c && c <= 'F')
}

/// `n` written in decimal, without leading zeros.
pub open spec fn decimal(n: nat) -> Seq<char>
    decreases n,
{
    if n < 10 {
        seq![digit_char(n)]
    } else {
        decimal(n / 10).push(digit_char(n % 10))
    }
}

/// The number that the digits `s` spell in decimal (0 for no digits).
pub open spec fn decimal_value(s: Seq<char>) -> nat
    decreases s.len(),
{
    if s.len() == 0 {
        0
    } else {
        decimal_value(s.drop_last()) * 10 + digit_value(s.last())
    }
}

/// Whether `s` is one or more decimal digits.
pub open spec fn all_digits(s: Seq<char>) -> bool {
    s.len() > 0 && forall|i: int| 0 <= i < s.len() ==> is_digit(#[trigger] s[i])
}

fn digit_str(d: u64) -> (r: &'static str)
    requires
        d < 10,
    ensures
        r@ == seq![digit_char(d as nat)],
{
    proof {
        reveal_strlit("0");
        reveal_strlit("1");
        reveal_strlit("2");
        reveal_strlit("3");
        reveal_strlit("4");
        reveal_strlit("5");
        reveal_strlit("6");
        reveal_strlit("7");
        reveal_strlit("8");
        reveal_strlit("9");
    }
    if d == 0 { "0" }
    else if d == 1 { "1" }
    else if d == 2 { "2" }
    else if d == 3 { "3" }
    else if d == 4 { "4" }
    else if d == 5 { "5" }
    else if d == 6 { "6" }
    else if d == 7 { "7" }
    else if d == 8 { "8" }
    else { "9" }
}

/// Appends `n` in decimal to `s`.
pub fn push_decimal(s: &mut String, n: u64)
    ensures
        final(s)@ == old(s)@ + decimal(n as nat),
    decreases n,
{
    if n >= 10 {
        push_decimal(s, n / 10);
    }
    s.append(digit_str(n % 10));
    proof {
        if n >= 10 {
            assert(old(s)@ + decimal(n as nat) =~= old(s)@ + decimal((n / 10) as nat) + seq![digit_char((n % 10) as nat)]);
        } else {
            assert(decimal(n as nat) == seq![digit_char(n as nat)]);
        }
    }
}

/// Reads the decimal number spelled by `s[from..to]`, or `None` when that range is empty,
/// holds a character other than a digit, or spells a number above `max`.
pub fn read_decimal(s: &str, from: usize, to: usize, max: u64) -> (r: Option<u64>)
    requires
        from <= to <= s@.len(),
    ensures
        r is Some <==> (all_digits(s@.subrange(from as int, to as int))
            && decimal_value(s@.subrange(from as int, to as int)) <= max),
        r is Some ==> r->0 == decimal_value(s@.subrange(from as int, to as int)),
{
    if from == to {
        return None;
    }
    let mut value: u64 = 0;
    let mut i: usize = from;
    while i < to
        invariant
            from <= i <= to <= s@.len(),
            all_digits(s@.subrange(from as int, i as int)) || i == from,
            value == decimal_value(s@.subrange(from as int, i as int)),
            value <= max,
        decreases to - i,
    {
        let c = s.get_char(i);
        proof {
            assert(s@.subrange(from as int, i + 1).drop_last() =~= s@.subrange(from as int, i as int));
        }
        if !('0' <= c && c <= '9') {
            proof {
                assert(s@.subrange(from as int, to as int)[i - from] == c);
            }
            return None;
        }
        let d = (c as u32 - '0' as u32) as u64;
        if d > max || value > (max - d) / 10 {
            proof {
                let full = s@.subrange(from as int, to as int);
                assert(full.subrange(0, i + 1 - from) =~= s@.subrange(from as int, i + 1));
                assert(decimal_value(s@.subrange(from as int, i + 1)) == value * 10 + d);
                assert(value * 10 + d > max) by (nonlinear_arith)
                    requires d > max || value > (max - d) / 10, d <= 9;
                if all_digits(full) {
                    lemma_decimal_prefix_grows(full, (i + 1 - from) as int);
                }
            }
            return None;
        }
        proof {
            assert(value * 10 + d <= max) by (nonlinear_arith)
                requires value <= (max - d) / 10, d <= max;
        }
        value = value * 10 + d;
        i = i + 1;
    }
    Some(value)
}

/// The value of a digit string is at least that of each of its prefixes.
proof fn lemma_decimal_prefix_grows(s: Seq<char>, k: int)
    requires
        0 <= k <= s.len(),
        forall|i: int| 0 <= i < s.len() ==> is_digit(#[trigger] s[i]),
    ensures
        decimal_value(s) >= decimal_value(s.subrange(0, k)),
    decreases s.len(),
{
    if k < s.len() {
        assert(s.drop_last().subrange(0, k) =~= s.subrange(0, k));
        lemma_decimal_prefix_grows(s.drop_last(), k);
    } else {
        assert(s.subrange(0, k) =~= s);
    }
}


/// The lowercase hexadecimal digit of `d` (below 16).
pub open spec fn hex_digit(d: nat) -> char {
    if d < 10 { digit_char(d) }
    else if d == 10 { 'a' }
    else if d == 11 { 'b' }
    else if d == 12 { 'c' }
    else if d == 13 { 'd' }
    else if d == 14 { 'e' }
    else { 'f' }
}

/// `bytes` in lowercase hexadecimal, two digits per byte, high digit first.
pub open spec fn hex_of(bytes: Seq<u8>) -> Seq<char>
    decreases bytes.len(),
{
    if bytes.len() == 0 {
        Seq::empty()
    } else {
        hex_of(bytes.drop_last()) + seq![
            hex_digit((bytes.last() / 16) as nat),
            hex_digit((bytes.last() % 16) as nat),
        ]
    }
}

fn hex_digit_str(d: u8) -> (r: &'static str)
    requires
        d < 16,
    ensures
        r@ == seq![hex_digit(d as nat)],
{
    if d < 10 {
        digit_str(d as u64)
    } else {
        proof {
            reveal_strlit("a");
            reveal_strlit("b");
            reveal_strlit("c");
            reveal_strlit("d");
            reveal_strlit("e");
            reveal_strlit("f");
        }
        if d == 10 { "a" }
        else if d == 11 { "b" }
        else if d == 12 { "c" }
        else if d == 13 { "d" }
        else if d == 14 { "e" }
        else { "f" }
    }
}

/// Writes `bytes` in lowercase hexadecimal.
pub fn hex_encode(bytes: &Vec<u8>) -> (r: String)
    ensures
        r@ == hex_of(bytes@),
{
    let mut r = String::new();
    let mut i: usize = 0;
    while i < bytes.len()
        invariant
            i <= bytes@.len(),
            r@ == hex_of(bytes@.subrange(0, i as int)),
        decreases bytes.len() - i,
    {
        let b = bytes[i];
        r.append(hex_digit_str(b / 16));
        r.append(hex_digit_str(b % 16));
        proof {
            assert(bytes@.subrange(0, i + 1).drop_last() =~= bytes@.subrange(0, i as int));
            assert(r@ =~= hex_of(bytes@.subrange(0, i + 1)));
        }
        i = i + 1;
    }
    proof {
        assert(bytes@.subrange(0, bytes@.len() as int) =~= bytes@);
    }
    r
}

/// The first position at or after `from` where `s` holds `c`, or the length of `s`.
pub open spec fn find_char(s: Seq<char>, c: char, from: int) -> int
    decreases s.len() - from,
{
    if from >= s.len() {
        s.len() as int
    } else if s[from] == c {
        from
    } else {
        find_char(s, c, from + 1)
    }
}

pub fn find_char_exec(s: &str, len: usize, c: char, from: usize) -> (r: usize)
    requires
        len == s@.len(),
        from <= len,
    ensures
        r as int == find_char(s@, c, from as int),
        from <= r <= len,
{
    let mut i = from;
    while i < len && s.get_char(i) != c
        invariant
            from <= i <= len,
            len == s@.len(),
            find_char(s@, c, i as int) == find_char(s@, c, from as int),
        decreases len - i,
    {
        i = i + 1;
    }
    i
}

/// The fields of `s[start..]` between the separators `sep`, the current one starting at
/// `start` and scanned up to `i`.
pub open spec fn fields_from(s: Seq<char>, sep: char, start: int, i: int) -> Seq<Seq<char>>
    decreases s.len() - i,
{
    if i >= s.len() {
        seq![s.subrange(start, s.len() as int)]
    } else if s[i] == sep {
        seq![s.subrange(start, i)] + fields_from(s, sep, i + 1, i + 1)
    } else {
        fields_from(s, sep, start, i + 1)
    }
}

/// The fields of `s` between the separators `sep`; there is always at least one.
pub open spec fn fields(s: Seq<char>, sep: char) -> Seq<Seq<char>> {
    fields_from(s, sep, 0, 0)
}

/// The views of a list of strings.
pub open spec fn views(v: Seq<String>) -> Seq<Seq<char>> {
    Seq::new(v.len(), |i: int| v[i]@)
}

/// Splits `s` at every `sep`.
pub fn split_fields(s: &str, sep: char) -> (r: Vec<String>)
    ensures
        views(r@) == fields(s@, sep),
{
    let len = s.unicode_len();
    let mut out: Vec<String> = Vec::new();
    let mut start: usize = 0;
    let mut i: usize = 0;
    while i < len
        invariant
            start <= i <= len,
            len == s@.len(),
            views(out@) + fields_from(s@, sep, start as int, i as int) == fields(s@, sep),
        decreases len - i,
    {
        if s.get_char(i) == sep {
            let piece = s.substring_char(start, i).to_owned();
            proof {
                assert(views(out@.push(piece)) =~= views(out@).push(piece@));
                assert(views(out@.push(piece)) + fields_from(s@, sep, i + 1, i + 1)
                    =~= views(out@) + fields_from(s@, sep, start as int, i as int));
            }
            out.push(piece);
            start = i + 1;
        }
        i = i + 1;
    }
    let last = s.substring_char(start, len).to_owned();
    proof {
        assert(views(out@.push(last)) =~= views(out@) + fields_from(s@, sep, start as int, i as int));
    }
    out.push(last);
    out
}

/// The value of a hexadecimal digit.
pub open spec fn hex_value(c: char) -> nat {
    if '0' <= c && c <= '9' {
        (c as u32 - '0' as u32) as nat
    } else if 'a' <= c && c <= 'f' {
        (c as u32 - 'a' as u32 + 10) as nat
    } else {
        (c as u32 - 'A' as u32 + 10) as nat
    }
}

/// The bytes that pairs of hexadecimal digits spell, high digit first.
pub open spec fn hex_bytes(s: Seq<char>) -> Seq<u8> {
    Seq::new(s.len() / 2, |i: int| (hex_value(s[2 * i]) * 16 + hex_value(s[2 * i + 1])) as u8)
}

pub fn hex_value_exec(c: char) -> (r: u8)
    requires
        is_hex_char(c),
    ensures
        r as nat == hex_value(c),
        r < 16,
{
    if '0' <= c && c <= '9' {
        (c as u32 - '0' as u32) as u8
    } else if 'a' <= c && c <= 'f' {
        (c as u32 - 'a' as u32 + 10) as u8
    } else {
        (c as u32 - 'A' as u32 + 10) as u8
    }
}

/// Reads pairs of hexadecimal digits into bytes; `None` for an odd length or a character
/// that is not a hex digit.
pub fn hex_decode(s: &str) -> (r: Option<Vec<u8>>)
    ensures
        r is Some <==> (s@.len() % 2 == 0 && forall|i: int| 0 <= i < s@.len() ==> is_hex_char(#[trigger] s@[i])),
        r is Some ==> r->0@ == hex_bytes(s@),
{
    let len = s.unicode_len();
    if len % 2 != 0 {
        return None;
    }
    let mut out: Vec<u8> = Vec::new();
    let mut i: usize = 0;
    while i < len / 2
        invariant
            len == s@.len(),
            len % 2 == 0,
            i <= len / 2,
            forall|k: int| 0 <= k < 2 * i ==> is_hex_char(#[trigger] s@[k]),
            out@ =~= hex_bytes(s@).subrange(0, i as int),
        decreases len / 2 - i,
    {
        let hi = s.get_char(2 * i);
        let lo = s.get_char(2 * i + 1);
        if !(('0' <= hi && hi <= '9') || ('a' <= hi && hi <= 'f') || ('A' <= hi && hi <= 'F')) {
            return None;
        }
        if !(('0' <= lo && lo <= '9') || ('a' <= lo && lo <= 'f') || ('A' <= lo && lo <= 'F')) {
            return None;
        }
        out.push(hex_value_exec(hi) * 16 + hex_value_exec(lo));
        proof {
            assert forall|k: int| 0 <= k < 2 * i + 2 implies is_hex_char(#[trigger] s@[k]) by {
                if k == 2 * i {
                } else if k == 2 * i + 1 {
                }
            }
        }
        i = i + 1;
    }
    proof {
        assert(hex_bytes(s@).subrange(0, (len / 2) as int) =~= hex_bytes(s@));
    }
    Some(out)
}

/// Decimal writing is read back exactly, with digits only.
pub proof fn lemma_decimal_round_trip(n: nat)
    ensures
        all_digits(decimal(n)),
        decimal_value(decimal(n)) == n,
        decimal(n).len() >= 1,
    decreases n,
{
    let d = n % 10;
    assert(digit_value(digit_char(d)) == d && is_digit(digit_char(d))) by {
        if d == 0 {} else if d == 1 {} else if d == 2 {} else if d == 3 {} else if d == 4 {}
        else if d == 5 {} else if d == 6 {} else if d == 7 {} else if d == 8 {} else {}
    }
    if n < 10 {
        let s = decimal(n);
        assert(s.drop_last() =~= Seq::<char>::empty());
        assert(decimal_value(Seq::<char>::empty()) == 0);
        assert(decimal_value(s) == decimal_value(s.drop_last()) * 10 + digit_value(s.last()));
    } else {
        lemma_decimal_round_trip(n / 10);
        let s = decimal(n);
        assert(s.drop_last() =~= decimal(n / 10));
        assert(forall|i: int| 0 <= i < s.len() - 1 ==> s[i] == #[trigger] decimal(n / 10)[i]);
        assert(decimal_value(s) == decimal_value(s.drop_last()) * 10 + digit_value(s.last()));
        assert(n == (n / 10) * 10 + n % 10);
    }
}

/// With no `c` from `from` on, the search for `c` ends at the end.
pub proof fn lemma_find_char_absent(s: Seq<char>, c: char, from: int)
    requires
        0 <= from <= s.len(),
        forall|i: int| from <= i < s.len() ==> s[i] != c,
    ensures
        find_char(s, c, from) == s.len(),
    decreases s.len() - from,
{
    if from < s.len() {
        lemma_find_char_absent(s, c, from + 1);
    }
}

} // verus!
