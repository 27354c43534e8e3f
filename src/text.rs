//! The canonical text form `XXXXXXXX-XXXX-XXXX-XXXX-XXXXXXXXXXXX`.
use vstd::prelude::*;
use crate::guid::Guid;
use vstd::string::StringSliceAdditionalSpecFns;
use vstd::utf8::{encode_utf8, is_ascii_chars, is_ascii_chars_encode_utf8};

verus! {

/// Why a text did not parse as an identifier.
#[derive(Clone, Copy, Debug, PartialEq, Eq, Structural)]
pub enum GuidParseError {
    /// Wrong length, a missing hyphen, or a character that is not a hex digit.
    InvalidFormat,
}

/// `16` to the power `n`.
pub open spec fn pow16(n: nat) -> nat
    decreases n,
{
    if n == 0 {
        1
    } else {
        16 * pow16((n - 1) as nat)
    }
}

/// The ASCII code of the upper-case hex digit for `d` (`d < 16`).
pub open spec fn hex_byte(d: nat) -> u8 {
    if d < 10 {
        (48 + d) as u8
    } else {
        (55 + d) as u8
    }
}

/// The `n` upper-case hex digits of `v`, most significant first, zero-padded.
pub open spec fn hex_text(v: nat, n: nat) -> Seq<char>
    decreases n,
{
    if n == 0 {
        Seq::empty()
    } else {
        hex_text(v / 16, (n - 1) as nat).push(hex_byte(v % 16) as char)
    }
}

/// The text form of `g`: upper-case hex, hyphens after the 8th, 12th, 16th and 20th digit.
pub open spec fn format_text(g: Guid) -> Seq<char> {
    hex_text(g.data1 as nat, 8) + seq!['-'] + hex_text(g.data2 as nat, 4) + seq!['-']
        + hex_text(g.data3 as nat, 4) + seq!['-'] + hex_text(g.data4[0] as nat, 2)
        + hex_text(g.data4[1] as nat, 2) + seq!['-'] + hex_text(g.data4[2] as nat, 2)
        + hex_text(g.data4[3] as nat, 2) + hex_text(g.data4[4] as nat, 2)
        + hex_text(g.data4[5] as nat, 2) + hex_text(g.data4[6] as nat, 2)
        + hex_text(g.data4[7] as nat, 2)
}

/// `b` is the code of a hex digit, either case.
pub open spec fn is_hex(b: u8) -> bool {
    (48 <= b <= 57) || (65 <= b <= 70) || (97 <= b <= 102)
}

/// The value of the hex digit `b` (0 where `b` is none).
pub open spec fn digit_value(b: u8) -> nat {
    if 48 <= b <= 57 {
        (b - 48) as nat
    } else if 65 <= b <= 70 {
        (b - 55) as nat
    } else if 97 <= b <= 102 {
        (b - 87) as nat
    } else {
        0
    }
}

/// The number that the hex digits `s` spell, most significant first.
pub open spec fn hex_number(s: Seq<u8>) -> nat
    decreases s.len(),
{
    if s.len() == 0 {
        0
    } else {
        hex_number(s.drop_last()) * 16 + digit_value(s.last())
    }
}

/// The positions of the four hyphens.
pub open spec fn is_hyphen_pos(i: int) -> bool {
    i == 8 || i == 13 || i == 18 || i == 23
}

/// Where the two digits of byte `k` of `data4` begin.
pub open spec fn byte_start(k: int) -> int {
    if k < 2 {
        19 + 2 * k
    } else {
        20 + 2 * k
    }
}

/// `t` has the canonical shape: 36 bytes, hyphens at their four places, hex digits elsewhere.
pub open spec fn well_formed_text(t: Seq<u8>) -> bool {
    &&& t.len() == 36
    &&& forall|i: int|
        0 <= i < 36 ==> if is_hyphen_pos(i) {
            #[trigger] t[i] == 45
        } else {
            is_hex(t[i])
        }
}

/// The fields of `g` are the numbers that the digit groups of `t` spell.
pub open spec fn denotes(t: Seq<u8>, g: Guid) -> bool {
    &&& g.data1 as nat == hex_number(t.subrange(0, 8))
    &&& g.data2 as nat == hex_number(t.subrange(9, 13))
    &&& g.data3 as nat == hex_number(t.subrange(14, 18))
    &&& forall|k: int|
        0 <= k < 8 ==> #[trigger] g.data4[k] as nat == hex_number(
            t.subrange(byte_start(k), byte_start(k) + 2),
        )
}

/// The one-byte codes of the characters `s`.
pub open spec fn ascii_bytes(s: Seq<char>) -> Seq<u8> {
    Seq::new(s.len(), |i: int| s[i] as u8)
}

proof fn lemma_ascii_concat(a: Seq<char>, b: Seq<char>)
    requires
        is_ascii_chars(a),
        is_ascii_chars(b),
    ensures
        is_ascii_chars(a + b),
{
    assert forall|i: int| 0 <= i < (a + b).len() implies '\0' <= #[trigger] (a + b)[i] <= '\u{7f}' by {
        if i >= a.len() {
            assert((a + b)[i] == b[i - a.len()]);
        }
    }
}

proof fn lemma_hex_text(v: nat, n: nat)
    requires
        v < pow16(n),
    ensures
        hex_text(v, n).len() == n,
        forall|i: int|
            0 <= i < n ==> is_hex(#[trigger] hex_text(v, n)[i] as u8) && hex_text(v, n)[i]
                <= '\u{7f}',
        hex_number(ascii_bytes(hex_text(v, n))) == v,
        is_ascii_chars(hex_text(v, n)),
    decreases n,
{
    if n > 0 {
        let p = pow16((n - 1) as nat);
        assert(v / 16 < p) by (nonlinear_arith)
            requires
                v < 16 * p,
        ;
        lemma_hex_text(v / 16, (n - 1) as nat);
        let h = hex_text(v / 16, (n - 1) as nat);
        let c = hex_byte(v % 16) as char;
        assert(ascii_bytes(h.push(c)).drop_last() =~= ascii_bytes(h));
    }
}

/// Formatting and then parsing gives the identifier back: the text form of `g` is well
/// formed, and `g` is the one identifier that it denotes.
pub proof fn lemma_parse_format(g: Guid)
    ensures
        well_formed_text(encode_utf8(format_text(g))),
        denotes(encode_utf8(format_text(g)), g),
        forall|h: Guid| denotes(encode_utf8(format_text(g)), h) ==> h == g,
{
    reveal_with_fuel(pow16, 9);
    let f = format_text(g);
    lemma_hex_text(g.data1 as nat, 8);
    lemma_hex_text(g.data2 as nat, 4);
    lemma_hex_text(g.data3 as nat, 4);
    assert forall|k: int| 0 <= k < 8 implies #[trigger] hex_text(g.data4[k] as nat, 2).len() == 2
        && hex_number(ascii_bytes(hex_text(g.data4[k] as nat, 2))) == g.data4[k] && is_ascii_chars(
        hex_text(g.data4[k] as nat, 2)) && forall|i: int|
        0 <= i < 2 ==> is_hex(#[trigger] hex_text(g.data4[k] as nat, 2)[i] as u8) && hex_text(
        g.data4[k] as nat, 2)[i] <= '\u{7f}' by {
        lemma_hex_text(g.data4[k] as nat, 2);
    }
    let dash = seq!['-'];
    assert(is_ascii_chars(dash));
    let d4 = g.data4;
    lemma_ascii_concat(hex_text(g.data1 as nat, 8), dash);
    let f1 = hex_text(g.data1 as nat, 8) + dash;
    lemma_ascii_concat(f1, hex_text(g.data2 as nat, 4));
    lemma_ascii_concat(f1 + hex_text(g.data2 as nat, 4), dash);
    let f2 = f1 + hex_text(g.data2 as nat, 4) + dash;
    lemma_ascii_concat(f2, hex_text(g.data3 as nat, 4));
    lemma_ascii_concat(f2 + hex_text(g.data3 as nat, 4), dash);
    let f3 = f2 + hex_text(g.data3 as nat, 4) + dash;
    assert(is_ascii_chars(hex_text(d4[0] as nat, 2)));
    assert(is_ascii_chars(hex_text(d4[1] as nat, 2)));
    lemma_ascii_concat(f3, hex_text(d4[0] as nat, 2));
    lemma_ascii_concat(f3 + hex_text(d4[0] as nat, 2), hex_text(d4[1] as nat, 2));
    let f4 = f3 + hex_text(d4[0] as nat, 2) + hex_text(d4[1] as nat, 2);
    lemma_ascii_concat(f4, dash);
    let f5 = f4 + dash;
    assert(is_ascii_chars(hex_text(d4[2] as nat, 2)));
    lemma_ascii_concat(f5, hex_text(d4[2] as nat, 2));
    let f6 = f5 + hex_text(d4[2] as nat, 2);
    assert(is_ascii_chars(hex_text(d4[3] as nat, 2)));
    lemma_ascii_concat(f6, hex_text(d4[3] as nat, 2));
    let f7 = f6 + hex_text(d4[3] as nat, 2);
    assert(is_ascii_chars(hex_text(d4[4] as nat, 2)));
    lemma_ascii_concat(f7, hex_text(d4[4] as nat, 2));
    let f8 = f7 + hex_text(d4[4] as nat, 2);
    assert(is_ascii_chars(hex_text(d4[5] as nat, 2)));
    lemma_ascii_concat(f8, hex_text(d4[5] as nat, 2));
    let f9 = f8 + hex_text(d4[5] as nat, 2);
    assert(is_ascii_chars(hex_text(d4[6] as nat, 2)));
    lemma_ascii_concat(f9, hex_text(d4[6] as nat, 2));
    let f10 = f9 + hex_text(d4[6] as nat, 2);
    assert(is_ascii_chars(hex_text(d4[7] as nat, 2)));
    lemma_ascii_concat(f10, hex_text(d4[7] as nat, 2));
    assert(is_ascii_chars(f));
    is_ascii_chars_encode_utf8(f);
    let t = encode_utf8(f);
    assert(t =~= ascii_bytes(f));
    assert(t.subrange(0, 8) =~= ascii_bytes(hex_text(g.data1 as nat, 8)));
    assert(t.subrange(9, 13) =~= ascii_bytes(hex_text(g.data2 as nat, 4)));
    assert(t.subrange(14, 18) =~= ascii_bytes(hex_text(g.data3 as nat, 4)));
    assert forall|k: int| 0 <= k < 8 implies #[trigger] g.data4[k] as nat == hex_number(
        t.subrange(byte_start(k), byte_start(k) + 2),
    ) by {
        assert(t.subrange(byte_start(k), byte_start(k) + 2) =~= ascii_bytes(
            hex_text(g.data4[k] as nat, 2),
        ));
    }
    assert forall|h: Guid| denotes(t, h) implies h == g by {
        assert(h.data4 =~= g.data4);
    }
}

/// Relies on String::push: appends one character.
#[verifier::external_body]
fn push_char(s: &mut String, c: char)
    ensures
        final(s)@ == old(s)@.push(c),
{
    s.push(c)
}

/// The upper-case hex digit for `d`.
fn hex_char(d: u32) -> (c: char)
    requires
        d < 16,
    ensures
        c == hex_byte(d as nat) as char,
{
    if d < 10 {
        ((d + 48) as u8) as char
    } else {
        ((d + 55) as u8) as char
    }
}

/// Appends the `n` hex digits of `v`, most significant first.
fn push_hex(s: &mut String, v: u32, n: usize)
    requires
        n <= 8,
    ensures
        final(s)@ == old(s)@ + hex_text(v as nat, n as nat),
    decreases n,
{
    if n > 0 {
        push_hex(s, v / 16, n - 1);
        let c = hex_char(v % 16);
        push_char(s, c);
        assert(s@ =~= old(s)@ + hex_text(v as nat, n as nat));
    }
}

/// The value of the hex digit `b`, if it is one.
fn hex_digit(b: u8) -> (r: Option<u32>)
    ensures
        r is Some <==> is_hex(b),
        r matches Some(d) ==> d as nat == digit_value(b) && d < 16,
{
    if 48 <= b && b <= 57 {
        Some((b - 48) as u32)
    } else if 65 <= b && b <= 70 {
        Some((b - 55) as u32)
    } else if 97 <= b && b <= 102 {
        Some((b - 87) as u32)
    } else {
        None
    }
}

proof fn lemma_pow16_mono(a: nat, b: nat)
    requires
        a <= b,
    ensures
        pow16(a) <= pow16(b),
    decreases b,
{
    if a < b {
        lemma_pow16_mono(a, (b - 1) as nat);
    }
}

/// Reads the `n` hex digits of `t` from `start` on.
fn read_hex(t: &[u8], start: usize, n: usize) -> (r: Option<u32>)
    requires
        start + n <= t@.len() <= usize::MAX,
        n <= 8,
    ensures
        r is Some <==> forall|j: int| start <= j < start + n ==> is_hex(#[trigger] t@[j]),
        r matches Some(v) ==> v as nat == hex_number(t@.subrange(start as int, start + n)) && v
            < pow16(n as nat),
{
    let mut acc: u32 = 0;
    let mut i: usize = start;
    let end = start + n;
    proof {
        reveal_with_fuel(pow16, 9);
    }
    while i < end
        invariant
            end == start + n,
            start <= i <= start + n,
            start + n <= t@.len(),
            n <= 8,
            forall|j: int| start <= j < i ==> is_hex(#[trigger] t@[j]),
            acc as nat == hex_number(t@.subrange(start as int, i as int)),
            acc < pow16((i - start) as nat),
            pow16(8) == 0x1_0000_0000,
        decreases end - i,
    {
        match hex_digit(t[i]) {
            None => {
                return None;
            },
            Some(d) => {
                let ghost k = (i - start) as nat;
                proof {
                    assert(t@.subrange(start as int, i + 1).drop_last() =~= t@.subrange(
                        start as int,
                        i as int,
                    ));
                    lemma_pow16_mono(k + 1, 8);
                    let p = pow16(k);
                    assert(pow16(k + 1) == 16 * p);
                    assert(acc * 16 + d < 16 * p) by (nonlinear_arith)
                        requires
                            acc < p,
                            d < 16,
                    ;
                }
                acc = acc * 16 + d;
            },
        }
        i = i + 1;
    }
    Some(acc)
}

/// Parses the bytes of a text form.
fn parse_bytes(t: &[u8]) -> (r: Result<Guid, GuidParseError>)
    ensures
        match r {
            Ok(g) => well_formed_text(t@) && denotes(t@, g),
            Err(e) => !well_formed_text(t@) && e == GuidParseError::InvalidFormat,
        },
{
    if t.len() != 36 {
        return Err(GuidParseError::InvalidFormat);
    }
    if t[8] != 45 || t[13] != 45 || t[18] != 45 || t[23] != 45 {
        return Err(GuidParseError::InvalidFormat);
    }
    let starts: [usize; 8] = [19, 21, 24, 26, 28, 30, 32, 34];
    let a = match read_hex(t, 0, 8) {
        Some(v) => v,
        None => return Err(GuidParseError::InvalidFormat),
    };
    let b = match read_hex(t, 9, 4) {
        Some(v) => v,
        None => return Err(GuidParseError::InvalidFormat),
    };
    let c = match read_hex(t, 14, 4) {
        Some(v) => v,
        None => return Err(GuidParseError::InvalidFormat),
    };
    proof {
        reveal_with_fuel(pow16, 9);
    }
    let mut d: [u8; 8] = [0u8; 8];
    let mut k: usize = 0;
    while k < 8
        invariant
            0 <= k <= 8,
            t@.len() == 36,
            starts@ == seq![19usize, 21, 24, 26, 28, 30, 32, 34],
            forall|m: int|
                0 <= m < k ==> is_hex(t@[#[trigger] byte_start(m)]) && is_hex(
                    t@[byte_start(m) + 1],
                ),
            forall|m: int| 0 <= m < k ==> #[trigger] d[m] as nat == hex_number(
                t@.subrange(byte_start(m), byte_start(m) + 2),
            ),
        decreases 8 - k,
    {
        let v = match read_hex(t, starts[k], 2) {
            Some(v) => v,
            None => return Err(GuidParseError::InvalidFormat),
        };
        proof {
            reveal_with_fuel(pow16, 3);
            assert(t@[byte_start(k as int)] == t@[starts[k as int] as int]);
        }
        d[k] = v as u8;
        k = k + 1;
    }
    proof {
        assert forall|i: int| 19 <= i < 36 && i != 23 implies is_hex(t@[i]) by {
            let m = if i < 23 {
                (i - 19) / 2
            } else {
                (i - 20) / 2
            };
            assert(byte_start(m) == i || byte_start(m) + 1 == i);
        }
        assert(well_formed_text(t@));
    }
    Ok(Guid { data1: a, data2: b as u16, data3: c as u16, data4: d })
}

impl Guid {
    /// Parses the text form `XXXXXXXX-XXXX-XXXX-XXXX-XXXXXXXXXXXX`, hex digits in either case.
    /// Nothing else is accepted: no braces, no blanks.
    pub fn parse(s: &str) -> (r: Result<Guid, GuidParseError>)
        ensures
            match r {
                Ok(g) => well_formed_text(s.spec_bytes()) && denotes(s.spec_bytes(), g),
                Err(e) => !well_formed_text(s.spec_bytes()) && e == GuidParseError::InvalidFormat,
            },
    {
        parse_bytes(s.as_bytes())
    }

    /// The text form: upper-case hex digits, 8-4-4-4-12, joined by hyphens.
    pub fn to_string(&self) -> (r: String)
        ensures
            r@ == format_text(*self),
    {
        let mut s = String::new();
        push_hex(&mut s, self.data1, 8);
        push_char(&mut s, '-');
        push_hex(&mut s, self.data2 as u32, 4);
        push_char(&mut s, '-');
        push_hex(&mut s, self.data3 as u32, 4);
        push_char(&mut s, '-');
        push_hex(&mut s, self.data4[0] as u32, 2);
        push_hex(&mut s, self.data4[1] as u32, 2);
        push_char(&mut s, '-');
        push_hex(&mut s, self.data4[2] as u32, 2);
        push_hex(&mut s, self.data4[3] as u32, 2);
        push_hex(&mut s, self.data4[4] as u32, 2);
        push_hex(&mut s, self.data4[5] as u32, 2);
        push_hex(&mut s, self.data4[6] as u32, 2);
        push_hex(&mut s, self.data4[7] as u32, 2);
        assert(s@ =~= format_text(*self));
        s
    }
}

} // verus!
