//! Pure translation between a 64-bit address and its decomposed
//! page-table-walk record.
//!
//! The layout is the canonical 48-bit, 4-level one: bits 63..48 select the
//! VA range (all zeros for the bottom range, all ones for the top range),
//! bits 47..39 / 38..30 / 29..21 / 20..12 are the four 9-bit table indices,
//! and bits 11..0 are the 12-bit page offset.

use crate::digits::{
    dec_digit_val, dec_seq_of, dec_value_of, digit_char, hex_digit_val, hex_seq_of, hex_value_of,
    is_dec_digit, is_hex_digit, valid_dec, valid_hex,
};
use vstd::prelude::*;

verus! {

/// Which half of the canonical address space an address lives in: bits
/// 63..48 are all zeros (`Bottom`) or all ones (`Top`).
#[derive(Clone, Copy, PartialEq, Eq, Structural, Debug)]
pub enum VaRange {
    Bottom,
    Top,
}

/// An address broken into its page-table-walk fields. Well-formed values
/// keep each index under 512 (9 bits) and the offset under 4096 (12 bits).
#[derive(Clone, Copy, PartialEq, Eq, Structural, Debug)]
pub struct DecomposedAddress {
    pub va_range: VaRange,
    pub l3: u16,
    pub l2: u16,
    pub l1: u16,
    pub l0: u16,
    pub offset: u16,
}

/// Why an address or a field edit was rejected.
#[derive(Clone, Copy, PartialEq, Eq, Structural, Debug)]
pub enum AddressError {
    /// The address text is not hexadecimal (after an optional `0x` prefix).
    MalformedHex,
    /// Bits 63..48 of the address are neither all zeros nor all ones.
    NonCanonicalAddress,
    /// A field value is missing, malformed, or at or above its bound.
    FieldOutOfRange,
}

impl DecomposedAddress {
    /// Every field fits its bit width.
    pub open spec fn wf(self) -> bool {
        &&& self.l3 < 512
        &&& self.l2 < 512
        &&& self.l1 < 512
        &&& self.l0 < 512
        &&& self.offset < 4096
    }
}

/// The contribution of the VA range selector: the value of bits 63..48.
pub open spec fn range_base(r: VaRange) -> u64 {
    match r {
        VaRange::Bottom => 0,
        VaRange::Top => 0xFFFF_0000_0000_0000,
    }
}

/// The address denoted by a decomposed record.
pub open spec fn compose_spec(d: DecomposedAddress) -> u64 {
    range_base(d.va_range) | ((d.l3 as u64) << 39) | ((d.l2 as u64) << 30) | ((d.l1 as u64) << 21)
        | ((d.l0 as u64) << 12) | (d.offset as u64)
}

/// An address is canonical when bits 63..48 are uniformly zero or one.
pub open spec fn is_canonical(a: u64) -> bool {
    (a >> 48) == 0 || (a >> 48) == 0xFFFF
}

/// The decomposed record of an address; meaningful for canonical addresses.
pub open spec fn decompose_spec(a: u64) -> DecomposedAddress {
    DecomposedAddress {
        va_range: if (a >> 48) == 0xFFFF {
            VaRange::Top
        } else {
            VaRange::Bottom
        },
        l3: ((a >> 39) & 0x1FF) as u16,
        l2: ((a >> 30) & 0x1FF) as u16,
        l1: ((a >> 21) & 0x1FF) as u16,
        l0: ((a >> 12) & 0x1FF) as u16,
        offset: (a & 0xFFF) as u16,
    }
}

/// Combines the fields of a well-formed record into the address it denotes.
pub fn compose(d: &DecomposedAddress) -> (a: u64)
    requires
        d.wf(),
    ensures
        a == compose_spec(*d),
{
    let base: u64 = match d.va_range {
        VaRange::Bottom => 0,
        VaRange::Top => 0xFFFF_0000_0000_0000,
    };
    base | ((d.l3 as u64) << 39) | ((d.l2 as u64) << 30) | ((d.l1 as u64) << 21) | (
    (d.l0 as u64) << 12) | (d.offset as u64)
}

/// Splits an address into its page-table-walk fields; rejects exactly the
/// addresses whose top 16 bits are neither all zeros nor all ones.
pub fn decompose(a: u64) -> (r: Result<DecomposedAddress, AddressError>)
    ensures
        r is Ok <==> is_canonical(a),
        r is Ok ==> r->Ok_0 == decompose_spec(a) && r->Ok_0.wf(),
        r is Err ==> r->Err_0 == AddressError::NonCanonicalAddress,
{
    let top = a >> 48;
    let va_range = if top == 0 {
        VaRange::Bottom
    } else if top == 0xFFFF {
        VaRange::Top
    } else {
        return Err(AddressError::NonCanonicalAddress);
    };
    assert((a >> 39) & 0x1FF < 512 && (a >> 30) & 0x1FF < 512 && (a >> 21) & 0x1FF < 512 && (a
        >> 12) & 0x1FF < 512 && a & 0xFFF < 4096) by (bit_vector);
    Ok(
        DecomposedAddress {
            va_range,
            l3: ((a >> 39) & 0x1FF) as u16,
            l2: ((a >> 30) & 0x1FF) as u16,
            l1: ((a >> 21) & 0x1FF) as u16,
            l0: ((a >> 12) & 0x1FF) as u16,
            offset: (a & 0xFFF) as u16,
        },
    )
}

/// What `parse_field` returns: the value of a non-empty all-decimal string,
/// provided it is below the bound; nothing otherwise.
pub open spec fn spec_parse_field(t: Seq<char>, bound: u64) -> Option<u64> {
    if valid_dec(t) && dec_value_of(t) < bound {
        Some(dec_value_of(t) as u64)
    } else {
        None
    }
}

/// Parses an unsigned decimal integer and checks it against an exclusive
/// upper bound, as the decomposed field editors require.
pub fn parse_field(text: &str, bound: u64) -> (r: Option<u64>)
    ensures
        r == spec_parse_field(text@, bound),
{
    let n = text.unicode_len();
    if n == 0 {
        return None;
    }
    let mut acc: u64 = 0;
    let mut big = false;
    let mut i: usize = 0;
    while i < n
        invariant
            n == text@.len(),
            i <= n,
            forall|j: int| 0 <= j < i ==> is_dec_digit(#[trigger] text@[j]),
            !big ==> acc == dec_value_of(text@.take(i as int)),
            big ==> dec_value_of(text@.take(i as int)) > u64::MAX,
        decreases n - i,
    {
        let c = text.get_char(i);
        let v = c as u32;
        if v < 48 || v > 57 {
            return None;
        }
        let d = (v - 48) as u64;
        proof {
            assert(text@.take(i + 1).drop_last() =~= text@.take(i as int));
            assert(text@.take(i + 1).last() == text@[i as int]);
            assert(dec_value_of(text@.take(i + 1)) == dec_value_of(text@.take(i as int)) * 10
                + dec_digit_val(text@[i as int]));
        }
        if !big {
            let widened = acc.checked_mul(10);
            match widened {
                Some(m) => {
                    match m.checked_add(d) {
                        Some(s) => {
                            acc = s;
                        },
                        None => {
                            big = true;
                        },
                    }
                },
                None => {
                    big = true;
                },
            }
        }
        i = i + 1;
    }
    proof {
        assert(text@.take(n as int) =~= text@);
    }
    if big {
        None
    } else if acc < bound {
        Some(acc)
    } else {
        None
    }
}

/// The address text with one optional leading `0x` or `0X` removed.
pub open spec fn strip_hex_prefix(t: Seq<char>) -> Seq<char> {
    if t.len() >= 2 && t[0] == '0' && (t[1] == 'x' || t[1] == 'X') {
        t.skip(2)
    } else {
        t
    }
}

/// What `parse_address` returns: the value of the hexadecimal digits after
/// an optional `0x` prefix, provided there is at least one digit and the
/// value fits in 64 bits; nothing otherwise.
pub open spec fn spec_parse_address(t: Seq<char>) -> Option<u64> {
    if valid_hex(strip_hex_prefix(t)) && hex_value_of(strip_hex_prefix(t)) <= u64::MAX {
        Some(hex_value_of(strip_hex_prefix(t)) as u64)
    } else {
        None
    }
}

/// Reads the hexadecimal digits of `text` from `start` on.
fn parse_hex_from(text: &str, start: usize) -> (r: Option<u64>)
    requires
        start <= text@.len(),
    ensures
        r == (if valid_hex(text@.skip(start as int)) && hex_value_of(text@.skip(start as int))
            <= u64::MAX {
            Some(hex_value_of(text@.skip(start as int)) as u64)
        } else {
            None
        }),
{
    let n = text.unicode_len();
    if n == start {
        return None;
    }
    let mut acc: u64 = 0;
    let mut big = false;
    let mut i: usize = start;
    while i < n
        invariant
            n == text@.len(),
            start <= i <= n,
            forall|j: int| start <= j < i ==> is_hex_digit(#[trigger] text@[j]),
            !big ==> acc == hex_value_of(text@.subrange(start as int, i as int)),
            big ==> hex_value_of(text@.subrange(start as int, i as int)) > u64::MAX,
        decreases n - i,
    {
        let c = text.get_char(i);
        let v = c as u32;
        let d: u64 = if v >= 48 && v <= 57 {
            (v - 48) as u64
        } else if v >= 65 && v <= 70 {
            (v - 55) as u64
        } else if v >= 97 && v <= 102 {
            (v - 87) as u64
        } else {
            proof {
                assert(!is_hex_digit(text@[i as int]));
                assert(text@.skip(start as int)[i - start] == text@[i as int]);
            }
            return None;
        };
        proof {
            let sub = text@.subrange(start as int, i as int);
            assert(text@.subrange(start as int, i + 1).drop_last() =~= sub);
            assert(text@.subrange(start as int, i + 1).last() == text@[i as int]);
            assert(hex_value_of(text@.subrange(start as int, i + 1)) == hex_value_of(sub) * 16
                + hex_digit_val(text@[i as int]));
        }
        if !big {
            let widened = acc.checked_mul(16);
            match widened {
                Some(m) => {
                    match m.checked_add(d) {
                        Some(w) => {
                            acc = w;
                        },
                        None => {
                            big = true;
                        },
                    }
                },
                None => {
                    big = true;
                },
            }
        }
        i = i + 1;
    }
    proof {
        assert(text@.subrange(start as int, n as int) =~= text@.skip(start as int));
    }
    if big {
        None
    } else {
        Some(acc)
    }
}

/// Parses an address as hexadecimal, with an optional `0x` or `0X` prefix.
pub fn parse_address(text: &str) -> (r: Option<u64>)
    ensures
        r == spec_parse_address(text@),
{
    let n = text.unicode_len();
    let start: usize = if n >= 2 && text.get_char(0) == '0' && {
        let c1 = text.get_char(1);
        c1 == 'x' || c1 == 'X'
    } {
        2
    } else {
        0
    };
    proof {
        assert(text@.skip(start as int) =~= strip_hex_prefix(text@));
    }
    parse_hex_from(text, start)
}

/// The one-character string of a digit value below 16.
fn digit_str(d: u64) -> (r: &'static str)
    requires
        d < 16,
    ensures
        r@ == seq![digit_char(d as nat)],
{
    proof {
        reveal_strlit("0");
        reveal_strlit("1");
        reveal_strlit("2");
        reveal_strlit("3");
        reveal_strlit("4");
        reveal_strlit("5");
        reveal_strlit("6");
        reveal_strlit("7");
        reveal_strlit("8");
        reveal_strlit("9");
        reveal_strlit("a");
        reveal_strlit("b");
        reveal_strlit("c");
        reveal_strlit("d");
        reveal_strlit("e");
        reveal_strlit("f");
    }
    let r: &'static str = match d {
        0 => "0",
        1 => "1",
        2 => "2",
        3 => "3",
        4 => "4",
        5 => "5",
        6 => "6",
        7 => "7",
        8 => "8",
        9 => "9",
        10 => "a",
        11 => "b",
        12 => "c",
        13 => "d",
        14 => "e",
        _ => "f",
    };
    proof {
        assert(r@ =~= seq![digit_char(d as nat)]);
    }
    r
}

/// Renders a value in decimal, without leading zeros, as the decomposed
/// field editors display it.
pub fn to_dec_string(n: u64) -> (r: String)
    ensures
        r@ == dec_seq_of(n as nat),
    decreases n,
{
    if n < 10 {
        let r = String::from_str(digit_str(n));
        proof {
            assert(r@ =~= dec_seq_of(n as nat));
        }
        r
    } else {
        let mut r = to_dec_string(n / 10);
        r.append(digit_str(n % 10));
        proof {
            assert(r@ =~= dec_seq_of(n as nat));
        }
        r
    }
}

/// Renders a value in lower-case hexadecimal, without a prefix, as the
/// address editor displays it.
pub fn to_hex_string(n: u64) -> (r: String)
    ensures
        r@ == hex_seq_of(n as nat),
    decreases n,
{
    if n < 16 {
        let r = String::from_str(digit_str(n));
        proof {
            assert(r@ =~= hex_seq_of(n as nat));
        }
        r
    } else {
        let mut r = to_hex_string(n / 16);
        r.append(digit_str(n % 16));
        proof {
            assert(r@ =~= hex_seq_of(n as nat));
        }
        r
    }
}

/// What `parse_and_decompose` returns, keyed to the error taxonomy: text
/// that is not hexadecimal is malformed; a hexadecimal value outside the
/// canonical ranges is non-canonical; otherwise the decomposed record.
pub open spec fn spec_parse_and_decompose(t: Seq<char>) -> Result<DecomposedAddress, AddressError> {
    match spec_parse_address(t) {
        Option::None => Result::Err(AddressError::MalformedHex),
        Option::Some(a) => if is_canonical(a) {
            Result::Ok(decompose_spec(a))
        } else {
            Result::Err(AddressError::NonCanonicalAddress)
        },
    }
}

/// Parses address text and splits it into its fields, reporting which of
/// the two address-side errors applies.
pub fn parse_and_decompose(text: &str) -> (r: Result<DecomposedAddress, AddressError>)
    ensures
        r == spec_parse_and_decompose(text@),
        r is Ok ==> r->Ok_0.wf(),
{
    match parse_address(text) {
        Option::None => Err(AddressError::MalformedHex),
        Option::Some(a) => decompose(a),
    }
}

/// Translates the VA range selector index of the presentation layer; any
/// index other than the two range choices is out of range.
pub fn va_range_of_selector(sel: u32) -> (r: Result<VaRange, AddressError>)
    ensures
        r == (if sel == 0 {
            Result::<VaRange, AddressError>::Ok(VaRange::Bottom)
        } else if sel == 1 {
            Result::<VaRange, AddressError>::Ok(VaRange::Top)
        } else {
            Result::<VaRange, AddressError>::Err(AddressError::FieldOutOfRange)
        }),
{
    if sel == 0 {
        Ok(VaRange::Bottom)
    } else if sel == 1 {
        Ok(VaRange::Top)
    } else {
        Err(AddressError::FieldOutOfRange)
    }
}

/// Composing the fields read out of a canonical address gives that address
/// back: decomposition loses nothing.
pub proof fn lemma_compose_decompose(a: u64)
    requires
        is_canonical(a),
    ensures
        compose_spec(decompose_spec(a)) == a,
{
    let l3 = (a >> 39) & 0x1FF;
    let l2 = (a >> 30) & 0x1FF;
    let l1 = (a >> 21) & 0x1FF;
    let l0 = (a >> 12) & 0x1FF;
    let off = a & 0xFFF;
    assert(l3 < 512 && l2 < 512 && l1 < 512 && l0 < 512 && off < 4096) by (bit_vector)
        requires
            l3 == (a >> 39) & 0x1FF,
            l2 == (a >> 30) & 0x1FF,
            l1 == (a >> 21) & 0x1FF,
            l0 == (a >> 12) & 0x1FF,
            off == a & 0xFFF,
    ;
    assert(((l3 as u16) as u64) == l3 && ((l2 as u16) as u64) == l2 && ((l1 as u16) as u64) == l1
        && ((l0 as u16) as u64) == l0 && ((off as u16) as u64) == off);
    let base: u64 = if (a >> 48) == 0xFFFF {
        0xFFFF_0000_0000_0000
    } else {
        0
    };
    assert(base | (l3 << 39) | (l2 << 30) | (l1 << 21) | (l0 << 12) | off == a) by (bit_vector)
        requires
            (a >> 48) == 0 || (a >> 48) == 0xFFFF,
            base == (if (a >> 48) == 0xFFFF {
                0xFFFF_0000_0000_0000u64
            } else {
                0u64
            }),
            l3 == (a >> 39) & 0x1FF,
            l2 == (a >> 30) & 0x1FF,
            l1 == (a >> 21) & 0x1FF,
            l0 == (a >> 12) & 0x1FF,
            off == a & 0xFFF,
    ;
}

/// Decomposing the address denoted by a well-formed record gives the record
/// back, and that address is canonical: composition is injective.
pub proof fn lemma_decompose_compose(d: DecomposedAddress)
    requires
        d.wf(),
    ensures
        is_canonical(compose_spec(d)),
        decompose_spec(compose_spec(d)) == d,
{
    let l3 = d.l3 as u64;
    let l2 = d.l2 as u64;
    let l1 = d.l1 as u64;
    let l0 = d.l0 as u64;
    let off = d.offset as u64;
    let base = range_base(d.va_range);
    let a = compose_spec(d);
    assert(a == base | (l3 << 39) | (l2 << 30) | (l1 << 21) | (l0 << 12) | off);
    assert((a >> 48 == if base == 0xFFFF_0000_0000_0000u64 {
        0xFFFFu64
    } else {
        0u64
    }) && (a >> 39) & 0x1FF == l3 && (a >> 30) & 0x1FF == l2 && (a >> 21) & 0x1FF == l1 && (a >> 12)
        & 0x1FF == l0 && a & 0xFFF == off) by (bit_vector)
        requires
            a == base | (l3 << 39) | (l2 << 30) | (l1 << 21) | (l0 << 12) | off,
            base == 0u64 || base == 0xFFFF_0000_0000_0000u64,
            l3 < 512,
            l2 < 512,
            l1 < 512,
            l0 < 512,
            off < 4096,
    ;
}

} // verus!
