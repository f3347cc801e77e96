//! Time-ordered unique identifier generator: a 128-bit identifier built from
//! a wall-clock tick count, a monotonic counter and the host's hardware
//! address, with a fully random fallback when no hardware address is
//! available.

use vstd::prelude::*;
use vstd::arithmetic::div_mod::{lemma_breakdown, lemma_small_mod};
use vstd::string::StringExecFns;

use crate::text::push_char;

verus! {

/// How a generator builds identifiers; fixed once at construction and never
/// re-evaluated afterward.
#[derive(Clone, Copy, Debug, PartialEq, Eq, Structural)]
pub enum Strategy {
    /// Timestamp, counter and hardware address.
    TimeOrdered,
    /// Uniformly random bits.
    Random,
}

/// A 128-bit universally unique identifier, canonically rendered as five
/// groups of lowercase hex digits separated by hyphens.
#[derive(Clone, Copy, Debug, PartialEq, Eq, Structural)]
pub struct Uuid {
    /// The identifier's 128 bits, most significant byte first in the
    /// canonical rendering.
    pub bits: u128,
}

/// Sixteen to the given power.
pub open spec fn pow16(n: nat) -> int
    decreases n,
{
    if n == 0 {
        1
    } else {
        16 * pow16((n - 1) as nat)
    }
}

pub proof fn lemma_pow16_pos(n: nat)
    ensures
        0 < pow16(n),
    decreases n,
{
    if n > 0 {
        lemma_pow16_pos((n - 1) as nat);
    }
}

pub proof fn lemma_pow16_le(a: nat, b: nat)
    requires
        a <= b,
    ensures
        pow16(a) <= pow16(b),
    decreases b,
{
    if a < b {
        lemma_pow16_le(a, (b - 1) as nat);
        lemma_pow16_pos((b - 1) as nat);
    }
}

pub proof fn lemma_pow16_32()
    ensures
        pow16(32) == 0x100000000000000000000000000000000,
{
    reveal_with_fuel(pow16, 33);
}

/// The lowercase hex character of a digit value.
pub open spec fn nib_char(n: u8) -> char {
    if n < 10 {
        (((n + 48) as u8) as char)
    } else {
        (((n + 87) as u8) as char)
    }
}

/// The value of a hex digit character, upper or lower case.
pub open spec fn hex_char_val(c: char) -> Option<u8> {
    let u = c as u32;
    if 48 <= u && u <= 57 {
        Some(((u - 48) as u8))
    } else if 97 <= u && u <= 102 {
        Some(((u - 87) as u8))
    } else if 65 <= u && u <= 70 {
        Some(((u - 55) as u8))
    } else {
        None
    }
}

/// Every character of the text is a hex digit.
pub open spec fn all_hex(s: Seq<char>) -> bool {
    forall|i: int| 0 <= i < s.len() ==> hex_char_val(s[i]) is Some
}

/// The number denoted by a sequence of hex digit characters, most significant
/// digit first.
pub open spec fn hex_value(s: Seq<char>) -> int
    decreases s.len(),
{
    if s.len() == 0 {
        0
    } else {
        hex_value(s.drop_last()) * 16 + (match hex_char_val(s.last()) {
            Some(d) => d as int,
            None => 0,
        })
    }
}

/// The last `count` hex digits of a value, in lowercase, most significant
/// digit first.
pub open spec fn hex_render(v: u128, count: nat) -> Seq<char>
    decreases count,
{
    if count == 0 {
        Seq::empty()
    } else {
        hex_render(v / 16, (count - 1) as nat).push(nib_char((v % 16) as u8))
    }
}

pub proof fn lemma_hex_render_len(v: u128, count: nat)
    ensures
        hex_render(v, count).len() == count,
    decreases count,
{
    if count > 0 {
        lemma_hex_render_len(v / 16, (count - 1) as nat);
    }
}

/// A rendered digit decodes back to its value.
pub proof fn lemma_nib_char_val(n: u8)
    requires
        n < 16,
    ensures
        hex_char_val(nib_char(n)) == Some(n),
{
}

/// Rendering yields hex digits whose value is the rendered value, reduced to
/// the rendered width.
pub proof fn lemma_hex_render_value(v: u128, count: nat)
    ensures
        all_hex(hex_render(v, count)),
        hex_value(hex_render(v, count)) == (v as int) % pow16(count),
    decreases count,
{
    lemma_pow16_pos(count);
    if count == 0 {
        assert(v as int % 1 == 0) by (nonlinear_arith);
    } else {
        let prev = hex_render(v / 16, (count - 1) as nat);
        let d = (v % 16) as u8;
        lemma_hex_render_value(v / 16, (count - 1) as nat);
        lemma_hex_render_len(v / 16, (count - 1) as nat);
        lemma_nib_char_val(d);
        let whole = hex_render(v, count);
        assert(whole == prev.push(nib_char(d)));
        assert(whole.drop_last() =~= prev);
        assert(whole.last() == nib_char(d));
        assert forall|i: int| 0 <= i < whole.len() implies hex_char_val(whole[i]) is Some by {
            if i < prev.len() {
                assert(whole[i] == prev[i]);
            }
        }
        assert(hex_value(whole) == hex_value(prev) * 16 + d);
        lemma_pow16_pos((count - 1) as nat);
        lemma_breakdown(v as int, 16, pow16((count - 1) as nat));
        assert(pow16(count) == 16 * pow16((count - 1) as nat));
    }
}

/// Hex text of a given width denotes a value below sixteen to that width.
pub proof fn lemma_hex_value_bound(s: Seq<char>)
    ensures
        0 <= hex_value(s),
        hex_value(s) < pow16(s.len()),
    decreases s.len(),
{
    lemma_pow16_pos(s.len());
    if s.len() > 0 {
        lemma_hex_value_bound(s.drop_last());
        let d = match hex_char_val(s.last()) {
            Some(d) => d as int,
            None => 0,
        };
        assert(0 <= d < 16);
        assert(pow16(s.len()) == 16 * pow16((s.len() - 1) as nat));
    }
}

/// The canonical text of a 128-bit identifier: five groups of lowercase hex
/// digits of widths 8, 4, 4, 4 and 12, separated by hyphens, most significant
/// digit first.
pub open spec fn spec_format_uuid(b: u128) -> Seq<char> {
    hex_render(b >> 96, 8) + seq!['-'] + hex_render((b >> 80) & 0xFFFF, 4) + seq!['-']
        + hex_render((b >> 64) & 0xFFFF, 4) + seq!['-'] + hex_render((b >> 48) & 0xFFFF, 4)
        + seq!['-'] + hex_render(b & 0xFFFF_FFFF_FFFF, 12)
}

/// The text has the canonical length and hyphen positions.
pub open spec fn uuid_shape_ok(s: Seq<char>) -> bool {
    s.len() == 36 && s[8] == '-' && s[13] == '-' && s[18] == '-' && s[23] == '-'
}

/// Each of the five groups consists of hex digits.
pub open spec fn uuid_groups_hex(s: Seq<char>) -> bool {
    all_hex(s.subrange(0, 8)) && all_hex(s.subrange(9, 13)) && all_hex(s.subrange(14, 18))
        && all_hex(s.subrange(19, 23)) && all_hex(s.subrange(24, 36))
}

/// The 128 bits denoted by five group values of widths 8, 4, 4, 4 and 12 hex
/// digits.
pub open spec fn assemble_groups(g1: u128, g2: u128, g3: u128, g4: u128, g5: u128) -> u128 {
    (g1 << 96) | (g2 << 80) | (g3 << 64) | (g4 << 48) | g5
}

/// The identifier bits denoted by a canonical rendering, if the text has the
/// canonical shape.
pub open spec fn spec_parse_uuid(s: Seq<char>) -> Option<u128> {
    if uuid_shape_ok(s) && uuid_groups_hex(s) {
        Some(
            assemble_groups(
                hex_value(s.subrange(0, 8)) as u128,
                hex_value(s.subrange(9, 13)) as u128,
                hex_value(s.subrange(14, 18)) as u128,
                hex_value(s.subrange(19, 23)) as u128,
                hex_value(s.subrange(24, 36)) as u128,
            ),
        )
    } else {
        None
    }
}

/// Renders the last `count` hex digits of a value as lowercase text.
pub fn hex_string(v: u128, count: usize) -> (r: String)
    requires
        count <= 32,
    ensures
        r@ == hex_render(v, count as nat),
    decreases count,
{
    if count == 0 {
        String::new()
    } else {
        let mut s = hex_string(v / 16, count - 1);
        let d = (v % 16) as u8;
        let c = if d < 10 {
            (d + 48) as char
        } else {
            (d + 87) as char
        };
        push_char(&mut s, c);
        s
    }
}

pub proof fn lemma_pow16_vals()
    ensures
        pow16(4) == 0x10000,
        pow16(8) == 0x100000000,
        pow16(12) == 0x1000000000000,
{
    reveal_with_fuel(pow16, 13);
}

/// Renders an identifier's bits as the canonical hyphenated lowercase text.
pub fn format_bits(b: u128) -> (r: String)
    ensures
        r@ == spec_format_uuid(b),
{
    let mut s = hex_string(b >> 96, 8);
    push_char(&mut s, '-');
    let g2 = hex_string((b >> 80) & 0xFFFF, 4);
    s.append(g2.as_str());
    push_char(&mut s, '-');
    let g3 = hex_string((b >> 64) & 0xFFFF, 4);
    s.append(g3.as_str());
    push_char(&mut s, '-');
    let g4 = hex_string((b >> 48) & 0xFFFF, 4);
    s.append(g4.as_str());
    push_char(&mut s, '-');
    let g5 = hex_string(b & 0xFFFF_FFFF_FFFF, 12);
    s.append(g5.as_str());
    proof {
        assert(s@ =~= spec_format_uuid(b));
    }
    s
}

/// Reads one hex digit character, upper or lower case.
pub fn hex_digit_of(c: char) -> (r: Option<u8>)
    ensures
        r == hex_char_val(c),
{
    let u = c as u32;
    if 48 <= u && u <= 57 {
        Some((u - 48) as u8)
    } else if 97 <= u && u <= 102 {
        Some((u - 87) as u8)
    } else if 65 <= u && u <= 70 {
        Some((u - 55) as u8)
    } else {
        None
    }
}

/// Reads the hex digits of `s` between `from` and `to` as one number, most
/// significant digit first; `None` exactly when a character there is not a
/// hex digit.
pub fn parse_hex_range(s: &str, from: usize, to: usize) -> (r: Option<u128>)
    requires
        from <= to,
        to <= s@.len(),
        to - from <= 32,
    ensures
        match r {
            Some(v) => all_hex(s@.subrange(from as int, to as int)) && v as int == hex_value(
                s@.subrange(from as int, to as int),
            ),
            None => !all_hex(s@.subrange(from as int, to as int)),
        },
{
    let mut acc: u128 = 0;
    let mut i: usize = from;
    while i < to
        invariant
            from <= i <= to,
            to <= s@.len(),
            to - from <= 32,
            all_hex(s@.subrange(from as int, i as int)),
            acc as int == hex_value(s@.subrange(from as int, i as int)),
        decreases to - i,
    {
        let c = s.get_char(i);
        let d = match hex_digit_of(c) {
            Some(d) => d,
            None => {
                proof {
                    let sub = s@.subrange(from as int, to as int);
                    assert(sub[i - from] == s@[i as int]);
                }
                return None;
            },
        };
        proof {
            let part = s@.subrange(from as int, i as int);
            lemma_hex_value_bound(part);
            lemma_pow16_le(part.len() as nat, 31);
            lemma_pow16_32();
            assert(pow16(32) == 16 * pow16(31));
            assert(hex_value(part) * 16 + 15 < pow16(32));
        }
        acc = acc * 16 + (d as u128);
        i = i + 1;
        proof {
            let prev = s@.subrange(from as int, i - 1);
            let cur = s@.subrange(from as int, i as int);
            assert(cur =~= prev.push(s@[i - 1]));
            assert(cur.drop_last() =~= prev);
        }
    }
    proof {
        assert(s@.subrange(from as int, i as int) =~= s@.subrange(from as int, to as int));
    }
    Some(acc)
}

/// Parses canonical hyphenated text into an identifier; `None` exactly when
/// the text is not such a rendering.
pub fn parse_uuid_text(s: &str) -> (r: Option<Uuid>)
    ensures
        match r {
            Some(u) => spec_parse_uuid(s@) == Some(u.bits),
            None => spec_parse_uuid(s@) is None,
        },
{
    let n = s.unicode_len();
    if n != 36 {
        return None;
    }
    if s.get_char(8) != '-' || s.get_char(13) != '-' || s.get_char(18) != '-' || s.get_char(23)
        != '-' {
        return None;
    }
    let g1 = match parse_hex_range(s, 0, 8) {
        Some(v) => v,
        None => {
            return None;
        },
    };
    let g2 = match parse_hex_range(s, 9, 13) {
        Some(v) => v,
        None => {
            return None;
        },
    };
    let g3 = match parse_hex_range(s, 14, 18) {
        Some(v) => v,
        None => {
            return None;
        },
    };
    let g4 = match parse_hex_range(s, 19, 23) {
        Some(v) => v,
        None => {
            return None;
        },
    };
    let g5 = match parse_hex_range(s, 24, 36) {
        Some(v) => v,
        None => {
            return None;
        },
    };
    Some(Uuid { bits: (g1 << 96) | (g2 << 80) | (g3 << 64) | (g4 << 48) | g5 })
}

/// Parsing the canonical rendering of any identifier bits yields those bits
/// again.
pub proof fn lemma_format_parse_uuid(b: u128)
    ensures
        spec_parse_uuid(spec_format_uuid(b)) == Some(b),
{
    let s = spec_format_uuid(b);
    let f1 = b >> 96;
    let f2 = (b >> 80) & 0xFFFF;
    let f3 = (b >> 64) & 0xFFFF;
    let f4 = (b >> 48) & 0xFFFF;
    let f5 = b & 0xFFFF_FFFF_FFFF;
    lemma_hex_render_len(f1, 8);
    lemma_hex_render_len(f2, 4);
    lemma_hex_render_len(f3, 4);
    lemma_hex_render_len(f4, 4);
    lemma_hex_render_len(f5, 12);
    assert(s.len() == 36);
    assert(s[8] == '-');
    assert(s[13] == '-');
    assert(s[18] == '-');
    assert(s[23] == '-');
    assert(s.subrange(0, 8) =~= hex_render(f1, 8));
    assert(s.subrange(9, 13) =~= hex_render(f2, 4));
    assert(s.subrange(14, 18) =~= hex_render(f3, 4));
    assert(s.subrange(19, 23) =~= hex_render(f4, 4));
    assert(s.subrange(24, 36) =~= hex_render(f5, 12));
    lemma_hex_render_value(f1, 8);
    lemma_hex_render_value(f2, 4);
    lemma_hex_render_value(f3, 4);
    lemma_hex_render_value(f4, 4);
    lemma_hex_render_value(f5, 12);
    lemma_pow16_vals();
    assert((b >> 96) < 0x100000000) by (bit_vector);
    assert(((b >> 80) & 0xFFFF) < 0x10000) by (bit_vector);
    assert(((b >> 64) & 0xFFFF) < 0x10000) by (bit_vector);
    assert(((b >> 48) & 0xFFFF) < 0x10000) by (bit_vector);
    assert((b & 0xFFFF_FFFF_FFFF) < 0x1000000000000) by (bit_vector);
    lemma_small_mod(f1 as nat, pow16(8) as nat);
    lemma_small_mod(f2 as nat, pow16(4) as nat);
    lemma_small_mod(f3 as nat, pow16(4) as nat);
    lemma_small_mod(f4 as nat, pow16(4) as nat);
    lemma_small_mod(f5 as nat, pow16(12) as nat);
    assert(((b >> 96) << 96) | (((b >> 80) & 0xFFFF) << 80) | (((b >> 64) & 0xFFFF) << 64) | (((b
        >> 48) & 0xFFFF) << 48) | (b & 0xFFFF_FFFF_FFFF) == b) by (bit_vector);
    assert(assemble_groups(f1, f2, f3, f4, f5) == b);
}

/// Offset in 100-nanosecond ticks between the identifier epoch (1582-10-15)
/// and the UNIX epoch (1970-01-01).
pub const UUID_TICKS_BETWEEN_EPOCHS: u64 = 0x01B2_1DD2_1381_4000;

/// The tick count embedded in a time-ordered identifier: 100-nanosecond
/// ticks since the identifier epoch, reduced to the 64 bits the assembly
/// reads.
pub open spec fn spec_ticks(secs: u64, nanos: u32) -> u64 {
    (((UUID_TICKS_BETWEEN_EPOCHS + secs * 10_000_000 + nanos / 100) as int)
        % 0x1_0000_0000_0000_0000) as u64
}

/// The 128 bits of a time-ordered identifier: 60 bits of tick count split
/// over the time-low, time-mid and time-high fields, the version marker, the
/// counter as the clock sequence under the variant marker, and 48 node bits.
pub open spec fn spec_v1_bits(ticks: u64, counter: u16, node: u64) -> u128 {
    (((ticks & 0xFFFF_FFFF) as u128) << 96) | ((((ticks >> 32) & 0xFFFF) as u128) << 80) | ((((
    (ticks >> 48) & 0x0FFF) | 0x1000) as u128) << 64) | (((((counter >> 8) & 0x3F) | 0x80) as u128)
        << 56) | (((counter & 0xFF) as u128) << 48) | ((node & 0xFFFF_FFFF_FFFF) as u128)
}

/// Random identifier bits stamped with the version-4 and variant markers.
pub open spec fn spec_v4_bits(r: u128) -> u128 {
    (r & 0xFFFF_FFFF_FFFF_0FFF_3FFF_FFFF_FFFF_FFFF) | 0x0000_0000_0000_4000_8000_0000_0000_0000
}

/// The version field of an identifier: the four bits above the time-high
/// field.
pub open spec fn version_of(b: u128) -> u128 {
    (b >> 76) & 0xF
}

/// The two variant bits above the clock sequence.
pub open spec fn variant_of(b: u128) -> u128 {
    (b >> 62) & 0x3
}

/// The fourteen clock-sequence bits.
pub open spec fn clock_seq_of(b: u128) -> u128 {
    (b >> 48) & 0x3FFF
}

/// The 48 node bits.
pub open spec fn node_field_of(b: u128) -> u128 {
    b & 0xFFFF_FFFF_FFFF
}

/// A time-ordered identifier carries version 1, the variant marker, its
/// counter as the clock sequence, and its node bits.
pub proof fn lemma_v1_fields(t: u64, c: u16, n: u64)
    ensures
        version_of(spec_v1_bits(t, c, n)) == 1,
        variant_of(spec_v1_bits(t, c, n)) == 2,
        clock_seq_of(spec_v1_bits(t, c, n)) == (c & 0x3FFF) as u128,
        node_field_of(spec_v1_bits(t, c, n)) == (n & 0xFFFF_FFFF_FFFF) as u128,
{
    assert((((((t & 0xFFFF_FFFF) as u128) << 96) | ((((t >> 32) & 0xFFFF) as u128) << 80) | ((((
    (t >> 48) & 0x0FFF) | 0x1000) as u128) << 64) | (((((c >> 8) & 0x3F) | 0x80) as u128) << 56) | (
    ((c & 0xFF) as u128) << 48) | ((n & 0xFFFF_FFFF_FFFF) as u128)) >> 76) & 0xF == 1)
        by (bit_vector);
    assert((((((t & 0xFFFF_FFFF) as u128) << 96) | ((((t >> 32) & 0xFFFF) as u128) << 80) | ((((
    (t >> 48) & 0x0FFF) | 0x1000) as u128) << 64) | (((((c >> 8) & 0x3F) | 0x80) as u128) << 56) | (
    ((c & 0xFF) as u128) << 48) | ((n & 0xFFFF_FFFF_FFFF) as u128)) >> 62) & 0x3 == 2)
        by (bit_vector);
    assert((((((t & 0xFFFF_FFFF) as u128) << 96) | ((((t >> 32) & 0xFFFF) as u128) << 80) | ((((
    (t >> 48) & 0x0FFF) | 0x1000) as u128) << 64) | (((((c >> 8) & 0x3F) | 0x80) as u128) << 56) | (
    ((c & 0xFF) as u128) << 48) | ((n & 0xFFFF_FFFF_FFFF) as u128)) >> 48) & 0x3FFF == (c
        & 0x3FFF) as u128) by (bit_vector);
    assert(((((t & 0xFFFF_FFFF) as u128) << 96) | ((((t >> 32) & 0xFFFF) as u128) << 80) | ((((
    (t >> 48) & 0x0FFF) | 0x1000) as u128) << 64) | (((((c >> 8) & 0x3F) | 0x80) as u128) << 56) | (
    ((c & 0xFF) as u128) << 48) | ((n & 0xFFFF_FFFF_FFFF) as u128)) & 0xFFFF_FFFF_FFFF == (n
        & 0xFFFF_FFFF_FFFF) as u128) by (bit_vector);
}

/// A random identifier stamped with the markers carries version 4 and the
/// variant marker.
pub proof fn lemma_v4_fields(r: u128)
    ensures
        version_of(spec_v4_bits(r)) == 4,
        variant_of(spec_v4_bits(r)) == 2,
{
    assert(((((r & 0xFFFF_FFFF_FFFF_0FFF_3FFF_FFFF_FFFF_FFFF)
        | 0x0000_0000_0000_4000_8000_0000_0000_0000) >> 76) & 0xF) == 4 && ((((r
        & 0xFFFF_FFFF_FFFF_0FFF_3FFF_FFFF_FFFF_FFFF) | 0x0000_0000_0000_4000_8000_0000_0000_0000)
        >> 62) & 0x3) == 2) by (bit_vector);
}

/// The 48 node bits read from a 6-byte hardware address, first byte most
/// significant.
pub open spec fn node_of(mac: Seq<u8>) -> u64
    recommends
        mac.len() == 6,
{
    ((mac[0] as u64) << 40) | ((mac[1] as u64) << 32) | ((mac[2] as u64) << 24) | ((
    mac[3] as u64) << 16) | ((mac[4] as u64) << 8) | (mac[5] as u64)
}

/// Reads a 6-byte hardware address as 48 node bits.
pub fn node_from_mac(mac: &[u8; 6]) -> (n: u64)
    ensures
        n == node_of(mac@),
{
    ((mac[0] as u64) << 40) | ((mac[1] as u64) << 32) | ((mac[2] as u64) << 24) | ((
    mac[3] as u64) << 16) | ((mac[4] as u64) << 8) | (mac[5] as u64)
}

/// Computes the tick count for a clock reading: the epoch offset plus ten
/// million ticks per second and one tick per hundred nanoseconds.
pub fn ticks_from_unix(secs: u64, nanos: u32) -> (t: u64)
    ensures
        t == spec_ticks(secs, nanos),
{
    proof {
        assert((secs as int) * 10_000_000 <= 0xFFFF_FFFF_FFFF_FFFF * 10_000_000int)
            by (nonlinear_arith)
            requires
                secs <= 0xFFFF_FFFF_FFFF_FFFF,
        ;
    }
    let total: u128 = (UUID_TICKS_BETWEEN_EPOCHS as u128) + (secs as u128) * 10_000_000 + ((nanos
        / 100) as u128);
    (total % 0x1_0000_0000_0000_0000u128) as u64
}

/// Assembles the 128 bits of a time-ordered identifier from the tick count,
/// the clock-sequence counter and the node bits.
pub fn build_v1(ticks: u64, counter: u16, node: u64) -> (u: Uuid)
    ensures
        u.bits == spec_v1_bits(ticks, counter, node),
{
    let bits = (((ticks & 0xFFFF_FFFF) as u128) << 96) | ((((ticks >> 32) & 0xFFFF) as u128) << 80)
        | (((((ticks >> 48) & 0x0FFF) | 0x1000) as u128) << 64) | (((((counter >> 8) & 0x3F)
        | 0x80) as u128) << 56) | (((counter & 0xFF) as u128) << 48) | ((node
        & 0xFFFF_FFFF_FFFF) as u128);
    Uuid { bits }
}

/// Relies on `mac_address::get_mac_address`: the host's hardware address,
/// when the host exposes one; which outcome occurs depends on the machine,
/// so nothing is assumed of it.
#[verifier::external_body]
fn lookup_mac_address() -> (r: Option<[u8; 6]>) {
    match mac_address::get_mac_address() {
        Ok(Some(addr)) => Some(addr.bytes()),
        Ok(None) => None,
        Err(_) => None,
    }
}

/// Relies on `SystemTime::elapsed` called on `UNIX_EPOCH`: the duration
/// since the UNIX epoch as whole seconds and sub-second nanoseconds, the
/// latter below one billion; `None` when the clock reads before the epoch.
#[verifier::external_body]
pub(crate) fn now() -> (r: Option<(u64, u32)>)
    ensures
        r matches Some(t) ==> t.1 < 1_000_000_000,
{
    match std::time::SystemTime::UNIX_EPOCH.elapsed() {
        Ok(d) => Some((d.as_secs(), d.subsec_nanos())),
        Err(_) => None,
    }
}

/// Relies on `uuid::Uuid::new_v4`: 128 random bits; the value is random, so
/// nothing is assumed of it.
#[verifier::external_body]
fn random_bits() -> (r: u128) {
    uuid::Uuid::new_v4().as_u128()
}

/// Stamps 128 drawn bits with the version-4 and variant markers, leaving
/// every other bit as drawn.
pub fn stamp_v4(r: u128) -> (u: Uuid)
    ensures
        u.bits == spec_v4_bits(r),
{
    Uuid {
        bits: (r & 0xFFFF_FFFF_FFFF_0FFF_3FFF_FFFF_FFFF_FFFFu128)
            | 0x0000_0000_0000_4000_8000_0000_0000_0000u128,
    }
}

/// Generator producing time-ordered identifiers when a hardware address is
/// available at construction, and random ones otherwise.  The strategy is
/// fixed for the generator's lifetime.
#[derive(Clone, Copy, Debug)]
pub struct UuidGenerator {
    /// The hardware-address snapshot taken at construction; all zero when
    /// none was found.
    pub mac: [u8; 6],
    /// The strategy selected once at construction.
    pub strategy: Strategy,
    /// The monotonic counter feeding the clock-sequence field.
    pub counter: u16,
}

impl UuidGenerator {
    /// Which identifier bits this generator, in its current state, may
    /// produce.
    pub open spec fn can_gen_bits(&self, b: u128) -> bool {
        match self.strategy {
            Strategy::TimeOrdered => version_of(b) == 1 && variant_of(b) == 2 && clock_seq_of(b)
                == (self.counter % 0x3FFF) as u128 && exists|t: u64|
                b == #[trigger] spec_v1_bits(t, (self.counter % 0x3FFF) as u16, node_of(self.mac@)),
            Strategy::Random => version_of(b) == 4 && variant_of(b) == 2,
        }
    }

    /// Creates a generator that always uses the random strategy.
    pub fn new_v4() -> (r: Self)
        ensures
            r.strategy == Strategy::Random,
            r.counter == 1,
            forall|i: int| 0 <= i < 6 ==> r.mac@[i] == 0,
    {
        UuidGenerator { mac: [0; 6], strategy: Strategy::Random, counter: 1 }
    }

    /// Creates a generator from the outcome of the hardware-address lookup:
    /// with an address it is time-ordered over that address, and without one
    /// it falls back to random bits over an all-zero placeholder.
    pub fn from_mac_lookup(found: Option<[u8; 6]>) -> (r: Self)
        ensures
            r.counter == 1,
            match found {
                Some(m) => r.strategy == Strategy::TimeOrdered && r.mac == m,
                None => r.strategy == Strategy::Random && (forall|i: int|
                    0 <= i < 6 ==> r.mac@[i] == 0),
            },
    {
        match found {
            Some(m) => UuidGenerator { mac: m, strategy: Strategy::TimeOrdered, counter: 1 },
            None => UuidGenerator { mac: [0; 6], strategy: Strategy::Random, counter: 1 },
        }
    }

    /// Creates a generator: time-ordered when the host exposes a hardware
    /// address, random otherwise.
    pub fn new() -> (r: Self)
        ensures
            r.counter == 1,
            r.strategy == Strategy::Random ==> forall|i: int| 0 <= i < 6 ==> r.mac@[i] == 0,
    {
        Self::from_mac_lookup(lookup_mac_address())
    }

    /// Reports whether the generator uses the time-ordered strategy.
    pub fn is_v1(&self) -> (r: bool)
        ensures
            r == (self.strategy == Strategy::TimeOrdered),
    {
        match self.strategy {
            Strategy::TimeOrdered => true,
            Strategy::Random => false,
        }
    }

    /// One time-ordered generation: reads the clock, takes the next counter
    /// value, and assembles the identifier.
    ///
    /// A clock reading before the UNIX epoch yields no duration; the tick
    /// count then falls back to the bare epoch offset instead of aborting,
    /// and uniqueness still rests on the counter alone.
    fn gen_time_ordered(&mut self) -> (u: Uuid)
        ensures
            final(self).strategy == old(self).strategy,
            final(self).mac == old(self).mac,
            final(self).counter == ((old(self).counter + 1) % 0x10000) as u16,
            version_of(u.bits) == 1,
            variant_of(u.bits) == 2,
            clock_seq_of(u.bits) == (old(self).counter % 0x3FFF) as u128,
            exists|t: u64|
                u.bits == #[trigger] spec_v1_bits(t, (old(self).counter % 0x3FFF) as u16, node_of(
                    old(self).mac@,
                )),
    {
        let (secs, nanos) = match now() {
            Some(t) => t,
            None => (0u64, 0u32),
        };
        let ticks = ticks_from_unix(secs, nanos);
        let counter = self.counter % 0x3FFF;
        self.counter = if self.counter == 0xFFFF {
            0
        } else {
            self.counter + 1
        };
        let node = node_from_mac(&self.mac);
        let u = build_v1(ticks, counter, node);
        proof {
            lemma_v1_fields(ticks, counter, node);
            assert(counter & 0x3FFF == counter) by (bit_vector)
                requires
                    counter < 0x3FFF,
            ;
        }
        u
    }

    /// One random generation: fresh random bits stamped with the version-4
    /// and variant markers.
    fn gen_random(&self) -> (u: Uuid)
        ensures
            version_of(u.bits) == 4,
            variant_of(u.bits) == 2,
    {
        let r = random_bits();
        let u = stamp_v4(r);
        proof {
            lemma_v4_fields(r);
        }
        u
    }

    /// Generates one identifier with the strategy fixed at construction: a
    /// time-ordered generation advances the counter, a random one touches no
    /// state.
    pub fn gen(&mut self) -> (u: Uuid)
        ensures
            final(self).strategy == old(self).strategy,
            final(self).mac == old(self).mac,
            old(self).can_gen_bits(u.bits),
            old(self).strategy == Strategy::TimeOrdered ==> final(self).counter == ((old(
                self,
            ).counter + 1) % 0x10000) as u16,
            old(self).strategy == Strategy::Random ==> final(self).counter == old(self).counter,
    {
        match self.strategy {
            Strategy::TimeOrdered => self.gen_time_ordered(),
            Strategy::Random => self.gen_random(),
        }
    }
}

/// Two time-ordered identifiers built from distinct clock-sequence counter
/// values differ, whatever their timestamps and node bits.
pub proof fn lemma_v1_distinct_counters(t1: u64, t2: u64, c1: u16, c2: u16, n1: u64, n2: u64)
    requires
        c1 < 0x3FFF,
        c2 < 0x3FFF,
        c1 != c2,
    ensures
        spec_v1_bits(t1, c1, n1) != spec_v1_bits(t2, c2, n2),
{
    lemma_v1_fields(t1, c1, n1);
    lemma_v1_fields(t2, c2, n2);
    assert(c1 & 0x3FFF == c1) by (bit_vector)
        requires
            c1 < 0x3FFF,
    ;
    assert(c2 & 0x3FFF == c2) by (bit_vector)
        requires
            c2 < 0x3FFF,
    ;
}

/// Two counter readings inside a run of fewer than 16383 steps that does not
/// cross the counter's wrap give distinct clock-sequence values.
pub proof fn lemma_counter_run_distinct(start: u16, i: int, j: int)
    requires
        0 <= i < j,
        j - i < 0x3FFF,
        start + j <= 0xFFFF,
    ensures
        (start + i) % 0x3FFF != (start + j) % 0x3FFF,
{
    let a = start + i;
    let b = start + j;
    if a % 0x3FFF == b % 0x3FFF {
        vstd::arithmetic::div_mod::lemma_fundamental_div_mod(a, 0x3FFF);
        vstd::arithmetic::div_mod::lemma_fundamental_div_mod(b, 0x3FFF);
        let k = b / 0x3FFF - a / 0x3FFF;
        assert(b - a == 0x3FFF * k);
        assert(k >= 1 ==> 0x3FFF * k >= 0x3FFF) by (nonlinear_arith);
        assert(k <= 0 ==> 0x3FFF * k <= 0) by (nonlinear_arith);
        assert(false);
    }
}

/// Uniqueness of sequential time-ordered generations: two generations made
/// while the generator's counter readings lie in one wrap-free run of fewer
/// than 16383 steps yield distinct identifiers, whatever timestamps the
/// clock handed out at either call.
pub proof fn lemma_generations_distinct(
    pre_i: UuidGenerator,
    pre_j: UuidGenerator,
    a: Uuid,
    b: Uuid,
    start: u16,
    i: int,
    j: int,
)
    requires
        pre_i.strategy == Strategy::TimeOrdered,
        pre_j.strategy == Strategy::TimeOrdered,
        pre_i.can_gen_bits(a.bits),
        pre_j.can_gen_bits(b.bits),
        pre_i.counter == start + i,
        pre_j.counter == start + j,
        0 <= i < j,
        j - i < 0x3FFF,
        start + j <= 0xFFFF,
    ensures
        a.bits != b.bits,
{
    lemma_counter_run_distinct(start, i, j);
    assert(clock_seq_of(a.bits) == (pre_i.counter % 0x3FFF) as u128);
    assert(clock_seq_of(b.bits) == (pre_j.counter % 0x3FFF) as u128);
}

impl crate::IdType for Uuid {
    open spec fn spec_parses(s: Seq<char>) -> bool {
        spec_parse_uuid(s) is Some
    }

    open spec fn parses_to(s: Seq<char>, v: Self) -> bool {
        spec_parse_uuid(s) == Some(v.bits)
    }

    open spec fn spec_format(&self) -> Seq<char> {
        spec_format_uuid(self.bits)
    }

    proof fn lemma_format_parse(&self) {
        lemma_format_parse_uuid(self.bits);
    }

    fn parse(s: &str) -> (r: Option<Self>) {
        parse_uuid_text(s)
    }

    fn format(&self) -> (r: String) {
        format_bits(self.bits)
    }

    fn duplicate(&self) -> (r: Self) {
        *self
    }
}

impl crate::IdGen<Uuid> for UuidGenerator {
    open spec fn spec_can_gen(&self, id: Uuid) -> bool {
        self.can_gen_bits(id.bits)
    }

    fn gen(&mut self) -> (r: Uuid) {
        UuidGenerator::gen(self)
    }
}

impl crate::IdGen<String> for UuidGenerator {
    open spec fn spec_can_gen(&self, id: String) -> bool {
        exists|b: u128| id@ == spec_format_uuid(b) && self.can_gen_bits(b)
    }

    fn gen(&mut self) -> (r: String) {
        let ghost pre = *self;
        let u = UuidGenerator::gen(self);
        let s = format_bits(u.bits);
        proof {
            assert(s@ == spec_format_uuid(u.bits) && pre.can_gen_bits(u.bits));
        }
        s
    }
}

} // verus!
