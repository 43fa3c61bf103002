use vstd::prelude::*;

use crate::config::items_v;
use crate::config::ItemV;
use crate::config::SoapyConfig;
use crate::config::SoapyConfigItem;
use crate::config::SoapyDirection;
use crate::error::SoapyError;
use crate::pmt::comparable;
use crate::pmt::entries_v;
use crate::pmt::lemma_pmt_eq_refl;
use crate::pmt::pmt_eq_v;
use crate::pmt::pmt_wf;
use crate::pmt::pmts_v;
use crate::pmt::AnySerdeV;
use crate::pmt::Pmt;
use crate::pmt::PmtAny;
use crate::pmt::PmtAnySerde;
use crate::pmt::PmtV;
use crate::text::string_of_chars;
use crate::text::str_eq;
use vstd::slice::slice_index_get;
use vstd::slice::slice_subrange;

verus! {

// The wire format: one self-describing, little-endian encoding.
//
//   value   := tag:u8 payload
//   tag 0   Null — also what an opaque (`Any`) value leaves behind: its
//           payload is omitted from the wire, by design not an error
//   tag 1   String: count:u64, then one u32 scalar value per character
//   tag 2   U32, tag 3 U64, tag 4 F32, tag 5 F64: the raw bytes
//   tag 6   VecF32, tag 7 VecU64: count:u64, then the raw values
//   tag 8   Blob: count:u64, then the bytes
//   tag 9   VecPmt: count:u64, then each element as a value
//   tag 10  MapStrPmt: count:u64, then per entry a counted key string and
//           a value
//   tag 11  AnySerde: the registry tag as a counted string, then the
//           payload's own fields; decoding looks the tag up in the
//           registry and an unregistered tag is an error, never a silent
//           default
//
// The registry: the closed set of types that opt into tagged
// serialization, keyed by their stable tag strings.

pub open spec fn le32(v: u32) -> Seq<u8> {
    seq![v as u8, (v >> 8) as u8, (v >> 16) as u8, (v >> 24) as u8]
}

pub open spec fn le64(v: u64) -> Seq<u8> {
    seq![
        v as u8,
        (v >> 8) as u8,
        (v >> 16) as u8,
        (v >> 24) as u8,
        (v >> 32) as u8,
        (v >> 40) as u8,
        (v >> 48) as u8,
        (v >> 56) as u8,
    ]
}

pub open spec fn read32(b0: u8, b1: u8, b2: u8, b3: u8) -> u32 {
    (b0 as u32) | ((b1 as u32) << 8) | ((b2 as u32) << 16) | ((b3 as u32) << 24)
}

pub open spec fn read64(
    b0: u8,
    b1: u8,
    b2: u8,
    b3: u8,
    b4: u8,
    b5: u8,
    b6: u8,
    b7: u8,
) -> u64 {
    (b0 as u64) | ((b1 as u64) << 8) | ((b2 as u64) << 16) | ((b3 as u64) << 24) | ((b4 as u64)
        << 32) | ((b5 as u64) << 40) | ((b6 as u64) << 48) | ((b7 as u64) << 56)
}

proof fn lemma_le32_rt(v: u32)
    ensures
        read32(v as u8, (v >> 8) as u8, (v >> 16) as u8, (v >> 24) as u8) == v,
{
    assert(((v as u8) as u32) | ((((v >> 8) as u8) as u32) << 8) | ((((v >> 16) as u8) as u32)
        << 16) | ((((v >> 24) as u8) as u32) << 24) == v) by (bit_vector);
}

proof fn lemma_le64_rt(v: u64)
    ensures
        read64(
            v as u8,
            (v >> 8) as u8,
            (v >> 16) as u8,
            (v >> 24) as u8,
            (v >> 32) as u8,
            (v >> 40) as u8,
            (v >> 48) as u8,
            (v >> 56) as u8,
        ) == v,
{
    assert(((v as u8) as u64) | ((((v >> 8) as u8) as u64) << 8) | ((((v >> 16) as u8) as u64)
        << 16) | ((((v >> 24) as u8) as u64) << 24) | ((((v >> 32) as u8) as u64) << 32) | ((((v
        >> 40) as u8) as u64) << 40) | ((((v >> 48) as u8) as u64) << 48) | ((((v >> 56) as u8)
        as u64) << 56) == v) by (bit_vector);
}

/// A Unicode scalar value: what a `char` may hold.
pub open spec fn scalar_ok(u: u32) -> bool {
    u < 0xD800 || (0xE000 <= u && u <= 0x10FFFF)
}

/// The character with scalar value `u`.
pub open spec fn char_of(u: u32) -> char {
    choose|c: char| (#[trigger] (c as u32)) == u
}

proof fn lemma_char_of(c: char)
    ensures
        char_of(c as u32) == c,
        scalar_ok(c as u32),
{
    let u = c as u32;
    assert(c as u32 == u);
    let w = choose|x: char| (#[trigger] (x as u32)) == u;
    assert(w as u32 == u);
}

pub open spec fn enc_chars(s: Seq<char>) -> Seq<u8>
    decreases s.len(),
{
    if s.len() == 0 {
        Seq::empty()
    } else {
        le32(s.first() as u32) + enc_chars(s.drop_first())
    }
}

/// A counted string: character count, then the characters.
pub open spec fn enc_str(s: Seq<char>) -> Seq<u8> {
    le64(s.len() as u64) + enc_chars(s)
}

pub open spec fn enc_u32s(s: Seq<u32>) -> Seq<u8>
    decreases s.len(),
{
    if s.len() == 0 {
        Seq::empty()
    } else {
        le32(s.first()) + enc_u32s(s.drop_first())
    }
}

pub open spec fn enc_u64s(s: Seq<u64>) -> Seq<u8>
    decreases s.len(),
{
    if s.len() == 0 {
        Seq::empty()
    } else {
        le64(s.first()) + enc_u64s(s.drop_first())
    }
}

pub open spec fn dir_code(d: SoapyDirection) -> u8 {
    match d {
        SoapyDirection::Default => 0,
        SoapyDirection::Rx => 1,
        SoapyDirection::Tx => 2,
        SoapyDirection::Both => 3,
        SoapyDirection::Neither => 4,
    }
}

pub open spec fn code_dir(u: u8) -> Option<SoapyDirection> {
    if u == 0 {
        Some(SoapyDirection::Default)
    } else if u == 1 {
        Some(SoapyDirection::Rx)
    } else if u == 2 {
        Some(SoapyDirection::Tx)
    } else if u == 3 {
        Some(SoapyDirection::Both)
    } else if u == 4 {
        Some(SoapyDirection::Neither)
    } else {
        None
    }
}

/// One configuration item: a kind byte, then its payload.
pub open spec fn enc_item(it: ItemV) -> Seq<u8> {
    match it {
        ItemV::Direction(d) => seq![0u8, dir_code(d)],
        ItemV::Channel(c) => match c {
            None => seq![1u8, 0u8],
            Some(one) => seq![1u8, 1u8] + le64(one as u64),
        },
        ItemV::Antenna(a) => seq![2u8] + enc_str(a),
        ItemV::Bandwidth(b) => seq![3u8] + le64(b),
        ItemV::Freq(f) => seq![4u8] + le64(f),
        ItemV::Gain(g) => seq![5u8] + le64(g),
        ItemV::SampleRate(r) => seq![6u8] + le64(r),
    }
}

pub open spec fn enc_items(s: Seq<ItemV>) -> Seq<u8>
    decreases s.len(),
{
    if s.len() == 0 {
        Seq::empty()
    } else {
        enc_item(s.first()) + enc_items(s.drop_first())
    }
}

/// A configuration sequence: item count, then the items.
pub open spec fn enc_config(s: Seq<ItemV>) -> Seq<u8> {
    le64(s.len() as u64) + enc_items(s)
}

/// A serializable opaque payload: its registry tag string, then its own
/// fields.
pub open spec fn enc_any_serde(a: AnySerdeV) -> Seq<u8> {
    match a {
        AnySerdeV::Config(c) => enc_str("SoapyConfig"@) + enc_config(c),
        AnySerdeV::ConfigItem(it) => enc_str("SoapyConfigItem"@) + enc_item(it),
    }
}

pub open spec fn enc_list(s: Seq<PmtV>) -> Seq<u8>
    decreases s,
{
    if s.len() == 0 {
        Seq::empty()
    } else {
        enc(s.first()) + enc_list(s.drop_first())
    }
}

pub open spec fn enc_entries(s: Seq<(Seq<char>, PmtV)>) -> Seq<u8>
    decreases s,
{
    if s.len() == 0 {
        Seq::empty()
    } else {
        enc_str(s.first().0) + enc(s.first().1) + enc_entries(s.drop_first())
    }
}

/// The encoding of a value.
pub open spec fn enc(p: PmtV) -> Seq<u8>
    decreases p,
{
    match p {
        PmtV::Null => seq![0u8],
        PmtV::String(s) => seq![1u8] + enc_str(s),
        PmtV::U32(v) => seq![2u8] + le32(v),
        PmtV::U64(v) => seq![3u8] + le64(v),
        PmtV::F32(b) => seq![4u8] + le32(b),
        PmtV::F64(b) => seq![5u8] + le64(b),
        PmtV::VecF32(v) => seq![6u8] + le64(v.len() as u64) + enc_u32s(v),
        PmtV::VecU64(v) => seq![7u8] + le64(v.len() as u64) + enc_u64s(v),
        PmtV::Blob(v) => seq![8u8] + le64(v.len() as u64) + v,
        PmtV::VecPmt(v) => seq![9u8] + le64(v.len() as u64) + enc_list(v),
        PmtV::MapStrPmt(m) => seq![10u8] + le64(m.len() as u64) + enc_entries(m),
        PmtV::Any(_) => seq![0u8],
        PmtV::AnySerde(a) => seq![11u8] + enc_any_serde(a),
    }
}

/// A value the wire format can carry faithfully: it holds no opaque
/// payload (which the wire omits), and every container is small enough
/// for its count field.
pub open spec fn item_sized(it: ItemV) -> bool {
    match it {
        ItemV::Antenna(a) => a.len() <= u64::MAX,
        _ => true,
    }
}

pub open spec fn items_sized(s: Seq<ItemV>) -> bool {
    s.len() <= u64::MAX && forall|i: int| 0 <= i < s.len() ==> item_sized(#[trigger] s[i])
}

pub open spec fn serializable(p: PmtV) -> bool
    decreases p,
{
    match p {
        PmtV::String(s) => s.len() <= u64::MAX,
        PmtV::VecF32(v) => v.len() <= u64::MAX,
        PmtV::VecU64(v) => v.len() <= u64::MAX,
        PmtV::Blob(v) => v.len() <= u64::MAX,
        PmtV::VecPmt(v) => v.len() <= u64::MAX && forall|i: int|
            0 <= i < v.len() ==> serializable(#[trigger] v[i]),
        PmtV::MapStrPmt(m) => m.len() <= u64::MAX && forall|i: int|
            0 <= i < m.len() ==> (#[trigger] m[i]).0.len() <= u64::MAX && serializable(m[i].1),
        PmtV::Any(_) => false,
        PmtV::AnySerde(a) => match a {
            AnySerdeV::Config(c) => items_sized(c),
            AnySerdeV::ConfigItem(it) => item_sized(it),
        },
        _ => true,
    }
}

pub open spec fn dec_chars(b: Seq<u8>, n: nat) -> Result<(Seq<char>, Seq<u8>), SoapyError>
    decreases n,
{
    if n == 0 {
        Ok((Seq::empty(), b))
    } else if b.len() < 4 {
        Err(SoapyError::Conversion)
    } else {
        let u = read32(b[0], b[1], b[2], b[3]);
        if scalar_ok(u) {
            match dec_chars(b.skip(4), (n - 1) as nat) {
                Ok((s, rest)) => Ok((seq![char_of(u)] + s, rest)),
                Err(e) => Err(e),
            }
        } else {
            Err(SoapyError::Conversion)
        }
    }
}

pub open spec fn dec_str(b: Seq<u8>) -> Result<(Seq<char>, Seq<u8>), SoapyError> {
    if b.len() < 8 {
        Err(SoapyError::Conversion)
    } else {
        let n = read64(b[0], b[1], b[2], b[3], b[4], b[5], b[6], b[7]);
        dec_chars(b.skip(8), n as nat)
    }
}

pub open spec fn dec_u32s(b: Seq<u8>, n: nat) -> Result<(Seq<u32>, Seq<u8>), SoapyError>
    decreases n,
{
    if n == 0 {
        Ok((Seq::empty(), b))
    } else if b.len() < 4 {
        Err(SoapyError::Conversion)
    } else {
        match dec_u32s(b.skip(4), (n - 1) as nat) {
            Ok((s, rest)) => Ok((seq![read32(b[0], b[1], b[2], b[3])] + s, rest)),
            Err(e) => Err(e),
        }
    }
}

pub open spec fn dec_u64s(b: Seq<u8>, n: nat) -> Result<(Seq<u64>, Seq<u8>), SoapyError>
    decreases n,
{
    if n == 0 {
        Ok((Seq::empty(), b))
    } else if b.len() < 8 {
        Err(SoapyError::Conversion)
    } else {
        match dec_u64s(b.skip(8), (n - 1) as nat) {
            Ok((s, rest)) => Ok(
                (seq![read64(b[0], b[1], b[2], b[3], b[4], b[5], b[6], b[7])] + s, rest),
            ),
            Err(e) => Err(e),
        }
    }
}

pub open spec fn dec_bytes(b: Seq<u8>, n: nat) -> Result<(Seq<u8>, Seq<u8>), SoapyError> {
    if b.len() < n {
        Err(SoapyError::Conversion)
    } else {
        Ok((b.take(n as int), b.skip(n as int)))
    }
}

pub open spec fn dec_item(b: Seq<u8>) -> Result<(ItemV, Seq<u8>), SoapyError> {
    if b.len() < 1 {
        Err(SoapyError::Conversion)
    } else {
        let k = b[0];
        let r = b.skip(1);
        if k == 0 {
            if r.len() < 1 {
                Err(SoapyError::Conversion)
            } else {
                match code_dir(r[0]) {
                    Some(d) => Ok((ItemV::Direction(d), r.skip(1))),
                    None => Err(SoapyError::Conversion),
                }
            }
        } else if k == 1 {
            if r.len() < 1 {
                Err(SoapyError::Conversion)
            } else if r[0] == 0 {
                Ok((ItemV::Channel(None), r.skip(1)))
            } else if r[0] == 1 {
                let r2 = r.skip(1);
                if r2.len() < 8 {
                    Err(SoapyError::Conversion)
                } else {
                    let u = read64(r2[0], r2[1], r2[2], r2[3], r2[4], r2[5], r2[6], r2[7]);
                    if u <= usize::MAX as u64 {
                        Ok((ItemV::Channel(Some(u as usize)), r2.skip(8)))
                    } else {
                        Err(SoapyError::Conversion)
                    }
                }
            } else {
                Err(SoapyError::Conversion)
            }
        } else if k == 2 {
            match dec_str(r) {
                Ok((s, rest)) => Ok((ItemV::Antenna(s), rest)),
                Err(e) => Err(e),
            }
        } else if 3 <= k && k <= 6 {
            if r.len() < 8 {
                Err(SoapyError::Conversion)
            } else {
                let u = read64(r[0], r[1], r[2], r[3], r[4], r[5], r[6], r[7]);
                let it = if k == 3 {
                    ItemV::Bandwidth(u)
                } else if k == 4 {
                    ItemV::Freq(u)
                } else if k == 5 {
                    ItemV::Gain(u)
                } else {
                    ItemV::SampleRate(u)
                };
                Ok((it, r.skip(8)))
            }
        } else {
            Err(SoapyError::Conversion)
        }
    }
}

pub open spec fn dec_items(b: Seq<u8>, n: nat) -> Result<(Seq<ItemV>, Seq<u8>), SoapyError>
    decreases n,
{
    if n == 0 {
        Ok((Seq::empty(), b))
    } else {
        match dec_item(b) {
            Ok((it, r)) => match dec_items(r, (n - 1) as nat) {
                Ok((s, rest)) => Ok((seq![it] + s, rest)),
                Err(e) => Err(e),
            },
            Err(e) => Err(e),
        }
    }
}

pub open spec fn dec_config(b: Seq<u8>) -> Result<(Seq<ItemV>, Seq<u8>), SoapyError> {
    if b.len() < 8 {
        Err(SoapyError::Conversion)
    } else {
        let n = read64(b[0], b[1], b[2], b[3], b[4], b[5], b[6], b[7]);
        dec_items(b.skip(8), n as nat)
    }
}

/// The registry, as decoding sees it: the stored tag string selects the
/// decoder for the payload's fields; a tag nobody registered is an error.
pub open spec fn dec_any_serde(b: Seq<u8>) -> Result<(AnySerdeV, Seq<u8>), SoapyError> {
    match dec_str(b) {
        Ok((ts, r)) => if ts == "SoapyConfig"@ {
            match dec_config(r) {
                Ok((c, rest)) => Ok((AnySerdeV::Config(c), rest)),
                Err(e) => Err(e),
            }
        } else if ts == "SoapyConfigItem"@ {
            match dec_item(r) {
                Ok((it, rest)) => Ok((AnySerdeV::ConfigItem(it), rest)),
                Err(e) => Err(e),
            }
        } else {
            Err(SoapyError::UnknownTag)
        },
        Err(e) => Err(e),
    }
}

/// Decode one value from the front of `b`: the value and the remainder.
pub open spec fn dec(b: Seq<u8>) -> Result<(PmtV, Seq<u8>), SoapyError>
    decreases b.len(), 0int,
{
    if b.len() == 0 {
        Err(SoapyError::Conversion)
    } else {
        let t = b[0];
        let r = b.skip(1);
        if t == 0 {
            Ok((PmtV::Null, r))
        } else if t == 1 {
            match dec_str(r) {
                Ok((s, rest)) => Ok((PmtV::String(s), rest)),
                Err(e) => Err(e),
            }
        } else if t == 2 {
            if r.len() < 4 {
                Err(SoapyError::Conversion)
            } else {
                Ok((PmtV::U32(read32(r[0], r[1], r[2], r[3])), r.skip(4)))
            }
        } else if t == 3 {
            if r.len() < 8 {
                Err(SoapyError::Conversion)
            } else {
                Ok(
                    (
                        PmtV::U64(read64(r[0], r[1], r[2], r[3], r[4], r[5], r[6], r[7])),
                        r.skip(8),
                    ),
                )
            }
        } else if t == 4 {
            if r.len() < 4 {
                Err(SoapyError::Conversion)
            } else {
                Ok((PmtV::F32(read32(r[0], r[1], r[2], r[3])), r.skip(4)))
            }
        } else if t == 5 {
            if r.len() < 8 {
                Err(SoapyError::Conversion)
            } else {
                Ok(
                    (
                        PmtV::F64(read64(r[0], r[1], r[2], r[3], r[4], r[5], r[6], r[7])),
                        r.skip(8),
                    ),
                )
            }
        } else if t == 6 {
            if r.len() < 8 {
                Err(SoapyError::Conversion)
            } else {
                let n = read64(r[0], r[1], r[2], r[3], r[4], r[5], r[6], r[7]);
                match dec_u32s(r.skip(8), n as nat) {
                    Ok((s, rest)) => Ok((PmtV::VecF32(s), rest)),
                    Err(e) => Err(e),
                }
            }
        } else if t == 7 {
            if r.len() < 8 {
                Err(SoapyError::Conversion)
            } else {
                let n = read64(r[0], r[1], r[2], r[3], r[4], r[5], r[6], r[7]);
                match dec_u64s(r.skip(8), n as nat) {
                    Ok((s, rest)) => Ok((PmtV::VecU64(s), rest)),
                    Err(e) => Err(e),
                }
            }
        } else if t == 8 {
            if r.len() < 8 {
                Err(SoapyError::Conversion)
            } else {
                let n = read64(r[0], r[1], r[2], r[3], r[4], r[5], r[6], r[7]);
                match dec_bytes(r.skip(8), n as nat) {
                    Ok((s, rest)) => Ok((PmtV::Blob(s), rest)),
                    Err(e) => Err(e),
                }
            }
        } else if t == 9 {
            if r.len() < 8 {
                Err(SoapyError::Conversion)
            } else {
                let n = read64(r[0], r[1], r[2], r[3], r[4], r[5], r[6], r[7]);
                match dec_list(r.skip(8), n as nat) {
                    Ok((s, rest)) => Ok((PmtV::VecPmt(s), rest)),
                    Err(e) => Err(e),
                }
            }
        } else if t == 10 {
            if r.len() < 8 {
                Err(SoapyError::Conversion)
            } else {
                let n = read64(r[0], r[1], r[2], r[3], r[4], r[5], r[6], r[7]);
                match dec_entries(r.skip(8), n as nat) {
                    Ok((s, rest)) => Ok((PmtV::MapStrPmt(s), rest)),
                    Err(e) => Err(e),
                }
            }
        } else if t == 11 {
            match dec_any_serde(r) {
                Ok((a, rest)) => Ok((PmtV::AnySerde(a), rest)),
                Err(e) => Err(e),
            }
        } else {
            Err(SoapyError::Conversion)
        }
    }
}

pub open spec fn dec_list(b: Seq<u8>, n: nat) -> Result<(Seq<PmtV>, Seq<u8>), SoapyError>
    decreases b.len(), n + 1,
{
    if n == 0 {
        Ok((Seq::empty(), b))
    } else {
        match dec(b) {
            Ok((v, r)) => if r.len() >= b.len() {
                Err(SoapyError::Conversion)
            } else {
                match dec_list(r, (n - 1) as nat) {
                    Ok((s, rest)) => Ok((seq![v] + s, rest)),
                    Err(e) => Err(e),
                }
            },
            Err(e) => Err(e),
        }
    }
}

pub open spec fn dec_entries(b: Seq<u8>, n: nat) -> Result<
    (Seq<(Seq<char>, PmtV)>, Seq<u8>),
    SoapyError,
>
    decreases b.len(), n + 1,
{
    if n == 0 {
        Ok((Seq::empty(), b))
    } else {
        match dec_str(b) {
            Ok((k, r)) => if r.len() >= b.len() {
                Err(SoapyError::Conversion)
            } else {
                match dec(r) {
                    Ok((v, r2)) => if r2.len() >= b.len() {
                        Err(SoapyError::Conversion)
                    } else {
                        match dec_entries(r2, (n - 1) as nat) {
                            Ok((s, rest)) => Ok((seq![(k, v)] + s, rest)),
                            Err(e) => Err(e),
                        }
                    },
                    Err(e) => Err(e),
                }
            },
            Err(e) => Err(e),
        }
    }
}


fn push_le32(out: &mut Vec<u8>, v: u32)
    ensures
        final(out)@ == old(out)@ + le32(v),
{
    out.push(v as u8);
    out.push((v >> 8) as u8);
    out.push((v >> 16) as u8);
    out.push((v >> 24) as u8);
    assert(out@ =~= old(out)@ + le32(v));
}

fn push_le64(out: &mut Vec<u8>, v: u64)
    ensures
        final(out)@ == old(out)@ + le64(v),
{
    out.push(v as u8);
    out.push((v >> 8) as u8);
    out.push((v >> 16) as u8);
    out.push((v >> 24) as u8);
    out.push((v >> 32) as u8);
    out.push((v >> 40) as u8);
    out.push((v >> 48) as u8);
    out.push((v >> 56) as u8);
    assert(out@ =~= old(out)@ + le64(v));
}

#[verifier::loop_isolation(false)]
fn push_chars(out: &mut Vec<u8>, s: &str)
    ensures
        final(out)@ == old(out)@ + enc_chars(s@),
{
    let n = s.unicode_len();
    let mut i: usize = 0;
    proof {
        assert(s@.skip(0) =~= s@);
    }
    while i < n
        invariant
            i <= n,
            n == s@.len(),
            out@ + enc_chars(s@.skip(i as int)) == old(out)@ + enc_chars(s@),
        decreases n - i,
    {
        let c = s.get_char(i);
        proof {
            assert(s@.skip(i as int).first() == c);
            assert(s@.skip(i as int).drop_first() =~= s@.skip(i + 1));
        }
        let ghost before = out@;
        push_le32(out, c as u32);
        proof {
            assert(out@ + enc_chars(s@.skip(i + 1)) =~= before + enc_chars(s@.skip(i as int)));
        }
        i += 1;
    }
    proof {
        assert(s@.skip(n as int) =~= Seq::<char>::empty());
        assert(out@ + enc_chars(s@.skip(n as int)) =~= out@);
    }
}

fn push_str(out: &mut Vec<u8>, s: &str)
    ensures
        final(out)@ == old(out)@ + enc_str(s@),
{
    let n = s.unicode_len();
    push_le64(out, n as u64);
    push_chars(out, s);
    assert(out@ =~= old(out)@ + enc_str(s@));
}

fn push_item(out: &mut Vec<u8>, it: &SoapyConfigItem)
    ensures
        final(out)@ == old(out)@ + enc_item(it@),
{
    match it {
        SoapyConfigItem::Direction(d) => {
            out.push(0);
            match d {
                SoapyDirection::Default => out.push(0),
                SoapyDirection::Rx => out.push(1),
                SoapyDirection::Tx => out.push(2),
                SoapyDirection::Both => out.push(3),
                SoapyDirection::Neither => out.push(4),
            }
            assert(out@ =~= old(out)@ + enc_item(it@));
        },
        SoapyConfigItem::Channel(c) => {
            out.push(1);
            match c {
                None => {
                    out.push(0);
                },
                Some(one) => {
                    out.push(1);
                    push_le64(out, *one as u64);
                },
            }
            assert(out@ =~= old(out)@ + enc_item(it@));
        },
        SoapyConfigItem::Antenna(a) => {
            out.push(2);
            push_str(out, a.as_str());
            assert(out@ =~= old(out)@ + enc_item(it@));
        },
        SoapyConfigItem::Bandwidth(b) => {
            out.push(3);
            push_le64(out, *b);
            assert(out@ =~= old(out)@ + enc_item(it@));
        },
        SoapyConfigItem::Freq(f) => {
            out.push(4);
            push_le64(out, *f);
            assert(out@ =~= old(out)@ + enc_item(it@));
        },
        SoapyConfigItem::Gain(g) => {
            out.push(5);
            push_le64(out, *g);
            assert(out@ =~= old(out)@ + enc_item(it@));
        },
        SoapyConfigItem::SampleRate(r) => {
            out.push(6);
            push_le64(out, *r);
            assert(out@ =~= old(out)@ + enc_item(it@));
        },
    }
}

#[verifier::loop_isolation(false)]
fn push_config(out: &mut Vec<u8>, cfg: &SoapyConfig)
    ensures
        final(out)@ == old(out)@ + enc_config(cfg@),
{
    push_le64(out, cfg.0.len() as u64);
    let mut i: usize = 0;
    proof {
        assert(cfg@.skip(0) =~= cfg@);
    }
    while i < cfg.0.len()
        invariant
            i <= cfg.0.len(),
            out@ + enc_items(cfg@.skip(i as int)) == old(out)@ + enc_config(cfg@),
        decreases cfg.0.len() - i,
    {
        proof {
            assert(cfg@.skip(i as int).first() == cfg@[i as int]);
            assert(cfg@[i as int] == cfg.0@[i as int]@);
            assert(cfg@.skip(i as int).drop_first() =~= cfg@.skip(i + 1));
        }
        let ghost before = out@;
        push_item(out, &cfg.0[i]);
        proof {
            assert(out@ + enc_items(cfg@.skip(i + 1)) =~= before + enc_items(cfg@.skip(i as int)));
        }
        i += 1;
    }
    proof {
        assert(cfg@.skip(cfg@.len() as int) =~= Seq::<ItemV>::empty());
        assert(out@ + enc_items(cfg@.skip(cfg@.len() as int)) =~= out@);
    }
}

fn push_any_serde(out: &mut Vec<u8>, a: &PmtAnySerde)
    ensures
        final(out)@ == old(out)@ + enc_any_serde(a@),
{
    match a {
        PmtAnySerde::Config(c) => {
            push_str(out, "SoapyConfig");
            push_config(out, c);
            assert(out@ =~= old(out)@ + enc_any_serde(a@));
        },
        PmtAnySerde::ConfigItem(it) => {
            push_str(out, "SoapyConfigItem");
            push_item(out, it);
            assert(out@ =~= old(out)@ + enc_any_serde(a@));
        },
    }
}

#[verifier::loop_isolation(false)]
fn enc_into(p: &Pmt, out: &mut Vec<u8>)
    ensures
        final(out)@ == old(out)@ + enc(p@),
    decreases *p,
{
    match p {
        Pmt::Null => {
            out.push(0);
            assert(out@ =~= old(out)@ + enc(p@));
        },
        Pmt::String(s) => {
            out.push(1);
            push_str(out, s.as_str());
            assert(out@ =~= old(out)@ + enc(p@));
        },
        Pmt::U32(v) => {
            out.push(2);
            push_le32(out, *v);
            assert(out@ =~= old(out)@ + enc(p@));
        },
        Pmt::U64(v) => {
            out.push(3);
            push_le64(out, *v);
            assert(out@ =~= old(out)@ + enc(p@));
        },
        Pmt::F32(b) => {
            out.push(4);
            push_le32(out, *b);
            assert(out@ =~= old(out)@ + enc(p@));
        },
        Pmt::F64(b) => {
            out.push(5);
            push_le64(out, *b);
            assert(out@ =~= old(out)@ + enc(p@));
        },
        Pmt::VecF32(v) => {
            out.push(6);
            push_le64(out, v.len() as u64);
            let mut i: usize = 0;
            proof {
                assert(v@.skip(0) =~= v@);
            }
            while i < v.len()
                invariant
                    i <= v.len(),
                    out@ + enc_u32s(v@.skip(i as int)) == old(out)@ + enc(p@),
                decreases v.len() - i,
            {
                proof {
                    assert(v@.skip(i as int).first() == v@[i as int]);
                    assert(v@.skip(i as int).drop_first() =~= v@.skip(i + 1));
                }
                let ghost before = out@;
                push_le32(out, v[i]);
                proof {
                    assert(out@ + enc_u32s(v@.skip(i + 1)) =~= before + enc_u32s(
                        v@.skip(i as int),
                    ));
                }
                i += 1;
            }
            proof {
                assert(v@.skip(v@.len() as int) =~= Seq::<u32>::empty());
                assert(out@ + enc_u32s(v@.skip(v@.len() as int)) =~= out@);
            }
        },
        Pmt::VecU64(v) => {
            out.push(7);
            push_le64(out, v.len() as u64);
            let mut i: usize = 0;
            proof {
                assert(v@.skip(0) =~= v@);
            }
            while i < v.len()
                invariant
                    i <= v.len(),
                    out@ + enc_u64s(v@.skip(i as int)) == old(out)@ + enc(p@),
                decreases v.len() - i,
            {
                proof {
                    assert(v@.skip(i as int).first() == v@[i as int]);
                    assert(v@.skip(i as int).drop_first() =~= v@.skip(i + 1));
                }
                let ghost before = out@;
                push_le64(out, v[i]);
                proof {
                    assert(out@ + enc_u64s(v@.skip(i + 1)) =~= before + enc_u64s(
                        v@.skip(i as int),
                    ));
                }
                i += 1;
            }
            proof {
                assert(v@.skip(v@.len() as int) =~= Seq::<u64>::empty());
                assert(out@ + enc_u64s(v@.skip(v@.len() as int)) =~= out@);
            }
        },
        Pmt::Blob(v) => {
            out.push(8);
            push_le64(out, v.len() as u64);
            let mut i: usize = 0;
            while i < v.len()
                invariant
                    i <= v.len(),
                    out@ == old(out)@ + seq![8u8] + le64(v@.len() as u64) + v@.take(i as int),
                decreases v.len() - i,
            {
                let ghost before = out@;
                out.push(v[i]);
                proof {
                    assert(out@ =~= old(out)@ + seq![8u8] + le64(v@.len() as u64) + v@.take(
                        i + 1,
                    ));
                }
                i += 1;
            }
            proof {
                assert(v@.take(v@.len() as int) =~= v@);
                assert(out@ =~= old(out)@ + enc(p@));
            }
        },
        Pmt::VecPmt(v) => {
            out.push(9);
            push_le64(out, v.len() as u64);
            let ghost vs = pmts_v(v@);
            let mut i: usize = 0;
            proof {
                assert(vs.skip(0) =~= vs);
            }
            while i < v.len()
                invariant
                    i <= v.len(),
                    vs == pmts_v(v@),
                    vs.len() == v@.len(),
                    out@ + enc_list(vs.skip(i as int)) == old(out)@ + enc(p@),
                decreases v.len() - i,
            {
                proof {
                    assert(vs.skip(i as int).first() == vs[i as int]);
                    assert(vs[i as int] == v@[i as int]@);
                    assert(vs.skip(i as int).drop_first() =~= vs.skip(i + 1));
                }
                let ghost before = out@;
                enc_into(&v[i], out);
                proof {
                    assert(out@ + enc_list(vs.skip(i + 1)) =~= before + enc_list(
                        vs.skip(i as int),
                    ));
                }
                i += 1;
            }
            proof {
                assert(vs.skip(vs.len() as int) =~= Seq::<PmtV>::empty());
                assert(out@ + enc_list(vs.skip(vs.len() as int)) =~= out@);
            }
        },
        Pmt::MapStrPmt(m) => {
            out.push(10);
            push_le64(out, m.len() as u64);
            let ghost es = entries_v(m@);
            let mut i: usize = 0;
            proof {
                assert(es.skip(0) =~= es);
            }
            while i < m.len()
                invariant
                    i <= m.len(),
                    es == entries_v(m@),
                    es.len() == m@.len(),
                    out@ + enc_entries(es.skip(i as int)) == old(out)@ + enc(p@),
                decreases m.len() - i,
            {
                proof {
                    assert(es.skip(i as int).first() == es[i as int]);
                    assert(es[i as int].0 == m@[i as int].0@);
                    assert(es[i as int].1 == m@[i as int].1@);
                    assert(es.skip(i as int).drop_first() =~= es.skip(i + 1));
                }
                let ghost before = out@;
                let entry = &m[i];
                push_str(out, entry.0.as_str());
                enc_into(&entry.1, out);
                proof {
                    assert(out@ + enc_entries(es.skip(i + 1)) =~= before + enc_entries(
                        es.skip(i as int),
                    ));
                }
                i += 1;
            }
            proof {
                assert(es.skip(es.len() as int) =~= Seq::<(Seq<char>, PmtV)>::empty());
                assert(out@ + enc_entries(es.skip(es.len() as int)) =~= out@);
            }
        },
        Pmt::Any(_) => {
            out.push(0);
            assert(out@ =~= old(out)@ + enc(p@));
        },
        Pmt::AnySerde(a) => {
            out.push(11);
            push_any_serde(out, a);
            assert(out@ =~= old(out)@ + enc(p@));
        },
    }
}

impl Pmt {
    /// Serialize the value into its wire form.
    ///
    /// Every variant has one, except that an opaque (`Any`) payload is
    /// omitted — it leaves a `Null` on the wire, mirroring a skipped
    /// field, not an error.
    pub fn serialize(&self) -> (out: Vec<u8>)
        ensures
            out@ == enc(self@),
    {
        let mut out: Vec<u8> = Vec::new();
        enc_into(self, &mut out);
        proof {
            assert(Seq::<u8>::empty() + enc(self@) =~= enc(self@));
        }
        out
    }
}

fn read_le32_at(b: &[u8]) -> (v: u32)
    requires
        b@.len() >= 4,
    ensures
        v == read32(b@[0], b@[1], b@[2], b@[3]),
{
    let b0 = *slice_index_get(b, 0);
    let b1 = *slice_index_get(b, 1);
    let b2 = *slice_index_get(b, 2);
    let b3 = *slice_index_get(b, 3);
    (b0 as u32) | ((b1 as u32) << 8) | ((b2 as u32) << 16) | ((b3 as u32) << 24)
}

fn read_le64_at(b: &[u8]) -> (v: u64)
    requires
        b@.len() >= 8,
    ensures
        v == read64(b@[0], b@[1], b@[2], b@[3], b@[4], b@[5], b@[6], b@[7]),
{
    let b0 = *slice_index_get(b, 0);
    let b1 = *slice_index_get(b, 1);
    let b2 = *slice_index_get(b, 2);
    let b3 = *slice_index_get(b, 3);
    let b4 = *slice_index_get(b, 4);
    let b5 = *slice_index_get(b, 5);
    let b6 = *slice_index_get(b, 6);
    let b7 = *slice_index_get(b, 7);
    (b0 as u64) | ((b1 as u64) << 8) | ((b2 as u64) << 16) | ((b3 as u64) << 24) | ((b4 as u64)
        << 32) | ((b5 as u64) << 40) | ((b6 as u64) << 48) | ((b7 as u64) << 56)
}

#[verifier::loop_isolation(false)]
fn dec_str_exec<'a>(b: &'a [u8]) -> (r: Result<(String, &'a [u8]), SoapyError>)
    ensures
        match dec_str(b@) {
            Ok(t) => r matches Ok(x) && x.0@ == t.0 && x.1@ == t.1,
            Err(e) => r matches Err(e2) && e2 == e,
        },
{
    if b.len() < 8 {
        return Err(SoapyError::Conversion);
    }
    let n = read_le64_at(b);
    let mut cur = slice_subrange(b, 8, b.len());
    proof {
        assert(cur@ =~= b@.skip(8));
    }
    let ghost b0 = b@.skip(8);
    let ghost n0 = n as nat;
    let mut chars: Vec<char> = Vec::new();
    let mut j: u64 = 0;
    proof {
        match dec_chars(b0, n0) {
            Ok(t) => {
                assert(chars@ + t.0 =~= t.0);
            },
            Err(_) => {},
        }
    }
    while j < n
        invariant
            j <= n,
            n0 == n as nat,
            match dec_chars(cur@, (n - j) as nat) {
                Ok(t) => dec_chars(b0, n0) == Ok::<(Seq<char>, Seq<u8>), SoapyError>(
                    (chars@ + t.0, t.1),
                ),
                Err(e) => dec_chars(b0, n0) == Err::<(Seq<char>, Seq<u8>), SoapyError>(e),
            },
        decreases n - j,
    {
        if cur.len() < 4 {
            return Err(SoapyError::Conversion);
        }
        let u = read_le32_at(cur);
        match char::from_u32(u) {
            Some(c) => {
                proof {
                    lemma_char_of(c);
                    assert(char_of(u) == c);
                }
                let ghost prev = chars@;
                chars.push(c);
                let next = slice_subrange(cur, 4, cur.len());
                proof {
                    assert(next@ =~= cur@.skip(4));
                    match dec_chars(next@, (n - j - 1) as nat) {
                        Ok(t) => {
                            assert(prev + (seq![c] + t.0) =~= chars@ + t.0);
                        },
                        Err(_) => {},
                    }
                }
                cur = next;
                j += 1;
            },
            None => {
                return Err(SoapyError::Conversion);
            },
        }
    }
    proof {
        assert(chars@ + Seq::<char>::empty() =~= chars@);
    }
    let out = string_of_chars(&chars);
    Ok((out, cur))
}

fn dec_item_exec<'a>(b: &'a [u8]) -> (r: Result<(SoapyConfigItem, &'a [u8]), SoapyError>)
    ensures
        match dec_item(b@) {
            Ok(t) => r matches Ok(x) && x.0@ == t.0 && x.1@ == t.1,
            Err(e) => r matches Err(e2) && e2 == e,
        },
{
    if b.len() < 1 {
        return Err(SoapyError::Conversion);
    }
    let k = *slice_index_get(b, 0);
    let rr = slice_subrange(b, 1, b.len());
    proof {
        assert(rr@ =~= b@.skip(1));
    }
    if k == 0 {
        if rr.len() < 1 {
            return Err(SoapyError::Conversion);
        }
        let u = *slice_index_get(rr, 0);
        let rest = slice_subrange(rr, 1, rr.len());
        proof {
            assert(rest@ =~= rr@.skip(1));
        }
        if u == 0 {
            Ok((SoapyConfigItem::Direction(SoapyDirection::Default), rest))
        } else if u == 1 {
            Ok((SoapyConfigItem::Direction(SoapyDirection::Rx), rest))
        } else if u == 2 {
            Ok((SoapyConfigItem::Direction(SoapyDirection::Tx), rest))
        } else if u == 3 {
            Ok((SoapyConfigItem::Direction(SoapyDirection::Both), rest))
        } else if u == 4 {
            Ok((SoapyConfigItem::Direction(SoapyDirection::Neither), rest))
        } else {
            Err(SoapyError::Conversion)
        }
    } else if k == 1 {
        if rr.len() < 1 {
            return Err(SoapyError::Conversion);
        }
        let u = *slice_index_get(rr, 0);
        if u == 0 {
            let rest = slice_subrange(rr, 1, rr.len());
            proof {
                assert(rest@ =~= rr@.skip(1));
            }
            Ok((SoapyConfigItem::Channel(None), rest))
        } else if u == 1 {
            let r2 = slice_subrange(rr, 1, rr.len());
            proof {
                assert(r2@ =~= rr@.skip(1));
            }
            if r2.len() < 8 {
                return Err(SoapyError::Conversion);
            }
            let w = read_le64_at(r2);
            if w <= usize::MAX as u64 {
                let rest = slice_subrange(r2, 8, r2.len());
                proof {
                    assert(rest@ =~= r2@.skip(8));
                }
                Ok((SoapyConfigItem::Channel(Some(w as usize)), rest))
            } else {
                Err(SoapyError::Conversion)
            }
        } else {
            Err(SoapyError::Conversion)
        }
    } else if k == 2 {
        match dec_str_exec(rr) {
            Ok((a, rest)) => Ok((SoapyConfigItem::Antenna(a), rest)),
            Err(e) => Err(e),
        }
    } else if k <= 6 {
        if rr.len() < 8 {
            return Err(SoapyError::Conversion);
        }
        let w = read_le64_at(rr);
        let rest = slice_subrange(rr, 8, rr.len());
        proof {
            assert(rest@ =~= rr@.skip(8));
        }
        if k == 3 {
            Ok((SoapyConfigItem::Bandwidth(w), rest))
        } else if k == 4 {
            Ok((SoapyConfigItem::Freq(w), rest))
        } else if k == 5 {
            Ok((SoapyConfigItem::Gain(w), rest))
        } else {
            Ok((SoapyConfigItem::SampleRate(w), rest))
        }
    } else {
        Err(SoapyError::Conversion)
    }
}

#[verifier::loop_isolation(false)]
fn dec_items_exec<'a>(b: &'a [u8], n: u64) -> (r: Result<(Vec<SoapyConfigItem>, &'a [u8]), SoapyError>)
    ensures
        match dec_items(b@, n as nat) {
            Ok(t) => r matches Ok(x) && items_v(x.0@) == t.0 && x.1@ == t.1,
            Err(e) => r matches Err(e2) && e2 == e,
        },
{
    let mut cur = b;
    let mut out: Vec<SoapyConfigItem> = Vec::new();
    let mut j: u64 = 0;
    let ghost n0 = n as nat;
    proof {
        match dec_items(b@, n0) {
            Ok(t) => {
                assert(items_v(out@) + t.0 =~= t.0);
            },
            Err(_) => {},
        }
    }
    while j < n
        invariant
            j <= n,
            n0 == n as nat,
            match dec_items(cur@, (n - j) as nat) {
                Ok(t) => dec_items(b@, n0) == Ok::<(Seq<ItemV>, Seq<u8>), SoapyError>(
                    (items_v(out@) + t.0, t.1),
                ),
                Err(e) => dec_items(b@, n0) == Err::<(Seq<ItemV>, Seq<u8>), SoapyError>(e),
            },
        decreases n - j,
    {
        match dec_item_exec(cur) {
            Ok((it, rest)) => {
                let ghost prev = items_v(out@);
                let ghost itv = it@;
                out.push(it);
                proof {
                    assert(items_v(out@) =~= prev.push(itv));
                    match dec_items(rest@, (n - j - 1) as nat) {
                        Ok(t) => {
                            assert(prev + (seq![itv] + t.0) =~= items_v(out@) + t.0);
                        },
                        Err(_) => {},
                    }
                }
                cur = rest;
                j += 1;
            },
            Err(e) => {
                return Err(e);
            },
        }
    }
    proof {
        assert(items_v(out@) + Seq::<ItemV>::empty() =~= items_v(out@));
    }
    Ok((out, cur))
}

fn dec_config_exec<'a>(b: &'a [u8]) -> (r: Result<(SoapyConfig, &'a [u8]), SoapyError>)
    ensures
        match dec_config(b@) {
            Ok(t) => r matches Ok(x) && x.0@ == t.0 && x.1@ == t.1,
            Err(e) => r matches Err(e2) && e2 == e,
        },
{
    if b.len() < 8 {
        return Err(SoapyError::Conversion);
    }
    let n = read_le64_at(b);
    let r2 = slice_subrange(b, 8, b.len());
    proof {
        assert(r2@ =~= b@.skip(8));
    }
    match dec_items_exec(r2, n) {
        Ok((items, rest)) => Ok((SoapyConfig(items), rest)),
        Err(e) => Err(e),
    }
}

fn dec_any_serde_exec<'a>(b: &'a [u8]) -> (r: Result<(PmtAnySerde, &'a [u8]), SoapyError>)
    ensures
        match dec_any_serde(b@) {
            Ok(t) => r matches Ok(x) && x.0@ == t.0 && x.1@ == t.1,
            Err(e) => r matches Err(e2) && e2 == e,
        },
{
    match dec_str_exec(b) {
        Ok((ts, rr)) => {
            if str_eq(ts.as_str(), "SoapyConfig") {
                match dec_config_exec(rr) {
                    Ok((c, rest)) => Ok((PmtAnySerde::Config(c), rest)),
                    Err(e) => Err(e),
                }
            } else if str_eq(ts.as_str(), "SoapyConfigItem") {
                match dec_item_exec(rr) {
                    Ok((it, rest)) => Ok((PmtAnySerde::ConfigItem(it), rest)),
                    Err(e) => Err(e),
                }
            } else {
                Err(SoapyError::UnknownTag)
            }
        },
        Err(e) => Err(e),
    }
}


#[verifier::loop_isolation(false)]
fn dec_u32s_exec<'a>(b: &'a [u8], n: u64) -> (r: Result<(Vec<u32>, &'a [u8]), SoapyError>)
    ensures
        match dec_u32s(b@, n as nat) {
            Ok(t) => r matches Ok(x) && x.0@ == t.0 && x.1@ == t.1,
            Err(e) => r matches Err(e2) && e2 == e,
        },
{
    let mut cur = b;
    let ghost n0 = n as nat;
    let mut vals: Vec<u32> = Vec::new();
    let mut j: u64 = 0;
    proof {
        match dec_u32s(b@, n0) {
            Ok(tt) => {
                assert(vals@ + tt.0 =~= tt.0);
            },
            Err(_) => {},
        }
    }
    while j < n
        invariant
            j <= n,
            n0 == n as nat,
            match dec_u32s(cur@, (n - j) as nat) {
                Ok(tt) => dec_u32s(b@, n0) == Ok::<(Seq<u32>, Seq<u8>), SoapyError>(
                    (vals@ + tt.0, tt.1),
                ),
                Err(e) => dec_u32s(b@, n0) == Err::<(Seq<u32>, Seq<u8>), SoapyError>(e),
            },
        decreases n - j,
    {
        if cur.len() < 4 {
            return Err(SoapyError::Conversion);
        }
        let v = read_le32_at(cur);
        let ghost prev = vals@;
        vals.push(v);
        let next = slice_subrange(cur, 4, cur.len());
        proof {
            assert(next@ =~= cur@.skip(4));
            match dec_u32s(next@, (n - j - 1) as nat) {
                Ok(tt) => {
                    assert(prev + (seq![v] + tt.0) =~= vals@ + tt.0);
                },
                Err(_) => {},
            }
        }
        cur = next;
        j += 1;
    }
    proof {
        assert(vals@ + Seq::<u32>::empty() =~= vals@);
    }
    Ok((vals, cur))
}

#[verifier::loop_isolation(false)]
fn dec_u64s_exec<'a>(b: &'a [u8], n: u64) -> (r: Result<(Vec<u64>, &'a [u8]), SoapyError>)
    ensures
        match dec_u64s(b@, n as nat) {
            Ok(t) => r matches Ok(x) && x.0@ == t.0 && x.1@ == t.1,
            Err(e) => r matches Err(e2) && e2 == e,
        },
{
    let mut cur = b;
    let ghost n0 = n as nat;
    let mut vals: Vec<u64> = Vec::new();
    let mut j: u64 = 0;
    proof {
        match dec_u64s(b@, n0) {
            Ok(tt) => {
                assert(vals@ + tt.0 =~= tt.0);
            },
            Err(_) => {},
        }
    }
    while j < n
        invariant
            j <= n,
            n0 == n as nat,
            match dec_u64s(cur@, (n - j) as nat) {
                Ok(tt) => dec_u64s(b@, n0) == Ok::<(Seq<u64>, Seq<u8>), SoapyError>(
                    (vals@ + tt.0, tt.1),
                ),
                Err(e) => dec_u64s(b@, n0) == Err::<(Seq<u64>, Seq<u8>), SoapyError>(e),
            },
        decreases n - j,
    {
        if cur.len() < 8 {
            return Err(SoapyError::Conversion);
        }
        let v = read_le64_at(cur);
        let ghost prev = vals@;
        vals.push(v);
        let next = slice_subrange(cur, 8, cur.len());
        proof {
            assert(next@ =~= cur@.skip(8));
            match dec_u64s(next@, (n - j - 1) as nat) {
                Ok(tt) => {
                    assert(prev + (seq![v] + tt.0) =~= vals@ + tt.0);
                },
                Err(_) => {},
            }
        }
        cur = next;
        j += 1;
    }
    proof {
        assert(vals@ + Seq::<u64>::empty() =~= vals@);
    }
    Ok((vals, cur))
}

#[verifier::loop_isolation(false)]
#[verifier::rlimit(100)]
fn dec_list_exec<'a>(b: &'a [u8], n: u64) -> (r: Result<(Vec<Pmt>, &'a [u8]), SoapyError>)
    ensures
        match dec_list(b@, n as nat) {
            Ok(t) => r matches Ok(x) && pmts_v(x.0@) == t.0 && x.1@ == t.1,
            Err(e) => r matches Err(e2) && e2 == e,
        },
    decreases b@.len(), n as int + 1,
{
    let mut cur = b;
    let ghost n0 = n as nat;
    let mut vals: Vec<Pmt> = Vec::new();
    let mut j: u64 = 0;
    proof {
        match dec_list(b@, n0) {
            Ok(tt) => {
                assert(pmts_v(vals@) + tt.0 =~= tt.0);
            },
            Err(_) => {},
        }
    }
    while j < n
        invariant
            j <= n,
            n0 == n as nat,
            cur@.len() <= b@.len(),
            match dec_list(cur@, (n - j) as nat) {
                Ok(tt) => dec_list(b@, n0) == Ok::<(Seq<PmtV>, Seq<u8>), SoapyError>(
                    (pmts_v(vals@) + tt.0, tt.1),
                ),
                Err(e) => dec_list(b@, n0) == Err::<(Seq<PmtV>, Seq<u8>), SoapyError>(e),
            },
        decreases n - j,
    {
        match dec_exec(cur) {
            Ok((p, rest)) => {
                if rest.len() >= cur.len() {
                    return Err(SoapyError::Conversion);
                }
                let ghost prev = pmts_v(vals@);
                let ghost pv = p@;
                vals.push(p);
                proof {
                    assert(pmts_v(vals@) =~= prev.push(pv));
                    match dec_list(rest@, (n - j - 1) as nat) {
                        Ok(tt) => {
                            assert(prev + (seq![pv] + tt.0) =~= pmts_v(vals@) + tt.0);
                        },
                        Err(_) => {},
                    }
                }
                cur = rest;
                j += 1;
            },
            Err(e) => {
                return Err(e);
            },
        }
    }
    proof {
        assert(pmts_v(vals@) + Seq::<PmtV>::empty() =~= pmts_v(vals@));
    }
    Ok((vals, cur))
}

#[verifier::loop_isolation(false)]
#[verifier::rlimit(100)]
fn dec_entries_exec<'a>(b: &'a [u8], n: u64) -> (r: Result<(Vec<(String, Pmt)>, &'a [u8]), SoapyError>)
    ensures
        match dec_entries(b@, n as nat) {
            Ok(t) => r matches Ok(x) && entries_v(x.0@) == t.0 && x.1@ == t.1,
            Err(e) => r matches Err(e2) && e2 == e,
        },
    decreases b@.len(), n as int + 1,
{
    let mut cur = b;
    let ghost n0 = n as nat;
    let mut entries: Vec<(String, Pmt)> = Vec::new();
    let mut j: u64 = 0;
    proof {
        match dec_entries(b@, n0) {
            Ok(tt) => {
                assert(entries_v(entries@) + tt.0 =~= tt.0);
            },
            Err(_) => {},
        }
    }
    while j < n
        invariant
            j <= n,
            n0 == n as nat,
            cur@.len() <= b@.len(),
            match dec_entries(cur@, (n - j) as nat) {
                Ok(tt) => dec_entries(b@, n0) == Ok::<
                    (Seq<(Seq<char>, PmtV)>, Seq<u8>),
                    SoapyError,
                >((entries_v(entries@) + tt.0, tt.1)),
                Err(e) => dec_entries(b@, n0) == Err::<
                    (Seq<(Seq<char>, PmtV)>, Seq<u8>),
                    SoapyError,
                >(e),
            },
        decreases n - j,
    {
        match dec_str_exec(cur) {
            Ok((key, after_key)) => {
                if after_key.len() >= cur.len() {
                    return Err(SoapyError::Conversion);
                }
                match dec_exec(after_key) {
                    Ok((p, rest)) => {
                        if rest.len() >= cur.len() {
                            return Err(SoapyError::Conversion);
                        }
                        let ghost prev = entries_v(entries@);
                        let ghost kv = (key@, p@);
                        entries.push((key, p));
                        proof {
                            assert(entries_v(entries@) =~= prev.push(kv));
                            match dec_entries(rest@, (n - j - 1) as nat) {
                                Ok(tt) => {
                                    assert(prev + (seq![kv] + tt.0) =~= entries_v(entries@)
                                        + tt.0);
                                },
                                Err(_) => {},
                            }
                        }
                        cur = rest;
                        j += 1;
                    },
                    Err(e) => {
                        return Err(e);
                    },
                }
            },
            Err(e) => {
                return Err(e);
            },
        }
    }
    proof {
        assert(entries_v(entries@) + Seq::<(Seq<char>, PmtV)>::empty() =~= entries_v(entries@));
    }
    Ok((entries, cur))
}

/// Decode one value from the front of the bytes: the value and what
/// follows it.
#[verifier::rlimit(100)]
fn dec_exec<'a>(b: &'a [u8]) -> (r: Result<(Pmt, &'a [u8]), SoapyError>)
    ensures
        match dec(b@) {
            Ok(t) => r matches Ok(x) && x.0@ == t.0 && x.1@ == t.1,
            Err(e) => r matches Err(e2) && e2 == e,
        },
    decreases b@.len(), 0int,
{
    if b.len() == 0 {
        return Err(SoapyError::Conversion);
    }
    let t = *slice_index_get(b, 0);
    let rr = slice_subrange(b, 1, b.len());
    proof {
        assert(rr@ =~= b@.skip(1));
    }
    if t == 0 {
        Ok((Pmt::Null, rr))
    } else if t == 1 {
        match dec_str_exec(rr) {
            Ok((s, rest)) => Ok((Pmt::String(s), rest)),
            Err(e) => Err(e),
        }
    } else if t == 2 {
        if rr.len() < 4 {
            return Err(SoapyError::Conversion);
        }
        let v = read_le32_at(rr);
        let rest = slice_subrange(rr, 4, rr.len());
        proof {
            assert(rest@ =~= rr@.skip(4));
        }
        Ok((Pmt::U32(v), rest))
    } else if t == 3 {
        if rr.len() < 8 {
            return Err(SoapyError::Conversion);
        }
        let v = read_le64_at(rr);
        let rest = slice_subrange(rr, 8, rr.len());
        proof {
            assert(rest@ =~= rr@.skip(8));
        }
        Ok((Pmt::U64(v), rest))
    } else if t == 4 {
        if rr.len() < 4 {
            return Err(SoapyError::Conversion);
        }
        let v = read_le32_at(rr);
        let rest = slice_subrange(rr, 4, rr.len());
        proof {
            assert(rest@ =~= rr@.skip(4));
        }
        Ok((Pmt::F32(v), rest))
    } else if t == 5 {
        if rr.len() < 8 {
            return Err(SoapyError::Conversion);
        }
        let v = read_le64_at(rr);
        let rest = slice_subrange(rr, 8, rr.len());
        proof {
            assert(rest@ =~= rr@.skip(8));
        }
        Ok((Pmt::F64(v), rest))
    } else if t == 6 {
        if rr.len() < 8 {
            return Err(SoapyError::Conversion);
        }
        let n = read_le64_at(rr);
        let r2 = slice_subrange(rr, 8, rr.len());
        proof {
            assert(r2@ =~= rr@.skip(8));
        }
        match dec_u32s_exec(r2, n) {
            Ok((vals, rest)) => Ok((Pmt::VecF32(vals), rest)),
            Err(e) => Err(e),
        }
    } else if t == 7 {
        if rr.len() < 8 {
            return Err(SoapyError::Conversion);
        }
        let n = read_le64_at(rr);
        let r2 = slice_subrange(rr, 8, rr.len());
        proof {
            assert(r2@ =~= rr@.skip(8));
        }
        match dec_u64s_exec(r2, n) {
            Ok((vals, rest)) => Ok((Pmt::VecU64(vals), rest)),
            Err(e) => Err(e),
        }
    } else if t == 8 {
        if rr.len() < 8 {
            return Err(SoapyError::Conversion);
        }
        let n = read_le64_at(rr);
        let r2 = slice_subrange(rr, 8, rr.len());
        proof {
            assert(r2@ =~= rr@.skip(8));
        }
        if (r2.len() as u64) < n {
            proof {
                assert(r2@.len() < n as nat);
            }
            return Err(SoapyError::Conversion);
        }
        let nn = n as usize;
        let body = slice_subrange(r2, 0, nn);
        let rest = slice_subrange(r2, nn, r2.len());
        let vals = vstd::slice::slice_to_vec(body);
        proof {
            assert(vals@ =~= r2@.take(n as int));
            assert(rest@ =~= r2@.skip(n as int));
        }
        Ok((Pmt::Blob(vals), rest))
    } else if t == 9 {
        if rr.len() < 8 {
            return Err(SoapyError::Conversion);
        }
        let n = read_le64_at(rr);
        let r2 = slice_subrange(rr, 8, rr.len());
        proof {
            assert(r2@ =~= rr@.skip(8));
            assert(r2@.len() < b@.len());
        }
        match dec_list_exec(r2, n) {
            Ok((vals, rest)) => Ok((Pmt::VecPmt(vals), rest)),
            Err(e) => Err(e),
        }
    } else if t == 10 {
        if rr.len() < 8 {
            return Err(SoapyError::Conversion);
        }
        let n = read_le64_at(rr);
        let r2 = slice_subrange(rr, 8, rr.len());
        proof {
            assert(r2@ =~= rr@.skip(8));
            assert(r2@.len() < b@.len());
        }
        match dec_entries_exec(r2, n) {
            Ok((entries, rest)) => Ok((Pmt::MapStrPmt(entries), rest)),
            Err(e) => Err(e),
        }
    } else if t == 11 {
        match dec_any_serde_exec(rr) {
            Ok((a, rest)) => Ok((Pmt::AnySerde(a), rest)),
            Err(e) => Err(e),
        }
    } else {
        Err(SoapyError::Conversion)
    }
}

impl Pmt {
    /// Decode a value from its wire form; the bytes must hold exactly one
    /// value. A malformed prefix or trailing garbage is a conversion
    /// error; an unregistered type tag on a serialized opaque value is
    /// [`SoapyError::UnknownTag`].
    pub fn deserialize(bytes: &[u8]) -> (r: Result<Pmt, SoapyError>)
        ensures
            match dec(bytes@) {
                Ok(t) => (t.1.len() == 0 ==> (r matches Ok(p) && p@ == t.0)) && (t.1.len() != 0
                    ==> r == Err::<Pmt, SoapyError>(SoapyError::Conversion)),
                Err(e) => r == Err::<Pmt, SoapyError>(e),
            },
    {
        match dec_exec(bytes) {
            Ok((p, rest)) => {
                if rest.len() == 0 {
                    Ok(p)
                } else {
                    Err(SoapyError::Conversion)
                }
            },
            Err(e) => Err(e),
        }
    }
}


proof fn lemma_enc_len_pos(p: PmtV)
    ensures
        enc(p).len() >= 1,
{
}

proof fn lemma_dec_chars_rt(s: Seq<char>, rest: Seq<u8>)
    ensures
        dec_chars(enc_chars(s) + rest, s.len()) == Ok::<(Seq<char>, Seq<u8>), SoapyError>(
            (s, rest),
        ),
    decreases s.len(),
{
    if s.len() == 0 {
        assert(enc_chars(s) + rest =~= rest);
        assert(s =~= Seq::<char>::empty());
    } else {
        let c = s.first();
        let b = enc_chars(s) + rest;
        assert(b =~= le32(c as u32) + (enc_chars(s.drop_first()) + rest));
        lemma_le32_rt(c as u32);
        assert(read32(b[0], b[1], b[2], b[3]) == c as u32);
        lemma_char_of(c);
        assert(b.skip(4) =~= enc_chars(s.drop_first()) + rest);
        lemma_dec_chars_rt(s.drop_first(), rest);
        assert(seq![char_of(c as u32)] + s.drop_first() =~= s);
    }
}

proof fn lemma_dec_str_rt(s: Seq<char>, rest: Seq<u8>)
    requires
        s.len() <= u64::MAX,
    ensures
        dec_str(enc_str(s) + rest) == Ok::<(Seq<char>, Seq<u8>), SoapyError>((s, rest)),
{
    let n = s.len() as u64;
    let b = enc_str(s) + rest;
    assert(b =~= le64(n) + (enc_chars(s) + rest));
    lemma_le64_rt(n);
    assert(read64(b[0], b[1], b[2], b[3], b[4], b[5], b[6], b[7]) == n);
    assert(b.skip(8) =~= enc_chars(s) + rest);
    lemma_dec_chars_rt(s, rest);
}

proof fn lemma_dec_u32s_rt(s: Seq<u32>, rest: Seq<u8>)
    ensures
        dec_u32s(enc_u32s(s) + rest, s.len()) == Ok::<(Seq<u32>, Seq<u8>), SoapyError>((s, rest)),
    decreases s.len(),
{
    if s.len() == 0 {
        assert(enc_u32s(s) + rest =~= rest);
        assert(s =~= Seq::<u32>::empty());
    } else {
        let v = s.first();
        let b = enc_u32s(s) + rest;
        assert(b =~= le32(v) + (enc_u32s(s.drop_first()) + rest));
        lemma_le32_rt(v);
        assert(read32(b[0], b[1], b[2], b[3]) == v);
        assert(b.skip(4) =~= enc_u32s(s.drop_first()) + rest);
        lemma_dec_u32s_rt(s.drop_first(), rest);
        assert(seq![v] + s.drop_first() =~= s);
    }
}

proof fn lemma_dec_u64s_rt(s: Seq<u64>, rest: Seq<u8>)
    ensures
        dec_u64s(enc_u64s(s) + rest, s.len()) == Ok::<(Seq<u64>, Seq<u8>), SoapyError>((s, rest)),
    decreases s.len(),
{
    if s.len() == 0 {
        assert(enc_u64s(s) + rest =~= rest);
        assert(s =~= Seq::<u64>::empty());
    } else {
        let v = s.first();
        let b = enc_u64s(s) + rest;
        assert(b =~= le64(v) + (enc_u64s(s.drop_first()) + rest));
        lemma_le64_rt(v);
        assert(read64(b[0], b[1], b[2], b[3], b[4], b[5], b[6], b[7]) == v);
        assert(b.skip(8) =~= enc_u64s(s.drop_first()) + rest);
        lemma_dec_u64s_rt(s.drop_first(), rest);
        assert(seq![v] + s.drop_first() =~= s);
    }
}

proof fn lemma_dec_bytes_rt(v: Seq<u8>, rest: Seq<u8>)
    ensures
        dec_bytes(v + rest, v.len()) == Ok::<(Seq<u8>, Seq<u8>), SoapyError>((v, rest)),
{
    let b = v + rest;
    assert(b.take(v.len() as int) =~= v);
    assert(b.skip(v.len() as int) =~= rest);
}

proof fn lemma_dec_item_rt(it: ItemV, rest: Seq<u8>)
    requires
        item_sized(it),
    ensures
        dec_item(enc_item(it) + rest) == Ok::<(ItemV, Seq<u8>), SoapyError>((it, rest)),
{
    let b = enc_item(it) + rest;
    match it {
        ItemV::Direction(d) => {
            assert(b.skip(1) =~= seq![dir_code(d)] + rest);
            assert(b.skip(1).skip(1) =~= rest);
        },
        ItemV::Channel(c) => {
            match c {
                None => {
                    assert(b.skip(1) =~= seq![0u8] + rest);
                    assert(b.skip(1).skip(1) =~= rest);
                },
                Some(one) => {
                    let r = b.skip(1);
                    assert(r =~= seq![1u8] + (le64(one as u64) + rest));
                    let r2 = r.skip(1);
                    assert(r2 =~= le64(one as u64) + rest);
                    lemma_le64_rt(one as u64);
                    assert(read64(r2[0], r2[1], r2[2], r2[3], r2[4], r2[5], r2[6], r2[7]) == one
                        as u64);
                    assert(r2.skip(8) =~= rest);
                },
            }
        },
        ItemV::Antenna(a) => {
            assert(b.skip(1) =~= enc_str(a) + rest);
            lemma_dec_str_rt(a, rest);
        },
        ItemV::Bandwidth(v) => {
            let r = b.skip(1);
            assert(r =~= le64(v) + rest);
            lemma_le64_rt(v);
            assert(read64(r[0], r[1], r[2], r[3], r[4], r[5], r[6], r[7]) == v);
            assert(r.skip(8) =~= rest);
        },
        ItemV::Freq(v) => {
            let r = b.skip(1);
            assert(r =~= le64(v) + rest);
            lemma_le64_rt(v);
            assert(read64(r[0], r[1], r[2], r[3], r[4], r[5], r[6], r[7]) == v);
            assert(r.skip(8) =~= rest);
        },
        ItemV::Gain(v) => {
            let r = b.skip(1);
            assert(r =~= le64(v) + rest);
            lemma_le64_rt(v);
            assert(read64(r[0], r[1], r[2], r[3], r[4], r[5], r[6], r[7]) == v);
            assert(r.skip(8) =~= rest);
        },
        ItemV::SampleRate(v) => {
            let r = b.skip(1);
            assert(r =~= le64(v) + rest);
            lemma_le64_rt(v);
            assert(read64(r[0], r[1], r[2], r[3], r[4], r[5], r[6], r[7]) == v);
            assert(r.skip(8) =~= rest);
        },
    }
}

proof fn lemma_dec_items_rt(s: Seq<ItemV>, rest: Seq<u8>)
    requires
        forall|i: int| 0 <= i < s.len() ==> item_sized(#[trigger] s[i]),
    ensures
        dec_items(enc_items(s) + rest, s.len()) == Ok::<(Seq<ItemV>, Seq<u8>), SoapyError>(
            (s, rest),
        ),
    decreases s.len(),
{
    if s.len() == 0 {
        assert(enc_items(s) + rest =~= rest);
        assert(s =~= Seq::<ItemV>::empty());
    } else {
        let b = enc_items(s) + rest;
        assert(b =~= enc_item(s.first()) + (enc_items(s.drop_first()) + rest));
        lemma_dec_item_rt(s.first(), enc_items(s.drop_first()) + rest);
        lemma_dec_items_rt(s.drop_first(), rest);
        assert(seq![s.first()] + s.drop_first() =~= s);
    }
}

proof fn lemma_dec_config_rt(s: Seq<ItemV>, rest: Seq<u8>)
    requires
        items_sized(s),
    ensures
        dec_config(enc_config(s) + rest) == Ok::<(Seq<ItemV>, Seq<u8>), SoapyError>((s, rest)),
{
    let n = s.len() as u64;
    let b = enc_config(s) + rest;
    assert(b =~= le64(n) + (enc_items(s) + rest));
    lemma_le64_rt(n);
    assert(read64(b[0], b[1], b[2], b[3], b[4], b[5], b[6], b[7]) == n);
    assert(b.skip(8) =~= enc_items(s) + rest);
    lemma_dec_items_rt(s, rest);
}

#[verifier::rlimit(100)]
#[verifier::spinoff_prover]
proof fn lemma_dec_any_serde_rt(a: AnySerdeV, rest: Seq<u8>)
    requires
        match a {
            AnySerdeV::Config(c) => items_sized(c),
            AnySerdeV::ConfigItem(it) => item_sized(it),
        },
    ensures
        dec_any_serde(enc_any_serde(a) + rest) == Ok::<(AnySerdeV, Seq<u8>), SoapyError>(
            (a, rest),
        ),
{
    reveal_strlit("SoapyConfig");
    reveal_strlit("SoapyConfigItem");
    match a {
        AnySerdeV::Config(c) => {
            let b = enc_any_serde(a) + rest;
            assert(b =~= enc_str("SoapyConfig"@) + (enc_config(c) + rest));
            lemma_dec_str_rt("SoapyConfig"@, enc_config(c) + rest);
            lemma_dec_config_rt(c, rest);
        },
        AnySerdeV::ConfigItem(it) => {
            let b = enc_any_serde(a) + rest;
            assert(b =~= enc_str("SoapyConfigItem"@) + (enc_item(it) + rest));
            lemma_dec_str_rt("SoapyConfigItem"@, enc_item(it) + rest);
            assert("SoapyConfigItem"@ != "SoapyConfig"@);
            lemma_dec_item_rt(it, rest);
        },
    }
}


proof fn lemma_rt_string(sv: Seq<char>, rest: Seq<u8>)
    requires
        sv.len() <= u64::MAX,
    ensures
        dec(enc(PmtV::String(sv)) + rest) == Ok::<(PmtV, Seq<u8>), SoapyError>(
            (PmtV::String(sv), rest),
        ),
{
    let b = enc(PmtV::String(sv)) + rest;
    assert(b.skip(1) =~= enc_str(sv) + rest);
    lemma_dec_str_rt(sv, rest);
}

proof fn lemma_rt_u32(v: u32, rest: Seq<u8>)
    ensures
        dec(enc(PmtV::U32(v)) + rest) == Ok::<(PmtV, Seq<u8>), SoapyError>((PmtV::U32(v), rest)),
{
    let b = enc(PmtV::U32(v)) + rest;
    let r = b.skip(1);
    assert(r =~= le32(v) + rest);
    lemma_le32_rt(v);
    assert(read32(r[0], r[1], r[2], r[3]) == v);
    assert(r.skip(4) =~= rest);
}

proof fn lemma_rt_u64(v: u64, rest: Seq<u8>)
    ensures
        dec(enc(PmtV::U64(v)) + rest) == Ok::<(PmtV, Seq<u8>), SoapyError>((PmtV::U64(v), rest)),
{
    let b = enc(PmtV::U64(v)) + rest;
    let r = b.skip(1);
    assert(r =~= le64(v) + rest);
    lemma_le64_rt(v);
    assert(read64(r[0], r[1], r[2], r[3], r[4], r[5], r[6], r[7]) == v);
    assert(r.skip(8) =~= rest);
}

proof fn lemma_rt_f32(v: u32, rest: Seq<u8>)
    ensures
        dec(enc(PmtV::F32(v)) + rest) == Ok::<(PmtV, Seq<u8>), SoapyError>((PmtV::F32(v), rest)),
{
    let b = enc(PmtV::F32(v)) + rest;
    let r = b.skip(1);
    assert(r =~= le32(v) + rest);
    lemma_le32_rt(v);
    assert(read32(r[0], r[1], r[2], r[3]) == v);
    assert(r.skip(4) =~= rest);
}

proof fn lemma_rt_f64(v: u64, rest: Seq<u8>)
    ensures
        dec(enc(PmtV::F64(v)) + rest) == Ok::<(PmtV, Seq<u8>), SoapyError>((PmtV::F64(v), rest)),
{
    let b = enc(PmtV::F64(v)) + rest;
    let r = b.skip(1);
    assert(r =~= le64(v) + rest);
    lemma_le64_rt(v);
    assert(read64(r[0], r[1], r[2], r[3], r[4], r[5], r[6], r[7]) == v);
    assert(r.skip(8) =~= rest);
}

proof fn lemma_rt_vecf32(v: Seq<u32>, rest: Seq<u8>)
    requires
        v.len() <= u64::MAX,
    ensures
        dec(enc(PmtV::VecF32(v)) + rest) == Ok::<(PmtV, Seq<u8>), SoapyError>(
            (PmtV::VecF32(v), rest),
        ),
{
    let b = enc(PmtV::VecF32(v)) + rest;
    let r = b.skip(1);
    assert(r =~= le64(v.len() as u64) + (enc_u32s(v) + rest));
    lemma_le64_rt(v.len() as u64);
    assert(read64(r[0], r[1], r[2], r[3], r[4], r[5], r[6], r[7]) == v.len() as u64);
    assert(r.skip(8) =~= enc_u32s(v) + rest);
    lemma_dec_u32s_rt(v, rest);
}

proof fn lemma_rt_vecu64(v: Seq<u64>, rest: Seq<u8>)
    requires
        v.len() <= u64::MAX,
    ensures
        dec(enc(PmtV::VecU64(v)) + rest) == Ok::<(PmtV, Seq<u8>), SoapyError>(
            (PmtV::VecU64(v), rest),
        ),
{
    let b = enc(PmtV::VecU64(v)) + rest;
    let r = b.skip(1);
    assert(r =~= le64(v.len() as u64) + (enc_u64s(v) + rest));
    lemma_le64_rt(v.len() as u64);
    assert(read64(r[0], r[1], r[2], r[3], r[4], r[5], r[6], r[7]) == v.len() as u64);
    assert(r.skip(8) =~= enc_u64s(v) + rest);
    lemma_dec_u64s_rt(v, rest);
}

proof fn lemma_rt_blob(v: Seq<u8>, rest: Seq<u8>)
    requires
        v.len() <= u64::MAX,
    ensures
        dec(enc(PmtV::Blob(v)) + rest) == Ok::<(PmtV, Seq<u8>), SoapyError>((PmtV::Blob(v), rest)),
{
    let b = enc(PmtV::Blob(v)) + rest;
    let r = b.skip(1);
    assert(r =~= le64(v.len() as u64) + (v + rest));
    lemma_le64_rt(v.len() as u64);
    assert(read64(r[0], r[1], r[2], r[3], r[4], r[5], r[6], r[7]) == v.len() as u64);
    assert(r.skip(8) =~= v + rest);
    lemma_dec_bytes_rt(v, rest);
}

/// The round-trip law: decoding an encoded value yields the value back,
/// whatever follows it on the wire. It holds for every value the wire
/// format carries — everything but the opaque extension point, which is
/// deliberately omitted from the wire and so cannot round-trip.
#[verifier::rlimit(100)]
pub proof fn lemma_round_trip(p: PmtV, rest: Seq<u8>)
    requires
        serializable(p),
    ensures
        dec(enc(p) + rest) == Ok::<(PmtV, Seq<u8>), SoapyError>((p, rest)),
    decreases p,
{
    let b = enc(p) + rest;
    match p {
        PmtV::Null => {
            assert(b.skip(1) =~= rest);
        },
        PmtV::String(s) => {
            lemma_rt_string(s, rest);
        },
        PmtV::U32(v) => {
            lemma_rt_u32(v, rest);
        },
        PmtV::U64(v) => {
            lemma_rt_u64(v, rest);
        },
        PmtV::F32(v) => {
            lemma_rt_f32(v, rest);
        },
        PmtV::F64(v) => {
            lemma_rt_f64(v, rest);
        },
        PmtV::VecF32(v) => {
            lemma_rt_vecf32(v, rest);
        },
        PmtV::VecU64(v) => {
            lemma_rt_vecu64(v, rest);
        },
        PmtV::Blob(v) => {
            lemma_rt_blob(v, rest);
        },
        PmtV::VecPmt(v) => {
            let r = b.skip(1);
            assert(r =~= le64(v.len() as u64) + (enc_list(v) + rest));
            lemma_le64_rt(v.len() as u64);
            assert(read64(r[0], r[1], r[2], r[3], r[4], r[5], r[6], r[7]) == v.len() as u64);
            assert(r.skip(8) =~= enc_list(v) + rest);
            lemma_dec_list_rt(v, rest);
        },
        PmtV::MapStrPmt(m) => {
            let r = b.skip(1);
            assert(r =~= le64(m.len() as u64) + (enc_entries(m) + rest));
            lemma_le64_rt(m.len() as u64);
            assert(read64(r[0], r[1], r[2], r[3], r[4], r[5], r[6], r[7]) == m.len() as u64);
            assert(r.skip(8) =~= enc_entries(m) + rest);
            lemma_dec_entries_rt(m, rest);
        },
        PmtV::Any(_) => {
        },
        PmtV::AnySerde(a) => {
            assert(b.skip(1) =~= enc_any_serde(a) + rest);
            lemma_dec_any_serde_rt(a, rest);
        },
    }
}


/// The round-trip law in its user-facing form: serializing a value and
/// deserializing the bytes yields the original value, exactly and with
/// nothing left over. Where the value holds no extension-point payload,
/// the result is moreover *equal* to the original in the message type's
/// own equality; an opaque payload is omitted from the wire and a
/// serializable-opaque one compares only through its registered payload,
/// never through the extension point itself.
pub proof fn lemma_serialize_then_deserialize(p: PmtV)
    requires
        serializable(p),
        pmt_wf(p),
    ensures
        dec(enc(p)) == Ok::<(PmtV, Seq<u8>), SoapyError>((p, Seq::empty())),
        comparable(p) ==> pmt_eq_v(p, p),
{
    assert(enc(p) + Seq::<u8>::empty() =~= enc(p));
    lemma_round_trip(p, Seq::empty());
    if comparable(p) {
        lemma_pmt_eq_refl(p);
    }
}

#[verifier::rlimit(100)]
proof fn lemma_dec_list_rt(s: Seq<PmtV>, rest: Seq<u8>)
    requires
        forall|i: int| 0 <= i < s.len() ==> serializable(#[trigger] s[i]),
    ensures
        dec_list(enc_list(s) + rest, s.len()) == Ok::<(Seq<PmtV>, Seq<u8>), SoapyError>((s, rest)),
    decreases s,
{
    if s.len() == 0 {
        assert(enc_list(s) + rest =~= rest);
        assert(s =~= Seq::<PmtV>::empty());
    } else {
        let b = enc_list(s) + rest;
        let tail = enc_list(s.drop_first()) + rest;
        assert(b =~= enc(s.first()) + tail);
        lemma_round_trip(s.first(), tail);
        lemma_enc_len_pos(s.first());
        lemma_dec_list_rt(s.drop_first(), rest);
        assert(seq![s.first()] + s.drop_first() =~= s);
    }
}

#[verifier::rlimit(100)]
proof fn lemma_dec_entries_rt(m: Seq<(Seq<char>, PmtV)>, rest: Seq<u8>)
    requires
        forall|i: int|
            0 <= i < m.len() ==> (#[trigger] m[i]).0.len() <= u64::MAX && serializable(m[i].1),
    ensures
        dec_entries(enc_entries(m) + rest, m.len()) == Ok::<
            (Seq<(Seq<char>, PmtV)>, Seq<u8>),
            SoapyError,
        >((m, rest)),
    decreases m,
{
    if m.len() == 0 {
        assert(enc_entries(m) + rest =~= rest);
        assert(m =~= Seq::<(Seq<char>, PmtV)>::empty());
    } else {
        let b = enc_entries(m) + rest;
        let k = m.first().0;
        let v = m.first().1;
        let tail = enc_entries(m.drop_first()) + rest;
        let after_key = enc(v) + tail;
        assert(b =~= enc_str(k) + after_key);
        lemma_dec_str_rt(k, after_key);
        lemma_round_trip(v, tail);
        lemma_enc_len_pos(v);
        lemma_dec_entries_rt(m.drop_first(), rest);
        assert(seq![(k, v)] + m.drop_first() =~= m);
        assert((m.first().0, m.first().1) == m.first());
    }
}

} // verus!
