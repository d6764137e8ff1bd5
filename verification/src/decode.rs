//! Decoding the byte content of a symlink file into its target text.
//!
//! A symlink file begins with the ten ASCII bytes `!<symlink>`. The bytes
//! after that marker are the target text: UTF-16 when a two-byte byte-order
//! mark leads them (`FE FF` big-endian, `FF FE` little-endian), otherwise
//! UTF-8 with lossy substitution. UTF-16 decoding keeps code units up to
//! the first zero unit that is not immediately at the start, and ignores a
//! trailing odd byte.

use vstd::prelude::*;

verus! {

/// The ten marker bytes `!<symlink>` that open a symlink file.
pub open spec fn magic_bytes() -> Seq<u8> {
    seq![33u8, 60u8, 115u8, 121u8, 109u8, 108u8, 105u8, 110u8, 107u8, 62u8]
}

/// One UTF-16 code unit built from two bytes in the given byte order.
pub open spec fn unit16(hi_first: u8, lo_first: u8, big_endian: bool) -> u16 {
    if big_endian {
        (hi_first as int * 256 + lo_first as int) as u16
    } else {
        (lo_first as int * 256 + hi_first as int) as u16
    }
}

/// The UTF-16 code units kept from the payload bytes: pairs in order,
/// stopping before a zero unit anywhere past the first unit, and dropping
/// a trailing odd byte. `first` says whether the next unit would be the
/// very first one.
pub open spec fn kept_units(data: Seq<u8>, big_endian: bool, first: bool) -> Seq<u16>
    decreases data.len(),
{
    if data.len() < 2 {
        Seq::empty()
    } else {
        let u = unit16(data[0], data[1], big_endian);
        if u == 0 && !first {
            Seq::empty()
        } else {
            seq![u] + kept_units(data.skip(2), big_endian, false)
        }
    }
}

/// What the result of decoding stands for: the target text obtained from
/// the payload bytes (everything after the marker).
pub open spec fn decode_spec(data: Seq<u8>) -> Seq<char> {
    if data.len() >= 2 && data[0] == 254 && data[1] == 255 {
        utf16_lossy_of(kept_units(data.skip(2), true, true))
    } else if data.len() >= 2 && data[0] == 255 && data[1] == 254 {
        utf16_lossy_of(kept_units(data.skip(2), false, true))
    } else {
        utf8_lossy_of(data)
    }
}

/// What a symlink file's bytes decode to: the target text when the marker
/// leads the file, nothing otherwise.
pub open spec fn symlink_target_spec(bytes: Seq<u8>) -> Option<Seq<char>> {
    if bytes.len() >= 10 && bytes.subrange(0, 10) == magic_bytes() {
        Some(decode_spec(bytes.skip(10)))
    } else {
        None
    }
}

pub uninterp spec fn utf8_lossy_of(data: Seq<u8>) -> Seq<char>;

pub uninterp spec fn utf16_lossy_of(units: Seq<u16>) -> Seq<char>;

/// Relies on `String::from_utf8_lossy`: decodes the bytes as UTF-8,
/// substituting the replacement character for invalid sequences; the
/// result depends on the bytes alone, and bytes that are all ASCII are
/// valid UTF-8 and decode to exactly their own characters.
#[verifier::external_body]
fn utf8_lossy(data: &Vec<u8>) -> (r: String)
    ensures
        r@ == utf8_lossy_of(data@),
        (forall|k: int| 0 <= k < data@.len() ==> data@[k] < 128) ==> r@.len() == data@.len()
            && (forall|k: int| 0 <= k < data@.len() ==> #[trigger] r@[k] as u32 == data@[k] as u32),
{
    String::from_utf8_lossy(data).into_owned()
}

/// Relies on `String::from_utf16_lossy`: decodes the code units as
/// UTF-16, substituting the replacement character for unpaired
/// surrogates; the result depends on the units alone, and units below the
/// surrogate range are valid UTF-16 and decode each to the scalar of the
/// same value.
#[verifier::external_body]
fn utf16_lossy(units: &Vec<u16>) -> (r: String)
    ensures
        r@ == utf16_lossy_of(units@),
        (forall|k: int| 0 <= k < units@.len() ==> units@[k] < 0xD800) ==> r@.len() == units@.len()
            && (forall|k: int|
                0 <= k < units@.len() ==> #[trigger] r@[k] as u32 == units@[k] as u32),
{
    String::from_utf16_lossy(units.as_slice())
}

/// Decodes payload bytes into target text: UTF-16 when a byte-order mark
/// leads them, UTF-8 with lossy substitution otherwise.
pub fn string_from_utf_bom_lossy(data: &Vec<u8>) -> (r: String)
    ensures
        r@ == decode_spec(data@),
{
    let n: usize = data.len();
    let big_endian: bool = n >= 2 && data[0] == 254 && data[1] == 255;
    let little_endian: bool = n >= 2 && data[0] == 255 && data[1] == 254;
    if !big_endian && !little_endian {
        return utf8_lossy(data);
    }
    let ghost payload = data@.skip(2);
    let mut units: Vec<u16> = Vec::new();
    let mut i: usize = 2;
    proof {
        assert(Seq::<u16>::empty() + kept_units(data@.skip(2), big_endian, true) =~= kept_units(
            payload,
            big_endian,
            true,
        ));
    }
    loop
        invariant_except_break
            2 <= i <= n,
            n == data@.len(),
            payload == data@.skip(2),
            kept_units(payload, big_endian, true) == units@ + kept_units(
                data@.skip(i as int),
                big_endian,
                i == 2,
            ),
        ensures
            kept_units(payload, big_endian, true) == units@,
        decreases n - i,
    {
        if n - i < 2 {
            proof {
                assert(data@.skip(i as int).len() < 2);
                assert(kept_units(data@.skip(i as int), big_endian, i == 2)
                    =~= Seq::<u16>::empty());
                assert(units@ + Seq::<u16>::empty() =~= units@);
            }
            break;
        }
        let hi: u16 = data[i] as u16;
        let lo: u16 = data[i + 1] as u16;
        let u: u16 = if big_endian {
            hi * 256 + lo
        } else {
            lo * 256 + hi
        };
        proof {
            let rest = data@.skip(i as int);
            assert(rest.len() >= 2);
            assert(rest[0] == data@[i as int]);
            assert(rest[1] == data@[i as int + 1]);
            assert(u == unit16(rest[0], rest[1], big_endian));
            assert(rest.skip(2) =~= data@.skip(i as int + 2));
        }
        if u == 0 && i > 2 {
            proof {
                assert(kept_units(data@.skip(i as int), big_endian, false) =~= Seq::<u16>::empty());
                assert(units@ + Seq::<u16>::empty() =~= units@);
            }
            break;
        }
        let ghost olds = units@;
        units.push(u);
        proof {
            let rest = data@.skip(i as int);
            assert(kept_units(rest, big_endian, i == 2) == seq![u] + kept_units(
                data@.skip(i as int + 2),
                big_endian,
                false,
            ));
            assert(olds + (seq![u] + kept_units(data@.skip(i as int + 2), big_endian, false))
                =~= units@ + kept_units(data@.skip(i as int + 2), big_endian, false));
        }
        i = i + 2;
    }
    utf16_lossy(&units)
}

/// Decodes a whole symlink file's bytes: the target text when the file
/// opens with the `!<symlink>` marker, nothing otherwise.
pub fn symlink_target_from_bytes(bytes: &Vec<u8>) -> (r: Option<String>)
    ensures
        match r {
            Some(s) => symlink_target_spec(bytes@) == Some(s@),
            None => symlink_target_spec(bytes@) is None,
        },
{
    if bytes.len() < 10 {
        return None;
    }
    let m = bytes[0] == 33 && bytes[1] == 60 && bytes[2] == 115 && bytes[3] == 121 && bytes[4]
        == 109 && bytes[5] == 108 && bytes[6] == 105 && bytes[7] == 110 && bytes[8] == 107
        && bytes[9] == 62;
    if !m {
        proof {
            let sub = bytes@.subrange(0, 10);
            if sub == magic_bytes() {
                assert(bytes@[0] == sub[0]);
                assert(bytes@[1] == sub[1]);
                assert(bytes@[2] == sub[2]);
                assert(bytes@[3] == sub[3]);
                assert(bytes@[4] == sub[4]);
                assert(bytes@[5] == sub[5]);
                assert(bytes@[6] == sub[6]);
                assert(bytes@[7] == sub[7]);
                assert(bytes@[8] == sub[8]);
                assert(bytes@[9] == sub[9]);
            }
        }
        return None;
    }
    proof {
        assert(bytes@.subrange(0, 10) =~= magic_bytes());
    }
    let n: usize = bytes.len();
    let mut payload: Vec<u8> = Vec::new();
    let mut i: usize = 10;
    while i < n
        invariant
            10 <= i <= n,
            n == bytes@.len(),
            payload@ == bytes@.subrange(10, i as int),
        decreases n - i,
    {
        payload.push(bytes[i]);
        assert(payload@ =~= bytes@.subrange(10, i as int + 1));
        i = i + 1;
    }
    proof {
        assert(payload@ =~= bytes@.skip(10));
    }
    Some(string_from_utf_bom_lossy(&payload))
}

} // verus!
