//! Codec parameter strings (`av01.P.LLT.DD[...]`) derived from an AV1 codec
//! configuration record.
//!
//! Record layout, bytes from 0: byte 0 holds the marker and version; byte 1
//! holds `seq_profile` (bits 7..5) and `seq_level_idx_0` (bits 4..0); byte 2
//! holds `seq_tier_0`, `high_bitdepth`, `twelve_bit`, `monochrome`,
//! `chroma_subsampling_x`, `chroma_subsampling_y` (bits 7..2) and
//! `chroma_sample_position` (bits 1..0).

use vstd::prelude::*;

use crate::decimal::{decimal, push_decimal, push_zero_padded, zero_padded};

verus! {

/// A colour description, as the ISO/IEC 23091-4 code points of its primaries,
/// transfer characteristics and matrix coefficients, and its range.
#[derive(Clone, Copy, Debug, PartialEq, Eq)]
pub struct Colorimetry {
    pub primaries: u16,
    pub transfer: u16,
    pub matrix: u16,
    pub full_range: bool,
}

/// An AV1 configuration record shorter than the three bytes read.
#[derive(Clone, Copy, Debug, PartialEq, Eq)]
pub struct MalformedConfigRecord;

pub open spec fn seq_profile(rec: Seq<u8>) -> u8 {
    (rec[1] >> 5u8) & 0x07u8
}

pub open spec fn seq_level_idx(rec: Seq<u8>) -> u8 {
    rec[1] & 0x1fu8
}

pub open spec fn seq_tier(rec: Seq<u8>) -> u8 {
    rec[2] >> 7u8
}

pub open spec fn high_bitdepth(rec: Seq<u8>) -> u8 {
    (rec[2] >> 6u8) & 0x01u8
}

pub open spec fn twelve_bit(rec: Seq<u8>) -> u8 {
    (rec[2] >> 5u8) & 0x01u8
}

pub open spec fn monochrome(rec: Seq<u8>) -> u8 {
    (rec[2] >> 4u8) & 0x01u8
}

pub open spec fn chroma_subsampling_x(rec: Seq<u8>) -> u8 {
    (rec[2] >> 3u8) & 0x01u8
}

pub open spec fn chroma_subsampling_y(rec: Seq<u8>) -> u8 {
    (rec[2] >> 2u8) & 0x01u8
}

/// Reported only when both subsampling bits are set, else zero.
pub open spec fn chroma_sample_position(rec: Seq<u8>) -> u8 {
    if chroma_subsampling_x(rec) == 1 && chroma_subsampling_y(rec) == 1 {
        rec[2] & 0x03u8
    } else {
        0
    }
}

pub open spec fn bit_depth(rec: Seq<u8>) -> u8 {
    if high_bitdepth(rec) == 1 {
        if seq_profile(rec) == 2 && twelve_bit(rec) == 1 {
            12
        } else {
            10
        }
    } else {
        8
    }
}

pub open spec fn tier_char(rec: Seq<u8>) -> char {
    if seq_tier(rec) == 0 {
        'M'
    } else {
        'H'
    }
}

/// `av01.<profile>.<level:02><tier>.<bitdepth:02>`
pub open spec fn base_codec_string(rec: Seq<u8>) -> Seq<char> {
    seq!['a', 'v', '0', '1', '.'] + decimal(seq_profile(rec) as nat) + seq!['.'] + zero_padded(
        seq_level_idx(rec) as nat,
        2,
    ) + seq![tier_char(rec), '.'] + zero_padded(bit_depth(rec) as nat, 2)
}

/// `.<mono>.<x><y><pos>.<primaries:02>.<transfer:02>.<matrix:02>.<full_range>`
pub open spec fn color_suffix(rec: Seq<u8>, c: Colorimetry) -> Seq<char> {
    seq!['.'] + decimal(monochrome(rec) as nat) + seq!['.'] + decimal(
        chroma_subsampling_x(rec) as nat,
    ) + decimal(chroma_subsampling_y(rec) as nat) + decimal(chroma_sample_position(rec) as nat)
        + seq!['.'] + zero_padded(c.primaries as nat, 2) + seq!['.'] + zero_padded(
        c.transfer as nat,
        2,
    ) + seq!['.'] + zero_padded(c.matrix as nat, 2) + seq!['.', if c.full_range {
        '1'
    } else {
        '0'
    }]
}

/// The suffix of a description with default values, which is left out.
pub open spec fn default_color_suffix() -> Seq<char> {
    seq!['.', '0', '.', '1', '1', '0', '.', '0', '1', '.', '0', '1', '.', '0', '1', '.', '0']
}

/// The codec string of a record of at least three bytes: the base string, followed
/// by the colour suffix where a description is given and its suffix is not the
/// default one.
pub open spec fn av1_codec_string(rec: Seq<u8>, color: Option<Colorimetry>) -> Seq<char> {
    match color {
        None => base_codec_string(rec),
        Some(c) => if color_suffix(rec, c) == default_color_suffix() {
            base_codec_string(rec)
        } else {
            base_codec_string(rec) + color_suffix(rec, c)
        },
    }
}

/// The codec string used for an AV1 rendition whose format carries no record.
pub open spec fn fallback_av1_codec_string() -> Seq<char> {
    seq!['a', 'v', '0', '1', '.', '0', '.', '0', '0', 'M', '.', '0', '8']
}

fn base_string(rec: &[u8]) -> (r: String)
    requires
        rec@.len() >= 3,
    ensures
        r@ == base_codec_string(rec@),
{
    let profile: u8 = (rec[1] >> 5u8) & 0x07u8;
    let level: u8 = rec[1] & 0x1fu8;
    let tier: u8 = rec[2] >> 7u8;
    let high: u8 = (rec[2] >> 6u8) & 0x01u8;
    let twelve: u8 = (rec[2] >> 5u8) & 0x01u8;
    let depth: u8 = if high == 1 {
        if profile == 2 && twelve == 1 {
            12
        } else {
            10
        }
    } else {
        8
    };
    proof {
        reveal_strlit("av01.");
        reveal_strlit(".");
        reveal_strlit("M.");
        reveal_strlit("H.");
    }
    let mut s = String::new();
    s.append("av01.");
    push_decimal(&mut s, profile as u64);
    s.append(".");
    push_zero_padded(&mut s, level as u64, 2);
    if tier == 0 {
        s.append("M.");
    } else {
        s.append("H.");
    }
    push_zero_padded(&mut s, depth as u64, 2);
    assert(s@ =~= base_codec_string(rec@));
    s
}

fn suffix_string(rec: &[u8], c: Colorimetry) -> (r: String)
    requires
        rec@.len() >= 3,
    ensures
        r@ == color_suffix(rec@, c),
{
    let mono: u8 = (rec[2] >> 4u8) & 0x01u8;
    let sub_x: u8 = (rec[2] >> 3u8) & 0x01u8;
    let sub_y: u8 = (rec[2] >> 2u8) & 0x01u8;
    let position: u8 = if sub_x == 1 && sub_y == 1 {
        rec[2] & 0x03u8
    } else {
        0
    };
    proof {
        reveal_strlit(".");
        reveal_strlit(".1");
        reveal_strlit(".0");
    }
    let mut s = String::new();
    s.append(".");
    push_decimal(&mut s, mono as u64);
    s.append(".");
    push_decimal(&mut s, sub_x as u64);
    push_decimal(&mut s, sub_y as u64);
    push_decimal(&mut s, position as u64);
    s.append(".");
    push_zero_padded(&mut s, c.primaries as u64, 2);
    s.append(".");
    push_zero_padded(&mut s, c.transfer as u64, 2);
    s.append(".");
    push_zero_padded(&mut s, c.matrix as u64, 2);
    if c.full_range {
        s.append(".1");
    } else {
        s.append(".0");
    }
    assert(s@ =~= color_suffix(rec@, c));
    s
}

/// Derives the codec parameter string of an AV1 configuration record.
pub fn compute_av1_mime(codec_data: &[u8], colorimetry: Option<Colorimetry>) -> (r: String)
    requires
        codec_data@.len() >= 3,
    ensures
        r@ == av1_codec_string(codec_data@, colorimetry),
{
    let mut base = base_string(codec_data);
    match colorimetry {
        None => base,
        Some(c) => {
            let suffix = suffix_string(codec_data, c);
            let default_suffix = String::from_str(".0.110.01.01.01.0");
            proof {
                reveal_strlit(".0.110.01.01.01.0");
                assert(default_suffix@ =~= default_color_suffix());
            }
            if suffix == default_suffix {
                base
            } else {
                base.append(suffix.as_str());
                base
            }
        },
    }
}

/// The codec string of an AV1 rendition: derived from its configuration record
/// where the format carries one, else the fallback `av01.0.00M.08`.
pub fn av1_codec_string_or_fallback(
    codec_data: Option<&[u8]>,
    colorimetry: Option<Colorimetry>,
) -> (r: Result<String, MalformedConfigRecord>)
    ensures
        match codec_data {
            None => r is Ok && r->Ok_0@ == fallback_av1_codec_string(),
            Some(d) => if d@.len() >= 3 {
                r is Ok && r->Ok_0@ == av1_codec_string(d@, colorimetry)
            } else {
                r == Err::<String, MalformedConfigRecord>(MalformedConfigRecord)
            },
        },
{
    match codec_data {
        None => {
            proof {
                reveal_strlit("av01.0.00M.08");
            }
            let r = String::from_str("av01.0.00M.08");
            assert(r@ =~= fallback_av1_codec_string());
            Ok(r)
        },
        Some(d) => {
            if d.len() >= 3 {
                Ok(compute_av1_mime(d, colorimetry))
            } else {
                Err(MalformedConfigRecord)
            }
        },
    }
}

} // verus!
