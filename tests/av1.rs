use yatta::av1::{av1_codec_string_or_fallback, compute_av1_mime, Colorimetry, MalformedConfigRecord};

// ISO/IEC 23091-4 code points.
const PRIMARIES_BT709: u16 = 1;
const PRIMARIES_BT2020: u16 = 9;
const TRANSFER_BT709: u16 = 1;
const TRANSFER_SMPTE2084: u16 = 16;
const MATRIX_BT709: u16 = 1;
const MATRIX_BT2020: u16 = 9;

#[test]
fn can_compute_simple_av1_mimes() {
    assert_eq!(
        compute_av1_mime(&[0b1000_0001, 0b0000_0000, 0b0000_1100], None),
        "av01.0.00M.08"
    );
}

#[test]
fn test_compute_full_av1_mime_with_colorimetry_with_default_values() {
    let colorimetry = Colorimetry {
        primaries: PRIMARIES_BT709,
        transfer: TRANSFER_BT709,
        matrix: MATRIX_BT709,
        full_range: false,
    };

    assert_eq!(
        compute_av1_mime(&[0b1000_0001, 0b0000_0000, 0b0000_1100], Some(colorimetry)),
        "av01.0.00M.08"
    );
}

#[test]
fn test_compute_full_av1_mime_with_specific_colorimetry() {
    let colorimetry = Colorimetry {
        primaries: PRIMARIES_BT2020,
        transfer: TRANSFER_SMPTE2084,
        matrix: MATRIX_BT2020,
        full_range: false,
    };

    assert_eq!(
        compute_av1_mime(&[0b1000_0001, 0b0000_0100, 0b0110_1110], Some(colorimetry)),
        "av01.0.04M.10.0.112.09.16.09.0"
    );
}

#[test]
fn profile_two_twelve_bit_high_tier() {
    // profile 2, level 13, tier H, high_bitdepth and twelve_bit set
    assert_eq!(
        compute_av1_mime(&[0x81, 0b0100_1101, 0b1110_0000], None),
        "av01.2.13H.12"
    );
}

#[test]
fn profile_two_ten_bit() {
    assert_eq!(
        compute_av1_mime(&[0x81, 0b0100_0000, 0b0100_0000], None),
        "av01.2.00M.10"
    );
}

#[test]
fn profile_one_twelve_bit_flag_gives_ten() {
    assert_eq!(
        compute_av1_mime(&[0x81, 0b0010_1111, 0b0110_0000], None),
        "av01.1.15M.10"
    );
}

#[test]
fn chroma_position_only_with_both_subsampling_bits() {
    let colorimetry = Colorimetry {
        primaries: PRIMARIES_BT709,
        transfer: TRANSFER_BT709,
        matrix: MATRIX_BT709,
        full_range: true,
    };
    // x set, y clear: the position bits are reported as 0
    assert_eq!(
        compute_av1_mime(&[0x81, 0x08, 0b0000_1011], Some(colorimetry)),
        "av01.0.08M.08.0.100.01.01.01.1"
    );
    // both set: the position bits are reported
    assert_eq!(
        compute_av1_mime(&[0x81, 0x08, 0b0001_1111], Some(colorimetry)),
        "av01.0.08M.08.1.113.01.01.01.1"
    );
}

#[test]
fn default_suffix_only_collapses_when_equal() {
    let full = Colorimetry {
        primaries: PRIMARIES_BT709,
        transfer: TRANSFER_BT709,
        matrix: MATRIX_BT709,
        full_range: true,
    };
    assert_eq!(
        compute_av1_mime(&[0x81, 0x00, 0x0c], Some(full)),
        "av01.0.00M.08.0.110.01.01.01.1"
    );
}

#[test]
fn large_code_points_are_not_truncated() {
    let c = Colorimetry { primaries: 255, transfer: 2, matrix: 100, full_range: false };
    assert_eq!(
        compute_av1_mime(&[0x81, 0x1f, 0x00], Some(c)),
        "av01.0.31M.08.0.000.255.02.100.0"
    );
}

#[test]
fn fallback_without_record() {
    assert_eq!(
        av1_codec_string_or_fallback(None, None),
        Ok("av01.0.00M.08".to_string())
    );
}

#[test]
fn record_given_is_used() {
    let record = [0x81u8, 0x04, 0x6e];
    assert_eq!(
        av1_codec_string_or_fallback(Some(&record), None),
        Ok("av01.0.04M.10".to_string())
    );
}

#[test]
fn short_record_is_refused() {
    let record = [0x81u8, 0x04];
    assert_eq!(
        av1_codec_string_or_fallback(Some(&record), None),
        Err(MalformedConfigRecord)
    );
}
