use pimax_alvr::config::{COLOR_BLACK_CRUSH_DEFAULT_BITS, COLOR_GAIN_DEFAULT_BITS};
use pimax_alvr::video::{color_adjustment_for_hdr_enabled, configure_hdr_stream};

fn floats(enable_hdr: bool) -> (f32, f32) {
    let adjustment = color_adjustment_for_hdr_enabled(enable_hdr);
    (
        f32::from_bits(adjustment.black_crush),
        f32::from_bits(adjustment.gain),
    )
}

#[test]
fn hdr_enabled_uses_neutral_color_adjustment() {
    assert_eq!(floats(true), (0.0, 1.0));
}

#[test]
fn hdr_disabled_uses_sdr_defaults() {
    assert_eq!(
        floats(false),
        (
            f32::from_bits(COLOR_BLACK_CRUSH_DEFAULT_BITS),
            f32::from_bits(COLOR_GAIN_DEFAULT_BITS)
        )
    );
    assert_eq!(floats(false), (0.072, 1.22));
}

#[test]
fn hdr_stream_changes_the_correction() {
    let mut adjustment = color_adjustment_for_hdr_enabled(false);
    configure_hdr_stream(&mut adjustment, true);
    assert_eq!(adjustment, color_adjustment_for_hdr_enabled(true));
}
