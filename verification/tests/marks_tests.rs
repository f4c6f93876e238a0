use gridedit::marks::{argb_to_bg_mark, argb_to_font_mark, argb_value, CellMark};

#[test]
fn argb_value_reads_eight_hex_digits() {
    assert_eq!(argb_value("FFFFEF00"), Some(0xFFFFEF00));
    assert_eq!(argb_value("ffffef00"), Some(0xFFFFEF00));
    assert_eq!(argb_value("00000000"), Some(0));
}

#[test]
fn argb_value_reads_six_digits_with_opaque_alpha() {
    assert_eq!(argb_value("FFFF00"), Some(0xFFFFFF00));
    assert_eq!(argb_value("0000FF"), Some(0xFF0000FF));
}

#[test]
fn argb_value_rejects_other_text() {
    assert_eq!(argb_value(""), None);
    assert_eq!(argb_value("FFFF"), None);
    assert_eq!(argb_value("GGGGGGGG"), None);
    assert_eq!(argb_value("FFFFEF001"), None);
}

#[test]
fn written_background_colors_decode_to_their_marks() {
    assert_eq!(argb_to_bg_mark("FFFFEF00"), CellMark::YellowBg);
    assert_eq!(argb_to_bg_mark("FF0000FE"), CellMark::BlueBg);
}

#[test]
fn natural_background_colors_decode_to_the_same_marks() {
    assert_eq!(argb_to_bg_mark("FFFFFF00"), CellMark::YellowBg);
    assert_eq!(argb_to_bg_mark("FFFF00"), CellMark::YellowBg);
    assert_eq!(argb_to_bg_mark("FF0000FF"), CellMark::BlueBg);
    assert_eq!(argb_to_bg_mark("0000FF"), CellMark::BlueBg);
    assert_eq!(argb_to_bg_mark("FF00BFFF"), CellMark::BlueBg);
    assert_eq!(argb_to_bg_mark("00BFFF"), CellMark::BlueBg);
}

#[test]
fn written_font_colors_decode_to_their_marks() {
    assert_eq!(argb_to_font_mark("FFFF0001"), CellMark::RedText);
    assert_eq!(argb_to_font_mark("FF008001"), CellMark::GreenText);
    assert_eq!(argb_to_font_mark("FFFF00FE"), CellMark::MagentaText);
}

#[test]
fn natural_font_colors_decode_to_the_same_marks() {
    assert_eq!(argb_to_font_mark("FFFF0000"), CellMark::RedText);
    assert_eq!(argb_to_font_mark("FF0000"), CellMark::RedText);
    assert_eq!(argb_to_font_mark("FF008000"), CellMark::GreenText);
    assert_eq!(argb_to_font_mark("008000"), CellMark::GreenText);
    assert_eq!(argb_to_font_mark("FF00FF00"), CellMark::GreenText);
    assert_eq!(argb_to_font_mark("00FF00"), CellMark::GreenText);
    assert_eq!(argb_to_font_mark("FFFF00FF"), CellMark::MagentaText);
    assert_eq!(argb_to_font_mark("FF00FF"), CellMark::MagentaText);
}

#[test]
fn unrecognized_colors_decode_to_unmarked() {
    assert_eq!(argb_to_bg_mark(""), CellMark::Unmarked);
    assert_eq!(argb_to_bg_mark("FF123456"), CellMark::Unmarked);
    assert_eq!(argb_to_font_mark("FF000001"), CellMark::Unmarked);
    assert_eq!(argb_to_font_mark("00000000"), CellMark::Unmarked);
    assert_eq!(argb_to_bg_mark("FFFF0000"), CellMark::Unmarked);
    assert_eq!(argb_to_font_mark("FFFFFF00"), CellMark::Unmarked);
}

#[test]
fn baseline_font_color_is_not_a_mark() {
    assert_eq!(argb_to_font_mark("FFFFFFFE"), CellMark::Unmarked);
}
