use gridedit::format::{is_date_format, is_date_serial, is_plain_numeric_code, normalize_date_format, number_to_column, str_eq};

#[test]
fn sentinel_codes_are_never_date_formats() {
    assert!(!is_date_format("General"));
    assert!(!is_date_format("@"));
}

#[test]
fn codes_with_date_tokens_are_date_formats() {
    assert!(is_date_format("yyyy/mm/dd"));
    assert!(is_date_format("YYYY-MM-DD"));
    assert!(is_date_format("h:mm"));
    assert!(is_date_format("mmm-yy"));
}

#[test]
fn plain_number_codes_are_not_date_formats() {
    assert!(!is_date_format("0.00"));
    assert!(!is_date_format("#,##0"));
    assert!(!is_date_format(""));
}

#[test]
fn normalization_picks_one_of_three_patterns() {
    assert_eq!(normalize_date_format("yyyy/m/d h:mm"), "yyyy-mm-dd hh:mm:ss");
    assert_eq!(normalize_date_format("d-mmm-yy HH:MM"), "yyyy-mm-dd hh:mm:ss");
    assert_eq!(normalize_date_format("h:mm"), "hh:mm:ss");
    assert_eq!(normalize_date_format("mm:ss AM/PM"), "hh:mm:ss");
    assert_eq!(normalize_date_format("yyyy/mm/dd"), "yyyy-mm-dd");
    assert_eq!(normalize_date_format("mmm-yy"), "yyyy-mm-dd");
}

#[test]
fn meridiem_alone_counts_as_time() {
    assert_eq!(normalize_date_format("mm AM/PM"), "hh:mm:ss");
}

#[test]
fn str_eq_compares_characters() {
    assert!(str_eq("General", "General"));
    assert!(!str_eq("General", "general"));
    assert!(!str_eq("a", "ab"));
    assert!(str_eq("", ""));
}

#[test]
fn column_labels_use_bijective_base_26() {
    assert_eq!(number_to_column(1), "A");
    assert_eq!(number_to_column(2), "B");
    assert_eq!(number_to_column(26), "Z");
    assert_eq!(number_to_column(27), "AA");
    assert_eq!(number_to_column(52), "AZ");
    assert_eq!(number_to_column(256), "IV");
    assert_eq!(number_to_column(702), "ZZ");
    assert_eq!(number_to_column(703), "AAA");
}

#[test]
fn day_number_shapes_are_recognized() {
    assert!(is_date_serial("45000"));
    assert!(is_date_serial("0.5"));
    assert!(is_date_serial("2958465"));
    assert!(is_date_serial("45000.25"));
    assert!(is_date_serial("2958464.999"));
    assert!(!is_date_serial("2958465.5"));
    assert!(!is_date_serial("2958466"));
    assert!(!is_date_serial("99999999"));
    assert!(!is_date_serial("-1"));
    assert!(!is_date_serial("1e5"));
    assert!(!is_date_serial("abc"));
    assert!(!is_date_serial(""));
    assert!(!is_date_serial("1.2.3"));
}

#[test]
fn tame_numeric_codes_are_recognized() {
    assert!(is_plain_numeric_code("0.00"));
    assert!(is_plain_numeric_code("#,##0.00"));
    assert!(is_plain_numeric_code("0%"));
    assert!(is_plain_numeric_code("$0.00"));
    assert!(is_plain_numeric_code("0.00;-0.00;0"));
    assert!(!is_plain_numeric_code("\"abc\""));
    assert!(!is_plain_numeric_code("0;0;0;0;0;0"));
    assert!(!is_plain_numeric_code("0,,,,"));
    assert!(!is_plain_numeric_code("# ?/?"));
}

#[test]
fn column_label_of_zero_is_empty() {
    assert_eq!(number_to_column(0), "");
}
