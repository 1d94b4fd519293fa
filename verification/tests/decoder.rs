use audioqueue::progress::{decode_progress_line, PROGRESS_CAP_MILLI};

#[test]
fn percent_line_yields_value() {
    assert_eq!(decode_progress_line("[download]  42.5% of 3.2MiB"), Some(42500));
}

#[test]
fn line_without_percent_yields_nothing() {
    assert_eq!(decode_progress_line("frag 1/5"), None);
    assert_eq!(decode_progress_line(""), None);
}

#[test]
fn rightmost_percent_wins() {
    assert_eq!(decode_progress_line("100% done, cached at 50%"), Some(50000));
}

#[test]
fn whole_number_percent() {
    assert_eq!(decode_progress_line("progress: 7%"), Some(7000));
    assert_eq!(decode_progress_line("100%"), Some(100000));
}

#[test]
fn bare_percent_has_no_number() {
    assert_eq!(decode_progress_line("done %"), None);
    assert_eq!(decode_progress_line("%"), None);
}

#[test]
fn malformed_tokens_do_not_parse() {
    // Two dots cannot parse as one number.
    assert_eq!(decode_progress_line("1.2.3%"), None);
    // A lone dot has no digit.
    assert_eq!(decode_progress_line("ratio .%"), None);
}

#[test]
fn partial_decimals_parse() {
    // A trailing dot still reads as the integer value.
    assert_eq!(decode_progress_line("5.%"), Some(5000));
    // A leading dot reads as a fraction.
    assert_eq!(decode_progress_line(".5%"), Some(500));
}

#[test]
fn fraction_truncates_to_thousandths() {
    assert_eq!(decode_progress_line("12.3456%"), Some(12345));
}

#[test]
fn huge_values_saturate() {
    assert_eq!(
        decode_progress_line("99999999999999999999%"),
        Some(PROGRESS_CAP_MILLI)
    );
}

#[test]
fn surrounding_text_is_tolerated() {
    assert_eq!(
        decode_progress_line("[download]  13.0% of ~4MiB at 1.2MiB/s ETA 00:01"),
        Some(13000)
    );
}
