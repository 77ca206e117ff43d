use nccl_harness::parse::{
    classify, parse_error_count, parse_line, render_row, Classification, ErrorCount, FieldId, Row,
};

fn expect_row(c: Classification) -> Row {
    match c {
        Classification::DataRow(r) => r,
        Classification::Ignored => panic!("expected a data row"),
    }
}

#[test]
fn valid_row_line_classifies_as_data_row() {
    // Scenario: a well-formed 13-token table line.
    let line = "1048576 262144 float sum -1 0.123 0.456 0.789 0 0.111 0.222 0.333 0";
    let row = expect_row(classify(line));
    assert_eq!(row.size, 1048576);
    assert_eq!(row.count, 262144);
    assert_eq!(row.dtype, "float");
    assert_eq!(row.redop, "sum");
    assert_eq!(row.root, -1);
    assert_eq!(row.oop_time, "0.123");
    assert_eq!(row.oop_alg_bw, "0.456");
    assert_eq!(row.oop_bus_bw, "0.789");
    assert_eq!(row.oop_num_wrong, ErrorCount::Numeric(0));
    assert_eq!(row.ip_time, "0.111");
    assert_eq!(row.ip_alg_bw, "0.222");
    assert_eq!(row.ip_bus_bw, "0.333");
    assert_eq!(row.ip_num_wrong, ErrorCount::Numeric(0));
}

#[test]
fn log_preamble_line_is_ignored() {
    // Scenario: the tag:pid:tid prefix of a log line.
    let line = "bench:1234:5678 [0] INFO something happened";
    assert!(matches!(classify(line), Classification::Ignored));
    let (row, diag) = parse_line(line);
    assert!(row.is_none());
    assert!(diag.is_none());
}

#[test]
fn malformed_root_field_is_ignored_with_diagnostic() {
    // Scenario: 13 tokens, but the 5th (root) is not a signed integer.
    let line = "1048576 262144 float sum abc 0.123 0.456 0.789 0 0.111 0.222 0.333 0";
    let (row, diag) = parse_line(line);
    assert!(row.is_none());
    assert_eq!(diag, Some(FieldId::Root));
    assert_eq!(diag.unwrap().name(), "root");
    assert!(matches!(classify(line), Classification::Ignored));
}

#[test]
fn wrong_token_count_is_ignored_without_diagnostic() {
    let (row, diag) = parse_line("1 2 3");
    assert!(row.is_none());
    assert!(diag.is_none());
    assert!(matches!(classify(""), Classification::Ignored));
    assert!(matches!(classify("   \t  "), Classification::Ignored));
}

#[test]
fn classifier_is_total_on_arbitrary_input() {
    for line in [
        "",
        " ",
        "::",
        "a:1:2",
        "\u{1F600} \u{3000} x",
        "0 0 a b 0 0 0 0 N/A 0 0 0 N/A extra",
        "- - - - - - - - - - - - -",
    ] {
        // Must return without panicking, one of the two variants.
        match classify(line) {
            Classification::Ignored => {}
            Classification::DataRow(_) => {}
        }
    }
}

#[test]
fn not_applicable_error_counts_decode() {
    let line = "32 8 int8 min 0 1.0 2.0 3.0 N/A 4.0 5.0 6.0 N/A";
    let row = expect_row(classify(line));
    assert_eq!(row.oop_num_wrong, ErrorCount::NotApplicable);
    assert_eq!(row.ip_num_wrong, ErrorCount::NotApplicable);
    assert_eq!(parse_error_count("N/A"), Some(ErrorCount::NotApplicable));
    assert_eq!(parse_error_count("7"), Some(ErrorCount::Numeric(7)));
    assert_eq!(parse_error_count("x"), None);
    assert_eq!(parse_error_count(""), None);
}

#[test]
fn bad_error_count_field_names_the_column() {
    let line = "32 8 int8 min 0 1.0 2.0 3.0 maybe 4.0 5.0 6.0 N/A";
    let (row, diag) = parse_line(line);
    assert!(row.is_none());
    assert_eq!(diag, Some(FieldId::OopNumWrong));
    assert_eq!(diag.unwrap().name(), "oop_num_wrong");
}

#[test]
fn bad_float_field_names_the_column() {
    let line = "32 8 int8 min 0 1.0 2.0 3.0 0 4.0 fast 6.0 0";
    let (_, diag) = parse_line(line);
    assert_eq!(diag, Some(FieldId::IpAlgBw));
    assert_eq!(diag.unwrap().name(), "ip_alg_bw");
}

#[test]
fn float_tokens_accept_decimal_and_exponent_notation() {
    let ok = "32 8 f max +1 1 2. .5 0 -1.5e-3 1E+6 0.0e0 3";
    let row = expect_row(classify(ok));
    assert_eq!(row.ip_time, "-1.5e-3");
    // A bare dot or a double dot is not a float token.
    let bad_dot = "32 8 f max 1 . 2.0 3.0 0 4.0 5.0 6.0 0";
    let (r, diag) = parse_line(bad_dot);
    assert!(r.is_none());
    assert_eq!(diag, Some(FieldId::OopTime));
    let double_dot = "32 8 f max 1 1..2 2.0 3.0 0 4.0 5.0 6.0 0";
    assert!(parse_line(double_dot).0.is_none());
}

#[test]
fn size_overflow_is_a_field_error() {
    // One more than u64::MAX.
    let line = "18446744073709551616 8 f sum 0 1.0 2.0 3.0 0 4.0 5.0 6.0 0";
    let (row, diag) = parse_line(line);
    assert!(row.is_none());
    assert_eq!(diag, Some(FieldId::Size));
    assert_eq!(diag.unwrap().name(), "size");
}

#[test]
fn round_trip_preserves_a_row() {
    let line = "1048576 262144 float sum -1 0.123 0.456 0.789 0 0.111 0.222 0.333 0";
    let row = expect_row(classify(line));
    let rendered = render_row(&row);
    assert_eq!(rendered, line);
    let again = expect_row(classify(&rendered));
    assert_eq!(again.size, row.size);
    assert_eq!(again.count, row.count);
    assert_eq!(again.dtype, row.dtype);
    assert_eq!(again.redop, row.redop);
    assert_eq!(again.root, row.root);
    assert_eq!(again.oop_time, row.oop_time);
    assert_eq!(again.oop_num_wrong, row.oop_num_wrong);
    assert_eq!(again.ip_bus_bw, row.ip_bus_bw);
    assert_eq!(again.ip_num_wrong, row.ip_num_wrong);
}

#[test]
fn round_trip_normalizes_empty_reduction_op() {
    // A row with an empty op token cannot stand in a whitespace-separated
    // line; rendering emits the sentinel and reclassifying returns it.
    let row = Row {
        size: 64,
        count: 16,
        dtype: String::from("double"),
        redop: String::new(),
        root: 3,
        oop_time: String::from("1.5"),
        oop_alg_bw: String::from("2.5"),
        oop_bus_bw: String::from("3.5"),
        oop_num_wrong: ErrorCount::NotApplicable,
        ip_time: String::from("4.5"),
        ip_alg_bw: String::from("5.5"),
        ip_bus_bw: String::from("6.5"),
        ip_num_wrong: ErrorCount::Numeric(2),
    };
    let line = render_row(&row);
    assert_eq!(line, "64 16 double N/A 3 1.5 2.5 3.5 N/A 4.5 5.5 6.5 2");
    let back = expect_row(classify(&line));
    assert_eq!(back.redop, "N/A");
    assert_eq!(back.dtype, "double");
    assert_eq!(back.root, 3);
    assert_eq!(back.ip_num_wrong, ErrorCount::Numeric(2));
}

#[test]
fn negative_root_round_trips() {
    let row = expect_row(classify("1 1 half prod -9223372036854775808 0 0 0 0 0 0 0 0"));
    assert_eq!(row.root, i64::MIN);
    let line = render_row(&row);
    let back = expect_row(classify(&line));
    assert_eq!(back.root, i64::MIN);
}
