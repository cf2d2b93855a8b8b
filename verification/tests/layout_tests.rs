use peersend_protocol::layout::{
    compute_column_widths, eq_ignore_ascii_case, header_indices, max_width,
    optional_column_targets, select_columns_to_drop, table_total_width, text_width,
};

fn headers(names: &[&str]) -> Vec<String> {
    names.iter().map(|n| n.to_string()).collect()
}

#[test]
fn names_match_headers_without_regard_to_case() {
    let headers = headers(&["Id", "Name", "IP", "name", "Version"]);
    assert_eq!(header_indices(&headers, &["name"]), vec![1]);
    assert_eq!(header_indices(&headers, &["NAME", "ip", "Name"]), vec![1, 2]);
    assert_eq!(header_indices(&headers, &["version", "id"]), vec![4, 0]);
    assert_eq!(header_indices(&headers, &["missing"]), Vec::<usize>::new());
    assert_eq!(header_indices(&headers, &[]), Vec::<usize>::new());
    assert_eq!(header_indices(&[], &["id"]), Vec::<usize>::new());
}

#[test]
fn case_folding_is_ascii_only() {
    for (a, b) in [
        ("abc", "ABC"),
        ("", ""),
        ("a", "b"),
        ("a", "ab"),
        ("Straße", "STRAßE"),
        ("ä", "Ä"),
        ("@", "`"),
        ("[", "{"),
        ("z", "Z"),
        ("Az09", "aZ09"),
    ] {
        assert_eq!(eq_ignore_ascii_case(a, b), a.eq_ignore_ascii_case(b), "{:?} {:?}", a, b);
    }
    assert!(eq_ignore_ascii_case("Straße", "STRAßE"));
    assert!(!eq_ignore_ascii_case("ä", "Ä"));
}

#[test]
fn width_of_a_table() {
    assert_eq!(table_total_width(&[5, 10, 3], &[true, true, true]), 18 + 9 + 1);
    assert_eq!(table_total_width(&[5, 10, 3], &[true, false, true]), 8 + 6 + 1);
    assert_eq!(table_total_width(&[5, 10, 3], &[false, false, false]), 0);
    assert_eq!(table_total_width(&[], &[]), 0);
    assert_eq!(table_total_width(&[7], &[true]), 11);
    // marks without a width count as a column of no content
    assert_eq!(table_total_width(&[7], &[true, true]), 7 + 6 + 1);
    assert_eq!(table_total_width(&[7, 9], &[true]), 7 + 3 + 1);
}

#[test]
fn nothing_is_dropped_from_a_table_that_fits() {
    let widths = [5, 10, 3];
    assert_eq!(
        select_columns_to_drop(Some(28), &[1, 2], &widths),
        (vec![true, true, true], vec![], 28)
    );
    assert_eq!(
        select_columns_to_drop(None, &[1, 2], &widths),
        (vec![true, true, true], vec![], 28)
    );
    assert_eq!(select_columns_to_drop(Some(0), &[], &[]), (vec![], vec![], 0));
}

#[test]
fn candidates_are_dropped_until_the_table_fits() {
    let widths = [5, 10, 3, 20];
    // whole table: 38 + 12 + 1 = 51
    assert_eq!(
        select_columns_to_drop(Some(50), &[3, 1, 2], &widths),
        (vec![true, true, true, false], vec![3], 28)
    );
    assert_eq!(
        select_columns_to_drop(Some(27), &[3, 1, 2], &widths),
        (vec![true, false, true, false], vec![3, 1], 15)
    );
    // a candidate that is named twice is dropped once
    assert_eq!(
        select_columns_to_drop(Some(20), &[1, 1, 2], &widths),
        (vec![true, false, false, true], vec![1, 2], 32)
    );
    // everything can go
    assert_eq!(
        select_columns_to_drop(Some(1), &[0, 1, 2, 3], &widths),
        (vec![false, false, false, false], vec![0, 1, 2, 3], 0)
    );
}

#[test]
fn optional_columns_share_what_is_left() {
    let widths = [5, 40, 30, 3];
    let active = [true, true, true, true];
    // framing 13, required columns 8: 21
    assert_eq!(
        optional_column_targets(61, &[1, 2], &widths, &active),
        vec![(1, 20), (2, 20)]
    );
    // the share is at most 24
    assert_eq!(
        optional_column_targets(200, &[1, 2], &widths, &active),
        vec![(1, 24), (2, 24)]
    );
    // and at least 6
    assert_eq!(
        optional_column_targets(25, &[1, 2], &widths, &active),
        vec![(1, 6), (2, 6)]
    );
    assert_eq!(optional_column_targets(0, &[1, 2], &widths, &active), vec![(1, 6), (2, 6)]);
    assert_eq!(optional_column_targets(21, &[1, 2], &widths, &active), vec![(1, 6), (2, 6)]);
    // a column is never given more than it has
    // framing 13, required columns 35: 48; 20 are left for two columns
    assert_eq!(optional_column_targets(68, &[3, 1], &widths, &active), vec![(3, 3), (1, 10)]);
}

#[test]
fn hidden_optional_columns_get_no_target() {
    let widths = [5, 40, 30, 3];
    assert_eq!(
        optional_column_targets(61, &[1, 2], &widths, &[true, false, true, true]),
        vec![(2, 24)]
    );
    assert_eq!(
        optional_column_targets(61, &[1, 2], &widths, &[true, false, false, true]),
        vec![]
    );
    assert_eq!(optional_column_targets(61, &[], &widths, &[true; 4]), vec![]);
    assert_eq!(optional_column_targets(61, &[9], &widths, &[true; 4]), vec![]);
}

#[test]
fn width_of_a_text_is_that_of_its_widest_line() {
    assert_eq!(text_width(""), 0);
    assert_eq!(text_width("abc"), 3);
    assert_eq!(text_width("ab\ncdef\ng"), 4);
    assert_eq!(text_width("abc\n"), 3);
    assert_eq!(text_width("\n\n"), 0);
    // wide characters take two columns, combining marks none
    assert_eq!(text_width("日本語"), 6);
    assert_eq!(text_width("e\u{301}"), 1);
    assert_eq!(text_width("a\n日本"), 4);
    assert_eq!(max_width(&[]), 0);
    assert_eq!(max_width(&[3, 9, 2]), 9);
    assert_eq!(max_width(&[0]), 0);
}

#[test]
fn column_widths_cover_headers_and_fields() {
    let headers = headers(&["id", "hostname", "ip"]);
    let rows = vec![
        headers_row(&["1", "box", "192.168.1.10"]),
        headers_row(&["12345", "a\nlonger-name", "::1"]),
    ];
    assert_eq!(compute_column_widths(&headers, &rows), vec![5, 11, 12]);
    assert_eq!(compute_column_widths(&headers, &[]), vec![2, 8, 2]);
    assert_eq!(compute_column_widths(&[], &rows), Vec::<usize>::new());
    // a short row leaves the other columns alone, fields beyond the headers
    // belong to no column
    let ragged = vec![headers_row(&["123"]), headers_row(&["1", "2", "3", "4444444"])];
    assert_eq!(compute_column_widths(&headers, &ragged), vec![3, 8, 2]);
}

fn headers_row(fields: &[&str]) -> Vec<String> {
    fields.iter().map(|f| f.to_string()).collect()
}

#[test]
fn a_table_is_fitted_into_a_terminal() {
    let headers = headers(&["id", "hostname", "ipv4", "version", "tunnel"]);
    let rows = vec![headers_row(&[
        "1",
        "a-very-long-host-name-indeed",
        "10.144.144.1",
        "2.0.3-abcdef",
        "tcp,udp,wg",
    ])];
    let widths = compute_column_widths(&headers, &rows);
    assert_eq!(widths, vec![2, 28, 12, 12, 10]);
    let drop = header_indices(&headers, &["Tunnel", "Version"]);
    let optional = header_indices(&headers, &["hostname"]);
    assert_eq!(drop, vec![4, 3]);
    // whole table: 64 + 15 + 1 = 80
    let (active, dropped, total) = select_columns_to_drop(Some(60), &drop, &widths);
    assert_eq!(dropped, vec![4, 3]);
    assert_eq!(active, vec![true, true, true, false, false]);
    assert_eq!(total, 42 + 9 + 1);
    let (active, dropped, total) = select_columns_to_drop(Some(70), &drop, &widths);
    assert_eq!(dropped, vec![4]);
    assert_eq!(total, 54 + 12 + 1);
    assert_eq!(optional_column_targets(50, &optional, &widths, &active), vec![(1, 11)]);
}
