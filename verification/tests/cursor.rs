use niri_overview::cursor::parse_hotspot;

#[test]
fn hotspot_from_comment() {
    let svg = "<svg>\n<!-- Hotspot: 12, 7\n-->\n</svg>";
    assert_eq!(parse_hotspot(svg), (12, 7));
    // The rest of the line belongs to the second number.
    assert_eq!(parse_hotspot("<!-- Hotspot: 12, 7 -->"), (12, 0));
}

#[test]
fn hotspot_default_without_comment() {
    assert_eq!(parse_hotspot("<svg></svg>"), (1, 1));
    assert_eq!(parse_hotspot(""), (1, 1));
}

#[test]
fn hotspot_capped_and_invalid_numbers() {
    assert_eq!(parse_hotspot("Hotspot: 500,+3"), (128, 3));
    assert_eq!(parse_hotspot("Hotspot: x,4\n"), (0, 4));
    assert_eq!(parse_hotspot("Hotspot: -1, 99999999999"), (0, 0));
    assert_eq!(parse_hotspot("Hotspot: 4294967295,4294967296"), (128, 0));
}

#[test]
fn hotspot_line_without_comma_is_skipped() {
    let svg = "Hotspot: 5\r\nnothing\r\n  <!-- Hotspot:\t8 ,\u{a0}9\r\n";
    assert_eq!(parse_hotspot(svg), (8, 9));
}

#[test]
fn hotspot_first_match_wins() {
    assert_eq!(parse_hotspot("a Hotspot: 2,3 Hotspot: 4,5\nHotspot: 6,7"), (2, 0));
}
