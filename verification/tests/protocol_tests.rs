use session_relay::command::{Command, Coord};
use session_relay::protocol::{check_number_text, parse_command};

fn coord(text: &str) -> Coord {
    Coord::from_text(text).expect("well-formed number text")
}

#[test]
fn parses_navigate() {
    let r = parse_command("{\"action\":\"navigate\",\"url\":\"https://example.com\"}");
    assert_eq!(
        r,
        Some(Command::Navigate { url: "https://example.com".to_string() })
    );
}

#[test]
fn parses_click() {
    let r = parse_command("{\"action\":\"click\",\"x\":100,\"y\":50}");
    assert_eq!(
        r,
        Some(Command::Click { x: coord("100"), y: coord("50") })
    );
}

#[test]
fn parses_key() {
    let r = parse_command("{\"action\":\"key\",\"key\":\"Enter\"}");
    assert_eq!(r, Some(Command::Key { key: "Enter".to_string() }));
}

#[test]
fn field_order_is_free() {
    let r = parse_command("{\"y\":50,\"x\":100,\"action\":\"click\"}");
    assert_eq!(
        r,
        Some(Command::Click { x: coord("100"), y: coord("50") })
    );
}

#[test]
fn whitespace_is_tolerated() {
    let r = parse_command("  {  \"action\" : \"key\" ,\n\t\"key\" : \"a\" }  ");
    assert_eq!(r, Some(Command::Key { key: "a".to_string() }));
}

#[test]
fn string_escapes_are_decoded() {
    let r = parse_command("{\"action\":\"key\",\"key\":\"a\\nb\\t\\\"c\\\\d\\/e\"}");
    assert_eq!(r, Some(Command::Key { key: "a\nb\t\"c\\d/e".to_string() }));
}

#[test]
fn fractional_and_negative_coordinates() {
    let r = parse_command("{\"action\":\"click\",\"x\":-12.5,\"y\":3.25e2}");
    assert_eq!(
        r,
        Some(Command::Click { x: coord("-12.5"), y: coord("3.25e2") })
    );
    assert_eq!(coord("-12.5").text().parse::<f64>().unwrap(), -12.5);
    assert_eq!(coord("3.25e2").text().parse::<f64>().unwrap(), 325.0);
}

#[test]
fn unknown_extra_fields_are_ignored() {
    let r = parse_command("{\"noise\":1,\"action\":\"key\",\"key\":\"x\",\"more\":\"y\"}");
    assert_eq!(r, Some(Command::Key { key: "x".to_string() }));
}

#[test]
fn first_occurrence_of_a_key_wins() {
    let r = parse_command("{\"action\":\"key\",\"key\":\"first\",\"key\":\"second\"}");
    assert_eq!(r, Some(Command::Key { key: "first".to_string() }));
}

#[test]
fn unknown_action_is_malformed() {
    assert_eq!(parse_command("{\"action\":\"unknown\"}"), None);
}

#[test]
fn missing_variant_field_is_malformed() {
    assert_eq!(parse_command("{\"action\":\"navigate\"}"), None);
    assert_eq!(parse_command("{\"action\":\"click\",\"x\":1}"), None);
}

#[test]
fn wrong_field_shape_is_malformed() {
    assert_eq!(parse_command("{\"action\":\"navigate\",\"url\":7}"), None);
    assert_eq!(
        parse_command("{\"action\":\"click\",\"x\":\"1\",\"y\":2}"),
        None
    );
}

#[test]
fn malformed_syntax_is_rejected() {
    assert_eq!(parse_command(""), None);
    assert_eq!(parse_command("not json"), None);
    assert_eq!(parse_command("{"), None);
    assert_eq!(parse_command("{}"), None);
    assert_eq!(parse_command("{\"action\":\"key\",\"key\":\"a\"} extra"), None);
    assert_eq!(parse_command("{\"action\":\"key\",\"key\":\"a\",}"), None);
    assert_eq!(parse_command("{\"action\":\"key\" \"key\":\"a\"}"), None);
    assert_eq!(parse_command("[\"action\"]"), None);
}

#[test]
fn unterminated_string_is_malformed() {
    assert_eq!(parse_command("{\"action\":\"key\",\"key\":\"a}"), None);
}

#[test]
fn unicode_escape_is_treated_as_malformed() {
    assert_eq!(parse_command("{\"action\":\"key\",\"key\":\"\\u0041\"}"), None);
}

#[test]
fn raw_control_character_is_malformed() {
    assert_eq!(parse_command("{\"action\":\"key\",\"key\":\"a\u{0001}b\"}"), None);
}

#[test]
fn number_grammar_accepts_and_rejects() {
    assert!(check_number_text("0"));
    assert!(check_number_text("-0"));
    assert!(check_number_text("12"));
    assert!(check_number_text("12.75"));
    assert!(check_number_text("-3.5e-2"));
    assert!(check_number_text("4E+10"));
    assert!(!check_number_text(""));
    assert!(!check_number_text("-"));
    assert!(!check_number_text("01"));
    assert!(!check_number_text("1."));
    assert!(!check_number_text(".5"));
    assert!(!check_number_text("1e"));
    assert!(!check_number_text("1.2.3"));
    assert!(!check_number_text("abc"));
    assert!(!check_number_text("1 "));
}

#[test]
fn coord_round_trips_its_text() {
    let c = Coord::from_text("-42.5").expect("valid");
    assert_eq!(c.text(), "-42.5");
    assert!(Coord::from_text("x1").is_none());
    assert!(Coord::from_text("").is_none());
}

#[test]
fn non_ascii_text_passes_through_strings() {
    let r = parse_command("{\"action\":\"navigate\",\"url\":\"https://例え.jp/ä\"}");
    assert_eq!(
        r,
        Some(Command::Navigate { url: "https://例え.jp/ä".to_string() })
    );
}
