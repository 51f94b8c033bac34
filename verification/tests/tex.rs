use parse_references::chars::{chars_of, string_of};
use parse_references::tex::{
    escape_chars, find_free, match_free_char, rfind_free, Command, Text,
};

#[test]
fn number_range() {
    assert_eq!(Text("23--50").to_string(), "23–50",);
}

#[test]
fn em_dash() {
    assert_eq!(
        Text("Upon discovering the errors---all 124 of them---the publisher immediately recalled the books.").to_string(),
        "Upon discovering the errors—all 124 of them—the publisher immediately recalled the books.",
    );
}

#[test]
fn mixed() {
    assert_eq!(Text("--- -- -").to_string(), "— – -",)
}

#[test]
fn quotes() {
    assert_eq!(Text("`-'").to_string(), "‘-’",)
}

#[test]
fn quotes2() {
    assert_eq!(Text("``--''").to_string(), "“–”",)
}

#[test]
fn command() {
    assert_eq!(Text("\\$").to_string(), "$",);
    assert_eq!(Text("\\&").to_string(), "&",);
    assert_eq!(Text("\\dots").to_string(), "…",);
    assert_eq!(Text("\\invalid").to_string(), "",);
    assert_eq!(Text("\\$ \\& \\dots ").to_string(), "$ & … ",);
    assert_eq!(Text("\\$\\&\\\\\\dots").to_string(), "$&\\…",);
}

#[test]
fn latex_space_match() {
    let s = "Os{ }Multantes da Record";
    let mut matcher = match_free_char(' ');

    assert_eq!(
        s.split_once(|d| matcher.matches(d)),
        Some(("Os{ }Multantes", "da Record")),
    );
}

#[test]
fn en_dash_between_letters() {
    assert_eq!(Text("a--b").to_string(), "a–b");
    assert_eq!(Text("a---b").to_string(), "a—b");
}

#[test]
fn pending_state_is_flushed_at_the_end() {
    assert_eq!(Text("a-").to_string(), "a-");
    assert_eq!(Text("a--").to_string(), "a–");
    assert_eq!(Text("a`").to_string(), "a‘");
    assert_eq!(Text("a'").to_string(), "a’");
    assert_eq!(Text("a\\").to_string(), "a");
    assert_eq!(Text("").to_string(), "");
}

#[test]
fn four_hyphens_are_a_dash_and_a_hyphen() {
    assert_eq!(Text("----").to_string(), "—-");
    assert_eq!(Text("-----").to_string(), "—–");
}

#[test]
fn unknown_command_takes_its_space_along() {
    assert_eq!(Text("a \\foo b").to_string(), "a b");
    assert_eq!(Text("\\foo\\$").to_string(), "$");
}

#[test]
fn command_after_text_beyond_ascii() {
    assert_eq!(Text("é\\dots").to_string(), "é…");
    assert_eq!(Text("São\\& João").to_string(), "São& João");
}

#[test]
fn marks_follow_one_another() {
    assert_eq!(Text("-`").to_string(), "-‘");
    assert_eq!(Text("--'").to_string(), "–’");
    assert_eq!(Text("`'").to_string(), "‘’");
    assert_eq!(Text("'-").to_string(), "’-");
    assert_eq!(Text("`\\$").to_string(), "‘$");
    assert_eq!(Text("'x").to_string(), "’x");
}

#[test]
fn escaping_plain_text_twice_changes_nothing() {
    for sample in ["Aldeias e aldeamentos", "São Paulo: EDUSP, 1988.", "it's ''quoted''", ""] {
        let once = Text(sample).to_string();
        let twice = Text(&once).to_string();
        assert_eq!(once, twice);
    }
    assert_eq!(Text("plain text").to_string(), "plain text");
}

#[test]
fn escape_chars_agrees_with_text() {
    let out = escape_chars(&chars_of("``a''--b"));
    assert_eq!(string_of(&out), "“a”–b");
}

#[test]
fn command_from_span() {
    let s = chars_of("x\\dots \\& \\$ \\no");
    assert_eq!(Command::from_span(&s, 1, 6), Some(Command::Dots));
    assert_eq!(Command::from_span(&s, 7, 9), Some(Command::Ampersand));
    assert_eq!(Command::from_span(&s, 10, 12), Some(Command::Dollar));
    assert_eq!(Command::from_span(&s, 13, 16), None);
    assert_eq!(Command::from_span(&s, 1, 5), None);
    assert_eq!(Command::from_span(&s, 6, 1), None);
    assert_eq!(Command::from_span(&s, 1, 99), None);
    assert_eq!(Command::Dots.symbol(), '…');
    assert_eq!(Command::Ampersand.symbol(), '&');
    assert_eq!(Command::Dollar.symbol(), '$');
}

#[test]
fn free_characters_are_found_outside_braces() {
    let s = chars_of("a{,}b,c{d,e},f");
    assert_eq!(find_free(&s, ','), Some(5));
    assert_eq!(rfind_free(&s, ','), Some(12));
    let none = chars_of("{a,b}");
    assert_eq!(find_free(&none, ','), None);
    assert_eq!(rfind_free(&none, ','), None);
    let unbalanced = chars_of("}a b");
    assert_eq!(find_free(&unbalanced, ' '), Some(2));
}

#[test]
fn escaping_text_without_commands_twice_changes_nothing() {
    for sample in ["a - b --- c -- d", "----", "``x'' `y' -", "-----`-'"] {
        let once = Text(sample).to_string();
        let twice = Text(&once).to_string();
        assert_eq!(once, twice);
    }
}
