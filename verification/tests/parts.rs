use parse_references::date::Date;
use parse_references::extra::ExtraInfo;
use parse_references::issue::Issue;
use parse_references::join::{Join, JoinAnd};
use parse_references::location_publisher::LocationPublisher;
use parse_references::numbers::{read_u8, write_u8};
use parse_references::pages::Pages;
use parse_references::strong::Strong;
use parse_references::volume::Volume;

fn chars(s: &str) -> Vec<char> {
    s.chars().collect()
}

fn strings(items: &[&str]) -> Vec<String> {
    items.iter().map(|s| s.to_string()).collect()
}

#[test]
fn it_works() {
    let result = 2 + 2;
    assert_eq!(result, 4);
}

#[test]
fn issue() {
    let iss = Issue("5");

    assert_eq!(iss.to_string(), "n. 5");
}

#[test]
fn volume() {
    let vol = Volume("5");

    assert_eq!(vol.to_string(), "v. 5");
}

#[test]
fn single_page() {
    let p = Pages::Single("v");
    let output = p.to_string();

    assert_eq!(output, "p. v");
}

#[test]
fn page_range() {
    let p = Pages::Range("2", "10");
    let output = p.to_string();

    assert_eq!(output, "p. 2–10");
}

#[test]
fn pages_from_a_field() {
    assert_eq!(Pages::from_str("201--226").to_string(), "p. 201–226");
    assert_eq!(Pages::from_str("v").to_string(), "p. v");
    assert!(matches!(Pages::from_str("27"), Pages::Single("27")));
    assert!(matches!(Pages::from_str("1--2--3"), Pages::Range("1", "2")));
    assert!(matches!(Pages::from_str("a---b"), Pages::Range("a", "-b")));
    assert!(matches!(Pages::from_str("--"), Pages::Range("", "")));
    assert!(matches!(Pages::from_str(""), Pages::Single("")));
    assert!(matches!(Pages::from_str("é--ç"), Pages::Range("é", "ç")));
}

#[test]
fn extra_data() {
    let extra = ExtraInfo {
        url: None,
        doi: None,
        url_date: Some("2020-12-14"),
        note: Some("Some note"),
    };

    assert_eq!(extra.to_string(), " Some note. Acesso em: 14. dez. 2020.",);
}

#[test]
fn doi_comes_before_url() {
    let extra = ExtraInfo {
        url: Some("http://example.org"),
        doi: Some("10.1000/182"),
        url_date: None,
        note: None,
    };
    assert_eq!(
        extra.to_string(),
        " Disponível em: <span class=\"font-mono\">&lt;<https://doi.org/10.1000/182>&gt;</span>."
    );
    let extra = ExtraInfo { url: Some("http://example.org"), doi: None, url_date: None, note: None };
    assert_eq!(
        extra.to_string(),
        " Disponível em: <span class=\"font-mono\">&lt;<http://example.org>&gt;</span>."
    );
    let extra = ExtraInfo { url: None, doi: None, url_date: None, note: None };
    assert_eq!(extra.to_string(), "");
}

#[test]
fn dates() {
    assert_eq!(Date("2020-12-14").to_string(), "14. dez. 2020");
    assert_eq!(Date("1952-07-24").to_string(), "24. jul. 1952");
    assert_eq!(Date("2019-01-05").to_string(), "5. jan. 2019");
    assert_eq!(Date("2019-1-5").to_string(), "5. jan. 2019");
    assert_eq!(Date("2019-02-03-04").to_string(), "3. fev. 2019");
    assert_eq!(Date("2019-03-1").to_string(), "1. mar. 2019");
    assert_eq!(Date("2019-04-1").to_string(), "1. abr. 2019");
    assert_eq!(Date("2019-05-1").to_string(), "1. mai. 2019");
    assert_eq!(Date("2019-06-1").to_string(), "1. jun. 2019");
    assert_eq!(Date("2019-08-1").to_string(), "1. ago. 2019");
    assert_eq!(Date("2019-09-1").to_string(), "1. set. 2019");
    assert_eq!(Date("2019-10-1").to_string(), "1. out. 2019");
    assert_eq!(Date("2019-11-1").to_string(), "1. nov. 2019");
}

#[test]
fn dates_that_cannot_be_read_pass_through() {
    assert_eq!(Date("2020-12").to_string(), "2020-12");
    assert_eq!(Date("2020").to_string(), "2020");
    assert_eq!(Date("2020-13-01").to_string(), "2020-13-01");
    assert_eq!(Date("2020-00-01").to_string(), "2020-00-01");
    assert_eq!(Date("2020-12-xx").to_string(), "2020-12-xx");
    assert_eq!(Date("2020-12-256").to_string(), "2020-12-256");
    assert_eq!(Date("2020-12-").to_string(), "2020-12-");
    assert_eq!(Date("").to_string(), "");
    assert_eq!(Date("julho de 1952").to_string(), "julho de 1952");
}

#[test]
fn small_numbers_are_read_as_std_reads_them() {
    for text in ["0", "7", "007", "+7", "255", "256", "1000", "", "+", "-1", "1a", " 1", "++1", "٣"] {
        assert_eq!(read_u8(&chars(text)), text.parse::<u8>().ok(), "{:?}", text);
    }
}

#[test]
fn small_numbers_are_written_in_decimal() {
    for n in [0u8, 1, 9, 10, 14, 99, 100, 101, 110, 255] {
        let written: String = write_u8(n).into_iter().collect();
        assert_eq!(written, format!("{}", n));
    }
}

#[test]
fn strong_emphasis() {
    assert_eq!(Strong("Boletim").to_string(), "<strong>Boletim</strong>");
}

#[test]
fn joined_lists() {
    assert_eq!(Join::new(", ", strings(&[])).to_string(), "");
    assert_eq!(Join::new(", ", strings(&["a"])).to_string(), "a");
    assert_eq!(Join::new(", ", strings(&["a", "b", "c"])).to_string(), "a, b, c");
    assert_eq!(JoinAnd::new(", ", " e ", strings(&[])).to_string(), "");
    assert_eq!(JoinAnd::new(", ", " e ", strings(&["a"])).to_string(), "a");
    assert_eq!(JoinAnd::new(", ", " e ", strings(&["a", "b"])).to_string(), "a e b");
    assert_eq!(JoinAnd::new(", ", " e ", strings(&["a", "b", "c", "d"])).to_string(), "a, b, c e d");
}

#[test]
fn places_and_publishers_are_paired() {
    assert_eq!(
        LocationPublisher("Belo Horizonte AND São Paulo", "Itatiaia AND EDUSP").to_string(),
        "Belo Horizonte: Itatiaia; São Paulo: EDUSP"
    );
    assert_eq!(LocationPublisher("Rio de Janeiro", "Bertrand Brasil").to_string(), "Rio de Janeiro: Bertrand Brasil");
}

#[test]
fn places_and_publishers_that_cannot_be_paired() {
    assert_eq!(
        LocationPublisher("Lisboa and Porto and Coimbra", "Vozes").to_string(),
        "Lisboa, Porto e Coimbra: Vozes"
    );
    assert_eq!(
        LocationPublisher("Lisboa", "Vozes and EDUSP").to_string(),
        "Lisboa: Vozes e EDUSP"
    );
}

#[test]
fn missing_place_or_publisher() {
    assert_eq!(LocationPublisher("", "").to_string(), "[s.l.: s.n.]");
    assert_eq!(LocationPublisher("", "Vozes").to_string(), "[s.l.]: Vozes");
    assert_eq!(LocationPublisher("Natal", "").to_string(), "Natal: [s.n.]");
    assert_eq!(LocationPublisher("Natal--RN", "A `B'").to_string(), "Natal–RN: A ‘B’");
}
