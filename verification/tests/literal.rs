use rustupolis_server::client::Client;
use rustupolis_server::lexing::{decimal_text, parse_text, Lexer};
use rustupolis_server::text::{join_words, split_words, strip_quotes};
use rustupolis_server::tuple::{Element, TupleData};

fn text(s: &str) -> Element {
    Element::Text(String::from(s))
}

fn sample() -> TupleData {
    TupleData::new(vec![
        text("temp"),
        Element::Integer(-21),
        Element::Decimal(String::from("3.25")),
        Element::Wildcard,
        Element::Nested(TupleData::new(vec![text("a b"), Element::Integer(0)])),
        Element::Nested(TupleData::new(vec![])),
    ])
}

#[test]
fn writes_a_tuple_as_its_literal() {
    assert_eq!(sample().to_text(), "(\"temp\",-21,3.25,_,(\"a b\",0),())");
}

#[test]
fn reads_back_what_was_written() {
    let written = sample().to_text();
    let read = parse_text(&written);
    assert_eq!(read.len(), 1);
    assert_eq!(read[0], sample());
    assert_eq!(read[0].to_text(), written);
}

#[test]
fn writes_the_extreme_integers() {
    let t = TupleData::new(vec![Element::Integer(i32::MIN), Element::Integer(i32::MAX)]);
    assert_eq!(t.to_text(), "(-2147483648,2147483647)");
    assert_eq!(parse_text(&t.to_text())[0], t);
}

#[test]
fn reads_a_pair() {
    let tuples = parse_text("(\"temp\", 21)");
    assert_eq!(tuples.len(), 1);
    assert_eq!(tuples[0], TupleData::new(vec![text("temp"), Element::Integer(21)]));
}

#[test]
fn reads_several_tuples_with_separators() {
    let tuples = parse_text("(1) (2),(3)(4)");
    assert_eq!(tuples.len(), 4);
    for (i, t) in tuples.iter().enumerate() {
        assert_eq!(*t, TupleData::new(vec![Element::Integer(i as i32 + 1)]));
    }
}

#[test]
fn reads_blanks_inside_a_tuple() {
    let tuples = parse_text("( 1 , \"x\" , _ )");
    assert_eq!(
        tuples,
        vec![TupleData::new(vec![Element::Integer(1), text("x"), Element::Wildcard])]
    );
}

#[test]
fn malformed_fragments_read_as_empty_tuples() {
    assert_eq!(parse_text("(1.2.3)"), vec![TupleData::empty()]);
    assert_eq!(parse_text("(1,,2)"), vec![TupleData::empty()]);
    assert_eq!(parse_text("(\"open"), vec![TupleData::empty()]);
    assert_eq!(parse_text("(1"), vec![TupleData::empty()]);
    assert_eq!(parse_text("5"), vec![TupleData::empty()]);
    assert_eq!(parse_text("(x)"), vec![TupleData::empty()]);
    assert_eq!(parse_text("(99999999999)"), vec![TupleData::empty()]);
    assert_eq!(parse_text("(2147483648)"), vec![TupleData::empty()]);
    assert_eq!(parse_text("(-)"), vec![TupleData::empty()]);
}

#[test]
fn a_malformed_fragment_ends_at_white_space() {
    let tuples = parse_text("(1.2.3) (4)");
    assert_eq!(tuples, vec![TupleData::empty(), TupleData::new(vec![Element::Integer(4)])]);
}

#[test]
fn the_empty_text_holds_no_tuple() {
    assert_eq!(parse_text("").len(), 0);
    assert_eq!(parse_text("  , ").len(), 0);
}

#[test]
fn the_empty_literal_is_the_empty_tuple() {
    assert_eq!(parse_text("()"), vec![TupleData::empty()]);
    assert_eq!(TupleData::empty().to_text(), "()");
}

#[test]
fn numbers_are_read_by_their_shape() {
    let tuples = parse_text("(007,-0,1.,-2.50,2147483647,-2147483648)");
    assert_eq!(
        tuples[0],
        TupleData::new(vec![
            Element::Integer(7),
            Element::Integer(0),
            Element::Decimal(String::from("1.")),
            Element::Decimal(String::from("-2.50")),
            Element::Integer(i32::MAX),
            Element::Integer(i32::MIN),
        ])
    );
}

#[test]
fn tells_decimal_texts() {
    assert!(decimal_text("1.5"));
    assert!(decimal_text("-0.25"));
    assert!(decimal_text("3."));
    assert!(!decimal_text(".5"));
    assert!(!decimal_text("15"));
    assert!(!decimal_text("1.2.3"));
    assert!(!decimal_text("-"));
    assert!(!decimal_text(""));
    assert!(!decimal_text("1e5"));
    assert!(!decimal_text("NaN"));
}

#[test]
fn the_lexer_gives_one_tuple_at_a_time() {
    let mut lexer = Lexer::new("(1) (\"two\")");
    assert_eq!(lexer.next(), Some(TupleData::new(vec![Element::Integer(1)])));
    assert_eq!(lexer.next(), Some(TupleData::new(vec![text("two")])));
    assert_eq!(lexer.next(), None);
    assert_eq!(lexer.next(), None);
    let mut again = Lexer::new("(1) (\"two\")");
    assert_eq!(again.collect().len(), 2);
}

#[test]
fn the_nothing_marker_is_written_but_not_read() {
    let t = TupleData::new(vec![Element::Integer(1), Element::Nil]);
    assert_eq!(t.to_text(), "(1,nil)");
    assert_eq!(parse_text("(1,nil)"), vec![TupleData::empty()]);
}

#[test]
fn tells_defined_tuples() {
    assert!(sample().duplicate().elements.len() == 6);
    assert!(!sample().is_defined());
    assert!(TupleData::new(vec![text("a"), Element::Integer(1)]).is_defined());
    assert!(TupleData::empty().is_defined());
    assert!(!TupleData::new(vec![Element::Nested(TupleData::new(vec![Element::Nil]))]).is_defined());
    assert!(TupleData::empty().is_empty());
    assert_eq!(sample().len(), 6);
}

#[test]
fn splits_and_joins_words() {
    let chars: Vec<char> = "  OUT  (1,\t2)\n(3) ".chars().collect();
    let words = split_words(&chars);
    assert_eq!(words, vec!["OUT", "(1,", "2)", "(3)"]);
    assert_eq!(join_words(&words, 1), "(1, 2) (3)");
    assert_eq!(join_words(&words, 4), "");
    assert_eq!(join_words(&words, 3), "(3)");
    assert_eq!(split_words(&Vec::new()).len(), 0);
}

#[test]
fn strips_quotes() {
    assert_eq!(strip_quotes("\"ad\"min\""), "admin");
}

#[test]
fn formats_elements_after_a_request() {
    let t = TupleData::new(vec![text("temp"), Element::Integer(21)]);
    assert_eq!(Client::format_tuple(&t, String::from("(")), "(\"temp\",21");
    let mut s = String::from(" a\tb \n c\u{a0}d ");
    Client::remove_whitespace(&mut s);
    assert_eq!(s, "abcd");
}

#[test]
fn formats_strings_in_quotes() {
    let t = TupleData::new(vec![
        text("temp"),
        Element::Nested(TupleData::new(vec![text("")])),
        Element::Integer(1),
    ]);
    let f = t.format();
    assert_eq!(
        f,
        TupleData::new(vec![
            text("\"temp\""),
            Element::Nested(TupleData::new(vec![text("\"\"")])),
            Element::Integer(1),
        ])
    );
}
