use rustupolis::tuple::{Tuple, E};
use rustupolis_server::store::{outside_at, TupleStore};
use rustupolis_server::tuple::{Element, TupleData};

fn word(s: &str) -> Element {
    Element::Text(String::from(s))
}

fn decimal(s: &str) -> Element {
    Element::Decimal(String::from(s))
}

fn pair(name: &str, value: i32) -> TupleData {
    TupleData::new(vec![word(name), Element::Integer(value)])
}

fn any_of(name: &str) -> TupleData {
    TupleData::new(vec![word(name), Element::Wildcard])
}

#[test]
fn a_new_store_holds_nothing() {
    let mut store = TupleStore::new();
    assert_eq!(store.read(&any_of("temp")), None);
    assert_eq!(store.take(&any_of("temp")), None);
    assert_eq!(store.read(&TupleData::new(vec![Element::Wildcard])), None);
}

#[test]
fn a_tuple_that_was_put_is_found_by_a_template() {
    let mut store = TupleStore::new();
    assert!(store.out(&pair("temp", 21)));
    assert_eq!(store.read(&any_of("temp")), Some(String::from("(temp,21)")));
    assert_eq!(store.read(&pair("temp", 21)), Some(String::from("(temp,21)")));
}

#[test]
fn reading_leaves_the_tuple_in_the_store() {
    let mut store = TupleStore::new();
    assert!(store.out(&pair("temp", 21)));
    let first = store.read(&any_of("temp"));
    let second = store.read(&any_of("temp"));
    assert_eq!(first, Some(String::from("(temp,21)")));
    assert_eq!(first, second);
}

#[test]
fn taking_removes_the_tuple() {
    let mut store = TupleStore::new();
    assert!(store.out(&pair("temp", 21)));
    assert_eq!(store.take(&any_of("temp")), Some(String::from("(temp,21)")));
    assert_eq!(store.take(&any_of("temp")), None);
    assert_eq!(store.read(&pair("temp", 21)), None);
}

#[test]
fn taking_a_tuple_by_itself_removes_it() {
    let mut store = TupleStore::new();
    assert!(store.out(&pair("a", 1)));
    assert!(store.out(&pair("a", 2)));
    assert_eq!(store.take(&pair("a", 2)), Some(String::from("(a,2)")));
    assert_eq!(store.read(&pair("a", 2)), None);
    assert_eq!(store.read(&any_of("a")), Some(String::from("(a,1)")));
}

#[test]
fn taking_an_absent_tuple_leaves_no_request_waiting() {
    let mut store = TupleStore::new();
    assert_eq!(store.take(&pair("late", 7)), None);
    assert!(store.out(&pair("late", 7)));
    assert_eq!(store.read(&pair("late", 7)), Some(String::from("(late,7)")));
    assert_eq!(store.take(&pair("late", 7)), Some(String::from("(late,7)")));
    assert_eq!(store.take(&pair("late", 7)), None);
}

#[test]
fn a_template_finds_only_what_matches_it() {
    let mut store = TupleStore::new();
    assert!(store.out(&pair("temp", 21)));
    assert_eq!(store.read(&any_of("humidity")), None);
    assert_eq!(store.read(&pair("temp", 22)), None);
    assert_eq!(store.take(&any_of("humidity")), None);
    assert_eq!(store.read(&any_of("temp")), Some(String::from("(temp,21)")));
}

#[test]
fn a_tuple_with_a_wildcard_is_not_stored() {
    let mut store = TupleStore::new();
    assert!(!store.out(&any_of("temp")));
    assert_eq!(store.read(&any_of("temp")), None);
}

#[test]
fn a_tuple_with_the_nothing_marker_is_not_stored() {
    let mut store = TupleStore::new();
    let t = TupleData::new(vec![word("temp"), Element::Nil]);
    assert!(!store.out(&t));
    assert_eq!(store.read(&any_of("temp")), None);
}

#[test]
fn a_template_with_the_nothing_marker_finds_nothing() {
    let mut store = TupleStore::new();
    assert!(store.out(&pair("temp", 21)));
    let t = TupleData::new(vec![word("temp"), Element::Nil]);
    assert_eq!(store.read(&t), None);
    assert_eq!(store.take(&t), None);
    let nested = TupleData::new(vec![Element::Nested(TupleData::new(vec![Element::Nil]))]);
    assert_eq!(store.read(&nested), None);
    assert_eq!(store.take(&nested), None);
    assert_eq!(store.read(&any_of("temp")), Some(String::from("(temp,21)")));
}

#[test]
fn a_decimal_that_is_no_number_is_refused() {
    let mut store = TupleStore::new();
    let t = TupleData::new(vec![decimal("1.2.3")]);
    assert!(!t.is_sound());
    assert!(!store.out(&t));
    assert_eq!(store.read(&t), None);
    assert_eq!(store.take(&t), None);
    assert_eq!(store.read(&TupleData::new(vec![Element::Wildcard])), None);
}

#[test]
fn a_decimal_is_shown_as_its_number_prints() {
    let mut store = TupleStore::new();
    assert!(store.out(&TupleData::new(vec![word("t"), decimal("3.250")])));
    assert_eq!(store.read(&any_of("t")), Some(String::from("(t,3.25)")));
    assert_eq!(
        store.take(&TupleData::new(vec![word("t"), decimal("3.25")])),
        Some(String::from("(t,3.25)"))
    );
    assert_eq!(store.read(&any_of("t")), None);
}

#[test]
fn nested_tuples_are_stored_and_found() {
    let mut store = TupleStore::new();
    let inner = TupleData::new(vec![Element::Integer(1), word("x")]);
    let t = TupleData::new(vec![word("n"), Element::Nested(inner)]);
    assert!(store.out(&t));
    assert_eq!(store.read(&any_of("n")), Some(String::from("(n,(1,x))")));
    let template = TupleData::new(vec![
        word("n"),
        Element::Nested(TupleData::new(vec![Element::Wildcard, word("x")])),
    ]);
    assert_eq!(store.take(&template), Some(String::from("(n,(1,x))")));
    assert_eq!(store.read(&any_of("n")), None);
}

#[test]
fn the_empty_template_finds_nothing() {
    let mut store = TupleStore::new();
    assert!(store.out(&pair("temp", 21)));
    assert_eq!(store.read(&TupleData::empty()), None);
    assert_eq!(store.take(&TupleData::empty()), None);
}

#[test]
fn putting_a_tuple_twice_keeps_one() {
    let mut store = TupleStore::new();
    assert!(store.out(&pair("temp", 21)));
    assert!(store.out(&pair("temp", 21)));
    assert_eq!(store.take(&any_of("temp")), Some(String::from("(temp,21)")));
    assert_eq!(store.take(&any_of("temp")), None);
}

#[test]
fn tells_sound_and_marker_free_tuples() {
    assert!(pair("a", 1).is_sound());
    assert!(TupleData::new(vec![decimal("0.5"), decimal("-12.0")]).is_sound());
    assert!(!TupleData::new(vec![decimal("5")]).is_sound());
    assert!(!TupleData::new(vec![Element::Nested(TupleData::new(vec![decimal("x")]))]).is_sound());
    assert!(any_of("a").is_nil_free());
    assert!(!TupleData::new(vec![Element::Nil]).is_nil_free());
    assert!(!Element::Nested(TupleData::new(vec![Element::Nil])).is_nil_free());
    assert!(Element::Wildcard.is_nil_free());
    assert!(Element::Integer(3).is_sound());
}

#[test]
fn a_found_tuple_is_given_as_the_store_holds_it() {
    let mut store = TupleStore::new();
    assert_eq!(store.find(&any_of("temp")), None);
    assert!(store.out(&pair("temp", 21)));
    let tuple = store.find(&any_of("temp")).unwrap();
    assert_eq!(tuple, Tuple::new(&[E::str("temp"), E::I(21)]));
    assert_eq!(outside_at(&tuple, 0), Some(E::str("temp")));
    assert_eq!(outside_at(&tuple, 1), Some(E::I(21)));
    assert_eq!(outside_at(&tuple, 2), None);
    assert_eq!(store.find(&pair("temp", 21)), Some(tuple));
    assert_eq!(store.find(&pair("temp", 22)), None);
    assert_eq!(store.find(&TupleData::new(vec![Element::Nil])), None);
}

#[test]
fn what_was_put_is_taken_once_by_itself() {
    let mut store = TupleStore::new();
    assert!(store.out(&pair("other", 1)));
    let t = TupleData::new(vec![
        word("a"),
        Element::Nested(TupleData::new(vec![Element::Integer(-5), word("")])),
    ]);
    assert!(store.out(&t));
    assert_eq!(store.read(&t), Some(String::from("(a,(-5,))")));
    assert_eq!(store.take(&t), Some(String::from("(a,(-5,))")));
    assert_eq!(store.read(&t), None);
    assert_eq!(store.take(&t), None);
    assert_eq!(store.read(&any_of("other")), Some(String::from("(other,1)")));
}
