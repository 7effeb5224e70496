use rustupolis_server::constant::{
    CREATE, DELETE, EMPTY_REQUEST, IN, NO_MATCHING_TUPLE_FOUND, NO_PERMISSION,
    NO_TUPLE_SPACE_ATTACHED, OUT, PERMISSION, READ, REQUEST_DOESNT_EXIST, TUPLE_IS_EMPTY,
    TUPLE_SPACE_NOT_FOUND,
};
use rustupolis::tuple::{Tuple, E};
use rustupolis_server::gather::Gathered;
use rustupolis_server::lexing::parse_text;
use rustupolis_server::permission::{
    compare_attributes, create_template, create_tuple, permission_template, permission_tuple,
};
use rustupolis_server::repository::Repository;
use rustupolis_server::request::RequestResponse;
use rustupolis_server::store::outside_at;
use rustupolis_server::tuple::{Element, TupleData};
use rustupolis_server::tuple_space::TupleSpace;

fn words(line: &str) -> Vec<String> {
    line.split_whitespace().map(String::from).collect()
}

fn strings(items: &[&str]) -> Vec<String> {
    items.iter().map(|s| String::from(*s)).collect()
}

fn ask(repository: &mut Repository, session: Option<&TupleSpace>, line: &str) -> RequestResponse {
    repository.dispatch(&words(line), session)
}

fn refusal(response: RequestResponse) -> String {
    match response {
        RequestResponse::NoResponse(reason) => reason,
        _ => panic!("the request was not refused"),
    }
}

fn data(response: RequestResponse) -> String {
    match response {
        RequestResponse::DataResponse(text) => text,
        RequestResponse::NoResponse(reason) => panic!("refused: {}", reason),
        _ => panic!("the answer holds no data"),
    }
}

fn done(response: RequestResponse) -> bool {
    matches!(response, RequestResponse::OkResponse())
}

fn attached(repository: &mut Repository, line: &str) -> TupleSpace {
    match ask(repository, None, line) {
        RequestResponse::SpaceResponse(space) => space,
        _ => panic!("the connection was not attached"),
    }
}

fn with_space() -> (Repository, TupleSpace) {
    let mut repository = Repository::new("admin");
    assert!(done(ask(&mut repository, None, "CREATE admin weather admin")));
    let session = attached(&mut repository, "ATTACH weather admin");
    (repository, session)
}

#[test]
fn a_new_repository_holds_the_space_of_the_permissions() {
    let mut repository = Repository::new("admin");
    assert!(repository.has_tuple_space(PERMISSION));
    assert_eq!(repository.lookup(PERMISSION), Some(0));
    assert_eq!(repository.stores_len(), 1);
    assert!(!repository.has_tuple_space("weather"));
    assert_eq!(repository.lookup("weather"), None);
    assert!(repository.check_permission(CREATE, &strings(&["admin"]), None));
    assert!(!repository.check_permission(CREATE, &strings(&["guest"]), None));
    assert!(repository.check_permission(READ, &strings(&["admin"]), Some(PERMISSION)));
    assert!(repository.check_permission(DELETE, &strings(&["admin"]), Some(PERMISSION)));
}

#[test]
fn one_of_the_presented_attributes_is_enough() {
    let mut repository = Repository::new("admin");
    repository.add_permission(&String::from("A"), OUT, "S");
    assert!(repository.check_permission(OUT, &strings(&["A", "B"]), Some("S")));
    assert!(repository.check_permission(OUT, &strings(&["B", "A"]), Some("S")));
    assert!(!repository.check_permission(OUT, &strings(&["C"]), Some("S")));
    assert!(!repository.check_permission(OUT, &strings(&[]), Some("S")));
}

#[test]
fn a_permission_holds_for_its_action_and_space_only() {
    let mut repository = Repository::new("admin");
    repository.add_permission(&String::from("A"), OUT, "S");
    assert!(!repository.check_permission(IN, &strings(&["A"]), Some("S")));
    assert!(!repository.check_permission(OUT, &strings(&["A"]), Some("T")));
    assert!(!repository.check_permission(OUT, &strings(&["A"]), None));
    assert!(!repository.check_permission(CREATE, &strings(&["A"]), None));
}

#[test]
fn checking_a_permission_changes_nothing() {
    let mut repository = Repository::new("admin");
    for _ in 0..3 {
        assert!(repository.check_permission(CREATE, &strings(&["admin"]), None));
        assert!(!repository.check_permission(OUT, &strings(&["admin"]), Some("nowhere")));
    }
    assert_eq!(repository.stores_len(), 1);
}

#[test]
fn create_with_one_attribute_grants_all_four_actions() {
    let mut repository = Repository::new("admin");
    assert!(done(ask(&mut repository, None, "CREATE admin weather admin")));
    assert!(repository.has_tuple_space("weather"));
    assert_eq!(repository.stores_len(), 2);
    for action in [READ, IN, OUT, DELETE] {
        assert!(repository.check_permission(action, &strings(&["admin"]), Some("weather")));
        assert!(!repository.check_permission(action, &strings(&["guest"]), Some("weather")));
    }
}

#[test]
fn create_with_four_attributes_grants_by_position() {
    let mut repository = Repository::new("admin");
    assert!(done(ask(&mut repository, None, "CREATE admin weather r i o d")));
    let grants = [(READ, "r"), (IN, "i"), (OUT, "o"), (DELETE, "d")];
    for (action, holder) in grants {
        for attribute in ["r", "i", "o", "d"] {
            assert_eq!(
                repository.check_permission(action, &strings(&[attribute]), Some("weather")),
                attribute == holder
            );
        }
    }
}

#[test]
fn create_with_another_number_of_attributes_grants_nothing() {
    let mut repository = Repository::new("admin");
    assert!(done(ask(&mut repository, None, "CREATE admin bare")));
    assert!(done(ask(&mut repository, None, "CREATE admin two a b")));
    assert!(repository.has_tuple_space("bare"));
    assert!(repository.has_tuple_space("two"));
    for action in [READ, IN, OUT, DELETE] {
        assert!(!repository.check_permission(action, &strings(&["admin"]), Some("bare")));
        assert!(!repository.check_permission(action, &strings(&["a", "b"]), Some("two")));
    }
}

#[test]
fn create_takes_the_attribute_of_the_caller_without_quotes() {
    let mut repository = Repository::new("admin");
    assert!(done(ask(&mut repository, None, "CREATE \"admin\" weather admin")));
    assert!(repository.has_tuple_space("weather"));
}

#[test]
fn create_is_refused_without_the_permission() {
    let mut repository = Repository::new("admin");
    assert_eq!(refusal(ask(&mut repository, None, "CREATE guest weather guest")), NO_PERMISSION);
    assert!(!repository.has_tuple_space("weather"));
    assert_eq!(repository.stores_len(), 1);
    assert!(!repository.check_permission(READ, &strings(&["guest"]), Some("weather")));
}

#[test]
fn delete_takes_the_space_out_of_the_directory() {
    let mut repository = Repository::new("admin");
    assert!(done(ask(&mut repository, None, "CREATE admin weather owner")));
    assert_eq!(refusal(ask(&mut repository, None, "DELETE admin weather")), NO_PERMISSION);
    assert!(repository.has_tuple_space("weather"));
    assert!(done(ask(&mut repository, None, "DELETE owner weather")));
    assert!(!repository.has_tuple_space("weather"));
    assert_eq!(
        refusal(ask(&mut repository, None, "ATTACH weather owner")),
        TUPLE_SPACE_NOT_FOUND
    );
}

#[test]
fn delete_of_an_unknown_space_is_refused() {
    let mut repository = Repository::new("admin");
    assert_eq!(refusal(ask(&mut repository, None, "DELETE admin nowhere")), NO_PERMISSION);
}

#[test]
fn attach_to_an_unknown_space_is_refused() {
    let mut repository = Repository::new("admin");
    assert_eq!(
        refusal(ask(&mut repository, None, "ATTACH nowhere admin")),
        TUPLE_SPACE_NOT_FOUND
    );
}

#[test]
fn attach_binds_the_name_and_the_attributes() {
    let mut repository = Repository::new("admin");
    assert!(done(ask(&mut repository, None, "CREATE admin weather admin")));
    let session = attached(&mut repository, "ATTACH weather one two");
    assert_eq!(session.tuple_space_name(), "weather");
    assert_eq!(session.attributes(), &strings(&["one", "two"]));
    assert_eq!(Some(session.tuple_space()), repository.lookup("weather"));
    let bare = attached(&mut repository, "ATTACH weather");
    assert!(bare.attributes().is_empty());
}

#[test]
fn out_then_in_gives_the_tuple_once() {
    let (mut repository, session) = with_space();
    assert!(done(ask(&mut repository, Some(&session), "OUT (\"temp\", 21)")));
    let answer = data(ask(&mut repository, Some(&session), "IN (\"temp\", _)"));
    assert_eq!(answer, "(\"temp\",21)");
    assert_eq!(
        parse_text(&answer),
        vec![TupleData::new(vec![Element::Text(String::from("temp")), Element::Integer(21)])]
    );
    assert_eq!(
        refusal(ask(&mut repository, Some(&session), "IN (\"temp\", _)")),
        NO_MATCHING_TUPLE_FOUND
    );
}

#[test]
fn read_twice_gives_the_same_tuple() {
    let (mut repository, session) = with_space();
    assert!(done(ask(&mut repository, Some(&session), "OUT (\"temp\", 21)")));
    let first = data(ask(&mut repository, Some(&session), "READ (\"temp\", _)"));
    let second = data(ask(&mut repository, Some(&session), "READ (\"temp\", _)"));
    assert_eq!(first, "(\"temp\",21)");
    assert_eq!(second, first);
    assert_eq!(data(ask(&mut repository, Some(&session), "IN (\"temp\", _)")), first);
}

#[test]
fn a_primitive_needs_an_attachment() {
    let mut repository = Repository::new("admin");
    for line in ["OUT (1)", "READ (_)", "IN (_)", "OUT", "READ"] {
        assert_eq!(refusal(ask(&mut repository, None, line)), NO_TUPLE_SPACE_ATTACHED);
    }
}

#[test]
fn an_attachment_to_a_store_that_is_not_there_counts_as_none() {
    let mut repository = Repository::new("admin");
    let stray = TupleSpace::new(5, strings(&["admin"]), PERMISSION);
    assert_eq!(
        refusal(ask(&mut repository, Some(&stray), "READ (_)")),
        NO_TUPLE_SPACE_ATTACHED
    );
}

#[test]
fn a_primitive_needs_its_permission() {
    let mut repository = Repository::new("admin");
    assert!(done(ask(&mut repository, None, "CREATE admin weather r i o d")));
    let reader = attached(&mut repository, "ATTACH weather r");
    let writer = attached(&mut repository, "ATTACH weather o");
    let taker = attached(&mut repository, "ATTACH weather i");
    assert_eq!(refusal(ask(&mut repository, Some(&reader), "OUT (1)")), NO_PERMISSION);
    assert!(done(ask(&mut repository, Some(&writer), "OUT (1)")));
    assert_eq!(refusal(ask(&mut repository, Some(&writer), "READ (1)")), NO_PERMISSION);
    assert_eq!(refusal(ask(&mut repository, Some(&writer), "IN (1)")), NO_PERMISSION);
    assert_eq!(data(ask(&mut repository, Some(&reader), "READ (_)")), "(1)");
    assert_eq!(refusal(ask(&mut repository, Some(&reader), "IN (_)")), NO_PERMISSION);
    assert_eq!(data(ask(&mut repository, Some(&taker), "IN (_)")), "(1)");
    assert_eq!(
        refusal(ask(&mut repository, Some(&reader), "READ (_)")),
        NO_MATCHING_TUPLE_FOUND
    );
}

#[test]
fn an_unknown_verb_is_refused() {
    let (mut repository, session) = with_space();
    assert_eq!(refusal(ask(&mut repository, None, "HELLO")), REQUEST_DOESNT_EXIST);
    assert_eq!(refusal(ask(&mut repository, Some(&session), "out (1)")), REQUEST_DOESNT_EXIST);
    assert_eq!(refusal(ask(&mut repository, None, "(1)")), REQUEST_DOESNT_EXIST);
}

#[test]
fn a_request_without_words_is_refused() {
    let mut repository = Repository::new("admin");
    assert_eq!(refusal(ask(&mut repository, None, "")), EMPTY_REQUEST);
    assert_eq!(refusal(ask(&mut repository, None, "  \t\n ")), EMPTY_REQUEST);
    assert_eq!(refusal(repository.dispatch(&Vec::new(), None)), EMPTY_REQUEST);
}

#[test]
fn a_request_with_too_few_words_is_refused() {
    let mut repository = Repository::new("admin");
    for line in ["CREATE", "CREATE admin", "DELETE", "DELETE admin", "ATTACH"] {
        assert_eq!(refusal(ask(&mut repository, None, line)), REQUEST_DOESNT_EXIST);
    }
    assert_eq!(repository.stores_len(), 1);
}

#[test]
fn a_malformed_template_is_an_empty_tuple() {
    let (mut repository, session) = with_space();
    assert!(done(ask(&mut repository, Some(&session), "OUT (1)")));
    assert_eq!(refusal(ask(&mut repository, Some(&session), "READ (1")), TUPLE_IS_EMPTY);
    assert_eq!(refusal(ask(&mut repository, Some(&session), "READ ()")), TUPLE_IS_EMPTY);
    assert_eq!(refusal(ask(&mut repository, Some(&session), "IN temp")), TUPLE_IS_EMPTY);
    assert_eq!(data(ask(&mut repository, Some(&session), "READ (1)")), "(1)");
}

#[test]
fn a_request_without_templates_finds_nothing() {
    let (mut repository, session) = with_space();
    assert!(done(ask(&mut repository, Some(&session), "OUT (1)")));
    assert_eq!(refusal(ask(&mut repository, Some(&session), "READ")), NO_MATCHING_TUPLE_FOUND);
    assert_eq!(refusal(ask(&mut repository, Some(&session), "IN")), NO_MATCHING_TUPLE_FOUND);
    assert!(done(ask(&mut repository, Some(&session), "OUT")));
}

#[test]
fn the_first_failure_gives_the_reason() {
    let (mut repository, session) = with_space();
    assert_eq!(
        refusal(ask(&mut repository, Some(&session), "READ (1) ()")),
        NO_MATCHING_TUPLE_FOUND
    );
    assert_eq!(refusal(ask(&mut repository, Some(&session), "READ () (1)")), TUPLE_IS_EMPTY);
}

#[test]
fn several_matches_stand_in_one_pair_of_parentheses() {
    let (mut repository, session) = with_space();
    assert!(done(ask(&mut repository, Some(&session), "OUT (\"b\", 2) (\"a\", 1),(\"c\", 3)")));
    assert_eq!(
        data(ask(&mut repository, Some(&session), "READ (\"a\", _) (\"b\", _)")),
        "((\"a\",1), (\"b\",2))"
    );
    assert_eq!(
        data(ask(&mut repository, Some(&session), "READ (\"c\", _) (\"zz\", _) () (\"a\", 1)")),
        "((\"c\",3), (\"a\",1))"
    );
    assert_eq!(data(ask(&mut repository, Some(&session), "READ (\"zz\", _) (\"b\", 2)")), "(\"b\",2)");
}

#[test]
fn in_with_several_templates_takes_each_match() {
    let (mut repository, session) = with_space();
    assert!(done(ask(&mut repository, Some(&session), "OUT (1) (2) (3)")));
    assert_eq!(data(ask(&mut repository, Some(&session), "IN (1) (3)")), "((1), (3))");
    assert_eq!(data(ask(&mut repository, Some(&session), "IN (_) (_)")), "(2)");
    assert_eq!(refusal(ask(&mut repository, Some(&session), "IN (_)")), NO_MATCHING_TUPLE_FOUND);
}

#[test]
fn out_passes_over_what_is_not_fully_defined() {
    let (mut repository, session) = with_space();
    assert!(done(ask(&mut repository, Some(&session), "OUT (\"x\", _) oops () (\"y\", 2)")));
    assert_eq!(data(ask(&mut repository, Some(&session), "IN (_, _)")), "(\"y\",2)");
    assert_eq!(
        refusal(ask(&mut repository, Some(&session), "IN (_, _)")),
        NO_MATCHING_TUPLE_FOUND
    );
}

#[test]
fn strings_come_back_in_quotes_at_every_depth() {
    let (mut repository, session) = with_space();
    assert!(done(ask(&mut repository, Some(&session), "OUT (\"a\",(\"b\",(\"c\",1)),2)")));
    let answer = data(ask(&mut repository, Some(&session), "READ (\"a\",(_,_),_)"));
    assert_eq!(answer, "(\"a\",(\"b\",(\"c\",1)),2)");
    assert_eq!(parse_text(&answer)[0].to_text(), answer);
}

#[test]
fn decimals_pass_through_the_store() {
    let (mut repository, session) = with_space();
    assert!(done(ask(&mut repository, Some(&session), "OUT (\"pi\", 3.140) (\"e\", -2.5)")));
    assert_eq!(data(ask(&mut repository, Some(&session), "READ (\"pi\", _)")), "(\"pi\",3.14)");
    assert_eq!(data(ask(&mut repository, Some(&session), "IN (\"e\", -2.5)")), "(\"e\",-2.5)");
    assert_eq!(
        refusal(ask(&mut repository, Some(&session), "READ (\"e\", _)")),
        NO_MATCHING_TUPLE_FOUND
    );
}

#[test]
fn spaces_keep_their_tuples_apart() {
    let mut repository = Repository::new("admin");
    assert!(done(ask(&mut repository, None, "CREATE admin first admin")));
    assert!(done(ask(&mut repository, None, "CREATE admin second admin")));
    let first = attached(&mut repository, "ATTACH first admin");
    let second = attached(&mut repository, "ATTACH second admin");
    assert!(first.tuple_space() != second.tuple_space());
    assert!(done(ask(&mut repository, Some(&first), "OUT (1)")));
    assert_eq!(
        refusal(ask(&mut repository, Some(&second), "READ (_)")),
        NO_MATCHING_TUPLE_FOUND
    );
    assert_eq!(data(ask(&mut repository, Some(&first), "READ (_)")), "(1)");
}

#[test]
fn a_space_that_is_created_again_starts_empty() {
    let (mut repository, session) = with_space();
    assert!(done(ask(&mut repository, Some(&session), "OUT (1)")));
    assert!(done(ask(&mut repository, None, "CREATE admin weather admin")));
    let fresh = attached(&mut repository, "ATTACH weather admin");
    assert!(fresh.tuple_space() != session.tuple_space());
    assert_eq!(refusal(ask(&mut repository, Some(&fresh), "READ (_)")), NO_MATCHING_TUPLE_FOUND);
    assert_eq!(data(ask(&mut repository, Some(&session), "READ (_)")), "(1)");
}

#[test]
fn the_space_of_the_permissions_can_be_read_by_the_administrator() {
    let mut repository = Repository::new("admin");
    let session = attached(&mut repository, "ATTACH PERMISSION admin");
    assert_eq!(session.tuple_space(), 0);
    assert_eq!(data(ask(&mut repository, Some(&session), "READ (_, _)")), "(CREATE,(admin))");
    let guest = attached(&mut repository, "ATTACH PERMISSION guest");
    assert_eq!(refusal(ask(&mut repository, Some(&guest), "READ (_, _)")), NO_PERMISSION);
}

#[test]
fn a_record_is_kept_as_it_is_and_a_tuple_of_a_request_in_quotes() {
    let mut repository = Repository::new("admin");
    let session = attached(&mut repository, "ATTACH PERMISSION admin");
    assert_eq!(
        refusal(ask(&mut repository, Some(&session), "READ (\"CREATE\", _)")),
        NO_MATCHING_TUPLE_FOUND
    );
    assert!(done(ask(&mut repository, Some(&session), "OUT (\"CREATE\", (\"guest\"))")));
    assert!(!repository.check_permission(CREATE, &strings(&["guest"]), None));
    assert!(!repository.check_permission(CREATE, &strings(&["\"guest\""]), None));
    assert!(repository.check_permission(CREATE, &strings(&["admin"]), None));
}

#[test]
fn tuples_are_put_and_taken_by_the_name_of_the_space() {
    let (mut repository, session) = with_space();
    let t = TupleData::new(vec![Element::Text(String::from("temp")), Element::Integer(21)]);
    repository.add_tuple_to_tuple_space(String::from("weather"), t.duplicate());
    repository.add_tuple_to_tuple_space(String::from("nowhere"), t.duplicate());
    assert_eq!(data(ask(&mut repository, Some(&session), "READ (\"temp\", _)")), "(\"temp\",21)");
    let template = TupleData::new(vec![Element::Wildcard, Element::Integer(21)]);
    repository.remove_tuple_to_tuple_space(String::from("nowhere"), template.duplicate());
    assert_eq!(data(ask(&mut repository, Some(&session), "READ (\"temp\", _)")), "(\"temp\",21)");
    repository.remove_tuple_to_tuple_space(String::from("weather"), t.duplicate());
    assert_eq!(data(ask(&mut repository, Some(&session), "READ (\"temp\", _)")), "(\"temp\",21)");
    repository.remove_tuple_to_tuple_space(String::from("weather"), t.format());
    assert_eq!(
        refusal(ask(&mut repository, Some(&session), "READ (\"temp\", _)")),
        NO_MATCHING_TUPLE_FOUND
    );
    repository.add_tuple_to_tuple_space(String::from("weather"), t);
    repository.remove_tuple_to_tuple_space(String::from("weather"), template);
    assert_eq!(
        refusal(ask(&mut repository, Some(&session), "READ (\"temp\", _)")),
        NO_MATCHING_TUPLE_FOUND
    );
    assert_eq!(repository.stores_len(), 2);
}

#[test]
fn spaces_are_added_and_removed_by_name() {
    let mut repository = Repository::new("admin");
    repository.add_tuple_space(String::from("lab"), strings(&["chief"]));
    assert!(repository.has_tuple_space("lab"));
    assert_eq!(repository.lookup("lab"), Some(1));
    assert!(repository.check_permission(IN, &strings(&["chief"]), Some("lab")));
    repository.add_permission_list(strings(&["r", "i", "o", "d"]), "hall");
    assert!(!repository.has_tuple_space("hall"));
    assert!(repository.check_permission(OUT, &strings(&["o"]), Some("hall")));
    assert!(!repository.check_permission(OUT, &strings(&["r"]), Some("hall")));
    repository.remove_tuple_space("lab");
    assert!(!repository.has_tuple_space("lab"));
    repository.remove_tuple_space("lab");
    assert!(repository.has_tuple_space(PERMISSION));
    assert_eq!(repository.stores_len(), 2);
}

#[test]
fn tuples_are_put_and_gathered_by_the_number_of_the_store() {
    let mut repository = Repository::new("admin");
    repository.add_tuple_space(String::from("lab"), strings(&["chief"]));
    let handle = repository.lookup("lab").unwrap();
    assert!(handle < repository.stores_len());
    repository.out_tuples(handle, &parse_text("(1) (_) (2)"));
    match repository.gather(handle, &parse_text("(_)"), false) {
        Gathered::Data(text) => assert_eq!(text, "(1)"),
        Gathered::Nothing(reason) => panic!("nothing found: {}", reason),
    }
    match repository.gather(handle, &parse_text("(1) (2)"), true) {
        Gathered::Data(text) => assert_eq!(text, "((1), (2))"),
        Gathered::Nothing(reason) => panic!("nothing found: {}", reason),
    }
    match repository.gather(handle, &parse_text("(_)"), true) {
        Gathered::Data(text) => panic!("found {}", text),
        Gathered::Nothing(reason) => assert_eq!(reason, NO_MATCHING_TUPLE_FOUND),
    }
    match repository.gather(handle, &Vec::new(), false) {
        Gathered::Data(text) => panic!("found {}", text),
        Gathered::Nothing(reason) => assert_eq!(reason, NO_MATCHING_TUPLE_FOUND),
    }
}

#[test]
fn the_records_of_the_permissions_have_their_shape() {
    assert_eq!(create_tuple("admin").to_text(), "(\"CREATE\",(\"admin\"))");
    assert_eq!(
        permission_tuple("weather", "OUT", "admin").to_text(),
        "(\"weather\",\"OUT\",(\"admin\"))"
    );
    assert_eq!(create_template().to_text(), "(\"CREATE\",_)");
    assert_eq!(permission_template("weather", "IN").to_text(), "(\"weather\",\"IN\",_)");
}

#[test]
fn attributes_are_compared_with_the_list_of_a_record() {
    let list = E::T(Tuple::new(&[E::str("a"), E::I(7), E::str("b")]));
    assert!(compare_attributes(&list, &strings(&["b"])));
    assert!(compare_attributes(&list, &strings(&["x", "a"])));
    assert!(!compare_attributes(&list, &strings(&["c"])));
    assert!(!compare_attributes(&list, &strings(&["7"])));
    assert!(!compare_attributes(&list, &strings(&[])));
    assert!(!compare_attributes(&E::T(Tuple::new(&[])), &strings(&["a"])));
    assert!(!compare_attributes(&E::str("a"), &strings(&["a"])));
    assert!(!compare_attributes(&E::Any, &strings(&["a"])));
    let nested = E::T(Tuple::new(&[E::T(Tuple::new(&[E::str("a")]))]));
    assert!(!compare_attributes(&nested, &strings(&["a"])));
}

#[test]
fn elements_of_a_stored_tuple_are_found_by_position() {
    let record = Tuple::new(&[E::str("s"), E::str("OUT"), E::T(Tuple::new(&[E::str("a")]))]);
    assert_eq!(outside_at(&record, 0), Some(E::str("s")));
    assert_eq!(outside_at(&record, 1), Some(E::str("OUT")));
    assert_eq!(outside_at(&record, 2), Some(E::T(Tuple::new(&[E::str("a")]))));
    assert_eq!(outside_at(&record, 3), None);
    assert_eq!(outside_at(&Tuple::new(&[]), 0), None);
}
