//! Permissions: the records that say which attribute may do what, and the
//! decision whether a caller that presents some attributes is among them.
//!
//! A record is a tuple: `(CREATE, (attribute))` says who may create spaces,
//! `(space, action, (attribute))` who may perform an action on a space.

use vstd::prelude::*;
use crate::constant::CREATE;
use crate::store::{
    element_decimal_free, element_matches, element_sound, outside_element, outside_elements,
    outside_first, outside_inner, outside_is_empty, outside_rest, outside_string,
    tuple_decimal_free, tuple_matches, tuple_sound,
};
use crate::text::texts;
use crate::tuple::{
    Element, ElementValue, TupleData, element_defined, lemma_elements_value, tuple_defined,
};

verus! {

/// The list of attributes of a record that names one attribute.
pub open spec fn attribute_list(attribute: Seq<char>) -> ElementValue {
    ElementValue::Nested(seq![ElementValue::Text(attribute)])
}

/// The record that lets an attribute create spaces.
pub open spec fn create_record(attribute: Seq<char>) -> Seq<ElementValue> {
    seq![ElementValue::Text(CREATE@), attribute_list(attribute)]
}

/// The record that lets an attribute perform an action on a space.
pub open spec fn permission_record(
    space: Seq<char>,
    action: Seq<char>,
    attribute: Seq<char>,
) -> Seq<ElementValue> {
    seq![ElementValue::Text(space), ElementValue::Text(action), attribute_list(attribute)]
}

/// The template that finds a record on the creation of spaces.
pub open spec fn create_query() -> Seq<ElementValue> {
    seq![ElementValue::Text(CREATE@), ElementValue::Wildcard]
}

/// The template that finds a record on an action on a space.
pub open spec fn permission_query(space: Seq<char>, action: Seq<char>) -> Seq<ElementValue> {
    seq![ElementValue::Text(space), ElementValue::Text(action), ElementValue::Wildcard]
}

/// The elements of a list: those of a nested tuple, none for any other
/// element.
pub open spec fn list_of(e: ElementValue) -> Seq<ElementValue> {
    match e {
        ElementValue::Nested(list) => list,
        _ => Seq::empty(),
    }
}

/// Whether one of the presented attributes is named in the list.
pub open spec fn holds(list: Seq<ElementValue>, presented: Seq<Seq<char>>) -> bool {
    exists|i: int, j: int|
        0 <= i < list.len() && 0 <= j < presented.len() && #[trigger] list[i]
            == ElementValue::Text(#[trigger] presented[j])
}

/// Whether a record names one of the presented attributes in its list at
/// `position`. A record that is not that long, or has no list there, names
/// none.
pub open spec fn record_permits(
    record: Seq<ElementValue>,
    position: int,
    presented: Seq<Seq<char>>,
) -> bool {
    0 <= position < record.len() && holds(list_of(record[position]), presented)
}

/// A record with a list of one attribute lets in exactly the callers that
/// present this attribute: the record that grants the attribute an action on
/// a space permits a caller if and only if the attribute is among those that
/// the caller presents. So a caller that presents the attribute and others is
/// let in, and a caller that presents only other attributes is not.
pub proof fn lemma_grant_decides(
    space: Seq<char>,
    action: Seq<char>,
    attribute: Seq<char>,
    presented: Seq<Seq<char>>,
)
    ensures
        record_permits(permission_record(space, action, attribute), 2, presented)
            == presented.contains(attribute),
{
    lemma_list_holds(attribute, presented);
}

/// The same for the record on the creation of spaces.
pub proof fn lemma_create_grant_decides(attribute: Seq<char>, presented: Seq<Seq<char>>)
    ensures
        record_permits(create_record(attribute), 1, presented) == presented.contains(attribute),
{
    lemma_list_holds(attribute, presented);
}

/// A list of one attribute names a presented attribute exactly where this
/// attribute is presented.
proof fn lemma_list_holds(attribute: Seq<char>, presented: Seq<Seq<char>>)
    ensures
        holds(seq![ElementValue::Text(attribute)], presented) == presented.contains(attribute),
{
    let list = seq![ElementValue::Text(attribute)];
    if presented.contains(attribute) {
        let j = choose|j: int| 0 <= j < presented.len() && presented[j] == attribute;
        assert(list[0] == ElementValue::Text(presented[j]));
    }
    if holds(list, presented) {
        let (i, j) = choose|i: int, j: int|
            0 <= i < list.len() && 0 <= j < presented.len() && #[trigger] list[i]
                == ElementValue::Text(#[trigger] presented[j]);
        assert(presented[j] == attribute);
    }
}

/// A record is defined, holds no decimal and no "nothing" marker, and its
/// decimals are well written, since it has none; so are the templates that
/// find records.
pub proof fn lemma_record_plain(space: Seq<char>, action: Seq<char>, attribute: Seq<char>)
    ensures
        tuple_defined(permission_record(space, action, attribute)),
        tuple_sound(permission_record(space, action, attribute)),
        tuple_decimal_free(permission_record(space, action, attribute)),
        tuple_defined(create_record(attribute)),
        tuple_sound(create_record(attribute)),
        tuple_decimal_free(create_record(attribute)),
{
    let list = seq![ElementValue::Text(attribute)];
    assert(tuple_defined(list) && tuple_sound(list) && tuple_decimal_free(list)) by {
        assert forall|i: int| 0 <= i < list.len() implies element_defined(#[trigger] list[i])
            && element_sound(list[i]) && element_decimal_free(list[i]) by {}
    }
    let record = permission_record(space, action, attribute);
    assert forall|i: int| 0 <= i < record.len() implies element_defined(#[trigger] record[i])
        && element_sound(record[i]) && element_decimal_free(record[i]) by {}
    let first = create_record(attribute);
    assert forall|i: int| 0 <= i < first.len() implies element_defined(#[trigger] first[i])
        && element_sound(first[i]) && element_decimal_free(first[i]) by {}
}

/// The templates that find records hold no decimal.
pub proof fn lemma_query_plain(space: Seq<char>, action: Seq<char>)
    ensures
        tuple_decimal_free(create_query()),
        tuple_decimal_free(permission_query(space, action)),
{
    let first = create_query();
    assert forall|i: int| 0 <= i < first.len() implies element_decimal_free(
        #[trigger] first[i],
    ) by {}
    let query = permission_query(space, action);
    assert forall|i: int| 0 <= i < query.len() implies element_decimal_free(
        #[trigger] query[i],
    ) by {}
}

/// The template for an action on a space matches the records of this action
/// on this space, and no other record of an action on a space.
pub proof fn lemma_query_matches_record(
    space: Seq<char>,
    action: Seq<char>,
    other_space: Seq<char>,
    other_action: Seq<char>,
    attribute: Seq<char>,
)
    ensures
        tuple_matches(
            permission_query(space, action),
            permission_record(other_space, other_action, attribute),
        ) == (space == other_space && action == other_action),
{
    let query = permission_query(space, action);
    let record = permission_record(other_space, other_action, attribute);
    if space == other_space && action == other_action {
        assert forall|i: int| 0 <= i < query.len() && i < record.len() implies element_matches(
            #[trigger] query[i],
            record[i],
        ) by {}
    } else if space != other_space {
        assert(!element_matches(query[0], record[0]));
    } else {
        assert(!element_matches(query[1], record[1]));
    }
}

/// The tuple of the given elements.
fn tuple_of(elements: Vec<Element>) -> (t: TupleData)
    ensures
        t@.len() == elements@.len(),
        forall|i: int| 0 <= i < elements@.len() ==> (#[trigger] t@[i]) == elements@[i]@,
{
    proof {
        lemma_elements_value(elements@);
    }
    TupleData::new(elements)
}

/// The list that names one attribute.
fn one_attribute(attribute: &str) -> (e: Element)
    ensures
        e@ == attribute_list(attribute@),
{
    let mut inner: Vec<Element> = Vec::new();
    inner.push(Element::Text(attribute.to_owned()));
    let list = tuple_of(inner);
    assert(list@ =~= seq![ElementValue::Text(attribute@)]);
    Element::Nested(list)
}

/// The record that lets an attribute create spaces.
pub fn create_tuple(attribute: &str) -> (t: TupleData)
    ensures
        t@ == create_record(attribute@),
{
    let mut elements: Vec<Element> = Vec::new();
    elements.push(Element::Text(CREATE.to_owned()));
    elements.push(one_attribute(attribute));
    let t = tuple_of(elements);
    assert(t@ =~= create_record(attribute@));
    t
}

/// The record that lets an attribute perform an action on a space.
pub fn permission_tuple(space: &str, action: &str, attribute: &str) -> (t: TupleData)
    ensures
        t@ == permission_record(space@, action@, attribute@),
{
    let mut elements: Vec<Element> = Vec::new();
    elements.push(Element::Text(space.to_owned()));
    elements.push(Element::Text(action.to_owned()));
    elements.push(one_attribute(attribute));
    let t = tuple_of(elements);
    assert(t@ =~= permission_record(space@, action@, attribute@));
    t
}

/// The template that finds a record on the creation of spaces.
pub fn create_template() -> (t: TupleData)
    ensures
        t@ == create_query(),
{
    let mut elements: Vec<Element> = Vec::new();
    elements.push(Element::Text(CREATE.to_owned()));
    elements.push(Element::Wildcard);
    let t = tuple_of(elements);
    assert(t@ =~= create_query());
    t
}

/// The template that finds a record on an action on a space.
pub fn permission_template(space: &str, action: &str) -> (t: TupleData)
    ensures
        t@ == permission_query(space@, action@),
{
    let mut elements: Vec<Element> = Vec::new();
    elements.push(Element::Text(space.to_owned()));
    elements.push(Element::Text(action.to_owned()));
    elements.push(Element::Wildcard);
    let t = tuple_of(elements);
    assert(t@ =~= permission_query(space@, action@));
    t
}

/// Whether a text is one of the presented attributes.
fn is_presented(name: &String, presented: &Vec<String>) -> (b: bool)
    ensures
        b == exists|j: int| 0 <= j < presented@.len() && name@ == #[trigger] texts(presented@)[j],
{
    let mut j: usize = 0;
    while j < presented.len()
        invariant
            j <= presented.len(),
            forall|k: int| 0 <= k < j ==> name@ != #[trigger] texts(presented@)[k],
        decreases presented.len() - j,
    {
        if *name == presented[j] {
            assert(name@ == texts(presented@)[j as int]);
            return true;
        }
        j = j + 1;
    }
    false
}

/// Whether the list of attributes of a record, as its store holds it, names
/// one of the attributes that a caller presents.
pub fn compare_attributes(
    attributes_permission: &rustupolis::tuple::E,
    attributes_client: &Vec<String>,
) -> (b: bool)
    ensures
        b == holds(list_of(outside_element(*attributes_permission)), texts(attributes_client@)),
{
    let list = match outside_inner(attributes_permission) {
        Some(list) => list,
        None => {
            return false;
        },
    };
    let ghost names = outside_elements(list);
    let ghost all = texts(attributes_client@);
    let ghost mut k: int = 0;
    let mut rest = list;
    assert(names.skip(0) =~= names);
    while !outside_is_empty(&rest)
        invariant
            0 <= k <= names.len(),
            names == list_of(outside_element(*attributes_permission)),
            all == texts(attributes_client@),
            outside_elements(rest) == names.skip(k),
            forall|i: int, j: int|
                0 <= i < k && 0 <= j < all.len() ==> #[trigger] names[i] != ElementValue::Text(
                    #[trigger] all[j],
                ),
        decreases names.len() - k,
    {
        let head = outside_first(&rest);
        assert(outside_element(head) == names[k]);
        match outside_string(&head) {
            Some(name) => {
                if is_presented(&name, attributes_client) {
                    let ghost j = choose|j: int|
                        0 <= j < attributes_client@.len() && name@ == #[trigger] texts(
                            attributes_client@,
                        )[j];
                    assert(0 <= k < names.len() && 0 <= j < all.len() && names[k]
                        == ElementValue::Text(all[j]));
                    return true;
                }
            },
            None => {},
        }
        let following = outside_rest(&rest);
        proof {
            assert(names.skip(k).drop_first() =~= names.skip(k + 1));
            k = k + 1;
        }
        rest = following;
    }
    false
}

} // verus!
