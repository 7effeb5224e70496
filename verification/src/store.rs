//! The tuple store of one space.
//!
//! The store is the matching engine of the `rustupolis` crate. What it holds
//! is described as a set of tuple values; what it answers to a template is
//! given a name, since which of several matching tuples it picks is decided by
//! its own order of tuples.

use vstd::prelude::*;
use futures::FutureExt;
use rustupolis::space::Space;
use rustupolis::store::SimpleStore;
use crate::lexing::decimal_text;
use crate::literal::{int_text, is_decimal_text};
use crate::tuple::{
    Element, ElementValue, TupleData, element_defined, lemma_elements_value, tuple_defined,
};

verus! {

/// The element type of the `rustupolis` crate.
#[verifier::external_type_specification]
#[verifier::external_body]
pub struct ExOutsideElement(rustupolis::tuple::E);

/// The tuple type of the `rustupolis` crate.
#[verifier::external_type_specification]
#[verifier::external_body]
pub struct ExOutsideTuple(rustupolis::tuple::Tuple);

/// A tuple space of the `rustupolis` crate over its in-memory store.
#[verifier::external_body]
pub struct TupleStore {
    space: Space<SimpleStore>,
}

/// The characters that the store's number prints for a decimal written as
/// `text`.
pub uninterp spec fn decimal_shown(text: Seq<char>) -> Seq<char>;

/// The value of an element of the `rustupolis` crate; a decimal has the
/// characters that it prints as.
pub uninterp spec fn outside_element(e: rustupolis::tuple::E) -> ElementValue;

/// The values of the elements of a tuple of the `rustupolis` crate.
pub uninterp spec fn outside_elements(t: rustupolis::tuple::Tuple) -> Seq<ElementValue>;

/// The tuples that the store holds.
pub uninterp spec fn stored(store: TupleStore) -> Set<Seq<ElementValue>>;

/// The number of requests that wait in the space for a tuple to arrive.
pub uninterp spec fn waiting(store: TupleStore) -> nat;

/// The tuples that a store without waiting requests holds after `tuple` was
/// handed to it.
pub uninterp spec fn store_put(
    tuples: Set<Seq<ElementValue>>,
    tuple: Seq<ElementValue>,
) -> Set<Seq<ElementValue>>;

/// The tuple that a store finds for `template` among `tuples`; the empty tuple
/// where it finds none.
pub uninterp spec fn store_match(
    tuples: Set<Seq<ElementValue>>,
    template: Seq<ElementValue>,
) -> Seq<ElementValue>;

/// The tuple that a store takes out of `tuples` for `template`; the empty
/// tuple where it finds none.
pub uninterp spec fn store_taken(
    tuples: Set<Seq<ElementValue>>,
    template: Seq<ElementValue>,
) -> Seq<ElementValue>;

/// Whether the decimals of an element are written as decimal numbers, at any
/// depth.
pub open spec fn element_sound(e: ElementValue) -> bool
    decreases e,
{
    match e {
        ElementValue::Decimal(d) => is_decimal_text(d),
        ElementValue::Nested(t) => tuple_sound(t),
        _ => true,
    }
}

/// Whether the decimals of a tuple are written as decimal numbers, at any
/// depth.
pub open spec fn tuple_sound(t: Seq<ElementValue>) -> bool
    decreases t,
{
    forall|i: int| 0 <= i < t.len() ==> element_sound(#[trigger] t[i])
}

/// Whether an element holds no "nothing" marker, at any depth.
pub open spec fn element_nil_free(e: ElementValue) -> bool
    decreases e,
{
    match e {
        ElementValue::Nil => false,
        ElementValue::Nested(t) => tuple_nil_free(t),
        _ => true,
    }
}

/// Whether a tuple holds no "nothing" marker, at any depth.
pub open spec fn tuple_nil_free(t: Seq<ElementValue>) -> bool
    decreases t,
{
    forall|i: int| 0 <= i < t.len() ==> element_nil_free(#[trigger] t[i])
}

/// Whether an element holds no decimal, at any depth.
pub open spec fn element_decimal_free(e: ElementValue) -> bool
    decreases e,
{
    match e {
        ElementValue::Decimal(_) => false,
        ElementValue::Nested(t) => tuple_decimal_free(t),
        _ => true,
    }
}

/// Whether a tuple holds no decimal, at any depth.
pub open spec fn tuple_decimal_free(t: Seq<ElementValue>) -> bool
    decreases t,
{
    forall|i: int| 0 <= i < t.len() ==> element_decimal_free(#[trigger] t[i])
}

/// Whether a tuple holds no wildcard, no "nothing" marker and no decimal, at
/// any depth: the store then holds and finds it as it is.
pub open spec fn tuple_plain(t: Seq<ElementValue>) -> bool {
    tuple_defined(t) && tuple_decimal_free(t)
}

/// Whether an element of a template without decimals matches an element: a
/// wildcard matches whatever is no wildcard and no "nothing" marker, and is
/// matched by everything but a "nothing" marker; an integer or a string
/// matches its equal; a nested tuple matches a nested tuple that it matches as
/// a template.
pub open spec fn element_matches(template: ElementValue, e: ElementValue) -> bool
    recommends
        element_decimal_free(template),
    decreases template,
{
    match template {
        ElementValue::Wildcard => !(e is Wildcard) && !(e is Nil),
        ElementValue::Nil => false,
        ElementValue::Integer(i) => e == ElementValue::Integer(i) || e is Wildcard,
        ElementValue::Text(s) => e == ElementValue::Text(s) || e is Wildcard,
        ElementValue::Nested(inner) => match e {
            ElementValue::Nested(other) => tuple_matches(inner, other),
            ElementValue::Wildcard => true,
            _ => false,
        },
        ElementValue::Decimal(_) => e is Wildcard,
    }
}

/// Whether a template without decimals matches a tuple: both are empty or
/// neither is, and each element of the template matches the element at its
/// place, as far as the shorter of the two goes.
pub open spec fn tuple_matches(template: Seq<ElementValue>, t: Seq<ElementValue>) -> bool
    recommends
        tuple_decimal_free(template),
    decreases template,
{
    &&& (template.len() == 0) == (t.len() == 0)
    &&& forall|i: int|
        0 <= i < template.len() && i < t.len() ==> element_matches(#[trigger] template[i], t[i])
}

/// An element as the store keeps it: each decimal with the characters that
/// the store's number prints for it.
pub open spec fn kept_element(e: ElementValue) -> ElementValue
    decreases e,
{
    match e {
        ElementValue::Decimal(d) => ElementValue::Decimal(decimal_shown(d)),
        ElementValue::Nested(t) => ElementValue::Nested(kept(t)),
        _ => e,
    }
}

/// A tuple as the store keeps it.
pub open spec fn kept(t: Seq<ElementValue>) -> Seq<ElementValue>
    decreases t,
{
    if t.len() == 0 {
        Seq::empty()
    } else {
        kept(t.drop_last()).push(kept_element(t.last()))
    }
}

/// The text that the store prints for an element: a string without quotes,
/// a decimal with its characters.
pub open spec fn shown_element(e: ElementValue) -> Seq<char>
    decreases e,
{
    match e {
        ElementValue::Integer(i) => int_text(i as int),
        ElementValue::Decimal(d) => d,
        ElementValue::Text(s) => s,
        ElementValue::Nested(t) => shown_tuple(t),
        ElementValue::Wildcard => seq!['_'],
        ElementValue::Nil => seq!['n', 'i', 'l'],
    }
}

/// The text that the store prints for a tuple: the texts of its elements
/// between parentheses, with commas between them.
pub open spec fn shown_tuple(t: Seq<ElementValue>) -> Seq<char>
    decreases t, 1int,
{
    seq!['('] + shown_elements(t) + seq![')']
}

/// The texts that the store prints for the elements, with a comma between each
/// two.
pub open spec fn shown_elements(t: Seq<ElementValue>) -> Seq<char>
    decreases t, 0int,
{
    if t.len() == 0 {
        Seq::empty()
    } else if t.len() == 1 {
        shown_element(t[0])
    } else {
        shown_element(t[0]) + seq![','] + shown_elements(t.drop_first())
    }
}

/// A tuple as the store keeps it has the kept form of each element at its
/// place.
pub proof fn lemma_kept(t: Seq<ElementValue>)
    ensures
        kept(t).len() == t.len(),
        forall|i: int| 0 <= i < t.len() ==> (#[trigger] kept(t)[i]) == kept_element(t[i]),
    decreases t.len(),
{
    if t.len() > 0 {
        lemma_kept(t.drop_last());
    }
}

/// The store keeps an element without decimals as it is; what it keeps is
/// defined, and free of "nothing" markers, exactly where the element is.
pub proof fn lemma_kept_element_same(e: ElementValue)
    ensures
        element_decimal_free(e) ==> kept_element(e) == e,
        element_defined(kept_element(e)) == element_defined(e),
        element_nil_free(kept_element(e)) == element_nil_free(e),
    decreases e,
{
    match e {
        ElementValue::Nested(t) => {
            lemma_kept_same(t);
        },
        _ => {},
    }
}

/// The store keeps a tuple without decimals as it is; what it keeps is
/// defined, and free of "nothing" markers, exactly where the tuple is.
pub proof fn lemma_kept_same(t: Seq<ElementValue>)
    ensures
        tuple_decimal_free(t) ==> kept(t) == t,
        tuple_defined(kept(t)) == tuple_defined(t),
        tuple_nil_free(kept(t)) == tuple_nil_free(t),
        kept(t).len() == t.len(),
    decreases t,
{
    lemma_kept(t);
    assert forall|i: int| 0 <= i < t.len() implies (element_decimal_free(t[i]) ==> kept_element(
        t[i],
    ) == t[i]) && element_defined(kept_element(t[i])) == element_defined(t[i])
        && element_nil_free(kept_element(t[i])) == element_nil_free(t[i]) by {
        lemma_kept_element_same(t[i]);
    }
    if tuple_decimal_free(t) {
        assert(kept(t) =~= t);
    }
    if tuple_defined(t) {
        assert forall|i: int| 0 <= i < kept(t).len() implies element_defined(
            #[trigger] kept(t)[i],
        ) by {
            assert(element_defined(t[i]));
        }
    } else {
        let i = choose|i: int| 0 <= i < t.len() && !element_defined(#[trigger] t[i]);
        assert(!element_defined(kept(t)[i]));
    }
    if tuple_nil_free(t) {
        assert forall|i: int| 0 <= i < kept(t).len() implies element_nil_free(
            #[trigger] kept(t)[i],
        ) by {
            assert(element_nil_free(t[i]));
        }
    } else {
        let i = choose|i: int| 0 <= i < t.len() && !element_nil_free(#[trigger] t[i]);
        assert(!element_nil_free(kept(t)[i]));
    }
}

/// `Space::new` over `SimpleStore::new`: a space that holds no tuple and in
/// which no request waits.
#[verifier::external_body]
fn store_new() -> (store: TupleStore)
    ensures
        stored(store) == Set::<Seq<ElementValue>>::empty(),
        waiting(store) == 0,
{
    TupleStore { space: Space::new(SimpleStore::new()) }
}

/// The element of the `rustupolis` crate for an element that is no nested
/// tuple: the same variant with the same content; a decimal as the number that
/// `str::parse` reads from its characters, whose value is written with the
/// characters that this number prints as.
#[verifier::external_body]
fn outside_leaf(e: &Element) -> (o: rustupolis::tuple::E)
    requires
        !(e is Nested),
        element_sound(e@),
    ensures
        outside_element(o) == match e {
            Element::Decimal(d) => ElementValue::Decimal(decimal_shown(d@)),
            _ => e@,
        },
{
    match e {
        Element::Integer(i) => rustupolis::tuple::E::I(*i),
        Element::Decimal(d) => rustupolis::tuple::E::D(d.parse().unwrap_or_default()),
        Element::Text(s) => rustupolis::tuple::E::S(s.clone()),
        Element::Wildcard => rustupolis::tuple::E::Any,
        _ => rustupolis::tuple::E::None,
    }
}

/// `E::T`: the element that holds a tuple.
#[verifier::external_body]
fn outside_nested(t: rustupolis::tuple::Tuple) -> (o: rustupolis::tuple::E)
    ensures
        outside_element(o) == ElementValue::Nested(outside_elements(t)),
{
    rustupolis::tuple::E::T(t)
}

/// `Tuple::from_vec` of the `rustupolis` crate: the tuple of the given elements, in their order.
#[verifier::external_body]
fn outside_tuple(items: Vec<rustupolis::tuple::E>) -> (t: rustupolis::tuple::Tuple)
    ensures
        outside_elements(t).len() == items@.len(),
        forall|i: int|
            0 <= i < items@.len() ==> (#[trigger] outside_elements(t)[i]) == outside_element(
                items@[i],
            ),
{
    rustupolis::tuple::Tuple::from_vec(items)
}

/// What is known of the tuples `left` that a store holds after `tuple` was
/// handed to it while it held `tuples`: a tuple with a wildcard or a
/// "nothing" marker leaves the store as it was; a tuple without wildcards,
/// "nothing" markers and decimals is in the store afterwards, beside those
/// that were there.
pub open spec fn put_well(
    tuples: Set<Seq<ElementValue>>,
    tuple: Seq<ElementValue>,
    left: Set<Seq<ElementValue>>,
) -> bool {
    &&& !tuple_defined(tuple) ==> left == tuples
    &&& tuple_plain(tuple) ==> left == tuples.insert(tuple)
}

/// What is known of the tuple `answer` that a store that holds `tuples`
/// finds for `template`: a template without wildcards finds itself or the
/// empty tuple, and where it holds no decimal either, itself exactly where
/// the store holds it; a template with a wildcard, or without decimals, finds
/// a tuple of the store or the empty tuple; a template without decimals
/// matches what it finds.
pub open spec fn found_well(
    tuples: Set<Seq<ElementValue>>,
    template: Seq<ElementValue>,
    answer: Seq<ElementValue>,
) -> bool {
    &&& tuple_defined(template) ==> answer == template || answer.len() == 0
    &&& tuple_plain(template) ==> answer == if tuples.contains(template) {
        template
    } else {
        Seq::<ElementValue>::empty()
    }
    &&& !tuple_defined(template) || tuple_decimal_free(template) ==> answer.len() == 0
        || tuples.contains(answer)
    &&& tuple_decimal_free(template) && answer.len() > 0 ==> tuple_matches(template, answer)
}

/// What is known of the tuple `answer` that a store that holds `tuples`
/// takes for `template`, and of the tuples `left` that it holds afterwards:
/// what is taken is a tuple of the store, which leaves the store, or the
/// empty tuple, and then the store keeps what it has; a template with a
/// wildcard takes what it finds; a template without wildcards and decimals
/// takes itself; a template without decimals matches what it takes.
pub open spec fn taken_well(
    tuples: Set<Seq<ElementValue>>,
    template: Seq<ElementValue>,
    answer: Seq<ElementValue>,
    left: Set<Seq<ElementValue>>,
) -> bool {
    &&& answer.len() == 0 ==> left == tuples
    &&& answer.len() > 0 ==> tuples.contains(answer) && left == tuples.remove(answer)
    &&& !tuple_defined(template) ==> answer == store_match(tuples, template)
    &&& tuple_plain(template) ==> answer == template
    &&& tuple_decimal_free(template) && answer.len() > 0 ==> tuple_matches(template, answer)
}

/// `Space::tuple_out`, polled once, on a space in which no request waits:
/// whether the tuple was put into the store, which is the case for every
/// tuple without wildcards and "nothing" markers. What the store holds
/// afterwards has a name; `put_well` says what is known of it.
#[verifier::external_body]
fn store_out(store: &mut TupleStore, tuple: rustupolis::tuple::Tuple) -> (done: bool)
    requires
        waiting(*old(store)) == 0,
    ensures
        waiting(*final(store)) == 0,
        done == tuple_defined(outside_elements(tuple)),
        stored(*final(store)) == store_put(stored(*old(store)), outside_elements(tuple)),
        put_well(stored(*old(store)), outside_elements(tuple), stored(*final(store))),
{
    store.space.tuple_out(tuple).now_or_never().map_or(false, |r| r.is_ok())
}

/// `Space::tuple_rd`, polled once: the tuple that is found, which is the
/// empty tuple where none is found; the store keeps what it has, and no
/// request is left waiting. What is found has a name; `found_well` says what
/// is known of it. The template holds no "nothing" marker: the store cannot
/// look for one.
#[verifier::external_body]
fn store_read(store: &mut TupleStore, template: rustupolis::tuple::Tuple) -> (r: Option<
    rustupolis::tuple::Tuple,
>)
    requires
        tuple_nil_free(outside_elements(template)),
    ensures
        stored(*final(store)) == stored(*old(store)),
        waiting(*final(store)) == waiting(*old(store)),
        r matches Some(t) && outside_elements(t) == store_match(
            stored(*old(store)),
            outside_elements(template),
        ),
        r matches Some(t) && found_well(
            stored(*old(store)),
            outside_elements(template),
            outside_elements(t),
        ),
{
    store.space.tuple_rd(template).now_or_never().flatten()
}

/// `Space::tuple_in`, polled once, on a space in which no request waits: the
/// tuple that is taken, which is the empty tuple where none is found. What is
/// taken has a name; `taken_well` says what is known of it and of what the
/// store holds afterwards. The template holds no "nothing" marker, and a
/// template without wildcards is one that `Space::tuple_rd` finds: the space
/// would otherwise keep the request waiting.
#[verifier::external_body]
fn store_take(store: &mut TupleStore, template: rustupolis::tuple::Tuple) -> (r: Option<
    rustupolis::tuple::Tuple,
>)
    requires
        waiting(*old(store)) == 0,
        tuple_nil_free(outside_elements(template)),
        tuple_defined(outside_elements(template)) ==> store_match(
            stored(*old(store)),
            outside_elements(template),
        ).len() > 0,
    ensures
        waiting(*final(store)) == 0,
        r matches Some(t) && outside_elements(t) == store_taken(
            stored(*old(store)),
            outside_elements(template),
        ),
        r matches Some(t) && taken_well(
            stored(*old(store)),
            outside_elements(template),
            outside_elements(t),
            stored(*final(store)),
        ),
{
    store.space.tuple_in(template).now_or_never().flatten()
}

/// `Tuple::is_empty` of the `rustupolis` crate: whether the tuple has no element.
#[verifier::external_body]
pub(crate) fn outside_is_empty(t: &rustupolis::tuple::Tuple) -> (b: bool)
    ensures
        b == (outside_elements(*t).len() == 0),
{
    t.is_empty()
}

/// `to_string` of a tuple: the texts of its elements between parentheses,
/// with commas between them; an integer in decimal form, a string as it is, a
/// decimal as its number prints, the wildcard as `_`, the "nothing" marker as
/// `nil`.
#[verifier::external_body]
fn outside_text(t: &rustupolis::tuple::Tuple) -> (text: String)
    ensures
        text@ == shown_tuple(outside_elements(*t)),
{
    t.to_string()
}

/// `Tuple::first` of the `rustupolis` crate: a copy of the first element of
/// a tuple that has one.
#[verifier::external_body]
pub(crate) fn outside_first(t: &rustupolis::tuple::Tuple) -> (e: rustupolis::tuple::E)
    requires
        outside_elements(*t).len() > 0,
    ensures
        outside_element(e) == outside_elements(*t)[0],
{
    t.first().clone()
}

/// `Tuple::rest` of the `rustupolis` crate: the tuple without its first
/// element.
#[verifier::external_body]
pub(crate) fn outside_rest(t: &rustupolis::tuple::Tuple) -> (r: rustupolis::tuple::Tuple)
    requires
        outside_elements(*t).len() > 0,
    ensures
        outside_elements(r) == outside_elements(*t).drop_first(),
{
    t.rest()
}

/// The tuple that an element of the `rustupolis` crate holds: that of `E::T`,
/// nothing for any other variant.
#[verifier::external_body]
pub(crate) fn outside_inner(e: &rustupolis::tuple::E) -> (t: Option<rustupolis::tuple::Tuple>)
    ensures
        match t {
            Some(inner) => outside_element(*e) == ElementValue::Nested(outside_elements(inner)),
            None => !(outside_element(*e) is Nested),
        },
{
    match e {
        rustupolis::tuple::E::T(inner) => Some(inner.clone()),
        _ => None,
    }
}

/// The string that an element of the `rustupolis` crate holds: that of
/// `E::S`, nothing for any other variant.
#[verifier::external_body]
pub(crate) fn outside_string(e: &rustupolis::tuple::E) -> (s: Option<String>)
    ensures
        match s {
            Some(text) => outside_element(*e) == ElementValue::Text(text@),
            None => !(outside_element(*e) is Text),
        },
{
    match e {
        rustupolis::tuple::E::S(text) => Some(text.clone()),
        _ => None,
    }
}

/// The element at a position of a tuple of the `rustupolis` crate; nothing
/// where the tuple is not that long.
pub fn outside_at(t: &rustupolis::tuple::Tuple, position: usize) -> (e: Option<
    rustupolis::tuple::E,
>)
    ensures
        match e {
            Some(element) => position < outside_elements(*t).len() && outside_element(element)
                == outside_elements(*t)[position as int],
            None => position >= outside_elements(*t).len(),
        },
{
    if outside_is_empty(t) {
        return None;
    }
    let ghost all = outside_elements(*t);
    let mut head = outside_first(t);
    let mut rest = outside_rest(t);
    let mut k: usize = 0;
    assert(all.drop_first() =~= all.skip(1));
    while k < position
        invariant
            k <= position,
            k < all.len(),
            all == outside_elements(*t),
            outside_element(head) == all[k as int],
            outside_elements(rest) == all.skip(k + 1),
        decreases position - k,
    {
        if outside_is_empty(&rest) {
            return None;
        }
        head = outside_first(&rest);
        let following = outside_rest(&rest);
        assert(all.skip(k + 1).drop_first() =~= all.skip(k + 2));
        rest = following;
        k = k + 1;
    }
    Some(head)
}

/// The tuple of the `rustupolis` crate for a tuple.
fn outside_form(t: &TupleData) -> (o: rustupolis::tuple::Tuple)
    requires
        tuple_sound(t@),
    ensures
        outside_elements(o) == kept(t@),
    decreases t,
{
    let mut items: Vec<rustupolis::tuple::E> = Vec::new();
    let mut i: usize = 0;
    proof {
        lemma_elements_value(t.elements@);
        lemma_kept(t@);
    }
    while i < t.elements.len()
        invariant
            i <= t.elements.len(),
            items@.len() == i,
            tuple_sound(t@),
            t@.len() == t.elements.len(),
            forall|j: int| 0 <= j < t.elements.len() ==> (#[trigger] t@[j]) == t.elements@[j]@,
            forall|j: int| 0 <= j < i ==> outside_element(#[trigger] items@[j]) == kept_element(t@[j]),
        decreases t.elements.len() - i,
    {
        assert(element_sound(t@[i as int]));
        let item = match &t.elements[i] {
            Element::Nested(inner) => {
                assert(t.elements@[i as int]@ == ElementValue::Nested(inner@));
                outside_nested(outside_form(inner))
            },
            leaf => outside_leaf(leaf),
        };
        items.push(item);
        i = i + 1;
    }
    let o = outside_tuple(items);
    assert(outside_elements(o) =~= kept(t@));
    o
}

/// What a store holds after a tuple was handed to it. A tuple with a
/// wildcard or a "nothing" marker, or with a decimal that is not written as
/// one, is refused. A tuple without decimals is then in the store, beside
/// those that were there.
pub open spec fn put_result(
    tuples: Set<Seq<ElementValue>>,
    t: Seq<ElementValue>,
) -> Set<Seq<ElementValue>> {
    if !tuple_sound(t) || !tuple_defined(t) {
        tuples
    } else if tuple_decimal_free(t) {
        tuples.insert(t)
    } else {
        store_put(tuples, kept(t))
    }
}

/// Whether a template can be looked for: its decimals are written as decimal
/// numbers and it holds no "nothing" marker.
pub open spec fn searchable(t: Seq<ElementValue>) -> bool {
    tuple_sound(t) && tuple_nil_free(t)
}

/// The tuple that is found for a template; the empty tuple where none is
/// found or the template cannot be looked for. A template without wildcards
/// and decimals finds itself, where the store holds it; for any other
/// template the store's matching decides, and what it finds is as
/// `found_well` says.
pub open spec fn found(tuples: Set<Seq<ElementValue>>, t: Seq<ElementValue>) -> Seq<
    ElementValue,
> {
    if !searchable(t) {
        Seq::empty()
    } else if tuple_plain(t) {
        if tuples.contains(t) {
            t
        } else {
            Seq::empty()
        }
    } else if found_well(tuples, kept(t), store_match(tuples, kept(t))) {
        store_match(tuples, kept(t))
    } else {
        Seq::empty()
    }
}

/// What a store holds after it gave a tuple away, or none.
pub open spec fn left_after(
    tuples: Set<Seq<ElementValue>>,
    answer: Seq<ElementValue>,
) -> Set<Seq<ElementValue>> {
    if answer.len() > 0 {
        tuples.remove(answer)
    } else {
        tuples
    }
}

/// The tuple that is taken for a template; the empty tuple where none is
/// found or the template cannot be looked for. A template without wildcards
/// takes the tuple only where it is found; what the store takes is as
/// `taken_well` says.
pub open spec fn taken(tuples: Set<Seq<ElementValue>>, t: Seq<ElementValue>) -> Seq<
    ElementValue,
> {
    if !searchable(t) {
        Seq::empty()
    } else if tuple_plain(t) {
        found(tuples, t)
    } else if tuple_defined(t) && found(tuples, t).len() == 0 {
        Seq::empty()
    } else if taken_well(
        tuples,
        kept(t),
        store_taken(tuples, kept(t)),
        left_after(tuples, store_taken(tuples, kept(t))),
    ) {
        store_taken(tuples, kept(t))
    } else {
        Seq::empty()
    }
}

/// What a store holds after a tuple was taken for a template.
pub open spec fn take_result(
    tuples: Set<Seq<ElementValue>>,
    t: Seq<ElementValue>,
) -> Set<Seq<ElementValue>> {
    left_after(tuples, taken(tuples, t))
}

/// A tuple without wildcards, "nothing" markers and decimals can be looked
/// for.
pub proof fn lemma_plain_searchable(t: Seq<ElementValue>)
    requires
        tuple_plain(t),
    ensures
        searchable(t),
    decreases t,
{
    assert forall|i: int| 0 <= i < t.len() implies element_sound(#[trigger] t[i])
        && element_nil_free(t[i]) by {
        assert(element_defined(t[i]) && element_decimal_free(t[i]));
        match t[i] {
            ElementValue::Nested(inner) => {
                lemma_plain_searchable(inner);
            },
            _ => {},
        }
    }
}

/// A template without wildcards, "nothing" markers and decimals matches
/// itself where it has an element, and so does each of its elements.
pub proof fn lemma_matches_itself(t: Seq<ElementValue>)
    requires
        tuple_plain(t),
    ensures
        tuple_matches(t, t),
    decreases t,
{
    assert forall|i: int| 0 <= i < t.len() implies element_matches(#[trigger] t[i], t[i]) by {
        assert(element_defined(t[i]) && element_decimal_free(t[i]));
        match t[i] {
            ElementValue::Nested(inner) => {
                lemma_matches_itself(inner);
            },
            _ => {},
        }
    }
}

/// What a template without wildcards finds is the template as the store
/// keeps it, or nothing.
pub proof fn lemma_found_defined(tuples: Set<Seq<ElementValue>>, t: Seq<ElementValue>)
    requires
        tuple_defined(t),
    ensures
        found(tuples, t) == kept(t) || found(tuples, t).len() == 0,
{
    lemma_kept_same(t);
}

/// What a template without decimals finds is a tuple of the store that it
/// matches.
pub proof fn lemma_found_sound(tuples: Set<Seq<ElementValue>>, t: Seq<ElementValue>)
    requires
        tuple_decimal_free(t),
        found(tuples, t).len() > 0,
    ensures
        tuples.contains(found(tuples, t)),
        tuple_matches(t, found(tuples, t)),
{
    lemma_kept_same(t);
    if tuple_plain(t) {
        lemma_matches_itself(t);
    }
}

/// What is taken was in the store, and a template without decimals matches
/// it.
pub proof fn lemma_taken_sound(tuples: Set<Seq<ElementValue>>, t: Seq<ElementValue>)
    requires
        taken(tuples, t).len() > 0,
    ensures
        tuples.contains(taken(tuples, t)),
        tuple_decimal_free(t) ==> tuple_matches(t, taken(tuples, t)),
        take_result(tuples, t) == tuples.remove(taken(tuples, t)),
{
    lemma_kept_same(t);
    if tuple_plain(t) {
        lemma_matches_itself(t);
    }
}

/// What was put can be found, and taken once: after a tuple without
/// wildcards, "nothing" markers and decimals, which has an element, was
/// handed to a store, the tuple as a template finds and takes itself; once
/// it is taken, the store holds what it held before without this tuple, and
/// the template finds and takes nothing.
pub proof fn lemma_put_take_once(tuples: Set<Seq<ElementValue>>, t: Seq<ElementValue>)
    requires
        tuple_plain(t),
        t.len() > 0,
    ensures
        put_result(tuples, t) == tuples.insert(t),
        found(put_result(tuples, t), t) == t,
        taken(put_result(tuples, t), t) == t,
        take_result(put_result(tuples, t), t) == tuples.remove(t),
        found(take_result(put_result(tuples, t), t), t).len() == 0,
        taken(take_result(put_result(tuples, t), t), t).len() == 0,
        take_result(take_result(put_result(tuples, t), t), t) == tuples.remove(t),
{
    lemma_plain_searchable(t);
    assert(tuples.insert(t).remove(t) =~= tuples.remove(t));
}

impl Element {
    /// Whether the decimals of the element are written as decimal numbers.
    pub fn is_sound(&self) -> (b: bool)
        ensures
            b == element_sound(self@),
        decreases self,
    {
        match self {
            Element::Decimal(d) => decimal_text(d.as_str()),
            Element::Nested(t) => t.is_sound(),
            _ => true,
        }
    }

    /// Whether the element holds no "nothing" marker.
    pub fn is_nil_free(&self) -> (b: bool)
        ensures
            b == element_nil_free(self@),
        decreases self,
    {
        match self {
            Element::Nil => false,
            Element::Nested(t) => t.is_nil_free(),
            _ => true,
        }
    }
}

impl TupleData {
    /// Whether the decimals of the tuple are written as decimal numbers.
    pub fn is_sound(&self) -> (b: bool)
        ensures
            b == tuple_sound(self@),
        decreases self,
    {
        proof {
            lemma_elements_value(self.elements@);
        }
        let mut i: usize = 0;
        while i < self.elements.len()
            invariant
                i <= self.elements.len(),
                self@.len() == self.elements.len(),
                forall|j: int|
                    0 <= j < self.elements.len() ==> (#[trigger] self@[j]) == self.elements@[j]@,
                forall|j: int| 0 <= j < i ==> element_sound(#[trigger] self@[j]),
            decreases self.elements.len() - i,
        {
            if !self.elements[i].is_sound() {
                assert(!element_sound(self@[i as int]));
                return false;
            }
            i = i + 1;
        }
        true
    }

    /// Whether the tuple holds no "nothing" marker.
    pub fn is_nil_free(&self) -> (b: bool)
        ensures
            b == tuple_nil_free(self@),
        decreases self,
    {
        proof {
            lemma_elements_value(self.elements@);
        }
        let mut i: usize = 0;
        while i < self.elements.len()
            invariant
                i <= self.elements.len(),
                self@.len() == self.elements.len(),
                forall|j: int|
                    0 <= j < self.elements.len() ==> (#[trigger] self@[j]) == self.elements@[j]@,
                forall|j: int| 0 <= j < i ==> element_nil_free(#[trigger] self@[j]),
            decreases self.elements.len() - i,
        {
            if !self.elements[i].is_nil_free() {
                assert(!element_nil_free(self@[i as int]));
                return false;
            }
            i = i + 1;
        }
        true
    }
}

impl TupleStore {
    /// Whether no request waits in the space.
    pub closed spec fn wf(&self) -> bool {
        waiting(*self) == 0
    }

    /// The tuples that the store holds.
    pub closed spec fn tuples(&self) -> Set<Seq<ElementValue>> {
        stored(*self)
    }

    /// A store that holds no tuple.
    pub fn new() -> (store: TupleStore)
        ensures
            store.wf(),
            store.tuples() == Set::<Seq<ElementValue>>::empty(),
    {
        store_new()
    }

    /// Hands a tuple to the store. A tuple with a wildcard or a "nothing"
    /// marker, or with a decimal that is not written as one, is refused.
    pub fn out(&mut self, t: &TupleData) -> (done: bool)
        requires
            old(self).wf(),
        ensures
            final(self).wf(),
            done == (tuple_sound(t@) && tuple_defined(t@)),
            final(self).tuples() == put_result(old(self).tuples(), t@),
    {
        if !t.is_sound() {
            return false;
        }
        proof {
            lemma_kept_same(t@);
        }
        store_out(self, outside_form(t))
    }

    /// Looks for a tuple that matches the template; nothing where none is
    /// found.
    pub fn find(&mut self, t: &TupleData) -> (r: Option<rustupolis::tuple::Tuple>)
        requires
            old(self).wf(),
        ensures
            final(self).wf(),
            final(self).tuples() == old(self).tuples(),
            match r {
                Some(tuple) => found(old(self).tuples(), t@).len() > 0 && outside_elements(tuple)
                    == found(old(self).tuples(), t@),
                None => found(old(self).tuples(), t@).len() == 0,
            },
    {
        if !t.is_sound() || !t.is_nil_free() {
            return None;
        }
        proof {
            lemma_kept_same(t@);
        }
        match store_read(self, outside_form(t)) {
            Some(tuple) => {
                if outside_is_empty(&tuple) {
                    None
                } else {
                    Some(tuple)
                }
            },
            None => None,
        }
    }

    /// Looks for a tuple that matches the template and gives its text;
    /// nothing where none is found.
    pub fn read(&mut self, t: &TupleData) -> (text: Option<String>)
        requires
            old(self).wf(),
        ensures
            final(self).wf(),
            final(self).tuples() == old(self).tuples(),
            match text {
                Some(text) => found(old(self).tuples(), t@).len() > 0 && text@ == shown_tuple(
                    found(old(self).tuples(), t@),
                ),
                None => found(old(self).tuples(), t@).len() == 0,
            },
    {
        match self.find(t) {
            Some(tuple) => Some(outside_text(&tuple)),
            None => None,
        }
    }

    /// Takes a tuple that matches the template out of the store and gives its
    /// text; nothing where none is found.
    pub fn take(&mut self, t: &TupleData) -> (text: Option<String>)
        requires
            old(self).wf(),
        ensures
            final(self).wf(),
            final(self).tuples() == take_result(old(self).tuples(), t@),
            match text {
                Some(text) => taken(old(self).tuples(), t@).len() > 0 && text@ == shown_tuple(
                    taken(old(self).tuples(), t@),
                ),
                None => taken(old(self).tuples(), t@).len() == 0,
            },
    {
        if !t.is_sound() || !t.is_nil_free() {
            return None;
        }
        proof {
            lemma_kept_same(t@);
        }
        if t.is_defined() {
            let absent = match store_read(self, outside_form(t)) {
                Some(tuple) => outside_is_empty(&tuple),
                None => true,
            };
            if absent {
                return None;
            }
        }
        match store_take(self, outside_form(t)) {
            Some(tuple) => {
                if outside_is_empty(&tuple) {
                    None
                } else {
                    Some(outside_text(&tuple))
                }
            },
            None => None,
        }
    }
}

} // verus!
