//! Strings in quotes: a store keeps each string of a tuple with its quotes,
//! so that what it prints for the tuple is the tuple's literal.

use vstd::prelude::*;
use crate::literal::{element_text, elements_text, tuple_text};
use crate::store::{
    element_decimal_free, element_nil_free, element_sound, shown_element, shown_elements,
    shown_tuple, tuple_decimal_free, tuple_nil_free, tuple_sound,
};
use crate::text::{chars_of, string_of};
use crate::tuple::{
    Element, ElementValue, TupleData, element_defined, lemma_elements_value, tuple_defined,
};

verus! {

/// A string between double quotes.
pub open spec fn in_quotes(s: Seq<char>) -> Seq<char> {
    seq!['"'] + s + seq!['"']
}

/// An element with each of its strings between double quotes, at any depth.
pub open spec fn quoted_element(e: ElementValue) -> ElementValue
    decreases e,
{
    match e {
        ElementValue::Text(s) => ElementValue::Text(in_quotes(s)),
        ElementValue::Nested(t) => ElementValue::Nested(quoted(t)),
        _ => e,
    }
}

/// A tuple with each of its strings between double quotes, at any depth.
pub open spec fn quoted(t: Seq<ElementValue>) -> Seq<ElementValue>
    decreases t,
{
    if t.len() == 0 {
        Seq::empty()
    } else {
        quoted(t.drop_last()).push(quoted_element(t.last()))
    }
}

/// A quoted tuple has the quoted form of each element at its place.
pub proof fn lemma_quoted(t: Seq<ElementValue>)
    ensures
        quoted(t).len() == t.len(),
        forall|i: int| 0 <= i < t.len() ==> (#[trigger] quoted(t)[i]) == quoted_element(t[i]),
    decreases t.len(),
{
    if t.len() > 0 {
        lemma_quoted(t.drop_last());
    }
}

/// Quotes change neither whether an element is defined, nor whether its
/// decimals are well written, nor whether it holds a decimal or a "nothing"
/// marker; and what a store prints for the quoted element is the text of the
/// element.
pub proof fn lemma_quoted_element_keeps(e: ElementValue)
    ensures
        element_defined(quoted_element(e)) == element_defined(e),
        element_sound(quoted_element(e)) == element_sound(e),
        element_nil_free(quoted_element(e)) == element_nil_free(e),
        element_decimal_free(quoted_element(e)) == element_decimal_free(e),
        shown_element(quoted_element(e)) == element_text(e),
    decreases e,
{
    match e {
        ElementValue::Nested(t) => {
            lemma_quoted_keeps(t);
        },
        _ => {},
    }
}

/// The same for a tuple.
pub proof fn lemma_quoted_keeps(t: Seq<ElementValue>)
    ensures
        quoted(t).len() == t.len(),
        tuple_defined(quoted(t)) == tuple_defined(t),
        tuple_sound(quoted(t)) == tuple_sound(t),
        tuple_nil_free(quoted(t)) == tuple_nil_free(t),
        tuple_decimal_free(quoted(t)) == tuple_decimal_free(t),
        shown_tuple(quoted(t)) == tuple_text(t),
    decreases t,
{
    lemma_quoted(t);
    let q = quoted(t);
    assert forall|i: int| 0 <= i < t.len() implies element_defined(q[i]) == element_defined(t[i])
        && element_sound(q[i]) == element_sound(t[i]) && element_nil_free(q[i])
        == element_nil_free(t[i]) && element_decimal_free(q[i]) == element_decimal_free(t[i])
        && shown_element(q[i]) == element_text(t[i]) by {
        lemma_quoted_element_keeps(t[i]);
    }
    assert(tuple_defined(q) == tuple_defined(t)) by {
        if tuple_defined(t) {
            assert forall|i: int| 0 <= i < q.len() implies element_defined(#[trigger] q[i]) by {
                assert(element_defined(t[i]));
            }
        }
        if tuple_defined(q) {
            assert forall|i: int| 0 <= i < t.len() implies element_defined(#[trigger] t[i]) by {
                assert(element_defined(q[i]));
            }
        }
    }
    assert(tuple_sound(q) == tuple_sound(t)) by {
        if tuple_sound(t) {
            assert forall|i: int| 0 <= i < q.len() implies element_sound(#[trigger] q[i]) by {
                assert(element_sound(t[i]));
            }
        }
        if tuple_sound(q) {
            assert forall|i: int| 0 <= i < t.len() implies element_sound(#[trigger] t[i]) by {
                assert(element_sound(q[i]));
            }
        }
    }
    assert(tuple_nil_free(q) == tuple_nil_free(t)) by {
        if tuple_nil_free(t) {
            assert forall|i: int| 0 <= i < q.len() implies element_nil_free(#[trigger] q[i]) by {
                assert(element_nil_free(t[i]));
            }
        }
        if tuple_nil_free(q) {
            assert forall|i: int| 0 <= i < t.len() implies element_nil_free(#[trigger] t[i]) by {
                assert(element_nil_free(q[i]));
            }
        }
    }
    assert(tuple_decimal_free(q) == tuple_decimal_free(t)) by {
        if tuple_decimal_free(t) {
            assert forall|i: int| 0 <= i < q.len() implies element_decimal_free(
                #[trigger] q[i],
            ) by {
                assert(element_decimal_free(t[i]));
            }
        }
        if tuple_decimal_free(q) {
            assert forall|i: int| 0 <= i < t.len() implies element_decimal_free(
                #[trigger] t[i],
            ) by {
                assert(element_decimal_free(q[i]));
            }
        }
    }
    lemma_shown_quoted(t);
}

/// What a store prints for the quoted elements is the text of the elements.
proof fn lemma_shown_quoted(t: Seq<ElementValue>)
    ensures
        shown_elements(quoted(t)) == elements_text(t),
        shown_tuple(quoted(t)) == tuple_text(t),
    decreases t, 0int,
{
    lemma_quoted(t);
    let q = quoted(t);
    if t.len() == 0 {
    } else {
        lemma_shown_quoted_element(t[0]);
        if t.len() > 1 {
            lemma_shown_quoted(t.drop_first());
            lemma_quoted(t.drop_first());
            assert(q.drop_first() =~= quoted(t.drop_first()));
        }
    }
}

/// What a store prints for a quoted element is the text of the element.
proof fn lemma_shown_quoted_element(e: ElementValue)
    ensures
        shown_element(quoted_element(e)) == element_text(e),
    decreases e, 1int,
{
    match e {
        ElementValue::Nested(t) => {
            lemma_shown_quoted(t);
        },
        _ => {},
    }
}

impl Element {
    /// The element with each of its strings between double quotes.
    pub fn format(&self) -> (e: Element)
        ensures
            e@ == quoted_element(self@),
        decreases self,
    {
        match self {
            Element::Integer(i) => Element::Integer(*i),
            Element::Decimal(d) => Element::Decimal(d.clone()),
            Element::Text(s) => {
                let mut chars: Vec<char> = Vec::new();
                chars.push('"');
                let inner = chars_of(s.as_str());
                let mut i: usize = 0;
                while i < inner.len()
                    invariant
                        i <= inner.len(),
                        chars@ == seq!['"'] + inner@.take(i as int),
                    decreases inner.len() - i,
                {
                    chars.push(inner[i]);
                    i = i + 1;
                    assert(chars@ =~= seq!['"'] + inner@.take(i as int));
                }
                chars.push('"');
                assert(inner@.take(i as int) =~= inner@);
                assert(chars@ =~= in_quotes(s@));
                Element::Text(string_of(&chars))
            },
            Element::Nested(t) => Element::Nested(t.format()),
            Element::Wildcard => Element::Wildcard,
            Element::Nil => Element::Nil,
        }
    }
}

impl TupleData {
    /// The tuple with each of its strings between double quotes.
    pub fn format(&self) -> (t: TupleData)
        ensures
            t@ == quoted(self@),
        decreases self,
    {
        proof {
            lemma_elements_value(self.elements@);
            lemma_quoted(self@);
        }
        let mut elements: Vec<Element> = Vec::new();
        let mut i: usize = 0;
        while i < self.elements.len()
            invariant
                i <= self.elements.len(),
                elements@.len() == i,
                self@.len() == self.elements.len(),
                forall|j: int|
                    0 <= j < self.elements.len() ==> (#[trigger] self@[j]) == self.elements@[j]@,
                forall|j: int| 0 <= j < i ==> (#[trigger] elements@[j])@ == quoted_element(self@[j]),
            decreases self.elements.len() - i,
        {
            elements.push(self.elements[i].format());
            i = i + 1;
        }
        let t = TupleData { elements };
        proof {
            lemma_elements_value(t.elements@);
            assert(t@ =~= quoted(self@));
        }
        t
    }
}

} // verus!
