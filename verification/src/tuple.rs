//! Tuples and their elements, with the mathematical values that contracts speak of.

use vstd::prelude::*;

verus! {

/// One element of a tuple.
#[derive(Debug, PartialEq, Eq)]
pub enum Element {
    /// A 32-bit integer.
    Integer(i32),
    /// A decimal number, kept as the characters it is written with.
    Decimal(String),
    /// A string, without the quotes of its literal.
    Text(String),
    /// A nested tuple.
    Nested(TupleData),
    /// The wildcard, which stands for any element.
    Wildcard,
    /// The marker for "nothing".
    Nil,
}

/// An ordered sequence of elements.
#[derive(Debug, PartialEq, Eq)]
pub struct TupleData {
    pub elements: Vec<Element>,
}

/// The mathematical value of an element. A tuple's value is the sequence of
/// the values of its elements.
pub enum ElementValue {
    Integer(i32),
    Decimal(Seq<char>),
    Text(Seq<char>),
    Nested(Seq<ElementValue>),
    Wildcard,
    Nil,
}

/// The value of an element.
pub open spec fn element_value(e: Element) -> ElementValue
    decreases e,
{
    match e {
        Element::Integer(i) => ElementValue::Integer(i),
        Element::Decimal(d) => ElementValue::Decimal(d@),
        Element::Text(s) => ElementValue::Text(s@),
        Element::Nested(t) => ElementValue::Nested(elements_value(t.elements@)),
        Element::Wildcard => ElementValue::Wildcard,
        Element::Nil => ElementValue::Nil,
    }
}

/// The values of a sequence of elements, in order.
pub open spec fn elements_value(s: Seq<Element>) -> Seq<ElementValue>
    decreases s,
{
    if s.len() == 0 {
        Seq::empty()
    } else {
        elements_value(s.drop_last()).push(element_value(s.last()))
    }
}

impl View for Element {
    type V = ElementValue;

    open spec fn view(&self) -> ElementValue {
        element_value(*self)
    }
}

impl View for TupleData {
    type V = Seq<ElementValue>;

    open spec fn view(&self) -> Seq<ElementValue> {
        elements_value(self.elements@)
    }
}

/// The value of a sequence of elements has the value of each element at its
/// place.
pub proof fn lemma_elements_value(s: Seq<Element>)
    ensures
        elements_value(s).len() == s.len(),
        forall|i: int| 0 <= i < s.len() ==> (#[trigger] elements_value(s)[i]) == s[i]@,
    decreases s.len(),
{
    if s.len() > 0 {
        lemma_elements_value(s.drop_last());
    }
}

/// The same, for the verifier to use by itself.
pub broadcast proof fn lemma_elements_value_known(s: Seq<Element>)
    ensures
        #![trigger elements_value(s)]
        elements_value(s).len() == s.len(),
        forall|i: int| 0 <= i < s.len() ==> (#[trigger] elements_value(s)[i]) == s[i]@,
{
    lemma_elements_value(s);
}

/// Whether an element holds no wildcard and no "nothing" marker, at any depth.
pub open spec fn element_defined(e: ElementValue) -> bool
    decreases e,
{
    match e {
        ElementValue::Integer(_) => true,
        ElementValue::Decimal(_) => true,
        ElementValue::Text(_) => true,
        ElementValue::Nested(t) => tuple_defined(t),
        ElementValue::Wildcard => false,
        ElementValue::Nil => false,
    }
}

/// Whether a tuple holds no wildcard and no "nothing" marker, at any depth.
/// The empty tuple is defined.
pub open spec fn tuple_defined(t: Seq<ElementValue>) -> bool
    decreases t,
{
    forall|i: int| 0 <= i < t.len() ==> element_defined(#[trigger] t[i])
}

impl Clone for Element {
    fn clone(&self) -> (e: Element)
        ensures
            e@ == self@,
    {
        self.duplicate()
    }
}

impl Clone for TupleData {
    fn clone(&self) -> (t: TupleData)
        ensures
            t@ == self@,
    {
        self.duplicate()
    }
}

impl Element {
    /// Whether the element holds no wildcard and no "nothing" marker.
    pub fn is_defined(&self) -> (b: bool)
        ensures
            b == element_defined(self@),
        decreases self,
    {
        broadcast use lemma_elements_value_known;

        match self {
            Element::Integer(_) => true,
            Element::Decimal(_) => true,
            Element::Text(_) => true,
            Element::Nested(t) => {
                t.is_defined()
            },
            Element::Wildcard => false,
            Element::Nil => false,
        }
    }

    /// A copy of the element.
    pub fn duplicate(&self) -> (e: Element)
        ensures
            e@ == self@,
        decreases self,
    {
        broadcast use lemma_elements_value_known;

        match self {
            Element::Integer(i) => Element::Integer(*i),
            Element::Decimal(d) => Element::Decimal(d.clone()),
            Element::Text(s) => Element::Text(s.clone()),
            Element::Nested(t) => {
                let copy = t.duplicate();
                Element::Nested(copy)
            },
            Element::Wildcard => Element::Wildcard,
            Element::Nil => Element::Nil,
        }
    }
}

impl TupleData {
    /// The tuple of the given elements.
    pub fn new(elements: Vec<Element>) -> (t: TupleData)
        ensures
            t.elements == elements,
    {
        TupleData { elements }
    }

    /// The tuple without elements.
    pub fn empty() -> (t: TupleData)
        ensures
            t@ == Seq::<ElementValue>::empty(),
    {
        broadcast use lemma_elements_value_known;

        TupleData { elements: Vec::new() }
    }

    /// The number of elements.
    pub fn len(&self) -> (n: usize)
        ensures
            n == self@.len(),
    {
        broadcast use lemma_elements_value_known;

        self.elements.len()
    }

    /// Whether the tuple has no element.
    pub fn is_empty(&self) -> (b: bool)
        ensures
            b == (self@.len() == 0),
    {
        broadcast use lemma_elements_value_known;

        self.elements.len() == 0
    }

    /// Whether the tuple holds no wildcard and no "nothing" marker, at any depth.
    pub fn is_defined(&self) -> (b: bool)
        ensures
            b == tuple_defined(self@),
        decreases self,
    {
        broadcast use lemma_elements_value_known;

        let mut i: usize = 0;
        while i < self.elements.len()
            invariant
                i <= self.elements.len(),
                self@.len() == self.elements.len(),
                forall|j: int|
                    0 <= j < self.elements.len() ==> (#[trigger] self@[j]) == self.elements@[j]@,
                forall|j: int| 0 <= j < i ==> element_defined(#[trigger] self@[j]),
            decreases self.elements.len() - i,
        {
            if !self.elements[i].is_defined() {
                assert(!element_defined(self@[i as int]));
                return false;
            }
            i = i + 1;
        }
        true
    }

    /// A copy of the tuple.
    pub fn duplicate(&self) -> (t: TupleData)
        ensures
            t@ == self@,
        decreases self,
    {
        broadcast use lemma_elements_value_known;

        let mut elements: Vec<Element> = Vec::new();
        let mut i: usize = 0;
        while i < self.elements.len()
            invariant
                i <= self.elements.len(),
                elements@.len() == i,
                forall|j: int| 0 <= j < i ==> (#[trigger] elements@[j])@ == self.elements@[j]@,
            decreases self.elements.len() - i,
        {
            elements.push(self.elements[i].duplicate());
            i = i + 1;
        }
        let t = TupleData { elements };
        assert(t@ =~= self@);
        t
    }
}

} // verus!
