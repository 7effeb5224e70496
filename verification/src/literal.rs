//! The text form of tuples: what a literal looks like, and how a tuple is
//! written as one.
//!
//! A tuple is written as `(` element `,` element ... `)`. An element is a
//! string in double quotes, an integer, a decimal number, the wildcard `_` or a
//! nested tuple.

use vstd::prelude::*;
use crate::text::{chars_of, is_digit, string_of};
use crate::tuple::{Element, ElementValue, TupleData, lemma_elements_value_known};

verus! {

/// The character of the digit `d`.
pub open spec fn digit_char(d: int) -> char {
    ((48 + d) as u8) as char
}

/// The digit that the character `c` stands for.
pub open spec fn digit_value(c: char) -> int {
    (c as u32) - 48
}

/// The decimal digits of a natural number, without leading zeros.
pub open spec fn nat_text(n: nat) -> Seq<char>
    decreases n,
{
    if n < 10 {
        seq![digit_char(n as int)]
    } else {
        nat_text(n / 10).push(digit_char((n % 10) as int))
    }
}

/// The decimal form of an integer: a minus sign where it is negative, then its
/// digits.
pub open spec fn int_text(i: int) -> Seq<char> {
    if i < 0 {
        seq!['-'] + nat_text((-i) as nat)
    } else {
        nat_text(i as nat)
    }
}

/// Whether all characters of `s` are digits.
pub open spec fn all_digits(s: Seq<char>) -> bool {
    forall|i: int| 0 <= i < s.len() ==> is_digit(#[trigger] s[i])
}

/// The number that a sequence of digits stands for.
pub open spec fn digits_value(s: Seq<char>) -> nat
    decreases s.len(),
{
    if s.len() == 0 {
        0
    } else {
        (digits_value(s.drop_last()) * 10 + digit_value(s.last())) as nat
    }
}

/// The first position from `from` on that holds a decimal point, or the length
/// of `s` where there is none.
pub open spec fn first_point(s: Seq<char>, from: int) -> int
    decreases s.len() - from,
{
    if 0 <= from < s.len() && s[from] != '.' {
        first_point(s, from + 1)
    } else {
        from
    }
}

/// A number without its sign: what follows the minus sign, or all of it.
pub open spec fn unsigned_part(s: Seq<char>) -> Seq<char> {
    if s.len() > 0 && s[0] == '-' {
        s.skip(1)
    } else {
        s
    }
}

/// Whether `s`, which holds no sign, is written as a decimal number: digits
/// with one decimal point among them, which does not come first.
pub open spec fn is_decimal_body(s: Seq<char>) -> bool {
    let point = first_point(s, 0);
    &&& 0 < point < s.len()
    &&& forall|i: int| 0 <= i < s.len() && i != point ==> is_digit(#[trigger] s[i])
}

/// Whether `s` is written as a decimal number, with or without a minus sign.
pub open spec fn is_decimal_text(s: Seq<char>) -> bool {
    is_decimal_body(unsigned_part(s))
}

/// Whether `s` is written as an integer, with or without a minus sign.
pub open spec fn is_integer_text(s: Seq<char>) -> bool {
    unsigned_part(s).len() > 0 && all_digits(unsigned_part(s))
}

/// The integer that `s` is written as.
pub open spec fn integer_value(s: Seq<char>) -> int {
    if s.len() > 0 && s[0] == '-' {
        -(digits_value(unsigned_part(s)) as int)
    } else {
        digits_value(unsigned_part(s)) as int
    }
}

/// The element that a number is read as: an integer where it is written as one
/// that fits in 32 bits, a decimal where it is written as one, nothing
/// otherwise.
pub open spec fn number_element(s: Seq<char>) -> Option<ElementValue> {
    if is_integer_text(s) {
        if i32::MIN <= integer_value(s) <= i32::MAX {
            Some(ElementValue::Integer(integer_value(s) as i32))
        } else {
            None
        }
    } else if is_decimal_text(s) {
        Some(ElementValue::Decimal(s))
    } else {
        None
    }
}

/// The text of an element.
pub open spec fn element_text(e: ElementValue) -> Seq<char>
    decreases e,
{
    match e {
        ElementValue::Integer(i) => int_text(i as int),
        ElementValue::Decimal(d) => d,
        ElementValue::Text(s) => seq!['"'] + s + seq!['"'],
        ElementValue::Nested(t) => tuple_text(t),
        ElementValue::Wildcard => seq!['_'],
        ElementValue::Nil => seq!['n', 'i', 'l'],
    }
}

/// The text of a tuple: its elements between parentheses.
pub open spec fn tuple_text(t: Seq<ElementValue>) -> Seq<char>
    decreases t, 1int,
{
    seq!['('] + elements_text(t) + seq![')']
}

/// The texts of the elements, with a comma between each two.
pub open spec fn elements_text(t: Seq<ElementValue>) -> Seq<char>
    decreases t, 0int,
{
    if t.len() == 0 {
        Seq::empty()
    } else if t.len() == 1 {
        element_text(t[0])
    } else {
        element_text(t[0]) + seq![','] + elements_text(t.drop_first())
    }
}

/// Whether an element can be read back from its text: its strings hold no
/// double quote, its decimals are written as decimal numbers, and it holds no
/// "nothing" marker, at any depth.
pub open spec fn element_writable(e: ElementValue) -> bool
    decreases e,
{
    match e {
        ElementValue::Integer(_) => true,
        ElementValue::Decimal(d) => is_decimal_text(d),
        ElementValue::Text(s) => !s.contains('"'),
        ElementValue::Nested(t) => tuple_writable(t),
        ElementValue::Wildcard => true,
        ElementValue::Nil => false,
    }
}

/// Whether every element of a tuple can be read back from its text.
pub open spec fn tuple_writable(t: Seq<ElementValue>) -> bool
    decreases t,
{
    forall|i: int| 0 <= i < t.len() ==> element_writable(#[trigger] t[i])
}

/// The texts of several tuples, one after the other.
pub open spec fn tuples_text(ts: Seq<Seq<ElementValue>>) -> Seq<char>
    decreases ts.len(),
{
    if ts.len() == 0 {
        Seq::empty()
    } else {
        tuples_text(ts.drop_last()) + tuple_text(ts.last())
    }
}

/// The digits of a natural number are digits, at least one, and stand for it.
pub proof fn lemma_nat_text(n: nat)
    ensures
        nat_text(n).len() >= 1,
        all_digits(nat_text(n)),
        digits_value(nat_text(n)) == n,
    decreases n,
{
    if n < 10 {
        let s = nat_text(n);
        assert(s.drop_last() =~= Seq::<char>::empty());
        assert(digits_value(s.drop_last()) == 0);
    } else {
        lemma_nat_text(n / 10);
        let s = nat_text(n);
        assert(s.drop_last() =~= nat_text(n / 10));
    }
}

/// Appends the digits of `n`.
fn write_nat(n: u32, out: &mut Vec<char>)
    ensures
        final(out)@ == old(out)@ + nat_text(n as nat),
    decreases n,
{
    if n >= 10 {
        write_nat(n / 10, out);
    }
    let d: u8 = (n % 10) as u8;
    out.push((48 + d) as char);
    assert(final(out)@ =~= old(out)@ + nat_text(n as nat));
}

/// Appends the decimal form of `i`.
fn write_int(i: i32, out: &mut Vec<char>)
    ensures
        final(out)@ == old(out)@ + int_text(i as int),
{
    if i < 0 {
        out.push('-');
        let magnitude: u32 = if i == i32::MIN {
            2147483648u32
        } else {
            (-i) as u32
        };
        write_nat(magnitude, out);
        assert(final(out)@ =~= old(out)@ + int_text(i as int));
    } else {
        write_nat(i as u32, out);
    }
}

/// Appends the characters of `s`.
fn write_str(s: &str, out: &mut Vec<char>)
    ensures
        final(out)@ == old(out)@ + s@,
{
    let chars = chars_of(s);
    let mut i: usize = 0;
    while i < chars.len()
        invariant
            i <= chars.len(),
            out@ == old(out)@ + chars@.take(i as int),
        decreases chars.len() - i,
    {
        out.push(chars[i]);
        i = i + 1;
        assert(out@ =~= old(out)@ + chars@.take(i as int));
    }
    assert(chars@.take(i as int) =~= chars@);
}

impl Element {
    /// Appends the text of the element.
    pub fn write(&self, out: &mut Vec<char>)
        ensures
            final(out)@ == old(out)@ + element_text(self@),
        decreases self,
    {
        match self {
            Element::Integer(i) => write_int(*i, out),
            Element::Decimal(d) => write_str(d.as_str(), out),
            Element::Text(s) => {
                out.push('"');
                write_str(s.as_str(), out);
                out.push('"');
                assert(final(out)@ =~= old(out)@ + element_text(self@));
            },
            Element::Nested(t) => t.write(out),
            Element::Wildcard => {
                out.push('_');
                assert(final(out)@ =~= old(out)@ + element_text(self@));
            },
            Element::Nil => {
                out.push('n');
                out.push('i');
                out.push('l');
                assert(final(out)@ =~= old(out)@ + element_text(self@));
            },
        }
    }
}

/// The text of the elements from `i` on follows that of the element at `i`.
proof fn lemma_elements_text_step(t: Seq<ElementValue>, i: int)
    requires
        0 <= i < t.len(),
    ensures
        elements_text(t.skip(i)) == if i + 1 == t.len() {
            element_text(t[i])
        } else {
            element_text(t[i]) + seq![','] + elements_text(t.skip(i + 1))
        },
{
    let rest = t.skip(i);
    assert(rest[0] == t[i]);
    assert(rest.drop_first() =~= t.skip(i + 1));
}

impl TupleData {
    /// Appends the text of the tuple.
    pub fn write(&self, out: &mut Vec<char>)
        ensures
            final(out)@ == old(out)@ + tuple_text(self@),
        decreases self,
    {
        broadcast use lemma_elements_value_known;

        out.push('(');
        let mut i: usize = 0;
        assert(self@.skip(0) =~= self@);
        while i < self.elements.len()
            invariant
                i <= self.elements.len(),
                self@.len() == self.elements.len(),
                forall|j: int|
                    0 <= j < self.elements.len() ==> (#[trigger] self@[j]) == self.elements@[j]@,
                out@ + elements_text(self@.skip(i as int)) == old(out)@ + seq!['(']
                    + elements_text(self@),
            decreases self.elements.len() - i,
        {
            let ghost before = out@;
            proof {
                lemma_elements_text_step(self@, i as int);
            }
            self.elements[i].write(out);
            if i + 1 < self.elements.len() {
                out.push(',');
            }
            proof {
                assert(out@ + elements_text(self@.skip(i + 1)) =~= before + elements_text(
                    self@.skip(i as int),
                ));
            }
            i = i + 1;
        }
        out.push(')');
        proof {
            assert(self@.skip(i as int) =~= Seq::<ElementValue>::empty());
            assert(final(out)@ =~= old(out)@ + tuple_text(self@));
        }
    }

    /// The text of the tuple.
    pub fn to_text(&self) -> (s: String)
        ensures
            s@ == tuple_text(self@),
    {
        let mut out: Vec<char> = Vec::new();
        self.write(&mut out);
        assert(out@ =~= tuple_text(self@));
        string_of(&out)
    }
}

} // verus!
