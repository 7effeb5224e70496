//! Reading tuple literals.
//!
//! A text holds any number of tuple literals, separated by white space or
//! commas. Inside a literal, white space may stand around the elements. A
//! fragment that is no tuple literal reads as the empty tuple; it ends at the
//! next white space.

use vstd::prelude::*;
use crate::literal::{
    all_digits, digits_value, is_decimal_text, number_element, first_point, unsigned_part,
};
use crate::text::{
    blank, chars_of, digit, is_blank, is_digit, lemma_word_end, skip_blanks, skip_blanks_at,
    text_between, word_end, word_end_at,
};
use crate::tuple::{Element, ElementValue, TupleData, elements_value, lemma_elements_value_known};

verus! {

/// The first position from `from` on that holds a double quote, or the length
/// of `s` where there is none.
pub open spec fn quote_end(s: Seq<char>, from: int) -> int
    decreases s.len() - from,
{
    if 0 <= from < s.len() && s[from] != '"' {
        quote_end(s, from + 1)
    } else {
        from
    }
}

/// Whether `c` can stand in a number after its first character.
pub open spec fn is_number_char(c: char) -> bool {
    is_digit(c) || c == '.'
}

/// The first position from `from` on that holds neither a digit nor a decimal
/// point, or the length of `s` where there is none.
pub open spec fn number_end(s: Seq<char>, from: int) -> int
    decreases s.len() - from,
{
    if 0 <= from < s.len() && is_number_char(s[from]) {
        number_end(s, from + 1)
    } else {
        from
    }
}

/// Whether `c` separates two tuple literals.
pub open spec fn is_separator(c: char) -> bool {
    is_blank(c) || c == ','
}

/// The first position from `from` on that holds no separator, or the length of
/// `s` where only separators are left.
pub open spec fn skip_separators(s: Seq<char>, from: int) -> int
    decreases s.len() - from,
{
    if 0 <= from < s.len() && is_separator(s[from]) {
        skip_separators(s, from + 1)
    } else {
        from
    }
}

/// The element that starts at `pos`, with the position after it; nothing where
/// no element starts there.
pub open spec fn parse_element(s: Seq<char>, pos: int) -> Option<(ElementValue, int)>
    decreases s.len() - pos, 1int,
{
    if pos < 0 || pos >= s.len() {
        None
    } else if s[pos] == '"' {
        let end = quote_end(s, pos + 1);
        if end < s.len() {
            Some((ElementValue::Text(s.subrange(pos + 1, end)), end + 1))
        } else {
            None
        }
    } else if s[pos] == '_' {
        Some((ElementValue::Wildcard, pos + 1))
    } else if s[pos] == '(' {
        match parse_group(s, pos) {
            Some((t, next)) => Some((ElementValue::Nested(t), next)),
            None => None,
        }
    } else if s[pos] == '-' || is_digit(s[pos]) {
        let end = number_end(s, pos + 1);
        match number_element(s.subrange(pos, end)) {
            Some(e) => Some((e, end)),
            None => None,
        }
    } else {
        None
    }
}

/// The tuple whose literal starts at `pos`, with the position after its
/// closing parenthesis; nothing where no literal starts there.
pub open spec fn parse_group(s: Seq<char>, pos: int) -> Option<(Seq<ElementValue>, int)>
    decreases s.len() - pos, 0int,
{
    if pos < 0 || pos >= s.len() || s[pos] != '(' {
        None
    } else {
        let first = skip_blanks(s, pos + 1);
        if first <= pos || first > s.len() {
            None
        } else if first < s.len() && s[first] == ')' {
            Some((Seq::empty(), first + 1))
        } else {
            parse_items(s, first)
        }
    }
}

/// The elements from `pos` up to the closing parenthesis, with the position
/// after it; nothing where they are not elements separated by commas.
pub open spec fn parse_items(s: Seq<char>, pos: int) -> Option<(Seq<ElementValue>, int)>
    decreases s.len() - pos, 2int,
{
    match parse_element(s, pos) {
        None => None,
        Some((e, after)) => {
            let mark = skip_blanks(s, after);
            if after <= pos || mark < after || mark >= s.len() {
                None
            } else if s[mark] == ')' {
                Some((seq![e], mark + 1))
            } else if s[mark] == ',' {
                let following = skip_blanks(s, mark + 1);
                if following <= mark || following > s.len() {
                    None
                } else {
                    match parse_items(s, following) {
                        Some((rest, next)) => Some((seq![e] + rest, next)),
                        None => None,
                    }
                }
            } else {
                None
            }
        },
    }
}

/// The tuples that the text holds from `pos` on, in order. A fragment that is
/// no tuple literal gives the empty tuple.
pub open spec fn parse_tuples(s: Seq<char>, pos: int) -> Seq<Seq<ElementValue>>
    decreases s.len() - pos,
{
    let start = skip_separators(s, pos);
    if pos < 0 || start < pos || start >= s.len() {
        Seq::empty()
    } else {
        match parse_group(s, start) {
            Some((t, next)) => if start < next <= s.len() {
                seq![t] + parse_tuples(s, next)
            } else {
                Seq::empty()
            },
            None => {
                let next = word_end(s, start);
                if start < next <= s.len() {
                    seq![Seq::<ElementValue>::empty()] + parse_tuples(s, next)
                } else {
                    Seq::empty()
                }
            },
        }
    }
}

/// The tuples that a text holds.
pub open spec fn tuples_of(s: Seq<char>) -> Seq<Seq<ElementValue>> {
    parse_tuples(s, 0)
}

/// Skipping separators ends inside the text, on a character that is no
/// separator where one is left.
pub proof fn lemma_skip_separators(s: Seq<char>, pos: int)
    requires
        0 <= pos <= s.len(),
    ensures
        pos <= skip_separators(s, pos) <= s.len(),
        skip_separators(s, pos) < s.len() ==> !is_separator(s[skip_separators(s, pos)]),
    decreases s.len() - pos,
{
    if pos < s.len() && is_separator(s[pos]) {
        lemma_skip_separators(s, pos + 1);
    }
}

/// The number that a longer run of digits stands for is no smaller.
proof fn lemma_digits_value_grows(s: Seq<char>, k: int)
    requires
        0 <= k <= s.len(),
        all_digits(s),
    ensures
        digits_value(s.take(k)) <= digits_value(s),
    decreases s.len() - k,
{
    if k < s.len() {
        lemma_digits_value_grows(s, k + 1);
        let longer = s.take(k + 1);
        assert(longer.drop_last() =~= s.take(k));
        assert(is_digit(s[k]));
        assert(longer.last() == s[k]);
    } else {
        assert(s.take(k) =~= s);
    }
}

/// The first decimal point from `from` on, found by looking at each character.
fn first_point_at(chars: &Vec<char>, from: usize, to: usize) -> (at: usize)
    requires
        from <= to <= chars.len(),
    ensures
        from <= at <= to,
        at - from == first_point(chars@.subrange(from as int, to as int), 0),
        at < to ==> chars@[at as int] == '.',
{
    let ghost body = chars@.subrange(from as int, to as int);
    let mut i: usize = from;
    while i < to && chars[i] != '.'
        invariant
            from <= i <= to <= chars.len(),
            body == chars@.subrange(from as int, to as int),
            first_point(body, 0) == first_point(body, i - from),
        decreases to - i,
    {
        assert(body[i - from] == chars@[i as int]);
        i = i + 1;
    }
    proof {
        if i < to {
            assert(body[i - from] == chars@[i as int]);
        }
    }
    i
}

/// Whether the characters from `from` up to `to` are digits, but for the one
/// at `except`.
fn digits_but(chars: &Vec<char>, from: usize, to: usize, except: usize) -> (b: bool)
    requires
        from <= to <= chars.len(),
    ensures
        b == (forall|i: int|
            from <= i < to && i != except ==> is_digit(#[trigger] chars@[i])),
{
    let mut i: usize = from;
    while i < to
        invariant
            from <= i <= to <= chars.len(),
            forall|j: int| from <= j < i && j != except ==> is_digit(#[trigger] chars@[j]),
        decreases to - i,
    {
        if i != except && !digit(chars[i]) {
            return false;
        }
        i = i + 1;
    }
    true
}

/// The number that the digits from `from` up to `to` stand for, where it is
/// at most 2^31.
fn digits_at(chars: &Vec<char>, from: usize, to: usize) -> (value: Option<u64>)
    requires
        from <= to <= chars.len(),
        all_digits(chars@.subrange(from as int, to as int)),
    ensures
        match value {
            Some(v) => v == digits_value(chars@.subrange(from as int, to as int)) && v
                <= 0x8000_0000,
            None => digits_value(chars@.subrange(from as int, to as int)) > 0x8000_0000,
        },
{
    let ghost body = chars@.subrange(from as int, to as int);
    let mut acc: u64 = 0;
    let mut i: usize = from;
    assert(body.take(0) =~= Seq::<char>::empty());
    while i < to
        invariant
            from <= i <= to <= chars.len(),
            body == chars@.subrange(from as int, to as int),
            all_digits(body),
            acc == digits_value(body.take(i - from)),
            acc <= 0x8000_0000,
        decreases to - i,
    {
        let c = chars[i];
        proof {
            assert(body[i - from] == c);
            assert(is_digit(body[i - from]));
            let longer = body.take(i - from + 1);
            assert(longer.drop_last() =~= body.take(i - from));
            assert(longer.last() == c);
        }
        let d: u64 = (c as u32 - 48) as u64;
        acc = acc * 10 + d;
        i = i + 1;
        if acc > 0x8000_0000 {
            proof {
                lemma_digits_value_grows(body, i - from);
            }
            return None;
        }
    }
    proof {
        assert(body.take(i - from) =~= body);
    }
    Some(acc)
}

/// Reads the characters from `from` up to `to` as a number.
fn read_number(chars: &Vec<char>, from: usize, to: usize) -> (e: Option<Element>)
    requires
        from <= to <= chars.len(),
    ensures
        match e {
            Some(e) => number_element(chars@.subrange(from as int, to as int)) == Some(e@),
            None => number_element(chars@.subrange(from as int, to as int)) is None,
        },
{
    let ghost token = chars@.subrange(from as int, to as int);
    let negative = from < to && chars[from] == '-';
    let start: usize = if negative {
        from + 1
    } else {
        from
    };
    let ghost body = unsigned_part(token);
    proof {
        if from < to {
            assert(token[0] == chars@[from as int]);
        }
        assert(body =~= chars@.subrange(start as int, to as int));
        assert forall|i: int| 0 <= i < body.len() implies body[i] == chars@[start + i] by {}
    }
    let point = first_point_at(chars, start, to);
    let others = digits_but(chars, start, to, point);
    proof {
        assert(others == (forall|i: int|
            0 <= i < body.len() && i != point - start ==> is_digit(#[trigger] body[i]))) by {
            if others {
                assert forall|i: int|
                    0 <= i < body.len() && i != point - start implies is_digit(
                    #[trigger] body[i],
                ) by {
                    assert(is_digit(chars@[start + i]));
                }
            } else {
                let j = choose|j: int|
                    start <= j < to && j != point && !is_digit(#[trigger] chars@[j]);
                assert(!is_digit(body[j - start]));
            }
        }
        if point < to {
            assert(body[point - start] == '.');
            assert(!is_digit(body[point - start]));
        }
    }
    if !others {
        proof {
            let j = choose|j: int|
                0 <= j < body.len() && j != point - start && !is_digit(#[trigger] body[j]);
            assert(!all_digits(body));
        }
        return None;
    }
    if point < to {
        if point > start {
            let text = text_between(chars, from, to);
            Some(Element::Decimal(text))
        } else {
            None
        }
    } else {
        if start == to {
            return None;
        }
        assert(all_digits(body));
        match digits_at(chars, start, to) {
            None => None,
            Some(v) => {
                if negative {
                    if v == 0x8000_0000 {
                        Some(Element::Integer(i32::MIN))
                    } else {
                        Some(Element::Integer(-(v as i32)))
                    }
                } else {
                    if v == 0x8000_0000 {
                        None
                    } else {
                        Some(Element::Integer(v as i32))
                    }
                }
            },
        }
    }
}

/// Whether `text` is written as a decimal number: digits with one decimal
/// point among them, which does not come first, after a minus sign or none.
pub fn decimal_text(text: &str) -> (b: bool)
    ensures
        b == is_decimal_text(text@),
{
    let chars = chars_of(text);
    let start: usize = if chars.len() > 0 && chars[0] == '-' {
        1
    } else {
        0
    };
    let ghost body = unsigned_part(chars@);
    proof {
        assert(body =~= chars@.subrange(start as int, chars.len() as int));
        assert forall|i: int| 0 <= i < body.len() implies body[i] == chars@[start + i] by {}
    }
    let point = first_point_at(&chars, start, chars.len());
    if point <= start || point >= chars.len() {
        return false;
    }
    let others = digits_but(&chars, start, chars.len(), point);
    proof {
        if others {
            assert forall|i: int| 0 <= i < body.len() && i != point - start implies is_digit(
                #[trigger] body[i],
            ) by {
                assert(is_digit(chars@[start + i]));
            }
        } else {
            let j = choose|j: int|
                start <= j < chars.len() && j != point && !is_digit(#[trigger] chars@[j]);
            assert(!is_digit(body[j - start]));
        }
    }
    others
}

/// The first double quote from `from` on.
fn quote_end_at(chars: &Vec<char>, from: usize) -> (at: usize)
    requires
        from <= chars.len(),
    ensures
        from <= at <= chars.len(),
        at == quote_end(chars@, from as int),
{
    let mut i: usize = from;
    while i < chars.len() && chars[i] != '"'
        invariant
            from <= i <= chars.len(),
            quote_end(chars@, from as int) == quote_end(chars@, i as int),
        decreases chars.len() - i,
    {
        i = i + 1;
    }
    i
}

/// The end of the number that goes on at `from`.
fn number_end_at(chars: &Vec<char>, from: usize) -> (at: usize)
    requires
        from <= chars.len(),
    ensures
        from <= at <= chars.len(),
        at == number_end(chars@, from as int),
{
    let mut i: usize = from;
    while i < chars.len() && (digit(chars[i]) || chars[i] == '.')
        invariant
            from <= i <= chars.len(),
            number_end(chars@, from as int) == number_end(chars@, i as int),
        decreases chars.len() - i,
    {
        i = i + 1;
    }
    i
}

/// The first position from `from` on that holds no separator.
fn skip_separators_at(chars: &Vec<char>, from: usize) -> (at: usize)
    requires
        from <= chars.len(),
    ensures
        from <= at <= chars.len(),
        at == skip_separators(chars@, from as int),
{
    let mut i: usize = from;
    while i < chars.len() && (blank(chars[i]) || chars[i] == ',')
        invariant
            from <= i <= chars.len(),
            skip_separators(chars@, from as int) == skip_separators(chars@, i as int),
        decreases chars.len() - i,
    {
        i = i + 1;
    }
    i
}

/// Reads the element that starts at `pos`.
fn read_element(chars: &Vec<char>, pos: usize) -> (r: Option<(Element, usize)>)
    requires
        pos <= chars.len(),
    ensures
        match r {
            Some((e, next)) => parse_element(chars@, pos as int) == Some((e@, next as int))
                && pos < next <= chars.len(),
            None => parse_element(chars@, pos as int) is None,
        },
    decreases chars.len() - pos, 1int,
{
    if pos >= chars.len() {
        return None;
    }
    let c = chars[pos];
    if c == '"' {
        let end = quote_end_at(chars, pos + 1);
        if end < chars.len() {
            let text = text_between(chars, pos + 1, end);
            Some((Element::Text(text), end + 1))
        } else {
            None
        }
    } else if c == '_' {
        Some((Element::Wildcard, pos + 1))
    } else if c == '(' {
        match read_group(chars, pos) {
            Some((t, next)) => Some((Element::Nested(t), next)),
            None => None,
        }
    } else if c == '-' || digit(c) {
        let end = number_end_at(chars, pos + 1);
        match read_number(chars, pos, end) {
            Some(e) => Some((e, end)),
            None => None,
        }
    } else {
        None
    }
}

/// The elements `acc`, put before those of a result.
pub open spec fn items_after(
    acc: Seq<ElementValue>,
    r: Option<(Seq<ElementValue>, int)>,
) -> Option<(Seq<ElementValue>, int)> {
    match r {
        Some((rest, next)) => Some((acc + rest, next)),
        None => None,
    }
}

/// Reads the tuple whose literal starts at `pos`.
fn read_group(chars: &Vec<char>, pos: usize) -> (r: Option<(TupleData, usize)>)
    requires
        pos <= chars.len(),
    ensures
        match r {
            Some((t, next)) => parse_group(chars@, pos as int) == Some((t@, next as int)) && pos
                < next <= chars.len(),
            None => parse_group(chars@, pos as int) is None,
        },
    decreases chars.len() - pos, 0int,
{
    broadcast use lemma_elements_value_known;

    if pos >= chars.len() || chars[pos] != '(' {
        return None;
    }
    let first = skip_blanks_at(chars, pos + 1);
    if first < chars.len() && chars[first] == ')' {
        let t = TupleData::empty();
        return Some((t, first + 1));
    }
    let mut elements: Vec<Element> = Vec::new();
    let mut at: usize = first;
    proof {
        let r = parse_items(chars@, first as int);
        if let Some((rest, next)) = r {
            assert(elements_value(elements@) + rest =~= rest);
        }
    }
    loop
        invariant
            pos < at <= chars.len(),
            parse_group(chars@, pos as int) == parse_items(chars@, first as int),
            parse_items(chars@, first as int) == items_after(
                elements_value(elements@),
                parse_items(chars@, at as int),
            ),
        decreases chars.len() - at,
    {
        let ghost acc = elements_value(elements@);
        match read_element(chars, at) {
            None => {
                return None;
            },
            Some((e, after)) => {
                let mark = skip_blanks_at(chars, after);
                if mark >= chars.len() {
                    return None;
                }
                let ghost value = e@;
                let ghost shorter = elements@;
                elements.push(e);
                proof {
                    assert(elements@.drop_last() =~= shorter);
                    assert(elements_value(elements@) == acc.push(value));
                }
                if chars[mark] == ')' {
                    proof {
                        assert(acc + seq![value] =~= acc.push(value));
                    }
                    let t = TupleData::new(elements);
                    return Some((t, mark + 1));
                } else if chars[mark] == ',' {
                    let next_at = skip_blanks_at(chars, mark + 1);
                    proof {
                        let tail = parse_items(chars@, next_at as int);
                        if let Some((rest, next)) = tail {
                            assert(acc + (seq![value] + rest) =~= acc.push(value) + rest);
                        }
                    }
                    at = next_at;
                } else {
                    return None;
                }
            },
        }
    }
}

/// A reader of the tuple literals of one text, one tuple at a time.
pub struct Lexer {
    chars: Vec<char>,
    pos: usize,
}

impl Lexer {
    /// The tuples that are still to be read.
    pub closed spec fn remaining(&self) -> Seq<Seq<ElementValue>> {
        parse_tuples(self.chars@, self.pos as int)
    }

    /// Whether the position lies inside the text.
    pub closed spec fn wf(&self) -> bool {
        self.pos <= self.chars.len()
    }

    /// The number of characters that are still to be read.
    pub closed spec fn unread(&self) -> int {
        self.chars.len() - self.pos
    }

    /// A reader at the start of `buffer`.
    pub fn new(buffer: &str) -> (lexer: Lexer)
        ensures
            lexer.wf(),
            lexer.remaining() == tuples_of(buffer@),
    {
        Lexer { chars: chars_of(buffer), pos: 0 }
    }

    /// Reads the next tuple, if one is left.
    pub fn next(&mut self) -> (t: Option<TupleData>)
        requires
            old(self).wf(),
        ensures
            final(self).wf(),
            match t {
                Some(t) => old(self).remaining() == seq![t@] + final(self).remaining()
                    && final(self).unread() < old(self).unread(),
                None => old(self).remaining().len() == 0 && final(self).remaining().len() == 0,
            },
    {
        let start = skip_separators_at(&self.chars, self.pos);
        if start >= self.chars.len() {
            self.pos = start;
            proof {
                lemma_skip_separators(self.chars@, start as int);
            }
            return None;
        }
        match read_group(&self.chars, start) {
            Some((t, next)) => {
                self.pos = next;
                Some(t)
            },
            None => {
                let next = word_end_at(&self.chars, start);
                proof {
                    lemma_word_end(self.chars@, start as int);
                    lemma_skip_separators(self.chars@, old(self).pos as int);
                }
                self.pos = next;
                Some(TupleData::empty())
            },
        }
    }

    /// Reads all the tuples that are left.
    pub fn collect(&mut self) -> (tuples: Vec<TupleData>)
        requires
            old(self).wf(),
        ensures
            final(self).wf(),
            tuples@.len() == old(self).remaining().len(),
            forall|i: int|
                0 <= i < tuples@.len() ==> (#[trigger] tuples@[i])@ == old(self).remaining()[i],
    {
        let mut tuples: Vec<TupleData> = Vec::new();
        loop
            invariant_except_break
                self.wf(),
                old(self).remaining() =~= Seq::new(tuples@.len(), |i: int| tuples@[i]@)
                    + self.remaining(),
            ensures
                self.wf(),
                tuples@.len() == old(self).remaining().len(),
                forall|i: int|
                    0 <= i < tuples@.len() ==> (#[trigger] tuples@[i])@ == old(
                        self,
                    ).remaining()[i],
            decreases self.unread(),
        {
            let ghost before = Seq::new(tuples@.len(), |i: int| tuples@[i]@);
            let ghost was = self.pos;
            match self.next() {
                None => {
                    break ;
                },
                Some(t) => {
                    let ghost value = t@;
                    tuples.push(t);
                    proof {
                        let after = Seq::new(tuples@.len(), |i: int| tuples@[i]@);
                        assert(after =~= before + seq![value]);
                    }
                },
            }
        }
        tuples
    }
}

/// The tuples that a text holds.
pub fn parse_text(text: &str) -> (tuples: Vec<TupleData>)
    ensures
        tuples@.len() == tuples_of(text@).len(),
        forall|i: int| 0 <= i < tuples@.len() ==> (#[trigger] tuples@[i])@ == tuples_of(text@)[i],
{
    let mut lexer = Lexer::new(text);
    lexer.collect()
}

} // verus!
