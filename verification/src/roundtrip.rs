//! Writing a tuple and reading the text again gives the tuple back.

use vstd::prelude::*;
use crate::lexing::{
    is_number_char, number_end, parse_element, parse_group, parse_items, parse_tuples, quote_end,
    skip_separators, tuples_of,
};
use crate::literal::{
    all_digits, element_text, element_writable, elements_text, first_point, int_text,
    integer_value, is_decimal_text, lemma_nat_text, nat_text, number_element, tuple_text,
    tuple_writable, tuples_text, unsigned_part,
};
use crate::text::{is_blank, is_digit};
use crate::tuple::ElementValue;

verus! {

/// Where a text holds `x` and then `y` from `pos` on, it holds each of them at
/// its place.
proof fn lemma_parts(s: Seq<char>, pos: int, x: Seq<char>, y: Seq<char>)
    requires
        0 <= pos,
        pos + x.len() + y.len() <= s.len(),
        s.subrange(pos, pos + x.len() + y.len()) == x + y,
    ensures
        s.subrange(pos, pos + x.len()) == x,
        s.subrange(pos + x.len(), pos + x.len() + y.len()) == y,
{
    let whole = s.subrange(pos, pos + x.len() + y.len());
    assert forall|i: int| 0 <= i < x.len() implies s[pos + i] == x[i] by {
        assert(whole[i] == s[pos + i]);
        assert((x + y)[i] == x[i]);
    }
    assert forall|i: int| 0 <= i < y.len() implies s[pos + x.len() + i] == y[i] by {
        assert(whole[x.len() + i] == s[pos + x.len() + i]);
        assert((x + y)[x.len() + i] == y[i]);
    }
    assert(s.subrange(pos, pos + x.len()) =~= x);
    assert(s.subrange(pos + x.len(), pos + x.len() + y.len()) =~= y);
}

/// The search for a double quote ends at the first one.
proof fn lemma_quote_end(s: Seq<char>, from: int, at: int)
    requires
        0 <= from <= at < s.len(),
        forall|i: int| from <= i < at ==> s[i] != '"',
        s[at] == '"',
    ensures
        quote_end(s, from) == at,
    decreases at - from,
{
    if from < at {
        lemma_quote_end(s, from + 1, at);
    }
}

/// A number ends where the digits and decimal points end.
proof fn lemma_number_end(s: Seq<char>, from: int, at: int)
    requires
        0 <= from <= at <= s.len(),
        forall|i: int| from <= i < at ==> is_number_char(#[trigger] s[i]),
        at == s.len() || !is_number_char(s[at]),
    ensures
        number_end(s, from) == at,
    decreases at - from,
{
    if from < at {
        assert(is_number_char(s[from]));
        lemma_number_end(s, from + 1, at);
    }
}

/// Where the search for a decimal point ends inside the text, a point is there.
proof fn lemma_first_point(s: Seq<char>, from: int)
    requires
        0 <= from <= s.len(),
    ensures
        from <= first_point(s, from) <= s.len(),
        first_point(s, from) < s.len() ==> s[first_point(s, from)] == '.',
    decreases s.len() - from,
{
    if from < s.len() && s[from] != '.' {
        lemma_first_point(s, from + 1);
    }
}

/// The text of an integer reads as that integer.
proof fn lemma_int_text(i: i32)
    ensures
        int_text(i as int).len() >= 1,
        int_text(i as int)[0] == '-' || is_digit(int_text(i as int)[0]),
        forall|k: int| 1 <= k < int_text(i as int).len() ==> is_digit(#[trigger] int_text(i as int)[k]),
        number_element(int_text(i as int)) == Some(ElementValue::Integer(i)),
{
    let s = int_text(i as int);
    if i < 0 {
        let digits = nat_text((-i) as nat);
        lemma_nat_text((-i) as nat);
        assert(s[0] == '-');
        assert(unsigned_part(s) =~= digits);
        assert forall|k: int| 1 <= k < s.len() implies is_digit(#[trigger] s[k]) by {
            assert(s[k] == digits[k - 1]);
        }
        assert(integer_value(s) == i);
    } else {
        lemma_nat_text(i as nat);
        assert(is_digit(s[0]));
        assert(s[0] != '-');
        assert(unsigned_part(s) == s);
        assert(integer_value(s) == i);
    }
}

/// A decimal reads as itself.
proof fn lemma_decimal_text(d: Seq<char>)
    requires
        is_decimal_text(d),
    ensures
        d.len() >= 1,
        d[0] == '-' || is_digit(d[0]),
        forall|k: int| 1 <= k < d.len() ==> is_number_char(#[trigger] d[k]),
        number_element(d) == Some(ElementValue::Decimal(d)),
{
    let body = unsigned_part(d);
    let point = first_point(body, 0);
    lemma_first_point(body, 0);
    assert(body[point] == '.');
    assert(is_digit(body[0]));
    assert(!all_digits(body)) by {
        assert(!is_digit(body[point]));
    }
    assert forall|k: int| 0 <= k < body.len() implies is_number_char(#[trigger] body[k]) by {
        if k != point {
            assert(is_digit(body[k]));
        }
    }
    if d[0] == '-' {
        assert forall|k: int| 1 <= k < d.len() implies is_number_char(#[trigger] d[k]) by {
            assert(d[k] == body[k - 1]);
            assert(is_number_char(body[k - 1]));
        }
    } else {
        assert(body == d);
    }
}

/// The text of an element that can be read back starts with a character that
/// is no white space.
proof fn lemma_element_start(e: ElementValue)
    requires
        element_writable(e),
    ensures
        element_text(e).len() >= 1,
        !is_blank(element_text(e)[0]),
{
    match e {
        ElementValue::Integer(i) => {
            lemma_int_text(i);
        },
        ElementValue::Decimal(d) => {
            lemma_decimal_text(d);
        },
        ElementValue::Text(s) => {},
        ElementValue::Nested(t) => {},
        ElementValue::Wildcard => {},
        ElementValue::Nil => {},
    }
}

/// An element is read from its text.
proof fn lemma_read_element(s: Seq<char>, pos: int, e: ElementValue)
    requires
        element_writable(e),
        0 <= pos,
        pos + element_text(e).len() <= s.len(),
        s.subrange(pos, pos + element_text(e).len()) == element_text(e),
        pos + element_text(e).len() == s.len() || !is_number_char(
            s[pos + element_text(e).len()],
        ),
    ensures
        parse_element(s, pos) == Some((e, pos + element_text(e).len())),
    decreases e, 0int,
{
    let text = element_text(e);
    let n = text.len() as int;
    assert forall|i: int| 0 <= i < n implies s[pos + i] == text[i] by {
        assert(s.subrange(pos, pos + n)[i] == s[pos + i]);
    }
    match e {
        ElementValue::Integer(i) => {
            lemma_int_text(i);
            assert(s[pos] == text[0]);
            assert forall|k: int| pos + 1 <= k < pos + n implies is_number_char(#[trigger] s[k]) by {
                assert(s[k] == text[k - pos]);
                assert(is_digit(text[k - pos]));
            }
            lemma_number_end(s, pos + 1, pos + n);
        },
        ElementValue::Decimal(d) => {
            lemma_decimal_text(d);
            assert(s[pos] == text[0]);
            assert forall|k: int| pos + 1 <= k < pos + n implies is_number_char(#[trigger] s[k]) by {
                assert(s[k] == text[k - pos]);
            }
            lemma_number_end(s, pos + 1, pos + n);
        },
        ElementValue::Text(c) => {
            let m = c.len() as int;
            assert(s[pos] == text[0]);
            assert forall|k: int| pos + 1 <= k < pos + 1 + m implies s[k] != '"' by {
                assert(s[k] == text[k - pos]);
                assert(text[k - pos] == c[k - pos - 1]);
                assert(c.contains(c[k - pos - 1]));
            }
            assert(s[pos + 1 + m] == text[1 + m]);
            lemma_quote_end(s, pos + 1, pos + 1 + m);
            assert(s.subrange(pos + 1, pos + 1 + m) =~= c) by {
                assert forall|k: int| 0 <= k < m implies s[pos + 1 + k] == c[k] by {
                    assert(s[pos + 1 + k] == text[1 + k]);
                }
            }
        },
        ElementValue::Nested(t) => {
            assert(s[pos] == text[0]);
            lemma_read_group(s, pos, t);
        },
        ElementValue::Wildcard => {
            assert(s[pos] == text[0]);
        },
        ElementValue::Nil => {},
    }
}

/// The elements of a tuple are read from their text, up to the closing
/// parenthesis.
proof fn lemma_read_items(s: Seq<char>, pos: int, t: Seq<ElementValue>)
    requires
        tuple_writable(t),
        t.len() >= 1,
        0 <= pos,
        pos + elements_text(t).len() < s.len(),
        s.subrange(pos, pos + elements_text(t).len()) == elements_text(t),
        s[pos + elements_text(t).len()] == ')',
    ensures
        parse_items(s, pos) == Some((t, pos + elements_text(t).len() + 1)),
    decreases t, 0int,
{
    let head = element_text(t[0]);
    let a = head.len() as int;
    assert(element_writable(t[0]));
    lemma_element_start(t[0]);
    if t.len() == 1 {
        lemma_read_element(s, pos, t[0]);
        assert(seq![t[0]] =~= t);
    } else {
        let rest = t.drop_first();
        let tail = seq![','] + elements_text(rest);
        assert(elements_text(t) =~= head + tail);
        lemma_parts(s, pos, head, tail);
        lemma_parts(s, pos + a, seq![','], elements_text(rest));
        assert(s[pos + a] == ',') by {
            assert(s.subrange(pos + a, pos + a + 1)[0] == s[pos + a]);
        }
        lemma_read_element(s, pos, t[0]);
        assert(tuple_writable(rest)) by {
            assert forall|i: int| 0 <= i < rest.len() implies element_writable(
                #[trigger] rest[i],
            ) by {
                assert(rest[i] == t[i + 1]);
            }
        }
        assert(element_writable(rest[0]));
        lemma_element_start(rest[0]);
        let next_text = elements_text(rest);
        assert(next_text.len() >= 1 && next_text[0] == element_text(rest[0])[0]);
        assert(s[pos + a + 1] == next_text[0]) by {
            assert(s.subrange(pos + a + 1, pos + a + 1 + next_text.len())[0] == s[pos + a + 1]);
        }
        lemma_read_items(s, pos + a + 1, rest);
        assert(seq![t[0]] + rest =~= t);
    }
}

/// A tuple is read from its text.
proof fn lemma_read_group(s: Seq<char>, pos: int, t: Seq<ElementValue>)
    requires
        tuple_writable(t),
        0 <= pos,
        pos + tuple_text(t).len() <= s.len(),
        s.subrange(pos, pos + tuple_text(t).len()) == tuple_text(t),
    ensures
        parse_group(s, pos) == Some((t, pos + tuple_text(t).len())),
    decreases t, 1int,
{
    let inner = elements_text(t);
    assert(tuple_text(t) =~= seq!['('] + (inner + seq![')']));
    lemma_parts(s, pos, seq!['('], inner + seq![')']);
    lemma_parts(s, pos + 1, inner, seq![')']);
    assert(s[pos] == '(') by {
        assert(s.subrange(pos, pos + 1)[0] == s[pos]);
    }
    assert(s[pos + 1 + inner.len()] == ')') by {
        assert(s.subrange(pos + 1 + inner.len(), pos + 1 + inner.len() + 1)[0] == s[pos + 1
            + inner.len()]);
    }
    if t.len() == 0 {
        assert(t =~= Seq::<ElementValue>::empty());
    } else {
        assert(element_writable(t[0]));
        lemma_element_start(t[0]);
        assert(inner.len() >= 1 && inner[0] == element_text(t[0])[0]);
        assert(s[pos + 1] == inner[0]) by {
            assert(s.subrange(pos + 1, pos + 1 + inner.len())[0] == s[pos + 1]);
        }
        assert(inner[0] != ')') by {
            lemma_first_char(t[0]);
        }
        lemma_read_items(s, pos + 1, t);
    }
}

/// The text of an element that can be read back starts with a double quote,
/// an underscore, an opening parenthesis, a minus sign or a digit.
proof fn lemma_first_char(e: ElementValue)
    requires
        element_writable(e),
    ensures
        element_text(e).len() >= 1,
        ({
            let c = element_text(e)[0];
            c == '"' || c == '_' || c == '(' || c == '-' || is_digit(c)
        }),
{
    match e {
        ElementValue::Integer(i) => {
            lemma_int_text(i);
        },
        ElementValue::Decimal(d) => {
            lemma_decimal_text(d);
        },
        ElementValue::Text(s) => {},
        ElementValue::Nested(t) => {},
        ElementValue::Wildcard => {},
        ElementValue::Nil => {},
    }
}

/// Reading the text of a tuple gives the tuple, and nothing else: for every
/// tuple whose strings hold no double quote, whose decimals are written as
/// decimal numbers and which holds no "nothing" marker, the text that is
/// written for it is read as exactly this tuple. So writing what was read from
/// a written tuple gives the same text again.
pub proof fn lemma_text_reads_back(t: Seq<ElementValue>)
    requires
        tuple_writable(t),
    ensures
        tuples_of(tuple_text(t)) == seq![t],
        tuples_text(tuples_of(tuple_text(t))) == tuple_text(t),
{
    let s = tuple_text(t);
    assert(s[0] == '(');
    assert(s.subrange(0, s.len() as int) =~= s);
    lemma_read_group(s, 0, t);
    assert(skip_separators(s, 0) == 0);
    assert(skip_separators(s, s.len() as int) == s.len());
    assert(parse_tuples(s, s.len() as int) =~= Seq::<Seq<ElementValue>>::empty());
    assert(parse_tuples(s, 0) =~= seq![t]);
    assert(seq![t].drop_last() =~= Seq::<Seq<ElementValue>>::empty());
    assert(tuples_text(Seq::<Seq<ElementValue>>::empty()) =~= Seq::<char>::empty());
    assert(tuples_text(seq![t]) =~= tuple_text(t));
}

/// The text of several tuples begins with the text of the first.
proof fn lemma_tuples_text_front(ts: Seq<Seq<ElementValue>>)
    requires
        ts.len() > 0,
    ensures
        tuples_text(ts) == tuple_text(ts[0]) + tuples_text(ts.drop_first()),
    decreases ts.len(),
{
    let rest = ts.drop_first();
    if ts.len() == 1 {
        assert(ts.drop_last() =~= Seq::<Seq<ElementValue>>::empty());
        assert(rest =~= Seq::<Seq<ElementValue>>::empty());
        assert(tuples_text(ts) =~= tuple_text(ts[0]) + tuples_text(rest));
    } else {
        let shorter = ts.drop_last();
        lemma_tuples_text_front(shorter);
        assert(shorter[0] == ts[0]);
        assert(shorter.drop_first() =~= rest.drop_last());
        assert(rest.last() == ts.last());
        assert(tuples_text(ts) =~= tuple_text(ts[0]) + tuples_text(rest));
    }
}

/// Tuples are read from their texts, which stand one after the other up to
/// the end of the text.
proof fn lemma_read_tuples(s: Seq<char>, pos: int, ts: Seq<Seq<ElementValue>>)
    requires
        forall|i: int| 0 <= i < ts.len() ==> tuple_writable(#[trigger] ts[i]),
        0 <= pos,
        pos + tuples_text(ts).len() == s.len(),
        s.subrange(pos, s.len() as int) == tuples_text(ts),
    ensures
        parse_tuples(s, pos) == ts,
    decreases ts.len(),
{
    if ts.len() == 0 {
        assert(tuples_text(ts) =~= Seq::<char>::empty());
        assert(skip_separators(s, pos) == pos);
        assert(parse_tuples(s, pos) =~= ts);
    } else {
        let first = ts[0];
        let rest = ts.drop_first();
        let head = tuple_text(first);
        let tail = tuples_text(rest);
        lemma_tuples_text_front(ts);
        assert(tuple_writable(first));
        assert(s.subrange(pos, pos + head.len() + tail.len()) == head + tail);
        lemma_parts(s, pos, head, tail);
        assert(s[pos] == '(') by {
            assert(head[0] == '(');
            assert(s.subrange(pos, pos + head.len())[0] == s[pos]);
        }
        assert(skip_separators(s, pos) == pos);
        lemma_read_group(s, pos, first);
        assert forall|i: int| 0 <= i < rest.len() implies tuple_writable(#[trigger] rest[i]) by {
            assert(rest[i] == ts[i + 1]);
        }
        lemma_read_tuples(s, pos + head.len(), rest);
        assert(seq![first] + rest =~= ts);
    }
}

/// Reading the texts of several tuples, written one after the other, gives
/// these tuples in their order, and nothing else; so writing what was read
/// gives the same text again.
pub proof fn lemma_texts_read_back(ts: Seq<Seq<ElementValue>>)
    requires
        forall|i: int| 0 <= i < ts.len() ==> tuple_writable(#[trigger] ts[i]),
    ensures
        tuples_of(tuples_text(ts)) == ts,
        tuples_text(tuples_of(tuples_text(ts))) == tuples_text(ts),
{
    let s = tuples_text(ts);
    assert(s.subrange(0, s.len() as int) =~= s);
    lemma_read_tuples(s, 0, ts);
}

} // verus!
