//! The three primitives on the tuples of one request: putting them into a
//! space, and looking for, or taking out, a tuple for each template.
//!
//! The templates are worked through in the order in which they were written.
//! What is found is joined with `, ` in that order; more than one tuple stands
//! between one pair of parentheses. Where nothing is found, the first template
//! that failed says why.

use vstd::prelude::*;
use crate::constant::{NO_MATCHING_TUPLE_FOUND, TUPLE_IS_EMPTY};
use crate::quoting::{lemma_quoted_keeps, quoted};
use crate::repository::Repository;
use crate::literal::tuple_text;
use crate::store::{
    found, lemma_found_sound, lemma_put_take_once, lemma_taken_sound, put_result, shown_tuple,
    take_result, taken, tuple_decimal_free, tuple_matches, tuple_plain,
};
use crate::text::{chars_of, string_of};
use crate::tuple::{ElementValue, TupleData, tuple_defined};

verus! {

/// The values of a sequence of tuples.
pub open spec fn values(v: Seq<TupleData>) -> Seq<Seq<ElementValue>> {
    Seq::new(v.len(), |i: int| v[i]@)
}

/// What a store holds after the tuples of an OUT were handed to it: each
/// tuple that has an element and holds no wildcard and no "nothing" marker is
/// put into the store, its strings in quotes; the others are passed over.
pub open spec fn out_all(
    tuples: Set<Seq<ElementValue>>,
    ts: Seq<Seq<ElementValue>>,
) -> Set<Seq<ElementValue>>
    decreases ts.len(),
{
    if ts.len() == 0 {
        tuples
    } else {
        let before = out_all(tuples, ts.drop_last());
        if ts.last().len() > 0 && tuple_defined(ts.last()) {
            put_result(before, quoted(ts.last()))
        } else {
            before
        }
    }
}

/// The tuple that a template gets: the one that is taken out, or the one that
/// is found.
pub open spec fn hit(
    tuples: Set<Seq<ElementValue>>,
    template: Seq<ElementValue>,
    destructive: bool,
) -> Seq<ElementValue> {
    if destructive {
        taken(tuples, quoted(template))
    } else {
        found(tuples, quoted(template))
    }
}

/// What a store holds after one template was served.
pub open spec fn after_one(
    tuples: Set<Seq<ElementValue>>,
    template: Seq<ElementValue>,
    destructive: bool,
) -> Set<Seq<ElementValue>> {
    if destructive && template.len() > 0 {
        take_result(tuples, quoted(template))
    } else {
        tuples
    }
}

/// What a store holds after the templates were served, one after the other.
pub open spec fn state_after(
    tuples: Set<Seq<ElementValue>>,
    ts: Seq<Seq<ElementValue>>,
    destructive: bool,
) -> Set<Seq<ElementValue>>
    decreases ts.len(),
{
    if ts.len() == 0 {
        tuples
    } else {
        after_one(state_after(tuples, ts.drop_last(), destructive), ts.last(), destructive)
    }
}

/// The texts of the tuples that the templates got, in the order of the
/// templates.
pub open spec fn texts_of(
    tuples: Set<Seq<ElementValue>>,
    ts: Seq<Seq<ElementValue>>,
    destructive: bool,
) -> Seq<Seq<char>>
    decreases ts.len(),
{
    if ts.len() == 0 {
        Seq::empty()
    } else {
        let earlier = texts_of(tuples, ts.drop_last(), destructive);
        let state = state_after(tuples, ts.drop_last(), destructive);
        if ts.last().len() > 0 && hit(state, ts.last(), destructive).len() > 0 {
            earlier.push(shown_tuple(hit(state, ts.last(), destructive)))
        } else {
            earlier
        }
    }
}

/// Why the first template that got nothing got nothing: it was empty, or no
/// tuple matched it.
pub open spec fn failure_of(
    tuples: Set<Seq<ElementValue>>,
    ts: Seq<Seq<ElementValue>>,
    destructive: bool,
) -> Option<Seq<char>>
    decreases ts.len(),
{
    if ts.len() == 0 {
        None
    } else {
        match failure_of(tuples, ts.drop_last(), destructive) {
            Some(reason) => Some(reason),
            None => {
                let state = state_after(tuples, ts.drop_last(), destructive);
                if ts.last().len() == 0 {
                    Some(TUPLE_IS_EMPTY@)
                } else if hit(state, ts.last(), destructive).len() == 0 {
                    Some(NO_MATCHING_TUPLE_FOUND@)
                } else {
                    None
                }
            },
        }
    }
}

/// The texts, with `, ` between each two.
pub open spec fn joined(texts: Seq<Seq<char>>) -> Seq<char>
    decreases texts.len(),
{
    if texts.len() == 0 {
        Seq::empty()
    } else if texts.len() == 1 {
        texts[0]
    } else {
        joined(texts.drop_last()) + seq![',', ' '] + texts.last()
    }
}

/// The data of an answer: one text as it is, several between parentheses.
pub open spec fn data_of(texts: Seq<Seq<char>>) -> Seq<char> {
    if texts.len() > 1 {
        seq!['('] + joined(texts) + seq![')']
    } else {
        joined(texts)
    }
}

/// The reason of an answer without data: that of the first template that
/// failed, or that nothing matched where there was no template.
pub open spec fn reason_of(failure: Option<Seq<char>>) -> Seq<char> {
    match failure {
        Some(reason) => reason,
        None => NO_MATCHING_TUPLE_FOUND@,
    }
}

/// What a template gets was in the space: what an IN takes is a tuple that
/// the space held, and so is what a READ finds for a template without
/// decimals; a template without decimals, its strings in quotes, matches it.
/// An IN takes the tuple out of the space, and a READ leaves the space as it
/// is.
pub proof fn lemma_hit_sound(
    tuples: Set<Seq<ElementValue>>,
    template: Seq<ElementValue>,
    destructive: bool,
)
    requires
        hit(tuples, template, destructive).len() > 0,
    ensures
        destructive || tuple_decimal_free(template) ==> tuples.contains(
            hit(tuples, template, destructive),
        ),
        tuple_decimal_free(template) ==> tuple_matches(
            quoted(template),
            hit(tuples, template, destructive),
        ),
        after_one(tuples, template, destructive) == if destructive {
            tuples.remove(hit(tuples, template, destructive))
        } else {
            tuples
        },
{
    lemma_quoted_keeps(template);
    if destructive {
        lemma_taken_sound(tuples, quoted(template));
    } else if tuple_decimal_free(template) {
        lemma_found_sound(tuples, quoted(template));
    }
}

/// What OUT put, IN gives back once. After a tuple that has an element and
/// holds no wildcard, no "nothing" marker and no decimal was put into a
/// space, a READ of the tuple itself finds its literal and leaves the space as
/// it is, and an IN takes it with the same answer; after the IN the space
/// holds what it held before the OUT, without this tuple, and a second IN
/// finds no matching tuple.
pub proof fn lemma_out_then_in(tuples: Set<Seq<ElementValue>>, t: Seq<ElementValue>)
    requires
        tuple_plain(t),
        t.len() > 0,
    ensures
        ({
            let put = out_all(tuples, seq![t]);
            let left = state_after(put, seq![t], true);
            &&& put == tuples.insert(quoted(t))
            &&& data_of(texts_of(put, seq![t], false)) == tuple_text(t)
            &&& state_after(put, seq![t], false) == put
            &&& data_of(texts_of(put, seq![t], true)) == tuple_text(t)
            &&& left == tuples.remove(quoted(t))
            &&& texts_of(left, seq![t], true).len() == 0
            &&& reason_of(failure_of(left, seq![t], true)) == NO_MATCHING_TUPLE_FOUND@
            &&& state_after(left, seq![t], true) == left
        }),
{
    let one = seq![t];
    let q = quoted(t);
    lemma_quoted_keeps(t);
    lemma_put_take_once(tuples, q);
    assert(one.drop_last() =~= Seq::<Seq<ElementValue>>::empty());
    assert(one.last() == t);
    let put = out_all(tuples, one);
    assert(out_all(tuples, one.drop_last()) == tuples);
    assert(put == tuples.insert(q));
    assert(texts_of(put, one.drop_last(), false) =~= Seq::<Seq<char>>::empty());
    assert(texts_of(put, one.drop_last(), true) =~= Seq::<Seq<char>>::empty());
    assert(state_after(put, one.drop_last(), false) == put);
    assert(state_after(put, one.drop_last(), true) == put);
    assert(texts_of(put, one, false) =~= seq![tuple_text(t)]);
    assert(texts_of(put, one, true) =~= seq![tuple_text(t)]);
    let left = state_after(put, one, true);
    assert(left == tuples.remove(q));
    assert(state_after(left, one.drop_last(), true) == left);
    assert(texts_of(left, one.drop_last(), true) =~= Seq::<Seq<char>>::empty());
    assert(failure_of(left, one.drop_last(), true) is None);
}

/// OUT, then IN by a template: a space holds nothing that a template
/// without decimals matches, and a tuple that has an element and holds no
/// wildcard, no "nothing" marker and no decimal is put into it. Where an IN
/// of the template then finds a tuple, it is this tuple, and the answer is
/// its literal; the space is then left as it was before the OUT, and a second
/// IN of the template finds no matching tuple.
pub proof fn lemma_out_then_in_by_template(
    tuples: Set<Seq<ElementValue>>,
    t: Seq<ElementValue>,
    template: Seq<ElementValue>,
)
    requires
        tuple_plain(t),
        t.len() > 0,
        tuple_decimal_free(template),
        template.len() > 0,
        forall|m: Seq<ElementValue>| #[trigger]
            tuples.contains(m) ==> !tuple_matches(quoted(template), m),
    ensures
        ({
            let put = out_all(tuples, seq![t]);
            let left = state_after(put, seq![template], true);
            &&& put == tuples.insert(quoted(t))
            &&& texts_of(put, seq![template], true).len() > 0 ==> {
                &&& data_of(texts_of(put, seq![template], true)) == tuple_text(t)
                &&& left == tuples
                &&& texts_of(left, seq![template], true).len() == 0
                &&& reason_of(failure_of(left, seq![template], true))
                    == NO_MATCHING_TUPLE_FOUND@
            }
        }),
{
    let one = seq![t];
    let asked = seq![template];
    let q = quoted(t);
    lemma_quoted_keeps(t);
    lemma_quoted_keeps(template);
    lemma_put_take_once(tuples, q);
    assert(one.drop_last() =~= Seq::<Seq<ElementValue>>::empty());
    assert(asked.drop_last() =~= Seq::<Seq<ElementValue>>::empty());
    let put = out_all(tuples, one);
    assert(out_all(tuples, one.drop_last()) == tuples);
    assert(put == tuples.insert(q));
    assert(state_after(put, asked.drop_last(), true) == put);
    assert(texts_of(put, asked.drop_last(), true) =~= Seq::<Seq<char>>::empty());
    let got = hit(put, template, true);
    if got.len() > 0 {
        lemma_hit_sound(put, template, true);
        assert(got == q);
        assert(!tuples.contains(q));
        let left = state_after(put, asked, true);
        assert(left =~= tuples);
        assert(texts_of(put, asked, true) =~= seq![tuple_text(t)]);
        assert(state_after(left, asked.drop_last(), true) == left);
        assert(texts_of(left, asked.drop_last(), true) =~= Seq::<Seq<char>>::empty());
        assert(failure_of(left, asked.drop_last(), true) is None);
        if hit(left, template, true).len() > 0 {
            lemma_hit_sound(left, template, true);
        }
    }
}

/// What serving the templates gave: the data, or the reason why there is
/// none.
pub enum Gathered {
    /// The literals of the tuples that were found.
    Data(String),
    /// Nothing was found, for this reason.
    Nothing(String),
}

impl Repository {
    /// Puts the tuples of an OUT into the store with this number.
    pub fn out_tuples(&mut self, handle: usize, tuples: &Vec<TupleData>)
        requires
            old(self).wf(),
            handle < old(self).contents().len(),
        ensures
            final(self).wf(),
            final(self).directory() == old(self).directory(),
            final(self).contents() == old(self).contents().update(
                handle as int,
                out_all(old(self).contents()[handle as int], values(tuples@)),
            ),
    {
        let ghost ts = values(tuples@);
        let ghost start = self.contents()[handle as int];
        let mut i: usize = 0;
        assert(ts.take(0) =~= Seq::<Seq<ElementValue>>::empty());
        assert(self.contents() =~= old(self).contents().update(handle as int, start));
        while i < tuples.len()
            invariant
                i <= tuples.len(),
                ts == values(tuples@),
                self.wf(),
                handle < self.contents().len(),
                start == old(self).contents()[handle as int],
                handle < old(self).contents().len(),
                self.directory() == old(self).directory(),
                self.contents() == old(self).contents().update(
                    handle as int,
                    out_all(start, ts.take(i as int)),
                ),
            decreases tuples.len() - i,
        {
            proof {
                assert(ts.take(i + 1).drop_last() =~= ts.take(i as int));
                assert(ts.take(i + 1).last() == tuples@[i as int]@);
                lemma_quoted_keeps(tuples@[i as int]@);
            }
            let ghost before = self.contents();
            if !tuples[i].is_empty() && tuples[i].is_defined() {
                let formatted = tuples[i].format();
                self.put(handle, &formatted);
            }
            proof {
                assert(self.contents() =~= old(self).contents().update(
                    handle as int,
                    out_all(start, ts.take(i + 1)),
                ));
            }
            i = i + 1;
        }
        assert(ts.take(i as int) =~= ts);
    }

    /// Serves the templates of a READ, or of an IN where `destructive` is
    /// set, from the store with this number.
    pub fn gather(&mut self, handle: usize, tuples: &Vec<TupleData>, destructive: bool) -> (g:
        Gathered)
        requires
            old(self).wf(),
            handle < old(self).contents().len(),
        ensures
            final(self).wf(),
            final(self).directory() == old(self).directory(),
            final(self).contents() == old(self).contents().update(
                handle as int,
                state_after(old(self).contents()[handle as int], values(tuples@), destructive),
            ),
            match g {
                Gathered::Data(text) => texts_of(
                    old(self).contents()[handle as int],
                    values(tuples@),
                    destructive,
                ).len() > 0 && text@ == data_of(
                    texts_of(old(self).contents()[handle as int], values(tuples@), destructive),
                ),
                Gathered::Nothing(reason) => texts_of(
                    old(self).contents()[handle as int],
                    values(tuples@),
                    destructive,
                ).len() == 0 && reason@ == reason_of(
                    failure_of(old(self).contents()[handle as int], values(tuples@), destructive),
                ),
            },
    {
        let ghost ts = values(tuples@);
        let ghost start = self.contents()[handle as int];
        let mut line: Vec<char> = Vec::new();
        let mut count: usize = 0;
        let mut failure: Option<String> = None;
        let mut i: usize = 0;
        proof {
            assert(ts.take(0) =~= Seq::<Seq<ElementValue>>::empty());
            assert(self.contents() =~= old(self).contents().update(handle as int, start));
        }
        while i < tuples.len()
            invariant
                i <= tuples.len(),
                count <= i,
                ts == values(tuples@),
                self.wf(),
                handle < self.contents().len(),
                handle < old(self).contents().len(),
                start == old(self).contents()[handle as int],
                self.directory() == old(self).directory(),
                self.contents() == old(self).contents().update(
                    handle as int,
                    state_after(start, ts.take(i as int), destructive),
                ),
                count == texts_of(start, ts.take(i as int), destructive).len(),
                line@ == joined(texts_of(start, ts.take(i as int), destructive)),
                match failure {
                    Some(reason) => failure_of(start, ts.take(i as int), destructive) == Some(
                        reason@,
                    ),
                    None => failure_of(start, ts.take(i as int), destructive) is None,
                },
            decreases tuples.len() - i,
        {
            let ghost shorter = ts.take(i as int);
            let ghost longer = ts.take(i + 1);
            let ghost state = state_after(start, shorter, destructive);
            let ghost earlier = texts_of(start, shorter, destructive);
            proof {
                assert(longer.drop_last() =~= shorter);
                assert(longer.last() == tuples@[i as int]@);
                lemma_quoted_keeps(tuples@[i as int]@);
                assert(self.contents()[handle as int] == state);
            }
            if tuples[i].is_empty() {
                if failure.is_none() {
                    failure = Some(TUPLE_IS_EMPTY.to_owned());
                }
                proof {
                    assert(self.contents() =~= old(self).contents().update(
                        handle as int,
                        state_after(start, longer, destructive),
                    ));
                }
            } else {
                let template = tuples[i].format();
                let answer = if destructive {
                    self.take_at(handle, &template)
                } else {
                    self.read_at(handle, &template)
                };
                proof {
                    assert(self.contents() =~= old(self).contents().update(
                        handle as int,
                        state_after(start, longer, destructive),
                    ));
                }
                match answer {
                    Some(text) => {
                        if count > 0 {
                            line.push(',');
                            line.push(' ');
                        }
                        let chars = chars_of(text.as_str());
                        let ghost base = line@;
                        let mut k: usize = 0;
                        while k < chars.len()
                            invariant
                                k <= chars.len(),
                                line@ == base + chars@.take(k as int),
                            decreases chars.len() - k,
                        {
                            line.push(chars[k]);
                            k = k + 1;
                            assert(line@ =~= base + chars@.take(k as int));
                        }
                        proof {
                            assert(chars@.take(k as int) =~= chars@);
                            let texts = texts_of(start, longer, destructive);
                            assert(texts == earlier.push(text@));
                            assert(texts.drop_last() =~= earlier);
                            if earlier.len() == 0 {
                                assert(line@ =~= joined(texts));
                            } else {
                                assert(line@ =~= joined(texts));
                            }
                        }
                        count = count + 1;
                    },
                    None => {
                        if failure.is_none() {
                            failure = Some(NO_MATCHING_TUPLE_FOUND.to_owned());
                        }
                    },
                }
            }
            i = i + 1;
        }
        proof {
            assert(ts.take(i as int) =~= ts);
        }
        if count == 0 {
            let reason = match failure {
                Some(reason) => reason,
                None => NO_MATCHING_TUPLE_FOUND.to_owned(),
            };
            Gathered::Nothing(reason)
        } else if count == 1 {
            Gathered::Data(string_of(&line))
        } else {
            let mut whole: Vec<char> = Vec::new();
            whole.push('(');
            let mut k: usize = 0;
            while k < line.len()
                invariant
                    k <= line.len(),
                    whole@ == seq!['('] + line@.take(k as int),
                decreases line.len() - k,
            {
                whole.push(line[k]);
                k = k + 1;
                assert(whole@ =~= seq!['('] + line@.take(k as int));
            }
            whole.push(')');
            proof {
                assert(line@.take(k as int) =~= line@);
                assert(whole@ =~= seq!['('] + line@ + seq![')']);
            }
            Gathered::Data(string_of(&whole))
        }
    }
}

} // verus!
