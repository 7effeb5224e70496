//! Characters and strings: the classes of characters that the protocol tells
//! apart, the passage between strings and vectors of characters, and the
//! splitting of a line into words.

use vstd::prelude::*;

verus! {

/// Whether `c` is white space: the characters with the Unicode property
/// `White_Space`.
pub open spec fn is_blank(c: char) -> bool {
    let n = c as u32;
    (0x09 <= n <= 0x0d) || n == 0x20 || n == 0x85 || n == 0xa0 || n == 0x1680 || (0x2000 <= n
        <= 0x200a) || n == 0x2028 || n == 0x2029 || n == 0x202f || n == 0x205f || n == 0x3000
}

/// Whether `c` is one of the ten decimal digits.
pub open spec fn is_digit(c: char) -> bool {
    '0' <= c <= '9'
}

/// The first position from `pos` on that holds no white space, or the length
/// of `s` where only white space is left.
pub open spec fn skip_blanks(s: Seq<char>, pos: int) -> int
    decreases s.len() - pos,
{
    if 0 <= pos < s.len() && is_blank(s[pos]) {
        skip_blanks(s, pos + 1)
    } else {
        pos
    }
}

/// The first position from `pos` on that holds white space, or the length of
/// `s` where none is left.
pub open spec fn word_end(s: Seq<char>, pos: int) -> int
    decreases s.len() - pos,
{
    if 0 <= pos < s.len() && !is_blank(s[pos]) {
        word_end(s, pos + 1)
    } else {
        pos
    }
}

/// The words of `s` from `pos` on: the maximal runs of characters that are not
/// white space, in order.
pub open spec fn words_from(s: Seq<char>, pos: int) -> Seq<Seq<char>>
    decreases s.len() - pos,
{
    let start = skip_blanks(s, pos);
    let end = word_end(s, start);
    if 0 <= pos <= start < end <= s.len() {
        seq![s.subrange(start, end)] + words_from(s, end)
    } else {
        Seq::empty()
    }
}

/// The words of `s`.
pub open spec fn words_of(s: Seq<char>) -> Seq<Seq<char>> {
    words_from(s, 0)
}

/// The words of `words` from `from` on, joined by single spaces.
pub open spec fn joined_from(words: Seq<Seq<char>>, from: int) -> Seq<char>
    decreases words.len() - from,
{
    if from < 0 || from >= words.len() {
        Seq::empty()
    } else if from + 1 == words.len() {
        words[from]
    } else {
        words[from] + seq![' '] + joined_from(words, from + 1)
    }
}

/// The character sequences of a sequence of strings.
pub open spec fn texts(v: Seq<String>) -> Seq<Seq<char>> {
    Seq::new(v.len(), |i: int| v[i]@)
}

/// `s` without its white space.
pub open spec fn without_blanks(s: Seq<char>) -> Seq<char> {
    s.filter(|c: char| !is_blank(c))
}

/// Skipping white space ends inside the text, on a character that is no white
/// space where one is left, and passes over white space only.
pub proof fn lemma_skip_blanks(s: Seq<char>, pos: int)
    requires
        0 <= pos <= s.len(),
    ensures
        pos <= skip_blanks(s, pos) <= s.len(),
        skip_blanks(s, pos) < s.len() ==> !is_blank(s[skip_blanks(s, pos)]),
        forall|i: int| pos <= i < skip_blanks(s, pos) ==> is_blank(#[trigger] s[i]),
    decreases s.len() - pos,
{
    if pos < s.len() && is_blank(s[pos]) {
        lemma_skip_blanks(s, pos + 1);
    }
}

/// A word ends inside the text, on white space where some is left, and holds
/// no white space; it has a character where it starts on one that is no white
/// space.
pub proof fn lemma_word_end(s: Seq<char>, pos: int)
    requires
        0 <= pos <= s.len(),
    ensures
        pos <= word_end(s, pos) <= s.len(),
        word_end(s, pos) < s.len() ==> is_blank(s[word_end(s, pos)]),
        pos < s.len() && !is_blank(s[pos]) ==> pos < word_end(s, pos),
        forall|i: int| pos <= i < word_end(s, pos) ==> !is_blank(#[trigger] s[i]),
    decreases s.len() - pos,
{
    if pos < s.len() && !is_blank(s[pos]) {
        lemma_word_end(s, pos + 1);
    }
}

/// Whether `c` is white space.
pub fn blank(c: char) -> (b: bool)
    ensures
        b == is_blank(c),
{
    let n: u32 = c as u32;
    (0x09 <= n && n <= 0x0d) || n == 0x20 || n == 0x85 || n == 0xa0 || n == 0x1680 || (0x2000
        <= n && n <= 0x200a) || n == 0x2028 || n == 0x2029 || n == 0x202f || n == 0x205f || n
        == 0x3000
}

/// Whether `c` is a decimal digit.
pub fn digit(c: char) -> (b: bool)
    ensures
        b == is_digit(c),
{
    '0' <= c && c <= '9'
}

/// The characters of `s`, in order.
pub fn chars_of(s: &str) -> (v: Vec<char>)
    ensures
        v@ == s@,
{
    let mut v: Vec<char> = Vec::new();
    for c in it: s.chars()
        invariant
            v@ == it.seq().take(it.index() as int),
            it.seq() == s@,
    {
        v.push(c);
    }
    v
}

/// Whether two strings hold the same characters.
pub fn same_text(a: &str, b: &str) -> (same: bool)
    ensures
        same == (a@ == b@),
{
    let x = chars_of(a);
    let y = chars_of(b);
    if x.len() != y.len() {
        return false;
    }
    let mut i: usize = 0;
    while i < x.len()
        invariant
            i <= x.len(),
            x.len() == y.len(),
            x@ == a@,
            y@ == b@,
            forall|k: int| 0 <= k < i ==> x@[k] == y@[k],
        decreases x.len() - i,
    {
        if x[i] != y[i] {
            assert(a@[i as int] != b@[i as int]);
            return false;
        }
        i = i + 1;
    }
    assert(x@ =~= y@);
    true
}

/// `String::from_iter` over the characters of a vector: the string that holds
/// exactly these characters, in this order.
#[verifier::external_body]
pub(crate) fn string_of(chars: &Vec<char>) -> (s: String)
    ensures
        s@ == chars@,
{
    String::from_iter(chars.iter())
}

/// The characters of `chars` from `from` up to `to`, as a string.
pub fn text_between(chars: &Vec<char>, from: usize, to: usize) -> (s: String)
    requires
        from <= to <= chars.len(),
    ensures
        s@ == chars@.subrange(from as int, to as int),
{
    let mut part: Vec<char> = Vec::new();
    let mut i: usize = from;
    while i < to
        invariant
            from <= i <= to <= chars.len(),
            part@ == chars@.subrange(from as int, i as int),
        decreases to - i,
    {
        part.push(chars[i]);
        i = i + 1;
    }
    string_of(&part)
}

/// The first position from `pos` on that holds no white space.
pub fn skip_blanks_at(chars: &Vec<char>, pos: usize) -> (next: usize)
    requires
        pos <= chars.len(),
    ensures
        next == skip_blanks(chars@, pos as int),
        pos <= next <= chars.len(),
{
    let mut i: usize = pos;
    while i < chars.len() && blank(chars[i])
        invariant
            pos <= i <= chars.len(),
            skip_blanks(chars@, pos as int) == skip_blanks(chars@, i as int),
        decreases chars.len() - i,
    {
        i = i + 1;
    }
    i
}

/// The first position from `pos` on that holds white space.
pub fn word_end_at(chars: &Vec<char>, pos: usize) -> (next: usize)
    requires
        pos <= chars.len(),
    ensures
        next == word_end(chars@, pos as int),
        pos <= next <= chars.len(),
{
    let mut i: usize = pos;
    while i < chars.len() && !blank(chars[i])
        invariant
            pos <= i <= chars.len(),
            word_end(chars@, pos as int) == word_end(chars@, i as int),
        decreases chars.len() - i,
    {
        i = i + 1;
    }
    i
}

/// Splits a line into its words.
pub fn split_words(chars: &Vec<char>) -> (words: Vec<String>)
    ensures
        texts(words@) == words_of(chars@),
{
    let mut words: Vec<String> = Vec::new();
    let mut pos: usize = 0;
    loop
        invariant_except_break
            pos <= chars.len(),
            words_of(chars@) =~= texts(words@) + words_from(chars@, pos as int),
        ensures
            texts(words@) =~= words_of(chars@),
        decreases chars.len() - pos,
    {
        let start = skip_blanks_at(chars, pos);
        let end = word_end_at(chars, start);
        proof {
            lemma_word_end(chars@, start as int);
        }
        if start >= end {
            break ;
        }
        let word = text_between(chars, start, end);
        let ghost before = texts(words@);
        words.push(word);
        proof {
            assert(texts(words@) =~= before + seq![chars@.subrange(start as int, end as int)]);
        }
        pos = end;
    }
    words
}

/// The words from `from` on, joined by single spaces.
pub fn join_words(words: &Vec<String>, from: usize) -> (line: String)
    ensures
        line@ == joined_from(texts(words@), from as int),
{
    let ghost all = texts(words@);
    let mut line = String::new();
    if from >= words.len() {
        return line;
    }
    let mut i: usize = from;
    proof {
        reveal_strlit(" ");
    }
    while i + 1 < words.len()
        invariant
            from <= i < words.len(),
            all == texts(words@),
            " "@ == seq![' '],
            joined_from(all, from as int) == line@ + joined_from(all, i as int),
        decreases words.len() - i,
    {
        line.append(words[i].as_str());
        line.append(" ");
        proof {
            assert(joined_from(all, i as int) == all[i as int] + seq![' '] + joined_from(
                all,
                i + 1,
            ));
            assert(line@ + joined_from(all, i + 1) =~= joined_from(all, from as int));
        }
        i = i + 1;
    }
    line.append(words[i].as_str());
    proof {
        assert(joined_from(all, i as int) == all[i as int]);
    }
    line
}

/// `s` without its white space.
pub fn remove_blanks(s: &str) -> (r: String)
    ensures
        r@ == without_blanks(s@),
{
    let chars = chars_of(s);
    let mut kept: Vec<char> = Vec::new();
    let mut i: usize = 0;
    while i < chars.len()
        invariant
            i <= chars.len(),
            kept@ == without_blanks(chars@.take(i as int)),
        decreases chars.len() - i,
    {
        proof {
            assert(chars@.take(i + 1).drop_last() == chars@.take(i as int));
            reveal(Seq::filter);
        }
        if !blank(chars[i]) {
            kept.push(chars[i]);
        }
        i = i + 1;
    }
    proof {
        assert(chars@.take(i as int) == chars@);
    }
    string_of(&kept)
}

/// `s` without its double quotes.
pub open spec fn without_quotes(s: Seq<char>) -> Seq<char> {
    s.filter(|c: char| c != '"')
}

/// `s` without its double quotes.
pub fn strip_quotes(s: &str) -> (r: String)
    ensures
        r@ == without_quotes(s@),
{
    let chars = chars_of(s);
    let mut kept: Vec<char> = Vec::new();
    let mut i: usize = 0;
    while i < chars.len()
        invariant
            i <= chars.len(),
            kept@ == without_quotes(chars@.take(i as int)),
        decreases chars.len() - i,
    {
        proof {
            assert(chars@.take(i + 1).drop_last() == chars@.take(i as int));
            reveal(Seq::filter);
        }
        if chars[i] != '"' {
            kept.push(chars[i]);
        }
        i = i + 1;
    }
    proof {
        assert(chars@.take(i as int) == chars@);
    }
    string_of(&kept)
}

/// Copies of the strings from `from` on.
pub fn strings_from(words: &Vec<String>, from: usize) -> (rest: Vec<String>)
    requires
        from <= words.len(),
    ensures
        texts(rest@) == texts(words@).subrange(from as int, words@.len() as int),
{
    let mut rest: Vec<String> = Vec::new();
    let mut i: usize = from;
    while i < words.len()
        invariant
            from <= i <= words.len(),
            rest@.len() == i - from,
            forall|k: int| 0 <= k < rest@.len() ==> (#[trigger] rest@[k])@ == words@[from + k]@,
        decreases words.len() - i,
    {
        rest.push(words[i].clone());
        i = i + 1;
    }
    assert(texts(rest@) =~= texts(words@).subrange(from as int, words@.len() as int));
    rest
}

} // verus!
