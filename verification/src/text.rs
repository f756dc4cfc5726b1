//! Character-level helpers on which the parsers of this crate are built.
//!
//! Text is handled as a sequence of characters (`Seq<char>` in contracts,
//! `Vec<char>` in executable code), so that positions are character
//! positions and every helper has an exact mathematical statement.

use vstd::prelude::*;

verus! {

/// `String::push` appends one character to the end of the string.
pub assume_specification[ String::push ](s: &mut String, ch: char)
    ensures
        final(s)@ == old(s)@.push(ch),
;

/// Whether `c` is white space: one of the characters with the Unicode
/// property White_Space. These are the controls U+0009 to U+000D, the
/// space, U+0085, the no-break space, U+1680, U+2000 to U+200A, the line
/// and paragraph separators, U+202F, U+205F and U+3000.
pub open spec fn whitespace(c: char) -> bool {
    let code = c as u32;
    ||| 0x09 <= code <= 0x0d
    ||| code == 0x20
    ||| code == 0x85
    ||| code == 0xa0
    ||| code == 0x1680
    ||| 0x2000 <= code <= 0x200a
    ||| code == 0x2028
    ||| code == 0x2029
    ||| code == 0x202f
    ||| code == 0x205f
    ||| code == 0x3000
}

/// `char::is_whitespace` tells whether the character has the Unicode
/// property White_Space; the contract lists the characters that have it.
pub assume_specification[ char::is_whitespace ](c: char) -> (b: bool)
    ensures
        b == whitespace(c),
;

/// The lower-case form of a text in the sense of `str::to_lowercase`.
pub uninterp spec fn lowercase_of(text: Seq<char>) -> Seq<char>;

/// `str::to_lowercase` returns the lower-case equivalent of the string
/// slice as a new string; the contract gives that string a name.
pub assume_specification[ str::to_lowercase ](s: &str) -> (lowered: String)
    ensures
        lowered@ == lowercase_of(s@),
;

/// The characters of `s`, in order.
pub fn chars_of(s: &str) -> (chars: Vec<char>)
    ensures
        chars@ == s@,
{
    broadcast use vstd::string::axiom_spec_iter;

    let mut chars: Vec<char> = Vec::new();
    let source = s.chars();
    for c in it: source
        invariant
            it.seq() == s@,
            chars@ == s@.take(it.index()),
    {
        chars.push(c);
        assert(s@.take(it.index() + 1) == s@.take(it.index()).push(s@[it.index()]));
    }
    assert(s@.take(s@.len() as int) == s@);
    chars
}

/// Appends the characters `chars[from..to]` to `out`.
pub fn push_range(out: &mut String, chars: &Vec<char>, from: usize, to: usize)
    requires
        from <= to <= chars.len(),
    ensures
        final(out)@ == old(out)@ + chars@.subrange(from as int, to as int),
{
    let mut i: usize = from;
    while i < to
        invariant
            from <= i <= to <= chars.len(),
            out@ == old(out)@ + chars@.subrange(from as int, i as int),
        decreases to - i,
    {
        out.push(chars[i]);
        i += 1;
        assert(chars@.subrange(from as int, i as int) == chars@.subrange(
            from as int,
            i as int - 1,
        ).push(chars@[i as int - 1]));
    }
}

/// The string made of `chars`, in order.
pub fn string_of(chars: &Vec<char>) -> (s: String)
    ensures
        s@ == chars@,
{
    let mut s = String::new();
    push_range(&mut s, chars, 0, chars.len());
    assert(chars@.subrange(0, chars.len() as int) == chars@);
    s
}

/// Whether two strings hold the same characters.
pub fn same_text(a: &str, b: &str) -> (same: bool)
    ensures
        same == (a@ == b@),
{
    let x = chars_of(a);
    let y = chars_of(b);
    same_chars(&x, &y)
}

/// Whether two character vectors hold the same characters.
pub fn same_chars(a: &Vec<char>, b: &Vec<char>) -> (same: bool)
    ensures
        same == (a@ == b@),
{
    if a.len() != b.len() {
        return false;
    }
    let mut i: usize = 0;
    while i < a.len()
        invariant
            a.len() == b.len(),
            i <= a.len(),
            a@.take(i as int) == b@.take(i as int),
        decreases a.len() - i,
    {
        if a[i] != b[i] {
            return false;
        }
        i += 1;
        assert(a@.take(i as int) == a@.take(i as int - 1).push(a@[i as int - 1]));
        assert(b@.take(i as int) == b@.take(i as int - 1).push(b@[i as int - 1]));
    }
    assert(a@.take(a.len() as int) == a@);
    assert(b@.take(b.len() as int) == b@);
    true
}

/// `needle` stands in `hay` at character position `at`.
pub open spec fn occurs_at(hay: Seq<char>, needle: Seq<char>, at: int) -> bool {
    &&& 0 <= at
    &&& at + needle.len() <= hay.len()
    &&& hay.subrange(at, at + needle.len()) == needle
}

/// `needle` stands somewhere in `hay`.
pub open spec fn contains(hay: Seq<char>, needle: Seq<char>) -> bool {
    exists|at: int| occurs_at(hay, needle, at)
}

/// The first position at or after `from` where `needle` stands in `hay`.
pub open spec fn first_occurrence_from(hay: Seq<char>, needle: Seq<char>, from: int) -> Option<int>
    decreases hay.len() - from,
{
    if from + needle.len() > hay.len() {
        None
    } else if occurs_at(hay, needle, from) {
        Some(from)
    } else if from < hay.len() {
        first_occurrence_from(hay, needle, from + 1)
    } else {
        None
    }
}

/// The first position where `needle` stands in `hay`, if there is one.
pub open spec fn first_occurrence(hay: Seq<char>, needle: Seq<char>) -> Option<int> {
    first_occurrence_from(hay, needle, 0)
}

/// What [`first_occurrence_from`] finds is an occurrence with none between
/// `from` and it; where it finds nothing there is none at or after `from`.
pub proof fn lemma_first_occurrence_from(hay: Seq<char>, needle: Seq<char>, from: int)
    requires
        0 <= from,
    ensures
        match first_occurrence_from(hay, needle, from) {
            Some(at) => from <= at && occurs_at(hay, needle, at) && forall|j: int|
                from <= j < at ==> !occurs_at(hay, needle, j),
            None => forall|j: int| from <= j ==> !occurs_at(hay, needle, j),
        },
    decreases hay.len() - from,
{
    if from + needle.len() <= hay.len() && !occurs_at(hay, needle, from) && from < hay.len() {
        lemma_first_occurrence_from(hay, needle, from + 1);
    }
}

/// [`first_occurrence`] finds something exactly when `needle` stands in
/// `hay`, and then the least position.
pub proof fn lemma_first_occurrence(hay: Seq<char>, needle: Seq<char>)
    ensures
        first_occurrence(hay, needle) is Some <==> contains(hay, needle),
        first_occurrence(hay, needle) matches Some(at) ==> occurs_at(hay, needle, at) && forall|
            j: int,
        |
            j < at ==> !occurs_at(hay, needle, j),
{
    lemma_first_occurrence_from(hay, needle, 0);
}

/// Whether `needle` stands in `hay` at position `at`.
pub fn matches_at(hay: &Vec<char>, needle: &Vec<char>, at: usize) -> (found: bool)
    ensures
        found == occurs_at(hay@, needle@, at as int),
{
    if needle.len() > hay.len() || at > hay.len() - needle.len() {
        return false;
    }
    let mut k: usize = 0;
    while k < needle.len()
        invariant
            at + needle.len() <= hay.len(),
            k <= needle.len(),
            hay@.subrange(at as int, at + k) == needle@.take(k as int),
        decreases needle.len() - k,
    {
        if hay[at + k] != needle[k] {
            assert(hay@.subrange(at as int, at + needle.len())[k as int] != needle@[k as int]);
            return false;
        }
        k += 1;
        assert(hay@.subrange(at as int, at + k) == hay@.subrange(at as int, at + k - 1).push(
            hay@[at + k - 1],
        ));
        assert(needle@.take(k as int) == needle@.take(k as int - 1).push(needle@[k as int - 1]));
    }
    assert(needle@.take(needle.len() as int) == needle@);
    true
}

/// The first position where `needle` stands in `hay`.
pub fn find(hay: &Vec<char>, needle: &Vec<char>) -> (found: Option<usize>)
    ensures
        match found {
            Some(at) => first_occurrence(hay@, needle@) == Some(at as int) && at + needle.len()
                <= hay.len(),
            None => first_occurrence(hay@, needle@) is None,
        },
{
    if needle.len() > hay.len() {
        return None;
    }
    let last: usize = hay.len() - needle.len();
    let mut at: usize = 0;
    loop
        invariant
            last == hay.len() - needle.len(),
            at <= last,
            first_occurrence(hay@, needle@) == first_occurrence_from(hay@, needle@, at as int),
        decreases last - at,
    {
        if matches_at(hay, needle, at) {
            return Some(at);
        }
        if at == last {
            assert(first_occurrence_from(hay@, needle@, at + 1) is None);
            return None;
        }
        at += 1;
    }
}

/// Whether `needle` stands somewhere in `hay`.
pub fn contains_chars(hay: &Vec<char>, needle: &Vec<char>) -> (found: bool)
    ensures
        found == contains(hay@, needle@),
{
    proof {
        lemma_first_occurrence(hay@, needle@);
    }
    find(hay, needle).is_some()
}

/// Whether the word `word` stands somewhere in `hay`.
pub fn contains_word(hay: &Vec<char>, word: &str) -> (found: bool)
    ensures
        found == contains(hay@, word@),
{
    let needle = chars_of(word);
    contains_chars(hay, &needle)
}

/// The last position of the character `c` in `text`, if it occurs.
pub open spec fn last_position(text: Seq<char>, c: char) -> Option<int>
    decreases text.len(),
{
    if text.len() == 0 {
        None
    } else if text.last() == c {
        Some(text.len() - 1)
    } else {
        last_position(text.drop_last(), c)
    }
}

/// What [`last_position`] finds holds `c`, and no later position does.
pub proof fn law_last_position(text: Seq<char>, c: char)
    ensures
        match last_position(text, c) {
            Some(at) => 0 <= at < text.len() && text[at] == c && forall|j: int|
                at < j < text.len() ==> text[j] != c,
            None => forall|j: int| 0 <= j < text.len() ==> text[j] != c,
        },
    decreases text.len(),
{
    if text.len() > 0 && text.last() != c {
        let front = text.drop_last();
        law_last_position(front, c);
        assert forall|j: int| 0 <= j < front.len() implies front[j] == text[j] by {}
    }
}

/// The last position of the character `c` in `text`.
pub fn rfind_char(text: &Vec<char>, c: char) -> (found: Option<usize>)
    ensures
        match found {
            Some(at) => last_position(text@, c) == Some(at as int) && at < text.len(),
            None => last_position(text@, c) is None,
        },
{
    let mut end: usize = text.len();
    assert(text@.take(text.len() as int) == text@);
    while end > 0
        invariant
            end <= text.len(),
            last_position(text@, c) == last_position(text@.take(end as int), c),
        decreases end,
    {
        assert(text@.take(end as int).last() == text@[end - 1]);
        assert(text@.take(end as int).drop_last() == text@.take(end - 1));
        if text[end - 1] == c {
            return Some(end - 1);
        }
        end -= 1;
    }
    None
}

/// An ASCII decimal digit.
pub open spec fn is_digit(c: char) -> bool {
    '0' <= c <= '9'
}

/// The number that the digit `c` stands for.
pub open spec fn digit_value(c: char) -> nat {
    (c as int - '0' as int) as nat
}

/// How many decimal digits stand at the start of `text`.
pub open spec fn digit_run(text: Seq<char>) -> nat
    decreases text.len(),
{
    if text.len() > 0 && is_digit(text[0]) {
        1 + digit_run(text.drop_first())
    } else {
        0
    }
}

/// The number written by the decimal digits `digits`; 0 for no digits.
pub open spec fn decimal_value(digits: Seq<char>) -> nat
    decreases digits.len(),
{
    if digits.len() == 0 {
        0
    } else {
        10 * decimal_value(digits.drop_last()) + digit_value(digits.last())
    }
}

/// Whether `c` is an ASCII decimal digit.
pub fn is_ascii_digit(c: char) -> (digit: bool)
    ensures
        digit == is_digit(c),
{
    c >= '0' && c <= '9'
}

/// The decimal digit that writes `d`.
pub open spec fn digit_char(d: nat) -> char
    recommends
        d < 10,
{
    (('0' as int + d) as u8) as char
}

/// The decimal digits that write `n`, without leading zeros; `"0"` for 0.
pub open spec fn decimal_text(n: nat) -> Seq<char>
    decreases n,
{
    if n < 10 {
        seq![digit_char(n)]
    } else {
        decimal_text(n / 10).push(digit_char(n % 10))
    }
}

/// Reading back what [`decimal_text`] wrote gives the number.
pub proof fn law_decimal_round_trip(n: nat)
    ensures
        decimal_value(decimal_text(n)) == n,
        decimal_text(n).len() >= 1,
        forall|j: int| 0 <= j < decimal_text(n).len() ==> is_digit(#[trigger] decimal_text(n)[j]),
    decreases n,
{
    if n < 10 {
        let t = decimal_text(n);
        assert(t.drop_last() =~= Seq::<char>::empty());
        assert(decimal_value(t.drop_last()) == 0);
        assert(digit_value(t.last()) == n);
    } else {
        law_decimal_round_trip(n / 10);
        let t = decimal_text(n);
        assert(t.drop_last() =~= decimal_text(n / 10));
        assert(digit_value(t.last()) == n % 10);
    }
}

/// Appends the decimal digits of `n` to `out`.
pub fn push_decimal(out: &mut String, n: u64)
    ensures
        final(out)@ == old(out)@ + decimal_text(n as nat),
    decreases n,
{
    if n >= 10 {
        push_decimal(out, n / 10);
    }
    let d: u8 = (n % 10) as u8;
    out.push((48u8 + d) as char);
    proof {
        if n >= 10 {
            assert(out@ =~= old(out)@ + decimal_text(n as nat));
        } else {
            assert(out@ =~= old(out)@ + decimal_text(n as nat));
        }
    }
}

/// Appends the decimal writing of `n` to `out`, with a minus sign in front
/// of a negative number.
pub fn push_signed_decimal(out: &mut String, n: i64)
    ensures
        final(out)@ == old(out)@ + signed_decimal_text(n as int),
{
    if n < 0 {
        out.push('-');
        let magnitude: u64 = if n == i64::MIN {
            9223372036854775808u64
        } else {
            (-n) as u64
        };
        push_decimal(out, magnitude);
        assert(out@ =~= old(out)@ + signed_decimal_text(n as int));
    } else {
        push_decimal(out, n as u64);
    }
}

/// The decimal writing of an integer: a minus sign before the digits of a
/// negative number.
pub open spec fn signed_decimal_text(n: int) -> Seq<char> {
    if n < 0 {
        seq!['-'] + decimal_text((-n) as nat)
    } else {
        decimal_text(n as nat)
    }
}

/// Appends the characters of `s` to `out`.
pub fn push_text(out: &mut String, s: &str)
    ensures
        final(out)@ == old(out)@ + s@,
{
    let chars = chars_of(s);
    push_range(out, &chars, 0, chars.len());
    assert(chars@.subrange(0, chars.len() as int) == chars@);
}

/// The length of the word at the start of `text`: the characters before
/// its first white space.
pub open spec fn word_len(text: Seq<char>) -> nat
    decreases text.len(),
{
    if text.len() > 0 && !whitespace(text[0]) {
        1 + word_len(text.drop_first())
    } else {
        0
    }
}

/// The words of `text`: its maximal runs of characters that are not white
/// space, in order. This is what `str::split_whitespace` yields.
pub open spec fn words(text: Seq<char>) -> Seq<Seq<char>>
    decreases text.len(),
{
    if text.len() == 0 {
        Seq::empty()
    } else if whitespace(text[0]) {
        words(text.drop_first())
    } else {
        let n = word_len(text) as int;
        if 0 < n <= text.len() {
            seq![text.take(n)] + words(text.skip(n))
        } else {
            Seq::empty()
        }
    }
}

/// A word is never longer than the text it starts, it holds no white
/// space, and white space or the end of the text follows it.
pub proof fn lemma_word_len(text: Seq<char>)
    ensures
        word_len(text) <= text.len(),
        text.len() > 0 && !whitespace(text[0]) ==> word_len(text) > 0,
        forall|j: int| 0 <= j < word_len(text) ==> !whitespace(#[trigger] text[j]),
        word_len(text) < text.len() ==> whitespace(text[word_len(text) as int]),
    decreases text.len(),
{
    if text.len() > 0 && !whitespace(text[0]) {
        let rest = text.drop_first();
        lemma_word_len(rest);
        assert forall|j: int| 0 <= j < word_len(text) implies !whitespace(#[trigger] text[j]) by {
            if j > 0 {
                assert(text[j] == rest[j - 1]);
            }
        }
        if word_len(text) < text.len() {
            assert(text[word_len(text) as int] == rest[word_len(rest) as int]);
        }
    }
}

/// The text is a word: it is not empty and none of its characters is
/// white space.
pub open spec fn is_word(text: Seq<char>) -> bool {
    text.len() > 0 && forall|j: int| 0 <= j < text.len() ==> !whitespace(#[trigger] text[j])
}

/// A word that stands at the start of a text, with white space or the end
/// of the text behind it, is the first word of the text.
pub proof fn lemma_first_word(word: Seq<char>, rest: Seq<char>)
    requires
        is_word(word),
        rest.len() > 0 ==> whitespace(rest[0]),
    ensures
        word_len(word + rest) == word.len(),
        words(word + rest) == seq![word] + words(rest),
{
    lemma_word_run(word, rest, 0);
    let text = word + rest;
    assert(word.skip(0) == word);
    assert(text[0] == word[0]);
    assert(text.take(word.len() as int) == word);
    assert(text.skip(word.len() as int) == rest);
}

/// The characters of a word from a position on, with what stands behind
/// the word, start with the rest of the word.
proof fn lemma_word_run(word: Seq<char>, rest: Seq<char>, from: int)
    requires
        is_word(word),
        0 <= from <= word.len(),
        rest.len() > 0 ==> whitespace(rest[0]),
    ensures
        word_len(word.skip(from) + rest) == word.len() - from,
    decreases word.len() - from,
{
    let text = word.skip(from) + rest;
    if from < word.len() {
        assert(text[0] == word[from]);
        assert(text.drop_first() == word.skip(from + 1) + rest);
        lemma_word_run(word, rest, from + 1);
    } else {
        assert(text == rest);
    }
}

/// How a command splits. A text made of two words with one character of
/// white space between them has exactly these two words, and a text that
/// is one word has exactly that word.
pub proof fn law_words_split_at_white_space(first: Seq<char>, gap: char, second: Seq<char>)
    requires
        is_word(first),
        is_word(second),
        whitespace(gap),
    ensures
        words(first) == seq![first],
        words(first + seq![gap] + second) == seq![first, second],
{
    let empty = Seq::<char>::empty();
    let tail = seq![gap] + second;
    assert(words(empty) == Seq::<Seq<char>>::empty());
    lemma_first_word(first, empty);
    assert(first + empty == first);
    lemma_first_word(second, empty);
    assert(second + empty == second);
    assert(tail[0] == gap);
    assert(tail.drop_first() == second);
    assert(words(tail) == words(second));
    lemma_first_word(first, tail);
    assert(first + seq![gap] + second == first + tail);
    assert(seq![first] + (seq![second] + Seq::<Seq<char>>::empty()) =~= seq![first, second]);
    assert(seq![first] + Seq::<Seq<char>>::empty() =~= seq![first]);
}

/// The views of the words held in `list`.
pub open spec fn word_views(list: Seq<Vec<char>>) -> Seq<Seq<char>> {
    list.map_values(|w: Vec<char>| w@)
}

/// Splits `text` into its words.
pub fn split_words(text: &Vec<char>) -> (list: Vec<Vec<char>>)
    ensures
        word_views(list@) == words(text@),
{
    let mut list: Vec<Vec<char>> = Vec::new();
    let mut i: usize = 0;
    assert(text@.skip(0) == text@);
    assert(word_views(list@) =~= Seq::<Seq<char>>::empty());
    while i < text.len()
        invariant
            i <= text.len(),
            words(text@) == word_views(list@) + words(text@.skip(i as int)),
        decreases text.len() - i,
    {
        let ghost rest = text@.skip(i as int);
        assert(rest[0] == text@[i as int]);
        if text[i].is_whitespace() {
            assert(rest.drop_first() == text@.skip(i + 1));
            i += 1;
        } else {
            let start = i;
            let mut word: Vec<char> = Vec::new();
            proof {
                lemma_word_len(rest);
            }
            while i < text.len() && !text[i].is_whitespace()
                invariant
                    start <= i <= text.len(),
                    rest == text@.skip(start as int),
                    word@ == text@.subrange(start as int, i as int),
                    word_len(rest) == (i - start) + word_len(text@.skip(i as int)),
                decreases text.len() - i,
            {
                assert(text@.skip(i as int)[0] == text@[i as int]);
                assert(text@.skip(i as int).drop_first() == text@.skip(i + 1));
                word.push(text[i]);
                i += 1;
                assert(text@.subrange(start as int, i as int) == text@.subrange(
                    start as int,
                    i - 1,
                ).push(text@[i - 1]));
            }
            proof {
                if i < text.len() {
                    assert(text@.skip(i as int)[0] == text@[i as int]);
                }
                assert(word_len(text@.skip(i as int)) == 0);
                assert(word_len(rest) == i - start);
                assert(rest.take(i - start) == word@);
                assert(rest.skip(i - start) == text@.skip(i as int));
                assert(words(rest) == seq![word@] + words(text@.skip(i as int)));
                assert(word_views(list@.push(word)) =~= word_views(list@) + seq![word@]);
            }
            list.push(word);
        }
    }
    assert(words(text@.skip(text.len() as int)) =~= Seq::<Seq<char>>::empty());
    list
}

} // verus!
