//! Finding the port that a managed process listens on in a line of its
//! output.
//!
//! A line names a port only if it carries no failure word and at least one
//! readiness word. The port is then looked for in three places, in this
//! order: right after `localhost:` or `127.0.0.1:`; for a line that speaks
//! of listening or serving, right after its last colon; and for a line that
//! speaks of a port, at the start of the word that follows the word `port`.
//! Only a number strictly between 1024 and 65536 is a port.

use crate::text::{
    chars_of, contains, contains_word, decimal_value, digit_run, find, first_occurrence,
    is_ascii_digit, last_position, lowercase_of, rfind_char, same_chars,
    split_words, string_of, word_views, words,
};
use vstd::prelude::*;

verus! {

/// The port written at the very start of `text`: the number of its leading
/// decimal digits, where there is at least one digit and the number lies
/// strictly between 1024 and 65536.
pub open spec fn port_at_start(text: Seq<char>) -> Option<i32> {
    let digits = text.take(digit_run(text) as int);
    let value = decimal_value(digits);
    if digits.len() > 0 && 1024 < value < 65536 {
        Some(value as i32)
    } else {
        None
    }
}

/// The line (in lower case) carries a word that marks a failure report.
pub open spec fn has_failure_word(lowered: Seq<char>) -> bool {
    ||| contains(lowered, "error"@)
    ||| contains(lowered, "failed"@)
    ||| contains(lowered, "refused"@)
    ||| contains(lowered, "dial"@)
    ||| contains(lowered, "connect"@)
}

/// The line (in lower case) carries a word that marks a server as ready.
pub open spec fn has_ready_word(lowered: Seq<char>) -> bool {
    ||| contains(lowered, "listening"@)
    ||| contains(lowered, "started"@)
    ||| contains(lowered, "ready"@)
    ||| contains(lowered, "running"@)
    ||| contains(lowered, "serving"@)
    ||| contains(lowered, "local:"@)
    ||| contains(lowered, "localhost"@)
    ||| contains(lowered, "127.0.0.1"@)
}

/// The line (in lower case) speaks of listening or serving.
pub open spec fn speaks_of_listening(lowered: Seq<char>) -> bool {
    contains(lowered, "listening"@) || contains(lowered, "serving"@)
}

/// The port written right after the first occurrence of `marker` in `line`.
pub open spec fn port_after_marker(line: Seq<char>, marker: Seq<char>) -> Option<i32> {
    match first_occurrence(line, marker) {
        Some(at) => port_at_start(line.skip(at + marker.len())),
        None => None,
    }
}

/// The port written right after the last colon of `line`.
pub open spec fn port_after_last_colon(line: Seq<char>) -> Option<i32> {
    match last_position(line, ':') {
        Some(at) => port_at_start(line.skip(at + 1)),
        None => None,
    }
}

/// The port at the start of the word after the first word, from position
/// `from` on, that reads `port` in lower case and is followed by a word
/// that starts with a port.
pub open spec fn port_after_port_word(
    line_words: Seq<Seq<char>>,
    lowered_words: Seq<Seq<char>>,
    from: int,
) -> Option<i32>
    decreases line_words.len() - from,
{
    if from < 0 || from + 1 >= line_words.len() {
        None
    } else if from < lowered_words.len() && lowered_words[from] == "port"@ && port_at_start(
        line_words[from + 1],
    ) is Some {
        port_at_start(line_words[from + 1])
    } else {
        port_after_port_word(line_words, lowered_words, from + 1)
    }
}

/// The port that a line announces. `lowered` is the line in lower case and
/// `lowered_words` holds the words of the line, each in lower case.
pub open spec fn port_in_line(
    line: Seq<char>,
    lowered: Seq<char>,
    lowered_words: Seq<Seq<char>>,
) -> Option<i32> {
    if has_failure_word(lowered) || !has_ready_word(lowered) {
        None
    } else if port_after_marker(line, "localhost:"@) is Some {
        port_after_marker(line, "localhost:"@)
    } else if port_after_marker(line, "127.0.0.1:"@) is Some {
        port_after_marker(line, "127.0.0.1:"@)
    } else if speaks_of_listening(lowered) && port_after_last_colon(line) is Some {
        port_after_last_colon(line)
    } else if contains(lowered, "port"@) {
        port_after_port_word(words(line), lowered_words, 0)
    } else {
        None
    }
}

/// The words of `line`, each in lower case.
pub open spec fn lowered_words_of(line: Seq<char>) -> Seq<Seq<char>> {
    words(line).map_values(|w: Seq<char>| lowercase_of(w))
}

/// Every port that [`port_at_start`] yields lies strictly between 1024 and
/// 65536.
pub proof fn law_port_in_range(text: Seq<char>)
    ensures
        port_at_start(text) matches Some(port) ==> 1024 < port < 65536,
{
}

/// Whatever a line announces is a port strictly between 1024 and 65536.
pub proof fn law_detected_port_in_range(
    line: Seq<char>,
    lowered: Seq<char>,
    lowered_words: Seq<Seq<char>>,
)
    ensures
        port_in_line(line, lowered, lowered_words) matches Some(port) ==> 1024 < port < 65536,
{
    lemma_port_word_in_range(words(line), lowered_words, 0);
}

/// Whatever follows the word `port` is a port strictly between 1024 and
/// 65536.
pub proof fn lemma_port_word_in_range(
    line_words: Seq<Seq<char>>,
    lowered_words: Seq<Seq<char>>,
    from: int,
)
    ensures
        port_after_port_word(line_words, lowered_words, from) matches Some(port) ==> 1024 < port
            < 65536,
    decreases line_words.len() - from,
{
    if !(from < 0 || from + 1 >= line_words.len()) {
        lemma_port_word_in_range(line_words, lowered_words, from + 1);
    }
}

/// Reads the port written in `text` at position `from`.
pub fn read_port(text: &Vec<char>, from: usize) -> (port: Option<i32>)
    requires
        from <= text.len(),
    ensures
        port == port_at_start(text@.skip(from as int)),
{
    let ghost tail = text@.skip(from as int);
    let mut i: usize = from;
    let mut value: u32 = 0;
    let mut too_large = false;
    assert(text@.subrange(from as int, from as int) =~= Seq::<char>::empty());
    while i < text.len() && is_ascii_digit(text[i])
        invariant
            from <= i <= text.len(),
            tail == text@.skip(from as int),
            digit_run(tail) == (i - from) + digit_run(text@.skip(i as int)),
            !too_large ==> value == decimal_value(text@.subrange(from as int, i as int)) && value
                < 65536,
            too_large ==> decimal_value(text@.subrange(from as int, i as int)) >= 65536,
        decreases text.len() - i,
    {
        let digit: u32 = text[i] as u32 - '0' as u32;
        proof {
            let longer = text@.subrange(from as int, i + 1);
            assert(longer.drop_last() == text@.subrange(from as int, i as int));
            assert(longer.last() == text@[i as int]);
            assert(text@.skip(i as int)[0] == text@[i as int]);
            assert(text@.skip(i as int).drop_first() == text@.skip(i + 1));
        }
        if !too_large {
            value = value * 10 + digit;
            if value >= 65536 {
                too_large = true;
            }
        }
        i += 1;
    }
    proof {
        if i < text.len() {
            assert(text@.skip(i as int)[0] == text@[i as int]);
        }
        assert(digit_run(text@.skip(i as int)) == 0);
        assert(tail.take(i - from) == text@.subrange(from as int, i as int));
    }
    if i > from && !too_large && value > 1024 {
        Some(value as i32)
    } else {
        None
    }
}

/// Reads the port written right after the first occurrence of `marker`.
pub fn read_port_after_marker(line: &Vec<char>, marker: &str) -> (port: Option<i32>)
    ensures
        port == port_after_marker(line@, marker@),
{
    let needle = chars_of(marker);
    match find(line, &needle) {
        Some(at) => read_port(line, at + needle.len()),
        None => None,
    }
}

/// Reads the port written right after the last colon.
pub fn read_port_after_last_colon(line: &Vec<char>) -> (port: Option<i32>)
    ensures
        port == port_after_last_colon(line@),
{
    match rfind_char(line, ':') {
        Some(at) => read_port(line, at + 1),
        None => None,
    }
}

/// Reads the port that follows the word `port`.
pub fn read_port_after_port_word(line_words: &Vec<Vec<char>>, lowered_words: &Vec<Vec<char>>) -> (port:
    Option<i32>)
    ensures
        port == port_after_port_word(word_views(line_words@), word_views(lowered_words@), 0),
{
    let port_word = chars_of("port");
    let mut i: usize = 0;
    while i < line_words.len() && line_words.len() - i > 1
        invariant
            i <= line_words.len(),
            port_word@ == "port"@,
            port_after_port_word(word_views(line_words@), word_views(lowered_words@), 0)
                == port_after_port_word(
                word_views(line_words@),
                word_views(lowered_words@),
                i as int,
            ),
        decreases line_words.len() - i,
    {
        if i < lowered_words.len() && same_chars(&lowered_words[i], &port_word) {
            let next = &line_words[i + 1];
            let found = read_port(next, 0);
            assert(next@.skip(0) == next@);
            if found.is_some() {
                return found;
            }
        }
        i += 1;
    }
    None
}

/// The port that a line announces, given the line, the line in lower case
/// and the words of the line in lower case.
pub fn detect_port_in(line: &Vec<char>, lowered: &Vec<char>, lowered_words: &Vec<Vec<char>>) -> (port:
    Option<i32>)
    ensures
        port == port_in_line(line@, lowered@, word_views(lowered_words@)),
{
    if contains_word(lowered, "error") || contains_word(lowered, "failed") || contains_word(
        lowered,
        "refused",
    ) || contains_word(lowered, "dial") || contains_word(lowered, "connect") {
        return None;
    }
    let ready = contains_word(lowered, "listening") || contains_word(lowered, "started")
        || contains_word(lowered, "ready") || contains_word(lowered, "running") || contains_word(
        lowered,
        "serving",
    ) || contains_word(lowered, "local:") || contains_word(lowered, "localhost") || contains_word(
        lowered,
        "127.0.0.1",
    );
    if !ready {
        return None;
    }
    let by_name = read_port_after_marker(line, "localhost:");
    if by_name.is_some() {
        return by_name;
    }
    let by_address = read_port_after_marker(line, "127.0.0.1:");
    if by_address.is_some() {
        return by_address;
    }
    if contains_word(lowered, "listening") || contains_word(lowered, "serving") {
        let by_colon = read_port_after_last_colon(line);
        if by_colon.is_some() {
            return by_colon;
        }
    }
    if contains_word(lowered, "port") {
        let line_words = split_words(line);
        return read_port_after_port_word(&line_words, lowered_words);
    }
    None
}

/// The lower-case form of each word of `line_words`.
pub fn lower_words(line_words: &Vec<Vec<char>>) -> (lowered: Vec<Vec<char>>)
    ensures
        word_views(lowered@) == word_views(line_words@).map_values(
            |w: Seq<char>| lowercase_of(w),
        ),
{
    let mut lowered: Vec<Vec<char>> = Vec::new();
    let mut i: usize = 0;
    while i < line_words.len()
        invariant
            i <= line_words.len(),
            lowered.len() == i,
            forall|j: int| 0 <= j < i ==> (#[trigger] lowered@[j])@ == lowercase_of(line_words@[j]@),
        decreases line_words.len() - i,
    {
        let word = string_of(&line_words[i]);
        let low = word.as_str().to_lowercase();
        lowered.push(chars_of(low.as_str()));
        i += 1;
    }
    assert(word_views(lowered@) =~= word_views(line_words@).map_values(
        |w: Seq<char>| lowercase_of(w),
    ));
    lowered
}

/// The port that a line of process output announces, if it announces one.
pub fn detect_port(line: &str) -> (port: Option<i32>)
    ensures
        port == port_in_line(line@, lowercase_of(line@), lowered_words_of(line@)),
        port matches Some(p) ==> 1024 < p < 65536,
{
    proof {
        law_detected_port_in_range(line@, lowercase_of(line@), lowered_words_of(line@));
    }
    let chars = chars_of(line);
    let lowered_line = line.to_lowercase();
    let lowered = chars_of(lowered_line.as_str());
    let line_words = split_words(&chars);
    let lowered_words = lower_words(&line_words);
    detect_port_in(&chars, &lowered, &lowered_words)
}

} // verus!
