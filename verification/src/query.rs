//! Parameters of a URL query string.

use crate::text::chars_of;
use crate::text::find_char;
use crate::text::first_at;
use crate::text::lemma_first_at;
use crate::text::string_of;
use vstd::prelude::*;

verus! {

/// What `urlencoding::decode` makes of a text: the text with every `%XX`
/// escape replaced by the byte it stands for, or nothing when the bytes that
/// result are not valid UTF-8.
pub uninterp spec fn percent_decoded(text: Seq<char>) -> Option<Seq<char>>;

/// Calls `urlencoding::decode`. Assumed without proof: what it returns
/// depends on the text alone, so it can be named; the name is
/// [`percent_decoded`]. An `Err` is handed on as `None`.
#[verifier::external_body]
fn decode_component(value: &str) -> (decoded: Option<String>)
    ensures
        match decoded {
            Some(text) => percent_decoded(value@) == Some(text@),
            None => percent_decoded(value@) is None,
        },
{
    match urlencoding::decode(value) {
        Ok(text) => Some(text.into_owned()),
        Err(_) => None,
    }
}

/// The key of a `key=value` pair: what stands before the first `=`.
pub open spec fn pair_key(pair: Seq<char>) -> Seq<char> {
    pair.take(first_at(pair, '=', 0))
}

/// The value of a `key=value` pair: what stands after the first `=`, or
/// nothing when the pair has no `=`.
pub open spec fn pair_value(pair: Seq<char>) -> Seq<char> {
    if first_at(pair, '=', 0) < pair.len() {
        pair.skip(first_at(pair, '=', 0) + 1)
    } else {
        Seq::empty()
    }
}

/// The pair of `query` that begins at `from` and ends before the next `&`.
pub open spec fn pair_at(query: Seq<char>, from: int) -> Seq<char> {
    query.subrange(from, first_at(query, '&', from))
}

/// The value, still encoded, of the first pair at or after position `from`
/// whose key is `param`. Pairs are separated by `&`.
pub open spec fn raw_param_from(query: Seq<char>, param: Seq<char>, from: int) -> Option<
    Seq<char>,
>
    decreases query.len() - from,
{
    if from < 0 || from > query.len() {
        None
    } else if pair_key(pair_at(query, from)) == param {
        Some(pair_value(pair_at(query, from)))
    } else if first_at(query, '&', from) >= query.len() {
        None
    } else {
        proof {
            lemma_first_at(query, '&', from);
        }
        raw_param_from(query, param, first_at(query, '&', from) + 1)
    }
}

/// The value, still encoded, of the first pair of `query` whose key is `param`.
pub open spec fn raw_param(query: Seq<char>, param: Seq<char>) -> Option<Seq<char>> {
    raw_param_from(query, param, 0)
}

/// What a parameter's value is once decoding has been tried: the decoded
/// text, or the empty text when the value could not be decoded.
pub open spec fn decoded_or_empty(decoded: Option<Seq<char>>) -> Seq<char> {
    match decoded {
        Some(text) => text,
        None => Seq::empty(),
    }
}

/// Whether the characters `text[from..to]` are exactly `other`.
fn range_equals(text: &Vec<char>, from: usize, to: usize, other: &Vec<char>) -> (same: bool)
    requires
        from <= to <= text@.len(),
    ensures
        same == (text@.subrange(from as int, to as int) == other@),
{
    if to - from != other.len() {
        return false;
    }
    let ghost part = text@.subrange(from as int, to as int);
    let mut k: usize = 0;
    while k < other.len()
        invariant
            from <= to <= text@.len(),
            to - from == other@.len(),
            part == text@.subrange(from as int, to as int),
            k <= other@.len(),
            forall|j: int| 0 <= j < k ==> part[j] == other@[j],
        decreases other@.len() - k,
    {
        if text[from + k] != other[k] {
            return false;
        }
        k += 1;
    }
    assert(part =~= other@);
    true
}

/// Finds the first pair of `query` whose key is `param` and returns its
/// value as it stands in the query, without decoding it.
pub fn find_raw_param(query: &str, param: &str) -> (value: Option<String>)
    ensures
        match value {
            Some(text) => raw_param(query@, param@) == Some(text@),
            None => raw_param(query@, param@) is None,
        },
{
    let text = chars_of(query);
    let wanted = chars_of(param);
    let mut from: usize = 0;
    loop
        invariant
            text@ == query@,
            wanted@ == param@,
            from <= text@.len(),
            raw_param(query@, param@) == raw_param_from(query@, param@, from as int),
        decreases text@.len() - from,
    {
        let end = find_char(&text, '&', from);
        let ghost pair = pair_at(text@, from as int);
        // The first `=` of the pair, found without looking past its end.
        let mut eq: usize = from;
        while eq < end && text[eq] != '='
            invariant
                from <= eq <= end <= text@.len(),
                pair == text@.subrange(from as int, end as int),
                first_at(pair, '=', 0) == first_at(pair, '=', eq - from),
            decreases end - eq,
        {
            eq += 1;
        }
        proof {
            assert(pair.take(eq - from) =~= text@.subrange(from as int, eq as int));
        }
        if range_equals(&text, from, eq, &wanted) {
            let value = if eq < end {
                string_of(&text, eq + 1, end)
            } else {
                String::new()
            };
            return Some(value);
        }
        if end >= text.len() {
            return None;
        }
        from = end + 1;
    }
}

/// The value of a parameter once decoding has been tried: the decoded text,
/// or the empty text when there is none.
pub fn value_or_empty(decoded: Option<String>) -> (value: String)
    ensures
        value@ == decoded_or_empty(
            match decoded {
                Some(text) => Some(text@),
                None => None,
            },
        ),
{
    match decoded {
        Some(text) => text,
        None => String::new(),
    }
}

/// Looks up the parameter `param` in a URL query string.
///
/// Pairs are separated by `&`, a key ends at the first `=`, and the first
/// pair with the wanted key decides. Its value is percent-decoded; a value
/// that cannot be decoded counts as empty.
pub fn get_query_param(query: &str, param: &str) -> (value: Option<String>)
    ensures
        match value {
            Some(text) => raw_param(query@, param@) matches Some(raw) && text@ == decoded_or_empty(
                percent_decoded(raw),
            ),
            None => raw_param(query@, param@) is None,
        },
{
    match find_raw_param(query, param) {
        Some(raw) => Some(value_or_empty(decode_component(raw.as_str()))),
        None => None,
    }
}

} // verus!
