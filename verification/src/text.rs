//! Text as a sequence of characters.

use vstd::prelude::*;
use vstd::utf8::encode_utf8;
use vstd::utf8::encode_utf8_decode_utf8;

verus! {

/// Assumed of `String::push`, as its documentation says and without proof:
/// it appends the given character to the end of the string.
pub assume_specification[ String::push ](s: &mut String, c: char)
    ensures
        final(s)@ == old(s)@.push(c),
;

/// `pat` stands in `text` at position `at`.
pub open spec fn occurs_at(text: Seq<char>, at: int, pat: Seq<char>) -> bool {
    0 <= at && at + pat.len() <= text.len() && text.subrange(at, at + pat.len()) == pat
}

/// The characters of `s`, in order.
pub fn chars_of(s: &str) -> (chars: Vec<char>)
    ensures
        chars@ == s@,
{
    let mut chars: Vec<char> = Vec::new();
    for c in it: s.chars()
        invariant
            chars@ == it.seq().take(it.index()),
    {
        chars.push(c);
    }
    chars
}

/// The text made of `chars[from..to]`.
pub(crate) fn string_of(chars: &Vec<char>, from: usize, to: usize) -> (s: String)
    requires
        from <= to <= chars@.len(),
    ensures
        s@ == chars@.subrange(from as int, to as int),
{
    let mut s = String::new();
    let mut i: usize = from;
    while i < to
        invariant
            from <= i <= to <= chars@.len(),
            s@ == chars@.subrange(from as int, i as int),
        decreases to - i,
    {
        s.push(chars[i]);
        i += 1;
    }
    s
}

/// Whether `pat` stands in `text` at position `at`.
pub fn matches_at(text: &Vec<char>, at: usize, pat: &Vec<char>) -> (found: bool)
    ensures
        found == occurs_at(text@, at as int, pat@),
{
    if at > text.len() || pat.len() > text.len() - at {
        return false;
    }
    let mut k: usize = 0;
    while k < pat.len()
        invariant
            at + pat@.len() <= text@.len() <= usize::MAX,
            k <= pat@.len(),
            forall|j: int| 0 <= j < k ==> text@[at + j] == pat@[j],
        decreases pat@.len() - k,
    {
        if text[at + k] != pat[k] {
            return false;
        }
        k += 1;
    }
    proof {
        assert(text@.subrange(at as int, at + pat@.len()) =~= pat@);
    }
    true
}

/// Whether two texts hold the same characters.
pub fn same_text(a: &str, b: &str) -> (same: bool)
    ensures
        same == (a@ == b@),
{
    let x = a.as_bytes();
    let y = b.as_bytes();
    proof {
        encode_utf8_decode_utf8(a@);
        encode_utf8_decode_utf8(b@);
    }
    if x.len() != y.len() {
        return false;
    }
    let mut i: usize = 0;
    while i < x.len()
        invariant
            x@.len() == y@.len(),
            x@ == encode_utf8(a@),
            y@ == encode_utf8(b@),
            i <= x@.len(),
            forall|j: int| 0 <= j < i ==> x@[j] == y@[j],
        decreases x@.len() - i,
    {
        if x[i] != y[i] {
            return false;
        }
        i += 1;
    }
    proof {
        assert(x@ =~= y@);
    }
    true
}

/// Position of the first `c` in `text` at or after `from`; the length of
/// `text` if there is none.
pub open spec fn first_at(text: Seq<char>, c: char, from: int) -> int
    decreases text.len() - from,
{
    if from < 0 || from >= text.len() {
        text.len() as int
    } else if text[from] == c {
        from
    } else {
        first_at(text, c, from + 1)
    }
}

/// Where `first_at` points there is a `c`, and there is none before it.
pub proof fn lemma_first_at(text: Seq<char>, c: char, from: int)
    requires
        0 <= from <= text.len(),
    ensures
        from <= first_at(text, c, from) <= text.len(),
        first_at(text, c, from) < text.len() ==> text[first_at(text, c, from)] == c,
        forall|i: int| from <= i < first_at(text, c, from) ==> text[i] != c,
    decreases text.len() - from,
{
    if from < text.len() && text[from] != c {
        lemma_first_at(text, c, from + 1);
    }
}

/// Finds the first `c` in `text` at or after `from`.
pub(crate) fn find_char(text: &Vec<char>, c: char, from: usize) -> (at: usize)
    requires
        from <= text@.len(),
    ensures
        at == first_at(text@, c, from as int),
        from <= at <= text@.len(),
{
    let mut i: usize = from;
    while i < text.len()
        invariant
            from <= i <= text@.len(),
            first_at(text@, c, from as int) == first_at(text@, c, i as int),
        decreases text@.len() - i,
    {
        if text[i] == c {
            return i;
        }
        i += 1;
    }
    i
}

/// `pat` stands somewhere in `text`.
pub open spec fn contains_text(text: Seq<char>, pat: Seq<char>) -> bool {
    exists|i: int| occurs_at(text, i, pat)
}

/// The first position at or after `from` at which `pat` stands in `text`;
/// `-1` when there is none.
pub open spec fn first_match(text: Seq<char>, pat: Seq<char>, from: int) -> int
    decreases text.len() + 1 - from,
{
    if from < 0 || from > text.len() {
        -1
    } else if occurs_at(text, from, pat) {
        from
    } else {
        first_match(text, pat, from + 1)
    }
}

/// `first_match` finds an occurrence exactly when there is one at or after
/// `from`, and then it is the first.
pub proof fn lemma_first_match(text: Seq<char>, pat: Seq<char>, from: int)
    requires
        0 <= from,
    ensures
        first_match(text, pat, from) == -1 || from <= first_match(text, pat, from) <= text.len(),
        first_match(text, pat, from) >= 0 ==> occurs_at(text, first_match(text, pat, from), pat),
        forall|j: int|
            from <= j && (j < first_match(text, pat, from) || first_match(text, pat, from) < 0)
                ==> !occurs_at(text, j, pat),
    decreases text.len() + 1 - from,
{
    if from <= text.len() && !occurs_at(text, from, pat) {
        lemma_first_match(text, pat, from + 1);
    }
}

/// Finds the first place at which `pat` stands in `text`.
pub fn find_text(text: &Vec<char>, pat: &Vec<char>) -> (at: Option<usize>)
    ensures
        match at {
            Some(i) => first_match(text@, pat@, 0) == i,
            None => first_match(text@, pat@, 0) == -1,
        },
        at is Some <==> contains_text(text@, pat@),
{
    let mut i: usize = 0;
    loop
        invariant
            i <= text@.len(),
            first_match(text@, pat@, 0) == first_match(text@, pat@, i as int),
        decreases text@.len() - i,
    {
        proof {
            lemma_first_match(text@, pat@, 0);
        }
        if matches_at(text, i, pat) {
            return Some(i);
        }
        if i >= text.len() {
            assert(first_match(text@, pat@, i + 1) == -1);
            return None;
        }
        i += 1;
    }
}

/// A copy of the characters `text[from..to]`.
pub(crate) fn copy_range(text: &Vec<char>, from: usize, to: usize) -> (part: Vec<char>)
    requires
        from <= to <= text@.len(),
    ensures
        part@ == text@.subrange(from as int, to as int),
{
    let mut part: Vec<char> = Vec::new();
    let mut i: usize = from;
    while i < to
        invariant
            from <= i <= to <= text@.len(),
            part@ == text@.subrange(from as int, i as int),
        decreases to - i,
    {
        part.push(text[i]);
        i += 1;
    }
    part
}

/// A whitespace character: one with the Unicode property `White_Space`.
pub open spec fn is_space(c: char) -> bool {
    let code = c as u32;
    ||| 0x09 <= code <= 0x0D
    ||| code == 0x20
    ||| code == 0x85
    ||| code == 0xA0
    ||| code == 0x1680
    ||| 0x2000 <= code <= 0x200A
    ||| code == 0x2028
    ||| code == 0x2029
    ||| code == 0x202F
    ||| code == 0x205F
    ||| code == 0x3000
}

/// Whether `c` is a whitespace character.
pub fn is_space_char(c: char) -> (yes: bool)
    ensures
        yes == is_space(c),
{
    let code = c as u32;
    (0x09 <= code && code <= 0x0D) || code == 0x20 || code == 0x85 || code == 0xA0 || code
        == 0x1680 || (0x2000 <= code && code <= 0x200A) || code == 0x2028 || code == 0x2029
        || code == 0x202F || code == 0x205F || code == 0x3000
}

/// The first position at or after `from` that holds no whitespace.
pub open spec fn skip_spaces(text: Seq<char>, from: int) -> int
    decreases text.len() - from,
{
    if 0 <= from < text.len() && is_space(text[from]) {
        skip_spaces(text, from + 1)
    } else {
        from
    }
}

/// The end of `text[..to]` once the whitespace at its end is taken off.
pub open spec fn strip_end(text: Seq<char>, to: int) -> int
    decreases to,
{
    if 0 < to <= text.len() && is_space(text[to - 1]) {
        strip_end(text, to - 1)
    } else {
        to
    }
}

/// `text` without the whitespace at its beginning and at its end.
pub open spec fn trim(text: Seq<char>) -> Seq<char> {
    if skip_spaces(text, 0) < strip_end(text, text.len() as int) {
        text.subrange(skip_spaces(text, 0), strip_end(text, text.len() as int))
    } else {
        Seq::empty()
    }
}

/// The first position at or after `from` that holds whitespace.
pub open spec fn token_end(text: Seq<char>, from: int) -> int
    decreases text.len() - from,
{
    if 0 <= from < text.len() && !is_space(text[from]) {
        token_end(text, from + 1)
    } else {
        from
    }
}

/// The first run of characters of `text` that holds no whitespace; empty when
/// `text` is all whitespace.
pub open spec fn first_token(text: Seq<char>) -> Seq<char> {
    text.subrange(skip_spaces(text, 0), token_end(text, skip_spaces(text, 0)))
}

/// `skip_spaces` stays within the text and stops at the first character that
/// is no whitespace.
pub proof fn lemma_skip_spaces(text: Seq<char>, from: int)
    requires
        0 <= from <= text.len(),
    ensures
        from <= skip_spaces(text, from) <= text.len(),
        skip_spaces(text, from) < text.len() ==> !is_space(text[skip_spaces(text, from)]),
        forall|j: int| from <= j < skip_spaces(text, from) ==> is_space(text[j]),
    decreases text.len() - from,
{
    if from < text.len() && is_space(text[from]) {
        lemma_skip_spaces(text, from + 1);
    }
}

/// `strip_end` stays within the text and stops after the last character that
/// is no whitespace.
pub proof fn lemma_strip_end(text: Seq<char>, to: int)
    requires
        0 <= to <= text.len(),
    ensures
        0 <= strip_end(text, to) <= to,
        strip_end(text, to) > 0 ==> !is_space(text[strip_end(text, to) - 1]),
        forall|j: int| strip_end(text, to) <= j < to ==> is_space(text[j]),
    decreases to,
{
    if 0 < to && is_space(text[to - 1]) {
        lemma_strip_end(text, to - 1);
    }
}

/// `token_end` stays within the text and stops at the first whitespace.
pub proof fn lemma_token_end(text: Seq<char>, from: int)
    requires
        0 <= from <= text.len(),
    ensures
        from <= token_end(text, from) <= text.len(),
        token_end(text, from) < text.len() ==> is_space(text[token_end(text, from)]),
        forall|j: int| from <= j < token_end(text, from) ==> !is_space(text[j]),
    decreases text.len() - from,
{
    if from < text.len() && !is_space(text[from]) {
        lemma_token_end(text, from + 1);
    }
}

/// A trimmed text neither begins nor ends with whitespace.
pub proof fn lemma_trim(text: Seq<char>)
    ensures
        trim(text).len() > 0 ==> !is_space(trim(text).first()) && !is_space(trim(text).last()),
        trim(text).len() <= text.len(),
{
    lemma_skip_spaces(text, 0);
    lemma_strip_end(text, text.len() as int);
}

/// Copies `text` without the whitespace at its beginning and at its end.
pub fn trim_chars(text: &Vec<char>) -> (trimmed: Vec<char>)
    ensures
        trimmed@ == trim(text@),
{
    let mut a: usize = 0;
    while a < text.len() && is_space_char(text[a])
        invariant
            a <= text@.len(),
            skip_spaces(text@, 0) == skip_spaces(text@, a as int),
        decreases text@.len() - a,
    {
        a += 1;
    }
    let mut b: usize = text.len();
    while b > 0 && is_space_char(text[b - 1])
        invariant
            b <= text@.len(),
            strip_end(text@, text@.len() as int) == strip_end(text@, b as int),
        decreases b,
    {
        b -= 1;
    }
    if a < b {
        copy_range(text, a, b)
    } else {
        Vec::new()
    }
}

/// Copies the first run of characters of `text` that holds no whitespace.
pub fn first_token_chars(text: &Vec<char>) -> (token: Vec<char>)
    ensures
        token@ == first_token(text@),
{
    let mut a: usize = 0;
    while a < text.len() && is_space_char(text[a])
        invariant
            a <= text@.len(),
            skip_spaces(text@, 0) == skip_spaces(text@, a as int),
        decreases text@.len() - a,
    {
        a += 1;
    }
    let mut b: usize = a;
    while b < text.len() && !is_space_char(text[b])
        invariant
            a <= b <= text@.len(),
            token_end(text@, a as int) == token_end(text@, b as int),
        decreases text@.len() - b,
    {
        b += 1;
    }
    copy_range(text, a, b)
}

/// `text` with every occurrence of `from` replaced by `to`. Occurrences are
/// found from left to right and do not overlap. An empty `from` replaces
/// nothing.
pub open spec fn replaced(text: Seq<char>, from: Seq<char>, to: Seq<char>) -> Seq<char>
    decreases text.len(),
{
    if from.len() == 0 || text.len() == 0 {
        text
    } else if occurs_at(text, 0, from) {
        to + replaced(text.skip(from.len() as int), from, to)
    } else {
        seq![text[0]] + replaced(text.skip(1), from, to)
    }
}

/// Copies `text` with every occurrence of `from` replaced by `to`.
pub fn replace_all(text: &Vec<char>, from: &Vec<char>, to: &Vec<char>) -> (out: Vec<char>)
    ensures
        out@ == replaced(text@, from@, to@),
{
    if from.len() == 0 {
        return copy_range(text, 0, text.len());
    }
    let mut out: Vec<char> = Vec::new();
    let mut i: usize = 0;
    proof {
        assert(text@.skip(0) =~= text@);
    }
    while i < text.len()
        invariant
            i <= text@.len(),
            from@.len() > 0,
            out@ + replaced(text@.skip(i as int), from@, to@) == replaced(text@, from@, to@),
        decreases text@.len() - i,
    {
        let ghost rest = text@.skip(i as int);
        let ghost before = out@;
        if matches_at(text, i, from) {
            proof {
                assert(rest.subrange(0, from@.len() as int) =~= text@.subrange(
                    i as int,
                    i + from@.len(),
                ));
                assert(rest.skip(from@.len() as int) =~= text@.skip(i + from@.len()));
            }
            let mut k: usize = 0;
            while k < to.len()
                invariant
                    k <= to@.len(),
                    out@ == before + to@.take(k as int),
                decreases to@.len() - k,
            {
                out.push(to[k]);
                k += 1;
            }
            i += from.len();
        } else {
            proof {
                assert(!occurs_at(rest, 0, from@)) by {
                    if occurs_at(rest, 0, from@) {
                        assert(rest.subrange(0, from@.len() as int) =~= text@.subrange(
                            i as int,
                            i + from@.len(),
                        ));
                    }
                }
                assert(rest.skip(1) =~= text@.skip(i + 1));
            }
            out.push(text[i]);
            i += 1;
        }
    }
    out
}

} // verus!
