//! Rules for the names of applications and keys and for the addresses of git
//! repositories.

use crate::text::chars_of;
use crate::text::matches_at;
use crate::text::occurs_at;
use crate::text::string_of;
use vstd::prelude::*;
use vstd::utf8::encode_utf8;

verus! {

/// Why a name is rejected.
#[derive(Clone, Copy, Debug, PartialEq, Eq, Structural)]
pub enum NameError {
    /// The name is shorter than two bytes.
    TooShort,
    /// The name holds a character other than a lowercase letter, a digit or a
    /// hyphen.
    ForbiddenCharacter,
    /// The name begins or ends with a hyphen.
    EdgeHyphen,
}

/// A lowercase ASCII letter, an ASCII digit or a hyphen.
pub open spec fn is_name_char(c: char) -> bool {
    ||| 0x61 <= c as u32 <= 0x7A
    ||| 0x30 <= c as u32 <= 0x39
    ||| c == '-'
}

/// The first rule that `name` breaks, or nothing when it breaks none. A name
/// has at least two bytes, holds only lowercase letters, digits and hyphens,
/// and neither begins nor ends with a hyphen.
pub open spec fn name_violation(name: Seq<char>) -> Option<NameError> {
    if encode_utf8(name).len() < 2 {
        Some(NameError::TooShort)
    } else if exists|i: int| 0 <= i < name.len() && !is_name_char(#[trigger] name[i]) {
        Some(NameError::ForbiddenCharacter)
    } else if name.len() > 0 && (name.first() == '-' || name.last() == '-') {
        Some(NameError::EdgeHyphen)
    } else {
        None
    }
}

/// Checks a name against the rules.
pub fn check_name(name: &str) -> (checked: Result<(), NameError>)
    ensures
        match checked {
            Ok(_) => name_violation(name@) is None,
            Err(e) => name_violation(name@) == Some(e),
        },
{
    if name.as_bytes().len() < 2 {
        return Err(NameError::TooShort);
    }
    let chars = chars_of(name);
    let mut i: usize = 0;
    while i < chars.len()
        invariant
            i <= chars@.len(),
            chars@ == name@,
            encode_utf8(name@).len() >= 2,
            forall|j: int| 0 <= j < i ==> is_name_char(#[trigger] chars@[j]),
        decreases chars@.len() - i,
    {
        let c = chars[i];
        let code = c as u32;
        let allowed = (0x61 <= code && code <= 0x7A) || (0x30 <= code && code <= 0x39) || c == '-';
        if !allowed {
            return Err(NameError::ForbiddenCharacter);
        }
        i += 1;
    }
    if chars.len() > 0 && (chars[0] == '-' || chars[chars.len() - 1] == '-') {
        return Err(NameError::EdgeHyphen);
    }
    Ok(())
}

/// What is said of a key name that breaks a rule.
pub open spec fn key_name_message(e: NameError) -> Seq<char> {
    match e {
        NameError::TooShort => "key name must be at least 2 characters"@,
        NameError::ForbiddenCharacter =>
            "key name must contain only lowercase letters, digits, and hyphens"@,
        NameError::EdgeHyphen => "key name must not start or end with a hyphen"@,
    }
}

/// What is said of an application identifier that breaks a rule.
pub open spec fn app_id_message(e: NameError) -> Seq<char> {
    match e {
        NameError::TooShort => "app_id must be at least 2 characters"@,
        NameError::ForbiddenCharacter =>
            "app_id must contain only lowercase letters, digits, and hyphens"@,
        NameError::EdgeHyphen => "app_id must not start or end with a hyphen"@,
    }
}

/// Accepts the name of a key, or says which rule it breaks.
pub fn validate_key_name(name: &str) -> (checked: Result<(), String>)
    ensures
        match checked {
            Ok(_) => name_violation(name@) is None,
            Err(msg) => name_violation(name@) matches Some(e) && msg@ == key_name_message(e),
        },
{
    match check_name(name) {
        Ok(_) => Ok(()),
        Err(NameError::TooShort) => Err("key name must be at least 2 characters".to_owned()),
        Err(NameError::ForbiddenCharacter) => Err(
            "key name must contain only lowercase letters, digits, and hyphens".to_owned(),
        ),
        Err(NameError::EdgeHyphen) => Err(
            "key name must not start or end with a hyphen".to_owned(),
        ),
    }
}

/// Accepts the identifier of an application, or says which rule it breaks.
pub fn validate_app_id(id: &str) -> (checked: Result<(), String>)
    ensures
        match checked {
            Ok(_) => name_violation(id@) is None,
            Err(msg) => name_violation(id@) matches Some(e) && msg@ == app_id_message(e),
        },
{
    match check_name(id) {
        Ok(_) => Ok(()),
        Err(NameError::TooShort) => Err("app_id must be at least 2 characters".to_owned()),
        Err(NameError::ForbiddenCharacter) => Err(
            "app_id must contain only lowercase letters, digits, and hyphens".to_owned(),
        ),
        Err(NameError::EdgeHyphen) => Err("app_id must not start or end with a hyphen".to_owned()),
    }
}

/// The address of a repository begins with `git@` or with `https://`.
pub open spec fn is_git_url(url: Seq<char>) -> bool {
    "git@"@.is_prefix_of(url) || "https://"@.is_prefix_of(url)
}

/// Accepts the address of a git repository, or says what it must begin with.
pub fn validate_git_url(url: &str) -> (checked: Result<(), String>)
    ensures
        match checked {
            Ok(_) => is_git_url(url@),
            Err(msg) => !is_git_url(url@) && msg@ == "URL must start with 'git@' or 'https://'"@,
        },
{
    let chars = chars_of(url);
    let ssh = chars_of("git@");
    let web = chars_of("https://");
    if matches_at(&chars, 0, &ssh) || matches_at(&chars, 0, &web) {
        Ok(())
    } else {
        Err("URL must start with 'git@' or 'https://'".to_owned())
    }
}

/// The position just after the last `c` in `text`; zero when there is none.
pub open spec fn after_last_index(text: Seq<char>, c: char) -> int
    decreases text.len(),
{
    if text.len() == 0 {
        0
    } else if text.last() == c {
        text.len() as int
    } else {
        after_last_index(text.drop_last(), c)
    }
}

/// What follows the last `c` in `text`; all of `text` when there is none.
pub open spec fn after_last(text: Seq<char>, c: char) -> Seq<char> {
    text.skip(after_last_index(text, c))
}

/// `text` without the ending `suffix`, or `text` itself when it does not end so.
pub open spec fn without_suffix(text: Seq<char>, suffix: Seq<char>) -> Seq<char> {
    if occurs_at(text, text.len() - suffix.len(), suffix) {
        text.take(text.len() - suffix.len())
    } else {
        text
    }
}

/// The name of the repository at `url` before its letters are lowered: what
/// follows the last `/` and, in that, the last `:`, without a final `.git`.
pub open spec fn repo_stem(url: Seq<char>) -> Seq<char> {
    without_suffix(after_last(after_last(url, '/'), ':'), ".git"@)
}

/// The lowercase form that `str::to_lowercase` gives a text.
pub uninterp spec fn lowercase_of(text: Seq<char>) -> Seq<char>;

/// Calls `str::to_lowercase`. Assumed without proof: what it returns depends
/// on the text alone, so it can be named; the name is [`lowercase_of`].
#[verifier::external_body]
fn to_lowercase(text: &str) -> (lower: String)
    ensures
        lower@ == lowercase_of(text@),
{
    text.to_lowercase()
}

/// `k` is the position just after the last `c`.
proof fn lemma_after_last_index(text: Seq<char>, c: char, k: int)
    requires
        0 <= k <= text.len(),
        k == 0 || text[k - 1] == c,
        forall|j: int| k <= j < text.len() ==> text[j] != c,
    ensures
        after_last_index(text, c) == k,
    decreases text.len(),
{
    if text.len() > 0 && text.last() != c {
        lemma_after_last_index(text.drop_last(), c, k);
    }
}

/// Copies what follows the last `c` in `text`.
fn tail_after_last(text: &Vec<char>, c: char) -> (tail: Vec<char>)
    ensures
        tail@ == after_last(text@, c),
{
    let mut start: usize = text.len();
    while start > 0 && text[start - 1] != c
        invariant
            start <= text@.len(),
            forall|j: int| start <= j < text@.len() ==> text@[j] != c,
        decreases start,
    {
        start -= 1;
    }
    proof {
        lemma_after_last_index(text@, c, start as int);
    }
    let mut tail: Vec<char> = Vec::new();
    let mut i: usize = start;
    while i < text.len()
        invariant
            start <= i <= text@.len(),
            tail@ == text@.subrange(start as int, i as int),
        decreases text@.len() - i,
    {
        tail.push(text[i]);
        i += 1;
    }
    tail
}

/// Finds the name of the repository at `url`, before its letters are lowered.
pub fn find_repo_stem(url: &str) -> (stem: String)
    ensures
        stem@ == repo_stem(url@),
{
    let chars = chars_of(url);
    let segment = tail_after_last(&chars, '/');
    let name = tail_after_last(&segment, ':');
    let suffix = chars_of(".git");
    let end = if name.len() >= suffix.len() && matches_at(
        &name,
        name.len() - suffix.len(),
        &suffix,
    ) {
        name.len() - suffix.len()
    } else {
        name.len()
    };
    string_of(&name, 0, end)
}

/// The name of the repository that a git address points to, in lowercase:
/// `git@github.com:org/my-app.git` and `https://github.com/org/my-app.git`
/// both give `my-app`. An address that names nothing gives nothing.
pub fn extract_repo_name(url: &str) -> (name: Option<String>)
    ensures
        match name {
            Some(text) => repo_stem(url@).len() > 0 && text@ == lowercase_of(repo_stem(url@)),
            None => repo_stem(url@).len() == 0,
        },
{
    let stem = find_repo_stem(url);
    if stem.as_str().is_empty() {
        None
    } else {
        Some(to_lowercase(stem.as_str()))
    }
}

} // verus!
