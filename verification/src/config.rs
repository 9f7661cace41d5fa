//! The configuration of a run and the checks it must pass before any load is
//! generated.

use crate::scenario::find_test;
use crate::scenario::is_known;
use crate::text::chars_of;
use crate::text::find_char;
use crate::text::first_at;
use crate::text::matches_at;
use crate::text::string_of;
use vstd::prelude::*;

verus! {

/// A user name and a password for basic authentication.
#[derive(Debug)]
pub struct Credentials {
    pub user: String,
    pub pass: String,
}

impl Credentials {
    /// An independent copy of these credentials.
    pub fn duplicate(&self) -> (copy: Credentials)
        ensures
            copy.user@ == self.user@,
            copy.pass@ == self.pass@,
    {
        Credentials { user: self.user.clone(), pass: self.pass.clone() }
    }
}

/// What a run is configured with, as a mathematical value.
pub struct Settings {
    /// Identifier of the test.
    pub test_id: Seq<char>,
    /// Duration of the run in seconds; zero is allowed.
    pub duration_secs: u64,
    /// Number of virtual users.
    pub vus: u64,
    /// Base address of the target.
    pub base_url: Seq<char>,
    /// User name and password sent with every request, if any.
    pub credentials: Option<(Seq<char>, Seq<char>)>,
}

/// What a run is configured with. It has passed every check and does not
/// change while the run lasts.
#[derive(Debug)]
pub struct RunConfig {
    test_id: String,
    duration_secs: u64,
    vus: u64,
    base_url: String,
    credentials: Option<Credentials>,
}

impl View for RunConfig {
    type V = Settings;

    closed spec fn view(&self) -> Settings {
        Settings {
            test_id: self.test_id@,
            duration_secs: self.duration_secs,
            vus: self.vus,
            base_url: self.base_url@,
            credentials: match self.credentials {
                Some(creds) => Some((creds.user@, creds.pass@)),
                None => None,
            },
        }
    }
}

/// Why a configuration is rejected.
#[derive(Clone, Copy, Debug, PartialEq, Eq, Structural)]
pub enum ConfigError {
    /// The test identifier names no entry of the catalogue.
    UnknownTest,
    /// The number of virtual users is zero.
    NoVirtualUsers,
    /// The target is not an `http://` or `https://` address.
    MalformedTarget,
}

impl ConfigError {
    /// A sentence that tells the user what is wrong.
    pub fn describe(&self) -> (text: String)
        ensures
            text@ == (match self {
                ConfigError::UnknownTest => "unknown test identifier"@,
                ConfigError::NoVirtualUsers => "the number of virtual users must be at least 1"@,
                ConfigError::MalformedTarget =>
                    "the target must be an http:// or https:// address without blanks"@,
            }),
    {
        match self {
            ConfigError::UnknownTest => "unknown test identifier".to_owned(),
            ConfigError::NoVirtualUsers => "the number of virtual users must be at least 1".to_owned(),
            ConfigError::MalformedTarget =>
                "the target must be an http:// or https:// address without blanks".to_owned(),
        }
    }
}

/// A blank or a control character.
pub open spec fn is_blank(c: char) -> bool {
    c as u32 <= 0x20 || c as u32 == 0x7F
}

/// `url` begins with `scheme` and something follows.
pub open spec fn has_scheme(url: Seq<char>, scheme: Seq<char>) -> bool {
    scheme.is_prefix_of(url) && url.len() > scheme.len()
}

/// A target is well formed when it begins with `http://` or `https://`, names
/// something after that, and holds no blank or control character.
pub open spec fn well_formed_target(url: Seq<char>) -> bool {
    &&& has_scheme(url, "http://"@) || has_scheme(url, "https://"@)
    &&& forall|i: int| 0 <= i < url.len() ==> !is_blank(#[trigger] url[i])
}

/// The user name of `user:pass`: what stands before the first colon, or
/// everything when there is no colon.
pub open spec fn user_part(auth: Seq<char>) -> Seq<char> {
    auth.take(first_at(auth, ':', 0))
}

/// The password of `user:pass`: what stands after the first colon, or nothing
/// when there is no colon.
pub open spec fn pass_part(auth: Seq<char>) -> Seq<char> {
    if first_at(auth, ':', 0) < auth.len() {
        auth.skip(first_at(auth, ':', 0) + 1)
    } else {
        Seq::empty()
    }
}

/// Splits `user:pass` at its first colon.
pub fn split_credentials(auth: &str) -> (creds: Credentials)
    ensures
        creds.user@ == user_part(auth@),
        creds.pass@ == pass_part(auth@),
{
    let chars = chars_of(auth);
    let colon = find_char(&chars, ':', 0);
    let user = string_of(&chars, 0, colon);
    let pass = if colon < chars.len() {
        string_of(&chars, colon + 1, chars.len())
    } else {
        String::new()
    };
    Credentials { user, pass }
}

fn begins_with_scheme(url: &Vec<char>, scheme: &str) -> (yes: bool)
    ensures
        yes == has_scheme(url@, scheme@),
{
    let pat = chars_of(scheme);
    let found = matches_at(url, 0, &pat);
    found && url.len() > pat.len()
}

/// Whether `url` is a well-formed target.
pub fn is_well_formed_target(url: &str) -> (ok: bool)
    ensures
        ok == well_formed_target(url@),
{
    let chars = chars_of(url);
    if !begins_with_scheme(&chars, "http://") && !begins_with_scheme(&chars, "https://") {
        return false;
    }
    let mut i: usize = 0;
    while i < chars.len()
        invariant
            i <= chars@.len(),
            chars@ == url@,
            has_scheme(url@, "http://"@) || has_scheme(url@, "https://"@),
            forall|j: int| 0 <= j < i ==> !is_blank(#[trigger] chars@[j]),
        decreases chars@.len() - i,
    {
        let c = chars[i];
        if c as u32 <= 0x20 || c as u32 == 0x7F {
            return false;
        }
        i += 1;
    }
    true
}

/// The user name and the password that `user:pass` stands for.
pub open spec fn credentials_of(auth: Option<Seq<char>>) -> Option<(Seq<char>, Seq<char>)> {
    match auth {
        Some(text) => Some((user_part(text), pass_part(text))),
        None => None,
    }
}

/// What checking the given settings yields: the first failed check, or
/// nothing when all pass. The test identifier is checked first, then the
/// number of virtual users, then the target.
pub open spec fn first_failure(test_id: Seq<char>, vus: u64, base_url: Seq<char>) -> Option<
    ConfigError,
> {
    if !is_known(test_id) {
        Some(ConfigError::UnknownTest)
    } else if vus == 0 {
        Some(ConfigError::NoVirtualUsers)
    } else if !well_formed_target(base_url) {
        Some(ConfigError::MalformedTarget)
    } else {
        None
    }
}

impl Settings {
    /// The settings pass every check: the test is in the catalogue, there is
    /// at least one virtual user, and the target is well formed.
    pub open spec fn valid(self) -> bool {
        first_failure(self.test_id, self.vus, self.base_url) is None
    }
}

impl RunConfig {
    #[verifier::type_invariant]
    spec fn checked(self) -> bool {
        self@.valid()
    }

    /// Checks the settings of a run and builds its configuration. A setting
    /// that fails a check is rejected here, before any worker exists.
    /// Credentials are given as `user:pass`.
    pub fn new(test_id: &str, duration_secs: u64, vus: u64, base_url: &str, auth: Option<&str>) -> (checked:
        Result<RunConfig, ConfigError>)
        ensures
            match checked {
                Ok(config) => first_failure(test_id@, vus, base_url@) is None && config@ == (Settings {
                    test_id: test_id@,
                    duration_secs,
                    vus,
                    base_url: base_url@,
                    credentials: credentials_of(
                        match auth {
                            Some(text) => Some(text@),
                            None => None,
                        },
                    ),
                }),
                Err(e) => first_failure(test_id@, vus, base_url@) == Some(e),
            },
    {
        if find_test(test_id).is_none() {
            return Err(ConfigError::UnknownTest);
        }
        if vus == 0 {
            return Err(ConfigError::NoVirtualUsers);
        }
        if !is_well_formed_target(base_url) {
            return Err(ConfigError::MalformedTarget);
        }
        let credentials = match auth {
            Some(text) => Some(split_credentials(text)),
            None => None,
        };
        Ok(
            RunConfig {
                test_id: test_id.to_owned(),
                duration_secs,
                vus,
                base_url: base_url.to_owned(),
                credentials,
            },
        )
    }

    /// Identifier of the test; it names an entry of the catalogue.
    pub fn test_id(&self) -> (id: &str)
        ensures
            id@ == self@.test_id,
            is_known(id@),
    {
        proof {
            use_type_invariant(self);
        }
        self.test_id.as_str()
    }

    /// Duration of the run in seconds; zero is allowed.
    pub fn duration_secs(&self) -> (secs: u64)
        ensures
            secs == self@.duration_secs,
    {
        self.duration_secs
    }

    /// Number of virtual users, at least one.
    pub fn vus(&self) -> (n: u64)
        ensures
            n == self@.vus,
            n >= 1,
    {
        proof {
            use_type_invariant(self);
        }
        self.vus
    }

    /// Base address of the target, well formed.
    pub fn base_url(&self) -> (url: &str)
        ensures
            url@ == self@.base_url,
            well_formed_target(url@),
    {
        proof {
            use_type_invariant(self);
        }
        self.base_url.as_str()
    }

    /// Credentials sent with every request, if any.
    pub fn credentials(&self) -> (creds: Option<&Credentials>)
        ensures
            match creds {
                Some(c) => self@.credentials == Some((c.user@, c.pass@)),
                None => self@.credentials is None,
            },
    {
        match &self.credentials {
            Some(c) => Some(c),
            None => None,
        }
    }
}

} // verus!
