//! Finding the newest release on the page that lists it.

use crate::error::UpgradeError;
use crate::numerals::decimal;
use crate::text::{contains_text, occurs_in, str_equal};
use crate::version::{parse, read_of, version_text, Version, VersionView};
use vstd::prelude::*;

verus! {

/// The text from which the address of the release page is read.
pub const LATEST_RELEASE_PAGE: &'static str = "https://github.com/denoland/deno/releases/latest";

/// The pattern of a version on the release page: `v`, three numbers with
/// dots between them, and a space.
pub const VERSION_PATTERN: &'static str = "v(\\d+\\.\\d+\\.\\d+) ";

/// The error with which the `regex` crate rejects a pattern.
#[verifier::external_type_specification]
#[verifier::external_body]
pub struct ExRegexError(regex::Error);

/// Whether `regex::Regex::new` accepts the pattern.
pub uninterp spec fn regex_compiles(pattern: Seq<char>) -> bool;

/// What `regex::Regex::find` returns for the regular expression compiled from
/// `pattern` in `text`: the text of the first match, or `None` where there is
/// no match.
pub uninterp spec fn regex_find(pattern: Seq<char>, text: Seq<char>) -> Option<Seq<char>>;

/// Calls `regex::Regex::new` on the pattern and `Regex::find` on the text,
/// and copies the text of the match. The contract claims only that both
/// outcomes are functions of the arguments: the first is an error exactly
/// where [`regex_compiles`] is false, the second equals [`regex_find`].
#[verifier::external_body]
fn first_match(pattern: &str, text: &str) -> (r: Result<Option<String>, regex::Error>)
    ensures
        (r is Ok) == regex_compiles(pattern@),
        match r {
            Ok(Some(m)) => regex_find(pattern@, text@) == Some(m@),
            Ok(None) => regex_find(pattern@, text@) is None,
            Err(_) => true,
        },
{
    let re = regex::Regex::new(pattern)?;
    Ok(re.find(text).map(|m| m.as_str().to_owned()))
}

/// The version inside a match of the pattern: what stands between the `v`
/// that the match starts with and the space that it ends with. No match, or
/// one that is not of this form, is no version.
pub open spec fn token_of(found: Option<Seq<char>>) -> Result<Seq<char>, UpgradeError> {
    match found {
        Some(m) => if m.len() >= 2 && m.first() == 'v' && m.last() == ' ' {
            Ok(m.subrange(1, m.len() - 1))
        } else {
            Err(UpgradeError::NotFound)
        },
        None => Err(UpgradeError::NotFound),
    }
}

/// What [`find_version`] returns on a text: the version inside the first
/// match of the pattern, provided that the match stands in the text.
pub open spec fn found_version_of(text: Seq<char>) -> Result<Seq<char>, UpgradeError> {
    match match_of(VERSION_PATTERN@, text) {
        Ok(Some(m)) => if occurs_in(m, text) {
            token_of(Some(m))
        } else {
            Err(UpgradeError::NotFound)
        },
        Ok(None) => Err(UpgradeError::NotFound),
        Err(e) => Err(e),
    }
}

/// Whether a version is a release without metadata: three numbers and no
/// more.
pub open spec fn is_release(v: VersionView) -> bool {
    v.pre.len() == 0 && v.build.len() == 0
}

/// What [`get_latest_version`] returns on the body of the release page: the
/// version that the first match of the pattern writes, three numbers between
/// the `v` and the space.
#[verifier::opaque]
pub open spec fn latest_version_of(body: Seq<char>) -> Result<VersionView, UpgradeError> {
    match found_version_of(body) {
        Ok(token) => match read_of(token) {
            Some(v) => if is_release(v) && version_text(v) == token {
                Ok(v)
            } else {
                Err(UpgradeError::InvalidVersion)
            },
            None => Err(UpgradeError::InvalidVersion),
        },
        Err(e) => Err(e),
    }
}

/// The text of a match, if there is one.
pub open spec fn found_view(found: Option<String>) -> Option<Seq<char>> {
    match found {
        Some(m) => Some(m@),
        None => None,
    }
}

/// Takes the version out of a match of the pattern.
pub fn version_token(found: Option<String>) -> (r: Result<String, UpgradeError>)
    ensures
        match r {
            Ok(t) => token_of(found_view(found)) == Ok::<Seq<char>, UpgradeError>(t@),
            Err(e) => token_of(found_view(found)) == Err::<Seq<char>, UpgradeError>(e),
        },
{
    match found {
        Some(m) => {
            let n = m.as_str().unicode_len();
            if n >= 2 && m.as_str().get_char(0) == 'v' && m.as_str().get_char(n - 1) == ' ' {
                Ok(m.as_str().substring_char(1, n - 1).to_owned())
            } else {
                Err(UpgradeError::NotFound)
            }
        },
        None => Err(UpgradeError::NotFound),
    }
}

/// What [`first_match_of`] returns: the text of the first match of the
/// pattern in the text, if there is a match, or an error where the pattern
/// does not compile.
pub open spec fn match_of(pattern: Seq<char>, text: Seq<char>) -> Result<
    Option<Seq<char>>,
    UpgradeError,
> {
    if regex_compiles(pattern) {
        Ok(regex_find(pattern, text))
    } else {
        Err(UpgradeError::InvalidPattern)
    }
}

/// Finds the first match of the regular expression `pattern` in `text`.
pub fn first_match_of(pattern: &str, text: &str) -> (r: Result<Option<String>, UpgradeError>)
    ensures
        match r {
            Ok(found) => match_of(pattern@, text@) == Ok::<Option<Seq<char>>, UpgradeError>(
                found_view(found),
            ),
            Err(e) => match_of(pattern@, text@) == Err::<Option<Seq<char>>, UpgradeError>(e),
        },
{
    match first_match(pattern, text) {
        Ok(found) => Ok(found),
        Err(_) => Err(UpgradeError::InvalidPattern),
    }
}

/// Finds the first version on the release page.
pub fn find_version(text: &str) -> (r: Result<String, UpgradeError>)
    ensures
        match r {
            Ok(t) => found_version_of(text@) == Ok::<Seq<char>, UpgradeError>(t@),
            Err(e) => found_version_of(text@) == Err::<Seq<char>, UpgradeError>(e),
        },
{
    match first_match_of(VERSION_PATTERN, text) {
        Ok(Some(m)) => {
            if contains_text(text, m.as_str()) {
                version_token(Some(m))
            } else {
                Err(UpgradeError::NotFound)
            }
        },
        Ok(None) => Err(UpgradeError::NotFound),
        Err(e) => Err(e),
    }
}

/// Reads the newest release from the body of the release page.
pub fn get_latest_version(body: &str) -> (r: Result<Version, UpgradeError>)
    ensures
        match r {
            Ok(v) => latest_version_of(body@) == Ok::<VersionView, UpgradeError>(v@),
            Err(e) => latest_version_of(body@) == Err::<VersionView, UpgradeError>(e),
        },
{
    proof {
        reveal(latest_version_of);
    }
    match find_version(body) {
        Ok(token) => match parse(token.as_str()) {
            Ok(v) => {
                if v.pre.len() == 0 && v.build.len() == 0 && str_equal(
                    v.to_string().as_str(),
                    token.as_str(),
                ) {
                    Ok(v)
                } else {
                    Err(UpgradeError::InvalidVersion)
                }
            },
            Err(e) => Err(e),
        },
        Err(e) => Err(e),
    }
}

/// The newest release is written on the page: the first match of the
/// pattern stands on it, and it is `v`, the three numbers of the release
/// with dots between them, and a space.
pub proof fn lemma_latest_is_written_on_the_page(body: Seq<char>)
    requires
        latest_version_of(body) is Ok,
    ensures
        ({
            let v = latest_version_of(body)->Ok_0;
            let text = decimal(v.major as nat) + seq!['.'] + decimal(v.minor as nat) + seq!['.']
                + decimal(v.patch as nat);
            &&& is_release(v)
            &&& version_text(v) == text
            &&& regex_compiles(VERSION_PATTERN@)
            &&& regex_find(VERSION_PATTERN@, body) == Some(seq!['v'] + text + seq![' '])
            &&& occurs_in(seq!['v'] + text + seq![' '], body)
        }),
{
    reveal(latest_version_of);
    let v = latest_version_of(body)->Ok_0;
    let text = decimal(v.major as nat) + seq!['.'] + decimal(v.minor as nat) + seq!['.'] + decimal(
        v.patch as nat,
    );
    assert(version_text(v) =~= text);
    let m = regex_find(VERSION_PATTERN@, body)->0;
    assert(m =~= seq!['v'] + text + seq![' ']);
}

} // verus!
