//! Fetching the archive of a release: its address, and what the server's
//! answer amounts to.

use crate::error::UpgradeError;
use crate::platform::{archive_name_of, Platform};
use crate::text::str_equal;
use crate::version::{version_text, Version, VersionView};
use vstd::prelude::*;

verus! {

/// What every archive address starts with.
pub const DOWNLOAD_PREFIX: &'static str = "https://github.com/denoland/deno/releases/download/v";

/// The error with which the `url` crate rejects a text.
#[verifier::external_type_specification]
#[verifier::external_body]
pub struct ExUrlParseError(url::ParseError);

/// What `url::Url::parse` makes of a text: the serialization of the URL it
/// reads, or `None` where it rejects the text.
pub uninterp spec fn url_parse(input: Seq<char>) -> Option<Seq<char>>;

/// Calls `url::Url::parse` and, on success, `Url::as_str` for the
/// serialization. The contract claims only that the outcome is a function of
/// the text: it equals [`url_parse`] of it.
#[verifier::external_body]
fn parse_url(input: &str) -> (r: Result<String, url::ParseError>)
    ensures
        match r {
            Ok(u) => url_parse(input@) == Some(u@),
            Err(_) => url_parse(input@) is None,
        },
{
    let url = url::Url::parse(input)?;
    Ok(url.as_str().to_owned())
}

/// The address that a text is, if it is one: the text itself, provided that
/// the URL parser reads it as a URL and writes that URL as the text stands.
pub open spec fn address_of(text: Seq<char>) -> Result<Seq<char>, UpgradeError> {
    if url_parse(text) == Some(text) {
        Ok(text)
    } else {
        Err(UpgradeError::InvalidUrl)
    }
}

/// Checks that `text` is an address: a URL in the form in which it is sent.
/// A text that is no URL, or that the URL parser would send in another
/// form, is none.
pub fn address(text: &str) -> (r: Result<String, UpgradeError>)
    ensures
        match r {
            Ok(u) => address_of(text@) == Ok::<Seq<char>, UpgradeError>(u@),
            Err(e) => address_of(text@) == Err::<Seq<char>, UpgradeError>(e),
        },
        r matches Ok(u) ==> u@ == text@,
        r matches Err(e) ==> e == UpgradeError::InvalidUrl,
{
    match parse_url(text) {
        Ok(u) => {
            if str_equal(u.as_str(), text) {
                Ok(u)
            } else {
                Err(UpgradeError::InvalidUrl)
            }
        },
        Err(_) => Err(UpgradeError::InvalidUrl),
    }
}

/// The text from which the address of an archive is read: the download
/// prefix, the version, `/`, and the name of the platform's archive.
pub open spec fn download_text(version: VersionView, platform: Platform) -> Seq<char> {
    DOWNLOAD_PREFIX@ + version_text(version) + seq!['/'] + archive_name_of(platform)
}

/// The address of the archive of `version` for `platform`: the download
/// text, where that is an address.
pub fn compose_url_to_exec(version: &Version, platform: Platform) -> (r: Result<
    String,
    UpgradeError,
>)
    ensures
        match r {
            Ok(u) => address_of(download_text(version@, platform)) == Ok::<
                Seq<char>,
                UpgradeError,
            >(u@),
            Err(e) => address_of(download_text(version@, platform)) == Err::<
                Seq<char>,
                UpgradeError,
            >(e),
        },
        r matches Ok(u) ==> u@ == download_text(version@, platform),
        r matches Err(e) ==> e == UpgradeError::InvalidUrl,
{
    let mut text = DOWNLOAD_PREFIX.to_owned();
    text.append(version.to_string().as_str());
    text.append("/");
    text.append(platform.archive_name());
    proof {
        reveal_strlit("/");
        assert(text@ =~= download_text(version@, platform));
    }
    address(text.as_str())
}

/// What the status code of the server's answer amounts to: 404 means that
/// the release has no archive for this platform, any other code from 400 to
/// 599 that the download failed, every other code that the body is the
/// archive.
pub open spec fn download_outcome_of(status: u16) -> Result<(), UpgradeError> {
    if status == 404 {
        Err(UpgradeError::VersionNotFound)
    } else if 400 <= status < 600 {
        Err(UpgradeError::DownloadFailed(status))
    } else {
        Ok(())
    }
}

/// Judges the answer to the request for an archive by its status code.
pub fn download_package(status: u16) -> (r: Result<(), UpgradeError>)
    ensures
        r == download_outcome_of(status),
{
    if status == 404 {
        Err(UpgradeError::VersionNotFound)
    } else if 400 <= status && status < 600 {
        Err(UpgradeError::DownloadFailed(status))
    } else {
        Ok(())
    }
}

} // verus!
