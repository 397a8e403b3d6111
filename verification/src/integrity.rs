//! Checking that an unpacked executable is the release that was asked for:
//! it is run with a version query, and what it prints has to name exactly
//! that version.

use crate::error::{UpgradeError, VerificationFailure};
use crate::text::{lemma_trimmed_is_a_part, occurs_in, trimmed, trimmed_equals, Blanks};
use crate::version::{version_text, Version, VersionView};
use vstd::prelude::*;
use vstd::utf8::{decode_utf8, valid_utf8};

verus! {

/// The argument that makes the executable print its version.
pub const VERSION_FLAG: &'static str = "-V";

/// What the answer to a version query starts with.
pub const OUTPUT_PREFIX: &'static str = "deno ";

/// Calls `String::from_utf8`, which accepts exactly the byte sequences that
/// are valid UTF-8 and then holds the text that they encode.
#[verifier::external_body]
fn text_from_utf8(bytes: Vec<u8>) -> (r: Option<String>)
    ensures
        match r {
            Some(s) => valid_utf8(bytes@) && s@ == decode_utf8(bytes@),
            None => !valid_utf8(bytes@),
        },
{
    String::from_utf8(bytes).ok()
}

/// What the executable of `version` has to print, white space aside.
pub open spec fn expected_output(version: VersionView) -> Seq<char> {
    OUTPUT_PREFIX@ + version_text(version)
}

/// What the answer to a version query amounts to. The output has to be
/// UTF-8, the process has to have ended with success, and the output
/// without the white space around it has to be the expected text; the first
/// of these that fails is the failure.
#[verifier::opaque]
pub open spec fn check_of(exit_success: bool, output: Seq<u8>, expected: VersionView) -> Result<
    (),
    UpgradeError,
> {
    if !valid_utf8(output) {
        Err(UpgradeError::Verification(VerificationFailure::NotUtf8))
    } else if !exit_success {
        Err(UpgradeError::Verification(VerificationFailure::ExitFailure))
    } else if trimmed(Blanks::WhiteSpace, decode_utf8(output)) != expected_output(expected) {
        Err(UpgradeError::Verification(VerificationFailure::Mismatch))
    } else {
        Ok(())
    }
}

/// Judges the answer of an unpacked executable to a version query: whether
/// the process ended with success, and what it wrote to its standard output.
pub fn check_exe(exit_success: bool, output: Vec<u8>, expected_version: &Version) -> (r: Result<
    (),
    UpgradeError,
>)
    ensures
        r == check_of(exit_success, output@, expected_version@),
{
    proof {
        reveal(check_of);
    }
    match text_from_utf8(output) {
        None => Err(UpgradeError::Verification(VerificationFailure::NotUtf8)),
        Some(text) => {
            if !exit_success {
                return Err(UpgradeError::Verification(VerificationFailure::ExitFailure));
            }
            let mut expected = OUTPUT_PREFIX.to_owned();
            expected.append(expected_version.to_string().as_str());
            if trimmed_equals(Blanks::WhiteSpace, text.as_str(), expected.as_str()) {
                Ok(())
            } else {
                Err(UpgradeError::Verification(VerificationFailure::Mismatch))
            }
        },
    }
}

/// An answer that is accepted comes from a process that ended with success,
/// is UTF-8, and holds the expected text: `deno`, a space, and the text of
/// the version.
pub proof fn lemma_accepted_answer_names_the_version(
    exit_success: bool,
    output: Seq<u8>,
    expected: VersionView,
)
    requires
        check_of(exit_success, output, expected) is Ok,
    ensures
        exit_success,
        valid_utf8(output),
        trimmed(Blanks::WhiteSpace, decode_utf8(output)) == expected_output(expected),
        occurs_in(expected_output(expected), decode_utf8(output)),
{
    reveal(check_of);
    lemma_trimmed_is_a_part(Blanks::WhiteSpace, decode_utf8(output));
}

} // verus!
