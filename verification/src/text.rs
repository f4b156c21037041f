//! The fixed texts of a run, and the two questions about UTF-8 that the
//! standard library answers.

use vstd::prelude::*;
use vstd::utf8::{encode_utf8, encode_utf8_valid_utf8, valid_utf8};

verus! {

/// The line that announces the input at place `index`. Every announcement but
/// that of the first input stands after an empty line.
pub open spec fn banner_text(name: Seq<char>, index: nat) -> Seq<char> {
    (if index > 0 {
        "\n"@
    } else {
        Seq::<char>::empty()
    }) + "==> "@ + name + " <==\n"@
}

/// The bytes of the announcement.
pub open spec fn banner_bytes(name: Seq<char>, index: nat) -> Seq<u8> {
    encode_utf8(banner_text(name, index))
}

/// The line written for an input that cannot be opened. It names the input
/// twice: as what the line is about, and within the reason.
pub open spec fn open_failure_text(name: Seq<char>) -> Seq<char> {
    name + ": Failed to open file: "@ + name + "\n"@
}

/// The line written where reading has failed.
pub open spec fn read_failure_text(reason: Seq<char>) -> Seq<char> {
    reason + "\n"@
}

/// The announcement of the input at place `index`.
pub fn banner(name: &str, index: usize) -> (r: Vec<u8>)
    ensures
        r@ == banner_bytes(name@, index as nat),
        valid_utf8(r@),
{
    let mut text = String::new();
    if index > 0 {
        text.append("\n");
    }
    text.append("==> ");
    text.append(name);
    text.append(" <==\n");
    proof {
        assert(text@ =~= banner_text(name@, index as nat));
        encode_utf8_valid_utf8(text@);
    }
    text.as_str().as_bytes_vec()
}

/// The line for an input that cannot be opened.
pub fn open_failure(name: &str) -> (r: String)
    ensures
        r@ == open_failure_text(name@),
{
    let mut text = String::new();
    text.append(name);
    text.append(": Failed to open file: ");
    text.append(name);
    text.append("\n");
    proof {
        assert(text@ =~= open_failure_text(name@));
    }
    text
}

/// The line for a failed read.
pub fn read_failure(reason: &str) -> (r: String)
    ensures
        r@ == read_failure_text(reason@),
{
    let mut text = String::new();
    text.append(reason);
    text.append("\n");
    proof {
        assert(text@ =~= read_failure_text(reason@));
    }
    text
}

/// What lenient decoding makes of bytes that are not UTF-8: the text in which
/// each ill-formed sequence has given way to U+FFFD, as bytes again.
pub uninterp spec fn with_replacements(bytes: Seq<u8>) -> Seq<u8>;

/// Bytes as the text that is printed for them: themselves where they are
/// UTF-8, else with replacement characters.
pub open spec fn decoded(bytes: Seq<u8>) -> Seq<u8> {
    if valid_utf8(bytes) {
        bytes
    } else {
        with_replacements(bytes)
    }
}

/// Calls `String::from_utf8_lossy` and hands the text back as bytes. Trusted:
/// well-formed input comes back unchanged, as the standard library documents;
/// of other input only that the result depends on the bytes alone; and the
/// result, being the bytes of a `String`, is well formed.
#[verifier::external_body]
pub(crate) fn decode_lossy(bytes: &[u8]) -> (r: Vec<u8>)
    ensures
        valid_utf8(bytes@) ==> r@ == bytes@,
        !valid_utf8(bytes@) ==> r@ == with_replacements(bytes@),
        valid_utf8(r@),
{
    String::from_utf8_lossy(bytes).into_owned().into_bytes()
}

/// Calls `std::str::from_utf8` and tells whether it accepted the bytes.
/// Trusted: it accepts exactly the well-formed UTF-8 byte strings.
#[verifier::external_body]
pub(crate) fn is_utf8(bytes: &[u8]) -> (r: bool)
    ensures
        r == valid_utf8(bytes@),
{
    std::str::from_utf8(bytes).is_ok()
}

} // verus!
