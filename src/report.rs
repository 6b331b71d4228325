//! The text that the interpreter prints for what the process or the system did.
use vstd::prelude::*;
use vstd::utf8::{decode_utf8, valid_utf8};

use crate::text::{concat_str, trim_end, trim_end_str};

verus! {

/// Why changing the working directory failed.
#[derive(Clone, Debug, PartialEq, Eq)]
pub enum CdFailure {
    /// The path does not exist.
    NotFound,
    /// Any other cause, described in words.
    Other(String),
}

/// The characters that lossy UTF-8 decoding gives for `b`.
pub uninterp spec fn lossy_utf8(b: Seq<u8>) -> Seq<char>;

/// Decodes captured output as UTF-8, replacing invalid sequences.
/// Relies on String::from_utf8_lossy: the result depends on the bytes alone, and
/// valid UTF-8 is decoded as it stands.
#[verifier::external_body]
fn decode_lossy(b: &Vec<u8>) -> (r: String)
    ensures
        r@ == lossy_utf8(b@),
        valid_utf8(b@) ==> r@ == decode_utf8(b@),
{
    String::from_utf8_lossy(b.as_slice()).into_owned()
}

/// The path that `cd` goes to: a leading `~` stands for the home directory.
/// Nothing is returned where the path needs a home directory and none is known.
pub fn expand_home(path: &str, home: Option<&str>) -> (r: Option<String>)
    ensures
        path@.len() > 0 && path@[0] == '~' ==> match home {
            Some(h) => (r matches Some(p) && p@ == h@ + path@.drop_first()),
            None => r is None,
        },
        !(path@.len() > 0 && path@[0] == '~') ==> (r matches Some(p) && p@ == path@),
{
    let n = path.unicode_len();
    if n > 0 && path.get_char(0) == '~' {
        match home {
            Some(h) => {
                let r = concat_str(h, path.substring_char(1, n));
                assert(path@.subrange(1, n as int) =~= path@.drop_first());
                Some(r)
            },
            None => None,
        }
    } else {
        Some(String::from_str(path))
    }
}

/// What `cd path` prints: nothing on success, a not-found message naming the
/// path as written, or a general message with the cause.
pub fn cd_report(path: &str, failure: Option<CdFailure>) -> (r: Option<String>)
    ensures
        match failure {
            None => r is None,
            Some(CdFailure::NotFound) => r matches Some(m) && m@ == path@
                + ": No such file or directory"@,
            Some(CdFailure::Other(cause)) => r matches Some(m) && m@ == "Error in CD: "@ + cause@,
        },
{
    match failure {
        None => None,
        Some(CdFailure::NotFound) => Some(concat_str(path, ": No such file or directory")),
        Some(CdFailure::Other(cause)) => Some(concat_str("Error in CD: ", cause.as_str())),
    }
}

/// What `pwd` prints, given the queried working directory or the error's text.
pub fn pwd_report(query: Result<String, String>) -> (r: String)
    ensures
        match query {
            Ok(dir) => r@ == dir@,
            Err(e) => r@ == "Error PWD: "@ + e@,
        },
{
    match query {
        Ok(dir) => dir,
        Err(e) => concat_str("Error PWD: ", e.as_str()),
    }
}

/// What running the executable at `path` prints: its captured standard output,
/// decoded and without trailing white space, or a failure message naming the
/// path where it could not be run.
pub fn command_output(path: &str, stdout: Option<Vec<u8>>) -> (r: String)
    ensures
        match stdout {
            Some(b) => {
                &&& r@ == trim_end(lossy_utf8(b@))
                &&& valid_utf8(b@) ==> r@ == trim_end(decode_utf8(b@))
            },
            None => r@ == path@ + ": failed to run with output!"@,
        },
{
    match stdout {
        Some(b) => {
            let text = decode_lossy(&b);
            String::from_str(trim_end_str(text.as_str()))
        },
        None => concat_str(path, ": failed to run with output!"),
    }
}

} // verus!
