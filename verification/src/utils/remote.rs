//! What the tool makes of the crates.io index's answers: the check of a
//! crate name before a request, and the reading of a response, which also
//! keeps the response's entity tag for the next request.
//!
//! Sending the request happens outside this module.

use vstd::prelude::*;

use crate::error::{into_anyhow, CargoResult};
use crate::utils::index::{entry_view, EtagTable, IndexKrate, IndexKrateView, IndexVersion};

verus! {

#[verifier::external_type_specification]
#[verifier::external_body]
pub struct ExSparseIndex(tame_index::SparseIndex);

#[verifier::external_type_specification]
#[verifier::external_body]
pub struct ExFileLock(tame_index::utils::flock::FileLock);

#[verifier::external_type_specification]
#[verifier::external_body]
pub struct ExKrateName<'a>(tame_index::KrateName<'a>);

/// A character that a crate name may hold: an ASCII letter or digit, `-` or
/// `_`.
pub open spec fn krate_name_char(c: char) -> bool {
    ||| c == '-'
    ||| c == '_'
    ||| ('0' <= c && c <= '9')
    ||| ('a' <= c && c <= 'z')
    ||| ('A' <= c && c <= 'Z')
}

/// The names that `tame_index::KrateName::try_from` accepts: not empty, and
/// made of ASCII letters and digits, `-` and `_` only.
pub open spec fn krate_name_ok(name: Seq<char>) -> bool {
    name.len() > 0 && forall|i: int| 0 <= i < name.len() ==> #[trigger] krate_name_char(name[i])
}

/// What `tame_index::IndexKrate::from_slice` makes of a response body, as
/// the versions it lists; `None` where it refuses the body.
pub uninterp spec fn index_entry_of_body(body: Seq<u8>) -> Option<IndexKrateView>;

/// `tame_index::KrateName::try_from`: accepts a name exactly when it is not
/// empty and holds only ASCII letters and digits, `-` and `_`.
#[verifier::external_body]
fn krate_name<'a>(name: &'a str) -> (res: Result<tame_index::KrateName<'a>, tame_index::Error>)
    ensures
        res is Ok <==> krate_name_ok(name@),
{
    tame_index::KrateName::try_from(name)
}

/// `tame_index::SparseIndex::parse_remote_response`, without writing the
/// local cache, on a response made of `status` and `body`.
///
/// A status outside 100..=999 is refused when the response is built. 200
/// gives the entry that `IndexKrate::from_slice` reads from the body, or its
/// error; 404, 410 and 451 give no entry; 304 reads the entry from the local
/// cache, of which nothing is stated; every other status is an error.
#[verifier::external_body]
fn parse_remote_response(
    index: &tame_index::SparseIndex,
    name: tame_index::KrateName<'_>,
    status: u16,
    body: Vec<u8>,
    lock: &tame_index::utils::flock::FileLock,
) -> (res: Result<Option<IndexKrate>, tame_index::Error>)
    ensures
        status < 100 || status > 999 ==> res is Err,
        status == 200 ==> match res {
            Ok(entry) => entry is Some && Some(entry_view(entry).unwrap()) == index_entry_of_body(body@),
            Err(_) => index_entry_of_body(body@) is None,
        },
        status == 404 || status == 410 || status == 451 ==> res matches Ok(None),
        100 <= status <= 999 && status != 200 && status != 304 && status != 404 && status != 410
            && status != 451 ==> res is Err,
{
    let response = tame_index::external::http::Response::builder()
        .status(status)
        .body(body)
        .map_err(|e| tame_index::Error::from(tame_index::error::HttpError::from(e)))?;
    let krate = index.parse_remote_response(name, response, false, lock)?;
    Ok(krate.map(|k| IndexKrate {
        versions: k.versions.into_iter().map(|v| IndexVersion {
            name: v.name.to_string(),
            version: v.version.to_string(),
        }).collect(),
    }))
}

/// Checks a crate name before a request is made for it; an error where
/// `tame_index` does not take it as a crate name.
pub fn check_krate_name<'a>(name: &'a str) -> (res: CargoResult<tame_index::KrateName<'a>>)
    ensures
        res is Ok <==> krate_name_ok(name@),
{
    match krate_name(name) {
        Ok(krate_name) => Ok(krate_name),
        Err(e) => Err(into_anyhow(e)),
    }
}

/// The answer of the index to a request for `name`, given as the response's
/// status, its entity tag where it has one that is text, and its body. The
/// tag is recorded for the next request for that crate, whatever the
/// status; then the response is read.
pub fn read_index_response(
    etags: &mut EtagTable,
    index: &tame_index::SparseIndex,
    name: &str,
    status: u16,
    etag: Option<&str>,
    body: Vec<u8>,
    lock: &tame_index::utils::flock::FileLock,
) -> (res: CargoResult<Option<IndexKrate>>)
    requires
        old(etags).wf(),
    ensures
        final(etags).wf(),
        final(etags)@ == match etag {
            Some(tag) => old(etags)@.insert(name@, tag@),
            None => old(etags)@,
        },
        !krate_name_ok(name@) ==> res is Err,
        krate_name_ok(name@) && (status < 100 || status > 999) ==> res is Err,
        krate_name_ok(name@) && status == 200 ==> match res {
            Ok(entry) => entry is Some && Some(entry_view(entry).unwrap()) == index_entry_of_body(body@),
            Err(_) => index_entry_of_body(body@) is None,
        },
        krate_name_ok(name@) && (status == 404 || status == 410 || status == 451) ==> res matches Ok(None),
        krate_name_ok(name@) && 100 <= status <= 999 && status != 200 && status != 304 && status != 404
            && status != 410 && status != 451 ==> res is Err,
{
    if let Some(tag) = etag {
        etags.record(name, tag);
    }
    let krate_name = check_krate_name(name)?;
    match parse_remote_response(index, krate_name, status, body, lock) {
        Ok(entry) => Ok(entry),
        Err(e) => Err(into_anyhow(e)),
    }
}

} // verus!
