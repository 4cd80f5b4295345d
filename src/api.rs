//! The addresses that the management API client requests.
use vstd::prelude::*;
use vstd::string::*;
use crate::model::CompletionKey;

verus! {

/// The path of the completion query for a device, scoped to a folder when
/// the key names one.
pub open spec fn completion_path(key: (Seq<char>, Option<Seq<char>>)) -> Seq<char> {
    "/rest/db/completion?device="@ + key.0 + match key.1 {
        Some(f) => "&folder="@ + f,
        None => Seq::<char>::empty(),
    }
}

/// Builds the path of a completion query.
pub fn completion_endpoint(key: &CompletionKey) -> (r: String)
    ensures
        r@ == completion_path(key@),
{
    let mut out = String::from_str("/rest/db/completion?device=");
    out.append(key.device_id.as_str());
    match &key.folder_id {
        Some(f) => {
            out.append("&folder=");
            out.append(f.as_str());
        },
        None => {},
    }
    assert(out@ =~= completion_path(key@));
    out
}

/// The base URL of the API on the default port: on the discovered listen
/// address, with a wildcard address (or none found) replaced by loopback.
pub open spec fn base_url_text(addr: Option<Seq<char>>) -> Seq<char> {
    let host = match addr {
        Some(a) => if a == "0.0.0.0"@ {
            "127.0.0.1"@
        } else {
            a
        },
        None => "127.0.0.1"@,
    };
    "http://"@ + host + ":8384"@
}

/// Builds the base URL of the API from the discovered listen address.
pub fn base_url(addr: &Option<String>) -> (r: String)
    ensures
        r@ == base_url_text(crate::model::opt_view(*addr)),
{
    let mut out = String::from_str("http://");
    let wildcard = String::from_str("0.0.0.0");
    match addr {
        Some(a) => {
            if *a == wildcard {
                out.append("127.0.0.1");
            } else {
                out.append(a.as_str());
            }
        },
        None => {
            out.append("127.0.0.1");
        },
    }
    out.append(":8384");
    assert(out@ =~= base_url_text(crate::model::opt_view(*addr)));
    out
}

/// `s` without the slashes that end it.
pub open spec fn without_trailing_slashes(s: Seq<char>) -> Seq<char>
    decreases s.len(),
{
    if s.len() > 0 && s.last() == '/' {
        without_trailing_slashes(s.drop_last())
    } else {
        s
    }
}

/// Removes the slashes that end a base URL, so that paths can be appended.
pub fn trim_trailing_slashes(s: &str) -> (r: String)
    ensures
        r@ == without_trailing_slashes(s@),
{
    let mut n = s.unicode_len();
    assert(s@.subrange(0, n as int) =~= s@);
    while n > 0 && s.get_char(n - 1) == '/'
        invariant
            n <= s@.len(),
            without_trailing_slashes(s@.subrange(0, n as int)) == without_trailing_slashes(s@),
        decreases n,
    {
        assert(s@.subrange(0, n as int).drop_last() =~= s@.subrange(0, n - 1));
        n = n - 1;
    }
    String::from_str(s.substring_char(0, n))
}

} // verus!
