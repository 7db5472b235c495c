//! Where the registry is read from: a local file, or an object named by
//! its address.

use vstd::prelude::*;
use crate::text::starts_with;

verus! {

/// Where the registry is read from.
#[derive(Clone, Debug, PartialEq, Eq)]
pub enum UniverseSource {
    /// An object of an object store.
    Bucket { bucket: String, key: String },
    /// A file of the local file system.
    File { path: String },
}

/// A source as a value of mathematics.
pub enum SourceModel {
    Bucket { bucket: Seq<char>, key: Seq<char> },
    File { path: Seq<char> },
}

impl View for UniverseSource {
    type V = SourceModel;

    open spec fn view(&self) -> SourceModel {
        match self {
            UniverseSource::Bucket { bucket, key } => SourceModel::Bucket {
                bucket: bucket@,
                key: key@,
            },
            UniverseSource::File { path } => SourceModel::File { path: path@ },
        }
    }
}

/// Why a location names no source.
#[derive(Clone, Copy, Debug, PartialEq, Eq, Structural)]
pub enum SourceError {
    /// The location begins like an object's address but is no address
    /// with a host.
    InvalidAddress,
}

/// What `http::Uri` makes of a text: `None` where it does not parse, else
/// the host, if the address has one, and the path.
pub uninterp spec fn uri_parts(text: Seq<char>) -> Option<(Option<Seq<char>>, Seq<char>)>;

/// The views of the parts of an address.
pub open spec fn parts_model(parts: Option<(Option<String>, String)>) -> Option<
    (Option<Seq<char>>, Seq<char>),
> {
    match parts {
        Some((Some(host), path)) => Some((Some(host@), path@)),
        Some((None, path)) => Some((None, path@)),
        None => None,
    }
}

/// Whether the character ends the authority of an address.
pub open spec fn ends_authority(c: char) -> bool {
    c == '/' || c == '?' || c == '#'
}

/// Whether the authority of an object's address, which follows the prefix
/// and ends before the first `/`, `?` or `#`, holds an opening square
/// bracket.
pub open spec fn bracketed(location: Seq<char>) -> bool {
    exists|i: int|
        5 <= i < location.len() && #[trigger] location[i] == '[' && forall|j: int|
            5 <= j < i ==> !ends_authority(#[trigger] location[j])
}

/// Parses `text` with `str::parse::<http::Uri>` and reads the result with
/// `Uri::host` and `Uri::path`. The parts are a function of the text
/// alone; nothing more is claimed of them. The text is the address of an
/// object, and its authority holds no opening square bracket: with one
/// that is never closed `Uri::host` does not return.
#[verifier::external_body]
fn split_uri(text: &str) -> (r: Option<(Option<String>, String)>)
    requires
        bucket_prefix().is_prefix_of(text@),
        !bracketed(text@),
    ensures
        parts_model(r) == uri_parts(text@),
{
    match text.parse::<http::Uri>() {
        Ok(uri) => {
            let host = match uri.host() {
                Some(h) => Some(h.to_string()),
                None => None,
            };
            Some((host, uri.path().to_string()))
        },
        Err(_) => None,
    }
}

/// Whether the authority of an object's address holds an opening square
/// bracket.
pub fn has_bracket(location: &str) -> (r: bool)
    ensures
        r == bracketed(location@),
{
    let n = location.unicode_len();
    let mut i: usize = 5;
    while i < n
        invariant
            5 <= i,
            n == location@.len(),
            forall|j: int| 5 <= j < i && j < n ==> !ends_authority(#[trigger] location@[j]),
            forall|j: int| 5 <= j < i && j < n ==> location@[j] != '[',
        decreases n - i,
    {
        let c = location.get_char(i);
        if c == '[' {
            return true;
        }
        if c == '/' || c == '?' || c == '#' {
            proof {
                assert forall|k: int|
                    5 <= k < location@.len() && #[trigger] location@[k] == '[' implies !(forall|
                    j: int,
                | 5 <= j < k ==> !ends_authority(#[trigger] location@[j])) by {
                    if k > i {
                        assert(ends_authority(location@[i as int]));
                    }
                }
            }
            return false;
        }
        i += 1;
    }
    false
}

/// The prefix of the address of an object.
pub open spec fn bucket_prefix() -> Seq<char> {
    "s3://"@
}

/// The source that a location names, given the parts of its address. A
/// location that does not begin like an object's address names a file. One
/// that does names the object whose bucket is the host and whose key is
/// the path of the address; it names nothing when its authority holds an
/// opening square bracket, when it is no address, or when it has no host.
pub open spec fn source_of(
    location: Seq<char>,
    parts: Option<(Option<Seq<char>>, Seq<char>)>,
) -> Result<SourceModel, SourceError> {
    if !bucket_prefix().is_prefix_of(location) {
        Ok(SourceModel::File { path: location })
    } else if bracketed(location) {
        Err(SourceError::InvalidAddress)
    } else {
        match parts {
            Some((Some(host), path)) => Ok(SourceModel::Bucket { bucket: host, key: path }),
            _ => Err(SourceError::InvalidAddress),
        }
    }
}

pub open spec fn source_model(r: Result<UniverseSource, SourceError>) -> Result<
    SourceModel,
    SourceError,
> {
    match r {
        Ok(s) => Ok(s@),
        Err(e) => Err(e),
    }
}

/// The source that a location names, given the parts of its address: see
/// [`source_of`].
pub fn source_from_parts(location: &str, parts: Option<(Option<String>, String)>) -> (r: Result<
    UniverseSource,
    SourceError,
>)
    ensures
        source_model(r) == source_of(location@, parts_model(parts)),
{
    if !starts_with(location, "s3://") {
        Ok(UniverseSource::File { path: String::from_str(location) })
    } else if has_bracket(location) {
        Err(SourceError::InvalidAddress)
    } else {
        match parts {
            Some((Some(host), path)) => Ok(UniverseSource::Bucket { bucket: host, key: path }),
            _ => Err(SourceError::InvalidAddress),
        }
    }
}

/// The source that a location names: a file, unless the location begins
/// like the address of an object.
pub fn get_universe(location: &str) -> (r: Result<UniverseSource, SourceError>)
    ensures
        source_model(r) == source_of(location@, uri_parts(location@)),
{
    if !starts_with(location, "s3://") || has_bracket(location) {
        source_from_parts(location, None)
    } else {
        let parts = split_uri(location);
        source_from_parts(location, parts)
    }
}

} // verus!
