//! Looking for a newer release.

use crate::access::opt_text;
use crate::text::{same, trim_leading, without_leading};
use vstd::prelude::*;

verus! {

/// The text member of a JSON object, by the bytes of the document and the key.
pub uninterp spec fn json_text_member(document: Seq<u8>, key: Seq<char>) -> Option<Seq<char>>;

/// Parses a document with `serde_json::from_slice` into a `serde_json::Value`,
/// indexes it with the key and takes the text with `Value::as_str`. The result
/// is named: it is `None` where the bytes are no JSON document, the document is
/// no object, the key is missing or its value is no text, which is not stated
/// further.
#[verifier::external_body]
fn read_text_member(document: &[u8], key: &str) -> (r: Option<String>)
    ensures
        opt_text(r) == json_text_member(document@, key@),
{
    match serde_json::from_slice::<serde_json::Value>(document) {
        Ok(value) => value[key].as_str().map(str::to_string),
        Err(_) => None,
    }
}

/// A release with its version and its changelog.
#[derive(Debug)]
pub struct Release {
    pub version: String,
    pub changelog: String,
}

/// The version and the changelog of a release.
pub open spec fn release_of(
    tag: Option<Seq<char>>,
    body: Option<Seq<char>>,
    current: Seq<char>,
) -> Option<(Seq<char>, Seq<char>)> {
    match tag {
        Some(tag) => {
            let version = without_leading(tag, 'v');
            if version == current {
                None
            } else {
                Some(
                    (
                        version,
                        match body {
                            Some(text) => text,
                            None => "No changelog provided."@,
                        },
                    ),
                )
            }
        },
        None => None,
    }
}

/// What an optional release says.
pub open spec fn opt_release(release: Option<Release>) -> Option<(Seq<char>, Seq<char>)> {
    match release {
        Some(r) => Some((r.version@, r.changelog@)),
        None => None,
    }
}

/// The release with this tag and this description, if its version is not the
/// current one. A tag may begin with the letter v.
pub fn newer_release(tag: Option<String>, body: Option<String>, current: &str) -> (r: Option<
    Release,
>)
    ensures
        opt_release(r) == release_of(opt_text(tag), opt_text(body), current@),
{
    match tag {
        Some(tag) => {
            let version = trim_leading(tag.as_str(), 'v');
            if same(version.as_str(), current) {
                return None;
            }
            let changelog = match body {
                Some(text) => text,
                None => "No changelog provided.".to_string(),
            };
            Some(Release { version, changelog })
        },
        None => None,
    }
}

/// The latest release by the document that describes it, if its version is not
/// the current one.
pub fn check_release(document: &[u8], current: &str) -> (r: Option<Release>)
    ensures
        opt_release(r) == release_of(
            json_text_member(document@, "tag_name"@),
            json_text_member(document@, "body"@),
            current@,
        ),
{
    newer_release(
        read_text_member(document, "tag_name"),
        read_text_member(document, "body"),
        current,
    )
}

/// A release is only reported if its version differs from the current one, and
/// then with some changelog.
pub proof fn law_current_release_is_not_reported(
    tag: Option<Seq<char>>,
    body: Option<Seq<char>>,
    current: Seq<char>,
)
    ensures
        release_of(tag, body, current) matches Some(release) ==> release.0 != current,
        release_of(Some(current), body, without_leading(current, 'v')) is None,
        release_of(None, body, current) is None,
{
}

} // verus!
