//! File paths and `file:` URIs, as text.
//!
//! Paths and URIs are held as `String`s throughout the library; the
//! conversions between them are those of `std::path` and of the URI type of
//! `gen_lsp_types` (the `url` crate's `Url`), reached through the trusted
//! functions below. Joining the `Assets` directory onto the workspace root
//! is written out and verified.

use gen_lsp_types::Uri;
use std::path::Path;
use crate::text::chars_of;
use vstd::prelude::*;

verus! {

/// The text of the URI that `Uri::from_file_path` builds for `path`, or
/// `None` where it refuses the path (on Unix a path that is not absolute;
/// on Windows one without a disk or UNC prefix).
pub uninterp spec fn file_uri_of_path(path: Seq<char>) -> Option<Seq<char>>;

/// The path that `Uri::to_file_path` gives for the URI written as `uri`,
/// as text (lossily where it is not UTF-8), or `None` where the text is no
/// URI or the URI names no local file.
pub uninterp spec fn file_path_of_uri(uri: Seq<char>) -> Option<Seq<char>>;

/// The path that `Path::with_extension` gives for `path` and `extension`.
pub uninterp spec fn path_with_extension_of(path: Seq<char>, extension: Seq<char>) -> Seq<char>;

/// What `Path::extension` gives for `path`.
pub uninterp spec fn path_extension_of(path: Seq<char>) -> Option<Seq<char>>;

/// The text of a path starts with `/` (on Unix: the path is absolute).
pub open spec fn is_absolute_path(path: Seq<char>) -> bool {
    path.len() > 0 && path[0] == '/'
}

/// Calls `gen_lsp_types::Uri::from_file_path` (`url::Url::from_file_path`)
/// and renders the URI as text. Claimed: the result is the name
/// `file_uri_of_path` of the path. Which paths it refuses depends on the
/// target (on Unix those that do not start at the root; on Windows those
/// without a disk or UNC prefix) and is left unsaid.
#[verifier::external_body]
pub(crate) fn file_uri_for_path(path: &str) -> (r: Option<String>)
    ensures
        r.deep_view() == file_uri_of_path(path@),
{
    match Uri::from_file_path(path) {
        Ok(uri) => Some(uri.to_string()),
        Err(()) => None,
    }
}

/// Parses `uri` as a `gen_lsp_types::Uri` and calls `Uri::to_file_path`,
/// rendering the path as text (`to_string_lossy`: the library holds paths
/// as text, so a decoded path that is not UTF-8 has its invalid bytes
/// replaced by U+FFFD). Claimed: the result is the name `file_path_of_uri`
/// of the text.
#[verifier::external_body]
pub(crate) fn file_path_for_uri(uri: &str) -> (r: Option<String>)
    ensures
        r.deep_view() == file_path_of_uri(uri@),
{
    match Uri::parse(uri) {
        Ok(parsed) => match parsed.to_file_path() {
            Ok(path) => Some(path.to_string_lossy().into_owned()),
            Err(()) => None,
        },
        Err(_) => None,
    }
}

/// The text holds no path separator (neither `/` nor, on Windows, `\\`).
pub open spec fn has_no_separator(text: Seq<char>) -> bool {
    forall|i: int| 0 <= i < text.len() ==> text[i] != '/' && text[i] != '\\'
}

/// Calls `std::path::Path::with_extension`, which panics on an extension
/// that holds a path separator; such extensions are ruled out. Claimed: the
/// result is the name `path_with_extension_of` of the two arguments.
#[verifier::external_body]
pub(crate) fn path_with_extension(path: &str, extension: &str) -> (r: String)
    requires
        has_no_separator(extension@),
    ensures
        r@ == path_with_extension_of(path@, extension@),
{
    Path::new(path).with_extension(extension).to_string_lossy().into_owned()
}

/// Calls `std::path::Path::extension`. Claimed: the result is the name
/// `path_extension_of` of the path.
#[verifier::external_body]
pub(crate) fn path_extension(path: &str) -> (r: Option<String>)
    ensures
        r.deep_view() == path_extension_of(path@),
{
    Path::new(path).extension().map(|e| e.to_string_lossy().into_owned())
}

/// The path that `Path::join` gives, on Unix, for `base` and a relative
/// `name` that holds no separator: `name` after `base`, with a `/` between
/// them unless `base` is empty or already ends with one.
pub open spec fn join_relative(base: Seq<char>, name: Seq<char>) -> Seq<char> {
    if base.len() == 0 || base.last() == '/' {
        base + name
    } else {
        base + seq!['/'] + name
    }
}

/// Joining puts the name after the base, with exactly one `/` between
/// them: one is added only when the base is not empty and does not already
/// end with one.
pub proof fn law_join_relative(base: Seq<char>, name: Seq<char>)
    ensures
        base.len() > 0 && base.last() != '/' ==> join_relative(base, name) == base + seq!['/']
            + name,
        base.len() == 0 || base.last() == '/' ==> join_relative(base, name) == base + name,
{
}

/// The `Assets` directory of the Unity project rooted at `workspace_root`.
/// It starts with `/` whenever the root does.
pub fn assets_dir(workspace_root: &str) -> (r: String)
    ensures
        r@ == join_relative(workspace_root@, "Assets"@),
        is_absolute_path(workspace_root@) ==> is_absolute_path(r@),
{
    let root = chars_of(workspace_root);
    let mut dir = String::from_str(workspace_root);
    if root.len() > 0 && root[root.len() - 1] != '/' {
        dir.append("/");
        proof {
            reveal_strlit("/");
        }
    }
    dir.append("Assets");
    dir
}

} // verus!
