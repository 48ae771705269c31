//! Finding the asset files that reference a script: the script's GUID from
//! its `.cs.meta` file, the lines of asset files that mention it, and their
//! order.
//!
//! Reading files and walking the asset directory are left to the caller,
//! which hands these functions the lines it read.

use crate::capabilities::codelens::{
    references_view, AssetReference, AssetReferenceModel, CodeLensError, CodeLensFault,
    CodeLensResult, result_view,
};
use crate::paths::{
    file_path_for_uri, file_path_of_uri, path_extension, path_extension_of, path_with_extension,
    path_with_extension_of,
};
use crate::path_order::{
    byte_strings_view, compare_components, law_path_order_total_preorder, path_components,
    path_components_of, path_order,
};
use crate::text::{
    chars_of, contains_chars, contains_text, law_strip_prefix, strip_prefix, strip_prefix_spec,
};
use vstd::prelude::*;

verus! {

broadcast use vstd::seq_lib::group_to_multiset_ensures;

/// The metadata path of the script that `script_uri` names, given the
/// file path of that URI (`None` where the URI names no local file).
pub open spec fn meta_path_for(script_uri: Seq<char>, file_path: Option<Seq<char>>) -> Result<
    Seq<char>,
    CodeLensFault,
> {
    match file_path {
        Some(p) => Ok(path_with_extension_of(p, "cs.meta"@)),
        None => Err(CodeLensFault::InvalidUri(script_uri)),
    }
}

/// The metadata file of a script is the script's path with its extension
/// replaced by `cs.meta`; a URI that names no local file is refused with
/// itself as the invalid URI.
pub proof fn law_meta_path(script_uri: Seq<char>, file_path: Option<Seq<char>>)
    ensures
        file_path matches Some(p) ==> meta_path_for(script_uri, file_path) == Ok::<
            Seq<char>,
            CodeLensFault,
        >(path_with_extension_of(p, "cs.meta"@)),
        file_path is None ==> meta_path_for(script_uri, file_path) == Err::<Seq<char>, CodeLensFault>(
            CodeLensFault::InvalidUri(script_uri),
        ),
{
}

/// Builds the path of a script's metadata file (its extension replaced by
/// `cs.meta`) from what `Uri::to_file_path` gave for the script's URI.
pub fn meta_path_from_file_path(script_uri: &str, file_path: Option<String>) -> (r: CodeLensResult<String>)
    ensures
        result_view(r) == meta_path_for(script_uri@, file_path.deep_view()),
{
    match file_path {
        Some(p) => {
            proof {
                reveal_strlit("cs.meta");
            }
            Ok(path_with_extension(p.as_str(), "cs.meta"))
        },
        None => Err(CodeLensError::InvalidUri(String::from_str(script_uri))),
    }
}

/// The path of the `.cs.meta` file beside the script that `script_uri`
/// names.
///
/// # Errors
///
/// Returns `CodeLensError::InvalidUri` when the URI names no local file.
pub fn meta_path_for_script(script_uri: &str) -> (r: CodeLensResult<String>)
    ensures
        result_view(r) == meta_path_for(script_uri@, file_path_of_uri(script_uri@)),
{
    let file_path = file_path_for_uri(script_uri);
    meta_path_from_file_path(script_uri, file_path)
}

/// The prefix of the line that holds a script's GUID in its metadata file.
pub open spec fn guid_prefix() -> Seq<char> {
    "guid: "@
}

/// The index of the first line that starts with the GUID prefix, if any.
pub open spec fn first_guid_line(lines: Seq<Seq<char>>) -> Option<int> {
    if exists|i: int| 0 <= i < lines.len() && strip_prefix_spec(lines[i], guid_prefix()) is Some {
        Some(
            choose|i: int|
                0 <= i < lines.len() && strip_prefix_spec(lines[i], guid_prefix()) is Some && forall|
                    j: int,
                |
                    0 <= j < i ==> strip_prefix_spec(lines[j], guid_prefix()) is None,
        )
    } else {
        None
    }
}

/// What a script's metadata file gives: the GUID of its first line that
/// starts with `guid: `; else the failure that stopped the reading after
/// `lines`; else the error that it holds no GUID.
pub open spec fn guid_from_lines(
    meta_path: Seq<char>,
    lines: Seq<Seq<char>>,
    read_failure: Option<Seq<char>>,
) -> Result<Seq<char>, CodeLensFault> {
    match first_guid_line(lines) {
        Some(i) => Ok(strip_prefix_spec(lines[i], guid_prefix()).unwrap()),
        None => match read_failure {
            Some(source) => Err(
                CodeLensFault::MetadataLineRead {
                    path: meta_path,
                    line: lines.len() as u32,
                    source: source,
                },
            ),
            None => Err(CodeLensFault::MetadataMissingGuid { path: meta_path }),
        },
    }
}

/// Among lines of which some start with the GUID prefix, one comes first.
proof fn lemma_first_guid_line(lines: Seq<Seq<char>>, n: int) -> (i: int)
    requires
        0 <= n <= lines.len(),
        exists|k: int| 0 <= k < n && strip_prefix_spec(#[trigger] lines[k], guid_prefix()) is Some,
    ensures
        0 <= i < n,
        strip_prefix_spec(lines[i], guid_prefix()) is Some,
        forall|j: int| 0 <= j < i ==> strip_prefix_spec(#[trigger] lines[j], guid_prefix()) is None,
    decreases n,
{
    if exists|k: int| 0 <= k < n - 1 && strip_prefix_spec(#[trigger] lines[k], guid_prefix()) is Some {
        lemma_first_guid_line(lines, n - 1)
    } else {
        n - 1
    }
}

/// `first_guid_line` picks the first line that starts with the GUID prefix.
proof fn lemma_first_guid_line_is_first(lines: Seq<Seq<char>>)
    ensures
        first_guid_line(lines) matches Some(i) ==> 0 <= i < lines.len() && strip_prefix_spec(
            lines[i],
            guid_prefix(),
        ) is Some && forall|j: int|
            0 <= j < i ==> strip_prefix_spec(#[trigger] lines[j], guid_prefix()) is None,
        first_guid_line(lines) is None ==> forall|j: int|
            0 <= j < lines.len() ==> strip_prefix_spec(#[trigger] lines[j], guid_prefix()) is None,
{
    if exists|k: int| 0 <= k < lines.len() && strip_prefix_spec(#[trigger] lines[k], guid_prefix()) is Some {
        let w = lemma_first_guid_line(lines, lines.len() as int);
        assert(0 <= w < lines.len() && strip_prefix_spec(lines[w], guid_prefix()) is Some && forall|
            j: int,
        |
            0 <= j < w ==> strip_prefix_spec(lines[j], guid_prefix()) is None);
    }
}

/// The GUID read from a metadata file is the rest of its first line that
/// is `guid: ` followed by it: that line is exactly `guid: ` and the GUID,
/// and no earlier line starts with `guid: `. Without such a line the result
/// is the read failure, at the line where reading stopped, or else the
/// error that the file holds no GUID.
pub proof fn law_guid_from_lines(
    meta_path: Seq<char>,
    lines: Seq<Seq<char>>,
    read_failure: Option<Seq<char>>,
)
    ensures
        guid_from_lines(meta_path, lines, read_failure) matches Ok(guid) ==> exists|i: int|
            0 <= i < lines.len() && #[trigger] lines[i] == "guid: "@ + guid && forall|j: int|
                0 <= j < i ==> !(exists|u: Seq<char>| #[trigger] lines[j] == "guid: "@ + u),
        (forall|i: int| 0 <= i < lines.len() ==> !(exists|u: Seq<char>| #[trigger] lines[i] == "guid: "@ + u))
            ==> guid_from_lines(meta_path, lines, read_failure) == match read_failure {
            Some(source) => Err::<Seq<char>, CodeLensFault>(
                CodeLensFault::MetadataLineRead {
                    path: meta_path,
                    line: lines.len() as u32,
                    source: source,
                },
            ),
            None => Err(CodeLensFault::MetadataMissingGuid { path: meta_path }),
        },
{
    lemma_first_guid_line_is_first(lines);
    if guid_from_lines(meta_path, lines, read_failure) is Ok {
        let i = first_guid_line(lines)->0;
        let guid = guid_from_lines(meta_path, lines, read_failure)->Ok_0;
        law_strip_prefix(lines[i], guid_prefix(), guid);
        assert forall|j: int| 0 <= j < i implies !(exists|u: Seq<char>| #[trigger] lines[j] == "guid: "@ + u) by {
            if exists|u: Seq<char>| lines[j] == "guid: "@ + u {
                let u = choose|u: Seq<char>| lines[j] == "guid: "@ + u;
                law_strip_prefix(lines[j], guid_prefix(), u);
                assert(strip_prefix_spec(lines[j], guid_prefix()) is None);
            }
        }
    }
    if forall|i: int| 0 <= i < lines.len() ==> !(exists|u: Seq<char>| #[trigger] lines[i] == "guid: "@ + u) {
        if first_guid_line(lines) is Some {
            let i = first_guid_line(lines)->0;
            let u = strip_prefix_spec(lines[i], guid_prefix())->0;
            law_strip_prefix(lines[i], guid_prefix(), u);
            assert(lines[i] == "guid: "@ + u);
        }
    }
}

/// The texts of a list of lines.
pub open spec fn lines_view(lines: Seq<String>) -> Seq<Seq<char>> {
    lines.map_values(|l: String| l@)
}

/// Extracts a script's GUID from the lines of its metadata file at
/// `meta_path`, read in order. `read_failure` is the message of the error
/// that stopped the reading right after `lines`, if one did.
///
/// # Errors
///
/// `MetadataLineRead` (at line `lines.len()`) when the reading failed before
/// a GUID line, `MetadataMissingGuid` when the file holds none.
pub fn extract_guid_from_lines(meta_path: &str, lines: &Vec<String>, read_failure: Option<String>) -> (r:
    CodeLensResult<String>)
    ensures
        result_view(r) == guid_from_lines(meta_path@, lines_view(lines@), read_failure.deep_view()),
{
    let ghost texts = lines_view(lines@);
    let mut i: usize = 0;
    while i < lines.len()
        invariant
            i <= lines@.len(),
            texts == lines_view(lines@),
            forall|j: int| 0 <= j < i ==> strip_prefix_spec(texts[j], guid_prefix()) is None,
        decreases lines@.len() - i,
    {
        match strip_prefix(lines[i].as_str(), "guid: ") {
            Some(guid) => {
                proof {
                    assert(strip_prefix_spec(texts[i as int], guid_prefix()) is Some);
                    let k = first_guid_line(texts).unwrap();
                    assert(k == i as int) by {
                        if k < i {
                        } else if k > i {
                        }
                    }
                }
                return Ok(guid);
            },
            None => {},
        }
        i = i + 1;
    }
    assert(first_guid_line(texts) is None);
    match read_failure {
        Some(source) => Err(
            CodeLensError::MetadataLineRead {
                path: String::from_str(meta_path),
                line: lines.len() as u32,
                source: source,
            },
        ),
        None => Err(CodeLensError::MetadataMissingGuid { path: String::from_str(meta_path) }),
    }
}

/// The asset file extensions that can reference a script: scenes, prefabs
/// and assets.
pub open spec fn is_supported_extension_spec(extension: Option<Seq<char>>) -> bool {
    match extension {
        Some(e) => e == "unity"@ || e == "prefab"@ || e == "asset"@,
        None => false,
    }
}

/// Exactly the extensions `unity`, `prefab` and `asset` are searched; a
/// file without an extension is not.
pub proof fn law_supported_extensions(extension: Option<Seq<char>>)
    ensures
        is_supported_extension_spec(extension) <==> (extension == Some("unity"@) || extension == Some(
            "prefab"@,
        ) || extension == Some("asset"@)),
{
}

/// Whether a file with this extension (as `Path::extension` gives it) is a
/// Unity scene, prefab or asset.
pub fn is_supported_extension(extension: Option<String>) -> (r: bool)
    ensures
        r == is_supported_extension_spec(extension.deep_view()),
{
    match extension {
        Some(e) => {
            let unity = String::from_str("unity");
            let prefab = String::from_str("prefab");
            let asset = String::from_str("asset");
            e == unity || e == prefab || e == asset
        },
        None => false,
    }
}

/// Whether the file at `path` is a Unity scene, prefab or asset, by its
/// extension.
pub fn is_supported_asset(path: &str) -> (r: bool)
    ensures
        r == is_supported_extension_spec(path_extension_of(path@)),
{
    is_supported_extension(path_extension(path))
}

/// The indices of the lines, among those that could be read, that mention
/// `guid`, in increasing order.
pub open spec fn matching_lines(lines: Seq<Option<Seq<char>>>, guid: Seq<char>) -> Seq<int>
    decreases lines.len(),
{
    if lines.len() == 0 {
        Seq::empty()
    } else {
        let prev = matching_lines(lines.drop_last(), guid);
        match lines.last() {
            Some(l) => if contains_text(l, guid) {
                prev.push(lines.len() - 1)
            } else {
                prev
            },
            None => prev,
        }
    }
}

/// The line could be read and mentions `guid`.
pub open spec fn mentions(line: Option<Seq<char>>, guid: Seq<char>) -> bool {
    line is Some && contains_text(line->0, guid)
}

/// The lines that references are reported at are exactly the readable
/// lines that mention the GUID, each once, in increasing order.
pub proof fn law_references_are_the_mentions(lines: Seq<Option<Seq<char>>>, guid: Seq<char>)
    ensures
        forall|k: int|
            0 <= k < matching_lines(lines, guid).len() ==> 0 <= #[trigger] matching_lines(
                lines,
                guid,
            )[k] < lines.len() && mentions(lines[matching_lines(lines, guid)[k]], guid),
        forall|k1: int, k2: int|
            0 <= k1 < k2 < matching_lines(lines, guid).len() ==> #[trigger] matching_lines(
                lines,
                guid,
            )[k1] < #[trigger] matching_lines(lines, guid)[k2],
        forall|i: int|
            0 <= i < lines.len() && #[trigger] mentions(lines[i], guid) ==> matching_lines(
                lines,
                guid,
            ).contains(i),
    decreases lines.len(),
{
    if lines.len() > 0 {
        let init = lines.drop_last();
        law_references_are_the_mentions(init, guid);
        let prev = matching_lines(init, guid);
        let m = matching_lines(lines, guid);
        let last = lines.len() - 1;
        assert forall|i: int| 0 <= i < init.len() implies init[i] == lines[i] by {}
        if mentions(lines[last], guid) {
            assert(m == prev.push(last));
            assert forall|i: int| 0 <= i < lines.len() && #[trigger] mentions(lines[i], guid) implies m.contains(i) by {
                if i < last {
                    assert(mentions(init[i], guid));
                    let k = choose|k: int| 0 <= k < prev.len() && prev[k] == i;
                    assert(m[k] == i);
                } else {
                    assert(m[prev.len() as int] == i);
                }
            }
        } else {
            assert(m == prev);
            assert forall|i: int| 0 <= i < lines.len() && #[trigger] mentions(lines[i], guid) implies m.contains(i) by {
                assert(i < last);
                assert(mentions(init[i], guid));
            }
        }
    }
}

/// Each reported reference is at the file `entry`, on a line that mentions
/// the GUID, numbered from zero (truncated to `u32`); there is one per
/// mentioning line, in line order.
pub proof fn law_references_in(entry: Seq<char>, lines: Seq<Option<Seq<char>>>, guid: Seq<char>)
    ensures
        references_in(entry, lines, guid).len() == matching_lines(lines, guid).len(),
        forall|k: int|
            0 <= k < references_in(entry, lines, guid).len() ==> (#[trigger] references_in(
                entry,
                lines,
                guid,
            )[k]).path == entry && references_in(entry, lines, guid)[k].line_number == (
            matching_lines(lines, guid)[k] as u32) && mentions(
                lines[matching_lines(lines, guid)[k]],
                guid,
            ),
{
    law_references_are_the_mentions(lines, guid);
}

/// The references that the lines of the asset file at `entry` hold to the
/// script with `guid`: one per line that mentions it, with its zero-based
/// line number (truncated to `u32`), in order.
pub open spec fn references_in(entry: Seq<char>, lines: Seq<Option<Seq<char>>>, guid: Seq<char>) -> Seq<
    AssetReferenceModel,
> {
    matching_lines(lines, guid).map_values(
        |i: int| AssetReferenceModel { path: entry, line_number: i as u32 },
    )
}

/// The texts of lines of which some could not be read.
pub open spec fn read_lines_view(lines: Seq<Option<String>>) -> Seq<Option<Seq<char>>> {
    lines.map_values(|l: Option<String>| l.deep_view())
}

/// Finds the references to the script with `guid` in the lines of the
/// asset file at `entry`; `None` stands for a line that could not be read,
/// which is skipped but counted. Gives `None` when no line mentions the GUID.
pub fn find_references_in_lines(entry: &str, lines: &Vec<Option<String>>, guid: &str) -> (r: Option<
    Vec<AssetReference>,
>)
    ensures
        match r {
            Some(v) => references_view(v@) == references_in(entry@, read_lines_view(lines@), guid@)
                && v@.len() > 0,
            None => references_in(entry@, read_lines_view(lines@), guid@).len() == 0,
        },
{
    let ghost texts = read_lines_view(lines@);
    let needle = chars_of(guid);
    let mut references: Vec<AssetReference> = Vec::new();
    let mut lnum: usize = 0;
    assert(texts.take(0) =~= Seq::<Option<Seq<char>>>::empty());
    assert(references_view(references@) =~= references_in(entry@, texts.take(0), guid@));
    while lnum < lines.len()
        invariant
            lnum <= lines@.len(),
            texts == read_lines_view(lines@),
            needle@ == guid@,
            references_view(references@) == references_in(entry@, texts.take(lnum as int), guid@),
        decreases lines@.len() - lnum,
    {
        let ghost before = references@;
        assert(texts.take(lnum + 1).drop_last() =~= texts.take(lnum as int));
        assert(texts.take(lnum + 1).last() == lines@[lnum as int].deep_view());
        match &lines[lnum] {
            Some(line) => {
                let hay = chars_of(line.as_str());
                if contains_chars(&hay, &needle) {
                    let ghost t1 = texts.take(lnum + 1);
                    assert(t1.last() == Some(line@));
                    assert(matching_lines(t1, guid@) == matching_lines(texts.take(lnum as int), guid@).push(
                        lnum as int,
                    ));
                    let line_number = (#[verifier::truncate] (lnum as u32));
                    references.push(
                        AssetReference { path: String::from_str(entry), line_number: line_number },
                    );
                    assert(references_view(references@) =~= references_view(before).push(
                        AssetReferenceModel { path: entry@, line_number: lnum as u32 },
                    ));
                    assert(references_view(references@) =~= references_in(
                        entry@,
                        texts.take(lnum + 1),
                        guid@,
                    ));
                } else {
                    assert(references_in(entry@, texts.take(lnum + 1), guid@) =~= references_in(
                        entry@,
                        texts.take(lnum as int),
                        guid@,
                    ));
                }
            },
            None => {
                assert(references_in(entry@, texts.take(lnum + 1), guid@) =~= references_in(
                    entry@,
                    texts.take(lnum as int),
                    guid@,
                ));
            },
        }
        lnum = lnum + 1;
    }
    assert(texts.take(lines@.len() as int) =~= texts);
    if references.len() == 0 {
        None
    } else {
        Some(references)
    }
}

/// The references that the file at `entry` holds to the script with
/// `guid`: none unless it is a scene, prefab or asset that could be opened,
/// else those of its lines.
pub open spec fn references_in_entry(
    entry: Seq<char>,
    lines: Option<Seq<Option<Seq<char>>>>,
    guid: Seq<char>,
) -> Seq<AssetReferenceModel> {
    if is_supported_extension_spec(path_extension_of(entry)) && lines is Some {
        references_in(entry, lines->0, guid)
    } else {
        Seq::empty()
    }
}

/// Finds the references to the script with `guid` in the file at `entry`,
/// given its lines (`None` where the file could not be opened). Only
/// scenes, prefabs and assets are searched; `None` when there is no
/// reference.
pub fn find_references_in_entry(entry: &str, lines: Option<Vec<Option<String>>>, guid: &str) -> (r:
    Option<Vec<AssetReference>>)
    ensures
        match r {
            Some(v) => references_view(v@) == references_in_entry(
                entry@,
                match lines {
                    Some(l) => Some(read_lines_view(l@)),
                    None => None,
                },
                guid@,
            ) && v@.len() > 0,
            None => references_in_entry(
                entry@,
                match lines {
                    Some(l) => Some(read_lines_view(l@)),
                    None => None,
                },
                guid@,
            ).len() == 0,
        },
{
    if !is_supported_asset(entry) {
        return None;
    }
    match lines {
        Some(l) => find_references_in_lines(entry, &l, guid),
        None => None,
    }
}

/// The order of two asset references: by path, component by component as
/// `Path` orders them (see `path_order`), then by line number. Negative,
/// zero or positive.
pub open spec fn reference_order(a: AssetReferenceModel, b: AssetReferenceModel) -> int {
    let by_path = path_order(a.path, b.path);
    if by_path != 0 {
        by_path
    } else if a.line_number < b.line_number {
        -1
    } else if a.line_number == b.line_number {
        0
    } else {
        1
    }
}

/// References are ordered by path first; only between references at paths
/// that `path_order` holds equal does the line number decide, the smaller
/// line first.
pub proof fn law_reference_order_path_then_line(a: AssetReferenceModel, b: AssetReferenceModel)
    ensures
        path_order(a.path, b.path) < 0 ==> reference_order(a, b) < 0,
        path_order(a.path, b.path) > 0 ==> reference_order(a, b) > 0,
        path_order(a.path, b.path) == 0 ==> (reference_order(a, b) < 0 <==> a.line_number
            < b.line_number) && (reference_order(a, b) == 0 <==> a.line_number == b.line_number),
{
}

/// Every reference comes no later than any reference after it.
pub open spec fn sorted_references(s: Seq<AssetReferenceModel>) -> bool {
    forall|i: int, j: int|
        0 <= i < j < s.len() ==> reference_order(#[trigger] s[i], #[trigger] s[j]) <= 0
}

/// The order of references is a total preorder: one of -1, 0, 1, flipping
/// with its arguments, and transitive.
pub proof fn law_reference_order_total_preorder(
    a: AssetReferenceModel,
    b: AssetReferenceModel,
    c: AssetReferenceModel,
)
    ensures
        -1 <= reference_order(a, b) <= 1,
        reference_order(b, a) == -reference_order(a, b),
        reference_order(a, b) <= 0 && reference_order(b, c) <= 0 ==> reference_order(a, c) <= 0,
        reference_order(a, b) < 0 && reference_order(b, c) <= 0 ==> reference_order(a, c) < 0,
        reference_order(a, b) <= 0 && reference_order(b, c) < 0 ==> reference_order(a, c) < 0,
{
    law_path_order_total_preorder(a.path, b.path, c.path);
    law_path_order_total_preorder(b.path, c.path, a.path);
    law_path_order_total_preorder(c.path, a.path, b.path);
    law_path_order_total_preorder(a.path, c.path, b.path);
    law_path_order_total_preorder(b.path, a.path, c.path);
    law_path_order_total_preorder(c.path, b.path, a.path);
}

/// `keys[i]` holds the path components of `refs[i]`.
pub open spec fn keys_match(refs: Seq<AssetReference>, keys: Seq<Vec<Vec<u8>>>) -> bool {
    &&& keys.len() == refs.len()
    &&& forall|i: int|
        0 <= i < refs.len() ==> byte_strings_view(#[trigger] keys[i]@) == path_components_of(
            refs[i].path@,
        )
}

/// The order of the references at positions `i` and `j`.
pub open spec fn index_order(refs: Seq<AssetReference>, i: usize, j: usize) -> int {
    reference_order(refs[i as int]@, refs[j as int]@)
}

/// The positions `lo`, `lo + 1`, ..., `hi - 1`.
pub open spec fn index_range(lo: usize, hi: usize) -> Seq<usize> {
    Seq::new((hi - lo) as nat, |k: int| (lo + k) as usize)
}

/// `idx` lists positions in `lo..hi` in the order of their references,
/// positions of equal references in increasing order.
pub open spec fn sorted_stable_indices(refs: Seq<AssetReference>, idx: Seq<usize>, lo: usize, hi: usize) -> bool {
    &&& forall|k: int| 0 <= k < idx.len() ==> lo <= #[trigger] idx[k] < hi
    &&& forall|k1: int, k2: int|
        0 <= k1 < k2 < idx.len() ==> index_order(refs, #[trigger] idx[k1], #[trigger] idx[k2]) <= 0
    &&& forall|k1: int, k2: int|
        0 <= k1 < k2 < idx.len() && index_order(refs, #[trigger] idx[k1], #[trigger] idx[k2]) == 0
            ==> idx[k1] < idx[k2]
}

/// Compares the references at positions `a` and `b`, by their path
/// components, then by their line numbers.
fn compare_at(refs: &Vec<AssetReference>, keys: &Vec<Vec<Vec<u8>>>, a: usize, b: usize) -> (r: i8)
    requires
        a < refs@.len(),
        b < refs@.len(),
        keys_match(refs@, keys@),
    ensures
        r == index_order(refs@, a, b),
{
    let by_path = compare_components(&keys[a], &keys[b]);
    if by_path != 0 {
        by_path
    } else if refs[a].line_number < refs[b].line_number {
        -1
    } else if refs[a].line_number == refs[b].line_number {
        0
    } else {
        1
    }
}

/// Merges two sorted, stable runs of positions, `left` from `lo..mid` and
/// `right` from `mid..hi`, taking from `left` on ties.
fn merge_runs(
    refs: &Vec<AssetReference>,
    keys: &Vec<Vec<Vec<u8>>>,
    left: &Vec<usize>,
    right: &Vec<usize>,
    lo: usize,
    mid: usize,
    hi: usize,
) -> (r: Vec<usize>)
    requires
        lo <= mid <= hi <= refs@.len(),
        keys_match(refs@, keys@),
        sorted_stable_indices(refs@, left@, lo, mid),
        sorted_stable_indices(refs@, right@, mid, hi),
    ensures
        r@.len() == left@.len() + right@.len(),
        r@.to_multiset() == left@.to_multiset().add(right@.to_multiset()),
        sorted_stable_indices(refs@, r@, lo, hi),
{
    let ghost rs = refs@;
    let mut out: Vec<usize> = Vec::new();
    let mut i: usize = 0;
    let mut j: usize = 0;
    assert(left@.take(0) =~= Seq::<usize>::empty());
    assert(right@.take(0) =~= Seq::<usize>::empty());
    while i < left.len() || j < right.len()
        invariant
            lo <= mid <= hi <= refs@.len(),
            rs == refs@,
            keys_match(refs@, keys@),
            sorted_stable_indices(rs, left@, lo, mid),
            sorted_stable_indices(rs, right@, mid, hi),
            i <= left@.len(),
            j <= right@.len(),
            out@.len() == i + j,
            out@.to_multiset() == left@.take(i as int).to_multiset().add(
                right@.take(j as int).to_multiset(),
            ),
            sorted_stable_indices(rs, out@, lo, hi),
            i < left@.len() ==> forall|k: int|
                0 <= k < out@.len() ==> index_order(rs, #[trigger] out@[k], left@[i as int]) <= 0,
            j < right@.len() ==> forall|k: int|
                0 <= k < out@.len() ==> index_order(rs, #[trigger] out@[k], right@[j as int]) <= 0,
            i < left@.len() ==> forall|k: int|
                0 <= k < out@.len() && #[trigger] out@[k] >= mid ==> index_order(
                    rs,
                    out@[k],
                    left@[i as int],
                ) < 0,
            i < left@.len() ==> forall|k: int|
                0 <= k < out@.len() && #[trigger] out@[k] < mid && index_order(
                    rs,
                    out@[k],
                    left@[i as int],
                ) == 0 ==> out@[k] < left@[i as int],
            j < right@.len() ==> forall|k: int|
                0 <= k < out@.len() && #[trigger] out@[k] >= mid && index_order(
                    rs,
                    out@[k],
                    right@[j as int],
                ) == 0 ==> out@[k] < right@[j as int],
        decreases left@.len() + right@.len() - i - j,
    {
        let take_left = if i == left.len() {
            false
        } else if j == right.len() {
            true
        } else {
            compare_at(refs, keys, left[i], right[j]) <= 0
        };
        let ghost before = out@;
        if take_left {
            let x = left[i];
            out.push(x);
            proof {
                let n = before.len() as int;
                let o = out@;
                assert(o == before.push(x));
                assert(lo <= x < mid);
                if j < right@.len() {
                    assert(index_order(rs, x, right@[j as int]) <= 0);
                }
                assert forall|k1: int, k2: int|
                    0 <= k1 < k2 < o.len() implies index_order(rs, #[trigger] o[k1], #[trigger] o[k2])
                    <= 0 && (index_order(rs, o[k1], o[k2]) == 0 ==> o[k1] < o[k2]) by {
                    if k2 == n {
                        assert(o[k1] == before[k1]);
                        assert(index_order(rs, before[k1], x) <= 0);
                        if before[k1] >= mid {
                            assert(index_order(rs, before[k1], x) < 0);
                        }
                    } else {
                        assert(o[k1] == before[k1] && o[k2] == before[k2]);
                    }
                }
                if i + 1 < left@.len() {
                    let next = left@[i + 1];
                    assert(index_order(rs, x, next) <= 0);
                    assert(index_order(rs, x, next) == 0 ==> x < next);
                    assert forall|k: int| 0 <= k < o.len() implies index_order(rs, #[trigger] o[k], next)
                        <= 0 && (o[k] >= mid ==> index_order(rs, o[k], next) < 0) && (o[k] < mid
                        && index_order(rs, o[k], next) == 0 ==> o[k] < next) by {
                        if k < n {
                            let e = before[k];
                            assert(o[k] == e);
                            law_reference_order_total_preorder(rs[e as int]@, rs[x as int]@, rs[next as int]@);
                            assert(index_order(rs, e, x) <= 0);
                            if e >= mid {
                                assert(index_order(rs, e, x) < 0);
                            } else if index_order(rs, e, next) == 0 {
                                assert(index_order(rs, e, x) == 0);
                                assert(e < x);
                                assert(index_order(rs, x, next) == 0);
                            }
                        }
                    }
                }
                if j < right@.len() {
                    let head = right@[j as int];
                    assert forall|k: int| 0 <= k < o.len() implies index_order(rs, #[trigger] o[k], head)
                        <= 0 && (o[k] >= mid && index_order(rs, o[k], head) == 0 ==> o[k] < head) by {
                        if k < n {
                            assert(o[k] == before[k]);
                        }
                    }
                }
                assert(left@.take(i + 1) =~= left@.take(i as int).push(x));
                assert(o.to_multiset() =~= left@.take(i + 1).to_multiset().add(
                    right@.take(j as int).to_multiset(),
                ));
            }
            i = i + 1;
        } else {
            let y = right[j];
            out.push(y);
            proof {
                let n = before.len() as int;
                let o = out@;
                assert(o == before.push(y));
                assert(mid <= y < hi);
                if i < left@.len() {
                    let l = left@[i as int];
                    law_reference_order_total_preorder(rs[l as int]@, rs[y as int]@, rs[y as int]@);
                    assert(index_order(rs, l, y) > 0);
                    assert(index_order(rs, y, l) < 0);
                    assert forall|k: int| 0 <= k < o.len() implies index_order(rs, #[trigger] o[k], l)
                        <= 0 && (o[k] >= mid ==> index_order(rs, o[k], l) < 0) && (o[k] < mid
                        && index_order(rs, o[k], l) == 0 ==> o[k] < l) by {
                        if k < n {
                            assert(o[k] == before[k]);
                        }
                    }
                }
                assert forall|k1: int, k2: int|
                    0 <= k1 < k2 < o.len() implies index_order(rs, #[trigger] o[k1], #[trigger] o[k2])
                    <= 0 && (index_order(rs, o[k1], o[k2]) == 0 ==> o[k1] < o[k2]) by {
                    if k2 == n {
                        assert(o[k1] == before[k1]);
                        assert(index_order(rs, before[k1], y) <= 0);
                    } else {
                        assert(o[k1] == before[k1] && o[k2] == before[k2]);
                    }
                }
                if j + 1 < right@.len() {
                    let next = right@[j + 1];
                    assert(index_order(rs, y, next) <= 0);
                    assert(index_order(rs, y, next) == 0 ==> y < next);
                    assert forall|k: int| 0 <= k < o.len() implies index_order(rs, #[trigger] o[k], next)
                        <= 0 && (o[k] >= mid && index_order(rs, o[k], next) == 0 ==> o[k] < next) by {
                        if k < n {
                            let e = before[k];
                            assert(o[k] == e);
                            law_reference_order_total_preorder(rs[e as int]@, rs[y as int]@, rs[next as int]@);
                            assert(index_order(rs, e, y) <= 0);
                            if e >= mid && index_order(rs, e, next) == 0 {
                                assert(index_order(rs, e, y) == 0);
                                assert(e < y);
                                assert(index_order(rs, y, next) == 0);
                            }
                        }
                    }
                }
                assert(right@.take(j + 1) =~= right@.take(j as int).push(y));
                assert(o.to_multiset() =~= left@.take(i as int).to_multiset().add(
                    right@.take(j + 1).to_multiset(),
                ));
            }
            j = j + 1;
        }
    }
    assert(left@.take(left@.len() as int) =~= left@);
    assert(right@.take(right@.len() as int) =~= right@);
    out
}

/// Sorts the positions `lo..hi` of `refs` by their references, stably
/// (merge sort).
fn merge_sort_indices(refs: &Vec<AssetReference>, keys: &Vec<Vec<Vec<u8>>>, lo: usize, hi: usize) -> (r:
    Vec<usize>)
    requires
        lo <= hi <= refs@.len(),
        keys_match(refs@, keys@),
    ensures
        r@.len() == hi - lo,
        r@.to_multiset() == index_range(lo, hi).to_multiset(),
        sorted_stable_indices(refs@, r@, lo, hi),
    decreases hi - lo,
{
    if hi - lo == 0 {
        let r: Vec<usize> = Vec::new();
        assert(r@ =~= index_range(lo, hi));
        return r;
    }
    if hi - lo == 1 {
        let mut r: Vec<usize> = Vec::new();
        r.push(lo);
        assert(r@ =~= index_range(lo, hi));
        return r;
    }
    let mid = lo + (hi - lo) / 2;
    let left = merge_sort_indices(refs, keys, lo, mid);
    let right = merge_sort_indices(refs, keys, mid, hi);
    let merged = merge_runs(refs, keys, &left, &right, lo, mid, hi);
    proof {
        assert(index_range(lo, mid) + index_range(mid, hi) =~= index_range(lo, hi));
        vstd::seq_lib::lemma_multiset_commutative(index_range(lo, mid), index_range(mid, hi));
    }
    merged
}

/// `out` arranges references taken from `input`: the `k`-th of `out` is
/// the `perm[k]`-th of `input`, no reference of `input` is taken twice, and
/// two references that are equal in `reference_order` keep the order they
/// had in `input` (the arrangement is stable). Where `out` is as long as
/// `input`, it is a permutation of it.
pub open spec fn stable_arrangement(
    out: Seq<AssetReference>,
    input: Seq<AssetReference>,
    perm: Seq<int>,
) -> bool {
    &&& perm.len() == out.len()
    &&& forall|k: int|
        0 <= k < perm.len() ==> 0 <= #[trigger] perm[k] < input.len() && out[k] == input[perm[k]]
    &&& forall|k1: int, k2: int|
        0 <= k1 < k2 < perm.len() ==> #[trigger] perm[k1] != #[trigger] perm[k2]
    &&& forall|k1: int, k2: int|
        0 <= k1 < k2 < perm.len() && reference_order(#[trigger] out[k1]@, #[trigger] out[k2]@)
            == 0 ==> perm[k1] < perm[k2]
}

/// Sorts asset references by path, then by line number, in O(n log n)
/// comparisons. The result is a permutation of the references in which
/// each one comes no later than any after it, and references that compare
/// equal keep their order (the sort is stable).
pub fn sort_references(references: &Vec<AssetReference>) -> (r: Vec<AssetReference>)
    ensures
        r@.len() == references@.len(),
        sorted_references(references_view(r@)),
        exists|perm: Seq<int>| stable_arrangement(r@, references@, perm),
{
    let n = references.len();
    let mut keys: Vec<Vec<Vec<u8>>> = Vec::new();
    for i in 0..n
        invariant
            n == references@.len(),
            keys@.len() == i,
            forall|k: int|
                0 <= k < i ==> byte_strings_view(#[trigger] keys@[k]@) == path_components_of(
                    references@[k].path@,
                ),
    {
        keys.push(path_components(references[i].path.as_str()));
    }
    let idx = merge_sort_indices(references, &keys, 0, n);
    proof {
        let range = index_range(0, n);
        assert(range.no_duplicates());
        range.lemma_multiset_has_no_duplicates();
        assert forall|x: usize| idx@.to_multiset().contains(x) implies idx@.to_multiset().count(x)
            == 1 by {
            assert(range.to_multiset().count(x) == idx@.to_multiset().count(x));
        }
        idx@.lemma_multiset_has_no_duplicates_conv();
    }
    let mut out: Vec<AssetReference> = Vec::new();
    for k in 0..n
        invariant
            n == references@.len(),
            idx@.len() == n,
            sorted_stable_indices(references@, idx@, 0, n),
            out@.len() == k,
            forall|m: int| 0 <= m < k ==> #[trigger] out@[m] == references@[idx@[m] as int],
    {
        let at = idx[k];
        let r = AssetReference { path: references[at].path.clone(), line_number: references[at].line_number };
        out.push(r);
    }
    let ghost perm = idx@.map_values(|x: usize| x as int);
    proof {
        let v = references_view(out@);
        assert forall|i: int, j: int| 0 <= i < j < v.len() implies reference_order(
            #[trigger] v[i],
            #[trigger] v[j],
        ) <= 0 by {
            assert(out@[i] == references@[idx@[i] as int]);
            assert(out@[j] == references@[idx@[j] as int]);
            assert(index_order(references@, idx@[i], idx@[j]) <= 0);
        }
        assert forall|k1: int, k2: int|
            0 <= k1 < k2 < perm.len() && reference_order(#[trigger] out@[k1]@, #[trigger] out@[k2]@)
                == 0 implies perm[k1] < perm[k2] by {
            assert(out@[k1] == references@[idx@[k1] as int]);
            assert(out@[k2] == references@[idx@[k2] as int]);
            assert(index_order(references@, idx@[k1], idx@[k2]) == 0);
        }
        assert forall|k1: int, k2: int| 0 <= k1 < k2 < perm.len() implies #[trigger] perm[k1]
            != #[trigger] perm[k2] by {
            assert(idx@[k1] != idx@[k2]);
        }
        assert forall|k: int| 0 <= k < perm.len() implies 0 <= #[trigger] perm[k] < references@.len()
            && out@[k] == references@[perm[k]] by {
            assert(out@[k] == references@[idx@[k] as int]);
        }
        assert(stable_arrangement(out@, references@, perm));
    }
    out
}

/// The references of all groups, one group after the other.
pub open spec fn all_found(found: Seq<Vec<AssetReference>>) -> Seq<AssetReference> {
    found.map_values(|g: Vec<AssetReference>| g@).flatten()
}

/// All references found in the asset files, one group per file in the
/// order the files were walked, put in order by path, then line number
/// (references that compare equal stay in the order they were found).
pub fn order_asset_references(found: Vec<Vec<AssetReference>>) -> (r: Vec<AssetReference>)
    ensures
        r@.len() == all_found(found@).len(),
        sorted_references(references_view(r@)),
        exists|perm: Seq<int>| stable_arrangement(r@, all_found(found@), perm),
{
    let ghost groups = found@.map_values(|g: Vec<AssetReference>| g@);
    assert(all_found(found@) == groups.flatten());
    let mut all: Vec<AssetReference> = Vec::new();
    let mut found = found;
    let mut i: usize = 0;
    let n = found.len();
    assert(groups.take(0) =~= Seq::<Seq<AssetReference>>::empty());
    assert(groups.take(0).flatten() =~= Seq::<AssetReference>::empty()) by {
        reveal_with_fuel(Seq::flatten, 1);
    }
    while i < n
        invariant
            n == found@.len(),
            i <= n,
            groups.len() == n,
            forall|k: int| i <= k < n ==> found@[k]@ == #[trigger] groups[k],
            all@ == groups.take(i as int).flatten(),
        decreases n - i,
    {
        let ghost before = all@;
        let mut group: Vec<AssetReference> = Vec::new();
        std::mem::swap(&mut group, &mut found[i]);
        let ghost g = group@;
        assert(g == groups[i as int]);
        all.append(&mut group);
        proof {
            assert(groups.take(i + 1).drop_last() =~= groups.take(i as int));
            groups.take(i as int).lemma_flatten_push(g);
            assert(groups.take(i as int).push(g) =~= groups.take(i + 1));
        }
        i = i + 1;
    }
    assert(groups.take(n as int) =~= groups);
    sort_references(&all)
}

} // verus!
