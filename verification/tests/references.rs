use unity_ls::capabilities::codelens::{AssetReference, CodeLensError};
use unity_ls::capabilities::references::{
    extract_guid_from_lines, find_references_in_entry, find_references_in_lines, is_supported_asset, is_supported_extension,
    meta_path_for_script, meta_path_from_file_path, order_asset_references, sort_references,
};

fn reference(path: &str, line_number: u32) -> AssetReference {
    AssetReference { path: path.to_string(), line_number }
}

fn lines(texts: &[&str]) -> Vec<String> {
    texts.iter().map(|t| t.to_string()).collect()
}

#[test]
fn meta_path_is_beside_the_script() {
    assert_eq!(
        meta_path_for_script("file:///tmp/p/Assets/Player.cs"),
        Ok("/tmp/p/Assets/Player.cs.meta".to_string())
    );
    assert_eq!(
        meta_path_for_script("file:///tmp/p/Assets/My%20Script.cs"),
        Ok("/tmp/p/Assets/My Script.cs.meta".to_string())
    );
}

#[test]
fn meta_path_needs_a_file_uri() {
    assert_eq!(
        meta_path_for_script("https://example.com/Player.cs"),
        Err(CodeLensError::InvalidUri("https://example.com/Player.cs".to_string()))
    );
    assert_eq!(
        meta_path_from_file_path("x", None),
        Err(CodeLensError::InvalidUri("x".to_string()))
    );
    assert_eq!(
        meta_path_from_file_path("x", Some("/a/B.cs".to_string())),
        Ok("/a/B.cs.meta".to_string())
    );
}

#[test]
fn guid_is_read_from_its_line() {
    let meta = lines(&["fileFormatVersion: 2", "guid: 83c14770bb100154e969c8bc1a4f153c", "guid: other"]);
    assert_eq!(
        extract_guid_from_lines("/a.cs.meta", &meta, None),
        Ok("83c14770bb100154e969c8bc1a4f153c".to_string())
    );
}

#[test]
fn guid_found_before_a_read_failure_wins() {
    let meta = lines(&["guid: abc"]);
    assert_eq!(
        extract_guid_from_lines("/a.cs.meta", &meta, Some("bad utf-8".to_string())),
        Ok("abc".to_string())
    );
}

#[test]
fn guid_line_must_start_with_the_prefix() {
    let meta = lines(&["fileFormatVersion: 2", "  guid: abc", "guid:abc"]);
    assert_eq!(
        extract_guid_from_lines("/a.cs.meta", &meta, None),
        Err(CodeLensError::MetadataMissingGuid { path: "/a.cs.meta".to_string() })
    );
}

#[test]
fn read_failure_before_a_guid_is_reported() {
    let meta = lines(&["fileFormatVersion: 2"]);
    assert_eq!(
        extract_guid_from_lines("/a.cs.meta", &meta, Some("stream did not contain valid UTF-8".to_string())),
        Err(CodeLensError::MetadataLineRead {
            path: "/a.cs.meta".to_string(),
            line: 1,
            source: "stream did not contain valid UTF-8".to_string(),
        })
    );
}

#[test]
fn supported_assets_by_extension() {
    assert!(is_supported_asset("/p/Assets/Main.unity"));
    assert!(is_supported_asset("/p/Assets/Enemy.prefab"));
    assert!(is_supported_asset("/p/Assets/Data.asset"));
    assert!(!is_supported_asset("/p/Assets/Player.cs"));
    assert!(!is_supported_asset("/p/Assets/Main.unity.meta"));
    assert!(!is_supported_asset("/p/Assets/unity"));
    assert!(!is_supported_asset("/p/Assets/.unity"));
    assert!(is_supported_extension(Some("unity".to_string())));
    assert!(!is_supported_extension(Some("UNITY".to_string())));
    assert!(!is_supported_extension(None));
}

#[test]
fn references_at_lines_that_mention_the_guid() {
    let content = vec![
        Some("%YAML 1.1".to_string()),
        Some("  m_Script: {fileID: 11500000, guid: abc123, type: 3}".to_string()),
        None,
        Some("  other: 1".to_string()),
        Some("guid: abc123".to_string()),
    ];
    assert_eq!(
        find_references_in_lines("/p/Assets/Main.unity", &content, "abc123"),
        Some(vec![reference("/p/Assets/Main.unity", 1), reference("/p/Assets/Main.unity", 4)])
    );
}

#[test]
fn no_mention_no_references() {
    let content = vec![Some("guid: abc12".to_string()), None];
    assert_eq!(find_references_in_lines("/p/A.prefab", &content, "abc123"), None);
    assert_eq!(find_references_in_lines("/p/A.prefab", &vec![], "abc123"), None);
}

#[test]
fn references_sorted_by_path_then_line() {
    let refs = vec![
        reference("/p/Assets/b.unity", 4),
        reference("/p/Assets/a.unity", 9),
        reference("/p/Assets/b.unity", 1),
        reference("/p/Assets/a.unity", 2),
    ];
    assert_eq!(
        sort_references(&refs),
        vec![
            reference("/p/Assets/a.unity", 2),
            reference("/p/Assets/a.unity", 9),
            reference("/p/Assets/b.unity", 1),
            reference("/p/Assets/b.unity", 4),
        ]
    );
}

#[test]
fn paths_sort_by_component() {
    // Component order puts "a/x" before "a-b": the component "a" is a prefix of "a-b".
    let refs = vec![reference("/p/a-b.unity", 0), reference("/p/a/x.unity", 0)];
    assert_eq!(
        sort_references(&refs),
        vec![reference("/p/a/x.unity", 0), reference("/p/a-b.unity", 0)]
    );
}

#[test]
fn groups_are_merged_and_sorted() {
    let found = vec![
        vec![reference("/p/z.prefab", 3), reference("/p/z.prefab", 7)],
        vec![reference("/p/a.unity", 5)],
    ];
    assert_eq!(
        order_asset_references(found),
        vec![reference("/p/a.unity", 5), reference("/p/z.prefab", 3), reference("/p/z.prefab", 7)]
    );
}

#[test]
fn equal_paths_keep_their_order() {
    // `Path` compares these two spellings of one path as equal.
    let refs = vec![reference("/p//a.unity", 3), reference("/p/a.unity", 3)];
    assert_eq!(sort_references(&refs), refs);
    let swapped = vec![reference("/p/a.unity", 3), reference("/p//a.unity", 3)];
    assert_eq!(sort_references(&swapped), swapped);
}

#[test]
fn only_supported_entries_are_searched() {
    let content = vec![Some("m_Script: {guid: abc123}".to_string())];
    assert_eq!(
        find_references_in_entry("/p/Assets/Enemy.prefab", Some(content.clone()), "abc123"),
        Some(vec![reference("/p/Assets/Enemy.prefab", 0)])
    );
    assert_eq!(find_references_in_entry("/p/Assets/Enemy.txt", Some(content), "abc123"), None);
    assert_eq!(find_references_in_entry("/p/Assets/Enemy.prefab", None, "abc123"), None);
}

#[test]
fn sort_agrees_with_path_order_on_many_references() {
    let names = ["b", "a", "a/x", "a-b", "./c", "../d", "/", "a//b", "a/b", ".hidden", "z", "A"];
    let mut refs = Vec::new();
    let mut seed: u32 = 7;
    for round in 0..60u32 {
        seed = seed.wrapping_mul(1103515245).wrapping_add(12345);
        let name = names[(seed >> 16) as usize % names.len()];
        refs.push(reference(&format!("/p/{name}.unity"), (seed >> 8) % 5 + round % 2));
    }
    let mut expected = refs.clone();
    expected.sort_by(|l, r| {
        std::path::Path::new(&l.path)
            .cmp(std::path::Path::new(&r.path))
            .then(l.line_number.cmp(&r.line_number))
    });
    assert_eq!(sort_references(&refs), expected);
}
