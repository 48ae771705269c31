use unity_ls::syntax::SyntaxScan;
use unity_ls::capabilities::codelens::{
    class_line_from_scan, parse_class_line, reference_title_exec, AssetReference, CodeLens, CodeLensError, Location,
    Position, Range, UnityCodeLens,
};

fn reference(path: &str, line_number: u32) -> AssetReference {
    AssetReference { path: path.to_string(), line_number }
}

fn line_range(line: u32) -> Range {
    Range {
        start: Position { line, character: 0 },
        end: Position { line, character: 1 },
    }
}

fn unresolved(data: Option<Vec<AssetReference>>) -> CodeLens {
    CodeLens { range: line_range(4), command: None, data }
}

#[test]
fn location_spans_first_character_of_the_line() {
    let location = reference("/tmp/project/Assets/Main.unity", 12)
        .to_codelens_location()
        .expect("location");
    assert_eq!(
        location,
        Location {
            uri: "file:///tmp/project/Assets/Main.unity".to_string(),
            range: line_range(12),
        }
    );
}

#[test]
fn location_encodes_the_path() {
    let location = reference("/tmp/my project/A.prefab", 0).to_codelens_location().expect("location");
    assert_eq!(location.uri, "file:///tmp/my%20project/A.prefab");
}

#[test]
fn relative_path_has_no_location() {
    let err = reference("Assets/Main.unity", 3).to_codelens_location().unwrap_err();
    assert_eq!(err, CodeLensError::InvalidPath("Assets/Main.unity".to_string()));
}

#[test]
fn location_from_uri_builds_or_refuses() {
    let r = reference("/x/y.asset", 7);
    assert_eq!(
        r.location_from_uri(Some("file:///x/y.asset".to_string())),
        Ok(Location { uri: "file:///x/y.asset".to_string(), range: line_range(7) })
    );
    assert_eq!(r.location_from_uri(None), Err(CodeLensError::InvalidPath("/x/y.asset".to_string())));
}

#[test]
fn titles_count_references() {
    assert_eq!(reference_title_exec(0), "0 Unity references");
    assert_eq!(reference_title_exec(1), "1 Unity reference");
    assert_eq!(reference_title_exec(2), "2 Unity references");
    assert_eq!(reference_title_exec(10), "10 Unity references");
    assert_eq!(reference_title_exec(1234567), "1234567 Unity references");
}

#[test]
fn resolve_without_data_fails() {
    assert_eq!(UnityCodeLens::resolve(unresolved(None)), Err(CodeLensError::MissingData));
}

#[test]
fn resolve_one_reference() {
    let resolved = UnityCodeLens::resolve(unresolved(Some(vec![reference("/p/Assets/A.unity", 5)])))
        .expect("resolved");
    assert_eq!(resolved.range, line_range(4));
    assert_eq!(resolved.data, None);
    let command = resolved.command.expect("command");
    assert_eq!(command.title, "1 Unity reference");
    assert_eq!(command.command, "showUnityReferences");
    assert_eq!(
        command.arguments,
        vec![Location { uri: "file:///p/Assets/A.unity".to_string(), range: line_range(5) }]
    );
}

#[test]
fn resolve_several_references_in_order() {
    let lens = unresolved(Some(vec![
        reference("/p/Assets/B.prefab", 9),
        reference("/p/Assets/A.unity", 2),
        reference("/p/Assets/A.unity", 30),
    ]));
    let resolved = UnityCodeLens::resolve(lens).expect("resolved");
    let command = resolved.command.expect("command");
    assert_eq!(command.title, "3 Unity references");
    let uris: Vec<(String, u32)> =
        command.arguments.iter().map(|l| (l.uri.clone(), l.range.start.line)).collect();
    assert_eq!(
        uris,
        vec![
            ("file:///p/Assets/B.prefab".to_string(), 9),
            ("file:///p/Assets/A.unity".to_string(), 2),
            ("file:///p/Assets/A.unity".to_string(), 30),
        ]
    );
}

#[test]
fn resolve_no_references() {
    let resolved = UnityCodeLens::resolve(unresolved(Some(vec![]))).expect("resolved");
    let command = resolved.command.expect("command");
    assert_eq!(command.title, "0 Unity references");
    assert!(command.arguments.is_empty());
}

#[test]
fn resolve_reports_first_bad_path() {
    let lens = unresolved(Some(vec![
        reference("/p/Assets/A.unity", 1),
        reference("relative/B.unity", 2),
        reference("other/C.unity", 3),
    ]));
    assert_eq!(
        UnityCodeLens::resolve(lens),
        Err(CodeLensError::InvalidPath("relative/B.unity".to_string()))
    );
}

#[test]
fn resolved_lens_cannot_be_resolved_again() {
    let resolved = UnityCodeLens::resolve(unresolved(Some(vec![]))).expect("resolved");
    assert_eq!(UnityCodeLens::resolve(resolved), Err(CodeLensError::MissingData));
}

const SCRIPT: &str = "using UnityEngine;\n\nnamespace Game\n{\n    public class Player : MonoBehaviour\n    {\n    }\n}\n";

#[test]
fn finds_the_class_line() {
    assert_eq!(parse_class_line(SCRIPT), Ok(Some(4)));
    assert_eq!(parse_class_line("public class A {}\nclass B {}\n"), Ok(Some(0)));
}

#[test]
fn no_class_no_line() {
    assert_eq!(parse_class_line("using System;\n// nothing here\n"), Ok(None));
    assert_eq!(parse_class_line(""), Ok(None));
}

#[test]
fn create_places_lens_on_class_line() {
    let refs = vec![reference("/p/Assets/A.unity", 3)];
    let lenses = UnityCodeLens::create(SCRIPT, Ok(refs.clone())).expect("lenses");
    assert_eq!(lenses, vec![CodeLens { range: line_range(4), command: None, data: Some(refs) }]);
}

#[test]
fn create_defaults_to_first_line() {
    let lenses = UnityCodeLens::create("enum Color { Red }\n", Ok(vec![])).expect("lenses");
    assert_eq!(lenses, vec![CodeLens { range: line_range(0), command: None, data: Some(vec![]) }]);
}

#[test]
fn create_passes_on_reference_errors() {
    let err = CodeLensError::MetadataMissingGuid { path: "/p/Assets/A.cs.meta".to_string() };
    assert_eq!(UnityCodeLens::create(SCRIPT, Err(err.clone())), Err(err));
}

#[test]
fn create_then_resolve() {
    let refs = vec![reference("/p/Assets/A.unity", 3), reference("/p/Assets/B.prefab", 8)];
    let lenses = UnityCodeLens::create(SCRIPT, Ok(refs)).expect("lenses");
    let resolved = UnityCodeLens::resolve(lenses[0].clone()).expect("resolved");
    assert_eq!(resolved.range, line_range(4));
    let command = resolved.command.expect("command");
    assert_eq!(command.title, "2 Unity references");
    assert_eq!(command.arguments.len(), 2);
}

#[test]
fn create_from_class_line_reports_parse_error_first() {
    let parse = Err(CodeLensError::ParseError("failed to parse C# document".to_string()));
    let refs = Err(CodeLensError::InvalidUri("x".to_string()));
    assert_eq!(
        UnityCodeLens::create_from_class_line(parse.clone(), refs),
        Err(CodeLensError::ParseError("failed to parse C# document".to_string()))
    );
}

#[test]
fn scan_outcomes_become_class_lines_or_parse_errors() {
    assert_eq!(
        class_line_from_scan(SyntaxScan::LanguageRejected("incompatible version".to_string())),
        Err(CodeLensError::ParseError("failed to load C# parser: incompatible version".to_string()))
    );
    assert_eq!(
        class_line_from_scan(SyntaxScan::DocumentRejected),
        Err(CodeLensError::ParseError("failed to parse C# document".to_string()))
    );
    assert_eq!(
        class_line_from_scan(SyntaxScan::QueryRejected("bad node".to_string())),
        Err(CodeLensError::ParseError("failed to compile C# query: bad node".to_string()))
    );
    assert_eq!(class_line_from_scan(SyntaxScan::NoCapture), Ok(None));
    assert_eq!(class_line_from_scan(SyntaxScan::FirstCaptureRow(17)), Ok(Some(17)));
    assert_eq!(class_line_from_scan(SyntaxScan::FirstCaptureRow((1usize << 32) + 5)), Ok(Some(5)));
}
