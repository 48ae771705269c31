//! The Unity asset-reference code lens, created unresolved with its asset
//! references as data and resolved into a `showUnityReferences` command.

use crate::paths::{file_uri_for_path, file_uri_of_path};
use crate::syntax::{csharp_first_capture, scan_first_capture, SyntaxScan, SyntaxScanModel};
use crate::text::{decimal, push_decimal};
use vstd::prelude::*;

verus! {

/// A position in a document: zero-based line and character.
#[derive(Clone, Copy, Debug, PartialEq, Eq, Structural)]
pub struct Position {
    pub line: u32,
    pub character: u32,
}

/// A range in a document, from `start` up to `end`.
#[derive(Clone, Copy, Debug, PartialEq, Eq, Structural)]
pub struct Range {
    pub start: Position,
    pub end: Position,
}

/// A location in a file named by its URI.
#[derive(Clone, Debug, PartialEq, Eq)]
pub struct Location {
    pub uri: String,
    pub range: Range,
}

/// The mathematical value of a [`Location`].
pub struct LocationModel {
    pub uri: Seq<char>,
    pub range: Range,
}

impl View for Location {
    type V = LocationModel;

    open spec fn view(&self) -> LocationModel {
        LocationModel { uri: self.uri@, range: self.range }
    }
}

/// A reference to a script in a Unity asset file.
#[derive(Clone, Debug, PartialEq, Eq)]
pub struct AssetReference {
    /// Asset file path.
    pub path: String,
    /// Line number of the reference.
    pub line_number: u32,
}

/// The mathematical value of an [`AssetReference`].
pub struct AssetReferenceModel {
    pub path: Seq<char>,
    pub line_number: u32,
}

impl View for AssetReference {
    type V = AssetReferenceModel;

    open spec fn view(&self) -> AssetReferenceModel {
        AssetReferenceModel { path: self.path@, line_number: self.line_number }
    }
}

/// The values of a list of asset references.
pub open spec fn references_view(refs: Seq<AssetReference>) -> Seq<AssetReferenceModel> {
    refs.map_values(|r: AssetReference| r@)
}

/// The values of a list of locations.
pub open spec fn locations_view(locs: Seq<Location>) -> Seq<LocationModel> {
    locs.map_values(|l: Location| l@)
}

/// The command of a resolved code lens.
#[derive(Clone, Debug, PartialEq, Eq)]
pub struct Command {
    /// The title shown to the user.
    pub title: String,
    /// The identifier of the command.
    pub command: String,
    /// The locations passed to the command as its one argument.
    pub arguments: Vec<Location>,
}

/// The mathematical value of a [`Command`].
pub struct CommandModel {
    pub title: Seq<char>,
    pub command: Seq<char>,
    pub arguments: Seq<LocationModel>,
}

impl View for Command {
    type V = CommandModel;

    open spec fn view(&self) -> CommandModel {
        CommandModel {
            title: self.title@,
            command: self.command@,
            arguments: locations_view(self.arguments@),
        }
    }
}

/// A code lens: unresolved it carries asset references as data, resolved
/// it carries a command.
#[derive(Clone, Debug, PartialEq, Eq)]
pub struct CodeLens {
    pub range: Range,
    pub command: Option<Command>,
    pub data: Option<Vec<AssetReference>>,
}

/// The mathematical value of a [`CodeLens`].
pub struct CodeLensModel {
    pub range: Range,
    pub command: Option<CommandModel>,
    pub data: Option<Seq<AssetReferenceModel>>,
}

impl View for CodeLens {
    type V = CodeLensModel;

    open spec fn view(&self) -> CodeLensModel {
        CodeLensModel {
            range: self.range,
            command: match self.command {
                Some(c) => Some(c@),
                None => None,
            },
            data: match self.data {
                Some(d) => Some(references_view(d@)),
                None => None,
            },
        }
    }
}

/// Error type for code lens operations.
#[derive(Clone, Debug, PartialEq, Eq)]
pub enum CodeLensError {
    /// Failed to serialize or deserialize data, with the serializer's message.
    Serialization(String),
    /// Invalid file URI.
    InvalidUri(String),
    /// Invalid file path.
    InvalidPath(String),
    /// Missing required code lens data.
    MissingData,
    /// Unable to read metadata file.
    MetadataRead { path: String, source: String },
    /// Metadata file does not contain a guid line.
    MetadataMissingGuid { path: String },
    /// Unable to read metadata file line.
    MetadataLineRead { path: String, line: u32, source: String },
    /// Failed to parse C# source with tree-sitter.
    ParseError(String),
}

/// The mathematical value of a [`CodeLensError`].
pub enum CodeLensFault {
    Serialization(Seq<char>),
    InvalidUri(Seq<char>),
    InvalidPath(Seq<char>),
    MissingData,
    MetadataRead { path: Seq<char>, source: Seq<char> },
    MetadataMissingGuid { path: Seq<char> },
    MetadataLineRead { path: Seq<char>, line: u32, source: Seq<char> },
    ParseError(Seq<char>),
}

impl View for CodeLensError {
    type V = CodeLensFault;

    open spec fn view(&self) -> CodeLensFault {
        match self {
            CodeLensError::Serialization(m) => CodeLensFault::Serialization(m@),
            CodeLensError::InvalidUri(u) => CodeLensFault::InvalidUri(u@),
            CodeLensError::InvalidPath(p) => CodeLensFault::InvalidPath(p@),
            CodeLensError::MissingData => CodeLensFault::MissingData,
            CodeLensError::MetadataRead { path, source } => CodeLensFault::MetadataRead {
                path: path@,
                source: source@,
            },
            CodeLensError::MetadataMissingGuid { path } => CodeLensFault::MetadataMissingGuid {
                path: path@,
            },
            CodeLensError::MetadataLineRead { path, line, source } =>
                CodeLensFault::MetadataLineRead { path: path@, line: *line, source: source@ },
            CodeLensError::ParseError(m) => CodeLensFault::ParseError(m@),
        }
    }
}

/// Result type for code lens operations.
pub type CodeLensResult<T> = Result<T, CodeLensError>;

/// The value of a result whose success carries a value with a view.
pub open spec fn result_view<T: View>(r: Result<T, CodeLensError>) -> Result<T::V, CodeLensFault> {
    match r {
        Ok(v) => Ok(v@),
        Err(e) => Err(e@),
    }
}

/// The one-character range at the start of line `line`.
pub open spec fn line_range(line: u32) -> Range {
    Range {
        start: Position { line: line, character: 0 },
        end: Position { line: line, character: 1 },
    }
}

fn line_range_exec(line: u32) -> (r: Range)
    ensures
        r == line_range(line),
{
    Range {
        start: Position { line: line, character: 0 },
        end: Position { line: line, character: 1 },
    }
}

/// The location of an asset reference, given what became of its path as a
/// `file:` URI.
pub open spec fn location_for(reference: AssetReferenceModel, uri: Option<Seq<char>>) -> Result<
    LocationModel,
    CodeLensFault,
> {
    match uri {
        Some(u) => Ok(LocationModel { uri: u, range: line_range(reference.line_number) }),
        None => Err(CodeLensFault::InvalidPath(reference.path)),
    }
}

/// The location of a reference spans the first character of its line in
/// the file that its path's `file:` URI names; a path without such a URI
/// is refused as an invalid path, itself.
pub proof fn law_location(reference: AssetReferenceModel, uri: Option<Seq<char>>)
    ensures
        uri matches Some(u) ==> location_for(reference, uri) == Ok::<LocationModel, CodeLensFault>(
            LocationModel {
                uri: u,
                range: Range {
                    start: Position { line: reference.line_number, character: 0 },
                    end: Position { line: reference.line_number, character: 1 },
                },
            },
        ),
        uri is None ==> location_for(reference, uri) == Err::<LocationModel, CodeLensFault>(
            CodeLensFault::InvalidPath(reference.path),
        ),
{
}

/// The location of an asset reference.
pub open spec fn location_of(reference: AssetReferenceModel) -> Result<LocationModel, CodeLensFault> {
    location_for(reference, file_uri_of_path(reference.path))
}

/// The locations of a list of asset references, or the error of the first
/// one that has none.
pub open spec fn locations_of(refs: Seq<AssetReferenceModel>) -> Result<
    Seq<LocationModel>,
    CodeLensFault,
>
    decreases refs.len(),
{
    if refs.len() == 0 {
        Ok(Seq::empty())
    } else {
        match locations_of(refs.drop_last()) {
            Err(e) => Err(e),
            Ok(prev) => match location_of(refs.last()) {
                Err(e) => Err(e),
                Ok(l) => Ok(prev.push(l)),
            },
        }
    }
}

/// The title of a resolved lens over `count` references.
pub open spec fn reference_title(count: nat) -> Seq<char> {
    if count == 1 {
        "1 Unity reference"@
    } else {
        decimal(count) + " Unity references"@
    }
}

/// Every reference lies at a path that `Uri::from_file_path` accepts (an
/// absolute path of the target).
pub open spec fn all_paths_have_uris(refs: Seq<AssetReferenceModel>) -> bool {
    forall|i: int| 0 <= i < refs.len() ==> #[trigger] file_uri_of_path(refs[i].path) is Some
}

/// `r` is a resolved lens whose command has `n` locations and is titled
/// after `n` references.
pub open spec fn resolved_with_count(r: CodeLensResult<CodeLens>, n: nat) -> bool {
    match r {
        Ok(lens) => match lens@.command {
            Some(c) => c.arguments.len() == n && c.title == reference_title(n),
            None => false,
        },
        Err(_) => false,
    }
}

/// The title of a lens over `n` references is the decimal numeral of `n`
/// followed by " Unity reference", with the plural "s" for every count
/// but one.
pub proof fn law_reference_title(n: nat)
    ensures
        reference_title(n) == decimal(n) + " Unity reference"@ + (if n == 1 {
            Seq::<char>::empty()
        } else {
            seq!['s']
        }),
{
    reveal_strlit("1 Unity reference");
    reveal_strlit(" Unity reference");
    reveal_strlit(" Unity references");
    if n == 1 {
        assert(decimal(1) =~= seq!['1']);
        assert(reference_title(n) =~= decimal(n) + " Unity reference"@ + Seq::<char>::empty());
    } else {
        assert(reference_title(n) =~= decimal(n) + " Unity reference"@ + seq!['s']);
    }
}

/// What resolving the code lens `lens` gives.
pub open spec fn resolve_spec(lens: CodeLensModel) -> Result<CodeLensModel, CodeLensFault> {
    match lens.data {
        None => Err(CodeLensFault::MissingData),
        Some(refs) => match locations_of(refs) {
            Err(e) => Err(e),
            Ok(locs) => Ok(
                CodeLensModel {
                    range: lens.range,
                    command: Some(
                        CommandModel {
                            title: reference_title(locs.len()),
                            command: "showUnityReferences"@,
                            arguments: locs,
                        },
                    ),
                    data: None,
                },
            ),
        },
    }
}

impl AssetReference {
    /// Builds the location of this reference from what `Uri::from_file_path`
    /// gave for its path (`None` where it refused the path).
    pub fn location_from_uri(&self, uri: Option<String>) -> (r: CodeLensResult<Location>)
        ensures
            result_view(r) == location_for(self@, uri.deep_view()),
    {
        match uri {
            Some(u) => Ok(Location { uri: u, range: line_range_exec(self.line_number) }),
            None => Err(CodeLensError::InvalidPath(self.path.clone())),
        }
    }

    /// Converts to an LSP Location for CodeLens.
    ///
    /// # Errors
    ///
    /// Returns `CodeLensError::InvalidPath` if the path cannot be converted to
    /// a URI, and only then.
    pub fn to_codelens_location(&self) -> (r: CodeLensResult<Location>)
        ensures
            result_view(r) == location_of(self@),
            r is Ok <==> file_uri_of_path(self.path@) is Some,
    {
        let uri = file_uri_for_path(self.path.as_str());
        self.location_from_uri(uri)
    }
}

/// The title of a resolved lens over `count` references.
pub fn reference_title_exec(count: usize) -> (r: String)
    ensures
        r@ == reference_title(count as nat),
{
    if count == 1 {
        String::from_str("1 Unity reference")
    } else {
        let mut title = String::new();
        push_decimal(&mut title, count);
        title.append(" Unity references");
        title
    }
}

/// The query that captures class declarations.
pub open spec fn class_query() -> Seq<char> {
    "(class_declaration) @class"@
}

/// The class line (zero-based) that a tree-sitter scan of a document gives,
/// or the parse error that it comes to.
pub open spec fn class_line_outcome(scan: SyntaxScanModel) -> Result<Option<u32>, CodeLensFault> {
    match scan {
        SyntaxScanModel::LanguageRejected(m) => Err(
            CodeLensFault::ParseError("failed to load C# parser: "@ + m),
        ),
        SyntaxScanModel::DocumentRejected => Err(
            CodeLensFault::ParseError("failed to parse C# document"@),
        ),
        SyntaxScanModel::QueryRejected(m) => Err(
            CodeLensFault::ParseError("failed to compile C# query: "@ + m),
        ),
        SyntaxScanModel::NoCapture => Ok(None),
        SyntaxScanModel::FirstCaptureRow(row) => Ok(Some(row as u32)),
    }
}

/// The line of the first class declaration in a C# document.
pub open spec fn class_line_of(content: Seq<char>) -> Result<Option<u32>, CodeLensFault> {
    class_line_outcome(csharp_first_capture(content, class_query()))
}

/// Turns the outcome of the class-declaration query into the class line
/// (the row, truncated to `u32` as LSP positions are) or a parse error.
pub fn class_line_from_scan(scan: SyntaxScan) -> (r: CodeLensResult<Option<u32>>)
    ensures
        result_view(r) == class_line_outcome(scan@),
{
    match scan {
        SyntaxScan::LanguageRejected(m) => {
            let mut msg = String::from_str("failed to load C# parser: ");
            msg.append(m.as_str());
            Err(CodeLensError::ParseError(msg))
        },
        SyntaxScan::DocumentRejected => Err(
            CodeLensError::ParseError(String::from_str("failed to parse C# document")),
        ),
        SyntaxScan::QueryRejected(m) => {
            let mut msg = String::from_str("failed to compile C# query: ");
            msg.append(m.as_str());
            Err(CodeLensError::ParseError(msg))
        },
        SyntaxScan::NoCapture => Ok(None),
        SyntaxScan::FirstCaptureRow(row) => Ok(Some(row as u32)),
    }
}

/// The zero-based line of the first class declaration in the C# document
/// `content`, `None` when it declares no class.
///
/// # Errors
///
/// Returns `CodeLensError::ParseError` when tree-sitter cannot load the
/// grammar, parse the document or compile the query.
pub fn parse_class_line(content: &str) -> (r: CodeLensResult<Option<u32>>)
    ensures
        result_view(r) == class_line_of(content@),
        result_view(r) == class_line_outcome(
            csharp_first_capture(content@, "(class_declaration) @class"@),
        ),
{
    let scan = scan_first_capture(content, "(class_declaration) @class");
    class_line_from_scan(scan)
}

/// A scan that finds a class gives its row (truncated to `u32`); one that
/// finds none gives no line; each failing stage of tree-sitter gives a
/// parse error that names it, with tree-sitter's own message.
pub proof fn law_class_line_outcome(scan: SyntaxScanModel)
    ensures
        match scan {
            SyntaxScanModel::LanguageRejected(m) => class_line_outcome(scan) == Err::<
                Option<u32>,
                CodeLensFault,
            >(CodeLensFault::ParseError("failed to load C# parser: "@ + m)),
            SyntaxScanModel::DocumentRejected => class_line_outcome(scan) == Err::<
                Option<u32>,
                CodeLensFault,
            >(CodeLensFault::ParseError("failed to parse C# document"@)),
            SyntaxScanModel::QueryRejected(m) => class_line_outcome(scan) == Err::<
                Option<u32>,
                CodeLensFault,
            >(CodeLensFault::ParseError("failed to compile C# query: "@ + m)),
            SyntaxScanModel::NoCapture => class_line_outcome(scan) == Ok::<Option<u32>, CodeLensFault>(
                None,
            ),
            SyntaxScanModel::FirstCaptureRow(row) => class_line_outcome(scan) == Ok::<
                Option<u32>,
                CodeLensFault,
            >(Some(row as u32)),
        },
{
}

/// The class line of a document comes from running exactly the query
/// `(class_declaration) @class` (every class declaration, captured whole)
/// over it: the start row of its first capture, `None` when nothing is
/// captured, and a parse error naming the failing stage otherwise.
pub proof fn law_class_line_query(content: Seq<char>)
    ensures
        class_line_of(content) == class_line_outcome(
            csharp_first_capture(content, "(class_declaration) @class"@),
        ),
        csharp_first_capture(content, "(class_declaration) @class"@) matches SyntaxScanModel::FirstCaptureRow(row)
            ==> class_line_of(content) == Ok::<Option<u32>, CodeLensFault>(Some(row as u32)),
        csharp_first_capture(content, "(class_declaration) @class"@) is NoCapture ==> class_line_of(
            content,
        ) == Ok::<Option<u32>, CodeLensFault>(None),
{
}

/// The values of a list of code lenses.
pub open spec fn lenses_view(lenses: Seq<CodeLens>) -> Seq<CodeLensModel> {
    lenses.map_values(|l: CodeLens| l@)
}

/// The value of a list of asset references that may have failed to come.
pub open spec fn references_result_view(r: CodeLensResult<Vec<AssetReference>>) -> Result<
    Seq<AssetReferenceModel>,
    CodeLensFault,
> {
    match r {
        Ok(v) => Ok(references_view(v@)),
        Err(e) => Err(e@),
    }
}

/// The unresolved lens at the class line (line 0 when there is no class),
/// with the asset references as its data.
pub open spec fn create_spec(
    class_line: Result<Option<u32>, CodeLensFault>,
    references: Result<Seq<AssetReferenceModel>, CodeLensFault>,
) -> Result<Seq<CodeLensModel>, CodeLensFault> {
    match class_line {
        Err(e) => Err(e),
        Ok(line) => match references {
            Err(e) => Err(e),
            Ok(refs) => Ok(
                seq![
                    CodeLensModel {
                        range: line_range(
                            match line {
                                Some(l) => l,
                                None => 0,
                            },
                        ),
                        command: None,
                        data: Some(refs),
                    },
                ],
            ),
        },
    }
}

/// `create` gives a parse error of the document first, then an error of the
/// references; otherwise exactly one unresolved lens, on the first
/// character of the class line (line 0 without a class), with no command
/// and the references as its data.
pub proof fn law_create_lens(
    class_line: Result<Option<u32>, CodeLensFault>,
    references: Result<Seq<AssetReferenceModel>, CodeLensFault>,
)
    ensures
        class_line matches Err(e) ==> create_spec(class_line, references) == Err::<
            Seq<CodeLensModel>,
            CodeLensFault,
        >(e),
        class_line is Ok && references is Err ==> create_spec(class_line, references) == Err::<
            Seq<CodeLensModel>,
            CodeLensFault,
        >(references->Err_0),
        class_line is Ok && references is Ok ==> {
            let line = match class_line->Ok_0 {
                Some(l) => l,
                None => 0u32,
            };
            &&& create_spec(class_line, references) is Ok
            &&& create_spec(class_line, references)->Ok_0.len() == 1
            &&& create_spec(class_line, references)->Ok_0[0].range.start == (Position {
                line: line,
                character: 0,
            })
            &&& create_spec(class_line, references)->Ok_0[0].range.end == (Position {
                line: line,
                character: 1,
            })
            &&& create_spec(class_line, references)->Ok_0[0].command is None
            &&& create_spec(class_line, references)->Ok_0[0].data == Some(references->Ok_0)
        },
{
}

/// Unity code lens (two-stage LSP resolution).
#[derive(Debug)]
pub struct UnityCodeLens;

impl UnityCodeLens {
    /// Creates the unresolved lens from the class line that the document
    /// gave and from the asset references that were found for the script.
    pub fn create_from_class_line(
        class_line: CodeLensResult<Option<u32>>,
        asset_references: CodeLensResult<Vec<AssetReference>>,
    ) -> (r: CodeLensResult<Vec<CodeLens>>)
        ensures
            match r {
                Ok(v) => create_spec(result_view(class_line), references_result_view(asset_references))
                    == Ok::<Seq<CodeLensModel>, CodeLensFault>(lenses_view(v@)),
                Err(e) => create_spec(result_view(class_line), references_result_view(asset_references))
                    == Err::<Seq<CodeLensModel>, CodeLensFault>(e@),
            },
    {
        let line = match class_line {
            Ok(Some(l)) => l,
            Ok(None) => 0,
            Err(e) => return Err(e),
        };
        let refs = match asset_references {
            Ok(refs) => refs,
            Err(e) => return Err(e),
        };
        let lens = CodeLens { range: line_range_exec(line), command: None, data: Some(refs) };
        let lenses = vec![lens];
        assert(lenses_view(lenses@) =~= seq![lenses@[0]@]);
        Ok(lenses)
    }

    /// Creates an unresolved code lens with embedded asset reference data:
    /// one lens, at the first class declaration of the C# document `content`
    /// (line 0 when it declares none), carrying `asset_references`, the
    /// references that were found in the project's assets to the script.
    ///
    /// # Errors
    ///
    /// Returns the parse error of the document first, and otherwise the error
    /// that finding the references came to.
    pub fn create(content: &str, asset_references: CodeLensResult<Vec<AssetReference>>) -> (r:
        CodeLensResult<Vec<CodeLens>>)
        ensures
            match r {
                Ok(v) => create_spec(class_line_of(content@), references_result_view(asset_references))
                    == Ok::<Seq<CodeLensModel>, CodeLensFault>(lenses_view(v@)),
                Err(e) => create_spec(class_line_of(content@), references_result_view(asset_references))
                    == Err::<Seq<CodeLensModel>, CodeLensFault>(e@),
            },
    {
        let class_line = parse_class_line(content);
        Self::create_from_class_line(class_line, asset_references)
    }

    /// Resolves an unresolved code lens to a fully resolved lens with command.
    ///
    /// # Errors
    ///
    /// Returns `CodeLensError::MissingData` when the lens carries no data, and
    /// the error of the first reference that has no location otherwise. A
    /// lens whose references all lie at paths that have `file:` URIs (as the
    /// absolute paths found under an absolute workspace do) always resolves,
    /// to a command with one location per reference.
    pub fn resolve(codelens: CodeLens) -> (r: CodeLensResult<CodeLens>)
        ensures
            result_view(r) == resolve_spec(codelens@),
            codelens@.data is Some && all_paths_have_uris(codelens@.data->0) ==> resolved_with_count(
                r,
                codelens@.data->0.len(),
            ),
    {
        let ghost lens = codelens@;
        let data = match codelens.data {
            Some(d) => d,
            None => return Err(CodeLensError::MissingData),
        };
        let ghost refs = references_view(data@);
        assert(lens.data == Some(refs));
        let mut locations: Vec<Location> = Vec::new();
        let mut i: usize = 0;
        assert(refs.take(0) =~= Seq::<AssetReferenceModel>::empty());
        assert(locations_view(locations@) =~= Seq::<LocationModel>::empty());
        while i < data.len()
            invariant
                i <= data@.len(),
                refs == references_view(data@),
                lens.data == Some(refs),
                lens == codelens@,
                locations_of(refs.take(i as int)) == Ok::<Seq<LocationModel>, CodeLensFault>(
                    locations_view(locations@),
                ),
            decreases data@.len() - i,
        {
            assert(refs.take(i + 1).drop_last() =~= refs.take(i as int));
            assert(refs.take(i + 1).last() == data@[i as int]@);
            match data[i].to_codelens_location() {
                Ok(loc) => {
                    let ghost before = locations@;
                    let ghost lv = loc@;
                    locations.push(loc);
                    assert(locations_view(locations@) =~= locations_view(before).push(lv));
                },
                Err(e) => {
                    assert(locations_of(refs.take(i + 1)) == Err::<Seq<LocationModel>, CodeLensFault>(e@));
                    assert(refs[i as int].path == data@[i as int].path@);
                    assert(!all_paths_have_uris(refs));
                    proof {
                        lemma_locations_of_prefix_err(refs, (i + 1) as int);
                    }
                    return Err(e);
                },
            }
            i = i + 1;
        }
        assert(refs.take(data@.len() as int) =~= refs);
        proof {
            law_locations_follow_references(refs);
        }
        let count = locations.len();
        let title = reference_title_exec(count);
        Ok(
            CodeLens {
                range: codelens.range,
                command: Some(
                    Command {
                        title: title,
                        command: String::from_str("showUnityReferences"),
                        arguments: locations,
                    },
                ),
                data: None,
            },
        )
    }
}

/// Every reference has a location exactly when every path has a `file:`
/// URI; the locations then follow the references one for one, each at the
/// start of its reference's line; otherwise the error names the path of the
/// first reference that has none.
pub proof fn law_locations_follow_references(refs: Seq<AssetReferenceModel>)
    ensures
        (locations_of(refs) is Ok) <==> (forall|i: int|
            0 <= i < refs.len() ==> #[trigger] file_uri_of_path(refs[i].path) is Some),
        locations_of(refs) matches Ok(locs) ==> {
            &&& locs.len() == refs.len()
            &&& forall|i: int|
                0 <= i < refs.len() ==> #[trigger] locs[i] == (LocationModel {
                    uri: file_uri_of_path(refs[i].path)->0,
                    range: line_range(refs[i].line_number),
                })
        },
        locations_of(refs) matches Err(e) ==> exists|i: int|
            0 <= i < refs.len() && #[trigger] file_uri_of_path(refs[i].path) is None && (forall|j: int|
                0 <= j < i ==> file_uri_of_path(refs[j].path) is Some) && e
                == CodeLensFault::InvalidPath(refs[i].path),
    decreases refs.len(),
{
    if refs.len() > 0 {
        let init = refs.drop_last();
        law_locations_follow_references(init);
        let last = refs.len() - 1;
        match locations_of(init) {
            Ok(prev) => {
                if file_uri_of_path(refs[last].path) is None {
                    assert forall|j: int| 0 <= j < last implies file_uri_of_path(refs[j].path) is Some by {
                        assert(init[j] == refs[j]);
                    }
                } else {
                    assert forall|i: int| 0 <= i < refs.len() implies #[trigger] file_uri_of_path(
                        refs[i].path,
                    ) is Some by {
                        if i < last {
                            assert(init[i] == refs[i]);
                        }
                    }
                    assert forall|i: int| 0 <= i < refs.len() implies #[trigger] prev.push(
                        LocationModel {
                            uri: file_uri_of_path(refs[last].path)->0,
                            range: line_range(refs[last].line_number),
                        },
                    )[i] == (LocationModel {
                        uri: file_uri_of_path(refs[i].path)->0,
                        range: line_range(refs[i].line_number),
                    }) by {
                        if i < last {
                            assert(init[i] == refs[i]);
                        }
                    }
                }
            },
            Err(e) => {
                let i = choose|i: int|
                    0 <= i < init.len() && #[trigger] file_uri_of_path(init[i].path) is None && (forall|
                        j: int,
                    |
                        0 <= j < i ==> file_uri_of_path(init[j].path) is Some) && e
                        == CodeLensFault::InvalidPath(init[i].path);
                assert(refs[i] == init[i]);
                assert forall|j: int| 0 <= j < i implies file_uri_of_path(refs[j].path) is Some by {
                    assert(init[j] == refs[j]);
                }
                assert(!(forall|k: int|
                    0 <= k < refs.len() ==> #[trigger] file_uri_of_path(refs[k].path) is Some));
            },
        }
    }
}

/// A freshly created lens resolves to a command titled after the number of
/// its asset references, whose argument is their locations, in order, at the
/// range of the lens; or to the error of the first reference without a
/// location.
pub proof fn law_resolve_after_create(class_line: Option<u32>, refs: Seq<AssetReferenceModel>)
    ensures
        create_spec(Ok(class_line), Ok(refs)) matches Ok(lenses) && lenses.len() == 1 && {
            let lens = lenses[0];
            &&& lens.range == line_range(
                match class_line {
                    Some(l) => l,
                    None => 0,
                },
            )
            &&& resolve_spec(lens) == match locations_of(refs) {
                Ok(locs) => Ok(
                    CodeLensModel {
                        range: lens.range,
                        command: Some(
                            CommandModel {
                                title: reference_title(refs.len()),
                                command: "showUnityReferences"@,
                                arguments: locs,
                            },
                        ),
                        data: None,
                    },
                ),
                Err(e) => Err(e),
            }
        },
{
    law_locations_follow_references(refs);
}

/// Resolving keeps the range and drops the data; without data it fails
/// with `MissingData`; otherwise it fails exactly when some reference has
/// no location, and else gives the `showUnityReferences` command over the
/// references' locations, titled after their number.
pub proof fn law_resolve(lens: CodeLensModel)
    ensures
        lens.data is None ==> resolve_spec(lens) == Err::<CodeLensModel, CodeLensFault>(
            CodeLensFault::MissingData,
        ),
        lens.data matches Some(refs) ==> (resolve_spec(lens) is Ok <==> forall|i: int|
            0 <= i < refs.len() ==> #[trigger] file_uri_of_path(refs[i].path) is Some),
        resolve_spec(lens) matches Ok(r) ==> {
            &&& r.range == lens.range
            &&& r.data is None
            &&& r.command is Some
            &&& r.command->0.command == "showUnityReferences"@
            &&& r.command->0.arguments.len() == lens.data->0.len()
            &&& r.command->0.title == reference_title(lens.data->0.len())
            &&& forall|i: int|
                0 <= i < lens.data->0.len() ==> #[trigger] r.command->0.arguments[i] == (LocationModel {
                    uri: file_uri_of_path(lens.data->0[i].path)->0,
                    range: Range {
                        start: Position { line: lens.data->0[i].line_number, character: 0 },
                        end: Position { line: lens.data->0[i].line_number, character: 1 },
                    },
                })
        },
{
    if lens.data is Some {
        law_locations_follow_references(lens.data->0);
    }
}

/// A resolved lens carries no data, so it cannot be resolved again.
pub proof fn law_resolved_lens_is_final(lens: CodeLensModel)
    ensures
        resolve_spec(lens) matches Ok(resolved) ==> resolved.data is None && resolve_spec(resolved)
            == Err::<CodeLensModel, CodeLensFault>(CodeLensFault::MissingData),
{
}

/// Once a prefix of the references has no locations, neither has the whole list.
proof fn lemma_locations_of_prefix_err(refs: Seq<AssetReferenceModel>, n: int)
    requires
        0 <= n <= refs.len(),
        locations_of(refs.take(n)) is Err,
    ensures
        locations_of(refs) == locations_of(refs.take(n)),
    decreases refs.len() - n,
{
    if n < refs.len() {
        assert(refs.take(n + 1).drop_last() =~= refs.take(n));
        lemma_locations_of_prefix_err(refs, n + 1);
    } else {
        assert(refs.take(n) =~= refs);
    }
}

} // verus!
