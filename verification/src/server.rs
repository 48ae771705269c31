//! The decisions of the language server: where the workspace root is, how
//! requests and notifications are routed, and what each of them does to
//! the open documents. Reading and sending messages is left to the caller.

use crate::document_storage::{apply_edit, snapshot, DocumentEdit, DocumentStorage};
use crate::paths::{file_path_for_uri, file_path_of_uri};
use gen_lsp_types::{LspNotificationMethod, LspRequestMethod};
use vstd::prelude::*;

verus! {

/// The roots that a client names when it initializes the server.
pub struct InitializeRoots {
    /// The URIs of the workspace folders; `None` where the client sent none
    /// or `null`.
    pub workspace_folders: Option<Vec<String>>,
    /// The deprecated `rootUri`.
    pub root_uri: Option<String>,
    /// The deprecated `rootPath`; `None` where it is absent or `null`.
    pub root_path: Option<String>,
}

/// Why no workspace root could be found.
#[derive(Clone, Copy, Debug, PartialEq, Eq, Structural)]
pub enum WorkspaceRootError {
    /// The first workspace folder is no `file:` URI.
    FolderNotFile,
    /// The root URI is no `file:` URI.
    RootUriNotFile,
    /// The client named no root.
    Missing,
}

/// The message of a workspace root error.
pub open spec fn workspace_root_message(e: WorkspaceRootError) -> Seq<char> {
    match e {
        WorkspaceRootError::FolderNotFile => "workspace folder URI must be a file URI"@,
        WorkspaceRootError::RootUriNotFile => "rootUri must be a file URI"@,
        WorkspaceRootError::Missing => "workspace root required"@,
    }
}

impl WorkspaceRootError {
    /// The message that the server reports for this error.
    pub fn message(&self) -> (r: String)
        ensures
            r@ == workspace_root_message(*self),
    {
        match self {
            WorkspaceRootError::FolderNotFile => String::from_str(
                "workspace folder URI must be a file URI",
            ),
            WorkspaceRootError::RootUriNotFile => String::from_str("rootUri must be a file URI"),
            WorkspaceRootError::Missing => String::from_str("workspace root required"),
        }
    }
}

/// The value of initialization roots.
pub struct InitializeRootsModel {
    pub workspace_folders: Option<Seq<Seq<char>>>,
    pub root_uri: Option<Seq<char>>,
    pub root_path: Option<Seq<char>>,
}

impl View for InitializeRoots {
    type V = InitializeRootsModel;

    open spec fn view(&self) -> InitializeRootsModel {
        InitializeRootsModel {
            workspace_folders: match self.workspace_folders {
                Some(f) => Some(f@.map_values(|u: String| u@)),
                None => None,
            },
            root_uri: self.root_uri.deep_view(),
            root_path: self.root_path.deep_view(),
        }
    }
}

/// The workspace root: the path of the first workspace folder when there
/// is one; else the path of the root URI; else the root path.
pub open spec fn workspace_root_spec(roots: InitializeRootsModel) -> Result<Seq<char>, WorkspaceRootError> {
    if roots.workspace_folders is Some && roots.workspace_folders->0.len() > 0 {
        match file_path_of_uri(roots.workspace_folders->0[0]) {
            Some(p) => Ok(p),
            None => Err(WorkspaceRootError::FolderNotFile),
        }
    } else if roots.root_uri is Some {
        match file_path_of_uri(roots.root_uri->0) {
            Some(p) => Ok(p),
            None => Err(WorkspaceRootError::RootUriNotFile),
        }
    } else if roots.root_path is Some {
        Ok(roots.root_path->0)
    } else {
        Err(WorkspaceRootError::Missing)
    }
}

/// The first workspace folder decides the root whenever the client names
/// one: the root URI and the root path are then not looked at. Without
/// folders, the root URI likewise decides over the root path.
pub proof fn law_workspace_root_precedence(
    roots: InitializeRootsModel,
    other_uri: Option<Seq<char>>,
    other_path: Option<Seq<char>>,
)
    ensures
        roots.workspace_folders is Some && roots.workspace_folders->0.len() > 0
            ==> workspace_root_spec(roots) == workspace_root_spec(
            InitializeRootsModel { root_uri: other_uri, root_path: other_path, ..roots },
        ),
        !(roots.workspace_folders is Some && roots.workspace_folders->0.len() > 0)
            && roots.root_uri is Some ==> workspace_root_spec(roots) == workspace_root_spec(
            InitializeRootsModel { root_path: other_path, ..roots },
        ),
{
}

/// With a non-empty list of workspace folders, the root is the path of the
/// first folder (an error when it names no local file) and depends on
/// nothing else: not on the later folders, the root URI or the root path.
pub proof fn law_first_folder_decides(roots: InitializeRootsModel, other: InitializeRootsModel)
    requires
        roots.workspace_folders is Some,
        roots.workspace_folders->0.len() > 0,
    ensures
        workspace_root_spec(roots) == match file_path_of_uri(roots.workspace_folders->0[0]) {
            Some(p) => Ok::<Seq<char>, WorkspaceRootError>(p),
            None => Err(WorkspaceRootError::FolderNotFile),
        },
        other.workspace_folders is Some && other.workspace_folders->0.len() > 0
            && other.workspace_folders->0[0] == roots.workspace_folders->0[0]
            ==> workspace_root_spec(other) == workspace_root_spec(roots),
{
}

/// Without workspace folders (none, or an empty list) the root is the path
/// of the root URI when there is one (an error when it names no local
/// file); else the root path when there is one; else there is no root.
pub proof fn law_root_without_folders(roots: InitializeRootsModel)
    requires
        roots.workspace_folders is None || roots.workspace_folders->0.len() == 0,
    ensures
        roots.root_uri matches Some(u) ==> workspace_root_spec(roots) == match file_path_of_uri(u) {
            Some(p) => Ok::<Seq<char>, WorkspaceRootError>(p),
            None => Err(WorkspaceRootError::RootUriNotFile),
        },
        roots.root_uri is None && roots.root_path is Some ==> workspace_root_spec(roots) == Ok::<
            Seq<char>,
            WorkspaceRootError,
        >(roots.root_path->0),
        roots.root_uri is None && roots.root_path is None ==> workspace_root_spec(roots) == Err::<
            Seq<char>,
            WorkspaceRootError,
        >(WorkspaceRootError::Missing),
{
}

/// The messages of the workspace root errors.
pub proof fn law_workspace_root_messages()
    ensures
        workspace_root_message(WorkspaceRootError::FolderNotFile)
            == "workspace folder URI must be a file URI"@,
        workspace_root_message(WorkspaceRootError::RootUriNotFile) == "rootUri must be a file URI"@,
        workspace_root_message(WorkspaceRootError::Missing) == "workspace root required"@,
{
}

/// The workspace root that the client's initialization names: its first
/// workspace folder before its root URI before its root path.
///
/// # Errors
///
/// When the chosen URI names no local file, or no root is named.
pub fn workspace_root(roots: &InitializeRoots) -> (r: Result<String, WorkspaceRootError>)
    ensures
        match r {
            Ok(p) => workspace_root_spec(roots@) == Ok::<Seq<char>, WorkspaceRootError>(p@),
            Err(e) => workspace_root_spec(roots@) == Err::<Seq<char>, WorkspaceRootError>(e),
        },
{
    if let Some(folders) = &roots.workspace_folders {
        if folders.len() > 0 {
            return match file_path_for_uri(folders[0].as_str()) {
                Some(p) => Ok(p),
                None => Err(WorkspaceRootError::FolderNotFile),
            };
        }
    }
    if let Some(uri) = &roots.root_uri {
        return match file_path_for_uri(uri.as_str()) {
            Some(p) => Ok(p),
            None => Err(WorkspaceRootError::RootUriNotFile),
        };
    }
    match &roots.root_path {
        Some(p) => Ok(p.clone()),
        None => Err(WorkspaceRootError::Missing),
    }
}

/// The requests that the server answers.
#[derive(Clone, Copy, Debug, PartialEq, Eq, Structural)]
pub enum RequestKind {
    CodeLens,
    CodeLensResolve,
    Other,
}

/// The notifications that the server acts on.
#[derive(Clone, Copy, Debug, PartialEq, Eq, Structural)]
pub enum NotificationKind {
    DidOpen,
    DidChange,
    DidClose,
    Other,
}

/// Classifies a request method with `gen_lsp_types::LspRequestMethod::from`.
/// Claimed, as its source shows: the method is `TextDocumentCodeLens`
/// exactly for `textDocument/codeLens` and `CodeLensResolve` exactly for
/// `codeLens/resolve`.
#[verifier::external_body]
fn classify_request(method: &str) -> (r: RequestKind)
    ensures
        (r == RequestKind::CodeLens) <==> method@ == "textDocument/codeLens"@,
        (r == RequestKind::CodeLensResolve) <==> method@ == "codeLens/resolve"@,
{
    match LspRequestMethod::from(method) {
        LspRequestMethod::TextDocumentCodeLens => RequestKind::CodeLens,
        LspRequestMethod::CodeLensResolve => RequestKind::CodeLensResolve,
        _ => RequestKind::Other,
    }
}

/// Classifies a notification method with
/// `gen_lsp_types::LspNotificationMethod::from`. Claimed, as its source
/// shows: `TextDocumentDidOpen`, `TextDocumentDidChange` and
/// `TextDocumentDidClose` come exactly for `textDocument/didOpen`,
/// `textDocument/didChange` and `textDocument/didClose`.
#[verifier::external_body]
fn classify_notification(method: &str) -> (r: NotificationKind)
    ensures
        (r == NotificationKind::DidOpen) <==> method@ == "textDocument/didOpen"@,
        (r == NotificationKind::DidChange) <==> method@ == "textDocument/didChange"@,
        (r == NotificationKind::DidClose) <==> method@ == "textDocument/didClose"@,
{
    match LspNotificationMethod::from(method) {
        LspNotificationMethod::TextDocumentDidOpen => NotificationKind::DidOpen,
        LspNotificationMethod::TextDocumentDidChange => NotificationKind::DidChange,
        LspNotificationMethod::TextDocumentDidClose => NotificationKind::DidClose,
        _ => NotificationKind::Other,
    }
}

/// The kind of a request method.
pub open spec fn request_kind_of(method: Seq<char>) -> RequestKind {
    if method == "textDocument/codeLens"@ {
        RequestKind::CodeLens
    } else if method == "codeLens/resolve"@ {
        RequestKind::CodeLensResolve
    } else {
        RequestKind::Other
    }
}

/// The kind of a notification method.
pub open spec fn notification_kind_of(method: Seq<char>) -> NotificationKind {
    if method == "textDocument/didOpen"@ {
        NotificationKind::DidOpen
    } else if method == "textDocument/didChange"@ {
        NotificationKind::DidChange
    } else if method == "textDocument/didClose"@ {
        NotificationKind::DidClose
    } else {
        NotificationKind::Other
    }
}

/// The error codes of the responses that the server sends.
#[derive(Clone, Copy, Debug, PartialEq, Eq, Structural)]
pub enum ResponseErrorCode {
    MethodNotFound,
}

/// What to do with a request.
pub enum RequestRoute {
    /// Answer with the code lenses of the document the parameters name.
    CodeLens,
    /// Answer with the resolution of the code lens given as parameters.
    CodeLensResolve,
    /// Answer with an error.
    Error { code: ResponseErrorCode, message: String },
}

/// The value of a request route.
pub enum RequestRouteModel {
    CodeLens,
    CodeLensResolve,
    Error { code: ResponseErrorCode, message: Seq<char> },
}

impl View for RequestRoute {
    type V = RequestRouteModel;

    open spec fn view(&self) -> RequestRouteModel {
        match self {
            RequestRoute::CodeLens => RequestRouteModel::CodeLens,
            RequestRoute::CodeLensResolve => RequestRouteModel::CodeLensResolve,
            RequestRoute::Error { code, message } => RequestRouteModel::Error {
                code: *code,
                message: message@,
            },
        }
    }
}

/// The route of a request with method `method`: code lenses and their
/// resolution are answered, any other method is refused as not found.
pub open spec fn request_route_of(method: Seq<char>) -> RequestRouteModel {
    match request_kind_of(method) {
        RequestKind::CodeLens => RequestRouteModel::CodeLens,
        RequestKind::CodeLensResolve => RequestRouteModel::CodeLensResolve,
        RequestKind::Other => RequestRouteModel::Error {
            code: ResponseErrorCode::MethodNotFound,
            message: "unhandled method: "@ + method,
        },
    }
}

/// Code lens requests (`textDocument/codeLens`) and their resolution
/// (`codeLens/resolve`) are answered; every other method is refused as not
/// found, with the message `unhandled method: ` and the method.
pub proof fn law_request_routes(method: Seq<char>)
    ensures
        method == "textDocument/codeLens"@ ==> request_route_of(method) is CodeLens,
        method == "codeLens/resolve"@ ==> request_route_of(method) is CodeLensResolve,
        method != "textDocument/codeLens"@ && method != "codeLens/resolve"@ ==> request_route_of(method)
            == (RequestRouteModel::Error {
            code: ResponseErrorCode::MethodNotFound,
            message: "unhandled method: "@ + method,
        }),
        request_route_of(method) is CodeLens ==> method == "textDocument/codeLens"@,
        request_route_of(method) is CodeLensResolve ==> method == "codeLens/resolve"@,
{
    reveal_strlit("textDocument/codeLens");
    reveal_strlit("codeLens/resolve");
    assert("codeLens/resolve"@.len() != "textDocument/codeLens"@.len());
}

/// The notifications acted on are exactly `textDocument/didOpen`,
/// `textDocument/didChange` and `textDocument/didClose`.
pub proof fn law_notification_kinds(method: Seq<char>)
    ensures
        notification_kind_of(method) == NotificationKind::DidOpen <==> method == "textDocument/didOpen"@,
        notification_kind_of(method) == NotificationKind::DidChange <==> method
            == "textDocument/didChange"@,
        notification_kind_of(method) == NotificationKind::DidClose <==> method
            == "textDocument/didClose"@,
{
    reveal_strlit("textDocument/didOpen");
    reveal_strlit("textDocument/didChange");
    reveal_strlit("textDocument/didClose");
    assert("textDocument/didOpen"@.len() != "textDocument/didChange"@.len());
    assert("textDocument/didOpen"@.len() != "textDocument/didClose"@.len());
    assert("textDocument/didChange"@.len() != "textDocument/didClose"@.len());
}

/// Decides how to answer a request with method `method`.
pub fn route_request(method: &str) -> (r: RequestRoute)
    ensures
        r@ == request_route_of(method@),
{
    match classify_request(method) {
        RequestKind::CodeLens => RequestRoute::CodeLens,
        RequestKind::CodeLensResolve => RequestRoute::CodeLensResolve,
        RequestKind::Other => {
            let mut message = String::from_str("unhandled method: ");
            message.append(method);
            RequestRoute::Error { code: ResponseErrorCode::MethodNotFound, message: message }
        },
    }
}

/// The notification kind of a method, as the server reads it.
pub fn notification_kind(method: &str) -> (r: NotificationKind)
    ensures
        r == notification_kind_of(method@),
{
    classify_notification(method)
}

/// The first content change of a `didChange` notification.
pub enum ContentChange {
    /// The new text of the whole document.
    WholeDocument(String),
    /// A change to a part of the document.
    Partial,
}

/// A notification about a document, with the parameters the server reads.
pub enum DocumentNotification {
    Open { uri: String, text: String },
    Change { uri: String, first_change: Option<ContentChange> },
    Close { uri: String },
    Ignored,
}

/// The open documents after the notification `n`: an opened document is
/// stored, a document whose first change is a whole new text is replaced,
/// a closed document is dropped; nothing else changes them.
pub open spec fn after_notification(docs: Map<Seq<char>, Seq<char>>, n: DocumentNotification) -> Map<
    Seq<char>,
    Seq<char>,
> {
    match n {
        DocumentNotification::Open { uri, text } => docs.insert(uri@, text@),
        DocumentNotification::Change { uri, first_change } => match first_change {
            Some(ContentChange::WholeDocument(text)) => docs.insert(uri@, text@),
            _ => docs,
        },
        DocumentNotification::Close { uri } => docs.remove(uri@),
        DocumentNotification::Ignored => docs,
    }
}

/// What each notification does to the open documents, read back document
/// by document: an opened document reads as its text; a document changed
/// with a whole new text reads as that text, and any other change leaves it
/// as it was; a closed document reads as absent; every other document,
/// and every document under an ignored notification, reads as before.
/// Opening, changing and closing are the `DocumentStorage` edits.
pub proof fn law_notification_effects(
    docs: Map<Seq<char>, Seq<char>>,
    n: DocumentNotification,
    other: Seq<char>,
)
    ensures
        match n {
            DocumentNotification::Open { uri, text } => {
                &&& snapshot(after_notification(docs, n), uri@) == Some(text@)
                &&& other != uri@ ==> snapshot(after_notification(docs, n), other) == snapshot(
                    docs,
                    other,
                )
                &&& after_notification(docs, n) == apply_edit(
                    docs,
                    DocumentEdit::Open(uri@, text@),
                )
            },
            DocumentNotification::Change { uri, first_change } => match first_change {
                Some(ContentChange::WholeDocument(text)) => {
                    &&& snapshot(after_notification(docs, n), uri@) == Some(text@)
                    &&& other != uri@ ==> snapshot(after_notification(docs, n), other)
                        == snapshot(docs, other)
                    &&& after_notification(docs, n) == apply_edit(
                        docs,
                        DocumentEdit::Change(uri@, text@),
                    )
                },
                _ => after_notification(docs, n) == docs,
            },
            DocumentNotification::Close { uri } => {
                &&& snapshot(after_notification(docs, n), uri@) is None
                &&& other != uri@ ==> snapshot(after_notification(docs, n), other) == snapshot(
                    docs,
                    other,
                )
                &&& after_notification(docs, n) == apply_edit(docs, DocumentEdit::Close(uri@))
            },
            DocumentNotification::Ignored => after_notification(docs, n) == docs,
        },
{
}

/// What to do with a code lens request.
pub enum CodeLensPlan {
    /// The document is not open: answer with no lenses.
    NoLenses,
    /// Create the lenses of the open document with this text.
    Create { content: String },
}

/// The server's state: the open documents and the workspace root.
pub struct UnityServer {
    pub docs: DocumentStorage,
    pub workspace_root: String,
}

impl UnityServer {
    /// A server with no open documents, rooted where the client's
    /// initialization names.
    ///
    /// # Errors
    ///
    /// Those of [`workspace_root`].
    pub fn new(roots: &InitializeRoots) -> (r: Result<Self, WorkspaceRootError>)
        ensures
            match r {
                Ok(s) => workspace_root_spec(roots@) == Ok::<Seq<char>, WorkspaceRootError>(
                    s.workspace_root@,
                ) && s.docs@ == crate::document_storage::no_documents(),
                Err(e) => workspace_root_spec(roots@) == Err::<Seq<char>, WorkspaceRootError>(e),
            },
    {
        match workspace_root(roots) {
            Ok(root) => Ok(UnityServer { docs: DocumentStorage::new(), workspace_root: root }),
            Err(e) => Err(e),
        }
    }

    /// Applies a document notification to the open documents.
    pub fn handle_notification(&mut self, notification: DocumentNotification)
        ensures
            final(self).docs@ == after_notification(old(self).docs@, notification),
            final(self).workspace_root == old(self).workspace_root,
    {
        match notification {
            DocumentNotification::Open { uri, text } => self.docs.open(uri, text),
            DocumentNotification::Change { uri, first_change } => match first_change {
                Some(ContentChange::WholeDocument(text)) => self.docs.change(uri, text),
                _ => {},
            },
            DocumentNotification::Close { uri } => self.docs.close(uri.as_str()),
            DocumentNotification::Ignored => {},
        }
    }

    /// Decides how to answer a code lens request for the document `uri`.
    pub fn plan_code_lens(&self, uri: &str) -> (r: CodeLensPlan)
        ensures
            match r {
                CodeLensPlan::NoLenses => crate::document_storage::snapshot(self.docs@, uri@) is None,
                CodeLensPlan::Create { content } => crate::document_storage::snapshot(
                    self.docs@,
                    uri@,
                ) == Some(content@),
            },
    {
        match self.docs.get(uri) {
            Some(content) => CodeLensPlan::Create { content: String::from_str(content) },
            None => CodeLensPlan::NoLenses,
        }
    }
}

} // verus!
