use gen_lsp_types::{
    ClientCapabilities, InitializeParams, RootPath, Uri, WorkDoneProgressParams, WorkspaceFolder,
    WorkspaceFolders, WorkspaceFoldersInitializeParams,
};
use std::path::PathBuf;
use unity_ls::server::{
    notification_kind, route_request, workspace_root, CodeLensPlan, ContentChange,
    DocumentNotification, InitializeRoots, NotificationKind, RequestRoute, ResponseErrorCode,
    UnityServer, WorkspaceRootError,
};

fn initialize_params(
    root_uri: Option<Uri>,
    root_path: Option<RootPath>,
    workspace_folders: Option<Vec<WorkspaceFolder>>,
) -> InitializeParams {
    InitializeParams::new(
        None,
        None,
        None,
        root_path,
        root_uri,
        ClientCapabilities::default(),
        None,
        None,
        WorkDoneProgressParams::new(None),
        WorkspaceFoldersInitializeParams::new(
            workspace_folders.map(WorkspaceFolders::WorkspaceFolderList),
        ),
    )
}

#[allow(deprecated)]
fn roots_of(params: &InitializeParams) -> InitializeRoots {
    InitializeRoots {
        workspace_folders: match &params.workspace_folders_initialize_params.workspace_folders {
            Some(WorkspaceFolders::WorkspaceFolderList(list)) => {
                Some(list.iter().map(|f| f.uri.to_string()).collect())
            }
            _ => None,
        },
        root_uri: params.root_uri.as_ref().map(|u| u.to_string()),
        root_path: match &params.root_path {
            Some(RootPath::String(p)) => Some(p.clone()),
            _ => None,
        },
    }
}

#[test]
fn uses_workspace_folder_before_other_roots() {
    let params = initialize_params(
        Some(Uri::from_file_path("/tmp/root-uri").expect("file uri")),
        Some(RootPath::from("/tmp/root-path")),
        Some(vec![WorkspaceFolder::new(
            Uri::from_file_path("/tmp/workspace").expect("file uri"),
            "workspace".to_string(),
        )]),
    );

    let root = workspace_root(&roots_of(&params)).expect("workspace root");

    assert_eq!(PathBuf::from(root), PathBuf::from("/tmp/workspace"));
}

#[test]
fn falls_back_to_root_uri() {
    let params = initialize_params(
        Some(Uri::from_file_path("/tmp/root-uri").expect("file uri")),
        Some(RootPath::from("/tmp/root-path")),
        None,
    );

    let root = workspace_root(&roots_of(&params)).expect("workspace root");

    assert_eq!(PathBuf::from(root), PathBuf::from("/tmp/root-uri"));
}

#[test]
fn falls_back_to_root_path() {
    let params = initialize_params(None, Some(RootPath::from("/tmp/root-path")), None);

    let root = workspace_root(&roots_of(&params)).expect("workspace root");

    assert_eq!(PathBuf::from(root), PathBuf::from("/tmp/root-path"));
}

#[test]
fn empty_folder_list_falls_back_to_root_uri() {
    let params = initialize_params(
        Some(Uri::from_file_path("/tmp/root-uri").expect("file uri")),
        None,
        Some(vec![]),
    );
    let root = workspace_root(&roots_of(&params)).expect("workspace root");
    assert_eq!(root, "/tmp/root-uri");
}

#[test]
fn workspace_folder_must_be_a_file_uri() {
    let roots = InitializeRoots {
        workspace_folders: Some(vec!["https://example.com/project".to_string()]),
        root_uri: Some("file:///tmp/root-uri".to_string()),
        root_path: Some("/tmp/root-path".to_string()),
    };
    assert_eq!(workspace_root(&roots), Err(WorkspaceRootError::FolderNotFile));
    assert_eq!(
        WorkspaceRootError::FolderNotFile.message(),
        "workspace folder URI must be a file URI"
    );
}

#[test]
fn root_uri_must_be_a_file_uri() {
    let roots = InitializeRoots {
        workspace_folders: None,
        root_uri: Some("https://example.com/project".to_string()),
        root_path: Some("/tmp/root-path".to_string()),
    };
    assert_eq!(workspace_root(&roots), Err(WorkspaceRootError::RootUriNotFile));
    assert_eq!(WorkspaceRootError::RootUriNotFile.message(), "rootUri must be a file URI");
}

#[test]
fn a_root_is_required() {
    let roots = InitializeRoots { workspace_folders: None, root_uri: None, root_path: None };
    assert_eq!(workspace_root(&roots), Err(WorkspaceRootError::Missing));
    assert_eq!(WorkspaceRootError::Missing.message(), "workspace root required");
    assert!(UnityServer::new(&roots).is_err());
}

#[test]
fn workspace_folder_uri_is_percent_decoded() {
    let roots = InitializeRoots {
        workspace_folders: Some(vec!["file:///tmp/my%20project".to_string()]),
        root_uri: None,
        root_path: None,
    };
    assert_eq!(workspace_root(&roots), Ok("/tmp/my project".to_string()));
}

#[test]
fn routes_code_lens_requests() {
    assert!(matches!(route_request("textDocument/codeLens"), RequestRoute::CodeLens));
    assert!(matches!(route_request("codeLens/resolve"), RequestRoute::CodeLensResolve));
}

#[test]
fn refuses_other_requests() {
    match route_request("textDocument/hover") {
        RequestRoute::Error { code, message } => {
            assert_eq!(code, ResponseErrorCode::MethodNotFound);
            assert_eq!(message, "unhandled method: textDocument/hover");
        }
        _ => panic!("expected an error route"),
    }
}

#[test]
fn classifies_notifications() {
    assert_eq!(notification_kind("textDocument/didOpen"), NotificationKind::DidOpen);
    assert_eq!(notification_kind("textDocument/didChange"), NotificationKind::DidChange);
    assert_eq!(notification_kind("textDocument/didClose"), NotificationKind::DidClose);
    assert_eq!(notification_kind("textDocument/didSave"), NotificationKind::Other);
}

fn server() -> UnityServer {
    let roots = InitializeRoots {
        workspace_folders: None,
        root_uri: None,
        root_path: Some("/tmp/project".to_string()),
    };
    UnityServer::new(&roots).expect("server")
}

fn plan_content(server: &UnityServer, uri: &str) -> Option<String> {
    match server.plan_code_lens(uri) {
        CodeLensPlan::NoLenses => None,
        CodeLensPlan::Create { content } => Some(content),
    }
}

#[test]
fn notifications_update_the_documents() {
    let mut server = server();
    let uri = "file:///tmp/project/Assets/Player.cs";
    assert_eq!(plan_content(&server, uri), None);

    server.handle_notification(DocumentNotification::Open {
        uri: uri.to_string(),
        text: "class Player {}".to_string(),
    });
    assert_eq!(plan_content(&server, uri), Some("class Player {}".to_string()));

    server.handle_notification(DocumentNotification::Change {
        uri: uri.to_string(),
        first_change: Some(ContentChange::Partial),
    });
    assert_eq!(plan_content(&server, uri), Some("class Player {}".to_string()));

    server.handle_notification(DocumentNotification::Change {
        uri: uri.to_string(),
        first_change: None,
    });
    assert_eq!(plan_content(&server, uri), Some("class Player {}".to_string()));

    server.handle_notification(DocumentNotification::Change {
        uri: uri.to_string(),
        first_change: Some(ContentChange::WholeDocument("class Enemy {}".to_string())),
    });
    assert_eq!(plan_content(&server, uri), Some("class Enemy {}".to_string()));

    server.handle_notification(DocumentNotification::Ignored);
    assert_eq!(plan_content(&server, uri), Some("class Enemy {}".to_string()));

    server.handle_notification(DocumentNotification::Close { uri: uri.to_string() });
    assert_eq!(plan_content(&server, uri), None);
    assert_eq!(server.workspace_root, "/tmp/project");
}
