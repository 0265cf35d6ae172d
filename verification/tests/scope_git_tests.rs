use fallow_cli::audit::pick_base_branch;
use fallow_cli::scope::{changed_files_from_diff, resolve_workspace_root, WorkspaceInfo};

#[test]
fn changed_files_are_joined_to_root() {
    assert_eq!(
        changed_files_from_diff("/project", "src/a.ts\nsrc/b.ts\n"),
        vec!["/project/src/a.ts".to_string(), "/project/src/b.ts".to_string()]
    );
    assert_eq!(
        changed_files_from_diff("/project", "src/a.ts\r\nlib/c.ts"),
        vec!["/project/src/a.ts".to_string(), "/project/lib/c.ts".to_string()]
    );
    assert!(changed_files_from_diff("/project", "").is_empty());
}

fn ws(name: &str, root: &str) -> WorkspaceInfo {
    WorkspaceInfo { name: name.to_string(), root: root.to_string() }
}

#[test]
fn workspace_root_is_found_by_name() {
    let all = vec![ws("@app/ui", "/p/packages/ui"), ws("@app/api", "/p/packages/api")];
    assert_eq!(resolve_workspace_root(&all, "@app/api"), Ok("/p/packages/api".to_string()));
    assert_eq!(
        resolve_workspace_root(&all, "web"),
        Err("workspace 'web' not found. Available workspaces: @app/ui, @app/api".to_string())
    );
    let none: Vec<WorkspaceInfo> = Vec::new();
    let err = resolve_workspace_root(&none, "ui").unwrap_err();
    assert!(err.starts_with("--workspace 'ui' specified but no workspaces found."));
}

#[test]
fn base_branch_prefers_origin_head() {
    assert_eq!(pick_base_branch(Some("refs/remotes/origin/develop\n"), true, true), Some("develop".to_string()));
    assert_eq!(pick_base_branch(Some("garbage"), true, true), Some("main".to_string()));
    assert_eq!(pick_base_branch(None, false, true), Some("master".to_string()));
    assert_eq!(pick_base_branch(None, false, false), None);
}
