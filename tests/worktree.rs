use responses_api_proxy::worktree::{listed_worktrees, worktree_path, WorktreeHandle};

#[test]
fn worktree_paths_per_conversation() {
    assert_eq!(worktree_path("/repo", "abc"), "/repo/codex/abc");
    assert_eq!(worktree_path("/repo/", "abc"), "/repo/codex/abc");
    let h = WorktreeHandle::new("/repo".to_string(), "/repo/codex/abc".to_string());
    assert_eq!(h.path(), "/repo/codex/abc");
    assert_eq!(h.repo_root(), "/repo");
}

#[test]
fn porcelain_listing() {
    let out = "worktree /repo\nHEAD 0123\nbranch refs/heads/main\n\nworktree /repo/codex/abc\r\nHEAD 4567\ndetached\n";
    assert_eq!(
        listed_worktrees(out),
        vec!["/repo".to_string(), "/repo/codex/abc".to_string()]
    );
    assert_eq!(listed_worktrees(""), Vec::<String>::new());
    assert_eq!(listed_worktrees("worktree /x"), vec!["/x".to_string()]);
}
