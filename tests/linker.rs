use idot::configuration::{GroupConfiguration, LinkConfiguration};
use idot::linker::{Action, Linker, LinkStatus, ParentKind, ResolvedLink};
use idot::path::EntryKind;

fn link(path: &str, target: &str, relative: bool, force: bool) -> ResolvedLink {
    ResolvedLink { link: path.to_string(), target: target.to_string(), relative, force }
}

fn symlink(content: &str) -> EntryKind {
    EntryKind::Symlink { content: content.to_string() }
}

fn group(relative: Option<bool>, force: Option<bool>) -> GroupConfiguration {
    GroupConfiguration { links: None, clean: None, relative, force }
}

#[test]
fn resolve_joins_target_to_workspace() {
    let cfg = LinkConfiguration { target: "vimrc".to_string(), relative: None, force: None };
    let r = Linker::resolve("/ws", "/home/u/./.vimrc", &cfg, &group(Some(true), None)).unwrap();
    assert_eq!(r.link, "/home/u/.vimrc");
    assert_eq!(r.target, "/ws/vimrc");
    assert!(r.relative);
    assert!(!r.force);
}

#[test]
fn resolve_expands_home() {
    let cfg = LinkConfiguration { target: "vimrc".to_string(), relative: Some(false), force: Some(true) };
    let r = Linker::resolve("/ws", "~/.vimrc", &cfg, &group(Some(true), None)).unwrap();
    assert!(r.link.starts_with('/'));
    assert!(r.link.ends_with("/.vimrc"));
    assert!(!r.link.contains('~'));
    assert!(!r.relative);
    assert!(r.force);
}

#[test]
fn resolve_normalizes_target_path() {
    let cfg = LinkConfiguration { target: "a/../b/./c".to_string(), relative: None, force: None };
    let r = Linker::resolve("/ws", "/home/x", &cfg, &group(None, None)).unwrap();
    assert_eq!(r.target, "/ws/b/c");
    assert!(!r.relative);
}

#[test]
fn scenario_create_relative_link_then_active() {
    let l = link("/home/u/.vimrc", "/ws/vimrc", true, false);
    let parent = Linker::plan_parent(&l, ParentKind::Directory, false).unwrap();
    assert!(parent.actions.is_empty());
    let content = Linker::link_content(&l, Some("/home/u")).unwrap();
    assert_eq!(content, "../../ws/vimrc");
    let plan = Linker::plan_link(&l, &EntryKind::Missing, &content, false).unwrap();
    assert_eq!(
        plan.actions,
        vec![Action::CreateSymlink { content: content.clone(), path: "/home/u/.vimrc".to_string() }]
    );
    assert_eq!(Linker::symbolic_link_status(&l, &symlink(&content)), LinkStatus::Active);
}

#[test]
fn scenario_existing_file_without_force_fails() {
    let blocked = link("/home/u/.vimrc", "/ws/vimrc", true, false);
    let e = Linker::plan_link(&blocked, &EntryKind::File, "../../ws/vimrc", false).unwrap_err();
    assert_eq!(e.message, "The symbolic link path already exists.");
    let other = link("/home/u/.gitconfig", "/ws/gitconfig", false, false);
    let plan = Linker::plan_link(&other, &EntryKind::Missing, "/ws/gitconfig", false).unwrap();
    assert_eq!(plan.actions.len(), 1);
}

#[test]
fn scenario_foreign_link_is_inactive_and_kept() {
    let l = link("/home/.bashrc", "/ws/bashrc", false, false);
    let entry = symlink("/etc/bashrc");
    assert_eq!(Linker::symbolic_link_status(&l, &entry), LinkStatus::Inactive);
    let plan = Linker::plan_delete("/ws", &l, &entry, false).unwrap();
    assert!(plan.actions.is_empty());
}

#[test]
fn scenario_owned_link_is_active_and_deleted() {
    let l = link("/home/.bashrc", "/ws/bashrc", false, false);
    let entry = symlink("/ws/bashrc");
    assert_eq!(Linker::symbolic_link_status(&l, &entry), LinkStatus::Active);
    let plan = Linker::plan_delete("/ws", &l, &entry, false).unwrap();
    assert_eq!(plan.into_performed(), vec![Action::RemoveFile { path: "/home/.bashrc".to_string() }]);
}

#[test]
fn delete_outside_workspace_is_refused() {
    let l = link("/home/.bashrc", "/other/bashrc", false, false);
    let e = Linker::plan_delete("/ws", &l, &symlink("/other/bashrc"), false).unwrap_err();
    assert_eq!(e.message, "The symbolic link does not belong to the current workspace.");
}

#[test]
fn delete_checks_whole_segments() {
    let l = link("/home/.bashrc", "/ws2/bashrc", false, false);
    assert!(Linker::plan_delete("/ws", &l, &symlink("/ws2/bashrc"), false).is_err());
}

#[test]
fn simulated_delete_performs_nothing() {
    let l = link("/home/.bashrc", "/ws/bashrc", false, false);
    let plan = Linker::plan_delete("/ws", &l, &symlink("/ws/bashrc"), true).unwrap();
    assert_eq!(plan.actions.len(), 1);
    assert!(plan.into_performed().is_empty());
}

#[test]
fn simulated_create_performs_nothing() {
    let l = link("/home/u/.vimrc", "/ws/vimrc", false, true);
    let plan = Linker::plan_link(&l, &EntryKind::File, "/ws/vimrc", true).unwrap();
    assert_eq!(plan.actions.len(), 2);
    assert!(plan.into_performed().is_empty());
}

#[test]
fn relative_content_resolves_against_parent() {
    let l = link("/home/u/.vimrc", "/ws/vimrc", true, false);
    assert_eq!(Linker::symbolic_link_status(&l, &symlink("../../ws/vimrc")), LinkStatus::Active);
    assert_eq!(Linker::symbolic_link_status(&l, &symlink("../ws/vimrc")), LinkStatus::Inactive);
}

#[test]
fn storage_style_does_not_matter_for_status() {
    let l = link("/home/u/.vimrc", "/ws/vimrc", true, false);
    assert_eq!(Linker::symbolic_link_status(&l, &symlink("/ws/vimrc")), LinkStatus::Active);
}

#[test]
fn non_links_are_inactive() {
    let l = link("/home/u/.vimrc", "/ws/vimrc", false, false);
    assert_eq!(Linker::symbolic_link_status(&l, &EntryKind::Missing), LinkStatus::Inactive);
    assert_eq!(Linker::symbolic_link_status(&l, &EntryKind::File), LinkStatus::Inactive);
    assert_eq!(Linker::symbolic_link_status(&l, &EntryKind::Directory), LinkStatus::Inactive);
}

#[test]
fn missing_parent_is_created() {
    let l = link("/home/u/cfg/app.toml", "/ws/app.toml", false, false);
    let plan = Linker::plan_parent(&l, ParentKind::Missing, false).unwrap();
    assert_eq!(plan.actions, vec![Action::CreateDirAll { path: "/home/u/cfg".to_string() }]);
}

#[test]
fn blocked_parent_needs_force() {
    let l = link("/home/u/cfg/app.toml", "/ws/app.toml", false, false);
    let e = Linker::plan_parent(&l, ParentKind::NotDirectory, false).unwrap_err();
    assert_eq!(e.message, "The parent path exists, but it is not a directory.");
    let f = link("/home/u/cfg/app.toml", "/ws/app.toml", false, true);
    let plan = Linker::plan_parent(&f, ParentKind::NotDirectory, false).unwrap();
    assert_eq!(
        plan.actions,
        vec![
            Action::RemoveFile { path: "/home/u/cfg".to_string() },
            Action::CreateDirAll { path: "/home/u/cfg".to_string() },
        ]
    );
}

#[test]
fn forced_link_replaces_directory() {
    let l = link("/home/u/.vim", "/ws/vim", false, true);
    let plan = Linker::plan_link(&l, &EntryKind::Directory, "/ws/vim", false).unwrap();
    assert_eq!(
        plan.actions,
        vec![
            Action::RemoveDirAll { path: "/home/u/.vim".to_string() },
            Action::CreateSymlink { content: "/ws/vim".to_string(), path: "/home/u/.vim".to_string() },
        ]
    );
}

#[test]
fn forced_create_twice_gives_same_plan_shape() {
    let l = link("/home/u/.vimrc", "/ws/vimrc", false, true);
    let first = Linker::plan_link(&l, &EntryKind::Missing, "/ws/vimrc", false).unwrap();
    let second = Linker::plan_link(&l, &symlink("/ws/vimrc"), "/ws/vimrc", false).unwrap();
    assert_eq!(first.actions.last(), second.actions.last());
    assert_eq!(second.actions[0], Action::RemoveFile { path: "/home/u/.vimrc".to_string() });
}

#[test]
fn absolute_link_content_is_target() {
    let l = link("/home/u/.vimrc", "/ws/vimrc", false, false);
    assert_eq!(Linker::link_content(&l, None).unwrap(), "/ws/vimrc");
}

#[test]
fn relative_link_content_needs_parent() {
    let l = link("/home/u/.vimrc", "/ws/vimrc", true, false);
    let e = Linker::link_content(&l, None).unwrap_err();
    assert_eq!(e.message, "The parent directory cannot be resolved.");
}

#[test]
fn resolved_from_keeps_absolute_paths() {
    let cfg = LinkConfiguration { target: "vimrc".to_string(), relative: None, force: Some(true) };
    let r = Linker::resolved_from("/h/.vimrc".to_string(), "/ws/vimrc".to_string(), &cfg, &group(Some(true), None)).unwrap();
    assert_eq!(r, link("/h/.vimrc", "/ws/vimrc", true, true));
}

#[test]
fn resolved_from_refuses_relative_paths() {
    let cfg = LinkConfiguration { target: "vimrc".to_string(), relative: None, force: None };
    let e = Linker::resolved_from("h/.vimrc".to_string(), "/ws/vimrc".to_string(), &cfg, &group(None, None)).unwrap_err();
    assert_eq!(e.message, "Invalid symbolic link.");
    assert!(Linker::resolved_from("/h/.vimrc".to_string(), "ws/vimrc".to_string(), &cfg, &group(None, None)).is_err());
}

#[test]
fn delete_from_resolved_relative_content() {
    let l = link("/home/u/.vimrc", "/ws/vimrc", true, false);
    let plan = Linker::plan_delete_resolved("/ws", &l, &Some("/ws/vimrc".to_string()), false).unwrap();
    assert_eq!(plan.actions, vec![Action::RemoveFile { path: "/home/u/.vimrc".to_string() }]);
    let plan = Linker::plan_delete_resolved("/ws", &l, &Some("/elsewhere".to_string()), false).unwrap();
    assert!(plan.actions.is_empty());
    let plan = Linker::plan_delete_resolved("/ws", &l, &None, false).unwrap();
    assert!(plan.actions.is_empty());
    let e = Linker::plan_delete_resolved("/other", &l, &Some("/ws/vimrc".to_string()), false).unwrap_err();
    assert_eq!(e.message, "The symbolic link does not belong to the current workspace.");
}

#[test]
fn delete_relative_link_inside_workspace() {
    let l = link("/home/u/.vimrc", "/ws/vimrc", true, false);
    let plan = Linker::plan_delete("/ws", &l, &symlink("../../ws/vimrc"), false).unwrap();
    assert_eq!(plan.actions.len(), 1);
}

#[test]
fn link_keys_must_be_unique() {
    let entry = |k: &str| (k.to_string(), LinkConfiguration { target: "t".to_string(), relative: None, force: None });
    let mut g = group(None, None);
    assert!(g.has_unique_links());
    g.links = Some(vec![entry("a"), entry("b")]);
    assert!(g.has_unique_links());
    g.links = Some(vec![entry("a"), entry("b"), entry("a")]);
    assert!(!g.has_unique_links());
}
