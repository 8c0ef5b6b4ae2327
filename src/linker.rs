use crate::configuration::{effective, GroupConfiguration, LinkConfiguration};
use crate::error::{is_plain, Error};
use crate::path::{
    absolutize, normalize, is_absolute, is_absolute_path, is_under, is_under_path, join_path,
    diff_of, joined, lemma_parent_is_absolute, relative_path, normal_of, parent_of, parent_path, EntryKind, EntryView,
};
use vstd::prelude::*;
use vstd::string::*;

verus! {

/// Whether a link stands on disk as the configuration asks.
#[derive(Debug, Clone, Copy, PartialEq, Eq, Structural)]
pub enum LinkStatus {
    Inactive,
    Active,
}

/// A link of the configuration with both paths made absolute and its
/// flags settled.
#[derive(Debug, PartialEq, Eq)]
pub struct ResolvedLink {
    /// Where the symbolic link stands.
    pub link: String,
    /// The file it should point to.
    pub target: String,
    /// Store the link's content relative to its parent directory.
    pub relative: bool,
    /// Replace whatever is in the way.
    pub force: bool,
}

impl ResolvedLink {
    pub open spec fn wf(&self) -> bool {
        is_absolute(self.link@) && is_absolute(self.target@)
    }
}

/// What a parent directory of a link turned out to be.
#[derive(Debug, Clone, Copy, PartialEq, Eq, Structural)]
pub enum ParentKind {
    Missing,
    Directory,
    /// Something that is not a directory occupies the parent's place.
    NotDirectory,
}

/// A change to the filesystem.
#[derive(Debug, PartialEq, Eq)]
pub enum Action {
    RemoveFile { path: String },
    RemoveDirAll { path: String },
    CreateDirAll { path: String },
    CreateSymlink { content: String, path: String },
}

/// An `Action` over plain sequences.
pub enum ActionView {
    RemoveFile(Seq<char>),
    RemoveDirAll(Seq<char>),
    CreateDirAll(Seq<char>),
    CreateSymlink(Seq<char>, Seq<char>),
}

impl View for Action {
    type V = ActionView;

    open spec fn view(&self) -> ActionView {
        match self {
            Action::RemoveFile { path } => ActionView::RemoveFile(path@),
            Action::RemoveDirAll { path } => ActionView::RemoveDirAll(path@),
            Action::CreateDirAll { path } => ActionView::CreateDirAll(path@),
            Action::CreateSymlink { content, path } => ActionView::CreateSymlink(content@, path@),
        }
    }
}

/// `v` holds the actions `s`, in order.
pub open spec fn holds_actions(v: Seq<Action>, s: Seq<ActionView>) -> bool {
    v.len() == s.len() && forall|i: int| 0 <= i < s.len() ==> #[trigger] v[i]@ == s[i]
}

/// The actions decided for one link, and whether they are only to be shown.
#[derive(Debug)]
pub struct Plan {
    pub actions: Vec<Action>,
    pub simulate: bool,
}

impl Plan {
    /// The actions to carry out: none at all when simulating.
    pub fn into_performed(self) -> (r: Vec<Action>)
        ensures
            self.simulate ==> r@.len() == 0,
            !self.simulate ==> r@ == self.actions@,
    {
        if self.simulate {
            Vec::new()
        } else {
            self.actions
        }
    }
}

/// The absolute path a link with `content` at `link` points to: the content
/// itself when absolute, else the content taken from the link's parent.
pub open spec fn resolved_content(link: Seq<char>, content: Seq<char>) -> Seq<char> {
    if is_absolute(content) {
        content
    } else {
        normal_of(joined(parent_of(link)->Some_0, content))
    }
}

/// What `status` reports as active: a symbolic link that resolves to the
/// target.
pub open spec fn reports_active(link: ResolvedLink, entry: EntryView) -> bool {
    match entry {
        EntryView::Symlink(content) => resolved_content(link.link@, content) == link.target@,
        _ => false,
    }
}

/// The actions that make room for the link's parent directory; `None` when
/// a non-directory is in the way and may not be removed.
pub open spec fn parent_actions(link: ResolvedLink, parent: ParentKind) -> Option<Seq<ActionView>> {
    match parent_of(link.link@) {
        None => Some(Seq::empty()),
        Some(p) => match parent {
            ParentKind::Directory => Some(Seq::empty()),
            ParentKind::Missing => Some(seq![ActionView::CreateDirAll(p)]),
            ParentKind::NotDirectory => if link.force {
                Some(seq![ActionView::RemoveFile(p), ActionView::CreateDirAll(p)])
            } else {
                None
            },
        },
    }
}

/// The actions that put a link with `content` in place over `entry`;
/// `None` when something is there and may not be removed.
pub open spec fn link_actions(link: ResolvedLink, entry: EntryView, content: Seq<char>) -> Option<
    Seq<ActionView>,
> {
    let create = ActionView::CreateSymlink(content, link.link@);
    match entry {
        EntryView::Missing => Some(seq![create]),
        EntryView::Directory => if link.force {
            Some(seq![ActionView::RemoveDirAll(link.link@), create])
        } else {
            None
        },
        _ => if link.force {
            Some(seq![ActionView::RemoveFile(link.link@), create])
        } else {
            None
        },
    }
}

/// Decisions on links: status, creation and deletion, each from what was
/// observed on disk.
pub struct Linker {}

impl Linker {
    /// Settles the absolute paths and the flags of one configured link.
    pub fn resolve(
        workspace: &str,
        symbolic_link: &str,
        link_configuration: &LinkConfiguration,
        configuration: &GroupConfiguration,
    ) -> (r: Result<ResolvedLink, Error>)
        ensures
            r is Ok ==> r->Ok_0.wf(),
            r is Ok ==> r->Ok_0.relative == effective(
                link_configuration.relative,
                configuration.relative,
            ),
            r is Ok ==> r->Ok_0.force == effective(link_configuration.force, configuration.force),
            r is Ok && is_absolute(symbolic_link@) ==> r->Ok_0.link@ == normal_of(symbolic_link@),
            r is Ok && is_absolute(workspace@) ==> r->Ok_0.target@ == normal_of(
                joined(workspace@, link_configuration.target@),
            ),
            r is Err ==> r->Err_0.message@ == "Invalid symbolic link."@,
    {
        let link = match absolutize(symbolic_link) {
            Ok(p) => p,
            Err(e) => {
                return Err(
                    Error::new("Invalid symbolic link.").with_inner_error(e.describe().as_str()),
                );
            },
        };
        let joined_target = join_path(workspace, link_configuration.target.as_str());
        if is_absolute_path(workspace) {
            assert(joined_target@[0] == '/');
        }
        let target = match absolutize(joined_target.as_str()) {
            Ok(p) => p,
            Err(e) => {
                return Err(
                    Error::new("Invalid symbolic link.").with_inner_error(e.describe().as_str()),
                );
            },
        };
        Linker::resolved_from(link, target, link_configuration, configuration)
    }

    /// A resolved link from paths already made absolute: refused unless
    /// both really are.
    pub fn resolved_from(
        link: String,
        target: String,
        link_configuration: &LinkConfiguration,
        configuration: &GroupConfiguration,
    ) -> (r: Result<ResolvedLink, Error>)
        ensures
            r is Ok == (is_absolute(link@) && is_absolute(target@)),
            r is Ok ==> r->Ok_0.link@ == link@ && r->Ok_0.target@ == target@
                && r->Ok_0.relative == effective(link_configuration.relative, configuration.relative)
                && r->Ok_0.force == effective(link_configuration.force, configuration.force),
            r is Err ==> is_plain(r->Err_0, "Invalid symbolic link."@),
    {
        if !is_absolute_path(link.as_str()) || !is_absolute_path(target.as_str()) {
            return Err(Error::new("Invalid symbolic link."));
        }
        Ok(
            ResolvedLink {
                link,
                target,
                relative: link_configuration.effective_relative(configuration),
                force: link_configuration.effective_force(configuration),
            },
        )
    }

    /// Where the entry at `link` points, when it is a symbolic link whose
    /// content can be resolved.
    pub fn resolve_link_content(link: &str, entry: &EntryKind) -> (r: Option<String>)
        requires
            is_absolute(link@),
        ensures
            !(entry is Symlink) ==> r is None,
            entry is Symlink && is_absolute(entry->content@) ==> r is Some,
            r is Some ==> entry is Symlink && r->Some_0@ == resolved_content(
                link@,
                entry->content@,
            ),
    {
        match entry {
            EntryKind::Symlink { content } => {
                if is_absolute_path(content.as_str()) {
                    return Some(content.clone());
                }
                match parent_path(link) {
                    None => None,
                    Some(parent) => {
                        proof {
                            if link@.len() > 1 {
                                lemma_parent_is_absolute(link@);
                            }
                        }
                        let full = join_path(parent.as_str(), content.as_str());
                        match normalize(full.as_str()) {
                            Ok(p) => Some(p),
                            Err(_) => None,
                        }
                    },
                }
            },
            _ => None,
        }
    }

    /// `Active` exactly when the link resolves to the target.
    pub fn classify(link: &ResolvedLink, resolved: &Option<String>) -> (r: LinkStatus)
        ensures
            (r == LinkStatus::Active) == (resolved is Some && resolved->Some_0@ == link.target@),
    {
        match resolved {
            Some(p) => {
                if p.eq(&link.target) {
                    LinkStatus::Active
                } else {
                    LinkStatus::Inactive
                }
            },
            None => LinkStatus::Inactive,
        }
    }

    /// The status of a link given what stands at its path. The style of the
    /// stored content (relative or absolute) does not matter.
    pub fn symbolic_link_status(link: &ResolvedLink, entry: &EntryKind) -> (r: LinkStatus)
        requires
            link.wf(),
        ensures
            !(entry is Symlink) ==> r == LinkStatus::Inactive,
            r == LinkStatus::Active ==> reports_active(*link, entry@),
            entry is Symlink && is_absolute(entry->content@) ==> ((r == LinkStatus::Active)
                == reports_active(*link, entry@)),
    {
        let resolved = Linker::resolve_link_content(link.link.as_str(), entry);
        Linker::classify(link, &resolved)
    }

    /// Makes room for the link's parent directory: creates it when missing;
    /// when a non-directory is in its place, removes that first if forced,
    /// and fails otherwise.
    pub fn plan_parent(link: &ResolvedLink, parent: ParentKind, simulate: bool) -> (r: Result<
        Plan,
        Error,
    >)
        requires
            link.wf(),
        ensures
            match parent_actions(*link, parent) {
                Some(s) => r is Ok && holds_actions(r->Ok_0.actions@, s) && r->Ok_0.simulate
                    == simulate,
                None => r is Err && is_plain(
                    r->Err_0,
                    "The parent path exists, but it is not a directory."@,
                ),
            },
    {
        let mut actions: Vec<Action> = Vec::new();
        match parent_path(link.link.as_str()) {
            None => {},
            Some(p) => {
                match parent {
                    ParentKind::Directory => {},
                    ParentKind::Missing => {
                        actions.push(Action::CreateDirAll { path: p });
                    },
                    ParentKind::NotDirectory => {
                        if !link.force {
                            return Err(
                                Error::new("The parent path exists, but it is not a directory."),
                            );
                        }
                        actions.push(Action::RemoveFile { path: p.clone() });
                        actions.push(Action::CreateDirAll { path: p });
                    },
                }
            },
        }
        Ok(Plan { actions, simulate })
    }

    /// What the link stores: the target itself, or, for a relative link, the
    /// path from its parent directory as the filesystem resolves it.
    pub fn link_content(link: &ResolvedLink, canonical_parent: Option<&str>) -> (r: Result<
        String,
        Error,
    >)
        ensures
            !link.relative ==> r is Ok && r->Ok_0@ == link.target@,
            link.relative ==> match canonical_parent {
                Some(c) => match diff_of(link.target@, c@) {
                    Some(d) => r is Ok && r->Ok_0@ == d,
                    None => r is Err && is_plain(
                        r->Err_0,
                        "The target cannot be reached by a relative path."@,
                    ),
                },
                None => r is Err && is_plain(
                    r->Err_0,
                    "The parent directory cannot be resolved."@,
                ),
            },
    {
        if !link.relative {
            return Ok(link.target.clone());
        }
        match canonical_parent {
            Some(c) => match relative_path(link.target.as_str(), c) {
                Some(d) => Ok(d),
                None => Err(Error::new("The target cannot be reached by a relative path.")),
            },
            None => Err(Error::new("The parent directory cannot be resolved.")),
        }
    }

    /// Puts the link in place over what stands at its path: removes that
    /// first if forced, and fails if something is there otherwise.
    pub fn plan_link(link: &ResolvedLink, entry: &EntryKind, content: &str, simulate: bool) -> (r:
        Result<Plan, Error>)
        ensures
            match link_actions(*link, entry@, content@) {
                Some(s) => r is Ok && holds_actions(r->Ok_0.actions@, s) && r->Ok_0.simulate
                    == simulate,
                None => r is Err && is_plain(r->Err_0, "The symbolic link path already exists."@),
            },
    {
        let mut actions: Vec<Action> = Vec::new();
        match entry {
            EntryKind::Missing => {},
            EntryKind::Directory => {
                if !link.force {
                    return Err(Error::new("The symbolic link path already exists."));
                }
                actions.push(Action::RemoveDirAll { path: link.link.clone() });
            },
            _ => {
                if !link.force {
                    return Err(Error::new("The symbolic link path already exists."));
                }
                actions.push(Action::RemoveFile { path: link.link.clone() });
            },
        }
        actions.push(
            Action::CreateSymlink { content: content.to_string(), path: link.link.clone() },
        );
        Ok(Plan { actions, simulate })
    }

    /// Removes the link when it is active and points inside `workspace` (a
    /// canonical path); leaves an inactive one alone.
    pub fn plan_delete(workspace: &str, link: &ResolvedLink, entry: &EntryKind, simulate: bool) -> (r:
        Result<Plan, Error>)
        requires
            link.wf(),
        ensures
            r is Ok ==> r->Ok_0.simulate == simulate,
            r is Ok && r->Ok_0.actions@.len() > 0 ==> entry is Symlink && resolved_content(
                link.link@,
                entry->content@,
            ) == link.target@ && is_under(link.target@, workspace@) && holds_actions(
                r->Ok_0.actions@,
                seq![ActionView::RemoveFile(link.link@)],
            ),
            r is Err ==> entry is Symlink && resolved_content(link.link@, entry->content@)
                == link.target@ && !is_under(link.target@, workspace@) && is_plain(
                r->Err_0,
                "The symbolic link does not belong to the current workspace."@,
            ),
            !(entry is Symlink) ==> r is Ok && r->Ok_0.actions@.len() == 0,
            entry is Symlink && is_absolute(entry->content@) ==> if entry->content@
                == link.target@ {
                if is_under(link.target@, workspace@) {
                    r is Ok && r->Ok_0.actions@.len() == 1
                } else {
                    r is Err
                }
            } else {
                r is Ok && r->Ok_0.actions@.len() == 0
            },
    {
        let resolved = Linker::resolve_link_content(link.link.as_str(), entry);
        Linker::plan_delete_resolved(workspace, link, &resolved, simulate)
    }

    /// Removes the link when it resolved to its target (it is active) and
    /// that target lies inside `workspace`; refuses when it lies outside;
    /// does nothing for an inactive link.
    pub fn plan_delete_resolved(
        workspace: &str,
        link: &ResolvedLink,
        resolved: &Option<String>,
        simulate: bool,
    ) -> (r: Result<Plan, Error>)
        ensures
            if resolved is Some && resolved->Some_0@ == link.target@ {
                if is_under(link.target@, workspace@) {
                    r is Ok && r->Ok_0.simulate == simulate && holds_actions(
                        r->Ok_0.actions@,
                        seq![ActionView::RemoveFile(link.link@)],
                    )
                } else {
                    r is Err && is_plain(
                        r->Err_0,
                        "The symbolic link does not belong to the current workspace."@,
                    )
                }
            } else {
                r is Ok && r->Ok_0.simulate == simulate && r->Ok_0.actions@.len() == 0
            },
    {
        let mut actions: Vec<Action> = Vec::new();
        if Linker::classify(link, resolved) == LinkStatus::Inactive {
            return Ok(Plan { actions, simulate });
        }
        if !is_under_path(link.target.as_str(), workspace) {
            return Err(Error::new("The symbolic link does not belong to the current workspace."));
        }
        actions.push(Action::RemoveFile { path: link.link.clone() });
        Ok(Plan { actions, simulate })
    }
}

} // verus!
