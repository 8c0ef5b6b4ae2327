use crate::linker::{
    link_actions, parent_actions, reports_active, resolved_content, ActionView, ParentKind,
    ResolvedLink,
};
use crate::path::{is_absolute, lemma_parent_is_absolute, parent_of, EntryView};
use vstd::prelude::*;

verus! {

/// A filesystem as a map from paths to what stands there; a path that is
/// not a key holds nothing. The map is flat: paths are not tied to their
/// ancestors or descendants.
pub type Fs = Map<Seq<char>, EntryView>;

pub open spec fn observe(fs: Fs, path: Seq<char>) -> EntryView {
    if fs.contains_key(path) {
        fs[path]
    } else {
        EntryView::Missing
    }
}

/// How a parent directory is seen before a link is made below it.
pub open spec fn observe_parent(fs: Fs, path: Seq<char>) -> ParentKind {
    match observe(fs, path) {
        EntryView::Missing => ParentKind::Missing,
        EntryView::Directory => ParentKind::Directory,
        _ => ParentKind::NotDirectory,
    }
}

/// One action on the model. Creating over an entry that is in the way
/// leaves the filesystem as it was, as the failing call would. Being flat,
/// the model creates only the directory named, not its missing ancestors,
/// and a directory's removal drops only its own entry, not what lies below.
pub open spec fn apply(fs: Fs, action: ActionView) -> Fs {
    match action {
        ActionView::RemoveFile(p) => fs.remove(p),
        ActionView::RemoveDirAll(p) => fs.remove(p),
        ActionView::CreateDirAll(p) => match observe(fs, p) {
            EntryView::Missing => fs.insert(p, EntryView::Directory),
            _ => fs,
        },
        ActionView::CreateSymlink(content, p) => match observe(fs, p) {
            EntryView::Missing => fs.insert(p, EntryView::Symlink(content)),
            _ => fs,
        },
    }
}

pub open spec fn apply_all(fs: Fs, actions: Seq<ActionView>) -> Fs
    decreases actions.len(),
{
    if actions.len() == 0 {
        fs
    } else {
        apply_all(apply(fs, actions[0]), actions.drop_first())
    }
}

/// The filesystem after `create` handled `link` with the given content:
/// the parent is made room for, then the link is put in place; a refusal
/// stops there.
pub open spec fn run_create(fs: Fs, link: ResolvedLink, content: Seq<char>) -> Fs {
    let parent = match parent_of(link.link@) {
        Some(p) => observe_parent(fs, p),
        None => ParentKind::Directory,
    };
    match parent_actions(link, parent) {
        None => fs,
        Some(pa) => {
            let fs1 = apply_all(fs, pa);
            match link_actions(link, observe(fs1, link.link@), content) {
                None => fs1,
                Some(la) => apply_all(fs1, la),
            }
        },
    }
}

proof fn lemma_apply_one(fs: Fs, a: ActionView)
    ensures
        apply_all(fs, seq![a]) == apply(fs, a),
{
    assert(seq![a].drop_first() =~= Seq::<ActionView>::empty());
    assert(apply_all(apply(fs, a), Seq::empty()) == apply(fs, a));
}

proof fn lemma_apply_two(fs: Fs, a: ActionView, b: ActionView)
    ensures
        apply_all(fs, seq![a, b]) == apply(apply(fs, a), b),
{
    assert(seq![a, b].drop_first() =~= seq![b]);
    lemma_apply_one(apply(fs, a), b);
}

/// With `force`, putting a link in place leaves exactly the new link at its
/// path, whatever stood there.
proof fn lemma_forced_link(fs: Fs, link: ResolvedLink, content: Seq<char>)
    requires
        link.force,
    ensures
        link_actions(link, observe(fs, link.link@), content) is Some,
        apply_all(fs, link_actions(link, observe(fs, link.link@), content)->Some_0)
            == fs.insert(link.link@, EntryView::Symlink(content)),
{
    let l = link.link@;
    let c = ActionView::CreateSymlink(content, l);
    match observe(fs, l) {
        EntryView::Missing => {
            lemma_apply_one(fs, c);
        },
        EntryView::Directory => {
            lemma_apply_two(fs, ActionView::RemoveDirAll(l), c);
            assert(fs.remove(l).insert(l, EntryView::Symlink(content)) =~= fs.insert(
                l,
                EntryView::Symlink(content),
            ));
        },
        _ => {
            lemma_apply_two(fs, ActionView::RemoveFile(l), c);
            assert(fs.remove(l).insert(l, EntryView::Symlink(content)) =~= fs.insert(
                l,
                EntryView::Symlink(content),
            ));
        },
    }
}

/// With `force`, the parent ends up a directory.
proof fn lemma_forced_parent(fs: Fs, link: ResolvedLink, p: Seq<char>)
    requires
        link.force,
        parent_of(link.link@) == Some(p),
    ensures
        parent_actions(link, observe_parent(fs, p)) is Some,
        observe(apply_all(fs, parent_actions(link, observe_parent(fs, p))->Some_0), p)
            == EntryView::Directory,
        forall|q: Seq<char>|
            q != p ==> observe(
                #[trigger] apply_all(fs, parent_actions(link, observe_parent(fs, p))->Some_0),
                q,
            ) == observe(fs, q),
{
    match observe_parent(fs, p) {
        ParentKind::Missing => {
            lemma_apply_one(fs, ActionView::CreateDirAll(p));
        },
        ParentKind::Directory => {},
        ParentKind::NotDirectory => {
            lemma_apply_two(fs, ActionView::RemoveFile(p), ActionView::CreateDirAll(p));
        },
    }
}

/// The link holds `content` and its parent, if it has one, is a directory.
pub open spec fn placed(fs: Fs, link: ResolvedLink, content: Seq<char>) -> bool {
    observe(fs, link.link@) == EntryView::Symlink(content) && (parent_of(link.link@) is Some
        ==> observe(fs, parent_of(link.link@)->Some_0) == EntryView::Directory)
}

/// One forced `create` places the link, and touches no path but the link's
/// own and its parent's.
proof fn lemma_forced_create_effect(fs: Fs, link: ResolvedLink, content: Seq<char>)
    requires
        link.wf(),
        link.force,
    ensures
        placed(run_create(fs, link, content), link, content),
        forall|q: Seq<char>|
            q != link.link@ && (parent_of(link.link@) is Some ==> q != parent_of(link.link@)->Some_0)
                ==> observe(#[trigger] run_create(fs, link, content), q) == observe(fs, q),
{
    let l = link.link@;
    match parent_of(l) {
        None => {
            lemma_forced_link(fs, link, content);
        },
        Some(p) => {
            if l.len() > 1 {
                lemma_parent_is_absolute(l);
            }
            assert(p != l);
            lemma_forced_parent(fs, link, p);
            let fs1 = apply_all(fs, parent_actions(link, observe_parent(fs, p))->Some_0);
            lemma_forced_link(fs1, link, content);
        },
    }
}

/// A forced `create` of a link already in place changes nothing.
proof fn lemma_placed_is_fixed(fs: Fs, link: ResolvedLink, content: Seq<char>)
    requires
        link.wf(),
        link.force,
        placed(fs, link, content),
    ensures
        run_create(fs, link, content) == fs,
{
    let l = link.link@;
    match parent_of(l) {
        None => {},
        Some(p) => {
            assert(observe_parent(fs, p) == ParentKind::Directory);
            assert(apply_all(fs, Seq::empty()) == fs);
        },
    }
    lemma_forced_link(fs, link, content);
    assert(fs.insert(l, EntryView::Symlink(content)) =~= fs);
}

/// Running `create` a second time with `force` leaves the filesystem as the
/// first run left it.
pub proof fn lemma_create_idempotent(fs: Fs, link: ResolvedLink, content: Seq<char>)
    requires
        link.wf(),
        link.force,
    ensures
        run_create(run_create(fs, link, content), link, content) == run_create(fs, link, content),
{
    lemma_forced_create_effect(fs, link, content);
    lemma_placed_is_fixed(run_create(fs, link, content), link, content);
}

/// `create` over the links of a configuration, in order, each with its
/// decided content.
pub open spec fn run_create_all(fs: Fs, links: Seq<(ResolvedLink, Seq<char>)>) -> Fs
    decreases links.len(),
{
    if links.len() == 0 {
        fs
    } else {
        run_create_all(run_create(fs, links[0].0, links[0].1), links.drop_first())
    }
}

/// No link stands where another link, or another link's parent, stands.
pub open spec fn apart(links: Seq<(ResolvedLink, Seq<char>)>) -> bool {
    forall|i: int, j: int|
        0 <= i < links.len() && 0 <= j < links.len() && i != j ==> links[i].0.link@
            != links[j].0.link@ && (parent_of(links[j].0.link@) is Some ==> parent_of(
            links[j].0.link@,
        )->Some_0 != links[i].0.link@)
}

/// Every link is well formed and forced.
pub open spec fn all_forced(links: Seq<(ResolvedLink, Seq<char>)>) -> bool {
    forall|i: int| 0 <= i < links.len() ==> #[trigger] links[i].0.wf() && links[i].0.force
}

/// A placed link stays placed while links apart from it are created.
proof fn lemma_stays_placed(
    fs: Fs,
    link: ResolvedLink,
    content: Seq<char>,
    links: Seq<(ResolvedLink, Seq<char>)>,
)
    requires
        placed(fs, link, content),
        all_forced(links),
        forall|j: int|
            0 <= j < links.len() ==> #[trigger] links[j].0.link@ != link.link@ && (parent_of(
                links[j].0.link@,
            ) is Some ==> parent_of(links[j].0.link@)->Some_0 != link.link@) && (parent_of(
                link.link@,
            ) is Some ==> links[j].0.link@ != parent_of(link.link@)->Some_0),
    ensures
        placed(run_create_all(fs, links), link, content),
    decreases links.len(),
{
    if links.len() > 0 {
        let first = links[0];
        assert(first.0.wf() && first.0.force);
        lemma_forced_create_effect(fs, first.0, first.1);
        let fs1 = run_create(fs, first.0, first.1);
        assert(observe(fs1, link.link@) == observe(fs, link.link@));
        let rest = links.drop_first();
        assert forall|j: int| 0 <= j < rest.len() implies #[trigger] rest[j].0.wf()
            && rest[j].0.force by {
            assert(rest[j] == links[j + 1]);
        }
        assert forall|j: int| 0 <= j < rest.len() implies #[trigger] rest[j].0.link@
            != link.link@ && (parent_of(rest[j].0.link@) is Some ==> parent_of(
            rest[j].0.link@,
        )->Some_0 != link.link@) && (parent_of(link.link@) is Some ==> rest[j].0.link@
            != parent_of(link.link@)->Some_0) by {
            assert(rest[j] == links[j + 1]);
        }
        lemma_stays_placed(fs1, link, content, rest);
    }
}

/// After one run over apart, forced links, every link is placed.
proof fn lemma_all_placed(fs: Fs, links: Seq<(ResolvedLink, Seq<char>)>)
    requires
        all_forced(links),
        apart(links),
    ensures
        forall|i: int|
            0 <= i < links.len() ==> placed(run_create_all(fs, links), #[trigger] links[i].0, links[i].1),
    decreases links.len(),
{
    if links.len() > 0 {
        let first = links[0];
        assert(first.0.wf() && first.0.force);
        lemma_forced_create_effect(fs, first.0, first.1);
        let fs1 = run_create(fs, first.0, first.1);
        let rest = links.drop_first();
        assert forall|j: int| 0 <= j < rest.len() implies #[trigger] rest[j].0.wf()
            && rest[j].0.force by {
            assert(rest[j] == links[j + 1]);
        }
        assert forall|i: int, j: int|
            0 <= i < rest.len() && 0 <= j < rest.len() && i != j implies rest[i].0.link@
            != rest[j].0.link@ && (parent_of(rest[j].0.link@) is Some ==> parent_of(
            rest[j].0.link@,
        )->Some_0 != rest[i].0.link@) by {
            assert(rest[i] == links[i + 1]);
            assert(rest[j] == links[j + 1]);
        }
        lemma_all_placed(fs1, rest);
        assert forall|j: int| 0 <= j < rest.len() implies #[trigger] rest[j].0.link@
            != first.0.link@ && (parent_of(rest[j].0.link@) is Some ==> parent_of(
            rest[j].0.link@,
        )->Some_0 != first.0.link@) && (parent_of(first.0.link@) is Some ==> rest[j].0.link@
            != parent_of(first.0.link@)->Some_0) by {
            assert(rest[j] == links[j + 1]);
            assert(links[0] == first);
        }
        lemma_stays_placed(fs1, first.0, first.1, rest);
        assert forall|i: int| 0 <= i < links.len() implies placed(
            run_create_all(fs, links),
            #[trigger] links[i].0,
            links[i].1,
        ) by {
            if i > 0 {
                assert(links[i] == rest[i - 1]);
            }
        }
    }
}

/// A run over links that are all placed already changes nothing.
proof fn lemma_all_fixed(fs: Fs, links: Seq<(ResolvedLink, Seq<char>)>)
    requires
        all_forced(links),
        forall|i: int| 0 <= i < links.len() ==> placed(fs, #[trigger] links[i].0, links[i].1),
    ensures
        run_create_all(fs, links) == fs,
    decreases links.len(),
{
    if links.len() > 0 {
        let first = links[0];
        assert(first.0.wf() && first.0.force);
        assert(placed(fs, first.0, first.1));
        lemma_placed_is_fixed(fs, first.0, first.1);
        let rest = links.drop_first();
        assert forall|j: int| 0 <= j < rest.len() implies #[trigger] rest[j].0.wf()
            && rest[j].0.force by {
            assert(rest[j] == links[j + 1]);
        }
        assert forall|j: int| 0 <= j < rest.len() implies placed(fs, #[trigger] rest[j].0, rest[j].1) by {
            assert(rest[j] == links[j + 1]);
        }
        lemma_all_fixed(fs, rest);
    }
}

/// Running `create` over a whole configuration twice with `force` leaves
/// the filesystem as one run left it, when no link stands where another
/// link or its parent stands.
pub proof fn lemma_create_all_idempotent(fs: Fs, links: Seq<(ResolvedLink, Seq<char>)>)
    requires
        all_forced(links),
        apart(links),
    ensures
        run_create_all(run_create_all(fs, links), links) == run_create_all(fs, links),
{
    lemma_all_placed(fs, links);
    lemma_all_fixed(run_create_all(fs, links), links);
}

/// The filesystem between the two steps of `create`: after room was made
/// for the parent.
pub open spec fn after_parent(fs: Fs, link: ResolvedLink) -> Fs {
    let parent = match parent_of(link.link@) {
        Some(p) => observe_parent(fs, p),
        None => ParentKind::Directory,
    };
    match parent_actions(link, parent) {
        None => fs,
        Some(pa) => apply_all(fs, pa),
    }
}

/// `create` succeeded: neither the parent step nor the link step refused.
pub open spec fn create_succeeds(fs: Fs, link: ResolvedLink, content: Seq<char>) -> bool {
    let parent = match parent_of(link.link@) {
        Some(p) => observe_parent(fs, p),
        None => ParentKind::Directory,
    };
    parent_actions(link, parent) is Some && link_actions(
        link,
        observe(after_parent(fs, link), link.link@),
        content,
    ) is Some
}

/// After a successful `create`, the link's path holds a symbolic link with
/// the content that was decided.
pub proof fn lemma_create_places_link(fs: Fs, link: ResolvedLink, content: Seq<char>)
    requires
        create_succeeds(fs, link, content),
    ensures
        observe(run_create(fs, link, content), link.link@) == EntryView::Symlink(content),
{
    let fs1 = after_parent(fs, link);
    if link.force {
        lemma_forced_link(fs1, link, content);
    } else {
        lemma_apply_one(fs1, ActionView::CreateSymlink(content, link.link@));
    }
}

/// A link stored as an absolute path, once created, is reported active.
pub proof fn lemma_created_link_is_active(fs: Fs, link: ResolvedLink)
    requires
        link.wf(),
        !link.relative,
        create_succeeds(fs, link, link.target@),
    ensures
        reports_active(link, observe(run_create(fs, link, link.target@), link.link@)),
{
    lemma_create_places_link(fs, link, link.target@);
}

/// An absolute link content resolves to itself, wherever the link stands.
pub proof fn lemma_absolute_content_resolves_to_itself(link_path: Seq<char>, target: Seq<char>)
    requires
        is_absolute(target),
    ensures
        resolved_content(link_path, target) == target,
{
}

} // verus!
