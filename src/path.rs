use path_absolutize::Absolutize;
use crate::error::{is_plain, Error};
use vstd::prelude::*;
use vstd::string::*;

verus! {

/// The lexically normalized form of an absolute path, as path_absolutize
/// computes it: no `.` or `..` segments and no repeated separators.
pub uninterp spec fn normal_of(path: Seq<char>) -> Seq<char>;

/// The relative path from `base` to `path`, as pathdiff computes it.
pub uninterp spec fn diff_of(path: Seq<char>, base: Seq<char>) -> Option<Seq<char>>;

pub open spec fn is_absolute(path: Seq<char>) -> bool {
    path.len() > 0 && path[0] == '/'
}

/// `Path::join` on Unix: an absolute `part` replaces `base`; otherwise a
/// separator is put between the two unless `base` is empty or ends with one.
pub open spec fn joined(base: Seq<char>, part: Seq<char>) -> Seq<char> {
    if is_absolute(part) || base.len() == 0 {
        part
    } else if base[base.len() - 1] == '/' {
        base + part
    } else {
        base + seq!['/'] + part
    }
}

/// The parent of a path written without a trailing separator: everything
/// before the last separator, or the root when that is the only one.
pub open spec fn parent_of(path: Seq<char>) -> Option<Seq<char>> {
    if path.len() <= 1 {
        None
    } else {
        let k = last_separator(path);
        if k < 0 {
            Some(Seq::empty())
        } else if k == 0 {
            Some(seq!['/'])
        } else {
            Some(path.subrange(0, k))
        }
    }
}

/// Index of the last `/` of `path`, or -1 if it holds none.
pub open spec fn last_separator(path: Seq<char>) -> int
    decreases path.len(),
{
    if path.len() == 0 {
        -1
    } else if path[path.len() - 1] == '/' {
        path.len() - 1
    } else {
        last_separator(path.drop_last())
    }
}

/// `path` is `root` or lies below it, compared segment by segment.
pub open spec fn is_under(path: Seq<char>, root: Seq<char>) -> bool {
    path == root || (root == seq!['/'] && is_absolute(path)) || (root.len() < path.len()
        && path.subrange(0, root.len() as int) == root && path[root.len() as int] == '/')
}

/// `path` starts with a `~` that stands for the current user's home: `~`
/// alone, or `~/` followed by the rest.
pub open spec fn needs_home(path: Seq<char>) -> bool {
    path.len() > 0 && path[0] == '~' && (path.len() == 1 || path[1] == '/')
}

/// Relies on shellexpand::tilde: a path that does not start with `~` or
/// `~/` (so also `~user/...`) comes back unchanged; otherwise the `~` is
/// replaced by the home directory, which depends on the environment, and
/// the path comes back unchanged when that directory is unknown.
#[verifier::external_body]
fn expand_home(path: &str) -> (r: String)
    ensures
        !needs_home(path@) ==> r@ == path@,
{
    shellexpand::tilde(path).into_owned()
}

/// Relies on path_absolutize::Absolutize::absolutize: an absolute path is
/// normalized lexically and stays absolute; a relative one is first joined
/// to the current directory. The error, if any, is handed back as its text.
#[verifier::external_body]
pub(crate) fn normalize(path: &str) -> (r: Result<String, String>)
    ensures
        r is Ok && is_absolute(path@) ==> r->Ok_0@ == normal_of(path@),
        r is Ok && is_absolute(path@) ==> is_absolute(r->Ok_0@),
{
    match std::path::Path::new(path).absolutize() {
        Ok(p) => Ok(p.to_string_lossy().into_owned()),
        Err(e) => Err(e.to_string()),
    }
}

/// Relies on pathdiff::diff_paths: the relative path from `base` to `path`.
#[verifier::external_body]
pub(crate) fn relative_path(path: &str, base: &str) -> (r: Option<String>)
    ensures
        r is Some == diff_of(path@, base@) is Some,
        r is Some ==> r->Some_0@ == diff_of(path@, base@)->Some_0,
{
    pathdiff::diff_paths(path, base).map(|p| p.to_string_lossy().into_owned())
}

/// Judges the result of home expansion: a path that needed its `~`
/// replaced and came back unchanged means the home directory is unknown.
pub fn home_expanded(path: &str, expanded: String) -> (r: Result<String, Error>)
    ensures
        r is Err == (needs_home(path@) && expanded@ == path@),
        r is Ok ==> r->Ok_0@ == expanded@,
        r is Err ==> is_plain(r->Err_0, "The home directory cannot be determined."@),
{
    let n = path.unicode_len();
    let needs = n > 0 && path.get_char(0) == '~' && (n == 1 || path.get_char(1) == '/');
    if needs && expanded.eq(&path.to_string()) {
        Err(Error::new("The home directory cannot be determined."))
    } else {
        Ok(expanded)
    }
}

/// Expands a leading `~` to the home directory, then makes the path
/// absolute and lexically normal. A path that is already absolute only
/// gets normalized. Fails when the home directory is needed and unknown,
/// or when the path cannot be made absolute.
pub fn absolutize(path: &str) -> (r: Result<String, Error>)
    ensures
        r is Ok && is_absolute(path@) ==> r->Ok_0@ == normal_of(path@),
        r is Err ==> r->Err_0.message@ == "The home directory cannot be determined."@
            || r->Err_0.message@ == "Invalid path."@,
{
    let expanded = expand_home(path);
    let checked = match home_expanded(path, expanded) {
        Ok(p) => p,
        Err(e) => {
            return Err(e);
        },
    };
    match normalize(checked.as_str()) {
        Ok(p) => Ok(p),
        Err(e) => Err(Error::new("Invalid path.").with_inner_error(e.as_str())),
    }
}

pub fn is_absolute_path(path: &str) -> (r: bool)
    ensures
        r == is_absolute(path@),
{
    path.unicode_len() > 0 && path.get_char(0) == '/'
}

pub fn join_path(base: &str, part: &str) -> (r: String)
    ensures
        r@ == joined(base@, part@),
{
    let n = base.unicode_len();
    if is_absolute_path(part) || n == 0 {
        part.to_string()
    } else if base.get_char(n - 1) == '/' {
        let mut s = base.to_string();
        s.append(part);
        s
    } else {
        let mut s = base.to_string();
        s.append("/");
        s.append(part);
        proof {
            reveal_strlit("/");
            assert("/"@ =~= seq!['/']);
        }
        s
    }
}

pub fn parent_path(path: &str) -> (r: Option<String>)
    ensures
        r is Some == parent_of(path@) is Some,
        r is Some ==> r->Some_0@ == parent_of(path@)->Some_0,
{
    let n = path.unicode_len();
    if n <= 1 {
        return None;
    }
    let mut k: usize = n;
    assert(path@.subrange(0, n as int) =~= path@);
    while k > 0 && path.get_char(k - 1) != '/'
        invariant
            k <= n,
            n == path@.len(),
            last_separator(path@) == last_separator(path@.subrange(0, k as int)),
        decreases k,
    {
        assert(path@.subrange(0, k - 1) =~= path@.subrange(0, k as int).drop_last());
        k = k - 1;
    }
    if k == 0 {
        return Some(String::new());
    }
    if k == 1 {
        proof {
            reveal_strlit("/");
            assert("/"@ =~= seq!['/']);
        }
        Some("/".to_string())
    } else {
        Some(path.substring_char(0, k - 1).to_string())
    }
}

} // verus!

verus! {

/// What the filesystem holds at a path, seen without following a final
/// symbolic link.
#[derive(Debug, PartialEq, Eq)]
pub enum EntryKind {
    /// Nothing at all.
    Missing,
    /// A regular file.
    File,
    /// A directory, or any other entry that is neither a file nor a link.
    Directory,
    /// A symbolic link, whether or not what it points to exists; `content`
    /// is the path stored in it.
    Symlink { content: String },
}

/// An `EntryKind` over plain sequences.
pub enum EntryView {
    Missing,
    File,
    Directory,
    Symlink(Seq<char>),
}

impl View for EntryKind {
    type V = EntryView;

    open spec fn view(&self) -> EntryView {
        match self {
            EntryKind::Missing => EntryView::Missing,
            EntryKind::File => EntryView::File,
            EntryKind::Directory => EntryView::Directory,
            EntryKind::Symlink { content } => EntryView::Symlink(content@),
        }
    }
}

/// Existence and link queries on what stands at a path.
pub trait PathExtension {
    /// The entry is a symbolic link, judged by its own metadata.
    fn is_symbolic(&self) -> bool;

    /// Something is there: a dangling link counts.
    fn actually_exists(&self) -> bool;
}

impl PathExtension for EntryKind {
    fn is_symbolic(&self) -> (r: bool)
        ensures
            r == self is Symlink,
    {
        match self {
            EntryKind::Symlink { .. } => true,
            _ => false,
        }
    }

    fn actually_exists(&self) -> (r: bool)
        ensures
            r == !(self is Missing),
    {
        match self {
            EntryKind::Missing => false,
            _ => true,
        }
    }
}

} // verus!

verus! {

pub fn is_under_path(path: &str, root: &str) -> (r: bool)
    ensures
        r == is_under(path@, root@),
{
    let n = path.unicode_len();
    let m = root.unicode_len();
    if m == 1 && root.get_char(0) == '/' && is_absolute_path(path) {
        assert(root@ =~= seq!['/']);
        return true;
    }
    if m > n {
        return false;
    }
    let mut i: usize = 0;
    while i < m
        invariant
            m <= n,
            n == path@.len(),
            m == root@.len(),
            i <= m,
            path@.subrange(0, i as int) == root@.subrange(0, i as int),
        decreases m - i,
    {
        if path.get_char(i) != root.get_char(i) {
            assert(path@.subrange(0, m as int)[i as int] != root@[i as int]);
            assert(path@ != root@);
            return false;
        }
        assert(path@.subrange(0, i + 1) =~= path@.subrange(0, i as int).push(path@[i as int]));
        assert(root@.subrange(0, i + 1) =~= root@.subrange(0, i as int).push(root@[i as int]));
        i = i + 1;
    }
    assert(root@.subrange(0, m as int) =~= root@);
    if m == n {
        assert(path@ =~= root@);
        true
    } else {
        path.get_char(m) == '/'
    }
}

/// A path that starts with the root has a parent that does too.
pub proof fn lemma_parent_is_absolute(path: Seq<char>)
    requires
        is_absolute(path),
        path.len() > 1,
    ensures
        parent_of(path) is Some,
        is_absolute(parent_of(path)->Some_0),
        parent_of(path)->Some_0.len() < path.len(),
{
    lemma_last_separator_bounds(path);
}

pub proof fn lemma_last_separator_bounds(path: Seq<char>)
    requires
        is_absolute(path),
    ensures
        0 <= last_separator(path) < path.len(),
    decreases path.len(),
{
    if path[path.len() - 1] != '/' {
        let d = path.drop_last();
        assert(d[0] == path[0]);
        lemma_last_separator_bounds(d);
    }
}

} // verus!
