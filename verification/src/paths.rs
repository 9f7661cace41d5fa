//! Rules for the files of an application: which paths may be reached, and
//! which entries of a template are copied.

use crate::text::chars_of;
use crate::text::contains_text;
use crate::text::find_text;
use crate::text::matches_at;
use crate::text::occurs_at;
use crate::text::same_text;
use crate::text::string_of;
use vstd::prelude::*;

verus! {

/// Why a path inside an application is refused.
#[derive(Clone, Copy, Debug, PartialEq, Eq, Structural)]
pub enum PathError {
    /// The path would leave the directory of the application.
    Traversal,
    /// The application has no directory.
    AppNotFound,
    /// The requested path exists, or is the directory of the application
    /// itself, and its real location could not be determined.
    UnresolvedPath,
    /// The real location of the directory of the application could not be
    /// determined.
    UnresolvedApp,
    /// The directory that would hold the requested path exists, and its real
    /// location could not be determined.
    UnresolvedParent,
    /// The path does not exist and neither does its parent directory.
    ParentMissing,
}

impl PathError {
    /// What is said to the user about a refused path of the application
    /// `app_id`. Where a location could not be determined, `cause` says why.
    pub open spec fn message_text(self, app_id: Seq<char>, cause: Seq<char>) -> Seq<char> {
        match self {
            PathError::Traversal => "Path traversal not allowed"@,
            PathError::AppNotFound => "Application '"@ + app_id + "' not found"@,
            PathError::UnresolvedPath => "Cannot resolve path: "@ + cause,
            PathError::UnresolvedApp => "Cannot resolve app path: "@ + cause,
            PathError::UnresolvedParent => "Cannot resolve parent: "@ + cause,
            PathError::ParentMissing => "Parent directory does not exist"@,
        }
    }

    /// Says to the user why a path of the application `app_id` is refused.
    /// Where a location could not be determined, `cause` is what the file
    /// system gave as the reason.
    pub fn message(&self, app_id: &str, cause: &str) -> (text: String)
        ensures
            text@ == self.message_text(app_id@, cause@),
    {
        match self {
            PathError::Traversal => "Path traversal not allowed".to_owned(),
            PathError::AppNotFound => {
                let mut text = "Application '".to_owned();
                text.append(app_id);
                text.append("' not found");
                text
            },
            PathError::UnresolvedPath => {
                let mut text = "Cannot resolve path: ".to_owned();
                text.append(cause);
                text
            },
            PathError::UnresolvedApp => {
                let mut text = "Cannot resolve app path: ".to_owned();
                text.append(cause);
                text
            },
            PathError::UnresolvedParent => {
                let mut text = "Cannot resolve parent: ".to_owned();
                text.append(cause);
                text
            },
            PathError::ParentMissing => "Parent directory does not exist".to_owned(),
        }
    }
}

/// What resolving a path on disk has found.
#[derive(Clone, Copy, Debug, PartialEq, Eq, Structural)]
pub enum Located {
    /// Nothing exists at the path.
    Missing,
    /// Something exists, but its real location could not be determined.
    Unresolved,
    /// It really lies inside the directory of the application.
    Inside,
    /// It really lies elsewhere.
    Outside,
}

/// What the file system says about a requested path.
#[derive(Clone, Copy, Debug, PartialEq, Eq, Structural)]
pub struct PathFacts {
    /// The application has a directory.
    pub app_is_dir: bool,
    /// The real location of that directory could be determined.
    pub app_resolves: bool,
    /// The requested path itself.
    pub target: Located,
    /// The directory that holds the requested path.
    pub parent: Located,
}

/// Which path answers a request.
#[derive(Clone, Copy, Debug, PartialEq, Eq, Structural)]
pub enum Resolution {
    /// The real location of the directory of the application.
    AppDirectory,
    /// The real location of the requested path, which exists.
    Existing,
    /// The requested path as it was joined; it does not exist yet.
    New,
}

/// The path names a parent directory somewhere: it holds `..`.
pub open spec fn mentions_parent(path: Seq<char>) -> bool {
    contains_text(path, ".."@)
}

/// The path without one leading `/`.
pub open spec fn relative_part(path: Seq<char>) -> Seq<char> {
    if path.len() > 0 && path[0] == '/' {
        path.skip(1)
    } else {
        path
    }
}

/// Screens a requested path before the file system is touched: a path that
/// holds `..` is refused, any other is made relative to the application.
pub fn screen_path(rel_path: &str) -> (screened: Result<String, PathError>)
    ensures
        match screened {
            Ok(clean) => !mentions_parent(rel_path@) && clean@ == relative_part(rel_path@),
            Err(e) => mentions_parent(rel_path@) && e == PathError::Traversal,
        },
{
    let chars = chars_of(rel_path);
    let dots = chars_of("..");
    if find_text(&chars, &dots).is_some() {
        return Err(PathError::Traversal);
    }
    let from: usize = if chars.len() > 0 && chars[0] == '/' {
        1
    } else {
        0
    };
    Ok(string_of(&chars, from, chars.len()))
}

/// The answer to a request for the relative path `clean`, given what the file
/// system says.
///
/// An empty path means the directory of the application. A path that exists
/// must really lie inside that directory. One that does not exist may be
/// created if its parent exists and really lies inside.
pub open spec fn resolution(clean_is_empty: bool, facts: PathFacts) -> Result<
    Resolution,
    PathError,
> {
    if !facts.app_is_dir {
        Err(PathError::AppNotFound)
    } else if clean_is_empty {
        if facts.app_resolves {
            Ok(Resolution::AppDirectory)
        } else {
            Err(PathError::UnresolvedPath)
        }
    } else if !facts.app_resolves {
        Err(PathError::UnresolvedApp)
    } else {
        match facts.target {
            Located::Inside => Ok(Resolution::Existing),
            Located::Outside => Err(PathError::Traversal),
            Located::Unresolved => Err(PathError::UnresolvedPath),
            Located::Missing => match facts.parent {
                Located::Inside => Ok(Resolution::New),
                Located::Outside => Err(PathError::Traversal),
                Located::Unresolved => Err(PathError::UnresolvedParent),
                Located::Missing => Err(PathError::ParentMissing),
            },
        }
    }
}

/// Decides which path answers a request, or why it is refused.
pub fn resolve(clean_is_empty: bool, facts: PathFacts) -> (answer: Result<Resolution, PathError>)
    ensures
        answer == resolution(clean_is_empty, facts),
{
    if !facts.app_is_dir {
        return Err(PathError::AppNotFound);
    }
    if clean_is_empty {
        return if facts.app_resolves {
            Ok(Resolution::AppDirectory)
        } else {
            Err(PathError::UnresolvedPath)
        };
    }
    if !facts.app_resolves {
        return Err(PathError::UnresolvedApp);
    }
    match facts.target {
        Located::Inside => Ok(Resolution::Existing),
        Located::Outside => Err(PathError::Traversal),
        Located::Unresolved => Err(PathError::UnresolvedPath),
        Located::Missing => match facts.parent {
            Located::Inside => Ok(Resolution::New),
            Located::Outside => Err(PathError::Traversal),
            Located::Unresolved => Err(PathError::UnresolvedParent),
            Located::Missing => Err(PathError::ParentMissing),
        },
    }
}

/// Nothing that really lies outside the directory of the application is ever
/// handed out.
pub proof fn lemma_never_outside(clean_is_empty: bool, facts: PathFacts)
    ensures
        resolution(clean_is_empty, facts) == Ok::<Resolution, PathError>(Resolution::Existing)
            ==> facts.target == Located::Inside,
        resolution(clean_is_empty, facts) == Ok::<Resolution, PathError>(Resolution::New)
            ==> facts.target == Located::Missing && facts.parent == Located::Inside,
        resolution(clean_is_empty, facts) is Ok ==> facts.app_is_dir && facts.app_resolves,
{
}

/// The directories of a template that are not copied.
pub open spec fn is_skipped_dir(name: Seq<char>) -> bool {
    ||| name == "source"@
    ||| name == "node_modules"@
    ||| name == ".git"@
    ||| name == "target"@
    ||| name == "test"@
}

/// The files of a template that are not copied.
pub open spec fn is_skipped_file(name: Seq<char>) -> bool {
    ||| name == "Cargo.toml"@
    ||| name == "build.rs"@
    ||| name == ".gitignore"@
}

/// Whether an entry of a template is left out of the copy: build artefacts
/// and sources are skipped, directories and files by their own lists.
pub fn skips_entry(name: &str, is_dir: bool) -> (skip: bool)
    ensures
        skip == (if is_dir {
            is_skipped_dir(name@)
        } else {
            is_skipped_file(name@)
        }),
{
    if is_dir {
        same_text(name, "source") || same_text(name, "node_modules") || same_text(name, ".git")
            || same_text(name, "target") || same_text(name, "test")
    } else {
        same_text(name, "Cargo.toml") || same_text(name, "build.rs") || same_text(
            name,
            ".gitignore",
        )
    }
}

/// A file counts as a resource when its name has the extension `rs`: it ends
/// with `.rs` and something stands before that.
pub open spec fn is_resource_name(name: Seq<char>) -> bool {
    name.len() > 3 && occurs_at(name, name.len() - 3, ".rs"@)
}

/// Whether a file of the `resources` directory counts as a resource.
pub fn is_resource_file(name: &str) -> (yes: bool)
    ensures
        yes == is_resource_name(name@),
{
    let chars = chars_of(name);
    let ext = chars_of(".rs");
    chars.len() > 3 && matches_at(&chars, chars.len() - 3, &ext)
}

} // verus!
