//! Paths that are given relative to an input file.
//!
//! How a path is taken apart depends on the machine. What is said here of a path holds on every
//! machine: it is said of texts without a backslash and without a colon, in which a slash
//! separates one component from the next wherever the program runs.
use crate::text::same_text;
use vstd::prelude::*;
use vstd::string::*;

verus! {

/// Where a file named in an input file is.
pub struct ResolvedPath {
    /// The directory that `path` is relative to; nothing where `path` stands by itself.
    pub base: Option<String>,
    pub path: String,
}

/// A text in which nothing but a slash can separate components.
pub open spec fn slashes_only(s: Seq<char>) -> bool {
    forall|i: int| 0 <= i < s.len() ==> #[trigger] s[i] != '\\' && s[i] != ':'
}

/// One component of a path: a name without separators.
pub open spec fn plain(s: Seq<char>) -> bool {
    &&& s.len() > 0
    &&& slashes_only(s)
    &&& forall|i: int| 0 <= i < s.len() ==> #[trigger] s[i] != '/'
}

/// A path that no machine takes for an absolute one: it does not begin with a separator, and
/// it names no drive.
pub open spec fn is_relative(s: Seq<char>) -> bool {
    slashes_only(s) && (s.len() > 0 ==> s[0] != '/')
}

/// A directory whose components are each set off by one slash, with none at the end, and of
/// which none but the first begins with a dot.
pub open spec fn spelled_out(dir: Seq<char>) -> bool {
    &&& dir.len() > 0
    &&& slashes_only(dir)
    &&& forall|i: int|
        0 <= i < dir.len() && #[trigger] dir[i] == '/' ==> i + 1 < dir.len() && dir[i + 1] != '/'
            && dir[i + 1] != '.'
}

/// `path` is the file `name` in the directory `dir`.
pub open spec fn in_dir(path: Seq<char>, dir: Seq<char>, name: Seq<char>) -> bool {
    spelled_out(dir) && plain(name) && name != "."@ && path == dir + seq!['/'] + name
}

/// `std::path::Path::is_absolute`. A path is absolute only where it begins with the root, and
/// on some machines only with a drive before it, so a path that begins with no separator and
/// names no drive is not. Of other paths it depends on the machine, and nothing is said.
#[verifier::external_body]
fn path_is_absolute(path: &str) -> (r: bool)
    ensures
        is_relative(path@) ==> !r,
{
    std::path::Path::new(path).is_absolute()
}

/// `dir` can be the directory that a path stands in: the path without its last component.
pub open spec fn leads_to(dir: Seq<char>, path: Seq<char>) -> bool {
    dir.len() < path.len() && dir.is_prefix_of(path)
}

/// `std::path::Path::parent`, as text; nothing where the path has no parent. It is the path
/// without its final component, so a shorter beginning of it: empty for a path of one
/// component, and the directory for a file in one. Of paths that hold a backslash, a colon,
/// repeated slashes or single dots no more is said, since what their final component is depends
/// on the machine or on how the path is normalized.
#[verifier::external_body]
fn path_parent(path: &str) -> (r: Option<String>)
    ensures
        r is Some ==> leads_to(r->Some_0@, path@),
        plain(path@) ==> r is Some && r->Some_0@ == Seq::<char>::empty(),
        forall|dir: Seq<char>, name: Seq<char>| #[trigger]
            in_dir(path@, dir, name) ==> r is Some && r->Some_0@ == dir,
{
    std::path::Path::new(path).parent().and_then(|p| p.to_str()).map(|p| p.to_string())
}

/// `std::path::Path::join`, as text. A relative path is adjoined to a directory that ends in no
/// separator with the separator of the machine between the two. What becomes of other paths
/// depends on the machine, and nothing is said.
#[verifier::external_body]
fn path_join(dir: &str, path: &str) -> (r: String)
    ensures
        spelled_out(dir@) && is_relative(path@) ==> adjoined(r@, dir@, path@),
{
    std::path::Path::new(dir).join(path).to_string_lossy().into_owned()
}

/// `whole` is a directory and a path in it, with a separator between the two.
pub open spec fn adjoined(whole: Seq<char>, dir: Seq<char>, path: Seq<char>) -> bool {
    whole == dir + seq!['/'] + path || whole == dir + seq!['\\'] + path
}

/// `r` is where a file is, given whether its path is absolute and the directory of the input
/// file: by itself where it is absolute, else in that directory, or in the current one where
/// there is none.
pub open spec fn resolves(
    r: ResolvedPath,
    relative_path: Seq<char>,
    absolute: bool,
    parent: Option<Seq<char>>,
) -> bool {
    &&& r.path@ == relative_path
    &&& absolute ==> r.base is None
    &&& !absolute ==> r.base is Some && r.base->Some_0@ == match parent {
        Some(dir) => dir,
        None => "."@,
    }
}

/// Where a file named in an input file is, given whether its path is absolute and the
/// directory of the input file.
pub fn resolve_against(
    relative_path: &str,
    absolute: bool,
    parent: Option<String>,
) -> (r: ResolvedPath)
    ensures
        resolves(r, relative_path@, absolute, crate::model::text_of(parent)),
{
    if absolute {
        return ResolvedPath { base: None, path: relative_path.to_owned() };
    }
    let base = match parent {
        Some(dir) => dir,
        None => ".".to_owned(),
    };
    ResolvedPath { base: Some(base), path: relative_path.to_owned() }
}

/// What holds on every machine of where a file named in an input file is: a relative one is in
/// the directory of the input file, which is the current one where that file has no directory.
pub open spec fn located(
    r: ResolvedPath,
    input_file: Seq<char>,
    relative_path: Seq<char>,
) -> bool {
    &&& exists|absolute: bool, parent: Option<Seq<char>>| #[trigger]
        resolves(r, relative_path, absolute, parent) && (parent is Some ==> leads_to(
            parent->Some_0,
            input_file,
        ))
    &&& is_relative(relative_path) ==> {
        &&& r.base is Some
        &&& input_file.len() == 0 ==> r.base->Some_0@ == "."@
        &&& plain(input_file) ==> r.base->Some_0@ == Seq::<char>::empty()
        &&& forall|dir: Seq<char>, name: Seq<char>| #[trigger]
            in_dir(input_file, dir, name) ==> r.base->Some_0@ == dir
    }
}

/// Where a file named in an input file is: by itself where its path is absolute, else in the
/// directory of the input file.
pub fn locate_file(input_file: &str, relative_path: &str) -> (r: ResolvedPath)
    ensures
        located(r, input_file@, relative_path@),
{
    let absolute = path_is_absolute(relative_path);
    let parent = path_parent(input_file);
    let ghost dir = crate::model::text_of(parent);
    let r = resolve_against(relative_path, absolute, parent);
    assert(resolves(r, relative_path@, absolute, dir));
    r
}

impl ResolvedPath {
    /// The whole path: the file itself where it stands by itself or in the directory without a
    /// name, else the directory with the file in it.
    pub fn joined(&self) -> (r: String)
        ensures
            self.base is None ==> r@ == self.path@,
            self.base is Some && self.base->Some_0@.len() == 0 ==> r@ == self.path@,
            self.base is Some && spelled_out(self.base->Some_0@) && is_relative(self.path@)
                ==> adjoined(r@, self.base->Some_0@, self.path@),
    {
        match &self.base {
            None => self.path.clone(),
            Some(dir) => {
                proof {
                    reveal_strlit("");
                    if dir@.len() == 0 {
                        assert(dir@ =~= ""@);
                    }
                }
                if same_text(dir.as_str(), "") {
                    self.path.clone()
                } else {
                    path_join(dir.as_str(), self.path.as_str())
                }
            },
        }
    }
}

/// The path of a file named in an input file: the file itself where its path is absolute, else
/// that file in the directory of the input file.
pub fn resolve_path(input_file: &str, relative_path: &str) -> (r: String)
    ensures
        is_relative(relative_path@) && input_file@.len() == 0 ==> adjoined(
            r@,
            "."@,
            relative_path@,
        ),
        is_relative(relative_path@) && plain(input_file@) ==> r@ == relative_path@,
        forall|dir: Seq<char>, name: Seq<char>| #[trigger]
            in_dir(input_file@, dir, name) && is_relative(relative_path@) ==> adjoined(
                r@,
                dir,
                relative_path@,
            ),
        exists|place: ResolvedPath| #[trigger]
            located(place, input_file@, relative_path@) && (place.base is None ==> r@
                == relative_path@),
{
    let place = locate_file(input_file, relative_path);
    proof {
        reveal_strlit(".");
        assert(spelled_out("."@));
    }
    place.joined()
}

} // verus!
