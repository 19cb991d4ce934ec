use vstd::prelude::*;
use vstd::string::*;

verus! {

/// The characters of an optional string.
pub open spec fn text_view(text: Option<String>) -> Option<Seq<char>> {
    match text {
        Some(inner) => Some(inner@),
        None => None,
    }
}

/// The decimal notation of an integer.
pub open spec fn decimal(n: int) -> Seq<char>
    decreases (if n < 0 { 1 - n } else { n }),
{
    if n < 0 {
        seq!['-'] + decimal(-n)
    } else if n < 10 {
        seq![(48 + n) as char]
    } else {
        decimal(n / 10) + seq![(48 + n % 10) as char]
    }
}

/// `==` on string slices: std documents that two are equal where their characters are.
pub assume_specification[ <str as PartialEq<str>>::eq ](left: &str, right: &str) -> (equal: bool)
    ensures
        equal == (left@ == right@),
;

/// What `std::path::Path::parent` finds for a path: the path without its last component,
/// or nothing where the path ends in a root or is empty. Path syntax is that of the
/// platform for which the crate is built.
pub uninterp spec fn path_parent(path: Seq<char>) -> Option<Seq<char>>;

/// Whether a text can be the last component of a path on every platform: it is not empty,
/// has no separator and is not the dot that stands for its own directory.
pub open spec fn plain_name(name: Seq<char>) -> bool {
    &&& name.len() > 0
    &&& !name.contains('/')
    &&& !name.contains('\\')
    &&& name != seq!['.']
}

/// Whether a text is a relative path to a directory on every platform: it neither starts
/// nor ends with a slash, has no backslash and no drive letter, and does not end in the dot
/// that stands for its own directory.
pub open spec fn plain_directory(directory: Seq<char>) -> bool {
    &&& directory.len() > 0
    &&& directory[0] != '/'
    &&& directory.last() != '/'
    &&& !directory.contains('\\')
    &&& directory.len() > 1 ==> directory[1] != ':'
    &&& directory.last() == '.' ==> directory.len() > 1 && directory[directory.len() - 2] != '/'
}

/// Whether a path leads to a name in a directory, with or without a slash at its end.
pub open spec fn lies_in(path: Seq<char>, directory: Seq<char>, name: Seq<char>) -> bool {
    path == directory + seq!['/'] + name || path == directory + seq!['/'] + name + seq!['/']
}

/// The directory that holds `path`, given its parent: paths without one lie in the root.
pub open spec fn directory_or_root(parent: Option<Seq<char>>) -> Seq<char> {
    match parent {
        Some(directory) => directory,
        None => "/"@,
    }
}

/// The directory that holds `path`.
pub open spec fn directory(path: Seq<char>) -> Seq<char> {
    directory_or_root(path_parent(path))
}

/// A directory as the `parent` column shows it: every directory but the root itself gets
/// a leading slash.
pub open spec fn rooted(directory: Seq<char>) -> Seq<char> {
    if directory == "/"@ {
        directory
    } else {
        "/"@ + directory
    }
}

/// Calls `std::path::Path::parent` on a path that is given as text, and claims that its
/// answer depends on that text alone, and that neither the empty path nor the root has a
/// parent. Of a name in a directory the answer is the directory, and of a name alone the
/// empty path: the path without its last component, a slash at the end ignored. What the
/// answer is on other paths, such as those with a drive letter, is left unsaid. A parent of
/// a path that is valid text is valid text too, so no answer is lost on the way back to a
/// string.
#[verifier::external_body]
fn parent_of(path: &str) -> (parent: Option<String>)
    ensures
        text_view(parent) == path_parent(path@),
        path@.len() == 0 || path@ == "/"@ ==> parent is None,
        forall|directory: Seq<char>, name: Seq<char>| #[trigger]
            lies_in(path@, directory, name) && plain_directory(directory) && plain_name(name)
                ==> parent is Some && parent->0@ == directory,
        forall|name: Seq<char>| #[trigger]
            plain_name(name) && (name.len() > 1 ==> name[1] != ':') && (path@ == name || path@
                == name.push('/')) ==> parent is Some && parent->0@.len() == 0,
{
    let parent = std::path::Path::new(path).parent();
    parent.and_then(|parent| parent.to_str()).map(|parent| parent.to_string())
}

/// Falls back to the root where a path has no parent.
pub fn parent_or_root(parent: Option<String>) -> (directory: String)
    ensures
        directory@ == directory_or_root(text_view(parent)),
        parent is Some ==> directory@ == parent->0@,
        parent is None ==> directory@ == "/"@,
{
    match parent {
        Some(directory) => directory,
        None => "/".to_string(),
    }
}

/// The directory that holds `path`.
pub fn directory_of(path: &str) -> (found: String)
    ensures
        found@ == directory(path@),
        path@.len() == 0 || path@ == "/"@ ==> found@ == "/"@,
        forall|holder: Seq<char>, name: Seq<char>| #[trigger]
            lies_in(path@, holder, name) && plain_directory(holder) && plain_name(name) ==> found@
                == holder,
        forall|name: Seq<char>| #[trigger]
            plain_name(name) && (name.len() > 1 ==> name[1] != ':') && (path@ == name || path@
                == name.push('/')) ==> found@.len() == 0,
{
    parent_or_root(parent_of(path))
}

/// Puts the leading slash of the `parent` column in front of a directory.
pub fn root_directory(directory: String) -> (shown: String)
    ensures
        shown@ == rooted(directory@),
        directory@ == "/"@ ==> shown@ == "/"@,
        directory@ != "/"@ ==> shown@ == seq!['/'] + directory@,
{
    proof {
        reveal_strlit("/");
        assert("/"@ =~= seq!['/']);
    }
    if directory.as_str().eq("/") {
        directory
    } else {
        let mut shown = "/".to_string();
        shown.append(directory.as_str());
        shown
    }
}

} // verus!
