//! Host paths as text. A path is joined with `/`, which every supported host accepts; a
//! name that is itself absolute replaces the directory, as `Path::join` does.
use crate::text::{append, owned};
use vstd::prelude::*;

verus! {

/// `dir` joined with `name` (`Path::join`).
pub open spec fn join_spec(dir: Seq<char>, name: Seq<char>) -> Seq<char> {
    if name.len() > 0 && name[0] == '/' {
        name
    } else if dir.len() == 0 {
        name
    } else if dir.last() == '/' {
        dir + name
    } else {
        dir + "/"@ + name
    }
}

/// Joins a name onto a directory.
pub fn join_path(dir: &str, name: &str) -> (r: String)
    ensures
        r@ == join_spec(dir@, name@),
{
    let name_absolute = name.unicode_len() > 0 && name.get_char(0) == '/';
    if name_absolute || dir.unicode_len() == 0 {
        return owned(name);
    }
    let mut r = owned(dir);
    if dir.get_char(dir.unicode_len() - 1) != '/' {
        append(&mut r, "/");
    }
    append(&mut r, name);
    r
}

} // verus!
