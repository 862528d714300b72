//! Paths as byte strings and as texts.
use crate::text::{chars_of, join2, join3};
use vstd::prelude::*;

verus! {

/// A name below a directory: a slash goes between them, unless the directory
/// is empty or ends with one. A name that starts with a slash stands alone.
pub open spec fn below<T>(directory: Seq<T>, name: Seq<T>, slash: T) -> Seq<T> {
    if name.len() > 0 && name[0] == slash {
        name
    } else if directory.len() == 0 || directory.last() == slash {
        directory + name
    } else {
        directory + seq![slash] + name
    }
}

/// The byte that separates the parts of a path.
pub const SLASH: u8 = 47;

/// A name below a directory.
pub fn join_bytes(directory: &Vec<u8>, name: &Vec<u8>) -> (path: Vec<u8>)
    ensures
        path@ == below(directory@, name@, SLASH),
{
    let mut path: Vec<u8> = Vec::new();
    if name.len() == 0 || name[0] != SLASH {
        path.extend_from_slice(directory.as_slice());
        if directory.len() > 0 && directory[directory.len() - 1] != SLASH {
            path.push(SLASH);
        }
    }
    path.extend_from_slice(name.as_slice());
    assert(path@ =~= below(directory@, name@, SLASH));
    path
}

/// A name below a directory.
pub fn join_path(directory: &str, name: &str) -> (path: String)
    ensures
        path@ == below(directory@, name@, '/'),
{
    let chars: Vec<char> = chars_of(directory);
    let name_chars: Vec<char> = chars_of(name);
    let path: String = if name_chars.len() > 0 && name_chars[0] == '/' {
        name.to_owned()
    } else if chars.len() == 0 || chars[chars.len() - 1] == '/' {
        join2(directory, name)
    } else {
        join3(directory, "/", name)
    };
    proof {
        reveal_strlit("/");
        assert("/"@ =~= seq!['/']);
        assert(path@ =~= below(directory@, name@, '/'));
    }
    path
}

} // verus!
