//! Paths named in a manifest, resolved against the manifest's directory.
use vstd::prelude::*;
use crate::text::{chars_of, concat};

verus! {

/// `path` resolved against the directory `base`: an absolute path (one that starts with `/`)
/// stands as it is; a relative one is appended to `base`, with a `/` between them unless
/// `base` is empty or already ends with one (as `Path::join` does on Unix).
pub open spec fn resolved_path(base: Seq<char>, path: Seq<char>) -> Seq<char> {
    if path.len() > 0 && path[0] == '/' {
        path
    } else if base.len() == 0 || base.last() == '/' {
        base + path
    } else {
        base + seq!['/'] + path
    }
}

/// `path` resolved against the directory `base`.
pub fn resolve(base: &str, path: &str) -> (res: String)
    ensures
        res@ == resolved_path(base@, path@),
{
    let p = chars_of(path);
    if p.len() > 0 && p[0] == '/' {
        return String::from_str(path);
    }
    let b = chars_of(base);
    if b.len() == 0 || b[b.len() - 1] == '/' {
        concat(base, path)
    } else {
        proof {
            reveal_strlit("/");
        }
        let with_sep = concat(base, "/");
        concat(with_sep.as_str(), path)
    }
}

} // verus!
