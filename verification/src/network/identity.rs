//! Where this node's persistent peer identity is kept.

use vstd::prelude::*;

verus! {

/// A path separator: `/`, or `\` on Windows.
pub open spec fn is_path_sep(c: char) -> bool {
    c == '/' || c == '\\'
}

/// A base that `Path::join` extends plainly: it is neither a bare drive such
/// as `C:` (which takes no separator) nor a verbatim `\\?\` path (under
/// which `.` and `..` are normalised away).
pub open spec fn plain_base(base: Seq<char>) -> bool {
    &&& !(base.len() == 2 && base[1] == ':')
    &&& !(base.len() >= 3 && base[0] == '\\' && base[1] == '\\' && base[2] == '?')
}

/// A name that `Path::join` appends as one component: not empty, not `.` or
/// `..`, and without separators or a drive colon.
pub open spec fn plain_name(name: Seq<char>) -> bool {
    &&& name.len() > 0
    &&& !name.contains('/')
    &&& !name.contains('\\')
    &&& !name.contains(':')
    &&& !(name.len() == 1 && name[0] == '.')
    &&& !(name.len() == 2 && name[0] == '.' && name[1] == '.')
}

/// `r` is `base` joined with `name`: the name alone under an empty base; no
/// separator after a base ending in `/`; after a base ending in `\` either
/// none (Windows) or `/` (elsewhere); otherwise one separator, `/` or `\`
/// as the platform has it.
pub open spec fn joined(base: Seq<char>, name: Seq<char>, r: Seq<char>) -> bool {
    if base.len() == 0 {
        r == name
    } else if base.last() == '/' {
        r == base + name
    } else if base.last() == '\\' {
        r == base + name || r == base + seq!['/'] + name
    } else {
        r == base + seq!['/'] + name || r == base + seq!['\\'] + name
    }
}

/// `std::path::Path::join` with a one-component relative name (then
/// `to_string_lossy`, which changes nothing on text that came from a
/// `&str`). On a plain base the result is the base, the platform's separator
/// where one is needed, and the name. On a bare drive or a verbatim base
/// nothing is stated.
#[verifier::external_body]
fn join_path(base: &str, name: &str) -> (r: String)
    requires
        plain_name(name@),
    ensures
        plain_base(base@) ==> joined(base@, name@, r@),
{
    std::path::Path::new(base).join(name).to_string_lossy().into_owned()
}

/// The key file under `{data_dir}/p2p/`: on a plain data directory, the
/// directory joined with `p2p`, joined with `identity.key`.
pub fn identity_path(data_dir: &str) -> (r: String)
    ensures
        plain_base(data_dir@) ==> exists|dir: Seq<char>|
            #[trigger] joined(data_dir@, "p2p"@, dir) && joined(dir, "identity.key"@, r@),
{
    proof {
        reveal_strlit("p2p");
        reveal_strlit("identity.key");
        assert(!"p2p"@.contains('/'));
        assert(!"p2p"@.contains('\\'));
        assert(!"p2p"@.contains(':'));
        assert(!"identity.key"@.contains('/'));
        assert(!"identity.key"@.contains('\\'));
        assert(!"identity.key"@.contains(':'));
    }
    let dir = join_path(data_dir, "p2p");
    proof {
        if plain_base(data_dir@) {
            let d = data_dir@;
            if d.len() == 0 {
                assert(dir@ == "p2p"@);
            } else {
                assert(dir@.len() >= d.len() + 3);
                assert(dir@[0] == d[0]);
                if d.len() >= 3 {
                    assert(dir@[1] == d[1]);
                    assert(dir@[2] == d[2]);
                } else if d.len() == 2 {
                    assert(dir@[1] == d[1]);
                }
            }
            assert(plain_base(dir@));
        }
    }
    let path = join_path(dir.as_str(), "identity.key");
    path
}

} // verus!
