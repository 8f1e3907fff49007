//! Where the files of users and of the library are.

use vstd::prelude::*;

use crate::paths::cache_file;
use crate::paths::candidates;
use crate::paths::path_join;
use crate::text::contains;

verus! {

/// A name is put behind a directory with one slash between them.
pub proof fn law_path_join(base: Seq<char>, name: Seq<char>)
    requires
        base.len() > 0,
    ensures
        base.last() != '/' ==> path_join(base, name) == base + "/"@ + name,
        base.last() == '/' ==> path_join(base, name) == base + name,
{
}

/// The files of a user on a disk may be in the directory of the user on it, in the one below `users`, and
/// in the one below `home`; a name that is no name of a directory has none.
pub proof fn law_user_directories(mount: Seq<char>, user: Seq<char>, home: Option<Seq<char>>, is_dir: bool)
    requires
        mount.len() > 0 && mount.last() != '/',
    ensures
        user.len() == 0 || user.contains('/') ==> candidates(mount, user, home, is_dir).len() == 0,
        user.len() > 0 && !user.contains('/') && !user.contains('\0') ==> {
            let list = candidates(mount, user, home, is_dir);
            let n = list.len() as int;
            &&& n == 3 || n == 4
            &&& list[n - 3] == mount + "/"@ + user
            &&& list[n - 2] == mount + "/users/"@ + user
            &&& list[n - 1] == mount + "/home/"@ + user
            &&& n == 4 ==> home == Some(list[0]) && is_dir
            &&& home is None || !is_dir ==> n == 3
        },
{
    reveal_strlit("/");
    reveal_strlit("users");
    reveal_strlit("home");
    reveal_strlit("/users/");
    reveal_strlit("/home/");
    assert(mount + "/"@ + "users"@ + "/"@ + user =~= mount + "/users/"@ + user);
    assert(mount + "/"@ + "home"@ + "/"@ + user =~= mount + "/home/"@ + user);
}

/// Results are kept in the cache directory that is named, or else in the one of the home, and nowhere
/// without either.
pub proof fn law_cache_file(dir: Seq<char>, home: Option<Seq<char>>)
    requires
        dir.len() > 0 && dir.last() != '/',
    ensures
        cache_file(Some(dir), home) == Some(dir + "/slmtop/disk_usage.json"@),
        cache_file(None, Some(dir)) == Some(dir + "/.cache/slmtop/disk_usage.json"@),
        cache_file(Some(seq![]), Some(dir)) == Some(dir + "/.cache/slmtop/disk_usage.json"@),
        cache_file(None, None) is None,
{
    reveal_strlit("/");
    reveal_strlit("slmtop");
    reveal_strlit("disk_usage.json");
    reveal_strlit(".cache");
    reveal_strlit("/slmtop/disk_usage.json");
    reveal_strlit("/.cache/slmtop/disk_usage.json");
    assert(dir + "/"@ + "slmtop"@ + "/"@ + "disk_usage.json"@ =~= dir + "/slmtop/disk_usage.json"@);
    assert(dir + "/"@ + ".cache"@ + "/"@ + "slmtop"@ + "/"@ + "disk_usage.json"@ =~= dir
        + "/.cache/slmtop/disk_usage.json"@);
}

} // verus!
