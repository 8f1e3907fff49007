//! Unix paths, and the directories of a user on a disk.

use vstd::prelude::*;

use crate::map::law_lookup_after_put;
use crate::map::lemma_lookup_at;
use crate::map::lemma_lookup_position;
use crate::map::lookup;
use crate::map::TextMap;
use crate::model::opt_view;
use crate::order::text_before;
use crate::text::is_text;
use crate::text::pieces;
use crate::text::same;
use crate::text::split_pieces;
use crate::text::strings;
use crate::text::texts;
use crate::text::to_chars;
use crate::text::CharClass;
use vstd::slice::slice_to_vec;

verus! {

/// `base` with the relative path `rest` behind it, a slash between them where there is none yet.
pub open spec fn path_join(base: Seq<char>, rest: Seq<char>) -> Seq<char> {
    if base.len() == 0 || base.last() == '/' {
        base + rest
    } else {
        base + "/"@ + rest
    }
}

/// `base` with the relative path `rest` behind it.
fn join_path(base: &str, rest: &str) -> (r: String)
    ensures
        r@ == path_join(base@, rest@),
{
    let chars = to_chars(base);
    let mut out = base.to_string();
    if chars.len() > 0 && chars[chars.len() - 1] != '/' {
        out.append("/");
    }
    out.append(rest);
    out
}

/// Whether a path begins at the root.
pub open spec fn is_rooted(path: Seq<char>) -> bool {
    path.len() > 0 && path[0] == '/'
}

/// Whether a name means the directory that it stands in.
pub open spec fn is_dot(name: Seq<char>) -> bool {
    name == "."@
}

/// The names on a path, from left to right. A dot counts only at the start of a path that is not
/// rooted.
pub open spec fn path_names(path: Seq<char>) -> Seq<Seq<char>> {
    let all = pieces(path, CharClass::Exactly('/'));
    let named = all.filter(|n: Seq<char>| !is_dot(n));
    if !is_rooted(path) && all.len() > 0 && is_dot(all[0]) {
        seq![all[0]] + named
    } else {
        named
    }
}

/// Whether the path `inner` is the path `outer` or lies below it.
pub open spec fn path_under(inner: Seq<char>, outer: Seq<char>) -> bool {
    let (a, b) = (path_names(inner), path_names(outer));
    &&& b.len() == 0 && !is_rooted(outer) || is_rooted(inner) == is_rooted(outer)
    &&& b.len() <= a.len()
    &&& a.take(b.len() as int) == b
}

/// Whether the last name on a path is `name`.
pub open spec fn path_ends_in(path: Seq<char>, name: Seq<char>) -> bool {
    let names = path_names(path);
    names.len() > 0 && names.last() == name && name != ".."@ && name != "."@
}

/// Whether a path begins at the root.
fn rooted(path: &[char]) -> (r: bool)
    ensures
        r == is_rooted(path@),
{
    path.len() > 0 && path[0] == '/'
}

/// The names on a path.
fn split_path(path: &[char]) -> (r: Vec<Vec<char>>)
    ensures
        texts(r@) == path_names(path@),
{
    let all = split_pieces(path, CharClass::Exactly('/'));
    let ghost shown = texts(all@);
    let ghost keep = |n: Seq<char>| !is_dot(n);
    let mut out: Vec<Vec<char>> = Vec::new();
    let ghost mut first: Seq<Seq<char>> = seq![];
    if !rooted(path) && all.len() > 0 && is_text(all[0].as_slice(), ".") {
        out.push(slice_to_vec(all[0].as_slice()));
        proof {
            first = seq![shown[0]];
        }
        assert(texts(out@) =~= first);
    }
    let mut i: usize = 0;
    assert(texts(out@) =~= first + shown.take(0).filter(keep));
    while i < all.len()
        invariant
            i <= all@.len(),
            shown == texts(all@),
            keep == (|n: Seq<char>| !is_dot(n)),
            texts(out@) == first + shown.take(i as int).filter(keep),
        decreases all@.len() - i,
    {
        let ghost before = texts(out@);
        proof {
            assert(shown.take(i + 1).drop_last() =~= shown.take(i as int));
            reveal(Seq::filter);
        }
        if !is_text(all[i].as_slice(), ".") {
            out.push(slice_to_vec(all[i].as_slice()));
            assert(texts(out@) =~= before.push(shown[i as int]));
            assert(before.push(shown[i as int]) =~= first + shown.take(i as int).filter(keep).push(
                shown[i as int],
            ));
        }
        i += 1;
    }
    assert(shown.take(i as int) =~= shown);
    assert(texts(out@) =~= path_names(path@));
    out
}

/// Whether the path `inner` is the path `outer` or lies below it.
pub fn lies_under(inner: &str, outer: &str) -> (r: bool)
    ensures
        r == path_under(inner@, outer@),
{
    let from = to_chars(inner);
    let to = to_chars(outer);
    let a = split_path(from.as_slice());
    let b = split_path(to.as_slice());
    let ghost av = texts(a@);
    let ghost bv = texts(b@);
    let outer_rooted: bool = rooted(to.as_slice());
    if !((b.len() == 0 && !outer_rooted) || rooted(from.as_slice()) == outer_rooted) {
        return false;
    }
    if b.len() > a.len() {
        return false;
    }
    let mut i: usize = 0;
    while i < b.len()
        invariant
            i <= b@.len() <= a@.len(),
            av == texts(a@),
            bv == texts(b@),
            av == path_names(inner@),
            bv == path_names(outer@),
            forall|k: int| 0 <= k < i ==> av[k] == #[trigger] bv[k],
        decreases b@.len() - i,
    {
        if !same(a[i].as_slice(), b[i].as_slice()) {
            assert(av.take(bv.len() as int)[i as int] == av[i as int]);
            assert(av[i as int] != bv[i as int]);
            return false;
        }
        i += 1;
    }
    assert(av.take(bv.len() as int) =~= bv);
    true
}

/// Whether the last name on a path is `name`.
pub fn ends_in(path: &str, name: &str) -> (r: bool)
    ensures
        r == path_ends_in(path@, name@),
{
    let path = to_chars(path);
    let name = to_chars(name);
    let names = split_path(path.as_slice());
    let ghost shown = texts(names@);
    assert(shown.len() == names@.len());
    if names.len() == 0 {
        return false;
    }
    assert(shown.last() == names@[names@.len() - 1]@);
    same(names[names.len() - 1].as_slice(), name.as_slice()) && !is_text(
        name.as_slice(),
        "..",
    ) && !is_text(name.as_slice(), ".")
}

/// Whether a user name can be the name of a directory.
pub open spec fn is_user_name(user: Seq<char>) -> bool {
    user.len() > 0 && !user.contains('/') && !user.contains('\0')
}

/// Whether a user name can be the name of a directory.
fn check_user_name(user: &[char]) -> (r: bool)
    ensures
        r == is_user_name(user@),
{
    let mut i: usize = 0;
    while i < user.len()
        invariant
            i <= user@.len(),
            forall|k: int| 0 <= k < i ==> #[trigger] user@[k] != '/' && user@[k] != '\0',
        decreases user@.len() - i,
    {
        if user[i] == '/' || user[i] == '\0' {
            assert(user@.contains(user@[i as int]));
            return false;
        }
        i += 1;
    }
    user.len() > 0
}

/// Whether the home of the current user is the directory of `user` on the disk.
pub open spec fn home_on_mount(home: Seq<char>, is_dir: bool, mount: Seq<char>, user: Seq<char>) -> bool {
    is_dir && path_under(home, mount) && path_ends_in(home, user)
}

/// The directories where the files of a user on a disk may be: the home of the current user, where
/// it is theirs and on the disk, and then the usual places.
pub open spec fn candidates(
    mount: Seq<char>,
    user: Seq<char>,
    home: Option<Seq<char>>,
    home_is_dir: bool,
) -> Seq<Seq<char>> {
    let usual = seq![
        path_join(mount, user),
        path_join(path_join(mount, "users"@), user),
        path_join(path_join(mount, "home"@), user),
    ];
    if !is_user_name(user) {
        seq![]
    } else {
        match home {
            Some(h) if home_on_mount(h, home_is_dir, mount, user) => seq![h] + usual,
            _ => usual,
        }
    }
}

/// The directories where the files of a user on a disk may be. `home` is the home of the current
/// user, and `home_is_dir` tells whether it is a directory.
pub fn user_disk_candidates(mount: &str, user: &str, home: Option<String>, home_is_dir: bool) -> (r: Vec<
    String,
>)
    ensures
        strings(r@) == candidates(mount@, user@, opt_view(home), home_is_dir),
{
    let mut out: Vec<String> = Vec::new();
    let user_chars = to_chars(user);
    if !check_user_name(user_chars.as_slice()) {
        assert(strings(out@) =~= seq![]);
        return out;
    }
    let ghost mut first: Seq<Seq<char>> = seq![];
    if let Some(h) = home {
        if home_is_dir && lies_under(h.as_str(), mount) && ends_in(h.as_str(), user) {
            proof {
                first = seq![h@];
            }
            out.push(h);
        }
    }
    assert(strings(out@) =~= first);
    out.push(join_path(mount, user));
    out.push(join_path(join_path(mount, "users").as_str(), user));
    out.push(join_path(join_path(mount, "home").as_str(), user));
    assert(strings(out@) =~= first + seq![
        path_join(mount@, user@),
        path_join(path_join(mount@, "users"@), user@),
        path_join(path_join(mount@, "home"@), user@),
    ]);
    out
}

/// Whether the texts ascend, without repetition.
pub open spec fn strictly_ascending(list: Seq<Seq<char>>) -> bool {
    forall|i: int, j: int| 0 <= i < j < list.len() ==> text_before(#[trigger] list[i], #[trigger] list[j])
}

/// The paths in order, each once.
pub fn sort_paths(paths: &Vec<String>) -> (r: Vec<String>)
    ensures
        strictly_ascending(strings(r@)),
        forall|p: Seq<char>| #[trigger] strings(r@).contains(p) <==> strings(paths@).contains(p),
{
    let ghost shown = strings(paths@);
    let mut map: TextMap<bool> = TextMap::new();
    let mut i: usize = 0;
    assert(forall|p: Seq<char>| !shown.take(0).contains(p));
    while i < paths.len()
        invariant
            i <= paths@.len(),
            shown == strings(paths@),
            forall|p: Seq<char>| (#[trigger] lookup(map@, p)) is Some <==> shown.take(i as int).contains(p),
        decreases paths@.len() - i,
    {
        let ghost before = map@;
        let path = &paths[i];
        map.insert(path.as_str(), true);
        proof {
            let more = shown.take(i + 1);
            let fewer = shown.take(i as int);
            assert(more =~= fewer.push(path@));
            assert forall|p: Seq<char>| (#[trigger] lookup(map@, p)) is Some <==> more.contains(p) by {
                law_lookup_after_put(before, path@, true, p);
                assert(lookup(before, p) is Some <==> fewer.contains(p));
                if fewer.contains(p) {
                    let k = choose|k: int| 0 <= k < fewer.len() && fewer[k] == p;
                    assert(more[k] == p);
                }
                if p == path@ {
                    assert(more[i as int] == p);
                }
                if more.contains(p) && p != path@ {
                    let k = choose|k: int| 0 <= k < more.len() && more[k] == p;
                    assert(fewer[k] == p);
                }
            }
        }
        i += 1;
    }
    assert(shown.take(i as int) =~= shown);
    let n: usize = map.len();
    let mut out: Vec<String> = Vec::new();
    i = 0;
    while i < n
        invariant
            i <= n,
            n == map@.len(),
            out@.len() == i,
            forall|k: int| 0 <= k < i ==> (#[trigger] out@[k])@ == map@[k].0,
        decreases n - i,
    {
        out.push(map.key_at(i).clone());
        i += 1;
    }
    proof {
        let list = strings(out@);
        assert forall|p: Seq<char>| #[trigger] list.contains(p) <==> shown.contains(p) by {
            let at = lemma_lookup_position(map@, p);
            if lookup(map@, p) is Some {
                assert(list[at] == p);
            }
            if list.contains(p) {
                let k = choose|k: int| 0 <= k < list.len() && list[k] == p;
                lemma_lookup_at(map@, k);
                assert(lookup(map@, p) is Some);
            }
            assert(lookup(map@, p) is Some <==> shown.contains(p));
        }
        assert forall|a: int, b: int| 0 <= a < b < list.len() implies text_before(
            #[trigger] list[a],
            #[trigger] list[b],
        ) by {
            assert(list[a] == map@[a].0 && list[b] == map@[b].0);
        }
    }
    out
}

/// The file that keeps the results of scans: in the cache directory that is named, or in the one of
/// the home; none without either.
pub open spec fn cache_file(cache_home: Option<Seq<char>>, home: Option<Seq<char>>) -> Option<Seq<char>> {
    match cache_home {
        Some(dir) if dir.len() > 0 => Some(
            path_join(path_join(dir, "slmtop"@), "disk_usage.json"@),
        ),
        _ => match home {
            Some(dir) if dir.len() > 0 => Some(
                path_join(path_join(path_join(dir, ".cache"@), "slmtop"@), "disk_usage.json"@),
            ),
            _ => None,
        },
    }
}

/// The file that keeps the results of scans.
pub fn disk_usage_cache_path(cache_home: Option<String>, home: Option<String>) -> (r: Option<String>)
    ensures
        opt_view(r) == cache_file(opt_view(cache_home), opt_view(home)),
{
    if let Some(dir) = cache_home {
        if !dir.as_str().is_empty() {
            let base = join_path(dir.as_str(), "slmtop");
            return Some(join_path(base.as_str(), "disk_usage.json"));
        }
    }
    if let Some(dir) = home {
        if !dir.as_str().is_empty() {
            let cache = join_path(dir.as_str(), ".cache");
            let base = join_path(cache.as_str(), "slmtop");
            return Some(join_path(base.as_str(), "disk_usage.json"));
        }
    }
    None
}

} // verus!
