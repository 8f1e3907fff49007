//! Parsers for `df` and for reports of disk usage.

use vstd::prelude::*;

use crate::amount::parse_quota_count;
use crate::amount::quota_bytes;
use crate::amount::quota_count;
use crate::amount::quota_size_to_bytes;
use crate::amount::sat_add;
use crate::amount::sat_mul;
use crate::map::lookup;
use crate::map::put;
use crate::map::TextMap;
use crate::model::opt_view;
use crate::model::views;
use crate::model::DiskInfo;
use crate::model::DiskLabel;
use crate::model::DiskUserUsage;
use crate::model::DiskView;
use crate::model::UsageView;
use crate::number::at_most;
use crate::number::parse_64;
use crate::number::parse_64_or_zero;
use crate::number::parse_max;
use crate::number::read_64;
use crate::number::read_64_or_zero;
use crate::number::read_max;
use crate::number::times;
use crate::order::keys_view;
use crate::order::sort_rows;
use crate::order::sorted_stably;
use crate::order::SortKey;
use crate::rows::first_said;
use crate::rows::gather;
use crate::sorting::keys_of;
use crate::sorting::lemma_sorted_views;
use crate::sorting::number_key;
use crate::sorting::number_part;
use crate::text::begins;
use crate::text::contains;
use crate::text::count_lead;
use crate::text::has_literal;
use crate::text::is_text;
use crate::text::join;
use crate::text::join_texts;
use crate::text::lead;
use crate::text::lines;
use crate::text::lowercase;
use crate::text::lowered;
use crate::text::split;
use crate::text::split_chars;
use crate::text::split_lines;
use crate::text::split_words;
use crate::text::starts_with;
use crate::text::strings;
use crate::text::strip;
use crate::text::strip_end;
use crate::text::texts;
use crate::text::to_chars;
use crate::text::to_text;
use crate::text::trim;
use crate::text::trim_end;
use crate::text::words;
use crate::text::CharClass;
use vstd::slice::slice_subrange;

verus! {

/// A file of the kernel and what it holds, where it can be read.
#[derive(Debug)]
pub struct Probe {
    pub path: String,
    pub content: Option<String>,
}

/// What a file is known to hold.
pub open spec fn probed(probes: Seq<Probe>, path: Seq<char>) -> Option<Seq<char>>
    decreases probes.len(),
{
    if probes.len() == 0 {
        None
    } else if probes[0].path@ == path {
        opt_view(probes[0].content)
    } else {
        probed(probes.drop_first(), path)
    }
}

/// What a file is known to hold.
fn find_probe<'a>(probes: &'a [Probe], path: &str) -> (r: Option<&'a String>)
    ensures
        match r {
            Some(content) => probed(probes@, path@) == Some(content@),
            None => probed(probes@, path@) is None,
        },
{
    let wanted = path.to_string();
    let mut i: usize = 0;
    assert(probes@.skip(0) =~= probes@);
    while i < probes.len()
        invariant
            i <= probes@.len(),
            wanted@ == path@,
            probed(probes@, path@) == probed(probes@.skip(i as int), path@),
        decreases probes@.len() - i,
    {
        if probes[i].path == wanted {
            return match &probes[i].content {
                Some(content) => Some(content),
                None => None,
            };
        }
        assert(probes@.skip(i as int).drop_first() =~= probes@.skip(i + 1));
        i += 1;
    }
    None
}

/// Whether a file system is reached over the network.
pub open spec fn is_network_fs(fstype: Seq<char>) -> bool {
    ||| fstype == "nfs"@
    ||| fstype == "nfs4"@
    ||| fstype == "nfs3"@
    ||| fstype == "cifs"@
    ||| fstype == "smb"@
    ||| fstype == "smbfs"@
}

/// Whether a file system is a parallel one.
pub open spec fn is_parallel_fs(fstype: Seq<char>) -> bool {
    ||| fstype == "lustre"@
    ||| fstype == "gpfs"@
    ||| fstype == "beegfs"@
    ||| fstype == "orangefs"@
    ||| fstype == "pvfs2"@
    ||| fstype == "cephfs"@
    ||| fstype == "glusterfs"@
}

/// Whether a file system holds no files of its own on a disk.
pub open spec fn is_pseudo_fs(fstype: Seq<char>) -> bool {
    ||| fstype == "tmpfs"@
    ||| fstype == "devtmpfs"@
    ||| fstype == "sysfs"@
    ||| fstype == "proc"@
    ||| fstype == "devpts"@
    ||| fstype == "cgroup"@
    ||| fstype == "cgroup2"@
    ||| fstype == "securityfs"@
    ||| fstype == "pstore"@
    ||| fstype == "efivarfs"@
    ||| fstype == "bpf"@
    ||| fstype == "autofs"@
    ||| fstype == "hugetlbfs"@
    ||| fstype == "mqueue"@
    ||| fstype == "debugfs"@
    ||| fstype == "tracefs"@
    ||| fstype == "fusectl"@
    ||| fstype == "configfs"@
    ||| fstype == "ramfs"@
    ||| fstype == "rpc_pipefs"@
    ||| fstype == "nsfs"@
    ||| fstype == "overlay"@
}

/// The file that tells whether the device turns, where the label depends on it.
pub open spec fn rotational_path(source: Seq<char>, fstype: Seq<char>) -> Option<Seq<char>> {
    if is_network_fs(fstype) || is_parallel_fs(fstype) || contains(source, "nvme"@) || !starts_with(
        source,
        "/dev/sd"@,
    ) {
        None
    } else {
        Some("/sys/block/"@ + lead(source.skip(5), CharClass::Letter) + "/queue/rotational"@)
    }
}

/// The label of a disk, given what the file that tells whether it turns holds.
pub open spec fn disk_label(source: Seq<char>, fstype: Seq<char>, turns: Option<Seq<char>>) -> DiskLabel {
    if is_network_fs(fstype) {
        DiskLabel::Nfs
    } else if is_parallel_fs(fstype) {
        DiskLabel::ParallelFs
    } else if contains(source, "nvme"@) {
        DiskLabel::Ssd
    } else if starts_with(source, "/dev/sd"@) {
        match turns {
            Some(content) => if trim(content) == "0"@ {
                DiskLabel::Ssd
            } else {
                DiskLabel::Hdd
            },
            None => DiskLabel::Unknown,
        }
    } else {
        DiskLabel::Unknown
    }
}

fn network_fs(fstype: &[char]) -> (r: bool)
    ensures
        r == is_network_fs(fstype@),
{
    is_text(fstype, "nfs") || is_text(fstype, "nfs4") || is_text(fstype, "nfs3") || is_text(
        fstype,
        "cifs",
    ) || is_text(fstype, "smb") || is_text(fstype, "smbfs")
}

fn parallel_fs(fstype: &[char]) -> (r: bool)
    ensures
        r == is_parallel_fs(fstype@),
{
    is_text(fstype, "lustre") || is_text(fstype, "gpfs") || is_text(fstype, "beegfs") || is_text(
        fstype,
        "orangefs",
    ) || is_text(fstype, "pvfs2") || is_text(fstype, "cephfs") || is_text(fstype, "glusterfs")
}

fn pseudo_fs(fstype: &[char]) -> (r: bool)
    ensures
        r == is_pseudo_fs(fstype@),
{
    is_text(fstype, "tmpfs") || is_text(fstype, "devtmpfs") || is_text(fstype, "sysfs") || is_text(
        fstype,
        "proc",
    ) || is_text(fstype, "devpts") || is_text(fstype, "cgroup") || is_text(fstype, "cgroup2")
        || is_text(fstype, "securityfs") || is_text(fstype, "pstore") || is_text(fstype, "efivarfs")
        || is_text(fstype, "bpf") || is_text(fstype, "autofs") || is_text(fstype, "hugetlbfs")
        || is_text(fstype, "mqueue") || is_text(fstype, "debugfs") || is_text(fstype, "tracefs")
        || is_text(fstype, "fusectl") || is_text(fstype, "configfs") || is_text(fstype, "ramfs")
        || is_text(fstype, "rpc_pipefs") || is_text(fstype, "nsfs") || is_text(fstype, "overlay")
}

/// The file that tells whether the device turns, where the label depends on it.
fn find_rotational_path(source: &[char], fstype: &[char]) -> (r: Option<String>)
    ensures
        opt_view(r) == rotational_path(source@, fstype@),
{
    if network_fs(fstype) || parallel_fs(fstype) || has_literal(source, "nvme") || !begins(
        source,
        "/dev/sd",
    ) {
        return None;
    }
    proof {
        reveal_strlit("/dev/sd");
    }
    let rest = slice_subrange(source, 5, source.len());
    assert(rest@ =~= source@.skip(5));
    let n: usize = count_lead(rest, CharClass::Letter);
    let device = slice_subrange(rest, 0, n);
    assert(device@ =~= lead(source@.skip(5), CharClass::Letter));
    let mut path = "/sys/block/".to_string();
    path.append(to_text(device).as_str());
    path.append("/queue/rotational");
    Some(path)
}

/// The label of a disk, given what is known of the files that tell whether a device turns.
fn classify_disk(source: &[char], fstype: &[char], probes: &[Probe]) -> (r: DiskLabel)
    ensures
        r == disk_label(
            source@,
            fstype@,
            match rotational_path(source@, fstype@) {
                Some(path) => probed(probes@, path),
                None => None,
            },
        ),
{
    if network_fs(fstype) {
        return DiskLabel::Nfs;
    }
    if parallel_fs(fstype) {
        return DiskLabel::ParallelFs;
    }
    if has_literal(source, "nvme") {
        return DiskLabel::Ssd;
    }
    match find_rotational_path(source, fstype) {
        Some(path) => match find_probe(probes, path.as_str()) {
            Some(content) => {
                let chars = to_chars(content.as_str());
                if is_text(strip(chars.as_slice()), "0") {
                    DiskLabel::Ssd
                } else {
                    DiskLabel::Hdd
                }
            },
            None => DiskLabel::Unknown,
        },
        None => DiskLabel::Unknown,
    }
}

/// The words of a line of `df` that lists a disk: source, type, size, used, available, percentage
/// used, and the mount point, which may be several words.
pub open spec fn df_words(raw: Seq<char>) -> Option<Seq<Seq<char>>> {
    let line = trim(raw);
    let parts = words(line);
    if line.len() == 0 || starts_with(line, "Filesystem"@) || starts_with(line, "filesystem"@)
        || parts.len() < 7 || is_pseudo_fs(lowercase(parts[1])) {
        None
    } else {
        Some(parts)
    }
}

/// The percentage that a word such as `42%` says, or zero.
pub open spec fn percent_said(word: Seq<char>) -> nat {
    match parse_max(trim_end(word, CharClass::Exactly('%')), 255) {
        Some(n) => n,
        None => 0,
    }
}

/// The disk that a line of `df` lists.
pub open spec fn df_line(raw: Seq<char>, probes: Seq<Probe>) -> Option<DiskView> {
    match df_words(raw) {
        Some(parts) => {
            let source = lowercase(parts[0]);
            let fstype = lowercase(parts[1]);
            Some(
                DiskView {
                    mount: join(parts.skip(6), " "@),
                    fstype: parts[1],
                    size: parts[2],
                    used: parts[3],
                    avail: parts[4],
                    use_percent: percent_said(parts[5]) as u8,
                    label: disk_label(
                        source,
                        fstype,
                        match rotational_path(source, fstype) {
                            Some(path) => probed(probes, path),
                            None => None,
                        },
                    ),
                },
            )
        },
        None => None,
    }
}

/// The file that the label of the disk on a line of `df` depends on.
pub open spec fn df_line_probe(raw: Seq<char>) -> Option<Seq<char>> {
    match df_words(raw) {
        Some(parts) => rotational_path(lowercase(parts[0]), lowercase(parts[1])),
        None => None,
    }
}

/// How a line of `df` is read.
pub open spec fn df_reading(probes: Seq<Probe>) -> spec_fn(Seq<char>) -> Option<DiskView> {
    |l: Seq<char>| df_line(l, probes)
}

/// How the file that a line of `df` depends on is found.
pub open spec fn probe_reading() -> spec_fn(Seq<char>) -> Option<Seq<char>> {
    |l: Seq<char>| df_line_probe(l)
}

/// The words of a line of `df` that lists a disk.
fn read_df_words(raw: &[char]) -> (r: Option<Vec<Vec<char>>>)
    ensures
        match r {
            Some(parts) => df_words(raw@) == Some(texts(parts@)) && parts@.len() >= 7,
            None => df_words(raw@) is None,
        },
{
    let line = strip(raw);
    if line.len() == 0 || begins(line, "Filesystem") || begins(line, "filesystem") {
        return None;
    }
    let parts = split_words(line);
    let ghost shown = texts(parts@);
    assert(shown.len() == parts@.len());
    if parts.len() < 7 {
        return None;
    }
    assert(shown[1] == parts@[1]@);
    let fstype = lowered(to_text(parts[1].as_slice()).as_str());
    if pseudo_fs(fstype.as_slice()) {
        return None;
    }
    Some(parts)
}

/// The text of a word.
fn word(parts: &Vec<Vec<char>>, i: usize) -> (r: String)
    requires
        i < parts@.len(),
    ensures
        r@ == texts(parts@)[i as int],
{
    to_text(parts[i].as_slice())
}

/// The disk that the words of a line of `df` list.
fn read_disk(parts: &Vec<Vec<char>>, probes: &[Probe]) -> (r: DiskInfo)
    requires
        parts@.len() >= 7,
    ensures
        ({
            let shown = texts(parts@);
            let source = lowercase(shown[0]);
            let fstype = lowercase(shown[1]);
            r@ == DiskView {
                mount: join(shown.skip(6), " "@),
                fstype: shown[1],
                size: shown[2],
                used: shown[3],
                avail: shown[4],
                use_percent: percent_said(shown[5]) as u8,
                label: disk_label(
                    source,
                    fstype,
                    match rotational_path(source, fstype) {
                        Some(path) => probed(probes@, path),
                        None => None,
                    },
                ),
            }
        }),
{
    let ghost shown = texts(parts@);
    let mut mount: Vec<String> = Vec::new();
    let mut i: usize = 6;
    while i < parts.len()
        invariant
            6 <= i <= parts@.len(),
            shown == texts(parts@),
            mount@.len() == i - 6,
            forall|k: int| 0 <= k < mount@.len() ==> (#[trigger] mount@[k])@ == shown[k + 6],
        decreases parts@.len() - i,
    {
        mount.push(word(parts, i));
        i += 1;
    }
    assert(strings(mount@) =~= shown.skip(6));
    let percent = strip_end(parts[5].as_slice(), CharClass::Exactly('%'));
    let use_percent: u8 = match read_max(percent, 255) {
        Some(n) => n as u8,
        None => 0,
    };
    let fstype = lowered(word(parts, 1).as_str());
    let source = lowered(word(parts, 0).as_str());
    let label = classify_disk(source.as_slice(), fstype.as_slice(), probes);
    DiskInfo {
        mount: join_texts(&mount, " "),
        fstype: word(parts, 1),
        size: word(parts, 2),
        used: word(parts, 3),
        avail: word(parts, 4),
        use_percent,
        label,
    }
}

/// The files of the kernel that the labels of the disks depend on, one for each disk that has one.
#[must_use]
pub fn rotational_files(output: &str) -> (r: Vec<String>)
    ensures
        strings(r@) == gather(lines(output@), probe_reading()),
{
    let chars = to_chars(output);
    let all = split_lines(chars.as_slice());
    let ghost shown = texts(all@);
    let ghost f = probe_reading();
    let mut out: Vec<String> = Vec::new();
    let mut i: usize = 0;
    assert(strings(out@) =~= gather(shown.take(0), f));
    while i < all.len()
        invariant
            i <= all@.len(),
            shown == texts(all@),
            f == probe_reading(),
            strings(out@) == gather(shown.take(i as int), f),
        decreases all@.len() - i,
    {
        let ghost before = strings(out@);
        assert(shown.take(i + 1).drop_last() =~= shown.take(i as int));
        assert(f(shown[i as int]) == df_line_probe(shown[i as int]));
        if let Some(parts) = read_df_words(all[i].as_slice()) {
            let fstype = lowered(word(&parts, 1).as_str());
            let source = lowered(word(&parts, 0).as_str());
            if let Some(path) = find_rotational_path(source.as_slice(), fstype.as_slice()) {
                let ghost pv = path@;
                out.push(path);
                assert(strings(out@) =~= before.push(pv));
            }
        }
        i += 1;
    }
    assert(shown.take(i as int) =~= shown);
    out
}

/// The disks that `df` printed, without pseudo file systems. `probes` holds what is known of the
/// files that tell whether a device turns.
#[must_use]
pub fn parse_df(output: &str, probes: &[Probe]) -> (r: Vec<DiskInfo>)
    ensures
        views(r@) == gather(lines(output@), df_reading(probes@)),
{
    let chars = to_chars(output);
    let all = split_lines(chars.as_slice());
    let ghost shown = texts(all@);
    let ghost f = df_reading(probes@);
    let mut out: Vec<DiskInfo> = Vec::new();
    let mut i: usize = 0;
    assert(views(out@) =~= gather(shown.take(0), f));
    while i < all.len()
        invariant
            i <= all@.len(),
            shown == texts(all@),
            f == df_reading(probes@),
            views(out@) == gather(shown.take(i as int), f),
        decreases all@.len() - i,
    {
        let ghost before = views(out@);
        assert(shown.take(i + 1).drop_last() =~= shown.take(i as int));
        assert(f(shown[i as int]) == df_line(shown[i as int], probes@));
        if let Some(parts) = read_df_words(all[i].as_slice()) {
            let disk = read_disk(&parts, probes);
            let ghost dv = disk@;
            out.push(disk);
            assert(views(out@) =~= before.push(dv));
        }
        i += 1;
    }
    assert(shown.take(i as int) =~= shown);
    out
}

/// Every disk that is listed shows its own file system, and that is no pseudo file system.
pub proof fn law_no_pseudo_fs_listed(all: Seq<Seq<char>>, probes: Seq<Probe>)
    ensures
        forall|i: int|
            0 <= i < gather(all, df_reading(probes)).len() ==> !is_pseudo_fs(
                lowercase(#[trigger] gather(all, df_reading(probes))[i].fstype),
            ),
    decreases all.len(),
{
    if all.len() > 0 {
        law_no_pseudo_fs_listed(all.drop_last(), probes);
    }
}

/// Bytes and entries.
#[derive(Debug, Clone, Copy, PartialEq, Eq, Structural)]
pub struct Share {
    pub bytes: u64,
    pub entries: u64,
}

/// The share with one more entry of so many blocks of 512 bytes.
pub open spec fn with_entry(share: Share, blocks: nat) -> Share {
    Share {
        bytes: sat_add(share.bytes as nat, sat_mul(blocks, 512)) as u64,
        entries: sat_add(share.entries as nat, 1) as u64,
    }
}

/// The share with one more entry of so many blocks of 512 bytes.
pub fn count_entry(share: Share, blocks: u64) -> (r: Share)
    ensures
        r == with_entry(share, blocks as nat),
{
    Share {
        bytes: share.bytes.saturating_add(times(blocks, 512)),
        entries: share.entries.saturating_add(1),
    }
}

/// The user and the blocks that a line of a report by user says.
pub open spec fn owned_blocks(raw: Seq<char>) -> Option<(Seq<char>, nat)> {
    let line = trim(raw);
    let fields = split(line, CharClass::Exactly('\t'));
    let user = trim(fields[0]);
    if line.len() == 0 || user.len() == 0 {
        None
    } else {
        Some(
            (
                user,
                if fields.len() > 1 {
                    parse_64_or_zero(trim(fields[1]))
                } else {
                    0
                },
            ),
        )
    }
}

/// The shares of the users that the lines say.
pub open spec fn shares(all: Seq<Seq<char>>) -> Seq<(Seq<char>, Share)>
    decreases all.len(),
{
    if all.len() == 0 {
        seq![]
    } else {
        let before = shares(all.drop_last());
        match owned_blocks(all.last()) {
            Some((user, blocks)) => {
                let share = match lookup(before, user) {
                    Some(s) => s,
                    None => Share { bytes: 0, entries: 0 },
                };
                put(before, user, with_entry(share, blocks))
            },
            None => before,
        }
    }
}

/// The shares as rows.
pub open spec fn share_rows(entries: Seq<(Seq<char>, Share)>) -> Seq<UsageView> {
    Seq::new(
        entries.len(),
        |i: int|
            UsageView { user: entries[i].0, bytes: entries[i].1.bytes, entries: entries[i].1.entries },
    )
}

/// The user and the blocks that a line of a report by user says.
fn read_owned_blocks(raw: &[char]) -> (r: Option<(String, u64)>)
    ensures
        match r {
            Some((user, blocks)) => owned_blocks(raw@) == Some((user@, blocks as nat)),
            None => owned_blocks(raw@) is None,
        },
{
    let line = strip(raw);
    if line.len() == 0 {
        return None;
    }
    let fields = split_chars(line, CharClass::Exactly('\t'));
    let ghost shown = texts(fields@);
    assert(shown.len() == fields@.len());
    assert(shown[0] == fields@[0]@);
    let user = strip(fields[0].as_slice());
    if user.len() == 0 {
        return None;
    }
    let mut blocks: u64 = 0;
    if fields.len() > 1 {
        assert(shown[1] == fields@[1]@);
        blocks = read_64_or_zero(strip(fields[1].as_slice()));
    }
    Some((to_text(user), blocks))
}

/// What each user holds, by a report of owner and blocks per entry: most bytes first, and by name
/// where the bytes are the same.
#[must_use]
pub fn parse_find_user_usage(output: &str) -> (r: Vec<DiskUserUsage>)
    ensures
        ({
            let rows = share_rows(shares(lines(output@)));
            sorted_stably(
                rows,
                views(r@),
                keys_of(rows, |u: UsageView| number_part(u.bytes as nat)),
                true,
            )
        }),
{
    let chars = to_chars(output);
    let all = split_lines(chars.as_slice());
    let ghost shown = texts(all@);
    let mut map: TextMap<Share> = TextMap::new();
    let mut i: usize = 0;
    assert(map@ =~= shares(shown.take(0)));
    while i < all.len()
        invariant
            i <= all@.len(),
            shown == texts(all@),
            map@ == shares(shown.take(i as int)),
        decreases all@.len() - i,
    {
        assert(shown.take(i + 1).drop_last() =~= shown.take(i as int));
        assert(shown.take(i + 1).last() == all@[i as int]@);
        if let Some((user, blocks)) = read_owned_blocks(all[i].as_slice()) {
            let share = match map.get(user.as_str()) {
                Some(s) => *s,
                None => Share { bytes: 0, entries: 0 },
            };
            map.insert(user.as_str(), count_entry(share, blocks));
        }
        i += 1;
    }
    assert(shown.take(i as int) =~= shown);
    let mut rows: Vec<DiskUserUsage> = Vec::new();
    let mut keys: Vec<SortKey> = Vec::new();
    let n: usize = map.len();
    i = 0;
    while i < n
        invariant
            i <= n,
            n == map@.len(),
            rows@.len() == i,
            keys@.len() == i,
            forall|k: int| 0 <= k < i ==> (#[trigger] rows@[k])@ == share_rows(map@)[k],
            forall|k: int|
                0 <= k < i ==> (#[trigger] keys@[k])@ == number_part(share_rows(map@)[k].bytes as nat),
        decreases n - i,
    {
        let share = *map.value_at(i);
        rows.push(
            DiskUserUsage {
                user: map.key_at(i).clone(),
                bytes: share.bytes,
                entries: share.entries,
            },
        );
        keys.push(number_key(share.bytes as u128));
        i += 1;
    }
    let ghost before = share_rows(map@);
    let ghost wanted = keys_of(before, |u: UsageView| number_part(u.bytes as nat));
    assert(views(rows@) =~= before);
    assert(keys_view(keys@) =~= wanted);
    let ghost unsorted = rows@;
    let r = sort_rows(rows, &keys, true);
    proof {
        lemma_sorted_views(unsorted, r@, wanted, true);
    }
    r
}

/// How a line of blocks is read.
pub open spec fn block_reading() -> spec_fn(Seq<char>) -> Option<nat> {
    |l: Seq<char>| parse_64(trim(l))
}

/// The share of entries with the given blocks, one after the other.
pub open spec fn share_of(blocks: Seq<nat>) -> Share
    decreases blocks.len(),
{
    if blocks.len() == 0 {
        Share { bytes: 0, entries: 0 }
    } else {
        with_entry(share_of(blocks.drop_last()), blocks.last())
    }
}

/// The sum of numbers.
pub open spec fn sum(numbers: Seq<nat>) -> nat
    decreases numbers.len(),
{
    if numbers.len() == 0 {
        0
    } else {
        sum(numbers.drop_last()) + numbers.last()
    }
}

/// A share counts every entry and 512 bytes for each block, up to the largest number.
pub proof fn law_share_is_sum(blocks: Seq<nat>)
    ensures
        share_of(blocks).bytes == at_most(512 * sum(blocks), u64::MAX as nat),
        share_of(blocks).entries == at_most(blocks.len(), u64::MAX as nat),
    decreases blocks.len(),
{
    if blocks.len() > 0 {
        law_share_is_sum(blocks.drop_last());
    }
}

/// One row for a user, or none without entries.
pub open spec fn one_row(user: Seq<char>, share: Share) -> Seq<UsageView> {
    if share.entries == 0 {
        seq![]
    } else {
        seq![UsageView { user, bytes: share.bytes, entries: share.entries }]
    }
}

/// One row for a user, or none without entries.
pub fn usage_row(user: &str, share: Share) -> (r: Vec<DiskUserUsage>)
    ensures
        views(r@) == one_row(user@, share),
{
    let mut out: Vec<DiskUserUsage> = Vec::new();
    if share.entries != 0 {
        out.push(DiskUserUsage { user: user.to_string(), bytes: share.bytes, entries: share.entries });
    }
    assert(views(out@) =~= one_row(user@, share));
    out
}

/// What a user holds, by a report of blocks per entry.
#[must_use]
pub fn parse_find_current_user_usage(output: &str, user: &str) -> (r: Vec<DiskUserUsage>)
    ensures
        views(r@) == one_row(user@, share_of(gather(lines(output@), block_reading()))),
{
    let chars = to_chars(output);
    let all = split_lines(chars.as_slice());
    let ghost shown = texts(all@);
    let ghost f = block_reading();
    let mut share = Share { bytes: 0, entries: 0 };
    let mut i: usize = 0;
    while i < all.len()
        invariant
            i <= all@.len(),
            shown == texts(all@),
            f == block_reading(),
            share == share_of(gather(shown.take(i as int), f)),
        decreases all@.len() - i,
    {
        assert(shown.take(i + 1).drop_last() =~= shown.take(i as int));
        assert(f(shown[i as int]) == parse_64(trim(shown[i as int])));
        if let Some(blocks) = read_64(strip(all[i].as_slice())) {
            assert(gather(shown.take(i + 1), f).drop_last() =~= gather(shown.take(i as int), f));
            share = count_entry(share, blocks);
        }
        i += 1;
    }
    assert(shown.take(i as int) =~= shown);
    usage_row(user, share)
}

/// The number that the first word of a line writes.
pub open spec fn first_number(line: Seq<char>) -> Option<nat> {
    let parts = words(line);
    if parts.len() == 0 {
        None
    } else {
        parse_64(parts[0])
    }
}

/// How a line of `du` is read.
pub open spec fn du_reading() -> spec_fn(Seq<char>) -> Option<nat> {
    |l: Seq<char>| first_number(l)
}

/// The row that the first line of `du` that begins with a number of bytes says.
pub open spec fn du_rows(output: Seq<char>, user: Seq<char>) -> Seq<UsageView> {
    match first_said(lines(output), du_reading()) {
        Some(bytes) => seq![UsageView { user, bytes: bytes as u64, entries: 0 }],
        None => seq![],
    }
}

/// What a user holds, by the first line of `du` that begins with a number of bytes.
#[must_use]
pub fn parse_du_user_usage(output: &str, user: &str) -> (r: Vec<DiskUserUsage>)
    ensures
        views(r@) == du_rows(output@, user@),
{
    let chars = to_chars(output);
    let all = split_lines(chars.as_slice());
    let ghost shown = texts(all@);
    let ghost f = du_reading();
    let mut out: Vec<DiskUserUsage> = Vec::new();
    let mut i: usize = 0;
    assert(shown.skip(0) =~= shown);
    while i < all.len()
        invariant
            i <= all@.len(),
            out@.len() == 0,
            shown == texts(all@),
            f == du_reading(),
            first_said(lines(output@), f) == first_said(shown.skip(i as int), f),
        decreases all@.len() - i,
    {
        let parts = split_words(all[i].as_slice());
        let ghost pv = texts(parts@);
        assert(pv.len() == parts@.len());
        assert(f(shown[i as int]) == first_number(all@[i as int]@));
        if parts.len() > 0 {
            assert(pv[0] == parts@[0]@);
            if let Some(bytes) = read_64(parts[0].as_slice()) {
                out.push(DiskUserUsage { user: user.to_string(), bytes, entries: 0 });
                assert(views(out@) =~= seq![UsageView { user: user@, bytes, entries: 0 }]);
                return out;
            }
        }
        assert(shown.skip(i as int).drop_first() =~= shown.skip(i + 1));
        i += 1;
    }
    assert(views(out@) =~= seq![]);
    out
}

/// The bytes and entries that a line of `lfs quota` says: its first number after a path, if there is
/// one, and the number four words later.
pub open spec fn quota_line(raw: Seq<char>) -> Option<(nat, nat)> {
    let line = trim(raw);
    let tokens = words(line);
    let first: int = if tokens.len() > 0 && starts_with(tokens[0], "/"@) {
        1
    } else {
        0
    };
    let entries = if first + 4 < tokens.len() {
        match quota_count(tokens[first + 4]) {
            Some(n) => n,
            None => 0,
        }
    } else {
        0
    };
    if line.len() == 0 || starts_with(line, "Disk quotas"@) || starts_with(line, "Filesystem"@)
        || starts_with(line, "none"@) || first >= tokens.len() {
        None
    } else {
        match quota_bytes(tokens[first]) {
            Some(bytes) => Some((bytes, entries)),
            None => None,
        }
    }
}

/// How a line of `lfs quota` is read.
pub open spec fn quota_reading() -> spec_fn(Seq<char>) -> Option<(nat, nat)> {
    |l: Seq<char>| quota_line(l)
}

/// The bytes and entries that a line of `lfs quota` says.
fn read_quota_line(raw: &[char]) -> (r: Option<(u64, u64)>)
    ensures
        match r {
            Some((bytes, entries)) => quota_line(raw@) == Some((bytes as nat, entries as nat)),
            None => quota_line(raw@) is None,
        },
{
    let line = strip(raw);
    if line.len() == 0 || begins(line, "Disk quotas") || begins(line, "Filesystem") || begins(
        line,
        "none",
    ) {
        return None;
    }
    let tokens = split_words(line);
    let ghost shown = texts(tokens@);
    assert(shown.len() == tokens@.len());
    if tokens.len() == 0 {
        return None;
    }
    assert(shown[0] == tokens@[0]@);
    let first: usize = if begins(tokens[0].as_slice(), "/") {
        1
    } else {
        0
    };
    if first >= tokens.len() {
        return None;
    }
    let mut entries: u64 = 0;
    if first + 4 < tokens.len() {
        assert(shown[first + 4] == tokens@[first + 4]@);
        if let Some(n) = parse_quota_count(tokens[first + 4].as_slice()) {
            entries = n;
        }
    }
    assert(shown[first as int] == tokens@[first as int]@);
    match quota_size_to_bytes(tokens[first].as_slice()) {
        Some(bytes) => Some((bytes, entries)),
        None => None,
    }
}

/// The row that the first line of `lfs quota` with an amount says.
pub open spec fn quota_rows(output: Seq<char>, user: Seq<char>) -> Seq<UsageView> {
    match first_said(lines(output), quota_reading()) {
        Some((bytes, entries)) => seq![
            UsageView { user, bytes: bytes as u64, entries: entries as u64 },
        ],
        None => seq![],
    }
}

/// What a user holds, by the first line of `lfs quota` that says it.
#[must_use]
pub fn parse_lfs_quota_user_usage(output: &str, user: &str) -> (r: Vec<DiskUserUsage>)
    ensures
        views(r@) == quota_rows(output@, user@),
{
    let chars = to_chars(output);
    let all = split_lines(chars.as_slice());
    let ghost shown = texts(all@);
    let ghost f = quota_reading();
    let mut out: Vec<DiskUserUsage> = Vec::new();
    let mut i: usize = 0;
    assert(shown.skip(0) =~= shown);
    while i < all.len()
        invariant
            i <= all@.len(),
            out@.len() == 0,
            shown == texts(all@),
            f == quota_reading(),
            first_said(lines(output@), f) == first_said(shown.skip(i as int), f),
        decreases all@.len() - i,
    {
        assert(f(shown[i as int]) == quota_line(all@[i as int]@));
        if let Some((bytes, entries)) = read_quota_line(all[i].as_slice()) {
            out.push(DiskUserUsage { user: user.to_string(), bytes, entries });
            assert(views(out@) =~= seq![UsageView { user: user@, bytes, entries }]);
            return out;
        }
        assert(shown.skip(i as int).drop_first() =~= shown.skip(i + 1));
        i += 1;
    }
    assert(views(out@) =~= seq![]);
    out
}

} // verus!
