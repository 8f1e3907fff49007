//! What the output of the disk commands means.

use vstd::prelude::*;

use crate::amount::quota_bytes;
use crate::clock::Span;
use crate::disks::df_line;
use crate::disks::disk_label;
use crate::disks::du_reading;
use crate::disks::du_rows;
use crate::disks::first_number;
use crate::disks::is_network_fs;
use crate::disks::is_parallel_fs;
use crate::disks::is_pseudo_fs;
use crate::disks::owned_blocks;
use crate::disks::percent_said;
use crate::disks::probed;
use crate::disks::quota_line;
use crate::disks::rotational_path;
use crate::disks::shares;
use crate::disks::with_entry;
use crate::disks::Probe;
use crate::disks::Share;
use crate::laws::amounts::lemma_lead;
use crate::laws::amounts::number_text;
use crate::laws::tables::law_lines;
use crate::laws::texts::law_cut_at_first;
use crate::laws::texts::law_pieces_are_runs;
use crate::laws::texts::law_trim;
use crate::laws::texts::law_words_come_back;
use crate::laws::texts::made_of;
use crate::laws::texts::without;
use crate::map::law_lookup_after_put;
use crate::map::lookup;
use crate::model::DiskLabel;
use crate::number::all_digits;
use crate::number::digits_value;
use crate::rows::first_said;
use crate::text::contains;
use crate::text::in_class;
use crate::text::is_digit;
use crate::text::is_letter;
use crate::text::is_space;
use crate::text::join;
use crate::text::lines;
use crate::text::lowercase;
use crate::text::split;
use crate::text::starts_with;
use crate::text::tail_len;
use crate::text::trim;
use crate::text::words;
use crate::text::CharClass;
use crate::usage::report_due;
use crate::usage::scan_line;
use crate::usage::ScanLine;

verus! {

/// File systems over the network, parallel ones and those that hold no files on a disk, by name.
#[verifier::rlimit(40)]
pub proof fn law_kinds_of_file_systems(name: Seq<char>)
    ensures
        is_network_fs(name) <==> seq!["nfs"@, "nfs3"@, "nfs4"@, "cifs"@, "smb"@, "smbfs"@].contains(name),
        is_parallel_fs(name) <==> seq![
            "lustre"@,
            "gpfs"@,
            "beegfs"@,
            "orangefs"@,
            "pvfs2"@,
            "cephfs"@,
            "glusterfs"@,
        ].contains(name),
        is_pseudo_fs(name) <==> seq![
            "tmpfs"@,
            "devtmpfs"@,
            "sysfs"@,
            "proc"@,
            "devpts"@,
            "cgroup"@,
            "cgroup2"@,
            "securityfs"@,
            "pstore"@,
            "efivarfs"@,
            "bpf"@,
            "autofs"@,
            "hugetlbfs"@,
            "mqueue"@,
            "debugfs"@,
            "tracefs"@,
            "fusectl"@,
            "configfs"@,
            "ramfs"@,
            "rpc_pipefs"@,
            "nsfs"@,
            "overlay"@,
        ].contains(name),
{
    let network = seq!["nfs"@, "nfs3"@, "nfs4"@, "cifs"@, "smb"@, "smbfs"@];
    let parallel = seq!["lustre"@, "gpfs"@, "beegfs"@, "orangefs"@, "pvfs2"@, "cephfs"@, "glusterfs"@];
    let pseudo = seq![
        "tmpfs"@,
        "devtmpfs"@,
        "sysfs"@,
        "proc"@,
        "devpts"@,
        "cgroup"@,
        "cgroup2"@,
        "securityfs"@,
        "pstore"@,
        "efivarfs"@,
        "bpf"@,
        "autofs"@,
        "hugetlbfs"@,
        "mqueue"@,
        "debugfs"@,
        "tracefs"@,
        "fusectl"@,
        "configfs"@,
        "ramfs"@,
        "rpc_pipefs"@,
        "nsfs"@,
        "overlay"@,
    ];
    assert(network[0] == "nfs"@ && network[1] == "nfs3"@ && network[2] == "nfs4"@ && network[3] == "cifs"@
        && network[4] == "smb"@ && network[5] == "smbfs"@);
    assert(parallel[0] == "lustre"@ && parallel[1] == "gpfs"@ && parallel[2] == "beegfs"@ && parallel[3]
        == "orangefs"@ && parallel[4] == "pvfs2"@ && parallel[5] == "cephfs"@ && parallel[6] == "glusterfs"@);
    assert(pseudo[0] == "tmpfs"@ && pseudo[1] == "devtmpfs"@ && pseudo[2] == "sysfs"@ && pseudo[3] == "proc"@
        && pseudo[4] == "devpts"@ && pseudo[5] == "cgroup"@ && pseudo[6] == "cgroup2"@ && pseudo[7]
        == "securityfs"@ && pseudo[8] == "pstore"@ && pseudo[9] == "efivarfs"@ && pseudo[10] == "bpf"@
        && pseudo[11] == "autofs"@);
    assert(pseudo[12] == "hugetlbfs"@ && pseudo[13] == "mqueue"@ && pseudo[14] == "debugfs"@ && pseudo[15]
        == "tracefs"@ && pseudo[16] == "fusectl"@ && pseudo[17] == "configfs"@ && pseudo[18] == "ramfs"@
        && pseudo[19] == "rpc_pipefs"@ && pseudo[20] == "nsfs"@ && pseudo[21] == "overlay"@);
}

/// A disk over the network is labelled so, and so is one with a parallel file system. Of the others, an
/// NVMe device is an SSD, and a device `/dev/sd` is one where its file says that it does not turn, an HDD
/// where it says anything else, and unknown without that file; any other device is unknown.
pub proof fn law_disk_labels(source: Seq<char>, fstype: Seq<char>, turns: Option<Seq<char>>)
    ensures
        is_network_fs(fstype) ==> disk_label(source, fstype, turns) == DiskLabel::Nfs,
        is_parallel_fs(fstype) && !is_network_fs(fstype) ==> disk_label(source, fstype, turns)
            == DiskLabel::ParallelFs,
        !is_parallel_fs(fstype) && !is_network_fs(fstype) ==> {
            let label = disk_label(source, fstype, turns);
            let device = starts_with(source, "/dev/sd"@);
            &&& label == DiskLabel::Ssd <==> contains(source, "nvme"@) || device && turns is Some && trim(
                turns->0,
            ) == "0"@
            &&& label == DiskLabel::Hdd <==> !contains(source, "nvme"@) && device && turns is Some && trim(
                turns->0,
            ) != "0"@
            &&& label == DiskLabel::Unknown <==> !contains(source, "nvme"@) && (!device || turns is None)
        },
{
}

/// The file that says whether a device turns is that of the device itself: its name behind `/dev/`, up
/// to the first character that is no letter.
pub proof fn law_rotational_file(letters: Seq<char>, rest: Seq<char>, fstype: Seq<char>)
    requires
        made_of(letters, CharClass::Letter),
        rest.len() > 0 ==> !is_letter(rest[0]),
        !is_network_fs(fstype),
        !is_parallel_fs(fstype),
        !contains("/dev/"@ + letters + rest, "nvme"@),
        starts_with("/dev/"@ + letters + rest, "/dev/sd"@),
    ensures
        rotational_path("/dev/"@ + letters + rest, fstype) == Some(
            "/sys/block/"@ + letters + "/queue/rotational"@,
        ),
{
    reveal_strlit("/dev/");
    let source = "/dev/"@ + letters + rest;
    assert(source.skip(5) =~= letters + rest);
    lemma_lead(letters, rest, CharClass::Letter);
}

/// Whether these are words.
pub open spec fn good_words(list: Seq<Seq<char>>) -> bool {
    forall|i: int| 0 <= i < list.len() ==> (#[trigger] list[i]).len() > 0 && without(list[i], CharClass::Space)
}

proof fn lemma_line_of_words(list: Seq<Seq<char>>)
    requires
        good_words(list),
        list.len() > 0,
    ensures
        words(join(list, " "@)) == list,
        trim(join(list, " "@)) == join(list, " "@),
        join(list, " "@).len() > 0,
    decreases list.len(),
{
    law_words_come_back(list);
    let line = join(list, " "@);
    lemma_ends(list);
    let none: Seq<char> = seq![];
    law_trim(none, line, none);
}

proof fn lemma_ends(list: Seq<Seq<char>>)
    requires
        good_words(list),
        list.len() > 0,
    ensures
        join(list, " "@).len() > 0,
        join(list, " "@)[0] == list[0][0],
        join(list, " "@).last() == list.last().last(),
        !is_space(join(list, " "@)[0]),
        !is_space(join(list, " "@).last()),
    decreases list.len(),
{
    reveal_strlit(" ");
    assert(list[0].len() > 0 && without(list[0], CharClass::Space));
    assert(list[list.len() - 1].len() > 0 && without(list[list.len() - 1], CharClass::Space));
    assert(!is_space(list[0][0]));
    assert(!is_space(list[list.len() - 1][list.last().len() - 1]));
    if list.len() > 1 {
        let fewer = list.drop_last();
        assert forall|i: int| 0 <= i < fewer.len() implies (#[trigger] fewer[i]).len() > 0 && without(
            fewer[i],
            CharClass::Space,
        ) by {
            assert(fewer[i] == list[i]);
        }
        lemma_ends(fewer);
        assert(fewer[0] == list[0]);
    }
}

/// A percentage is the number in front of its sign, where it fits in a byte.
pub proof fn law_percent(digits: Seq<char>)
    requires
        digits.len() > 0,
        all_digits(digits),
    ensures
        digits_value(digits) <= 255 ==> percent_said(digits + "%"@) == digits_value(digits),
        digits_value(digits) > 255 ==> percent_said(digits + "%"@) == 0,
{
    reveal_strlit("%");
    let word = digits + "%"@;
    assert(is_digit(digits[0]));
    assert(is_digit(digits[digits.len() - 1]));
    assert(word.last() == '%');
    assert(word.drop_last() =~= digits);
    reveal_with_fuel(tail_len, 2);
    assert(tail_len(word, CharClass::Exactly('%')) == 1);
    assert(word.take(word.len() - 1) =~= digits);
}

/// A line of `df` that is no header and lists no pseudo file system is the disk that its words say, in
/// the order source, type, size, used, available, percentage and mount point, which may be several
/// words. Headers, shorter lines and pseudo file systems list no disk.
#[verifier::rlimit(40)]
pub proof fn law_df_line(list: Seq<Seq<char>>, probes: Seq<Probe>)
    requires
        good_words(list),
        list.len() > 0,
        list.len() >= 7 ==> percent_said(list[5]) <= 255,
    ensures
        list.len() < 7 || starts_with(join(list, " "@), "Filesystem"@) || starts_with(
            join(list, " "@),
            "filesystem"@,
        ) ==> df_line(join(list, " "@), probes) is None,
        list.len() >= 7 && is_pseudo_fs(lowercase(list[1])) ==> df_line(join(list, " "@), probes) is None,
        list.len() >= 7 && !is_pseudo_fs(lowercase(list[1])) && !starts_with(join(list, " "@), "Filesystem"@)
            && !starts_with(join(list, " "@), "filesystem"@) ==> {
            &&& df_line(join(list, " "@), probes) matches Some(disk)
            &&& disk.fstype == list[1]
            &&& disk.size == list[2]
            &&& disk.used == list[3]
            &&& disk.avail == list[4]
            &&& disk.use_percent == percent_said(list[5])
            &&& list.len() == 7 ==> disk.mount == list[6]
            &&& list.len() > 7 ==> disk.mount == join(list.skip(6), " "@)
            &&& disk.label == disk_label(
                lowercase(list[0]),
                lowercase(list[1]),
                match rotational_path(lowercase(list[0]), lowercase(list[1])) {
                    Some(path) => probed(probes, path),
                    None => None,
                },
            )
        },
{
    lemma_line_of_words(list);
    if list.len() == 7 {
        assert(list.skip(6) =~= seq![list[6]]);
    }
}

/// The line of `du` is the number of bytes and the directory; the bytes are those of the user.
#[verifier::rlimit(40)]
pub proof fn law_du_output(digits: Seq<char>, path: Seq<char>, user: Seq<char>)
    requires
        number_text(digits),
        without(path, CharClass::Exactly('\n')),
    ensures
        first_number(digits + "\t"@ + path) == Some(digits_value(digits)),
        du_rows(digits + "\t"@ + path, user).len() == 1,
        du_rows(digits + "\t"@ + path, user)[0].user == user,
        du_rows(digits + "\t"@ + path, user)[0].bytes == digits_value(digits),
        du_rows(digits + "\t"@ + path, user)[0].entries == 0,
{
    reveal_strlit("\t");
    let line = digits + "\t"@ + path;
    let none: Seq<char> = seq![];
    let back = "\t"@ + path;
    assert forall|i: int| 0 <= i < digits.len() implies is_digit(#[trigger] digits[i]) by {}
    assert(without(digits, CharClass::Space));
    law_pieces_are_runs(none, digits, back, CharClass::Space);
    assert(none + digits + back =~= line);
    assert(is_digit(digits[0]));
    assert(words(line)[0] == digits);
    assert(without(line, CharClass::Exactly('\n'))) by {
        assert forall|i: int| 0 <= i < line.len() implies !in_class(CharClass::Exactly('\n'), #[trigger] line[i]) by {
            if i < digits.len() {
                assert(line[i] == digits[i]);
            } else if i > digits.len() {
                assert(line[i] == path[i - digits.len() - 1]);
            }
        }
    }
    law_lines(line, none);
    assert(lines(line) =~= seq![line]);
    let f = du_reading();
    assert(f(line) == first_number(line));
    assert(first_said(seq![line], f) == f(line)) by {
        assert(seq![line][0] == line);
    }
}

/// A line of `lfs quota` is the path where it has one, the space used and, four words later, the number
/// of files; titles are passed over.
#[verifier::rlimit(40)]
pub proof fn law_quota_line(path: Seq<Seq<char>>, list: Seq<Seq<char>>, digits: Seq<char>, more: Seq<Seq<char>>)
    requires
        good_words(path + list + seq![digits] + more),
        path.len() <= 1,
        path.len() == 1 ==> path[0][0] == '/',
        list.len() == 4,
        list[0][0] != '/',
        number_text(digits),
        !starts_with(join(path + list + seq![digits] + more, " "@), "Disk quotas"@),
        !starts_with(join(path + list + seq![digits] + more, " "@), "Filesystem"@),
        !starts_with(join(path + list + seq![digits] + more, " "@), "none"@),
    ensures
        quota_line(join(path + list + seq![digits] + more, " "@)) == match quota_bytes(list[0]) {
            Some(bytes) => Some((bytes, digits_value(digits))),
            None => None,
        },
{
    reveal_strlit("/");
    let tokens = path + list + seq![digits] + more;
    lemma_line_of_words(tokens);
    let first = path.len() as int;
    assert(tokens[first] == list[0]);
    assert(tokens[first + 4] == digits);
    assert(tokens[0].len() > 0);
    if path.len() == 1 {
        assert(tokens[0] == path[0]);
        assert(path[0].take(1) =~= "/"@);
    } else {
        assert(tokens[0] == list[0]);
        assert(list[0].take(1)[0] == list[0][0]);
    }
    assert forall|i: int| 0 <= i < digits.len() implies is_digit(#[trigger] digits[i]) by {}
    let none: Seq<char> = seq![];
    lemma_lead(digits, none, CharClass::Digit);
    assert(digits + none =~= digits);
    assert(is_digit(digits[0]));
}

/// A line of a report by user is the user, a tabulator and the number of blocks.
#[verifier::rlimit(60)]
#[verifier::spinoff_prover]
pub proof fn law_report_line(user: Seq<char>, digits: Seq<char>)
    requires
        user.len() > 0 && !is_space(user[0]) && !is_space(user.last()),
        without(user, CharClass::Exactly('\t')),
        number_text(digits),
    ensures
        owned_blocks(user + "\t"@ + digits) == Some((user, digits_value(digits))),
{
    reveal_strlit("\t");
    assert("\t"@ =~= seq!['\t']);
    let line = user + "\t"@ + digits;
    let none: Seq<char> = seq![];
    assert forall|i: int| 0 <= i < digits.len() implies is_digit(#[trigger] digits[i]) by {}
    assert(is_digit(digits[0]) && is_digit(digits[digits.len() - 1]));
    assert(line[0] == user[0] && line.last() == digits[digits.len() - 1]);
    law_trim(none, line, none);
    law_trim(none, user, none);
    law_trim(none, digits, none);
    law_cut_at_first(user, '\t', digits, CharClass::Exactly('\t'));
    law_cut_at_first(digits, '\t', none, CharClass::Exactly('\t'));
    assert(split(line, CharClass::Exactly('\t')) =~= seq![user, digits]);
}

/// A walk of a disk prints `s` for each entry, and `u` and the number of blocks for each entry of the
/// user; the user holds 512 bytes for each block.
pub proof fn law_walk_lines(digits: Seq<char>, share: Share, blocks: nat)
    requires
        number_text(digits),
        share.bytes + 512 * blocks <= u64::MAX,
        share.entries < u64::MAX,
    ensures
        scan_line("s"@) is Seen,
        scan_line("u"@ + digits) == ScanLine::Owned(digits_value(digits)),
        with_entry(share, blocks).bytes == share.bytes + 512 * blocks,
        with_entry(share, blocks).entries == share.entries + 1,
{
    reveal_strlit("s");
    reveal_strlit("u");
    let none: Seq<char> = seq![];
    law_trim(none, "s"@, none);
    assert(none + "s"@ + none =~= "s"@);
    let line = "u"@ + digits;
    assert forall|i: int| 0 <= i < digits.len() implies is_digit(#[trigger] digits[i]) by {}
    assert(is_digit(digits[0]) && is_digit(digits[digits.len() - 1]));
    assert(line[0] == 'u' && line.last() == digits[digits.len() - 1]);
    law_trim(none, line, none);
    assert(line[0] != "s"@[0]);
    assert(line.take(1) =~= "u"@);
    assert(line.skip(1) =~= digits);
}

/// A report by user gives each user the entries and the blocks of that user's lines: a line adds one
/// entry and its blocks to the share of its user, and to no other.
pub proof fn law_report_by_user(all: Seq<Seq<char>>, line: Seq<char>, name: Seq<char>)
    ensures
        lookup(shares(seq![]), name) is None,
        match owned_blocks(line) {
            Some((user, blocks)) => {
                let before = match lookup(shares(all), user) {
                    Some(share) => share,
                    None => Share { bytes: 0, entries: 0 },
                };
                &&& lookup(shares(all.push(line)), user) == Some(with_entry(before, blocks))
                &&& name != user ==> lookup(shares(all.push(line)), name) == lookup(shares(all), name)
            },
            None => lookup(shares(all.push(line)), name) == lookup(shares(all), name),
        },
{
    assert(all.push(line).drop_last() =~= all);
    if let Some((user, blocks)) = owned_blocks(line) {
        let before = match lookup(shares(all), user) {
            Some(share) => share,
            None => Share { bytes: 0, entries: 0 },
        };
        law_lookup_after_put(shares(all), user, with_entry(before, blocks), name);
    }
}

/// A walk reports after its first entry, and when 1024 entries were seen or half a second has gone by
/// since the last report.
pub proof fn law_walk_reports(scanned: u64, reported: u64, since: Span)
    requires
        reported <= scanned,
        since.nanos < 1_000_000_000,
    ensures
        report_due(scanned, reported, since) <==> scanned == 1 || scanned - reported >= 1024
            || since.secs >= 1 || since.nanos >= 500 * 1_000_000,
{
}

} // verus!
