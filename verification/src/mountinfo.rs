//! The mounted FAT partitions of a Linux system, as `/proc/self/mountinfo`
//! lists them.
use vstd::prelude::*;
use vstd::string::*;

use crate::mount;
use crate::mount::ActiveMount;
use crate::number;
use crate::text;
use crate::unix_path;

verus! {

// ---------------------------------------------------------------------------
// Escapes
// ---------------------------------------------------------------------------

/// How many of the characters behind a backslash belong to its escape.
pub open spec fn escape_length(s: Seq<char>) -> int {
    if s.len() > 3 {
        3
    } else {
        s.len() - 1
    }
}

/// A path with the octal escapes replaced: a backslash and the number of a
/// byte stand for the character with that number. A backslash before anything
/// else stays.
pub open spec fn unescaped(s: Seq<char>) -> Seq<char>
    decreases s.len(),
{
    if s.len() == 0 {
        Seq::empty()
    } else if s[0] != '\\' {
        seq![s[0]] + unescaped(s.skip(1))
    } else {
        let n = escape_length(s);
        let escape = s.subrange(1, 1 + n);
        let rest = unescaped(s.skip(1 + n));
        match number::parsed(escape, 8, 255) {
            Some(byte) => seq![byte as char] + rest,
            None => seq!['\\'] + escape + rest,
        }
    }
}

/// The path that stands in a line of mountinfo as `path`.
pub fn decode_mountinfo_path(path: &str) -> (r: String)
    ensures
        r@ == unescaped(path@),
{
    let chars: Vec<char> = text::to_chars(path);
    let n: usize = chars.len();
    let mut out: String = String::new();
    let mut i: usize = 0;
    assert(chars@.skip(0) =~= path@);
    while i < n
        invariant
            n == chars@.len(),
            i <= n,
            unescaped(path@) == out@ + unescaped(chars@.skip(i as int)),
        decreases n - i,
    {
        let ghost rest = chars@.skip(i as int);
        let ghost before = out@;
        let c: char = chars[i];
        if c != '\\' {
            out.push(c);
            i = i + 1;
            assert(rest.skip(1) =~= chars@.skip(i as int));
            assert(before + (seq![c] + unescaped(rest.skip(1))) =~= out@ + unescaped(
                rest.skip(1),
            ));
        } else {
            let length: usize = if n - i > 3 {
                3
            } else {
                n - i - 1
            };
            let escape: String = text::from_chars(&chars, i + 1, i + 1 + length);
            assert(escape@ =~= rest.subrange(1, 1 + escape_length(rest)));
            assert(rest.skip(1 + length as int) =~= chars@.skip(i + 1 + length as int));
            let ghost tail = unescaped(chars@.skip(i + 1 + length as int));
            match number::parse(escape.as_str(), 8, 255) {
                Some(byte) => {
                    out.push(byte as u8 as char);
                    assert(before + (seq![byte as char] + tail) =~= out@ + tail);
                },
                None => {
                    out.push('\\');
                    out.append(escape.as_str());
                    assert(before + (seq!['\\'] + escape@ + tail) =~= out@ + tail);
                },
            }
            i = i + 1 + length;
        }
    }
    assert(chars@.skip(i as int) =~= Seq::<char>::empty());
    assert(out@ + Seq::<char>::empty() =~= out@);
    out
}

/// How the kernel writes a character of a path: white space and backslashes
/// are escaped.
pub open spec fn escaped_char(c: char) -> Seq<char> {
    if c == ' ' {
        seq!['\\', '0', '4', '0']
    } else if c == '\t' {
        seq!['\\', '0', '1', '1']
    } else if c == '\n' {
        seq!['\\', '0', '1', '2']
    } else if c == '\\' {
        seq!['\\', '1', '3', '4']
    } else {
        seq![c]
    }
}

/// How the kernel writes a path.
pub open spec fn escaped(s: Seq<char>) -> Seq<char>
    decreases s.len(),
{
    if s.len() == 0 {
        Seq::empty()
    } else {
        escaped_char(s[0]) + escaped(s.skip(1))
    }
}

/// What a three digit octal escape stands for.
proof fn lemma_octal(a: char, b: char, c: char)
    requires
        '0' <= a <= '3',
        '0' <= b <= '7',
        '0' <= c <= '7',
    ensures
        number::parsed(seq![a, b, c], 8, 255) == Some(
            (((a as nat) - 48) * 64 + ((b as nat) - 48) * 8 + ((c as nat) - 48)) as nat,
        ),
{
    let s = seq![a, b, c];
    assert(s.drop_last() =~= seq![a, b]);
    assert(s.drop_last().drop_last() =~= seq![a]);
    assert(s.drop_last().drop_last().drop_last() =~= Seq::<char>::empty());
    reveal_with_fuel(number::digits_value, 4);
}

/// Decoding gives back the path that the kernel wrote.
pub proof fn law_decode_undoes_escape(s: Seq<char>)
    ensures
        unescaped(escaped(s)) == s,
    decreases s.len(),
{
    if s.len() > 0 {
        let c = s[0];
        let head = escaped_char(c);
        let tail = escaped(s.skip(1));
        let all = head + tail;
        law_decode_undoes_escape(s.skip(1));
        if head.len() == 1 {
            assert(all.skip(1) =~= tail);
        } else {
            assert(all.subrange(1, 4) =~= seq![head[1], head[2], head[3]]);
            assert(all.skip(4) =~= tail);
            lemma_octal(head[1], head[2], head[3]);
        }
        assert(seq![c] + s.skip(1) =~= s);
    }
}

/// A path without a backslash stands for itself.
pub proof fn law_decode_keeps_plain_paths(s: Seq<char>)
    requires
        !s.contains('\\'),
    ensures
        unescaped(s) == s,
    decreases s.len(),
{
    if s.len() > 0 {
        assert(s.contains(s[0]));
        assert forall|c: char| s.skip(1).contains(c) implies s.contains(c) by {
            let i = choose|i: int| 0 <= i < s.skip(1).len() && s.skip(1)[i] == c;
            assert(s[i + 1] == c);
        }
        law_decode_keeps_plain_paths(s.skip(1));
        assert(seq![s[0]] + s.skip(1) =~= s);
    }
}

// ---------------------------------------------------------------------------
// FAT partitions
// ---------------------------------------------------------------------------

/// The names of the FAT file systems.
pub open spec fn fat_filesystem(name: Seq<char>) -> bool {
    ||| name == "vfat"@
    ||| name == "fat"@
    ||| name == "fat12"@
    ||| name == "fat16"@
    ||| name == "fat32"@
    ||| name == "exfat"@
}

/// Whether `name` names a FAT file system.
pub fn is_fat_filesystem(name: &str) -> (r: bool)
    ensures
        r == fat_filesystem(name@),
{
    text::same_text(name, "vfat") || text::same_text(name, "fat") || text::same_text(name, "fat12")
        || text::same_text(name, "fat16") || text::same_text(name, "fat32") || text::same_text(
        name,
        "exfat",
    )
}

/// A mounted FAT partition.
#[derive(Debug, PartialEq, Eq)]
pub struct FatMount {
    pub mountpoint: String,
    pub device: String,
    pub read_only: bool,
}

/// What a `FatMount` says.
pub struct FatMountView {
    pub mountpoint: Seq<char>,
    pub device: Seq<char>,
    pub read_only: bool,
}

impl DeepView for FatMount {
    type V = FatMountView;

    open spec fn deep_view(&self) -> FatMountView {
        FatMountView {
            mountpoint: self.mountpoint@,
            device: self.device@,
            read_only: self.read_only,
        }
    }
}

/// The place of the first field that is a single dash: behind it the file
/// system and the device stand.
pub open spec fn separator(fields: Seq<Seq<char>>) -> int
    decreases fields.len(),
{
    if fields.len() == 0 || fields[0] == "-"@ {
        0
    } else {
        1 + separator(fields.skip(1))
    }
}

/// The FAT partition in a line, if there is one.
pub open spec fn fat_mount(line: Seq<char>) -> Option<FatMountView> {
    let fields = text::words(line);
    let at = separator(fields);
    if fields.len() > 5 && fields.len() > at + 2 && fat_filesystem(fields[at + 1]) {
        Some(
            FatMountView {
                mountpoint: unescaped(fields[4]),
                device: unescaped(fields[at + 2]),
                read_only: text::pieces(fields[5], ',').contains("ro"@),
            },
        )
    } else {
        None
    }
}

/// The FAT partitions in the lines of a text, in order.
pub open spec fn fat_mounts_in(lines: Seq<Seq<char>>) -> Seq<FatMountView>
    decreases lines.len(),
{
    if lines.len() == 0 {
        Seq::empty()
    } else {
        let before = fat_mounts_in(lines.drop_last());
        match fat_mount(lines.last()) {
            Some(found) => before.push(found),
            None => before,
        }
    }
}

/// The place of the first of `fields` that is a single dash.
fn find_separator(fields: &Vec<String>) -> (r: usize)
    ensures
        r == separator(fields.deep_view()),
        r <= fields@.len(),
{
    let ghost all = fields.deep_view();
    let mut i: usize = 0;
    assert(all.skip(0) =~= all);
    while i < fields.len()
        invariant
            i <= fields@.len(),
            all == fields.deep_view(),
            separator(all) == i + separator(all.skip(i as int)),
        decreases fields@.len() - i,
    {
        assert(all.skip(i as int)[0] == fields@[i as int]@);
        assert(all.skip(i as int).skip(1) =~= all.skip(i as int + 1));
        if text::same_text(fields[i].as_str(), "-") {
            return i;
        }
        i = i + 1;
    }
    i
}

/// Whether `wanted` is one of the comma separated `options`.
fn has_option(options: &str, wanted: &str) -> (r: bool)
    ensures
        r == text::pieces(options@, ',').contains(wanted@),
{
    let all: Vec<String> = text::split(options, ',');
    let mut i: usize = 0;
    while i < all.len()
        invariant
            i <= all@.len(),
            all.deep_view() == text::pieces(options@, ','),
            forall|j: int| 0 <= j < i ==> #[trigger] all.deep_view()[j] != wanted@,
        decreases all@.len() - i,
    {
        assert(all.deep_view()[i as int] == all@[i as int]@);
        if text::same_text(all[i].as_str(), wanted) {
            return true;
        }
        i = i + 1;
    }
    false
}

/// The FAT partition in `line`, if there is one.
fn read_line(line: &str) -> (r: Option<FatMount>)
    ensures
        r.deep_view() == fat_mount(line@),
{
    let fields: Vec<String> = text::split_whitespace(line);
    let at: usize = find_separator(&fields);
    let n: usize = fields.len();
    assert(forall|j: int| 0 <= j < n ==> fields.deep_view()[j] == fields@[j]@);
    if n > 5 && at < n && n - at > 2 && is_fat_filesystem(fields[at + 1].as_str()) {
        Some(
            FatMount {
                mountpoint: decode_mountinfo_path(fields[4].as_str()),
                device: decode_mountinfo_path(fields[at + 2].as_str()),
                read_only: has_option(fields[5].as_str(), "ro"),
            },
        )
    } else {
        None
    }
}

/// The FAT partitions that the text of mountinfo lists, in order.
pub fn fat_mounts(mountinfo: &str) -> (r: Vec<FatMount>)
    ensures
        r.deep_view() == fat_mounts_in(text::text_lines(mountinfo@)),
{
    let lines: Vec<String> = text::lines(mountinfo);
    let ghost all = lines.deep_view();
    let mut out: Vec<FatMount> = Vec::new();
    let mut i: usize = 0;
    assert(out.deep_view() =~= Seq::empty());
    assert(all.take(0) =~= Seq::empty());
    while i < lines.len()
        invariant
            i <= lines@.len(),
            all == lines.deep_view(),
            out.deep_view() == fat_mounts_in(all.take(i as int)),
        decreases lines@.len() - i,
    {
        let ghost before = out.deep_view();
        assert(all.take(i as int + 1).drop_last() =~= all.take(i as int));
        assert(all.take(i as int + 1).last() == lines@[i as int]@);
        if let Some(found) = read_line(lines[i].as_str()) {
            let ghost found_view = found.deep_view();
            out.push(found);
            assert(out.deep_view() =~= before.push(found_view));
        }
        i = i + 1;
    }
    assert(all.take(i as int) =~= all);
    out
}

// ---------------------------------------------------------------------------
// Candidates
// ---------------------------------------------------------------------------

/// The switcher mounts partitions in the directory for temporary files, under
/// a name of its own.
pub open spec fn owned_mountpoint(mountpoint: Seq<char>, temp_dir: Seq<char>) -> bool {
    &&& unix_path::lies_in(mountpoint, temp_dir)
    &&& unix_path::last_name(mountpoint) is Some
    &&& text::begins_with(unix_path::last_name(mountpoint)->0, "refind-switcher-"@)
}

/// Whether the switcher itself mounted what is at `mountpoint`.
pub fn is_owned_mountpoint(mountpoint: &str, temp_dir: &str) -> (r: bool)
    ensures
        r == owned_mountpoint(mountpoint@, temp_dir@),
{
    if !unix_path::starts_with(mountpoint, temp_dir) {
        return false;
    }
    match unix_path::file_name(mountpoint) {
        Some(name) => text::starts_with(name.as_str(), "refind-switcher-"),
        None => false,
    }
}

/// The name of the directory at which the process `pid` mounts partitions.
pub open spec fn own_mountpoint(pid: nat) -> Seq<char> {
    "refind-switcher-"@ + number::numeral(pid)
}

/// The name of the directory, among those for temporary files, at which the
/// process `pid` mounts partitions.
pub fn mountpoint_name(pid: u32) -> (r: String)
    ensures
        r@ == own_mountpoint(pid as nat),
{
    text::concat("refind-switcher-", number::decimal(pid as u128).as_str())
}

/// What the switcher mounts, whichever process did, is found again as its own.
pub proof fn law_own_mountpoint_is_recognised(temp_dir: Seq<char>, pid: nat)
    ensures
        owned_mountpoint(unix_path::below(temp_dir, own_mountpoint(pid)), temp_dir),
{
    let name = own_mountpoint(pid);
    let head = "refind-switcher-"@;
    reveal_strlit("refind-switcher-");
    number::law_numeral_holds_digits(pid);
    assert(head.len() == 16);
    assert(name.take(16) =~= head);
    assert forall|i: int| 0 <= i < name.len() implies name[i] != '/' by {
        if i < 16 {
            assert(name[i] == head[i]);
        } else {
            assert(name[i] == number::numeral(pid)[i - 16]);
        }
    }
    unix_path::law_joined_name_lies_below(temp_dir, name);
}

/// A directory of variables on a mounted partition. The partition is named
/// where it must be remounted or unmounted.
#[derive(Debug, PartialEq, Eq)]
pub struct MountedScanCandidate {
    pub vars_dir: String,
    pub active_mount: Option<ActiveMount>,
}

/// What a `MountedScanCandidate` says.
pub struct CandidateView {
    pub vars_dir: Seq<char>,
    pub active_mount: Option<mount::MountView>,
}

impl DeepView for MountedScanCandidate {
    type V = CandidateView;

    open spec fn deep_view(&self) -> CandidateView {
        CandidateView { vars_dir: self.vars_dir@, active_mount: self.active_mount.deep_view() }
    }
}

impl Clone for MountedScanCandidate {
    fn clone(&self) -> (r: Self)
        ensures
            r == *self,
    {
        MountedScanCandidate {
            vars_dir: self.vars_dir.clone(),
            active_mount: match &self.active_mount {
                Some(mount) => Some(mount.clone()),
                None => None,
            },
        }
    }
}

/// A mounted FAT partition and the directory of variables on it, if there is
/// one.
#[derive(Debug, PartialEq, Eq)]
pub struct ResolvedMount {
    pub mount: FatMount,
    pub vars_dir: Option<String>,
}

/// What a `ResolvedMount` says.
pub struct ResolvedView {
    pub mount: FatMountView,
    pub vars_dir: Option<Seq<char>>,
}

impl DeepView for ResolvedMount {
    type V = ResolvedView;

    open spec fn deep_view(&self) -> ResolvedView {
        ResolvedView { mount: self.mount.deep_view(), vars_dir: self.vars_dir.deep_view() }
    }
}

/// One of `candidates` has the directory `vars_dir`.
pub open spec fn listed(candidates: Seq<CandidateView>, vars_dir: Seq<char>) -> bool {
    exists|i: int| 0 <= i < candidates.len() && (#[trigger] candidates[i]).vars_dir == vars_dir
}

/// The mount that goes with a candidate: a partition that is mounted read-only
/// must be remounted, and one that the switcher mounted must be unmounted.
pub open spec fn needed_mount(mount: FatMountView, temp_dir: Seq<char>) -> Option<mount::MountView> {
    let owned = owned_mountpoint(mount.mountpoint, temp_dir);
    if owned || mount.read_only {
        Some(mount::MountView { device: mount.device, mountpoint: mount.mountpoint, owned })
    } else {
        None
    }
}

/// A partition that is mounted for writing, and not by the switcher, is written
/// without being mounted again.
pub proof fn law_writable_partition_is_left_alone(mount: FatMountView, temp_dir: Seq<char>)
    ensures
        needed_mount(mount, temp_dir) is None <==> !mount.read_only && !owned_mountpoint(
            mount.mountpoint,
            temp_dir,
        ),
{
}

/// The candidates on mounted partitions: of partitions with the same directory
/// of variables, the first.
pub open spec fn candidates_on(
    mounts: Seq<ResolvedView>,
    temp_dir: Seq<char>,
) -> Seq<CandidateView>
    decreases mounts.len(),
{
    if mounts.len() == 0 {
        Seq::empty()
    } else {
        let before = candidates_on(mounts.drop_last(), temp_dir);
        match mounts.last().vars_dir {
            Some(vars_dir) if !listed(before, vars_dir) => before.push(
                CandidateView {
                    vars_dir,
                    active_mount: needed_mount(mounts.last().mount, temp_dir),
                },
            ),
            _ => before,
        }
    }
}

/// Whether one of `candidates` has the directory `vars_dir`.
fn is_listed(candidates: &Vec<MountedScanCandidate>, vars_dir: &str) -> (r: bool)
    ensures
        r == listed(candidates.deep_view(), vars_dir@),
{
    let mut i: usize = 0;
    while i < candidates.len()
        invariant
            i <= candidates@.len(),
            forall|j: int|
                0 <= j < i ==> (#[trigger] candidates.deep_view()[j]).vars_dir != vars_dir@,
        decreases candidates@.len() - i,
    {
        assert(candidates.deep_view()[i as int] == candidates@[i as int].deep_view());
        if text::same_text(candidates[i].vars_dir.as_str(), vars_dir) {
            return true;
        }
        i = i + 1;
    }
    false
}

/// The candidates on the mounted partitions `mounts`.
pub fn mounted_scan_candidates(mounts: Vec<ResolvedMount>, temp_dir: &str) -> (r: Vec<
    MountedScanCandidate,
>)
    ensures
        r.deep_view() == candidates_on(mounts.deep_view(), temp_dir@),
{
    let ghost all = mounts.deep_view();
    let mut out: Vec<MountedScanCandidate> = Vec::new();
    let mut i: usize = 0;
    assert(out.deep_view() =~= Seq::empty());
    assert(all.take(0) =~= Seq::empty());
    while i < mounts.len()
        invariant
            i <= mounts@.len(),
            all == mounts.deep_view(),
            out.deep_view() == candidates_on(all.take(i as int), temp_dir@),
        decreases mounts@.len() - i,
    {
        let ghost before = out.deep_view();
        let next: &ResolvedMount = &mounts[i];
        assert(all.take(i as int + 1).drop_last() =~= all.take(i as int));
        assert(all.take(i as int + 1).last() == next.deep_view());
        if let Some(vars_dir) = &next.vars_dir {
            if !is_listed(&out, vars_dir.as_str()) {
                let owned: bool = is_owned_mountpoint(next.mount.mountpoint.as_str(), temp_dir);
                let active_mount: Option<ActiveMount> = if owned || next.mount.read_only {
                    Some(
                        ActiveMount {
                            device: next.mount.device.clone(),
                            mountpoint: next.mount.mountpoint.clone(),
                            owned,
                        },
                    )
                } else {
                    None
                };
                let candidate: MountedScanCandidate = MountedScanCandidate {
                    vars_dir: vars_dir.clone(),
                    active_mount,
                };
                let ghost added = candidate.deep_view();
                out.push(candidate);
                assert(out.deep_view() =~= before.push(added));
            }
        }
        i = i + 1;
    }
    assert(all.take(i as int) =~= all);
    out
}

/// The candidates where nothing is known of the partitions.
pub open spec fn plain_candidates(directories: Seq<Seq<char>>) -> Seq<CandidateView> {
    directories.map_values(
        |vars_dir: Seq<char>| CandidateView { vars_dir, active_mount: None },
    )
}

/// The candidates in `directories`, where nothing is known of the partitions.
pub fn directory_scan_candidates(directories: &Vec<String>) -> (r: Vec<MountedScanCandidate>)
    ensures
        r.deep_view() == plain_candidates(directories.deep_view()),
{
    let mut out: Vec<MountedScanCandidate> = Vec::new();
    let mut i: usize = 0;
    let ghost all = plain_candidates(directories.deep_view());
    while i < directories.len()
        invariant
            i <= directories@.len(),
            all == plain_candidates(directories.deep_view()),
            out.deep_view() == all.take(i as int),
        decreases directories@.len() - i,
    {
        let ghost before = out.deep_view();
        let candidate: MountedScanCandidate = MountedScanCandidate {
            vars_dir: directories[i].clone(),
            active_mount: None,
        };
        let ghost added = candidate.deep_view();
        out.push(candidate);
        assert(all[i as int] == added);
        i = i + 1;
        assert(out.deep_view() =~= before.push(added));
        assert(out.deep_view() =~= all.take(i as int));
    }
    assert(all.take(i as int) =~= all);
    out
}

/// The first mount of `candidates` on which the directory lies.
pub open spec fn mount_under(
    candidates: Seq<CandidateView>,
    directory: Seq<char>,
    resolved: Seq<char>,
) -> Option<mount::MountView>
    decreases candidates.len(),
{
    if candidates.len() == 0 {
        None
    } else {
        match candidates[0].active_mount {
            Some(found) if unix_path::lies_in(resolved, found.mountpoint) || unix_path::lies_in(
                directory,
                found.mountpoint,
            ) => Some(found),
            _ => mount_under(candidates.skip(1), directory, resolved),
        }
    }
}

/// The mount of `candidates` on which `directory` (`resolved`, once links are
/// followed) lies.
pub fn active_mount_for_directory(
    candidates: &Vec<MountedScanCandidate>,
    directory: &str,
    resolved: &str,
) -> (r: Option<ActiveMount>)
    ensures
        r.deep_view() == mount_under(candidates.deep_view(), directory@, resolved@),
{
    let ghost all = candidates.deep_view();
    let mut i: usize = 0;
    assert(all.skip(0) =~= all);
    while i < candidates.len()
        invariant
            i <= candidates@.len(),
            all == candidates.deep_view(),
            mount_under(all, directory@, resolved@) == mount_under(
                all.skip(i as int),
                directory@,
                resolved@,
            ),
        decreases candidates@.len() - i,
    {
        assert(all.skip(i as int)[0] == candidates@[i as int].deep_view());
        assert(all.skip(i as int).skip(1) =~= all.skip(i as int + 1));
        if let Some(mount) = &candidates[i].active_mount {
            if unix_path::starts_with(resolved, mount.mountpoint.as_str())
                || unix_path::starts_with(directory, mount.mountpoint.as_str()) {
                return Some(mount.clone());
            }
        }
        i = i + 1;
    }
    None
}

/// No directory is a candidate twice, and every directory that was found is a
/// candidate.
pub proof fn law_candidates_are_distinct(mounts: Seq<ResolvedView>, temp_dir: Seq<char>)
    ensures
        forall|i: int, j: int|
            0 <= i < j < candidates_on(mounts, temp_dir).len() ==> (#[trigger] candidates_on(
                mounts,
                temp_dir,
            )[i]).vars_dir != (#[trigger] candidates_on(mounts, temp_dir)[j]).vars_dir,
        forall|k: int|
            0 <= k < mounts.len() && (#[trigger] mounts[k]).vars_dir is Some ==> listed(
                candidates_on(mounts, temp_dir),
                mounts[k].vars_dir->0,
            ),
    decreases mounts.len(),
{
    if mounts.len() > 0 {
        let front = mounts.drop_last();
        let before = candidates_on(front, temp_dir);
        let all = candidates_on(mounts, temp_dir);
        law_candidates_are_distinct(front, temp_dir);
        assert forall|k: int| 0 <= k < mounts.len() && (#[trigger] mounts[k]).vars_dir is Some
            implies listed(all, mounts[k].vars_dir->0) by {
            let dir = mounts[k].vars_dir->0;
            if k < front.len() {
                assert(front[k] == mounts[k]);
                assert(listed(before, dir));
                let i = choose|i: int|
                    0 <= i < before.len() && (#[trigger] before[i]).vars_dir == dir;
                assert(all[i] == before[i]);
            } else if listed(before, dir) {
                let i = choose|i: int|
                    0 <= i < before.len() && (#[trigger] before[i]).vars_dir == dir;
                assert(all[i] == before[i]);
            } else {
                assert(all[before.len() as int].vars_dir == dir);
            }
        }
    }
}

/// A character that is no backslash stands for itself.
pub proof fn law_decode_keeps_other_characters(c: char, rest: Seq<char>)
    requires
        c != '\\',
    ensures
        unescaped(seq![c] + rest) == seq![c] + unescaped(rest),
{
    assert((seq![c] + rest).skip(1) =~= rest);
}

/// A backslash and three characters that are the octal number of a byte stand for the
/// character with that number; with three that are not, they stand for themselves.
/// Either way what follows is decoded on its own.
pub proof fn law_decode_reads_three_octal_digits(a: char, b: char, c: char, rest: Seq<char>)
    ensures
        ({
            let escape = seq![a, b, c];
            unescaped(seq!['\\'] + escape + rest) == match number::parsed(escape, 8, 255) {
                Some(byte) => seq![byte as char] + unescaped(rest),
                None => seq!['\\'] + escape + unescaped(rest),
            }
        }),
        '0' <= a <= '3' && '0' <= b <= '7' && '0' <= c <= '7' ==> number::parsed(
            seq![a, b, c],
            8,
            255,
        ) == Some((((a as nat) - 48) * 64 + ((b as nat) - 48) * 8 + ((c as nat) - 48)) as nat),
{
    let escape = seq![a, b, c];
    let s = seq!['\\'] + escape + rest;
    assert(s.subrange(1, 4) =~= escape);
    assert(s.skip(4) =~= rest);
    if '0' <= a <= '3' && '0' <= b <= '7' && '0' <= c <= '7' {
        lemma_octal(a, b, c);
    }
}

/// At the end of a path, a backslash is read with what is left, and stands for itself
/// where that is no octal number of a byte.
pub proof fn law_decode_reads_a_short_escape(escape: Seq<char>)
    requires
        escape.len() < 3,
    ensures
        unescaped(seq!['\\'] + escape) == match number::parsed(escape, 8, 255) {
            Some(byte) => seq![byte as char],
            None => seq!['\\'] + escape,
        },
{
    let s = seq!['\\'] + escape;
    assert(s.subrange(1, 1 + escape.len() as int) =~= escape);
    assert(s.skip(1 + escape.len() as int) =~= Seq::empty());
    assert(unescaped(Seq::<char>::empty()) =~= Seq::empty());
    assert(unescaped(s) =~= match number::parsed(escape, 8, 255) {
        Some(byte) => seq![byte as char],
        None => seq!['\\'] + escape,
    });
}

/// These file systems are FAT, and no others.
pub proof fn law_fat_filesystems_are_listed(name: Seq<char>)
    ensures
        fat_filesystem(name) <==> seq![
            "vfat"@,
            "fat"@,
            "fat12"@,
            "fat16"@,
            "fat32"@,
            "exfat"@,
        ].contains(name),
{
    let all = seq!["vfat"@, "fat"@, "fat12"@, "fat16"@, "fat32"@, "exfat"@];
    assert(all[0] == "vfat"@ && all[1] == "fat"@ && all[2] == "fat12"@);
    assert(all[3] == "fat16"@ && all[4] == "fat32"@ && all[5] == "exfat"@);
}

/// The dash is the first field that is one.
proof fn lemma_separator(fields: Seq<Seq<char>>, k: int)
    requires
        0 <= k <= fields.len(),
        forall|i: int| 0 <= i < k ==> #[trigger] fields[i] != "-"@,
        k < fields.len() ==> fields[k] == "-"@,
    ensures
        separator(fields) == k,
    decreases fields.len(),
{
    if fields.len() > 0 && k > 0 {
        let rest = fields.skip(1);
        assert(fields[0] != "-"@);
        assert forall|i: int| 0 <= i < k - 1 implies #[trigger] rest[i] != "-"@ by {
            assert(rest[i] == fields[i + 1]);
        }
        lemma_separator(rest, k - 1);
    }
}

/// A line tells of a FAT partition by its words: the fifth is the mountpoint, the sixth
/// the options, and behind the first single dash stand the file system and the device.
/// Where one of them is missing, or the file system is another, it tells of none.
pub proof fn law_line_tells_of_a_partition(line: Seq<char>, k: int)
    requires
        0 <= k <= text::words(line).len(),
        forall|i: int| 0 <= i < k ==> #[trigger] text::words(line)[i] != "-"@,
        k < text::words(line).len() ==> text::words(line)[k] == "-"@,
    ensures
        ({
            let words = text::words(line);
            let told = words.len() >= 6 && words.len() >= k + 3 && fat_filesystem(words[k + 1]);
            &&& fat_mount(line) is Some <==> told
            &&& told ==> fat_mount(line)->0.mountpoint == unescaped(words[4])
            &&& told ==> fat_mount(line)->0.device == unescaped(words[k + 2])
            &&& told ==> (fat_mount(line)->0.read_only <==> text::pieces(words[5], ',').contains(
                "ro"@,
            ))
        }),
{
    lemma_separator(text::words(line), k);
}

/// The partitions of some lines are those of each of them, in order.
pub proof fn law_partitions_are_those_of_the_lines(a: Seq<Seq<char>>, b: Seq<Seq<char>>)
    ensures
        fat_mounts_in(a + b) == fat_mounts_in(a) + fat_mounts_in(b),
        forall|line: Seq<char>| #[trigger] fat_mounts_in(seq![line]) == match fat_mount(line) {
            Some(found) => seq![found],
            None => Seq::empty(),
        },
    decreases b.len(),
{
    assert forall|line: Seq<char>| #[trigger] fat_mounts_in(seq![line]) == match fat_mount(line) {
        Some(found) => seq![found],
        None => Seq::empty(),
    } by {
        assert(seq![line].drop_last() =~= Seq::empty());
        reveal_with_fuel(fat_mounts_in, 2);
        assert(fat_mounts_in(Seq::empty()) =~= Seq::empty());
        assert(fat_mounts_in(seq![line]) =~= match fat_mount(line) {
            Some(found) => seq![found],
            None => Seq::empty(),
        });
    }
    if b.len() == 0 {
        assert(a + b =~= a);
        assert(fat_mounts_in(a + b) =~= fat_mounts_in(a) + fat_mounts_in(b));
    } else {
        law_partitions_are_those_of_the_lines(a, b.drop_last());
        assert((a + b).drop_last() =~= a + b.drop_last());
        assert((a + b).last() == b.last());
        assert(fat_mounts_in(a + b) =~= fat_mounts_in(a) + fat_mounts_in(b));
    }
}

/// A mountpoint is the switcher's own just where it lies in the directory for
/// temporary files and its name begins as the switcher's names do.
pub proof fn law_own_mountpoints_go_by_place_and_name(
    mountpoint: Seq<char>,
    temp_dir: Seq<char>,
)
    ensures
        owned_mountpoint(mountpoint, temp_dir) <==> unix_path::lies_in(mountpoint, temp_dir)
            && exists|rest: Seq<char>|
            unix_path::last_name(mountpoint) == Some(#[trigger] ("refind-switcher-"@ + rest)),
{
    let head = "refind-switcher-"@;
    if owned_mountpoint(mountpoint, temp_dir) {
        let name = unix_path::last_name(mountpoint)->0;
        let rest = name.skip(head.len() as int);
        text::law_beginning_is_what_is_put_in_front(name, head, rest);
        assert(unix_path::last_name(mountpoint) == Some(head + rest));
    }
    if exists|rest: Seq<char>| unix_path::last_name(mountpoint) == Some(#[trigger] (head + rest)) {
        let rest = choose|rest: Seq<char>|
            unix_path::last_name(mountpoint) == Some(#[trigger] (head + rest));
        text::law_beginning_is_what_is_put_in_front(head + rest, head, rest);
    }
}

/// The mount that goes with a partition names its device and its mountpoint, and is
/// marked as the switcher's own just where the mountpoint is, whatever the mode.
/// There is none just where the partition can be written and is not the switcher's.
pub proof fn law_needed_mount_is_that_of_the_partition(mount: FatMountView, temp_dir: Seq<char>)
    ensures
        needed_mount(mount, temp_dir) is Some <==> mount.read_only || owned_mountpoint(
            mount.mountpoint,
            temp_dir,
        ),
        needed_mount(mount, temp_dir) matches Some(needed) ==> {
            &&& needed.device == mount.device
            &&& needed.mountpoint == mount.mountpoint
            &&& needed.owned <==> owned_mountpoint(mount.mountpoint, temp_dir)
        },
{
}

/// The partition in place `k` is the first with its directory of variables.
pub open spec fn first_with_directory(
    mounts: Seq<ResolvedView>,
    k: int,
    vars_dir: Seq<char>,
) -> bool {
    &&& 0 <= k < mounts.len()
    &&& mounts[k].vars_dir == Some(vars_dir)
    &&& forall|j: int| 0 <= j < k ==> (#[trigger] mounts[j]).vars_dir != Some(vars_dir)
}

/// Every candidate is the directory of the first partition that has it, with the mount
/// of that partition: device and mountpoint are its own, it is marked as the
/// switcher's just where the mountpoint is, and there is none where nothing has to be
/// mounted or unmounted.
pub proof fn law_candidates_go_with_their_partitions(
    mounts: Seq<ResolvedView>,
    temp_dir: Seq<char>,
    i: int,
)
    requires
        0 <= i < candidates_on(mounts, temp_dir).len(),
    ensures
        ({
            let candidate = candidates_on(mounts, temp_dir)[i];
            exists|k: int|
                #[trigger] first_with_directory(mounts, k, candidate.vars_dir) && {
                    let mount = mounts[k].mount;
                    let owned = owned_mountpoint(mount.mountpoint, temp_dir);
                    candidate.active_mount == if owned || mount.read_only {
                        Some(
                            mount::MountView {
                                device: mount.device,
                                mountpoint: mount.mountpoint,
                                owned,
                            },
                        )
                    } else {
                        None
                    }
                }
        }),
    decreases mounts.len(),
{
    let all = candidates_on(mounts, temp_dir);
    let front = mounts.drop_last();
    let before = candidates_on(front, temp_dir);
    let candidate = all[i];
    if i < before.len() {
        assert(all[i] == before[i]);
        law_candidates_go_with_their_partitions(front, temp_dir, i);
        let k = choose|k: int|
            #[trigger] first_with_directory(front, k, candidate.vars_dir) && {
                let mount = front[k].mount;
                let owned = owned_mountpoint(mount.mountpoint, temp_dir);
                candidate.active_mount == if owned || mount.read_only {
                    Some(
                        mount::MountView {
                            device: mount.device,
                            mountpoint: mount.mountpoint,
                            owned,
                        },
                    )
                } else {
                    None
                }
            };
        assert(mounts[k] == front[k]);
        assert forall|j: int| 0 <= j < k implies (#[trigger] mounts[j]).vars_dir != Some(
            candidate.vars_dir,
        ) by {
            assert(front[j] == mounts[j]);
        }
        assert(first_with_directory(mounts, k, candidate.vars_dir));
    } else {
        let k = mounts.len() - 1;
        assert(mounts[k] == mounts.last());
        law_candidates_are_distinct(front, temp_dir);
        assert forall|j: int| 0 <= j < k implies (#[trigger] mounts[j]).vars_dir != Some(
            candidate.vars_dir,
        ) by {
            assert(front[j] == mounts[j]);
            if front[j].vars_dir == Some(candidate.vars_dir) {
                assert(listed(before, candidate.vars_dir));
            }
        }
        assert(first_with_directory(mounts, k, candidate.vars_dir));
    }
}

/// Further partitions come behind: they change none of the candidates that are there.
pub proof fn law_candidates_keep_their_order(mounts: Seq<ResolvedView>, next: ResolvedView, temp_dir: Seq<char>)
    ensures
        ({
            let before = candidates_on(mounts, temp_dir);
            let all = candidates_on(mounts.push(next), temp_dir);
            &&& before.len() <= all.len() <= before.len() + 1
            &&& all.take(before.len() as int) == before
        }),
{
    assert(mounts.push(next).drop_last() =~= mounts);
    let before = candidates_on(mounts, temp_dir);
    let all = candidates_on(mounts.push(next), temp_dir);
    assert(all.take(before.len() as int) =~= before);
}

/// Where nothing is known of the partitions, every directory is a candidate without a
/// mount, in order.
pub proof fn law_plain_candidates_have_no_mount(directories: Seq<Seq<char>>)
    ensures
        plain_candidates(directories).len() == directories.len(),
        forall|i: int|
            0 <= i < directories.len() ==> (#[trigger] plain_candidates(directories)[i]).vars_dir
                == directories[i] && plain_candidates(directories)[i].active_mount is None,
{
}

/// The mount under a directory is that of the first candidate whose mountpoint the
/// directory lies in, with links followed or not; there is none just where there is no
/// such candidate.
pub proof fn law_mount_under_a_directory(
    candidates: Seq<CandidateView>,
    directory: Seq<char>,
    resolved: Seq<char>,
)
    ensures
        match mount_under(candidates, directory, resolved) {
            Some(found) => exists|i: int|
                0 <= i < candidates.len() && (#[trigger] candidates[i]).active_mount == Some(found)
                    && holds_directory(candidates[i], directory, resolved) && (forall|j: int|
                    0 <= j < i ==> !holds_directory(#[trigger] candidates[j], directory, resolved)),
            None => forall|i: int|
                0 <= i < candidates.len() ==> !holds_directory(
                    #[trigger] candidates[i],
                    directory,
                    resolved,
                ),
        },
    decreases candidates.len(),
{
    if candidates.len() > 0 && !holds_directory(candidates[0], directory, resolved) {
        let rest = candidates.skip(1);
        law_mount_under_a_directory(rest, directory, resolved);
        match mount_under(rest, directory, resolved) {
            Some(found) => {
                let i = choose|i: int|
                    0 <= i < rest.len() && (#[trigger] rest[i]).active_mount == Some(found)
                        && holds_directory(rest[i], directory, resolved) && (forall|j: int|
                        0 <= j < i ==> !holds_directory(#[trigger] rest[j], directory, resolved));
                assert(candidates[i + 1] == rest[i]);
                assert forall|j: int| 0 <= j < i + 1 implies !holds_directory(
                    #[trigger] candidates[j],
                    directory,
                    resolved,
                ) by {
                    if j > 0 {
                        assert(candidates[j] == rest[j - 1]);
                    }
                }
            },
            None => {
                assert forall|i: int| 0 <= i < candidates.len() implies !holds_directory(
                    #[trigger] candidates[i],
                    directory,
                    resolved,
                ) by {
                    if i > 0 {
                        assert(candidates[i] == rest[i - 1]);
                    }
                }
            },
        }
    }
}

/// The partition of a candidate holds a directory.
pub open spec fn holds_directory(
    candidate: CandidateView,
    directory: Seq<char>,
    resolved: Seq<char>,
) -> bool {
    candidate.active_mount is Some && (unix_path::lies_in(
        resolved,
        candidate.active_mount->0.mountpoint,
    ) || unix_path::lies_in(directory, candidate.active_mount->0.mountpoint))
}

/// Each process mounts at a place of its own, whose name tells its number.
pub proof fn law_processes_mount_at_different_places(pid: nat, other: nat)
    ensures
        own_mountpoint(pid) == own_mountpoint(other) ==> pid == other,
        text::begins_with(own_mountpoint(pid), "refind-switcher-"@),
        number::parsed(own_mountpoint(pid).skip(16), 10, pid) == Some(pid),
{
    reveal_strlit("refind-switcher-");
    assert("refind-switcher-"@.len() == 16);
    assert(own_mountpoint(pid).skip(16) =~= number::numeral(pid));
    assert(own_mountpoint(other).skip(16) =~= number::numeral(other));
    assert(own_mountpoint(pid).take(16) =~= "refind-switcher-"@);
    number::law_numeral_is_read_back(pid, pid);
    if own_mountpoint(pid) == own_mountpoint(other) {
        number::law_numerals_are_distinct(pid, other);
    }
}

} // verus!
