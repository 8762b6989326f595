//! Where the directory of variables is looked for.
use vstd::prelude::*;
use vstd::string::*;

use crate::command::Platform;
use crate::mount;
use crate::mount::ActiveMount;
use crate::mountinfo;
use crate::mountinfo::MountedScanCandidate;
use crate::paths;
use crate::text;
use crate::variables;
use crate::variables::{TemplateProbe, VariableInfo};

verus! {

// ---------------------------------------------------------------------------
// Errors
// ---------------------------------------------------------------------------

/// Why there is no directory of variables.
#[derive(Debug, PartialEq, Eq)]
pub enum ScanError {
    /// None is mounted, and here only mounted ones are looked for.
    NotMounted,
    /// `lsblk` could not be run.
    LsblkUnstarted(String),
    /// The output of `lsblk` could not be understood.
    LsblkUnreadable(String),
    /// The directory at which to mount partitions could not be made.
    NoMountpoint(String),
    /// The directory has no path.
    Unresolvable(String),
    /// No partition holds the variables.
    NothingFound,
    /// The directory that was asked for is not there.
    MissingDirectory(String),
    /// There are several.
    Several(Vec<String>),
}

/// What a `ScanError` says.
pub enum ErrorView {
    NotMounted,
    LsblkUnstarted(Seq<char>),
    LsblkUnreadable(Seq<char>),
    NoMountpoint(Seq<char>),
    Unresolvable(Seq<char>),
    NothingFound,
    MissingDirectory(Seq<char>),
    Several(Seq<Seq<char>>),
}

impl DeepView for ScanError {
    type V = ErrorView;

    open spec fn deep_view(&self) -> ErrorView {
        match *self {
            ScanError::NotMounted => ErrorView::NotMounted,
            ScanError::LsblkUnstarted(error) => ErrorView::LsblkUnstarted(error@),
            ScanError::LsblkUnreadable(error) => ErrorView::LsblkUnreadable(error@),
            ScanError::NoMountpoint(error) => ErrorView::NoMountpoint(error@),
            ScanError::Unresolvable(error) => ErrorView::Unresolvable(error@),
            ScanError::NothingFound => ErrorView::NothingFound,
            ScanError::MissingDirectory(directory) => ErrorView::MissingDirectory(directory@),
            ScanError::Several(directories) => ErrorView::Several(directories.deep_view()),
        }
    }
}

/// Each directory on a line of its own, indented.
pub open spec fn indented(directories: Seq<Seq<char>>) -> Seq<Seq<char>> {
    directories.map_values(|directory: Seq<char>| "  "@ + directory)
}

/// What is shown of an error.
pub open spec fn error_text(error: ErrorView) -> Seq<char> {
    match error {
        ErrorView::NotMounted => "未找到已挂载的 EFI/refind/vars 目录"@,
        ErrorView::LsblkUnstarted(error) => "无法执行 lsblk: "@ + error,
        ErrorView::LsblkUnreadable(error) => "无法解析 lsblk 输出: "@ + error,
        ErrorView::NoMountpoint(error) => "无法创建临时挂载点: "@ + error,
        ErrorView::Unresolvable(error) => "无法解析变量目录: "@ + error,
        ErrorView::NothingFound => "已扫描未挂载的 FAT/ESP 分区，但未找到 EFI/refind/vars 目录；应用已尝试通过 pkexec 临时提权挂载，若取消授权或 pkexec 不可用，请手动挂载后再扫描"@,
        ErrorView::MissingDirectory(directory) => "rEFInd 变量目录不存在: "@ + directory,
        ErrorView::Several(directories) => "找到多个 rEFInd 变量目录，请在主窗口指定其中一个：\n"@ + text::joined(
            indented(directories),
            "\n"@,
        ),
    }
}

impl ScanError {
    /// What is shown of this error.
    pub fn message(&self) -> (r: String)
        ensures
            r@ == error_text(self.deep_view()),
    {
        match self {
            ScanError::NotMounted => "未找到已挂载的 EFI/refind/vars 目录".to_owned(),
            ScanError::LsblkUnstarted(error) => text::concat("无法执行 lsblk: ", error.as_str()),
            ScanError::LsblkUnreadable(error) => text::concat(
                "无法解析 lsblk 输出: ",
                error.as_str(),
            ),
            ScanError::NoMountpoint(error) => text::concat(
                "无法创建临时挂载点: ",
                error.as_str(),
            ),
            ScanError::Unresolvable(error) => text::concat("无法解析变量目录: ", error.as_str()),
            ScanError::NothingFound => "已扫描未挂载的 FAT/ESP 分区，但未找到 EFI/refind/vars 目录；应用已尝试通过 pkexec 临时提权挂载，若取消授权或 pkexec 不可用，请手动挂载后再扫描".to_owned(),
            ScanError::MissingDirectory(directory) => text::concat(
                "rEFInd 变量目录不存在: ",
                directory.as_str(),
            ),
            ScanError::Several(directories) => {
                let mut names: Vec<String> = Vec::new();
                let mut i: usize = 0;
                let ghost all = indented(directories.deep_view());
                while i < directories.len()
                    invariant
                        i <= directories@.len(),
                        all == indented(directories.deep_view()),
                        names.deep_view() == all.take(i as int),
                    decreases directories@.len() - i,
                {
                    let ghost before = names.deep_view();
                    let name: String = text::concat("  ", directories[i].as_str());
                    let ghost added = name@;
                    assert(all[i as int] == added);
                    names.push(name);
                    i = i + 1;
                    assert(names.deep_view() =~= before.push(added));
                    assert(names.deep_view() =~= all.take(i as int));
                }
                assert(all.take(i as int) =~= all);
                text::concat(
                    "找到多个 rEFInd 变量目录，请在主窗口指定其中一个：\n",
                    text::join(&names, "\n").as_str(),
                )
            },
        }
    }
}

// ---------------------------------------------------------------------------
// Directories on mounted partitions
// ---------------------------------------------------------------------------

/// `found` with the directory `next`, if it is there and not listed yet.
pub open spec fn with_unique(found: Seq<Seq<char>>, next: Option<Seq<char>>) -> Seq<Seq<char>> {
    match next {
        Some(directory) if !found.contains(directory) => found.push(directory),
        _ => found,
    }
}

/// The directories that are there, each one once, in the order in which they
/// were first met.
pub open spec fn unique(met: Seq<Option<Seq<char>>>) -> Seq<Seq<char>>
    decreases met.len(),
{
    if met.len() == 0 {
        Seq::empty()
    } else {
        with_unique(unique(met.drop_last()), met.last())
    }
}

/// Adds the directory `candidate` (with links followed, if it is there) to
/// `candidates`, unless it is listed.
pub fn push_unique(candidates: &mut Vec<String>, candidate: Option<String>)
    ensures
        final(candidates).deep_view() == with_unique(
            old(candidates).deep_view(),
            candidate.deep_view(),
        ),
{
    let ghost before = candidates.deep_view();
    if let Some(directory) = candidate {
        let mut i: usize = 0;
        while i < candidates.len()
            invariant
                i <= candidates@.len(),
                before == candidates.deep_view(),
                before == old(candidates).deep_view(),
                candidate.deep_view() == Some(directory@),
                *candidates == *old(candidates),
                forall|j: int| 0 <= j < i ==> #[trigger] before[j] != directory@,
            decreases candidates@.len() - i,
        {
            assert(before[i as int] == candidates@[i as int]@);
            if candidates[i] == directory {
                assert(before.contains(directory@));
                return;
            }
            i = i + 1;
        }
        assert(!before.contains(directory@));
        let ghost added = directory@;
        candidates.push(directory);
        assert(candidates.deep_view() =~= before.push(added));
    }
}

/// The directories of variables among those that were looked for: each of
/// `resolved` is one with links followed, if it is there.
pub fn mounted_candidate_directories(resolved: Vec<Option<String>>) -> (r: Vec<String>)
    ensures
        r.deep_view() == unique(resolved.deep_view()),
{
    let ghost all = resolved.deep_view();
    let mut out: Vec<String> = Vec::new();
    let mut i: usize = 0;
    assert(out.deep_view() =~= Seq::empty());
    assert(all.take(0) =~= Seq::empty());
    while i < resolved.len()
        invariant
            i <= resolved@.len(),
            all == resolved.deep_view(),
            out.deep_view() == unique(all.take(i as int)),
        decreases resolved@.len() - i,
    {
        assert(all.take(i as int + 1).drop_last() =~= all.take(i as int));
        assert(all.take(i as int + 1).last() == resolved@[i as int].deep_view());
        let next: Option<String> = match &resolved[i] {
            Some(directory) => Some(directory.clone()),
            None => None,
        };
        push_unique(&mut out, next);
        i = i + 1;
    }
    assert(all.take(i as int) =~= all);
    out
}

/// No directory is listed twice, and exactly those are listed that were met.
pub proof fn law_unique_lists_each_once(met: Seq<Option<Seq<char>>>)
    ensures
        unique(met).no_duplicates(),
        forall|d: Seq<char>| #[trigger] unique(met).contains(d) <==> met.contains(Some(d)),
    decreases met.len(),
{
    if met.len() > 0 {
        let front = met.drop_last();
        let before = unique(front);
        let all = unique(met);
        law_unique_lists_each_once(front);
        assert forall|d: Seq<char>| #[trigger] all.contains(d) <==> met.contains(Some(d)) by {
            assert(before.contains(d) <==> front.contains(Some(d)));
            if front.contains(Some(d)) {
                let i = choose|i: int| 0 <= i < front.len() && front[i] == Some(d);
                assert(met[i] == Some(d));
                let j = choose|j: int| 0 <= j < before.len() && before[j] == d;
                assert(all[j] == d);
            }
            if met.contains(Some(d)) && !front.contains(Some(d)) {
                let i = choose|i: int| 0 <= i < met.len() && met[i] == Some(d);
                if i < front.len() {
                    assert(front[i] == Some(d));
                }
                assert(met.last() == Some(d));
                assert(all[before.len() as int] == d);
            }
            if all.contains(d) && !before.contains(d) {
                let j = choose|j: int| 0 <= j < all.len() && all[j] == d;
                if j < before.len() {
                    assert(before[j] == d);
                }
                assert(met.last() == Some(d));
                assert(met[met.len() - 1] == Some(d));
            }
        }
    }
}

/// The drive letters of Windows.
pub open spec fn drive(i: int) -> Seq<char> {
    seq![(('A' as int) + i) as char] + ":\\"@
}

/// The places at which partitions are mounted: on Windows the drives, elsewhere
/// some well known directories.
pub open spec fn known_roots(platform: Platform) -> Seq<Seq<char>> {
    if platform == Platform::Windows {
        Seq::new(26, |i: int| drive(i))
    } else {
        seq![
            "/Volumes/REFIND"@,
            "/boot/efi"@,
            "/efi"@,
            "/boot"@,
            "/mnt/REFIND"@,
            "/media/REFIND"@,
        ]
    }
}

/// The directories in which partitions are mounted, directly or one level down.
pub open spec fn known_bases(platform: Platform) -> Seq<Seq<char>> {
    if platform == Platform::Windows {
        Seq::empty()
    } else {
        seq!["/Volumes"@, "/mnt"@, "/media"@, "/run/media"@]
    }
}

/// The places at which partitions are mounted.
pub fn candidate_roots(platform: Platform) -> (r: Vec<String>)
    ensures
        r.deep_view() == known_roots(platform),
{
    let mut out: Vec<String> = Vec::new();
    if platform == Platform::Windows {
        let ghost all = known_roots(platform);
        let mut i: u8 = 0;
        while i < 26
            invariant
                i <= 26,
                all == Seq::new(26, |i: int| drive(i)),
                out.deep_view() == all.take(i as int),
            decreases 26 - i,
        {
            let ghost before = out.deep_view();
            let mut root: String = String::new();
            root.push((65u8 + i) as char);
            root.append(":\\");
            assert(root@ =~= drive(i as int));
            let ghost added = root@;
            assert(all[i as int] == added);
            out.push(root);
            i = i + 1;
            assert(out.deep_view() =~= before.push(added));
            assert(out.deep_view() =~= all.take(i as int));
        }
        assert(all.take(26) =~= all);
    } else {
        out.push("/Volumes/REFIND".to_owned());
        out.push("/boot/efi".to_owned());
        out.push("/efi".to_owned());
        out.push("/boot".to_owned());
        out.push("/mnt/REFIND".to_owned());
        out.push("/media/REFIND".to_owned());
        assert(out.deep_view() =~= known_roots(platform));
    }
    out
}

/// The directories in which partitions are mounted, directly or one level down.
pub fn candidate_bases(platform: Platform) -> (r: Vec<String>)
    ensures
        r.deep_view() == known_bases(platform),
{
    let mut out: Vec<String> = Vec::new();
    if platform != Platform::Windows {
        out.push("/Volumes".to_owned());
        out.push("/mnt".to_owned());
        out.push("/media".to_owned());
        out.push("/run/media".to_owned());
    }
    assert(out.deep_view() =~= known_bases(platform));
    out
}

/// An entry of a directory, and the entries in it, if it is a directory that
/// can be listed.
#[derive(Debug, PartialEq, Eq)]
pub struct ListedEntry {
    pub path: String,
    pub nested: Vec<String>,
}

/// What a `ListedEntry` says.
pub struct EntryView {
    pub path: Seq<char>,
    pub nested: Seq<Seq<char>>,
}

impl DeepView for ListedEntry {
    type V = EntryView;

    open spec fn deep_view(&self) -> EntryView {
        EntryView { path: self.path@, nested: self.nested.deep_view() }
    }
}

/// The entries in a listing: each one, followed by those in it.
pub open spec fn flattened(entries: Seq<EntryView>) -> Seq<Seq<char>>
    decreases entries.len(),
{
    if entries.len() == 0 {
        Seq::empty()
    } else {
        flattened(entries.drop_last()).push(entries.last().path) + entries.last().nested
    }
}

/// The places to look at in a listing: each entry, followed by those in it.
pub fn listed_roots(entries: &Vec<ListedEntry>) -> (r: Vec<String>)
    ensures
        r.deep_view() == flattened(entries.deep_view()),
{
    let ghost all = entries.deep_view();
    let mut out: Vec<String> = Vec::new();
    let mut i: usize = 0;
    assert(out.deep_view() =~= Seq::empty());
    assert(all.take(0) =~= Seq::empty());
    while i < entries.len()
        invariant
            i <= entries@.len(),
            all == entries.deep_view(),
            out.deep_view() == flattened(all.take(i as int)),
        decreases entries@.len() - i,
    {
        let entry: &ListedEntry = &entries[i];
        assert(all.take(i as int + 1).drop_last() =~= all.take(i as int));
        assert(all.take(i as int + 1).last() == entry.deep_view());
        let ghost before = out.deep_view();
        out.push(entry.path.clone());
        let ghost start = out.deep_view();
        assert(start =~= before.push(entry.path@));
        let ghost inner = entry.nested.deep_view();
        let mut j: usize = 0;
        assert(start + inner.take(0) =~= start);
        while j < entry.nested.len()
            invariant
                j <= entry.nested@.len(),
                inner == entry.nested.deep_view(),
                out.deep_view() == start + inner.take(j as int),
            decreases entry.nested@.len() - j,
        {
            let ghost sofar = out.deep_view();
            out.push(entry.nested[j].clone());
            j = j + 1;
            assert(out.deep_view() =~= sofar.push(inner[j - 1]));
            assert(out.deep_view() =~= start + inner.take(j as int));
        }
        assert(inner.take(j as int) =~= inner);
        i = i + 1;
    }
    assert(all.take(i as int) =~= all);
    out
}

/// The directory of variables on a partition that is mounted at `root`.
pub open spec fn variables_on(platform: Platform, root: Seq<char>) -> Seq<char> {
    paths::inside(platform, root, variables::VARS_DIRECTORY@)
}

/// The directory of variables on a partition that is mounted at `root`.
pub fn variables_place(platform: Platform, root: &str) -> (r: String)
    ensures
        r@ == variables_on(platform, root@),
{
    paths::join(platform, root, variables::VARS_DIRECTORY)
}

/// The entries in some listings, one listing after the other.
pub open spec fn all_flattened(listings: Seq<Seq<EntryView>>) -> Seq<Seq<char>>
    decreases listings.len(),
{
    if listings.len() == 0 {
        Seq::empty()
    } else {
        all_flattened(listings.drop_last()) + flattened(listings.last())
    }
}

/// The places at which directories of variables are looked for: on the known
/// roots, then on what was listed in each of the known bases.
pub open spec fn places(platform: Platform, listings: Seq<Seq<EntryView>>) -> Seq<Seq<char>> {
    (known_roots(platform) + all_flattened(listings)).map_values(
        |root: Seq<char>| variables_on(platform, root),
    )
}

/// The places at which directories of variables are looked for; `listings` are
/// those of the known bases, in their order.
pub fn candidate_places(platform: Platform, listings: &Vec<Vec<ListedEntry>>) -> (r: Vec<String>)
    ensures
        r.deep_view() == places(platform, listings.deep_view()),
{
    let mut roots: Vec<String> = candidate_roots(platform);
    let ghost known = roots.deep_view();
    let ghost all = listings.deep_view();
    let mut i: usize = 0;
    assert(all.take(0) =~= Seq::empty());
    assert(roots.deep_view() =~= known + all_flattened(all.take(0)));
    while i < listings.len()
        invariant
            i <= listings@.len(),
            all == listings.deep_view(),
            roots.deep_view() == known + all_flattened(all.take(i as int)),
        decreases listings@.len() - i,
    {
        let ghost before = roots.deep_view();
        let mut more: Vec<String> = listed_roots(&listings[i]);
        let ghost added = more.deep_view();
        assert(all[i as int] == listings@[i as int].deep_view());
        assert(all.take(i as int + 1).drop_last() =~= all.take(i as int));
        assert(all.take(i as int + 1).last() == all[i as int]);
        roots.append(&mut more);
        assert(roots.deep_view() =~= before + added);
        assert(roots.deep_view() =~= known + all_flattened(all.take(i as int + 1)));
        i = i + 1;
    }
    assert(all.take(i as int) =~= all);
    let ghost looked = places(platform, all);
    let mut out: Vec<String> = Vec::new();
    let mut j: usize = 0;
    while j < roots.len()
        invariant
            j <= roots@.len(),
            looked == roots.deep_view().map_values(
                |root: Seq<char>| variables_on(platform, root),
            ),
            out.deep_view() == looked.take(j as int),
        decreases roots@.len() - j,
    {
        let ghost before = out.deep_view();
        let place: String = variables_place(platform, roots[j].as_str());
        let ghost added = place@;
        assert(looked[j as int] == added);
        out.push(place);
        j = j + 1;
        assert(out.deep_view() =~= before.push(added));
        assert(out.deep_view() =~= looked.take(j as int));
    }
    assert(looked.take(j as int) =~= looked);
    out
}

// ---------------------------------------------------------------------------
// The choice of a directory
// ---------------------------------------------------------------------------

/// The directory of variables, the partition on which it lies, and what is
/// known of the systems.
#[derive(Debug, PartialEq, Eq)]
pub struct ScanResult {
    pub vars_dir: String,
    pub active_mount: Option<ActiveMount>,
    pub variables: Vec<VariableInfo>,
}

/// What a `ScanResult` says.
pub struct ScanView {
    pub vars_dir: Seq<char>,
    pub active_mount: Option<mount::MountView>,
    pub variables: Seq<variables::VariableView>,
}

impl DeepView for ScanResult {
    type V = ScanView;

    open spec fn deep_view(&self) -> ScanView {
        ScanView {
            vars_dir: self.vars_dir@,
            active_mount: self.active_mount.deep_view(),
            variables: self.variables.deep_view(),
        }
    }
}

/// What was found of the directory that was asked for.
#[derive(Debug, PartialEq, Eq)]
pub struct ExplicitDirectory {
    pub directory: String,
    pub is_dir: bool,
    /// The directory with links followed.
    pub resolved: Option<String>,
}

/// What an `ExplicitDirectory` says.
pub struct ExplicitView {
    pub directory: Seq<char>,
    pub is_dir: bool,
    pub resolved: Option<Seq<char>>,
}

impl DeepView for ExplicitDirectory {
    type V = ExplicitView;

    open spec fn deep_view(&self) -> ExplicitView {
        ExplicitView {
            directory: self.directory@,
            is_dir: self.is_dir,
            resolved: self.resolved.deep_view(),
        }
    }
}

/// Where the variables are to be read.
#[derive(Debug, PartialEq, Eq)]
pub enum ScanTarget {
    /// In this directory.
    Directory(MountedScanCandidate),
    /// On a partition that is not mounted yet.
    Unmounted,
}

/// What a `ScanTarget` says.
pub enum TargetView {
    Directory(mountinfo::CandidateView),
    Unmounted,
}

impl DeepView for ScanTarget {
    type V = TargetView;

    open spec fn deep_view(&self) -> TargetView {
        match *self {
            ScanTarget::Directory(candidate) => TargetView::Directory(candidate.deep_view()),
            ScanTarget::Unmounted => TargetView::Unmounted,
        }
    }
}

/// What a result of the choice says.
pub open spec fn choice_view(result: Result<ScanTarget, ScanError>) -> Result<
    TargetView,
    ErrorView,
> {
    match result {
        Ok(target) => Ok(target.deep_view()),
        Err(error) => Err(error.deep_view()),
    }
}

/// The candidate lies on a partition that the switcher mounted.
pub open spec fn on_owned(candidate: mountinfo::CandidateView) -> bool {
    candidate.active_mount is Some && candidate.active_mount->0.owned
}

/// The candidates on partitions that the switcher mounted, then the others.
pub open spec fn owned_first(candidates: Seq<mountinfo::CandidateView>) -> Seq<
    mountinfo::CandidateView,
> {
    candidates.filter(|c: mountinfo::CandidateView| on_owned(c)) + candidates.filter(
        |c: mountinfo::CandidateView| !on_owned(c),
    )
}

/// The directories of some candidates.
pub open spec fn directories_of(candidates: Seq<mountinfo::CandidateView>) -> Seq<Seq<char>> {
    candidates.map_values(|c: mountinfo::CandidateView| c.vars_dir)
}

/// Where the variables are to be read: in the directory that was asked for, if
/// one was; else in the one candidate. Several are an error. If there is none,
/// partitions that are not mounted are tried, on Linux.
pub open spec fn choice(
    platform: Platform,
    explicit: Option<ExplicitView>,
    candidates: Seq<mountinfo::CandidateView>,
) -> Result<TargetView, ErrorView> {
    match explicit {
        Some(asked) => {
            let resolved = match asked.resolved {
                Some(resolved) => resolved,
                None => asked.directory,
            };
            if asked.is_dir {
                Ok(
                    TargetView::Directory(
                        mountinfo::CandidateView {
                            vars_dir: resolved,
                            active_mount: mountinfo::mount_under(
                                candidates,
                                asked.directory,
                                resolved,
                            ),
                        },
                    ),
                )
            } else {
                Err(ErrorView::MissingDirectory(asked.directory))
            }
        },
        None => if candidates.len() > 1 {
            Err(ErrorView::Several(directories_of(owned_first(candidates))))
        } else if candidates.len() == 1 {
            Ok(TargetView::Directory(candidates[0]))
        } else if platform == Platform::Linux {
            Ok(TargetView::Unmounted)
        } else {
            Err(ErrorView::NotMounted)
        },
    }
}

/// The directories of those of `candidates` that lie on a partition of the
/// switcher (`owned`) or of those that do not.
fn directories_by_owner(candidates: &Vec<MountedScanCandidate>, owned: bool) -> (r: Vec<String>)
    ensures
        r.deep_view() == directories_of(
            candidates.deep_view().filter(
                |c: mountinfo::CandidateView| on_owned(c) == owned,
            ),
        ),
{
    let ghost all = candidates.deep_view();
    let ghost wanted = |c: mountinfo::CandidateView| on_owned(c) == owned;
    let mut out: Vec<String> = Vec::new();
    let mut i: usize = 0;
    assert(all.take(0).filter(wanted) =~= Seq::empty()) by {
        reveal(Seq::filter);
    }
    assert(out.deep_view() =~= directories_of(all.take(0).filter(wanted)));
    while i < candidates.len()
        invariant
            i <= candidates@.len(),
            all == candidates.deep_view(),
            wanted == (|c: mountinfo::CandidateView| on_owned(c) == owned),
            out.deep_view() == directories_of(all.take(i as int).filter(wanted)),
        decreases candidates@.len() - i,
    {
        let candidate: &MountedScanCandidate = &candidates[i];
        let ghost before = out.deep_view();
        assert(all.take(i as int + 1).drop_last() =~= all.take(i as int));
        assert(all.take(i as int + 1).last() == candidate.deep_view());
        reveal(Seq::filter);
        let is_owned: bool = match &candidate.active_mount {
            Some(mount) => mount.owned,
            None => false,
        };
        assert(is_owned == on_owned(candidate.deep_view()));
        if is_owned == owned {
            out.push(candidate.vars_dir.clone());
            assert(out.deep_view() =~= before.push(candidate.vars_dir@));
            assert(out.deep_view() =~= directories_of(all.take(i as int + 1).filter(wanted)));
        }
        i = i + 1;
    }
    assert(all.take(i as int) =~= all);
    out
}

/// The directories of `candidates`, those on partitions of the switcher first.
fn ordered_directories(candidates: &Vec<MountedScanCandidate>) -> (r: Vec<String>)
    ensures
        r.deep_view() == directories_of(owned_first(candidates.deep_view())),
{
    let ghost all = candidates.deep_view();
    let mut first: Vec<String> = directories_by_owner(candidates, true);
    let mut second: Vec<String> = directories_by_owner(candidates, false);
    let ghost a = first.deep_view();
    let ghost b = second.deep_view();
    proof {
        let yes = |c: mountinfo::CandidateView| on_owned(c);
        let no = |c: mountinfo::CandidateView| !on_owned(c);
        assert((|c: mountinfo::CandidateView| on_owned(c) == true) =~= yes);
        assert((|c: mountinfo::CandidateView| on_owned(c) == false) =~= no);
        assert(directories_of(owned_first(all)) =~= directories_of(all.filter(yes))
            + directories_of(all.filter(no)));
    }
    first.append(&mut second);
    assert(first.deep_view() =~= a + b);
    first
}

/// Where the variables are to be read, given what was found of the directory
/// that was asked for (if one was) and the candidates on mounted partitions.
pub fn scan_vars_directory(
    platform: Platform,
    explicit_dir: Option<ExplicitDirectory>,
    candidates: Vec<MountedScanCandidate>,
) -> (r: Result<ScanTarget, ScanError>)
    ensures
        choice_view(r) == choice(platform, explicit_dir.deep_view(), candidates.deep_view()),
{
    if let Some(asked) = explicit_dir {
        if !asked.is_dir {
            return Err(ScanError::MissingDirectory(asked.directory));
        }
        let resolved: String = match &asked.resolved {
            Some(resolved) => resolved.clone(),
            None => asked.directory.clone(),
        };
        let active_mount: Option<ActiveMount> = mountinfo::active_mount_for_directory(
            &candidates,
            asked.directory.as_str(),
            resolved.as_str(),
        );
        return Ok(
            ScanTarget::Directory(MountedScanCandidate { vars_dir: resolved, active_mount }),
        );
    }
    if candidates.len() > 1 {
        return Err(ScanError::Several(ordered_directories(&candidates)));
    }
    if candidates.len() == 1 {
        assert(candidates.deep_view()[0] == candidates@[0].deep_view());
        return Ok(ScanTarget::Directory(candidates[0].clone()));
    }
    if platform == Platform::Linux {
        Ok(ScanTarget::Unmounted)
    } else {
        Err(ScanError::NotMounted)
    }
}

// ---------------------------------------------------------------------------
// The scan
// ---------------------------------------------------------------------------

/// What was found in a directory of variables: the templates, and the contents of
/// the file that rEFInd reads, if it could be read.
#[derive(Debug, PartialEq, Eq)]
pub struct DirectoryProbe {
    pub directory: String,
    pub linux: TemplateProbe,
    pub windows: TemplateProbe,
    pub macos: TemplateProbe,
    pub target: Option<Vec<u8>>,
}

/// What a `DirectoryProbe` says.
pub struct DirectoryView {
    pub directory: Seq<char>,
    pub linux: variables::ProbeView,
    pub windows: variables::ProbeView,
    pub macos: variables::ProbeView,
    pub target: Option<Seq<u8>>,
}

impl DeepView for DirectoryProbe {
    type V = DirectoryView;

    open spec fn deep_view(&self) -> DirectoryView {
        DirectoryView {
            directory: self.directory@,
            linux: self.linux.deep_view(),
            windows: self.windows.deep_view(),
            macos: self.macos.deep_view(),
            target: self.target.deep_view(),
        }
    }
}

/// What is known of the systems in a directory.
pub open spec fn inspected_in(platform: Platform, probe: DirectoryView) -> Seq<
    variables::VariableView,
> {
    variables::all_inspected(
        platform,
        probe.directory,
        probe.linux,
        probe.windows,
        probe.macos,
        probe.target,
    )
}

/// The result of a scan, once the directory of the candidate was inspected.
pub open spec fn result_of(
    platform: Platform,
    candidate: mountinfo::CandidateView,
    probe: DirectoryView,
) -> ScanView {
    ScanView {
        vars_dir: candidate.vars_dir,
        active_mount: candidate.active_mount,
        variables: inspected_in(platform, probe),
    }
}

/// What is to be done next in a scan.
#[derive(Debug, PartialEq, Eq)]
pub enum ScanStage {
    /// Inspect the directory of this candidate.
    Inspect(MountedScanCandidate),
    /// Search the partitions that are not mounted.
    Search,
    /// Nothing more: all has ended so.
    Finished(Result<ScanResult, ScanError>),
}

/// What a `ScanStage` says.
pub enum StageView {
    Inspect(mountinfo::CandidateView),
    Search,
    Finished(Result<ScanView, ErrorView>),
}

impl DeepView for ScanStage {
    type V = StageView;

    open spec fn deep_view(&self) -> StageView {
        match *self {
            ScanStage::Inspect(candidate) => StageView::Inspect(candidate.deep_view()),
            ScanStage::Search => StageView::Search,
            ScanStage::Finished(Ok(found)) => StageView::Finished(Ok(found.deep_view())),
            ScanStage::Finished(Err(error)) => StageView::Finished(Err(error.deep_view())),
        }
    }
}

/// What came of a stage.
#[derive(Debug, PartialEq, Eq)]
pub enum ScanReply {
    /// What was found in a directory.
    Inspected(DirectoryProbe),
    /// How the search ended.
    Searched(Result<MountedScanCandidate, ScanError>),
}

/// What a `ScanReply` says.
pub enum ScanReplyView {
    Inspected(DirectoryView),
    Searched(Result<mountinfo::CandidateView, ErrorView>),
}

impl DeepView for ScanReply {
    type V = ScanReplyView;

    open spec fn deep_view(&self) -> ScanReplyView {
        match *self {
            ScanReply::Inspected(probe) => ScanReplyView::Inspected(probe.deep_view()),
            ScanReply::Searched(Ok(found)) => ScanReplyView::Searched(Ok(found.deep_view())),
            ScanReply::Searched(Err(error)) => ScanReplyView::Searched(Err(error.deep_view())),
        }
    }
}

/// Where a scan begins, once the choice was made.
pub open spec fn first_scan_stage(choice: Result<TargetView, ErrorView>) -> StageView {
    match choice {
        Ok(TargetView::Directory(candidate)) => StageView::Inspect(candidate),
        Ok(TargetView::Unmounted) => StageView::Search,
        Err(error) => StageView::Finished(Err(error)),
    }
}

/// What follows a stage of a scan, once `reply` has come of it. A reply that does
/// not belong to the stage, such as what was found in another directory, changes
/// nothing.
pub open spec fn next_scan_stage(
    platform: Platform,
    stage: StageView,
    reply: ScanReplyView,
) -> StageView {
    match (stage, reply) {
        (
            StageView::Inspect(candidate),
            ScanReplyView::Inspected(probe),
        ) if probe.directory == candidate.vars_dir => StageView::Finished(
            Ok(result_of(platform, candidate, probe)),
        ),
        (StageView::Search, ScanReplyView::Searched(Ok(candidate))) => StageView::Inspect(
            candidate,
        ),
        (StageView::Search, ScanReplyView::Searched(Err(error))) => StageView::Finished(
            Err(error),
        ),
        _ => stage,
    }
}

/// Where a scan begins, given what was found of the directory that was asked for
/// (if one was) and the candidates on mounted partitions.
pub fn begin_scan(
    platform: Platform,
    explicit_dir: Option<ExplicitDirectory>,
    candidates: Vec<MountedScanCandidate>,
) -> (r: ScanStage)
    ensures
        r.deep_view() == first_scan_stage(
            choice(platform, explicit_dir.deep_view(), candidates.deep_view()),
        ),
{
    match scan_vars_directory(platform, explicit_dir, candidates) {
        Ok(ScanTarget::Directory(candidate)) => ScanStage::Inspect(candidate),
        Ok(ScanTarget::Unmounted) => ScanStage::Search,
        Err(error) => ScanStage::Finished(Err(error)),
    }
}

/// What follows `stage` of a scan, once `reply` has come of it.
pub fn run_scan(platform: Platform, stage: ScanStage, reply: ScanReply) -> (r: ScanStage)
    ensures
        r.deep_view() == next_scan_stage(platform, stage.deep_view(), reply.deep_view()),
{
    match (stage, reply) {
        (ScanStage::Inspect(candidate), ScanReply::Inspected(probe)) => {
            if probe.directory != candidate.vars_dir {
                return ScanStage::Inspect(candidate);
            }
            ScanStage::Finished(
                Ok(
                    ScanResult {
                        vars_dir: candidate.vars_dir,
                        active_mount: candidate.active_mount,
                        variables: variables::inspect_variables(
                            platform,
                            probe.directory.as_str(),
                            probe.linux,
                            probe.windows,
                            probe.macos,
                            &probe.target,
                        ),
                    },
                ),
            )
        },
        (ScanStage::Search, ScanReply::Searched(result)) => match result {
            Ok(candidate) => ScanStage::Inspect(candidate),
            Err(error) => ScanStage::Finished(Err(error)),
        },
        (other, _) => other,
    }
}

/// A scan ends well only with the directory that it inspected last: the systems are
/// what was found in that very directory.
pub proof fn law_scan_result_is_of_its_directory(
    platform: Platform,
    stage: StageView,
    reply: ScanReplyView,
    found: ScanView,
)
    requires
        !(stage is Finished),
        next_scan_stage(platform, stage, reply) == StageView::Finished(Ok(found)),
    ensures
        reply matches ScanReplyView::Inspected(probe) && probe.directory == found.vars_dir
            && found.variables == inspected_in(platform, probe),
        stage == StageView::Inspect(
            mountinfo::CandidateView {
                vars_dir: found.vars_dir,
                active_mount: found.active_mount,
            },
        ),
{
}

/// A directory that was asked for wins over every candidate: it, with links
/// followed as far as they can be, is the directory of the result, and the
/// partition is the one on which it lies. One that is not there is an error.
pub proof fn law_asked_directory_wins(
    platform: Platform,
    asked: ExplicitView,
    candidates: Seq<mountinfo::CandidateView>,
    probe: DirectoryView,
)
    ensures
        ({
            let stage = first_scan_stage(choice(platform, Some(asked), candidates));
            let resolved = match asked.resolved {
                Some(resolved) => resolved,
                None => asked.directory,
            };
            &&& !asked.is_dir ==> stage == StageView::Finished(
                Err(ErrorView::MissingDirectory(asked.directory)),
            )
            &&& asked.is_dir && probe.directory == resolved ==> next_scan_stage(
                platform,
                stage,
                ScanReplyView::Inspected(probe),
            ) == StageView::Finished(
                Ok(
                    ScanView {
                        vars_dir: resolved,
                        active_mount: mountinfo::mount_under(
                            candidates,
                            asked.directory,
                            resolved,
                        ),
                        variables: inspected_in(platform, probe),
                    },
                ),
            )
        }),
{
}

// ---------------------------------------------------------------------------
// Laws
// ---------------------------------------------------------------------------

/// A candidate on a partition that the switcher mounted.
pub open spec fn is_on_own_mount() -> spec_fn(mountinfo::CandidateView) -> bool {
    |c: mountinfo::CandidateView|
        match c.active_mount {
            Some(mount) => mount.owned,
            None => false,
        }
}

/// A candidate on another partition.
pub open spec fn is_on_other_mount() -> spec_fn(mountinfo::CandidateView) -> bool {
    |c: mountinfo::CandidateView| !(is_on_own_mount())(c)
}

/// Of what all are wanted, all are kept; of what none is wanted, none.
proof fn lemma_filter_all_or_none(
    s: Seq<mountinfo::CandidateView>,
    wanted: spec_fn(mountinfo::CandidateView) -> bool,
)
    ensures
        (forall|i: int| 0 <= i < s.len() ==> wanted(#[trigger] s[i])) ==> s.filter(wanted) == s,
        (forall|i: int| 0 <= i < s.len() ==> !wanted(#[trigger] s[i])) ==> s.filter(wanted).len()
            == 0,
    decreases s.len(),
{
    reveal(Seq::filter);
    if s.len() > 0 {
        let front = s.drop_last();
        lemma_filter_all_or_none(front, wanted);
        if forall|i: int| 0 <= i < s.len() ==> wanted(#[trigger] s[i]) {
            assert forall|i: int| 0 <= i < front.len() implies wanted(#[trigger] front[i]) by {
                assert(front[i] == s[i]);
            }
            assert(wanted(s[s.len() - 1]));
            assert(front.push(s.last()) =~= s);
        }
        if forall|i: int| 0 <= i < s.len() ==> !wanted(#[trigger] s[i]) {
            assert forall|i: int| 0 <= i < front.len() implies !wanted(#[trigger] front[i]) by {
                assert(front[i] == s[i]);
            }
            assert(!wanted(s[s.len() - 1]));
        }
    } else {
        assert(s.filter(wanted) =~= s);
    }
}

/// What is kept is wanted, and between two opposite wishes nothing is lost.
proof fn lemma_filter_parts(
    s: Seq<mountinfo::CandidateView>,
    yes: spec_fn(mountinfo::CandidateView) -> bool,
    no: spec_fn(mountinfo::CandidateView) -> bool,
)
    requires
        forall|c: mountinfo::CandidateView| #[trigger] yes(c) == !no(c),
    ensures
        forall|i: int| 0 <= i < s.filter(yes).len() ==> yes(#[trigger] s.filter(yes)[i]),
        forall|i: int| 0 <= i < s.filter(no).len() ==> no(#[trigger] s.filter(no)[i]),
        s.filter(yes).len() + s.filter(no).len() == s.len(),
    decreases s.len(),
{
    reveal(Seq::filter);
    if s.len() > 0 {
        lemma_filter_parts(s.drop_last(), yes, no);
        assert(yes(s.last()) == !no(s.last()));
    }
}

/// Putting the candidates on the switcher's own partitions first drops none, adds none
/// and keeps the order among them and among the others.
pub proof fn law_own_partitions_come_first(candidates: Seq<mountinfo::CandidateView>)
    ensures
        ({
            let ordered = owned_first(candidates);
            &&& ordered.len() == candidates.len()
            &&& ordered.filter(is_on_own_mount()) == candidates.filter(is_on_own_mount())
            &&& ordered.filter(is_on_other_mount()) == candidates.filter(is_on_other_mount())
            &&& forall|i: int, j: int|
                0 <= i < j < ordered.len() && (is_on_own_mount())(#[trigger] ordered[j]) ==> (
                is_on_own_mount())(#[trigger] ordered[i])
        }),
{
    let yes = is_on_own_mount();
    let no = is_on_other_mount();
    assert((|c: mountinfo::CandidateView| on_owned(c)) =~= yes);
    assert((|c: mountinfo::CandidateView| !on_owned(c)) =~= no);
    let a = candidates.filter(yes);
    let b = candidates.filter(no);
    assert forall|c: mountinfo::CandidateView| #[trigger] yes(c) == !no(c) by {}
    lemma_filter_parts(candidates, yes, no);
    Seq::filter_distributes_over_add(a, b, yes);
    Seq::filter_distributes_over_add(a, b, no);
    assert forall|i: int| 0 <= i < b.len() implies !yes(#[trigger] b[i]) by {
        assert(no(b[i]));
    }
    assert forall|i: int| 0 <= i < a.len() implies !no(#[trigger] a[i]) by {
        assert(yes(a[i]));
    }
    lemma_filter_all_or_none(a, yes);
    lemma_filter_all_or_none(b, yes);
    lemma_filter_all_or_none(a, no);
    lemma_filter_all_or_none(b, no);
    assert((a + b).filter(yes) =~= a);
    assert((a + b).filter(no) =~= b);
    let ordered = owned_first(candidates);
    assert(ordered == a + b);
    assert forall|i: int, j: int|
        0 <= i < j < ordered.len() && yes(#[trigger] ordered[j]) implies yes(
        #[trigger] ordered[i],
    ) by {
        if j >= a.len() {
            assert(ordered[j] == b[j - a.len()]);
        }
        assert(ordered[i] == a[i]);
    }
}

/// Putting own partitions first keeps the number of the candidates.
proof fn lemma_all_are_named(candidates: Seq<mountinfo::CandidateView>)
    ensures
        directories_of(owned_first(candidates)).len() == candidates.len(),
{
    lemma_filter_parts(
        candidates,
        |c: mountinfo::CandidateView| on_owned(c),
        |c: mountinfo::CandidateView| !on_owned(c),
    );
}

/// The directory of each candidate is among those that are named.
proof fn lemma_directory_is_named(candidates: Seq<mountinfo::CandidateView>, i: int)
    requires
        0 <= i < candidates.len(),
    ensures
        directories_of(owned_first(candidates)).contains(candidates[i].vars_dir),
{
    let yes = |c: mountinfo::CandidateView| on_owned(c);
    let no = |c: mountinfo::CandidateView| !on_owned(c);
    let c = candidates[i];
    let ordered = owned_first(candidates);
    let names = directories_of(ordered);
    if on_owned(c) {
        candidates.lemma_filter_contains(yes, i);
        let kept = candidates.filter(yes);
        let k = choose|k: int| 0 <= k < kept.len() && kept[k] == c;
        assert(ordered[k] == c);
        assert(names[k] == c.vars_dir);
    } else {
        candidates.lemma_filter_contains(no, i);
        let kept = candidates.filter(no);
        let k = choose|k: int| 0 <= k < kept.len() && kept[k] == c;
        let at = candidates.filter(yes).len() + k;
        assert(ordered[at] == c);
        assert(names[at] == c.vars_dir);
    }
}

/// Where no directory was asked for, a candidate is taken just where it is the only one.
/// Two or more are an error, which lists the directories of them all, and nothing is
/// taken. Where there is none, the partitions that are not mounted are searched on
/// Linux, and elsewhere that is an error.
pub proof fn law_only_candidate_is_taken(
    platform: Platform,
    candidates: Seq<mountinfo::CandidateView>,
)
    ensures
        choice(platform, None, candidates) matches Ok(TargetView::Directory(taken))
            ==> candidates.len() == 1 && taken == candidates[0],
        candidates.len() == 1 ==> choice(platform, None, candidates) == Ok::<TargetView, ErrorView>(
            TargetView::Directory(candidates[0]),
        ),
        candidates.len() >= 2 ==> (choice(platform, None, candidates) matches Err(error) && (
        error matches ErrorView::Several(names) && names.len() == candidates.len() && (forall|
            i: int,
        |
            0 <= i < candidates.len() ==> names.contains((#[trigger] candidates[i]).vars_dir)))),
        candidates.len() == 0 ==> choice(platform, None, candidates) == if platform
            == Platform::Linux {
            Ok::<TargetView, ErrorView>(TargetView::Unmounted)
        } else {
            Err(ErrorView::NotMounted)
        },
{
    assert forall|i: int| 0 <= i < candidates.len() implies directories_of(
        owned_first(candidates),
    ).contains((#[trigger] candidates[i]).vars_dir) by {
        lemma_directory_is_named(candidates, i);
    }
    lemma_all_are_named(candidates);
}

/// The error that lists several directories says each of them.
pub proof fn law_several_directories_are_said(names: Seq<Seq<char>>, more: Seq<Seq<char>>)
    requires
        names.len() > 0,
        more.len() > 0,
    ensures
        forall|name: Seq<char>| #[trigger] error_text(ErrorView::Several(seq![name]))
            == "找到多个 rEFInd 变量目录，请在主窗口指定其中一个：\n"@ + ("  "@ + name),
        error_text(ErrorView::Several(names + more)) == error_text(ErrorView::Several(names))
            + "\n"@ + text::joined(indented(more), "\n"@),
        forall|i: int|
            0 <= i < more.len() ==> #[trigger] indented(more)[i] == "  "@ + more[i],
{
    let head = "找到多个 rEFInd 变量目录，请在主窗口指定其中一个：\n"@;
    assert forall|name: Seq<char>| #[trigger] error_text(ErrorView::Several(seq![name])) == head + (
    "  "@ + name) by {
        assert(indented(seq![name]) =~= seq!["  "@ + name]);
    }
    assert(indented(names + more) =~= indented(names) + indented(more));
    text::law_join_puts_separator_between(indented(names), indented(more), "\n"@);
    assert(error_text(ErrorView::Several(names + more)) =~= error_text(ErrorView::Several(names))
        + "\n"@ + text::joined(indented(more), "\n"@));
}

/// Every other error says what it is, and why where there is a reason.
pub proof fn law_errors_say_what_they_are(reason: Seq<char>)
    ensures
        error_text(ErrorView::NotMounted) == "未找到已挂载的 EFI/refind/vars 目录"@,
        error_text(ErrorView::LsblkUnstarted(reason)) == "无法执行 lsblk: "@ + reason,
        error_text(ErrorView::LsblkUnreadable(reason)) == "无法解析 lsblk 输出: "@ + reason,
        error_text(ErrorView::NoMountpoint(reason)) == "无法创建临时挂载点: "@ + reason,
        error_text(ErrorView::Unresolvable(reason)) == "无法解析变量目录: "@ + reason,
        error_text(ErrorView::NothingFound)
            == "已扫描未挂载的 FAT/ESP 分区，但未找到 EFI/refind/vars 目录；应用已尝试通过 pkexec 临时提权挂载，若取消授权或 pkexec 不可用，请手动挂载后再扫描"@,
        error_text(ErrorView::MissingDirectory(reason)) == "rEFInd 变量目录不存在: "@ + reason,
{
}

/// A further directory comes behind those that are listed, if it is there and not among
/// them; else nothing changes.
pub proof fn law_listed_directories_keep_their_order(
    met: Seq<Option<Seq<char>>>,
    next: Option<Seq<char>>,
)
    ensures
        unique(met.push(next)) == if next is Some && !met.contains(next) {
            unique(met).push(next->0)
        } else {
            unique(met)
        },
{
    assert(met.push(next).drop_last() =~= met);
    law_unique_lists_each_once(met);
    if next is Some {
        assert(unique(met).contains(next->0) <==> met.contains(Some(next->0)));
    }
}

/// Partitions are looked for at the drives of Windows, from A to Z, and elsewhere at the
/// same well known places.
pub proof fn law_known_places(i: int)
    ensures
        known_roots(Platform::Windows).len() == 26,
        0 <= i < 26 ==> known_roots(Platform::Windows)[i] == seq![(65 + i) as char] + ":\\"@,
        known_bases(Platform::Windows).len() == 0,
        known_roots(Platform::Linux) == seq![
            "/Volumes/REFIND"@,
            "/boot/efi"@,
            "/efi"@,
            "/boot"@,
            "/mnt/REFIND"@,
            "/media/REFIND"@,
        ],
        known_roots(Platform::MacOs) == known_roots(Platform::Linux),
        known_bases(Platform::Linux) == seq!["/Volumes"@, "/mnt"@, "/media"@, "/run/media"@],
        known_bases(Platform::MacOs) == known_bases(Platform::Linux),
{
}

/// Of a listing, each entry is looked at and then what lies in it; one entry after the
/// other, and one listing after the other.
pub proof fn law_listings_are_looked_at_in_order(
    entries: Seq<EntryView>,
    entry: EntryView,
    listings: Seq<Seq<EntryView>>,
    listing: Seq<EntryView>,
)
    ensures
        flattened(Seq::empty()) == Seq::<Seq<char>>::empty(),
        flattened(entries.push(entry)) == flattened(entries).push(entry.path) + entry.nested,
        all_flattened(Seq::empty()) == Seq::<Seq<char>>::empty(),
        all_flattened(listings.push(listing)) == all_flattened(listings) + flattened(listing),
{
    assert(entries.push(entry).drop_last() =~= entries);
    assert(listings.push(listing).drop_last() =~= listings);
}

/// The places at which directories of variables are looked for are `EFI/refind/vars` at
/// each known root, then at each place that was listed.
pub proof fn law_variables_are_looked_for_everywhere(
    platform: Platform,
    listings: Seq<Seq<EntryView>>,
    i: int,
)
    requires
        0 <= i < known_roots(platform).len() + all_flattened(listings).len(),
    ensures
        places(platform, listings).len() == known_roots(platform).len() + all_flattened(
            listings,
        ).len(),
        places(platform, listings)[i] == paths::inside(
            platform,
            if i < known_roots(platform).len() {
                known_roots(platform)[i]
            } else {
                all_flattened(listings)[i - known_roots(platform).len()]
            },
            "EFI/refind/vars"@,
        ),
{
}

/// A scan inspects the directory that was chosen, or that the search has found, and its
/// result is that directory, its partition, and what was found in it; an error of the
/// choice or of the search is its result.
pub proof fn law_scan_follows_the_choice(
    platform: Platform,
    candidate: mountinfo::CandidateView,
    probe: DirectoryView,
    error: ErrorView,
)
    requires
        probe.directory == candidate.vars_dir,
    ensures
        first_scan_stage(Ok(TargetView::Directory(candidate))) == StageView::Inspect(candidate),
        first_scan_stage(Ok(TargetView::Unmounted)) == StageView::Search,
        first_scan_stage(Err(error)) == StageView::Finished(Err(error)),
        next_scan_stage(platform, StageView::Search, ScanReplyView::Searched(Ok(candidate)))
            == StageView::Inspect(candidate),
        next_scan_stage(platform, StageView::Search, ScanReplyView::Searched(Err(error)))
            == StageView::Finished(Err(error)),
        next_scan_stage(platform, StageView::Inspect(candidate), ScanReplyView::Inspected(probe))
            == StageView::Finished(
            Ok(
                ScanView {
                    vars_dir: candidate.vars_dir,
                    active_mount: candidate.active_mount,
                    variables: variables::all_inspected(
                        platform,
                        candidate.vars_dir,
                        probe.linux,
                        probe.windows,
                        probe.macos,
                        probe.target,
                    ),
                },
            ),
        ),
{
}

/// A scan goes on only by a reply of the kind that its stage asks for, and by an inspection
/// only of the directory that was chosen; one that has come to its end stays there.
pub proof fn law_scan_waits_for_its_reply(
    platform: Platform,
    stage: StageView,
    reply: ScanReplyView,
)
    requires
        stage matches StageView::Inspect(candidate) ==> (
        reply matches ScanReplyView::Inspected(probe) ==> probe.directory != candidate.vars_dir),
        stage is Search ==> !(reply is Searched),
    ensures
        next_scan_stage(platform, stage, reply) == stage,
{
}

} // verus!
