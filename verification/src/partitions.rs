//! The FAT partitions that are not mounted: which of them are tried, in which
//! order, and how the search among them goes.
use vstd::prelude::*;
use vstd::string::*;

use crate::command;
use crate::command::{CommandLine, Platform};
use crate::mount;
use crate::mount::ActiveMount;
use crate::mountinfo;
use crate::mountinfo::MountedScanCandidate;
use crate::scan::ScanError;
use crate::text;
use crate::users;

verus! {

// ---------------------------------------------------------------------------
// Devices
// ---------------------------------------------------------------------------

/// A block device, as `lsblk` describes it.
#[derive(Debug, PartialEq, Eq)]
pub struct LsblkDevice {
    pub path: Option<String>,
    pub fstype: Option<String>,
    pub label: Option<String>,
    pub partlabel: Option<String>,
    pub parttype: Option<String>,
    pub mountpoints: Option<Vec<Option<String>>>,
}

/// What an `LsblkDevice` says.
pub struct DeviceView {
    pub path: Option<Seq<char>>,
    pub fstype: Option<Seq<char>>,
    pub label: Option<Seq<char>>,
    pub partlabel: Option<Seq<char>>,
    pub parttype: Option<Seq<char>>,
    pub mountpoints: Option<Seq<Option<Seq<char>>>>,
}

impl DeepView for LsblkDevice {
    type V = DeviceView;

    open spec fn deep_view(&self) -> DeviceView {
        DeviceView {
            path: self.path.deep_view(),
            fstype: self.fstype.deep_view(),
            label: self.label.deep_view(),
            partlabel: self.partlabel.deep_view(),
            parttype: self.parttype.deep_view(),
            mountpoints: self.mountpoints.deep_view(),
        }
    }
}

/// A partition that may hold the variables. The lower its priority, the sooner
/// it is tried.
#[derive(Debug, PartialEq, Eq)]
pub struct PartitionCandidate {
    pub priority: u8,
    pub device: String,
    pub filesystem: String,
}

/// What a `PartitionCandidate` says.
pub struct PartitionView {
    pub priority: u8,
    pub device: Seq<char>,
    pub filesystem: Seq<char>,
}

impl DeepView for PartitionCandidate {
    type V = PartitionView;

    open spec fn deep_view(&self) -> PartitionView {
        PartitionView {
            priority: self.priority,
            device: self.device@,
            filesystem: self.filesystem@,
        }
    }
}

/// The command that lists the block devices.
pub open spec fn listing_line() -> command::CommandView {
    command::with_arg(
        command::with_arg(command::with_arg(command::bare("lsblk"@), "--json"@), "--output"@),
        "PATH,TYPE,FSTYPE,LABEL,PARTLABEL,PARTTYPE,MOUNTPOINTS"@,
    )
}

/// The command that lists the block devices.
pub fn lsblk_command() -> (r: CommandLine)
    ensures
        r.deep_view() == listing_line(),
{
    let args: Vec<String> = Vec::new();
    assert(args.deep_view() =~= Seq::empty());
    let mut line: CommandLine = CommandLine { program: "lsblk".to_owned(), args };
    line.arg("--json");
    line.arg("--output");
    line.arg("PATH,TYPE,FSTYPE,LABEL,PARTLABEL,PARTTYPE,MOUNTPOINTS");
    line
}

/// A text of ASCII characters.
pub open spec fn ascii(s: Seq<char>) -> bool {
    forall|i: int| 0 <= i < s.len() ==> (#[trigger] s[i]) <= '\u{7f}'
}

/// An ASCII character in lower case.
pub open spec fn ascii_lowered(c: char) -> char {
    if 'A' <= c <= 'Z' {
        ((c as int) + 32) as char
    } else {
        c
    }
}

/// A text with a character beyond ASCII, in lower case.
pub uninterp spec fn unicode_lowered(s: Seq<char>) -> Seq<char>;

/// `s` in lower case.
pub open spec fn lowercase(s: Seq<char>) -> Seq<char> {
    if ascii(s) {
        s.map_values(|c: char| ascii_lowered(c))
    } else {
        unicode_lowered(s)
    }
}

/// `str::to_lowercase`: the text in lower case. Of an ASCII text, each letter is
/// replaced by its small form; what becomes of another text, for which Unicode
/// has tables, is not stated.
#[verifier::external_body]
fn to_lowercase(s: &str) -> (r: String)
    ensures
        r@ == if ascii(s@) {
            s@.map_values(|c: char| ascii_lowered(c))
        } else {
            unicode_lowered(s@)
        },
{
    s.to_lowercase()
}

/// The type of an EFI system partition.
pub const ESP_PARTTYPE: &'static str = "c12a7328-f81f-11d2-ba4b-00a0c93ec93b";

/// How soon a partition is tried, from its labels and its type in lower case:
/// first those that name rEFInd, then EFI system partitions.
pub open spec fn priority(label: Seq<char>, partlabel: Seq<char>, parttype: Seq<char>) -> u8 {
    let hints = label + " "@ + partlabel;
    if text::occurs_in("refind"@, hints) {
        0
    } else if parttype == ESP_PARTTYPE@ || text::occurs_in("efi system partition"@, hints) {
        1
    } else {
        2
    }
}

/// How soon a partition is tried, from its labels and its type in lower case.
pub fn partition_priority(label: &str, partlabel: &str, parttype: &str) -> (r: u8)
    ensures
        r == priority(label@, partlabel@, parttype@),
{
    let hints: String = text::concat3(label, " ", partlabel);
    if text::contains(hints.as_str(), "refind") {
        0
    } else if text::same_text(parttype, ESP_PARTTYPE) || text::contains(
        hints.as_str(),
        "efi system partition",
    ) {
        1
    } else {
        2
    }
}

/// A partition one of whose labels names rEFInd is among the first that are tried,
/// whatever its type; and only an EFI system partition comes before the others.
pub proof fn law_named_partition_comes_first(
    label: Seq<char>,
    partlabel: Seq<char>,
    parttype: Seq<char>,
)
    ensures
        text::occurs_in("refind"@, label) || text::occurs_in("refind"@, partlabel) ==> priority(
            label,
            partlabel,
            parttype,
        ) == 0,
        parttype == ESP_PARTTYPE@ ==> priority(label, partlabel, parttype) <= 1,
        priority(label, partlabel, parttype) <= 2,
{
    let word = "refind"@;
    let hints = label + " "@ + partlabel;
    if text::occurs_in(word, label) {
        let i = choose|i: int| text::occurs_at(word, label, i);
        assert(hints.subrange(i, i + word.len()) =~= label.subrange(i, i + word.len()));
        assert(text::occurs_at(word, hints, i));
    }
    if text::occurs_in(word, partlabel) {
        let i = choose|i: int| text::occurs_at(word, partlabel, i);
        let j = label.len() + " "@.len() + i;
        assert(hints.subrange(j, j + word.len()) =~= partlabel.subrange(i, i + word.len()));
        assert(text::occurs_at(word, hints, j));
    }
}

/// The text, or nothing.
pub open spec fn or_empty(s: Option<Seq<char>>) -> Seq<char> {
    match s {
        Some(s) => s,
        None => Seq::empty(),
    }
}

/// The device is mounted somewhere.
pub open spec fn mounted(mountpoints: Option<Seq<Option<Seq<char>>>>) -> bool {
    match mountpoints {
        Some(all) => exists|i: int|
            0 <= i < all.len() && (#[trigger] all[i]) is Some && all[i]->0.len() > 0,
        None => false,
    }
}

/// The partition in a device, if it has a FAT file system and is not mounted.
pub open spec fn partition(device: DeviceView) -> Option<PartitionView> {
    match (device.path, device.fstype) {
        (Some(path), Some(filesystem)) if mountinfo::fat_filesystem(filesystem) && !mounted(
            device.mountpoints,
        ) => Some(
            PartitionView {
                priority: priority(
                    lowercase(or_empty(device.label)),
                    lowercase(or_empty(device.partlabel)),
                    lowercase(or_empty(device.parttype)),
                ),
                device: path,
                filesystem,
            },
        ),
        _ => None,
    }
}

/// The partitions in some devices, in their order.
pub open spec fn partitions_in(devices: Seq<DeviceView>) -> Seq<PartitionView>
    decreases devices.len(),
{
    if devices.len() == 0 {
        Seq::empty()
    } else {
        let before = partitions_in(devices.drop_last());
        match partition(devices.last()) {
            Some(found) => before.push(found),
            None => before,
        }
    }
}

/// Whether the device is mounted somewhere.
fn is_mounted(mountpoints: &Option<Vec<Option<String>>>) -> (r: bool)
    ensures
        r == mounted(mountpoints.deep_view()),
{
    match mountpoints {
        Some(all) => {
            let mut i: usize = 0;
            while i < all.len()
                invariant
                    i <= all@.len(),
                    mountpoints.deep_view() == Some(all.deep_view()),
                    forall|j: int|
                        0 <= j < i ==> !((#[trigger] all.deep_view()[j]) is Some
                            && all.deep_view()[j]->0.len() > 0),
                decreases all@.len() - i,
            {
                assert(all.deep_view()[i as int] == all@[i as int].deep_view());
                if let Some(mountpoint) = &all[i] {
                    if !mountpoint.as_str().is_empty() {
                        assert(all.deep_view()[i as int]->0 == mountpoint@);
                        return true;
                    }
                }
                i = i + 1;
            }
            false
        },
        None => false,
    }
}

/// The text in lower case; nothing where there is none.
fn lowered(s: &Option<String>) -> (r: String)
    ensures
        r@ == lowercase(or_empty(s.deep_view())),
{
    match s {
        Some(s) => to_lowercase(s.as_str()),
        None => {
            proof {
                reveal_strlit("");
                assert(""@ =~= Seq::<char>::empty());
            }
            to_lowercase("")
        },
    }
}

/// The partition in `device`, if it has a FAT file system and is not mounted.
pub fn partition_candidate(device: &LsblkDevice) -> (r: Option<PartitionCandidate>)
    ensures
        r.deep_view() == partition(device.deep_view()),
{
    match (&device.path, &device.fstype) {
        (Some(path), Some(filesystem)) => {
            if !mountinfo::is_fat_filesystem(filesystem.as_str()) || is_mounted(
                &device.mountpoints,
            ) {
                return None;
            }
            let label: String = lowered(&device.label);
            let partlabel: String = lowered(&device.partlabel);
            let parttype: String = lowered(&device.parttype);
            Some(
                PartitionCandidate {
                    priority: partition_priority(
                        label.as_str(),
                        partlabel.as_str(),
                        parttype.as_str(),
                    ),
                    device: path.clone(),
                    filesystem: filesystem.clone(),
                },
            )
        },
        _ => None,
    }
}

// ---------------------------------------------------------------------------
// Ranking
// ---------------------------------------------------------------------------

/// `a` stands before `b` in the order of their characters.
pub open spec fn text_before(a: Seq<char>, b: Seq<char>) -> bool
    decreases a.len(),
{
    if b.len() == 0 {
        false
    } else if a.len() == 0 {
        true
    } else if a[0] != b[0] {
        a[0] < b[0]
    } else {
        text_before(a.skip(1), b.skip(1))
    }
}

/// `a` is tried before `b`: by priority, then by the name of the device.
pub open spec fn tried_before(a: PartitionView, b: PartitionView) -> bool {
    a.priority < b.priority || (a.priority == b.priority && text_before(a.device, b.device))
}

/// Where `next` goes among `ranked`: before the first that it is tried before.
pub open spec fn place(ranked: Seq<PartitionView>, next: PartitionView) -> int
    decreases ranked.len(),
{
    if ranked.len() == 0 || tried_before(next, ranked[0]) {
        0
    } else {
        1 + place(ranked.skip(1), next)
    }
}

/// The partitions in the order in which they are tried: each one is put before
/// the first that it is tried before.
pub open spec fn ranked(all: Seq<PartitionView>) -> Seq<PartitionView>
    decreases all.len(),
{
    if all.len() == 0 {
        Seq::empty()
    } else {
        let before = ranked(all.drop_last());
        before.insert(place(before, all.last()), all.last())
    }
}

/// Whether `a` stands before `b` in the order of their characters.
fn is_text_before(a: &str, b: &str) -> (r: bool)
    ensures
        r == text_before(a@, b@),
{
    let left: Vec<char> = text::to_chars(a);
    let right: Vec<char> = text::to_chars(b);
    let mut i: usize = 0;
    assert(left@.skip(0) =~= a@);
    assert(right@.skip(0) =~= b@);
    while i < left.len() && i < right.len()
        invariant
            i <= left@.len(),
            i <= right@.len(),
            text_before(a@, b@) == text_before(left@.skip(i as int), right@.skip(i as int)),
        decreases left@.len() - i,
    {
        assert(left@.skip(i as int).skip(1) =~= left@.skip(i as int + 1));
        assert(right@.skip(i as int).skip(1) =~= right@.skip(i as int + 1));
        if left[i] != right[i] {
            return left[i] < right[i];
        }
        i = i + 1;
    }
    i < right.len()
}

/// Whether `a` is tried before `b`.
fn is_tried_before(a: &PartitionCandidate, b: &PartitionCandidate) -> (r: bool)
    ensures
        r == tried_before(a.deep_view(), b.deep_view()),
{
    a.priority < b.priority || (a.priority == b.priority && is_text_before(
        a.device.as_str(),
        b.device.as_str(),
    ))
}

/// Where `next` goes among `candidates`.
fn find_place(candidates: &Vec<PartitionCandidate>, next: &PartitionCandidate) -> (r: usize)
    ensures
        r == place(candidates.deep_view(), next.deep_view()),
        r <= candidates@.len(),
{
    let ghost all = candidates.deep_view();
    let mut i: usize = 0;
    assert(all.skip(0) =~= all);
    while i < candidates.len()
        invariant
            i <= candidates@.len(),
            all == candidates.deep_view(),
            place(all, next.deep_view()) == i + place(all.skip(i as int), next.deep_view()),
        decreases candidates@.len() - i,
    {
        assert(all.skip(i as int)[0] == candidates@[i as int].deep_view());
        assert(all.skip(i as int).skip(1) =~= all.skip(i as int + 1));
        if is_tried_before(next, &candidates[i]) {
            return i;
        }
        i = i + 1;
    }
    i
}

/// The partitions of `devices` that are tried, in the order in which they are
/// tried.
pub fn rank_partitions(devices: &Vec<LsblkDevice>) -> (r: Vec<PartitionCandidate>)
    ensures
        r.deep_view() == ranked(partitions_in(devices.deep_view())),
{
    let ghost all = devices.deep_view();
    let mut out: Vec<PartitionCandidate> = Vec::new();
    let mut i: usize = 0;
    assert(out.deep_view() =~= Seq::empty());
    assert(all.take(0) =~= Seq::empty());
    while i < devices.len()
        invariant
            i <= devices@.len(),
            all == devices.deep_view(),
            out.deep_view() == ranked(partitions_in(all.take(i as int))),
        decreases devices@.len() - i,
    {
        let ghost before = out.deep_view();
        assert(all.take(i as int + 1).drop_last() =~= all.take(i as int));
        assert(all.take(i as int + 1).last() == devices@[i as int].deep_view());
        if let Some(found) = partition_candidate(&devices[i]) {
            let at: usize = find_place(&out, &found);
            let ghost sofar = partitions_in(all.take(i as int));
            let ghost added = found.deep_view();
            assert(sofar.push(added).drop_last() =~= sofar);
            out.insert(at, found);
            assert(out.deep_view() =~= before.insert(at as int, added));
        }
        i = i + 1;
    }
    assert(all.take(i as int) =~= all);
    out
}

// ---------------------------------------------------------------------------
// Laws of the ranking
// ---------------------------------------------------------------------------

/// The order of texts is strict, and of two different texts one comes first.
proof fn lemma_text_order(a: Seq<char>, b: Seq<char>)
    ensures
        !(text_before(a, b) && text_before(b, a)),
        !text_before(a, b) && !text_before(b, a) ==> a == b,
        !text_before(a, a),
    decreases a.len(),
{
    if a.len() > 0 && b.len() > 0 && a[0] == b[0] {
        lemma_text_order(a.skip(1), b.skip(1));
        if a.skip(1) == b.skip(1) {
            assert(a =~= seq![a[0]] + a.skip(1));
            assert(b =~= seq![b[0]] + b.skip(1));
        }
    }
    if a.len() > 0 {
        lemma_text_order(a.skip(1), a.skip(1));
    } else if b.len() == 0 {
        assert(a =~= b);
    }
}

/// The order of texts is transitive.
proof fn lemma_text_transitive(a: Seq<char>, b: Seq<char>, c: Seq<char>)
    requires
        text_before(a, b),
        text_before(b, c),
    ensures
        text_before(a, c),
    decreases a.len(),
{
    if a.len() > 0 && a[0] == b[0] && b[0] == c[0] {
        lemma_text_transitive(a.skip(1), b.skip(1), c.skip(1));
    }
}

/// None is tried before one that comes earlier.
pub open spec fn in_order(all: Seq<PartitionView>) -> bool {
    forall|i: int, j: int|
        0 <= i < j < all.len() ==> !tried_before(#[trigger] all[j], #[trigger] all[i])
}

/// What is not tried before `b`, which is not tried before `a`, is not tried
/// before `a`.
proof fn lemma_not_before(a: PartitionView, b: PartitionView, c: PartitionView)
    requires
        !tried_before(b, a),
        !tried_before(c, b),
    ensures
        !tried_before(c, a),
{
    lemma_text_order(a.device, b.device);
    lemma_text_order(b.device, c.device);
    lemma_text_order(a.device, c.device);
    if text_before(c.device, a.device) && text_before(a.device, b.device) {
        lemma_text_transitive(c.device, a.device, b.device);
    }
    if text_before(b.device, c.device) && text_before(c.device, a.device) {
        lemma_text_transitive(b.device, c.device, a.device);
    }
}

/// All before the place are not tried after; the one at the place is.
proof fn lemma_place(all: Seq<PartitionView>, next: PartitionView)
    ensures
        0 <= place(all, next) <= all.len(),
        forall|i: int| 0 <= i < place(all, next) ==> !tried_before(next, #[trigger] all[i]),
        place(all, next) < all.len() ==> tried_before(next, all[place(all, next)]),
    decreases all.len(),
{
    if all.len() > 0 && !tried_before(next, all[0]) {
        lemma_place(all.skip(1), next);
        assert forall|i: int| 0 <= i < place(all, next) implies !tried_before(
            next,
            #[trigger] all[i],
        ) by {
            if i > 0 {
                assert(all.skip(1)[i - 1] == all[i]);
            }
        }
    }
}

/// Putting a partition at its place keeps the order.
proof fn lemma_insert_in_order(all: Seq<PartitionView>, next: PartitionView)
    requires
        in_order(all),
    ensures
        in_order(all.insert(place(all, next), next)),
{
    let at = place(all, next);
    lemma_place(all, next);
    let more = all.insert(at, next);
    all.insert_ensures(at, next);
    assert forall|i: int, j: int| 0 <= i < j < more.len() implies !tried_before(
        #[trigger] more[j],
        #[trigger] more[i],
    ) by {
        lemma_text_order(next.device, next.device);
        if i == at {
            let a = all[at];
            let b = all[j - 1];
            lemma_text_order(next.device, a.device);
            lemma_text_order(a.device, b.device);
            if j - 1 > at {
                assert(!tried_before(b, a));
            }
            assert(!tried_before(a, next));
            lemma_not_before(next, a, b);
        } else if j == at {
            assert(more[i] == all[i]);
        } else {
            let oi = if i < at { i } else { i - 1 };
            let oj = if j < at { j } else { j - 1 };
            assert(more[i] == all[oi]);
            assert(more[j] == all[oj]);
        }
    }
}

/// The partitions are tried in the order of their priority, and those with the
/// same priority in the order of the names of their devices.
pub proof fn law_ranking_is_in_order(all: Seq<PartitionView>)
    ensures
        in_order(ranked(all)),
    decreases all.len(),
{
    if all.len() > 0 {
        law_ranking_is_in_order(all.drop_last());
        lemma_insert_in_order(ranked(all.drop_last()), all.last());
    }
}

/// The partitions with a given priority and device.
pub open spec fn alike(priority: u8, device: Seq<char>) -> spec_fn(PartitionView) -> bool {
    |p: PartitionView| p.priority == priority && p.device == device
}

/// The ranking drops and adds nothing, and partitions with the same priority
/// and device keep the order in which they were listed.
pub proof fn law_ranking_keeps_all(all: Seq<PartitionView>, priority: u8, device: Seq<char>)
    ensures
        ranked(all).filter(alike(priority, device)) == all.filter(alike(priority, device)),
        ranked(all).len() == all.len(),
    decreases all.len(),
{
    reveal(Seq::filter);
    let same = alike(priority, device);
    if all.len() > 0 {
        let front = all.drop_last();
        let next = all.last();
        let before = ranked(front);
        let at = place(before, next);
        law_ranking_keeps_all(front, priority, device);
        law_ranking_is_in_order(front);
        lemma_place(before, next);
        let low = before.subrange(0, at);
        let high = before.subrange(at, before.len() as int);
        assert(before =~= low + high);
        Seq::filter_distributes_over_add(low, high, same);
        Seq::filter_distributes_over_add(low.push(next), high, same);
        assert(low.push(next).drop_last() =~= low);
        if same(next) {
            assert forall|i: int| 0 <= i < high.len() implies !same(#[trigger] high[i]) by {
                let a = before[at];
                let b = before[at + i];
                if same(b) {
                    lemma_text_order(next.device, b.device);
                    lemma_text_order(a.device, b.device);
                    if i > 0 {
                        assert(!tried_before(b, a));
                    }
                    assert(tried_before(next, a));
                    lemma_text_order(next.device, a.device);
                    assert(false);
                }
            }
            lemma_filter_none(high, same);
            assert(low.push(next).filter(same) =~= low.filter(same).push(next));
            assert(ranked(all).filter(same) =~= low.filter(same).push(next));
            assert(before.filter(same) =~= low.filter(same));
        } else {
            assert(low.push(next).filter(same) =~= low.filter(same));
        }
    }
}

/// Where none is wanted, none is kept.
proof fn lemma_filter_none(s: Seq<PartitionView>, wanted: spec_fn(PartitionView) -> bool)
    requires
        forall|i: int| 0 <= i < s.len() ==> !wanted(#[trigger] s[i]),
    ensures
        s.filter(wanted) == Seq::<PartitionView>::empty(),
    decreases s.len(),
{
    reveal(Seq::filter);
    if s.len() > 0 {
        assert(!wanted(s[s.len() - 1]));
        lemma_filter_none(s.drop_last(), wanted);
    }
}

// ---------------------------------------------------------------------------
// Search
// ---------------------------------------------------------------------------

/// What came of mounting a partition.
#[derive(Debug, PartialEq, Eq)]
pub enum MountReply {
    /// It could not be mounted.
    Failed,
    /// It was mounted, and there is no directory of variables on it.
    Missing,
    /// It was mounted, and its directory of variables has no path.
    Unresolvable(String),
    /// It was mounted, and this is its directory of variables.
    Found(String),
}

/// What a `MountReply` says.
pub enum MountReplyView {
    Failed,
    Missing,
    Unresolvable(Seq<char>),
    Found(Seq<char>),
}

impl DeepView for MountReply {
    type V = MountReplyView;

    open spec fn deep_view(&self) -> MountReplyView {
        match *self {
            MountReply::Failed => MountReplyView::Failed,
            MountReply::Missing => MountReplyView::Missing,
            MountReply::Unresolvable(error) => MountReplyView::Unresolvable(error@),
            MountReply::Found(vars_dir) => MountReplyView::Found(vars_dir@),
        }
    }
}

/// What is to be done next in the search.
#[derive(Debug, PartialEq, Eq)]
pub enum SearchStage {
    /// Mount the partition with this place in the ranking.
    Mount(usize),
    /// Unmount it again: there are no variables on it.
    Unmount(usize),
    /// Remove the directory at which partitions were mounted.
    RemoveMountpoint,
    /// Nothing more: the variables are here, on a partition that the search has
    /// mounted.
    Found(MountedScanCandidate),
    /// Nothing more: there are no variables.
    Stopped(ScanError),
}

/// What a `SearchStage` says.
pub enum SearchView {
    Mount(nat),
    Unmount(nat),
    RemoveMountpoint,
    Found(mountinfo::CandidateView),
    Stopped(crate::scan::ErrorView),
}

impl DeepView for SearchStage {
    type V = SearchView;

    open spec fn deep_view(&self) -> SearchView {
        match *self {
            SearchStage::Mount(i) => SearchView::Mount(i as nat),
            SearchStage::Unmount(i) => SearchView::Unmount(i as nat),
            SearchStage::RemoveMountpoint => SearchView::RemoveMountpoint,
            SearchStage::Found(candidate) => SearchView::Found(candidate.deep_view()),
            SearchStage::Stopped(error) => SearchView::Stopped(error.deep_view()),
        }
    }
}

/// The search goes on with the partition in place `i`, if there is one.
pub open spec fn try_at(count: nat, i: nat) -> SearchView {
    if i < count {
        SearchView::Mount(i)
    } else {
        SearchView::RemoveMountpoint
    }
}

/// The variables were found on a partition: the switcher itself has mounted it.
pub open spec fn found_on(
    partition: PartitionView,
    mountpoint: Seq<char>,
    vars_dir: Seq<char>,
) -> mountinfo::CandidateView {
    mountinfo::CandidateView {
        vars_dir,
        active_mount: Some(
            mount::MountView { device: partition.device, mountpoint, owned: true },
        ),
    }
}

/// The mount of the partition `device`, which the switcher itself has mounted at
/// `mountpoint`.
pub fn found_mount(device: String, mountpoint: &str) -> (r: ActiveMount)
    ensures
        r.deep_view() == (mount::MountView { device: device@, mountpoint: mountpoint@, owned: true }),
{
    ActiveMount { device, mountpoint: mountpoint.to_owned(), owned: true }
}

/// What follows a stage of the search, which mounts partitions at `mountpoint`.
/// The reply matters only where a partition was to be mounted; where there is no
/// such partition, the search is over.
pub open spec fn next_search_stage(
    candidates: Seq<PartitionView>,
    mountpoint: Seq<char>,
    stage: SearchView,
    reply: MountReplyView,
) -> SearchView {
    match stage {
        SearchView::Mount(i) => if i >= candidates.len() {
            SearchView::RemoveMountpoint
        } else {
            match reply {
                MountReplyView::Failed => try_at(candidates.len(), i + 1),
                MountReplyView::Missing => SearchView::Unmount(i),
                MountReplyView::Unresolvable(error) => SearchView::Stopped(
                    crate::scan::ErrorView::Unresolvable(error),
                ),
                MountReplyView::Found(vars_dir) => SearchView::Found(
                    found_on(candidates[i as int], mountpoint, vars_dir),
                ),
            }
        },
        SearchView::Unmount(i) => try_at(candidates.len(), i + 1),
        SearchView::RemoveMountpoint => SearchView::Stopped(crate::scan::ErrorView::NothingFound),
        _ => stage,
    }
}

/// Where the search begins.
pub fn begin_search(candidates: &Vec<PartitionCandidate>) -> (r: SearchStage)
    ensures
        r.deep_view() == try_at(candidates@.len(), 0),
{
    if candidates.len() > 0 {
        SearchStage::Mount(0)
    } else {
        SearchStage::RemoveMountpoint
    }
}

/// What follows `stage` of the search among `candidates`, which mounts them at
/// `mountpoint`, once a partition that was to be mounted has given `reply`.
pub fn scan_unmounted_partition(
    candidates: &Vec<PartitionCandidate>,
    mountpoint: &str,
    stage: SearchStage,
    reply: MountReply,
) -> (r: SearchStage)
    ensures
        r.deep_view() == next_search_stage(
            candidates.deep_view(),
            mountpoint@,
            stage.deep_view(),
            reply.deep_view(),
        ),
{
    assert(candidates.deep_view().len() == candidates@.len());
    let count: usize = candidates.len();
    match stage {
        SearchStage::Mount(i) => {
            if i >= count {
                return SearchStage::RemoveMountpoint;
            }
            match reply {
                MountReply::Failed => if i < count - 1 {
                    SearchStage::Mount(i + 1)
                } else {
                    SearchStage::RemoveMountpoint
                },
                MountReply::Missing => SearchStage::Unmount(i),
                MountReply::Unresolvable(error) => SearchStage::Stopped(
                    ScanError::Unresolvable(error),
                ),
                MountReply::Found(vars_dir) => {
                    assert(candidates.deep_view()[i as int] == candidates@[i as int].deep_view());
                    let found: ActiveMount = found_mount(candidates[i].device.clone(), mountpoint);
                    SearchStage::Found(
                        MountedScanCandidate { vars_dir, active_mount: Some(found) },
                    )
                },
            }
        },
        SearchStage::Unmount(i) => if count > 0 && i < count - 1 {
            SearchStage::Mount(i + 1)
        } else {
            SearchStage::RemoveMountpoint
        },
        SearchStage::RemoveMountpoint => SearchStage::Stopped(ScanError::NothingFound),
        other => other,
    }
}

/// The command that a stage of the search runs, if it runs one: partitions are
/// mounted read-only.
pub open spec fn command_at(
    platform: Platform,
    root: bool,
    ids: Option<(nat, nat)>,
    candidates: Seq<PartitionView>,
    mountpoint: Seq<char>,
    stage: SearchView,
) -> Option<command::CommandView> {
    match stage {
        SearchView::Mount(i) if i < candidates.len() => Some(
            mount::mount_line(
                platform,
                root,
                ids,
                candidates[i as int].filesystem,
                candidates[i as int].device,
                mountpoint,
            ),
        ),
        SearchView::Unmount(_) => Some(mount::unmount_line(platform, root, mountpoint)),
        _ => None,
    }
}

/// The command that `stage` of the search among `candidates` runs, if it runs one.
pub fn search_command(
    platform: Platform,
    root: bool,
    ids: Option<(u32, u32)>,
    candidates: &Vec<PartitionCandidate>,
    mountpoint: &str,
    stage: &SearchStage,
) -> (r: Option<CommandLine>)
    ensures
        r.deep_view() == command_at(
            platform,
            root,
            users::ids_view(ids),
            candidates.deep_view(),
            mountpoint@,
            stage.deep_view(),
        ),
{
    match stage {
        SearchStage::Mount(i) => {
            assert(candidates.deep_view().len() == candidates@.len());
            if *i < candidates.len() {
                assert(candidates.deep_view()[*i as int] == candidates@[*i as int].deep_view());
                Some(
                    mount::mount_partition_command(
                        platform,
                        root,
                        ids,
                        candidates[*i].filesystem.as_str(),
                        candidates[*i].device.as_str(),
                        mountpoint,
                    ),
                )
            } else {
                None
            }
        },
        SearchStage::Unmount(_) => Some(mount::unmount_command(platform, root, mountpoint)),
        _ => None,
    }
}

/// Every partition that the search mounts is mounted read-only.
pub proof fn law_search_mounts_read_only(
    platform: Platform,
    root: bool,
    ids: Option<(nat, nat)>,
    candidates: Seq<PartitionView>,
    mountpoint: Seq<char>,
    i: nat,
)
    requires
        i < candidates.len(),
    ensures
        command_at(platform, root, ids, candidates, mountpoint, SearchView::Mount(i)) matches Some(
            line,
        ) && line.args.len() >= 6 && line.args[line.args.len() - 6] == "-o"@
            && line.args[line.args.len() - 5] == mount::options("ro"@, ids),
{
}

/// A partition without variables is unmounted before anything else is done, and
/// the search says that there are none only once the directory at which it mounts
/// was to be removed. One whose directory of variables has no path ends the search
/// at once: it stays mounted.
pub proof fn law_search_unmounts_what_it_passes_over(
    candidates: Seq<PartitionView>,
    mountpoint: Seq<char>,
    stage: SearchView,
    reply: MountReplyView,
)
    ensures
        stage matches SearchView::Mount(i) ==> i < candidates.len() ==> match reply {
            MountReplyView::Missing => next_search_stage(candidates, mountpoint, stage, reply)
                == SearchView::Unmount(i),
            MountReplyView::Unresolvable(error) => next_search_stage(
                candidates,
                mountpoint,
                stage,
                reply,
            ) == SearchView::Stopped(crate::scan::ErrorView::Unresolvable(error)),
            _ => true,
        },
        !(stage is Stopped) && next_search_stage(candidates, mountpoint, stage, reply)
            == SearchView::Stopped(crate::scan::ErrorView::NothingFound) ==> stage
            is RemoveMountpoint,
{
}

/// The variables are only ever found on a partition that the search itself has
/// mounted, at its own mountpoint.
pub proof fn law_found_partition_is_owned(
    candidates: Seq<PartitionView>,
    mountpoint: Seq<char>,
    stage: SearchView,
    reply: MountReplyView,
)
    requires
        !(stage is Found),
        next_search_stage(candidates, mountpoint, stage, reply) is Found,
    ensures
        ({
            let found = next_search_stage(candidates, mountpoint, stage, reply)->Found_0;
            &&& stage is Mount && stage->Mount_0 < candidates.len()
            &&& reply == MountReplyView::Found(found.vars_dir)
            &&& found.active_mount == Some(
                mount::MountView {
                    device: candidates[stage->Mount_0 as int].device,
                    mountpoint,
                    owned: true,
                },
            )
        }),
{
}

/// How the search ends from a stage on, where `replies[i]` comes of mounting
/// the partition in place `i`.
pub open spec fn search_end(
    candidates: Seq<PartitionView>,
    mountpoint: Seq<char>,
    stage: SearchView,
    replies: Seq<MountReplyView>,
    steps: nat,
) -> SearchView
    decreases steps,
{
    if steps == 0 || stage is Found || stage is Stopped {
        stage
    } else {
        let reply = match stage {
            SearchView::Mount(i) => replies[i as int],
            _ => MountReplyView::Failed,
        };
        search_end(
            candidates,
            mountpoint,
            next_search_stage(candidates, mountpoint, stage, reply),
            replies,
            (steps - 1) as nat,
        )
    }
}

/// A partition is passed over if it cannot be mounted or holds no variables.
pub open spec fn passed_over(reply: MountReplyView) -> bool {
    reply is Failed || reply is Missing
}

/// The search passes over partitions without variables, from place `i` to place
/// `k`.
proof fn lemma_search_passes(
    candidates: Seq<PartitionView>,
    mountpoint: Seq<char>,
    replies: Seq<MountReplyView>,
    i: nat,
    k: nat,
    steps: nat,
) -> (left: nat)
    requires
        i <= k <= candidates.len(),
        replies.len() == candidates.len(),
        forall|j: int| i <= j < k ==> passed_over(#[trigger] replies[j]),
        steps >= 2 * (candidates.len() - i) + 2,
    ensures
        search_end(candidates, mountpoint, try_at(candidates.len(), i), replies, steps)
            == search_end(
            candidates,
            mountpoint,
            try_at(candidates.len(), k),
            replies,
            left,
        ),
        left >= 2 * (candidates.len() - k) + 2,
    decreases k - i,
{
    if i == k {
        steps
    } else {
        reveal_with_fuel(search_end, 3);
        assert(passed_over(replies[i as int]));
        let used: nat = if replies[i as int] is Missing { 2 } else { 1 };
        lemma_search_passes(candidates, mountpoint, replies, i + 1, k, (steps - used) as nat)
    }
}

/// The search ends at the first partition with variables: those before it could
/// not be mounted or hold none.
pub proof fn law_search_finds_first(
    candidates: Seq<PartitionView>,
    mountpoint: Seq<char>,
    replies: Seq<MountReplyView>,
    k: nat,
    vars_dir: Seq<char>,
    steps: nat,
)
    requires
        replies.len() == candidates.len(),
        k < candidates.len(),
        forall|j: int| 0 <= j < k ==> passed_over(#[trigger] replies[j]),
        replies[k as int] == MountReplyView::Found(vars_dir),
        steps >= 2 * candidates.len() + 2,
    ensures
        search_end(candidates, mountpoint, try_at(candidates.len(), 0), replies, steps)
            == SearchView::Found(found_on(candidates[k as int], mountpoint, vars_dir)),
{
    let left = lemma_search_passes(candidates, mountpoint, replies, 0, k, steps);
    reveal_with_fuel(search_end, 2);
}

/// Where no partition holds variables, the search says so.
pub proof fn law_search_ends(
    candidates: Seq<PartitionView>,
    mountpoint: Seq<char>,
    replies: Seq<MountReplyView>,
    steps: nat,
)
    requires
        replies.len() == candidates.len(),
        forall|j: int| 0 <= j < replies.len() ==> passed_over(#[trigger] replies[j]),
        steps >= 2 * candidates.len() + 2,
    ensures
        search_end(candidates, mountpoint, try_at(candidates.len(), 0), replies, steps)
            == SearchView::Stopped(crate::scan::ErrorView::NothingFound),
{
    let left = lemma_search_passes(candidates, mountpoint, replies, 0, candidates.len(), steps);
    reveal_with_fuel(search_end, 2);
}

/// Of an ASCII text, lower case changes the capital letters alone, each to its small
/// form.
pub proof fn law_lower_case_of_ascii(s: Seq<char>)
    requires
        forall|i: int| 0 <= i < s.len() ==> (#[trigger] s[i]) as int <= 127,
    ensures
        lowercase(s).len() == s.len(),
        forall|i: int|
            0 <= i < s.len() ==> (#[trigger] lowercase(s)[i]) as int == s[i] as int + if 65
                <= s[i] as int <= 90 {
                32int
            } else {
                0int
            },
{
    assert(ascii(s));
}

/// A word without a blank stands in two labels with a blank between them just where it
/// stands in one of them.
proof fn lemma_word_in_labels(word: Seq<char>, label: Seq<char>, partlabel: Seq<char>)
    requires
        word.len() > 0,
        !word.contains(' '),
    ensures
        text::occurs_in(word, label + " "@ + partlabel) <==> text::occurs_in(word, label)
            || text::occurs_in(word, partlabel),
{
    reveal_strlit(" ");
    let hints = label + " "@ + partlabel;
    let n = label.len() as int;
    let m = word.len() as int;
    assert(hints[n] == ' ');
    if text::occurs_in(word, hints) {
        let i = choose|i: int| text::occurs_at(word, hints, i);
        if i + m <= n {
            assert(hints.subrange(i, i + m) =~= label.subrange(i, i + m));
            assert(text::occurs_at(word, label, i));
        } else if i > n {
            let j = i - n - 1;
            assert(hints.subrange(i, i + m) =~= partlabel.subrange(j, j + m));
            assert(text::occurs_at(word, partlabel, j));
        } else {
            assert(hints.subrange(i, i + m)[n - i] == hints[n]);
            assert(word[n - i] == ' ');
            assert(false);
        }
    }
    if text::occurs_in(word, label) {
        let i = choose|i: int| text::occurs_at(word, label, i);
        assert(hints.subrange(i, i + m) =~= label.subrange(i, i + m));
        assert(text::occurs_at(word, hints, i));
    }
    if text::occurs_in(word, partlabel) {
        let i = choose|i: int| text::occurs_at(word, partlabel, i);
        let j = n + 1 + i;
        assert(hints.subrange(j, j + m) =~= partlabel.subrange(i, i + m));
        assert(text::occurs_at(word, hints, j));
    }
}

/// What is in a field of a device, in lower case; nothing where the field is empty.
pub open spec fn small(field: Option<Seq<char>>) -> Seq<char> {
    lowercase(
        if field is Some {
            field->0
        } else {
            Seq::empty()
        },
    )
}

/// A device is a candidate just where it has a path and a FAT file system and is mounted
/// nowhere; the candidate has that path and that file system.
pub proof fn law_candidates_are_unmounted_fat_devices(device: DeviceView)
    ensures
        partition(device) is Some <==> {
            &&& device.path is Some
            &&& device.fstype is Some && mountinfo::fat_filesystem(device.fstype->0)
            &&& device.mountpoints matches Some(all) ==> forall|i: int|
                0 <= i < all.len() ==> (#[trigger] all[i]) is None || all[i]->0.len() == 0
        },
        partition(device) matches Some(found) ==> Some(found.device) == device.path && Some(
            found.filesystem,
        ) == device.fstype,
{
}

/// The priority of a candidate goes by the device as it is listed: it is the first where
/// the label or the partition label, in lower case, names rEFInd; else the second where
/// the partition type is that of an EFI system partition or the labels, one behind the
/// other, name one; else the last.
pub proof fn law_priority_goes_by_the_device(device: DeviceView)
    requires
        partition(device) is Some,
    ensures
        ({
            let label = small(device.label);
            let partlabel = small(device.partlabel);
            let named = text::occurs_in("refind"@, label) || text::occurs_in("refind"@, partlabel);
            let system = small(device.parttype) == "c12a7328-f81f-11d2-ba4b-00a0c93ec93b"@
                || text::occurs_in("efi system partition"@, label + " "@ + partlabel);
            &&& partition(device)->0.priority == 0 <==> named
            &&& partition(device)->0.priority == 1 <==> !named && system
            &&& partition(device)->0.priority == 2 <==> !named && !system
            &&& text::occurs_in("efi system partition"@, label) || text::occurs_in(
                "efi system partition"@,
                partlabel,
            ) ==> partition(device)->0.priority <= 1
        }),
{
    let label = small(device.label);
    let partlabel = small(device.partlabel);
    let hints = label + " "@ + partlabel;
    reveal_strlit("refind");
    lemma_word_in_labels("refind"@, label, partlabel);
    let name = "efi system partition"@;
    let m = name.len() as int;
    if text::occurs_in(name, label) {
        let i = choose|i: int| text::occurs_at(name, label, i);
        assert(hints.subrange(i, i + m) =~= label.subrange(i, i + m));
        assert(text::occurs_at(name, hints, i));
    }
    if text::occurs_in(name, partlabel) {
        let i = choose|i: int| text::occurs_at(name, partlabel, i);
        let j = label.len() + " "@.len() + i;
        assert(hints.subrange(j, j + m) =~= partlabel.subrange(i, i + m));
        assert(text::occurs_at(name, hints, j));
    }
}

/// The candidates of some devices are those of each of them, in order.
pub proof fn law_candidates_are_those_of_the_devices(a: Seq<DeviceView>, b: Seq<DeviceView>)
    ensures
        partitions_in(a + b) == partitions_in(a) + partitions_in(b),
        forall|device: DeviceView| #[trigger] partitions_in(seq![device]) == match partition(device) {
            Some(found) => seq![found],
            None => Seq::empty(),
        },
    decreases b.len(),
{
    assert forall|device: DeviceView| #[trigger] partitions_in(seq![device]) == match partition(
        device,
    ) {
        Some(found) => seq![found],
        None => Seq::empty(),
    } by {
        assert(seq![device].drop_last() =~= Seq::empty());
        reveal_with_fuel(partitions_in, 2);
        assert(partitions_in(Seq::empty()) =~= Seq::empty());
        assert(partitions_in(seq![device]) =~= match partition(device) {
            Some(found) => seq![found],
            None => Seq::empty(),
        });
    }
    if b.len() == 0 {
        assert(a + b =~= a);
        assert(partitions_in(a + b) =~= partitions_in(a) + partitions_in(b));
    } else {
        law_candidates_are_those_of_the_devices(a, b.drop_last());
        assert((a + b).drop_last() =~= a + b.drop_last());
        assert((a + b).last() == b.last());
        assert(partitions_in(a + b) =~= partitions_in(a) + partitions_in(b));
    }
}

/// Texts are in the order of a dictionary: one comes before another where both agree up
/// to a place at which the first ends, or has the smaller character.
pub proof fn law_text_order_is_that_of_a_dictionary(
    common: Seq<char>,
    c: char,
    d: char,
    a: Seq<char>,
    b: Seq<char>,
)
    ensures
        text_before(common, common.push(c) + a),
        !text_before(common.push(c) + a, common),
        !text_before(common, common),
        c < d ==> text_before(common.push(c) + a, common.push(d) + b) && !text_before(
            common.push(d) + b,
            common.push(c) + a,
        ),
    decreases common.len(),
{
    let x = common.push(c) + a;
    let y = common.push(d) + b;
    if common.len() > 0 {
        let rest = common.skip(1);
        law_text_order_is_that_of_a_dictionary(rest, c, d, a, b);
        assert(x.skip(1) =~= rest.push(c) + a);
        assert(y.skip(1) =~= rest.push(d) + b);
        assert(x[0] == common[0] && y[0] == common[0]);
    } else {
        assert(x[0] == c && y[0] == d);
    }
}

/// In the ranking, a partition comes behind none of a higher number of priority, and
/// among those of the same behind none whose device comes later.
pub proof fn law_ranking_goes_by_priority_and_device(all: Seq<PartitionView>, i: int, j: int)
    requires
        0 <= i < j < ranked(all).len(),
    ensures
        ranked(all)[i].priority <= ranked(all)[j].priority,
        ranked(all)[i].priority == ranked(all)[j].priority ==> !text_before(
            ranked(all)[j].device,
            ranked(all)[i].device,
        ),
{
    law_ranking_is_in_order(all);
    assert(!tried_before(ranked(all)[j], ranked(all)[i]));
}

/// The search unmounts at the place at which it mounts.
pub proof fn law_search_unmounts_at_its_place(
    platform: Platform,
    root: bool,
    ids: Option<(nat, nat)>,
    candidates: Seq<PartitionView>,
    mountpoint: Seq<char>,
    i: nat,
)
    ensures
        command_at(platform, root, ids, candidates, mountpoint, SearchView::Unmount(i)) == Some(
            mount::unmount_line(platform, root, mountpoint),
        ),
        i < candidates.len() ==> command_at(
            platform,
            root,
            ids,
            candidates,
            mountpoint,
            SearchView::Mount(i),
        ) == Some(
            mount::mount_line(
                platform,
                root,
                ids,
                candidates[i as int].filesystem,
                candidates[i as int].device,
                mountpoint,
            ),
        ),
        command_at(platform, root, ids, candidates, mountpoint, SearchView::RemoveMountpoint)
            is None,
{
}

/// The search tries the partitions one after the other, from the first on: what could not
/// be mounted, or was unmounted again, is followed by the next, and the last by the end.
pub proof fn law_search_goes_on_with_the_next(
    candidates: Seq<PartitionView>,
    mountpoint: Seq<char>,
    i: nat,
    reply: MountReplyView,
)
    requires
        i < candidates.len(),
    ensures
        ({
            let next = if i + 1 < candidates.len() {
                SearchView::Mount((i + 1) as nat)
            } else {
                SearchView::RemoveMountpoint
            };
            &&& next_search_stage(
                candidates,
                mountpoint,
                SearchView::Mount(i),
                MountReplyView::Failed,
            ) == next
            &&& next_search_stage(candidates, mountpoint, SearchView::Unmount(i), reply) == next
            &&& try_at(candidates.len(), 0) == SearchView::Mount(0)
        }),
{
}

/// The devices are asked for as JSON, with every property by which a partition is judged.
pub proof fn law_devices_are_asked_for_with_their_properties()
    ensures
        listing_line().program == "lsblk"@,
        listing_line().args == seq![
            "--json"@,
            "--output"@,
            "PATH,TYPE,FSTYPE,LABEL,PARTLABEL,PARTTYPE,MOUNTPOINTS"@,
        ],
{
}

/// Only mounting a partition that is among the candidates, and unmounting, run a command. A
/// search that has come to its end stays there.
pub proof fn law_search_runs_nothing_else(
    platform: Platform,
    root: bool,
    ids: Option<(nat, nat)>,
    candidates: Seq<PartitionView>,
    mountpoint: Seq<char>,
    stage: SearchView,
    reply: MountReplyView,
)
    ensures
        command_at(platform, root, ids, candidates, mountpoint, stage) is Some <==> (
        stage matches SearchView::Mount(i) && i < candidates.len()) || stage is Unmount,
        stage is Found || stage is Stopped ==> next_search_stage(
            candidates,
            mountpoint,
            stage,
            reply,
        ) == stage,
        next_search_stage(candidates, mountpoint, SearchView::RemoveMountpoint, reply)
            == SearchView::Stopped(crate::scan::ErrorView::NothingFound),
{
}

} // verus!
