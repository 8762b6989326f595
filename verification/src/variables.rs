//! The boot variables of rEFInd: the template of each system, and which of
//! them the next boot follows.
use vstd::prelude::*;
use vstd::string::*;

use crate::command::Platform;
use crate::digest;
use crate::paths;
use crate::text;
use crate::unix_path;

verus! {

/// The file that rEFInd reads at the next boot.
pub const TARGET_NAME: &'static str = "PreviousBoot";

/// The directory of variables on a partition.
pub const VARS_DIRECTORY: &'static str = "EFI/refind/vars";

/// A system that can be booted, with its template.
#[derive(Clone, Copy, Debug, PartialEq, Eq, Structural)]
pub enum BootSystem {
    Linux,
    Windows,
    MacOs,
}

impl BootSystem {
    /// The key of a system.
    pub open spec fn key(self) -> Seq<char> {
        match self {
            BootSystem::Linux => "linux"@,
            BootSystem::Windows => "windows"@,
            BootSystem::MacOs => "macos"@,
        }
    }

    /// The name under which a system is shown.
    pub open spec fn title(self) -> Seq<char> {
        match self {
            BootSystem::Linux => "Linux"@,
            BootSystem::Windows => "Windows"@,
            BootSystem::MacOs => "macOS"@,
        }
    }

    /// The file name of the template of a system.
    pub open spec fn template(self) -> Seq<char> {
        match self {
            BootSystem::Linux => "PreviousBoot-linux"@,
            BootSystem::Windows => "PreviousBoot-windows"@,
            BootSystem::MacOs => "PreviousBoot-mac"@,
        }
    }

    /// The key of this system.
    pub fn system(self) -> (r: &'static str)
        ensures
            r@ == self.key(),
    {
        match self {
            BootSystem::Linux => "linux",
            BootSystem::Windows => "windows",
            BootSystem::MacOs => "macos",
        }
    }

    /// The name under which this system is shown.
    pub fn display_name(self) -> (r: &'static str)
        ensures
            r@ == self.title(),
    {
        match self {
            BootSystem::Linux => "Linux",
            BootSystem::Windows => "Windows",
            BootSystem::MacOs => "macOS",
        }
    }

    /// The file name of the template of this system.
    pub fn source_name(self) -> (r: &'static str)
        ensures
            r@ == self.template(),
    {
        match self {
            BootSystem::Linux => "PreviousBoot-linux",
            BootSystem::Windows => "PreviousBoot-windows",
            BootSystem::MacOs => "PreviousBoot-mac",
        }
    }

    /// The system with the key `system`, if there is one.
    pub fn find(system: &str) -> (r: Option<BootSystem>)
        ensures
            r matches Some(found) ==> found.key() == system@,
            r is None ==> forall|s: BootSystem| (#[trigger] s.key()) != system@,
    {
        if text::same_text(system, "linux") {
            Some(BootSystem::Linux)
        } else if text::same_text(system, "windows") {
            Some(BootSystem::Windows)
        } else if text::same_text(system, "macos") {
            Some(BootSystem::MacOs)
        } else {
            None
        }
    }
}

/// Two systems have neither the same key nor the same template.
pub proof fn law_systems_are_distinct(a: BootSystem, b: BootSystem)
    ensures
        a.key() == b.key() ==> a == b,
        a.template() == b.template() ==> a == b,
{
    reveal_strlit("linux");
    reveal_strlit("windows");
    reveal_strlit("macos");
    reveal_strlit("PreviousBoot-linux");
    reveal_strlit("PreviousBoot-windows");
    reveal_strlit("PreviousBoot-mac");
    assert("linux"@[0] != "macos"@[0]);
    assert(BootSystem::Linux.template().len() == 18);
    assert(BootSystem::Windows.template().len() == 20);
    assert(BootSystem::MacOs.template().len() == 16);
}

/// What is known of a system in a directory of variables.
#[derive(Debug, PartialEq, Eq)]
pub struct VariableInfo {
    pub system: String,
    pub display_name: String,
    pub source_name: String,
    /// The path of the template.
    pub source: String,
    /// Whether the template is there.
    pub exists: bool,
    /// Whether the next boot follows it.
    pub active: bool,
}

/// What a `VariableInfo` says.
pub struct VariableView {
    pub system: Seq<char>,
    pub display_name: Seq<char>,
    pub source_name: Seq<char>,
    pub source: Seq<char>,
    pub exists: bool,
    pub active: bool,
}

impl DeepView for VariableInfo {
    type V = VariableView;

    open spec fn deep_view(&self) -> VariableView {
        VariableView {
            system: self.system@,
            display_name: self.display_name@,
            source_name: self.source_name@,
            source: self.source@,
            exists: self.exists,
            active: self.active,
        }
    }
}

impl Clone for VariableInfo {
    fn clone(&self) -> (r: Self)
        ensures
            r == *self,
    {
        VariableInfo {
            system: self.system.clone(),
            display_name: self.display_name.clone(),
            source_name: self.source_name.clone(),
            source: self.source.clone(),
            exists: self.exists,
            active: self.active,
        }
    }
}

/// A copy of a list of variables.
pub fn copy_variables(variables: &Vec<VariableInfo>) -> (r: Vec<VariableInfo>)
    ensures
        r.deep_view() == variables.deep_view(),
{
    let r: Vec<VariableInfo> = variables.clone();
    assert(r@ =~= variables@);
    r
}

/// What was found of a template: whether it is a file, and its contents if they
/// could be read.
#[derive(Debug, PartialEq, Eq)]
pub struct TemplateProbe {
    pub exists: bool,
    pub contents: Option<Vec<u8>>,
}

/// What a `TemplateProbe` says.
pub struct ProbeView {
    pub exists: bool,
    pub contents: Option<Seq<u8>>,
}

impl DeepView for TemplateProbe {
    type V = ProbeView;

    open spec fn deep_view(&self) -> ProbeView {
        ProbeView { exists: self.exists, contents: self.contents.deep_view() }
    }
}

/// The path of the template of a system in a directory of variables.
pub open spec fn template_in(
    platform: Platform,
    directory: Seq<char>,
    system: BootSystem,
) -> Seq<char> {
    paths::inside(platform, directory, system.template())
}

/// The path of the template of `system` in the directory of variables `directory`.
pub fn template_path(platform: Platform, directory: &str, system: BootSystem) -> (r: String)
    ensures
        r@ == template_in(platform, directory@, system),
{
    paths::join(platform, directory, system.source_name())
}

/// The path of the file that rEFInd reads, in a directory of variables.
pub open spec fn target_in(platform: Platform, directory: Seq<char>) -> Seq<char> {
    paths::inside(platform, directory, TARGET_NAME@)
}

/// The path of the file that rEFInd reads, in the directory of variables
/// `directory`.
pub fn target_path(platform: Platform, directory: &str) -> (r: String)
    ensures
        r@ == target_in(platform, directory@),
{
    paths::join(platform, directory, TARGET_NAME)
}

/// What is known of `system` in a directory: the next boot follows it if its
/// template is there and has the digest of the file that rEFInd reads.
pub open spec fn inspected(
    platform: Platform,
    directory: Seq<char>,
    system: BootSystem,
    probe: ProbeView,
    target: Option<Seq<u8>>,
) -> VariableView {
    VariableView {
        system: system.key(),
        display_name: system.title(),
        source_name: system.template(),
        source: template_in(platform, directory, system),
        exists: probe.exists,
        active: probe.exists && digest::same_digest(probe.contents, target),
    }
}

/// What is known of `system` in `directory`, from what was found of its template
/// there and the contents of the file that rEFInd reads.
pub fn inspect_variable(
    platform: Platform,
    directory: &str,
    system: BootSystem,
    probe: TemplateProbe,
    target: &Option<Vec<u8>>,
) -> (r: VariableInfo)
    ensures
        r.deep_view() == inspected(
            platform,
            directory@,
            system,
            probe.deep_view(),
            target.deep_view(),
        ),
{
    VariableInfo {
        system: system.system().to_owned(),
        display_name: system.display_name().to_owned(),
        source_name: system.source_name().to_owned(),
        source: template_path(platform, directory, system),
        exists: probe.exists,
        active: probe.exists && digest::hashes_match(&probe.contents, target),
    }
}

/// What is known of all systems in a directory, in the order in which they are
/// shown.
pub open spec fn all_inspected(
    platform: Platform,
    directory: Seq<char>,
    linux: ProbeView,
    windows: ProbeView,
    macos: ProbeView,
    target: Option<Seq<u8>>,
) -> Seq<VariableView> {
    seq![
        inspected(platform, directory, BootSystem::Linux, linux, target),
        inspected(platform, directory, BootSystem::Windows, windows, target),
        inspected(platform, directory, BootSystem::MacOs, macos, target),
    ]
}

/// What is known of all systems in `directory`, in the order in which they are
/// shown.
pub fn inspect_variables(
    platform: Platform,
    directory: &str,
    linux: TemplateProbe,
    windows: TemplateProbe,
    macos: TemplateProbe,
    target: &Option<Vec<u8>>,
) -> (r: Vec<VariableInfo>)
    ensures
        r@.len() == 3,
        r.deep_view() == all_inspected(
            platform,
            directory@,
            linux.deep_view(),
            windows.deep_view(),
            macos.deep_view(),
            target.deep_view(),
        ),
{
    let mut variables: Vec<VariableInfo> = Vec::new();
    variables.push(inspect_variable(platform, directory, BootSystem::Linux, linux, target));
    variables.push(inspect_variable(platform, directory, BootSystem::Windows, windows, target));
    variables.push(inspect_variable(platform, directory, BootSystem::MacOs, macos, target));
    assert(variables.deep_view() =~= all_inspected(
        platform,
        directory@,
        linux.deep_view(),
        windows.deep_view(),
        macos.deep_view(),
        target.deep_view(),
    ));
    variables
}

/// A template lies in its directory, under its name, on every system but Windows,
/// whose paths have no components here.
pub proof fn law_template_lies_in_its_directory(
    platform: Platform,
    directory: Seq<char>,
    system: BootSystem,
)
    requires
        platform != Platform::Windows,
    ensures
        unix_path::lies_in(template_in(platform, directory, system), directory),
        unix_path::last_name(template_in(platform, directory, system)) == Some(system.template()),
{
    reveal_strlit("PreviousBoot-linux");
    reveal_strlit("PreviousBoot-windows");
    reveal_strlit("PreviousBoot-mac");
    let name = system.template();
    assert(name.len() > 2);
    assert(!name.contains('/'));
    unix_path::law_joined_name_lies_below(directory, name);
}

/// Once the file that rEFInd reads is a copy of a template, the next boot
/// follows that template.
pub proof fn law_copied_template_is_active(
    platform: Platform,
    directory: Seq<char>,
    system: BootSystem,
    probe: ProbeView,
)
    requires
        probe.exists,
        probe.contents is Some,
    ensures
        inspected(platform, directory, system, probe, probe.contents).active,
{
}

/// A template that is not there is never followed, nor is any while the file
/// that rEFInd reads cannot be read.
pub proof fn law_missing_template_is_not_active(
    platform: Platform,
    directory: Seq<char>,
    system: BootSystem,
    probe: ProbeView,
    target: Option<Seq<u8>>,
)
    requires
        !probe.exists || target is None,
    ensures
        !inspected(platform, directory, system, probe, target).active,
{
}

// ---------------------------------------------------------------------------
// Paths as they are shown
// ---------------------------------------------------------------------------

/// A path as it is shown: without the prefixes by which Windows marks a path
/// that it takes literally.
pub open spec fn shown_path(path: Seq<char>) -> Seq<char> {
    if text::begins_with(path, "\\\\?\\UNC\\"@) {
        "\\\\"@ + path.skip("\\\\?\\UNC\\"@.len() as int)
    } else if text::begins_with(path, "\\\\?\\"@) {
        path.skip("\\\\?\\"@.len() as int)
    } else {
        path
    }
}

/// `path` as it is shown.
pub fn display_path(path: &str) -> (r: String)
    ensures
        r@ == shown_path(path@),
{
    if let Some(share) = text::strip_prefix(path, "\\\\?\\UNC\\") {
        text::concat("\\\\", share.as_str())
    } else if let Some(local) = text::strip_prefix(path, "\\\\?\\") {
        local
    } else {
        path.to_owned()
    }
}

/// Every system has its key, its name and its own template.
pub proof fn law_systems_have_their_names()
    ensures
        BootSystem::Linux.key() == "linux"@ && BootSystem::Linux.title() == "Linux"@
            && BootSystem::Linux.template() == "PreviousBoot-linux"@,
        BootSystem::Windows.key() == "windows"@ && BootSystem::Windows.title() == "Windows"@
            && BootSystem::Windows.template() == "PreviousBoot-windows"@,
        BootSystem::MacOs.key() == "macos"@ && BootSystem::MacOs.title() == "macOS"@
            && BootSystem::MacOs.template() == "PreviousBoot-mac"@,
{
}

/// The file that rEFInd reads and the templates lie in the directory of variables,
/// under their names.
pub proof fn law_files_lie_side_by_side(
    platform: Platform,
    directory: Seq<char>,
    system: BootSystem,
)
    ensures
        target_in(platform, directory) == paths::inside(platform, directory, "PreviousBoot"@),
        template_in(platform, directory, system) == paths::inside(
            platform,
            directory,
            system.template(),
        ),
{
}

/// What is known of a system is what was found of its own template: it is active
/// just where the template is a file and both it and the file that rEFInd reads
/// could be read and have the same SHA-256 digest.
pub proof fn law_inspection_tells_what_was_found(
    platform: Platform,
    directory: Seq<char>,
    system: BootSystem,
    probe: ProbeView,
    target: Option<Seq<u8>>,
)
    ensures
        ({
            let known = inspected(platform, directory, system, probe, target);
            &&& known.system == system.key()
            &&& known.display_name == system.title()
            &&& known.source_name == system.template()
            &&& known.source == paths::inside(platform, directory, system.template())
            &&& known.exists == probe.exists
            &&& known.active <==> probe.exists && probe.contents is Some && target is Some
                && digest::sha256(probe.contents->0) == digest::sha256(target->0)
        }),
{
}

/// All three systems are known, each by its own template, in the order Linux,
/// Windows, macOS.
pub proof fn law_all_systems_are_inspected(
    platform: Platform,
    directory: Seq<char>,
    linux: ProbeView,
    windows: ProbeView,
    macos: ProbeView,
    target: Option<Seq<u8>>,
)
    ensures
        ({
            let all = all_inspected(platform, directory, linux, windows, macos, target);
            &&& all.len() == 3
            &&& all[0] == inspected(platform, directory, BootSystem::Linux, linux, target)
            &&& all[1] == inspected(platform, directory, BootSystem::Windows, windows, target)
            &&& all[2] == inspected(platform, directory, BootSystem::MacOs, macos, target)
        }),
{
}

/// Where the templates that are there have different digests, at most one system is
/// active.
pub proof fn law_at_most_one_system_is_active(
    platform: Platform,
    directory: Seq<char>,
    linux: ProbeView,
    windows: ProbeView,
    macos: ProbeView,
    target: Option<Seq<u8>>,
    i: int,
    j: int,
)
    requires
        linux.contents is Some && windows.contents is Some ==> digest::sha256(linux.contents->0)
            != digest::sha256(windows.contents->0),
        linux.contents is Some && macos.contents is Some ==> digest::sha256(linux.contents->0)
            != digest::sha256(macos.contents->0),
        windows.contents is Some && macos.contents is Some ==> digest::sha256(
            windows.contents->0,
        ) != digest::sha256(macos.contents->0),
        0 <= i < j < 3,
    ensures
        !(all_inspected(platform, directory, linux, windows, macos, target)[i].active
            && all_inspected(platform, directory, linux, windows, macos, target)[j].active),
{
}

/// A path is shown without the prefix that marks it as literal, a share with two
/// backslashes in its place, and any other path as it is.
pub proof fn law_literal_prefix_is_not_shown(rest: Seq<char>, path: Seq<char>)
    ensures
        shown_path(seq!['\\', '\\', '?', '\\', 'U', 'N', 'C', '\\'] + rest) == seq!['\\', '\\']
            + rest,
        !text::begins_with(rest, seq!['U', 'N', 'C', '\\']) ==> shown_path(
            seq!['\\', '\\', '?', '\\'] + rest,
        ) == rest,
        !text::begins_with(path, seq!['\\', '\\', '?', '\\']) ==> shown_path(path) == path,
{
    reveal_strlit("\\\\?\\UNC\\");
    reveal_strlit("\\\\?\\");
    reveal_strlit("\\\\");
    let share = seq!['\\', '\\', '?', '\\', 'U', 'N', 'C', '\\'];
    let local = seq!['\\', '\\', '?', '\\'];
    assert("\\\\?\\UNC\\"@ =~= share);
    assert("\\\\?\\"@ =~= local);
    assert("\\\\"@ =~= seq!['\\', '\\']);
    text::law_beginning_is_what_is_put_in_front(share + rest, share, rest);
    text::law_beginning_is_what_is_put_in_front(local + rest, local, rest);
    let unc = seq!['U', 'N', 'C', '\\'];
    assert(share =~= local + unc);
    if text::begins_with(local + rest, share) {
        assert((local + rest).take(8) == share);
        assert forall|i: int| 0 <= i < 4 implies rest[i] == unc[i] by {
            assert((local + rest).take(8)[i + 4] == share[i + 4]);
        }
        assert(rest.take(4) =~= unc);
    }
    if text::begins_with(path, share) {
        assert(path.take(8).take(4) =~= path.take(4));
        assert(path.take(4) =~= local);
    }
}

} // verus!
