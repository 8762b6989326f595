use refind_switcher::command::{mount_command, CommandReply, Platform};
use refind_switcher::mount::{
    begin_unmount, begin_write, finish_remount, finish_unmount, mount_options, mount_partition_command,
    remount_options, run_unmount, unmount_command, write_command, write_with_mount, ActiveMount, UnmountStage,
    WriteStage,
};
use refind_switcher::mountinfo::{
    active_mount_for_directory, decode_mountinfo_path, directory_scan_candidates, fat_mounts,
    is_fat_filesystem, is_owned_mountpoint, mounted_scan_candidates, mountpoint_name, FatMount,
    MountedScanCandidate, ResolvedMount,
};
use refind_switcher::partitions::{
    begin_search, found_mount, lsblk_command, partition_candidate, partition_priority,
    rank_partitions, scan_unmounted_partition, search_command, LsblkDevice, MountReply,
    PartitionCandidate, SearchStage,
};
use refind_switcher::scan::{
    begin_scan, candidate_bases, candidate_places, candidate_roots, listed_roots, mounted_candidate_directories,
    push_unique, run_scan, scan_vars_directory, DirectoryProbe, ExplicitDirectory, ListedEntry,
    ScanError, ScanReply, ScanResult, ScanStage, ScanTarget,
};
use refind_switcher::variables::{inspect_variables, TemplateProbe};
use refind_switcher::users::{
    linux_invoking_user_home, linux_mount_user_ids, linux_user_home_by_name,
    linux_user_home_by_uid, linux_user_ids_from_home,
};

const PASSWD: &str = "root:x:0:0:root:/root:/bin/bash\nbroken:x\nme:x:1000:100:Me:/home/me:/bin/sh\nodd:x:1000000000000:1:O:/home/odd:/bin/sh\n";

fn text(value: &str) -> Option<String> {
    Some(value.to_string())
}

#[test]
fn users_are_found_in_passwd() {
    assert_eq!(linux_user_home_by_name(PASSWD, "me"), text("/home/me"));
    assert_eq!(linux_user_home_by_name(PASSWD, "broken"), None);
    assert_eq!(linux_user_home_by_name(PASSWD, "you"), None);
    assert_eq!(linux_user_home_by_uid(PASSWD, 0), text("/root"));
    assert_eq!(linux_user_home_by_uid(PASSWD, 7), None);
    assert_eq!(linux_user_ids_from_home(PASSWD, "/home/me"), Some((1000, 100)));
    // A number that does not fit is none.
    assert_eq!(linux_user_ids_from_home(PASSWD, "/home/odd"), None);
}

#[test]
fn invoking_user_is_named_by_the_environment() {
    assert_eq!(
        linux_invoking_user_home(Some(PASSWD), Some("me"), Some("0")),
        text("/home/me")
    );
    assert_eq!(
        linux_invoking_user_home(Some(PASSWD), None, Some("1000")),
        text("/home/me")
    );
    assert_eq!(linux_invoking_user_home(Some(PASSWD), Some("x"), Some("0")), None);
    assert_eq!(linux_invoking_user_home(Some(PASSWD), None, Some("x")), None);
    assert_eq!(linux_invoking_user_home(Some(PASSWD), None, None), None);
    assert_eq!(linux_invoking_user_home(None, Some("me"), None), None);
}

#[test]
fn mounts_belong_to_the_session_user() {
    assert_eq!(
        linux_mount_user_ids(false, Some(PASSWD), None, (5, 6)),
        Some((5, 6))
    );
    assert_eq!(
        linux_mount_user_ids(true, Some(PASSWD), Some("/home/me"), (0, 0)),
        Some((1000, 100))
    );
    assert_eq!(linux_mount_user_ids(true, Some(PASSWD), None, (0, 0)), None);
    assert_eq!(mount_options("ro", Some((1000, 100))), "ro,uid=1000,gid=100");
    assert_eq!(mount_options("ro", None), "ro");
    assert_eq!(remount_options("rw", Some((5, 6))), "remount,rw,uid=5,gid=6");
    assert_eq!(remount_options("rw", None), "remount,rw");
}

fn mount(owned: bool) -> ActiveMount {
    ActiveMount {
        device: "/dev/sda1".to_string(),
        mountpoint: "/tmp/refind-switcher-1".to_string(),
        owned,
    }
}

#[test]
fn mounting_asks_for_rights_on_linux() {
    let line = mount_command(Platform::Linux, false, "mount");
    assert_eq!(line.program, "pkexec");
    assert_eq!(line.args, vec!["mount"]);
    let line = mount_command(Platform::Linux, true, "mount");
    assert_eq!(line.program, "mount");
    assert!(line.args.is_empty());
    assert_eq!(mount_command(Platform::MacOs, false, "mount").program, "mount");
}

#[test]
fn mount_commands_name_device_and_place() {
    let line = mount(false).remount(Platform::Linux, false, Some((5, 6)), "rw");
    assert_eq!(line.program, "pkexec");
    assert_eq!(
        line.args,
        vec![
            "mount",
            "-o",
            "remount,rw,uid=5,gid=6",
            "/dev/sda1",
            "/tmp/refind-switcher-1"
        ]
    );
    assert_eq!(mount(false).unmount(Platform::Linux, true), None);
    let line = mount(true).unmount(Platform::Linux, true).unwrap();
    assert_eq!(line.program, "umount");
    assert_eq!(line.args, vec!["/tmp/refind-switcher-1"]);
    assert_eq!(unmount_command(Platform::Linux, true, "/m").args, vec!["/m"]);
    let line = mount_partition_command(Platform::Linux, true, None, "vfat", "/dev/sdb1", "/m");
    assert_eq!(line.program, "mount");
    assert_eq!(line.args, vec!["-o", "ro", "-t", "vfat", "/dev/sdb1", "/m"]);
}

#[test]
fn replies_to_mounting_are_understood() {
    let exited = |success: bool, stderr: &str| CommandReply::Exited {
        success,
        code: Some(0),
        stderr: stderr.to_string(),
    };
    assert_eq!(finish_remount(exited(true, "x")), Ok(()));
    assert_eq!(finish_remount(exited(false, " denied\n")), Err("denied".to_string()));
    assert_eq!(
        finish_remount(CommandReply::NotFound("gone".to_string())),
        Err("gone".to_string())
    );
    assert_eq!(finish_unmount(exited(true, "")), Ok(()));
    assert_eq!(finish_unmount(exited(false, "busy")), Err("umount failed".to_string()));
    assert_eq!(
        finish_unmount(CommandReply::Unstarted("no".to_string())),
        Err("no".to_string())
    );
}

#[test]
fn partition_is_writable_only_while_written() {
    let partition = mount(true);
    let stage = begin_write(Some(&partition));
    assert_eq!(stage, WriteStage::RemountWritable);
    let stage = write_with_mount(Some(&partition), stage, Ok(()));
    assert_eq!(stage, WriteStage::Operate);
    let stage = write_with_mount(Some(&partition), stage, Err("full".to_string()));
    assert_eq!(stage, WriteStage::RemountReadOnly(Err("full".to_string())));
    assert_eq!(
        write_with_mount(Some(&partition), stage, Ok(())),
        WriteStage::Finished(Err("full".to_string()))
    );
    assert_eq!(
        write_with_mount(
            Some(&partition),
            WriteStage::RemountWritable,
            Err("denied".to_string())
        ),
        WriteStage::Finished(Err("无法将分区重新挂载为可写: denied".to_string()))
    );
    let stage = begin_write(None);
    assert_eq!(stage, WriteStage::Operate);
    assert_eq!(
        write_with_mount(None, stage, Ok(())),
        WriteStage::Finished(Ok(()))
    );
}

#[test]
fn mountinfo_paths_are_decoded() {
    assert_eq!(decode_mountinfo_path("/media/My\\040Disk"), "/media/My Disk");
    assert_eq!(decode_mountinfo_path("/a\\134b"), "/a\\b");
    assert_eq!(decode_mountinfo_path("/plain"), "/plain");
    // What is no escape stays.
    assert_eq!(decode_mountinfo_path("/a\\9xyz"), "/a\\9xyz");
    assert_eq!(decode_mountinfo_path("/a\\04"), "/a\u{4}");
    assert_eq!(decode_mountinfo_path("/a\\"), "/a\\");
    assert_eq!(decode_mountinfo_path("/\\777"), "/\\777");
    assert_eq!(decode_mountinfo_path("/\\351"), "/é");
}

#[test]
fn fat_partitions_are_listed() {
    let info = "36 25 8:1 / /boot/efi rw,relatime shared:1 - vfat /dev/sda1 rw\n\
                37 25 8:2 / / rw - ext4 /dev/sda2 rw\n\
                38 25 8:3 / /mnt/a\\040b ro,noatime - exfat /dev/sdb1 rw\n\
                short line\n\
                39 25 8:4 / /x rw - vfat\n";
    assert_eq!(
        fat_mounts(info),
        vec![
            FatMount {
                mountpoint: "/boot/efi".to_string(),
                device: "/dev/sda1".to_string(),
                read_only: false,
            },
            FatMount {
                mountpoint: "/mnt/a b".to_string(),
                device: "/dev/sdb1".to_string(),
                read_only: true,
            },
        ]
    );
    for name in ["vfat", "fat", "fat12", "fat16", "fat32", "exfat"] {
        assert!(is_fat_filesystem(name));
    }
    assert!(!is_fat_filesystem("ntfs"));
    assert!(!is_fat_filesystem("VFAT"));
}

#[test]
fn own_mountpoints_are_recognised() {
    assert_eq!(mountpoint_name(77), "refind-switcher-77");
    assert!(is_owned_mountpoint("/tmp/refind-switcher-77", "/tmp"));
    assert!(is_owned_mountpoint("/tmp//refind-switcher-77/", "/tmp/"));
    assert!(!is_owned_mountpoint("/tmpx/refind-switcher-77", "/tmp"));
    assert!(!is_owned_mountpoint("/tmp/refind-77", "/tmp"));
    assert!(!is_owned_mountpoint("/tmp/refind-switcher-77/..", "/tmp"));
}

fn resolved(mountpoint: &str, read_only: bool, vars_dir: Option<&str>) -> ResolvedMount {
    ResolvedMount {
        mount: FatMount {
            mountpoint: mountpoint.to_string(),
            device: "/dev/x".to_string(),
            read_only,
        },
        vars_dir: vars_dir.map(str::to_string),
    }
}

#[test]
fn candidates_name_the_mounts_they_need() {
    let all = mounted_scan_candidates(
        vec![
            resolved("/efi", false, Some("/efi/EFI/refind/vars")),
            resolved("/again", true, Some("/efi/EFI/refind/vars")),
            resolved("/none", true, None),
            resolved("/ro", true, Some("/ro/vars")),
            resolved("/tmp/refind-switcher-1", false, Some("/tmp/vars")),
        ],
        "/tmp",
    );
    assert_eq!(all.len(), 3);
    assert_eq!(all[0].vars_dir, "/efi/EFI/refind/vars");
    assert_eq!(all[0].active_mount, None);
    assert_eq!(
        all[1].active_mount,
        Some(ActiveMount {
            device: "/dev/x".to_string(),
            mountpoint: "/ro".to_string(),
            owned: false
        })
    );
    assert!(all[2].active_mount.as_ref().unwrap().owned);
    assert_eq!(
        active_mount_for_directory(&all, "/ro/vars", "/elsewhere"),
        all[1].active_mount
    );
    assert_eq!(
        active_mount_for_directory(&all, "/link", "/ro/x"),
        all[1].active_mount
    );
    assert_eq!(active_mount_for_directory(&all, "/rox", "/rox"), None);
}

#[test]
fn directories_are_candidates_without_mounts() {
    assert_eq!(
        directory_scan_candidates(&vec!["/a".to_string()]),
        vec![MountedScanCandidate {
            vars_dir: "/a".to_string(),
            active_mount: None
        }]
    );
}

#[test]
fn directories_are_listed_once() {
    let mut found = vec!["/a".to_string()];
    push_unique(&mut found, text("/b"));
    push_unique(&mut found, text("/a"));
    push_unique(&mut found, None);
    assert_eq!(found, vec!["/a", "/b"]);
    assert_eq!(
        mounted_candidate_directories(vec![text("/x"), None, text("/y"), text("/x")]),
        vec!["/x", "/y"]
    );
}

#[test]
fn places_to_look_depend_on_the_platform() {
    let drives = candidate_roots(Platform::Windows);
    assert_eq!(drives.len(), 26);
    assert_eq!(drives[0], "A:\\");
    assert_eq!(drives[25], "Z:\\");
    assert!(candidate_bases(Platform::Windows).is_empty());
    assert_eq!(
        candidate_roots(Platform::MacOs),
        vec![
            "/Volumes/REFIND",
            "/boot/efi",
            "/efi",
            "/boot",
            "/mnt/REFIND",
            "/media/REFIND"
        ]
    );
    assert_eq!(
        candidate_bases(Platform::Linux),
        vec!["/Volumes", "/mnt", "/media", "/run/media"]
    );
    assert_eq!(
        listed_roots(&vec![
            ListedEntry {
                path: "/mnt/a".to_string(),
                nested: vec!["/mnt/a/b".to_string()]
            },
            ListedEntry {
                path: "/mnt/c".to_string(),
                nested: Vec::new()
            },
        ]),
        vec!["/mnt/a", "/mnt/a/b", "/mnt/c"]
    );
}

fn candidate(vars_dir: &str, owned: Option<bool>) -> MountedScanCandidate {
    MountedScanCandidate {
        vars_dir: vars_dir.to_string(),
        active_mount: owned.map(mount),
    }
}

#[test]
fn one_candidate_is_taken() {
    assert_eq!(
        scan_vars_directory(Platform::MacOs, None, vec![candidate("/a", None)]),
        Ok(ScanTarget::Directory(candidate("/a", None)))
    );
    assert_eq!(
        scan_vars_directory(Platform::Linux, None, Vec::new()),
        Ok(ScanTarget::Unmounted)
    );
    let error = scan_vars_directory(Platform::MacOs, None, Vec::new()).unwrap_err();
    assert_eq!(error, ScanError::NotMounted);
    assert_eq!(error.message(), "未找到已挂载的 EFI/refind/vars 目录");
}

#[test]
fn several_candidates_are_an_error() {
    let error = scan_vars_directory(
        Platform::Linux,
        None,
        vec![
            candidate("/a", None),
            candidate("/b", Some(true)),
            candidate("/c", Some(false)),
        ],
    )
    .unwrap_err();
    assert_eq!(
        error.message(),
        "找到多个 rEFInd 变量目录，请在主窗口指定其中一个：\n  /b\n  /a\n  /c"
    );
}

#[test]
fn directory_that_was_asked_for_comes_first() {
    let asked = |is_dir: bool, resolved: Option<&str>| {
        Some(ExplicitDirectory {
            directory: "/link".to_string(),
            is_dir,
            resolved: resolved.map(str::to_string),
        })
    };
    let candidates = || vec![candidate("/a", None), candidate("/b", Some(true))];
    assert_eq!(
        scan_vars_directory(
            Platform::Linux,
            asked(true, Some("/tmp/refind-switcher-1/x")),
            candidates()
        ),
        Ok(ScanTarget::Directory(candidate(
            "/tmp/refind-switcher-1/x",
            Some(true)
        )))
    );
    assert_eq!(
        scan_vars_directory(Platform::Linux, asked(true, None), candidates()),
        Ok(ScanTarget::Directory(candidate("/link", None)))
    );
    let error =
        scan_vars_directory(Platform::Linux, asked(false, None), candidates()).unwrap_err();
    assert_eq!(error.message(), "rEFInd 变量目录不存在: /link");
}

#[test]
fn scan_errors_have_messages() {
    let x = || "x".to_string();
    assert_eq!(ScanError::LsblkUnstarted(x()).message(), "无法执行 lsblk: x");
    assert_eq!(ScanError::LsblkUnreadable(x()).message(), "无法解析 lsblk 输出: x");
    assert_eq!(ScanError::NoMountpoint(x()).message(), "无法创建临时挂载点: x");
    assert_eq!(ScanError::Unresolvable(x()).message(), "无法解析变量目录: x");
    assert_eq!(
        ScanError::NothingFound.message(),
        "已扫描未挂载的 FAT/ESP 分区，但未找到 EFI/refind/vars 目录；应用已尝试通过 pkexec 临时提权挂载，若取消授权或 pkexec 不可用，请手动挂载后再扫描"
    );
}

fn device(path: &str, label: Option<&str>, parttype: Option<&str>) -> LsblkDevice {
    LsblkDevice {
        path: text(path),
        fstype: text("vfat"),
        label: label.map(str::to_string),
        partlabel: None,
        parttype: parttype.map(str::to_string),
        mountpoints: Some(vec![None, text("")]),
    }
}

#[test]
fn devices_are_listed_by_lsblk() {
    let line = lsblk_command();
    assert_eq!(line.program, "lsblk");
    assert_eq!(
        line.args,
        vec![
            "--json",
            "--output",
            "PATH,TYPE,FSTYPE,LABEL,PARTLABEL,PARTTYPE,MOUNTPOINTS"
        ]
    );
}

#[test]
fn partitions_are_ranked() {
    assert_eq!(partition_priority("", "my refind", ""), 0);
    assert_eq!(partition_priority("", "efi system partition", ""), 1);
    assert_eq!(
        partition_priority("", "", "c12a7328-f81f-11d2-ba4b-00a0c93ec93b"),
        1
    );
    assert_eq!(partition_priority("data", "", ""), 2);

    let mut mounted = device("/dev/m", Some("REFIND"), None);
    mounted.mountpoints = Some(vec![text("/m")]);
    let mut other = device("/dev/o", None, None);
    other.fstype = text("ext4");
    let mut bare = device("/dev/b", None, None);
    bare.path = None;
    assert_eq!(partition_candidate(&mounted), None);
    assert_eq!(partition_candidate(&other), None);
    assert_eq!(partition_candidate(&bare), None);

    let ranked = rank_partitions(&vec![
        device("/dev/z", Some("DATA"), None),
        device(
            "/dev/c",
            None,
            Some("C12A7328-F81F-11D2-BA4B-00A0C93EC93B"),
        ),
        mounted,
        device("/dev/y", Some("rEFInd"), None),
        device("/dev/a", Some("data"), None),
    ]);
    let order: Vec<(u8, &str)> = ranked
        .iter()
        .map(|candidate| (candidate.priority, candidate.device.as_str()))
        .collect();
    assert_eq!(
        order,
        vec![(0, "/dev/y"), (1, "/dev/c"), (2, "/dev/a"), (2, "/dev/z")]
    );
}

#[test]
fn partitions_are_tried_in_turn() {
    let candidates: Vec<PartitionCandidate> = ["/dev/a", "/dev/b", "/dev/c"]
        .iter()
        .map(|device| PartitionCandidate {
            priority: 2,
            device: device.to_string(),
            filesystem: "vfat".to_string(),
        })
        .collect();
    let stage = begin_search(&candidates);
    assert_eq!(stage, SearchStage::Mount(0));
    let stage = scan_unmounted_partition(&candidates, "/m", stage, MountReply::Failed);
    assert_eq!(stage, SearchStage::Mount(1));
    let stage = scan_unmounted_partition(&candidates, "/m", stage, MountReply::Missing);
    assert_eq!(stage, SearchStage::Unmount(1));
    let stage = scan_unmounted_partition(&candidates, "/m", stage, MountReply::Failed);
    assert_eq!(stage, SearchStage::Mount(2));
    assert_eq!(
        scan_unmounted_partition(
            &candidates,
            "/m",
            SearchStage::Mount(2),
            MountReply::Found("/m/vars".to_string())
        ),
        SearchStage::Found(MountedScanCandidate {
            vars_dir: "/m/vars".to_string(),
            active_mount: Some(found_mount("/dev/c".to_string(), "/m")),
        })
    );
    assert_eq!(
        scan_unmounted_partition(
            &candidates,
            "/m",
            SearchStage::Mount(2),
            MountReply::Unresolvable("x".to_string())
        ),
        SearchStage::Stopped(ScanError::Unresolvable("x".to_string()))
    );
    let stage = scan_unmounted_partition(&candidates, "/m", stage, MountReply::Failed);
    assert_eq!(stage, SearchStage::RemoveMountpoint);
    assert_eq!(
        scan_unmounted_partition(&candidates, "/m", stage, MountReply::Failed),
        SearchStage::Stopped(ScanError::NothingFound)
    );
    assert_eq!(begin_search(&Vec::new()), SearchStage::RemoveMountpoint);
}

#[test]
fn found_partition_belongs_to_the_switcher() {
    assert_eq!(
        found_mount("/dev/c".to_string(), "/m"),
        ActiveMount {
            device: "/dev/c".to_string(),
            mountpoint: "/m".to_string(),
            owned: true
        }
    );
}

#[test]
fn search_mounts_read_only_and_unmounts() {
    let candidates = vec![PartitionCandidate {
        priority: 2,
        device: "/dev/a".to_string(),
        filesystem: "exfat".to_string(),
    }];
    let line = |stage: &SearchStage| {
        search_command(Platform::Linux, true, Some((5, 6)), &candidates, "/m", stage)
    };
    let mounting = line(&SearchStage::Mount(0)).unwrap();
    assert_eq!(mounting.program, "mount");
    assert_eq!(
        mounting.args,
        vec!["-o", "ro,uid=5,gid=6", "-t", "exfat", "/dev/a", "/m"]
    );
    let unmounting = line(&SearchStage::Unmount(0)).unwrap();
    assert_eq!(unmounting.program, "umount");
    assert_eq!(unmounting.args, vec!["/m"]);
    assert_eq!(line(&SearchStage::RemoveMountpoint), None);
    assert_eq!(line(&SearchStage::Mount(1)), None);
}

#[test]
fn mountpoint_is_removed_after_a_successful_unmount() {
    let stage = begin_unmount(&mount(true));
    assert_eq!(stage, UnmountStage::Unmount);
    let stage = run_unmount(stage, Ok(()));
    assert_eq!(stage, UnmountStage::RemoveMountpoint);
    assert_eq!(
        run_unmount(stage, Err("not empty".to_string())),
        UnmountStage::Finished(Ok(()))
    );
    assert_eq!(
        run_unmount(UnmountStage::Unmount, Err("busy".to_string())),
        UnmountStage::Finished(Err("busy".to_string()))
    );
    assert_eq!(begin_unmount(&mount(false)), UnmountStage::Finished(Ok(())));
}

fn template(contents: &[u8]) -> TemplateProbe {
    TemplateProbe {
        exists: true,
        contents: Some(contents.to_vec()),
    }
}

fn found_in(directory: &str) -> DirectoryProbe {
    DirectoryProbe {
        directory: directory.to_string(),
        linux: template(b"l"),
        windows: template(b"w"),
        macos: template(b"m"),
        target: Some(b"m".to_vec()),
    }
}

#[test]
fn scan_ends_with_the_directory_that_was_inspected() {
    let stage = begin_scan(Platform::Linux, None, vec![candidate("/a", Some(false))]);
    assert_eq!(stage, ScanStage::Inspect(candidate("/a", Some(false))));
    // What was found elsewhere does not count.
    let stage = run_scan(Platform::Linux, stage, ScanReply::Inspected(found_in("/b")));
    assert_eq!(stage, ScanStage::Inspect(candidate("/a", Some(false))));
    let probe = found_in("/a");
    let variables = inspect_variables(
        Platform::Linux,
        "/a",
        probe.linux,
        probe.windows,
        probe.macos,
        &probe.target,
    );
    assert!(variables[2].active);
    assert_eq!(variables[2].source, "/a/PreviousBoot-mac");
    assert_eq!(
        run_scan(Platform::Linux, stage, ScanReply::Inspected(found_in("/a"))),
        ScanStage::Finished(Ok(ScanResult {
            vars_dir: "/a".to_string(),
            active_mount: Some(mount(false)),
            variables,
        }))
    );
}

#[test]
fn scan_searches_where_nothing_is_mounted() {
    let stage = begin_scan(Platform::Linux, None, Vec::new());
    assert_eq!(stage, ScanStage::Search);
    assert_eq!(
        run_scan(Platform::Linux, stage, ScanReply::Searched(Ok(candidate("/m", Some(true))))),
        ScanStage::Inspect(candidate("/m", Some(true)))
    );
    assert_eq!(
        run_scan(
            Platform::Linux,
            ScanStage::Search,
            ScanReply::Searched(Err(ScanError::NothingFound))
        ),
        ScanStage::Finished(Err(ScanError::NothingFound))
    );
    assert_eq!(
        begin_scan(Platform::Windows, None, Vec::new()),
        ScanStage::Finished(Err(ScanError::NotMounted))
    );
}

#[test]
fn places_are_the_known_roots_and_what_was_listed() {
    let listings = vec![
        vec![ListedEntry {
            path: "/Volumes/A".to_string(),
            nested: vec!["/Volumes/A/x".to_string()],
        }],
        Vec::new(),
        vec![ListedEntry {
            path: "/media/B".to_string(),
            nested: Vec::new(),
        }],
    ];
    assert_eq!(
        candidate_places(Platform::MacOs, &listings),
        vec![
            "/Volumes/REFIND/EFI/refind/vars",
            "/boot/efi/EFI/refind/vars",
            "/efi/EFI/refind/vars",
            "/boot/EFI/refind/vars",
            "/mnt/REFIND/EFI/refind/vars",
            "/media/REFIND/EFI/refind/vars",
            "/Volumes/A/EFI/refind/vars",
            "/Volumes/A/x/EFI/refind/vars",
            "/media/B/EFI/refind/vars",
        ]
    );
    let drives = candidate_places(Platform::Windows, &Vec::new());
    assert_eq!(drives.len(), 26);
    assert_eq!(drives[4], "E:\\EFI/refind/vars");
}

#[test]
fn stages_of_writing_have_their_modes() {
    let line = |stage: &WriteStage| {
        write_command(Platform::Linux, true, None, &mount(true), stage)
            .map(|line| line.args[1].clone())
    };
    assert_eq!(line(&WriteStage::RemountWritable), text("remount,rw"));
    assert_eq!(line(&WriteStage::RemountReadOnly(Ok(()))), text("remount,ro"));
    assert_eq!(
        line(&WriteStage::RemountReadOnly(Err("x".to_string()))),
        text("remount,ro")
    );
    assert_eq!(line(&WriteStage::Operate), None);
    assert_eq!(line(&WriteStage::Finished(Ok(()))), None);
}

#[test]
fn search_ends_at_a_place_without_a_partition() {
    assert_eq!(
        scan_unmounted_partition(
            &Vec::new(),
            "/m",
            SearchStage::Mount(7),
            MountReply::Found("/x".to_string())
        ),
        SearchStage::RemoveMountpoint
    );
    assert_eq!(
        scan_unmounted_partition(
            &Vec::new(),
            "/m",
            SearchStage::Unmount(usize::MAX),
            MountReply::Failed
        ),
        SearchStage::RemoveMountpoint
    );
}
