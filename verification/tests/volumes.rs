use find_winpe_profile_path::device::{StorageDeviceNumber, FILE_DEVICE_DISK};
use find_winpe_profile_path::plan::candidates;
use find_winpe_profile_path::scan::{find_in_use, VolumeScan, DRIVE_LETTERS};
use find_winpe_profile_path::request::{Reply, Request};
use find_winpe_profile_path::volume::{
    boot_disk, boot_volume, classify, disk_number, find_boot_disk, volume_matches_boot, SearchGroup, Volume,
    BUS_TYPE_FILE_BACKED_VIRTUAL, BUS_TYPE_USB, BUS_TYPE_VIRTUAL, DRIVE_CDROM, DRIVE_FIXED,
    DRIVE_NO_ROOT_DIR, DRIVE_RAMDISK, DRIVE_REMOTE, DRIVE_REMOVABLE, DRIVE_UNKNOWN,
};

fn volume(
    root: &str,
    drive_type: u32,
    disk_number: Option<u32>,
    bus_type: Option<i32>,
    device: Option<&str>,
) -> Volume {
    Volume {
        root: root.into(),
        dos_device: device.map(str::to_owned),
        drive_type,
        device_number: disk_number.map(|device_number| StorageDeviceNumber {
            device_type: FILE_DEVICE_DISK,
            device_number,
            partition_number: 1,
        }),
        bus_type,
    }
}

fn device(disk: u32) -> Option<StorageDeviceNumber> {
    Some(StorageDeviceNumber {
        device_type: FILE_DEVICE_DISK,
        device_number: disk,
        partition_number: 1,
    })
}

fn cdrom(number: u32) -> StorageDeviceNumber {
    StorageDeviceNumber {
        device_type: 2,
        device_number: number,
        partition_number: u32::MAX,
    }
}

#[test]
fn classifies_volumes_in_search_order() {
    let boot = r"\Device\HarddiskVolume1";
    let samples = [
        (
            volume("C:\\", DRIVE_FIXED, Some(1), None, Some(boot)),
            SearchGroup::Boot,
        ),
        (
            volume("D:\\", DRIVE_FIXED, Some(1), None, None),
            SearchGroup::SameDisk,
        ),
        (
            volume("E:\\", DRIVE_FIXED, Some(2), Some(BUS_TYPE_USB), None),
            SearchGroup::Usb,
        ),
        (
            volume("F:\\", DRIVE_REMOVABLE, Some(3), None, None),
            SearchGroup::Removable,
        ),
        (
            volume("G:\\", DRIVE_CDROM, None, None, None),
            SearchGroup::Optical,
        ),
        (
            volume("H:\\", DRIVE_FIXED, Some(4), None, None),
            SearchGroup::Fixed,
        ),
        (
            volume("I:\\", DRIVE_RAMDISK, None, None, None),
            SearchGroup::VirtualOrRam,
        ),
        (
            volume("J:\\", DRIVE_REMOTE, None, None, None),
            SearchGroup::Network,
        ),
    ];
    for (volume, expected) in samples {
        assert_eq!(classify(&volume, Some(boot), Some(1), None), expected);
    }
}

#[test]
fn search_groups_sort_before_drive_letters() {
    let boot = r"\Device\HarddiskVolume1";
    let mut volumes = vec![
        volume("Z:\\", DRIVE_REMOTE, None, None, None),
        volume("Y:\\", DRIVE_FIXED, Some(2), Some(BUS_TYPE_USB), None),
        volume("X:\\", DRIVE_FIXED, Some(1), None, None),
        volume("W:\\", DRIVE_FIXED, Some(1), None, Some(boot)),
    ];

    let paths: Vec<String> = candidates(&volumes, Some(boot), Some(1), None, "WinPE")
        .into_iter()
        .map(|candidate| candidate.path)
        .collect();
    assert_eq!(paths, ["W:\\WinPE", "X:\\WinPE", "Y:\\WinPE", "Z:\\WinPE"]);

    volumes.sort_by_key(|volume| {
        (
            classify(volume, Some(boot), Some(1), None),
            volume.root.clone(),
        )
    });

    assert_eq!(
        volumes
            .into_iter()
            .map(|volume| volume.root)
            .collect::<Vec<_>>(),
        ["W:\\", "X:\\", "Y:\\", "Z:\\"]
    );
}

#[test]
fn ventoy_data_volume_follows_firmware_disk() {
    let boot = r"\Device\HarddiskVolume1";
    let firmware_disk = volume("D:\\", DRIVE_FIXED, Some(1), None, None);
    let ventoy_volume = volume("F:\\", DRIVE_REMOVABLE, Some(2), Some(BUS_TYPE_USB), None);

    assert_eq!(
        classify(&firmware_disk, Some(boot), Some(1), Some("F:\\")),
        SearchGroup::SameDisk
    );
    assert_eq!(
        classify(&ventoy_volume, Some(boot), Some(1), Some("F:\\")),
        SearchGroup::Ventoy
    );
}

#[test]
fn candidates_stand_in_order_of_group_and_root() {
    let boot = r"\Device\HarddiskVolume1";
    let volumes = vec![
        volume("C:\\", DRIVE_REMOTE, None, None, None),
        volume("D:\\", DRIVE_FIXED, None, None, None),
        volume("E:\\", DRIVE_CDROM, None, None, None),
        volume("F:\\", DRIVE_FIXED, None, None, None),
        volume("G:\\", DRIVE_REMOVABLE, Some(4), Some(BUS_TYPE_USB), None),
        volume("H:\\", DRIVE_FIXED, Some(1), None, None),
        volume("I:\\", DRIVE_FIXED, Some(3), Some(BUS_TYPE_USB), None),
        volume("J:\\", DRIVE_FIXED, Some(1), None, Some(boot)),
        volume("K:\\", DRIVE_REMOVABLE, None, None, None),
        volume("L:\\", DRIVE_RAMDISK, None, None, None),
    ];
    let list: Vec<(SearchGroup, String)> =
        candidates(&volumes, Some(boot), Some(1), Some("I:\\"), "a/b")
            .into_iter()
            .map(|candidate| (candidate.group, candidate.path))
            .collect();
    assert_eq!(
        list,
        [
            (SearchGroup::Boot, "J:\\a\\b".to_owned()),
            (SearchGroup::SameDisk, "H:\\a\\b".to_owned()),
            (SearchGroup::Ventoy, "I:\\a\\b".to_owned()),
            (SearchGroup::Usb, "G:\\a\\b".to_owned()),
            (SearchGroup::Removable, "K:\\a\\b".to_owned()),
            (SearchGroup::Optical, "E:\\a\\b".to_owned()),
            (SearchGroup::Fixed, "D:\\a\\b".to_owned()),
            (SearchGroup::Fixed, "F:\\a\\b".to_owned()),
            (SearchGroup::VirtualOrRam, "L:\\a\\b".to_owned()),
            (SearchGroup::Network, "C:\\a\\b".to_owned()),
        ]
    );
    assert!(candidates(&Vec::new(), Some(boot), Some(1), None, "a").is_empty());
}

#[test]
fn groups_have_places_and_names() {
    let groups = [
        (SearchGroup::Boot, "boot"),
        (SearchGroup::SameDisk, "same-disk"),
        (SearchGroup::Ventoy, "ventoy"),
        (SearchGroup::Usb, "usb"),
        (SearchGroup::Removable, "removable"),
        (SearchGroup::Optical, "optical"),
        (SearchGroup::Fixed, "fixed"),
        (SearchGroup::VirtualOrRam, "virtual-or-ram"),
        (SearchGroup::Network, "network"),
    ];
    for (place, (group, name)) in groups.iter().enumerate() {
        assert_eq!(group.place() as usize, place);
        assert_eq!(group.name(), *name);
    }
    for (a, _) in &groups {
        for (b, _) in &groups {
            assert_eq!(a.place() < b.place(), a < b);
        }
    }
}

#[test]
fn virtual_disks_and_unknown_drives_come_late() {
    for bus_type in [BUS_TYPE_VIRTUAL, BUS_TYPE_FILE_BACKED_VIRTUAL] {
        let disk = volume("V:\\", DRIVE_FIXED, Some(5), Some(bus_type), None);
        assert_eq!(classify(&disk, None, None, None), SearchGroup::VirtualOrRam);
        let removable = volume("V:\\", DRIVE_REMOVABLE, Some(5), Some(bus_type), None);
        assert_eq!(classify(&removable, None, None, None), SearchGroup::Removable);
    }
    let odd = volume("V:\\", 99, None, None, None);
    assert_eq!(classify(&odd, None, None, None), SearchGroup::VirtualOrRam);
    for drive_type in [DRIVE_REMOVABLE, DRIVE_FIXED, DRIVE_REMOTE, DRIVE_CDROM, DRIVE_RAMDISK, 99] {
        let usb = volume("U:\\", drive_type, Some(6), Some(BUS_TYPE_USB), None);
        assert_eq!(classify(&usb, None, None, None), SearchGroup::Usb);
    }
}

#[test]
fn boot_volumes_match_by_name_or_partition() {
    let number = StorageDeviceNumber {
        device_type: FILE_DEVICE_DISK,
        device_number: 1,
        partition_number: 1,
    };
    let named = volume("C:\\", DRIVE_FIXED, None, None, Some(r"\Device\HarddiskVolume1"));
    assert!(volume_matches_boot(&named, r"\Device\HarddiskVolume1", None));
    assert!(!volume_matches_boot(&named, r"\Device\HarddiskVolume2", None));
    assert!(!volume_matches_boot(&named, r"\device\harddiskvolume1", Some(number)));
    let numbered = volume("D:\\", DRIVE_FIXED, Some(1), None, None);
    assert!(volume_matches_boot(&numbered, "", Some(number)));
    let other = StorageDeviceNumber {
        partition_number: 2,
        ..number
    };
    assert!(!volume_matches_boot(&numbered, "", Some(other)));
    assert!(!volume_matches_boot(&numbered, "", None));
    let nothing = volume("E:\\", DRIVE_FIXED, None, None, None);
    assert!(!volume_matches_boot(&nothing, "", None));
}

#[test]
fn boot_disk_is_known_with_and_without_a_mounted_boot_volume() {
    let arc = r"\Device\Harddisk3\Partition1";
    let mounted = vec![
        volume("C:\\", DRIVE_FIXED, Some(1), None, None),
        volume("D:\\", DRIVE_FIXED, Some(3), None, None),
        volume("E:\\", DRIVE_FIXED, Some(3), None, Some(arc)),
    ];
    assert_eq!(boot_volume(&mounted, arc), Some(1));
    assert_eq!(boot_disk(&mounted, Some(arc), None), Some(3));
    let unmounted = vec![volume("C:\\", DRIVE_FIXED, Some(1), None, None)];
    assert_eq!(boot_volume(&unmounted, arc), None);
    assert_eq!(find_boot_disk(&unmounted, arc), Some(3));
    assert_eq!(boot_disk(&unmounted, Some(arc), None), Some(3));
    assert_eq!(boot_disk(&mounted, None, device(5)), None);
    let nameless = vec![volume("C:\\", DRIVE_FIXED, None, None, Some(arc))];
    assert_eq!(boot_disk(&nameless, Some(arc), None), Some(3));
    let renamed = vec![volume("C:\\", DRIVE_FIXED, Some(7), None, Some("boot"))];
    assert_eq!(boot_disk(&renamed, Some("boot"), device(5)), Some(7));
}

#[test]
fn boot_disk_is_known_from_the_reported_partition() {
    let path = r"\Device\HarddiskVolume3";
    let unmounted = vec![volume("C:\\", DRIVE_FIXED, Some(1), None, None)];
    assert_eq!(find_boot_disk(&unmounted, path), None);
    assert_eq!(boot_disk(&unmounted, Some(path), device(5)), Some(5));
    assert_eq!(boot_disk(&unmounted, Some(path), None), None);
    assert_eq!(boot_disk(&unmounted, Some(path), Some(cdrom(5))), None);
    let arc = r"\Device\Harddisk3\Partition1";
    assert_eq!(boot_disk(&unmounted, Some(arc), device(5)), Some(3));
}

#[test]
fn cdrom_numbers_are_no_disk_numbers() {
    assert_eq!(disk_number(device(1)), Some(1));
    assert_eq!(disk_number(Some(cdrom(1))), None);
    assert_eq!(disk_number(None), None);
    let optical = Volume {
        device_number: Some(cdrom(1)),
        ..volume("G:\\", DRIVE_CDROM, None, None, None)
    };
    assert_eq!(
        classify(&optical, Some(r"\Device\HarddiskVolume1"), Some(1), None),
        SearchGroup::Optical
    );
    let booted = vec![
        Volume {
            device_number: Some(cdrom(0)),
            ..volume("D:\\", DRIVE_CDROM, None, None, Some(r"\Device\CdRom0"))
        },
        volume("E:\\", DRIVE_FIXED, Some(0), None, None),
    ];
    let boot = Some(r"\Device\CdRom0");
    let disk = boot_disk(&booted, boot, Some(cdrom(0)));
    assert_eq!(disk, None);
    assert_eq!(classify(&booted[0], boot, disk, None), SearchGroup::Boot);
    assert_eq!(classify(&booted[1], boot, disk, None), SearchGroup::Fixed);
}

#[test]
fn priorities_move_volumes_forward_only() {
    let boot = "boot";
    for drive_type in [DRIVE_REMOVABLE, DRIVE_FIXED, DRIVE_REMOTE, DRIVE_CDROM, DRIVE_RAMDISK] {
        for bus_type in [None, Some(BUS_TYPE_USB), Some(BUS_TYPE_VIRTUAL)] {
            let sample = volume("Q:\\", drive_type, Some(1), bus_type, Some(boot));
            let media = classify(&sample, None, None, None);
            assert!(media > SearchGroup::Ventoy);
            assert_eq!(classify(&sample, Some(boot), Some(1), Some("Q:\\")), SearchGroup::Boot);
            assert_eq!(classify(&sample, None, Some(1), Some("Q:\\")), SearchGroup::SameDisk);
            assert_eq!(classify(&sample, None, Some(2), Some("Q:\\")), SearchGroup::Ventoy);
            assert_eq!(classify(&sample, Some("other"), Some(2), Some("R:\\")), media);
        }
    }
}

#[test]
fn unknown_boot_and_foreign_ventoy_change_nothing() {
    let samples = [
        volume("C:\\", DRIVE_FIXED, Some(1), None, Some("boot")),
        volume("D:\\", DRIVE_CDROM, None, None, None),
    ];
    for sample in &samples {
        let group = classify(sample, None, None, Some("Q:\\"));
        assert_eq!(group, classify(sample, None, None, None));
        assert!(group > SearchGroup::Ventoy);
    }
}

#[test]
fn drive_letters_in_use_are_found() {
    assert_eq!(find_in_use(0, 0), DRIVE_LETTERS);
    assert_eq!(find_in_use(0b1, 0), 0);
    assert_eq!(find_in_use(0b1, 1), DRIVE_LETTERS);
    assert_eq!(find_in_use(0b1010_0100, 0), 2);
    assert_eq!(find_in_use(0b1010_0100, 3), 5);
    assert_eq!(find_in_use(1 << 25, 0), 25);
    assert_eq!(find_in_use(0xFC00_0000, 0), DRIVE_LETTERS);
    assert_eq!(find_in_use(u32::MAX, 26), DRIVE_LETTERS);
}

#[test]
fn scan_asks_for_each_drive_and_passes_over_unusable_ones() {
    let mut scan = VolumeScan::new((1 << 0) | (1 << 2) | (1 << 3) | (3 << 24));
    let mut asked: Vec<String> = Vec::new();
    while let Some(request) = scan.request() {
        asked.push(format!("{request:?}"));
        let reply = match request {
            Request::DriveType(root) => Reply::DriveType(match root.as_str() {
                "A:\\" => DRIVE_NO_ROOT_DIR,
                "C:\\" => DRIVE_FIXED,
                "D:\\" => DRIVE_UNKNOWN,
                _ => DRIVE_CDROM,
            }),
            Request::DosDevice(drive) => Reply::DosDevice(if drive == "C:" {
                Some("nt".to_owned())
            } else {
                None
            }),
            Request::DeviceNumber(path) => Reply::DeviceNumber(if path == r"\\.\Y:" {
                Some(cdrom(9))
            } else if path == r"\\.\C:" {
                Some(StorageDeviceNumber {
                    device_type: FILE_DEVICE_DISK,
                    device_number: 9,
                    partition_number: 2,
                })
            } else {
                None
            }),
            Request::BusType(disk) => Reply::BusType(Some(disk as i32)),
            other => panic!("{other:?}"),
        };
        scan = scan.answer(reply);
    }
    assert_eq!(
        asked,
        [
            "DriveType(\"A:\\\\\")",
            "DriveType(\"C:\\\\\")",
            "DosDevice(\"C:\")",
            "DeviceNumber(\"\\\\\\\\.\\\\C:\")",
            "BusType(9)",
            "DriveType(\"D:\\\\\")",
            "DriveType(\"Y:\\\\\")",
            "DosDevice(\"Y:\")",
            "DeviceNumber(\"\\\\\\\\.\\\\Y:\")",
            "DriveType(\"Z:\\\\\")",
            "DosDevice(\"Z:\")",
            "DeviceNumber(\"\\\\\\\\.\\\\Z:\")",
        ]
    );
    assert_eq!(scan.volumes.len(), 3);
    assert_eq!(scan.volumes[0].root, "C:\\");
    assert_eq!(scan.volumes[0].dos_device.as_deref(), Some("nt"));
    assert_eq!(scan.volumes[0].drive_type, DRIVE_FIXED);
    assert_eq!(scan.volumes[0].device_number.unwrap().partition_number, 2);
    assert_eq!(scan.volumes[0].bus_type, Some(9));
    assert_eq!(scan.volumes[1].root, "Y:\\");
    assert_eq!(scan.volumes[1].device_number, Some(cdrom(9)));
    assert_eq!(scan.volumes[1].bus_type, None);
    assert_eq!(scan.volumes[2].root, "Z:\\");
    assert_eq!(scan.volumes[2].drive_type, DRIVE_CDROM);
    assert!(scan.volumes[2].dos_device.is_none());
    assert!(scan.volumes[2].device_number.is_none());
    assert_eq!(scan.volumes[2].bus_type, None);
    let copy = scan.volumes[0].copied();
    assert_eq!(format!("{copy:?}"), format!("{:?}", scan.volumes[0]));
}

#[test]
fn scan_ignores_answers_to_other_questions() {
    let scan = VolumeScan::new(1 << 4).answer(Reply::PathExists(true));
    assert!(matches!(scan.request(), Some(Request::DriveType(root)) if root == "E:\\"));
}

#[test]
fn constants_are_those_of_windows() {
    assert_eq!(FILE_DEVICE_DISK, windows::Win32::Storage::FileSystem::FILE_DEVICE_DISK.0);
    assert_eq!(BUS_TYPE_USB, windows::Win32::Storage::FileSystem::BusTypeUsb.0);
    assert_eq!(BUS_TYPE_VIRTUAL, windows::Win32::Storage::FileSystem::BusTypeVirtual.0);
    assert_eq!(
        BUS_TYPE_FILE_BACKED_VIRTUAL,
        windows::Win32::Storage::FileSystem::BusTypeFileBackedVirtual.0
    );
    assert_eq!(DRIVE_UNKNOWN, windows::Win32::System::WindowsProgramming::DRIVE_UNKNOWN);
    assert_eq!(DRIVE_NO_ROOT_DIR, windows::Win32::System::WindowsProgramming::DRIVE_NO_ROOT_DIR);
    assert_eq!(DRIVE_REMOVABLE, windows::Win32::System::WindowsProgramming::DRIVE_REMOVABLE);
    assert_eq!(DRIVE_FIXED, windows::Win32::System::WindowsProgramming::DRIVE_FIXED);
    assert_eq!(DRIVE_REMOTE, windows::Win32::System::WindowsProgramming::DRIVE_REMOTE);
    assert_eq!(DRIVE_CDROM, windows::Win32::System::WindowsProgramming::DRIVE_CDROM);
    assert_eq!(DRIVE_RAMDISK, windows::Win32::System::WindowsProgramming::DRIVE_RAMDISK);
}
