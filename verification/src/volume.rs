//! Volumes and the groups in which they are searched.

use vstd::prelude::*;

use crate::device;
use crate::device::StorageDeviceNumber;
use crate::number;
use crate::text;

verus! {

/// The bus type of a USB device.
pub const BUS_TYPE_USB: i32 = 7;

/// The bus type of a virtual disk.
pub const BUS_TYPE_VIRTUAL: i32 = 14;

/// The bus type of a virtual disk that a file holds.
pub const BUS_TYPE_FILE_BACKED_VIRTUAL: i32 = 15;

/// The drive type of a root whose type is not known.
pub const DRIVE_UNKNOWN: u32 = 0;

/// The drive type of a root at which nothing is mounted.
pub const DRIVE_NO_ROOT_DIR: u32 = 1;

/// The drive type of removable media.
pub const DRIVE_REMOVABLE: u32 = 2;

/// The drive type of a fixed disk.
pub const DRIVE_FIXED: u32 = 3;

/// The drive type of a network drive.
pub const DRIVE_REMOTE: u32 = 4;

/// The drive type of an optical disc.
pub const DRIVE_CDROM: u32 = 5;

/// The drive type of a RAM disk.
pub const DRIVE_RAMDISK: u32 = 6;

/// The groups of volumes, in the order in which they are searched.
#[derive(Clone, Copy, Debug, PartialEq, Eq, PartialOrd, Ord, Structural)]
pub enum SearchGroup {
    /// The volume that the firmware booted from.
    Boot,
    /// The other volumes of the disk that the firmware booted from.
    SameDisk,
    /// The Ventoy data volume that holds the booted image.
    Ventoy,
    /// Volumes of USB disks.
    Usb,
    /// Removable media.
    Removable,
    /// Optical discs.
    Optical,
    /// Fixed disks.
    Fixed,
    /// Virtual disks and RAM disks.
    VirtualOrRam,
    /// Network drives.
    Network,
}

impl SearchGroup {
    /// The place of the group in the search, from 0.
    pub open spec fn rank(self) -> int {
        match self {
            SearchGroup::Boot => 0,
            SearchGroup::SameDisk => 1,
            SearchGroup::Ventoy => 2,
            SearchGroup::Usb => 3,
            SearchGroup::Removable => 4,
            SearchGroup::Optical => 5,
            SearchGroup::Fixed => 6,
            SearchGroup::VirtualOrRam => 7,
            SearchGroup::Network => 8,
        }
    }

    /// The name under which the group is reported.
    pub open spec fn label(self) -> Seq<char> {
        match self {
            SearchGroup::Boot => "boot"@,
            SearchGroup::SameDisk => "same-disk"@,
            SearchGroup::Ventoy => "ventoy"@,
            SearchGroup::Usb => "usb"@,
            SearchGroup::Removable => "removable"@,
            SearchGroup::Optical => "optical"@,
            SearchGroup::Fixed => "fixed"@,
            SearchGroup::VirtualOrRam => "virtual-or-ram"@,
            SearchGroup::Network => "network"@,
        }
    }

    /// The place of the group in the search, from 0.
    pub fn place(&self) -> (r: u8)
        ensures
            r == self.rank(),
    {
        match self {
            SearchGroup::Boot => 0,
            SearchGroup::SameDisk => 1,
            SearchGroup::Ventoy => 2,
            SearchGroup::Usb => 3,
            SearchGroup::Removable => 4,
            SearchGroup::Optical => 5,
            SearchGroup::Fixed => 6,
            SearchGroup::VirtualOrRam => 7,
            SearchGroup::Network => 8,
        }
    }

    /// The name under which the group is reported.
    pub fn name(&self) -> (r: &'static str)
        ensures
            r@ == self.label(),
    {
        match self {
            SearchGroup::Boot => "boot",
            SearchGroup::SameDisk => "same-disk",
            SearchGroup::Ventoy => "ventoy",
            SearchGroup::Usb => "usb",
            SearchGroup::Removable => "removable",
            SearchGroup::Optical => "optical",
            SearchGroup::Fixed => "fixed",
            SearchGroup::VirtualOrRam => "virtual-or-ram",
            SearchGroup::Network => "network",
        }
    }
}

/// A volume that is mounted at a drive letter.
#[derive(Debug)]
pub struct Volume {
    /// The root directory, such as `C:\`.
    pub root: String,
    /// The NT name of the volume, where it is known.
    pub dos_device: Option<String>,
    /// The drive type of the root.
    pub drive_type: u32,
    /// The partition that holds the volume, where it is known.
    pub device_number: Option<StorageDeviceNumber>,
    /// The bus type of its disk, where it is known.
    pub bus_type: Option<i32>,
}

/// What is known of a volume.
pub struct VolumeFacts {
    pub root: Seq<char>,
    pub dos_device: Option<Seq<char>>,
    pub drive_type: u32,
    pub device_number: Option<StorageDeviceNumber>,
    pub bus_type: Option<i32>,
}

impl View for Volume {
    type V = VolumeFacts;

    open spec fn view(&self) -> VolumeFacts {
        VolumeFacts {
            root: self.root@,
            dos_device: text::optional(self.dos_device),
            drive_type: self.drive_type,
            device_number: self.device_number,
            bus_type: self.bus_type,
        }
    }
}

impl Volume {
    /// A second copy of the volume's description.
    pub fn copied(&self) -> (r: Volume)
        ensures
            r@ == self@,
    {
        Volume {
            root: self.root.clone(),
            dos_device: match &self.dos_device {
                Some(name) => Some(name.clone()),
                None => None,
            },
            drive_type: self.drive_type,
            device_number: self.device_number,
            bus_type: self.bus_type,
        }
    }
}

/// What is known of each of `volumes`.
pub open spec fn facts(volumes: Seq<Volume>) -> Seq<VolumeFacts> {
    volumes.map_values(|volume: Volume| volume@)
}

/// The disk of a partition, where it is known. A device that is no disk, such
/// as a CD-ROM drive, has a number of its own kind and no disk.
pub open spec fn disk_of(device_number: Option<StorageDeviceNumber>) -> Option<u32> {
    match device_number {
        Some(number) if number.device_type == device::FILE_DEVICE_DISK => Some(
            number.device_number,
        ),
        _ => None,
    }
}

/// Whether a volume is the one that the NT path `boot_nt_path` or, where it is
/// known, the partition `boot_device_number` names.
pub open spec fn matches_boot(
    volume: VolumeFacts,
    boot_nt_path: Seq<char>,
    boot_device_number: Option<StorageDeviceNumber>,
) -> bool {
    ||| volume.dos_device == Some(boot_nt_path)
    ||| boot_device_number is Some && volume.device_number == boot_device_number
}

/// Whether a volume is the one that the NT path `boot_nt_path` names.
pub open spec fn is_boot_volume(volume: VolumeFacts, boot_nt_path: Seq<char>) -> bool {
    matches_boot(volume, boot_nt_path, device::arc_device_number(boot_nt_path))
}

/// The group of a volume that is not told apart by what was booted.
pub open spec fn media_group(drive_type: u32, bus_type: Option<i32>) -> SearchGroup {
    if bus_type == Some(BUS_TYPE_USB) {
        SearchGroup::Usb
    } else if drive_type == DRIVE_REMOVABLE {
        SearchGroup::Removable
    } else if drive_type == DRIVE_CDROM {
        SearchGroup::Optical
    } else if drive_type == DRIVE_REMOTE {
        SearchGroup::Network
    } else if drive_type == DRIVE_FIXED && bus_type != Some(BUS_TYPE_VIRTUAL) && bus_type != Some(
        BUS_TYPE_FILE_BACKED_VIRTUAL,
    ) {
        SearchGroup::Fixed
    } else {
        SearchGroup::VirtualOrRam
    }
}

/// The group of a volume: the first that it belongs to.
pub open spec fn group_of(
    volume: VolumeFacts,
    boot_nt_path: Option<Seq<char>>,
    boot_disk: Option<u32>,
    ventoy_root: Option<Seq<char>>,
) -> SearchGroup {
    if boot_nt_path is Some && is_boot_volume(volume, boot_nt_path->0) {
        SearchGroup::Boot
    } else if boot_disk is Some && disk_of(volume.device_number) == boot_disk {
        SearchGroup::SameDisk
    } else if ventoy_root == Some(volume.root) {
        SearchGroup::Ventoy
    } else {
        media_group(volume.drive_type, volume.bus_type)
    }
}

/// The first volume from `from` on that the NT path `boot_nt_path` names.
pub open spec fn boot_volume_from(
    volumes: Seq<VolumeFacts>,
    boot_nt_path: Seq<char>,
    from: int,
) -> Option<int>
    decreases volumes.len() - from,
{
    if from >= volumes.len() {
        None
    } else if is_boot_volume(volumes[from], boot_nt_path) {
        Some(from)
    } else {
        boot_volume_from(volumes, boot_nt_path, from + 1)
    }
}

/// The first volume that the NT path of the booted partition names.
pub open spec fn boot_volume_of(
    volumes: Seq<VolumeFacts>,
    boot_nt_path: Option<Seq<char>>,
) -> Option<int> {
    match boot_nt_path {
        Some(path) => boot_volume_from(volumes, path, 0),
        None => None,
    }
}

/// The disk that holds the booted partition, as far as the volumes and the NT
/// path of the partition tell: the disk of the boot volume, or else the one that
/// the path names by its number.
pub open spec fn told_boot_disk(volumes: Seq<VolumeFacts>, boot_nt_path: Seq<char>) -> Option<u32> {
    let mounted = match boot_volume_from(volumes, boot_nt_path, 0) {
        Some(i) => disk_of(volumes[i].device_number),
        None => None,
    };
    if mounted is Some {
        mounted
    } else {
        disk_of(device::arc_device_number(boot_nt_path))
    }
}

/// The disk that was booted from: the one that the volumes and the NT path of
/// the booted partition tell, or else that of the partition which the system
/// reports behind the path.
pub open spec fn boot_disk_of(
    volumes: Seq<VolumeFacts>,
    boot_nt_path: Option<Seq<char>>,
    reported: Option<StorageDeviceNumber>,
) -> Option<u32> {
    match boot_nt_path {
        None => None,
        Some(path) => {
            let told = told_boot_disk(volumes, path);
            if told is Some {
                told
            } else {
                disk_of(reported)
            }
        },
    }
}

/// The disk of a partition, where it is known.
pub fn disk_number(device_number: Option<StorageDeviceNumber>) -> (r: Option<u32>)
    ensures
        r == disk_of(device_number),
{
    match device_number {
        Some(number) => {
            if number.device_type == device::FILE_DEVICE_DISK {
                Some(number.device_number)
            } else {
                None
            }
        },
        None => None,
    }
}

/// Whether a volume is the one that was booted, by its NT name or by the
/// partition that holds it.
pub fn volume_matches_boot(
    volume: &Volume,
    boot_nt_path: &str,
    boot_device_number: Option<StorageDeviceNumber>,
) -> (r: bool)
    ensures
        r == matches_boot(volume@, boot_nt_path@, boot_device_number),
{
    let named = match &volume.dos_device {
        Some(name) => text::same_text(name, boot_nt_path),
        None => false,
    };
    named || match (boot_device_number, volume.device_number) {
        (Some(number), Some(own)) => own == number,
        _ => false,
    }
}

/// The group in which a volume is searched.
pub fn classify(
    volume: &Volume,
    boot_nt_path: Option<&str>,
    boot_disk: Option<u32>,
    ventoy_root: Option<&str>,
) -> (r: SearchGroup)
    ensures
        r == group_of(
            volume@,
            text::optional_str(boot_nt_path),
            boot_disk,
            text::optional_str(ventoy_root),
        ),
{
    if let Some(path) = boot_nt_path {
        if volume_matches_boot(volume, path, device::parse_arc_device_number(path)) {
            return SearchGroup::Boot;
        }
    }
    if let (Some(disk), Some(own)) = (boot_disk, disk_number(volume.device_number)) {
        if own == disk {
            return SearchGroup::SameDisk;
        }
    }
    if let Some(root) = ventoy_root {
        if text::same_text(&volume.root, root) {
            return SearchGroup::Ventoy;
        }
    }
    classify_media(volume.drive_type, volume.bus_type)
}

/// The group of a volume by its drive type and bus type alone.
fn classify_media(drive_type: u32, bus_type: Option<i32>) -> (r: SearchGroup)
    ensures
        r == media_group(drive_type, bus_type),
{
    let (usb, virtual_disk) = match bus_type {
        Some(bus) => (
            bus == BUS_TYPE_USB,
            bus == BUS_TYPE_VIRTUAL || bus == BUS_TYPE_FILE_BACKED_VIRTUAL,
        ),
        None => (false, false),
    };
    if usb {
        SearchGroup::Usb
    } else if drive_type == DRIVE_REMOVABLE {
        SearchGroup::Removable
    } else if drive_type == DRIVE_CDROM {
        SearchGroup::Optical
    } else if drive_type == DRIVE_REMOTE {
        SearchGroup::Network
    } else if drive_type == DRIVE_FIXED && !virtual_disk {
        SearchGroup::Fixed
    } else {
        SearchGroup::VirtualOrRam
    }
}

/// The first of `volumes` that the NT path of the booted partition names.
pub fn boot_volume(volumes: &Vec<Volume>, boot_nt_path: &str) -> (r: Option<usize>)
    ensures
        r is Some == boot_volume_from(facts(volumes@), boot_nt_path@, 0) is Some,
        r matches Some(i) ==> i < volumes.len() && boot_volume_from(
            facts(volumes@),
            boot_nt_path@,
            0,
        ) == Some(i as int),
{
    let number = device::parse_arc_device_number(boot_nt_path);
    let mut i: usize = 0;
    while i < volumes.len()
        invariant
            i <= volumes.len(),
            number == device::arc_device_number(boot_nt_path@),
            boot_volume_from(facts(volumes@), boot_nt_path@, 0) == boot_volume_from(
                facts(volumes@),
                boot_nt_path@,
                i as int,
            ),
        decreases volumes.len() - i,
    {
        assert(facts(volumes@)[i as int] == volumes@[i as int]@);
        if volume_matches_boot(&volumes[i], boot_nt_path, number) {
            return Some(i);
        }
        i = i + 1;
    }
    None
}

/// The disk that holds the booted partition, where the volumes or the NT path of
/// the partition tell it.
pub fn find_boot_disk(volumes: &Vec<Volume>, boot_nt_path: &str) -> (r: Option<u32>)
    ensures
        r == told_boot_disk(facts(volumes@), boot_nt_path@),
{
    if let Some(i) = boot_volume(volumes, boot_nt_path) {
        assert(facts(volumes@)[i as int] == volumes@[i as int]@);
        let disk = disk_number(volumes[i].device_number);
        if disk.is_some() {
            return disk;
        }
    }
    disk_number(device::parse_arc_device_number(boot_nt_path))
}

/// The disk that was booted from, where it is known.
pub fn boot_disk(
    volumes: &Vec<Volume>,
    boot_nt_path: Option<&str>,
    reported: Option<StorageDeviceNumber>,
) -> (r: Option<u32>)
    ensures
        r == boot_disk_of(facts(volumes@), text::optional_str(boot_nt_path), reported),
{
    match boot_nt_path {
        None => None,
        Some(path) => {
            let told = find_boot_disk(volumes, path);
            if told.is_some() {
                told
            } else {
                disk_number(reported)
            }
        },
    }
}

/// Whether a volume of group `a` mounted at `root_a` is searched before one of
/// group `b` mounted at `root_b`: groups count first, roots within a group.
pub open spec fn searched_before(
    a: SearchGroup,
    root_a: Seq<char>,
    b: SearchGroup,
    root_b: Seq<char>,
) -> bool {
    a.rank() < b.rank() || (a == b && text::precedes(root_a, root_b))
}

/// The groups stand in the search in one order and no two at one place.
pub proof fn groups_have_one_place_each(a: SearchGroup, b: SearchGroup)
    ensures
        a.rank() == b.rank() <==> a == b,
        0 <= a.rank() < 9,
{
}

/// Where the booted partition is not known, no volume is searched as the boot
/// volume or as one of the boot disk.
pub proof fn unknown_boot_gives_no_priority(
    volumes: Seq<VolumeFacts>,
    reported: Option<StorageDeviceNumber>,
    volume: VolumeFacts,
    ventoy_root: Option<Seq<char>>,
)
    ensures
        boot_disk_of(volumes, None, reported) is None,
        group_of(volume, None, boot_disk_of(volumes, None, reported), ventoy_root)
            != SearchGroup::Boot,
        group_of(volume, None, boot_disk_of(volumes, None, reported), ventoy_root)
            != SearchGroup::SameDisk,
{
}

/// A volume of a device that is no disk, such as a CD-ROM drive, is never
/// searched as one of the boot disk, whatever the number of its device.
pub proof fn only_disks_are_the_boot_disk(
    volume: VolumeFacts,
    boot_nt_path: Option<Seq<char>>,
    boot_disk: Option<u32>,
    ventoy_root: Option<Seq<char>>,
)
    requires
        volume.device_number is Some,
        volume.device_number->0.device_type != device::FILE_DEVICE_DISK,
    ensures
        group_of(volume, boot_nt_path, boot_disk, ventoy_root) != SearchGroup::SameDisk,
        group_of(volume, boot_nt_path, boot_disk, ventoy_root) == group_of(
            volume,
            boot_nt_path,
            None,
            ventoy_root,
        ),
{
}

/// What is known of the boot and of Ventoy moves a volume forward or leaves it
/// where its media put it, and forward only into the first three groups.
pub proof fn priorities_only_move_forward(
    volume: VolumeFacts,
    boot_nt_path: Option<Seq<char>>,
    boot_disk: Option<u32>,
    ventoy_root: Option<Seq<char>>,
)
    ensures
        ({
            let group = group_of(volume, boot_nt_path, boot_disk, ventoy_root);
            let unmoved = group_of(volume, None, None, None);
            &&& unmoved.rank() > SearchGroup::Ventoy.rank()
            &&& group == unmoved || group.rank() <= SearchGroup::Ventoy.rank()
        }),
{
}

/// The Ventoy data volume changes the group of no other volume.
pub proof fn ventoy_priority_is_for_its_volume_only(
    volume: VolumeFacts,
    boot_nt_path: Option<Seq<char>>,
    boot_disk: Option<u32>,
    ventoy_root: Option<Seq<char>>,
)
    requires
        ventoy_root != Some(volume.root),
    ensures
        group_of(volume, boot_nt_path, boot_disk, ventoy_root) == group_of(
            volume,
            boot_nt_path,
            boot_disk,
            None,
        ),
        group_of(volume, boot_nt_path, boot_disk, ventoy_root) != SearchGroup::Ventoy,
{
}

/// The Ventoy data volume comes after the boot disk and before every other
/// volume.
pub proof fn ventoy_follows_the_boot_disk(
    ventoy: VolumeFacts,
    other: VolumeFacts,
    boot_nt_path: Option<Seq<char>>,
    boot_disk: Option<u32>,
)
    requires
        other.root != ventoy.root,
    ensures
        ({
            let of_ventoy = group_of(ventoy, boot_nt_path, boot_disk, Some(ventoy.root));
            let of_other = group_of(other, boot_nt_path, boot_disk, Some(ventoy.root));
            &&& of_ventoy.rank() <= SearchGroup::Ventoy.rank()
            &&& of_other.rank() < of_ventoy.rank() ==> of_other == SearchGroup::Boot || of_other
                == SearchGroup::SameDisk
            &&& of_other != SearchGroup::Boot && of_other != SearchGroup::SameDisk
                ==> of_ventoy.rank() < of_other.rank()
        }),
{
}

/// A USB disk counts as one whatever drive type its volumes have.
pub proof fn usb_disks_count_by_their_bus(drive_type: u32)
    ensures
        media_group(drive_type, Some(BUS_TYPE_USB)) == SearchGroup::Usb,
{
}

/// A volume of which nothing but the drive type is known is still searched,
/// in the group of its drive type.
pub proof fn unknown_storage_falls_back_to_drive_type(
    volume: VolumeFacts,
    boot_nt_path: Option<Seq<char>>,
    boot_disk: Option<u32>,
)
    requires
        volume.dos_device is None,
        volume.device_number is None,
        volume.bus_type is None,
    ensures
        group_of(volume, boot_nt_path, boot_disk, None) == media_group(volume.drive_type, None),
{
}

/// A mounted boot volume is searched first and, where its disk is known, the
/// other volumes of that disk next.
pub proof fn boot_disk_comes_first(
    volumes: Seq<VolumeFacts>,
    boot_nt_path: Seq<char>,
    reported: Option<StorageDeviceNumber>,
    i: int,
    ventoy_root: Option<Seq<char>>,
)
    requires
        0 <= i < volumes.len(),
    ensures
        is_boot_volume(volumes[i], boot_nt_path) ==> group_of(
            volumes[i],
            Some(boot_nt_path),
            boot_disk_of(volumes, Some(boot_nt_path), reported),
            ventoy_root,
        ) == SearchGroup::Boot,
        boot_volume_from(volumes, boot_nt_path, 0) matches Some(b) ==> disk_of(
            volumes[b].device_number,
        ) is Some && disk_of(volumes[i].device_number) == disk_of(volumes[b].device_number)
            ==> group_of(
            volumes[i],
            Some(boot_nt_path),
            boot_disk_of(volumes, Some(boot_nt_path), reported),
            ventoy_root,
        ).rank() <= SearchGroup::SameDisk.rank(),
{
}

/// The boot volume is the first that the NT path of the booted partition names,
/// and there is none only where the path names none.
pub proof fn boot_volume_is_the_first_named(
    volumes: Seq<VolumeFacts>,
    boot_nt_path: Seq<char>,
    from: int,
)
    requires
        0 <= from,
    ensures
        boot_volume_from(volumes, boot_nt_path, from) matches Some(b) ==> {
            &&& from <= b < volumes.len()
            &&& is_boot_volume(volumes[b], boot_nt_path)
            &&& forall|i: int|
                from <= i < b ==> !is_boot_volume(#[trigger] volumes[i], boot_nt_path)
        },
        boot_volume_from(volumes, boot_nt_path, from) is None ==> forall|i: int|
            from <= i < volumes.len() ==> !is_boot_volume(#[trigger] volumes[i], boot_nt_path),
    decreases volumes.len() - from,
{
    if from < volumes.len() && !is_boot_volume(volumes[from], boot_nt_path) {
        boot_volume_is_the_first_named(volumes, boot_nt_path, from + 1);
    }
}

/// Where the boot volume itself is not mounted, its disk is still known: from the
/// NT path where that names disk and partition by number, and else from the
/// partition that the system reports behind the path. The mounted volumes of
/// that disk are searched as those of the boot disk.
pub proof fn unmounted_boot_disk_is_known_by_number(
    volumes: Seq<VolumeFacts>,
    boot_nt_path: Seq<char>,
    reported: Option<StorageDeviceNumber>,
    i: int,
    ventoy_root: Option<Seq<char>>,
)
    requires
        boot_volume_from(volumes, boot_nt_path, 0) is None,
        0 <= i < volumes.len(),
    ensures
        boot_disk_of(volumes, Some(boot_nt_path), reported) == (
        if device::arc_device_number(boot_nt_path) is Some {
            disk_of(device::arc_device_number(boot_nt_path))
        } else {
            disk_of(reported)
        }),
        boot_disk_of(volumes, Some(boot_nt_path), reported) matches Some(disk) ==> disk_of(
            volumes[i].device_number,
        ) == Some(disk) ==> group_of(
            volumes[i],
            Some(boot_nt_path),
            boot_disk_of(volumes, Some(boot_nt_path), reported),
            ventoy_root,
        ) == SearchGroup::SameDisk,
{
    boot_volume_is_the_first_named(volumes, boot_nt_path, 0);
}

/// What is known of a volume is what its description says, and of volumes what
/// theirs say, in their order.
pub proof fn facts_are_those_described(volume: Volume, volumes: Seq<Volume>)
    ensures
        volume@.root == volume.root@,
        volume@.dos_device is Some <==> volume.dos_device is Some,
        volume.dos_device is Some ==> volume@.dos_device->0 == volume.dos_device->0@,
        volume@.drive_type == volume.drive_type,
        volume@.device_number == volume.device_number,
        volume@.bus_type == volume.bus_type,
        facts(volumes).len() == volumes.len(),
        forall|i: int| 0 <= i < volumes.len() ==> #[trigger] facts(volumes)[i] == volumes[i]@,
{
}

/// A volume matches the boot where its NT name is that of the booted partition,
/// whatever partition holds it, and where the booted partition holds it, whatever
/// its NT name. It matches for no other reason.
pub proof fn either_mark_makes_the_boot_volume(
    volume: VolumeFacts,
    boot_nt_path: Seq<char>,
    number: StorageDeviceNumber,
)
    ensures
        volume.dos_device == Some(boot_nt_path) ==> {
            &&& matches_boot(volume, boot_nt_path, Some(number))
            &&& matches_boot(volume, boot_nt_path, None)
        },
        volume.device_number == Some(number) ==> matches_boot(volume, boot_nt_path, Some(number)),
        volume.dos_device != Some(boot_nt_path) ==> {
            &&& !matches_boot(volume, boot_nt_path, None)
            &&& volume.device_number != Some(number) ==> !matches_boot(
                volume,
                boot_nt_path,
                Some(number),
            )
        },
{
}

/// Whatever its NT name and its media, a volume is searched as the boot volume
/// where the path `\Device\Harddisk<disk>\Partition<partition>` of the booted
/// partition has the numbers of the disk and the partition that hold it.
pub proof fn boot_volume_is_known_by_its_numbers(
    volume: VolumeFacts,
    disk: u32,
    partition: u32,
    boot_disk: Option<u32>,
    ventoy_root: Option<Seq<char>>,
)
    requires
        volume.device_number is Some,
        volume.device_number->0.device_type == 7,
        volume.device_number->0.device_number == disk,
        volume.device_number->0.partition_number == partition,
    ensures
        group_of(
            volume,
            Some(
                "\\Device\\Harddisk"@ + number::decimal(disk as nat) + "\\Partition"@
                    + number::decimal(partition as nat),
            ),
            boot_disk,
            ventoy_root,
        ) == SearchGroup::Boot,
{
    device::arc_path_reads_back(disk, partition);
}

/// Whatever partition holds it, a volume is searched as the boot volume where its
/// NT name is the path of the booted partition.
pub proof fn boot_volume_is_known_by_its_name(
    volume: VolumeFacts,
    name: Seq<char>,
    boot_disk: Option<u32>,
    ventoy_root: Option<Seq<char>>,
)
    requires
        volume.dos_device == Some(name),
    ensures
        group_of(volume, Some(name), boot_disk, ventoy_root) == SearchGroup::Boot,
{
}

/// A volume is searched as the boot volume for no other reason than its NT name
/// or the numbers of the partition that holds it.
pub proof fn boot_volume_has_a_mark_of_the_boot(
    volume: VolumeFacts,
    boot_nt_path: Option<Seq<char>>,
    boot_disk: Option<u32>,
    ventoy_root: Option<Seq<char>>,
)
    requires
        group_of(volume, boot_nt_path, boot_disk, ventoy_root) == SearchGroup::Boot,
    ensures
        boot_nt_path is Some,
        volume.dos_device == boot_nt_path || {
            &&& volume.device_number is Some
            &&& device::arc_device_number(boot_nt_path->0) == volume.device_number
        },
{
}

/// Apart from the boot volume, a volume is searched with the boot disk exactly
/// where it is on a disk and the disk has that number, and else as the Ventoy
/// data volume exactly where its root is that of the data volume.
pub proof fn boot_disk_and_ventoy_have_one_mark_each(
    volume: VolumeFacts,
    boot_nt_path: Option<Seq<char>>,
    boot_disk: Option<u32>,
    ventoy_root: Option<Seq<char>>,
)
    requires
        group_of(volume, boot_nt_path, boot_disk, ventoy_root) != SearchGroup::Boot,
    ensures
        group_of(volume, boot_nt_path, boot_disk, ventoy_root) == SearchGroup::SameDisk <==> {
            &&& boot_disk is Some
            &&& volume.device_number is Some
            &&& volume.device_number->0.device_type == 7
            &&& volume.device_number->0.device_number == boot_disk->0
        },
        group_of(volume, boot_nt_path, boot_disk, ventoy_root) != SearchGroup::SameDisk ==> (
        group_of(volume, boot_nt_path, boot_disk, ventoy_root) == SearchGroup::Ventoy
            <==> ventoy_root == Some(volume.root)),
{
}

/// A volume that neither the boot nor Ventoy moves forward is searched with the
/// USB disks exactly where its bus is that of USB. On any other bus, and where
/// the bus is not known, its drive type decides, and for fixed disks whether the
/// bus is one of virtual disks.
pub proof fn media_decide_where_nothing_else_does(
    volume: VolumeFacts,
    boot_nt_path: Option<Seq<char>>,
    boot_disk: Option<u32>,
    ventoy_root: Option<Seq<char>>,
)
    requires
        group_of(volume, boot_nt_path, boot_disk, ventoy_root) != SearchGroup::Boot,
        group_of(volume, boot_nt_path, boot_disk, ventoy_root) != SearchGroup::SameDisk,
        group_of(volume, boot_nt_path, boot_disk, ventoy_root) != SearchGroup::Ventoy,
    ensures
        ({
            let group = group_of(volume, boot_nt_path, boot_disk, ventoy_root);
            let usb = volume.bus_type == Some(7i32);
            let virtual_disk = volume.bus_type == Some(14i32) || volume.bus_type == Some(15i32);
            let kind = volume.drive_type;
            &&& group == SearchGroup::Usb <==> usb
            &&& group == SearchGroup::Removable <==> !usb && kind == 2
            &&& group == SearchGroup::Optical <==> !usb && kind == 5
            &&& group == SearchGroup::Fixed <==> !usb && kind == 3 && !virtual_disk
            &&& group == SearchGroup::Network <==> !usb && kind == 4
            &&& group == SearchGroup::VirtualOrRam <==> !usb && (kind == 3 && virtual_disk || !(2
                <= kind <= 5))
        }),
{
}

/// The boot disk is that of the first volume that is the boot volume, where it is
/// on a disk. Else it is the disk whose number the NT path of the booted
/// partition gives, and where it gives none, the disk of the partition that the
/// system reports.
pub proof fn boot_disk_has_three_sources(
    volumes: Seq<VolumeFacts>,
    boot_nt_path: Seq<char>,
    reported: Option<StorageDeviceNumber>,
    b: int,
)
    ensures
        ({
            let disk = boot_disk_of(volumes, Some(boot_nt_path), reported);
            let named = device::arc_device_number(boot_nt_path);
            let on_disk = 0 <= b < volumes.len() && volumes[b].device_number is Some
                && volumes[b].device_number->0.device_type == 7;
            let first = {
                &&& 0 <= b < volumes.len()
                &&& is_boot_volume(volumes[b], boot_nt_path)
                &&& forall|i: int|
                    0 <= i < b ==> !is_boot_volume(#[trigger] volumes[i], boot_nt_path)
            };
            let none = forall|i: int|
                0 <= i < volumes.len() ==> !is_boot_volume(#[trigger] volumes[i], boot_nt_path);
            &&& first && on_disk ==> disk == Some(volumes[b].device_number->0.device_number)
            &&& (first && !on_disk || none) && named is Some ==> disk == Some(
                named->0.device_number,
            )
            &&& (first && !on_disk || none) && named is None ==> (match reported {
                Some(number) if number.device_type == 7 => disk == Some(number.device_number),
                _ => disk is None,
            })
        }),
{
    boot_volume_is_the_first_named(volumes, boot_nt_path, 0);
    let found = boot_volume_from(volumes, boot_nt_path, 0);
    if found is Some {
        assert(is_boot_volume(volumes[found->0], boot_nt_path));
    }
}

/// A volume is the boot volume by an NT path where its name is the path or where
/// the path names the disk and the partition that hold it.
pub proof fn boot_volume_by_path(volume: VolumeFacts, boot_nt_path: Seq<char>)
    ensures
        is_boot_volume(volume, boot_nt_path) <==> {
            ||| volume.dos_device == Some(boot_nt_path)
            ||| volume.device_number is Some && device::arc_device_number(boot_nt_path)
                == volume.device_number
        },
{
}

} // verus!
