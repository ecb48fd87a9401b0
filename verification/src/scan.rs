//! Finding out which volumes are mounted at drive letters.

use vstd::prelude::*;

use crate::device::StorageDeviceNumber;
use crate::request::{Answer, Computer, Question, Reply, Request};
use crate::text;
use crate::volume;
use crate::volume::{Volume, VolumeFacts};

verus! {

/// How many drive letters there are.
pub const DRIVE_LETTERS: u32 = 26;

/// The letter with this index: `A` has index 0.
pub open spec fn letter(index: u32) -> char {
    (index + 'A' as int) as char
}

/// The root directory of a drive, such as `C:\`.
pub open spec fn drive_root(index: u32) -> Seq<char> {
    seq![letter(index), ':', '\\']
}

/// The name of a drive, such as `C:`.
pub open spec fn drive_name(index: u32) -> Seq<char> {
    seq![letter(index), ':']
}

/// The path that opens the volume of a drive, such as `\\.\C:`.
pub open spec fn drive_device(index: u32) -> Seq<char> {
    "\\\\.\\"@ + drive_name(index)
}

/// Whether a mask of drives has the bit of a letter set.
pub open spec fn in_use(mask: u32, index: u32) -> bool {
    mask & (1u32 << index) != 0
}

/// The first letter from `from` on that is in use; 26 where there is none.
pub open spec fn next_in_use(mask: u32, from: u32) -> u32
    decreases DRIVE_LETTERS - from,
{
    if from >= DRIVE_LETTERS {
        DRIVE_LETTERS
    } else if in_use(mask, from) {
        from
    } else {
        next_in_use(mask, (from + 1) as u32)
    }
}

/// Whether a drive type says that nothing can be searched at a root.
pub open spec fn is_unusable(drive_type: u32) -> bool {
    drive_type == volume::DRIVE_UNKNOWN || drive_type == volume::DRIVE_NO_ROOT_DIR
}

/// What is known of the volume at a drive letter.
pub open spec fn volume_at(computer: Computer, index: u32) -> VolumeFacts {
    let number = (computer.device_number)(drive_device(index));
    VolumeFacts {
        root: drive_root(index),
        dos_device: (computer.dos_device)(drive_name(index)),
        drive_type: (computer.drive_type)(drive_root(index)),
        device_number: number,
        bus_type: match volume::disk_of(number) {
            Some(disk) => (computer.bus_type)(disk),
            None => None,
        },
    }
}

/// Whether there is a volume to search at a drive letter.
pub open spec fn is_mounted(computer: Computer, mask: u32, index: u32) -> bool {
    in_use(mask, index) && !is_unusable((computer.drive_type)(drive_root(index)))
}

/// The volumes at the first `n` drive letters, in the order of the letters.
pub open spec fn volumes_below(computer: Computer, mask: u32, n: u32) -> Seq<VolumeFacts>
    decreases n,
{
    if n == 0 {
        Seq::empty()
    } else {
        let index = (n - 1) as u32;
        let before = volumes_below(computer, mask, index);
        if is_mounted(computer, mask, index) {
            before.push(volume_at(computer, index))
        } else {
            before
        }
    }
}

/// The volumes of a computer, in the order of their drive letters.
pub open spec fn volumes_of(computer: Computer) -> Seq<VolumeFacts> {
    volumes_below(computer, computer.logical_drives, DRIVE_LETTERS)
}

/// What was found out of the volume at one drive letter.
#[derive(Debug)]
pub enum Probe {
    /// Nothing yet.
    Nothing,
    /// Its drive type.
    DriveType(u32),
    /// Its drive type and its NT name.
    DosDevice(u32, Option<String>),
    /// Its drive type, its NT name and its partition, which is on a disk.
    DeviceNumber(u32, Option<String>, StorageDeviceNumber),
}

/// What [`Probe`] holds.
pub enum ProbeFacts {
    Nothing,
    DriveType(u32),
    DosDevice(u32, Option<Seq<char>>),
    DeviceNumber(u32, Option<Seq<char>>, StorageDeviceNumber),
}

impl View for Probe {
    type V = ProbeFacts;

    open spec fn view(&self) -> ProbeFacts {
        match *self {
            Probe::Nothing => ProbeFacts::Nothing,
            Probe::DriveType(drive_type) => ProbeFacts::DriveType(drive_type),
            Probe::DosDevice(drive_type, name) => ProbeFacts::DosDevice(
                drive_type,
                text::optional(name),
            ),
            Probe::DeviceNumber(drive_type, name, number) => ProbeFacts::DeviceNumber(
                drive_type,
                text::optional(name),
                number,
            ),
        }
    }
}

/// The volumes found so far, and the drive letter that is looked at.
#[derive(Debug)]
pub struct VolumeScan {
    /// The drive letters in use.
    pub mask: u32,
    /// The letter that is looked at; 26 where all have been.
    pub index: u32,
    /// What was found out at that letter.
    pub probe: Probe,
    /// The volumes at the letters before it.
    pub volumes: Vec<Volume>,
}

/// What [`VolumeScan`] holds.
pub struct ScanFacts {
    pub mask: u32,
    pub index: u32,
    pub probe: ProbeFacts,
    pub volumes: Seq<VolumeFacts>,
}

impl View for VolumeScan {
    type V = ScanFacts;

    open spec fn view(&self) -> ScanFacts {
        ScanFacts {
            mask: self.mask,
            index: self.index,
            probe: self.probe@,
            volumes: volume::facts(self.volumes@),
        }
    }
}

impl ScanFacts {
    /// A scan of the drives in `mask` that has seen none of them.
    pub open spec fn start(mask: u32) -> ScanFacts {
        ScanFacts {
            mask,
            index: next_in_use(mask, 0),
            probe: ProbeFacts::Nothing,
            volumes: Seq::empty(),
        }
    }

    /// Whether all drives have been looked at.
    pub open spec fn is_done(self) -> bool {
        self.index >= DRIVE_LETTERS
    }

    /// What has to be known next.
    pub open spec fn question(self) -> Option<Question> {
        if self.is_done() {
            None
        } else {
            Some(
                match self.probe {
                    ProbeFacts::Nothing => Question::DriveType(drive_root(self.index)),
                    ProbeFacts::DriveType(_) => Question::DosDevice(drive_name(self.index)),
                    ProbeFacts::DosDevice(_, _) => Question::DeviceNumber(drive_device(self.index)),
                    ProbeFacts::DeviceNumber(_, _, number) => Question::BusType(
                        number.device_number,
                    ),
                },
            )
        }
    }

    /// The scan with other findings at the letter that it looks at.
    pub open spec fn with_probe(self, probe: ProbeFacts) -> ScanFacts {
        ScanFacts { mask: self.mask, index: self.index, probe, volumes: self.volumes }
    }

    /// The scan at the next letter in use, with these volumes.
    pub open spec fn at_next(self, volumes: Seq<VolumeFacts>) -> ScanFacts {
        ScanFacts {
            mask: self.mask,
            index: next_in_use(self.mask, (self.index + 1) as u32),
            probe: ProbeFacts::Nothing,
            volumes,
        }
    }

    /// The scan with a volume at the letter that it looked at, at the next letter.
    pub open spec fn with_volume(
        self,
        drive_type: u32,
        dos_device: Option<Seq<char>>,
        device_number: Option<StorageDeviceNumber>,
        bus_type: Option<i32>,
    ) -> ScanFacts {
        self.at_next(
            self.volumes.push(
                VolumeFacts {
                    root: drive_root(self.index),
                    dos_device,
                    drive_type,
                    device_number,
                    bus_type,
                },
            ),
        )
    }

    /// The scan after an answer. An answer to another question changes nothing.
    ///
    /// Drives whose type is unknown and roots at which nothing is mounted are
    /// passed over. The bus type is asked for only where the volume is on a disk
    /// that is known.
    pub open spec fn step(self, answer: Answer) -> ScanFacts {
        if self.is_done() {
            self
        } else {
            match (self.probe, answer) {
                (ProbeFacts::Nothing, Answer::DriveType(drive_type)) => {
                    if is_unusable(drive_type) {
                        self.at_next(self.volumes)
                    } else {
                        self.with_probe(ProbeFacts::DriveType(drive_type))
                    }
                },
                (ProbeFacts::DriveType(drive_type), Answer::DosDevice(name)) => self.with_probe(
                    ProbeFacts::DosDevice(drive_type, name),
                ),
                (ProbeFacts::DosDevice(drive_type, name), Answer::DeviceNumber(number)) => {
                    if volume::disk_of(number) is Some {
                        self.with_probe(ProbeFacts::DeviceNumber(drive_type, name, number->0))
                    } else {
                        self.with_volume(drive_type, name, number, None)
                    }
                },
                (
                    ProbeFacts::DeviceNumber(drive_type, name, number),
                    Answer::BusType(bus_type),
                ) => self.with_volume(drive_type, name, Some(number), bus_type),
                _ => self,
            }
        }
    }

    /// Whether what the scan holds is what `computer` answers.
    pub open spec fn agrees_with(self, computer: Computer) -> bool {
        let drive_type = (computer.drive_type)(drive_root(self.index));
        let name = (computer.dos_device)(drive_name(self.index));
        &&& self.mask == computer.logical_drives
        &&& self.index <= DRIVE_LETTERS
        &&& !self.is_done() ==> in_use(self.mask, self.index)
        &&& self.volumes == volumes_below(computer, self.mask, self.index)
        &&& !self.is_done() ==> match self.probe {
            ProbeFacts::Nothing => true,
            ProbeFacts::DriveType(known) => known == drive_type && !is_unusable(known),
            ProbeFacts::DosDevice(known, known_name) => {
                &&& known == drive_type && !is_unusable(known)
                &&& known_name == name
            },
            ProbeFacts::DeviceNumber(known, known_name, number) => {
                &&& known == drive_type && !is_unusable(known)
                &&& known_name == name
                &&& (computer.device_number)(drive_device(self.index)) == Some(number)
                &&& volume::disk_of(Some(number)) is Some
            },
        }
    }

    /// How many answers the scan can still take.
    pub open spec fn remaining(self) -> int {
        if self.is_done() {
            0
        } else {
            4 * (DRIVE_LETTERS - self.index) - match self.probe {
                ProbeFacts::Nothing => 0int,
                ProbeFacts::DriveType(_) => 1int,
                ProbeFacts::DosDevice(_, _) => 2int,
                ProbeFacts::DeviceNumber(_, _, _) => 3int,
            }
        }
    }
}

impl VolumeScan {
    /// Starts a scan of the drives in `mask`.
    pub fn new(mask: u32) -> (r: VolumeScan)
        ensures
            r@ == ScanFacts::start(mask),
    {
        let scan = VolumeScan {
            mask,
            index: find_in_use(mask, 0),
            probe: Probe::Nothing,
            volumes: Vec::new(),
        };
        assert(volume::facts(scan.volumes@) =~= Seq::<VolumeFacts>::empty());
        scan
    }

    /// What has to be known next; nothing where all drives have been looked at.
    pub fn request(&self) -> (r: Option<Request>)
        ensures
            match r {
                Some(request) => self@.question() == Some(request@),
                None => self@.question() is None,
            },
    {
        if self.index >= DRIVE_LETTERS {
            return None;
        }
        Some(
            match &self.probe {
                Probe::Nothing => Request::DriveType(root_text(self.index)),
                Probe::DriveType(_) => Request::DosDevice(name_text(self.index)),
                Probe::DosDevice(_, _) => Request::DeviceNumber(
                    text::join("\\\\.\\", &name_text(self.index)),
                ),
                Probe::DeviceNumber(_, _, number) => Request::BusType(number.device_number),
            },
        )
    }

    /// Takes an answer.
    pub fn answer(self, reply: Reply) -> (r: VolumeScan)
        ensures
            r@ == self@.step(reply@),
    {
        if self.index >= DRIVE_LETTERS {
            return self;
        }
        let VolumeScan { mask, index, probe, volumes } = self;
        match (probe, reply) {
            (Probe::Nothing, Reply::DriveType(drive_type)) => {
                if drive_type == volume::DRIVE_UNKNOWN || drive_type == volume::DRIVE_NO_ROOT_DIR {
                    VolumeScan {
                        mask,
                        index: find_in_use(mask, index + 1),
                        probe: Probe::Nothing,
                        volumes,
                    }
                } else {
                    VolumeScan { mask, index, probe: Probe::DriveType(drive_type), volumes }
                }
            },
            (Probe::DriveType(drive_type), Reply::DosDevice(name)) => VolumeScan {
                mask,
                index,
                probe: Probe::DosDevice(drive_type, name),
                volumes,
            },
            (Probe::DosDevice(drive_type, name), Reply::DeviceNumber(number)) => {
                match (number, volume::disk_number(number)) {
                    (Some(number), Some(_)) => VolumeScan {
                        mask,
                        index,
                        probe: Probe::DeviceNumber(drive_type, name, number),
                        volumes,
                    },
                    _ => Self::with_volume(mask, index, volumes, drive_type, name, number, None),
                }
            },
            (Probe::DeviceNumber(drive_type, name, number), Reply::BusType(bus_type)) => {
                Self::with_volume(mask, index, volumes, drive_type, name, Some(number), bus_type)
            },
            (probe, _) => VolumeScan { mask, index, probe, volumes },
        }
    }

    /// Notes a volume and goes on to the next letter.
    fn with_volume(
        mask: u32,
        index: u32,
        volumes: Vec<Volume>,
        drive_type: u32,
        dos_device: Option<String>,
        device_number: Option<StorageDeviceNumber>,
        bus_type: Option<i32>,
    ) -> (r: VolumeScan)
        requires
            index < DRIVE_LETTERS,
        ensures
            r@ == (ScanFacts {
                mask,
                index,
                probe: ProbeFacts::Nothing,
                volumes: volume::facts(volumes@),
            }).with_volume(drive_type, text::optional(dos_device), device_number, bus_type),
    {
        let ghost before = volumes@;
        let mut volumes = volumes;
        volumes.push(
            Volume { root: root_text(index), dos_device, drive_type, device_number, bus_type },
        );
        assert(volume::facts(volumes@) =~= volume::facts(before).push(volumes@.last()@));
        VolumeScan {
            mask,
            index: find_in_use(mask, index + 1),
            probe: Probe::Nothing,
            volumes,
        }
    }
}

/// The first letter from `from` on that is in use; 26 where there is none.
pub fn find_in_use(mask: u32, from: u32) -> (r: u32)
    ensures
        r == next_in_use(mask, from),
{
    let mut index: u32 = from;
    while index < DRIVE_LETTERS
        invariant
            next_in_use(mask, from) == next_in_use(mask, index),
        decreases DRIVE_LETTERS - index,
    {
        if mask & (1u32 << index) != 0 {
            return index;
        }
        index = index + 1;
    }
    DRIVE_LETTERS
}

/// The root directory of a drive.
fn root_text(index: u32) -> (r: String)
    requires
        index < DRIVE_LETTERS,
    ensures
        r@ == drive_root(index),
{
    let mut root = name_text(index);
    root.push('\\');
    assert(root@ =~= drive_root(index));
    root
}

/// The name of a drive.
fn name_text(index: u32) -> (r: String)
    requires
        index < DRIVE_LETTERS,
    ensures
        r@ == drive_name(index),
{
    let mut name = String::new();
    name.push((index as u8 + 65) as char);
    name.push(':');
    assert(name@ =~= drive_name(index));
    name
}

/// Passing over letters that are not in use passes over no volume.
proof fn skipped_letters_hold_no_volume(computer: Computer, mask: u32, from: u32)
    requires
        from <= DRIVE_LETTERS,
    ensures
        from <= next_in_use(mask, from) <= DRIVE_LETTERS,
        next_in_use(mask, from) < DRIVE_LETTERS ==> in_use(mask, next_in_use(mask, from)),
        volumes_below(computer, mask, next_in_use(mask, from)) == volumes_below(
            computer,
            mask,
            from,
        ),
    decreases DRIVE_LETTERS - from,
{
    if from < DRIVE_LETTERS && !in_use(mask, from) {
        skipped_letters_hold_no_volume(computer, mask, (from + 1) as u32);
        assert(volumes_below(computer, mask, (from + 1) as u32) == volumes_below(
            computer,
            mask,
            from,
        ));
    }
}

/// A scan of the drives that a computer has in use agrees with the computer
/// from the start.
pub proof fn scan_starts_in_agreement(computer: Computer)
    ensures
        ScanFacts::start(computer.logical_drives).agrees_with(computer),
{
    skipped_letters_hold_no_volume(computer, computer.logical_drives, 0);
}

/// An answer of the computer keeps the scan in agreement with it and brings it
/// nearer to its end.
pub proof fn scan_stays_in_agreement(scan: ScanFacts, computer: Computer)
    requires
        scan.agrees_with(computer),
        !scan.is_done(),
    ensures
        scan.step(computer.answer(scan.question()->0)).agrees_with(computer),
        0 <= scan.step(computer.answer(scan.question()->0)).remaining() < scan.remaining(),
{
    let after = scan.step(computer.answer(scan.question()->0));
    let next = (scan.index + 1) as u32;
    skipped_letters_hold_no_volume(computer, scan.mask, next);
    assert(volumes_below(computer, scan.mask, next) == if is_mounted(
        computer,
        scan.mask,
        scan.index,
    ) {
        volumes_below(computer, scan.mask, scan.index).push(volume_at(computer, scan.index))
    } else {
        volumes_below(computer, scan.mask, scan.index)
    });
}

/// A finished scan that agrees with a computer holds its volumes.
pub proof fn finished_scan_holds_the_volumes(scan: ScanFacts, computer: Computer)
    requires
        scan.agrees_with(computer),
        scan.is_done(),
    ensures
        scan.volumes == volumes_of(computer),
{
}

/// Every volume of a computer is mounted at a drive letter in use, volumes
/// stand in the order of their letters, and no letter has two of them.
pub proof fn volumes_stand_at_drive_letters(computer: Computer, mask: u32, n: u32, i: int)
    requires
        n <= DRIVE_LETTERS,
        0 <= i < volumes_below(computer, mask, n).len(),
    ensures
        exists|index: u32|
            {
                &&& index < n
                &&& #[trigger] is_mounted(computer, mask, index)
                &&& volumes_below(computer, mask, n)[i] == volume_at(computer, index)
                &&& i == volumes_below(computer, mask, index).len()
            },
    decreases n,
{
    let last = (n - 1) as u32;
    let before = volumes_below(computer, mask, last);
    if is_mounted(computer, mask, last) && i == before.len() {
        assert(volumes_below(computer, mask, n)[i] == volume_at(computer, last));
    } else {
        volumes_stand_at_drive_letters(computer, mask, last, i);
        let index = choose|index: u32|
            {
                &&& index < last
                &&& #[trigger] is_mounted(computer, mask, index)
                &&& before[i] == volume_at(computer, index)
                &&& i == volumes_below(computer, mask, index).len()
            };
        assert(is_mounted(computer, mask, index));
    }
}

/// Every usable drive letter in use has its volume among those of the computer.
pub proof fn every_mounted_letter_is_found(computer: Computer, mask: u32, n: u32, index: u32)
    requires
        index < n <= DRIVE_LETTERS,
        is_mounted(computer, mask, index),
    ensures
        volumes_below(computer, mask, n).contains(volume_at(computer, index)),
    decreases n,
{
    let last = (n - 1) as u32;
    let before = volumes_below(computer, mask, last);
    let all = volumes_below(computer, mask, n);
    if index == last {
        assert(all[before.len() as int] == volume_at(computer, index));
    } else {
        every_mounted_letter_is_found(computer, mask, last, index);
        let i = before.index_of(volume_at(computer, index));
        assert(all[i] == before[i]);
    }
}

/// No volume is lost on the way to further letters.
proof fn volumes_grow(computer: Computer, mask: u32, n: u32, m: u32)
    requires
        n <= m,
    ensures
        volumes_below(computer, mask, n).len() <= volumes_below(computer, mask, m).len(),
    decreases m,
{
    if n < m {
        volumes_grow(computer, mask, n, (m - 1) as u32);
    }
}

/// The roots of the volumes stand in the order of texts, which is that of
/// their drive letters, and no two are equal.
pub proof fn roots_ascend(computer: Computer, mask: u32, n: u32, i: int, j: int)
    requires
        n <= DRIVE_LETTERS,
        0 <= i < j < volumes_below(computer, mask, n).len(),
    ensures
        text::precedes(
            volumes_below(computer, mask, n)[i].root,
            volumes_below(computer, mask, n)[j].root,
        ),
{
    let all = volumes_below(computer, mask, n);
    volumes_stand_at_drive_letters(computer, mask, n, i);
    volumes_stand_at_drive_letters(computer, mask, n, j);
    let a = choose|a: u32|
        {
            &&& a < n
            &&& #[trigger] is_mounted(computer, mask, a)
            &&& all[i] == volume_at(computer, a)
            &&& i == volumes_below(computer, mask, a).len()
        };
    let b = choose|b: u32|
        {
            &&& b < n
            &&& #[trigger] is_mounted(computer, mask, b)
            &&& all[j] == volume_at(computer, b)
            &&& j == volumes_below(computer, mask, b).len()
        };
    if b <= a {
        volumes_grow(computer, mask, b, a);
    }
    assert(letter(a) < letter(b));
}

/// A drive is named by its letter, counted from `A`: the letter and a colon, and
/// behind them a backslash for its root, or `\\.\` before them for its volume.
pub proof fn drives_are_named_by_their_letters(index: u32)
    requires
        index < 26,
    ensures
        drive_name(index).len() == 2,
        drive_name(index)[0] as int == 65 + index,
        drive_name(index)[1] == ':',
        drive_root(index) == drive_name(index).push('\\'),
        drive_device(index) == seq!['\\', '\\', '.', '\\'] + drive_name(index),
{
    reveal_strlit("\\\\.\\");
    assert("\\\\.\\"@ =~= seq!['\\', '\\', '.', '\\']);
    assert(drive_root(index) =~= drive_name(index).push('\\'));
}

/// A letter is in use where the binary digit of the mask at its place is one.
pub proof fn letters_in_use_are_digits_of_the_mask(mask: u32, index: u32)
    requires
        index < 26,
    ensures
        in_use(mask, index) <==> (mask >> index) % 2 == 1,
{
    assert(index < 26 ==> ((mask & (1u32 << index) != 0) <==> ((mask >> index) % 2 == 1)))
        by (bit_vector);
}

/// The next letter in use is one in use with none between, and 26 where no
/// further letter is in use.
pub proof fn next_letter_is_the_next_in_use(mask: u32, from: u32)
    ensures
        from > 26 ==> next_in_use(mask, from) == 26,
        from <= 26 ==> from <= next_in_use(mask, from) <= 26,
        next_in_use(mask, from) < 26 ==> (mask >> next_in_use(mask, from)) % 2 == 1,
        forall|index: u32|
            from <= index < next_in_use(mask, from) ==> #[trigger] (mask >> index) % 2 == 0,
    decreases 26 - from,
{
    if from < 26 {
        letters_in_use_are_digits_of_the_mask(mask, from);
        if !in_use(mask, from) {
            next_letter_is_the_next_in_use(mask, (from + 1) as u32);
            assert forall|index: u32| from <= index < next_in_use(mask, from) implies #[trigger] (
            mask >> index) % 2 == 0 by {
                if index == from {
                    assert((mask >> from) % 2 == 0);
                }
            }
        }
    }
}

/// Whether `root` is that of a drive letter which a computer has in use and at
/// which something is mounted.
pub open spec fn is_searchable_root(computer: Computer, root: Seq<char>) -> bool {
    &&& root.len() == 3
    &&& 65 <= (root[0] as int)
    &&& (root[0] as int) <= 90
    &&& root[1] == ':'
    &&& root[2] == '\\'
    &&& (computer.logical_drives >> ((root[0] as int - 65) as u32)) % 2 == 1
    &&& (computer.drive_type)(root) != 0
    &&& (computer.drive_type)(root) != 1
}

/// Whether a volume is described as a computer answers for its root: the NT name
/// of its drive, its drive type, its partition and, where that is on a disk, the
/// bus of that disk.
pub open spec fn is_described_as_answered(computer: Computer, volume: VolumeFacts) -> bool {
    let drive = volume.root.take(2);
    &&& volume.dos_device == (computer.dos_device)(drive)
    &&& volume.drive_type == (computer.drive_type)(volume.root)
    &&& volume.device_number == (computer.device_number)(seq!['\\', '\\', '.', '\\'] + drive)
    &&& match volume.device_number {
        Some(number) if number.device_type == 7 => volume.bus_type == (computer.bus_type)(
            number.device_number,
        ),
        _ => volume.bus_type is None,
    }
}

/// Every volume of a computer is at a drive letter in use at which something is
/// mounted, and is described as the computer answers.
pub proof fn volumes_are_at_searchable_roots(computer: Computer, i: int)
    requires
        0 <= i < volumes_of(computer).len(),
    ensures
        is_searchable_root(computer, volumes_of(computer)[i].root),
        is_described_as_answered(computer, volumes_of(computer)[i]),
{
    let mask = computer.logical_drives;
    volumes_stand_at_drive_letters(computer, mask, DRIVE_LETTERS, i);
    let index = choose|index: u32|
        {
            &&& index < DRIVE_LETTERS
            &&& #[trigger] is_mounted(computer, mask, index)
            &&& volumes_of(computer)[i] == volume_at(computer, index)
        };
    letter_is_searchable(computer, index);
    described_at_letter(computer, index);
}

/// Every drive letter in use at which something is mounted has its volume among
/// those of the computer.
pub proof fn searchable_roots_have_their_volumes(computer: Computer, root: Seq<char>)
    requires
        is_searchable_root(computer, root),
    ensures
        exists|i: int|
            0 <= i < volumes_of(computer).len() && (#[trigger] volumes_of(computer)[i]).root
                == root,
{
    let index = (root[0] as int - 65) as u32;
    let mask = computer.logical_drives;
    drives_are_named_by_their_letters(index);
    letters_in_use_are_digits_of_the_mask(mask, index);
    one_letter(drive_root(index)[0], root[0]);
    assert(drive_root(index) =~= root);
    every_mounted_letter_is_found(computer, mask, DRIVE_LETTERS, index);
    let i = volumes_of(computer).index_of(volume_at(computer, index));
    assert(volumes_of(computer)[i].root == root);
}

/// The volumes of a computer stand in the order of their letters, no two of them
/// at one.
pub proof fn volumes_stand_in_the_order_of_letters(computer: Computer, i: int, j: int)
    requires
        0 <= i < j < volumes_of(computer).len(),
    ensures
        (volumes_of(computer)[i].root[0] as int) < (volumes_of(computer)[j].root[0] as int),
{
    let mask = computer.logical_drives;
    roots_ascend(computer, mask, DRIVE_LETTERS, i, j);
    volumes_are_at_searchable_roots(computer, i);
    volumes_are_at_searchable_roots(computer, j);
    let a = volumes_of(computer)[i].root;
    let b = volumes_of(computer)[j].root;
    text::order_is_decided_at_the_first_difference(a, b);
    let k = choose|k: int|
        {
            &&& 0 <= k <= a.len()
            &&& k < b.len()
            &&& #[trigger] a.take(k) == b.take(k)
            &&& k == a.len() || (a[k] as int) < (b[k] as int)
        };
    if k > 0 {
        assert(a.take(k)[0] == b.take(k)[0]);
        assert(a[0] == b[0]);
    }
}

/// Letters with one code point are one letter.
proof fn one_letter(a: char, b: char)
    ensures
        a as int == b as int ==> a == b,
{
}

/// A letter at which something is mounted has a searchable root.
proof fn letter_is_searchable(computer: Computer, index: u32)
    requires
        index < 26,
        is_mounted(computer, computer.logical_drives, index),
    ensures
        is_searchable_root(computer, drive_root(index)),
{
    drives_are_named_by_their_letters(index);
    letters_in_use_are_digits_of_the_mask(computer.logical_drives, index);
    assert((drive_root(index)[0] as int - 65) as u32 == index);
}

/// What is known of the volume at a letter is what the computer answers.
proof fn described_at_letter(computer: Computer, index: u32)
    requires
        index < 26,
    ensures
        is_described_as_answered(computer, volume_at(computer, index)),
{
    drives_are_named_by_their_letters(index);
    assert(drive_root(index).take(2) =~= drive_name(index));
}

} // verus!
