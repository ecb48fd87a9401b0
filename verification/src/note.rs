//! What a search has to say besides its result.

use vstd::prelude::*;

use crate::device::StorageDeviceNumber;
use crate::number;
use crate::plan::{Candidate, CandidateFacts};
use crate::request::TableName;
use crate::text;
use crate::volume::{Volume, VolumeFacts};

verus! {

/// One line of what is told about a search.
#[derive(Debug)]
pub enum Note {
    /// The firmware boot device cannot be read, for this reason.
    BootDeviceUnreadable(String),
    /// The link to the boot partition was refused with this status.
    ArcLinkUnavailable(i32),
    /// A volume was found.
    VolumeFound(Volume),
    /// The boot partition with this NT path is mounted at no drive letter.
    BootPartitionUnmounted(String),
    /// The privilege to read firmware variables is not held, for this reason.
    PrivilegeUnavailable(String),
    /// The runtime parameter of Ventoy was read from the firmware variable.
    VentoyFromVariable,
    /// The runtime parameter of Ventoy was read from this table.
    VentoyFromTable(TableName),
    /// There is no runtime parameter of Ventoy.
    VentoyNotFound,
    /// The data volume with this root holds the booted image with this path.
    VentoyVolumeFound(String, String),
    /// The booted image with this path is on no mounted volume.
    VentoyVolumeMissing(String),
    /// This path is looked for.
    Checking(Candidate),
}

/// What a note tells.
pub enum NoteFacts {
    BootDeviceUnreadable(Seq<char>),
    ArcLinkUnavailable(i32),
    VolumeFound(VolumeFacts),
    BootPartitionUnmounted(Seq<char>),
    PrivilegeUnavailable(Seq<char>),
    VentoyFromVariable,
    VentoyFromTable(TableName),
    VentoyNotFound,
    VentoyVolumeFound(Seq<char>, Seq<char>),
    VentoyVolumeMissing(Seq<char>),
    Checking(CandidateFacts),
}

impl View for Note {
    type V = NoteFacts;

    open spec fn view(&self) -> NoteFacts {
        match *self {
            Note::BootDeviceUnreadable(error) => NoteFacts::BootDeviceUnreadable(error@),
            Note::ArcLinkUnavailable(status) => NoteFacts::ArcLinkUnavailable(status),
            Note::VolumeFound(volume) => NoteFacts::VolumeFound(volume@),
            Note::BootPartitionUnmounted(path) => NoteFacts::BootPartitionUnmounted(path@),
            Note::PrivilegeUnavailable(error) => NoteFacts::PrivilegeUnavailable(error@),
            Note::VentoyFromVariable => NoteFacts::VentoyFromVariable,
            Note::VentoyFromTable(table) => NoteFacts::VentoyFromTable(table),
            Note::VentoyNotFound => NoteFacts::VentoyNotFound,
            Note::VentoyVolumeFound(root, image) => NoteFacts::VentoyVolumeFound(root@, image@),
            Note::VentoyVolumeMissing(image) => NoteFacts::VentoyVolumeMissing(image@),
            Note::Checking(candidate) => NoteFacts::Checking(candidate@),
        }
    }
}

/// What notes tell.
pub open spec fn note_facts(notes: Seq<Note>) -> Seq<NoteFacts> {
    notes.map_values(|note: Note| note@)
}

/// A text in quotes, with the characters that would not show escaped.
pub uninterp spec fn quoted(text: Seq<char>) -> Seq<char>;

/// The `Debug` form of `str`, as `format!` writes it: it depends on the text
/// alone. Nothing is said here of how it escapes.
#[verifier::external_body]
fn quote(text: &str) -> (r: String)
    ensures
        r@ == quoted(text@),
{
    format!("{text:?}")
}

/// An optional value, of which this is the text.
pub open spec fn option_text(value: Option<Seq<char>>) -> Seq<char> {
    match value {
        Some(text) => "Some("@ + text + ")"@,
        None => "None"@,
    }
}

/// A partition of a storage device, in full.
pub open spec fn device_text(number: StorageDeviceNumber) -> Seq<char> {
    "STORAGE_DEVICE_NUMBER { DeviceType: "@ + number::decimal(number.device_type as nat)
        + ", DeviceNumber: "@ + number::decimal(number.device_number as nat)
        + ", PartitionNumber: "@ + number::decimal(number.partition_number as nat) + " }"@
}

/// The line about a volume whose NT name, in quotes, is `quoted_name`.
pub open spec fn volume_text(volume: VolumeFacts, quoted_name: Option<Seq<char>>) -> Seq<char> {
    "volume "@ + volume.root + " type="@ + number::decimal(volume.drive_type as nat) + " nt="@
        + option_text(quoted_name) + " device="@ + option_text(
        match volume.device_number {
            Some(number) => Some(device_text(number)),
            None => None,
        },
    ) + " bus="@ + option_text(
        match volume.bus_type {
            Some(bus_type) => Some(number::signed_decimal(bus_type as int)),
            None => None,
        },
    )
}

/// The bits of a status, read as a number without sign.
pub open spec fn status_bits(status: i32) -> nat {
    if status < 0 {
        (status + 0x1_0000_0000) as nat
    } else {
        status as nat
    }
}

impl NoteFacts {
    /// What is written of the note.
    pub open spec fn line(self) -> Seq<char> {
        match self {
            NoteFacts::BootDeviceUnreadable(error) => {
                "Warning: cannot read FirmwareBootDevice: "@ + error
                    + "; continuing without boot-volume priority."@
            },
            NoteFacts::ArcLinkUnavailable(status) => {
                "Warning: ARC link unavailable (NTSTATUS 0x"@ + number::hex(status_bits(status), 8)
                    + "); continuing without boot-volume priority."@
            },
            NoteFacts::VolumeFound(volume) => volume_text(
                volume,
                match volume.dos_device {
                    Some(name) => Some(quoted(name)),
                    None => None,
                },
            ),
            NoteFacts::BootPartitionUnmounted(path) => {
                "Warning: boot partition "@ + path
                    + " has no mounted DOS drive; continuing with remaining volumes."@
            },
            NoteFacts::PrivilegeUnavailable(error) => {
                "Warning: cannot enable SeSystemEnvironmentPrivilege for Ventoy UEFI data: "@
                    + error + "; checking available firmware tables."@
            },
            NoteFacts::VentoyFromVariable => {
                "Ventoy runtime parameter read from the UEFI variable."@
            },
            NoteFacts::VentoyFromTable(table) => {
                "Ventoy runtime parameter read from ACPI "@ + table.label() + "."@
            },
            NoteFacts::VentoyNotFound => {
                "Ventoy runtime parameter was not found in UEFI or ACPI data."@
            },
            NoteFacts::VentoyVolumeFound(root, image) => {
                "Ventoy data volume "@ + root + " contains the current ISO "@ + image
                    + "; assigning Ventoy priority."@
            },
            NoteFacts::VentoyVolumeMissing(image) => {
                "Warning: Ventoy runtime data was found, but its data volume or ISO "@ + image
                    + " is not mounted."@
            },
            NoteFacts::Checking(candidate) => {
                "["@ + candidate.group.label() + "] checking "@ + candidate.path
            },
        }
    }
}

impl Note {
    /// What is written of the note.
    pub fn line(&self) -> (r: String)
        ensures
            r@ == self@.line(),
    {
        match self {
            Note::BootDeviceUnreadable(error) => text::join3(
                "Warning: cannot read FirmwareBootDevice: ",
                error,
                "; continuing without boot-volume priority.",
            ),
            Note::ArcLinkUnavailable(status) => text::join3(
                "Warning: ARC link unavailable (NTSTATUS 0x",
                &number::hex_u32(bits_of_status(*status)),
                "); continuing without boot-volume priority.",
            ),
            Note::VolumeFound(volume) => match &volume.dos_device {
                Some(name) => volume_line(volume, Some(&quote(name))),
                None => volume_line(volume, None),
            },
            Note::BootPartitionUnmounted(path) => text::join3(
                "Warning: boot partition ",
                path,
                " has no mounted DOS drive; continuing with remaining volumes.",
            ),
            Note::PrivilegeUnavailable(error) => text::join3(
                "Warning: cannot enable SeSystemEnvironmentPrivilege for Ventoy UEFI data: ",
                error,
                "; checking available firmware tables.",
            ),
            Note::VentoyFromVariable => {
                "Ventoy runtime parameter read from the UEFI variable.".to_owned()
            },
            Note::VentoyFromTable(table) => text::join3(
                "Ventoy runtime parameter read from ACPI ",
                table.name(),
                ".",
            ),
            Note::VentoyNotFound => {
                "Ventoy runtime parameter was not found in UEFI or ACPI data.".to_owned()
            },
            Note::VentoyVolumeFound(root, image) => text::join3(
                &text::join3("Ventoy data volume ", root, " contains the current ISO "),
                image,
                "; assigning Ventoy priority.",
            ),
            Note::VentoyVolumeMissing(image) => text::join3(
                "Warning: Ventoy runtime data was found, but its data volume or ISO ",
                image,
                " is not mounted.",
            ),
            Note::Checking(candidate) => text::join(
                &text::join3("[", candidate.group.name(), "] checking "),
                &candidate.path,
            ),
        }
    }
}

/// The line about a volume whose NT name, in quotes, is `quoted_name`.
pub fn volume_line(volume: &Volume, quoted_name: Option<&str>) -> (r: String)
    ensures
        r@ == volume_text(volume@, text::optional_str(quoted_name)),
{
    let device = match volume.device_number {
        Some(number) => some_line(&device_line(number)),
        None => "None".to_owned(),
    };
    let bus_type = match volume.bus_type {
        Some(bus_type) => some_line(&number::decimal_i32(bus_type)),
        None => "None".to_owned(),
    };
    let name = match quoted_name {
        Some(name) => some_line(name),
        None => "None".to_owned(),
    };
    let line = text::join3("volume ", &volume.root, " type=");
    let line = text::join3(&line, &number::decimal_u32(volume.drive_type), " nt=");
    let line = text::join3(&line, &name, " device=");
    let line = text::join3(&line, &device, " bus=");
    text::join(&line, &bus_type)
}

/// A value that is there, of which this is the text.
fn some_line(value: &str) -> (r: String)
    ensures
        r@ == option_text(Some(value@)),
{
    text::join3("Some(", value, ")")
}

/// A partition of a storage device, in full.
fn device_line(number: StorageDeviceNumber) -> (r: String)
    ensures
        r@ == device_text(number),
{
    let line = text::join3(
        "STORAGE_DEVICE_NUMBER { DeviceType: ",
        &number::decimal_u32(number.device_type),
        ", DeviceNumber: ",
    );
    let line = text::join3(
        &line,
        &number::decimal_u32(number.device_number),
        ", PartitionNumber: ",
    );
    text::join3(&line, &number::decimal_u32(number.partition_number), " }")
}

/// The bits of a status, read as a number without sign.
fn bits_of_status(status: i32) -> (r: u32)
    ensures
        r == status_bits(status),
{
    if status < 0 {
        (status as i64 + 0x1_0000_0000) as u32
    } else {
        status as u32
    }
}

/// `notes` with one more behind them.
pub fn noted(notes: Vec<Note>, note: Note) -> (r: Vec<Note>)
    ensures
        note_facts(r@) == note_facts(notes@).push(note@),
{
    let ghost before = notes@;
    let mut notes = notes;
    notes.push(note);
    assert(note_facts(notes@) =~= note_facts(before).push(note@));
    notes
}

/// No notes.
pub fn no_notes() -> (r: Vec<Note>)
    ensures
        note_facts(r@) == Seq::<NoteFacts>::empty(),
{
    let notes: Vec<Note> = Vec::new();
    assert(note_facts(notes@) =~= Seq::<NoteFacts>::empty());
    notes
}

/// What a note tells is what it holds, and of notes what each of them does, in
/// their order.
pub proof fn notes_tell_what_they_hold(
    text: String,
    other: String,
    status: i32,
    volume: Volume,
    table: TableName,
    candidate: Candidate,
    notes: Seq<Note>,
)
    ensures
        Note::BootDeviceUnreadable(text)@ == NoteFacts::BootDeviceUnreadable(text@),
        Note::ArcLinkUnavailable(status)@ == NoteFacts::ArcLinkUnavailable(status),
        Note::VolumeFound(volume)@ == NoteFacts::VolumeFound(volume@),
        Note::BootPartitionUnmounted(text)@ == NoteFacts::BootPartitionUnmounted(text@),
        Note::PrivilegeUnavailable(text)@ == NoteFacts::PrivilegeUnavailable(text@),
        Note::VentoyFromVariable@ == NoteFacts::VentoyFromVariable,
        Note::VentoyFromTable(table)@ == NoteFacts::VentoyFromTable(table),
        Note::VentoyNotFound@ == NoteFacts::VentoyNotFound,
        Note::VentoyVolumeFound(text, other)@ == NoteFacts::VentoyVolumeFound(text@, other@),
        Note::VentoyVolumeMissing(text)@ == NoteFacts::VentoyVolumeMissing(text@),
        Note::Checking(candidate)@ == NoteFacts::Checking(candidate@),
        note_facts(notes).len() == notes.len(),
        forall|i: int| 0 <= i < notes.len() ==> #[trigger] note_facts(notes)[i] == notes[i]@,
{
}

/// Whether `line` is `frame` with `text`, all of it, put in at position `at`.
pub open spec fn has_put_in(
    line: Seq<char>,
    frame: Seq<char>,
    at: int,
    text: Seq<char>,
) -> bool {
    &&& 0 <= at <= frame.len()
    &&& line == frame.take(at) + text + frame.skip(at)
}

/// The lines that tell of a text, such as a path or the reason of a failure, hold
/// it in full, and all else in them is what they hold for no text.
pub proof fn lines_hold_their_texts_in_full(text: Seq<char>, other: Seq<char>)
    ensures
        has_put_in(
            NoteFacts::BootDeviceUnreadable(text).line(),
            NoteFacts::BootDeviceUnreadable(Seq::empty()).line(),
            41,
            text,
        ),
        has_put_in(
            NoteFacts::BootPartitionUnmounted(text).line(),
            NoteFacts::BootPartitionUnmounted(Seq::empty()).line(),
            24,
            text,
        ),
        has_put_in(
            NoteFacts::PrivilegeUnavailable(text).line(),
            NoteFacts::PrivilegeUnavailable(Seq::empty()).line(),
            74,
            text,
        ),
        has_put_in(
            NoteFacts::VentoyVolumeMissing(text).line(),
            NoteFacts::VentoyVolumeMissing(Seq::empty()).line(),
            67,
            text,
        ),
        has_put_in(
            NoteFacts::VentoyVolumeFound(text, other).line(),
            NoteFacts::VentoyVolumeFound(Seq::empty(), other).line(),
            19,
            text,
        ),
        has_put_in(
            NoteFacts::VentoyVolumeFound(Seq::empty(), text).line(),
            NoteFacts::VentoyVolumeFound(Seq::empty(), Seq::empty()).line(),
            45,
            text,
        ),
{
    reveal_strlit("Warning: cannot read FirmwareBootDevice: ");
    reveal_strlit("Warning: boot partition ");
    reveal_strlit("Warning: cannot enable SeSystemEnvironmentPrivilege for Ventoy UEFI data: ");
    reveal_strlit("Warning: Ventoy runtime data was found, but its data volume or ISO ");
    reveal_strlit("Ventoy data volume ");
    reveal_strlit(" contains the current ISO ");
    let without_priority = "; continuing without boot-volume priority."@;
    put_between("Warning: cannot read FirmwareBootDevice: "@, text, without_priority);
    put_between(
        "Warning: boot partition "@,
        text,
        " has no mounted DOS drive; continuing with remaining volumes."@,
    );
    put_between(
        "Warning: cannot enable SeSystemEnvironmentPrivilege for Ventoy UEFI data: "@,
        text,
        "; checking available firmware tables."@,
    );
    put_between(
        "Warning: Ventoy runtime data was found, but its data volume or ISO "@,
        text,
        " is not mounted."@,
    );
    let volume = "Ventoy data volume "@;
    let contains = " contains the current ISO "@;
    let priority = "; assigning Ventoy priority."@;
    let none = Seq::<char>::empty();
    put_between(volume, text, contains + other + priority);
    assert(volume + text + (contains + other + priority) =~= volume + text + contains + other
        + priority);
    assert(volume + none + (contains + other + priority) =~= volume + none + contains + other
        + priority);
    put_between(volume + none + contains, text, priority);
    assert((volume + none + contains).len() == volume.len() + contains.len());
}

/// A text between two others is put in behind the first of them.
proof fn put_between(before: Seq<char>, text: Seq<char>, after: Seq<char>)
    ensures
        has_put_in(
            before + text + after,
            before + Seq::<char>::empty() + after,
            before.len() as int,
            text,
        ),
{
    let frame = before + Seq::<char>::empty() + after;
    assert(frame.take(before.len() as int) =~= before);
    assert(frame.skip(before.len() as int) =~= after);
}

/// The line about a path that is looked for ends with the path, behind the name
/// of its group, and the line about a refused link holds the eight hexadecimal
/// digits of the status, which counts below zero from 0x100000000 down.
pub proof fn lines_name_group_path_and_status(candidate: CandidateFacts, status: i32)
    ensures
        ({
            let line = NoteFacts::Checking(candidate).line();
            let label = candidate.group.label();
            let end = 1 + label.len() as int;
            &&& line.len() == end + 11 + candidate.path.len()
            &&& line.subrange(1, end) == label
            &&& line.skip(end + 11) == candidate.path
        }),
        has_put_in(
            NoteFacts::ArcLinkUnavailable(status).line(),
            NoteFacts::ArcLinkUnavailable(0).line().take(42) + NoteFacts::ArcLinkUnavailable(
                0,
            ).line().skip(50),
            42,
            number::hex(
                if status < 0 {
                    (0x1_0000_0000 + status) as nat
                } else {
                    status as nat
                },
                8,
            ),
        ),
{
    reveal_strlit("[");
    reveal_strlit("] checking ");
    reveal_strlit("Warning: ARC link unavailable (NTSTATUS 0x");
    number::hex_digits_count_powers_of_sixteen(0, 8, 0);
    number::hex_digits_count_powers_of_sixteen(status_bits(status), 8, 0);
    let zero = NoteFacts::ArcLinkUnavailable(0).line();
    let start = "Warning: ARC link unavailable (NTSTATUS 0x"@;
    let end = "); continuing without boot-volume priority."@;
    assert(zero.take(42) =~= start);
    assert(zero.skip(50) =~= end);
    let frame = zero.take(42) + zero.skip(50);
    assert(frame.take(42) =~= start);
    assert(frame.skip(42) =~= end);
    let line = NoteFacts::Checking(candidate).line();
    let label = candidate.group.label();
    let end = 1 + label.len() as int;
    assert(line.subrange(1, end) =~= label);
    assert(line.skip(end + 11) =~= candidate.path);
}

/// The line about a volume tells its root, its drive type, its NT name, its
/// partition and its bus, each in full and in this order, between words that are
/// the same for every volume.
pub proof fn volume_line_tells_all_that_is_known(volume: VolumeFacts, name: Option<Seq<char>>)
    ensures
        ({
            let kind = number::decimal(volume.drive_type as nat);
            let nt = told_option(name);
            let device = told_option(
                match volume.device_number {
                    Some(number) => Some(told_device(number)),
                    None => None,
                },
            );
            let bus = told_option(
                match volume.bus_type {
                    Some(bus) => Some(number::signed_decimal(bus as int)),
                    None => None,
                },
            );
            volume_text(volume, name) == seq!['v', 'o', 'l', 'u', 'm', 'e', ' '] + volume.root
                + seq![' ', 't', 'y', 'p', 'e', '='] + kind + seq![' ', 'n', 't', '='] + nt + seq![
                ' ', 'd', 'e', 'v', 'i', 'c', 'e', '=',
            ] + device + seq![' ', 'b', 'u', 's', '='] + bus
        }),
{
    reveal_strlit("volume ");
    reveal_strlit(" type=");
    reveal_strlit(" nt=");
    reveal_strlit(" device=");
    reveal_strlit(" bus=");
    reveal_strlit("Some(");
    reveal_strlit(")");
    reveal_strlit("None");
    assert("volume "@ =~= seq!['v', 'o', 'l', 'u', 'm', 'e', ' ']);
    assert(" type="@ =~= seq![' ', 't', 'y', 'p', 'e', '=']);
    assert(" nt="@ =~= seq![' ', 'n', 't', '=']);
    assert(" device="@ =~= seq![' ', 'd', 'e', 'v', 'i', 'c', 'e', '=']);
    assert(" bus="@ =~= seq![' ', 'b', 'u', 's', '=']);
    assert("Some("@ =~= seq!['S', 'o', 'm', 'e', '(']);
    assert(")"@ =~= seq![')']);
    assert("None"@ =~= seq!['N', 'o', 'n', 'e']);
    if let Some(number) = volume.device_number {
        device_is_told(number);
    }
}

/// A value, in `Some()` where it is there, and `None` where it is not.
pub open spec fn told_option(value: Option<Seq<char>>) -> Seq<char> {
    match value {
        Some(text) => seq!['S', 'o', 'm', 'e', '('] + text + seq![')'],
        None => seq!['N', 'o', 'n', 'e'],
    }
}

/// A partition with its three numbers, in the words that they have for zeros.
pub open spec fn told_device(number: StorageDeviceNumber) -> Seq<char> {
    let zeros = device_text(
        StorageDeviceNumber { device_type: 0, device_number: 0, partition_number: 0 },
    );
    zeros.take(36) + number::decimal(number.device_type as nat) + zeros.subrange(37, 53)
        + number::decimal(number.device_number as nat) + zeros.subrange(54, 73) + number::decimal(
        number.partition_number as nat,
    ) + zeros.skip(74)
}

/// A partition is told with its three numbers in their places.
proof fn device_is_told(number: StorageDeviceNumber)
    ensures
        device_text(number) == told_device(number),
{
    reveal_strlit("STORAGE_DEVICE_NUMBER { DeviceType: ");
    reveal_strlit(", DeviceNumber: ");
    reveal_strlit(", PartitionNumber: ");
    reveal_strlit(" }");
    let zeros = device_text(
        StorageDeviceNumber { device_type: 0, device_number: 0, partition_number: 0 },
    );
    assert(number::decimal(0).len() == 1);
    assert(zeros.take(36) =~= "STORAGE_DEVICE_NUMBER { DeviceType: "@);
    assert(zeros.subrange(37, 53) =~= ", DeviceNumber: "@);
    assert(zeros.subrange(54, 73) =~= ", PartitionNumber: "@);
    assert(zeros.skip(74) =~= " }"@);
}

} // verus!
