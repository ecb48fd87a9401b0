//! The search for a marker on all volumes.

use vstd::prelude::*;

use crate::device;
use crate::device::StorageDeviceNumber;
use crate::note;
use crate::note::{Note, NoteFacts};
use crate::plan;
use crate::plan::{Candidate, CandidateFacts, Priorities};
use crate::request::{Answer, Question, Reply, Request};
use crate::scan;
use crate::scan::{ScanFacts, VolumeScan};
use crate::text;
use crate::ventoy::{ParamFacts, VentoyOsParam};
use crate::ventoy_search::{
    DataVolumeSearch, DataVolumeSearchFacts, ParamSearch, ParamSearchFacts,
};
use crate::volume;
use crate::volume::{Volume, VolumeFacts};

verus! {

/// Why a search cannot be carried out.
#[derive(Debug)]
pub enum SearchError {
    /// The system does not give what the search needs: this is what it says.
    System(String),
}

/// What a finished search says: the path of the marker where it was found, or
/// what the error says.
pub open spec fn result_facts(result: Result<Option<String>, SearchError>) -> Result<
    Option<Seq<char>>,
    Seq<char>,
> {
    match result {
        Ok(path) => Ok(text::optional(path)),
        Err(SearchError::System(error)) => Err(error@),
    }
}

/// What the search says where no drive letter is in use.
pub open spec fn no_drives() -> Seq<char> {
    "GetLogicalDrives returned no drives"@
}

/// What is known of the boot.
#[derive(Debug)]
struct Boot {
    /// The NT path of the booted partition.
    nt_path: Option<String>,
    /// The disk that was booted from.
    disk: Option<u32>,
}

/// What is known of the boot.
pub struct BootFacts {
    /// The NT path of the booted partition.
    pub nt_path: Option<Seq<char>>,
    /// The disk that was booted from.
    pub disk: Option<u32>,
}

impl View for Boot {
    type V = BootFacts;

    closed spec fn view(&self) -> BootFacts {
        BootFacts { nt_path: text::optional(self.nt_path), disk: self.disk }
    }
}

/// How far a search has come.
#[derive(Debug)]
enum Stage {
    BootDevice,
    ArcLink(String),
    Drives(Option<String>),
    Volumes(Option<String>, VolumeScan),
    BootDisk(String, Vec<Volume>),
    VentoyParam(Boot, Vec<Volume>, ParamSearch),
    VentoyVolume(Boot, Vec<Volume>, VentoyOsParam, DataVolumeSearch),
    Candidates(Candidate, Vec<Candidate>),
    Done(Result<Option<String>, SearchError>),
}

/// How far a search has come.
pub enum StageFacts {
    /// The firmware boot device has to be read.
    BootDevice,
    /// The link with this object name has to be resolved.
    ArcLink(Seq<char>),
    /// The drive letters in use have to be read. The NT path of the booted
    /// partition is known or given up.
    Drives(Option<Seq<char>>),
    /// The volumes have to be found.
    Volumes(Option<Seq<char>>, ScanFacts),
    /// The volumes are known. Neither they nor the NT path of the booted
    /// partition tell its disk: the system has to be asked for it.
    BootDisk(Seq<char>, Seq<VolumeFacts>),
    /// The volumes and the boot are known. The runtime parameter of Ventoy has
    /// to be found.
    VentoyParam(BootFacts, Seq<VolumeFacts>, ParamSearchFacts),
    /// The parameter is known. The data volume that it names has to be found.
    VentoyVolume(BootFacts, Seq<VolumeFacts>, ParamFacts, DataVolumeSearchFacts),
    /// This path has to be looked for, and those behind it if it is not there.
    Candidates(CandidateFacts, Seq<CandidateFacts>),
    /// The search is over.
    Done(Result<Option<Seq<char>>, Seq<char>>),
}

impl View for Stage {
    type V = StageFacts;

    closed spec fn view(&self) -> StageFacts {
        match *self {
            Stage::BootDevice => StageFacts::BootDevice,
            Stage::ArcLink(name) => StageFacts::ArcLink(name@),
            Stage::Drives(boot) => StageFacts::Drives(text::optional(boot)),
            Stage::Volumes(boot, scan) => StageFacts::Volumes(text::optional(boot), scan@),
            Stage::BootDisk(path, volumes) => StageFacts::BootDisk(
                path@,
                volume::facts(volumes@),
            ),
            Stage::VentoyParam(boot, volumes, search) => StageFacts::VentoyParam(
                boot@,
                volume::facts(volumes@),
                search@,
            ),
            Stage::VentoyVolume(boot, volumes, param, search) => StageFacts::VentoyVolume(
                boot@,
                volume::facts(volumes@),
                param@,
                search@,
            ),
            Stage::Candidates(candidate, rest) => StageFacts::Candidates(
                candidate@,
                plan::candidate_facts(rest@),
            ),
            Stage::Done(result) => StageFacts::Done(result_facts(result)),
        }
    }
}

/// A stage and what is told on the way to it.
pub struct Turn {
    pub stage: StageFacts,
    pub notes: Seq<NoteFacts>,
}

/// The priorities that follow from the boot and the root of the Ventoy data
/// volume.
pub open spec fn priorities(boot: BootFacts, ventoy_root: Option<Seq<char>>) -> Priorities {
    Priorities { boot_nt_path: boot.nt_path, boot_disk: boot.disk, ventoy_root }
}

/// Going on with the paths to look for.
pub open spec fn enter_list(list: Seq<CandidateFacts>, notes: Seq<NoteFacts>) -> Turn {
    if list.len() == 0 {
        Turn { stage: StageFacts::Done(Ok(None)), notes }
    } else {
        Turn {
            stage: StageFacts::Candidates(list[0], list.drop_first()),
            notes: notes.push(NoteFacts::Checking(list[0])),
        }
    }
}

/// Going on with the paths to look for, now that all is known that decides
/// their order.
pub open spec fn enter_candidates(
    boot: BootFacts,
    volumes: Seq<VolumeFacts>,
    ventoy_root: Option<Seq<char>>,
    relative: Seq<char>,
    notes: Seq<NoteFacts>,
) -> Turn {
    enter_list(plan::candidates_of(volumes, priorities(boot, ventoy_root), relative), notes)
}

/// Going on with the search for the Ventoy data volume.
pub open spec fn enter_data_search(
    boot: BootFacts,
    volumes: Seq<VolumeFacts>,
    param: ParamFacts,
    search: DataVolumeSearchFacts,
    relative: Seq<char>,
    notes: Seq<NoteFacts>,
) -> Turn {
    match search {
        DataVolumeSearchFacts::Done(root) => enter_candidates(
            boot,
            volumes,
            root,
            relative,
            notes.push(
                match root {
                    Some(root) => NoteFacts::VentoyVolumeFound(root, param.image_path),
                    None => NoteFacts::VentoyVolumeMissing(param.image_path),
                },
            ),
        ),
        _ => Turn { stage: StageFacts::VentoyVolume(boot, volumes, param, search), notes },
    }
}

/// Going on with the search for the runtime parameter of Ventoy.
pub open spec fn enter_param_search(
    boot: BootFacts,
    volumes: Seq<VolumeFacts>,
    search: ParamSearchFacts,
    relative: Seq<char>,
    notes: Seq<NoteFacts>,
) -> Turn {
    match search {
        ParamSearchFacts::Done(Some(param)) => enter_data_search(
            boot,
            volumes,
            param,
            DataVolumeSearchFacts::at(volumes, param, 0),
            relative,
            notes,
        ),
        ParamSearchFacts::Done(None) => enter_candidates(
            boot,
            volumes,
            None,
            relative,
            notes.push(NoteFacts::VentoyNotFound),
        ),
        _ => Turn { stage: StageFacts::VentoyParam(boot, volumes, search), notes },
    }
}

/// Going on with the boot and the volumes known.
pub open spec fn enter_ventoy(
    boot_nt_path: Option<Seq<char>>,
    volumes: Seq<VolumeFacts>,
    reported: Option<StorageDeviceNumber>,
    notes: Seq<NoteFacts>,
) -> Turn {
    Turn {
        stage: StageFacts::VentoyParam(
            BootFacts {
                nt_path: boot_nt_path,
                disk: volume::boot_disk_of(volumes, boot_nt_path, reported),
            },
            volumes,
            ParamSearchFacts::Privilege,
        ),
        notes,
    }
}

/// Going on with the volumes known. The system is asked for the boot disk where
/// neither the volumes nor the NT path of the booted partition tell it.
pub open spec fn enter_boot_disk(
    boot_nt_path: Option<Seq<char>>,
    volumes: Seq<VolumeFacts>,
    notes: Seq<NoteFacts>,
) -> Turn {
    match boot_nt_path {
        Some(path) if volume::told_boot_disk(volumes, path) is None => Turn {
            stage: StageFacts::BootDisk(path, volumes),
            notes,
        },
        _ => enter_ventoy(boot_nt_path, volumes, None, notes),
    }
}

/// Going on with the search for volumes. Where all have been found and the boot
/// partition is none of them, that is told.
pub open spec fn enter_scan(
    boot: Option<Seq<char>>,
    scan: ScanFacts,
    notes: Seq<NoteFacts>,
) -> Turn {
    if scan.is_done() {
        enter_boot_disk(
            boot,
            scan.volumes,
            if boot is Some && volume::boot_volume_of(scan.volumes, boot) is None {
                notes.push(NoteFacts::BootPartitionUnmounted(boot->0))
            } else {
                notes
            },
        )
    } else {
        Turn { stage: StageFacts::Volumes(boot, scan), notes }
    }
}

/// What is told where a scan goes from `before` to `after`.
pub open spec fn scan_notes(before: ScanFacts, after: ScanFacts) -> Seq<NoteFacts> {
    if after.volumes.len() > before.volumes.len() {
        seq![NoteFacts::VolumeFound(after.volumes.last())]
    } else {
        Seq::empty()
    }
}

/// What is told where the search for the runtime parameter takes an answer.
pub open spec fn param_notes(
    before: ParamSearchFacts,
    answer: Answer,
    after: ParamSearchFacts,
) -> Seq<NoteFacts> {
    match (before, answer, after) {
        (
            ParamSearchFacts::Privilege,
            Answer::SystemEnvironmentPrivilege(Err(error)),
            _,
        ) => seq![NoteFacts::PrivilegeUnavailable(error)],
        (ParamSearchFacts::Variable, _, ParamSearchFacts::Done(Some(_))) => {
            seq![NoteFacts::VentoyFromVariable]
        },
        (ParamSearchFacts::Table(table, _), _, ParamSearchFacts::Done(Some(_))) => {
            seq![NoteFacts::VentoyFromTable(table)]
        },
        _ => Seq::empty(),
    }
}

impl StageFacts {
    /// Whether a part of the search that is over has been left behind.
    pub open spec fn is_proper(self) -> bool {
        match self {
            StageFacts::Volumes(_, scan) => !scan.is_done(),
            StageFacts::VentoyParam(_, _, search) => search.question() is Some,
            StageFacts::VentoyVolume(_, _, _, search) => search.question() is Some,
            _ => true,
        }
    }

    /// What has to be known next.
    pub open spec fn question(self) -> Option<Question> {
        match self {
            StageFacts::BootDevice => Some(Question::FirmwareBootDevice),
            StageFacts::ArcLink(name) => Some(Question::ArcLink(name)),
            StageFacts::Drives(_) => Some(Question::LogicalDrives),
            StageFacts::Volumes(_, scan) => scan.question(),
            StageFacts::BootDisk(path, _) => Some(
                Question::DeviceNumber(device::global_path(path)),
            ),
            StageFacts::VentoyParam(_, _, search) => search.question(),
            StageFacts::VentoyVolume(_, _, _, search) => search.question(),
            StageFacts::Candidates(candidate, _) => Some(Question::PathExists(candidate.path)),
            StageFacts::Done(_) => None,
        }
    }

    /// The stage without anything told.
    pub open spec fn quietly(self) -> Turn {
        Turn { stage: self, notes: Seq::empty() }
    }

    /// What follows from an answer. An answer to another question changes
    /// nothing.
    pub open spec fn turn(self, relative: Seq<char>, answer: Answer) -> Turn {
        match self {
            StageFacts::BootDevice => match answer {
                Answer::FirmwareBootDevice(Ok(device)) => StageFacts::ArcLink(
                    device::arc_link_name(device),
                ).quietly(),
                Answer::FirmwareBootDevice(Err(error)) => Turn {
                    stage: StageFacts::Drives(None),
                    notes: seq![NoteFacts::BootDeviceUnreadable(error)],
                },
                _ => self.quietly(),
            },
            StageFacts::ArcLink(_) => match answer {
                Answer::ArcLink(Ok(path)) => StageFacts::Drives(Some(path)).quietly(),
                Answer::ArcLink(Err(status)) => Turn {
                    stage: StageFacts::Drives(None),
                    notes: seq![NoteFacts::ArcLinkUnavailable(status)],
                },
                _ => self.quietly(),
            },
            StageFacts::Drives(boot) => match answer {
                Answer::LogicalDrives(mask) => {
                    if mask == 0 {
                        StageFacts::Done(Err(no_drives())).quietly()
                    } else {
                        enter_scan(boot, ScanFacts::start(mask), Seq::empty())
                    }
                },
                _ => self.quietly(),
            },
            StageFacts::Volumes(boot, scan) => enter_scan(
                boot,
                scan.step(answer),
                scan_notes(scan, scan.step(answer)),
            ),
            StageFacts::BootDisk(path, volumes) => match answer {
                Answer::DeviceNumber(number) => enter_ventoy(
                    Some(path),
                    volumes,
                    number,
                    Seq::empty(),
                ),
                _ => self.quietly(),
            },
            StageFacts::VentoyParam(boot, volumes, search) => enter_param_search(
                boot,
                volumes,
                search.step(answer),
                relative,
                param_notes(search, answer, search.step(answer)),
            ),
            StageFacts::VentoyVolume(boot, volumes, param, search) => enter_data_search(
                boot,
                volumes,
                param,
                search.step(volumes, param, answer),
                relative,
                Seq::empty(),
            ),
            StageFacts::Candidates(candidate, rest) => match answer {
                Answer::PathExists(true) => StageFacts::Done(Ok(Some(candidate.path))).quietly(),
                Answer::PathExists(false) => enter_list(rest, Seq::empty()),
                _ => self.quietly(),
            },
            StageFacts::Done(_) => self.quietly(),
        }
    }
}

/// A search for a marker: the path below the volume roots to look for, whether
/// the search tells what it does, and how far it has come.
#[derive(Debug)]
pub struct MarkerSearch {
    relative_path: String,
    verbose: bool,
    stage: Stage,
}

/// What a search needs done.
#[derive(Debug)]
pub enum Action {
    /// The system has to be asked this.
    Ask(Request),
    /// The search is over, with this result.
    Finish(Result<Option<String>, SearchError>),
}

impl MarkerSearch {
    /// The path to look for below the volume roots.
    pub closed spec fn relative(self) -> Seq<char> {
        self.relative_path@
    }

    /// Whether the search tells what it does.
    pub closed spec fn is_verbose(self) -> bool {
        self.verbose
    }

    /// How far the search has come.
    pub closed spec fn stage(self) -> StageFacts {
        self.stage@
    }

    #[verifier::type_invariant]
    spec fn is_proper(self) -> bool {
        self.stage@.is_proper()
    }

    /// Starts a search.
    pub fn new(relative_path: &str, verbose: bool) -> (r: MarkerSearch)
        ensures
            r.relative() == relative_path@,
            r.is_verbose() == verbose,
            r.stage() == StageFacts::BootDevice,
    {
        MarkerSearch { relative_path: relative_path.to_owned(), verbose, stage: Stage::BootDevice }
    }

    /// What the search needs done next.
    pub fn action(&self) -> (r: Action)
        ensures
            match r {
                Action::Ask(request) => self.stage().question() == Some(request@),
                Action::Finish(result) => self.stage() == StageFacts::Done(result_facts(result)),
            },
            r is Finish <==> self.stage() is Done,
    {
        proof {
            use_type_invariant(self);
        }
        let request = match &self.stage {
            Stage::BootDevice => Some(Request::FirmwareBootDevice),
            Stage::ArcLink(name) => Some(Request::ArcLink(name.clone())),
            Stage::Drives(_) => Some(Request::LogicalDrives),
            Stage::Volumes(_, scan) => scan.request(),
            Stage::BootDisk(path, _) => Some(
                Request::DeviceNumber(device::global_device_path(path)),
            ),
            Stage::VentoyParam(_, _, search) => search.request(),
            Stage::VentoyVolume(_, _, _, search) => search.request(),
            Stage::Candidates(candidate, _) => Some(Request::PathExists(candidate.path.clone())),
            Stage::Done(_) => None,
        };
        match (request, &self.stage) {
            (Some(request), _) => Action::Ask(request),
            (None, Stage::Done(Ok(Some(path)))) => Action::Finish(Ok(Some(path.clone()))),
            (None, Stage::Done(Err(SearchError::System(error)))) => {
                Action::Finish(Err(SearchError::System(error.clone())))
            },
            (None, _) => Action::Finish(Ok(None)),
        }
    }

    /// Takes the answer of the system, and says what is to be told of it: nothing
    /// in a search that is not verbose.
    pub fn answer(self, reply: Reply) -> (r: (MarkerSearch, Vec<Note>))
        ensures
            r.0.relative() == self.relative(),
            r.0.is_verbose() == self.is_verbose(),
            r.0.stage() == self.stage().turn(self.relative(), reply@).stage,
            note::note_facts(r.1@) == if self.is_verbose() {
                self.stage().turn(self.relative(), reply@).notes
            } else {
                Seq::empty()
            },
    {
        proof {
            use_type_invariant(&self);
        }
        let MarkerSearch { relative_path, verbose, stage } = self;
        let (stage, notes) = take_turn(stage, &relative_path, reply);
        let notes = if verbose {
            notes
        } else {
            note::no_notes()
        };
        (MarkerSearch { relative_path, verbose, stage }, notes)
    }
}

/// A slice of an optional text.
fn as_text(text: &Option<String>) -> (r: Option<&str>)
    ensures
        text::optional_str(r) == text::optional(*text),
{
    match text {
        Some(text) => Some(text.as_str()),
        None => None,
    }
}

/// Goes on with the paths to look for.
fn go_to_list(list: Vec<Candidate>, notes: Vec<Note>) -> (r: (Stage, Vec<Note>))
    ensures
        r.0@ == enter_list(plan::candidate_facts(list@), note::note_facts(notes@)).stage,
        note::note_facts(r.1@) == enter_list(
            plan::candidate_facts(list@),
            note::note_facts(notes@),
        ).notes,
{
    if list.len() == 0 {
        (Stage::Done(Ok(None)), notes)
    } else {
        let ghost before = list@;
        let mut list = list;
        let candidate = list.remove(0);
        assert(plan::candidate_facts(before)[0] == candidate@);
        assert(plan::candidate_facts(list@) =~= plan::candidate_facts(before).drop_first());
        let notes = note::noted(notes, Note::Checking(candidate.copied()));
        (Stage::Candidates(candidate, list), notes)
    }
}

/// Goes on with the paths to look for, now that all is known that decides
/// their order.
fn go_to_candidates(
    boot: Boot,
    volumes: Vec<Volume>,
    ventoy_root: Option<String>,
    relative: &str,
    notes: Vec<Note>,
) -> (r: (Stage, Vec<Note>))
    ensures
        ({
            let turn = enter_candidates(
                boot@,
                volume::facts(volumes@),
                text::optional(ventoy_root),
                relative@,
                note::note_facts(notes@),
            );
            r.0@ == turn.stage && note::note_facts(r.1@) == turn.notes
        }),
{
    let list = plan::candidates(
        &volumes,
        as_text(&boot.nt_path),
        boot.disk,
        as_text(&ventoy_root),
        relative,
    );
    go_to_list(list, notes)
}

/// Goes on with the search for the Ventoy data volume.
fn go_to_data_search(
    boot: Boot,
    volumes: Vec<Volume>,
    param: VentoyOsParam,
    search: DataVolumeSearch,
    relative: &str,
    notes: Vec<Note>,
) -> (r: (Stage, Vec<Note>))
    ensures
        ({
            let turn = enter_data_search(
                boot@,
                volume::facts(volumes@),
                param@,
                search@,
                relative@,
                note::note_facts(notes@),
            );
            r.0@ == turn.stage && note::note_facts(r.1@) == turn.notes
        }),
{
    match search {
        DataVolumeSearch::Done(root) => {
            let told = match &root {
                Some(root) => Note::VentoyVolumeFound(root.clone(), param.image_path),
                None => Note::VentoyVolumeMissing(param.image_path),
            };
            go_to_candidates(boot, volumes, root, relative, note::noted(notes, told))
        },
        search => (Stage::VentoyVolume(boot, volumes, param, search), notes),
    }
}

/// Goes on with the search for the runtime parameter of Ventoy.
fn go_to_param_search(
    boot: Boot,
    volumes: Vec<Volume>,
    search: ParamSearch,
    relative: &str,
    notes: Vec<Note>,
) -> (r: (Stage, Vec<Note>))
    ensures
        ({
            let turn = enter_param_search(
                boot@,
                volume::facts(volumes@),
                search@,
                relative@,
                note::note_facts(notes@),
            );
            r.0@ == turn.stage && note::note_facts(r.1@) == turn.notes
        }),
{
    match search {
        ParamSearch::Done(Some(param)) => {
            let search = DataVolumeSearch::new(&volumes, &param);
            go_to_data_search(boot, volumes, param, search, relative, notes)
        },
        ParamSearch::Done(None) => {
            go_to_candidates(
                boot,
                volumes,
                None,
                relative,
                note::noted(notes, Note::VentoyNotFound),
            )
        },
        search => (Stage::VentoyParam(boot, volumes, search), notes),
    }
}

/// Goes on with the boot and the volumes known.
fn go_to_ventoy(
    boot_nt_path: Option<String>,
    volumes: Vec<Volume>,
    reported: Option<StorageDeviceNumber>,
    notes: Vec<Note>,
) -> (r: (Stage, Vec<Note>))
    ensures
        ({
            let turn = enter_ventoy(
                text::optional(boot_nt_path),
                volume::facts(volumes@),
                reported,
                note::note_facts(notes@),
            );
            r.0@ == turn.stage && note::note_facts(r.1@) == turn.notes
        }),
{
    let disk = volume::boot_disk(&volumes, as_text(&boot_nt_path), reported);
    let boot = Boot { nt_path: boot_nt_path, disk };
    (Stage::VentoyParam(boot, volumes, ParamSearch::Privilege), notes)
}

/// Goes on with the volumes known.
fn go_to_boot_disk(boot_nt_path: Option<String>, volumes: Vec<Volume>, notes: Vec<Note>) -> (r: (
    Stage,
    Vec<Note>,
))
    ensures
        ({
            let turn = enter_boot_disk(
                text::optional(boot_nt_path),
                volume::facts(volumes@),
                note::note_facts(notes@),
            );
            r.0@ == turn.stage && note::note_facts(r.1@) == turn.notes
        }),
{
    match boot_nt_path {
        None => go_to_ventoy(None, volumes, None, notes),
        Some(path) => {
            if volume::find_boot_disk(&volumes, &path).is_some() {
                go_to_ventoy(Some(path), volumes, None, notes)
            } else {
                (Stage::BootDisk(path, volumes), notes)
            }
        },
    }
}

/// Goes on with the search for volumes.
fn go_to_scan(boot: Option<String>, scan: VolumeScan, notes: Vec<Note>) -> (r: (Stage, Vec<Note>))
    ensures
        ({
            let turn = enter_scan(text::optional(boot), scan@, note::note_facts(notes@));
            r.0@ == turn.stage && note::note_facts(r.1@) == turn.notes
        }),
{
    if scan.index < scan::DRIVE_LETTERS {
        return (Stage::Volumes(boot, scan), notes);
    }
    let volumes = scan.volumes;
    let notes = match &boot {
        Some(path) => match volume::boot_volume(&volumes, path) {
            Some(_) => notes,
            None => note::noted(notes, Note::BootPartitionUnmounted(path.clone())),
        },
        None => notes,
    };
    go_to_boot_disk(boot, volumes, notes)
}

/// Takes the answer to what a scan asked for.
fn turn_of_scan(boot: Option<String>, scan: VolumeScan, reply: Reply) -> (r: (Stage, Vec<Note>))
    ensures
        ({
            let after = scan@.step(reply@);
            let turn = enter_scan(text::optional(boot), after, scan_notes(scan@, after));
            r.0@ == turn.stage && note::note_facts(r.1@) == turn.notes
        }),
{
    let known: usize = scan.volumes.len();
    let ghost before = scan@;
    let scan = scan.answer(reply);
    assert(before.volumes.len() == known);
    assert(scan@.volumes.len() == scan.volumes@.len());
    let notes = note::no_notes();
    let notes = if scan.volumes.len() > known {
        let last: usize = scan.volumes.len() - 1;
        assert(scan@.volumes.last() == scan.volumes@[last as int]@);
        note::noted(notes, Note::VolumeFound(scan.volumes[last].copied()))
    } else {
        notes
    };
    assert(note::note_facts(notes@) =~= scan_notes(before, scan@));
    go_to_scan(boot, scan, notes)
}

/// Takes the answer to what the search for the runtime parameter asked for.
fn turn_of_param_search(
    boot: Boot,
    volumes: Vec<Volume>,
    search: ParamSearch,
    relative: &str,
    reply: Reply,
) -> (r: (Stage, Vec<Note>))
    ensures
        ({
            let after = search@.step(reply@);
            let turn = enter_param_search(
                boot@,
                volume::facts(volumes@),
                after,
                relative@,
                param_notes(search@, reply@, after),
            );
            r.0@ == turn.stage && note::note_facts(r.1@) == turn.notes
        }),
{
    let ghost before = search@;
    let ghost answer = reply@;
    let refused = match (&search, &reply) {
        (ParamSearch::Privilege, Reply::SystemEnvironmentPrivilege(Err(error))) => Some(
            Note::PrivilegeUnavailable(error.clone()),
        ),
        _ => None,
    };
    let source = match &search {
        ParamSearch::Variable => Some(Note::VentoyFromVariable),
        ParamSearch::Table(table, _) => Some(Note::VentoyFromTable(*table)),
        _ => None,
    };
    let search = search.answer(reply);
    let notes = note::no_notes();
    let notes = match (refused, source, &search) {
        (Some(refused), _, _) => note::noted(notes, refused),
        (None, Some(source), ParamSearch::Done(Some(_))) => note::noted(notes, source),
        _ => notes,
    };
    assert(note::note_facts(notes@) =~= param_notes(before, answer, search@));
    go_to_param_search(boot, volumes, search, relative, notes)
}

/// Takes an answer.
fn take_turn(stage: Stage, relative: &str, reply: Reply) -> (r: (Stage, Vec<Note>))
    ensures
        r.0@ == stage@.turn(relative@, reply@).stage,
        note::note_facts(r.1@) == stage@.turn(relative@, reply@).notes,
        stage@.is_proper() ==> r.0@.is_proper(),
{
    let notes = note::no_notes();
    match stage {
        Stage::BootDevice => match reply {
            Reply::FirmwareBootDevice(Ok(name)) => (
                Stage::ArcLink(device::arc_object_name(&name)),
                notes,
            ),
            Reply::FirmwareBootDevice(Err(error)) => {
                let notes = note::noted(notes, Note::BootDeviceUnreadable(error));
                (Stage::Drives(None), notes)
            },
            _ => (Stage::BootDevice, notes),
        },
        Stage::ArcLink(name) => match reply {
            Reply::ArcLink(Ok(path)) => (Stage::Drives(Some(path)), notes),
            Reply::ArcLink(Err(status)) => {
                let notes = note::noted(notes, Note::ArcLinkUnavailable(status));
                (Stage::Drives(None), notes)
            },
            _ => (Stage::ArcLink(name), notes),
        },
        Stage::Drives(boot) => match reply {
            Reply::LogicalDrives(mask) => {
                if mask == 0 {
                    let error = "GetLogicalDrives returned no drives".to_owned();
                    (Stage::Done(Err(SearchError::System(error))), notes)
                } else {
                    go_to_scan(boot, VolumeScan::new(mask), notes)
                }
            },
            _ => (Stage::Drives(boot), notes),
        },
        Stage::Volumes(boot, scan) => turn_of_scan(boot, scan, reply),
        Stage::BootDisk(path, volumes) => match reply {
            Reply::DeviceNumber(number) => go_to_ventoy(Some(path), volumes, number, notes),
            _ => (Stage::BootDisk(path, volumes), notes),
        },
        Stage::VentoyParam(boot, volumes, search) => {
            turn_of_param_search(boot, volumes, search, relative, reply)
        },
        Stage::VentoyVolume(boot, volumes, param, search) => {
            let search = search.answer(&volumes, &param, reply);
            go_to_data_search(boot, volumes, param, search, relative, notes)
        },
        Stage::Candidates(candidate, rest) => match reply {
            Reply::PathExists(true) => (Stage::Done(Ok(Some(candidate.path))), notes),
            Reply::PathExists(false) => go_to_list(rest, notes),
            _ => (Stage::Candidates(candidate, rest), notes),
        },
        Stage::Done(result) => (Stage::Done(result), notes),
    }
}

/// What a finished search says is what its result holds.
pub proof fn results_say_what_they_hold(found: String)
    ensures
        result_facts(Ok(Some(found))) == Ok::<Option<Seq<char>>, Seq<char>>(Some(found@)),
        result_facts(Ok(None)) == Ok::<Option<Seq<char>>, Seq<char>>(None),
        result_facts(Err(SearchError::System(found))) == Err::<Option<Seq<char>>, Seq<char>>(
            found@,
        ),
{
}

} // verus!
