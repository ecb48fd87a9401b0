//! What a search finds on a computer.

use vstd::prelude::*;

use crate::device;
use crate::device::StorageDeviceNumber;
use crate::note::NoteFacts;
use crate::path;
use crate::plan;
use crate::plan::{CandidateFacts, Place, Priorities};
use crate::request::{Answer, Computer, TableName};
use crate::scan;
use crate::scan::ScanFacts;
use crate::search;
use crate::search::{BootFacts, StageFacts};
use crate::text;
use crate::ventoy::ParamFacts;
use crate::ventoy_search;
use crate::ventoy_search::{DataVolumeSearchFacts, ParamSearchFacts};
use crate::volume;
use crate::volume::{SearchGroup, VolumeFacts};

verus! {

/// The NT path of the partition that a computer booted from, where the
/// firmware names it and its link can be resolved.
pub open spec fn boot_nt_path_of(computer: Computer) -> Option<Seq<char>> {
    match computer.firmware_boot_device {
        Ok(name) => match (computer.arc_link)(device::arc_link_name(name)) {
            Ok(path) => Some(path),
            Err(_) => None,
        },
        Err(_) => None,
    }
}

/// The partition that a computer reports behind the NT path of the one that it
/// booted from.
pub open spec fn reported_boot_partition(computer: Computer) -> Option<StorageDeviceNumber> {
    match boot_nt_path_of(computer) {
        Some(path) => (computer.device_number)(device::global_path(path)),
        None => None,
    }
}

/// What is to be known of the boot of a computer.
pub open spec fn boot_of(computer: Computer) -> BootFacts {
    BootFacts {
        nt_path: boot_nt_path_of(computer),
        disk: volume::boot_disk_of(
            scan::volumes_of(computer),
            boot_nt_path_of(computer),
            reported_boot_partition(computer),
        ),
    }
}

/// What the groups of the volumes of a computer depend on.
pub open spec fn priorities_of(computer: Computer) -> Priorities {
    search::priorities(
        boot_of(computer),
        ventoy_search::ventoy_root_of(computer, scan::volumes_of(computer)),
    )
}

/// The places of the volumes of a computer in the search.
pub open spec fn places_in(computer: Computer) -> Seq<Place> {
    plan::places_of(scan::volumes_of(computer), priorities_of(computer))
}

/// The path of the marker on volume `i` of a computer.
pub open spec fn marker_path(computer: Computer, relative: Seq<char>, i: int) -> Seq<char> {
    path::entry_path(scan::volumes_of(computer)[i].root, relative)
}

/// Whether volume `i` of a computer has the marker.
pub open spec fn has_marker(computer: Computer, relative: Seq<char>, i: int) -> bool {
    (computer.path_exists)(marker_path(computer, relative, i))
}

/// Whether volume `i` has the marker while no volume that is searched before
/// it does.
pub open spec fn is_first_with_marker(computer: Computer, relative: Seq<char>, i: int) -> bool {
    &&& 0 <= i < scan::volumes_of(computer).len()
    &&& has_marker(computer, relative, i)
    &&& forall|j: int|
        0 <= j < scan::volumes_of(computer).len() && plan::comes_first(places_in(computer), j, i)
            ==> !#[trigger] has_marker(computer, relative, j)
}

/// Whether a result is what a search for `relative` is to say of a computer: an
/// error where no drive letter is in use; else the path of the marker on the
/// first volume, in the order of the search, that has it; else nothing.
pub open spec fn is_outcome(
    computer: Computer,
    relative: Seq<char>,
    result: Result<Option<Seq<char>>, Seq<char>>,
) -> bool {
    match result {
        Err(error) => computer.logical_drives == 0 && error == search::no_drives(),
        Ok(Some(found)) => {
            &&& computer.logical_drives != 0
            &&& exists|i: int|
                #[trigger] is_first_with_marker(computer, relative, i) && found == marker_path(
                    computer,
                    relative,
                    i,
                )
        },
        Ok(None) => {
            &&& computer.logical_drives != 0
            &&& forall|i: int|
                0 <= i < scan::volumes_of(computer).len() ==> !#[trigger] has_marker(
                    computer,
                    relative,
                    i,
                )
        },
    }
}

/// The paths to look for on a computer, in the order of the search.
pub open spec fn candidates_on(computer: Computer, relative: Seq<char>) -> Seq<CandidateFacts> {
    plan::candidates_of(scan::volumes_of(computer), priorities_of(computer), relative)
}

/// Whether `list` is what is left of the paths to look for behind the first
/// `k`, none of which is there.
pub open spec fn is_rest(
    computer: Computer,
    relative: Seq<char>,
    list: Seq<CandidateFacts>,
    k: int,
) -> bool {
    &&& 0 <= k <= candidates_on(computer, relative).len()
    &&& list == candidates_on(computer, relative).skip(k)
    &&& forall|a: int|
        0 <= a < k ==> !(computer.path_exists)(
            (#[trigger] candidates_on(computer, relative)[a]).path,
        )
}

/// Whether `list` is what is left of the paths to look for.
pub open spec fn is_left(
    computer: Computer,
    relative: Seq<char>,
    list: Seq<CandidateFacts>,
) -> bool {
    exists|k: int| is_rest(computer, relative, list, k)
}

/// Whether what a search has found out is what `computer` answers.
pub open spec fn agrees(stage: StageFacts, computer: Computer, relative: Seq<char>) -> bool {
    &&& stage.is_proper()
    &&& match stage {
        StageFacts::BootDevice => true,
        StageFacts::ArcLink(name) => {
            &&& computer.firmware_boot_device is Ok
            &&& name == device::arc_link_name(computer.firmware_boot_device->Ok_0)
        },
        StageFacts::Drives(boot) => boot == boot_nt_path_of(computer),
        StageFacts::Volumes(boot, scan) => {
            &&& boot == boot_nt_path_of(computer)
            &&& computer.logical_drives != 0
            &&& scan.agrees_with(computer)
        },
        StageFacts::BootDisk(path, volumes) => {
            &&& boot_nt_path_of(computer) == Some(path)
            &&& computer.logical_drives != 0
            &&& volumes == scan::volumes_of(computer)
        },
        StageFacts::VentoyParam(boot, volumes, search) => {
            &&& boot == boot_of(computer)
            &&& computer.logical_drives != 0
            &&& volumes == scan::volumes_of(computer)
            &&& search.agrees_with(computer)
        },
        StageFacts::VentoyVolume(boot, volumes, param, search) => {
            &&& boot == boot_of(computer)
            &&& computer.logical_drives != 0
            &&& volumes == scan::volumes_of(computer)
            &&& ventoy_search::param_of(computer) == Some(param)
            &&& search.agrees_with(computer, volumes, param)
        },
        StageFacts::Candidates(candidate, rest) => {
            &&& computer.logical_drives != 0
            &&& is_left(computer, relative, seq![candidate] + rest)
        },
        StageFacts::Done(result) => is_outcome(computer, relative, result),
    }
}

/// How many parts of the search are still to come.
pub open spec fn parts_left(stage: StageFacts) -> int {
    match stage {
        StageFacts::BootDevice => 8,
        StageFacts::ArcLink(_) => 7,
        StageFacts::Drives(_) => 6,
        StageFacts::Volumes(_, _) => 5,
        StageFacts::BootDisk(_, _) => 4,
        StageFacts::VentoyParam(_, _, _) => 3,
        StageFacts::VentoyVolume(_, _, _, _) => 2,
        StageFacts::Candidates(_, _) => 1,
        StageFacts::Done(_) => 0,
    }
}

/// How many answers the part of the search that is under way can still take.
pub open spec fn answers_left(stage: StageFacts) -> int {
    match stage {
        StageFacts::Volumes(_, scan) => scan.remaining(),
        StageFacts::VentoyParam(_, _, search) => search.remaining(),
        StageFacts::VentoyVolume(_, volumes, _, search) => search.remaining(volumes),
        StageFacts::Candidates(_, rest) => rest.len() as int,
        _ => 0,
    }
}

/// Whether `after` is nearer to the end of the search than `before`.
pub open spec fn is_nearer(after: StageFacts, before: StageFacts) -> bool {
    ||| parts_left(after) < parts_left(before)
    ||| parts_left(after) == parts_left(before) && 0 <= answers_left(after) < answers_left(before)
}

/// The stage of a search after the answer of the computer to what it asks.
pub open spec fn next_stage(
    stage: StageFacts,
    computer: Computer,
    relative: Seq<char>,
) -> StageFacts {
    match stage.question() {
        Some(question) => stage.turn(relative, computer.answer(question)).stage,
        None => stage,
    }
}

/// The stage of a search after `n` answers of the computer.
pub open spec fn stage_after(
    stage: StageFacts,
    computer: Computer,
    relative: Seq<char>,
    n: nat,
) -> StageFacts
    decreases n,
{
    if n == 0 {
        stage
    } else {
        stage_after(next_stage(stage, computer, relative), computer, relative, (n - 1) as nat)
    }
}

/// What is left of the paths to look for leads to the outcome.
proof fn rest_agrees(
    computer: Computer,
    relative: Seq<char>,
    list: Seq<CandidateFacts>,
    k: int,
)
    requires
        computer.logical_drives != 0,
        is_rest(computer, relative, list, k),
    ensures
        agrees(
            search::enter_list(list, Seq::empty()).stage,
            computer,
            relative,
        ),
{
    if list.len() == 0 {
        let all = candidates_on(computer, relative);
        let order = plan::search_order(places_in(computer));
        plan::search_order_exists(places_in(computer));
        assert forall|i: int| 0 <= i < scan::volumes_of(computer).len() implies !#[trigger] has_marker(
            computer,
            relative,
            i,
        ) by {
            assert(order.contains(i));
            let a = order.index_of(i);
            assert(all[a].path == marker_path(computer, relative, i));
        }
    } else {
        assert(seq![list[0]] + list.drop_first() == list);
        assert(is_left(computer, relative, list));
    }
}

/// The first path that is there is the outcome.
proof fn found_is_outcome(
    computer: Computer,
    relative: Seq<char>,
    candidate: CandidateFacts,
    rest: Seq<CandidateFacts>,
    k: int,
)
    requires
        computer.logical_drives != 0,
        is_rest(computer, relative, seq![candidate] + rest, k),
        (computer.path_exists)(candidate.path),
    ensures
        is_outcome(computer, relative, Ok(Some(candidate.path))),
{
    let all = candidates_on(computer, relative);
    let places = places_in(computer);
    let order = plan::search_order(places);
    plan::search_order_exists(places);
    assert((seq![candidate] + rest)[0] == candidate);
    assert(all.skip(k).len() == all.len() - k);
    assert(all.skip(k)[0] == all[k]);
    let i = order[k];
    assert(candidate.path == marker_path(computer, relative, i));
    assert forall|j: int|
        0 <= j < scan::volumes_of(computer).len() && plan::comes_first(places, j, i)
            implies !#[trigger] has_marker(computer, relative, j) by {
        assert(order.contains(j));
        let a = order.index_of(j);
        if a == k {
            plan::comes_first_asymmetric(places, j, i);
        } else if a > k {
            assert(plan::comes_first(places, order[k], order[a]));
            plan::comes_first_asymmetric(places, i, j);
        }
        assert(all[a].path == marker_path(computer, relative, j));
    }
    assert(is_first_with_marker(computer, relative, i));
}

/// Entering the list of paths agrees, whatever is told on the way.
proof fn list_agrees(
    computer: Computer,
    relative: Seq<char>,
    volumes: Seq<VolumeFacts>,
    ventoy_root: Option<Seq<char>>,
)
    requires
        computer.logical_drives != 0,
        volumes == scan::volumes_of(computer),
        ventoy_root == ventoy_search::ventoy_root_of(computer, volumes),
    ensures
        agrees(
            search::enter_list(
                plan::candidates_of(
                    volumes,
                    search::priorities(boot_of(computer), ventoy_root),
                    relative,
                ),
                Seq::empty(),
            ).stage,
            computer,
            relative,
        ),
{
    let all = candidates_on(computer, relative);
    assert(all.skip(0) == all);
    assert(is_rest(computer, relative, all, 0));
    rest_agrees(computer, relative, all, 0);
}

/// An answer of the computer keeps a search in agreement with it and brings it
/// nearer to its end.
pub proof fn search_stays_in_agreement(
    stage: StageFacts,
    computer: Computer,
    relative: Seq<char>,
)
    requires
        agrees(stage, computer, relative),
        !(stage is Done),
    ensures
        agrees(next_stage(stage, computer, relative), computer, relative),
        is_nearer(next_stage(stage, computer, relative), stage),
{
    let after = next_stage(stage, computer, relative);
    let answer = computer.answer(stage.question()->0);
    match stage {
        StageFacts::BootDevice => {},
        StageFacts::ArcLink(_) => {},
        StageFacts::Drives(_) => {
            scan::scan_starts_in_agreement(computer);
        },
        StageFacts::Volumes(_, scan) => {
            scan::scan_stays_in_agreement(scan, computer);
        },
        StageFacts::BootDisk(_, _) => {},
        StageFacts::VentoyParam(boot, volumes, search) => {
            ventoy_search::param_search_stays_in_agreement(search, computer);
            match search.step(answer) {
                ParamSearchFacts::Done(Some(param)) => {
                    ventoy_search::data_search_starts_in_agreement(computer, volumes, param);
                    match DataVolumeSearchFacts::at(volumes, param, 0) {
                        DataVolumeSearchFacts::Done(root) => {
                            list_agrees(computer, relative, volumes, root);
                        },
                        _ => {},
                    }
                },
                ParamSearchFacts::Done(None) => {
                    list_agrees(computer, relative, volumes, None);
                },
                _ => {},
            }
        },
        StageFacts::VentoyVolume(boot, volumes, param, search) => {
            ventoy_search::data_search_stays_in_agreement(search, computer, volumes, param);
            match search.step(volumes, param, answer) {
                DataVolumeSearchFacts::Done(root) => {
                    list_agrees(computer, relative, volumes, root);
                },
                _ => {},
            }
        },
        StageFacts::Candidates(candidate, rest) => {
            let all = candidates_on(computer, relative);
            let list = seq![candidate] + rest;
            assert(is_left(computer, relative, list));
            let k = choose|k: int| is_rest(computer, relative, list, k);
            assert(list[0] == candidate);
            assert(all.skip(k).len() == all.len() - k);
            assert(all.skip(k)[0] == all[k]);
            if (computer.path_exists)(candidate.path) {
                found_is_outcome(computer, relative, candidate, rest, k);
            } else {
                assert(list.drop_first() == rest);
                assert(all.skip(k).drop_first() == all.skip(k + 1));
                assert(is_rest(computer, relative, rest, k + 1));
                rest_agrees(computer, relative, rest, k + 1);
            }
        },
        StageFacts::Done(_) => {},
    }
}

/// A search that agrees with a computer comes to an end, and to the outcome,
/// after finitely many of its answers.
pub proof fn search_ends_with_the_outcome(
    stage: StageFacts,
    computer: Computer,
    relative: Seq<char>,
)
    requires
        agrees(stage, computer, relative),
        0 <= answers_left(stage),
    ensures
        exists|n: nat|
            {
                &&& (#[trigger] stage_after(stage, computer, relative, n)) is Done
                &&& is_outcome(
                    computer,
                    relative,
                    stage_after(stage, computer, relative, n)->Done_0,
                )
            },
    decreases parts_left(stage), answers_left(stage),
{
    if stage is Done {
        assert(stage_after(stage, computer, relative, 0) == stage);
    } else {
        search_stays_in_agreement(stage, computer, relative);
        let next = next_stage(stage, computer, relative);
        answers_left_is_no_debt(next, computer, relative);
        search_ends_with_the_outcome(next, computer, relative);
        let n = choose|n: nat|
            {
                &&& (#[trigger] stage_after(next, computer, relative, n)) is Done
                &&& is_outcome(
                    computer,
                    relative,
                    stage_after(next, computer, relative, n)->Done_0,
                )
            };
        assert(stage_after(stage, computer, relative, n + 1) == stage_after(
            next,
            computer,
            relative,
            n,
        ));
    }
}

/// The number of answers that a part of the search can take is not negative.
proof fn answers_left_is_no_debt(stage: StageFacts, computer: Computer, relative: Seq<char>)
    requires
        agrees(stage, computer, relative),
    ensures
        0 <= answers_left(stage),
{
}

/// What the library is for: whatever the computer, a search for a marker ends
/// after finitely many answers. It ends with an error exactly where no drive
/// letter is in use. Else it gives the full path of the marker on the first
/// volume, in the order of the groups and of the drive letters within a group,
/// that has it, and says that there is none only where no volume has it.
pub proof fn search_finds_the_first_marker(computer: Computer, relative: Seq<char>)
    ensures
        exists|n: nat|
            {
                &&& (#[trigger] stage_after(StageFacts::BootDevice, computer, relative, n)) is Done
                &&& is_outcome(
                    computer,
                    relative,
                    stage_after(StageFacts::BootDevice, computer, relative, n)->Done_0,
                )
            },
{
    search_ends_with_the_outcome(StageFacts::BootDevice, computer, relative);
}

/// A computer has one outcome only.
pub proof fn outcome_is_unique(
    computer: Computer,
    relative: Seq<char>,
    a: Result<Option<Seq<char>>, Seq<char>>,
    b: Result<Option<Seq<char>>, Seq<char>>,
)
    requires
        is_outcome(computer, relative, a),
        is_outcome(computer, relative, b),
    ensures
        a == b,
{
    match (a, b) {
        (Ok(Some(found_a)), Ok(Some(found_b))) => {
            let i = choose|i: int| #[trigger]
                is_first_with_marker(computer, relative, i) && found_a == marker_path(
                    computer,
                    relative,
                    i,
                );
            let j = choose|j: int| #[trigger]
                is_first_with_marker(computer, relative, j) && found_b == marker_path(
                    computer,
                    relative,
                    j,
                );
            if i != j {
                plan::comes_first_total(places_in(computer), i, j);
                assert(has_marker(computer, relative, i));
                assert(has_marker(computer, relative, j));
            }
        },
        (Ok(Some(_)), Ok(None)) => {
            let i = choose|i: int| #[trigger] is_first_with_marker(computer, relative, i);
            assert(has_marker(computer, relative, i));
        },
        (Ok(None), Ok(Some(_))) => {
            let i = choose|i: int| #[trigger] is_first_with_marker(computer, relative, i);
            assert(has_marker(computer, relative, i));
        },
        _ => {},
    }
}

/// A path that was found is the root of a drive letter in use followed by the
/// marker, and it is there.
pub proof fn found_path_is_below_a_drive_root(
    computer: Computer,
    relative: Seq<char>,
    found: Seq<char>,
)
    requires
        is_outcome(computer, relative, Ok(Some(found))),
    ensures
        (computer.path_exists)(found),
        exists|index: u32|
            {
                &&& index < scan::DRIVE_LETTERS
                &&& #[trigger] scan::is_mounted(computer, computer.logical_drives, index)
                &&& found == path::entry_path(scan::drive_root(index), relative)
            },
{
    let i = choose|i: int| #[trigger]
        is_first_with_marker(computer, relative, i) && found == marker_path(computer, relative, i);
    assert(has_marker(computer, relative, i));
    scan::volumes_stand_at_drive_letters(
        computer,
        computer.logical_drives,
        scan::DRIVE_LETTERS,
        i,
    );
}

/// A drive that has the marker is never passed over: the search then finds one.
pub proof fn marker_on_a_mounted_drive_is_found(
    computer: Computer,
    relative: Seq<char>,
    result: Result<Option<Seq<char>>, Seq<char>>,
    index: u32,
)
    requires
        is_outcome(computer, relative, result),
        computer.logical_drives != 0,
        index < scan::DRIVE_LETTERS,
        scan::is_mounted(computer, computer.logical_drives, index),
        (computer.path_exists)(path::entry_path(scan::drive_root(index), relative)),
    ensures
        result is Ok && result->Ok_0 is Some,
{
    scan::every_mounted_letter_is_found(
        computer,
        computer.logical_drives,
        scan::DRIVE_LETTERS,
        index,
    );
    let i = scan::volumes_of(computer).index_of(scan::volume_at(computer, index));
    assert(has_marker(computer, relative, i));
}

/// Within a group, volumes are searched in the order of their drive letters.
pub proof fn letters_ascend_within_a_group(computer: Computer, i: int, j: int)
    requires
        0 <= i < j < scan::volumes_of(computer).len(),
        places_in(computer)[i].group == places_in(computer)[j].group,
    ensures
        plan::comes_first(places_in(computer), i, j),
{
    scan::roots_ascend(computer, computer.logical_drives, scan::DRIVE_LETTERS, i, j);
}

/// Volumes of an earlier group are searched before those of a later one,
/// whatever their drive letters.
pub proof fn groups_count_before_letters(computer: Computer, i: int, j: int)
    requires
        places_in(computer)[i].group.rank() < places_in(computer)[j].group.rank(),
    ensures
        plan::comes_first(places_in(computer), i, j),
{
}

/// Where the firmware does not name the boot device, or its link cannot be
/// resolved, no volume is searched before the others on account of it.
pub proof fn unresolved_boot_device_gives_no_priority(computer: Computer, i: int)
    requires
        boot_nt_path_of(computer) is None,
        0 <= i < scan::volumes_of(computer).len(),
    ensures
        places_in(computer)[i].group != SearchGroup::Boot,
        places_in(computer)[i].group != SearchGroup::SameDisk,
{
}

/// Where the boot partition is mounted at no drive letter, its disk is known all
/// the same: by the NT path of the partition, or else by what the computer
/// reports behind that path. The mounted volumes of that disk are then searched
/// before all volumes of other disks.
pub proof fn unmounted_boot_partition_keeps_its_disk(
    computer: Computer,
    boot_nt_path: Seq<char>,
    i: int,
    j: int,
)
    requires
        boot_nt_path_of(computer) == Some(boot_nt_path),
        volume::boot_volume_from(scan::volumes_of(computer), boot_nt_path, 0) is None,
        0 <= i < scan::volumes_of(computer).len(),
        0 <= j < scan::volumes_of(computer).len(),
        boot_of(computer).disk is Some,
        volume::disk_of(scan::volumes_of(computer)[i].device_number) == boot_of(computer).disk,
        volume::disk_of(scan::volumes_of(computer)[j].device_number) != boot_of(computer).disk,
    ensures
        boot_of(computer).disk == (if device::arc_device_number(boot_nt_path) is Some {
            volume::disk_of(device::arc_device_number(boot_nt_path))
        } else {
            volume::disk_of((computer.device_number)(device::global_path(boot_nt_path)))
        }),
        places_in(computer)[i].group == SearchGroup::SameDisk,
        plan::comes_first(places_in(computer), i, j),
{
    let volumes = scan::volumes_of(computer);
    let reported = reported_boot_partition(computer);
    let ventoy_root = ventoy_search::ventoy_root_of(computer, volumes);
    volume::unmounted_boot_disk_is_known_by_number(
        volumes,
        boot_nt_path,
        reported,
        i,
        ventoy_root,
    );
    volume::boot_volume_is_the_first_named(volumes, boot_nt_path, 0);
    assert(!volume::is_boot_volume(volumes[j], boot_nt_path));
    assert(places_in(computer)[j].group.rank() > SearchGroup::SameDisk.rank());
}

/// Only a volume that matches the runtime parameter of Ventoy in all respects
/// is searched as the Ventoy data volume.
pub proof fn ventoy_group_is_for_the_booted_image(computer: Computer, i: int)
    requires
        0 <= i < scan::volumes_of(computer).len(),
        places_in(computer)[i].group == SearchGroup::Ventoy,
    ensures
        ventoy_search::param_of(computer) is Some,
        ventoy_search::is_data_volume(
            computer,
            scan::volumes_of(computer)[i],
            ventoy_search::param_of(computer)->0,
        ),
{
    let volumes = scan::volumes_of(computer);
    let param = ventoy_search::param_of(computer)->0;
    ventoy_search::ventoy_root_matches_in_full(computer, volumes, param, 0);
    let j = choose|j: int|
        {
            &&& 0 <= j < volumes.len()
            &&& ventoy_search::is_data_volume(computer, #[trigger] volumes[j], param)
            &&& volumes[j].root == volumes[i].root
        };
    if i < j {
        scan::roots_ascend(computer, computer.logical_drives, scan::DRIVE_LETTERS, i, j);
        text::precedes_irreflexive(volumes[i].root);
    } else if j < i {
        scan::roots_ascend(computer, computer.logical_drives, scan::DRIVE_LETTERS, j, i);
        text::precedes_irreflexive(volumes[i].root);
    }
}

/// Every path that is looked for is told before.
pub proof fn every_path_is_told_before(stage: StageFacts, relative: Seq<char>, answer: Answer)
    requires
        stage.turn(relative, answer).stage is Candidates,
        stage.turn(relative, answer).stage != stage,
    ensures
        stage.turn(relative, answer).notes.len() > 0,
        stage.turn(relative, answer).notes.last() == NoteFacts::Checking(
            stage.turn(relative, answer).stage->Candidates_0,
        ),
{
}

/// The search ends at once where a path is there: that path is the result, and
/// nothing is asked or told any more.
pub proof fn a_hit_ends_the_search(stage: StageFacts, relative: Seq<char>, answer: Answer)
    requires
        stage is Candidates,
    ensures
        ({
            let turn = stage.turn(relative, Answer::PathExists(true));
            &&& turn.stage == StageFacts::Done(Ok(Some(stage->Candidates_0.path)))
            &&& turn.stage.question() is None
            &&& turn.notes.len() == 0
            &&& turn.stage.turn(relative, answer) == turn.stage.quietly()
        }),
{
}

/// The paths that notes tell to be looked for, in order.
pub open spec fn checks(notes: Seq<NoteFacts>) -> Seq<CandidateFacts>
    decreases notes.len(),
{
    if notes.len() == 0 {
        Seq::empty()
    } else {
        let before = checks(notes.drop_last());
        match notes.last() {
            NoteFacts::Checking(candidate) => before.push(candidate),
            _ => before,
        }
    }
}

/// What a search tells on the way of `n` answers of the computer.
pub open spec fn notes_after(
    stage: StageFacts,
    computer: Computer,
    relative: Seq<char>,
    n: nat,
) -> Seq<NoteFacts>
    decreases n,
{
    if n == 0 {
        Seq::empty()
    } else {
        let before = stage_after(stage, computer, relative, (n - 1) as nat);
        let told = notes_after(stage, computer, relative, (n - 1) as nat);
        match before.question() {
            Some(question) => told + before.turn(relative, computer.answer(question)).notes,
            None => told,
        }
    }
}

/// Whether `told` is what a search that has come to `stage` has told of the paths
/// that it looked for: as many of the paths to look for as it has come to, in
/// their order, none of which is there but the last where that is the result.
pub open spec fn tells_of_checks(
    stage: StageFacts,
    computer: Computer,
    relative: Seq<char>,
    told: Seq<CandidateFacts>,
) -> bool {
    let all = candidates_on(computer, relative);
    match stage {
        StageFacts::Candidates(candidate, rest) => {
            &&& told.len() > 0
            &&& told.last() == candidate
            &&& told + rest == all
            &&& forall|a: int|
                0 <= a < told.len() - 1 ==> !(computer.path_exists)((#[trigger] told[a]).path)
        },
        StageFacts::Done(Ok(Some(found))) => {
            &&& told.len() > 0
            &&& told.is_prefix_of(all)
            &&& told.last().path == found
            &&& (computer.path_exists)(found)
            &&& forall|a: int|
                0 <= a < told.len() - 1 ==> !(computer.path_exists)((#[trigger] told[a]).path)
        },
        StageFacts::Done(Ok(None)) => {
            &&& told == all
            &&& forall|a: int|
                0 <= a < told.len() ==> !(computer.path_exists)((#[trigger] told[a]).path)
        },
        _ => told.len() == 0,
    }
}

/// The checks of notes and of further notes behind them.
proof fn checks_of_more(a: Seq<NoteFacts>, b: Seq<NoteFacts>)
    ensures
        checks(a + b) == checks(a) + checks(b),
    decreases b.len(),
{
    if b.len() == 0 {
        assert(a + b == a);
        assert(checks(a) + checks(b) == checks(a));
    } else {
        checks_of_more(a, b.drop_last());
        assert((a + b).drop_last() == a + b.drop_last());
    }
}

/// The stage of a search after one more answer.
proof fn stage_after_one_more(
    stage: StageFacts,
    computer: Computer,
    relative: Seq<char>,
    n: nat,
)
    ensures
        stage_after(stage, computer, relative, n + 1) == next_stage(
            stage_after(stage, computer, relative, n),
            computer,
            relative,
        ),
    decreases n,
{
    let next = next_stage(stage, computer, relative);
    if n > 0 {
        stage_after_one_more(next, computer, relative, (n - 1) as nat);
    } else {
        assert(stage_after(next, computer, relative, 0) == next);
    }
}

/// A search that started in agreement stays in it.
proof fn stage_after_agrees(stage: StageFacts, computer: Computer, relative: Seq<char>, n: nat)
    requires
        agrees(stage, computer, relative),
    ensures
        agrees(stage_after(stage, computer, relative, n), computer, relative),
    decreases n,
{
    if n > 0 {
        if !(stage is Done) {
            search_stays_in_agreement(stage, computer, relative);
        }
        stage_after_agrees(
            next_stage(stage, computer, relative),
            computer,
            relative,
            (n - 1) as nat,
        );
    }
}

/// What at most three notes tell, of which only the last may tell of a check.
proof fn few_checks(notes: Seq<NoteFacts>)
    requires
        notes.len() <= 3,
        forall|i: int| 0 <= i < notes.len() - 1 ==> !(#[trigger] notes[i] is Checking),
    ensures
        notes.len() > 0 ==> (notes.last() matches NoteFacts::Checking(candidate) ==> checks(notes)
            == seq![candidate]),
        notes.len() == 0 || !(notes.last() is Checking) ==> checks(notes).len() == 0,
{
    reveal_with_fuel(checks, 4);
}

/// What is told on entering a list of paths after at most two notes that tell
/// of no check.
proof fn list_checks(list: Seq<CandidateFacts>, notes: Seq<NoteFacts>)
    requires
        notes.len() <= 2,
        forall|i: int| 0 <= i < notes.len() ==> !(#[trigger] notes[i] is Checking),
    ensures
        list.len() == 0 ==> checks(search::enter_list(list, notes).notes).len() == 0,
        list.len() > 0 ==> checks(search::enter_list(list, notes).notes) == seq![list[0]],
{
    few_checks(search::enter_list(list, notes).notes);
}

/// An answer makes a search tell of the next path to look for where there is
/// one, and of no other.
proof fn turn_tells_of_its_check(
    stage: StageFacts,
    computer: Computer,
    relative: Seq<char>,
    told: Seq<CandidateFacts>,
)
    requires
        agrees(stage, computer, relative),
        tells_of_checks(stage, computer, relative, told),
        !(stage is Done),
    ensures
        tells_of_checks(
            next_stage(stage, computer, relative),
            computer,
            relative,
            told + checks(
                stage.turn(relative, computer.answer(stage.question()->0)).notes,
            ),
        ),
{
    let answer = computer.answer(stage.question()->0);
    let turn = stage.turn(relative, answer);
    let all = candidates_on(computer, relative);
    search_stays_in_agreement(stage, computer, relative);
    match stage {
        StageFacts::Candidates(candidate, rest) => {
            assert(told + Seq::<CandidateFacts>::empty() == told);
            if (computer.path_exists)(candidate.path) {
                assert(checks(turn.notes) == Seq::<CandidateFacts>::empty());
                assert(told.is_prefix_of(all)) by {
                    assert(all.take(told.len() as int) == told);
                }
            } else {
                list_checks(rest, Seq::empty());
                if rest.len() == 0 {
                    assert(checks(turn.notes) == Seq::<CandidateFacts>::empty());
                    assert(told + rest == told);
                } else {
                    let more = told + seq![rest[0]];
                    assert(more + rest.drop_first() == told + rest);
                    assert forall|a: int| 0 <= a < more.len() - 1 implies !(computer.path_exists)(
                        (#[trigger] more[a]).path,
                    ) by {
                        assert(more[a] == told[a]);
                    }
                }
            }
        },
        StageFacts::VentoyParam(boot, volumes, search) => {
            let before = search::param_notes(search, answer, search.step(answer));
            assert(told == Seq::<CandidateFacts>::empty());
            ventoy_search::param_search_stays_in_agreement(search, computer);
            match search.step(answer) {
                ParamSearchFacts::Done(Some(param)) => {
                    ventoy_search::data_search_starts_in_agreement(computer, volumes, param);
                    data_search_tells(
                        computer,
                        relative,
                        param,
                        DataVolumeSearchFacts::at(volumes, param, 0),
                        before,
                    );
                },
                ParamSearchFacts::Done(None) => {
                    let notes = before.push(NoteFacts::VentoyNotFound);
                    assert(candidates_on(computer, relative) == plan::candidates_of(
                        volumes,
                        search::priorities(boot, None),
                        relative,
                    ));
                    entering_tells(computer, relative, notes);
                },
                _ => {
                    few_checks(before);
                },
            }
        },
        StageFacts::VentoyVolume(boot, volumes, param, search) => {
            assert(told == Seq::<CandidateFacts>::empty());
            ventoy_search::data_search_stays_in_agreement(search, computer, volumes, param);
            data_search_tells(
                computer,
                relative,
                param,
                search.step(volumes, param, answer),
                Seq::empty(),
            );
        },
        _ => {
            few_checks(turn.notes);
        },
    }
}

/// What is told on entering the paths to look for is the first of them.
proof fn entering_tells(computer: Computer, relative: Seq<char>, notes: Seq<NoteFacts>)
    requires
        notes.len() <= 2,
        forall|i: int| 0 <= i < notes.len() ==> !(#[trigger] notes[i] is Checking),
    ensures
        tells_of_checks(
            search::enter_list(candidates_on(computer, relative), notes).stage,
            computer,
            relative,
            Seq::<CandidateFacts>::empty() + checks(
                search::enter_list(candidates_on(computer, relative), notes).notes,
            ),
        ),
{
    let all = candidates_on(computer, relative);
    list_checks(all, notes);
    if all.len() > 0 {
        assert(Seq::<CandidateFacts>::empty() + seq![all[0]] == seq![all[0]]);
        assert(seq![all[0]] + all.drop_first() == all);
    } else {
        let entered = search::enter_list(all, notes);
        assert(Seq::<CandidateFacts>::empty() + checks(entered.notes) == all);
    }
}

/// What is told on going on with the search for the data volume.
proof fn data_search_tells(
    computer: Computer,
    relative: Seq<char>,
    param: ParamFacts,
    search: DataVolumeSearchFacts,
    notes: Seq<NoteFacts>,
)
    requires
        ventoy_search::param_of(computer) == Some(param),
        search.agrees_with(computer, scan::volumes_of(computer), param),
        notes.len() <= 1,
        forall|i: int| 0 <= i < notes.len() ==> !(#[trigger] notes[i] is Checking),
    ensures
        ({
            let turn = search::enter_data_search(
                boot_of(computer),
                scan::volumes_of(computer),
                param,
                search,
                relative,
                notes,
            );
            tells_of_checks(
                turn.stage,
                computer,
                relative,
                Seq::<CandidateFacts>::empty() + checks(turn.notes),
            )
        }),
{
    match search {
        DataVolumeSearchFacts::Done(root) => {
            let more = notes.push(
                match root {
                    Some(root) => NoteFacts::VentoyVolumeFound(root, param.image_path),
                    None => NoteFacts::VentoyVolumeMissing(param.image_path),
                },
            );
            entering_tells(computer, relative, more);
        },
        _ => {
            few_checks(notes);
        },
    }
}

/// At every moment of a search, the paths that it has told to be looked for are
/// the first of the paths to look for, in their order and each once. They end at
/// the path that was found, where one was, and are all of them where none was.
pub proof fn told_checks_are_those_made(computer: Computer, relative: Seq<char>, n: nat)
    ensures
        tells_of_checks(
            stage_after(StageFacts::BootDevice, computer, relative, n),
            computer,
            relative,
            checks(notes_after(StageFacts::BootDevice, computer, relative, n)),
        ),
        checks(notes_after(StageFacts::BootDevice, computer, relative, n)).is_prefix_of(
            candidates_on(computer, relative),
        ),
    decreases n,
{
    let start = StageFacts::BootDevice;
    let told = notes_after(start, computer, relative, n);
    if n == 0 {
        assert(stage_after(start, computer, relative, 0) == start);
    } else {
        let m = (n - 1) as nat;
        let before = stage_after(start, computer, relative, m);
        let told_before = notes_after(start, computer, relative, m);
        told_checks_are_those_made(computer, relative, m);
        stage_after_one_more(start, computer, relative, m);
        stage_after_agrees(start, computer, relative, m);
        if !(before is Done) {
            turn_tells_of_its_check(before, computer, relative, checks(told_before));
            checks_of_more(
                told_before,
                before.turn(relative, computer.answer(before.question()->0)).notes,
            );
        }
    }
    let all = candidates_on(computer, relative);
    assert(checks(told) == all.take(checks(told).len() as int));
}

/// The booted partition has an NT path where the firmware names its device and
/// the link `\ArcName\` with that name has a target, which is the path. The disk
/// of the partition is asked for under `\\?\GLOBALROOT` with that path.
pub proof fn boot_path_is_the_target_of_the_link(
    computer: Computer,
    name: Seq<char>,
    path: Seq<char>,
)
    ensures
        computer.firmware_boot_device is Err ==> boot_nt_path_of(computer) is None,
        computer.firmware_boot_device == Ok::<Seq<char>, Seq<char>>(name) ==> {
            let link = (computer.arc_link)(
                seq!['\\', 'A', 'r', 'c', 'N', 'a', 'm', 'e', '\\'] + name,
            );
            &&& link == Ok::<Seq<char>, i32>(path) ==> boot_nt_path_of(computer) == Some(path)
            &&& link is Err ==> boot_nt_path_of(computer) is None
        },
        boot_nt_path_of(computer) is None ==> boot_of(computer).nt_path is None && boot_of(
            computer,
        ).disk is None,
        boot_nt_path_of(computer) == Some(path) ==> {
            &&& boot_of(computer).nt_path == Some(path)
            &&& boot_of(computer).disk == volume::boot_disk_of(
                scan::volumes_of(computer),
                Some(path),
                (computer.device_number)(
                    seq![
                        '\\', '\\', '?', '\\', 'G', 'L', 'O', 'B', 'A', 'L', 'R', 'O', 'O', 'T',
                    ] + path,
                ),
            )
        },
{
    let arc = seq!['\\', 'A', 'r', 'c', 'N', 'a', 'm', 'e', '\\'];
    let global = seq!['\\', '\\', '?', '\\', 'G', 'L', 'O', 'B', 'A', 'L', 'R', 'O', 'O', 'T'];
    device::opened_names_end_with_the_given_one(name);
    device::opened_names_end_with_the_given_one(path);
    let link_name = device::arc_link_name(name);
    let device_name = device::global_path(path);
    assert(link_name =~= link_name.take(9) + link_name.skip(9));
    assert(device_name =~= device_name.take(14) + device_name.skip(14));
    assert(link_name == arc + name);
    assert(device_name == global + path);
}

/// The group in which volume `i` of a computer is searched.
pub open spec fn group_on(computer: Computer, i: int) -> SearchGroup {
    volume::group_of(
        scan::volumes_of(computer)[i],
        boot_of(computer).nt_path,
        boot_of(computer).disk,
        ventoy_search::ventoy_root_of(computer, scan::volumes_of(computer)),
    )
}

/// Whether volume `i` of a computer has something at its root followed by the
/// path that is looked for.
pub open spec fn shows_marker(computer: Computer, relative: Seq<char>, i: int) -> bool {
    (computer.path_exists)(path::entry_path(scan::volumes_of(computer)[i].root, relative))
}

/// However many answers it takes, a search that is over says what holds of the
/// computer. It fails exactly where no drive letter is in use. The path that it
/// gives is there, on one of the volumes, and every other volume on which there
/// is such a path is in a later group or, in the same group, at a later letter.
/// It gives none only where no volume has such a path.
pub proof fn finished_search_gives_the_best_path(computer: Computer, relative: Seq<char>, n: nat)
    requires
        stage_after(StageFacts::BootDevice, computer, relative, n) is Done,
    ensures
        ({
            let result = stage_after(StageFacts::BootDevice, computer, relative, n)->Done_0;
            let count = scan::volumes_of(computer).len();
            &&& result is Err <==> computer.logical_drives == 0
            &&& result matches Ok(Some(found)) ==> exists|i: int|
                {
                    &&& 0 <= i < count
                    &&& #[trigger] shows_marker(computer, relative, i)
                    &&& found == path::entry_path(scan::volumes_of(computer)[i].root, relative)
                    &&& forall|j: int|
                        0 <= j < count && j != i && #[trigger] shows_marker(computer, relative, j)
                            ==> {
                            ||| group_on(computer, i).rank() < group_on(computer, j).rank()
                            ||| group_on(computer, i).rank() == group_on(computer, j).rank() && (
                            scan::volumes_of(computer)[i].root[0] as int) < (scan::volumes_of(
                                computer,
                            )[j].root[0] as int)
                        }
                }
            &&& result matches Ok(None) ==> forall|j: int|
                0 <= j < count ==> !#[trigger] shows_marker(computer, relative, j)
        }),
{
    let result = stage_after(StageFacts::BootDevice, computer, relative, n)->Done_0;
    let volumes = scan::volumes_of(computer);
    let places = places_in(computer);
    stage_after_agrees(StageFacts::BootDevice, computer, relative, n);
    match result {
        Ok(Some(found)) => {
            let i = choose|i: int| #[trigger]
                is_first_with_marker(computer, relative, i) && found == marker_path(
                    computer,
                    relative,
                    i,
                );
            assert(has_marker(computer, relative, i));
            assert(shows_marker(computer, relative, i));
            assert forall|j: int|
                0 <= j < volumes.len() && j != i && #[trigger] shows_marker(
                    computer,
                    relative,
                    j,
                ) implies {
                ||| group_on(computer, i).rank() < group_on(computer, j).rank()
                ||| group_on(computer, i).rank() == group_on(computer, j).rank() && (
                volumes[i].root[0] as int) < (volumes[j].root[0] as int)
            } by {
                assert(has_marker(computer, relative, j));
                plan::comes_first_total(places, i, j);
                assert(!plan::comes_first(places, j, i));
                assert(places[i].group == group_on(computer, i));
                assert(places[j].group == group_on(computer, j));
                if j < i {
                    scan::volumes_stand_in_the_order_of_letters(computer, j, i);
                    scan::roots_ascend(
                        computer,
                        computer.logical_drives,
                        scan::DRIVE_LETTERS,
                        j,
                        i,
                    );
                } else {
                    scan::volumes_stand_in_the_order_of_letters(computer, i, j);
                }
                volume::groups_have_one_place_each(places[i].group, places[j].group);
            }
        },
        Ok(None) => {
            assert forall|j: int| 0 <= j < volumes.len() implies !#[trigger] shows_marker(
                computer,
                relative,
                j,
            ) by {
                assert(!has_marker(computer, relative, j));
            }
        },
        Err(_) => {},
    }
}

/// What is told of the boot device: why it is not known, where it is not.
pub open spec fn boot_notes(computer: Computer) -> Seq<NoteFacts> {
    match computer.firmware_boot_device {
        Err(error) => seq![NoteFacts::BootDeviceUnreadable(error)],
        Ok(name) => match (computer.arc_link)(device::arc_link_name(name)) {
            Err(status) => seq![NoteFacts::ArcLinkUnavailable(status)],
            Ok(_) => Seq::empty(),
        },
    }
}

/// What is told of volumes: each of them.
pub open spec fn volume_notes(volumes: Seq<VolumeFacts>) -> Seq<NoteFacts> {
    volumes.map_values(|volume: VolumeFacts| NoteFacts::VolumeFound(volume))
}

/// What is told of a boot partition that none of the volumes is.
pub open spec fn unmounted_notes(computer: Computer) -> Seq<NoteFacts> {
    match boot_nt_path_of(computer) {
        Some(path) if forall|i: int|
            0 <= i < scan::volumes_of(computer).len() ==> !volume::is_boot_volume(
                #[trigger] scan::volumes_of(computer)[i],
                path,
            ) => seq![NoteFacts::BootPartitionUnmounted(path)],
        _ => Seq::empty(),
    }
}

/// What is told of the privilege: why it is not held, where it is not.
pub open spec fn privilege_notes(computer: Computer) -> Seq<NoteFacts> {
    match computer.privilege {
        Err(error) => seq![NoteFacts::PrivilegeUnavailable(error)],
        Ok(_) => Seq::empty(),
    }
}

/// What is told of the source of the runtime parameter.
pub open spec fn source_notes(computer: Computer) -> Seq<NoteFacts> {
    let variable = ventoy_search::param_in_variable(
        computer.ventoy_variable.0,
        computer.ventoy_variable.1,
    );
    if variable is Some {
        seq![NoteFacts::VentoyFromVariable]
    } else if ventoy_search::table_param(computer, TableName::Vtoy) is Some {
        seq![NoteFacts::VentoyFromTable(TableName::Vtoy)]
    } else if ventoy_search::table_param(computer, TableName::Ibft) is Some {
        seq![NoteFacts::VentoyFromTable(TableName::Ibft)]
    } else {
        seq![NoteFacts::VentoyNotFound]
    }
}

/// What is told of the Ventoy data volume, where there is a runtime parameter.
pub open spec fn data_notes(computer: Computer) -> Seq<NoteFacts> {
    match ventoy_search::param_of(computer) {
        Some(param) => match ventoy_search::ventoy_root_of(computer, scan::volumes_of(computer)) {
            Some(root) => seq![NoteFacts::VentoyVolumeFound(root, param.image_path)],
            None => seq![NoteFacts::VentoyVolumeMissing(param.image_path)],
        },
        None => Seq::empty(),
    }
}

/// What is told of the boot and of the volumes.
pub open spec fn scan_transcript(computer: Computer) -> Seq<NoteFacts> {
    boot_notes(computer) + volume_notes(scan::volumes_of(computer)) + unmounted_notes(computer)
}

/// What is told before the first path is looked for.
pub open spec fn preamble(computer: Computer) -> Seq<NoteFacts> {
    scan_transcript(computer) + privilege_notes(computer) + source_notes(computer) + data_notes(
        computer,
    )
}

/// What is told of paths that are looked for: each of them.
pub open spec fn check_notes(list: Seq<CandidateFacts>) -> Seq<NoteFacts> {
    list.map_values(|candidate: CandidateFacts| NoteFacts::Checking(candidate))
}

/// Whether `told` is all that a search which has come to `stage` has to tell of a
/// computer.
pub open spec fn is_transcript(
    stage: StageFacts,
    computer: Computer,
    told: Seq<NoteFacts>,
) -> bool {
    match stage {
        StageFacts::BootDevice => told.len() == 0,
        StageFacts::ArcLink(_) => told.len() == 0,
        StageFacts::Drives(_) => told == boot_notes(computer),
        StageFacts::Volumes(_, scan) => told == boot_notes(computer) + volume_notes(scan.volumes),
        StageFacts::BootDisk(_, _) => told == scan_transcript(computer),
        StageFacts::VentoyParam(_, _, ParamSearchFacts::Privilege) => told == scan_transcript(
            computer,
        ),
        StageFacts::VentoyParam(_, _, _) => told == scan_transcript(computer) + privilege_notes(
            computer,
        ),
        StageFacts::VentoyVolume(_, _, _, _) => told == scan_transcript(computer)
            + privilege_notes(computer) + source_notes(computer),
        StageFacts::Candidates(_, _) => told == preamble(computer) + check_notes(checks(told)),
        StageFacts::Done(Ok(_)) => told == preamble(computer) + check_notes(checks(told)),
        StageFacts::Done(Err(_)) => told == boot_notes(computer),
    }
}

/// What is told before the first path is looked for tells of no check.
proof fn preamble_has_no_checks(computer: Computer)
    ensures
        checks(preamble(computer)).len() == 0,
{
    let boot = boot_notes(computer);
    let volumes = volume_notes(scan::volumes_of(computer));
    let unmounted = unmounted_notes(computer);
    let privilege = privilege_notes(computer);
    let source = source_notes(computer);
    let data = data_notes(computer);
    few_checks(boot);
    few_checks(unmounted);
    few_checks(privilege);
    few_checks(source);
    few_checks(data);
    volume_notes_have_no_checks(scan::volumes_of(computer));
    checks_of_more(boot, volumes);
    checks_of_more(boot + volumes, unmounted);
    checks_of_more(scan_transcript(computer), privilege);
    checks_of_more(scan_transcript(computer) + privilege, source);
    checks_of_more(scan_transcript(computer) + privilege + source, data);
}

/// What is told of volumes tells of no check.
proof fn volume_notes_have_no_checks(volumes: Seq<VolumeFacts>)
    ensures
        checks(volume_notes(volumes)).len() == 0,
    decreases volumes.len(),
{
    if volumes.len() > 0 {
        volume_notes_have_no_checks(volumes.drop_last());
        assert(volume_notes(volumes).drop_last() =~= volume_notes(volumes.drop_last()));
    }
}

/// The preamble with a list of paths entered behind it is a transcript.
proof fn list_transcript(
    computer: Computer,
    list: Seq<CandidateFacts>,
    told: Seq<NoteFacts>,
    notes: Seq<NoteFacts>,
)
    requires
        told + notes == preamble(computer),
    ensures
        is_transcript(
            search::enter_list(list, notes).stage,
            computer,
            told + search::enter_list(list, notes).notes,
        ),
{
    let entered = search::enter_list(list, notes).notes;
    let all = told + entered;
    preamble_has_no_checks(computer);
    if list.len() == 0 {
        assert(check_notes(checks(all)) =~= Seq::<NoteFacts>::empty());
        assert(preamble(computer) + Seq::<NoteFacts>::empty() =~= preamble(computer));
    } else {
        assert(all =~= preamble(computer).push(NoteFacts::Checking(list[0])));
        assert(all.drop_last() =~= preamble(computer));
        assert(checks(all) =~= seq![list[0]]);
        assert(check_notes(checks(all)) =~= seq![NoteFacts::Checking(list[0])]);
        assert(all =~= preamble(computer) + check_notes(checks(all)));
    }
}

/// An answer makes a search tell what is to be told next.
#[verifier::spinoff_prover]
#[verifier::rlimit(40)]
proof fn turn_goes_on_with_the_transcript(
    stage: StageFacts,
    computer: Computer,
    relative: Seq<char>,
    told: Seq<NoteFacts>,
)
    requires
        agrees(stage, computer, relative),
        is_transcript(stage, computer, told),
        !(stage is Done),
    ensures
        is_transcript(
            next_stage(stage, computer, relative),
            computer,
            told + stage.turn(relative, computer.answer(stage.question()->0)).notes,
        ),
{
    let answer = computer.answer(stage.question()->0);
    let turn = stage.turn(relative, answer);
    let none = Seq::<NoteFacts>::empty();
    assert(told + none =~= told);
    search_stays_in_agreement(stage, computer, relative);
    match stage {
        StageFacts::BootDevice => {
            assert(told + turn.notes =~= turn.notes);
        },
        StageFacts::ArcLink(_) => {
            assert(told + turn.notes =~= turn.notes);
        },
        StageFacts::Drives(boot) => {
            if computer.logical_drives != 0 {
                let start = ScanFacts::start(computer.logical_drives);
                scan::scan_starts_in_agreement(computer);
                assert(volume_notes(start.volumes) =~= none);
                assert(told + volume_notes(start.volumes) =~= told);
                scan_turn_tells(computer, boot, start, told, none);
            }
        },
        StageFacts::Volumes(boot, scan) => {
            let after = scan.step(answer);
            scan::scan_stays_in_agreement(scan, computer);
            let notes = search::scan_notes(scan, after);
            if after.volumes.len() > scan.volumes.len() {
                assert(after.volumes.drop_last() =~= scan.volumes);
                assert(volume_notes(after.volumes) =~= volume_notes(scan.volumes).push(
                    NoteFacts::VolumeFound(after.volumes.last()),
                ));
            } else {
                assert(after.volumes == scan.volumes);
            }
            assert(told + notes =~= boot_notes(computer) + volume_notes(after.volumes));
            scan_turn_tells(computer, boot, after, told, notes);
        },
        StageFacts::BootDisk(_, _) => {},
        StageFacts::VentoyParam(boot, volumes, search) => {
            param_turn_tells(computer, relative, boot, volumes, search, told);
        },
        StageFacts::VentoyVolume(boot, volumes, param, search) => {
            let after = search.step(volumes, param, answer);
            ventoy_search::data_search_stays_in_agreement(search, computer, volumes, param);
            data_turn_tells(computer, relative, param, after, told, none);
        },
        StageFacts::Candidates(candidate, rest) => {
            let more = told + turn.notes;
            checks_of_more(told, turn.notes);
            if !(computer.path_exists)(candidate.path) && rest.len() > 0 {
                list_checks(rest, none);
                assert(turn.notes =~= seq![NoteFacts::Checking(rest[0])]);
                assert(check_notes(checks(more)) =~= check_notes(checks(told)) + turn.notes);
                assert(more =~= preamble(computer) + check_notes(checks(more)));
            } else {
                assert(turn.notes =~= none);
            }
        },
        StageFacts::Done(_) => {},
    }
}

/// What is told on going on with the search for volumes.
proof fn scan_turn_tells(
    computer: Computer,
    boot: Option<Seq<char>>,
    scan: ScanFacts,
    told: Seq<NoteFacts>,
    notes: Seq<NoteFacts>,
)
    requires
        boot == boot_nt_path_of(computer),
        scan.agrees_with(computer),
        told + notes == boot_notes(computer) + volume_notes(scan.volumes),
    ensures
        is_transcript(
            search::enter_scan(boot, scan, notes).stage,
            computer,
            told + search::enter_scan(boot, scan, notes).notes,
        ),
{
    if scan.is_done() {
        let volumes = scan::volumes_of(computer);
        scan::finished_scan_holds_the_volumes(scan, computer);
        let unmounted = unmounted_notes(computer);
        let entered = search::enter_scan(boot, scan, notes).notes;
        if let Some(path) = boot {
            volume::boot_volume_is_the_first_named(volumes, path, 0);
            let b = volume::boot_volume_from(volumes, path, 0);
            if b is Some {
                assert(volume::is_boot_volume(volumes[b->0], path));
            }
        }
        assert(entered =~= notes + unmounted);
        assert(told + entered =~= (told + notes) + unmounted);
    }
}

/// What is told on going on with the search for the data volume.
proof fn data_turn_tells(
    computer: Computer,
    relative: Seq<char>,
    param: ParamFacts,
    search: DataVolumeSearchFacts,
    told: Seq<NoteFacts>,
    notes: Seq<NoteFacts>,
)
    requires
        ventoy_search::param_of(computer) == Some(param),
        search.agrees_with(computer, scan::volumes_of(computer), param),
        told + notes == scan_transcript(computer) + privilege_notes(computer) + source_notes(
            computer,
        ),
    ensures
        ({
            let turn = search::enter_data_search(
                boot_of(computer),
                scan::volumes_of(computer),
                param,
                search,
                relative,
                notes,
            );
            is_transcript(turn.stage, computer, told + turn.notes)
        }),
{
    match search {
        DataVolumeSearchFacts::Done(root) => {
            let more = notes.push(
                match root {
                    Some(root) => NoteFacts::VentoyVolumeFound(root, param.image_path),
                    None => NoteFacts::VentoyVolumeMissing(param.image_path),
                },
            );
            assert(more =~= notes + data_notes(computer));
            assert(told + more =~= (told + notes) + data_notes(computer));
            list_transcript(
                computer,
                plan::candidates_of(
                    scan::volumes_of(computer),
                    search::priorities(boot_of(computer), root),
                    relative,
                ),
                told,
                more,
            );
        },
        _ => {},
    }
}

/// What is told on taking an answer to what the search for the runtime parameter
/// asked for.
proof fn param_turn_tells(
    computer: Computer,
    relative: Seq<char>,
    boot: BootFacts,
    volumes: Seq<VolumeFacts>,
    search: ParamSearchFacts,
    told: Seq<NoteFacts>,
)
    requires
        agrees(StageFacts::VentoyParam(boot, volumes, search), computer, relative),
        is_transcript(StageFacts::VentoyParam(boot, volumes, search), computer, told),
    ensures
        ({
            let stage = StageFacts::VentoyParam(boot, volumes, search);
            is_transcript(
                next_stage(stage, computer, relative),
                computer,
                told + stage.turn(relative, computer.answer(stage.question()->0)).notes,
            )
        }),
{
    let answer = computer.answer(search.question()->0);
    let after = search.step(answer);
    let notes = search::param_notes(search, answer, after);
    let none = Seq::<NoteFacts>::empty();
    ventoy_search::param_search_stays_in_agreement(search, computer);
    assert(told + none =~= told);
    match search {
        ParamSearchFacts::Privilege => {
            assert(notes =~= privilege_notes(computer));
        },
        _ => {
            match after {
                ParamSearchFacts::Done(Some(param)) => {
                    assert(notes =~= source_notes(computer));
                    ventoy_search::data_search_starts_in_agreement(computer, volumes, param);
                    data_turn_tells(
                        computer,
                        relative,
                        param,
                        DataVolumeSearchFacts::at(volumes, param, 0),
                        told,
                        notes,
                    );
                },
                ParamSearchFacts::Done(None) => {
                    let more = notes.push(NoteFacts::VentoyNotFound);
                    assert(notes =~= none);
                    assert(more =~= source_notes(computer));
                    assert(data_notes(computer) =~= none);
                    assert(told + more =~= preamble(computer));
                    list_transcript(
                        computer,
                        plan::candidates_of(volumes, search::priorities(boot, None), relative),
                        told,
                        more,
                    );
                },
                _ => {
                    assert(notes =~= none);
                },
            }
        },
    }
}

/// At every moment of a search, what it has told is just what there is to tell of
/// the computer so far: why the boot device is not known, each volume, that the
/// boot partition is none of them, why the privilege is not held, where the
/// runtime parameter of Ventoy comes from, which volume holds the booted image,
/// and each path that was looked for, in this order and each once.
pub proof fn told_notes_are_all_there_is_to_tell(computer: Computer, relative: Seq<char>, n: nat)
    ensures
        is_transcript(
            stage_after(StageFacts::BootDevice, computer, relative, n),
            computer,
            notes_after(StageFacts::BootDevice, computer, relative, n),
        ),
    decreases n,
{
    let start = StageFacts::BootDevice;
    if n == 0 {
        assert(stage_after(start, computer, relative, 0) == start);
    } else {
        let m = (n - 1) as nat;
        let before = stage_after(start, computer, relative, m);
        told_notes_are_all_there_is_to_tell(computer, relative, m);
        stage_after_one_more(start, computer, relative, m);
        stage_after_agrees(start, computer, relative, m);
        if !(before is Done) {
            turn_goes_on_with_the_transcript(
                before,
                computer,
                relative,
                notes_after(start, computer, relative, m),
            );
        }
    }
}

/// A search that is over without failing has told each thing exactly where it
/// holds of the computer: that the boot device cannot be read or its link not be
/// resolved, and why; each volume; a boot partition that is none of them; why the
/// privilege is not held; where the runtime parameter of Ventoy was read, or that
/// there is none; and the root of the data volume, or that there is none.
pub proof fn finished_search_has_told_what_holds(
    computer: Computer,
    relative: Seq<char>,
    n: nat,
    text: Seq<char>,
    other: Seq<char>,
    status: i32,
    volume: VolumeFacts,
)
    requires
        stage_after(StageFacts::BootDevice, computer, relative, n) is Done,
        computer.logical_drives != 0,
    ensures
        ({
            let told = notes_after(StageFacts::BootDevice, computer, relative, n);
            let volumes = scan::volumes_of(computer);
            let variable = ventoy_search::param_in_variable(
                computer.ventoy_variable.0,
                computer.ventoy_variable.1,
            );
            let vtoy = ventoy_search::table_param(computer, TableName::Vtoy);
            let ibft = ventoy_search::table_param(computer, TableName::Ibft);
            let param = ventoy_search::param_of(computer);
            let root = ventoy_search::ventoy_root_of(computer, volumes);
            &&& told.contains(NoteFacts::BootDeviceUnreadable(text))
                <==> computer.firmware_boot_device == Err::<Seq<char>, Seq<char>>(text)
            &&& told.contains(NoteFacts::ArcLinkUnavailable(status)) <==> {
                &&& computer.firmware_boot_device is Ok
                &&& (computer.arc_link)(
                    device::arc_link_name(computer.firmware_boot_device->Ok_0),
                ) == Err::<Seq<char>, i32>(status)
            }
            &&& told.contains(NoteFacts::VolumeFound(volume)) <==> volumes.contains(volume)
            &&& told.contains(NoteFacts::BootPartitionUnmounted(text)) <==> {
                &&& boot_nt_path_of(computer) == Some(text)
                &&& forall|i: int|
                    0 <= i < volumes.len() ==> !volume::is_boot_volume(#[trigger] volumes[i], text)
            }
            &&& told.contains(NoteFacts::PrivilegeUnavailable(text)) <==> computer.privilege
                == Err::<(), Seq<char>>(text)
            &&& told.contains(NoteFacts::VentoyFromVariable) <==> variable is Some
            &&& told.contains(NoteFacts::VentoyFromTable(TableName::Vtoy)) <==> variable is None
                && vtoy is Some
            &&& told.contains(NoteFacts::VentoyFromTable(TableName::Ibft)) <==> variable is None
                && vtoy is None && ibft is Some
            &&& told.contains(NoteFacts::VentoyNotFound) <==> param is None
            &&& told.contains(NoteFacts::VentoyVolumeFound(text, other)) <==> {
                &&& param is Some
                &&& param->0.image_path == other
                &&& root == Some(text)
            }
            &&& told.contains(NoteFacts::VentoyVolumeMissing(text)) <==> {
                &&& param is Some
                &&& param->0.image_path == text
                &&& root is None
            }
        }),
{
    let told = notes_after(StageFacts::BootDevice, computer, relative, n);
    let volumes = scan::volumes_of(computer);
    told_notes_are_all_there_is_to_tell(computer, relative, n);
    stage_after_agrees(StageFacts::BootDevice, computer, relative, n);
    told_of_computer(computer, told, NoteFacts::BootDeviceUnreadable(text));
    told_of_computer(computer, told, NoteFacts::ArcLinkUnavailable(status));
    told_of_computer(computer, told, NoteFacts::VolumeFound(volume));
    told_of_computer(computer, told, NoteFacts::BootPartitionUnmounted(text));
    told_of_computer(computer, told, NoteFacts::PrivilegeUnavailable(text));
    told_of_computer(computer, told, NoteFacts::VentoyFromVariable);
    told_of_computer(computer, told, NoteFacts::VentoyFromTable(TableName::Vtoy));
    told_of_computer(computer, told, NoteFacts::VentoyFromTable(TableName::Ibft));
    told_of_computer(computer, told, NoteFacts::VentoyNotFound);
    told_of_computer(computer, told, NoteFacts::VentoyVolumeFound(text, other));
    told_of_computer(computer, told, NoteFacts::VentoyVolumeMissing(text));
    if volumes.contains(volume) {
        let i = volumes.index_of(volume);
        assert(volume_notes(volumes)[i] == NoteFacts::VolumeFound(volume));
    }
    if volume_notes(volumes).contains(NoteFacts::VolumeFound(volume)) {
        let i = volume_notes(volumes).index_of(NoteFacts::VolumeFound(volume));
        assert(volumes[i] == volume);
    }
}

/// A note other than of a check is told where it is one of those to tell of the
/// boot, of the volumes, of the privilege or of Ventoy.
proof fn told_of_computer(computer: Computer, told: Seq<NoteFacts>, note: NoteFacts)
    requires
        told == preamble(computer) + check_notes(checks(told)),
        !(note is Checking),
    ensures
        told.contains(note) <==> {
            ||| is_only(boot_notes(computer), note)
            ||| note is VolumeFound && volume_notes(scan::volumes_of(computer)).contains(note)
            ||| is_only(unmounted_notes(computer), note)
            ||| is_only(privilege_notes(computer), note)
            ||| is_only(source_notes(computer), note)
            ||| is_only(data_notes(computer), note)
        },
{
    let volumes = volume_notes(scan::volumes_of(computer));
    let scanned = boot_notes(computer) + volumes;
    let asked = scan_transcript(computer) + privilege_notes(computer);
    contained_in_either(preamble(computer), check_notes(checks(told)), note);
    contained_in_either(asked + source_notes(computer), data_notes(computer), note);
    contained_in_either(asked, source_notes(computer), note);
    contained_in_either(scan_transcript(computer), privilege_notes(computer), note);
    contained_in_either(scanned, unmounted_notes(computer), note);
    contained_in_either(boot_notes(computer), volumes, note);
    only_one(boot_notes(computer), note);
    only_one(unmounted_notes(computer), note);
    only_one(privilege_notes(computer), note);
    only_one(source_notes(computer), note);
    only_one(data_notes(computer), note);
    if check_notes(checks(told)).contains(note) {
        let i = check_notes(checks(told)).index_of(note);
        assert(check_notes(checks(told))[i] is Checking);
    }
    if volumes.contains(note) {
        let i = volumes.index_of(note);
        assert(volumes[i] is VolumeFound);
    }
}

/// Whether a note is the one that there is.
spec fn is_only(notes: Seq<NoteFacts>, note: NoteFacts) -> bool {
    notes.len() == 1 && notes[0] == note
}

/// Of at most one note, it is the one that is contained.
proof fn only_one(notes: Seq<NoteFacts>, note: NoteFacts)
    requires
        notes.len() <= 1,
    ensures
        notes.contains(note) <==> is_only(notes, note),
{
    if notes.len() == 1 && notes[0] == note {
        assert(notes.contains(notes[0]));
    }
}

/// Two sequences of notes behind each other contain what one of them does.
proof fn contained_in_either(a: Seq<NoteFacts>, b: Seq<NoteFacts>, note: NoteFacts)
    ensures
        (a + b).contains(note) <==> a.contains(note) || b.contains(note),
{
    if a.contains(note) {
        assert((a + b)[a.index_of(note)] == note);
    }
    if b.contains(note) {
        assert((a + b)[a.len() + b.index_of(note)] == note);
    }
    if (a + b).contains(note) {
        let i = (a + b).index_of(note);
        if i < a.len() {
            assert(a[i] == note);
        } else {
            assert(b[i - a.len()] == note);
        }
    }
}

} // verus!
