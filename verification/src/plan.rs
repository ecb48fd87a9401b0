//! The order in which the volumes are searched.

use vstd::prelude::*;

use crate::path;
use crate::text;
use crate::volume;
use crate::volume::{SearchGroup, Volume, VolumeFacts};

verus! {

/// What the groups of the volumes depend on besides the volumes themselves.
pub struct Priorities {
    /// The NT path of the booted partition.
    pub boot_nt_path: Option<Seq<char>>,
    /// The disk that was booted from.
    pub boot_disk: Option<u32>,
    /// The root of the Ventoy data volume.
    pub ventoy_root: Option<Seq<char>>,
}

/// What decides when a volume is searched.
pub struct Place {
    /// The group of the volume.
    pub group: SearchGroup,
    /// The root of the volume.
    pub root: Seq<char>,
}

/// The place of a volume.
pub open spec fn place_of(volume: VolumeFacts, priorities: Priorities) -> Place {
    Place {
        group: volume::group_of(
            volume,
            priorities.boot_nt_path,
            priorities.boot_disk,
            priorities.ventoy_root,
        ),
        root: volume.root,
    }
}

/// The places of volumes.
pub open spec fn places_of(volumes: Seq<VolumeFacts>, priorities: Priorities) -> Seq<Place> {
    volumes.map_values(|volume: VolumeFacts| place_of(volume, priorities))
}

/// Whether place `a` comes before place `b`.
pub open spec fn place_before(a: Place, b: Place) -> bool {
    volume::searched_before(a.group, a.root, b.group, b.root)
}

/// Whether volume `i` is searched before volume `j`: by their places and, at
/// one place, in the order in which they are given.
pub open spec fn comes_first(places: Seq<Place>, i: int, j: int) -> bool {
    place_before(places[i], places[j]) || (places[i] == places[j] && i < j)
}

/// Whether `order` names each of the places once, in the order of the search.
pub open spec fn is_search_order(places: Seq<Place>, order: Seq<int>) -> bool {
    &&& order.len() == places.len()
    &&& forall|a: int| 0 <= a < order.len() ==> 0 <= #[trigger] order[a] < places.len()
    &&& forall|i: int| 0 <= i < places.len() ==> #[trigger] order.contains(i)
    &&& forall|a: int, b: int|
        0 <= a < b < order.len() ==> comes_first(places, #[trigger] order[a], #[trigger] order[b])
}

/// The order in which the places are searched.
pub open spec fn search_order(places: Seq<Place>) -> Seq<int> {
    choose|order: Seq<int>| is_search_order(places, order)
}

/// A path to look for, with the group of its volume.
#[derive(Debug)]
pub struct Candidate {
    /// The group of the volume.
    pub group: SearchGroup,
    /// The full path on the volume.
    pub path: String,
}

/// What a candidate says.
pub struct CandidateFacts {
    pub group: SearchGroup,
    pub path: Seq<char>,
}

impl View for Candidate {
    type V = CandidateFacts;

    open spec fn view(&self) -> CandidateFacts {
        CandidateFacts { group: self.group, path: self.path@ }
    }
}

impl Candidate {
    /// A second copy of the candidate.
    pub fn copied(&self) -> (r: Candidate)
        ensures
            r@ == self@,
    {
        Candidate { group: self.group, path: self.path.clone() }
    }
}

/// What each of `list` says.
pub open spec fn candidate_facts(list: Seq<Candidate>) -> Seq<CandidateFacts> {
    list.map_values(|candidate: Candidate| candidate@)
}

/// The path to look for on a volume.
pub open spec fn candidate_on(
    volume: VolumeFacts,
    priorities: Priorities,
    relative: Seq<char>,
) -> CandidateFacts {
    CandidateFacts {
        group: place_of(volume, priorities).group,
        path: path::entry_path(volume.root, relative),
    }
}

/// The paths to look for, in the order of the search.
pub open spec fn candidates_of(
    volumes: Seq<VolumeFacts>,
    priorities: Priorities,
    relative: Seq<char>,
) -> Seq<CandidateFacts> {
    search_order(places_of(volumes, priorities)).map_values(
        |i: int| candidate_on(volumes[i], priorities, relative),
    )
}

/// The paths to look for, in the order of the search.
pub fn candidates(
    volumes: &Vec<Volume>,
    boot_nt_path: Option<&str>,
    boot_disk: Option<u32>,
    ventoy_root: Option<&str>,
    relative: &str,
) -> (list: Vec<Candidate>)
    ensures
        candidate_facts(list@) == candidates_of(
            volume::facts(volumes@),
            (Priorities {
                boot_nt_path: text::optional_str(boot_nt_path),
                boot_disk,
                ventoy_root: text::optional_str(ventoy_root),
            }),
            relative@,
        ),
{
    let ghost all = volume::facts(volumes@);
    let ghost priorities = Priorities {
        boot_nt_path: text::optional_str(boot_nt_path),
        boot_disk,
        ventoy_root: text::optional_str(ventoy_root),
    };
    let ghost places = places_of(all, priorities);
    let mut groups: Vec<SearchGroup> = Vec::new();
    let mut roots: Vec<Vec<char>> = Vec::new();
    let mut i: usize = 0;
    while i < volumes.len()
        invariant
            i <= volumes.len(),
            all == volume::facts(volumes@),
            priorities == (Priorities {
                boot_nt_path: text::optional_str(boot_nt_path),
                boot_disk,
                ventoy_root: text::optional_str(ventoy_root),
            }),
            places == places_of(all, priorities),
            groups.len() == i,
            roots.len() == i,
            forall|k: int|
                0 <= k < i ==> (#[trigger] places[k]).group == groups@[k] && places[k].root
                    == roots@[k]@,
        decreases volumes.len() - i,
    {
        assert(all[i as int] == volumes@[i as int]@);
        groups.push(volume::classify(&volumes[i], boot_nt_path, boot_disk, ventoy_root));
        roots.push(text::chars_of(&volumes[i].root));
        i = i + 1;
    }
    let order = sorted(&groups, &roots);
    let ghost indices = order@.map_values(|i: usize| i as int);
    proof {
        assert(places_from(groups@, roots@) =~= places);
        search_order_is_unique(places, indices, search_order(places));
    }
    let mut list: Vec<Candidate> = Vec::new();
    let mut k: usize = 0;
    while k < order.len()
        invariant
            k <= order.len(),
            all == volume::facts(volumes@),
            all.len() == groups.len(),
            places == places_of(all, priorities),
            forall|k: int| 0 <= k < groups.len() ==> (#[trigger] places[k]).group == groups@[k],
            indices == order@.map_values(|i: usize| i as int),
            is_search_order(places, indices),
            list.len() == k,
            forall|a: int|
                0 <= a < k ==> (#[trigger] list@[a])@ == candidate_on(
                    all[indices[a]],
                    priorities,
                    relative@,
                ),
        decreases order.len() - k,
    {
        let at: usize = order[k];
        assert(indices[k as int] == at);
        assert(all[at as int] == volumes@[at as int]@);
        assert(places[at as int].group == groups@[at as int]);
        list.push(
            Candidate { group: groups[at], path: path::join_entry(&volumes[at].root, relative) },
        );
        k = k + 1;
    }
    assert(candidate_facts(list@) =~= candidates_of(all, priorities, relative@));
    list
}

/// The places made of groups and roots.
pub open spec fn places_from(groups: Seq<SearchGroup>, roots: Seq<Vec<char>>) -> Seq<Place> {
    Seq::new(groups.len(), |i: int| Place { group: groups[i], root: roots[i]@ })
}

/// Sorts places by group and root and keeps the order of equal ones.
fn sorted(groups: &Vec<SearchGroup>, roots: &Vec<Vec<char>>) -> (order: Vec<usize>)
    requires
        groups.len() == roots.len(),
    ensures
        is_search_order(places_from(groups@, roots@), order@.map_values(|i: usize| i as int)),
{
    let ghost places = places_from(groups@, roots@);
    let mut order: Vec<usize> = Vec::new();
    let mut i: usize = 0;
    assert(is_search_order(places.take(0), order@.map_values(|i: usize| i as int)));
    while i < groups.len()
        invariant
            i <= groups.len(),
            groups.len() == roots.len(),
            places == places_from(groups@, roots@),
            is_search_order(places.take(i as int), order@.map_values(|i: usize| i as int)),
        decreases groups.len() - i,
    {
        let ghost before = order@.map_values(|i: usize| i as int);
        let ghost known = places.take(i + 1);
        assert(known.drop_last() == places.take(i as int));
        assert forall|a: int| 0 <= a < i implies #[trigger] order@[a] < i by {
            assert(before[a] == order@[a]);
        }
        let mut at: usize = i;
        while at > 0 && goes_before(
            groups[i],
            &roots[i],
            groups[order[at - 1]],
            &roots[order[at - 1]],
        )
            invariant
                at <= i < groups.len(),
                groups.len() == roots.len(),
                places == places_from(groups@, roots@),
                known == places.take(i + 1),
                order.len() == i,
                before == order@.map_values(|i: usize| i as int),
                forall|a: int| 0 <= a < i ==> #[trigger] order@[a] < i,
                forall|a: int|
                    at <= a < i ==> comes_first(known, i as int, #[trigger] before[a]),
            decreases at,
        {
            at = at - 1;
            assert(before[at as int] == order@[at as int]);
        }
        proof {
            if at > 0 {
                let last = before[at - 1];
                assert(last == order@[at - 1]);
                place_total(known[last], known[i as int]);
                assert(comes_first(known, last, i as int));
            }
            insert_keeps_order(known, before, at as int);
        }
        order.insert(at, i);
        assert(order@.map_values(|i: usize| i as int) =~= before.insert(at as int, i as int));
        i = i + 1;
    }
    assert(places.take(i as int) == places);
    order
}

/// Putting the last place where it belongs among the others keeps the order.
proof fn insert_keeps_order(places: Seq<Place>, order: Seq<int>, at: int)
    requires
        places.len() > 0,
        is_search_order(places.drop_last(), order),
        0 <= at <= order.len(),
        at > 0 ==> comes_first(places, order[at - 1], places.len() - 1),
        forall|a: int|
            at <= a < order.len() ==> comes_first(places, places.len() - 1, #[trigger] order[a]),
    ensures
        is_search_order(places, order.insert(at, places.len() - 1)),
{
    let i = places.len() - 1;
    let longer = order.insert(at, i);
    assert forall|k: int| 0 <= k < places.len() implies #[trigger] longer.contains(k) by {
        if k == i {
            assert(longer[at] == i);
        } else {
            assert(order.contains(k));
            let p = order.index_of(k);
            if p < at {
                assert(longer[p] == k);
            } else {
                assert(longer[p + 1] == k);
            }
        }
    }
    assert forall|a: int| 0 <= a < longer.len() implies 0 <= #[trigger] longer[a]
        < places.len() by {
        if a < at {
            assert(longer[a] == order[a]);
        } else if a > at {
            assert(longer[a] == order[a - 1]);
        }
    }
    assert forall|a: int, b: int| 0 <= a < b < longer.len() implies comes_first(
        places,
        #[trigger] longer[a],
        #[trigger] longer[b],
    ) by {
        if b < at {
            assert(longer[a] == order[a] && longer[b] == order[b]);
            assert(comes_first(places.drop_last(), order[a], order[b]));
        } else if b == at {
            assert(longer[a] == order[a]);
            if a < at - 1 {
                assert(comes_first(places.drop_last(), order[a], order[at - 1]));
                comes_first_transitive(places, order[a], order[at - 1], i);
            }
        } else if a == at {
            assert(longer[b] == order[b - 1]);
        } else if a < at {
            assert(longer[a] == order[a] && longer[b] == order[b - 1]);
            assert(comes_first(places.drop_last(), order[a], order[b - 1]));
        } else {
            assert(longer[a] == order[a - 1] && longer[b] == order[b - 1]);
            assert(comes_first(places.drop_last(), order[a - 1], order[b - 1]));
        }
    }
}

/// Where the last place belongs among the first `at` of the others, all behind
/// which come after it.
proof fn last_place_belongs(places: Seq<Place>, order: Seq<int>, at: int) -> (r: int)
    requires
        places.len() > 0,
        is_search_order(places.drop_last(), order),
        0 <= at <= order.len(),
        forall|a: int|
            at <= a < order.len() ==> comes_first(places, places.len() - 1, #[trigger] order[a]),
    ensures
        0 <= r <= at,
        r > 0 ==> comes_first(places, order[r - 1], places.len() - 1),
        forall|a: int|
            r <= a < order.len() ==> comes_first(places, places.len() - 1, #[trigger] order[a]),
    decreases at,
{
    if at == 0 || comes_first(places, order[at - 1], places.len() - 1) {
        at
    } else {
        comes_first_total(places, order[at - 1], places.len() - 1);
        last_place_belongs(places, order, at - 1)
    }
}

/// Any volumes can be searched in order: each of them once, and each after
/// those that come first.
pub proof fn search_order_exists(places: Seq<Place>)
    ensures
        is_search_order(places, search_order(places)),
    decreases places.len(),
{
    if places.len() == 0 {
        assert(is_search_order(places, Seq::<int>::empty()));
    } else {
        let before = search_order(places.drop_last());
        search_order_exists(places.drop_last());
        let at = last_place_belongs(places, before, before.len() as int);
        insert_keeps_order(places, before, at);
        assert(is_search_order(places, before.insert(at, places.len() - 1)));
    }
}

/// Whether one place comes before another.
fn goes_before(
    group_a: SearchGroup,
    root_a: &Vec<char>,
    group_b: SearchGroup,
    root_b: &Vec<char>,
) -> (r: bool)
    ensures
        r == place_before(
            (Place { group: group_a, root: root_a@ }),
            (Place { group: group_b, root: root_b@ }),
        ),
{
    proof {
        volume::groups_have_one_place_each(group_a, group_b);
    }
    let a: u8 = group_a.place();
    let b: u8 = group_b.place();
    a < b || (a == b && text::comes_before(root_a, root_b))
}

/// Of two different places one comes before the other.
pub proof fn place_total(a: Place, b: Place)
    ensures
        place_before(a, b) || place_before(b, a) || a == b,
{
    volume::groups_have_one_place_each(a.group, b.group);
    text::precedes_total(a.root, b.root);
}

/// The order of the places is transitive.
pub proof fn place_transitive(a: Place, b: Place, c: Place)
    requires
        place_before(a, b),
        place_before(b, c),
    ensures
        place_before(a, c),
{
    if a.group == b.group && b.group == c.group {
        text::precedes_transitive(a.root, b.root, c.root);
    }
}

/// No place comes before itself.
pub proof fn place_irreflexive(a: Place)
    ensures
        !place_before(a, a),
{
    text::precedes_irreflexive(a.root);
}

/// The order of the search is transitive.
pub proof fn comes_first_transitive(places: Seq<Place>, i: int, j: int, k: int)
    requires
        comes_first(places, i, j),
        comes_first(places, j, k),
    ensures
        comes_first(places, i, k),
{
    if place_before(places[i], places[j]) && place_before(places[j], places[k]) {
        place_transitive(places[i], places[j], places[k]);
    }
}

/// Of two volumes only one can come before the other.
pub proof fn comes_first_asymmetric(places: Seq<Place>, i: int, j: int)
    requires
        comes_first(places, i, j),
    ensures
        !comes_first(places, j, i),
        i != j,
{
    place_irreflexive(places[i]);
    place_irreflexive(places[j]);
    if comes_first(places, j, i) {
        comes_first_transitive(places, i, j, i);
    }
}

/// Of two volumes one comes before the other.
pub proof fn comes_first_total(places: Seq<Place>, i: int, j: int)
    requires
        i != j,
    ensures
        comes_first(places, i, j) || comes_first(places, j, i),
{
    place_total(places[i], places[j]);
}

/// There is no more than one order of the search.
pub proof fn search_order_is_unique(places: Seq<Place>, a: Seq<int>, b: Seq<int>)
    requires
        is_search_order(places, a),
        is_search_order(places, b),
    ensures
        a == b,
{
    assert forall|k: int| 0 <= k < a.len() implies a[k] == b[k] by {
        same_order_up_to(places, a, b, k + 1);
    }
    assert(a =~= b);
}

/// Two orders of one search agree on their first `n` places.
proof fn same_order_up_to(places: Seq<Place>, a: Seq<int>, b: Seq<int>, n: int)
    requires
        is_search_order(places, a),
        is_search_order(places, b),
        0 <= n <= a.len(),
    ensures
        forall|k: int| 0 <= k < n ==> a[k] == b[k],
    decreases n,
{
    if n > 0 {
        same_order_up_to(places, a, b, n - 1);
        let k = n - 1;
        if a[k] != b[k] {
            assert(b.contains(a[k]));
            assert(a.contains(b[k]));
            let p = b.index_of(a[k]);
            let q = a.index_of(b[k]);
            if p < k {
                assert(a[p] == a[k]);
                comes_first_asymmetric(places, a[p], a[k]);
            }
            if q < k {
                assert(b[q] == b[k]);
                comes_first_asymmetric(places, b[q], b[k]);
            }
            assert(comes_first(places, b[k], b[p]));
            assert(comes_first(places, a[k], a[q]));
            comes_first_asymmetric(places, a[k], b[k]);
        }
    }
}

/// Whether `order` sorts volumes as a search takes them: by the place of their
/// group, then by their roots, and equal ones as they are given.
pub open spec fn sorts_volumes(
    volumes: Seq<VolumeFacts>,
    priorities: Priorities,
    order: Seq<int>,
) -> bool {
    &&& order.len() == volumes.len()
    &&& order.no_duplicates()
    &&& forall|a: int| 0 <= a < order.len() ==> 0 <= #[trigger] order[a] < volumes.len()
    &&& forall|a: int, b: int|
        0 <= a < b < order.len() ==> {
            let first = volumes[#[trigger] order[a]];
            let second = volumes[#[trigger] order[b]];
            let rank_a = group_in(first, priorities).rank();
            let rank_b = group_in(second, priorities).rank();
            ||| rank_a < rank_b
            ||| rank_a == rank_b && text::precedes(first.root, second.root)
            ||| rank_a == rank_b && first.root == second.root && order[a] < order[b]
        }
}

/// The group of a volume under priorities.
pub open spec fn group_in(volume: VolumeFacts, priorities: Priorities) -> SearchGroup {
    volume::group_of(
        volume,
        priorities.boot_nt_path,
        priorities.boot_disk,
        priorities.ventoy_root,
    )
}

/// There is one path to look for on every volume and no other, in the order of
/// the places of the groups and of the roots within a group.
pub proof fn every_volume_has_one_candidate_in_order(
    volumes: Seq<VolumeFacts>,
    priorities: Priorities,
    relative: Seq<char>,
)
    ensures
        exists|order: Seq<int>|
            {
                let list = candidates_of(volumes, priorities, relative);
                &&& #[trigger] sorts_volumes(volumes, priorities, order)
                &&& list.len() == volumes.len()
                &&& forall|a: int|
                    0 <= a < list.len() ==> {
                        &&& (#[trigger] list[a]).path == path::entry_path(
                            volumes[order[a]].root,
                            relative,
                        )
                        &&& list[a].group == group_in(volumes[order[a]], priorities)
                    }
            },
{
    let places = places_of(volumes, priorities);
    let order = search_order(places);
    let list = candidates_of(volumes, priorities, relative);
    search_order_exists(places);
    assert forall|a: int, b: int| 0 <= a < order.len() && 0 <= b < order.len() && a
        != b implies order[a] != order[b] by {
        if a < b {
            comes_first_asymmetric(places, order[a], order[b]);
        } else {
            comes_first_asymmetric(places, order[b], order[a]);
        }
    }
    assert forall|a: int, b: int| 0 <= a < b < order.len() implies {
        let first = volumes[#[trigger] order[a]];
        let second = volumes[#[trigger] order[b]];
        let rank_a = group_in(first, priorities).rank();
        let rank_b = group_in(second, priorities).rank();
        ||| rank_a < rank_b
        ||| rank_a == rank_b && text::precedes(first.root, second.root)
        ||| rank_a == rank_b && first.root == second.root && order[a] < order[b]
    } by {
        assert(comes_first(places, order[a], order[b]));
    }
    assert(sorts_volumes(volumes, priorities, order));
    assert forall|a: int| 0 <= a < list.len() implies {
        &&& (#[trigger] list[a]).path == path::entry_path(volumes[order[a]].root, relative)
        &&& list[a].group == group_in(volumes[order[a]], priorities)
    } by {
        assert(list[a] == candidate_on(volumes[order[a]], priorities, relative));
    }
}

/// What candidates say is what they hold, in their order.
pub proof fn candidates_say_what_they_hold(candidate: Candidate, list: Seq<Candidate>)
    ensures
        candidate@.group == candidate.group,
        candidate@.path == candidate.path@,
        candidate_facts(list).len() == list.len(),
        forall|i: int| 0 <= i < list.len() ==> #[trigger] candidate_facts(list)[i] == list[i]@,
{
}

} // verus!
