//! Paths below the root of a volume.

use vstd::prelude::*;

use crate::text;

verus! {

/// Why a path cannot be searched for below the root of a volume.
#[derive(Clone, Copy, Debug, PartialEq, Eq, Structural)]
pub enum PathError {
    /// The path is empty, starts with a separator or names a drive.
    NotRelative,
    /// A component of the path is empty, `.` or `..`.
    BadComponent,
}

impl PathError {
    /// What the error says to the user.
    pub open spec fn text(self) -> Seq<char> {
        match self {
            PathError::NotRelative => "path must be relative to a volume root"@,
            PathError::BadComponent => "path must not contain empty, '.' or '..' components"@,
        }
    }

    /// What the error says to the user.
    pub fn message(&self) -> (r: String)
        ensures
            r@ == self.text(),
    {
        match self {
            PathError::NotRelative => "path must be relative to a volume root".to_owned(),
            PathError::BadComponent => {
                "path must not contain empty, '.' or '..' components".to_owned()
            },
        }
    }
}

/// The pieces of `path` between its separators, in order. There is one more
/// of them than there are separators, and some may be empty.
pub open spec fn components(path: Seq<char>) -> Seq<Seq<char>>
    decreases path.len(),
{
    if path.len() == 0 {
        seq![Seq::<char>::empty()]
    } else {
        let before = components(path.drop_last());
        if text::is_separator(path.last()) {
            before.push(Seq::<char>::empty())
        } else {
            before.drop_last().push(before.last().push(path.last()))
        }
    }
}

/// Whether a path is empty, starts with a separator or holds a colon.
pub open spec fn leaves_the_root(path: Seq<char>) -> bool {
    path.len() == 0 || text::is_separator(path[0]) || path.contains(':')
}

/// Whether a component names no entry of its directory: it is empty, `.` or `..`.
pub open spec fn is_bad_component(component: Seq<char>) -> bool {
    component.len() == 0 || component == seq!['.'] || component == seq!['.', '.']
}

/// Whether some component of `path` is empty, `.` or `..`.
pub open spec fn has_bad_component(path: Seq<char>) -> bool {
    exists|i: int|
        0 <= i < components(path).len() && is_bad_component(#[trigger] components(path)[i])
}

/// Whether `path` names an entry below the root that it is taken from.
pub open spec fn is_relative(path: Seq<char>) -> bool {
    !leaves_the_root(path) && !has_bad_component(path)
}

/// The full path of the entry `relative` of the volume mounted at `root`.
pub open spec fn entry_path(root: Seq<char>, relative: Seq<char>) -> Seq<char> {
    root + text::backslashed(relative)
}

/// Checks that a path is relative to the root of a volume.
///
/// * `Ok(())`: it is;
/// * `Err(PathError::NotRelative)`: it is empty, starts with a separator or
///   holds a colon;
/// * `Err(PathError::BadComponent)`: otherwise, where one of its components is
///   empty, `.` or `..`.
pub fn validate_relative_path(path: &str) -> (r: Result<(), PathError>)
    ensures
        r is Ok <==> is_relative(path@),
        r == Err::<(), PathError>(PathError::NotRelative) <==> leaves_the_root(path@),
        r == Err::<(), PathError>(PathError::BadComponent) <==> !leaves_the_root(path@)
            && has_bad_component(path@),
{
    let chars = text::chars_of(path);
    validate(&chars)
}

/// [`validate_relative_path`] on the characters of a path.
pub fn validate(path: &[char]) -> (r: Result<(), PathError>)
    ensures
        r is Ok <==> is_relative(path@),
        r == Err::<(), PathError>(PathError::NotRelative) <==> leaves_the_root(path@),
        r == Err::<(), PathError>(PathError::BadComponent) <==> !leaves_the_root(path@)
            && has_bad_component(path@),
{
    if path.len() == 0 || text::separator(path[0]) || holds_colon(path) {
        return Err(PathError::NotRelative);
    }
    let mut start: usize = 0;
    let mut i: usize = 0;
    let ghost mut done: Seq<Seq<char>> = Seq::empty();
    proof {
        assert(path@.take(0) =~= Seq::<char>::empty());
        assert(components(path@.take(0)) =~= done.push(path@.subrange(0, 0)));
    }
    while i < path.len()
        invariant
            start <= i <= path.len(),
            !leaves_the_root(path@),
            components(path@.take(i as int)) == done.push(path@.subrange(start as int, i as int)),
            forall|k: int| 0 <= k < done.len() ==> !is_bad_component(#[trigger] done[k]),
        decreases path.len() - i,
    {
        let ghost current = path@.subrange(start as int, i as int);
        assert(path@.take(i + 1).drop_last() == path@.take(i as int));
        if text::separator(path[i]) {
            assert(components(path@.take(i + 1)) == done.push(current).push(Seq::<char>::empty()));
            if bad_component(vstd::slice::slice_subrange(path, start, i)) {
                proof {
                    components_of_prefix(path@, i + 1);
                    assert(components(path@.take(i + 1))[done.len() as int] == current);
                    assert(is_bad_component(components(path@)[done.len() as int]));
                }
                return Err(PathError::BadComponent);
            }
            proof {
                done = done.push(current);
            }
            start = i + 1;
            assert(path@.subrange(start as int, i + 1) == Seq::<char>::empty());
        } else {
            assert(done.push(current).drop_last() == done);
            assert(path@.subrange(start as int, i + 1) == current.push(path@[i as int]));
        }
        i = i + 1;
    }
    assert(path@.take(i as int) == path@);
    let ghost last = path@.subrange(start as int, path@.len() as int);
    if bad_component(vstd::slice::slice_subrange(path, start, path.len())) {
        assert(components(path@)[done.len() as int] == last);
        return Err(PathError::BadComponent);
    }
    assert forall|k: int| 0 <= k < components(path@).len() implies !is_bad_component(
        #[trigger] components(path@)[k],
    ) by {
        if k < done.len() {
            assert(components(path@)[k] == done[k]);
        }
    }
    Ok(())
}

/// The components of the first `i` characters of a path are components of the
/// path itself, but for the last of them, which may go on.
proof fn components_of_prefix(path: Seq<char>, i: int)
    requires
        0 <= i <= path.len(),
    ensures
        1 <= components(path.take(i)).len() <= components(path).len(),
        forall|k: int|
            0 <= k < components(path.take(i)).len() - 1 ==> components(path.take(i))[k]
                == #[trigger] components(path)[k],
    decreases path.len(),
{
    if i == path.len() {
        assert(path.take(i) == path);
        components_nonempty(path);
    } else {
        components_of_prefix(path.drop_last(), i);
        assert(path.drop_last().take(i) == path.take(i));
    }
}

/// A path has at least one component.
proof fn components_nonempty(path: Seq<char>)
    ensures
        components(path).len() >= 1,
    decreases path.len(),
{
    if path.len() > 0 {
        components_nonempty(path.drop_last());
    }
}

/// Whether a component is empty, `.` or `..`.
fn bad_component(component: &[char]) -> (r: bool)
    ensures
        r == is_bad_component(component@),
{
    assert(component@ =~= seq!['.'] <==> component@.len() == 1 && component@[0] == '.');
    assert(component@ =~= seq!['.', '.'] <==> component@.len() == 2 && component@[0] == '.'
        && component@[1] == '.');
    component.len() == 0 || (component.len() == 1 && component[0] == '.') || (component.len() == 2
        && component[0] == '.' && component[1] == '.')
}

/// Whether a path holds a colon.
fn holds_colon(path: &[char]) -> (r: bool)
    ensures
        r == path@.contains(':'),
{
    let mut i: usize = 0;
    while i < path.len()
        invariant
            i <= path.len(),
            forall|j: int| 0 <= j < i ==> path@[j] != ':',
        decreases path.len() - i,
    {
        if path[i] == ':' {
            return true;
        }
        i = i + 1;
    }
    false
}

/// Joins the root of a volume and a path below it.
pub fn join_entry(root: &str, relative: &str) -> (r: String)
    ensures
        r@ == entry_path(root@, relative@),
{
    let relative = text::chars_of(relative);
    let relative = text::text_of(&text::to_backslashes(&relative));
    text::join(root, &relative)
}

/// The attributes that Windows gives for a path at which there is nothing.
pub const INVALID_FILE_ATTRIBUTES: u32 = 0xFFFF_FFFF;

/// Whether there is a file or a directory at a path, from the attributes that
/// Windows gives for it.
pub fn attributes_found(attributes: u32) -> (r: bool)
    ensures
        r == (attributes != INVALID_FILE_ATTRIBUTES),
{
    attributes != INVALID_FILE_ATTRIBUTES
}

/// How many levels below its start one arrives by following `steps`: `..` goes
/// up one level, `.` and the empty component stay, any other goes down one.
pub open spec fn level(steps: Seq<Seq<char>>) -> int
    decreases steps.len(),
{
    if steps.len() == 0 {
        0
    } else {
        let before = level(steps.drop_last());
        if steps.last() == seq!['.', '.'] {
            before - 1
        } else if is_bad_component(steps.last()) {
            before
        } else {
            before + 1
        }
    }
}

/// A path that was accepted never climbs: whoever follows its components goes
/// down one level with each of them, and so never stands above the volume root.
pub proof fn accepted_path_stays_below_root(path: Seq<char>, steps: int)
    requires
        is_relative(path),
        0 <= steps <= components(path).len(),
    ensures
        level(components(path).take(steps)) == steps,
    decreases steps,
{
    if steps > 0 {
        accepted_path_stays_below_root(path, steps - 1);
        assert(components(path).take(steps).drop_last() == components(path).take(steps - 1));
        assert(!is_bad_component(components(path)[steps - 1]));
    }
}

/// Writing `/` as `\` changes no component of a path.
pub proof fn backslashes_keep_components(path: Seq<char>)
    ensures
        components(text::backslashed(path)) == components(path),
    decreases path.len(),
{
    let written = text::backslashed(path);
    if path.len() > 0 {
        backslashes_keep_components(path.drop_last());
        assert(written.drop_last() == text::backslashed(path.drop_last()));
    } else {
        assert(written == path);
    }
}

/// A path is accepted with `/` exactly where it is accepted with `\`, and what
/// was written with `\` once is not changed by writing it so again.
pub proof fn backslashes_keep_relative(path: Seq<char>)
    ensures
        is_relative(text::backslashed(path)) == is_relative(path),
        text::backslashed(text::backslashed(path)) == text::backslashed(path),
{
    let written = text::backslashed(path);
    backslashes_keep_components(path);
    assert(text::backslashed(written) =~= written);
    if path.contains(':') {
        let i = path.index_of(':');
        assert(written[i] == ':');
    }
    if written.contains(':') {
        let i = written.index_of(':');
        assert(path[i] == ':');
    }
}

/// The components of two paths with a separator between them are those of the
/// first followed by those of the second.
pub proof fn joined_components(first: Seq<char>, separator: char, second: Seq<char>)
    requires
        text::is_separator(separator),
    ensures
        components(first.push(separator) + second) == components(first) + components(second),
    decreases second.len(),
{
    let joined = first.push(separator) + second;
    if second.len() == 0 {
        assert(joined == first.push(separator));
        assert(joined.drop_last() == first);
        assert(components(joined) == components(first) + components(second));
    } else {
        joined_components(first, separator, second.drop_last());
        components_nonempty(second.drop_last());
        assert(joined.drop_last() == first.push(separator) + second.drop_last());
        assert(components(joined) == components(first) + components(second));
    }
}

/// Two paths with a separator between them are accepted exactly where both of
/// them are.
pub proof fn joined_path_is_relative(first: Seq<char>, separator: char, second: Seq<char>)
    requires
        text::is_separator(separator),
    ensures
        is_relative(first.push(separator) + second) <==> is_relative(first) && is_relative(second),
{
    let joined = first.push(separator) + second;
    let all = components(joined);
    joined_components(first, separator, second);
    assert forall|i: int| 0 <= i < components(first).len() implies all[i] == #[trigger] components(
        first,
    )[i] by {}
    assert forall|i: int| 0 <= i < components(second).len() implies all[components(first).len() + i]
        == #[trigger] components(second)[i] by {}
    assert(has_bad_component(joined) == (has_bad_component(first) || has_bad_component(second)))
        by {
        if has_bad_component(joined) {
            let i = choose|i: int| 0 <= i < all.len() && is_bad_component(#[trigger] all[i]);
            if i < components(first).len() {
                assert(is_bad_component(components(first)[i]));
            } else {
                assert(is_bad_component(components(second)[i - components(first).len()]));
            }
        }
        if has_bad_component(first) {
            let i = choose|i: int|
                0 <= i < components(first).len() && is_bad_component(
                    #[trigger] components(first)[i],
                );
            assert(is_bad_component(all[i]));
        }
        if has_bad_component(second) {
            let i = choose|i: int|
                0 <= i < components(second).len() && is_bad_component(
                    #[trigger] components(second)[i],
                );
            assert(is_bad_component(all[components(first).len() + i]));
        }
    }
    assert(joined.contains(':') == (first.contains(':') || second.contains(':'))) by {
        if joined.contains(':') {
            let i = joined.index_of(':');
            if i < first.len() {
                assert(first[i] == ':');
            } else {
                assert(second[i - first.len() - 1] == ':');
            }
        }
        if first.contains(':') {
            assert(joined[first.index_of(':')] == ':');
        }
        if second.contains(':') {
            assert(joined[first.len() + 1 + second.index_of(':')] == ':');
        }
    }
    if first.len() > 0 {
        assert(joined[0] == first[0]);
    } else {
        assert(joined[0] == separator);
    }
    if second.len() == 0 || text::is_separator(second[0]) {
        first_component_is_empty(second);
        assert(has_bad_component(second)) by {
            assert(is_bad_component(components(second)[0]));
        }
    }
}

/// The first component of a path that is empty or starts with a separator is
/// empty.
proof fn first_component_is_empty(path: Seq<char>)
    requires
        path.len() == 0 || text::is_separator(path[0]),
    ensures
        components(path).len() >= 1,
        components(path)[0].len() == 0,
    decreases path.len(),
{
    if path.len() > 0 {
        first_component_is_empty(path.drop_last());
        if path.len() == 1 {
            assert(path.drop_last() == Seq::<char>::empty());
        } else {
            assert(path.drop_last()[0] == path[0]);
            second_component_follows(path.drop_last());
        }
    }
}

/// A path that starts with a separator has at least two components.
proof fn second_component_follows(path: Seq<char>)
    requires
        path.len() > 0,
        text::is_separator(path[0]),
    ensures
        components(path).len() >= 2,
    decreases path.len(),
{
    components_nonempty(path.drop_last());
    if path.len() > 1 {
        assert(path.drop_last()[0] == path[0]);
        second_component_follows(path.drop_last());
    }
}

/// The full path of an entry is the root followed by the components of the
/// entry, with `\` as the only separator between them.
pub proof fn entry_path_has_no_slash(root: Seq<char>, relative: Seq<char>)
    requires
        !root.contains('/'),
    ensures
        !entry_path(root, relative).contains('/'),
        root.is_prefix_of(entry_path(root, relative)),
        components(entry_path(root, relative).skip(root.len() as int)) == components(relative),
{
    let full = entry_path(root, relative);
    assert forall|i: int| 0 <= i < full.len() implies full[i] != '/' by {
        if i < root.len() {
            assert(root[i] == full[i]);
        }
    }
    assert(full.skip(root.len() as int) == text::backslashed(relative));
    backslashes_keep_components(relative);
}

/// Whether a component can start at position `i` of a path: at its start or
/// right behind a slash or a backslash.
pub open spec fn starts_component(path: Seq<char>, i: int) -> bool {
    i == 0 || path[i - 1] == '/' || path[i - 1] == '\\'
}

/// Whether a component that reaches position `i` of a path ends there: at the
/// end of the path or before a slash or a backslash.
pub open spec fn ends_component(path: Seq<char>, i: int) -> bool {
    i == path.len() || path[i] == '/' || path[i] == '\\'
}

/// Whether component `k` of a path is what stands from position `i` up to
/// position `j`.
pub open spec fn is_component_at(path: Seq<char>, k: int, i: int, j: int) -> bool {
    &&& 0 <= i <= j <= path.len()
    &&& starts_component(path, i)
    &&& ends_component(path, j)
    &&& forall|p: int| i <= p < j ==> #[trigger] path[p] != '/' && path[p] != '\\'
    &&& 0 <= k < components(path).len()
    &&& components(path)[k] == path.subrange(i, j)
    &&& k == components(path).len() - 1 <==> j == path.len()
}

/// Every component of a path is a piece of it between two separators or ends,
/// with no separator in it.
pub proof fn component_is_a_piece(path: Seq<char>, k: int)
    requires
        0 <= k < components(path).len(),
    ensures
        exists|i: int, j: int| is_component_at(path, k, i, j),
    decreases path.len(),
{
    if path.len() == 0 {
        assert(path.subrange(0, 0) == Seq::<char>::empty());
        assert(is_component_at(path, 0, 0, 0));
    } else {
        let before = path.drop_last();
        let pieces = components(before);
        let n = path.len() as int;
        components_nonempty(before);
        if text::is_separator(path.last()) {
            if k == pieces.len() {
                assert(path.subrange(n, n) == Seq::<char>::empty());
                assert(is_component_at(path, k, n, n));
            } else {
                component_is_a_piece(before, k);
                let (i, j) = choose|i: int, j: int| is_component_at(before, k, i, j);
                piece_stays(path, k, i, j);
            }
        } else {
            component_is_a_piece(before, k);
            let (i, j) = choose|i: int, j: int| is_component_at(before, k, i, j);
            if k < pieces.len() - 1 {
                piece_stays(path, k, i, j);
            } else {
                piece_grows(path, k, i);
            }
        }
    }
}

/// Every position at which a component can start is the start of one.
pub proof fn piece_is_a_component(path: Seq<char>, i: int)
    requires
        0 <= i <= path.len(),
        starts_component(path, i),
    ensures
        exists|k: int, j: int| is_component_at(path, k, i, j),
    decreases path.len(),
{
    let n = path.len() as int;
    if n == 0 {
        assert(path.subrange(0, 0) == Seq::<char>::empty());
        assert(is_component_at(path, 0, 0, 0));
    } else {
        let before = path.drop_last();
        components_nonempty(before);
        if i == n {
            let k = components(before).len() as int;
            assert(path.subrange(n, n) == Seq::<char>::empty());
            assert(is_component_at(path, k, n, n));
        } else {
            assert(starts_component(before, i));
            piece_is_a_component(before, i);
            let (k, j) = choose|k: int, j: int| is_component_at(before, k, i, j);
            if text::is_separator(path.last()) || k < components(before).len() - 1 {
                piece_stays(path, k, i, j);
            } else {
                piece_grows(path, k, i);
            }
        }
    }
}

/// A piece of a path without its last character is one of the path, unless that
/// character goes on with it.
proof fn piece_stays(path: Seq<char>, k: int, i: int, j: int)
    requires
        path.len() > 0,
        is_component_at(path.drop_last(), k, i, j),
        text::is_separator(path.last()) || k < components(path.drop_last()).len() - 1,
    ensures
        is_component_at(path, k, i, j),
{
    let before = path.drop_last();
    assert(before.subrange(i, j) == path.subrange(i, j));
    assert forall|p: int| i <= p < j implies #[trigger] path[p] != '/' && path[p] != '\\' by {
        assert(before[p] == path[p]);
    }
}

/// The last piece of a path without its last character goes on with it, where
/// it is no separator.
proof fn piece_grows(path: Seq<char>, k: int, i: int)
    requires
        path.len() > 0,
        is_component_at(path.drop_last(), k, i, path.len() - 1),
        k == components(path.drop_last()).len() - 1,
        !text::is_separator(path.last()),
    ensures
        is_component_at(path, k, i, path.len() as int),
{
    let before = path.drop_last();
    let n = path.len() as int;
    assert(before.subrange(i, n - 1).push(path.last()) == path.subrange(i, n));
    assert forall|p: int| i <= p < n implies #[trigger] path[p] != '/' && path[p] != '\\' by {
        if p < n - 1 {
            assert(before[p] == path[p]);
        }
    }
}

/// Whether nothing, `.` or `..` stands between position `i` of a path and the
/// next separator or the end.
pub open spec fn names_nothing_at(path: Seq<char>, i: int) -> bool {
    ||| ends_component(path, i)
    ||| i + 1 <= path.len() && path[i] == '.' && ends_component(path, i + 1)
    ||| i + 2 <= path.len() && path[i] == '.' && path[i + 1] == '.' && ends_component(path, i + 2)
}

/// A path is accepted exactly where it holds no colon and where neither nothing
/// nor `.` nor `..` stands at its start or behind one of its separators. No
/// other character of it matters.
pub proof fn acceptance_by_character(path: Seq<char>)
    ensures
        is_relative(path) <==> {
            &&& forall|i: int| 0 <= i < path.len() ==> #[trigger] path[i] != ':'
            &&& forall|i: int|
                0 <= i <= path.len() && #[trigger] starts_component(path, i) ==> !names_nothing_at(
                    path,
                    i,
                )
        },
{
    bad_components_by_character(path);
    if !leaves_the_root(path) {
        assert forall|i: int| 0 <= i < path.len() implies #[trigger] path[i] != ':' by {
            assert(path.contains(path[i]));
        }
    }
    if forall|i: int|
        0 <= i <= path.len() && #[trigger] starts_component(path, i) ==> !names_nothing_at(
            path,
            i,
        ) {
        assert(starts_component(path, 0));
        assert(!ends_component(path, 0));
    }
    if leaves_the_root(path) && !path.contains(':') {
        assert(starts_component(path, 0) && names_nothing_at(path, 0));
    }
    if path.contains(':') {
        assert(path[path.index_of(':')] == ':');
    }
}

/// A component of a path is empty, `.` or `..` exactly where nothing else stands
/// at the start of the path or behind one of its separators.
pub proof fn bad_components_by_character(path: Seq<char>)
    ensures
        has_bad_component(path) <==> exists|i: int|
            0 <= i <= path.len() && #[trigger] starts_component(path, i) && names_nothing_at(
                path,
                i,
            ),
{
    if has_bad_component(path) {
        let k = choose|k: int|
            0 <= k < components(path).len() && is_bad_component(#[trigger] components(path)[k]);
        component_is_a_piece(path, k);
        let (i, j) = choose|i: int, j: int| is_component_at(path, k, i, j);
        bad_piece(path, i, j);
        assert(starts_component(path, i));
    }
    if exists|i: int|
        0 <= i <= path.len() && #[trigger] starts_component(path, i) && names_nothing_at(path, i) {
        let i = choose|i: int|
            0 <= i <= path.len() && #[trigger] starts_component(path, i) && names_nothing_at(
                path,
                i,
            );
        piece_is_a_component(path, i);
        let (k, j) = choose|k: int, j: int| is_component_at(path, k, i, j);
        bad_piece(path, i, j);
        assert(is_bad_component(components(path)[k]));
    }
}

/// A piece without separators between two of them is empty, `.` or `..` exactly
/// where nothing else stands at its start.
proof fn bad_piece(path: Seq<char>, i: int, j: int)
    requires
        0 <= i <= j <= path.len(),
        ends_component(path, j),
        forall|p: int| i <= p < j ==> #[trigger] path[p] != '/' && path[p] != '\\',
    ensures
        is_bad_component(path.subrange(i, j)) <==> names_nothing_at(path, i),
{
    let piece = path.subrange(i, j);
    if piece.len() >= 1 {
        assert(piece[0] == path[i]);
    }
    if piece.len() >= 2 {
        assert(piece[1] == path[i + 1]);
    }
    assert(piece =~= seq!['.'] <==> piece.len() == 1 && piece[0] == '.');
    assert(piece =~= seq!['.', '.'] <==> piece.len() == 2 && piece[0] == '.' && piece[1] == '.');
}

/// A path is refused as one that is not relative exactly where it is empty,
/// starts with a slash or a backslash, or holds a colon.
pub proof fn rooted_paths_by_character(path: Seq<char>)
    ensures
        leaves_the_root(path) <==> {
            ||| path.len() == 0
            ||| path[0] == '/'
            ||| path[0] == '\\'
            ||| exists|i: int| 0 <= i < path.len() && #[trigger] path[i] == ':'
        },
{
    if path.contains(':') {
        assert(path[path.index_of(':')] == ':');
    }
}

/// The full path of an entry has every character of the root, and behind it
/// every character of the entry, with a backslash for each slash.
pub proof fn entry_path_by_character(root: Seq<char>, relative: Seq<char>)
    ensures
        entry_path(root, relative).len() == root.len() + relative.len(),
        forall|i: int| 0 <= i < root.len() ==> #[trigger] entry_path(root, relative)[i] == root[i],
        forall|i: int|
            #![trigger relative[i]]
            0 <= i < relative.len() ==> entry_path(root, relative)[root.len() + i] == (
            if relative[i] == '/' {
                '\\'
            } else {
                relative[i]
            }),
{
}

} // verus!
