//! Text as sequences of characters: building, comparing and rewriting it.

use vstd::prelude::*;

verus! {

/// `String::push`: appends one character to the end of the text.
pub assume_specification[ String::push ](s: &mut String, c: char)
    ensures
        final(s)@ == old(s)@.push(c),
;

/// Whether `c` separates the components of a path.
pub open spec fn is_separator(c: char) -> bool {
    c == '\\' || c == '/'
}

/// `text` with every `/` written as `\`.
pub open spec fn backslashed(text: Seq<char>) -> Seq<char> {
    text.map_values(|c: char| if c == '/' { '\\' } else { c })
}

/// `text` without the separators that it begins with.
pub open spec fn without_leading_separators(text: Seq<char>) -> Seq<char>
    decreases text.len(),
{
    if text.len() > 0 && is_separator(text[0]) {
        without_leading_separators(text.drop_first())
    } else {
        text
    }
}

/// The lower-case form of an ASCII capital; any other character is itself.
pub open spec fn ascii_lower(c: char) -> char {
    if 'A' <= c && c <= 'Z' {
        ((c as u32) + 32) as char
    } else {
        c
    }
}

/// `text` with its ASCII capitals in lower case.
pub open spec fn ascii_lowercase(text: Seq<char>) -> Seq<char> {
    text.map_values(|c: char| ascii_lower(c))
}

/// Whether `pattern` stands in `text` at position `at`.
pub open spec fn occurs_at(text: Seq<char>, pattern: Seq<char>, at: int) -> bool {
    &&& 0 <= at
    &&& at + pattern.len() <= text.len()
    &&& text.subrange(at, at + pattern.len()) == pattern
}

/// The first position, from `from` on, at which `pattern` stands in `text`.
pub open spec fn first_occurrence(text: Seq<char>, pattern: Seq<char>, from: int) -> Option<int>
    decreases text.len() - from + 1,
{
    if from + pattern.len() > text.len() {
        None
    } else if occurs_at(text, pattern, from) {
        Some(from)
    } else {
        first_occurrence(text, pattern, from + 1)
    }
}

/// Whether `a` comes before `b` in the order of their code points.
pub open spec fn precedes(a: Seq<char>, b: Seq<char>) -> bool
    decreases a.len(),
{
    if b.len() == 0 {
        false
    } else if a.len() == 0 {
        true
    } else if a[0] != b[0] {
        a[0] < b[0]
    } else {
        precedes(a.drop_first(), b.drop_first())
    }
}

/// The text of an optional string.
pub open spec fn optional(text: Option<String>) -> Option<Seq<char>> {
    match text {
        Some(text) => Some(text@),
        None => None,
    }
}

/// The text of an optional string slice.
pub open spec fn optional_str(text: Option<&str>) -> Option<Seq<char>> {
    match text {
        Some(text) => Some(text@),
        None => None,
    }
}

/// The characters of `text`.
pub fn chars_of(text: &str) -> (chars: Vec<char>)
    ensures
        chars@ == text@,
{
    let mut chars: Vec<char> = Vec::new();
    for c in iter: text.chars()
        invariant
            iter.seq() == text@,
            chars@ == text@.take(iter.index() as int),
    {
        chars.push(c);
    }
    chars
}

/// The text made of `chars`.
pub fn text_of(chars: &[char]) -> (text: String)
    ensures
        text@ == chars@,
{
    let mut text = String::new();
    let mut i: usize = 0;
    while i < chars.len()
        invariant
            i <= chars.len(),
            text@ == chars@.take(i as int),
        decreases chars.len() - i,
    {
        text.push(chars[i]);
        i = i + 1;
    }
    text
}

/// Whether two texts are equal.
pub fn same_text(a: &str, b: &str) -> (same: bool)
    ensures
        same == (a@ == b@),
{
    let a = chars_of(a);
    let b = chars_of(b);
    same_chars(&a, &b)
}

/// Whether two sequences of characters are equal.
pub fn same_chars(a: &[char], b: &[char]) -> (same: bool)
    ensures
        same == (a@ == b@),
{
    if a.len() != b.len() {
        return false;
    }
    let mut i: usize = 0;
    while i < a.len()
        invariant
            a.len() == b.len(),
            i <= a.len(),
            forall|j: int| 0 <= j < i ==> a@[j] == b@[j],
        decreases a.len() - i,
    {
        if a[i] != b[i] {
            return false;
        }
        i = i + 1;
    }
    assert(a@ =~= b@);
    true
}

/// Whether `c` separates the components of a path.
pub fn separator(c: char) -> (r: bool)
    ensures
        r == is_separator(c),
{
    c == '\\' || c == '/'
}

/// Writes every `/` as `\`.
pub fn to_backslashes(chars: &[char]) -> (r: Vec<char>)
    ensures
        r@ == backslashed(chars@),
{
    let mut r: Vec<char> = Vec::new();
    let mut i: usize = 0;
    while i < chars.len()
        invariant
            i <= chars.len(),
            r@ == backslashed(chars@.take(i as int)),
        decreases chars.len() - i,
    {
        r.push(if chars[i] == '/' { '\\' } else { chars[i] });
        i = i + 1;
        assert(chars@.take(i as int) == chars@.take(i - 1).push(chars@[i - 1]));
    }
    assert(chars@.take(i as int) == chars@);
    r
}

/// Drops the separators at the start.
pub fn skip_separators(chars: &[char]) -> (r: &[char])
    ensures
        r@ == without_leading_separators(chars@),
{
    let mut i: usize = 0;
    assert(chars@.skip(0) == chars@);
    while i < chars.len() && separator(chars[i])
        invariant
            i <= chars.len(),
            without_leading_separators(chars@.skip(i as int)) == without_leading_separators(chars@),
        decreases chars.len() - i,
    {
        assert(chars@.skip(i as int).drop_first() == chars@.skip(i + 1));
        i = i + 1;
    }
    vstd::slice::slice_subrange(chars, i, chars.len())
}

/// Writes the ASCII capitals in lower case.
pub fn to_ascii_lowercase(chars: &[char]) -> (r: Vec<char>)
    ensures
        r@ == ascii_lowercase(chars@),
{
    let mut r: Vec<char> = Vec::new();
    let mut i: usize = 0;
    while i < chars.len()
        invariant
            i <= chars.len(),
            r@ == ascii_lowercase(chars@.take(i as int)),
        decreases chars.len() - i,
    {
        r.push(to_ascii_lower(chars[i]));
        i = i + 1;
        assert(chars@.take(i as int) == chars@.take(i - 1).push(chars@[i - 1]));
    }
    assert(chars@.take(i as int) == chars@);
    r
}

/// The lower-case form of an ASCII capital; any other character is itself.
fn to_ascii_lower(c: char) -> (r: char)
    ensures
        r == ascii_lower(c),
{
    if 'A' <= c && c <= 'Z' {
        let byte: u8 = c as u8;
        (byte + 32) as char
    } else {
        c
    }
}

/// Whether `pattern` stands in `text` at position `at`.
pub fn stands_at(text: &[char], pattern: &[char], at: usize) -> (r: bool)
    requires
        at + pattern.len() <= text.len(),
    ensures
        r == occurs_at(text@, pattern@, at as int),
{
    same_chars(vstd::slice::slice_subrange(text, at, at + pattern.len()), pattern)
}

/// The first position at which `pattern` stands in `text`.
pub fn find(text: &[char], pattern: &[char]) -> (r: Option<usize>)
    ensures
        r is Some == first_occurrence(text@, pattern@, 0) is Some,
        r matches Some(at) ==> first_occurrence(text@, pattern@, 0) == Some(at as int),
        r matches Some(at) ==> at + pattern.len() <= text.len(),
{
    if pattern.len() > text.len() {
        return None;
    }
    let last: usize = text.len() - pattern.len();
    let mut at: usize = 0;
    while at <= last
        invariant
            last + pattern.len() == text.len(),
            at <= last + 1,
            first_occurrence(text@, pattern@, at as int) == first_occurrence(text@, pattern@, 0),
        decreases last + 1 - at,
    {
        if stands_at(text, pattern, at) {
            return Some(at);
        }
        if at == last {
            assert(first_occurrence(text@, pattern@, at + 1) is None);
            return None;
        }
        at = at + 1;
    }
    None
}

/// Whether `a` comes before `b` in the order of their code points.
pub fn comes_before(a: &[char], b: &[char]) -> (r: bool)
    ensures
        r == precedes(a@, b@),
{
    let mut i: usize = 0;
    assert(a@.skip(0) == a@ && b@.skip(0) == b@);
    while i < a.len() && i < b.len() && a[i] == b[i]
        invariant
            i <= a.len(),
            i <= b.len(),
            precedes(a@.skip(i as int), b@.skip(i as int)) == precedes(a@, b@),
        decreases a.len() - i,
    {
        assert(a@.skip(i as int).drop_first() == a@.skip(i + 1));
        assert(b@.skip(i as int).drop_first() == b@.skip(i + 1));
        i = i + 1;
    }
    if i < b.len() {
        i == a.len() || a[i] < b[i]
    } else {
        false
    }
}

/// The concatenation of two texts.
pub fn join(a: &str, b: &str) -> (r: String)
    ensures
        r@ == a@ + b@,
{
    let mut r = a.to_owned();
    r.append(b);
    r
}

/// The concatenation of three texts.
pub fn join3(a: &str, b: &str, c: &str) -> (r: String)
    ensures
        r@ == a@ + b@ + c@,
{
    join(&join(a, b), c)
}

/// A text is never before itself.
pub proof fn precedes_irreflexive(a: Seq<char>)
    ensures
        !precedes(a, a),
    decreases a.len(),
{
    if a.len() > 0 {
        precedes_irreflexive(a.drop_first());
    }
}

/// The order of texts is transitive.
pub proof fn precedes_transitive(a: Seq<char>, b: Seq<char>, c: Seq<char>)
    requires
        precedes(a, b),
        precedes(b, c),
    ensures
        precedes(a, c),
    decreases a.len(),
{
    if a.len() > 0 && a[0] == b[0] && b[0] == c[0] {
        precedes_transitive(a.drop_first(), b.drop_first(), c.drop_first());
    }
}

/// Of two different texts one comes before the other.
pub proof fn precedes_total(a: Seq<char>, b: Seq<char>)
    ensures
        precedes(a, b) || precedes(b, a) || a == b,
    decreases a.len(),
{
    if a.len() > 0 && b.len() > 0 && a[0] == b[0] {
        precedes_total(a.drop_first(), b.drop_first());
        if a.drop_first() == b.drop_first() {
            assert(a =~= seq![a[0]] + a.drop_first());
            assert(b =~= seq![b[0]] + b.drop_first());
        }
    } else if a.len() == 0 && b.len() == 0 {
        assert(a =~= b);
    }
}

/// Writing `/` as `\` changes slashes and nothing else: every other character
/// stays, and all stay where they are.
pub proof fn only_slashes_are_rewritten(text: Seq<char>)
    ensures
        backslashed(text).len() == text.len(),
        forall|i: int|
            0 <= i < text.len() && text[i] != '/' ==> #[trigger] backslashed(text)[i] == text[i],
        forall|i: int|
            0 <= i < text.len() && text[i] == '/' ==> #[trigger] backslashed(text)[i] == '\\',
{
}

/// Dropping leading separators drops slashes and backslashes at the start, all of
/// them, and nothing else.
pub proof fn only_leading_separators_are_dropped(text: Seq<char>)
    ensures
        ({
            let kept = without_leading_separators(text);
            let dropped = text.len() - kept.len();
            &&& 0 <= dropped
            &&& kept == text.skip(dropped)
            &&& forall|i: int| 0 <= i < dropped ==> #[trigger] text[i] == '/' || text[i] == '\\'
            &&& kept.len() > 0 ==> kept[0] != '/' && kept[0] != '\\'
        }),
    decreases text.len(),
{
    let kept = without_leading_separators(text);
    if text.len() > 0 && is_separator(text[0]) {
        let rest = text.drop_first();
        only_leading_separators_are_dropped(rest);
        let dropped = rest.len() - kept.len();
        assert(rest.skip(dropped) == text.skip(dropped + 1));
        assert forall|i: int| 0 <= i < dropped + 1 implies #[trigger] text[i] == '/' || text[i]
            == '\\' by {
            if i > 0 {
                assert(rest[i - 1] == text[i]);
            }
        }
    } else {
        assert(text.skip(0) == text);
    }
}

/// Lower case moves the capitals from `A` to `Z` by 32 code points and leaves
/// every other character alone.
pub proof fn only_ascii_capitals_are_lowered(text: Seq<char>)
    ensures
        ascii_lowercase(text).len() == text.len(),
        forall|i: int|
            0 <= i < text.len() && 65 <= text[i] as int <= 90 ==> (
            #[trigger] ascii_lowercase(text)[i]) as int == text[i] as int + 32,
        forall|i: int|
            0 <= i < text.len() && !(65 <= text[i] as int <= 90) ==> #[trigger] ascii_lowercase(
                text,
            )[i] == text[i],
{
    assert forall|i: int| 0 <= i < text.len() && 65 <= text[i] as int <= 90 implies (
    #[trigger] ascii_lowercase(text)[i]) as int == text[i] as int + 32 by {
        assert(ascii_lowercase(text)[i] == ascii_lower(text[i]));
    }
    assert forall|i: int| 0 <= i < text.len() && !(65 <= text[i] as int <= 90) implies
        #[trigger] ascii_lowercase(text)[i] == text[i] by {
        assert(ascii_lowercase(text)[i] == ascii_lower(text[i]));
    }
}

/// A pattern is found where it stands character by character, at no earlier
/// position, and it is missed only where it stands nowhere.
pub proof fn pattern_is_found_where_it_stands(text: Seq<char>, pattern: Seq<char>, from: int)
    requires
        0 <= from,
    ensures
        match first_occurrence(text, pattern, from) {
            Some(at) => {
                &&& from <= at
                &&& at + pattern.len() <= text.len()
                &&& forall|k: int| 0 <= k < pattern.len() ==> text[at + k] == #[trigger] pattern[k]
                &&& forall|p: int|
                    from <= p < at ==> #[trigger] text.subrange(p, p + pattern.len()) != pattern
            },
            None => forall|p: int|
                from <= p && p + pattern.len() <= text.len() ==> #[trigger] text.subrange(
                    p,
                    p + pattern.len(),
                ) != pattern,
        },
    decreases text.len() - from + 1,
{
    if from + pattern.len() <= text.len() {
        let here = text.subrange(from, from + pattern.len());
        if here == pattern {
            assert forall|k: int| 0 <= k < pattern.len() implies text[from + k]
                == #[trigger] pattern[k] by {
                assert(here[k] == pattern[k]);
            }
        } else {
            pattern_is_found_where_it_stands(text, pattern, from + 1);
        }
    }
}

/// One text comes before another exactly where, behind what they share at the
/// start, it ends first or goes on with the smaller code point.
pub proof fn order_is_decided_at_the_first_difference(a: Seq<char>, b: Seq<char>)
    ensures
        precedes(a, b) <==> exists|k: int|
            {
                &&& 0 <= k <= a.len()
                &&& k < b.len()
                &&& #[trigger] a.take(k) == b.take(k)
                &&& k == a.len() || (a[k] as int) < (b[k] as int)
            },
    decreases a.len(),
{
    if a.len() > 0 && b.len() > 0 && a[0] == b[0] {
        let a1 = a.drop_first();
        let b1 = b.drop_first();
        order_is_decided_at_the_first_difference(a1, b1);
        if precedes(a, b) {
            let k = choose|k: int|
                {
                    &&& 0 <= k <= a1.len()
                    &&& k < b1.len()
                    &&& #[trigger] a1.take(k) == b1.take(k)
                    &&& k == a1.len() || (a1[k] as int) < (b1[k] as int)
                };
            assert(a.take(k + 1) == seq![a[0]] + a1.take(k));
            assert(b.take(k + 1) == seq![b[0]] + b1.take(k));
            assert(a.take(k + 1) == b.take(k + 1));
        }
        if exists|k: int|
            {
                &&& 0 <= k <= a.len()
                &&& k < b.len()
                &&& #[trigger] a.take(k) == b.take(k)
                &&& k == a.len() || (a[k] as int) < (b[k] as int)
            } {
            let k = choose|k: int|
                {
                    &&& 0 <= k <= a.len()
                    &&& k < b.len()
                    &&& #[trigger] a.take(k) == b.take(k)
                    &&& k == a.len() || (a[k] as int) < (b[k] as int)
                };
            assert(k > 0);
            assert(a1.take(k - 1) == a.take(k).drop_first());
            assert(b1.take(k - 1) == b.take(k).drop_first());
            assert(a1.take(k - 1) == b1.take(k - 1));
        }
    } else if a.len() == 0 || b.len() == 0 {
        assert(a.take(0) == b.take(0));
    } else {
        assert(a.take(0) == b.take(0));
        assert forall|k: int| 0 < k <= a.len() && k < b.len() implies #[trigger] a.take(k)
            != b.take(k) by {
            assert(a.take(k)[0] == a[0]);
            assert(b.take(k)[0] == b[0]);
        }
    }
}

/// An optional text is there where the value is, and is its text.
pub proof fn optional_texts_are_those_of_the_values(owned: Option<String>, slice: Option<&str>)
    ensures
        optional(owned) is Some <==> owned is Some,
        owned is Some ==> optional(owned)->0 == owned->0@,
        optional_str(slice) is Some <==> slice is Some,
        slice is Some ==> optional_str(slice)->0 == slice->0@,
{
}

} // verus!
