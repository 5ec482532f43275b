//! Strings that the game would expand or index by: directives without an end are defused
//! before the game sees them.
use crate::memory;
use crate::memory::terminated;
use crate::text;
use crate::text::find_byte;
use vstd::prelude::*;

verus! {

/// No dot from `a` up to `b`.
pub open spec fn dotless(s: Seq<u8>, a: int, b: int) -> bool {
    forall|i: int| a <= i < b ==> s[i] != 46
}

/// A model path: every key between dots is shorter than 64 bytes.
pub open spec fn short_keys(s: Seq<u8>) -> bool {
    forall|a: int, b: int| 0 <= a <= b <= s.len() && #[trigger] dotless(s, a, b) ==> b - a < 64
}

/// Whether the game can take `bytes` for a path of model keys.
pub fn valid_path(bytes: &[u8]) -> (r: bool)
    ensures
        r == short_keys(bytes@),
{
    let n: usize = bytes.len();
    let mut key: usize = 0;
    let mut i: usize = 0;
    while i < n
        invariant
            key <= i <= n,
            n == bytes@.len(),
            i - key < 64,
            dotless(bytes@, key as int, i as int),
            key > 0 ==> bytes@[key - 1] == 46,
            forall|a: int, b: int|
                0 <= a <= b <= i && #[trigger] dotless(bytes@, a, b) ==> b - a < 64,
        decreases n - i,
    {
        if bytes[i] == 46 {
            key = i + 1;
        } else if i - key == 63 {
            assert(dotless(bytes@, key as int, i + 1));
            return false;
        }
        assert forall|a: int, b: int|
            0 <= a <= b <= i + 1 && #[trigger] dotless(bytes@, a, b) implies b - a < 64 by {
            if b == i + 1 {
                if a < key && key <= i {
                    assert(bytes@[key - 1] == 46);
                    assert(false);
                }
                if a < key {
                    assert(bytes@[i as int] == 46);
                    if a <= i {
                        assert(false);
                    }
                }
            }
        }
        i = i + 1;
    }
    true
}

/// A path longer than this is none of the game's.
pub const PATH_LIMIT: usize = 65536;

/// The paths that the game may keep.
pub open spec fn valid_game_path_of(memory: Option<&[u8]>) -> bool {
    match memory {
        Some(bytes) => match memory::terminated_length(bytes@, PATH_LIMIT as nat) {
            Some(n) => short_keys(bytes@.take(n)),
            None => false,
        },
        None => false,
    }
}

/// Whether the memory that a path points to, if it points to any, holds a path that the game
/// may look up: it ends with a NUL soon enough, and its parts are short.
pub fn valid_game_path(memory: Option<&[u8]>) -> (r: bool)
    ensures
        r == valid_game_path_of(memory),
{
    match memory {
        Some(bytes) => match terminated(bytes, PATH_LIMIT) {
            Some(n) => {
                let path: &[u8] = vstd::slice::slice_subrange(bytes, 0, n);
                assert(path@ =~= bytes@.take(n as int));
                valid_path(path)
            },
            None => false,
        },
        None => false,
    }
}

pub open spec fn pair_at(s: Seq<u8>, i: int, a: u8, b: u8) -> bool {
    s[i] == a && s[i + 1] == b
}

/// The first index from `i` on where `a` is followed by `b`, or the length.
pub open spec fn find_pair_from(s: Seq<u8>, a: u8, b: u8, i: int) -> int
    decreases s.len() - i,
{
    if i + 1 >= s.len() {
        s.len() as int
    } else if pair_at(s, i, a, b) {
        i
    } else {
        find_pair_from(s, a, b, i + 1)
    }
}

fn find_pair(s: &Vec<u8>, a: u8, b: u8, from: usize) -> (r: usize)
    requires
        from <= s@.len(),
    ensures
        r == find_pair_from(s@, a, b, from as int),
        from <= r <= s@.len(),
        r < s@.len() ==> r + 1 < s@.len() && pair_at(s@, r as int, a, b),
{
    let n: usize = s.len();
    let mut i: usize = from;
    while i < n && i + 1 < n
        invariant
            from <= i <= n,
            n == s@.len(),
            find_pair_from(s@, a, b, i as int) == find_pair_from(s@, a, b, from as int),
        decreases n - i,
    {
        if s[i] == a && s[i + 1] == b {
            return i;
        }
        i = i + 1;
    }
    n
}

/// `^B` starts a key binding, which a `^` ends within 64 bytes; where none does, the directive
/// is defused. What follows is looked at from behind the end.
pub open spec fn bindings_from(s: Seq<u8>, i: int) -> Seq<u8>
    decreases s.len() - i,
{
    if i < 0 || i + 1 >= s.len() {
        s
    } else if pair_at(s, i, 94, 66) {
        let end = text::find_from(s, 94, i + 2);
        if end < s.len() && end - (i + 2) < 64 && end > i {
            bindings_from(s, end + 1)
        } else {
            bindings_from(s.update(i, 46), i + 1)
        }
    } else {
        bindings_from(s, i + 1)
    }
}

/// `[{` starts a button name, which `}]` ends; a name of 254 bytes or more, or without an end,
/// is defused.
pub open spec fn closed(s: Seq<u8>, i: int) -> bool {
    let end = find_pair_from(s, 125, 93, i + 2);
    end < s.len() && end - i < 256
}

pub open spec fn buttons_from(s: Seq<u8>, i: int) -> Seq<u8>
    decreases s.len() - i,
{
    if i < 0 || i + 1 >= s.len() {
        s
    } else if pair_at(s, i, 91, 123) && !closed(s, i) {
        buttons_from(s.update(i, 46).update(i + 1, 46), i + 1)
    } else {
        buttons_from(s, i + 1)
    }
}

/// A localized string without directives that have no end.
pub open spec fn sanitized_binding(s: Seq<u8>) -> Seq<u8> {
    buttons_from(bindings_from(s, 0), 0)
}

fn sanitize_bindings(input: &mut Vec<u8>)
    ensures
        final(input)@ == bindings_from(old(input)@, 0),
{
    let n: usize = input.len();
    let mut i: usize = 0;
    while i < n && i + 1 < n
        invariant
            i <= n,
            n == input@.len(),
            bindings_from(input@, i as int) == bindings_from(old(input)@, 0),
        decreases n - i,
    {
        if input[i] == 94 && input[i + 1] == 66 {
            let end: usize = find_byte(input.as_slice(), 94, i + 2);
            if end < n && end - (i + 2) < 64 {
                i = end + 1;
                continue;
            }
            input.set(i, 46);
        }
        i = i + 1;
    }
}

fn sanitize_buttons(input: &mut Vec<u8>)
    ensures
        final(input)@ == buttons_from(old(input)@, 0),
{
    let n: usize = input.len();
    let mut i: usize = 0;
    while i < n && i + 1 < n
        invariant
            i <= n,
            n == input@.len(),
            buttons_from(input@, i as int) == buttons_from(old(input)@, 0),
        decreases n - i,
    {
        if input[i] == 91 && input[i + 1] == 123 {
            let end: usize = find_pair(input, 125, 93, i + 2);
            if !(end < n && end - i < 256) {
                input.set(i, 46);
                input.set(i + 1, 46);
            }
        }
        i = i + 1;
    }
}

/// Defuses the directives of a localized string.
pub fn sanitize_binding(input: &mut Vec<u8>)
    ensures
        final(input)@ == sanitized_binding(old(input)@),
{
    sanitize_bindings(input);
    sanitize_buttons(input);
}

/// `$(` starts a model reference, which `)` ends; one without an end is defused.
pub open spec fn models_from(s: Seq<u8>, i: int) -> Seq<u8>
    decreases s.len() - i,
{
    if i < 0 || i + 1 >= s.len() {
        s
    } else if pair_at(s, i, 36, 40) {
        let end = text::find_from(s, 41, i + 2);
        if end < s.len() && end > i {
            models_from(s, end + 1)
        } else {
            models_from(s.update(i, 46).update(i + 1, 46), i + 1)
        }
    } else {
        models_from(s, i + 1)
    }
}

/// Defuses the model references of a string and says whether there were any to defuse; only
/// then is the string shown as it is, without expansion.
pub fn sanitize_model_string(input: &mut Vec<u8>) -> (replaced: bool)
    ensures
        final(input)@ == models_from(old(input)@, 0),
        replaced <==> final(input)@ != old(input)@,
{
    let n: usize = input.len();
    let mut replaced: bool = false;
    let mut i: usize = 0;
    while i < n && i + 1 < n
        invariant
            i <= n,
            n == input@.len(),
            n == old(input)@.len(),
            models_from(input@, i as int) == models_from(old(input)@, 0),
            !replaced ==> input@ == old(input)@,
            replaced ==> exists|k: int| 0 <= k < i && #[trigger] defused(old(input)@, input@, k),
            forall|k: int| i < k < n ==> input@[k] == old(input)@[k],
            i < n && input@[i as int] != old(input)@[i as int] ==> input@[i as int] == 46,
        decreases n - i,
    {
        if input[i] == 36 && input[i + 1] == 40 {
            let end: usize = find_byte(input.as_slice(), 41, i + 2);
            if end < n {
                i = end + 1;
                continue;
            }
            assert(old(input)@[i as int] == 36);
            input.set(i, 46);
            input.set(i + 1, 46);
            replaced = true;
            assert(defused(old(input)@, input@, i as int));
        }
        i = i + 1;
    }
    replaced
}

/// A byte that was replaced by a dot.
pub open spec fn defused(before: Seq<u8>, after: Seq<u8>, k: int) -> bool {
    before[k] == 36 && after[k] == 46
}

/// `after` is `before` with some bytes replaced by dots.
pub open spec fn dotted(before: Seq<u8>, after: Seq<u8>) -> bool {
    after.len() == before.len() && forall|k: int|
        0 <= k < before.len() ==> #[trigger] after[k] == before[k] || after[k] == 46
}

proof fn lemma_ends_kept(s: Seq<u8>, t: Seq<u8>, from: int)
    requires
        0 <= from,
        t.len() == s.len(),
        forall|k: int|
            0 <= k < s.len() ==> ((#[trigger] t[k]) == s[k] || (t[k] == 46 && s[k] != 125 && s[k]
                != 93)),
    ensures
        find_pair_from(t, 125, 93, from) == find_pair_from(s, 125, 93, from),
    decreases s.len() - from,
{
    if from + 1 < s.len() {
        assert(t[from] == s[from] || t[from] == 46);
        assert(t[from + 1] == s[from + 1] || t[from + 1] == 46);
        lemma_ends_kept(s, t, from + 1);
    }
}

/// Only openings are replaced from `i` on, and what is open there afterwards has its end.
proof fn lemma_buttons(s: Seq<u8>, i: int)
    requires
        0 <= i,
    ensures
        buttons_from(s, i).len() == s.len(),
        forall|k: int|
            0 <= k < s.len() ==> ((#[trigger] buttons_from(s, i)[k]) == s[k] || (buttons_from(
                s,
                i,
            )[k] == 46 && s[k] != 125 && s[k] != 93)),
        forall|k: int| 0 <= k < i && k < s.len() ==> #[trigger] buttons_from(s, i)[k] == s[k],
        forall|k: int|
            i <= k && k + 1 < s.len() && #[trigger] pair_at(buttons_from(s, i), k, 91, 123)
                ==> closed(s, k),
    decreases s.len() - i,
{
    let r = buttons_from(s, i);
    if i + 1 < s.len() {
        if pair_at(s, i, 91, 123) && !closed(s, i) {
            let t = s.update(i, 46).update(i + 1, 46);
            lemma_buttons(t, i + 1);
            assert(r[i] == 46);
            assert forall|k: int|
                i <= k && k + 1 < s.len() && #[trigger] pair_at(r, k, 91, 123) implies closed(
                s,
                k,
            ) by {
                assert(k != i);
                lemma_ends_kept(s, t, k + 2);
                assert(closed(t, k));
            }
            assert forall|k: int| 0 <= k < s.len() implies ((#[trigger] r[k]) == s[k] || (r[k] == 46
                && s[k] != 125 && s[k] != 93)) by {
                assert(r[k] == t[k] || (r[k] == 46 && t[k] != 125 && t[k] != 93));
            }
            assert forall|k: int| 0 <= k < i && k < s.len() implies #[trigger] r[k] == s[k] by {
                assert(r[k] == t[k]);
            }
        } else {
            lemma_buttons(s, i + 1);
            assert(r[i] == s[i]);
            assert forall|k: int|
                i <= k && k + 1 < s.len() && #[trigger] pair_at(r, k, 91, 123) implies closed(
                s,
                k,
            ) by {
                if k == i {
                    assert(r[i + 1] == s[i + 1] || r[i + 1] == 46);
                }
            }
        }
    }
}

/// `after` is `before` with some of its `^`, `[` and `{` replaced by dots.
pub open spec fn openings_dotted(before: Seq<u8>, after: Seq<u8>) -> bool {
    after.len() == before.len() && forall|k: int|
        0 <= k < before.len() ==> #[trigger] after[k] == before[k] || (after[k] == 46 && (before[k]
            == 94 || before[k] == 91 || before[k] == 123))
}

/// Before `i` nothing changes; from there on some `^` become dots.
pub(crate) proof fn lemma_bindings_change(s: Seq<u8>, i: int)
    requires
        0 <= i,
    ensures
        bindings_from(s, i).len() == s.len(),
        forall|k: int| 0 <= k < i && k < s.len() ==> #[trigger] bindings_from(s, i)[k] == s[k],
        forall|k: int|
            0 <= k < s.len() ==> ((#[trigger] bindings_from(s, i)[k]) == s[k] || (bindings_from(
                s,
                i,
            )[k] == 46 && s[k] == 94)),
    decreases s.len() - i,
{
    if i + 1 < s.len() {
        if pair_at(s, i, 94, 66) {
            let end = text::find_from(s, 94, i + 2);
            if end < s.len() && end - (i + 2) < 64 && end > i {
                lemma_bindings_change(s, end + 1);
            } else {
                let t = s.update(i, 46);
                lemma_bindings_change(t, i + 1);
                let r = bindings_from(s, i);
                assert forall|k: int| 0 <= k < s.len() implies ((#[trigger] r[k]) == s[k] || (r[k]
                    == 46 && s[k] == 94)) by {
                    assert(r[k] == t[k] || (r[k] == 46 && t[k] == 94));
                }
                assert forall|k: int| 0 <= k < i && k < s.len() implies #[trigger] r[k] == s[k] by {
                    assert(r[k] == t[k]);
                }
            }
        } else {
            lemma_bindings_change(s, i + 1);
        }
    }
}

/// Only `[` and `{` become dots.
pub(crate) proof fn lemma_buttons_change(s: Seq<u8>, i: int)
    requires
        0 <= i,
    ensures
        buttons_from(s, i).len() == s.len(),
        forall|k: int|
            0 <= k < s.len() ==> ((#[trigger] buttons_from(s, i)[k]) == s[k] || (buttons_from(
                s,
                i,
            )[k] == 46 && (s[k] == 91 || s[k] == 123))),
    decreases s.len() - i,
{
    if i + 1 < s.len() {
        if pair_at(s, i, 91, 123) && !closed(s, i) {
            let t = s.update(i, 46).update(i + 1, 46);
            lemma_buttons_change(t, i + 1);
            let r = buttons_from(s, i);
            assert forall|k: int| 0 <= k < s.len() implies ((#[trigger] r[k]) == s[k] || (r[k] == 46
                && (s[k] == 91 || s[k] == 123))) by {
                assert(r[k] == t[k] || (r[k] == 46 && (t[k] == 91 || t[k] == 123)));
            }
        } else {
            lemma_buttons_change(s, i + 1);
        }
    }
}

/// A byte is found at the same place in two strings that hold it at the same places up to there.
proof fn lemma_found_alike(s: Seq<u8>, t: Seq<u8>, byte: u8, from: int)
    requires
        0 <= from,
        s.len() == t.len(),
        forall|k: int|
            from <= k <= text::find_from(s, byte, from) && k < s.len() ==> ((#[trigger] t[k])
                == byte <==> s[k] == byte),
    ensures
        text::find_from(t, byte, from) == text::find_from(s, byte, from),
    decreases s.len() - from,
{
    if from < s.len() {
        text::lemma_find_from(s, byte, from);
        assert(t[from] == byte <==> s[from] == byte);
        if s[from] != byte {
            lemma_found_alike(s, t, byte, from + 1);
        }
    }
}

/// Defused bindings stay as they are.
proof fn lemma_bindings_again(s: Seq<u8>, i: int)
    requires
        0 <= i,
    ensures
        bindings_from(bindings_from(s, i), i) == bindings_from(s, i),
    decreases s.len() - i,
{
    let r = bindings_from(s, i);
    lemma_bindings_change(s, i);
    if i + 1 < s.len() {
        if pair_at(s, i, 94, 66) {
            let end = text::find_from(s, 94, i + 2);
            if end < s.len() && end - (i + 2) < 64 && end > i {
                lemma_bindings_change(s, end + 1);
                assert forall|k: int| i + 2 <= k <= end && k < s.len() implies ((#[trigger] r[k])
                    == 94 <==> s[k] == 94) by {
                    assert(r[k] == s[k]);
                }
                lemma_found_alike(s, r, 94, i + 2);
                assert(r[i] == s[i] && r[i + 1] == s[i + 1]);
                lemma_bindings_again(s, end + 1);
            } else {
                let t = s.update(i, 46);
                lemma_bindings_change(t, i + 1);
                assert(r[i] == t[i]);
                lemma_bindings_again(t, i + 1);
            }
        } else {
            lemma_bindings_change(s, i + 1);
            assert(r[i] == s[i]);
            assert(r[i + 1] == s[i + 1] || r[i + 1] == 46);
            lemma_bindings_again(s, i + 1);
        }
    }
}

/// Where no binding is defused, none is in a string with the same `^` and `B` either.
proof fn lemma_bindings_alike(s: Seq<u8>, t: Seq<u8>, i: int)
    requires
        0 <= i,
        s.len() == t.len(),
        bindings_from(s, i) == s,
        forall|k: int|
            0 <= k < s.len() ==> ((#[trigger] t[k]) == 94 <==> s[k] == 94) && (t[k] == 66 <==> s[k]
                == 66),
    ensures
        bindings_from(t, i) == t,
    decreases s.len() - i,
{
    if i + 1 < s.len() {
        assert(t[i] == 94 <==> s[i] == 94);
        assert(t[i + 1] == 66 <==> s[i + 1] == 66);
        if pair_at(s, i, 94, 66) {
            let end = text::find_from(s, 94, i + 2);
            lemma_found_alike(s, t, 94, i + 2);
            if end < s.len() && end - (i + 2) < 64 && end > i {
                lemma_bindings_alike(s, t, end + 1);
            } else {
                lemma_bindings_change(s.update(i, 46), i + 1);
                assert(bindings_from(s, i)[i] == 46);
            }
        } else {
            lemma_bindings_alike(s, t, i + 1);
        }
    }
}

/// Where every button name has its end, none is defused.
proof fn lemma_buttons_closed(s: Seq<u8>, i: int)
    requires
        0 <= i,
        forall|k: int|
            0 <= k && k + 1 < s.len() && #[trigger] pair_at(s, k, 91, 123) ==> closed(s, k),
    ensures
        buttons_from(s, i) == s,
    decreases s.len() - i,
{
    if i + 1 < s.len() {
        lemma_buttons_closed(s, i + 1);
    }
}

/// Sanitizing keeps a string's length and every byte, but for some `^`, `[` and `{`, which become
/// dots. It leaves no button name without an end, and what is sanitized stays as it is.
pub proof fn lemma_sanitized_binding(s: Seq<u8>)
    ensures
        openings_dotted(s, sanitized_binding(s)),
        forall|k: int|
            0 <= k && k + 1 < s.len() && #[trigger] pair_at(sanitized_binding(s), k, 91, 123)
                ==> closed(sanitized_binding(s), k),
        sanitized_binding(sanitized_binding(s)) == sanitized_binding(s),
{
    let b = bindings_from(s, 0);
    let r = sanitized_binding(s);
    lemma_bindings_change(s, 0);
    lemma_buttons_change(b, 0);
    lemma_buttons(b, 0);
    assert forall|k: int| 0 <= k < s.len() implies #[trigger] r[k] == s[k] || (r[k] == 46 && (s[k]
        == 94 || s[k] == 91 || s[k] == 123)) by {
        assert(b[k] == s[k] || (b[k] == 46 && s[k] == 94));
        assert(r[k] == b[k] || (r[k] == 46 && (b[k] == 91 || b[k] == 123)));
    }
    assert forall|k: int| 0 <= k && k + 1 < s.len() && #[trigger] pair_at(r, k, 91, 123) implies closed(
        r,
        k,
    ) by {
        lemma_ends_kept(b, r, k + 2);
    }
    lemma_bindings_again(s, 0);
    assert forall|k: int| 0 <= k < b.len() implies ((#[trigger] r[k]) == 94 <==> b[k] == 94) && (r[k]
        == 66 <==> b[k] == 66) by {
        assert(r[k] == b[k] || (r[k] == 46 && (b[k] == 91 || b[k] == 123)));
    }
    lemma_bindings_alike(b, r, 0);
    lemma_buttons_closed(r, 0);
}

proof fn lemma_models_dotted(s: Seq<u8>, i: int)
    requires
        0 <= i,
    ensures
        dotted(s, models_from(s, i)),
    decreases s.len() - i,
{
    if i + 1 < s.len() {
        if pair_at(s, i, 36, 40) {
            let end = text::find_from(s, 41, i + 2);
            if end < s.len() && end > i {
                lemma_models_dotted(s, end + 1);
            } else {
                lemma_models_dotted(s.update(i, 46).update(i + 1, 46), i + 1);
            }
        } else {
            lemma_models_dotted(s, i + 1);
        }
    }
}

/// Defusing model references keeps a string's length and every byte that it does not replace by
/// a dot.
pub proof fn lemma_sanitized_models(s: Seq<u8>)
    ensures
        dotted(s, models_from(s, 0)),
{
    lemma_models_dotted(s, 0);
}

/// Chat text that the game could take for a directive or for control characters.
pub open spec fn unsafe_in_chat(s: Seq<u8>, len: int, i: int) -> bool {
    ||| s[i] == 94
    ||| s[i] == 37
    ||| s[i] < 32
    ||| s[i] > 126
    ||| (i + 1 < len && ((s[i] == 36 && s[i + 1] == 40) || (s[i] == 91 && s[i + 1] == 123)))
}

/// A chat entry up to its first NUL, with every such byte replaced by a dot.
pub open spec fn sanitized_chat(s: Seq<u8>) -> Seq<u8> {
    let len = text::find_from(s, 0, 0);
    Seq::new(s.len(), |i: int| if i < len && unsafe_in_chat(s, len, i) { 46u8 } else { s[i] })
}

/// Defuses a chat entry in place.
pub fn sanitize_chat(bytes: &mut Vec<u8>)
    ensures
        final(bytes)@ == sanitized_chat(old(bytes)@),
{
    let len: usize = find_byte(bytes.as_slice(), 0, 0);
    let mut i: usize = 0;
    while i < len
        invariant
            i <= len <= bytes@.len(),
            bytes@.len() == old(bytes)@.len(),
            len == text::find_from(old(bytes)@, 0, 0),
            forall|k: int| i <= k < bytes@.len() ==> bytes@[k] == old(bytes)@[k],
            forall|k: int| 0 <= k < i ==> bytes@[k] == sanitized_chat(old(bytes)@)[k],
        decreases len - i,
    {
        let b: u8 = bytes[i];
        if b == 94 || b == 37 || b < 32 || b > 126 || (i + 1 < len && ((b == 36 && bytes[i + 1]
            == 40) || (b == 91 && bytes[i + 1] == 123))) {
            bytes.set(i, 46);
        }
        i = i + 1;
    }
    assert(bytes@ =~= sanitized_chat(old(bytes)@));
}

/// What is shown of a chat entry is printable and holds no colour code, no format and no opened
/// directive.
pub proof fn lemma_chat_is_harmless(s: Seq<u8>, i: int)
    requires
        0 <= i < text::find_from(s, 0, 0),
    ensures
        32 <= sanitized_chat(s)[i] <= 126,
        sanitized_chat(s)[i] != 94,
        sanitized_chat(s)[i] != 37,
        i + 1 < text::find_from(s, 0, 0) ==> !(sanitized_chat(s)[i] == 36 && sanitized_chat(s)[i
            + 1] == 40) && !(sanitized_chat(s)[i] == 91 && sanitized_chat(s)[i + 1] == 123),
{
    text::lemma_find_from(s, 0, 0);
}

} // verus!
