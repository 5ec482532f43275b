//! What becomes of strings that peers send: of directives in them, of chat and of paths.
use crate::sanitize;
use crate::text;
use vstd::prelude::*;

verus! {

/// No byte of `s` is `byte`.
pub open spec fn free_of(s: Seq<u8>, byte: u8) -> bool {
    forall|i: int| 0 <= i < s.len() ==> #[trigger] s[i] != byte
}

proof fn lemma_found_at(s: Seq<u8>, byte: u8, from: int, end: int)
    requires
        0 <= from <= end <= s.len(),
        forall|k: int| from <= k < end ==> s[k] != byte,
        end == s.len() || s[end] == byte,
    ensures
        text::find_from(s, byte, from) == end,
    decreases end - from,
{
    if from < end {
        lemma_found_at(s, byte, from + 1, end);
    }
}

proof fn lemma_found_behind(a: Seq<u8>, b: Seq<u8>, byte: u8, i: int)
    requires
        0 <= i,
    ensures
        text::find_from(a + b, byte, a.len() + i) == a.len() + text::find_from(b, byte, i),
    decreases b.len() - i,
{
    if i < b.len() {
        assert((a + b)[a.len() + i] == b[i]);
        lemma_found_behind(a, b, byte, i + 1);
    }
}

proof fn lemma_no_bindings(s: Seq<u8>, i: int, j: int)
    requires
        0 <= i <= j <= s.len(),
        forall|k: int| i <= k < j ==> s[k] != 94,
    ensures
        sanitize::bindings_from(s, i) == sanitize::bindings_from(s, j),
    decreases j - i,
{
    if i < j {
        lemma_no_bindings(s, i + 1, j);
    }
}

proof fn lemma_bindings_behind(a: Seq<u8>, b: Seq<u8>, i: int)
    requires
        0 <= i,
    ensures
        sanitize::bindings_from(a + b, a.len() + i) == a + sanitize::bindings_from(b, i),
    decreases b.len() - i,
{
    if i + 1 < b.len() {
        let s = a + b;
        assert(s[a.len() + i] == b[i]);
        assert(s[a.len() + i + 1] == b[i + 1]);
        if sanitize::pair_at(b, i, 94, 66) {
            let end = text::find_from(b, 94, i + 2);
            lemma_found_behind(a, b, 94, i + 2);
            text::lemma_find_from(b, 94, i + 2);
            if end < b.len() && end - (i + 2) < 64 && end > i {
                lemma_bindings_behind(a, b, end + 1);
            } else {
                assert(s.update(a.len() + i, 46) =~= a + b.update(i, 46));
                lemma_bindings_behind(a, b.update(i, 46), i + 1);
            }
        } else {
            lemma_bindings_behind(a, b, i + 1);
        }
    }
}

proof fn lemma_no_buttons(s: Seq<u8>, i: int, j: int)
    requires
        0 <= i <= j <= s.len(),
        forall|k: int| i <= k < j ==> s[k] != 91,
    ensures
        sanitize::buttons_from(s, i) == sanitize::buttons_from(s, j),
    decreases j - i,
{
    if i < j {
        lemma_no_buttons(s, i + 1, j);
    }
}

proof fn lemma_pair_behind(a: Seq<u8>, b: Seq<u8>, i: int)
    requires
        0 <= i,
    ensures
        sanitize::find_pair_from(a + b, 125, 93, a.len() + i) == a.len() + sanitize::find_pair_from(
            b,
            125,
            93,
            i,
        ),
    decreases b.len() - i,
{
    if i + 1 < b.len() {
        assert((a + b)[a.len() + i] == b[i]);
        assert((a + b)[a.len() + i + 1] == b[i + 1]);
        lemma_pair_behind(a, b, i + 1);
    }
}

proof fn lemma_pair_at(s: Seq<u8>, i: int, end: int)
    requires
        0 <= i <= end <= s.len(),
        forall|k: int| i <= k < end ==> s[k] != 125,
        end == s.len() || (end + 1 < s.len() && s[end] == 125 && s[end + 1] == 93),
    ensures
        sanitize::find_pair_from(s, 125, 93, i) == end,
    decreases end - i,
{
    if i < end {
        lemma_pair_at(s, i + 1, end);
    }
}

proof fn lemma_buttons_behind(a: Seq<u8>, b: Seq<u8>, i: int)
    requires
        0 <= i,
    ensures
        sanitize::buttons_from(a + b, a.len() + i) == a + sanitize::buttons_from(b, i),
    decreases b.len() - i,
{
    if i + 1 < b.len() {
        let s = a + b;
        assert(s[a.len() + i] == b[i]);
        assert(s[a.len() + i + 1] == b[i + 1]);
        lemma_pair_behind(a, b, i + 2);
        if sanitize::pair_at(b, i, 91, 123) && !sanitize::closed(b, i) {
            assert(s.update(a.len() + i, 46).update(a.len() + i + 1, 46) =~= a + b.update(
                i,
                46,
            ).update(i + 1, 46));
            lemma_buttons_behind(a, b.update(i, 46).update(i + 1, 46), i + 1);
        } else {
            lemma_buttons_behind(a, b, i + 1);
        }
    }
}

/// Without a `[` only bindings matter, and without a `^` only buttons do.
proof fn lemma_one_kind(s: Seq<u8>)
    ensures
        free_of(s, 91) ==> sanitize::sanitized_binding(s) == sanitize::bindings_from(s, 0),
        free_of(s, 94) ==> sanitize::sanitized_binding(s) == sanitize::buttons_from(s, 0),
{
    let b = sanitize::bindings_from(s, 0);
    sanitize::lemma_bindings_change(s, 0);
    if free_of(s, 91) {
        assert forall|k: int| 0 <= k < b.len() implies b[k] != 91 by {
            assert(b[k] == s[k] || b[k] == 46);
        }
        lemma_no_buttons(b, 0, b.len() as int);
    }
    if free_of(s, 94) {
        lemma_no_bindings(s, 0, s.len() as int);
    }
}

/// A string without directives stays as it is.
pub proof fn lemma_plain_string(s: Seq<u8>)
    requires
        free_of(s, 94),
        free_of(s, 91),
    ensures
        sanitize::sanitized_binding(s) == s,
{
    lemma_one_kind(s);
    lemma_no_bindings(s, 0, s.len() as int);
}

/// A key binding, `^B` to the next `^`, stays if its name has at most 63 bytes; if it is longer or
/// does not end, the first `^` becomes a dot. What stands before it stays, and what follows is
/// looked at on its own.
pub proof fn lemma_binding(head: Seq<u8>, name: Seq<u8>, tail: Seq<u8>)
    requires
        free_of(head, 94),
        free_of(name, 94),
        free_of(head, 91),
        free_of(name, 91),
        free_of(tail, 91),
    ensures
        name.len() <= 63 ==> sanitize::sanitized_binding(
            head + seq![94u8, 66] + name + seq![94u8] + tail,
        ) == head + seq![94u8, 66] + name + seq![94u8] + sanitize::sanitized_binding(tail),
        name.len() >= 64 ==> sanitize::sanitized_binding(
            head + seq![94u8, 66] + name + seq![94u8] + tail,
        ) == head + seq![46u8, 66] + name + sanitize::sanitized_binding(seq![94u8] + tail),
        sanitize::sanitized_binding(head + seq![94u8, 66] + name) == head + seq![46u8, 66] + name,
{
    let n = head.len() as int;
    let end = n + 2 + name.len();
    let open = head + seq![94u8, 66] + name;
    let s = open + seq![94u8] + tail;
    let dead = head + seq![46u8, 66] + name;
    lemma_one_kind(s);
    lemma_one_kind(open);
    lemma_one_kind(tail);
    lemma_one_kind(seq![94u8] + tail);
    assert(free_of(s, 91)) by {
        assert forall|i: int| 0 <= i < s.len() implies #[trigger] s[i] != 91 by {
            if i < n {
                assert(s[i] == head[i]);
            } else if n + 2 <= i < end {
                assert(s[i] == name[i - n - 2]);
            } else if i > end {
                assert(s[i] == tail[i - end - 1]);
            }
        }
    }
    assert(free_of(open, 91)) by {
        assert forall|i: int| 0 <= i < open.len() implies #[trigger] open[i] != 91 by {
            assert(open[i] == s[i]);
        }
    }
    assert(free_of(seq![94u8] + tail, 91)) by {
        let t = seq![94u8] + tail;
        assert forall|i: int| 0 <= i < t.len() implies #[trigger] t[i] != 91 by {
            if i > 0 {
                assert(t[i] == tail[i - 1]);
            }
        }
    }
    assert forall|k: int| 0 <= k < n implies s[k] != 94 && open[k] != 94 by {
        assert(s[k] == head[k] && open[k] == head[k]);
    }
    assert forall|k: int| n + 2 <= k < end implies s[k] != 94 && open[k] != 94 by {
        assert(s[k] == name[k - n - 2] && open[k] == name[k - n - 2]);
    }
    lemma_no_bindings(s, 0, n);
    lemma_no_bindings(open, 0, n);
    lemma_found_at(s, 94, n + 2, end);
    lemma_found_at(open, 94, n + 2, end);
    if name.len() <= 63 {
        let a = open + seq![94u8];
        assert(a + tail =~= s);
        lemma_bindings_behind(a, tail, 0);
    } else {
        let t = s.update(n, 46);
        assert(t =~= dead + (seq![94u8] + tail));
        assert forall|k: int| n + 1 <= k < end implies t[k] != 94 by {
            assert(t[k] == s[k]);
        }
        lemma_no_bindings(t, n + 1, end);
        lemma_bindings_behind(dead, seq![94u8] + tail, 0);
    }
    let u = open.update(n, 46);
    assert(u =~= dead);
    assert forall|k: int| n + 1 <= k < end implies u[k] != 94 by {
        assert(u[k] == open[k]);
    }
    lemma_no_bindings(u, n + 1, end);
}

/// A button name, `[{` to the next `}]`, stays if it has at most 253 bytes; if it is longer or
/// does not end, both bytes that open it become dots.
pub proof fn lemma_button(head: Seq<u8>, name: Seq<u8>, tail: Seq<u8>)
    requires
        free_of(head, 91),
        free_of(name, 91),
        free_of(name, 125),
        free_of(head, 94),
        free_of(name, 94),
        free_of(tail, 94),
    ensures
        sanitize::sanitized_binding(head + seq![91u8, 123] + name + seq![125u8, 93] + tail) == head
            + (if name.len() <= 253 {
            seq![91u8, 123]
        } else {
            seq![46u8, 46]
        }) + name + seq![125u8, 93] + sanitize::sanitized_binding(tail),
        sanitize::sanitized_binding(head + seq![91u8, 123] + name) == head + seq![46u8, 46] + name,
{
    let n = head.len() as int;
    let end = n + 2 + name.len();
    let open = head + seq![91u8, 123] + name;
    let s = open + seq![125u8, 93] + tail;
    lemma_one_kind(s);
    lemma_one_kind(open);
    lemma_one_kind(tail);
    assert(free_of(s, 94)) by {
        assert forall|i: int| 0 <= i < s.len() implies #[trigger] s[i] != 94 by {
            if i < n {
                assert(s[i] == head[i]);
            } else if n + 2 <= i < end {
                assert(s[i] == name[i - n - 2]);
            } else if i >= end + 2 {
                assert(s[i] == tail[i - end - 2]);
            }
        }
    }
    assert(free_of(open, 94)) by {
        assert forall|i: int| 0 <= i < open.len() implies #[trigger] open[i] != 94 by {
            assert(open[i] == s[i]);
        }
    }
    assert forall|k: int| 0 <= k < n implies s[k] != 91 && open[k] != 91 by {
        assert(s[k] == head[k] && open[k] == head[k]);
    }
    assert forall|k: int| n + 2 <= k < end implies s[k] != 91 && open[k] != 91 && s[k] != 125
        && open[k] != 125 by {
        assert(s[k] == name[k - n - 2] && open[k] == name[k - n - 2]);
    }
    lemma_no_buttons(s, 0, n);
    lemma_no_buttons(open, 0, n);
    lemma_pair_at(s, n + 2, end);
    lemma_pair_at(open, n + 2, end);
    let kept = if name.len() <= 253 {
        s
    } else {
        s.update(n, 46).update(n + 1, 46)
    };
    let a = head + (if name.len() <= 253 {
        seq![91u8, 123]
    } else {
        seq![46u8, 46]
    }) + name + seq![125u8, 93];
    assert(kept =~= a + tail);
    assert forall|k: int| n + 1 <= k < end + 2 implies kept[k] != 91 by {
        if n + 2 <= k < end {
            assert(kept[k] == s[k]);
        }
    }
    lemma_no_buttons(kept, n + 1, end + 2);
    lemma_buttons_behind(a, tail, 0);
    let u = open.update(n, 46).update(n + 1, 46);
    assert(u =~= head + seq![46u8, 46] + name);
    assert forall|k: int| n + 1 <= k < end implies u[k] != 91 by {
        if n + 2 <= k {
            assert(u[k] == open[k]);
        }
    }
    lemma_no_buttons(u, n + 1, end);
}

proof fn lemma_no_models(s: Seq<u8>, i: int, j: int)
    requires
        0 <= i <= j <= s.len(),
        forall|k: int| i <= k < j ==> s[k] != 36,
    ensures
        sanitize::models_from(s, i) == sanitize::models_from(s, j),
    decreases j - i,
{
    if i < j {
        lemma_no_models(s, i + 1, j);
    }
}

proof fn lemma_models_behind(a: Seq<u8>, b: Seq<u8>, i: int)
    requires
        0 <= i,
    ensures
        sanitize::models_from(a + b, a.len() + i) == a + sanitize::models_from(b, i),
    decreases b.len() - i,
{
    if i + 1 < b.len() {
        let s = a + b;
        assert(s[a.len() + i] == b[i]);
        assert(s[a.len() + i + 1] == b[i + 1]);
        if sanitize::pair_at(b, i, 36, 40) {
            let end = text::find_from(b, 41, i + 2);
            lemma_found_behind(a, b, 41, i + 2);
            text::lemma_find_from(b, 41, i + 2);
            if end < b.len() && end > i {
                lemma_models_behind(a, b, end + 1);
            } else {
                assert(s.update(a.len() + i, 46).update(a.len() + i + 1, 46) =~= a + b.update(
                    i,
                    46,
                ).update(i + 1, 46));
                lemma_models_behind(a, b.update(i, 46).update(i + 1, 46), i + 1);
            }
        } else {
            lemma_models_behind(a, b, i + 1);
        }
    }
}

/// A model reference, `$(` to the next `)`, stays however long it is; without an end both bytes
/// that open it become dots. A string without references stays as it is.
pub proof fn lemma_model_reference(head: Seq<u8>, name: Seq<u8>, tail: Seq<u8>)
    requires
        free_of(head, 36),
        free_of(name, 41),
    ensures
        sanitize::models_from(head, 0) == head,
        sanitize::models_from(head + seq![36u8, 40] + name + seq![41u8] + tail, 0) == head + seq![
            36u8,
            40,
        ] + name + seq![41u8] + sanitize::models_from(tail, 0),
        free_of(name, 36) ==> sanitize::models_from(head + seq![36u8, 40] + name, 0) == head + seq![
            46u8,
            46,
        ] + name,
{
    let n = head.len() as int;
    let end = n + 2 + name.len();
    let open = head + seq![36u8, 40] + name;
    let a = open + seq![41u8];
    let s = a + tail;
    lemma_no_models(head, 0, n);
    assert forall|k: int| 0 <= k < n implies s[k] != 36 && open[k] != 36 by {
        assert(s[k] == head[k] && open[k] == head[k]);
    }
    assert forall|k: int| n + 2 <= k < end implies s[k] != 41 && open[k] != 41 by {
        assert(s[k] == name[k - n - 2] && open[k] == name[k - n - 2]);
    }
    lemma_no_models(s, 0, n);
    lemma_no_models(open, 0, n);
    lemma_found_at(s, 41, n + 2, end);
    lemma_found_at(open, 41, n + 2, end);
    lemma_models_behind(a, tail, 0);
    if free_of(name, 36) {
        let u = open.update(n, 46).update(n + 1, 46);
        assert(u =~= head + seq![46u8, 46] + name);
        assert forall|k: int| n + 1 <= k < end implies u[k] != 36 by {
            if n + 2 <= k {
                assert(u[k] == name[k - n - 2]);
            }
        }
        lemma_no_models(u, n + 1, end);
    }
}

/// A byte of a chat text stays if it is printable, starts no colour and no format, and opens no
/// directive; any other becomes a dot. The NUL and what follows it stay.
pub proof fn lemma_chat(line: Seq<u8>, rest: Seq<u8>, i: int)
    requires
        free_of(line, 0),
        0 <= i < line.len() + 1 + rest.len(),
    ensures
        ({
            let s = line + seq![0u8] + rest;
            let shown = sanitize::sanitized_chat(s);
            let opens = i + 1 < line.len() && ((line[i] == '$' as u8 && line[i + 1] == '(' as u8)
                || (line[i] == '[' as u8 && line[i + 1] == '{' as u8));
            &&& shown.len() == s.len()
            &&& i >= line.len() ==> shown[i] == s[i]
            &&& i < line.len() ==> shown[i] == (if ' ' as u8 <= line[i] <= '~' as u8 && line[i]
                != '^' as u8 && line[i] != '%' as u8 && !opens {
                line[i]
            } else {
                '.' as u8
            })
        }),
{
    let s = line + seq![0u8] + rest;
    assert forall|k: int| 0 <= k < line.len() implies s[k] != 0 by {
        assert(s[k] == line[k]);
    }
    lemma_found_at(s, 0, 0, line.len() as int);
    if i < line.len() {
        assert(s[i] == line[i]);
        if i + 1 < line.len() {
            assert(s[i + 1] == line[i + 1]);
        }
    }
}

/// A path is taken if and only if each of its keys, which are set apart by dots, has at most 63
/// bytes.
pub proof fn lemma_path(first: Seq<u8>, rest: Seq<u8>)
    requires
        free_of(first, 46),
    ensures
        sanitize::short_keys(first) <==> first.len() <= 63,
        sanitize::short_keys(first + seq![46u8] + rest) <==> first.len() <= 63
            && sanitize::short_keys(rest),
{
    let n = first.len() as int;
    assert(sanitize::dotless(first, 0, n));
    if n <= 63 {
        assert(sanitize::short_keys(first));
    }
    let s = first + seq![46u8] + rest;
    if sanitize::short_keys(s) {
        assert forall|i: int| 0 <= i < n implies s[i] != 46 by {
            assert(s[i] == first[i]);
        }
        assert(sanitize::dotless(s, 0, n));
        assert forall|a: int, b: int|
            0 <= a <= b <= rest.len() && #[trigger] sanitize::dotless(rest, a, b) implies b - a < 64 by {
            assert forall|i: int| a + n + 1 <= i < b + n + 1 implies s[i] != 46 by {
                assert(s[i] == rest[i - n - 1]);
            }
            assert(sanitize::dotless(s, a + n + 1, b + n + 1));
        }
    }
    if n <= 63 && sanitize::short_keys(rest) {
        assert forall|a: int, b: int|
            0 <= a <= b <= s.len() && #[trigger] sanitize::dotless(s, a, b) implies b - a < 64 by {
            if a <= n < b {
                assert(s[n] == 46);
            } else if a > n {
                assert forall|i: int| a - n - 1 <= i < b - n - 1 implies rest[i] != 46 by {
                    assert(s[i + n + 1] == rest[i]);
                }
                assert(sanitize::dotless(rest, a - n - 1, b - n - 1));
            }
        }
    }
}

/// The game keeps a path if and only if memory holds it with its NUL among the first 65536 bytes,
/// and its keys are short.
pub proof fn lemma_game_path(memory: &[u8], path: Seq<u8>, rest: Seq<u8>)
    requires
        free_of(path, 0),
    ensures
        memory@ == path + seq![0u8] + rest ==> (sanitize::valid_game_path_of(Some(memory))
            <==> path.len() < 65_536 && sanitize::short_keys(path)),
        memory@ == path ==> !sanitize::valid_game_path_of(Some(memory)),
        !sanitize::valid_game_path_of(None),
{
    let s = path + seq![0u8] + rest;
    assert forall|k: int| 0 <= k < path.len() implies s[k] != 0 by {
        assert(s[k] == path[k]);
    }
    lemma_found_at(s, 0, 0, path.len() as int);
    assert(s.take(path.len() as int) =~= path);
    lemma_found_at(path, 0, 0, path.len() as int);
}

} // verus!
