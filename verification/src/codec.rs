//! The on-disk document format: a collection is persisted as one JSON
//! array of project objects, each `{"title": ..., "tasks": [...]}`, each
//! task `{"title": ..., "status": ..., "priority": 0..3}`. The encoder
//! and parser are defined here down to the character, and reading back
//! what was written recovers the collection exactly.
use vstd::prelude::*;

use crate::chars::{char_from_u32, from_chars, scalar, to_chars};
use crate::project::{collection_wf, Project, ProjectView};
use crate::task::{Status, Task, TaskView};

verus! {

// ---------------------------------------------------------------------
// The encoder, at the specification level.
// ---------------------------------------------------------------------
/// Hex digit character for a value below 16.
pub open spec fn hex_char(v: u32) -> char {
    if v == 0 {
        '0'
    } else if v == 1 {
        '1'
    } else if v == 2 {
        '2'
    } else if v == 3 {
        '3'
    } else if v == 4 {
        '4'
    } else if v == 5 {
        '5'
    } else if v == 6 {
        '6'
    } else if v == 7 {
        '7'
    } else if v == 8 {
        '8'
    } else if v == 9 {
        '9'
    } else if v == 10 {
        'a'
    } else if v == 11 {
        'b'
    } else if v == 12 {
        'c'
    } else if v == 13 {
        'd'
    } else if v == 14 {
        'e'
    } else {
        'f'
    }
}

/// A character that may stand unescaped inside a JSON string.
pub open spec fn plain_char(c: char) -> bool {
    c != '"' && c != '\\' && (c as u32) >= 0x20
}

/// How one character of a string is written: quotes and backslashes get
/// a backslash escape, control characters a `\u00XX` escape, the rest
/// stand as themselves.
pub open spec fn esc_char(c: char) -> Seq<char> {
    if c == '"' {
        seq!['\\', '"']
    } else if c == '\\' {
        seq!['\\', '\\']
    } else if (c as u32) < 0x20 {
        seq!['\\', 'u', '0', '0', hex_char((c as u32) / 16), hex_char((c as u32) % 16)]
    } else {
        seq![c]
    }
}

/// The body of an encoded string: each character escaped as needed.
pub open spec fn enc_chars(t: Seq<char>) -> Seq<char>
    decreases t.len(),
{
    if t.len() == 0 {
        Seq::empty()
    } else {
        esc_char(t[0]) + enc_chars(t.drop_first())
    }
}

/// A whole encoded string, quotes included.
pub open spec fn enc_string(t: Seq<char>) -> Seq<char> {
    seq!['"'] + enc_chars(t) + seq!['"']
}

/// The tag a status is stored under.
pub open spec fn status_tag(s: Status) -> Seq<char> {
    match s {
        Status::UpNext => seq!['U', 'p', 'N', 'e', 'x', 't'],
        Status::OnGoing => seq!['O', 'n', 'G', 'o', 'i', 'n', 'g'],
        Status::Done => seq!['D', 'o', 'n', 'e'],
    }
}

/// The digit a priority 0..3 is stored as.
pub open spec fn dig_char(p: u8) -> char {
    if p == 0 {
        '0'
    } else if p == 1 {
        '1'
    } else if p == 2 {
        '2'
    } else {
        '3'
    }
}

pub open spec fn lit_title() -> Seq<char> {
    seq!['"', 't', 'i', 't', 'l', 'e', '"']
}

pub open spec fn lit_status() -> Seq<char> {
    seq!['"', 's', 't', 'a', 't', 'u', 's', '"']
}

pub open spec fn lit_tasks() -> Seq<char> {
    seq!['"', 't', 'a', 's', 'k', 's', '"']
}

pub open spec fn lit_priority() -> Seq<char> {
    seq!['"', 'p', 'r', 'i', 'o', 'r', 'i', 't', 'y', '"']
}

/// One encoded task object.
pub open spec fn enc_task(t: TaskView) -> Seq<char> {
    seq!['{'] + lit_title() + seq![':'] + enc_string(t.title) + seq![','] + lit_status()
        + seq![':'] + enc_string(status_tag(t.status)) + seq![','] + lit_priority() + seq![':']
        + seq![dig_char(t.priority)] + seq!['}']
}

/// The comma-separated bodies of a task array.
pub open spec fn enc_tasks_inner(ts: Seq<TaskView>) -> Seq<char>
    decreases ts.len(),
{
    if ts.len() == 0 {
        Seq::empty()
    } else if ts.len() == 1 {
        enc_task(ts[0])
    } else {
        enc_task(ts[0]) + seq![','] + enc_tasks_inner(ts.drop_first())
    }
}

/// A whole encoded task array.
pub open spec fn enc_tasks(ts: Seq<TaskView>) -> Seq<char> {
    seq!['['] + enc_tasks_inner(ts) + seq![']']
}

/// One encoded project object.
pub open spec fn enc_project(p: ProjectView) -> Seq<char> {
    seq!['{'] + lit_title() + seq![':'] + enc_string(p.title) + seq![','] + lit_tasks()
        + seq![':'] + enc_tasks(p.tasks) + seq!['}']
}

/// The comma-separated bodies of the project array.
pub open spec fn enc_projects_inner(ps: Seq<ProjectView>) -> Seq<char>
    decreases ps.len(),
{
    if ps.len() == 0 {
        Seq::empty()
    } else if ps.len() == 1 {
        enc_project(ps[0])
    } else {
        enc_project(ps[0]) + seq![','] + enc_projects_inner(ps.drop_first())
    }
}

/// The whole persisted document for a collection.
pub open spec fn enc_collection(ps: Seq<ProjectView>) -> Seq<char> {
    seq!['['] + enc_projects_inner(ps) + seq![']']
}

// ---------------------------------------------------------------------
// The parser, at the specification level. Each function takes a
// position and returns the parsed value with the position just past it,
// or None when the text does not match the format.
// ---------------------------------------------------------------------
/// JSON whitespace.
pub open spec fn is_ws(c: char) -> bool {
    c == ' ' || c == '\t' || c == '\n' || c == '\r'
}

/// First position at or after `pos` holding a non-whitespace character.
pub open spec fn skip_ws(s: Seq<char>, pos: int) -> int
    decreases s.len() - pos,
    when 0 <= pos <= s.len()
{
    if pos < s.len() && is_ws(s[pos]) {
        skip_ws(s, pos + 1)
    } else {
        pos
    }
}

/// The literal `lit` stands in `s` at `pos`.
pub open spec fn at_lit(s: Seq<char>, pos: int, lit: Seq<char>) -> bool {
    0 <= pos && pos + lit.len() <= s.len() && s.subrange(pos, pos + lit.len()) == lit
}

/// Value of a hex digit character.
pub open spec fn hex_val(c: char) -> Option<u32> {
    if '0' <= c && c <= '9' {
        Some(((c as u32) - 48) as u32)
    } else if 'a' <= c && c <= 'f' {
        Some(((c as u32) - 87) as u32)
    } else if 'A' <= c && c <= 'F' {
        Some(((c as u32) - 55) as u32)
    } else {
        None
    }
}

/// The character a one-letter escape stands for.
pub open spec fn unesc_short(c: char) -> Option<char> {
    if c == '"' {
        Some('"')
    } else if c == '\\' {
        Some('\\')
    } else if c == '/' {
        Some('/')
    } else if c == 'b' {
        Some('\u{8}')
    } else if c == 'f' {
        Some('\u{c}')
    } else if c == 'n' {
        Some('\n')
    } else if c == 'r' {
        Some('\r')
    } else if c == 't' {
        Some('\t')
    } else {
        None
    }
}

/// String body parser: consumes up to and including the closing quote.
pub open spec fn parse_chars(s: Seq<char>, pos: int) -> Option<(Seq<char>, int)>
    decreases s.len() - pos,
    when 0 <= pos <= s.len()
{
    if pos >= s.len() {
        None
    } else if s[pos] == '"' {
        Some((Seq::empty(), pos + 1))
    } else if s[pos] == '\\' {
        if pos + 2 <= s.len() {
            let e = s[pos + 1];
            if e == 'u' {
                if pos + 6 <= s.len() {
                    let h = (hex_val(s[pos + 2]), hex_val(s[pos + 3]), hex_val(s[pos + 4]), hex_val(
                        s[pos + 5],
                    ));
                    if h.0 is Some && h.1 is Some && h.2 is Some && h.3 is Some {
                        let v = h.0->0 * 4096 + h.1->0 * 256 + h.2->0 * 16 + h.3->0;
                        if scalar(v as u32) {
                            match parse_chars(s, pos + 6) {
                                Some((rest, p)) => Some((seq![(v as u32) as char] + rest, p)),
                                None => None,
                            }
                        } else {
                            None
                        }
                    } else {
                        None
                    }
                } else {
                    None
                }
            } else {
                match unesc_short(e) {
                    Some(c) => match parse_chars(s, pos + 2) {
                        Some((rest, p)) => Some((seq![c] + rest, p)),
                        None => None,
                    },
                    None => None,
                }
            }
        } else {
            None
        }
    } else if (s[pos] as u32) < 0x20 {
        None
    } else {
        match parse_chars(s, pos + 1) {
            Some((rest, p)) => Some((seq![s[pos]] + rest, p)),
            None => None,
        }
    }
}

/// A quoted string starting exactly at `pos`.
pub open spec fn parse_string(s: Seq<char>, pos: int) -> Option<(Seq<char>, int)> {
    if 0 <= pos && pos < s.len() && s[pos] == '"' {
        parse_chars(s, pos + 1)
    } else {
        None
    }
}

/// The status a stored tag names.
pub open spec fn status_of_tag(t: Seq<char>) -> Option<Status> {
    if t == status_tag(Status::UpNext) {
        Some(Status::UpNext)
    } else if t == status_tag(Status::OnGoing) {
        Some(Status::OnGoing)
    } else if t == status_tag(Status::Done) {
        Some(Status::Done)
    } else {
        None
    }
}

/// The priority a stored digit names.
pub open spec fn dig_val(c: char) -> Option<u8> {
    if c == '0' {
        Some(0u8)
    } else if c == '1' {
        Some(1u8)
    } else if c == '2' {
        Some(2u8)
    } else {
        if c == '3' {
            Some(3u8)
        } else {
            None
        }
    }
}

/// One task object, with optional whitespace between tokens.
pub open spec fn parse_task(s: Seq<char>, pos: int) -> Option<(TaskView, int)> {
    let p0 = skip_ws(s, pos);
    if p0 < s.len() && s[p0] == '{' {
        let p1 = skip_ws(s, p0 + 1);
        if at_lit(s, p1, lit_title()) {
            let p2 = skip_ws(s, p1 + lit_title().len());
            if p2 < s.len() && s[p2] == ':' {
                match parse_string(s, skip_ws(s, p2 + 1)) {
                    Some((title, p3)) => {
                        if p3 <= s.len() {
                            let p4 = skip_ws(s, p3);
                            if p4 < s.len() && s[p4] == ',' {
                                let p5 = skip_ws(s, p4 + 1);
                                if at_lit(s, p5, lit_status()) {
                                    let p6 = skip_ws(s, p5 + lit_status().len());
                                    if p6 < s.len() && s[p6] == ':' {
                                        match parse_string(s, skip_ws(s, p6 + 1)) {
                                            Some((tag, p7)) => {
                                                if p7 <= s.len() && status_of_tag(tag) is Some {
                                                    let status = status_of_tag(tag)->0;
                                                    let p8 = skip_ws(s, p7);
                                                    if p8 < s.len() && s[p8] == ',' {
                                                        let p9 = skip_ws(s, p8 + 1);
                                                        if at_lit(s, p9, lit_priority()) {
                                                            let p10 = skip_ws(
                                                                s,
                                                                p9 + lit_priority().len(),
                                                            );
                                                            if p10 < s.len() && s[p10] == ':' {
                                                                let p11 = skip_ws(s, p10 + 1);
                                                                if p11 < s.len() && dig_val(
                                                                    s[p11],
                                                                ) is Some {
                                                                    let priority = dig_val(
                                                                        s[p11],
                                                                    )->0;
                                                                    let p12 = skip_ws(s, p11 + 1);
                                                                    if p12 < s.len() && s[p12]
                                                                        == '}' {
                                                                        Some(
                                                                            (
                                                                                TaskView {
                                                                                    title,
                                                                                    status,
                                                                                    priority,
                                                                                },
                                                                                p12 + 1,
                                                                            ),
                                                                        )
                                                                    } else {
                                                                        None
                                                                    }
                                                                } else {
                                                                    None
                                                                }
                                                            } else {
                                                                None
                                                            }
                                                        } else {
                                                            None
                                                        }
                                                    } else {
                                                        None
                                                    }
                                                } else {
                                                    None
                                                }
                                            },
                                            None => None,
                                        }
                                    } else {
                                        None
                                    }
                                } else {
                                    None
                                }
                            } else {
                                None
                            }
                        } else {
                            None
                        }
                    },
                    None => None,
                }
            } else {
                None
            }
        } else {
            None
        }
    } else {
        None
    }
}

/// The elements of a task array, starting after the opening bracket;
/// consumes the closing bracket.
pub open spec fn parse_tasks_rest(s: Seq<char>, pos: int) -> Option<(Seq<TaskView>, int)>
    decreases s.len() - pos,
    when 0 <= pos <= s.len()
{
    match parse_task(s, pos) {
        Some((t, p)) => {
            if pos < p && p <= s.len() {
                let q = skip_ws(s, p);
                if p <= q && q < s.len() && s[q] == ',' {
                    match parse_tasks_rest(s, q + 1) {
                        Some((rest, r)) => Some((seq![t] + rest, r)),
                        None => None,
                    }
                } else if p <= q && q < s.len() && s[q] == ']' {
                    Some((seq![t], q + 1))
                } else {
                    None
                }
            } else {
                None
            }
        },
        None => None,
    }
}

/// A whole task array.
pub open spec fn parse_tasks(s: Seq<char>, pos: int) -> Option<(Seq<TaskView>, int)> {
    let p0 = skip_ws(s, pos);
    if p0 < s.len() && s[p0] == '[' {
        let p1 = skip_ws(s, p0 + 1);
        if p1 < s.len() && s[p1] == ']' {
            Some((Seq::empty(), p1 + 1))
        } else {
            parse_tasks_rest(s, p0 + 1)
        }
    } else {
        None
    }
}

/// One project object.
pub open spec fn parse_project(s: Seq<char>, pos: int) -> Option<(ProjectView, int)> {
    let p0 = skip_ws(s, pos);
    if p0 < s.len() && s[p0] == '{' {
        let p1 = skip_ws(s, p0 + 1);
        if at_lit(s, p1, lit_title()) {
            let p2 = skip_ws(s, p1 + lit_title().len());
            if p2 < s.len() && s[p2] == ':' {
                match parse_string(s, skip_ws(s, p2 + 1)) {
                    Some((title, p3)) => {
                        if p3 <= s.len() {
                            let p4 = skip_ws(s, p3);
                            if p4 < s.len() && s[p4] == ',' {
                                let p5 = skip_ws(s, p4 + 1);
                                if at_lit(s, p5, lit_tasks()) {
                                    let p6 = skip_ws(s, p5 + lit_tasks().len());
                                    if p6 < s.len() && s[p6] == ':' {
                                        match parse_tasks(s, skip_ws(s, p6 + 1)) {
                                            Some((tasks, p7)) => {
                                                if p7 <= s.len() {
                                                    let p8 = skip_ws(s, p7);
                                                    if p8 < s.len() && s[p8] == '}' {
                                                        Some(
                                                            (ProjectView { title, tasks }, p8 + 1),
                                                        )
                                                    } else {
                                                        None
                                                    }
                                                } else {
                                                    None
                                                }
                                            },
                                            None => None,
                                        }
                                    } else {
                                        None
                                    }
                                } else {
                                    None
                                }
                            } else {
                                None
                            }
                        } else {
                            None
                        }
                    },
                    None => None,
                }
            } else {
                None
            }
        } else {
            None
        }
    } else {
        None
    }
}

/// The elements of the project array, starting after the opening
/// bracket; consumes the closing bracket.
pub open spec fn parse_projects_rest(s: Seq<char>, pos: int) -> Option<(Seq<ProjectView>, int)>
    decreases s.len() - pos,
    when 0 <= pos <= s.len()
{
    match parse_project(s, pos) {
        Some((t, p)) => {
            if pos < p && p <= s.len() {
                let q = skip_ws(s, p);
                if p <= q && q < s.len() && s[q] == ',' {
                    match parse_projects_rest(s, q + 1) {
                        Some((rest, r)) => Some((seq![t] + rest, r)),
                        None => None,
                    }
                } else if p <= q && q < s.len() && s[q] == ']' {
                    Some((seq![t], q + 1))
                } else {
                    None
                }
            } else {
                None
            }
        },
        None => None,
    }
}

/// The whole project array.
pub open spec fn parse_projects(s: Seq<char>, pos: int) -> Option<(Seq<ProjectView>, int)> {
    let p0 = skip_ws(s, pos);
    if p0 < s.len() && s[p0] == '[' {
        let p1 = skip_ws(s, p0 + 1);
        if p1 < s.len() && s[p1] == ']' {
            Some((Seq::empty(), p1 + 1))
        } else {
            parse_projects_rest(s, p0 + 1)
        }
    } else {
        None
    }
}

/// A whole persisted document: the project array with nothing but
/// whitespace around it.
pub open spec fn parse_collection(s: Seq<char>) -> Option<Seq<ProjectView>> {
    match parse_projects(s, 0) {
        Some((ps, p)) => if 0 <= p && p <= s.len() && skip_ws(s, p) == s.len() {
            Some(ps)
        } else {
            None
        },
        None => None,
    }
}

// ---------------------------------------------------------------------
// Reading back what the encoder wrote recovers the value: lemmas from
// the character level up to the whole document.
// ---------------------------------------------------------------------
/// Splitting a literal match at a concatenation point.
proof fn lemma_at_lit_split(s: Seq<char>, pos: int, a: Seq<char>, b: Seq<char>)
    requires
        at_lit(s, pos, a + b),
    ensures
        at_lit(s, pos, a),
        at_lit(s, pos + a.len(), b),
{
    assert forall|i: int| 0 <= i < a.len() implies s.subrange(pos, pos + a.len())[i] == a[i] by {
        assert(s.subrange(pos, pos + (a + b).len())[i] == (a + b)[i]);
    }
    assert(s.subrange(pos, pos + a.len()) =~= a);
    assert forall|i: int| 0 <= i < b.len() implies s.subrange(
        pos + a.len(),
        pos + a.len() + b.len(),
    )[i] == b[i] by {
        assert(s.subrange(pos, pos + (a + b).len())[a.len() + i] == (a + b)[a.len() + i]);
    }
    assert(s.subrange(pos + a.len(), pos + a.len() + b.len()) =~= b);
}

/// A matched literal pins down each character.
proof fn lemma_at_lit_char(s: Seq<char>, pos: int, t: Seq<char>, i: int)
    requires
        at_lit(s, pos, t),
        0 <= i < t.len(),
    ensures
        s[pos + i] == t[i],
{
    assert(s.subrange(pos, pos + t.len())[i] == s[pos + i]);
}

/// Casting a character to its code point and back is the identity.
proof fn lemma_char_cast_round(c: char)
    ensures
        (c as u32) as char == c,
{
}

/// Hex digits written by the encoder read back as their value.
proof fn lemma_hex_round(d: u32)
    requires
        d < 16,
    ensures
        hex_val(hex_char(d)) == Some(d),
{
}

/// The string-body parser undoes the string-body encoder, whatever
/// follows the closing quote.
proof fn lemma_parse_chars_enc(s: Seq<char>, pos: int, t: Seq<char>)
    requires
        0 <= pos,
        at_lit(s, pos, enc_chars(t) + seq!['"']),
    ensures
        parse_chars(s, pos) == Some((t, pos + enc_chars(t).len() + 1)),
    decreases t.len(),
{
    if t.len() == 0 {
        lemma_at_lit_char(s, pos, enc_chars(t) + seq!['"'], 0);
        assert(s[pos] == '"');
    } else {
        let c = t[0];
        let e = esc_char(c);
        let rest_enc = enc_chars(t.drop_first()) + seq!['"'];
        assert(enc_chars(t) + seq!['"'] =~= e + rest_enc);
        lemma_at_lit_split(s, pos, e, rest_enc);
        lemma_parse_chars_enc(s, pos + e.len(), t.drop_first());
        let inner = parse_chars(s, pos + e.len());
        assert(inner == Some(
            (t.drop_first(), pos + e.len() + enc_chars(t.drop_first()).len() + 1),
        ));
        if c == '"' {
            lemma_at_lit_char(s, pos, e, 0);
            lemma_at_lit_char(s, pos, e, 1);
            assert(s[pos] == '\\' && s[pos + 1] == '"');
            assert(parse_chars(s, pos) == Some((seq![c] + t.drop_first(), pos + e.len() + enc_chars(t.drop_first()).len() + 1)));
        } else if c == '\\' {
            lemma_at_lit_char(s, pos, e, 0);
            lemma_at_lit_char(s, pos, e, 1);
            assert(s[pos] == '\\' && s[pos + 1] == '\\');
            assert(parse_chars(s, pos) == Some((seq![c] + t.drop_first(), pos + e.len() + enc_chars(t.drop_first()).len() + 1)));
        } else if (c as u32) < 0x20 {
            lemma_at_lit_char(s, pos, e, 0);
            lemma_at_lit_char(s, pos, e, 1);
            lemma_at_lit_char(s, pos, e, 2);
            lemma_at_lit_char(s, pos, e, 3);
            lemma_at_lit_char(s, pos, e, 4);
            lemma_at_lit_char(s, pos, e, 5);
            let hi = (c as u32) / 16;
            let lo = (c as u32) % 16;
            lemma_hex_round(0);
            lemma_hex_round(hi);
            lemma_hex_round(lo);
            assert(hex_val(s[pos + 2]) == Some(0u32));
            assert(hex_val(s[pos + 3]) == Some(0u32));
            assert(hex_val(s[pos + 4]) == Some(hi));
            assert(hex_val(s[pos + 5]) == Some(lo));
            let v = hi * 16 + lo;
            assert(v == c as u32);
            assert(v as u32 == c as u32);
            lemma_char_cast_round(c);
            assert((v as u32) as char == c);
            assert(parse_chars(s, pos) == Some((seq![c] + t.drop_first(), pos + e.len() + enc_chars(t.drop_first()).len() + 1)));
        } else {
            lemma_at_lit_char(s, pos, e, 0);
            assert(s[pos] == c);
            assert(parse_chars(s, pos) == Some((seq![c] + t.drop_first(), pos + e.len() + enc_chars(t.drop_first()).len() + 1)));
        }
        assert(seq![c] + t.drop_first() =~= t);
    }
}

/// The string parser undoes the string encoder.
proof fn lemma_parse_string_enc(s: Seq<char>, pos: int, t: Seq<char>)
    requires
        0 <= pos,
        at_lit(s, pos, enc_string(t)),
    ensures
        parse_string(s, pos) == Some((t, pos + enc_string(t).len())),
{
    assert(enc_string(t) =~= seq!['"'] + (enc_chars(t) + seq!['"']));
    lemma_at_lit_split(s, pos, seq!['"'], enc_chars(t) + seq!['"']);
    lemma_at_lit_char(s, pos, seq!['"'], 0);
    lemma_parse_chars_enc(s, pos + 1, t);
}

/// A stored status tag reads back as the status it was written for.
proof fn lemma_status_tag_round(st: Status)
    ensures
        status_of_tag(status_tag(st)) == Some(st),
{
    match st {
        Status::UpNext => {
            assert(status_tag(Status::UpNext) =~= status_tag(Status::UpNext));
        },
        Status::OnGoing => {
            assert(status_tag(Status::OnGoing).len() != status_tag(Status::UpNext).len());
        },
        Status::Done => {
            assert(status_tag(Status::Done).len() != status_tag(Status::UpNext).len());
            assert(status_tag(Status::Done).len() != status_tag(Status::OnGoing).len());
        },
    }
}

/// The task parser undoes the task encoder, whatever follows.
proof fn lemma_parse_task_enc(s: Seq<char>, pos: int, tv: TaskView)
    requires
        0 <= pos,
        tv.wf(),
        at_lit(s, pos, enc_task(tv)),
    ensures
        parse_task(s, pos) == Some((tv, pos + enc_task(tv).len())),
{
    let title_enc = enc_string(tv.title);
    let tag_enc = enc_string(status_tag(tv.status));
    let q1 = pos + 1;
    let q2 = q1 + lit_title().len();
    let q3 = q2 + 1;
    let q4 = q3 + title_enc.len();
    let q5 = q4 + 1;
    let q6 = q5 + lit_status().len();
    let q7 = q6 + 1;
    let q8 = q7 + tag_enc.len();
    let q9 = q8 + 1;
    let q10 = q9 + lit_priority().len();
    let q11 = q10 + 1;
    let q12 = q11 + 1;
    let rest = seq![','] + lit_status() + seq![':'] + tag_enc + seq![','] + lit_priority()
        + seq![':'] + seq![dig_char(tv.priority)] + seq!['}'];
    assert(enc_task(tv) =~= seq!['{'] + (lit_title() + (seq![':'] + (title_enc + rest))));
    lemma_at_lit_split(s, pos, seq!['{'], lit_title() + (seq![':'] + (title_enc + rest)));
    lemma_at_lit_split(s, q1, lit_title(), seq![':'] + (title_enc + rest));
    lemma_at_lit_split(s, q2, seq![':'], title_enc + rest);
    lemma_at_lit_split(s, q3, title_enc, rest);
    assert(rest =~= seq![','] + (lit_status() + (seq![':'] + (tag_enc + (seq![','] + (lit_priority()
        + (seq![':'] + (seq![dig_char(tv.priority)] + seq!['}']))))))));
    lemma_at_lit_split(s, q4, seq![','], lit_status() + (seq![':'] + (tag_enc + (seq![','] + (
    lit_priority() + (seq![':'] + (seq![dig_char(tv.priority)] + seq!['}'])))))));
    lemma_at_lit_split(s, q5, lit_status(), seq![':'] + (tag_enc + (seq![','] + (lit_priority() + (
    seq![':'] + (seq![dig_char(tv.priority)] + seq!['}']))))));
    lemma_at_lit_split(s, q6, seq![':'], tag_enc + (seq![','] + (lit_priority() + (seq![':'] + (
    seq![dig_char(tv.priority)] + seq!['}'])))));
    lemma_at_lit_split(s, q7, tag_enc, seq![','] + (lit_priority() + (seq![':'] + (seq![dig_char(
        tv.priority,
    )] + seq!['}']))));
    lemma_at_lit_split(s, q8, seq![','], lit_priority() + (seq![':'] + (seq![dig_char(tv.priority)]
        + seq!['}'])));
    lemma_at_lit_split(s, q9, lit_priority(), seq![':'] + (seq![dig_char(tv.priority)] + seq!['}']));
    lemma_at_lit_split(s, q10, seq![':'], seq![dig_char(tv.priority)] + seq!['}']);
    lemma_at_lit_split(s, q11, seq![dig_char(tv.priority)], seq!['}']);
    lemma_at_lit_char(s, pos, seq!['{'], 0);
    lemma_at_lit_char(s, q2, seq![':'], 0);
    lemma_at_lit_char(s, q4, seq![','], 0);
    lemma_at_lit_char(s, q6, seq![':'], 0);
    lemma_at_lit_char(s, q8, seq![','], 0);
    lemma_at_lit_char(s, q10, seq![':'], 0);
    lemma_at_lit_char(s, q11, seq![dig_char(tv.priority)], 0);
    lemma_at_lit_char(s, q12, seq!['}'], 0);
    assert(skip_ws(s, pos) == pos);
    assert(skip_ws(s, q1) == q1) by {
        lemma_at_lit_char(s, q1, lit_title(), 0);
    }
    assert(skip_ws(s, q2) == q2);
    assert(skip_ws(s, q3) == q3) by {
        lemma_at_lit_char(s, q3, title_enc, 0);
        assert(title_enc[0] == '"');
    }
    lemma_parse_string_enc(s, q3, tv.title);
    assert(skip_ws(s, q4) == q4);
    assert(skip_ws(s, q5) == q5) by {
        lemma_at_lit_char(s, q5, lit_status(), 0);
    }
    assert(skip_ws(s, q6) == q6);
    assert(skip_ws(s, q7) == q7) by {
        lemma_at_lit_char(s, q7, tag_enc, 0);
        assert(tag_enc[0] == '"');
    }
    lemma_parse_string_enc(s, q7, status_tag(tv.status));
    lemma_status_tag_round(tv.status);
    assert(skip_ws(s, q8) == q8);
    assert(skip_ws(s, q9) == q9) by {
        lemma_at_lit_char(s, q9, lit_priority(), 0);
    }
    assert(skip_ws(s, q10) == q10);
    assert(skip_ws(s, q11) == q11);
    assert(dig_val(s[q11]) == Some(tv.priority));
    assert(skip_ws(s, q12) == q12);
    assert(parse_task(s, pos) == Some((tv, q12 + 1)));
    assert(q12 + 1 == pos + enc_task(tv).len());
}

/// All tasks of a sequence are well formed.
spec fn tasks_wf(ts: Seq<TaskView>) -> bool {
    forall|i: int| 0 <= i < ts.len() ==> (#[trigger] ts[i]).wf()
}

/// The task-array-elements parser undoes the encoder for a non-empty
/// array, whatever follows the closing bracket.
proof fn lemma_parse_tasks_rest_enc(s: Seq<char>, pos: int, ts: Seq<TaskView>)
    requires
        0 <= pos,
        ts.len() >= 1,
        tasks_wf(ts),
        at_lit(s, pos, enc_tasks_inner(ts) + seq![']']),
    ensures
        parse_tasks_rest(s, pos) == Some((ts, pos + enc_tasks_inner(ts).len() + 1)),
    decreases ts.len(),
{
    let t0 = ts[0];
    if ts.len() == 1 {
        assert(enc_tasks_inner(ts) + seq![']'] =~= enc_task(t0) + seq![']']);
        lemma_at_lit_split(s, pos, enc_task(t0), seq![']']);
        lemma_parse_task_enc(s, pos, t0);
        let p = pos + enc_task(t0).len();
        lemma_at_lit_char(s, p, seq![']'], 0);
        assert(skip_ws(s, p) == p);
        assert(seq![t0] =~= ts);
        assert(parse_tasks_rest(s, pos) == Some((ts, p + 1)));
    } else {
        let tail = ts.drop_first();
        assert(enc_tasks_inner(ts) + seq![']'] =~= enc_task(t0) + (seq![','] + (enc_tasks_inner(
            tail,
        ) + seq![']'])));
        lemma_at_lit_split(s, pos, enc_task(t0), seq![','] + (enc_tasks_inner(tail) + seq![']']));
        let p = pos + enc_task(t0).len();
        lemma_at_lit_split(s, p, seq![','], enc_tasks_inner(tail) + seq![']']);
        lemma_at_lit_char(s, p, seq![','], 0);
        assert(skip_ws(s, p) == p);
        assert(tasks_wf(tail)) by {
            assert(forall|i: int| 0 <= i < tail.len() ==> tail[i] == ts[i + 1]);
        }
        lemma_parse_tasks_rest_enc(s, p + 1, tail);
        lemma_parse_task_enc(s, pos, t0);
        assert(seq![t0] + tail =~= ts);
        assert(parse_tasks_rest(s, pos) == Some(
            (ts, p + 1 + enc_tasks_inner(tail).len() + 1),
        ));
    }
}

/// The task-array parser undoes the task-array encoder.
proof fn lemma_parse_tasks_enc(s: Seq<char>, pos: int, ts: Seq<TaskView>)
    requires
        0 <= pos,
        tasks_wf(ts),
        at_lit(s, pos, enc_tasks(ts)),
    ensures
        parse_tasks(s, pos) == Some((ts, pos + enc_tasks(ts).len())),
{
    assert(enc_tasks(ts) =~= seq!['['] + (enc_tasks_inner(ts) + seq![']']));
    lemma_at_lit_split(s, pos, seq!['['], enc_tasks_inner(ts) + seq![']']);
    lemma_at_lit_char(s, pos, seq!['['], 0);
    assert(skip_ws(s, pos) == pos);
    if ts.len() == 0 {
        lemma_at_lit_char(s, pos + 1, enc_tasks_inner(ts) + seq![']'], 0);
        assert(s[pos + 1] == ']');
        assert(skip_ws(s, pos + 1) == pos + 1);
        assert(parse_tasks(s, pos) == Some((Seq::<TaskView>::empty(), (pos + 2) as int)));
        assert(Seq::<TaskView>::empty() =~= ts);
    } else {
        lemma_at_lit_char(s, pos + 1, enc_tasks_inner(ts) + seq![']'], 0);
        assert((enc_tasks_inner(ts) + seq![']'])[0] == enc_task(ts[0])[0]);
        assert(enc_task(ts[0])[0] == '{');
        assert(s[pos + 1] == '{');
        assert(skip_ws(s, pos + 1) == pos + 1);
        lemma_parse_tasks_rest_enc(s, pos + 1, ts);
    }
}

/// The project parser undoes the project encoder, whatever follows.
proof fn lemma_parse_project_enc(s: Seq<char>, pos: int, pv: ProjectView)
    requires
        0 <= pos,
        pv.wf(),
        at_lit(s, pos, enc_project(pv)),
    ensures
        parse_project(s, pos) == Some((pv, pos + enc_project(pv).len())),
{
    let title_enc = enc_string(pv.title);
    let tasks_enc = enc_tasks(pv.tasks);
    let q1 = pos + 1;
    let q2 = q1 + lit_title().len();
    let q3 = q2 + 1;
    let q4 = q3 + title_enc.len();
    let q5 = q4 + 1;
    let q6 = q5 + lit_tasks().len();
    let q7 = q6 + 1;
    let q8 = q7 + tasks_enc.len();
    let rest = seq![','] + lit_tasks() + seq![':'] + tasks_enc + seq!['}'];
    assert(enc_project(pv) =~= seq!['{'] + (lit_title() + (seq![':'] + (title_enc + rest))));
    lemma_at_lit_split(s, pos, seq!['{'], lit_title() + (seq![':'] + (title_enc + rest)));
    lemma_at_lit_split(s, q1, lit_title(), seq![':'] + (title_enc + rest));
    lemma_at_lit_split(s, q2, seq![':'], title_enc + rest);
    lemma_at_lit_split(s, q3, title_enc, rest);
    assert(rest =~= seq![','] + (lit_tasks() + (seq![':'] + (tasks_enc + seq!['}']))));
    lemma_at_lit_split(s, q4, seq![','], lit_tasks() + (seq![':'] + (tasks_enc + seq!['}'])));
    lemma_at_lit_split(s, q5, lit_tasks(), seq![':'] + (tasks_enc + seq!['}']));
    lemma_at_lit_split(s, q6, seq![':'], tasks_enc + seq!['}']);
    lemma_at_lit_split(s, q7, tasks_enc, seq!['}']);
    lemma_at_lit_char(s, pos, seq!['{'], 0);
    lemma_at_lit_char(s, q2, seq![':'], 0);
    lemma_at_lit_char(s, q4, seq![','], 0);
    lemma_at_lit_char(s, q6, seq![':'], 0);
    lemma_at_lit_char(s, q8, seq!['}'], 0);
    assert(skip_ws(s, pos) == pos);
    assert(skip_ws(s, q1) == q1) by {
        lemma_at_lit_char(s, q1, lit_title(), 0);
    }
    assert(skip_ws(s, q2) == q2);
    assert(skip_ws(s, q3) == q3) by {
        lemma_at_lit_char(s, q3, title_enc, 0);
        assert(title_enc[0] == '"');
    }
    lemma_parse_string_enc(s, q3, pv.title);
    assert(skip_ws(s, q4) == q4);
    assert(skip_ws(s, q5) == q5) by {
        lemma_at_lit_char(s, q5, lit_tasks(), 0);
    }
    assert(skip_ws(s, q6) == q6);
    assert(skip_ws(s, q7) == q7) by {
        lemma_at_lit_char(s, q7, tasks_enc, 0);
        assert(tasks_enc[0] == '[');
    }
    assert(tasks_wf(pv.tasks));
    lemma_parse_tasks_enc(s, q7, pv.tasks);
    assert(skip_ws(s, q8) == q8);
    assert(parse_project(s, pos) == Some((pv, q8 + 1)));
    assert(q8 + 1 == pos + enc_project(pv).len());
}

/// The project-array-elements parser undoes the encoder for a
/// non-empty array.
proof fn lemma_parse_projects_rest_enc(s: Seq<char>, pos: int, ps: Seq<ProjectView>)
    requires
        0 <= pos,
        ps.len() >= 1,
        collection_wf(ps),
        at_lit(s, pos, enc_projects_inner(ps) + seq![']']),
    ensures
        parse_projects_rest(s, pos) == Some((ps, pos + enc_projects_inner(ps).len() + 1)),
    decreases ps.len(),
{
    let p0 = ps[0];
    if ps.len() == 1 {
        assert(enc_projects_inner(ps) + seq![']'] =~= enc_project(p0) + seq![']']);
        lemma_at_lit_split(s, pos, enc_project(p0), seq![']']);
        lemma_parse_project_enc(s, pos, p0);
        let p = pos + enc_project(p0).len();
        lemma_at_lit_char(s, p, seq![']'], 0);
        assert(skip_ws(s, p) == p);
        assert(seq![p0] =~= ps);
        assert(parse_projects_rest(s, pos) == Some((ps, p + 1)));
    } else {
        let tail = ps.drop_first();
        assert(enc_projects_inner(ps) + seq![']'] =~= enc_project(p0) + (seq![','] + (
        enc_projects_inner(tail) + seq![']'])));
        lemma_at_lit_split(s, pos, enc_project(p0), seq![','] + (enc_projects_inner(tail)
            + seq![']']));
        let p = pos + enc_project(p0).len();
        lemma_at_lit_split(s, p, seq![','], enc_projects_inner(tail) + seq![']']);
        lemma_at_lit_char(s, p, seq![','], 0);
        assert(skip_ws(s, p) == p);
        assert(collection_wf(tail)) by {
            assert(forall|i: int| 0 <= i < tail.len() ==> tail[i] == ps[i + 1]);
        }
        lemma_parse_projects_rest_enc(s, p + 1, tail);
        lemma_parse_project_enc(s, pos, p0);
        assert(seq![p0] + tail =~= ps);
        assert(parse_projects_rest(s, pos) == Some(
            (ps, p + 1 + enc_projects_inner(tail).len() + 1),
        ));
    }
}

/// Parsing the encoded document recovers the collection: the round
/// trip that makes a write followed by a read the identity.
pub proof fn lemma_parse_enc_collection(ps: Seq<ProjectView>)
    requires
        collection_wf(ps),
    ensures
        parse_collection(enc_collection(ps)) == Some(ps),
{
    let s = enc_collection(ps);
    assert(at_lit(s, 0, s)) by {
        assert(s.subrange(0, s.len() as int) =~= s);
    }
    assert(s =~= seq!['['] + (enc_projects_inner(ps) + seq![']']));
    lemma_at_lit_split(s, 0, seq!['['], enc_projects_inner(ps) + seq![']']);
    lemma_at_lit_char(s, 0, seq!['['], 0);
    assert(skip_ws(s, 0) == 0);
    if ps.len() == 0 {
        lemma_at_lit_char(s, 1, enc_projects_inner(ps) + seq![']'], 0);
        assert(s[1] == ']');
        assert(skip_ws(s, 1) == 1);
        assert(parse_projects(s, 0) == Some((Seq::<ProjectView>::empty(), 2int)));
        assert(Seq::<ProjectView>::empty() =~= ps);
        assert(skip_ws(s, 2) == 2);
    } else {
        lemma_at_lit_char(s, 1, enc_projects_inner(ps) + seq![']'], 0);
        assert((enc_projects_inner(ps) + seq![']'])[0] == enc_project(ps[0])[0]);
        assert(enc_project(ps[0])[0] == '{');
        assert(s[1] == '{');
        assert(skip_ws(s, 1) == 1);
        lemma_parse_projects_rest_enc(s, 1, ps);
        assert(parse_projects(s, 0) == Some((ps, s.len() as int)));
        assert(skip_ws(s, s.len() as int) == s.len());
    }
}

// ---------------------------------------------------------------------
// The executable encoder.
// ---------------------------------------------------------------------
/// Appending one character to a string body appends its escape.
proof fn lemma_enc_chars_snoc(t: Seq<char>, c: char)
    ensures
        enc_chars(t.push(c)) == enc_chars(t) + esc_char(c),
    decreases t.len(),
{
    if t.len() == 0 {
        assert(t.push(c).drop_first() =~= Seq::<char>::empty());
        assert(enc_chars(Seq::<char>::empty()) == Seq::<char>::empty());
        assert(enc_chars(t.push(c)) == esc_char(c) + enc_chars(Seq::<char>::empty()));
        assert(esc_char(c) + Seq::<char>::empty() =~= esc_char(c));
        assert(enc_chars(t) + esc_char(c) =~= esc_char(c));
    } else {
        assert(t.push(c).drop_first() =~= t.drop_first().push(c));
        lemma_enc_chars_snoc(t.drop_first(), c);
        assert(esc_char(t[0]) + (enc_chars(t.drop_first()) + esc_char(c)) =~= (esc_char(t[0])
            + enc_chars(t.drop_first())) + esc_char(c));
    }
}

/// A body of plain characters is written as itself.
proof fn lemma_enc_chars_plain(t: Seq<char>)
    requires
        forall|i: int| 0 <= i < t.len() ==> plain_char(#[trigger] t[i]),
    ensures
        enc_chars(t) == t,
    decreases t.len(),
{
    if t.len() == 0 {
        assert(enc_chars(t) =~= t);
    } else {
        assert(plain_char(t[0]));
        lemma_enc_chars_plain(t.drop_first());
        assert(seq![t[0]] + t.drop_first() =~= t);
    }
}

/// Appending one task to the array body appends a comma (if needed)
/// and its encoding.
proof fn lemma_enc_tasks_inner_snoc(ts: Seq<TaskView>, t: TaskView)
    ensures
        enc_tasks_inner(ts.push(t)) == if ts.len() == 0 {
            enc_task(t)
        } else {
            enc_tasks_inner(ts) + seq![','] + enc_task(t)
        },
    decreases ts.len(),
{
    let p = ts.push(t);
    if ts.len() == 0 {
        assert(p[0] == t);
    } else if ts.len() == 1 {
        assert(p.drop_first() =~= seq![t]);
        assert(enc_tasks_inner(seq![t]) == enc_task(t));
        assert(enc_task(ts[0]) + seq![','] + enc_task(t) =~= enc_task(p[0]) + (seq![',']
            + enc_tasks_inner(p.drop_first())));
        assert(enc_task(p[0]) + seq![','] + enc_tasks_inner(p.drop_first()) =~= enc_task(p[0]) + (
        seq![','] + enc_tasks_inner(p.drop_first())));
    } else {
        assert(p.drop_first() =~= ts.drop_first().push(t));
        lemma_enc_tasks_inner_snoc(ts.drop_first(), t);
        assert((enc_task(ts[0]) + seq![','] + enc_tasks_inner(ts.drop_first())) + seq![',']
            + enc_task(t) =~= enc_task(ts[0]) + (seq![','] + (enc_tasks_inner(ts.drop_first())
            + seq![','] + enc_task(t))));
        assert(enc_task(p[0]) + seq![','] + enc_tasks_inner(p.drop_first()) =~= enc_task(p[0]) + (
        seq![','] + enc_tasks_inner(p.drop_first())));
    }
}

/// Appending one project to the array body appends a comma (if
/// needed) and its encoding.
proof fn lemma_enc_projects_inner_snoc(ps: Seq<ProjectView>, p: ProjectView)
    ensures
        enc_projects_inner(ps.push(p)) == if ps.len() == 0 {
            enc_project(p)
        } else {
            enc_projects_inner(ps) + seq![','] + enc_project(p)
        },
    decreases ps.len(),
{
    let q = ps.push(p);
    if ps.len() == 0 {
        assert(q[0] == p);
    } else if ps.len() == 1 {
        assert(q.drop_first() =~= seq![p]);
        assert(enc_projects_inner(seq![p]) == enc_project(p));
        assert(enc_project(ps[0]) + seq![','] + enc_project(p) =~= enc_project(q[0]) + (seq![',']
            + enc_projects_inner(q.drop_first())));
        assert(enc_project(q[0]) + seq![','] + enc_projects_inner(q.drop_first()) =~= enc_project(
            q[0],
        ) + (seq![','] + enc_projects_inner(q.drop_first())));
    } else {
        assert(q.drop_first() =~= ps.drop_first().push(p));
        lemma_enc_projects_inner_snoc(ps.drop_first(), p);
        assert((enc_project(ps[0]) + seq![','] + enc_projects_inner(ps.drop_first())) + seq![',']
            + enc_project(p) =~= enc_project(ps[0]) + (seq![','] + (enc_projects_inner(
            ps.drop_first(),
        ) + seq![','] + enc_project(p))));
        assert(enc_project(q[0]) + seq![','] + enc_projects_inner(q.drop_first()) =~= enc_project(
            q[0],
        ) + (seq![','] + enc_projects_inner(q.drop_first())));
    }
}

/// Executable hex digit.
fn hex_char_exec(v: u32) -> (r: char)
    requires
        v < 16,
    ensures
        r == hex_char(v),
{
    if v == 0 {
        '0'
    } else if v == 1 {
        '1'
    } else if v == 2 {
        '2'
    } else if v == 3 {
        '3'
    } else if v == 4 {
        '4'
    } else if v == 5 {
        '5'
    } else if v == 6 {
        '6'
    } else if v == 7 {
        '7'
    } else if v == 8 {
        '8'
    } else if v == 9 {
        '9'
    } else if v == 10 {
        'a'
    } else if v == 11 {
        'b'
    } else if v == 12 {
        'c'
    } else if v == 13 {
        'd'
    } else if v == 14 {
        'e'
    } else {
        'f'
    }
}

/// Append the encoding of one string (quotes included).
fn encode_string_into(out: &mut Vec<char>, t: &str)
    ensures
        final(out)@ == old(out)@ + enc_string(t@),
{
    let chars = to_chars(t);
    out.push('"');
    let mut i: usize = 0;
    while i < chars.len()
        invariant
            i <= chars@.len(),
            chars@ == t@,
            out@ == old(out)@ + seq!['"'] + enc_chars(t@.subrange(0, i as int)),
        decreases chars@.len() - i,
    {
        let c = chars[i];
        if c == '"' {
            out.push('\\');
            out.push('"');
        } else if c == '\\' {
            out.push('\\');
            out.push('\\');
        } else if (c as u32) < 0x20 {
            out.push('\\');
            out.push('u');
            out.push('0');
            out.push('0');
            out.push(hex_char_exec((c as u32) / 16));
            out.push(hex_char_exec((c as u32) % 16));
        } else {
            out.push(c);
        }
        proof {
            lemma_enc_chars_snoc(t@.subrange(0, i as int), c);
            assert(t@.subrange(0, i as int).push(c) =~= t@.subrange(0, i + 1 as int));
            assert(out@ =~= old(out)@ + seq!['"'] + enc_chars(t@.subrange(0, i + 1 as int)));
        }
        i = i + 1;
    }
    out.push('"');
    proof {
        assert(t@.subrange(0, t@.len() as int) =~= t@);
        assert(out@ =~= old(out)@ + enc_string(t@));
    }
}

/// Append the stored tag of a status (quotes included).
fn encode_status_into(out: &mut Vec<char>, st: Status)
    ensures
        final(out)@ == old(out)@ + enc_string(status_tag(st)),
{
    out.push('"');
    match st {
        Status::UpNext => {
            out.push('U');
            out.push('p');
            out.push('N');
            out.push('e');
            out.push('x');
            out.push('t');
        },
        Status::OnGoing => {
            out.push('O');
            out.push('n');
            out.push('G');
            out.push('o');
            out.push('i');
            out.push('n');
            out.push('g');
        },
        Status::Done => {
            out.push('D');
            out.push('o');
            out.push('n');
            out.push('e');
        },
    }
    out.push('"');
    proof {
        let tag = status_tag(st);
        assert(forall|i: int| 0 <= i < tag.len() ==> plain_char(#[trigger] tag[i]));
        lemma_enc_chars_plain(tag);
        assert(out@ =~= old(out)@ + enc_string(tag));
    }
}

/// Append the encoding of one task object.
fn encode_task_into(out: &mut Vec<char>, t: &Task)
    requires
        t.wf(),
    ensures
        final(out)@ == old(out)@ + enc_task(t@),
{
    out.push('{');
    out.push('"');
    out.push('t');
    out.push('i');
    out.push('t');
    out.push('l');
    out.push('e');
    out.push('"');
    out.push(':');
    encode_string_into(out, self_title(t));
    out.push(',');
    out.push('"');
    out.push('s');
    out.push('t');
    out.push('a');
    out.push('t');
    out.push('u');
    out.push('s');
    out.push('"');
    out.push(':');
    encode_status_into(out, t.status);
    out.push(',');
    out.push('"');
    out.push('p');
    out.push('r');
    out.push('i');
    out.push('o');
    out.push('r');
    out.push('i');
    out.push('t');
    out.push('y');
    out.push('"');
    out.push(':');
    let d: char = if t.priority == 0 {
        '0'
    } else if t.priority == 1 {
        '1'
    } else if t.priority == 2 {
        '2'
    } else {
        '3'
    };
    out.push(d);
    out.push('}');
    proof {
        assert(out@ =~= old(out)@ + enc_task(t@));
    }
}

/// The borrowed title of a task (keeps the borrow checker clear about
/// `out` and `t` being distinct).
fn self_title(t: &Task) -> (r: &str)
    ensures
        r@ == t.title@,
{
    t.title.as_str()
}

/// Append the encoding of a whole task array.
fn encode_tasks_into(out: &mut Vec<char>, ts: &Vec<Task>)
    requires
        forall|i: int| 0 <= i < ts@.len() ==> (#[trigger] ts@[i]).wf(),
    ensures
        final(out)@ == old(out)@ + enc_tasks(ts.deep_view()),
{
    out.push('[');
    let mut i: usize = 0;
    while i < ts.len()
        invariant
            i <= ts@.len(),
            forall|k: int| 0 <= k < ts@.len() ==> (#[trigger] ts@[k]).wf(),
            out@ == old(out)@ + seq!['['] + enc_tasks_inner(ts.deep_view().subrange(0, i as int)),
        decreases ts@.len() - i,
    {
        if i > 0 {
            out.push(',');
        }
        encode_task_into(out, &ts[i]);
        proof {
            let pre = ts.deep_view().subrange(0, i as int);
            lemma_enc_tasks_inner_snoc(pre, ts@[i as int]@);
            assert(pre.push(ts@[i as int]@) =~= ts.deep_view().subrange(0, i + 1 as int));
            assert(out@ =~= old(out)@ + seq!['['] + enc_tasks_inner(
                ts.deep_view().subrange(0, i + 1 as int),
            ));
        }
        i = i + 1;
    }
    out.push(']');
    proof {
        assert(ts.deep_view().subrange(0, ts.deep_view().len() as int) =~= ts.deep_view());
        assert(out@ =~= old(out)@ + enc_tasks(ts.deep_view()));
    }
}

/// Append the encoding of one project object.
fn encode_project_into(out: &mut Vec<char>, p: &Project)
    requires
        p@.wf(),
    ensures
        final(out)@ == old(out)@ + enc_project(p@),
{
    out.push('{');
    out.push('"');
    out.push('t');
    out.push('i');
    out.push('t');
    out.push('l');
    out.push('e');
    out.push('"');
    out.push(':');
    encode_string_into(out, p.title.as_str());
    out.push(',');
    out.push('"');
    out.push('t');
    out.push('a');
    out.push('s');
    out.push('k');
    out.push('s');
    out.push('"');
    out.push(':');
    proof {
        assert forall|i: int| 0 <= i < p.tasks@.len() implies (#[trigger] p.tasks@[i]).wf() by {
            assert(p@.tasks[i].wf());
            assert(p@.tasks[i] == p.tasks@[i]@);
        }
    }
    encode_tasks_into(out, &p.tasks);
    out.push('}');
    proof {
        assert(out@ =~= old(out)@ + enc_project(p@));
    }
}

/// The persisted text of a whole collection.
pub fn encode_collection(ps: &Vec<Project>) -> (r: String)
    requires
        collection_wf(ps.deep_view()),
    ensures
        r@ == enc_collection(ps.deep_view()),
{
    let mut out: Vec<char> = Vec::new();
    out.push('[');
    let mut i: usize = 0;
    while i < ps.len()
        invariant
            i <= ps@.len(),
            collection_wf(ps.deep_view()),
            out@ == seq!['['] + enc_projects_inner(ps.deep_view().subrange(0, i as int)),
        decreases ps@.len() - i,
    {
        if i > 0 {
            out.push(',');
        }
        proof {
            assert(ps.deep_view()[i as int].wf());
            assert(ps.deep_view()[i as int] == ps@[i as int]@);
        }
        encode_project_into(&mut out, &ps[i]);
        proof {
            let pre = ps.deep_view().subrange(0, i as int);
            lemma_enc_projects_inner_snoc(pre, ps@[i as int]@);
            assert(pre.push(ps@[i as int]@) =~= ps.deep_view().subrange(0, i + 1 as int));
            assert(out@ =~= seq!['['] + enc_projects_inner(
                ps.deep_view().subrange(0, i + 1 as int),
            ));
        }
        i = i + 1;
    }
    out.push(']');
    proof {
        assert(ps.deep_view().subrange(0, ps.deep_view().len() as int) =~= ps.deep_view());
        assert(out@ =~= enc_collection(ps.deep_view()));
    }
    from_chars(&out)
}

// ---------------------------------------------------------------------
// The executable parser.
// ---------------------------------------------------------------------
/// Executable whitespace skip.
pub(crate) fn skip_ws_exec(s: &Vec<char>, pos: usize) -> (r: usize)
    requires
        pos <= s@.len(),
    ensures
        r == skip_ws(s@, pos as int),
        pos <= r <= s@.len(),
{
    let mut cur = pos;
    while cur < s.len() && is_ws_exec(s[cur])
        invariant
            pos <= cur <= s@.len(),
            skip_ws(s@, pos as int) == skip_ws(s@, cur as int),
        decreases s@.len() - cur,
    {
        cur = cur + 1;
    }
    cur
}

/// Executable whitespace test.
pub(crate) fn is_ws_exec(c: char) -> (r: bool)
    ensures
        r == is_ws(c),
{
    c == ' ' || c == '\t' || c == '\n' || c == '\r'
}

/// Executable hex digit value.
fn hex_val_exec(c: char) -> (r: Option<u32>)
    ensures
        r == hex_val(c),
        r matches Some(v) ==> v < 16,
{
    if '0' <= c && c <= '9' {
        Some((c as u32) - 48)
    } else if 'a' <= c && c <= 'f' {
        Some((c as u32) - 87)
    } else if 'A' <= c && c <= 'F' {
        Some((c as u32) - 55)
    } else {
        None
    }
}

/// Executable short-escape decoding.
fn unesc_short_exec(c: char) -> (r: Option<char>)
    ensures
        r == unesc_short(c),
{
    if c == '"' {
        Some('"')
    } else if c == '\\' {
        Some('\\')
    } else if c == '/' {
        Some('/')
    } else if c == 'b' {
        Some('\u{8}')
    } else if c == 'f' {
        Some('\u{c}')
    } else if c == 'n' {
        Some('\n')
    } else if c == 'r' {
        Some('\r')
    } else if c == 't' {
        Some('\t')
    } else {
        None
    }
}

/// Whether the literal stands in `s` at `pos`.
fn at_lit_exec(s: &Vec<char>, pos: usize, lit: &Vec<char>) -> (r: bool)
    requires
        pos <= s@.len(),
    ensures
        r == at_lit(s@, pos as int, lit@),
{
    if s.len() - pos < lit.len() {
        return false;
    }
    let mut i: usize = 0;
    while i < lit.len()
        invariant
            pos + lit@.len() <= s@.len(),
            s@.len() <= usize::MAX,
            i <= lit@.len(),
            forall|j: int| 0 <= j < i ==> s@[pos + j] == lit@[j],
        decreases lit@.len() - i,
    {
        if s[pos + i] != lit[i] {
            proof {
                assert(s@.subrange(pos as int, pos + lit@.len())[i as int] == s@[pos + i]);
            }
            return false;
        }
        i = i + 1;
    }
    proof {
        assert(s@.subrange(pos as int, pos + lit@.len()) =~= lit@);
    }
    true
}

/// The key literals, as vectors.
fn lit_title_vec() -> (r: Vec<char>)
    ensures
        r@ == lit_title(),
{
    let mut v: Vec<char> = Vec::new();
    v.push('"');
    v.push('t');
    v.push('i');
    v.push('t');
    v.push('l');
    v.push('e');
    v.push('"');
    proof {
        assert(v@ =~= lit_title());
    }
    v
}

fn lit_status_vec() -> (r: Vec<char>)
    ensures
        r@ == lit_status(),
{
    let mut v: Vec<char> = Vec::new();
    v.push('"');
    v.push('s');
    v.push('t');
    v.push('a');
    v.push('t');
    v.push('u');
    v.push('s');
    v.push('"');
    proof {
        assert(v@ =~= lit_status());
    }
    v
}

fn lit_tasks_vec() -> (r: Vec<char>)
    ensures
        r@ == lit_tasks(),
{
    let mut v: Vec<char> = Vec::new();
    v.push('"');
    v.push('t');
    v.push('a');
    v.push('s');
    v.push('k');
    v.push('s');
    v.push('"');
    proof {
        assert(v@ =~= lit_tasks());
    }
    v
}

fn lit_priority_vec() -> (r: Vec<char>)
    ensures
        r@ == lit_priority(),
{
    let mut v: Vec<char> = Vec::new();
    v.push('"');
    v.push('p');
    v.push('r');
    v.push('i');
    v.push('o');
    v.push('r');
    v.push('i');
    v.push('t');
    v.push('y');
    v.push('"');
    proof {
        assert(v@ =~= lit_priority());
    }
    v
}

/// Executable string parser, starting at the opening quote.
fn parse_string_exec(s: &Vec<char>, pos: usize) -> (r: Option<(String, usize)>)
    requires
        pos <= s@.len(),
    ensures
        match r {
            Some((t, p)) => parse_string(s@, pos as int) == Some((t@, p as int)) && pos < p
                <= s@.len(),
            None => parse_string(s@, pos as int) is None,
        },
{
    if pos >= s.len() || s[pos] != '"' {
        return None;
    }
    let mut cur = pos + 1;
    let mut acc: Vec<char> = Vec::new();
    proof {
        if parse_chars(s@, cur as int) is Some {
            let pr = parse_chars(s@, cur as int)->0;
            assert(acc@ + pr.0 =~= pr.0);
        }
    }
    loop
        invariant
            pos + 1 <= cur <= s@.len(),
            pos < s@.len(),
            s@[pos as int] == '"',
            (match parse_chars(s@, cur as int) {
                Some(pr) => parse_chars(s@, pos + 1 as int) == Some((acc@ + pr.0, pr.1)),
                None => parse_chars(s@, pos + 1 as int) is None,
            }),
        decreases s@.len() - cur,
    {
        if cur >= s.len() {
            return None;
        }
        let c = s[cur];
        if c == '"' {
            proof {
                assert(parse_chars(s@, cur as int) == Some(
                    (Seq::<char>::empty(), cur + 1 as int),
                ));
                assert(acc@ + Seq::<char>::empty() =~= acc@);
            }
            let t = from_chars(&acc);
            return Some((t, cur + 1));
        } else if c == '\\' {
            if s.len() - cur < 2 {
                return None;
            }
            let e = s[cur + 1];
            if e == 'u' {
                if s.len() - cur < 6 {
                    return None;
                }
                let h0 = hex_val_exec(s[cur + 2]);
                let h1 = hex_val_exec(s[cur + 3]);
                let h2 = hex_val_exec(s[cur + 4]);
                let h3 = hex_val_exec(s[cur + 5]);
                if h0.is_none() || h1.is_none() || h2.is_none() || h3.is_none() {
                    return None;
                }
                let v = h0.unwrap() * 4096 + h1.unwrap() * 256 + h2.unwrap() * 16 + h3.unwrap();
                match char_from_u32(v) {
                    None => {
                        return None;
                    },
                    Some(ch) => {
                        proof {
                            let co = cur as int;
                            if parse_chars(s@, co + 6) is Some {
                                let pr = parse_chars(s@, co + 6)->0;
                                assert(parse_chars(s@, co) == Some((seq![ch] + pr.0, pr.1)));
                                assert(acc@ + (seq![ch] + pr.0) =~= acc@.push(ch) + pr.0);
                            }
                        }
                        acc.push(ch);
                        cur = cur + 6;
                    },
                }
            } else {
                match unesc_short_exec(e) {
                    None => {
                        return None;
                    },
                    Some(ch) => {
                        proof {
                            let co = cur as int;
                            if parse_chars(s@, co + 2) is Some {
                                let pr = parse_chars(s@, co + 2)->0;
                                assert(parse_chars(s@, co) == Some((seq![ch] + pr.0, pr.1)));
                                assert(acc@ + (seq![ch] + pr.0) =~= acc@.push(ch) + pr.0);
                            }
                        }
                        acc.push(ch);
                        cur = cur + 2;
                    },
                }
            }
        } else if (c as u32) < 0x20 {
            return None;
        } else {
            proof {
                let co = cur as int;
                if parse_chars(s@, co + 1) is Some {
                    let pr = parse_chars(s@, co + 1)->0;
                    assert(parse_chars(s@, co) == Some((seq![c] + pr.0, pr.1)));
                    assert(acc@ + (seq![c] + pr.0) =~= acc@.push(c) + pr.0);
                }
            }
            acc.push(c);
            cur = cur + 1;
        }
    }
}

/// The status a parsed tag string names.
fn status_from_tag_exec(t: &String) -> (r: Option<Status>)
    ensures
        r == status_of_tag(t@),
{
    proof {
        reveal_strlit("UpNext");
        reveal_strlit("OnGoing");
        reveal_strlit("Done");
        assert("UpNext"@ =~= status_tag(Status::UpNext));
        assert("OnGoing"@ =~= status_tag(Status::OnGoing));
        assert("Done"@ =~= status_tag(Status::Done));
    }
    let up_next = String::from_str("UpNext");
    let on_going = String::from_str("OnGoing");
    let done = String::from_str("Done");
    if *t == up_next {
        Some(Status::UpNext)
    } else if *t == on_going {
        Some(Status::OnGoing)
    } else if *t == done {
        Some(Status::Done)
    } else {
        None
    }
}

/// Executable digit-to-priority.
fn dig_val_exec(c: char) -> (r: Option<u8>)
    ensures
        r == dig_val(c),
{
    if c == '0' {
        Some(0)
    } else if c == '1' {
        Some(1)
    } else if c == '2' {
        Some(2)
    } else if c == '3' {
        Some(3)
    } else {
        None
    }
}

/// Executable task-object parser.
fn parse_task_exec(s: &Vec<char>, pos: usize) -> (r: Option<(Task, usize)>)
    requires
        pos <= s@.len(),
    ensures
        match r {
            Some((t, p)) => parse_task(s@, pos as int) == Some((t@, p as int)) && pos < p
                <= s@.len(),
            None => parse_task(s@, pos as int) is None,
        },
{
    let lit_t = lit_title_vec();
    let lit_s = lit_status_vec();
    let lit_p = lit_priority_vec();
    let p0 = skip_ws_exec(s, pos);
    if !(p0 < s.len() && s[p0] == '{') {
        return None;
    }
    let p1 = skip_ws_exec(s, p0 + 1);
    if !at_lit_exec(s, p1, &lit_t) {
        return None;
    }
    let p2 = skip_ws_exec(s, p1 + lit_t.len());
    if !(p2 < s.len() && s[p2] == ':') {
        return None;
    }
    let sp = skip_ws_exec(s, p2 + 1);
    let title;
    let p3;
    match parse_string_exec(s, sp) {
        None => {
            return None;
        },
        Some((t, p)) => {
            title = t;
            p3 = p;
        },
    }
    let p4 = skip_ws_exec(s, p3);
    if !(p4 < s.len() && s[p4] == ',') {
        return None;
    }
    let p5 = skip_ws_exec(s, p4 + 1);
    if !at_lit_exec(s, p5, &lit_s) {
        return None;
    }
    let p6 = skip_ws_exec(s, p5 + lit_s.len());
    if !(p6 < s.len() && s[p6] == ':') {
        return None;
    }
    let sq = skip_ws_exec(s, p6 + 1);
    let tag;
    let p7;
    match parse_string_exec(s, sq) {
        None => {
            return None;
        },
        Some((t, p)) => {
            tag = t;
            p7 = p;
        },
    }
    let status;
    match status_from_tag_exec(&tag) {
        None => {
            return None;
        },
        Some(st) => {
            status = st;
        },
    }
    let p8 = skip_ws_exec(s, p7);
    if !(p8 < s.len() && s[p8] == ',') {
        return None;
    }
    let p9 = skip_ws_exec(s, p8 + 1);
    if !at_lit_exec(s, p9, &lit_p) {
        return None;
    }
    let p10 = skip_ws_exec(s, p9 + lit_p.len());
    if !(p10 < s.len() && s[p10] == ':') {
        return None;
    }
    let p11 = skip_ws_exec(s, p10 + 1);
    if p11 >= s.len() {
        return None;
    }
    let priority;
    match dig_val_exec(s[p11]) {
        None => {
            return None;
        },
        Some(d) => {
            priority = d;
        },
    }
    let p12 = skip_ws_exec(s, p11 + 1);
    if !(p12 < s.len() && s[p12] == '}') {
        return None;
    }
    Some((Task { title, status, priority }, p12 + 1))
}

/// Executable task-array parser.
fn parse_tasks_exec(s: &Vec<char>, pos: usize) -> (r: Option<(Vec<Task>, usize)>)
    requires
        pos <= s@.len(),
    ensures
        match r {
            Some((ts, p)) => parse_tasks(s@, pos as int) == Some((ts.deep_view(), p as int))
                && pos < p <= s@.len(),
            None => parse_tasks(s@, pos as int) is None,
        },
{
    let p0 = skip_ws_exec(s, pos);
    if !(p0 < s.len() && s[p0] == '[') {
        return None;
    }
    let p1 = skip_ws_exec(s, p0 + 1);
    if p1 < s.len() && s[p1] == ']' {
        let empty: Vec<Task> = Vec::new();
        proof {
            assert(empty.deep_view() =~= Seq::<TaskView>::empty());
        }
        return Some((empty, p1 + 1));
    }
    let start = p0 + 1;
    let mut cur = start;
    let mut acc: Vec<Task> = Vec::new();
    proof {
        if parse_tasks_rest(s@, cur as int) is Some {
            let pr = parse_tasks_rest(s@, cur as int)->0;
            assert(acc.deep_view() + pr.0 =~= pr.0);
        }
    }
    loop
        invariant
            start <= cur <= s@.len(),
            pos <= p0,
            pos <= s@.len(),
            skip_ws(s@, pos as int) == p0,
            p0 < s@.len() && s@[p0 as int] == '[',
            start == p0 + 1,
            !(skip_ws(s@, start as int) < s@.len() && s@[skip_ws(s@, start as int)] == ']'),
            (match parse_tasks_rest(s@, cur as int) {
                Some(pr) => parse_tasks_rest(s@, start as int) == Some(
                    (acc.deep_view() + pr.0, pr.1),
                ),
                None => parse_tasks_rest(s@, start as int) is None,
            }),
        decreases s@.len() - cur,
    {
        match parse_task_exec(s, cur) {
            None => {
                return None;
            },
            Some((t, p)) => {
                let ghost old_acc = acc.deep_view();
                acc.push(t);
                proof {
                    assert(acc.deep_view() =~= old_acc.push(t@));
                }
                let q = skip_ws_exec(s, p);
                if q < s.len() && s[q] == ',' {
                    proof {
                        let co = cur as int;
                        if parse_tasks_rest(s@, q + 1 as int) is Some {
                            let pr = parse_tasks_rest(s@, q + 1 as int)->0;
                            assert(parse_tasks_rest(s@, co) == Some((seq![t@] + pr.0, pr.1)));
                            assert(old_acc + (seq![t@] + pr.0) =~= old_acc.push(t@) + pr.0);
                        } else {
                            assert(parse_tasks_rest(s@, co) is None);
                        }
                    }
                    cur = q + 1;
                } else if q < s.len() && s[q] == ']' {
                    proof {
                        let co = cur as int;
                        assert(parse_tasks_rest(s@, co) == Some((seq![t@], q + 1 as int)));
                        assert(old_acc + seq![t@] =~= old_acc.push(t@));
                    }
                    return Some((acc, q + 1));
                } else {
                    return None;
                }
            },
        }
    }
}

/// Executable project-object parser.
fn parse_project_exec(s: &Vec<char>, pos: usize) -> (r: Option<(Project, usize)>)
    requires
        pos <= s@.len(),
    ensures
        match r {
            Some((pj, p)) => parse_project(s@, pos as int) == Some((pj@, p as int)) && pos < p
                <= s@.len(),
            None => parse_project(s@, pos as int) is None,
        },
{
    let lit_t = lit_title_vec();
    let lit_k = lit_tasks_vec();
    let p0 = skip_ws_exec(s, pos);
    if !(p0 < s.len() && s[p0] == '{') {
        return None;
    }
    let p1 = skip_ws_exec(s, p0 + 1);
    if !at_lit_exec(s, p1, &lit_t) {
        return None;
    }
    let p2 = skip_ws_exec(s, p1 + lit_t.len());
    if !(p2 < s.len() && s[p2] == ':') {
        return None;
    }
    let sp = skip_ws_exec(s, p2 + 1);
    let title;
    let p3;
    match parse_string_exec(s, sp) {
        None => {
            return None;
        },
        Some((t, p)) => {
            title = t;
            p3 = p;
        },
    }
    let p4 = skip_ws_exec(s, p3);
    if !(p4 < s.len() && s[p4] == ',') {
        return None;
    }
    let p5 = skip_ws_exec(s, p4 + 1);
    if !at_lit_exec(s, p5, &lit_k) {
        return None;
    }
    let p6 = skip_ws_exec(s, p5 + lit_k.len());
    if !(p6 < s.len() && s[p6] == ':') {
        return None;
    }
    let sq = skip_ws_exec(s, p6 + 1);
    let tasks;
    let p7;
    match parse_tasks_exec(s, sq) {
        None => {
            return None;
        },
        Some((ts, p)) => {
            tasks = ts;
            p7 = p;
        },
    }
    let p8 = skip_ws_exec(s, p7);
    if !(p8 < s.len() && s[p8] == '}') {
        return None;
    }
    proof {
        assert(skip_ws(s@, pos as int) == p0);
        assert(parse_string(s@, skip_ws(s@, p2 + 1 as int)) == Some((title@, p3 as int)));
        assert(parse_tasks(s@, skip_ws(s@, p6 + 1 as int)) == Some((tasks.deep_view(), p7 as int)));
        assert(parse_project(s@, pos as int) == Some(
            (ProjectView { title: title@, tasks: tasks.deep_view() }, p8 + 1 as int),
        ));
    }
    Some((Project { title, tasks }, p8 + 1))
}

/// Executable project-array parser.
fn parse_projects_exec(s: &Vec<char>, pos: usize) -> (r: Option<(Vec<Project>, usize)>)
    requires
        pos <= s@.len(),
    ensures
        match r {
            Some((ps, p)) => parse_projects(s@, pos as int) == Some((ps.deep_view(), p as int))
                && p <= s@.len(),
            None => parse_projects(s@, pos as int) is None,
        },
{
    let p0 = skip_ws_exec(s, pos);
    if !(p0 < s.len() && s[p0] == '[') {
        return None;
    }
    let p1 = skip_ws_exec(s, p0 + 1);
    if p1 < s.len() && s[p1] == ']' {
        let empty: Vec<Project> = Vec::new();
        proof {
            assert(empty.deep_view() =~= Seq::<ProjectView>::empty());
        }
        return Some((empty, p1 + 1));
    }
    let start = p0 + 1;
    let mut cur = start;
    let mut acc: Vec<Project> = Vec::new();
    proof {
        if parse_projects_rest(s@, cur as int) is Some {
            let pr = parse_projects_rest(s@, cur as int)->0;
            assert(acc.deep_view() + pr.0 =~= pr.0);
        }
    }
    loop
        invariant
            start <= cur <= s@.len(),
            pos <= p0,
            pos <= s@.len(),
            skip_ws(s@, pos as int) == p0,
            p0 < s@.len() && s@[p0 as int] == '[',
            start == p0 + 1,
            !(skip_ws(s@, start as int) < s@.len() && s@[skip_ws(s@, start as int)] == ']'),
            (match parse_projects_rest(s@, cur as int) {
                Some(pr) => parse_projects_rest(s@, start as int) == Some(
                    (acc.deep_view() + pr.0, pr.1),
                ),
                None => parse_projects_rest(s@, start as int) is None,
            }),
        decreases s@.len() - cur,
    {
        match parse_project_exec(s, cur) {
            None => {
                return None;
            },
            Some((pj, p)) => {
                let ghost old_acc = acc.deep_view();
                acc.push(pj);
                proof {
                    assert(acc.deep_view() =~= old_acc.push(pj@));
                }
                let q = skip_ws_exec(s, p);
                if q < s.len() && s[q] == ',' {
                    proof {
                        let co = cur as int;
                        if parse_projects_rest(s@, q + 1 as int) is Some {
                            let pr = parse_projects_rest(s@, q + 1 as int)->0;
                            assert(parse_projects_rest(s@, co) == Some((seq![pj@] + pr.0, pr.1)));
                            assert(old_acc + (seq![pj@] + pr.0) =~= old_acc.push(pj@) + pr.0);
                        } else {
                            assert(parse_projects_rest(s@, co) is None);
                        }
                    }
                    cur = q + 1;
                } else if q < s.len() && s[q] == ']' {
                    proof {
                        let co = cur as int;
                        assert(parse_projects_rest(s@, co) == Some((seq![pj@], q + 1 as int)));
                        assert(old_acc + seq![pj@] =~= old_acc.push(pj@));
                    }
                    return Some((acc, q + 1));
                } else {
                    return None;
                }
            },
        }
    }
}

/// Read a whole persisted document. None means the text does not hold
/// a collection in this format (treated as corrupt by callers).
pub fn parse_collection_exec(text: &str) -> (r: Option<Vec<Project>>)
    ensures
        match r {
            Some(ps) => parse_collection(text@) == Some(ps.deep_view()),
            None => parse_collection(text@) is None,
        },
{
    let s = to_chars(text);
    match parse_projects_exec(&s, 0) {
        None => None,
        Some((ps, p)) => {
            let q = skip_ws_exec(&s, p);
            if q == s.len() {
                Some(ps)
            } else {
                None
            }
        },
    }
}

// ---------------------------------------------------------------------
// Whatever parses is well formed: priorities come from digits 0..3.
// ---------------------------------------------------------------------
proof fn lemma_parse_task_wf(s: Seq<char>, pos: int)
    requires
        parse_task(s, pos) is Some,
    ensures
        (parse_task(s, pos) matches Some(pr) && pr.0.wf()),
{
}

proof fn lemma_parse_tasks_rest_wf(s: Seq<char>, pos: int)
    requires
        0 <= pos <= s.len(),
        parse_tasks_rest(s, pos) is Some,
    ensures
        (parse_tasks_rest(s, pos) matches Some(pr) && tasks_wf(pr.0)),
    decreases s.len() - pos,
{
    let pr0 = parse_task(s, pos)->0;
    let t = pr0.0;
    let p = pr0.1;
    lemma_parse_task_wf(s, pos);
    let q = skip_ws(s, p);
    if p <= q && q < s.len() && s[q] == ',' {
        lemma_parse_tasks_rest_wf(s, q + 1);
        let rest = parse_tasks_rest(s, q + 1)->0;
        assert forall|i: int|
            0 <= i < (seq![t] + rest.0).len() implies (#[trigger] (seq![t] + rest.0)[i]).wf() by {
            if i > 0 {
                assert((seq![t] + rest.0)[i] == rest.0[i - 1]);
            }
        }
    } else {
        assert forall|i: int| 0 <= i < seq![t].len() implies (#[trigger] seq![t][i]).wf() by {
            assert(seq![t][i] == t);
        }
    }
}

proof fn lemma_parse_tasks_wf(s: Seq<char>, pos: int)
    requires
        0 <= pos <= s.len(),
        parse_tasks(s, pos) is Some,
    ensures
        (parse_tasks(s, pos) matches Some(pr) && tasks_wf(pr.0)),
{
    let p0 = skip_ws(s, pos);
    let p1 = skip_ws(s, p0 + 1);
    if p1 < s.len() && s[p1] == ']' {
    } else {
        lemma_skip_ws_bounds(s, pos);
        lemma_parse_tasks_rest_wf(s, p0 + 1);
    }
}

/// A parsed string body ends after its start and within the text.
proof fn lemma_parse_chars_bounds(s: Seq<char>, pos: int)
    requires
        0 <= pos <= s.len(),
        parse_chars(s, pos) is Some,
    ensures
        (parse_chars(s, pos) matches Some(pr) && pos < pr.1 <= s.len()),
    decreases s.len() - pos,
{
    if s[pos] == '"' {
    } else if s[pos] == '\\' {
        let e = s[pos + 1];
        if e == 'u' {
            lemma_parse_chars_bounds(s, pos + 6);
        } else {
            lemma_parse_chars_bounds(s, pos + 2);
        }
    } else {
        lemma_parse_chars_bounds(s, pos + 1);
    }
}

/// Skipping whitespace stays between the start and the end.
proof fn lemma_skip_ws_bounds(s: Seq<char>, pos: int)
    requires
        0 <= pos <= s.len(),
    ensures
        pos <= skip_ws(s, pos) <= s.len(),
    decreases s.len() - pos,
{
    if pos < s.len() && is_ws(s[pos]) {
        lemma_skip_ws_bounds(s, pos + 1);
    }
}

proof fn lemma_parse_project_wf(s: Seq<char>, pos: int)
    requires
        0 <= pos <= s.len(),
        parse_project(s, pos) is Some,
    ensures
        (parse_project(s, pos) matches Some(pr) && pr.0.wf()),
{
    let p0 = skip_ws(s, pos);
    lemma_skip_ws_bounds(s, pos);
    let p1 = skip_ws(s, p0 + 1);
    lemma_skip_ws_bounds(s, p0 + 1);
    let p2 = skip_ws(s, p1 + lit_title().len());
    lemma_skip_ws_bounds(s, p1 + lit_title().len());
    let sp = skip_ws(s, p2 + 1);
    lemma_skip_ws_bounds(s, p2 + 1);
    let pr3 = parse_string(s, sp)->0;
    let p3 = pr3.1;
    lemma_parse_chars_bounds(s, sp + 1);
    let p4 = skip_ws(s, p3);
    lemma_skip_ws_bounds(s, p3);
    let p5 = skip_ws(s, p4 + 1);
    lemma_skip_ws_bounds(s, p4 + 1);
    let p6 = skip_ws(s, p5 + lit_tasks().len());
    lemma_skip_ws_bounds(s, p5 + lit_tasks().len());
    let sq = skip_ws(s, p6 + 1);
    lemma_skip_ws_bounds(s, p6 + 1);
    lemma_parse_tasks_wf(s, sq);
}

proof fn lemma_parse_projects_rest_wf(s: Seq<char>, pos: int)
    requires
        0 <= pos <= s.len(),
        parse_projects_rest(s, pos) is Some,
    ensures
        (parse_projects_rest(s, pos) matches Some(pr) && collection_wf(pr.0)),
    decreases s.len() - pos,
{
    let pr0 = parse_project(s, pos)->0;
    let t = pr0.0;
    let p = pr0.1;
    lemma_parse_project_wf(s, pos);
    let q = skip_ws(s, p);
    if p <= q && q < s.len() && s[q] == ',' {
        lemma_parse_projects_rest_wf(s, q + 1);
        let rest = parse_projects_rest(s, q + 1)->0;
        assert forall|i: int|
            0 <= i < (seq![t] + rest.0).len() implies (#[trigger] (seq![t] + rest.0)[i]).wf() by {
            if i > 0 {
                assert((seq![t] + rest.0)[i] == rest.0[i - 1]);
            }
        }
    } else {
        assert forall|i: int| 0 <= i < seq![t].len() implies (#[trigger] seq![t][i]).wf() by {
            assert(seq![t][i] == t);
        }
    }
}

/// Whatever `parse_collection` accepts is a well-formed collection.
pub proof fn lemma_parse_collection_wf(s: Seq<char>)
    requires
        parse_collection(s) is Some,
    ensures
        (parse_collection(s) matches Some(ps) && collection_wf(ps)),
{
    let p0 = skip_ws(s, 0);
    lemma_skip_ws_bounds(s, 0);
    let p1 = skip_ws(s, p0 + 1);
    if p1 < s.len() && s[p1] == ']' {
    } else {
        lemma_parse_projects_rest_wf(s, p0 + 1);
    }
}

} // verus!
