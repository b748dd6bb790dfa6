//! Wire-frame codec.
//!
//! The wire unit is one newline-terminated UTF-8 line. A line that
//! parses as a JSON object of the structured schema is a broadcast
//! message (`content`, `sender`, optional `username`, `timestamp`), a
//! private notice (`info`) or a private error (`error`). Any other
//! non-empty line is an opaque text line, never a failure: peers on
//! slightly different protocol versions can still exchange banners.

use vstd::prelude::*;
use vstd::string::StringExecFns;
use crate::msg::{Message, MessageModel, MessageKind};
use crate::text::{is_space, trim_of, chars_of, string_of, trim_chars, push_char};

verus! {

/// Mathematical value of a decoded [`Frame`].
pub enum FrameModel {
    Broadcast {
        content: Seq<char>,
        sender: Seq<char>,
        username: Option<Seq<char>>,
        timestamp: Seq<char>,
    },
    Info(Seq<char>),
    Error(Seq<char>),
    Text(Seq<char>),
}

/// One decoded inbound line.
pub enum Frame {
    /// A structured room message reflected by the server.
    Broadcast { content: String, sender: String, username: Option<String>, timestamp: String },
    /// A private acknowledgement for this connection only.
    Info(String),
    /// A private error for this connection only.
    Error(String),
    /// Anything else: shown as plain text.
    Text(String),
}

impl View for Frame {
    type V = FrameModel;

    open spec fn view(&self) -> FrameModel {
        match self {
            Frame::Broadcast { content, sender, username, timestamp } => (FrameModel::Broadcast {
                content: content@,
                sender: sender@,
                username: match username {
                    Some(u) => Some(u@),
                    None => None,
                },
                timestamp: timestamp@,
            }),
            Frame::Info(s) => FrameModel::Info(s@),
            Frame::Error(s) => FrameModel::Error(s@),
            Frame::Text(s) => FrameModel::Text(s@),
        }
    }
}

/// Is `c` a hexadecimal digit?
pub open spec fn is_hex(c: char) -> bool {
    ('0' <= c && c <= '9') || ('a' <= c && c <= 'f') || ('A' <= c && c <= 'F')
}

/// Numeric value of the hexadecimal digit `c`.
pub open spec fn hex_val(c: char) -> int {
    if '0' <= c && c <= '9' {
        c as int - '0' as int
    } else if 'a' <= c && c <= 'f' {
        10 + c as int - 'a' as int
    } else {
        10 + c as int - 'A' as int
    }
}

/// The character a decoded `\u00XX` escape stands for.
pub open spec fn latin1(n: int) -> char {
    (n as u8) as char
}

/// Index of the first non-whitespace character at or after `i`.
pub open spec fn ws_end(s: Seq<char>, i: int) -> int
    decreases s.len() - i,
{
    if 0 <= i < s.len() && is_space(s[i]) {
        ws_end(s, i + 1)
    } else {
        i
    }
}

/// Scan a JSON string body beginning at `i`, just after the opening
/// quote. On success: the index after the closing quote, and the
/// decoded characters.
pub open spec fn str_body(s: Seq<char>, i: int) -> Option<(int, Seq<char>)>
    decreases s.len() - i,
{
    if i < 0 || i >= s.len() {
        None
    } else if s[i] == '"' {
        Some((i + 1, Seq::empty()))
    } else if s[i] == '\\' {
        if i + 1 >= s.len() {
            None
        } else {
            let e = s[i + 1];
            if e == 'u' {
                if i + 5 < s.len() && s[i + 2] == '0' && s[i + 3] == '0' && is_hex(s[i + 4])
                    && is_hex(s[i + 5]) {
                    let c = latin1(hex_val(s[i + 4]) * 16 + hex_val(s[i + 5]));
                    match str_body(s, i + 6) {
                        Some((j, t)) => Some((j, seq![c] + t)),
                        None => None,
                    }
                } else {
                    None
                }
            } else if e == '"' || e == '\\' || e == '/' || e == 'n' || e == 'r' || e == 't' || e
                == 'b' || e == 'f' {
                let c = unescaped(e);
                match str_body(s, i + 2) {
                    Some((j, t)) => Some((j, seq![c] + t)),
                    None => None,
                }
            } else {
                None
            }
        }
    } else if (s[i] as u32) < 0x20 {
        None
    } else {
        match str_body(s, i + 1) {
            Some((j, t)) => Some((j, seq![s[i]] + t)),
            None => None,
        }
    }
}

/// The character a simple escape letter stands for.
pub open spec fn unescaped(e: char) -> char {
    if e == 'n' {
        '\n'
    } else if e == 'r' {
        '\r'
    } else if e == 't' {
        '\t'
    } else if e == 'b' {
        '\u{0008}'
    } else if e == 'f' {
        '\u{000C}'
    } else {
        e
    }
}

/// Exec mirror of [`ws_end`].
fn skip_ws(v: &Vec<char>, i: usize) -> (r: usize)
    requires
        i <= v@.len(),
    ensures
        r == ws_end(v@, i as int),
        i <= r <= v@.len(),
{
    let mut k = i;
    while k < v.len() && crate::text::is_space_exec(v[k])
        invariant
            i <= k <= v@.len(),
            ws_end(v@, i as int) == ws_end(v@, k as int),
        decreases v@.len() - k,
    {
        k = k + 1;
    }
    k
}

/// Exec mirror of [`str_body`]: scan one JSON string body.
fn scan_str_body(v: &Vec<char>, i: usize) -> (r: Option<(usize, Vec<char>)>)
    requires
        i <= v@.len(),
    ensures
        r is Some <==> str_body(v@, i as int) is Some,
        r matches Some(p) ==> str_body(v@, i as int) == Some((p.0 as int, p.1@)) && p.0
            <= v@.len(),
{
    let mut k = i;
    let mut acc: Vec<char> = Vec::new();
    loop
        invariant
            i <= k <= v@.len(),
            str_body(v@, i as int) == (match str_body(v@, k as int) {
                Some((j, t)) => Some((j, acc@ + t)),
                None => None::<(int, Seq<char>)>,
            }),
        decreases v@.len() - k,
    {
        if k >= v.len() {
            return None;
        }
        let c = v[k];
        if c == '"' {
            proof {
                assert(acc@ + Seq::<char>::empty() =~= acc@);
            }
            return Some((k + 1, acc));
        }
        if c == '\\' {
            if k + 1 >= v.len() {
                return None;
            }
            let e = v[k + 1];
            if e == 'u' {
                if v.len() - k > 5 && v[k + 2] == '0' && v[k + 3] == '0' && is_hex_exec(v[k + 4])
                    && is_hex_exec(v[k + 5]) {
                    let code: u8 = hex_val_exec(v[k + 4]) * 16 + hex_val_exec(v[k + 5]);
                    let d = code as char;
                    proof {
                        lemma_acc_shift(v@, i as int, k as int, acc@, d, k + 6);
                    }
                    acc.push(d);
                    k = k + 6;
                } else {
                    return None;
                }
            } else if e == '"' || e == '\\' || e == '/' || e == 'n' || e == 'r' || e == 't' || e
                == 'b' || e == 'f' {
                let d = unescape_exec(e);
                proof {
                    lemma_acc_shift(v@, i as int, k as int, acc@, d, k + 2);
                }
                acc.push(d);
                k = k + 2;
            } else {
                return None;
            }
        } else if (c as u32) < 0x20 {
            return None;
        } else {
            proof {
                lemma_acc_shift(v@, i as int, k as int, acc@, c, k + 1);
            }
            acc.push(c);
            k = k + 1;
        }
    }
}

/// Pushing the next decoded character onto the accumulator keeps the
/// loop relation of [`scan_str_body`]: the whole decoded body is the
/// accumulator plus whatever the rest of the scan yields.
proof fn lemma_acc_shift(s: Seq<char>, i: int, k: int, acc: Seq<char>, d: char, k2: int)
    requires
        str_body(s, i) == (match str_body(s, k) {
            Some((j, t)) => Some((j, acc + t)),
            None => None::<(int, Seq<char>)>,
        }),
        str_body(s, k) == (match str_body(s, k2) {
            Some((j, t)) => Some((j, seq![d] + t)),
            None => None::<(int, Seq<char>)>,
        }),
    ensures
        str_body(s, i) == (match str_body(s, k2) {
            Some((j, t)) => Some((j, acc.push(d) + t)),
            None => None::<(int, Seq<char>)>,
        }),
{
    match str_body(s, k2) {
        Some((j, t)) => {
            assert(acc + (seq![d] + t) =~= acc.push(d) + t);
        },
        None => {},
    }
}

/// A successful string scan always moves past at least the closing
/// quote and never past the end.
proof fn lemma_str_body_advance(s: Seq<char>, i: int)
    requires
        str_body(s, i) is Some,
    ensures
        i < (str_body(s, i)->0).0 <= s.len(),
    decreases s.len() - i,
{
    if s[i] == '"' {
    } else if s[i] == '\\' {
        if s[i + 1] == 'u' {
            lemma_str_body_advance(s, i + 6);
        } else {
            lemma_str_body_advance(s, i + 2);
        }
    } else {
        lemma_str_body_advance(s, i + 1);
    }
}

/// Skipping whitespace never moves backwards nor past the end.
proof fn lemma_ws_end_bounds(s: Seq<char>, i: int)
    requires
        0 <= i <= s.len(),
    ensures
        i <= ws_end(s, i) <= s.len(),
    decreases s.len() - i,
{
    if i < s.len() && is_space(s[i]) {
        lemma_ws_end_bounds(s, i + 1);
    }
}

/// The fields a structured frame may carry, each set at most once.
pub struct FieldsModel {
    pub content: Option<Seq<char>>,
    pub sender: Option<Seq<char>>,
    pub username: Option<Option<Seq<char>>>,
    pub timestamp: Option<Seq<char>>,
    pub info: Option<Seq<char>>,
    pub error: Option<Seq<char>>,
}

/// No field seen yet.
pub open spec fn no_fields() -> FieldsModel {
    FieldsModel {
        content: None,
        sender: None,
        username: None,
        timestamp: None,
        info: None,
        error: None,
    }
}

/// Record one member in the accumulated fields. A key outside the
/// schema, a key seen twice, or `null` anywhere but in `username`
/// rejects the whole object.
pub open spec fn fields_add(f: FieldsModel, key: Seq<char>, val: Option<Seq<char>>) -> Option<
    FieldsModel,
> {
    if key == "content"@ {
        if f.content is Some || val is None {
            None
        } else {
            Some(FieldsModel { content: val, ..f })
        }
    } else if key == "sender"@ {
        if f.sender is Some || val is None {
            None
        } else {
            Some(FieldsModel { sender: val, ..f })
        }
    } else if key == "username"@ {
        if f.username is Some {
            None
        } else {
            Some(FieldsModel { username: Some(val), ..f })
        }
    } else if key == "timestamp"@ {
        if f.timestamp is Some || val is None {
            None
        } else {
            Some(FieldsModel { timestamp: val, ..f })
        }
    } else if key == "info"@ {
        if f.info is Some || val is None {
            None
        } else {
            Some(FieldsModel { info: val, ..f })
        }
    } else if key == "error"@ {
        if f.error is Some || val is None {
            None
        } else {
            Some(FieldsModel { error: val, ..f })
        }
    } else {
        None
    }
}

/// Scan one member value at `i`: a string, or `null`.
pub open spec fn value_at(s: Seq<char>, i: int) -> Option<(int, Option<Seq<char>>)> {
    if 0 <= i < s.len() && s[i] == '"' {
        match str_body(s, i + 1) {
            Some((j, t)) => Some((j, Some(t))),
            None => None,
        }
    } else if 0 <= i && i + 4 <= s.len() && s[i] == 'n' && s[i + 1] == 'u' && s[i + 2] == 'l' && s[
        i + 3] == 'l' {
        Some((i + 4, None))
    } else {
        None
    }
}

/// A scanned value ends after where it began and inside the input.
proof fn lemma_value_advance(s: Seq<char>, i: int)
    requires
        value_at(s, i) is Some,
    ensures
        i < (value_at(s, i)->0).0 <= s.len(),
{
    if 0 <= i < s.len() && s[i] == '"' {
        lemma_str_body_advance(s, i + 1);
    }
}

/// Scan the members of an object from `i` to the closing brace,
/// folding each into `f`. On success: the index after the closing
/// brace and the collected fields.
pub open spec fn members_at(s: Seq<char>, i: int, f: FieldsModel) -> Option<(int, FieldsModel)>
    recommends
        0 <= i <= s.len(),
    decreases s.len() - i,
    via members_at_dec
{
    let i1 = ws_end(s, i);
    if !(0 <= i1 < s.len() && s[i1] == '"') {
        None
    } else {
        match str_body(s, i1 + 1) {
            None => None,
            Some((i2, key)) => {
                let i3 = ws_end(s, i2);
                if !(i3 < s.len() && s[i3] == ':') {
                    None
                } else {
                    let i4 = ws_end(s, i3 + 1);
                    match value_at(s, i4) {
                        None => None,
                        Some((i5, val)) => match fields_add(f, key, val) {
                            None => None,
                            Some(f2) => {
                                let i6 = ws_end(s, i5);
                                if i6 < s.len() && s[i6] == ',' {
                                    members_at(s, i6 + 1, f2)
                                } else if i6 < s.len() && s[i6] == '}' {
                                    Some((i6 + 1, f2))
                                } else {
                                    None
                                }
                            },
                        },
                    }
                }
            },
        }
    }
}

#[via_fn]
proof fn members_at_dec(s: Seq<char>, i: int, f: FieldsModel) {
    let i1 = ws_end(s, i);
    if 0 <= i1 < s.len() && s[i1] == '"' {
        if 0 <= i {
            lemma_ws_end_bounds(s, i);
        }
        match str_body(s, i1 + 1) {
            None => {},
            Some((i2, key)) => {
                lemma_str_body_advance(s, i1 + 1);
                lemma_ws_end_bounds(s, i2);
                let i3 = ws_end(s, i2);
                if i3 < s.len() && s[i3] == ':' {
                    lemma_ws_end_bounds(s, i3 + 1);
                    let i4 = ws_end(s, i3 + 1);
                    match value_at(s, i4) {
                        None => {},
                        Some((i5, val)) => {
                            lemma_value_advance(s, i4);
                            lemma_ws_end_bounds(s, i5);
                        },
                    }
                }
            },
        }
    }
}

/// Scan a whole line as one JSON object of the schema, with nothing
/// but whitespace around it.
pub open spec fn object_fields(s: Seq<char>) -> Option<FieldsModel> {
    let i0 = ws_end(s, 0);
    if 0 <= i0 < s.len() && s[i0] == '{' {
        let i1 = ws_end(s, i0 + 1);
        if i1 < s.len() && s[i1] == '}' {
            if ws_end(s, i1 + 1) == s.len() {
                Some(no_fields())
            } else {
                None
            }
        } else {
            match members_at(s, i0 + 1, no_fields()) {
                Some((j, f)) => if ws_end(s, j) == s.len() {
                    Some(f)
                } else {
                    None
                },
                None => None,
            }
        }
    } else {
        None
    }
}

/// Sort the collected fields into a frame: exactly `info`, exactly
/// `error`, or the full broadcast schema; anything else falls back to
/// plain text.
pub open spec fn classify_fields(f: FieldsModel, line: Seq<char>) -> FrameModel {
    if f.info is Some && f.content is None && f.sender is None && f.username is None
        && f.timestamp is None && f.error is None {
        FrameModel::Info(f.info->0)
    } else if f.error is Some && f.content is None && f.sender is None && f.username is None
        && f.timestamp is None && f.info is None {
        FrameModel::Error(f.error->0)
    } else if f.content is Some && f.sender is Some && f.timestamp is Some && f.info is None
        && f.error is None {
        FrameModel::Broadcast {
            content: f.content->0,
            sender: f.sender->0,
            username: match f.username {
                Some(u) => u,
                None => None,
            },
            timestamp: f.timestamp->0,
        }
    } else {
        FrameModel::Text(line)
    }
}

/// What one trimmed inbound line means: a structured frame where the
/// schema parses, plain text everywhere else.
pub open spec fn decoded(line: Seq<char>) -> FrameModel {
    match object_fields(line) {
        Some(f) => classify_fields(f, line),
        None => FrameModel::Text(line),
    }
}

/// A character that is written as itself inside a JSON string.
pub open spec fn plain_char(c: char) -> bool {
    c != '"' && c != '\\' && (c as u32) >= 0x20
}

/// Is every character of `s` written as itself?
pub open spec fn plain_seq(s: Seq<char>) -> bool {
    forall|i: int| 0 <= i < s.len() ==> plain_char(#[trigger] s[i])
}

/// A hexadecimal digit names its own value.
proof fn lemma_hex_digit_val(d: int)
    requires
        0 <= d < 16,
    ensures
        is_hex(hex_digit(d)),
        hex_val(hex_digit(d)) == d,
{
}

/// A control character's `\u00XX` escape decodes back to it.
proof fn lemma_control_round(c: char)
    requires
        (c as u32) < 0x20,
    ensures
        0 <= (c as int) / 16 < 16,
        0 <= (c as int) % 16 < 16,
        latin1(hex_val(hex_digit((c as int) / 16)) * 16 + hex_val(hex_digit((c as int) % 16)))
            == c,
{
    assert((c as int) < 0x20);
    lemma_hex_digit_val((c as int) / 16);
    lemma_hex_digit_val((c as int) % 16);
    assert((c as int) / 16 * 16 + (c as int) % 16 == c as int);
    assert(((c as int) as u8) as char == c);
}

/// Escaping distributes over concatenation.
proof fn lemma_escaped_concat(a: Seq<char>, b: Seq<char>)
    ensures
        json_escaped(a + b) == json_escaped(a) + json_escaped(b),
    decreases b.len(),
{
    if b.len() == 0 {
        assert(a + b =~= a);
        assert(json_escaped(a) + json_escaped(b) =~= json_escaped(a));
    } else {
        lemma_escaped_concat(a, b.drop_last());
        assert((a + b).drop_last() =~= a + b.drop_last());
        assert((a + b).last() == b.last());
        assert(json_escaped(a) + json_escaped(b) =~= json_escaped(a) + json_escaped(b.drop_last())
            + esc_char(b.last()));
    }
}

/// Escaping peels one character off the front.
proof fn lemma_escaped_first(x: Seq<char>)
    requires
        x.len() > 0,
    ensures
        json_escaped(x) == esc_char(x[0]) + json_escaped(x.drop_first()),
{
    assert(x =~= seq![x[0]] + x.drop_first());
    lemma_escaped_concat(seq![x[0]], x.drop_first());
    assert(seq![x[0]].drop_last() =~= Seq::<char>::empty());
    assert(json_escaped(Seq::<char>::empty()) == Seq::<char>::empty());
    assert(json_escaped(seq![x[0]]) == json_escaped(seq![x[0]].drop_last()) + esc_char(
        seq![x[0]].last(),
    ));
    assert(Seq::<char>::empty() + esc_char(x[0]) =~= esc_char(x[0]));
}

/// A sequence of plain characters escapes to itself.
proof fn lemma_plain_escape(s: Seq<char>)
    requires
        plain_seq(s),
    ensures
        json_escaped(s) == s,
    decreases s.len(),
{
    if s.len() > 0 {
        lemma_plain_escape(s.drop_last());
        assert(esc_char(s.last()) =~= seq![s.last()]);
        assert(json_escaped(s) =~= s);
    } else {
        assert(json_escaped(s) =~= s);
    }
}

/// Scanning an escaped body reads back exactly the original text:
/// from the end of `pre`, the scan consumes `json_escaped(x)` and the
/// closing quote and decodes `x`, whatever follows.
proof fn lemma_escaped_scan(pre: Seq<char>, x: Seq<char>, tail: Seq<char>)
    ensures
        str_body(pre + json_escaped(x) + seq!['"'] + tail, pre.len() as int) == Some(
            ((pre.len() + json_escaped(x).len() + 1) as int, x),
        ),
    decreases x.len(),
{
    let s = pre + json_escaped(x) + seq!['"'] + tail;
    let i = pre.len() as int;
    if x.len() == 0 {
        assert(s[i] == '"');
    } else {
        let c = x[0];
        let e = esc_char(c);
        lemma_escaped_first(x);
        let pre2 = pre + e;
        let x2 = x.drop_first();
        assert(s =~= pre2 + json_escaped(x2) + seq!['"'] + tail);
        lemma_escaped_scan(pre2, x2, tail);
        assert(forall|k: int| 0 <= k < e.len() ==> s[i + k] == #[trigger] e[k]);
        if c == '"' || c == '\\' {
            assert(s[i] == '\\' && s[i + 1] == c);
            assert(unescaped(c) == c);
            assert(seq![c] + x2 =~= x);
        } else if c == '\n' {
            assert(s[i] == '\\' && s[i + 1] == 'n');
            assert(seq![c] + x2 =~= x);
        } else if c == '\r' {
            assert(s[i] == '\\' && s[i + 1] == 'r');
            assert(seq![c] + x2 =~= x);
        } else if c == '\t' {
            assert(s[i] == '\\' && s[i + 1] == 't');
            assert(seq![c] + x2 =~= x);
        } else if (c as u32) < 0x20 {
            lemma_control_round(c);
            let hi = (c as int) / 16;
            let lo = (c as int) % 16;
            assert(s[i] == '\\' && s[i + 1] == 'u' && s[i + 2] == '0' && s[i + 3] == '0' && s[i + 4]
                == hex_digit(hi) && s[i + 5] == hex_digit(lo));
            assert(s[i + 1] != '"');
            assert(latin1(hex_val(s[i + 4]) * 16 + hex_val(s[i + 5])) == c);
            assert(seq![c] + x2 =~= x);
        } else {
            assert(s[i] == c);
            assert(seq![c] + x2 =~= x);
        }
    }
}

/// Skipping whitespace stands still on a non-whitespace character.
proof fn lemma_ws_noop(s: Seq<char>, i: int)
    requires
        0 <= i < s.len() ==> !is_space(s[i]),
    ensures
        ws_end(s, i) == i,
{
}

/// The wire text of one member value: a quoted string or `null`.
pub open spec fn value_text(val: Option<Seq<char>>) -> Seq<char> {
    match val {
        Some(x) => seq!['"'] + json_escaped(x) + seq!['"'],
        None => "null"@,
    }
}

/// The wire text of one object member: the quoted key, a colon, and
/// its value.
pub open spec fn member_text(key: Seq<char>, val: Option<Seq<char>>) -> Seq<char> {
    seq!['"'] + key + seq!['"', ':'] + value_text(val)
}

/// Scanning a quoted plain key reads it back.
proof fn lemma_key_scan(pre: Seq<char>, key: Seq<char>, tail: Seq<char>)
    requires
        plain_seq(key),
    ensures
        str_body(pre + seq!['"'] + key + seq!['"'] + tail, pre.len() + 1int) == Some(
            (pre.len() + key.len() + 2int, key),
        ),
{
    lemma_plain_escape(key);
    assert(pre + seq!['"'] + key + seq!['"'] + tail =~= (pre + seq!['"']) + json_escaped(key)
        + seq!['"'] + tail);
    lemma_escaped_scan(pre + seq!['"'], key, tail);
}

/// Scanning a value text reads back the value.
proof fn lemma_value_scan(pre: Seq<char>, val: Option<Seq<char>>, rest: Seq<char>)
    requires
        rest.len() > 0,
        !is_space(rest[0]),
        rest[0] != '"',
    ensures
        value_at(pre + value_text(val) + rest, pre.len() as int) == Some(
            (pre.len() + value_text(val).len() + 0int, val),
        ),
{
    let s = pre + value_text(val) + rest;
    let i = pre.len() as int;
    match val {
        Some(x) => {
            assert(s[i] == '"');
            assert(s =~= (pre + seq!['"']) + json_escaped(x) + seq!['"'] + rest);
            lemma_escaped_scan(pre + seq!['"'], x, rest);
            assert(str_body(s, i + 1) == Some((i + 1 + json_escaped(x).len() + 1, x)));
        },
        None => {
            reveal_strlit("null");
            assert(value_text(val).len() == 4);
            assert(s[i] == 'n' && s[i + 1] == 'u' && s[i + 2] == 'l' && s[i + 3] == 'l');
            assert(s[i] != '"');
            assert(i + 4 <= s.len());
        },
    }
}

/// Scanning one well-formed member folds its field into the record
/// and moves past the separator that follows it.
#[verifier::rlimit(100)]
proof fn lemma_member_scan(
    pre: Seq<char>,
    key: Seq<char>,
    val: Option<Seq<char>>,
    rest: Seq<char>,
    f: FieldsModel,
)
    requires
        plain_seq(key),
        fields_add(f, key, val) is Some,
        rest.len() > 0,
        rest[0] == ',' || rest[0] == '}',
    ensures
        ({
            let s = pre + member_text(key, val) + rest;
            let i = pre.len() as int;
            let j = pre.len() + member_text(key, val).len() + 1int;
            &&& rest[0] == ',' ==> members_at(s, i, f) == members_at(
                s,
                j,
                fields_add(f, key, val)->0,
            )
            &&& rest[0] == '}' ==> members_at(s, i, f) == Some((j, fields_add(f, key, val)->0))
        }),
{
    let s = pre + member_text(key, val) + rest;
    let i = pre.len() as int;
    let mt = member_text(key, val);
    let klen = key.len() as int;
    let vlen = value_text(val).len() as int;
    assert(s[i] == '"') by {
        assert(mt[0] == '"');
    }
    lemma_ws_noop(s, i);
    assert(str_body(s, i + 1) == Some((i + klen + 2, key))) by {
        assert(s =~= pre + seq!['"'] + key + seq!['"'] + (seq![':'] + value_text(val) + rest));
        lemma_key_scan(pre, key, seq![':'] + value_text(val) + rest);
    }
    let i2 = i + klen + 2;
    assert(s[i2] == ':') by {
        assert(mt[klen + 2] == ':');
    }
    lemma_ws_noop(s, i2);
    let i4 = i2 + 1;
    assert(value_at(s, i4) == Some((i4 + vlen, val))) by {
        assert(s =~= (pre + seq!['"'] + key + seq!['"', ':']) + value_text(val) + rest);
        lemma_value_scan(pre + seq!['"'] + key + seq!['"', ':'], val, rest);
    }
    let i5 = i4 + vlen;
    assert(s[i5] == rest[0]) by {
        assert(mt.len() == klen + 3 + vlen);
    }
    lemma_ws_noop(s, i5);
    assert(i5 + 1 == pre.len() + mt.len() + 1);
}

/// An object of exactly one member collects exactly that field.
proof fn lemma_single_member_object(key: Seq<char>, val: Option<Seq<char>>)
    requires
        plain_seq(key),
        fields_add(no_fields(), key, val) is Some,
    ensures
        object_fields(seq!['{'] + member_text(key, val) + seq!['}']) == Some(
            fields_add(no_fields(), key, val)->0,
        ),
{
    let s = seq!['{'] + member_text(key, val) + seq!['}'];
    assert(s[0] == '{');
    lemma_ws_noop(s, 0);
    assert(s[1] == '"') by {
        assert(member_text(key, val)[0] == '"');
    }
    lemma_ws_noop(s, 1);
    lemma_member_scan(seq!['{'], key, val, seq!['}'], no_fields());
    assert(members_at(s, 1, no_fields()) == Some(
        (s.len() as int, fields_add(no_fields(), key, val)->0),
    ));
    lemma_ws_noop(s, s.len() as int);
}

/// The encoded broadcast frame, regrouped into its four members.
#[verifier::rlimit(100)]
proof fn lemma_bt_split(m: MessageModel)
    ensures
        broadcast_text(m) == seq!['{'] + member_text("content"@, Some(m.content)) + seq![',']
            + member_text("sender"@, Some(m.sender)) + seq![','] + member_text(
            "username"@,
            m.username,
        ) + seq![','] + member_text("timestamp"@, Some(m.timestamp)) + seq!['}'],
{
    reveal_strlit("{\"content\":\"");
    reveal_strlit("\",\"sender\":\"");
    reveal_strlit("\",\"username\":\"");
    reveal_strlit("\",\"username\":null,\"timestamp\":\"");
    reveal_strlit("\",\"timestamp\":\"");
    reveal_strlit("\"}");
    reveal_strlit("content");
    reveal_strlit("sender");
    reveal_strlit("username");
    reveal_strlit("timestamp");
    reveal_strlit("null");
    assert("{\"content\":\""@ =~= seq!['{', '"'] + "content"@ + seq!['"', ':', '"']);
    assert("\",\"sender\":\""@ =~= seq!['"', ',', '"'] + "sender"@ + seq!['"', ':', '"']);
    assert("\",\"username\":\""@ =~= seq!['"', ',', '"'] + "username"@ + seq!['"', ':', '"']);
    assert("\",\"username\":null,\"timestamp\":\""@ =~= seq!['"', ',', '"'] + "username"@ + seq![
        '"',
        ':',
    ] + "null"@ + seq![',', '"'] + "timestamp"@ + seq!['"', ':', '"']);
    assert("\",\"timestamp\":\""@ =~= seq!['"', ',', '"'] + "timestamp"@ + seq!['"', ':', '"']);
    assert("\"}"@ =~= seq!['"', '}']);
    match m.username {
        Some(u) => {
            assert(broadcast_text(m) =~= seq!['{'] + member_text("content"@, Some(m.content))
                + seq![','] + member_text("sender"@, Some(m.sender)) + seq![','] + member_text(
                "username"@,
                m.username,
            ) + seq![','] + member_text("timestamp"@, Some(m.timestamp)) + seq!['}']);
        },
        None => {
            assert(value_text(None) =~= "null"@);
            assert(broadcast_text(m) =~= seq!['{'] + member_text("content"@, Some(m.content))
                + seq![','] + member_text("sender"@, Some(m.sender)) + seq![','] + member_text(
                "username"@,
                m.username,
            ) + seq![','] + member_text("timestamp"@, Some(m.timestamp)) + seq!['}']);
        },
    }
}

/// The four keys of a broadcast frame are plain and distinct.
proof fn lemma_bt_keys()
    ensures
        plain_seq("content"@),
        plain_seq("sender"@),
        plain_seq("username"@),
        plain_seq("timestamp"@),
        "sender"@ != "content"@,
        "username"@ != "content"@ && "username"@ != "sender"@,
        "timestamp"@ != "content"@ && "timestamp"@ != "sender"@ && "timestamp"@ != "username"@,
{
    reveal_strlit("content");
    reveal_strlit("sender");
    reveal_strlit("username");
    reveal_strlit("timestamp");
}

/// The collected fields of an encoded broadcast frame: exactly its
/// four members.
#[verifier::rlimit(100)]
proof fn lemma_broadcast_object(m: MessageModel)
    ensures
        object_fields(broadcast_text(m)) == Some(
            (FieldsModel {
                content: Some(m.content),
                sender: Some(m.sender),
                username: Some(m.username),
                timestamp: Some(m.timestamp),
                info: None,
                error: None,
            }),
        ),
        broadcast_text(m).len() > 0,
        broadcast_text(m)[0] == '{',
        broadcast_text(m).last() == '}',
{
    let s = broadcast_text(m);
    let mt1 = member_text("content"@, Some(m.content));
    let mt2 = member_text("sender"@, Some(m.sender));
    let mt3 = member_text("username"@, m.username);
    let mt4 = member_text("timestamp"@, Some(m.timestamp));
    lemma_bt_split(m);
    lemma_bt_keys();
    let f0 = no_fields();
    let f1 = fields_add(f0, "content"@, Some(m.content))->0;
    let f2 = fields_add(f1, "sender"@, Some(m.sender))->0;
    let f3 = fields_add(f2, "username"@, m.username)->0;
    let f4 = fields_add(f3, "timestamp"@, Some(m.timestamp))->0;
    let pre1 = seq!['{'];
    let rest1 = seq![','] + mt2 + seq![','] + mt3 + seq![','] + mt4 + seq!['}'];
    assert(s =~= pre1 + mt1 + rest1);
    lemma_member_scan(pre1, "content"@, Some(m.content), rest1, f0);
    let pre2 = pre1 + mt1 + seq![','];
    let rest2 = seq![','] + mt3 + seq![','] + mt4 + seq!['}'];
    assert(s =~= pre2 + mt2 + rest2);
    lemma_member_scan(pre2, "sender"@, Some(m.sender), rest2, f1);
    let pre3 = pre2 + mt2 + seq![','];
    let rest3 = seq![','] + mt4 + seq!['}'];
    assert(s =~= pre3 + mt3 + rest3);
    lemma_member_scan(pre3, "username"@, m.username, rest3, f2);
    let pre4 = pre3 + mt3 + seq![','];
    let rest4 = seq!['}'];
    assert(s =~= pre4 + mt4 + rest4);
    lemma_member_scan(pre4, "timestamp"@, Some(m.timestamp), rest4, f3);
    assert(members_at(s, 1, f0) == Some((s.len() as int, f4))) by {
        assert(pre2.len() == pre1.len() + mt1.len() + 1);
        assert(pre3.len() == pre2.len() + mt2.len() + 1);
        assert(pre4.len() == pre3.len() + mt3.len() + 1);
        assert(s.len() == pre4.len() + mt4.len() + 1);
    }
    assert(s[0] == '{');
    lemma_ws_noop(s, 0);
    assert(s[1] == '"') by {
        assert(mt1[0] == '"');
    }
    lemma_ws_noop(s, 1);
    lemma_ws_noop(s, s.len() as int);
    assert(object_fields(s) == Some(f4));
    assert(f4 == (FieldsModel {
        content: Some(m.content),
        sender: Some(m.sender),
        username: Some(m.username),
        timestamp: Some(m.timestamp),
        info: None,
        error: None,
    }));
}

/// Trimming does not touch text that starts and ends solid.
proof fn lemma_trim_noop(s: Seq<char>)
    requires
        s.len() > 0,
        !is_space(s[0]),
        !is_space(s.last()),
    ensures
        trim_of(s) == s,
{
    assert(crate::text::trim_front(s) == s);
    assert(crate::text::trim_back(s) == s);
}

/// Round trip of a private frame.
#[verifier::rlimit(100)]
proof fn lemma_rt_private(m: MessageModel)
    requires
        m.kind is Info || m.kind is Error,
    ensures
        trim_of(frame_text(m)) == frame_text(m),
        m.kind is Info ==> decoded(frame_text(m)) == FrameModel::Info(m.content),
        m.kind is Error ==> decoded(frame_text(m)) == FrameModel::Error(m.content),
{
    if m.kind is Info {
        lemma_private_object("info"@, m.content);
        assert(frame_text(m) == seq!['{'] + member_text("info"@, Some(m.content)) + seq!['}'])
            by {
            reveal_strlit("{\"info\":\"");
            reveal_strlit("info");
            assert("{\"info\":\""@ =~= seq!['{', '"'] + "info"@ + seq!['"', ':', '"']);
            reveal_strlit("\"}");
            assert("\"}"@ =~= seq!['"', '}']);
            assert(frame_text(m) =~= seq!['{'] + member_text("info"@, Some(m.content))
                + seq!['}']);
        }
    } else {
        lemma_private_object("error"@, m.content);
        assert(frame_text(m) == seq!['{'] + member_text("error"@, Some(m.content)) + seq!['}'])
            by {
            reveal_strlit("{\"error\":\"");
            reveal_strlit("error");
            assert("{\"error\":\""@ =~= seq!['{', '"'] + "error"@ + seq!['"', ':', '"']);
            reveal_strlit("\"}");
            assert("\"}"@ =~= seq!['"', '}']);
            assert(frame_text(m) =~= seq!['{'] + member_text("error"@, Some(m.content))
                + seq!['}']);
        }
    }
    lemma_trim_noop(frame_text(m));
}

/// Round-trip law: every frame the encoder writes comes back from
/// the decoder as itself — a broadcast frame as a broadcast with the
/// same four fields, a private frame as its notice or error — and
/// trimming the wire line leaves it untouched.
pub proof fn law_round_trip(m: MessageModel)
    ensures
        trim_of(frame_text(m)) == frame_text(m),
        (m.kind is Chat || m.kind is Join || m.kind is Leave) ==> decoded(frame_text(m)) == (
        FrameModel::Broadcast {
            content: m.content,
            sender: m.sender,
            username: m.username,
            timestamp: m.timestamp,
        }),
        m.kind is Info ==> decoded(frame_text(m)) == FrameModel::Info(m.content),
        m.kind is Error ==> decoded(frame_text(m)) == FrameModel::Error(m.content),
{
    match m.kind {
        MessageKind::Info => lemma_rt_private(m),
        MessageKind::Error => lemma_rt_private(m),
        _ => {
            lemma_broadcast_object(m);
            lemma_trim_noop(frame_text(m));
        },
    }
}

/// The collected fields of an encoded private frame: its one member.
proof fn lemma_private_object(key: Seq<char>, x: Seq<char>)
    requires
        key == "info"@ || key == "error"@,
    ensures
        key == "info"@ ==> object_fields(seq!['{'] + member_text(key, Some(x)) + seq!['}'])
            == Some(
            (FieldsModel {
                content: None,
                sender: None,
                username: None,
                timestamp: None,
                info: Some(x),
                error: None,
            }),
        ),
        key == "error"@ ==> object_fields(seq!['{'] + member_text(key, Some(x)) + seq!['}'])
            == Some(
            (FieldsModel {
                content: None,
                sender: None,
                username: None,
                timestamp: None,
                info: None,
                error: Some(x),
            }),
        ),
        ({
            let t = seq!['{'] + member_text(key, Some(x)) + seq!['}'];
            t.len() > 0 && t[0] == '{' && t.last() == '}'
        }),
{
    reveal_strlit("info");
    reveal_strlit("error");
    reveal_strlit("content");
    reveal_strlit("sender");
    reveal_strlit("username");
    reveal_strlit("timestamp");
    assert(plain_seq(key));
    assert(key != "content"@ && key != "sender"@ && key != "username"@ && key != "timestamp"@);
    assert("info"@ != "error"@);
    lemma_single_member_object(key, Some(x));
}

/// Fallback law: a line the schema does not parse — however much it
/// looks like JSON — is delivered as exactly the text it was, never
/// dropped and never an error.
pub proof fn law_unparsed_is_text(line: Seq<char>)
    ensures
        object_fields(line) is None ==> decoded(line) == FrameModel::Text(line),
{
}

/// Exec accumulator for the fields of one object.
struct FrameFields {
    content: Option<String>,
    sender: Option<String>,
    username: Option<Option<String>>,
    timestamp: Option<String>,
    info: Option<String>,
    error: Option<String>,
}

impl View for FrameFields {
    type V = FieldsModel;

    closed spec fn view(&self) -> FieldsModel {
        FieldsModel {
            content: match &self.content {
                Some(s) => Some(s@),
                None => None,
            },
            sender: match &self.sender {
                Some(s) => Some(s@),
                None => None,
            },
            username: match &self.username {
                Some(Some(s)) => Some(Some(s@)),
                Some(None) => Some(None),
                None => None,
            },
            timestamp: match &self.timestamp {
                Some(s) => Some(s@),
                None => None,
            },
            info: match &self.info {
                Some(s) => Some(s@),
                None => None,
            },
            error: match &self.error {
                Some(s) => Some(s@),
                None => None,
            },
        }
    }
}

/// Exec mirror of [`value_at`].
fn scan_value(v: &Vec<char>, i: usize) -> (r: Option<(usize, Option<String>)>)
    requires
        i <= v@.len(),
    ensures
        r is Some <==> value_at(v@, i as int) is Some,
        r matches Some(p) ==> value_at(v@, i as int) == Some(
            (
                p.0 as int,
                match p.1 {
                    Some(t) => Some(t@),
                    None => None::<Seq<char>>,
                },
            ),
        ) && i < p.0 <= v@.len(),
{
    if i < v.len() && v[i] == '"' {
        match scan_str_body(v, i + 1) {
            Some((j, t)) => {
                proof {
                    lemma_str_body_advance(v@, i + 1 as int);
                }
                Some((j, Some(string_of(t.as_slice()))))
            },
            None => None,
        }
    } else if v.len() - i >= 4 && v[i] == 'n' && v[i + 1] == 'u' && v[i + 2] == 'l' && v[i + 3]
        == 'l' {
        Some((i + 4, None))
    } else {
        None
    }
}

/// Exec mirror of [`fields_add`].
fn add_field(f: FrameFields, key: &Vec<char>, val: Option<String>) -> (r: Option<FrameFields>)
    ensures
        r is Some <==> fields_add(f@, key@, match val {
            Some(t) => Some(t@),
            None => None::<Seq<char>>,
        }) is Some,
        r matches Some(f2) ==> Some(f2@) == fields_add(f@, key@, match val {
            Some(t) => Some(t@),
            None => None::<Seq<char>>,
        }),
{
    let ks = string_of(key.as_slice());
    if ks == "content".to_owned() {
        if f.content.is_some() || val.is_none() {
            None
        } else {
            Some(FrameFields { content: val, ..f })
        }
    } else if ks == "sender".to_owned() {
        if f.sender.is_some() || val.is_none() {
            None
        } else {
            Some(FrameFields { sender: val, ..f })
        }
    } else if ks == "username".to_owned() {
        if f.username.is_some() {
            None
        } else {
            Some(FrameFields { username: Some(val), ..f })
        }
    } else if ks == "timestamp".to_owned() {
        if f.timestamp.is_some() || val.is_none() {
            None
        } else {
            Some(FrameFields { timestamp: val, ..f })
        }
    } else if ks == "info".to_owned() {
        if f.info.is_some() || val.is_none() {
            None
        } else {
            Some(FrameFields { info: val, ..f })
        }
    } else if ks == "error".to_owned() {
        if f.error.is_some() || val.is_none() {
            None
        } else {
            Some(FrameFields { error: val, ..f })
        }
    } else {
        None
    }
}

/// Exec mirror of [`members_at`].
fn scan_members(v: &Vec<char>, i: usize) -> (r: Option<(usize, FrameFields)>)
    requires
        i <= v@.len(),
    ensures
        r is Some <==> members_at(v@, i as int, no_fields()) is Some,
        r matches Some(p) ==> members_at(v@, i as int, no_fields()) == Some((p.0 as int, p.1@))
            && p.0 <= v@.len(),
{
    let mut cur = i;
    let mut f = FrameFields {
        content: None,
        sender: None,
        username: None,
        timestamp: None,
        info: None,
        error: None,
    };
    loop
        invariant
            i <= cur <= v@.len(),
            members_at(v@, i as int, no_fields()) == members_at(v@, cur as int, f@),
        decreases v@.len() - cur,
    {
        let i1 = skip_ws(v, cur);
        if !(i1 < v.len() && v[i1] == '"') {
            return None;
        }
        let (i2, key) = match scan_str_body(v, i1 + 1) {
            Some(p) => p,
            None => {
                return None;
            },
        };
        proof {
            lemma_str_body_advance(v@, i1 + 1 as int);
        }
        let i3 = skip_ws(v, i2);
        if !(i3 < v.len() && v[i3] == ':') {
            return None;
        }
        let i4 = skip_ws(v, i3 + 1);
        let (i5, val) = match scan_value(v, i4) {
            Some(p) => p,
            None => {
                return None;
            },
        };
        let f2 = match add_field(f, &key, val) {
            Some(f2) => f2,
            None => {
                return None;
            },
        };
        let i6 = skip_ws(v, i5);
        if i6 < v.len() && v[i6] == ',' {
            f = f2;
            cur = i6 + 1;
        } else if i6 < v.len() && v[i6] == '}' {
            return Some((i6 + 1, f2));
        } else {
            return None;
        }
    }
}

/// Exec mirror of [`object_fields`].
fn scan_object(v: &Vec<char>) -> (r: Option<FrameFields>)
    ensures
        r is Some <==> object_fields(v@) is Some,
        r matches Some(f) ==> object_fields(v@) == Some(f@),
{
    let i0 = skip_ws(v, 0);
    if !(i0 < v.len() && v[i0] == '{') {
        return None;
    }
    let i1 = skip_ws(v, i0 + 1);
    if i1 < v.len() && v[i1] == '}' {
        if skip_ws(v, i1 + 1) == v.len() {
            return Some(
                FrameFields {
                    content: None,
                    sender: None,
                    username: None,
                    timestamp: None,
                    info: None,
                    error: None,
                },
            );
        } else {
            return None;
        }
    }
    match scan_members(v, i0 + 1) {
        Some((j, f)) => {
            if skip_ws(v, j) == v.len() {
                Some(f)
            } else {
                None
            }
        },
        None => None,
    }
}

/// Decode one raw inbound line: trim it, then read it as a structured
/// frame if the schema parses, and as plain text otherwise. A line
/// that opens like JSON but does not parse is delivered as text, never
/// dropped and never an error.
pub fn decode_frame(line: &str) -> (r: Frame)
    ensures
        r@ == decoded(trim_of(line@)),
{
    let cs = chars_of(line);
    let t = trim_chars(&cs);
    match scan_object(&t) {
        Some(f) => {
            match f {
                FrameFields { content, sender, username, timestamp, info, error } => {
                    let all_rest_none = content.is_none() && sender.is_none() && username.is_none()
                        && timestamp.is_none();
                    if info.is_some() && all_rest_none && error.is_none() {
                        Frame::Info(info.unwrap())
                    } else if error.is_some() && all_rest_none && info.is_none() {
                        Frame::Error(error.unwrap())
                    } else if content.is_some() && sender.is_some() && timestamp.is_some()
                        && info.is_none() && error.is_none() {
                        Frame::Broadcast {
                            content: content.unwrap(),
                            sender: sender.unwrap(),
                            username: match username {
                                Some(u) => u,
                                None => None,
                            },
                            timestamp: timestamp.unwrap(),
                        }
                    } else {
                        Frame::Text(string_of(t.as_slice()))
                    }
                },
            }
        },
        None => Frame::Text(string_of(t.as_slice())),
    }
}

/// The lowercase hexadecimal digit for `d`, `0 <= d < 16`.
pub open spec fn hex_digit(d: int) -> char {
    if d == 0 {
        '0'
    } else if d == 1 {
        '1'
    } else if d == 2 {
        '2'
    } else if d == 3 {
        '3'
    } else if d == 4 {
        '4'
    } else if d == 5 {
        '5'
    } else if d == 6 {
        '6'
    } else if d == 7 {
        '7'
    } else if d == 8 {
        '8'
    } else if d == 9 {
        '9'
    } else if d == 10 {
        'a'
    } else if d == 11 {
        'b'
    } else if d == 12 {
        'c'
    } else if d == 13 {
        'd'
    } else if d == 14 {
        'e'
    } else {
        'f'
    }
}

/// How one character is written inside a JSON string: itself, a
/// two-character escape, or a `\u00XX` escape for other control
/// characters.
pub open spec fn esc_char(c: char) -> Seq<char> {
    if c == '"' {
        seq!['\\', '"']
    } else if c == '\\' {
        seq!['\\', '\\']
    } else if c == '\n' {
        seq!['\\', 'n']
    } else if c == '\r' {
        seq!['\\', 'r']
    } else if c == '\t' {
        seq!['\\', 't']
    } else if (c as u32) < 0x20 {
        seq!['\\', 'u', '0', '0', hex_digit((c as int) / 16), hex_digit((c as int) % 16)]
    } else {
        seq![c]
    }
}

/// `s` written as the body of a JSON string.
pub open spec fn json_escaped(s: Seq<char>) -> Seq<char>
    decreases s.len(),
{
    if s.len() == 0 {
        Seq::empty()
    } else {
        json_escaped(s.drop_last()) + esc_char(s.last())
    }
}

/// The broadcast frame for `m`: the JSON object the server writes for
/// a `Chat`, `Join` or `Leave` message.
pub open spec fn broadcast_text(m: MessageModel) -> Seq<char> {
    "{\"content\":\""@ + json_escaped(m.content) + "\",\"sender\":\""@ + json_escaped(m.sender) + (
    match m.username {
        Some(u) => "\",\"username\":\""@ + json_escaped(u) + "\",\"timestamp\":\""@,
        None => "\",\"username\":null,\"timestamp\":\""@,
    }) + json_escaped(m.timestamp) + "\"}"@
}

/// The private notice frame carrying `s`.
pub open spec fn info_text(s: Seq<char>) -> Seq<char> {
    "{\"info\":\""@ + json_escaped(s) + "\"}"@
}

/// The private error frame carrying `s`.
pub open spec fn error_text(s: Seq<char>) -> Seq<char> {
    "{\"error\":\""@ + json_escaped(s) + "\"}"@
}

/// The wire text of `m`: a private frame for `Info` and `Error`, the
/// broadcast frame for everything else.
pub open spec fn frame_text(m: MessageModel) -> Seq<char> {
    match m.kind {
        MessageKind::Info => info_text(m.content),
        MessageKind::Error => error_text(m.content),
        _ => broadcast_text(m),
    }
}

/// Exec mirror of [`hex_digit`].
fn hex_digit_exec(d: u32) -> (r: char)
    requires
        d < 16,
    ensures
        r == hex_digit(d as int),
{
    if d == 0 {
        '0'
    } else if d == 1 {
        '1'
    } else if d == 2 {
        '2'
    } else if d == 3 {
        '3'
    } else if d == 4 {
        '4'
    } else if d == 5 {
        '5'
    } else if d == 6 {
        '6'
    } else if d == 7 {
        '7'
    } else if d == 8 {
        '8'
    } else if d == 9 {
        '9'
    } else if d == 10 {
        'a'
    } else if d == 11 {
        'b'
    } else if d == 12 {
        'c'
    } else if d == 13 {
        'd'
    } else if d == 14 {
        'e'
    } else {
        'f'
    }
}

/// Append the JSON escape of one character.
fn push_escaped(out: &mut String, c: char)
    ensures
        final(out)@ == old(out)@ + esc_char(c),
{
    if c == '"' {
        push_char(out, '\\');
        push_char(out, '"');
    } else if c == '\\' {
        push_char(out, '\\');
        push_char(out, '\\');
    } else if c == '\n' {
        push_char(out, '\\');
        push_char(out, 'n');
    } else if c == '\r' {
        push_char(out, '\\');
        push_char(out, 'r');
    } else if c == '\t' {
        push_char(out, '\\');
        push_char(out, 't');
    } else if (c as u32) < 0x20 {
        let n = c as u32;
        push_char(out, '\\');
        push_char(out, 'u');
        push_char(out, '0');
        push_char(out, '0');
        push_char(out, hex_digit_exec(n / 16));
        push_char(out, hex_digit_exec(n % 16));
    } else {
        push_char(out, c);
    }
    proof {
        assert(final(out)@ =~= old(out)@ + esc_char(c));
    }
}

/// Append the JSON-escaped body of `s`.
fn append_escaped(out: &mut String, s: &str)
    ensures
        final(out)@ == old(out)@ + json_escaped(s@),
{
    let cs = chars_of(s);
    let ghost base = out@;
    let mut i: usize = 0;
    proof {
        assert(base + json_escaped(cs@.take(0int)) =~= base);
    }
    while i < cs.len()
        invariant
            i <= cs@.len(),
            cs@ == s@,
            out@ == base + json_escaped(cs@.take(i as int)),
        decreases cs@.len() - i,
    {
        proof {
            assert(cs@.take(i + 1).drop_last() =~= cs@.take(i as int));
            assert(cs@.take(i + 1).last() == cs@[i as int]);
        }
        push_escaped(out, cs[i]);
        i = i + 1;
        proof {
            assert(out@ =~= base + json_escaped(cs@.take(i as int)));
        }
    }
    proof {
        assert(cs@.take(cs@.len() as int) =~= cs@);
    }
}

/// Encode `m` as one wire frame, without the trailing newline.
pub fn encode_frame(m: &Message) -> (r: String)
    ensures
        r@ == frame_text(m@),
{
    let mut out = String::new();
    match m.kind {
        MessageKind::Info => {
            out.append("{\"info\":\"");
            append_escaped(&mut out, m.content.as_str());
            out.append("\"}");
            proof {
                assert(out@ =~= info_text(m@.content));
            }
        },
        MessageKind::Error => {
            out.append("{\"error\":\"");
            append_escaped(&mut out, m.content.as_str());
            out.append("\"}");
            proof {
                assert(out@ =~= error_text(m@.content));
            }
        },
        _ => {
            out.append("{\"content\":\"");
            append_escaped(&mut out, m.content.as_str());
            out.append("\",\"sender\":\"");
            append_escaped(&mut out, m.sender.as_str());
            match &m.username {
                Some(u) => {
                    out.append("\",\"username\":\"");
                    append_escaped(&mut out, u.as_str());
                    out.append("\",\"timestamp\":\"");
                },
                None => {
                    out.append("\",\"username\":null,\"timestamp\":\"");
                },
            }
            append_escaped(&mut out, m.timestamp.as_str());
            out.append("\"}");
            proof {
                assert(out@ =~= broadcast_text(m@));
            }
        },
    }
    out
}

/// Exec mirror of [`is_hex`].
fn is_hex_exec(c: char) -> (r: bool)
    ensures
        r == is_hex(c),
{
    ('0' <= c && c <= '9') || ('a' <= c && c <= 'f') || ('A' <= c && c <= 'F')
}

/// Exec mirror of [`hex_val`], for hexadecimal digits.
fn hex_val_exec(c: char) -> (r: u8)
    requires
        is_hex(c),
    ensures
        r == hex_val(c),
        r < 16,
{
    if '0' <= c && c <= '9' {
        (c as u32 - '0' as u32) as u8
    } else if 'a' <= c && c <= 'f' {
        (10 + c as u32 - 'a' as u32) as u8
    } else {
        (10 + c as u32 - 'A' as u32) as u8
    }
}

/// Exec mirror of [`unescaped`].
fn unescape_exec(e: char) -> (r: char)
    ensures
        r == unescaped(e),
{
    if e == 'n' {
        '\n'
    } else if e == 'r' {
        '\r'
    } else if e == 't' {
        '\t'
    } else if e == 'b' {
        '\u{0008}'
    } else if e == 'f' {
        '\u{000C}'
    } else {
        e
    }
}

} // verus!
