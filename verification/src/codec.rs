//! The wire-envelope codec. A text frame is a JSON object
//! `{"subject": string, "body": hex string | byte array, "reply_to": string | null}`;
//! decoding is permissive (missing or ill-typed fields take documented
//! fallbacks), encoding always writes the hex form of the body. A missing
//! `reply_to` defaults to the session that received the frame, so a handler
//! can always reply.

use vstd::prelude::*;
use vstd::string::StrSliceExecFns;
use vstd::utf8::{decode_utf8, encode_utf8, valid_utf8};

use crate::hex;
use crate::hex::{bytes_to_hex_spec, hex_table, hex_to_bytes_spec, is_valid_hex};
use crate::message::{BrokerMessage, MessageModel};
use crate::smap::{lemma_seq_get_absent, lemma_seq_get_skip, seq_get, str_eq};
use crate::wire::{
    bytes_to_utf8, json_parse, parse_json, JsonItem, JsonVal, JsonValModel, ParsedJson,
    ParsedJsonModel,
};

verus! {

// ---------------------------------------------------------------------------
// Field lookup on the parsed object
// ---------------------------------------------------------------------------
/// The value of the first field named `k`, if any.
pub open spec fn obj_get(fields: Seq<(Seq<char>, JsonValModel)>, k: Seq<char>) -> Option<
    JsonValModel,
>
    decreases fields.len(),
{
    if fields.len() == 0 {
        None
    } else if fields[0].0 == k {
        Some(fields[0].1)
    } else {
        obj_get(fields.drop_first(), k)
    }
}

/// Field pairs, seen through their views.
pub open spec fn jview(s: Seq<(String, JsonVal)>) -> Seq<(Seq<char>, JsonValModel)> {
    Seq::new(s.len(), |i: int| (s[i].0@, s[i].1@))
}

proof fn lemma_obj_get_jview(s: Seq<(String, JsonVal)>, k: Seq<char>)
    ensures
        match seq_get(s, k) {
            Some(v) => obj_get(jview(s), k) == Some(v@),
            None => obj_get(jview(s), k) is None,
        },
    decreases s.len(),
{
    if s.len() > 0 {
        assert(jview(s)[0] == (s[0].0@, s[0].1@));
        if s[0].0@ != k {
            lemma_obj_get_jview(s.drop_first(), k);
            assert(jview(s).drop_first() =~= jview(s.drop_first()));
        }
    }
}

fn get_field<'a>(fields: &'a Vec<(String, JsonVal)>, k: &str) -> (r: Option<&'a JsonVal>)
    ensures
        match r {
            Some(v) => obj_get(jview(fields@), k@) == Some(v@),
            None => obj_get(jview(fields@), k@) is None,
        },
{
    let n = fields.len();
    let mut i: usize = 0;
    while i < n
        invariant
            n == fields@.len(),
            i <= n,
            forall|j: int| 0 <= j < i ==> fields@[j].0@ != k@,
        decreases n - i,
    {
        if str_eq(fields[i].0.as_str(), k) {
            proof {
                lemma_seq_get_skip(fields@, k@, i as int);
                assert(fields@.skip(i as int)[0] == fields@[i as int]);
                lemma_obj_get_jview(fields@, k@);
            }
            return Some(&fields[i].1);
        }
        i += 1;
    }
    proof {
        lemma_seq_get_absent(fields@, k@);
        lemma_obj_get_jview(fields@, k@);
    }
    None
}

// ---------------------------------------------------------------------------
// Decoding
// ---------------------------------------------------------------------------
/// Bytes of a JSON array body: integer items truncated to a byte, everything
/// else skipped.
pub open spec fn bytes_of_items(items: Seq<JsonItem>) -> Seq<u8>
    decreases items.len(),
{
    if items.len() == 0 {
        Seq::empty()
    } else {
        let rest = bytes_of_items(items.drop_last());
        match items.last() {
            JsonItem::U(n) => rest.push((n % 256) as u8),
            JsonItem::NonU => rest,
        }
    }
}

/// Bytes carried by the `body` field: a string is hex-decoded when it reads
/// as hex and otherwise passed through as its UTF-8 bytes; an array is taken
/// item by item; anything else falls back to the bytes of the whole frame.
pub open spec fn body_of_field(f: Option<JsonValModel>, text: Seq<char>) -> Seq<u8> {
    match f {
        Some(JsonValModel::Str(s)) => if is_valid_hex(s) {
            hex_to_bytes_spec(s)
        } else {
            encode_utf8(s)
        },
        Some(JsonValModel::Arr(items)) => bytes_of_items(items),
        _ => encode_utf8(text),
    }
}

/// The message read from a frame's object fields.
pub open spec fn decode_obj_spec(
    fields: Seq<(Seq<char>, JsonValModel)>,
    text: Seq<char>,
    sid: Seq<char>,
) -> MessageModel {
    MessageModel {
        subject: match obj_get(fields, "subject"@) {
            Some(JsonValModel::Str(s)) => s,
            _ => "default"@,
        },
        body: body_of_field(obj_get(fields, "body"@), text),
        reply_to: match obj_get(fields, "reply_to"@) {
            Some(JsonValModel::Str(s)) => Some(s),
            _ => Some(sid),
        },
    }
}

/// The message read from a text frame: envelope fields when the frame is a
/// JSON object, object-free fallbacks when it is other JSON, and a plain
/// `message`-subject wrap when it is not JSON at all.
pub open spec fn parse_message_spec(p: ParsedJsonModel, text: Seq<char>, sid: Seq<char>) -> MessageModel {
    match p {
        ParsedJsonModel::Obj(fields) => decode_obj_spec(fields, text, sid),
        ParsedJsonModel::NonObj => decode_obj_spec(Seq::empty(), text, sid),
        ParsedJsonModel::NotJson => MessageModel {
            subject: "message"@,
            body: encode_utf8(text),
            reply_to: Some(sid),
        },
    }
}

/// The message read from a binary frame: decoded and parsed as text when the
/// bytes are UTF-8, wrapped raw under the `binary.message` subject otherwise.
pub open spec fn binary_message_spec(data: Seq<u8>, sid: Seq<char>) -> MessageModel {
    if valid_utf8(data) {
        parse_message_spec(json_parse(decode_utf8(data)), decode_utf8(data), sid)
    } else {
        MessageModel { subject: "binary.message"@, body: data, reply_to: Some(sid) }
    }
}

fn items_to_bytes(items: &Vec<JsonItem>) -> (r: Vec<u8>)
    ensures
        r@ == bytes_of_items(items@),
{
    let n = items.len();
    let mut out: Vec<u8> = Vec::new();
    let mut i: usize = 0;
    while i < n
        invariant
            n == items@.len(),
            i <= n,
            out@ == bytes_of_items(items@.subrange(0, i as int)),
        decreases n - i,
    {
        let ghost p = items@.subrange(0, i as int);
        let ghost q = items@.subrange(0, i + 1);
        proof {
            assert(q.drop_last() =~= p);
            assert(q.last() == items@[i as int]);
        }
        match items[i] {
            JsonItem::U(n_val) => {
                out.push((n_val % 256) as u8);
            },
            JsonItem::NonU => {},
        }
        i += 1;
    }
    proof {
        assert(items@.subrange(0, n as int) =~= items@);
    }
    out
}

fn decode_fields(fields: &Vec<(String, JsonVal)>, text: &str, session_id: &str) -> (r:
    BrokerMessage)
    ensures
        r@ == decode_obj_spec(jview(fields@), text@, session_id@),
{
    let subject = match get_field(fields, "subject") {
        Some(JsonVal::Str(s)) => s.clone(),
        _ => String::from_str("default"),
    };
    let body = match get_field(fields, "body") {
        Some(JsonVal::Str(s)) => match hex::hex_to_bytes(s.as_str()) {
            Some(v) => v,
            None => vstd::slice::slice_to_vec(s.as_str().as_bytes()),
        },
        Some(JsonVal::Arr(items)) => items_to_bytes(items),
        _ => vstd::slice::slice_to_vec(text.as_bytes()),
    };
    let reply_to = match get_field(fields, "reply_to") {
        Some(JsonVal::Str(s)) => Some(s.clone()),
        _ => Some(String::from_str(session_id)),
    };
    BrokerMessage { subject, body, reply_to }
}

/// Decodes a text frame received on the session `session_id`. Total: any
/// text yields a message, non-JSON text being wrapped as a plain
/// `message`-subject message carrying the frame's raw bytes.
pub fn parse_broker_message(text: &str, session_id: &str) -> (r: BrokerMessage)
    ensures
        r@ == parse_message_spec(json_parse(text@), text@, session_id@),
{
    match parse_json(text) {
        ParsedJson::Obj(fields) => decode_fields(&fields, text, session_id),
        ParsedJson::NonObj => {
            let empty: Vec<(String, JsonVal)> = Vec::new();
            let r = decode_fields(&empty, text, session_id);
            proof {
                assert(jview(empty@) =~= Seq::<(Seq<char>, JsonValModel)>::empty());
            }
            r
        },
        ParsedJson::NotJson => BrokerMessage {
            subject: String::from_str("message"),
            body: vstd::slice::slice_to_vec(text.as_bytes()),
            reply_to: Some(String::from_str(session_id)),
        },
    }
}

/// Decodes a binary frame received on the session `session_id`.
pub fn decode_binary_message(data: Vec<u8>, session_id: &str) -> (r: BrokerMessage)
    ensures
        r@ == binary_message_spec(data@, session_id@),
{
    match bytes_to_utf8(&data) {
        Some(text) => parse_broker_message(text.as_str(), session_id),
        None => BrokerMessage {
            subject: String::from_str("binary.message"),
            body: data,
            reply_to: Some(String::from_str(session_id)),
        },
    }
}

// ---------------------------------------------------------------------------
// Encoding
// ---------------------------------------------------------------------------
/// How one character is written inside a JSON string.
pub open spec fn escape_char(c: char) -> Seq<char> {
    if c == '"' {
        "\\\""@
    } else if c == '\\' {
        "\\\\"@
    } else if (c as u32) < 32 {
        "\\u00"@ + seq![hex_table()[(c as u32) as int / 16], hex_table()[(c as u32) as int % 16]]
    } else {
        seq![c]
    }
}

/// A string written inside JSON quotes.
pub open spec fn escape_str(s: Seq<char>) -> Seq<char>
    decreases s.len(),
{
    if s.len() == 0 {
        Seq::empty()
    } else {
        escape_str(s.drop_last()) + escape_char(s.last())
    }
}

/// The text frame `encode_message` writes: subject and reply escaped, body
/// in hex, a missing reply written as JSON null.
pub open spec fn encode_spec(m: MessageModel) -> Seq<char> {
    "{\"subject\":\""@ + escape_str(m.subject) + "\",\"body\":\""@ + bytes_to_hex_spec(m.body)
        + "\",\"reply_to\":"@ + (match m.reply_to {
        Some(r) => "\""@ + escape_str(r) + "\""@,
        None => "null"@,
    }) + "}"@
}

/// Escaping a run of ordinary characters copies them unchanged.
proof fn lemma_escape_plain(s: Seq<char>, a: int, b: int)
    requires
        0 <= a <= b <= s.len(),
        forall|j: int| a <= j < b ==> escape_char(#[trigger] s[j]) == seq![s[j]],
    ensures
        escape_str(s.subrange(0, b)) == escape_str(s.subrange(0, a)) + s.subrange(a, b),
    decreases b - a,
{
    if a == b {
        assert(s.subrange(a, b) =~= Seq::<char>::empty());
        assert(escape_str(s.subrange(0, a)) + Seq::<char>::empty() =~= escape_str(
            s.subrange(0, a),
        ));
    } else {
        lemma_escape_plain(s, a, b - 1);
        let q = s.subrange(0, b);
        assert(q.drop_last() =~= s.subrange(0, b - 1));
        assert(q.last() == s[b - 1]);
        assert(escape_str(q) == escape_str(s.subrange(0, b - 1)) + escape_char(s[b - 1]));
        assert(escape_str(s.subrange(0, a)) + s.subrange(a, b - 1) + seq![s[b - 1]] =~= escape_str(
            s.subrange(0, a),
        ) + s.subrange(a, b));
    }
}

fn escape_append(out: &mut String, s: &str)
    ensures
        final(out)@ == old(out)@ + escape_str(s@),
{
    let n = s.unicode_len();
    let mut i: usize = 0;
    let mut run: usize = 0;
    while i < n
        invariant
            n == s@.len(),
            run <= i <= n,
            out@ == old(out)@ + escape_str(s@.subrange(0, run as int)),
            forall|j: int| run <= j < i ==> escape_char(#[trigger] s@[j]) == seq![s@[j]],
        decreases n - i,
    {
        let c = s.get_char(i);
        let u: u32 = c as u32;
        if c == '"' || c == '\\' || u < 32 {
            let seg = s.substring_char(run, i);
            out.append(seg);
            proof {
                lemma_escape_plain(s@, run as int, i as int);
                assert(out@ =~= old(out)@ + escape_str(s@.subrange(0, i as int)));
            }
            if c == '"' {
                out.append("\\\"");
            } else if c == '\\' {
                out.append("\\\\");
            } else {
                out.append("\\u00");
                let table = "0123456789abcdef";
                proof {
                    reveal_strlit("0123456789abcdef");
                }
                let hi = (u / 16) as usize;
                let lo = (u % 16) as usize;
                let hseg = table.substring_char(hi, hi + 1);
                let lseg = table.substring_char(lo, lo + 1);
                out.append(hseg);
                out.append(lseg);
                proof {
                    assert(hseg@ =~= seq![hex_table()[u as int / 16]]);
                    assert(lseg@ =~= seq![hex_table()[u as int % 16]]);
                }
            }
            proof {
                let q = s@.subrange(0, i + 1);
                assert(q.drop_last() =~= s@.subrange(0, i as int));
                assert(q.last() == s@[i as int]);
                assert(out@ =~= old(out)@ + escape_str(q));
            }
            run = i + 1;
        }
        i += 1;
    }
    let seg = s.substring_char(run, n);
    out.append(seg);
    proof {
        lemma_escape_plain(s@, run as int, n as int);
        assert(s@.subrange(0, n as int) =~= s@);
        assert(out@ =~= old(out)@ + escape_str(s@));
    }
}

/// Writes a message as a text frame.
pub fn encode_message(msg: &BrokerMessage) -> (r: String)
    ensures
        r@ == encode_spec(msg@),
{
    let mut out = String::from_str("{\"subject\":\"");
    escape_append(&mut out, msg.subject.as_str());
    out.append("\",\"body\":\"");
    let h = hex::encode(&msg.body);
    out.append(h.as_str());
    out.append("\",\"reply_to\":");
    match &msg.reply_to {
        Some(r) => {
            out.append("\"");
            escape_append(&mut out, r.as_str());
            out.append("\"");
        },
        None => {
            out.append("null");
        },
    }
    out.append("}");
    proof {
        assert(out@ =~= encode_spec(msg@));
    }
    out
}

// ---------------------------------------------------------------------------
// The round trip
// ---------------------------------------------------------------------------
/// The object fields that `encode_message`'s frame carries, as parsing
/// reads them back: the subject and reply strings themselves (escaping is
/// undone by the parser), and the body as its hex string.
pub open spec fn encode_fields(m: MessageModel) -> Seq<(Seq<char>, JsonValModel)> {
    seq![
        ("subject"@, JsonValModel::Str(m.subject)),
        ("body"@, JsonValModel::Str(bytes_to_hex_spec(m.body))),
        (
            "reply_to"@,
            match m.reply_to {
                Some(r) => JsonValModel::Str(r),
                None => JsonValModel::Other,
            },
        ),
    ]
}

/// Round trip: decoding the envelope written for a message reproduces its
/// subject and reply subject exactly, and its body byte for byte; a message
/// sent without a reply subject comes back carrying the receiving session.
pub proof fn lemma_codec_round_trip(m: MessageModel, text: Seq<char>, sid: Seq<char>)
    ensures
        ({
            let d = parse_message_spec(ParsedJsonModel::Obj(encode_fields(m)), text, sid);
            &&& d.subject == m.subject
            &&& d.body == m.body
            &&& d.reply_to == (if m.reply_to is Some {
                m.reply_to
            } else {
                Some(sid)
            })
        }),
{
    reveal_strlit("subject");
    reveal_strlit("body");
    reveal_strlit("reply_to");
    let f = encode_fields(m);
    assert("subject"@.len() == 7 && "body"@.len() == 4 && "reply_to"@.len() == 8);
    let f1 = seq![f[1], f[2]];
    let f2 = seq![f[2]];
    assert(f.drop_first() =~= f1);
    assert(f1.drop_first() =~= f2);
    assert(obj_get(f, "subject"@) == Some(JsonValModel::Str(m.subject)));
    assert(obj_get(f, "body"@) == obj_get(f1, "body"@));
    assert(f1[0] == f[1]);
    assert(obj_get(f1, "body"@) == Some(JsonValModel::Str(bytes_to_hex_spec(m.body))));
    assert(obj_get(f, "reply_to"@) == obj_get(f1, "reply_to"@));
    assert(obj_get(f1, "reply_to"@) == obj_get(f2, "reply_to"@));
    assert(f2[0] == f[2]);
    assert(obj_get(f2, "reply_to"@) == Some(f[2].1));
    hex::lemma_hex_round_trip(m.body);
}

} // verus!
