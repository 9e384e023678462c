//! The agent's JSON wire format: compact request serialisation and
//! response field extraction.
//!
//! Requests are flat objects — every payload the engine sends holds
//! only strings, integers and booleans — and are serialised by
//! verified code, exactly.  Responses are arbitrary JSON; the value
//! under `data.<field>` is carved out by serde_json behind a trusted
//! bridge and handed on in its compact rendering.

use vstd::prelude::*;
use vstd::string::StringExecFns;
use crate::num::{dec_signed_spec, i64_dec};
use crate::text::string_of;

verus! {

/// One scalar field value of a request payload.
#[derive(Debug, Clone)]
pub enum JsonScalar {
    Str(String),
    Int(i64),
    Bool(bool),
}

/// Mathematical image of a [`JsonScalar`].
pub ghost enum JsonScalarV {
    Str(Seq<char>),
    Int(i64),
    Bool(bool),
}

impl View for JsonScalar {
    type V = JsonScalarV;

    open spec fn view(&self) -> JsonScalarV {
        match self {
            JsonScalar::Str(s) => JsonScalarV::Str(s@),
            JsonScalar::Int(n) => JsonScalarV::Int(*n),
            JsonScalar::Bool(b) => JsonScalarV::Bool(*b),
        }
    }
}

/// How one character is escaped inside a JSON string literal.
pub open spec fn json_escape_char(c: char) -> Seq<char> {
    if c == '"' {
        seq!['\\', '"']
    } else if c == '\\' {
        seq!['\\', '\\']
    } else if c == '\n' {
        seq!['\\', 'n']
    } else if c == '\r' {
        seq!['\\', 'r']
    } else if c == '\t' {
        seq!['\\', 't']
    } else {
        seq![c]
    }
}

pub open spec fn json_escaped(s: Seq<char>) -> Seq<char>
    decreases s.len(),
{
    if s.len() == 0 {
        Seq::empty()
    } else {
        json_escaped(s.drop_last()) + json_escape_char(s.last())
    }
}

/// A JSON string literal: quoted, with quote, backslash and the
/// common control characters escaped.
pub open spec fn json_string_text(s: Seq<char>) -> Seq<char> {
    seq!['"'] + json_escaped(s) + seq!['"']
}

/// The rendering of one scalar.
pub open spec fn scalar_text(v: JsonScalarV) -> Seq<char> {
    match v {
        JsonScalarV::Str(s) => json_string_text(s),
        JsonScalarV::Int(n) => dec_signed_spec(n as int),
        JsonScalarV::Bool(b) => if b {
            "true"@
        } else {
            "false"@
        },
    }
}

/// The rendering of the payload fields, comma-separated, in order.
pub open spec fn fields_text(fields: Seq<(Seq<char>, JsonScalarV)>) -> Seq<char>
    decreases fields.len(),
{
    if fields.len() == 0 {
        Seq::empty()
    } else if fields.len() == 1 {
        json_string_text(fields[0].0) + seq![':'] + scalar_text(fields[0].1)
    } else {
        json_string_text(fields[0].0) + seq![':'] + scalar_text(fields[0].1) + seq![',']
            + fields_text(fields.skip(1))
    }
}

/// One request line: `{"type":<command>,"data":{<fields>}}` followed
/// by the newline terminator.
pub open spec fn request_line_spec(
    cmd_type: Seq<char>,
    fields: Seq<(Seq<char>, JsonScalarV)>,
) -> Seq<char> {
    "{\"type\":"@ + json_string_text(cmd_type) + ",\"data\":{"@ + fields_text(fields) + "}}\n"@
}

/// Append one string's escaped JSON literal.
fn append_json_string(out: &mut String, s: &str)
    ensures
        final(out)@ == old(out)@ + json_string_text(s@),
{
    let cs = crate::text::chars_of(s);
    let mut esc: Vec<char> = Vec::new();
    esc.push('"');
    let mut i: usize = 0;
    proof {
        assert(cs@.take(0) =~= Seq::<char>::empty());
        assert(esc@ =~= seq!['"'] + json_escaped(cs@.take(0)));
    }
    while i < cs.len()
        invariant
            0 <= i <= cs@.len(),
            esc@ == seq!['"'] + json_escaped(cs@.take(i as int)),
        decreases cs@.len() - i,
    {
        let c = cs[i];
        let ghost before = esc@;
        if c == '"' {
            esc.push('\\');
            esc.push('"');
        } else if c == '\\' {
            esc.push('\\');
            esc.push('\\');
        } else if c == '\n' {
            esc.push('\\');
            esc.push('n');
        } else if c == '\r' {
            esc.push('\\');
            esc.push('r');
        } else if c == '\t' {
            esc.push('\\');
            esc.push('t');
        } else {
            esc.push(c);
        }
        proof {
            let pre = cs@.take(i + 1 as int);
            assert(pre.drop_last() =~= cs@.take(i as int));
            assert(pre.last() == cs@[i as int]);
            assert(esc@ =~= before + json_escape_char(cs@[i as int]));
        }
        i = i + 1;
    }
    esc.push('"');
    proof {
        assert(cs@.take(cs@.len() as int) =~= cs@);
        assert(esc@ =~= json_string_text(s@));
    }
    let es = string_of(esc.as_slice());
    out.append(es.as_str());
}

fn append_scalar(out: &mut String, v: &JsonScalar)
    ensures
        final(out)@ == old(out)@ + scalar_text(v@),
{
    match v {
        JsonScalar::Str(s) => {
            append_json_string(out, s.as_str());
        },
        JsonScalar::Int(n) => {
            let d = string_of(i64_dec(*n).as_slice());
            out.append(d.as_str());
        },
        JsonScalar::Bool(b) => {
            if *b {
                out.append("true");
            } else {
                out.append("false");
            }
        },
    }
}

proof fn lemma_fields_text_snoc(fields: Seq<(Seq<char>, JsonScalarV)>, x: (Seq<char>, JsonScalarV))
    ensures
        fields_text(fields.push(x)) == (if fields.len() == 0 {
            json_string_text(x.0) + seq![':'] + scalar_text(x.1)
        } else {
            fields_text(fields) + seq![','] + json_string_text(x.0) + seq![':'] + scalar_text(x.1)
        }),
    decreases fields.len(),
{
    if fields.len() == 0 {
        assert(fields.push(x)[0] == x);
    } else {
        assert(fields.push(x)[0] == fields[0]);
        assert(fields.push(x).skip(1) =~~= fields.skip(1).push(x));
        lemma_fields_text_snoc(fields.skip(1), x);
        if fields.len() == 1 {
            assert(fields.skip(1).len() == 0);
            assert(fields_text(fields) == json_string_text(fields[0].0) + seq![':'] + scalar_text(
                fields[0].1));
            assert(fields_text(fields.push(x)) =~= fields_text(fields) + seq![',']
                + json_string_text(x.0) + seq![':'] + scalar_text(x.1));
        } else {
            assert(fields_text(fields.push(x)) =~= fields_text(fields) + seq![',']
                + json_string_text(x.0) + seq![':'] + scalar_text(x.1));
        }
    }
}

/// Build one request line for the agent: the command type and the
/// flat payload, serialised compactly, newline-terminated, written
/// in one go by the embedder.
pub fn build_agent_request(cmd_type: &str, fields: &Vec<(String, JsonScalar)>) -> (r: String)
    ensures
        r@ == request_line_spec(
            cmd_type@,
            Seq::new(fields@.len(), |i: int| (fields@[i].0@, fields@[i].1@)),
        ),
{
    let ghost fv = Seq::new(fields@.len(), |i: int| (fields@[i].0@, fields@[i].1@));
    let mut s = String::from_str("{\"type\":");
    append_json_string(&mut s, cmd_type);
    s.append(",\"data\":{");
    let ghost head = "{\"type\":"@ + json_string_text(cmd_type@) + ",\"data\":{"@;
    proof {
        assert(s@ =~= head);
        assert(fv.take(0) =~~= Seq::<(Seq<char>, JsonScalarV)>::empty());
        assert(s@ =~= head + fields_text(fv.take(0)));
    }
    let mut i: usize = 0;
    while i < fields.len()
        invariant
            0 <= i <= fields@.len(),
            fv == Seq::new(fields@.len(), |k: int| (fields@[k].0@, fields@[k].1@)),
            fv.len() == fields@.len(),
            s@ == head + fields_text(fv.take(i as int)),
        decreases fields@.len() - i,
    {
        let ghost s_before = s@;
        if i > 0 {
            s.append(",");
        }
        append_json_string(&mut s, fields[i].0.as_str());
        s.append(":");
        append_scalar(&mut s, &fields[i].1);
        proof {
            reveal_strlit(",");
            reveal_strlit(":");
            let x = fv[i as int];
            assert(fields@[i as int].0@ == x.0);
            assert(fields@[i as int].1@ == x.1);
            assert(fv.take(i + 1) =~~= fv.take(i as int).push(x));
            lemma_fields_text_snoc(fv.take(i as int), x);
            if i > 0 {
                assert(fv.take(i as int).len() > 0);
                assert(s@ =~= head + (fields_text(fv.take(i as int)) + seq![',']
                    + json_string_text(x.0) + seq![':'] + scalar_text(x.1)));
            } else {
                assert(s@ =~= head + (json_string_text(x.0) + seq![':'] + scalar_text(x.1)));
            }
        }
        i = i + 1;
    }
    s.append("}}\n");
    proof {
        assert(fv.take(fields@.len() as int) =~~= fv);
        assert(s@ =~= request_line_spec(cmd_type@, fv));
    }
    s
}

} // verus!
