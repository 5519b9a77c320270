//! The message envelope and its canonical JSON text.
use vstd::prelude::*;
use crate::decimal::{digit_char, int_decimal, int_text, lemma_nat_text_is_digits};
use crate::frame::{encode_frame, frames, framed, has_no_separator, lemma_single_frame, RECORD_SEPARATOR};

verus! {

/// Message type of an invocation.
pub const INVOCATION: i32 = 1;

/// Message type of a keepalive ping.
pub const PING: i32 = 6;

/// A lowercase hexadecimal digit.
pub open spec fn hex_char(d: nat) -> char {
    if d < 10 {
        digit_char(d)
    } else if d == 10 {
        'a'
    } else if d == 11 {
        'b'
    } else if d == 12 {
        'c'
    } else if d == 13 {
        'd'
    } else if d == 14 {
        'e'
    } else {
        'f'
    }
}

/// One character inside a JSON string literal: quote and backslash are
/// escaped, five control characters have short escapes, the other control
/// characters become `\u00xx`, and everything else stands as it is.
pub open spec fn escaped_char(c: char) -> Seq<char> {
    if c == '"' {
        seq!['\\', '"']
    } else if c == '\\' {
        seq!['\\', '\\']
    } else if c == '\u{8}' {
        seq!['\\', 'b']
    } else if c == '\t' {
        seq!['\\', 't']
    } else if c == '\n' {
        seq!['\\', 'n']
    } else if c == '\u{c}' {
        seq!['\\', 'f']
    } else if c == '\r' {
        seq!['\\', 'r']
    } else if (c as u32) < 0x20 {
        seq!['\\', 'u', '0', '0', hex_char((c as u32 / 16) as nat), hex_char((c as u32 % 16) as nat)]
    } else {
        seq![c]
    }
}

pub open spec fn escaped(s: Seq<char>) -> Seq<char>
    decreases s.len(),
{
    if s.len() == 0 {
        Seq::empty()
    } else {
        escaped(s.drop_last()) + escaped_char(s.last())
    }
}

/// The text of `s` as a JSON string literal, quotes included.
pub open spec fn json_quoted(s: Seq<char>) -> Seq<char> {
    seq!['"'] + escaped(s) + seq!['"']
}

proof fn lemma_escaped_char_no_separator(c: char)
    ensures
        has_no_separator(escaped_char(c)),
{
    let e = escaped_char(c);
    if (c as u32) < 0x20 {
        let v = c as u32;
        assert(v / 16 < 2);
        assert(hex_char((v / 16) as nat) != RECORD_SEPARATOR);
        assert(hex_char((v % 16) as nat) != RECORD_SEPARATOR);
    } else {
        assert(c != RECORD_SEPARATOR);
    }
    assert forall|i: int| 0 <= i < e.len() implies e[i] != RECORD_SEPARATOR by {
    }
}

proof fn lemma_quoted_no_separator(s: Seq<char>)
    ensures
        has_no_separator(escaped(s)),
        has_no_separator(json_quoted(s)),
    decreases s.len(),
{
    if s.len() > 0 {
        lemma_quoted_no_separator(s.drop_last());
        lemma_escaped_char_no_separator(s.last());
        lemma_concat_no_separator(escaped(s.drop_last()), escaped_char(s.last()));
    }
    assert(has_no_separator(seq!['"']));
    lemma_concat_no_separator(seq!['"'], escaped(s));
    lemma_concat_no_separator(seq!['"'] + escaped(s), seq!['"']);
}

/// Relies on serde_json's `Display` for `Value::String`, which writes the
/// string as a quoted JSON literal escaped as `escaped_char` says.
#[verifier::external_body]
fn quote_json(s: &str) -> (r: String)
    ensures
        r@ == json_quoted(s@),
{
    serde_json::Value::String(s.to_string()).to_string()
}

/// One argument of an invocation.
#[derive(Debug, Clone, PartialEq, Eq)]
pub enum Arg {
    /// A JSON string.
    Text(String),
    /// Any other JSON value, held as its compact JSON text.
    Raw(String),
}

pub ghost enum ArgModel {
    Text(Seq<char>),
    Raw(Seq<char>),
}

impl View for Arg {
    type V = ArgModel;

    open spec fn view(&self) -> ArgModel {
        match self {
            Arg::Text(s) => ArgModel::Text(s@),
            Arg::Raw(s) => ArgModel::Raw(s@),
        }
    }
}

/// A protocol message: `type` 1 is an invocation, 6 a ping.
#[derive(Debug, Clone, PartialEq, Eq)]
pub struct SignalRMessage {
    pub msg_type: i32,
    pub target: Option<String>,
    pub arguments: Option<Vec<Arg>>,
    pub invocation_id: Option<String>,
}

pub ghost struct EnvelopeModel {
    pub msg_type: int,
    pub target: Option<Seq<char>>,
    pub arguments: Option<Seq<ArgModel>>,
    pub invocation_id: Option<Seq<char>>,
}

pub open spec fn opt_view(s: Option<String>) -> Option<Seq<char>> {
    match s {
        Some(t) => Some(t@),
        None => None,
    }
}

pub open spec fn arg_views(v: Seq<Arg>) -> Seq<ArgModel> {
    v.map_values(|a: Arg| a@)
}

impl View for SignalRMessage {
    type V = EnvelopeModel;

    open spec fn view(&self) -> EnvelopeModel {
        EnvelopeModel {
            msg_type: self.msg_type as int,
            target: opt_view(self.target),
            arguments: match self.arguments {
                Some(v) => Some(arg_views(v@)),
                None => None,
            },
            invocation_id: opt_view(self.invocation_id),
        }
    }
}

/// A valid envelope: only an invocation carries a target or arguments, and
/// no raw argument holds a record separator.
pub open spec fn valid_envelope(e: EnvelopeModel) -> bool {
    &&& (e.target.is_some() || e.arguments.is_some()) ==> e.msg_type == INVOCATION
    &&& match e.arguments {
        Some(a) => forall|i: int| 0 <= i < a.len() ==> match #[trigger] a[i] {
            ArgModel::Raw(r) => has_no_separator(r),
            ArgModel::Text(_) => true,
        },
        None => true,
    }
}

pub open spec fn arg_json(a: ArgModel) -> Seq<char> {
    match a {
        ArgModel::Text(s) => json_quoted(s),
        ArgModel::Raw(r) => r,
    }
}

/// The arguments as JSON values separated by commas.
pub open spec fn args_json(a: Seq<ArgModel>) -> Seq<char>
    decreases a.len(),
{
    if a.len() == 0 {
        Seq::empty()
    } else if a.len() == 1 {
        arg_json(a[0])
    } else {
        args_json(a.drop_last()) + ","@ + arg_json(a.last())
    }
}

/// The canonical object form: `type`, then each of `target`, `arguments`,
/// `invocationId` that is present, in that order, with no whitespace.
pub open spec fn envelope_json(e: EnvelopeModel) -> Seq<char> {
    "{\"type\":"@ + int_text(e.msg_type) + match e.target {
        Some(t) => ",\"target\":"@ + json_quoted(t),
        None => Seq::empty(),
    } + match e.arguments {
        Some(a) => ",\"arguments\":["@ + args_json(a) + "]"@,
        None => Seq::empty(),
    } + match e.invocation_id {
        Some(i) => ",\"invocationId\":"@ + json_quoted(i),
        None => Seq::empty(),
    } + "}"@
}

proof fn lemma_concat_no_separator(a: Seq<char>, b: Seq<char>)
    requires
        has_no_separator(a),
        has_no_separator(b),
    ensures
        has_no_separator(a + b),
{
    assert forall|i: int| 0 <= i < (a + b).len() implies (a + b)[i] != RECORD_SEPARATOR by {
        if i < a.len() {
            assert((a + b)[i] == a[i]);
        } else {
            assert((a + b)[i] == b[i - a.len()]);
        }
    }
}

fn append_quoted(out: &mut String, s: &str)
    ensures
        final(out)@ == old(out)@ + json_quoted(s@),
        has_no_separator(json_quoted(s@)),
{
    let q = quote_json(s);
    out.append(q.as_str());
    proof {
        lemma_quoted_no_separator(s@);
    }
}

/// The canonical JSON text of an envelope, without the separator.
pub fn envelope_text(m: &SignalRMessage) -> (r: String)
    requires
        valid_envelope(m@),
    ensures
        r@ == envelope_json(m@),
        r@.len() > 0,
        has_no_separator(r@),
{
    proof {
        reveal_strlit("{\"type\":");
        reveal_strlit(",\"target\":");
        reveal_strlit(",\"arguments\":[");
        reveal_strlit("]");
        reveal_strlit(",");
        reveal_strlit(",\"invocationId\":");
        reveal_strlit("}");
    }
    let mut out = String::from_str("{\"type\":");
    let ghost head = out@;
    let num = int_decimal(m.msg_type);
    out.append(num.as_str());
    proof {
        let n = m.msg_type as int;
        if n < 0 {
            lemma_nat_text_is_digits((-n) as nat);
        } else {
            lemma_nat_text_is_digits(n as nat);
        }
        assert(has_no_separator(int_text(n)));
        assert(has_no_separator(head));
        lemma_concat_no_separator(head, int_text(n));
    }
    let ghost part1 = out@;
    match &m.target {
        Some(t) => {
            out.append(",\"target\":");
            append_quoted(&mut out, t.as_str());
            proof {
                assert(has_no_separator(",\"target\":"@));
                lemma_concat_no_separator(",\"target\":"@, json_quoted(t@));
                lemma_concat_no_separator(part1, ",\"target\":"@ + json_quoted(t@));
                assert(out@ =~= part1 + (",\"target\":"@ + json_quoted(t@)));
            }
        },
        None => {},
    }
    let ghost part2 = out@;
    match &m.arguments {
        Some(args) => {
            out.append(",\"arguments\":[");
            let ghost open_at = out@;
            let ghost av = arg_views(args@);
            let mut i: usize = 0;
            while i < args.len()
                invariant
                    0 <= i <= args@.len(),
                    av == arg_views(args@),
                    valid_envelope(m@),
                    m.arguments == Some(*args),
                    out@ == open_at + args_json(av.subrange(0, i as int)),
                    has_no_separator(open_at),
                    has_no_separator(args_json(av.subrange(0, i as int))),
                decreases args@.len() - i,
            {
                let ghost before = out@;
                let ghost sub = av.subrange(0, i as int);
                let ghost sub1 = av.subrange(0, i + 1);
                proof {
                    assert(sub1.drop_last() =~= sub);
                    assert(sub1.last() == args@[i as int]@);
                    assert(av[i as int] == args@[i as int]@);
                }
                if i > 0 {
                    out.append(",");
                }
                let ghost mid = out@;
                match &args[i] {
                    Arg::Text(s) => {
                        append_quoted(&mut out, s.as_str());
                    },
                    Arg::Raw(r) => {
                        out.append(r.as_str());
                        proof {
                            assert(match av[i as int] {
                                ArgModel::Raw(x) => has_no_separator(x),
                                ArgModel::Text(_) => true,
                            });
                        }
                    },
                }
                proof {
                    let piece = arg_json(sub1.last());
                    reveal_strlit(",");
                    assert(has_no_separator(piece));
                    assert(has_no_separator(","@));
                    if i == 0 {
                        assert(sub1.len() == 1);
                        assert(args_json(sub1) == piece);
                        assert(out@ =~= open_at + args_json(sub1));
                    } else {
                        assert(args_json(sub1) == args_json(sub) + ","@ + piece);
                        assert(out@ =~= open_at + args_json(sub1));
                        lemma_concat_no_separator(args_json(sub), ","@);
                        lemma_concat_no_separator(args_json(sub) + ","@, piece);
                    }
                }
                i = i + 1;
            }
            out.append("]");
            proof {
                assert(av.subrange(0, args@.len() as int) =~= av);
                assert(has_no_separator(",\"arguments\":["@));
                assert(has_no_separator("]"@));
                lemma_concat_no_separator(",\"arguments\":["@, args_json(av));
                lemma_concat_no_separator(",\"arguments\":["@ + args_json(av), "]"@);
                lemma_concat_no_separator(part2, ",\"arguments\":["@ + args_json(av) + "]"@);
                assert(out@ =~= part2 + (",\"arguments\":["@ + args_json(av) + "]"@));
            }
        },
        None => {},
    }
    let ghost part3 = out@;
    match &m.invocation_id {
        Some(t) => {
            out.append(",\"invocationId\":");
            append_quoted(&mut out, t.as_str());
            proof {
                assert(has_no_separator(",\"invocationId\":"@));
                lemma_concat_no_separator(",\"invocationId\":"@, json_quoted(t@));
                lemma_concat_no_separator(part3, ",\"invocationId\":"@ + json_quoted(t@));
                assert(out@ =~= part3 + (",\"invocationId\":"@ + json_quoted(t@)));
            }
        },
        None => {},
    }
    let ghost part4 = out@;
    out.append("}");
    proof {
        assert(has_no_separator("}"@));
        lemma_concat_no_separator(part4, "}"@);
        assert(out@ =~= envelope_json(m@));
    }
    out
}

/// Encodes an envelope as one frame: its canonical JSON text followed by
/// exactly one record separator. Split again, the frame gives back that
/// text alone.
pub fn encode(m: &SignalRMessage) -> (r: String)
    requires
        valid_envelope(m@),
    ensures
        r@ == framed(envelope_json(m@)),
        frames(r@) == seq![envelope_json(m@)],
{
    let body = envelope_text(m);
    proof {
        lemma_single_frame(body@);
    }
    encode_frame(body.as_str())
}

} // verus!
