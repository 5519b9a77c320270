//! Framing: every message on the wire ends with one ASCII record separator.
use vstd::prelude::*;

verus! {

/// The record separator that ends each frame.
pub const RECORD_SEPARATOR: char = '\u{1e}';

pub open spec fn has_no_separator(s: Seq<char>) -> bool {
    forall|i: int| 0 <= i < s.len() ==> s[i] != RECORD_SEPARATOR
}

/// Appends `seg` to `acc` unless it is empty.
pub open spec fn push_nonempty(acc: Seq<Seq<char>>, seg: Seq<char>) -> Seq<Seq<char>> {
    if seg.len() == 0 {
        acc
    } else {
        acc.push(seg)
    }
}

/// Scans `s` left to right: the completed non-empty segments, and the
/// pending text after the last separator.
pub open spec fn scan(s: Seq<char>) -> (Seq<Seq<char>>, Seq<char>)
    decreases s.len(),
{
    if s.len() == 0 {
        (Seq::empty(), Seq::empty())
    } else {
        let prev = scan(s.drop_last());
        if s.last() == RECORD_SEPARATOR {
            (push_nonempty(prev.0, prev.1), Seq::empty())
        } else {
            (prev.0, prev.1.push(s.last()))
        }
    }
}

/// The frames of a buffer: its separator-delimited segments, empty ones left out.
pub open spec fn frames(s: Seq<char>) -> Seq<Seq<char>> {
    push_nonempty(scan(s).0, scan(s).1)
}

/// One frame body followed by its separator.
pub open spec fn framed(body: Seq<char>) -> Seq<char> {
    body.push(RECORD_SEPARATOR)
}

/// The bodies written one after another, each followed by a separator.
pub open spec fn joined(bodies: Seq<Seq<char>>) -> Seq<char>
    decreases bodies.len(),
{
    if bodies.len() == 0 {
        Seq::empty()
    } else {
        joined(bodies.drop_last()) + framed(bodies.last())
    }
}

pub open spec fn string_views(v: Seq<String>) -> Seq<Seq<char>> {
    v.map_values(|s: String| s@)
}

proof fn lemma_scan_no_separator(p: Seq<char>, s: Seq<char>)
    requires
        has_no_separator(s),
    ensures
        scan(p + s) == (scan(p).0, scan(p).1 + s),
    decreases s.len(),
{
    if s.len() == 0 {
        assert(p + s =~= p);
        assert(scan(p).1 + s =~= scan(p).1);
    } else {
        let s0 = s.drop_last();
        lemma_scan_no_separator(p, s0);
        assert((p + s).drop_last() =~= p + s0);
        assert((p + s).last() == s.last());
        assert((scan(p).1 + s0).push(s.last()) =~= scan(p).1 + s);
    }
}

proof fn lemma_scan_separator(p: Seq<char>)
    ensures
        scan(framed(p)) == (push_nonempty(scan(p).0, scan(p).1), Seq::<char>::empty()),
{
    assert(framed(p).drop_last() =~= p);
}

proof fn lemma_scan_joined(bodies: Seq<Seq<char>>)
    requires
        forall|k: int| 0 <= k < bodies.len() ==> bodies[k].len() > 0 && has_no_separator(#[trigger] bodies[k]),
    ensures
        scan(joined(bodies)) == (bodies, Seq::<char>::empty()),
    decreases bodies.len(),
{
    if bodies.len() == 0 {
        assert(scan(joined(bodies)).0 =~= bodies);
    } else {
        let prev = bodies.drop_last();
        let b = bodies.last();
        lemma_scan_joined(prev);
        let j = joined(prev);
        lemma_scan_no_separator(j, b);
        assert(scan(j).1 + b =~= b);
        assert(joined(bodies) =~= framed(j + b));
        lemma_scan_separator(j + b);
        assert(prev.push(b) =~= bodies);
    }
}

/// Writing any sequence of non-empty, separator-free bodies as frames and
/// splitting the result gives back exactly those bodies, in order, with no
/// extra frame after the final separator.
pub proof fn lemma_frames_of_joined(bodies: Seq<Seq<char>>)
    requires
        forall|k: int| 0 <= k < bodies.len() ==> bodies[k].len() > 0 && has_no_separator(#[trigger] bodies[k]),
    ensures
        frames(joined(bodies)) == bodies,
{
    lemma_scan_joined(bodies);
}

/// Two frames joined by a separator split into exactly those two frames, in
/// order, with or without a separator after the second.
pub proof fn lemma_two_frames(a: Seq<char>, b: Seq<char>)
    requires
        a.len() > 0,
        b.len() > 0,
        has_no_separator(a),
        has_no_separator(b),
    ensures
        frames(framed(a) + b) == seq![a, b],
        frames(framed(a) + framed(b)) == seq![a, b],
{
    let bodies = seq![a, b];
    assert(joined(seq![a]) =~= framed(a)) by {
        assert(seq![a].drop_last() =~= Seq::<Seq<char>>::empty());
        assert(joined(Seq::<Seq<char>>::empty()) == Seq::<char>::empty());
        assert(Seq::<char>::empty() + framed(a) =~= framed(a));
    }
    assert(bodies.drop_last() =~= seq![a]);
    lemma_frames_of_joined(bodies);
    assert(joined(bodies) =~= framed(a) + framed(b));
    lemma_frames_of_joined(seq![a]);
    lemma_scan_no_separator(framed(a), b);
    assert(scan(framed(a)).1 + b =~= b);
}

/// A single frame splits back into its body.
pub proof fn lemma_single_frame(body: Seq<char>)
    requires
        body.len() > 0,
        has_no_separator(body),
    ensures
        frames(framed(body)) == seq![body],
{
    assert(joined(seq![body]) =~= framed(body)) by {
        assert(seq![body].drop_last() =~= Seq::<Seq<char>>::empty());
        assert(joined(Seq::<Seq<char>>::empty()) == Seq::<char>::empty());
        assert(Seq::<char>::empty() + framed(body) =~= framed(body));
    }
    lemma_frames_of_joined(seq![body]);
}

/// Appends the record separator to a frame body.
pub fn encode_frame(body: &str) -> (r: String)
    ensures
        r@ == framed(body@),
{
    let out = String::from_str(body);
    let out = out.concat("\u{1e}");
    proof {
        reveal_strlit("\u{1e}");
        assert(out@ =~= framed(body@));
    }
    out
}

/// Splits a received buffer into its frame bodies: on each separator, with
/// the empty segments (such as the one after a final separator) left out.
pub fn split_frames(buffer: &str) -> (r: Vec<String>)
    ensures
        string_views(r@) == frames(buffer@),
{
    let n = buffer.unicode_len();
    let mut out: Vec<String> = Vec::new();
    let mut start: usize = 0;
    let mut i: usize = 0;
    while i < n
        invariant
            n == buffer@.len(),
            start <= i <= n,
            scan(buffer@.subrange(0, i as int)) == (string_views(out@), buffer@.subrange(start as int, i as int)),
        decreases n - i,
    {
        let c = buffer.get_char(i);
        proof {
            assert(buffer@.subrange(0, i + 1).drop_last() =~= buffer@.subrange(0, i as int));
        }
        if c == RECORD_SEPARATOR {
            if start < i {
                let seg = String::from_str(buffer.substring_char(start, i));
                let ghost old_out = out@;
                out.push(seg);
                proof {
                    assert(string_views(out@) =~= string_views(old_out).push(seg@));
                }
            }
            start = i + 1;
            proof {
                assert(buffer@.subrange(start as int, i + 1) =~= Seq::<char>::empty());
            }
        } else {
            proof {
                assert(buffer@.subrange(start as int, i + 1) =~= buffer@.subrange(start as int, i as int).push(c));
            }
        }
        i = i + 1;
    }
    proof {
        assert(buffer@.subrange(0, n as int) =~= buffer@);
    }
    if start < n {
        let seg = String::from_str(buffer.substring_char(start, n));
        let ghost old_out = out@;
        out.push(seg);
        proof {
            assert(string_views(out@) =~= string_views(old_out).push(seg@));
        }
    }
    out
}

} // verus!
