//! The version exchange (RFC 4253 section 4.2): the server's banner, and
//! the reading of the client's, skipping lines that do not begin with
//! `SSH-`.

use vstd::prelude::*;
use vstd::string::StringSliceAdditionalSpecFns;

use crate::codec;

verus! {

/// The line feed byte that ends a banner line.
pub const LINE_FEED: u8 = 10;

/// The carriage return byte before it.
pub const CARRIAGE_RETURN: u8 = 13;

/// The server's identification banner, without CR-LF.
pub open spec fn spec_banner() -> Seq<u8> {
    "SSH-2.0-ssh_0.1.0".spec_bytes()
}

/// The banner of this server, without CR-LF; this is what the exchange
/// hash sees.
pub fn banner() -> (r: Vec<u8>)
    ensures
        r@ == spec_banner(),
{
    let b = "SSH-2.0-ssh_0.1.0".as_bytes();
    let mut out: Vec<u8> = Vec::new();
    codec::write_raw_bytes(&mut out, b);
    assert(out@ =~= spec_banner());
    out
}

/// The bytes the server sends first: exactly the banner followed by CR-LF.
pub fn send_identification() -> (r: Vec<u8>)
    ensures
        r@ == spec_banner() + seq![CARRIAGE_RETURN, LINE_FEED],
{
    let mut out = banner();
    out.push(CARRIAGE_RETURN);
    out.push(LINE_FEED);
    assert(out@ =~= spec_banner() + seq![CARRIAGE_RETURN, LINE_FEED]);
    out
}

/// The position of the first line feed of `b`, or `b.len()` if there is
/// none.
pub open spec fn first_lf(b: Seq<u8>) -> int
    decreases b.len(),
{
    if b.len() == 0 {
        0
    } else if b[0] == LINE_FEED {
        0
    } else {
        1 + first_lf(b.drop_first())
    }
}

/// A line with its trailing carriage return removed.
pub open spec fn trim_cr(line: Seq<u8>) -> Seq<u8> {
    if line.len() > 0 && line[line.len() - 1] == CARRIAGE_RETURN {
        line.drop_last()
    } else {
        line
    }
}

/// Whether a line begins with `SSH-`.
pub open spec fn is_id_line(line: Seq<u8>) -> bool {
    line.len() >= 4 && line.subrange(0, 4) == "SSH-".spec_bytes()
}

/// The client's identification: the first line beginning with `SSH-`,
/// stripped of its line ending; earlier lines are skipped, and a buffer
/// without such a line yields nothing.
pub open spec fn spec_read_identification(data: Seq<u8>) -> Option<Seq<u8>>
    decreases data.len(),
{
    if data.len() == 0 {
        None
    } else {
        let i = first_lf(data);
        if 0 <= i && i <= data.len() {
            let line = trim_cr(data.subrange(0, i));
            if is_id_line(line) {
                Some(line)
            } else if i < data.len() {
                spec_read_identification(data.subrange(i + 1, data.len() as int))
            } else {
                None
            }
        } else {
            None
        }
    }
}

/// A line feed at `i` with none before it is the first line feed.
proof fn lemma_first_lf_at(s: Seq<u8>, i: int)
    requires
        0 <= i <= s.len(),
        forall|k: int| 0 <= k < i ==> s[k] != LINE_FEED,
        i < s.len() ==> s[i] == LINE_FEED,
    ensures
        first_lf(s) == i,
    decreases i,
{
    if s.len() == 0 {
    } else if i == 0 {
    } else {
        assert(s[0] != LINE_FEED);
        lemma_first_lf_at(s.drop_first(), i - 1);
    }
}

/// Read the client's identification out of a received buffer: the first
/// line beginning with `SSH-`, without its line ending.
pub fn parse_identification(data: &[u8]) -> (r: Option<Vec<u8>>)
    ensures
        match r {
            Some(v) => spec_read_identification(data@) == Some(v@),
            None => spec_read_identification(data@) is None,
        },
{
    assert(data@.subrange(0, data@.len() as int) =~= data@);
    parse_identification_from(data, 0)
}

/// Read the identification out of the tail of `data` that starts at `pos`.
fn parse_identification_from(data: &[u8], pos: usize) -> (r: Option<Vec<u8>>)
    requires
        pos <= data@.len(),
    ensures
        match r {
            Some(v) => spec_read_identification(data@.subrange(pos as int, data@.len() as int))
                == Some(v@),
            None => spec_read_identification(data@.subrange(pos as int, data@.len() as int))
                is None,
        },
    decreases data@.len() - pos,
{
    let ghost tail = data@.subrange(pos as int, data@.len() as int);
    if pos == data.len() {
        return None;
    }
    let mut j: usize = pos;
    while j < data.len() && data[j] != LINE_FEED
        invariant
            pos <= j <= data@.len(),
            forall|k: int| pos <= k < j ==> data@[k] != LINE_FEED,
        decreases data@.len() - j,
    {
        j = j + 1;
    }
    proof {
        assert(forall|k: int| 0 <= k < j - pos ==> tail[k] != LINE_FEED);
        lemma_first_lf_at(tail, j - pos);
    }
    let mut end: usize = j;
    if end > pos && data[end - 1] == CARRIAGE_RETURN {
        end = end - 1;
    }
    let ghost line = trim_cr(tail.subrange(0, j - pos));
    proof {
        assert(tail.subrange(0, j - pos) =~= data@.subrange(pos as int, j as int));
        assert(line =~= data@.subrange(pos as int, end as int));
    }
    let is_id = if end - pos >= 4 {
        let prefix = vstd::slice::slice_subrange(data, pos, pos + 4);
        codec::eq_bytes(prefix, "SSH-".as_bytes())
    } else {
        false
    };
    proof {
        if end - pos >= 4 {
            assert(data@.subrange(pos as int, pos + 4) =~= line.subrange(0, 4));
        }
        assert(is_id == is_id_line(line));
    }
    if is_id {
        match codec::read_raw_bytes(data, pos, end - pos) {
            Some((v, _)) => Some(v),
            None => None,
        }
    } else if j < data.len() {
        let r = parse_identification_from(data, j + 1);
        proof {
            assert(data@.subrange(j + 1, data@.len() as int) =~= tail.subrange(
                j - pos + 1,
                tail.len() as int,
            ));
        }
        r
    } else {
        None
    }
}

} // verus!
