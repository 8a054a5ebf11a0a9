//! The SSH wire codec: big-endian u32, boolean, `string`, `mpint` and
//! name-list fields, as laid down in RFC 4253 section 5.
//!
//! Encoders append to a byte vector; decoders read from a byte slice at a
//! position and return the decoded value with the position after it. The
//! spec-level encoders (`enc_*`) and decoders (`dec_*`) state what the bytes
//! are, and the round-trip lemmas prove that decoding an encoding yields the
//! value that was encoded.

use vstd::prelude::*;
use vstd::string::StringSliceAdditionalSpecFns;

verus! {

/// The byte that separates the names of a name-list.
pub const COMMA: u8 = 44;

// ---------------------------------------------------------------------------
// Spec-level encoders
// ---------------------------------------------------------------------------

/// The four big-endian bytes of a u32.
pub open spec fn be32(v: u32) -> Seq<u8> {
    seq![
        (v / 0x1000000) as u8,
        ((v / 0x10000) % 0x100) as u8,
        ((v / 0x100) % 0x100) as u8,
        (v % 0x100) as u8,
    ]
}

/// The u32 denoted by four big-endian bytes.
pub open spec fn u32_from_be(b: Seq<u8>) -> u32
    recommends
        b.len() == 4,
{
    (b[0] as int * 0x1000000 + b[1] as int * 0x10000 + b[2] as int * 0x100 + b[3] as int) as u32
}

/// A boolean on the wire: one byte, 0 for false, 1 for true.
pub open spec fn enc_bool(b: bool) -> Seq<u8> {
    seq![if b { 1u8 } else { 0u8 }]
}

/// A `string`: a u32 length followed by that many bytes.
pub open spec fn enc_string(b: Seq<u8>) -> Seq<u8>
    recommends
        b.len() <= 0xFFFFFFFF,
{
    be32(b.len() as u32) + b
}

/// A magnitude with its leading zero bytes removed.
pub open spec fn strip_zeros(b: Seq<u8>) -> Seq<u8>
    decreases b.len(),
{
    if b.len() == 0 {
        b
    } else if b[0] == 0 {
        strip_zeros(b.drop_first())
    } else {
        b
    }
}

/// Whether a magnitude is canonical: empty, or without a leading zero byte.
pub open spec fn canonical_mag(b: Seq<u8>) -> bool {
    b.len() == 0 || b[0] != 0
}

/// The `string` payload of a non-negative `mpint` with canonical magnitude
/// `mag`: empty for zero, and with a leading 0x00 byte iff the high bit of
/// the first magnitude byte is set (two's-complement rule).
pub open spec fn mpint_payload(mag: Seq<u8>) -> Seq<u8>
    recommends
        canonical_mag(mag),
{
    if mag.len() == 0 {
        mag
    } else if mag[0] >= 0x80 {
        seq![0u8] + mag
    } else {
        mag
    }
}

/// A non-negative `mpint` on the wire.
pub open spec fn enc_mpint(mag: Seq<u8>) -> Seq<u8>
    recommends
        canonical_mag(mag),
        mag.len() + 1 <= 0xFFFFFFFF,
{
    enc_string(mpint_payload(mag))
}

/// The names of a name-list joined with commas.
pub open spec fn join_names(names: Seq<Seq<u8>>) -> Seq<u8>
    decreases names.len(),
{
    if names.len() == 0 {
        Seq::empty()
    } else if names.len() == 1 {
        names[0]
    } else {
        names[0] + seq![COMMA] + join_names(names.drop_first())
    }
}

/// A name-list on the wire: a `string` whose contents are the names joined
/// with commas.
pub open spec fn enc_name_list(names: Seq<Seq<u8>>) -> Seq<u8> {
    enc_string(join_names(names))
}

/// A valid name: non-empty and free of commas.
pub open spec fn valid_name(name: Seq<u8>) -> bool {
    name.len() > 0 && forall|i: int| 0 <= i < name.len() ==> name[i] != COMMA
}

/// A valid name-list: every name valid.
pub open spec fn valid_names(names: Seq<Seq<u8>>) -> bool {
    forall|i: int| 0 <= i < names.len() ==> valid_name(#[trigger] names[i])
}

// ---------------------------------------------------------------------------
// Spec-level decoders
// ---------------------------------------------------------------------------

/// Decode a u32 at `pos`.
pub open spec fn dec_uint32(data: Seq<u8>, pos: int) -> Option<(u32, int)> {
    if 0 <= pos && pos + 4 <= data.len() {
        Some((u32_from_be(data.subrange(pos, pos + 4)), pos + 4))
    } else {
        None
    }
}

/// Decode a boolean at `pos`: any non-zero byte reads as true.
pub open spec fn dec_bool(data: Seq<u8>, pos: int) -> Option<(bool, int)> {
    if 0 <= pos && pos + 1 <= data.len() {
        Some((data[pos] != 0, pos + 1))
    } else {
        None
    }
}

/// Decode a `string` at `pos`.
pub open spec fn dec_string(data: Seq<u8>, pos: int) -> Option<(Seq<u8>, int)> {
    match dec_uint32(data, pos) {
        Some((len, p)) => if p + len <= data.len() {
            Some((data.subrange(p, p + len), p + len))
        } else {
            None
        },
        None => None,
    }
}

/// The magnitude denoted by a non-negative `mpint` payload, or None if the
/// payload denotes a negative number.
pub open spec fn mag_of_payload(payload: Seq<u8>) -> Option<Seq<u8>> {
    if payload.len() == 0 {
        Some(payload)
    } else if payload[0] >= 0x80 {
        None
    } else {
        Some(strip_zeros(payload))
    }
}

/// Decode a non-negative `mpint` at `pos`, as its canonical magnitude.
pub open spec fn dec_mpint(data: Seq<u8>, pos: int) -> Option<(Seq<u8>, int)> {
    match dec_string(data, pos) {
        Some((payload, p)) => match mag_of_payload(payload) {
            Some(mag) => Some((mag, p)),
            None => None,
        },
        None => None,
    }
}

/// The position of the first comma of `b`, or `b.len()` if there is none.
pub open spec fn first_comma(b: Seq<u8>) -> int
    decreases b.len(),
{
    if b.len() == 0 {
        0
    } else if b[0] == COMMA {
        0
    } else {
        1 + first_comma(b.drop_first())
    }
}

/// The names of joined name-list contents. Empty contents are the empty
/// list; a trailing comma does not produce a trailing empty name.
pub open spec fn split_names(b: Seq<u8>) -> Seq<Seq<u8>>
    decreases b.len(),
{
    if b.len() == 0 {
        Seq::empty()
    } else {
        let i = first_comma(b);
        if 0 <= i && i < b.len() {
            seq![b.subrange(0, i)] + split_names(b.subrange(i + 1, b.len() as int))
        } else {
            seq![b]
        }
    }
}

/// Decode a name-list at `pos`.
pub open spec fn dec_name_list(data: Seq<u8>, pos: int) -> Option<(Seq<Seq<u8>>, int)> {
    match dec_string(data, pos) {
        Some((contents, p)) => Some((split_names(contents), p)),
        None => None,
    }
}

// ---------------------------------------------------------------------------
// Executable encoders
// ---------------------------------------------------------------------------

/// Append one byte.
pub fn write_byte(out: &mut Vec<u8>, v: u8)
    ensures
        final(out)@ == old(out)@ + seq![v],
{
    out.push(v);
}

/// Append the four big-endian bytes of a u32.
pub fn write_uint32(out: &mut Vec<u8>, v: u32)
    ensures
        final(out)@ == old(out)@ + be32(v),
{
    out.push((v / 0x1000000) as u8);
    out.push(((v / 0x10000) % 0x100) as u8);
    out.push(((v / 0x100) % 0x100) as u8);
    out.push((v % 0x100) as u8);
    assert(out@ =~= old(out)@ + be32(v));
}

/// Append a boolean, encoded as 1 or 0.
pub fn write_bool(out: &mut Vec<u8>, b: bool)
    ensures
        final(out)@ == old(out)@ + enc_bool(b),
{
    out.push(if b { 1u8 } else { 0u8 });
    assert(out@ =~= old(out)@ + enc_bool(b));
}

/// Append bytes without a length prefix.
pub fn write_raw_bytes(out: &mut Vec<u8>, data: &[u8])
    ensures
        final(out)@ == old(out)@ + data@,
{
    let mut i: usize = 0;
    while i < data.len()
        invariant
            i <= data.len(),
            out@ == old(out)@ + data@.subrange(0, i as int),
        decreases data.len() - i,
    {
        out.push(data[i]);
        assert(out@ =~= old(out)@ + data@.subrange(0, i + 1 as int));
        i = i + 1;
    }
    assert(data@.subrange(0, data@.len() as int) =~= data@);
}

/// Append a `string`: u32 length then the bytes. A length beyond the u32
/// range (never reached by this protocol) would be truncated in the prefix.
pub fn write_bytes(out: &mut Vec<u8>, data: &[u8])
    ensures
        final(out)@ == old(out)@ + enc_string(data@),
{
    write_uint32(out, #[verifier::truncate] (data.len() as u32));
    write_raw_bytes(out, data);
    assert(out@ =~= old(out)@ + enc_string(data@));
}

/// Append a `string` holding the bytes of an ASCII string slice.
pub fn write_string(out: &mut Vec<u8>, s: &str)
    ensures
        final(out)@ == old(out)@ + enc_string(s.spec_bytes()),
{
    write_bytes(out, s.as_bytes());
}

/// Append a non-negative `mpint` whose magnitude is `mag`, canonicalising
/// away leading zero bytes.
pub fn write_mpint(out: &mut Vec<u8>, mag: &[u8])
    requires
        mag@.len() + 1 <= 0xFFFFFFFF,
    ensures
        final(out)@ == old(out)@ + enc_mpint(strip_zeros(mag@)),
{
    let mut start: usize = 0;
    assert(mag@.subrange(0, mag@.len() as int) =~= mag@);
    while start < mag.len() && mag[start] == 0
        invariant
            start <= mag@.len(),
            strip_zeros(mag@) == strip_zeros(mag@.subrange(start as int, mag@.len() as int)),
            forall|j: int| 0 <= j < start ==> mag@[j] == 0,
        decreases mag.len() - start,
    {
        proof {
            assert(mag@.subrange(start as int, mag@.len() as int).drop_first() =~= mag@.subrange(
                start + 1,
                mag@.len() as int,
            ));
        }
        start = start + 1;
    }
    let ghost stripped = strip_zeros(mag@);
    proof {
        let tail = mag@.subrange(start as int, mag@.len() as int);
        if start < mag@.len() {
            assert(tail[0] != 0);
        }
        assert(stripped == tail);
    }
    let len: usize = mag.len() - start;
    if len == 0 {
        write_uint32(out, 0);
        assert(out@ =~= old(out)@ + enc_mpint(stripped));
    } else if mag[start] >= 0x80 {
        write_uint32(out, (len + 1) as u32);
        write_byte(out, 0);
        let mut i: usize = start;
        while i < mag.len()
            invariant
                start <= i <= mag@.len(),
                out@ == old(out)@ + be32((mag@.len() - start + 1) as u32) + seq![0u8]
                    + mag@.subrange(start as int, i as int),
            decreases mag.len() - i,
        {
            out.push(mag[i]);
            assert(out@ =~= old(out)@ + be32((mag@.len() - start + 1) as u32) + seq![0u8]
                + mag@.subrange(start as int, i + 1 as int));
            i = i + 1;
        }
        assert(out@ =~= old(out)@ + enc_mpint(stripped));
    } else {
        write_uint32(out, len as u32);
        let mut i: usize = start;
        while i < mag.len()
            invariant
                start <= i <= mag@.len(),
                out@ == old(out)@ + be32((mag@.len() - start) as u32) + mag@.subrange(
                    start as int,
                    i as int,
                ),
            decreases mag.len() - i,
        {
            out.push(mag[i]);
            assert(out@ =~= old(out)@ + be32((mag@.len() - start) as u32) + mag@.subrange(
                start as int,
                i + 1 as int,
            ));
            i = i + 1;
        }
        assert(out@ =~= old(out)@ + enc_mpint(stripped));
    }
}

// ---------------------------------------------------------------------------
// Executable decoders
// ---------------------------------------------------------------------------

/// Read a u32 at `pos`.
pub fn read_uint32(data: &[u8], pos: usize) -> (r: Option<(u32, usize)>)
    ensures
        match r {
            Some(p) => dec_uint32(data@, pos as int) == Some((p.0, p.1 as int)),
            None => dec_uint32(data@, pos as int) is None,
        },
{
    if pos < data.len() && data.len() - pos >= 4 {
        let v: u32 = (data[pos] as u32) * 0x1000000 + (data[pos + 1] as u32) * 0x10000 + (data[pos
            + 2] as u32) * 0x100 + (data[pos + 3] as u32);
        proof {
            let b = data@.subrange(pos as int, pos + 4);
            assert(b[0] == data@[pos as int] && b[1] == data@[pos + 1] && b[2] == data@[pos + 2]
                && b[3] == data@[pos + 3]);
        }
        Some((v, pos + 4))
    } else {
        None
    }
}

/// Read a boolean at `pos`.
pub fn read_bool(data: &[u8], pos: usize) -> (r: Option<(bool, usize)>)
    ensures
        match r {
            Some(p) => dec_bool(data@, pos as int) == Some((p.0, p.1 as int)),
            None => dec_bool(data@, pos as int) is None,
        },
{
    if pos < data.len() {
        Some((data[pos] != 0, pos + 1))
    } else {
        None
    }
}

/// Read `n` raw bytes at `pos`.
pub fn read_raw_bytes(data: &[u8], pos: usize, n: usize) -> (r: Option<(Vec<u8>, usize)>)
    ensures
        match r {
            Some(p) => pos + n <= data@.len() && p.0@ == data@.subrange(pos as int, pos + n)
                && p.1 == pos + n,
            None => pos + n > data@.len(),
        },
{
    if pos <= data.len() && data.len() - pos >= n {
        let end: usize = pos + n;
        let mut v: Vec<u8> = Vec::new();
        let mut i: usize = pos;
        while i < end
            invariant
                pos <= i <= end,
                end == pos + n,
                end <= data@.len(),
                v@ == data@.subrange(pos as int, i as int),
            decreases end - i,
        {
            v.push(data[i]);
            assert(v@ =~= data@.subrange(pos as int, i + 1 as int));
            i = i + 1;
        }
        Some((v, pos + n))
    } else {
        None
    }
}

/// Read a `string` at `pos`.
pub fn read_string(data: &[u8], pos: usize) -> (r: Option<(Vec<u8>, usize)>)
    ensures
        match r {
            Some(p) => dec_string(data@, pos as int) == Some((p.0@, p.1 as int)),
            None => dec_string(data@, pos as int) is None,
        },
{
    match read_uint32(data, pos) {
        Some((len, p)) => {
            if len as usize <= data.len() && p <= data.len() - (len as usize) {
                read_raw_bytes(data, p, len as usize)
            } else {
                None
            }
        },
        None => None,
    }
}

/// Read a non-negative `mpint` at `pos`, as its canonical magnitude.
pub fn read_mpint(data: &[u8], pos: usize) -> (r: Option<(Vec<u8>, usize)>)
    ensures
        match r {
            Some(p) => dec_mpint(data@, pos as int) == Some((p.0@, p.1 as int)),
            None => dec_mpint(data@, pos as int) is None,
        },
{
    match read_string(data, pos) {
        Some((payload, p)) => {
            if payload.len() == 0 {
                Some((payload, p))
            } else if payload[0] >= 0x80 {
                None
            } else {
                let mut start: usize = 0;
                assert(payload@.subrange(0, payload@.len() as int) =~= payload@);
                while start < payload.len() && payload[start] == 0
                    invariant
                        start <= payload@.len(),
                        strip_zeros(payload@) == strip_zeros(
                            payload@.subrange(start as int, payload@.len() as int),
                        ),
                    decreases payload.len() - start,
                {
                    proof {
                        assert(payload@.subrange(start as int, payload@.len() as int).drop_first()
                            =~= payload@.subrange(start + 1, payload@.len() as int));
                    }
                    start = start + 1;
                }
                proof {
                    let tail = payload@.subrange(start as int, payload@.len() as int);
                    if start < payload@.len() {
                        assert(tail[0] != 0);
                    }
                }
                match read_raw_bytes(payload.as_slice(), start, payload.len() - start) {
                    Some((mag, _)) => Some((mag, p)),
                    None => None,
                }
            }
        },
        None => None,
    }
}

/// Compare two byte slices for equality.
pub fn eq_bytes(a: &[u8], b: &[u8]) -> (r: bool)
    ensures
        r == (a@ == b@),
{
    if a.len() != b.len() {
        return false;
    }
    let mut i: usize = 0;
    while i < a.len()
        invariant
            i <= a@.len(),
            a@.len() == b@.len(),
            forall|j: int| 0 <= j < i ==> a@[j] == b@[j],
        decreases a.len() - i,
    {
        if a[i] != b[i] {
            return false;
        }
        i = i + 1;
    }
    proof {
        assert(a@ =~= b@);
    }
    true
}

/// Append a name-list: a `string` whose contents are the names joined with
/// commas.
pub fn write_name_list(out: &mut Vec<u8>, names: &Vec<Vec<u8>>)
    ensures
        final(out)@ == old(out)@ + enc_name_list(names.deep_view()),
{
    let ghost dv = names.deep_view();
    let mut joined: Vec<u8> = Vec::new();
    let mut i: usize = 0;
    assert(dv.take(0) =~= Seq::empty());
    while i < names.len()
        invariant
            i <= names.len(),
            dv == names.deep_view(),
            joined@ == join_names(dv.take(i as int)),
        decreases names.len() - i,
    {
        if i > 0 {
            joined.push(COMMA);
        }
        let mut k: usize = 0;
        let name = &names[i];
        let ghost mid = joined@;
        while k < name.len()
            invariant
                k <= name@.len(),
                joined@ == mid + name@.subrange(0, k as int),
            decreases name.len() - k,
        {
            joined.push(name[k]);
            assert(joined@ =~= mid + name@.subrange(0, k + 1 as int));
            k = k + 1;
        }
        assert(name@.subrange(0, name@.len() as int) =~= name@);
        proof {
            assert(dv.take(i + 1) =~= dv.take(i as int).push(dv[i as int]));
            assert(dv[i as int] == name@);
            lemma_join_push(dv.take(i as int), dv[i as int]);
        }
        i = i + 1;
    }
    assert(dv.take(names@.len() as int) =~= dv);
    write_bytes(out, joined.as_slice());
}

/// Joining one more name appends a comma (when the list was non-empty) and
/// the name.
pub proof fn lemma_join_push(s: Seq<Seq<u8>>, x: Seq<u8>)
    ensures
        join_names(s.push(x)) == if s.len() == 0 {
            x
        } else {
            join_names(s) + seq![COMMA] + x
        },
    decreases s.len(),
{
    let p = s.push(x);
    if s.len() == 0 {
        assert(p.len() == 1);
        assert(join_names(p) == p[0]);
        assert(p[0] == x);
    } else {
        assert(p.len() >= 2);
        assert(p[0] == s[0]);
        assert(p.drop_first() =~= s.drop_first().push(x));
        lemma_join_push(s.drop_first(), x);
        if s.len() == 1 {
            assert(join_names(s) == s[0]);
            assert(join_names(p.drop_first()) == x);
        } else {
            assert(join_names(p) == p[0] + seq![COMMA] + join_names(p.drop_first()));
        }
    }
}

/// A comma at `i` with none before it is the first comma.
proof fn lemma_first_comma_at(s: Seq<u8>, i: int)
    requires
        0 <= i <= s.len(),
        forall|k: int| 0 <= k < i ==> s[k] != COMMA,
        i < s.len() ==> s[i] == COMMA,
    ensures
        first_comma(s) == i,
    decreases i,
{
    if s.len() == 0 {
    } else if i == 0 {
    } else {
        assert(s[0] != COMMA);
        lemma_first_comma_at(s.drop_first(), i - 1);
    }
}

/// Read a name-list at `pos`: a `string` split on commas.
pub fn read_name_list(data: &[u8], pos: usize) -> (r: Option<(Vec<Vec<u8>>, usize)>)
    ensures
        match r {
            Some(p) => dec_name_list(data@, pos as int) == Some((p.0.deep_view(), p.1 as int)),
            None => dec_name_list(data@, pos as int) is None,
        },
{
    let (contents, end) = match read_string(data, pos) {
        Some(v) => v,
        None => { return None },
    };
    let whole = contents.as_slice();
    let mut names: Vec<Vec<u8>> = Vec::new();
    let ghost mut done: Seq<Seq<u8>> = Seq::empty();
    let mut p: usize = 0;
    assert(whole@.subrange(0, whole@.len() as int) =~= whole@);
    while p < whole.len()
        invariant
            p <= whole@.len(),
            whole@ == contents@,
            done.len() == names@.len(),
            forall|k: int| 0 <= k < done.len() ==> done[k] == names@[k]@,
            split_names(whole@) == done + split_names(
                whole@.subrange(p as int, whole@.len() as int),
            ),
        decreases whole@.len() - p,
    {
        let ghost tail = whole@.subrange(p as int, whole@.len() as int);
        let mut j: usize = p;
        while j < whole.len() && whole[j] != COMMA
            invariant
                p <= j <= whole@.len(),
                forall|k: int| p <= k < j ==> whole@[k] != COMMA,
            decreases whole@.len() - j,
        {
            j = j + 1;
        }
        proof {
            assert(forall|k: int| 0 <= k < j - p ==> tail[k] != COMMA);
            lemma_first_comma_at(tail, j - p);
        }
        let seg = match read_raw_bytes(whole, p, j - p) {
            Some((v, _)) => v,
            None => Vec::new(),
        };
        proof {
            assert(seg@ =~= tail.subrange(0, j - p));
        }
        names.push(seg);
        proof {
            done = done.push(seg@);
        }
        if j < whole.len() {
            proof {
                assert(tail.subrange(0, j - p) =~= whole@.subrange(p as int, j as int));
                assert(split_names(tail) == seq![tail.subrange(0, j - p)] + split_names(
                    tail.subrange(j - p + 1, tail.len() as int),
                ));
                assert(tail.subrange(j - p + 1, tail.len() as int) =~= whole@.subrange(
                    j + 1,
                    whole@.len() as int,
                ));
                assert(split_names(whole@) =~= done + split_names(
                    whole@.subrange(j + 1, whole@.len() as int),
                ));
            }
            p = j + 1;
        } else {
            proof {
                assert(tail.subrange(0, j - p) =~= tail);
                assert(split_names(tail) == seq![tail]);
                assert(whole@.subrange(whole@.len() as int, whole@.len() as int) =~= Seq::<
                    u8,
                >::empty());
                assert(split_names(whole@) =~= done + split_names(
                    whole@.subrange(whole@.len() as int, whole@.len() as int),
                ));
            }
            p = whole.len();
        }
    }
    proof {
        assert(whole@.subrange(p as int, whole@.len() as int) =~= Seq::<u8>::empty());
        assert(split_names(whole@) =~= done);
        assert(names.deep_view() =~= done) by {
            assert(forall|k: int|
                0 <= k < names@.len() ==> names.deep_view()[k] == (#[trigger] names@[k]).deep_view()
                    && names@[k].deep_view() =~= names@[k]@);
        }
    }
    Some((names, end))
}

// ---------------------------------------------------------------------------
// Round-trip laws
// ---------------------------------------------------------------------------

/// The u32 denoted by the big-endian bytes of `v` is `v` again.
pub proof fn lemma_u32_from_be32(v: u32)
    ensures
        u32_from_be(be32(v)) == v,
{
    let q1 = v as int / 0x100;
    let q2 = v as int / 0x10000;
    let q3 = v as int / 0x1000000;
    vstd::arithmetic::div_mod::lemma_fundamental_div_mod(v as int, 0x100);
    vstd::arithmetic::div_mod::lemma_fundamental_div_mod(q1, 0x100);
    vstd::arithmetic::div_mod::lemma_fundamental_div_mod(q2, 0x100);
    vstd::arithmetic::div_mod::lemma_div_denominator(v as int, 0x100, 0x100);
    vstd::arithmetic::div_mod::lemma_div_denominator(v as int, 0x10000, 0x100);
    vstd::arithmetic::div_mod::lemma_div_is_ordered(v as int, 0xFFFFFFFF, 0x1000000);
    vstd::arithmetic::div_mod::lemma_mod_pos_bound(q1, 0x100);
    vstd::arithmetic::div_mod::lemma_mod_pos_bound(q2, 0x100);
    vstd::arithmetic::div_mod::lemma_mod_pos_bound(v as int, 0x100);
}

/// Decoding a u32 from the encoding of `v` yields `v`.
pub proof fn lemma_uint32_round_trip(v: u32, rest: Seq<u8>)
    ensures
        dec_uint32(be32(v) + rest, 0) == Some((v, 4int)),
{
    lemma_u32_from_be32(v);
    assert((be32(v) + rest).subrange(0, 4) =~= be32(v));
}

/// Decoding a boolean from the encoding of `b` yields `b`.
pub proof fn lemma_bool_round_trip(b: bool, rest: Seq<u8>)
    ensures
        dec_bool(enc_bool(b) + rest, 0) == Some((b, 1int)),
{
}

/// Decoding a `string` from the encoding of `s` yields `s`.
pub proof fn lemma_string_round_trip(s: Seq<u8>, rest: Seq<u8>)
    requires
        s.len() <= 0xFFFFFFFF,
    ensures
        dec_string(enc_string(s) + rest, 0) == Some((s, 4 + s.len() as int)),
{
    let data = enc_string(s) + rest;
    lemma_u32_from_be32(s.len() as u32);
    assert(data.subrange(0, 4) =~= be32(s.len() as u32));
    assert(data.subrange(4, 4 + s.len() as int) =~= s);
}

/// Three `string`s in a row decode back to their bytes, one after the
/// other.
#[verifier::rlimit(100)]
pub proof fn lemma_three_strings(a: Seq<u8>, b: Seq<u8>, c: Seq<u8>)
    requires
        a.len() <= 0xFFFF,
        b.len() <= 0xFFFF,
        c.len() <= 0xFFFF,
    ensures
        ({
            let data = enc_string(a) + enc_string(b) + enc_string(c);
            let p1 = 4 + a.len() as int;
            let p2 = p1 + 4 + b.len() as int;
            &&& dec_string(data, 0) == Some((a, p1))
            &&& dec_string(data, p1) == Some((b, p2))
            &&& dec_string(data, p2) == Some((c, p2 + 4 + c.len() as int))
        }),
{
    let data = enc_string(a) + enc_string(b) + enc_string(c);
    let p1 = 4 + a.len() as int;
    let p2 = p1 + 4 + b.len() as int;
    lemma_u32_from_be32(a.len() as u32);
    lemma_u32_from_be32(b.len() as u32);
    lemma_u32_from_be32(c.len() as u32);
    assert(data.subrange(0, 4) =~= be32(a.len() as u32));
    assert(data.subrange(4, p1) =~= a);
    assert(data.subrange(p1, p1 + 4) =~= be32(b.len() as u32));
    assert(data.subrange(p1 + 4, p2) =~= b);
    assert(data.subrange(p2, p2 + 4) =~= be32(c.len() as u32));
    assert(data.subrange(p2 + 4, p2 + 4 + c.len() as int) =~= c);
}

/// Stripping leading zeros from a canonical magnitude changes nothing.
pub proof fn lemma_strip_canonical(mag: Seq<u8>)
    requires
        canonical_mag(mag),
    ensures
        strip_zeros(mag) == mag,
{
}

/// Decoding a non-negative `mpint` from the encoding of a canonical
/// magnitude yields that magnitude.
#[verifier::rlimit(50)]
pub proof fn lemma_mpint_round_trip(mag: Seq<u8>, rest: Seq<u8>)
    requires
        canonical_mag(mag),
        mag.len() + 1 <= 0xFFFFFFFF,
    ensures
        dec_mpint(enc_mpint(mag) + rest, 0) == Some(
            (mag, 4 + mpint_payload(mag).len() as int),
        ),
{
    let payload = mpint_payload(mag);
    lemma_string_round_trip(payload, rest);
    if mag.len() == 0 {
    } else if mag[0] >= 0x80 {
        assert((seq![0u8] + mag).drop_first() =~= mag);
        lemma_strip_canonical(mag);
    } else {
        lemma_strip_canonical(mag);
    }
}

/// A sequence without commas has its first comma at its end.
proof fn lemma_first_comma_none(a: Seq<u8>)
    requires
        forall|i: int| 0 <= i < a.len() ==> a[i] != COMMA,
    ensures
        first_comma(a) == a.len(),
    decreases a.len(),
{
    if a.len() > 0 {
        lemma_first_comma_none(a.drop_first());
    }
}

/// A comma-free prefix followed by a comma puts the first comma at the
/// prefix's end.
proof fn lemma_first_comma_prefix(a: Seq<u8>, rest: Seq<u8>)
    requires
        forall|i: int| 0 <= i < a.len() ==> a[i] != COMMA,
    ensures
        first_comma(a + seq![COMMA] + rest) == a.len(),
    decreases a.len(),
{
    let b = a + seq![COMMA] + rest;
    if a.len() == 0 {
        assert(b[0] == COMMA);
    } else {
        assert(b[0] == a[0]);
        assert(b.drop_first() =~= a.drop_first() + seq![COMMA] + rest);
        lemma_first_comma_prefix(a.drop_first(), rest);
    }
}

/// Splitting the joined names of a valid name-list yields the names again.
pub proof fn lemma_split_join(names: Seq<Seq<u8>>)
    requires
        valid_names(names),
    ensures
        split_names(join_names(names)) == names,
    decreases names.len(),
{
    if names.len() == 0 {
        assert(split_names(join_names(names)) =~= names);
    } else if names.len() == 1 {
        let b = join_names(names);
        assert(b == names[0]);
        assert(valid_name(names[0]));
        lemma_first_comma_none(b);
        assert(split_names(b) =~= names);
    } else {
        let b = join_names(names);
        let tail = names.drop_first();
        let jt = join_names(tail);
        assert(valid_name(names[0]));
        assert(b == names[0] + seq![COMMA] + jt);
        lemma_first_comma_prefix(names[0], jt);
        let i = first_comma(b);
        assert(i == names[0].len());
        assert(0 <= i && i < b.len());
        assert(b.subrange(0, i) =~= names[0]);
        assert(b.subrange(i + 1, b.len() as int) =~= jt);
        assert(valid_names(tail)) by {
            assert(forall|k: int|
                0 <= k < tail.len() ==> tail[k] == names[k + 1] && valid_name(
                    #[trigger] names[k + 1],
                ));
        }
        lemma_split_join(tail);
        assert(split_names(b) =~= names);
    }
}

/// Decoding a name-list from the encoding of a valid name-list yields the
/// names again.
pub proof fn lemma_name_list_round_trip(names: Seq<Seq<u8>>, rest: Seq<u8>)
    requires
        valid_names(names),
        join_names(names).len() <= 0xFFFFFFFF,
    ensures
        dec_name_list(enc_name_list(names) + rest, 0) == Some(
            (names, 4 + join_names(names).len() as int),
        ),
{
    lemma_string_round_trip(join_names(names), rest);
    lemma_split_join(names);
}

} // verus!
