//! The on-wire tuple encoding for page requests and responses.
//!
//! Requests and responses travel as compact MessagePack values, always in
//! their canonical (shortest) form: a request is
//! `[timestamp: f64, path_hash: bin, nil | map<str, str>]`, a one-shot
//! response is `[timestamp: f64, request_hash: bin, content: bin | nil]`,
//! and a reassembled resource carries `[content_hash: bin, content: bin]`.
//! The float is handled as its raw bit pattern throughout.
use vstd::prelude::*;

verus! {

use vstd::string::StringSliceAdditionalSpecFns;
use vstd::utf8::encode_utf8;

/// The eight bytes of a 64-bit value, big-endian.
pub open spec fn be8_of(v: u64) -> Seq<u8> {
    seq![
        (v >> 56) as u8,
        (v >> 48) as u8,
        (v >> 40) as u8,
        (v >> 32) as u8,
        (v >> 24) as u8,
        (v >> 16) as u8,
        (v >> 8) as u8,
        v as u8,
    ]
}

/// The two bytes of a 16-bit length, big-endian.
pub open spec fn be2_of(v: int) -> Seq<u8> {
    seq![(v / 256) as u8, (v % 256) as u8]
}

/// The four bytes of a 32-bit length, big-endian.
pub open spec fn be4_of(v: int) -> Seq<u8> {
    seq![
        (v / 0x1000000 % 256) as u8,
        (v / 0x10000 % 256) as u8,
        (v / 0x100 % 256) as u8,
        (v % 256) as u8,
    ]
}

/// MessagePack `nil`.
pub open spec fn mp_nil() -> Seq<u8> {
    seq![0xc0u8]
}

/// MessagePack `float 64`: marker then the raw bits, big-endian.
pub open spec fn mp_f64(bits: u64) -> Seq<u8> {
    seq![0xcbu8] + be8_of(bits)
}

/// MessagePack binary in canonical form: the shortest of bin 8/16/32.
pub open spec fn mp_bin(data: Seq<u8>) -> Seq<u8> {
    if data.len() < 0x100 {
        seq![0xc4u8, data.len() as u8] + data
    } else if data.len() < 0x10000 {
        seq![0xc5u8] + be2_of(data.len() as int) + data
    } else {
        seq![0xc6u8] + be4_of(data.len() as int) + data
    }
}

/// MessagePack string in canonical form: the shortest of fixstr, str 8/16/32.
pub open spec fn mp_str(utf8: Seq<u8>) -> Seq<u8> {
    if utf8.len() < 32 {
        seq![(0xa0 + utf8.len()) as u8] + utf8
    } else if utf8.len() < 0x100 {
        seq![0xd9u8, utf8.len() as u8] + utf8
    } else if utf8.len() < 0x10000 {
        seq![0xdau8] + be2_of(utf8.len() as int) + utf8
    } else {
        seq![0xdbu8] + be4_of(utf8.len() as int) + utf8
    }
}

/// MessagePack array header in canonical form (sizes under 65536).
pub open spec fn mp_array_header(n: int) -> Seq<u8> {
    if n < 16 {
        seq![(0x90 + n) as u8]
    } else {
        seq![0xdcu8] + be2_of(n)
    }
}

/// MessagePack map header in canonical form (sizes under 65536).
pub open spec fn mp_map_header(n: int) -> Seq<u8> {
    if n < 16 {
        seq![(0x80 + n) as u8]
    } else {
        seq![0xdeu8] + be2_of(n)
    }
}

/// The form entries of a request, each a UTF-8 key and value.
pub open spec fn mp_map_entries(entries: Seq<(Seq<u8>, Seq<u8>)>) -> Seq<u8>
    decreases entries.len(),
{
    if entries.len() == 0 {
        Seq::empty()
    } else {
        mp_str(entries[0].0) + mp_str(entries[0].1) + mp_map_entries(entries.drop_first())
    }
}

/// A whole request: `[timestamp, path_hash, nil | form_map]`.
pub open spec fn request_encoding(
    ts_bits: u64,
    path_hash: Seq<u8>,
    form: Option<Seq<(Seq<u8>, Seq<u8>)>>,
) -> Seq<u8> {
    mp_array_header(3) + mp_f64(ts_bits) + mp_bin(path_hash) + match form {
        None => mp_nil(),
        Some(entries) => mp_map_header(entries.len() as int) + mp_map_entries(entries),
    }
}

/// A whole one-shot response: `[timestamp, request_hash, content | nil]`.
pub open spec fn response_encoding(ts_bits: u64, request_hash: Seq<u8>, content: Option<Seq<u8>>) -> Seq<u8> {
    mp_array_header(3) + mp_f64(ts_bits) + mp_bin(request_hash) + match content {
        None => mp_nil(),
        Some(c) => mp_bin(c),
    }
}

/// A reassembled resource payload: `[content_hash, content]`.
pub open spec fn resource_encoding(content_hash: Seq<u8>, content: Seq<u8>) -> Seq<u8> {
    mp_array_header(2) + mp_bin(content_hash) + mp_bin(content)
}

/// Append the eight big-endian bytes of a 64-bit value.
pub fn push_be8(out: &mut Vec<u8>, v: u64)
    ensures
        final(out)@ == old(out)@ + be8_of(v),
{
    out.push((v >> 56) as u8);
    out.push((v >> 48) as u8);
    out.push((v >> 40) as u8);
    out.push((v >> 32) as u8);
    out.push((v >> 24) as u8);
    out.push((v >> 16) as u8);
    out.push((v >> 8) as u8);
    out.push(v as u8);
    assert(final(out)@ =~= old(out)@ + be8_of(v));
}

/// Append a MessagePack `float 64` from its raw bits.
pub fn push_f64_bits(out: &mut Vec<u8>, bits: u64)
    ensures
        final(out)@ == old(out)@ + mp_f64(bits),
{
    out.push(0xcb);
    push_be8(out, bits);
    assert(final(out)@ =~= old(out)@ + mp_f64(bits));
}

/// Append a canonical MessagePack binary.
pub fn push_bin(out: &mut Vec<u8>, data: &[u8])
    requires
        data@.len() < 0x100000000,
    ensures
        final(out)@ == old(out)@ + mp_bin(data@),
{
    let n = data.len();
    if n < 0x100 {
        out.push(0xc4);
        out.push(n as u8);
    } else if n < 0x10000 {
        out.push(0xc5);
        out.push((n / 256) as u8);
        out.push((n % 256) as u8);
    } else {
        out.push(0xc6);
        out.push((n / 0x1000000 % 256) as u8);
        out.push((n / 0x10000 % 256) as u8);
        out.push((n / 0x100 % 256) as u8);
        out.push((n % 256) as u8);
    }
    out.extend_from_slice(data);
    assert(final(out)@ =~= old(out)@ + mp_bin(data@));
}

/// Append a canonical MessagePack string from UTF-8 text.
pub fn push_str(out: &mut Vec<u8>, s: &str)
    requires
        s.spec_bytes().len() < 0x100000000,
    ensures
        final(out)@ == old(out)@ + mp_str(s.spec_bytes()),
{
    let bytes = s.as_bytes();
    let n = bytes.len();
    if n < 32 {
        out.push(0xa0 + n as u8);
    } else if n < 0x100 {
        out.push(0xd9);
        out.push(n as u8);
    } else if n < 0x10000 {
        out.push(0xda);
        out.push((n / 256) as u8);
        out.push((n % 256) as u8);
    } else {
        out.push(0xdb);
        out.push((n / 0x1000000 % 256) as u8);
        out.push((n / 0x10000 % 256) as u8);
        out.push((n / 0x100 % 256) as u8);
        out.push((n % 256) as u8);
    }
    out.extend_from_slice(bytes);
    assert(final(out)@ =~= old(out)@ + mp_str(s.spec_bytes()));
}

/// The byte-level view of form entries: each key and value as UTF-8.
pub open spec fn form_view(form: Seq<(String, String)>) -> Seq<(Seq<u8>, Seq<u8>)> {
    form.map_values(|e: (String, String)| (encode_utf8(e.0@), encode_utf8(e.1@)))
}

/// Encode one page request. An empty form travels as `nil`, a non-empty one
/// as a map of its entries in order.
pub fn encode_page_request(ts_bits: u64, path_hash: &Vec<u8>, form: &Vec<(String, String)>) -> (r:
    Vec<u8>)
    requires
        path_hash@.len() < 0x100000000,
        form@.len() < 0x10000,
        forall|i: int|
            0 <= i < form@.len() ==> encode_utf8((#[trigger] form@[i]).0@).len() < 0x100000000
                && encode_utf8(form@[i].1@).len() < 0x100000000,
    ensures
        form@.len() == 0 ==> r@ == request_encoding(ts_bits, path_hash@, None),
        form@.len() > 0 ==> r@ == request_encoding(ts_bits, path_hash@, Some(form_view(form@))),
{
    let mut out: Vec<u8> = Vec::new();
    out.push(0x93);
    assert(out@ =~= mp_array_header(3));
    push_f64_bits(&mut out, ts_bits);
    push_bin(&mut out, path_hash.as_slice());
    let n = form.len();
    if n == 0 {
        out.push(0xc0);
        assert(out@ =~= request_encoding(ts_bits, path_hash@, None));
    } else {
        if n < 16 {
            out.push(0x80 + n as u8);
        } else {
            out.push(0xde);
            out.push((n / 256) as u8);
            out.push((n % 256) as u8);
        }
        assert(out@ =~= mp_array_header(3) + mp_f64(ts_bits) + mp_bin(path_hash@)
            + mp_map_header(n as int));
        let ghost prefix = out@;
        let mut i: usize = 0;
        while i < n
            invariant
                n == form@.len(),
                i <= n,
                forall|k: int|
                    0 <= k < form@.len() ==> encode_utf8((#[trigger] form@[k]).0@).len()
                        < 0x100000000 && encode_utf8(form@[k].1@).len() < 0x100000000,
                out@ == prefix + mp_map_entries(form_view(form@).take(i as int)),
            decreases n - i,
        {
            push_str(&mut out, form[i].0.as_str());
            push_str(&mut out, form[i].1.as_str());
            proof {
                lemma_map_entries_snoc(form_view(form@), i as int);
            }
            i = i + 1;
        }
        assert(form_view(form@).take(n as int) =~= form_view(form@));
        assert(out@ =~= request_encoding(ts_bits, path_hash@, Some(form_view(form@))));
    }
    out
}

/// Encoding the first `i + 1` map entries appends the strings of entry `i`
/// to the encoding of the first `i`.
proof fn lemma_map_entries_snoc(entries: Seq<(Seq<u8>, Seq<u8>)>, i: int)
    requires
        0 <= i < entries.len(),
    ensures
        mp_map_entries(entries.take(i + 1)) == mp_map_entries(entries.take(i)) + mp_str(
            entries[i].0,
        ) + mp_str(entries[i].1),
    decreases i,
{
    if i == 0 {
        assert(entries.take(1) =~= seq![entries[0]]);
        assert(entries.take(1).drop_first() =~= Seq::empty());
        assert(entries.take(0) =~= Seq::empty());
        assert(mp_map_entries(entries.take(1)) =~= mp_str(entries[0].0) + mp_str(entries[0].1));
    } else {
        lemma_map_entries_snoc(entries.drop_first(), i - 1);
        assert(entries.take(i + 1).drop_first() =~= entries.drop_first().take(i));
        assert(entries.take(i).drop_first() =~= entries.drop_first().take(i - 1));
        assert(entries.take(i + 1)[0] == entries[0]);
        assert(entries.take(i)[0] == entries[0]);
        assert(entries.drop_first()[i - 1] == entries[i]);
        assert(mp_map_entries(entries.take(i + 1)) == mp_str(entries[0].0) + mp_str(entries[0].1)
            + mp_map_entries(entries.drop_first().take(i)));
        assert(mp_map_entries(entries.take(i)) == mp_str(entries[0].0) + mp_str(entries[0].1)
            + mp_map_entries(entries.drop_first().take(i - 1)));
        assert(mp_map_entries(entries.take(i + 1)) =~= mp_map_entries(entries.take(i)) + mp_str(
            entries[i].0,
        ) + mp_str(entries[i].1));
    }
}

/// The 64-bit value read from eight big-endian bytes.
pub open spec fn be8_val(b: Seq<u8>) -> u64 {
    ((b[0] as u64) << 56) | ((b[1] as u64) << 48) | ((b[2] as u64) << 40) | ((b[3] as u64) << 32)
        | ((b[4] as u64) << 24) | ((b[5] as u64) << 16) | ((b[6] as u64) << 8) | (b[7] as u64)
}

/// Reading back the eight big-endian bytes of a value gives the value.
pub proof fn lemma_be8_round(v: u64)
    ensures
        be8_val(be8_of(v)) == v,
{
    let b0 = (v >> 56) as u8;
    let b1 = (v >> 48) as u8;
    let b2 = (v >> 40) as u8;
    let b3 = (v >> 32) as u8;
    let b4 = (v >> 24) as u8;
    let b5 = (v >> 16) as u8;
    let b6 = (v >> 8) as u8;
    let b7 = v as u8;
    assert((((v >> 56) as u8 as u64) << 56) | (((v >> 48) as u8 as u64) << 48) | (((v >> 40) as u8
        as u64) << 40) | (((v >> 32) as u8 as u64) << 32) | (((v >> 24) as u8 as u64) << 24) | (((v
        >> 16) as u8 as u64) << 16) | (((v >> 8) as u8 as u64) << 8) | (v as u8 as u64) == v)
        by (bit_vector);
    assert(be8_of(v)[0] == b0);
    assert(be8_of(v)[1] == b1);
    assert(be8_of(v)[2] == b2);
    assert(be8_of(v)[3] == b3);
    assert(be8_of(v)[4] == b4);
    assert(be8_of(v)[5] == b5);
    assert(be8_of(v)[6] == b6);
    assert(be8_of(v)[7] == b7);
}

/// Parse a MessagePack `float 64` at a position, returning its raw bits.
pub open spec fn spec_parse_f64(d: Seq<u8>, p: int) -> Option<(u64, int)> {
    if 0 <= p && p + 9 <= d.len() && d[p] == 0xcb {
        Some((be8_val(d.subrange(p + 1, p + 9)), p + 9))
    } else {
        None
    }
}

/// Parse a canonical MessagePack binary at a position.
pub open spec fn spec_parse_bin(d: Seq<u8>, p: int) -> Option<(Seq<u8>, int)> {
    if 0 <= p && p < d.len() {
        if d[p] == 0xc4 {
            if p + 2 <= d.len() {
                let l = d[p + 1] as int;
                if p + 2 + l <= d.len() {
                    Some((d.subrange(p + 2, p + 2 + l), p + 2 + l))
                } else {
                    None
                }
            } else {
                None
            }
        } else if d[p] == 0xc5 {
            if p + 3 <= d.len() {
                let l = d[p + 1] * 256 + d[p + 2];
                if l >= 0x100 && p + 3 + l <= d.len() {
                    Some((d.subrange(p + 3, p + 3 + l), p + 3 + l))
                } else {
                    None
                }
            } else {
                None
            }
        } else if d[p] == 0xc6 {
            if p + 5 <= d.len() {
                let l = d[p + 1] * 0x1000000 + d[p + 2] * 0x10000 + d[p + 3] * 0x100 + d[p + 4];
                if l >= 0x10000 && p + 5 + l <= d.len() {
                    Some((d.subrange(p + 5, p + 5 + l), p + 5 + l))
                } else {
                    None
                }
            } else {
                None
            }
        } else {
            None
        }
    } else {
        None
    }
}

/// Parse a canonical MessagePack string at a position, as its UTF-8 bytes.
pub open spec fn spec_parse_str(d: Seq<u8>, p: int) -> Option<(Seq<u8>, int)> {
    if 0 <= p && p < d.len() {
        if 0xa0 <= d[p] && d[p] <= 0xbf {
            let l = d[p] - 0xa0;
            if p + 1 + l <= d.len() {
                Some((d.subrange(p + 1, p + 1 + l), p + 1 + l))
            } else {
                None
            }
        } else if d[p] == 0xd9 {
            if p + 2 <= d.len() {
                let l = d[p + 1] as int;
                if l >= 32 && p + 2 + l <= d.len() {
                    Some((d.subrange(p + 2, p + 2 + l), p + 2 + l))
                } else {
                    None
                }
            } else {
                None
            }
        } else if d[p] == 0xda {
            if p + 3 <= d.len() {
                let l = d[p + 1] * 256 + d[p + 2];
                if l >= 0x100 && p + 3 + l <= d.len() {
                    Some((d.subrange(p + 3, p + 3 + l), p + 3 + l))
                } else {
                    None
                }
            } else {
                None
            }
        } else if d[p] == 0xdb {
            if p + 5 <= d.len() {
                let l = d[p + 1] * 0x1000000 + d[p + 2] * 0x10000 + d[p + 3] * 0x100 + d[p + 4];
                if l >= 0x10000 && p + 5 + l <= d.len() {
                    Some((d.subrange(p + 5, p + 5 + l), p + 5 + l))
                } else {
                    None
                }
            } else {
                None
            }
        } else {
            None
        }
    } else {
        None
    }
}

/// Parse either `nil` or a binary: the optional third element of a response.
pub open spec fn spec_parse_nil_or_bin(d: Seq<u8>, p: int) -> Option<(Option<Seq<u8>>, int)> {
    if 0 <= p && p < d.len() && d[p] == 0xc0 {
        Some((None, p + 1))
    } else {
        match spec_parse_bin(d, p) {
            Some((b, p2)) => Some((Some(b), p2)),
            None => None,
        }
    }
}

/// Parse a whole canonical one-shot response.
pub open spec fn spec_parse_response(d: Seq<u8>) -> Option<(u64, Seq<u8>, Option<Seq<u8>>)> {
    if d.len() > 0 && d[0] == 0x93 {
        match spec_parse_f64(d, 1) {
            Some((ts, p1)) => match spec_parse_bin(d, p1) {
                Some((h, p2)) => match spec_parse_nil_or_bin(d, p2) {
                    Some((c, p3)) => if p3 == d.len() {
                        Some((ts, h, c))
                    } else {
                        None
                    },
                    None => None,
                },
                None => None,
            },
            None => None,
        }
    } else {
        None
    }
}

/// Parse a whole canonical resource payload `[content_hash, content]`.
pub open spec fn spec_parse_resource(d: Seq<u8>) -> Option<(Seq<u8>, Seq<u8>)> {
    if d.len() > 0 && d[0] == 0x92 {
        match spec_parse_bin(d, 1) {
            Some((h, p1)) => match spec_parse_bin(d, p1) {
                Some((c, p2)) => if p2 == d.len() {
                    Some((h, c))
                } else {
                    None
                },
                None => None,
            },
            None => None,
        }
    } else {
        None
    }
}

/// A `float 64` is parsed back from wherever it stands in a message.
pub proof fn lemma_parse_f64_at(pre: Seq<u8>, bits: u64, suf: Seq<u8>)
    ensures
        spec_parse_f64(pre + mp_f64(bits) + suf, pre.len() as int) == Some(
            (bits, pre.len() + 9 as int),
        ),
{
    let d = pre + mp_f64(bits) + suf;
    let p = pre.len() as int;
    assert(d[p] == 0xcb);
    assert(d.subrange(p + 1, p + 9) =~= be8_of(bits));
    lemma_be8_round(bits);
}

/// The four base-256 digits of a 32-bit length recombine to the length.
proof fn lemma_be4_digits(l: int)
    requires
        0 <= l < 0x100000000,
    ensures
        (l / 0x1000000 % 256) * 0x1000000 + (l / 0x10000 % 256) * 0x10000 + (l / 0x100 % 256)
            * 0x100 + l % 256 == l,
{
    assert((l / 0x1000000 % 256) * 0x1000000 + (l / 0x10000 % 256) * 0x10000 + (l / 0x100 % 256)
        * 0x100 + l % 256 == l) by (nonlinear_arith)
        requires
            0 <= l < 0x100000000,
    ;
}

/// A canonical binary is parsed back from wherever it stands in a message.
pub proof fn lemma_parse_bin_at(pre: Seq<u8>, data: Seq<u8>, suf: Seq<u8>)
    requires
        data.len() < 0x100000000,
    ensures
        spec_parse_bin(pre + mp_bin(data) + suf, pre.len() as int) == Some(
            (data, pre.len() + mp_bin(data).len() as int),
        ),
{
    let d = pre + mp_bin(data) + suf;
    let p = pre.len() as int;
    let l = data.len() as int;
    if l < 0x100 {
        assert(d[p] == 0xc4);
        assert(d[p + 1] == l as u8);
        assert(d.subrange(p + 2, p + 2 + l) =~= data);
    } else if l < 0x10000 {
        assert(d[p] == 0xc5);
        assert(d[p + 1] == (l / 256) as u8);
        assert(d[p + 2] == (l % 256) as u8);
        assert((l / 256) * 256 + l % 256 == l);
        assert(d.subrange(p + 3, p + 3 + l) =~= data);
    } else {
        assert(d[p] == 0xc6);
        assert(d[p + 1] == (l / 0x1000000 % 256) as u8);
        assert(d[p + 2] == (l / 0x10000 % 256) as u8);
        assert(d[p + 3] == (l / 0x100 % 256) as u8);
        assert(d[p + 4] == (l % 256) as u8);
        lemma_be4_digits(l);
        assert(d.subrange(p + 5, p + 5 + l) =~= data);
    }
}

/// A canonical string is parsed back from wherever it stands in a message.
pub proof fn lemma_parse_str_at(pre: Seq<u8>, utf8: Seq<u8>, suf: Seq<u8>)
    requires
        utf8.len() < 0x100000000,
    ensures
        spec_parse_str(pre + mp_str(utf8) + suf, pre.len() as int) == Some(
            (utf8, pre.len() + mp_str(utf8).len() as int),
        ),
{
    let d = pre + mp_str(utf8) + suf;
    let p = pre.len() as int;
    let l = utf8.len() as int;
    if l < 32 {
        assert(d[p] == (0xa0 + l) as u8);
        assert(0xa0 <= d[p] && d[p] <= 0xbf);
        assert(d[p] - 0xa0 == l);
        assert(d.subrange(p + 1, p + 1 + l) =~= utf8);
    } else if l < 0x100 {
        assert(d[p] == 0xd9);
        assert(d[p + 1] == l as u8);
        assert(d.subrange(p + 2, p + 2 + l) =~= utf8);
    } else if l < 0x10000 {
        assert(d[p] == 0xda);
        assert(d[p + 1] == (l / 256) as u8);
        assert(d[p + 2] == (l % 256) as u8);
        assert((l / 256) * 256 + l % 256 == l);
        assert(d.subrange(p + 3, p + 3 + l) =~= utf8);
    } else {
        assert(d[p] == 0xdb);
        assert(d[p + 1] == (l / 0x1000000 % 256) as u8);
        assert(d[p + 2] == (l / 0x10000 % 256) as u8);
        assert(d[p + 3] == (l / 0x100 % 256) as u8);
        assert(d[p + 4] == (l % 256) as u8);
        lemma_be4_digits(l);
        assert(d.subrange(p + 5, p + 5 + l) =~= utf8);
    }
}

/// Parsing a whole encoded response gives back exactly its three fields.
pub proof fn lemma_response_round_trip(ts_bits: u64, request_hash: Seq<u8>, content: Option<Seq<u8>>)
    requires
        request_hash.len() < 0x100000000,
        content matches Some(c) ==> c.len() < 0x100000000,
    ensures
        spec_parse_response(response_encoding(ts_bits, request_hash, content)) == Some(
            (ts_bits, request_hash, content),
        ),
{
    let d = response_encoding(ts_bits, request_hash, content);
    let tail = match content {
        None => mp_nil(),
        Some(c) => mp_bin(c),
    };
    assert(d =~= mp_array_header(3) + mp_f64(ts_bits) + (mp_bin(request_hash) + tail));
    assert(d[0] == 0x93);
    assert(d =~= seq![0x93u8] + mp_f64(ts_bits) + (mp_bin(request_hash) + tail));
    lemma_parse_f64_at(seq![0x93u8], ts_bits, mp_bin(request_hash) + tail);
    assert(spec_parse_f64(d, 1) == Some((ts_bits, 10 as int)));
    let pre2 = seq![0x93u8] + mp_f64(ts_bits);
    assert(pre2.len() == 10);
    assert(d =~= pre2 + mp_bin(request_hash) + tail);
    lemma_parse_bin_at(pre2, request_hash, tail);
    let p2 = 10 + mp_bin(request_hash).len() as int;
    assert(spec_parse_bin(d, 10) == Some((request_hash, p2)));
    let pre3 = pre2 + mp_bin(request_hash);
    match content {
        None => {
            assert(d[p2] == 0xc0);
            assert(p2 + 1 == d.len());
            assert(spec_parse_nil_or_bin(d, p2) == Some((None::<Seq<u8>>, p2 + 1)));
        },
        Some(c) => {
            assert(d =~= pre3 + mp_bin(c) + Seq::<u8>::empty());
            lemma_parse_bin_at(pre3, c, Seq::empty());
            assert(spec_parse_bin(d, p2) == Some((c, d.len() as int)));
            assert(d[p2] == mp_bin(c)[0]);
            assert(mp_bin(c)[0] != 0xc0);
            assert(spec_parse_nil_or_bin(d, p2) == Some((Some(c), d.len() as int)));
        },
    }
}

/// Parsing a whole encoded resource payload gives back its two fields.
pub proof fn lemma_resource_round_trip(content_hash: Seq<u8>, content: Seq<u8>)
    requires
        content_hash.len() < 0x100000000,
        content.len() < 0x100000000,
    ensures
        spec_parse_resource(resource_encoding(content_hash, content)) == Some(
            (content_hash, content),
        ),
{
    let d = resource_encoding(content_hash, content);
    assert(d[0] == 0x92);
    assert(d =~= seq![0x92u8] + mp_bin(content_hash) + mp_bin(content));
    lemma_parse_bin_at(seq![0x92u8], content_hash, mp_bin(content));
    let p1 = 1 + mp_bin(content_hash).len() as int;
    let pre2 = seq![0x92u8] + mp_bin(content_hash);
    assert(d =~= pre2 + mp_bin(content) + Seq::<u8>::empty());
    lemma_parse_bin_at(pre2, content, Seq::empty());
    assert(spec_parse_bin(d, p1) == Some((content, d.len() as int)));
}

/// Copy `data[start..end]` into a fresh vector.
pub fn copy_range(data: &[u8], start: usize, end: usize) -> (r: Vec<u8>)
    requires
        start <= end <= data@.len(),
    ensures
        r@ == data@.subrange(start as int, end as int),
{
    let mut r: Vec<u8> = Vec::new();
    let mut i: usize = start;
    while i < end
        invariant
            start <= i <= end <= data@.len(),
            r@ =~= data@.subrange(start as int, i as int),
        decreases end - i,
    {
        r.push(data[i]);
        assert(r@ =~= data@.subrange(start as int, i + 1 as int));
        i = i + 1;
    }
    assert(r@ =~= data@.subrange(start as int, end as int));
    r
}

/// Read a MessagePack `float 64` at a position, as its raw bits.
pub fn read_f64_bits(data: &[u8], pos: usize) -> (r: Option<(u64, usize)>)
    ensures
        r matches Some((v, p2)) ==> spec_parse_f64(data@, pos as int) == Some((v, p2 as int)),
        r is None ==> spec_parse_f64(data@, pos as int) is None,
{
    let n = data.len();
    if pos >= n || n - pos < 9 {
        return None;
    }
    if data[pos] != 0xcb {
        return None;
    }
    let v: u64 = ((data[pos + 1] as u64) << 56) | ((data[pos + 2] as u64) << 48) | ((data[pos + 3]
        as u64) << 40) | ((data[pos + 4] as u64) << 32) | ((data[pos + 5] as u64) << 24) | ((data[pos
        + 6] as u64) << 16) | ((data[pos + 7] as u64) << 8) | (data[pos + 8] as u64);
    proof {
        let b = data@.subrange(pos + 1, pos + 9);
        assert(b[0] == data@[pos + 1]);
        assert(b[1] == data@[pos + 2]);
        assert(b[2] == data@[pos + 3]);
        assert(b[3] == data@[pos + 4]);
        assert(b[4] == data@[pos + 5]);
        assert(b[5] == data@[pos + 6]);
        assert(b[6] == data@[pos + 7]);
        assert(b[7] == data@[pos + 8]);
    }
    Some((v, pos + 9))
}

/// Read a canonical MessagePack binary at a position.
pub fn read_bin(data: &[u8], pos: usize) -> (r: Option<(Vec<u8>, usize)>)
    ensures
        r matches Some((v, p2)) ==> spec_parse_bin(data@, pos as int) == Some((v@, p2 as int)),
        r is None ==> spec_parse_bin(data@, pos as int) is None,
{
    let n = data.len();
    if pos >= n {
        return None;
    }
    let marker = data[pos];
    if marker == 0xc4 {
        if n - pos < 2 {
            return None;
        }
        let l = data[pos + 1] as usize;
        if l > n - pos - 2 {
            return None;
        }
        let v = copy_range(data, pos + 2, pos + 2 + l);
        Some((v, pos + 2 + l))
    } else if marker == 0xc5 {
        if n - pos < 3 {
            return None;
        }
        let l = (data[pos + 1] as usize) * 256 + (data[pos + 2] as usize);
        if l < 0x100 || l > n - pos - 3 {
            return None;
        }
        let v = copy_range(data, pos + 3, pos + 3 + l);
        Some((v, pos + 3 + l))
    } else if marker == 0xc6 {
        if n - pos < 5 {
            return None;
        }
        let l = (data[pos + 1] as usize) * 0x1000000 + (data[pos + 2] as usize) * 0x10000 + (
        data[pos + 3] as usize) * 0x100 + (data[pos + 4] as usize);
        if l < 0x10000 || l > n - pos - 5 {
            return None;
        }
        let v = copy_range(data, pos + 5, pos + 5 + l);
        Some((v, pos + 5 + l))
    } else {
        None
    }
}

/// Read a canonical MessagePack string at a position, as its UTF-8 bytes.
pub fn read_str_bytes(data: &[u8], pos: usize) -> (r: Option<(Vec<u8>, usize)>)
    ensures
        r matches Some((v, p2)) ==> spec_parse_str(data@, pos as int) == Some((v@, p2 as int)),
        r is None ==> spec_parse_str(data@, pos as int) is None,
{
    let n = data.len();
    if pos >= n {
        return None;
    }
    let marker = data[pos];
    if 0xa0 <= marker && marker <= 0xbf {
        let l = (marker - 0xa0) as usize;
        if l > n - pos - 1 {
            return None;
        }
        let v = copy_range(data, pos + 1, pos + 1 + l);
        Some((v, pos + 1 + l))
    } else if marker == 0xd9 {
        if n - pos < 2 {
            return None;
        }
        let l = data[pos + 1] as usize;
        if l < 32 || l > n - pos - 2 {
            return None;
        }
        let v = copy_range(data, pos + 2, pos + 2 + l);
        Some((v, pos + 2 + l))
    } else if marker == 0xda {
        if n - pos < 3 {
            return None;
        }
        let l = (data[pos + 1] as usize) * 256 + (data[pos + 2] as usize);
        if l < 0x100 || l > n - pos - 3 {
            return None;
        }
        let v = copy_range(data, pos + 3, pos + 3 + l);
        Some((v, pos + 3 + l))
    } else if marker == 0xdb {
        if n - pos < 5 {
            return None;
        }
        let l = (data[pos + 1] as usize) * 0x1000000 + (data[pos + 2] as usize) * 0x10000 + (
        data[pos + 3] as usize) * 0x100 + (data[pos + 4] as usize);
        if l < 0x10000 || l > n - pos - 5 {
            return None;
        }
        let v = copy_range(data, pos + 5, pos + 5 + l);
        Some((v, pos + 5 + l))
    } else {
        None
    }
}

/// The three fields of a one-shot page response.
pub struct ResponseTuple {
    pub ts_bits: u64,
    pub request_hash: Vec<u8>,
    pub content: Option<Vec<u8>>,
}

/// The byte view of an optional byte vector.
pub open spec fn opt_bytes_view(v: Option<Vec<u8>>) -> Option<Seq<u8>> {
    match v {
        None => None,
        Some(b) => Some(b@),
    }
}

/// Parse a whole one-shot response; accepts exactly the canonical encoding.
pub fn parse_response_tuple(data: &[u8]) -> (r: Option<ResponseTuple>)
    ensures
        r matches Some(t) ==> spec_parse_response(data@) == Some(
            (t.ts_bits, t.request_hash@, opt_bytes_view(t.content)),
        ),
        r is None ==> spec_parse_response(data@) is None,
{
    if data.len() == 0 || data[0] != 0x93 {
        return None;
    }
    let (ts_bits, p1) = match read_f64_bits(data, 1) {
        Some(x) => x,
        None => {
            return None;
        },
    };
    let (request_hash, p2) = match read_bin(data, p1) {
        Some(x) => x,
        None => {
            return None;
        },
    };
    let (content, p3): (Option<Vec<u8>>, usize) = if p2 < data.len() && data[p2] == 0xc0 {
        (None, p2 + 1)
    } else {
        match read_bin(data, p2) {
            Some((b, p)) => (Some(b), p),
            None => {
                return None;
            },
        }
    };
    if p3 != data.len() {
        return None;
    }
    Some(ResponseTuple { ts_bits, request_hash, content })
}

/// Parse a whole resource payload; accepts exactly the canonical encoding.
pub fn parse_resource_tuple(data: &[u8]) -> (r: Option<(Vec<u8>, Vec<u8>)>)
    ensures
        r matches Some(t) ==> spec_parse_resource(data@) == Some((t.0@, t.1@)),
        r is None ==> spec_parse_resource(data@) is None,
{
    if data.len() == 0 || data[0] != 0x92 {
        return None;
    }
    let (h, p1) = match read_bin(data, 1) {
        Some(x) => x,
        None => {
            return None;
        },
    };
    let (c, p2) = match read_bin(data, p1) {
        Some(x) => x,
        None => {
            return None;
        },
    };
    if p2 != data.len() {
        return None;
    }
    Some((h, c))
}

/// Relies on core::str::from_utf8: accepts exactly valid UTF-8.
#[verifier::external_body]
pub fn utf8_valid(bytes: &[u8]) -> (r: bool)
    ensures
        r == vstd::utf8::valid_utf8(bytes@),
{
    core::str::from_utf8(bytes).is_ok()
}

/// Relies on String::from_utf8: accepts exactly valid UTF-8 and keeps the
/// bytes.
#[verifier::external_body]
pub fn utf8_to_string(bytes: Vec<u8>) -> (r: Option<String>)
    ensures
        r is Some <==> vstd::utf8::valid_utf8(bytes@),
        r matches Some(s) ==> encode_utf8(s@) == bytes@,
{
    String::from_utf8(bytes).ok()
}

/// The name bytes chosen from an announce's `app_data`: nothing for empty
/// data; for a MessagePack array, its first element if that is a binary or
/// string; otherwise the whole payload as raw text.
pub open spec fn spec_display_name_bytes(d: Seq<u8>) -> Option<Seq<u8>> {
    if d.len() == 0 {
        None
    } else if 0x90 <= d[0] && d[0] <= 0x9f {
        if d[0] == 0x90 {
            None
        } else {
            spec_first_element_bytes(d, 1)
        }
    } else if d[0] == 0xdc {
        if d.len() >= 3 {
            if d[1] == 0 && d[2] == 0 {
                None
            } else {
                spec_first_element_bytes(d, 3)
            }
        } else {
            None
        }
    } else {
        Some(d)
    }
}

/// The bytes of an array's first element, when it is a binary or a string.
pub open spec fn spec_first_element_bytes(d: Seq<u8>, p: int) -> Option<Seq<u8>> {
    match spec_parse_bin(d, p) {
        Some((b, _)) => Some(b),
        None => match spec_parse_str(d, p) {
            Some((b, _)) => Some(b),
            None => None,
        },
    }
}

/// Decode the display name carried in an announce's `app_data`.
pub fn parse_display_name(app_data: &[u8]) -> (r: Option<String>)
    ensures
        r is Some <==> (spec_display_name_bytes(app_data@) matches Some(b)
            && vstd::utf8::valid_utf8(b)),
        r matches Some(s) ==> spec_display_name_bytes(app_data@) == Some(encode_utf8(s@)),
{
    if app_data.len() == 0 {
        return None;
    }
    let b0 = app_data[0];
    if 0x90 <= b0 && b0 <= 0x9f {
        if b0 == 0x90 {
            return None;
        }
        first_element_name(app_data, 1)
    } else if b0 == 0xdc {
        if app_data.len() < 3 {
            return None;
        }
        if app_data[1] == 0 && app_data[2] == 0 {
            return None;
        }
        first_element_name(app_data, 3)
    } else {
        let whole = copy_range(app_data, 0, app_data.len());
        assert(whole@ =~= app_data@);
        utf8_to_string(whole)
    }
}

/// Decode an array's first element as a UTF-8 name.
fn first_element_name(d: &[u8], p: usize) -> (r: Option<String>)
    ensures
        r is Some <==> (spec_first_element_bytes(d@, p as int) matches Some(b)
            && vstd::utf8::valid_utf8(b)),
        r matches Some(s) ==> spec_first_element_bytes(d@, p as int) == Some(encode_utf8(s@)),
{
    match read_bin(d, p) {
        Some((b, _)) => utf8_to_string(b),
        None => match read_str_bytes(d, p) {
            Some((b, _)) => utf8_to_string(b),
            None => None,
        },
    }
}

/// Why a response payload was refused; `message` gives the caller-visible
/// text.
#[derive(Debug, PartialEq)]
pub enum PageError {
    ParseFailed,
    NoContent,
    InvalidUtf8,
}

impl PageError {
    pub fn message(&self) -> (r: String)
        ensures
            *self is ParseFailed ==> r@ == "Failed to parse response: unrecognized encoding"@,
            *self is NoContent ==> r@ == "No content in response"@,
            *self is InvalidUtf8 ==> r@ == "Invalid UTF-8: content is not valid text"@,
    {
        match self {
            PageError::ParseFailed => String::from_str("Failed to parse response: unrecognized encoding"),
            PageError::NoContent => String::from_str("No content in response"),
            PageError::InvalidUtf8 => String::from_str("Invalid UTF-8: content is not valid text"),
        }
    }
}

/// Extract the page content from a one-shot response: a `nil` content means
/// the server has nothing for this path, and content must be UTF-8 text.
pub fn parse_page_response(data: &[u8]) -> (r: Result<Vec<u8>, PageError>)
    ensures
        spec_parse_response(data@) is None ==> r == Err::<Vec<u8>, PageError>(
            PageError::ParseFailed,
        ),
        spec_parse_response(data@) matches Some((ts, h, c)) ==> match c {
            None => r == Err::<Vec<u8>, PageError>(PageError::NoContent),
            Some(cb) => if vstd::utf8::valid_utf8(cb) {
                r matches Ok(v) && v@ == cb
            } else {
                r == Err::<Vec<u8>, PageError>(PageError::InvalidUtf8)
            },
        },
{
    let t = match parse_response_tuple(data) {
        Some(t) => t,
        None => {
            return Err(PageError::ParseFailed);
        },
    };
    let content = match t.content {
        Some(c) => c,
        None => {
            return Err(PageError::NoContent);
        },
    };
    if utf8_valid(content.as_slice()) {
        Ok(content)
    } else {
        Err(PageError::InvalidUtf8)
    }
}

/// Extract the page content from a reassembled resource payload.
pub fn parse_resource_content(data: &[u8]) -> (r: Result<Vec<u8>, PageError>)
    ensures
        spec_parse_resource(data@) is None ==> r == Err::<Vec<u8>, PageError>(
            PageError::ParseFailed,
        ),
        spec_parse_resource(data@) matches Some((h, c)) ==> if vstd::utf8::valid_utf8(c) {
            r matches Ok(v) && v@ == c
        } else {
            r == Err::<Vec<u8>, PageError>(PageError::InvalidUtf8)
        },
{
    let t = match parse_resource_tuple(data) {
        Some(t) => t,
        None => {
            return Err(PageError::ParseFailed);
        },
    };
    let (_, content) = t;
    if utf8_valid(content.as_slice()) {
        Ok(content)
    } else {
        Err(PageError::InvalidUtf8)
    }
}

/// Parse `n` map entries, each a string key and a string value.
pub open spec fn spec_parse_map_entries(d: Seq<u8>, p: int, n: int) -> Option<
    (Seq<(Seq<u8>, Seq<u8>)>, int),
>
    decreases n,
{
    if n <= 0 {
        Some((Seq::empty(), p))
    } else {
        match spec_parse_str(d, p) {
            Some((k, p1)) => match spec_parse_str(d, p1) {
                Some((v, p2)) => match spec_parse_map_entries(d, p2, n - 1) {
                    Some((rest, p3)) => Some((seq![(k, v)] + rest, p3)),
                    None => None,
                },
                None => None,
            },
            None => None,
        }
    }
}

/// Parse a whole canonical page request.
pub open spec fn spec_parse_request(d: Seq<u8>) -> Option<
    (u64, Seq<u8>, Option<Seq<(Seq<u8>, Seq<u8>)>>),
> {
    if d.len() > 0 && d[0] == 0x93 {
        match spec_parse_f64(d, 1) {
            Some((ts, p1)) => match spec_parse_bin(d, p1) {
                Some((h, p2)) => if p2 < d.len() && d[p2] == 0xc0 {
                    if p2 + 1 == d.len() {
                        Some((ts, h, None))
                    } else {
                        None
                    }
                } else if p2 < d.len() && 0x80 <= d[p2] && d[p2] <= 0x8f {
                    match spec_parse_map_entries(d, p2 + 1, d[p2] - 0x80) {
                        Some((entries, p3)) => if p3 == d.len() {
                            Some((ts, h, Some(entries)))
                        } else {
                            None
                        },
                        None => None,
                    }
                } else if p2 + 3 <= d.len() && d[p2] == 0xde {
                    let n = d[p2 + 1] * 256 + d[p2 + 2];
                    if n >= 16 {
                        match spec_parse_map_entries(d, p2 + 3, n) {
                            Some((entries, p3)) => if p3 == d.len() {
                                Some((ts, h, Some(entries)))
                            } else {
                                None
                            },
                            None => None,
                        }
                    } else {
                        None
                    }
                } else {
                    None
                },
                None => None,
            },
            None => None,
        }
    } else {
        None
    }
}

/// Map entries are parsed back from wherever they stand in a message.
#[verifier::rlimit(100)]
pub proof fn lemma_parse_map_entries_at(pre: Seq<u8>, entries: Seq<(Seq<u8>, Seq<u8>)>, suf: Seq<u8>)
    requires
        forall|i: int|
            0 <= i < entries.len() ==> (#[trigger] entries[i]).0.len() < 0x100000000
                && entries[i].1.len() < 0x100000000,
    ensures
        spec_parse_map_entries(
            pre + mp_map_entries(entries) + suf,
            pre.len() as int,
            entries.len() as int,
        ) == Some((entries, pre.len() + mp_map_entries(entries).len() as int)),
    decreases entries.len(),
{
    let d = pre + mp_map_entries(entries) + suf;
    if entries.len() == 0 {
        assert(mp_map_entries(entries) =~= Seq::<u8>::empty());
    } else {
        let k = entries[0].0;
        let v = entries[0].1;
        let rest = entries.drop_first();
        assert(mp_map_entries(entries) == mp_str(k) + mp_str(v) + mp_map_entries(rest));
        assert(d =~= pre + mp_str(k) + (mp_str(v) + mp_map_entries(rest) + suf));
        lemma_parse_str_at(pre, k, mp_str(v) + mp_map_entries(rest) + suf);
        let p1 = pre.len() + mp_str(k).len() as int;
        let pre2 = pre + mp_str(k);
        assert(pre2.len() == p1);
        assert(d =~= pre2 + mp_str(v) + (mp_map_entries(rest) + suf));
        lemma_parse_str_at(pre2, v, mp_map_entries(rest) + suf);
        let p2 = p1 + mp_str(v).len() as int;
        let pre3 = pre2 + mp_str(v);
        assert(pre3.len() == p2);
        assert(d =~= pre3 + mp_map_entries(rest) + suf);
        lemma_parse_map_entries_at(pre3, rest, suf);
        assert(spec_parse_map_entries(d, p2, rest.len() as int) == Some(
            (rest, p2 + mp_map_entries(rest).len() as int),
        ));
        assert(seq![(k, v)] + rest =~= entries);
        assert(spec_parse_str(d, pre.len() as int) == Some((k, p1)));
        assert(spec_parse_str(d, p1) == Some((v, p2)));
    }
}

/// Parsing a whole encoded request gives back exactly its three fields:
/// in particular the path hash round-trips unchanged.
#[verifier::rlimit(80)]
pub proof fn lemma_request_round_trip(
    ts_bits: u64,
    path_hash: Seq<u8>,
    form: Option<Seq<(Seq<u8>, Seq<u8>)>>,
)
    requires
        path_hash.len() < 0x100000000,
        form matches Some(entries) ==> 0 < entries.len() < 0x10000,
        form matches Some(entries) ==> forall|i: int|
            0 <= i < entries.len() ==> (#[trigger] entries[i]).0.len() < 0x100000000
                && entries[i].1.len() < 0x100000000,
    ensures
        spec_parse_request(request_encoding(ts_bits, path_hash, form)) == Some(
            (ts_bits, path_hash, form),
        ),
{
    let d = request_encoding(ts_bits, path_hash, form);
    let tail = match form {
        None => mp_nil(),
        Some(entries) => mp_map_header(entries.len() as int) + mp_map_entries(entries),
    };
    assert(d =~= seq![0x93u8] + mp_f64(ts_bits) + (mp_bin(path_hash) + tail));
    assert(d[0] == 0x93);
    lemma_parse_f64_at(seq![0x93u8], ts_bits, mp_bin(path_hash) + tail);
    assert(spec_parse_f64(d, 1) == Some((ts_bits, 10 as int)));
    let pre2 = seq![0x93u8] + mp_f64(ts_bits);
    assert(pre2.len() == 10);
    assert(d =~= pre2 + mp_bin(path_hash) + tail);
    lemma_parse_bin_at(pre2, path_hash, tail);
    let p2 = 10 + mp_bin(path_hash).len() as int;
    assert(spec_parse_bin(d, 10) == Some((path_hash, p2)));
    let pre3 = pre2 + mp_bin(path_hash);
    assert(pre3.len() == p2);
    match form {
        None => {
            assert(d[p2] == 0xc0);
            assert(p2 + 1 == d.len());
        },
        Some(entries) => {
            let n = entries.len() as int;
            if n < 16 {
                assert(d[p2] == (0x80 + n) as u8);
                assert(0x80 <= d[p2] && d[p2] <= 0x8f);
                assert(d[p2] - 0x80 == n);
                let pre4 = pre3 + mp_map_header(n);
                assert(pre4.len() == p2 + 1);
                assert(d =~= pre4 + mp_map_entries(entries) + Seq::<u8>::empty());
                lemma_parse_map_entries_at(pre4, entries, Seq::empty());
                assert(spec_parse_map_entries(d, p2 + 1, n) == Some((entries, d.len() as int)));
                assert(d[p2] != 0xc0);
            } else {
                assert(d[p2] == 0xde);
                assert(d[p2 + 1] == (n / 256) as u8);
                assert(d[p2 + 2] == (n % 256) as u8);
                assert((n / 256) * 256 + n % 256 == n);
                let pre4 = pre3 + mp_map_header(n);
                assert(pre4.len() == p2 + 3);
                assert(d =~= pre4 + mp_map_entries(entries) + Seq::<u8>::empty());
                lemma_parse_map_entries_at(pre4, entries, Seq::empty());
                assert(spec_parse_map_entries(d, p2 + 3, n) == Some((entries, d.len() as int)));
                assert(d[p2] != 0xc0);
            }
        },
    }
}

/// The three fields of a page request, as a server reads them; form keys
/// and values stay raw UTF-8 bytes.
pub struct RequestTuple {
    pub ts_bits: u64,
    pub path_hash: Vec<u8>,
    pub form: Option<Vec<(Vec<u8>, Vec<u8>)>>,
}

/// The byte view of a parsed form.
pub open spec fn raw_form_view(form: Option<Vec<(Vec<u8>, Vec<u8>)>>) -> Option<
    Seq<(Seq<u8>, Seq<u8>)>,
> {
    match form {
        None => None,
        Some(entries) => Some(
            entries@.map_values(|e: (Vec<u8>, Vec<u8>)| (e.0@, e.1@)),
        ),
    }
}

/// Read `n` map entries of string keys and string values.
fn read_map_entries(data: &[u8], pos: usize, n: usize) -> (r: Option<
    (Vec<(Vec<u8>, Vec<u8>)>, usize),
>)
    ensures
        r matches Some((entries, p2)) ==> spec_parse_map_entries(data@, pos as int, n as int)
            == Some((entries@.map_values(|e: (Vec<u8>, Vec<u8>)| (e.0@, e.1@)), p2 as int)),
        r is None ==> spec_parse_map_entries(data@, pos as int, n as int) is None,
{
    let ghost d = data@;
    let mut entries: Vec<(Vec<u8>, Vec<u8>)> = Vec::new();
    let mut p = pos;
    let mut i: usize = 0;
    while i < n
        invariant
            i <= n,
            d == data@,
            spec_parse_map_entries(d, pos as int, n as int) == (match spec_parse_map_entries(
                d,
                p as int,
                n - i,
            ) {
                Some((rest, pe)) => Some(
                    (entries@.map_values(|e: (Vec<u8>, Vec<u8>)| (e.0@, e.1@)) + rest, pe),
                ),
                None => None::<(Seq<(Seq<u8>, Seq<u8>)>, int)>,
            }),
        decreases n - i,
    {
        let ghost before = entries@;
        let (k, p1) = match read_str_bytes(data, p) {
            Some(x) => x,
            None => {
                return None;
            },
        };
        let (v, p2) = match read_str_bytes(data, p1) {
            Some(x) => x,
            None => {
                return None;
            },
        };
        entries.push((k, v));
        proof {
            let f = |e: (Vec<u8>, Vec<u8>)| (e.0@, e.1@);
            assert(entries@.map_values(f) =~= before.map_values(f).push(
                (entries@.last().0@, entries@.last().1@),
            ));
            let parsed = spec_parse_map_entries(d, p2 as int, n - i - 1);
            if parsed is Some {
                let (rest, pe) = parsed->Some_0;
                assert(before.map_values(f) + (seq![(entries@.last().0@, entries@.last().1@)]
                    + rest) =~= entries@.map_values(f) + rest);
            }
        }
        p = p2;
        i = i + 1;
    }
    proof {
        let f = |e: (Vec<u8>, Vec<u8>)| (e.0@, e.1@);
        assert(entries@.map_values(f) + Seq::<(Seq<u8>, Seq<u8>)>::empty() =~= entries@.map_values(
            f,
        ));
    }
    Some((entries, p))
}

/// Parse a whole canonical page request, as a serving node would.
pub fn parse_page_request(data: &[u8]) -> (r: Option<RequestTuple>)
    ensures
        r matches Some(t) ==> spec_parse_request(data@) == Some(
            (t.ts_bits, t.path_hash@, raw_form_view(t.form)),
        ),
        r is None ==> spec_parse_request(data@) is None,
{
    if data.len() == 0 || data[0] != 0x93 {
        return None;
    }
    let (ts_bits, p1) = match read_f64_bits(data, 1) {
        Some(x) => x,
        None => {
            return None;
        },
    };
    let (path_hash, p2) = match read_bin(data, p1) {
        Some(x) => x,
        None => {
            return None;
        },
    };
    if p2 < data.len() && data[p2] == 0xc0 {
        if p2 + 1 == data.len() {
            return Some(RequestTuple { ts_bits, path_hash, form: None });
        }
        return None;
    }
    if p2 < data.len() && 0x80 <= data[p2] && data[p2] <= 0x8f {
        let n = (data[p2] - 0x80) as usize;
        let (entries, p3) = match read_map_entries(data, p2 + 1, n) {
            Some(x) => x,
            None => {
                return None;
            },
        };
        if p3 != data.len() {
            return None;
        }
        return Some(RequestTuple { ts_bits, path_hash, form: Some(entries) });
    }
    if p2 < data.len() && data.len() - p2 >= 3 && data[p2] == 0xde {
        let n = (data[p2 + 1] as usize) * 256 + (data[p2 + 2] as usize);
        if n < 16 {
            return None;
        }
        let (entries, p3) = match read_map_entries(data, p2 + 3, n) {
            Some(x) => x,
            None => {
                return None;
            },
        };
        if p3 != data.len() {
            return None;
        }
        return Some(RequestTuple { ts_bits, path_hash, form: Some(entries) });
    }
    None
}

/// Canonical response encodings are injective: equal wire bytes carry
/// equal timestamps, request hashes and contents.
pub proof fn lemma_response_encoding_injective(
    ts1: u64,
    h1: Seq<u8>,
    c1: Option<Seq<u8>>,
    ts2: u64,
    h2: Seq<u8>,
    c2: Option<Seq<u8>>,
)
    requires
        h1.len() < 0x100000000,
        h2.len() < 0x100000000,
        c1 matches Some(c) ==> c.len() < 0x100000000,
        c2 matches Some(c) ==> c.len() < 0x100000000,
        response_encoding(ts1, h1, c1) == response_encoding(ts2, h2, c2),
    ensures
        ts1 == ts2,
        h1 == h2,
        c1 == c2,
{
    lemma_response_round_trip(ts1, h1, c1);
    lemma_response_round_trip(ts2, h2, c2);
}

/// Canonical request encodings are injective: equal wire bytes carry
/// equal timestamps, path hashes and forms.
pub proof fn lemma_request_encoding_injective(
    ts1: u64,
    h1: Seq<u8>,
    f1: Option<Seq<(Seq<u8>, Seq<u8>)>>,
    ts2: u64,
    h2: Seq<u8>,
    f2: Option<Seq<(Seq<u8>, Seq<u8>)>>,
)
    requires
        h1.len() < 0x100000000,
        h2.len() < 0x100000000,
        f1 matches Some(entries) ==> 0 < entries.len() < 0x10000 && (forall|i: int|
            0 <= i < entries.len() ==> (#[trigger] entries[i]).0.len() < 0x100000000
                && entries[i].1.len() < 0x100000000),
        f2 matches Some(entries) ==> 0 < entries.len() < 0x10000 && (forall|i: int|
            0 <= i < entries.len() ==> (#[trigger] entries[i]).0.len() < 0x100000000
                && entries[i].1.len() < 0x100000000),
        request_encoding(ts1, h1, f1) == request_encoding(ts2, h2, f2),
    ensures
        ts1 == ts2,
        h1 == h2,
        f1 == f2,
{
    lemma_request_round_trip(ts1, h1, f1);
    lemma_request_round_trip(ts2, h2, f2);
}

} // verus!
