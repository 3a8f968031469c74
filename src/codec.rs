//! Wire encoding of the message shapes.
//!
//! Integers are four little-endian bytes. A string is its UTF-8 length followed
//! by its UTF-8 bytes. Every message starts with one tag byte naming its variant.
use vstd::prelude::*;
use vstd::slice::{slice_subrange, slice_to_vec};
use vstd::string::StringSliceAdditionalSpecFns;
use vstd::utf8::{
    decode_utf8, decode_utf8_encode_utf8, encode_utf8, encode_utf8_decode_utf8,
    encode_utf8_valid_utf8, valid_utf8,
};

use crate::messages::{
    strings_view, Callback, CallbackV, ManagerMsg, ManagerMsgInternal, ManagerMsgInternalV,
    WorkerMsg, WorkerMsgV,
};

verus! {

/// The largest encoded message, in bytes.
pub const MAX_PAYLOAD: usize = 16777216;

// ---------------------------------------------------------------------------
// Encoding, as mathematics

/// Four little-endian bytes of `n`.
pub open spec fn le32(n: u32) -> Seq<u8> {
    seq![n as u8, (n >> 8u32) as u8, (n >> 16u32) as u8, (n >> 24u32) as u8]
}

/// The integer that four little-endian bytes stand for.
pub open spec fn le32_value(b0: u8, b1: u8, b2: u8, b3: u8) -> u32 {
    (b0 as u32) | ((b1 as u32) << 8u32) | ((b2 as u32) << 16u32) | ((b3 as u32) << 24u32)
}

/// A string's UTF-8 length fits in its length field.
pub open spec fn str_ok(s: Seq<char>) -> bool {
    encode_utf8(s).len() < 0x1_0000_0000
}

pub open spec fn enc_str(s: Seq<char>) -> Seq<u8> {
    le32(encode_utf8(s).len() as u32) + encode_utf8(s)
}

/// The strings of `v`, one after the other (without their count).
pub open spec fn enc_strs(v: Seq<Seq<char>>) -> Seq<u8>
    decreases v.len(),
{
    if v.len() == 0 {
        Seq::empty()
    } else {
        enc_strs(v.drop_last()) + enc_str(v.last())
    }
}

pub open spec fn strs_ok(v: Seq<Seq<char>>) -> bool {
    v.len() < 0x1_0000_0000 && forall|i: int| 0 <= i < v.len() ==> str_ok(#[trigger] v[i])
}

pub open spec fn enc_manager(m: ManagerMsg) -> Seq<u8> {
    match m {
        ManagerMsg::Connect => seq![0u8],
    }
}

pub open spec fn enc_callback(c: CallbackV) -> Seq<u8> {
    match c {
        CallbackV::Cookie(s) => seq![0u8] + enc_str(s),
        CallbackV::DisconnectedTokenExpired => seq![1u8],
        CallbackV::OnDisconnect => seq![2u8],
        CallbackV::OnUpdateResources(v) => seq![3u8] + le32(v.len() as u32) + enc_strs(v),
        CallbackV::TunnelReady => seq![4u8],
    }
}

pub open spec fn callback_ok(c: CallbackV) -> bool {
    match c {
        CallbackV::Cookie(s) => str_ok(s),
        CallbackV::OnUpdateResources(v) => strs_ok(v),
        _ => true,
    }
}

/// The bytes that stand for a worker message.
pub open spec fn enc_worker(w: WorkerMsgV) -> Seq<u8> {
    match w {
        WorkerMsgV::Callback(c) => seq![0u8] + enc_callback(c),
        WorkerMsgV::Response(m) => seq![1u8] + enc_manager(m),
    }
}

/// Every length in the message fits in its length field.
pub open spec fn worker_ok(w: WorkerMsgV) -> bool {
    match w {
        WorkerMsgV::Callback(c) => callback_ok(c),
        WorkerMsgV::Response(_) => true,
    }
}

/// The bytes that stand for a manager message.
pub open spec fn enc_internal(m: ManagerMsgInternalV) -> Seq<u8> {
    match m {
        ManagerMsgInternalV::Cookie(s) => seq![0u8] + enc_str(s),
        ManagerMsgInternalV::User(u) => seq![1u8] + enc_manager(u),
        ManagerMsgInternalV::Shutdown => seq![2u8],
    }
}

/// Every length in the message fits in its length field.
pub open spec fn internal_ok(m: ManagerMsgInternalV) -> bool {
    match m {
        ManagerMsgInternalV::Cookie(s) => str_ok(s),
        _ => true,
    }
}

// ---------------------------------------------------------------------------
// Decoding, as mathematics: what is read at position `p` of `b`, and where
// reading stops.

/// `e` stands in `b` from position `p` on.
pub open spec fn at(b: Seq<u8>, p: int, e: Seq<u8>) -> bool {
    0 <= p && p + e.len() <= b.len() && b.subrange(p, p + e.len()) == e
}

pub open spec fn parse_le32(b: Seq<u8>, p: int) -> Option<u32> {
    if 0 <= p && p + 4 <= b.len() {
        Some(le32_value(b[p], b[p + 1], b[p + 2], b[p + 3]))
    } else {
        None
    }
}

pub open spec fn parse_str(b: Seq<u8>, p: int) -> Option<(Seq<char>, int)> {
    match parse_le32(b, p) {
        Some(n) => {
            let e = p + 4 + n;
            if e <= b.len() && valid_utf8(b.subrange(p + 4, e)) {
                Some((decode_utf8(b.subrange(p + 4, e)), e))
            } else {
                None
            }
        },
        None => None,
    }
}

pub open spec fn parse_strs(b: Seq<u8>, p: int, n: nat) -> Option<(Seq<Seq<char>>, int)>
    decreases n,
{
    if n == 0 {
        Some((Seq::empty(), p))
    } else {
        match parse_strs(b, p, (n - 1) as nat) {
            Some((v, q)) => match parse_str(b, q) {
                Some((s, r)) => Some((v.push(s), r)),
                None => None,
            },
            None => None,
        }
    }
}

pub open spec fn parse_manager(b: Seq<u8>, p: int) -> Option<(ManagerMsg, int)> {
    if 0 <= p < b.len() && b[p] == 0 {
        Some((ManagerMsg::Connect, p + 1))
    } else {
        None
    }
}

pub open spec fn parse_callback(b: Seq<u8>, p: int) -> Option<(CallbackV, int)> {
    if 0 <= p < b.len() {
        let t = b[p];
        if t == 0 {
            match parse_str(b, p + 1) {
                Some((s, q)) => Some((CallbackV::Cookie(s), q)),
                None => None,
            }
        } else if t == 1 {
            Some((CallbackV::DisconnectedTokenExpired, p + 1))
        } else if t == 2 {
            Some((CallbackV::OnDisconnect, p + 1))
        } else if t == 3 {
            match parse_le32(b, p + 1) {
                Some(n) => match parse_strs(b, p + 5, n as nat) {
                    Some((v, q)) => Some((CallbackV::OnUpdateResources(v), q)),
                    None => None,
                },
                None => None,
            }
        } else if t == 4 {
            Some((CallbackV::TunnelReady, p + 1))
        } else {
            None
        }
    } else {
        None
    }
}

pub open spec fn parse_worker(b: Seq<u8>, p: int) -> Option<(WorkerMsgV, int)> {
    if 0 <= p < b.len() {
        if b[p] == 0 {
            match parse_callback(b, p + 1) {
                Some((c, q)) => Some((WorkerMsgV::Callback(c), q)),
                None => None,
            }
        } else if b[p] == 1 {
            match parse_manager(b, p + 1) {
                Some((m, q)) => Some((WorkerMsgV::Response(m), q)),
                None => None,
            }
        } else {
            None
        }
    } else {
        None
    }
}

pub open spec fn parse_internal(b: Seq<u8>, p: int) -> Option<(ManagerMsgInternalV, int)> {
    if 0 <= p < b.len() {
        if b[p] == 0 {
            match parse_str(b, p + 1) {
                Some((s, q)) => Some((ManagerMsgInternalV::Cookie(s), q)),
                None => None,
            }
        } else if b[p] == 1 {
            match parse_manager(b, p + 1) {
                Some((m, q)) => Some((ManagerMsgInternalV::User(m), q)),
                None => None,
            }
        } else if b[p] == 2 {
            Some((ManagerMsgInternalV::Shutdown, p + 1))
        } else {
            None
        }
    } else {
        None
    }
}

// ---------------------------------------------------------------------------
// Reading what was written gives it back, and only what was written is read.

pub proof fn lemma_le32_value_of_bytes(n: u32)
    ensures
        le32_value(n as u8, (n >> 8u32) as u8, (n >> 16u32) as u8, (n >> 24u32) as u8) == n,
{
    assert(((n as u8) as u32) | ((((n >> 8u32) as u8) as u32) << 8u32) | ((((n >> 16u32) as u8)
        as u32) << 16u32) | ((((n >> 24u32) as u8) as u32) << 24u32) == n) by (bit_vector);
}

pub proof fn lemma_bytes_of_le32_value(b0: u8, b1: u8, b2: u8, b3: u8)
    ensures
        le32(le32_value(b0, b1, b2, b3)) == seq![b0, b1, b2, b3],
{
    let n = le32_value(b0, b1, b2, b3);
    assert(n as u8 == b0 && (n >> 8u32) as u8 == b1 && (n >> 16u32) as u8 == b2 && (n >> 24u32)
        as u8 == b3) by (bit_vector)
        requires
            n == (b0 as u32) | ((b1 as u32) << 8u32) | ((b2 as u32) << 16u32) | ((b3 as u32)
                << 24u32),
    ;
    assert(le32(n) =~= seq![b0, b1, b2, b3]);
}

proof fn lemma_at_concat(b: Seq<u8>, p: int, x: Seq<u8>, y: Seq<u8>)
    ensures
        at(b, p, x + y) <==> (at(b, p, x) && at(b, p + x.len(), y)),
{
    if at(b, p, x + y) {
        assert(b.subrange(p, p + x.len()) =~= (x + y).subrange(0, x.len() as int));
        assert(b.subrange(p + x.len(), p + x.len() + y.len()) =~= (x + y).subrange(
            x.len() as int,
            (x.len() + y.len()) as int,
        ));
        assert((x + y).subrange(0, x.len() as int) =~= x);
        assert((x + y).subrange(x.len() as int, (x.len() + y.len()) as int) =~= y);
    }
    if at(b, p, x) && at(b, p + x.len(), y) {
        assert(b.subrange(p, p + (x + y).len()) =~= b.subrange(p, p + x.len()) + b.subrange(
            p + x.len(),
            p + x.len() + y.len(),
        ));
    }
}

proof fn lemma_le32_at(b: Seq<u8>, p: int, n: u32)
    requires
        at(b, p, le32(n)),
    ensures
        parse_le32(b, p) == Some(n),
{
    assert(b[p] == le32(n)[0] && b[p + 1] == le32(n)[1] && b[p + 2] == le32(n)[2] && b[p + 3]
        == le32(n)[3]) by {
        assert(b.subrange(p, p + 4)[0] == b[p]);
        assert(b.subrange(p, p + 4)[1] == b[p + 1]);
        assert(b.subrange(p, p + 4)[2] == b[p + 2]);
        assert(b.subrange(p, p + 4)[3] == b[p + 3]);
    }
    lemma_le32_value_of_bytes(n);
}

proof fn lemma_le32_read(b: Seq<u8>, p: int)
    requires
        parse_le32(b, p) is Some,
    ensures
        at(b, p, le32(parse_le32(b, p)->0)),
{
    lemma_bytes_of_le32_value(b[p], b[p + 1], b[p + 2], b[p + 3]);
    assert(b.subrange(p, p + 4) =~= seq![b[p], b[p + 1], b[p + 2], b[p + 3]]);
}

proof fn lemma_parse_str_enc(b: Seq<u8>, p: int, s: Seq<char>)
    requires
        str_ok(s),
        at(b, p, enc_str(s)),
    ensures
        parse_str(b, p) == Some((s, p + enc_str(s).len())),
{
    let u = encode_utf8(s);
    lemma_at_concat(b, p, le32(u.len() as u32), u);
    lemma_le32_at(b, p, u.len() as u32);
    encode_utf8_valid_utf8(s);
    encode_utf8_decode_utf8(s);
}

proof fn lemma_parse_str_read(b: Seq<u8>, p: int)
    requires
        parse_str(b, p) is Some,
    ensures
        ({
            let (s, q) = parse_str(b, p)->0;
            str_ok(s) && at(b, p, enc_str(s)) && q == p + enc_str(s).len()
        }),
{
    let n = parse_le32(b, p)->0;
    let u = b.subrange(p + 4, p + 4 + n);
    lemma_le32_read(b, p);
    decode_utf8_encode_utf8(u);
    let s = decode_utf8(u);
    assert(encode_utf8(s) == u);
    lemma_at_concat(b, p, le32(n), u);
}

proof fn lemma_parse_strs_enc(b: Seq<u8>, p: int, v: Seq<Seq<char>>)
    requires
        forall|i: int| 0 <= i < v.len() ==> str_ok(#[trigger] v[i]),
        at(b, p, enc_strs(v)),
    ensures
        parse_strs(b, p, v.len()) == Some((v, p + enc_strs(v).len())),
    decreases v.len(),
{
    if v.len() > 0 {
        let w = v.drop_last();
        lemma_at_concat(b, p, enc_strs(w), enc_str(v.last()));
        assert forall|i: int| 0 <= i < w.len() implies str_ok(#[trigger] w[i]) by {
            assert(w[i] == v[i]);
        }
        lemma_parse_strs_enc(b, p, w);
        assert(str_ok(v[v.len() - 1]));
        lemma_parse_str_enc(b, p + enc_strs(w).len(), v.last());
        assert(w.push(v.last()) =~= v);
    }
}

proof fn lemma_parse_strs_read(b: Seq<u8>, p: int, n: nat)
    requires
        0 <= p <= b.len(),
        parse_strs(b, p, n) is Some,
    ensures
        ({
            let (v, q) = parse_strs(b, p, n)->0;
            v.len() == n && (forall|i: int| 0 <= i < v.len() ==> str_ok(#[trigger] v[i])) && at(
                b,
                p,
                enc_strs(v),
            ) && q == p + enc_strs(v).len()
        }),
    decreases n,
{
    if n == 0 {
        assert(b.subrange(p, p) =~= Seq::<u8>::empty());
    } else {
        lemma_parse_strs_read(b, p, (n - 1) as nat);
        let (w, q) = parse_strs(b, p, (n - 1) as nat)->0;
        lemma_parse_str_read(b, q);
        let (s, r) = parse_str(b, q)->0;
        let v = w.push(s);
        assert(v.drop_last() =~= w);
        lemma_at_concat(b, p, enc_strs(w), enc_str(s));
        assert forall|i: int| 0 <= i < v.len() implies str_ok(#[trigger] v[i]) by {
            if i < w.len() {
                assert(v[i] == w[i]);
            }
        }
    }
}

proof fn lemma_parse_manager(b: Seq<u8>, p: int, m: ManagerMsg)
    ensures
        at(b, p, enc_manager(m)) ==> parse_manager(b, p) == Some((m, p + 1)),
        parse_manager(b, p) == Some((m, p + 1)) ==> at(b, p, enc_manager(m)),
        parse_manager(b, p) is Some ==> parse_manager(b, p)->0 == (ManagerMsg::Connect, p + 1),
{
    if at(b, p, enc_manager(m)) {
        assert(b.subrange(p, p + 1)[0] == b[p]);
    }
    if parse_manager(b, p) is Some {
        assert(b.subrange(p, p + 1) =~= seq![0u8]);
    }
}

proof fn lemma_parse_callback_enc(b: Seq<u8>, p: int, c: CallbackV)
    requires
        callback_ok(c),
        at(b, p, enc_callback(c)),
    ensures
        parse_callback(b, p) == Some((c, p + enc_callback(c).len())),
{
    assert(b.subrange(p, p + 1)[0] == b[p]);
    match c {
        CallbackV::Cookie(s) => {
            lemma_at_concat(b, p, seq![0u8], enc_str(s));
            lemma_parse_str_enc(b, p + 1, s);
        },
        CallbackV::OnUpdateResources(v) => {
            lemma_at_concat(b, p, seq![3u8] + le32(v.len() as u32), enc_strs(v));
            lemma_at_concat(b, p, seq![3u8], le32(v.len() as u32));
            lemma_le32_at(b, p + 1, v.len() as u32);
            lemma_parse_strs_enc(b, p + 5, v);
        },
        _ => {
            assert(b.subrange(p, p + enc_callback(c).len())[0] == b[p]);
        },
    }
}

proof fn lemma_parse_callback_read(b: Seq<u8>, p: int)
    requires
        parse_callback(b, p) is Some,
    ensures
        ({
            let (c, q) = parse_callback(b, p)->0;
            callback_ok(c) && at(b, p, enc_callback(c)) && q == p + enc_callback(c).len()
        }),
{
    let (c, q) = parse_callback(b, p)->0;
    let t = b[p];
    assert(b.subrange(p, p + 1) =~= seq![t]);
    if t == 0 {
        lemma_parse_str_read(b, p + 1);
        let (s, _) = parse_str(b, p + 1)->0;
        lemma_at_concat(b, p, seq![0u8], enc_str(s));
    } else if t == 3 {
        let n = parse_le32(b, p + 1)->0;
        lemma_le32_read(b, p + 1);
        lemma_parse_strs_read(b, p + 5, n as nat);
        let (v, _) = parse_strs(b, p + 5, n as nat)->0;
        assert(v.len() == n);
        assert(v.len() as u32 == n);
        lemma_at_concat(b, p, seq![3u8], le32(n));
        lemma_at_concat(b, p, seq![3u8] + le32(n), enc_strs(v));
    }
}

proof fn lemma_parse_worker_enc(b: Seq<u8>, p: int, w: WorkerMsgV)
    requires
        worker_ok(w),
        at(b, p, enc_worker(w)),
    ensures
        parse_worker(b, p) == Some((w, p + enc_worker(w).len())),
{
    assert(b.subrange(p, p + 1)[0] == b[p]);
    match w {
        WorkerMsgV::Callback(c) => {
            lemma_at_concat(b, p, seq![0u8], enc_callback(c));
            lemma_parse_callback_enc(b, p + 1, c);
        },
        WorkerMsgV::Response(m) => {
            lemma_at_concat(b, p, seq![1u8], enc_manager(m));
            lemma_parse_manager(b, p + 1, m);
        },
    }
}

proof fn lemma_parse_worker_read(b: Seq<u8>, p: int)
    requires
        parse_worker(b, p) is Some,
    ensures
        ({
            let (w, q) = parse_worker(b, p)->0;
            worker_ok(w) && at(b, p, enc_worker(w)) && q == p + enc_worker(w).len()
        }),
{
    let t = b[p];
    assert(b.subrange(p, p + 1) =~= seq![t]);
    if t == 0 {
        lemma_parse_callback_read(b, p + 1);
        let (c, _) = parse_callback(b, p + 1)->0;
        lemma_at_concat(b, p, seq![0u8], enc_callback(c));
    } else {
        lemma_parse_manager(b, p + 1, ManagerMsg::Connect);
        lemma_at_concat(b, p, seq![1u8], enc_manager(ManagerMsg::Connect));
    }
}

proof fn lemma_parse_internal_enc(b: Seq<u8>, p: int, m: ManagerMsgInternalV)
    requires
        internal_ok(m),
        at(b, p, enc_internal(m)),
    ensures
        parse_internal(b, p) == Some((m, p + enc_internal(m).len())),
{
    assert(b.subrange(p, p + 1)[0] == b[p]);
    match m {
        ManagerMsgInternalV::Cookie(s) => {
            lemma_at_concat(b, p, seq![0u8], enc_str(s));
            lemma_parse_str_enc(b, p + 1, s);
        },
        ManagerMsgInternalV::User(u) => {
            lemma_at_concat(b, p, seq![1u8], enc_manager(u));
            lemma_parse_manager(b, p + 1, u);
        },
        ManagerMsgInternalV::Shutdown => {},
    }
}

proof fn lemma_parse_internal_read(b: Seq<u8>, p: int)
    requires
        parse_internal(b, p) is Some,
    ensures
        ({
            let (m, q) = parse_internal(b, p)->0;
            internal_ok(m) && at(b, p, enc_internal(m)) && q == p + enc_internal(m).len()
        }),
{
    let t = b[p];
    assert(b.subrange(p, p + 1) =~= seq![t]);
    if t == 0 {
        lemma_parse_str_read(b, p + 1);
        let (s, _) = parse_str(b, p + 1)->0;
        lemma_at_concat(b, p, seq![0u8], enc_str(s));
    } else if t == 1 {
        lemma_parse_manager(b, p + 1, ManagerMsg::Connect);
        lemma_at_concat(b, p, seq![1u8], enc_manager(ManagerMsg::Connect));
    }
}

proof fn lemma_enc_strs_take_len(v: Seq<Seq<char>>, j: int)
    requires
        0 <= j <= v.len(),
    ensures
        enc_strs(v.take(j)).len() <= enc_strs(v).len(),
    decreases v.len(),
{
    if j < v.len() {
        assert(v.drop_last().take(j) =~= v.take(j));
        lemma_enc_strs_take_len(v.drop_last(), j);
    } else {
        assert(v.take(j) =~= v);
    }
}

proof fn lemma_enc_strs_len(v: Seq<Seq<char>>)
    ensures
        enc_strs(v).len() >= 4 * v.len(),
    decreases v.len(),
{
    if v.len() > 0 {
        lemma_enc_strs_len(v.drop_last());
    }
}

proof fn lemma_parse_strs_none(b: Seq<u8>, p: int, k: nat, n: nat)
    requires
        k <= n,
        parse_strs(b, p, k) is None,
    ensures
        parse_strs(b, p, n) is None,
    decreases n - k,
{
    if k < n {
        lemma_parse_strs_none(b, p, k + 1, n);
    }
}

/// Decoding is exact: two messages with the same bytes are the same message.
pub proof fn lemma_worker_encoding_injective(a: WorkerMsgV, b: WorkerMsgV)
    requires
        worker_ok(a),
        worker_ok(b),
        enc_worker(a) == enc_worker(b),
    ensures
        a == b,
{
    let e = enc_worker(a);
    assert(e.subrange(0, e.len() as int) =~= e);
    lemma_parse_worker_enc(e, 0, a);
    lemma_parse_worker_enc(e, 0, b);
}

/// Decoding is exact: two messages with the same bytes are the same message.
pub proof fn lemma_internal_encoding_injective(a: ManagerMsgInternalV, b: ManagerMsgInternalV)
    requires
        internal_ok(a),
        internal_ok(b),
        enc_internal(a) == enc_internal(b),
    ensures
        a == b,
{
    let e = enc_internal(a);
    assert(e.subrange(0, e.len() as int) =~= e);
    lemma_parse_internal_enc(e, 0, a);
    lemma_parse_internal_enc(e, 0, b);
}

// ---------------------------------------------------------------------------
// Writing

/// Relies on String::from_utf8: it succeeds exactly on valid UTF-8, and the
/// string then holds the characters that the bytes encode.
#[verifier::external_body]
fn string_from_utf8(v: Vec<u8>) -> (r: Option<String>)
    ensures
        r is Some <==> valid_utf8(v@),
        r matches Some(s) ==> s@ == decode_utf8(v@),
{
    String::from_utf8(v).ok()
}

fn put_le32(out: &mut Vec<u8>, n: u32)
    ensures
        final(out)@ == old(out)@ + le32(n),
{
    out.push(n as u8);
    out.push((n >> 8u32) as u8);
    out.push((n >> 16u32) as u8);
    out.push((n >> 24u32) as u8);
    assert(out@ =~= old(out)@ + le32(n));
}

fn put_str(out: &mut Vec<u8>, s: &String) -> (ok: bool)
    requires
        old(out)@.len() <= MAX_PAYLOAD,
    ensures
        ok ==> final(out)@ == old(out)@ + enc_str(s@) && final(out)@.len() <= MAX_PAYLOAD && str_ok(s@),
        !ok ==> old(out)@.len() + enc_str(s@).len() > MAX_PAYLOAD,
{
    let bytes = s.as_str().as_bytes();
    assert(bytes@ == encode_utf8(s@));
    if MAX_PAYLOAD - out.len() < 4 || bytes.len() > MAX_PAYLOAD - out.len() - 4 {
        return false;
    }
    put_le32(out, bytes.len() as u32);
    let mut v = slice_to_vec(bytes);
    out.append(&mut v);
    true
}

fn put_strs(out: &mut Vec<u8>, v: &Vec<String>) -> (ok: bool)
    requires
        old(out)@.len() <= MAX_PAYLOAD,
    ensures
        ok ==> final(out)@ == old(out)@ + enc_strs(strings_view(v@)) && final(out)@.len() <= MAX_PAYLOAD
            && (forall|i: int| 0 <= i < v@.len() ==> str_ok(#[trigger] strings_view(v@)[i])),
        !ok ==> old(out)@.len() + enc_strs(strings_view(v@)).len() > MAX_PAYLOAD,
{
    let ghost sv = strings_view(v@);
    let mut i: usize = 0;
    while i < v.len()
        invariant
            0 <= i <= v@.len(),
            sv == strings_view(v@),
            out@ == old(out)@ + enc_strs(sv.take(i as int)),
            out@.len() <= MAX_PAYLOAD,
            forall|j: int| 0 <= j < i ==> str_ok(#[trigger] sv[j]),
        decreases v@.len() - i,
    {
        proof {
            assert(sv.take(i + 1).drop_last() =~= sv.take(i as int));
            assert(sv.take(i + 1).last() == sv[i as int]);
            lemma_enc_strs_take_len(sv, i + 1);
        }
        let ok = put_str(out, &v[i]);
        if !ok {
            return false;
        }
        i = i + 1;
    }
    assert(sv.take(i as int) =~= sv);
    true
}

fn put_callback(out: &mut Vec<u8>, c: &Callback) -> (ok: bool)
    requires
        old(out)@.len() <= MAX_PAYLOAD,
    ensures
        ok ==> final(out)@ == old(out)@ + enc_callback(c@) && final(out)@.len() <= MAX_PAYLOAD
            && callback_ok(c@),
        !ok ==> old(out)@.len() + enc_callback(c@).len() > MAX_PAYLOAD,
{
    if out.len() >= MAX_PAYLOAD {
        return false;
    }
    match c {
        Callback::Cookie(s) => {
            out.push(0u8);
            let ok = put_str(out, s);
            assert(old(out)@ + enc_callback(c@) =~= old(out)@.push(0u8) + enc_str(s@));
            ok
        },
        Callback::DisconnectedTokenExpired => {
            out.push(1u8);
            assert(out@ =~= old(out)@ + enc_callback(c@));
            true
        },
        Callback::OnDisconnect => {
            out.push(2u8);
            assert(out@ =~= old(out)@ + enc_callback(c@));
            true
        },
        Callback::OnUpdateResources(v) => {
            let ghost sv = strings_view(v@);
            proof {
                lemma_enc_strs_len(sv);
            }
            if MAX_PAYLOAD - out.len() < 5 || v.len() > MAX_PAYLOAD {
                return false;
            }
            out.push(3u8);
            put_le32(out, v.len() as u32);
            let ok = put_strs(out, v);
            assert(old(out)@ + enc_callback(c@) =~= old(out)@.push(3u8) + le32(v.len() as u32)
                + enc_strs(sv));
            ok
        },
        Callback::TunnelReady => {
            out.push(4u8);
            assert(out@ =~= old(out)@ + enc_callback(c@));
            true
        },
    }
}

/// The bytes of a worker message, or `None` where they would exceed
/// [`MAX_PAYLOAD`].
pub fn encode_worker(m: &WorkerMsg) -> (r: Option<Vec<u8>>)
    ensures
        r matches Some(b) ==> b@ == enc_worker(m@) && worker_ok(m@),
        r is None <==> enc_worker(m@).len() > MAX_PAYLOAD,
{
    let mut out: Vec<u8> = Vec::new();
    match m {
        WorkerMsg::Callback(c) => {
            out.push(0u8);
            if put_callback(&mut out, c) {
                assert(out@ =~= enc_worker(m@));
                Some(out)
            } else {
                None
            }
        },
        WorkerMsg::Response(req) => {
            out.push(1u8);
            out.push(0u8);
            assert(out@ =~= enc_worker(m@));
            Some(out)
        },
    }
}

/// The bytes of a manager message, or `None` where they would exceed
/// [`MAX_PAYLOAD`].
pub fn encode_internal(m: &ManagerMsgInternal) -> (r: Option<Vec<u8>>)
    ensures
        r matches Some(b) ==> b@ == enc_internal(m@) && internal_ok(m@),
        r is None <==> enc_internal(m@).len() > MAX_PAYLOAD,
{
    let mut out: Vec<u8> = Vec::new();
    match m {
        ManagerMsgInternal::Cookie(s) => {
            out.push(0u8);
            if put_str(&mut out, s) {
                assert(out@ =~= enc_internal(m@));
                Some(out)
            } else {
                None
            }
        },
        ManagerMsgInternal::User(req) => {
            out.push(1u8);
            out.push(0u8);
            assert(out@ =~= enc_internal(m@));
            Some(out)
        },
        ManagerMsgInternal::Shutdown => {
            out.push(2u8);
            assert(out@ =~= enc_internal(m@));
            Some(out)
        },
    }
}

// ---------------------------------------------------------------------------
// Reading

fn read_le32(b: &[u8], p: usize) -> (r: Option<u32>)
    ensures
        r == parse_le32(b@, p as int),
{
    if p <= b.len() && 4 <= b.len() - p {
        Some((b[p] as u32) | ((b[p + 1] as u32) << 8u32) | ((b[p + 2] as u32) << 16u32) | ((b[p
            + 3] as u32) << 24u32))
    } else {
        None
    }
}

fn read_str(b: &[u8], p: usize) -> (r: Option<(String, usize)>)
    ensures
        match r {
            Some((s, q)) => parse_str(b@, p as int) == Some((s@, q as int)),
            None => parse_str(b@, p as int) is None,
        },
{
    let n = match read_le32(b, p) {
        Some(n) => n,
        None => return None,
    };
    let len = b.len();
    assert(p + 4 <= len);
    let start = p + 4;
    if n as usize > b.len() - start {
        return None;
    }
    let end = start + n as usize;
    let bytes = slice_to_vec(slice_subrange(b, start, end));
    match string_from_utf8(bytes) {
        Some(s) => Some((s, end)),
        None => None,
    }
}

fn read_strs(b: &[u8], p: usize, n: u32) -> (r: Option<(Vec<String>, usize)>)
    requires
        p <= b@.len(),
    ensures
        match r {
            Some((v, q)) => parse_strs(b@, p as int, n as nat) == Some((strings_view(v@), q as int)),
            None => parse_strs(b@, p as int, n as nat) is None,
        },
{
    let mut out: Vec<String> = Vec::new();
    let mut pos: usize = p;
    let mut i: u32 = 0;
    assert(strings_view(out@) =~= Seq::<Seq<char>>::empty());
    while i < n
        invariant
            i <= n,
            parse_strs(b@, p as int, i as nat) == Some((strings_view(out@), pos as int)),
        decreases n - i,
    {
        match read_str(b, pos) {
            Some((s, q)) => {
                let ghost prev = out@;
                out.push(s);
                assert(strings_view(out@) =~= strings_view(prev).push(s@));
                pos = q;
            },
            None => {
                proof {
                    lemma_parse_strs_none(b@, p as int, (i + 1) as nat, n as nat);
                }
                return None;
            },
        }
        i = i + 1;
    }
    Some((out, pos))
}

fn read_manager(b: &[u8], p: usize) -> (r: Option<(ManagerMsg, usize)>)
    ensures
        match r {
            Some((m, q)) => parse_manager(b@, p as int) == Some((m, q as int)),
            None => parse_manager(b@, p as int) is None,
        },
{
    if p < b.len() && b[p] == 0 {
        Some((ManagerMsg::Connect, p + 1))
    } else {
        None
    }
}

fn read_callback(b: &[u8], p: usize) -> (r: Option<(Callback, usize)>)
    ensures
        match r {
            Some((c, q)) => parse_callback(b@, p as int) == Some((c@, q as int)),
            None => parse_callback(b@, p as int) is None,
        },
{
    if p >= b.len() {
        return None;
    }
    let t = b[p];
    if t == 0 {
        match read_str(b, p + 1) {
            Some((s, q)) => Some((Callback::Cookie(s), q)),
            None => None,
        }
    } else if t == 1 {
        Some((Callback::DisconnectedTokenExpired, p + 1))
    } else if t == 2 {
        Some((Callback::OnDisconnect, p + 1))
    } else if t == 3 {
        match read_le32(b, p + 1) {
            Some(n) => match read_strs(b, p + 5, n) {
                Some((v, q)) => Some((Callback::OnUpdateResources(v), q)),
                None => None,
            },
            None => None,
        }
    } else if t == 4 {
        Some((Callback::TunnelReady, p + 1))
    } else {
        None
    }
}

/// The worker message whose bytes are `b`, if there is one.
pub fn decode_worker(b: &[u8]) -> (r: Option<WorkerMsg>)
    ensures
        r matches Some(m) ==> enc_worker(m@) == b@ && worker_ok(m@),
        r is None <==> (forall|w: WorkerMsgV| worker_ok(w) ==> enc_worker(w) != b@),
{
    let parsed: Option<(WorkerMsg, usize)> = if b.len() == 0 {
        None
    } else if b[0] == 0 {
        match read_callback(b, 1) {
            Some((c, q)) => Some((WorkerMsg::Callback(c), q)),
            None => None,
        }
    } else if b[0] == 1 {
        match read_manager(b, 1) {
            Some((m, q)) => Some((WorkerMsg::Response(m), q)),
            None => None,
        }
    } else {
        None
    };
    assert(match parsed {
        Some((m, q)) => parse_worker(b@, 0) == Some((m@, q as int)),
        None => parse_worker(b@, 0) is None,
    });
    proof {
        if parse_worker(b@, 0) is Some {
            lemma_parse_worker_read(b@, 0);
        }
        assert forall|w: WorkerMsgV| worker_ok(w) && enc_worker(w) == b@ implies parse_worker(
            b@,
            0,
        ) == Some((w, b@.len() as int)) by {
            assert(b@.subrange(0, b@.len() as int) =~= b@);
            lemma_parse_worker_enc(b@, 0, w);
        }
    }
    match parsed {
        Some((m, q)) => {
            if q == b.len() {
                proof {
                    assert(b@.subrange(0, q as int) =~= b@);
                }
                Some(m)
            } else {
                None
            }
        },
        None => None,
    }
}

/// The manager message whose bytes are `b`, if there is one.
pub fn decode_internal(b: &[u8]) -> (r: Option<ManagerMsgInternal>)
    ensures
        r matches Some(m) ==> enc_internal(m@) == b@ && internal_ok(m@),
        r is None <==> (forall|m: ManagerMsgInternalV| internal_ok(m) ==> enc_internal(m) != b@),
{
    let parsed: Option<(ManagerMsgInternal, usize)> = if b.len() == 0 {
        None
    } else if b[0] == 0 {
        match read_str(b, 1) {
            Some((s, q)) => Some((ManagerMsgInternal::Cookie(s), q)),
            None => None,
        }
    } else if b[0] == 1 {
        match read_manager(b, 1) {
            Some((m, q)) => Some((ManagerMsgInternal::User(m), q)),
            None => None,
        }
    } else if b[0] == 2 {
        Some((ManagerMsgInternal::Shutdown, 1))
    } else {
        None
    };
    assert(match parsed {
        Some((m, q)) => parse_internal(b@, 0) == Some((m@, q as int)),
        None => parse_internal(b@, 0) is None,
    });
    proof {
        if parse_internal(b@, 0) is Some {
            lemma_parse_internal_read(b@, 0);
        }
        assert forall|m: ManagerMsgInternalV| internal_ok(m) && enc_internal(m) == b@ implies parse_internal(
            b@,
            0,
        ) == Some((m, b@.len() as int)) by {
            assert(b@.subrange(0, b@.len() as int) =~= b@);
            lemma_parse_internal_enc(b@, 0, m);
        }
    }
    match parsed {
        Some((m, q)) => {
            if q == b.len() {
                proof {
                    assert(b@.subrange(0, q as int) =~= b@);
                }
                Some(m)
            } else {
                None
            }
        },
        None => None,
    }
}

} // verus!
