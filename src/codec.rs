//! The call envelope: two discriminant bytes, the requesting account and the
//! name, laid out in the SCALE binary format.
use vstd::prelude::*;
use parity_scale_codec::Encode;

verus! {

/// Number of bytes in an account identifier.
pub const ACCOUNT_ID_LEN: usize = 32;

/// An account identifier: 32 raw bytes, encoded without a length prefix.
pub type AccountId = [u8; 32];

/// Little-endian bytes of `v` over `n` bytes.
pub open spec fn le_bytes(v: nat, n: nat) -> Seq<u8>
    decreases n,
{
    if n == 0 {
        Seq::empty()
    } else {
        seq![(v % 256) as u8] + le_bytes(v / 256, (n - 1) as nat)
    }
}

/// The number that little-endian bytes stand for.
pub open spec fn le_value(s: Seq<u8>) -> nat
    decreases s.len(),
{
    if s.len() == 0 {
        0
    } else {
        s[0] as nat + 256 * le_value(s.drop_first())
    }
}

/// The SCALE compact encoding of a 32-bit length.
pub open spec fn compact_u32(n: nat) -> Seq<u8> {
    if n < 0x40 {
        le_bytes(n * 4, 1)
    } else if n < 0x4000 {
        le_bytes(n * 4 + 1, 2)
    } else if n < 0x4000_0000 {
        le_bytes(n * 4 + 2, 4)
    } else {
        seq![3u8] + le_bytes(n, 4)
    }
}

/// Reads a canonical SCALE compact 32-bit number at the start of `s`:
/// its value and the number of bytes it takes.
pub open spec fn parse_compact(s: Seq<u8>) -> Option<(nat, nat)> {
    if s.len() == 0 {
        None
    } else if s[0] % 4 == 0 {
        Some(((s[0] / 4) as nat, 1))
    } else if s[0] % 4 == 1 {
        if s.len() < 2 {
            None
        } else {
            let x = le_value(s.subrange(0, 2)) / 4;
            if 0x40 <= x && x < 0x4000 { Some((x, 2)) } else { None }
        }
    } else if s[0] % 4 == 2 {
        if s.len() < 4 {
            None
        } else {
            let x = le_value(s.subrange(0, 4)) / 4;
            if 0x4000 <= x && x < 0x4000_0000 { Some((x, 4)) } else { None }
        }
    } else {
        if s[0] != 3 || s.len() < 5 {
            None
        } else {
            let x = le_value(s.subrange(1, 5));
            if 0x4000_0000 <= x { Some((x, 5)) } else { None }
        }
    }
}

/// The bytes of an envelope addressed to `(pallet_index, method_index)`.
pub open spec fn encode_call(pallet_index: u8, method_index: u8, account: Seq<u8>, name: Seq<u8>) -> Seq<u8> {
    seq![pallet_index, method_index] + account + compact_u32(name.len()) + name
}

/// What an envelope's bytes hold, or `None` where they do not follow the layout
/// exactly (too short, a non-canonical length, trailing bytes).
pub open spec fn parse_call(s: Seq<u8>) -> Option<(u8, u8, Seq<u8>, Seq<u8>)> {
    if s.len() < 2 + ACCOUNT_ID_LEN {
        None
    } else {
        match parse_compact(s.subrange(2 + ACCOUNT_ID_LEN, s.len() as int)) {
            Some((n, k)) => {
                if s.len() == 2 + ACCOUNT_ID_LEN + k + n {
                    Some((s[0], s[1], s.subrange(2, 2 + ACCOUNT_ID_LEN), s.subrange(2 + ACCOUNT_ID_LEN + k, s.len() as int)))
                } else {
                    None
                }
            },
            None => None,
        }
    }
}


/// `256` to the power `n`.
pub open spec fn pow256(n: nat) -> nat
    decreases n,
{
    if n == 0 { 1 } else { 256 * pow256((n - 1) as nat) }
}

proof fn lemma_le_round_trip(v: nat, n: nat)
    requires
        v < pow256(n),
    ensures
        le_bytes(v, n).len() == n,
        le_value(le_bytes(v, n)) == v,
    decreases n,
{
    if n > 0 {
        let q = v / 256;
        let np = (n - 1) as nat;
        assert(v == 256 * q + v % 256) by (nonlinear_arith) requires q == v / 256;
        assert(q < pow256(np)) by (nonlinear_arith)
            requires v < 256 * pow256(np), v == 256 * q + v % 256, v % 256 >= 0;
        lemma_le_round_trip(q, np);
        let s = le_bytes(v, n);
        assert(s.drop_first() =~= le_bytes(q, np));
    }
}

proof fn lemma_le_value_2(s: Seq<u8>)
    requires
        s.len() == 2,
    ensures
        le_value(s) == s[0] + 256 * s[1],
{
    assert(s.drop_first().drop_first().len() == 0);
    reveal_with_fuel(le_value, 3);
}

proof fn lemma_le_value_4(s: Seq<u8>)
    requires
        s.len() == 4,
    ensures
        le_value(s) == s[0] + 256 * s[1] + 65536 * s[2] + 16777216 * s[3],
{
    let t = s.drop_first().drop_first();
    assert(t.drop_first().drop_first().len() == 0);
    reveal_with_fuel(le_value, 5);
    assert(le_value(s) == s[0] + 256 * (s[1] + 256 * (s[2] + 256 * (s[3] + 0int))));
    assert(s[0] + 256 * (s[1] + 256 * (s[2] + 256 * (s[3] + 0int))) == s[0] + 256 * s[1] + 65536 * s[2]
        + 16777216 * s[3]) by (nonlinear_arith);
}

/// The first byte of `le_bytes(v, n)` is the low byte of `v`.
proof fn lemma_le_first(v: nat, n: nat)
    requires
        n > 0,
    ensures
        le_bytes(v, n)[0] == (v % 256) as u8,
{
}

/// Reading a compact length back gives the length and the number of bytes
/// that its encoding takes, whatever follows it.
pub proof fn lemma_compact_round_trip(n: nat, rest: Seq<u8>)
    requires
        n <= u32::MAX,
    ensures
        parse_compact(compact_u32(n) + rest) == Some((n, compact_u32(n).len())),
        1 <= compact_u32(n).len() <= 5,
{
    reveal_with_fuel(pow256, 5);
    let c = compact_u32(n);
    let s = c + rest;
    if n < 0x40 {
        lemma_le_round_trip(n * 4, 1);
        lemma_le_first(n * 4, 1);
        assert(s[0] == (n * 4) as u8);
        assert((n * 4) % 4 == 0 && (n * 4) / 4 == n) by (nonlinear_arith);
    } else if n < 0x4000 {
        let v = n * 4 + 1;
        lemma_le_round_trip(v, 2);
        lemma_le_first(v, 2);
        assert((v % 256) % 4 == 1) by (nonlinear_arith) requires v == n * 4 + 1;
        assert(v / 4 == n) by (nonlinear_arith) requires v == n * 4 + 1;
        assert(s.subrange(0, 2) =~= c);
    } else if n < 0x4000_0000 {
        let v = n * 4 + 2;
        lemma_le_round_trip(v, 4);
        lemma_le_first(v, 4);
        assert((v % 256) % 4 == 2) by (nonlinear_arith) requires v == n * 4 + 2;
        assert(v / 4 == n) by (nonlinear_arith) requires v == n * 4 + 2;
        assert(s.subrange(0, 4) =~= c);
    } else {
        lemma_le_round_trip(n, 4);
        assert(s[0] == 3u8);
        assert(s.subrange(1, 5) =~= le_bytes(n, 4));
    }
}

/// Decoding an encoded envelope gives back exactly the fields it was made from.
pub proof fn lemma_call_round_trip(pallet_index: u8, method_index: u8, account: Seq<u8>, name: Seq<u8>)
    requires
        account.len() == ACCOUNT_ID_LEN,
        name.len() <= u32::MAX,
    ensures
        parse_call(encode_call(pallet_index, method_index, account, name)) == Some(
            (pallet_index, method_index, account, name),
        ),
{
    let s = encode_call(pallet_index, method_index, account, name);
    let c = compact_u32(name.len());
    lemma_compact_round_trip(name.len(), name);
    let k = c.len();
    assert(s.subrange(2 + ACCOUNT_ID_LEN, s.len() as int) =~= c + name);
    assert(s.subrange(2, 2 + ACCOUNT_ID_LEN) =~= account);
    assert(s.subrange(2 + ACCOUNT_ID_LEN + k, s.len() as int) =~= name);
}

/// Relies on parity-scale-codec's `Encode` for a byte slice: the compact
/// length, then the bytes themselves. It panics above `u32::MAX` elements.
#[verifier::external_body]
fn scale_encode_bytes(b: &Vec<u8>) -> (r: Vec<u8>)
    requires
        b@.len() <= u32::MAX,
    ensures
        r@ == compact_u32(b@.len()) + b@,
{
    b.as_slice().encode()
}

/// A call addressed to a method of a pallet on another chain, made on behalf
/// of `account` with `name` as its argument.
#[derive(Clone, Debug)]
pub struct XregisterCall {
    pub call_index: [u8; 2],
    pub account: AccountId,
    pub name: Vec<u8>,
}

/// The bytes do not follow the envelope's layout.
#[derive(Clone, Copy, Debug, PartialEq, Eq, Structural)]
pub struct MalformedEnvelope;

impl XregisterCall {
    pub fn new(pallet_index: u8, method_index: u8, account: AccountId, name: Vec<u8>) -> (r: Self)
        ensures
            r.call_index@ == seq![pallet_index, method_index],
            r.account@ == account@,
            r.name@ == name@,
    {
        XregisterCall { call_index: [pallet_index, method_index], account, name }
    }

    /// The envelope's bytes, in the layout that `decode` reads.
    pub fn encode(&self) -> (r: Vec<u8>)
        requires
            self.name@.len() <= u32::MAX,
        ensures
            r@ == encode_call(self.call_index@[0], self.call_index@[1], self.account@, self.name@),
    {
        let mut out: Vec<u8> = Vec::new();
        out.push(self.call_index[0]);
        out.push(self.call_index[1]);
        let mut i: usize = 0;
        while i < ACCOUNT_ID_LEN
            invariant
                0 <= i <= ACCOUNT_ID_LEN,
                self.account@.len() == ACCOUNT_ID_LEN,
                out@ == seq![self.call_index@[0], self.call_index@[1]] + self.account@.subrange(0, i as int),
            decreases ACCOUNT_ID_LEN - i,
        {
            out.push(self.account[i]);
            i = i + 1;
            assert(out@ =~= seq![self.call_index@[0], self.call_index@[1]] + self.account@.subrange(0, i as int));
        }
        assert(self.account@.subrange(0, ACCOUNT_ID_LEN as int) =~= self.account@);
        let tail = scale_encode_bytes(&self.name);
        let mut j: usize = 0;
        let ghost head = out@;
        while j < tail.len()
            invariant
                0 <= j <= tail@.len(),
                out@ == head + tail@.subrange(0, j as int),
            decreases tail@.len() - j,
        {
            out.push(tail[j]);
            j = j + 1;
            assert(out@ =~= head + tail@.subrange(0, j as int));
        }
        assert(tail@.subrange(0, tail@.len() as int) =~= tail@);
        assert(out@ =~= encode_call(self.call_index@[0], self.call_index@[1], self.account@, self.name@));
        out
    }

    /// Reads an envelope back from its bytes.
    pub fn decode(bytes: &Vec<u8>) -> (r: Result<XregisterCall, MalformedEnvelope>)
        ensures
            match parse_call(bytes@) {
                Some((p, m, a, n)) => r matches Ok(c) && c.call_index@ == seq![p, m] && c.account@ == a
                    && c.name@ == n,
                None => r is Err,
            },
    {
        if bytes.len() < 2 + ACCOUNT_ID_LEN {
            return Err(MalformedEnvelope);
        }
        let (n, k) = match decode_compact(bytes, 2 + ACCOUNT_ID_LEN) {
            Some(p) => p,
            None => { return Err(MalformedEnvelope); },
        };
        if bytes.len() - (2 + ACCOUNT_ID_LEN) - k != n as usize {
            return Err(MalformedEnvelope);
        }
        let mut account: [u8; 32] = [0u8; 32];
        let mut i: usize = 0;
        while i < ACCOUNT_ID_LEN
            invariant
                0 <= i <= ACCOUNT_ID_LEN,
                bytes@.len() >= 2 + ACCOUNT_ID_LEN,
                account@.len() == ACCOUNT_ID_LEN,
                account@.subrange(0, i as int) == bytes@.subrange(2, 2 + i),
            decreases ACCOUNT_ID_LEN - i,
        {
            account[i] = bytes[2 + i];
            i = i + 1;
            assert(account@.subrange(0, i as int) =~= bytes@.subrange(2, 2 + i));
        }
        assert(account@.subrange(0, ACCOUNT_ID_LEN as int) =~= account@);
        let start: usize = 2 + ACCOUNT_ID_LEN + k;
        let mut name: Vec<u8> = Vec::new();
        let mut j: usize = start;
        while j < bytes.len()
            invariant
                start <= j <= bytes@.len(),
                name@ == bytes@.subrange(start as int, j as int),
            decreases bytes@.len() - j,
        {
            name.push(bytes[j]);
            j = j + 1;
            assert(name@ =~= bytes@.subrange(start as int, j as int));
        }
        Ok(XregisterCall { call_index: [bytes[0], bytes[1]], account, name })
    }
}

/// Reads a canonical SCALE compact 32-bit number at `pos`: its value and the
/// number of bytes it takes.
fn decode_compact(bytes: &Vec<u8>, pos: usize) -> (r: Option<(u32, usize)>)
    requires
        pos <= bytes@.len(),
    ensures
        match parse_compact(bytes@.subrange(pos as int, bytes@.len() as int)) {
            Some((v, k)) => r == Some((v as u32, k as usize)) && v <= u32::MAX,
            None => r is None,
        },
{
    let ghost s = bytes@.subrange(pos as int, bytes@.len() as int);
    let avail = bytes.len() - pos;
    if avail == 0 {
        return None;
    }
    let b0 = bytes[pos];
    if b0 % 4 == 0 {
        Some(((b0 / 4) as u32, 1))
    } else if b0 % 4 == 1 {
        if avail < 2 {
            return None;
        }
        proof { lemma_le_value_2(s.subrange(0, 2)); }
        let v: u32 = b0 as u32 + 256 * (bytes[pos + 1] as u32);
        let x = v / 4;
        if 0x40 <= x && x < 0x4000 { Some((x, 2)) } else { None }
    } else if b0 % 4 == 2 {
        if avail < 4 {
            return None;
        }
        proof { lemma_le_value_4(s.subrange(0, 4)); }
        let v: u64 = b0 as u64 + 256 * (bytes[pos + 1] as u64) + 65536 * (bytes[pos + 2] as u64)
            + 16777216 * (bytes[pos + 3] as u64);
        let x = v / 4;
        if 0x4000 <= x && x < 0x4000_0000 { Some((x as u32, 4)) } else { None }
    } else {
        if b0 != 3 || avail < 5 {
            return None;
        }
        proof { lemma_le_value_4(s.subrange(1, 5)); }
        let x: u64 = bytes[pos + 1] as u64 + 256 * (bytes[pos + 2] as u64) + 65536 * (bytes[pos + 3] as u64)
            + 16777216 * (bytes[pos + 4] as u64);
        if 0x4000_0000 <= x { Some((x as u32, 5)) } else { None }
    }
}

} // verus!
