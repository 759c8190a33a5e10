use vstd::prelude::*;

use crate::error::Error;

verus! {

/// The little-endian value of a byte sequence: the first byte is the least
/// significant.
pub open spec fn spec_le(s: Seq<u8>) -> nat
    decreases s.len(),
{
    if s.len() == 0 {
        0
    } else {
        s[0] as nat + 256 * spec_le(s.skip(1))
    }
}

/// 256 raised to the power `n`: the weight of the byte at position `n` in a
/// little-endian sequence.
pub open spec fn pow256(n: nat) -> nat
    decreases n,
{
    if n == 0 {
        1
    } else {
        256 * pow256((n - 1) as nat)
    }
}

/// Concatenation splits a little-endian value into a low and a high part.
pub proof fn lemma_le_concat(a: Seq<u8>, b: Seq<u8>)
    ensures
        spec_le(a + b) == spec_le(a) + pow256(a.len()) * spec_le(b),
    decreases a.len(),
{
    if a.len() == 0 {
        assert(a + b =~= b);
        assert(spec_le(a) == 0);
        assert(pow256(0) == 1);
    } else {
        assert((a + b)[0] == a[0]);
        assert((a + b).skip(1) =~= a.skip(1) + b);
        lemma_le_concat(a.skip(1), b);
        assert(spec_le(a + b) == a[0] + 256 * (spec_le(a.skip(1)) + pow256((a.len() - 1) as nat)
            * spec_le(b)));
        assert(spec_le(a) == a[0] + 256 * spec_le(a.skip(1)));
        assert(pow256(a.len()) == 256 * pow256((a.len() - 1) as nat));
        assert(spec_le(a + b) == spec_le(a) + pow256(a.len()) * spec_le(b)) by (nonlinear_arith)
            requires
                spec_le(a + b) == a[0] + 256 * (spec_le(a.skip(1)) + pow256(
                    (a.len() - 1) as nat,
                ) * spec_le(b)),
                spec_le(a) == a[0] + 256 * spec_le(a.skip(1)),
                pow256(a.len()) == 256 * pow256((a.len() - 1) as nat),
        {}
    }
}

/// Splitting at position `k` splits a little-endian value into a low and a
/// high part.
pub proof fn lemma_le_split(s: Seq<u8>, k: int)
    requires
        0 <= k <= s.len(),
    ensures
        spec_le(s) == spec_le(s.take(k)) + pow256(k as nat) * spec_le(s.skip(k)),
{
    assert(s =~= s.take(k) + s.skip(k));
    lemma_le_concat(s.take(k), s.skip(k));
}

/// The little-endian value of a single byte is the byte itself.
pub proof fn lemma_le1(s: Seq<u8>)
    requires
        s.len() == 1,
    ensures
        spec_le(s) == s[0],
{
    assert(s.skip(1) =~= Seq::<u8>::empty());
    assert(spec_le(Seq::<u8>::empty()) == 0);
}

/// Reading a width-`n` field at offset `a`: the bytes it covers, and the
/// bytes that follow it.
pub proof fn lemma_skip_take(s: Seq<u8>, a: int, n: int)
    requires
        0 <= a,
        0 <= n,
        a + n <= s.len(),
    ensures
        s.skip(a).take(n) == s.subrange(a, a + n),
        s.skip(a).skip(n) == s.skip(a + n),
{
    assert(s.skip(a).take(n) =~= s.subrange(a, a + n));
    assert(s.skip(a).skip(n) =~= s.skip(a + n));
}

/// The little-endian value of two bytes, written out.
pub proof fn lemma_le2(s: Seq<u8>)
    requires
        s.len() == 2,
    ensures
        spec_le(s) == s[0] + 256 * (s[1] as nat),
{
    assert(s.skip(1) =~= seq![s[1]]);
    assert(seq![s[1]].skip(1) =~= Seq::<u8>::empty());
    assert(spec_le(Seq::<u8>::empty()) == 0);
    assert(spec_le(seq![s[1]]) == s[1] as nat);
}

/// The little-endian value of four bytes, written out.
pub proof fn lemma_le4(s: Seq<u8>)
    requires
        s.len() == 4,
    ensures
        spec_le(s) == s[0] + 0x100 * (s[1] as nat) + 0x10000 * (s[2] as nat) + 0x1000000 * (
        s[3] as nat),
{
    lemma_le_split(s, 2);
    lemma_le2(s.take(2));
    lemma_le2(s.skip(2));
    assert(pow256(2) == 0x10000) by {
        reveal_with_fuel(pow256, 3);
    }
    assert(s.take(2)[0] == s[0] && s.take(2)[1] == s[1]);
    assert(s.skip(2)[0] == s[2] && s.skip(2)[1] == s[3]);
    assert(spec_le(s) == spec_le(s.take(2)) + 0x10000 * spec_le(s.skip(2)));
    assert(spec_le(s.take(2)) == s[0] + 0x100 * (s[1] as nat));
    assert(spec_le(s.skip(2)) == s[2] + 0x100 * (s[3] as nat));
    assert(0x10000 * (s[2] as nat + 0x100 * (s[3] as nat)) == 0x10000 * (s[2] as nat) + 0x1000000
        * (s[3] as nat));
}

/// A sequential byte source. It consumes an owned buffer front to back,
/// exactly as many bytes as each read asks for; it never seeks back.
pub struct ByteReader {
    data: Vec<u8>,
    pos: usize,
}

impl ByteReader {
    /// The bytes not yet consumed.
    pub closed spec fn remaining(self) -> Seq<u8> {
        self.data@.skip(self.pos as int)
    }

    /// The cursor never points past the end of the buffer.
    pub closed spec fn wf(self) -> bool {
        self.pos <= self.data@.len()
    }

    /// Wrap a buffer; nothing is consumed yet.
    pub fn new(data: Vec<u8>) -> (r: ByteReader)
        ensures
            r.wf(),
            r.remaining() == data@,
    {
        let r = ByteReader { data, pos: 0 };
        proof {
            assert(r.remaining() =~= r.data@);
        }
        r
    }
}

/// Consume exactly `n` bytes, or fail without consuming anything when fewer
/// remain. A short input is never zero-padded, and nothing is allocated in
/// proportion to a length the input cannot back.
pub fn read_bytes(reader: &mut ByteReader, n: usize) -> (r: Result<Vec<u8>, Error>)
    requires
        old(reader).wf(),
    ensures
        final(reader).wf(),
        match r {
            Ok(v) => {
                &&& old(reader).remaining().len() >= n
                &&& v@ == old(reader).remaining().take(n as int)
                &&& final(reader).remaining() == old(reader).remaining().skip(n as int)
            },
            Err(e) => {
                &&& e matches Error::Truncated
                &&& old(reader).remaining().len() < n
                &&& *final(reader) == *old(reader)
            },
        },
{
    if n > reader.data.len() - reader.pos {
        return Err(Error::Truncated);
    }
    let ghost orig = *reader;
    let mut v: Vec<u8> = Vec::new();
    let mut i: usize = 0;
    while i < n
        invariant
            *reader == orig,
            reader.wf(),
            i <= n,
            n <= reader.data@.len() - reader.pos,
            v@ == reader.data@.subrange(reader.pos as int, reader.pos + i),
        decreases n - i,
    {
        let l = reader.data.len();
        proof {
            assert(reader.pos + i < l);
        }
        let b = reader.data[reader.pos + i];
        v.push(b);
        proof {
            assert(v@ =~= reader.data@.subrange(reader.pos as int, reader.pos + i + 1));
        }
        i += 1;
    }
    proof {
        assert(v@ =~= old(reader).remaining().take(n as int));
        assert(reader.data@.skip(reader.pos + n) =~= old(reader).remaining().skip(n as int));
    }
    reader.pos = reader.pos + n;
    Ok(v)
}

/// Read one byte.
pub fn read_u8(reader: &mut ByteReader) -> (r: Result<u8, Error>)
    requires
        old(reader).wf(),
    ensures
        final(reader).wf(),
        match r {
            Ok(b) => {
                &&& old(reader).remaining().len() >= 1
                &&& b == old(reader).remaining()[0]
                &&& final(reader).remaining() == old(reader).remaining().skip(1)
            },
            Err(e) => {
                &&& e matches Error::Truncated
                &&& old(reader).remaining().len() < 1
                &&& *final(reader) == *old(reader)
            },
        },
{
    match read_bytes(reader, 1) {
        Ok(v) => Ok(v[0]),
        Err(e) => Err(e),
    }
}

/// Read a 16-bit little-endian unsigned integer.
pub fn read_u16(reader: &mut ByteReader) -> (r: Result<u16, Error>)
    requires
        old(reader).wf(),
    ensures
        final(reader).wf(),
        match r {
            Ok(v) => {
                &&& old(reader).remaining().len() >= 2
                &&& v as nat == spec_le(old(reader).remaining().take(2))
                &&& final(reader).remaining() == old(reader).remaining().skip(2)
            },
            Err(e) => {
                &&& e matches Error::Truncated
                &&& old(reader).remaining().len() < 2
                &&& *final(reader) == *old(reader)
            },
        },
{
    match read_bytes(reader, 2) {
        Ok(v) => {
            proof {
                lemma_le2(old(reader).remaining().take(2));
            }
            Ok(v[0] as u16 + v[1] as u16 * 0x100)
        },
        Err(e) => Err(e),
    }
}

/// Read a 32-bit little-endian unsigned integer.
pub fn read_u32(reader: &mut ByteReader) -> (r: Result<u32, Error>)
    requires
        old(reader).wf(),
    ensures
        final(reader).wf(),
        match r {
            Ok(v) => {
                &&& old(reader).remaining().len() >= 4
                &&& v as nat == spec_le(old(reader).remaining().take(4))
                &&& final(reader).remaining() == old(reader).remaining().skip(4)
            },
            Err(e) => {
                &&& e matches Error::Truncated
                &&& old(reader).remaining().len() < 4
                &&& *final(reader) == *old(reader)
            },
        },
{
    match read_bytes(reader, 4) {
        Ok(v) => {
            proof {
                lemma_le4(old(reader).remaining().take(4));
            }
            Ok(
                v[0] as u32 + v[1] as u32 * 0x100 + v[2] as u32 * 0x10000 + v[3] as u32
                    * 0x1000000,
            )
        },
        Err(e) => Err(e),
    }
}

/// Read a 128-bit little-endian unsigned integer.
pub fn read_u128(reader: &mut ByteReader) -> (r: Result<u128, Error>)
    requires
        old(reader).wf(),
    ensures
        final(reader).wf(),
        match r {
            Ok(v) => {
                &&& old(reader).remaining().len() >= 16
                &&& v as nat == spec_le(old(reader).remaining().take(16))
                &&& final(reader).remaining() == old(reader).remaining().skip(16)
            },
            Err(e) => {
                &&& e matches Error::Truncated
                &&& old(reader).remaining().len() < 16
                &&& *final(reader) == *old(reader)
            },
        },
{
    match read_bytes(reader, 16) {
        Ok(v) => {
            proof {
                let s = old(reader).remaining().take(16);
                assert(s.skip(4).skip(4) =~= s.skip(8));
                assert(s.skip(8).skip(4) =~= s.skip(12));
                lemma_le_split(s, 4);
                lemma_le_split(s.skip(4), 4);
                lemma_le_split(s.skip(8), 4);
                lemma_le4(s.take(4));
                lemma_le4(s.skip(4).take(4));
                lemma_le4(s.skip(8).take(4));
                lemma_le4(s.skip(12));
                assert(pow256(4) == 0x1_0000_0000) by {
                    reveal_with_fuel(pow256, 5);
                }
                assert(s.take(4)[0] == s[0] && s.take(4)[1] == s[1] && s.take(4)[2] == s[2]
                    && s.take(4)[3] == s[3]);
                assert(s.skip(4).take(4)[0] == s[4] && s.skip(4).take(4)[1] == s[5] && s.skip(
                    4,
                ).take(4)[2] == s[6] && s.skip(4).take(4)[3] == s[7]);
                assert(s.skip(8).take(4)[0] == s[8] && s.skip(8).take(4)[1] == s[9] && s.skip(
                    8,
                ).take(4)[2] == s[10] && s.skip(8).take(4)[3] == s[11]);
                assert(s.skip(12)[0] == s[12] && s.skip(12)[1] == s[13] && s.skip(12)[2] == s[14]
                    && s.skip(12)[3] == s[15]);
                let n0 = spec_le(s.take(4));
                let n1 = spec_le(s.skip(4).take(4));
                let n2 = spec_le(s.skip(8).take(4));
                let n3 = spec_le(s.skip(12));
                assert(spec_le(s.skip(8)) == n2 + 0x1_0000_0000 * n3);
                assert(spec_le(s.skip(4)) == n1 + 0x1_0000_0000 * n2
                    + 0x1_0000_0000_0000_0000 * n3);
                assert(spec_le(s) == n0 + 0x1_0000_0000 * spec_le(s.skip(4)));
                assert(spec_le(s) == n0 + 0x1_0000_0000 * n1 + 0x1_0000_0000_0000_0000 * n2
                    + 0x1_0000_0000_0000_0000_0000_0000 * n3) by (nonlinear_arith)
                    requires
                        spec_le(s) == n0 + 0x1_0000_0000 * spec_le(s.skip(4)),
                        spec_le(s.skip(4)) == n1 + 0x1_0000_0000 * n2 + 0x1_0000_0000_0000_0000
                            * n3,
                {}
            }
            let w0 = v[0] as u128 + v[1] as u128 * 0x100 + v[2] as u128 * 0x10000 + v[3] as u128
                * 0x1000000;
            let w1 = v[4] as u128 + v[5] as u128 * 0x100 + v[6] as u128 * 0x10000 + v[7] as u128
                * 0x1000000;
            let w2 = v[8] as u128 + v[9] as u128 * 0x100 + v[10] as u128 * 0x10000 + v[11] as u128
                * 0x1000000;
            let w3 = v[12] as u128 + v[13] as u128 * 0x100 + v[14] as u128 * 0x10000
                + v[15] as u128 * 0x1000000;
            Ok(
                w0 + w1 * 0x1_0000_0000 + w2 * 0x1_0000_0000_0000_0000 + w3
                    * 0x1_0000_0000_0000_0000_0000_0000,
            )
        },
        Err(e) => Err(e),
    }
}

/// What `str::to_lowercase` returns: a fixed function of the characters
/// alone, the same in every process and on every machine.
pub uninterp spec fn lower_of(s: Seq<char>) -> Seq<char>;

/// Relies on `str::to_lowercase`: the result depends on the input characters
/// alone.
#[verifier::external_body]
fn lowercase(s: &str) -> (r: String)
    ensures
        r@ == lower_of(s@),
{
    s.to_lowercase()
}

/// Two character sequences are equal up to case.
pub open spec fn spec_eq_ignore_case(a: Seq<char>, b: Seq<char>) -> bool {
    a == b || lower_of(a) == lower_of(b)
}

/// Performs a case-insensitive string comparison.
pub fn string_eq_ignore_case(a: &str, b: &str) -> (r: bool)
    ensures
        r == spec_eq_ignore_case(a@, b@),
{
    let la = lowercase(a);
    let lb = lowercase(b);
    la == lb
}

/// What `String::from_utf8_lossy` returns: a fixed function of the bytes
/// alone, the same in every process and on every machine.
pub uninterp spec fn lossy_text(bytes: Seq<u8>) -> Seq<char>;

/// Relies on `String::from_utf8_lossy`: valid UTF-8 decodes exactly, invalid
/// sequences are replaced with the replacement character instead of failing,
/// and the result depends on the input bytes alone.
#[verifier::external_body]
fn utf8_lossy(bytes: &Vec<u8>) -> (r: String)
    ensures
        r@ == lossy_text(bytes@),
        vstd::utf8::valid_utf8(bytes@) ==> r@ == vstd::utf8::decode_utf8(bytes@),
{
    String::from_utf8_lossy(bytes.as_slice()).into_owned()
}

/// Read exactly `n` raw bytes and decode them leniently as text: invalid
/// byte sequences become replacement characters, never a failure.
pub fn read_string(reader: &mut ByteReader, n: usize) -> (r: Result<String, Error>)
    requires
        old(reader).wf(),
    ensures
        final(reader).wf(),
        match r {
            Ok(s) => {
                &&& old(reader).remaining().len() >= n
                &&& s@ == lossy_text(old(reader).remaining().take(n as int))
                &&& final(reader).remaining() == old(reader).remaining().skip(n as int)
            },
            Err(e) => {
                &&& e matches Error::Truncated
                &&& old(reader).remaining().len() < n
                &&& *final(reader) == *old(reader)
            },
        },
{
    match read_bytes(reader, n) {
        Ok(v) => Ok(utf8_lossy(&v)),
        Err(e) => Err(e),
    }
}

} // verus!
