//! Little-endian PTP dataset fields: integers, arrays and PTP strings.

use vstd::prelude::*;

use crate::error::Error;
use crate::utf16::{encode_utf16, string_from_utf16_lossy, utf16_decode_lossy, utf16_encode};

verus! {

/// The `u16` stored little-endian at `b[i]`, `b[i + 1]`.
pub open spec fn le_u16(b: Seq<u8>, i: int) -> u16 {
    (b[i] as int + 256 * (b[i + 1] as int)) as u16
}

/// The `u32` stored little-endian at `b[i]` .. `b[i + 3]`.
pub open spec fn le_u32(b: Seq<u8>, i: int) -> u32 {
    (b[i] as int + 256 * (b[i + 1] as int) + 65536 * (b[i + 2] as int) + 16777216 * (
    b[i + 3] as int)) as u32
}

/// Moving `n` bytes forward from `p`: the new position, or the end of data.
pub open spec fn spec_skip(b: Seq<u8>, p: int, n: int) -> Result<int, Error> {
    if p + n <= b.len() {
        Ok(p + n)
    } else {
        Err(Error::UnexpectedEnd)
    }
}

/// A `u16` field at `p`, and the position after it.
pub open spec fn spec_u16(b: Seq<u8>, p: int) -> Result<(u16, int), Error> {
    if p + 2 <= b.len() {
        Ok((le_u16(b, p), p + 2))
    } else {
        Err(Error::UnexpectedEnd)
    }
}

/// A `u32` field at `p`, and the position after it.
pub open spec fn spec_u32(b: Seq<u8>, p: int) -> Result<(u32, int), Error> {
    if p + 4 <= b.len() {
        Ok((le_u32(b, p), p + 4))
    } else {
        Err(Error::UnexpectedEnd)
    }
}

/// How many leading units of `u` come before its first zero (all of them when
/// there is none).
pub open spec fn nul_index(u: Seq<u16>) -> nat
    decreases u.len(),
{
    if u.len() == 0 || u[0] == 0 {
        0
    } else {
        1 + nul_index(u.drop_first())
    }
}

/// The units of `u` before its first zero.
pub open spec fn before_nul(u: Seq<u16>) -> Seq<u16> {
    u.take(nul_index(u) as int)
}

/// The `n` little-endian `u16` values that start at `b[p]`.
pub open spec fn le_u16s(b: Seq<u8>, p: int, n: int) -> Seq<u16> {
    Seq::new(n as nat, |i: int| le_u16(b, p + 2 * i))
}

/// A PTP string at `p` (a count byte, then that many UTF-16LE units ending in
/// a zero), decoded up to its first zero, and the position after it.
pub open spec fn spec_ptp_string(b: Seq<u8>, p: int) -> Result<(Seq<char>, int), Error> {
    if p + 1 > b.len() {
        Err(Error::UnexpectedEnd)
    } else {
        let n = b[p] as int;
        if n == 0 {
            Ok((seq![], p + 1))
        } else if p + 1 + 2 * n > b.len() {
            Err(Error::StringPastEnd)
        } else {
            Ok((utf16_decode_lossy(before_nul(le_u16s(b, p + 1, n))), p + 1 + 2 * n))
        }
    }
}

/// A PTP array of `u16` at `p` (a `u32` count, then that many values), and
/// the position after it.
pub open spec fn spec_u16_array(b: Seq<u8>, p: int) -> Result<(Seq<u16>, int), Error> {
    match spec_u32(b, p) {
        Err(e) => Err(e),
        Ok((count, q)) => if q + 2 * count <= b.len() {
            Ok((le_u16s(b, q, count as int), q + 2 * count))
        } else {
            Err(Error::UnexpectedEnd)
        },
    }
}

/// Stepping over a PTP array of `u16` at `p`: the position after it.
pub open spec fn spec_skip_u16_array(b: Seq<u8>, p: int) -> Result<int, Error> {
    match spec_u16_array(b, p) {
        Err(e) => Err(e),
        Ok((_, q)) => Ok(q),
    }
}

/// `nul_index` is the first position holding a zero, or the length.
pub proof fn lemma_nul_index(u: Seq<u16>, k: int)
    requires
        0 <= k <= u.len(),
        forall|j: int| 0 <= j < k ==> u[j] != 0,
        k == u.len() || u[k] == 0,
    ensures
        nul_index(u) == k,
    decreases k,
{
    if k > 0 {
        lemma_nul_index(u.drop_first(), k - 1);
    }
}

/// Reader for PTP dataset fields (little-endian, PTP string format).
pub struct DatasetReader<'a> {
    data: &'a [u8],
    pos: usize,
}

impl<'a> DatasetReader<'a> {
    /// The bytes being read.
    pub closed spec fn bytes(&self) -> Seq<u8> {
        self.data@
    }

    /// The position of the next byte to read.
    pub closed spec fn pos(&self) -> int {
        self.pos as int
    }

    #[verifier::type_invariant]
    closed spec fn inv(&self) -> bool {
        self.pos <= self.data@.len()
    }

    /// A reader at the start of `data`.
    pub fn new(data: &'a [u8]) -> (r: Self)
        ensures
            r.bytes() == data@,
            r.pos() == 0,
    {
        Self { data, pos: 0 }
    }

    /// How many bytes are left to read; the position never passes the end
    /// of the bytes.
    pub fn remaining(&self) -> (n: usize)
        ensures
            0 <= self.pos() <= self.bytes().len(),
            n == self.bytes().len() - self.pos(),
    {
        proof {
            use_type_invariant(self);
        }
        self.data.len() - self.pos
    }

    /// Skip `n` bytes; fails, and stays put, when fewer are left.
    pub fn skip(&mut self, n: usize) -> (res: Result<(), Error>)
        ensures
            final(self).bytes() == old(self).bytes(),
            0 <= final(self).pos() <= final(self).bytes().len(),
            match spec_skip(old(self).bytes(), old(self).pos(), n as int) {
                Ok(q) => res == Ok::<(), Error>(()) && final(self).pos() == q,
                Err(e) => res == Err::<(), Error>(e) && final(self).pos() == old(self).pos(),
            },
    {
        proof {
            use_type_invariant(&*self);
        }
        let rem = self.remaining();
        if rem < n {
            return Err(Error::UnexpectedEnd);
        }
        let len = self.data.len();
        assert(self.pos + n <= len);
        self.pos = self.pos + n;
        Ok(())
    }

    /// Read a little-endian `u16`; fails, and stays put, when fewer than two
    /// bytes are left.
    pub fn read_u16(&mut self) -> (res: Result<u16, Error>)
        ensures
            final(self).bytes() == old(self).bytes(),
            0 <= final(self).pos() <= final(self).bytes().len(),
            match spec_u16(old(self).bytes(), old(self).pos()) {
                Ok((v, q)) => res == Ok::<u16, Error>(v) && final(self).pos() == q,
                Err(e) => res == Err::<u16, Error>(e) && final(self).pos() == old(self).pos(),
            },
    {
        proof {
            use_type_invariant(&*self);
        }
        if self.remaining() < 2 {
            return Err(Error::UnexpectedEnd);
        }
        let p = self.pos;
        let v = self.data[p] as u16 + 256 * (self.data[p + 1] as u16);
        self.pos = p + 2;
        Ok(v)
    }

    /// Read a little-endian `u32`; fails, and stays put, when fewer than four
    /// bytes are left.
    pub fn read_u32(&mut self) -> (res: Result<u32, Error>)
        ensures
            final(self).bytes() == old(self).bytes(),
            0 <= final(self).pos() <= final(self).bytes().len(),
            match spec_u32(old(self).bytes(), old(self).pos()) {
                Ok((v, q)) => res == Ok::<u32, Error>(v) && final(self).pos() == q,
                Err(e) => res == Err::<u32, Error>(e) && final(self).pos() == old(self).pos(),
            },
    {
        proof {
            use_type_invariant(&*self);
        }
        if self.remaining() < 4 {
            return Err(Error::UnexpectedEnd);
        }
        let p = self.pos;
        let v = self.data[p] as u32 + 256 * (self.data[p + 1] as u32) + 65536 * (self.data[p
            + 2] as u32) + 16777216 * (self.data[p + 3] as u32);
        self.pos = p + 4;
        Ok(v)
    }

    /// Read a PTP string: a `u8` length (in characters, the terminating zero
    /// included), then that many UTF-16LE code units.  The text ends at the
    /// first zero unit; unpaired surrogates become U+FFFD.  When the units run
    /// past the end, the length byte has been consumed.
    pub fn read_ptp_string(&mut self) -> (res: Result<String, Error>)
        ensures
            final(self).bytes() == old(self).bytes(),
            0 <= final(self).pos() <= final(self).bytes().len(),
            match spec_ptp_string(old(self).bytes(), old(self).pos()) {
                Ok((t, q)) => res matches Ok(s) && s@ == t && final(self).pos() == q,
                Err(e) => res == Err::<String, Error>(e) && final(self).pos() == (if e
                    == Error::StringPastEnd {
                    old(self).pos() + 1
                } else {
                    old(self).pos()
                }),
            },
    {
        proof {
            use_type_invariant(&*self);
        }
        let rem = self.remaining();
        if rem < 1 {
            return Err(Error::UnexpectedEnd);
        }
        let n = self.data[self.pos] as usize;
        self.pos = self.pos + 1;
        if n == 0 {
            return Ok(String::new());
        }
        let rem = self.remaining();
        if rem < 2 * n {
            return Err(Error::StringPastEnd);
        }
        let start = self.pos;
        let ghost b = self.data@;
        let total = self.data.len();
        let mut units: Vec<u16> = Vec::new();
        let mut i: usize = 0;
        while i < n
            invariant
                b == self.data@,
                b.len() == total,
                start + 2 * n <= b.len(),
                0 <= i <= n,
                units@ == le_u16s(b, start as int, i as int),
            decreases n - i,
        {
            let off = start + 2 * i;
            let u = self.data[off] as u16 + 256 * (self.data[off + 1] as u16);
            units.push(u);
            i = i + 1;
            assert(units@ == le_u16s(b, start as int, i as int));
        }
        let mut k: usize = 0;
        while k < n && units[k] != 0
            invariant
                units@.len() == n,
                0 <= k <= n,
                forall|j: int| 0 <= j < k ==> units@[j] != 0,
            decreases n - k,
        {
            k = k + 1;
        }
        proof {
            lemma_nul_index(units@, k as int);
        }
        units.truncate(k);
        self.pos = start + 2 * n;
        Ok(string_from_utf16_lossy(units.as_slice()))
    }

    /// Read a PTP `u16` array: a `u32` count, then that many values.  When the
    /// values run past the end, the reader stops after the last whole one.
    pub fn read_u16_array(&mut self) -> (res: Result<Vec<u16>, Error>)
        ensures
            final(self).bytes() == old(self).bytes(),
            0 <= final(self).pos() <= final(self).bytes().len(),
            match spec_u16_array(old(self).bytes(), old(self).pos()) {
                Ok((vs, q)) => res matches Ok(v) && v@ == vs && final(self).pos() == q,
                Err(e) => res == Err::<Vec<u16>, Error>(e) && final(self).pos() == (if old(
                    self,
                ).pos() + 4 <= old(self).bytes().len() {
                    old(self).pos() + 4 + 2 * ((old(self).bytes().len() - old(self).pos() - 4)
                        / 2)
                } else {
                    old(self).pos()
                }),
            },
    {
        let count = match self.read_u32() {
            Ok(c) => c,
            Err(e) => return Err(e),
        };
        let ghost b = self.bytes();
        let ghost q = self.pos();
        assert(spec_u32(b, q - 4) == Ok::<(u32, int), Error>((count, q)));
        let mut values: Vec<u16> = Vec::new();
        let mut i: u32 = 0;
        while i < count
            invariant
                b == self.bytes(),
                b == old(self).bytes(),
                q == old(self).pos() + 4,
                spec_u32(b, old(self).pos()) == Ok::<(u32, int), Error>((count, q)),
                0 <= self.pos() <= b.len(),
                0 <= i <= count,
                self.pos() == q + 2 * i,
                q + 2 * i <= b.len(),
                values@ == le_u16s(b, q, i as int),
            decreases count - i,
        {
            match self.read_u16() {
                Ok(v) => {
                    values.push(v);
                },
                Err(e) => {
                    assert(self.pos() + 2 > b.len());
                    assert(self.pos() == q + 2 * ((b.len() - q) / 2));
                    return Err(e);
                },
            }
            i = i + 1;
            assert(values@ == le_u16s(b, q, i as int));
        }
        Ok(values)
    }

    /// Skip a PTP `u16` array: a `u32` count, then `count * 2` bytes.  When
    /// they run past the end, only the count has been consumed.
    pub fn skip_u16_array(&mut self) -> (res: Result<(), Error>)
        ensures
            final(self).bytes() == old(self).bytes(),
            0 <= final(self).pos() <= final(self).bytes().len(),
            match spec_skip_u16_array(old(self).bytes(), old(self).pos()) {
                Ok(q) => res == Ok::<(), Error>(()) && final(self).pos() == q,
                Err(e) => res == Err::<(), Error>(e) && final(self).pos() == (if old(
                    self,
                ).pos() + 4 <= old(self).bytes().len() {
                    old(self).pos() + 4
                } else {
                    old(self).pos()
                }),
            },
    {
        proof {
            use_type_invariant(&*self);
        }
        let count = match self.read_u32() {
            Ok(c) => c,
            Err(e) => return Err(e),
        };
        let rem = self.remaining();
        if rem / 2 < count as usize {
            return Err(Error::UnexpectedEnd);
        }
        self.skip(2 * count as usize)
    }
}

/// The two little-endian bytes of `v`.
pub open spec fn u16_le_bytes(v: u16) -> Seq<u8> {
    seq![(v % 256) as u8, (v / 256) as u8]
}

/// The four little-endian bytes of `v`.
pub open spec fn u32_le_bytes(v: u32) -> Seq<u8> {
    seq![(v % 256) as u8, ((v / 256) % 256) as u8, ((v / 65536) % 256) as u8, (v / 16777216) as u8]
}

/// The little-endian bytes of each unit of `u`, in order.
pub open spec fn u16s_le_bytes(u: Seq<u16>) -> Seq<u8>
    decreases u.len(),
{
    if u.len() == 0 {
        seq![]
    } else {
        u16s_le_bytes(u.drop_last()) + u16_le_bytes(u.last())
    }
}

/// A PTP string: one zero byte for the empty text; otherwise the number of
/// UTF-16 units with the terminating zero, then those units little-endian.
/// The count is one byte, so the text holds at most 254 units.
pub open spec fn ptp_string_bytes(s: Seq<char>) -> Seq<u8>
    recommends
        utf16_encode(s).len() <= 254,
{
    if s.len() == 0 {
        seq![0u8]
    } else {
        let units = utf16_encode(s).push(0u16);
        seq![units.len() as u8] + u16s_le_bytes(units)
    }
}

/// Writer for PTP dataset fields (little-endian, PTP string format).
pub struct DatasetWriter {
    buf: Vec<u8>,
}

impl DatasetWriter {
    /// The bytes written so far.
    pub closed spec fn bytes(&self) -> Seq<u8> {
        self.buf@
    }

    /// A writer with nothing written.
    pub fn new() -> (w: Self)
        ensures
            w.bytes() == Seq::<u8>::empty(),
    {
        Self { buf: Vec::with_capacity(128) }
    }

    /// Append `v` little-endian.
    pub fn write_u16(&mut self, v: u16)
        ensures
            final(self).bytes() == old(self).bytes() + u16_le_bytes(v),
    {
        self.buf.push((v % 256) as u8);
        self.buf.push((v / 256) as u8);
    }

    /// Append `v` little-endian.
    pub fn write_u32(&mut self, v: u32)
        ensures
            final(self).bytes() == old(self).bytes() + u32_le_bytes(v),
    {
        self.buf.push((v % 256) as u8);
        self.buf.push(((v / 256) % 256) as u8);
        self.buf.push(((v / 65536) % 256) as u8);
        self.buf.push((v / 16777216) as u8);
    }

    /// Append `s` as a PTP string: a `u8` length (in characters, the
    /// terminating zero included), then UTF-16LE code units.  The length
    /// byte holds at most 255, so `s` takes at most 254 UTF-16 units.
    pub fn write_ptp_string(&mut self, s: &str)
        requires
            utf16_encode(s@).len() <= 254,
        ensures
            final(self).bytes() == old(self).bytes() + ptp_string_bytes(s@),
    {
        if s.is_empty() {
            self.buf.push(0);
            return ;
        }
        let mut units = encode_utf16(s);
        units.push(0);
        let n = units.len();
        assert(n <= 255);
        self.buf.push(n as u8);
        let ghost start = self.buf@;
        let mut i: usize = 0;
        while i < n
            invariant
                n == units@.len(),
                0 <= i <= n,
                self.buf@ == start + u16s_le_bytes(units@.take(i as int)),
            decreases n - i,
        {
            let u = units[i];
            self.buf.push((u % 256) as u8);
            self.buf.push((u / 256) as u8);
            i = i + 1;
            assert(units@.take(i as int).drop_last() == units@.take(i - 1));
        }
        assert(units@.take(n as int) == units@);
    }

    /// The bytes written.
    pub fn into_bytes(self) -> (b: Vec<u8>)
        ensures
            b@ == self.bytes(),
    {
        self.buf
    }
}

/// Reading a `u16` where `write_u16` put `v` gives `v` back.
pub proof fn lemma_u16_roundtrip(b: Seq<u8>, p: int, v: u16)
    requires
        0 <= p,
        p + 2 <= b.len(),
        b.subrange(p, p + 2) == u16_le_bytes(v),
    ensures
        spec_u16(b, p) == Ok::<(u16, int), Error>((v, p + 2)),
{
    assert(b[p] == b.subrange(p, p + 2)[0]);
    assert(b[p + 1] == b.subrange(p, p + 2)[1]);
    assert((v % 256) + 256 * (v / 256) == v) by (bit_vector);
}

/// Reading a `u32` where `write_u32` put `v` gives `v` back.
pub proof fn lemma_u32_roundtrip(b: Seq<u8>, p: int, v: u32)
    requires
        0 <= p,
        p + 4 <= b.len(),
        b.subrange(p, p + 4) == u32_le_bytes(v),
    ensures
        spec_u32(b, p) == Ok::<(u32, int), Error>((v, p + 4)),
{
    let w = b.subrange(p, p + 4);
    assert(b[p] == w[0] && b[p + 1] == w[1] && b[p + 2] == w[2] && b[p + 3] == w[3]);
    assert((v % 256) + 256 * ((v / 256) % 256) + 65536 * ((v / 65536) % 256) + 16777216 * (v
        / 16777216) == v) by (bit_vector);
}

/// The bytes of a unit sequence hold each unit at twice its index.
pub proof fn lemma_u16s_le_bytes(u: Seq<u16>)
    ensures
        u16s_le_bytes(u).len() == 2 * u.len(),
        forall|k: int| 0 <= k < u.len() ==> #[trigger] le_u16(u16s_le_bytes(u), 2 * k) == u[k],
    decreases u.len(),
{
    if u.len() > 0 {
        let init = u.drop_last();
        lemma_u16s_le_bytes(init);
        let bs = u16s_le_bytes(u);
        assert forall|k: int| 0 <= k < u.len() implies #[trigger] le_u16(bs, 2 * k) == u[k] by {
            if k < init.len() {
                assert(bs[2 * k] == u16s_le_bytes(init)[2 * k]);
                assert(bs[2 * k + 1] == u16s_le_bytes(init)[2 * k + 1]);
                assert(le_u16(u16s_le_bytes(init), 2 * k) == init[k]);
            } else {
                let v = u.last();
                assert(bs.subrange(2 * k, 2 * k + 2) == u16_le_bytes(v));
                lemma_u16_roundtrip(bs, 2 * k, v);
            }
        }
    }
}

/// Reading a PTP string where `write_ptp_string` put `s` gives `s` back,
/// when `s` holds no NUL and needs fewer than 255 UTF-16 units.
pub proof fn lemma_ptp_string_roundtrip(b: Seq<u8>, p: int, s: Seq<char>)
    requires
        0 <= p,
        p + ptp_string_bytes(s).len() <= b.len(),
        b.subrange(p, p + ptp_string_bytes(s).len()) == ptp_string_bytes(s),
        !s.contains('\0'),
        utf16_encode(s).len() < 255,
    ensures
        spec_ptp_string(b, p) == Ok::<(Seq<char>, int), Error>((s, p + ptp_string_bytes(s).len())),
{
    let w = ptp_string_bytes(s);
    assert(b[p] == b.subrange(p, p + w.len())[0]);
    if s.len() > 0 {
        let e = utf16_encode(s);
        let units = e.push(0u16);
        crate::utf16::lemma_decode_encode(s);
        lemma_u16s_le_bytes(units);
        let n = units.len() as int;
        assert(b[p] == n);
        let read = le_u16s(b, p + 1, n);
        assert forall|k: int| 0 <= k < n implies #[trigger] read[k] == units[k] by {
            let ub = u16s_le_bytes(units);
            assert(b[p + 1 + 2 * k] == w[1 + 2 * k]);
            assert(b[p + 1 + 2 * k + 1] == w[1 + 2 * k + 1]);
            assert(w[1 + 2 * k] == ub[2 * k]);
            assert(w[1 + 2 * k + 1] == ub[2 * k + 1]);
            assert(le_u16(ub, 2 * k) == units[k]);
        }
        assert(read == units);
        lemma_nul_index(units, e.len() as int);
        assert(before_nul(units) == e);
        assert(w.len() == 1 + 2 * n);
        assert(utf16_decode_lossy(e) == s);
    } else {
        assert(s == Seq::<char>::empty());
    }
}


/// `a` and `b` hold the same bytes below `n`.
pub open spec fn agree_upto(a: Seq<u8>, b: Seq<u8>, n: int) -> bool {
    forall|j: int| 0 <= j < n ==> #[trigger] a[j] == #[trigger] b[j]
}

/// A skip that succeeds on `b` depends only on the length: on data that
/// reaches as far it gives the same, and on shorter data it fails.
pub proof fn lemma_skip_agree(b: Seq<u8>, c: Seq<u8>, p: int, n: int)
    requires
        0 <= p,
        0 <= n,
        spec_skip(b, p, n) is Ok,
    ensures
        p <= spec_skip(b, p, n)->Ok_0 <= b.len(),
        c.len() >= spec_skip(b, p, n)->Ok_0 ==> spec_skip(c, p, n) == spec_skip(b, p, n),
        c.len() < spec_skip(b, p, n)->Ok_0 ==> spec_skip(c, p, n) is Err,
{
}

/// A `u32` read that succeeds on `b` gives the same on data that agrees
/// with `b` up to its end, and fails on data that ends before.
pub proof fn lemma_u32_agree(b: Seq<u8>, c: Seq<u8>, p: int)
    requires
        0 <= p,
        spec_u32(b, p) is Ok,
    ensures
        p <= spec_u32(b, p)->Ok_0.1 <= b.len(),
        c.len() >= spec_u32(b, p)->Ok_0.1 && agree_upto(b, c, spec_u32(b, p)->Ok_0.1)
            ==> spec_u32(c, p) == spec_u32(b, p),
        c.len() < spec_u32(b, p)->Ok_0.1 ==> spec_u32(c, p) is Err,
{
    if c.len() >= p + 4 && agree_upto(b, c, p + 4) {
        assert(c[p] == b[p] && c[p + 1] == b[p + 1] && c[p + 2] == b[p + 2] && c[p + 3] == b[p
            + 3]);
    }
}

/// The `u16` values at `q` agree where the bytes they come from agree.
proof fn lemma_le_u16s_agree(b: Seq<u8>, c: Seq<u8>, q: int, n: int)
    requires
        0 <= q,
        0 <= n,
        agree_upto(b, c, q + 2 * n),
    ensures
        le_u16s(c, q, n) == le_u16s(b, q, n),
{
    assert forall|i: int| 0 <= i < n implies #[trigger] le_u16s(c, q, n)[i] == le_u16s(
        b,
        q,
        n,
    )[i] by {
        assert(c[q + 2 * i] == b[q + 2 * i]);
        assert(c[q + 2 * i + 1] == b[q + 2 * i + 1]);
    }
    assert(le_u16s(c, q, n) =~= le_u16s(b, q, n));
}

/// A PTP string read that succeeds on `b` gives the same on data that
/// agrees with `b` up to its end, and fails on data that is a shorter
/// prefix of `b`.
pub proof fn lemma_ptp_string_agree(b: Seq<u8>, c: Seq<u8>, p: int)
    requires
        0 <= p,
        spec_ptp_string(b, p) is Ok,
    ensures
        p <= spec_ptp_string(b, p)->Ok_0.1 <= b.len(),
        c.len() >= spec_ptp_string(b, p)->Ok_0.1 && agree_upto(
            b,
            c,
            spec_ptp_string(b, p)->Ok_0.1,
        ) ==> spec_ptp_string(c, p) == spec_ptp_string(b, p),
        c.len() < spec_ptp_string(b, p)->Ok_0.1 && agree_upto(b, c, c.len() as int) ==> spec_ptp_string(
            c,
            p,
        ) is Err,
{
    let q = spec_ptp_string(b, p)->Ok_0.1;
    if c.len() >= q && agree_upto(b, c, q) {
        assert(c[p] == b[p]);
        let n = b[p] as int;
        if n > 0 {
            lemma_le_u16s_agree(b, c, p + 1, n);
        }
    }
    if c.len() < q && agree_upto(b, c, c.len() as int) && c.len() > p {
        assert(c[p] == b[p]);
    }
}

/// A `u16` array read that succeeds on `b` gives the same on data that
/// agrees with `b` up to its end, and fails on data that is a shorter
/// prefix of `b`.
pub proof fn lemma_u16_array_agree(b: Seq<u8>, c: Seq<u8>, p: int)
    requires
        0 <= p,
        spec_u16_array(b, p) is Ok,
    ensures
        p <= spec_u16_array(b, p)->Ok_0.1 <= b.len(),
        c.len() >= spec_u16_array(b, p)->Ok_0.1 && agree_upto(
            b,
            c,
            spec_u16_array(b, p)->Ok_0.1,
        ) ==> spec_u16_array(c, p) == spec_u16_array(b, p),
        c.len() < spec_u16_array(b, p)->Ok_0.1 && agree_upto(b, c, c.len() as int) ==> spec_u16_array(
            c,
            p,
        ) is Err,
        spec_skip_u16_array(b, p) == Ok::<int, Error>(spec_u16_array(b, p)->Ok_0.1),
        c.len() >= spec_u16_array(b, p)->Ok_0.1 && agree_upto(
            b,
            c,
            spec_u16_array(b, p)->Ok_0.1,
        ) ==> spec_skip_u16_array(c, p) == spec_skip_u16_array(b, p),
        c.len() < spec_u16_array(b, p)->Ok_0.1 && agree_upto(b, c, c.len() as int)
            ==> spec_skip_u16_array(c, p) is Err,
{
    let q = spec_u16_array(b, p)->Ok_0.1;
    lemma_u32_agree(b, c, p);
    let (count, r) = spec_u32(b, p)->Ok_0;
    if c.len() >= q && agree_upto(b, c, q) {
        assert(agree_upto(b, c, r));
        lemma_le_u16s_agree(b, c, r, count as int);
    }
    if c.len() < q && agree_upto(b, c, c.len() as int) && c.len() >= r {
        assert(agree_upto(b, c, r));
    }
}


/// One field written to a dataset, as a value.
pub enum DatasetField {
    U16(u16),
    U32(u32),
    PtpString(Seq<char>),
}

/// The bytes that writing one field appends.
pub open spec fn field_bytes(f: DatasetField) -> Seq<u8> {
    match f {
        DatasetField::U16(v) => u16_le_bytes(v),
        DatasetField::U32(v) => u32_le_bytes(v),
        DatasetField::PtpString(s) => ptp_string_bytes(s),
    }
}

/// The bytes of the fields, one after the other.
pub open spec fn fields_bytes(fields: Seq<DatasetField>) -> Seq<u8>
    decreases fields.len(),
{
    if fields.len() == 0 {
        seq![]
    } else {
        fields_bytes(fields.drop_last()) + field_bytes(fields.last())
    }
}

/// A new writer followed by writes of `fields`, in order, holds the bytes of
/// the fields one after the other: `writers[i + 1]` is `writers[i]` after
/// writing `fields[i]` (as each write's contract states it), and `writers[0]`
/// is new.
pub proof fn lemma_writes_concatenate(writers: Seq<DatasetWriter>, fields: Seq<DatasetField>)
    requires
        writers.len() == fields.len() + 1,
        writers[0].bytes() == Seq::<u8>::empty(),
        forall|i: int|
            0 <= i < fields.len() ==> writers[i + 1].bytes() == writers[i].bytes() + field_bytes(
                #[trigger] fields[i],
            ),
    ensures
        writers.last().bytes() == fields_bytes(fields),
    decreases fields.len(),
{
    if fields.len() > 0 {
        let n = fields.len() - 1;
        let ws = writers.drop_last();
        let fs = fields.drop_last();
        assert forall|i: int| 0 <= i < fs.len() implies ws[i + 1].bytes() == ws[i].bytes()
            + field_bytes(#[trigger] fs[i]) by {
            assert(fs[i] == fields[i]);
            assert(writers[i + 1].bytes() == writers[i].bytes() + field_bytes(fields[i]));
        }
        lemma_writes_concatenate(ws, fs);
        assert(writers[n + 1].bytes() == writers[n].bytes() + field_bytes(fields[n]));
    }
}


/// A PTP string's bytes: one zero byte for the empty text; otherwise the
/// count of UTF-16 units with the closing zero, then each unit little-endian
/// (low byte first), then the zero unit.
pub proof fn lemma_ptp_string_layout(s: Seq<char>)
    requires
        utf16_encode(s).len() <= 254,
    ensures
        s.len() == 0 ==> ptp_string_bytes(s) == seq![0u8],
        s.len() > 0 ==> ptp_string_bytes(s).len() == 3 + 2 * utf16_encode(s).len(),
        s.len() > 0 ==> ptp_string_bytes(s)[0] == utf16_encode(s).len() + 1,
        s.len() > 0 ==> forall|k: int|
            0 <= k < utf16_encode(s).len() ==> ptp_string_bytes(s)[1 + 2 * k] as int + 256 * (
            ptp_string_bytes(s)[2 + 2 * k] as int) == #[trigger] utf16_encode(s)[k],
        s.len() > 0 ==> ptp_string_bytes(s)[1 + 2 * utf16_encode(s).len() as int] == 0,
        s.len() > 0 ==> ptp_string_bytes(s)[2 + 2 * utf16_encode(s).len() as int] == 0,
{
    if s.len() > 0 {
        let u = utf16_encode(s);
        let units = u.push(0u16);
        let b = ptp_string_bytes(s);
        let ub = u16s_le_bytes(units);
        lemma_u16s_le_bytes(units);
        assert(b == seq![units.len() as u8] + ub);
        assert forall|k: int| 0 <= k < units.len() implies b[1 + 2 * k] as int + 256 * (b[2 + 2
            * k] as int) == #[trigger] units[k] by {
            assert(b[1 + 2 * k] == ub[2 * k]);
            assert(b[2 + 2 * k] == ub[2 * k + 1]);
            assert(le_u16(ub, 2 * k) == units[k]);
            let lo = ub[2 * k];
            let hi = ub[2 * k + 1];
            assert(lo as int + 256 * (hi as int) < 65536);
        }
        assert forall|k: int| 0 <= k < u.len() implies b[1 + 2 * k] as int + 256 * (b[2 + 2
            * k] as int) == #[trigger] u[k] by {
            assert(units[k] == u[k]);
        }
        assert(units[u.len() as int] == 0);
    }
}


/// Little-endian bytes hold the value low byte first: the bytes of `v`, read
/// as base-256 digits from the lowest, give `v`; and reading a field takes
/// its bytes the same way.
pub proof fn lemma_le_bytes_values(a: u16, v: u32, b: Seq<u8>, i: int)
    requires
        0 <= i,
        i + 4 <= b.len(),
    ensures
        u16_le_bytes(a).len() == 2,
        u16_le_bytes(a)[0] as int + 256 * (u16_le_bytes(a)[1] as int) == a,
        u32_le_bytes(v).len() == 4,
        u32_le_bytes(v)[0] as int + 256 * (u32_le_bytes(v)[1] as int) + 65536 * (
        u32_le_bytes(v)[2] as int) + 16777216 * (u32_le_bytes(v)[3] as int) == v,
        le_u16(b, i) as int == b[i] as int + 256 * (b[i + 1] as int),
        le_u32(b, i) as int == b[i] as int + 256 * (b[i + 1] as int) + 65536 * (b[i + 2] as int)
            + 16777216 * (b[i + 3] as int),
{
    assert((a % 256) + 256 * (a / 256) == a) by (bit_vector);
    assert((v % 256) + 256 * ((v / 256) % 256) + 65536 * ((v / 65536) % 256) + 16777216 * (v
        / 16777216) == v) by (bit_vector);
    let (b0, b1, b2, b3) = (b[i], b[i + 1], b[i + 2], b[i + 3]);
    assert(b0 as int + 256 * (b1 as int) < 65536);
    assert(b0 as int + 256 * (b1 as int) + 65536 * (b2 as int) + 16777216 * (b3 as int)
        < 0x1_0000_0000);
}

} // verus!
