//! A growable byte buffer with a read cursor: packets are written into it
//! field by field, and received packets are read out of it.
use vstd::prelude::*;
use vstd::utf8::*;
use crate::util::encoding::{
    be_bytes, be_value, bool_bytes, le_bytes, le_value, lemma_be_value_bound, lemma_le_value_bound,
    lemma_pow_monotone, lemma_pow_values, lemma_var_uint_prefix_bounds,
    var_int32_bytes, var_int64_bytes, var_string_bytes, var_string_prefix, var_u32_prefix,
    var_uint_bytes, var_uint_prefix, zigzag32, zigzag64,
};

verus! {

/// Why a read from a [`Buffer`] failed. A failed read leaves the cursor where it was.
#[derive(Debug, Clone, Copy, PartialEq, Eq)]
pub enum BufferError {
    /// Fewer unread bytes than the value needs.
    UnexpectedEnd,
    /// No 32-bit VarUInt at the cursor: the input ends inside it, it runs past
    /// five bytes, or its value does not fit in 32 bits.
    BadVarInt,
    /// The bytes of a string are not valid UTF-8.
    InvalidUtf8,
}

/// Bytes written so far, and a cursor that marks how many of them were read.
pub struct Buffer {
    data: Vec<u8>,
    pos: usize,
}

impl View for Buffer {
    type V = Seq<u8>;

    /// All bytes in the buffer, read or not.
    closed spec fn view(&self) -> Seq<u8> {
        self.data@
    }
}

impl Buffer {
    #[verifier::type_invariant]
    spec fn cursor_in_bounds(self) -> bool {
        self.pos <= self.data@.len()
    }

    /// The bytes after the read cursor.
    pub closed spec fn unread(&self) -> Seq<u8> {
        self.data@.skip(self.pos as int)
    }

    /// An empty buffer.
    pub fn new() -> (b: Buffer)
        ensures
            b@ == Seq::<u8>::empty(),
            b.unread() == Seq::<u8>::empty(),
    {
        Buffer { data: Vec::new(), pos: 0 }
    }

    /// A buffer holding `bytes`, none of them read yet.
    pub fn from_slice(bytes: &[u8]) -> (b: Buffer)
        ensures
            b@ == bytes@,
            b.unread() == bytes@,
    {
        let b = Buffer { data: vstd::slice::slice_to_vec(bytes), pos: 0 };
        assert(b.data@.skip(0) =~= b.data@);
        b
    }

    /// Appends one byte.
    fn push_byte(&mut self, byte: u8)
        ensures
            final(self)@ == old(self)@.push(byte),
            final(self).unread() == old(self).unread().push(byte),
    {
        proof {
            use_type_invariant(&*self);
        }
        let mut taken = Buffer::new();
        std::mem::swap(self, &mut taken);
        let Buffer { mut data, pos } = taken;
        data.push(byte);
        *self = Buffer { data, pos };
        assert(self.data@.skip(self.pos as int) =~= old(self).data@.skip(self.pos as int).push(byte));
    }

    /// Appends `bytes`.
    fn push_all(&mut self, bytes: &[u8])
        ensures
            final(self)@ == old(self)@ + bytes@,
            final(self).unread() == old(self).unread() + bytes@,
    {
        let mut i: usize = 0;
        while i < bytes.len()
            invariant
                i <= bytes@.len(),
                self@ == old(self)@ + bytes@.take(i as int),
                self.unread() == old(self).unread() + bytes@.take(i as int),
            decreases bytes@.len() - i,
        {
            self.push_byte(bytes[i]);
            assert(bytes@.take(i + 1) =~= bytes@.take(i as int).push(bytes@[i as int]));
            i = i + 1;
        }
        assert(bytes@.take(i as int) =~= bytes@);
    }

    /// Appends `v` as a VarUInt.
    fn push_var_uint(&mut self, v: u64)
        ensures
            final(self)@ == old(self)@ + var_uint_bytes(v as nat),
            final(self).unread() == old(self).unread() + var_uint_bytes(v as nat),
    {
        let mut rest: u64 = v;
        while rest >= 128
            invariant
                old(self)@ + var_uint_bytes(v as nat) == self@ + var_uint_bytes(rest as nat),
                old(self).unread() + var_uint_bytes(v as nat) == self.unread() + var_uint_bytes(
                    rest as nat,
                ),
            decreases rest,
        {
            let byte: u8 = (rest % 128 + 128) as u8;
            let ghost before = self@;
            let ghost before_unread = self.unread();
            self.push_byte(byte);
            assert(before + var_uint_bytes(rest as nat) =~= self@ + var_uint_bytes((rest / 128) as nat));
            assert(before_unread + var_uint_bytes(rest as nat) =~= self.unread() + var_uint_bytes(
                (rest / 128) as nat,
            ));
            rest = rest / 128;
        }
        let ghost before = self@;
        let ghost before_unread = self.unread();
        self.push_byte(rest as u8);
        assert(before + var_uint_bytes(rest as nat) =~= self@);
        assert(before_unread + var_uint_bytes(rest as nat) =~= self.unread());
    }

    /// Appends the `n` low bytes of `v`, least significant first.
    fn push_le(&mut self, v: u64, n: usize)
        ensures
            final(self)@ == old(self)@ + le_bytes(v as nat, n as nat),
            final(self).unread() == old(self).unread() + le_bytes(v as nat, n as nat),
    {
        let mut rest: u64 = v;
        let mut i: usize = 0;
        while i < n
            invariant
                i <= n,
                old(self)@ + le_bytes(v as nat, n as nat) == self@ + le_bytes(
                    rest as nat,
                    (n - i) as nat,
                ),
                old(self).unread() + le_bytes(v as nat, n as nat) == self.unread() + le_bytes(
                    rest as nat,
                    (n - i) as nat,
                ),
            decreases n - i,
        {
            let ghost before = self@;
            let ghost before_unread = self.unread();
            self.push_byte((rest % 256) as u8);
            assert(before + le_bytes(rest as nat, (n - i) as nat) =~= self@ + le_bytes(
                (rest / 256) as nat,
                (n - i - 1) as nat,
            ));
            assert(before_unread + le_bytes(rest as nat, (n - i) as nat) =~= self.unread()
                + le_bytes((rest / 256) as nat, (n - i - 1) as nat));
            rest = rest / 256;
            i = i + 1;
        }
        assert(le_bytes(rest as nat, 0) =~= Seq::<u8>::empty());
        assert(self@ + Seq::<u8>::empty() =~= self@);
        assert(self.unread() + Seq::<u8>::empty() =~= self.unread());
    }

    /// Appends the `n` low bytes of `v`, most significant first.
    fn push_be(&mut self, v: u64, n: usize)
        ensures
            final(self)@ == old(self)@ + be_bytes(v as nat, n as nat),
            final(self).unread() == old(self).unread() + be_bytes(v as nat, n as nat),
        decreases n,
    {
        if n == 0 {
            assert(old(self)@ + be_bytes(v as nat, 0) =~= old(self)@);
            assert(old(self).unread() + be_bytes(v as nat, 0) =~= old(self).unread());
        } else {
            self.push_be(v / 256, n - 1);
            let ghost mid = self@;
            let ghost mid_unread = self.unread();
            self.push_byte((v % 256) as u8);
            assert(old(self)@ + be_bytes(v as nat, n as nat) =~= self@);
            assert(old(self).unread() + be_bytes(v as nat, n as nat) =~= self.unread());
        }
    }
}

impl Buffer {
    /// Appends one byte.
    pub fn write_u8(&mut self, v: u8) -> (r: Result<(), BufferError>)
        ensures
            r is Ok,
            final(self)@ == old(self)@ + seq![v],
            final(self).unread() == old(self).unread() + seq![v],
    {
        self.push_byte(v);
        proof {
            assert(old(self)@.push(v) =~= old(self)@ + seq![v]);
            assert(old(self).unread().push(v) =~= old(self).unread() + seq![v]);
        }
        Ok(())
    }

    /// Appends a boolean as one byte, 1 or 0.
    pub fn write_bool(&mut self, v: bool) -> (r: Result<(), BufferError>)
        ensures
            r is Ok,
            final(self)@ == old(self)@ + bool_bytes(v),
            final(self).unread() == old(self).unread() + bool_bytes(v),
    {
        self.write_u8(if v { 1u8 } else { 0u8 })
    }

    /// Appends a 16-bit value, little-endian.
    pub fn write_u16_le(&mut self, v: u16) -> (r: Result<(), BufferError>)
        ensures
            r is Ok,
            final(self)@ == old(self)@ + le_bytes(v as nat, 2),
            final(self).unread() == old(self).unread() + le_bytes(v as nat, 2),
    {
        self.push_le(v as u64, 2);
        Ok(())
    }

    /// Appends a 32-bit value, big-endian.
    pub fn write_u32(&mut self, v: u32) -> (r: Result<(), BufferError>)
        ensures
            r is Ok,
            final(self)@ == old(self)@ + be_bytes(v as nat, 4),
            final(self).unread() == old(self).unread() + be_bytes(v as nat, 4),
    {
        self.push_be(v as u64, 4);
        Ok(())
    }

    /// Appends a 32-bit value, little-endian.
    pub fn write_u32_le(&mut self, v: u32) -> (r: Result<(), BufferError>)
        ensures
            r is Ok,
            final(self)@ == old(self)@ + le_bytes(v as nat, 4),
            final(self).unread() == old(self).unread() + le_bytes(v as nat, 4),
    {
        self.push_le(v as u64, 4);
        Ok(())
    }

    /// Appends a 64-bit value, big-endian.
    pub fn write_u64(&mut self, v: u64) -> (r: Result<(), BufferError>)
        ensures
            r is Ok,
            final(self)@ == old(self)@ + be_bytes(v as nat, 8),
            final(self).unread() == old(self).unread() + be_bytes(v as nat, 8),
    {
        self.push_be(v, 8);
        Ok(())
    }

    /// Appends a 64-bit value, little-endian.
    pub fn write_u64_le(&mut self, v: u64) -> (r: Result<(), BufferError>)
        ensures
            r is Ok,
            final(self)@ == old(self)@ + le_bytes(v as nat, 8),
            final(self).unread() == old(self).unread() + le_bytes(v as nat, 8),
    {
        self.push_le(v, 8);
        Ok(())
    }

    /// Appends a 32-bit VarUInt.
    pub fn write_var_int(&mut self, v: u32) -> (r: Result<(), BufferError>)
        ensures
            r is Ok,
            final(self)@ == old(self)@ + var_uint_bytes(v as nat),
            final(self).unread() == old(self).unread() + var_uint_bytes(v as nat),
    {
        self.push_var_uint(v as u64);
        Ok(())
    }

    /// Appends a 64-bit VarUInt.
    pub fn write_var_u64(&mut self, v: u64) -> (r: Result<(), BufferError>)
        ensures
            r is Ok,
            final(self)@ == old(self)@ + var_uint_bytes(v as nat),
            final(self).unread() == old(self).unread() + var_uint_bytes(v as nat),
    {
        self.push_var_uint(v);
        Ok(())
    }

    /// The ZigZag image of a signed 32-bit value.
    fn zigzag_i32(v: i32) -> (z: u32)
        ensures
            z == zigzag32(v),
    {
        if v >= 0 {
            (v as u32) * 2
        } else {
            let magnitude: i64 = -(v as i64);
            (magnitude * 2 - 1) as u32
        }
    }

    /// The ZigZag image of a signed 64-bit value.
    fn zigzag_i64(v: i64) -> (z: u64)
        ensures
            z == zigzag64(v),
    {
        if v >= 0 {
            (v as u64) * 2
        } else {
            let magnitude: i128 = -(v as i128);
            (magnitude * 2 - 1) as u64
        }
    }

    /// Appends a signed 32-bit VarInt (ZigZag, then VarUInt).
    pub fn write_signed_var_int(&mut self, v: i32) -> (r: Result<(), BufferError>)
        ensures
            r is Ok,
            final(self)@ == old(self)@ + var_int32_bytes(v),
            final(self).unread() == old(self).unread() + var_int32_bytes(v),
    {
        let z = Self::zigzag_i32(v);
        self.push_var_uint(z as u64);
        Ok(())
    }

    /// Appends a signed 64-bit VarInt (ZigZag, then VarUInt).
    pub fn write_signed_var_i64(&mut self, v: i64) -> (r: Result<(), BufferError>)
        ensures
            r is Ok,
            final(self)@ == old(self)@ + var_int64_bytes(v),
            final(self).unread() == old(self).unread() + var_int64_bytes(v),
    {
        let z = Self::zigzag_i64(v);
        self.push_var_uint(z);
        Ok(())
    }

    /// Appends raw bytes.
    pub fn write_bytes(&mut self, bytes: &[u8]) -> (r: Result<(), BufferError>)
        ensures
            r is Ok,
            final(self)@ == old(self)@ + bytes@,
            final(self).unread() == old(self).unread() + bytes@,
    {
        self.push_all(bytes);
        Ok(())
    }

    /// Appends a string: the length of its UTF-8 bytes as a VarUInt, then the bytes.
    pub fn write_var_string(&mut self, s: &str) -> (r: Result<(), BufferError>)
        ensures
            r is Ok,
            final(self)@ == old(self)@ + var_string_bytes(s@),
            final(self).unread() == old(self).unread() + var_string_bytes(s@),
    {
        let bytes = s.as_bytes();
        self.push_var_uint(bytes.len() as u64);
        self.push_all(bytes);
        proof {
            let len_bytes = var_uint_bytes(encode_utf8(s@).len());
            assert(old(self)@ + len_bytes + encode_utf8(s@) =~= old(self)@ + var_string_bytes(s@));
            assert(old(self).unread() + len_bytes + encode_utf8(s@) =~= old(self).unread()
                + var_string_bytes(s@));
        }
        Ok(())
    }

    /// All bytes in the buffer.
    pub fn as_slice(&self) -> (s: &[u8])
        ensures
            s@ == self@,
    {
        self.data.as_slice()
    }

    /// A copy of all bytes in the buffer.
    pub fn to_vec(&self) -> (v: Vec<u8>)
        ensures
            v@ == self@,
    {
        vstd::slice::slice_to_vec(self.data.as_slice())
    }

    /// The number of bytes in the buffer.
    pub fn len(&self) -> (n: usize)
        ensures
            n == self@.len(),
    {
        self.data.len()
    }
}

/// `std::str::from_utf8`: a string slice over `bytes` when they are valid UTF-8.
/// Trusted: the standard library documents that it returns `Err` exactly when
/// the slice is not UTF-8, and otherwise a `str` whose bytes are the slice.
#[verifier::external_body]
fn str_from_utf8(bytes: &[u8]) -> (r: Option<&str>)
    ensures
        r is Some <==> valid_utf8(bytes@),
        r matches Some(s) ==> encode_utf8(s@) == bytes@,
{
    match std::str::from_utf8(bytes) {
        Ok(s) => Some(s),
        Err(_) => None,
    }
}

/// The VarUInt of at most `max_len` bytes at `data[pos..]`, with the number of bytes it takes.
fn decode_var_uint(data: &Vec<u8>, pos: usize, max_len: usize) -> (r: Option<(u64, usize)>)
    requires
        pos <= data@.len(),
        max_len <= 9,
    ensures
        match var_uint_prefix(data@.skip(pos as int), max_len as nat) {
            Some((v, n)) => r == Some((v as u64, n as usize)),
            None => r is None,
        },
    decreases max_len,
{
    let ghost s = data@.skip(pos as int);
    if max_len == 0 || pos >= data.len() {
        return None;
    }
    let first = data[pos];
    if first < 128 {
        return Some((first as u64, 1));
    }
    proof {
        assert(s.drop_first() =~= data@.skip(pos + 1));
        lemma_var_uint_prefix_bounds(s.drop_first(), (max_len - 1) as nat);
        if let Some((v, n)) = var_uint_prefix(s.drop_first(), (max_len - 1) as nat) {
            lemma_pow_monotone(n, 8);
            lemma_pow_values();
        }
    }
    match decode_var_uint(data, pos + 1, max_len - 1) {
        Some((v, n)) => Some(((first - 128) as u64 + 128 * v, n + 1)),
        None => None,
    }
}

impl Buffer {
    /// Reads one byte.
    pub fn read_u8(&mut self) -> (r: Result<u8, BufferError>)
        ensures
            final(self)@ == old(self)@,
            old(self).unread().len() >= 1 ==> r == Ok::<u8, BufferError>(old(self).unread()[0])
                && final(self).unread() == old(self).unread().drop_first(),
            old(self).unread().len() == 0 ==> r == Err::<u8, BufferError>(BufferError::UnexpectedEnd)
                && final(self).unread() == old(self).unread(),
    {
        proof {
            use_type_invariant(&*self);
        }
        if self.pos < self.data.len() {
            let b = self.data[self.pos];
            self.pos = self.pos + 1;
            assert(self.data@.skip(self.pos as int) =~= old(self).unread().drop_first());
            Ok(b)
        } else {
            Err(BufferError::UnexpectedEnd)
        }
    }

    /// Reads `n` bytes as a big-endian number.
    fn read_be(&mut self, n: usize) -> (r: Result<u64, BufferError>)
        requires
            n <= 8,
        ensures
            final(self)@ == old(self)@,
            old(self).unread().len() >= n ==> r == Ok::<u64, BufferError>(
                be_value(old(self).unread().take(n as int)) as u64,
            ) && final(self).unread() == old(self).unread().skip(n as int),
            old(self).unread().len() < n ==> r == Err::<u64, BufferError>(BufferError::UnexpectedEnd)
                && final(self).unread() == old(self).unread(),
    {
        proof {
            use_type_invariant(&*self);
        }
        if self.data.len() - self.pos < n {
            return Err(BufferError::UnexpectedEnd);
        }
        let ghost u = self.unread();
        let mut acc: u64 = 0;
        let mut i: usize = 0;
        proof {
            assert(u.take(0) =~= Seq::<u8>::empty());
        }
        while i < n
            invariant
                i <= n <= 8,
                self.pos + n <= self.data.len(),
                u == self.data@.skip(self.pos as int),
                acc as nat == be_value(u.take(i as int)),
            decreases n - i,
        {
            proof {
                lemma_be_value_bound(u.take(i as int));
                lemma_pow_monotone(i as nat, 7);
                lemma_pow_values();
                assert(u.take(i + 1).drop_last() =~= u.take(i as int));
            }
            acc = acc * 256 + self.data[self.pos + i] as u64;
            i = i + 1;
        }
        self.pos = self.pos + n;
        assert(self.data@.skip(self.pos as int) =~= u.skip(n as int));
        Ok(acc)
    }

    /// Reads `n` bytes as a little-endian number.
    fn read_le(&mut self, n: usize) -> (r: Result<u64, BufferError>)
        requires
            n <= 8,
        ensures
            final(self)@ == old(self)@,
            old(self).unread().len() >= n ==> r == Ok::<u64, BufferError>(
                le_value(old(self).unread().take(n as int)) as u64,
            ) && final(self).unread() == old(self).unread().skip(n as int),
            old(self).unread().len() < n ==> r == Err::<u64, BufferError>(BufferError::UnexpectedEnd)
                && final(self).unread() == old(self).unread(),
    {
        proof {
            use_type_invariant(&*self);
        }
        if self.data.len() - self.pos < n {
            return Err(BufferError::UnexpectedEnd);
        }
        let ghost u = self.unread();
        let mut acc: u64 = 0;
        let mut i: usize = n;
        proof {
            assert(u.subrange(n as int, n as int) =~= Seq::<u8>::empty());
        }
        while i > 0
            invariant
                i <= n <= 8,
                self.pos + n <= self.data.len(),
                u == self.data@.skip(self.pos as int),
                acc as nat == le_value(u.subrange(i as int, n as int)),
            decreases i,
        {
            proof {
                lemma_le_value_bound(u.subrange(i as int, n as int));
                lemma_pow_monotone((n - i) as nat, 7);
                lemma_pow_values();
                assert(u.subrange(i - 1, n as int).drop_first() =~= u.subrange(i as int, n as int));
            }
            acc = acc * 256 + self.data[self.pos + i - 1] as u64;
            i = i - 1;
        }
        self.pos = self.pos + n;
        assert(self.data@.skip(self.pos as int) =~= u.skip(n as int));
        assert(u.subrange(0, n as int) =~= u.take(n as int));
        Ok(acc)
    }

    /// Reads a 32-bit big-endian value.
    pub fn read_u32(&mut self) -> (r: Result<u32, BufferError>)
        ensures
            final(self)@ == old(self)@,
            old(self).unread().len() >= 4 ==> r == Ok::<u32, BufferError>(
                be_value(old(self).unread().take(4)) as u32,
            ) && final(self).unread() == old(self).unread().skip(4),
            old(self).unread().len() < 4 ==> r == Err::<u32, BufferError>(BufferError::UnexpectedEnd)
                && final(self).unread() == old(self).unread(),
    {
        let ghost u = self.unread();
        match self.read_be(4) {
            Ok(v) => {
                proof {
                    lemma_be_value_bound(u.take(4));
                    lemma_pow_values();
                }
                Ok(v as u32)
            },
            Err(e) => Err(e),
        }
    }

    /// Reads a 64-bit little-endian value.
    pub fn read_u64_le(&mut self) -> (r: Result<u64, BufferError>)
        ensures
            final(self)@ == old(self)@,
            old(self).unread().len() >= 8 ==> r == Ok::<u64, BufferError>(
                le_value(old(self).unread().take(8)) as u64,
            ) && final(self).unread() == old(self).unread().skip(8),
            old(self).unread().len() < 8 ==> r == Err::<u64, BufferError>(BufferError::UnexpectedEnd)
                && final(self).unread() == old(self).unread(),
    {
        self.read_le(8)
    }

    /// Reads a 32-bit VarUInt.
    pub fn read_var_int(&mut self) -> (r: Result<u32, BufferError>)
        ensures
            final(self)@ == old(self)@,
            match var_u32_prefix(old(self).unread()) {
                Some((v, n)) => r == Ok::<u32, BufferError>(v) && final(self).unread() == old(
                    self,
                ).unread().skip(n as int),
                None => r == Err::<u32, BufferError>(BufferError::BadVarInt) && final(self).unread()
                    == old(self).unread(),
            },
    {
        proof {
            use_type_invariant(&*self);
            lemma_var_uint_prefix_bounds(self.unread(), 5);
            lemma_pow_values();
            if let Some((v, n)) = var_uint_prefix(self.unread(), 5) {
                lemma_pow_monotone(n, 5);
            }
        }
        let total = self.data.len();
        match decode_var_uint(&self.data, self.pos, 5) {
            Some((v, n)) => {
                if v <= 0xffff_ffff {
                    self.pos = self.pos + n;
                    assert(self.data@.skip(self.pos as int) =~= old(self).unread().skip(n as int));
                    Ok(v as u32)
                } else {
                    Err(BufferError::BadVarInt)
                }
            },
            None => Err(BufferError::BadVarInt),
        }
    }

    /// Reads a string: a 32-bit VarUInt length, then that many bytes of UTF-8.
    /// On any failure the cursor stays before the length.
    pub fn read_var_string(&mut self) -> (r: Result<String, BufferError>)
        ensures
            final(self)@ == old(self)@,
            match var_string_prefix(old(self).unread()) {
                Some((chars, n)) => r matches Ok(s) && s@ == chars && final(self).unread() == old(
                    self,
                ).unread().skip(n as int),
                None => r is Err && final(self).unread() == old(self).unread(),
            },
            var_u32_prefix(old(self).unread()) is None ==> r == Err::<String, BufferError>(
                BufferError::BadVarInt,
            ),
            var_u32_prefix(old(self).unread()) matches Some((len, k)) ==> (k + len > old(
                self,
            ).unread().len() ==> r == Err::<String, BufferError>(BufferError::UnexpectedEnd)),
            var_u32_prefix(old(self).unread()) matches Some((len, k)) ==> (k + len <= old(
                self,
            ).unread().len() && !valid_utf8(old(self).unread().subrange(k as int, k + len))
                ==> r == Err::<String, BufferError>(BufferError::InvalidUtf8)),
    {
        proof {
            use_type_invariant(&*self);
        }
        let ghost u = self.unread();
        let start = self.pos;
        let len = match self.read_var_int() {
            Ok(len) => len,
            Err(e) => return Err(e),
        };
        proof {
            use_type_invariant(&*self);
            lemma_var_uint_prefix_bounds(u, 5);
        }
        let ghost k: nat = var_u32_prefix(u).unwrap().1;
        assert(self.data@.skip(self.pos as int).len() == u.skip(k as int).len());
        assert(self.pos == start + k);
        if ((self.data.len() - self.pos) as u64) < (len as u64) {
            self.pos = start;
            assert(self.data@.skip(self.pos as int) =~= u);
            return Err(BufferError::UnexpectedEnd);
        }
        let end = self.pos + len as usize;
        let bytes = vstd::slice::slice_subrange(self.data.as_slice(), self.pos, end);
        assert(bytes@ =~= u.subrange(k as int, k + len));
        match str_from_utf8(bytes) {
            Some(text) => {
                proof {
                    encode_utf8_decode_utf8(text@);
                }
                self.pos = end;
                assert(self.data@.skip(self.pos as int) =~= u.skip(k + len));
                Ok(text.to_owned())
            },
            None => {
                self.pos = start;
                assert(self.data@.skip(self.pos as int) =~= u);
                Err(BufferError::InvalidUtf8)
            },
        }
    }

    /// The number of unread bytes.
    pub fn remaining(&self) -> (n: usize)
        ensures
            n == self.unread().len(),
    {
        proof {
            use_type_invariant(self);
        }
        self.data.len() - self.pos
    }

    /// Reads `n` raw bytes.
    pub fn read_bytes(&mut self, n: usize) -> (r: Result<Vec<u8>, BufferError>)
        ensures
            final(self)@ == old(self)@,
            old(self).unread().len() >= n ==> (r matches Ok(v) && v@ == old(self).unread().take(
                n as int,
            ) && final(self).unread() == old(self).unread().skip(n as int)),
            old(self).unread().len() < n ==> r == Err::<Vec<u8>, BufferError>(
                BufferError::UnexpectedEnd,
            ) && final(self).unread() == old(self).unread(),
    {
        proof {
            use_type_invariant(&*self);
        }
        if self.data.len() - self.pos < n {
            return Err(BufferError::UnexpectedEnd);
        }
        let end = self.pos + n;
        let taken = vstd::slice::slice_subrange(self.data.as_slice(), self.pos, end);
        let v = vstd::slice::slice_to_vec(taken);
        assert(v@ =~= old(self).unread().take(n as int));
        self.pos = end;
        assert(self.data@.skip(self.pos as int) =~= old(self).unread().skip(n as int));
        Ok(v)
    }

    /// Reads every unread byte.
    pub fn read_remaining(&mut self) -> (v: Vec<u8>)
        ensures
            final(self)@ == old(self)@,
            v@ == old(self).unread(),
            final(self).unread() == Seq::<u8>::empty(),
    {
        proof {
            use_type_invariant(&*self);
        }
        let rest = vstd::slice::slice_subrange(self.data.as_slice(), self.pos, self.data.len());
        let v = vstd::slice::slice_to_vec(rest);
        self.pos = self.data.len();
        assert(v@ =~= old(self).unread());
        assert(self.data@.skip(self.pos as int) =~= Seq::<u8>::empty());
        v
    }
}

} // verus!
