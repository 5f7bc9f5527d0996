//! Byte stream reader for the LEB128 variable-length integers of the WebAssembly binary format.
use vstd::prelude::*;
use vstd::utf8::{decode_utf8, valid_utf8};

verus! {

/// Error while reading a byte stream
#[derive(Debug, Clone, Copy, PartialEq, Eq)]
pub enum ReadError {
    /// The encoding is not valid for the requested type
    InvalidData,
    /// The stream ended before the item was complete
    UnexpectedEof,
    /// A requested range lies outside the stream
    OutOfBounds,
}

/// The exclusive upper bound of an unsigned number made of at most `k` bytes,
/// the last allowed byte being below `last`.
pub open spec fn unsigned_limit(k: nat, last: nat) -> nat
    decreases k,
{
    if k <= 1 {
        last
    } else {
        128 * unsigned_limit((k - 1) as nat, last)
    }
}

/// Unsigned LEB128: the value and the number of bytes taken from the front of `s`,
/// with at most `k` bytes, the `k`-th byte (if reached) being below `last`.
pub open spec fn decode_unsigned(s: Seq<u8>, k: nat, last: nat) -> Result<(nat, nat), ReadError>
    decreases k,
{
    if s.len() == 0 {
        Err(ReadError::UnexpectedEof)
    } else if k <= 1 {
        if (s[0] as nat) < last {
            Ok((s[0] as nat, 1))
        } else {
            Err(ReadError::InvalidData)
        }
    } else if s[0] < 128 {
        Ok((s[0] as nat, 1))
    } else {
        match decode_unsigned(s.drop_first(), (k - 1) as nat, last) {
            Ok((v, n)) => Ok((((s[0] - 128) + 128 * v) as nat, n + 1)),
            Err(e) => Err(e),
        }
    }
}

/// The value of the low seven bits of `b` as a signed seven-bit number.
pub open spec fn signed_digit(b: u8) -> int {
    if b % 128 < 64 {
        (b % 128) as int
    } else {
        (b % 128) - 128
    }
}

/// Signed LEB128: the value and the number of bytes taken from the front of `s`,
/// with at most `k` bytes, the `k`-th byte (if reached) holding a signed digit in `[-lim, lim)`.
pub open spec fn decode_signed(s: Seq<u8>, k: nat, lim: int) -> Result<(int, nat), ReadError>
    decreases k,
{
    if s.len() == 0 {
        Err(ReadError::UnexpectedEof)
    } else if k <= 1 {
        if s[0] < 128 && -lim <= signed_digit(s[0]) < lim {
            Ok((signed_digit(s[0]), 1))
        } else {
            Err(ReadError::InvalidData)
        }
    } else if s[0] < 128 {
        Ok((signed_digit(s[0]), 1))
    } else {
        match decode_signed(s.drop_first(), (k - 1) as nat, lim) {
            Ok((v, n)) => Ok(((s[0] - 128) + 128 * v, n + 1)),
            Err(e) => Err(e),
        }
    }
}

/// Unsigned LEB128 of a 64-bit number (at most ten bytes)
pub open spec fn decode_u64(s: Seq<u8>) -> Result<(nat, nat), ReadError> {
    decode_unsigned(s, 10, 2)
}

/// Unsigned LEB128 of a 32-bit number (at most five bytes)
pub open spec fn decode_u32(s: Seq<u8>) -> Result<(nat, nat), ReadError> {
    decode_unsigned(s, 5, 16)
}

/// Signed LEB128 of a 64-bit number (at most ten bytes)
pub open spec fn decode_i64(s: Seq<u8>) -> Result<(int, nat), ReadError> {
    decode_signed(s, 10, 1)
}

/// Signed LEB128 of a 32-bit number (at most five bytes)
pub open spec fn decode_i32(s: Seq<u8>) -> Result<(int, nat), ReadError> {
    decode_signed(s, 5, 8)
}

/// What a successful unsigned decoding yields: a value below the limit, and a length
/// between one and `k` that lies within `s`.
pub proof fn lemma_decode_unsigned_bounds(s: Seq<u8>, k: nat, last: nat)
    requires
        k >= 1,
        1 <= last <= 128,
    ensures
        decode_unsigned(s, k, last) matches Ok((v, n)) ==> v < unsigned_limit(k, last) && 1 <= n
            <= k && n <= s.len(),
    decreases k,
{
    if s.len() > 0 && k > 1 && s[0] >= 128 {
        lemma_decode_unsigned_bounds(s.drop_first(), (k - 1) as nat, last);
        lemma_unsigned_limit_positive((k - 1) as nat, last);
    }
    if k > 1 {
        lemma_unsigned_limit_positive((k - 1) as nat, last);
    }
}

proof fn lemma_unsigned_limit_positive(k: nat, last: nat)
    ensures
        unsigned_limit(k, last) >= last,
    decreases k,
{
    if k > 1 {
        lemma_unsigned_limit_positive((k - 1) as nat, last);
    }
}


/// What a successful signed decoding yields: a value within the limit, and a length
/// between one and `k` that lies within `s`.
pub proof fn lemma_decode_signed_bounds(s: Seq<u8>, k: nat, lim: nat)
    requires
        k >= 1,
        1 <= lim <= 64,
    ensures
        decode_signed(s, k, lim as int) matches Ok((v, n)) ==> -(unsigned_limit(k, lim) as int) <= v
            < unsigned_limit(k, lim) && 1 <= n <= k && n <= s.len(),
    decreases k,
{
    if k > 1 {
        lemma_unsigned_limit_positive((k - 1) as nat, lim);
        if s.len() > 0 && s[0] >= 128 {
            lemma_decode_signed_bounds(s.drop_first(), (k - 1) as nat, lim);
        }
    }
}

/// A length-prefixed byte vector: the bytes and the number of bytes taken from the front of `s`
pub open spec fn decode_blob(s: Seq<u8>) -> Result<(Seq<u8>, nat), ReadError> {
    match decode_u32(s) {
        Ok((len, k)) => if k + len <= s.len() {
            Ok((s.subrange(k as int, (k + len) as int), k + len))
        } else {
            Err(ReadError::UnexpectedEof)
        },
        Err(e) => Err(e),
    }
}

/// The limits of the four integer widths
pub proof fn lemma_limits()
    ensures
        unsigned_limit(10, 2) == 0x1_0000_0000_0000_0000,
        unsigned_limit(5, 16) == 0x1_0000_0000,
        unsigned_limit(10, 1) == 0x8000_0000_0000_0000,
        unsigned_limit(5, 8) == 0x8000_0000,
{
    reveal_with_fuel(unsigned_limit, 11);
}

/// A length-prefixed UTF-8 string: its characters and the number of bytes taken from the front of `s`
pub open spec fn decode_string(s: Seq<u8>) -> Result<(Seq<char>, nat), ReadError> {
    match decode_blob(s) {
        Ok((b, n)) => if valid_utf8(b) {
            Ok((decode_utf8(b), n))
        } else {
            Err(ReadError::InvalidData)
        },
        Err(e) => Err(e),
    }
}

/// Decodes UTF-8 with `core::str::from_utf8`, whose documentation promises success exactly
/// on valid UTF-8; the string is the decoded text.
#[verifier::external_body]
fn utf8_to_string(bytes: &[u8]) -> (r: Option<String>)
    ensures
        r is Some <==> valid_utf8(bytes@),
        r matches Some(s) ==> s@ == decode_utf8(bytes@),
{
    match core::str::from_utf8(bytes) {
        Ok(s) => Some(s.to_string()),
        Err(_) => None,
    }
}

/// A reader over a byte stream, with a current position.
pub struct Leb128Reader {
    data: Vec<u8>,
    position: usize,
}

impl Leb128Reader {
    #[verifier::type_invariant]
    spec fn inv(&self) -> bool {
        self.position <= self.data.len()
    }

    /// The bytes not read yet after reading `n` more bytes are the old ones without their first `n`.
    pub proof fn lemma_advanced_rest(&self, other: &Self, n: nat)
        requires
            self.advanced(other, n),
            n <= self.rest().len(),
        ensures
            other.rest() =~= self.rest().skip(n as int),
            other.rest().len() == self.rest().len() - n,
    {
    }

    /// All bytes of the stream
    pub closed spec fn bytes(&self) -> Seq<u8> {
        self.data@
    }

    /// The current position
    pub closed spec fn pos(&self) -> nat {
        self.position as nat
    }

    /// The bytes that are not read yet
    pub open spec fn rest(&self) -> Seq<u8> {
        if self.pos() <= self.bytes().len() {
            self.bytes().subrange(self.pos() as int, self.bytes().len() as int)
        } else {
            Seq::empty()
        }
    }

    /// The reader that has read `n` more bytes than `self`
    pub open spec fn advanced(&self, other: &Self, n: nat) -> bool {
        &&& other.bytes() == self.bytes()
        &&& other.pos() == self.pos() + n
    }

    /// Creates a reader at the start of a copy of `slice`.
    pub fn from_slice(slice: &[u8]) -> (r: Self)
        ensures
            r.bytes() == slice@,
            r.pos() == 0,
    {
        let mut data: Vec<u8> = Vec::new();
        let mut i: usize = 0;
        while i < slice.len()
            invariant
                i <= slice.len(),
                data@ == slice@.subrange(0, i as int),
            decreases slice.len() - i,
        {
            data.push(slice[i]);
            i = i + 1;
        }
        Self { data, position: 0 }
    }

    /// Creates a reader at the start of `data`.
    pub fn from_vec(data: Vec<u8>) -> (r: Self)
        ensures
            r.bytes() == data@,
            r.pos() == 0,
    {
        Self { data, position: 0 }
    }

    /// The current position
    pub fn position(&self) -> (r: usize)
        ensures
            r == self.pos(),
            r <= self.bytes().len(),
    {
        proof {
            use_type_invariant(self);
        }
        self.position
    }

    /// The size of the whole stream
    pub fn len(&self) -> (r: usize)
        ensures
            r == self.bytes().len(),
    {
        self.data.len()
    }

    /// Whether every byte has been read
    pub fn is_eof(&self) -> (r: bool)
        ensures
            r == (self.rest().len() == 0),
            r == (self.pos() >= self.bytes().len()),
    {
        proof {
            use_type_invariant(self);
        }
        self.position >= self.data.len()
    }

    /// Goes back to the start of the stream.
    pub fn reset(&mut self)
        ensures
            final(self).bytes() == old(self).bytes(),
            final(self).pos() == 0,
    {
        self.position = 0;
    }

    /// Moves to a position within the stream.
    pub fn seek(&mut self, position: usize)
        requires
            position <= old(self).bytes().len(),
        ensures
            final(self).bytes() == old(self).bytes(),
            final(self).pos() == position,
    {
        self.position = position;
    }

    /// A reader over the same bytes at the same position
    pub fn cloned(&self) -> (r: Self)
        ensures
            r.bytes() == self.bytes(),
            r.pos() == self.pos(),
    {
        proof {
            use_type_invariant(self);
        }
        Self { data: self.data.clone(), position: self.position }
    }

    /// Reads one byte.
    pub fn read_byte(&mut self) -> (r: Result<u8, ReadError>)
        ensures
            old(self).rest().len() == 0 ==> r == Err::<u8, ReadError>(ReadError::UnexpectedEof)
                && old(self).advanced(final(self), 0),
            old(self).rest().len() > 0 ==> r == Ok::<u8, ReadError>(old(self).rest()[0])
                && old(self).advanced(final(self), 1),
    {
        proof {
            use_type_invariant(&*self);
        }
        if self.position < self.data.len() {
            let b = self.data[self.position];
            self.position = self.position + 1;
            Ok(b)
        } else {
            Err(ReadError::UnexpectedEof)
        }
    }

    /// Decodes an unsigned number starting at `pos`, of at most `k` bytes.
    fn unsigned_at(data: &Vec<u8>, pos: usize, k: usize, last: u8) -> (r: Result<(u64, usize), ReadError>)
        requires
            pos <= data.len(),
            1 <= k <= 10,
            1 <= last <= 128,
            unsigned_limit(k as nat, last as nat) <= u64::MAX + 1,
        ensures
            match r {
                Ok((v, n)) => decode_unsigned(data@.subrange(pos as int, data.len() as int), k as nat, last as nat)
                    == Ok::<(nat, nat), ReadError>((v as nat, n as nat)),
                Err(e) => decode_unsigned(data@.subrange(pos as int, data.len() as int), k as nat, last as nat)
                    == Err::<(nat, nat), ReadError>(e),
            },
        decreases k,
    {
        let ghost s = data@.subrange(pos as int, data.len() as int);
        if pos >= data.len() {
            return Err(ReadError::UnexpectedEof);
        }
        let b = data[pos];
        assert(s[0] == b);
        if k <= 1 {
            if b < last {
                Ok((b as u64, 1))
            } else {
                Err(ReadError::InvalidData)
            }
        } else if b < 128 {
            Ok((b as u64, 1))
        } else {
            assert(data@.subrange(pos + 1, data.len() as int) =~= s.drop_first());
            match Self::unsigned_at(data, pos + 1, k - 1, last) {
                Ok((v, n)) => {
                    proof {
                        lemma_decode_unsigned_bounds(s.drop_first(), (k - 1) as nat, last as nat);
                    }
                    Ok(((b - 128) as u64 + 128 * v, n + 1))
                },
                Err(e) => Err(e),
            }
        }
    }

    /// Decodes a signed number starting at `pos`, of at most `k` bytes.
    fn signed_at(data: &Vec<u8>, pos: usize, k: usize, lim: i64) -> (r: Result<(i64, usize), ReadError>)
        requires
            pos <= data.len(),
            1 <= k <= 10,
            1 <= lim <= 64,
            unsigned_limit(k as nat, lim as nat) <= i64::MAX + 1,
        ensures
            match r {
                Ok((v, n)) => decode_signed(data@.subrange(pos as int, data.len() as int), k as nat, lim as int)
                    == Ok::<(int, nat), ReadError>((v as int, n as nat)),
                Err(e) => decode_signed(data@.subrange(pos as int, data.len() as int), k as nat, lim as int)
                    == Err::<(int, nat), ReadError>(e),
            },
        decreases k,
    {
        let ghost s = data@.subrange(pos as int, data.len() as int);
        if pos >= data.len() {
            return Err(ReadError::UnexpectedEof);
        }
        let b = data[pos];
        assert(s[0] == b);
        let d: i64 = if b % 128 < 64 {
            (b % 128) as i64
        } else {
            (b % 128) as i64 - 128
        };
        if k <= 1 {
            if b < 128 && -lim <= d && d < lim {
                Ok((d, 1))
            } else {
                Err(ReadError::InvalidData)
            }
        } else if b < 128 {
            Ok((d, 1))
        } else {
            assert(data@.subrange(pos + 1, data.len() as int) =~= s.drop_first());
            match Self::signed_at(data, pos + 1, k - 1, lim) {
                Ok((v, n)) => {
                    proof {
                        lemma_decode_signed_bounds(s.drop_first(), (k - 1) as nat, lim as nat);
                    }
                    Ok(((b - 128) as i64 + 128 * v, n + 1))
                },
                Err(e) => Err(e),
            }
        }
    }

    /// Reads an unsigned LEB128 number of at most 64 bits.
    pub fn read_unsigned(&mut self) -> (r: Result<u64, ReadError>)
        ensures
            match decode_u64(old(self).rest()) {
                Ok((v, n)) => r == Ok::<u64, ReadError>(v as u64) && v < 0x1_0000_0000_0000_0000
                    && old(self).advanced(final(self), n),
                Err(e) => r == Err::<u64, ReadError>(e) && old(self).advanced(final(self), 0),
            },
    {
        proof {
            use_type_invariant(&*self);
            lemma_limits();
            lemma_decode_unsigned_bounds(self.rest(), 10, 2);
        }
        match Self::unsigned_at(&self.data, self.position, 10, 2) {
            Ok((v, n)) => {
                self.position = self.position + n;
                Ok(v)
            },
            Err(e) => Err(e),
        }
    }

    /// Reads an unsigned LEB128 number of at most 32 bits.
    pub fn read_u32(&mut self) -> (r: Result<u32, ReadError>)
        ensures
            match decode_u32(old(self).rest()) {
                Ok((v, n)) => r == Ok::<u32, ReadError>(v as u32) && v < 0x1_0000_0000
                    && old(self).advanced(final(self), n),
                Err(e) => r == Err::<u32, ReadError>(e) && old(self).advanced(final(self), 0),
            },
    {
        proof {
            use_type_invariant(&*self);
            lemma_limits();
            lemma_decode_unsigned_bounds(self.rest(), 5, 16);
        }
        match Self::unsigned_at(&self.data, self.position, 5, 16) {
            Ok((v, n)) => {
                self.position = self.position + n;
                Ok(v as u32)
            },
            Err(e) => Err(e),
        }
    }

    /// Reads an unsigned LEB128 number of at most 32 bits as an index or a length.
    pub fn read_usize(&mut self) -> (r: Result<usize, ReadError>)
        ensures
            match decode_u32(old(self).rest()) {
                Ok((v, n)) => r == Ok::<usize, ReadError>(v as usize) && v < 0x1_0000_0000
                    && old(self).advanced(final(self), n),
                Err(e) => r == Err::<usize, ReadError>(e) && old(self).advanced(final(self), 0),
            },
    {
        match self.read_u32() {
            Ok(v) => Ok(v as usize),
            Err(e) => Err(e),
        }
    }

    /// Reads a signed LEB128 number of at most 64 bits.
    pub fn read_signed(&mut self) -> (r: Result<i64, ReadError>)
        ensures
            match decode_i64(old(self).rest()) {
                Ok((v, n)) => r == Ok::<i64, ReadError>(v as i64) && i64::MIN <= v <= i64::MAX
                    && old(self).advanced(final(self), n),
                Err(e) => r == Err::<i64, ReadError>(e) && old(self).advanced(final(self), 0),
            },
    {
        proof {
            use_type_invariant(&*self);
            lemma_limits();
            lemma_decode_signed_bounds(self.rest(), 10, 1);
        }
        match Self::signed_at(&self.data, self.position, 10, 1) {
            Ok((v, n)) => {
                self.position = self.position + n;
                Ok(v)
            },
            Err(e) => Err(e),
        }
    }

    /// Reads a signed LEB128 number of at most 32 bits.
    pub fn read_i32(&mut self) -> (r: Result<i32, ReadError>)
        ensures
            match decode_i32(old(self).rest()) {
                Ok((v, n)) => r == Ok::<i32, ReadError>(v as i32) && i32::MIN <= v <= i32::MAX
                    && old(self).advanced(final(self), n),
                Err(e) => r == Err::<i32, ReadError>(e) && old(self).advanced(final(self), 0),
            },
    {
        proof {
            use_type_invariant(&*self);
            lemma_limits();
            lemma_decode_signed_bounds(self.rest(), 5, 8);
        }
        match Self::signed_at(&self.data, self.position, 5, 8) {
            Ok((v, n)) => {
                self.position = self.position + n;
                Ok(v as i32)
            },
            Err(e) => Err(e),
        }
    }

    /// Reads `n` bytes.
    pub fn read_bytes(&mut self, n: usize) -> (r: Result<Vec<u8>, ReadError>)
        ensures
            n <= old(self).rest().len() ==> (r matches Ok(v) && v@ == old(self).rest().subrange(0, n as int)
                && old(self).advanced(final(self), n as nat)),
            n > old(self).rest().len() ==> r == Err::<Vec<u8>, ReadError>(ReadError::UnexpectedEof)
                && old(self).advanced(final(self), 0),
    {
        proof {
            use_type_invariant(&*self);
        }
        if n > self.data.len() - self.position {
            return Err(ReadError::UnexpectedEof);
        }
        let mut v: Vec<u8> = Vec::new();
        let mut i: usize = 0;
        while i < n
            invariant
                i <= n,
                self.position + n <= self.data.len(),
                v@ == self.data@.subrange(self.position as int, self.position + i),
            decreases n - i,
        {
            v.push(self.data[self.position + i]);
            i = i + 1;
        }
        self.position = self.position + n;
        Ok(v)
    }

    /// Reads a length-prefixed byte vector.
    pub fn read_blob(&mut self) -> (r: Result<Vec<u8>, ReadError>)
        ensures
            match decode_blob(old(self).rest()) {
                Ok((v, n)) => (r matches Ok(b) && b@ == v && old(self).advanced(final(self), n)),
                Err(e) => r == Err::<Vec<u8>, ReadError>(e) && old(self).advanced(final(self), 0),
            },
    {
        proof {
            use_type_invariant(&*self);
        }
        let ghost s = self.rest();
        let start = self.position;
        let len = match self.read_usize() {
            Ok(v) => v,
            Err(e) => return Err(e),
        };
        let ghost mid = *self;
        proof {
            lemma_decode_unsigned_bounds(s, 5, 16);
            let (l, k) = decode_u32(s).unwrap();
            assert(mid.rest() =~= s.subrange(k as int, s.len() as int));
        }
        match self.read_bytes(len) {
            Ok(v) => {
                proof {
                    let (l, k) = decode_u32(s).unwrap();
                    assert(v@ =~= s.subrange(k as int, (k + l) as int));
                }
                Ok(v)
            },
            Err(e) => {
                self.position = start;
                Err(e)
            },
        }
    }

    /// Reads a length-prefixed UTF-8 string.
    pub fn get_string(&mut self) -> (r: Result<String, ReadError>)
        ensures
            match decode_string(old(self).rest()) {
                Ok((v, n)) => (r matches Ok(t) && t@ == v && old(self).advanced(final(self), n)),
                Err(e) => r == Err::<String, ReadError>(e) && old(self).advanced(final(self), 0),
            },
    {
        proof {
            use_type_invariant(&*self);
        }
        let start = self.position;
        let blob = match self.read_blob() {
            Ok(b) => b,
            Err(e) => return Err(e),
        };
        match utf8_to_string(blob.as_slice()) {
            Some(t) => Ok(t),
            None => {
                self.position = start;
                Err(ReadError::InvalidData)
            },
        }
    }

    /// Takes the next `length` bytes as a reader of their own.
    pub fn sub_slice(&mut self, length: usize) -> (r: Option<Self>)
        ensures
            length <= old(self).rest().len() ==> (r matches Some(sub) && sub.bytes()
                == old(self).rest().subrange(0, length as int) && sub.pos() == 0
                && old(self).advanced(final(self), length as nat)),
            length > old(self).rest().len() ==> r is None && old(self).advanced(final(self), 0),
    {
        match self.read_bytes(length) {
            Ok(v) => Some(Self::from_vec(v)),
            Err(_) => None,
        }
    }

    /// Appends every byte that is not read yet to `out`.
    pub fn read_to_end(&mut self, out: &mut Vec<u8>) -> (r: Result<usize, ReadError>)
        ensures
            r == Ok::<usize, ReadError>(old(self).rest().len() as usize),
            final(out)@ == old(out)@ + old(self).rest(),
            old(self).advanced(final(self), old(self).rest().len()),
    {
        proof {
            use_type_invariant(&*self);
        }
        let n = self.data.len() - self.position;
        let ghost out0 = out@;
        let mut i: usize = 0;
        while i < n
            invariant
                i <= n,
                self.position + n == self.data.len(),
                out@ == out0 + self.data@.subrange(self.position as int, self.position + i),
            decreases n - i,
        {
            out.push(self.data[self.position + i]);
            proof {
                assert(self.data@.subrange(self.position as int, self.position + i + 1) =~= self.data@.subrange(
                    self.position as int,
                    self.position + i,
                ).push(self.data@[self.position + i]));
            }
            i = i + 1;
        }
        self.position = self.data.len();
        Ok(n)
    }
}

} // verus!
