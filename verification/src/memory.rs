//! The linear memory of a WebAssembly instance
use crate::error::{CompileErrorKind, WasmRuntimeErrorKind};
use crate::wasm::{WasmLimit, WebAssembly};
use vstd::prelude::*;

verus! {

/// The number of bytes of a page
pub open spec fn page_size() -> nat {
    65536
}

/// The little-endian value of `b`
pub open spec fn le_value(b: Seq<u8>) -> nat
    decreases b.len(),
{
    if b.len() == 0 {
        0
    } else {
        (b[0] + 256 * le_value(b.drop_first())) as nat
    }
}

/// `256` to the power `w`
pub open spec fn pow256(w: nat) -> nat
    decreases w,
{
    if w == 0 {
        1
    } else {
        256 * pow256((w - 1) as nat)
    }
}

/// The `w` little-endian bytes of `v` (the higher bytes are dropped)
pub open spec fn le_bytes(v: nat, w: nat) -> Seq<u8>
    decreases w,
{
    if w == 0 {
        Seq::empty()
    } else {
        seq![(v % 256) as u8] + le_bytes(v / 256, (w - 1) as nat)
    }
}

/// Writing the bytes of `v` and reading them back gives `v` modulo `256^w`.
pub proof fn lemma_le_roundtrip(v: nat, w: nat)
    ensures
        le_bytes(v, w).len() == w,
        le_value(le_bytes(v, w)) == v % pow256(w),
    decreases w,
{
    if w > 0 {
        lemma_le_roundtrip(v / 256, (w - 1) as nat);
        let b = le_bytes(v, w);
        assert(b.drop_first() =~= le_bytes(v / 256, (w - 1) as nat));
        lemma_pow256_positive((w - 1) as nat);
        vstd::arithmetic::div_mod::lemma_mod_breakdown(v as int, 256, pow256((w - 1) as nat) as int);
    }
}

/// A power of 256 is positive.
pub proof fn lemma_pow256_positive(w: nat)
    ensures
        pow256(w) > 0,
    decreases w,
{
    if w > 0 {
        lemma_pow256_positive((w - 1) as nat);
    }
}

/// A little-endian value of `w` bytes is below `256^w`.
pub proof fn lemma_le_value_bound(b: Seq<u8>)
    ensures
        le_value(b) < pow256(b.len()),
    decreases b.len(),
{
    if b.len() > 0 {
        lemma_le_value_bound(b.drop_first());
    }
}

/// The bytes of a memory
pub struct SharedDataStore {
    data: Vec<u8>,
}

impl SharedDataStore {
    /// The bytes
    pub closed spec fn bytes(&self) -> Seq<u8> {
        self.data@
    }

    /// An empty store
    pub fn new() -> (r: Self)
        ensures
            r.bytes() == Seq::<u8>::empty(),
    {
        Self { data: Vec::new() }
    }

    /// The bytes
    pub fn as_slice(&self) -> (r: &[u8])
        ensures
            r@ == self.bytes(),
    {
        self.data.as_slice()
    }

    /// The number of bytes
    pub fn len(&self) -> (r: usize)
        ensures
            r == self.bytes().len(),
    {
        self.data.len()
    }

    /// Appends `additional` zero bytes: `InvalidParameter` when the new length overflows,
    /// `OutOfMemory` when the allocator refuses them.
    pub fn try_grow(&mut self, additional: usize) -> (r: Result<(), WasmRuntimeErrorKind>)
        ensures
            old(self).bytes().len() + additional > usize::MAX ==> r == Err::<(), WasmRuntimeErrorKind>(
                WasmRuntimeErrorKind::InvalidParameter,
            ),
            r is Ok ==> final(self).bytes() == old(self).bytes() + Seq::new(
                additional as nat,
                |i: int| 0u8,
            ),
            r is Err ==> final(self).bytes() == old(self).bytes(),
            old(self).bytes().len() + additional <= usize::MAX && r is Err ==> r == Err::<
                (),
                WasmRuntimeErrorKind,
            >(WasmRuntimeErrorKind::OutOfMemory),
    {
        let old_size = self.data.len();
        let new_size = match old_size.checked_add(additional) {
            Some(v) => v,
            None => return Err(WasmRuntimeErrorKind::InvalidParameter),
        };
        if self.data.try_reserve(additional).is_err() {
            return Err(WasmRuntimeErrorKind::OutOfMemory);
        }
        let ghost before = self.data@;
        self.data.resize(new_size, 0);
        proof {
            assert(self.data@ =~= before + Seq::new(additional as nat, |i: int| 0u8)) by {
                assert forall|i: int| 0 <= i < self.data@.len() implies self.data@[i] == (before
                    + Seq::new(additional as nat, |i: int| 0u8))[i] by {
                    if i >= before.len() {
                        assert(cloned::<u8>(0u8, self.data@[i]));
                    } else {
                        assert(self.data@.subrange(0, before.len() as int)[i] == before[i]);
                    }
                }
            }
        }
        Ok(())
    }

    /// Sets every byte to `value`.
    pub fn fill(&mut self, value: u8)
        ensures
            final(self).bytes() == Seq::new(old(self).bytes().len(), |i: int| value),
    {
        let n = self.data.len();
        let mut i: usize = 0;
        while i < n
            invariant
                i <= n,
                n == self.data@.len(),
                forall|j: int| 0 <= j < i ==> self.data@[j] == value,
            decreases n - i,
        {
            self.data.set(i, value);
            i = i + 1;
        }
        proof {
            assert(self.data@ =~= Seq::new(n as nat, |i: int| value));
        }
    }

    /// Reads the little-endian number of `width` bytes at `offset`.
    pub fn read_le(&self, offset: usize, width: usize) -> (r: u64)
        requires
            width <= 8,
            offset + width <= self.bytes().len(),
        ensures
            r == le_value(self.bytes().subrange(offset as int, offset + width)),
    {
        let ghost b = self.data@.subrange(offset as int, offset + width);
        proof {
            lemma_le_value_bound(b);
            lemma_pow256_8(width as nat);
        }
        let mut v: u64 = 0;
        let mut i: usize = width;
        while i > 0
            invariant
                i <= width <= 8,
                offset + width <= self.data.len(),
                b == self.data@.subrange(offset as int, offset + width),
                v == le_value(b.subrange(i as int, width as int)),
                le_value(b.subrange(i as int, width as int)) < pow256((width - i) as nat),
                pow256(width as nat) <= 0x1_0000_0000_0000_0000,
            decreases i,
        {
            let ghost tail = b.subrange(i as int, width as int);
            let ghost tail2 = b.subrange(i - 1, width as int);
            proof {
                assert(tail2.drop_first() =~= tail);
                lemma_le_value_bound(tail2);
                lemma_pow256_mono((width - i + 1) as nat, width as nat);
            }
            v = v * 256 + self.data[offset + i - 1] as u64;
            i = i - 1;
        }
        proof {
            assert(b.subrange(0, width as int) =~= b);
        }
        v
    }

    /// Reads a 32-bit little-endian number.
    pub fn read_u32(&self, offset: usize) -> (r: u32)
        requires
            offset + 4 <= self.bytes().len(),
        ensures
            r == le_value(self.bytes().subrange(offset as int, offset + 4)),
    {
        let v = self.read_le(offset, 4);
        proof {
            lemma_le_value_bound(self.bytes().subrange(offset as int, offset + 4));
            reveal_with_fuel(pow256, 5);
        }
        v as u32
    }

    /// Reads a 32-bit little-endian number as a signed number.
    pub fn read_i32(&self, offset: usize) -> (r: i32)
        requires
            offset + 4 <= self.bytes().len(),
        ensures
            r == le_value(self.bytes().subrange(offset as int, offset + 4)) as u32 as i32,
    {
        self.read_u32(offset) as i32
    }

    /// Reads a 64-bit little-endian number.
    pub fn read_u64(&self, offset: usize) -> (r: u64)
        requires
            offset + 8 <= self.bytes().len(),
        ensures
            r == le_value(self.bytes().subrange(offset as int, offset + 8)),
    {
        self.read_le(offset, 8)
    }

    /// Reads a 64-bit little-endian number as a signed number.
    pub fn read_i64(&self, offset: usize) -> (r: i64)
        requires
            offset + 8 <= self.bytes().len(),
        ensures
            r == le_value(self.bytes().subrange(offset as int, offset + 8)) as u64 as i64,
    {
        self.read_u64(offset) as i64
    }

    /// Writes the `width` low bytes of `value` at `offset`, little-endian.
    pub fn write_le(&mut self, offset: usize, width: usize, value: u64)
        requires
            width <= 8,
            offset + width <= old(self).bytes().len(),
        ensures
            final(self).bytes() == old(self).bytes().subrange(0, offset as int) + le_bytes(
                value as nat,
                width as nat,
            ) + old(self).bytes().subrange(offset + width, old(self).bytes().len() as int),
    {
        let ghost old_bytes = self.data@;
        proof {
            assert(pow256(0) == 1);
            vstd::arithmetic::div_mod::lemma_div_basics(value as int);
            assert(le_bytes(value as nat, 0) =~= Seq::<u8>::empty());
            assert(old_bytes.subrange(0, offset as int) + Seq::<u8>::empty() + old_bytes.subrange(offset as int, old_bytes.len() as int) =~= old_bytes);
        }
        let mut v: u64 = value;
        let mut i: usize = 0;
        while i < width
            invariant
                i <= width <= 8,
                offset + width <= self.data.len(),
                self.data@.len() == old_bytes.len(),
                v as nat == value as nat / pow256(i as nat),
                le_bytes(value as nat, width as nat) == le_bytes(value as nat, i as nat) + le_bytes(
                    v as nat,
                    (width - i) as nat,
                ),
                self.data@ == old_bytes.subrange(0, offset as int) + le_bytes(value as nat, i as nat)
                    + old_bytes.subrange(offset + i, old_bytes.len() as int),
            decreases width - i,
        {
            proof {
                lemma_le_bytes_split(value as nat, i as nat, (width - i) as nat, v as nat);
            }
            self.data.set(offset + i, (v % 256) as u8);
            proof {
                lemma_pow256_positive(i as nat);
                vstd::arithmetic::div_mod::lemma_div_denominator(value as int, pow256(i as nat) as int, 256);
                assert(le_bytes(value as nat, (i + 1) as nat) =~= le_bytes(value as nat, i as nat) + seq![(v % 256) as u8]) by {
                    lemma_le_bytes_last(value as nat, i as nat);
                }
                assert(self.data@ =~= old_bytes.subrange(0, offset as int) + le_bytes(value as nat, (i + 1) as nat)
                    + old_bytes.subrange(offset + i + 1, old_bytes.len() as int));
            }
            v = v / 256;
            i = i + 1;
        }
        proof {
            assert(le_bytes(v as nat, 0) =~= Seq::<u8>::empty());
        }
    }
}

/// The 32-bit little-endian number at `offset` of `bytes`: `None` when its four bytes are not
/// all within `bytes`
pub fn read_u32_at(bytes: &[u8], offset: usize) -> (r: Option<u32>)
    ensures
        r is Some <==> offset + 4 <= bytes@.len(),
        r matches Some(v) ==> v == le_value(bytes@.subrange(offset as int, offset + 4)),
{
    if offset > bytes.len() || bytes.len() - offset < 4 {
        return None;
    }
    let b0 = bytes[offset] as u32;
    let b1 = bytes[offset + 1] as u32;
    let b2 = bytes[offset + 2] as u32;
    let b3 = bytes[offset + 3] as u32;
    let v = b0 + 256 * (b1 + 256 * (b2 + 256 * b3));
    proof {
        let w = bytes@.subrange(offset as int, offset + 4);
        assert(w.drop_first().drop_first().drop_first().drop_first().len() == 0);
        assert(w.drop_first()[0] == b1);
        assert(w.drop_first().drop_first()[0] == b2);
        assert(w.drop_first().drop_first().drop_first()[0] == b3);
        reveal_with_fuel(le_value, 5);
    }
    Some(v)
}

/// WebAssembly memory object: pages of 64Ki bytes, up to a limit of pages
pub struct WasmMemory {
    data: SharedDataStore,
    size: u32,
    limit: u32,
}

/// `n` zero bytes
pub open spec fn zeros(n: nat) -> Seq<u8> {
    Seq::new(n, |i: int| 0u8)
}

/// Whether `count` bytes from `base` lie within `limit` bytes (the end saturating at `u64::MAX`)
pub open spec fn within_bound(base: u64, count: usize, limit: usize) -> bool {
    let end = if base + count > u64::MAX {
        u64::MAX as int
    } else {
        base + count
    };
    end <= limit
}

impl WasmMemory {
    #[verifier::type_invariant]
    spec fn inv(&self) -> bool {
        &&& self.data.bytes().len() == self.size * 65536
        &&& self.size <= self.limit <= 0x10000
    }

    /// The bytes of the memory
    pub closed spec fn bytes(&self) -> Seq<u8> {
        self.data.bytes()
    }

    /// The number of pages
    pub closed spec fn pages(&self) -> nat {
        self.size as nat
    }

    /// The largest number of pages
    pub closed spec fn max_pages(&self) -> nat {
        self.limit as nat
    }

    /// The largest number of pages for a limit: its maximum if any, at most 0x10000
    pub open spec fn page_limit(limit: WasmLimit) -> nat {
        let m = match limit.max {
            Some(m) => m as nat,
            None => u32::MAX as nat,
        };
        if m < 0x10000 {
            m
        } else {
            0x10000
        }
    }

    /// A memory without pages
    pub fn zero() -> (r: Self)
        ensures
            r.bytes() == Seq::<u8>::empty(),
            r.pages() == 0,
            r.max_pages() == 0,
    {
        Self { data: SharedDataStore::new(), size: 0, limit: 0 }
    }

    /// A memory of `limit.min` zeroed pages that may grow up to the limit.
    pub fn new(limit: WasmLimit) -> (r: Result<Self, CompileErrorKind>)
        ensures
            match r {
                Ok(m) => m.max_pages() == Self::page_limit(limit) && m.bytes() == zeros(m.pages()
                    * page_size()) && (m.pages() == if limit.spec_is_zero() {
                    0
                } else {
                    limit.min as nat
                }),
                Err(e) => e == CompileErrorKind::OutOfMemory,
            },
            !limit.spec_is_zero() && limit.min > Self::page_limit(limit) ==> r is Err,
            r is Err ==> !limit.spec_is_zero() && limit.min > 0,
    {
        let max = match limit.max {
            Some(m) => m,
            None => u32::MAX,
        };
        let lim = if max < 0x10000 {
            max
        } else {
            0x10000
        };
        let mut memory = Self { data: SharedDataStore::new(), size: 0, limit: lim };
        if limit.is_zero() {
            return Ok(memory);
        }
        match memory.grow(limit.min) {
            Ok(_) => Ok(memory),
            Err(_) => Err(CompileErrorKind::OutOfMemory),
        }
    }

    /// The bytes, for reading
    pub fn try_borrow(&self) -> (r: Result<&SharedDataStore, WasmRuntimeErrorKind>)
        ensures
            r matches Ok(d) && d.bytes() == self.bytes(),
            r matches Ok(d) && d.bytes().len() == self.pages() * page_size() && self.pages() <= self.max_pages()
                <= 0x10000,
    {
        proof {
            use_type_invariant(self);
        }
        Ok(&self.data)
    }

    /// Runs `kernel` on the bytes, which it may change but not resize, and gives what it returns
    pub fn borrowing<F: FnOnce(&mut [u8]) -> R, R>(&mut self, kernel: F) -> (r: Result<R, WasmRuntimeErrorKind>)
        requires
            forall|s: &mut [u8]| #[trigger] kernel.requires((s,)),
        ensures
            r is Ok,
            final(self).pages() == old(self).pages(),
            final(self).max_pages() == old(self).max_pages(),
            final(self).bytes().len() == old(self).bytes().len(),
    {
        proof {
            use_type_invariant(&*self);
        }
        let mut whole = Self::zero();
        core::mem::swap(&mut whole, self);
        let Self { mut data, size, limit } = whole;
        let n = data.data.len();
        let result = kernel(data.data.as_mut_slice());
        if data.data.len() != n {
            // a slice keeps its length, so the bytes are never resized here
            data.data.resize(n, 0);
        }
        *self = Self { data, size, limit };
        Ok(result)
    }

    /// The largest number of pages the memory may grow to
    pub fn limit(&self) -> (r: u32)
        ensures
            r == self.max_pages(),
    {
        self.limit
    }

    /// A memory with the same bytes and limit
    pub fn duplicate(&self) -> (r: Self)
        ensures
            r.bytes() == self.bytes(),
            r.pages() == self.pages(),
            r.max_pages() == self.max_pages(),
    {
        proof {
            use_type_invariant(self);
        }
        let src = self.data.as_slice();
        let mut copy: Vec<u8> = Vec::new();
        let mut i: usize = 0;
        while i < src.len()
            invariant
                i <= src@.len(),
                copy@ == src@.take(i as int),
            decreases src.len() - i,
        {
            copy.push(src[i]);
            proof {
                assert(src@.take(i + 1) =~= src@.take(i as int).push(src@[i as int]));
            }
            i = i + 1;
        }
        proof {
            assert(src@.take(src@.len() as int) =~= src@);
        }
        Self { data: SharedDataStore { data: copy }, size: self.size, limit: self.limit }
    }

    /// memory.size: the number of pages. The bytes are exactly that many pages, and there
    /// are never more pages than the limit, which is at most 0x10000.
    pub fn size(&self) -> (r: u32)
        ensures
            r == self.pages(),
            r * page_size() == self.bytes().len(),
            r <= self.max_pages() <= 0x10000,
    {
        proof {
            use_type_invariant(self);
        }
        self.size
    }

    /// The number of bytes
    pub fn len(&self) -> (r: usize)
        ensures
            r == self.bytes().len(),
    {
        self.data.len()
    }

    /// memory.grow: adds `delta` zeroed pages and returns the former number of pages.
    pub fn grow(&mut self, delta: u32) -> (r: Result<u32, WasmRuntimeErrorKind>)
        ensures
            final(self).max_pages() == old(self).max_pages(),
            delta == 0 ==> r == Ok::<u32, WasmRuntimeErrorKind>(old(self).pages() as u32),
            delta > 0 && old(self).pages() + delta > old(self).max_pages() ==> r == Err::<
                u32,
                WasmRuntimeErrorKind,
            >(WasmRuntimeErrorKind::InvalidParameter),
            r matches Ok(p) ==> p == old(self).pages() && final(self).pages() == old(self).pages()
                + delta && final(self).bytes() == old(self).bytes() + zeros((delta * page_size()) as nat),
            r matches Err(e) ==> final(self).pages() == old(self).pages() && final(self).bytes()
                == old(self).bytes() && (e == WasmRuntimeErrorKind::InvalidParameter || e
                == WasmRuntimeErrorKind::OutOfMemory),
    {
        proof {
            use_type_invariant(&*self);
        }
        if delta > 0 {
            let old_len = self.size;
            let new_len = old_len.saturating_add(delta);
            if new_len > self.limit {
                return Err(WasmRuntimeErrorKind::InvalidParameter);
            }
            let additional = match (delta as usize).checked_mul(WebAssembly::PAGE_SIZE) {
                Some(v) => v,
                None => return Err(WasmRuntimeErrorKind::InvalidParameter),
            };
            let mut whole = Self::zero();
            core::mem::swap(&mut whole, self);
            let Self { mut data, size, limit } = whole;
            let res = data.try_grow(additional);
            match res {
                Ok(()) => {
                    proof {
                        assert(data.bytes().len() == new_len * 65536) by (nonlinear_arith)
                            requires
                                data.bytes().len() == size * 65536 + additional,
                                additional == delta * 65536,
                                new_len == size + delta,
                        ;
                    }
                    *self = Self { data, size: new_len, limit };
                    Ok(old_len)
                },
                Err(e) => {
                    *self = Self { data, size, limit };
                    Err(e)
                },
            }
        } else {
            Ok(self.size)
        }
    }

    /// Writes `src` at `offset`; the offset must lie within the memory.
    pub fn write_slice(&mut self, offset: usize, src: &[u8]) -> (r: Result<(), WasmRuntimeErrorKind>)
        ensures
            final(self).pages() == old(self).pages(),
            final(self).max_pages() == old(self).max_pages(),
            r is Ok <==> offset < old(self).bytes().len() && offset + src@.len() <= old(self).bytes().len(),
            r is Ok ==> final(self).bytes() == old(self).bytes().subrange(0, offset as int) + src@
                + old(self).bytes().subrange(offset + src@.len(), old(self).bytes().len() as int),
            r matches Err(e) ==> e == WasmRuntimeErrorKind::OutOfBounds && final(self).bytes() == old(
                self,
            ).bytes(),
    {
        proof {
            use_type_invariant(&*self);
        }
        let count = src.len();
        let limit = self.data.len();
        let end = match offset.checked_add(count) {
            Some(e) => e,
            None => return Err(WasmRuntimeErrorKind::OutOfBounds),
        };
        if offset < limit && end <= limit {
            let mut whole = Self::zero();
            core::mem::swap(&mut whole, self);
            let Self { mut data, size, limit: lim } = whole;
            let ghost b0 = data.bytes();
            let mut i: usize = 0;
            while i < count
                invariant
                    i <= count,
                    count == src@.len(),
                    end == offset + count,
                    end <= b0.len(),
                    data.bytes().len() == b0.len(),
                    data.bytes() == b0.subrange(0, offset as int) + src@.subrange(0, i as int)
                        + b0.subrange(offset + i, b0.len() as int),
                decreases count - i,
            {
                data.write_le(offset + i, 1, src[i] as u64);
                proof {
                    reveal_with_fuel(le_bytes, 2);
                    assert(le_bytes(src[i as int] as nat, 1) =~= seq![src[i as int]]);
                    assert(data.bytes() =~= b0.subrange(0, offset as int) + src@.subrange(0, i + 1)
                        + b0.subrange(offset + i + 1, b0.len() as int));
                }
                i = i + 1;
            }
            proof {
                assert(src@.subrange(0, count as int) =~= src@);
            }
            *self = Self { data, size, limit: lim };
            Ok(())
        } else {
            Err(WasmRuntimeErrorKind::OutOfBounds)
        }
    }

    /// memory.copy: copies the `count` bytes at `src` to `dest`, as if through a buffer;
    /// `OutOfBounds` when either range does not lie within the memory.
    pub fn copy_within(&mut self, dest: u32, src: u32, count: u32) -> (r: Result<(), WasmRuntimeErrorKind>)
        ensures
            final(self).pages() == old(self).pages(),
            final(self).max_pages() == old(self).max_pages(),
            r is Ok <==> dest + count <= old(self).bytes().len() && src + count <= old(self).bytes().len(),
            r is Ok ==> final(self).bytes() == old(self).bytes().take(dest as int) + old(self).bytes().subrange(
                src as int,
                src + count,
            ) + old(self).bytes().skip(dest + count),
            r matches Err(e) ==> e == WasmRuntimeErrorKind::OutOfBounds && final(self).bytes() == old(
                self,
            ).bytes(),
    {
        let len = self.len();
        if Self::check_bound(dest as u64, count as usize, len).is_err() || Self::check_bound(
            src as u64,
            count as usize,
            len,
        ).is_err() {
            return Err(WasmRuntimeErrorKind::OutOfBounds);
        }
        if count == 0 {
            proof {
                assert(self.bytes() =~= self.bytes().take(dest as int) + self.bytes().subrange(src as int, src as int)
                    + self.bytes().skip(dest as int));
            }
            return Ok(());
        }
        let bytes = self.data.as_slice();
        let mut buffer: Vec<u8> = Vec::new();
        let mut i: usize = 0;
        while i < count as usize
            invariant
                i <= count,
                len == bytes@.len(),
                src + count <= bytes@.len(),
                buffer@ == bytes@.subrange(src as int, src + i),
            decreases count - i,
        {
            buffer.push(bytes[src as usize + i]);
            proof {
                assert(bytes@.subrange(src as int, src + i + 1) =~= bytes@.subrange(src as int, src + i).push(
                    bytes@[src + i],
                ));
            }
            i = i + 1;
        }
        let ghost b0 = self.bytes();
        let r = self.write_slice(dest as usize, buffer.as_slice());
        proof {
            assert(b0.subrange(0, dest as int) =~= b0.take(dest as int));
            assert(b0.subrange(dest + count, b0.len() as int) =~= b0.skip(dest + count));
        }
        r
    }

    /// memory.fill: sets the `count` bytes at `base` to `value`; `OutOfBounds` when they do not
    /// lie within the memory.
    pub fn fill_range(&mut self, base: u32, value: u8, count: u32) -> (r: Result<(), WasmRuntimeErrorKind>)
        ensures
            final(self).pages() == old(self).pages(),
            final(self).max_pages() == old(self).max_pages(),
            r is Ok <==> base + count <= old(self).bytes().len(),
            r is Ok ==> final(self).bytes() == old(self).bytes().take(base as int) + Seq::new(
                count as nat,
                |i: int| value,
            ) + old(self).bytes().skip(base + count),
            r matches Err(e) ==> e == WasmRuntimeErrorKind::OutOfBounds && final(self).bytes() == old(
                self,
            ).bytes(),
    {
        let len = self.len();
        if Self::check_bound(base as u64, count as usize, len).is_err() {
            return Err(WasmRuntimeErrorKind::OutOfBounds);
        }
        if count == 0 {
            proof {
                assert(self.bytes() =~= self.bytes().take(base as int) + Seq::new(0, |i: int| value)
                    + self.bytes().skip(base as int));
            }
            return Ok(());
        }
        let mut buffer: Vec<u8> = Vec::new();
        let mut i: usize = 0;
        while i < count as usize
            invariant
                i <= count,
                buffer@ == Seq::new(i as nat, |j: int| value),
            decreases count - i,
        {
            buffer.push(value);
            proof {
                assert(buffer@ =~= Seq::new((i + 1) as nat, |j: int| value));
            }
            i = i + 1;
        }
        let ghost b0 = self.bytes();
        let r = self.write_slice(base as usize, buffer.as_slice());
        proof {
            assert(b0.subrange(0, base as int) =~= b0.take(base as int));
            assert(b0.subrange(base + count, b0.len() as int) =~= b0.skip(base + count));
        }
        r
    }

    /// Whether `count` bytes from `base` lie within `limit` bytes
    pub fn check_bound(base: u64, count: usize, limit: usize) -> (r: Result<(), WasmRuntimeErrorKind>)
        ensures
            r is Ok <==> within_bound(base, count, limit),
            r matches Err(e) ==> e == WasmRuntimeErrorKind::OutOfBounds,
    {
        if base.saturating_add(count as u64) <= limit as u64 {
            Ok(())
        } else {
            Err(WasmRuntimeErrorKind::OutOfBounds)
        }
    }

    /// The address `offset + index` of a `T`, when the whole `T` lies within `limit` bytes
    pub fn effective_address<T>(offset: u32, index: u32, limit: usize) -> (r: Result<usize, WasmRuntimeErrorKind>)
        ensures
            r is Ok <==> within_bound((offset + index) as u64, vstd::layout::size_of::<T>() as usize, limit),
            r matches Ok(ea) ==> ea == offset + index,
            r matches Err(e) ==> e == WasmRuntimeErrorKind::OutOfBounds,
    {
        let size = core::mem::size_of::<T>();
        let base = (offset as u64) + (index as u64);
        match Self::check_bound(base, size, limit) {
            Ok(()) => Ok(base as usize),
            Err(e) => Err(e),
        }
    }

    /// Reads the little-endian number of `width` bytes at `offset + index`.
    pub fn load(&self, offset: u32, index: u32, width: usize) -> (r: Result<u64, WasmRuntimeErrorKind>)
        requires
            width <= 8,
        ensures
            r is Ok <==> offset + index + width <= self.bytes().len(),
            r matches Ok(v) ==> v == le_value(self.bytes().subrange(offset + index, offset + index + width)),
            r matches Err(e) ==> e == WasmRuntimeErrorKind::OutOfBounds,
    {
        let base = (offset as u64) + (index as u64);
        match Self::check_bound(base, width, self.data.len()) {
            Ok(()) => Ok(self.data.read_le(base as usize, width)),
            Err(e) => Err(e),
        }
    }

    /// Writes the `width` low bytes of `value` at `offset + index`, little-endian.
    pub fn store(&mut self, offset: u32, index: u32, width: usize, value: u64) -> (r: Result<(), WasmRuntimeErrorKind>)
        requires
            width <= 8,
        ensures
            final(self).pages() == old(self).pages(),
            final(self).max_pages() == old(self).max_pages(),
            r is Ok <==> offset + index + width <= old(self).bytes().len(),
            r is Ok ==> final(self).bytes() == old(self).bytes().subrange(0, offset + index) + le_bytes(
                value as nat,
                width as nat,
            ) + old(self).bytes().subrange(offset + index + width, old(self).bytes().len() as int),
            r matches Err(e) ==> e == WasmRuntimeErrorKind::OutOfBounds && final(self).bytes() == old(
                self,
            ).bytes(),
    {
        proof {
            use_type_invariant(&*self);
        }
        let base = (offset as u64) + (index as u64);
        match Self::check_bound(base, width, self.data.len()) {
            Ok(()) => {
                let mut whole = Self::zero();
                core::mem::swap(&mut whole, self);
                proof {
                    use_type_invariant(&whole);
                }
                let Self { mut data, size, limit } = whole;
                data.write_le(base as usize, width, value);
                proof {
                    lemma_le_roundtrip(value as nat, width as nat);
                }
                *self = Self { data, size, limit };
                Ok(())
            },
            Err(e) => Err(e),
        }
    }
}

/// A load of `width` bytes gives back what a store of the same width wrote at the same address,
/// reduced to `width` bytes.
pub proof fn lemma_store_then_load(before: Seq<u8>, after: Seq<u8>, ea: nat, width: nat, value: nat)
    requires
        ea + width <= before.len(),
        after == before.subrange(0, ea as int) + le_bytes(value, width) + before.subrange(
            (ea + width) as int,
            before.len() as int,
        ),
    ensures
        le_value(after.subrange(ea as int, (ea + width) as int)) == value % pow256(width),
        after.len() == before.len(),
{
    lemma_le_roundtrip(value, width);
    assert(after.subrange(ea as int, (ea + width) as int) =~= le_bytes(value, width));
}

/// `256^w` is at most `2^64` for `w <= 8`.
pub proof fn lemma_pow256_8(w: nat)
    requires
        w <= 8,
    ensures
        pow256(w) <= 0x1_0000_0000_0000_0000,
{
    reveal_with_fuel(pow256, 9);
    lemma_pow256_mono(w, 8);
}

/// Powers of 256 increase with the exponent.
pub proof fn lemma_pow256_mono(a: nat, b: nat)
    requires
        a <= b,
    ensures
        pow256(a) <= pow256(b),
    decreases b,
{
    if a < b {
        lemma_pow256_mono(a, (b - 1) as nat);
        lemma_pow256_positive((b - 1) as nat);
    }
}

/// The bytes of `v` split at `i`: the first `i`, then those of `v / 256^i`.
proof fn lemma_le_bytes_split(v: nat, i: nat, k: nat, rest: nat)
    requires
        rest == v / pow256(i),
    ensures
        le_bytes(v, i + k) == le_bytes(v, i) + le_bytes(rest, k),
    decreases i,
{
    if i > 0 {
        lemma_pow256_positive((i - 1) as nat);
        vstd::arithmetic::div_mod::lemma_div_denominator(v as int, 256, pow256((i - 1) as nat) as int);
        lemma_le_bytes_split(v / 256, (i - 1) as nat, k, rest);
        assert(le_bytes(v, i + k) == seq![(v % 256) as u8] + le_bytes(v / 256, (i - 1 + k) as nat));
        assert(le_bytes(v, i) == seq![(v % 256) as u8] + le_bytes(v / 256, (i - 1) as nat));
        assert(le_bytes(v, i + k) =~= le_bytes(v, i) + le_bytes(rest, k));
    } else {
        vstd::arithmetic::div_mod::lemma_div_basics(v as int);
        assert(rest == v);
        assert(le_bytes(v, 0) + le_bytes(rest, k) =~= le_bytes(rest, k));
    }
}

/// The bytes of `v` up to `i + 1` are those up to `i`, then the byte of `v / 256^i`.
proof fn lemma_le_bytes_last(v: nat, i: nat)
    ensures
        le_bytes(v, i + 1) == le_bytes(v, i) + seq![((v / pow256(i)) % 256) as u8],
    decreases i,
{
    lemma_pow256_positive(i);
    lemma_le_bytes_split(v, i, 1, v / pow256(i));
    reveal_with_fuel(le_bytes, 2);
    assert(le_bytes(v / pow256(i), 1) =~= seq![((v / pow256(i)) % 256) as u8]);
}

} // verus!
