use vstd::prelude::*;

verus! {

use crate::codec::{be_bytes_of_i32, i32_of_be_bytes, string_encoding, bytes_to_string};
use crate::config::BLOCK_SIZE;
use vstd::utf8::{encode_utf8, decode_utf8, valid_utf8};

/// Why a page operation was refused.
#[derive(Debug, Clone, Copy, PartialEq, Eq, Structural)]
pub enum PageError {
    /// The requested range does not lie within the page.
    OutOfBounds,
    /// The bytes at the requested location are not valid UTF-8.
    InvalidEncoding,
}

/// An in-memory buffer holding exactly one block's `BLOCK_SIZE` bytes,
/// zero-initialized at creation, with typed accessors for raw byte ranges,
/// big-endian signed 32-bit integers, and length-prefixed strings.
pub struct Page {
    buf: Vec<u8>,
}

impl View for Page {
    type V = Seq<u8>;

    closed spec fn view(&self) -> Seq<u8> {
        self.buf@
    }
}

/// What reading `size` bytes at `offset` from a page's bytes yields.
pub open spec fn spec_get_bytes(page: Seq<u8>, offset: int, size: int) -> Result<
    Seq<u8>,
    PageError,
>
    recommends
        page.len() == BLOCK_SIZE,
        0 <= offset,
        0 <= size,
{
    if offset + size <= BLOCK_SIZE {
        Ok(page.subrange(offset, offset + size))
    } else {
        Err(PageError::OutOfBounds)
    }
}

/// What writing `data` at `offset` does to a page's bytes.
pub open spec fn spec_set_bytes(page: Seq<u8>, offset: int, data: Seq<u8>) -> Result<
    Seq<u8>,
    PageError,
>
    recommends
        page.len() == BLOCK_SIZE,
        0 <= offset,
{
    if offset + data.len() <= BLOCK_SIZE {
        Ok(page.update_subrange_with(offset, data))
    } else {
        Err(PageError::OutOfBounds)
    }
}

/// What reading the big-endian 32-bit integer at `offset` yields.
pub open spec fn spec_get_int(page: Seq<u8>, offset: int) -> Result<i32, PageError>
    recommends
        page.len() == BLOCK_SIZE,
        0 <= offset,
{
    if offset + 4 <= BLOCK_SIZE {
        Ok(i32_of_be_bytes(page[offset], page[offset + 1], page[offset + 2], page[offset + 3]))
    } else {
        Err(PageError::OutOfBounds)
    }
}

/// What writing `v` as a big-endian 32-bit integer at `offset` does.
pub open spec fn spec_set_int(page: Seq<u8>, offset: int, v: i32) -> Result<Seq<u8>, PageError>
    recommends
        page.len() == BLOCK_SIZE,
        0 <= offset,
{
    if offset + 4 <= BLOCK_SIZE {
        Ok(page.update_subrange_with(offset, be_bytes_of_i32(v)))
    } else {
        Err(PageError::OutOfBounds)
    }
}

/// What reading the length-prefixed string at `offset` yields: the 4-byte
/// big-endian byte count, then that many UTF-8 bytes.
pub open spec fn spec_get_string(page: Seq<u8>, offset: int) -> Result<Seq<char>, PageError>
    recommends
        page.len() == BLOCK_SIZE,
        0 <= offset,
{
    if offset + 4 > BLOCK_SIZE {
        Err(PageError::OutOfBounds)
    } else {
        let n = i32_of_be_bytes(page[offset], page[offset + 1], page[offset + 2], page[offset + 3]);
        if n < 0 || offset + 4 + n > BLOCK_SIZE {
            Err(PageError::OutOfBounds)
        } else {
            let bytes = page.subrange(offset + 4, offset + 4 + n);
            if valid_utf8(bytes) {
                Ok(decode_utf8(bytes))
            } else {
                Err(PageError::InvalidEncoding)
            }
        }
    }
}

/// What writing the string `s` at `offset` does: its byte count as a
/// big-endian 32-bit integer, then its UTF-8 bytes.
pub open spec fn spec_set_string(page: Seq<u8>, offset: int, s: Seq<char>) -> Result<
    Seq<u8>,
    PageError,
>
    recommends
        page.len() == BLOCK_SIZE,
        0 <= offset,
{
    if offset + 4 + encode_utf8(s).len() <= BLOCK_SIZE {
        Ok(page.update_subrange_with(offset, string_encoding(s)))
    } else {
        Err(PageError::OutOfBounds)
    }
}

/// Round trip for raw bytes: writing `data` at `offset` succeeds whenever it
/// fits inside the page, and reading `data.len()` bytes back at `offset`
/// returns exactly `data`.
pub proof fn lemma_bytes_round_trip(page: Seq<u8>, offset: int, data: Seq<u8>)
    requires
        page.len() == BLOCK_SIZE,
        0 <= offset,
        offset + data.len() <= BLOCK_SIZE,
    ensures
        spec_set_bytes(page, offset, data) is Ok,
        spec_get_bytes(spec_set_bytes(page, offset, data)->Ok_0, offset, data.len() as int)
            == Ok::<Seq<u8>, PageError>(data),
{
    let page1 = spec_set_bytes(page, offset, data)->Ok_0;
    assert(page1.subrange(offset, offset + data.len()) =~= data);
}

/// Round trip for integers: writing any signed 32-bit value at a valid
/// offset succeeds, and reading the integer back at that offset returns the
/// same value.
pub proof fn lemma_int_round_trip(page: Seq<u8>, offset: int, v: i32)
    requires
        page.len() == BLOCK_SIZE,
        0 <= offset,
        offset + 4 <= BLOCK_SIZE,
    ensures
        spec_set_int(page, offset, v) is Ok,
        spec_get_int(spec_set_int(page, offset, v)->Ok_0, offset) == Ok::<i32, PageError>(v),
{
    crate::codec::lemma_i32_be_round_trip(v);
}

/// Round trip for strings: writing a string whose UTF-8 byte count fits in
/// `BLOCK_SIZE - offset - 4` succeeds, and reading the string back at that
/// offset returns the same characters.
pub proof fn lemma_string_round_trip(page: Seq<u8>, offset: int, s: Seq<char>)
    requires
        page.len() == BLOCK_SIZE,
        0 <= offset,
        offset + 4 + encode_utf8(s).len() <= BLOCK_SIZE,
    ensures
        spec_set_string(page, offset, s) is Ok,
        spec_get_string(spec_set_string(page, offset, s)->Ok_0, offset)
            == Ok::<Seq<char>, PageError>(s),
{
    let n = encode_utf8(s).len() as int;
    let page1 = spec_set_string(page, offset, s)->Ok_0;
    crate::codec::lemma_i32_be_round_trip(n as i32);
    assert(page1[offset] == be_bytes_of_i32(n as i32)[0]);
    assert(page1[offset + 1] == be_bytes_of_i32(n as i32)[1]);
    assert(page1[offset + 2] == be_bytes_of_i32(n as i32)[2]);
    assert(page1[offset + 3] == be_bytes_of_i32(n as i32)[3]);
    assert(page1.subrange(offset + 4, offset + 4 + n) =~= encode_utf8(s));
    crate::codec::lemma_string_encoding_round_trip(s);
    assert(string_encoding(s).skip(4) =~= encode_utf8(s));
}

impl Page {
    #[verifier::type_invariant]
    spec fn inv(self) -> bool {
        self.buf@.len() == BLOCK_SIZE
    }

    /// A fresh page, all `BLOCK_SIZE` bytes zero.
    pub fn new() -> (r: Page)
        ensures
            r@ == (Seq::new(BLOCK_SIZE as nat, |i: int| 0u8)),
    {
        let mut buf: Vec<u8> = Vec::new();
        while buf.len() < BLOCK_SIZE
            invariant
                buf@.len() <= BLOCK_SIZE,
                forall|i: int| 0 <= i < buf@.len() ==> buf@[i] == 0u8,
            decreases BLOCK_SIZE - buf@.len(),
        {
            buf.push(0u8);
        }
        let r = Page { buf };
        proof {
            assert(r@ =~= Seq::new(BLOCK_SIZE as nat, |i: int| 0u8));
        }
        r
    }

    /// A page owning the given bytes; refused unless there are exactly
    /// `BLOCK_SIZE` of them.
    pub fn from_bytes(bytes: Vec<u8>) -> (r: Result<Page, PageError>)
        ensures
            bytes@.len() == BLOCK_SIZE ==> (r matches Ok(p) && p@ == bytes@),
            bytes@.len() != BLOCK_SIZE ==> (r matches Err(e) && e == PageError::OutOfBounds),
    {
        if bytes.len() == BLOCK_SIZE {
            Ok(Page { buf: bytes })
        } else {
            Err(PageError::OutOfBounds)
        }
    }

    /// The page's whole buffer, for handing to block I/O.
    pub fn as_slice(&self) -> (r: &[u8])
        ensures
            r@ == self@,
            self@.len() == BLOCK_SIZE,
    {
        proof {
            use_type_invariant(&*self);
        }
        self.buf.as_slice()
    }

    /// The raw bytes in `[offset, offset + size)`.
    pub fn get_bytes(&self, offset: usize, size: usize) -> (r: Result<Vec<u8>, PageError>)
        ensures
            self@.len() == BLOCK_SIZE,
            match r {
                Ok(v) => spec_get_bytes(self@, offset as int, size as int) == Ok::<
                    Seq<u8>,
                    PageError,
                >(v@),
                Err(e) => spec_get_bytes(self@, offset as int, size as int) == Err::<
                    Seq<u8>,
                    PageError,
                >(e),
            },
    {
        proof {
            use_type_invariant(&*self);
        }
        if size > BLOCK_SIZE || offset > BLOCK_SIZE - size {
            return Err(PageError::OutOfBounds);
        }
        let mut out: Vec<u8> = Vec::new();
        let mut i: usize = 0;
        while i < size
            invariant
                i <= size,
                offset + size <= BLOCK_SIZE,
                self.buf@.len() == BLOCK_SIZE,
                out@.len() == i,
                forall|j: int| 0 <= j < i ==> out@[j] == self.buf@[offset + j],
            decreases size - i,
        {
            out.push(self.buf[offset + i]);
            i = i + 1;
        }
        proof {
            assert(out@ =~= self@.subrange(offset as int, offset + size));
        }
        Ok(out)
    }

    /// Overwrites the bytes at `[offset, offset + val.len())` with `val`.
    pub fn set_bytes(&mut self, offset: usize, val: &[u8]) -> (r: Result<(), PageError>)
        ensures
            final(self)@.len() == BLOCK_SIZE,
            match r {
                Ok(_) => spec_set_bytes(old(self)@, offset as int, val@) == Ok::<
                    Seq<u8>,
                    PageError,
                >(final(self)@),
                Err(e) => final(self)@ == old(self)@ && spec_set_bytes(
                    old(self)@,
                    offset as int,
                    val@,
                ) == Err::<Seq<u8>, PageError>(e),
            },
    {
        proof {
            use_type_invariant(&*self);
        }
        let n = val.len();
        if n > BLOCK_SIZE || offset > BLOCK_SIZE - n {
            return Err(PageError::OutOfBounds);
        }
        let mut i: usize = 0;
        while i < n
            invariant
                i <= n,
                n == val@.len(),
                offset + n <= BLOCK_SIZE,
                self.buf@.len() == BLOCK_SIZE,
                forall|j: int| 0 <= j < i ==> self.buf@[offset + j] == val@[j],
                forall|j: int|
                    0 <= j < BLOCK_SIZE && !(offset <= j < offset + i) ==> self.buf@[j] == old(
                        self,
                    ).buf@[j],
            decreases n - i,
        {
            self.buf[offset + i] = val[i];
            i = i + 1;
        }
        proof {
            assert(self@ =~= old(self)@.update_subrange_with(offset as int, val@));
        }
        Ok(())
    }

    /// The big-endian signed 32-bit integer at `offset`.
    pub fn get_int(&self, offset: usize) -> (r: Result<i32, PageError>)
        ensures
            self@.len() == BLOCK_SIZE,
            match r {
                Ok(v) => spec_get_int(self@, offset as int) == Ok::<i32, PageError>(v),
                Err(e) => spec_get_int(self@, offset as int) == Err::<i32, PageError>(e),
            },
    {
        proof {
            use_type_invariant(&*self);
        }
        if offset > BLOCK_SIZE - 4 {
            return Err(PageError::OutOfBounds);
        }
        let b0 = self.buf[offset];
        let b1 = self.buf[offset + 1];
        let b2 = self.buf[offset + 2];
        let b3 = self.buf[offset + 3];
        let u: u32 = ((b0 as u32) << 24) | ((b1 as u32) << 16) | ((b2 as u32) << 8) | (b3 as u32);
        let v: i32 = #[verifier::truncate] (u as i32);
        Ok(v)
    }

    /// Writes `val` at `offset` as a big-endian signed 32-bit integer.
    pub fn set_int(&mut self, offset: usize, val: i32) -> (r: Result<(), PageError>)
        ensures
            final(self)@.len() == BLOCK_SIZE,
            match r {
                Ok(_) => spec_set_int(old(self)@, offset as int, val) == Ok::<Seq<u8>, PageError>(
                    final(self)@,
                ),
                Err(e) => final(self)@ == old(self)@ && spec_set_int(old(self)@, offset as int, val)
                    == Err::<Seq<u8>, PageError>(e),
            },
    {
        proof {
            use_type_invariant(&*self);
        }
        if offset > BLOCK_SIZE - 4 {
            return Err(PageError::OutOfBounds);
        }
        let u: u32 = #[verifier::truncate] (val as u32);
        self.buf[offset] = #[verifier::truncate] ((u >> 24) as u8);
        self.buf[offset + 1] = #[verifier::truncate] ((u >> 16) as u8);
        self.buf[offset + 2] = #[verifier::truncate] ((u >> 8) as u8);
        self.buf[offset + 3] = #[verifier::truncate] (u as u8);
        proof {
            assert(self@ =~= old(self)@.update_subrange_with(offset as int, be_bytes_of_i32(val)));
        }
        Ok(())
    }

    /// The length-prefixed string at `offset`: a 4-byte big-endian byte
    /// count, then that many UTF-8 bytes.  Refused when the count is
    /// negative or reaches past the page, or the bytes are not valid UTF-8.
    pub fn get_string(&self, offset: usize) -> (r: Result<String, PageError>)
        ensures
            self@.len() == BLOCK_SIZE,
            match r {
                Ok(s) => spec_get_string(self@, offset as int) == Ok::<Seq<char>, PageError>(s@),
                Err(e) => spec_get_string(self@, offset as int) == Err::<Seq<char>, PageError>(e),
            },
    {
        broadcast use vstd::utf8::group_utf8_lib;

        let len = match self.get_int(offset) {
            Ok(v) => v,
            Err(e) => {
                return Err(e);
            },
        };
        if len < 0 {
            return Err(PageError::OutOfBounds);
        }
        let size = len as usize;
        if size > BLOCK_SIZE - offset - 4 {
            return Err(PageError::OutOfBounds);
        }
        let bytes = match self.get_bytes(offset + 4, size) {
            Ok(b) => b,
            Err(e) => {
                return Err(e);
            },
        };
        match bytes_to_string(bytes) {
            Some(s) => Ok(s),
            None => Err(PageError::InvalidEncoding),
        }
    }

    /// Writes `val` at `offset` as its byte count in big-endian followed by
    /// its UTF-8 bytes; refused when that does not fit inside the page.
    pub fn set_string(&mut self, offset: usize, val: &str) -> (r: Result<(), PageError>)
        ensures
            final(self)@.len() == BLOCK_SIZE,
            match r {
                Ok(_) => spec_set_string(old(self)@, offset as int, val@) == Ok::<
                    Seq<u8>,
                    PageError,
                >(final(self)@),
                Err(e) => final(self)@ == old(self)@ && spec_set_string(
                    old(self)@,
                    offset as int,
                    val@,
                ) == Err::<Seq<u8>, PageError>(e),
            },
    {
        proof {
            use_type_invariant(&*self);
        }
        let bytes = val.as_bytes();
        let n = bytes.len();
        if offset > BLOCK_SIZE - 4 || n > BLOCK_SIZE - offset - 4 {
            return Err(PageError::OutOfBounds);
        }
        let ghost page0 = self@;
        match self.set_int(offset, n as i32) {
            Ok(_) => (),
            Err(e) => {
                return Err(e);
            },
        }
        match self.set_bytes(offset + 4, bytes) {
            Ok(_) => (),
            Err(e) => {
                return Err(e);
            },
        }
        proof {
            assert(self@ =~= page0.update_subrange_with(offset as int, string_encoding(val@)));
        }
        Ok(())
    }
}

} // verus!
