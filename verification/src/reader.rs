//! An in-memory byte cursor and the primitive reads the decoder is built
//! from.
//!
//! [`Reader`] owns a buffer and a position; every read consumes bytes
//! permanently, exactly as a sequential, non-seekable source would. All
//! primitives report a transport error when the buffer runs out, and on
//! that error the cursor has consumed everything that was available.

use vstd::prelude::*;

use crate::error::{Error, IoError};

verus! {

/// A sequential byte source: a buffer plus a read position.
///
/// Bytes before `pos` are consumed for good; `remaining()` is what a read
/// can still see.
pub struct Reader {
    pub data: Vec<u8>,
    pub pos: usize,
}

/// The value of two bytes read little-endian.
pub open spec fn le16(b0: u8, b1: u8) -> u16 {
    (b0 + b1 * 0x100) as u16
}

/// The value of four bytes read little-endian.
pub open spec fn le32(b0: u8, b1: u8, b2: u8, b3: u8) -> u32 {
    (b0 + b1 * 0x100 + b2 * 0x1_0000 + b3 * 0x100_0000) as u32
}

/// The index of the first zero byte of `s`, or `-1` if there is none.
pub open spec fn find_zero(s: Seq<u8>) -> int
    decreases s.len(),
{
    if s.len() == 0 {
        -1
    } else if s[0] == 0 {
        0
    } else if find_zero(s.skip(1)) < 0 {
        -1
    } else {
        find_zero(s.skip(1)) + 1
    }
}

/// `find_zero` finds the first zero byte: everything before it is nonzero,
/// and a result of `-1` means the whole sequence is nonzero.
pub proof fn lemma_find_zero(s: Seq<u8>)
    ensures
        find_zero(s) >= 0 ==> {
            &&& find_zero(s) < s.len()
            &&& s[find_zero(s)] == 0
            &&& forall|j: int| 0 <= j < find_zero(s) ==> s[j] != 0
        },
        find_zero(s) < 0 ==> forall|j: int| 0 <= j < s.len() ==> s[j] != 0,
    decreases s.len(),
{
    if s.len() > 0 && s[0] != 0 {
        lemma_find_zero(s.skip(1));
        if find_zero(s.skip(1)) >= 0 {
            assert forall|j: int| 0 <= j < find_zero(s) implies s[j] != 0 by {
                if j > 0 {
                    assert(s.skip(1)[j - 1] != 0);
                }
            }
        } else {
            assert forall|j: int| 0 <= j < s.len() implies s[j] != 0 by {
                if j > 0 {
                    assert(s.skip(1)[j - 1] != 0);
                }
            }
        }
    }
}

/// A zero byte preceded only by nonzero bytes is the one `find_zero`
/// finds.
pub proof fn lemma_find_zero_at(s: Seq<u8>, k: int)
    requires
        0 <= k < s.len(),
        s[k] == 0,
        forall|j: int| 0 <= j < k ==> s[j] != 0,
    ensures
        find_zero(s) == k,
{
    lemma_find_zero(s);
}

impl Reader {
    /// The buffer never ends before the position.
    pub open spec fn wf(self) -> bool {
        self.pos <= self.data.len()
    }

    /// The bytes that have not been consumed yet.
    pub open spec fn remaining(self) -> Seq<u8> {
        self.data@.skip(self.pos as int)
    }

    /// A fresh cursor at the start of `data`.
    pub fn new(data: Vec<u8>) -> (r: Reader)
        ensures
            r.wf(),
            r.data == data,
            r.pos == 0,
    {
        Reader { data, pos: 0 }
    }

    /// Consume one byte, or fail with `UnexpectedEof` and consume nothing.
    pub fn read_u8(&mut self) -> (res: Result<u8, Error>)
        requires
            old(self).wf(),
        ensures
            final(self).wf(),
            final(self).data == old(self).data,
            match res {
                Ok(b) => {
                    &&& old(self).pos < old(self).data.len()
                    &&& b == old(self).data@[old(self).pos as int]
                    &&& final(self).pos == old(self).pos + 1
                },
                Err(e) => {
                    &&& e == Error::Io(IoError::UnexpectedEof)
                    &&& old(self).pos == old(self).data.len()
                    &&& final(self).pos == old(self).pos
                },
            },
    {
        if self.pos < self.data.len() {
            let b = self.data[self.pos];
            self.pos = self.pos + 1;
            Ok(b)
        } else {
            Err(Error::Io(IoError::UnexpectedEof))
        }
    }

    /// Consume two bytes as a little-endian integer. On a transport error
    /// the cursor has consumed whatever was left.
    pub fn read_u16_le(&mut self) -> (res: Result<u16, Error>)
        requires
            old(self).wf(),
        ensures
            final(self).wf(),
            final(self).data == old(self).data,
            match res {
                Ok(v) => {
                    &&& old(self).pos + 2 <= old(self).data.len()
                    &&& v == le16(
                        old(self).data@[old(self).pos as int],
                        old(self).data@[old(self).pos + 1],
                    )
                    &&& final(self).pos == old(self).pos + 2
                },
                Err(e) => {
                    &&& e == Error::Io(IoError::UnexpectedEof)
                    &&& old(self).data.len() < old(self).pos + 2
                    &&& final(self).pos == old(self).data.len()
                },
            },
    {
        let b0 = match self.read_u8() {
            Ok(b) => b,
            Err(e) => {
                return Err(e);
            },
        };
        let b1 = match self.read_u8() {
            Ok(b) => b,
            Err(e) => {
                return Err(e);
            },
        };
        Ok(b0 as u16 + (b1 as u16) * 0x100)
    }

    /// Consume four bytes as a little-endian integer. On a transport error
    /// the cursor has consumed whatever was left.
    pub fn read_u32_le(&mut self) -> (res: Result<u32, Error>)
        requires
            old(self).wf(),
        ensures
            final(self).wf(),
            final(self).data == old(self).data,
            match res {
                Ok(v) => {
                    &&& old(self).pos + 4 <= old(self).data.len()
                    &&& v == le32(
                        old(self).data@[old(self).pos as int],
                        old(self).data@[old(self).pos + 1],
                        old(self).data@[old(self).pos + 2],
                        old(self).data@[old(self).pos + 3],
                    )
                    &&& final(self).pos == old(self).pos + 4
                },
                Err(e) => {
                    &&& e == Error::Io(IoError::UnexpectedEof)
                    &&& old(self).data.len() < old(self).pos + 4
                    &&& final(self).pos == old(self).data.len()
                },
            },
    {
        let b0 = match self.read_u8() {
            Ok(b) => b,
            Err(e) => {
                return Err(e);
            },
        };
        let b1 = match self.read_u8() {
            Ok(b) => b,
            Err(e) => {
                return Err(e);
            },
        };
        let b2 = match self.read_u8() {
            Ok(b) => b,
            Err(e) => {
                return Err(e);
            },
        };
        let b3 = match self.read_u8() {
            Ok(b) => b,
            Err(e) => {
                return Err(e);
            },
        };
        Ok(b0 as u32 + (b1 as u32) * 0x100 + (b2 as u32) * 0x1_0000 + (b3 as u32) * 0x100_0000)
    }

    /// Consume bytes up to and including the first zero byte, returning the
    /// bytes before it; the terminator is consumed but not returned. If no
    /// zero byte is left, everything is consumed and the read fails.
    pub fn read_until_zero(&mut self) -> (res: Result<Vec<u8>, Error>)
        requires
            old(self).wf(),
        ensures
            final(self).wf(),
            final(self).data == old(self).data,
            match res {
                Ok(v) => {
                    &&& find_zero(old(self).remaining()) >= 0
                    &&& v@ == old(self).remaining().subrange(
                        0,
                        find_zero(old(self).remaining()),
                    )
                    &&& final(self).pos == old(self).pos + find_zero(old(self).remaining()) + 1
                },
                Err(e) => {
                    &&& e == Error::Io(IoError::UnexpectedEof)
                    &&& find_zero(old(self).remaining()) < 0
                    &&& final(self).pos == old(self).data.len()
                },
            },
    {
        let mut buf: Vec<u8> = Vec::new();
        let ghost s = old(self).remaining();
        loop
            invariant
                self.wf(),
                self.data == old(self).data,
                s == old(self).remaining(),
                old(self).pos + buf@.len() == self.pos,
                buf@ == s.subrange(0, buf@.len() as int),
                forall|j: int| 0 <= j < buf@.len() ==> s[j] != 0,
            decreases self.data.len() - self.pos,
        {
            let b = match self.read_u8() {
                Ok(b) => b,
                Err(e) => {
                    proof {
                        lemma_find_zero(s);
                        assert(buf@.len() == s.len());
                    }
                    return Err(e);
                },
            };
            if b == 0 {
                proof {
                    lemma_find_zero(s);
                    assert(s[buf@.len() as int] == 0);
                    assert(find_zero(s) == buf@.len());
                }
                return Ok(buf);
            }
            proof {
                assert(s[buf@.len() as int] == b);
            }
            buf.push(b);
            proof {
                assert(buf@ =~= s.subrange(0, buf@.len() as int));
            }
        }
    }
}

/// Consume exactly `length` bytes into a fresh vector. If fewer are left,
/// everything is consumed and the read fails; no short result is returned.
pub fn read_to_vec(r: &mut Reader, length: u16) -> (res: Result<Vec<u8>, Error>)
    requires
        old(r).wf(),
    ensures
        final(r).wf(),
        final(r).data == old(r).data,
        match res {
            Ok(v) => {
                &&& old(r).pos + length <= old(r).data.len()
                &&& v@ == old(r).data@.subrange(old(r).pos as int, old(r).pos + length)
                &&& final(r).pos == old(r).pos + length
            },
            Err(e) => {
                &&& e == Error::Io(IoError::UnexpectedEof)
                &&& old(r).data.len() < old(r).pos + length
                &&& final(r).pos == old(r).data.len()
            },
        },
{
    let n: usize = length as usize;
    let mut buf: Vec<u8> = Vec::new();
    let mut i: usize = 0;
    while i < n
        invariant
            r.wf(),
            r.data == old(r).data,
            i <= n,
            n == length,
            old(r).pos + i == r.pos,
            buf@ == old(r).data@.subrange(old(r).pos as int, old(r).pos + i),
        decreases n - i,
    {
        let b = match r.read_u8() {
            Ok(b) => b,
            Err(e) => {
                return Err(e);
            },
        };
        buf.push(b);
        i = i + 1;
        proof {
            assert(buf@ =~= old(r).data@.subrange(old(r).pos as int, old(r).pos + i));
        }
    }
    Ok(buf)
}

} // verus!
