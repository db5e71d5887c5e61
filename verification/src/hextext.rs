use vstd::prelude::*;

use crate::errors::DecodeError;
use crate::hexdata::{chars_of, hex_bytes_of, hex_encode, string_from_ascii};

verus! {

/// A byte is printable ASCII: strictly above 0x1F and strictly below 0x80.
pub open spec fn printable(b: u8) -> bool {
    0x1F < b && b < 0x80
}

/// The printable bytes of a sequence, in order.
pub open spec fn keep_printable(bs: Seq<u8>) -> Seq<u8>
    decreases bs.len(),
{
    if bs.len() == 0 {
        Seq::empty()
    } else if printable(bs.last()) {
        keep_printable(bs.drop_last()).push(bs.last())
    } else {
        keep_printable(bs.drop_last())
    }
}

/// Where reading the 32-byte word starting at `off` ends: 32 past `off`,
/// clamped to the data's end.
pub open spec fn word_end(off: int, len: int) -> int {
    if off + 32 <= len {
        off + 32
    } else {
        len
    }
}

/// The bytes of the 32-byte word starting at `off`: shorter at the end of
/// the data, empty at or past it.
pub open spec fn word_of(data: Seq<u8>, off: int) -> Seq<u8>
    recommends
        0 <= off,
{
    if off >= data.len() {
        Seq::empty()
    } else {
        data.subrange(off, word_end(off, data.len() as int))
    }
}

/// The text a reader yields from `off`: drop the word at `off`, then keep the
/// printable bytes of everything after it.
pub open spec fn text_of(data: Seq<u8>, off: int) -> Seq<u8>
    recommends
        0 <= off,
{
    keep_printable(data.skip(word_end(off, data.len() as int)))
}

/// Where a cursor that moves in whole 32-byte strides from `cur` comes to
/// rest: the first position at or past the data's end.
pub open spec fn advance_to_end(cur: int, len: int) -> int
    decreases (if cur < len {
        len - cur
    } else {
        0
    }),
{
    if cur >= len {
        cur
    } else {
        advance_to_end(cur + 32, len)
    }
}

/// Walks ABI-shaped binary data word by word, handing each out as text.
pub struct HexReader {
    data: Vec<u8>,
    data_offset: usize,
}

impl HexReader {
    pub closed spec fn data_seq(&self) -> Seq<u8> {
        self.data@
    }

    pub closed spec fn offset(&self) -> int {
        self.data_offset as int
    }

    /// A reader over `src`, positioned at its start. Always succeeds.
    pub fn new(src: Vec<u8>) -> (r: Result<HexReader, DecodeError>)
        ensures
            r is Ok,
            r->Ok_0.data_seq() == src@,
            r->Ok_0.offset() == 0,
    {
        Ok(HexReader { data: src, data_offset: 0 })
    }

    /// Whether bytes remain beyond the current offset.
    pub fn has_data(&self) -> (r: bool)
        ensures
            r == (self.offset() < self.data_seq().len()),
    {
        self.data.len() > self.data_offset
    }

    /// The next 32-byte word as lower-case hexadecimal text: shorter at the
    /// end of the data, empty at or past it. The cursor always moves forward
    /// by exactly 32, beyond the end of the data included.
    pub fn next32(&mut self) -> (r: String)
        requires
            old(self).offset() + 32 <= usize::MAX,
        ensures
            final(self).data_seq() == old(self).data_seq(),
            final(self).offset() == old(self).offset() + 32,
            r@ == chars_of(hex_bytes_of(word_of(old(self).data_seq(), old(self).offset()))),
    {
        let len = self.data.len();
        let mut chunk: Vec<u8> = Vec::new();
        if self.data_offset < len {
            let end: usize = if len - self.data_offset < 32 {
                len
            } else {
                self.data_offset + 32
            };
            let mut i: usize = self.data_offset;
            while i < end
                invariant
                    self.data@ == old(self).data@,
                    self.data_offset == old(self).data_offset,
                    old(self).data_offset <= i <= end <= self.data@.len(),
                    end == word_end(old(self).data_offset as int, self.data@.len() as int),
                    chunk@ == self.data@.subrange(old(self).data_offset as int, i as int),
                decreases end - i,
            {
                let b = self.data[i];
                chunk.push(b);
                proof {
                    assert(chunk@ =~= self.data@.subrange(old(self).data_offset as int, i + 1));
                }
                i = i + 1;
            }
        }
        self.data_offset = self.data_offset + 32;
        proof {
            assert(chunk@ =~= word_of(old(self).data@, old(self).data_offset as int));
        }
        let hexed = hex_encode(&chunk);
        string_from_ascii(hexed)
    }

    /// All remaining text after the current word: the reader drops that word,
    /// then keeps every printable byte to the end. The cursor comes to rest
    /// one whole 32-byte stride at or past the end of the data.
    pub fn text(&mut self) -> (r: String)
        requires
            old(self).offset() + 32 <= usize::MAX,
            old(self).data_seq().len() + 32 <= usize::MAX,
        ensures
            final(self).data_seq() == old(self).data_seq(),
            final(self).offset() == advance_to_end(
                old(self).offset() + 32,
                old(self).data_seq().len() as int,
            ),
            r@ == chars_of(text_of(old(self).data_seq(), old(self).offset())),
    {
        let len = self.data.len();
        let start: usize = if self.data_offset >= len {
            len
        } else if len - self.data_offset < 32 {
            len
        } else {
            self.data_offset + 32
        };
        let mut out: Vec<u8> = Vec::new();
        let mut i: usize = start;
        proof {
            assert(out@ =~= keep_printable(self.data@.subrange(start as int, start as int)));
        }
        while i < len
            invariant
                self.data@ == old(self).data@,
                self.data_offset == old(self).data_offset,
                start <= i <= len,
                len == self.data@.len(),
                out@ == keep_printable(self.data@.subrange(start as int, i as int)),
                forall|j: int| 0 <= j < out@.len() ==> 0x1F < #[trigger] out@[j] < 0x80,
            decreases len - i,
        {
            let b = self.data[i];
            if b > 0x1F && b < 0x80 {
                out.push(b);
            }
            proof {
                let pre = self.data@.subrange(start as int, i as int);
                let cur = self.data@.subrange(start as int, i + 1);
                assert(cur.drop_last() =~= pre);
                assert(cur.last() == self.data@[i as int]);
            }
            i = i + 1;
        }
        proof {
            assert(self.data@.subrange(start as int, len as int) =~= self.data@.skip(
                word_end(old(self).data_offset as int, len as int),
            ));
        }
        let mut cursor: usize = self.data_offset + 32;
        while cursor < len
            invariant
                self.data@ == old(self).data@,
                self.data_offset == old(self).data_offset,
                len == self.data@.len(),
                len + 32 <= usize::MAX,
                advance_to_end(old(self).data_offset as int + 32, len as int) == advance_to_end(
                    cursor as int,
                    len as int,
                ),
            decreases (if cursor < len {
                len - cursor
            } else {
                0
            }),
        {
            cursor = cursor + 32;
        }
        self.data_offset = cursor;
        string_from_ascii(out)
    }
}

} // verus!
