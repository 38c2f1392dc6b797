//! Reading a part of a file.
use vstd::prelude::*;

verus! {

/// A source of bytes with a position in it.
pub trait ReadSeek {
    /// All bytes of the source.
    spec fn content(&self) -> Seq<u8>;

    /// The position of the next byte that is read.
    spec fn position(&self) -> nat;

    /// Whether the source never fails.
    spec fn reliable(&self) -> bool;

    /// Moves to a position. Tells whether that worked.
    fn seek_to(&mut self, at: u64) -> (done: bool)
        ensures
            final(self).content() == old(self).content(),
            done ==> final(self).position() == at,
            old(self).reliable() ==> done && final(self).reliable(),
    ;

    /// Reads at most `limit` bytes. None are read only at the end, or if `limit` is 0; `None` if
    /// reading failed.
    fn read_some(&mut self, limit: usize) -> (r: Option<Vec<u8>>)
        ensures
            final(self).content() == old(self).content(),
            r matches Some(bytes) ==> {
                &&& bytes@.len() <= limit
                &&& bytes@ == taken(old(self).content(), old(self).position(), bytes@.len())
                &&& final(self).position() == old(self).position() + bytes@.len()
                &&& bytes@.len() == 0 ==> limit == 0 || old(self).position() >= old(self).content().len()
            },
            old(self).reliable() ==> r is Some && final(self).reliable(),
    ;
}

/// At most `length` bytes from a position on.
pub open spec fn taken(content: Seq<u8>, at: nat, length: nat) -> Seq<u8> {
    if at >= content.len() {
        seq![]
    } else if at + length >= content.len() {
        content.skip(at as int)
    } else {
        content.subrange(at as int, (at + length) as int)
    }
}

/// Bytes in memory, read from the start.
#[derive(Debug)]
pub struct Cursor {
    pub bytes: Vec<u8>,
    pub at: u64,
}

impl Cursor {
    /// A source that holds the given bytes.
    pub fn new(bytes: Vec<u8>) -> (r: Cursor)
        ensures
            r.content() == bytes@,
            r.position() == 0,
    {
        Cursor { bytes, at: 0 }
    }
}

impl ReadSeek for Cursor {
    open spec fn content(&self) -> Seq<u8> {
        self.bytes@
    }

    open spec fn position(&self) -> nat {
        self.at as nat
    }

    open spec fn reliable(&self) -> bool {
        true
    }

    fn seek_to(&mut self, at: u64) -> (done: bool) {
        self.at = at;
        true
    }

    fn read_some(&mut self, limit: usize) -> (r: Option<Vec<u8>>)
        ensures
            r matches Some(bytes) ==> bytes@ == taken(
                old(self).content(),
                old(self).position(),
                limit as nat,
            ),
    {
        let mut out: Vec<u8> = Vec::new();
        let total: usize = self.bytes.len();
        let ghost all = self.bytes@;
        let ghost first = self.at as int;
        while out.len() < limit && self.at < total as u64
            invariant
                total == all.len(),
                self.bytes@ == all,
                out@.len() <= limit,
                self.at == first + out@.len(),
                0 <= first,
                first < total ==> self.at <= total && out@ == all.subrange(
                    first,
                    first + out@.len(),
                ),
                first >= total ==> out@.len() == 0,
            decreases limit - out@.len(),
        {
            let here: usize = self.at as usize;
            out.push(self.bytes[here]);
            self.at = self.at + 1;
            assert(out@ =~= all.subrange(first, first + out@.len()));
        }
        proof {
            if first >= total {
                assert(out@ =~= Seq::<u8>::empty());
            } else {
                assert(out@ =~= taken(all, first as nat, limit as nat));
                assert(out@ =~= taken(all, first as nat, out@.len()));
            }
        }
        Some(out)
    }
}

/// A file that is ready to be served: its bytes and its size.
#[derive(Debug)]
pub struct FileStream<R> {
    reader: R,
    size: u64,
}

impl<R> FileStream<R> {
    /// What the bytes are read from.
    pub closed spec fn source(&self) -> R {
        self.reader
    }

    /// The size that the file was opened with.
    pub closed spec fn len(&self) -> u64 {
        self.size
    }

    /// A stream over a source whose size is known.
    pub fn new(reader: R, size: u64) -> (r: Self)
        ensures
            r.source() == reader,
            r.len() == size,
    {
        FileStream { reader, size }
    }

    /// The size of the file.
    pub fn size(&self) -> (r: u64)
        ensures
            r == self.len(),
    {
        self.size
    }

    /// The source itself.
    pub fn into_inner(self) -> (r: R)
        ensures
            r == self.source(),
    {
        self.reader
    }
}

impl<R: ReadSeek> FileStream<R> {
    /// The part of `length` bytes from `start` on; `None` if the source cannot go there.
    pub fn into_range(self, start: u64, length: u64) -> (r: Option<FileRange<R>>)
        ensures
            r matches Some(part) ==> part.remaining() == taken(
                self.source().content(),
                start as nat,
                length as nat,
            ),
            self.source().reliable() ==> r is Some && r->Some_0.reliable(),
    {
        let mut reader = self.reader;
        if reader.seek_to(start) {
            Some(FileRange { reader, left: length })
        } else {
            None
        }
    }
}

/// A part of a file that is being read.
#[derive(Debug)]
pub struct FileRange<R> {
    reader: R,
    left: u64,
}

impl<R: ReadSeek> FileRange<R> {
    /// The bytes that are still to be read.
    pub closed spec fn remaining(&self) -> Seq<u8> {
        taken(self.reader.content(), self.reader.position(), self.left as nat)
    }

    /// Whether reading never fails.
    pub closed spec fn reliable(&self) -> bool {
        self.reader.reliable()
    }

    /// Reads at most `limit` of the remaining bytes; `None` if reading failed. None are read only
    /// at the end of the part, or if `limit` is 0.
    pub fn read_some(&mut self, limit: usize) -> (r: Option<Vec<u8>>)
        ensures
            r matches Some(bytes) ==> {
                &&& bytes@.len() <= limit
                &&& old(self).remaining() == bytes@ + final(self).remaining()
                &&& bytes@.len() == 0 ==> limit == 0 || old(self).remaining().len() == 0
            },
            old(self).reliable() ==> r is Some && final(self).reliable(),
    {
        let most: usize = if self.left < limit as u64 {
            self.left as usize
        } else {
            limit
        };
        let ghost content = self.reader.content();
        let ghost at = self.reader.position();
        let ghost left = self.left as nat;
        match self.reader.read_some(most) {
            Some(bytes) => {
                self.left = self.left - bytes.len() as u64;
                proof {
                    let n = bytes@.len();
                    assert(taken(content, at, left) =~= bytes@ + taken(
                        content,
                        at + n,
                        (left - n) as nat,
                    ));
                }
                Some(bytes)
            },
            None => None,
        }
    }

    /// Reads all remaining bytes; `None` if reading failed.
    pub fn read_to_end(&mut self) -> (r: Option<Vec<u8>>)
        ensures
            r matches Some(bytes) ==> bytes@ == old(self).remaining() && final(self).remaining().len() == 0,
            old(self).reliable() ==> r is Some && final(self).reliable(),
    {
        let ghost all = self.remaining();
        let mut out: Vec<u8> = Vec::new();
        assert(all =~= out@ + self.remaining());
        loop
            invariant
                all == old(self).remaining(),
                all == out@ + self.remaining(),
                old(self).reliable() ==> self.reliable(),
            decreases self.remaining().len(),
        {
            match self.read_some(65536) {
                Some(mut bytes) => {
                    if bytes.len() == 0 {
                        assert(out@ =~= all);
                        return Some(out);
                    }
                    out.append(&mut bytes);
                    assert(all =~= out@ + self.remaining());
                },
                None => {
                    return None;
                },
            }
        }
    }
}

} // verus!
