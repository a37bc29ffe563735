//! Byte sinks and byte sources.

use vstd::prelude::*;

verus! {

/// A target that takes bytes one at a time.
pub trait CoreWrite {
    /// What a failed write reports.
    type Error: core::fmt::Debug;

    /// Every byte that this writer has taken, oldest first.
    spec fn written(&self) -> Seq<u8>;

    /// How many more bytes this writer has room for.
    spec fn room(&self) -> nat;

    /// Whether a write fails only for want of room.
    spec fn reliable() -> bool;

    /// Takes one byte.
    fn write(&mut self, val: u8) -> (r: Result<(), Self::Error>)
        ensures
            r is Ok ==> final(self).written() == old(self).written().push(val),
            Self::reliable() ==> (r is Ok <==> old(self).room() >= 1),
            Self::reliable() && r is Ok ==> final(self).room() == old(self).room() - 1,
    ;

    /// Hands on whatever this writer still holds back.
    fn flush(&mut self) -> (r: Result<(), Self::Error>)
        ensures
            r is Ok ==> final(self).written() == old(self).written(),
            r is Ok ==> final(self).room() == old(self).room(),
            Self::reliable() ==> r is Ok,
    {
        Ok(())
    }

    /// Takes every byte of `val`, in order.
    fn write_all(&mut self, val: &[u8]) -> (r: Result<(), Self::Error>)
        ensures
            r is Ok ==> final(self).written() == old(self).written() + val@,
            Self::reliable() ==> (r is Ok <==> old(self).room() >= val@.len()),
            Self::reliable() && r is Ok ==> final(self).room() == old(self).room() - val@.len(),
    {
        let mut i: usize = 0;
        while i < val.len()
            invariant
                i <= val@.len(),
                self.written() == old(self).written() + val@.take(i as int),
                Self::reliable() ==> self.room() == old(self).room() - i,
            decreases val@.len() - i,
        {
            match self.write(val[i]) {
                Ok(()) => {},
                Err(e) => {
                    return Err(e);
                },
            }
            proof {
                assert(val@.take(i as int).push(val@[i as int]) =~= val@.take(i + 1));
            }
            i = i + 1;
        }
        proof {
            assert(val@.take(i as int) =~= val@);
        }
        Ok(())
    }
}

/// A source of bytes that stay where they are: every slice handed out lives
/// as long as the buffer behind the reader.
pub trait CoreRead<'a> {
    /// What a failed read reports.
    type Error: core::fmt::Debug;

    /// The bytes that have not been handed out yet.
    spec fn remaining(&self) -> Seq<u8>;

    /// Whether a read fails only where fewer bytes remain than were asked for.
    spec fn reliable() -> bool;

    /// Hands out the next byte.
    fn read(&mut self) -> (r: Result<u8, Self::Error>)
        ensures
            match r {
                Ok(b) => old(self).remaining().len() >= 1 && b == old(self).remaining()[0]
                    && final(self).remaining() == old(self).remaining().skip(1),
                Err(_) => true,
            },
            Self::reliable() ==> (r is Ok <==> old(self).remaining().len() >= 1),
    {
        let buff = self.read_range(1)?;
        Ok(buff[0])
    }

    /// Hands out the next `len` bytes, never fewer.
    fn read_range(&mut self, len: usize) -> (r: Result<&'a [u8], Self::Error>)
        ensures
            match r {
                Ok(s) => old(self).remaining().len() >= len && s@ == old(self).remaining().take(
                    len as int,
                ) && final(self).remaining() == old(self).remaining().skip(len as int),
                Err(_) => true,
            },
            Self::reliable() ==> (r is Ok <==> old(self).remaining().len() >= len),
    ;
}

/// A writer into a caller's buffer, which it fills from the front.
#[derive(Debug)]
pub struct BufferWriter<'a> {
    buffer: &'a mut [u8],
    index: usize,
}

/// Why a [`BufferWriter`] refused a byte.
#[derive(Debug, Clone, Copy, PartialEq, Eq, Hash, Structural)]
pub enum BufferWriterError {
    /// The buffer behind the writer is full.
    BufferTooSmall,
}

impl<'a> BufferWriter<'a> {
    /// The writer holds no more bytes than its buffer.
    #[verifier::type_invariant]
    spec fn fits(&self) -> bool {
        self.index <= self.buffer@.len()
    }

    /// The bytes written so far.
    pub closed spec fn view(&self) -> Seq<u8> {
        self.buffer@.take(self.index as int)
    }

    /// The size of the buffer behind the writer.
    pub closed spec fn capacity(&self) -> nat {
        self.buffer@.len()
    }

    /// A writer at the start of `buffer`.
    pub fn new(buffer: &'a mut [u8]) -> (w: Self)
        ensures
            w@ == Seq::<u8>::empty(),
            w.capacity() == old(buffer)@.len(),
    {
        Self { buffer, index: 0 }
    }

    /// How many bytes have been written.
    pub fn written_len(&self) -> (n: usize)
        ensures
            n == self@.len(),
    {
        proof {
            use_type_invariant(self);
        }
        self.index
    }

    /// The written bytes: the buffer up to [`BufferWriter::written_len`].
    pub fn written_buffer(&self) -> (s: &[u8])
        ensures
            s@ == self@,
    {
        proof {
            use_type_invariant(self);
        }
        vstd::slice::slice_subrange(self.buffer, 0, self.index)
    }
}

impl<'a> CoreWrite for BufferWriter<'a> {
    type Error = BufferWriterError;

    open spec fn written(&self) -> Seq<u8> {
        self@
    }

    open spec fn room(&self) -> nat {
        (self.capacity() - self@.len()) as nat
    }

    open spec fn reliable() -> bool {
        true
    }

    fn write(&mut self, val: u8) -> (r: Result<(), BufferWriterError>)
        ensures
            final(self).capacity() == old(self).capacity(),
            r is Err ==> final(self)@ == old(self)@,
    {
        proof {
            use_type_invariant(&*self);
        }
        if self.index >= self.buffer.len() {
            return Err(BufferWriterError::BufferTooSmall);
        }
        self.buffer[self.index] = val;
        self.index += 1;
        proof {
            assert(self.buffer@.take(self.index as int) =~= old(self).buffer@.take(
                old(self).index as int,
            ).push(val));
        }
        Ok(())
    }
}

/// A writer behind a mutable reference is a writer: what goes through the
/// reference goes to the writer behind it.
impl<'b, W: CoreWrite> CoreWrite for &'b mut W {
    type Error = W::Error;

    open spec fn written(&self) -> Seq<u8> {
        (**self).written()
    }

    open spec fn room(&self) -> nat {
        (**self).room()
    }

    open spec fn reliable() -> bool {
        W::reliable()
    }

    fn write(&mut self, val: u8) -> (r: Result<(), W::Error>) {
        (**self).write(val)
    }

    fn flush(&mut self) -> (r: Result<(), W::Error>) {
        (**self).flush()
    }

    fn write_all(&mut self, val: &[u8]) -> (r: Result<(), W::Error>) {
        (**self).write_all(val)
    }
}

impl<'a> CoreRead<'a> for &'a [u8] {
    type Error = ();

    open spec fn remaining(&self) -> Seq<u8> {
        self@
    }

    open spec fn reliable() -> bool {
        true
    }

    fn read_range(&mut self, len: usize) -> (r: Result<&'a [u8], ()>)
        ensures
            r is Err ==> final(self)@ == old(self)@,
    {
        if len > self.len() {
            return Err(());
        }
        let result = vstd::slice::slice_subrange(*self, 0, len);
        *self = vstd::slice::slice_subrange(*self, len, self.len());
        Ok(result)
    }
}

} // verus!
