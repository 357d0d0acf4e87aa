//! A finished backup as a stream: the bytes, with a read position.

use vstd::prelude::*;
use crate::utils::copy_block;

verus! {

/// A backup that is read piece by piece. The position counts the bytes that
/// were handed out; it may be set anywhere, and at or beyond the end nothing
/// is left to read.
#[derive(Debug)]
pub struct BackupStream {
    bytes: Vec<u8>,
    position: usize,
}

impl View for BackupStream {
    type V = Seq<u8>;

    /// The bytes of the whole backup, whatever the position.
    closed spec fn view(&self) -> Seq<u8> {
        self.bytes@
    }
}

impl BackupStream {
    /// The read position.
    pub closed spec fn spec_position(&self) -> usize {
        self.position
    }

    /// The bytes between the position and the end.
    pub open spec fn rest(&self) -> Seq<u8> {
        if self.spec_position() >= self@.len() {
            Seq::empty()
        } else {
            self@.subrange(self.spec_position() as int, self@.len() as int)
        }
    }

    /// A stream over `bytes`, positioned at their start.
    pub fn new(bytes: Vec<u8>) -> (stream: BackupStream)
        ensures
            stream@ == bytes@,
            stream.spec_position() == 0,
    {
        BackupStream { bytes, position: 0 }
    }

    /// Bytes in the whole backup.
    pub fn len(&self) -> (len: usize)
        ensures
            len == self@.len(),
    {
        self.bytes.len()
    }

    /// The read position.
    #[verifier::when_used_as_spec(spec_position)]
    pub fn position(&self) -> (position: usize)
        ensures
            position == self.spec_position(),
    {
        self.position
    }

    /// Number of bytes between the position and the end.
    pub fn remaining(&self) -> (left: usize)
        ensures
            left == self.rest().len(),
    {
        if self.position >= self.bytes.len() {
            0
        } else {
            self.bytes.len() - self.position
        }
    }

    /// Moves the read position to `position` bytes from the start.
    pub fn set_position(&mut self, position: usize)
        ensures
            final(self)@ == old(self)@,
            final(self).spec_position() == position,
    {
        self.position = position;
    }

    /// Copies the next bytes of the backup to the front of `buf`, as many as
    /// are left and fit, and moves the position past them. Returns their
    /// number; 0 says that the end is reached or that `buf` is empty.
    pub fn read(&mut self, buf: &mut [u8]) -> (count: usize)
        ensures
            final(self)@ == old(self)@,
            count == if old(self).rest().len() <= old(buf)@.len() {
                old(self).rest().len()
            } else {
                old(buf)@.len()
            },
            final(self).spec_position() == old(self).spec_position() + count,
            final(buf)@ == old(self).rest().take(count as int) + old(buf)@.skip(count as int),
    {
        let left = self.remaining();
        let count = if left <= buf.len() {
            left
        } else {
            buf.len()
        };
        if count > 0 {
            assert(self.bytes.len() == self.bytes@.len());
            copy_block(self.bytes.as_slice(), self.position, buf, count);
            self.position = self.position + count;
        }
        assert(buf@ =~= old(self).rest().take(count as int) + old(buf)@.skip(count as int));
        count
    }

    /// Gives the bytes of the whole backup back.
    pub fn into_bytes(self) -> (bytes: Vec<u8>)
        ensures
            bytes@ == self@,
    {
        self.bytes
    }
}

} // verus!
