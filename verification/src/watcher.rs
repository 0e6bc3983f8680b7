//! Following the console log as the game appends to it: where the next line
//! starts, and when the file was replaced by a new one.
use vstd::prelude::*;

verus! {

/// The read position in the console log and the identity (inode) of the
/// file being read.
#[derive(Debug, Clone, Copy, PartialEq, Eq, Structural)]
pub struct LineCursor {
    pub ino: u64,
    pub pos: u64,
}

/// What to do after a read found no new line.
#[derive(Debug, Clone, Copy, PartialEq, Eq, Structural)]
pub enum EndOfLog {
    /// The log was replaced by a new file: reopen it.
    Rotated,
    /// The same file: wait for the game to write more.
    Wait,
}

impl LineCursor {
    /// A cursor at the end of a log file of `len` bytes with inode `ino`:
    /// only lines written from now on are read.
    pub fn new(ino: u64, len: u64) -> (r: LineCursor)
        ensures
            r.ino == ino,
            r.pos == len,
    {
        LineCursor { ino, pos: len }
    }

    /// Moves past a line of `bytes` bytes just read; the position wraps
    /// around at 2^64.
    pub fn advance(&mut self, bytes: u64)
        ensures
            final(self).ino == old(self).ino,
            final(self).pos as int == (old(self).pos as int + bytes as int) % 0x1_0000_0000_0000_0000,
    {
        if bytes <= u64::MAX - self.pos {
            self.pos = self.pos + bytes;
        } else {
            self.pos = bytes - (u64::MAX - self.pos) - 1;
        }
    }

    /// After a read found no new line: the log was rotated when the file now
    /// at its path has another inode.
    pub fn at_end(&self, current_ino: u64) -> (r: EndOfLog)
        ensures
            r == (if current_ino != self.ino { EndOfLog::Rotated } else { EndOfLog::Wait }),
    {
        if current_ino != self.ino {
            EndOfLog::Rotated
        } else {
            EndOfLog::Wait
        }
    }
}

} // verus!
