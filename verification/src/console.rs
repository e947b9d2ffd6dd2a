//! The per-guest console stream.
//!
//! An append-only byte stream paired with a version token. The token
//! increases strictly on every write and never decreases, so a consumer can
//! compare tokens to decide whether to re-render.

use vstd::prelude::*;

verus! {

/// One guest's captured console output.
#[derive(Debug)]
pub struct Console {
    /// The appended bytes, oldest first.
    pub data: Vec<u8>,
    /// Increases strictly on every mutation.
    pub version: u64,
}

impl Console {
    /// An empty stream with the starting version token.
    pub fn new() -> (c: Console)
        ensures
            c.data@ =~= Seq::<u8>::empty(),
            c.version == 0,
    {
        Console { data: Vec::new(), version: 0 }
    }

    /// Appends `bytes` to the stream and bumps the version token.
    pub fn append(&mut self, bytes: &Vec<u8>)
        requires
            old(self).version < u64::MAX,
        ensures
            final(self).data@ =~= old(self).data@ + bytes@,
            final(self).version == old(self).version + 1,
    {
        let ghost before = self.data@;
        let n = bytes.len();
        let mut i: usize = 0;
        while i < n
            invariant
                i <= n,
                n == bytes@.len(),
                self.data@ =~= before + bytes@.take(i as int),
                self.version == old(self).version,
            decreases n - i,
        {
            self.data.push(bytes[i]);
            proof {
                assert(self.data@ =~= before + bytes@.take(i + 1));
            }
            i = i + 1;
        }
        self.version = self.version + 1;
        proof {
            assert(self.data@ =~= before + bytes@);
        }
    }

    /// Appends one byte to the stream and bumps the version token.
    pub fn append_byte(&mut self, b: u8)
        requires
            old(self).version < u64::MAX,
        ensures
            final(self).data@ =~= old(self).data@ + seq![b],
            final(self).version == old(self).version + 1,
    {
        self.data.push(b);
        self.version = self.version + 1;
    }
}

/// Console monotonicity: a write bumps the version token by exactly one, so
/// over any sequence of writes the token increases strictly and never
/// decreases.
pub proof fn lemma_console_version_monotonic(before: Console, mid: Console, after: Console)
    requires
        mid.version == before.version + 1,
        after.version == mid.version + 1,
    ensures
        before.version < mid.version < after.version,
{
}

} // verus!
