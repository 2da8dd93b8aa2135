//! The bounded log buffer: an append-only byte string with a capacity.
//!
//! A child's error stream is drained into one of these; whatever exceeds the
//! capacity is discarded, so the buffer never grows past its cap while the
//! stream itself keeps being read.
use vstd::prelude::*;

verus! {

/// The bytes kept after appending `s` to a buffer holding `data` with
/// capacity `cap`: all of `s` while room remains, nothing after.
pub open spec fn bounded_append(data: Seq<u8>, s: Seq<u8>, cap: nat) -> Seq<u8> {
    if data.len() + s.len() <= cap {
        data + s
    } else if data.len() <= cap {
        data + s.take(cap - data.len())
    } else {
        data
    }
}

/// A bounded append-only byte buffer.
pub struct LogBuffer {
    data: Vec<u8>,
    cap: usize,
}

impl LogBuffer {
    /// The bytes accumulated so far.
    pub closed spec fn contents(&self) -> Seq<u8> {
        self.data@
    }

    /// The capacity the buffer was created with.
    pub closed spec fn cap(&self) -> nat {
        self.cap as nat
    }

    /// A buffer never holds more than its capacity.
    pub closed spec fn wf(&self) -> bool {
        self.data@.len() <= self.cap
    }

    /// An empty buffer with the given capacity.
    pub fn new(cap: usize) -> (r: LogBuffer)
        ensures
            r.wf(),
            r.contents() == Seq::<u8>::empty(),
            r.cap() == cap,
    {
        LogBuffer { data: Vec::new(), cap }
    }

    /// Appends as much of `s` as the capacity allows; the excess is
    /// discarded and the call still succeeds.
    pub fn append(&mut self, s: &[u8])
        requires
            old(self).wf(),
        ensures
            final(self).wf(),
            final(self).cap() == old(self).cap(),
            final(self).contents() == bounded_append(old(self).contents(), s@, old(self).cap()),
    {
        let room: usize = self.cap - self.data.len();
        let keep: usize = if s.len() < room {
            s.len()
        } else {
            room
        };
        let mut k: usize = 0;
        while k < keep
            invariant
                0 <= k <= keep <= s@.len(),
                keep <= old(self).cap() - old(self).contents().len(),
                self.cap == old(self).cap,
                self.data@ =~= old(self).data@ + s@.take(k as int),
            decreases keep - k,
        {
            let b = s[k];
            self.data.push(b);
            k = k + 1;
        }
        proof {
            assert(final(self).contents() =~= bounded_append(
                old(self).contents(),
                s@,
                old(self).cap(),
            ));
        }
    }

    /// Hands the accumulated bytes over, consuming the buffer.
    pub fn into_bytes(self) -> (r: Vec<u8>)
        ensures
            r@ == self.contents(),
    {
        self.data
    }
}

/// Well-formedness bounds the contents by the capacity.
pub proof fn lemma_buffer_bounded(b: &LogBuffer)
    requires
        b.wf(),
    ensures
        b.contents().len() <= b.cap(),
{
}

} // verus!
