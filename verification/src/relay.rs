//! The byte-relay model: one direction of a full-duplex pass-through.
//!
//! A relay session runs two of these, one per direction, each owned by
//! its own copy loop; the loops share nothing and are otherwise
//! uncoordinated. The surrounding application blocks on the endpoints,
//! hands every chunk it reads through [`RelayDirection::forward`], and
//! writes the returned bytes to the other endpoint; the contract says
//! the chunk leaves unmodified and that the direction's cumulative
//! stream is exactly what was read, independent of chunk boundaries.
//! The relay never restarts a finished loop: end-of-stream or an
//! I/O error ends the direction.

use vstd::prelude::*;

verus! {

/// One direction of the relay, with the ghost history of everything it
/// has forwarded.
pub struct RelayDirection {
    history: Ghost<Seq<u8>>,
}

/// The concatenation of a sequence of chunks.
pub open spec fn spec_concat(chunks: Seq<Seq<u8>>) -> Seq<u8>
    decreases chunks.len(),
{
    if chunks.len() == 0 {
        Seq::<u8>::empty()
    } else {
        chunks[0] + spec_concat(chunks.drop_first())
    }
}

impl RelayDirection {
    /// Everything this direction has forwarded so far, in read order.
    pub closed spec fn transferred(&self) -> Seq<u8> {
        self.history@
    }

    pub fn new() -> (r: RelayDirection)
        ensures
            r.transferred() == Seq::<u8>::empty(),
    {
        RelayDirection { history: Ghost(Seq::empty()) }
    }

    /// Copies one chunk through: the output bytes are the input bytes,
    /// and they are appended to the direction's stream.
    pub fn forward(&mut self, chunk: &Vec<u8>) -> (out: Vec<u8>)
        ensures
            out@ == chunk@,
            final(self).transferred() == old(self).transferred() + chunk@,
    {
        let mut out: Vec<u8> = Vec::new();
        let n = chunk.len();
        let mut i: usize = 0;
        while i < n
            invariant
                n == chunk@.len(),
                0 <= i <= n,
                out@ == chunk@.take(i as int),
            decreases n - i,
        {
            out.push(chunk[i]);
            i += 1;
            proof {
                assert(out@ =~= chunk@.take(i as int));
            }
        }
        proof {
            assert(out@ =~= chunk@);
        }
        let ghost h = self.history@;
        self.history = Ghost(h + chunk@);
        out
    }

    /// Forwards a whole sequence of chunks: the output is their
    /// concatenation — an arbitrary byte stream passes through
    /// complete and unmodified, however it was chunked.
    pub fn forward_all(&mut self, chunks: &Vec<Vec<u8>>) -> (out: Vec<u8>)
        ensures
            out@ == spec_concat(chunks@.map_values(|c: Vec<u8>| c@)),
            final(self).transferred() == old(self).transferred() + out@,
    {
        let ghost cs = chunks@.map_values(|c: Vec<u8>| c@);
        let mut out: Vec<u8> = Vec::new();
        let n = chunks.len();
        let mut i: usize = 0;
        proof {
            assert(cs.skip(0) =~= cs);
            assert(out@ + spec_concat(cs) =~= spec_concat(cs));
        }
        while i < n
            invariant
                n == chunks@.len(),
                cs == chunks@.map_values(|c: Vec<u8>| c@),
                0 <= i <= n,
                out@ + spec_concat(cs.skip(i as int)) == spec_concat(cs),
                self.transferred() == old(self).transferred() + out@,
        decreases n - i,
        {
            let ghost before = cs.skip(i as int);
            let piece = self.forward(&chunks[i]);
            let ghost out_before = out@;
            let m = piece.len();
            let mut j: usize = 0;
            while j < m
                invariant
                    m == piece@.len(),
                    0 <= j <= m,
                    out@ == out_before + piece@.take(j as int),
                decreases m - j,
            {
                out.push(piece[j]);
                j += 1;
                proof {
                    assert(out@ =~= out_before + piece@.take(j as int));
                }
            }
            i += 1;
            proof {
                assert(piece@.take(m as int) =~= piece@);
                assert(before[0] == cs[i - 1]);
                assert(before.drop_first() =~= cs.skip(i as int));
                assert(out@ + spec_concat(cs.skip(i as int)) =~= spec_concat(cs));
            }
        }
        proof {
            assert(cs.skip(n as int) =~= Seq::<Seq<u8>>::empty());
            assert(out@ =~= spec_concat(cs));
        }
        out
    }
}

} // verus!
