//! The memory image emitter: serializes the mapped token stream into the
//! machine's fixed-capacity memory layout.

use vstd::prelude::*;

use crate::MEM_SIZE;

verus! {

/// A byte string in reverse order.
pub open spec fn rev(s: Seq<u8>) -> Seq<u8> {
    Seq::new(s.len(), |i: int| s[s.len() - 1 - i])
}

/// The live part of the image: each token's characters written in reverse
/// order (a format quirk of the target medium), in token order.
pub open spec fn spec_live_image(tokens: Seq<Seq<u8>>) -> Seq<u8>
    decreases tokens.len(),
{
    if tokens.len() == 0 {
        Seq::empty()
    } else {
        rev(tokens[0]) + spec_live_image(tokens.drop_first())
    }
}

/// `n` copies of the two-character placeholder token, written as-is.
pub open spec fn spec_filler(n: int) -> Seq<u8>
    decreases n when n >= 0
{
    if n <= 0 {
        Seq::empty()
    } else {
        spec_filler(n - 1) + seq![45u8, 45u8]
    }
}

/// The whole image: the live tokens reversed, then the placeholder up to
/// the capacity of `2 * MEM_SIZE` tokens.
pub open spec fn spec_image(tokens: Seq<Seq<u8>>) -> Seq<u8> {
    spec_live_image(tokens) + spec_filler(2 * (MEM_SIZE as int) - tokens.len())
}

/// The live image distributes over appending one token.
proof fn lemma_live_image_push(tokens: Seq<Seq<u8>>, x: Seq<u8>)
    ensures
        spec_live_image(tokens.push(x)) == spec_live_image(tokens) + rev(x),
    decreases tokens.len(),
{
    if tokens.len() == 0 {
        assert(tokens.push(x)[0] == x);
        assert(tokens.push(x).drop_first() =~= tokens);
        assert(spec_live_image(tokens) =~= Seq::<u8>::empty());
        assert(spec_live_image(tokens.push(x)) =~= spec_live_image(tokens) + rev(x));
    } else {
        assert(tokens.push(x)[0] == tokens[0]);
        assert(tokens.push(x).drop_first() =~= tokens.drop_first().push(x));
        lemma_live_image_push(tokens.drop_first(), x);
        assert(spec_live_image(tokens.push(x)) =~= spec_live_image(tokens) + rev(x));
    }
}

/// The mapped token stream, ready to be laid out as a memory image.
pub struct AsmOutput(pub Vec<Vec<u8>>);

impl View for AsmOutput {
    type V = Seq<Seq<u8>>;

    open spec fn view(&self) -> Seq<Seq<u8>> {
        self.0@.map_values(|v: Vec<u8>| v@)
    }
}

impl AsmOutput {
    /// Lays the tokens out as the machine's memory image: each live
    /// token's characters in reverse order, then the placeholder token up
    /// to capacity.  More live tokens than the capacity of
    /// `2 * MEM_SIZE` cannot be laid out at all: the program does not fit
    /// the machine's address space.
    pub fn to_image(&self) -> (r: Option<Vec<u8>>)
        ensures
            self@.len() <= 2 * (MEM_SIZE as int) ==> (r matches Some(v) && v@ == spec_image(
                self@,
            )),
            self@.len() > 2 * (MEM_SIZE as int) ==> r is None,
    {
        let cap: usize = (MEM_SIZE as usize) * 2;
        if self.0.len() > cap {
            return None;
        }
        let mut out: Vec<u8> = Vec::new();
        let mut i: usize = 0;
        while i < self.0.len()
            invariant
                i <= self@.len(),
                out@ == spec_live_image(self@.subrange(0, i as int)),
            decreases self@.len() - i,
        {
            let tok: &Vec<u8> = &self.0[i];
            let ghost pre = out@;
            let mut k: usize = 0;
            while k < tok.len()
                invariant
                    k <= tok@.len(),
                    out@ == pre + rev(tok@).subrange(0, k as int),
                decreases tok@.len() - k,
            {
                out.push(tok[tok.len() - 1 - k]);
                proof {
                    assert(rev(tok@)[k as int] == tok@[tok@.len() - 1 - k]);
                    assert(out@ =~= pre + rev(tok@).subrange(0, k + 1));
                }
                k = k + 1;
            }
            proof {
                assert(rev(tok@).subrange(0, rev(tok@).len() as int) =~= rev(tok@));
                assert(self@.subrange(0, i + 1) =~= self@.subrange(0, i as int).push(tok@));
                lemma_live_image_push(self@.subrange(0, i as int), tok@);
            }
            i = i + 1;
        }
        proof {
            assert(self@.subrange(0, self@.len() as int) =~= self@);
        }
        let pad = cap - self.0.len();
        let mut j: usize = 0;
        while j < pad
            invariant
                j <= pad,
                out@ == spec_live_image(self@) + spec_filler(j as int),
            decreases pad - j,
        {
            out.push(45);
            out.push(45);
            proof {
                assert(out@ =~= spec_live_image(self@) + spec_filler(j + 1));
            }
            j = j + 1;
        }
        Some(out)
    }
}

} // verus!
