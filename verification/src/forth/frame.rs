//! Frames on a stream of bytes. A frame ends with a zero byte and holds no
//! other zero, so a receiver that has lost its place finds the next frame
//! after the next zero.

use vstd::prelude::*;

verus! {

/// The position of the first zero byte at or after `from`, or the length of
/// the stream when there is none.
pub open spec fn first_zero(stream: Seq<u8>, from: int) -> int
    decreases stream.len() - from,
{
    if from < 0 || from >= stream.len() || stream[from] == 0 {
        from
    } else {
        first_zero(stream, from + 1)
    }
}

/// The frames of the stream from `from` on: each as the positions of its
/// first byte and of the byte after its zero. Bytes after the last zero are
/// no frame yet.
pub open spec fn frames_spec(stream: Seq<u8>, from: int) -> Seq<(usize, usize)>
    decreases stream.len() - from,
{
    if from < 0 || from >= stream.len() {
        Seq::empty()
    } else {
        let end = first_zero(stream, from);
        if end >= stream.len() || end < from {
            Seq::empty()
        } else {
            seq![(from as usize, (end + 1) as usize)] + frames_spec(stream, end + 1)
        }
    }
}

/// Where the first zero is, and that no zero lies before it.
pub proof fn lemma_first_zero(stream: Seq<u8>, from: int)
    requires
        0 <= from <= stream.len(),
    ensures
        from <= first_zero(stream, from) <= stream.len(),
        first_zero(stream, from) < stream.len() ==> stream[first_zero(stream, from)] == 0,
        forall|k: int| from <= k < first_zero(stream, from) ==> stream[k] != 0,
    decreases stream.len() - from,
{
    if from < stream.len() && stream[from] != 0 {
        lemma_first_zero(stream, from + 1);
    }
}

/// The next frame at or after `from`: the positions of its first byte and of
/// the byte after its zero. `None` when no zero follows.
pub fn next_frame(stream: &[u8], from: usize) -> (r: Option<(usize, usize)>)
    requires
        from <= stream@.len(),
    ensures
        r == if first_zero(stream@, from as int) < stream@.len() {
            Some((from, (first_zero(stream@, from as int) + 1) as usize))
        } else {
            None
        },
        match r {
            Some((start, end)) => {
                &&& start == from
                &&& from < end <= stream@.len()
                &&& stream@[end - 1] == 0
                &&& forall|k: int| from <= k < end - 1 ==> stream@[k] != 0
            },
            None => forall|k: int| from <= k < stream@.len() ==> stream@[k] != 0,
        },
{
    let mut i: usize = from;
    while i < stream.len()
        invariant
            from <= i <= stream@.len(),
            first_zero(stream@, from as int) == first_zero(stream@, i as int),
        decreases stream.len() - i,
    {
        if stream[i] == 0 {
            proof {
                lemma_first_zero(stream@, from as int);
            }
            return Some((from, i + 1));
        }
        i += 1;
    }
    proof {
        lemma_first_zero(stream@, from as int);
    }
    None
}

/// All frames of the stream, in order; see [`frames_spec`].
pub fn frames(stream: &[u8]) -> (r: Vec<(usize, usize)>)
    ensures
        r@ == frames_spec(stream@, 0),
{
    let mut out: Vec<(usize, usize)> = Vec::new();
    let mut from: usize = 0;
    let mut open = true;
    proof {
        assert(out@ + frames_spec(stream@, 0) =~= frames_spec(stream@, 0));
    }
    while open && from < stream.len()
        invariant
            from <= stream@.len(),
            open ==> out@ + frames_spec(stream@, from as int) == frames_spec(stream@, 0),
            !open ==> out@ == frames_spec(stream@, 0),
        decreases stream.len() - from + (if open { 1int } else { 0int }),
    {
        proof {
            lemma_first_zero(stream@, from as int);
        }
        match next_frame(stream, from) {
            Some((start, end)) => {
                proof {
                    let rest = frames_spec(stream@, end as int);
                    assert(out@.push((start, end)) + rest =~= out@ + (seq![(start, end)] + rest));
                }
                out.push((start, end));
                from = end;
            },
            None => {
                proof {
                    assert(out@ + Seq::<(usize, usize)>::empty() =~= out@);
                }
                open = false;
            },
        }
    }
    proof {
        if open {
            assert(out@ + Seq::<(usize, usize)>::empty() =~= out@);
        }
    }
    out
}

} // verus!
