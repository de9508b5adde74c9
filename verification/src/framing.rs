//! Reassembly of a raw serial byte stream into terminator-delimited frames.
//!
//! Every serial device in this system ends each line with the two-byte
//! terminator carriage return, line feed. The stream arrives in chunks of
//! arbitrary size; a [`FrameSplitter`] buffers the chunks and hands back each
//! complete frame, in arrival order and without its terminator.

use vstd::prelude::*;

verus! {

/// First byte of the line terminator: carriage return.
pub const CR: u8 = 13;

/// Second byte of the line terminator: line feed.
pub const LF: u8 = 10;

/// True when the two bytes at position `i` of `s` form the line terminator.
pub open spec fn term_at(s: Seq<u8>, i: int) -> bool {
    &&& 0 <= i
    &&& i + 1 < s.len()
    &&& s[i] == CR
    &&& s[i + 1] == LF
}

/// A byte sequence that contains no line terminator anywhere.
pub open spec fn term_free(s: Seq<u8>) -> bool {
    forall|i: int| !term_at(s, i)
}

/// Position of the first line terminator in `s`, or -1 when `s` holds none.
pub open spec fn split_pos(s: Seq<u8>) -> int
    decreases s.len(),
{
    if s.len() < 2 {
        -1
    } else if s[0] == CR && s[1] == LF {
        0
    } else {
        let p = split_pos(s.skip(1));
        if p < 0 {
            -1
        } else {
            p + 1
        }
    }
}

/// The complete frames contained in `s`, in order, each without its
/// terminator; a trailing partial frame is not included.
pub open spec fn frames(s: Seq<u8>) -> Seq<Seq<u8>>
    decreases s.len(),
{
    let p = split_pos(s);
    if 0 <= p && p + 2 <= s.len() {
        seq![s.take(p)] + frames(s.skip(p + 2))
    } else {
        Seq::empty()
    }
}

/// `split_pos` finds exactly the first terminator: if it reports a position,
/// the terminator stands there and nowhere earlier; if it reports none, the
/// sequence is terminator-free.
pub proof fn lemma_split_pos_first(s: Seq<u8>)
    ensures
        split_pos(s) >= 0 ==> term_at(s, split_pos(s)),
        split_pos(s) >= 0 ==> forall|j: int| 0 <= j < split_pos(s) ==> !term_at(s, j),
        split_pos(s) < 0 ==> term_free(s),
    decreases s.len(),
{
    if s.len() < 2 {
        assert forall|i: int| !term_at(s, i) by {}
    } else if s[0] == CR && s[1] == LF {
    } else {
        let t = s.skip(1);
        lemma_split_pos_first(t);
        assert forall|j: int| term_at(s, j) implies j >= 1 && term_at(t, j - 1) by {
            assert(t[j - 1] == s[j]);
            assert(t[j] == s[j + 1]);
        }
        if split_pos(t) >= 0 {
            let p = split_pos(t);
            assert(s[p + 1] == t[p]);
            assert(s[p + 2] == t[p + 1]);
            assert(term_at(s, p + 1));
            assert forall|j: int| 0 <= j < p + 1 implies !term_at(s, j) by {
                if j >= 1 && term_at(s, j) {
                    assert(term_at(t, j - 1));
                }
            }
        } else {
            assert forall|i: int| !term_at(s, i) by {
                if term_at(s, i) {
                    assert(term_at(t, i - 1));
                }
            }
        }
    }
}

/// The first terminator position determines `split_pos`: a terminator at `i`
/// with none earlier means `split_pos(s) == i`.
pub proof fn lemma_split_pos_at(s: Seq<u8>, i: int)
    requires
        term_at(s, i),
        forall|j: int| 0 <= j < i ==> !term_at(s, j),
    ensures
        split_pos(s) == i,
{
    lemma_split_pos_first(s);
    let p = split_pos(s);
    if p < 0 {
        assert(!term_at(s, i));
    } else if p < i {
        assert(!term_at(s, p));
    } else if i < p {
        assert(!term_at(s, i));
    }
}

/// Buffers an incoming byte stream and splits it at each line terminator.
///
/// The view of a splitter is the sequence of bytes that have been fed but not
/// yet handed back as frames.
pub struct FrameSplitter {
    buf: Vec<u8>,
}

impl View for FrameSplitter {
    type V = Seq<u8>;

    closed spec fn view(&self) -> Seq<u8> {
        self.buf@
    }
}

impl FrameSplitter {
    /// A splitter holding no bytes.
    pub fn new() -> (r: Self)
        ensures
            r@ == Seq::<u8>::empty(),
    {
        FrameSplitter { buf: Vec::new() }
    }

    /// Appends one chunk of the incoming stream, exactly as received.
    pub fn feed(&mut self, bytes: &[u8])
        ensures
            final(self)@ == old(self)@ + bytes@,
    {
        let n = bytes.len();
        let mut k: usize = 0;
        while k < n
            invariant
                k <= n,
                n == bytes@.len(),
                self@ == old(self)@ + bytes@.take(k as int),
            decreases n - k,
        {
            self.buf.push(bytes[k]);
            k = k + 1;
            proof {
                assert(self@ =~= old(self)@ + bytes@.take(k as int));
            }
        }
        proof {
            assert(bytes@.take(n as int) =~= bytes@);
        }
    }

    /// Removes and returns the first complete frame, without its terminator;
    /// returns nothing, and leaves the buffer unchanged, when no complete
    /// frame has arrived yet.
    pub fn next_frame(&mut self) -> (r: Option<Vec<u8>>)
        ensures
            split_pos(old(self)@) < 0 ==> r is None && final(self)@ == old(self)@,
            split_pos(old(self)@) >= 0 ==> {
                &&& r matches Some(f) && f@ == old(self)@.take(split_pos(old(self)@))
                &&& final(self)@ == old(self)@.skip(split_pos(old(self)@) + 2)
            },
    {
        let n = self.buf.len();
        let mut i: usize = 0;
        let mut found = false;
        while !found && i + 1 < n
            invariant
                n == self@.len(),
                self@ == old(self)@,
                i + 1 <= n || i == 0,
                found ==> term_at(self@, i as int),
                forall|j: int| 0 <= j < i ==> !term_at(self@, j),
            decreases n - i, (if found { 0int } else { 1int }),
        {
            if self.buf[i] == CR && self.buf[i + 1] == LF {
                found = true;
            } else {
                proof {
                    assert(forall|j: int| 0 <= j < i + 1 ==> !term_at(self@, j));
                }
                i = i + 1;
            }
        }
        if !found {
            proof {
                lemma_split_pos_first(self@);
                if split_pos(self@) >= 0 {
                    assert(term_at(self@, split_pos(self@)));
                }
            }
            return None;
        }
        proof {
            lemma_split_pos_at(self@, i as int);
        }
        let mut frame: Vec<u8> = Vec::new();
        let mut k: usize = 0;
        while k < i
            invariant
                k <= i,
                i + 1 < n,
                n == self@.len(),
                self@ == old(self)@,
                frame@ == self@.take(i as int).take(k as int),
            decreases i - k,
        {
            frame.push(self.buf[k]);
            k = k + 1;
            proof {
                assert(frame@ =~= self@.take(i as int).take(k as int));
            }
        }
        proof {
            assert(frame@ =~= self@.take(i as int));
        }
        let mut rest: Vec<u8> = Vec::new();
        let mut m: usize = i + 2;
        while m < n
            invariant
                i + 2 <= m <= n,
                n == self@.len(),
                self@ == old(self)@,
                rest@ == self@.skip(i + 2).take(m - (i + 2)),
            decreases n - m,
        {
            rest.push(self.buf[m]);
            m = m + 1;
            proof {
                assert(rest@ =~= self@.skip(i + 2).take(m - (i + 2)));
            }
        }
        proof {
            assert(rest@ =~= self@.skip(i + 2));
        }
        self.buf = rest;
        Some(frame)
    }
}

/// The wire image of a sequence of frames: each frame followed by the line
/// terminator, concatenated in order.
pub open spec fn wire_concat(segs: Seq<Seq<u8>>) -> Seq<u8>
    decreases segs.len(),
{
    if segs.len() == 0 {
        Seq::empty()
    } else {
        segs[0] + seq![CR, LF] + wire_concat(segs.skip(1))
    }
}

/// Reassembly is exact: a stream consisting of terminator-free segments, each
/// followed by the terminator, and then any terminator-free tail, splits into
/// exactly those segments, in order and byte for byte — however the stream
/// was cut into chunks, since feeding chunks only concatenates them.
pub proof fn lemma_reassembly(segs: Seq<Seq<u8>>, tail: Seq<u8>)
    requires
        forall|k: int| 0 <= k < segs.len() ==> term_free(#[trigger] segs[k]),
        term_free(tail),
    ensures
        frames(wire_concat(segs) + tail) == segs,
    decreases segs.len(),
{
    let s = wire_concat(segs) + tail;
    if segs.len() == 0 {
        assert(s =~= tail);
        lemma_split_pos_first(tail);
        if split_pos(tail) >= 0 {
            assert(term_at(tail, split_pos(tail)));
        }
        assert(frames(s) =~= segs);
    } else {
        let seg0 = segs[0];
        let rest = wire_concat(segs.skip(1)) + tail;
        let l = seg0.len() as int;
        assert(s =~= seg0 + seq![CR, LF] + rest);
        assert(term_at(s, l));
        assert forall|j: int| 0 <= j < l implies !term_at(s, j) by {
            if j + 1 < l {
                assert(s[j] == seg0[j]);
                assert(s[j + 1] == seg0[j + 1]);
                assert(!term_at(seg0, j));
            } else {
                assert(s[j + 1] == CR);
            }
        }
        lemma_split_pos_at(s, l);
        assert(s.take(l) =~= seg0);
        assert(s.skip(l + 2) =~= rest);
        lemma_reassembly(segs.skip(1), tail);
        assert(frames(s) =~= seq![seg0] + frames(rest));
        assert(seq![seg0] + segs.skip(1) =~= segs);
    }
}

} // verus!
