//! Framing: hub messages are JSON texts, each terminated by the record
//! separator character. A transport chunk may carry several of them, and
//! a message may be cut across chunks.
use vstd::prelude::*;

verus! {

/// The character that ends every frame on the wire.
pub const RECORD_SEPARATOR: char = '\x1E';

/// Splits `s` into the non-empty frames that a record separator has closed,
/// in order, and the text after the last separator, which no separator has
/// closed yet.
pub open spec fn split_records(s: Seq<char>) -> (Seq<Seq<char>>, Seq<char>)
    decreases s.len(),
{
    if s.len() == 0 {
        (Seq::empty(), Seq::empty())
    } else {
        let prev = split_records(s.drop_last());
        if s.last() == RECORD_SEPARATOR {
            if prev.1.len() > 0 {
                (prev.0.push(prev.1), Seq::empty())
            } else {
                (prev.0, Seq::empty())
            }
        } else {
            (prev.0, prev.1.push(s.last()))
        }
    }
}

/// The complete frames of `s`.
pub open spec fn frames_of(s: Seq<char>) -> Seq<Seq<char>> {
    split_records(s).0
}

/// The views of a vector of strings.
pub open spec fn texts(v: Seq<String>) -> Seq<Seq<char>> {
    v.map_values(|t: String| t@)
}

/// The unfinished rest holds no separator.
pub proof fn lemma_rest_has_no_separator(s: Seq<char>)
    ensures
        !split_records(s).1.contains(RECORD_SEPARATOR),
    decreases s.len(),
{
    if s.len() > 0 {
        lemma_rest_has_no_separator(s.drop_last());
        let prev = split_records(s.drop_last()).1;
        if s.last() != RECORD_SEPARATOR {
            assert forall|i: int| 0 <= i < prev.push(s.last()).len() implies prev.push(
                s.last(),
            )[i] != RECORD_SEPARATOR by {
                if i < prev.len() {
                    assert(prev.push(s.last())[i] == prev[i]);
                }
            }
        }
    }
}

/// Text without a separator closes no frame and is all rest.
pub proof fn lemma_no_separator_is_rest(s: Seq<char>)
    requires
        !s.contains(RECORD_SEPARATOR),
    ensures
        split_records(s) == (Seq::<Seq<char>>::empty(), s),
    decreases s.len(),
{
    if s.len() > 0 {
        assert(s.drop_last().len() < s.len());
        assert(!s.drop_last().contains(RECORD_SEPARATOR)) by {
            assert forall|i: int| 0 <= i < s.drop_last().len() implies s.drop_last()[i]
                != RECORD_SEPARATOR by {
                assert(s.drop_last()[i] == s[i]);
            }
        }
        lemma_no_separator_is_rest(s.drop_last());
        assert(s[s.len() - 1] == s.last());
        assert(s.drop_last().push(s.last()) == s);
    }
}

/// Framing text that arrives in two parts gives the frames of the first
/// part, then those of its unfinished rest followed by the second part, and
/// the same rest as framing the whole text at once.
pub proof fn lemma_frames_across_chunks(a: Seq<char>, b: Seq<char>)
    ensures
        split_records(a + b) == (
            split_records(a).0 + split_records(split_records(a).1 + b).0,
            split_records(split_records(a).1 + b).1,
        ),
    decreases b.len(),
{
    let fa = split_records(a).0;
    let ra = split_records(a).1;
    if b.len() == 0 {
        assert(a + b == a);
        assert(ra + b == ra);
        lemma_rest_has_no_separator(a);
        lemma_no_separator_is_rest(ra);
        assert(fa + Seq::<Seq<char>>::empty() == fa);
    } else {
        let b0 = b.drop_last();
        lemma_frames_across_chunks(a, b0);
        assert((a + b).drop_last() == a + b0);
        assert((a + b).last() == b.last());
        assert((ra + b).drop_last() == ra + b0);
        assert((ra + b).last() == b.last());
        let g = split_records(ra + b0);
        if b.last() == RECORD_SEPARATOR && g.1.len() > 0 {
            assert((fa + g.0).push(g.1) == fa + g.0.push(g.1));
        }
    }
}

/// Scans `text` and returns its complete frames and the unfinished rest.
fn scan(text: &str) -> (r: (Vec<String>, String))
    ensures
        texts(r.0@) == split_records(text@).0,
        r.1@ == split_records(text@).1,
{
    let n = text.unicode_len();
    let mut frames: Vec<String> = Vec::new();
    let mut start: usize = 0;
    let mut i: usize = 0;
    while i < n
        invariant
            n == text@.len(),
            start <= i <= n,
            texts(frames@) == split_records(text@.subrange(0, i as int)).0,
            text@.subrange(start as int, i as int) == split_records(text@.subrange(0, i as int)).1,
        decreases n - i,
    {
        let c = text.get_char(i);
        assert(text@.subrange(0, i + 1).drop_last() == text@.subrange(0, i as int));
        assert(text@.subrange(0, i + 1).last() == c);
        if c == RECORD_SEPARATOR {
            if start < i {
                let piece = text.substring_char(start, i).to_owned();
                frames.push(piece);
                assert(texts(frames@) == split_records(text@.subrange(0, i as int)).0.push(piece@));
            }
            start = i + 1;
        } else {
            assert(text@.subrange(start as int, i + 1) == text@.subrange(start as int, i as int).push(c));
        }
        i = i + 1;
    }
    assert(text@.subrange(0, n as int) == text@);
    let rest = text.substring_char(start, n).to_owned();
    (frames, rest)
}

/// Splits one transport chunk into the frames that it completes, in order.
/// Empty frames are skipped, and text after the last separator is not a
/// frame.
pub fn split_frames(chunk: &str) -> (r: Vec<String>)
    ensures
        texts(r@) == frames_of(chunk@),
{
    scan(chunk).0
}

/// Reassembles frames from a sequence of chunks, holding back the text of a
/// frame whose separator has not arrived yet.
pub struct FrameBuffer {
    pending: String,
}

impl FrameBuffer {
    /// The text received so far that no separator has closed.
    pub closed spec fn pending(&self) -> Seq<char> {
        self.pending@
    }

    pub fn new() -> (r: FrameBuffer)
        ensures
            r.pending() == Seq::<char>::empty(),
    {
        FrameBuffer { pending: String::new() }
    }

    /// Takes the next chunk and returns the frames completed by it: those of
    /// the held-back text followed by the chunk.
    pub fn push(&mut self, chunk: &str) -> (r: Vec<String>)
        ensures
            texts(r@) == frames_of(old(self).pending() + chunk@),
            final(self).pending() == split_records(old(self).pending() + chunk@).1,
    {
        let text = self.pending.clone().concat(chunk);
        let (frames, rest) = scan(text.as_str());
        self.pending = rest;
        frames
    }
}

} // verus!
