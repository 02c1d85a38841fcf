//! The transcription side of the daemon that is pure bookkeeping: the
//! fixed-capacity rolling window of audio samples, and the
//! trim-and-compare step that decides whether a recognizer run changed
//! the published transcript.
//!
//! The recognizer itself is a black box `audio -> text` that works on
//! floating-point samples, so the inference call lives outside this
//! crate; everything here is stated and proved over plain values.

use vstd::prelude::*;
use vstd::string::StrSliceExecFns;

verus! {

/// Samples per second of the mono stream handed to the recognizer.
pub const SAMPLE_RATE: usize = 16000;

/// The last `w` elements of `hist`: what a rolling window of capacity
/// `w` holds after `hist` has been appended to it in order.
pub open spec fn window<T>(hist: Seq<T>, w: nat) -> Seq<T> {
    if hist.len() <= w {
        hist
    } else {
        hist.skip(hist.len() - w)
    }
}

/// A window of a window composes: feeding more data into a rolling
/// window gives the same contents as rolling the whole history at once.
/// So after any sequence of pushes a buffer holds exactly the suffix,
/// of length at most its capacity, of everything pushed.
pub proof fn lemma_window_compose<T>(hist: Seq<T>, xs: Seq<T>, w: nat)
    ensures
        window(window(hist, w) + xs, w) == window(hist + xs, w),
{
    assert(window(window(hist, w) + xs, w) =~= window(hist + xs, w));
}

/// Fixed-capacity FIFO of audio samples: appends drop the oldest
/// samples once the capacity is exceeded.
pub struct RollingBuffer<T> {
    samples: Vec<T>,
    capacity: usize,
}

impl<T: Copy> RollingBuffer<T> {
    /// The samples currently held, oldest first.
    pub closed spec fn contents(&self) -> Seq<T> {
        self.samples@
    }

    /// The fixed maximum number of samples held.
    pub closed spec fn cap(&self) -> nat {
        self.capacity as nat
    }

    /// The buffer never holds more than its capacity.
    pub open spec fn wf(&self) -> bool {
        self.contents().len() <= self.cap()
    }

    /// A buffer sized for the given duration of audio at `SAMPLE_RATE`.
    pub fn new(duration_secs: u64) -> (r: Self)
        requires
            duration_secs * 16000 <= usize::MAX,
        ensures
            r.wf(),
            r.contents() == Seq::<T>::empty(),
            r.cap() == duration_secs * 16000,
    {
        let capacity: usize = (duration_secs as usize) * SAMPLE_RATE;
        RollingBuffer { samples: Vec::new(), capacity }
    }

    /// Append new samples; if the total exceeds the capacity, the
    /// oldest samples are dropped, in order, so that exactly the most
    /// recent `cap()` remain.
    pub fn push(&mut self, new_samples: &[T])
        requires
            old(self).wf(),
        ensures
            final(self).wf(),
            final(self).cap() == old(self).cap(),
            final(self).contents() == window(old(self).contents() + new_samples@, old(self).cap()),
    {
        let ghost hist = self.samples@ + new_samples@;
        let mut i: usize = 0;
        let n = new_samples.len();
        while i < n
            invariant
                0 <= i <= n,
                n == new_samples@.len(),
                self.samples@ == old(self).samples@ + new_samples@.subrange(0, i as int),
                self.capacity == old(self).capacity,
            decreases n - i,
        {
            self.samples.push(new_samples[i]);
            proof {
                assert(old(self).samples@ + new_samples@.subrange(0, i + 1) =~= (old(
                    self,
                ).samples@ + new_samples@.subrange(0, i as int)).push(new_samples@[i as int]));
            }
            i = i + 1;
        }
        proof {
            assert(self.samples@ =~= hist);
        }
        let total = self.samples.len();
        if total > self.capacity {
            let excess = total - self.capacity;
            let mut kept: Vec<T> = Vec::new();
            let mut j = excess;
            while j < total
                invariant
                    excess <= j <= total,
                    total == hist.len(),
                    excess == hist.len() - self.capacity,
                    self.samples@ == hist,
                    kept@ == hist.subrange(excess as int, j as int),
                decreases total - j,
            {
                kept.push(self.samples[j]);
                proof {
                    assert(hist.subrange(excess as int, j + 1) =~= hist.subrange(
                        excess as int,
                        j as int,
                    ).push(hist[j as int]));
                }
                j = j + 1;
            }
            self.samples = kept;
            proof {
                assert(self.samples@ =~= hist.skip(hist.len() - self.capacity));
            }
        }
    }

    /// All samples currently in the buffer, oldest first.
    pub fn samples(&self) -> (r: &[T])
        ensures
            r@ == self.contents(),
    {
        self.samples.as_slice()
    }

    /// Drop every sample; the capacity is unchanged.
    pub fn clear(&mut self)
        ensures
            final(self).wf(),
            final(self).contents() == Seq::<T>::empty(),
            final(self).cap() == old(self).cap(),
    {
        self.samples.clear();
    }

    /// Number of samples currently held.
    pub fn len(&self) -> (r: usize)
        ensures
            r == self.contents().len(),
    {
        self.samples.len()
    }
}

/// The characters the transcript trim strips at either end: the
/// Unicode white-space set.
pub open spec fn is_blank_char(c: char) -> bool {
    c == '\u{9}' || c == '\u{a}' || c == '\u{b}' || c == '\u{c}' || c == '\u{d}' || c == ' '
        || c == '\u{85}' || c == '\u{a0}' || c == '\u{1680}' || c == '\u{2000}' || c
        == '\u{2001}' || c == '\u{2002}' || c == '\u{2003}' || c == '\u{2004}' || c
        == '\u{2005}' || c == '\u{2006}' || c == '\u{2007}' || c == '\u{2008}' || c
        == '\u{2009}' || c == '\u{200a}' || c == '\u{2028}' || c == '\u{2029}' || c
        == '\u{202f}' || c == '\u{205f}' || c == '\u{3000}'
}

fn blank_char(c: char) -> (r: bool)
    ensures
        r == is_blank_char(c),
{
    c == '\u{9}' || c == '\u{a}' || c == '\u{b}' || c == '\u{c}' || c == '\u{d}' || c == ' '
        || c == '\u{85}' || c == '\u{a0}' || c == '\u{1680}' || c == '\u{2000}' || c
        == '\u{2001}' || c == '\u{2002}' || c == '\u{2003}' || c == '\u{2004}' || c
        == '\u{2005}' || c == '\u{2006}' || c == '\u{2007}' || c == '\u{2008}' || c
        == '\u{2009}' || c == '\u{200a}' || c == '\u{2028}' || c == '\u{2029}' || c
        == '\u{202f}' || c == '\u{205f}' || c == '\u{3000}'
}

/// First index at or after `i` holding a non-blank character.
pub open spec fn scan_start(s: Seq<char>, i: int) -> int
    decreases s.len() - i,
{
    if 0 <= i < s.len() && is_blank_char(s[i]) {
        scan_start(s, i + 1)
    } else {
        i
    }
}

/// One past the last index before `i` holding a non-blank character.
pub open spec fn scan_end(s: Seq<char>, i: int) -> int
    decreases i,
{
    if 0 < i <= s.len() && is_blank_char(s[i - 1]) {
        scan_end(s, i - 1)
    } else {
        i
    }
}

/// `s` with blank characters stripped from both ends.
pub open spec fn trim_spec(s: Seq<char>) -> Seq<char> {
    let a = scan_start(s, 0);
    let b = scan_end(s, s.len() as int);
    if a <= b {
        s.subrange(a, b)
    } else {
        Seq::empty()
    }
}

proof fn lemma_scan_start_bounds(s: Seq<char>, i: int)
    requires
        0 <= i <= s.len(),
    ensures
        i <= scan_start(s, i) <= s.len(),
    decreases s.len() - i,
{
    if i < s.len() && is_blank_char(s[i]) {
        lemma_scan_start_bounds(s, i + 1);
    }
}

proof fn lemma_scan_end_bounds(s: Seq<char>, i: int)
    requires
        0 <= i <= s.len(),
    ensures
        0 <= scan_end(s, i) <= i,
    decreases i,
{
    if 0 < i && is_blank_char(s[i - 1]) {
        lemma_scan_end_bounds(s, i - 1);
    }
}

/// The whole transcript with white space stripped at both ends, the
/// form in which a recognizer result is published.
pub fn trim_transcript(raw: &str) -> (r: String)
    ensures
        r@ == trim_spec(raw@),
{
    let len = raw.unicode_len();
    proof {
        lemma_scan_start_bounds(raw@, 0);
        lemma_scan_end_bounds(raw@, raw@.len() as int);
    }
    let mut a: usize = 0;
    loop
        invariant
            0 <= a <= len,
            len == raw@.len(),
            scan_start(raw@, 0) == scan_start(raw@, a as int),
        ensures
            a <= len,
            a as int == scan_start(raw@, 0),
        decreases len - a,
    {
        if a >= len {
            break;
        }
        if !blank_char(raw.get_char(a)) {
            break;
        }
        a = a + 1;
    }
    let mut b: usize = len;
    loop
        invariant
            0 <= b <= len,
            len == raw@.len(),
            scan_end(raw@, len as int) == scan_end(raw@, b as int),
        ensures
            b <= len,
            b as int == scan_end(raw@, len as int),
        decreases b,
    {
        if b == 0 {
            break;
        }
        if !blank_char(raw.get_char(b - 1)) {
            break;
        }
        b = b - 1;
    }
    if a <= b {
        raw.substring_char(a, b).to_owned()
    } else {
        String::new()
    }
}

/// The guard before a recognizer run: an empty window is never handed
/// to the model, and the published transcript is then left unchanged.
pub fn should_run_inference(buffered: usize) -> (r: bool)
    ensures
        r == (buffered > 0),
{
    buffered > 0
}

/// The decision at the end of one recognizer run: trim the raw result,
/// and publish it only when it differs from the transcript published
/// last time. `None` means the transcript is unchanged.
pub fn transcript_delta(last: &String, raw: &str) -> (r: Option<String>)
    ensures
        trim_spec(raw@) == last@ ==> r is None,
        trim_spec(raw@) != last@ ==> (r matches Some(t) && t@ == trim_spec(raw@)),
{
    let t = trim_transcript(raw);
    if t.eq(last) {
        None
    } else {
        Some(t)
    }
}

} // verus!
