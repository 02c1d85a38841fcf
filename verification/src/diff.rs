//! Two-tier transcript tracking for streaming dictation.
//!
//! A recognizer re-run over a rolling audio window changes its transcript
//! in two distinct ways between polls:
//!
//! 1. **Revision**: with a little more audio it changes its mind about
//!    recent words, so the tail of the transcript is rewritten.
//! 2. **Aging**: audio older than the window falls off, so the *front*
//!    of the transcript vanishes.
//!
//! Treating aging as a revision would backspace text the user has already
//! seen and accepted, so the tracker keeps two tiers:
//! - `committed`: text whose audio has aged out; append-only, never
//!   retracted by backspaces;
//! - `provisional`: text still backed by buffered audio; freely rewritten.
//!
//! All offsets and lengths are counted in Unicode scalars, never bytes,
//! so a multi-byte character can never be split by an edit.

use vstd::prelude::*;
use vstd::string::StrSliceExecFns;

use crate::text::{
    check_prefix, common_prefix, common_prefix_len, find_key, first_match, lemma_divergence_from,
    lemma_first_match_from,
};

verus! {

/// Shortest key prefix of a new transcript that is trusted to identify
/// an aging point when found inside the provisional text.
pub const MIN_MATCH_LEN: usize = 15;

/// Longest key prefix tried; longer keys rarely survive a revision.
pub const MAX_KEY_LEN: usize = 40;

/// One edit to apply to the client's display: erase `backspaces`
/// trailing scalars, then append `new_text`.
#[derive(Debug, Clone, PartialEq, Eq)]
pub struct DiffResult {
    /// Number of trailing Unicode scalars to erase.
    pub backspaces: usize,
    /// Text to append after erasing.
    pub new_text: String,
}

/// Tracks the transcript text already delivered to the client, split
/// into the committed (aged-out) and provisional (revisable) tiers.
#[derive(Debug)]
pub struct TextTracker {
    committed: String,
    provisional: String,
}

/// Scan of candidate key lengths, from `k` down to `MIN_MATCH_LEN`: the
/// first key length whose leftmost occurrence in `prov` is after the
/// start gives the aging point.
pub open spec fn aging_scan(prov: Seq<char>, new: Seq<char>, k: int) -> int
    decreases k,
{
    if k < MIN_MATCH_LEN as int {
        0
    } else {
        let p = first_match(prov, new.subrange(0, k));
        if p > 0 {
            p
        } else {
            aging_scan(prov, new, k - 1)
        }
    }
}

/// How many scalars at the front of `prov` have aged out, judging by
/// where the start of `new` reappears inside it. Conservative: a prefix
/// relation either way, or a short `new`, is read as a revision.
pub open spec fn aging_point_spec(prov: Seq<char>, new: Seq<char>) -> int {
    if prov.len() == 0 || new.len() == 0 {
        0
    } else if new.is_prefix_of(prov) || prov.is_prefix_of(new) {
        0
    } else if new.len() < MIN_MATCH_LEN as int {
        0
    } else if new.len() < MAX_KEY_LEN as int {
        aging_scan(prov, new, new.len() as int)
    } else {
        aging_scan(prov, new, MAX_KEY_LEN as int)
    }
}

proof fn lemma_aging_scan_bounds(prov: Seq<char>, new: Seq<char>, k: int)
    requires
        k <= new.len(),
    ensures
        0 <= aging_scan(prov, new, k),
        aging_scan(prov, new, k) == 0 || aging_scan(prov, new, k) + MIN_MATCH_LEN as int
            <= prov.len(),
    decreases k,
{
    if k >= MIN_MATCH_LEN as int {
        let p = first_match(prov, new.subrange(0, k));
        if p > 0 {
            lemma_first_match_from(prov, new.subrange(0, k), 0);
        } else {
            lemma_aging_scan_bounds(prov, new, k - 1);
        }
    }
}

/// The aging point always lies strictly inside the provisional text.
pub proof fn lemma_aging_point_bounds(prov: Seq<char>, new: Seq<char>)
    ensures
        0 <= aging_point_spec(prov, new),
        aging_point_spec(prov, new) == 0 || aging_point_spec(prov, new) + MIN_MATCH_LEN as int
            <= prov.len(),
        aging_point_spec(prov, new) <= prov.len(),
{
    if prov.len() != 0 && new.len() != 0 && !new.is_prefix_of(prov) && !prov.is_prefix_of(new)
        && new.len() >= MIN_MATCH_LEN as int {
        if new.len() < MAX_KEY_LEN as int {
            lemma_aging_scan_bounds(prov, new, new.len() as int);
        } else {
            lemma_aging_scan_bounds(prov, new, MAX_KEY_LEN as int);
        }
    }
}

/// Backspace count of one update: what is left of the provisional text
/// after aging, minus the part it shares with the new transcript.
pub open spec fn update_backspaces(prov: Seq<char>, new: Seq<char>) -> int {
    let rest = prov.skip(aging_point_spec(prov, new));
    rest.len() - common_prefix_len(rest, new)
}

/// Appended text of one update: the new transcript past the shared part.
pub open spec fn update_appended(prov: Seq<char>, new: Seq<char>) -> Seq<char> {
    let rest = prov.skip(aging_point_spec(prov, new));
    new.skip(common_prefix_len(rest, new))
}

/// Whether one update emits an edit at all.
pub open spec fn update_emits(prov: Seq<char>, new: Seq<char>) -> bool {
    &&& !(new.len() == 0 && prov.len() == 0)
    &&& (update_backspaces(prov, new) != 0 || update_appended(prov, new).len() != 0)
}

/// Committed text after one update: the aged-out front of the
/// provisional text moves over, and is never removed again.
pub open spec fn update_committed(
    committed: Seq<char>,
    prov: Seq<char>,
    new: Seq<char>,
) -> Seq<char> {
    if new.len() == 0 && prov.len() == 0 {
        committed
    } else {
        committed + prov.take(aging_point_spec(prov, new))
    }
}

/// Provisional text after one update: the new transcript.
pub open spec fn update_provisional(prov: Seq<char>, new: Seq<char>) -> Seq<char> {
    if new.len() == 0 && prov.len() == 0 {
        prov
    } else {
        new
    }
}

impl TextTracker {
    /// Everything delivered to the client so far: the committed tier
    /// followed by the provisional tier. This is the data-model
    /// invariant: the client's visible text is exactly this.
    pub open spec fn full_spec(&self) -> Seq<char> {
        self.committed_spec() + self.provisional_spec()
    }

    pub closed spec fn committed_spec(&self) -> Seq<char> {
        self.committed@
    }

    pub closed spec fn provisional_spec(&self) -> Seq<char> {
        self.provisional@
    }

    pub fn new() -> (r: Self)
        ensures
            r.committed_spec() == Seq::<char>::empty(),
            r.provisional_spec() == Seq::<char>::empty(),
    {
        TextTracker { committed: String::new(), provisional: String::new() }
    }

    /// Drop all state; used when a new recording starts.
    pub fn reset(&mut self)
        ensures
            final(self).committed_spec() == Seq::<char>::empty(),
            final(self).provisional_spec() == Seq::<char>::empty(),
    {
        self.committed = String::new();
        self.provisional = String::new();
    }

    /// The committed and provisional tiers, concatenated: exactly the
    /// text a client that applied every edit is displaying.
    pub fn full_text(&self) -> (r: String)
        ensures
            r@ == self.full_spec(),
    {
        let mut r = self.committed.clone();
        r.append(self.provisional.as_str());
        r
    }

    /// The aged-out, never-retracted text.
    pub fn committed(&self) -> (r: &str)
        ensures
            r@ == self.committed_spec(),
    {
        self.committed.as_str()
    }

    /// The still-revisable text.
    pub fn provisional(&self) -> (r: &str)
        ensures
            r@ == self.provisional_spec(),
    {
        self.provisional.as_str()
    }

    /// How many scalars at the front of the provisional text have aged
    /// out of the audio window, judging by where the start of
    /// `new_transcript` reappears inside it.
    ///
    /// Aging is only ever declared on strong evidence - a key of at
    /// least `MIN_MATCH_LEN` scalars found after the start - because a
    /// false positive duplicates text on the client, while a false
    /// negative merely causes some redundant backspaces.
    pub fn find_aging_point(&self, new_transcript: &str) -> (r: usize)
        ensures
            r as int == aging_point_spec(self.provisional_spec(), new_transcript@),
            r as int <= self.provisional_spec().len(),
    {
        proof {
            lemma_aging_point_bounds(self.provisional@, new_transcript@);
        }
        let prov: &str = self.provisional.as_str();
        if prov.is_empty() || new_transcript.is_empty() {
            return 0;
        }
        if check_prefix(new_transcript, prov) || check_prefix(prov, new_transcript) {
            return 0;
        }
        let new_len = new_transcript.unicode_len();
        if new_len < MIN_MATCH_LEN {
            return 0;
        }
        let max_k = if new_len < MAX_KEY_LEN {
            new_len
        } else {
            MAX_KEY_LEN
        };
        let mut k = max_k;
        let mut aging: usize = 0;
        loop
            invariant_except_break
                aging == 0,
            invariant
                MIN_MATCH_LEN <= k <= max_k,
                max_k <= new_transcript@.len(),
                new_len == new_transcript@.len(),
                prov@ == self.provisional@,
                aging_point_spec(self.provisional@, new_transcript@) == aging_scan(
                    self.provisional@,
                    new_transcript@,
                    k as int,
                ),
            ensures
                aging as int == aging_point_spec(self.provisional@, new_transcript@),
            decreases k,
        {
            // the leftmost occurrence of the key of length k, if it is
            // after the start, is the aging point
            match find_key(prov, new_transcript, k) {
                Some(p) => {
                    if p > 0 {
                        aging = p;
                        break;
                    }
                },
                None => {},
            }
            if k == MIN_MATCH_LEN {
                proof {
                    reveal_with_fuel(aging_scan, 2);
                }
                break;
            }
            k = k - 1;
        }
        aging
    }

    /// Take one transcript snapshot and produce the edit that carries the
    /// client display from the previous snapshot to this one.
    ///
    /// Scalars that have aged out of the window move to the committed
    /// tier first; the remainder of the provisional text is then diffed
    /// against the snapshot by longest common prefix. `None` means no
    /// edit is needed.
    pub fn update(&mut self, new_transcript: &str) -> (r: Option<DiffResult>)
        ensures
            final(self).committed_spec() == update_committed(
                old(self).committed_spec(),
                old(self).provisional_spec(),
                new_transcript@,
            ),
            final(self).provisional_spec() == update_provisional(
                old(self).provisional_spec(),
                new_transcript@,
            ),
            update_emits(old(self).provisional_spec(), new_transcript@) ==> (r matches Some(d)
                && d.backspaces as int == update_backspaces(
                old(self).provisional_spec(),
                new_transcript@,
            ) && d.new_text@ == update_appended(old(self).provisional_spec(), new_transcript@)),
            !update_emits(old(self).provisional_spec(), new_transcript@) ==> r is None,
            // the committed tier is never shortened or rewritten
            old(self).committed_spec().is_prefix_of(final(self).committed_spec()),
            // applying the edit to the old full text yields the new full text
            0 <= update_backspaces(old(self).provisional_spec(), new_transcript@) <= old(
                self,
            ).full_spec().len(),
            final(self).full_spec() == old(self).full_spec().take(
                old(self).full_spec().len() - update_backspaces(
                    old(self).provisional_spec(),
                    new_transcript@,
                ),
            ) + update_appended(old(self).provisional_spec(), new_transcript@),
    {
        let ghost c0 = self.committed@;
        let ghost p0 = self.provisional@;
        let ghost n = new_transcript@;
        if new_transcript.is_empty() && self.provisional.as_str().is_empty() {
            proof {
                assert(p0.skip(0) =~= p0);
                assert(update_appended(p0, n) =~= Seq::<char>::empty());
                lemma_apply_edit(c0, p0, n);
                assert(c0.subrange(0, c0.len() as int) =~= c0);
            }
            return None;
        }
        let aging_point = self.find_aging_point(new_transcript);
        let ghost a = aging_point_spec(p0, n);
        if aging_point > 0 {
            let prov_len = self.provisional.as_str().unicode_len();
            let to_commit = self.provisional.as_str().substring_char(0, aging_point).to_owned();
            self.committed.append(to_commit.as_str());
            let rest_str = self.provisional.as_str().substring_char(aging_point, prov_len)
                .to_owned();
            self.provisional = rest_str;
            proof {
                assert(p0.subrange(0, a) =~= p0.take(a));
                assert(self.provisional@ =~= p0.skip(a));
            }
        } else {
            proof {
                assert(p0.skip(0) =~= p0);
                assert(c0 + p0.take(0) =~= c0);
            }
        }
        let common = common_prefix(self.provisional.as_str(), new_transcript);
        proof {
            lemma_divergence_from(p0.skip(a), n, 0);
        }
        let prov_rest_len = self.provisional.as_str().unicode_len();
        let backspaces = prov_rest_len - common;
        let new_len = new_transcript.unicode_len();
        let new_text = new_transcript.substring_char(common, new_len).to_owned();
        self.provisional = new_transcript.to_owned();
        proof {
            assert(new_text@ =~= update_appended(p0, n));
            lemma_apply_edit(c0, p0, n);
            assert((c0 + p0.take(a)).subrange(0, c0.len() as int) =~= c0);
        }
        if backspaces > 0 || !new_text.as_str().is_empty() {
            Some(DiffResult { backspaces, new_text })
        } else {
            None
        }
    }
}

/// The edit of an update, applied to the previous full text, yields the
/// new full text; and the backspace count never exceeds it.
proof fn lemma_apply_edit(c0: Seq<char>, p0: Seq<char>, n: Seq<char>)
    ensures
        0 <= update_backspaces(p0, n) <= (c0 + p0).len(),
        update_committed(c0, p0, n) + update_provisional(p0, n) == (c0 + p0).take(
            (c0 + p0).len() - update_backspaces(p0, n),
        ) + update_appended(p0, n),
{
    lemma_aging_point_bounds(p0, n);
    let a = aging_point_spec(p0, n);
    let rest = p0.skip(a);
    lemma_divergence_from(rest, n, 0);
    let common = common_prefix_len(rest, n);
    let bs = update_backspaces(p0, n);
    assert(bs == rest.len() - common);
    let keep = (c0 + p0).len() - bs;
    assert((c0 + p0).take(keep) =~= c0 + p0.take(a + common));
    assert(p0.take(a + common) =~= p0.take(a) + rest.take(common));
    assert(rest.take(common) =~= n.take(common));
    assert((c0 + p0).take(keep) + update_appended(p0, n) =~= c0 + p0.take(a) + n);
    if n.len() == 0 && p0.len() == 0 {
        assert(update_committed(c0, p0, n) + update_provisional(p0, n) =~= c0 + p0.take(a) + n);
    } else {
        assert(update_committed(c0, p0, n) + update_provisional(p0, n) =~= c0 + p0.take(a) + n);
    }
}

/// Feeding the tracker the transcript it already holds produces no
/// edit: the update after an identical update returns `None`.
pub proof fn lemma_same_transcript_no_edit(s: Seq<char>)
    ensures
        !update_emits(s, s),
{
    if s.len() > 0 {
        assert(s.subrange(0, s.len() as int) =~= s);
        assert(s.is_prefix_of(s));
        assert(aging_point_spec(s, s) == 0);
        assert(s.skip(0) =~= s);
        crate::text::lemma_common_prefix_unique(s, s, s.len() as int);
        assert(update_backspaces(s, s) == 0);
        assert(update_appended(s, s) =~= Seq::<char>::empty());
    } else {
        assert(s.skip(0) =~= s);
        assert(update_appended(s, s) =~= Seq::<char>::empty());
    }
}

/// Committed text is monotone: growth over two successive updates
/// composes, so over any sequence of updates the earlier committed text
/// stays a prefix of the later one.
pub proof fn lemma_committed_monotone(c0: Seq<char>, c1: Seq<char>, c2: Seq<char>)
    requires
        c0.is_prefix_of(c1),
        c1.is_prefix_of(c2),
    ensures
        c0.is_prefix_of(c2),
{
    assert(c2.subrange(0, c0.len() as int) =~= c1.subrange(0, c0.len() as int));
}

} // verus!

