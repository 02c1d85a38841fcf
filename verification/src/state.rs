//! The controller's decisions, as pure functions from state and event
//! to response: session transitions answer `START` and `STOP`, and a
//! poll feeds the latest transcript snapshot to the diff tracker and
//! formats the resulting edit for the wire.
//!
//! The surrounding daemon owns the threads, sockets and clocks; it
//! calls these functions with plain values and writes the returned
//! line back to the client.

use vstd::prelude::*;
use vstd::string::StrSliceExecFns;

use crate::diff::{
    update_appended, update_backspaces, update_committed, update_emits, update_provisional,
    TextTracker,
};
use crate::text::{dec_str, format_usize};

verus! {

/// `s` with every newline replaced by a space: appended text travels
/// on a single protocol line, so it must not contain `\n`.
pub open spec fn escaped(s: Seq<char>) -> Seq<char> {
    s.map_values(|c: char| if c == '\n' { ' ' } else { c })
}

/// Replace every newline in `s` by a space.
pub fn escape_text(s: &str) -> (r: String)
    ensures
        r@ == escaped(s@),
{
    let len = s.unicode_len();
    let mut r = String::new();
    let mut i: usize = 0;
    while i < len
        invariant
            0 <= i <= len,
            len == s@.len(),
            r@ == escaped(s@.take(i as int)),
        decreases len - i,
    {
        let c = s.get_char(i);
        if c == '\n' {
            r.push(' ');
        } else {
            r.push(c);
        }
        proof {
            assert(escaped(s@.take(i + 1)) =~= escaped(s@.take(i as int)).push(
                if s@[i as int] == '\n' {
                    ' '
                } else {
                    s@[i as int]
                },
            ));
        }
        i = i + 1;
    }
    proof {
        assert(s@.take(len as int) =~= s@);
    }
    r
}

/// The poll line while a session is recording: the backspace count and
/// the escaped appended text.
pub open spec fn recording_response_spec(bs: int, appended: Seq<char>) -> Seq<char> {
    "RECORDING:"@ + dec_str(bs) + ":"@ + escaped(appended)
}

/// Format one edit for the wire.
fn recording_response(bs: usize, appended: &str) -> (r: String)
    ensures
        r@ == recording_response_spec(bs as int, appended@),
{
    let mut r = String::from_str("RECORDING:");
    let digits = format_usize(bs);
    r.append(digits.as_str());
    r.push(':');
    let esc = escape_text(appended);
    r.append(esc.as_str());
    proof {
        reveal_strlit(":");
        assert(r@ =~= recording_response_spec(bs as int, appended@));
    }
    r
}

/// What `START` answers: a session can only begin while idle.
pub open spec fn start_response_spec(already_recording: bool) -> Seq<char> {
    if already_recording {
        "ERROR already recording"@
    } else {
        "OK"@
    }
}

/// Answer `START`, given whether a session is already recording.
pub fn start_response(already_recording: bool) -> (r: String)
    ensures
        r@ == start_response_spec(already_recording),
{
    if already_recording {
        String::from_str("ERROR already recording")
    } else {
        String::from_str("OK")
    }
}

/// What `STOP` answers: a session can only end while recording.
pub open spec fn stop_response_spec(was_recording: bool) -> Seq<char> {
    if was_recording {
        "OK"@
    } else {
        "ERROR not recording"@
    }
}

/// Answer `STOP`, given whether a session was recording.
pub fn stop_response(was_recording: bool) -> (r: String)
    ensures
        r@ == stop_response_spec(was_recording),
{
    if was_recording {
        String::from_str("OK")
    } else {
        String::from_str("ERROR not recording")
    }
}

/// What `POLL` answers: `IDLE:` outside a session; while recording,
/// the edit that carries the client from the previous snapshot to
/// `transcript`, computed against the provisional text `prov` the
/// tracker held. An empty snapshot is reported as a no-op edit and
/// leaves the tracker alone.
pub open spec fn poll_response_spec(
    recording: bool,
    prov: Seq<char>,
    transcript: Seq<char>,
) -> Seq<char> {
    if !recording {
        "IDLE:"@
    } else if transcript.len() == 0 {
        recording_response_spec(0, Seq::<char>::empty())
    } else {
        recording_response_spec(
            update_backspaces(prov, transcript),
            update_appended(prov, transcript),
        )
    }
}

/// Answer `POLL`: feed the latest transcript snapshot to the diff
/// tracker and format the edit. The tracker is touched only while
/// recording with a non-empty snapshot, and then evolves exactly as
/// one `update` call.
pub fn poll_response(recording: bool, transcript: &str, tracker: &mut TextTracker) -> (r: String)
    ensures
        r@ == poll_response_spec(recording, old(tracker).provisional_spec(), transcript@),
        !(recording && transcript@.len() > 0) ==> *final(tracker) == *old(tracker),
        recording && transcript@.len() > 0 ==> {
            &&& final(tracker).committed_spec() == update_committed(
                old(tracker).committed_spec(),
                old(tracker).provisional_spec(),
                transcript@,
            )
            &&& final(tracker).provisional_spec() == update_provisional(
                old(tracker).provisional_spec(),
                transcript@,
            )
        },
{
    if !recording {
        return String::from_str("IDLE:");
    }
    if transcript.is_empty() {
        proof {
            reveal_strlit("");
            assert(""@ =~= Seq::<char>::empty());
        }
        return recording_response(0, "");
    }
    let ghost p0 = tracker.provisional_spec();
    let edit = tracker.update(transcript);
    match edit {
        Some(d) => recording_response(d.backspaces, d.new_text.as_str()),
        None => {
            proof {
                reveal_strlit("");
                assert(""@ =~= Seq::<char>::empty());
                assert(!update_emits(p0, transcript@));
                assert(update_appended(p0, transcript@) =~= Seq::<char>::empty());
            }
            recording_response(0, "")
        },
    }
}

} // verus!

