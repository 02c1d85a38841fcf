//! Core logic of a streaming dictation daemon: a rolling audio window,
//! linear-interpolation resampling arithmetic, a two-tier transcript diff
//! tracker that turns whole-transcript snapshots into append/backspace
//! edits, and the line protocol spoken over the control socket.

pub mod audio;
pub mod diff;
pub mod ipc;
pub mod state;
pub mod text;
pub mod whisper;
