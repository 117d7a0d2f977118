//! The progress stream: `key=value` lines read from the transcoder's
//! standard output, the tracked elapsed-time field, and the terminal
//! failure diagnostic built from the error buffer's tail.

use vstd::prelude::*;
use crate::numbers::parse_u64_str;
use crate::numbers::spec_parse_u64;
use crate::text::find_char;
use crate::text::first_at;
use crate::text::join_seq;
use crate::text::join_with;
use crate::text::spec_lines;
use crate::text::split_lines;
use crate::text::str_eq;
use crate::text::trim_spec;
use crate::text::trim_str;

verus! {

/// One progress report republished to the caller.
pub struct ProgressEvent {
    pub export_id: String,
    pub progress: String,
    pub out_time_ms: Option<u64>,
    pub message: Option<String>,
}

/// A status boundary found in the stream: the reported token and the
/// elapsed output time current at that line.
pub struct ProgressUpdate {
    pub token: String,
    pub out_time_ms: Option<u64>,
}

/// The key and value of a progress line: the text before the first `=` and
/// the text after it; a line without `=` carries nothing.
pub open spec fn spec_split_once_eq(line: Seq<char>) -> Option<(Seq<char>, Seq<char>)> {
    if !line.contains('=') {
        None
    } else {
        let i = first_at(line, '=');
        Some((line.take(i), line.skip(i + 1)))
    }
}

/// Splits a line at its first `=`, matching `spec_split_once_eq`.
pub fn split_once_eq(line: &str) -> (r: Option<(String, String)>)
    ensures
        match r {
            Some(kv) => spec_split_once_eq(line@) == Some((kv.0@, kv.1@)),
            None => spec_split_once_eq(line@) is None,
        },
{
    let n = line.unicode_len();
    match find_char(line, '=') {
        None => None,
        Some(i) => {
            let k = line.substring_char(0, i).to_owned();
            let v = line.substring_char(i + 1, n).to_owned();
            proof {
                assert(line@.contains('='));
                assert(k@ =~= line@.take(i as int));
                assert(v@ =~= line@.skip(i + 1));
            }
            Some((k, v))
        },
    }
}

/// What a line leaves as the tracked elapsed time: an `out_time_ms` line
/// replaces it with the parsed value (or clears it when unparsable), any
/// other line leaves it unchanged.
pub open spec fn spec_next_time(state: Option<u64>, line: Seq<char>) -> Option<u64> {
    match spec_split_once_eq(line) {
        Some(kv) => if kv.0 == "out_time_ms"@ {
            spec_parse_u64(kv.1)
        } else {
            state
        },
        None => state,
    }
}

/// What a line emits: a `progress` line reports its token together with the
/// tracked time, any other line reports nothing.
pub open spec fn spec_emitted(state_after: Option<u64>, line: Seq<char>) -> Option<
    (Seq<char>, Option<u64>),
> {
    match spec_split_once_eq(line) {
        Some(kv) => if kv.0 == "progress"@ {
            Some((kv.1, state_after))
        } else {
            None
        },
        None => None,
    }
}

/// The supervisor's incremental view of one job's progress stream.
pub struct ProgressTracker {
    pub out_time_ms: Option<u64>,
}

impl ProgressTracker {
    /// A fresh tracker knows no elapsed time yet.
    pub fn new() -> (r: Self)
        ensures
            r.out_time_ms is None,
    {
        ProgressTracker { out_time_ms: None }
    }

    /// Feeds one line of the stream: updates the tracked time per
    /// `spec_next_time` and reports a status boundary per `spec_emitted`.
    pub fn feed_line(&mut self, line: &str) -> (r: Option<ProgressUpdate>)
        ensures
            final(self).out_time_ms == spec_next_time(old(self).out_time_ms, line@),
            match r {
                Some(u) => spec_emitted(final(self).out_time_ms, line@) == Some(
                    (u.token@, u.out_time_ms),
                ),
                None => spec_emitted(final(self).out_time_ms, line@) is None,
            },
    {
        match split_once_eq(line) {
            None => None,
            Some(kv) => {
                let (key, value) = kv;
                if str_eq(key.as_str(), "out_time_ms") {
                    self.out_time_ms = parse_u64_str(value.as_str());
                }
                if str_eq(key.as_str(), "progress") {
                    proof {
                        reveal_strlit("out_time_ms");
                        reveal_strlit("progress");
                        assert(("out_time_ms"@).len() == 11);
                        assert(("progress"@).len() == 8);
                    }
                    let out = self.out_time_ms;
                    Some(ProgressUpdate { token: value, out_time_ms: out })
                } else {
                    None
                }
            },
        }
    }
}

/// The diagnostic tail of the accumulated error buffer: nothing when the
/// buffer is blank, else the last eight lines (or fewer) of the trimmed
/// buffer, joined with newlines.
pub open spec fn spec_error_tail(buf: Seq<char>) -> Option<Seq<char>> {
    let t = trim_spec(buf);
    if t.len() == 0 {
        None
    } else {
        let ls = spec_lines(t);
        let start: int = if ls.len() > 8 {
            ls.len() - 8
        } else {
            0
        };
        Some(join_seq(ls.skip(start), "\n"@))
    }
}

/// Builds the diagnostic tail, matching `spec_error_tail`.
pub fn error_tail(buffer: &str) -> (r: Option<String>)
    ensures
        match r {
            Some(m) => spec_error_tail(buffer@) == Some(m@),
            None => spec_error_tail(buffer@) is None,
        },
{
    let t = trim_str(buffer);
    if t.unicode_len() == 0 {
        return None;
    }
    let ls = split_lines(t);
    let ghost lv = ls@.map_values(|p: String| p@);
    let start: usize = if ls.len() > 8 {
        ls.len() - 8
    } else {
        0
    };
    let mut tail_vec: Vec<String> = Vec::new();
    let mut i: usize = start;
    while i < ls.len()
        invariant
            start <= i <= ls.len(),
            lv == ls@.map_values(|p: String| p@),
            tail_vec@.map_values(|p: String| p@) == lv.subrange(start as int, i as int),
        decreases ls.len() - i,
    {
        let item = ls[i].clone();
        let ghost iv = item@;
        proof {
            assert(iv == lv[i as int]);
        }
        tail_vec.push(item);
        proof {
            assert(lv.subrange(start as int, i + 1) =~= lv.subrange(start as int, i as int).push(
                lv[i as int],
            ));
            assert(tail_vec@.map_values(|p: String| p@) =~= lv.subrange(start as int, i + 1));
        }
        i += 1;
    }
    proof {
        assert(lv.subrange(start as int, ls@.len() as int) =~= lv.skip(start as int));
        assert(tail_vec@.map_values(|p: String| p@) =~= Seq::<Seq<char>>::empty().add(
            lv.skip(start as int),
        ));
        assert(tail_vec@.map_values(|p: String| p@) =~= lv.skip(start as int));
    }
    Some(join_with(&tail_vec, "\n"))
}

/// The terminal decision after the process exits: a successful exit emits
/// nothing further (the transcoder's own final token already signalled
/// completion); a failure emits one `error` event carrying the diagnostic
/// tail, or no message when the buffer was blank.
pub fn completion_event(export_id: &str, exit_success: bool, stderr_buf: &str) -> (r: Option<
    ProgressEvent,
>)
    ensures
        exit_success ==> r is None,
        !exit_success ==> match r {
            Some(ev) => {
                &&& ev.export_id@ == export_id@
                &&& ev.progress@ == "error"@
                &&& ev.out_time_ms is None
                &&& (match ev.message {
                    Some(m) => spec_error_tail(stderr_buf@) == Some(m@),
                    None => spec_error_tail(stderr_buf@) is None,
                })
            },
            None => false,
        },
{
    if exit_success {
        None
    } else {
        Some(
            ProgressEvent {
                export_id: export_id.to_owned(),
                progress: ("error").to_owned(),
                out_time_ms: None,
                message: error_tail(stderr_buf),
            },
        )
    }
}

} // verus!
