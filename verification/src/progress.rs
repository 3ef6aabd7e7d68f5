//! The external tool's progress micro-protocol.
//!
//! The tool emits a stream of `key=value` lines. Pairs accumulate into a
//! working record; a line whose key is `progress` finalizes the record into
//! a snapshot and clears the accumulation. A `progress=end` line marks the
//! stream as logically complete.
//!
//! Numeric fields are parsed as decimal integers; rate-like fields (`fps`,
//! `bitrate`, `speed`, the per-stream quality) are carried as their raw
//! strings, since they are diagnostic only.

use vstd::prelude::*;
use vstd::string::*;
use crate::paths::str_eq;
use crate::text::{find_first, first_index_of, parse_i64, spec_parse_i64, spec_trim, trim_str};

verus! {

/// The abstract value of a snapshot: integers and character sequences.
pub ghost struct ProgressView {
    pub frame: Option<int>,
    pub fps: Option<Seq<char>>,
    pub stream_0_0_q: Option<Seq<char>>,
    pub bitrate: Option<Seq<char>>,
    pub total_size: Option<int>,
    pub out_time_us: Option<int>,
    pub out_time_ms: Option<int>,
    pub out_time: Option<Seq<char>>,
    pub dup_frames: Option<int>,
    pub drop_frames: Option<int>,
    pub speed: Option<Seq<char>>,
    pub progress: Option<Seq<char>>,
}

/// One finalized progress record, replaced on each `progress` line.
#[derive(Debug, Clone)]
pub struct FFmpegProgress {
    pub frame: Option<i64>,
    pub fps: Option<String>,
    pub stream_0_0_q: Option<String>,
    pub bitrate: Option<String>,
    pub total_size: Option<i64>,
    pub out_time_us: Option<i64>,
    pub out_time_ms: Option<i64>,
    pub out_time: Option<String>,
    pub dup_frames: Option<i64>,
    pub drop_frames: Option<i64>,
    pub speed: Option<String>,
    pub progress: Option<String>,
}

pub open spec fn view_i64(o: Option<i64>) -> Option<int> {
    match o {
        Some(v) => Some(v as int),
        None => None,
    }
}

pub open spec fn view_str(o: Option<String>) -> Option<Seq<char>> {
    match o {
        Some(s) => Some(s@),
        None => None,
    }
}

impl View for FFmpegProgress {
    type V = ProgressView;

    open spec fn view(&self) -> ProgressView {
        ProgressView {
            frame: view_i64(self.frame),
            fps: view_str(self.fps),
            stream_0_0_q: view_str(self.stream_0_0_q),
            bitrate: view_str(self.bitrate),
            total_size: view_i64(self.total_size),
            out_time_us: view_i64(self.out_time_us),
            out_time_ms: view_i64(self.out_time_ms),
            out_time: view_str(self.out_time),
            dup_frames: view_i64(self.dup_frames),
            drop_frames: view_i64(self.drop_frames),
            speed: view_str(self.speed),
            progress: view_str(self.progress),
        }
    }
}

/// The record with every field unset.
pub open spec fn empty_progress_view() -> ProgressView {
    ProgressView {
        frame: None,
        fps: None,
        stream_0_0_q: None,
        bitrate: None,
        total_size: None,
        out_time_us: None,
        out_time_ms: None,
        out_time: None,
        dup_frames: None,
        drop_frames: None,
        speed: None,
        progress: None,
    }
}

impl Default for FFmpegProgress {
    fn default() -> (r: Self)
        ensures
            r@ == empty_progress_view(),
    {
        FFmpegProgress {
            frame: None,
            fps: None,
            stream_0_0_q: None,
            bitrate: None,
            total_size: None,
            out_time_us: None,
            out_time_ms: None,
            out_time: None,
            dup_frames: None,
            drop_frames: None,
            speed: None,
            progress: None,
        }
    }
}

/// One `key=value` pair applied to the working record: known numeric keys
/// set their field to the parsed value, known textual keys keep the raw
/// value, unknown keys change nothing.
pub open spec fn pv_apply(p: ProgressView, k: Seq<char>, v: Seq<char>) -> ProgressView {
    if k == "frame"@ {
        ProgressView { frame: spec_parse_i64(v), ..p }
    } else if k == "fps"@ {
        ProgressView { fps: Some(v), ..p }
    } else if k == "stream_0_0_q"@ {
        ProgressView { stream_0_0_q: Some(v), ..p }
    } else if k == "bitrate"@ {
        ProgressView { bitrate: Some(v), ..p }
    } else if k == "total_size"@ {
        ProgressView { total_size: spec_parse_i64(v), ..p }
    } else if k == "out_time_us"@ {
        ProgressView { out_time_us: spec_parse_i64(v), ..p }
    } else if k == "out_time_ms"@ {
        ProgressView { out_time_ms: spec_parse_i64(v), ..p }
    } else if k == "out_time"@ {
        ProgressView { out_time: Some(v), ..p }
    } else if k == "dup_frames"@ {
        ProgressView { dup_frames: spec_parse_i64(v), ..p }
    } else if k == "drop_frames"@ {
        ProgressView { drop_frames: spec_parse_i64(v), ..p }
    } else if k == "speed"@ {
        ProgressView { speed: Some(v), ..p }
    } else if k == "progress"@ {
        ProgressView { progress: Some(v), ..p }
    } else {
        p
    }
}

/// The views of a sequence of accumulated pairs.
pub open spec fn pairs_view(ps: Seq<(String, String)>) -> Seq<(Seq<char>, Seq<char>)> {
    ps.map(|i: int, p: (String, String)| (p.0@, p.1@))
}

/// The record that a sequence of pairs builds up, first to last; a later
/// pair with the same key wins.
pub open spec fn spec_progress_view(pairs: Seq<(Seq<char>, Seq<char>)>) -> ProgressView
    decreases pairs.len(),
{
    if pairs.len() == 0 {
        empty_progress_view()
    } else {
        pv_apply(spec_progress_view(pairs.drop_last()), pairs.last().0, pairs.last().1)
    }
}

/// A record is terminal when its phase marker is exactly `end`.
pub open spec fn spec_is_complete(p: ProgressView) -> bool {
    p.progress == Some("end"@)
}

impl FFmpegProgress {
    /// Builds a snapshot from accumulated `key=value` pairs.
    pub fn from_key_values(key_values: &Vec<(String, String)>) -> (r: Self)
        ensures
            r@ == spec_progress_view(pairs_view(key_values@)),
    {
        let mut progress = FFmpegProgress::default();
        let mut i: usize = 0;
        proof {
            assert(pairs_view(key_values@.subrange(0, 0)) =~= Seq::<(Seq<char>, Seq<char>)>::empty());
        }
        while i < key_values.len()
            invariant
                i <= key_values@.len(),
                progress@ == spec_progress_view(pairs_view(key_values@.subrange(0, i as int))),
            decreases key_values@.len() - i,
        {
            let ghost before = progress@;
            let k = &key_values[i].0;
            let v = &key_values[i].1;
            if str_eq(k.as_str(), "frame") {
                progress.frame = parse_i64(v.as_str());
            } else if str_eq(k.as_str(), "fps") {
                progress.fps = Some(v.clone());
            } else if str_eq(k.as_str(), "stream_0_0_q") {
                progress.stream_0_0_q = Some(v.clone());
            } else if str_eq(k.as_str(), "bitrate") {
                progress.bitrate = Some(v.clone());
            } else if str_eq(k.as_str(), "total_size") {
                progress.total_size = parse_i64(v.as_str());
            } else if str_eq(k.as_str(), "out_time_us") {
                progress.out_time_us = parse_i64(v.as_str());
            } else if str_eq(k.as_str(), "out_time_ms") {
                progress.out_time_ms = parse_i64(v.as_str());
            } else if str_eq(k.as_str(), "out_time") {
                progress.out_time = Some(v.clone());
            } else if str_eq(k.as_str(), "dup_frames") {
                progress.dup_frames = parse_i64(v.as_str());
            } else if str_eq(k.as_str(), "drop_frames") {
                progress.drop_frames = parse_i64(v.as_str());
            } else if str_eq(k.as_str(), "speed") {
                progress.speed = Some(v.clone());
            } else if str_eq(k.as_str(), "progress") {
                progress.progress = Some(v.clone());
            }
            proof {
                let pv = pairs_view(key_values@.subrange(0, i as int));
                let pv2 = pairs_view(key_values@.subrange(0, i as int + 1));
                assert(pv2.drop_last() =~= pv);
                assert(pv2.last() == (key_values@[i as int].0@, key_values@[i as int].1@));
                assert(progress@ == pv_apply(before, k@, v@));
            }
            i = i + 1;
        }
        proof {
            assert(key_values@.subrange(0, key_values@.len() as int) =~= key_values@);
        }
        progress
    }

    /// Whether this snapshot closes the stream.
    pub fn is_complete(&self) -> (r: bool)
        ensures
            r == spec_is_complete(self@),
    {
        match &self.progress {
            Some(s) => str_eq(s.as_str(), "end"),
            None => false,
        }
    }

    /// The elapsed encode time in whole seconds: the tool reports the
    /// elapsed-time field scaled to microseconds.
    pub fn elapsed_seconds(&self) -> (r: Option<u64>)
        ensures
            match self@.out_time_ms {
                Some(us) => if us >= 0 {
                    r == Some((us / 1000000) as u64)
                } else {
                    r is None
                },
                None => r is None,
            },
    {
        match self.out_time_ms {
            Some(us) => if us >= 0 {
                Some((us / 1000000) as u64)
            } else {
                None
            },
            None => None,
        }
    }
}

/// The trimmed line split at its first `=`, if it has one.
pub open spec fn spec_split_kv(line: Seq<char>) -> Option<(Seq<char>, Seq<char>)> {
    let t = spec_trim(line);
    let e = first_index_of(t, '=');
    if t.len() == 0 || e < 0 {
        None
    } else {
        Some((t.subrange(0, e), t.subrange(e + 1, t.len() as int)))
    }
}

/// What a line does to the accumulated pairs: nothing for a blank or
/// `=`-less line; a `progress` key finalizes and clears; any other pair is
/// appended.
pub open spec fn spec_push_current(
    cur: Seq<(Seq<char>, Seq<char>)>,
    line: Seq<char>,
) -> Seq<(Seq<char>, Seq<char>)> {
    match spec_split_kv(line) {
        None => cur,
        Some(kv) => if kv.0 == "progress"@ {
            Seq::empty()
        } else {
            cur.push(kv)
        },
    }
}

/// Whether the stream is complete after this line: completion latches, and
/// a `progress` line completes the stream when the snapshot it finalizes is
/// terminal.
pub open spec fn spec_push_finished(
    fin: bool,
    cur: Seq<(Seq<char>, Seq<char>)>,
    line: Seq<char>,
) -> bool {
    match spec_split_kv(line) {
        None => fin,
        Some(kv) => if kv.0 == "progress"@ {
            fin || spec_is_complete(spec_progress_view(cur.push(kv)))
        } else {
            fin
        },
    }
}

/// The snapshot a line finalizes, if it is a `progress` line.
pub open spec fn spec_push_emits(
    cur: Seq<(Seq<char>, Seq<char>)>,
    line: Seq<char>,
) -> Option<ProgressView> {
    match spec_split_kv(line) {
        None => None,
        Some(kv) => if kv.0 == "progress"@ {
            Some(spec_progress_view(cur.push(kv)))
        } else {
            None
        },
    }
}

/// The incremental reader of the progress stream: it accumulates pairs and
/// emits a snapshot on each `progress` line.
#[derive(Debug)]
pub struct ProgressParser {
    /// Pairs of the record being accumulated.
    pub current: Vec<(String, String)>,
    /// Whether a terminal snapshot has been seen; the read loop stops here.
    pub finished: bool,
}

impl ProgressParser {
    pub fn new() -> (r: Self)
        ensures
            r.current@ == Seq::<(String, String)>::empty(),
            r.finished == false,
    {
        ProgressParser { current: Vec::new(), finished: false }
    }

    /// Feeds one line of the stream; returns the snapshot the line
    /// finalizes, if any.
    pub fn push_line(&mut self, line: &str) -> (r: Option<FFmpegProgress>)
        ensures
            pairs_view(final(self).current@) == spec_push_current(
                pairs_view(old(self).current@),
                line@,
            ),
            final(self).finished == spec_push_finished(
                old(self).finished,
                pairs_view(old(self).current@),
                line@,
            ),
            match (r, spec_push_emits(pairs_view(old(self).current@), line@)) {
                (Some(p), Some(pv)) => p@ == pv,
                (None, None) => true,
                _ => false,
            },
    {
        let t = trim_str(line);
        let tn = t.as_str().unicode_len();
        if tn == 0 {
            return None;
        }
        let e = match find_first(t.as_str(), '=') {
            Some(e) => e,
            None => {
                return None;
            },
        };
        let key = String::from_str(t.as_str().substring_char(0, e));
        let value = String::from_str(t.as_str().substring_char(e + 1, tn));
        let is_prog = str_eq(key.as_str(), "progress");
        let ghost kview = key@;
        let ghost vview = value@;
        let ghost oldpairs = pairs_view(self.current@);
        self.current.push((key, value));
        proof {
            assert(pairs_view(self.current@) =~= oldpairs.push((kview, vview)));
        }
        if is_prog {
            let snap = FFmpegProgress::from_key_values(&self.current);
            if snap.is_complete() {
                self.finished = true;
            }
            self.current.clear();
            proof {
                assert(pairs_view(self.current@) =~= Seq::<(Seq<char>, Seq<char>)>::empty());
            }
            return Some(snap);
        }
        None
    }
}

} // verus!
