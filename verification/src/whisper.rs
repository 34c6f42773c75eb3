//! Push-to-talk speech recognition: the decisions around the recognizer.
//!
//! Capturing audio, resampling it and running the model happen elsewhere;
//! this module decides when a partial decode is worth it, what a finished
//! recording reports, how transcripts are cleaned up, and how the
//! push-to-talk session moves between its states.
use vstd::prelude::*;
use vstd::string::*;
use crate::text::{chars_of, push_char, is_ws, is_whitespace};
use crate::wvr::InputFocus;

verus! {

broadcast use vstd::string::group_string_axioms;

/// Sample rate that the recognizer consumes.
pub const WHISPER_SAMPLE_RATE: usize = 16000;

/// Longest recording, in milliseconds; a longer one is stopped.
pub const MAX_DURATION_MS: u64 = 30000;

/// Idle time, in milliseconds, after which the model may be unloaded.
pub const UNLOAD_AFTER_MS: u64 = 300000;

/// Number of samples in `ms` milliseconds, truncated.
pub fn ms_to_samples(ms: u64) -> (n: usize)
    requires
        ms * 16000 <= usize::MAX,
    ensures
        n == (ms * 16000) / 1000,
{
    ((ms as usize) * WHISPER_SAMPLE_RATE) / 1000
}

/// The maximal runs of non-whitespace characters of `s`, in order.
pub open spec fn words(s: Seq<char>) -> Seq<Seq<char>>
    decreases s.len(),
{
    if s.len() == 0 {
        seq![]
    } else {
        let w = words(s.drop_last());
        if is_ws(s.last()) {
            w
        } else if s.len() >= 2 && !is_ws(s[s.len() - 2]) {
            w.update(w.len() - 1, w.last().push(s.last()))
        } else {
            w.push(seq![s.last()])
        }
    }
}

/// The words joined by single spaces.
pub open spec fn join_words(w: Seq<Seq<char>>) -> Seq<char>
    decreases w.len(),
{
    if w.len() == 0 {
        seq![]
    } else if w.len() == 1 {
        w[0]
    } else {
        join_words(w.drop_last()) + seq![' '] + w.last()
    }
}

proof fn lemma_words_nonempty(s: Seq<char>)
    requires
        s.len() > 0,
        !is_ws(s.last()),
    ensures
        words(s).len() > 0,
    decreases s.len(),
{
    let w = words(s.drop_last());
    if s.len() >= 2 && !is_ws(s[s.len() - 2]) {
        assert(s.drop_last().last() == s[s.len() - 2]);
        lemma_words_nonempty(s.drop_last());
    }
}

proof fn lemma_join_extend(w: Seq<Seq<char>>, c: char)
    requires
        w.len() > 0,
    ensures
        join_words(w.update(w.len() - 1, w.last().push(c))) == join_words(w).push(c),
{
    let u = w.update(w.len() - 1, w.last().push(c));
    if w.len() == 1 {
    } else {
        assert(u.drop_last() =~= w.drop_last());
        assert(join_words(u) == join_words(u.drop_last()) + seq![' '] + u.last());
        assert(join_words(u) =~= join_words(w).push(c));
    }
}

proof fn lemma_join_push(w: Seq<Seq<char>>, c: char)
    ensures
        w.len() == 0 ==> join_words(w.push(seq![c])) == seq![c],
        w.len() > 0 ==> join_words(w.push(seq![c])) == join_words(w).push(' ').push(c),
{
    let u = w.push(seq![c]);
    assert(u.drop_last() =~= w);
    if w.len() > 0 {
        assert(join_words(u) =~= join_words(w).push(' ').push(c));
    }
}

/// The words of `text`, separated by single spaces: whitespace at either
/// end is dropped and every run of whitespace inside becomes one space.
pub fn normalize_transcript(text: String) -> (r: String)
    ensures
        r@ == join_words(words(text@)),
{
    let chars = chars_of(text.as_str());
    let ghost s = chars@;
    let mut out = String::new();
    let mut any = false;
    let mut i: usize = 0;
    while i < chars.len()
        invariant
            s == chars@,
            i <= chars.len(),
            out@ == join_words(words(s.take(i as int))),
            any == (words(s.take(i as int)).len() > 0),
        decreases chars.len() - i,
    {
        let c = chars[i];
        proof {
            let t = s.take(i + 1);
            assert(t.drop_last() =~= s.take(i as int));
            assert(t.last() == c);
            if i > 0 {
                assert(t[t.len() - 2] == s[i - 1]);
            }
        }
        if !is_whitespace(c) {
            if i > 0 && !is_whitespace(chars[i - 1]) {
                proof {
                    let t = s.take(i as int);
                    assert(t.last() == s[i - 1]);
                    lemma_words_nonempty(t);
                    lemma_join_extend(words(t), c);
                }
                push_char(&mut out, c);
            } else {
                proof {
                    lemma_join_push(words(s.take(i as int)), c);
                }
                if any {
                    push_char(&mut out, ' ');
                }
                push_char(&mut out, c);
                any = true;
            }
        }
        i += 1;
    }
    proof {
        assert(s.take(s.len() as int) =~= s);
    }
    out
}

/// Settings of the recognizer.
#[derive(Clone, Debug)]
pub struct WhisperSttConfig {
    pub model_path: String,
    pub language: Option<String>,
    pub initial_prompt: Option<String>,
    pub n_threads: i32,
    /// Lower values reduce release-time lag but cost more CPU/GPU.
    pub partial_decode_interval_ms: u64,
    /// Recordings shorter than this are ignored (accidental taps).
    pub min_audio_ms: u64,
    /// Forces a specific recording device.
    pub rodio_input_device_name: Option<String>,
    pub use_gpu: bool,
    pub gpu_device: i32,
    pub flash_attn: bool,
}

impl WhisperSttConfig {
    /// The default settings for the model at `model_path`; `parallelism` is
    /// the number of threads the machine can run at once, if known. At most
    /// four threads are used, four when it is not known.
    pub fn new(model_path: String, parallelism: Option<usize>) -> (c: Self)
        ensures
            c.model_path@ == model_path@,
            c.language is None,
            c.initial_prompt is None,
            c.n_threads == match parallelism {
                Some(n) => if n < 4 { n as i32 } else { 4i32 },
                None => 4i32,
            },
            c.partial_decode_interval_ms == 700,
            c.min_audio_ms == 250,
            c.rodio_input_device_name is None,
            c.use_gpu,
            c.gpu_device == 0,
            !c.flash_attn,
    {
        let n_threads: i32 = match parallelism {
            Some(n) => if n < 4 { n as i32 } else { 4 },
            None => 4,
        };
        WhisperSttConfig {
            model_path,
            language: None,
            initial_prompt: None,
            n_threads,
            partial_decode_interval_ms: 700,
            min_audio_ms: 250,
            rodio_input_device_name: None,
            use_gpu: true,
            gpu_device: 0,
            flash_attn: false,
        }
    }
}

/// What can go wrong with push-to-talk recognition.
#[derive(Debug)]
pub enum WhisperSttError {
    ModelLoad(String),
    Whisper(String),
    Rodio(String),
    CaptureInit(String),
    ThreadSpawn(String),
    CaptureThreadPanicked,
    AlreadyRecording,
    NotRecording,
}

/// The text that describes an error.
pub open spec fn error_message(e: WhisperSttError) -> Seq<char> {
    match e {
        WhisperSttError::ModelLoad(m) => "failed to load whisper model: "@ + m@,
        WhisperSttError::Whisper(m) => "whisper error: "@ + m@,
        WhisperSttError::Rodio(m) => "rodio error: "@ + m@,
        WhisperSttError::CaptureInit(m) => "failed to initialize capture: "@ + m@,
        WhisperSttError::ThreadSpawn(m) => "failed to spawn thread: "@ + m@,
        WhisperSttError::CaptureThreadPanicked => "capture thread panicked"@,
        WhisperSttError::AlreadyRecording => "PTT is already active"@,
        WhisperSttError::NotRecording => "PTT is not active"@,
    }
}

impl WhisperSttError {
    /// The text that describes the error.
    pub fn message(&self) -> (m: String)
        ensures
            m@ == error_message(*self),
    {
        match self {
            WhisperSttError::ModelLoad(e) => String::from_str("failed to load whisper model: ").concat(e.as_str()),
            WhisperSttError::Whisper(e) => String::from_str("whisper error: ").concat(e.as_str()),
            WhisperSttError::Rodio(e) => String::from_str("rodio error: ").concat(e.as_str()),
            WhisperSttError::CaptureInit(e) => String::from_str("failed to initialize capture: ").concat(e.as_str()),
            WhisperSttError::ThreadSpawn(e) => String::from_str("failed to spawn thread: ").concat(e.as_str()),
            WhisperSttError::CaptureThreadPanicked => String::from_str("capture thread panicked"),
            WhisperSttError::AlreadyRecording => String::from_str("PTT is already active"),
            WhisperSttError::NotRecording => String::from_str("PTT is not active"),
        }
    }
}

/// `s` holds a character that is not whitespace (it is not blank once trimmed).
pub open spec fn has_text(s: Seq<char>) -> bool {
    exists|i: int| 0 <= i < s.len() && !is_ws(#[trigger] s[i])
}

/// Whether `s` holds a character that is not whitespace.
pub fn is_blank(s: &str) -> (r: bool)
    ensures
        r == !has_text(s@),
{
    let chars = chars_of(s);
    let mut i: usize = 0;
    while i < chars.len()
        invariant
            chars@ == s@,
            i <= chars.len(),
            forall|j: int| 0 <= j < i ==> is_ws(#[trigger] s@[j]),
        decreases chars.len() - i,
    {
        if !is_whitespace(chars[i]) {
            return false;
        }
        i += 1;
    }
    true
}

/// The number of samples that ends a recording's worth decoding, and the
/// shortest step between partial decodes (at least a quarter of a second).
pub open spec fn partial_stride(partial_decode_interval_ms: u64) -> int {
    let n = (partial_decode_interval_ms * 16000) / 1000;
    if n < 4000 { 4000 } else { n }
}

/// The recognizer's bookkeeping of one recording.
pub struct Recognizer {
    /// Samples received so far.
    pub audio_len: usize,
    /// Samples covered by the last partial decode.
    pub last_decoded_len: usize,
    /// Text of the last partial decode.
    pub latest_partial: String,
    /// Samples between partial decodes.
    pub stride: usize,
    /// Fewest samples worth decoding.
    pub min_samples: usize,
}

/// What the recognizer reports once the recording ended.
pub open spec fn final_report(partial: Seq<char>, decoded: Result<String, String>) -> Seq<Result<Seq<char>, Seq<char>>> {
    match decoded {
        Ok(t) => seq![Ok(t@)],
        Err(e) => if has_text(partial) { seq![Ok(partial), Err(e@)] } else { seq![Err(e@)] },
    }
}

/// The views of reported results.
pub open spec fn report_view(r: Seq<Result<String, String>>) -> Seq<Result<Seq<char>, Seq<char>>> {
    r.map_values(|x: Result<String, String>| match x {
        Ok(t) => Ok(t@),
        Err(e) => Err(e@),
    })
}

impl Recognizer {
    /// The bookkeeping of a recording that has not started.
    pub fn new(config: &WhisperSttConfig) -> (r: Self)
        requires
            config.partial_decode_interval_ms * 16000 <= usize::MAX,
            config.min_audio_ms * 16000 <= usize::MAX,
        ensures
            r.audio_len == 0,
            r.last_decoded_len == 0,
            r.latest_partial@.len() == 0,
            r.stride == partial_stride(config.partial_decode_interval_ms),
            r.min_samples == (config.min_audio_ms * 16000) / 1000,
    {
        let n = ms_to_samples(config.partial_decode_interval_ms);
        let stride = if n < WHISPER_SAMPLE_RATE / 4 { WHISPER_SAMPLE_RATE / 4 } else { n };
        Recognizer {
            audio_len: 0,
            last_decoded_len: 0,
            latest_partial: String::new(),
            stride,
            min_samples: ms_to_samples(config.min_audio_ms),
        }
    }

    /// Takes a chunk of `chunk_len` samples. Returns whether to decode what
    /// was received so far: enough audio, and enough new audio since the
    /// last partial decode.
    pub fn on_chunk(&mut self, chunk_len: usize) -> (decode: bool)
        requires
            old(self).audio_len + chunk_len <= usize::MAX,
        ensures
            final(self).audio_len == old(self).audio_len + chunk_len,
            final(self).last_decoded_len == old(self).last_decoded_len,
            final(self).latest_partial == old(self).latest_partial,
            final(self).stride == old(self).stride,
            final(self).min_samples == old(self).min_samples,
            decode == (chunk_len > 0 && final(self).audio_len >= old(self).min_samples
                && (if final(self).audio_len >= old(self).last_decoded_len { final(self).audio_len - old(self).last_decoded_len } else { 0 }) >= old(self).stride),
    {
        if chunk_len == 0 {
            return false;
        }
        self.audio_len = self.audio_len + chunk_len;
        let new_audio = self.audio_len.saturating_sub(self.last_decoded_len);
        self.audio_len >= self.min_samples && new_audio >= self.stride
    }

    /// Records a successful partial decode of everything received so far.
    pub fn partial_decoded(&mut self, text: String)
        ensures
            final(self).latest_partial == text,
            final(self).last_decoded_len == old(self).audio_len,
            final(self).audio_len == old(self).audio_len,
            final(self).stride == old(self).stride,
            final(self).min_samples == old(self).min_samples,
    {
        self.latest_partial = text;
        self.last_decoded_len = self.audio_len;
    }

    /// Whether the ended recording is long enough to be decoded; a shorter
    /// one reports an empty text.
    pub fn worth_decoding(&self) -> (r: bool)
        ensures
            r == (self.audio_len >= self.min_samples),
    {
        self.audio_len >= self.min_samples
    }

    /// What to report after the final decode: its text; or, when it
    /// failed, the last partial text (if it is not blank) followed by the
    /// error.
    pub fn finish(self, decoded: Result<String, String>) -> (r: Vec<Result<String, String>>)
        ensures
            report_view(r@) == final_report(self.latest_partial@, decoded),
    {
        let ghost d = decoded;
        let ghost partial = self.latest_partial@;
        let mut out: Vec<Result<String, String>> = Vec::new();
        match decoded {
            Ok(t) => {
                out.push(Ok(t));
            },
            Err(e) => {
                if !is_blank(self.latest_partial.as_str()) {
                    out.push(Ok(self.latest_partial));
                }
                out.push(Err(e));
            },
        }
        proof {
            assert(report_view(out@) =~= final_report(partial, d));
        }
        out
    }
}

/// The text a batch of finished recognitions yields: the last one that is
/// not blank once normalized, normalized.
pub open spec fn latest_text(rs: Seq<Result<String, String>>) -> Option<Seq<char>>
    decreases rs.len(),
{
    if rs.len() == 0 {
        None
    } else {
        match rs.last() {
            Ok(t) => if words(t@).len() > 0 { Some(join_words(words(t@))) } else { latest_text(rs.drop_last()) },
            Err(_) => latest_text(rs.drop_last()),
        }
    }
}

/// The last error of a batch of finished recognitions.
pub open spec fn latest_error(rs: Seq<Result<String, String>>) -> Option<Seq<char>>
    decreases rs.len(),
{
    if rs.len() == 0 {
        None
    } else {
        match rs.last() {
            Err(e) => Some(e@),
            Ok(_) => latest_error(rs.drop_last()),
        }
    }
}

proof fn lemma_join_empty(w: Seq<Seq<char>>)
    requires
        forall|i: int| 0 <= i < w.len() ==> (#[trigger] w[i]).len() > 0,
    ensures
        (join_words(w).len() == 0) == (w.len() == 0),
    decreases w.len(),
{
    if w.len() > 1 {
        lemma_join_empty(w.drop_last());
    }
}

proof fn lemma_words_nonblank(s: Seq<char>)
    ensures
        forall|i: int| 0 <= i < words(s).len() ==> (#[trigger] words(s)[i]).len() > 0,
    decreases s.len(),
{
    if s.len() > 0 {
        let p = s.drop_last();
        lemma_words_nonblank(p);
        let w = words(p);
        if !is_ws(s.last()) && s.len() >= 2 && !is_ws(s[s.len() - 2]) {
            assert(p.last() == s[s.len() - 2]);
            lemma_words_nonempty(p);
            let u = words(s);
            assert forall|i: int| 0 <= i < u.len() implies (#[trigger] u[i]).len() > 0 by {
                if i < w.len() - 1 {
                    assert(u[i] == w[i]);
                }
            }
        } else if !is_ws(s.last()) {
            let u = words(s);
            assert forall|i: int| 0 <= i < u.len() implies (#[trigger] u[i]).len() > 0 by {
                if i < w.len() {
                    assert(u[i] == w[i]);
                }
            }
        }
    }
}

/// What a poll of the finished recognitions asks of the caller.
pub struct TakeOutcome {
    /// The newest transcript, if any.
    pub text: Option<String>,
    /// The recording ran past its deadline: stop the capture now.
    pub stop_capture: bool,
}

/// The push-to-talk session: whether a recording runs, when it must stop,
/// and when the idle model may be unloaded (times in milliseconds).
pub struct PttState {
    pub recording: bool,
    pub deadline_ms: u64,
    pub unload_at_ms: u64,
    pub last_error: Option<String>,
}

impl PttState {
    /// A session with no recording, loaded at `now_ms`.
    pub fn new(now_ms: u64) -> (s: Self)
        requires
            now_ms + UNLOAD_AFTER_MS <= u64::MAX,
        ensures
            !s.recording,
            s.unload_at_ms == now_ms + UNLOAD_AFTER_MS,
            s.last_error is None,
    {
        PttState { recording: false, deadline_ms: 0, unload_at_ms: now_ms + UNLOAD_AFTER_MS, last_error: None }
    }

    /// Asks to start a recording at `now_ms`; refused while one runs. On
    /// success the caller starts the capture and calls `capture_started`.
    pub fn ptt_start(&mut self, now_ms: u64) -> (r: Result<(), WhisperSttError>)
        requires
            now_ms + UNLOAD_AFTER_MS <= u64::MAX,
        ensures
            final(self).unload_at_ms == now_ms + UNLOAD_AFTER_MS,
            final(self).recording == old(self).recording,
            final(self).deadline_ms == old(self).deadline_ms,
            final(self).last_error == old(self).last_error,
            old(self).recording <==> r matches Err(WhisperSttError::AlreadyRecording),
            !old(self).recording <==> r is Ok,
    {
        self.unload_at_ms = now_ms + UNLOAD_AFTER_MS;
        if self.recording {
            return Err(WhisperSttError::AlreadyRecording);
        }
        Ok(())
    }

    /// The capture is running since `now_ms`.
    pub fn capture_started(&mut self, now_ms: u64)
        requires
            now_ms + MAX_DURATION_MS <= u64::MAX,
        ensures
            final(self).recording,
            final(self).deadline_ms == now_ms + MAX_DURATION_MS,
            final(self).unload_at_ms == old(self).unload_at_ms,
            final(self).last_error == old(self).last_error,
    {
        self.recording = true;
        self.deadline_ms = now_ms + MAX_DURATION_MS;
    }

    /// Ends the recording; the caller stops the capture. Refused when none runs.
    pub fn stop(&mut self) -> (r: Result<(), WhisperSttError>)
        ensures
            !final(self).recording,
            final(self).unload_at_ms == old(self).unload_at_ms,
            final(self).deadline_ms == old(self).deadline_ms,
            final(self).last_error == old(self).last_error,
            !old(self).recording <==> r matches Err(WhisperSttError::NotRecording),
            old(self).recording <==> r is Ok,
    {
        if !self.recording {
            return Err(WhisperSttError::NotRecording);
        }
        self.recording = false;
        Ok(())
    }

    /// The push-to-talk key was released at `now_ms`.
    pub fn ptt_end(&mut self, now_ms: u64) -> (r: Result<(), WhisperSttError>)
        requires
            now_ms + UNLOAD_AFTER_MS <= u64::MAX,
        ensures
            !final(self).recording,
            final(self).unload_at_ms == now_ms + UNLOAD_AFTER_MS,
            final(self).deadline_ms == old(self).deadline_ms,
            final(self).last_error == old(self).last_error,
            !old(self).recording <==> r matches Err(WhisperSttError::NotRecording),
            old(self).recording <==> r is Ok,
    {
        self.unload_at_ms = now_ms + UNLOAD_AFTER_MS;
        self.stop()
    }

    /// Keeps the text of an error for the user.
    pub fn record_error(&mut self, message: String)
        ensures
            final(self).last_error == Some(message),
            final(self).recording == old(self).recording,
            final(self).deadline_ms == old(self).deadline_ms,
            final(self).unload_at_ms == old(self).unload_at_ms,
    {
        self.last_error = Some(message);
    }

    /// Whether the model has been idle long enough to be unloaded.
    pub fn should_unload(&self, now_ms: u64) -> (r: bool)
        ensures
            r == (self.unload_at_ms < now_ms),
    {
        self.unload_at_ms < now_ms
    }

    /// Takes the recognitions that finished since the last poll, at
    /// `now_ms`. Yields the newest non-blank transcript, normalized; keeps
    /// the newest error. With no transcript, a recording past its deadline
    /// is stopped.
    pub fn take_transcription(&mut self, completed: Vec<Result<String, String>>, now_ms: u64) -> (r: TakeOutcome)
        requires
            now_ms + UNLOAD_AFTER_MS <= u64::MAX,
        ensures
            match r.text {
                Some(t) => latest_text(completed@) == Some(t@),
                None => latest_text(completed@) is None,
            },
            match latest_error(completed@) {
                Some(e) => final(self).last_error matches Some(m) && m@ == e,
                None => final(self).last_error == old(self).last_error,
            },
            latest_text(completed@) is Some ==> final(self).unload_at_ms == now_ms + UNLOAD_AFTER_MS
                && final(self).recording == old(self).recording && !r.stop_capture,
            latest_text(completed@) is None ==> final(self).unload_at_ms == old(self).unload_at_ms
                && r.stop_capture == (old(self).recording && now_ms >= old(self).deadline_ms)
                && final(self).recording == (old(self).recording && now_ms < old(self).deadline_ms),
            final(self).deadline_ms == old(self).deadline_ms,
    {
        let ghost rs = completed@;
        let mut completed = completed;
        let mut latest: Option<String> = None;
        let mut rest: Vec<Result<String, String>> = Vec::new();
        let mut i: usize = 0;
        let n = completed.len();
        let ghost old_error = self.last_error;
        while completed.len() > 0
            invariant
                rs.len() == n,
                completed@ == rs.skip(i as int),
                i <= n,
                match latest {
                    Some(t) => latest_text(rs.take(i as int)) == Some(t@),
                    None => latest_text(rs.take(i as int)) is None,
                },
                match latest_error(rs.take(i as int)) {
                    Some(e) => self.last_error matches Some(m) && m@ == e,
                    None => self.last_error == old_error,
                },
                self.recording == old(self).recording,
                self.deadline_ms == old(self).deadline_ms,
                self.unload_at_ms == old(self).unload_at_ms,
            decreases completed.len(),
        {
            proof {
                assert(rs.skip(i as int)[0] == rs[i as int]);
                assert(rs.take(i + 1).drop_last() =~= rs.take(i as int));
                assert(rs.take(i + 1).last() == rs[i as int]);
            }
            let item = completed.remove(0);
            proof {
                assert(completed@ =~= rs.skip(i + 1));
            }
            match item {
                Ok(text) => {
                    let ghost raw = text@;
                    let norm = normalize_transcript(text);
                    proof {
                        lemma_words_nonblank(raw);
                        lemma_join_empty(words(raw));
                    }
                    if !norm.as_str().is_empty() {
                        latest = Some(norm);
                    }
                },
                Err(e) => {
                    self.last_error = Some(e);
                },
            }
            i += 1;
        }
        proof {
            assert(rs.take(n as int) =~= rs);
        }
        if latest.is_some() {
            self.unload_at_ms = now_ms + UNLOAD_AFTER_MS;
            return TakeOutcome { text: latest, stop_capture: false };
        }
        if self.recording && now_ms >= self.deadline_ms {
            self.recording = false;
            return TakeOutcome { text: None, stop_capture: true };
        }
        TakeOutcome { text: None, stop_capture: false }
    }
}

/// Where a transcript is put for pasting.
#[derive(Clone, Copy, PartialEq, Eq, Structural, Debug)]
pub enum ClipboardTarget {
    /// The clipboard of the built-in server's clients.
    Server,
    /// The desktop's clipboard.
    Desktop,
    /// Nowhere: no transcript, or no clipboard where the input goes.
    Nowhere,
}

/// Where the last transcript goes when it is pasted: to the clipboard of
/// whatever has the input focus, if there is a transcript and that
/// clipboard is available.
pub fn clipboard_target(has_text: bool, focus: InputFocus, server_running: bool, desktop_clipboard: bool) -> (t: ClipboardTarget)
    ensures
        !has_text ==> t == ClipboardTarget::Nowhere,
        has_text && focus == InputFocus::WayVR ==> t == (if server_running { ClipboardTarget::Server } else { ClipboardTarget::Nowhere }),
        has_text && focus == InputFocus::PhysicalScreen ==> t == (if desktop_clipboard { ClipboardTarget::Desktop } else { ClipboardTarget::Nowhere }),
{
    if !has_text {
        return ClipboardTarget::Nowhere;
    }
    match focus {
        InputFocus::WayVR => if server_running { ClipboardTarget::Server } else { ClipboardTarget::Nowhere },
        InputFocus::PhysicalScreen => if desktop_clipboard { ClipboardTarget::Desktop } else { ClipboardTarget::Nowhere },
    }
}

/// No character of `w` is whitespace.
pub open spec fn no_ws(w: Seq<char>) -> bool {
    forall|i: int| 0 <= i < w.len() ==> !is_ws(#[trigger] w[i])
}

proof fn lemma_words_clean(s: Seq<char>)
    ensures
        forall|i: int| 0 <= i < words(s).len() ==> no_ws(#[trigger] words(s)[i]),
    decreases s.len(),
{
    if s.len() > 0 {
        let p = s.drop_last();
        lemma_words_clean(p);
        let w = words(p);
        let u = words(s);
        if !is_ws(s.last()) {
            assert forall|i: int| 0 <= i < u.len() implies no_ws(#[trigger] u[i]) by {
                if i < w.len() && !(s.len() >= 2 && !is_ws(s[s.len() - 2]) && i == w.len() - 1) {
                    assert(u[i] == w[i]);
                } else if s.len() >= 2 && !is_ws(s[s.len() - 2]) {
                    assert(p.last() == s[s.len() - 2]);
                    lemma_words_nonempty(p);
                    assert(u[i] == w.last().push(s.last()));
                    assert forall|j: int| 0 <= j < u[i].len() implies !is_ws(#[trigger] u[i][j]) by {
                        if j < w.last().len() {
                            assert(u[i][j] == w.last()[j]);
                            assert(no_ws(w[w.len() - 1]));
                        }
                    }
                } else {
                    assert(u[i] == seq![s.last()]);
                }
            }
        }
    }
}

proof fn lemma_words_space(t: Seq<char>)
    ensures
        words(t.push(' ')) == words(t),
{
    assert(t.push(' ').drop_last() =~= t);
}

proof fn lemma_words_append_word(t: Seq<char>, w: Seq<char>)
    requires
        t.len() == 0 || is_ws(t.last()),
        w.len() > 0,
        no_ws(w),
    ensures
        words(t + w) == words(t).push(w),
    decreases w.len(),
{
    let c = w.last();
    let w0 = w.drop_last();
    assert((t + w).drop_last() =~= t + w0);
    assert((t + w).last() == c);
    if w0.len() == 0 {
        assert(t + w0 =~= t);
        assert(seq![c] =~= w);
        if t.len() > 0 {
            assert((t + w)[(t + w).len() - 2] == t.last());
        }
    } else {
        assert forall|i: int| 0 <= i < w0.len() implies !is_ws(#[trigger] w0[i]) by {
            assert(w0[i] == w[i]);
        }
        lemma_words_append_word(t, w0);
        assert((t + w)[(t + w).len() - 2] == w0.last());
        assert(w0.last() == w[w.len() - 2]);
        let ws = words(t + w0);
        assert(ws.update(ws.len() - 1, ws.last().push(c)) =~= words(t).push(w0.push(c)));
        assert(w0.push(c) =~= w);
    }
}

proof fn lemma_words_of_join(ws: Seq<Seq<char>>)
    requires
        forall|i: int| 0 <= i < ws.len() ==> (#[trigger] ws[i]).len() > 0 && no_ws(ws[i]),
    ensures
        words(join_words(ws)) == ws,
    decreases ws.len(),
{
    if ws.len() == 0 {
    } else if ws.len() == 1 {
        lemma_words_append_word(Seq::<char>::empty(), ws[0]);
        assert(Seq::<char>::empty() + ws[0] =~= ws[0]);
        assert(Seq::<Seq<char>>::empty().push(ws[0]) =~= ws);
    } else {
        let d = ws.drop_last();
        assert forall|i: int| 0 <= i < d.len() implies (#[trigger] d[i]).len() > 0 && no_ws(d[i]) by {
            assert(d[i] == ws[i]);
        }
        lemma_words_of_join(d);
        let t = join_words(d).push(' ');
        lemma_words_space(join_words(d));
        assert(is_ws(t.last()));
        lemma_words_append_word(t, ws.last());
        assert(join_words(ws) =~= t + ws.last());
        assert(d.push(ws.last()) =~= ws);
    }
}

/// Normalizing a transcript twice gives what normalizing it once gives: the
/// words of a normalized text are the words of the original.
pub proof fn law_normalize_idempotent(s: Seq<char>)
    ensures
        words(join_words(words(s))) == words(s),
        join_words(words(join_words(words(s)))) == join_words(words(s)),
{
    lemma_words_nonblank(s);
    lemma_words_clean(s);
    lemma_words_of_join(words(s));
}

} // verus!
