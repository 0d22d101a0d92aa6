//! Import progress: the phases an import goes through, the JSON texts and
//! events that report them, and the shared state that the reader's
//! progress page polls.
use vstd::prelude::*;
use vstd::string::*;
use crate::text::{decimal, push_decimal, chars_of, occurs_at, matches_str_at};

verus! {

/// The phase of an import as its progress handle reports it.
#[derive(Clone, Copy, PartialEq, Eq, Debug)]
pub enum ImportPhase {
    Idle,
    Decoding,
    Importing,
    Done,
    /// A phase value that is none of the above.
    Unknown,
}

/// The name of a phase: `idle`, `decoding`, `importing`, `done`, `unknown`.
pub open spec fn phase_name(p: ImportPhase) -> Seq<char> {
    match p {
        ImportPhase::Idle => "idle"@,
        ImportPhase::Decoding => "decoding"@,
        ImportPhase::Importing => "importing"@,
        ImportPhase::Done => "done"@,
        ImportPhase::Unknown => "unknown"@,
    }
}

/// The user-facing message for a phase name: one for `decoding`,
/// `importing` and `done`, empty for any other.
pub open spec fn phase_message(name: Seq<char>) -> Seq<char> {
    if name == "decoding"@ {
        "Decoding entries..."@
    } else if name == "importing"@ {
        "Importing entries..."@
    } else if name == "done"@ {
        "Import complete"@
    } else {
        ""@
    }
}

/// The name of a phase.
pub fn phase_name_of(p: ImportPhase) -> (r: &'static str)
    ensures
        r@ == phase_name(p),
{
    match p {
        ImportPhase::Idle => "idle",
        ImportPhase::Decoding => "decoding",
        ImportPhase::Importing => "importing",
        ImportPhase::Done => "done",
        ImportPhase::Unknown => "unknown",
    }
}

/// Whether two strings have the same characters.
fn str_eq(a: &str, b: &str) -> (r: bool)
    ensures
        r == (a@ == b@),
{
    let x = chars_of(a);
    let y = chars_of(b);
    if x.len() != y.len() {
        return false;
    }
    let mut i: usize = 0;
    while i < x.len()
        invariant
            x@ == a@,
            y@ == b@,
            x@.len() == y@.len(),
            i <= x@.len(),
            forall|k: int| 0 <= k < i ==> x@[k] == y@[k],
        decreases x@.len() - i,
    {
        if x[i] != y[i] {
            return false;
        }
        i = i + 1;
    }
    assert(x@ =~= y@);
    true
}

/// The message shown for a phase name.
pub fn phase_message_of(name: &str) -> (r: &'static str)
    ensures
        r@ == phase_message(name@),
{
    if str_eq(name, "decoding") {
        "Decoding entries..."
    } else if str_eq(name, "importing") {
        "Importing entries..."
    } else if str_eq(name, "done") {
        "Import complete"
    } else {
        ""
    }
}

/// The progress line the import command prints:
/// `{"phase":"<phase>","processed":<n>,"total":<n>,"message":"<message>"}`,
/// the phase name written as it is.
pub open spec fn progress_json_text(phase: Seq<char>, processed: u64, total: u64) -> Seq<char> {
    "{\"phase\":\""@ + phase + "\",\"processed\":"@ + decimal(processed as nat) + ",\"total\":"@
        + decimal(total as nat) + ",\"message\":\""@ + phase_message(phase) + "\"}"@
}

/// The progress line for a phase name and byte counts.
pub fn progress_json(phase: &str, processed: u64, total: u64) -> (r: String)
    ensures
        r@ == progress_json_text(phase@, processed, total),
{
    let mut r = String::new();
    r.append("{\"phase\":\"");
    r.append(phase);
    r.append("\",\"processed\":");
    push_decimal(&mut r, processed);
    r.append(",\"total\":");
    push_decimal(&mut r, total);
    r.append(",\"message\":\"");
    r.append(phase_message_of(phase));
    r.append("\"}");
    assert(r@ =~= progress_json_text(phase@, processed, total));
    r
}


/// The progress text of an import that has not started.
pub open spec fn idle_progress_text() -> Seq<char> {
    "{\"phase\":\"idle\",\"processed\":0,\"total\":0,\"message\":\"\"}"@
}

/// The prefix that marks a line of the import command's output as a
/// progress report.
pub open spec fn progress_marker() -> Seq<char> {
    "{\"phase\":"@
}

/// The latest progress report of an import run as a child process: the
/// text served to the reader's progress poll.
pub struct ProgressState {
    text: String,
}

impl ProgressState {
    /// The report held.
    pub closed spec fn view(&self) -> Seq<char> {
        self.text@
    }

    /// The report held always starts with `{"phase":`.
    #[verifier::type_invariant]
    spec fn marked(self) -> bool {
        occurs_at(self.text@, 0, progress_marker())
    }

    /// The report held, which, whatever lines the state has been shown,
    /// starts with `{"phase":`.
    pub fn current(&self) -> (r: String)
        ensures
            r@ == self.view(),
            occurs_at(r@, 0, progress_marker()),
    {
        proof {
            use_type_invariant(self);
        }
        self.text.clone()
    }

    /// Takes in one line of the child's output: a line that starts with
    /// `{"phase":` becomes the report held; any other line is ignored.
    pub fn observe_line(&mut self, line: &str)
        ensures
            occurs_at(line@, 0, progress_marker()) ==> final(self).view() == line@,
            !occurs_at(line@, 0, progress_marker()) ==> final(self).view() == old(self).view(),
    {
        let v = chars_of(line);
        if matches_str_at(v.as_slice(), 0, "{\"phase\":") {
            self.text = line.to_owned();
        }
    }
}

/// A progress state that holds the idle report.
pub fn new_progress_state() -> (r: ProgressState)
    ensures
        r.view() == idle_progress_text(),
{
    proof {
        reveal_strlit("{\"phase\":\"idle\",\"processed\":0,\"total\":0,\"message\":\"\"}");
        reveal_strlit("{\"phase\":");
        assert(idle_progress_text().subrange(0, progress_marker().len() as int)
            =~= progress_marker());
    }
    ProgressState {
        text: "{\"phase\":\"idle\",\"processed\":0,\"total\":0,\"message\":\"\"}".to_owned(),
    }
}


/// What a progress handle reads at one moment: the phase as named by the
/// import, the raw phase code, and the byte and entry counters.
#[derive(Clone, Copy, PartialEq, Eq, Debug)]
pub struct ProgressReading {
    pub phase: ImportPhase,
    pub phase_code: u32,
    pub processed_bytes: u64,
    pub total_bytes: u64,
    pub processed_entries: u64,
}

/// The progress event sent to the reader's window.
#[derive(Debug)]
pub struct ImportProgress {
    pub phase: String,
    pub processed: u64,
    pub total: u64,
    pub processed_entries: u64,
    pub message: String,
}

impl ImportProgress {
    /// Whether this event reports the end of the import (phase `done`).
    pub fn is_done(&self) -> (r: bool)
        ensures
            r == (self.phase@ == "done"@),
    {
        str_eq(self.phase.as_str(), "done")
    }
}

/// The event for a reading: the phase name, the counters as read, and the
/// message for the phase.
pub fn progress_to_event(reading: &ProgressReading) -> (r: ImportProgress)
    ensures
        r.phase@ == phase_name(reading.phase),
        r.processed == reading.processed_bytes,
        r.total == reading.total_bytes,
        r.processed_entries == reading.processed_entries,
        r.message@ == phase_message(phase_name(reading.phase)),
{
    let phase = phase_name_of(reading.phase);
    ImportProgress {
        phase: phase.to_owned(),
        processed: reading.processed_bytes,
        total: reading.total_bytes,
        processed_entries: reading.processed_entries,
        message: phase_message_of(phase).to_owned(),
    }
}

/// An event as plain values: phase, processed bytes, total bytes,
/// processed entries, message.
pub open spec fn progress_view(e: ImportProgress) -> (Seq<char>, u64, u64, u64, Seq<char>) {
    (e.phase@, e.processed, e.total, e.processed_entries, e.message@)
}

/// The event a reading gives, as plain values.
pub open spec fn event_view(reading: ProgressReading) -> (Seq<char>, u64, u64, u64, Seq<char>) {
    (
        phase_name(reading.phase),
        reading.processed_bytes,
        reading.total_bytes,
        reading.processed_entries,
        phase_message(phase_name(reading.phase)),
    )
}

/// Only the `Done` phase is named `done`.
pub proof fn lemma_done_name(p: ImportPhase)
    ensures
        (phase_name(p) == "done"@) <==> (p == ImportPhase::Done),
{
    reveal_strlit("idle");
    reveal_strlit("decoding");
    reveal_strlit("importing");
    reveal_strlit("done");
    reveal_strlit("unknown");
    if p != ImportPhase::Done {
        if p == ImportPhase::Idle {
            assert(phase_name(p)[0] != "done"@[0]);
        } else {
            assert(phase_name(p).len() != "done"@.len());
        }
    }
}

/// The events a poller emits for the readings it takes in turn: one per
/// reading, up to and including the first reading of a finished import,
/// after which it stops.
pub open spec fn polled_events(readings: Seq<ProgressReading>) -> Seq<
    (Seq<char>, u64, u64, u64, Seq<char>),
>
    decreases readings.len(),
{
    if readings.len() == 0 {
        Seq::empty()
    } else if readings[0].phase == ImportPhase::Done {
        seq![event_view(readings[0])]
    } else {
        seq![event_view(readings[0])] + polled_events(readings.drop_first())
    }
}

/// When some reading shows the import finished (as every reading does
/// once the end of the import has been signalled), the poller emits at
/// least one event, each the event of its reading in turn, none `done`
/// but the last, and the last `done`.
pub proof fn lemma_polled_events_end_with_done(readings: Seq<ProgressReading>)
    requires
        exists|i: int| 0 <= i < readings.len() && (#[trigger] readings[i]).phase == ImportPhase::Done,
    ensures
        polled_events(readings).len() >= 1,
        polled_events(readings).len() <= readings.len(),
        forall|j: int|
            0 <= j < polled_events(readings).len() ==> #[trigger] polled_events(readings)[j]
                == event_view(readings[j]),
        forall|j: int|
            0 <= j < polled_events(readings).len() - 1 ==> (#[trigger] polled_events(readings)[j]).0
                != "done"@,
        polled_events(readings).last().0 == "done"@,
    decreases readings.len(),
{
    let ev = polled_events(readings);
    lemma_done_name(readings[0].phase);
    if readings[0].phase != ImportPhase::Done {
        let rest = readings.drop_first();
        let i = choose|i: int| 0 <= i < readings.len() && (#[trigger] readings[i]).phase == ImportPhase::Done;
        assert(rest[i - 1] == readings[i]);
        lemma_polled_events_end_with_done(rest);
        let er = polled_events(rest);
        assert(ev == seq![event_view(readings[0])] + er);
        assert forall|j: int| 0 <= j < ev.len() implies #[trigger] ev[j] == event_view(readings[j]) by {
            if j > 0 {
                assert(ev[j] == er[j - 1]);
                assert(rest[j - 1] == readings[j]);
            }
        }
        assert forall|j: int| 0 <= j < ev.len() - 1 implies (#[trigger] ev[j]).0 != "done"@ by {
            if j > 0 {
                assert(ev[j] == er[j - 1]);
            }
        }
        assert(ev.last() == er.last());
    }
}

/// What one poll of a running import gives: the event to emit, and whether
/// the poller stops after emitting it.
#[derive(Debug)]
pub struct PollOutcome {
    pub event: ImportProgress,
    pub stop: bool,
}

/// One poll of a running import: the reading is recorded in the state (see
/// `ImportState::record_progress`), its event is built, and the poller
/// stops exactly after the event of a finished import, which is the one
/// whose phase is `done`.
pub fn poll_import(st: &mut ImportState, reading: &ProgressReading) -> (r: PollOutcome)
    ensures
        progress_view(r.event) == event_view(*reading),
        r.stop == (reading.phase == ImportPhase::Done),
        r.stop == (r.event.phase@ == "done"@),
        final(st).is_importing == old(st).is_importing,
        final(st).phase == reading.phase_code,
        final(st).processed_bytes == reading.processed_bytes,
        final(st).processed_entries == reading.processed_entries,
        final(st).total_bytes == if reading.total_bytes > 0 {
            reading.total_bytes
        } else {
            old(st).total_bytes
        },
{
    st.record_progress(reading);
    let event = progress_to_event(reading);
    let stop = event.is_done();
    proof {
        lemma_done_name(reading.phase);
    }
    PollOutcome { event, stop }
}

/// The name the progress page shows for a state's phase code: `idle`,
/// `decoding`, `importing`, `done`, `error` for 0 to 4, `unknown` otherwise.
pub open spec fn state_phase_name(code: u32) -> Seq<char> {
    if code == 0 {
        "idle"@
    } else if code == 1 {
        "decoding"@
    } else if code == 2 {
        "importing"@
    } else if code == 3 {
        "done"@
    } else if code == 4 {
        "error"@
    } else {
        "unknown"@
    }
}

/// The phase code of a state whose import is decoding.
pub const STATE_DECODING: u32 = 1;

/// The phase code of a state whose import finished.
pub const STATE_DONE: u32 = 3;

/// The phase code of a state whose import failed.
pub const STATE_ERROR: u32 = 4;

/// The name of a state's phase code.
pub fn state_phase_name_of(code: u32) -> (r: &'static str)
    ensures
        r@ == state_phase_name(code),
{
    if code == 0 {
        "idle"
    } else if code == 1 {
        "decoding"
    } else if code == 2 {
        "importing"
    } else if code == 3 {
        "done"
    } else if code == 4 {
        "error"
    } else {
        "unknown"
    }
}

/// The import status that the reader's progress page polls.
#[derive(Clone, Copy, PartialEq, Eq, Debug)]
pub struct ImportState {
    pub is_importing: bool,
    pub phase: u32,
    pub processed_bytes: u64,
    pub total_bytes: u64,
    pub processed_entries: u64,
}

impl ImportState {
    /// No import has run: not importing, phase 0 (`idle`), counters zero.
    pub fn new() -> (r: ImportState)
        ensures
            !r.is_importing,
            r.phase == 0,
            r.processed_bytes == 0,
            r.total_bytes == 0,
            r.processed_entries == 0,
    {
        ImportState {
            is_importing: false,
            phase: 0,
            processed_bytes: 0,
            total_bytes: 0,
            processed_entries: 0,
        }
    }

    /// An import starts: importing, phase 1 (`decoding`), counters zero.
    pub fn begin_import(&mut self)
        ensures
            final(self).is_importing,
            final(self).phase == STATE_DECODING,
            final(self).processed_bytes == 0,
            final(self).total_bytes == 0,
            final(self).processed_entries == 0,
    {
        self.is_importing = true;
        self.phase = STATE_DECODING;
        self.processed_bytes = 0;
        self.processed_entries = 0;
        self.total_bytes = 0;
    }

    /// Takes in one reading of the running import: the phase code and the
    /// processed counters as read; the total only when the reading knows it
    /// (is not zero), so that a known total is never cleared.
    pub fn record_progress(&mut self, reading: &ProgressReading)
        ensures
            final(self).is_importing == old(self).is_importing,
            final(self).phase == reading.phase_code,
            final(self).processed_bytes == reading.processed_bytes,
            final(self).processed_entries == reading.processed_entries,
            final(self).total_bytes == if reading.total_bytes > 0 {
                reading.total_bytes
            } else {
                old(self).total_bytes
            },
    {
        if reading.total_bytes > 0 {
            self.total_bytes = reading.total_bytes;
        }
        self.phase = reading.phase_code;
        self.processed_bytes = reading.processed_bytes;
        self.processed_entries = reading.processed_entries;
    }

    /// The import ended: phase 3 (`done`) when it succeeded, 4 (`error`)
    /// when it failed; nothing else changes.
    pub fn finish_import(&mut self, succeeded: bool)
        ensures
            final(self).phase == if succeeded {
                STATE_DONE
            } else {
                STATE_ERROR
            },
            final(self).is_importing == old(self).is_importing,
            final(self).processed_bytes == old(self).processed_bytes,
            final(self).total_bytes == old(self).total_bytes,
            final(self).processed_entries == old(self).processed_entries,
    {
        self.phase = if succeeded {
            STATE_DONE
        } else {
            STATE_ERROR
        };
    }
}

/// `true` or `false`, as `Display` writes a `bool`.
pub open spec fn bool_text(b: bool) -> Seq<char> {
    if b {
        "true"@
    } else {
        "false"@
    }
}

/// The progress page's status document:
/// `{"is_importing":<bool>,"phase":"<name>","processed_bytes":<n>,"total_bytes":<n>,"processed_entries":<n>}`.
pub open spec fn progress_api_text(st: ImportState) -> Seq<char> {
    "{\"is_importing\":"@ + bool_text(st.is_importing) + ",\"phase\":\""@ + state_phase_name(
        st.phase,
    ) + "\",\"processed_bytes\":"@ + decimal(st.processed_bytes as nat) + ",\"total_bytes\":"@
        + decimal(st.total_bytes as nat) + ",\"processed_entries\":"@ + decimal(
        st.processed_entries as nat,
    ) + "}"@
}

/// The status document for a state.
pub fn progress_api_json(st: &ImportState) -> (r: String)
    ensures
        r@ == progress_api_text(*st),
{
    let mut r = String::new();
    r.append("{\"is_importing\":");
    r.append(if st.is_importing { "true" } else { "false" });
    r.append(",\"phase\":\"");
    r.append(state_phase_name_of(st.phase));
    r.append("\",\"processed_bytes\":");
    push_decimal(&mut r, st.processed_bytes);
    r.append(",\"total_bytes\":");
    push_decimal(&mut r, st.total_bytes);
    r.append(",\"processed_entries\":");
    push_decimal(&mut r, st.processed_entries);
    r.append("}");
    assert(r@ =~= progress_api_text(*st));
    r
}

/// The error an import that failed reports: `Import failed: <cause>`.
pub fn import_failed_message(cause: &str) -> (r: String)
    ensures
        r@ == "Import failed: "@ + cause@,
{
    let mut r = "Import failed: ".to_owned();
    r.append(cause);
    r
}

} // verus!
