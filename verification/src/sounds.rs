//! The decisions of the notification-sound worker: which request is current, and what the
//! status line says. The worker itself plays each cue and reports back.
use vstd::prelude::*;

verus! {

/// No sound is playing.
pub const IDLE: u8 = 0;

/// A sound is playing.
pub const PLAYING: u8 = 1;

/// The audio output could not be opened.
pub const UNAVAILABLE: u8 = 2;

/// The current request and the status of notification sounds.
pub struct Sounds {
    generation: u64,
    status: u8,
}

/// What `Sounds` holds: the identity of the current request and the status code.
pub struct SoundsView {
    pub generation: u64,
    pub status: u8,
}

impl View for Sounds {
    type V = SoundsView;

    closed spec fn view(&self) -> SoundsView {
        SoundsView { generation: self.generation, status: self.status }
    }
}

/// The status line for a status code.
pub open spec fn status_text(status: u8) -> &'static str {
    if status == PLAYING {
        "Playing notification sound..."
    } else if status == UNAVAILABLE {
        "Audio output unavailable. Check your system sound settings."
    } else {
        ""
    }
}

/// The identity after `g`, wrapping.
pub open spec fn next_generation(g: u64) -> u64 {
    if g == u64::MAX {
        0
    } else {
        (g + 1) as u64
    }
}

impl Sounds {
    pub fn new() -> (r: Sounds)
        ensures
            r@.generation == 0,
            r@.status == IDLE,
    {
        Sounds { generation: 0, status: IDLE }
    }

    /// The status line.
    pub fn status(&self) -> (r: &'static str)
        ensures
            r == status_text(self@.status),
    {
        match self.status {
            1 => "Playing notification sound...",
            2 => "Audio output unavailable. Check your system sound settings.",
            _ => "",
        }
    }

    /// Stops any sound: the request in flight is no longer current.
    pub fn stop(&mut self)
        ensures
            final(self)@ == spec_stop(old(self)@),
    {
        self.generation = self.generation.wrapping_add(1);
        self.status = IDLE;
    }

    /// Starts a new request, which supersedes any other; returns its identity.
    pub fn begin(&mut self) -> (r: u64)
        ensures
            final(self)@ == spec_begin(old(self)@),
            r == final(self)@.generation,
    {
        self.generation = self.generation.wrapping_add(1);
        self.status = PLAYING;
        self.generation
    }

    /// The request could not be handed to the worker (one is still queued).
    pub fn not_queued(&mut self)
        ensures
            final(self)@.generation == old(self)@.generation,
            final(self)@.status == IDLE,
    {
        self.status = IDLE;
    }

    /// The worker could not be started.
    pub fn worker_unavailable(&mut self)
        ensures
            final(self)@.generation == old(self)@.generation,
            final(self)@.status == UNAVAILABLE,
    {
        self.status = UNAVAILABLE;
    }

    /// Whether `request` is still the current request.
    pub fn is_current(&self, request: u64) -> (r: bool)
        ensures
            r == (self@.generation == request),
    {
        self.generation == request
    }

    /// Request `request` finished playing: where it is current and still playing, the status
    /// returns to idle.
    pub fn finished(&mut self, request: u64)
        ensures
            final(self)@ == spec_finished(old(self)@, request),
    {
        if self.generation == request && self.status == PLAYING {
            self.status = IDLE;
        }
    }

    /// Request `request` could not open the audio output: where it is current, the status
    /// says so.
    pub fn failed(&mut self, request: u64)
        ensures
            final(self)@ == spec_failed(old(self)@, request),
    {
        if self.generation == request {
            self.status = UNAVAILABLE;
        }
    }
}

impl Default for Sounds {
    fn default() -> (r: Sounds)
        ensures
            r@.generation == 0,
            r@.status == IDLE,
    {
        Sounds::new()
    }
}

/// What stopping leaves: a new current identity, and silence.
pub open spec fn spec_stop(s: SoundsView) -> SoundsView {
    SoundsView { generation: next_generation(s.generation), status: IDLE }
}

/// What starting a request leaves: its new identity is current, and a sound plays.
pub open spec fn spec_begin(s: SoundsView) -> SoundsView {
    SoundsView { generation: next_generation(s.generation), status: PLAYING }
}

/// What the end of request `request`'s playback leaves.
pub open spec fn spec_finished(s: SoundsView, request: u64) -> SoundsView {
    if s.generation == request && s.status == PLAYING {
        SoundsView { status: IDLE, ..s }
    } else {
        s
    }
}

/// What request `request`'s failure to open the output leaves.
pub open spec fn spec_failed(s: SoundsView, request: u64) -> SoundsView {
    if s.generation == request {
        SoundsView { status: UNAVAILABLE, ..s }
    } else {
        s
    }
}

/// A superseded request is stale: once sounds were stopped, or another request began,
/// the request that was current is current no more (so its output, which plays only while
/// its request is current, falls silent), and its end or its failure changes nothing.
pub proof fn law_superseded_request_is_stale(s: SoundsView)
    ensures
        spec_stop(s).generation != s.generation,
        spec_begin(s).generation != s.generation,
        spec_finished(spec_stop(s), s.generation) == spec_stop(s),
        spec_failed(spec_stop(s), s.generation) == spec_stop(s),
        spec_finished(spec_begin(s), s.generation) == spec_begin(s),
        spec_failed(spec_begin(s), s.generation) == spec_begin(s),
{
}

/// One thing that happens to the sounds' state.
pub enum SoundEvent {
    /// A new request starts (`begin`).
    Begin,
    /// Sounds are stopped (`stop`).
    Stop,
    /// A request's playback ended (`finished`).
    Finished(u64),
    /// A request could not open the output (`failed`).
    Failed(u64),
    /// A request could not be handed to the worker (`not_queued`).
    NotQueued,
    /// The worker could not be started (`worker_unavailable`).
    WorkerUnavailable,
}

/// The state after one event, as the operation of that name leaves it.
pub open spec fn spec_event(s: SoundsView, e: SoundEvent) -> SoundsView {
    match e {
        SoundEvent::Begin => spec_begin(s),
        SoundEvent::Stop => spec_stop(s),
        SoundEvent::Finished(r) => spec_finished(s, r),
        SoundEvent::Failed(r) => spec_failed(s, r),
        SoundEvent::NotQueued => SoundsView { status: IDLE, ..s },
        SoundEvent::WorkerUnavailable => SoundsView { status: UNAVAILABLE, ..s },
    }
}

/// The state after each event in turn.
pub open spec fn spec_run(s: SoundsView, es: Seq<SoundEvent>) -> SoundsView
    decreases es.len(),
{
    if es.len() == 0 {
        s
    } else {
        spec_event(spec_run(s, es.drop_last()), es.last())
    }
}

/// How many of the events start a request or stop sounds.
pub open spec fn supersessions(es: Seq<SoundEvent>) -> nat
    decreases es.len(),
{
    if es.len() == 0 {
        0
    } else {
        supersessions(es.drop_last()) + if es.last() is Begin || es.last() is Stop {
            1nat
        } else {
            0nat
        }
    }
}

proof fn lemma_run_generation(s: SoundsView, es: Seq<SoundEvent>)
    ensures
        supersessions(es) <= es.len(),
        spec_run(s, es).generation == (s.generation + supersessions(es)) % 0x1_0000_0000_0000_0000,
    decreases es.len(),
{
    if es.len() > 0 {
        lemma_run_generation(s, es.drop_last());
        let c = supersessions(es.drop_last());
        vstd::arithmetic::div_mod::lemma_add_mod_noop(
            s.generation + c,
            1,
            0x1_0000_0000_0000_0000,
        );
        vstd::arithmetic::div_mod::lemma_small_mod(1, 0x1_0000_0000_0000_0000);
    } else {
        vstd::arithmetic::div_mod::lemma_small_mod(
            s.generation as nat,
            0x1_0000_0000_0000_0000,
        );
    }
}

/// Across any later run of events, the request that was current stays stale once it was
/// superseded: after a stop or a new start (and before 2^64 of them have wrapped the
/// identity round), it is not current, so its output stays silent, and its end or its
/// failure changes nothing.
pub proof fn law_superseded_request_stays_stale(s: SoundsView, es: Seq<SoundEvent>)
    requires
        es.len() <= u64::MAX,
    ensures
        forall|k: int|
            0 <= k <= es.len() && supersessions(#[trigger] es.take(k)) >= 1 ==> {
                let t = spec_run(s, es.take(k));
                &&& t.generation != s.generation
                &&& spec_finished(t, s.generation) == t
                &&& spec_failed(t, s.generation) == t
            },
{
    assert forall|k: int|
        0 <= k <= es.len() && supersessions(#[trigger] es.take(k)) >= 1 implies spec_run(
        s,
        es.take(k),
    ).generation != s.generation by {
        lemma_run_generation(s, es.take(k));
        let c = supersessions(es.take(k));
        let g = s.generation as int;
        if g + c < 0x1_0000_0000_0000_0000 {
            vstd::arithmetic::div_mod::lemma_small_mod(
                (g + c) as nat,
                0x1_0000_0000_0000_0000,
            );
        } else {
            vstd::arithmetic::div_mod::lemma_mod_sub_multiples_vanish(
                g + c - 0x1_0000_0000_0000_0000,
                0x1_0000_0000_0000_0000,
            );
            vstd::arithmetic::div_mod::lemma_small_mod(
                (g + c - 0x1_0000_0000_0000_0000) as nat,
                0x1_0000_0000_0000_0000,
            );
        }
    }
}

/// The output formats that a cue is played in: 8 to 192 kHz, 1 to 8 channels.
pub fn output_config_accepted(sample_rate: u32, channels: u16) -> (r: bool)
    ensures
        r == (8000 <= sample_rate <= 192000 && 1 <= channels <= 8),
{
    8000 <= sample_rate && sample_rate <= 192000 && 1 <= channels && channels <= 8
}

} // verus!
