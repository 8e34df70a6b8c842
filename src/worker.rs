//! Decision rules of the detection worker, which repeatedly reads a window,
//! runs pitch detection on it and forwards what was found.

use vstd::prelude::*;

verus! {

/// Samples in one detection window.
pub const WINDOW_SIZE: usize = 4096;

/// Where the worker stands in its loop.
#[derive(Clone, Copy, Debug, PartialEq, Eq, Structural)]
pub enum Stage {
    /// Waiting for the next full window.
    Accumulating,
    /// A window was read; detection runs on it.
    Detecting,
    /// A note was found; it is being sent on.
    Forwarding,
    /// The loop has ended.
    Stopped,
}

/// What the last piece of outside work reported.
#[derive(Clone, Copy, Debug, PartialEq, Eq, Structural)]
pub enum Event {
    /// A full window was read.
    WindowRead,
    /// The sample channel closed before a full window arrived.
    StreamEnded,
    /// Detection found a note in the window.
    NoteFound,
    /// Detection found nothing in the window.
    NoNote,
    /// The note was sent to the presentation side.
    Forwarded,
    /// The presentation side is gone; the note could not be sent.
    ForwardFailed,
}

/// The worker's state machine. An event that does not belong to the current
/// stage leaves it unchanged.
pub open spec fn transition(stage: Stage, event: Event) -> Stage {
    match (stage, event) {
        (Stage::Accumulating, Event::WindowRead) => Stage::Detecting,
        (Stage::Accumulating, Event::StreamEnded) => Stage::Stopped,
        (Stage::Detecting, Event::NoteFound) => Stage::Forwarding,
        (Stage::Detecting, Event::NoNote) => Stage::Accumulating,
        (Stage::Forwarding, Event::Forwarded) => Stage::Accumulating,
        (Stage::Forwarding, Event::ForwardFailed) => Stage::Stopped,
        _ => stage,
    }
}

/// The stage that follows `stage` once `event` has been observed.
pub fn next_stage(stage: Stage, event: Event) -> (r: Stage)
    ensures
        r == transition(stage, event),
{
    match (stage, event) {
        (Stage::Accumulating, Event::WindowRead) => Stage::Detecting,
        (Stage::Accumulating, Event::StreamEnded) => Stage::Stopped,
        (Stage::Detecting, Event::NoteFound) => Stage::Forwarding,
        (Stage::Detecting, Event::NoNote) => Stage::Accumulating,
        (Stage::Forwarding, Event::Forwarded) => Stage::Accumulating,
        (Stage::Forwarding, Event::ForwardFailed) => Stage::Stopped,
        _ => stage,
    }
}

/// Whether the loop has ended.
pub fn is_stopped(stage: Stage) -> (r: bool)
    ensures
        r == (stage == Stage::Stopped),
{
    match stage {
        Stage::Stopped => true,
        _ => false,
    }
}

/// A window with no note is no error: the worker goes back to reading, and
/// only a closed sample channel or a failed forward ends the loop.
pub proof fn lemma_only_closed_channels_stop(stage: Stage, event: Event)
    requires
        stage != Stage::Stopped,
    ensures
        transition(stage, event) == Stage::Stopped <==> (stage == Stage::Accumulating && event
            == Event::StreamEnded) || (stage == Stage::Forwarding && event == Event::ForwardFailed),
        stage == Stage::Detecting && event == Event::NoNote ==> transition(stage, event)
            == Stage::Accumulating,
{
}

/// Once stopped, the worker stays stopped whatever is reported.
pub proof fn lemma_stopped_is_final(event: Event)
    ensures
        transition(Stage::Stopped, event) == Stage::Stopped,
{
}

/// The stage reached from `stage` after observing `events` in order.
pub open spec fn run(stage: Stage, events: Seq<Event>) -> Stage
    decreases events.len(),
{
    if events.len() == 0 {
        stage
    } else {
        transition(run(stage, events.drop_last()), events.last())
    }
}

/// The events of `k` windows in which detection found nothing.
pub open spec fn silent_windows(k: nat) -> Seq<Event>
    decreases k,
{
    if k == 0 {
        Seq::empty()
    } else {
        silent_windows((k - 1) as nat) + seq![Event::WindowRead, Event::NoNote]
    }
}

/// Running two event sequences one after the other is running their
/// concatenation.
pub proof fn lemma_run_append(stage: Stage, a: Seq<Event>, b: Seq<Event>)
    ensures
        run(stage, a + b) == run(run(stage, a), b),
    decreases b.len(),
{
    if b.len() == 0 {
        assert(a + b =~= a);
    } else {
        lemma_run_append(stage, a, b.drop_last());
        assert((a + b).drop_last() =~= a + b.drop_last());
        assert((a + b).last() == b.last());
    }
}

/// One more event takes one more step of the state machine.
pub proof fn lemma_run_push(stage: Stage, events: Seq<Event>, e: Event)
    ensures
        run(stage, events.push(e)) == transition(run(stage, events), e),
{
    assert(events.push(e).drop_last() =~= events);
}

/// Any number of windows without a note leave the worker reading, never
/// stopped, at the end of each window.
pub proof fn lemma_silent_windows_keep_running(k: nat)
    ensures
        run(Stage::Accumulating, silent_windows(k)) == Stage::Accumulating,
    decreases k,
{
    if k > 0 {
        let pair = seq![Event::WindowRead, Event::NoNote];
        lemma_silent_windows_keep_running((k - 1) as nat);
        lemma_run_append(Stage::Accumulating, silent_windows((k - 1) as nat), pair);
        assert(pair =~= Seq::<Event>::empty().push(Event::WindowRead).push(Event::NoNote));
        lemma_run_push(Stage::Accumulating, Seq::<Event>::empty(), Event::WindowRead);
        lemma_run_push(Stage::Accumulating, Seq::<Event>::empty().push(Event::WindowRead), Event::NoNote);
    }
}

/// With the presentation side gone, the worker goes through any number of
/// windows without a note, then stops at the first note whose forward fails.
pub proof fn lemma_failed_forward_stops_after_silence(k: nat)
    ensures
        run(
            Stage::Accumulating,
            silent_windows(k) + seq![Event::WindowRead, Event::NoteFound],
        ) == Stage::Forwarding,
        run(
            Stage::Accumulating,
            silent_windows(k) + seq![Event::WindowRead, Event::NoteFound, Event::ForwardFailed],
        ) == Stage::Stopped,
{
    let found = seq![Event::WindowRead, Event::NoteFound];
    let failed = seq![Event::WindowRead, Event::NoteFound, Event::ForwardFailed];
    lemma_silent_windows_keep_running(k);
    lemma_run_append(Stage::Accumulating, silent_windows(k), found);
    lemma_run_append(Stage::Accumulating, silent_windows(k), failed);
    let read = Seq::<Event>::empty().push(Event::WindowRead);
    assert(found =~= read.push(Event::NoteFound));
    assert(failed =~= found.push(Event::ForwardFailed));
    lemma_run_push(Stage::Accumulating, Seq::<Event>::empty(), Event::WindowRead);
    lemma_run_push(Stage::Accumulating, read, Event::NoteFound);
    lemma_run_push(Stage::Accumulating, found, Event::ForwardFailed);
}

} // verus!
