//! The state of a streamed rendering that is redrawn in place.
//!
//! A `Renderer` holds the text received so far and the number of rows that
//! the last drawing took. For each event of the stream, `on_event` decides
//! what the caller does with the terminal; after an `Action::Draw`, `redraw`
//! composes the block to write and records how far the cursor has to move up
//! before the next drawing. The caller owns the terminal and the stream, and
//! performs what the steps say.

use crate::rows::{count_cluster_rows, lemma_rows_of_cut_text, text_rows};
use crate::segment::{cluster_seqs, split_clusters};
use vstd::prelude::*;

verus! {

/// `String::push_str` of std appends the given slice to the string.
pub assume_specification[ String::push_str ](s: &mut String, string: &str)
    ensures
        final(s)@ == old(s)@ + string@,
;

/// Who owns the cursor.
#[derive(Clone, Copy, Debug, PartialEq, Eq, Structural)]
pub enum Phase {
    /// No event has arrived yet: the waiting animation owns the cursor.
    Waiting,
    /// The animation was stopped on the first event: the renderer owns the
    /// cursor.
    Streaming,
    /// The stream has ended: nothing more is consumed.
    Finished,
}

/// What the caller does after it has moved the cursor.
#[derive(Clone, Copy, Debug, PartialEq, Eq, Structural)]
pub enum Action {
    /// Nothing.
    Idle,
    /// Clear from the cursor down, then write the block that `redraw` gives.
    Draw,
    /// Stop reading the stream, restore the cursor and close the output.
    Finish,
    /// Report the transport error and leave with a failure.
    Abort,
}

/// What one event asks of the caller, in this order: stop the waiting
/// animation and make room, save the cursor and move it up, then act.
#[derive(Clone, Copy, Debug, PartialEq, Eq, Structural)]
pub struct Step {
    /// The animation still runs: stop it, wait until it has stopped, clear
    /// its line and make room for the block.
    pub stop_spinner: bool,
    /// Rows to move the cursor up, to the first row of the last drawing.
    pub move_up: u16,
    pub action: Action,
}

/// What the caller decoded from the data of a message.
#[derive(Debug)]
pub enum Payload {
    /// The data could not be decoded.
    Malformed,
    /// The data was decoded; it may carry no text.
    Delta(Option<String>),
}

/// One event of the stream.
#[derive(Debug)]
pub enum StreamEvent {
    /// The connection was opened.
    Opened,
    /// A message, with its raw data and what was decoded from it.
    Message { data: String, payload: Payload },
    /// The transport failed.
    Failed,
}

/// Why `redraw` composed no block.
#[derive(Clone, Copy, Debug, PartialEq, Eq, Structural)]
pub enum RedrawError {
    /// The renderer does not own the cursor.
    NotStreaming,
    /// The block takes more rows than a cursor movement can name.
    TooManyRows,
}

/// The renderer as contracts see it.
pub struct RendererView {
    /// The text received so far.
    pub buffer: Seq<char>,
    /// Rows that the next step moves the cursor up.
    pub move_up: nat,
    /// Text fragments received so far.
    pub response_units: nat,
    pub phase: Phase,
}

/// The text received so far, with what is needed to draw it over its last
/// drawing.
pub struct Renderer {
    changelog: String,
    lines_to_move_up: u16,
    response_tokens: usize,
    phase: Phase,
}

impl View for Renderer {
    type V = RendererView;

    closed spec fn view(&self) -> RendererView {
        RendererView {
            buffer: self.changelog@,
            move_up: self.lines_to_move_up as nat,
            response_units: self.response_tokens as nat,
            phase: self.phase,
        }
    }
}

/// The data that ends the stream.
pub open spec fn is_sentinel(data: Seq<char>) -> bool {
    data == "[DONE]"@
}

/// The event is the message that ends the stream.
pub open spec fn is_sentinel_event(event: StreamEvent) -> bool {
    match event {
        StreamEvent::Message { data, payload } => is_sentinel(data@),
        _ => false,
    }
}

/// The text that an event adds: that of a message that is not the sentinel
/// and whose data was decoded and carries text.
pub open spec fn delta_of(event: StreamEvent) -> Option<Seq<char>> {
    match event {
        StreamEvent::Message { data, payload } => if is_sentinel(data@) {
            None
        } else {
            match payload {
                Payload::Delta(Some(text)) => Some(text@),
                _ => None,
            }
        },
        _ => None,
    }
}

/// What an event asks for, while the stream is consumed.
pub open spec fn action_of(event: StreamEvent) -> Action {
    match event {
        StreamEvent::Opened => Action::Idle,
        StreamEvent::Failed => Action::Abort,
        StreamEvent::Message { data, payload } => if is_sentinel(data@) {
            Action::Finish
        } else {
            Action::Draw
        },
    }
}

/// The renderer before any event.
pub open spec fn initial_view() -> RendererView {
    RendererView { buffer: Seq::empty(), move_up: 0, response_units: 0, phase: Phase::Waiting }
}

/// The renderer after an event. Once finished it does not change. Before
/// that, the event's text is appended and counted, the rows to move up are
/// used up, and the sentinel or a failure finishes the stream.
pub open spec fn after_event(s: RendererView, event: StreamEvent) -> RendererView {
    if s.phase == Phase::Finished {
        s
    } else {
        RendererView {
            buffer: match delta_of(event) {
                Some(text) => s.buffer + text,
                None => s.buffer,
            },
            move_up: 0,
            response_units: match delta_of(event) {
                Some(text) => s.response_units + 1,
                None => s.response_units,
            },
            phase: match action_of(event) {
                Action::Finish | Action::Abort => Phase::Finished,
                _ => Phase::Streaming,
            },
        }
    }
}

/// What an event asks of the caller in state `s`.
pub open spec fn step_of(s: RendererView, event: StreamEvent) -> Step {
    if s.phase == Phase::Finished {
        Step { stop_spinner: false, move_up: 0, action: Action::Finish }
    } else {
        Step {
            stop_spinner: s.phase == Phase::Waiting,
            move_up: s.move_up as u16,
            action: action_of(event),
        }
    }
}

/// The renderer after a run of events.
pub open spec fn after_events(s: RendererView, events: Seq<StreamEvent>) -> RendererView
    decreases events.len(),
{
    if events.len() == 0 {
        s
    } else {
        after_event(after_events(s, events.drop_last()), events.last())
    }
}

/// The block that is written: the header, the text received so far, and a
/// line feed.
pub open spec fn block_text(header: Seq<char>, buffer: Seq<char>) -> Seq<char> {
    header + buffer + seq!['\n']
}

/// The renderer after it drew its block under `header` at `width` columns:
/// the cursor stands on the block's last row, one less than its rows below
/// the first.
pub open spec fn after_redraw(s: RendererView, header: Seq<char>, width: nat) -> RendererView {
    RendererView {
        move_up: (text_rows(block_text(header, s.buffer), width) - 1) as nat,
        ..s
    }
}

fn is_sentinel_data(data: &String) -> (b: bool)
    ensures
        b == is_sentinel(data@),
{
    let sentinel = "[DONE]".to_owned();
    data.eq(&sentinel)
}

impl Renderer {
    /// A renderer that has received nothing, while the animation runs.
    pub fn new() -> (r: Renderer)
        ensures
            r@ == initial_view(),
    {
        Renderer {
            changelog: String::new(),
            lines_to_move_up: 0,
            response_tokens: 0,
            phase: Phase::Waiting,
        }
    }

    /// The text received so far.
    pub fn changelog(&self) -> (text: &str)
        ensures
            text@ == self@.buffer,
    {
        self.changelog.as_str()
    }

    /// Rows that the next step moves the cursor up.
    pub fn lines_to_move_up(&self) -> (rows: u16)
        ensures
            rows as nat == self@.move_up,
    {
        self.lines_to_move_up
    }

    /// Text fragments received so far.
    pub fn response_tokens(&self) -> (units: usize)
        ensures
            units as nat == self@.response_units,
    {
        self.response_tokens
    }

    pub fn phase(&self) -> (phase: Phase)
        ensures
            phase == self@.phase,
    {
        self.phase
    }

    /// Takes one event of the stream and says what the caller does with the
    /// terminal. Where the event adds text, the count of fragments has to
    /// have room for one more.
    pub fn on_event(&mut self, event: &StreamEvent) -> (step: Step)
        requires
            old(self)@.phase != Phase::Finished && delta_of(*event).is_some() ==> old(
                self,
            )@.response_units < usize::MAX,
        ensures
            final(self)@ == after_event(old(self)@, *event),
            step == step_of(old(self)@, *event),
    {
        if self.phase == Phase::Finished {
            return Step { stop_spinner: false, move_up: 0, action: Action::Finish };
        }
        let stop_spinner = self.phase == Phase::Waiting;
        let move_up = self.lines_to_move_up;
        self.lines_to_move_up = 0;
        let action = match event {
            StreamEvent::Opened => {
                self.phase = Phase::Streaming;
                Action::Idle
            },
            StreamEvent::Failed => {
                self.phase = Phase::Finished;
                Action::Abort
            },
            StreamEvent::Message { data, payload } => {
                if is_sentinel_data(data) {
                    self.phase = Phase::Finished;
                    Action::Finish
                } else {
                    self.phase = Phase::Streaming;
                    match payload {
                        Payload::Delta(Some(text)) => {
                            self.changelog.push_str(text.as_str());
                            self.response_tokens = self.response_tokens + 1;
                        },
                        _ => {},
                    }
                    Action::Draw
                }
            },
        };
        Step { stop_spinner, move_up, action }
    }

    /// Composes the block to write under `header` and records the rows to
    /// move up before the next drawing, at `term_width` columns. While the
    /// renderer owns the cursor, a block of fewer than `u16::MAX` code
    /// points is always composed.
    pub fn redraw(&mut self, header: &str, term_width: usize) -> (block: Result<
        String,
        RedrawError,
    >)
        ensures
            old(self)@.phase == Phase::Streaming && block_text(header@, old(self)@.buffer).len()
                < u16::MAX ==> block.is_ok(),
            match block {
                Ok(text) => {
                    &&& old(self)@.phase == Phase::Streaming
                    &&& text@ == block_text(header@, old(self)@.buffer)
                    &&& text_rows(text@, term_width as nat) <= u16::MAX
                    &&& final(self)@ == after_redraw(old(self)@, header@, term_width as nat)
                },
                Err(RedrawError::NotStreaming) => {
                    &&& old(self)@.phase != Phase::Streaming
                    &&& final(self)@ == old(self)@
                },
                Err(RedrawError::TooManyRows) => {
                    &&& old(self)@.phase == Phase::Streaming
                    &&& text_rows(block_text(header@, old(self)@.buffer), term_width as nat)
                        > u16::MAX
                    &&& final(self)@ == old(self)@
                },
            },
    {
        if self.phase != Phase::Streaming {
            return Err(RedrawError::NotStreaming);
        }
        let mut text = String::new();
        text.push_str(header);
        text.push_str(self.changelog.as_str());
        text.push_str("\n");
        proof {
            reveal_strlit("\n");
            assert("\n"@ =~= seq!['\n']);
            assert(text@ =~= block_text(header@, self.changelog@));
        }
        let clusters = split_clusters(text.as_str());
        proof {
            lemma_rows_of_cut_text(text@, cluster_seqs(clusters@), term_width as nat);
        }
        match count_cluster_rows(&clusters, term_width) {
            Some(rows) => {
                self.lines_to_move_up = rows - 1;
                Ok(text)
            },
            None => Err(RedrawError::TooManyRows),
        }
    }
}

/// Before a drawing, the cursor moves up by the rows of the block drawn
/// last, less one: whatever the next event is, its step starts on the first
/// row of that block.
pub proof fn lemma_move_up_matches_last_block(
    s: RendererView,
    header: Seq<char>,
    width: nat,
    next: StreamEvent,
)
    requires
        s.phase == Phase::Streaming,
        text_rows(block_text(header, s.buffer), width) <= u16::MAX,
    ensures
        step_of(after_redraw(s, header, width), next).move_up as int == text_rows(
            block_text(header, s.buffer),
            width,
        ) - 1,
        after_event(after_redraw(s, header, width), next).move_up == 0,
{
    assert(block_text(header, s.buffer).len() > 0);
}

/// The animation is stopped exactly once: the step of the first event asks
/// for it, and after any event the animation no longer owns the cursor.
pub proof fn lemma_spinner_hands_over_once(s: RendererView, event: StreamEvent)
    ensures
        step_of(s, event).stop_spinner == (s.phase == Phase::Waiting),
        after_event(s, event).phase != Phase::Waiting,
        step_of(after_event(s, event), event).stop_spinner == false,
{
}

/// Once finished, the renderer stays as it is, whatever arrives.
pub proof fn lemma_finished_is_final(s: RendererView, later: Seq<StreamEvent>)
    requires
        s.phase == Phase::Finished,
    ensures
        after_events(s, later) == s,
    decreases later.len(),
{
    if later.len() > 0 {
        lemma_finished_is_final(s, later.drop_last());
    }
}

/// The sentinel ends the stream: its step is to finish, it adds nothing to
/// the text, and no later event adds anything either.
pub proof fn lemma_sentinel_ends_stream(
    s: RendererView,
    sentinel: StreamEvent,
    later: Seq<StreamEvent>,
)
    requires
        is_sentinel_event(sentinel),
    ensures
        step_of(s, sentinel).action == Action::Finish,
        after_event(s, sentinel).phase == Phase::Finished,
        after_event(s, sentinel).buffer == s.buffer,
        after_event(s, sentinel).response_units == s.response_units,
        after_events(after_event(s, sentinel), later).buffer == s.buffer,
        after_events(after_event(s, sentinel), later).response_units == s.response_units,
{
    lemma_finished_is_final(after_event(s, sentinel), later);
}

/// A message whose data could not be decoded leaves the text and the count
/// of fragments as they were.
pub proof fn lemma_malformed_payload_adds_nothing(s: RendererView, data: String)
    ensures
        after_event(s, StreamEvent::Message { data, payload: Payload::Malformed }).buffer
            == s.buffer,
        after_event(
            s,
            StreamEvent::Message { data, payload: Payload::Malformed },
        ).response_units == s.response_units,
{
}

} // verus!
