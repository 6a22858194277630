//! The poll-render loop as a state machine: each state names the one thing
//! the driver does next, and `step` decides the following state from what
//! came back. The driver performs the queries, the drawing and the input
//! wait; every decision stands here.
use vstd::prelude::*;
use vstd::string::*;

use crate::num::Decimal;
use crate::query::{message_of, QueryError};
use crate::render::{render_error, render_reading, Reading, RenderedLine, Style};

verus! {

/// What the input wait produced: nothing within the timeout, a key press
/// with its character, or any other terminal event.
#[derive(Clone, Copy, PartialEq, Eq, Structural, Debug)]
pub enum InputEvent {
    TimedOut,
    Key { ch: char },
    Other,
}

/// Where the poll-render loop stands; each state names what the driver does
/// next.
#[derive(Debug)]
pub enum LoopState {
    /// Run the temperature query.
    QueryTemperature,
    /// Temperature arrived: run the load and model queries.
    QueryLoadModel { temperature: Decimal },
    /// Overwrite the previous line with this one.
    ShowLine { line: RenderedLine },
    /// Wait up to the poll interval for one input event.
    WaitInput,
    /// Restore the terminal and stop.
    Finished,
}

/// What the driver hands back to the loop in each state.
#[derive(Debug)]
pub enum LoopEvent {
    Temperature { result: Result<Decimal, QueryError> },
    LoadModel { load: Result<Decimal, QueryError>, model: Result<String, QueryError> },
    Drawn,
    Input { event: InputEvent },
}

/// The event answers the state's obligation.
pub open spec fn accepts(state: LoopState, event: LoopEvent) -> bool {
    match (state, event) {
        (LoopState::QueryTemperature, LoopEvent::Temperature { .. }) => true,
        (LoopState::QueryLoadModel { .. }, LoopEvent::LoadModel { .. }) => true,
        (LoopState::ShowLine { .. }, LoopEvent::Drawn) => true,
        (LoopState::WaitInput, LoopEvent::Input { .. }) => true,
        _ => false,
    }
}

/// Numbers held in a state are canonical.
pub open spec fn state_wf(state: LoopState) -> bool {
    match state {
        LoopState::QueryLoadModel { temperature } => temperature.wf(),
        _ => true,
    }
}

/// Numbers held in an event are canonical.
pub open spec fn event_wf(event: LoopEvent) -> bool {
    match event {
        LoopEvent::Temperature { result } => result matches Ok(d) ==> d.wf(),
        LoopEvent::LoadModel { load, model: _ } => load matches Ok(d) ==> d.wf(),
        _ => true,
    }
}

/// The load text a reading shows: the queried load, or zero when the load
/// query failed.
pub open spec fn load_text_of(load: Result<Decimal, QueryError>) -> Seq<char> {
    match load {
        Ok(d) => d.text(),
        Err(_) => seq!['0'],
    }
}

/// The model name a reading shows: the queried name, or "Unknown" when the
/// model query failed.
pub open spec fn model_text_of(model: Result<String, QueryError>) -> Seq<char> {
    match model {
        Ok(m) => m@,
        Err(_) => "Unknown"@,
    }
}

/// The line shows this reading, with the temperature piece highlighted
/// exactly when the temperature exceeds seventy degrees.
pub open spec fn is_reading_line(
    line: RenderedLine,
    model: Seq<char>,
    temperature: Decimal,
    load: Seq<char>,
) -> bool {
    &&& line.prefix@ == "GPU: "@ + model + " Temperature: "@
    &&& line.styled@ == temperature.text()
    &&& line.style == (if temperature.gt_seventy() {
        Style::Warning
    } else {
        Style::Plain
    })
    &&& line.suffix@ == " °C, Load: "@ + load + "%"@
}

/// The line shows this error.
pub open spec fn is_error_line(line: RenderedLine, e: QueryError) -> bool {
    &&& line.prefix@ == "Error: "@ + message_of(e)
    &&& line.styled@ == Seq::<char>::empty()
    &&& line.style == Style::Plain
    &&& line.suffix@ == Seq::<char>::empty()
}

/// The load a reading shows: a failed load query falls back to zero rather
/// than aborting the cycle.
pub fn resolve_load(load: Result<Decimal, QueryError>) -> (d: Decimal)
    requires
        load matches Ok(v) ==> v.wf(),
    ensures
        d.wf(),
        d.text() == load_text_of(load),
{
    match load {
        Ok(d) => d,
        Err(_) => Decimal::zero(),
    }
}

/// The model name a reading shows: a failed model query falls back to
/// "Unknown" rather than aborting the cycle.
pub fn resolve_model(model: Result<String, QueryError>) -> (m: String)
    ensures
        m@ == model_text_of(model),
{
    match model {
        Ok(m) => m,
        Err(_) => String::from_str("Unknown"),
    }
}

/// Advance the loop by one transition.
///
/// A failed temperature query goes straight to the error line, without the
/// load and model queries. A successful temperature proceeds to them, and
/// their failures only fall back. After drawing, the loop waits for input;
/// the key `q` finishes the loop within the cycle, while any other key, any
/// other event or the timeout returns it to polling.
pub fn step(state: LoopState, event: LoopEvent) -> (next: LoopState)
    requires
        accepts(state, event),
        state_wf(state),
        event_wf(event),
    ensures
        state_wf(next),
        match (state, event) {
            (_, LoopEvent::Temperature { result }) => match result {
                Ok(t) => next == (LoopState::QueryLoadModel { temperature: t }),
                Err(e) => next matches LoopState::ShowLine { line } && is_error_line(line, e),
            },
            (
                LoopState::QueryLoadModel { temperature },
                LoopEvent::LoadModel { load, model },
            ) => next matches LoopState::ShowLine { line } && is_reading_line(
                line,
                model_text_of(model),
                temperature,
                load_text_of(load),
            ),
            (_, LoopEvent::Drawn) => next == LoopState::WaitInput,
            (_, LoopEvent::Input { event: input }) => next == (if input == (InputEvent::Key {
                ch: 'q',
            }) {
                LoopState::Finished
            } else {
                LoopState::QueryTemperature
            }),
            _ => true,
        },
{
    match (state, event) {
        (_, LoopEvent::Temperature { result }) => match result {
            Ok(t) => LoopState::QueryLoadModel { temperature: t },
            Err(e) => LoopState::ShowLine { line: render_error(&e) },
        },
        (LoopState::QueryLoadModel { temperature }, LoopEvent::LoadModel { load, model }) => {
            let reading = Reading {
                model: resolve_model(model),
                temperature,
                load: resolve_load(load),
            };
            LoopState::ShowLine { line: render_reading(&reading) }
        },
        (_, LoopEvent::Drawn) => LoopState::WaitInput,
        (_, LoopEvent::Input { event: input }) => match input {
            InputEvent::Key { ch } => if ch == 'q' {
                LoopState::Finished
            } else {
                LoopState::QueryTemperature
            },
            _ => LoopState::QueryTemperature,
        },
        _ => vstd::pervasive::unreached(),
    }
}

} // verus!
