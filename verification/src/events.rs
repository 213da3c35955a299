//! The plain form of a YAML parsing event, as the template parser and the
//! configuration loader consume it.

use vstd::prelude::*;

verus! {

/// A position reported by the YAML parser: byte offset, 1-based line,
/// 0-based column.
pub struct Mark {
    pub index: usize,
    pub line: usize,
    pub col: usize,
}

/// One parsing event. A scalar carries its text, whether its style was
/// plain, and whether it bore a tag.
pub enum EventKind {
    Nothing,
    StreamStart,
    StreamEnd,
    DocStart,
    DocEnd,
    Alias,
    Scalar(String, bool, bool),
    SeqStart,
    SeqEnd,
    MapStart,
    MapEnd,
}

pub struct RawEvent {
    pub kind: EventKind,
    pub mark: Mark,
}

/// The model of an event kind.
pub enum EventKindV {
    Nothing,
    StreamStart,
    StreamEnd,
    DocStart,
    DocEnd,
    Alias,
    Scalar(Seq<char>, bool, bool),
    SeqStart,
    SeqEnd,
    MapStart,
    MapEnd,
}

/// The model of an event: its kind and its position.
pub struct RawEventV {
    pub kind: EventKindV,
    pub index: int,
    pub line: int,
    pub col: int,
}

pub open spec fn event_kind_view(k: EventKind) -> EventKindV {
    match k {
        EventKind::Nothing => EventKindV::Nothing,
        EventKind::StreamStart => EventKindV::StreamStart,
        EventKind::StreamEnd => EventKindV::StreamEnd,
        EventKind::DocStart => EventKindV::DocStart,
        EventKind::DocEnd => EventKindV::DocEnd,
        EventKind::Alias => EventKindV::Alias,
        EventKind::Scalar(t, plain, tagged) => EventKindV::Scalar(t@, plain, tagged),
        EventKind::SeqStart => EventKindV::SeqStart,
        EventKind::SeqEnd => EventKindV::SeqEnd,
        EventKind::MapStart => EventKindV::MapStart,
        EventKind::MapEnd => EventKindV::MapEnd,
    }
}

pub open spec fn event_view(e: RawEvent) -> RawEventV {
    RawEventV {
        kind: event_kind_view(e.kind),
        index: e.mark.index as int,
        line: e.mark.line as int,
        col: e.mark.col as int,
    }
}

pub open spec fn events_view(es: Seq<RawEvent>) -> Seq<RawEventV> {
    Seq::new(es.len(), |i: int| event_view(es[i]))
}

/// A scanner failure: its message and the position it points at.
pub struct ScanIssue {
    pub mark: Mark,
    pub message: String,
}

/// The model of a scanner failure.
pub struct ScanIssueV {
    pub index: int,
    pub line: int,
    pub col: int,
    pub message: Seq<char>,
}

pub open spec fn issue_view(e: ScanIssue) -> ScanIssueV {
    ScanIssueV {
        index: e.mark.index as int,
        line: e.mark.line as int,
        col: e.mark.col as int,
        message: e.message@,
    }
}

} // verus!
