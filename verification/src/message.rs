//! The messages that clients and the server exchange, and their models.
use vstd::prelude::*;
use crate::brush::Brush;
use crate::line::{check_points, is_numeric_line, LinePos};

verus! {

/// Where a client's pointer is and what it would draw with.
#[derive(Clone, Copy, Debug, PartialEq, Eq, Structural)]
pub struct PointerProperties {
    pub pointer_pos: LinePos,
    pub brush: Brush,
}

/// What the server answers to a request for synchronisation.
#[derive(Clone, Debug, PartialEq, Eq)]
pub enum LineSyncType {
    /// Every line of the canvas.
    Full(Vec<(Vec<LinePos>, Brush)>),
    /// The one line that was asked for, if the canvas has it.
    Partial(Option<(Vec<LinePos>, Brush)>),
}

/// A line together with a change of its brush.
#[derive(Clone, Debug, PartialEq, Eq)]
pub struct LineData {
    pub line_pos2: Vec<LinePos>,
    pub line_modification: Option<Brush>,
}

/// The kinds of message and what each carries.
#[derive(Clone, Debug, PartialEq, Eq)]
pub enum MessageType {
    /// The names and identifiers of the clients that have joined.
    ClientList(Vec<(String, u128)>),
    /// The pointer of the sender.
    CursorPosition(PointerProperties),
    /// The name under which the sender joins.
    Connecting(String),
    /// The sender leaves.
    Disconnecting,
    /// Keeps an idle connection open.
    KeepAlive,
    /// A new line with its brush.
    AddLine(Vec<LinePos>, Brush),
    /// A new brush for a line, or its removal.
    ModifyLine(Vec<LinePos>, Option<Brush>),
    /// Asks for one line, or for the whole canvas.
    RequestSyncLine(Option<Vec<LinePos>>),
    /// The server's answer to `RequestSyncLine`.
    SyncLine(LineSyncType),
}

/// A message with the identifier of its sender.
#[derive(Clone, Debug, PartialEq, Eq)]
pub struct Message {
    /// The identifier of the sender.
    pub uuid: u128,
    /// What is said.
    pub msg_type: MessageType,
}

/// Model of a [`LineSyncType`].
pub enum SyncModel {
    Full(Seq<(Seq<LinePos>, Brush)>),
    Partial(Option<(Seq<LinePos>, Brush)>),
}

/// Model of a [`MessageType`].
pub enum PayloadModel {
    ClientList(Seq<(Seq<char>, u128)>),
    CursorPosition(PointerProperties),
    Connecting(Seq<char>),
    Disconnecting,
    KeepAlive,
    AddLine(Seq<LinePos>, Brush),
    ModifyLine(Seq<LinePos>, Option<Brush>),
    RequestSyncLine(Option<Seq<LinePos>>),
    SyncLine(SyncModel),
}

/// Model of a [`Message`].
pub struct MessageModel {
    pub uuid: u128,
    pub payload: PayloadModel,
}

/// Model of a list of lines with their brushes.
pub open spec fn lines_model(lines: Seq<(Vec<LinePos>, Brush)>) -> Seq<(Seq<LinePos>, Brush)> {
    Seq::new(lines.len(), |i: int| (lines[i].0@, lines[i].1))
}

/// Model of a list of names with identifiers.
pub open spec fn roster_model(roster: Seq<(String, u128)>) -> Seq<(Seq<char>, u128)> {
    Seq::new(roster.len(), |i: int| (roster[i].0@, roster[i].1))
}

impl View for LineSyncType {
    type V = SyncModel;

    open spec fn view(&self) -> SyncModel {
        match self {
            LineSyncType::Full(lines) => SyncModel::Full(lines_model(lines@)),
            LineSyncType::Partial(Some(line)) => SyncModel::Partial(Some((line.0@, line.1))),
            LineSyncType::Partial(None) => SyncModel::Partial(None),
        }
    }
}

impl View for MessageType {
    type V = PayloadModel;

    open spec fn view(&self) -> PayloadModel {
        match self {
            MessageType::ClientList(roster) => PayloadModel::ClientList(roster_model(roster@)),
            MessageType::CursorPosition(pointer) => PayloadModel::CursorPosition(*pointer),
            MessageType::Connecting(name) => PayloadModel::Connecting(name@),
            MessageType::Disconnecting => PayloadModel::Disconnecting,
            MessageType::KeepAlive => PayloadModel::KeepAlive,
            MessageType::AddLine(points, brush) => PayloadModel::AddLine(points@, *brush),
            MessageType::ModifyLine(points, change) => PayloadModel::ModifyLine(points@, *change),
            MessageType::RequestSyncLine(Some(points)) => PayloadModel::RequestSyncLine(
                Some(points@),
            ),
            MessageType::RequestSyncLine(None) => PayloadModel::RequestSyncLine(None),
            MessageType::SyncLine(answer) => PayloadModel::SyncLine(answer@),
        }
    }
}

impl View for Message {
    type V = MessageModel;

    open spec fn view(&self) -> MessageModel {
        MessageModel { uuid: self.uuid, payload: self.msg_type@ }
    }
}

/// Whether every point of every line of a list is a number.
pub open spec fn are_numeric_lines(lines: Seq<(Seq<LinePos>, Brush)>) -> bool {
    forall|i: int| 0 <= i < lines.len() ==> is_numeric_line((#[trigger] lines[i]).0)
}

/// Tests whether every point of every line of a list is a number.
pub fn check_lines(lines: &Vec<(Vec<LinePos>, Brush)>) -> (ok: bool)
    ensures
        ok == are_numeric_lines(lines_model(lines@)),
{
    let mut i: usize = 0;
    while i < lines.len()
        invariant
            0 <= i <= lines.len(),
            forall|j: int| 0 <= j < i ==> is_numeric_line((#[trigger] lines_model(lines@)[j]).0),
        decreases lines.len() - i,
    {
        if !check_points(&lines[i].0) {
            assert(!is_numeric_line(lines_model(lines@)[i as int].0));
            return false;
        }
        i += 1;
    }
    true
}

impl PayloadModel {
    /// Whether the message is one that can be read off the wire: every
    /// point of every line it carries is a number.
    pub open spec fn is_well_formed(self) -> bool {
        match self {
            PayloadModel::AddLine(points, _) => is_numeric_line(points),
            PayloadModel::ModifyLine(points, _) => is_numeric_line(points),
            PayloadModel::RequestSyncLine(Some(points)) => is_numeric_line(points),
            PayloadModel::SyncLine(SyncModel::Full(lines)) => are_numeric_lines(lines),
            PayloadModel::SyncLine(SyncModel::Partial(Some(line))) => is_numeric_line(line.0),
            _ => true,
        }
    }
}

impl MessageType {
    /// Tests whether the message is one that can be read off the wire.
    pub fn check(&self) -> (ok: bool)
        ensures
            ok == self@.is_well_formed(),
    {
        match self {
            MessageType::AddLine(points, _) => check_points(points),
            MessageType::ModifyLine(points, _) => check_points(points),
            MessageType::RequestSyncLine(Some(points)) => check_points(points),
            MessageType::SyncLine(LineSyncType::Full(lines)) => check_lines(lines),
            MessageType::SyncLine(LineSyncType::Partial(Some(line))) => check_points(&line.0),
            _ => true,
        }
    }
}

impl Message {
    /// A message of `uuid` that says `msg_type`.
    pub fn new(uuid: u128, msg_type: MessageType) -> (message: Message)
        ensures
            message.uuid == uuid,
            message.msg_type == msg_type,
    {
        Message { uuid, msg_type }
    }
}

} // verus!
