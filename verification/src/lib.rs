//! The session and synchronisation engine of a shared drawing board.
//!
//! Many clients draw lines on one canvas, and a server keeps their views of
//! it alike. This library holds the rules of that server, and of the client
//! as far as it takes part in them, each with a contract that Verus checks:
//!
//! - [`line`] and [`brush`]: points, lines and brushes as exact values, and
//!   what makes two lines the same line;
//! - [`message`]: the messages and their models;
//! - [`codec`]: the frame that carries a message on a stream;
//! - [`canvas`]: what each line message does to the canvas and how a request
//!   for synchronisation is answered, over a map as the model of the canvas;
//! - [`server`]: the canvas and the registry of sessions, kept in concurrent
//!   maps;
//! - [`session`]: the handshake, the listener and the sender of a session as
//!   steps from an event to an action, and the end of a session;
//! - [`client`]: what a client keeps of the board, and the steps of its
//!   connection;
//! - [`dash`] and [`ident`]: the calls into `dashmap` and `uuid`, which are
//!   the only statements of the library that are taken on trust.
//!
//! Coordinates and widths are numbers of 32 bits in IEEE-754 form. They are
//! kept as their bit patterns, so that all of the above is stated over
//! integers. Reading sockets, waiting and writing is left to the program
//! that runs the steps.
pub mod brush;
pub mod canvas;
pub mod client;
pub mod codec;
pub mod dash;
pub mod ident;
pub mod line;
pub mod message;
pub mod server;
pub mod session;

pub use brush::{
    Brush, BrushType, Color, PaintBrushes, StrokeStyle, TabType, BRUSH_TYPE_COUNT,
};
pub use canvas::CanvasOutcome;
pub use client::{
    connect_to_server, downlink_step, uplink_step, ClientView, DownlinkAction, Peer, Reaction,
    UplinkEvent,
};
pub use codec::{encode_frame, frame_length, read_from_stream, FramingError, MAX_FRAME_LENGTH};
pub use ident::ClientIdentificator;
pub use line::LinePos;
pub use message::{LineData, LineSyncType, Message, MessageType, PointerProperties};
pub use server::{Client, PeerAddress, ServerState};
pub use session::{
    listen_for_message, relay_message, Handshake, ListenerAction, ListenerEvent, Phase, Roster,
    SenderAction, SenderEvent, Termination,
};
