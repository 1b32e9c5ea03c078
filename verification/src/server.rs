//! The state of the server: the canvas and the registry of sessions.
use vstd::prelude::*;
use crate::brush::Brush;
use crate::canvas::{
    canvas_after, canvas_after_all, canvas_outcome, is_full_listing, is_sound_canvas,
    is_sync_answer, lemma_one_more_message, lemma_writer_keeps_canvas_sound, payloads,
    CanvasOutcome,
};
use crate::dash::{
    canvas_entries, canvas_get, canvas_insert, canvas_lookup, canvas_new, canvas_remove,
    canvas_snapshot, is_snapshot_of, registry_entries, registry_insert, registry_new,
    registry_remove, CanvasMap, CanvasModel, LineKey, PeerKey, RegistryMap,
};
use crate::ident::{uuid_text, uuid_to_string};
use crate::line::{
    canonical_line, check_line, key_of_line, lemma_line_of_key_round_trip, line_from_key,
    line_key, line_of_key, LinePos,
};
use crate::message::{lines_model, LineSyncType, MessageType};

verus! {

/// The address a client connects from.
#[derive(Clone, Copy, Debug, PartialEq, Eq, Hash, Structural)]
pub struct PeerAddress {
    /// The address of the host, as a 128-bit number.
    pub host: u128,
    /// The port on the host.
    pub port: u16,
}

impl PeerAddress {
    /// The pair under which the registry keeps the address.
    pub open spec fn key(self) -> PeerKey {
        (self.host, self.port)
    }

    /// The pair under which the registry keeps the address.
    pub fn to_key(&self) -> (key: PeerKey)
        ensures
            key == self.key(),
    {
        (self.host, self.port)
    }
}

/// A client as the registry records it.
#[derive(Clone, Debug, PartialEq, Eq)]
pub struct Client {
    /// The identifier of the client, written out.
    pub uuid: String,
}

impl Client {
    /// The record of the client with the identifier `id`.
    pub fn new(id: u128) -> (client: Client)
        ensures
            client.uuid@ == uuid_text(id),
    {
        Client { uuid: uuid_to_string(id) }
    }
}

/// The canvas and the registry of the server.
pub struct ServerState {
    client_list: RegistryMap,
    canvas: CanvasMap,
}

impl ServerState {
    /// The canvas: the brush of each line, by the line's identity.
    pub closed spec fn lines(&self) -> CanvasModel {
        canvas_entries(self.canvas)
    }

    /// The registry: the written identifier of the client at each address.
    pub closed spec fn sessions(&self) -> Map<PeerAddress, Seq<char>> {
        Map::new(
            |address: PeerAddress| registry_entries(self.client_list).contains_key(address.key()),
            |address: PeerAddress| registry_entries(self.client_list)[address.key()].uuid@,
        )
    }

    /// The invariant of the state: the canvas is sound.
    pub open spec fn wf(&self) -> bool {
        is_sound_canvas(self.lines())
    }

    /// A server with an empty canvas and no session.
    pub fn new() -> (state: ServerState)
        ensures
            state.wf(),
            state.lines() == CanvasModel::empty(),
            state.sessions() == Map::<PeerAddress, Seq<char>>::empty(),
    {
        let state = ServerState { client_list: registry_new(), canvas: canvas_new() };
        assert(state.sessions() =~= Map::<PeerAddress, Seq<char>>::empty());
        state
    }

    /// The canvas writer: takes one message and changes the canvas as the
    /// message asks. A line is added or replaces an equal line; a change of
    /// brush reaches only a line that is there; a removal takes the line out
    /// if it is there. Whatever may not be kept is turned away and changes
    /// nothing.
    pub fn apply(&mut self, message: &MessageType) -> (outcome: CanvasOutcome)
        requires
            old(self).wf(),
        ensures
            final(self).wf(),
            final(self).lines() == canvas_after(old(self).lines(), message@),
            outcome == canvas_outcome(old(self).lines(), message@),
            final(self).sessions() == old(self).sessions(),
    {
        proof {
            lemma_writer_keeps_canvas_sound(self.lines(), message@);
        }
        match message {
            MessageType::AddLine(points, brush) => {
                if check_line(points) && brush.check() {
                    let key = key_of_line(points);
                    let _ = canvas_insert(&mut self.canvas, key, *brush);
                    CanvasOutcome::Stored
                } else {
                    CanvasOutcome::Rejected
                }
            },
            MessageType::ModifyLine(points, Some(brush)) => {
                let key = key_of_line(points);
                match canvas_get(&self.canvas, &key) {
                    Some(_) => {
                        if brush.check() {
                            let _ = canvas_insert(&mut self.canvas, key, *brush);
                            CanvasOutcome::Updated
                        } else {
                            CanvasOutcome::Rejected
                        }
                    },
                    None => CanvasOutcome::Desync,
                }
            },
            MessageType::ModifyLine(points, None) => {
                let key = key_of_line(points);
                match canvas_remove(&mut self.canvas, &key) {
                    Some(_) => CanvasOutcome::Removed,
                    None => CanvasOutcome::Missing,
                }
            },
            _ => CanvasOutcome::Ignored,
        }
    }

    /// The canvas writer on a queue: takes the messages one by one, the
    /// first first, and reports what it did with each.
    pub fn apply_all(&mut self, messages: &Vec<MessageType>) -> (outcomes: Vec<CanvasOutcome>)
        requires
            old(self).wf(),
        ensures
            final(self).wf(),
            final(self).lines() == canvas_after_all(old(self).lines(), payloads(messages@)),
            final(self).sessions() == old(self).sessions(),
            outcomes@.len() == messages@.len(),
            forall|i: int|
                0 <= i < messages@.len() ==> #[trigger] outcomes@[i] == canvas_outcome(
                    canvas_after_all(old(self).lines(), payloads(messages@).take(i)),
                    messages@[i]@,
                ),
    {
        let mut outcomes: Vec<CanvasOutcome> = Vec::new();
        let mut i: usize = 0;
        assert(payloads(messages@).take(0) =~= Seq::<crate::message::PayloadModel>::empty());
        while i < messages.len()
            invariant
                0 <= i <= messages.len(),
                self.wf(),
                self.lines() == canvas_after_all(old(self).lines(), payloads(messages@).take(i as int)),
                self.sessions() == old(self).sessions(),
                outcomes@.len() == i,
                forall|j: int|
                    0 <= j < i ==> #[trigger] outcomes@[j] == canvas_outcome(
                        canvas_after_all(old(self).lines(), payloads(messages@).take(j)),
                        messages@[j]@,
                    ),
            decreases messages.len() - i,
        {
            let outcome = self.apply(&messages[i]);
            outcomes.push(outcome);
            proof {
                let all = payloads(messages@);
                assert(all.take(i + 1) =~= all.take(i as int).push(messages@[i as int]@));
                lemma_one_more_message(old(self).lines(), all.take(i as int), messages@[i as int]@);
            }
            i += 1;
        }
        assert(payloads(messages@).take(i as int) =~= payloads(messages@));
        outcomes
    }

    /// The brush of a line, if the canvas has the line.
    pub fn get(&self, points: &Vec<LinePos>) -> (brush: Option<Brush>)
        ensures
            brush == canvas_lookup(self.lines(), line_key(points@)),
    {
        let key = key_of_line(points);
        canvas_get(&self.canvas, &key)
    }

    /// Every line of the canvas with its brush, in an order that is not
    /// fixed.
    pub fn snapshot(&self) -> (listing: Vec<(Vec<LinePos>, Brush)>)
        requires
            self.wf(),
        ensures
            is_full_listing(lines_model(listing@), self.lines()),
    {
        let entries = canvas_snapshot(&self.canvas);
        let ghost model = self.lines();
        let mut listing: Vec<(Vec<LinePos>, Brush)> = Vec::new();
        let mut i: usize = 0;
        while i < entries.len()
            invariant
                0 <= i <= entries.len(),
                is_snapshot_of(entries@, model),
                is_sound_canvas(model),
                listing@.len() == i,
                forall|j: int|
                    0 <= j < i ==> (#[trigger] listing@[j]).0@ == line_of_key(entries@[j].0@)
                        && listing@[j].1 == entries@[j].1,
            decreases entries.len() - i,
        {
            let points = line_from_key(&entries[i].0);
            listing.push((points, entries[i].1));
            i += 1;
        }
        proof {
            lemma_snapshot_is_full_listing(entries@, lines_model(listing@), model);
        }
        listing
    }

    /// The sync coordinator: answers a request for the whole canvas with
    /// every line, and a request for one line with that line, or with
    /// nothing where the canvas does not have it. The canvas is only read.
    pub fn sync(&self, selector: &Option<Vec<LinePos>>) -> (answer: LineSyncType)
        requires
            self.wf(),
        ensures
            is_sync_answer(
                self.lines(),
                match selector {
                    Some(points) => Some(points@),
                    None => None,
                },
                answer@,
            ),
    {
        match selector {
            None => LineSyncType::Full(self.snapshot()),
            Some(points) => {
                let key = key_of_line(points);
                match canvas_get(&self.canvas, &key) {
                    Some(brush) => {
                        let spelled = line_from_key(&key);
                        LineSyncType::Partial(Some((spelled, brush)))
                    },
                    None => LineSyncType::Partial(None),
                }
            },
        }
    }

    /// Records the session of the client `id` at `address`, in place of any
    /// session recorded there before.
    pub fn register(&mut self, address: PeerAddress, id: u128)
        ensures
            final(self).sessions() == old(self).sessions().insert(address, uuid_text(id)),
            final(self).lines() == old(self).lines(),
    {
        let _ = registry_insert(&mut self.client_list, address.to_key(), Client::new(id));
        assert(self.sessions() =~= old(self).sessions().insert(address, uuid_text(id))) by {
            assert forall|a: PeerAddress| a.key() == address.key() implies a == address by {}
        }
    }

    /// Takes the session at `address` out of the registry, and says whether
    /// there was one: a session is removed once, a second removal finds none.
    pub fn unregister(&mut self, address: PeerAddress) -> (removed: bool)
        ensures
            removed == old(self).sessions().contains_key(address),
            final(self).sessions() == old(self).sessions().remove(address),
            final(self).lines() == old(self).lines(),
    {
        let previous = registry_remove(&mut self.client_list, address.to_key());
        assert(self.sessions() =~= old(self).sessions().remove(address)) by {
            assert forall|a: PeerAddress| a.key() == address.key() implies a == address by {}
        }
        previous.is_some()
    }
}

/// What `DashMap` lists of a sound canvas, each key spelled out as a line,
/// is the whole canvas.
proof fn lemma_snapshot_is_full_listing(
    entries: Seq<(LineKey, Brush)>,
    listing: Seq<(Seq<LinePos>, Brush)>,
    model: CanvasModel,
)
    requires
        is_snapshot_of(entries, model),
        is_sound_canvas(model),
        listing.len() == entries.len(),
        forall|j: int|
            0 <= j < entries.len() ==> (#[trigger] listing[j]).0 == line_of_key(entries[j].0@)
                && listing[j].1 == entries[j].1,
    ensures
        is_full_listing(listing, model),
{
    let keys = Seq::new(entries.len(), |i: int| entries[i].0@);
    assert forall|i: int| 0 <= i < listing.len() implies line_key((#[trigger] listing[i]).0)
        == keys[i] && canonical_line(listing[i].0) == listing[i].0 by {
        assert(model.contains_key(entries[i].0@));
        lemma_line_of_key_round_trip(entries[i].0@);
    }
    assert(keys.no_duplicates());
    keys.unique_seq_to_set();
    assert(keys.to_set() =~= model.dom()) by {
        assert forall|k: Seq<(u32, u32)>| keys.to_set().contains(k) implies model.dom().contains(
            k,
        ) by {
            let i = choose|i: int| 0 <= i < keys.len() && keys[i] == k;
            assert(model.contains_key(entries[i].0@));
        }
        assert forall|k: Seq<(u32, u32)>| model.dom().contains(k) implies keys.to_set().contains(
            k,
        ) by {
            let i = choose|i: int| 0 <= i < entries.len() && (#[trigger] entries[i]).0@ == k;
            assert(keys[i] == k);
        }
    }
    assert forall|k: Seq<(u32, u32)>| #[trigger] model.contains_key(k) implies exists|i: int|
        0 <= i < listing.len() && line_key((#[trigger] listing[i]).0) == k by {
        let i = choose|i: int| 0 <= i < entries.len() && (#[trigger] entries[i]).0@ == k;
        assert(line_key(listing[i].0) == keys[i]);
    }
}

} // verus!
