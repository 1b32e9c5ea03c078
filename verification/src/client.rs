//! What a client keeps of the shared board: who else is there and which
//! lines are drawn, brought up to date by the messages of the server.
use std::collections::HashMap;
use vstd::prelude::*;
use crate::brush::{Brush, BrushType, Color};
use crate::canvas::is_sync_answer;
use crate::dash::CanvasModel;
use crate::line::{
    canonical, canonical_line, is_nan, lemma_canonical_line_keeps_key, line_key, same_line,
    LinePos,
};
use crate::message::{
    lines_model, roster_model, LineSyncType, Message, MessageModel, MessageType, PayloadModel,
    PointerProperties, SyncModel,
};
use crate::session::{ListenerEvent, Phase, SenderAction, Termination};

verus! {

broadcast use vstd::std_specs::hash::group_hash_axioms;

/// The pointer of a client that has not moved it yet.
pub open spec fn default_pointer() -> PointerProperties {
    PointerProperties {
        pointer_pos: LinePos { x: 0, y: 0 },
        brush: Brush { width: 0, color: Color::spec_transparent(), kind: BrushType::Marker },
    }
}

impl Default for PointerProperties {
    /// The pointer at the origin, with a marker of no width and no colour.
    fn default() -> (pointer: PointerProperties)
        ensures
            pointer == default_pointer(),
    {
        PointerProperties {
            pointer_pos: LinePos { x: 0, y: 0 },
            brush: Brush { width: 0, color: Color::transparent(), kind: BrushType::Marker },
        }
    }
}

/// Another client on the board.
#[derive(Clone, Debug, PartialEq, Eq)]
pub struct Peer {
    pub name: String,
    pub pointer: PointerProperties,
}

/// Model of a [`Peer`].
pub struct PeerModel {
    pub name: Seq<char>,
    pub pointer: PointerProperties,
}

impl View for Peer {
    type V = PeerModel;

    open spec fn view(&self) -> PeerModel {
        PeerModel { name: self.name@, pointer: self.pointer }
    }
}

/// What the client does after a message of the server.
#[derive(Clone, Debug, PartialEq, Eq)]
pub enum Reaction {
    /// Nothing more.
    Nothing,
    /// Send this request to the server.
    Request(MessageType),
    /// Record that the client had asked about a line the canvas does not
    /// have; the copy that the client held of it, if any, is gone.
    Desync,
    /// The message is one that only a client sends; it is passed over.
    Unexpected,
}

/// Whether two brushes are equal as numbers and colours: the widths name
/// the same number, and colour and kind agree.
pub open spec fn same_brush(a: Brush, b: Brush) -> bool {
    &&& !is_nan(a.width)
    &&& !is_nan(b.width)
    &&& canonical(a.width) == canonical(b.width)
    &&& a.color == b.color
    &&& a.kind == b.kind
}

/// The peers that a roster announces: one for each identifier, under the
/// name that the roster gives it last, with a pointer that has not moved.
pub open spec fn peers_of_roster(roster: Seq<(Seq<char>, u128)>) -> Map<u128, PeerModel>
    decreases roster.len(),
{
    if roster.len() == 0 {
        Map::empty()
    } else {
        peers_of_roster(roster.drop_last()).insert(
            roster.last().1,
            PeerModel { name: roster.last().0, pointer: default_pointer() },
        )
    }
}

/// The peers after a message.
pub open spec fn peers_after(peers: Map<u128, PeerModel>, message: MessageModel) -> Map<
    u128,
    PeerModel,
> {
    match message.payload {
        PayloadModel::ClientList(roster) => peers_of_roster(roster),
        PayloadModel::CursorPosition(pointer) => if peers.contains_key(message.uuid) {
            peers.insert(
                message.uuid,
                PeerModel { name: peers[message.uuid].name, pointer },
            )
        } else {
            peers
        },
        PayloadModel::Connecting(name) => peers.insert(
            message.uuid,
            PeerModel { name, pointer: default_pointer() },
        ),
        PayloadModel::Disconnecting => peers.remove(message.uuid),
        _ => peers,
    }
}

/// The place of the first line of `lines` that is the line `points`, or
/// the length of `lines` where none is.
pub open spec fn find_line(lines: Seq<(Seq<LinePos>, Brush)>, points: Seq<LinePos>) -> int
    decreases lines.len(),
{
    if lines.len() == 0 {
        0
    } else if line_key(lines[0].0) == line_key(points) {
        0
    } else {
        1 + find_line(lines.drop_first(), points)
    }
}

/// Whether `lines` has the line `points` with a brush equal to `brush`.
pub open spec fn has_line_with_brush(
    lines: Seq<(Seq<LinePos>, Brush)>,
    points: Seq<LinePos>,
    brush: Brush,
) -> bool {
    exists|i: int|
        0 <= i < lines.len() && line_key((#[trigger] lines[i]).0) == line_key(points)
            && same_brush(lines[i].1, brush)
}

/// The lines without the first line that is the line `points`: that line is
/// taken out and the last line put in its place. Where no line is the line
/// `points`, the lines as they are.
pub open spec fn take_out(lines: Seq<(Seq<LinePos>, Brush)>, points: Seq<LinePos>) -> Seq<
    (Seq<LinePos>, Brush),
> {
    let at = find_line(lines, points);
    if at >= lines.len() {
        lines
    } else {
        lines.update(at, lines.last()).drop_last()
    }
}

/// The lines after a message, where `asked` are the lines that the client
/// has asked the server about and has no answer for yet, the oldest first,
/// and `current` is the brush that the user holds.
///
/// A line that the server announces is taken over unless the client has it
/// with the same brush, and a fresh stroke is opened behind it. A change
/// reaches the first line that is equal to the one named: its brush is
/// replaced, or the line is taken out. A full answer replaces all lines. A
/// partial answer answers the oldest question: with a line, it adds that
/// line; without one, the canvas has no such line, and the copy that the
/// client may hold of the line it asked about is taken out.
pub open spec fn lines_after(
    lines: Seq<(Seq<LinePos>, Brush)>,
    asked: Seq<Seq<LinePos>>,
    message: PayloadModel,
    current: Brush,
) -> Seq<(Seq<LinePos>, Brush)> {
    match message {
        PayloadModel::AddLine(points, brush) => if has_line_with_brush(lines, points, brush) {
            lines
        } else {
            lines.push((points, brush)).push((Seq::empty(), current))
        },
        PayloadModel::ModifyLine(points, Some(brush)) => {
            let at = find_line(lines, points);
            if at >= lines.len() {
                lines
            } else {
                lines.update(at, (lines[at].0, brush))
            }
        },
        PayloadModel::ModifyLine(points, None) => take_out(lines, points),
        PayloadModel::SyncLine(SyncModel::Full(all)) => all,
        PayloadModel::SyncLine(SyncModel::Partial(Some(line))) => lines.push(line),
        PayloadModel::SyncLine(SyncModel::Partial(None)) => if asked.len() > 0 {
            take_out(lines, asked[0])
        } else {
            lines
        },
        _ => lines,
    }
}

/// The lines that the client has asked about and has no answer for yet,
/// after a message: a change to a line that the client does not have adds
/// that line as the newest question, and a partial answer settles the
/// oldest.
pub open spec fn asked_after(
    lines: Seq<(Seq<LinePos>, Brush)>,
    asked: Seq<Seq<LinePos>>,
    message: PayloadModel,
) -> Seq<Seq<LinePos>> {
    match message {
        PayloadModel::ModifyLine(points, _) => if find_line(lines, points) >= lines.len() {
            asked.push(points)
        } else {
            asked
        },
        PayloadModel::SyncLine(SyncModel::Partial(_)) => if asked.len() > 0 {
            asked.drop_first()
        } else {
            asked
        },
        _ => asked,
    }
}

/// What the client does after a message: it asks the server about a line
/// that a change names and that it does not have.
pub open spec fn is_reaction(
    lines: Seq<(Seq<LinePos>, Brush)>,
    message: PayloadModel,
    reaction: Reaction,
) -> bool {
    match message {
        PayloadModel::ModifyLine(points, _) => if find_line(lines, points) >= lines.len() {
            reaction matches Reaction::Request(request) && request@
                == PayloadModel::RequestSyncLine(Some(points))
        } else {
            reaction == Reaction::Nothing
        },
        PayloadModel::SyncLine(SyncModel::Partial(None)) => reaction == Reaction::Desync,
        PayloadModel::RequestSyncLine(_) => reaction == Reaction::Unexpected,
        _ => reaction == Reaction::Nothing,
    }
}

/// Whether the client has the line with the identity `key`, with `brush`.
pub open spec fn shows(lines: Seq<(Seq<LinePos>, Brush)>, key: Seq<(u32, u32)>, brush: Brush) -> bool {
    exists|i: int| 0 <= i < lines.len() && line_key((#[trigger] lines[i]).0) == key && lines[i].1
        == brush
}

/// A client that takes the answer to its request for the whole canvas
/// shows what the canvas holds and nothing else, whatever it showed
/// before.
pub proof fn lemma_full_sync_heals(
    canvas: CanvasModel,
    answer: SyncModel,
    before: Seq<(Seq<LinePos>, Brush)>,
    asked: Seq<Seq<LinePos>>,
    current: Brush,
)
    requires
        is_sync_answer(canvas, None, answer),
    ensures
        ({
            let after = lines_after(before, asked, PayloadModel::SyncLine(answer), current);
            &&& after.len() == canvas.dom().len()
            &&& forall|key: Seq<(u32, u32)>, brush: Brush|
                canvas.contains_pair(key, brush) <==> #[trigger] shows(after, key, brush)
        }),
{
    let after = lines_after(before, asked, PayloadModel::SyncLine(answer), current);
    assert forall|key: Seq<(u32, u32)>, brush: Brush| canvas.contains_pair(key, brush) implies
        #[trigger] shows(after, key, brush) by {
        let i = choose|i: int| 0 <= i < after.len() && line_key((#[trigger] after[i]).0) == key;
        assert(canvas.contains_pair(line_key(after[i].0), after[i].1));
    }
    assert forall|key: Seq<(u32, u32)>, brush: Brush| #[trigger]
        shows(after, key, brush) implies canvas.contains_pair(key, brush) by {
        let i = choose|i: int|
            0 <= i < after.len() && line_key((#[trigger] after[i]).0) == key && after[i].1
                == brush;
        assert(canvas.contains_pair(line_key(after[i].0), after[i].1));
    }
}

/// A client that hears of a change to a line it does not have asks the
/// server for that line and remembers the question; once it takes the
/// answer the question is settled, and the client shows the line with the
/// brush the canvas has for it, or, where the canvas has no such line,
/// does not show it.
pub proof fn lemma_partial_sync_heals(
    canvas: CanvasModel,
    points: Seq<LinePos>,
    change: Option<Brush>,
    answer: SyncModel,
    before: Seq<(Seq<LinePos>, Brush)>,
    reaction: Reaction,
    current: Brush,
)
    requires
        find_line(before, points) >= before.len(),
        is_reaction(before, PayloadModel::ModifyLine(points, change), reaction),
        is_sync_answer(canvas, Some(points), answer),
    ensures
        reaction matches Reaction::Request(request) && request@ == PayloadModel::RequestSyncLine(
            Some(points),
        ),
        ({
            let heard = PayloadModel::ModifyLine(points, change);
            let asking = asked_after(before, Seq::empty(), heard);
            let waiting = lines_after(before, Seq::empty(), heard, current);
            let answered = PayloadModel::SyncLine(answer);
            let after = lines_after(waiting, asking, answered, current);
            &&& asking == seq![points]
            &&& waiting == before
            &&& asked_after(waiting, asking, answered) == Seq::<Seq<LinePos>>::empty()
            &&& if canvas.contains_key(line_key(points)) {
                &&& shows(after, line_key(points), canvas[line_key(points)])
                &&& find_line(after, points) == before.len()
            } else {
                &&& after == before
                &&& find_line(after, points) >= after.len()
                &&& is_reaction(waiting, answered, Reaction::Desync)
            }
        }),
{
    let heard = PayloadModel::ModifyLine(points, change);
    let asking = asked_after(before, Seq::empty(), heard);
    let waiting = lines_after(before, Seq::empty(), heard, current);
    let after = lines_after(waiting, asking, PayloadModel::SyncLine(answer), current);
    assert(asking =~= seq![points]);
    assert(asking.drop_first() =~= Seq::<Seq<LinePos>>::empty());
    if canvas.contains_key(line_key(points)) {
        lemma_canonical_line_keeps_key(points);
        assert(after == before.push((canonical_line(points), canvas[line_key(points)])));
        assert(line_key(after[before.len() as int].0) == line_key(points));
        lemma_find_line_absent(before, points);
        assert forall|j: int| 0 <= j < before.len() implies line_key((#[trigger] after[j]).0)
            != line_key(points) by {
            assert(after[j] == before[j]);
        }
        lemma_find_line(after, points, before.len() as int);
    }
}

/// A client that is told that the canvas does not have the line it asked
/// about drops its own copy of that line: where it held the line once, it
/// holds it no more.
pub proof fn lemma_stale_copy_is_dropped(
    canvas: CanvasModel,
    answer: SyncModel,
    lines: Seq<(Seq<LinePos>, Brush)>,
    asked: Seq<Seq<LinePos>>,
    current: Brush,
)
    requires
        asked.len() > 0,
        !canvas.contains_key(line_key(asked[0])),
        is_sync_answer(canvas, Some(asked[0]), answer),
        forall|j: int|
            0 <= j < lines.len() && j != find_line(lines, asked[0]) ==> line_key(
                (#[trigger] lines[j]).0,
            ) != line_key(asked[0]),
    ensures
        ({
            let answered = PayloadModel::SyncLine(answer);
            let after = lines_after(lines, asked, answered, current);
            &&& after == take_out(lines, asked[0])
            &&& asked_after(lines, asked, answered) == asked.drop_first()
            &&& is_reaction(lines, answered, Reaction::Desync)
            &&& forall|j: int|
                0 <= j < after.len() ==> line_key((#[trigger] after[j]).0) != line_key(asked[0])
        }),
{
    let points = asked[0];
    let after = lines_after(lines, asked, PayloadModel::SyncLine(answer), current);
    let at = find_line(lines, points);
    lemma_find_line_bounded(lines, points);
    assert forall|j: int| 0 <= j < after.len() implies line_key((#[trigger] after[j]).0)
        != line_key(points) by {
        if at < lines.len() {
            if j == at {
                assert(after[j] == lines[lines.len() - 1]);
            } else {
                assert(after[j] == lines[j]);
            }
        } else {
            assert(after[j] == lines[j]);
        }
    }
}

/// Where `find_line` finds nothing, no line of the list is the line
/// `points`.
pub proof fn lemma_find_line_absent(lines: Seq<(Seq<LinePos>, Brush)>, points: Seq<LinePos>)
    requires
        find_line(lines, points) >= lines.len(),
    ensures
        forall|j: int| 0 <= j < lines.len() ==> line_key((#[trigger] lines[j]).0) != line_key(points),
    decreases lines.len(),
{
    if lines.len() > 0 {
        let rest = lines.drop_first();
        lemma_find_line_bounded(rest, points);
        lemma_find_line_absent(rest, points);
        assert forall|j: int| 0 <= j < lines.len() implies line_key((#[trigger] lines[j]).0)
            != line_key(points) by {
            if j > 0 {
                assert(rest[j - 1] == lines[j]);
            }
        }
    }
}

/// `find_line` is a place of the list or its length.
pub proof fn lemma_find_line_bounded(lines: Seq<(Seq<LinePos>, Brush)>, points: Seq<LinePos>)
    ensures
        0 <= find_line(lines, points) <= lines.len(),
    decreases lines.len(),
{
    if lines.len() > 0 {
        lemma_find_line_bounded(lines.drop_first(), points);
    }
}

/// `find_line` is the first place whose line is the line `points`.
pub proof fn lemma_find_line(lines: Seq<(Seq<LinePos>, Brush)>, points: Seq<LinePos>, at: int)
    requires
        0 <= at <= lines.len(),
        forall|j: int| 0 <= j < at ==> line_key((#[trigger] lines[j]).0) != line_key(points),
        at < lines.len() ==> line_key(lines[at].0) == line_key(points),
    ensures
        find_line(lines, points) == at,
    decreases lines.len(),
{
    if lines.len() > 0 && at > 0 {
        assert(line_key(lines[0].0) != line_key(points));
        let rest = lines.drop_first();
        assert forall|j: int| 0 <= j < at - 1 implies line_key((#[trigger] rest[j]).0) != line_key(
            points,
        ) by {
            assert(rest[j] == lines[j + 1]);
        }
        if at < lines.len() {
            assert(rest[at - 1] == lines[at]);
        }
        lemma_find_line(rest, points, at - 1);
    }
}

impl Brush {
    /// Whether the two brushes are equal as numbers and colours.
    pub fn same_as(&self, other: &Brush) -> (same: bool)
        ensures
            same == same_brush(*self, *other),
    {
        !crate::line::coordinate_is_nan(self.width) && !crate::line::coordinate_is_nan(
            other.width,
        ) && crate::line::canonical_coordinate(self.width) == crate::line::canonical_coordinate(
            other.width,
        ) && self.color == other.color && self.kind == other.kind
    }
}

/// The models of the peers of a map.
pub open spec fn peers_model(peers: Map<u128, Peer>) -> Map<u128, PeerModel> {
    Map::new(|id: u128| peers.contains_key(id), |id: u128| peers[id]@)
}

/// The models of a list of lines without brushes.
pub open spec fn asked_model(asked: Seq<Vec<LinePos>>) -> Seq<Seq<LinePos>> {
    Seq::new(asked.len(), |i: int| asked[i]@)
}

/// What a client keeps of the board.
pub struct ClientView {
    peers: HashMap<u128, Peer>,
    lines: Vec<(Vec<LinePos>, Brush)>,
    /// The lines that the client has asked the server about and has no
    /// answer for yet, the oldest first.
    asked: Vec<Vec<LinePos>>,
}

impl ClientView {
    /// The other clients, by identifier.
    pub closed spec fn peers(&self) -> Map<u128, PeerModel> {
        peers_model(self.peers@)
    }

    /// The lines, in the order in which the client keeps them.
    pub closed spec fn lines(&self) -> Seq<(Seq<LinePos>, Brush)> {
        lines_model(self.lines@)
    }

    /// The lines that the client has asked the server about and has no
    /// answer for yet, the oldest first.
    pub closed spec fn asked(&self) -> Seq<Seq<LinePos>> {
        asked_model(self.asked@)
    }

    /// The view of a client that has just connected: nobody, and nothing
    /// drawn.
    pub fn new() -> (view: ClientView)
        ensures
            view.peers() == Map::<u128, PeerModel>::empty(),
            view.lines() == Seq::<(Seq<LinePos>, Brush)>::empty(),
            view.asked() == Seq::<Seq<LinePos>>::empty(),
    {
        let view = ClientView { peers: HashMap::new(), lines: Vec::new(), asked: Vec::new() };
        assert(view.peers() =~= Map::<u128, PeerModel>::empty());
        assert(view.lines() =~= Seq::<(Seq<LinePos>, Brush)>::empty());
        assert(view.asked() =~= Seq::<Seq<LinePos>>::empty());
        view
    }

    /// The peer with the identifier `id`, if the client knows one.
    pub fn peer(&self, id: u128) -> (found: Option<&Peer>)
        ensures
            (found is Some) == self.peers().contains_key(id),
            found matches Some(peer) ==> peer@ == self.peers()[id],
    {
        self.peers.get(&id)
    }

    /// The peers, to look at.
    pub fn peer_map(&self) -> (peers: &HashMap<u128, Peer>)
        ensures
            peers_model(peers@) == self.peers(),
    {
        &self.peers
    }

    /// The lines, to look at.
    pub fn line_list(&self) -> (lines: &Vec<(Vec<LinePos>, Brush)>)
        ensures
            lines_model(lines@) == self.lines(),
    {
        &self.lines
    }

    /// Forgets every peer, every line and every question, as a client does
    /// that leaves the board.
    pub fn clear(&mut self)
        ensures
            final(self).peers() == Map::<u128, PeerModel>::empty(),
            final(self).lines() == Seq::<(Seq<LinePos>, Brush)>::empty(),
            final(self).asked() == Seq::<Seq<LinePos>>::empty(),
    {
        self.peers.clear();
        self.lines.clear();
        self.asked.clear();
        assert(self.peers() =~= Map::<u128, PeerModel>::empty());
        assert(self.lines() =~= Seq::<(Seq<LinePos>, Brush)>::empty());
        assert(self.asked() =~= Seq::<Seq<LinePos>>::empty());
    }

    /// Puts `lines` in the place of the lines that the client keeps, as
    /// when a drawing is opened or a change is undone.
    pub fn set_lines(&mut self, lines: Vec<(Vec<LinePos>, Brush)>)
        ensures
            final(self).peers() == old(self).peers(),
            final(self).asked() == old(self).asked(),
            final(self).lines() == lines_model(lines@),
    {
        self.lines = lines;
    }

    /// Rubs out the line at the place `at`: the line is taken out and the
    /// last line put in its place.
    pub fn erase(&mut self, at: usize)
        requires
            at < old(self).lines().len(),
        ensures
            final(self).peers() == old(self).peers(),
            final(self).asked() == old(self).asked(),
            final(self).lines() == old(self).lines().update(
                at as int,
                old(self).lines().last(),
            ).drop_last(),
    {
        let _ = self.lines.swap_remove(at);
        assert(self.lines() =~= old(self).lines().update(
            at as int,
            old(self).lines().last(),
        ).drop_last());
    }

    /// The first place whose line is the line `points`, or the number of
    /// lines where none is.
    fn position(&self, points: &Vec<LinePos>) -> (at: usize)
        ensures
            at == find_line(self.lines(), points@),
            at <= self.lines@.len(),
    {
        let mut i: usize = 0;
        while i < self.lines.len()
            invariant
                0 <= i <= self.lines.len(),
                forall|j: int|
                    0 <= j < i ==> line_key((#[trigger] self.lines()[j]).0) != line_key(points@),
            decreases self.lines.len() - i,
        {
            if same_line(&self.lines[i].0, points) {
                proof {
                    lemma_find_line(self.lines(), points@, i as int);
                }
                return i;
            }
            i += 1;
        }
        proof {
            lemma_find_line(self.lines(), points@, i as int);
        }
        i
    }

    /// Whether the client has the line `points` with a brush equal to
    /// `brush`.
    fn has(&self, points: &Vec<LinePos>, brush: &Brush) -> (yes: bool)
        ensures
            yes == has_line_with_brush(self.lines(), points@, *brush),
    {
        let mut i: usize = 0;
        while i < self.lines.len()
            invariant
                0 <= i <= self.lines.len(),
                forall|j: int|
                    0 <= j < i ==> !(line_key((#[trigger] self.lines()[j]).0) == line_key(points@)
                        && same_brush(self.lines()[j].1, *brush)),
            decreases self.lines.len() - i,
        {
            if same_line(&self.lines[i].0, points) && self.lines[i].1.same_as(brush) {
                assert(line_key(self.lines()[i as int].0) == line_key(points@));
                return true;
            }
            i += 1;
        }
        false
    }

    /// Brings the view up to date with a message of the server. `current`
    /// is the brush that the user holds.
    ///
    /// A request that the client is to send is remembered as a question,
    /// and the partial answers of the server are taken as the answers to
    /// the questions in the order in which they were asked.
    pub fn receive(&mut self, message: Message, current: Brush) -> (reaction: Reaction)
        ensures
            final(self).peers() == peers_after(old(self).peers(), message@),
            final(self).lines() == lines_after(
                old(self).lines(),
                old(self).asked(),
                message@.payload,
                current,
            ),
            final(self).asked() == asked_after(
                old(self).lines(),
                old(self).asked(),
                message@.payload,
            ),
            is_reaction(old(self).lines(), message@.payload, reaction),
    {
        let Message { uuid, msg_type } = message;
        match msg_type {
            MessageType::ClientList(roster) => {
                self.peers = peers_from_roster(&roster);
                Reaction::Nothing
            },
            MessageType::CursorPosition(pointer) => {
                let known = match self.peers.get(&uuid) {
                    Some(peer) => Some(peer.name.clone()),
                    None => None,
                };
                match known {
                    Some(name) => {
                        let _ = self.peers.insert(uuid, Peer { name, pointer });
                        assert(self.peers() =~= peers_after(old(self).peers(), message@));
                    },
                    None => {},
                }
                Reaction::Nothing
            },
            MessageType::Connecting(name) => {
                let _ = self.peers.insert(
                    uuid,
                    Peer { name, pointer: PointerProperties::default() },
                );
                assert(self.peers() =~= peers_after(old(self).peers(), message@));
                Reaction::Nothing
            },
            MessageType::Disconnecting => {
                let _ = self.peers.remove(&uuid);
                assert(self.peers() =~= peers_after(old(self).peers(), message@));
                Reaction::Nothing
            },
            MessageType::KeepAlive => Reaction::Nothing,
            MessageType::AddLine(points, brush) => {
                if !self.has(&points, &brush) {
                    self.lines.push((points, brush));
                    self.lines.push((Vec::new(), current));
                    assert(self.lines() =~= old(self).lines().push((points@, brush)).push(
                        (Seq::empty(), current),
                    ));
                }
                Reaction::Nothing
            },
            MessageType::ModifyLine(points, change) => {
                let at = self.position(&points);
                if at >= self.lines.len() {
                    self.asked.push(copy_line(&points));
                    assert(self.asked() =~= old(self).asked().push(points@));
                    Reaction::Request(MessageType::RequestSyncLine(Some(points)))
                } else {
                    match change {
                        Some(brush) => {
                            let line = self.lines.remove(at);
                            self.lines.insert(at, (line.0, brush));
                            assert(self.lines() =~= old(self).lines().update(
                                at as int,
                                (old(self).lines()[at as int].0, brush),
                            ));
                        },
                        None => {
                            let _ = self.lines.swap_remove(at);
                            assert(self.lines() =~= old(self).lines().update(
                                at as int,
                                old(self).lines().last(),
                            ).drop_last());
                        },
                    }
                    Reaction::Nothing
                }
            },
            MessageType::RequestSyncLine(_) => Reaction::Unexpected,
            MessageType::SyncLine(LineSyncType::Full(all)) => {
                self.lines = all;
                Reaction::Nothing
            },
            MessageType::SyncLine(LineSyncType::Partial(Some(line))) => {
                self.lines.push(line);
                assert(self.lines() =~= old(self).lines().push((line.0@, line.1)));
                if self.asked.len() > 0 {
                    let _ = self.asked.remove(0);
                    assert(self.asked() =~= old(self).asked().drop_first());
                }
                Reaction::Nothing
            },
            MessageType::SyncLine(LineSyncType::Partial(None)) => {
                if self.asked.len() > 0 {
                    let points = self.asked.remove(0);
                    assert(self.asked() =~= old(self).asked().drop_first());
                    assert(points@ == old(self).asked()[0]);
                    let at = self.position(&points);
                    if at < self.lines.len() {
                        let _ = self.lines.swap_remove(at);
                        assert(self.lines() =~= old(self).lines().update(
                            at as int,
                            old(self).lines().last(),
                        ).drop_last());
                    }
                }
                Reaction::Desync
            },
        }
    }

    /// The pointer draws at `point` with the brush `current`: the point is
    /// added to the stroke in progress unless the stroke ends in the same
    /// position, and the stroke takes the brush. Says whether a point was
    /// added.
    pub fn pointer_at(&mut self, point: LinePos, current: Brush) -> (changed: bool)
        requires
            point.is_valid(),
        ensures
            final(self).peers() == old(self).peers(),
            final(self).asked() == old(self).asked(),
            final(self).lines() == stroke_after_point(old(self).lines(), point, current),
            changed == (final(self).lines() != old(self).lines()),
    {
        let was_empty = self.lines.len() == 0;
        if was_empty {
            self.lines.push((Vec::new(), current));
        }
        let ghost opened = self.lines();
        assert(opened =~= open_stroke(old(self).lines(), current));
        let last = self.lines.len() - 1;
        let stroke = &self.lines[last].0;
        let repeated = stroke.len() > 0 && stroke[stroke.len() - 1].same_position(&point);
        if repeated {
            assert(self.lines() == stroke_after_point(old(self).lines(), point, current));
            if was_empty {
                assert(self.lines().len() != old(self).lines().len());
            }
            was_empty
        } else {
            let line = self.lines.remove(last);
            let mut points = line.0;
            points.push(point);
            self.lines.push((points, current));
            assert(self.lines() =~= opened.update(
                opened.len() - 1,
                (opened.last().0.push(point), current),
            ));
            assert(self.lines()[last as int].0.len() != opened[last as int].0.len());
            true
        }
    }

    /// The pointer is lifted: a stroke in progress that has points is
    /// finished, a fresh stroke with the brush `current` is opened behind
    /// it, and the finished line is returned as the message that tells the
    /// server of it.
    pub fn pointer_released(&mut self, current: Brush) -> (finished: Option<MessageType>)
        ensures
            final(self).peers() == old(self).peers(),
            final(self).asked() == old(self).asked(),
            final(self).lines() == stroke_after_release(old(self).lines(), current),
            match finished {
                Some(message) => {
                    &&& old(self).lines().len() > 0
                    &&& old(self).lines().last().0.len() > 0
                    &&& message@ == PayloadModel::AddLine(
                        old(self).lines().last().0,
                        old(self).lines().last().1,
                    )
                },
                None => old(self).lines().len() == 0 || old(self).lines().last().0.len() == 0,
            },
    {
        if self.lines.len() == 0 {
            self.lines.push((Vec::new(), current));
            assert(self.lines() =~= open_stroke(old(self).lines(), current));
            return None;
        }
        let last = self.lines.len() - 1;
        if self.lines[last].0.len() == 0 {
            assert(self.lines()[last as int].0.len() == 0);
            return None;
        }
        let points = copy_line(&self.lines[last].0);
        let brush = self.lines[last].1;
        self.lines.push((Vec::new(), current));
        assert(self.lines() =~= old(self).lines().push((Seq::empty(), current)));
        assert(old(self).lines()[last as int].0 == points@);
        Some(MessageType::AddLine(points, brush))
    }
}

/// The lines with a stroke in progress: where there is no line at all, an
/// empty stroke with the brush `current` is opened.
pub open spec fn open_stroke(lines: Seq<(Seq<LinePos>, Brush)>, current: Brush) -> Seq<
    (Seq<LinePos>, Brush),
> {
    if lines.len() == 0 {
        lines.push((Seq::empty(), current))
    } else {
        lines
    }
}

/// The lines after the pointer has drawn at `point`.
pub open spec fn stroke_after_point(
    lines: Seq<(Seq<LinePos>, Brush)>,
    point: LinePos,
    current: Brush,
) -> Seq<(Seq<LinePos>, Brush)> {
    let opened = open_stroke(lines, current);
    let stroke = opened.last().0;
    if stroke.len() > 0 && stroke.last().key() == point.key() {
        opened
    } else {
        opened.update(opened.len() - 1, (stroke.push(point), current))
    }
}

/// The lines after the pointer was lifted.
pub open spec fn stroke_after_release(lines: Seq<(Seq<LinePos>, Brush)>, current: Brush) -> Seq<
    (Seq<LinePos>, Brush),
> {
    if lines.len() == 0 || lines.last().0.len() > 0 {
        lines.push((Seq::empty(), current))
    } else {
        lines
    }
}

/// The peers that a roster announces.
pub fn peers_from_roster(roster: &Vec<(String, u128)>) -> (peers: HashMap<u128, Peer>)
    ensures
        peers_model(peers@) == peers_of_roster(roster_model(roster@)),
{
    let mut peers: HashMap<u128, Peer> = HashMap::new();
    let mut i: usize = 0;
    let ghost all = roster_model(roster@);
    assert(all.take(0) =~= Seq::<(Seq<char>, u128)>::empty());
    assert(peers_model(peers@) =~= peers_of_roster(all.take(0)));
    while i < roster.len()
        invariant
            0 <= i <= roster.len(),
            all == roster_model(roster@),
            peers_model(peers@) == peers_of_roster(all.take(i as int)),
        decreases roster.len() - i,
    {
        let name = roster[i].0.clone();
        let id = roster[i].1;
        let ghost before = peers@;
        let _ = peers.insert(id, Peer { name, pointer: PointerProperties::default() });
        proof {
            assert(all.take(i + 1).drop_last() =~= all.take(i as int));
            assert(all.take(i + 1).last() == all[i as int]);
            assert(peers_model(peers@) =~= peers_model(before).insert(
                id,
                PeerModel { name: name@, pointer: default_pointer() },
            ));
        }
        i += 1;
    }
    assert(all.take(roster.len() as int) =~= all);
    peers
}

/// A copy of a line.
pub fn copy_line(points: &Vec<LinePos>) -> (copy: Vec<LinePos>)
    ensures
        copy@ == points@,
{
    let mut copy: Vec<LinePos> = Vec::new();
    let mut i: usize = 0;
    while i < points.len()
        invariant
            0 <= i <= points.len(),
            copy@ == points@.take(i as int),
        decreases points.len() - i,
    {
        copy.push(points[i]);
        assert(points@.take(i + 1) =~= points@.take(i as int).push(points@[i as int]));
        i += 1;
    }
    assert(points@.take(points.len() as int) =~= points@);
    copy
}

/// A copy of a list of lines.
pub fn copy_lines(lines: &Vec<(Vec<LinePos>, Brush)>) -> (copy: Vec<(Vec<LinePos>, Brush)>)
    ensures
        lines_model(copy@) == lines_model(lines@),
{
    let mut copy: Vec<(Vec<LinePos>, Brush)> = Vec::new();
    let mut i: usize = 0;
    while i < lines.len()
        invariant
            0 <= i <= lines.len(),
            copy@.len() == i,
            forall|j: int|
                0 <= j < i ==> (#[trigger] copy@[j]).0@ == lines@[j].0@ && copy@[j].1
                    == lines@[j].1,
        decreases lines.len() - i,
    {
        let points = copy_line(&lines[i].0);
        copy.push((points, lines[i].1));
        i += 1;
    }
    assert(lines_model(copy@) =~= lines_model(lines@));
    copy
}

/// Seconds after which an idle connection is kept alive with a message.
pub const KEEP_ALIVE_SECONDS: u64 = 10;

/// The message with which a client opens its session: it joins under
/// `username`.
pub fn connect_to_server(username: String, uuid: u128) -> (greeting: Message)
    ensures
        greeting == (Message { uuid, msg_type: MessageType::Connecting(username) }),
{
    Message::new(uuid, MessageType::Connecting(username))
}

/// What can happen to the loop that writes to the server.
#[derive(Clone, Debug, PartialEq, Eq)]
pub enum UplinkEvent {
    /// The application has something to say.
    Outgoing(MessageType),
    /// The application is gone.
    QueueClosed,
    /// The keep-alive interval has passed without anything to write.
    Idle,
    /// The frame written last did not reach the server.
    WriteFailed,
    /// The session was cancelled.
    Cancelled,
}

/// What the loop that reads from the server does next.
#[derive(Clone, Debug, PartialEq, Eq)]
pub enum DownlinkAction {
    /// Hand the message to the application.
    Deliver(Message),
    /// Stop.
    Halt(Termination),
    /// Nothing: the loop has stopped before.
    Nothing,
}

/// The next phase and the action of the loop that writes to the server,
/// for the client `uuid`.
pub open spec fn uplink_step_of(uuid: u128, phase: Phase, event: UplinkEvent) -> (
    Phase,
    SenderAction,
) {
    match phase {
        Phase::Stopped => (Phase::Stopped, SenderAction::Nothing),
        Phase::Running => match event {
            UplinkEvent::Outgoing(msg_type) => (
                Phase::Running,
                SenderAction::Write(Message { uuid, msg_type }),
            ),
            UplinkEvent::QueueClosed => (
                Phase::Stopped,
                SenderAction::Halt(Termination::ChannelClosed),
            ),
            UplinkEvent::Idle => (
                Phase::Running,
                SenderAction::Write(Message { uuid, msg_type: MessageType::KeepAlive }),
            ),
            UplinkEvent::WriteFailed => (
                Phase::Stopped,
                SenderAction::Halt(Termination::ConnectionLost),
            ),
            UplinkEvent::Cancelled => (Phase::Stopped, SenderAction::Halt(Termination::Cancelled)),
        },
    }
}

/// The next phase and the action of the loop that reads from the server.
pub open spec fn downlink_step_of(phase: Phase, event: ListenerEvent) -> (Phase, DownlinkAction) {
    match phase {
        Phase::Stopped => (Phase::Stopped, DownlinkAction::Nothing),
        Phase::Running => match event {
            ListenerEvent::Received(message) => if message.msg_type@.is_well_formed() {
                (Phase::Running, DownlinkAction::Deliver(message))
            } else {
                (Phase::Stopped, DownlinkAction::Halt(Termination::Malformed))
            },
            ListenerEvent::Undecodable => (
                Phase::Stopped,
                DownlinkAction::Halt(Termination::Malformed),
            ),
            ListenerEvent::StreamClosed => (
                Phase::Stopped,
                DownlinkAction::Halt(Termination::ConnectionLost),
            ),
            ListenerEvent::DeliveryFailed => (
                Phase::Stopped,
                DownlinkAction::Halt(Termination::ChannelClosed),
            ),
            ListenerEvent::Cancelled => (
                Phase::Stopped,
                DownlinkAction::Halt(Termination::Cancelled),
            ),
        },
    }
}

/// One step of the loop that writes to the server: what the application
/// says goes out under the identifier of the client, and so does a
/// keep-alive whenever the connection has been idle.
pub fn uplink_step(uuid: u128, phase: Phase, event: UplinkEvent) -> (step: (Phase, SenderAction))
    ensures
        step == uplink_step_of(uuid, phase, event),
{
    match phase {
        Phase::Stopped => (Phase::Stopped, SenderAction::Nothing),
        Phase::Running => match event {
            UplinkEvent::Outgoing(msg_type) => (
                Phase::Running,
                SenderAction::Write(Message::new(uuid, msg_type)),
            ),
            UplinkEvent::QueueClosed => (
                Phase::Stopped,
                SenderAction::Halt(Termination::ChannelClosed),
            ),
            UplinkEvent::Idle => (
                Phase::Running,
                SenderAction::Write(Message::new(uuid, MessageType::KeepAlive)),
            ),
            UplinkEvent::WriteFailed => (
                Phase::Stopped,
                SenderAction::Halt(Termination::ConnectionLost),
            ),
            UplinkEvent::Cancelled => (Phase::Stopped, SenderAction::Halt(Termination::Cancelled)),
        },
    }
}

/// One step of the loop that reads from the server: every message goes to
/// the application; a frame that is too long or that is no message, or a
/// message whose lines hold something that is no number, ends the
/// connection.
pub fn downlink_step(phase: Phase, event: ListenerEvent) -> (step: (Phase, DownlinkAction))
    ensures
        step == downlink_step_of(phase, event),
{
    match phase {
        Phase::Stopped => (Phase::Stopped, DownlinkAction::Nothing),
        Phase::Running => match event {
            ListenerEvent::Received(message) => if message.msg_type.check() {
                (Phase::Running, DownlinkAction::Deliver(message))
            } else {
                (Phase::Stopped, DownlinkAction::Halt(Termination::Malformed))
            },
            ListenerEvent::Undecodable => (
                Phase::Stopped,
                DownlinkAction::Halt(Termination::Malformed),
            ),
            ListenerEvent::StreamClosed => (
                Phase::Stopped,
                DownlinkAction::Halt(Termination::ConnectionLost),
            ),
            ListenerEvent::DeliveryFailed => (
                Phase::Stopped,
                DownlinkAction::Halt(Termination::ChannelClosed),
            ),
            ListenerEvent::Cancelled => (
                Phase::Stopped,
                DownlinkAction::Halt(Termination::Cancelled),
            ),
        },
    }
}

} // verus!
