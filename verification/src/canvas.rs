//! The rules of the canvas: what each line message does to the store, and
//! what a request for synchronisation is answered with.
//!
//! Everything here is stated over the model of the canvas, a map from the
//! identity of a line to its brush. The store itself lives in
//! [`crate::server::ServerState`].
use vstd::prelude::*;
use crate::brush::Brush;
use crate::dash::CanvasModel;
use crate::line::{canonical_line, is_line_key, is_valid_line, line_key, LinePos};
use crate::message::{MessageType, PayloadModel, SyncModel};

verus! {

/// What the writer did with a message.
#[derive(Clone, Copy, Debug, PartialEq, Eq, Structural)]
pub enum CanvasOutcome {
    /// A line was added, or an equal line got the new brush.
    Stored,
    /// The brush of a line was replaced.
    Updated,
    /// A line was removed.
    Removed,
    /// A removal named a line that the canvas does not have; nothing changed.
    Missing,
    /// A change named a line that the canvas does not have: the sender's
    /// view has drifted from the canvas. Nothing changed.
    Desync,
    /// The message carried a line or a brush that may not be kept; nothing
    /// changed.
    Rejected,
    /// The message is no line message; nothing changed.
    Ignored,
}

impl CanvasOutcome {
    /// Whether the outcome is a drift between a client and the canvas, which
    /// the server records in its log.
    pub fn is_desync(self) -> (yes: bool)
        ensures
            yes == (self == CanvasOutcome::Desync),
    {
        match self {
            CanvasOutcome::Desync => true,
            _ => false,
        }
    }

    /// Whether the message changed nothing.
    pub fn is_noop(self) -> (yes: bool)
        ensures
            yes == !(self == CanvasOutcome::Stored || self == CanvasOutcome::Updated || self
                == CanvasOutcome::Removed),
    {
        match self {
            CanvasOutcome::Stored | CanvasOutcome::Updated | CanvasOutcome::Removed => false,
            _ => true,
        }
    }
}

/// The invariant of the canvas: it holds finitely many lines, every line it
/// holds has at least one point and no NaN, and every brush is well formed.
pub open spec fn is_sound_canvas(model: CanvasModel) -> bool {
    &&& model.dom().finite()
    &&& forall|k: Seq<(u32, u32)>| #[trigger]
        model.contains_key(k) ==> is_line_key(k) && model[k].is_valid()
}

/// The canvas after the writer has taken one message.
pub open spec fn canvas_after(model: CanvasModel, message: PayloadModel) -> CanvasModel {
    match message {
        PayloadModel::AddLine(points, brush) => if is_valid_line(points) && brush.is_valid() {
            model.insert(line_key(points), brush)
        } else {
            model
        },
        PayloadModel::ModifyLine(points, Some(brush)) => if model.contains_key(line_key(points))
            && brush.is_valid() {
            model.insert(line_key(points), brush)
        } else {
            model
        },
        PayloadModel::ModifyLine(points, None) => model.remove(line_key(points)),
        _ => model,
    }
}

/// What the writer reports for one message.
pub open spec fn canvas_outcome(model: CanvasModel, message: PayloadModel) -> CanvasOutcome {
    match message {
        PayloadModel::AddLine(points, brush) => if is_valid_line(points) && brush.is_valid() {
            CanvasOutcome::Stored
        } else {
            CanvasOutcome::Rejected
        },
        PayloadModel::ModifyLine(points, Some(brush)) => if !model.contains_key(line_key(points)) {
            CanvasOutcome::Desync
        } else if brush.is_valid() {
            CanvasOutcome::Updated
        } else {
            CanvasOutcome::Rejected
        },
        PayloadModel::ModifyLine(points, None) => if model.contains_key(line_key(points)) {
            CanvasOutcome::Removed
        } else {
            CanvasOutcome::Missing
        },
        _ => CanvasOutcome::Ignored,
    }
}

/// The canvas after the writer has taken the messages one by one, the
/// first of the sequence first.
pub open spec fn canvas_after_all(model: CanvasModel, messages: Seq<PayloadModel>) -> CanvasModel
    decreases messages.len(),
{
    if messages.len() == 0 {
        model
    } else {
        canvas_after(canvas_after_all(model, messages.drop_last()), messages.last())
    }
}

/// The models of a sequence of messages.
pub open spec fn payloads(messages: Seq<MessageType>) -> Seq<PayloadModel> {
    Seq::new(messages.len(), |i: int| messages[i]@)
}

/// Whether `listing` is the whole of `model`: it has one item for each line
/// of the canvas, each spelled canonically with the brush the canvas has
/// for it. The order of the items is left open.
pub open spec fn is_full_listing(listing: Seq<(Seq<LinePos>, Brush)>, model: CanvasModel) -> bool {
    &&& listing.len() == model.dom().len()
    &&& forall|i: int|
        0 <= i < listing.len() ==> {
            &&& canonical_line((#[trigger] listing[i]).0) == listing[i].0
            &&& model.contains_pair(line_key(listing[i].0), listing[i].1)
        }
    &&& forall|i: int, j: int|
        0 <= i < j < listing.len() ==> line_key((#[trigger] listing[i]).0) != line_key(
            (#[trigger] listing[j]).0,
        )
    &&& forall|k: Seq<(u32, u32)>| #[trigger]
        model.contains_key(k) ==> exists|i: int|
            0 <= i < listing.len() && line_key((#[trigger] listing[i]).0) == k
}

/// Whether `answer` is what the canvas `model` answers to a request for
/// synchronisation: asked for everything, the whole canvas; asked for one
/// line, that line in canonical spelling with its brush, or nothing where
/// the canvas does not have it.
pub open spec fn is_sync_answer(
    model: CanvasModel,
    selector: Option<Seq<LinePos>>,
    answer: SyncModel,
) -> bool {
    match selector {
        None => answer matches SyncModel::Full(listing) && is_full_listing(listing, model),
        Some(points) => answer == SyncModel::Partial(
            if model.contains_key(line_key(points)) {
                Some((canonical_line(points), model[line_key(points)]))
            } else {
                None
            },
        ),
    }
}

/// The writer keeps the invariant of the canvas, whatever the message.
pub proof fn lemma_writer_keeps_canvas_sound(model: CanvasModel, message: PayloadModel)
    requires
        is_sound_canvas(model),
    ensures
        is_sound_canvas(canvas_after(model, message)),
{
    match message {
        PayloadModel::AddLine(points, brush) => {
            if is_valid_line(points) {
                crate::line::lemma_valid_line_has_line_key(points);
            }
        },
        _ => {},
    }
}

/// The writer keeps the invariant of the canvas over any run of messages.
pub proof fn lemma_writer_keeps_canvas_sound_all(model: CanvasModel, messages: Seq<PayloadModel>)
    requires
        is_sound_canvas(model),
    ensures
        is_sound_canvas(canvas_after_all(model, messages)),
    decreases messages.len(),
{
    if messages.len() > 0 {
        lemma_writer_keeps_canvas_sound_all(model, messages.drop_last());
        lemma_writer_keeps_canvas_sound(
            canvas_after_all(model, messages.drop_last()),
            messages.last(),
        );
    }
}

/// Messages take effect strictly in the order of their arrival: a run of
/// messages that arrives in two parts leaves the canvas that the first
/// part, and after it the second, leave.
pub proof fn lemma_messages_apply_in_arrival_order(
    model: CanvasModel,
    first: Seq<PayloadModel>,
    second: Seq<PayloadModel>,
)
    ensures
        canvas_after_all(model, first + second) == canvas_after_all(
            canvas_after_all(model, first),
            second,
        ),
    decreases second.len(),
{
    if second.len() == 0 {
        assert(first + second =~= first);
    } else {
        assert((first + second).drop_last() =~= first + second.drop_last());
        assert((first + second).last() == second.last());
        lemma_messages_apply_in_arrival_order(model, first, second.drop_last());
    }
}

/// One more message changes the canvas as that message alone changes what
/// the earlier messages left.
pub proof fn lemma_one_more_message(
    model: CanvasModel,
    messages: Seq<PayloadModel>,
    next: PayloadModel,
)
    ensures
        canvas_after_all(model, messages.push(next)) == canvas_after(
            canvas_after_all(model, messages),
            next,
        ),
{
    assert(messages.push(next).drop_last() =~= messages);
}

/// Adding the same line with the same brush twice leaves what adding it
/// once leaves: one entry for the line.
pub proof fn lemma_add_line_is_idempotent(model: CanvasModel, points: Seq<LinePos>, brush: Brush)
    ensures
        ({
            let add = PayloadModel::AddLine(points, brush);
            let once = canvas_after(model, add);
            let twice = canvas_after(once, add);
            &&& twice == once
            &&& is_valid_line(points) && brush.is_valid() ==> once.contains_pair(
                line_key(points),
                brush,
            )
            &&& model.dom().finite() && is_valid_line(points) && brush.is_valid()
                && !model.contains_key(line_key(points)) ==> once.dom().len() == model.dom().len()
                + 1 && twice.dom().len() == model.dom().len() + 1
        }),
{
    let add = PayloadModel::AddLine(points, brush);
    let once = canvas_after(model, add);
    let twice = canvas_after(once, add);
    assert(twice =~= once);
}

/// Removing a line that the canvas does not have changes nothing and is
/// no error.
pub proof fn lemma_remove_absent_is_noop(model: CanvasModel, points: Seq<LinePos>)
    requires
        !model.contains_key(line_key(points)),
    ensures
        canvas_after(model, PayloadModel::ModifyLine(points, None)) == model,
        canvas_outcome(model, PayloadModel::ModifyLine(points, None)) == CanvasOutcome::Missing,
{
    assert(model.remove(line_key(points)) =~= model);
}

/// Changing the brush of a line that the canvas does not have changes
/// nothing and is reported as a drift.
pub proof fn lemma_update_absent_is_desync(model: CanvasModel, points: Seq<LinePos>, brush: Brush)
    requires
        !model.contains_key(line_key(points)),
    ensures
        canvas_after(model, PayloadModel::ModifyLine(points, Some(brush))) == model,
        canvas_outcome(model, PayloadModel::ModifyLine(points, Some(brush)))
            == CanvasOutcome::Desync,
{
}

/// The messages that add the lines of `lines`, in order.
pub open spec fn additions(lines: Seq<(Seq<LinePos>, Brush)>) -> Seq<PayloadModel> {
    Seq::new(lines.len(), |i: int| PayloadModel::AddLine(lines[i].0, lines[i].1))
}

/// Whether the lines of `lines` may all be kept and are pairwise different.
pub open spec fn are_distinct_lines(lines: Seq<(Seq<LinePos>, Brush)>) -> bool {
    &&& forall|i: int|
        0 <= i < lines.len() ==> is_valid_line((#[trigger] lines[i]).0) && lines[i].1.is_valid()
    &&& forall|i: int, j: int|
        0 <= i < j < lines.len() ==> line_key((#[trigger] lines[i]).0) != line_key(
            (#[trigger] lines[j]).0,
        )
}

/// After `n` different lines were added to an empty canvas and none was
/// removed, the canvas holds exactly those `n` lines, each with the brush
/// it was added with.
pub proof fn lemma_added_lines_are_all_there(lines: Seq<(Seq<LinePos>, Brush)>)
    requires
        are_distinct_lines(lines),
    ensures
        ({
            let canvas = canvas_after_all(CanvasModel::empty(), additions(lines));
            &&& canvas.dom().finite()
            &&& canvas.dom().len() == lines.len()
            &&& forall|i: int|
                0 <= i < lines.len() ==> canvas.contains_pair(
                    line_key((#[trigger] lines[i]).0),
                    lines[i].1,
                )
            &&& forall|k: Seq<(u32, u32)>| #[trigger]
                canvas.contains_key(k) ==> exists|i: int|
                    0 <= i < lines.len() && line_key((#[trigger] lines[i]).0) == k
        }),
    decreases lines.len(),
{
    let canvas = canvas_after_all(CanvasModel::empty(), additions(lines));
    if lines.len() == 0 {
        assert(canvas =~= CanvasModel::empty());
    } else {
        let earlier = lines.drop_last();
        let last = lines.last();
        assert(are_distinct_lines(earlier)) by {
            assert forall|i: int| 0 <= i < earlier.len() implies is_valid_line(
                (#[trigger] earlier[i]).0,
            ) && earlier[i].1.is_valid() by {
                assert(earlier[i] == lines[i]);
            }
            assert forall|i: int, j: int| 0 <= i < j < earlier.len() implies line_key(
                (#[trigger] earlier[i]).0,
            ) != line_key((#[trigger] earlier[j]).0) by {
                assert(earlier[i] == lines[i]);
                assert(earlier[j] == lines[j]);
            }
        }
        lemma_added_lines_are_all_there(earlier);
        let before = canvas_after_all(CanvasModel::empty(), additions(earlier));
        assert(additions(lines).drop_last() =~= additions(earlier));
        assert(additions(lines).last() == PayloadModel::AddLine(last.0, last.1));
        assert(canvas == before.insert(line_key(last.0), last.1));
        assert(!before.contains_key(line_key(last.0))) by {
            if before.contains_key(line_key(last.0)) {
                let i = choose|i: int|
                    0 <= i < earlier.len() && line_key((#[trigger] earlier[i]).0) == line_key(
                        last.0,
                    );
                assert(earlier[i] == lines[i]);
                assert(lines[lines.len() - 1] == last);
            }
        }
        assert forall|i: int| 0 <= i < lines.len() implies canvas.contains_pair(
            line_key((#[trigger] lines[i]).0),
            lines[i].1,
        ) by {
            if i < earlier.len() {
                assert(earlier[i] == lines[i]);
                assert(before.contains_pair(line_key(earlier[i].0), earlier[i].1));
                assert(lines[lines.len() - 1] == last);
            }
        }
        assert forall|k: Seq<(u32, u32)>| #[trigger] canvas.contains_key(k) implies exists|i: int|
            0 <= i < lines.len() && line_key((#[trigger] lines[i]).0) == k by {
            if k == line_key(last.0) {
                assert(lines[lines.len() - 1] == last);
            } else {
                assert(before.contains_key(k));
                let i = choose|i: int|
                    0 <= i < earlier.len() && line_key((#[trigger] earlier[i]).0) == k;
                assert(earlier[i] == lines[i]);
            }
        }
    }
}

/// A request for the whole canvas, made after `n` different lines were
/// added to an empty canvas and none was removed, is answered with exactly
/// `n` entries: the lines that were added, each in canonical spelling with
/// the brush it was added with.
pub proof fn lemma_full_sync_lists_added_lines(
    lines: Seq<(Seq<LinePos>, Brush)>,
    answer: SyncModel,
)
    requires
        are_distinct_lines(lines),
        is_sync_answer(canvas_after_all(CanvasModel::empty(), additions(lines)), None, answer),
    ensures
        answer matches SyncModel::Full(listing) && {
            &&& listing.len() == lines.len()
            &&& forall|i: int|
                0 <= i < lines.len() ==> exists|j: int|
                    0 <= j < listing.len() && #[trigger] listing[j] == (
                        canonical_line((#[trigger] lines[i]).0),
                        lines[i].1,
                    )
            &&& forall|j: int|
                0 <= j < listing.len() ==> exists|i: int|
                    0 <= i < lines.len() && #[trigger] listing[j] == (
                        canonical_line((#[trigger] lines[i]).0),
                        lines[i].1,
                    )
        },
{
    let canvas = canvas_after_all(CanvasModel::empty(), additions(lines));
    lemma_added_lines_are_all_there(lines);
    let listing = answer->Full_0;
    assert forall|i: int| 0 <= i < lines.len() implies exists|j: int|
        0 <= j < listing.len() && #[trigger] listing[j] == (
            canonical_line((#[trigger] lines[i]).0),
            lines[i].1,
        ) by {
        let key = line_key(lines[i].0);
        assert(canvas.contains_pair(key, lines[i].1));
        assert(canvas.contains_key(key));
        let j = choose|j: int| 0 <= j < listing.len() && line_key((#[trigger] listing[j]).0) == key;
        assert(canonical_line(listing[j].0) == listing[j].0);
        assert(canvas.contains_pair(line_key(listing[j].0), listing[j].1));
        assert(listing[j] == (canonical_line(lines[i].0), lines[i].1));
    }
    assert forall|j: int| 0 <= j < listing.len() implies exists|i: int|
        0 <= i < lines.len() && #[trigger] listing[j] == (
            canonical_line((#[trigger] lines[i]).0),
            lines[i].1,
        ) by {
        let key = line_key(listing[j].0);
        assert(canonical_line(listing[j].0) == listing[j].0);
        assert(canvas.contains_pair(key, listing[j].1));
        assert(canvas.contains_key(key));
        let i = choose|i: int| 0 <= i < lines.len() && line_key((#[trigger] lines[i]).0) == key;
        assert(canvas.contains_pair(line_key(lines[i].0), lines[i].1));
        assert(listing[j] == (canonical_line(lines[i].0), lines[i].1));
    }
}

/// A client that asks for a line right after the line was added is
/// answered with that line and the brush it was added with.
pub proof fn lemma_sync_sees_added_line(
    model: CanvasModel,
    points: Seq<LinePos>,
    brush: Brush,
    answer: SyncModel,
)
    requires
        is_valid_line(points),
        brush.is_valid(),
        is_sync_answer(
            canvas_after(model, PayloadModel::AddLine(points, brush)),
            Some(points),
            answer,
        ),
    ensures
        answer == SyncModel::Partial(Some((canonical_line(points), brush))),
{
}

/// A client that asks for a line right after the line was removed is
/// answered that there is no such line.
pub proof fn lemma_sync_misses_removed_line(
    model: CanvasModel,
    points: Seq<LinePos>,
    answer: SyncModel,
)
    requires
        is_sync_answer(
            canvas_after(model, PayloadModel::ModifyLine(points, None)),
            Some(points),
            answer,
        ),
    ensures
        answer == SyncModel::Partial(None),
{
}

} // verus!
