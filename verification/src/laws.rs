//! What holds of the palette whatever happens to it.

use vstd::prelude::*;
use vstd::set_lib::{lemma_int_range, lemma_len_subset, set_int_range};
use crate::color::Rgb;
use crate::palette::{count_selected, initial_palette, Effect, Event, PaletteView};
use crate::swatch::{SwatchId, SwatchView, Symbol};
use crate::sync::{write_failed, DeviceError};

verus! {

/// As many identities as the palette has from zero upwards without a gap, so
/// many swatches it has at least.
pub proof fn lemma_used_prefix_bounded(palette: PaletteView, bound: nat)
    requires
        forall|id: nat| id < bound ==> #[trigger] palette.has(id),
    ensures
        bound <= palette.swatches.len(),
{
    let ids = Seq::new(palette.swatches.len(), |i: int| palette.swatches[i].id as int);
    let below = set_int_range(0, bound as int);
    assert forall|id: int| below.contains(id) implies ids.to_set().contains(id) by {
        assert(palette.has(id as nat));
        let i = choose|i: int|
            0 <= i < palette.swatches.len() && #[trigger] palette.swatches[i].id == id as nat;
        assert(ids[i] == id);
        assert(ids.contains(id));
    }
    assert(below.subset_of(ids.to_set()));
    broadcast use vstd::seq_lib::seq_to_set_is_finite;
    lemma_int_range(0, bound as int);
    lemma_len_subset(below, ids.to_set());
    ids.lemma_cardinality_of_set();
}

/// Where every identity below `from` is taken, some identity from `from`
/// upwards is the smallest free one.
proof fn lemma_fresh_from(palette: PaletteView, from: nat)
    requires
        forall|id: nat| id < from ==> #[trigger] palette.has(id),
    ensures
        exists|id: nat| palette.is_fresh(id),
    decreases palette.swatches.len() - from,
{
    lemma_used_prefix_bounded(palette, from);
    if palette.has(from) {
        lemma_used_prefix_bounded(palette, from + 1);
        lemma_fresh_from(palette, from + 1);
    } else {
        assert(palette.is_fresh(from));
    }
}

/// Every palette has an identity to give to a new swatch, and only one:
/// `fresh_id` is it, and no swatch has it yet.
pub proof fn lemma_fresh_id(palette: PaletteView)
    ensures
        palette.is_fresh(palette.fresh_id()),
        !palette.has(palette.fresh_id()),
        forall|id: nat| palette.is_fresh(id) ==> id == palette.fresh_id(),
{
    lemma_fresh_from(palette, 0);
    let fresh = palette.fresh_id();
    assert forall|id: nat| palette.is_fresh(id) implies id == fresh by {
        if id < fresh {
            assert(palette.has(id));
        } else if fresh < id {
            assert(palette.has(fresh));
        }
    }
}

/// In a valid palette an identity is found where its swatch stands.
pub proof fn lemma_index_of(palette: PaletteView, at: int)
    requires
        palette.wf(),
        0 <= at < palette.swatches.len(),
    ensures
        palette.has(palette.swatches[at].id),
        palette.index_of(palette.swatches[at].id) == at,
{
    let id = palette.swatches[at].id;
    let found = palette.index_of(id);
    assert(0 <= found < palette.swatches.len() && palette.swatches[found].id == id);
    if found < at {
        assert(palette.swatches[found].id != palette.swatches[at].id);
    } else if at < found {
        assert(palette.swatches[at].id != palette.swatches[found].id);
    }
}

/// Selecting a swatch of a valid palette gives a valid palette whose current
/// swatch is the one selected.
pub proof fn lemma_select_wf(palette: PaletteView, target: nat)
    requires
        palette.wf(),
        palette.has(target),
    ensures
        palette.select(target).wf(),
        palette.select(target).current == Some(target),
        palette.select(target).swatches.len() == palette.swatches.len(),
{
    let after = palette.select(target);
    let at = palette.index_of(target);
    assert(after.swatches[at].id == target);
    assert(after.has(target));
    assert forall|i: int, j: int| 0 <= i < j < after.swatches.len() implies #[trigger] after.swatches[i].id
        != #[trigger] after.swatches[j].id by {
        assert(palette.swatches[i].id != palette.swatches[j].id);
    }
}

/// Adding a colour to a valid palette gives a valid palette: the old
/// swatches, then the new one, and the same current swatch.
pub proof fn lemma_add_wf(palette: PaletteView, color: Rgb)
    requires
        palette.wf(),
    ensures
        palette.add(color).wf(),
        palette.add(color).swatches.len() == palette.swatches.len() + 1,
        palette.add(color).swatches.drop_last() == palette.swatches,
        palette.add(color).swatches.last().color == color,
        palette.add(color).swatches.last().symbol == Symbol::Unmarked,
        !palette.has(palette.add(color).swatches.last().id),
        palette.add(color).current == palette.current,
        palette.add(color).rgb == palette.rgb,
        palette.add(color).remove_visible(),
{
    lemma_fresh_id(palette);
    let after = palette.add(color);
    let fresh = palette.fresh_id();
    assert(after.swatches.drop_last() =~= palette.swatches);
    assert forall|i: int, j: int| 0 <= i < j < after.swatches.len() implies #[trigger] after.swatches[i].id
        != #[trigger] after.swatches[j].id by {
        if j < palette.swatches.len() {
            assert(palette.swatches[i].id != palette.swatches[j].id);
        } else {
            if palette.swatches[i].id == fresh {
                assert(palette.has(fresh));
            }
        }
    }
    if palette.current is Some {
        let at = palette.index_of(palette.current->0);
        assert(after.swatches[at].id == palette.current->0);
    }
    assert forall|i: int| 0 <= i < after.swatches.len() implies (#[trigger] after.swatches[i].symbol
        == Symbol::Selected <==> after.current == Some(after.swatches[i].id)) by {
        if i < palette.swatches.len() {
            assert(after.swatches[i] == palette.swatches[i]);
        } else {
            if palette.current == Some(fresh) {
                assert(palette.has(fresh));
            }
        }
    }
}

/// Removing the current swatch of a valid palette that has another one gives
/// a valid palette: the other swatches in their order, and the neighbour of
/// the one that left current and marked.
pub proof fn lemma_remove_wf(palette: PaletteView)
    requires
        palette.wf(),
        palette.can_remove(),
    ensures
        palette.remove().wf(),
        palette.remove().swatches.len() == palette.swatches.len() - 1,
        palette.remove().current is Some,
        !palette.remove().has(palette.current->0),
        ({
            let at = palette.index_of(palette.current->0);
            let rest = palette.swatches.remove(at);
            let next = PaletteView::neighbor(at);
            &&& 0 <= at < palette.swatches.len()
            &&& 0 <= next < rest.len()
            &&& palette.remove().current == Some(rest[next].id)
            &&& forall|i: int|
                0 <= i < rest.len() ==> {
                    &&& (#[trigger] palette.remove().swatches[i]).id == rest[i].id
                    &&& palette.remove().swatches[i].color == rest[i].color
                }
        }),
{
    let gone = palette.current->0;
    let at = palette.index_of(gone);
    let rest = palette.swatches.remove(at);
    let next = PaletteView::neighbor(at);
    let after = palette.remove();
    assert forall|i: int| 0 <= i < rest.len() implies (#[trigger] rest[i]).id != gone
        && rest[i].symbol == Symbol::Unmarked by {
        if i < at {
            assert(rest[i] == palette.swatches[i]);
            assert(palette.swatches[i].id != palette.swatches[at].id);
        } else {
            assert(rest[i] == palette.swatches[i + 1]);
            assert(palette.swatches[at].id != palette.swatches[i + 1].id);
        }
    }
    assert forall|i: int, j: int| 0 <= i < j < rest.len() implies (#[trigger] rest[i]).id
        != (#[trigger] rest[j]).id by {
        let a = if i < at { i } else { i + 1 };
        let b = if j < at { j } else { j + 1 };
        assert(rest[i] == palette.swatches[a]);
        assert(rest[j] == palette.swatches[b]);
        assert(palette.swatches[a].id != palette.swatches[b].id);
    }
    assert forall|i: int| 0 <= i < after.swatches.len() implies (#[trigger] after.swatches[i]).id
        == rest[i].id && after.swatches[i].color == rest[i].color by {}
    assert(after.swatches[next].id == rest[next].id);
    assert(after.has(rest[next].id));
    assert forall|i: int, j: int| 0 <= i < j < after.swatches.len() implies #[trigger] after.swatches[i].id
        != #[trigger] after.swatches[j].id by {
        assert(rest[i].id != rest[j].id);
    }
    assert forall|i: int| 0 <= i < after.swatches.len() implies (#[trigger] after.swatches[i].symbol
        == Symbol::Selected <==> after.current == Some(after.swatches[i].id)) by {
        if i != next {
            assert(after.swatches[i] == rest[i]);
            if i < next {
                assert(rest[i].id != rest[next].id);
            } else {
                assert(rest[next].id != rest[i].id);
            }
        }
    }
    if after.has(gone) {
        let i = choose|i: int| 0 <= i < after.swatches.len() && #[trigger] after.swatches[i].id == gone;
        assert(rest[i].id != gone);
    }
}

/// Editing the current swatch of a valid palette gives a valid palette that
/// differs only in that swatch's colour.
pub proof fn lemma_edit_wf(palette: PaletteView, color: Rgb)
    requires
        palette.wf(),
        palette.current is Some,
    ensures
        palette.edit(color).wf(),
        palette.edit(color).swatches.len() == palette.swatches.len(),
        palette.edit(color).current == palette.current,
        palette.edit(color).current_color() == color,
{
    let after = palette.edit(color);
    let at = palette.index_of(palette.current->0);
    assert(after.swatches[at].id == palette.current->0);
    assert(after.has(palette.current->0));
    assert forall|i: int, j: int| 0 <= i < j < after.swatches.len() implies #[trigger] after.swatches[i].id
        != #[trigger] after.swatches[j].id by {
        assert(palette.swatches[i].id != palette.swatches[j].id);
    }
    assert forall|i: int| 0 <= i < after.swatches.len() implies (#[trigger] after.swatches[i].symbol
        == Symbol::Selected <==> after.current == Some(after.swatches[i].id)) by {
        assert(after.swatches[i].symbol == palette.swatches[i].symbol);
        assert(after.swatches[i].id == palette.swatches[i].id);
    }
    lemma_index_of(after, at);
}

/// The palette that a new button starts with is valid, whatever colour is
/// published and whichever board it is for.
pub proof fn lemma_initial_wf(rgb: Rgb, board: usize)
    ensures
        initial_palette(rgb, board).wf(),
        initial_palette(rgb, board).swatches.len() == 5,
        initial_palette(rgb, board).current is None,
{
    let palette = initial_palette(rgb, board);
    assert(palette.swatches.len() == 5);
}

/// No event takes a valid palette to an invalid one.
pub proof fn lemma_next_wf(palette: PaletteView, event: Event)
    requires
        palette.wf(),
    ensures
        palette.next(event).wf(),
{
    match event {
        Event::SelectSwatch(target) => {
            if palette.has(target@) {
                lemma_select_wf(palette, target@);
            }
        },
        Event::AddSwatch(Some(color)) => {
            lemma_add_wf(palette, color);
        },
        Event::RemoveSwatch => {
            if palette.can_remove() {
                lemma_remove_wf(palette);
            }
        },
        Event::EditSwatch(Some(color)) => {
            if palette.current is Some {
                lemma_edit_wf(palette, color);
            }
        },
        _ => {},
    }
}

/// After any sequence of events a palette that was valid still has a swatch,
/// and its current swatch, if it has one, is one of its swatches.
pub proof fn lemma_run_wf(palette: PaletteView, events: Seq<Event>)
    requires
        palette.wf(),
    ensures
        palette.run(events).wf(),
        palette.run(events).swatches.len() >= 1,
        palette.run(events).current is Some ==> palette.run(events).has(
            palette.run(events).current->0,
        ),
    decreases events.len(),
{
    if events.len() > 0 {
        lemma_run_wf(palette, events.drop_last());
        lemma_next_wf(palette.run(events.drop_last()), events.last());
    }
}

/// Where no swatch is marked, the count of marked swatches is zero.
proof fn lemma_count_none(swatches: Seq<SwatchView>)
    requires
        forall|i: int| 0 <= i < swatches.len() ==> (#[trigger] swatches[i]).symbol != Symbol::Selected,
    ensures
        count_selected(swatches) == 0,
    decreases swatches.len(),
{
    if swatches.len() > 0 {
        let front = swatches.drop_last();
        assert forall|i: int| 0 <= i < front.len() implies (#[trigger] front[i]).symbol
            != Symbol::Selected by {
            assert(front[i] == swatches[i]);
        }
        lemma_count_none(front);
    }
}

/// Where the swatch at `at` is marked and no other, the count of marked
/// swatches is one.
proof fn lemma_count_one(swatches: Seq<SwatchView>, at: int)
    requires
        0 <= at < swatches.len(),
        forall|i: int|
            0 <= i < swatches.len() ==> ((#[trigger] swatches[i]).symbol == Symbol::Selected <==> i
                == at),
    ensures
        count_selected(swatches) == 1,
    decreases swatches.len(),
{
    let front = swatches.drop_last();
    if at == swatches.len() - 1 {
        assert forall|i: int| 0 <= i < front.len() implies (#[trigger] front[i]).symbol
            != Symbol::Selected by {
            assert(front[i] == swatches[i]);
        }
        lemma_count_none(front);
    } else {
        assert forall|i: int| 0 <= i < front.len() implies ((#[trigger] front[i]).symbol
            == Symbol::Selected <==> i == at) by {
            assert(front[i] == swatches[i]);
        }
        lemma_count_one(front, at);
    }
}

/// In a valid palette exactly one swatch is marked where there is a current
/// swatch, and none where there is not.
pub proof fn lemma_single_selection(palette: PaletteView)
    requires
        palette.wf(),
    ensures
        count_selected(palette.swatches) == (if palette.current is Some {
            1nat
        } else {
            0nat
        }),
{
    if palette.current is Some {
        let at = palette.index_of(palette.current->0);
        assert forall|i: int| 0 <= i < palette.swatches.len() implies (#[trigger] palette.swatches[i].symbol
            == Symbol::Selected <==> i == at) by {
            lemma_index_of(palette, i);
        }
        lemma_count_one(palette.swatches, at);
    } else {
        lemma_count_none(palette.swatches);
    }
}

/// After any sequence of events on a valid palette exactly one swatch is
/// marked where there is a current swatch, and none where there is not.
pub proof fn lemma_run_single_selection(palette: PaletteView, events: Seq<Event>)
    requires
        palette.wf(),
    ensures
        count_selected(palette.run(events).swatches) == (if palette.run(events).current is Some {
            1nat
        } else {
            0nat
        }),
{
    lemma_run_wf(palette, events);
    lemma_single_selection(palette.run(events));
}

/// Whatever happens to a new button's palette, it keeps at least one swatch,
/// its current swatch is one of its swatches, and that swatch alone is
/// marked.
pub proof fn lemma_reachable_valid(rgb: Rgb, board: usize, events: Seq<Event>)
    ensures
        ({
            let reached = initial_palette(rgb, board).run(events);
            &&& reached.wf()
            &&& reached.swatches.len() >= 1
            &&& reached.current is Some ==> reached.has(reached.current->0)
            &&& count_selected(reached.swatches) == (if reached.current is Some {
                1nat
            } else {
                0nat
            })
        }),
{
    lemma_initial_wf(rgb, board);
    lemma_run_wf(initial_palette(rgb, board), events);
    lemma_run_single_selection(initial_palette(rgb, board), events);
}

/// Removing the current swatch makes the one before it current, and the new
/// first one where the first one was removed; the others keep their order.
pub proof fn lemma_remove_neighbor(palette: PaletteView)
    requires
        palette.wf(),
        palette.can_remove(),
    ensures
        ({
            let at = palette.index_of(palette.current->0);
            let after = palette.next(Event::RemoveSwatch);
            &&& after.swatches.len() == palette.swatches.len() - 1
            &&& forall|i: int| 0 <= i < at ==> (#[trigger] after.swatches[i]).id == palette.swatches[i].id
            &&& forall|i: int|
                at <= i < after.swatches.len() ==> (#[trigger] after.swatches[i]).id
                    == palette.swatches[i + 1].id
            &&& at > 0 ==> after.current == Some(palette.swatches[at - 1].id)
            &&& at == 0 ==> after.current == Some(palette.swatches[1].id)
        }),
{
    lemma_remove_wf(palette);
}

/// "Remove" is offered exactly while more than one swatch is left: taking the
/// second to last swatch away hides it, and adding one shows it again.
pub proof fn lemma_remove_visibility(palette: PaletteView, color: Rgb)
    requires
        palette.wf(),
        palette.current is Some,
        palette.swatches.len() == 2,
    ensures
        !palette.next(Event::RemoveSwatch).remove_visible(),
        palette.next(Event::RemoveSwatch).next(Event::RemoveSwatch) == palette.next(
            Event::RemoveSwatch,
        ),
        palette.next(Event::RemoveSwatch).next(Event::AddSwatch(Some(color))).remove_visible(),
{
    lemma_remove_wf(palette);
}

/// Adding a colour puts one new swatch of that colour at the end, leaves the
/// swatches before it as they were, and leaves the current swatch current.
pub proof fn lemma_add_appends(palette: PaletteView, color: Rgb)
    requires
        palette.wf(),
    ensures
        ({
            let after = palette.next(Event::AddSwatch(Some(color)));
            &&& after.swatches.len() == palette.swatches.len() + 1
            &&& after.swatches.drop_last() == palette.swatches
            &&& after.swatches.last().color == color
            &&& after.swatches.last().symbol == Symbol::Unmarked
            &&& !palette.has(after.swatches.last().id)
            &&& after.current == palette.current
            &&& palette.effects(Event::AddSwatch(Some(color))) == Seq::<Effect>::empty()
        }),
{
    lemma_add_wf(palette, color);
}

/// A write that fails after a click on a swatch takes nothing back: the
/// clicked swatch is current and marked, its colour is published, and the
/// failure is reported, nothing else.
pub proof fn lemma_write_failure_keeps_selection(
    palette: PaletteView,
    target: SwatchId,
    error: DeviceError,
)
    requires
        palette.wf(),
        palette.has(target@),
    ensures
        ({
            let selected = palette.next(Event::SelectSwatch(target));
            let failed = Event::WriteFinished(Err(error));
            let at = palette.index_of(target@);
            &&& selected.next(failed) == selected
            &&& selected.effects(failed) == seq![Effect::Report(write_failed(error))]
            &&& selected.current == Some(target@)
            &&& selected.swatches[at].symbol == Symbol::Selected
            &&& selected.rgb == palette.swatches[at].color
            &&& palette.effects(Event::SelectSwatch(target)) == seq![
                Effect::ColorChanged(palette.swatches[at].color),
                Effect::Write { board: palette.board, color: palette.swatches[at].color },
            ]
        }),
{
    lemma_select_wf(palette, target@);
}

/// A cancelled picker changes nothing and writes the current swatch's colour
/// to the device exactly once, whether it was opened to add or to edit.
pub proof fn lemma_cancel_confirms(palette: PaletteView)
    requires
        palette.wf(),
        palette.current is Some,
    ensures
        palette.next(Event::AddSwatch(None)) == palette,
        palette.next(Event::EditSwatch(None)) == palette,
        palette.effects(Event::AddSwatch(None)) == seq![
            Effect::Write { board: palette.board, color: palette.current_color() },
        ],
        palette.effects(Event::EditSwatch(None)) == palette.effects(Event::AddSwatch(None)),
{
}

} // verus!
