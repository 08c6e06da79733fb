//! The palette as a mathematical state machine: its states, the events that
//! move it, and the effects that each move asks of the host.

use vstd::prelude::*;
use crate::color::Rgb;
use crate::swatch::{SwatchId, SwatchView, Symbol};
use crate::sync::{write_notice, DeviceError, Notice};

verus! {

/// Something that happened outside and that the palette reacts to.
#[derive(Debug, PartialEq, Eq)]
pub enum Event {
    /// The swatch with this identity was clicked.
    SelectSwatch(SwatchId),
    /// The "add" entry was clicked and the colour picker, opened empty, has
    /// closed: with the colour chosen, or with none where it was cancelled.
    AddSwatch(Option<Rgb>),
    /// "Remove" was clicked.
    RemoveSwatch,
    /// "Edit" was clicked and the colour picker, opened on the current
    /// swatch's colour, has closed: with the colour chosen, or with none.
    EditSwatch(Option<Rgb>),
    /// The device has answered a write.
    WriteFinished(Result<(), DeviceError>),
}

/// Something that the host does for the palette after a transition.
#[derive(Clone, Debug, PartialEq, Eq)]
pub enum Effect {
    /// Tell subscribers that the published colour is now this one.
    ColorChanged(Rgb),
    /// Write this colour to the device, for this board, and feed the outcome
    /// back as `Event::WriteFinished`.
    Write { board: usize, color: Rgb },
    /// Pass this notice on to the observer.
    Report(Notice),
}

/// A state of the palette.
pub struct PaletteView {
    /// The swatches, in the order in which they are shown.
    pub swatches: Seq<SwatchView>,
    /// The identity of the current swatch, if there is one.
    pub current: Option<nat>,
    /// The published colour.
    pub rgb: Rgb,
    /// The board of the device that writes go to.
    pub board: usize,
}

/// The colours that a new palette starts with, in their order.
pub open spec fn default_colors() -> Seq<Rgb> {
    seq![
        Rgb { r: 255, g: 255, b: 255 },
        Rgb { r: 0, g: 0, b: 255 },
        Rgb { r: 255, g: 0, b: 0 },
        Rgb { r: 255, g: 255, b: 0 },
        Rgb { r: 0, g: 255, b: 0 },
    ]
}

/// The palette that a new button starts with: the default colours, numbered
/// from zero, none of them current, and `rgb` published.
pub open spec fn initial_palette(rgb: Rgb, board: usize) -> PaletteView {
    PaletteView {
        swatches: Seq::new(
            default_colors().len(),
            |i: int|
                SwatchView { color: default_colors()[i], id: i as nat, symbol: Symbol::Unmarked },
        ),
        current: None,
        rgb,
        board,
    }
}

/// How many of `swatches` carry the selection mark.
pub open spec fn count_selected(swatches: Seq<SwatchView>) -> nat
    decreases swatches.len(),
{
    if swatches.len() == 0 {
        0
    } else {
        let rest = count_selected(swatches.drop_last());
        if swatches.last().symbol == Symbol::Selected {
            rest + 1
        } else {
            rest
        }
    }
}

impl PaletteView {
    /// Whether a swatch of the palette has this identity.
    pub open spec fn has(self, id: nat) -> bool {
        exists|i: int| 0 <= i < self.swatches.len() && #[trigger] self.swatches[i].id == id
    }

    /// The place of the swatch with this identity, for an identity that the
    /// palette has.
    pub open spec fn index_of(self, id: nat) -> int {
        choose|i: int| 0 <= i < self.swatches.len() && #[trigger] self.swatches[i].id == id
    }

    /// What holds of every palette: it is not empty, no two swatches share an
    /// identity, the current swatch is one of the palette, and it alone
    /// carries the selection mark.
    pub open spec fn wf(self) -> bool {
        &&& self.swatches.len() >= 1
        &&& forall|i: int, j: int|
            0 <= i < j < self.swatches.len() ==> #[trigger] self.swatches[i].id
                != #[trigger] self.swatches[j].id
        &&& self.current is Some ==> self.has(self.current->0)
        &&& forall|i: int|
            0 <= i < self.swatches.len() ==> (#[trigger] self.swatches[i].symbol
                == Symbol::Selected <==> self.current == Some(self.swatches[i].id))
    }

    /// Whether the host offers "remove": only while more than one swatch is
    /// left.
    pub open spec fn remove_visible(self) -> bool {
        self.swatches.len() > 1
    }

    /// The colour of the current swatch, where there is one.
    pub open spec fn current_color(self) -> Rgb {
        self.swatches[self.index_of(self.current->0)].color
    }

    /// Whether `id` is the identity that the next new swatch gets: the
    /// smallest one that no swatch of the palette has.
    pub open spec fn is_fresh(self, id: nat) -> bool {
        &&& !self.has(id)
        &&& forall|smaller: nat| smaller < id ==> #[trigger] self.has(smaller)
    }

    /// The identity that the next new swatch gets.
    pub open spec fn fresh_id(self) -> nat {
        choose|id: nat| self.is_fresh(id)
    }

    /// The palette after a click on the swatch `target`, which it has: that
    /// swatch alone is marked, it is the current one, and its colour is the
    /// published one.
    pub open spec fn select(self, target: nat) -> PaletteView {
        PaletteView {
            swatches: Seq::new(
                self.swatches.len(),
                |i: int|
                    SwatchView {
                        symbol: if self.swatches[i].id == target {
                            Symbol::Selected
                        } else {
                            Symbol::Unmarked
                        },
                        ..self.swatches[i]
                    },
            ),
            current: Some(target),
            rgb: self.swatches[self.index_of(target)].color,
            board: self.board,
        }
    }

    /// The palette with a new, unmarked swatch of this colour at its end.
    pub open spec fn add(self, color: Rgb) -> PaletteView {
        PaletteView {
            swatches: self.swatches.push(
                SwatchView { color, id: self.fresh_id(), symbol: Symbol::Unmarked },
            ),
            ..self
        }
    }

    /// Whether "remove" does anything: there is a current swatch, and it is
    /// not the last one left.
    pub open spec fn can_remove(self) -> bool {
        self.current is Some && self.swatches.len() > 1
    }

    /// The place of the swatch that becomes current when the one at `removed`
    /// leaves, counted in what is left: the one before it, or the new first
    /// one where the first one left.
    pub open spec fn neighbor(removed: int) -> int {
        if removed == 0 {
            0
        } else {
            removed - 1
        }
    }

    /// The palette without its current swatch, where `can_remove` holds: the
    /// neighbour is marked and current. The published colour stays.
    pub open spec fn remove(self) -> PaletteView {
        let rest = self.swatches.remove(self.index_of(self.current->0));
        let next = Self::neighbor(self.index_of(self.current->0));
        PaletteView {
            swatches: rest.update(next, SwatchView { symbol: Symbol::Selected, ..rest[next] }),
            current: Some(rest[next].id),
            ..self
        }
    }

    /// The palette with this colour on its current swatch, where there is
    /// one. Identity, mark and published colour stay.
    pub open spec fn edit(self, color: Rgb) -> PaletteView {
        let at = self.index_of(self.current->0);
        PaletteView {
            swatches: self.swatches.update(at, SwatchView { color, ..self.swatches[at] }),
            ..self
        }
    }

    /// The effects of a cancelled picker: the current swatch's colour is
    /// written to the device once more, where there is a current swatch.
    pub open spec fn confirm(self) -> Seq<Effect> {
        if self.current is Some {
            seq![Effect::Write { board: self.board, color: self.current_color() }]
        } else {
            seq![]
        }
    }

    /// The state after `event`.
    pub open spec fn next(self, event: Event) -> PaletteView {
        match event {
            Event::SelectSwatch(target) => if self.has(target@) {
                self.select(target@)
            } else {
                self
            },
            Event::AddSwatch(Some(color)) => self.add(color),
            Event::RemoveSwatch => if self.can_remove() {
                self.remove()
            } else {
                self
            },
            Event::EditSwatch(Some(color)) => if self.current is Some {
                self.edit(color)
            } else {
                self
            },
            Event::AddSwatch(None) | Event::EditSwatch(None) | Event::WriteFinished(_) => self,
        }
    }

    /// What `event` asks of the host, in order.
    pub open spec fn effects(self, event: Event) -> Seq<Effect> {
        match event {
            Event::SelectSwatch(target) => if self.has(target@) {
                let color = self.swatches[self.index_of(target@)].color;
                seq![Effect::ColorChanged(color), Effect::Write { board: self.board, color }]
            } else {
                seq![]
            },
            Event::AddSwatch(None) | Event::EditSwatch(None) => self.confirm(),
            Event::WriteFinished(outcome) => match write_notice(outcome) {
                Some(notice) => seq![Effect::Report(notice)],
                None => seq![],
            },
            Event::AddSwatch(Some(_)) | Event::RemoveSwatch | Event::EditSwatch(Some(_)) => seq![],
        }
    }

    /// The state after all of `events`, taken in order.
    pub open spec fn run(self, events: Seq<Event>) -> PaletteView
        decreases events.len(),
    {
        if events.len() == 0 {
            self
        } else {
            self.run(events.drop_last()).next(events.last())
        }
    }
}

} // verus!
