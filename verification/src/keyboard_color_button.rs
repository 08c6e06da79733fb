//! The palette that runs: the state behind the colour button, and the
//! transitions that the host calls when the user clicks.

use vstd::prelude::*;
use crate::color::Rgb;
use crate::laws::{
    lemma_add_wf, lemma_edit_wf, lemma_fresh_id, lemma_index_of, lemma_remove_wf,
    lemma_select_wf, lemma_used_prefix_bounded,
};
use crate::layout::{cell, grid_of, layout, GridPosition};
use crate::palette::{default_colors, initial_palette, Effect, Event, PaletteView};
use crate::swatch::{swatch_views, Swatch, SwatchId, Symbol};
use crate::sync::{read_notice, seed_color, settle_read, settle_write, DeviceError};

verus! {

/// The state behind the colour button: the swatches, which of them is
/// current, the board that writes go to, and the published colour.
pub struct KeyboardColorButtonInner {
    circles: Vec<Swatch>,
    current_circle: Option<SwatchId>,
    daemon_board: usize,
    rgb: Rgb,
}

impl View for KeyboardColorButtonInner {
    type V = PaletteView;

    closed spec fn view(&self) -> PaletteView {
        PaletteView {
            swatches: swatch_views(self.circles@),
            current: match self.current_circle {
                Some(id) => Some(id@),
                None => None,
            },
            rgb: self.rgb,
            board: self.daemon_board,
        }
    }
}

impl KeyboardColorButtonInner {
    /// The swatches, in the order in which they are shown.
    pub fn circles(&self) -> (circles: &Vec<Swatch>)
        ensures
            swatch_views(circles@) == self@.swatches,
    {
        &self.circles
    }

    /// The identity of the current swatch, if there is one.
    pub fn current_circle(&self) -> (current: Option<SwatchId>)
        ensures
            current is Some <==> self@.current is Some,
            current is Some ==> self@.current == Some(current->0@),
    {
        self.current_circle
    }

    /// The board of the device that writes go to.
    pub fn daemon_board(&self) -> (board: usize)
        ensures
            board == self@.board,
    {
        self.daemon_board
    }

    /// The published colour.
    pub fn rgb(&self) -> (rgb: Rgb)
        ensures
            rgb == self@.rgb,
    {
        self.rgb
    }
}

/// What the host needs to draw the palette.
pub struct Snapshot {
    /// The swatches, in the order in which they are shown.
    pub swatches: Vec<Swatch>,
    /// The identity of the current swatch, if there is one.
    pub current: Option<SwatchId>,
    /// The cell of each swatch, and after them the cell of the "add" entry.
    pub cells: Vec<GridPosition>,
    /// Whether "remove" is offered.
    pub remove_visible: bool,
}

/// The colour button: a palette, and the transitions on it.
pub struct KeyboardColorButton {
    inner: KeyboardColorButtonInner,
}

impl View for KeyboardColorButton {
    type V = PaletteView;

    closed spec fn view(&self) -> PaletteView {
        self.inner@
    }
}

impl KeyboardColorButton {
    /// Whether the palette is a valid one.
    pub open spec fn wf(&self) -> bool {
        self@.wf()
    }

    /// A button for `daemon_board`, from what the device reported as its
    /// colour. The palette holds the default colours and no swatch is
    /// current. The reported colour is published; where the read failed,
    /// black is published and the failure is to be reported.
    pub fn new(reported: Result<Rgb, DeviceError>, daemon_board: usize) -> (made: (
        KeyboardColorButton,
        Vec<Effect>,
    ))
        ensures
            made.0@ == initial_palette(seed_color(reported), daemon_board),
            made.0.wf(),
            made.1@ == match read_notice(reported) {
                Some(notice) => seq![Effect::Report(notice)],
                None => seq![],
            },
    {
        let (rgb, notice) = settle_read(reported);
        let mut button = KeyboardColorButton {
            inner: KeyboardColorButtonInner {
                circles: Vec::new(),
                current_circle: None,
                daemon_board,
                rgb: Rgb::new(0, 0, 0),
            },
        };
        button.set_rgb(rgb);
        let colors = vec![
            Rgb::new(255, 255, 255),
            Rgb::new(0, 0, 255),
            Rgb::new(255, 0, 0),
            Rgb::new(255, 255, 0),
            Rgb::new(0, 255, 0),
        ];
        assert(colors@ =~= default_colors());
        assert(button@.swatches =~= initial_palette(rgb, daemon_board).swatches.take(0));
        let mut i: usize = 0;
        while i < colors.len()
            invariant
                i <= colors.len(),
                colors@ == default_colors(),
                button@ == (PaletteView {
                    swatches: initial_palette(rgb, daemon_board).swatches.take(i as int),
                    ..initial_palette(rgb, daemon_board)
                }),
            decreases colors.len() - i,
        {
            proof {
                let before = button@;
                assert forall|id: nat| id < i implies #[trigger] before.has(id) by {
                    assert(before.swatches[id as int].id == id);
                }
                assert(before.is_fresh(i as nat));
                lemma_fresh_id(before);
            }
            button.add_color(colors[i]);
            i += 1;
            assert(button@.swatches =~= initial_palette(rgb, daemon_board).swatches.take(i as int));
        }
        assert(button@.swatches =~= initial_palette(rgb, daemon_board).swatches);
        let effects = match notice {
            Some(notice) => vec![Effect::Report(notice)],
            None => Vec::new(),
        };
        (button, effects)
    }

    /// The state behind the button.
    pub fn inner(&self) -> (inner: &KeyboardColorButtonInner)
        ensures
            inner@ == self@,
    {
        &self.inner
    }

    /// The board of the device that writes go to.
    pub fn daemon_board(&self) -> (board: usize)
        ensures
            board == self@.board,
    {
        self.inner.daemon_board
    }

    /// The published colour.
    pub fn rgb(&self) -> (rgb: Rgb)
        ensures
            rgb == self@.rgb,
    {
        self.inner.rgb
    }

    /// Publishes `rgb`. Telling the subscribers is left to who calls.
    fn set_rgb(&mut self, rgb: Rgb)
        ensures
            final(self)@ == (PaletteView { rgb, ..old(self)@ }),
            final(self).inner.circles == old(self).inner.circles,
            final(self).inner.current_circle == old(self).inner.current_circle,
    {
        self.inner.rgb = rgb;
    }

    /// Whether "remove" is offered: only while more than one swatch is left.
    pub fn remove_visible(&self) -> (visible: bool)
        ensures
            visible == self@.remove_visible(),
    {
        self.inner.circles.len() > 1
    }

    /// Where the swatch with this identity stands, if the palette has it.
    pub fn position(&self, id: SwatchId) -> (found: Option<usize>)
        ensures
            found is Some <==> self@.has(id@),
            found is Some ==> found->0 < self@.swatches.len() && self@.swatches[found->0 as int].id
                == id@,
            found is Some ==> forall|j: int| 0 <= j < found->0 ==> (#[trigger] self@.swatches[j]).id
                != id@,
            found is Some && self.wf() ==> found->0 == self@.index_of(id@),
    {
        let mut i: usize = 0;
        while i < self.inner.circles.len()
            invariant
                i <= self.inner.circles.len(),
                forall|j: int| 0 <= j < i ==> (#[trigger] self@.swatches[j]).id != id@,
            decreases self.inner.circles.len() - i,
        {
            if self.inner.circles[i].id == id {
                proof {
                    assert(self@.swatches[i as int].id == id@);
                    if self.wf() {
                        lemma_index_of(self@, i as int);
                    }
                }
                return Some(i);
            }
            i += 1;
        }
        None
    }

    /// The colour of the current swatch, if there is one: what the picker
    /// opens on for "edit".
    pub fn current_color(&self) -> (color: Option<Rgb>)
        requires
            self.wf(),
        ensures
            color == (if self@.current is Some {
                Some(self@.current_color())
            } else {
                None
            }),
    {
        match self.inner.current_circle {
            Some(current) => match self.position(current) {
                Some(at) => Some(self.inner.circles[at].color),
                None => None,
            },
            None => None,
        }
    }

    /// The identity for the next new swatch: the smallest one that no swatch
    /// of the palette has. Among the first identities, one more than there
    /// are swatches, one is always free.
    fn fresh_id(&self) -> (id: SwatchId)
        ensures
            id@ == self@.fresh_id(),
    {
        let count = self.inner.circles.len();
        let mut candidate: u64 = 0;
        loop
            invariant
                count == self@.swatches.len(),
                forall|id: nat| id < candidate ==> #[trigger] self@.has(id),
            decreases count - candidate,
        {
            proof {
                lemma_used_prefix_bounded(self@, candidate as nat);
            }
            match self.position(SwatchId(candidate)) {
                None => {
                    proof {
                        assert(self@.is_fresh(candidate as nat));
                        lemma_fresh_id(self@);
                    }
                    return SwatchId(candidate);
                },
                Some(_) => {
                    proof {
                        lemma_used_prefix_bounded(self@, candidate as nat + 1);
                    }
                    candidate += 1;
                },
            }
        }
    }

    /// Puts a new, unmarked swatch of this colour at the end of the palette.
    /// The swatches before it, the current swatch and the published colour
    /// stay.
    pub fn add_color(&mut self, color: Rgb)
        ensures
            final(self)@ == old(self)@.add(color),
            old(self).wf() ==> final(self).wf(),
    {
        let id = self.fresh_id();
        self.inner.circles.push(Swatch { color, id, symbol: Symbol::Unmarked });
        proof {
            assert(self@.swatches =~= old(self)@.add(color).swatches);
            if old(self).wf() {
                lemma_add_wf(old(self)@, color);
            }
        }
    }

    /// The cell of each swatch, in order, and after them the cell of the
    /// "add" entry.
    pub fn populate_grid(&self) -> (cells: Vec<GridPosition>)
        ensures
            cells@ == grid_of(self@.swatches.len() + 1),
    {
        let count = self.inner.circles.len();
        let mut cells = layout(count);
        cells.push(cell(count));
        assert(cells@ =~= grid_of(self@.swatches.len() + 1));
        cells
    }

    /// What the host needs to draw the palette as it is now.
    pub fn snapshot(&self) -> (shown: Snapshot)
        ensures
            swatch_views(shown.swatches@) == self@.swatches,
            shown.current is Some <==> self@.current is Some,
            shown.current is Some ==> self@.current == Some(shown.current->0@),
            shown.cells@ == grid_of(self@.swatches.len() + 1),
            shown.remove_visible == self@.remove_visible(),
    {
        let mut swatches: Vec<Swatch> = Vec::new();
        let mut i: usize = 0;
        while i < self.inner.circles.len()
            invariant
                i <= self.inner.circles.len(),
                swatches@ == self.inner.circles@.take(i as int),
            decreases self.inner.circles.len() - i,
        {
            swatches.push(self.inner.circles[i]);
            i += 1;
            assert(swatches@ =~= self.inner.circles@.take(i as int));
        }
        assert(swatches@ =~= self.inner.circles@);
        Snapshot {
            swatches,
            current: self.inner.current_circle,
            cells: self.populate_grid(),
            remove_visible: self.remove_visible(),
        }
    }

    /// A click on the swatch `target`. Where the palette has it, it becomes
    /// the current swatch and the only marked one, its colour is published
    /// and is to be written to the device. Where the palette does not have
    /// it, nothing happens.
    pub fn circle_clicked(&mut self, target: SwatchId) -> (effects: Vec<Effect>)
        requires
            old(self).wf(),
        ensures
            final(self)@ == old(self)@.next(Event::SelectSwatch(target)),
            effects@ == old(self)@.effects(Event::SelectSwatch(target)),
            final(self).wf(),
    {
        match self.position(target) {
            None => Vec::new(),
            Some(at) => {
                let color = self.inner.circles[at].color;
                let ghost mut cleared: int = -1;
                if let Some(previous) = self.inner.current_circle {
                    if let Some(was) = self.position(previous) {
                        self.inner.circles[was].symbol = Symbol::Unmarked;
                        proof {
                            cleared = was as int;
                        }
                    }
                }
                proof {
                    let before = old(self)@;
                    assert(self.inner.circles@.len() == before.swatches.len());
                    assert(before.current is Some ==> cleared == before.index_of(before.current->0));
                    assert forall|i: int| 0 <= i < before.swatches.len() implies ({
                        let now = #[trigger] self.inner.circles@[i];
                        let then = old(self).inner.circles@[i];
                        now.symbol == Symbol::Unmarked && now.id == then.id && now.color
                            == then.color
                    }) by {
                        lemma_index_of(before, i);
                        let then = old(self).inner.circles@[i];
                        assert(before.swatches[i] == then@);
                        assert(before.swatches[i].symbol == Symbol::Selected <==> before.current
                            == Some(before.swatches[i].id));
                        if i != cleared {
                            assert(self.inner.circles@[i] == then);
                            assert(then.symbol != Symbol::Selected);
                        }
                    }
                }
                self.inner.circles[at].symbol = Symbol::Selected;
                self.inner.current_circle = Some(target);
                self.set_rgb(color);
                proof {
                    let before = old(self)@;
                    lemma_select_wf(before, target@);
                    assert forall|i: int| 0 <= i < before.swatches.len() implies #[trigger] self@.swatches[i]
                        == before.select(target@).swatches[i] by {
                        lemma_index_of(before, i);
                        assert(self@.swatches[i] == self.inner.circles@[i]@);
                        assert(before.swatches[i] == old(self).inner.circles@[i]@);
                    }
                    assert(self@.swatches =~= before.select(target@).swatches);
                }
                vec![
                    Effect::ColorChanged(color),
                    Effect::Write { board: self.inner.daemon_board, color },
                ]
            },
        }
    }

    /// The colour picker for "add" has closed. With a colour chosen, a new
    /// swatch of that colour stands at the end of the palette. With none, the
    /// current swatch's colour is to be written to the device once more, if
    /// there is a current swatch.
    pub fn add_clicked(&mut self, chosen: Option<Rgb>) -> (effects: Vec<Effect>)
        requires
            old(self).wf(),
        ensures
            final(self)@ == old(self)@.next(Event::AddSwatch(chosen)),
            effects@ == old(self)@.effects(Event::AddSwatch(chosen)),
            final(self).wf(),
    {
        match chosen {
            Some(color) => {
                self.add_color(color);
                Vec::new()
            },
            None => self.confirm(),
        }
    }

    /// "Remove" was clicked. Where there is a current swatch and it is not
    /// the only one left, it leaves the palette, and the swatch before it,
    /// or the new first one, becomes current and marked. Nothing is written
    /// to the device and the published colour stays. Otherwise nothing
    /// happens.
    pub fn remove_clicked(&mut self)
        requires
            old(self).wf(),
        ensures
            final(self)@ == old(self)@.next(Event::RemoveSwatch),
            final(self).wf(),
    {
        if let Some(current) = self.inner.current_circle {
            if self.inner.circles.len() > 1 {
                if let Some(at) = self.position(current) {
                    self.inner.circles.remove(at);
                    let next: usize = if at == 0 {
                        0
                    } else {
                        at - 1
                    };
                    self.inner.circles[next].symbol = Symbol::Selected;
                    self.inner.current_circle = Some(self.inner.circles[next].id);
                    proof {
                        lemma_remove_wf(old(self)@);
                        assert(self@.swatches =~= old(self)@.remove().swatches);
                    }
                }
            }
        }
    }

    /// The colour picker for "edit" has closed. Nothing happens without a
    /// current swatch. With a colour chosen, the current swatch takes that
    /// colour and nothing is written to the device. With none, the current
    /// swatch's colour is to be written to the device once more.
    pub fn edit_clicked(&mut self, chosen: Option<Rgb>) -> (effects: Vec<Effect>)
        requires
            old(self).wf(),
        ensures
            final(self)@ == old(self)@.next(Event::EditSwatch(chosen)),
            effects@ == old(self)@.effects(Event::EditSwatch(chosen)),
            final(self).wf(),
    {
        match chosen {
            Some(color) => {
                if let Some(current) = self.inner.current_circle {
                    if let Some(at) = self.position(current) {
                        self.inner.circles[at].color = color;
                        proof {
                            lemma_edit_wf(old(self)@, color);
                            assert(self@.swatches =~= old(self)@.edit(color).swatches);
                        }
                    }
                }
                Vec::new()
            },
            None => self.confirm(),
        }
    }

    /// What a cancelled picker asks for: the current swatch's colour is
    /// written to the device once more, if there is a current swatch.
    fn confirm(&self) -> (effects: Vec<Effect>)
        requires
            self.wf(),
        ensures
            effects@ == self@.confirm(),
    {
        match self.current_color() {
            Some(color) => vec![Effect::Write { board: self.inner.daemon_board, color }],
            None => Vec::new(),
        }
    }

    /// The device has answered a write. The palette stays as it is; a
    /// failure is to be reported.
    pub fn write_finished(&self, outcome: Result<(), DeviceError>) -> (effects: Vec<Effect>)
        ensures
            effects@ == self@.effects(Event::WriteFinished(outcome)),
    {
        match settle_write(outcome) {
            Some(notice) => vec![Effect::Report(notice)],
            None => Vec::new(),
        }
    }

    /// Takes the palette through `event` and says what the host is to do
    /// then, in order.
    pub fn apply(&mut self, event: Event) -> (effects: Vec<Effect>)
        requires
            old(self).wf(),
        ensures
            final(self)@ == old(self)@.next(event),
            effects@ == old(self)@.effects(event),
            final(self).wf(),
    {
        match event {
            Event::SelectSwatch(target) => self.circle_clicked(target),
            Event::AddSwatch(chosen) => self.add_clicked(chosen),
            Event::RemoveSwatch => {
                self.remove_clicked();
                Vec::new()
            },
            Event::EditSwatch(chosen) => self.edit_clicked(chosen),
            Event::WriteFinished(outcome) => self.write_finished(outcome),
        }
    }
}

} // verus!
