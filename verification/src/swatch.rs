//! One entry of the palette.

use vstd::prelude::*;
use crate::color::Rgb;

verus! {

/// The identity of a swatch. It stays with the swatch for as long as the
/// swatch is in the palette, and serves only to find the swatch again.
#[derive(Clone, Copy, Debug, PartialEq, Eq, Structural, Hash)]
pub struct SwatchId(pub u64);

impl View for SwatchId {
    type V = nat;

    open spec fn view(&self) -> nat {
        self.0 as nat
    }
}

/// What a swatch shows on top of its colour.
#[derive(Clone, Copy, Debug, PartialEq, Eq, Structural, Hash)]
pub enum Symbol {
    /// Nothing: the swatch is not the current one.
    Unmarked,
    /// The check mark of the current swatch.
    Selected,
}

/// A palette entry: a colour, an identity and the selection mark.
#[derive(Clone, Copy, Debug, PartialEq, Eq, Structural, Hash)]
pub struct Swatch {
    pub color: Rgb,
    pub id: SwatchId,
    pub symbol: Symbol,
}

/// A swatch as the palette's model sees it: the identity is a natural number.
pub struct SwatchView {
    pub color: Rgb,
    pub id: nat,
    pub symbol: Symbol,
}

impl View for Swatch {
    type V = SwatchView;

    open spec fn view(&self) -> SwatchView {
        SwatchView { color: self.color, id: self.id@, symbol: self.symbol }
    }
}

/// The swatches of a list as the palette's model sees them.
pub open spec fn swatch_views(swatches: Seq<Swatch>) -> Seq<SwatchView> {
    swatches.map_values(|swatch: Swatch| swatch@)
}

} // verus!
