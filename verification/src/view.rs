//! Showing state as text.

use vstd::prelude::*;
use crate::area::Area;

verus! {

/// Something that can be shown as text in an area.
pub trait View {
    fn view(&self, area: Area) -> String;
}

} // verus!
