//! Hit-test results for one pass, in plain values.

use vstd::prelude::*;

verus! {

/// One widget's interactive region, reduced to plain values.
#[derive(Clone, Copy, Debug, PartialEq, Eq, Structural)]
pub struct WidgetRect {
    pub id: u64,
    pub layer_id: u64,
    pub enabled: bool,
}

/// Which widgets the pointer is over, close to, and about to click or
/// drag.
#[derive(Clone, Debug, PartialEq)]
pub struct WidgetHits {
    pub close: Vec<WidgetRect>,
    pub contains_pointer: Vec<WidgetRect>,
    pub click: Option<WidgetRect>,
    pub drag: Option<WidgetRect>,
}

impl Default for WidgetHits {
    fn default() -> (r: WidgetHits)
        ensures
            r.close@ == Seq::<WidgetRect>::empty(),
            r.contains_pointer@ == Seq::<WidgetRect>::empty(),
            r.click is None,
            r.drag is None,
    {
        WidgetHits { close: Vec::new(), contains_pointer: Vec::new(), click: None, drag: None }
    }
}

} // verus!
