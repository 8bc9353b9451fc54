//! Pinned (source, attribute) widgets of the Lens view and the values they retain.
use vstd::prelude::*;
use std::collections::VecDeque;
use crate::text::str_eq;

verus! {

/// Maximum number of values retained per pinned widget.
pub const MAX_PIN_VALUES: usize = 1000;

/// Identifies which view occupies the main area.
#[derive(Clone, Copy, PartialEq, Eq, Debug, Structural)]
pub enum ActiveView {
    LogList,
    Lens,
}

/// Available layout presets for the Lens grid.
#[derive(Clone, Copy, PartialEq, Eq, Debug, Structural)]
pub enum LensLayout {
    Column,
    Grid2,
    Grid3,
    Mosaic,
}

impl LensLayout {
    pub open spec fn css_class_spec(self) -> Seq<char> {
        match self {
            LensLayout::Column => "lens-grid column"@,
            LensLayout::Grid2 => "lens-grid grid2"@,
            LensLayout::Grid3 => "lens-grid grid3"@,
            LensLayout::Mosaic => "lens-grid mosaic"@,
        }
    }

    pub open spec fn label_spec(self) -> Seq<char> {
        match self {
            LensLayout::Column => "Colonne"@,
            LensLayout::Grid2 => "Grille 2×"@,
            LensLayout::Grid3 => "Grille 3×"@,
            LensLayout::Mosaic => "Mosaïque"@,
        }
    }

    /// The CSS class of the grid for this layout.
    pub fn css_class(&self) -> (r: &'static str)
        ensures
            r@ == self.css_class_spec(),
    {
        match self {
            LensLayout::Column => "lens-grid column",
            LensLayout::Grid2 => "lens-grid grid2",
            LensLayout::Grid3 => "lens-grid grid3",
            LensLayout::Mosaic => "lens-grid mosaic",
        }
    }

    /// The label shown on the layout button.
    pub fn label(&self) -> (r: &'static str)
        ensures
            r@ == self.label_spec(),
    {
        match self {
            LensLayout::Column => "Colonne",
            LensLayout::Grid2 => "Grille 2×",
            LensLayout::Grid3 => "Grille 3×",
            LensLayout::Mosaic => "Mosaïque",
        }
    }
}

/// A single captured value for a pinned (source, attribute) pair.
#[derive(Clone, Debug, PartialEq)]
pub struct PinnedValue {
    pub timestamp: String,
    pub raw: String,
    /// Raw byte data (only populated for `data_type == "bytes"`).
    pub raw_bytes: Option<Vec<u8>>,
    /// Originating attribute name (for combined RX+TX pins).
    pub value_attribute: Option<String>,
}

/// Data backing one pinned widget in the Lens.
#[derive(Clone, Debug, PartialEq)]
pub struct LensPinData {
    pub source: String,
    pub attribute: String,
    pub data_type: String,
    pub values: VecDeque<PinnedValue>,
    /// When set, the pin also matches this second attribute (e.g. "TX" paired with "RX").
    pub paired_attribute: Option<String>,
}

/// The last `n` elements of `s` (all of them when there are fewer).
pub open spec fn last_n<T>(s: Seq<T>, n: nat) -> Seq<T> {
    if s.len() <= n {
        s
    } else {
        s.subrange(s.len() - n, s.len() as int)
    }
}

impl LensPinData {
    /// The pin retains no more than `MAX_PIN_VALUES` values.
    pub open spec fn wf(&self) -> bool {
        self.values@.len() <= MAX_PIN_VALUES
    }

    /// Whether the pin matches a (source, attribute) pair: the source must be equal, and the
    /// attribute equal to the pinned one or to the paired one.
    pub open spec fn matches_spec(&self, source: Seq<char>, attribute: Seq<char>) -> bool {
        &&& self.source@ == source
        &&& (self.attribute@ == attribute || (self.paired_attribute matches Some(p) && p@
            == attribute))
    }

    /// A new, empty pin on one attribute.
    pub fn new(source: String, attribute: String, data_type: String) -> (r: Self)
        ensures
            r.source == source,
            r.attribute == attribute,
            r.data_type == data_type,
            r.values@ == Seq::<PinnedValue>::empty(),
            r.paired_attribute is None,
    {
        Self {
            source,
            attribute,
            data_type,
            values: VecDeque::with_capacity(MAX_PIN_VALUES),
            paired_attribute: None,
        }
    }

    /// Creates a new pin that matches two attributes (e.g. RX + TX).
    pub fn new_paired(source: String, attribute: String, paired: String, data_type: String) -> (r:
        Self)
        ensures
            r.source == source,
            r.attribute == attribute,
            r.data_type == data_type,
            r.values@ == Seq::<PinnedValue>::empty(),
            r.paired_attribute == Some(paired),
    {
        Self {
            source,
            attribute,
            data_type,
            values: VecDeque::with_capacity(MAX_PIN_VALUES),
            paired_attribute: Some(paired),
        }
    }

    /// Push a new value, evicting the oldest if at capacity.
    pub fn push_value(
        &mut self,
        timestamp: String,
        raw: String,
        raw_bytes: Option<Vec<u8>>,
        value_attribute: Option<String>,
    )
        ensures
            final(self).values@ == (if old(self).values@.len() >= MAX_PIN_VALUES {
                old(self).values@.drop_first()
            } else {
                old(self).values@
            }).push(PinnedValue { timestamp, raw, raw_bytes, value_attribute }),
            final(self).source == old(self).source,
            final(self).attribute == old(self).attribute,
            final(self).data_type == old(self).data_type,
            final(self).paired_attribute == old(self).paired_attribute,
    {
        if self.values.len() >= MAX_PIN_VALUES {
            self.values.pop_front();
        }
        self.values.push_back(PinnedValue { timestamp, raw, raw_bytes, value_attribute });
    }

    /// Returns true if this pin matches the given (source, attribute) pair.
    pub fn matches(&self, source: &str, attribute: &str) -> (r: bool)
        ensures
            r == self.matches_spec(source@, attribute@),
    {
        if !str_eq(self.source.as_str(), source) {
            return false;
        }
        if str_eq(self.attribute.as_str(), attribute) {
            return true;
        }
        if let Some(ref paired) = self.paired_attribute {
            return str_eq(paired.as_str(), attribute);
        }
        false
    }
}

/// A pin holding the last `MAX_PIN_VALUES` values of a history still holds the last
/// `MAX_PIN_VALUES` values once one more value is pushed: the pin is a sliding window over
/// everything pushed into it, and never grows beyond its capacity.
pub proof fn lemma_push_keeps_latest_window(
    history: Seq<PinnedValue>,
    held: Seq<PinnedValue>,
    v: PinnedValue,
)
    requires
        held == last_n(history, MAX_PIN_VALUES as nat),
    ensures
        (if held.len() >= MAX_PIN_VALUES {
            held.drop_first()
        } else {
            held
        }).push(v) == last_n(history.push(v), MAX_PIN_VALUES as nat),
        last_n(history.push(v), MAX_PIN_VALUES as nat).len() <= MAX_PIN_VALUES,
{
    let m = MAX_PIN_VALUES as int;
    let h2 = history.push(v);
    if history.len() < m {
        assert(h2.len() <= m);
    } else {
        assert(held.len() == m);
        assert(held.drop_first().push(v) =~= h2.subrange(h2.len() - m, h2.len() as int));
    }
}

} // verus!
