//! Conditional formatting: rules, and the ranges that they apply to.

use super::color::{Color, ColorView};
use super::style::{Style, StyleView};
use vstd::prelude::*;
use vstd::string::*;

verus! {

/// A threshold of a rule: its kind, its value if it has one, and the color
/// that goes with it.
pub type Threshold = (String, Option<String>, Option<Color>);

/// A threshold as plain values.
pub type ThresholdView = (Seq<char>, Option<Seq<char>>, Option<ColorView>);

/// One formatting rule. `data_type` names the kind of picture that the
/// rule draws, `dataBar`, `colorScale` or `iconSet`, and is empty for a rule
/// that draws none.
pub struct Conditional {
    pub condition_type: String,
    pub data_type: String,
    pub priority: usize,
    pub percent: Option<usize>,
    pub bottom: Option<usize>,
    pub rank: Option<usize>,
    pub style: Option<Style>,
    pub cfvo_collection: Vec<Threshold>,
}

/// A rule as plain values.
pub struct ConditionalView {
    pub condition_type: Seq<char>,
    pub data_type: Seq<char>,
    pub priority: usize,
    pub percent: Option<usize>,
    pub bottom: Option<usize>,
    pub rank: Option<usize>,
    pub style: Option<StyleView>,
    pub cfvo_collection: Seq<ThresholdView>,
}

impl DeepView for Conditional {
    type V = ConditionalView;

    open spec fn deep_view(&self) -> ConditionalView {
        ConditionalView {
            condition_type: self.condition_type@,
            data_type: self.data_type@,
            priority: self.priority,
            percent: self.percent,
            bottom: self.bottom,
            rank: self.rank,
            style: self.style.deep_view(),
            cfvo_collection: self.cfvo_collection.deep_view(),
        }
    }
}

impl ConditionalView {
    /// The rule that says nothing.
    pub open spec fn empty() -> ConditionalView {
        ConditionalView {
            condition_type: Seq::empty(),
            data_type: Seq::empty(),
            priority: 0,
            percent: None,
            bottom: None,
            rank: None,
            style: None,
            cfvo_collection: Seq::empty(),
        }
    }
}

impl Default for Conditional {
    fn default() -> (rule: Conditional)
        ensures
            rule.deep_view() == ConditionalView::empty(),
    {
        let rule = Conditional {
            condition_type: String::new(),
            data_type: String::new(),
            priority: 0,
            percent: None,
            bottom: None,
            rank: None,
            style: None,
            cfvo_collection: Vec::new(),
        };
        assert(rule.cfvo_collection.deep_view() =~= Seq::empty());
        rule
    }
}

impl Conditional {
    pub fn get_condition_type(&self) -> (condition_type: &str)
        ensures
            condition_type@ == self.deep_view().condition_type,
    {
        self.condition_type.as_str()
    }

    pub fn get_data_type(&self) -> (data_type: &str)
        ensures
            data_type@ == self.deep_view().data_type,
    {
        self.data_type.as_str()
    }

    pub fn get_priority(&self) -> (priority: usize)
        ensures
            priority == self.deep_view().priority,
    {
        self.priority
    }

    pub fn get_percent(&self) -> (percent: Option<usize>)
        ensures
            percent == self.deep_view().percent,
    {
        self.percent
    }

    pub fn get_bottom(&self) -> (bottom: Option<usize>)
        ensures
            bottom == self.deep_view().bottom,
    {
        self.bottom
    }

    pub fn get_rank(&self) -> (rank: Option<usize>)
        ensures
            rank == self.deep_view().rank,
    {
        self.rank
    }

    pub fn get_style(&self) -> (style: Option<&Style>)
        ensures
            style.deep_view() == self.deep_view().style,
    {
        self.style.as_ref()
    }

    pub fn get_cfvo_collection(&self) -> (thresholds: &Vec<Threshold>)
        ensures
            thresholds.deep_view() == self.deep_view().cfvo_collection,
    {
        &self.cfvo_collection
    }
}

/// The rules that apply to one range of cells, in document order.
pub struct ConditionalSet {
    pub sqref: String,
    pub conditional_collection: Vec<Conditional>,
}

/// A set of rules as plain values.
pub struct ConditionalSetView {
    pub sqref: Seq<char>,
    pub conditional_collection: Seq<ConditionalView>,
}

impl DeepView for ConditionalSet {
    type V = ConditionalSetView;

    open spec fn deep_view(&self) -> ConditionalSetView {
        ConditionalSetView {
            sqref: self.sqref@,
            conditional_collection: self.conditional_collection.deep_view(),
        }
    }
}

impl ConditionalSet {
    pub fn get_sqref(&self) -> (sqref: &str)
        ensures
            sqref@ == self.deep_view().sqref,
    {
        self.sqref.as_str()
    }

    pub fn get_conditional_collection(&self) -> (rules: &Vec<Conditional>)
        ensures
            rules.deep_view() == self.deep_view().conditional_collection,
    {
        &self.conditional_collection
    }
}

} // verus!
