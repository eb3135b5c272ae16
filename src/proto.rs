//! The partition template message as it is stored and exchanged: a list of
//! parts, each of which may be unset.

use vstd::prelude::*;

verus! {

/// One way of deriving a piece of a partition key.
#[derive(Debug, PartialEq, Eq, Clone)]
pub enum Part {
    /// The value of the named tag.
    TagValue(String),
    /// The row's time, formatted with a strftime-style format.
    TimeFormat(String),
}

/// The abstract value of a part.
pub enum PartView {
    TagValue(Seq<char>),
    TimeFormat(Seq<char>),
}

impl View for Part {
    type V = PartView;

    open spec fn view(&self) -> PartView {
        match self {
            Part::TagValue(s) => PartView::TagValue(s@),
            Part::TimeFormat(s) => PartView::TimeFormat(s@),
        }
    }
}

/// One entry of a template, which may hold no part.
#[derive(Debug, PartialEq, Eq, Clone)]
pub struct TemplatePart {
    pub part: Option<Part>,
}

impl View for TemplatePart {
    type V = Option<PartView>;

    open spec fn view(&self) -> Option<PartView> {
        match self.part {
            Some(p) => Some(p@),
            None => None,
        }
    }
}

/// A partition template: its entries in order.
#[derive(Debug, PartialEq, Eq, Clone)]
pub struct PartitionTemplate {
    pub parts: Vec<TemplatePart>,
}

/// The views of a list of template entries.
pub open spec fn part_views(s: Seq<TemplatePart>) -> Seq<Option<PartView>> {
    s.map_values(|t: TemplatePart| t@)
}

impl View for PartitionTemplate {
    type V = Seq<Option<PartView>>;

    open spec fn view(&self) -> Seq<Option<PartView>> {
        part_views(self.parts@)
    }
}

impl Part {
    /// A copy of this part.
    pub fn copy(&self) -> (r: Part)
        ensures
            r@ == self@,
    {
        match self {
            Part::TagValue(s) => Part::TagValue(s.clone()),
            Part::TimeFormat(s) => Part::TimeFormat(s.clone()),
        }
    }
}

impl TemplatePart {
    /// A copy of this entry.
    pub fn copy(&self) -> (r: TemplatePart)
        ensures
            r@ == self@,
    {
        match &self.part {
            Some(p) => TemplatePart { part: Some(p.copy()) },
            None => TemplatePart { part: None },
        }
    }
}

impl PartitionTemplate {
    /// A copy of this template.
    pub fn copy(&self) -> (r: PartitionTemplate)
        ensures
            r@ == self@,
    {
        let mut parts: Vec<TemplatePart> = Vec::new();
        let mut i: usize = 0;
        while i < self.parts.len()
            invariant
                i <= self.parts@.len(),
                part_views(parts@) == part_views(self.parts@).subrange(0, i as int),
            decreases self.parts@.len() - i,
        {
            let ghost prev = parts@;
            parts.push(self.parts[i].copy());
            assert(part_views(parts@) =~= part_views(prev).push(self.parts@[i as int]@));
            assert(part_views(self.parts@).subrange(0, i + 1) =~= part_views(self.parts@).subrange(
                0,
                i as int,
            ).push(self.parts@[i as int]@));
            i = i + 1;
        }
        assert(part_views(self.parts@).subrange(0, i as int) =~= part_views(self.parts@));
        PartitionTemplate { parts }
    }
}

} // verus!
