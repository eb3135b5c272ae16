//! Partition templates of namespaces and tables: which template applies to
//! a table, and the parts it is made of.

use vstd::prelude::*;
use crate::proto::{Part, PartView, PartitionTemplate, TemplatePart as ProtoTemplatePart};

verus! {

/// Borrowed access to one part of a template, as partitioning needs it.
#[derive(Debug, PartialEq, Eq, Clone, Copy)]
pub enum TemplatePart<'a> {
    TagValue(&'a str),
    TimeFormat(&'a str),
}

impl<'a> View for TemplatePart<'a> {
    type V = PartView;

    open spec fn view(&self) -> PartView {
        match self {
            TemplatePart::TagValue(s) => PartView::TagValue(s@),
            TemplatePart::TimeFormat(s) => PartView::TimeFormat(s@),
        }
    }
}

/// The parts that are set, in order; unset entries are skipped.
pub open spec fn present_parts(s: Seq<Option<PartView>>) -> Seq<PartView>
    decreases s.len(),
{
    if s.len() == 0 {
        Seq::empty()
    } else {
        let rest = present_parts(s.drop_last());
        match s.last() {
            Some(p) => rest.push(p),
            None => rest,
        }
    }
}

/// The default template: partition by day of the `time` column.
pub open spec fn partition_by_day() -> Seq<Option<PartView>> {
    seq![Some(PartView::TimeFormat("%Y-%m-%d"@))]
}

/// The default template, partitioning by day.
pub fn partition_by_day_template() -> (r: PartitionTemplate)
    ensures
        r@ == partition_by_day(),
{
    let mut parts: Vec<ProtoTemplatePart> = Vec::new();
    parts.push(ProtoTemplatePart { part: Some(Part::TimeFormat("%Y-%m-%d".to_owned())) });
    let r = PartitionTemplate { parts };
    assert(r@ =~= partition_by_day());
    r
}

/// The partition template of a namespace.
#[derive(Debug, PartialEq, Eq, Clone)]
pub struct NamespacePartitionTemplateOverride(pub PartitionTemplate);

/// The partition template of a table.
#[derive(Debug, PartialEq, Eq, Clone)]
pub struct TablePartitionTemplateOverride(pub PartitionTemplate);

impl View for NamespacePartitionTemplateOverride {
    type V = Seq<Option<PartView>>;

    open spec fn view(&self) -> Seq<Option<PartView>> {
        self.0@
    }
}

impl View for TablePartitionTemplateOverride {
    type V = Seq<Option<PartView>>;

    open spec fn view(&self) -> Seq<Option<PartView>> {
        self.0@
    }
}

impl Default for NamespacePartitionTemplateOverride {
    fn default() -> (r: Self)
        ensures
            r@ == partition_by_day(),
    {
        NamespacePartitionTemplateOverride(partition_by_day_template())
    }
}

impl Default for TablePartitionTemplateOverride {
    fn default() -> (r: Self)
        ensures
            r@ == partition_by_day(),
    {
        TablePartitionTemplateOverride(partition_by_day_template())
    }
}

impl From<PartitionTemplate> for NamespacePartitionTemplateOverride {
    fn from(t: PartitionTemplate) -> (r: Self)
        ensures
            r@ == t@,
    {
        NamespacePartitionTemplateOverride(t)
    }
}

impl vstd::std_specs::convert::FromSpecImpl<PartitionTemplate> for NamespacePartitionTemplateOverride {
    open spec fn obeys_from_spec() -> bool {
        true
    }

    open spec fn from_spec(t: PartitionTemplate) -> Self {
        NamespacePartitionTemplateOverride(t)
    }
}

impl TablePartitionTemplateOverride {
    /// A table created by a write gets its namespace's template.
    pub fn from_namespace(ns: &NamespacePartitionTemplateOverride) -> (r: Self)
        ensures
            r@ == ns@,
    {
        TablePartitionTemplateOverride(ns.0.copy())
    }

    /// The template of an explicitly created table: its own custom template
    /// when the request carried one, else its namespace's.
    pub fn new(
        custom_table_template: Option<PartitionTemplate>,
        namespace_template: &NamespacePartitionTemplateOverride,
    ) -> (r: Self)
        ensures
            r@ == match custom_table_template {
                Some(t) => t@,
                None => namespace_template@,
            },
    {
        match custom_table_template {
            Some(t) => TablePartitionTemplateOverride(t),
            None => Self::from_namespace(namespace_template),
        }
    }

    /// The parts of the template that are set, in order, borrowed.
    pub fn parts(&self) -> (r: Vec<TemplatePart<'_>>)
        ensures
            r@.map_values(|p: TemplatePart| p@) == present_parts(self@),
    {
        let mut out: Vec<TemplatePart<'_>> = Vec::new();
        let mut i: usize = 0;
        let entries = &self.0.parts;
        while i < entries.len()
            invariant
                i <= entries@.len(),
                entries@ == self.0.parts@,
                out@.map_values(|p: TemplatePart| p@) == present_parts(
                    self@.subrange(0, i as int),
                ),
            decreases entries@.len() - i,
        {
            let ghost prev = out@;
            let ghost seen = self@.subrange(0, i as int);
            assert(self@.subrange(0, i + 1).drop_last() =~= seen);
            assert(self@.subrange(0, i + 1).last() == entries@[i as int]@);
            match &entries[i].part {
                Some(Part::TagValue(v)) => {
                    out.push(TemplatePart::TagValue(v.as_str()));
                    assert(out@.map_values(|p: TemplatePart| p@) =~= prev.map_values(
                        |p: TemplatePart| p@,
                    ).push(PartView::TagValue(v@)));
                },
                Some(Part::TimeFormat(f)) => {
                    out.push(TemplatePart::TimeFormat(f.as_str()));
                    assert(out@.map_values(|p: TemplatePart| p@) =~= prev.map_values(
                        |p: TemplatePart| p@,
                    ).push(PartView::TimeFormat(f@)));
                },
                None => {},
            }
            i = i + 1;
        }
        assert(self@.subrange(0, i as int) =~= self@);
        out
    }
}

/// A table template made of the given parts, each set, in order.
pub fn test_table_partition_override(parts: Vec<TemplatePart<'static>>) -> (r:
    TablePartitionTemplateOverride)
    ensures
        r@ == parts@.map_values(|p: TemplatePart| Some(p@)),
{
    let mut entries: Vec<ProtoTemplatePart> = Vec::new();
    let mut i: usize = 0;
    while i < parts.len()
        invariant
            i <= parts@.len(),
            crate::proto::part_views(entries@) == parts@.subrange(0, i as int).map_values(
                |p: TemplatePart| Some(p@),
            ),
        decreases parts@.len() - i,
    {
        let ghost prev = entries@;
        let part = match parts[i] {
            TemplatePart::TagValue(v) => Part::TagValue(v.to_owned()),
            TemplatePart::TimeFormat(f) => Part::TimeFormat(f.to_owned()),
        };
        entries.push(ProtoTemplatePart { part: Some(part) });
        assert(crate::proto::part_views(entries@) =~= crate::proto::part_views(prev).push(
            Some(parts@[i as int]@),
        ));
        assert(parts@.subrange(0, i + 1).map_values(|p: TemplatePart| Some(p@)) =~= parts@.subrange(
            0,
            i as int,
        ).map_values(|p: TemplatePart| Some(p@)).push(Some(parts@[i as int]@)));
        i = i + 1;
    }
    assert(parts@.subrange(0, i as int) =~= parts@);
    TablePartitionTemplateOverride(PartitionTemplate { parts: entries })
}

} // verus!
