//! Presentation adapter: turning the aggregated mapping into the generic
//! labeled-value-color records an external chart renderer consumes.

use vstd::prelude::*;
use crate::aggregate::AggregatedStats;
use crate::palette::Rgb;

verus! {

/// The glyph used to fill an author's chart segment.
pub const FILL_GLYPH: char = '\u{2022}';

/// One record of the chart: a label, a magnitude, a color and a fill glyph.
pub struct ChartRecord {
    pub label: String,
    pub value: u64,
    pub color: Rgb,
    pub fill: char,
}

/// Converts the aggregated mapping into chart records, one record per
/// entry: the label is the author, the value its insertion count (zero
/// insertions still yield a record with value zero), the color its assigned
/// color. A pure transform with no failure modes; an empty mapping yields
/// an empty record sequence.
pub fn to_chart_records(agg: &AggregatedStats) -> (records: Vec<ChartRecord>)
    ensures
        records@.len() == agg.entries@.len(),
        forall|k: int|
            0 <= k < records@.len() ==> (#[trigger] records@[k]).label@
                == agg.entries@[k].author@ && records@[k].value
                == agg.entries@[k].lines_inserted && records@[k].color == agg.entries@[k].color
                && records@[k].fill == FILL_GLYPH,
{
    let mut records: Vec<ChartRecord> = Vec::new();
    let mut i: usize = 0;
    while i < agg.entries.len()
        invariant
            0 <= i <= agg.entries@.len(),
            records@.len() == i,
            forall|k: int|
                0 <= k < i ==> (#[trigger] records@[k]).label@ == agg.entries@[k].author@
                    && records@[k].value == agg.entries@[k].lines_inserted && records@[k].color
                    == agg.entries@[k].color && records@[k].fill == FILL_GLYPH,
        decreases agg.entries@.len() - i,
    {
        let e = &agg.entries[i];
        let record = ChartRecord {
            label: e.author.clone(),
            value: e.lines_inserted,
            color: e.color,
            fill: FILL_GLYPH,
        };
        records.push(record);
        i = i + 1;
    }
    records
}

} // verus!
