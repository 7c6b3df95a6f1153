//! Renderable rows and scroll arithmetic.
//!
//! The process table is one header row plus one row per record, each cell
//! already formatted under the selected unit. The scroll offset is clamped
//! against the content and viewport heights on every pass, because both
//! change between frames.

use vstd::prelude::*;
use vstd::string::StringExecFns;
use crate::fmt::{dec_str, format_swap_value, i64_to_string, int_str, u64_to_string, value_str};
use crate::samples::{ProcessSwapInfo, RowTag};
use crate::telemetry::InfoSwap;
use crate::units::SizeUnits;

verus! {

/// One renderable row of the process table.
#[derive(Debug, Clone)]
pub struct Row {
    /// Leading column: a process id, a member count, or the header label.
    pub id_cell: String,
    /// The process name, or the header label.
    pub name: String,
    /// The formatted swap value, or the header label.
    pub value: String,
}

/// The text of a record's leading column: its process id or member count.
pub open spec fn id_text(tag: RowTag) -> Seq<char> {
    match tag {
        RowTag::Individual { pid } => dec_str(pid as nat),
        RowTag::Aggregated { count } => dec_str(count as nat),
    }
}

/// What it means for `rows` to present `list`: one header row labelled
/// for the mode, then one row per record, in order, each cell formatted
/// under `unit`.
pub open spec fn rows_match(
    rows: Seq<Row>,
    list: Seq<ProcessSwapInfo>,
    aggregated: bool,
    unit: SizeUnits,
) -> bool {
    &&& rows.len() == list.len() + 1
    &&& rows[0].id_cell@ == if aggregated {
        "COUNT"@
    } else {
        "PID"@
    }
    &&& rows[0].name@ == "PROCESS"@
    &&& rows[0].value@ == "USED"@
    &&& forall|j: int|
        1 <= j < rows.len() ==> (#[trigger] rows[j]).id_cell@ == id_text(list[j - 1].tag)
            && rows[j].name@ == list[j - 1].name@ && rows[j].value@ == value_str(
            list[j - 1].swap_kb as nat,
            unit,
        )
}

/// Build the table rows: a header labelled for the current mode, then one
/// row per record in the order handed in.
pub fn build_rows(list: &Vec<ProcessSwapInfo>, aggregated: bool, unit: SizeUnits) -> (r: Vec<Row>)
    ensures
        rows_match(r@, list@, aggregated, unit),
{
    let mut r: Vec<Row> = Vec::new();
    let header = Row {
        id_cell: if aggregated {
            String::from_str("COUNT")
        } else {
            String::from_str("PID")
        },
        name: String::from_str("PROCESS"),
        value: String::from_str("USED"),
    };
    r.push(header);
    let mut idx: usize = 0;
    while idx < list.len()
        invariant
            idx <= list@.len(),
            r@.len() == idx + 1,
            r@[0].id_cell@ == if aggregated {
                "COUNT"@
            } else {
                "PID"@
            },
            r@[0].name@ == "PROCESS"@,
            r@[0].value@ == "USED"@,
            forall|j: int|
                1 <= j < r@.len() ==> (#[trigger] r@[j]).id_cell@ == id_text(list@[j - 1].tag)
                    && r@[j].name@ == list@[j - 1].name@ && r@[j].value@ == value_str(
                    list@[j - 1].swap_kb as nat,
                    unit,
                ),
        decreases list@.len() - idx,
    {
        let p = &list[idx];
        let id_cell = match p.tag {
            RowTag::Individual { pid } => u64_to_string(pid),
            RowTag::Aggregated { count } => u64_to_string(count),
        };
        let row = Row { id_cell, name: p.name.clone(), value: format_swap_value(p.swap_kb, unit) };
        r.push(row);
        idx = idx + 1;
    }
    r
}

/// The text of one swap-device row: name, kind, value under the selected
/// unit, and priority, separated by bars.
pub open spec fn device_line(d: InfoSwap, unit: SizeUnits) -> Seq<char> {
    d.name@ + " | "@ + d.kind@ + " | "@ + value_str(d.used_kb as nat, unit) + " | "@ + int_str(
        d.priority as int,
    )
}

/// What it means for `lines` to present `devices`: one line per device,
/// in order, formatted under `unit`.
pub open spec fn device_lines_match(lines: Seq<String>, devices: Seq<InfoSwap>, unit: SizeUnits) -> bool {
    &&& lines.len() == devices.len()
    &&& forall|i: int| 0 <= i < lines.len() ==> (#[trigger] lines[i])@ == device_line(devices[i], unit)
}

/// Build the swap-device panel lines, one per device in the order handed
/// in.
pub fn build_device_lines(devices: &Vec<InfoSwap>, unit: SizeUnits) -> (r: Vec<String>)
    ensures
        device_lines_match(r@, devices@, unit),
{
    let mut r: Vec<String> = Vec::new();
    let mut idx: usize = 0;
    while idx < devices.len()
        invariant
            idx <= devices@.len(),
            r@.len() == idx,
            forall|i: int|
                0 <= i < r@.len() ==> (#[trigger] r@[i])@ == device_line(devices@[i], unit),
        decreases devices@.len() - idx,
    {
        let d = &devices[idx];
        let mut line = d.name.clone();
        line.append(" | ");
        line.append(d.kind.as_str());
        line.append(" | ");
        let value = format_swap_value(d.used_kb, unit);
        line.append(value.as_str());
        line.append(" | ");
        let prio = i64_to_string(d.priority);
        line.append(prio.as_str());
        proof {
            assert(line@ =~= device_line(devices@[idx as int], unit));
        }
        r.push(line);
        idx = idx + 1;
    }
    r
}

/// The scroll offset clamped to the scrollable range: no greater than the
/// content height less the viewport height, and zero when everything fits.
pub open spec fn spec_reconcile_scroll(offset: int, content_height: int, viewport_height: int) -> int {
    let limit = if content_height >= viewport_height {
        content_height - viewport_height
    } else {
        0
    };
    if offset <= limit {
        offset
    } else {
        limit
    }
}

/// Clamp a scroll offset against the current content and viewport heights.
pub fn reconcile_scroll(offset: usize, content_height: usize, viewport_height: usize) -> (r: usize)
    ensures
        r == spec_reconcile_scroll(offset as int, content_height as int, viewport_height as int),
{
    let limit = if content_height >= viewport_height {
        content_height - viewport_height
    } else {
        0
    };
    if offset <= limit {
        offset
    } else {
        limit
    }
}

/// Law: a reconciled offset is never negative and never exceeds the
/// scrollable range.
pub proof fn lemma_reconcile_bounds(offset: int, content_height: int, viewport_height: int)
    requires
        0 <= offset,
        0 <= content_height,
        0 <= viewport_height,
    ensures
        0 <= spec_reconcile_scroll(offset, content_height, viewport_height),
        spec_reconcile_scroll(offset, content_height, viewport_height) <= if content_height
            - viewport_height >= 0 {
            content_height - viewport_height
        } else {
            0
        },
{
}

/// Law: reconciling an already reconciled offset changes nothing.
pub proof fn lemma_reconcile_idempotent(offset: int, content_height: int, viewport_height: int)
    ensures
        spec_reconcile_scroll(
            spec_reconcile_scroll(offset, content_height, viewport_height),
            content_height,
            viewport_height,
        ) == spec_reconcile_scroll(offset, content_height, viewport_height),
{
}

} // verus!
