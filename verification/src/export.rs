//! The flow chart of search results, as a line-oriented diagram
//! description.

use vstd::prelude::*;
use vstd::string::*;
use crate::entities::{FlowChartItem, FlowChartItemView, FlowChartSource};

verus! {

/// The three lines of one item: the item itself, indented and closed by a
/// semicolon, the style of its topic and the style of its consumer group.
pub open spec fn entry_of(item: FlowChartItemView) -> Seq<char> {
    "  "@ + item.line() + ";"@ + "\n"@ + "style "@ + item.kafka_topic
        + " fill:#f9f,stroke:#333,stroke-width:2px,color:#fff;"@ + "\n"@ + "style "@
        + item.consumer_group + " fill:#bbf,stroke:#333,stroke-width:2px,color:#000;"@ + "\n"@
}

/// The entries of the items, one after another.
pub open spec fn entries_of(items: Seq<FlowChartItemView>) -> Seq<char>
    decreases items.len(),
{
    if items.len() == 0 {
        Seq::empty()
    } else {
        entries_of(items.drop_last()) + entry_of(items.last())
    }
}

/// The chart: the header line and the entries.
pub open spec fn chart_of(items: Seq<FlowChartItemView>) -> Seq<char> {
    "flowchart LR;"@ + "\n"@ + entries_of(items)
}

/// The items that the values of a dataset stand for.
pub open spec fn items_of<T: FlowChartSource>(dataset: Seq<T>) -> Seq<FlowChartItemView> {
    dataset.map_values(|d: T| d.item())
}

/// The three lines of one item.
pub fn entry(item: &FlowChartItem) -> (text: String)
    ensures
        text@ == entry_of(item@),
{
    let mut text = "  ".to_owned();
    text.append(item.to_print_string().as_str());
    text.append(";");
    text.append("\n");
    text.append("style ");
    text.append(item.topic().as_str());
    text.append(" fill:#f9f,stroke:#333,stroke-width:2px,color:#fff;");
    text.append("\n");
    text.append("style ");
    text.append(item.group().as_str());
    text.append(" fill:#bbf,stroke:#333,stroke-width:2px,color:#000;");
    text.append("\n");
    text
}

/// The flow chart of a dataset, from left to right: the header line, then
/// the entry of each item in the dataset's order. Nothing is written to
/// `_path`: the text is handed back.
pub fn export_mm_file<T: FlowChartSource>(dataset: Vec<T>, _path: &str) -> (content: String)
    ensures
        content@ == chart_of(items_of(dataset@)),
{
    let ghost all = dataset@;
    let ghost items = items_of(dataset@);
    let mut content = "flowchart LR;".to_owned();
    content.append("\n");
    assert("flowchart LR;"@ + "\n"@ + entries_of(items.take(0)) =~= "flowchart LR;"@ + "\n"@);
    for first in it: dataset
        invariant
            it.seq() == all,
            items == items_of(all),
            content@ == "flowchart LR;"@ + "\n"@ + entries_of(items.take(it.index() as int)),
    {
        let ghost done = it.index() as int;
        let item = first.into_item();
        proof {
            assert(items[done] == item@);
            assert(items.take(done + 1).drop_last() =~= items.take(done));
            assert(items.take(done + 1).last() == item@);
            assert(("flowchart LR;"@ + "\n"@ + entries_of(items.take(done))) + entry_of(item@)
                =~= "flowchart LR;"@ + "\n"@ + (entries_of(items.take(done)) + entry_of(item@)));
        }
        let text = entry(&item);
        content.append(text.as_str());
    }
    assert(items.take(items.len() as int) =~= items);
    content
}

} // verus!
