//! The temperature graph: which reading the module shows, and its JSON line.

use vstd::prelude::*;
use crate::text::{signed_decimal, format_i64, str_eq};

verus! {

/// Which temperature the module shows.
#[derive(PartialEq, Eq, Structural)]
pub enum TempMode {
    /// The average of the sensors that read above zero.
    Avg,
    /// The highest sensor reading.
    Max,
    /// The reading of the sensor with the given label.
    Item,
}

/// The mode that the `--item` option selects: `avg`, `max`, or a sensor label.
pub open spec fn temp_mode_of(item: Seq<char>) -> TempMode {
    if item == "avg"@ {
        TempMode::Avg
    } else if item == "max"@ {
        TempMode::Max
    } else {
        TempMode::Item
    }
}

/// Selects the mode for the `--item` option.
pub fn temp_mode(item: &str) -> (res: TempMode)
    ensures
        res == temp_mode_of(item@),
{
    if str_eq(item, "avg") {
        TempMode::Avg
    } else if str_eq(item, "max") {
        TempMode::Max
    } else {
        TempMode::Item
    }
}

/// The name the module gives its reading: `Avg.`, `Max.`, or the sensor label.
pub open spec fn temp_stat_type_of(item: Seq<char>) -> Seq<char> {
    match temp_mode_of(item) {
        TempMode::Avg => "Avg."@,
        TempMode::Max => "Max."@,
        TempMode::Item => item,
    }
}

/// The name of the reading for the `--item` option.
pub fn temp_stat_type(item: &str) -> (res: String)
    ensures
        res@ == temp_stat_type_of(item@),
{
    let mut s = String::new();
    match temp_mode(item) {
        TempMode::Avg => s.append("Avg."),
        TempMode::Max => s.append("Max."),
        TempMode::Item => s.append(item),
    }
    s
}

/// The line the temperature module prints.
pub open spec fn temp_graph_line(
    chart: Seq<char>,
    stat_type: Seq<char>,
    temp: i32,
    components: Seq<char>,
) -> Seq<char> {
    "{\"text\":\""@ + chart + "\",\"tooltip\":\""@ + chart + "\",\"class\":\"\",\"alt\":\""@
        + stat_type + "Temp: "@ + signed_decimal(temp as int) + "°C\\n---------------\\n"@
        + components + "\",\"percentage\":"@ + signed_decimal(temp as int) + "}"@
}

/// Builds the line the temperature module prints.
pub fn temp_graph_output(chart: &str, stat_type: &str, temp: i32, components: &str) -> (res:
    String)
    ensures
        res@ == temp_graph_line(chart@, stat_type@, temp, components@),
{
    let mut line = String::new();
    line.append("{\"text\":\"");
    line.append(chart);
    line.append("\",\"tooltip\":\"");
    line.append(chart);
    line.append("\",\"class\":\"\",\"alt\":\"");
    line.append(stat_type);
    line.append("Temp: ");
    line.append(format_i64(temp as i64).as_str());
    line.append("°C\\n---------------\\n");
    line.append(components);
    line.append("\",\"percentage\":");
    line.append(format_i64(temp as i64).as_str());
    line.append("}");
    line
}

} // verus!
