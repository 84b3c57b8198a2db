use waybar_modules::temp_graph::{temp_graph_output, temp_mode, temp_stat_type, TempMode};

#[test]
fn modes_of_item_option() {
    assert!(temp_mode("avg") == TempMode::Avg);
    assert!(temp_mode("max") == TempMode::Max);
    assert!(temp_mode("coretemp Package id 0") == TempMode::Item);
    assert!(temp_mode("") == TempMode::Item);
}

#[test]
fn stat_type_names() {
    assert_eq!(temp_stat_type("avg"), "Avg.");
    assert_eq!(temp_stat_type("max"), "Max.");
    assert_eq!(temp_stat_type("acpitz"), "acpitz");
}

#[test]
fn temperature_line() {
    let chart = "c";
    let line = temp_graph_output(chart, "Max.", 61, "x 61°C\\n");
    let expected = format!("{{\"text\":\"{}\",\"tooltip\":\"{}\",\"class\":\"\",\"alt\":\"{}Temp: {}°C\\n---------------\\n{}\",\"percentage\":{}}}", chart, chart, "Max.", 61, "x 61°C\\n", 61);
    assert_eq!(line, expected);
}
