use waybar_modules::mem_graph::{megabytes, mem_graph_output};

#[test]
fn megabyte_figures() {
    assert_eq!(megabytes(0), 0);
    assert_eq!(megabytes(16_777_216_000), 16777);
    assert_eq!(megabytes(999_999), 0);
    assert_eq!(megabytes(u64::MAX), ((u64::MAX / 1000000) as i32));
}

#[test]
fn memory_line() {
    let chart = "<span>x</span>";
    let used: u64 = 8_500_000_000;
    let total: u64 = 16_000_000_000;
    let line = mem_graph_output(chart, 53, used, 8480, total, 54);
    let expected = format!("{{\"text\":\"{}\",\"tooltip\":\"{}\",\"class\": \"\",\"alt\":\"Avg.Usage: {}%\\rUsed     : {} MB\\rAverage  : {} MB\\rTotal    : {} MB\",\"percentage\":{}}}", chart, chart, 53, (used / 1000000 as u64) as i32, 8480, (total / 1000000 as u64) as i32, 54);
    assert_eq!(line, expected);
}
