use waybar_modules::cpu_graph::{
    cpu_busy_and_total, cpu_graph_output, parse_proc_stat, simple_graph_output, ProcStat,
};

#[test]
fn proc_stat_fields() {
    let s = parse_proc_stat("cpu  2255 34 2290 22625563 6290 127 456\n").unwrap();
    assert_eq!((s.user, s.system, s.idle), (2255, 2290, 22625563));
}

#[test]
fn proc_stat_refused() {
    assert!(parse_proc_stat("cpu  2255 34 2290").is_none());
    assert!(parse_proc_stat("").is_none());
    assert!(parse_proc_stat("cpu  x 34 2290 22625563").is_none());
    assert!(parse_proc_stat("cpu  1 2 3 99999999999").is_none());
}

#[test]
fn busy_and_total_between_readings() {
    let first = ProcStat { user: 100, system: 50, idle: 1000 };
    let second = ProcStat { user: 130, system: 60, idle: 1060 };
    assert_eq!(cpu_busy_and_total(&first, &second), (40, 100));
}

#[test]
fn cpu_line() {
    let chart = "<span color='#96faf7'>0</span>";
    let line = cpu_graph_output(chart, 12, "cpu0 5%\\n", -3);
    let expected = format!("{{\"text\":\"{}\",\"tooltip\":\"{}\",\"class\": \"\",\"alt\":\"Avg.Usage: {}%\\n--------------\\n{}\",\"percentage\":{}}}", chart, chart, 12, "cpu0 5%\\n", -3);
    assert_eq!(line, expected);
}

#[test]
fn first_cpu_line() {
    let chart = "abc";
    let expected = format!("{{\"text\":\"{}\",\"tooltip\":\"{}\",\"class\": \"\",\"alt\":\"{}\",\"percentage\":{}}}", chart, chart, chart, 77);
    assert_eq!(simple_graph_output(chart, 77), expected);
}
