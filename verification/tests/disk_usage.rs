use waybar_modules::disk_usage::{
    disk_scale, get_disks_read_and_writen_bytes, get_double_chart, DiskIo, DiskUsageGraph,
};

const COLORSUP: &[&str] = &["##53EDE8", "#53E3ED", "#53CCED", "#53BAED", "#53A8ED", "#539BED", "#538BED", "#536FED", "#535BED", "#6553ED"];
const COLORSDOWN: &[&str] = &["#E7BBF0", "#F0B6F2", "#F099ED", "#F07FD9", "#EB71BE", "#EB609E", "#ED5C92", "#ED5379", "#ED405A", "##ED0C10"];
const CHARSUP: &[&str] = &["0", "b", "c", "d", "e", "f", "g", "h", "i", "j"];
const CHARSDOWN: &[&str] = &["k", "l", "m", "n", "o", "p", "q", "r", "s", "t"];

fn reference_chart(up: &Vec<u64>, down: &Vec<u64>, max_value: &u64) -> String {
    let mut return_chart: String = String::from("");
    for one_stat_up in up.iter() {
        let stat_0_to_9: usize = ((((one_stat_up * 100) / max_value) * (CHARSUP.len() as u64 - 1 as u64)) / 100 as u64) as usize;
        return_chart.push_str(format!("<span color='{}'>{}</span>", &COLORSUP[stat_0_to_9], &CHARSUP[stat_0_to_9]).as_str());
    }
    return_chart.push_str("\\r");
    for one_stat_down in down.iter() {
        let stat_0_to_9: usize = ((((one_stat_down * 100) / max_value) * (CHARSDOWN.len() as u64 - 1 as u64)) / 100 as u64) as usize;
        return_chart.push_str(format!("<span color='{}'>{}</span>", &COLORSDOWN[stat_0_to_9], &CHARSDOWN[stat_0_to_9]).as_str());
    }
    return_chart
}

fn reference_scale(highest: u64) -> u64 {
    let limits = vec![5, 15, 30, 50, 75, 100, 150, 1000, 2000, 3000, 6000, 10000, 20000];
    let mut max = 0;
    for limit in limits {
        if highest % limit == highest {
            max = limit;
            break;
        } else {
            max = highest;
        }
    }
    max
}

#[test]
fn disk_double_chart_exact() {
    let chart = get_double_chart(&vec![15], &vec![0], &30, CHARSUP, CHARSDOWN, COLORSUP, COLORSDOWN);
    assert_eq!(chart, "<span color='#53A8ED'>e</span>\\r<span color='#E7BBF0'>k</span>");
}

#[test]
fn disk_double_chart_matches_reference() {
    let up = vec![0u64, 1, 4, 7, 15, 150];
    let down = vec![150u64, 20, 0, 99, 3, 11];
    for max in [150u64, 1000, 2000] {
        assert_eq!(
            get_double_chart(&up, &down, &max, CHARSUP, CHARSDOWN, COLORSUP, COLORSDOWN),
            reference_chart(&up, &down, &max)
        );
    }
}

#[test]
fn read_and_write_rates() {
    let ps = vec![
        DiskIo { read_bytes: 3_000_000, written_bytes: 1_000_000 },
        DiskIo { read_bytes: 1_000_000, written_bytes: 0 },
    ];
    assert_eq!(get_disks_read_and_writen_bytes(&ps, &2), (2, 0));
    assert_eq!(get_disks_read_and_writen_bytes(&ps, &1), (4, 1));
    let none: Vec<DiskIo> = Vec::new();
    assert_eq!(get_disks_read_and_writen_bytes(&none, &2), (0, 0));
}

#[test]
fn scale_falls_back_to_highest() {
    assert_eq!(disk_scale(0), 5);
    assert_eq!(disk_scale(4), 5);
    assert_eq!(disk_scale(5), 15);
    assert_eq!(disk_scale(149), 150);
    assert_eq!(disk_scale(19999), 20000);
    assert_eq!(disk_scale(20000), 20000);
    assert_eq!(disk_scale(25000), 25000);
    for h in 0..21000u64 {
        assert_eq!(disk_scale(h), reference_scale(h));
        assert!(disk_scale(h) >= h);
    }
}

#[test]
fn disk_graph_output_line() {
    let mut g = DiskUsageGraph::new(2);
    g.record(3, 40);
    g.record(25000, 1);
    assert_eq!(g.read_stats, vec![3, 25000]);
    assert_eq!(g.write_stats, vec![40, 1]);
    let max = g.scale();
    assert_eq!(max, 25000);
    let line = g.output_line(CHARSUP, CHARSDOWN, COLORSUP, COLORSDOWN);
    let chart = reference_chart(&g.read_stats, &g.write_stats, &max);
    let read_stats_avg: u64 = 25003 / 2;
    let write_stats_avg: u64 = 41 / 2;
    let sum_stats_avg: u64 = (read_stats_avg + write_stats_avg) / 2;
    let expected = format!("{{\"text\":\"{}\",\"tooltip\":\"{}\",\"class\":\"\",\"alt\":\"Read      : {} MBps\\rWrite     : {} MBps\\rRange     : 0-{} MBps\\rAvg.Read  : {} MBps\\rAvg.Write : {} MBps\",\"percentage\":{}}}", &chart, &chart, 25000u64, 1u64, &max, &read_stats_avg, &write_stats_avg, &sum_stats_avg);
    assert_eq!(line, expected);
}

#[test]
fn empty_write_history_needs_no_write_glyphs() {
    let chart = get_double_chart(&vec![0, 30], &vec![], &30, CHARSUP, &[], COLORSUP, &[]);
    assert_eq!(chart, "<span color='##53EDE8'>0</span><span color='#6553ED'>j</span>\\r");
}

#[test]
fn both_histories_empty_give_the_separator() {
    assert_eq!(get_double_chart(&vec![], &vec![], &0, &[], &[], &[], &[]), "\\r");
}

#[test]
fn chart_of_two_runs_is_the_runs_joined() {
    let whole = get_double_chart(&vec![3, 15, 30, 7], &vec![1, 29], &30, CHARSUP, CHARSDOWN, COLORSUP, COLORSDOWN);
    let first = get_double_chart(&vec![3, 15], &vec![], &30, CHARSUP, CHARSDOWN, COLORSUP, COLORSDOWN);
    let rest = get_double_chart(&vec![30, 7], &vec![1, 29], &30, CHARSUP, CHARSDOWN, COLORSUP, COLORSDOWN);
    assert_eq!(whole, first.strip_suffix("\\r").unwrap().to_string() + &rest);
}
