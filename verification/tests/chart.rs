use waybar_modules::chart::get_single_chart;

const COLORS: &[&str] = &["#96faf7", "#66f1d7", "#67f08d", "#85f066", "#f0ea66", "#f0b166", "#f09466", "#f28888", "#f37777", "#f85555"];
const CHARS: &[&str] = &["0", "b", "c", "d", "e", "f", "g", "h", "i", "j"];

fn reference(levels: &[usize], symbols: &[&str], colors: &[&str], framed: bool) -> String {
    let mut s = String::new();
    if framed {
        s.push_str("<span font-family='efe-graph' rise='-4444'>");
    }
    for l in levels {
        s.push_str(format!("<span color='{}'>{}</span>", &colors[*l], &symbols[*l]).as_str());
    }
    if framed {
        s.push_str("</span>");
    }
    s
}

#[test]
fn single_chart_unframed() {
    let levels = vec![0usize, 2];
    let chart = get_single_chart(&levels, &["a", "b", "c"], &["#1", "#2", "#3"], false);
    assert_eq!(chart, "<span color='#1'>a</span><span color='#3'>c</span>");
}

#[test]
fn single_chart_framed() {
    let levels = vec![9usize];
    let chart = get_single_chart(&levels, CHARS, COLORS, true);
    assert_eq!(
        chart,
        "<span font-family='efe-graph' rise='-4444'><span color='#f85555'>j</span></span>"
    );
}

#[test]
fn single_chart_matches_reference() {
    let levels: Vec<usize> = vec![0, 1, 2, 3, 4, 5, 6, 7, 8, 9, 9, 0];
    for framed in [false, true] {
        assert_eq!(
            get_single_chart(&levels, CHARS, COLORS, framed),
            reference(&levels, CHARS, COLORS, framed)
        );
    }
}

#[test]
fn single_chart_empty_history() {
    let levels: Vec<usize> = Vec::new();
    assert_eq!(get_single_chart(&levels, CHARS, COLORS, false), "");
    assert_eq!(
        get_single_chart(&levels, CHARS, COLORS, true),
        "<span font-family='efe-graph' rise='-4444'></span>"
    );
}
