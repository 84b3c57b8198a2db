use waybar_modules::tooltip::{component_temp_line, core_usage_line, disk_space_line, tabulate};

fn reference(lines: &Vec<String>, suffix: &str) -> String {
    let maxlen: usize = match lines.iter().map(|f| f.len()).max() {
        Some(m) => m,
        None => 0,
    };
    let mut out = String::from("");
    for line in lines.iter() {
        let linelen = line.len();
        let tabbedline = line.replace("-", " ".repeat(maxlen - (linelen - 1)).as_str());
        out.push_str(format!("{}{}", &tabbedline, suffix).as_str());
    }
    out
}

#[test]
fn negative_reading_breaks_alignment_like_the_module() {
    let lines = vec![component_temp_line("a", -3), component_temp_line("bb", 40)];
    assert_eq!(tabulate(&lines, "\\n"), reference(&lines, "\\n"));
}

#[test]
fn cpu_listing() {
    let lines = vec![core_usage_line("cpu0", 5), core_usage_line("cpu10", 100)];
    assert_eq!(lines, vec![String::from("cpu0-5"), String::from("cpu10-100")]);
    let t = tabulate(&lines, "%\\n");
    assert_eq!(t, "cpu0    5%\\ncpu10 100%\\n");
    assert_eq!(t, reference(&lines, "%\\n"));
}

#[test]
fn listing_lines_up() {
    let lines = vec![
        component_temp_line("acpitz temp1", 41),
        component_temp_line("coretemp Package id 0", 57),
        component_temp_line("nvme Composite", 3),
    ];
    let t = tabulate(&lines, "\\n");
    assert_eq!(t, reference(&lines, "\\n"));
    let width = lines.iter().map(|l| l.len()).max().unwrap();
    for piece in t.split("\\n").filter(|p| !p.is_empty()) {
        assert_eq!(piece.len(), width);
    }
}

#[test]
fn listing_of_disks() {
    let lines = vec![disk_space_line("nvme0n1p2", 1000, 5000), disk_space_line("sda1", 7, 9)];
    assert_eq!(lines[0], "nvme0n1p2-1000-5000");
    assert_eq!(tabulate(&lines, "%\\n"), reference(&lines, "%\\n"));
}

#[test]
fn empty_listing() {
    let lines: Vec<String> = Vec::new();
    assert_eq!(tabulate(&lines, "%\\n"), "");
}

#[test]
fn component_line_format() {
    assert_eq!(component_temp_line("k10temp Tctl", 48), format!("{}-{}°C", "k10temp Tctl", 48));
}
