use waybar_modules::disk_space::{disk_space_graph_output, get_disks_available_space, DiskSpace};

#[test]
fn average_free_space_and_listing() {
    let disks = vec![
        DiskSpace { name: String::from("nvme0n1p2"), available: 100, total: 500 },
        DiskSpace { name: String::from("sda1"), available: 51, total: 60 },
    ];
    let (avg, lines) = get_disks_available_space(&disks);
    assert_eq!(avg, 75);
    assert_eq!(lines, vec![String::from("nvme0n1p2-100-500"), String::from("sda1-51-60")]);
}

#[test]
fn disk_space_line() {
    let line = disk_space_graph_output("c", "75", "sda1 51 60%\\n", 75);
    let expected = format!("{{\"text\":\"{}\",\"tooltip\":\"{}\",\"class\": \"\",\"alt\":\"Avg.Usage: {}%\\n--------------\\n{}\",\"percentage\":{}}}", "c", "c", 75f32, "sda1 51 60%\\n", 75);
    assert_eq!(line, expected);
}
