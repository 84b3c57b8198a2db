use waybar_modules::arch_updates::{
    align_lines, aur_skipped, columns_for, count_arrows, layout_fits, parse_updates, updates_output,
};

/// The module's own computation, step by step, with std.
fn reference(updates: u16, stdout_in: &str, aur_in: u16, aur_stdout_in: &str) -> String {
    let mut columns: usize = 1;
    let mut longest_line: usize = 0;
    let mut stdout = stdout_in.to_string();
    let mut aur_updates = aur_in;
    let mut aur_stdout = aur_stdout_in.to_string();
    let mut text_aur_stdout: String = String::from("");
    let mut text_stdout: String = String::from("");
    if updates > 0 {
        if updates < 10 {
            columns = 1;
        } else if updates < 20 {
            columns = 2;
        } else if updates < 80 {
            columns = 3;
        } else if updates >= 80 {
            columns = 4;
        }
        let mut padding = [0; 4];
        stdout.split_whitespace().enumerate().for_each(|(index, word)| {
            padding[index % 4] = padding[index % 4].max(word.len())
        });
        stdout = format!(
            "{}",
            stdout
                .split_whitespace()
                .enumerate()
                .map(|(index, word)| word.to_string() + " ".repeat(padding[index % 4] - word.len()).as_str())
                .collect::<Vec<String>>()
                .chunks(4)
                .map(|line| line.join(" "))
                .collect::<Vec<String>>()
                .join("\n")
        );
        let mut iterlines = 0;
        for line in stdout.lines() {
            if iterlines % columns < (columns - 1) {
                text_stdout = text_stdout + line + "\t | ";
            } else {
                text_stdout = text_stdout + line + "\n";
            }
            if line.len() > longest_line {
                longest_line = line.len() + (3 * (columns - 1));
            }
            iterlines += 1;
        }
    }
    if aur_updates > 0 {
        let mut padding = [0; 4];
        aur_stdout.split_whitespace().enumerate().for_each(|(index, word)| {
            padding[index % 4] = padding[index % 4].max(word.len())
        });
        aur_stdout = format!(
            "{}",
            aur_stdout
                .split_whitespace()
                .enumerate()
                .map(|(index, word)| word.to_string() + " ".repeat(padding[index % 4] - word.len()).as_str())
                .collect::<Vec<String>>()
                .chunks(4)
                .map(|line| line.join(" "))
                .collect::<Vec<String>>()
                .join("\n")
        );
        let mut iterlines = 0;
        for line in aur_stdout.lines() {
            if stdout.contains(line) {
                aur_updates = aur_updates - 1;
            } else {
                if iterlines % columns < (columns - 1) {
                    text_aur_stdout = text_aur_stdout + line + "\t | ";
                } else {
                    text_aur_stdout = text_aur_stdout + line + "\n";
                }
                if line.len() > longest_line {
                    longest_line = line.len() + (3 * (columns - 1));
                }
                iterlines += 1;
            }
        }
    }
    if updates > 0 || aur_updates > 0 {
        let mut tooltip = String::from("");
        if updates > 0 {
            tooltip = format!("PACMAN ({})\\n{} \\n{}\\n", &updates, "¯".repeat(columns * longest_line), text_stdout.trim_end().replace("\"", "\\\"").replace("\n", "\\n").replace("\t", "\\t"));
        }
        if aur_updates > 0 {
            tooltip = format!("{}\\nAUR ({}) \\n{}\\n{}\\n", tooltip, &aur_updates, "¯".repeat(columns * longest_line), text_aur_stdout.trim_end().replace("\"", "\\\"").replace("\n", "\\n").replace("\t", "\\t"));
        }
        let alt = tooltip.clone();
        format!("{{\"text\":\"{}({}+{})\",\"tooltip\":\"{}\",\"class\":\"has-updates\",\"alt\":\"{}\",\"percentage\":0}}", (&updates + &aur_updates), &updates, &aur_updates, &tooltip, &alt)
    } else {
        format!("{{\"text\":\"\",\"tooltip\":\"\",\"class\":\"\",\"alt\":\"\",\"percentage\":0}}")
    }
}

fn packages(n: usize, prefix: &str) -> String {
    let mut s = String::new();
    for i in 0..n {
        s.push_str(&format!("{}{} 1.{}-1 -> 1.{}-2\n", prefix, i, i * 7, i * 7 + 1));
    }
    s
}

#[test]
fn counting_updates() {
    let out = "linux 6.1.1-1 -> 6.1.2-1\nfirefox 108.0-1 -> 108.0.1-1\n";
    let (n, text) = parse_updates(Some(0), out);
    assert_eq!(n, 2);
    assert_eq!(text, out);
    assert_eq!(parse_updates(Some(2), ""), (0, String::from("0")));
    assert_eq!(parse_updates(None, out), (0, String::from("0")));
    assert_eq!(parse_updates(Some(0), "nothing here"), (0, String::from("nothing here")));
}

#[test]
fn arrows_do_not_overlap() {
    assert_eq!(count_arrows(" -> -> "), 1);
    assert_eq!(count_arrows(" ->  -> "), 2);
    assert_eq!(count_arrows(""), 0);
    let s = " -> -> a -> ";
    assert_eq!(count_arrows(s), s.split(" -> ").count() - 1);
}

#[test]
fn column_counts() {
    assert_eq!(columns_for(1), 1);
    assert_eq!(columns_for(9), 1);
    assert_eq!(columns_for(10), 2);
    assert_eq!(columns_for(19), 2);
    assert_eq!(columns_for(20), 3);
    assert_eq!(columns_for(79), 3);
    assert_eq!(columns_for(80), 4);
    assert_eq!(columns_for(u16::MAX), 4);
}

#[test]
fn aligned_word_table() {
    let lines = align_lines("a bb ccc -> dd\nlonger x -> y\n");
    assert_eq!(
        lines,
        vec![String::from("a  bb     ccc ->"), String::from("dd longer x   ->"), String::from("y ")]
    );
}

#[test]
fn no_updates_line() {
    assert_eq!(
        updates_output(0, "0", 0, "0"),
        "{\"text\":\"\",\"tooltip\":\"\",\"class\":\"\",\"alt\":\"\",\"percentage\":0}"
    );
}

#[test]
fn pacman_only() {
    let out = "linux 6.1.1-1 -> 6.1.2-1\nfirefox 108.0-1 -> 108.0.1-1\n";
    assert_eq!(updates_output(2, out, 0, "0"), reference(2, out, 0, "0"));
}

#[test]
fn pacman_and_aur_with_duplicates() {
    let pac = "linux 6.1.1-1 -> 6.1.2-1\nfirefox 108.0-1 -> 108.0.1-1\n";
    let aur = "linux 6.1.1-1 -> 6.1.2-1\nfirefox 108.0-1 -> 108.0.1-1\nyay-bin 11.3-1 -> 12.0-1\n";
    assert_eq!(updates_output(2, pac, 3, aur), reference(2, pac, 3, aur));
}

#[test]
fn aur_lines_listed_by_pacman_are_dropped() {
    let pac = "a 1 -> 2\nb 1 -> 2\n";
    let aur = "a 1 -> 2\nb 1 -> 2\nc 1 -> 2\n";
    assert_eq!(aur_skipped(2, pac, 3, aur), 2);
    let line = updates_output(2, pac, 3, aur);
    assert_eq!(line, reference(2, pac, 3, aur));
    assert!(line.starts_with("{\"text\":\"3(2+1)\""));
}

#[test]
fn all_aur_lines_known() {
    let pac = "a 1 -> 2\n";
    let aur = "a 1 -> 2\n";
    assert_eq!(aur_skipped(1, pac, 1, aur), 1);
    assert_eq!(updates_output(1, pac, 1, aur), reference(1, pac, 1, aur));
}

#[test]
fn aur_only() {
    let aur = "yay-bin 11.3-1 -> 12.0-1\nparu \"x\" 1 -> 2\n";
    assert_eq!(updates_output(0, "0", 2, aur), reference(0, "0", 2, aur));
}

#[test]
fn many_updates_in_columns() {
    for n in [9usize, 10, 25, 85] {
        let pac = packages(n, "pkg");
        let aur = packages(3, "aur");
        let u = n as u16;
        assert_eq!(updates_output(u, &pac, 3, &aur), reference(u, &pac, 3, &aur), "n = {}", n);
    }
}

#[test]
fn unicode_and_tabs() {
    let pac = "paquete-ñ 1.0 -> 2.0\n\"quoted\"\t1 -> 2\n";
    assert_eq!(updates_output(2, pac, 0, "0"), reference(2, pac, 0, "0"));
}

#[test]
fn ordinary_outputs_fit() {
    assert!(layout_fits(""));
    assert!(layout_fits("linux 6.1.1-1 -> 6.1.2-1\n"));
    assert!(layout_fits(&"é".repeat(1000)));
}
