use bestftp::listing::{ftp_file_item, list_from_mlsd, parse_ftp_list_line};

fn parsed(line: &str) -> Option<(String, u64, bool, String, String)> {
    parse_ftp_list_line(line)
}

#[test]
fn reads_a_file_line() {
    assert_eq!(
        parsed("type=file;size=1536;modify=20240131123456; report.txt"),
        Some(("report.txt".to_string(), 1536, false, "2024-01-31 12:34".to_string(), String::new()))
    );
}

#[test]
fn reads_a_directory_line() {
    assert_eq!(
        parsed("Type=DIR;Modify=20231201000000;Perm=el; photos"),
        Some(("photos".to_string(), 0, true, "2023-12-01 00:00".to_string(), String::new()))
    );
}

#[test]
fn keys_and_types_ignore_case() {
    assert_eq!(parsed("TYPE=Dir; d").unwrap().2, true);
    assert_eq!(parsed("type=pdir; d").unwrap().2, true);
    assert_eq!(parsed("type=cDIR; d").unwrap().2, true);
    assert_eq!(parsed("type=file; d").unwrap().2, false);
    assert_eq!(parsed("type=OS.unix=symlink; d").unwrap().2, false);
    assert_eq!(parsed("SIZE=12; f").unwrap().1, 12);
}

#[test]
fn a_directory_stays_a_directory() {
    assert_eq!(parsed("type=dir;type=file; d").unwrap().2, true);
}

#[test]
fn size_that_is_no_number_is_zero() {
    assert_eq!(parsed("size=abc; f").unwrap().1, 0);
    assert_eq!(parsed("size=-5; f").unwrap().1, 0);
    assert_eq!(parsed("size=; f").unwrap().1, 0);
    assert_eq!(parsed("size=18446744073709551616; f").unwrap().1, 0);
    assert_eq!(parsed("size=18446744073709551615; f").unwrap().1, u64::MAX);
    assert_eq!(parsed("size=+7; f").unwrap().1, 7);
    assert_eq!(parsed("size=5;size=9; f").unwrap().1, 9);
}

#[test]
fn modify_is_shown_as_a_date_only_when_it_reads_as_one() {
    assert_eq!(parsed("modify=20240131123456; f").unwrap().3, "2024-01-31 12:34");
    assert_eq!(parsed("modify=20240131123456.123; f").unwrap().3, "20240131123456.123");
    assert_eq!(parsed("modify=2024013112345; f").unwrap().3, "2024013112345");
    assert_eq!(parsed("modify=2024013112xx56; f").unwrap().3, "2024013112xx56");
    assert_eq!(parsed("modify=202401311234xx; f").unwrap().3, "2024-01-31 12:34");
    assert_eq!(parsed("modify=+123+1+2+3+456; f").unwrap().3, "0123-01-02 03:04");
    assert_eq!(parsed("modify=; f").unwrap().3, "");
    assert_eq!(parsed("modify=202401311234\u{e9}; f").unwrap().3, "2024-01-31 12:34");
    assert_eq!(parsed("modify=202401311234\u{e9}\u{e9}; f").unwrap().3, "202401311234\u{e9}\u{e9}");
}

#[test]
fn names_are_trimmed_and_may_hold_spaces_and_equals_signs() {
    assert_eq!(parsed("type=file;   my file.txt  ").unwrap().0, "my file.txt");
    assert_eq!(parsed("type=file; a=b").unwrap().0, "a=b");
}

#[test]
fn lines_that_describe_nothing() {
    assert_eq!(parsed(""), None);
    assert_eq!(parsed("just a name"), None);
    assert_eq!(parsed("type=file"), None);
    assert_eq!(parsed("a;b"), None);
    assert_eq!(parsed("type=dir; ."), None);
    assert_eq!(parsed("type=dir; .."), None);
    assert_eq!(parsed("type=dir;"), None);
    assert_eq!(parsed("type=dir;   "), None);
}

#[test]
fn the_name_is_what_follows_the_last_semicolon() {
    assert_eq!(parsed("type=file;size=3; a;b").unwrap().0, "b");
    assert_eq!(parsed("type=file;size=3; a;b").unwrap().1, 3);
}

#[test]
fn an_item_of_a_listing() {
    let item = ftp_file_item("/pub/", "type=file;size=2048;modify=20240229101112; data.bin").unwrap();
    assert_eq!(item.name, "data.bin");
    assert_eq!(item.full_path, "/pub/data.bin");
    assert_eq!(item.size, 2048);
    assert_eq!(item.is_directory, false);
    assert_eq!(item.readable_size, "2.00 KB");
    assert_eq!(item.readable_modified, "2024-02-29 10:11");
    assert_eq!(item.modified, None);
    assert_eq!(item.permissions, "");
    let root = ftp_file_item("/", "type=dir;size=4096; etc").unwrap();
    assert_eq!(root.full_path, "/etc");
    assert_eq!(root.size, 0);
    assert_eq!(root.readable_size, "");
    assert!(root.is_directory);
}

#[test]
fn a_listing_of_the_root_shows_its_children_only() {
    let lines: Vec<String> = [
        "type=cdir;modify=20240101000000; .",
        "type=pdir;modify=20240101000000; ..",
        "type=dir;size=4096;modify=20240102030405; pub",
        "type=file;size=120;modify=20240102030405; welcome.msg",
        "garbage",
        "type=dir;sizd=1; incoming",
    ]
    .iter()
    .map(|s| s.to_string())
    .collect();
    let items = list_from_mlsd("/", &lines);
    let names: Vec<&str> = items.iter().map(|i| i.name.as_str()).collect();
    assert_eq!(names, vec!["pub", "welcome.msg", "incoming"]);
    for item in &items {
        assert!(item.name != "." && item.name != "..");
        if item.is_directory {
            assert_eq!(item.size, 0);
        }
    }
    assert_eq!(items[0].full_path, "/pub");
    assert_eq!(items[1].full_path, "/welcome.msg");
    assert_eq!(items[1].size, 120);
    assert_eq!(items[1].readable_size, "120 B");
}

/// The same reading written with the text functions of the standard
/// library; `None` in the outer layer where a time stamp cannot be cut at
/// the places where its fields end.
fn with_std(line: &str) -> Option<Option<(String, u64, bool, String, String)>> {
    if !(line.contains('=') && line.contains(';')) {
        return Some(None);
    }
    let parts: Vec<&str> = line.split(';').collect();
    let name = parts.last().unwrap().trim();
    let mut size = 0u64;
    let mut is_dir = false;
    let mut date = String::new();
    for part in &parts[..parts.len() - 1] {
        let Some((key, value)) = part.trim().split_once('=') else { continue };
        match key.to_lowercase().as_str() {
            "type" => {
                let kind = value.to_lowercase();
                if kind == "dir" || kind == "pdir" || kind == "cdir" {
                    is_dir = true;
                }
            }
            "size" => size = value.parse::<u64>().unwrap_or(0),
            "modify" => {
                date = value.to_string();
                if value.len() == 14 {
                    if [4, 6, 8, 10, 12].iter().any(|&at| !value.is_char_boundary(at)) {
                        return None;
                    }
                    let fields = [
                        value[0..4].parse::<u32>(),
                        value[4..6].parse::<u32>(),
                        value[6..8].parse::<u32>(),
                        value[8..10].parse::<u32>(),
                        value[10..12].parse::<u32>(),
                    ];
                    if let [Ok(y), Ok(mo), Ok(d), Ok(h), Ok(mi)] = fields {
                        date = format!("{:04}-{:02}-{:02} {:02}:{:02}", y, mo, d, h, mi);
                    }
                }
            }
            _ => {}
        }
    }
    if !name.is_empty() && name != "." && name != ".." {
        Some(Some((name.to_string(), size, is_dir, date, String::new())))
    } else {
        Some(None)
    }
}

#[test]
fn agrees_with_the_reading_by_the_standard_library() {
    let alphabet: Vec<char> = "tTyYpPeE==;;dDiIrR sSzZmMoOfF00112233445566778899+-.cC\t\u{e9}\u{212a}\u{130}\u{3000}x"
        .chars()
        .collect();
    let pieces = [
        "type=", "TYPE=", "Type=dir;", "type=cdir;", "size=", "Size=120;", "modify=",
        "MODIFY=20240131123456;", "modify=2024013112345;", " ; ", ";", "=", "name.txt", " . ",
        "..", "modify=+123+1+2+3+4xx;", "modify=202401311234\u{e9};", "type=\u{212a};",
        "si\u{17f}e=5;", "perm=el;",
    ];
    let mut seed = 0x2545_F491_4F6C_DD1Du64;
    let mut next = move || {
        seed ^= seed << 13;
        seed ^= seed >> 7;
        seed ^= seed << 17;
        seed
    };
    let mut compared = 0;
    for _ in 0..20_000 {
        let mut line = String::new();
        let count = next() % 6;
        for _ in 0..count {
            if next() % 3 == 0 {
                let len = next() % 16;
                for _ in 0..len {
                    line.push(alphabet[(next() % alphabet.len() as u64) as usize]);
                }
            } else {
                line.push_str(pieces[(next() % pieces.len() as u64) as usize]);
            }
        }
        if let Some(expected) = with_std(&line) {
            assert_eq!(parse_ftp_list_line(&line), expected, "for {:?}", line);
            compared += 1;
        }
    }
    assert!(compared > 19_000);
}
