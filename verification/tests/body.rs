use changelog::body::{entries_from_captures, parse_body_changelog};
use changelog::entry::{ChangelogEntry, ChangelogEntryType};

fn entry(kind: ChangelogEntryType, text: &str) -> ChangelogEntry {
    ChangelogEntry(kind, text.to_string())
}

#[test]
fn body_parse_test() {
    // vgstation-coders/vgstation13#21025
    const TEST: &str = "Ghosts can now possess dionae and mushmonkeys via clicking on them, should they have no client controlling them.\r\n\r\n:cl:\r\n * rscadd: Ghosts can now possess inactive diona nymphs and mushrum monkeys by clicking on them.  \r\n * rscadd: Dionae now don't expire after harvesting, should they not be possessed in the given time.  ";

    let entries = parse_body_changelog(TEST);
    assert_eq!(entries.len(), 2);
    assert_eq!(entries[0], ChangelogEntry(ChangelogEntryType::Rscadd, "Ghosts can now possess inactive diona nymphs and mushrum monkeys by clicking on them.".into()));
    assert_eq!(entries[1], ChangelogEntry(ChangelogEntryType::Rscadd, "Dionae now don't expire after harvesting, should they not be possessed in the given time.".into()));
}

#[test]
fn every_keyword_gives_its_kind() {
    let body = ":cl:\nbugfix: a1\nwip: a2\ntweak: a3\nsoundadd: a4\nsounddel: a5\nrscadd: a6\nrscdel: a7\nimageadd: a8\nimagedel: a9\nspellcheck: b1\nexperiment: b2\ntgs: b3";
    let expected = vec![
        entry(ChangelogEntryType::Bugfix, "a1"),
        entry(ChangelogEntryType::Wip, "a2"),
        entry(ChangelogEntryType::Tweak, "a3"),
        entry(ChangelogEntryType::Soundadd, "a4"),
        entry(ChangelogEntryType::Sounddel, "a5"),
        entry(ChangelogEntryType::Rscadd, "a6"),
        entry(ChangelogEntryType::Rscdel, "a7"),
        entry(ChangelogEntryType::Imageadd, "a8"),
        entry(ChangelogEntryType::Imagedel, "a9"),
        entry(ChangelogEntryType::Spellcheck, "b1"),
        entry(ChangelogEntryType::Experiment, "b2"),
        entry(ChangelogEntryType::Tgs, "b3"),
    ];
    assert_eq!(parse_body_changelog(body), expected);
}

#[test]
fn header_forms() {
    let expected = vec![entry(ChangelogEntryType::Wip, "ab")];
    for body in [
        ":cl:\nwip: ab",
        ":cl:\r\nwip: ab",
        ":cl:   \nwip: ab",
        ":cl:   \r\nwip: ab",
        "\u{1F191}\nwip: ab",
        "Text before it \u{1F191} \r\nwip: ab",
        ":cl: not yet\n:cl:\nwip: ab",
        "::cl:\nwip: ab",
        ":cl:\n:cl:\nwip: ab",
    ] {
        assert_eq!(parse_body_changelog(body), expected, "{}", body);
    }
    for body in [
        "",
        "wip: ab",
        ":cl:",
        ":cl:\n",
        ":cl: wip: ab",
        ":cl:\t\nwip: ab",
        ":cl:\rwip: ab",
        ":cl:\r\r\nwip: ab",
        ":CL:\nwip: ab",
        "wip: ab\n:cl:\nnothing",
    ] {
        assert_eq!(parse_body_changelog(body), vec![], "{}", body);
    }
}

#[test]
fn entry_line_forms() {
    let expected = vec![entry(ChangelogEntryType::Tgs, "ab")];
    for line in [
        "tgs: ab",
        "tgs:ab",
        "tgs:    ab",
        "  *  tgs: ab",
        "-tgs: ab",
        "*tgs: ab",
        "tgs: ab  ",
        "tgs: ab\t\r",
        "tgs: ab\u{3000}",
    ] {
        let body = format!(":cl:\nx\n{}\nx", line);
        assert_eq!(parse_body_changelog(&body), expected, "{}", line);
    }
    for line in [
        "tgs ab",
        "tgs: a",
        "tgs: a\r",
        "tgs:",
        "tgs:\tab",
        "tgs:\u{a0}ab",
        "**tgs: ab",
        "+ tgs: ab",
        "\ttgs: ab",
        "Tgs: ab",
        "tgsx: ab",
        "xtgs: ab",
        "tgs : ab",
        "tgs: ab\rc",
        "tgs: ab\r\r",
    ] {
        let body = format!(":cl:\nx\n{}\nx", line);
        assert_eq!(parse_body_changelog(&body), vec![], "{}", line);
    }
    // One character that counts, once the white space is gone.
    assert_eq!(
        parse_body_changelog(":cl:\ntgs: a "),
        vec![entry(ChangelogEntryType::Tgs, "a")]
    );
}

#[test]
fn line_breaks_do_not_matter() {
    let with_feed = ":cl:\n* wip: ab\n- tgs: cd\n";
    let with_return = with_feed.replace('\n', "\r\n");
    assert_eq!(parse_body_changelog(with_feed), parse_body_changelog(&with_return));
    assert_eq!(parse_body_changelog(with_feed).len(), 2);
}

#[test]
fn written_entries_are_read_back() {
    let entries = vec![
        entry(ChangelogEntryType::Imagedel, "No more old icons."),
        entry(ChangelogEntryType::Tgs, "a: b"),
        entry(ChangelogEntryType::Tgs, "* wip: ab"),
    ];
    let lines: Vec<String> =
        entries.iter().map(|e| format!(" * {}: {}", e.0.keyword(), e.1)).collect();
    let body = format!(":cl:\n{}", lines.join("\n"));
    assert_eq!(parse_body_changelog(&body), entries);
    for e in parse_body_changelog(&body) {
        assert!(body.contains(&e.1));
        assert!(body.contains(e.0.keyword()));
    }
}

#[test]
fn layouts_do_not_matter() {
    let entries = vec![
        entry(ChangelogEntryType::Wip, "one"),
        entry(ChangelogEntryType::Tweak, "two"),
        entry(ChangelogEntryType::Rscdel, "three"),
        entry(ChangelogEntryType::Tgs, "four"),
    ];
    let body = "Doors.\r\n\u{1F191}  \r\nwip:one\n-tweak:  two  \r\n   * rscdel: three\n - tgs: four\r";
    assert_eq!(parse_body_changelog(body), entries);
    assert_eq!(parse_body_changelog("Doors.\n:cl: \r\n"), vec![]);
}

#[test]
fn lone_carriage_returns_stay() {
    // A carriage return that ends no line spoils an entry, with both line breaks.
    let with_feed = "a\rb\n:cl:\nwip: a\rb\ntgs: cd\nwip: ef\r";
    let with_return = with_feed.replace('\n', "\r\n");
    let expected = vec![entry(ChangelogEntryType::Tgs, "cd"), entry(ChangelogEntryType::Wip, "ef")];
    assert_eq!(parse_body_changelog(with_feed), expected);
    assert_eq!(parse_body_changelog(&with_return), expected);
}

#[test]
fn lines_stand_alone() {
    let both = parse_body_changelog(":cl:\nwip: ab\nnothing\ntgs: cd");
    let mut parts = parse_body_changelog(":cl:\nwip: ab\nnothing");
    parts.extend(parse_body_changelog(":cl:\ntgs: cd"));
    assert_eq!(both, parts);
}

#[test]
fn captured_pairs_become_entries() {
    let found = vec![
        ("rscdel".to_string(), "  one ".to_string()),
        ("bugfix".to_string(), "two".to_string()),
    ];
    assert_eq!(
        entries_from_captures(&found),
        vec![entry(ChangelogEntryType::Rscdel, "one"), entry(ChangelogEntryType::Bugfix, "two")]
    );
    assert_eq!(entries_from_captures(&vec![]), vec![]);
}

fn is_white_space(c: char) -> bool {
    matches!(c,
        '\u{9}'..='\u{d}' | ' ' | '\u{85}' | '\u{a0}' | '\u{1680}' | '\u{2000}'..='\u{200a}'
        | '\u{2028}' | '\u{2029}' | '\u{202f}' | '\u{205f}' | '\u{3000}')
}

#[test]
fn white_space_after_a_description() {
    let mut body = String::from(":cl:");
    let mut expected = Vec::new();
    for c in '\0'..=char::MAX {
        if c == '\n' {
            continue;
        }
        body.push_str("\nwip: ab");
        body.push(c);
        let text = if is_white_space(c) { "ab".to_string() } else { format!("ab{}", c) };
        expected.push(ChangelogEntry(ChangelogEntryType::Wip, text));
    }
    assert!(parse_body_changelog(&body) == expected);
}

#[test]
fn white_space_before_a_description() {
    let mut body = String::from(":cl:");
    let mut expected = Vec::new();
    for c in '\0'..=char::MAX {
        if c == '\n' {
            continue;
        }
        body.push_str("\nwip:");
        body.push(c);
        body.push_str("bc");
        if c == ' ' {
            expected.push(entry(ChangelogEntryType::Wip, "bc"));
        } else if !is_white_space(c) {
            expected.push(ChangelogEntry(ChangelogEntryType::Wip, format!("{}bc", c)));
        }
    }
    assert!(parse_body_changelog(&body) == expected);
}

// The grammar by hand: the first header in the text, then line by line.
fn scan(body: &str) -> Vec<(String, String)> {
    let chars: Vec<char> = body.chars().collect();
    let mut start = None;
    for i in 0..chars.len() {
        let rest = &chars[i..];
        let mut k = if rest.starts_with(&[':', 'c', 'l', ':']) {
            4
        } else if rest[0] == '\u{1F191}' {
            1
        } else {
            continue;
        };
        while rest.get(k) == Some(&' ') {
            k += 1;
        }
        if rest.get(k) == Some(&'\r') {
            k += 1;
        }
        if rest.get(k) == Some(&'\n') && k + 1 < rest.len() {
            start = Some(i + k + 1);
            break;
        }
    }
    let mut found = Vec::new();
    let content: String = match start {
        Some(start) => chars[start..].iter().collect(),
        None => return found,
    };
    for line in content.split('\n') {
        let line = line.strip_suffix('\r').unwrap_or(line).trim_start_matches(' ');
        let line = line.strip_prefix(&['*', '-'][..]).unwrap_or(line).trim_start_matches(' ');
        if let Some((keyword, text)) = line.split_once(':') {
            let text = text.trim_start_matches(' ');
            let clean = !text.contains('\r') && text.chars().count() >= 2
                && !is_white_space(text.chars().next().unwrap());
            if clean && ChangelogEntryType::from_keyword(keyword).is_some() {
                found.push((keyword.to_string(), text.to_string()));
            }
        }
    }
    found
}

#[test]
fn parser_agrees_with_a_scan_by_hand() {
    let pieces = [
        ":cl:", "\u{1F191}", "\n", "\n", "\r\n", "\r", " ", "  ", "*", "-", "wip", "tgs", "soundadd",
        "sound", ":", ": ", ":", "a", "ab", "\t", "\u{a0}", "wip: ab", ":cl:\n", "\n",
    ];
    let mut seed: u64 = 0x9e3779b97f4a7c15;
    let mut entries = 0;
    for _ in 0..4000 {
        let mut body = String::new();
        for _ in 0..14 {
            seed = seed.wrapping_mul(6364136223846793005).wrapping_add(1442695040888963407);
            body.push_str(pieces[(seed >> 33) as usize % pieces.len()]);
        }
        let expected = entries_from_captures(&scan(&body));
        entries += expected.len();
        assert_eq!(parse_body_changelog(&body), expected, "{:?}", body);
    }
    assert!(entries > 100);
}
