use changelog::entry::{Changelog, ChangelogEntry, ChangelogEntryType, InvalidLength};

const KINDS: [(ChangelogEntryType, &str); 12] = [
    (ChangelogEntryType::Bugfix, "bugfix"),
    (ChangelogEntryType::Wip, "wip"),
    (ChangelogEntryType::Tweak, "tweak"),
    (ChangelogEntryType::Soundadd, "soundadd"),
    (ChangelogEntryType::Sounddel, "sounddel"),
    (ChangelogEntryType::Rscadd, "rscadd"),
    (ChangelogEntryType::Rscdel, "rscdel"),
    (ChangelogEntryType::Imageadd, "imageadd"),
    (ChangelogEntryType::Imagedel, "imagedel"),
    (ChangelogEntryType::Spellcheck, "spellcheck"),
    (ChangelogEntryType::Experiment, "experiment"),
    (ChangelogEntryType::Tgs, "tgs"),
];

#[test]
fn keywords_round_trip() {
    for (kind, word) in KINDS {
        assert_eq!(kind.keyword(), word);
        assert_eq!(ChangelogEntryType::from_keyword(word), Some(kind));
    }
    for word in ["", "bug", "Bugfix", "bugfix ", "rsc"] {
        assert_eq!(ChangelogEntryType::from_keyword(word), None);
    }
}

#[test]
fn map_of_one_pair_is_an_entry() {
    let entry = ChangelogEntry(ChangelogEntryType::Tweak, "doors".to_string());
    let pair = entry.to_pair();
    assert_eq!(pair, (ChangelogEntryType::Tweak, "doors"));
    let kind = ChangelogEntryType::from_keyword(pair.0.keyword()).unwrap();
    assert_eq!(ChangelogEntry::from_map(Some((kind, pair.1.to_string())), None), Ok(entry));
}

#[test]
fn other_maps_are_refused() {
    assert_eq!(ChangelogEntry::from_map(None, None), Err(InvalidLength { found: 0 }));
    assert_eq!(
        ChangelogEntry::from_map(
            Some((ChangelogEntryType::Tgs, "a".to_string())),
            Some(ChangelogEntryType::Wip)
        ),
        Err(InvalidLength { found: 2 })
    );
}

#[test]
fn changelog_holds_its_parts() {
    let changelog = Changelog {
        author: "someone".to_string(),
        changes: vec![ChangelogEntry(ChangelogEntryType::Wip, "ab".to_string())],
        delete_after: None,
    };
    assert_eq!(changelog.clone().changes, changelog.changes);
}
