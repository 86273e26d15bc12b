use snapshot_manager::whitelist::{LoadError, VolumeWhitelist};

fn entries(text: &str) -> Vec<String> {
    VolumeWhitelist::parse(text).volumes().clone()
}

fn expected_entries(text: &str) -> Vec<String> {
    let mut kept = Vec::new();
    for line in text.split('\n') {
        let line = line.trim();
        if !line.is_empty() && !line.starts_with('#') {
            kept.push(line.to_string());
        }
    }
    kept
}

#[test]
fn two_volumes_a_comment_and_a_blank_line() {
    let whitelist = VolumeWhitelist::parse("tank/data\n# comment\n\ntank/backup");
    assert_eq!(whitelist.len(), 2);
    assert_eq!(whitelist.volumes(), &vec!["tank/data".to_string(), "tank/backup".to_string()]);
    assert!(whitelist.is_allowed(&"tank/data".to_string()));
    assert!(whitelist.is_allowed(&"tank/backup".to_string()));
    assert!(!whitelist.is_allowed(&"# comment".to_string()));
    assert!(!whitelist.is_allowed(&"".to_string()));
}

#[test]
fn empty_text_gives_an_empty_whitelist() {
    let whitelist = VolumeWhitelist::parse("");
    assert_eq!(whitelist.len(), 0);
    assert!(whitelist.volumes().is_empty());
    assert!(!whitelist.is_allowed(&"".to_string()));
}

#[test]
fn blank_lines_give_no_entry() {
    assert_eq!(entries("\n\n\n"), Vec::<String>::new());
    assert_eq!(entries("   \n\t\n \t \r\n"), Vec::<String>::new());
    assert_eq!(entries("\n a \n\n"), vec!["a".to_string()]);
}

#[test]
fn comment_lines_give_no_entry() {
    assert_eq!(entries("#"), Vec::<String>::new());
    assert_eq!(entries("# tank/data"), Vec::<String>::new());
    assert_eq!(entries("#tank/data\n##\n#"), Vec::<String>::new());
}

#[test]
fn a_comment_mark_after_leading_whitespace_starts_a_comment() {
    assert_eq!(entries("   # indented comment\n\t#another"), Vec::<String>::new());
    assert_eq!(entries("  #x\n  y  "), vec!["y".to_string()]);
}

#[test]
fn a_comment_mark_inside_a_line_is_part_of_the_entry() {
    assert_eq!(entries("tank/data # main"), vec!["tank/data # main".to_string()]);
    assert_eq!(entries("tank#1"), vec!["tank#1".to_string()]);
}

#[test]
fn entries_are_the_trimmed_lines_verbatim() {
    assert_eq!(
        entries("  tank/data  \n\ttank/my volume\t\n pool/a/b/c"),
        vec!["tank/data".to_string(), "tank/my volume".to_string(), "pool/a/b/c".to_string()]
    );
}

#[test]
fn inner_whitespace_is_kept() {
    assert_eq!(entries(" a  b \t c "), vec!["a  b \t c".to_string()]);
}

#[test]
fn carriage_returns_are_trimmed() {
    assert_eq!(
        entries("tank/data\r\n# comment\r\n\r\ntank/backup\r\n"),
        vec!["tank/data".to_string(), "tank/backup".to_string()]
    );
}

#[test]
fn a_line_feed_at_the_end_adds_no_entry() {
    assert_eq!(entries("tank/data\n"), vec!["tank/data".to_string()]);
    assert_eq!(entries("tank/data"), vec!["tank/data".to_string()]);
    assert_eq!(entries("tank/data\n\n"), vec!["tank/data".to_string()]);
}

#[test]
fn duplicates_are_kept_and_counted() {
    let whitelist = VolumeWhitelist::parse("tank/data\ntank/data\n tank/data ");
    assert_eq!(whitelist.len(), 3);
    assert!(whitelist.is_allowed(&"tank/data".to_string()));
}

#[test]
fn entries_keep_the_order_of_the_lines() {
    assert_eq!(
        entries("c\n#x\nb\n\na\nb"),
        vec!["c".to_string(), "b".to_string(), "a".to_string(), "b".to_string()]
    );
}

#[test]
fn unicode_whitespace_is_trimmed_and_other_characters_are_kept() {
    assert_eq!(entries("\u{3000}tank/données\u{a0}\n"), vec!["tank/données".to_string()]);
    assert_eq!(entries("\u{2003}\u{2003}\n\u{feff}x"), vec!["\u{feff}x".to_string()]);
    assert_eq!(entries("卷/数据\n #卷"), vec!["卷/数据".to_string()]);
}

#[test]
fn entries_are_what_splitting_and_trimming_gives() {
    let texts = [
        "",
        "\n",
        "a",
        "a\n",
        "\na",
        "a\nb",
        "a\n\nb\n",
        " a \n # b \n\tc\t\n#\n##d\n e#f ",
        "tank/data\r\n#c\r\n\r\ntank/backup\r\n",
        "\u{3000}x\u{3000}\n\u{85}\n y\u{2028}z ",
        "# only a comment",
        "   ",
        "one two\tthree",
    ];
    for text in texts {
        assert_eq!(entries(text), expected_entries(text), "text {:?}", text);
        assert_eq!(VolumeWhitelist::parse(text).len(), expected_entries(text).len());
    }
}

#[test]
fn is_allowed_is_an_exact_match() {
    let whitelist = VolumeWhitelist::parse("tank/data\ntank/backup\n");
    assert!(whitelist.is_allowed(&"tank/data".to_string()));
    assert!(!whitelist.is_allowed(&"tank/dat".to_string()));
    assert!(!whitelist.is_allowed(&"tank/data2".to_string()));
    assert!(!whitelist.is_allowed(&"Tank/Data".to_string()));
    assert!(!whitelist.is_allowed(&" tank/data".to_string()));
    assert!(!whitelist.is_allowed(&"tank/data ".to_string()));
    assert!(!whitelist.is_allowed(&"tank".to_string()));
    assert!(!whitelist.is_allowed(&"tank/data\ntank/backup".to_string()));
    assert!(!whitelist.is_allowed(&"tank/unknown".to_string()));
}

#[test]
fn is_allowed_holds_of_every_entry_and_of_nothing_on_an_empty_list() {
    let whitelist = VolumeWhitelist::parse("a\nb\nc\n");
    for volume in whitelist.volumes() {
        assert!(whitelist.is_allowed(volume));
    }
    let empty = VolumeWhitelist::parse("# nothing\n\n");
    assert!(!empty.is_allowed(&"a".to_string()));
    assert!(!empty.is_allowed(&"# nothing".to_string()));
}

#[test]
fn load_reads_the_text_of_a_source() {
    let loaded = VolumeWhitelist::load(Ok("tank/data\n# comment\n\ntank/backup"));
    let whitelist = loaded.expect("a readable source gives a whitelist");
    assert_eq!(whitelist.len(), 2);
    assert!(whitelist.is_allowed(&"tank/backup".to_string()));
}

#[test]
fn load_fails_on_a_source_that_could_not_be_read() {
    let loaded = VolumeWhitelist::load(Err("No such file or directory".to_string()));
    match loaded {
        Ok(_) => panic!("an unreadable source gave a whitelist"),
        Err(error) => {
            assert_eq!(error, LoadError { reason: "No such file or directory".to_string() })
        }
    }
}

#[test]
fn a_whitelist_does_not_change_when_it_is_asked() {
    let whitelist = VolumeWhitelist::parse("a\nb");
    let before = whitelist.volumes().clone();
    let _ = whitelist.is_allowed(&"a".to_string());
    let _ = whitelist.is_allowed(&"z".to_string());
    let _ = whitelist.len();
    assert_eq!(whitelist.volumes(), &before);
}
