use mop::actions::FileTally;
use mop::online::percent_encode;
use mop::structs::{SongFile, TagData};
use mop::text::ntfs_safename;
use mop::xml::XmlNode;

#[test]
fn percent_encoded_text_is_query_safe() {
    let s = percent_encode("a b\"c#d&e/f:g<h>i?j`k{l}m\u{7f}\u{1}éñ漢%").unwrap();
    assert_eq!(s, "a%20b%22c%23d%26e%2Ff%3Ag%3Ch%3Ei%3Fj%60k%7Bl%7Dm%7F%01%C3%A9%C3%B1%E6%BC%A2%");
    for c in s.chars() {
        assert!(c.is_ascii_graphic());
        assert!(!" \"#&/:<>?`{}".contains(c));
    }
}

#[test]
fn ntfs_safe_names_have_no_forbidden_characters() {
    let testy = r#"</ ? < > \ : * | " and any character you can type with the Ctrl key"#;
    let safe = ntfs_safename(testy);
    assert_eq!(safe, format!("{}and any character you can type with the Ctrl key", " ".repeat(19)));
    for f in ['/', '\\', ':', '|', '<', '>', '?', '*', '"'] {
        assert!(!safe.contains(f));
    }
    assert_eq!(ntfs_safename("AC/DC: Live"), "AC DC  Live");
}

#[test]
fn every_recorded_file_is_counted_once() {
    let mut t = FileTally::new();
    let files = [("mp3", 3u64), ("mp3", 4), ("ogg", 5), ("flac", 6), ("mp3", 7)];
    for (i, (ext, bytes)) in files.iter().enumerate() {
        t.record(ext, *bytes, i % 2 == 0, i % 3 == 0);
        let total = t.totals();
        assert_eq!(total.num as usize, i + 1);
        assert_eq!(total.bytes, files[..=i].iter().map(|f| f.1).sum::<u64>());
    }
}

#[test]
fn complete_songs_have_a_search_key() {
    let mut t = TagData::empty();
    t.artist = Some(String::from("A"));
    t.title = Some(String::from("T"));
    t.album = Some(String::from("L"));
    t.year = Some(2000);
    let s = SongFile::make(t, "mp3", None);
    assert!(s.is_metadata_complete());
    assert!(s.has_search_key());
}

#[test]
fn added_child_is_last_of_its_name() {
    let mut n = XmlNode::new();
    n.add_new_child(String::from("a"), String::from("1"));
    n.add_new_child(String::from("b"), String::from("2"));
    n.add_new_child(String::from("a"), String::from("3"));
    let a = n.get_matching_children("a");
    assert_eq!(a.len(), 2);
    assert_eq!(a[1].text(), "3");
    assert_eq!(n.get_matching_children("b").len(), 1);
}

#[test]
fn percent_decoding_gives_the_text_back() {
    for s in ["AC/DC & Friends: Live?", "Beyoncé", "漢字 #1 {x}", ""] {
        let encoded = percent_encode(s).unwrap();
        let decoded = url::percent_encoding::percent_decode(encoded.as_bytes()).decode_utf8().unwrap();
        assert_eq!(decoded, s);
    }
}
