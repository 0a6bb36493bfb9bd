use mop::structs::{BasicMetadata, SongFile, TagData, TagEdit};
use mop::xml::{ParseEvent, XmlMap, XmlNode};

fn tag(artist: Option<&str>, title: Option<&str>, album: Option<&str>, year: Option<i32>) -> TagData {
    let mut t = TagData::empty();
    t.artist = artist.map(String::from);
    t.title = title.map(String::from);
    t.album = album.map(String::from);
    t.year = year;
    t
}

#[test]
fn new_metadata_has_no_data() {
    let m = BasicMetadata::new();
    assert!(!m.has_some_data());
    assert_eq!(m.genre, "");
    assert_eq!(m.track_number, 0);
    assert_eq!(m.date, 0);
}

#[test]
fn some_data_needs_a_text_a_track_or_a_late_date() {
    let mut m = BasicMetadata::new();
    m.date = 1800;
    assert!(!m.has_some_data());
    m.date = 1801;
    assert!(m.has_some_data());
    let mut m = BasicMetadata::new();
    m.track_number = 1;
    assert!(m.has_some_data());
    let mut m = BasicMetadata::new();
    m.composer = String::from("Mercury");
    assert!(m.has_some_data());
}

#[test]
fn metadata_describes_itself() {
    let mut m = BasicMetadata::new();
    m.album = String::from("Jazz");
    m.genre = String::from("Rock");
    m.track_number = 3;
    m.date = 1978;
    assert_eq!(m.describe(), "\nAlbum: Jazz #(3)\nGenre: Rock\nYear: 1978\n");
}

#[test]
fn song_extension_is_lowercase() {
    let s = SongFile::make(TagData::empty(), "MP3", Some(String::from("/music/a.MP3")));
    assert_eq!(s.extension, "mp3");
    assert_eq!(s.get_filepath_str(), Some("/music/a.MP3"));
    let s = SongFile::make(TagData::empty(), "Ogg", None);
    assert_eq!(s.extension, "ogg");
    assert_eq!(s.get_filepath_str(), None);
}

#[test]
fn search_key_needs_artist_and_title() {
    let s = SongFile::make(tag(Some("Queen"), Some("Bohemian Rhapsody"), None, None), "mp3", None);
    assert!(s.has_search_key());
    let s = SongFile::make(tag(Some("Queen"), Some(""), None, None), "mp3", None);
    assert!(!s.has_search_key());
    let s = SongFile::make(tag(None, Some("Bohemian Rhapsody"), None, None), "mp3", None);
    assert!(!s.has_search_key());
}

#[test]
fn complete_metadata_needs_album_and_year_after_1800() {
    let s = SongFile::make(tag(Some("Queen"), Some("Mustapha"), Some("Jazz"), Some(1978)), "mp3", None);
    assert!(s.is_metadata_complete());
    let s = SongFile::make(tag(Some("Queen"), Some("Mustapha"), Some("Jazz"), Some(1800)), "mp3", None);
    assert!(!s.is_metadata_complete());
    let s = SongFile::make(tag(Some("Queen"), Some("Mustapha"), None, Some(1978)), "mp3", None);
    assert!(!s.is_metadata_complete());
    let s = SongFile::make(tag(Some("Queen"), Some("Mustapha"), Some("Jazz"), None), "mp3", None);
    assert!(!s.is_metadata_complete());
}

#[test]
fn missing_year_falls_back_to_recording_date() {
    let mut t = tag(Some("Queen"), Some("Mustapha"), Some("Jazz"), Some(0));
    t.date_recorded_year = Some(1978);
    assert!(SongFile::make(t, "mp3", None).is_metadata_complete());
    let mut t = tag(Some("Queen"), Some("Mustapha"), Some("Jazz"), None);
    t.date_recorded_year = Some(1700);
    assert!(!SongFile::make(t, "mp3", None).is_metadata_complete());
}

#[test]
fn genre_without_parentheses() {
    let mut t = TagData::empty();
    t.genre = Some(String::from("Rock"));
    assert!(SongFile::make(t, "mp3", None).has_genre());
    let mut t = TagData::empty();
    t.genre = Some(String::from("(17)"));
    assert!(!SongFile::make(t, "mp3", None).has_genre());
    let mut t = TagData::empty();
    t.genre = Some(String::from("Rock)"));
    assert!(!SongFile::make(t, "mp3", None).has_genre());
    assert!(!SongFile::make(TagData::empty(), "mp3", None).has_genre());
}

#[test]
fn basic_metadata_becomes_tag_edits() {
    let s = SongFile::make(tag(Some("Queen"), Some("Mustapha"), None, None), "mp3", None);
    let mut m = BasicMetadata::new();
    m.album = String::from("Jazz");
    m.genre = String::from("Rock");
    m.track_number = 1;
    m.date = 1978;
    let edits = s.set_basic_metadata(m);
    assert_eq!(edits.len(), 5);
    assert!(matches!(&edits[0], TagEdit::Album(a) if a == "Jazz"));
    assert!(matches!(&edits[1], TagEdit::Year(1978)));
    assert!(matches!(&edits[2], TagEdit::Genre(g) if g == "Rock"));
    assert!(matches!(&edits[3], TagEdit::Track(1)));
    assert!(matches!(&edits[4], TagEdit::AlbumArtist(a) if a == "Queen"));
}

#[test]
fn xml_document_becomes_a_tree() {
    let map = XmlMap::from_str("<?xml version=\"1.0\"?><a x=\"1\" y=\"2\"><b>hi</b><c/><b>yo</b></a>");
    assert_eq!(map.raw_data, "<?xml version=\"1.0\"?><a x=\"1\" y=\"2\"><b>hi</b><c/><b>yo</b></a>");
    let a = map.root.child("a");
    assert_eq!(a.attribute("x").map(|s| s.as_str()), Some("1"));
    assert_eq!(a.attribute("y").map(|s| s.as_str()), Some("2"));
    assert_eq!(a.attribute("z"), None);
    assert!(a.has_matching_child("c"));
    assert!(!a.has_matching_child("d"));
    let bs = a.get_matching_children("b");
    assert_eq!(bs.len(), 2);
    assert_eq!(bs[0].text(), "hi");
    assert_eq!(bs[1].text(), "yo");
    assert_eq!(a.child("b").text(), "hi");
}

#[test]
fn namespaced_names_keep_their_local_part() {
    let map = XmlMap::from_str("<m xmlns:ns2=\"urn:x\"><item ns2:score=\"90\" id=\"k\"/></m>");
    let item = map.root.child("m").child("item");
    assert_eq!(item.attribute("score").map(|s| s.as_str()), Some("90"));
    assert_eq!(item.attributes().len(), 2);
}

#[test]
fn value_at_reads_among_children_of_one_name() {
    let map = XmlMap::from_str("<l><i>one</i><i>two</i></l>");
    let l = map.root.child("l");
    assert_eq!(l.value_at(0), "one");
    assert_eq!(l.value_at(1), "two");
}

#[test]
fn broken_xml_keeps_what_was_read() {
    let map = XmlMap::from_str("<a><b>text</b><c>");
    let a = map.root.child("a");
    assert_eq!(a.child("b").text(), "text");
    assert!(a.has_matching_child("c"));
}

#[test]
fn tree_from_events() {
    let events = vec![
        ParseEvent::Other,
        ParseEvent::StartElement(String::from("r"), vec![(String::from("k"), String::from("v"))]),
        ParseEvent::Characters(String::from("first")),
        ParseEvent::StartElement(String::from("s"), Vec::new()),
        ParseEvent::EndElement(String::from("s")),
        ParseEvent::Characters(String::from("last")),
        ParseEvent::EndElement(String::from("r")),
        ParseEvent::EndDocument,
    ];
    let root = XmlMap::create(&events);
    let r = root.child("r");
    assert_eq!(r.text(), "last");
    assert_eq!(r.attribute("k").map(|s| s.as_str()), Some("v"));
    assert!(r.has_matching_child("s"));
    assert_eq!(root.text(), "");
}

#[test]
fn nodes_grow_by_children() {
    let mut n = XmlNode::new();
    assert!(!n.has_matching_child("k"));
    let added = n.add_new_child(String::from("k"), String::from("v1"));
    assert_eq!(added.text(), "v1");
    let mut other = *XmlNode::boxed();
    other.value = String::from("v2");
    n.add_child(String::from("k"), other);
    let ks = n.get_matching_children("k");
    assert_eq!(ks.len(), 2);
    assert_eq!(ks[0].text(), "v1");
    assert_eq!(ks[1].text(), "v2");
    assert_eq!(n.value_at(1), "v2");
}

#[test]
fn extensions_compare_in_lowercase() {
    assert_eq!(mop::structs::lowercase_extension("Mp3"), "mp3");
    assert_eq!(mop::structs::lowercase_extension("ÖGG"), "ögg");
}

#[test]
fn song_describes_itself() {
    let mut t = tag(Some("Queen"), Some("Mustapha"), None, Some(1978));
    t.genre = Some(String::from("Rock"));
    let s = SongFile::make(t, "mp3", None);
    assert_eq!(
        s.describe("/m/x.mp3"),
        "Path:/m/x.mp3\nTitle: Mustapha\nArtist: Queen\nAlbum: N/A\nGenre: Rock\nYear: 1978"
    );
    let e = SongFile::make(TagData::empty(), "mp3", None);
    assert_eq!(e.describe("p"), "Path:p\nTitle: N/A\nArtist: N/A\nAlbum: N/A\nGenre: N/A\nYear: 0");
}

#[test]
fn no_year_and_no_recording_date_is_incomplete() {
    let s = SongFile::make(tag(Some("Queen"), Some("Mustapha"), Some("Jazz"), None), "mp3", None);
    assert!(!s.is_metadata_complete());
}
