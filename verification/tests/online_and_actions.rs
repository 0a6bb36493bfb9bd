use mop::actions::{do_all, get_cover_art, is_audio_extension, rename_template, unchanged_reason, Action, FileTally};
use mop::allmusic::{build_metadata, find_artist_album, find_matching_song_url};
use mop::error::{ErrorKind, MopError};
use mop::music_brainz::{
    api_endpoint, artist_id_in, artist_query, find_artist_id, find_recording_data, recording_query,
    try_find_artist_id, try_find_recording_data,
};
use mop::online::{
    first_retrieval_step, get_user_agent, next_retrieval_step, percent_encode, read_response,
    request_url, RetrievalStep,
};
use mop::structs::{SongFile, TagData};
use mop::xml::XmlMap;

fn song(artist: Option<&str>, title: Option<&str>) -> SongFile {
    let mut t = TagData::empty();
    t.artist = artist.map(String::from);
    t.title = title.map(String::from);
    SongFile::make(t, "mp3", Some(String::from("/m/x.mp3")))
}

fn other_error() -> MopError {
    MopError::new(ErrorKind::Other, "boom")
}

#[test]
fn user_agent_names_version_and_authors() {
    assert_eq!(get_user_agent("1.2.3", "Ann <a@b.c>"), "MetadataOrganizationProgram/1.2.3 (Ann <a@b.c>)");
}

#[test]
fn percent_encode_makes_query_text() {
    assert_eq!(percent_encode("AC/DC & Friends: Live?").unwrap(), "AC%2FDC%20%26%20Friends%3A%20Live%3F");
    assert_eq!(percent_encode("Beyoncé").unwrap(), "Beyonc%C3%A9");
    assert_eq!(percent_encode(" AND arid:").unwrap(), "%20AND%20arid%3A");
    assert_eq!(percent_encode("").unwrap(), "");
    assert_eq!(percent_encode("a{b}#c\"<>`").unwrap(), "a%7Bb%7D%23c%22%3C%3E%60");
}

#[test]
fn request_url_joins_endpoint_and_path() {
    assert_eq!(request_url("https://e/", "artist?query=x"), "https://e/artist?query=x");
    assert_eq!(request_url("https://e/", "https://e/recording"), "https://e/recording");
}

#[test]
fn responses_are_read() {
    let e = read_response(404, Vec::new()).unwrap_err();
    assert_eq!(e.kind, ErrorKind::InvalidData);
    assert_eq!(e.description(), "MOP_Online: CURL Request returned error 404");
    assert_eq!(read_response(200, "héllo".as_bytes().to_vec()).unwrap(), "héllo");
    assert_eq!(read_response(399, Vec::new()).unwrap(), "");
}

#[test]
fn lookup_needs_a_search_key() {
    match first_retrieval_step(&song(Some("Queen"), None)) {
        RetrievalStep::Done(Err(e)) => {
            assert_eq!(e.kind, ErrorKind::InvalidInput);
            assert_eq!(e.description(), "MOP_Online: SongFile does not have appropriate search key filled");
        }
        _ => panic!("expected an error"),
    }
    assert!(matches!(first_retrieval_step(&song(Some("Queen"), Some("Jazz"))), RetrievalStep::TrySource(0)));
}

#[test]
fn lookup_tries_sources_until_one_succeeds() {
    assert!(matches!(next_retrieval_step(0, Ok(())), RetrievalStep::Done(Ok(()))));
    assert!(matches!(next_retrieval_step(0, Err(other_error())), RetrievalStep::TrySource(1)));
    assert!(matches!(next_retrieval_step(1, Ok(())), RetrievalStep::Done(Ok(()))));
    match next_retrieval_step(1, Err(other_error())) {
        RetrievalStep::Done(Err(e)) => {
            assert_eq!(e.kind, ErrorKind::NotFound);
            assert_eq!(e.description(), "MOP_Online: SongFile was unchanged");
        }
        _ => panic!("expected an error"),
    }
}

#[test]
fn allmusic_is_not_implemented() {
    for r in [find_matching_song_url("a", "t"), find_artist_album("u")] {
        let e = r.unwrap_err();
        assert_eq!(e.kind, ErrorKind::Other);
        assert_eq!(e.description(), "AllMusic: This isn't implemented.");
    }
    assert_eq!(build_metadata("u").unwrap_err().description(), "AllMusic: This isn't implemented.");
}

#[test]
fn musicbrainz_queries() {
    assert_eq!(api_endpoint(), "https://musicbrainz.org/ws/2/");
    let s = song(Some("AC/DC"), Some("T.N.T."));
    assert_eq!(artist_query(&s), "artist?query=AC%2FDC");
    assert_eq!(recording_query(&s, "66c662b6"), "recording/?query=T.N.T.%20AND%20arid%3A66c662b6");
}

const ARTISTS: &str = "<?xml version=\"1.0\" encoding=\"UTF-8\"?>\
<metadata xmlns=\"http://musicbrainz.org/ns/mmd-2.0#\" xmlns:ns2=\"http://musicbrainz.org/ns/ext#-2.0\">\
<artist-list count=\"2\" offset=\"0\">\
<artist id=\"a1\" type=\"Group\" ns2:score=\"60\"><name>Queen Tribute</name></artist>\
<artist id=\"b2\" type=\"Group\" ns2:score=\"100\"><name>Queen</name></artist>\
</artist-list></metadata>";

#[test]
fn artist_id_is_the_first_confident_one() {
    assert_eq!(find_artist_id(ARTISTS).unwrap(), "b2");
    assert_eq!(try_find_artist_id(ARTISTS).unwrap().unwrap(), "b2");
}

#[test]
fn artist_search_errors() {
    let none = "<metadata><artist-list count=\"0\"></artist-list></metadata>";
    let e = find_artist_id(none).unwrap_err();
    assert_eq!(e.kind, ErrorKind::NotFound);
    assert_eq!(e.description(), "MusicBrainz: The Artist was not found");
    let low = "<metadata><artist-list><artist id=\"a\" score=\"75\"/></artist-list></metadata>";
    assert_eq!(find_artist_id(low).unwrap_err().description(), "MusicBrainz: The Artist ID was not found with enough confidence!");
    let no_id = "<metadata><artist-list><artist score=\"80\"/></artist-list></metadata>";
    assert_eq!(find_artist_id(no_id).unwrap_err().description(), "MusicBrainz: The Artist ID was not found with enough confidence!");
}

#[test]
fn malformed_artist_answers_are_refused() {
    assert!(try_find_artist_id("<other/>").is_none());
    assert!(try_find_artist_id("<metadata><artist-list><artist id=\"a\" score=\"x\"/></artist-list></metadata>").is_none());
    let map = XmlMap::from_str("<metadata><artist-list><artist id=\"a\" score=\"99\"/><artist score=\"x\"/></artist-list></metadata>");
    assert_eq!(artist_id_in(&map.root).unwrap().unwrap(), "a");
}

const RECORDINGS: &str = "<metadata><recording-list count=\"2\">\
<recording id=\"r1\" score=\"100\">\
<tag-list><tag count=\"3\"><name>rock</name></tag><tag count=\"5\"><name>hard rock</name></tag></tag-list>\
<release-list><release id=\"x\"><title>A Night at the Opera</title><status>Official</status><date>1975-11-21</date>\
<medium-list><medium><track-list count=\"12\"><track><number>11</number></track></track-list></medium></medium-list>\
</release></release-list></recording>\
<recording id=\"r2\" score=\"90\"><release-list><release><title>Greatest Hits</title><status>Official</status><date>1981</date>\
<medium-list><medium><track-list><track><number>A1</number></track></track-list></medium></medium-list>\
</release></release-list></recording>\
</recording-list></metadata>";

#[test]
fn recording_data_takes_the_oldest_official_release() {
    let m = find_recording_data(RECORDINGS).unwrap();
    assert_eq!(m.date, 1975);
    assert_eq!(m.album, "A Night at the Opera");
    assert_eq!(m.track_number, 11);
    assert_eq!(m.genre, "hard rock");
    assert_eq!(m.composer, "");
}

#[test]
fn recording_track_that_is_not_a_number_is_zero() {
    let doc = RECORDINGS.replace("1981", "1970");
    let m = find_recording_data(&doc).unwrap();
    assert_eq!(m.date, 1970);
    assert_eq!(m.album, "Greatest Hits");
    assert_eq!(m.track_number, 0);
}

#[test]
fn recording_search_errors() {
    let e = find_recording_data("<metadata><recording-list count=\"0\"/></metadata>").unwrap_err();
    assert_eq!(e.kind, ErrorKind::NotFound);
    assert_eq!(e.description(), "MusicBrainz: No matching recordings were found");
    let bootleg = RECORDINGS.replace("Official", "Bootleg");
    assert_eq!(find_recording_data(&bootleg).unwrap_err().description(), "MusicBrainz: Recording metadata was not found!");
    let low = "<metadata><recording-list count=\"1\"><recording id=\"r\" score=\"74\"/></recording-list></metadata>";
    assert_eq!(find_recording_data(low).unwrap_err().description(), "MusicBrainz: Recording metadata was not found!");
}

#[test]
fn malformed_recording_answers_are_refused() {
    assert!(try_find_recording_data("<metadata/>").is_none());
    assert!(try_find_recording_data("<metadata><recording-list/></metadata>").is_none());
    let no_status = "<metadata><recording-list count=\"1\"><recording id=\"r\" score=\"80\"><release-list><release><date>1999</date></release></release-list></recording></recording-list></metadata>";
    assert!(try_find_recording_data(no_status).is_none());
    let short_date = RECORDINGS.replace("1981", "81");
    assert!(try_find_recording_data(&short_date).is_none());
    assert!(try_find_recording_data(RECORDINGS).unwrap().is_ok());
}

#[test]
fn only_mp3_is_handled() {
    assert!(is_audio_extension("mp3"));
    assert!(!is_audio_extension("ogg"));
    assert!(!is_audio_extension("MP3"));
    assert!(!is_audio_extension("txt"));
}

#[test]
fn tally_counts_per_extension() {
    let mut t = FileTally::new();
    t.record("mp3", 100, true, true);
    t.record("mp3", 50, false, false);
    t.record("ogg", 7, true, false);
    let es = t.entries();
    assert_eq!(es.len(), 2);
    assert_eq!(es[0].0, "mp3");
    assert_eq!(es[0].1.num, 2);
    assert_eq!(es[0].1.bytes, 150);
    assert_eq!(es[0].1.invalid_key_count, 1);
    assert_eq!(es[0].1.incomplete_metadata_count, 1);
    let total = t.totals();
    assert_eq!(total.num, 3);
    assert_eq!(total.bytes, 157);
    assert_eq!(total.invalid_key_count, 1);
    assert_eq!(total.incomplete_metadata_count, 2);
    assert_eq!(FileTally::new().totals().num, 0);
}

#[test]
fn rename_template_puts_the_working_directory_in() {
    assert_eq!(rename_template("music", "./%artist - %title"), "music/%artist - %title");
    assert_eq!(rename_template("/music", "./%artist - %title"), "/music/%artist - %title");
    assert_eq!(rename_template("/music/", "./%artist - %title"), "/music/%artist - %title");
    assert_eq!(rename_template("/m", "./a/./b"), "/m/a//m/b");
    assert_eq!(rename_template("é", "./x"), "é/x");
}

#[test]
fn renamed_path_fills_the_template() {
    let mut t = TagData::empty();
    t.artist = Some(String::from("Queen"));
    t.title = Some(String::from("Mustapha"));
    t.year = Some(1978);
    t.track = Some(1);
    let s = SongFile::make(t, "MP3", None);
    assert_eq!(s.renamed_path("d/%artist - %title (%album, %year) #%track"), "d/Queen - Mustapha (N/A, 1978) #1.mp3");
    let s2 = song(Some("%title"), Some("T"));
    assert_eq!(s2.renamed_path("%artist/%year/%track"), "T/1969/0.mp3");
}

#[test]
fn unchanged_reason_is_the_error_of_an_incomplete_song() {
    let s = song(Some("Queen"), Some("Mustapha"));
    assert_eq!(unchanged_reason(&s, &Err(other_error())), Some(String::from("boom")));
    assert_eq!(unchanged_reason(&s, &Ok(())), None);
}

#[test]
fn do_all_runs_every_action_in_order() {
    let plan = do_all(String::from("/m"));
    assert_eq!(plan.len(), 4);
    assert!(matches!(&plan[0], Action::PathCheck(d) if d == "/m"));
    assert!(matches!(&plan[1], Action::FixMetadata(d) if d == "/m"));
    assert!(matches!(&plan[2], Action::GetCoverArt(d) if d == "/m"));
    assert!(matches!(&plan[3], Action::BulkRename(d, f) if d == "/m" && f == "./%artist - %title"));
    get_cover_art(String::from("/m"));
}
