//! Reading MusicBrainz (XML web service, version 2) answers, and the queries sent to it.

use vstd::prelude::*;
use crate::error::{ErrorKind, MopError};
use crate::num::{parse_i32, parse_i32_spec, parse_u32, parse_u32_spec};
use crate::structs::BasicMetadata;
use crate::text::prefix;
use crate::online::{percent_encode, spec_percent_encode};
use crate::structs::SongFile;
use crate::text::str_eq;
use crate::xml::{attr_lookup, document_tree, named, xml_events, XmlMap, XmlNode, XmlTree};

verus! {

/// The node has a child named `name`.
pub open spec fn has_child(t: XmlTree, name: Seq<char>) -> bool {
    named(t.children, name).len() > 0
}

/// The first child named `name`.
pub open spec fn child_of(t: XmlTree, name: Seq<char>) -> XmlTree {
    named(t.children, name)[0]
}

/// The address of the MusicBrainz web service.
pub fn api_endpoint() -> (res: &'static str)
    ensures
        res@ == "https://musicbrainz.org/ws/2/"@,
{
    "https://musicbrainz.org/ws/2/"
}

/// The query that looks an artist up: `artist?query=` and the encoded artist.
pub fn artist_query(song_file: &SongFile) -> (res: String)
    requires
        song_file.metadata.artist is Some,
    ensures
        res@ == "artist?query="@ + spec_percent_encode(song_file.metadata.artist->0@),
{
    let mut request = String::from_str("artist?query=");
    let artist = match &song_file.metadata.artist {
        Some(a) => a.as_str(),
        None => "",
    };
    match percent_encode(artist) {
        Ok(e) => request.append(e.as_str()),
        Err(_) => {},
    }
    request
}

/// The query that looks a recording of the artist `artist_id` up:
/// `recording/?query=`, the encoded title, the encoded ` AND arid:`, the id.
pub fn recording_query(song_file: &SongFile, artist_id: &str) -> (res: String)
    requires
        song_file.metadata.title is Some,
    ensures
        res@ == "recording/?query="@ + spec_percent_encode(song_file.metadata.title->0@)
            + spec_percent_encode(" AND arid:"@) + artist_id@,
{
    let mut request = String::from_str("recording/?query=");
    let title = match &song_file.metadata.title {
        Some(t) => t.as_str(),
        None => "",
    };
    match percent_encode(title) {
        Ok(e) => request.append(e.as_str()),
        Err(_) => {},
    }
    match percent_encode(" AND arid:") {
        Ok(e) => request.append(e.as_str()),
        Err(_) => {},
    }
    request.append(artist_id);
    request
}

/// The id and the score that a scan of an artist's attributes finds: the last
/// `id` and the last `score` (0 when there is none); `None` when a score is
/// not a number.
pub open spec fn scan_artist_attrs(attrs: Seq<(Seq<char>, Seq<char>)>) -> Option<(Seq<char>, i32)>
    decreases attrs.len(),
{
    if attrs.len() == 0 {
        Some((Seq::empty(), 0))
    } else {
        match scan_artist_attrs(attrs.drop_last()) {
            None => None,
            Some(acc) => {
                let (n, v) = attrs.last();
                if n == "id"@ {
                    Some((v, acc.1))
                } else if n == "score"@ {
                    match parse_i32_spec(v) {
                        Some(x) => Some((acc.0, x)),
                        None => None,
                    }
                } else {
                    Some(acc)
                }
            },
        }
    }
}

/// The search through the candidate artists in order: the id of the first
/// whose score is above 75 (`Some(Some(id))`), `Some(None)` when there is
/// none, `None` when a score met on the way is not a number.
pub open spec fn pick_artist(artists: Seq<XmlTree>) -> Option<Option<Seq<char>>>
    decreases artists.len(),
{
    if artists.len() == 0 {
        Some(None)
    } else {
        match scan_artist_attrs(artists[0].attributes) {
            None => None,
            Some(found) => if found.1 > 75 {
                Some(Some(found.0))
            } else {
                pick_artist(artists.skip(1))
            },
        }
    }
}

/// The `artist` entries of `metadata/artist-list`.
pub open spec fn artist_candidates(t: XmlTree) -> Seq<XmlTree> {
    named(child_of(child_of(t, "metadata"@), "artist-list"@).children, "artist"@)
}

/// The answer has `metadata/artist-list`, and every score read on the way is a number.
pub open spec fn artist_search_defined(t: XmlTree) -> bool {
    &&& has_child(t, "metadata"@)
    &&& has_child(child_of(t, "metadata"@), "artist-list"@)
    &&& pick_artist(artist_candidates(t)) is Some
}

/// The outcome of the artist search: the artist id, or the message of the
/// `NotFound` error.
pub open spec fn spec_artist_id(t: XmlTree) -> Result<Seq<char>, Seq<char>> {
    let artists = artist_candidates(t);
    if artists.len() < 1 {
        Err("MusicBrainz: The Artist was not found"@)
    } else {
        match pick_artist(artists) {
            Some(Some(id)) => if id.len() > 0 {
                Ok(id)
            } else {
                Err("MusicBrainz: The Artist ID was not found with enough confidence!"@)
            },
            _ => Err("MusicBrainz: The Artist ID was not found with enough confidence!"@),
        }
    }
}

/// `r` is the outcome `s`, its errors being `NotFound`.
pub open spec fn is_outcome(r: Result<String, MopError>, s: Result<Seq<char>, Seq<char>>) -> bool {
    match r {
        Ok(v) => s == Ok::<Seq<char>, Seq<char>>(v@),
        Err(e) => e.kind == ErrorKind::NotFound && s == Err::<Seq<char>, Seq<char>>(e.message@),
    }
}

fn scan_artist(node: &XmlNode) -> (res: Option<(String, i32)>)
    ensures
        match res {
            Some(r) => scan_artist_attrs(node.tree().attributes) == Some((r.0@, r.1)),
            None => scan_artist_attrs(node.tree().attributes) is None,
        },
{
    let attrs = node.attributes();
    let ghost all = node.tree().attributes;
    let mut id = String::new();
    let mut score: i32 = 0;
    let mut i: usize = 0;
    assert(all.take(0) =~= Seq::empty());
    while i < attrs.len()
        invariant
            all == crate::xml::pairs_view(attrs@),
            all == node.tree().attributes,
            i <= attrs.len(),
            scan_artist_attrs(all.take(i as int)) == Some((id@, score)),
        decreases attrs.len() - i,
    {
        assert(all.take(i + 1).drop_last() == all.take(i as int));
        assert(all.take(i + 1).last() == crate::xml::pair_view(attrs@[i as int]));
        let name = attrs[i].0.as_str();
        let value = attrs[i].1.as_str();
        if str_eq(name, "id") {
            id = String::from_str(value);
        } else if str_eq(name, "score") {
            match parse_i32(value) {
                Some(x) => {
                    score = x;
                },
                None => {
                    proof {
                        let t = all.take(i + 1);
                        assert(t.last().0 == "score"@);
                        assert(t.last().0 != "id"@);
                        assert(scan_artist_attrs(t) is None);
                        lemma_scan_none_extends(all, (i + 1) as int);
                    }
                    return None;
                },
            }
        }
        i = i + 1;
    }
    assert(all.take(i as int) == all);
    Some((id, score))
}

proof fn lemma_scan_none_extends(attrs: Seq<(Seq<char>, Seq<char>)>, k: int)
    requires
        0 <= k <= attrs.len(),
        scan_artist_attrs(attrs.take(k)) is None,
    ensures
        scan_artist_attrs(attrs) is None,
    decreases attrs.len() - k,
{
    if k < attrs.len() {
        assert(attrs.take(k + 1).drop_last() == attrs.take(k));
        lemma_scan_none_extends(attrs, k + 1);
    } else {
        assert(attrs.take(k) == attrs);
    }
}

/// The artist search over a parsed answer: `None` where a well-formed answer
/// is missing (no `metadata/artist-list`, or a score that is not a number),
/// else its outcome.
pub fn artist_id_in(root: &XmlNode) -> (res: Option<Result<String, MopError>>)
    ensures
        match res {
            None => !artist_search_defined(root.tree()),
            Some(r) => artist_search_defined(root.tree()) && is_outcome(r, spec_artist_id(root.tree())),
        },
{
    if !root.has_matching_child("metadata") {
        return None;
    }
    let meta = root.child("metadata");
    if !meta.has_matching_child("artist-list") {
        return None;
    }
    let list = meta.child("artist-list");
    let artists = list.get_matching_children("artist");
    let ghost all = artist_candidates(root.tree());
    assert(all.len() == artists@.len());
    if artists.len() < 1 {
        assert(pick_artist(all) == Some(None::<Seq<char>>));
        return Some(Err(MopError::new(ErrorKind::NotFound, "MusicBrainz: The Artist was not found")));
    }
    let mut i: usize = 0;
    assert(all.skip(0) == all);
    while i < artists.len()
        invariant
            all == artist_candidates(root.tree()),
            all.len() == artists@.len(),
            all.len() >= 1,
            forall|j: int| 0 <= j < artists@.len() ==> #[trigger] artists@[j].tree() == all[j],
            i <= artists.len(),
            pick_artist(all) == pick_artist(all.skip(i as int)),
            has_child(root.tree(), "metadata"@),
            has_child(child_of(root.tree(), "metadata"@), "artist-list"@),
        decreases artists.len() - i,
    {
        assert(all.skip(i as int)[0] == all[i as int]);
        assert(all.skip(i as int).skip(1) == all.skip(i + 1));
        match scan_artist(artists[i]) {
            None => {
                return None;
            },
            Some((id, score)) => {
                if score > 75 {
                    if id.as_str().is_empty() {
                        return Some(Err(MopError::new(
                            ErrorKind::NotFound,
                            "MusicBrainz: The Artist ID was not found with enough confidence!",
                        )));
                    }
                    return Some(Ok(id));
                }
            },
        }
        i = i + 1;
    }
    assert(all.skip(i as int) =~= Seq::empty());
    Some(Err(MopError::new(
        ErrorKind::NotFound,
        "MusicBrainz: The Artist ID was not found with enough confidence!",
    )))
}

/// The id of the artist that a MusicBrainz artist search answer names with
/// enough confidence.
pub fn find_artist_id(raw_data: &str) -> (res: Result<String, MopError>)
    requires
        artist_search_defined(document_tree(xml_events(raw_data@))),
    ensures
        is_outcome(res, spec_artist_id(document_tree(xml_events(raw_data@)))),
{
    let data = XmlMap::from_str(raw_data);
    match artist_id_in(&data.root) {
        Some(r) => r,
        None => Err(MopError::new(ErrorKind::NotFound, "")),
    }
}

/// `find_artist_id` where the answer allows it; `None` for an answer that
/// lacks `metadata/artist-list` or holds a score that is not a number.
pub fn try_find_artist_id(raw_data: &str) -> (res: Option<Result<String, MopError>>)
    ensures
        match res {
            None => !artist_search_defined(document_tree(xml_events(raw_data@))),
            Some(r) => artist_search_defined(document_tree(xml_events(raw_data@))) && is_outcome(
                r,
                spec_artist_id(document_tree(xml_events(raw_data@))),
            ),
        },
{
    let data = XmlMap::from_str(raw_data);
    match artist_id_in(&data.root) {
        None => None,
        Some(_) => Some(find_artist_id(raw_data)),
    }
}


/// The best release found so far while reading recordings, and the votes of
/// the genre chosen so far.
pub struct Candidate {
    pub genre: Seq<char>,
    pub album: Seq<char>,
    pub track: u32,
    pub date: i32,
    pub tag_count: i32,
}

/// The start of the search: no genre or album, track 0, the date 9001 that
/// marks "nothing found", no votes.
pub open spec fn initial_candidate() -> Candidate {
    Candidate { genre: Seq::empty(), album: Seq::empty(), track: 0, date: 9001, tag_count: 0 }
}

/// Reads the genre tags in order: a tag with more votes than any before it
/// makes its `name` the genre. `None` when a tag's `count` is missing or not a
/// number, or a winning tag has no `name`.
pub open spec fn tag_fold(c: Candidate, tags: Seq<XmlTree>) -> Option<Candidate>
    decreases tags.len(),
{
    if tags.len() == 0 {
        Some(c)
    } else {
        let g = tags[0];
        match attr_lookup(g.attributes, "count"@) {
            None => None,
            Some(count) => match parse_i32_spec(count) {
                None => None,
                Some(votes) => if votes > c.tag_count {
                    if has_child(g, "name"@) {
                        tag_fold(
                            Candidate { tag_count: votes, genre: child_of(g, "name"@).value, ..c },
                            tags.skip(1),
                        )
                    } else {
                        None
                    }
                } else {
                    tag_fold(c, tags.skip(1))
                },
            },
        }
    }
}

/// `medium-list/medium/track-list/track/number` exists under the release.
pub open spec fn has_track_number(release: XmlTree) -> bool {
    let a = child_of(release, "medium-list"@);
    let b = child_of(a, "medium"@);
    let c = child_of(b, "track-list"@);
    let d = child_of(c, "track"@);
    has_child(release, "medium-list"@) && has_child(a, "medium"@) && has_child(b, "track-list"@)
        && has_child(c, "track"@) && has_child(d, "number"@)
}

/// The text of `medium-list/medium/track-list/track/number`.
pub open spec fn track_number_text(release: XmlTree) -> Seq<char> {
    child_of(
        child_of(
            child_of(child_of(child_of(release, "medium-list"@), "medium"@), "track-list"@),
            "track"@,
        ),
        "number"@,
    ).value
}

/// The release year: the number in the first four characters of the date.
pub open spec fn release_year(date: Seq<char>) -> Option<i32> {
    if date.len() < 4 {
        None
    } else {
        parse_i32_spec(date.take(4))
    }
}

/// Reads one recording. A recording with a score under 75, without
/// `release-list/release`, whose release has no date or is not `Official`
/// leaves the candidate as it is (its genre tags still count once the release
/// list is there). An official release dated after 1800 and before the
/// candidate's date becomes the candidate, with its title and its track number
/// (0 when that is not a number). `None` where the answer lacks what is read
/// (score, id, status, title, track number path, a four-digit year).
pub open spec fn recording_step(c: Candidate, r: XmlTree) -> Option<Candidate> {
    match attr_lookup(r.attributes, "score"@) {
        None => None,
        Some(score) => match parse_i32_spec(score) {
            None => None,
            Some(confidence) => if attr_lookup(r.attributes, "id"@) is None {
                None
            } else if confidence < 75 {
                Some(c)
            } else if !has_child(r, "release-list"@) || !has_child(
                child_of(r, "release-list"@),
                "release"@,
            ) {
                Some(c)
            } else {
                let tagged = if has_child(r, "tag-list"@) {
                    tag_fold(c, named(child_of(r, "tag-list"@).children, "tag"@))
                } else {
                    Some(c)
                };
                match tagged {
                    None => None,
                    Some(c1) => {
                        let release = child_of(child_of(r, "release-list"@), "release"@);
                        if !has_child(release, "date"@) {
                            Some(c1)
                        } else if !has_child(release, "status"@) {
                            None
                        } else if child_of(release, "status"@).value != "Official"@ {
                            Some(c1)
                        } else {
                            match release_year(child_of(release, "date"@).value) {
                                None => None,
                                Some(year) => if year > 1800 && year < c1.date {
                                    if !has_child(release, "title"@) || !has_track_number(release) {
                                        None
                                    } else {
                                        Some(
                                            Candidate {
                                                date: year,
                                                album: child_of(release, "title"@).value,
                                                track: match parse_u32_spec(
                                                    track_number_text(release),
                                                ) {
                                                    Some(n) => n,
                                                    None => 0,
                                                },
                                                ..c1
                                            },
                                        )
                                    }
                                } else {
                                    Some(c1)
                                },
                            }
                        }
                    },
                }
            },
        },
    }
}

/// Reads the recordings in order.
pub open spec fn recordings_fold(c: Candidate, rs: Seq<XmlTree>) -> Option<Candidate>
    decreases rs.len(),
{
    if rs.len() == 0 {
        Some(c)
    } else {
        match recording_step(c, rs[0]) {
            None => None,
            Some(c1) => recordings_fold(c1, rs.skip(1)),
        }
    }
}

/// `metadata/recording-list`.
pub open spec fn recording_list(t: XmlTree) -> XmlTree {
    child_of(child_of(t, "metadata"@), "recording-list"@)
}

/// The outcome once all recordings are read: the date 9001 says that none was usable.
pub open spec fn finish_search(f: Option<Candidate>) -> Option<Result<Candidate, Seq<char>>> {
    match f {
        None => None,
        Some(c) => if c.date == 9001 {
            Some(Err("MusicBrainz: Recording metadata was not found!"@))
        } else {
            Some(Ok(c))
        },
    }
}

/// The outcome of reading a recording search answer: `None` where the answer
/// lacks what is read; else the best candidate, or the message of the
/// `NotFound` error (no recordings counted, or none usable).
pub open spec fn recording_search(t: XmlTree) -> Option<Result<Candidate, Seq<char>>> {
    if !has_child(t, "metadata"@) || !has_child(child_of(t, "metadata"@), "recording-list"@) {
        None
    } else {
        match attr_lookup(recording_list(t).attributes, "count"@) {
            None => None,
            Some(count) => match parse_i32_spec(count) {
                None => None,
                Some(n) => if n < 1 {
                    Some(Err("MusicBrainz: No matching recordings were found"@))
                } else {
                    finish_search(
                        recordings_fold(
                            initial_candidate(),
                            named(recording_list(t).children, "recording"@),
                        ),
                    )
                },
            },
        }
    }
}

/// `r` is the outcome `s`: the candidate's genre, album, track and date with no
/// composer, or a `NotFound` error with that message.
pub open spec fn is_recording_outcome(
    r: Result<BasicMetadata, MopError>,
    s: Result<Candidate, Seq<char>>,
) -> bool {
    match (r, s) {
        (Ok(m), Ok(c)) => m.genre@ == c.genre && m.album@ == c.album && m.track_number == c.track
            && m.date == c.date && m.composer@ == Seq::<char>::empty(),
        (Err(e), Err(msg)) => e.kind == ErrorKind::NotFound && e.message@ == msg,
        _ => false,
    }
}

struct Best {
    genre: String,
    album: String,
    track: u32,
    date: i32,
    tag_count: i32,
}

spec fn best_view(b: Best) -> Candidate {
    Candidate {
        genre: b.genre@,
        album: b.album@,
        track: b.track,
        date: b.date,
        tag_count: b.tag_count,
    }
}

/// Reads the genre tags of a recording into `best`; `false` where `tag_fold` is `None`.
fn read_tags(best: &mut Best, tags: &Vec<&XmlNode>) -> (ok: bool)
    ensures
        ok ==> tag_fold(best_view(*old(best)), Seq::new(tags@.len(), |j: int| tags@[j].tree()))
            == Some(best_view(*final(best))),
        !ok ==> tag_fold(best_view(*old(best)), Seq::new(tags@.len(), |j: int| tags@[j].tree()))
            is None,
{
    let ghost all = Seq::new(tags@.len(), |j: int| tags@[j].tree());
    let ghost target = tag_fold(best_view(*best), all);
    let mut i: usize = 0;
    assert(all.skip(0) == all);
    while i < tags.len()
        invariant
            all == Seq::new(tags@.len(), |j: int| tags@[j].tree()),
            target == tag_fold(best_view(*old(best)), all),
            i <= tags.len(),
            target == tag_fold(best_view(*best), all.skip(i as int)),
        decreases tags.len() - i,
    {
        assert(all.skip(i as int)[0] == tags@[i as int].tree());
        assert(all.skip(i as int).skip(1) == all.skip(i + 1));
        let g = tags[i];
        let count = match g.attribute("count") {
            Some(c) => c,
            None => {
                return false;
            },
        };
        let votes = match parse_i32(count.as_str()) {
            Some(v) => v,
            None => {
                return false;
            },
        };
        if votes > best.tag_count {
            if !g.has_matching_child("name") {
                return false;
            }
            best.tag_count = votes;
            best.genre = g.child("name").text().clone();
        }
        i = i + 1;
    }
    assert(all.skip(i as int) =~= Seq::empty());
    true
}

/// Reads one recording into `best`; `false` where `recording_step` is `None`.
fn read_recording(best: &mut Best, r: &XmlNode) -> (ok: bool)
    ensures
        ok ==> recording_step(best_view(*old(best)), r.tree()) == Some(best_view(*final(best))),
        !ok ==> recording_step(best_view(*old(best)), r.tree()) is None,
{
    let confidence = match r.attribute("score") {
        Some(score) => match parse_i32(score.as_str()) {
            Some(c) => c,
            None => {
                return false;
            },
        },
        None => {
            return false;
        },
    };
    if r.attribute("id").is_none() {
        return false;
    }
    if confidence < 75 {
        return true;
    }
    if !r.has_matching_child("release-list") || !r.child("release-list").has_matching_child(
        "release",
    ) {
        return true;
    }
    if r.has_matching_child("tag-list") {
        let tags = r.child("tag-list").get_matching_children("tag");
        proof {
            let tl = named(r.tree().children, "tag-list"@)[0];
            assert(Seq::new(tags@.len(), |j: int| tags@[j].tree()) =~= named(tl.children, "tag"@));
        }
        if !read_tags(best, &tags) {
            return false;
        }
    }
    let release = r.child("release-list").child("release");
    if !release.has_matching_child("date") {
        return true;
    }
    if !release.has_matching_child("status") {
        return false;
    }
    proof {
        reveal_strlit("Official");
    }
    if !str_eq(release.child("status").text().as_str(), "Official") {
        return true;
    }
    let date = release.child("date").text().as_str();
    if date.unicode_len() < 4 {
        return false;
    }
    let year = match parse_i32(prefix(date, 4).as_str()) {
        Some(y) => y,
        None => {
            return false;
        },
    };
    if year > 1800 && year < best.date {
        if !release.has_matching_child("title") {
            return false;
        }
        let title = release.child("title").text().clone();
        if !release.has_matching_child("medium-list") {
            return false;
        }
        let a = release.child("medium-list");
        if !a.has_matching_child("medium") {
            return false;
        }
        let b = a.child("medium");
        if !b.has_matching_child("track-list") {
            return false;
        }
        let c = b.child("track-list");
        if !c.has_matching_child("track") {
            return false;
        }
        let d = c.child("track");
        if !d.has_matching_child("number") {
            return false;
        }
        let track = match parse_u32(d.child("number").text().as_str()) {
            Some(n) => n,
            None => 0,
        };
        best.date = year;
        best.album = title;
        best.track = track;
    }
    true
}

/// Reading a parsed recording search answer: `None` where `recording_search`
/// is `None`, else its outcome.
pub fn recording_data_in(root: &XmlNode) -> (res: Option<Result<BasicMetadata, MopError>>)
    ensures
        match res {
            None => recording_search(root.tree()) is None,
            Some(r) => recording_search(root.tree()) matches Some(s) && is_recording_outcome(r, s),
        },
{
    if !root.has_matching_child("metadata") || !root.child("metadata").has_matching_child(
        "recording-list",
    ) {
        return None;
    }
    let list = root.child("metadata").child("recording-list");
    let num_recordings = match list.attribute("count") {
        Some(c) => match parse_i32(c.as_str()) {
            Some(n) => n,
            None => {
                return None;
            },
        },
        None => {
            return None;
        },
    };
    if num_recordings < 1 {
        return Some(Err(MopError::new(
            ErrorKind::NotFound,
            "MusicBrainz: No matching recordings were found",
        )));
    }
    let recordings = list.get_matching_children("recording");
    let ghost all = named(recording_list(root.tree()).children, "recording"@);
    assert(all =~= Seq::new(recordings@.len(), |j: int| recordings@[j].tree()));
    let mut best = Best {
        genre: String::new(),
        album: String::new(),
        track: 0,
        date: 9001,
        tag_count: 0,
    };
    let ghost target = recordings_fold(initial_candidate(), all);
    assert(recording_search(root.tree()) == finish_search(target));
    let mut i: usize = 0;
    assert(all.skip(0) == all);
    assert(best_view(best) == initial_candidate());
    while i < recordings.len()
        invariant
            all == Seq::new(recordings@.len(), |j: int| recordings@[j].tree()),
            recording_search(root.tree()) == finish_search(target),
            i <= recordings.len(),
            target == recordings_fold(best_view(best), all.skip(i as int)),
        decreases recordings.len() - i,
    {
        assert(all.skip(i as int)[0] == recordings@[i as int].tree());
        assert(all.skip(i as int).skip(1) == all.skip(i + 1));
        if !read_recording(&mut best, recordings[i]) {
            return None;
        }
        i = i + 1;
    }
    assert(all.skip(i as int) =~= Seq::empty());
    if best.date == 9001 {
        return Some(Err(MopError::new(
            ErrorKind::NotFound,
            "MusicBrainz: Recording metadata was not found!",
        )));
    }
    Some(Ok(BasicMetadata {
        genre: best.genre,
        album: best.album,
        track_number: best.track,
        date: best.date,
        composer: String::new(),
    }))
}

/// The best release that a MusicBrainz recording search answer names: the
/// oldest official release dated after 1800 among the recordings scored 75 or
/// more, with the genre voted most among their tags.
pub fn find_recording_data(raw_data: &str) -> (res: Result<BasicMetadata, MopError>)
    requires
        recording_search(document_tree(xml_events(raw_data@))) is Some,
    ensures
        is_recording_outcome(res, recording_search(document_tree(xml_events(raw_data@)))->0),
{
    let data = XmlMap::from_str(raw_data);
    match recording_data_in(&data.root) {
        Some(r) => r,
        None => Err(MopError::new(ErrorKind::NotFound, "")),
    }
}

/// `find_recording_data` where the answer allows it; `None` for an answer that
/// lacks what is read.
pub fn try_find_recording_data(raw_data: &str) -> (res: Option<Result<BasicMetadata, MopError>>)
    ensures
        match res {
            None => recording_search(document_tree(xml_events(raw_data@))) is None,
            Some(r) => recording_search(document_tree(xml_events(raw_data@))) matches Some(s)
                && is_recording_outcome(r, s),
        },
{
    let data = XmlMap::from_str(raw_data);
    match recording_data_in(&data.root) {
        None => None,
        Some(_) => Some(find_recording_data(raw_data)),
    }
}

} // verus!
