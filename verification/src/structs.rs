//! Song files and the metadata that is looked up for them.

use vstd::prelude::*;
use crate::num::{i32_to_string, u32_to_string, signed_decimal, decimal, digits_value, is_digit};
use crate::text::{contains_str, contains_seq};

verus! {

/// Metadata found for a song; its title and artist are the search key and are
/// never part of it.
#[derive(Debug)]
pub struct BasicMetadata {
    pub genre: String,
    pub album: String,
    pub track_number: u32,
    pub date: i32,
    pub composer: String,
}

impl BasicMetadata {
    /// Empty metadata: empty texts, track number and date 0.
    pub fn new() -> (res: BasicMetadata)
        ensures
            res.genre@ == Seq::<char>::empty(),
            res.album@ == Seq::<char>::empty(),
            res.composer@ == Seq::<char>::empty(),
            res.track_number == 0,
            res.date == 0,
    {
        BasicMetadata {
            genre: String::new(),
            album: String::new(),
            track_number: 0,
            date: 0,
            composer: String::new(),
        }
    }

    /// Whether any field says something: a non-empty text, a track number, or a
    /// date after 1800.
    pub open spec fn spec_has_some_data(&self) -> bool {
        self.genre@.len() > 0 || self.album@.len() > 0 || self.composer@.len() > 0
            || self.track_number > 0 || self.date > 1800
    }

    /// Whether any field says something.
    pub fn has_some_data(&self) -> (res: bool)
        ensures
            res == self.spec_has_some_data(),
    {
        !self.genre.as_str().is_empty() || !self.album.as_str().is_empty() || !self.composer.as_str().is_empty()
            || self.track_number > 0 || self.date > 1800
    }

    /// The text that shows the metadata:
    /// `"\nAlbum: <album> #(<track>)\nGenre: <genre>\nYear: <date>\n"`.
    pub fn describe(&self) -> (res: String)
        ensures
            res@ == "\nAlbum: "@ + self.album@ + " #("@ + decimal(self.track_number as nat) + ")\nGenre: "@
                + self.genre@ + "\nYear: "@ + signed_decimal(self.date as int) + "\n"@,
    {
        let mut s = String::from_str("\nAlbum: ");
        s.append(self.album.as_str());
        s.append(" #(");
        s.append(u32_to_string(self.track_number).as_str());
        s.append(")\nGenre: ");
        s.append(self.genre.as_str());
        s.append("\nYear: ");
        s.append(i32_to_string(self.date).as_str());
        s.append("\n");
        s
    }
}

/// What the logic reads of a song's ID3 tag: each field as the tag's getter
/// reports it.
#[derive(Debug)]
pub struct TagData {
    pub title: Option<String>,
    pub artist: Option<String>,
    pub album: Option<String>,
    pub genre: Option<String>,
    /// The year (TYER) frame.
    pub year: Option<i32>,
    /// The year of the recording date (TDRC) frame.
    pub date_recorded_year: Option<i32>,
    pub track: Option<u32>,
}

impl TagData {
    /// The fields of a tag that has no frames.
    pub fn empty() -> (res: TagData)
        ensures
            res.title is None && res.artist is None && res.album is None && res.genre is None,
            res.year is None && res.date_recorded_year is None && res.track is None,
    {
        TagData {
            title: None,
            artist: None,
            album: None,
            genre: None,
            year: None,
            date_recorded_year: None,
            track: None,
        }
    }
}

/// A text field, or the empty text when it is absent.
pub open spec fn text_or_empty(o: Option<String>) -> Seq<char> {
    match o {
        Some(s) => s@,
        None => Seq::empty(),
    }
}

fn str_or_empty(o: &Option<String>) -> (res: &str)
    ensures
        res@ == text_or_empty(*o),
{
    match o {
        Some(s) => s.as_str(),
        None => {
            proof {
                reveal_strlit("");
            }
            ""
        },
    }
}

/// The lowercase form of a text, as `str::to_lowercase` gives it.
pub uninterp spec fn lowercase(s: Seq<char>) -> Seq<char>;

/// A text field, or `N/A` when it is absent.
pub open spec fn text_or_na(o: Option<String>) -> Seq<char> {
    match o {
        Some(s) => s@,
        None => "N/A"@,
    }
}

fn str_or_na(o: &Option<String>) -> (res: &str)
    ensures
        res@ == text_or_na(*o),
{
    match o {
        Some(s) => s.as_str(),
        None => "N/A",
    }
}

/// `str::to_lowercase`: its result is named, as Unicode defines it.
#[verifier::external_body]
pub(crate) fn to_lowercase(s: &str) -> (res: String)
    ensures
        res@ == lowercase(s@),
{
    s.to_lowercase()
}

/// A file extension in lowercase, the form in which extensions are compared.
pub fn lowercase_extension(ext: &str) -> (res: String)
    ensures
        res@ == lowercase(ext@),
{
    to_lowercase(ext)
}

/// `c` has the Unicode `White_Space` property, which `char::is_whitespace`
/// and `str::trim_start` go by.
pub open spec fn is_unicode_whitespace(c: char) -> bool {
    let v = c as u32;
    (0x09 <= v && v <= 0x0d) || v == 0x20 || v == 0x85 || v == 0xa0 || v == 0x1680 || (0x2000
        <= v && v <= 0x200a) || v == 0x2028 || v == 0x2029 || v == 0x202f || v == 0x205f || v
        == 0x3000
}

/// `s` without its leading whitespace.
pub open spec fn trim_start_whitespace(s: Seq<char>) -> Seq<char>
    decreases s.len(),
{
    if s.len() > 0 && is_unicode_whitespace(s[0]) {
        trim_start_whitespace(s.skip(1))
    } else {
        s
    }
}

/// The ASCII digits at the start of `s`.
pub open spec fn leading_digits(s: Seq<char>) -> Seq<char>
    decreases s.len(),
{
    if s.len() > 0 && is_digit(s[0]) {
        seq![s[0]] + leading_digits(s.skip(1))
    } else {
        Seq::empty()
    }
}

/// The year that id3's `Timestamp` parser reads from a text: after leading
/// whitespace, at least one ASCII digit, whose number must fit in an `i32`.
pub open spec fn timestamp_year(text: Seq<char>) -> Option<i32> {
    let d = leading_digits(trim_start_whitespace(text));
    if d.len() == 0 {
        None
    } else if digits_value(d) <= i32::MAX {
        Some(digits_value(d) as i32)
    } else {
        None
    }
}

/// id3's `Timestamp` parser (`text.parse::<id3::Timestamp>()`), of which the
/// year is kept. Its source skips leading whitespace, reads the ASCII digits
/// that follow as a `u32` (failing on none or on overflow) and converts it to
/// an `i32` (failing when it does not fit); what follows the year never makes
/// it fail.
#[verifier::external_body]
fn parse_timestamp_year(text: &str) -> (res: Option<i32>)
    ensures
        res == timestamp_year(text@),
{
    text.parse::<id3::Timestamp>().ok().map(|t| t.year)
}

/// A change to write into a song's tag.
#[derive(Debug)]
pub enum TagEdit {
    Album(String),
    Year(i32),
    Genre(String),
    Track(u32),
    AlbumArtist(String),
}

/// The model of a tag edit.
pub enum TagEditView {
    Album(Seq<char>),
    Year(i32),
    Genre(Seq<char>),
    Track(u32),
    AlbumArtist(Seq<char>),
}

impl View for TagEdit {
    type V = TagEditView;

    open spec fn view(&self) -> TagEditView {
        match self {
            TagEdit::Album(s) => TagEditView::Album(s@),
            TagEdit::Year(y) => TagEditView::Year(*y),
            TagEdit::Genre(s) => TagEditView::Genre(s@),
            TagEdit::Track(t) => TagEditView::Track(*t),
            TagEdit::AlbumArtist(s) => TagEditView::AlbumArtist(s@),
        }
    }
}

/// A song file: its tag's fields, its lowercase extension and its path when
/// the path is valid Unicode.
#[derive(Debug)]
pub struct SongFile {
    pub metadata: TagData,
    pub extension: String,
    pub file_path: Option<String>,
}

impl SongFile {
    /// A song file with the given tag fields; the extension is kept in lowercase.
    pub fn make(metadata: TagData, extension: &str, file_path: Option<String>) -> (res: SongFile)
        ensures
            res.metadata == metadata,
            res.extension@ == lowercase(extension@),
            res.file_path == file_path,
    {
        SongFile { metadata, extension: to_lowercase(extension), file_path }
    }

    /// Both artist and title are present and non-empty.
    pub open spec fn spec_has_search_key(&self) -> bool {
        text_or_empty(self.metadata.artist).len() > 0 && text_or_empty(self.metadata.title).len()
            > 0
    }

    /// Whether the song can be looked up: it has an artist and a title.
    pub fn has_search_key(&self) -> (res: bool)
        ensures
            res == self.spec_has_search_key(),
    {
        !(str_or_empty(&self.metadata.artist).is_empty() || str_or_empty(
            &self.metadata.title,
        ).is_empty())
    }

    /// The year of the song: the year frame when it holds a non-zero year, else
    /// the year of the recording date, else 0 (the year id3 reads from "0").
    pub open spec fn spec_year(&self) -> i32 {
        let year = match self.metadata.year {
            Some(y) => y,
            None => 0,
        };
        if year != 0 {
            year
        } else {
            match self.metadata.date_recorded_year {
                Some(y) => y,
                None => 0,
            }
        }
    }

    /// Title, artist and album are non-empty and the year is after 1800.
    pub open spec fn spec_is_metadata_complete(&self) -> bool {
        &&& text_or_empty(self.metadata.artist).len() > 0
        &&& text_or_empty(self.metadata.title).len() > 0
        &&& text_or_empty(self.metadata.album).len() > 0
        &&& self.spec_year() > 1800
    }

    /// Whether the metadata that matters is all there.
    pub fn is_metadata_complete(&self) -> (res: bool)
        ensures
            res == self.spec_is_metadata_complete(),
    {
        let mut year: i32 = match self.metadata.year {
            Some(y) => y,
            None => 0,
        };
        if year == 0 {
            year = match self.metadata.date_recorded_year {
                Some(y) => y,
                None => {
                    let zero = "0";
                    proof {
                        reveal_strlit("0");
                        assert(zero@ == seq!['0']);
                        assert(crate::num::is_digit(zero@[0]));
                        assert(!is_unicode_whitespace(zero@[0]));
                        assert(trim_start_whitespace(zero@) == zero@);
                        assert(zero@.skip(1) =~= Seq::<char>::empty());
                        assert(leading_digits(zero@.skip(1)) == Seq::<char>::empty());
                        assert(leading_digits(zero@) =~= zero@);
                        assert(digits_value(zero@) == 0) by {
                            assert(zero@.drop_last().len() == 0);
                            assert(zero@.last() == '0');
                            assert(('0' as int) == 48);
                            reveal_with_fuel(digits_value, 2);
                        }
                        assert(timestamp_year(zero@) == Some(0i32));
                    }
                    match parse_timestamp_year(zero) {
                        Some(y) => y,
                        None => 0,
                    }
                },
            };
        }
        let album = str_or_empty(&self.metadata.album);
        let artist = str_or_empty(&self.metadata.artist);
        let title = str_or_empty(&self.metadata.title);
        !artist.is_empty() && !title.is_empty() && !album.is_empty() && year > 1800
    }

    /// The genre is present and holds no parenthesis.
    pub open spec fn spec_has_genre(&self) -> bool {
        let genre = text_or_empty(self.metadata.genre);
        genre.len() > 0 && !(contains_seq(genre, seq!['(']) || contains_seq(genre, seq![')']))
    }

    /// Whether the song has a plain genre.
    pub fn has_genre(&self) -> (res: bool)
        ensures
            res == self.spec_has_genre(),
    {
        let genre = str_or_empty(&self.metadata.genre);
        proof {
            reveal_strlit("(");
            reveal_strlit(")");
            assert("("@ == seq!['(']);
            assert(")"@ == seq![')']);
        }
        !genre.is_empty() && !(contains_str(genre, "(") || contains_str(genre, ")"))
    }

    /// The text that shows the song, given how its path is shown:
    /// `Path:<path>`, then `Title`, `Artist`, `Album`, `Genre` (`N/A` when
    /// absent) and `Year` (0 when absent), one per line.
    pub fn describe(&self, shown_path: &str) -> (res: String)
        ensures
            res@ == "Path:"@ + shown_path@ + "\nTitle: "@ + text_or_na(self.metadata.title)
                + "\nArtist: "@ + text_or_na(self.metadata.artist) + "\nAlbum: "@ + text_or_na(
                self.metadata.album,
            ) + "\nGenre: "@ + text_or_na(self.metadata.genre) + "\nYear: "@ + signed_decimal(
                match self.metadata.year {
                    Some(y) => y as int,
                    None => 0,
                },
            ),
    {
        let mut s = String::from_str("Path:");
        s.append(shown_path);
        s.append("\nTitle: ");
        s.append(str_or_na(&self.metadata.title));
        s.append("\nArtist: ");
        s.append(str_or_na(&self.metadata.artist));
        s.append("\nAlbum: ");
        s.append(str_or_na(&self.metadata.album));
        s.append("\nGenre: ");
        s.append(str_or_na(&self.metadata.genre));
        s.append("\nYear: ");
        let year = match self.metadata.year {
            Some(y) => y,
            None => 0,
        };
        s.append(i32_to_string(year).as_str());
        s
    }

    /// The path of the file, when it is valid Unicode.
    pub fn get_filepath_str(&self) -> (res: Option<&str>)
        ensures
            match res {
                Some(s) => self.file_path matches Some(p) && s@ == p@,
                None => self.file_path is None,
            },
    {
        match &self.file_path {
            Some(p) => Some(p.as_str()),
            None => None,
        }
    }

    /// The edits that write `ext_data` into the tag: album, year, genre, track,
    /// and the artist as album artist.
    pub fn set_basic_metadata(&self, ext_data: BasicMetadata) -> (res: Vec<TagEdit>)
        requires
            self.metadata.artist is Some,
        ensures
            res@.map_values(|e: TagEdit| e@) == seq![
                TagEditView::Album(ext_data.album@),
                TagEditView::Year(ext_data.date),
                TagEditView::Genre(ext_data.genre@),
                TagEditView::Track(ext_data.track_number),
                TagEditView::AlbumArtist(self.metadata.artist->0@),
            ],
    {
        let mut edits: Vec<TagEdit> = Vec::new();
        edits.push(TagEdit::Album(ext_data.album));
        edits.push(TagEdit::Year(ext_data.date));
        edits.push(TagEdit::Genre(ext_data.genre));
        edits.push(TagEdit::Track(ext_data.track_number));
        let album_artist = match &self.metadata.artist {
            Some(a) => a.clone(),
            None => String::new(),
        };
        edits.push(TagEdit::AlbumArtist(album_artist));
        assert(edits@.map_values(|e: TagEdit| e@) =~= seq![
            TagEditView::Album(ext_data.album@),
            TagEditView::Year(ext_data.date),
            TagEditView::Genre(ext_data.genre@),
            TagEditView::Track(ext_data.track_number),
            TagEditView::AlbumArtist(self.metadata.artist->0@),
        ]);
        edits
    }
}

} // verus!
