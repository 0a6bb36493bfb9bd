//! The program's actions, as far as they decide and compute: which files are
//! songs, the per-extension tally of a check, the names of renamed files, the
//! outcome of a fix and the plan of "all".

use vstd::prelude::*;
use crate::error::MopError;
use crate::num::{decimal, i32_to_string, signed_decimal, u32_to_string};
use crate::structs::{text_or_empty, text_or_na, SongFile};
use crate::text::{replace_all, replaced, str_eq};

verus! {

/// Whether files with the (lowercase) extension `ext` are handled: only `mp3`
/// (`aac`, `mp4` and `ogg` are recognised as audio but not handled yet).
pub fn is_audio_extension(ext: &str) -> (res: bool)
    ensures
        res == (ext@ == "mp3"@),
{
    str_eq(ext, "mp3")
}

/// The counts that a check keeps for one extension.
#[derive(Clone, Copy, Debug)]
pub struct FileCount {
    pub num: i32,
    pub bytes: u64,
    pub incomplete_metadata_count: i32,
    pub invalid_key_count: i32,
}

impl FileCount {
    /// All counts zero.
    pub fn zero() -> (res: FileCount)
        ensures
            res.num == 0 && res.bytes == 0 && res.incomplete_metadata_count == 0
                && res.invalid_key_count == 0,
    {
        FileCount { num: 0, bytes: 0, incomplete_metadata_count: 0, invalid_key_count: 0 }
    }
}

/// The counts after one more file of `bytes` bytes.
pub open spec fn counted(c: FileCount, bytes: u64, has_search_key: bool, complete: bool) -> FileCount {
    FileCount {
        num: (c.num + 1) as i32,
        bytes: (c.bytes + bytes) as u64,
        incomplete_metadata_count: (c.incomplete_metadata_count + if complete { 0int } else { 1int }) as i32,
        invalid_key_count: (c.invalid_key_count + if has_search_key { 0int } else { 1int }) as i32,
    }
}

/// Counting one more file keeps every count in range.
pub open spec fn can_count(c: FileCount, bytes: u64) -> bool {
    c.num < i32::MAX && c.bytes + bytes <= u64::MAX && c.incomplete_metadata_count < i32::MAX
        && c.invalid_key_count < i32::MAX
}

/// The position of the entry for `ext`, if there is one (the last such).
pub open spec fn entry_index(entries: Seq<(Seq<char>, FileCount)>, ext: Seq<char>) -> int
    decreases entries.len(),
{
    if entries.len() == 0 {
        -1
    } else if entries.last().0 == ext {
        entries.len() - 1
    } else {
        entry_index(entries.drop_last(), ext)
    }
}

/// The entries after recording a file: the entry for its extension counts it,
/// and an extension seen for the first time gets an entry at the end.
pub open spec fn recorded(
    entries: Seq<(Seq<char>, FileCount)>,
    ext: Seq<char>,
    bytes: u64,
    has_search_key: bool,
    complete: bool,
) -> Seq<(Seq<char>, FileCount)> {
    let k = entry_index(entries, ext);
    let zero = FileCount { num: 0, bytes: 0, incomplete_metadata_count: 0, invalid_key_count: 0 };
    if k < 0 {
        entries.push((ext, counted(zero, bytes, has_search_key, complete)))
    } else {
        entries.update(k, (ext, counted(entries[k].1, bytes, has_search_key, complete)))
    }
}

/// The sum of the file numbers of the entries.
pub open spec fn sum_num(entries: Seq<(Seq<char>, FileCount)>) -> int
    decreases entries.len(),
{
    if entries.len() == 0 {
        0
    } else {
        sum_num(entries.drop_last()) + entries.last().1.num
    }
}

/// The sum of the byte counts of the entries.
pub open spec fn sum_bytes(entries: Seq<(Seq<char>, FileCount)>) -> int
    decreases entries.len(),
{
    if entries.len() == 0 {
        0
    } else {
        sum_bytes(entries.drop_last()) + entries.last().1.bytes
    }
}

/// The sum of the counts of files with incomplete metadata.
pub open spec fn sum_incomplete(entries: Seq<(Seq<char>, FileCount)>) -> int
    decreases entries.len(),
{
    if entries.len() == 0 {
        0
    } else {
        sum_incomplete(entries.drop_last()) + entries.last().1.incomplete_metadata_count
    }
}

/// The sum of the counts of files without a search key.
pub open spec fn sum_invalid(entries: Seq<(Seq<char>, FileCount)>) -> int
    decreases entries.len(),
{
    if entries.len() == 0 {
        0
    } else {
        sum_invalid(entries.drop_last()) + entries.last().1.invalid_key_count
    }
}

/// The counts of a check, one entry per extension, in the order the
/// extensions were first met.
pub struct FileTally {
    entries: Vec<(String, FileCount)>,
}

impl FileTally {
    /// Every count is non-negative.
    pub closed spec fn wf(&self) -> bool {
        forall|i: int|
            0 <= i < self.entries@.len() ==> {
                let c = #[trigger] self.entries@[i].1;
                c.num >= 0 && c.incomplete_metadata_count >= 0 && c.invalid_key_count >= 0
            }
    }

    /// The entries: extension and counts.
    pub closed spec fn view_entries(&self) -> Seq<(Seq<char>, FileCount)> {
        self.entries@.map_values(|e: (String, FileCount)| (e.0@, e.1))
    }

    /// No extension seen yet.
    pub fn new() -> (res: FileTally)
        ensures
            res.wf(),
            res.view_entries() == Seq::<(Seq<char>, FileCount)>::empty(),
    {
        let res = FileTally { entries: Vec::new() };
        assert(res.view_entries() =~= Seq::<(Seq<char>, FileCount)>::empty());
        res
    }

    /// The entries, for showing them.
    pub fn entries(&self) -> (res: &Vec<(String, FileCount)>)
        ensures
            res@.map_values(|e: (String, FileCount)| (e.0@, e.1)) == self.view_entries(),
    {
        &self.entries
    }

    fn find(&self, ext: &str) -> (res: Option<usize>)
        ensures
            match res {
                Some(k) => k as int == entry_index(self.view_entries(), ext@) && k < self.entries.len(),
                None => entry_index(self.view_entries(), ext@) < 0,
            },
    {
        let ghost es = self.view_entries();
        let mut i = self.entries.len();
        assert(es.take(i as int) == es);
        while i > 0
            invariant
                es == self.view_entries(),
                i <= self.entries.len(),
                es.len() == self.entries.len(),
                entry_index(es, ext@) == entry_index(es.take(i as int), ext@),
            decreases i,
        {
            assert(es.take(i as int).drop_last() == es.take(i - 1));
            assert(es.take(i as int).last() == es[i - 1]);
            if str_eq(self.entries[i - 1].0.as_str(), ext) {
                return Some(i - 1);
            }
            i = i - 1;
        }
        None
    }

    /// Counts one more file with extension `ext` and `bytes` bytes, noting
    /// whether it lacks a search key and whether its metadata is incomplete.
    pub fn record(&mut self, ext: &str, bytes: u64, has_search_key: bool, complete: bool)
        requires
            old(self).wf(),
            entry_index(old(self).view_entries(), ext@) >= 0 ==> can_count(
                old(self).view_entries()[entry_index(old(self).view_entries(), ext@)].1,
                bytes,
            ),
        ensures
            final(self).wf(),
            final(self).view_entries() == recorded(
                old(self).view_entries(),
                ext@,
                bytes,
                has_search_key,
                complete,
            ),
    {
        let ghost es = self.view_entries();
        match self.find(ext) {
            Some(k) => {
                proof {
                    lemma_entry_index(es, ext@);
                }
                let c = self.entries[k].1;
                let new_count = FileCount {
                    num: c.num + 1,
                    bytes: c.bytes + bytes,
                    incomplete_metadata_count: c.incomplete_metadata_count + if complete { 0 } else { 1 },
                    invalid_key_count: c.invalid_key_count + if has_search_key { 0 } else { 1 },
                };
                let name = self.entries[k].0.clone();
                self.entries.set(k, (name, new_count));
                assert(self.view_entries() =~= recorded(es, ext@, bytes, has_search_key, complete));
            },
            None => {
                let new_count = FileCount {
                    num: 1,
                    bytes: bytes,
                    incomplete_metadata_count: if complete { 0 } else { 1 },
                    invalid_key_count: if has_search_key { 0 } else { 1 },
                };
                self.entries.push((String::from_str(ext), new_count));
                assert(self.view_entries() =~= recorded(es, ext@, bytes, has_search_key, complete));
            },
        }
    }

    /// The totals of a check: every count summed over the extensions.
    pub fn totals(&self) -> (res: FileCount)
        requires
            self.wf(),
            sum_num(self.view_entries()) <= i32::MAX,
            sum_bytes(self.view_entries()) <= u64::MAX,
            sum_incomplete(self.view_entries()) <= i32::MAX,
            sum_invalid(self.view_entries()) <= i32::MAX,
        ensures
            res.num == sum_num(self.view_entries()),
            res.bytes == sum_bytes(self.view_entries()),
            res.incomplete_metadata_count == sum_incomplete(self.view_entries()),
            res.invalid_key_count == sum_invalid(self.view_entries()),
    {
        let ghost es = self.view_entries();
        let mut total = FileCount::zero();
        let mut i: usize = 0;
        assert(counts_nonneg(es));
        assert(es.take(0) =~= Seq::<(Seq<char>, FileCount)>::empty());
        while i < self.entries.len()
            invariant
                es == self.view_entries(),
                es.len() == self.entries.len(),
                i <= self.entries.len(),
                counts_nonneg(es),
                sum_num(es) <= i32::MAX,
                sum_bytes(es) <= u64::MAX,
                sum_incomplete(es) <= i32::MAX,
                sum_invalid(es) <= i32::MAX,
                total.num == sum_num(es.take(i as int)),
                total.bytes == sum_bytes(es.take(i as int)),
                total.incomplete_metadata_count == sum_incomplete(es.take(i as int)),
                total.invalid_key_count == sum_invalid(es.take(i as int)),
            decreases self.entries.len() - i,
        {
            let c = self.entries[i].1;
            proof {
                assert(es.take(i + 1).drop_last() == es.take(i as int));
                assert(es.take(i + 1).last() == es[i as int]);
                lemma_sums_prefix(es, i + 1);
                assert(counts_nonneg(es.take(i as int)));
                lemma_sums_nonneg(es.take(i as int));
            }
            total.num = total.num + c.num;
            total.bytes = total.bytes + c.bytes;
            total.incomplete_metadata_count = total.incomplete_metadata_count
                + c.incomplete_metadata_count;
            total.invalid_key_count = total.invalid_key_count + c.invalid_key_count;
            i = i + 1;
        }
        assert(es.take(i as int) == es);
        total
    }
}

proof fn lemma_entry_index(es: Seq<(Seq<char>, FileCount)>, ext: Seq<char>)
    ensures
        entry_index(es, ext) < es.len(),
        entry_index(es, ext) >= 0 ==> es[entry_index(es, ext)].0 == ext,
    decreases es.len(),
{
    if es.len() > 0 && es.last().0 != ext {
        lemma_entry_index(es.drop_last(), ext);
    }
}

/// All counts of the entries are non-negative.
pub open spec fn counts_nonneg(entries: Seq<(Seq<char>, FileCount)>) -> bool {
    forall|i: int|
        0 <= i < entries.len() ==> #[trigger] entries[i].1.num >= 0
            && entries[i].1.incomplete_metadata_count >= 0 && entries[i].1.invalid_key_count >= 0
}

proof fn lemma_sums_nonneg(es: Seq<(Seq<char>, FileCount)>)
    requires
        counts_nonneg(es),
    ensures
        sum_bytes(es) >= 0,
        sum_num(es) >= 0,
        sum_incomplete(es) >= 0,
        sum_invalid(es) >= 0,
    decreases es.len(),
{
    if es.len() > 0 {
        assert(es.last().1.num >= 0);
        assert(counts_nonneg(es.drop_last()));
        lemma_sums_nonneg(es.drop_last());
    }
}

proof fn lemma_sums_prefix(es: Seq<(Seq<char>, FileCount)>, k: int)
    requires
        0 <= k <= es.len(),
        counts_nonneg(es),
    ensures
        sum_bytes(es.take(k)) <= sum_bytes(es),
        sum_num(es.take(k)) <= sum_num(es),
        sum_incomplete(es.take(k)) <= sum_incomplete(es),
        sum_invalid(es.take(k)) <= sum_invalid(es),
    decreases es.len() - k,
{
    if k < es.len() {
        lemma_sums_prefix(es, k + 1);
        assert(es.take(k + 1).drop_last() == es.take(k));
        assert(es.take(k + 1).last().1.num >= 0);
    } else {
        assert(es.take(k) == es);
    }
}


/// The directory that `./` stands for in a renaming format: the working
/// directory, with a `/` added unless it already ends with one.
pub open spec fn format_base(working_dir: Seq<char>) -> Seq<char> {
    if working_dir.last() == '/' {
        working_dir
    } else {
        working_dir + seq!['/']
    }
}

/// The renaming format with `./` replaced by the working directory.
pub fn rename_template(working_dir: &str, format_string: &str) -> (res: String)
    requires
        working_dir@.len() > 0,
    ensures
        res@ == replaced(format_string@, "./"@, format_base(working_dir@)),
{
    proof {
        reveal_strlit("/");
        reveal_strlit("./");
        assert("/"@ == seq!['/']);
    }
    let mut format_path = String::from_str(working_dir);
    let wd = crate::text::chars_of(working_dir);
    if wd[wd.len() - 1] != '/' {
        format_path.append("/");
    }
    assert(format_path@ == format_base(working_dir@));
    replace_all(format_string, "./", format_path.as_str())
}


/// The new path of a song under a renaming template: `%artist`, `%title`,
/// `%album` (`N/A` when absent), `%year` (1969 when absent) and `%track` (0
/// when absent) replaced in that order, then `.` and the extension.
pub open spec fn spec_renamed_path(song: SongFile, template: Seq<char>) -> Seq<char> {
    let a = replaced(template, "%artist"@, text_or_empty(song.metadata.artist));
    let b = replaced(a, "%title"@, text_or_empty(song.metadata.title));
    let c = replaced(b, "%album"@, text_or_na(song.metadata.album));
    let year = match song.metadata.year {
        Some(y) => y,
        None => 1969,
    };
    let d = replaced(c, "%year"@, signed_decimal(year as int));
    let track = match song.metadata.track {
        Some(t) => t,
        None => 0,
    };
    let e = replaced(d, "%track"@, decimal(track as nat));
    e + "."@ + song.extension@
}

impl SongFile {
    /// The path that renaming gives this song.
    pub fn renamed_path(&self, template: &str) -> (res: String)
        requires
            self.metadata.artist is Some,
            self.metadata.title is Some,
        ensures
            res@ == spec_renamed_path(*self, template@),
    {
        proof {
            reveal_strlit("%artist");
            reveal_strlit("%title");
            reveal_strlit("%album");
            reveal_strlit("%year");
            reveal_strlit("%track");
        }
        let artist = match &self.metadata.artist {
            Some(a) => a.as_str(),
            None => "",
        };
        let title = match &self.metadata.title {
            Some(t) => t.as_str(),
            None => "",
        };
        let album = match &self.metadata.album {
            Some(a) => a.as_str(),
            None => "N/A",
        };
        let year = match self.metadata.year {
            Some(y) => y,
            None => 1969,
        };
        let track = match self.metadata.track {
            Some(t) => t,
            None => 0,
        };
        let a = replace_all(template, "%artist", artist);
        let b = replace_all(a.as_str(), "%title", title);
        let c = replace_all(b.as_str(), "%album", album);
        let d = replace_all(c.as_str(), "%year", i32_to_string(year).as_str());
        let mut e = replace_all(d.as_str(), "%track", u32_to_string(track).as_str());
        e.append(".");
        e.append(self.extension.as_str());
        e
    }
}

/// Why a fix left a song unchanged: when the online lookup failed and the
/// metadata is still incomplete, the error's message; otherwise nothing.
pub fn unchanged_reason(song_file: &SongFile, result: &Result<(), MopError>) -> (res: Option<String>)
    ensures
        match res {
            Some(reason) => result matches Err(e) && !song_file.spec_is_metadata_complete()
                && reason@ == e.message@,
            None => result is Ok || song_file.spec_is_metadata_complete(),
        },
{
    match result {
        Ok(()) => None,
        Err(e) => if !song_file.is_metadata_complete() {
            Some(String::from_str(e.description()))
        } else {
            None
        },
    }
}

/// An action of the program on a working directory.
#[derive(Debug)]
pub enum Action {
    /// Check the files and show counts.
    PathCheck(String),
    /// Look incomplete metadata up online.
    FixMetadata(String),
    /// Fetch cover art.
    GetCoverArt(String),
    /// Rename the songs after a format.
    BulkRename(String, String),
}

/// The model of an action.
pub enum ActionView {
    PathCheck(Seq<char>),
    FixMetadata(Seq<char>),
    GetCoverArt(Seq<char>),
    BulkRename(Seq<char>, Seq<char>),
}

impl View for Action {
    type V = ActionView;

    open spec fn view(&self) -> ActionView {
        match self {
            Action::PathCheck(d) => ActionView::PathCheck(d@),
            Action::FixMetadata(d) => ActionView::FixMetadata(d@),
            Action::GetCoverArt(d) => ActionView::GetCoverArt(d@),
            Action::BulkRename(d, f) => ActionView::BulkRename(d@, f@),
        }
    }
}

/// Everything, in order: check, fix, cover art, and renaming to
/// `./%artist - %title`.
pub fn do_all(working_dir: String) -> (res: Vec<Action>)
    ensures
        res@.map_values(|a: Action| a@) == seq![
            ActionView::PathCheck(working_dir@),
            ActionView::FixMetadata(working_dir@),
            ActionView::GetCoverArt(working_dir@),
            ActionView::BulkRename(working_dir@, "./%artist - %title"@),
        ],
{
    let mut plan: Vec<Action> = Vec::new();
    plan.push(Action::PathCheck(working_dir.clone()));
    plan.push(Action::FixMetadata(working_dir.clone()));
    plan.push(Action::GetCoverArt(working_dir.clone()));
    plan.push(Action::BulkRename(working_dir, String::from_str("./%artist - %title")));
    assert(plan@.map_values(|a: Action| a@) =~= seq![
        ActionView::PathCheck(working_dir@),
        ActionView::FixMetadata(working_dir@),
        ActionView::GetCoverArt(working_dir@),
        ActionView::BulkRename(working_dir@, "./%artist - %title"@),
    ]);
    plan
}

/// Cover art retrieval, which does nothing yet.
pub fn get_cover_art(working_dir: String) {
}

} // verus!
