//! Browsing the music catalogue: which rows a request asks for, and the
//! response that the rows found make.

use vstd::prelude::*;
use vstd::string::*;
use crate::reply::BAD_REQUEST;
use crate::reply::NOT_FOUND;
use crate::reply::Reply;
use crate::reply::ReplyView;
use crate::reply::database_failure;
use crate::reply::failure;
use crate::reply::plain;
use crate::reply::text_reply;

verus! {

/// The parameters of a catalogue request.
#[derive(Debug)]
pub struct MusicQuery {
    pub title: Option<String>,
    pub uuid: Option<String>,
}

/// Which rows of the catalogue a request asks for.
#[derive(Debug)]
pub enum MusicFilter {
    /// All of them.
    All,
    /// Those with this title.
    ByTitle(String),
    /// The one with this identifier.
    ByUuid(String),
}

/// What a filter holds.
pub enum MusicFilterView {
    All,
    ByTitle(Seq<char>),
    ByUuid(Seq<char>),
}

impl View for MusicFilter {
    type V = MusicFilterView;

    open spec fn view(&self) -> MusicFilterView {
        match self {
            MusicFilter::All => MusicFilterView::All,
            MusicFilter::ByTitle(t) => MusicFilterView::ByTitle(t@),
            MusicFilter::ByUuid(u) => MusicFilterView::ByUuid(u@),
        }
    }
}

/// One row of the catalogue.
#[derive(Debug)]
pub struct MusicRecord {
    pub music_id: String,
    pub artist: String,
    pub title: String,
    pub album: String,
    pub genre: String,
    pub times_played: i32,
}

/// What a row holds.
pub struct MusicRecordView {
    pub music_id: Seq<char>,
    pub artist: Seq<char>,
    pub title: Seq<char>,
    pub album: Seq<char>,
    pub genre: Seq<char>,
    pub times_played: i32,
}

impl View for MusicRecord {
    type V = MusicRecordView;

    open spec fn view(&self) -> MusicRecordView {
        MusicRecordView {
            music_id: self.music_id@,
            artist: self.artist@,
            title: self.title@,
            album: self.album@,
            genre: self.genre@,
            times_played: self.times_played,
        }
    }
}

/// A row, and whether a cover image is stored for it.
#[derive(Debug)]
pub struct Located {
    pub record: MusicRecord,
    pub has_cover: bool,
}

/// One piece of music as a response shows it.
#[derive(Debug)]
pub struct MusicResponse {
    pub id: String,
    pub filename: String,
    pub artist: String,
    pub title: String,
    pub album: String,
    pub genre: String,
    pub times_played: i32,
    pub cover_art_path: Option<String>,
}

/// What a response entry holds.
pub struct MusicResponseView {
    pub id: Seq<char>,
    pub filename: Seq<char>,
    pub artist: Seq<char>,
    pub title: Seq<char>,
    pub album: Seq<char>,
    pub genre: Seq<char>,
    pub times_played: i32,
    pub cover_art_path: Option<Seq<char>>,
}

impl View for MusicResponse {
    type V = MusicResponseView;

    open spec fn view(&self) -> MusicResponseView {
        MusicResponseView {
            id: self.id@,
            filename: self.filename@,
            artist: self.artist@,
            title: self.title@,
            album: self.album@,
            genre: self.genre@,
            times_played: self.times_played,
            cover_art_path: match self.cover_art_path {
                Some(p) => Some(p@),
                None => None,
            },
        }
    }
}

/// Where the file of `id` lies under `root`.
pub open spec fn stored_path(root: Seq<char>, id: Seq<char>, suffix: Seq<char>) -> Seq<char> {
    root + "/"@ + id + suffix
}

/// The rows that a request asks for; a request that names both a title and
/// an identifier asks for nothing that can be answered.
pub open spec fn filter_of(query: MusicQuery) -> Result<MusicFilterView, ReplyView> {
    match (query.title, query.uuid) {
        (Some(title), None) => Ok(MusicFilterView::ByTitle(title@)),
        (None, Some(uuid)) => Ok(MusicFilterView::ByUuid(uuid@)),
        (None, None) => Ok(MusicFilterView::All),
        (Some(_), Some(_)) => Err(
            plain(BAD_REQUEST, "Please provide either title or uuid, not both"@),
        ),
    }
}

/// The response entry of a row, its files lying under `music_root` and
/// `cover_root`.
pub open spec fn response_of(
    record: MusicRecordView,
    has_cover: bool,
    music_root: Seq<char>,
    cover_root: Seq<char>,
) -> MusicResponseView {
    MusicResponseView {
        id: record.music_id,
        filename: stored_path(music_root, record.music_id, ".mp3"@),
        artist: record.artist,
        title: record.title,
        album: record.album,
        genre: record.genre,
        times_played: record.times_played,
        cover_art_path: if has_cover {
            Some(stored_path(cover_root, record.music_id, ".png"@))
        } else {
            None
        },
    }
}

fn path_under(root: &str, id: &str, suffix: &str) -> (path: String)
    ensures
        path@ == stored_path(root@, id@, suffix@),
{
    let mut path = root.to_owned();
    path.append("/");
    path.append(id);
    path.append(suffix);
    path
}

/// Where the cover image of `music_id` lies, if it has one.
pub fn cover_art_path(cover_root: &str, music_id: &str) -> (path: String)
    ensures
        path@ == stored_path(cover_root@, music_id@, ".png"@),
{
    path_under(cover_root, music_id, ".png")
}

/// Where the audio file of `music_id` lies.
pub fn music_file_path(music_root: &str, music_id: &str) -> (path: String)
    ensures
        path@ == stored_path(music_root@, music_id@, ".mp3"@),
{
    path_under(music_root, music_id, ".mp3")
}

impl MusicQuery {
    /// The rows that the request asks for, or the reply to a request that
    /// names both a title and an identifier.
    pub fn filter(self) -> (r: Result<MusicFilter, Reply>)
        ensures
            match r {
                Ok(f) => filter_of(self) == Ok::<MusicFilterView, ReplyView>(f@),
                Err(reply) => filter_of(self) == Err::<MusicFilterView, ReplyView>(reply@),
            },
    {
        match (self.title, self.uuid) {
            (Some(title), None) => Ok(MusicFilter::ByTitle(title)),
            (None, Some(uuid)) => Ok(MusicFilter::ByUuid(uuid)),
            (None, None) => Ok(MusicFilter::All),
            (Some(_), Some(_)) => Err(
                text_reply(
                    BAD_REQUEST,
                    "Please provide either title or uuid, not both".to_owned(),
                ),
            ),
        }
    }
}

impl MusicResponse {
    /// The response entry of a row.
    pub fn from_record(record: &MusicRecord, has_cover: bool, music_root: &str, cover_root: &str) -> (entry:
        MusicResponse)
        ensures
            entry@ == response_of(record@, has_cover, music_root@, cover_root@),
    {
        let cover = if has_cover {
            Some(cover_art_path(cover_root, record.music_id.as_str()))
        } else {
            None
        };
        MusicResponse {
            id: record.music_id.clone(),
            filename: music_file_path(music_root, record.music_id.as_str()),
            artist: record.artist.clone(),
            title: record.title.clone(),
            album: record.album.clone(),
            genre: record.genre.clone(),
            times_played: record.times_played,
            cover_art_path: cover,
        }
    }
}

/// What a list of response entries holds.
pub open spec fn entries_view(entries: Vec<MusicResponse>) -> Seq<MusicResponseView> {
    entries@.map_values(|e: MusicResponse| e@)
}

/// The response entries of the rows found.
pub open spec fn responses_of(rows: Vec<Located>, music_root: Seq<char>, cover_root: Seq<char>) -> Seq<
    MusicResponseView,
> {
    rows@.map_values(|l: Located| response_of(l.record@, l.has_cover, music_root, cover_root))
}

/// What a catalogue request comes to once the database has answered: the
/// entries to serialise, or the reply that ends the request.
pub open spec fn music_outcome(
    loaded: Result<Vec<Located>, String>,
    music_root: Seq<char>,
    cover_root: Seq<char>,
    nothing_found: Seq<char>,
) -> Result<Seq<MusicResponseView>, ReplyView> {
    match loaded {
        Err(error) => Err(failure("Database error: "@, error@)),
        Ok(rows) => if rows@.len() == 0 {
            Err(plain(NOT_FOUND, nothing_found))
        } else {
            Ok(responses_of(rows, music_root, cover_root))
        },
    }
}

/// What a catalogue request comes to once the database has answered:
/// `loaded` holds the rows found, each with the word on its cover image, or
/// what the database said when it failed.
pub fn get_music(loaded: &Result<Vec<Located>, String>, music_root: &str, cover_root: &str) -> (r:
    Result<Vec<MusicResponse>, Reply>)
    ensures
        match r {
            Ok(entries) => music_outcome(
                *loaded,
                music_root@,
                cover_root@,
                "No music entries found"@,
            ) == Ok::<Seq<MusicResponseView>, ReplyView>(entries_view(entries)),
            Err(reply) => music_outcome(
                *loaded,
                music_root@,
                cover_root@,
                "No music entries found"@,
            ) == Err::<Seq<MusicResponseView>, ReplyView>(reply@),
        },
{
    match loaded {
        Err(error) => Err(database_failure(error.as_str())),
        Ok(rows) => {
            if rows.len() == 0 {
                return Err(text_reply(NOT_FOUND, "No music entries found".to_owned()));
            }
            let mut entries: Vec<MusicResponse> = Vec::new();
            let mut i: usize = 0;
            while i < rows.len()
                invariant
                    i <= rows@.len(),
                    entries@.len() == i,
                    forall|j: int|
                        0 <= j < i ==> (#[trigger] entries@[j])@ == response_of(
                            rows@[j].record@,
                            rows@[j].has_cover,
                            music_root@,
                            cover_root@,
                        ),
                decreases rows@.len() - i,
            {
                entries.push(
                    MusicResponse::from_record(
                        &rows[i].record,
                        rows[i].has_cover,
                        music_root,
                        cover_root,
                    ),
                );
                i = i + 1;
            }
            assert(entries_view(entries) =~= responses_of(*rows, music_root@, cover_root@));
            Ok(entries)
        },
    }
}

} // verus!
