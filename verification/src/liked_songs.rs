//! A user's liked songs: the response that the rows found make.

use vstd::prelude::*;
use vstd::string::*;
use crate::music::Located;
use crate::music::MusicRecord;
use crate::music::MusicResponseView;
use crate::music::cover_art_path;
use crate::music::music_file_path;
use crate::music::music_outcome;
use crate::music::response_of;
use crate::music::responses_of;
use crate::reply::NOT_FOUND;
use crate::reply::Reply;
use crate::reply::ReplyView;
use crate::reply::database_failure;
use crate::reply::text_reply;

verus! {

/// One liked song as a response shows it.
#[derive(Debug)]
pub struct LikedSongsResponse {
    pub id: String,
    pub filename: String,
    pub artist: String,
    pub title: String,
    pub album: String,
    pub genre: String,
    pub times_played: i32,
    pub cover_art_path: Option<String>,
}

impl View for LikedSongsResponse {
    type V = MusicResponseView;

    open spec fn view(&self) -> MusicResponseView {
        MusicResponseView {
            id: self.id@,
            filename: self.filename@,
            artist: self.artist@,
            title: self.title@,
            album: self.album@,
            genre: self.genre@,
            times_played: self.times_played,
            cover_art_path: match self.cover_art_path {
                Some(p) => Some(p@),
                None => None,
            },
        }
    }
}

impl LikedSongsResponse {
    /// The response entry of a row.
    pub fn from_record(record: &MusicRecord, has_cover: bool, music_root: &str, cover_root: &str) -> (entry:
        LikedSongsResponse)
        ensures
            entry@ == response_of(record@, has_cover, music_root@, cover_root@),
    {
        let cover = if has_cover {
            Some(cover_art_path(cover_root, record.music_id.as_str()))
        } else {
            None
        };
        LikedSongsResponse {
            id: record.music_id.clone(),
            filename: music_file_path(music_root, record.music_id.as_str()),
            artist: record.artist.clone(),
            title: record.title.clone(),
            album: record.album.clone(),
            genre: record.genre.clone(),
            times_played: record.times_played,
            cover_art_path: cover,
        }
    }
}

/// What a list of liked songs holds.
pub open spec fn liked_view(entries: Vec<LikedSongsResponse>) -> Seq<MusicResponseView> {
    entries@.map_values(|e: LikedSongsResponse| e@)
}

/// What a request for a user's liked songs comes to once the database has
/// answered: `loaded` holds the rows found, each with the word on its cover
/// image, or what the database said when it failed.
pub fn get_liked_songs(loaded: &Result<Vec<Located>, String>, music_root: &str, cover_root: &str) -> (r:
    Result<Vec<LikedSongsResponse>, Reply>)
    ensures
        match r {
            Ok(entries) => music_outcome(
                *loaded,
                music_root@,
                cover_root@,
                "No liked songs found"@,
            ) == Ok::<Seq<MusicResponseView>, ReplyView>(liked_view(entries)),
            Err(reply) => music_outcome(
                *loaded,
                music_root@,
                cover_root@,
                "No liked songs found"@,
            ) == Err::<Seq<MusicResponseView>, ReplyView>(reply@),
        },
{
    match loaded {
        Err(error) => Err(database_failure(error.as_str())),
        Ok(rows) => {
            if rows.len() == 0 {
                return Err(text_reply(NOT_FOUND, "No liked songs found".to_owned()));
            }
            let mut entries: Vec<LikedSongsResponse> = Vec::new();
            let mut i: usize = 0;
            while i < rows.len()
                invariant
                    i <= rows@.len(),
                    entries@.len() == i,
                    forall|j: int|
                        0 <= j < i ==> (#[trigger] entries@[j])@ == response_of(
                            rows@[j].record@,
                            rows@[j].has_cover,
                            music_root@,
                            cover_root@,
                        ),
                decreases rows@.len() - i,
            {
                entries.push(
                    LikedSongsResponse::from_record(
                        &rows[i].record,
                        rows[i].has_cover,
                        music_root,
                        cover_root,
                    ),
                );
                i = i + 1;
            }
            assert(liked_view(entries) =~= responses_of(*rows, music_root@, cover_root@));
            Ok(entries)
        },
    }
}

} // verus!
