//! Serving a user's profile picture: the reply to each outcome of reading
//! the stored file, and the content type that goes with its extension.

use vstd::prelude::*;
use vstd::string::*;
use crate::reply::Body;
use crate::reply::BodyView;
use crate::reply::INTERNAL_SERVER_ERROR;
use crate::reply::NOT_FOUND;
use crate::reply::OK;
use crate::reply::Reply;
use crate::reply::ReplyView;
use crate::reply::plain;
use crate::reply::text_reply;
use crate::text::same_text;

verus! {

/// What came of reading a stored file.
#[derive(Debug)]
pub enum FileRead {
    /// It could not be opened.
    Missing,
    /// It was opened and could not be read to its end.
    Unreadable,
    /// Its bytes.
    Read(Vec<u8>),
}

/// The content type that goes with a file extension.
pub open spec fn mime_of(extension: Option<Seq<char>>) -> Seq<char> {
    match extension {
        Some(e) => if e == "jpg"@ || e == "jpeg"@ {
            "image/jpeg"@
        } else if e == "png"@ {
            "image/png"@
        } else if e == "gif"@ {
            "image/gif"@
        } else if e == "webp"@ {
            "image/webp"@
        } else {
            "application/octet-stream"@
        },
        None => "application/octet-stream"@,
    }
}

/// What an optional text holds.
pub open spec fn text_view(text: Option<&str>) -> Option<Seq<char>> {
    match text {
        Some(t) => Some(t@),
        None => None,
    }
}

/// The reply to each outcome of reading a profile picture.
pub open spec fn picture_reply(read: FileRead, extension: Option<Seq<char>>) -> ReplyView {
    match read {
        FileRead::Missing => plain(NOT_FOUND, "Image not found"@),
        FileRead::Unreadable => plain(INTERNAL_SERVER_ERROR, "Failed to read image file"@),
        FileRead::Read(bytes) => ReplyView {
            status: OK,
            content_type: Some(mime_of(extension)),
            body: BodyView::Binary(bytes@),
        },
    }
}

/// The content type that goes with a file extension. Only these lower-case
/// extensions name an image; anything else is served as plain bytes.
pub fn mime_type(extension: Option<&str>) -> (mime: &'static str)
    ensures
        mime@ == mime_of(text_view(extension)),
{
    match extension {
        Some(e) => {
            if same_text(e, "jpg") || same_text(e, "jpeg") {
                "image/jpeg"
            } else if same_text(e, "png") {
                "image/png"
            } else if same_text(e, "gif") {
                "image/gif"
            } else if same_text(e, "webp") {
                "image/webp"
            } else {
                "application/octet-stream"
            }
        },
        None => "application/octet-stream",
    }
}

/// The reply to a request for a profile picture, once the stored file was
/// read; `extension` is the extension of its path.
pub fn get_user_pfp(read: FileRead, extension: Option<&str>) -> (reply: Reply)
    ensures
        reply@ == picture_reply(read, text_view(extension)),
{
    match read {
        FileRead::Missing => text_reply(NOT_FOUND, "Image not found".to_owned()),
        FileRead::Unreadable => text_reply(
            INTERNAL_SERVER_ERROR,
            "Failed to read image file".to_owned(),
        ),
        FileRead::Read(bytes) => Reply {
            status: OK,
            content_type: Some(mime_type(extension).to_owned()),
            body: Body::Binary(bytes),
        },
    }
}

} // verus!
