//! What Telegram sends.

use crate::text as t;
use vstd::prelude::*;

verus! {

#[derive(Debug, PartialEq, Eq)]
pub struct TelegramUpdate {
    pub update_id: i64,
    pub message: Option<TelegramMessage>,
    pub channel_post: Option<TelegramMessage>,
    /// A tap on an inline-keyboard button.
    pub callback_query: Option<TelegramCallbackQuery>,
}

/// A tap on an inline-keyboard button: `data` is `action:value`, and `message`
/// is the message that the keyboard hangs on.
#[derive(Debug, PartialEq, Eq)]
pub struct TelegramCallbackQuery {
    pub id: String,
    pub data: Option<String>,
    pub message: Option<TelegramMessage>,
}

#[derive(Debug, PartialEq, Eq)]
pub struct TelegramMessage {
    pub message_id: i64,
    pub text: Option<String>,
    pub caption: Option<String>,
    pub document: Option<TelegramDocument>,
    /// Ascending sizes of one photo.
    pub photo: Option<Vec<TelegramPhotoSize>>,
    pub voice: Option<TelegramVoice>,
    pub audio: Option<TelegramAudio>,
    pub chat: TelegramChat,
}

#[derive(Debug, PartialEq, Eq)]
pub struct TelegramVoice {
    pub file_id: String,
}

#[derive(Debug, PartialEq, Eq)]
pub struct TelegramAudio {
    pub file_id: String,
    pub file_name: Option<String>,
}

/// A file upload.
#[derive(Debug, PartialEq, Eq)]
pub struct Document<S> {
    pub file_id: S,
    pub file_name: Option<S>,
    pub file_size: Option<i64>,
}

pub type TelegramDocument = Document<String>;

#[derive(Debug, PartialEq, Eq)]
pub struct TelegramPhotoSize {
    pub file_id: String,
}

#[derive(Debug, PartialEq, Eq)]
pub struct TelegramChat {
    pub id: i64,
}

impl View for Document<String> {
    type V = Document<Seq<char>>;

    open spec fn view(&self) -> Document<Seq<char>> {
        Document { file_id: self.file_id@, file_name: t::opt_view(self.file_name), file_size: self.file_size }
    }
}

impl Document<String> {
    pub fn copy(&self) -> (r: TelegramDocument)
        ensures
            r@ == self@,
    {
        Document {
            file_id: self.file_id.clone(),
            file_name: self.file_name.clone(),
            file_size: self.file_size,
        }
    }
}

} // verus!
