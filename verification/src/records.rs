use vstd::prelude::*;
use crate::image_size::{decode_image_size, decoded_image_size};
use crate::time::{apple_to_unix, unix_from_apple, APPLE_EPOCH_OFFSET};

verus! {

/// A handle (address) that takes part in chats.
#[derive(Debug)]
pub struct Participant {
    pub original_rowid: u32,
    pub address: String,
    pub country: String,
    pub uncanonicalized_id: Option<u32>,
    pub service: String,
}

/// A file sent with a message.
#[derive(Debug)]
pub struct Attachment {
    pub original_rowid: u32,
    pub guid: String,
    pub uti: Option<String>,
    pub mime_type: Option<String>,
    pub transfer_name: String,
    pub total_bytes: u32,
    pub transfer_state: u32,
    pub is_outgoing: bool,
    pub hide_attachment: bool,
    pub is_sticker: bool,
    pub original_guid: String,
    pub has_live_photo: bool,
    pub height: Option<u32>,
    pub width: Option<u32>,
    pub metadata: Option<String>,
}

/// A message, with its dates in Unix milliseconds.
#[derive(Debug)]
pub struct Message {
    pub original_rowid: u32,
    pub guid: String,
    pub text: Option<String>,
    pub handle: Option<Participant>,
    pub handle_id: u32,
    pub subject: Option<String>,
    pub error: i32,
    pub chat_guid: String,
    pub attachments: Vec<Attachment>,
    pub group_action_type: u32,
    pub item_type: u32,
    pub other_handle: Option<u32>,
    pub date_created: u128,
    pub date_read: u128,
    pub date_delivered: u128,
    pub is_from_me: bool,
    pub has_dd_results: bool,
    pub group_title: Option<String>,
    pub associated_message_guid: Option<String>,
    pub associated_message_type: Option<String>,
    pub expressive_send_style_id: Option<String>,
    pub thread_originator_guid: Option<String>,
    pub thread_originator_part: Option<String>,
    pub country: Option<String>,
    pub is_delayed: bool,
    pub is_auto_reply: bool,
    pub is_system_message: bool,
    pub is_service_message: bool,
    pub is_forward: bool,
    pub is_corrupt: bool,
    pub date_played: u128,
    pub cache_roomnames: Option<String>,
    pub is_spam: bool,
    pub is_audio_message: bool,
    pub reply_to_guid: Option<String>,
    pub share_status: i32,
    pub share_direction: i32,
    pub was_delivered_quietly: bool,
    pub did_notify_recipient: bool,
}

/// A conversation.
#[derive(Debug)]
pub struct Chat {
    pub original_rowid: u32,
    pub guid: String,
    pub participants: Option<Vec<Participant>>,
    pub last_message: Option<Message>,
    pub style: u32,
    pub chat_identifier: String,
    pub is_archived: bool,
    pub is_filtered: bool,
    pub display_name: Option<String>,
    pub group_id: String,
    pub last_addressed_handle: String,
}

/// The columns of a row of the `message` table, as stored (dates in
/// nanoseconds since the Apple epoch).
#[derive(Debug)]
pub struct MessageRow {
    pub text: Option<String>,
    pub date: usize,
    pub group_action_type: u32,
    pub item_type: u32,
    pub other_handle: Option<u32>,
    pub is_from_me: bool,
    pub associated_message_guid: Option<String>,
    pub associated_message_type: Option<String>,
    pub cache_roomnames: Option<String>,
    pub country: Option<String>,
    pub date_delivered: usize,
    pub date_played: usize,
    pub date_read: usize,
    pub did_notify_recipient: bool,
    pub error: i32,
    pub expressive_send_style_id: Option<String>,
    pub group_title: Option<String>,
    pub handle_id: u32,
    pub subject: Option<String>,
    pub has_dd_results: bool,
    pub is_audio_message: bool,
    pub is_auto_reply: bool,
    pub is_corrupt: bool,
    pub is_delayed: bool,
    pub is_forward: bool,
    pub is_service_message: bool,
    pub is_spam: bool,
    pub is_system_message: bool,
    pub reply_to_guid: Option<String>,
    pub share_direction: i32,
    pub share_status: i32,
    pub thread_originator_guid: Option<String>,
    pub thread_originator_part: Option<String>,
    pub was_delivered_quietly: bool,
}

/// The columns of a row of the `attachment` table.
#[derive(Debug)]
pub struct AttachmentRow {
    pub original_rowid: u32,
    pub filename: Option<String>,
    pub uti: Option<String>,
    pub mime_type: Option<String>,
    pub transfer_state: u32,
    pub transfer_name: String,
    pub total_bytes: u32,
    pub is_outgoing: i32,
    pub hide_attachment: i32,
    pub is_sticker: i32,
    pub original_guid: String,
}

/// The columns of a row of the `chat` table.
#[derive(Debug)]
pub struct ChatRow {
    pub original_rowid: u32,
    pub guid: String,
    pub style: u32,
    pub chat_identifier: String,
    pub is_archived: bool,
    pub is_filtered: bool,
    pub display_name: Option<String>,
    pub group_id: String,
    pub last_addressed_handle: String,
}

/// A stored date (nanoseconds since the Apple epoch) as Unix milliseconds.
pub open spec fn unix_millis_from_apple_nanos(apple: int) -> int {
    unix_from_apple(apple) / 1000000
}

/// Converts a stored date (nanoseconds since the Apple epoch) to Unix
/// milliseconds.
pub fn unix_millis(apple_nanos: usize) -> (millis: u128)
    ensures
        millis == unix_millis_from_apple_nanos(apple_nanos as int),
{
    apple_to_unix(apple_nanos as u128) / 1000000
}

impl Message {
    /// Builds a message from its stored row and the records looked up for it:
    /// the sender's handle, the attachments, the guid of its chat, its own
    /// guid and row id. Stored dates become Unix milliseconds.
    pub fn from_row(
        row: MessageRow,
        handle: Option<Participant>,
        attachments: Vec<Attachment>,
        chat_guid: String,
        guid: String,
        original_rowid: u32,
    ) -> (m: Message)
        ensures
            m.original_rowid == original_rowid,
            m.guid == guid,
            m.handle == handle,
            m.attachments == attachments,
            m.chat_guid == chat_guid,
            m.text == row.text,
            m.date_created == unix_millis_from_apple_nanos(row.date as int),
            m.date_delivered == unix_millis_from_apple_nanos(row.date_delivered as int),
            m.date_played == unix_millis_from_apple_nanos(row.date_played as int),
            m.date_read == unix_millis_from_apple_nanos(row.date_read as int),
            m.group_action_type == row.group_action_type,
            m.item_type == row.item_type,
            m.other_handle == row.other_handle,
            m.is_from_me == row.is_from_me,
            m.associated_message_guid == row.associated_message_guid,
            m.associated_message_type == row.associated_message_type,
            m.cache_roomnames == row.cache_roomnames,
            m.country == row.country,
            m.did_notify_recipient == row.did_notify_recipient,
            m.error == row.error,
            m.expressive_send_style_id == row.expressive_send_style_id,
            m.group_title == row.group_title,
            m.handle_id == row.handle_id,
            m.subject == row.subject,
            m.has_dd_results == row.has_dd_results,
            m.is_audio_message == row.is_audio_message,
            m.is_auto_reply == row.is_auto_reply,
            m.is_corrupt == row.is_corrupt,
            m.is_delayed == row.is_delayed,
            m.is_forward == row.is_forward,
            m.is_service_message == row.is_service_message,
            m.is_spam == row.is_spam,
            m.is_system_message == row.is_system_message,
            m.reply_to_guid == row.reply_to_guid,
            m.share_direction == row.share_direction,
            m.share_status == row.share_status,
            m.thread_originator_guid == row.thread_originator_guid,
            m.thread_originator_part == row.thread_originator_part,
            m.was_delivered_quietly == row.was_delivered_quietly,
    {
        let date_created = unix_millis(row.date);
        let date_delivered = unix_millis(row.date_delivered);
        let date_played = unix_millis(row.date_played);
        let date_read = unix_millis(row.date_read);
        Message {
            original_rowid,
            guid,
            text: row.text,
            date_created,
            handle,
            chat_guid,
            attachments,
            group_action_type: row.group_action_type,
            item_type: row.item_type,
            other_handle: row.other_handle,
            is_from_me: row.is_from_me,
            associated_message_guid: row.associated_message_guid,
            associated_message_type: row.associated_message_type,
            cache_roomnames: row.cache_roomnames,
            country: row.country,
            date_delivered,
            date_played,
            date_read,
            did_notify_recipient: row.did_notify_recipient,
            error: row.error,
            expressive_send_style_id: row.expressive_send_style_id,
            group_title: row.group_title,
            handle_id: row.handle_id,
            subject: row.subject,
            has_dd_results: row.has_dd_results,
            is_audio_message: row.is_audio_message,
            is_auto_reply: row.is_auto_reply,
            is_corrupt: row.is_corrupt,
            is_delayed: row.is_delayed,
            is_forward: row.is_forward,
            is_service_message: row.is_service_message,
            is_spam: row.is_spam,
            is_system_message: row.is_system_message,
            reply_to_guid: row.reply_to_guid,
            share_direction: row.share_direction,
            share_status: row.share_status,
            thread_originator_guid: row.thread_originator_guid,
            thread_originator_part: row.thread_originator_part,
            was_delivered_quietly: row.was_delivered_quietly,
        }
    }
}

/// The width and height that an attachment reports for an image `size`.
pub open spec fn reported_width(size: Option<(u32, u32)>) -> Option<u32> {
    match size {
        Some(s) => Some(s.0),
        None => None,
    }
}

/// See [`reported_width`].
pub open spec fn reported_height(size: Option<(u32, u32)>) -> Option<u32> {
    match size {
        Some(s) => Some(s.1),
        None => None,
    }
}

/// The image size of an attachment whose file, if it could be read, holds
/// `contents`: the decoded size when there is a file name and contents, else none.
pub open spec fn attachment_image_size(
    filename: Option<String>,
    contents: Option<Vec<u8>>,
) -> Option<(u32, u32)> {
    match (filename, contents) {
        (Some(name), Some(bytes)) => decoded_image_size(name@, bytes@),
        _ => None,
    }
}

impl Attachment {
    /// Builds an attachment from its stored row, its guid and the image size
    /// found for its file (`None` where no image could be decoded). The stored
    /// integer flags are true exactly when they equal 1; the metadata is the
    /// empty JSON object and no live photo is reported.
    pub fn from_parts(row: AttachmentRow, guid: String, size: Option<(u32, u32)>) -> (a: Attachment)
        ensures
            a.original_rowid == row.original_rowid,
            a.guid == guid,
            a.uti == row.uti,
            a.mime_type == row.mime_type,
            a.transfer_state == row.transfer_state,
            a.transfer_name == row.transfer_name,
            a.total_bytes == row.total_bytes,
            a.is_outgoing == (row.is_outgoing == 1),
            a.hide_attachment == (row.hide_attachment == 1),
            a.is_sticker == (row.is_sticker == 1),
            a.original_guid == row.original_guid,
            a.metadata matches Some(m) && m@ == "{}"@,
            !a.has_live_photo,
            a.width == reported_width(size),
            a.height == reported_height(size),
    {
        let (width, height) = match size {
            Some((w, h)) => (Some(w), Some(h)),
            None => (None, None),
        };
        Attachment {
            original_rowid: row.original_rowid,
            guid,
            uti: row.uti,
            mime_type: row.mime_type,
            transfer_state: row.transfer_state,
            transfer_name: row.transfer_name,
            total_bytes: row.total_bytes,
            is_outgoing: row.is_outgoing == 1,
            hide_attachment: row.hide_attachment == 1,
            is_sticker: row.is_sticker == 1,
            original_guid: row.original_guid,
            metadata: Some(String::from_str("{}")),
            has_live_photo: false,
            width,
            height,
        }
    }

    /// Builds an attachment from its stored row, its guid and the contents of
    /// the file that the row names (`None` where there is no such file or it
    /// could not be read). The image size is decoded from the contents, in the
    /// format that the file name's extension names.
    pub fn from_row(row: AttachmentRow, guid: String, contents: Option<Vec<u8>>) -> (a: Attachment)
        ensures
            a.original_rowid == row.original_rowid,
            a.guid == guid,
            a.uti == row.uti,
            a.mime_type == row.mime_type,
            a.transfer_state == row.transfer_state,
            a.transfer_name == row.transfer_name,
            a.total_bytes == row.total_bytes,
            a.is_outgoing == (row.is_outgoing == 1),
            a.hide_attachment == (row.hide_attachment == 1),
            a.is_sticker == (row.is_sticker == 1),
            a.original_guid == row.original_guid,
            a.metadata matches Some(m) && m@ == "{}"@,
            !a.has_live_photo,
            a.width == reported_width(attachment_image_size(row.filename, contents)),
            a.height == reported_height(attachment_image_size(row.filename, contents)),
    {
        let size = match (&row.filename, &contents) {
            (Some(name), Some(bytes)) => decode_image_size(name.as_str(), bytes.as_slice()),
            _ => None,
        };
        Attachment::from_parts(row, guid, size)
    }
}

impl Chat {
    /// Builds a chat from its stored row and, where they were asked for, its
    /// participants and its last message.
    pub fn from_row(
        row: ChatRow,
        participants: Option<Vec<Participant>>,
        last_message: Option<Message>,
    ) -> (c: Chat)
        ensures
            c.original_rowid == row.original_rowid,
            c.guid == row.guid,
            c.participants == participants,
            c.last_message == last_message,
            c.style == row.style,
            c.chat_identifier == row.chat_identifier,
            c.is_archived == row.is_archived,
            c.is_filtered == row.is_filtered,
            c.display_name == row.display_name,
            c.group_id == row.group_id,
            c.last_addressed_handle == row.last_addressed_handle,
    {
        Chat {
            original_rowid: row.original_rowid,
            guid: row.guid,
            participants,
            last_message,
            style: row.style,
            chat_identifier: row.chat_identifier,
            is_archived: row.is_archived,
            is_filtered: row.is_filtered,
            display_name: row.display_name,
            group_id: row.group_id,
            last_addressed_handle: row.last_addressed_handle,
        }
    }
}

/// A stored date becomes the whole number of Unix milliseconds that its Unix
/// nanoseconds fall in.
pub proof fn lemma_unix_millis_floor(apple_nanos: nat)
    ensures
        unix_millis_from_apple_nanos(apple_nanos as int) * 1000000 <= apple_nanos
            + APPLE_EPOCH_OFFSET,
        apple_nanos + APPLE_EPOCH_OFFSET < (unix_millis_from_apple_nanos(apple_nanos as int) + 1)
            * 1000000,
{
}

/// An attachment reports the decoded width and height, in that order, and
/// neither when there is no image.
pub proof fn lemma_reported_size(width: u32, height: u32)
    ensures
        reported_width(Some((width, height))) == Some(width),
        reported_height(Some((width, height))) == Some(height),
        reported_width(None) is None,
        reported_height(None) is None,
{
}

} // verus!
