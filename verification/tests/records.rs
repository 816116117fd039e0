use messages_server::records::{
    unix_millis, Attachment, AttachmentRow, Chat, ChatRow, Message, MessageRow, Participant,
};

const PNG_3X2: [u8; 73] = [
    0x89, 0x50, 0x4e, 0x47, 0x0d, 0x0a, 0x1a, 0x0a, 0x00, 0x00, 0x00, 0x0d, 0x49, 0x48, 0x44, 0x52,
    0x00, 0x00, 0x00, 0x03, 0x00, 0x00, 0x00, 0x02, 0x08, 0x02, 0x00, 0x00, 0x00, 0x12, 0x16, 0xf1,
    0x4d, 0x00, 0x00, 0x00, 0x10, 0x49, 0x44, 0x41, 0x54, 0x78, 0x9c, 0x63, 0xf8, 0xcf, 0xc0, 0x00,
    0x41, 0x0c, 0x70, 0x16, 0x00, 0x41, 0xd2, 0x05, 0xfb, 0x87, 0xf0, 0xb9, 0x48, 0x00, 0x00, 0x00,
    0x00, 0x49, 0x45, 0x4e, 0x44, 0xae, 0x42, 0x60, 0x82,
];

fn attachment_row(filename: Option<&str>) -> AttachmentRow {
    AttachmentRow {
        original_rowid: 17,
        filename: filename.map(|f| f.to_string()),
        uti: Some("public.png".to_string()),
        mime_type: None,
        transfer_state: 5,
        transfer_name: "pic.png".to_string(),
        total_bytes: 69,
        is_outgoing: 1,
        hide_attachment: 0,
        is_sticker: 2,
        original_guid: "orig".to_string(),
    }
}

fn message_row() -> MessageRow {
    MessageRow {
        text: Some("hello".to_string()),
        date: 0,
        group_action_type: 1,
        item_type: 2,
        other_handle: Some(3),
        is_from_me: true,
        associated_message_guid: Some("assoc".to_string()),
        associated_message_type: None,
        cache_roomnames: Some("room".to_string()),
        country: Some("us".to_string()),
        date_delivered: 1_000_000,
        date_played: 1_999_999,
        date_read: 721_692_800_000_000_000,
        did_notify_recipient: true,
        error: -4,
        expressive_send_style_id: None,
        group_title: Some("title".to_string()),
        handle_id: 9,
        subject: None,
        has_dd_results: true,
        is_audio_message: false,
        is_auto_reply: true,
        is_corrupt: false,
        is_delayed: true,
        is_forward: false,
        is_service_message: true,
        is_spam: false,
        is_system_message: true,
        reply_to_guid: Some("reply".to_string()),
        share_direction: 6,
        share_status: 7,
        thread_originator_guid: Some("thread".to_string()),
        thread_originator_part: Some("0:0:5".to_string()),
        was_delivered_quietly: true,
    }
}

#[test]
fn unix_millis_converts_stored_dates() {
    assert_eq!(unix_millis(0), 978_307_200_000);
    assert_eq!(unix_millis(999_999), 978_307_200_000);
    assert_eq!(unix_millis(1_000_000), 978_307_200_001);
    assert_eq!(unix_millis(721_692_800_000_000_000), 1_700_000_000_000);
}

#[test]
fn message_from_row_converts_dates_and_keeps_fields() {
    let handle = Participant {
        original_rowid: 9,
        address: "+15550100".to_string(),
        country: "us".to_string(),
        uncanonicalized_id: None,
        service: "iMessage".to_string(),
    };
    let m = Message::from_row(message_row(), Some(handle), Vec::new(), "chat-guid".to_string(), "msg-guid".to_string(), 44);
    assert_eq!(m.original_rowid, 44);
    assert_eq!(m.guid, "msg-guid");
    assert_eq!(m.chat_guid, "chat-guid");
    assert_eq!(m.handle.as_ref().map(|h| h.address.clone()), Some("+15550100".to_string()));
    assert!(m.attachments.is_empty());
    assert_eq!(m.text.as_deref(), Some("hello"));
    assert_eq!(m.date_created, 978_307_200_000);
    assert_eq!(m.date_delivered, 978_307_200_001);
    assert_eq!(m.date_played, 978_307_200_001);
    assert_eq!(m.date_read, 1_700_000_000_000);
    assert_eq!(m.group_action_type, 1);
    assert_eq!(m.item_type, 2);
    assert_eq!(m.other_handle, Some(3));
    assert!(m.is_from_me);
    assert_eq!(m.associated_message_guid.as_deref(), Some("assoc"));
    assert_eq!(m.associated_message_type, None);
    assert_eq!(m.cache_roomnames.as_deref(), Some("room"));
    assert_eq!(m.country.as_deref(), Some("us"));
    assert!(m.did_notify_recipient);
    assert_eq!(m.error, -4);
    assert_eq!(m.group_title.as_deref(), Some("title"));
    assert_eq!(m.handle_id, 9);
    assert_eq!(m.subject, None);
    assert!(m.has_dd_results && !m.is_audio_message && m.is_auto_reply && !m.is_corrupt);
    assert!(m.is_delayed && !m.is_forward && m.is_service_message && !m.is_spam && m.is_system_message);
    assert_eq!(m.reply_to_guid.as_deref(), Some("reply"));
    assert_eq!((m.share_direction, m.share_status), (6, 7));
    assert_eq!(m.thread_originator_guid.as_deref(), Some("thread"));
    assert_eq!(m.thread_originator_part.as_deref(), Some("0:0:5"));
    assert!(m.was_delivered_quietly);
}

#[test]
fn attachment_from_parts_reads_flags_and_size() {
    let a = Attachment::from_parts(attachment_row(None), "att-guid".to_string(), Some((640, 480)));
    assert_eq!(a.original_rowid, 17);
    assert_eq!(a.guid, "att-guid");
    assert_eq!(a.uti.as_deref(), Some("public.png"));
    assert_eq!(a.mime_type, None);
    assert_eq!((a.transfer_state, a.total_bytes), (5, 69));
    assert_eq!(a.transfer_name, "pic.png");
    assert!(a.is_outgoing);
    assert!(!a.hide_attachment);
    assert!(!a.is_sticker);
    assert_eq!(a.original_guid, "orig");
    assert_eq!(a.metadata.as_deref(), Some("{}"));
    assert!(!a.has_live_photo);
    assert_eq!((a.width, a.height), (Some(640), Some(480)));
    let b = Attachment::from_parts(attachment_row(None), "g".to_string(), None);
    assert_eq!((b.width, b.height), (None, None));
}

#[test]
fn attachment_from_row_decodes_the_image_size() {
    let a = Attachment::from_row(attachment_row(Some("/tmp/pic.png")), "g".to_string(), Some(PNG_3X2.to_vec()));
    assert_eq!((a.width, a.height), (Some(3), Some(2)));
    let upper = Attachment::from_row(attachment_row(Some("/tmp/PIC.PNG")), "g".to_string(), Some(PNG_3X2.to_vec()));
    assert_eq!((upper.width, upper.height), (Some(3), Some(2)));
}

#[test]
fn attachment_from_row_without_an_image() {
    let no_file = Attachment::from_row(attachment_row(None), "g".to_string(), Some(PNG_3X2.to_vec()));
    assert_eq!((no_file.width, no_file.height), (None, None));
    let unread = Attachment::from_row(attachment_row(Some("/tmp/pic.png")), "g".to_string(), None);
    assert_eq!((unread.width, unread.height), (None, None));
    let unknown_ext = Attachment::from_row(attachment_row(Some("/tmp/pic.heic")), "g".to_string(), Some(PNG_3X2.to_vec()));
    assert_eq!((unknown_ext.width, unknown_ext.height), (None, None));
    let wrong_format = Attachment::from_row(attachment_row(Some("/tmp/pic.gif")), "g".to_string(), Some(PNG_3X2.to_vec()));
    assert_eq!((wrong_format.width, wrong_format.height), (None, None));
    let garbage = Attachment::from_row(attachment_row(Some("/tmp/pic.png")), "g".to_string(), Some(vec![1, 2, 3]));
    assert_eq!((garbage.width, garbage.height), (None, None));
}

#[test]
fn chat_from_row_keeps_fields() {
    let row = ChatRow {
        original_rowid: 3,
        guid: "iMessage;-;+15550100".to_string(),
        style: 45,
        chat_identifier: "+15550100".to_string(),
        is_archived: false,
        is_filtered: true,
        display_name: None,
        group_id: "group".to_string(),
        last_addressed_handle: "me".to_string(),
    };
    let c = Chat::from_row(row, Some(Vec::new()), None);
    assert_eq!(c.original_rowid, 3);
    assert_eq!(c.guid, "iMessage;-;+15550100");
    assert_eq!(c.participants.as_ref().map(|p| p.len()), Some(0));
    assert!(c.last_message.is_none());
    assert_eq!(c.style, 45);
    assert_eq!(c.chat_identifier, "+15550100");
    assert!(!c.is_archived && c.is_filtered);
    assert_eq!(c.display_name, None);
    assert_eq!(c.group_id, "group");
    assert_eq!(c.last_addressed_handle, "me");
}
