use media_mirror::backfill::SourceMessage;
use media_mirror::live::{live_step, LiveAction, Update};
use media_mirror::media::{MediaDescriptor, MediaKind};

fn posted(channel: Option<&str>, mime: &str, outgoing: bool) -> Update {
    Update::NewMessage(SourceMessage {
        id: 5,
        outgoing,
        channel: channel.map(String::from),
        media: Some(MediaDescriptor {
            kind: MediaKind::Document,
            mime_type: Some(String::from(mime)),
            size: Some(100),
            name: None,
            reference: 5,
        }),
    })
}

#[test]
fn eligible_media_from_the_source_is_transferred() {
    assert_eq!(live_step("source", &posted(Some("source"), "image/png", false)), LiveAction::Transfer);
}

#[test]
fn own_messages_are_ignored() {
    assert_eq!(live_step("source", &posted(Some("source"), "image/png", true)), LiveAction::Ignore);
}

#[test]
fn other_channels_are_ignored() {
    assert_eq!(live_step("source", &posted(Some("sources"), "image/png", false)), LiveAction::Ignore);
    assert_eq!(live_step("source", &posted(Some("other"), "image/png", false)), LiveAction::Ignore);
    assert_eq!(live_step("source", &posted(None, "image/png", false)), LiveAction::Ignore);
}

#[test]
fn ineligible_media_is_ignored() {
    assert_eq!(live_step("source", &posted(Some("source"), "video/mp4", false)), LiveAction::Ignore);
}

#[test]
fn messages_without_media_are_ignored() {
    let update = Update::NewMessage(SourceMessage {
        id: 6,
        outgoing: false,
        channel: Some(String::from("source")),
        media: None,
    });
    assert_eq!(live_step("source", &update), LiveAction::Ignore);
}

#[test]
fn other_updates_are_ignored() {
    assert_eq!(live_step("source", &Update::Other), LiveAction::Ignore);
}
