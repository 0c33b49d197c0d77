use slash_router::settings::{
    decimal_text, default_voice_outcome, stream_channel_outcome, ChannelKind, StoreChange,
};

#[test]
fn decimal_text_writes_digits() {
    assert_eq!(decimal_text(0), "0");
    assert_eq!(decimal_text(7), "7");
    assert_eq!(decimal_text(1234567890), "1234567890");
    assert_eq!(decimal_text(u64::MAX), "18446744073709551615");
}

#[test]
fn default_voice_sets_and_removes_names() {
    let set = default_voice_outcome(Some(5), 42, ChannelKind::Voice, Some(String::from("Lobby")));
    assert_eq!(set.message, "Successfully set default name to `Lobby` for <#42>.");
    match set.change {
        Some(StoreChange::SetDefaultName { guild_id, channel_id, name }) => {
            assert_eq!((guild_id, channel_id, name.as_str()), (5, 42, "Lobby"));
        }
        _ => panic!("expected a stored name"),
    }
    let removed = default_voice_outcome(Some(5), 42, ChannelKind::Voice, None);
    assert_eq!(removed.message, "Successfully removed default name for <#42>.");
    assert!(matches!(removed.change, Some(StoreChange::RemoveDefaultName { guild_id: 5, channel_id: 42 })));
}

#[test]
fn default_voice_refuses_wrong_places() {
    let outside = default_voice_outcome(None, 42, ChannelKind::Voice, None);
    assert_eq!(outside.message, "You must use this command in a server.");
    assert!(outside.change.is_none());
    let text = default_voice_outcome(Some(5), 42, ChannelKind::Text, Some(String::from("x")));
    assert_eq!(text.message, "You must enter a voice channel.");
    assert!(text.change.is_none());
}

#[test]
fn stream_channel_outcomes() {
    let set = stream_channel_outcome(Some(3), Some((99, ChannelKind::Text)));
    assert_eq!(set.message, "Successfully set stream embeds to show up in <#99>.");
    assert!(matches!(set.change, Some(StoreChange::SetStreamingChannel { guild_id: 3, streaming_channel: Some(99) })));
    let off = stream_channel_outcome(Some(3), None);
    assert_eq!(off.message, "Successfully removed stream embeds from this guild.");
    assert!(matches!(off.change, Some(StoreChange::SetStreamingChannel { guild_id: 3, streaming_channel: None })));
    let voice = stream_channel_outcome(Some(3), Some((99, ChannelKind::Voice)));
    assert_eq!(voice.message, "You must enter a text channel.");
    assert!(voice.change.is_none());
    assert!(stream_channel_outcome(None, None).change.is_none());
}
