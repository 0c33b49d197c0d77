use vstd::prelude::*;
use crate::util::push_char;

verus! {

/// The kind of channel an option points at, as far as the settings commands care.
#[derive(Clone, Copy, Debug, PartialEq, Eq, Structural)]
pub enum ChannelKind {
    Text,
    Voice,
    Other,
}

/// A change to the stored settings that a command asks for.
pub enum StoreChange {
    SetDefaultName { guild_id: u64, channel_id: u64, name: String },
    RemoveDefaultName { guild_id: u64, channel_id: u64 },
    SetStreamingChannel { guild_id: u64, streaming_channel: Option<u64> },
}

/// What a settings command does: at most one change to the store, and the
/// ephemeral message that answers the user.
pub struct CommandOutcome {
    pub change: Option<StoreChange>,
    pub message: String,
}

pub open spec fn digit_char(d: nat) -> char {
    ((48 + d) as u8) as char
}

/// The decimal digits of a number, most significant first.
pub open spec fn decimal_digits(n: nat) -> Seq<char>
    decreases n,
{
    if n < 10 {
        seq![digit_char(n)]
    } else {
        decimal_digits(n / 10).push(digit_char(n % 10))
    }
}

/// Writes a number in decimal.
pub fn decimal_text(n: u64) -> (r: String)
    ensures
        r@ == decimal_digits(n as nat),
    decreases n,
{
    if n < 10 {
        let mut s = String::new();
        push_char(&mut s, ((48 + n) as u8) as char);
        assert(s@ =~= seq![digit_char(n as nat)]);
        s
    } else {
        let mut s = decimal_text(n / 10);
        push_char(&mut s, ((48 + n % 10) as u8) as char);
        s
    }
}

/// How a channel is mentioned in a message.
pub open spec fn mention(channel_id: u64) -> Seq<char> {
    "<#"@ + decimal_digits(channel_id as nat) + ">"@
}

fn mention_text(channel_id: u64) -> (r: String)
    ensures
        r@ == mention(channel_id),
{
    let mut s = String::from_str("<#");
    let digits = decimal_text(channel_id);
    s.append(digits.as_str());
    s.append(">");
    s
}

pub open spec fn not_in_guild_text() -> Seq<char> {
    "You must use this command in a server."@
}

/// The outcome of setting or removing the default name of a voice channel.
pub open spec fn default_voice_message(channel_id: u64, name: Option<Seq<char>>) -> Seq<char> {
    match name {
        Some(n) => "Successfully set default name to `"@ + n + "` for "@ + mention(channel_id) + "."@,
        None => "Successfully removed default name for "@ + mention(channel_id) + "."@,
    }
}

/// Decides what `config default-voice` does: outside a guild, or for a channel
/// that is not a voice channel, nothing is stored; otherwise the default name
/// is set when one is given and removed when not.
pub fn default_voice_outcome(
    guild_id: Option<u64>,
    channel_id: u64,
    channel_kind: ChannelKind,
    name: Option<String>,
) -> (r: CommandOutcome)
    ensures
        guild_id is None ==> r.change is None && r.message@ == not_in_guild_text(),
        guild_id is Some && channel_kind != ChannelKind::Voice ==> r.change is None
            && r.message@ == "You must enter a voice channel."@,
        guild_id is Some && channel_kind == ChannelKind::Voice ==> {
            &&& r.message@ == default_voice_message(
                channel_id,
                match name {
                    Some(n) => Some(n@),
                    None => None,
                },
            )
            &&& match name {
                Some(n) => r.change matches Some(StoreChange::SetDefaultName { guild_id: cg, channel_id: cc, name: cn })
                    && cg == guild_id->0 && cc == channel_id && cn@ == n@,
                None => r.change == Some(StoreChange::RemoveDefaultName { guild_id: guild_id->0, channel_id }),
            }
        },
{
    match guild_id {
        None => CommandOutcome { change: None, message: String::from_str("You must use this command in a server.") },
        Some(g) => {
            if channel_kind != ChannelKind::Voice {
                return CommandOutcome { change: None, message: String::from_str("You must enter a voice channel.") };
            }
            let place = mention_text(channel_id);
            match name {
                Some(n) => {
                    let mut message = String::from_str("Successfully set default name to `");
                    message.append(n.as_str());
                    message.append("` for ");
                    message.append(place.as_str());
                    message.append(".");
                    CommandOutcome {
                        change: Some(StoreChange::SetDefaultName { guild_id: g, channel_id, name: n }),
                        message,
                    }
                },
                None => {
                    let mut message = String::from_str("Successfully removed default name for ");
                    message.append(place.as_str());
                    message.append(".");
                    CommandOutcome {
                        change: Some(StoreChange::RemoveDefaultName { guild_id: g, channel_id }),
                        message,
                    }
                },
            }
        },
    }
}

/// Decides what `config stream-embeds-channel` does: outside a guild nothing
/// is stored; a text channel becomes the guild's stream channel, another kind
/// of channel is refused, and no channel turns stream embeds off.
pub fn stream_channel_outcome(guild_id: Option<u64>, channel: Option<(u64, ChannelKind)>) -> (r: CommandOutcome)
    ensures
        guild_id is None ==> r.change is None && r.message@ == not_in_guild_text(),
        guild_id is Some ==> match channel {
            Some((c, kind)) => if kind == ChannelKind::Text {
                &&& r.change == Some(StoreChange::SetStreamingChannel { guild_id: guild_id->0, streaming_channel: Some(c) })
                &&& r.message@ == "Successfully set stream embeds to show up in "@ + mention(c) + "."@
            } else {
                r.change is None && r.message@ == "You must enter a text channel."@
            },
            None => {
                &&& r.change == Some(StoreChange::SetStreamingChannel { guild_id: guild_id->0, streaming_channel: None })
                &&& r.message@ == "Successfully removed stream embeds from this guild."@
            },
        },
{
    match guild_id {
        None => CommandOutcome { change: None, message: String::from_str("You must use this command in a server.") },
        Some(g) => match channel {
            Some((c, kind)) => {
                if kind == ChannelKind::Text {
                    let mut message = String::from_str("Successfully set stream embeds to show up in ");
                    let place = mention_text(c);
                    message.append(place.as_str());
                    message.append(".");
                    CommandOutcome {
                        change: Some(StoreChange::SetStreamingChannel { guild_id: g, streaming_channel: Some(c) }),
                        message,
                    }
                } else {
                    CommandOutcome { change: None, message: String::from_str("You must enter a text channel.") }
                }
            },
            None => CommandOutcome {
                change: Some(StoreChange::SetStreamingChannel { guild_id: g, streaming_channel: None }),
                message: String::from_str("Successfully removed stream embeds from this guild."),
            },
        },
    }
}

} // verus!
