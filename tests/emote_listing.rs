use slash_router::emotes::{
    filter_source, list_emote_names, matching_emote_names, Emote, EmoteCache, ListError,
};

fn emote(id: u64, name: &str) -> Emote {
    Emote { id, name: String::from(name), animated: false }
}

fn cache() -> EmoteCache {
    let mut c = EmoteCache::new();
    c.replace_guild(1, vec![emote(10, "wave"), emote(11, "Pog")]);
    c.replace_guild(2, vec![emote(20, "catJam"), emote(21, "PogChamp")]);
    c
}

#[test]
fn listing_without_filter_sorts_every_name() {
    let names = list_emote_names(&cache(), None, false).unwrap();
    assert_eq!(names, vec!["Pog", "PogChamp", "catJam", "wave"]);
    assert_eq!(matching_emote_names(&cache(), None).len(), 4);
}

#[test]
fn filter_is_case_insensitive_by_default() {
    let names = list_emote_names(&cache(), Some(String::from("^pog")), false).unwrap();
    assert_eq!(names, vec!["Pog", "PogChamp"]);
    let strict = list_emote_names(&cache(), Some(String::from("^pog")), true).unwrap();
    assert!(strict.is_empty());
    let jam = list_emote_names(&cache(), Some(String::from("Jam$")), true).unwrap();
    assert_eq!(jam, vec!["catJam"]);
}

#[test]
fn invalid_filter_is_refused() {
    assert_eq!(list_emote_names(&cache(), Some(String::from("foo(bar")), true), Err(ListError::InvalidPattern));
}

#[test]
fn filter_source_prefixes_case_flag() {
    assert_eq!(filter_source(&String::from("ab"), false), "(?i)ab");
    assert_eq!(filter_source(&String::from("ab"), true), "ab");
}

#[test]
fn replacing_a_guild_drops_its_old_emotes() {
    let mut c = cache();
    c.replace_guild(1, vec![emote(12, "zzz")]);
    assert_eq!(c.entries.len(), 2);
    let names = list_emote_names(&c, None, false).unwrap();
    assert_eq!(names, vec!["PogChamp", "catJam", "zzz"]);
}
