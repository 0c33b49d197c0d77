use vstd::prelude::*;
use crate::pattern::{regex_compiles, regex_matches, EmotePattern};

verus! {

/// A custom emote that the bot can use.
pub struct Emote {
    pub id: u64,
    pub name: String,
    pub animated: bool,
}

/// The emotes of one guild.
pub struct GuildEmotes {
    pub guild_id: u64,
    pub emotes: Vec<Emote>,
}

/// The emotes of every guild the bot serves, one entry per guild.
pub struct EmoteCache {
    pub entries: Vec<GuildEmotes>,
}

pub open spec fn guild_ids(entries: Seq<GuildEmotes>) -> Seq<u64> {
    entries.map_values(|e: GuildEmotes| e.guild_id)
}

/// The emotes cached for each guild.
pub open spec fn cache_map(entries: Seq<GuildEmotes>) -> Map<u64, Seq<Emote>> {
    Map::new(
        |g: u64| exists|i: int| 0 <= i < entries.len() && entries[i].guild_id == g,
        |g: u64|
            entries[choose|i: int| 0 <= i < entries.len() && entries[i].guild_id == g].emotes@,
    )
}

/// The names of all cached emotes, guild by guild.
pub open spec fn cached_names(entries: Seq<GuildEmotes>) -> Seq<Seq<char>>
    decreases entries.len(),
{
    if entries.len() == 0 {
        Seq::empty()
    } else {
        cached_names(entries.drop_last()) + entries.last().emotes@.map_values(|e: Emote| e.name@)
    }
}

impl EmoteCache {
    /// Each guild has at most one entry.
    pub open spec fn well_formed(&self) -> bool {
        forall|i: int, j: int|
            0 <= i < j < self.entries@.len() ==> self.entries@[i].guild_id
                != self.entries@[j].guild_id
    }

    pub open spec fn view(&self) -> Map<u64, Seq<Emote>> {
        cache_map(self.entries@)
    }

    /// An empty cache.
    pub fn new() -> (r: EmoteCache)
        ensures
            r.well_formed(),
            r@ == Map::<u64, Seq<Emote>>::empty(),
    {
        let r = EmoteCache { entries: Vec::new() };
        assert(r@ =~= Map::<u64, Seq<Emote>>::empty());
        r
    }

    /// Replaces what is cached for one guild with its current emotes.
    pub fn replace_guild(&mut self, guild_id: u64, emotes: Vec<Emote>)
        requires
            old(self).well_formed(),
        ensures
            final(self).well_formed(),
            final(self)@ == old(self)@.insert(guild_id, emotes@),
    {
        let ghost before = self.entries@;
        let ghost new_emotes = emotes@;
        let mut i: usize = 0;
        while i < self.entries.len()
            invariant
                self.entries@ == before,
                emotes@ == new_emotes,
                old(self)@ == cache_map(before),
                forall|a: int, b: int|
                    0 <= a < b < before.len() ==> before[a].guild_id != before[b].guild_id,
                i <= before.len(),
                forall|k: int| 0 <= k < i ==> before[k].guild_id != guild_id,
            decreases self.entries.len() - i,
        {
            if self.entries[i].guild_id == guild_id {
                self.entries.set(i, GuildEmotes { guild_id, emotes });
                proof {
                    let after = self.entries@;
                    assert forall|a: int, b: int| 0 <= a < b < after.len() implies after[a].guild_id
                        != after[b].guild_id by {
                        assert(before[a].guild_id != before[b].guild_id);
                    }
                    assert forall|g: u64| #[trigger] cache_map(after).dom().contains(g)
                        == old(self)@.insert(guild_id, new_emotes).dom().contains(g) by {
                        if cache_map(before).dom().contains(g) {
                            let k = choose|k: int| 0 <= k < before.len() && before[k].guild_id == g;
                            assert(after[k].guild_id == g);
                        }
                        if cache_map(after).dom().contains(g) && g != guild_id {
                            let k = choose|k: int| 0 <= k < after.len() && after[k].guild_id == g;
                            assert(before[k].guild_id == g);
                        }
                        assert(after[i as int].guild_id == guild_id);
                    }
                    assert forall|g: u64| #[trigger] cache_map(after).dom().contains(g) implies cache_map(after)[g]
                        == old(self)@.insert(guild_id, new_emotes)[g] by {
                        let k = choose|k: int| 0 <= k < after.len() && after[k].guild_id == g;
                        if g == guild_id {
                            assert(after[i as int].guild_id == g);
                            assert(k == i) by {
                                if k < i {
                                    assert(after[k].guild_id != after[i as int].guild_id);
                                } else if k > i {
                                    assert(after[i as int].guild_id != after[k].guild_id);
                                }
                            }
                            assert(after[i as int].emotes@ == new_emotes);
                            assert(cache_map(after)[g] == after[k].emotes@);
                        } else {
                            assert(after[i as int].guild_id == guild_id);
                            assert(k != i);
                            assert(after[k] == before[k]);
                            assert(before[k].guild_id == g);
                            let k0 = choose|k: int| 0 <= k < before.len() && before[k].guild_id == g;
                            assert(k0 == k) by {
                                if k0 != k {
                                    if k0 < k {
                                        assert(before[k0].guild_id != before[k].guild_id);
                                    } else {
                                        assert(before[k].guild_id != before[k0].guild_id);
                                    }
                                }
                            }
                            assert(cache_map(after)[g] == after[k].emotes@);
                            assert(cache_map(before)[g] == before[k0].emotes@);
                            assert(cache_map(before).dom().contains(g));
                        }
                    }
                    assert(cache_map(after) =~= old(self)@.insert(guild_id, new_emotes));
                }
                return;
            }
            i = i + 1;
        }
        self.entries.push(GuildEmotes { guild_id, emotes });
        proof {
            let after = self.entries@;
            let n = before.len() as int;
            assert(after[n].guild_id == guild_id);
            assert forall|g: u64| #[trigger] cache_map(after).dom().contains(g)
                == old(self)@.insert(guild_id, new_emotes).dom().contains(g) by {
                if cache_map(before).dom().contains(g) {
                    let k = choose|k: int| 0 <= k < before.len() && before[k].guild_id == g;
                    assert(after[k].guild_id == g);
                }
                if cache_map(after).dom().contains(g) && g != guild_id {
                    let k = choose|k: int| 0 <= k < after.len() && after[k].guild_id == g;
                    assert(before[k].guild_id == g);
                }
            }
            assert forall|g: u64| #[trigger] cache_map(after).dom().contains(g) implies cache_map(after)[g]
                == old(self)@.insert(guild_id, new_emotes)[g] by {
                let k = choose|k: int| 0 <= k < after.len() && after[k].guild_id == g;
                if g == guild_id {
                    assert(k == n);
                } else {
                    assert(before[k].guild_id == g);
                    assert(cache_map(before).dom().contains(g));
                    let k0 = choose|k: int| 0 <= k < before.len() && before[k].guild_id == g;
                    assert(k0 == k) by {
                        if k0 != k {
                            if k0 < k {
                                assert(before[k0].guild_id != before[k].guild_id);
                            } else {
                                assert(before[k].guild_id != before[k0].guild_id);
                            }
                        }
                    }
                }
            }
            assert(cache_map(after) =~= old(self)@.insert(guild_id, new_emotes));
        }
    }
}

/// Code point order on texts, which is the order of `String`'s `Ord`
/// (bytewise order of UTF-8 keeps code point order).
pub open spec fn text_le(a: Seq<char>, b: Seq<char>) -> bool
    decreases a.len(),
{
    if a.len() == 0 {
        true
    } else if b.len() == 0 {
        false
    } else if a[0] == b[0] {
        text_le(a.skip(1), b.skip(1))
    } else {
        (a[0] as u32) < (b[0] as u32)
    }
}

pub open spec fn text_views(v: Seq<String>) -> Seq<Seq<char>> {
    v.map_values(|s: String| s@)
}

/// Whether texts stand in ascending order.
pub open spec fn sorted_texts(s: Seq<Seq<char>>) -> bool {
    forall|i: int, j: int| 0 <= i < j < s.len() ==> text_le(s[i], s[j])
}

/// Relies on `slice::sort` on `String`s: the same texts, in ascending order of `String`'s `Ord`.
#[verifier::external_body]
fn sort_texts(v: &mut Vec<String>)
    ensures
        sorted_texts(text_views(final(v)@)),
        text_views(final(v)@).to_multiset() == text_views(old(v)@).to_multiset(),
{
    v.sort();
}

/// The pattern actually compiled for a user's filter: case-insensitive unless asked otherwise.
pub open spec fn pattern_source(pattern: Seq<char>, case_sensitive: bool) -> Seq<char> {
    if case_sensitive {
        pattern
    } else {
        "(?i)"@ + pattern
    }
}

/// The names that pass a filter, in their order; no filter passes every name.
pub open spec fn keep_matching(names: Seq<Seq<char>>, filter: Option<Seq<char>>) -> Seq<Seq<char>>
    decreases names.len(),
{
    if names.len() == 0 {
        Seq::empty()
    } else {
        let prev = keep_matching(names.drop_last(), filter);
        match filter {
            None => prev.push(names.last()),
            Some(p) => if regex_matches(p, names.last()) {
                prev.push(names.last())
            } else {
                prev
            },
        }
    }
}

/// A listing filter that is not a valid regular expression.
#[derive(Clone, Copy, Debug, PartialEq, Eq, Structural)]
pub enum ListError {
    InvalidPattern,
}

/// Builds the pattern that a filter compiles to.
pub fn filter_source(pattern: &String, case_sensitive: bool) -> (r: String)
    ensures
        r@ == pattern_source(pattern@, case_sensitive),
{
    if case_sensitive {
        pattern.clone()
    } else {
        let mut s = String::from_str("(?i)");
        s.append(pattern.as_str());
        s
    }
}

/// The names of the cached emotes that a compiled filter accepts (all of them
/// without a filter), sorted in ascending order.
pub fn matching_emote_names(cache: &EmoteCache, filter: Option<&EmotePattern>) -> (r: Vec<String>)
    ensures
        sorted_texts(text_views(r@)),
        text_views(r@).to_multiset() == keep_matching(
            cached_names(cache.entries@),
            match filter {
                Some(p) => Some(p@),
                None => None,
            },
        ).to_multiset(),
{
    let ghost src = match filter {
        Some(p) => Some(p@),
        None => None,
    };
    let ghost entries = cache.entries@;
    let mut out: Vec<String> = Vec::new();
    let mut g: usize = 0;
    assert(entries.take(0) =~= Seq::<GuildEmotes>::empty());
    assert(text_views(out@) =~= keep_matching(cached_names(entries.take(0)), src));
    while g < cache.entries.len()
        invariant
            entries == cache.entries@,
            g <= entries.len(),
            src == match filter {
                Some(p) => Some(p@),
                None => None::<Seq<char>>,
            },
            text_views(out@) == keep_matching(cached_names(entries.take(g as int)), src),
        decreases cache.entries.len() - g,
    {
        let emotes = &cache.entries[g].emotes;
        let ghost done = cached_names(entries.take(g as int));
        let ghost names = emotes@.map_values(|e: Emote| e.name@);
        assert(entries.take(g + 1).drop_last() =~= entries.take(g as int));
        assert(cached_names(entries.take(g + 1)) == done + names);
        let mut e: usize = 0;
        assert(done + names.take(0) =~= done);
        while e < emotes.len()
            invariant
                entries == cache.entries@,
                emotes@ == entries[g as int].emotes@,
                names == emotes@.map_values(|e: Emote| e.name@),
                e <= emotes@.len(),
                src == match filter {
                    Some(p) => Some(p@),
                    None => None::<Seq<char>>,
                },
                text_views(out@) == keep_matching(done + names.take(e as int), src),
            decreases emotes.len() - e,
        {
            let name = &emotes[e].name;
            let keep = match filter {
                Some(p) => p.is_match(name.as_str()),
                None => true,
            };
            let ghost prefix = done + names.take(e as int);
            assert(done + names.take(e + 1) =~= prefix.push(name@));
            assert(prefix.push(name@).drop_last() =~= prefix);
            if keep {
                out.push(name.clone());
            }
            assert(text_views(out@) =~= keep_matching(done + names.take(e + 1), src));
            e = e + 1;
        }
        assert(names.take(e as int) =~= names);
        g = g + 1;
    }
    assert(entries.take(g as int) =~= entries);
    sort_texts(&mut out);
    out
}

/// Lists the cached emote names that a user's filter accepts, sorted; the
/// filter is a regular expression, case-insensitive unless asked otherwise.
pub fn list_emote_names(cache: &EmoteCache, pattern: Option<String>, case_sensitive: bool) -> (r: Result<
    Vec<String>,
    ListError,
>)
    ensures
        match pattern {
            None => r is Ok,
            Some(p) => r is Ok <==> regex_compiles(pattern_source(p@, case_sensitive)),
        },
        r matches Err(e) ==> e == ListError::InvalidPattern,
        r matches Ok(v) ==> sorted_texts(text_views(v@)) && text_views(v@).to_multiset()
            == keep_matching(
            cached_names(cache.entries@),
            match pattern {
                Some(p) => Some(pattern_source(p@, case_sensitive)),
                None => None,
            },
        ).to_multiset(),
{
    match pattern {
        None => Ok(matching_emote_names(cache, None)),
        Some(p) => {
            let source = filter_source(&p, case_sensitive);
            match EmotePattern::compile(source) {
                Some(compiled) => Ok(matching_emote_names(cache, Some(&compiled))),
                None => Err(ListError::InvalidPattern),
            }
        },
    }
}

} // verus!
