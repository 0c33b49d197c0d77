use vstd::prelude::*;
use crate::schema::{root_named, CommandNode, Schema};

verus! {

/// A guild that the bot serves, with the user who owns it.
#[derive(Clone, Copy, Debug, PartialEq, Eq, Structural)]
pub struct GuildOwner {
    pub guild_id: u64,
    pub owner_id: u64,
}

/// A command as the platform registered it: its name and the id it was given.
pub struct LiveCommand {
    pub name: String,
    pub id: u64,
}

/// The users allowed to run one restricted command in one guild.
pub struct PermissionGrant {
    pub command_id: u64,
    pub guild_id: u64,
    pub allowed_user_ids: Vec<u64>,
}

/// Why permission grants could not be computed.
#[derive(Clone, Copy, Debug, PartialEq, Eq, Structural)]
pub enum PermissionError {
    /// Development mode grants only to the bot owner, who is not configured.
    MissingBotOwner,
}

/// The users allowed to run restricted commands in a guild: its owner, and the
/// bot owner where one is configured.
pub open spec fn allowed_set(owner: u64, bot_owner: Option<u64>) -> Set<u64> {
    match bot_owner {
        None => set![owner],
        Some(b) => set![owner, b],
    }
}

/// The list form of `allowed_set`: the bot owner first, then the guild owner,
/// each once.
pub open spec fn allowed_seq(owner: u64, bot_owner: Option<u64>) -> Seq<u64> {
    match bot_owner {
        None => seq![owner],
        Some(b) => if b == owner {
            seq![owner]
        } else {
            seq![b, owner]
        },
    }
}

/// Computes the users allowed in a guild with that owner.
pub fn allowed_user_ids(owner: u64, bot_owner: Option<u64>) -> (r: Vec<u64>)
    ensures
        r@ == allowed_seq(owner, bot_owner),
        r@.to_set() == allowed_set(owner, bot_owner),
        r@.no_duplicates(),
{
    let mut r: Vec<u64> = Vec::new();
    match bot_owner {
        Some(b) => {
            if b != owner {
                r.push(b);
            }
        },
        None => {},
    }
    r.push(owner);
    assert(r@ =~= allowed_seq(owner, bot_owner));
    proof {
        lemma_allowed_seq_is_set(owner, bot_owner);
    }
    r
}

/// The allowed users of a guild are its owner O when no bot owner is
/// configured, and O together with the bot owner B otherwise, without
/// repetition: one or two users, never more.
pub proof fn lemma_allowed_seq_is_set(owner: u64, bot_owner: Option<u64>)
    ensures
        allowed_seq(owner, bot_owner).to_set() == allowed_set(owner, bot_owner),
        allowed_seq(owner, bot_owner).no_duplicates(),
        allowed_set(owner, bot_owner).len() == allowed_seq(owner, bot_owner).len(),
        bot_owner is None ==> allowed_set(owner, bot_owner) == set![owner],
        1 <= allowed_set(owner, bot_owner).len() <= 2,
{
    let s = allowed_seq(owner, bot_owner);
    match bot_owner {
        None => {
            assert(s.to_set() =~= set![owner]) by {
                assert(s[0] == owner);
            }
            assert(set![owner].len() == 1) by {
                assert(set![owner] == Set::<u64>::empty().insert(owner));
            }
        },
        Some(b) => {
            if b == owner {
                assert(s.to_set() =~= set![owner, b]) by {
                    assert(s[0] == owner);
                }
                assert(set![owner, b] =~= Set::<u64>::empty().insert(owner));
            } else {
                assert(s.to_set() =~= set![owner, b]) by {
                    assert(s[0] == b);
                    assert(s[1] == owner);
                }
                assert(Set::<u64>::empty().insert(owner).len() == 1);
            }
        },
    }
}

/// Whether a grant gives that command, in that guild, to exactly those users.
pub open spec fn grant_is(g: PermissionGrant, command_id: u64, guild_id: u64, users: Seq<u64>) -> bool {
    &&& g.command_id == command_id
    &&& g.guild_id == guild_id
    &&& g.allowed_user_ids@ == users
}

/// Whether `grants` holds, for each command id in turn, the grant of that
/// command in that guild to exactly those users.
pub open spec fn grants_for(grants: Seq<PermissionGrant>, command_ids: Seq<u64>, guild_id: u64, users: Seq<u64>) -> bool {
    &&& grants.len() == command_ids.len()
    &&& forall|i: int|
        0 <= i < grants.len() ==> grant_is(#[trigger] grants[i], command_ids[i], guild_id, users)
}

/// Whether a top-level command of that name exists and is restricted.
pub open spec fn is_restricted(roots: Seq<CommandNode>, name: Seq<char>) -> bool {
    match root_named(roots, name) {
        Some(n) => n.restricted,
        None => false,
    }
}

/// The ids of the registered commands that are restricted, in registration order.
pub open spec fn restricted_ids(roots: Seq<CommandNode>, live: Seq<LiveCommand>) -> Seq<u64>
    decreases live.len(),
{
    if live.len() == 0 {
        Seq::empty()
    } else {
        let prev = restricted_ids(roots, live.drop_last());
        if is_restricted(roots, live.last().name@) {
            prev.push(live.last().id)
        } else {
            prev
        }
    }
}

/// Picks, from the commands that a push registered, the ids of those that the
/// schema marks restricted.
pub fn restricted_command_ids(schema: &Schema, live: &Vec<LiveCommand>) -> (r: Vec<u64>)
    requires
        schema.well_formed(),
    ensures
        r@ == restricted_ids(schema.roots@, live@),
{
    let mut r: Vec<u64> = Vec::new();
    let mut i: usize = 0;
    while i < live.len()
        invariant
            i <= live@.len(),
            schema.well_formed(),
            r@ == restricted_ids(schema.roots@, live@.take(i as int)),
        decreases live.len() - i,
    {
        assert(live@.take(i + 1).drop_last() =~= live@.take(i as int));
        let restricted = match crate::schema::find_root(&schema.roots, &live[i].name) {
            Some(k) => schema.roots[k].restricted,
            None => false,
        };
        if restricted {
            r.push(live[i].id);
        }
        i = i + 1;
    }
    assert(live@.take(live@.len() as int) =~= live@);
    r
}

/// The grants of every restricted command in one guild.
pub fn guild_grants(command_ids: &Vec<u64>, guild: GuildOwner, bot_owner: Option<u64>) -> (r: Vec<
    PermissionGrant,
>)
    ensures
        grants_for(r@, command_ids@, guild.guild_id, allowed_seq(guild.owner_id, bot_owner)),
{
    let mut r: Vec<PermissionGrant> = Vec::new();
    let mut i: usize = 0;
    while i < command_ids.len()
        invariant
            i <= command_ids@.len(),
            grants_for(
                r@,
                command_ids@.take(i as int),
                guild.guild_id,
                allowed_seq(guild.owner_id, bot_owner),
            ),
        decreases command_ids.len() - i,
    {
        let users = allowed_user_ids(guild.owner_id, bot_owner);
        r.push(
            PermissionGrant { command_id: command_ids[i], guild_id: guild.guild_id, allowed_user_ids: users },
        );
        i = i + 1;
    }
    assert(command_ids@.take(command_ids@.len() as int) =~= command_ids@);
    r
}

/// The grants of every restricted command in every served guild, one batch per guild.
pub fn production_grants(command_ids: &Vec<u64>, guilds: &Vec<GuildOwner>, bot_owner: Option<u64>) -> (r: Vec<
    Vec<PermissionGrant>,
>)
    ensures
        r@.len() == guilds@.len(),
        forall|g: int|
            0 <= g < guilds@.len() ==> grants_for(
                #[trigger] r@[g]@,
                command_ids@,
                guilds@[g].guild_id,
                allowed_seq(guilds@[g].owner_id, bot_owner),
            ),
{
    let mut r: Vec<Vec<PermissionGrant>> = Vec::new();
    let mut g: usize = 0;
    while g < guilds.len()
        invariant
            g <= guilds@.len(),
            r@.len() == g,
            forall|k: int|
                0 <= k < g ==> grants_for(
                    #[trigger] r@[k]@,
                    command_ids@,
                    guilds@[k].guild_id,
                    allowed_seq(guilds@[k].owner_id, bot_owner),
                ),
        decreases guilds.len() - g,
    {
        let batch = guild_grants(command_ids, guilds[g], bot_owner);
        r.push(batch);
        g = g + 1;
    }
    r
}

/// The grants of development mode: every restricted command in the development
/// guild, to the bot owner alone, who must be configured.
pub fn development_grants(command_ids: &Vec<u64>, dev_guild_id: u64, bot_owner: Option<u64>) -> (r: Result<
    Vec<PermissionGrant>,
    PermissionError,
>)
    ensures
        bot_owner is None <==> r == Err::<Vec<PermissionGrant>, PermissionError>(
            PermissionError::MissingBotOwner,
        ),
        r matches Ok(grants) ==> grants_for(grants@, command_ids@, dev_guild_id, seq![bot_owner->0]),
{
    match bot_owner {
        None => Err(PermissionError::MissingBotOwner),
        Some(b) => {
            let grants = guild_grants(command_ids, GuildOwner { guild_id: dev_guild_id, owner_id: b }, Some(b));
            assert(allowed_seq(b, Some(b)) =~= seq![b]);
            Ok(grants)
        },
    }
}

/// The permission phase as a state machine: the caller pushes each grant it is
/// handed and reports the outcome. A failed push is noted against its guild and
/// the pass goes on, so one guild's failure never keeps the others closed; the
/// command stays restricted in the guilds that failed.
pub struct GrantPass {
    pub grants: Vec<PermissionGrant>,
    pub done: usize,
    /// The guilds whose push failed, in the order the failures came.
    pub failed_guilds: Vec<u64>,
}

impl GrantPass {
    pub open spec fn well_formed(&self) -> bool {
        self.done <= self.grants@.len()
    }

    /// Starts a pass over grants in the order they will be pushed.
    pub fn new(grants: Vec<PermissionGrant>) -> (r: GrantPass)
        ensures
            r.well_formed(),
            r.grants@ == grants@,
            r.done == 0,
            r.failed_guilds@ == Seq::<u64>::empty(),
    {
        GrantPass { grants, done: 0, failed_guilds: Vec::new() }
    }

    /// The index of the next grant to push, if any is left.
    pub fn next_grant(&self) -> (r: Option<usize>)
        requires
            self.well_formed(),
        ensures
            self.done < self.grants@.len() ==> r == Some(self.done),
            self.done == self.grants@.len() ==> r is None,
    {
        if self.done < self.grants.len() {
            Some(self.done)
        } else {
            None
        }
    }

    /// Records the outcome of pushing the grant that `next_grant` handed out.
    pub fn record(&mut self, ok: bool)
        requires
            old(self).well_formed(),
            old(self).done < old(self).grants@.len(),
        ensures
            final(self).well_formed(),
            final(self).grants@ == old(self).grants@,
            final(self).done == old(self).done + 1,
            ok ==> final(self).failed_guilds@ == old(self).failed_guilds@,
            !ok ==> final(self).failed_guilds@ == old(self).failed_guilds@.push(
                old(self).grants@[old(self).done as int].guild_id,
            ),
    {
        let i = self.done;
        let n = self.grants.len();
        assert(i < n);
        if !ok {
            let guild = self.grants[i].guild_id;
            self.failed_guilds.push(guild);
        }
        self.done = i + 1;
    }
}

} // verus!
