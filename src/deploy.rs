use vstd::prelude::*;
use crate::schema::{root_names, Schema};
use crate::util::{split_on, split_text};

verus! {

/// How the bot was started.
#[derive(Clone, Copy, Debug, PartialEq, Eq, Structural)]
pub enum Mode {
    Production,
    Development,
}

/// Where a set of command definitions is registered: everywhere, or in one guild.
#[derive(Clone, Copy, Debug, PartialEq, Eq, Structural)]
pub enum DeploymentTarget {
    Global,
    Guild(u64),
}

/// The startup configuration of the synchroniser.
pub struct SyncConfig {
    pub mode: Mode,
    pub dev_guild_id: Option<u64>,
    pub bot_owner_id: Option<u64>,
    /// The comma-separated scopes to clear first in development mode, if any.
    pub clear_list: Option<String>,
}

/// Why the configuration cannot be used.
#[derive(Clone, Copy, Debug, PartialEq, Eq, Structural)]
pub enum ConfigError {
    /// Development mode needs the id of its guild.
    MissingDevGuild,
    /// An entry of the clear list is neither `*` nor a guild id.
    InvalidClearScope,
}

/// One step of the deployment phase. Clearing a scope pushes an empty set to it.
#[derive(Clone, Copy, Debug, PartialEq, Eq, Structural)]
pub enum DeployStep {
    Clear(DeploymentTarget),
    PushSchema(DeploymentTarget),
    /// The configuration allows no further step: the phase ends here, fatally.
    Stop(ConfigError),
}

pub open spec fn is_digit(c: char) -> bool {
    '0' <= c && c <= '9'
}

pub open spec fn digit_value(c: char) -> int {
    c as int - '0' as int
}

/// The number that a string of decimal digits spells.
pub open spec fn decimal_value(s: Seq<char>) -> int
    decreases s.len(),
{
    if s.len() == 0 {
        0
    } else {
        decimal_value(s.drop_last()) * 10 + digit_value(s.last())
    }
}

/// The number that a run of one or more decimal digits spells, if it is at most `u64::MAX`.
pub open spec fn digits_of(s: Seq<char>) -> Option<u64> {
    if s.len() > 0 && (forall|i: int| 0 <= i < s.len() ==> is_digit(#[trigger] s[i]))
        && decimal_value(s) <= u64::MAX {
        Some(decimal_value(s) as u64)
    } else {
        None
    }
}

proof fn lemma_decimal_value_nonneg(s: Seq<char>)
    requires
        forall|i: int| 0 <= i < s.len() ==> is_digit(#[trigger] s[i]),
    ensures
        decimal_value(s) >= 0,
    decreases s.len(),
{
    if s.len() > 0 {
        lemma_decimal_value_nonneg(s.drop_last());
    }
}

/// The id that a text spells, read as `u64`'s `FromStr` reads it: an optional
/// `+`, then one or more decimal digits, at most `u64::MAX`.
pub open spec fn id_of(s: Seq<char>) -> Option<u64> {
    if s.len() > 0 && s[0] == '+' {
        digits_of(s.skip(1))
    } else {
        digits_of(s)
    }
}

/// Reads an id written in decimal, with an optional leading `+`.
pub fn parse_id(s: &str) -> (r: Option<u64>)
    ensures
        r == id_of(s@),
{
    let n = s.unicode_len();
    if n > 0 && s.get_char(0) == '+' {
        let rest = s.substring_char(1, n);
        assert(rest@ =~= s@.skip(1));
        parse_digits(rest)
    } else {
        parse_digits(s)
    }
}

/// Reads a run of decimal digits.
fn parse_digits(s: &str) -> (r: Option<u64>)
    ensures
        r == digits_of(s@),
{
    let n = s.unicode_len();
    if n == 0 {
        return None;
    }
    let mut value: u64 = 0;
    let mut i: usize = 0;
    while i < n
        invariant
            n == s@.len(),
            i <= n,
            forall|k: int| 0 <= k < i ==> is_digit(#[trigger] s@[k]),
            value as int == decimal_value(s@.take(i as int)),
        decreases n - i,
    {
        let c = s.get_char(i);
        assert(s@.take(i + 1).drop_last() =~= s@.take(i as int));
        if !('0' <= c && c <= '9') {
            return None;
        }
        let d = (c as u32 - '0' as u32) as u64;
        if value > (u64::MAX - d) / 10 {
            proof {
                // whatever follows, the value only grows past the limit
                lemma_decimal_value_nonneg(s@.take(i + 1));
                lemma_prefix_bound(s@, i as int + 1);
            }
            return None;
        }
        value = value * 10 + d;
        i = i + 1;
    }
    assert(s@.take(n as int) =~= s@);
    Some(value)
}

/// A longer run of digits never spells a smaller number than its prefix.
proof fn lemma_prefix_bound(s: Seq<char>, k: int)
    requires
        0 <= k <= s.len(),
    ensures
        (forall|i: int| 0 <= i < s.len() ==> is_digit(#[trigger] s[i])) ==> decimal_value(s)
            >= decimal_value(s.take(k)),
    decreases s.len() - k,
{
    if (forall|i: int| 0 <= i < s.len() ==> is_digit(#[trigger] s[i])) {
        if k < s.len() {
            lemma_prefix_bound(s, k + 1);
            assert(s.take(k + 1).drop_last() =~= s.take(k));
            let t = s.take(k + 1);
            assert(forall|i: int| 0 <= i < t.len() ==> is_digit(#[trigger] t[i]));
            lemma_decimal_value_nonneg(s.take(k));
        } else {
            assert(s.take(k) =~= s);
        }
    }
}

/// The scope that one entry of the clear list names: `*` for the global scope,
/// or a guild id.
/// The scope that one entry of the clear list names: `*` for the global scope,
/// or a guild id.
pub open spec fn scope_of(entry: Seq<char>) -> Option<DeploymentTarget> {
    if entry == seq!['*'] {
        Some(DeploymentTarget::Global)
    } else {
        match id_of(entry) {
            Some(id) => Some(DeploymentTarget::Guild(id)),
            None => None,
        }
    }
}

fn scope_entry(entry: &String) -> (r: Option<DeploymentTarget>)
    ensures
        r == scope_of(entry@),
{
    let t = entry.as_str();
    if t.unicode_len() == 1 && t.get_char(0) == '*' {
        assert(t@ =~= seq!['*']);
        Some(DeploymentTarget::Global)
    } else {
        assert(t@ != seq!['*']) by {
            if t@ == seq!['*'] {
                assert(t@.len() == 1 && t@[0] == '*');
            }
        }
        match parse_id(t) {
            Some(id) => Some(DeploymentTarget::Guild(id)),
            None => None,
        }
    }
}

/// The clears that the entries of a clear list ask for, in order. Entries are
/// taken one by one: the first one that names no scope ends the list with a
/// stop, after the clears before it.
pub open spec fn clear_steps_spec(entries: Seq<Seq<char>>) -> Seq<DeployStep>
    decreases entries.len(),
{
    if entries.len() == 0 {
        Seq::empty()
    } else {
        match scope_of(entries[0]) {
            Some(t) => seq![DeployStep::Clear(t)] + clear_steps_spec(entries.skip(1)),
            None => seq![DeployStep::Stop(ConfigError::InvalidClearScope)],
        }
    }
}

/// The clears of an optional comma-separated clear list.
pub open spec fn clears_of(list: Option<Seq<char>>) -> Seq<DeployStep> {
    match list {
        None => Seq::empty(),
        Some(l) => clear_steps_spec(split_on(l, ',')),
    }
}

/// Whether a plan ends in a stop.
pub open spec fn ends_in_stop(steps: Seq<DeployStep>) -> bool {
    steps.len() > 0 && steps.last() is Stop
}

/// Turns a comma-separated clear list, each entry `*` (the global scope) or a
/// guild id, into its clears (see `clear_steps_spec`).
pub fn clear_steps(list: &str) -> (r: Vec<DeployStep>)
    ensures
        r@ == clear_steps_spec(split_on(list@, ',')),
{
    let entries = split_text(list, ',');
    let ghost ev = entries@.map_values(|p: String| p@);
    let mut steps: Vec<DeployStep> = Vec::new();
    let mut i: usize = 0;
    assert(ev.skip(0) =~= ev);
    assert(steps@ + clear_steps_spec(ev.skip(0)) =~= clear_steps_spec(ev));
    while i < entries.len()
        invariant
            ev == entries@.map_values(|p: String| p@),
            ev == split_on(list@, ','),
            i <= ev.len(),
            steps@ + clear_steps_spec(ev.skip(i as int)) == clear_steps_spec(ev),
        decreases entries.len() - i,
    {
        let ghost rest = ev.skip(i as int);
        assert(rest[0] == entries@[i as int]@);
        assert(rest.skip(1) =~= ev.skip(i + 1));
        match scope_entry(&entries[i]) {
            Some(t) => {
                steps.push(DeployStep::Clear(t));
                assert(steps@ + clear_steps_spec(ev.skip(i + 1)) =~= clear_steps_spec(ev));
            },
            None => {
                steps.push(DeployStep::Stop(ConfigError::InvalidClearScope));
                assert(steps@ =~= clear_steps_spec(ev));
                return steps;
            },
        }
        i = i + 1;
    }
    assert(ev.skip(i as int) =~= Seq::<Seq<char>>::empty());
    assert(steps@ =~= clear_steps_spec(ev));
    steps
}

/// The pushes of the deployment phase, in order. In production the schema goes
/// to the global scope. In development the listed scopes are cleared first;
/// then the schema goes to the development guild, or, without one, the phase
/// stops there. An unreadable entry of the clear list stops it at that entry.
pub open spec fn plan_spec(mode: Mode, dev_guild_id: Option<u64>, clear_list: Option<Seq<char>>) -> Seq<DeployStep> {
    match mode {
        Mode::Production => seq![DeployStep::PushSchema(DeploymentTarget::Global)],
        Mode::Development => {
            let clears = clears_of(clear_list);
            if ends_in_stop(clears) {
                clears
            } else {
                match dev_guild_id {
                    None => clears.push(DeployStep::Stop(ConfigError::MissingDevGuild)),
                    Some(g) => clears.push(DeployStep::PushSchema(DeploymentTarget::Guild(g))),
                }
            }
        },
    }
}

/// The scope the schema is deployed to.
pub open spec fn target_spec(mode: Mode, dev_guild_id: Option<u64>) -> Option<DeploymentTarget> {
    match mode {
        Mode::Production => Some(DeploymentTarget::Global),
        Mode::Development => match dev_guild_id {
            None => None,
            Some(g) => Some(DeploymentTarget::Guild(g)),
        },
    }
}

/// Chooses the one scope that the schema is deployed to.
pub fn deployment_target(config: &SyncConfig) -> (r: Result<DeploymentTarget, ConfigError>)
    ensures
        match target_spec(config.mode, config.dev_guild_id) {
            Some(t) => r == Ok::<DeploymentTarget, ConfigError>(t),
            None => r == Err::<DeploymentTarget, ConfigError>(ConfigError::MissingDevGuild),
        },
{
    match config.mode {
        Mode::Production => Ok(DeploymentTarget::Global),
        Mode::Development => match config.dev_guild_id {
            None => Err(ConfigError::MissingDevGuild),
            Some(g) => Ok(DeploymentTarget::Guild(g)),
        },
    }
}

pub open spec fn clear_list_view(list: Option<String>) -> Option<Seq<char>> {
    match list {
        Some(l) => Some(l@),
        None => None,
    }
}

/// Lays out the steps of the deployment phase (see `plan_spec`).
pub fn plan_deployment(config: &SyncConfig) -> (r: Vec<DeployStep>)
    ensures
        r@ == plan_spec(config.mode, config.dev_guild_id, clear_list_view(config.clear_list)),
{
    match config.mode {
        Mode::Production => {
            let mut steps: Vec<DeployStep> = Vec::new();
            steps.push(DeployStep::PushSchema(DeploymentTarget::Global));
            assert(steps@ =~= seq![DeployStep::PushSchema(DeploymentTarget::Global)]);
            steps
        },
        Mode::Development => {
            let mut steps = match &config.clear_list {
                Some(l) => clear_steps(l.as_str()),
                None => Vec::new(),
            };
            assert(steps@ =~= clears_of(clear_list_view(config.clear_list)));
            let n = steps.len();
            if n > 0 {
                if let DeployStep::Stop(_) = steps[n - 1] {
                    return steps;
                }
            }
            match config.dev_guild_id {
                None => steps.push(DeployStep::Stop(ConfigError::MissingDevGuild)),
                Some(g) => steps.push(DeployStep::PushSchema(DeploymentTarget::Guild(g))),
            }
            steps
        },
    }
}

/// What is registered in each scope: the names of its commands.
pub type Registry = Map<DeploymentTarget, Seq<Seq<char>>>;

/// A push replaces the whole set registered in its scope; other scopes keep theirs.
pub open spec fn after_push(reg: Registry, target: DeploymentTarget, names: Seq<Seq<char>>) -> Registry {
    reg.insert(target, names)
}

/// The registry after the same push was made `k` times.
pub open spec fn after_pushes(reg: Registry, target: DeploymentTarget, names: Seq<Seq<char>>, k: nat) -> Registry
    decreases k,
{
    if k == 0 {
        reg
    } else {
        after_push(after_pushes(reg, target, names, (k - 1) as nat), target, names)
    }
}

/// Pushing the same set to the same scope any number of times, at least once,
/// leaves the registry as one push does: the scope holds exactly that set.
pub proof fn lemma_push_idempotent(reg: Registry, target: DeploymentTarget, names: Seq<Seq<char>>, k: nat)
    requires
        k >= 1,
    ensures
        after_pushes(reg, target, names, k) == after_push(reg, target, names),
        after_push(reg, target, names)[target] == names,
    decreases k,
{
    if k == 1 {
        assert(after_pushes(reg, target, names, 0) == reg);
    } else {
        lemma_push_idempotent(reg, target, names, (k - 1) as nat);
        assert(after_push(after_push(reg, target, names), target, names) =~= after_push(
            reg,
            target,
            names,
        ));
    }
}

/// The registry after one step: a push replaces its scope's set, a stop changes nothing.
pub open spec fn after_step(reg: Registry, step: DeployStep, schema_names: Seq<Seq<char>>) -> Registry {
    match step {
        DeployStep::Clear(t) => after_push(reg, t, Seq::empty()),
        DeployStep::PushSchema(t) => after_push(reg, t, schema_names),
        DeployStep::Stop(_) => reg,
    }
}

/// The registry after a sequence of steps, each made in turn.
pub open spec fn after_steps(reg: Registry, steps: Seq<DeployStep>, schema_names: Seq<Seq<char>>) -> Registry
    decreases steps.len(),
{
    if steps.len() == 0 {
        reg
    } else {
        after_step(after_steps(reg, steps.drop_last(), schema_names), steps.last(), schema_names)
    }
}

/// Making steps on a registry gives what the steps alone register, laid over it.
proof fn lemma_after_steps_overlay(reg: Registry, steps: Seq<DeployStep>, schema_names: Seq<Seq<char>>)
    ensures
        after_steps(reg, steps, schema_names) == reg.union_prefer_right(
            after_steps(Map::empty(), steps, schema_names),
        ),
    decreases steps.len(),
{
    if steps.len() == 0 {
        assert(reg.union_prefer_right(Map::empty()) =~= reg);
    } else {
        lemma_after_steps_overlay(reg, steps.drop_last(), schema_names);
        let a = after_steps(Map::empty(), steps.drop_last(), schema_names);
        match steps.last() {
            DeployStep::Clear(t) => {
                assert(reg.union_prefer_right(a).insert(t, Seq::empty()) =~= reg.union_prefer_right(
                    a.insert(t, Seq::empty()),
                ));
            },
            DeployStep::PushSchema(t) => {
                assert(reg.union_prefer_right(a).insert(t, schema_names) =~= reg.union_prefer_right(
                    a.insert(t, schema_names),
                ));
            },
            DeployStep::Stop(_) => {},
        }
    }
}

/// Running the same steps a second time, all of them succeeding, leaves every
/// scope as the first run left it: each push replaces its scope's whole set.
pub proof fn lemma_steps_idempotent(reg: Registry, steps: Seq<DeployStep>, schema_names: Seq<Seq<char>>)
    ensures
        after_steps(after_steps(reg, steps, schema_names), steps, schema_names) == after_steps(
            reg,
            steps,
            schema_names,
        ),
{
    let a = after_steps(Map::empty(), steps, schema_names);
    lemma_after_steps_overlay(reg, steps, schema_names);
    lemma_after_steps_overlay(after_steps(reg, steps, schema_names), steps, schema_names);
    assert(reg.union_prefer_right(a).union_prefer_right(a) =~= reg.union_prefer_right(a));
}

/// Running the deployment phase twice with the same configuration and schema,
/// every push succeeding, ends with every scope holding what it held after the
/// first run; in particular the deployed scope holds the schema exactly once.
pub proof fn lemma_deployment_idempotent(
    reg: Registry,
    mode: Mode,
    dev_guild_id: Option<u64>,
    clear_list: Option<Seq<char>>,
    schema_names: Seq<Seq<char>>,
)
    ensures
        ({
            let steps = plan_spec(mode, dev_guild_id, clear_list);
            after_steps(after_steps(reg, steps, schema_names), steps, schema_names) == after_steps(
                reg,
                steps,
                schema_names,
            )
        }),
{
    lemma_steps_idempotent(reg, plan_spec(mode, dev_guild_id, clear_list), schema_names);
}

/// What the caller does next in the deployment phase.
#[derive(Clone, Copy, Debug, PartialEq, Eq, Structural)]
pub enum SyncAction {
    /// Make this push and report whether it succeeded.
    Push(DeployStep),
    /// Every push succeeded: permissions may be synchronised, then serving begins.
    Done,
    /// The configuration stops the phase here: the process must not serve.
    Stop(ConfigError),
    /// A push failed: the process must not serve.
    Abort,
}

/// The deployment phase as a state machine: the caller performs each push it
/// is handed and reports the outcome. Steps run in order, each push only after
/// the one before it succeeded; a failed push or a stop step is fatal.
pub struct DeploySync {
    pub steps: Vec<DeployStep>,
    pub completed: usize,
    pub failed: bool,
    /// What the pushes made so far have registered.
    pub registered: Ghost<Registry>,
    /// The names of the schema's commands.
    pub schema_names: Ghost<Seq<Seq<char>>>,
}

impl DeploySync {
    pub open spec fn well_formed(&self) -> bool {
        &&& self.completed <= self.steps@.len()
        &&& self.registered@ == after_steps(
            Map::empty(),
            self.steps@.take(self.completed as int),
            self.schema_names@,
        )
    }

    /// Starts the phase with nothing pushed yet.
    pub fn new(schema: &Schema, steps: Vec<DeployStep>) -> (r: DeploySync)
        ensures
            r.well_formed(),
            r.steps@ == steps@,
            r.completed == 0,
            !r.failed,
            r.registered@ == Map::<DeploymentTarget, Seq<Seq<char>>>::empty(),
            r.schema_names@ == root_names(schema.roots@),
    {
        let r = DeploySync {
            steps,
            completed: 0,
            failed: false,
            registered: Ghost(Map::empty()),
            schema_names: Ghost(root_names(schema.roots@)),
        };
        assert(r.steps@.take(0) =~= Seq::<DeployStep>::empty());
        r
    }

    /// The next thing to do.
    pub fn next_action(&self) -> (r: SyncAction)
        requires
            self.well_formed(),
        ensures
            self.failed ==> r == SyncAction::Abort,
            !self.failed && self.completed < self.steps@.len() ==> r == match self.steps@[self.completed as int] {
                DeployStep::Stop(e) => SyncAction::Stop(e),
                step => SyncAction::Push(step),
            },
            !self.failed && self.completed == self.steps@.len() ==> r == SyncAction::Done,
    {
        if self.failed {
            SyncAction::Abort
        } else if self.completed < self.steps.len() {
            match self.steps[self.completed] {
                DeployStep::Stop(e) => SyncAction::Stop(e),
                step => SyncAction::Push(step),
            }
        } else {
            SyncAction::Done
        }
    }

    /// Records the outcome of the push that `next_action` handed out.
    pub fn record(&mut self, ok: bool)
        requires
            old(self).well_formed(),
            !old(self).failed,
            old(self).completed < old(self).steps@.len(),
            !(old(self).steps@[old(self).completed as int] is Stop),
        ensures
            final(self).well_formed(),
            final(self).steps@ == old(self).steps@,
            final(self).schema_names == old(self).schema_names,
            ok ==> {
                let step = old(self).steps@[old(self).completed as int];
                &&& final(self).completed == old(self).completed + 1
                &&& !final(self).failed
                &&& final(self).registered@ == after_step(
                    old(self).registered@,
                    step,
                    old(self).schema_names@,
                )
            },
            !ok ==> final(self).failed && final(self).completed == old(self).completed
                && final(self).registered == old(self).registered,
    {
        if ok {
            let done = self.completed;
            let n = self.steps.len();
            assert(done < n);
            let step = self.steps[done];
            self.completed = done + 1;
            self.registered = Ghost(after_step(self.registered@, step, self.schema_names@));
            assert(self.steps@.take(done + 1).drop_last() =~= self.steps@.take(done as int));
        } else {
            self.failed = true;
        }
    }
}

} // verus!
