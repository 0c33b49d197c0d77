use vstd::prelude::*;
use crate::resolve::{resolution_of, resolve_spec, RawInteraction, Resolution, ResolvedInvocation, RoutingError};
use crate::schema::{leaf_keys, root_named, schema_keys, Schema};
use crate::schema::distinct;

verus! {

/// The text of the one reply that an interaction gets when it cannot be routed.
pub const INVALID_COMMAND_TEXT: &'static str = "**Error:** Invalid command name! This probably means that the command definitions haven't been updated yet or there's a glaring oversight in the code.";

/// The text of the reply sent when a handler failed before it could answer.
pub const HANDLER_FAILURE_TEXT: &'static str = "**Error:** Something went wrong while running this command.";

/// How the platform shows the initial response to an interaction.
#[derive(Clone, Copy, Debug, PartialEq, Eq, Structural)]
pub enum ResponseKind {
    ChannelMessage,
    DeferredChannelMessage,
    Modal,
}

/// The initial response to an interaction.
pub struct Reply {
    pub kind: ResponseKind,
    pub content: String,
    pub ephemeral: bool,
}

/// The mathematical value of a `Reply`.
pub struct ReplyView {
    pub kind: ResponseKind,
    pub content: Seq<char>,
    pub ephemeral: bool,
}

impl Reply {
    pub open spec fn view(&self) -> ReplyView {
        ReplyView { kind: self.kind, content: self.content@, ephemeral: self.ephemeral }
    }
}

/// The canonical ephemeral reply to an interaction that cannot be routed.
pub open spec fn invalid_command_reply_spec() -> ReplyView {
    ReplyView {
        kind: ResponseKind::ChannelMessage,
        content: INVALID_COMMAND_TEXT@,
        ephemeral: true,
    }
}

/// The ephemeral reply that stands in for a handler that failed.
pub open spec fn handler_failure_reply_spec() -> ReplyView {
    ReplyView {
        kind: ResponseKind::ChannelMessage,
        content: HANDLER_FAILURE_TEXT@,
        ephemeral: true,
    }
}

/// Builds the canonical "invalid command" reply.
pub fn invalid_command_reply() -> (r: Reply)
    ensures
        r@ == invalid_command_reply_spec(),
{
    Reply {
        kind: ResponseKind::ChannelMessage,
        content: String::from_str(INVALID_COMMAND_TEXT),
        ephemeral: true,
    }
}

/// Builds the reply that is sent in place of a handler's own when the handler failed.
pub fn handler_failure_reply() -> (r: Reply)
    ensures
        r@ == handler_failure_reply_spec(),
{
    Reply {
        kind: ResponseKind::ChannelMessage,
        content: String::from_str(HANDLER_FAILURE_TEXT),
        ephemeral: true,
    }
}

/// Binds each handler key to a slot: the handler in slot `i` serves `handler_keys[i]`.
pub struct DispatchTable {
    pub handler_keys: Vec<String>,
}

pub open spec fn key_views(keys: Seq<String>) -> Seq<Seq<char>> {
    keys.map_values(|k: String| k@)
}

impl DispatchTable {
    /// No key is bound twice.
    pub open spec fn well_formed(&self) -> bool {
        distinct(key_views(self.handler_keys@))
    }
}

/// The slot bound to a key, if there is one.
pub open spec fn slot_of(keys: Seq<Seq<char>>, key: Seq<char>) -> Option<int> {
    if exists|i: int| 0 <= i < keys.len() && keys[i] == key {
        Some(choose|i: int| 0 <= i < keys.len() && keys[i] == key)
    } else {
        None
    }
}

/// What dispatch does with one interaction: run exactly one handler, or answer
/// at once with a reply and run none.
pub enum Outcome {
    Invoke { slot: int, resolution: Resolution },
    Respond(ReplyView),
}

/// The outcome of dispatching a routing result against the bound keys.
pub open spec fn dispatch_spec(keys: Seq<Seq<char>>, routed: Result<Resolution, RoutingError>) -> Outcome {
    match routed {
        Err(_) => Outcome::Respond(invalid_command_reply_spec()),
        Ok(res) => match slot_of(keys, res.handler_key) {
            Some(slot) => Outcome::Invoke { slot, resolution: res },
            None => Outcome::Respond(invalid_command_reply_spec()),
        },
    }
}

/// What dispatch hands to the caller: the slot to run with its invocation, or the reply to send.
pub enum Dispatch {
    Invoke { slot: usize, invocation: ResolvedInvocation },
    Respond(Reply),
}

impl Dispatch {
    pub open spec fn view(&self) -> Outcome {
        match self {
            Dispatch::Invoke { slot, invocation } => Outcome::Invoke {
                slot: *slot as int,
                resolution: invocation.view(),
            },
            Dispatch::Respond(reply) => Outcome::Respond(reply.view()),
        }
    }
}

/// Finds the slot bound to a handler key.
fn find_slot(keys: &Vec<String>, key: &String) -> (r: Option<usize>)
    requires
        distinct(key_views(keys@)),
    ensures
        match r {
            None => slot_of(key_views(keys@), key@) is None,
            Some(i) => slot_of(key_views(keys@), key@) == Some(i as int),
        },
{
    let ghost kv = key_views(keys@);
    let mut i: usize = 0;
    while i < keys.len()
        invariant
            i <= keys@.len(),
            kv == key_views(keys@),
            distinct(kv),
            forall|k: int| 0 <= k < i ==> kv[k] != key@,
        decreases keys.len() - i,
    {
        if keys[i] == *key {
            proof {
                assert(kv[i as int] == key@);
                assert(exists|k: int| 0 <= k < kv.len() && kv[k] == key@);
                let c = choose|k: int| 0 <= k < kv.len() && kv[k] == key@;
                if c > i {
                    assert(kv[i as int] == kv[c]);
                }
            }
            return Some(i);
        }
        i = i + 1;
    }
    None
}

/// Decides what to do with a routed interaction: a resolved leaf with a bound
/// handler runs that handler; anything else gets the one canonical
/// "invalid command" reply and runs no handler.
pub fn dispatch(table: &DispatchTable, routed: Result<ResolvedInvocation, RoutingError>) -> (d: Dispatch)
    requires
        table.well_formed(),
    ensures
        d@ == dispatch_spec(key_views(table.handler_keys@), resolution_of(routed)),
{
    match routed {
        Err(_) => Dispatch::Respond(invalid_command_reply()),
        Ok(invocation) => match find_slot(&table.handler_keys, &invocation.handler_key) {
            Some(slot) => Dispatch::Invoke { slot, invocation },
            None => Dispatch::Respond(invalid_command_reply()),
        },
    }
}

/// The reply to send once a handler has run: its own, or the stand-in when it failed.
pub fn reply_after_handler(outcome: Result<Reply, ()>) -> (r: Reply)
    ensures
        match outcome {
            Ok(reply) => r == reply,
            Err(_) => r@ == handler_failure_reply_spec(),
        },
{
    match outcome {
        Ok(reply) => reply,
        Err(_) => handler_failure_reply(),
    }
}

/// An interaction that names no command resolves to `UnknownCommand`, and
/// dispatch then answers it with exactly one reply, the canonical ephemeral
/// "invalid command" one, without running any handler.
pub proof fn lemma_unknown_command_gets_one_reply(
    schema: Schema,
    raw: RawInteraction,
    table: DispatchTable,
)
    requires
        schema.well_formed(),
        root_named(schema.roots@, raw.command_name@) is None,
    ensures
        resolve_spec(schema.roots@, raw) == Err::<Resolution, RoutingError>(
            RoutingError::UnknownCommand,
        ),
        dispatch_spec(key_views(table.handler_keys@), resolve_spec(schema.roots@, raw))
            == Outcome::Respond(invalid_command_reply_spec()),
{
}

/// Why a set of handlers cannot serve the schema.
pub enum BindingError {
    /// Two slots are bound to this key.
    DuplicateBinding(String),
    /// No slot is bound to this leaf's key.
    Unbound(String),
}

/// Whether every leaf of the tree has a bound key.
pub open spec fn binds_every_leaf(roots: Seq<crate::schema::CommandNode>, keys: Seq<Seq<char>>) -> bool {
    forall|i: int| 0 <= i < schema_keys(roots).len() ==> keys.contains(#[trigger] schema_keys(roots)[i])
}

/// Finds a key that is bound twice.
fn find_duplicate(keys: &Vec<String>) -> (r: Option<usize>)
    ensures
        r is None <==> distinct(key_views(keys@)),
        r matches Some(i) ==> i < keys@.len() && exists|j: int|
            0 <= j < keys@.len() && j != i && key_views(keys@)[j] == key_views(keys@)[i as int],
{
    let ghost kv = key_views(keys@);
    let n = keys.len();
    let mut i: usize = 0;
    while i < n
        invariant
            n == keys@.len(),
            kv == key_views(keys@),
            i <= n,
            forall|a: int, b: int| 0 <= a < b < n && a < i ==> kv[a] != kv[b],
        decreases n - i,
    {
        let mut j: usize = i + 1;
        while j < n
            invariant
                n == keys@.len(),
                kv == key_views(keys@),
                i < n,
                i < j <= n,
                forall|a: int, b: int| 0 <= a < b < n && a < i ==> kv[a] != kv[b],
                forall|b: int| i < b < j ==> kv[i as int] != kv[b],
            decreases n - j,
        {
            if keys[i] == keys[j] {
                assert(kv[j as int] == kv[i as int]);
                return Some(i);
            }
            j = j + 1;
        }
        i = i + 1;
    }
    None
}

/// Builds the dispatch table from the keys that the registered handlers serve,
/// slot by slot. Every leaf of the schema must have exactly one handler: a key
/// bound twice, or a leaf bound to none, is refused.
pub fn bind_handlers(schema: &Schema, keys: Vec<String>) -> (r: Result<DispatchTable, BindingError>)
    ensures
        r is Ok <==> distinct(key_views(keys@)) && binds_every_leaf(schema.roots@, key_views(keys@)),
        r matches Ok(t) ==> t.handler_keys@ == keys@ && t.well_formed(),
        r matches Err(BindingError::DuplicateBinding(k)) ==> !distinct(key_views(keys@))
            && key_views(keys@).contains(k@),
        r matches Err(BindingError::Unbound(k)) ==> schema_keys(schema.roots@).contains(k@)
            && !key_views(keys@).contains(k@),
{
    match find_duplicate(&keys) {
        Some(i) => {
            let k = keys[i].clone();
            assert(key_views(keys@)[i as int] == k@);
            return Err(BindingError::DuplicateBinding(k));
        },
        None => {},
    }
    let leaves = leaf_keys(schema);
    let ghost sk = schema_keys(schema.roots@);
    let ghost kv = key_views(keys@);
    let mut m: usize = 0;
    while m < leaves.len()
        invariant
            leaves@.map_values(|k: String| k@) == sk,
            sk == schema_keys(schema.roots@),
            kv == key_views(keys@),
            distinct(kv),
            m <= leaves@.len(),
            forall|x: int| 0 <= x < m ==> kv.contains(#[trigger] sk[x]),
        decreases leaves.len() - m,
    {
        assert(leaves@[m as int]@ == sk[m as int]);
        match find_slot(&keys, &leaves[m]) {
            Some(slot) => {
                assert(kv[slot as int] == sk[m as int]);
            },
            None => {
                let k = leaves[m].clone();
                assert(sk.contains(k@)) by {
                    assert(sk[m as int] == k@);
                }
                return Err(BindingError::Unbound(k));
            },
        }
        m = m + 1;
    }
    Ok(DispatchTable { handler_keys: keys })
}

} // verus!
