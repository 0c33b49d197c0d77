use vstd::prelude::*;
use crate::schema::{
    branch_named, find_branch, find_leaf, find_root, leaf_named, root_named, Branch, CommandBody,
    CommandNode, Schema,
};

verus! {

/// The shape of one option of an incoming interaction.
#[derive(Clone, Copy, Debug, PartialEq, Eq, Structural)]
pub enum OptionKind {
    Subcommand,
    SubcommandGroup,
    Value,
}

/// A value that the platform has already resolved for an option.
pub enum OptionValue {
    Text(String),
    Integer(i64),
    Boolean(bool),
    User(u64),
    Channel(u64),
}

/// One option of an incoming interaction: a value, or a subcommand or group
/// with its nested options.
pub struct RawOption {
    pub name: String,
    pub kind: OptionKind,
    pub value: Option<OptionValue>,
    pub options: Vec<RawOption>,
}

/// An incoming command invocation.
pub struct RawInteraction {
    pub command_name: String,
    pub options: Vec<RawOption>,
    pub guild_id: Option<u64>,
    pub invoker_id: u64,
}

/// The leaf that an interaction invokes, with the options meant for it.
pub struct ResolvedInvocation {
    pub handler_key: String,
    pub subcommand_path: Vec<String>,
    pub leaf_options: Vec<RawOption>,
}

/// Why an interaction could not be routed to a leaf.
#[derive(Clone, Copy, Debug, PartialEq, Eq, Structural)]
pub enum RoutingError {
    UnknownCommand,
    MissingSubcommand,
    MalformedOptionTree,
}

/// The mathematical value of a `ResolvedInvocation`.
pub struct Resolution {
    pub handler_key: Seq<char>,
    pub path: Seq<Seq<char>>,
    pub options: Seq<RawOption>,
}

impl ResolvedInvocation {
    pub open spec fn view(&self) -> Resolution {
        Resolution {
            handler_key: self.handler_key@,
            path: self.subcommand_path@.map_values(|s: String| s@),
            options: self.leaf_options@,
        }
    }
}

pub open spec fn resolution_of(r: Result<ResolvedInvocation, RoutingError>) -> Result<
    Resolution,
    RoutingError,
> {
    match r {
        Ok(v) => Ok(v.view()),
        Err(e) => Err(e),
    }
}

/// Resolution inside a command that has children: `first` is its first option.
pub open spec fn resolve_branches(bs: Seq<Branch>, first: RawOption) -> Result<
    Resolution,
    RoutingError,
> {
    match first.kind {
        OptionKind::Subcommand => match branch_named(bs, first.name@) {
            Some(Branch::Sub(leaf)) => Ok(
                Resolution {
                    handler_key: leaf.handler_key@,
                    path: seq![first.name@],
                    options: first.options@,
                },
            ),
            _ => Err(RoutingError::MalformedOptionTree),
        },
        OptionKind::SubcommandGroup => match branch_named(bs, first.name@) {
            Some(Branch::Group { subs, .. }) => {
                if first.options@.len() == 1 && first.options@[0].kind == OptionKind::Subcommand {
                    let sub = first.options@[0];
                    match leaf_named(subs@, sub.name@) {
                        Some(leaf) => Ok(
                            Resolution {
                                handler_key: leaf.handler_key@,
                                path: seq![first.name@, sub.name@],
                                options: sub.options@,
                            },
                        ),
                        None => Err(RoutingError::MalformedOptionTree),
                    }
                } else {
                    Err(RoutingError::MalformedOptionTree)
                }
            },
            _ => Err(RoutingError::MalformedOptionTree),
        },
        OptionKind::Value => Err(RoutingError::MalformedOptionTree),
    }
}

/// Where an interaction leads in the command tree.
pub open spec fn resolve_spec(roots: Seq<CommandNode>, raw: RawInteraction) -> Result<
    Resolution,
    RoutingError,
> {
    match root_named(roots, raw.command_name@) {
        None => Err(RoutingError::UnknownCommand),
        Some(root) => match root.body {
            CommandBody::Handler(leaf) => Ok(
                Resolution { handler_key: leaf.handler_key@, path: seq![], options: raw.options@ },
            ),
            CommandBody::Branches(bs) => {
                if raw.options@.len() == 0 {
                    Err(RoutingError::MissingSubcommand)
                } else {
                    resolve_branches(bs@, raw.options@[0])
                }
            },
        },
    }
}

fn resolve_in_branches(bs: &Vec<Branch>, first: RawOption) -> (r: Result<
    ResolvedInvocation,
    RoutingError,
>)
    requires
        crate::schema::distinct(crate::schema::branch_names(bs@)),
        forall|i: int| 0 <= i < bs@.len() ==> crate::schema::branch_well_formed(#[trigger] bs@[i]),
    ensures
        resolution_of(r) == resolve_branches(bs@, first),
{
    let ghost first0 = first;
    let RawOption { name, kind, options, .. } = first;
    match kind {
        OptionKind::Subcommand => {
            match find_branch(bs, &name) {
                Some(i) => match &bs[i] {
                    Branch::Sub(leaf) => {
                        let mut path: Vec<String> = Vec::new();
                        path.push(name);
                        let r = ResolvedInvocation {
                            handler_key: leaf.handler_key.clone(),
                            subcommand_path: path,
                            leaf_options: options,
                        };
                        assert(r.view().path =~= seq![first0.name@]);
                        Ok(r)
                    },
                    Branch::Group { .. } => Err(RoutingError::MalformedOptionTree),
                },
                None => Err(RoutingError::MalformedOptionTree),
            }
        },
        OptionKind::SubcommandGroup => {
            match find_branch(bs, &name) {
                Some(i) => match &bs[i] {
                    Branch::Group { subs, .. } => {
                        assert(crate::schema::branch_well_formed(bs@[i as int]));
                        let mut nested = options;
                        if nested.len() != 1 {
                            return Err(RoutingError::MalformedOptionTree);
                        }
                        let sub = nested.remove(0);
                        if sub.kind != OptionKind::Subcommand {
                            return Err(RoutingError::MalformedOptionTree);
                        }
                        match find_leaf(subs, &sub.name) {
                            Some(j) => {
                                let RawOption { name: sub_name, options: sub_options, .. } = sub;
                                let mut path: Vec<String> = Vec::new();
                                path.push(name);
                                path.push(sub_name);
                                let r = ResolvedInvocation {
                                    handler_key: subs[j].handler_key.clone(),
                                    subcommand_path: path,
                                    leaf_options: sub_options,
                                };
                                assert(r.view().path =~= seq![
                                    first0.name@,
                                    first0.options@[0].name@,
                                ]);
                                Ok(r)
                            },
                            None => Err(RoutingError::MalformedOptionTree),
                        }
                    },
                    Branch::Sub(_) => Err(RoutingError::MalformedOptionTree),
                },
                None => Err(RoutingError::MalformedOptionTree),
            }
        },
        OptionKind::Value => Err(RoutingError::MalformedOptionTree),
    }
}

/// Maps an interaction to the leaf it invokes. Only the structure of the
/// options is read: values pass through to the leaf untouched.
pub fn resolve(schema: &Schema, raw: RawInteraction) -> (r: Result<ResolvedInvocation, RoutingError>)
    requires
        schema.well_formed(),
    ensures
        resolution_of(r) == resolve_spec(schema.roots@, raw),
{
    let ghost raw0 = raw;
    let RawInteraction { command_name, options, .. } = raw;
    match find_root(&schema.roots, &command_name) {
        None => Err(RoutingError::UnknownCommand),
        Some(i) => {
            let root = &schema.roots[i];
            assert(crate::schema::node_well_formed(schema.roots@[i as int]));
            match &root.body {
                CommandBody::Handler(leaf) => {
                    let r = ResolvedInvocation {
                        handler_key: leaf.handler_key.clone(),
                        subcommand_path: Vec::new(),
                        leaf_options: options,
                    };
                    assert(r.view().path =~= Seq::<Seq<char>>::empty());
                    Ok(r)
                },
                CommandBody::Branches(bs) => {
                    let mut options = options;
                    if options.len() == 0 {
                        Err(RoutingError::MissingSubcommand)
                    } else {
                        let first = options.remove(0);
                        resolve_in_branches(bs, first)
                    }
                },
            }
        },
    }
}

/// The handler key of the leaf that `path` names under `root`, if it names one.
/// The command's own handler is named by the empty path, a subcommand by its
/// name, and a subcommand in a group by the group's name and then its own.
pub open spec fn leaf_at(root: CommandNode, path: Seq<Seq<char>>) -> Option<Seq<char>> {
    match root.body {
        CommandBody::Handler(leaf) => if path.len() == 0 {
            Some(leaf.handler_key@)
        } else {
            None
        },
        CommandBody::Branches(bs) => if path.len() == 1 {
            match branch_named(bs@, path[0]) {
                Some(Branch::Sub(leaf)) => Some(leaf.handler_key@),
                _ => None,
            }
        } else if path.len() == 2 {
            match branch_named(bs@, path[0]) {
                Some(Branch::Group { subs, .. }) => match leaf_named(subs@, path[1]) {
                    Some(leaf) => Some(leaf.handler_key@),
                    None => None,
                },
                _ => None,
            }
        } else {
            None
        },
    }
}

/// Whenever an interaction resolves, its subcommand path names, under the
/// invoked command, exactly the leaf whose handler was chosen. Since a leaf at
/// nesting depth d is named by a path of d names and no other, the path's
/// length is the depth of the matched leaf: 0, 1 or 2.
pub proof fn lemma_path_length_is_leaf_depth(schema: Schema, raw: RawInteraction)
    requires
        schema.well_formed(),
        resolve_spec(schema.roots@, raw) is Ok,
    ensures
        root_named(schema.roots@, raw.command_name@) is Some,
        leaf_at(
            root_named(schema.roots@, raw.command_name@).unwrap(),
            resolve_spec(schema.roots@, raw)->Ok_0.path,
        ) == Some(resolve_spec(schema.roots@, raw)->Ok_0.handler_key),
        resolve_spec(schema.roots@, raw)->Ok_0.path.len() <= 2,
{
}

} // verus!
