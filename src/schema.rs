use vstd::prelude::*;

verus! {

/// The type of value a parameter of a leaf command takes.
#[derive(Clone, Copy, Debug, PartialEq, Eq, Structural)]
pub enum ParamKind {
    Text,
    Integer,
    Boolean,
    User,
    Channel,
}

/// A value parameter declared on a leaf command.
pub struct Param {
    pub name: String,
    pub description: String,
    pub kind: ParamKind,
    pub required: bool,
}

/// A node bound to exactly one handler: a subcommand, or a command without subcommands.
pub struct Leaf {
    pub name: String,
    pub description: String,
    pub handler_key: String,
    pub params: Vec<Param>,
}

/// A child of a command: a subcommand, or a group holding subcommands.
pub enum Branch {
    Sub(Leaf),
    Group { name: String, description: String, subs: Vec<Leaf> },
}

/// What a top-level command carries: its own handler, or its children.
pub enum CommandBody {
    Handler(Leaf),
    Branches(Vec<Branch>),
}

/// A top-level command. A restricted one cannot be used in a guild until a
/// permission grant is pushed for it there.
pub struct CommandNode {
    pub name: String,
    pub description: String,
    pub restricted: bool,
    pub body: CommandBody,
}

/// The whole command tree, built once at startup and only read afterwards.
pub struct Schema {
    pub roots: Vec<CommandNode>,
}

pub open spec fn branch_name(b: Branch) -> Seq<char> {
    match b {
        Branch::Sub(leaf) => leaf.name@,
        Branch::Group { name, .. } => name@,
    }
}

pub open spec fn root_names(roots: Seq<CommandNode>) -> Seq<Seq<char>> {
    roots.map_values(|n: CommandNode| n.name@)
}

pub open spec fn branch_names(bs: Seq<Branch>) -> Seq<Seq<char>> {
    bs.map_values(|b: Branch| branch_name(b))
}

pub open spec fn leaf_names(ls: Seq<Leaf>) -> Seq<Seq<char>> {
    ls.map_values(|l: Leaf| l.name@)
}

/// No name occurs twice.
pub open spec fn distinct(names: Seq<Seq<char>>) -> bool {
    forall|i: int, j: int| 0 <= i < j < names.len() ==> names[i] != names[j]
}

pub open spec fn group_well_formed(subs: Seq<Leaf>) -> bool {
    subs.len() > 0 && distinct(leaf_names(subs))
}

pub open spec fn branch_well_formed(b: Branch) -> bool {
    match b {
        Branch::Sub(_) => true,
        Branch::Group { subs, .. } => group_well_formed(subs@),
    }
}

pub open spec fn node_well_formed(n: CommandNode) -> bool {
    match n.body {
        CommandBody::Handler(_) => true,
        CommandBody::Branches(bs) => {
            &&& bs@.len() > 0
            &&& distinct(branch_names(bs@))
            &&& forall|i: int| 0 <= i < bs@.len() ==> branch_well_formed(#[trigger] bs@[i])
        },
    }
}

/// Names are unique among siblings, and a command or group with children has at least one.
pub open spec fn schema_well_formed(roots: Seq<CommandNode>) -> bool {
    &&& distinct(root_names(roots))
    &&& forall|i: int| 0 <= i < roots.len() ==> node_well_formed(#[trigger] roots[i])
}

impl Schema {
    pub open spec fn well_formed(&self) -> bool {
        schema_well_formed(self.roots@)
    }
}

/// The top-level command of that name, if there is one.
pub open spec fn root_named(roots: Seq<CommandNode>, name: Seq<char>) -> Option<CommandNode> {
    if exists|i: int| 0 <= i < roots.len() && roots[i].name@ == name {
        Some(roots[choose|i: int| 0 <= i < roots.len() && roots[i].name@ == name])
    } else {
        None
    }
}

/// The child of that name, if there is one.
pub open spec fn branch_named(bs: Seq<Branch>, name: Seq<char>) -> Option<Branch> {
    if exists|i: int| 0 <= i < bs.len() && branch_name(bs[i]) == name {
        Some(bs[choose|i: int| 0 <= i < bs.len() && branch_name(bs[i]) == name])
    } else {
        None
    }
}

/// The subcommand of that name in a group, if there is one.
pub open spec fn leaf_named(ls: Seq<Leaf>, name: Seq<char>) -> Option<Leaf> {
    if exists|i: int| 0 <= i < ls.len() && ls[i].name@ == name {
        Some(ls[choose|i: int| 0 <= i < ls.len() && ls[i].name@ == name])
    } else {
        None
    }
}

/// Finds the top-level command of that name.
pub fn find_root(roots: &Vec<CommandNode>, name: &String) -> (r: Option<usize>)
    requires
        distinct(root_names(roots@)),
    ensures
        r is None <==> root_named(roots@, name@) is None,
        r matches Some(i) ==> i < roots@.len() && root_named(roots@, name@) == Some(roots@[i as int]),
{
    let mut i: usize = 0;
    while i < roots.len()
        invariant
            i <= roots@.len(),
            distinct(root_names(roots@)),
            forall|k: int| 0 <= k < i ==> roots@[k].name@ != name@,
        decreases roots.len() - i,
    {
        if roots[i].name == *name {
            proof {
                assert(roots@[i as int].name@ == name@);
                assert(exists|k: int| 0 <= k < roots@.len() && roots@[k].name@ == name@);
                let c = choose|k: int| 0 <= k < roots@.len() && roots@[k].name@ == name@;
                if c < i {
                    assert(root_names(roots@)[c] == root_names(roots@)[i as int]);
                } else if c > i {
                    assert(root_names(roots@)[i as int] == root_names(roots@)[c]);
                }
            }
            return Some(i);
        }
        i = i + 1;
    }
    None
}

/// Finds the child of that name.
pub fn find_branch(bs: &Vec<Branch>, name: &String) -> (r: Option<usize>)
    requires
        distinct(branch_names(bs@)),
    ensures
        r is None <==> branch_named(bs@, name@) is None,
        r matches Some(i) ==> i < bs@.len() && branch_named(bs@, name@) == Some(bs@[i as int]),
{
    let mut i: usize = 0;
    while i < bs.len()
        invariant
            i <= bs@.len(),
            distinct(branch_names(bs@)),
            forall|k: int| 0 <= k < i ==> branch_name(bs@[k]) != name@,
        decreases bs.len() - i,
    {
        let same = match &bs[i] {
            Branch::Sub(leaf) => leaf.name == *name,
            Branch::Group { name: group, .. } => *group == *name,
        };
        if same {
            proof {
                assert(branch_name(bs@[i as int]) == name@);
                assert(exists|k: int| 0 <= k < bs@.len() && branch_name(bs@[k]) == name@);
                let c = choose|k: int| 0 <= k < bs@.len() && branch_name(bs@[k]) == name@;
                if c < i {
                    assert(branch_names(bs@)[c] == branch_names(bs@)[i as int]);
                } else if c > i {
                    assert(branch_names(bs@)[i as int] == branch_names(bs@)[c]);
                }
            }
            return Some(i);
        }
        i = i + 1;
    }
    None
}

/// Finds the subcommand of that name in a group.
pub fn find_leaf(ls: &Vec<Leaf>, name: &String) -> (r: Option<usize>)
    requires
        distinct(leaf_names(ls@)),
    ensures
        r is None <==> leaf_named(ls@, name@) is None,
        r matches Some(i) ==> i < ls@.len() && leaf_named(ls@, name@) == Some(ls@[i as int]),
{
    let mut i: usize = 0;
    while i < ls.len()
        invariant
            i <= ls@.len(),
            distinct(leaf_names(ls@)),
            forall|k: int| 0 <= k < i ==> ls@[k].name@ != name@,
        decreases ls.len() - i,
    {
        if ls[i].name == *name {
            proof {
                assert(ls@[i as int].name@ == name@);
                assert(exists|k: int| 0 <= k < ls@.len() && ls@[k].name@ == name@);
                let c = choose|k: int| 0 <= k < ls@.len() && ls@[k].name@ == name@;
                if c < i {
                    assert(leaf_names(ls@)[c] == leaf_names(ls@)[i as int]);
                } else if c > i {
                    assert(leaf_names(ls@)[i as int] == leaf_names(ls@)[c]);
                }

            }
            return Some(i);
        }
        i = i + 1;
    }
    None
}

/// The handler keys of a group's subcommands, in order.
pub open spec fn group_keys(subs: Seq<Leaf>) -> Seq<Seq<char>> {
    subs.map_values(|l: Leaf| l.handler_key@)
}

/// The handler keys under one child of a command.
pub open spec fn branch_keys(b: Branch) -> Seq<Seq<char>> {
    match b {
        Branch::Sub(leaf) => seq![leaf.handler_key@],
        Branch::Group { subs, .. } => group_keys(subs@),
    }
}

/// The handler keys under a command's children, in order.
pub open spec fn branches_keys(bs: Seq<Branch>) -> Seq<Seq<char>>
    decreases bs.len(),
{
    if bs.len() == 0 {
        Seq::empty()
    } else {
        branches_keys(bs.drop_last()) + branch_keys(bs.last())
    }
}

/// The handler keys of the leaves of one command.
pub open spec fn node_keys(n: CommandNode) -> Seq<Seq<char>> {
    match n.body {
        CommandBody::Handler(leaf) => seq![leaf.handler_key@],
        CommandBody::Branches(bs) => branches_keys(bs@),
    }
}

/// The handler keys of every leaf of the tree, command by command.
pub open spec fn schema_keys(roots: Seq<CommandNode>) -> Seq<Seq<char>>
    decreases roots.len(),
{
    if roots.len() == 0 {
        Seq::empty()
    } else {
        schema_keys(roots.drop_last()) + node_keys(roots.last())
    }
}

/// Appends the handler keys of one command's leaves.
#[verifier::loop_isolation(false)]
fn push_node_keys(n: &CommandNode, out: &mut Vec<String>)
    ensures
        final(out)@.map_values(|k: String| k@) == old(out)@.map_values(|k: String| k@) + node_keys(*n),
{
    let ghost start = out@.map_values(|k: String| k@);
    match &n.body {
        CommandBody::Handler(leaf) => {
            out.push(leaf.handler_key.clone());
            assert(out@.map_values(|k: String| k@) =~= start + node_keys(*n));
        },
        CommandBody::Branches(bs) => {
            let mut j: usize = 0;
            assert(bs@.take(0) =~= Seq::<Branch>::empty());
            assert(out@.map_values(|k: String| k@) =~= start + branches_keys(bs@.take(0)));
            while j < bs.len()
                invariant
                    j <= bs@.len(),
                    out@.map_values(|k: String| k@) == start + branches_keys(bs@.take(j as int)),
                decreases bs.len() - j,
            {
                assert(bs@.take(j + 1).drop_last() =~= bs@.take(j as int));
                let ghost mid = out@.map_values(|k: String| k@);
                match &bs[j] {
                    Branch::Sub(leaf) => {
                        out.push(leaf.handler_key.clone());
                    },
                    Branch::Group { subs, .. } => {
                        let mut m: usize = 0;
                        assert(mid + group_keys(subs@).take(0) =~= mid);
                        while m < subs.len()
                            invariant
                                m <= subs@.len(),
                                out@.map_values(|k: String| k@) == mid + group_keys(subs@).take(
                                    m as int,
                                ),
                            decreases subs.len() - m,
                        {
                            let key = subs[m].handler_key.clone();
                            assert(key@ == group_keys(subs@)[m as int]);
                            let ghost before_push = out@;
                            out.push(key);
                            assert(out@.map_values(|k: String| k@) =~= before_push.map_values(
                                |k: String| k@,
                            ).push(group_keys(subs@)[m as int]));
                            assert(group_keys(subs@).take(m + 1) =~= group_keys(subs@).take(
                                m as int,
                            ).push(group_keys(subs@)[m as int]));
                            assert(out@.map_values(|k: String| k@) =~= mid + group_keys(subs@).take(
                                m + 1,
                            ));
                            m = m + 1;
                        }
                        assert(group_keys(subs@).take(m as int) =~= group_keys(subs@));
                    },
                }
                assert(branches_keys(bs@.take(j + 1)) == branches_keys(bs@.take(j as int))
                    + branch_keys(bs@[j as int]));
                assert(out@.map_values(|k: String| k@) =~= mid + branch_keys(bs@[j as int]));
                assert(out@.map_values(|k: String| k@) =~= start + branches_keys(bs@.take(j + 1)));
                j = j + 1;
            }
            assert(bs@.take(j as int) =~= bs@);
        },
    }
}

/// Lists the handler keys of every leaf of the tree (see `schema_keys`).
pub fn leaf_keys(schema: &Schema) -> (r: Vec<String>)
    ensures
        r@.map_values(|k: String| k@) == schema_keys(schema.roots@),
{
    let mut out: Vec<String> = Vec::new();
    let mut i: usize = 0;
    assert(schema.roots@.take(0) =~= Seq::<CommandNode>::empty());
    assert(out@.map_values(|k: String| k@) =~= schema_keys(schema.roots@.take(0)));
    while i < schema.roots.len()
        invariant
            i <= schema.roots@.len(),
            out@.map_values(|k: String| k@) == schema_keys(schema.roots@.take(i as int)),
        decreases schema.roots.len() - i,
    {
        assert(schema.roots@.take(i + 1).drop_last() =~= schema.roots@.take(i as int));
        push_node_keys(&schema.roots[i], &mut out);
        i = i + 1;
    }
    assert(schema.roots@.take(i as int) =~= schema.roots@);
    out
}

} // verus!
