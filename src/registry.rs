use vstd::prelude::*;
use crate::schema::{
    branch_names, branches_keys, distinct, node_keys, node_well_formed, root_names,
    schema_keys, Branch, CommandBody, CommandNode, Leaf, Param, ParamKind, Schema,
};

verus! {

/// The declared shape of parameters: each one's name, kind and whether it is required.
pub open spec fn param_sigs(ps: Seq<Param>) -> Seq<(Seq<char>, ParamKind, bool)> {
    ps.map_values(|p: Param| (p.name@, p.kind, p.required))
}

/// Whether a leaf has that name, handler key and parameters.
pub open spec fn leaf_is(l: Leaf, name: Seq<char>, key: Seq<char>, params: Seq<(Seq<char>, ParamKind, bool)>) -> bool {
    &&& l.name@ == name
    &&& l.handler_key@ == key
    &&& param_sigs(l.params@) == params
}

/// Whether a command has no subcommands, handles itself under its own name, and takes those parameters.
pub open spec fn single_is(n: CommandNode, name: Seq<char>, params: Seq<(Seq<char>, ParamKind, bool)>) -> bool {
    n.body matches CommandBody::Handler(l) && leaf_is(l, name, name, params)
}

/// Whether a child is a subcommand with that name, handler key and parameters.
pub open spec fn sub_is(b: Branch, name: Seq<char>, key: Seq<char>, params: Seq<(Seq<char>, ParamKind, bool)>) -> bool {
    b matches Branch::Sub(l) && leaf_is(l, name, key, params)
}

pub open spec fn say_shape(n: CommandNode) -> bool {
    single_is(n, "say"@, seq![("message"@, ParamKind::Text, true)])
}

pub open spec fn react_shape(n: CommandNode) -> bool {
    single_is(n, "react"@, seq![("emotes"@, ParamKind::Text, true), ("target"@, ParamKind::Text, false)])
}

pub open spec fn emotes_shape(n: CommandNode) -> bool {
    single_is(
        n,
        "emotes"@,
        seq![("regex"@, ParamKind::Text, false), ("is-case-sensitive"@, ParamKind::Boolean, false)],
    )
}

/// `config`: subcommands `default-voice <channel> [name]` and `stream-embeds-channel [channel]`.
pub open spec fn config_shape(n: CommandNode) -> bool {
    n.body matches CommandBody::Branches(bs) && bs@.len() == 2 && sub_is(
        bs@[0],
        "default-voice"@,
        "config.default-voice"@,
        seq![("channel"@, ParamKind::Channel, true), ("name"@, ParamKind::Text, false)],
    ) && sub_is(
        bs@[1],
        "stream-embeds-channel"@,
        "config.stream-embeds-channel"@,
        seq![("channel"@, ParamKind::Channel, false)],
    )
}

/// `time`: subcommands `show [user]`, `setup`, `delete`, `utc` and `dst-info`.
pub open spec fn time_shape(n: CommandNode) -> bool {
    n.body matches CommandBody::Branches(bs) && bs@.len() == 5 && sub_is(
        bs@[0],
        "show"@,
        "time.show"@,
        seq![("user"@, ParamKind::User, false)],
    ) && sub_is(bs@[1], "setup"@, "time.setup"@, seq![]) && sub_is(
        bs@[2],
        "delete"@,
        "time.delete"@,
        seq![],
    ) && sub_is(bs@[3], "utc"@, "time.utc"@, seq![]) && sub_is(
        bs@[4],
        "dst-info"@,
        "time.dst-info"@,
        seq![],
    )
}

fn param(name: &str, description: &str, kind: ParamKind, required: bool) -> (r: Param)
    ensures
        r.name@ == name@,
        r.kind == kind,
        r.required == required,
{
    Param {
        name: String::from_str(name),
        description: String::from_str(description),
        kind,
        required,
    }
}

fn leaf(name: &str, description: &str, handler_key: &str, params: Vec<Param>) -> (r: Leaf)
    ensures
        r.name@ == name@,
        r.handler_key@ == handler_key@,
        r.params@ == params@,
{
    Leaf {
        name: String::from_str(name),
        description: String::from_str(description),
        handler_key: String::from_str(handler_key),
        params,
    }
}

fn command(name: &str, description: &str, restricted: bool, body: CommandBody) -> (r: CommandNode)
    ensures
        r.name@ == name@,
        r.restricted == restricted,
        r.body == body,
{
    CommandNode {
        name: String::from_str(name),
        description: String::from_str(description),
        restricted,
        body,
    }
}

fn single(name: &str, description: &str, params: Vec<Param>) -> (r: CommandNode)
    ensures
        r.name@ == name@,
        !r.restricted,
        r.body is Handler,
        node_keys(r) == seq![name@],
        single_is(r, name@, param_sigs(params@)),
{
    command(name, description, false, CommandBody::Handler(leaf(name, description, name, params)))
}

fn say_command() -> (r: CommandNode)
    ensures
        r.name@ == "say"@,
        !r.restricted,
        node_well_formed(r),
        node_keys(r) == seq!["say"@],
        say_shape(r),
{
    let mut params: Vec<Param> = Vec::new();
    params.push(
        param(
            "message",
            "The message to parse (\"//\" = slash, \"\\\" = new line, \"\\\\\" = backslash)",
            ParamKind::Text,
            true,
        ),
    );
    proof {
        reveal_strlit("message");
    }
    assert(param_sigs(params@) =~= seq![("message"@, ParamKind::Text, true)]);
    single("say", "Sends a message in your place with any emote you specify in /slashes/", params)
}

fn react_command() -> (r: CommandNode)
    ensures
        r.name@ == "react"@,
        !r.restricted,
        node_well_formed(r),
        node_keys(r) == seq!["react"@],
        react_shape(r),
{
    let mut params: Vec<Param> = Vec::new();
    params.push(
        param("emotes", "The list of space-separated emote names to react with", ParamKind::Text, true),
    );
    params.push(
        param(
            "target",
            "The message to target (distance / message ID / channel-message ID pair / message link)",
            ParamKind::Text,
            false,
        ),
    );
    assert(param_sigs(params@) =~= seq![("emotes"@, ParamKind::Text, true), ("target"@, ParamKind::Text, false)]);
    single(
        "react",
        "Reacts to the targeted message with any emotes the bot currently has access to",
        params,
    )
}

fn emotes_command() -> (r: CommandNode)
    ensures
        r.name@ == "emotes"@,
        !r.restricted,
        node_well_formed(r),
        node_keys(r) == seq!["emotes"@],
        emotes_shape(r),
{
    let mut params: Vec<Param> = Vec::new();
    params.push(param("regex", "The regex pattern to filter emotes by", ParamKind::Text, false));
    params.push(
        param(
            "is-case-sensitive",
            "Whether or not to check the pattern for case-sensitivity (false by default)",
            ParamKind::Boolean,
            false,
        ),
    );
    assert(param_sigs(params@) =~= seq![
        ("regex"@, ParamKind::Text, false),
        ("is-case-sensitive"@, ParamKind::Boolean, false),
    ]);
    single("emotes", "Lists out all the emotes the bot currently has access to", params)
}

fn config_command() -> (r: CommandNode)
    ensures
        r.name@ == "config"@,
        r.restricted,
        node_well_formed(r),
        node_keys(r) == seq!["config.default-voice"@, "config.stream-embeds-channel"@],
        config_shape(r),
{
    let mut voice_params: Vec<Param> = Vec::new();
    voice_params.push(param("channel", "The voice channel to target", ParamKind::Channel, true));
    voice_params.push(
        param(
            "name",
            "The channel name to reset to (removes default channel name if empty)",
            ParamKind::Text,
            false,
        ),
    );
    let mut stream_params: Vec<Param> = Vec::new();
    stream_params.push(
        param(
            "channel",
            "The channel to target (will disable stream embeds for this guild if empty)",
            ParamKind::Channel,
            false,
        ),
    );
    assert(param_sigs(voice_params@) =~= seq![
        ("channel"@, ParamKind::Channel, true),
        ("name"@, ParamKind::Text, false),
    ]);
    assert(param_sigs(stream_params@) =~= seq![("channel"@, ParamKind::Channel, false)]);
    let mut bs: Vec<Branch> = Vec::new();
    bs.push(
        Branch::Sub(
            leaf(
                "default-voice",
                "Sets the default name for a voice channel",
                "config.default-voice",
                voice_params,
            ),
        ),
    );
    bs.push(
        Branch::Sub(
            leaf(
                "stream-embeds-channel",
                "Configures a text channel to receive stream embeds (the bot must be able to send messages here)",
                "config.stream-embeds-channel",
                stream_params,
            ),
        ),
    );
    proof {
        reveal_strlit("default-voice");
        reveal_strlit("stream-embeds-channel");
        assert(branch_names(bs@) =~= seq!["default-voice"@, "stream-embeds-channel"@]);
        assert("default-voice"@.len() != "stream-embeds-channel"@.len());
        assert(distinct(branch_names(bs@)));
        assert(forall|i: int| 0 <= i < bs@.len() ==> (#[trigger] bs@[i]) is Sub);
        assert(bs@.drop_last().drop_last() =~= Seq::<Branch>::empty());
        assert(branches_keys(Seq::<Branch>::empty()) =~= Seq::<Seq<char>>::empty());
        assert(branches_keys(bs@.drop_last()) =~= seq!["config.default-voice"@]);
        assert(branches_keys(bs@) =~= seq!["config.default-voice"@, "config.stream-embeds-channel"@]);
    }
    command("config", "N/A", true, CommandBody::Branches(bs))
}

fn time_command() -> (r: CommandNode)
    ensures
        r.name@ == "time"@,
        !r.restricted,
        node_well_formed(r),
        node_keys(r) == seq![
            "time.show"@,
            "time.setup"@,
            "time.delete"@,
            "time.utc"@,
            "time.dst-info"@,
        ],
        time_shape(r),
{
    let mut show_params: Vec<Param> = Vec::new();
    show_params.push(param("user", "The user to check (if any)", ParamKind::User, false));
    assert(param_sigs(show_params@) =~= seq![("user"@, ParamKind::User, false)]);
    assert(param_sigs(Seq::<Param>::empty()) =~= Seq::<(Seq<char>, ParamKind, bool)>::empty());
    let mut bs: Vec<Branch> = Vec::new();
    bs.push(
        Branch::Sub(
            leaf(
                "show",
                "Display a user's current local time (or your own if no user is specified)",
                "time.show",
                show_params,
            ),
        ),
    );
    bs.push(
        Branch::Sub(
            leaf("setup", "Registers your timezone info to the bot", "time.setup", Vec::new()),
        ),
    );
    bs.push(
        Branch::Sub(
            leaf("delete", "Removes your timezone info from the bot", "time.delete", Vec::new()),
        ),
    );
    bs.push(Branch::Sub(leaf("utc", "Displays the current time in UTC", "time.utc", Vec::new())));
    bs.push(
        Branch::Sub(
            leaf(
                "dst-info",
                "Displays the different options for configuring Daylight Savings info",
                "time.dst-info",
                Vec::new(),
            ),
        ),
    );
    proof {
        reveal_strlit("show");
        reveal_strlit("setup");
        reveal_strlit("delete");
        reveal_strlit("utc");
        reveal_strlit("dst-info");
        let names = seq!["show"@, "setup"@, "delete"@, "utc"@, "dst-info"@];
        assert(branch_names(bs@) =~= names);
        assert("show"@[1] == 'h' && "setup"@[1] == 'e' && "delete"@[1] == 'e' && "utc"@[1] == 't' && "dst-info"@[1] == 's');
        assert("setup"@[0] != "delete"@[0]);
        assert(forall|i: int, j: int| 0 <= i < j < 5 ==> names[i][0] != names[j][0] || names[i][1] != names[j][1]);
        assert(distinct(branch_names(bs@)));
        assert(forall|i: int| 0 <= i < bs@.len() ==> (#[trigger] bs@[i]) is Sub);
        let b1 = bs@.take(1);
        let b2 = bs@.take(2);
        let b3 = bs@.take(3);
        let b4 = bs@.take(4);
        assert(b1.drop_last() =~= Seq::<Branch>::empty());
        assert(branches_keys(Seq::<Branch>::empty()) =~= Seq::<Seq<char>>::empty());
        assert(b2.drop_last() =~= b1);
        assert(b3.drop_last() =~= b2);
        assert(b4.drop_last() =~= b3);
        assert(bs@.drop_last() =~= b4);
        assert(branches_keys(b1) =~= seq!["time.show"@]);
        assert(branches_keys(b2) =~= seq!["time.show"@, "time.setup"@]);
        assert(branches_keys(b3) =~= seq!["time.show"@, "time.setup"@, "time.delete"@]);
        assert(branches_keys(b4) =~= seq!["time.show"@, "time.setup"@, "time.delete"@, "time.utc"@]);
        assert(branches_keys(bs@) =~= seq![
            "time.show"@,
            "time.setup"@,
            "time.delete"@,
            "time.utc"@,
            "time.dst-info"@,
        ]);
    }
    command("time", "N/A", false, CommandBody::Branches(bs))
}

/// The names of the commands that `build_schema` declares, in order.
pub open spec fn declared_names() -> Seq<Seq<char>> {
    seq!["say"@, "react"@, "emotes"@, "config"@, "time"@]
}

/// The handler keys of the leaves that `build_schema` declares, in order.
pub open spec fn declared_keys() -> Seq<Seq<char>> {
    seq![
        "say"@,
        "react"@,
        "emotes"@,
        "config.default-voice"@,
        "config.stream-embeds-channel"@,
        "time.show"@,
        "time.setup"@,
        "time.delete"@,
        "time.utc"@,
        "time.dst-info"@,
    ]
}

/// Declares the bot's command tree. Only `config` is restricted.
pub fn build_schema() -> (r: Schema)
    ensures
        r.well_formed(),
        root_names(r.roots@) == declared_names(),
        schema_keys(r.roots@) == declared_keys(),
        say_shape(r.roots@[0]),
        react_shape(r.roots@[1]),
        emotes_shape(r.roots@[2]),
        config_shape(r.roots@[3]),
        time_shape(r.roots@[4]),
        forall|i: int| 0 <= i < r.roots@.len() ==> (#[trigger] r.roots@[i]).restricted == (i == 3),
{
    let mut roots: Vec<CommandNode> = Vec::new();
    roots.push(say_command());
    roots.push(react_command());
    roots.push(emotes_command());
    roots.push(config_command());
    roots.push(time_command());
    proof {
        reveal_strlit("say");
        reveal_strlit("react");
        reveal_strlit("emotes");
        reveal_strlit("config");
        reveal_strlit("time");
        assert(root_names(roots@) =~= declared_names());
        let names = declared_names();
        assert("say"@[0] == 's' && "react"@[0] == 'r' && "emotes"@[0] == 'e' && "config"@[0] == 'c' && "time"@[0] == 't');
        assert(forall|i: int, j: int| 0 <= i < j < 5 ==> names[i][0] != names[j][0]);
        assert(distinct(root_names(roots@)));
        assert(forall|i: int| 0 <= i < roots@.len() ==> node_well_formed(#[trigger] roots@[i]));
        let r1 = roots@.take(1);
        let r2 = roots@.take(2);
        let r3 = roots@.take(3);
        let r4 = roots@.take(4);
        assert(r1.drop_last() =~= Seq::<CommandNode>::empty());
        assert(schema_keys(Seq::<CommandNode>::empty()) =~= Seq::<Seq<char>>::empty());
        assert(r2.drop_last() =~= r1);
        assert(r3.drop_last() =~= r2);
        assert(r4.drop_last() =~= r3);
        assert(roots@.drop_last() =~= r4);
        assert(schema_keys(r1) =~= declared_keys().take(1));
        assert(schema_keys(r2) =~= declared_keys().take(2));
        assert(schema_keys(r3) =~= declared_keys().take(3));
        assert(schema_keys(r4) =~= declared_keys().take(5));
        assert(schema_keys(roots@) =~= declared_keys());
    }
    Schema { roots }
}

} // verus!
