use slash_router::dispatch::{
    bind_handlers, BindingError,
    dispatch, handler_failure_reply, invalid_command_reply, reply_after_handler, Dispatch,
    DispatchTable, ResponseKind, HANDLER_FAILURE_TEXT, INVALID_COMMAND_TEXT,
};
use slash_router::registry::build_schema;
use slash_router::resolve::{
    resolve, OptionKind, OptionValue, RawInteraction, RawOption, ResolvedInvocation, RoutingError,
};
use slash_router::schema::{find_root, Branch, CommandBody, CommandNode, Leaf, Schema};

fn value(name: &str, v: OptionValue) -> RawOption {
    RawOption { name: String::from(name), kind: OptionKind::Value, value: Some(v), options: vec![] }
}

fn sub(name: &str, options: Vec<RawOption>) -> RawOption {
    RawOption { name: String::from(name), kind: OptionKind::Subcommand, value: None, options }
}

fn group(name: &str, options: Vec<RawOption>) -> RawOption {
    RawOption { name: String::from(name), kind: OptionKind::SubcommandGroup, value: None, options }
}

fn interaction(name: &str, options: Vec<RawOption>) -> RawInteraction {
    RawInteraction { command_name: String::from(name), options, guild_id: Some(1), invoker_id: 2 }
}

fn leaf(name: &str, key: &str) -> Leaf {
    Leaf {
        name: String::from(name),
        description: String::from("d"),
        handler_key: String::from(key),
        params: vec![],
    }
}

/// A tree with a group: `admin` has subcommand `ping` and group `role` with `add` and `remove`.
fn schema_with_group() -> Schema {
    let admin = CommandNode {
        name: String::from("admin"),
        description: String::from("d"),
        restricted: true,
        body: CommandBody::Branches(vec![
            Branch::Sub(leaf("ping", "admin.ping")),
            Branch::Group {
                name: String::from("role"),
                description: String::from("d"),
                subs: vec![leaf("add", "admin.role.add"), leaf("remove", "admin.role.remove")],
            },
        ]),
    };
    let hello = CommandNode {
        name: String::from("hello"),
        description: String::from("d"),
        restricted: false,
        body: CommandBody::Handler(leaf("hello", "hello")),
    };
    Schema { roots: vec![admin, hello] }
}

fn ok(r: Result<ResolvedInvocation, RoutingError>) -> ResolvedInvocation {
    match r {
        Ok(v) => v,
        Err(e) => panic!("expected a resolution, got {:?}", e),
    }
}

fn err(r: Result<ResolvedInvocation, RoutingError>) -> RoutingError {
    match r {
        Ok(v) => panic!("expected an error, got {}", v.handler_key),
        Err(e) => e,
    }
}

#[test]
fn config_default_voice_resolves_one_level_down() {
    let schema = build_schema();
    let raw = interaction(
        "config",
        vec![sub(
            "default-voice",
            vec![value("channel", OptionValue::Channel(77)), value("name", OptionValue::Text(String::from("Lobby")))],
        )],
    );
    let r = ok(resolve(&schema, raw));
    assert_eq!(r.subcommand_path, vec![String::from("default-voice")]);
    assert_eq!(r.handler_key, String::from("config.default-voice"));
    assert_eq!(r.leaf_options.len(), 2);
    assert_eq!(r.leaf_options[0].name, String::from("channel"));
    assert!(matches!(r.leaf_options[0].value, Some(OptionValue::Channel(77))));
    assert_eq!(r.leaf_options[1].name, String::from("name"));
}

#[test]
fn bogus_command_gets_one_invalid_reply() {
    let schema = build_schema();
    let r = resolve(&schema, interaction("bogus", vec![]));
    assert!(matches!(r, Err(RoutingError::UnknownCommand)));
    let table = DispatchTable { handler_keys: vec![String::from("say"), String::from("bogus")] };
    match dispatch(&table, r) {
        Dispatch::Respond(reply) => {
            assert_eq!(reply.kind, ResponseKind::ChannelMessage);
            assert!(reply.ephemeral);
            assert_eq!(reply.content, String::from(INVALID_COMMAND_TEXT));
        }
        Dispatch::Invoke { .. } => panic!("no handler may run for an unknown command"),
    }
}

#[test]
fn leaf_command_passes_options_through() {
    let schema = build_schema();
    let raw = interaction("say", vec![value("message", OptionValue::Text(String::from("hi"))), value("extra", OptionValue::Boolean(true))]);
    let r = ok(resolve(&schema, raw));
    assert_eq!(r.handler_key, String::from("say"));
    assert!(r.subcommand_path.is_empty());
    assert_eq!(r.leaf_options.len(), 2);
    assert_eq!(r.leaf_options[1].name, String::from("extra"));
}

#[test]
fn path_length_matches_leaf_depth() {
    let schema = schema_with_group();
    let top = ok(resolve(&schema, interaction("hello", vec![])));
    assert_eq!(top.subcommand_path.len(), 0);
    assert_eq!(top.handler_key, String::from("hello"));
    let one = ok(resolve(&schema, interaction("admin", vec![sub("ping", vec![])])));
    assert_eq!(one.subcommand_path, vec![String::from("ping")]);
    assert_eq!(one.handler_key, String::from("admin.ping"));
    let two = ok(resolve(
        &schema,
        interaction("admin", vec![group("role", vec![sub("remove", vec![value("who", OptionValue::User(9))])])]),
    ));
    assert_eq!(two.subcommand_path, vec![String::from("role"), String::from("remove")]);
    assert_eq!(two.handler_key, String::from("admin.role.remove"));
    assert_eq!(two.leaf_options.len(), 1);
    assert!(matches!(two.leaf_options[0].value, Some(OptionValue::User(9))));
}

#[test]
fn missing_subcommand_is_reported() {
    let schema = build_schema();
    assert_eq!(err(resolve(&schema, interaction("config", vec![]))), RoutingError::MissingSubcommand);
}

#[test]
fn malformed_option_trees_are_reported() {
    let schema = schema_with_group();
    // a value where a subcommand belongs
    assert_eq!(
        err(resolve(&schema, interaction("admin", vec![value("ping", OptionValue::Integer(1))]))),
        RoutingError::MalformedOptionTree
    );
    // a group that carries two options
    assert_eq!(
        err(resolve(&schema, interaction("admin", vec![group("role", vec![sub("add", vec![]), sub("remove", vec![])])]))),
        RoutingError::MalformedOptionTree
    );
    // a group whose option is not a subcommand
    assert_eq!(
        err(resolve(&schema, interaction("admin", vec![group("role", vec![value("add", OptionValue::Integer(1))])]))),
        RoutingError::MalformedOptionTree
    );
    // a subcommand the schema does not declare
    assert_eq!(
        err(resolve(&schema, interaction("admin", vec![sub("pong", vec![])]))),
        RoutingError::MalformedOptionTree
    );
    // a group named as if it were a subcommand
    assert_eq!(
        err(resolve(&schema, interaction("admin", vec![sub("role", vec![])]))),
        RoutingError::MalformedOptionTree
    );
    // a subcommand named as if it were a group
    assert_eq!(
        err(resolve(&schema, interaction("admin", vec![group("ping", vec![sub("add", vec![])])]))),
        RoutingError::MalformedOptionTree
    );
}

#[test]
fn bound_leaf_is_invoked_once() {
    let schema = build_schema();
    let table = DispatchTable {
        handler_keys: vec![String::from("say"), String::from("config.default-voice"), String::from("time.utc")],
    };
    let r = resolve(&schema, interaction("time", vec![sub("utc", vec![])]));
    match dispatch(&table, r) {
        Dispatch::Invoke { slot, invocation } => {
            assert_eq!(slot, 2);
            assert_eq!(invocation.handler_key, String::from("time.utc"));
        }
        Dispatch::Respond(_) => panic!("a bound leaf must run its handler"),
    }
}

#[test]
fn unbound_leaf_gets_invalid_reply() {
    let schema = build_schema();
    let table = DispatchTable { handler_keys: vec![String::from("say")] };
    let r = resolve(&schema, interaction("emotes", vec![]));
    match dispatch(&table, r) {
        Dispatch::Respond(reply) => assert_eq!(reply.content, String::from(INVALID_COMMAND_TEXT)),
        Dispatch::Invoke { .. } => panic!("no handler is bound"),
    }
}

#[test]
fn failed_handler_still_gets_a_reply() {
    let r = reply_after_handler(Err(()));
    assert_eq!(r.content, String::from(HANDLER_FAILURE_TEXT));
    assert!(r.ephemeral);
    let own = invalid_command_reply();
    let kept = reply_after_handler(Ok(own));
    assert_eq!(kept.content, String::from(INVALID_COMMAND_TEXT));
    assert_eq!(handler_failure_reply().kind, ResponseKind::ChannelMessage);
}

#[test]
fn declared_schema_has_expected_roots() {
    let schema = build_schema();
    let names: Vec<String> = schema.roots.iter().map(|n| n.name.clone()).collect();
    assert_eq!(names, vec!["say", "react", "emotes", "config", "time"]);
    let restricted: Vec<bool> = schema.roots.iter().map(|n| n.restricted).collect();
    assert_eq!(restricted, vec![false, false, false, true, false]);
    assert_eq!(find_root(&schema.roots, &String::from("time")), Some(4));
    assert_eq!(find_root(&schema.roots, &String::from("nope")), None);
}

#[test]
fn leaf_keys_follow_declaration_order() {
    let keys = slash_router::schema::leaf_keys(&build_schema());
    assert_eq!(
        keys,
        vec![
            "say", "react", "emotes", "config.default-voice", "config.stream-embeds-channel",
            "time.show", "time.setup", "time.delete", "time.utc", "time.dst-info"
        ]
    );
    let grouped = slash_router::schema::leaf_keys(&schema_with_group());
    assert_eq!(grouped, vec!["admin.ping", "admin.role.add", "admin.role.remove", "hello"]);
}

#[test]
fn binding_requires_every_leaf_once() {
    let schema = schema_with_group();
    let all: Vec<String> = vec!["hello", "admin.role.remove", "admin.ping", "admin.role.add", "spare"]
        .into_iter()
        .map(String::from)
        .collect();
    let table = bind_handlers(&schema, all).ok().unwrap();
    assert_eq!(table.handler_keys.len(), 5);
    let missing: Vec<String> = vec!["hello", "admin.ping", "admin.role.add"].into_iter().map(String::from).collect();
    match bind_handlers(&schema, missing) {
        Err(BindingError::Unbound(k)) => assert_eq!(k, "admin.role.remove"),
        _ => panic!("a leaf has no handler"),
    }
    let twice: Vec<String> = vec!["hello", "admin.ping", "hello"].into_iter().map(String::from).collect();
    match bind_handlers(&schema, twice) {
        Err(BindingError::DuplicateBinding(k)) => assert_eq!(k, "hello"),
        _ => panic!("a key is bound twice"),
    }
}
