use slash_router::deploy::{
    clear_steps, deployment_target, parse_id, plan_deployment, ConfigError, DeployStep, DeploySync,
    DeploymentTarget, Mode, SyncAction, SyncConfig,
};
use slash_router::permissions::{
    allowed_user_ids, development_grants, guild_grants, production_grants, restricted_command_ids,
    GrantPass, GuildOwner, LiveCommand, PermissionError,
};
use slash_router::registry::build_schema;

fn live(name: &str, id: u64) -> LiveCommand {
    LiveCommand { name: String::from(name), id }
}

#[test]
fn development_clears_then_pushes_then_grants_bot_owner() {
    let config = SyncConfig {
        mode: Mode::Development,
        dev_guild_id: Some(555),
        bot_owner_id: Some(42),
        clear_list: Some(String::from("*,555")),
    };
    let steps = plan_deployment(&config);
    assert_eq!(
        steps,
        vec![
            DeployStep::Clear(DeploymentTarget::Global),
            DeployStep::Clear(DeploymentTarget::Guild(555)),
            DeployStep::PushSchema(DeploymentTarget::Guild(555)),
        ]
    );
    let schema = build_schema();
    let mut sync = DeploySync::new(&schema, steps);
    let mut order = Vec::new();
    loop {
        match sync.next_action() {
            SyncAction::Push(step) => {
                order.push(step);
                sync.record(true);
            }
            SyncAction::Done => break,
            SyncAction::Abort | SyncAction::Stop(_) => panic!("no push failed"),
        }
    }
    assert_eq!(order.len(), 3);
    assert_eq!(order[2], DeployStep::PushSchema(DeploymentTarget::Guild(555)));
    let registered = vec![live("say", 1), live("config", 900), live("time", 3)];
    let ids = restricted_command_ids(&schema, &registered);
    assert_eq!(ids, vec![900]);
    let grants = development_grants(&ids, 555, config.bot_owner_id).unwrap();
    assert_eq!(grants.len(), 1);
    assert_eq!(grants[0].command_id, 900);
    assert_eq!(grants[0].guild_id, 555);
    assert_eq!(grants[0].allowed_user_ids, vec![42]);
}

#[test]
fn production_grants_each_guild_its_owner() {
    let config = SyncConfig {
        mode: Mode::Production,
        dev_guild_id: None,
        bot_owner_id: None,
        clear_list: Some(String::from("*")),
    };
    assert_eq!(plan_deployment(&config), vec![DeployStep::PushSchema(DeploymentTarget::Global)]);
    let schema = build_schema();
    let ids = restricted_command_ids(&schema, &vec![live("config", 7001), live("say", 7002)]);
    assert_eq!(ids, vec![7001]);
    let guilds = vec![
        GuildOwner { guild_id: 11, owner_id: 100 },
        GuildOwner { guild_id: 22, owner_id: 200 },
    ];
    let batches = production_grants(&ids, &guilds, config.bot_owner_id);
    assert_eq!(batches.len(), 2);
    assert_eq!(batches[0].len(), 1);
    assert_eq!(batches[0][0].guild_id, 11);
    assert_eq!(batches[0][0].allowed_user_ids, vec![100]);
    assert_eq!(batches[1][0].guild_id, 22);
    assert_eq!(batches[1][0].allowed_user_ids, vec![200]);
    assert_eq!(batches[0][0].command_id, 7001);
    assert_eq!(batches[1][0].command_id, 7001);
}

#[test]
fn allowed_users_are_owner_and_bot_owner_once_each() {
    assert_eq!(allowed_user_ids(5, None), vec![5]);
    assert_eq!(allowed_user_ids(5, Some(9)), vec![9, 5]);
    assert_eq!(allowed_user_ids(5, Some(5)), vec![5]);
}

#[test]
fn grants_with_bot_owner_list_both() {
    let grants = guild_grants(&vec![1, 2], GuildOwner { guild_id: 3, owner_id: 4 }, Some(8));
    assert_eq!(grants.len(), 2);
    assert_eq!(grants[1].command_id, 2);
    assert_eq!(grants[1].allowed_user_ids, vec![8, 4]);
    assert!(guild_grants(&vec![], GuildOwner { guild_id: 3, owner_id: 4 }, None).is_empty());
}

#[test]
fn development_grants_need_bot_owner() {
    assert!(matches!(development_grants(&vec![1], 555, None), Err(PermissionError::MissingBotOwner)));
}

#[test]
fn development_without_guild_clears_then_stops() {
    let config = SyncConfig {
        mode: Mode::Development,
        dev_guild_id: None,
        bot_owner_id: Some(1),
        clear_list: Some(String::from("*,7")),
    };
    let steps = plan_deployment(&config);
    assert_eq!(
        steps,
        vec![
            DeployStep::Clear(DeploymentTarget::Global),
            DeployStep::Clear(DeploymentTarget::Guild(7)),
            DeployStep::Stop(ConfigError::MissingDevGuild),
        ]
    );
    assert_eq!(deployment_target(&config), Err(ConfigError::MissingDevGuild));
    let mut sync = DeploySync::new(&build_schema(), steps);
    assert_eq!(sync.next_action(), SyncAction::Push(DeployStep::Clear(DeploymentTarget::Global)));
    sync.record(true);
    assert_eq!(sync.next_action(), SyncAction::Push(DeployStep::Clear(DeploymentTarget::Guild(7))));
    sync.record(true);
    assert_eq!(sync.next_action(), SyncAction::Stop(ConfigError::MissingDevGuild));
    let no_list = SyncConfig { mode: Mode::Development, dev_guild_id: None, bot_owner_id: None, clear_list: None };
    assert_eq!(plan_deployment(&no_list), vec![DeployStep::Stop(ConfigError::MissingDevGuild)]);
}

#[test]
fn bad_clear_entry_stops_after_earlier_clears() {
    let config = SyncConfig {
        mode: Mode::Development,
        dev_guild_id: Some(9),
        bot_owner_id: None,
        clear_list: Some(String::from("*,abc,5")),
    };
    assert_eq!(
        plan_deployment(&config),
        vec![DeployStep::Clear(DeploymentTarget::Global), DeployStep::Stop(ConfigError::InvalidClearScope)]
    );
}

#[test]
fn failed_push_aborts_before_serving() {
    let schema = build_schema();
    let steps = vec![
        DeployStep::Clear(DeploymentTarget::Global),
        DeployStep::PushSchema(DeploymentTarget::Guild(1)),
    ];
    let mut sync = DeploySync::new(&schema, steps);
    assert_eq!(sync.next_action(), SyncAction::Push(DeployStep::Clear(DeploymentTarget::Global)));
    sync.record(false);
    assert_eq!(sync.next_action(), SyncAction::Abort);
    assert_eq!(sync.completed, 0);
}

#[test]
fn repeated_schema_push_keeps_one_target() {
    let schema = build_schema();
    let steps = vec![
        DeployStep::PushSchema(DeploymentTarget::Global),
        DeployStep::PushSchema(DeploymentTarget::Global),
    ];
    let mut sync = DeploySync::new(&schema, steps);
    sync.record(true);
    sync.record(true);
    assert_eq!(sync.next_action(), SyncAction::Done);
    assert_eq!(sync.completed, 2);
}

#[test]
fn clear_list_parsing() {
    check_clears("*", vec![DeployStep::Clear(DeploymentTarget::Global)]);
    check_clears(
        "1,2,*",
        vec![
            DeployStep::Clear(DeploymentTarget::Guild(1)),
            DeployStep::Clear(DeploymentTarget::Guild(2)),
            DeployStep::Clear(DeploymentTarget::Global),
        ],
    );
    check_clears("+5", vec![DeployStep::Clear(DeploymentTarget::Guild(5))]);
    check_clears("", vec![DeployStep::Stop(ConfigError::InvalidClearScope)]);
    check_clears(
        "*,,5",
        vec![DeployStep::Clear(DeploymentTarget::Global), DeployStep::Stop(ConfigError::InvalidClearScope)],
    );
    check_clears("**", vec![DeployStep::Stop(ConfigError::InvalidClearScope)]);
    check_clears(
        "12,abc",
        vec![DeployStep::Clear(DeploymentTarget::Guild(12)), DeployStep::Stop(ConfigError::InvalidClearScope)],
    );
}

fn check_clears(list: &str, expected: Vec<DeployStep>) {
    assert_eq!(clear_steps(list), expected);
}

#[test]
fn id_parsing_limits() {
    assert_eq!(parse_id("0"), Some(0));
    assert_eq!(parse_id("555"), Some(555));
    assert_eq!(parse_id("18446744073709551615"), Some(u64::MAX));
    assert_eq!(parse_id("18446744073709551616"), None);
    assert_eq!(parse_id(""), None);
    assert_eq!(parse_id("12a"), None);
    assert_eq!(parse_id("-1"), None);
    assert_eq!(parse_id("+12"), Some(12));
    assert_eq!(parse_id("+"), None);
    assert_eq!(parse_id("++1"), None);
}

#[test]
fn failed_grant_is_isolated_to_its_guild() {
    let guilds = vec![
        GuildOwner { guild_id: 11, owner_id: 100 },
        GuildOwner { guild_id: 22, owner_id: 200 },
        GuildOwner { guild_id: 33, owner_id: 300 },
    ];
    let grants: Vec<_> = production_grants(&vec![7], &guilds, Some(1)).into_iter().flatten().collect();
    let mut pass = GrantPass::new(grants);
    let mut pushed = Vec::new();
    while let Some(i) = pass.next_grant() {
        pushed.push(pass.grants[i].guild_id);
        let ok = pass.grants[i].guild_id != 22;
        pass.record(ok);
    }
    assert_eq!(pushed, vec![11, 22, 33]);
    assert_eq!(pass.failed_guilds, vec![22]);
    assert_eq!(pass.grants[2].allowed_user_ids, vec![1, 300]);
}
