use boilchangeip::config::env_file::{
    parse_config_env_content, save_app_config_content, shell_single_quote,
};
use boilchangeip::config::setup::{
    bot_mention, build_tg_config_content, config_place, generate_pairing_code, pairing_code_from, pairing_code_of_draw,
    pairing_expires_at, setup_after_check, setup_after_keep, setup_begin, setup_place,
    stored_servers_json, ConfigPlace, SetupAction, TgSetupConfig,
};
use boilchangeip::config::{
    validate_server_id, validate_servers, validate_timer_cron, AppConfig, ConfigError,
    PairingCode, ResolvedSelection, SecretToken, ServerConfig, ServerSelection,
    ServerTimerConfig,
};
use serde_json::Value;

const ONE_SERVER: &str = r#"[
        {
            "id": "primary",
            "name": "Primary VPS",
            "token": "secret-token-primary",
            "enabled": true
        }
    ]"#;

const TWO_ENABLED_SERVERS: &str = r#"[
        {
            "id": "hk-01",
            "name": "Hong Kong 01",
            "token": "secret-token-hk",
            "enabled": true
        },
        {
            "id": "jp_02",
            "name": "Japan 02",
            "token": "secret-token-jp",
            "enabled": true
        }
    ]"#;

const MIXED_SERVERS: &str = r#"[
        {
            "id": "hk-01",
            "name": "Hong Kong 01",
            "token": "secret-token-hk",
            "enabled": true
        },
        {
            "id": "disabled",
            "name": "Disabled VPS",
            "token": "secret-token-disabled",
            "enabled": false
        },
        {
            "id": "jp_02",
            "name": "Japan 02",
            "token": "secret-token-jp",
            "enabled": true
        }
    ]"#;

fn text(v: &Value, field: &str) -> Option<String> {
    v[field].as_str().map(str::to_string)
}

fn timer_of(v: &Value) -> Option<ServerTimerConfig> {
    Some(ServerTimerConfig {
        enabled: v["enabled"].as_bool()?,
        cron: text(v, "cron"),
    })
}

fn server_of(v: &Value) -> Option<ServerConfig> {
    Some(ServerConfig {
        id: text(v, "id")?,
        name: text(v, "name")?,
        token: SecretToken::from_stored(text(v, "token")?),
        enabled: v["enabled"].as_bool()?,
        address: text(v, "address"),
        country: text(v, "country"),
        flag: text(v, "flag"),
        resolved_ip: text(v, "resolved_ip"),
        timer: if v["timer"].is_null() {
            None
        } else {
            Some(timer_of(&v["timer"])?)
        },
    })
}

fn decode_servers(json: &str) -> Option<Vec<ServerConfig>> {
    let v: Value = serde_json::from_str(json).ok()?;
    v.as_array()?.iter().map(server_of).collect()
}

fn decode_timer(json: &str) -> Option<ServerTimerConfig> {
    timer_of(&serde_json::from_str(json).ok()?)
}

fn encode_timer(t: &ServerTimerConfig) -> Value {
    let mut m = serde_json::Map::new();
    m.insert("enabled".to_string(), Value::from(t.enabled));
    m.insert(
        "cron".to_string(),
        t.cron.clone().map(Value::from).unwrap_or(Value::Null),
    );
    Value::Object(m)
}

fn encode_servers(servers: &[ServerConfig]) -> String {
    let list: Vec<Value> = servers
        .iter()
        .map(|s| {
            let mut m = serde_json::Map::new();
            m.insert("id".to_string(), Value::from(s.id.clone()));
            m.insert("name".to_string(), Value::from(s.name.clone()));
            m.insert("token".to_string(), Value::from(s.token.expose_secret()));
            m.insert("enabled".to_string(), Value::from(s.enabled));
            for (k, v) in [
                ("address", &s.address),
                ("country", &s.country),
                ("flag", &s.flag),
                ("resolved_ip", &s.resolved_ip),
            ] {
                if let Some(v) = v {
                    m.insert(k.to_string(), Value::from(v.clone()));
                }
            }
            if let Some(t) = &s.timer {
                m.insert("timer".to_string(), encode_timer(t));
            }
            Value::Object(m)
        })
        .collect();
    serde_json::to_string_pretty(&Value::Array(list)).unwrap()
}

fn from_vars(vars: &[(&str, &str)]) -> Result<AppConfig, ConfigError> {
    let owned: Vec<(String, String)> = vars
        .iter()
        .map(|(k, v)| (k.to_string(), v.to_string()))
        .collect();
    from_owned(&owned)
}

fn from_owned(vars: &[(String, String)]) -> Result<AppConfig, ConfigError> {
    let find = |key: &str| vars.iter().find(|(k, _)| k == key).map(|(_, v)| v.as_str());
    let servers = find("BOIL_SERVERS").and_then(decode_servers);
    let timer = find("BOIL_GLOBAL_TIMER").and_then(decode_timer);
    AppConfig::from_env_vars(vars, servers, timer)
}

fn app_from_servers_json(servers_json: &str) -> Result<AppConfig, ConfigError> {
    from_vars(&[("BOIL_SERVERS", servers_json)])
}

fn app(servers_json: &str) -> AppConfig {
    match app_from_servers_json(servers_json) {
        Ok(app) => app,
        Err(e) => panic!("{}", e.message()),
    }
}

fn refused<T>(r: Result<T, ConfigError>) -> String {
    match r {
        Ok(_) => panic!("expected an error"),
        Err(e) => e.message(),
    }
}

fn selected_one_id(selection: ResolvedSelection<'_>) -> String {
    match selection {
        ResolvedSelection::One(server) => server.id.clone(),
        ResolvedSelection::All(_) => panic!("expected one selected server"),
    }
}

fn selected<'a>(app: &'a AppConfig, selection: ServerSelection<'_>) -> ResolvedSelection<'a> {
    match app.resolve_servers(selection) {
        Ok(s) => s,
        Err(e) => panic!("{}", e.message()),
    }
}

fn setup(existing: &str, token: &str) -> Result<String, ConfigError> {
    let code = match PairingCode::new("TEST-CODE".to_string()) {
        Ok(c) => c,
        Err(_) => panic!("a code"),
    };
    let servers = stored_servers_json(existing).ok().and_then(|j| decode_servers(&j));
    let json = encode_servers(servers.as_deref().unwrap_or(&[]));
    build_tg_config_content(
        existing,
        &servers,
        &json,
        TgSetupConfig {
            token,
            pair_code: &code,
            pair_expires_at: 1_782_732_942,
        },
    )
}

fn setup_text(existing: &str, token: &str) -> String {
    match setup(existing, token) {
        Ok(t) => t,
        Err(e) => panic!("{}", e.message()),
    }
}

fn saved(config: &AppConfig, existing: &str) -> Result<String, ConfigError> {
    let servers = encode_servers(&config.servers);
    let timer = config
        .global_timer
        .as_ref()
        .map(|t| serde_json::to_string_pretty(&encode_timer(t)).unwrap());
    save_app_config_content(config, existing, &servers, timer.as_deref())
}

fn saved_text(config: &AppConfig, existing: &str) -> String {
    match saved(config, existing) {
        Ok(t) => t,
        Err(e) => panic!("{}", e.message()),
    }
}

#[test]
fn reconfigure_tg_no_duplicate() {
    let existing = "BOIL_SERVERS='[]'\nTG_TOKEN='oldtoken'\nTG_CHAT_ID='111'\n";
    let out = setup_text(existing, "newtoken");

    assert_eq!(out.matches("TG_TOKEN=").count(), 1, "TG_TOKEN 应只出现一次");
    assert_eq!(
        out.matches("TG_CHAT_ID=").count(),
        0,
        "setup 不应直接写入 TG_CHAT_ID"
    );
    assert_eq!(out.matches("TG_PAIR_CODE=").count(), 1);
    assert_eq!(out.matches("TG_PAIR_EXPIRES_AT=").count(), 1);
    assert!(out.contains("TG_TOKEN='newtoken'"));
    assert!(out.contains("TG_PAIR_CODE='TEST-CODE'"));
    assert!(out.contains("TG_PAIR_EXPIRES_AT=1782732942"));
    assert!(!out.contains("oldtoken"), "旧 token 不应残留");
    assert!(out.contains("BOIL_SERVERS="));
}

#[test]
fn setup_preserves_existing_servers() {
    let existing = format!("BOIL_SERVERS={}\n", shell_single_quote(ONE_SERVER));
    let out = setup_text(&existing, "newtoken");

    assert!(out.contains("Primary VPS"));
    assert!(out.contains("secret-token-primary"));
    assert!(out.contains("TG_TOKEN='newtoken'"));
    assert_eq!(out.matches("TG_TOKEN=").count(), 1);
}

#[test]
fn setup_without_existing_servers_writes_empty_server_list() {
    let existing = "BOIL_SERVERS='[]'\nCHANGE_CRON='0 */6 * * *'\n";
    let out = setup_text(existing, "t");

    assert!(out.contains("BOIL_SERVERS='[]'"));
    assert!(!out.contains("CHANGE_CRON="));
}

#[test]
fn escapes_single_quote_in_tg_token() {
    let out = setup_text("", "to'ken");
    assert!(out.contains(r"to'\''ken"));
}

#[test]
fn one_enabled_server_can_be_selected_implicitly() {
    let app = app(ONE_SERVER);
    assert_eq!(selected_one_id(selected(&app, ServerSelection::Unspecified)), "primary");
}

#[test]
fn multiple_enabled_servers_require_explicit_selection() {
    let app = app(TWO_ENABLED_SERVERS);
    let msg = refused(app.resolve_servers(ServerSelection::Unspecified));
    assert!(msg.contains("多台已启用 VPS"));
    assert!(msg.contains("--all"));
    assert!(!msg.contains("secret-token-hk"));
    assert!(!msg.contains("secret-token-jp"));
}

#[test]
fn explicit_server_id_selects_matching_enabled_server() {
    let app = app(TWO_ENABLED_SERVERS);
    assert_eq!(selected_one_id(selected(&app, ServerSelection::Id("jp_02"))), "jp_02");
}

#[test]
fn unknown_server_id_is_rejected() {
    let app = app(TWO_ENABLED_SERVERS);
    let msg = refused(app.resolve_servers(ServerSelection::Id("missing")));
    assert!(msg.contains("未找到 server id: missing"));
    assert!(!msg.contains("secret-token"));
}

#[test]
fn disabled_server_id_is_rejected() {
    let app = app(MIXED_SERVERS);
    let msg = refused(app.resolve_servers(ServerSelection::Id("disabled")));
    assert!(msg.contains("已禁用"));
    assert!(!msg.contains("secret-token-disabled"));
}

#[test]
fn all_selection_returns_only_enabled_servers() {
    let app = app(MIXED_SERVERS);
    let ResolvedSelection::All(servers) = selected(&app, ServerSelection::All) else {
        panic!("expected all selected servers");
    };
    let ids: Vec<&str> = servers.iter().map(|server| server.id.as_str()).collect();
    assert_eq!(ids, vec!["hk-01", "jp_02"]);
}

#[test]
fn all_selection_preserves_config_order() {
    let servers = r#"[
            {
                "id": "third",
                "name": "Third",
                "token": "secret-token-third",
                "enabled": true
            },
            {
                "id": "first",
                "name": "First",
                "token": "secret-token-first",
                "enabled": true
            },
            {
                "id": "second",
                "name": "Second",
                "token": "secret-token-second",
                "enabled": true
            }
        ]"#;
    let app = app(servers);
    let ResolvedSelection::All(servers) = selected(&app, ServerSelection::All) else {
        panic!("expected all selected servers");
    };
    let ids: Vec<&str> = servers.iter().map(|server| server.id.as_str()).collect();
    assert_eq!(ids, vec!["third", "first", "second"]);
}

#[test]
fn duplicate_server_id_fails_validation() {
    let servers = r#"[
            {
                "id": "dup",
                "name": "One",
                "token": "secret-token-one",
                "enabled": true
            },
            {
                "id": "dup",
                "name": "Two",
                "token": "secret-token-two",
                "enabled": true
            }
        ]"#;
    let msg = refused(app_from_servers_json(servers));
    assert!(msg.contains("server id 'dup' 重复"));
    assert!(!msg.contains("secret-token-one"));
    assert!(!msg.contains("secret-token-two"));
}

#[test]
fn illegal_server_id_fails_validation() {
    let servers = r#"[
            {
                "id": "bad.id",
                "name": "Bad",
                "token": "secret-token-bad",
                "enabled": true
            }
        ]"#;
    let msg = refused(app_from_servers_json(servers));
    assert!(msg.contains("含非法字符"));
    assert!(!msg.contains("secret-token-bad"));
}

#[test]
fn debug_and_errors_do_not_include_server_tokens() {
    let app = app(TWO_ENABLED_SERVERS);
    let debug = app.debug_text();
    assert!(debug.contains("<redacted>"));
    assert!(!debug.contains("secret-token-hk"));
    assert!(!debug.contains("secret-token-jp"));

    let error = refused(app.resolve_servers(ServerSelection::Unspecified));
    assert!(!error.contains("secret-token-hk"));
    assert!(!error.contains("secret-token-jp"));
}

#[test]
fn legacy_config_gets_migration_prompt_without_using_credentials() {
    let app = match from_vars(&[
        ("BOIL_ACCOUNT", "legacy@example.com"),
        ("BOIL_PASSWORD", "legacy-password"),
        ("BOIL_ROUTER_ID", "182"),
        ("BOIL_INTERFACE", "adsl3"),
    ]) {
        Ok(app) => app,
        Err(e) => panic!("{}", e.message()),
    };
    assert!(app.servers.is_empty());

    let msg = app.migration_notice.unwrap();
    assert!(msg.contains("旧版 Boil 配置"));
    assert!(msg.contains("当前版本已迁移到新版 Token API"));
    assert!(msg.contains("BOIL_SERVERS"));
    assert!(msg.contains("不会自动使用旧凭据获取 token"));
    assert!(!msg.contains("legacy@example.com"));
    assert!(!msg.contains("legacy-password"));
    assert!(!msg.contains("182"));
    assert!(!msg.contains("adsl3"));
}

#[test]
fn old_boil_servers_config_without_global_timer_still_loads() {
    let app = app(ONE_SERVER);
    assert_eq!(app.servers.len(), 1);
    assert!(app.global_timer.is_none());
}

#[test]
fn multiline_config_keeps_tg_fields_after_boil_servers() {
    let content = format!(
        "BOIL_SERVERS={}\nTG_TOKEN='telegram-token'\nTG_CHAT_ID='12345'\n",
        shell_single_quote(ONE_SERVER)
    );
    let vars = match parse_config_env_content(&content) {
        Ok(v) => v,
        Err(e) => panic!("{}", e.message()),
    };
    let app = match from_owned(&vars) {
        Ok(app) => app,
        Err(e) => panic!("{}", e.message()),
    };

    assert_eq!(app.servers.len(), 1);
    assert_eq!(app.tg_token.as_deref(), Some("telegram-token"));
    assert_eq!(app.tg_chat_id.as_deref(), Some("12345"));
}

#[test]
fn empty_global_timer_is_configuration_error() {
    let error = refused(from_vars(&[
        ("BOIL_SERVERS", ONE_SERVER),
        ("BOIL_GLOBAL_TIMER", ""),
    ]));
    assert!(error.contains("BOIL_GLOBAL_TIMER 不能为空"));
}

#[test]
fn invalid_global_timer_json_is_configuration_error() {
    let error = refused(from_vars(&[
        ("BOIL_SERVERS", ONE_SERVER),
        ("BOIL_GLOBAL_TIMER", "not-json"),
    ]));
    assert!(error.contains("BOIL_GLOBAL_TIMER JSON 解析失败"));
}

#[test]
fn invalid_timer_cron_is_configuration_error() {
    let servers = r#"[
            {
                "id": "primary",
                "name": "Primary VPS",
                "token": "secret-token-primary",
                "enabled": true,
                "timer": {
                    "enabled": true,
                    "cron": "bad"
                }
            }
        ]"#;
    let error = refused(app_from_servers_json(servers));
    assert!(error.contains("timer 配置无效"));
    assert!(!error.contains("secret-token-primary"));
}

// Saving.

#[test]
fn saving_replaces_only_the_servers_line() {
    let mut app = app(ONE_SERVER);
    app.global_timer = Some(ServerTimerConfig {
        enabled: true,
        cron: Some("45 4 * * *".to_string()),
    });
    app.servers[0].timer = Some(ServerTimerConfig {
        enabled: true,
        cron: Some("30 3 * * *".to_string()),
    });
    let text = saved_text(&app, "TG_TOKEN='keep'\nBOIL_SERVERS='[]'\nTG_CHAT_ID='123'\n");

    assert!(text.contains("BOIL_SERVERS='"));
    assert!(text.contains("BOIL_GLOBAL_TIMER='"));
    assert!(text.contains("\"timer\""));
    assert!(text.contains("30 3 * * *"));
    assert!(text.contains("45 4 * * *"));
    assert!(text.contains("TG_TOKEN='keep'"));
    assert!(text.contains("TG_CHAT_ID='123'"));
}

#[test]
fn saving_removes_a_servers_block_of_many_lines() {
    let original = format!(
        "BOIL_SERVERS={}\nTG_TOKEN='keep'\nTG_CHAT_ID='123'\n",
        shell_single_quote(TWO_ENABLED_SERVERS)
    );
    let text = saved_text(&app(ONE_SERVER), &original);

    assert_eq!(text.matches("BOIL_SERVERS=").count(), 1);
    assert!(!text.contains("Japan 02"));
    assert!(text.contains("TG_TOKEN='keep'"));
    assert!(text.contains("TG_CHAT_ID='123'"));
}

#[test]
fn an_invalid_configuration_is_not_saved() {
    let mut app = app(ONE_SERVER);
    app.global_timer = Some(ServerTimerConfig {
        enabled: true,
        cron: Some("bad".to_string()),
    });
    let error = refused(saved(&app, "TG_TOKEN='keep'\nBOIL_SERVERS='[]'\n"));
    assert!(error.contains("BOIL_GLOBAL_TIMER 配置无效"));
}

#[test]
fn saving_keeps_comments_and_other_variables_in_order() {
    let config = app(TWO_ENABLED_SERVERS);
    let existing = "# first\nA=1\nBOIL_SERVERS='[\n]'\n  # second\n\nB='x\ny'\nTG_PAIR_CODE=old\nC=3\n";
    let text = saved_text(&config, existing);
    let kept: Vec<&str> = text
        .lines()
        .filter(|line| existing.lines().any(|old| old == *line))
        .filter(|line| *line != "]'" && !line.starts_with("BOIL_SERVERS"))
        .collect();
    assert_eq!(kept, vec!["# first", "A=1", "  # second", "", "B='x", "y'", "C=3"]);
}

#[test]
fn saved_text_is_exact() {
    let mut app = app(ONE_SERVER);
    app.servers.clear();
    app.tg_chat_id = Some("7".to_string());
    app.tg_pair_expires_at = Some(5);
    assert_eq!(
        saved_text(&app, "# note\nTG_PAIR_CODE='OLD'\nTG_PAIR_EXPIRES_AT=1\n"),
        "BOIL_SERVERS='[]'\n# note\nTG_PAIR_EXPIRES_AT=5\nTG_CHAT_ID='7'\n"
    );
    assert_eq!(saved_text(&app, ""), "BOIL_SERVERS='[]'\nTG_CHAT_ID='7'\nTG_PAIR_EXPIRES_AT=5\n");
}

#[test]
fn a_saved_configuration_is_read_back() {
    let mut app = app(TWO_ENABLED_SERVERS);
    app.servers[1].name = "It's here".to_string();
    app.global_timer = Some(ServerTimerConfig {
        enabled: true,
        cron: Some("45 4 * * *".to_string()),
    });
    app.tg_chat_id = Some("-100123".to_string());
    app.tg_pair_code = PairingCode::new("ab-cd".to_string()).ok();
    app.tg_pair_expires_at = Some(99);
    let existing = format!(
        "# kept\nBOIL_SERVERS={}\nTG_TOKEN='token'\nTG_PAIR_CODE='X'\n",
        shell_single_quote(ONE_SERVER)
    );
    app.tg_token = Some("token".to_string());

    let text = saved_text(&app, &existing);
    let vars = match parse_config_env_content(&text) {
        Ok(v) => v,
        Err(e) => panic!("{}", e.message()),
    };
    match from_owned(&vars) {
        Ok(back) => assert!(back == app),
        Err(e) => panic!("{}", e.message()),
    }
}

fn read(text: &str) -> Vec<(String, String)> {
    match parse_config_env_content(text) {
        Ok(v) => v,
        Err(e) => panic!("{}", e.message()),
    }
}

fn value_in(text: &str, name: &str) -> Option<String> {
    read(text).into_iter().find(|v| v.0 == name).map(|v| v.1)
}

#[test]
fn a_new_line_does_not_cut_the_value_of_another_variable() {
    let mut app = app(ONE_SERVER);
    app.servers.clear();
    app.global_timer = Some(ServerTimerConfig {
        enabled: true,
        cron: Some("30 3 * * *".to_string()),
    });
    let text = saved_text(&app, "K='a\nb'\nBOIL_SERVERS='[]'\n");
    assert!(text.starts_with("K='a\nb'\nBOIL_GLOBAL_TIMER="));
    assert!(text.ends_with("\nBOIL_SERVERS='[]'\n"));
    assert_eq!(value_in(&text, "K"), Some("a\nb".to_string()));
    assert_eq!(value_in(&text, "BOIL_SERVERS"), Some("[]".to_string()));
    match from_owned(&read(&text)) {
        Ok(back) => assert!(back.global_timer == app.global_timer),
        Err(e) => panic!("{}", e.message()),
    }
}

#[test]
fn a_line_within_a_value_is_no_setting() {
    let mut app = app(ONE_SERVER);
    app.servers.clear();
    app.tg_chat_id = Some("7".to_string());
    let existing = "NOTE='first\nTG_CHAT_ID=1\nBOIL_SERVERS=2'\nBOIL_SERVERS='[]'\n";
    let text = saved_text(&app, existing);
    assert_eq!(
        text,
        "NOTE='first\nTG_CHAT_ID=1\nBOIL_SERVERS=2'\nBOIL_SERVERS='[]'\nTG_CHAT_ID='7'\n"
    );
    assert_eq!(
        value_in(&text, "NOTE"),
        Some("first\nTG_CHAT_ID=1\nBOIL_SERVERS=2".to_string())
    );
}

#[test]
fn a_setting_over_several_lines_is_replaced_whole() {
    let mut app = app(ONE_SERVER);
    app.servers.clear();
    app.tg_chat_id = Some("7".to_string());
    app.tg_pair_code = PairingCode::new("ab-cd".to_string()).ok();
    let existing = "TG_CHAT_ID='1\n2'\nBOIL_SERVERS='[\n]'\nTG_PAIR_CODE='x\ny\nz'\nA=1\n";
    assert_eq!(
        saved_text(&app, existing),
        "TG_CHAT_ID='7'\nBOIL_SERVERS='[]'\nTG_PAIR_CODE='AB-CD'\nA=1\n"
    );
    app.tg_chat_id = None;
    app.tg_pair_code = None;
    assert_eq!(
        saved_text(&app, existing),
        "TG_CHAT_ID='1\n2'\nBOIL_SERVERS='[]'\nA=1\n"
    );
}

#[test]
fn an_open_quote_takes_the_rest_only_for_servers_and_timer() {
    let mut app = app(ONE_SERVER);
    app.servers.clear();
    app.tg_chat_id = Some("7".to_string());
    assert_eq!(
        saved_text(&app, "TG_CHAT_ID='1\nA=1\n"),
        "BOIL_SERVERS='[]'\nTG_CHAT_ID='7'\nA=1\n"
    );
    assert_eq!(
        saved_text(&app, "BOIL_SERVERS='[\nA=1\n"),
        "BOIL_SERVERS='[]'\nTG_CHAT_ID='7'\n"
    );
    // A comment opens no quote.
    assert_eq!(
        saved_text(&app, "# K='\nBOIL_SERVERS='[]'\nTG_CHAT_ID=1"),
        "# K='\nBOIL_SERVERS='[]'\nTG_CHAT_ID='7'\n"
    );
}

#[test]
fn settings_are_read_back_from_a_file_with_bare_carriage_returns() {
    let mut app = app(ONE_SERVER);
    app.servers.clear();
    app.tg_chat_id = Some("7".to_string());
    app.tg_pair_expires_at = Some(5);
    let text = saved_text(&app, "K='a\r\r\nb\r\r\n'\r\r\nL=\"x\"\r\r\nTG_CHAT_ID='1'\r");
    assert_eq!(value_in(&text, "BOIL_SERVERS"), Some("[]".to_string()));
    assert_eq!(value_in(&text, "TG_CHAT_ID"), Some("7".to_string()));
    assert_eq!(value_in(&text, "TG_PAIR_EXPIRES_AT"), Some("5".to_string()));
    assert_eq!(value_in(&text, "BOIL_GLOBAL_TIMER"), None);
    assert_eq!(value_in(&text, "TG_PAIR_CODE"), None);
    // The other variables are read without the carriage returns at the line ends.
    assert_eq!(value_in(&text, "K"), Some("a\nb\n".to_string()));
    assert_eq!(value_in(&text, "L"), Some("x".to_string()));
}

#[test]
fn a_quoted_value_is_read_back() {
    for v in ["", "a", "it's", "''", "a\nb", "\n", "#x\n=y", " a ", "a\rb", "\\", "'\\''", "é\t'"] {
        let line = format!("NAME_1={}\n", shell_single_quote(v));
        assert_eq!(read(&line), vec![("NAME_1".to_string(), v.to_string())]);
    }
}

#[test]
fn the_error_of_the_random_source_is_handed_on() {
    match pairing_code_of_draw(Err("getrandom: not supported".to_string())) {
        Err(e) => assert_eq!(e.message(), "getrandom: not supported"),
        Ok(_) => panic!("expected an error"),
    }
    match pairing_code_of_draw(Ok([0, 1, 2, 3, 4, 5, 6, 255])) {
        Ok(code) => assert_eq!(code.expose_secret(), "ABCD-EFG9"),
        Err(e) => panic!("{}", e.message()),
    }
}

#[test]
fn a_file_of_the_setup_is_read_back() {
    let existing = format!("BOIL_SERVERS={}\n", shell_single_quote(TWO_ENABLED_SERVERS));
    let text = setup_text(&existing, "a'b");
    let vars = match parse_config_env_content(&text) {
        Ok(v) => v,
        Err(e) => panic!("{}", e.message()),
    };
    match from_owned(&vars) {
        Ok(back) => {
            assert_eq!(back.servers.len(), 2);
            assert_eq!(back.tg_token.as_deref(), Some("a'b"));
            assert_eq!(back.tg_pair_expires_at, Some(1_782_732_942));
            assert_eq!(back.tg_pair_code.map(|c| c.expose_secret().to_string()).as_deref(), Some("TEST-CODE"));
            assert!(back.tg_chat_id.is_none());
        }
        Err(e) => panic!("{}", e.message()),
    }
}

// Reading.

fn vars(content: &str) -> Vec<(String, String)> {
    match parse_config_env_content(content) {
        Ok(v) => v,
        Err(e) => panic!("{}", e.message()),
    }
}

#[test]
fn values_are_read_in_all_forms() {
    let v = vars("# c\n\n  A = 'x y'\nB=\"q r\"\nC= plain text \nD='one\ntwo'\nE='it'\\''s'\nF=\n");
    let want: Vec<(String, String)> = [
        ("A", "x y"),
        ("B", "q r"),
        ("C", "plain text"),
        ("D", "one\ntwo"),
        ("E", "it's"),
        ("F", ""),
    ]
    .iter()
    .map(|(k, v)| (k.to_string(), v.to_string()))
    .collect();
    assert_eq!(v, want);
}

#[test]
fn bad_lines_are_named() {
    assert_eq!(refused(parse_config_env_content("A=1\nno sign\n")), "配置文件第 2 行格式无效");
    assert_eq!(refused(parse_config_env_content("a b=1\n")), "配置文件第 1 行变量名无效");
    assert_eq!(refused(parse_config_env_content("=1\n")), "配置文件第 1 行变量名无效");
    assert_eq!(refused(parse_config_env_content("A='x\nB=2\n")), "配置文件第 1 行单引号未闭合");
}

#[test]
fn quoting_is_exact() {
    assert_eq!(shell_single_quote("a'b"), r"'a'\''b'");
    assert_eq!(shell_single_quote(""), "''");
}

#[test]
fn variables_that_do_not_describe_a_configuration_are_refused() {
    assert_eq!(refused(from_vars(&[])), "缺少 BOIL_SERVERS 配置");
    assert_eq!(
        refused(app_from_servers_json("nonsense")),
        "BOIL_SERVERS JSON 解析失败，请检查多 VPS 配置格式"
    );
    assert_eq!(
        refused(from_vars(&[("BOIL_SERVERS", "[]"), ("TG_PAIR_CODE", "  ")])),
        "配对码不能为空"
    );
    assert_eq!(
        refused(from_vars(&[("BOIL_SERVERS", "[]"), ("TG_PAIR_EXPIRES_AT", "soon")])),
        "TG_PAIR_EXPIRES_AT 必须是 Unix 时间戳"
    );
    assert_eq!(
        refused(from_vars(&[
            ("BOIL_SERVERS", "[]"),
            ("BOIL_GLOBAL_TIMER", r#"{"enabled":true,"cron":"x"}"#)
        ])),
        "BOIL_GLOBAL_TIMER 配置无效"
    );
    assert_eq!(
        refused(setup("BOIL_SERVERS='oops'\n", "t")),
        "已有 BOIL_SERVERS JSON 解析失败，请先修复配置文件"
    );
}

fn server(id: &str, name: &str, token: &str) -> ServerConfig {
    ServerConfig {
        id: id.to_string(),
        name: name.to_string(),
        token: SecretToken::from_stored(token.to_string()),
        enabled: true,
        address: None,
        country: None,
        flag: None,
        resolved_ip: None,
        timer: None,
    }
}

#[test]
fn servers_are_validated() {
    assert!(validate_servers(&[server("a", "A", "t1"), server("b-_9", "B", "t2")]).is_ok());
    assert_eq!(refused(validate_servers(&[server("", "A", "t")])), "server id 不能为空");
    assert_eq!(
        refused(validate_servers(&[server("a", "  ", "t")])),
        "server id 'a' 的 name 不能为空"
    );
    assert_eq!(
        refused(validate_servers(&[server("a", "A", " ")])),
        "server id 'a' 的 token 不能为空"
    );
    assert_eq!(
        refused(validate_servers(&[server("my-tok-1", "A", "tok")])),
        "server id 'my-tok-1' 不得包含 token"
    );
    assert_eq!(
        refused(validate_server_id("a b")),
        "server id 'a b' 含非法字符，只允许字母、数字、短横线、下划线"
    );
    assert_eq!(
        refused(validate_timer_cron("1 2 3")),
        "cron 必须是 5 字段格式，例如 30 3 * * *"
    );
    assert!(validate_timer_cron(" 30 3 * * * ").is_ok());
    assert_eq!(refused(SecretToken::new(" \t".to_string())), "Token 不能为空");
}

#[test]
fn secrets_are_not_shown() {
    let token = SecretToken::from_stored("hidden-token".to_string());
    assert_eq!(token.display(), "<redacted>");
    let mut s = server("a", "A", "hidden-token");
    s.address = Some("quo\"te".to_string());
    assert!(!s.debug_text().contains("hidden-token"));
    assert!(s.debug_text().contains("quo\\\"te"));
    let mut app = app(ONE_SERVER);
    app.tg_token = Some("bot-secret".to_string());
    app.tg_pair_code = PairingCode::new("PAIR-SECR".to_string()).ok();
    let debug = app.debug_text();
    assert!(!debug.contains("bot-secret"));
    assert!(!debug.contains("PAIR-SECR"));
    assert!(debug.contains("Primary VPS"));
}

// Setting up.

#[test]
fn pairing_codes_are_made_of_random_bytes() {
    let code = match pairing_code_from(&[0, 1, 2, 3, 31, 32, 255, 24]) {
        Ok(c) => c.expose_secret().to_string(),
        Err(e) => panic!("{}", e.message()),
    };
    assert_eq!(code, "ABCD-9A92");
    let a = generate_pairing_code().ok().map(|c| c.expose_secret().to_string());
    let text = a.unwrap_or_default();
    assert_eq!(text.len(), 9);
    assert_eq!(text.as_bytes()[4], b'-');
    assert!(text
        .chars()
        .all(|c| c == '-' || "ABCDEFGHJKLMNPQRSTUVWXYZ23456789".contains(c)));
    let b = generate_pairing_code().ok().map(|c| c.expose_secret().to_string());
    let c = generate_pairing_code().ok().map(|c| c.expose_secret().to_string());
    assert!(b != c || Some(text) != b);
    assert_eq!(pairing_expires_at(100), 400);
}

#[test]
fn the_setup_goes_step_by_step() {
    assert!(matches!(setup_begin("", false), SetupAction::AskToken));
    assert!(matches!(setup_begin("A=1", false), SetupAction::AskKeep));
    assert!(matches!(setup_begin("A=1", true), SetupAction::AskToken));
    assert!(matches!(setup_after_keep(true), SetupAction::KeepExisting));
    assert!(matches!(setup_after_keep(false), SetupAction::AskToken));
    assert!(matches!(
        setup_after_check("t".to_string(), None),
        SetupAction::AskToken
    ));
    assert!(matches!(
        setup_after_check("t".to_string(), Some("b".to_string())),
        SetupAction::Save { .. }
    ));
    assert_eq!(bot_mention("@@boil_bot"), "@boil_bot");
    assert_eq!(bot_mention("boil"), "@boil");
}

#[test]
fn the_configuration_is_looked_for_in_three_places() {
    assert_eq!(config_place(true, true, true), ConfigPlace::System);
    assert_eq!(config_place(false, true, true), ConfigPlace::BesideProgram);
    assert_eq!(config_place(false, false, true), ConfigPlace::WorkingDirectory);
    assert_eq!(config_place(false, false, false), ConfigPlace::System);
    assert_eq!(setup_place(true), ConfigPlace::System);
    assert_eq!(setup_place(false), ConfigPlace::WorkingDirectory);
}
