//! Configuration validation tests, driven by the documented example.

use tg_watchbot::config::{
    example, validate, App, Config, ConfigError, Databases, DbMain, DbMainFields, DbResource,
    DbResourceFields, Notion, Telegram,
};

/// The example configuration, as a value.
fn example_config() -> Config {
    Config {
        app: App {
            data_dir: "./data".to_string(),
            poll_interval_ms: 500,
            max_backoff_seconds: 60,
        },
        telegram: Telegram {
            bot_token: "YOUR_TELEGRAM_BOT_TOKEN".to_string(),
            allowed_users: vec![123456789],
        },
        notion: Notion {
            token: "YOUR_NOTION_INTEGRATION_TOKEN".to_string(),
            version: "2022-06-28".to_string(),
            databases: Databases {
                main: DbMain {
                    id: "NOTION_MAIN_DATABASE_ID".to_string(),
                    fields: DbMainFields {
                        title: "标题".to_string(),
                    },
                },
                resource: DbResource {
                    id: "NOTION_RESOURCE_DATABASE_ID".to_string(),
                    fields: DbResourceFields {
                        relation: "关联主表".to_string(),
                        order: "序号".to_string(),
                        text: "文本".to_string(),
                        media: "图片/视频".to_string(),
                    },
                },
            },
        },
    }
}

/// One string field of a parsed YAML document.
fn yaml_str(doc: &serde_yaml::Value, path: &[&str]) -> String {
    let mut cur = doc;
    for key in path {
        cur = cur.get(key).unwrap_or_else(|| panic!("missing key {}", key));
    }
    cur.as_str().unwrap().to_string()
}

#[test]
fn parse_example_ok() {
    // The documented example parses as YAML into a configuration the
    // library accepts.
    let doc: serde_yaml::Value = serde_yaml::from_str(example()).unwrap();
    let cfg = Config {
        app: App {
            data_dir: yaml_str(&doc, &["app", "data_dir"]),
            poll_interval_ms: doc["app"]["poll_interval_ms"].as_u64().unwrap(),
            max_backoff_seconds: doc["app"]["max_backoff_seconds"].as_u64().unwrap(),
        },
        telegram: Telegram {
            bot_token: yaml_str(&doc, &["telegram", "bot_token"]),
            allowed_users: doc["telegram"]["allowed_users"]
                .as_sequence()
                .unwrap()
                .iter()
                .map(|v| v.as_i64().unwrap())
                .collect(),
        },
        notion: Notion {
            token: yaml_str(&doc, &["notion", "token"]),
            version: yaml_str(&doc, &["notion", "version"]),
            databases: Databases {
                main: DbMain {
                    id: yaml_str(&doc, &["notion", "databases", "main", "id"]),
                    fields: DbMainFields {
                        title: yaml_str(&doc, &["notion", "databases", "main", "fields", "title"]),
                    },
                },
                resource: DbResource {
                    id: yaml_str(&doc, &["notion", "databases", "resource", "id"]),
                    fields: DbResourceFields {
                        relation: yaml_str(
                            &doc,
                            &["notion", "databases", "resource", "fields", "relation"],
                        ),
                        order: yaml_str(
                            &doc,
                            &["notion", "databases", "resource", "fields", "order"],
                        ),
                        text: yaml_str(
                            &doc,
                            &["notion", "databases", "resource", "fields", "text"],
                        ),
                        media: yaml_str(
                            &doc,
                            &["notion", "databases", "resource", "fields", "media"],
                        ),
                    },
                },
            },
        },
    };
    validate(&cfg).unwrap();
    assert_eq!(cfg.telegram.allowed_users, vec![123456789]);
    // The parsed values are the documented ones.
    let reference = example_config();
    assert_eq!(cfg.app.data_dir, reference.app.data_dir);
    assert_eq!(cfg.app.poll_interval_ms, reference.app.poll_interval_ms);
    assert_eq!(cfg.app.max_backoff_seconds, reference.app.max_backoff_seconds);
    assert_eq!(cfg.telegram.bot_token, reference.telegram.bot_token);
    assert_eq!(cfg.notion.token, reference.notion.token);
    assert_eq!(cfg.notion.version, reference.notion.version);
    assert_eq!(cfg.notion.databases.main.id, reference.notion.databases.main.id);
    assert_eq!(
        cfg.notion.databases.main.fields.title,
        reference.notion.databases.main.fields.title
    );
    assert_eq!(cfg.notion.databases.resource.id, reference.notion.databases.resource.id);
    assert_eq!(
        cfg.notion.databases.resource.fields.relation,
        reference.notion.databases.resource.fields.relation
    );
    assert_eq!(
        cfg.notion.databases.resource.fields.order,
        reference.notion.databases.resource.fields.order
    );
    assert_eq!(
        cfg.notion.databases.resource.fields.text,
        reference.notion.databases.resource.fields.text
    );
    assert_eq!(
        cfg.notion.databases.resource.fields.media,
        reference.notion.databases.resource.fields.media
    );
}

#[test]
fn invalid_bot_token() {
    let mut cfg = example_config();
    cfg.telegram.bot_token = "".into();
    let err = validate(&cfg).unwrap_err();
    match err {
        ConfigError::Invalid(msg) => assert!(msg.contains("telegram.bot_token")),
    }
}

#[test]
fn invalid_notion_db_ids() {
    let mut cfg = example_config();
    cfg.notion.databases.main.id = "".into();
    let err = validate(&cfg).unwrap_err();
    match err {
        ConfigError::Invalid(msg) => assert!(msg.contains("main.id")),
    }

    let mut cfg = example_config();
    cfg.notion.databases.resource.id = "".into();
    let err = validate(&cfg).unwrap_err();
    match err {
        ConfigError::Invalid(msg) => assert!(msg.contains("resource.id")),
    }
}

#[test]
fn invalid_field_mappings() {
    let mut cfg = example_config();
    cfg.notion.databases.main.fields.title = "".into();
    let err = validate(&cfg).unwrap_err();
    match err {
        ConfigError::Invalid(msg) => assert!(msg.contains("fields.title")),
    }

    let mut cfg = example_config();
    cfg.notion.databases.resource.fields.relation = "".into();
    assert!(matches!(validate(&cfg), Err(ConfigError::Invalid(_))));

    let mut cfg = example_config();
    cfg.notion.databases.resource.fields.order = "".into();
    assert!(matches!(validate(&cfg), Err(ConfigError::Invalid(_))));

    let mut cfg = example_config();
    cfg.notion.databases.resource.fields.text = "".into();
    assert!(matches!(validate(&cfg), Err(ConfigError::Invalid(_))));

    let mut cfg = example_config();
    cfg.notion.databases.resource.fields.media = "".into();
    assert!(matches!(validate(&cfg), Err(ConfigError::Invalid(_))));
}

#[test]
fn invalid_data_dir_and_poll_interval() {
    let mut cfg = example_config();
    cfg.app.data_dir = "   ".into();
    let err = validate(&cfg).unwrap_err();
    match err {
        ConfigError::Invalid(msg) => assert!(msg.contains("data_dir")),
    }

    let mut cfg = example_config();
    cfg.app.poll_interval_ms = 0;
    let err = validate(&cfg).unwrap_err();
    match err {
        ConfigError::Invalid(msg) => assert!(msg.contains("poll_interval_ms")),
    }
}

#[test]
fn notion_ids_mirror_the_configuration() {
    let cfg = example_config();
    let ids = cfg.notion_ids();
    assert_eq!(ids.main_db, "NOTION_MAIN_DATABASE_ID");
    assert_eq!(ids.resource_db, "NOTION_RESOURCE_DATABASE_ID");
    assert_eq!(ids.f_main_title, "标题");
    assert_eq!(ids.f_rel_parent, "关联主表");
    assert_eq!(ids.f_res_order, "序号");
    assert_eq!(ids.f_res_text, "文本");
    assert_eq!(ids.f_res_media, "图片/视频");
}
