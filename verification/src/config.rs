//! Configuration model and validation.
//!
//! The structs mirror the configuration file's schema; reading and parsing
//! the file is I/O and lives outside the library, which only validates the
//! parsed values and derives the remote identifiers from them.

use vstd::prelude::*;

use crate::notion::NotionIds;
use crate::text::{is_blank, spec_is_blank};

verus! {

/// A configuration the library refuses, with the reason.
#[derive(Debug, Clone, PartialEq, Eq)]
pub enum ConfigError {
    /// A required field is empty or zero; the payload names it.
    Invalid(&'static str),
}

/// Root configuration, mirroring the file's schema exactly.
#[derive(Debug, Clone)]
pub struct Config {
    pub app: App,
    pub telegram: Telegram,
    pub notion: Notion,
}

/// App-level settings.
#[derive(Debug, Clone)]
pub struct App {
    pub data_dir: String,
    pub poll_interval_ms: u64,
    pub max_backoff_seconds: u64,
}

/// Ingestion transport settings.
#[derive(Debug, Clone)]
pub struct Telegram {
    pub bot_token: String,
    pub allowed_users: Vec<i64>,
}

/// Remote store settings and database mappings.
#[derive(Debug, Clone)]
pub struct Notion {
    pub token: String,
    pub version: String,
    pub databases: Databases,
}

/// Database mapping configuration.
#[derive(Debug, Clone)]
pub struct Databases {
    pub main: DbMain,
    pub resource: DbResource,
}

/// Main (batch) database mapping.
#[derive(Debug, Clone)]
pub struct DbMain {
    pub id: String,
    pub fields: DbMainFields,
}

/// Fields for the main database.
#[derive(Debug, Clone)]
pub struct DbMainFields {
    pub title: String,
}

/// Resource database mapping.
#[derive(Debug, Clone)]
pub struct DbResource {
    pub id: String,
    pub fields: DbResourceFields,
}

/// Fields for the resource database.
#[derive(Debug, Clone)]
pub struct DbResourceFields {
    pub relation: String,
    pub order: String,
    pub text: String,
    pub media: String,
}

/// The first fault a configuration carries, if any: the checks run in a
/// fixed order and report the first field that is blank (or zero, for the
/// poll interval).
pub open spec fn spec_config_fault(c: Config) -> Option<Seq<char>> {
    if spec_is_blank(c.app.data_dir@) {
        Some("app.data_dir must be non-empty"@)
    } else if c.app.poll_interval_ms == 0 {
        Some("app.poll_interval_ms must be > 0"@)
    } else if spec_is_blank(c.telegram.bot_token@) {
        Some("telegram.bot_token must be non-empty"@)
    } else if spec_is_blank(c.notion.token@) {
        Some("notion.token must be non-empty"@)
    } else if spec_is_blank(c.notion.version@) {
        Some("notion.version must be non-empty"@)
    } else if spec_is_blank(c.notion.databases.main.id@) {
        Some("notion.databases.main.id must be non-empty"@)
    } else if spec_is_blank(c.notion.databases.main.fields.title@) {
        Some("notion.databases.main.fields.title must be non-empty"@)
    } else if spec_is_blank(c.notion.databases.resource.id@) {
        Some("notion.databases.resource.id must be non-empty"@)
    } else if spec_is_blank(c.notion.databases.resource.fields.relation@) {
        Some("notion.databases.resource.fields.relation must be non-empty"@)
    } else if spec_is_blank(c.notion.databases.resource.fields.order@) {
        Some("notion.databases.resource.fields.order must be non-empty"@)
    } else if spec_is_blank(c.notion.databases.resource.fields.text@) {
        Some("notion.databases.resource.fields.text must be non-empty"@)
    } else if spec_is_blank(c.notion.databases.resource.fields.media@) {
        Some("notion.databases.resource.fields.media must be non-empty"@)
    } else {
        None
    }
}

/// Validates a configuration: accepts it exactly when no field the system
/// needs is blank and the poll interval is positive, and otherwise reports
/// the first fault by name.
pub fn validate(cfg: &Config) -> (r: Result<(), ConfigError>)
    ensures
        match spec_config_fault(*cfg) {
            None => r == Ok::<(), ConfigError>(()),
            Some(msg) => r matches Err(ConfigError::Invalid(m)) && m@ == msg,
        },
{
    if is_blank(cfg.app.data_dir.as_str()) {
        return Err(ConfigError::Invalid("app.data_dir must be non-empty"));
    }
    if cfg.app.poll_interval_ms == 0 {
        return Err(ConfigError::Invalid("app.poll_interval_ms must be > 0"));
    }
    if is_blank(cfg.telegram.bot_token.as_str()) {
        return Err(ConfigError::Invalid("telegram.bot_token must be non-empty"));
    }
    if is_blank(cfg.notion.token.as_str()) {
        return Err(ConfigError::Invalid("notion.token must be non-empty"));
    }
    if is_blank(cfg.notion.version.as_str()) {
        return Err(ConfigError::Invalid("notion.version must be non-empty"));
    }
    if is_blank(cfg.notion.databases.main.id.as_str()) {
        return Err(ConfigError::Invalid("notion.databases.main.id must be non-empty"));
    }
    if is_blank(cfg.notion.databases.main.fields.title.as_str()) {
        return Err(ConfigError::Invalid("notion.databases.main.fields.title must be non-empty"));
    }
    if is_blank(cfg.notion.databases.resource.id.as_str()) {
        return Err(ConfigError::Invalid("notion.databases.resource.id must be non-empty"));
    }
    if is_blank(cfg.notion.databases.resource.fields.relation.as_str()) {
        return Err(
            ConfigError::Invalid("notion.databases.resource.fields.relation must be non-empty"),
        );
    }
    if is_blank(cfg.notion.databases.resource.fields.order.as_str()) {
        return Err(
            ConfigError::Invalid("notion.databases.resource.fields.order must be non-empty"),
        );
    }
    if is_blank(cfg.notion.databases.resource.fields.text.as_str()) {
        return Err(
            ConfigError::Invalid("notion.databases.resource.fields.text must be non-empty"),
        );
    }
    if is_blank(cfg.notion.databases.resource.fields.media.as_str()) {
        return Err(
            ConfigError::Invalid("notion.databases.resource.fields.media must be non-empty"),
        );
    }
    Ok(())
}

impl Config {
    /// The remote identifiers this configuration maps to, verbatim.
    pub fn notion_ids(&self) -> (r: NotionIds)
        ensures
            r.main_db == self.notion.databases.main.id,
            r.resource_db == self.notion.databases.resource.id,
            r.f_main_title == self.notion.databases.main.fields.title,
            r.f_rel_parent == self.notion.databases.resource.fields.relation,
            r.f_res_order == self.notion.databases.resource.fields.order,
            r.f_res_text == self.notion.databases.resource.fields.text,
            r.f_res_media == self.notion.databases.resource.fields.media,
    {
        NotionIds {
            main_db: self.notion.databases.main.id.clone(),
            resource_db: self.notion.databases.resource.id.clone(),
            f_main_title: self.notion.databases.main.fields.title.clone(),
            f_rel_parent: self.notion.databases.resource.fields.relation.clone(),
            f_res_order: self.notion.databases.resource.fields.order.clone(),
            f_res_text: self.notion.databases.resource.fields.text.clone(),
            f_res_media: self.notion.databases.resource.fields.media.clone(),
        }
    }
}

/// An example configuration file, exactly as the documentation shows it.
pub fn example() -> &'static str {
    "app:\n  data_dir: \"./data\"\n  poll_interval_ms: 500\n  max_backoff_seconds: 60\n\ntelegram:\n  bot_token: \"YOUR_TELEGRAM_BOT_TOKEN\"\n  allowed_users:\n    - 123456789\n\nnotion:\n  token: \"YOUR_NOTION_INTEGRATION_TOKEN\"\n  version: \"2022-06-28\"\n\n  databases:\n    main:\n      id: \"NOTION_MAIN_DATABASE_ID\"\n      fields:\n        title: \"\u{6807}\u{9898}\"\n    resource:\n      id: \"NOTION_RESOURCE_DATABASE_ID\"\n      fields:\n        relation: \"\u{5173}\u{8054}\u{4e3b}\u{8868}\"\n        order: \"\u{5e8f}\u{53f7}\"\n        text: \"\u{6587}\u{672c}\"\n        media: \"\u{56fe}\u{7247}/\u{89c6}\u{9891}\"\n"
}

} // verus!
