//! End-to-end worker scenarios: ingestion into the store, then polling the
//! outbox against a recording stand-in for the remote side.

use tg_watchbot::config::{
    App, Config, Databases, DbMain, DbMainFields, DbResource, DbResourceFields, Notion, Telegram,
};
use tg_watchbot::notion::{NotionIds, NotionService};
use tg_watchbot::outbox::process_next_task;
use tg_watchbot::store::Store;

/// The example configuration, as a value.
fn example_config() -> Config {
    Config {
        app: App {
            data_dir: "./data".to_string(),
            poll_interval_ms: 500,
            max_backoff_seconds: 60,
        },
        telegram: Telegram {
            bot_token: "YOUR_TELEGRAM_BOT_TOKEN".to_string(),
            allowed_users: vec![123456789],
        },
        notion: Notion {
            token: "YOUR_NOTION_INTEGRATION_TOKEN".to_string(),
            version: "2022-06-28".to_string(),
            databases: Databases {
                main: DbMain {
                    id: "NOTION_MAIN_DATABASE_ID".to_string(),
                    fields: DbMainFields {
                        title: "标题".to_string(),
                    },
                },
                resource: DbResource {
                    id: "NOTION_RESOURCE_DATABASE_ID".to_string(),
                    fields: DbResourceFields {
                        relation: "关联主表".to_string(),
                        order: "序号".to_string(),
                        text: "文本".to_string(),
                        media: "图片/视频".to_string(),
                    },
                },
            },
        },
    }
}

#[derive(Debug, Clone, Default, PartialEq)]
struct ResourceCall {
    parent: Option<String>,
    order: i64,
    text: Option<String>,
    media_name: Option<String>,
    media_url: Option<String>,
}

#[derive(Default)]
struct RecordingNotion {
    responses: Vec<Result<String, String>>,
    main_calls: Vec<String>,
    resource_calls: Vec<ResourceCall>,
}

impl RecordingNotion {
    fn with_responses(responses: Vec<Result<String, String>>) -> Self {
        RecordingNotion {
            responses,
            main_calls: Vec::new(),
            resource_calls: Vec::new(),
        }
    }

    fn pop_response(&mut self) -> Result<String, String> {
        if self.responses.is_empty() {
            Ok("page-id".to_string())
        } else {
            self.responses.remove(0)
        }
    }
}

impl NotionService for RecordingNotion {
    fn create_main_page(&mut self, _ids: &NotionIds, title: &str) -> Result<String, String> {
        self.main_calls.push(title.to_string());
        self.pop_response()
    }

    fn create_resource_page(
        &mut self,
        _ids: &NotionIds,
        parent_main_page_id: Option<&str>,
        order: i64,
        text: Option<&str>,
        media_name: Option<&str>,
        media_url: Option<&str>,
    ) -> Result<String, String> {
        self.resource_calls.push(ResourceCall {
            parent: parent_main_page_id.map(str::to_string),
            order,
            text: text.map(str::to_string),
            media_name: media_name.map(str::to_string),
            media_url: media_url.map(str::to_string),
        });
        self.pop_response()
    }
}

fn load_notion_ids() -> NotionIds {
    let cfg: Config = example_config();
    cfg.notion_ids()
}

#[test]
fn single_message_creates_resource_page() {
    let mut store = Store::new();
    let ids = load_notion_ids();
    let mut notion = RecordingNotion::with_responses(vec![Ok("resource-1".into())]);

    let user_id = store.get_or_create_user(42, Some("tester"), Some("Tester"), 0);
    let resource_id = store.insert_resource(user_id, None, "text", "hello world", 7, 0);

    let processed = process_next_task(&mut store, &mut notion, &ids, 60, 0);
    assert!(processed);

    let processed = process_next_task(&mut store, &mut notion, &ids, 60, 0);
    assert!(!processed);

    let stored = store.resources[(resource_id - 1) as usize]
        .notion_page_id
        .clone();
    assert_eq!(stored.as_deref(), Some("resource-1"));

    let calls = &notion.resource_calls;
    assert_eq!(calls.len(), 1);
    let call = &calls[0];
    assert_eq!(call.parent, None);
    assert_eq!(call.order, 1);
    assert_eq!(call.text.as_deref(), Some("hello world"));
    assert!(call.media_url.is_none());
}

#[test]
fn transactional_flow_creates_main_and_resources() {
    let mut store = Store::new();
    let ids = load_notion_ids();
    let mut notion = RecordingNotion::with_responses(vec![
        Ok("main-1".into()),
        Ok("res-1".into()),
        Ok("res-2".into()),
    ]);

    let user_id = store.get_or_create_user(99, Some("transaction"), Some("Txn"), 0);
    let batch_id = store.open_batch(user_id, 0).unwrap();

    let r1 = store.insert_resource(user_id, Some(batch_id), "text", "note", 10, 0);
    let r2 = store.insert_resource(user_id, Some(batch_id), "photo", "ignored", 11, 0);
    store.set_resource_media(r2, Some("a.jpg"), Some("https://cdn.example/a.jpg"));

    store.commit_batch(user_id, Some("Hello"), 0).unwrap();

    let mut now: i64 = 0;
    for _ in 0..10 {
        if process_next_task(&mut store, &mut notion, &ids, 60, now) {
            continue;
        }
        if store.count_remaining_outbox_tasks() == 0 {
            break;
        }
        now += 5120;
    }

    let main_calls = &notion.main_calls;
    assert_eq!(main_calls.len(), 1);
    assert_eq!(main_calls[0], "Hello");

    let resource_calls = &notion.resource_calls;
    assert_eq!(resource_calls.len(), 2);
    assert_eq!(resource_calls[0].parent.as_deref(), Some("main-1"));
    assert_eq!(resource_calls[0].order, 1);
    assert_eq!(resource_calls[0].text.as_deref(), Some("note"));
    assert!(resource_calls[0].media_url.is_none());

    assert_eq!(resource_calls[1].parent.as_deref(), Some("main-1"));
    assert_eq!(resource_calls[1].order, 2);
    assert!(resource_calls[1].text.is_none());
    assert_eq!(resource_calls[1].media_name.as_deref(), Some("a.jpg"));
    assert_eq!(
        resource_calls[1].media_url.as_deref(),
        Some("https://cdn.example/a.jpg")
    );

    let batch_page = store.batches[(batch_id - 1) as usize].notion_page_id.clone();
    assert_eq!(batch_page.as_deref(), Some("main-1"));

    let res_pages: Vec<Option<String>> = vec![
        store.resources[(r1 - 1) as usize].notion_page_id.clone(),
        store.resources[(r2 - 1) as usize].notion_page_id.clone(),
    ];
    assert_eq!(res_pages, vec![Some("res-1".into()), Some("res-2".into())]);
}

#[test]
fn notion_retry_on_failure() {
    let mut store = Store::new();
    let ids = load_notion_ids();
    let mut notion = RecordingNotion::with_responses(vec![
        Err("temp failure".into()),
        Ok("resource-ok".into()),
    ]);

    let user_id = store.get_or_create_user(55, Some("retry"), Some("Retry"), 0);
    let resource_id = store.insert_resource(user_id, None, "text", "retry me", 21, 0);

    let processed = process_next_task(&mut store, &mut notion, &ids, 60, 0);
    assert!(processed);

    assert_eq!(store.outbox.len(), 1);
    let attempt = store.outbox[0].attempt;
    assert_eq!(attempt, 1);
    // First failure on attempt 0: the task falls due again 5 seconds later.
    assert_eq!(store.outbox[0].due_at, 5);

    let processed = process_next_task(&mut store, &mut notion, &ids, 60, 5);
    assert!(processed);

    assert_eq!(store.count_remaining_outbox_tasks(), 0);

    let stored = store.resources[(resource_id - 1) as usize]
        .notion_page_id
        .clone();
    assert_eq!(stored.as_deref(), Some("resource-ok"));

    let calls = &notion.resource_calls;
    assert_eq!(calls.len(), 2);
    assert_eq!(calls[0].text.as_deref(), Some("retry me"));
    assert_eq!(calls[1].text.as_deref(), Some("retry me"));
}

#[test]
fn test_syncer_logic_with_real_tasks() {
    let mut store = Store::new();
    let cfg = example_config();
    let notion_ids = cfg.notion_ids();

    let mut notion = RecordingNotion::with_responses(vec![
        Ok("main-1".into()),
        Ok("res-1".into()),
        Ok("res-2".into()),
    ]);

    let user_id = store.get_or_create_user(99, Some("test"), Some("Test"), 0);
    let batch_id = store.open_batch(user_id, 0).unwrap();

    let _r1 = store.insert_resource(user_id, Some(batch_id), "text", "note1", 10, 0);
    let _r2 = store.insert_resource(user_id, Some(batch_id), "text", "note2", 11, 0);

    store.commit_batch(user_id, Some("Test Batch"), 0).unwrap();

    let initial_count = store.count_remaining_outbox_tasks();
    println!("Initial outbox tasks: {}", initial_count);
    assert!(initial_count > 0, "Should have outbox tasks to process");

    let initial_sync_id = store.get_last_processed_outbox_id();
    println!("Initial last_processed_id: {}", initial_sync_id);
    assert_eq!(initial_sync_id, 0, "Initial sync ID should be 0");

    let outbox_tasks = store.list_due_outbox(0);
    println!("Outbox tasks before processing: {:?}", outbox_tasks);

    let max_backoff = 60i64;
    let mut processed_count = 0;

    loop {
        let processed = process_next_task(&mut store, &mut notion, &notion_ids, max_backoff, 0);
        if !processed {
            break;
        }
        processed_count += 1;
        println!("Processed task #{}", processed_count);
        let remaining = store.count_remaining_outbox_tasks();
        println!("Remaining tasks: {}", remaining);
    }

    println!("Total processed: {}", processed_count);

    let final_count = store.count_remaining_outbox_tasks();
    assert_eq!(final_count, 0, "All tasks should be processed");

    let main_calls = &notion.main_calls;
    let resource_calls = &notion.resource_calls;
    println!("Main calls: {}", main_calls.len());
    println!("Resource calls: {}", resource_calls.len());

    assert_eq!(main_calls.len(), 1);
    assert_eq!(resource_calls.len(), 2);
}

#[test]
fn test_syncer_tracks_processed_ids_correctly() {
    let mut store = Store::new();
    let cfg = example_config();
    let notion_ids = cfg.notion_ids();
    let max_backoff = 60i64;

    let mut notion = RecordingNotion::with_responses(vec![
        Ok("main-1".into()),
        Ok("res-1".into()),
        Ok("res-2".into()),
    ]);

    let user_id = store.get_or_create_user(99, Some("test"), Some("Test"), 0);
    let batch_id = store.open_batch(user_id, 0).unwrap();

    let _r1 = store.insert_resource(user_id, Some(batch_id), "text", "note1", 10, 0);
    let _r2 = store.insert_resource(user_id, Some(batch_id), "text", "note2", 11, 0);

    store.commit_batch(user_id, Some("Test Batch"), 0).unwrap();

    let outbox_tasks = store.list_due_outbox(0);
    println!("Outbox tasks: {:?}", outbox_tasks);
    let expected_task_ids: Vec<i64> = outbox_tasks.iter().map(|(id, _, _)| *id).collect();

    let mut processed_count = 0;
    let mut last_processed_id = 0i64;

    loop {
        if let Some((next_task_id, _, _, _, _)) = store.next_due_outbox(0) {
            println!("About to process task ID: {}", next_task_id);
            let processed =
                process_next_task(&mut store, &mut notion, &notion_ids, max_backoff, 0);
            if processed {
                processed_count += 1;
                last_processed_id = next_task_id;
                store.update_last_processed_outbox_id(last_processed_id);
                println!(
                    "Processed task ID: {}, last_processed_id now: {}",
                    next_task_id, last_processed_id
                );
            } else {
                panic!("Task should have been processed successfully");
            }
        } else {
            break;
        }
    }

    println!("Final processed count: {}", processed_count);
    println!("Expected task IDs: {:?}", expected_task_ids);
    println!("Final last_processed_id: {}", last_processed_id);

    assert_eq!(processed_count, expected_task_ids.len());
    assert_eq!(last_processed_id, *expected_task_ids.last().unwrap());

    let stored_last_id = store.get_last_processed_outbox_id();
    assert_eq!(stored_last_id, last_processed_id);

    let remaining = store.count_remaining_outbox_tasks();
    assert_eq!(remaining, 0);
}

#[test]
fn test_syncer_respects_failure_threshold() {
    let mut store = Store::new();
    let cfg = example_config();
    let notion_ids = cfg.notion_ids();
    let max_backoff = 60i64;

    let mut notion = RecordingNotion::with_responses(vec![
        Err("persistent failure".into()),
        Err("persistent failure".into()),
        Err("persistent failure".into()),
        Err("persistent failure".into()),
        Err("persistent failure".into()),
        Err("persistent failure".into()),
    ]);

    let user_id = store.get_or_create_user(99, Some("test"), Some("Test"), 0);
    let _resource_id = store.insert_resource(user_id, None, "text", "test", 1, 0);

    let failure_threshold = 3;
    let mut now: i64 = 0;
    let mut attempts = 0;

    loop {
        if let Some((task_id, _, _, _, _)) = store.next_due_outbox(now) {
            println!("Processing task {} (attempt {})", task_id, attempts + 1);
            let processed =
                process_next_task(&mut store, &mut notion, &notion_ids, max_backoff, now);
            if processed {
                let task_attempts = store
                    .outbox
                    .iter()
                    .find(|t| t.id == task_id)
                    .map(|t| t.attempt);
                if let Some(current_attempts) = task_attempts {
                    println!("Task {} failed, attempts: {}", task_id, current_attempts);
                    if current_attempts >= failure_threshold {
                        println!(
                            "Failure threshold ({}) exceeded, stopping",
                            failure_threshold
                        );
                        break;
                    }
                    // Jump forward to when the task falls due again, so the
                    // next poll can retry immediately.
                    now = store
                        .outbox
                        .iter()
                        .find(|t| t.id == task_id)
                        .map(|t| t.due_at)
                        .unwrap();
                } else {
                    println!(
                        "Task {} completed successfully and was removed from outbox",
                        task_id
                    );
                    break;
                }
            } else {
                println!("Task {} was not processed (likely not due yet)", task_id);
                break;
            }
        } else {
            break;
        }

        attempts += 1;
        if attempts > 10 {
            panic!("Too many attempts, test should have exited by now");
        }
    }

    let final_attempts = store.outbox.iter().map(|t| t.attempt).max().unwrap();
    assert!(
        final_attempts >= failure_threshold,
        "Task should have exceeded failure threshold. Expected >= {}, got {}",
        failure_threshold,
        final_attempts
    );
    println!(
        "Test completed successfully. Final attempts: {}",
        final_attempts
    );
}
