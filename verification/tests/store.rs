use taskdeck::app::App;
use taskdeck::config::Config;
use taskdeck::json::Json;
use taskdeck::project::Project;
use taskdeck::task::{Status, Task};

fn tags(list: &[&str]) -> Vec<String> {
    list.iter().map(|s| s.to_string()).collect()
}

#[test]
fn bootstrap_creates_empty_collection_at_newest() {
    // No file on disk: the newest version gets an empty array, and no
    // migration is reported.
    let (store, applied) = Json::check(tags(&["v1", "v2"]), vec![None, None]).unwrap();
    assert!(!applied);
    assert_eq!(store.active_version(), 1);
    assert_eq!(store.version_count(), 2);
    let projects = store.read().unwrap();
    assert!(projects.is_empty());
}

#[test]
fn migration_moves_document_to_newest_version() {
    // A non-empty document at the oldest version is carried forward
    // and the caller is told migrations ran.
    let content = "[{\"title\":\"A\",\"tasks\":[]}]".to_string();
    let (store, applied) = Json::check(tags(&["v1", "v2"]), vec![Some(content), None]).unwrap();
    assert!(applied);
    assert_eq!(store.active_version(), 1);
    let projects = store.read().unwrap();
    assert_eq!(projects.len(), 1);
    assert_eq!(projects[0].title, "A");
}

#[test]
fn newest_version_needs_no_migration() {
    let content = "[{\"title\":\"A\",\"tasks\":[]}]".to_string();
    let (store, applied) = Json::check(tags(&["v1", "v2"]), vec![None, Some(content)]).unwrap();
    assert!(!applied);
    assert_eq!(store.active_version(), 1);
}

#[test]
fn empty_document_is_not_migrated() {
    // An empty array at an old version is left where it is.
    let (store, applied) =
        Json::check(tags(&["v1", "v2"]), vec![Some("[]".to_string()), None]).unwrap();
    assert!(!applied);
    assert_eq!(store.active_version(), 0);
}

#[test]
fn corrupt_document_is_fatal() {
    assert!(Json::check(tags(&["v1"]), vec![Some("not an array".to_string())]).is_none());
}

#[test]
fn unparsable_collection_fails_on_read() {
    // The array shape passes the version check, but the contents do
    // not hold a collection.
    let (store, _) =
        Json::check(tags(&["v1"]), vec![Some("[1,2,3]".to_string())]).unwrap();
    assert!(store.read().is_none());
}

#[test]
fn write_then_read_returns_equal_collection() {
    let (mut store, _) = Json::check(tags(&["v1"]), vec![None]).unwrap();
    let c = vec![Project {
        title: "quoted \"x\"".to_string(),
        tasks: vec![Task { title: "t1".to_string(), status: Status::OnGoing, priority: 2 }],
    }];
    store.write(&c);
    let back = store.read().unwrap();
    assert_eq!(back.len(), 1);
    assert_eq!(back[0].title, "quoted \"x\"");
    assert_eq!(back[0].tasks[0].title, "t1");
    assert_eq!(back[0].tasks[0].status, Status::OnGoing);
    assert_eq!(back[0].tasks[0].priority, 2);
}

#[test]
fn refresh_picks_up_outside_edits() {
    let (store, applied) = Json::check(tags(&["v1"]), vec![None]).unwrap();
    let mut app = App::setup(store, Config::get_default(), applied).unwrap();
    // A snapshot of the wrong shape is refused; a fitting one is taken.
    assert!(!app.refresh_files(vec![]));
    assert!(!app.refresh_files(vec![None]));
    assert!(app.refresh_files(vec![Some("[{\"title\":\"edited\",\"tasks\":[]}]".to_string())]));
}
