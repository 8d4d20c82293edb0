use taskdeck::codec::{encode_collection, parse_collection_exec};
use taskdeck::project::Project;
use taskdeck::task::{Status, Task};

fn task(title: &str, status: Status, priority: u8) -> Task {
    Task { title: title.to_string(), status, priority }
}

fn project(title: &str, tasks: Vec<Task>) -> Project {
    Project { title: title.to_string(), tasks }
}

#[test]
fn encode_exact_text() {
    let c = vec![project("Work", vec![task("Write", Status::UpNext, 0)])];
    let text = encode_collection(&c);
    assert_eq!(
        text,
        "[{\"title\":\"Work\",\"tasks\":[{\"title\":\"Write\",\"status\":\"UpNext\",\"priority\":0}]}]"
    );
}

#[test]
fn encode_empty_collection() {
    let c: Vec<Project> = vec![];
    assert_eq!(encode_collection(&c), "[]");
}

fn assert_equal_collections(a: &Vec<Project>, b: &Vec<Project>) {
    assert_eq!(a.len(), b.len());
    for (p, q) in a.iter().zip(b.iter()) {
        assert_eq!(p.title, q.title);
        assert_eq!(p.tasks.len(), q.tasks.len());
        for (s, t) in p.tasks.iter().zip(q.tasks.iter()) {
            assert_eq!(s.title, t.title);
            assert_eq!(s.status, t.status);
            assert_eq!(s.priority, t.priority);
        }
    }
}

#[test]
fn round_trip_plain() {
    let c = vec![
        project("Home", vec![task("Dishes", Status::Done, 3), task("Mow", Status::OnGoing, 1)]),
        project("Empty", vec![]),
    ];
    let back = parse_collection_exec(&encode_collection(&c)).unwrap();
    assert_equal_collections(&c, &back);
}

#[test]
fn round_trip_escapes_and_unicode() {
    let c = vec![project(
        "a\"b\\c",
        vec![
            task("tab\there", Status::UpNext, 0),
            task("line\nbreak", Status::OnGoing, 2),
            task("ctrl\u{1f}char", Status::Done, 1),
            task("gr\u{00fc}n \u{6f22} \u{1f600}", Status::UpNext, 3),
        ],
    )];
    let text = encode_collection(&c);
    let back = parse_collection_exec(&text).unwrap();
    assert_equal_collections(&c, &back);
}

#[test]
fn escapes_appear_in_text() {
    // A title holding a quote must not be written verbatim: a parser
    // handed back its input unescaped would fail here.
    let c = vec![project("say \"hi\"", vec![])];
    let text = encode_collection(&c);
    assert_eq!(text, "[{\"title\":\"say \\\"hi\\\"\",\"tasks\":[]}]");
    let back = parse_collection_exec(&text).unwrap();
    assert_eq!(back[0].title, "say \"hi\"");
}

#[test]
fn parse_accepts_whitespace() {
    let text = "  [ { \"title\" : \"A\" ,\n \"tasks\" : [ ] } ]\n";
    let back = parse_collection_exec(text).unwrap();
    assert_eq!(back.len(), 1);
    assert_eq!(back[0].title, "A");
    assert!(back[0].tasks.is_empty());
}

#[test]
fn parse_rejects_garbage() {
    assert!(parse_collection_exec("not a document").is_none());
    assert!(parse_collection_exec("[{\"title\":\"A\"}]").is_none());
    assert!(parse_collection_exec("[{\"title\":\"A\",\"tasks\":[]}] trailing").is_none());
    assert!(parse_collection_exec("[{\"title\":\"A\",\"tasks\":[{\"title\":\"t\",\"status\":\"Odd\",\"priority\":0}]}]").is_none());
    assert!(parse_collection_exec("[{\"title\":\"A\",\"tasks\":[{\"title\":\"t\",\"status\":\"Done\",\"priority\":7}]}]").is_none());
}

#[test]
fn parse_decodes_unicode_escape() {
    let text = "[{\"title\":\"a\\u001fb\",\"tasks\":[]}]";
    let back = parse_collection_exec(text).unwrap();
    assert_eq!(back[0].title, "a\u{1f}b");
}

#[test]
fn output_is_json_for_other_readers() {
    // What the library writes must stay readable by a general JSON
    // parser, and carry exactly the expected fields.
    let c = vec![project("P1", vec![task("n\u{00e4}chste", Status::OnGoing, 2)])];
    let text = encode_collection(&c);
    let v: serde_json::Value = serde_json::from_str(&text).unwrap();
    let arr = v.as_array().unwrap();
    assert_eq!(arr.len(), 1);
    assert_eq!(arr[0].get("title").unwrap().as_str().unwrap(), "P1");
    let tasks = arr[0].get("tasks").unwrap().as_array().unwrap();
    assert_eq!(tasks[0].get("title").unwrap().as_str().unwrap(), "n\u{00e4}chste");
    assert_eq!(tasks[0].get("status").unwrap().as_str().unwrap(), "OnGoing");
    assert_eq!(tasks[0].get("priority").unwrap().as_u64().unwrap(), 2);
}
