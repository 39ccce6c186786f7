use lafufu::adapters::{
    DockerEventsAdapter, GitHubEventsAdapter, IngestionBatch, JsonLogAdapter, SyslogAuthAdapter,
};
use lafufu::adapters::auth::{extract_after, extract_between};
use lafufu::adapters::document_lines;
use lafufu::ingestion::pipeline::select_adapter;
use lafufu::json_value::{JsonNumber, JsonValue};
use lafufu::normalization::IdentityResolver;

fn to_json(v: &serde_json::Value) -> JsonValue {
    match v {
        serde_json::Value::Null => JsonValue::Null,
        serde_json::Value::Bool(b) => JsonValue::Bool(*b),
        serde_json::Value::Number(n) => JsonValue::Number(JsonNumber {
            int_value: n.as_i64(),
            float_text: n.as_f64().map(|f| f.to_string()).unwrap_or_default(),
        }),
        serde_json::Value::String(s) => JsonValue::Str(s.clone()),
        serde_json::Value::Array(a) => JsonValue::Array(a.iter().map(to_json).collect()),
        serde_json::Value::Object(m) => {
            JsonValue::Object(m.iter().map(|(k, v)| (k.clone(), to_json(v))).collect())
        }
    }
}

fn whole_document(text: &str) -> Option<JsonValue> {
    serde_json::from_str::<serde_json::Value>(text).ok().map(|v| to_json(&v))
}

fn line_documents(content: &str) -> Vec<JsonValue> {
    let decoded: Vec<Option<JsonValue>> = document_lines(content).into_iter().map(whole_document).collect();
    lafufu::adapters::line_documents(decoded)
}

#[test]
fn test_parse_ssh_accepted() {
    let adapter = SyslogAuthAdapter::new();
    let resolver = IdentityResolver::default();
    let log_line = "Jul 26 18:00:00 myhost sshd[1234]: Accepted password for alice from 192.168.1.50 port 54321 ssh2";

    let batch = adapter.parse(log_line, &resolver);
    assert_eq!(batch.events.len(), 1);
    assert_eq!(batch.events[0].event_type, "ssh_login_success");
    assert_eq!(batch.entities.len(), 3); // host, user, ip
    assert_eq!(batch.edges.len(), 2);
}

#[test]
fn test_parse_sudo_exec() {
    let adapter = SyslogAuthAdapter::new();
    let resolver = IdentityResolver::default();
    let log_line = "Jul 26 18:02:00 myhost sudo: alice : TTY=pts/0 ; PWD=/home/alice ; USER=root ; COMMAND=/bin/cat /etc/shadow";

    let batch = adapter.parse(log_line, &resolver);
    assert_eq!(batch.events.len(), 1);
    assert_eq!(batch.events[0].event_type, "sudo_exec");
}

#[test]
fn test_parse_docker_event() {
    let adapter = DockerEventsAdapter::new();
    let resolver = IdentityResolver::default();
    let payload = r#"{
        "status": "start",
        "id": "c123456789",
        "from": "nginx:latest",
        "Type": "container",
        "action": "start",
        "Actor": {
            "ID": "c123456789",
            "Attributes": {
                "image": "nginx:latest",
                "name": "web_server"
            }
        },
        "time": 1719829200
    }"#;

    let batch = adapter.parse_documents(whole_document(payload.trim()), line_documents(payload), &resolver);
    assert_eq!(batch.events.len(), 1);
    assert_eq!(batch.events[0].event_type, "docker_start");
    assert_eq!(batch.entities.len(), 2); // web_server container, nginx:latest image
}

#[test]
fn test_parse_github_push_event() {
    let adapter = GitHubEventsAdapter::new();
    let resolver = IdentityResolver::default();
    let payload = r#"{
        "type": "PushEvent",
        "created_at": "2026-07-26T18:00:00Z",
        "actor": {"login": "octocat"},
        "repo": {"name": "octocat/Hello-World"},
        "payload": {"commits": [{"sha": "12345"}]}
    }"#;

    let batch = adapter.parse_documents(whole_document(payload.trim()), line_documents(payload), &resolver);
    assert_eq!(batch.events.len(), 1);
    assert_eq!(batch.events[0].event_type, "github_push");
    assert_eq!(batch.entities.len(), 2); // octocat user, octocat/Hello-World repo
    assert_eq!(batch.edges[0].rel_type, "pushed_to");
}

#[test]
fn test_parse_json_log_lines() {
    let adapter = JsonLogAdapter::new();
    let resolver = IdentityResolver::default();
    let json_data = r#"{"timestamp": "2026-07-26T18:00:00Z", "user": "alice", "action": "login", "target": "auth_server"}
{"timestamp": "2026-07-26T18:05:00Z", "user": "bob", "action": "file_access", "target": "secret.txt"}"#;

    let batch = adapter.parse_documents(whole_document(json_data), line_documents(json_data), &resolver);
    assert_eq!(batch.events.len(), 2);
    assert_eq!(batch.entities.len(), 4); // alice, auth_server, bob, secret.txt
    assert_eq!(batch.edges.len(), 2);
}

#[test]
fn json_array_documents_are_read_item_by_item() {
    let adapter = JsonLogAdapter::new();
    let resolver = IdentityResolver::default();
    let json_data = r#"[{"timestamp": "2026-07-26T18:00:00Z", "user": "alice", "action": "login"}, 42,
        {"ts": 1719829200, "actor": "bob", "event": "logout"}]"#;
    let batch = adapter.parse_documents(whole_document(json_data), line_documents(json_data), &resolver);
    assert_eq!(batch.events.len(), 2);
    assert_eq!(batch.events[0].event_type, "login");
    assert_eq!(batch.events[0].timestamp.secs, 1_785_088_800);
    assert_eq!(batch.events[1].event_type, "logout");
    assert_eq!(batch.events[1].timestamp.secs, 1_719_829_200);
    assert_eq!(batch.entities.len(), 2);
    assert!(batch.edges.is_empty());
}

#[test]
fn ssh_login_records_user_host_and_address() {
    let adapter = SyslogAuthAdapter::new();
    let resolver = IdentityResolver::default();
    let log = "Jul 26 18:00:00 myhost sshd[1234]: Accepted publickey for Alice from 10.0.0.7 port 22 ssh2\n\n";
    let batch = adapter.parse(log, &resolver);
    assert_eq!(batch.events.len(), 1);
    let names: Vec<&str> = batch.entities.iter().map(|e| e.canonical_name.as_str()).collect();
    assert!(names.contains(&"myhost"));
    assert!(names.contains(&"alice"));
    assert!(names.contains(&"10.0.0.7"));
    let rels: Vec<&str> = batch.edges.iter().map(|e| e.rel_type.as_str()).collect();
    assert!(rels.contains(&"logged_into"));
    assert!(rels.contains(&"connected_from"));
}

#[test]
fn blank_auth_log_gives_empty_batch() {
    let adapter = SyslogAuthAdapter::new();
    let resolver = IdentityResolver::default();
    let batch = adapter.parse("   \n\t\n", &resolver);
    assert!(batch.is_empty());
}

#[test]
fn adapters_recognise_their_samples() {
    assert!(SyslogAuthAdapter::new().can_parse("Jul 26 myhost sshd[1]: x"));
    assert!(!SyslogAuthAdapter::new().can_parse("hello"));
    assert!(JsonLogAdapter::new().can_parse("  {\"a\": 1}  "));
    assert!(!JsonLogAdapter::new().can_parse("plain text"));
    assert!(GitHubEventsAdapter::new().can_parse("{\"repo\": 1, \"actor\": 2}"));
    assert!(!GitHubEventsAdapter::new().can_parse("{\"repo\": 1}"));
    assert!(DockerEventsAdapter::new().can_parse("{\"Type\": \"container\"}"));
    assert!(!DockerEventsAdapter::new().can_parse("{\"Type\": \"volume\"}"));
    assert_eq!(SyslogAuthAdapter::new().name(), "syslog_auth");
    assert_eq!(JsonLogAdapter::new().name(), "generic_json");
    assert_eq!(GitHubEventsAdapter::new().name(), "github_events");
    assert_eq!(DockerEventsAdapter::new().name(), "docker_events");
}

#[test]
fn extraction_between_and_after_markers() {
    assert_eq!(extract_between("for alice from 1.2.3.4", "for ", " from"), Some("alice".to_string()));
    assert_eq!(extract_between("for alice", "for ", " from"), None);
    assert_eq!(extract_between("nothing here", "for ", " from"), None);
    assert_eq!(extract_after("USER=root ; COMMAND=/bin/ls -la", "COMMAND="), Some("/bin/ls -la".to_string()));
    assert_eq!(extract_after("USER=root", "COMMAND="), None);
}

#[test]
fn merging_batches_appends_in_order() {
    let adapter = SyslogAuthAdapter::new();
    let resolver = IdentityResolver::default();
    let mut a = adapter.parse(
        "Jul 26 18:00:00 myhost sshd[1234]: Accepted password for alice from 192.168.1.50 port 54321 ssh2",
        &resolver,
    );
    let b = adapter.parse(
        "Jul 26 18:02:00 myhost sudo: alice : TTY=pts/0 ; PWD=/home/alice ; USER=root ; COMMAND=/bin/cat /etc/shadow",
        &resolver,
    );
    let (na, nb) = (a.events.len(), b.events.len());
    a.merge(b);
    assert_eq!(a.events.len(), na + nb);
    assert_eq!(a.events[0].event_type, "ssh_login_success");
    assert_eq!(a.events[1].event_type, "sudo_exec");
    let mut empty = IngestionBatch::new();
    assert!(empty.is_empty());
    empty.merge(IngestionBatch::new());
    assert!(empty.is_empty());
}

#[test]
fn adapter_selection() {
    let names: Vec<String> = ["generic_json", "syslog_auth", "github_events", "docker_events"]
        .iter()
        .map(|s| s.to_string())
        .collect();
    assert_eq!(select_adapter(&names, &[false, true, true, false], None).unwrap(), 1);
    assert_eq!(select_adapter(&names, &[false, false, false, false], None).unwrap(), 0);
    assert_eq!(select_adapter(&names, &[true, true, true, true], Some("DOCKER_events")).unwrap(), 3);
    match select_adapter(&names, &[true, true, true, true], Some("k8s_audit")) {
        Err(lafufu::errors::LafufuError::Ingestion(m)) => assert_eq!(m, "Adapter 'k8s_audit' not found"),
        _ => panic!("expected an ingestion error"),
    }
}

#[test]
fn docker_actions_with_colons_and_times() {
    let adapter = DockerEventsAdapter::new();
    let resolver = IdentityResolver::default();
    let payload = r#"{"Type": "container", "Action": "exec_start: sh -c ls", "id": "c1",
        "Actor": {"ID": "c1", "Attributes": {"name": "web", "image": "nginx:1"}}, "time": 1719829200}"#;
    let batch = adapter.parse_documents(whole_document(payload.trim()), line_documents(payload), &resolver);
    assert_eq!(batch.events.len(), 1);
    assert_eq!(batch.events[0].event_type, "docker_exec_start_ sh -c ls");
    assert_eq!(batch.events[0].timestamp.secs, 1_719_829_200);
}

#[test]
fn replaying_a_log_gives_the_same_graph() {
    let resolver = IdentityResolver::default();
    let line = "Jul 26 18:00:00 myhost sshd[1234]: Accepted password for alice from 192.168.1.50 port 54321 ssh2";
    let a = SyslogAuthAdapter::new().parse(line, &resolver);
    let b = SyslogAuthAdapter::new().parse(line, &resolver);
    let ids = |batch: &IngestionBatch| batch.entities.iter().map(|e| e.id).collect::<Vec<u128>>();
    assert_eq!(ids(&a), ids(&b));
    assert_eq!(a.edges.iter().map(|e| (e.source_id, e.target_id)).collect::<Vec<_>>(),
               b.edges.iter().map(|e| (e.source_id, e.target_id)).collect::<Vec<_>>());
    assert_eq!(a.events[0].timestamp, b.events[0].timestamp);
    assert_ne!(a.events[0].id, b.events[0].id);
    assert_eq!(uuid::Uuid::from_u128(a.events[0].id).get_version_num(), 4);

    let json = r#"{"timestamp": "2026-07-26T18:00:00Z", "user": "alice", "action": "login", "target": "auth_server"}"#;
    let j1 = JsonLogAdapter::new().parse_documents(whole_document(json), line_documents(json), &resolver);
    let j2 = JsonLogAdapter::new().parse_documents(whole_document(json), line_documents(json), &resolver);
    assert_eq!(ids(&j1), ids(&j2));
    assert_eq!(j1.events[0].target_id, j2.events[0].target_id);
}

#[test]
fn json_adapter_reads_any_json_sample() {
    assert!(JsonLogAdapter::new().can_parse("  42 "));
    assert!(JsonLogAdapter::new().can_parse("\"text\""));
    assert!(!JsonLogAdapter::new().can_parse("{not json"));
}

#[test]
fn document_lines_are_trimmed_and_blank_ones_dropped() {
    let lines = document_lines("  {\"a\": 1}  \r\n\n   \n[2]\nnot json");
    assert_eq!(lines, vec!["{\"a\": 1}", "[2]", "not json"]);
    let docs = lafufu::adapters::line_documents(vec![None, Some(JsonValue::Null), None, Some(JsonValue::Bool(true))]);
    assert_eq!(docs.len(), 2);
    assert!(matches!(docs[0], JsonValue::Null));
    assert!(matches!(docs[1], JsonValue::Bool(true)));
}
