use theway_daemon::job_transcripts::{
    sanitize_path_segment, DiskTranscriptStore, JobKey, MemoryTranscriptStore,
};
use theway_daemon::json::Json;
use theway_daemon::order::{dedup_texts, distinct_texts, has_text, key_order, sort_texts, text_before};
use theway_daemon::paths::{
    is_absolute, join_path, path_extension, path_file_name, path_file_stem,
};
use theway_daemon::text::{
    char_count, decimal, decimal_signed, is_blank, join, parse_size, parse_u64, replace,
    replace_char, split_lines, split_once, split_words, strip_leading, strip_prefix,
    strip_trailing, take_chars, to_ascii_lowercase, trim, trim_end,
};
use theway_daemon::text_map::TextMap;

fn names(v: &[&str]) -> Vec<String> {
    v.iter().map(|s| s.to_string()).collect()
}

fn parse(s: &str) -> Json {
    match Json::parse(s) {
        Ok(v) => v,
        Err(e) => panic!("{e}"),
    }
}

fn key(run: Option<&str>, node: Option<&str>, job: &str) -> JobKey {
    JobKey {
        run_id: run.map(str::to_string),
        node_id: node.map(str::to_string),
        job_id: job.to_string(),
    }
}

fn rendered(v: Option<Vec<Json>>) -> Option<String> {
    v.map(|items| Json::array(items).render())
}

#[test]
fn path_segments_are_safe() {
    assert_eq!(sanitize_path_segment("run-1_a.b"), "run-1_a.b");
    assert_eq!(sanitize_path_segment("../é"), "..__");
    assert_eq!(sanitize_path_segment(""), "default");
    assert_eq!(sanitize_path_segment("."), "_");
    assert_eq!(sanitize_path_segment(".."), "__");
    assert_eq!(sanitize_path_segment("..."), "...");
    let store = DiskTranscriptStore::new("/store".to_string());
    assert_eq!(store.messages_path_for_node("..", ".."), "/store/__/__.json");
    assert_eq!(sanitize_path_segment(&"x".repeat(100)), "x".repeat(80));
}

#[test]
fn transcripts_are_written_by_node_or_job() {
    let store = DiskTranscriptStore::new("/d".to_string());
    assert_eq!(store.messages_path_for_node("r", "n/1"), "/d/r/n_1.json");
    assert_eq!(store.messages_path_for_task("j"), "/d/subagent/j.json");
    assert_eq!(store.save_path(&key(Some("r"), Some("n"), "j")), "/d/r/n.json");
    assert_eq!(store.save_path(&key(Some("r"), None, "j")), "/d/subagent/j.json");
}

#[test]
fn transcripts_are_read_back() {
    let store = DiskTranscriptStore::new("/d".to_string());
    let messages = vec![parse(r#"{"b":[1,-2,null,true],"a":"é\n\"x\""}"#), Json::text("t")];
    let (path, text) = store.save(&key(None, None, "j"), &messages).unwrap();
    assert_eq!(path, "/d/subagent/j.json");
    assert_eq!(
        text,
        "[\n  {\n    \"a\": \"é\\n\\\"x\\\"\",\n    \"b\": [\n      1,\n      -2,\n      null,\n      true\n    ]\n  },\n  \"t\"\n]"
    );
    assert_eq!(rendered(store.messages_in(&text)), rendered(Some(messages)));
    assert!(store.messages_in("{}").is_none());
    assert!(store.messages_in("[1").is_none());
}

#[test]
fn memory_keeps_the_last_transcript_of_a_key() {
    let mut store = MemoryTranscriptStore::new();
    assert!(store.load_job("j").is_none());
    store.save(&key(Some("r"), Some("n"), "j"), &vec![Json::UInt(1)]);
    store.save(&key(None, Some("n"), "j"), &vec![Json::UInt(2)]);
    store.save(&key(None, None, "j"), &vec![Json::UInt(3)]);
    assert_eq!(rendered(store.load_node("r", "n")).as_deref(), Some("[1]"));
    assert_eq!(rendered(store.load_job("j")).as_deref(), Some("[3]"));
    assert!(store.load_node("r", "j").is_none());
}

#[test]
fn documents_are_parsed_and_rendered() {
    let v = parse(r#"{"b":1,"a":[true,"x",-1,1.5],"b":2}"#);
    assert_eq!(v.uint_field("b"), Some(2));
    assert_eq!(v.get("a").and_then(|a| a.as_items()).map(|a| a.len()), Some(4));
    assert_eq!(v.render(), r#"{"a":[true,"x",-1,1.5],"b":2}"#);
    assert_eq!(v.copy().render(), v.render());
    assert_eq!(v.text_member("a"), None);
    assert_eq!(parse(r#"{"f":true}"#).bool_field("f"), Some(true));
    assert_eq!(Json::NegInt(5).as_uint(), Some(5));
    assert_eq!(Json::text("s").as_text().map(String::as_str), Some("s"));
    assert!(Json::parse("{").is_err());
    assert_eq!(Json::object().render_pretty().as_deref(), Some("{}"));
    let toml = Json::parse_toml("x = [\"a\"]\n[t]\nn = 3\n").unwrap();
    assert_eq!(toml.render(), r#"{"t":{"n":3},"x":["a"]}"#);
    assert!(Json::parse_toml("x = ").is_none());
}

#[test]
fn texts_are_ordered_by_scalar_value() {
    assert!(text_before("a", "b"));
    assert!(text_before("a", "aa"));
    assert!(!text_before("a", "a"));
    assert!(text_before("Z", "a"));
    assert!(text_before("\u{ffff}", "\u{10000}"));
    assert_eq!(sort_texts(&names(&["b", "a", "é", "B"])), names(&["B", "a", "b", "é"]));
    assert_eq!(dedup_texts(&names(&["a", "a", "b", "a"])), names(&["a", "b", "a"]));
    assert_eq!(distinct_texts(&names(&["a", "a", "b", "a"])), names(&["a", "b"]));
    assert!(has_text(&names(&["a"]), "a"));
    assert_eq!(key_order(&names(&["c", "a", "b"])), vec![1, 2, 0]);
}

#[test]
fn paths_are_taken_apart() {
    assert!(is_absolute("/a"));
    assert!(!is_absolute("a/"));
    assert_eq!(join_path("/a", "b"), "/a/b");
    assert_eq!(join_path("/a/", "b"), "/a/b");
    assert_eq!(join_path("/a", "/b"), "/b");
    assert_eq!(path_file_name("/a/b.rs").as_deref(), Some("b.rs"));
    assert_eq!(path_file_name("/a/b/").as_deref(), Some("b"));
    assert_eq!(path_file_name("/a/.."), None);
    assert_eq!(path_file_name("/"), None);
    assert_eq!(path_file_stem("a/b.tar.gz").as_deref(), Some("b.tar"));
    assert_eq!(path_file_stem(".bashrc").as_deref(), Some(".bashrc"));
    assert_eq!(path_extension("a/b.tar.gz").as_deref(), Some("gz"));
    assert_eq!(path_extension(".bashrc"), None);
    assert_eq!(path_extension("x."), Some(String::new()));
}

#[test]
fn texts_are_cut_and_joined() {
    assert_eq!(trim("\u{3000} a b \n"), "a b");
    assert_eq!(trim_end(" a "), " a");
    assert!(is_blank(" \t\n") && !is_blank("x"));
    assert_eq!(split_words(" a  b\tc "), names(&["a", "b", "c"]));
    assert_eq!(split_lines("a\r\nb\n\nc"), names(&["a", "b", "", "c"]));
    assert_eq!(split_lines("a\n"), names(&["a"]));
    assert_eq!(join(&names(&["a", "b"]), ", "), "a, b");
    assert_eq!(split_once("a=b=c", "="), Some(("a".to_string(), "b=c".to_string())));
    assert_eq!(strip_prefix("/x", "/").as_deref(), Some("x"));
    assert_eq!(replace("a.b.c", ".", "::"), "a::b::c");
    assert_eq!(replace_char("a-b", '-', '_'), "a_b");
    assert_eq!(strip_leading("///x/", '/'), "x/");
    assert_eq!(strip_trailing("/x//", '/'), "/x");
    assert_eq!(take_chars("éàü", 2), "éà");
    assert_eq!(char_count("éàü"), 3);
    assert_eq!(to_ascii_lowercase("ÀBc"), "Àbc");
}

#[test]
fn numbers_round_trip() {
    for n in [0, 7, 10, 4_096, u64::MAX] {
        assert_eq!(decimal(n), n.to_string());
        assert_eq!(parse_u64(&decimal(n)), Some(n));
    }
    assert_eq!(decimal_signed(i64::MIN), i64::MIN.to_string());
    assert_eq!(decimal_signed(-5), "-5");
    assert_eq!(parse_u64("+7"), Some(7));
    assert_eq!(parse_u64("18446744073709551616"), None);
    assert_eq!(parse_u64(""), None);
    assert_eq!(parse_u64("-1"), None);
    assert_eq!(parse_size("12"), Some(12));
}

#[test]
fn maps_keep_one_value_under_a_key() {
    let mut m: TextMap<u64> = TextMap::new();
    m.insert("b".to_string(), 1);
    m.insert("a".to_string(), 2);
    m.insert("b".to_string(), 3);
    assert_eq!((m.len(), m.get("b"), m.contains_key("c")), (2, Some(&3), false));
    assert_eq!(m.entry(0), (&"b".to_string(), &3));
    assert_eq!(m.remove("a"), Some(2));
    assert_eq!(m.remove("a"), None);
    assert_eq!(m.len(), 1);
}
