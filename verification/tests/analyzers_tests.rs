use gengo::analyzer::AnalyzerDef;
use gengo::Analyzers;
use gengo::Category;
use gengo::Found;

fn strings(items: &[&str]) -> Vec<String> {
    items.iter().map(|s| s.to_string()).collect()
}

fn def(name: &str, category: Category, priority: Option<u8>) -> AnalyzerDef {
    AnalyzerDef {
        name: name.to_string(),
        category,
        color: "#cccccc".to_string(),
        extensions: Vec::new(),
        filenames: Vec::new(),
        patterns: Vec::new(),
        interpreters: Vec::new(),
        heuristics: Vec::new(),
        priority,
    }
}

/// JSON (priority 75) and JSON with Comments (priority 50, heuristic on a
/// line comment), both claiming the `json` extension.
fn json_with_comments_analyzers() -> Analyzers {
    let mut json = def("JSON", Category::Data, Some(75));
    json.extensions = strings(&["json"]);
    let mut jsonc = def("JSON with Comments", Category::Data, Some(50));
    jsonc.extensions = strings(&["json"]);
    jsonc.heuristics = strings(&["//"]);
    Analyzers::new(vec![json, jsonc]).expect("registry should build")
}

fn shell_analyzers() -> Analyzers {
    let mut shell = def("Shell", Category::Programming, None);
    shell.extensions = strings(&["sh"]);
    shell.interpreters = strings(&["sh", "bash"]);
    Analyzers::new(vec![shell]).expect("registry should build")
}

const JSONC_FILE: &[u8] = b"{\n  // A comment marks this dialect.\n  \"name\": \"example\"\n}\n";

#[test]
fn test_by_filepath_json_with_comments() {
    let analyzers = json_with_comments_analyzers();
    let results = analyzers.by_extension("test.json");
    assert_eq!(results.len(), 2);
    assert_eq!(results.first(), Some("json"));
    assert!(matches!(results, Found::Multiple(_)));
}

#[test]
fn test_by_shebang_shell() {
    let analyzers = shell_analyzers();
    let results = analyzers.by_shebang(b"#!/bin/sh\necho hello");
    assert_eq!(results.len(), 1);
    assert_eq!(results.first(), Some("shell"));
}

#[test]
fn test_simple() {
    let analyzers = shell_analyzers();
    let contents = b"#!/bin/sh\necho hello\n";
    let by_shebang = analyzers.by_shebang(contents);
    assert_eq!(by_shebang.len(), 1);
    assert_eq!(by_shebang.first(), Some("shell"));
    let by_extension = analyzers.by_extension("test.sh");
    assert_eq!(by_extension.len(), 1);
    let simple = analyzers.simple("test.sh", contents);
    assert_eq!(simple.len(), 1);
    assert_eq!(simple.first(), Some("shell"));
}

#[test]
fn test_with_heuristics() {
    let analyzers = json_with_comments_analyzers();
    let simple = analyzers.simple("test.json", JSONC_FILE);
    assert_eq!(simple.len(), 2);
    let narrowed = analyzers.with_heuristics("test.json", JSONC_FILE, 1 << 20);
    assert_eq!(narrowed.len(), 1);
    assert_eq!(narrowed.first(), Some("json with comments"));
}

#[test]
fn test_no_heuristic_match_returns_original_set() {
    let analyzers = json_with_comments_analyzers();
    let contents = br#"{"type": "maybe not JSON with comments"}"#;
    let result = analyzers.with_heuristics("test.json", contents, 1 << 20);
    assert_eq!(result.len(), 2, "Both JSON and JSON with Comments be returned");
}

#[test]
fn test_pick_find_one() {
    let analyzers = json_with_comments_analyzers();
    let language = analyzers.pick("test.json", JSONC_FILE, 1 << 20).unwrap();
    assert_eq!(language.name(), "JSON with Comments");
}

#[test]
fn test_pick_find_none() {
    let analyzers = json_with_comments_analyzers();
    let language = analyzers.pick("test.yaml", b"---\nfoo: bar\n", 1);
    assert!(language.is_none());
}

#[test]
fn test_pick_find_multiple() {
    let analyzers = json_with_comments_analyzers();
    let contents = br#"{"msg": "Comments? IDK"}"#;
    let language = analyzers.pick("test.json", contents, 1 << 20).unwrap();
    assert_eq!(language.name(), "JSON", "It should pick the language with the higher priority");
}

#[test]
fn test_pick_unique_extension() {
    // An extension that names exactly one language resolves to it.
    let mut rust = def("Rust", Category::Programming, None);
    rust.extensions = strings(&["rs"]);
    let mut toml = def("TOML", Category::Data, None);
    toml.extensions = strings(&["toml"]);
    let analyzers = Analyzers::new(vec![rust, toml]).unwrap();
    let language = analyzers.pick("src/main.rs", b"fn main() {}", 1 << 20).unwrap();
    assert_eq!(language.name(), "Rust");
    assert_eq!(language.color(), "#cccccc");
}

#[test]
fn test_pick_by_shebang_interpreter() {
    let mut python = def("Python", Category::Programming, None);
    python.extensions = strings(&["py"]);
    python.interpreters = strings(&["python", "python3"]);
    let mut rust = def("Rust", Category::Programming, None);
    rust.extensions = strings(&["rs"]);
    let analyzers = Analyzers::new(vec![python, rust]).unwrap();
    let language = analyzers.pick("run.py", b"#!/usr/bin/env python\nprint(1)", 1 << 20).unwrap();
    assert_eq!(language.name(), "Python");
}

#[test]
fn test_pick_priority_tie_break() {
    // Two languages share the extension; the higher priority wins.
    let mut low = def("Low", Category::Data, Some(40));
    low.extensions = strings(&["json"]);
    let mut high = def("High", Category::Data, Some(80));
    high.extensions = strings(&["json"]);
    let analyzers = Analyzers::new(vec![low, high]).unwrap();
    let language = analyzers.pick("data.json", b"{}", 1 << 20).unwrap();
    assert_eq!(language.name(), "High");
}

#[test]
fn test_pick_equal_priority_takes_first() {
    // Equal priorities resolve to the earliest definition.
    let mut first = def("First", Category::Data, Some(50));
    first.extensions = strings(&["json"]);
    let mut second = def("Second", Category::Data, Some(50));
    second.extensions = strings(&["json"]);
    let analyzers = Analyzers::new(vec![first, second]).unwrap();
    let language = analyzers.pick("data.json", b"{}", 1 << 20).unwrap();
    assert_eq!(language.name(), "First");
}

#[test]
fn test_pick_heuristic_then_priority() {
    // JSON priority 50 first, JSON with Comments priority 60 with a
    // comment heuristic: commented content goes to the dialect, and
    // unhinted content still does, by priority.
    let mut json = def("JSON", Category::Data, Some(50));
    json.extensions = strings(&["json"]);
    let mut jsonc = def("JSON with Comments", Category::Data, Some(60));
    jsonc.extensions = strings(&["json"]);
    jsonc.heuristics = strings(&["//"]);
    let analyzers = Analyzers::new(vec![json, jsonc]).unwrap();
    let commented = analyzers.pick("a.json", JSONC_FILE, 1 << 20).unwrap();
    assert_eq!(commented.name(), "JSON with Comments");
    let plain = analyzers.pick("a.json", b"{}", 1 << 20).unwrap();
    assert_eq!(plain.name(), "JSON with Comments");
}

#[test]
fn test_pick_no_signal_is_none() {
    let analyzers = shell_analyzers();
    assert!(analyzers.pick("README.md", b"# hello\n", 1 << 20).is_none());
}

#[test]
fn test_heuristic_respects_read_limit() {
    // The comment lies beyond the read limit, so the heuristic cannot see
    // it and priority decides.
    let analyzers = json_with_comments_analyzers();
    let language = analyzers.pick("test.json", JSONC_FILE, 2).unwrap();
    assert_eq!(language.name(), "JSON");
}

#[test]
fn test_get_is_case_insensitive() {
    let mut rust = def("Rust", Category::Programming, None);
    rust.extensions = strings(&["rs"]);
    let analyzers = Analyzers::new(vec![rust]).unwrap();
    assert_eq!(analyzers.get("RUST").unwrap().name(), "Rust");
    assert_eq!(analyzers.get("rust").unwrap().name(), "Rust");
    assert!(analyzers.get("go").is_none());
}

#[test]
fn test_found_accessors() {
    let analyzers = shell_analyzers();
    let none = analyzers.by_shebang(b"plain text");
    assert!(none.is_empty());
    assert_eq!(none.len(), 0);
    assert_eq!(none.first(), None);
}

#[test]
fn test_from_extension() {
    let analyzers = json_with_comments_analyzers();
    let found = analyzers.by_extension("anything.json");
    assert_eq!(found.len(), 2);
    let shell = shell_analyzers();
    assert_eq!(shell.by_extension("run.sh").first(), Some("shell"));
}

#[test]
fn test_unused_extension() {
    let analyzers = json_with_comments_analyzers();
    let found = analyzers.by_extension("totally.unused.extension");
    assert!(found.is_empty());
}

#[test]
fn test_from_filename() {
    let mut docker = def("Dockerfile", Category::Programming, None);
    docker.filenames = strings(&["Dockerfile"]);
    let analyzers = Analyzers::new(vec![docker]).unwrap();
    assert_eq!(analyzers.by_filename("sub/dir/Dockerfile").first(), Some("dockerfile"));
}

#[test]
fn test_unused_filename() {
    let analyzers = shell_analyzers();
    let found = analyzers.by_filename("!!!totally-unused-filename!!!");
    assert!(found.is_empty());
}

#[test]
fn test_from_interpreter() {
    let analyzers = shell_analyzers();
    assert_eq!(analyzers.by_shebang(b"#!/bin/sh\n").first(), Some("shell"));
    assert_eq!(analyzers.by_shebang(b"#!/usr/bin/env bash\n").first(), Some("shell"));
}

#[test]
fn test_unused_interpreter() {
    let analyzers = shell_analyzers();
    let found = analyzers.by_shebang(b"#!/bin/totallyunusedinterpreter\n");
    assert!(found.is_empty());
}
