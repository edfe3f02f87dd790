use gengo::analysis::Opts;
use gengo::analyzer::AnalyzerDef;
use gengo::Analyzers;
use gengo::Builder;
use gengo::Category;
use gengo::FileRecord;
use gengo::Gengo;
use gengo::Overrides;

fn strings(items: &[&str]) -> Vec<String> {
    items.iter().map(|s| s.to_string()).collect()
}

fn def(name: &str, category: Category, color: &str) -> AnalyzerDef {
    AnalyzerDef {
        name: name.to_string(),
        category,
        color: color.to_string(),
        extensions: Vec::new(),
        filenames: Vec::new(),
        patterns: Vec::new(),
        interpreters: Vec::new(),
        heuristics: Vec::new(),
        priority: None,
    }
}

fn sample_gengo() -> Gengo {
    let mut rust = def("Rust", Category::Programming, "#dea584");
    rust.extensions = strings(&["rs"]);
    let mut js = def("JavaScript", Category::Programming, "#f1e05a");
    js.extensions = strings(&["js"]);
    let mut json = def("JSON", Category::Data, "#cccccc");
    json.extensions = strings(&["json"]);
    let mut markdown = def("Markdown", Category::Prose, "#083fa1");
    markdown.extensions = strings(&["md"]);
    let analyzers = Analyzers::new(vec![rust, js, json, markdown]).unwrap();
    Builder::new(analyzers).build()
}

fn record(path: &str, contents: &[u8]) -> FileRecord {
    FileRecord {
        path: path.to_string(),
        contents: contents.to_vec(),
        overrides: Overrides::default(),
    }
}

#[test]
fn test_analyze_blob_programming_file() {
    let gengo = sample_gengo();
    let entry = gengo.analyze_blob("src/main.rs", b"fn main() {}", &Overrides::default()).unwrap();
    assert_eq!(entry.language().name(), "Rust");
    assert_eq!(entry.size(), 12);
    assert!(entry.detectable());
    assert!(!entry.generated());
    assert!(!entry.documentation());
    assert!(!entry.vendored());
}

#[test]
fn test_analyze_blob_skips_binary() {
    let gengo = sample_gengo();
    let entry = gengo.analyze_blob("src/blob.rs", b"ab\0c", &Overrides::default());
    assert!(entry.is_none());
}

#[test]
fn test_analyze_blob_skips_unknown() {
    let gengo = sample_gengo();
    let entry = gengo.analyze_blob("notes.txt", b"plain text", &Overrides::default());
    assert!(entry.is_none());
}

#[test]
fn test_data_category_not_detectable() {
    let gengo = sample_gengo();
    let entry = gengo.analyze_blob("package.json", b"{}", &Overrides::default()).unwrap();
    assert_eq!(entry.language().name(), "JSON");
    assert!(!entry.detectable());
}

#[test]
fn test_generated_file_not_detectable() {
    // A Programming-category file marked generated is never detectable.
    let gengo = sample_gengo();
    let overrides = Overrides {
        is_generated: Some(true),
        ..Overrides::default()
    };
    let entry = gengo.analyze_blob("src/gen.rs", b"fn gen() {}", &overrides).unwrap();
    assert_eq!(*entry.language().category(), Category::Programming);
    assert!(entry.generated());
    assert!(!entry.detectable());
}

#[test]
fn test_vendored_path_no_read() {
    // The vendored flag comes from the path alone.
    let gengo = sample_gengo();
    assert!(gengo.is_vendored("node_modules/library/something.js", b""));
    assert!(!gengo.is_vendored("src/something.rs", b""));
    assert!(gengo.is_vendored("tests/fixtures/foo.json", b""));
    assert!(gengo.is_vendored("package/tests/fixtures/foo.json", b""));
    let entry = gengo
        .analyze_blob("node_modules/library/something.js", b"var x = 1;", &Overrides::default())
        .unwrap();
    assert!(entry.vendored());
    assert!(!entry.detectable());
}

#[test]
fn test_documentation_paths() {
    let gengo = sample_gengo();
    assert!(gengo.is_documentation("docs/something.md", b""));
    assert!(!gengo.is_documentation("src/something.rs", b""));
    assert!(gengo.is_documentation("docs/subfolder/something.md", b""));
    assert!(!gengo.is_documentation("", b""));
    assert!(!gengo.is_documentation("docs", b""));
    assert!(gengo.is_documentation("CHANGELOG", b""));
    assert!(gengo.is_documentation("CHANGELOG.txt", b""));
    assert!(gengo.is_documentation("CHANGELOG.md", b""));
    assert!(gengo.is_documentation("HACKING", b""));
    assert!(gengo.is_documentation("HACKING.md", b""));
    assert!(gengo.is_documentation("README", b""));
    assert!(gengo.is_documentation("README.txt", b""));
    assert!(gengo.is_documentation("README.md", b""));
}

#[test]
fn test_generated_paths() {
    let gengo = sample_gengo();
    assert!(gengo.is_generated("dist/something.js", b""));
    assert!(!gengo.is_generated("src/something.rs", b""));
    assert!(gengo.is_generated("dist/subfolder/something.js", b""));
    assert!(gengo.is_generated("something.min.js", b""));
    assert!(gengo.is_generated("something.min.css", b""));
    assert!(gengo.is_generated("path/to/something.min.js", b""));
    assert!(gengo.is_generated(".yarn/releases/yarn-1.2.3.cjs", b""));
    assert!(gengo.is_generated("migrations/0001_initial.py", b""));
    assert!(gengo.is_generated("myapp/migrations/0001_initial.py", b""));
    assert!(gengo.is_generated("gradlew", b""));
    assert!(gengo.is_generated("gradlew.bat", b""));
}

#[test]
fn test_is_binary() {
    let gengo = sample_gengo();
    assert!(!gengo.is_binary("foo.txt", b""));
    assert!(!gengo.is_binary("foo.txt", b"Hello, world!"));
    assert!(gengo.is_binary("foo.txt", b"ab\0c"));
}

#[test]
fn test_binary_respects_read_limit() {
    let binary = gengo::binary::Binary::new(2);
    assert!(!binary.is_binary("foo.bin", b"ab\0c"));
    assert!(binary.is_binary("foo.bin", b"\0abc"));
}

#[test]
fn test_language_override_skips_resolution() {
    // The path and contents would resolve to Rust; the override wins.
    let gengo = sample_gengo();
    let overrides = Overrides {
        language: Some("javascript".to_string()),
        ..Overrides::default()
    };
    let entry = gengo.analyze_blob("src/main.rs", b"fn main() {}", &overrides).unwrap();
    assert_eq!(entry.language().name(), "JavaScript");
}

#[test]
fn test_unknown_language_override_is_ignored() {
    let gengo = sample_gengo();
    let overrides = Overrides {
        language: Some("no such language".to_string()),
        ..Overrides::default()
    };
    let entry = gengo.analyze_blob("src/main.rs", b"fn main() {}", &overrides).unwrap();
    assert_eq!(entry.language().name(), "Rust");
}

#[test]
fn test_detectable_override_wins() {
    let gengo = sample_gengo();
    let overrides = Overrides {
        is_detectable: Some(true),
        ..Overrides::default()
    };
    let entry = gengo.analyze_blob("package.json", b"{}", &overrides).unwrap();
    assert!(entry.detectable());
}

#[test]
fn test_analyze_collects_entries() {
    let gengo = sample_gengo();
    let files = vec![
        record("src/main.rs", b"fn main() {}"),
        record("web/app.js", b"var x = 1;"),
        record("image.bin", b"\0\0\0"),
        record("notes.txt", b"unclassified"),
    ];
    let analysis = gengo.analyze(&files);
    let entries = analysis.entries();
    assert_eq!(entries.len(), 2);
    assert_eq!(entries[0].0, "src/main.rs");
    assert_eq!(entries[0].1.language().name(), "Rust");
    assert_eq!(entries[1].0, "web/app.js");
    assert_eq!(entries[1].1.language().name(), "JavaScript");
}

#[test]
fn test_analyze_is_idempotent() {
    let gengo = sample_gengo();
    let files = vec![
        record("src/main.rs", b"fn main() {}"),
        record("web/app.js", b"var x = 1;"),
        record("README.md", b"# docs"),
    ];
    let first = gengo.analyze(&files);
    let second = gengo.analyze(&files);
    assert_eq!(first.entries(), second.entries());
}

#[test]
fn test_summary_total_matches_sizes() {
    let gengo = sample_gengo();
    let files = vec![
        record("a.rs", b"fn a() {}"),
        record("b.rs", b"fn b() {}"),
        record("c.js", b"var c;"),
        record("README.md", b"# readme"),
    ];
    let analysis = gengo.analyze(&files);
    let summary = analysis.summary();
    // Markdown is Prose, so not detectable; the rest count.
    assert_eq!(summary.total(), 9 + 9 + 6);
    let rows = summary.entries();
    assert_eq!(rows.len(), 2);
    assert_eq!(rows[0].0.name(), "Rust");
    assert_eq!(rows[0].1, 18);
    assert_eq!(rows[1].0.name(), "JavaScript");
    assert_eq!(rows[1].1, 6);
}

#[test]
fn test_summary_with_all() {
    let gengo = sample_gengo();
    let files = vec![record("a.rs", b"fn a() {}"), record("README.md", b"# readme")];
    let analysis = gengo.analyze(&files);
    let mut opts: Opts = Default::default();
    opts.all = true;
    let all = analysis.summary_with(opts);
    assert_eq!(all.total(), 9 + 8);
    let detectable_only = analysis.summary();
    assert_eq!(detectable_only.total(), 9);
}

#[test]
fn test_percentages_sum_to_one_hundred() {
    let gengo = sample_gengo();
    let files = vec![
        record("a.rs", b"fn a() {}"),
        record("b.js", b"var b = 2;"),
        record("c.js", b"var c;"),
    ];
    let analysis = gengo.analyze(&files);
    let summary = analysis.summary();
    let total = summary.total() as f64;
    assert!(total > 0.0);
    let mut percent_sum = 0.0f64;
    for (_, size) in summary.entries() {
        percent_sum += (*size as f64) * 100.0 / total;
    }
    assert!((percent_sum - 100.0).abs() < 1e-9);
}

#[test]
fn test_builder_read_limit() {
    let analyzers = Analyzers::new(Vec::new()).unwrap();
    let builder = Builder::new(analyzers);
    let gengo = builder.read_limit(4).build();
    assert_eq!(gengo.read_limit, 4);
    assert_eq!(gengo.binary.read_limit, 4);
}
