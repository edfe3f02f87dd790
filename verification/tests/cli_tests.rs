//! The JavaScript-repository scenarios: a small file set in the shape the
//! command-line tool analyzes, checked against the summary, the breakdown
//! and a JSON rendering.

use gengo::analysis::Analysis;
use gengo::analysis::Opts;
use gengo::analyzer::AnalyzerDef;
use gengo::Analyzers;
use gengo::Builder;
use gengo::Category;
use gengo::FileRecord;
use gengo::Gengo;
use gengo::Overrides;

fn strings(items: &[&str]) -> Vec<String> {
    items.iter().map(|s| s.to_string()).collect()
}

fn javascript_gengo() -> Gengo {
    let mut js = AnalyzerDef {
        name: "JavaScript".to_string(),
        category: Category::Programming,
        color: "#f1e05a".to_string(),
        extensions: strings(&["js"]),
        filenames: Vec::new(),
        patterns: Vec::new(),
        interpreters: strings(&["node"]),
        heuristics: Vec::new(),
        priority: None,
    };
    js.filenames = strings(&[".eslintrc"]);
    let markdown = AnalyzerDef {
        name: "Markdown".to_string(),
        category: Category::Prose,
        color: "#083fa1".to_string(),
        extensions: strings(&["md", "markdown"]),
        filenames: Vec::new(),
        patterns: Vec::new(),
        interpreters: Vec::new(),
        heuristics: Vec::new(),
        priority: None,
    };
    let json = AnalyzerDef {
        name: "JSON".to_string(),
        category: Category::Data,
        color: "#cccccc".to_string(),
        extensions: strings(&["json"]),
        filenames: Vec::new(),
        patterns: Vec::new(),
        interpreters: Vec::new(),
        heuristics: Vec::new(),
        priority: None,
    };
    let analyzers = Analyzers::new(vec![js, markdown, json]).unwrap();
    Builder::new(analyzers).build()
}

fn record(path: &str, contents: &[u8]) -> FileRecord {
    FileRecord {
        path: path.to_string(),
        contents: contents.to_vec(),
        overrides: Overrides::default(),
    }
}

fn javascript_repo() -> Vec<FileRecord> {
    vec![
        record("index.js", b"console.log('hello, world!');\n"),
        record("lib/util.js", b"module.exports = {};\n"),
        record("node_modules/leftpad/index.js", b"module.exports = function () {};\n"),
        record("package.json", b"{\n  \"name\": \"example\"\n}\n"),
        record("README.md", b"# example\n"),
    ]
}

fn analyze_javascript_repo() -> Analysis {
    javascript_gengo().analyze(&javascript_repo())
}

/// Renders a summary the way the pretty format does: percentage, size and
/// name per line, largest first.
fn render_summary(analysis: &Analysis, all: bool) -> String {
    let mut opts: Opts = Default::default();
    opts.all = all;
    let summary = analysis.summary_with(opts);
    let total = summary.total() as f64;
    let mut rows: Vec<(String, usize)> = summary
        .entries()
        .iter()
        .map(|(language, size)| (language.name().to_string(), *size))
        .collect();
    rows.sort_by_key(|(name, size)| (usize::MAX - *size, name.clone()));
    let mut out = String::new();
    for (name, size) in rows {
        let percentage = (size * 100) as f64 / total;
        out.push_str(&format!("{:>6.2}% {:<7} {}\n", percentage, size, name));
    }
    out
}

#[test]
fn test_javascript_repo() {
    let analysis = analyze_javascript_repo();
    // Only the two first-party JavaScript files are detectable.
    let rendered = render_summary(&analysis, false);
    assert_eq!(rendered, "100.00% 51      JavaScript\n");
}

#[test]
fn test_breakdown_javascript_repo() {
    let analysis = analyze_javascript_repo();
    // Group the detectable entries' paths by language, path-sorted.
    let mut paths: Vec<String> = analysis
        .entries()
        .iter()
        .filter(|(_, entry)| entry.detectable())
        .map(|(path, entry)| format!("{}: {}", entry.language().name(), path))
        .collect();
    paths.sort();
    assert_eq!(paths, vec!["JavaScript: index.js", "JavaScript: lib/util.js"]);
}

#[test]
fn test_color_javascript_repo() {
    let analysis = analyze_javascript_repo();
    let summary = analysis.summary();
    let rows = summary.entries();
    assert_eq!(rows.len(), 1);
    // The pretty format colors each line with the language's color.
    assert_eq!(rows[0].0.color_rgb(), Ok((0xf1, 0xe0, 0x5a)));
}

#[test]
fn test_color_breakdown_javascript_repo() {
    let analysis = analyze_javascript_repo();
    for (_, entry) in analysis.entries() {
        let (r, g, b) = entry.language().color_rgb().expect("a well-formed color");
        match entry.language().name() {
            "JavaScript" => assert_eq!((r, g, b), (0xf1, 0xe0, 0x5a)),
            "Markdown" => assert_eq!((r, g, b), (0x08, 0x3f, 0xa1)),
            "JSON" => assert_eq!((r, g, b), (0xcc, 0xcc, 0xcc)),
            other => panic!("unexpected language {}", other),
        }
    }
}

#[test]
fn test_json_output_on_javascript_repo() {
    let analysis = analyze_javascript_repo();
    // Render the analysis as JSON, then read it back.
    let mut out = String::new();
    out.push('{');
    for (i, (path, entry)) in analysis.entries().iter().enumerate() {
        if i > 0 {
            out.push(',');
        }
        out.push_str(&format!(
            "{}:{{\"language\":{},\"size\":{},\"detectable\":{},\"generated\":{},\"documentation\":{},\"vendored\":{}}}",
            serde_json::to_string(path).unwrap(),
            serde_json::to_string(entry.language().name()).unwrap(),
            entry.size(),
            entry.detectable(),
            entry.generated(),
            entry.documentation(),
            entry.vendored(),
        ));
    }
    out.push('}');
    let value: serde_json::Value = serde_json::from_str(&out).unwrap();
    let object = value.as_object().unwrap();
    assert_eq!(object.len(), 5);
    assert_eq!(object["index.js"]["language"], "JavaScript");
    assert_eq!(object["index.js"]["size"], 30);
    assert_eq!(object["index.js"]["detectable"], true);
    assert_eq!(object["node_modules/leftpad/index.js"]["vendored"], true);
    assert_eq!(object["node_modules/leftpad/index.js"]["detectable"], false);
    assert_eq!(object["README.md"]["detectable"], false);
    assert_eq!(object["package.json"]["language"], "JSON");
}
