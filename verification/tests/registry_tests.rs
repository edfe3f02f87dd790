use gengo::analyzer::AnalyzerDef;
use gengo::analyzer::RegistryLoadError;
use gengo::Analyzers;
use gengo::Category;
use gengo::Error;
use gengo::ErrorKind;
use gengo::LanguageOld;
use gengo::ParseError;

fn strings(items: &[&str]) -> Vec<String> {
    items.iter().map(|s| s.to_string()).collect()
}

fn def(name: &str) -> AnalyzerDef {
    AnalyzerDef {
        name: name.to_string(),
        category: Category::Programming,
        color: "#FF4400".to_string(),
        extensions: Vec::new(),
        filenames: Vec::new(),
        patterns: Vec::new(),
        interpreters: Vec::new(),
        heuristics: Vec::new(),
        priority: None,
    }
}

#[test]
fn test_duplicate_language_rejected() {
    // Names collide case-insensitively.
    let a = def("Rust");
    let b = def("rust");
    let err = Analyzers::new(vec![a, b]).unwrap_err();
    assert!(matches!(err, RegistryLoadError::DuplicateLanguage(_)));
}

#[test]
fn test_invalid_glob_rejected() {
    let mut a = def("Rust");
    a.patterns = strings(&["["]);
    let err = Analyzers::new(vec![a]).unwrap_err();
    assert!(matches!(err, RegistryLoadError::InvalidGlob(_)));
}

#[test]
fn test_invalid_regex_rejected() {
    let mut a = def("Rust");
    a.heuristics = strings(&["("]);
    let err = Analyzers::new(vec![a]).unwrap_err();
    assert!(matches!(err, RegistryLoadError::InvalidRegex(_)));
}

#[test]
fn test_priority_out_of_range_rejected() {
    let mut a = def("Rust");
    a.priority = Some(101);
    let err = Analyzers::new(vec![a]).unwrap_err();
    assert!(matches!(err, RegistryLoadError::InvalidPriority(_)));
}

#[test]
fn test_priority_hundred_accepted() {
    let mut a = def("Rust");
    a.priority = Some(100);
    assert!(Analyzers::new(vec![a]).is_ok());
}

#[test]
fn test_empty_registry_matches_nothing() {
    let analyzers = Analyzers::new(Vec::new()).unwrap();
    assert!(analyzers.pick("main.rs", b"fn main() {}", 1 << 20).is_none());
}

#[test]
fn test_language_accessors() {
    let language = LanguageOld {
        name: "Rust".to_string(),
        category: Category::Programming,
        color: "#dea584".to_string(),
    };
    assert_eq!(language.name(), "Rust");
    assert_eq!(*language.category(), Category::Programming);
    assert_eq!(language.color(), "#dea584");
}

#[test]
fn test_color_rgb() {
    let language = LanguageOld {
        name: "Rust".to_string(),
        category: Category::Programming,
        color: "#FF4400".to_string(),
    };
    assert_eq!(language.color_rgb(), Ok((255, 68, 0)));
    let lowercase = LanguageOld {
        name: "X".to_string(),
        category: Category::Data,
        color: "#dea584".to_string(),
    };
    assert_eq!(lowercase.color_rgb(), Ok((0xde, 0xa5, 0x84)));
}

#[test]
fn test_color_rgb_rejects_malformed() {
    for color in ["dea584", "#dea58", "#dea5842", "#dea58g", "", "#+12345"] {
        let language = LanguageOld {
            name: "X".to_string(),
            category: Category::Data,
            color: color.to_string(),
        };
        assert_eq!(language.color_rgb(), Err(ParseError), "color {:?}", color);
    }
}

#[test]
fn test_category_parse() {
    assert_eq!(Category::parse("data"), Ok(Category::Data));
    assert_eq!(Category::parse("markup"), Ok(Category::Markup));
    assert_eq!(Category::parse("pattern"), Ok(Category::Pattern));
    assert_eq!(Category::parse("programming"), Ok(Category::Programming));
    assert_eq!(Category::parse("prose"), Ok(Category::Prose));
    assert_eq!(Category::parse("query"), Ok(Category::Query));
    assert_eq!(Category::parse("Data"), Err(ParseError));
    assert_eq!(Category::parse(""), Err(ParseError));
}

#[test]
fn test_category_detectability() {
    assert!(!Category::Data.detectable_by_default());
    assert!(!Category::Prose.detectable_by_default());
    assert!(Category::Markup.detectable_by_default());
    assert!(Category::Pattern.detectable_by_default());
    assert!(Category::Programming.detectable_by_default());
    assert!(Category::Query.detectable_by_default());
}

#[test]
fn test_error_kind() {
    let error = Error::new(ErrorKind::NoRepository);
    assert!(matches!(error.kind(), ErrorKind::NoRepository));
    assert!(error.source.is_none());
    let wrapped = Error::with_source(ErrorKind::NoRepository, "cause".to_string());
    assert_eq!(wrapped.source.as_deref(), Some("cause"));
    assert_eq!(ErrorKind::NoRepository.message(), "no repository found");
}

#[test]
fn test_default_priority() {
    assert_eq!(gengo::analyzer::default_priority(), 50);
}
