use gengo::generated::Generated;
use gengo::matcher::Extension;
use gengo::matcher::Filename;
use gengo::matcher::FilepathPattern;
use gengo::matcher::Shebang;
use gengo::shebang::shebang_interpreter;

fn strings(items: &[&str]) -> Vec<String> {
    items.iter().map(|s| s.to_string()).collect()
}

#[test]
fn test_matches_extension() {
    let analyzer = Extension::new(strings(&["txt"]));
    assert!(analyzer.matches("foo.txt"));
    assert!(!analyzer.matches("foo.rs"));
}

#[test]
fn test_matches_filename() {
    let analyzer = Filename::new(strings(&["LICENSE"]));
    assert!(analyzer.matches("LICENSE"));
    assert!(!analyzer.matches("Dockerfile"));
}

#[test]
fn test_matches_pattern() {
    let analyzer = FilepathPattern::new(strings(&["Makefile.*"]));
    assert!(analyzer.matches("Makefile.in"));
    let analyzer = FilepathPattern::new(strings(&[".vscode/*.json"]));
    assert!(analyzer.matches(".vscode/extensions.json"));
}

#[test]
fn test_rejects_pattern() {
    let analyzer = FilepathPattern::new(strings(&["Makefile.*"]));
    assert!(!analyzer.matches("Makefile.in/foo"));
}

#[test]
fn test_matches_shebang() {
    let analyzer = Shebang::new(strings(&["python", "python3"]));
    assert!(analyzer.matches(b"#!/bin/python\n"));
    assert!(analyzer.matches(b"#!/usr/bin/python\n"));
    assert!(analyzer.matches(b"#!/usr/local/bin/python\n"));
    assert!(analyzer.matches(b"#!/usr/bin/python3\n"));
    assert!(analyzer.matches(b"#!/usr/bin/env python\n"));
    assert!(analyzer.matches(b"#!/usr/bin/env\tpython\n"));
    assert!(!analyzer.matches(b"#!/bin/sh\n"));
}

#[test]
fn test_shebang_interpreter_forms() {
    assert_eq!(shebang_interpreter(b"#!/bin/sh"), Some(b"sh".to_vec()));
    assert_eq!(shebang_interpreter(b"#!/bin/sh\n"), Some(b"sh".to_vec()));
    assert_eq!(shebang_interpreter(b"#!/bin/sh\r\n"), Some(b"sh".to_vec()));
    assert_eq!(shebang_interpreter(b"#!/usr/bin/env sh\r\n"), Some(b"sh".to_vec()));
    assert_eq!(shebang_interpreter(b"#!/usr/bin/env  sh  \n"), Some(b"sh".to_vec()));
    assert_eq!(shebang_interpreter(b"#!/usr/bin/env"), Some(b"env".to_vec()));
    assert_eq!(shebang_interpreter(b"#!/bin/sh -e\n"), None);
    assert_eq!(shebang_interpreter(b"echo hello\n"), None);
    assert_eq!(shebang_interpreter(b"#!python\n"), None);
    assert_eq!(shebang_interpreter(b""), None);
    assert_eq!(shebang_interpreter(b"#!"), None);
    assert_eq!(shebang_interpreter(b"#! /bin/sh\n"), None);
    assert_eq!(shebang_interpreter(b"#!/bin/env python\n"), Some(b"python".to_vec()));
    assert_eq!(shebang_interpreter(b"#!/usr/bin/env python3 -u\n"), None);
    assert_eq!(shebang_interpreter(b"#!/usr/local/bin/ruby\n"), Some(b"ruby".to_vec()));
    assert_eq!(shebang_interpreter(b"#!/opt/bin/ruby\n"), None);
}

#[test]
fn test_shebang_line_cap() {
    // The first line is capped at 50 bytes before parsing.
    let mut long = b"#!/bin/".to_vec();
    long.extend(std::iter::repeat(b'p').take(60));
    long.push(b'\n');
    // Truncation at byte 50 leaves a token of word bytes, which matches.
    let tok = shebang_interpreter(&long).expect("expected a token");
    assert_eq!(tok.len(), 50 - 7);
    assert!(tok.iter().all(|&b| b == b'p'));
}

#[test]
fn test_likely_minified() {
    let generated = Generated::new();
    let header: Vec<u8> = b"/*!\n  * This is my license etc etc\n */".to_vec();
    let contents = b"console.log('hello, world!');".repeat(50);
    let contents = [header, contents].concat();
    assert!(generated.likely_minified(&contents));
}

#[test]
fn test_not_minified() {
    let generated = Generated::new();
    assert!(!generated.likely_minified(b"console.log('hi');\n"));
}
