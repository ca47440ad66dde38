use lightningcss::bundler::{Bundler, ResolveResult, SourceProvider};
use lightningcss::stylesheet::{ParserOptions, PrinterOptions};
use lightningcss::targets::{Browsers, Targets};
use std::collections::HashMap;
use std::io::{Error as IoError, ErrorKind};
use std::path::{Path, PathBuf};
use std::sync::Mutex;
use style_compiler::compile_css::{
    is_remote_import, CompileResult, ImportEntry, ResolveError, TrackingProvider,
};
use style_compiler::error::CompileError;
use style_compiler::js_compile_css::{js_compile_result, JSCompileResult};
use style_compiler::node_path::get_basename;
use style_compiler::options::get_printer_options;

fn entry(from: &str, to: &[&str]) -> ImportEntry {
    ImportEntry { from: from.to_string(), to: to.iter().map(|t| t.to_string()).collect() }
}

fn read(provider: &mut TrackingProvider, path: &str) {
    let outcome: Result<&str, ()> = Ok("");
    assert_eq!(provider.read(path, outcome), Ok(""));
}

fn resolve(provider: &mut TrackingProvider, from: &str, specifier: &str, to: &str) {
    let outcome: Result<(u8, String), ()> = Ok((7, to.to_string()));
    assert_eq!(provider.resolve(specifier, from, outcome), Ok(7));
}

#[test]
fn entry_importing_one_file() {
    let mut provider = TrackingProvider::new();
    read(&mut provider, "entry.css");
    resolve(&mut provider, "entry.css", "foo.css", "foo.css");
    read(&mut provider, "foo.css");
    let result = provider.into_result("p{}".to_string());
    assert_eq!(result.css, "p{}");
    assert_eq!(result.dependencies, vec!["entry.css", "foo.css"]);
    assert_eq!(result.imports, vec![entry("entry.css", &["foo.css"])]);
}

#[test]
fn chain_of_three_files() {
    let mut provider = TrackingProvider::new();
    read(&mut provider, "a");
    resolve(&mut provider, "a", "./b", "b");
    read(&mut provider, "b");
    resolve(&mut provider, "b", "./c", "c");
    read(&mut provider, "c");
    let result = provider.into_result(String::new());
    assert_eq!(result.dependencies, vec!["a", "b", "c"]);
    assert_eq!(result.imports, vec![entry("a", &["b"]), entry("b", &["c"])]);
}

#[test]
fn new_record_is_empty() {
    let result = TrackingProvider::new().into_result("x".to_string());
    assert_eq!(
        result,
        CompileResult { css: "x".to_string(), dependencies: vec![], imports: vec![] }
    );
}

#[test]
fn file_read_twice_is_recorded_once() {
    let mut provider = TrackingProvider::new();
    read(&mut provider, "a");
    read(&mut provider, "b");
    read(&mut provider, "a");
    read(&mut provider, "c");
    read(&mut provider, "b");
    assert_eq!(provider.into_result(String::new()).dependencies, vec!["a", "b", "c"]);
}

#[test]
fn failed_read_leaves_no_trace() {
    let mut provider = TrackingProvider::new();
    read(&mut provider, "a");
    let outcome: Result<&str, &str> = Err("missing");
    assert_eq!(provider.read("b", outcome), Err("missing"));
    let result = provider.into_result(String::new());
    assert_eq!(result.dependencies, vec!["a"]);
    assert_eq!(result.imports, vec![]);
}

#[test]
fn imports_of_one_file_keep_their_order() {
    let mut provider = TrackingProvider::new();
    resolve(&mut provider, "a", "./c", "c");
    resolve(&mut provider, "b", "./c", "c");
    resolve(&mut provider, "a", "./b", "b");
    resolve(&mut provider, "a", "./c", "c");
    let result = provider.into_result(String::new());
    assert_eq!(result.imports, vec![entry("a", &["c", "b", "c"]), entry("b", &["c"])]);
    assert_eq!(result.dependencies, Vec::<String>::new());
}

#[test]
fn failed_resolution_leaves_no_trace() {
    let mut provider = TrackingProvider::new();
    resolve(&mut provider, "a", "./b", "b");
    let outcome: Result<(u8, String), &str> = Err("nowhere");
    assert_eq!(provider.resolve("./c", "a", outcome), Err(ResolveError::Failed("nowhere")));
    let outcome: Result<(u8, String), &str> = Err("nowhere");
    assert_eq!(provider.resolve("./c", "z", outcome), Err(ResolveError::Failed("nowhere")));
    assert_eq!(provider.into_result(String::new()).imports, vec![entry("a", &["b"])]);
}

#[test]
fn remote_import_is_refused() {
    let mut provider = TrackingProvider::new();
    let outcome: Result<(u8, String), ()> = Ok((1, "dir/https://example.com/b.css".to_string()));
    assert_eq!(
        provider.resolve("https://example.com/b.css", "a.css", outcome),
        Err(ResolveError::Remote("https://example.com/b.css".to_string()))
    );
    let outcome: Result<(u8, String), ()> = Err(());
    assert_eq!(
        provider.resolve("//cdn/b.css", "a.css", outcome),
        Err(ResolveError::Remote("//cdn/b.css".to_string()))
    );
    assert_eq!(provider.into_result(String::new()).imports, vec![]);
}

#[test]
fn remote_imports_are_told_from_local_ones() {
    assert!(is_remote_import("http://example.com/a.css"));
    assert!(is_remote_import("https://example.com/a.css"));
    assert!(is_remote_import("//example.com/a.css"));
    assert!(is_remote_import("https://"));
    assert!(!is_remote_import("./a.css"));
    assert!(!is_remote_import("a.css"));
    assert!(!is_remote_import("/abs/a.css"));
    assert!(!is_remote_import("https:/a.css"));
    assert!(!is_remote_import("dir/http://a.css"));
    assert!(!is_remote_import(""));
    assert!(!is_remote_import("HTTP://a"));
}

#[test]
fn bundle_result_goes_to_the_host_language() {
    let compiled = CompileResult {
        css: "a{}".to_string(),
        dependencies: vec!["a.css".to_string()],
        imports: vec![entry("a.css", &["b.css"])],
    };
    assert_eq!(
        js_compile_result(Ok(compiled)),
        Ok(JSCompileResult {
            css: "a{}".to_string(),
            dependencies: vec!["a.css".to_string()],
            imports: vec![entry("a.css", &["b.css"])],
        })
    );
    assert_eq!(
        js_compile_result(Err(CompileError::Bundle("no such file".to_string()))),
        Err("Error: BundleErrorKind: no such file".to_string())
    );
}

/// Files kept in memory, read and resolved with the record kept.
struct Files {
    texts: HashMap<PathBuf, String>,
    record: Mutex<TrackingProvider>,
}

impl Files {
    fn new(files: &[(&str, &str)]) -> Files {
        Files {
            texts: files.iter().map(|(path, text)| (PathBuf::from(path), text.to_string())).collect(),
            record: Mutex::new(TrackingProvider::new()),
        }
    }
}

impl SourceProvider for Files {
    type Error = IoError;

    fn read<'a>(&'a self, path: &Path) -> Result<&'a str, Self::Error> {
        let outcome = self
            .texts
            .get(path)
            .map(|text| text.as_str())
            .ok_or_else(|| IoError::new(ErrorKind::NotFound, "no such file"));
        self.record.lock().unwrap().read(&path.to_string_lossy(), outcome)
    }

    fn resolve(&self, specifier: &str, originating_file: &Path) -> Result<ResolveResult, Self::Error> {
        let path = originating_file.with_file_name(specifier);
        let target = path.to_string_lossy().into_owned();
        let outcome: Result<(ResolveResult, String), IoError> = Ok((ResolveResult::File(path), target));
        let from = originating_file.to_string_lossy();
        match self.record.lock().unwrap().resolve(specifier, &from, outcome) {
            Ok(resolved) => Ok(resolved),
            Err(ResolveError::Remote(written)) => {
                Err(IoError::new(ErrorKind::Other, format!("{} is not a local style sheet", written)))
            }
            Err(ResolveError::Failed(error)) => Err(error),
        }
    }
}

fn printer_options<'a>() -> PrinterOptions<'a> {
    let options = get_printer_options();
    let targets = Targets::from(options.targets.browsers.map(|b| Browsers {
        android: b.android,
        chrome: b.chrome,
        edge: b.edge,
        firefox: b.firefox,
        ie: b.ie,
        ios_saf: b.ios_saf,
        opera: b.opera,
        safari: b.safari,
        samsung: b.samsung,
    }));
    PrinterOptions { minify: options.minify, targets, ..PrinterOptions::default() }
}

fn bundle(files: &[(&str, &str)], entry: &str) -> Result<CompileResult, CompileError> {
    let provider = Files::new(files);
    let printed = {
        let mut bundler = Bundler::new(&provider, None, ParserOptions::default());
        let sheet = bundler.bundle(Path::new(entry)).map_err(|e| CompileError::Bundle(e.to_string()))?;
        sheet.to_css(printer_options()).map_err(|e| CompileError::Print(e.to_string()))?
    };
    Ok(provider.record.into_inner().unwrap().into_result(printed.code))
}

#[test]
fn test_basic_bundle() {
    let result = bundle(
        &[
            ("/dir/a.css", "@import \"./b.css\";\n.a { color: red; .a-child { color: blue; } }\n"),
            ("/dir/b.css", "@import \"./c.css\";\n.b { padding: 0; background: url(\"./b.png\"); }\n"),
            ("/dir/c.css", ".c { padding: 0 }\n"),
        ],
        "/dir/a.css",
    )
    .unwrap();
    assert_eq!(result.dependencies.len(), 3);
    let names: Vec<String> =
        result.dependencies.iter().map(|path| get_basename(path, true).unwrap()).collect();
    assert_eq!(names, vec!["a.css", "b.css", "c.css"]);
    let mut graph: Vec<String> = result
        .imports
        .iter()
        .map(|entry| {
            let targets: Vec<String> =
                entry.to.iter().map(|path| get_basename(path, true).unwrap()).collect();
            format!("{}: {:?}", get_basename(&entry.from, true).unwrap(), targets)
        })
        .collect();
    graph.sort();
    assert_eq!(graph, vec!["a.css: [\"b.css\"]", "b.css: [\"c.css\"]"]);
    assert_eq!(
        result.css,
        ".c{padding:0}.b{padding:0;background:url(./b.png)}.a{color:red}.a .a-child{color:#00f}"
    );
}

#[test]
fn test_js_compile_css() {
    let result = js_compile_result(bundle(
        &[
            ("/dir/entry.css", "@import 'foo.css';\nbody {\n  color: red;\n}\n"),
            ("/dir/foo.css", "p { color: blue; }"),
        ],
        "/dir/entry.css",
    ))
    .unwrap();
    assert_eq!(result.dependencies.len(), 2);
    assert_eq!(result.css, "p{color:#00f}body{color:red}");
    let names: Vec<String> =
        result.dependencies.iter().map(|path| get_basename(path, true).unwrap()).collect();
    assert_eq!(names, vec!["entry.css", "foo.css"]);
    let imports = result.imports.iter().find(|entry| entry.from == "/dir/entry.css").unwrap();
    let targets: Vec<String> = imports.to.iter().map(|x| get_basename(x, true).unwrap()).collect();
    assert_eq!(targets, vec!["foo.css"]);
}

#[test]
fn test_bundle_err() {
    let result = bundle(
        &[(
            "/dir/a.css",
            "@import \"https://example.com/b.css\";\n.a { color: red; .a-child { color: blue; } }\n",
        )],
        "/dir/a.css",
    );
    assert!(result.is_err());
    match result {
        Err(CompileError::Bundle(words)) => {
            assert!(words.contains("https://example.com/b.css is not a local style sheet"), "{}", words)
        }
        other => panic!("unexpected result {:?}", other),
    }
}

#[test]
fn test_parse_err() {
    let result = bundle(
        &[("/dir/a.css", "\"a { color: red; } .a color: blue; height: 100px}\"\n")],
        "/dir/a.css",
    );
    assert!(result.is_err());
}

#[test]
fn bundle_of_a_missing_file_fails() {
    let result = bundle(&[("/dir/a.css", "@import \"./b.css\";")], "/dir/a.css");
    assert!(matches!(result, Err(CompileError::Bundle(_))));
}

#[test]
fn resolve_hands_on_what_the_resolution_gave() {
    let mut provider = TrackingProvider::new();
    let outcome: Result<(Vec<u8>, String), ()> = Ok((vec![1, 2], "b.css".to_string()));
    assert_eq!(provider.resolve("./b.css", "a.css", outcome), Ok(vec![1, 2]));
    assert_eq!(provider.into_result(String::new()).imports, vec![entry("a.css", &["b.css"])]);
}
