use style_compiler::options::{
    get_minify_options, get_parser_options, get_printer_options, get_targets, major_version,
    BrowserVersions, CompileTargets, MinifyOptions, ParserOptions, PrinterOptions,
};

fn expected_browsers() -> BrowserVersions {
    BrowserVersions {
        android: None,
        chrome: Some(55 << 16),
        edge: None,
        firefox: None,
        ie: None,
        ios_saf: None,
        opera: None,
        safari: Some(13 << 16),
        samsung: None,
    }
}

#[test]
fn targets_are_safari_13_and_chrome_55() {
    assert_eq!(get_targets(), CompileTargets { browsers: Some(expected_browsers()) });
    assert_eq!(get_targets().browsers.unwrap().safari, Some(851968));
    assert_eq!(get_targets().browsers.unwrap().chrome, Some(3604480));
}

#[test]
fn printer_minifies_for_the_targets() {
    assert_eq!(get_printer_options(), PrinterOptions { minify: true, targets: get_targets() });
}

#[test]
fn minifier_works_for_the_targets() {
    assert_eq!(get_minify_options(), MinifyOptions { targets: get_targets() });
}

#[test]
fn parser_reports_errors() {
    assert_eq!(get_parser_options(), ParserOptions { error_recovery: false });
}

#[test]
fn major_version_is_shifted_by_sixteen_bits() {
    assert_eq!(major_version(0), 0);
    assert_eq!(major_version(1), 65536);
    assert_eq!(major_version(13), 13 << 16);
    assert_eq!(major_version(65535), 65535 << 16);
}

#[test]
fn legacy_printer_targets_older_browsers() {
    let options = style_compiler::printer_options::get_printer_options();
    assert!(options.minify);
    assert_eq!(
        options.targets.browsers,
        Some(BrowserVersions {
            android: Some(6),
            chrome: Some(55),
            edge: None,
            firefox: None,
            ie: None,
            ios_saf: Some(11),
            opera: None,
            safari: Some(11),
            samsung: None,
        })
    );
}
