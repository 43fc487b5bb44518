use typst_preview::cache::Cache;
use typst_preview::compile::{prepare_compile, RunResult, Status};
use typst_preview::fonts::is_font_path;
use typst_preview::lines::{column_number, line_index, line_range, ColumnError};
use typst_preview::settings::{
    CliArguments, Command, CompileCommand, CompileSettings, FontsCommand, FontsSettings,
};

#[test]
fn missing_root_becomes_a_diagnostic() {
    let mut cache = Cache::new();
    let r = prepare_compile(&mut cache, "missing-root.typ");
    match r {
        Ok(_) => panic!("a missing root must not resolve"),
        Err(RunResult::Diagnostics(ds)) => {
            assert_eq!(ds.len(), 1);
            assert!(ds[0].message.contains("missing-root.typ"));
            assert!(ds[0].source.is_none());
        },
        Err(RunResult::Rendered(_)) => panic!("a missing root must not render"),
    }
}

#[test]
fn readable_root_resolves_after_reset() {
    let mut cache = Cache::new();
    let id = match prepare_compile(&mut cache, "/etc/passwd") {
        Ok(id) => id,
        Err(_) => panic!("a readable root must resolve"),
    };
    assert_eq!(cache.source_by_id(id).path, "/etc/passwd");
    // Each cycle re-reads: a second cycle consumes a second read.
    assert_eq!(cache.loads(), 1);
    assert!(prepare_compile(&mut cache, "/etc/passwd").is_ok());
    assert_eq!(cache.loads(), 2);
}

#[test]
fn status_messages() {
    assert_eq!(Status::Compiling.message(), "compiling ...");
    assert_eq!(Status::Success.message(), "compiled successfully");
    assert_eq!(Status::Error.message(), "compiled with errors");
}

#[test]
fn settings_carry_their_arguments() {
    let s = CompileSettings::new("main.typ".to_string(), true, None, vec![]);
    assert_eq!(s.input, "main.typ");
    assert!(s.watch);
    let args = CliArguments {
        command: Command::Watch(CompileCommand { input: "doc.typ".to_string() }),
        root: Some("/work".to_string()),
        font_paths: vec!["/fonts".to_string()],
        host: None,
    };
    let s = CompileSettings::with_arguments(args);
    assert_eq!(s.input, "doc.typ");
    assert!(s.watch);
    assert_eq!(s.root.as_deref(), Some("/work"));
    assert_eq!(s.font_paths, vec!["/fonts".to_string()]);

    let args = CliArguments {
        command: Command::Fonts(FontsCommand { variants: true }),
        root: None,
        font_paths: vec![],
        host: None,
    };
    let f = FontsSettings::with_arguments(args);
    assert!(f.variants);
    assert!(f.font_paths.is_empty());
}

#[test]
fn font_paths_are_filtered_by_extension() {
    assert!(is_font_path("/usr/share/fonts/DejaVuSans.ttf"));
    assert!(is_font_path("a/b/NewCM10-Regular.OTF"));
    assert!(is_font_path("pack.ttc"));
    assert!(!is_font_path("README.md"));
    assert!(!is_font_path("ttf"));
    assert!(!is_font_path("dir.ttf/file"));
    assert!(!is_font_path("/fonts/.ttf"));
    assert!(!is_font_path("font.ttf.bak"));
}

#[test]
fn line_lookups_match_the_text() {
    let text = "ab\ncde\n\nf";
    assert_eq!(line_index(text, 0), Some(0));
    assert_eq!(line_index(text, 2), Some(0));
    assert_eq!(line_index(text, 3), Some(1));
    assert_eq!(line_index(text, 9), Some(3));
    assert_eq!(line_index(text, 10), None);
    assert_eq!(line_range(text, 0), Some((0, 3)));
    assert_eq!(line_range(text, 1), Some((3, 7)));
    assert_eq!(line_range(text, 2), Some((7, 8)));
    assert_eq!(line_range(text, 3), Some((8, 9)));
    assert_eq!(line_range(text, 4), None);
    assert_eq!(column_number(text, 0), Ok(1));
    assert_eq!(column_number(text, 2), Ok(3));
    assert_eq!(column_number(text, 3), Ok(1));
    assert_eq!(column_number(text, 5), Ok(3));
    assert_eq!(column_number(text, 42), Err(ColumnError::PastEnd));
}

#[test]
fn line_lookups_use_byte_offsets() {
    // A two-byte character: every offset below is a byte offset, exactly as
    // the compiler's spans report them.
    let text = "\u{e9}a\nb";
    assert_eq!(text.len(), 5);
    assert_eq!(line_index(text, 3), Some(0));
    assert_eq!(line_index(text, 4), Some(1));
    assert_eq!(line_index(text, 5), Some(1));
    assert_eq!(line_index(text, 6), None);
    assert_eq!(line_range(text, 0), Some((0, 4)));
    assert_eq!(line_range(text, 1), Some((4, 5)));
    // Offset 1 splits the two-byte character.
    assert_eq!(column_number(text, 1), Err(ColumnError::NotCharBoundary));
    assert_eq!(column_number(text, 2), Ok(2));
    assert_eq!(column_number(text, 3), Ok(3));
    assert_eq!(column_number(text, 4), Ok(1));
}
