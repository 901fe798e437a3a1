use std::path::Path;
use treesitter_index::cli::{
    framed_output, parse_args, parse_format, regexp_for_rg, resolve_language, should_prefilter,
    split_nul, write_file_prefix, Command, OutputFormat,
};
use treesitter_index::language::SourceLanguage;

fn run_args(values: &[&str]) -> treesitter_index::cli::Args {
    let args: Vec<String> = values.iter().map(|value| value.to_string()).collect();
    match parse_args(&args).unwrap() {
        Command::Run(args) => args,
        _ => panic!("expected a run"),
    }
}

fn parse_fails(values: &[&str]) -> bool {
    let args: Vec<String> = values.iter().map(|value| value.to_string()).collect();
    parse_args(&args).is_err()
}

#[test]
fn language_is_required_for_stdin() {
    let mut warnings = String::new();
    assert!(resolve_language(&mut warnings, None, None).is_err());
    assert_eq!(
        resolve_language(&mut warnings, Some(SourceLanguage::Python), None).unwrap(),
        Some(SourceLanguage::Python)
    );
    assert!(warnings.is_empty());
}

#[test]
fn warns_and_skips_files_with_unknown_languages() {
    let mut warnings = String::new();

    assert_eq!(
        resolve_language(&mut warnings, None, Some(Path::new("Cargo.toml"))).unwrap(),
        None
    );
    assert_eq!(
        warnings,
        "treesitter-index: warning: skipping Cargo.toml: unsupported file extension: .toml\n"
    );
}

#[test]
fn standard_input_given_as_a_dash_needs_a_language() {
    let mut warnings = String::new();
    assert_eq!(
        resolve_language(&mut warnings, None, Some(Path::new("-"))).unwrap_err(),
        "--type is required when reading from stdin"
    );
    assert_eq!(
        resolve_language(&mut warnings, None, Some(Path::new("main.go"))).unwrap(),
        Some(SourceLanguage::Go)
    );
    assert!(warnings.is_empty());
}

#[test]
fn accepts_all_output_formats() {
    assert!(matches!(
        parse_format("skeleton"),
        Ok(OutputFormat::Skeleton)
    ));
    assert!(matches!(parse_format("json"), Ok(OutputFormat::Json)));
    assert!(matches!(parse_format("sexp"), Ok(OutputFormat::Sexp)));
    assert!(parse_format("xml").is_err());
    assert_eq!(
        parse_format("xml").err().unwrap(),
        "unsupported output format: xml"
    );
}

#[test]
fn accepts_multiple_input_files() {
    let args = run_args(&["first.rs", "second.py", "third.ts"]);
    assert_eq!(args.files, ["first.rs", "second.py", "third.ts"]);
}

#[test]
fn accepts_short_option_variants() {
    let args = run_args(&[
        "--format", "json", "-t", "rust", "-g", "*.rs", "-g", "!main.rs", "lib.rs",
    ]);

    assert!(matches!(args.format, OutputFormat::Json));
    assert_eq!(args.language, Some(SourceLanguage::Rust));
    assert_eq!(args.files, ["lib.rs"]);
    assert_eq!(args.glob_values, ["*.rs", "!main.rs"]);
}

#[test]
fn accepts_repeated_symbol_regexps() {
    let args = run_args(&["-e", "^load.*", "--regexp", "^Service$", "--regexp=Repo."]);

    assert_eq!(args.regexps.len(), 3);
    assert!(args.regexps[0].is_match("loader"));
    assert!(args.regexps[1].is_match("Service"));
    assert!(args.regexps[2].is_match("Repo1"));
    assert!(!args.regexps[0].is_match("Loader"));
    assert!(!args.ignore_case);
    assert!(!args.match_imports);
    assert!(parse_fails(&["--format=json", "--regexp=load"]));
    assert!(parse_fails(&["--regexp"]));
    assert!(parse_fails(&["--regexp=["]));

    let insensitive = run_args(&["-i", "--regexp=^load$"]);
    assert!(insensitive.ignore_case);
    assert!(insensitive.regexps[0].is_match("Load"));

    let imports = run_args(&["--match-imports", "--regexp=^Service$"]);
    assert!(imports.match_imports);
    assert!(parse_fails(&["--match-imports"]));

    assert!(parse_fails(&["--glob=["]));
    for old_option in [
        "-f",
        "-l",
        "-x",
        "-c",
        "--language",
        "--include",
        "--exclude",
    ] {
        assert!(parse_fails(&[old_option]));
    }
}

#[test]
fn help_and_version_stop_reading_options() {
    let args: Vec<String> = vec!["-h".to_string(), "--bogus".to_string()];
    assert!(matches!(parse_args(&args), Ok(Command::Help)));
    let args: Vec<String> = vec!["--version".to_string()];
    assert!(matches!(parse_args(&args), Ok(Command::Version)));
}

#[test]
fn option_errors_name_the_problem() {
    let args: Vec<String> = vec!["--type".to_string()];
    assert_eq!(
        parse_args(&args).err().unwrap(),
        "--type requires a language name"
    );
    let args: Vec<String> = vec!["--bogus".to_string()];
    assert_eq!(parse_args(&args).err().unwrap(), "unknown option: --bogus");
    let args: Vec<String> = vec!["--type=cobol".to_string()];
    assert_eq!(
        parse_args(&args).err().unwrap(),
        "unsupported language: cobol"
    );
    let args: Vec<String> = vec!["--regexp=[".to_string()];
    assert!(parse_args(&args)
        .err()
        .unwrap()
        .starts_with("invalid regular expression \"[\": "));
    let args: Vec<String> = vec!["--glob=[".to_string()];
    assert!(parse_args(&args)
        .err()
        .unwrap()
        .starts_with("invalid glob pattern \"[\": "));
}

#[test]
fn broadens_symbol_anchors_for_rg() {
    assert_eq!(regexp_for_rg("^Load$"), "Load");
    assert_eq!(regexp_for_rg("(?m:^Load$)"), "(?m:Load)");
    assert_eq!(regexp_for_rg(r"\ALoad\z"), "Load");
    assert_eq!(regexp_for_rg(r"^[A-Z$]+\$$"), r"[A-Z$]+\$");
}

#[test]
fn rg_patterns_keep_escapes_and_classes() {
    assert_eq!(regexp_for_rg(r"[^a]\^x"), r"[^a]\^x");
    assert_eq!(regexp_for_rg(r"[\A]"), r"[\A]");
    assert_eq!(regexp_for_rg("a\\"), "a\\");
    assert_eq!(regexp_for_rg(""), "");
}

#[test]
fn splits_nul_separated_paths() {
    let out = split_nul(b"a.rs\0\0dir/b.py\0");
    assert_eq!(out, vec![b"a.rs".to_vec(), b"dir/b.py".to_vec()]);
    assert!(split_nul(b"").is_empty());
    assert_eq!(split_nul(b"last"), vec![b"last".to_vec()]);
}

#[test]
fn prefixes_and_separates_multiple_files() {
    let mut output = String::new();

    write_file_prefix(&mut output, Some(Path::new("first.rs")), 0, true).unwrap();
    output.push_str("first contents\n");
    write_file_prefix(&mut output, Some(Path::new("second.py")), 1, true).unwrap();
    output.push_str("second contents\n");

    assert_eq!(
        output,
        "first.rs\nfirst contents\n\nsecond.py\nsecond contents\n"
    );

    let mut single_output = String::new();
    write_file_prefix(&mut single_output, Some(Path::new("only.rs")), 0, false).unwrap();
    assert!(single_output.is_empty());
}

#[test]
fn reads_section_kinds_and_the_prefilter_switch() {
    let args = run_args(&["--kind", "fns, classes", "--no-prefilter", "src"]);
    assert!(!args.prefilter);
    assert_eq!(args.kinds.unwrap().len(), 2);
    let args = run_args(&["--kind=types", "src"]);
    assert!(args.prefilter);
    assert_eq!(args.kinds.unwrap().len(), 1);
    assert!(run_args(&["src"]).kinds.is_none());
    let bad: Vec<String> = vec!["--kind=fns,bogus".to_string()];
    assert_eq!(parse_args(&bad).err().unwrap(), "unsupported kind: bogus");
}

#[test]
fn prefilters_only_many_inputs_with_patterns() {
    assert!(should_prefilter(11, true, true));
    assert!(!should_prefilter(10, true, true));
    assert!(!should_prefilter(11, false, true));
    assert!(!should_prefilter(11, true, false));
}

#[test]
fn frames_outputs_and_skips_empty_selections() {
    let file = Path::new("a.rs");
    assert_eq!(
        framed_output("fns:\n", Some(file), 1, true, true).unwrap(),
        "\na.rs\nfns:\n"
    );
    assert_eq!(framed_output("x", Some(file), 0, false, false).unwrap(), "x");
    assert!(framed_output("", Some(file), 0, true, true).is_none());
    assert_eq!(framed_output("", None, 2, true, false).unwrap(), "\n");
}
