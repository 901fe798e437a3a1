use treesitter_index::cli::parse_kinds;
use treesitter_index::indexer::{skeleton, skeleton_matching, skeleton_selected};
use treesitter_index::language::SourceLanguage;
use treesitter_index::pattern::SymbolPattern;
use treesitter_index::syntax::parse_source;

fn index(source: &str) -> String {
    let language = SourceLanguage::Markdown;
    let root = parse_source(source.as_bytes(), language).unwrap();
    skeleton(language, &root, source.as_bytes())
}

fn index_matching(source: &str, pattern: &str) -> String {
    let language = SourceLanguage::Markdown;
    let root = parse_source(source.as_bytes(), language).unwrap();
    skeleton_matching(
        language,
        &root,
        source.as_bytes(),
        &vec![SymbolPattern::new(pattern, false).unwrap()],
    )
}

#[test]
fn extracts_atx_and_setext_heading_sections() {
    let output = index(
        "# Guide\n\
         Intro text.\n\n\
         Installation\n\
         ------------\n\n\
         ### Linux *notes*\n\
         Details.\n\n\
         ## Usage\n\
         Run it.\n",
    );

    assert_eq!(
        output,
        "headings:\n  # Guide [1-11]\n  ## Installation [4-8]\n  ### Linux *notes* [7-8]\n  ## Usage [10-11]\n"
    );
}

#[test]
fn ignores_heading_like_text_in_fenced_code_blocks() {
    let output = index("# Real\n\n```markdown\n# Not a heading\n```\n");

    assert_eq!(output, "headings:\n  # Real [1-5]\n");
}

#[test]
fn filters_headings_by_title() {
    let source = "# Guide\n\n## Install\nSteps.\n\n## Usage\nRun it.\n";
    let output = index_matching(source, "^Install$");

    assert_eq!(output, "headings:\n  ## Install [3-4]\n");
}

#[test]
fn filters_atx_headings_without_optional_closing_hashes() {
    let source = "# Guide ### \t\nIntro.\n\n## Next ##\nMore.\n";
    let output = index_matching(source, "^Guide$");

    assert_eq!(output, "headings:\n  # Guide [1-5]\n");
}

#[test]
fn only_strips_valid_atx_closing_delimiters() {
    for (heading, title) in [
        ("# Guide ###", "# Guide"),
        ("# Guide\t###\t", "# Guide"),
        ("# ###", "#"),
        ("# Guide###", "# Guide###"),
        (r"# Guide \###", r"# Guide \###"),
        (r"# Guide #\#", r"# Guide #\#"),
        (r"# Guide \# ###", r"# Guide \#"),
        (r"# Guide \\###", r"# Guide \\###"),
        (r"# Guide \\ ###", r"# Guide \\"),
        ("# Guide ### text", "# Guide ### text"),
        ("# Guide\u{a0}###", "# Guide ###"),
        ("# Guide ###\u{a0}", "# Guide ###"),
        ("# Guide `###`", "# Guide `###`"),
    ] {
        assert_eq!(
            index(heading),
            format!("headings:\n  {title} [1]\n"),
            "{heading:?}"
        );
    }
    assert_eq!(
        index("Guide ###\n===\n"),
        "headings:\n  # Guide ### [1-2]\n"
    );
}

#[test]
fn scopes_quoted_headings_without_terminating_outer_sections() {
    let output =
        index("# Guide\n\n> # Quote\n> quoted body\n\nOutside quote.\n\n## Next\nMore.\n");

    assert_eq!(
        output,
        "headings:\n  # Guide [1-9]\n  # Quote [3-4]\n  ## Next [8-9]\n"
    );
}

#[test]
fn scopes_list_items_and_nested_quotes_independently() {
    let output = index(
        "# Guide\n\n- # First\n  Body.\n\n  > # Quote ###\n  > Quoted.\n\n  After quote.\n\n- ## Second\n  Second body.\n\nOutside list.\n\n## Next\nMore.\n",
    );

    assert_eq!(
        output,
        "headings:\n  # Guide [1-17]\n  # First [3-9]\n  # Quote [6-7]\n  ## Second [11-12]\n  ## Next [16-17]\n"
    );
}

#[test]
fn scopes_sibling_headings_and_ignores_fences_inside_quotes() {
    let output = index(
        "# Guide\n\n> # One\n> Body.\n> ## Child\n> Child body.\n> # Two\n> ```markdown\n> # Hidden\n> ```\n\nOutside.\n",
    );

    assert_eq!(
        output,
        "headings:\n  # Guide [1-12]\n  # One [3-6]\n  ## Child [5-6]\n  # Two [7-10]\n"
    );
}

#[test]
fn ends_nested_quote_before_outer_heading_continuation() {
    assert_eq!(
        index("> > # Inner\n> > Body\n> # Outer\n> Outer body\n"),
        "headings:\n  # Inner [1-2]\n  # Outer [3-4]\n"
    );
}

#[test]
fn ends_quoted_list_items_before_sibling_continuations() {
    assert_eq!(
        index("> - # First\n>   Body\n> - # Second\n>   Second body\n"),
        "headings:\n  # First [1-2]\n  # Second [3-4]\n"
    );
}

#[test]
fn preserves_final_content_without_a_newline() {
    for source in [
        "# Heading\nBody >",
        "> # Heading\n> Body >",
        "> > # Heading\n> > Body >",
        "> - # Heading\n>   Body >",
        "> > # Heading\n> >     >",
        "> - # Heading\n>       >",
    ] {
        assert_eq!(
            index(source),
            "headings:\n  # Heading [1-2]\n",
            "{source:?}"
        );
    }
}

#[test]
fn markdown_is_named_and_inferred_from_extensions() {
    assert_eq!(SourceLanguage::from_name("markdown"), Ok(SourceLanguage::Markdown));
    assert!(SourceLanguage::from_name("md").is_err());
    assert_eq!(SourceLanguage::from_extension("md"), Ok(SourceLanguage::Markdown));
    assert_eq!(SourceLanguage::from_extension("markdown"), Ok(SourceLanguage::Markdown));
    assert_eq!(SourceLanguage::Markdown.name(), "markdown");
}

#[test]
fn heading_kind_selects_only_headings() {
    let source = "# Guide\nText.\n\n## Usage\nRun it.\n";
    let language = SourceLanguage::Markdown;
    let root = parse_source(source.as_bytes(), language).unwrap();
    let headings = parse_kinds("headings").unwrap();
    let output =
        skeleton_selected(language, &root, source.as_bytes(), &vec![], false, Some(&headings));
    assert_eq!(output, "headings:\n  # Guide [1-5]\n  ## Usage [4-5]\n");
    let fns = parse_kinds("fns").unwrap();
    let output = skeleton_selected(language, &root, source.as_bytes(), &vec![], false, Some(&fns));
    assert_eq!(output, "");
}

#[test]
fn empty_heading_is_shown_by_its_hashes_alone() {
    assert_eq!(index("##\nBody\n"), "headings:\n  ## [1-2]\n");
}
