//! The command line: its options, how it resolves languages, what it prints
//! between files, and the patterns it hands to the prefilter.
use crate::language::{display_text, inferred_language, path_display, SourceLanguage};
use crate::pattern::{debug_quoted, debug_text, invalid_pattern_message, SymbolPattern};
use crate::entries::{split_on, split_text, trim_text};
use crate::skeleton::{clone_string, texts, Section};
use crate::syntax::has_prefix_text;
use crate::text::{chars_of, has_prefix, has_suffix, same_text, string_of, trim};
use ignore::overrides::OverrideBuilder;
use std::path::Path;
use vstd::prelude::*;

verus! {

/// The output formats.
#[derive(Clone, Copy, Debug, PartialEq, Eq, Structural)]
pub enum OutputFormat {
    Skeleton,
    Json,
    Sexp,
}

/// The format that a `--format` value names.
pub open spec fn format_named(value: Seq<char>) -> Option<OutputFormat> {
    if value == "skeleton"@ {
        Some(OutputFormat::Skeleton)
    } else if value == "json"@ {
        Some(OutputFormat::Json)
    } else if value == "sexp"@ {
        Some(OutputFormat::Sexp)
    } else {
        None
    }
}

/// Parses a `--format` value.
pub fn parse_format(value: &str) -> (result: Result<OutputFormat, String>)
    ensures
        match result {
            Ok(format) => format_named(value@) == Some(format),
            Err(message) => format_named(value@).is_none() && message@
                == "unsupported output format: "@ + value@,
        },
{
    if same_text(value, "skeleton") {
        Ok(OutputFormat::Skeleton)
    } else if same_text(value, "json") {
        Ok(OutputFormat::Json)
    } else if same_text(value, "sexp") {
        Ok(OutputFormat::Sexp)
    } else {
        let mut message = String::from_str("unsupported output format: ");
        message.append(value);
        Err(message)
    }
}

/// The pattern that the prefilter hands to `rg` for a symbol pattern, read
/// from position `i` with `depth` character classes open: the anchors `^`,
/// `$`, `\A` and `\z` outside classes are dropped (a symbol is matched
/// within a line), everything else is kept as written.
pub open spec fn rg_from(s: Seq<char>, i: int, depth: nat) -> Seq<char>
    decreases s.len() - i,
{
    if i < 0 || i >= s.len() {
        seq![]
    } else {
        let c = s[i];
        if c == '\\' && depth == 0 && i + 1 < s.len() && (s[i + 1] == 'A' || s[i + 1] == 'z') {
            rg_from(s, i + 2, depth)
        } else if c == '\\' {
            if i + 1 < s.len() {
                seq![c, s[i + 1]] + rg_from(s, i + 2, depth)
            } else {
                seq![c]
            }
        } else if c == '[' {
            seq![c] + rg_from(s, i + 1, depth + 1)
        } else if c == ']' {
            seq![c] + rg_from(s, i + 1, if depth > 0 { (depth - 1) as nat } else { 0 })
        } else if (c == '^' || c == '$') && depth == 0 {
            rg_from(s, i + 1, depth)
        } else {
            seq![c] + rg_from(s, i + 1, depth)
        }
    }
}

/// Broadens a symbol pattern for the line-oriented prefilter (see `rg_from`).
pub fn regexp_for_rg(regexp: &str) -> (out: String)
    ensures
        out@ == rg_from(regexp@, 0, 0),
{
    let s = chars_of(regexp);
    let mut result: Vec<char> = Vec::new();
    let mut class_depth: usize = 0;
    let mut i: usize = 0;
    while i < s.len()
        invariant
            s@ == regexp@,
            i <= s@.len(),
            class_depth <= i,
            result@ + rg_from(s@, i as int, class_depth as nat) == rg_from(s@, 0, 0),
        decreases s@.len() - i,
    {
        let c = s[i];
        let ghost before = result@;
        if c == '\\' && class_depth == 0 && i + 1 < s.len() && (s[i + 1] == 'A' || s[i + 1]
            == 'z') {
            i = i + 2;
        } else if c == '\\' {
            result.push(c);
            if i + 1 < s.len() {
                result.push(s[i + 1]);
                assert(result@ == before + seq![c, s@[i + 1]]);
                i = i + 2;
            } else {
                i = i + 1;
                assert(rg_from(s@, i as int, class_depth as nat) == Seq::<char>::empty());
            }
        } else if c == '[' {
            class_depth = class_depth + 1;
            result.push(c);
            i = i + 1;
        } else if c == ']' {
            if class_depth > 0 {
                class_depth = class_depth - 1;
            }
            result.push(c);
            i = i + 1;
        } else if (c == '^' || c == '$') && class_depth == 0 {
            i = i + 1;
        } else {
            result.push(c);
            i = i + 1;
        }
        assert(result@ + rg_from(s@, i as int, class_depth as nat) =~= rg_from(s@, 0, 0));
    }
    string_of(result.as_slice())
}

/// The non-empty runs of bytes between NUL bytes (how `rg -0` lists files).
pub open spec fn nul_separated(bytes: Seq<u8>) -> Seq<Seq<u8>>
    decreases bytes.len(),
{
    nul_runs(bytes, 0, seq![])
}

/// The non-empty runs from position `i` on, the run in progress being `cur`.
pub open spec fn nul_runs(bytes: Seq<u8>, i: int, cur: Seq<u8>) -> Seq<Seq<u8>>
    decreases bytes.len() - i,
{
    if i < 0 || i >= bytes.len() {
        if cur.len() > 0 {
            seq![cur]
        } else {
            seq![]
        }
    } else if bytes[i] == 0 {
        (if cur.len() > 0 {
            seq![cur]
        } else {
            seq![]
        }) + nul_runs(bytes, i + 1, seq![])
    } else {
        nul_runs(bytes, i + 1, cur.push(bytes[i]))
    }
}

/// The byte strings of several vectors.
pub open spec fn byte_views(v: Seq<Vec<u8>>) -> Seq<Seq<u8>> {
    Seq::new(v.len(), |i: int| v[i]@)
}

/// Splits the output of `rg -0 -l` into the paths it lists (see
/// `nul_separated`).
pub fn split_nul(bytes: &[u8]) -> (out: Vec<Vec<u8>>)
    ensures
        byte_views(out@) == nul_separated(bytes@),
{
    let mut out: Vec<Vec<u8>> = Vec::new();
    let mut cur: Vec<u8> = Vec::new();
    let mut i: usize = 0;
    while i < bytes.len()
        invariant
            i <= bytes@.len(),
            byte_views(out@) + nul_runs(bytes@, i as int, cur@) == nul_separated(bytes@),
        decreases bytes@.len() - i,
    {
        if bytes[i] == 0 {
            let ghost prev = out@;
            let ghost c = cur@;
            if cur.len() > 0 {
                out.push(cur);
                assert(byte_views(out@) =~= byte_views(prev) + seq![c]);
            } else {
                assert(byte_views(out@) =~= byte_views(prev) + Seq::<Seq<u8>>::empty());
            }
            cur = Vec::new();
            assert(byte_views(out@) + nul_runs(bytes@, i + 1, cur@) =~= byte_views(prev) + ((if c.len()
                > 0 {
                seq![c]
            } else {
                seq![]
            }) + nul_runs(bytes@, i + 1, seq![])));
        } else {
            cur.push(bytes[i]);
        }
        i = i + 1;
    }
    let ghost prev = out@;
    let ghost c = cur@;
    if cur.len() > 0 {
        out.push(cur);
        assert(byte_views(out@) =~= byte_views(prev) + seq![c]);
    } else {
        assert(byte_views(out@) =~= byte_views(prev) + Seq::<Seq<u8>>::empty());
    }
    out
}

/// Whether a path equals the one that `text` names, as `Path`'s `==` decides
/// it: by their components.
pub uninterp spec fn path_equals_text(path: &Path, text: Seq<char>) -> bool;

/// `Path`'s `==`, against `Path::new(text)`.
#[verifier::external_body]
fn path_is(path: &Path, text: &str) -> (r: bool)
    ensures
        r == path_equals_text(path, text@),
{
    path == Path::new(text)
}

/// Whether an input path names standard input: it is the path `-`.
pub open spec fn names_stdin(path: &Path) -> bool {
    path_equals_text(path, "-"@)
}

/// The warning line for a file whose language is unknown.
pub open spec fn skip_warning(path: &Path, reason: Seq<char>) -> Seq<char> {
    "treesitter-index: warning: skipping "@ + display_text(path) + ": "@ + reason + "\n"@
}

/// The language of an input: the one given, else the one its extension
/// names. For a file whose language is unknown, a warning line is added to
/// `warnings` and `None` comes back; standard input needs a language.
pub fn resolve_language(warnings: &mut String, language: Option<SourceLanguage>, file: Option<&Path>) -> (result: Result<Option<SourceLanguage>, String>)
    ensures
        language is Some ==> result == Ok::<Option<SourceLanguage>, String>(language)
            && final(warnings)@ == old(warnings)@,
        language is None && file is None ==> (result matches Err(message) && message@
            == "--type is required when reading from stdin"@ && final(warnings)@ == old(warnings)@),
        file matches Some(path) ==> (language is None && names_stdin(path) ==> (
        result matches Err(message) && message@ == "--type is required when reading from stdin"@
            && final(warnings)@ == old(warnings)@)),
        file matches Some(path) ==> (language is None && !names_stdin(path) ==> match inferred_language(
            path,
        ) {
            Ok(found) => result == Ok::<Option<SourceLanguage>, String>(Some(found))
                && final(warnings)@ == old(warnings)@,
            Err(reason) => result == Ok::<Option<SourceLanguage>, String>(None)
                && final(warnings)@ == old(warnings)@ + skip_warning(path, reason),
        }),
{
    if let Some(l) = language {
        return Ok(Some(l));
    }
    match file {
        Some(path) => {
            if path_is(path, "-") {
                Err(String::from_str("--type is required when reading from stdin"))
            } else {
                match SourceLanguage::from_path(path) {
                    Ok(found) => Ok(Some(found)),
                    Err(error) => {
                        let ghost start = warnings@;
                        warnings.append("treesitter-index: warning: skipping ");
                        warnings.append(path_display(path).as_str());
                        warnings.append(": ");
                        warnings.append(error.as_str());
                        crate::text::push_char(warnings, '\n');
                        proof {
                            reveal_strlit("\n");
                        }
                        assert(warnings@ =~= start + skip_warning(path, error@));
                        Ok(None)
                    },
                }
            }
        },
        None => Err(String::from_str("--type is required when reading from stdin")),
    }
}

/// A line that shows a name.
pub open spec fn name_line(name: Seq<char>) -> Seq<char> {
    name + "\n"@
}

/// What goes before the output of an input: a blank line after the first
/// one, then the file's name when several files are indexed.
pub open spec fn file_prefix(file: Option<&Path>, index: usize, multiple: bool) -> Seq<char> {
    (if index > 0 {
        "\n"@
    } else {
        seq![]
    }) + match file {
        Some(path) if multiple => name_line(display_text(path)),
        _ => seq![],
    }
}

/// Writes what goes before the output of an input file (`file_prefix`).
pub fn write_file_prefix(output: &mut String, file: Option<&Path>, index: usize, multiple: bool) -> (result: Result<(), String>)
    ensures
        result is Ok,
        final(output)@ == old(output)@ + file_prefix(file, index, multiple),
{
    if index > 0 {
        output.append("\n");
    }
    if multiple {
        if let Some(path) = file {
            let name = path_display(path);
            output.append(name.as_str());
            output.append("\n");
        }
    }
    Ok(())
}

/// The output of one input: its text after the prefix that
/// `write_file_prefix` writes, or nothing when `skip_empty` and the text is
/// empty (an input that patterns select nothing from).
pub fn framed_output(text: &str, file: Option<&Path>, index: usize, multiple: bool, skip_empty: bool) -> (out: Option<String>)
    ensures
        skip_empty && text@.len() == 0 ==> out is None,
        !(skip_empty && text@.len() == 0) ==> (out matches Some(o) && o@ == file_prefix(
            file,
            index,
            multiple,
        ) + text@),
{
    if skip_empty && text.is_empty() {
        return None;
    }
    let mut out = String::new();
    let _ = write_file_prefix(&mut out, file, index, multiple);
    out.append(text);
    Some(out)
}

/// The result of reading the command line.
pub enum Command {
    /// `-h` or `--help`: print the help text.
    Help,
    /// `-V` or `--version`: print the version.
    Version,
    /// Index the inputs as the options say.
    Run(Args),
}

/// The options of a run.
pub struct Args {
    pub format: OutputFormat,
    pub language: Option<SourceLanguage>,
    /// The inputs as given; `-` is standard input.
    pub files: Vec<String>,
    pub glob_values: Vec<String>,
    pub regexps: Vec<SymbolPattern>,
    pub ignore_case: bool,
    pub match_imports: bool,
    /// The sections to show (`--kind`), or all.
    pub kinds: Option<Vec<Section>>,
    /// Whether `rg` may prefilter many inputs (off with `--no-prefilter`).
    pub prefilter: bool,
}

/// Patterns are checked with `rg` first when more than this many files are
/// indexed.
pub const PREFILTER_THRESHOLD: usize = 10;

/// Whether the inputs go through the `rg` prefilter: when patterns are given,
/// the prefilter is on, and there are more than `PREFILTER_THRESHOLD` inputs.
pub fn should_prefilter(input_count: usize, has_patterns: bool, prefilter: bool) -> (r: bool)
    ensures
        r == (has_patterns && prefilter && input_count > PREFILTER_THRESHOLD),
{
    has_patterns && prefilter && input_count > PREFILTER_THRESHOLD
}

/// The section that a `--kind` name selects: a section's header without its
/// colon.
pub open spec fn section_named(name: Seq<char>) -> Option<Section> {
    if name == "imports"@ {
        Some(Section::Import)
    } else if name == "mod"@ {
        Some(Section::Module)
    } else if name == "consts"@ {
        Some(Section::Constant)
    } else if name == "types"@ {
        Some(Section::Type)
    } else if name == "traits"@ {
        Some(Section::Trait)
    } else if name == "impls"@ {
        Some(Section::Impl)
    } else if name == "fns"@ {
        Some(Section::Function)
    } else if name == "classes"@ {
        Some(Section::Class)
    } else if name == "macros"@ {
        Some(Section::Macro)
    } else if name == "headings"@ {
        Some(Section::Heading)
    } else {
        None
    }
}

fn section_of_name(name: &str) -> (r: Option<Section>)
    ensures
        r == section_named(name@),
{
    if same_text(name, "imports") {
        Some(Section::Import)
    } else if same_text(name, "mod") {
        Some(Section::Module)
    } else if same_text(name, "consts") {
        Some(Section::Constant)
    } else if same_text(name, "types") {
        Some(Section::Type)
    } else if same_text(name, "traits") {
        Some(Section::Trait)
    } else if same_text(name, "impls") {
        Some(Section::Impl)
    } else if same_text(name, "fns") {
        Some(Section::Function)
    } else if same_text(name, "classes") {
        Some(Section::Class)
    } else if same_text(name, "macros") {
        Some(Section::Macro)
    } else if same_text(name, "headings") {
        Some(Section::Heading)
    } else {
        None
    }
}

/// The sections that the names `parts` from position `i` on select, or the
/// error for the first unknown name.
pub open spec fn kinds_from(parts: Seq<Seq<char>>, i: int) -> Result<Seq<Section>, Seq<char>>
    decreases parts.len() - i,
{
    if i < 0 || i >= parts.len() {
        Ok(seq![])
    } else {
        match section_named(trim(parts[i])) {
            Some(s) => match kinds_from(parts, i + 1) {
                Ok(rest) => Ok(seq![s] + rest),
                Err(m) => Err(m),
            },
            None => Err("unsupported kind: "@ + trim(parts[i])),
        }
    }
}

/// What a `--kind` value selects (see `kinds_from`).
pub open spec fn kinds_of(value: Seq<char>) -> Result<Seq<Section>, Seq<char>> {
    kinds_from(split_text(value, ','), 0)
}

/// Reads a `--kind` value: section names separated by commas, each trimmed.
/// An unknown name gives `unsupported kind: <name>`.
pub fn parse_kinds(value: &str) -> (result: Result<Vec<Section>, String>)
    ensures
        match result {
            Ok(kinds) => kinds_of(value@) == Ok::<Seq<Section>, Seq<char>>(kinds@),
            Err(message) => kinds_of(value@) == Err::<Seq<Section>, Seq<char>>(message@),
        },
        match result {
            Ok(kinds) => kinds@.len() == split_text(value@, ',').len() && forall|k: int|
                0 <= k < kinds@.len() ==> section_named(trim(split_text(value@, ',')[k])) == Some(
                    #[trigger] kinds@[k],
                ),
            Err(message) => exists|k: int|
                0 <= k < split_text(value@, ',').len() && section_named(
                    trim(#[trigger] split_text(value@, ',')[k]),
                ).is_none() && message@ == "unsupported kind: "@ + trim(split_text(value@, ',')[k]),
        },
{
    let parts = split_on(value, ',');
    let mut kinds: Vec<Section> = Vec::new();
    let mut i: usize = 0;
    while i < parts.len()
        invariant
            i <= parts@.len(),
            texts(parts@) == split_text(value@, ','),
            kinds@.len() == i,
            forall|k: int|
                0 <= k < i ==> section_named(trim(split_text(value@, ',')[k])) == Some(
                    #[trigger] kinds@[k],
                ),
            kinds_of(value@) == match kinds_from(split_text(value@, ','), i as int) {
                Ok(rest) => Ok(kinds@ + rest),
                Err(m) => Err(m),
            },
        decreases parts@.len() - i,
    {
        let name = trim_text(parts[i].as_str());
        assert(name@ == trim(split_text(value@, ',')[i as int]));
        match section_of_name(name.as_str()) {
            Some(section) => {
                let ghost before = kinds@;
                kinds.push(section);
                assert(kinds@ == before + seq![section]);
                proof {
                    match kinds_from(split_text(value@, ','), i + 1) {
                        Ok(rest) => {
                            assert(before + (seq![section] + rest) == kinds@ + rest);
                        },
                        Err(m) => {},
                    }
                }
            },
            None => {
                let mut message = String::from_str("unsupported kind: ");
                message.append(name.as_str());
                return Err(message);
            },
        }
        i = i + 1;
    }
    assert(kinds@ + Seq::<Section>::empty() == kinds@);
    Ok(kinds)
}

/// Whether `OverrideBuilder::add` accepts `glob` (each glob is parsed on its
/// own, whatever the builder's root).
pub uninterp spec fn glob_parses(glob: Seq<char>) -> bool;

/// The message of the error that `OverrideBuilder::add` gives for `glob`,
/// when it refuses it (the error's `Display`, which names the glob).
pub uninterp spec fn glob_error_text(glob: Seq<char>) -> Seq<char>;

/// The message for a glob rule that does not parse.
pub open spec fn invalid_glob_message(glob: Seq<char>) -> Seq<char> {
    "invalid glob pattern "@ + debug_text(glob) + ": "@ + glob_error_text(glob)
}

/// The first of `items` that `ok` refuses is the one at `k`.
pub open spec fn first_refused(items: Seq<Seq<char>>, ok: spec_fn(Seq<char>) -> bool, k: int) -> bool {
    &&& 0 <= k < items.len()
    &&& !ok(items[k])
    &&& forall|j: int| 0 <= j < k ==> #[trigger] ok(items[j])
}

/// `OverrideBuilder::add` on a fresh builder, with the error's message.
#[verifier::external_body]
fn parse_glob(glob: &str) -> (r: Result<(), String>)
    ensures
        r is Ok <==> glob_parses(glob@),
        r matches Err(message) ==> message@ == glob_error_text(glob@),
{
    match OverrideBuilder::new(".").add(glob) {
        Ok(_) => Ok(()),
        Err(error) => Err(error.to_string()),
    }
}

/// Checks that each glob rule parses; the first that does not gives
/// `invalid glob pattern "<glob>": <reason>`.
pub fn check_globs(globs: &Vec<String>) -> (result: Result<(), String>)
    ensures
        result is Ok <==> forall|k: int| 0 <= k < globs@.len() ==> glob_parses(#[trigger] globs@[k]@),
        result matches Err(message) ==> exists|k: int|
            first_refused(texts(globs@), |g: Seq<char>| glob_parses(g), k) && message@
                == invalid_glob_message(#[trigger] globs@[k]@),
{
    let mut i: usize = 0;
    while i < globs.len()
        invariant
            i <= globs@.len(),
            forall|k: int| 0 <= k < i ==> glob_parses(#[trigger] globs@[k]@),
        decreases globs@.len() - i,
    {
        match parse_glob(globs[i].as_str()) {
            Ok(()) => {},
            Err(reason) => {
                let mut message = String::from_str("invalid glob pattern ");
                message.append(debug_quoted(globs[i].as_str()).as_str());
                message.append(": ");
                message.append(reason.as_str());
                assert(first_refused(texts(globs@), |g: Seq<char>| glob_parses(g), i as int));
                return Err(message);
            },
        }
        i = i + 1;
    }
    Ok(())
}

/// The options read so far from a command line.
pub struct Options {
    pub format: OutputFormat,
    pub language: Option<SourceLanguage>,
    pub files: Seq<Seq<char>>,
    pub globs: Seq<Seq<char>>,
    pub regexps: Seq<Seq<char>>,
    pub ignore_case: bool,
    pub match_imports: bool,
    pub kinds: Option<Seq<Section>>,
    pub prefilter: bool,
}

/// What reading a command line comes to: help, the version, an error, or
/// the options read.
pub enum Scanned {
    Help,
    Version,
    Failed(Seq<char>),
    Read(Options),
}

/// The options before any argument is read.
pub open spec fn initial_options() -> Options {
    Options {
        format: OutputFormat::Skeleton,
        language: None,
        files: seq![],
        globs: seq![],
        regexps: seq![],
        ignore_case: false,
        match_imports: false,
        kinds: None,
        prefilter: true,
    }
}

/// Reads the arguments from position `i` on, with the options `o` read
/// before: `-h`/`--help` and `-V`/`--version` stop the reading; an option
/// that takes a value takes the next argument or its text after `=`; `-`
/// and any argument not starting with `-` is an input; another argument
/// starting with `-` is an unknown option.
pub open spec fn scan(args: Seq<Seq<char>>, i: int, o: Options) -> Scanned
    decreases args.len() - i,
{
    if i < 0 || i >= args.len() {
        Scanned::Read(o)
    } else {
        let arg = args[i];
        let has_value = i + 1 < args.len();
        if arg == "-h"@ || arg == "--help"@ {
            Scanned::Help
        } else if arg == "-V"@ || arg == "--version"@ {
            Scanned::Version
        } else if arg == "--format"@ {
            if has_value {
                match format_named(args[i + 1]) {
                    Some(f) => scan(args, i + 2, Options { format: f, ..o }),
                    None => Scanned::Failed("unsupported output format: "@ + args[i + 1]),
                }
            } else {
                Scanned::Failed("--format requires skeleton, json, or sexp"@)
            }
        } else if arg == "-t"@ || arg == "--type"@ {
            if has_value {
                match crate::language::language_named(args[i + 1]) {
                    Some(l) => scan(args, i + 2, Options { language: Some(l), ..o }),
                    None => Scanned::Failed("unsupported language: "@ + args[i + 1]),
                }
            } else {
                Scanned::Failed("--type requires a language name"@)
            }
        } else if arg == "-g"@ || arg == "--glob"@ {
            if has_value {
                scan(args, i + 2, Options { globs: o.globs.push(args[i + 1]), ..o })
            } else {
                Scanned::Failed("--glob requires a glob pattern"@)
            }
        } else if arg == "-e"@ || arg == "--regexp"@ {
            if has_value {
                scan(args, i + 2, Options { regexps: o.regexps.push(args[i + 1]), ..o })
            } else {
                Scanned::Failed("--regexp requires a regular expression"@)
            }
        } else if arg == "-i"@ || arg == "--ignore-case"@ {
            scan(args, i + 1, Options { ignore_case: true, ..o })
        } else if arg == "--match-imports"@ {
            scan(args, i + 1, Options { match_imports: true, ..o })
        } else if arg == "--no-prefilter"@ {
            scan(args, i + 1, Options { prefilter: false, ..o })
        } else if arg == "--kind"@ {
            if has_value {
                match kinds_of(args[i + 1]) {
                    Ok(k) => scan(args, i + 2, Options { kinds: Some(k), ..o }),
                    Err(m) => Scanned::Failed(m),
                }
            } else {
                Scanned::Failed("--kind requires section names"@)
            }
        } else if arg == "-"@ {
            scan(args, i + 1, Options { files: o.files.push("-"@), ..o })
        } else if has_prefix(arg, "--format="@) {
            let value = arg.skip("--format="@.len() as int);
            match format_named(value) {
                Some(f) => scan(args, i + 1, Options { format: f, ..o }),
                None => Scanned::Failed("unsupported output format: "@ + value),
            }
        } else if has_prefix(arg, "--type="@) {
            let value = arg.skip("--type="@.len() as int);
            match crate::language::language_named(value) {
                Some(l) => scan(args, i + 1, Options { language: Some(l), ..o }),
                None => Scanned::Failed("unsupported language: "@ + value),
            }
        } else if has_prefix(arg, "--glob="@) {
            scan(
                args,
                i + 1,
                Options { globs: o.globs.push(arg.skip("--glob="@.len() as int)), ..o },
            )
        } else if has_prefix(arg, "--regexp="@) {
            scan(
                args,
                i + 1,
                Options { regexps: o.regexps.push(arg.skip("--regexp="@.len() as int)), ..o },
            )
        } else if has_prefix(arg, "--kind="@) {
            let value = arg.skip("--kind="@.len() as int);
            match kinds_of(value) {
                Ok(k) => scan(args, i + 1, Options { kinds: Some(k), ..o }),
                Err(m) => Scanned::Failed(m),
            }
        } else if has_prefix(arg, "-"@) {
            Scanned::Failed("unknown option: "@ + arg)
        } else {
            scan(args, i + 1, Options { files: o.files.push(arg), ..o })
        }
    }
}

/// The sections of `kinds`, as a view.
pub open spec fn kinds_view(kinds: Option<Vec<Section>>) -> Option<Seq<Section>> {
    match kinds {
        Some(k) => Some(k@),
        None => None,
    }
}

/// Whether the options of a run are those read: the same format, language,
/// inputs, globs and flags, and patterns compiled from the texts read.
pub open spec fn run_of(a: Args, o: Options) -> bool {
    &&& a.format == o.format
    &&& a.language == o.language
    &&& texts(a.files@) == o.files
    &&& texts(a.glob_values@) == o.globs
    &&& a.regexps@.len() == o.regexps.len()
    &&& forall|k: int|
        0 <= k < o.regexps.len() ==> (#[trigger] a.regexps@[k]).pattern() == o.regexps[k]
            && a.regexps@[k].ignores_case() == o.ignore_case
    &&& a.ignore_case == o.ignore_case
    &&& a.match_imports == o.match_imports
    &&& kinds_view(a.kinds) == o.kinds
    &&& a.prefilter == o.prefilter
}

/// What `parse_args` gives for the arguments `args`: after reading them (see
/// `scan`), patterns need skeleton output, `--match-imports` needs patterns,
/// and every pattern and glob must compile.
pub open spec fn parsed(args: Seq<Seq<char>>, result: Result<Command, String>) -> bool {
    match scan(args, 0, initial_options()) {
        Scanned::Help => result matches Ok(Command::Help),
        Scanned::Version => result matches Ok(Command::Version),
        Scanned::Failed(m) => result matches Err(e) && e@ == m,
        Scanned::Read(o) => if o.regexps.len() > 0 && o.format != OutputFormat::Skeleton {
            result matches Err(e) && e@ == "--regexp is only supported with skeleton output"@
        } else if o.match_imports && o.regexps.len() == 0 {
            result matches Err(e) && e@ == "--match-imports requires --regexp"@
        } else if exists|k: int|
            0 <= k < o.regexps.len() && !crate::pattern::pattern_compiles(
                #[trigger] o.regexps[k],
                o.ignore_case,
            ) {
            result matches Err(e) && exists|k: int|
                first_refused(o.regexps, |p: Seq<char>| crate::pattern::pattern_compiles(p, o.ignore_case), k)
                    && e@ == invalid_pattern_message(#[trigger] o.regexps[k], o.ignore_case)
        } else if exists|k: int| 0 <= k < o.globs.len() && !glob_parses(#[trigger] o.globs[k]) {
            result matches Err(e) && exists|k: int|
                first_refused(o.globs, |g: Seq<char>| glob_parses(g), k) && e@ == invalid_glob_message(
                    #[trigger] o.globs[k],
                )
        } else {
            result matches Ok(Command::Run(a)) && run_of(a, o)
        },
    }
}

/// The value after an option, or the error that it is missing.
fn option_value(args: &Vec<String>, i: usize, missing: &str) -> (r: Result<String, String>)
    ensures
        i < args@.len() ==> (r matches Ok(v) && v@ == args@[i as int]@),
        i >= args@.len() ==> (r matches Err(m) && m@ == missing@),
{
    if i < args.len() {
        Ok(clone_string(&args[i]))
    } else {
        Err(missing.to_owned())
    }
}

/// `arg` without `prefix`, when it starts with it.
fn after_prefix(arg: &str, prefix: &str) -> (r: Option<String>)
    ensures
        r is Some <==> has_prefix(arg@, prefix@),
        r matches Some(rest) ==> rest@ == arg@.skip(prefix@.len() as int),
{
    let a = chars_of(arg);
    let p = chars_of(prefix);
    if !crate::text::starts_with(a.as_slice(), p.as_slice()) {
        return None;
    }
    let mut rest: Vec<char> = Vec::new();
    let mut i: usize = p.len();
    while i < a.len()
        invariant
            p@.len() <= i <= a@.len(),
            rest@ == a@.subrange(p@.len() as int, i as int),
        decreases a@.len() - i,
    {
        rest.push(a[i]);
        i = i + 1;
    }
    assert(rest@ =~= arg@.skip(prefix@.len() as int));
    Some(string_of(rest.as_slice()))
}

/// The options that the variables of `parse_args` hold.
pub open spec fn options_now(
    format: OutputFormat,
    language: Option<SourceLanguage>,
    files: Seq<String>,
    globs: Seq<String>,
    regexps: Seq<String>,
    ignore_case: bool,
    match_imports: bool,
    kinds: Option<Vec<Section>>,
    prefilter: bool,
) -> Options {
    Options {
        format,
        language,
        files: texts(files),
        globs: texts(globs),
        regexps: texts(regexps),
        ignore_case,
        match_imports,
        kinds: kinds_view(kinds),
        prefilter,
    }
}

/// Reads the command line (without the program name); see `parsed`.
#[verifier::spinoff_prover]
pub fn parse_args(args: &Vec<String>) -> (result: Result<Command, String>)
    ensures
        parsed(texts(args@), result),
        result matches Ok(Command::Run(a)) ==> {
            &&& (a.match_imports ==> a.regexps@.len() > 0)
            &&& (a.regexps@.len() > 0 ==> a.format == OutputFormat::Skeleton)
            &&& forall|k: int| 0 <= k < a.regexps@.len() ==> (#[trigger] a.regexps@[k]).ignores_case() == a.ignore_case
            &&& forall|k: int| 0 <= k < a.glob_values@.len() ==> glob_parses(#[trigger] a.glob_values@[k]@)
        },
{
    let ghost all = texts(args@);
    let mut format = OutputFormat::Skeleton;
    let mut language: Option<SourceLanguage> = None;
    let mut files: Vec<String> = Vec::new();
    let mut glob_values: Vec<String> = Vec::new();
    let mut regexp_values: Vec<String> = Vec::new();
    let mut ignore_case = false;
    let mut match_imports = false;
    let mut kinds: Option<Vec<Section>> = None;
    let mut prefilter = true;
    proof {
        assert(texts(files@) == Seq::<Seq<char>>::empty());
        assert(texts(glob_values@) == Seq::<Seq<char>>::empty());
        assert(texts(regexp_values@) == Seq::<Seq<char>>::empty());
        assert(options_now(format, language, files@, glob_values@, regexp_values@, ignore_case,
            match_imports, kinds, prefilter) == initial_options());
    }
    let mut i: usize = 0;
    while i < args.len()
        invariant
            i <= args@.len(),
            all == texts(args@),
            scan(all, 0, initial_options()) == scan(
                all,
                i as int,
                options_now(
                    format,
                    language,
                    files@,
                    glob_values@,
                    regexp_values@,
                    ignore_case,
                    match_imports,
                    kinds,
                    prefilter,
                ),
            ),
        decreases args@.len() - i,
    {
        let ghost o = options_now(
            format,
            language,
            files@,
            glob_values@,
            regexp_values@,
            ignore_case,
            match_imports,
            kinds,
            prefilter,
        );
        let ghost at = i as int;
        assert(all[at] == args@[at]@);
        let arg = args[i].as_str();
        i = i + 1;
        if i < args.len() {
            assert(all[at + 1] == args@[at + 1]@);
        }
        if same_text(arg, "-h") || same_text(arg, "--help") {
            return Ok(Command::Help);
        } else if same_text(arg, "-V") || same_text(arg, "--version") {
            return Ok(Command::Version);
        } else if same_text(arg, "--format") {
            let value = match option_value(args, i, "--format requires skeleton, json, or sexp") {
                Ok(v) => v,
                Err(e) => {
                    return Err(e);
                },
            };
            i = i + 1;
            format = match parse_format(value.as_str()) {
                Ok(f) => f,
                Err(e) => {
                    return Err(e);
                },
            };
        } else if same_text(arg, "-t") || same_text(arg, "--type") {
            let value = match option_value(args, i, "--type requires a language name") {
                Ok(v) => v,
                Err(e) => {
                    return Err(e);
                },
            };
            i = i + 1;
            language = match SourceLanguage::from_name(value.as_str()) {
                Ok(l) => Some(l),
                Err(e) => {
                    return Err(e);
                },
            };
        } else if same_text(arg, "-g") || same_text(arg, "--glob") {
            let value = match option_value(args, i, "--glob requires a glob pattern") {
                Ok(v) => v,
                Err(e) => {
                    return Err(e);
                },
            };
            i = i + 1;
            let ghost before = glob_values@;
            glob_values.push(value);
            assert(texts(glob_values@) == texts(before).push(all[at + 1]));
        } else if same_text(arg, "-e") || same_text(arg, "--regexp") {
            let value = match option_value(args, i, "--regexp requires a regular expression") {
                Ok(v) => v,
                Err(e) => {
                    return Err(e);
                },
            };
            i = i + 1;
            let ghost before = regexp_values@;
            regexp_values.push(value);
            assert(texts(regexp_values@) == texts(before).push(all[at + 1]));
        } else if same_text(arg, "-i") || same_text(arg, "--ignore-case") {
            ignore_case = true;
        } else if same_text(arg, "--match-imports") {
            match_imports = true;
        } else if same_text(arg, "--no-prefilter") {
            prefilter = false;
        } else if same_text(arg, "--kind") {
            let value = match option_value(args, i, "--kind requires section names") {
                Ok(v) => v,
                Err(e) => {
                    return Err(e);
                },
            };
            i = i + 1;
            kinds = match parse_kinds(value.as_str()) {
                Ok(k) => Some(k),
                Err(e) => {
                    return Err(e);
                },
            };
        } else if same_text(arg, "-") {
            let ghost before = files@;
            files.push(String::from_str("-"));
            assert(texts(files@) == texts(before).push("-"@));
        } else if let Some(value) = after_prefix(arg, "--format=") {
            format = match parse_format(value.as_str()) {
                Ok(f) => f,
                Err(e) => {
                    return Err(e);
                },
            };
        } else if let Some(value) = after_prefix(arg, "--type=") {
            language = match SourceLanguage::from_name(value.as_str()) {
                Ok(l) => Some(l),
                Err(e) => {
                    return Err(e);
                },
            };
        } else if let Some(value) = after_prefix(arg, "--glob=") {
            let ghost before = glob_values@;
            let ghost v = value@;
            glob_values.push(value);
            assert(texts(glob_values@) == texts(before).push(v));
        } else if let Some(value) = after_prefix(arg, "--regexp=") {
            let ghost before = regexp_values@;
            let ghost v = value@;
            regexp_values.push(value);
            assert(texts(regexp_values@) == texts(before).push(v));
        } else if let Some(value) = after_prefix(arg, "--kind=") {
            kinds = match parse_kinds(value.as_str()) {
                Ok(k) => Some(k),
                Err(e) => {
                    return Err(e);
                },
            };
        } else if after_prefix(arg, "-").is_some() {
            let mut message = String::from_str("unknown option: ");
            message.append(arg);
            return Err(message);
        } else {
            let ghost before = files@;
            files.push(clone_string(&args[i - 1]));
            assert(texts(files@) == texts(before).push(all[at]));
        }
    }
    let ghost o = options_now(
        format,
        language,
        files@,
        glob_values@,
        regexp_values@,
        ignore_case,
        match_imports,
        kinds,
        prefilter,
    );
    assert(scan(all, 0, initial_options()) == Scanned::Read(o));
    if regexp_values.len() > 0 && format != OutputFormat::Skeleton {
        return Err(String::from_str("--regexp is only supported with skeleton output"));
    }
    if match_imports && regexp_values.len() == 0 {
        return Err(String::from_str("--match-imports requires --regexp"));
    }
    let mut regexps: Vec<SymbolPattern> = Vec::new();
    let mut k: usize = 0;
    while k < regexp_values.len()
        invariant
            k <= regexp_values@.len(),
            regexps@.len() == k,
            o.regexps == texts(regexp_values@),
            o.ignore_case == ignore_case,
            all == texts(args@),
            scan(all, 0, initial_options()) == Scanned::Read(o),
            !(o.regexps.len() > 0 && o.format != OutputFormat::Skeleton),
            !(o.match_imports && o.regexps.len() == 0),
            forall|m: int| 0 <= m < regexps@.len() ==> (#[trigger] regexps@[m]).ignores_case() == ignore_case
                && regexps@[m].pattern() == o.regexps[m],
            forall|m: int| 0 <= m < k ==> crate::pattern::pattern_compiles(#[trigger] o.regexps[m], ignore_case),
        decreases regexp_values@.len() - k,
    {
        let pattern = match SymbolPattern::new(regexp_values[k].as_str(), ignore_case) {
            Ok(p) => p,
            Err(e) => {
                assert(o.regexps[k as int] == regexp_values@[k as int]@);
                assert(!crate::pattern::pattern_compiles(o.regexps[k as int], o.ignore_case));
                assert(first_refused(o.regexps, |p: Seq<char>| crate::pattern::pattern_compiles(p, o.ignore_case), k as int));
                return Err(e);
            },
        };
        regexps.push(pattern);
        k = k + 1;
    }
    assert(forall|m: int| 0 <= m < o.regexps.len() ==> crate::pattern::pattern_compiles(
        #[trigger] o.regexps[m],
        o.ignore_case,
    ));
    match check_globs(&glob_values) {
        Ok(()) => {},
        Err(e) => {
            proof {
                let w = choose|m: int| first_refused(texts(glob_values@), |g: Seq<char>| glob_parses(g), m)
                    && e@ == invalid_glob_message(#[trigger] glob_values@[m]@);
                assert(texts(glob_values@) =~= o.globs);
                assert(o.globs[w] == glob_values@[w]@);
                assert(!glob_parses(o.globs[w]));
            }
            return Err(e);
        },
    }
    assert(forall|m: int| 0 <= m < o.globs.len() ==> glob_parses(#[trigger] o.globs[m])) by {
        assert forall|m: int| 0 <= m < o.globs.len() implies glob_parses(#[trigger] o.globs[m]) by {
            assert(o.globs[m] == glob_values@[m]@);
        }
    }
    let a = Args {
        format,
        language,
        files,
        glob_values,
        regexps,
        ignore_case,
        match_imports,
        kinds,
        prefilter,
    };
    assert(run_of(a, o));
    Ok(Command::Run(a))
}

proof fn lemma_rg_plain_from(s: Seq<char>, i: int, depth: nat)
    requires
        0 <= i <= s.len(),
        forall|k: int| 0 <= k < s.len() ==> #[trigger] s[k] != '^' && s[k] != '$' && s[k] != '\\',
    ensures
        rg_from(s, i, depth) == s.skip(i),
    decreases s.len() - i,
{
    if i < s.len() {
        let c = s[i];
        let next: nat = if c == '[' {
            depth + 1
        } else if c == ']' {
            if depth > 0 { (depth - 1) as nat } else { 0 }
        } else {
            depth
        };
        lemma_rg_plain_from(s, i + 1, next);
        assert(s.skip(i) =~= seq![c] + s.skip(i + 1));
    } else {
        assert(s.skip(i) =~= Seq::<char>::empty());
    }
}

/// A pattern without anchors or escapes is handed to `rg` unchanged.
pub proof fn lemma_rg_keeps_plain_patterns(s: Seq<char>)
    requires
        forall|k: int| 0 <= k < s.len() ==> #[trigger] s[k] != '^' && s[k] != '$' && s[k] != '\\',
    ensures
        rg_from(s, 0, 0) == s,
{
    lemma_rg_plain_from(s, 0, 0);
    assert(s.skip(0) =~= s);
}

/// Each output format is read back from its own name.
pub proof fn lemma_format_names(format: OutputFormat)
    ensures
        format_named(match format {
            OutputFormat::Skeleton => "skeleton"@,
            OutputFormat::Json => "json"@,
            OutputFormat::Sexp => "sexp"@,
        }) == Some(format),
{
    reveal_strlit("skeleton");
    reveal_strlit("json");
    reveal_strlit("sexp");
    assert("skeleton"@.len() == 8 && "json"@.len() == 4 && "sexp"@.len() == 4);
    assert("json"@[0] == 'j' && "sexp"@[0] == 's');
}

} // verus!
