//! The languages the indexer understands and how they are recognised.
use crate::syntax::{grammar_accepted, grammar_name, grammar_of};
use crate::text::same_text;
use std::path::Path;
use vstd::prelude::*;

verus! {

/// `std::path::Path`, carried through as an opaque value.
#[verifier::external_type_specification]
#[verifier::external_body]
pub struct ExPath(Path);

/// A source language with a Tree-sitter grammar.
#[derive(Clone, Copy, Debug, PartialEq, Eq, Structural)]
pub enum SourceLanguage {
    Python,
    JavaScript,
    Jsx,
    TypeScript,
    Tsx,
    Rust,
    Go,
    Java,
    Markdown,
}

/// The language that a `--type` value names.
pub open spec fn language_named(name: Seq<char>) -> Option<SourceLanguage> {
    if name == "python"@ || name == "py"@ {
        Some(SourceLanguage::Python)
    } else if name == "javascript"@ || name == "js"@ {
        Some(SourceLanguage::JavaScript)
    } else if name == "jsx"@ {
        Some(SourceLanguage::Jsx)
    } else if name == "typescript"@ || name == "ts"@ {
        Some(SourceLanguage::TypeScript)
    } else if name == "tsx"@ {
        Some(SourceLanguage::Tsx)
    } else if name == "rust"@ || name == "rs"@ {
        Some(SourceLanguage::Rust)
    } else if name == "go"@ {
        Some(SourceLanguage::Go)
    } else if name == "java"@ {
        Some(SourceLanguage::Java)
    } else if name == "markdown"@ {
        Some(SourceLanguage::Markdown)
    } else {
        None
    }
}

/// The language of files with the given extension (without the dot).
pub open spec fn language_of_extension(extension: Seq<char>) -> Option<SourceLanguage> {
    if extension == "py"@ || extension == "pyi"@ {
        Some(SourceLanguage::Python)
    } else if extension == "js"@ || extension == "mjs"@ || extension == "cjs"@ {
        Some(SourceLanguage::JavaScript)
    } else if extension == "jsx"@ {
        Some(SourceLanguage::Jsx)
    } else if extension == "ts"@ || extension == "mts"@ || extension == "cts"@ {
        Some(SourceLanguage::TypeScript)
    } else if extension == "tsx"@ {
        Some(SourceLanguage::Tsx)
    } else if extension == "rs"@ {
        Some(SourceLanguage::Rust)
    } else if extension == "go"@ {
        Some(SourceLanguage::Go)
    } else if extension == "java"@ {
        Some(SourceLanguage::Java)
    } else if extension == "md"@ || extension == "markdown"@ {
        Some(SourceLanguage::Markdown)
    } else {
        None
    }
}

/// Which extensions name which language: `py` and `pyi` Python; `js`, `mjs`
/// and `cjs` JavaScript; `jsx` JSX; `ts`, `mts` and `cts` TypeScript; `tsx`
/// TSX; `rs` Rust; `go` Go; `java` Java; `md` and `markdown` Markdown. Every
/// other extension names none.
pub proof fn lemma_extension_languages(extension: Seq<char>)
    ensures
        language_of_extension(extension) == Some(SourceLanguage::Python) <==> (extension == "py"@
            || extension == "pyi"@),
        language_of_extension(extension) == Some(SourceLanguage::JavaScript) <==> (extension
            == "js"@ || extension == "mjs"@ || extension == "cjs"@),
        language_of_extension(extension) == Some(SourceLanguage::Jsx) <==> extension == "jsx"@,
        language_of_extension(extension) == Some(SourceLanguage::TypeScript) <==> (extension
            == "ts"@ || extension == "mts"@ || extension == "cts"@),
        language_of_extension(extension) == Some(SourceLanguage::Tsx) <==> extension == "tsx"@,
        language_of_extension(extension) == Some(SourceLanguage::Rust) <==> extension == "rs"@,
        language_of_extension(extension) == Some(SourceLanguage::Go) <==> extension == "go"@,
        language_of_extension(extension) == Some(SourceLanguage::Java) <==> extension == "java"@,
        language_of_extension(extension) == Some(SourceLanguage::Markdown) <==> (extension
            == "md"@ || extension == "markdown"@),
{
    reveal_strlit("py");
    reveal_strlit("pyi");
    reveal_strlit("js");
    reveal_strlit("mjs");
    reveal_strlit("cjs");
    reveal_strlit("jsx");
    reveal_strlit("ts");
    reveal_strlit("mts");
    reveal_strlit("cts");
    reveal_strlit("tsx");
    reveal_strlit("rs");
    reveal_strlit("go");
    reveal_strlit("java");
    reveal_strlit("md");
    reveal_strlit("markdown");
    if extension == "py"@ {
        assert(extension.len() == 2 && extension[0] == 'p' && extension[1] == 'y');
    }
    if extension == "pyi"@ {
        assert(extension.len() == 3 && extension[0] == 'p' && extension[1] == 'y' && extension[2] == 'i');
    }
    if extension == "js"@ {
        assert(extension.len() == 2 && extension[0] == 'j' && extension[1] == 's');
    }
    if extension == "mjs"@ {
        assert(extension.len() == 3 && extension[0] == 'm' && extension[1] == 'j' && extension[2] == 's');
    }
    if extension == "cjs"@ {
        assert(extension.len() == 3 && extension[0] == 'c' && extension[1] == 'j' && extension[2] == 's');
    }
    if extension == "jsx"@ {
        assert(extension.len() == 3 && extension[0] == 'j' && extension[1] == 's' && extension[2] == 'x');
    }
    if extension == "ts"@ {
        assert(extension.len() == 2 && extension[0] == 't' && extension[1] == 's');
    }
    if extension == "mts"@ {
        assert(extension.len() == 3 && extension[0] == 'm' && extension[1] == 't' && extension[2] == 's');
    }
    if extension == "cts"@ {
        assert(extension.len() == 3 && extension[0] == 'c' && extension[1] == 't' && extension[2] == 's');
    }
    if extension == "tsx"@ {
        assert(extension.len() == 3 && extension[0] == 't' && extension[1] == 's' && extension[2] == 'x');
    }
    if extension == "rs"@ {
        assert(extension.len() == 2 && extension[0] == 'r' && extension[1] == 's');
    }
    if extension == "go"@ {
        assert(extension.len() == 2 && extension[0] == 'g' && extension[1] == 'o');
    }
    if extension == "java"@ {
        assert(extension.len() == 4 && extension[0] == 'j' && extension[1] == 'a' && extension[2] == 'v' && extension[3] == 'a');
    }
    if extension == "md"@ {
        assert(extension.len() == 2 && extension[0] == 'm' && extension[1] == 'd');
    }
    if extension == "markdown"@ {
        assert(extension.len() == 8 && extension[0] == 'm' && extension[1] == 'a' && extension[2] == 'r' && extension[3] == 'k' && extension[4] == 'd' && extension[5] == 'o' && extension[6] == 'w' && extension[7] == 'n');
    }
}

/// The canonical name of a language.
pub open spec fn language_name(language: SourceLanguage) -> Seq<char> {
    match language {
        SourceLanguage::Python => "python"@,
        SourceLanguage::JavaScript => "javascript"@,
        SourceLanguage::Jsx => "jsx"@,
        SourceLanguage::TypeScript => "typescript"@,
        SourceLanguage::Tsx => "tsx"@,
        SourceLanguage::Rust => "rust"@,
        SourceLanguage::Go => "go"@,
        SourceLanguage::Java => "java"@,
        SourceLanguage::Markdown => "markdown"@,
    }
}

/// The extension that `Path::extension` finds in a path, as text, when there
/// is one and it is valid Unicode.
pub uninterp spec fn path_extension_text(path: &Path) -> Option<Seq<char>>;

/// `Path::extension`, converted to text with `OsStr::to_str`.
#[verifier::external_body]
fn path_extension(path: &Path) -> (r: Option<&str>)
    ensures
        r is Some <==> path_extension_text(path) is Some,
        r matches Some(text) ==> path_extension_text(path) == Some(text@),
{
    path.extension()?.to_str()
}

/// The text that `Path::display` shows for a path.
pub uninterp spec fn display_text(path: &Path) -> Seq<char>;

/// What `from_path` makes of a path: the language its extension names, or
/// the message that says why there is none.
pub open spec fn inferred_language(path: &Path) -> Result<SourceLanguage, Seq<char>> {
    match path_extension_text(path) {
        Some(extension) => match language_of_extension(extension) {
            Some(language) => Ok(language),
            None => Err("unsupported file extension: ."@ + extension),
        },
        None => Err("cannot infer language from "@ + display_text(path)),
    }
}

/// `Path::display`, rendered to a string.
#[verifier::external_body]
pub(crate) fn path_display(path: &Path) -> (r: String)
    ensures
        r@ == display_text(path),
{
    format!("{}", path.display())
}

/// `tree_sitter_python::LANGUAGE`.
#[verifier::external_body]
fn python_grammar() -> (r: tree_sitter::Language)
    ensures
        grammar_accepted(&r),
        grammar_of(&r) == "tree_sitter_python::LANGUAGE"@,
{
    tree_sitter_python::LANGUAGE.into()
}

/// `tree_sitter_javascript::LANGUAGE`.
#[verifier::external_body]
fn javascript_grammar() -> (r: tree_sitter::Language)
    ensures
        grammar_accepted(&r),
        grammar_of(&r) == "tree_sitter_javascript::LANGUAGE"@,
{
    tree_sitter_javascript::LANGUAGE.into()
}

/// `tree_sitter_typescript::LANGUAGE_TYPESCRIPT`.
#[verifier::external_body]
fn typescript_grammar() -> (r: tree_sitter::Language)
    ensures
        grammar_accepted(&r),
        grammar_of(&r) == "tree_sitter_typescript::LANGUAGE_TYPESCRIPT"@,
{
    tree_sitter_typescript::LANGUAGE_TYPESCRIPT.into()
}

/// `tree_sitter_typescript::LANGUAGE_TSX`.
#[verifier::external_body]
fn tsx_grammar() -> (r: tree_sitter::Language)
    ensures
        grammar_accepted(&r),
        grammar_of(&r) == "tree_sitter_typescript::LANGUAGE_TSX"@,
{
    tree_sitter_typescript::LANGUAGE_TSX.into()
}

/// `tree_sitter_rust::LANGUAGE`.
#[verifier::external_body]
fn rust_grammar() -> (r: tree_sitter::Language)
    ensures
        grammar_accepted(&r),
        grammar_of(&r) == "tree_sitter_rust::LANGUAGE"@,
{
    tree_sitter_rust::LANGUAGE.into()
}

/// `tree_sitter_go::LANGUAGE`.
#[verifier::external_body]
fn go_grammar() -> (r: tree_sitter::Language)
    ensures
        grammar_accepted(&r),
        grammar_of(&r) == "tree_sitter_go::LANGUAGE"@,
{
    tree_sitter_go::LANGUAGE.into()
}

/// `tree_sitter_java::LANGUAGE`.
#[verifier::external_body]
fn java_grammar() -> (r: tree_sitter::Language)
    ensures
        grammar_accepted(&r),
        grammar_of(&r) == "tree_sitter_java::LANGUAGE"@,
{
    tree_sitter_java::LANGUAGE.into()
}

/// `tree_sitter_md::LANGUAGE`, the block grammar of Markdown.
#[verifier::external_body]
fn markdown_grammar() -> (r: tree_sitter::Language)
    ensures
        grammar_accepted(&r),
        grammar_of(&r) == "tree_sitter_md::LANGUAGE"@,
{
    tree_sitter_md::LANGUAGE.into()
}

impl SourceLanguage {
    /// Parses a language name such as `python` or `rs`.
    pub fn from_name(value: &str) -> (result: Result<Self, String>)
        ensures
            match result {
                Ok(language) => language_named(value@) == Some(language),
                Err(message) => language_named(value@).is_none() && message@
                    == "unsupported language: "@ + value@,
            },
    {
        if same_text(value, "python") || same_text(value, "py") {
            Ok(SourceLanguage::Python)
        } else if same_text(value, "javascript") || same_text(value, "js") {
            Ok(SourceLanguage::JavaScript)
        } else if same_text(value, "jsx") {
            Ok(SourceLanguage::Jsx)
        } else if same_text(value, "typescript") || same_text(value, "ts") {
            Ok(SourceLanguage::TypeScript)
        } else if same_text(value, "tsx") {
            Ok(SourceLanguage::Tsx)
        } else if same_text(value, "rust") || same_text(value, "rs") {
            Ok(SourceLanguage::Rust)
        } else if same_text(value, "go") {
            Ok(SourceLanguage::Go)
        } else if same_text(value, "java") {
            Ok(SourceLanguage::Java)
        } else if same_text(value, "markdown") {
            Ok(SourceLanguage::Markdown)
        } else {
            let mut message = String::from_str("unsupported language: ");
            message.append(value);
            Err(message)
        }
    }

    /// The language of a file extension such as `py` or `tsx`.
    pub fn from_extension(extension: &str) -> (result: Result<Self, String>)
        ensures
            match result {
                Ok(language) => language_of_extension(extension@) == Some(language),
                Err(message) => language_of_extension(extension@).is_none() && message@
                    == "unsupported file extension: ."@ + extension@,
            },
    {
        if same_text(extension, "py") || same_text(extension, "pyi") {
            Ok(SourceLanguage::Python)
        } else if same_text(extension, "js") || same_text(extension, "mjs") || same_text(
            extension,
            "cjs",
        ) {
            Ok(SourceLanguage::JavaScript)
        } else if same_text(extension, "jsx") {
            Ok(SourceLanguage::Jsx)
        } else if same_text(extension, "ts") || same_text(extension, "mts") || same_text(
            extension,
            "cts",
        ) {
            Ok(SourceLanguage::TypeScript)
        } else if same_text(extension, "tsx") {
            Ok(SourceLanguage::Tsx)
        } else if same_text(extension, "rs") {
            Ok(SourceLanguage::Rust)
        } else if same_text(extension, "go") {
            Ok(SourceLanguage::Go)
        } else if same_text(extension, "java") {
            Ok(SourceLanguage::Java)
        } else if same_text(extension, "md") || same_text(extension, "markdown") {
            Ok(SourceLanguage::Markdown)
        } else {
            let mut message = String::from_str("unsupported file extension: .");
            message.append(extension);
            Err(message)
        }
    }

    /// Infers the language of a file from its extension.
    pub fn from_path(path: &Path) -> (result: Result<Self, String>)
        ensures
            match inferred_language(path) {
                Ok(language) => result matches Ok(found) && found == language,
                Err(reason) => result matches Err(message) && message@ == reason,
            },
    {
        match path_extension(path) {
            Some(extension) => Self::from_extension(extension),
            None => {
                let mut message = String::from_str("cannot infer language from ");
                let shown = path_display(path);
                message.append(shown.as_str());
                Err(message)
            },
        }
    }

    /// The Tree-sitter grammar of the language.
    pub fn grammar(self) -> (r: tree_sitter::Language)
        ensures
            grammar_accepted(&r),
            grammar_of(&r) == grammar_name(self),
    {
        match self {
            SourceLanguage::Python => python_grammar(),
            SourceLanguage::JavaScript | SourceLanguage::Jsx => javascript_grammar(),
            SourceLanguage::TypeScript => typescript_grammar(),
            SourceLanguage::Tsx => tsx_grammar(),
            SourceLanguage::Rust => rust_grammar(),
            SourceLanguage::Go => go_grammar(),
            SourceLanguage::Java => java_grammar(),
            SourceLanguage::Markdown => markdown_grammar(),
        }
    }

    /// The canonical name of the language.
    pub fn name(self) -> (name: &'static str)
        ensures
            name@ == language_name(self),
    {
        match self {
            SourceLanguage::Python => "python",
            SourceLanguage::JavaScript => "javascript",
            SourceLanguage::Jsx => "jsx",
            SourceLanguage::TypeScript => "typescript",
            SourceLanguage::Tsx => "tsx",
            SourceLanguage::Rust => "rust",
            SourceLanguage::Go => "go",
            SourceLanguage::Java => "java",
            SourceLanguage::Markdown => "markdown",
        }
    }
}

/// The name a language is shown by is a name that `from_name` reads back as
/// that language.
pub proof fn lemma_name_round_trip(language: SourceLanguage)
    ensures
        language_named(language_name(language)) == Some(language),
{
    reveal_strlit("python");
    assert("python"@.len() == 6 && "python"@[0] == 'p');
    reveal_strlit("py");
    assert("py"@.len() == 2 && "py"@[0] == 'p');
    reveal_strlit("javascript");
    assert("javascript"@.len() == 10 && "javascript"@[0] == 'j');
    reveal_strlit("js");
    assert("js"@.len() == 2 && "js"@[0] == 'j');
    reveal_strlit("jsx");
    assert("jsx"@.len() == 3 && "jsx"@[0] == 'j');
    reveal_strlit("typescript");
    assert("typescript"@.len() == 10 && "typescript"@[0] == 't');
    reveal_strlit("ts");
    assert("ts"@.len() == 2 && "ts"@[0] == 't');
    reveal_strlit("tsx");
    assert("tsx"@.len() == 3 && "tsx"@[0] == 't');
    reveal_strlit("rust");
    assert("rust"@.len() == 4 && "rust"@[0] == 'r');
    reveal_strlit("rs");
    assert("rs"@.len() == 2 && "rs"@[0] == 'r');
    reveal_strlit("go");
    assert("go"@.len() == 2 && "go"@[0] == 'g');
    reveal_strlit("java");
    assert("java"@.len() == 4 && "java"@[0] == 'j');
    reveal_strlit("markdown");
    assert("markdown"@.len() == 8 && "markdown"@[0] == 'm');
}

} // verus!
