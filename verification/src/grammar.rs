//! The catalog of languages: for each a name, its aliases, a grammar and the
//! three query texts from which its highlight configuration is compiled.

use vstd::prelude::*;
use vstd::string::StringExecFns;
use tree_sitter::Language;
use tree_sitter_highlight::HighlightConfiguration;
use crate::text::{replace_all, replaced};
use crate::vocabulary::name_views;

verus! {

#[verifier::external_type_specification]
#[verifier::external_body]
pub struct ExLanguage(tree_sitter::Language);

#[verifier::external_type_specification]
#[verifier::external_body]
pub struct ExHighlightConfiguration(tree_sitter_highlight::HighlightConfiguration);

/// The grammars that the catalog draws on.
#[derive(Clone, Copy, Debug, PartialEq, Eq, Structural)]
pub enum Grammar {
    C,
    Printf,
    Python,
    Nix,
    Javascript,
    Typescript,
    Tsx,
    Bash,
    Ruby,
    Comment,
}

/// The query texts that the grammar crates provide.
#[derive(Clone, Copy, Debug, PartialEq, Eq, Structural)]
pub enum QueryText {
    CHighlights,
    PrintfHighlights,
    PythonHighlights,
    NixHighlights,
    NixInjections,
    JavascriptHighlights,
    JsxHighlights,
    JavascriptInjections,
    JavascriptLocals,
    TypescriptHighlights,
    TypescriptLocals,
    BashHighlights,
    RubyHighlights,
    RubyLocals,
}

/// One language of the catalog.
#[derive(Clone, Debug)]
pub struct LangConfig {
    pub name: &'static str,
    pub aliases: Vec<&'static str>,
    pub language: Grammar,
    pub highlights_query: String,
    pub injections_query: String,
    pub locals_query: String,
}

/// A language as plain values: its name, its aliases, its grammar and its
/// three query texts.
pub ghost struct Entry {
    pub name: Seq<char>,
    pub aliases: Seq<Seq<char>>,
    pub grammar: Grammar,
    pub highlights: Seq<char>,
    pub injections: Seq<char>,
    pub locals: Seq<char>,
}

/// The text that the grammar crate provides under the constant `text`.
pub uninterp spec fn provided(text: QueryText) -> Seq<char>;

/// The parser of `grammar`: what the `LANGUAGE` constant of its crate gives
/// when it is converted into a `Language`.
pub uninterp spec fn parser(grammar: Grammar) -> Language;

/// The `Debug` text of the error with which `HighlightConfiguration::new`
/// refuses the three query texts for `language`, or `None` where it makes a
/// configuration of them.
pub uninterp spec fn query_fault(
    language: Language,
    highlights: Seq<char>,
    injections: Seq<char>,
    locals: Seq<char>,
) -> Option<Seq<char>>;

/// The configuration that `HighlightConfiguration::new` makes of the three
/// query texts for `language`, under the name `name`, where it makes one.
pub uninterp spec fn compiled(
    language: Language,
    name: Seq<char>,
    highlights: Seq<char>,
    injections: Seq<char>,
    locals: Seq<char>,
) -> HighlightConfiguration;

/// The configuration `config` after `HighlightConfiguration::configure` has
/// bound its captures to `names`.
pub uninterp spec fn configured(
    config: HighlightConfiguration,
    names: Seq<Seq<char>>,
) -> HighlightConfiguration;

/// The names that `HighlightConfiguration::configure` was last given for
/// `config`: a scope event of this configuration carries the position of its
/// scope among them.
pub uninterp spec fn bound_names(config: HighlightConfiguration) -> Seq<Seq<char>>;

/// The marker that is taken out of every highlights query.
pub open spec fn spell_marker() -> Seq<char> {
    "@spell"@
}

/// The query text `text` with the spell marker taken out.
pub open spec fn stripped(text: Seq<char>) -> Seq<char> {
    replaced(text, spell_marker(), Seq::empty())
}

/// Two texts on two lines.
pub open spec fn lines(first: Seq<char>, second: Seq<char>) -> Seq<char> {
    first + "\n"@ + second
}

/// The highlights query of the comment language, whose grammar crate
/// provides none: a tag's name is a label, the user it names a constant, and
/// an address a special string.
pub open spec fn comment_query() -> Seq<char> {
    "(tag (name) @label)\n(tag (user) @constant)\n(uri) @string.special\n"@
}

/// A language without injections and locals.
pub open spec fn simple(
    name: Seq<char>,
    aliases: Seq<Seq<char>>,
    grammar: Grammar,
    highlights: Seq<char>,
) -> Entry {
    Entry {
        name,
        aliases,
        grammar,
        highlights: stripped(highlights),
        injections: Seq::empty(),
        locals: Seq::empty(),
    }
}

/// The highlights of TypeScript before the marker is taken out: its own
/// patterns, then those of JavaScript.
pub open spec fn typescript_patterns() -> Seq<char> {
    lines(provided(QueryText::TypescriptHighlights), provided(QueryText::JavascriptHighlights))
}

/// The locals of TypeScript: its own patterns, then those of JavaScript.
pub open spec fn typescript_scopes() -> Seq<char> {
    lines(provided(QueryText::TypescriptLocals), provided(QueryText::JavascriptLocals))
}

/// The languages of the catalog, in order. Each highlights query is the
/// provided text with the spell marker taken out; injections and locals are
/// the provided texts as they are, and empty where a language has none.
pub open spec fn catalog() -> Seq<Entry> {
    seq![
        simple("c"@, Seq::empty(), Grammar::C, provided(QueryText::CHighlights)),
        simple("printf"@, Seq::empty(), Grammar::Printf, provided(QueryText::PrintfHighlights)),
        simple("python"@, seq!["py"@], Grammar::Python, provided(QueryText::PythonHighlights)),
        Entry {
            name: "nix"@,
            aliases: Seq::empty(),
            grammar: Grammar::Nix,
            highlights: stripped(provided(QueryText::NixHighlights)),
            injections: provided(QueryText::NixInjections),
            locals: Seq::empty(),
        },
        Entry {
            name: "javascript"@,
            aliases: seq!["js"@],
            grammar: Grammar::Javascript,
            highlights: stripped(provided(QueryText::JavascriptHighlights)),
            injections: provided(QueryText::JavascriptInjections),
            locals: provided(QueryText::JavascriptLocals),
        },
        Entry {
            name: "typescript"@,
            aliases: seq!["ts"@],
            grammar: Grammar::Typescript,
            highlights: stripped(typescript_patterns()),
            injections: provided(QueryText::JavascriptInjections),
            locals: typescript_scopes(),
        },
        Entry {
            name: "tsx"@,
            aliases: seq!["typescriptreact"@],
            grammar: Grammar::Tsx,
            highlights: stripped(lines(typescript_patterns(), provided(QueryText::JsxHighlights))),
            injections: provided(QueryText::JavascriptInjections),
            locals: typescript_scopes(),
        },
        Entry {
            name: "jsx"@,
            aliases: seq!["javascriptreact"@],
            grammar: Grammar::Javascript,
            highlights: stripped(
                lines(
                    provided(QueryText::JavascriptHighlights),
                    provided(QueryText::JsxHighlights),
                ) + "\n"@,
            ),
            injections: provided(QueryText::JavascriptInjections),
            locals: provided(QueryText::JavascriptLocals),
        },
        simple("bash"@, seq!["sh"@, "shell"@], Grammar::Bash, provided(QueryText::BashHighlights)),
        Entry {
            name: "ruby"@,
            aliases: seq!["rb"@],
            grammar: Grammar::Ruby,
            highlights: stripped(provided(QueryText::RubyHighlights)),
            injections: Seq::empty(),
            locals: provided(QueryText::RubyLocals),
        },
        simple("comment"@, Seq::empty(), Grammar::Comment, comment_query()),
    ]
}

/// Why the queries of `entry` do not compile against its grammar, or `None`
/// where they do.
pub open spec fn fault_of(entry: Entry) -> Option<Seq<char>> {
    query_fault(parser(entry.grammar), entry.highlights, entry.injections, entry.locals)
}

/// The configuration of `entry` for the scope names `names`: its queries
/// compiled against its grammar, the captures bound to `names`.
pub open spec fn config_of(entry: Entry, names: Seq<Seq<char>>) -> HighlightConfiguration {
    configured(
        compiled(
            parser(entry.grammar),
            entry.name,
            entry.highlights,
            entry.injections,
            entry.locals,
        ),
        names,
    )
}

/// The message for a language whose queries do not compile.
pub open spec fn query_error_message(name: Seq<char>, detail: Seq<char>) -> Seq<char> {
    "Query error for "@ + name + ": "@ + detail
}

/// Converts `tree_sitter_c::LANGUAGE` into a `Language`. Trusted: the constant
/// names one grammar, so every call gives the same parser.
#[verifier::external_body]
fn grammar_c() -> (language: Language)
    ensures
        language == parser(Grammar::C),
{
    tree_sitter_c::LANGUAGE.into()
}

/// Converts `tree_sitter_printf::LANGUAGE` into a `Language`. Trusted: the constant
/// names one grammar, so every call gives the same parser.
#[verifier::external_body]
fn grammar_printf() -> (language: Language)
    ensures
        language == parser(Grammar::Printf),
{
    tree_sitter_printf::LANGUAGE.into()
}

/// Converts `tree_sitter_python::LANGUAGE` into a `Language`. Trusted: the constant
/// names one grammar, so every call gives the same parser.
#[verifier::external_body]
fn grammar_python() -> (language: Language)
    ensures
        language == parser(Grammar::Python),
{
    tree_sitter_python::LANGUAGE.into()
}

/// Converts `tree_sitter_nix::LANGUAGE` into a `Language`. Trusted: the constant
/// names one grammar, so every call gives the same parser.
#[verifier::external_body]
fn grammar_nix() -> (language: Language)
    ensures
        language == parser(Grammar::Nix),
{
    tree_sitter_nix::LANGUAGE.into()
}

/// Converts `tree_sitter_javascript::LANGUAGE` into a `Language`. Trusted: the constant
/// names one grammar, so every call gives the same parser.
#[verifier::external_body]
fn grammar_javascript() -> (language: Language)
    ensures
        language == parser(Grammar::Javascript),
{
    tree_sitter_javascript::LANGUAGE.into()
}

/// Converts `tree_sitter_typescript::LANGUAGE_TYPESCRIPT` into a `Language`. Trusted: the constant
/// names one grammar, so every call gives the same parser.
#[verifier::external_body]
fn grammar_typescript() -> (language: Language)
    ensures
        language == parser(Grammar::Typescript),
{
    tree_sitter_typescript::LANGUAGE_TYPESCRIPT.into()
}

/// Converts `tree_sitter_typescript::LANGUAGE_TSX` into a `Language`. Trusted: the constant
/// names one grammar, so every call gives the same parser.
#[verifier::external_body]
fn grammar_tsx() -> (language: Language)
    ensures
        language == parser(Grammar::Tsx),
{
    tree_sitter_typescript::LANGUAGE_TSX.into()
}

/// Converts `tree_sitter_bash::LANGUAGE` into a `Language`. Trusted: the constant
/// names one grammar, so every call gives the same parser.
#[verifier::external_body]
fn grammar_bash() -> (language: Language)
    ensures
        language == parser(Grammar::Bash),
{
    tree_sitter_bash::LANGUAGE.into()
}

/// Converts `tree_sitter_ruby::LANGUAGE` into a `Language`. Trusted: the constant
/// names one grammar, so every call gives the same parser.
#[verifier::external_body]
fn grammar_ruby() -> (language: Language)
    ensures
        language == parser(Grammar::Ruby),
{
    tree_sitter_ruby::LANGUAGE.into()
}

/// Converts `tree_sitter_comment::LANGUAGE` into a `Language`. Trusted: the constant
/// names one grammar, so every call gives the same parser.
#[verifier::external_body]
fn grammar_comment() -> (language: Language)
    ensures
        language == parser(Grammar::Comment),
{
    tree_sitter_comment::LANGUAGE.into()
}

/// `tree_sitter_c::HIGHLIGHT_QUERY`. Trusted: a constant, the same text at every
/// call.
#[verifier::external_body]
fn c_highlights() -> (text: &'static str)
    ensures
        text@ == provided(QueryText::CHighlights),
{
    tree_sitter_c::HIGHLIGHT_QUERY
}

/// `tree_sitter_printf::HIGHLIGHTS_QUERY`. Trusted: a constant, the same text at every
/// call.
#[verifier::external_body]
fn printf_highlights() -> (text: &'static str)
    ensures
        text@ == provided(QueryText::PrintfHighlights),
{
    tree_sitter_printf::HIGHLIGHTS_QUERY
}

/// `tree_sitter_python::HIGHLIGHTS_QUERY`. Trusted: a constant, the same text at every
/// call.
#[verifier::external_body]
fn python_highlights() -> (text: &'static str)
    ensures
        text@ == provided(QueryText::PythonHighlights),
{
    tree_sitter_python::HIGHLIGHTS_QUERY
}

/// `tree_sitter_nix::HIGHLIGHTS_QUERY`. Trusted: a constant, the same text at every
/// call.
#[verifier::external_body]
fn nix_highlights() -> (text: &'static str)
    ensures
        text@ == provided(QueryText::NixHighlights),
{
    tree_sitter_nix::HIGHLIGHTS_QUERY
}

/// `tree_sitter_nix::INJECTIONS_QUERY`. Trusted: a constant, the same text at every
/// call.
#[verifier::external_body]
fn nix_injections() -> (text: &'static str)
    ensures
        text@ == provided(QueryText::NixInjections),
{
    tree_sitter_nix::INJECTIONS_QUERY
}

/// `tree_sitter_javascript::HIGHLIGHT_QUERY`. Trusted: a constant, the same text at every
/// call.
#[verifier::external_body]
fn javascript_highlights() -> (text: &'static str)
    ensures
        text@ == provided(QueryText::JavascriptHighlights),
{
    tree_sitter_javascript::HIGHLIGHT_QUERY
}

/// `tree_sitter_javascript::JSX_HIGHLIGHT_QUERY`. Trusted: a constant, the same text at every
/// call.
#[verifier::external_body]
fn jsx_highlights() -> (text: &'static str)
    ensures
        text@ == provided(QueryText::JsxHighlights),
{
    tree_sitter_javascript::JSX_HIGHLIGHT_QUERY
}

/// `tree_sitter_javascript::INJECTIONS_QUERY`. Trusted: a constant, the same text at every
/// call.
#[verifier::external_body]
fn javascript_injections() -> (text: &'static str)
    ensures
        text@ == provided(QueryText::JavascriptInjections),
{
    tree_sitter_javascript::INJECTIONS_QUERY
}

/// `tree_sitter_javascript::LOCALS_QUERY`. Trusted: a constant, the same text at every
/// call.
#[verifier::external_body]
fn javascript_locals() -> (text: &'static str)
    ensures
        text@ == provided(QueryText::JavascriptLocals),
{
    tree_sitter_javascript::LOCALS_QUERY
}

/// `tree_sitter_typescript::HIGHLIGHTS_QUERY`. Trusted: a constant, the same text at every
/// call.
#[verifier::external_body]
fn typescript_highlights() -> (text: &'static str)
    ensures
        text@ == provided(QueryText::TypescriptHighlights),
{
    tree_sitter_typescript::HIGHLIGHTS_QUERY
}

/// `tree_sitter_typescript::LOCALS_QUERY`. Trusted: a constant, the same text at every
/// call.
#[verifier::external_body]
fn typescript_locals() -> (text: &'static str)
    ensures
        text@ == provided(QueryText::TypescriptLocals),
{
    tree_sitter_typescript::LOCALS_QUERY
}

/// `tree_sitter_bash::HIGHLIGHT_QUERY`. Trusted: a constant, the same text at every
/// call.
#[verifier::external_body]
fn bash_highlights() -> (text: &'static str)
    ensures
        text@ == provided(QueryText::BashHighlights),
{
    tree_sitter_bash::HIGHLIGHT_QUERY
}

/// `tree_sitter_ruby::HIGHLIGHTS_QUERY`. Trusted: a constant, the same text at every
/// call.
#[verifier::external_body]
fn ruby_highlights() -> (text: &'static str)
    ensures
        text@ == provided(QueryText::RubyHighlights),
{
    tree_sitter_ruby::HIGHLIGHTS_QUERY
}

/// `tree_sitter_ruby::LOCALS_QUERY`. Trusted: a constant, the same text at every
/// call.
#[verifier::external_body]
fn ruby_locals() -> (text: &'static str)
    ensures
        text@ == provided(QueryText::RubyLocals),
{
    tree_sitter_ruby::LOCALS_QUERY
}

/// Calls `HighlightConfiguration::new` and, where it fails, takes the
/// `Debug` text of its error. Trusted: whether it fails, and with which error,
/// depends on the language and the three query texts alone; what it makes
/// depends on these and the name alone.
#[verifier::external_body]
fn new_configuration(
    language: Language,
    name: &str,
    highlights_query: &str,
    injections_query: &str,
    locals_query: &str,
) -> (made: Result<HighlightConfiguration, String>)
    ensures
        made is Err <==> query_fault(
            language,
            highlights_query@,
            injections_query@,
            locals_query@,
        ) is Some,
        made is Err ==> made->Err_0@ == query_fault(
            language,
            highlights_query@,
            injections_query@,
            locals_query@,
        )->0,
        made is Ok ==> made->Ok_0 == compiled(
            language,
            name@,
            highlights_query@,
            injections_query@,
            locals_query@,
        ),
{
    match HighlightConfiguration::new(
        language,
        name,
        highlights_query,
        injections_query,
        locals_query,
    ) {
        Ok(config) => Ok(config),
        Err(error) => Err(format!("{error:?}")),
    }
}

/// Calls `HighlightConfiguration::configure`, which binds the captures of
/// the queries to positions in `names`. Trusted: what the configuration
/// becomes depends on what it was and on the names alone, and it is bound to
/// these names from then on.
#[verifier::external_body]
fn configure(config: &mut HighlightConfiguration, names: &[&str])
    ensures
        *final(config) == configured(*old(config), name_views(names@)),
        bound_names(*final(config)) == name_views(names@),
{
    config.configure(names)
}

/// The two texts on two lines.
fn joined(first: &str, second: &str) -> (r: String)
    ensures
        r@ == lines(first@, second@),
{
    let mut text = String::from_str(first);
    text.append("\n");
    text.append(second);
    text
}

impl Grammar {
    /// The parser of this grammar.
    pub fn language(&self) -> (language: Language)
        ensures
            language == parser(*self),
    {
        match self {
            Grammar::C => grammar_c(),
            Grammar::Printf => grammar_printf(),
            Grammar::Python => grammar_python(),
            Grammar::Nix => grammar_nix(),
            Grammar::Javascript => grammar_javascript(),
            Grammar::Typescript => grammar_typescript(),
            Grammar::Tsx => grammar_tsx(),
            Grammar::Bash => grammar_bash(),
            Grammar::Ruby => grammar_ruby(),
            Grammar::Comment => grammar_comment(),
        }
    }
}

impl LangConfig {
    /// This language as plain values.
    pub open spec fn entry(&self) -> Entry {
        Entry {
            name: self.name@,
            aliases: name_views(self.aliases@),
            grammar: self.language,
            highlights: self.highlights_query@,
            injections: self.injections_query@,
            locals: self.locals_query@,
        }
    }

    /// Why the queries of this language do not compile against its grammar,
    /// or `None` where they do.
    pub open spec fn fault(&self) -> Option<Seq<char>> {
        fault_of(self.entry())
    }

    /// The same language with the spell marker taken out of its highlights
    /// query.
    pub fn without_spell(self) -> (r: LangConfig)
        ensures
            r.entry() == (Entry { highlights: stripped(self.highlights_query@), ..self.entry() }),
    {
        proof {
            reveal_strlit("@spell");
            reveal_strlit("");
            assert(""@ =~= Seq::<char>::empty());
        }
        let highlights_query = replace_all(self.highlights_query.as_str(), "@spell", "");
        LangConfig {
            name: self.name,
            aliases: self.aliases,
            language: self.language,
            highlights_query,
            injections_query: self.injections_query,
            locals_query: self.locals_query,
        }
    }

    /// A language without aliases, the marker taken out of its highlights.
    fn plain(
        name: &'static str,
        language: Grammar,
        highlights_query: String,
        injections_query: String,
        locals_query: String,
    ) -> (r: LangConfig)
        ensures
            r.entry() == (Entry {
                name: name@,
                aliases: Seq::empty(),
                grammar: language,
                highlights: stripped(highlights_query@),
                injections: injections_query@,
                locals: locals_query@,
            }),
    {
        let aliases: Vec<&'static str> = Vec::new();
        assert(name_views(aliases@) =~= Seq::<Seq<char>>::empty());
        LangConfig {
            name,
            aliases,
            language,
            highlights_query,
            injections_query,
            locals_query,
        }.without_spell()
    }

    /// A language with one alias, the marker taken out of its highlights.
    fn aliased(
        name: &'static str,
        alias: &'static str,
        language: Grammar,
        highlights_query: String,
        injections_query: String,
        locals_query: String,
    ) -> (r: LangConfig)
        ensures
            r.entry() == (Entry {
                name: name@,
                aliases: seq![alias@],
                grammar: language,
                highlights: stripped(highlights_query@),
                injections: injections_query@,
                locals: locals_query@,
            }),
    {
        let mut aliases: Vec<&'static str> = Vec::new();
        aliases.push(alias);
        assert(name_views(aliases@) =~= seq![alias@]);
        LangConfig {
            name,
            aliases,
            language,
            highlights_query,
            injections_query,
            locals_query,
        }.without_spell()
    }

    /// The catalog: every language with its name, aliases, grammar and query
    /// texts, the spell marker taken out of each highlights query.
    pub fn all() -> (r: Vec<LangConfig>)
        ensures
            r@.len() == catalog().len(),
            forall|i: int| 0 <= i < r@.len() ==> (#[trigger] r@[i]).entry() == catalog()[i],
    {
        let mut langs: Vec<LangConfig> = Vec::new();
        langs.push(
            LangConfig::plain(
                "c",
                Grammar::C,
                String::from_str(c_highlights()),
                String::new(),
                String::new(),
            ),
        );
        langs.push(
            LangConfig::plain(
                "printf",
                Grammar::Printf,
                String::from_str(printf_highlights()),
                String::new(),
                String::new(),
            ),
        );
        langs.push(
            LangConfig::aliased(
                "python",
                "py",
                Grammar::Python,
                String::from_str(python_highlights()),
                String::new(),
                String::new(),
            ),
        );
        langs.push(
            LangConfig::plain(
                "nix",
                Grammar::Nix,
                String::from_str(nix_highlights()),
                String::from_str(nix_injections()),
                String::new(),
            ),
        );
        langs.push(
            LangConfig::aliased(
                "javascript",
                "js",
                Grammar::Javascript,
                String::from_str(javascript_highlights()),
                String::from_str(javascript_injections()),
                String::from_str(javascript_locals()),
            ),
        );
        let typescript = joined(typescript_highlights(), javascript_highlights());
        langs.push(
            LangConfig::aliased(
                "typescript",
                "ts",
                Grammar::Typescript,
                String::from_str(typescript.as_str()),
                String::from_str(javascript_injections()),
                joined(typescript_locals(), javascript_locals()),
            ),
        );
        langs.push(
            LangConfig::aliased(
                "tsx",
                "typescriptreact",
                Grammar::Tsx,
                joined(typescript.as_str(), jsx_highlights()),
                String::from_str(javascript_injections()),
                joined(typescript_locals(), javascript_locals()),
            ),
        );
        let mut jsx = joined(javascript_highlights(), jsx_highlights());
        jsx.append("\n");
        langs.push(
            LangConfig::aliased(
                "jsx",
                "javascriptreact",
                Grammar::Javascript,
                jsx,
                String::from_str(javascript_injections()),
                String::from_str(javascript_locals()),
            ),
        );
        let mut bash_aliases: Vec<&'static str> = Vec::new();
        bash_aliases.push("sh");
        bash_aliases.push("shell");
        assert(name_views(bash_aliases@) =~= seq!["sh"@, "shell"@]);
        langs.push(
            LangConfig {
                name: "bash",
                aliases: bash_aliases,
                language: Grammar::Bash,
                highlights_query: String::from_str(bash_highlights()),
                injections_query: String::new(),
                locals_query: String::new(),
            }.without_spell(),
        );
        langs.push(
            LangConfig::aliased(
                "ruby",
                "rb",
                Grammar::Ruby,
                String::from_str(ruby_highlights()),
                String::new(),
                String::from_str(ruby_locals()),
            ),
        );
        langs.push(
            LangConfig::plain(
                "comment",
                Grammar::Comment,
                String::from_str(
                    "(tag (name) @label)\n(tag (user) @constant)\n(uri) @string.special\n",
                ),
                String::new(),
                String::new(),
            ),
        );
        langs
    }

    /// What becomes of a configuration that was made for the language `name`,
    /// or of the reason why none was: the configuration with its captures
    /// bound to `capture_names`, or a message that names the language.
    pub fn bind(
        name: &str,
        made: Result<HighlightConfiguration, String>,
        capture_names: &[&str],
    ) -> (r: Result<HighlightConfiguration, String>)
        ensures
            made is Ok <==> r is Ok,
            made is Ok ==> r->Ok_0 == configured(made->Ok_0, name_views(capture_names@)),
            r is Ok ==> bound_names(r->Ok_0) == name_views(capture_names@),
            made is Err ==> r->Err_0@ == query_error_message(name@, made->Err_0@),
    {
        match made {
            Ok(mut config) => {
                configure(&mut config, capture_names);
                Ok(config)
            },
            Err(detail) => {
                let mut message = String::from_str("Query error for ");
                message.append(name);
                message.append(": ");
                message.append(detail.as_str());
                Err(message)
            },
        }
    }

    /// Compiles the queries of this language against its grammar and binds
    /// their captures to `capture_names`. Succeeds exactly where the three
    /// query texts compile against the parser of the grammar; where they do
    /// not, the message names the language and says why.
    pub fn into_highlight_config(self, capture_names: &[&str]) -> (r: Result<
        HighlightConfiguration,
        String,
    >)
        ensures
            match self.fault() {
                Some(detail) => r is Err && r->Err_0@ == query_error_message(self.name@, detail),
                None => r is Ok && r->Ok_0 == config_of(self.entry(), name_views(capture_names@))
                    && bound_names(r->Ok_0) == name_views(capture_names@),
            },
    {
        let made = new_configuration(
            self.language.language(),
            self.name,
            self.highlights_query.as_str(),
            self.injections_query.as_str(),
            self.locals_query.as_str(),
        );
        LangConfig::bind(self.name, made, capture_names)
    }
}

} // verus!
