//! The registry of compiled languages, and highlighting with it.

use vstd::prelude::*;
use vstd::string::StringExecFns;
use vstd::utf8::{encode_utf8, is_ascii_chars};
use tree_sitter_highlight::{HighlightConfiguration, HighlightEvent, Highlighter};
use crate::grammar::{
    bound_names, catalog, config_of, fault_of, query_error_message, Entry, LangConfig,
};
use crate::escape::{escape, harmless};
use crate::render::{
    lemma_covering, lemma_empty_code_empty_markup, lemma_markup_escaped, lemma_rendered_spans_ok,
    lemma_scopes_known, pieces, reach, render, rendered, scopes_below, source_text, tags_known,
    tiles, untagged, whole, Event,
};
use crate::text::{
    lemma_trimmed_end_appended, lemma_trimmed_end_blank, lowercased, to_lowercase, trim_end,
    trimmed_end, white_space,
};
use crate::vocabulary::{highlights, name_views, scope_names};

verus! {

/// The table that a list of bindings stands for: a later binding of a key
/// replaces an earlier one.
pub open spec fn table_of<V>(pairs: Seq<(Seq<char>, V)>) -> Map<Seq<char>, V>
    decreases pairs.len(),
{
    if pairs.len() == 0 {
        Map::empty()
    } else {
        table_of(pairs.drop_last()).insert(pairs.last().0, pairs.last().1)
    }
}

/// The table `table` with `name` and each of `aliases` bound to `name`.
pub open spec fn with_aliases(
    table: Map<Seq<char>, Seq<char>>,
    name: Seq<char>,
    aliases: Seq<Seq<char>>,
) -> Map<Seq<char>, Seq<char>>
    decreases aliases.len(),
{
    if aliases.len() == 0 {
        table.insert(name, name)
    } else {
        with_aliases(table, name, aliases.drop_last()).insert(aliases.last(), name)
    }
}

/// The alias table of a list of languages: every name and every alias bound
/// to the name of its language.
pub open spec fn alias_table(entries: Seq<Entry>) -> Map<Seq<char>, Seq<char>>
    decreases entries.len(),
{
    if entries.len() == 0 {
        Map::empty()
    } else {
        with_aliases(
            alias_table(entries.drop_last()),
            entries.last().name,
            entries.last().aliases,
        )
    }
}

/// Whether `key` is the name or an alias of the language `entry`.
pub open spec fn is_key(entry: Entry, key: Seq<char>) -> bool {
    key == entry.name || entry.aliases.contains(key)
}

/// Whether no name or alias belongs to two of the languages.
pub open spec fn one_owner(entries: Seq<Entry>) -> bool {
    forall|i: int, j: int, key: Seq<char>|
        0 <= i < entries.len() && 0 <= j < entries.len() && #[trigger] is_key(entries[i], key)
            && #[trigger] is_key(entries[j], key) ==> i == j
}

/// The message for a language that the registry does not have.
pub open spec fn unsupported_message(lang: Seq<char>) -> Seq<char> {
    "Unsupported language: "@ + lang
}

/// The message for a highlighting that failed.
pub open spec fn highlight_error_message(detail: Seq<char>) -> Seq<char> {
    "Highlight error: "@ + detail
}

/// The warning for a language that could not be loaded.
pub open spec fn load_warning(name: Seq<char>, reason: Seq<char>) -> Seq<char> {
    "Warning: Failed to load language "@ + name + ": "@ + reason
}


/// The languages of a list as plain values.
pub open spec fn entries_of(langs: Seq<LangConfig>) -> Seq<Entry> {
    Seq::new(langs.len(), |i: int| langs[i].entry())
}

/// Whether one of `entries` has the name `name` and queries that compile.
pub open spec fn held(entries: Seq<Entry>, name: Seq<char>) -> bool {
    exists|i: int|
        0 <= i < entries.len() && (#[trigger] entries[i]).name == name && fault_of(entries[i])
            is None
}

/// The place of the last of `entries` that has the name `name` and queries
/// that compile, where there is one.
pub open spec fn last_held(entries: Seq<Entry>, name: Seq<char>) -> int
    decreases entries.len(),
{
    if entries.len() == 0 {
        -1
    } else if entries.last().name == name && fault_of(entries.last()) is None {
        entries.len() - 1
    } else {
        last_held(entries.drop_last(), name)
    }
}

/// The configurations of `entries` by name, compiled for the scope names
/// `names`: each language whose queries compile stands under its name, a
/// later one in place of an earlier one of the same name.
pub open spec fn config_table(entries: Seq<Entry>, names: Seq<Seq<char>>) -> Map<
    Seq<char>,
    HighlightConfiguration,
>
    decreases entries.len(),
{
    if entries.len() == 0 {
        Map::empty()
    } else {
        let before = config_table(entries.drop_last(), names);
        if fault_of(entries.last()) is None {
            before.insert(entries.last().name, config_of(entries.last(), names))
        } else {
            before
        }
    }
}

/// The warnings for `entries`: one for each language whose queries do not
/// compile, in the order of the languages, with the reason that the compiler
/// gave.
pub open spec fn load_warnings(entries: Seq<Entry>) -> Seq<Seq<char>>
    decreases entries.len(),
{
    if entries.len() == 0 {
        Seq::empty()
    } else {
        let before = load_warnings(entries.drop_last());
        let last = entries.last();
        match fault_of(last) {
            Some(detail) => before.push(
                load_warning(last.name, query_error_message(last.name, detail)),
            ),
            None => before,
        }
    }
}

/// Whether every scope that `events` open has a place among the names that
/// `config` or one of `configs` is bound to.
pub open spec fn scopes_bound(
    events: Seq<Event>,
    config: HighlightConfiguration,
    configs: Map<Seq<char>, HighlightConfiguration>,
) -> bool {
    forall|k: int|
        0 <= k < events.len() ==> match #[trigger] events[k] {
            Event::ScopeStart(scope) => scope < bound_names(config).len() || exists|
                name: Seq<char>,
            |
                configs.contains_key(name) && scope < bound_names(#[trigger] configs[name]).len(),
            _ => true,
        }
}

/// What `Highlighter::highlight` yields for `code` under `config`, with the
/// first `limit` injected languages that `aliases` and `configs` know
/// resolved through them and every later one left unresolved: the events in
/// order, or the `Debug` text of the error with which it refuses to start.
pub uninterp spec fn highlighted(
    config: HighlightConfiguration,
    code: Seq<char>,
    configs: Map<Seq<char>, HighlightConfiguration>,
    aliases: Map<Seq<char>, Seq<char>>,
    limit: nat,
) -> Result<Seq<Event>, Seq<char>>;

/// The number of injected regions that one highlighting resolves. A region
/// beyond it is left plain, so that a language that injects itself without
/// end cannot keep a call from returning.
pub const INJECTION_LIMIT: usize = 1024;

/// The texts of a result.
pub open spec fn text_result(r: Result<String, String>) -> Result<Seq<char>, Seq<char>> {
    match r {
        Ok(markup) => Ok(markup@),
        Err(message) => Err(message@),
    }
}

/// What the highlighter handed back, as plain values.
pub open spec fn outcome_view(outcome: Result<Vec<Event>, String>) -> Result<
    Seq<Event>,
    Seq<char>,
> {
    match outcome {
        Ok(events) => Ok(events@),
        Err(detail) => Err(detail@),
    }
}

/// The result of a highlighting of `code`, given what the highlighter handed
/// back: the markup of its events, or a message that says why there is none.
pub open spec fn outcome_markup(code: Seq<char>, outcome: Result<Seq<Event>, Seq<char>>) -> Result<
    Seq<char>,
    Seq<char>,
> {
    match outcome {
        Err(detail) => Err(highlight_error_message(detail)),
        Ok(events) => match rendered(code, events) {
            Ok(markup) => Ok(markup),
            Err(e) => Err(highlight_error_message(e.text())),
        },
    }
}

/// A lookup from the last binding down finds what the table holds: with
/// `i` the last position of `key`, or -1 where it has none.
pub proof fn lemma_table_scan<V>(pairs: Seq<(Seq<char>, V)>, key: Seq<char>, i: int)
    requires
        -1 <= i < pairs.len(),
        forall|j: int| i < j < pairs.len() ==> (#[trigger] pairs[j]).0 != key,
        i >= 0 ==> pairs[i].0 == key,
    ensures
        i >= 0 ==> table_of(pairs).contains_key(key) && table_of(pairs)[key] == pairs[i].1,
        i < 0 ==> !table_of(pairs).contains_key(key),
    decreases pairs.len(),
{
    if pairs.len() > 0 {
        if i < pairs.len() - 1 {
            let rest = pairs.drop_last();
            assert(pairs.last() == pairs[pairs.len() - 1]);
            assert forall|j: int| i < j < rest.len() implies (#[trigger] rest[j]).0 != key by {
                assert(rest[j] == pairs[j]);
            }
            lemma_table_scan(rest, key, i);
        }
    }
}

/// What `with_aliases` binds: the name and the aliases to the name, every
/// other key as before.
pub proof fn lemma_with_aliases(
    table: Map<Seq<char>, Seq<char>>,
    name: Seq<char>,
    aliases: Seq<Seq<char>>,
    key: Seq<char>,
)
    ensures
        key == name || aliases.contains(key) ==> with_aliases(table, name, aliases).contains_key(
            key,
        ) && with_aliases(table, name, aliases)[key] == name,
        !(key == name || aliases.contains(key)) ==> (with_aliases(
            table,
            name,
            aliases,
        ).contains_key(key) <==> table.contains_key(key)),
        !(key == name || aliases.contains(key)) && table.contains_key(key) ==> with_aliases(
            table,
            name,
            aliases,
        )[key] == table[key],
    decreases aliases.len(),
{
    if aliases.len() > 0 {
        let rest = aliases.drop_last();
        lemma_with_aliases(table, name, rest, key);
        if aliases.contains(key) {
            let k = choose|k: int| 0 <= k < aliases.len() && aliases[k] == key;
            if k < rest.len() {
                assert(rest[k] == key);
            }
        }
        if rest.contains(key) {
            let k = choose|k: int| 0 <= k < rest.len() && rest[k] == key;
            assert(aliases[k] == key);
        }
        assert(aliases[aliases.len() - 1] == aliases.last());
    }
}

/// Where no key belongs to two languages, each name and each alias is bound
/// to the name of its language.
pub proof fn lemma_alias_table_owner(entries: Seq<Entry>, i: int, key: Seq<char>)
    requires
        one_owner(entries),
        0 <= i < entries.len(),
        is_key(entries[i], key),
    ensures
        alias_table(entries).contains_key(key),
        alias_table(entries)[key] == entries[i].name,
    decreases entries.len(),
{
    let rest = entries.drop_last();
    let last = entries.last();
    lemma_with_aliases(alias_table(rest), last.name, last.aliases, key);
    if i < entries.len() - 1 {
        assert(!is_key(entries[entries.len() - 1], key));
        assert(rest[i] == entries[i]);
        assert(one_owner(rest)) by {
            assert forall|a: int, b: int, k: Seq<char>|
                0 <= a < rest.len() && 0 <= b < rest.len() && #[trigger] is_key(rest[a], k)
                    && #[trigger] is_key(rest[b], k) implies a == b by {
                assert(rest[a] == entries[a]);
                assert(rest[b] == entries[b]);
            }
        }
        lemma_alias_table_owner(rest, i, key);
    }
}

/// In the catalog no name or alias belongs to two languages.
pub proof fn lemma_catalog_one_owner()
    ensures
        one_owner(catalog()),
{
    let entries = catalog();
    assert forall|i: int, j: int, key: Seq<char>|
        0 <= i < entries.len() && 0 <= j < entries.len() && #[trigger] is_key(entries[i], key)
            && #[trigger] is_key(entries[j], key) implies i == j by {
        lemma_catalog_key(i, key);
        lemma_catalog_key(j, key);
    }
}

/// The first two characters of a key of the catalog tell its language,
/// together with its length.
proof fn lemma_catalog_key(i: int, key: Seq<char>)
    requires
        0 <= i < catalog().len(),
        is_key(catalog()[i], key),
    ensures
        i == catalog_owner(key),
        key.len() <= 15,
{
    lemma_catalog_spellings();
    let entry = catalog()[i];
    if key != entry.name {
        let k = choose|k: int| 0 <= k < entry.aliases.len() && entry.aliases[k] == key;
        assert(entry.aliases[k] == key);
    }
}

/// The names and aliases of the catalog, letter by letter.
proof fn lemma_catalog_spellings()
    ensures
        "c"@ == seq!['c'],
        "printf"@ == seq!['p', 'r', 'i', 'n', 't', 'f'],
        "python"@ == seq!['p', 'y', 't', 'h', 'o', 'n'],
        "py"@ == seq!['p', 'y'],
        "nix"@ == seq!['n', 'i', 'x'],
        "javascript"@ == seq!['j', 'a', 'v', 'a', 's', 'c', 'r', 'i', 'p', 't'],
        "js"@ == seq!['j', 's'],
        "typescript"@ == seq!['t', 'y', 'p', 'e', 's', 'c', 'r', 'i', 'p', 't'],
        "ts"@ == seq!['t', 's'],
        "tsx"@ == seq!['t', 's', 'x'],
        "typescriptreact"@ == seq!['t', 'y', 'p', 'e', 's', 'c', 'r', 'i', 'p', 't', 'r', 'e', 'a', 'c', 't'],
        "jsx"@ == seq!['j', 's', 'x'],
        "javascriptreact"@ == seq!['j', 'a', 'v', 'a', 's', 'c', 'r', 'i', 'p', 't', 'r', 'e', 'a', 'c', 't'],
        "bash"@ == seq!['b', 'a', 's', 'h'],
        "sh"@ == seq!['s', 'h'],
        "shell"@ == seq!['s', 'h', 'e', 'l', 'l'],
        "ruby"@ == seq!['r', 'u', 'b', 'y'],
        "rb"@ == seq!['r', 'b'],
        "comment"@ == seq!['c', 'o', 'm', 'm', 'e', 'n', 't'],
{
    reveal_strlit("c");
    assert("c"@ =~= seq!['c']);
    reveal_strlit("printf");
    assert("printf"@ =~= seq!['p', 'r', 'i', 'n', 't', 'f']);
    reveal_strlit("python");
    assert("python"@ =~= seq!['p', 'y', 't', 'h', 'o', 'n']);
    reveal_strlit("py");
    assert("py"@ =~= seq!['p', 'y']);
    reveal_strlit("nix");
    assert("nix"@ =~= seq!['n', 'i', 'x']);
    reveal_strlit("javascript");
    assert("javascript"@ =~= seq!['j', 'a', 'v', 'a', 's', 'c', 'r', 'i', 'p', 't']);
    reveal_strlit("js");
    assert("js"@ =~= seq!['j', 's']);
    reveal_strlit("typescript");
    assert("typescript"@ =~= seq!['t', 'y', 'p', 'e', 's', 'c', 'r', 'i', 'p', 't']);
    reveal_strlit("ts");
    assert("ts"@ =~= seq!['t', 's']);
    reveal_strlit("tsx");
    assert("tsx"@ =~= seq!['t', 's', 'x']);
    reveal_strlit("typescriptreact");
    assert("typescriptreact"@ =~= seq!['t', 'y', 'p', 'e', 's', 'c', 'r', 'i', 'p', 't', 'r', 'e', 'a', 'c', 't']);
    reveal_strlit("jsx");
    assert("jsx"@ =~= seq!['j', 's', 'x']);
    reveal_strlit("javascriptreact");
    assert("javascriptreact"@ =~= seq!['j', 'a', 'v', 'a', 's', 'c', 'r', 'i', 'p', 't', 'r', 'e', 'a', 'c', 't']);
    reveal_strlit("bash");
    assert("bash"@ =~= seq!['b', 'a', 's', 'h']);
    reveal_strlit("sh");
    assert("sh"@ =~= seq!['s', 'h']);
    reveal_strlit("shell");
    assert("shell"@ =~= seq!['s', 'h', 'e', 'l', 'l']);
    reveal_strlit("ruby");
    assert("ruby"@ =~= seq!['r', 'u', 'b', 'y']);
    reveal_strlit("rb");
    assert("rb"@ =~= seq!['r', 'b']);
    reveal_strlit("comment");
    assert("comment"@ =~= seq!['c', 'o', 'm', 'm', 'e', 'n', 't']);
}

/// The place in the catalog of the language that `key` can belong to.
spec fn catalog_owner(key: Seq<char>) -> int {
    if key.len() == 1 {
        0
    } else if key[0] == 'c' {
        10
    } else if key[0] == 'p' && key[1] == 'r' {
        1
    } else if key[0] == 'p' {
        2
    } else if key[0] == 'n' {
        3
    } else if key[0] == 'r' {
        9
    } else if key[0] == 'b' || key[0] == 's' {
        8
    } else if key[0] == 'j' && (key.len() == 3 || key.len() == 15) {
        7
    } else if key[0] == 'j' {
        4
    } else if key.len() == 3 || key.len() == 15 {
        6
    } else {
        5
    }
}

/// Whether `c` is a small ASCII letter.
pub open spec fn small_letter(c: char) -> bool {
    'a' <= c && c <= 'z'
}

/// A text of small ASCII letters is its own lowercase form.
pub proof fn lemma_small_letters_lowercase(s: Seq<char>)
    requires
        forall|i: int| 0 <= i < s.len() ==> small_letter(#[trigger] s[i]),
    ensures
        lowercased(s) == s,
{
    assert(is_ascii_chars(s));
    assert(lowercased(s) =~= s);
}

/// A text of at most fifteen characters, each a small letter, is its own
/// lowercase form.
proof fn lemma_short_small_text(s: Seq<char>)
    requires
        s.len() <= 15,
        0 < s.len() ==> small_letter(s[0]),
        1 < s.len() ==> small_letter(s[1]),
        2 < s.len() ==> small_letter(s[2]),
        3 < s.len() ==> small_letter(s[3]),
        4 < s.len() ==> small_letter(s[4]),
        5 < s.len() ==> small_letter(s[5]),
        6 < s.len() ==> small_letter(s[6]),
        7 < s.len() ==> small_letter(s[7]),
        8 < s.len() ==> small_letter(s[8]),
        9 < s.len() ==> small_letter(s[9]),
        10 < s.len() ==> small_letter(s[10]),
        11 < s.len() ==> small_letter(s[11]),
        12 < s.len() ==> small_letter(s[12]),
        13 < s.len() ==> small_letter(s[13]),
        14 < s.len() ==> small_letter(s[14]),
    ensures
        lowercased(s) == s,
{
    assert forall|i: int| 0 <= i < s.len() implies small_letter(#[trigger] s[i]) by {
        if i == 0 {
            assert(small_letter(s[0]));
        } else if i == 1 {
            assert(small_letter(s[1]));
        } else if i == 2 {
            assert(small_letter(s[2]));
        } else if i == 3 {
            assert(small_letter(s[3]));
        } else if i == 4 {
            assert(small_letter(s[4]));
        } else if i == 5 {
            assert(small_letter(s[5]));
        } else if i == 6 {
            assert(small_letter(s[6]));
        } else if i == 7 {
            assert(small_letter(s[7]));
        } else if i == 8 {
            assert(small_letter(s[8]));
        } else if i == 9 {
            assert(small_letter(s[9]));
        } else if i == 10 {
            assert(small_letter(s[10]));
        } else if i == 11 {
            assert(small_letter(s[11]));
        } else if i == 12 {
            assert(small_letter(s[12]));
        } else if i == 13 {
            assert(small_letter(s[13]));
        } else if i == 14 {
            assert(small_letter(s[14]));
        }
    }
    lemma_small_letters_lowercase(s);
}

/// Every name and alias of the catalog is its own lowercase form.
pub proof fn lemma_catalog_keys_lowercase(i: int, key: Seq<char>)
    requires
        0 <= i < catalog().len(),
        is_key(catalog()[i], key),
    ensures
        lowercased(key) == key,
{
    lemma_catalog_spellings();
    let entry = catalog()[i];
    if key != entry.name {
        let k = choose|k: int| 0 <= k < entry.aliases.len() && entry.aliases[k] == key;
        assert(entry.aliases[k] == key);
    }
    lemma_short_small_text(key);
}

/// Identifiers with the same lowercase form resolve alike.
pub proof fn lemma_resolve_case_insensitive(
    ctx: &HighlighterContext,
    first: Seq<char>,
    second: Seq<char>,
)
    requires
        lowercased(first) == lowercased(second),
    ensures
        ctx.resolve(first) == ctx.resolve(second),
{
}

/// In a registry built from the catalog, every alias of a language resolves
/// as the name of that language.
pub proof fn lemma_alias_resolves_as_name(ctx: &HighlighterContext, i: int, j: int)
    requires
        ctx.aliases() == alias_table(catalog()),
        0 <= i < catalog().len(),
        0 <= j < catalog()[i].aliases.len(),
    ensures
        ctx.resolve(catalog()[i].aliases[j]) == ctx.resolve(catalog()[i].name),
{
    let name = catalog()[i].name;
    let alias = catalog()[i].aliases[j];
    assert(is_key(catalog()[i], alias));
    lemma_catalog_one_owner();
    lemma_catalog_keys_lowercase(i, alias);
    lemma_catalog_keys_lowercase(i, name);
    lemma_alias_table_owner(catalog(), i, alias);
    lemma_alias_table_owner(catalog(), i, name);
}

/// In a registry built from the catalog, a language resolves under its name
/// exactly where its queries compile, and then to its own configuration,
/// bound to the scope names.
pub proof fn lemma_language_resolves(ctx: &HighlighterContext, i: int)
    requires
        ctx.is_registry_of(catalog(), scope_names()),
        0 <= i < catalog().len(),
    ensures
        ctx.resolve(catalog()[i].name) is Some <==> fault_of(catalog()[i]) is None,
        ctx.resolve(catalog()[i].name) is Some ==> ctx.resolve(catalog()[i].name) == Some(
            config_of(catalog()[i], scope_names()),
        ) && bound_names(config_of(catalog()[i], scope_names())) == scope_names(),
{
    let name = catalog()[i].name;
    lemma_catalog_one_owner();
    lemma_catalog_keys_lowercase(i, name);
    lemma_alias_table_owner(catalog(), i, name);
    lemma_config_table(catalog(), scope_names(), name);
    if held(catalog(), name) {
        let j = last_held(catalog(), name);
        assert(is_key(catalog()[j], name));
        assert(is_key(catalog()[i], name));
    }
}

/// Two registries of the same languages and scope names resolve and
/// highlight alike.
pub proof fn lemma_registries_alike(
    first: &HighlighterContext,
    second: &HighlighterContext,
    entries: Seq<Entry>,
    names: Seq<Seq<char>>,
    code: Seq<char>,
    lang: Seq<char>,
)
    requires
        first.is_registry_of(entries, names),
        second.is_registry_of(entries, names),
    ensures
        first.resolve(lang) == second.resolve(lang),
        first.highlighting(code, lang) == second.highlighting(code, lang),
{
}

/// What the table of configurations holds: a name is a key exactly where a
/// language of that name has queries that compile, and what stands under it
/// is the configuration of the last such language.
pub proof fn lemma_config_table(entries: Seq<Entry>, names: Seq<Seq<char>>, name: Seq<char>)
    ensures
        config_table(entries, names).contains_key(name) <==> held(entries, name),
        held(entries, name) ==> {
            let j = last_held(entries, name);
            &&& 0 <= j < entries.len()
            &&& entries[j].name == name
            &&& fault_of(entries[j]) is None
            &&& config_table(entries, names)[name] == config_of(entries[j], names)
        },
    decreases entries.len(),
{
    if entries.len() > 0 {
        let rest = entries.drop_last();
        let last = entries.last();
        lemma_config_table(rest, names, name);
        assert(entries[entries.len() - 1] == last);
        if held(rest, name) {
            let i = choose|i: int|
                0 <= i < rest.len() && (#[trigger] rest[i]).name == name && fault_of(rest[i])
                    is None;
            assert(entries[i] == rest[i]);
            let j = last_held(rest, name);
            assert(entries[j] == rest[j]);
        }
        if held(entries, name) && !(last.name == name && fault_of(last) is None) {
            let i = choose|i: int|
                0 <= i < entries.len() && (#[trigger] entries[i]).name == name && fault_of(
                    entries[i],
                ) is None;
            assert(rest[i] == entries[i]);
        }
    }
}

/// An alias and the name it stands for.
struct AliasEntry {
    alias: String,
    name: String,
}

/// A language that was compiled, under its name.
struct Loaded {
    name: String,
    config: HighlightConfiguration,
}

/// The registry: the compiled languages by name, the table from names and
/// aliases to names, and a warning for each language that did not compile.
pub struct HighlighterContext {
    configs: Vec<Loaded>,
    alias_map: Vec<AliasEntry>,
    warnings: Vec<String>,
}

spec fn alias_pairs(entries: Seq<AliasEntry>) -> Seq<(Seq<char>, Seq<char>)> {
    Seq::new(entries.len(), |i: int| (entries[i].alias@, entries[i].name@))
}

spec fn config_pairs(entries: Seq<Loaded>) -> Seq<(Seq<char>, HighlightConfiguration)> {
    Seq::new(entries.len(), |i: int| (entries[i].name@, entries[i].config))
}

/// Turns what the highlighter handed back into the result of the call: the
/// markup of the events over `code`, or a message where the highlighter
/// failed or its events cannot be rendered.
pub fn conclude(code: &str, outcome: Result<Vec<Event>, String>) -> (r: Result<String, String>)
    ensures
        text_result(r) == outcome_markup(code@, outcome_view(outcome)),
{
    match outcome {
        Err(detail) => {
            let mut message = String::from_str("Highlight error: ");
            message.append(detail.as_str());
            Err(message)
        },
        Ok(events) => match render(code, events.as_slice()) {
            Ok(markup) => Ok(markup),
            Err(e) => {
                let mut message = String::from_str("Highlight error: ");
                message.append(e.describe());
                Err(message)
            },
        },
    }
}

impl HighlighterContext {
    /// The table from names and aliases to names.
    pub closed spec fn aliases(&self) -> Map<Seq<char>, Seq<char>> {
        table_of(alias_pairs(self.alias_map@))
    }

    /// The compiled languages by name.
    pub closed spec fn configs(&self) -> Map<Seq<char>, HighlightConfiguration> {
        table_of(config_pairs(self.configs@))
    }

    /// The warnings, one for each language that did not compile.
    pub closed spec fn warning_texts(&self) -> Seq<Seq<char>> {
        Seq::new(self.warnings@.len(), |i: int| self.warnings@[i]@)
    }

    /// The language that `lang` stands for: the one under the name that the
    /// lowercased identifier is bound to, if there is one.
    pub open spec fn resolve(&self, lang: Seq<char>) -> Option<HighlightConfiguration> {
        let key = lowercased(lang);
        if self.aliases().contains_key(key) && self.configs().contains_key(self.aliases()[key]) {
            Some(self.configs()[self.aliases()[key]])
        } else {
            None
        }
    }

    /// What the highlighter yields for `code` as `lang`, where `lang`
    /// resolves: its outcome on the code without its trailing whitespace.
    pub open spec fn outcome(&self, code: Seq<char>, lang: Seq<char>) -> Result<
        Seq<Event>,
        Seq<char>,
    > {
        highlighted(
            self.resolve(lang)->Some_0,
            trimmed_end(code),
            self.configs(),
            self.aliases(),
            INJECTION_LIMIT as nat,
        )
    }

    /// The result of highlighting `code` as `lang`: a message where the
    /// registry has no such language, else what becomes of the highlighter's
    /// outcome on the code without its trailing whitespace.
    pub open spec fn highlighting(&self, code: Seq<char>, lang: Seq<char>) -> Result<
        Seq<char>,
        Seq<char>,
    > {
        if self.resolve(lang) is None {
            Err(unsupported_message(lang))
        } else {
            outcome_markup(trimmed_end(code), self.outcome(code, lang))
        }
    }

    /// Whether this is the registry of the languages `entries`, compiled for
    /// the scope names `names`: every name and alias is bound; each language
    /// whose queries compile is held under its name as its own configuration,
    /// bound to `names`; and the warnings are those of the languages that are
    /// left out.
    pub open spec fn is_registry_of(&self, entries: Seq<Entry>, names: Seq<Seq<char>>) -> bool {
        &&& self.aliases() == alias_table(entries)
        &&& self.configs() == config_table(entries, names)
        &&& forall|name: Seq<char>| #[trigger]
            self.configs().contains_key(name) ==> bound_names(self.configs()[name]) == names
        &&& self.warning_texts() == load_warnings(entries)
    }

    /// What an injected language named `name` resolves to when `granted`
    /// injected languages were resolved before it in the same highlighting.
    pub open spec fn injection(&self, granted: nat, name: Seq<char>) -> Option<
        HighlightConfiguration,
    > {
        if granted < INJECTION_LIMIT {
            self.resolve(name)
        } else {
            None
        }
    }

    /// Binds `alias` to `name`.
    fn add_alias(&mut self, alias: String, name: String)
        ensures
            final(self).aliases() == old(self).aliases().insert(alias@, name@),
            final(self).configs() == old(self).configs(),
            final(self).warning_texts() == old(self).warning_texts(),
    {
        let ghost before = alias_pairs(self.alias_map@);
        self.alias_map.push(AliasEntry { alias, name });
        assert(alias_pairs(self.alias_map@).drop_last() =~= before);
    }

    /// Holds `config` under `name`.
    fn add_config(&mut self, name: String, config: HighlightConfiguration)
        ensures
            final(self).configs() == old(self).configs().insert(name@, config),
            final(self).aliases() == old(self).aliases(),
            final(self).warning_texts() == old(self).warning_texts(),
    {
        let ghost before = config_pairs(self.configs@);
        self.configs.push(Loaded { name, config });
        assert(config_pairs(self.configs@).drop_last() =~= before);
    }

    /// Records that the language `name` could not be loaded, and why.
    fn add_warning(&mut self, name: &str, reason: &str)
        ensures
            final(self).warning_texts() == old(self).warning_texts().push(
                load_warning(name@, reason@),
            ),
            final(self).aliases() == old(self).aliases(),
            final(self).configs() == old(self).configs(),
    {
        let mut message = String::from_str("Warning: Failed to load language ");
        message.append(name);
        message.append(": ");
        message.append(reason);
        self.warnings.push(message);
        assert(self.warning_texts() =~= old(self).warning_texts().push(
            load_warning(name@, reason@),
        ));
    }

    /// The name that `key` is bound to.
    fn canonical(&self, key: &String) -> (r: Option<&String>)
        ensures
            match r {
                Some(name) => self.aliases().contains_key(key@) && self.aliases()[key@] == name@,
                None => !self.aliases().contains_key(key@),
            },
    {
        let mut i = self.alias_map.len();
        while i > 0
            invariant
                i <= self.alias_map@.len(),
                forall|j: int| i <= j < self.alias_map@.len() ==> self.alias_map@[j].alias@ != key@,
            decreases i,
        {
            i -= 1;
            if self.alias_map[i].alias == *key {
                proof {
                    lemma_table_scan(alias_pairs(self.alias_map@), key@, i as int);
                }
                return Some(&self.alias_map[i].name);
            }
        }
        proof {
            lemma_table_scan(alias_pairs(self.alias_map@), key@, -1);
        }
        None
    }

    /// The compiled language under `name`.
    fn config_named(&self, name: &String) -> (r: Option<&HighlightConfiguration>)
        ensures
            match r {
                Some(config) => self.configs().contains_key(name@) && self.configs()[name@]
                    == *config,
                None => !self.configs().contains_key(name@),
            },
    {
        let mut i = self.configs.len();
        while i > 0
            invariant
                i <= self.configs@.len(),
                forall|j: int| i <= j < self.configs@.len() ==> self.configs@[j].name@ != name@,
            decreases i,
        {
            i -= 1;
            if self.configs[i].name == *name {
                proof {
                    lemma_table_scan(config_pairs(self.configs@), name@, i as int);
                }
                return Some(&self.configs[i].config);
            }
        }
        proof {
            lemma_table_scan(config_pairs(self.configs@), name@, -1);
        }
        None
    }

    /// Builds the registry of `langs`, compiled for `capture_names`. Every
    /// name and alias is bound, whether or not its language compiles. A
    /// language whose queries compile is held under its name; one whose
    /// queries do not is left out, with a warning.
    pub fn build(langs: Vec<LangConfig>, capture_names: &[&str]) -> (ctx: Self)
        ensures
            ctx.is_registry_of(entries_of(langs@), name_views(capture_names@)),
    {
        let ghost entries = entries_of(langs@);
        let ghost names = name_views(capture_names@);
        let mut langs = langs;
        let mut ctx = HighlighterContext {
            configs: Vec::new(),
            alias_map: Vec::new(),
            warnings: Vec::new(),
        };
        let ghost mut done: int = 0;
        proof {
            assert(entries.take(0) =~= Seq::<Entry>::empty());
            assert(ctx.warning_texts() =~= Seq::<Seq<char>>::empty());
        }
        while langs.len() > 0
            invariant
                0 <= done,
                done + langs@.len() == entries.len(),
                forall|k: int|
                    0 <= k < langs@.len() ==> (#[trigger] langs@[k]).entry() == entries[done + k],
                names == name_views(capture_names@),
                ctx.is_registry_of(entries.take(done), names),
            decreases langs@.len(),
        {
            let ghost rest = langs@;
            let lang = langs.remove(0);
            let ghost entry = entries[done];
            assert(lang == rest[0]);
            assert(lang.entry() == entry);
            assert forall|k: int| 0 <= k < langs@.len() implies (#[trigger] langs@[k]).entry()
                == entries[done + 1 + k] by {
                assert(langs@[k] == rest[k + 1]);
            }
            let ghost table = ctx.aliases();
            let ghost loaded = ctx.configs();
            let ghost warnings = ctx.warning_texts();
            let primary = String::from_str(lang.name);
            ctx.add_alias(primary.clone(), primary.clone());
            let mut a: usize = 0;
            assert(entry.aliases.take(0) =~= Seq::<Seq<char>>::empty());
            while a < lang.aliases.len()
                invariant
                    a <= lang.aliases@.len(),
                    lang.entry() == entry,
                    primary@ == entry.name,
                    ctx.aliases() == with_aliases(table, entry.name, entry.aliases.take(a as int)),
                    ctx.configs() == loaded,
                    ctx.warning_texts() == warnings,
                decreases lang.aliases@.len() - a,
            {
                ctx.add_alias(String::from_str(lang.aliases[a]), primary.clone());
                proof {
                    let more = entry.aliases.take(a + 1);
                    assert(more.drop_last() =~= entry.aliases.take(a as int));
                    assert(more.last() == lang.aliases@[a as int]@);
                }
                a += 1;
            }
            proof {
                assert(entry.aliases.take(a as int) =~= entry.aliases);
                let upto = entries.take(done + 1);
                assert(upto.drop_last() =~= entries.take(done));
                assert(upto.last() == entry);
            }
            match lang.into_highlight_config(capture_names) {
                Ok(config) => {
                    ctx.add_config(primary, config);
                },
                Err(reason) => {
                    ctx.add_warning(primary.as_str(), reason.as_str());
                },
            }
            proof {
                done = done + 1;
            }
        }
        assert(entries.take(done) =~= entries);
        ctx
    }

    /// Builds the registry of the catalog, compiled for the scope names.
    pub fn new() -> (ctx: Self)
        ensures
            ctx.is_registry_of(catalog(), scope_names()),
    {
        let names = highlights();
        let langs = LangConfig::all();
        assert(entries_of(langs@) =~= catalog());
        Self::build(langs, names.as_slice())
    }

    /// The warnings of the languages that were left out.
    pub fn warnings(&self) -> (r: &Vec<String>)
        ensures
            r@.len() == self.warning_texts().len(),
            forall|i: int| 0 <= i < r@.len() ==> (#[trigger] r@[i])@ == self.warning_texts()[i],
    {
        &self.warnings
    }

    /// The compiled language that `lang` stands for, whatever its case.
    pub fn get_config(&self, lang: &str) -> (r: Option<&HighlightConfiguration>)
        ensures
            match r {
                Some(config) => self.resolve(lang@) == Some(*config),
                None => self.resolve(lang@) is None,
            },
    {
        let key = to_lowercase(lang);
        match self.canonical(&key) {
            Some(name) => self.config_named(name),
            None => None,
        }
    }

    /// Resolves the language `name` of an injected region, where `granted`
    /// counts the injected languages resolved so far in this highlighting: as
    /// `get_config` does while fewer than `INJECTION_LIMIT` were resolved, and
    /// to nothing from then on. A language that is resolved is counted.
    pub fn injected<'a>(&'a self, granted: &mut usize, name: &str) -> (r: Option<
        &'a HighlightConfiguration,
    >)
        ensures
            match r {
                Some(config) => self.injection(*old(granted) as nat, name@) == Some(*config),
                None => self.injection(*old(granted) as nat, name@) is None,
            },
            *final(granted) == if r is Some {
                *old(granted) + 1
            } else {
                *old(granted) as int
            },
    {
        if *granted >= INJECTION_LIMIT {
            return None;
        }
        let found = self.get_config(name);
        if found.is_some() {
            *granted = *granted + 1;
        }
        found
    }

    /// Calls `Highlighter::highlight` on a new `Highlighter`, with
    /// `injected` resolving the injected languages, and lists the events it
    /// yields, an event that failed as `Event::Failed`; where the call fails,
    /// takes the `Debug` text of its error. Trusted: the call returns, since
    /// only a region whose language is resolved adds work and `injected`
    /// resolves `INJECTION_LIMIT` of them at most; the outcome depends on the
    /// configuration, the code and what `injected` resolves alone; each
    /// source span starts where the last one ended, the first at 0, and the
    /// events do not end before the spans have reached the end of the code;
    /// the index of a scope is a position among the names that the
    /// configuration in use, this one or a resolved one, was bound to.
    #[verifier::external_body]
    fn run(&self, config: &HighlightConfiguration, code: &str) -> (r: Result<Vec<Event>, String>)
        ensures
            outcome_view(r) == highlighted(
                *config,
                code@,
                self.configs(),
                self.aliases(),
                INJECTION_LIMIT as nat,
            ),
            r is Ok ==> tiles(r->Ok_0@, 0, reach(r->Ok_0@)) && reach(r->Ok_0@) >= encode_utf8(
                code@,
            ).len(),
            r is Ok ==> scopes_bound(r->Ok_0@, *config, self.configs()),
    {
        let mut highlighter = Highlighter::new();
        let mut granted: usize = 0;
        let resolve = |name: &str| self.injected(&mut granted, name);
        let outcome = match highlighter.highlight(config, code.as_bytes(), None, None, resolve) {
            Err(error) => Err(format!("{error:?}")),
            Ok(events) => Ok(events.map(|event| match event {
                Ok(HighlightEvent::Source { start, end }) => Event::Source { start, end },
                Ok(HighlightEvent::HighlightStart(scope)) => Event::ScopeStart(scope.0),
                Ok(HighlightEvent::HighlightEnd) => Event::ScopeEnd,
                Err(_) => Event::Failed,
            }).collect()),
        };
        outcome
    }

    /// Highlights `code` as `lang`. Fails where the registry has no such
    /// language. Else the code, without its trailing whitespace, goes to the
    /// highlighter, and the result is what `conclude` makes of the outcome.
    /// Where there is markup, the source spans behind it are the code without
    /// its trailing whitespace: every character once, in order.
    pub fn highlight(&self, code: &str, lang: &str) -> (r: Result<String, String>)
        ensures
            text_result(r) == self.highlighting(code@, lang@),
            r is Ok ==> self.outcome(code@, lang@) is Ok && source_text(
                trimmed_end(code@),
                self.outcome(code@, lang@)->Ok_0,
            ) == trimmed_end(code@),
            self.resolve(lang@) is Some && self.outcome(code@, lang@) is Ok ==> scopes_bound(
                self.outcome(code@, lang@)->Ok_0,
                self.resolve(lang@)->Some_0,
                self.configs(),
            ),
            self.resolve(lang@) is Some && self.outcome(code@, lang@) is Ok ==> tiles(
                self.outcome(code@, lang@)->Ok_0,
                0,
                reach(self.outcome(code@, lang@)->Ok_0),
            ) && reach(self.outcome(code@, lang@)->Ok_0) >= encode_utf8(trimmed_end(code@)).len(),
    {
        let config = match self.get_config(lang) {
            Some(config) => config,
            None => {
                let mut message = String::from_str("Unsupported language: ");
                message.append(lang);
                return Err(message);
            },
        };
        let code = trim_end(code);
        let outcome = self.run(config, code);
        let ghost events = outcome_view(outcome);
        let r = conclude(code, outcome);
        proof {
            if r is Ok {
                lemma_rendered_spans_ok(code@, events->Ok_0);
                lemma_covering(code@, events->Ok_0);
            }
        }
        r
    }
}

/// In a registry whose languages are bound to the scope names, scopes that
/// are bound are scopes of the vocabulary, and rendering them fails only on a
/// source span, never on a scope.
pub proof fn lemma_scopes_in_vocabulary(
    ctx: &HighlighterContext,
    entries: Seq<Entry>,
    code: Seq<char>,
    lang: Seq<char>,
)
    requires
        ctx.is_registry_of(entries, scope_names()),
        ctx.resolve(lang) is Some,
        ctx.outcome(code, lang) is Ok,
        scopes_bound(ctx.outcome(code, lang)->Ok_0, ctx.resolve(lang)->Some_0, ctx.configs()),
    ensures
        scopes_below(ctx.outcome(code, lang)->Ok_0, scope_names().len()),
        rendered(trimmed_end(code), ctx.outcome(code, lang)->Ok_0) is Err ==> rendered(
            trimmed_end(code),
            ctx.outcome(code, lang)->Ok_0,
        )->Err_0 is InvalidSpan,
{
    let events = ctx.outcome(code, lang)->Ok_0;
    let key = lowercased(lang);
    assert(ctx.configs().contains_key(ctx.aliases()[key]));
    assert forall|k: int| 0 <= k < events.len() implies match #[trigger] events[k] {
        Event::ScopeStart(scope) => scope < scope_names().len(),
        _ => true,
    } by {
        match events[k] {
            Event::ScopeStart(scope) => {
                if !(scope < bound_names(ctx.resolve(lang)->Some_0).len()) {
                    let name = choose|name: Seq<char>|
                        ctx.configs().contains_key(name) && scope < bound_names(
                            #[trigger] ctx.configs()[name],
                        ).len();
                    assert(ctx.configs().contains_key(name));
                }
            },
            _ => {},
        }
    }
    lemma_scopes_known(trimmed_end(code), events);
}

/// Markup of a highlighting is made of tags that the renderer writes and of
/// escaped text; with the tags left out it is the escaped code without its
/// trailing whitespace, which is harmless.
pub proof fn lemma_highlighting_escaped(ctx: &HighlighterContext, code: Seq<char>, lang: Seq<char>)
    requires
        ctx.highlighting(code, lang) is Ok,
        tiles(ctx.outcome(code, lang)->Ok_0, 0, reach(ctx.outcome(code, lang)->Ok_0)),
        reach(ctx.outcome(code, lang)->Ok_0) >= encode_utf8(trimmed_end(code)).len(),
    ensures
        ({
            let events = ctx.outcome(code, lang)->Ok_0;
            let parts = pieces(trimmed_end(code), events, events.len());
            &&& ctx.highlighting(code, lang)->Ok_0 == whole(parts)
            &&& tags_known(parts)
            &&& untagged(parts) == escape(trimmed_end(code))
            &&& harmless(untagged(parts))
        }),
{
    let events = ctx.outcome(code, lang)->Ok_0;
    lemma_markup_escaped(trimmed_end(code), events);
    lemma_rendered_spans_ok(trimmed_end(code), events);
    lemma_covering(trimmed_end(code), events);
}

/// Code of whitespace alone gives no markup.
pub proof fn lemma_blank_code_no_markup(ctx: &HighlighterContext, code: Seq<char>, lang: Seq<char>)
    requires
        forall|i: int| 0 <= i < code.len() ==> white_space(#[trigger] code[i]),
    ensures
        ctx.highlighting(code, lang) is Ok ==> ctx.highlighting(code, lang)->Ok_0.len() == 0,
{
    lemma_trimmed_end_blank(code);
    if ctx.resolve(lang) is Some && ctx.outcome(code, lang) is Ok {
        lemma_empty_code_empty_markup(trimmed_end(code), ctx.outcome(code, lang)->Ok_0);
    }
}

/// Whitespace added at the end of the code changes nothing.
pub proof fn lemma_trailing_whitespace_ignored(
    ctx: &HighlighterContext,
    code: Seq<char>,
    more: Seq<char>,
    lang: Seq<char>,
)
    requires
        forall|i: int| 0 <= i < more.len() ==> white_space(#[trigger] more[i]),
    ensures
        ctx.highlighting(code + more, lang) == ctx.highlighting(code, lang),
{
    lemma_trimmed_end_appended(code, more);
}

impl Default for HighlighterContext {
    fn default() -> (ctx: Self)
        ensures
            ctx.is_registry_of(catalog(), scope_names()),
    {
        Self::new()
    }
}

} // verus!
