use rehype_tree_sitter::grammar::{Grammar, LangConfig};
use rehype_tree_sitter::highlight::{HighlighterContext, INJECTION_LIMIT};
use rehype_tree_sitter::vocabulary::highlights;

#[test]
fn catalog_lists_every_language_in_order() {
    let langs = LangConfig::all();
    let names: Vec<&str> = langs.iter().map(|l| l.name).collect();
    assert_eq!(
        names,
        vec![
            "c",
            "printf",
            "python",
            "nix",
            "javascript",
            "typescript",
            "tsx",
            "jsx",
            "bash",
            "ruby",
            "comment",
        ]
    );
    let aliases: Vec<Vec<&str>> = langs.iter().map(|l| l.aliases.clone()).collect();
    assert_eq!(
        aliases,
        vec![
            vec![],
            vec![],
            vec!["py"],
            vec![],
            vec!["js"],
            vec!["ts"],
            vec!["typescriptreact"],
            vec!["javascriptreact"],
            vec!["sh", "shell"],
            vec!["rb"],
            vec![],
        ]
    );
    let grammars: Vec<Grammar> = langs.iter().map(|l| l.language).collect();
    assert_eq!(
        grammars,
        vec![
            Grammar::C,
            Grammar::Printf,
            Grammar::Python,
            Grammar::Nix,
            Grammar::Javascript,
            Grammar::Typescript,
            Grammar::Tsx,
            Grammar::Javascript,
            Grammar::Bash,
            Grammar::Ruby,
            Grammar::Comment,
        ]
    );
}

#[test]
fn catalog_names_and_aliases_are_lowercase_and_distinct() {
    let mut keys: Vec<String> = Vec::new();
    for lang in LangConfig::all() {
        keys.push(lang.name.to_string());
        for alias in lang.aliases {
            keys.push(alias.to_string());
        }
    }
    for key in &keys {
        assert_eq!(*key, key.to_lowercase());
    }
    let mut sorted = keys.clone();
    sorted.sort();
    sorted.dedup();
    assert_eq!(sorted.len(), keys.len());
}

#[test]
fn catalog_queries_hold_no_spell_marker() {
    for lang in LangConfig::all() {
        assert!(!lang.highlights_query.contains("@spell"));
        assert!(!lang.highlights_query.is_empty());
    }
}

#[test]
fn without_spell_strips_every_marker() {
    let lang = LangConfig {
        name: "python",
        aliases: vec!["py"],
        language: Grammar::Python,
        highlights_query: "(comment) @comment @spell\n(string) @spell @string".to_string(),
        injections_query: "@spell".to_string(),
        locals_query: "@spell".to_string(),
    }
    .without_spell();
    assert_eq!(lang.highlights_query, "(comment) @comment \n(string)  @string");
    assert_eq!(lang.injections_query, "@spell");
    assert_eq!(lang.locals_query, "@spell");
    assert_eq!(lang.name, "python");
    assert_eq!(lang.aliases, vec!["py"]);
    assert_eq!(lang.language, Grammar::Python);
}

#[test]
fn every_language_of_the_catalog_compiles() {
    let names = highlights();
    for lang in LangConfig::all() {
        let name = lang.name;
        let made = lang.into_highlight_config(&names);
        assert!(made.is_ok(), "{}: {:?}", name, made.err());
    }
    assert!(HighlighterContext::new().warnings().is_empty());
}

#[test]
fn a_query_that_does_not_compile_is_reported() {
    let lang = LangConfig {
        name: "python",
        aliases: vec![],
        language: Grammar::Python,
        highlights_query: "(no_such_node_kind) @keyword".to_string(),
        injections_query: String::new(),
        locals_query: String::new(),
    };
    let names = highlights();
    match lang.into_highlight_config(&names) {
        Ok(_) => panic!("the query must not compile"),
        Err(message) => {
            assert!(message.starts_with("Query error for python: "), "{}", message);
            assert!(message.contains("NodeType"), "{}", message);
        }
    }
}

#[test]
fn unsupported_language_is_an_error() {
    let ctx = HighlighterContext::new();
    assert_eq!(
        ctx.highlight("x=1", "not-a-real-language"),
        Err("Unsupported language: not-a-real-language".to_string())
    );
    assert!(ctx.get_config("not-a-real-language").is_none());
    assert!(ctx.get_config("").is_none());
}

#[test]
fn empty_input_gives_empty_markup() {
    let ctx = HighlighterContext::new();
    assert_eq!(ctx.highlight("", "python"), Ok(String::new()));
    assert_eq!(ctx.highlight("  \n\t\n", "python"), Ok(String::new()));
}

#[test]
fn python_assignment_is_highlighted() {
    let ctx = HighlighterContext::new();
    assert_eq!(
        ctx.highlight("x = 1", "python"),
        Ok("<span class=\"ts-variable\">x</span> <span class=\"ts-operator\">=</span> <span class=\"ts-number\">1</span>".to_string())
    );
}

#[test]
fn aliases_resolve_as_the_name_whatever_the_case() {
    let ctx = HighlighterContext::new();
    let by_name = ctx.highlight("def f(): return 1", "python");
    assert!(by_name.is_ok());
    assert_eq!(ctx.highlight("def f(): return 1", "py"), by_name);
    assert_eq!(ctx.highlight("def f(): return 1", "PY"), by_name);
    assert_eq!(ctx.highlight("def f(): return 1", "Python"), by_name);
    assert_eq!(ctx.highlight("def f(): return 1", "PYTHON"), by_name);
}

#[test]
fn every_alias_resolves_as_its_language() {
    let ctx = HighlighterContext::new();
    for lang in LangConfig::all() {
        let by_name = ctx.highlight("a b", lang.name);
        assert!(by_name.is_ok(), "{}", lang.name);
        assert!(ctx.get_config(lang.name).is_some());
        assert!(ctx.get_config(&lang.name.to_uppercase()).is_some());
        for alias in lang.aliases {
            assert!(ctx.get_config(alias).is_some(), "{}", alias);
            assert_eq!(ctx.highlight("a b", alias), by_name, "{}", alias);
            assert_eq!(ctx.highlight("a b", &alias.to_uppercase()), by_name, "{}", alias);
        }
    }
}

#[test]
fn trailing_whitespace_is_trimmed_and_leading_kept() {
    let ctx = HighlighterContext::new();
    let plain = ctx.highlight("x = 1", "python").unwrap();
    assert_eq!(ctx.highlight("x = 1\n\n  \t", "python"), Ok(plain.clone()));
    let led = ctx.highlight("\n  x = 1\n", "python").unwrap();
    assert!(led.starts_with("\n  "), "{:?}", led);
    assert!(led.ends_with("</span>"), "{:?}", led);
}

fn strip_tags(markup: &str) -> String {
    let mut out = String::new();
    let mut inside = false;
    for c in markup.chars() {
        match c {
            '<' => inside = true,
            '>' => inside = false,
            _ if !inside => out.push(c),
            _ => {}
        }
    }
    out.replace("&lt;", "<")
        .replace("&gt;", ">")
        .replace("&quot;", "\"")
        .replace("&#39;", "'")
        .replace("&amp;", "&")
}

#[test]
fn markup_covers_the_trimmed_code() {
    let ctx = HighlighterContext::new();
    let code = "def f(a, b):\n    # note <b>\n    return a & b or \"é'\"\n\n";
    let markup = ctx.highlight(code, "python").unwrap();
    assert_eq!(strip_tags(&markup), code.trim_end());
    let code = "const a = `x${1 < 2}` && /re+/;  \n";
    for lang in ["javascript", "typescript", "tsx", "jsx"] {
        let markup = ctx.highlight(code, lang).unwrap();
        assert_eq!(strip_tags(&markup), code.trim_end(), "{}", lang);
    }
}

#[test]
fn source_text_is_escaped_in_markup() {
    let ctx = HighlighterContext::new();
    let markup = ctx
        .highlight("x = \"<script>&\\\"'</script>\"", "python")
        .unwrap();
    let mut inside = false;
    for c in markup.chars() {
        match c {
            '<' => {
                assert!(!inside);
                inside = true;
            }
            '>' => {
                assert!(inside);
                inside = false;
            }
            '"' | '\'' => assert!(inside),
            _ => {}
        }
    }
    assert!(markup.contains("&lt;script&gt;&amp;"), "{}", markup);
    assert!(markup.contains("&#39;&lt;/script&gt;"), "{}", markup);
    assert!(!markup.contains("<script>"));
}

#[test]
fn scope_class_has_dashes() {
    let ctx = HighlighterContext::new();
    let markup = ctx.highlight("print(1)", "python").unwrap();
    assert_eq!(
        markup,
        "<span class=\"ts-function-builtin\">print</span>(<span class=\"ts-number\">1</span>)"
    );
}

#[test]
fn injected_language_is_highlighted_inside_its_span() {
    let ctx = HighlighterContext::new();
    let markup = ctx.highlight("js`const a = 1`", "javascript").unwrap();
    assert_eq!(strip_tags(&markup), "js`const a = 1`");
    assert!(markup.contains("<span class=\"ts-keyword\">const</span>"), "{}", markup);
    assert!(markup.contains("<span class=\"ts-number\">1</span>"), "{}", markup);
}

#[test]
fn unknown_injected_language_is_left_plain() {
    let ctx = HighlighterContext::new();
    let markup = ctx.highlight("nolang`const a = 1`", "javascript").unwrap();
    assert_eq!(strip_tags(&markup), "nolang`const a = 1`");
    assert!(!markup.contains("ts-keyword"), "{}", markup);
    assert!(!markup.contains("ts-number"), "{}", markup);
}

#[test]
fn default_registry_is_the_new_one() {
    let ctx = HighlighterContext::default();
    assert!(ctx.get_config("python").is_some());
    assert_eq!(
        ctx.highlight("1", "py"),
        HighlighterContext::new().highlight("1", "python")
    );
}

#[test]
fn bind_names_the_language_in_its_message() {
    let names = highlights();
    match LangConfig::bind("python", Err("boom".to_string()), &names) {
        Ok(_) => panic!("no configuration was made"),
        Err(message) => assert_eq!(message, "Query error for python: boom"),
    }
}

#[test]
fn bind_keeps_a_configuration_that_was_made() {
    let names = highlights();
    let made = LangConfig::all()
        .into_iter()
        .find(|l| l.name == "python")
        .unwrap()
        .into_highlight_config(&names);
    assert!(made.is_ok());
    assert!(LangConfig::bind("python", made, &names).is_ok());
}

#[test]
fn grammar_gives_a_parser() {
    assert!(Grammar::Python.language().node_kind_count() > 0);
    assert!(Grammar::Tsx.language().node_kind_count() > 0);
}

#[test]
fn grammar_gives_the_same_parser_at_every_call() {
    let grammars = [
        Grammar::C,
        Grammar::Printf,
        Grammar::Comment,
        Grammar::Python,
        Grammar::Nix,
        Grammar::Javascript,
        Grammar::Typescript,
        Grammar::Tsx,
        Grammar::Bash,
        Grammar::Ruby,
    ];
    for (i, first) in grammars.iter().enumerate() {
        assert_eq!(first.language(), first.language());
        for second in &grammars[i + 1..] {
            assert_ne!(first.language(), second.language());
        }
    }
}

fn broken(name: &'static str, language: Grammar, highlights: &str) -> LangConfig {
    LangConfig {
        name,
        aliases: vec![],
        language,
        highlights_query: highlights.to_string(),
        injections_query: String::new(),
        locals_query: String::new(),
    }
}

#[test]
fn a_query_fails_alike_at_every_call() {
    let names = highlights();
    let first = broken("python", Grammar::Python, "(identifier) @variable\n(oops")
        .into_highlight_config(&names)
        .err()
        .unwrap();
    let second = broken("python", Grammar::Python, "(identifier) @variable\n(oops")
        .into_highlight_config(&names)
        .err()
        .unwrap();
    assert_eq!(first, second);
    assert!(first.starts_with("Query error for python: QueryError {"), "{}", first);
    let renamed = broken("py3", Grammar::Python, "(identifier) @variable\n(oops")
        .into_highlight_config(&names)
        .err()
        .unwrap();
    assert_eq!(
        renamed.strip_prefix("Query error for py3: "),
        first.strip_prefix("Query error for python: ")
    );
}

#[test]
fn whether_a_query_compiles_depends_on_the_grammar() {
    let names = highlights();
    let query = "(lambda) @keyword";
    assert!(broken("python", Grammar::Python, query)
        .into_highlight_config(&names)
        .is_ok());
    assert!(broken("c", Grammar::C, query)
        .into_highlight_config(&names)
        .is_err());
}

fn lang(name: &str) -> LangConfig {
    LangConfig::all().into_iter().find(|l| l.name == name).unwrap()
}

#[test]
fn catalog_highlights_are_the_provided_texts_without_the_marker() {
    let js = tree_sitter_javascript::HIGHLIGHT_QUERY;
    let jsx = tree_sitter_javascript::JSX_HIGHLIGHT_QUERY;
    let ts = tree_sitter_typescript::HIGHLIGHTS_QUERY;
    let strip = |text: &str| text.replace("@spell", "");
    assert_eq!(lang("c").highlights_query, strip(tree_sitter_c::HIGHLIGHT_QUERY));
    assert_eq!(lang("printf").highlights_query, strip(tree_sitter_printf::HIGHLIGHTS_QUERY));
    assert_eq!(lang("python").highlights_query, strip(tree_sitter_python::HIGHLIGHTS_QUERY));
    assert_eq!(lang("nix").highlights_query, strip(tree_sitter_nix::HIGHLIGHTS_QUERY));
    assert_eq!(lang("javascript").highlights_query, strip(js));
    assert_eq!(lang("typescript").highlights_query, strip(&format!("{}\n{}", ts, js)));
    assert_eq!(lang("tsx").highlights_query, strip(&format!("{}\n{}\n{}", ts, js, jsx)));
    assert_eq!(lang("jsx").highlights_query, strip(&format!("{}\n{}\n", js, jsx)));
    assert_eq!(lang("bash").highlights_query, strip(tree_sitter_bash::HIGHLIGHT_QUERY));
    assert_eq!(lang("ruby").highlights_query, strip(tree_sitter_ruby::HIGHLIGHTS_QUERY));
    assert_eq!(
        lang("comment").highlights_query,
        "(tag (name) @label)\n(tag (user) @constant)\n(uri) @string.special\n"
    );
}

#[test]
fn catalog_injections_and_locals_are_the_provided_texts() {
    let injections = tree_sitter_javascript::INJECTIONS_QUERY;
    let locals = tree_sitter_javascript::LOCALS_QUERY;
    let ts_locals = format!("{}\n{}", tree_sitter_typescript::LOCALS_QUERY, locals);
    for name in ["c", "printf", "python", "bash", "ruby", "comment"] {
        assert_eq!(lang(name).injections_query, "", "{}", name);
    }
    for name in ["c", "printf", "python", "nix", "bash", "comment"] {
        assert_eq!(lang(name).locals_query, "", "{}", name);
    }
    assert_eq!(lang("nix").injections_query, tree_sitter_nix::INJECTIONS_QUERY);
    assert_eq!(lang("ruby").locals_query, tree_sitter_ruby::LOCALS_QUERY);
    for name in ["javascript", "typescript", "tsx", "jsx"] {
        assert_eq!(lang(name).injections_query, injections, "{}", name);
    }
    assert_eq!(lang("javascript").locals_query, locals);
    assert_eq!(lang("jsx").locals_query, locals);
    assert_eq!(lang("typescript").locals_query, ts_locals);
    assert_eq!(lang("tsx").locals_query, ts_locals);
}

#[test]
fn two_catalogs_are_equal() {
    let first = LangConfig::all();
    let second = LangConfig::all();
    assert_eq!(first.len(), second.len());
    for (a, b) in first.iter().zip(second.iter()) {
        assert_eq!(a.name, b.name);
        assert_eq!(a.aliases, b.aliases);
        assert_eq!(a.language, b.language);
        assert_eq!(a.highlights_query, b.highlights_query);
        assert_eq!(a.injections_query, b.injections_query);
        assert_eq!(a.locals_query, b.locals_query);
    }
}

#[test]
fn printf_and_comment_are_highlighted() {
    let ctx = HighlighterContext::new();
    assert_eq!(
        ctx.highlight("%5d", "printf"),
        Ok("<span class=\"ts-embedded\">%</span><span class=\"ts-number\">5</span><span class=\"ts-embedded\">d</span>".to_string())
    );
    let note = ctx.highlight("TODO(ada): see https://example.org", "comment").unwrap();
    assert!(note.contains("<span class=\"ts-label\">TODO</span>"), "{}", note);
    assert!(note.contains("<span class=\"ts-constant\">ada</span>"), "{}", note);
    assert!(note.contains("<span class=\"ts-string-special\">https://example.org</span>"), "{}", note);
}

#[test]
fn build_holds_what_compiles_and_warns_of_the_rest() {
    let names = highlights();
    let langs = vec![
        broken("first", Grammar::Python, "(oops"),
        LangConfig {
            name: "second",
            aliases: vec!["two"],
            language: Grammar::Python,
            highlights_query: "(integer) @number".to_string(),
            injections_query: String::new(),
            locals_query: String::new(),
        },
        LangConfig {
            name: "third",
            aliases: vec!["three"],
            language: Grammar::C,
            highlights_query: "(lambda) @keyword".to_string(),
            injections_query: String::new(),
            locals_query: String::new(),
        },
    ];
    let first = broken("first", Grammar::Python, "(oops")
        .into_highlight_config(&names)
        .err()
        .unwrap();
    let third = broken("third", Grammar::C, "(lambda) @keyword")
        .into_highlight_config(&names)
        .err()
        .unwrap();
    let ctx = HighlighterContext::build(langs, &names);
    assert_eq!(
        *ctx.warnings(),
        vec![
            format!("Warning: Failed to load language first: {}", first),
            format!("Warning: Failed to load language third: {}", third),
        ]
    );
    assert!(ctx.get_config("first").is_none());
    assert!(ctx.get_config("second").is_some());
    assert!(ctx.get_config("TWO").is_some());
    assert!(ctx.get_config("third").is_none());
    assert!(ctx.get_config("three").is_none());
    assert_eq!(
        ctx.highlight("x=1", "three"),
        Err("Unsupported language: three".to_string())
    );
    assert_eq!(
        ctx.highlight("x = 1", "two"),
        Ok("x = <span class=\"ts-number\">1</span>".to_string())
    );
}

#[test]
fn build_binds_the_names_it_is_given() {
    let langs = vec![LangConfig {
        name: "numbers",
        aliases: vec![],
        language: Grammar::Python,
        highlights_query: "(integer) @number".to_string(),
        injections_query: String::new(),
        locals_query: String::new(),
    }];
    let names = ["string", "number"];
    let ctx = HighlighterContext::build(langs, &names);
    // The scope index is the position of `number` among the names given;
    // the class is that of the name at this position in the vocabulary.
    assert_eq!(
        ctx.highlight("7", "numbers"),
        Ok(format!("<span class=\"ts-{}\">7</span>", highlights()[1].replace('.', "-")))
    );
}

#[test]
fn a_later_language_of_the_same_name_replaces_the_earlier() {
    let names = highlights();
    let of = |query: &str| LangConfig {
        name: "twice",
        aliases: vec![],
        language: Grammar::Python,
        highlights_query: query.to_string(),
        injections_query: String::new(),
        locals_query: String::new(),
    };
    let ctx = HighlighterContext::build(vec![of("(integer) @number"), of("(integer) @constant")], &names);
    assert_eq!(
        ctx.highlight("7", "twice"),
        Ok("<span class=\"ts-constant\">7</span>".to_string())
    );
}

#[test]
fn whitespace_beyond_ascii_is_trimmed() {
    let ctx = HighlighterContext::new();
    let plain = ctx.highlight("x = 1", "python").unwrap();
    assert_eq!(ctx.highlight("x = 1\u{3000}\u{85}\u{a0}\u{2028}\r\n", "python"), Ok(plain));
    assert_eq!(ctx.highlight("\u{2003}\u{205f} \t", "python"), Ok(String::new()));
}

#[test]
fn repeated_calls_give_equal_results() {
    let ctx = HighlighterContext::new();
    let code = "def f(a):\n    return [a, 'b']";
    assert_eq!(ctx.highlight(code, "python"), ctx.highlight(code, "python"));
    assert_eq!(
        ctx.highlight(code, "python"),
        HighlighterContext::new().highlight(code, "python")
    );
}

fn injecting(name: &'static str, injections: &str) -> LangConfig {
    LangConfig {
        name,
        aliases: vec![],
        language: Grammar::Python,
        highlights_query: "(identifier) @variable\n(integer) @number".to_string(),
        injections_query: injections.to_string(),
        locals_query: String::new(),
    }
}

#[test]
fn a_language_that_injects_itself_is_highlighted() {
    let names = highlights();
    let by_identifier = "((identifier) @injection.content (#set! injection.language \"loop\"))";
    let ctx = HighlighterContext::build(vec![injecting("loop", by_identifier)], &names);
    assert!(ctx.warnings().is_empty(), "{:?}", ctx.warnings());
    let markup = ctx.highlight("x = y + 1", "loop").unwrap();
    assert_eq!(strip_tags(&markup), "x = y + 1");
    assert!(markup.contains("<span class=\"ts-number\">1</span>"), "{}", markup);
}

#[test]
fn a_language_that_injects_itself_at_the_root_is_highlighted() {
    let names = highlights();
    let by_root = "((module) @injection.content (#set! injection.language \"root\"))";
    let ctx = HighlighterContext::build(vec![injecting("root", by_root)], &names);
    assert!(ctx.warnings().is_empty(), "{:?}", ctx.warnings());
    let markup = ctx.highlight("x = 1\ny = 2", "root").unwrap();
    assert_eq!(strip_tags(&markup), "x = 1\ny = 2");
}

#[test]
fn two_languages_that_inject_each_other_are_highlighted() {
    let names = highlights();
    let to = |name: &str| format!("((identifier) @injection.content (#set! injection.language \"{}\"))", name);
    let ctx = HighlighterContext::build(
        vec![injecting("ping", &to("pong")), injecting("pong", &to("ping"))],
        &names,
    );
    let markup = ctx.highlight("a = b", "ping").unwrap();
    assert_eq!(strip_tags(&markup), "a = b");
}

#[test]
fn injected_languages_are_resolved_up_to_the_limit() {
    assert_eq!(INJECTION_LIMIT, 1024);
    let ctx = HighlighterContext::new();
    let mut granted = 0;
    assert!(ctx.injected(&mut granted, "PY").is_some());
    assert_eq!(granted, 1);
    assert!(ctx.injected(&mut granted, "no-such-language").is_none());
    assert_eq!(granted, 1);
    let mut granted = INJECTION_LIMIT - 1;
    assert!(ctx.injected(&mut granted, "python").is_some());
    assert_eq!(granted, INJECTION_LIMIT);
    assert!(ctx.injected(&mut granted, "python").is_none());
    assert_eq!(granted, INJECTION_LIMIT);
}

#[test]
fn default_and_new_highlight_alike() {
    let first = HighlighterContext::default();
    let second = HighlighterContext::new();
    let code = "const f = (a) => js`${a} + 1`; // done";
    for lang in ["js", "typescript", "TSX", "python", "c", "sh", "rb", "nix", "none"] {
        assert_eq!(first.highlight(code, lang), second.highlight(code, lang), "{}", lang);
        assert_eq!(first.get_config(lang).is_some(), second.get_config(lang).is_some());
    }
}

#[test]
fn a_language_can_be_cloned_and_shown() {
    let python = lang("python");
    let copy = python.clone();
    assert_eq!(copy.name, python.name);
    assert_eq!(copy.aliases, python.aliases);
    assert_eq!(copy.language, python.language);
    assert_eq!(copy.highlights_query, python.highlights_query);
    assert_eq!(copy.injections_query, python.injections_query);
    assert_eq!(copy.locals_query, python.locals_query);
    assert!(format!("{:?}", copy).starts_with("LangConfig { name: \"python\""));
}
