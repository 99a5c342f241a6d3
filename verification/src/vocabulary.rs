//! The vocabulary of highlight scopes, shared by every language.

use vstd::prelude::*;

verus! {

/// The scope names, in the fixed order by which events refer to them.
pub open spec fn scope_names() -> Seq<Seq<char>> {
    seq![
        "keyword.operator"@,
        "keyword.import"@,
        "keyword.control"@,
        "keyword.function"@,
        "keyword.return"@,
        "keyword.type"@,
        "keyword.export"@,
        "keyword"@,
        "type"@,
        "type.builtin"@,
        "type.definition"@,
        "function"@,
        "function.builtin"@,
        "function.method"@,
        "function.macro"@,
        "constructor"@,
        "variable"@,
        "variable.builtin"@,
        "variable.member"@,
        "variable.parameter"@,
        "variable.parameter.builtin"@,
        "property"@,
        "attribute"@,
        "label"@,
        "string"@,
        "string.special"@,
        "string.escape"@,
        "string.regex"@,
        "number"@,
        "boolean"@,
        "constant"@,
        "constant.builtin"@,
        "comment"@,
        "comment.documentation"@,
        "operator"@,
        "punctuation"@,
        "punctuation.special"@,
        "punctuation.delimiter"@,
        "character"@,
        "tag"@,
        "tag.builtin"@,
        "tag.component"@,
        "tag.attribute"@,
        "tag.delimiter"@,
        "embedded"@,
        "escape"@,
    ]
}

/// The texts of a list of names.
pub open spec fn name_views(names: Seq<&str>) -> Seq<Seq<char>> {
    Seq::new(names.len(), |i: int| names[i]@)
}

/// The scope names as a list: the one that an event's index selects stands at
/// that index.
pub fn highlights() -> (names: Vec<&'static str>)
    ensures
        name_views(names@) == scope_names(),
{
    let mut names: Vec<&'static str> = Vec::new();
    names.push("keyword.operator");
    names.push("keyword.import");
    names.push("keyword.control");
    names.push("keyword.function");
    names.push("keyword.return");
    names.push("keyword.type");
    names.push("keyword.export");
    names.push("keyword");
    names.push("type");
    names.push("type.builtin");
    names.push("type.definition");
    names.push("function");
    names.push("function.builtin");
    names.push("function.method");
    names.push("function.macro");
    names.push("constructor");
    names.push("variable");
    names.push("variable.builtin");
    names.push("variable.member");
    names.push("variable.parameter");
    names.push("variable.parameter.builtin");
    names.push("property");
    names.push("attribute");
    names.push("label");
    names.push("string");
    names.push("string.special");
    names.push("string.escape");
    names.push("string.regex");
    names.push("number");
    names.push("boolean");
    names.push("constant");
    names.push("constant.builtin");
    names.push("comment");
    names.push("comment.documentation");
    names.push("operator");
    names.push("punctuation");
    names.push("punctuation.special");
    names.push("punctuation.delimiter");
    names.push("character");
    names.push("tag");
    names.push("tag.builtin");
    names.push("tag.component");
    names.push("tag.attribute");
    names.push("tag.delimiter");
    names.push("embedded");
    names.push("escape");
    assert(name_views(names@) =~= scope_names());
    names
}

/// Whether `c` can stand in a scope name: a small letter or a dot.
pub open spec fn name_letter(c: char) -> bool {
    ('a' <= c && c <= 'z') || c == '.'
}

/// Whether `name` is made of small letters and dots.
pub open spec fn plain_name(name: Seq<char>) -> bool {
    forall|i: int| 0 <= i < name.len() ==> name_letter(#[trigger] name[i])
}

/// The scope names, letter by letter.
proof fn lemma_scope_spellings()
    ensures
        "keyword.operator"@ == seq!['k', 'e', 'y', 'w', 'o', 'r', 'd', '.', 'o', 'p', 'e', 'r', 'a', 't', 'o', 'r'],
        "keyword.import"@ == seq!['k', 'e', 'y', 'w', 'o', 'r', 'd', '.', 'i', 'm', 'p', 'o', 'r', 't'],
        "keyword.control"@ == seq!['k', 'e', 'y', 'w', 'o', 'r', 'd', '.', 'c', 'o', 'n', 't', 'r', 'o', 'l'],
        "keyword.function"@ == seq!['k', 'e', 'y', 'w', 'o', 'r', 'd', '.', 'f', 'u', 'n', 'c', 't', 'i', 'o', 'n'],
        "keyword.return"@ == seq!['k', 'e', 'y', 'w', 'o', 'r', 'd', '.', 'r', 'e', 't', 'u', 'r', 'n'],
        "keyword.type"@ == seq!['k', 'e', 'y', 'w', 'o', 'r', 'd', '.', 't', 'y', 'p', 'e'],
        "keyword.export"@ == seq!['k', 'e', 'y', 'w', 'o', 'r', 'd', '.', 'e', 'x', 'p', 'o', 'r', 't'],
        "keyword"@ == seq!['k', 'e', 'y', 'w', 'o', 'r', 'd'],
        "type"@ == seq!['t', 'y', 'p', 'e'],
        "type.builtin"@ == seq!['t', 'y', 'p', 'e', '.', 'b', 'u', 'i', 'l', 't', 'i', 'n'],
        "type.definition"@ == seq!['t', 'y', 'p', 'e', '.', 'd', 'e', 'f', 'i', 'n', 'i', 't', 'i', 'o', 'n'],
        "function"@ == seq!['f', 'u', 'n', 'c', 't', 'i', 'o', 'n'],
        "function.builtin"@ == seq!['f', 'u', 'n', 'c', 't', 'i', 'o', 'n', '.', 'b', 'u', 'i', 'l', 't', 'i', 'n'],
        "function.method"@ == seq!['f', 'u', 'n', 'c', 't', 'i', 'o', 'n', '.', 'm', 'e', 't', 'h', 'o', 'd'],
        "function.macro"@ == seq!['f', 'u', 'n', 'c', 't', 'i', 'o', 'n', '.', 'm', 'a', 'c', 'r', 'o'],
        "constructor"@ == seq!['c', 'o', 'n', 's', 't', 'r', 'u', 'c', 't', 'o', 'r'],
        "variable"@ == seq!['v', 'a', 'r', 'i', 'a', 'b', 'l', 'e'],
        "variable.builtin"@ == seq!['v', 'a', 'r', 'i', 'a', 'b', 'l', 'e', '.', 'b', 'u', 'i', 'l', 't', 'i', 'n'],
        "variable.member"@ == seq!['v', 'a', 'r', 'i', 'a', 'b', 'l', 'e', '.', 'm', 'e', 'm', 'b', 'e', 'r'],
        "variable.parameter"@ == seq!['v', 'a', 'r', 'i', 'a', 'b', 'l', 'e', '.', 'p', 'a', 'r', 'a', 'm', 'e', 't', 'e', 'r'],
        "variable.parameter.builtin"@ == seq!['v', 'a', 'r', 'i', 'a', 'b', 'l', 'e', '.', 'p', 'a', 'r', 'a', 'm', 'e', 't', 'e', 'r', '.', 'b', 'u', 'i', 'l', 't', 'i', 'n'],
        "property"@ == seq!['p', 'r', 'o', 'p', 'e', 'r', 't', 'y'],
        "attribute"@ == seq!['a', 't', 't', 'r', 'i', 'b', 'u', 't', 'e'],
        "label"@ == seq!['l', 'a', 'b', 'e', 'l'],
        "string"@ == seq!['s', 't', 'r', 'i', 'n', 'g'],
        "string.special"@ == seq!['s', 't', 'r', 'i', 'n', 'g', '.', 's', 'p', 'e', 'c', 'i', 'a', 'l'],
        "string.escape"@ == seq!['s', 't', 'r', 'i', 'n', 'g', '.', 'e', 's', 'c', 'a', 'p', 'e'],
        "string.regex"@ == seq!['s', 't', 'r', 'i', 'n', 'g', '.', 'r', 'e', 'g', 'e', 'x'],
        "number"@ == seq!['n', 'u', 'm', 'b', 'e', 'r'],
        "boolean"@ == seq!['b', 'o', 'o', 'l', 'e', 'a', 'n'],
        "constant"@ == seq!['c', 'o', 'n', 's', 't', 'a', 'n', 't'],
        "constant.builtin"@ == seq!['c', 'o', 'n', 's', 't', 'a', 'n', 't', '.', 'b', 'u', 'i', 'l', 't', 'i', 'n'],
        "comment"@ == seq!['c', 'o', 'm', 'm', 'e', 'n', 't'],
        "comment.documentation"@ == seq!['c', 'o', 'm', 'm', 'e', 'n', 't', '.', 'd', 'o', 'c', 'u', 'm', 'e', 'n', 't', 'a', 't', 'i', 'o', 'n'],
        "operator"@ == seq!['o', 'p', 'e', 'r', 'a', 't', 'o', 'r'],
        "punctuation"@ == seq!['p', 'u', 'n', 'c', 't', 'u', 'a', 't', 'i', 'o', 'n'],
        "punctuation.special"@ == seq!['p', 'u', 'n', 'c', 't', 'u', 'a', 't', 'i', 'o', 'n', '.', 's', 'p', 'e', 'c', 'i', 'a', 'l'],
        "punctuation.delimiter"@ == seq!['p', 'u', 'n', 'c', 't', 'u', 'a', 't', 'i', 'o', 'n', '.', 'd', 'e', 'l', 'i', 'm', 'i', 't', 'e', 'r'],
        "character"@ == seq!['c', 'h', 'a', 'r', 'a', 'c', 't', 'e', 'r'],
        "tag"@ == seq!['t', 'a', 'g'],
        "tag.builtin"@ == seq!['t', 'a', 'g', '.', 'b', 'u', 'i', 'l', 't', 'i', 'n'],
        "tag.component"@ == seq!['t', 'a', 'g', '.', 'c', 'o', 'm', 'p', 'o', 'n', 'e', 'n', 't'],
        "tag.attribute"@ == seq!['t', 'a', 'g', '.', 'a', 't', 't', 'r', 'i', 'b', 'u', 't', 'e'],
        "tag.delimiter"@ == seq!['t', 'a', 'g', '.', 'd', 'e', 'l', 'i', 'm', 'i', 't', 'e', 'r'],
        "embedded"@ == seq!['e', 'm', 'b', 'e', 'd', 'd', 'e', 'd'],
        "escape"@ == seq!['e', 's', 'c', 'a', 'p', 'e'],
{
    reveal_strlit("keyword.operator");
    assert("keyword.operator"@ =~= seq!['k', 'e', 'y', 'w', 'o', 'r', 'd', '.', 'o', 'p', 'e', 'r', 'a', 't', 'o', 'r']);
    reveal_strlit("keyword.import");
    assert("keyword.import"@ =~= seq!['k', 'e', 'y', 'w', 'o', 'r', 'd', '.', 'i', 'm', 'p', 'o', 'r', 't']);
    reveal_strlit("keyword.control");
    assert("keyword.control"@ =~= seq!['k', 'e', 'y', 'w', 'o', 'r', 'd', '.', 'c', 'o', 'n', 't', 'r', 'o', 'l']);
    reveal_strlit("keyword.function");
    assert("keyword.function"@ =~= seq!['k', 'e', 'y', 'w', 'o', 'r', 'd', '.', 'f', 'u', 'n', 'c', 't', 'i', 'o', 'n']);
    reveal_strlit("keyword.return");
    assert("keyword.return"@ =~= seq!['k', 'e', 'y', 'w', 'o', 'r', 'd', '.', 'r', 'e', 't', 'u', 'r', 'n']);
    reveal_strlit("keyword.type");
    assert("keyword.type"@ =~= seq!['k', 'e', 'y', 'w', 'o', 'r', 'd', '.', 't', 'y', 'p', 'e']);
    reveal_strlit("keyword.export");
    assert("keyword.export"@ =~= seq!['k', 'e', 'y', 'w', 'o', 'r', 'd', '.', 'e', 'x', 'p', 'o', 'r', 't']);
    reveal_strlit("keyword");
    assert("keyword"@ =~= seq!['k', 'e', 'y', 'w', 'o', 'r', 'd']);
    reveal_strlit("type");
    assert("type"@ =~= seq!['t', 'y', 'p', 'e']);
    reveal_strlit("type.builtin");
    assert("type.builtin"@ =~= seq!['t', 'y', 'p', 'e', '.', 'b', 'u', 'i', 'l', 't', 'i', 'n']);
    reveal_strlit("type.definition");
    assert("type.definition"@ =~= seq!['t', 'y', 'p', 'e', '.', 'd', 'e', 'f', 'i', 'n', 'i', 't', 'i', 'o', 'n']);
    reveal_strlit("function");
    assert("function"@ =~= seq!['f', 'u', 'n', 'c', 't', 'i', 'o', 'n']);
    reveal_strlit("function.builtin");
    assert("function.builtin"@ =~= seq!['f', 'u', 'n', 'c', 't', 'i', 'o', 'n', '.', 'b', 'u', 'i', 'l', 't', 'i', 'n']);
    reveal_strlit("function.method");
    assert("function.method"@ =~= seq!['f', 'u', 'n', 'c', 't', 'i', 'o', 'n', '.', 'm', 'e', 't', 'h', 'o', 'd']);
    reveal_strlit("function.macro");
    assert("function.macro"@ =~= seq!['f', 'u', 'n', 'c', 't', 'i', 'o', 'n', '.', 'm', 'a', 'c', 'r', 'o']);
    reveal_strlit("constructor");
    assert("constructor"@ =~= seq!['c', 'o', 'n', 's', 't', 'r', 'u', 'c', 't', 'o', 'r']);
    reveal_strlit("variable");
    assert("variable"@ =~= seq!['v', 'a', 'r', 'i', 'a', 'b', 'l', 'e']);
    reveal_strlit("variable.builtin");
    assert("variable.builtin"@ =~= seq!['v', 'a', 'r', 'i', 'a', 'b', 'l', 'e', '.', 'b', 'u', 'i', 'l', 't', 'i', 'n']);
    reveal_strlit("variable.member");
    assert("variable.member"@ =~= seq!['v', 'a', 'r', 'i', 'a', 'b', 'l', 'e', '.', 'm', 'e', 'm', 'b', 'e', 'r']);
    reveal_strlit("variable.parameter");
    assert("variable.parameter"@ =~= seq!['v', 'a', 'r', 'i', 'a', 'b', 'l', 'e', '.', 'p', 'a', 'r', 'a', 'm', 'e', 't', 'e', 'r']);
    reveal_strlit("variable.parameter.builtin");
    assert("variable.parameter.builtin"@ =~= seq!['v', 'a', 'r', 'i', 'a', 'b', 'l', 'e', '.', 'p', 'a', 'r', 'a', 'm', 'e', 't', 'e', 'r', '.', 'b', 'u', 'i', 'l', 't', 'i', 'n']);
    reveal_strlit("property");
    assert("property"@ =~= seq!['p', 'r', 'o', 'p', 'e', 'r', 't', 'y']);
    reveal_strlit("attribute");
    assert("attribute"@ =~= seq!['a', 't', 't', 'r', 'i', 'b', 'u', 't', 'e']);
    reveal_strlit("label");
    assert("label"@ =~= seq!['l', 'a', 'b', 'e', 'l']);
    reveal_strlit("string");
    assert("string"@ =~= seq!['s', 't', 'r', 'i', 'n', 'g']);
    reveal_strlit("string.special");
    assert("string.special"@ =~= seq!['s', 't', 'r', 'i', 'n', 'g', '.', 's', 'p', 'e', 'c', 'i', 'a', 'l']);
    reveal_strlit("string.escape");
    assert("string.escape"@ =~= seq!['s', 't', 'r', 'i', 'n', 'g', '.', 'e', 's', 'c', 'a', 'p', 'e']);
    reveal_strlit("string.regex");
    assert("string.regex"@ =~= seq!['s', 't', 'r', 'i', 'n', 'g', '.', 'r', 'e', 'g', 'e', 'x']);
    reveal_strlit("number");
    assert("number"@ =~= seq!['n', 'u', 'm', 'b', 'e', 'r']);
    reveal_strlit("boolean");
    assert("boolean"@ =~= seq!['b', 'o', 'o', 'l', 'e', 'a', 'n']);
    reveal_strlit("constant");
    assert("constant"@ =~= seq!['c', 'o', 'n', 's', 't', 'a', 'n', 't']);
    reveal_strlit("constant.builtin");
    assert("constant.builtin"@ =~= seq!['c', 'o', 'n', 's', 't', 'a', 'n', 't', '.', 'b', 'u', 'i', 'l', 't', 'i', 'n']);
    reveal_strlit("comment");
    assert("comment"@ =~= seq!['c', 'o', 'm', 'm', 'e', 'n', 't']);
    reveal_strlit("comment.documentation");
    assert("comment.documentation"@ =~= seq!['c', 'o', 'm', 'm', 'e', 'n', 't', '.', 'd', 'o', 'c', 'u', 'm', 'e', 'n', 't', 'a', 't', 'i', 'o', 'n']);
    reveal_strlit("operator");
    assert("operator"@ =~= seq!['o', 'p', 'e', 'r', 'a', 't', 'o', 'r']);
    reveal_strlit("punctuation");
    assert("punctuation"@ =~= seq!['p', 'u', 'n', 'c', 't', 'u', 'a', 't', 'i', 'o', 'n']);
    reveal_strlit("punctuation.special");
    assert("punctuation.special"@ =~= seq!['p', 'u', 'n', 'c', 't', 'u', 'a', 't', 'i', 'o', 'n', '.', 's', 'p', 'e', 'c', 'i', 'a', 'l']);
    reveal_strlit("punctuation.delimiter");
    assert("punctuation.delimiter"@ =~= seq!['p', 'u', 'n', 'c', 't', 'u', 'a', 't', 'i', 'o', 'n', '.', 'd', 'e', 'l', 'i', 'm', 'i', 't', 'e', 'r']);
    reveal_strlit("character");
    assert("character"@ =~= seq!['c', 'h', 'a', 'r', 'a', 'c', 't', 'e', 'r']);
    reveal_strlit("tag");
    assert("tag"@ =~= seq!['t', 'a', 'g']);
    reveal_strlit("tag.builtin");
    assert("tag.builtin"@ =~= seq!['t', 'a', 'g', '.', 'b', 'u', 'i', 'l', 't', 'i', 'n']);
    reveal_strlit("tag.component");
    assert("tag.component"@ =~= seq!['t', 'a', 'g', '.', 'c', 'o', 'm', 'p', 'o', 'n', 'e', 'n', 't']);
    reveal_strlit("tag.attribute");
    assert("tag.attribute"@ =~= seq!['t', 'a', 'g', '.', 'a', 't', 't', 'r', 'i', 'b', 'u', 't', 'e']);
    reveal_strlit("tag.delimiter");
    assert("tag.delimiter"@ =~= seq!['t', 'a', 'g', '.', 'd', 'e', 'l', 'i', 'm', 'i', 't', 'e', 'r']);
    reveal_strlit("embedded");
    assert("embedded"@ =~= seq!['e', 'm', 'b', 'e', 'd', 'd', 'e', 'd']);
    reveal_strlit("escape");
    assert("escape"@ =~= seq!['e', 's', 'c', 'a', 'p', 'e']);
}

/// A text of at most 26 characters, each a small letter or a dot, is a
/// plain name.
proof fn lemma_short_plain_name(s: Seq<char>)
    requires
        s.len() <= 26,
        0 < s.len() ==> name_letter(s[0]),
        1 < s.len() ==> name_letter(s[1]),
        2 < s.len() ==> name_letter(s[2]),
        3 < s.len() ==> name_letter(s[3]),
        4 < s.len() ==> name_letter(s[4]),
        5 < s.len() ==> name_letter(s[5]),
        6 < s.len() ==> name_letter(s[6]),
        7 < s.len() ==> name_letter(s[7]),
        8 < s.len() ==> name_letter(s[8]),
        9 < s.len() ==> name_letter(s[9]),
        10 < s.len() ==> name_letter(s[10]),
        11 < s.len() ==> name_letter(s[11]),
        12 < s.len() ==> name_letter(s[12]),
        13 < s.len() ==> name_letter(s[13]),
        14 < s.len() ==> name_letter(s[14]),
        15 < s.len() ==> name_letter(s[15]),
        16 < s.len() ==> name_letter(s[16]),
        17 < s.len() ==> name_letter(s[17]),
        18 < s.len() ==> name_letter(s[18]),
        19 < s.len() ==> name_letter(s[19]),
        20 < s.len() ==> name_letter(s[20]),
        21 < s.len() ==> name_letter(s[21]),
        22 < s.len() ==> name_letter(s[22]),
        23 < s.len() ==> name_letter(s[23]),
        24 < s.len() ==> name_letter(s[24]),
        25 < s.len() ==> name_letter(s[25]),
    ensures
        plain_name(s),
{
    assert forall|i: int| 0 <= i < s.len() implies name_letter(#[trigger] s[i]) by {
        if i == 0 {
            assert(name_letter(s[0]));
        } else if i == 1 {
            assert(name_letter(s[1]));
        } else if i == 2 {
            assert(name_letter(s[2]));
        } else if i == 3 {
            assert(name_letter(s[3]));
        } else if i == 4 {
            assert(name_letter(s[4]));
        } else if i == 5 {
            assert(name_letter(s[5]));
        } else if i == 6 {
            assert(name_letter(s[6]));
        } else if i == 7 {
            assert(name_letter(s[7]));
        } else if i == 8 {
            assert(name_letter(s[8]));
        } else if i == 9 {
            assert(name_letter(s[9]));
        } else if i == 10 {
            assert(name_letter(s[10]));
        } else if i == 11 {
            assert(name_letter(s[11]));
        } else if i == 12 {
            assert(name_letter(s[12]));
        } else if i == 13 {
            assert(name_letter(s[13]));
        } else if i == 14 {
            assert(name_letter(s[14]));
        } else if i == 15 {
            assert(name_letter(s[15]));
        } else if i == 16 {
            assert(name_letter(s[16]));
        } else if i == 17 {
            assert(name_letter(s[17]));
        } else if i == 18 {
            assert(name_letter(s[18]));
        } else if i == 19 {
            assert(name_letter(s[19]));
        } else if i == 20 {
            assert(name_letter(s[20]));
        } else if i == 21 {
            assert(name_letter(s[21]));
        } else if i == 22 {
            assert(name_letter(s[22]));
        } else if i == 23 {
            assert(name_letter(s[23]));
        } else if i == 24 {
            assert(name_letter(s[24]));
        } else if i == 25 {
            assert(name_letter(s[25]));
        }
    }
}

/// Every scope name is made of small letters and dots.
pub proof fn lemma_scope_names_plain(i: int)
    requires
        0 <= i < scope_names().len(),
    ensures
        plain_name(scope_names()[i]),
{
    lemma_scope_spellings();
    lemma_short_plain_name(scope_names()[i]);
}

} // verus!
