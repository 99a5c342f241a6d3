//! Escaping of literal text for HTML, and the class names of scopes.

use vstd::prelude::*;
use crate::text::{replace_all, replaced};
use crate::vocabulary::{name_letter, plain_name};

verus! {

/// The text that stands for the character `c` in HTML: an entity for each of
/// the five reserved characters, the character itself otherwise.
pub open spec fn escape_char(c: char) -> Seq<char> {
    if c == '&' {
        seq!['&', 'a', 'm', 'p', ';']
    } else if c == '"' {
        seq!['&', 'q', 'u', 'o', 't', ';']
    } else if c == '\'' {
        seq!['&', '#', '3', '9', ';']
    } else if c == '<' {
        seq!['&', 'l', 't', ';']
    } else if c == '>' {
        seq!['&', 'g', 't', ';']
    } else {
        seq![c]
    }
}

/// The HTML-escaped form of `s`: each character replaced by what stands for
/// it, in order.
pub open spec fn escape(s: Seq<char>) -> Seq<char>
    decreases s.len(),
{
    if s.len() == 0 {
        Seq::empty()
    } else {
        escape_char(s[0]) + escape(s.skip(1))
    }
}

/// The text `s` with every occurrence of the character `c` replaced by `to`.
pub open spec fn substitute(s: Seq<char>, c: char, to: Seq<char>) -> Seq<char>
    decreases s.len(),
{
    if s.len() == 0 {
        Seq::empty()
    } else if s[0] == c {
        to + substitute(s.skip(1), c, to)
    } else {
        seq![s[0]] + substitute(s.skip(1), c, to)
    }
}

/// The five replacements in the order in which they are applied: ampersand
/// first, so that the ampersands of the entities are not escaped again.
pub open spec fn escape_passes(s: Seq<char>) -> Seq<char> {
    let a = substitute(s, '&', escape_char('&'));
    let b = substitute(a, '"', escape_char('"'));
    let c = substitute(b, '\'', escape_char('\''));
    let d = substitute(c, '<', escape_char('<'));
    substitute(d, '>', escape_char('>'))
}

/// The scope name `name` as it appears in a class: dots become dashes.
pub open spec fn dashed(name: Seq<char>) -> Seq<char> {
    name.map_values(|c: char| if c == '.' { '-' } else { c })
}

/// Replacing a pattern of one character is substituting that character.
pub proof fn lemma_replaced_one_char(s: Seq<char>, c: char, to: Seq<char>)
    ensures
        replaced(s, seq![c], to) == substitute(s, c, to),
    decreases s.len(),
{
    let from = seq![c];
    if s.len() == 0 {
        assert(replaced(s, from, to) =~= substitute(s, c, to));
    } else {
        lemma_replaced_one_char(s.skip(1), c, to);
        if s[0] == c {
            assert(s.subrange(0, 1) =~= from);
        } else {
            assert(s.subrange(0, 1)[0] == s[0]);
        }
    }
}

/// Substitution goes through concatenation.
pub proof fn lemma_substitute_concat(a: Seq<char>, b: Seq<char>, c: char, to: Seq<char>)
    ensures
        substitute(a + b, c, to) == substitute(a, c, to) + substitute(b, c, to),
    decreases a.len(),
{
    if a.len() == 0 {
        assert(a + b =~= b);
        assert(substitute(a, c, to) + substitute(b, c, to) =~= substitute(b, c, to));
    } else {
        lemma_substitute_concat(a.skip(1), b, c, to);
        assert((a + b).skip(1) =~= a.skip(1) + b);
        assert((a + b)[0] == a[0]);
        assert(substitute(a + b, c, to) =~= substitute(a, c, to) + substitute(b, c, to));
    }
}

/// Substituting a character that does not occur changes nothing.
pub proof fn lemma_substitute_absent(s: Seq<char>, c: char, to: Seq<char>)
    requires
        forall|i: int| 0 <= i < s.len() ==> s[i] != c,
    ensures
        substitute(s, c, to) == s,
    decreases s.len(),
{
    if s.len() == 0 {
        assert(substitute(s, c, to) =~= s);
    } else {
        lemma_substitute_absent(s.skip(1), c, to);
        assert(seq![s[0]] + s.skip(1) =~= s);
    }
}

/// On one character the five passes give what stands for that character.
proof fn lemma_passes_one_char(h: char)
    ensures
        escape_passes(seq![h]) == escape_char(h),
{
    let s = seq![h];
    assert(s.skip(1) =~= Seq::<char>::empty());
    let a = substitute(s, '&', escape_char('&'));
    assert(a =~= (if h == '&' { escape_char('&') } else { s })) by {
        assert(substitute(s.skip(1), '&', escape_char('&')) =~= Seq::<char>::empty());
    }
    let b = substitute(a, '"', escape_char('"'));
    assert(b =~= (if h == '&' || h == '"' { escape_char(h) } else { s })) by {
        if h == '&' {
            lemma_substitute_absent(a, '"', escape_char('"'));
        } else {
            assert(substitute(s.skip(1), '"', escape_char('"')) =~= Seq::<char>::empty());
        }
    }
    let c = substitute(b, '\'', escape_char('\''));
    assert(c =~= (if h == '&' || h == '"' || h == '\'' { escape_char(h) } else { s })) by {
        if h == '&' || h == '"' {
            lemma_substitute_absent(b, '\'', escape_char('\''));
        } else {
            assert(substitute(s.skip(1), '\'', escape_char('\'')) =~= Seq::<char>::empty());
        }
    }
    let d = substitute(c, '<', escape_char('<'));
    assert(d =~= (if h == '&' || h == '"' || h == '\'' || h == '<' { escape_char(h) } else { s }))
        by {
        if h == '&' || h == '"' || h == '\'' {
            lemma_substitute_absent(c, '<', escape_char('<'));
        } else {
            assert(substitute(s.skip(1), '<', escape_char('<')) =~= Seq::<char>::empty());
        }
    }
    let e = substitute(d, '>', escape_char('>'));
    assert(e =~= escape_char(h)) by {
        if h == '&' || h == '"' || h == '\'' || h == '<' {
            lemma_substitute_absent(d, '>', escape_char('>'));
        } else {
            assert(substitute(s.skip(1), '>', escape_char('>')) =~= Seq::<char>::empty());
        }
    }
}

/// The five passes go through concatenation.
proof fn lemma_passes_concat(x: Seq<char>, y: Seq<char>)
    ensures
        escape_passes(x + y) == escape_passes(x) + escape_passes(y),
{
    lemma_substitute_concat(x, y, '&', escape_char('&'));
    let xa = substitute(x, '&', escape_char('&'));
    let ya = substitute(y, '&', escape_char('&'));
    lemma_substitute_concat(xa, ya, '"', escape_char('"'));
    let xb = substitute(xa, '"', escape_char('"'));
    let yb = substitute(ya, '"', escape_char('"'));
    lemma_substitute_concat(xb, yb, '\'', escape_char('\''));
    let xc = substitute(xb, '\'', escape_char('\''));
    let yc = substitute(yb, '\'', escape_char('\''));
    lemma_substitute_concat(xc, yc, '<', escape_char('<'));
    let xd = substitute(xc, '<', escape_char('<'));
    let yd = substitute(yc, '<', escape_char('<'));
    lemma_substitute_concat(xd, yd, '>', escape_char('>'));
}

/// Applying the five replacements one after the other, ampersand first,
/// escapes each character of the text exactly once.
pub proof fn lemma_passes_escape(s: Seq<char>)
    ensures
        escape_passes(s) == escape(s),
    decreases s.len(),
{
    if s.len() == 0 {
        assert(escape_passes(s) =~= escape(s));
    } else {
        let h = seq![s[0]];
        assert(h + s.skip(1) =~= s);
        lemma_passes_concat(h, s.skip(1));
        lemma_passes_one_char(s[0]);
        lemma_passes_escape(s.skip(1));
    }
}

/// Escaping goes through concatenation.
pub proof fn lemma_escape_concat(a: Seq<char>, b: Seq<char>)
    ensures
        escape(a + b) == escape(a) + escape(b),
    decreases a.len(),
{
    if a.len() == 0 {
        assert(a + b =~= b);
        assert(escape(a) + escape(b) =~= escape(b));
    } else {
        lemma_escape_concat(a.skip(1), b);
        assert((a + b).skip(1) =~= a.skip(1) + b);
        assert((a + b)[0] == a[0]);
        assert(escape(a + b) =~= escape(a) + escape(b));
    }
}

/// Whether an entity written by the escaping starts at position `i` of `t`.
pub open spec fn entity_at(t: Seq<char>, i: int) -> bool {
    ||| has_at(t, i, escape_char('&'))
    ||| has_at(t, i, escape_char('"'))
    ||| has_at(t, i, escape_char('\''))
    ||| has_at(t, i, escape_char('<'))
    ||| has_at(t, i, escape_char('>'))
}

/// Whether `part` stands in `t` from position `i` on.
pub open spec fn has_at(t: Seq<char>, i: int, part: Seq<char>) -> bool {
    0 <= i && i + part.len() <= t.len() && t.subrange(i, i + part.len()) == part
}

/// Escaped text holds none of `<`, `>`, `"` and `'`, and each `&` in it
/// begins one of the five entities.
pub proof fn lemma_escape_no_reserved(s: Seq<char>)
    ensures
        forall|i: int|
            0 <= i < escape(s).len() ==> {
                let c = #[trigger] escape(s)[i];
                c != '<' && c != '>' && c != '"' && c != '\'' && (c == '&' ==> entity_at(
                    escape(s),
                    i,
                ))
            },
    decreases s.len(),
{
    if s.len() > 0 {
        let head = escape_char(s[0]);
        let tail = escape(s.skip(1));
        let t = escape(s);
        lemma_escape_no_reserved(s.skip(1));
        assert forall|i: int| 0 <= i < t.len() implies {
            let c = #[trigger] t[i];
            c != '<' && c != '>' && c != '"' && c != '\'' && (c == '&' ==> entity_at(t, i))
        } by {
            if i < head.len() {
                assert(t[i] == head[i]);
                if t[i] == '&' {
                    assert(i == 0);
                    assert(t.subrange(0, head.len() as int) =~= head);
                }
            } else {
                let j = i - head.len();
                assert(t[i] == tail[j]);
                if t[i] == '&' {
                    assert(entity_at(tail, j));
                    assert forall|part: Seq<char>| has_at(tail, j, part) implies has_at(
                        t,
                        i,
                        part,
                    ) by {
                        assert(t.subrange(i, i + part.len()) =~= tail.subrange(j, j + part.len()));
                    }
                }
            }
        }
    }
}

/// Substituting dashes for dots gives the dashed name.
pub proof fn lemma_substitute_dashed(name: Seq<char>)
    ensures
        substitute(name, '.', seq!['-']) == dashed(name),
    decreases name.len(),
{
    if name.len() == 0 {
        assert(substitute(name, '.', seq!['-']) =~= dashed(name));
    } else {
        lemma_substitute_dashed(name.skip(1));
        assert(dashed(name.skip(1)) =~= dashed(name).skip(1));
        assert(substitute(name, '.', seq!['-']) =~= dashed(name));
    }
}

/// A dashed name is as long as the name and holds no dot.
pub proof fn lemma_dashed_no_dot(name: Seq<char>)
    ensures
        dashed(name).len() == name.len(),
        forall|i: int| 0 <= i < name.len() ==> #[trigger] dashed(name)[i] != '.',
        forall|i: int| 0 <= i < name.len() && name[i] != '.' ==> #[trigger] dashed(name)[i] == name[i],
{
}

/// Whether `c` can stand in a class: a small letter or a dash.
pub open spec fn class_letter(c: char) -> bool {
    ('a' <= c && c <= 'z') || c == '-'
}

/// The dashed form of a name of small letters and dots holds small letters
/// and dashes alone.
pub proof fn lemma_dashed_letters(name: Seq<char>)
    requires
        plain_name(name),
    ensures
        forall|i: int| 0 <= i < dashed(name).len() ==> class_letter(#[trigger] dashed(name)[i]),
{
    assert forall|i: int| 0 <= i < dashed(name).len() implies class_letter(
        #[trigger] dashed(name)[i],
    ) by {
        assert(name_letter(name[i]));
    }
}

/// Whether `t` holds none of `<`, `>`, `"` and `'`, and each `&` in it begins
/// one of the five entities.
pub open spec fn harmless(t: Seq<char>) -> bool {
    forall|i: int|
        0 <= i < t.len() ==> {
            let c = #[trigger] t[i];
            c != '<' && c != '>' && c != '"' && c != '\'' && (c == '&' ==> entity_at(t, i))
        }
}

/// Escaped text is harmless.
pub proof fn lemma_escape_harmless(s: Seq<char>)
    ensures
        harmless(escape(s)),
{
    lemma_escape_no_reserved(s);
}

/// Escapes `text` for HTML: `&`, `"`, `'`, `<` and `>` become entities, every
/// other character is kept.
pub fn escape_html(text: &str) -> (r: String)
    ensures
        r@ == escape(text@),
{
    proof {
        reveal_strlit("&");
        reveal_strlit("\"");
        reveal_strlit("'");
        reveal_strlit("<");
        reveal_strlit(">");
        reveal_strlit("&amp;");
        reveal_strlit("&quot;");
        reveal_strlit("&#39;");
        reveal_strlit("&lt;");
        reveal_strlit("&gt;");
        assert("&"@ =~= seq!['&']);
        assert("\""@ =~= seq!['"']);
        assert("'"@ =~= seq!['\'']);
        assert("<"@ =~= seq!['<']);
        assert(">"@ =~= seq!['>']);
        assert("&amp;"@ =~= escape_char('&'));
        assert("&quot;"@ =~= escape_char('"'));
        assert("&#39;"@ =~= escape_char('\''));
        assert("&lt;"@ =~= escape_char('<'));
        assert("&gt;"@ =~= escape_char('>'));
    }
    let a = replace_all(text, "&", "&amp;");
    let b = replace_all(a.as_str(), "\"", "&quot;");
    let c = replace_all(b.as_str(), "'", "&#39;");
    let d = replace_all(c.as_str(), "<", "&lt;");
    let e = replace_all(d.as_str(), ">", "&gt;");
    proof {
        lemma_replaced_one_char(text@, '&', escape_char('&'));
        lemma_replaced_one_char(a@, '"', escape_char('"'));
        lemma_replaced_one_char(b@, '\'', escape_char('\''));
        lemma_replaced_one_char(c@, '<', escape_char('<'));
        lemma_replaced_one_char(d@, '>', escape_char('>'));
        lemma_passes_escape(text@);
    }
    e
}

/// The class fragment of a scope name: the name with dashes for dots.
pub fn class_name(name: &str) -> (r: String)
    ensures
        r@ == dashed(name@),
{
    proof {
        reveal_strlit(".");
        reveal_strlit("-");
        assert("."@ =~= seq!['.']);
        assert("-"@ =~= seq!['-']);
        lemma_replaced_one_char(name@, '.', seq!['-']);
        lemma_substitute_dashed(name@);
    }
    replace_all(name, ".", "-")
}

} // verus!
