//! Escaping for the three embedding contexts the generator writes into:
//! script-literal (JSON) strings, XML text, and HTML text/attributes.

use vstd::prelude::*;
use vstd::string::StrSliceExecFns;
use vstd::string::StringExecFns;

verus! {

/// Per-character expansion of a whole sequence: each character is replaced by
/// the sequence `f` gives for it, in order.
pub open spec fn expand_chars(f: spec_fn(char) -> Seq<char>, s: Seq<char>) -> Seq<char>
    decreases s.len(),
{
    if s.len() == 0 {
        Seq::empty()
    } else {
        f(s[0]) + expand_chars(f, s.skip(1))
    }
}

pub proof fn lemma_expand_chars_push(f: spec_fn(char) -> Seq<char>, s: Seq<char>, c: char)
    ensures
        expand_chars(f, s.push(c)) == expand_chars(f, s) + f(c),
    decreases s.len(),
{
    if s.len() == 0 {
        assert(s.push(c).skip(1) =~= Seq::<char>::empty());
        assert(s.push(c)[0] == c);
        assert(expand_chars(f, Seq::<char>::empty()) =~= Seq::<char>::empty());
        assert(expand_chars(f, s.push(c)) =~= f(c));
        assert(expand_chars(f, s.push(c)) =~= expand_chars(f, s) + f(c));
    } else {
        assert(s.push(c).skip(1) =~= s.skip(1).push(c));
        lemma_expand_chars_push(f, s.skip(1), c);
        assert(s.push(c)[0] == s[0]);
        assert(expand_chars(f, s.push(c)) =~= expand_chars(f, s) + f(c));
    }
}

/// How one character is written inside a double-quoted script literal:
/// backslash, double quote, newline and carriage return are escaped,
/// everything else is kept.
pub open spec fn escape_js_char(c: char) -> Seq<char> {
    if c == '\\' {
        seq!['\\', '\\']
    } else if c == '"' {
        seq!['\\', '"']
    } else if c == '\n' {
        seq!['\\', 'n']
    } else if c == '\r' {
        seq!['\\', 'r']
    } else {
        seq![c]
    }
}

pub open spec fn escape_js_seq(s: Seq<char>) -> Seq<char> {
    expand_chars(|c: char| escape_js_char(c), s)
}

/// Escape a string for embedding in a double-quoted script literal.
pub fn escape_js(s: &str) -> (r: String)
    ensures
        r@ == escape_js_seq(s@),
{
    let n = s.unicode_len();
    let mut r = String::new();
    let mut i: usize = 0;
    while i < n
        invariant
            n == s@.len(),
            0 <= i <= n,
            r@ == escape_js_seq(s@.take(i as int)),
        decreases n - i,
    {
        let c = s.get_char(i);
        if c == '\\' {
            r.append("\\\\");
        } else if c == '"' {
            r.append("\\\"");
        } else if c == '\n' {
            r.append("\\n");
        } else if c == '\r' {
            r.append("\\r");
        } else {
            r.push(c);
        }
        proof {
            reveal_strlit("\\\\");
            reveal_strlit("\\\"");
            reveal_strlit("\\n");
            reveal_strlit("\\r");
            lemma_expand_chars_push(
                |x: char| escape_js_char(x),
                s@.take(i as int),
                s@[i as int],
            );
            assert(s@.take(i as int).push(s@[i as int]) =~= s@.take(i + 1));
        }
        i += 1;
    }
    proof {
        assert(s@.take(n as int) =~= s@);
    }
    r
}

/// How one character is written as XML text: the five XML-special characters
/// become entity references.
pub open spec fn escape_xml_char(c: char) -> Seq<char> {
    if c == '&' {
        seq!['&', 'a', 'm', 'p', ';']
    } else if c == '<' {
        seq!['&', 'l', 't', ';']
    } else if c == '>' {
        seq!['&', 'g', 't', ';']
    } else if c == '"' {
        seq!['&', 'q', 'u', 'o', 't', ';']
    } else if c == '\'' {
        seq!['&', 'a', 'p', 'o', 's', ';']
    } else {
        seq![c]
    }
}

pub open spec fn escape_xml_seq(s: Seq<char>) -> Seq<char> {
    expand_chars(|c: char| escape_xml_char(c), s)
}

/// Escape a string for embedding as XML text or attribute value.
pub fn escape_xml(s: &str) -> (r: String)
    ensures
        r@ == escape_xml_seq(s@),
{
    let n = s.unicode_len();
    let mut r = String::new();
    let mut i: usize = 0;
    while i < n
        invariant
            n == s@.len(),
            0 <= i <= n,
            r@ == escape_xml_seq(s@.take(i as int)),
        decreases n - i,
    {
        let c = s.get_char(i);
        if c == '&' {
            r.append("&amp;");
        } else if c == '<' {
            r.append("&lt;");
        } else if c == '>' {
            r.append("&gt;");
        } else if c == '"' {
            r.append("&quot;");
        } else if c == '\'' {
            r.append("&apos;");
        } else {
            r.push(c);
        }
        proof {
            reveal_strlit("&amp;");
            reveal_strlit("&lt;");
            reveal_strlit("&gt;");
            reveal_strlit("&quot;");
            reveal_strlit("&apos;");
            lemma_expand_chars_push(
                |x: char| escape_xml_char(x),
                s@.take(i as int),
                s@[i as int],
            );
            assert(s@.take(i as int).push(s@[i as int]) =~= s@.take(i + 1));
        }
        i += 1;
    }
    proof {
        assert(s@.take(n as int) =~= s@);
    }
    r
}

/// How one character is written as HTML text: `&`, `<` and `>` become entity
/// references; quotes are kept.
pub open spec fn escape_html_char(c: char) -> Seq<char> {
    if c == '&' {
        seq!['&', 'a', 'm', 'p', ';']
    } else if c == '<' {
        seq!['&', 'l', 't', ';']
    } else if c == '>' {
        seq!['&', 'g', 't', ';']
    } else {
        seq![c]
    }
}

pub open spec fn escape_html_seq(s: Seq<char>) -> Seq<char> {
    expand_chars(|c: char| escape_html_char(c), s)
}

/// Escape a string for embedding as HTML element text.
pub fn escape_html(s: &str) -> (r: String)
    ensures
        r@ == escape_html_seq(s@),
{
    let n = s.unicode_len();
    let mut r = String::new();
    let mut i: usize = 0;
    while i < n
        invariant
            n == s@.len(),
            0 <= i <= n,
            r@ == escape_html_seq(s@.take(i as int)),
        decreases n - i,
    {
        let c = s.get_char(i);
        if c == '&' {
            r.append("&amp;");
        } else if c == '<' {
            r.append("&lt;");
        } else if c == '>' {
            r.append("&gt;");
        } else {
            r.push(c);
        }
        proof {
            reveal_strlit("&amp;");
            reveal_strlit("&lt;");
            reveal_strlit("&gt;");
            lemma_expand_chars_push(
                |x: char| escape_html_char(x),
                s@.take(i as int),
                s@[i as int],
            );
            assert(s@.take(i as int).push(s@[i as int]) =~= s@.take(i + 1));
        }
        i += 1;
    }
    proof {
        assert(s@.take(n as int) =~= s@);
    }
    r
}

/// How one character is written inside a double-quoted HTML attribute:
/// like HTML text, with the double quote escaped as well.
pub open spec fn escape_html_attr_char(c: char) -> Seq<char> {
    if c == '&' {
        seq!['&', 'a', 'm', 'p', ';']
    } else if c == '<' {
        seq!['&', 'l', 't', ';']
    } else if c == '>' {
        seq!['&', 'g', 't', ';']
    } else if c == '"' {
        seq!['&', 'q', 'u', 'o', 't', ';']
    } else {
        seq![c]
    }
}

pub open spec fn escape_html_attr_seq(s: Seq<char>) -> Seq<char> {
    expand_chars(|c: char| escape_html_attr_char(c), s)
}

/// Escape a string for embedding in a double-quoted HTML attribute.
pub fn escape_html_attr(s: &str) -> (r: String)
    ensures
        r@ == escape_html_attr_seq(s@),
{
    let n = s.unicode_len();
    let mut r = String::new();
    let mut i: usize = 0;
    while i < n
        invariant
            n == s@.len(),
            0 <= i <= n,
            r@ == escape_html_attr_seq(s@.take(i as int)),
        decreases n - i,
    {
        let c = s.get_char(i);
        if c == '&' {
            r.append("&amp;");
        } else if c == '<' {
            r.append("&lt;");
        } else if c == '>' {
            r.append("&gt;");
        } else if c == '"' {
            r.append("&quot;");
        } else {
            r.push(c);
        }
        proof {
            reveal_strlit("&amp;");
            reveal_strlit("&lt;");
            reveal_strlit("&gt;");
            reveal_strlit("&quot;");
            lemma_expand_chars_push(
                |x: char| escape_html_attr_char(x),
                s@.take(i as int),
                s@[i as int],
            );
            assert(s@.take(i as int).push(s@[i as int]) =~= s@.take(i + 1));
        }
        i += 1;
    }
    proof {
        assert(s@.take(n as int) =~= s@);
    }
    r
}

/// Inverse of [`escape_js_char`] expansion: a backslash followed by `n`, `r`
/// or any other character is folded back to the character it stands for.
pub open spec fn unescape_js_seq(s: Seq<char>) -> Seq<char>
    decreases s.len(),
{
    if s.len() == 0 {
        Seq::empty()
    } else if s[0] == '\\' && s.len() >= 2 {
        let c = s[1];
        let u = if c == 'n' {
            '\n'
        } else if c == 'r' {
            '\r'
        } else {
            c
        };
        seq![u] + unescape_js_seq(s.skip(2))
    } else {
        seq![s[0]] + unescape_js_seq(s.skip(1))
    }
}

/// Undo [`escape_js`]: parse a script-literal body back to the raw string.
pub fn unescape_js(s: &str) -> (r: String)
    ensures
        r@ == unescape_js_seq(s@),
{
    let n = s.unicode_len();
    let mut r = String::new();
    let mut i: usize = 0;
    proof {
        assert(s@.skip(0) =~= s@);
        assert(r@ + unescape_js_seq(s@) =~= unescape_js_seq(s@));
    }
    while i < n
        invariant
            n == s@.len(),
            0 <= i <= n,
            r@ + unescape_js_seq(s@.skip(i as int)) == unescape_js_seq(s@),
        decreases n - i,
    {
        let c = s.get_char(i);
        if c == '\\' && i + 1 < n {
            let e = s.get_char(i + 1);
            let u = if e == 'n' {
                '\n'
            } else if e == 'r' {
                '\r'
            } else {
                e
            };
            r.push(u);
            proof {
                assert(s@.skip(i as int)[0] == s@[i as int]);
                assert(s@.skip(i as int)[1] == s@[i + 1]);
                assert(s@.skip(i as int).skip(2) =~= s@.skip(i + 2));
                assert(r@ + unescape_js_seq(s@.skip(i + 2)) =~= unescape_js_seq(s@));
            }
            i += 2;
        } else {
            r.push(c);
            proof {
                assert(s@.skip(i as int)[0] == s@[i as int]);
                assert(s@.skip(i as int).skip(1) =~= s@.skip(i + 1));
                assert(r@ + unescape_js_seq(s@.skip(i + 1)) =~= unescape_js_seq(s@));
            }
            i += 1;
        }
    }
    proof {
        assert(s@.skip(n as int) =~= Seq::<char>::empty());
        assert(r@ =~= unescape_js_seq(s@));
    }
    r
}

/// A string escaped for a script literal parses back to the original string.
pub proof fn lemma_escape_js_round_trip(s: Seq<char>)
    ensures
        unescape_js_seq(escape_js_seq(s)) == s,
    decreases s.len(),
{
    if s.len() == 0 {
        assert(unescape_js_seq(escape_js_seq(s)) =~= s);
    } else {
        lemma_escape_js_round_trip(s.skip(1));
        let e = escape_js_seq(s);
        assert(e == escape_js_char(s[0]) + escape_js_seq(s.skip(1)));
        if s[0] == '\\' || s[0] == '"' || s[0] == '\n' || s[0] == '\r' {
            assert(e[0] == '\\');
            assert(e.len() >= 2);
            assert(e.skip(2) =~= escape_js_seq(s.skip(1)));
            assert(unescape_js_seq(e) =~= s);
        } else {
            assert(e[0] == s[0]);
            assert(e[0] != '\\');
            assert(e.skip(1) =~= escape_js_seq(s.skip(1)));
            assert(unescape_js_seq(e) =~= s);
        }
    }
}

} // verus!
