use vstd::prelude::*;

use crate::command::joined;
use crate::quoting::{applescript_quoted, shell_quoted};
use crate::text::{escaped, escaped_char, trim, EscapeStyle};

verus! {

/// Escaping a text that starts with `c` writes `c` first.
pub proof fn lemma_escaped_prepend(style: EscapeStyle, c: char, w: Seq<char>)
    ensures
        escaped(style, seq![c] + w) == escaped_char(style, c) + escaped(style, w),
    decreases w.len(),
{
    let s = seq![c] + w;
    if w.len() == 0 {
        assert(s.drop_last() =~= seq![]);
        assert(escaped(style, seq![]) =~= seq![]);
        assert(escaped(style, s) =~= escaped_char(style, c) + escaped(style, w));
    } else {
        assert(s.drop_last() =~= seq![c] + w.drop_last());
        lemma_escaped_prepend(style, c, w.drop_last());
        assert(s.last() == w.last());
        assert(escaped(style, s) =~= escaped_char(style, c) + escaped(style, w));
    }
}

/// `c` followed by the text of `o`, where there is one.
pub open spec fn prepend(c: char, o: Option<Seq<char>>) -> Option<Seq<char>> {
    match o {
        Some(t) => Some(seq![c] + t),
        None => None,
    }
}

/// The value of the shell text `s` read outside quotes: a single quote opens a
/// quoted run, a backslash takes the next character as it is, any other
/// character stands for itself. Absent where a backslash ends the text or a
/// quoted run is not closed.
pub open spec fn shell_read(s: Seq<char>) -> Option<Seq<char>>
    decreases s.len(), 1int,
{
    if s.len() == 0 {
        Some(seq![])
    } else if s[0] == '\'' {
        shell_read_quoted(s.drop_first())
    } else if s[0] == '\\' {
        if s.len() < 2 {
            None
        } else {
            prepend(s[1], shell_read(s.skip(2)))
        }
    } else {
        prepend(s[0], shell_read(s.drop_first()))
    }
}

/// The value of the shell text `s` read inside a single-quoted run: every
/// character stands for itself up to the closing quote.
pub open spec fn shell_read_quoted(s: Seq<char>) -> Option<Seq<char>>
    decreases s.len(), 0int,
{
    if s.len() == 0 {
        None
    } else if s[0] == '\'' {
        shell_read(s.drop_first())
    } else {
        prepend(s[0], shell_read_quoted(s.drop_first()))
    }
}

proof fn lemma_shell_read_quoted(v: Seq<char>, rest: Seq<char>)
    ensures
        shell_read_quoted(escaped(EscapeStyle::Shell, v) + seq!['\''] + rest) == match shell_read(rest) {
            Some(r) => Some(v + r),
            None => None,
        },
    decreases v.len(),
{
    if v.len() == 0 {
        assert(escaped(EscapeStyle::Shell, v) =~= seq![]);
        let t = escaped(EscapeStyle::Shell, v) + seq!['\''] + rest;
        assert(t =~= seq!['\''] + rest);
        assert(t.drop_first() =~= rest);
        assert(v + seq![] =~= v);
        if let Some(r) = shell_read(rest) {
            assert(v + r =~= r);
        }
    } else {
        let c = v[0];
        let w = v.drop_first();
        assert(v =~= seq![c] + w);
        lemma_escaped_prepend(EscapeStyle::Shell, c, w);
        lemma_shell_read_quoted(w, rest);
        let tail = escaped(EscapeStyle::Shell, w) + seq!['\''] + rest;
        let t = escaped(EscapeStyle::Shell, v) + seq!['\''] + rest;
        if c == '\'' {
            assert(t =~= seq!['\'', '\\', '\'', '\''] + tail);
            assert(t.drop_first() =~= seq!['\\', '\'', '\''] + tail);
            assert(t.drop_first().skip(2) =~= seq!['\''] + tail);
            assert((seq!['\''] + tail).drop_first() =~= tail);
            assert(shell_read(seq!['\''] + tail) == shell_read_quoted(tail));
            assert(shell_read(t.drop_first()) == prepend('\'', shell_read(seq!['\''] + tail)));
            assert(shell_read_quoted(t) == shell_read(t.drop_first()));
            assert(shell_read_quoted(t) == prepend(c, shell_read_quoted(tail)));
        } else {
            assert(t =~= seq![c] + tail);
            assert(t.drop_first() =~= tail);
            assert(shell_read_quoted(t) == prepend(c, shell_read_quoted(tail)));
        }
        if let Some(r) = shell_read(rest) {
            assert(seq![c] + (w + r) =~= v + r);
        }
    }
}

/// A shell-quoted word reads back, in the shell, as exactly the value quoted:
/// whatever `value` holds, the scripts built with it pass it as one literal
/// word.
pub proof fn law_shell_quote_reads_back(value: Seq<char>)
    ensures
        shell_read(shell_quoted(value)) == Some(value),
{
    let t = shell_quoted(value);
    assert(t.drop_first() =~= escaped(EscapeStyle::Shell, value) + seq!['\''] + seq![]);
    lemma_shell_read_quoted(value, seq![]);
    assert(value + seq![] =~= value);
}

} // verus!

verus! {

/// The value of the text `s` read inside an AppleScript string literal, up to
/// its closing quote, which must end the text: a backslash followed by `\`,
/// `"`, `n`, `t` or `r` stands for a backslash, a quote, a line feed, a tab or a
/// carriage return; any other character stands for itself.
pub open spec fn applescript_read_inside(s: Seq<char>) -> Option<Seq<char>>
    decreases s.len(),
{
    if s.len() == 0 {
        None
    } else if s[0] == '"' {
        if s.len() == 1 {
            Some(seq![])
        } else {
            None
        }
    } else if s[0] == '\\' {
        if s.len() < 2 {
            None
        } else if s[1] == '\\' {
            prepend('\\', applescript_read_inside(s.skip(2)))
        } else if s[1] == '"' {
            prepend('"', applescript_read_inside(s.skip(2)))
        } else if s[1] == 'n' {
            prepend('\n', applescript_read_inside(s.skip(2)))
        } else if s[1] == 't' {
            prepend('\t', applescript_read_inside(s.skip(2)))
        } else if s[1] == 'r' {
            prepend('\r', applescript_read_inside(s.skip(2)))
        } else {
            None
        }
    } else {
        prepend(s[0], applescript_read_inside(s.drop_first()))
    }
}

/// The value of the AppleScript string literal `s`.
pub open spec fn applescript_read(s: Seq<char>) -> Option<Seq<char>> {
    if s.len() > 0 && s[0] == '"' {
        applescript_read_inside(s.drop_first())
    } else {
        None
    }
}

proof fn lemma_applescript_inside(v: Seq<char>)
    ensures
        applescript_read_inside(escaped(EscapeStyle::AppleScript, v) + seq!['"']) == Some(v),
    decreases v.len(),
{
    let t = escaped(EscapeStyle::AppleScript, v) + seq!['"'];
    if v.len() == 0 {
        assert(escaped(EscapeStyle::AppleScript, v) =~= seq![]);
        assert(t =~= seq!['"']);
        assert(v =~= seq![]);
    } else {
        let c = v[0];
        let w = v.drop_first();
        assert(v =~= seq![c] + w);
        lemma_escaped_prepend(EscapeStyle::AppleScript, c, w);
        lemma_applescript_inside(w);
        let tail = escaped(EscapeStyle::AppleScript, w) + seq!['"'];
        if c == '\\' || c == '"' {
            assert(t =~= seq!['\\', c] + tail);
            assert(t.skip(2) =~= tail);
        } else {
            assert(t =~= seq![c] + tail);
            assert(t.drop_first() =~= tail);
        }
        assert(applescript_read_inside(t) == prepend(c, applescript_read_inside(tail)));
        assert(seq![c] + w =~= v);
    }
}

/// An AppleScript-quoted text reads back, as an AppleScript string literal, as
/// exactly the value quoted.
pub proof fn law_applescript_quote_reads_back(value: Seq<char>)
    ensures
        applescript_read(applescript_quoted(value)) == Some(value),
{
    let t = applescript_quoted(value);
    assert(t.drop_first() =~= escaped(EscapeStyle::AppleScript, value) + seq!['"']);
    lemma_applescript_inside(value);
}

/// The value of the XML character data `s`: the entities `&amp;`, `&lt;`,
/// `&gt;`, `&quot;` and `&apos;` stand for their characters; any other `&`, and
/// any `<`, make it invalid; other characters stand for themselves.
pub open spec fn xml_read(s: Seq<char>) -> Option<Seq<char>>
    decreases s.len(),
{
    if s.len() == 0 {
        Some(seq![])
    } else if s[0] == '&' {
        if s.len() >= 5 && s.subrange(1, 5) == seq!['a', 'm', 'p', ';'] {
            prepend('&', xml_read(s.skip(5)))
        } else if s.len() >= 4 && s.subrange(1, 4) == seq!['l', 't', ';'] {
            prepend('<', xml_read(s.skip(4)))
        } else if s.len() >= 4 && s.subrange(1, 4) == seq!['g', 't', ';'] {
            prepend('>', xml_read(s.skip(4)))
        } else if s.len() >= 6 && s.subrange(1, 6) == seq!['q', 'u', 'o', 't', ';'] {
            prepend('"', xml_read(s.skip(6)))
        } else if s.len() >= 6 && s.subrange(1, 6) == seq!['a', 'p', 'o', 's', ';'] {
            prepend('\'', xml_read(s.skip(6)))
        } else {
            None
        }
    } else if s[0] == '<' {
        None
    } else {
        prepend(s[0], xml_read(s.drop_first()))
    }
}

/// Whether `t` holds the text `e` from position `i` on.
pub open spec fn stands_at(t: Seq<char>, i: int, e: Seq<char>) -> bool {
    0 <= i && i + e.len() <= t.len() && t.subrange(i, i + e.len()) == e
}

/// Whether one of the five XML entities `&amp;`, `&lt;`, `&gt;`, `&quot;` and
/// `&apos;` stands in `t` from position `i` on.
pub open spec fn entity_at(t: Seq<char>, i: int) -> bool {
    ||| stands_at(t, i, seq!['&', 'a', 'm', 'p', ';'])
    ||| stands_at(t, i, seq!['&', 'l', 't', ';'])
    ||| stands_at(t, i, seq!['&', 'g', 't', ';'])
    ||| stands_at(t, i, seq!['&', 'q', 'u', 'o', 't', ';'])
    ||| stands_at(t, i, seq!['&', 'a', 'p', 'o', 's', ';'])
}

proof fn lemma_stands_in_prefix(a: Seq<char>, b: Seq<char>, i: int, e: Seq<char>)
    ensures
        stands_at(a, i, e) ==> stands_at(a + b, i, e),
{
    if stands_at(a, i, e) {
        assert((a + b).subrange(i, i + e.len()) =~= a.subrange(i, i + e.len()));
    }
}

/// Every `&` in XML-escaped text begins one of the five entities: the escape
/// writes no `&` of the value as it is.
pub proof fn law_xml_escape_ampersands_begin_entities(value: Seq<char>)
    ensures
        forall|i: int|
            0 <= i < escaped(EscapeStyle::Xml, value).len() && #[trigger] escaped(EscapeStyle::Xml, value)[i] == '&'
                ==> entity_at(escaped(EscapeStyle::Xml, value), i),
    decreases value.len(),
{
    if value.len() > 0 {
        let a = escaped(EscapeStyle::Xml, value.drop_last());
        let b = escaped_char(EscapeStyle::Xml, value.last());
        let t = escaped(EscapeStyle::Xml, value);
        assert(t == a + b);
        law_xml_escape_ampersands_begin_entities(value.drop_last());
        assert forall|i: int| 0 <= i < t.len() && #[trigger] t[i] == '&' implies entity_at(t, i) by {
            if i < a.len() {
                assert(a[i] == t[i]);
                assert(entity_at(a, i));
                lemma_stands_in_prefix(a, b, i, seq!['&', 'a', 'm', 'p', ';']);
                lemma_stands_in_prefix(a, b, i, seq!['&', 'l', 't', ';']);
                lemma_stands_in_prefix(a, b, i, seq!['&', 'g', 't', ';']);
                lemma_stands_in_prefix(a, b, i, seq!['&', 'q', 'u', 'o', 't', ';']);
                lemma_stands_in_prefix(a, b, i, seq!['&', 'a', 'p', 'o', 's', ';']);
            } else {
                assert(t[i] == b[i - a.len()]);
                assert(t.subrange(a.len() as int, (a.len() + b.len()) as int) =~= b);
                let c = value.last();
                if c != '&' && c != '<' && c != '>' && c != '"' && c != '\'' {
                    assert(b[0] == c);
                } else {
                    assert(b[0] == '&');
                    assert(i == a.len());
                }
            }
        }
    }
}

/// XML-escaped text reads back, as XML character data, as exactly the value
/// escaped: the paths written into the launchd property list are taken as
/// they are.
pub proof fn law_xml_escape_reads_back(value: Seq<char>)
    ensures
        xml_read(escaped(EscapeStyle::Xml, value)) == Some(value),
    decreases value.len(),
{
    if value.len() == 0 {
        assert(escaped(EscapeStyle::Xml, value) =~= seq![]);
        assert(value =~= seq![]);
    } else {
        let c = value[0];
        let w = value.drop_first();
        assert(value =~= seq![c] + w);
        lemma_escaped_prepend(EscapeStyle::Xml, c, w);
        law_xml_escape_reads_back(w);
        let tail = escaped(EscapeStyle::Xml, w);
        let t = escaped(EscapeStyle::Xml, value);
        let e = escaped_char(EscapeStyle::Xml, c);
        assert(t =~= e + tail);
        assert(t.skip(e.len() as int) =~= tail);
        if c == '&' {
            assert(t.subrange(1, 5) =~= seq!['a', 'm', 'p', ';']);
        } else if c == '<' {
            assert(t.subrange(1, 4) =~= seq!['l', 't', ';']);
        } else if c == '>' {
            assert(t.subrange(1, 4) =~= seq!['g', 't', ';']);
        } else if c == '"' {
            assert(t.subrange(1, 6) =~= seq!['q', 'u', 'o', 't', ';']);
            assert(t.subrange(1, 4) != seq!['l', 't', ';']) by {
                assert(t.subrange(1, 4)[0] == 'q');
            }
            assert(t.subrange(1, 4) != seq!['g', 't', ';']) by {
                assert(t.subrange(1, 4)[0] == 'q');
            }
            assert(t.subrange(1, 5) != seq!['a', 'm', 'p', ';']) by {
                assert(t.subrange(1, 5)[0] == 'q');
            }
        } else if c == '\'' {
            assert(t.subrange(1, 6) =~= seq!['a', 'p', 'o', 's', ';']);
            assert(t.subrange(1, 4) != seq!['l', 't', ';']) by {
                assert(t.subrange(1, 4)[0] == 'a');
            }
            assert(t.subrange(1, 4) != seq!['g', 't', ';']) by {
                assert(t.subrange(1, 4)[0] == 'a');
            }
            assert(t.subrange(1, 5) != seq!['a', 'm', 'p', ';']) by {
                assert(t.subrange(1, 5)[2] == 'o');
            }
            assert(t.subrange(1, 6) != seq!['q', 'u', 'o', 't', ';']) by {
                assert(t.subrange(1, 6)[0] == 'a');
            }
        }
        assert(xml_read(t) == prepend(c, xml_read(tail)));
        assert(seq![c] + w =~= value);
    }
}

/// The message for a failed command is never empty.
pub proof fn law_failure_message_not_empty(stdout: Seq<char>, stderr: Seq<char>)
    ensures
        joined(stdout, stderr).len() > 0,
{
    reveal_strlit("Command failed without output.");
}

} // verus!
