//! HTML text: escaping of text and attribute values, and the building blocks of markup.
use vstd::prelude::*;

verus! {

/// How one character of text is written in HTML.
pub open spec fn text_char(c: char) -> Seq<char> {
    if c == '&' {
        "&amp;"@
    } else if c == '<' {
        "&lt;"@
    } else if c == '>' {
        "&gt;"@
    } else {
        seq![c]
    }
}

/// A text as written in HTML: `&`, `<` and `>` become character references.
pub open spec fn escaped_text(s: Seq<char>) -> Seq<char>
    decreases s.len(),
{
    if s.len() == 0 {
        Seq::empty()
    } else {
        escaped_text(s.drop_last()) + text_char(s.last())
    }
}

/// How one character of a double-quoted attribute value is written in HTML.
pub open spec fn attr_char(c: char) -> Seq<char> {
    if c == '&' {
        "&amp;"@
    } else if c == '"' {
        "&quot;"@
    } else if c == '<' {
        "&lt;"@
    } else if c == '>' {
        "&gt;"@
    } else {
        seq![c]
    }
}

/// A double-quoted attribute value as written in HTML: `&`, `"`, `<` and `>` become
/// character references.
pub open spec fn escaped_attr(s: Seq<char>) -> Seq<char>
    decreases s.len(),
{
    if s.len() == 0 {
        Seq::empty()
    } else {
        escaped_attr(s.drop_last()) + attr_char(s.last())
    }
}

/// Appends a text to markup, escaped.
pub fn push_text(buf: &mut String, s: &str)
    ensures
        final(buf)@ == old(buf)@ + escaped_text(s@),
{
    let ghost start = buf@;
    for ch in it: s.chars()
        invariant
            it.seq() == s@,
            buf@ == start + escaped_text(s@.take(it.index() as int)),
    {
        proof {
            let i = it.index() as int;
            assert(s@.take(i + 1).drop_last() =~= s@.take(i));
        }
        if ch == '&' {
            buf.append("&amp;");
        } else if ch == '<' {
            buf.append("&lt;");
        } else if ch == '>' {
            buf.append("&gt;");
        } else {
            crate::text::push_char(buf, ch);
        }
        proof {
            let i = it.index() as int;
            assert(buf@ =~= start + escaped_text(s@.take(i + 1)));
        }
    }
    proof {
        assert(s@.take(s@.len() as int) =~= s@);
    }
}

/// Appends an attribute value to markup, escaped.
pub fn push_attr(buf: &mut String, s: &str)
    ensures
        final(buf)@ == old(buf)@ + escaped_attr(s@),
{
    let ghost start = buf@;
    for ch in it: s.chars()
        invariant
            it.seq() == s@,
            buf@ == start + escaped_attr(s@.take(it.index() as int)),
    {
        proof {
            let i = it.index() as int;
            assert(s@.take(i + 1).drop_last() =~= s@.take(i));
        }
        if ch == '&' {
            buf.append("&amp;");
        } else if ch == '"' {
            buf.append("&quot;");
        } else if ch == '<' {
            buf.append("&lt;");
        } else if ch == '>' {
            buf.append("&gt;");
        } else {
            crate::text::push_char(buf, ch);
        }
        proof {
            let i = it.index() as int;
            assert(buf@ =~= start + escaped_attr(s@.take(i + 1)));
        }
    }
    proof {
        assert(s@.take(s@.len() as int) =~= s@);
    }
}

/// A text, escaped for HTML.
pub fn escape_text(s: &str) -> (r: String)
    ensures
        r@ == escaped_text(s@),
{
    let mut buf = String::new();
    push_text(&mut buf, s);
    buf
}

/// Escaped text holds no angle bracket: no text can open or close a tag.
pub proof fn lemma_escaped_text_has_no_tags(s: Seq<char>)
    ensures
        forall|i: int| 0 <= i < escaped_text(s).len() ==> #[trigger] escaped_text(s)[i] != '<' && escaped_text(s)[i] != '>',
    decreases s.len(),
{
    if s.len() > 0 {
        lemma_escaped_text_has_no_tags(s.drop_last());
        reveal_strlit("&amp;");
        reveal_strlit("&lt;");
        reveal_strlit("&gt;");
        let p = escaped_text(s.drop_last());
        let t = text_char(s.last());
        assert forall|i: int| 0 <= i < escaped_text(s).len() implies #[trigger] escaped_text(s)[i] != '<'
            && escaped_text(s)[i] != '>' by {
            if i >= p.len() {
                assert(escaped_text(s)[i] == t[i - p.len()]);
            } else {
                assert(escaped_text(s)[i] == p[i]);
            }
        }
    }
}

/// An escaped attribute value holds no double quote: no value can end its attribute.
pub proof fn lemma_escaped_attr_has_no_quote(s: Seq<char>)
    ensures
        forall|i: int| 0 <= i < escaped_attr(s).len() ==> #[trigger] escaped_attr(s)[i] != '"',
    decreases s.len(),
{
    if s.len() > 0 {
        lemma_escaped_attr_has_no_quote(s.drop_last());
        reveal_strlit("&amp;");
        reveal_strlit("&quot;");
        reveal_strlit("&lt;");
        reveal_strlit("&gt;");
        let p = escaped_attr(s.drop_last());
        let t = attr_char(s.last());
        assert forall|i: int| 0 <= i < escaped_attr(s).len() implies #[trigger] escaped_attr(s)[i] != '"' by {
            if i >= p.len() {
                assert(escaped_attr(s)[i] == t[i - p.len()]);
            } else {
                assert(escaped_attr(s)[i] == p[i]);
            }
        }
    }
}

} // verus!
