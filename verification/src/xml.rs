//! A small model of the XML wire format: a document is a sequence of events
//! (start tags with attributes, end tags, self-closing tags, text), and
//! `render` gives the exact character sequence an event sequence is written
//! as, with the five XML special characters escaped in text and attribute
//! values. The verified writers append the rendering of events to a string.
use vstd::prelude::*;
use vstd::string::StrSliceExecFns;
use vstd::string::StringExecFns;

verus! {

/// One attribute of an element.
pub struct Attr {
    pub name: Seq<char>,
    pub value: Seq<char>,
}

/// One event of an XML document.
pub enum XmlEvent {
    /// `<name a="v"...>`
    Start { name: Seq<char>, attrs: Seq<Attr> },
    /// `</name>`
    End { name: Seq<char> },
    /// `<name a="v".../>`
    EmptyElem { name: Seq<char>, attrs: Seq<Attr> },
    /// Escaped character data.
    Text { text: Seq<char> },
}

/// How one character is written inside text or an attribute value.
pub open spec fn esc_char(c: char) -> Seq<char> {
    if c == '&' {
        "&amp;"@
    } else if c == '<' {
        "&lt;"@
    } else if c == '>' {
        "&gt;"@
    } else if c == '"' {
        "&quot;"@
    } else if c == '\'' {
        "&apos;"@
    } else {
        seq![c]
    }
}

/// The escaped form of a character sequence.
pub open spec fn spec_escape(s: Seq<char>) -> Seq<char>
    decreases s.len(),
{
    if s.len() == 0 {
        Seq::empty()
    } else {
        spec_escape(s.drop_last()) + esc_char(s.last())
    }
}

pub open spec fn render_attr(a: Attr) -> Seq<char> {
    " "@ + a.name + "=\""@ + spec_escape(a.value) + "\""@
}

pub open spec fn render_attrs(attrs: Seq<Attr>) -> Seq<char>
    decreases attrs.len(),
{
    if attrs.len() == 0 {
        Seq::empty()
    } else {
        render_attrs(attrs.drop_last()) + render_attr(attrs.last())
    }
}

pub open spec fn render_event(e: XmlEvent) -> Seq<char> {
    match e {
        XmlEvent::Start { name, attrs } => "<"@ + name + render_attrs(attrs) + ">"@,
        XmlEvent::End { name } => "</"@ + name + ">"@,
        XmlEvent::EmptyElem { name, attrs } => "<"@ + name + render_attrs(attrs) + "/>"@,
        XmlEvent::Text { text } => spec_escape(text),
    }
}

/// The exact character sequence an event sequence is written as.
pub open spec fn render(events: Seq<XmlEvent>) -> Seq<char>
    decreases events.len(),
{
    if events.len() == 0 {
        Seq::empty()
    } else {
        render(events.drop_last()) + render_event(events.last())
    }
}

pub broadcast proof fn lemma_render_concat(a: Seq<XmlEvent>, b: Seq<XmlEvent>)
    ensures
        #[trigger] render(a + b) == render(a) + render(b),
    decreases b.len(),
{
    if b.len() == 0 {
        assert(a + b =~= a);
        assert(render(a) + render(b) =~= render(a));
    } else {
        lemma_render_concat(a, b.drop_last());
        assert((a + b).drop_last() =~= a + b.drop_last());
        assert((a + b).last() == b.last());
        let ra = render(a);
        let rb = render(b.drop_last());
        let re = render_event(b.last());
        assert(ra + rb + re =~= ra + (rb + re));
    }
}

pub broadcast proof fn lemma_render_one(e: XmlEvent)
    ensures
        #[trigger] render(seq![e]) == render_event(e),
{
    assert(seq![e].len() == 1);
    assert(seq![e].last() == e);
    assert(seq![e].drop_last() =~= Seq::<XmlEvent>::empty());
    assert(render(seq![e].drop_last()) == Seq::<char>::empty());
    assert(Seq::<char>::empty() + render_event(e) =~= render_event(e));
}

/// An event opens an element of the given name, as a start tag or a
/// self-closing tag.
pub open spec fn elem_named(e: XmlEvent, name: Seq<char>) -> bool {
    match e {
        XmlEvent::Start { name: n, .. } => n == name,
        XmlEvent::EmptyElem { name: n, .. } => n == name,
        _ => false,
    }
}

/// No event of the sequence opens an element of the given name.
pub open spec fn no_elem_named(events: Seq<XmlEvent>, name: Seq<char>) -> bool {
    forall|i: int| 0 <= i < events.len() ==> !elem_named(#[trigger] events[i], name)
}

pub broadcast proof fn lemma_no_elem_named_concat(a: Seq<XmlEvent>, b: Seq<XmlEvent>, name: Seq<char>)
    ensures
        #[trigger] no_elem_named(a + b, name) <==> no_elem_named(a, name) && no_elem_named(b, name),
{
    if no_elem_named(a + b, name) {
        assert forall|i: int| 0 <= i < a.len() implies !elem_named(a[i], name) by {
            assert((a + b)[i] == a[i]);
        }
        assert forall|i: int| 0 <= i < b.len() implies !elem_named(b[i], name) by {
            assert((a + b)[a.len() + i] == b[i]);
        }
    }
    if no_elem_named(a, name) && no_elem_named(b, name) {
        assert forall|i: int| 0 <= i < (a + b).len() implies !elem_named((a + b)[i], name) by {
            if i < a.len() {
                assert((a + b)[i] == a[i]);
            } else {
                assert((a + b)[i] == b[i - a.len()]);
            }
        }
    }
}

/// Relies on std's String::push: appends exactly one character.
pub assume_specification[ String::push ](s: &mut String, c: char)
    ensures
        final(s)@ == old(s)@ + seq![c],
;

/// Appends the escaped form of `s` to `out`.
pub fn write_escaped(out: &mut String, s: &str)
    ensures
        final(out)@ == old(out)@ + spec_escape(s@),
{
    let n = s.unicode_len();
    let mut i: usize = 0;
    while i < n
        invariant
            i <= n,
            n == s@.len(),
            out@ == old(out)@ + spec_escape(s@.subrange(0, i as int)),
        decreases n - i,
    {
        let c = s.get_char(i);
        if c == '&' {
            out.append("&amp;");
        } else if c == '<' {
            out.append("&lt;");
        } else if c == '>' {
            out.append("&gt;");
        } else if c == '"' {
            out.append("&quot;");
        } else if c == '\'' {
            out.append("&apos;");
        } else {
            out.push(c);
        }
        proof {
            let pre = s@.subrange(0, i + 1);
            assert(pre.drop_last() =~= s@.subrange(0, i as int));
            assert(pre.last() == s@[i as int]);
            assert(out@ =~= old(out)@ + spec_escape(pre));
        }
        i += 1;
    }
    proof {
        assert(s@.subrange(0, n as int) =~= s@);
    }
}

/// The `Attr` sequence named by an attribute list of name/value string pairs.
pub open spec fn attrs_view(attrs: Seq<(&str, &str)>) -> Seq<Attr> {
    attrs.map_values(|p: (&str, &str)| Attr { name: p.0@, value: p.1@ })
}

/// The event of one tag: self-closing or a start tag.
pub open spec fn tag_event(name: Seq<char>, attrs: Seq<Attr>, self_close: bool) -> XmlEvent {
    if self_close {
        XmlEvent::EmptyElem { name, attrs }
    } else {
        XmlEvent::Start { name, attrs }
    }
}

/// Writes `<name a="v"...>` or `<name a="v".../>`, values escaped.
pub fn write_tag(out: &mut String, name: &str, attrs: &Vec<(&str, &str)>, self_close: bool)
    ensures
        final(out)@ == old(out)@ + render_event(tag_event(name@, attrs_view(attrs@), self_close)),
{
    out.append("<");
    out.append(name);
    let mut i: usize = 0;
    while i < attrs.len()
        invariant
            i <= attrs.len(),
            out@ == old(out)@ + "<"@ + name@ + render_attrs(attrs_view(attrs@).subrange(0, i as int)),
        decreases attrs.len() - i,
    {
        let (an, av) = attrs[i];
        out.append(" ");
        out.append(an);
        out.append("=\"");
        write_escaped(out, av);
        out.append("\"");
        proof {
            let avs = attrs_view(attrs@);
            assert(avs.subrange(0, i + 1).drop_last() =~= avs.subrange(0, i as int));
            assert(avs.subrange(0, i + 1).last() == avs[i as int]);
            assert(avs[i as int] == (Attr { name: an@, value: av@ }));
            assert(out@ =~= old(out)@ + "<"@ + name@ + render_attrs(avs.subrange(0, i + 1)));
        }
        i += 1;
    }
    proof {
        let avs = attrs_view(attrs@);
        assert(avs.subrange(0, avs.len() as int) =~= avs);
    }
    if self_close {
        out.append("/>");
        proof {
            assert(out@ =~= old(out)@ + render_event(
                tag_event(name@, attrs_view(attrs@), self_close),
            ));
        }
    } else {
        out.append(">");
        proof {
            assert(out@ =~= old(out)@ + render_event(
                tag_event(name@, attrs_view(attrs@), self_close),
            ));
        }
    }
}

/// Writes `</name>`.
pub fn write_end(out: &mut String, name: &str)
    ensures
        final(out)@ == old(out)@ + render_event(XmlEvent::End { name: name@ }),
{
    out.append("</");
    out.append(name);
    out.append(">");
    proof {
        assert(out@ =~= old(out)@ + render_event(XmlEvent::End { name: name@ }));
    }
}

/// The events of `<name>text</name>`.
pub open spec fn events_text_elem(name: Seq<char>, text: Seq<char>) -> Seq<XmlEvent> {
    seq![
        XmlEvent::Start { name, attrs: Seq::empty() },
        XmlEvent::Text { text },
        XmlEvent::End { name },
    ]
}

/// Writes `<name>text</name>`, text escaped.
pub fn write_text_elem(out: &mut String, name: &str, text: &str)
    ensures
        final(out)@ == old(out)@ + render(events_text_elem(name@, text@)),
{
    out.append("<");
    out.append(name);
    out.append(">");
    write_escaped(out, text);
    write_end(out, name);
    proof {
        let st = XmlEvent::Start { name: name@, attrs: Seq::empty() };
        let tx = XmlEvent::Text { text: text@ };
        let en = XmlEvent::End { name: name@ };
        let evs = events_text_elem(name@, text@);
        assert(evs =~= seq![st] + seq![tx] + seq![en]);
        lemma_render_concat(seq![st] + seq![tx], seq![en]);
        lemma_render_concat(seq![st], seq![tx]);
        lemma_render_one(st);
        lemma_render_one(tx);
        lemma_render_one(en);
        lemma_render_one(XmlEvent::End { name: name@ });
        assert(render_event(st) =~= "<"@ + name@ + ">"@);
        assert(out@ =~= old(out)@ + render(evs));
    }
}

} // verus!
