//! The XML text that each kind of event stands for, as a sequence of characters.
//!
//! These functions describe what a non-indenting quick-xml writer emits for each
//! event; the emitted bytes are the UTF-8 encoding of this text.
use vstd::prelude::*;

verus! {

/// An XML event as a mathematical value.
pub enum XmlEventSpec {
    /// `<?xml version=".." encoding=".." standalone=".."?>`
    Decl { version: Seq<char>, encoding: Option<Seq<char>>, standalone: Option<Seq<char>> },
    /// `<!DOCTYPE ..>`, content escaped
    DocType(Seq<char>),
    /// `<?..?>`, content as given
    PI(Seq<char>),
    /// `<!--..-->`, content escaped
    Comment(Seq<char>),
    /// `<![CDATA[..]]>`, content as given
    CData(Seq<char>),
    /// character data, escaped
    Text(Seq<char>),
    /// an opening tag with its name and its attributes, in order
    Start(Seq<char>, Seq<(Seq<char>, Seq<char>)>),
    /// a closing tag
    End(Seq<char>),
}

/// The replacement of one character in escaped text: `<`, `>`, `&`, `'`, `"` and
/// carriage return become character references, anything else stays.
pub open spec fn escape_char(c: char) -> Seq<char> {
    if c == '<' {
        "&lt;"@
    } else if c == '>' {
        "&gt;"@
    } else if c == '&' {
        "&amp;"@
    } else if c == '\'' {
        "&apos;"@
    } else if c == '"' {
        "&quot;"@
    } else if c == '\r' {
        "&#13;"@
    } else {
        seq![c]
    }
}

/// Escaped text: every character replaced by `escape_char`.
pub open spec fn escape(s: Seq<char>) -> Seq<char>
    decreases s.len(),
{
    if s.len() == 0 {
        Seq::empty()
    } else {
        escape(s.drop_last()) + escape_char(s.last())
    }
}

/// The replacement of one character in an attribute value: as in text, and
/// besides newline and tab become character references.
pub open spec fn escape_attribute_char(c: char) -> Seq<char> {
    if c == '\n' {
        "&#10;"@
    } else if c == '\t' {
        "&#9;"@
    } else {
        escape_char(c)
    }
}

/// An escaped attribute value.
pub open spec fn escape_attribute(s: Seq<char>) -> Seq<char>
    decreases s.len(),
{
    if s.len() == 0 {
        Seq::empty()
    } else {
        escape_attribute(s.drop_last()) + escape_attribute_char(s.last())
    }
}

/// The attributes of an opening tag: each one as ` key="escaped value"`.
pub open spec fn attributes_markup(attributes: Seq<(Seq<char>, Seq<char>)>) -> Seq<char>
    decreases attributes.len(),
{
    if attributes.len() == 0 {
        Seq::empty()
    } else {
        let (key, value) = attributes.last();
        attributes_markup(attributes.drop_last()) + " "@ + key + "=\""@ + escape_attribute(value)
            + "\""@
    }
}

/// The body of an XML declaration, between `<?` and `?>`.
pub open spec fn decl_content(
    version: Seq<char>,
    encoding: Option<Seq<char>>,
    standalone: Option<Seq<char>>,
) -> Seq<char> {
    let with_encoding = match encoding {
        Some(e) => "xml version=\""@ + version + "\" encoding=\""@ + e,
        None => "xml version=\""@ + version,
    };
    let with_standalone = match standalone {
        Some(s) => with_encoding + "\" standalone=\""@ + s,
        None => with_encoding,
    };
    with_standalone + "\""@
}

impl XmlEventSpec {
    /// The XML text written for this event.
    pub open spec fn markup(self) -> Seq<char> {
        match self {
            XmlEventSpec::Decl { version, encoding, standalone } => "<?"@ + decl_content(
                version,
                encoding,
                standalone,
            ) + "?>"@,
            XmlEventSpec::DocType(t) => "<!DOCTYPE "@ + escape(t) + ">"@,
            XmlEventSpec::PI(t) => "<?"@ + t + "?>"@,
            XmlEventSpec::Comment(t) => "<!--"@ + escape(t) + "-->"@,
            XmlEventSpec::CData(t) => "<![CDATA["@ + t + "]]>"@,
            XmlEventSpec::Text(t) => escape(t),
            XmlEventSpec::Start(name, attributes) => "<"@ + name + attributes_markup(attributes)
                + ">"@,
            XmlEventSpec::End(name) => "</"@ + name + ">"@,
        }
    }
}

/// The XML text of a sequence of events written one after the other.
pub open spec fn events_markup(events: Seq<XmlEventSpec>) -> Seq<char>
    decreases events.len(),
{
    if events.len() == 0 {
        Seq::empty()
    } else {
        events_markup(events.drop_last()) + events.last().markup()
    }
}

/// A CDATA section holds its content verbatim, unescaped, between `<![CDATA[` and `]]>`.
pub proof fn lemma_cdata_markup_holds_content_verbatim(t: Seq<char>)
    ensures
        XmlEventSpec::CData(t).markup().len() == t.len() + 12,
        XmlEventSpec::CData(t).markup().subrange(9, 9 + t.len() as int) == t,
{
    reveal_strlit("<![CDATA[");
    reveal_strlit("]]>");
    assert(XmlEventSpec::CData(t).markup().subrange(9, 9 + t.len() as int) =~= t);
}

} // verus!
