//! An XML document built in memory: elements are opened and closed in nesting order,
//! and the bytes written are those of the events recorded so far.
use crate::event::{attributes_view, XmlEvent};
use crate::markup::{events_markup, XmlEventSpec};
use crate::nesting::{
    balanced, closing_events, lemma_closing_events_balance, lemma_encode_utf8_concat,
    lemma_events_markup_concat, lemma_events_markup_push, lemma_open_elements_push, open_elements,
};
use crate::sink::{
    new_writer, write_event, writer_bytes, writer_indents, writer_into_bytes, writer_output,
};
use quick_xml::Writer;
use vstd::prelude::*;
use vstd::utf8::{encode_utf8, encode_utf8_valid_utf8, valid_utf8};

verus! {

/// What can go wrong while building a document.
#[derive(Debug, PartialEq, Eq)]
pub enum XmlError {
    /// A closing tag was asked for while no element was open.
    NoOpenElement,
}

/// Writes `event` to `writer`; writing into memory always succeeds.
fn emit(writer: &mut Writer<Vec<u8>>, event: &XmlEvent)
    requires
        !writer_indents(*old(writer)),
    ensures
        writer_output(*final(writer)) == writer_output(*old(writer)) + encode_utf8(event@.markup()),
        !writer_indents(*final(writer)),
{
    let written = write_event(writer, event);
    proof {
        assert(written is Ok);
    }
}

/// The declaration every document starts with:
/// `<?xml version="1.0" encoding="UTF-8" standalone="yes"?>`.
pub open spec fn standard_decl() -> XmlEventSpec {
    XmlEventSpec::Decl {
        version: "1.0"@,
        encoding: Some("UTF-8"@),
        standalone: Some("yes"@),
    }
}

/// The state of a document: the events written so far, the names of the elements
/// still open (outermost first), and the bytes written so far.
pub struct DocumentState {
    pub events: Seq<XmlEventSpec>,
    pub open: Seq<Seq<char>>,
    pub output: Seq<u8>,
}

/// The shape every document keeps: it starts with the declaration, and the elements
/// it holds open are exactly those its events leave open.
pub open spec fn well_nested(state: DocumentState) -> bool {
    &&& state.events.len() >= 1
    &&& state.events[0] == standard_decl()
    &&& open_elements(state.events.drop_first()) == Some(state.open)
}

/// A document keeps its shape, and its bytes are the UTF-8 encoding of its events.
pub open spec fn well_formed(state: DocumentState) -> bool {
    &&& well_nested(state)
    &&& state.output == encode_utf8(events_markup(state.events))
}

/// Whatever follows it, the bytes of a document begin with the bytes of its
/// declaration.
pub proof fn lemma_document_starts_with_declaration(events: Seq<XmlEventSpec>)
    requires
        events.len() >= 1,
        events[0] == standard_decl(),
    ensures
        encode_utf8(events_markup(events)).take(
            encode_utf8(standard_decl().markup()).len() as int,
        ) == encode_utf8(standard_decl().markup()),
{
    let head = seq![standard_decl()];
    let rest = events.drop_first();
    assert(events =~= head + rest);
    lemma_events_markup_concat(head, rest);
    assert(head.drop_last() =~= Seq::<XmlEventSpec>::empty());
    assert(events_markup(head.drop_last()) =~= Seq::<char>::empty());
    assert(events_markup(head) =~= standard_decl().markup());
    lemma_encode_utf8_concat(standard_decl().markup(), events_markup(rest));
    let d = encode_utf8(standard_decl().markup());
    assert((d + encode_utf8(events_markup(rest))).take(d.len() as int) =~= d);
}

/// An XML document being written into memory.
pub struct XmlDocument {
    writer: Writer<Vec<u8>>,
    open: Vec<String>,
    events: Ghost<Seq<XmlEventSpec>>,
}

impl View for XmlDocument {
    type V = DocumentState;

    closed spec fn view(&self) -> DocumentState {
        DocumentState {
            events: self.events@,
            open: self.open@.map_values(|t: String| t@),
            output: writer_output(self.writer),
        }
    }
}

impl XmlDocument {
    /// The document is `well_formed`, and its writer does not indent.
    pub closed spec fn wf(&self) -> bool {
        &&& well_formed(self@)
        &&& !writer_indents(self.writer)
    }

    /// A well-formed document has the shape of `well_formed`: its bytes are those of
    /// its events, which start with the declaration and leave open exactly its open
    /// elements.
    pub proof fn lemma_wf_well_formed(&self)
        requires
            self.wf(),
        ensures
            well_formed(self@),
    {
    }

    /// Creates a document and writes the declaration
    /// `<?xml version="1.0" encoding="UTF-8" standalone="yes"?>`.
    pub fn new() -> (doc: XmlDocument)
        ensures
            doc.wf(),
            doc@.events == seq![standard_decl()],
            doc@.open == Seq::<Seq<char>>::empty(),
    {
        let mut writer = new_writer();
        let decl = XmlEvent::Decl {
            version: "1.0".to_owned(),
            encoding: Some("UTF-8".to_owned()),
            standalone: Some("yes".to_owned()),
        };
        emit(&mut writer, &decl);
        let ghost events = seq![decl@];
        proof {
            assert(events.drop_last() =~= Seq::<XmlEventSpec>::empty());
            assert(events_markup(events.drop_last()) =~= Seq::<char>::empty());
            assert(events.last() == decl@);
            assert(events_markup(events) =~= decl@.markup());
            assert(events.drop_first() =~= Seq::<XmlEventSpec>::empty());
        }
        let doc = XmlDocument { writer, open: Vec::new(), events: Ghost(events) };
        proof {
            assert(doc@.open =~= Seq::<Seq<char>>::empty());
        }
        doc
    }

    /// The bytes written so far.
    pub fn as_bytes(&self) -> (bytes: &[u8])
        ensures
            bytes@ == self@.output,
    {
        writer_bytes(&self.writer).as_slice()
    }

    /// Records that `event` was appended after `events`, for the parts of the
    /// invariant that speak of the events.
    proof fn lemma_push_event(events: Seq<XmlEventSpec>, event: XmlEventSpec)
        requires
            events.len() >= 1,
        ensures
            events.push(event).drop_first() == events.drop_first().push(event),
            encode_utf8(events_markup(events.push(event))) == encode_utf8(events_markup(events))
                + encode_utf8(event.markup()),
            events.push(event)[0] == events[0],
    {
        assert(events.push(event).drop_first() =~= events.drop_first().push(event));
        lemma_events_markup_push(events, event);
        lemma_encode_utf8_concat(events_markup(events), event.markup());
    }

    /// Writes an event that neither opens nor closes an element.
    fn write_content(&mut self, event: XmlEvent) -> (r: &mut Self)
        requires
            old(self).wf(),
            !(event@ is Start),
            !(event@ is End),
        ensures
            r.wf(),
            r@.open == old(self)@.open,
            r@.events == old(self)@.events.push(event@),
            *final(self) == *final(r),
    {
        proof {
            Self::lemma_push_event(self.events@, event@);
            lemma_open_elements_push(self.events@.drop_first(), event@);
        }
        emit(&mut self.writer, &event);
        self.events = Ghost(self.events@.push(event@));
        self
    }

    /// Writes the opening tag of `tag_name` with `attributes` and records the element
    /// as the innermost open one.
    fn open_element(&mut self, tag_name: &str, attributes: Vec<(String, String)>)
        requires
            old(self).wf(),
        ensures
            final(self).wf(),
            final(self)@.events == old(self)@.events.push(
                XmlEventSpec::Start(tag_name@, attributes_view(attributes@)),
            ),
            final(self)@.open == old(self)@.open.push(tag_name@),
    {
        let ghost start = XmlEventSpec::Start(tag_name@, attributes_view(attributes@));
        proof {
            Self::lemma_push_event(self.events@, start);
            lemma_open_elements_push(self.events@.drop_first(), start);
        }
        let event = XmlEvent::Start { name: tag_name.to_owned(), attributes };
        emit(&mut self.writer, &event);
        self.events = Ghost(self.events@.push(start));
        let ghost before = self.open@;
        self.open.push(tag_name.to_owned());
        proof {
            assert(self.open@.map_values(|t: String| t@) =~= before.map_values(|t: String| t@).push(
                tag_name@,
            ));
        }
    }

    /// Writes the closing tag of the innermost open element and forgets it.
    fn close_innermost(&mut self)
        requires
            old(self).wf(),
            old(self)@.open.len() > 0,
        ensures
            final(self).wf(),
            final(self)@.events == old(self)@.events.push(XmlEventSpec::End(old(self)@.open.last())),
            final(self)@.open == old(self)@.open.drop_last(),
    {
        let ghost old_open = self.open@;
        let ghost end = XmlEventSpec::End(self@.open.last());
        let name = self.open.pop().unwrap();
        proof {
            assert(name@ == old(self)@.open.last());
            Self::lemma_push_event(self.events@, end);
            lemma_open_elements_push(self.events@.drop_first(), end);
            assert(self.open@.map_values(|t: String| t@) =~= old_open.map_values(|t: String| t@).drop_last());
        }
        emit(&mut self.writer, &XmlEvent::End(name));
        self.events = Ghost(self.events@.push(end));
    }

    /// Writes `<!DOCTYPE text>`, with `text` escaped.
    pub fn doctype(&mut self, text: &str) -> (r: &mut Self)
        requires
            old(self).wf(),
        ensures
            r.wf(),
            r@.open == old(self)@.open,
            r@.events == old(self)@.events.push(XmlEventSpec::DocType(text@)),
            *final(self) == *final(r),
    {
        self.write_content(XmlEvent::DocType(text.to_owned()))
    }

    /// Writes the processing instruction `<?text?>`, with `text` as given.
    pub fn pi(&mut self, text: &str) -> (r: &mut Self)
        requires
            old(self).wf(),
        ensures
            r.wf(),
            r@.open == old(self)@.open,
            r@.events == old(self)@.events.push(XmlEventSpec::PI(text@)),
            *final(self) == *final(r),
    {
        self.write_content(XmlEvent::PI(text.to_owned()))
    }

    /// Writes the comment `<!--text-->`, with `text` escaped.
    pub fn comment(&mut self, text: &str) -> (r: &mut Self)
        requires
            old(self).wf(),
        ensures
            r.wf(),
            r@.open == old(self)@.open,
            r@.events == old(self)@.events.push(XmlEventSpec::Comment(text@)),
            *final(self) == *final(r),
    {
        self.write_content(XmlEvent::Comment(text.to_owned()))
    }

    /// Writes the CDATA section `<![CDATA[text]]>`, with `text` as given.
    pub fn cdata(&mut self, text: &str) -> (r: &mut Self)
        requires
            old(self).wf(),
        ensures
            r.wf(),
            r@.open == old(self)@.open,
            r@.events == old(self)@.events.push(XmlEventSpec::CData(text@)),
            *final(self) == *final(r),
    {
        self.write_content(XmlEvent::CData(text.to_owned()))
    }

    /// Writes `text` as character data, escaped.
    pub fn text(&mut self, text: &str) -> (r: &mut Self)
        requires
            old(self).wf(),
        ensures
            r.wf(),
            r@.open == old(self)@.open,
            r@.events == old(self)@.events.push(XmlEventSpec::Text(text@)),
            *final(self) == *final(r),
    {
        self.write_content(XmlEvent::Text(text.to_owned()))
    }

    /// Opens the element `tag_name` inside the innermost open element.
    pub fn tag(&mut self, tag_name: &str) -> (r: &mut Self)
        requires
            old(self).wf(),
        ensures
            r.wf(),
            r@.events == old(self)@.events.push(XmlEventSpec::Start(tag_name@, Seq::empty())),
            r@.open == old(self)@.open.push(tag_name@),
            *final(self) == *final(r),
    {
        proof {
            assert(attributes_view(Seq::<(String, String)>::empty()) =~= Seq::empty());
        }
        self.open_element(tag_name, Vec::new());
        self
    }

    /// Opens the element `tag_name` with `attributes`, in order, inside the innermost
    /// open element; attribute values are escaped.
    pub fn tag_with_attrs(&mut self, tag_name: &str, attributes: Vec<(String, String)>) -> (r:
        &mut Self)
        requires
            old(self).wf(),
        ensures
            r.wf(),
            r@.events == old(self)@.events.push(
                XmlEventSpec::Start(tag_name@, attributes_view(attributes@)),
            ),
            r@.open == old(self)@.open.push(tag_name@),
            *final(self) == *final(r),
    {
        self.open_element(tag_name, attributes);
        self
    }

    /// Closes the innermost open element; refused when no element is open.
    pub fn end_tag(&mut self) -> (r: Result<(), XmlError>)
        requires
            old(self).wf(),
        ensures
            final(self).wf(),
            r is Err <==> old(self)@.open.len() == 0,
            r is Err ==> r == Err::<(), XmlError>(XmlError::NoOpenElement) && final(self)@
                == old(self)@,
            r is Ok ==> {
                &&& final(self)@.events == old(self)@.events.push(
                    XmlEventSpec::End(old(self)@.open.last()),
                )
                &&& final(self)@.open == old(self)@.open.drop_last()
            },
    {
        if self.open.len() == 0 {
            Err(XmlError::NoOpenElement)
        } else {
            self.close_innermost();
            Ok(())
        }
    }

    /// The number of open elements.
    pub fn depth(&self) -> (n: usize)
        ensures
            n == self@.open.len(),
    {
        self.open.len()
    }

    /// Closes the elements still open, innermost first, and hands back the bytes of
    /// the document: the UTF-8 encoding of all its events, in which every element is
    /// closed.
    pub fn finish(self) -> (bytes: Vec<u8>)
        requires
            self.wf(),
        ensures
            bytes@ == encode_utf8(events_markup(self@.events + closing_events(self@.open))),
            balanced((self@.events + closing_events(self@.open)).drop_first()),
            valid_utf8(bytes@),
    {
        let ghost all = self@.events + closing_events(self@.open);
        proof {
            lemma_closing_events_balance(self@.events.drop_first(), self@.open);
            assert(all.drop_first() =~= self@.events.drop_first() + closing_events(self@.open));
        }
        let mut doc = self;
        while doc.open.len() > 0
            invariant
                doc.wf(),
                doc@.events + closing_events(doc@.open) == all,
            decreases doc.open.len(),
        {
            let ghost events = doc@.events;
            let ghost open = doc@.open;
            let closed = doc.end_tag();
            proof {
                assert(closed is Ok);
                assert(events.push(XmlEventSpec::End(open.last())) + closing_events(
                    open.drop_last(),
                ) =~= events + closing_events(open));
            }
        }
        proof {
            assert(doc@.open =~= Seq::<Seq<char>>::empty());
            assert(closing_events(doc@.open) =~= Seq::<XmlEventSpec>::empty());
            assert(doc@.events =~= all);
            encode_utf8_valid_utf8(events_markup(all));
        }
        writer_into_bytes(doc.writer)
    }
}


/// An element whose opening tag has been written to a document and whose closing tag
/// has not. It can only write into its document while it is the innermost open
/// element there, and closing it writes the closing tag of that element.
pub struct XmlTag {
    tag_name: String,
    depth: Ghost<nat>,
}

impl View for XmlTag {
    type V = Seq<char>;

    closed spec fn view(&self) -> Seq<char> {
        self.tag_name@
    }
}

impl XmlTag {
    /// How many elements were open around this one when it was opened.
    pub closed spec fn depth(&self) -> nat {
        self.depth@
    }

    /// This element is the innermost open element of a document in `state`.
    pub open spec fn is_innermost(&self, state: DocumentState) -> bool {
        &&& state.open.len() == self.depth() + 1
        &&& state.open.last() == self@
    }

    /// Opens the element `tag_name` in `parent`, inside its innermost open element.
    pub fn new(parent: &mut XmlDocument, tag_name: &str) -> (tag: XmlTag)
        requires
            old(parent).wf(),
        ensures
            final(parent).wf(),
            tag@ == tag_name@,
            final(parent)@.events == old(parent)@.events.push(
                XmlEventSpec::Start(tag_name@, Seq::empty()),
            ),
            final(parent)@.open == old(parent)@.open.push(tag_name@),
            tag.is_innermost(final(parent)@),
    {
        proof {
            assert(attributes_view(Seq::<(String, String)>::empty()) =~= Seq::empty());
        }
        Self::new_with_attrs(parent, tag_name, Vec::new())
    }

    /// Opens the element `tag_name` with `attributes`, in order, in `parent`, inside
    /// its innermost open element; attribute values are escaped.
    pub fn new_with_attrs(
        parent: &mut XmlDocument,
        tag_name: &str,
        attributes: Vec<(String, String)>,
    ) -> (tag: XmlTag)
        requires
            old(parent).wf(),
        ensures
            final(parent).wf(),
            tag@ == tag_name@,
            final(parent)@.events == old(parent)@.events.push(
                XmlEventSpec::Start(tag_name@, attributes_view(attributes@)),
            ),
            final(parent)@.open == old(parent)@.open.push(tag_name@),
            tag.is_innermost(final(parent)@),
    {
        let ghost depth = parent@.open.len();
        parent.open_element(tag_name, attributes);
        XmlTag { tag_name: tag_name.to_owned(), depth: Ghost(depth) }
    }

    /// The name of the element.
    pub fn name(&self) -> (name: &str)
        ensures
            name@ == self@,
    {
        self.tag_name.as_str()
    }

    /// Writes the closing tag `</name>` of this element, the innermost open one, to
    /// `parent`; the element is used up.
    pub fn close(self, parent: &mut XmlDocument)
        requires
            old(parent).wf(),
            self.is_innermost(old(parent)@),
        ensures
            final(parent).wf(),
            final(parent)@.events == old(parent)@.events.push(XmlEventSpec::End(self@)),
            final(parent)@.open == old(parent)@.open.drop_last(),
    {
        parent.close_innermost();
    }

    /// Opens the child element `tag_name` of this element in `parent`.
    pub fn tag(&self, parent: &mut XmlDocument, tag_name: &str) -> (child: XmlTag)
        requires
            old(parent).wf(),
            self.is_innermost(old(parent)@),
        ensures
            final(parent).wf(),
            child@ == tag_name@,
            final(parent)@.events == old(parent)@.events.push(
                XmlEventSpec::Start(tag_name@, Seq::empty()),
            ),
            final(parent)@.open == old(parent)@.open.push(tag_name@),
            child.is_innermost(final(parent)@),
    {
        XmlTag::new(parent, tag_name)
    }

    /// Opens the child element `tag_name` with `attributes` of this element in `parent`.
    pub fn tag_with_attrs(
        &self,
        parent: &mut XmlDocument,
        tag_name: &str,
        attributes: Vec<(String, String)>,
    ) -> (child: XmlTag)
        requires
            old(parent).wf(),
            self.is_innermost(old(parent)@),
        ensures
            final(parent).wf(),
            child@ == tag_name@,
            final(parent)@.events == old(parent)@.events.push(
                XmlEventSpec::Start(tag_name@, attributes_view(attributes@)),
            ),
            final(parent)@.open == old(parent)@.open.push(tag_name@),
            child.is_innermost(final(parent)@),
    {
        XmlTag::new_with_attrs(parent, tag_name, attributes)
    }

    /// Writes `text`, escaped, inside this element.
    pub fn text(&self, parent: &mut XmlDocument, text: &str) -> (r: &Self)
        requires
            old(parent).wf(),
            self.is_innermost(old(parent)@),
        ensures
            r == self,
            final(parent).wf(),
            final(parent)@.events == old(parent)@.events.push(XmlEventSpec::Text(text@)),
            final(parent)@.open == old(parent)@.open,
    {
        parent.text(text);
        self
    }

    /// Writes the processing instruction `<?text?>` inside this element.
    pub fn pi(&self, parent: &mut XmlDocument, text: &str) -> (r: &Self)
        requires
            old(parent).wf(),
            self.is_innermost(old(parent)@),
        ensures
            r == self,
            final(parent).wf(),
            final(parent)@.events == old(parent)@.events.push(XmlEventSpec::PI(text@)),
            final(parent)@.open == old(parent)@.open,
    {
        parent.pi(text);
        self
    }

    /// Writes the CDATA section `<![CDATA[text]]>` inside this element.
    pub fn cdata(&self, parent: &mut XmlDocument, text: &str) -> (r: &Self)
        requires
            old(parent).wf(),
            self.is_innermost(old(parent)@),
        ensures
            r == self,
            final(parent).wf(),
            final(parent)@.events == old(parent)@.events.push(XmlEventSpec::CData(text@)),
            final(parent)@.open == old(parent)@.open,
    {
        parent.cdata(text);
        self
    }

    /// Writes the comment `<!--text-->`, escaped, inside this element.
    pub fn comment(&self, parent: &mut XmlDocument, text: &str) -> (r: &Self)
        requires
            old(parent).wf(),
            self.is_innermost(old(parent)@),
        ensures
            r == self,
            final(parent).wf(),
            final(parent)@.events == old(parent)@.events.push(XmlEventSpec::Comment(text@)),
            final(parent)@.open == old(parent)@.open,
    {
        parent.comment(text);
        self
    }
}

} // verus!
