//! The boundary to quick-xml: its writer, and the one call that writes an event.
use crate::event::XmlEvent;
use crate::event::XmlEvent::{CData, Comment, Decl, DocType, End, Start, Text, PI};
use quick_xml::events::{BytesCData, BytesDecl, BytesEnd, BytesPI, BytesStart, BytesText, Event};
use quick_xml::Writer;
use vstd::prelude::*;
use vstd::utf8::encode_utf8;

verus! {

#[verifier::external_type_specification]
#[verifier::external_body]
#[verifier::reject_recursive_types(W)]
pub struct ExWriter<W>(Writer<W>);

#[verifier::external_type_specification]
#[verifier::external_body]
pub struct ExIoError(std::io::Error);

/// The bytes that a quick-xml writer over a `Vec<u8>` holds.
pub uninterp spec fn writer_output(writer: Writer<Vec<u8>>) -> Seq<u8>;

/// Whether a quick-xml writer was made with indentation (`Writer::new_with_indent`);
/// such a writer puts line breaks and indentation before markup.
pub uninterp spec fn writer_indents(writer: Writer<Vec<u8>>) -> bool;

/// Calls `quick_xml::Writer::new` on an empty vector. The writer is created without
/// indentation and holds no bytes.
#[verifier::external_body]
pub fn new_writer() -> (writer: Writer<Vec<u8>>)
    ensures
        writer_output(writer) == Seq::<u8>::empty(),
        !writer_indents(writer),
{
    Writer::new(Vec::new())
}

/// Calls `quick_xml::Writer::into_inner`, which hands back the vector it wrote to.
#[verifier::external_body]
pub fn writer_into_bytes(writer: Writer<Vec<u8>>) -> (bytes: Vec<u8>)
    ensures
        bytes@ == writer_output(writer),
{
    writer.into_inner()
}

/// Calls `quick_xml::Writer::get_ref`, which lends out the vector written to.
#[verifier::external_body]
pub fn writer_bytes(writer: &Writer<Vec<u8>>) -> (bytes: &Vec<u8>)
    ensures
        bytes@ == writer_output(*writer),
{
    writer.get_ref()
}

/// Calls `quick_xml::Writer::write_event` on the quick-xml event that `event` stands
/// for, converting each kind of event into quick-xml's one for one. On a writer
/// without indentation the call appends the UTF-8 encoding of `event@.markup()` and
/// nothing else, and leaves the writer without indentation. It fails only when the
/// sink does, and appending to a `Vec<u8>` does not fail, so it succeeds.
#[verifier::external_body]
pub fn write_event(writer: &mut Writer<Vec<u8>>, event: &XmlEvent) -> (r: Result<(), std::io::Error>)
    requires
        !writer_indents(*old(writer)),
    ensures
        r is Ok,
        writer_output(*final(writer)) == writer_output(*old(writer)) + encode_utf8(
            event@.markup(),
        ),
        !writer_indents(*final(writer)),
{
    writer.write_event(match event {
        Decl { version, encoding, standalone } => Event::Decl(BytesDecl::new(version, encoding.as_deref(), standalone.as_deref())),
        DocType(t) => Event::DocType(BytesText::new(t)),
        PI(t) => Event::PI(BytesPI::new(t)),
        Comment(t) => Event::Comment(BytesText::new(t)),
        CData(t) => Event::CData(BytesCData::new(t)),
        Text(t) => Event::Text(BytesText::new(t)),
        Start { name, attributes } => Event::Start(BytesStart::new(name).with_attributes(attributes.iter().map(|(k, v)| (k.as_str(), v.as_str())))),
        End(name) => Event::End(BytesEnd::new(name)),
    })
}

} // verus!
