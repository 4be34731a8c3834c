//! The sample document that the web service answers `/test.xml` with.
use crate::document::{standard_decl, XmlDocument};
use crate::event::attributes_view;
use crate::markup::{events_markup, XmlEventSpec};
use crate::nesting::closing_events;
use vstd::prelude::*;
use vstd::utf8::encode_utf8;

verus! {

/// The events of the sample document, in the order they are written.
pub open spec fn test_events() -> Seq<XmlEventSpec> {
    seq![
        standard_decl(),
        XmlEventSpec::DocType("root"@),
        XmlEventSpec::PI("processing instruction"@),
        XmlEventSpec::Comment("This is a comment"@),
        XmlEventSpec::Start("root"@, Seq::empty()),
        XmlEventSpec::CData("This is a CDATA section"@),
        XmlEventSpec::Start("child"@, seq![("name"@, "value<5"@)]),
        XmlEventSpec::Text("This is a child element <with> attributes."@),
        XmlEventSpec::End("child"@),
        XmlEventSpec::End("root"@),
    ]
}

/// Builds the sample document: a doctype, a processing instruction and a comment,
/// then a `root` element holding a CDATA section and a `child` element with one
/// attribute and some text. The elements are closed when the document is finished.
pub fn test() -> (bytes: Vec<u8>)
    ensures
        bytes@ == encode_utf8(events_markup(test_events())),
{
    let mut doc = XmlDocument::new();
    doc.doctype("root").pi("processing instruction").comment("This is a comment");
    doc.tag("root").cdata("This is a CDATA section");
    let attributes = vec![("name".to_owned(), "value<5".to_owned())];
    proof {
        assert(attributes_view(attributes@) =~= seq![("name"@, "value<5"@)]);
    }
    doc.tag_with_attrs("child", attributes).text("This is a child element <with> attributes.");
    proof {
        let open = doc@.open;
        assert(open =~= seq!["root"@, "child"@]);
        assert(open.drop_last() =~= seq!["root"@]);
        assert(open.drop_last().drop_last() =~= Seq::<Seq<char>>::empty());
        reveal_with_fuel(closing_events, 3);
        assert(doc@.events + closing_events(open) =~= test_events());
    }
    doc.finish()
}

} // verus!
