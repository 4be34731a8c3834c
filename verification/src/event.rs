//! Events as the library hands them to the XML writer.
use crate::markup::XmlEventSpec;
use vstd::prelude::*;

verus! {

/// One piece of an XML document, holding its text as plain strings.
pub enum XmlEvent {
    Decl { version: String, encoding: Option<String>, standalone: Option<String> },
    DocType(String),
    PI(String),
    Comment(String),
    CData(String),
    Text(String),
    Start { name: String, attributes: Vec<(String, String)> },
    End(String),
}

/// The mathematical value of a list of attributes.
pub open spec fn attributes_view(attributes: Seq<(String, String)>) -> Seq<(Seq<char>, Seq<char>)> {
    attributes.map_values(|a: (String, String)| (a.0@, a.1@))
}

/// The mathematical value of an optional string.
pub open spec fn option_view(s: Option<String>) -> Option<Seq<char>> {
    match s {
        Some(t) => Some(t@),
        None => None,
    }
}

impl View for XmlEvent {
    type V = XmlEventSpec;

    open spec fn view(&self) -> XmlEventSpec {
        match self {
            XmlEvent::Decl { version, encoding, standalone } => XmlEventSpec::Decl {
                version: version@,
                encoding: option_view(*encoding),
                standalone: option_view(*standalone),
            },
            XmlEvent::DocType(t) => XmlEventSpec::DocType(t@),
            XmlEvent::PI(t) => XmlEventSpec::PI(t@),
            XmlEvent::Comment(t) => XmlEventSpec::Comment(t@),
            XmlEvent::CData(t) => XmlEventSpec::CData(t@),
            XmlEvent::Text(t) => XmlEventSpec::Text(t@),
            XmlEvent::Start { name, attributes } => XmlEventSpec::Start(
                name@,
                attributes_view(attributes@),
            ),
            XmlEvent::End(name) => XmlEventSpec::End(name@),
        }
    }
}

} // verus!
