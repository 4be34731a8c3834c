use web_xml::document::{XmlDocument, XmlError, XmlTag};

const DECL: &str = r#"<?xml version="1.0" encoding="UTF-8" standalone="yes"?>"#;

fn text_of(bytes: Vec<u8>) -> String {
    String::from_utf8(bytes).unwrap()
}

#[test]
fn sample_document_matches_expected_xml() {
    let bytes = web_xml::demo::test();
    let expected = [
        r#"<?xml version="1.0" encoding="UTF-8" standalone="yes"?>"#,
        "<!DOCTYPE root>",
        "<?processing instruction?>",
        "<!--This is a comment-->",
        "<root><![CDATA[This is a CDATA section]]>",
        r#"<child name="value&lt;5">This is a child element &lt;with&gt; attributes.</child>"#,
        "</root>",
    ]
    .join("");
    assert_eq!(text_of(bytes), expected);
}

#[test]
fn new_document_holds_only_the_declaration() {
    let doc = XmlDocument::new();
    assert_eq!(doc.depth(), 0);
    let bytes = doc.finish();
    assert_eq!(bytes.len(), 55);
    assert_eq!(text_of(bytes), DECL);
}

#[test]
fn methods_chain() {
    let mut doc = XmlDocument::new();
    doc.tag("root").text("Hello").text(" World").comment("Done");
    assert_eq!(
        text_of(doc.finish()),
        format!("{}<root>Hello World<!--Done--></root>", DECL)
    );
}

#[test]
fn finish_closes_open_elements_innermost_first() {
    let mut doc = XmlDocument::new();
    doc.tag("a").tag("b").tag("c");
    assert_eq!(doc.depth(), 3);
    let out = text_of(doc.finish());
    assert_eq!(out, format!("{}<a><b><c></c></b></a>", DECL));
}

#[test]
fn end_tag_closes_the_innermost_element() {
    let mut doc = XmlDocument::new();
    doc.tag("a").tag("b");
    assert_eq!(doc.end_tag(), Ok(()));
    assert_eq!(doc.depth(), 1);
    doc.tag("c").text("x");
    assert_eq!(doc.end_tag(), Ok(()));
    assert_eq!(doc.end_tag(), Ok(()));
    assert_eq!(doc.depth(), 0);
    let out = text_of(doc.finish());
    assert_eq!(out, format!("{}<a><b></b><c>x</c></a>", DECL));
}

#[test]
fn tag_then_end_tag_leaves_depth_unchanged() {
    let mut doc = XmlDocument::new();
    doc.tag("outer");
    let before = doc.depth();
    doc.tag("inner");
    doc.end_tag().unwrap();
    assert_eq!(doc.depth(), before);
}

#[test]
fn end_tag_without_open_element_is_refused() {
    let mut doc = XmlDocument::new();
    assert_eq!(doc.end_tag(), Err(XmlError::NoOpenElement));
    assert_eq!(text_of(doc.finish()), DECL);
}

#[test]
fn text_is_escaped() {
    let mut doc = XmlDocument::new();
    doc.text("a<b>&'\"\rc");
    let out = text_of(doc.finish());
    assert_eq!(out, format!("{}a&lt;b&gt;&amp;&apos;&quot;&#13;c", DECL));
}

#[test]
fn text_bytes_never_hold_angle_brackets() {
    let mut doc = XmlDocument::new();
    doc.text("<<>>< é ünïcödé >");
    let out = text_of(doc.finish());
    let body = &out[DECL.len()..];
    assert!(!body.contains('<'));
    assert!(!body.contains('>'));
}

#[test]
fn comment_and_doctype_are_escaped() {
    let mut doc = XmlDocument::new();
    doc.doctype("html <x>").comment("a<b");
    let out = text_of(doc.finish());
    assert_eq!(out, format!("{}<!DOCTYPE html &lt;x&gt;><!--a&lt;b-->", DECL));
}

#[test]
fn cdata_and_pi_are_written_as_given() {
    let mut doc = XmlDocument::new();
    doc.pi("xml-stylesheet href='style.css'");
    doc.tag("r").cdata("Raw <content> & more");
    let out = text_of(doc.finish());
    assert_eq!(
        out,
        format!(
            "{}<?xml-stylesheet href='style.css'?><r><![CDATA[Raw <content> & more]]></r>",
            DECL
        )
    );
}

#[test]
fn attribute_values_are_escaped_in_order() {
    let mut doc = XmlDocument::new();
    let attributes = vec![
        ("id".to_string(), "42".to_string()),
        ("note".to_string(), "a\"b<c>\n\t'".to_string()),
    ];
    doc.tag_with_attrs("item", attributes);
    let out = text_of(doc.finish());
    assert_eq!(
        out,
        format!(
            "{}<item id=\"42\" note=\"a&quot;b&lt;c&gt;&#10;&#9;&apos;\"></item>",
            DECL
        )
    );
}

#[test]
fn non_ascii_text_is_written_as_utf8() {
    let mut doc = XmlDocument::new();
    doc.tag("t").text("黑风雷 👨");
    let out = text_of(doc.finish());
    assert_eq!(out, format!("{}<t>黑风雷 👨</t>", DECL));
}

#[test]
fn xml_tag_writes_into_its_document() {
    let mut doc = XmlDocument::new();
    let root = XmlTag::new(&mut doc, "root");
    assert_eq!(root.name(), "root");
    let child = root.tag_with_attrs(
        &mut doc,
        "child",
        vec![("name".to_string(), "value<5".to_string())],
    );
    child.text(&mut doc, "a<b").comment(&mut doc, "c");
    child.close(&mut doc);
    root.cdata(&mut doc, "x<y").pi(&mut doc, "p");
    root.close(&mut doc);
    assert_eq!(doc.depth(), 0);
    let out = text_of(doc.finish());
    assert_eq!(
        out,
        format!(
            "{}<root><child name=\"value&lt;5\">a&lt;b<!--c--></child><![CDATA[x<y]]><?p?></root>",
            DECL
        )
    );
}

#[test]
fn xml_tag_new_writes_only_the_start_tag() {
    let mut doc = XmlDocument::new();
    let tag = XmlTag::new(&mut doc, "element");
    assert_eq!(doc.as_bytes(), format!("{}<element>", DECL).as_bytes());
    tag.close(&mut doc);
    assert_eq!(doc.as_bytes(), format!("{}<element></element>", DECL).as_bytes());
}

#[test]
fn xml_tag_with_attributes_in_order() {
    let mut doc = XmlDocument::new();
    let attrs = vec![
        ("id".to_string(), "42".to_string()),
        ("class".to_string(), "item".to_string()),
    ];
    let tag = XmlTag::new_with_attrs(&mut doc, "div", attrs);
    assert_eq!(
        doc.as_bytes(),
        format!("{}<div id=\"42\" class=\"item\">", DECL).as_bytes()
    );
    tag.close(&mut doc);
}

#[test]
fn xml_tag_without_attributes_equals_plain_tag() {
    let mut d1 = XmlDocument::new();
    let mut d2 = XmlDocument::new();
    let t1 = XmlTag::new_with_attrs(&mut d1, "n", Vec::new());
    let t2 = XmlTag::new(&mut d2, "n");
    t1.close(&mut d1);
    t2.close(&mut d2);
    assert_eq!(d1.finish(), d2.finish());
}

#[test]
fn tags_left_open_are_closed_by_finish() {
    let mut doc = XmlDocument::new();
    let outer = XmlTag::new(&mut doc, "outer");
    let _inner = outer.tag(&mut doc, "inner");
    assert_eq!(
        text_of(doc.finish()),
        format!("{}<outer><inner></inner></outer>", DECL)
    );
}

#[test]
fn as_bytes_shows_the_bytes_so_far() {
    let mut doc = XmlDocument::new();
    assert_eq!(doc.as_bytes(), DECL.as_bytes());
    doc.tag("a").text("b");
    assert_eq!(doc.as_bytes(), format!("{}<a>b", DECL).as_bytes());
}
