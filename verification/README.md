# web_xml

Builds XML documents in memory with quick-xml and serves a sample one over HTTP.

- `src/markup.rs`: the XML text of each event (declaration, doctype, processing
  instruction, comment, CDATA, text, opening and closing tags), with escaping.
- `src/nesting.rs`: which elements a sequence of events leaves open; balance.
- `src/escaping.rs`: what escaped text and attribute values can never contain.
- `src/event.rs`: the events as plain strings, with their mathematical view.
- `src/sink.rs`: the quick-xml writer and the calls made on it.
- `src/document.rs`: `XmlDocument` and `XmlTag`; every operation keeps the
  document well nested (a tag writes only while it is the innermost open element),
  and `finish` closes what is open and returns the bytes.
- `src/demo.rs`: the sample document.
- `src/console.rs`: the decisions of the console tool that echoes standard input
  and pumps it through a child process.
- `src/sessions.rs`: the console loops over a whole input, and what they report
  and forward.
- `app/`: the HTTP service (actix-web) and the console tool (tokio).
