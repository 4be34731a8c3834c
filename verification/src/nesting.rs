//! How elements nest: which elements a sequence of events leaves open, and the
//! facts about that model that the document relies on.
use crate::markup::{events_markup, XmlEventSpec};
use vstd::prelude::*;
use vstd::utf8::encode_utf8;

verus! {

/// The names of the elements that `events` leaves open, outermost first, or `None`
/// when some closing tag does not name the innermost open element.
pub open spec fn open_elements(events: Seq<XmlEventSpec>) -> Option<Seq<Seq<char>>>
    decreases events.len(),
{
    if events.len() == 0 {
        Some(Seq::empty())
    } else {
        match open_elements(events.drop_last()) {
            None => None,
            Some(open) => match events.last() {
                XmlEventSpec::Start(name, _) => Some(open.push(name)),
                XmlEventSpec::End(name) => if open.len() > 0 && open.last() == name {
                    Some(open.drop_last())
                } else {
                    None
                },
                _ => Some(open),
            },
        }
    }
}

/// Every opening tag in `events` is closed, innermost first.
pub open spec fn balanced(events: Seq<XmlEventSpec>) -> bool {
    open_elements(events) == Some(Seq::<Seq<char>>::empty())
}

/// The closing tags for the elements in `open`, innermost first.
pub open spec fn closing_events(open: Seq<Seq<char>>) -> Seq<XmlEventSpec>
    decreases open.len(),
{
    if open.len() == 0 {
        Seq::empty()
    } else {
        seq![XmlEventSpec::End(open.last())] + closing_events(open.drop_last())
    }
}

/// Appending one event to a sequence of events steps the open elements by that event.
pub proof fn lemma_open_elements_push(events: Seq<XmlEventSpec>, event: XmlEventSpec)
    ensures
        open_elements(events.push(event)) == match open_elements(events) {
            None => None,
            Some(open) => match event {
                XmlEventSpec::Start(name, _) => Some(open.push(name)),
                XmlEventSpec::End(name) => if open.len() > 0 && open.last() == name {
                    Some(open.drop_last())
                } else {
                    None
                },
                _ => Some(open),
            },
        },
{
    assert(events.push(event).drop_last() =~= events);
}

/// Appending one event to a sequence of events appends its markup.
pub proof fn lemma_events_markup_push(events: Seq<XmlEventSpec>, event: XmlEventSpec)
    ensures
        events_markup(events.push(event)) == events_markup(events) + event.markup(),
{
    assert(events.push(event).drop_last() =~= events);
}

/// The markup of two sequences of events written one after the other.
pub proof fn lemma_events_markup_concat(a: Seq<XmlEventSpec>, b: Seq<XmlEventSpec>)
    ensures
        events_markup(a + b) == events_markup(a) + events_markup(b),
    decreases b.len(),
{
    if b.len() == 0 {
        assert(a + b =~= a);
        assert(events_markup(b) =~= Seq::<char>::empty());
        assert(events_markup(a) + events_markup(b) =~= events_markup(a));
    } else {
        assert((a + b).drop_last() =~= a + b.drop_last());
        assert((a + b).last() == b.last());
        lemma_events_markup_concat(a, b.drop_last());
        assert(events_markup(a + b) =~= events_markup(a) + events_markup(b));
    }
}

/// UTF-8 encoding of two character sequences one after the other.
pub proof fn lemma_encode_utf8_concat(a: Seq<char>, b: Seq<char>)
    ensures
        encode_utf8(a + b) == encode_utf8(a) + encode_utf8(b),
    decreases a.len(),
{
    if a.len() == 0 {
        assert(a + b =~= b);
        assert(encode_utf8(a) + encode_utf8(b) =~= encode_utf8(b));
    } else {
        assert((a + b).drop_first() =~= a.drop_first() + b);
        assert((a + b)[0] == a[0]);
        lemma_encode_utf8_concat(a.drop_first(), b);
        assert(encode_utf8(a + b) =~= encode_utf8(a) + encode_utf8(b));
    }
}

/// Closing the open elements innermost first leaves none open.
pub proof fn lemma_closing_events_balance(events: Seq<XmlEventSpec>, open: Seq<Seq<char>>)
    requires
        open_elements(events) == Some(open),
    ensures
        balanced(events + closing_events(open)),
    decreases open.len(),
{
    if open.len() == 0 {
        assert(closing_events(open) =~= Seq::<XmlEventSpec>::empty());
        assert(events + closing_events(open) =~= events);
        assert(open =~= Seq::<Seq<char>>::empty());
    } else {
        let end = XmlEventSpec::End(open.last());
        lemma_open_elements_push(events, end);
        lemma_closing_events_balance(events.push(end), open.drop_last());
        assert(events + closing_events(open) =~= events.push(end) + closing_events(
            open.drop_last(),
        ));
    }
}

/// Opening an element and closing it right away leaves the same elements open as before.
pub proof fn lemma_start_then_end(
    events: Seq<XmlEventSpec>,
    name: Seq<char>,
    attributes: Seq<(Seq<char>, Seq<char>)>,
)
    ensures
        open_elements(events.push(XmlEventSpec::Start(name, attributes)).push(
            XmlEventSpec::End(name),
        )) == open_elements(events),
{
    lemma_open_elements_push(events, XmlEventSpec::Start(name, attributes));
    lemma_open_elements_push(
        events.push(XmlEventSpec::Start(name, attributes)),
        XmlEventSpec::End(name),
    );
    match open_elements(events) {
        Some(open) => {
            assert(open.push(name).drop_last() =~= open);
        },
        None => {},
    }
}

} // verus!
