//! XML tokenization with `quick_xml`: the events of a document as plain values.
use vstd::prelude::*;

use crate::text::{chars_of, string_of};
use quick_xml::events::{BytesStart, Event};
use quick_xml::reader::Reader;
use self::XmlEvent::{Empty, End, Eof, Error, Other, Start, Text};

verus! {

/// The opening tag of an element: its name and its whole text (name and
/// attributes, as `quick_xml` keeps it).
#[derive(Debug)]
pub struct XmlTag {
    pub name: String,
    pub content: String,
}

/// One event of an XML document.
#[derive(Debug)]
pub enum XmlEvent {
    /// `<name ...>`
    Start(XmlTag),
    /// `<name .../>`
    Empty(XmlTag),
    /// `</name>`
    End(String),
    /// Text between tags, still escaped.
    Text(String),
    /// The end of the document.
    Eof,
    /// A comment, declaration, processing instruction, CDATA or doctype.
    Other,
    /// The document is malformed here; the text is `quick_xml`'s message.
    Error(String),
}

pub struct TagV {
    pub name: Seq<char>,
    pub content: Seq<char>,
}

/// `name` starts `content`.
pub open spec fn name_prefix(name: Seq<char>, content: Seq<char>) -> bool {
    name.len() <= content.len() && content.take(name.len() as int) == name
}

pub enum EventV {
    Start(TagV),
    Empty(TagV),
    End(Seq<char>),
    Text(Seq<char>),
    Eof,
    Other,
    Error(Seq<char>),
}

pub open spec fn tag_view(t: XmlTag) -> TagV {
    TagV { name: t.name@, content: t.content@ }
}

impl View for XmlEvent {
    type V = EventV;

    open spec fn view(&self) -> EventV {
        match self {
            XmlEvent::Start(t) => EventV::Start(tag_view(*t)),
            XmlEvent::Empty(t) => EventV::Empty(tag_view(*t)),
            XmlEvent::End(n) => EventV::End(n@),
            XmlEvent::Text(t) => EventV::Text(t@),
            XmlEvent::Eof => EventV::Eof,
            XmlEvent::Other => EventV::Other,
            XmlEvent::Error(m) => EventV::Error(m@),
        }
    }
}

/// The first `n + 1` events `quick_xml` reports when a reader with its default
/// settings reads the document `source` from its start, `n` being the
/// document's length in bytes.  After its first `Eof` or error the reader
/// reports `Eof` on every later read.
pub uninterp spec fn xml_events(source: Seq<char>) -> Seq<EventV>;

/// The event ends the document: its end, or an error.
pub open spec fn is_terminal(e: EventV) -> bool {
    e is Eof || e is Error
}

/// `evs` up to and including its first event that ends the document (all of
/// `evs` when none does).
pub open spec fn through_terminal(evs: Seq<EventV>) -> Seq<EventV>
    decreases evs.len(),
{
    if evs.len() == 0 {
        evs
    } else if is_terminal(evs[0]) {
        seq![evs[0]]
    } else {
        seq![evs[0]] + through_terminal(evs.drop_first())
    }
}

/// The events of the document `source`, through the first that ends it.
/// Every event but the last consumes at least one byte of the document, so
/// its first `n + 1` events hold the one that ends it.
pub open spec fn doc_events(source: Seq<char>) -> Seq<EventV> {
    through_terminal(xml_events(source))
}

/// The attributes `quick_xml` finds in the tag text `content` after its
/// name `name`, as (key, value) with the value still escaped; or
/// its error, as the attribute error's message and the message of the
/// document error made from it.
pub uninterp spec fn xml_attributes(content: Seq<char>, name: Seq<char>) -> Result<
    Seq<(Seq<char>, Seq<char>)>,
    (Seq<char>, Seq<char>),
>;

/// The text `raw` with its XML escapes (`&lt;`, `&#65;`, ...) replaced, as
/// `quick_xml` unescapes text content; or the message of its error.
pub uninterp spec fn xml_unescaped(raw: Seq<char>) -> Result<Seq<char>, Seq<char>>;

/// An opening tag whose name length fits its text.
pub open spec fn tag_ok(e: EventV) -> bool {
    match e {
        EventV::Start(t) => name_prefix(t.name, t.content),
        EventV::Empty(t) => name_prefix(t.name, t.content),
        _ => true,
    }
}

/// Reads the document `xml` with a `quick_xml::Reader` made by `Reader::from_str`
/// (default settings), calling `read_event` once more than the document has
/// bytes, and converts each event.  The events are a function of the
/// document alone; an opening tag's name is the start of its text.
#[verifier::external_body]
fn read_events(xml: &str) -> (r: Vec<XmlEvent>)
    ensures
        r@.map_values(|e: XmlEvent| e@) == xml_events(xml@),
        forall|i: int| 0 <= i < r@.len() ==> tag_ok(#[trigger] r@[i]@),
{
    let text = |b: &[u8]| String::from_utf8_lossy(b).into_owned();
    let tag = |b: &BytesStart| XmlTag { name: text(b.name().0), content: text(b) };
    let mut reader = Reader::from_str(xml);
    (0..=xml.len()).map(|_| match reader.read_event() {
        Ok(Event::Start(b)) => Start(tag(&b)),
        Ok(Event::Empty(b)) => Empty(tag(&b)),
        Ok(Event::End(b)) => End(text(&b)),
        Ok(Event::Text(b)) => Text(text(&b)),
        Ok(Event::Eof) => Eof,
        Ok(_) => Other,
        Err(e) => Error(e.to_string()),
    }).collect()
}

/// Whether the event ends the document.
fn is_terminal_event(e: &XmlEvent) -> (r: bool)
    ensures
        r == is_terminal(e@),
{
    match e {
        XmlEvent::Eof => true,
        XmlEvent::Error(_) => true,
        _ => false,
    }
}

/// `through_terminal` of a sequence whose first event that ends the document
/// is at `k` (`k` is its length when none does).
proof fn lemma_through_terminal(s: Seq<EventV>, k: int)
    requires
        0 <= k <= s.len(),
        forall|j: int| 0 <= j < k ==> !is_terminal(#[trigger] s[j]),
        k < s.len() ==> is_terminal(s[k]),
    ensures
        through_terminal(s) == if k < s.len() {
            s.take(k + 1)
        } else {
            s
        },
    decreases k,
{
    if s.len() == 0 {
    } else if k == 0 {
        assert(s.take(1) =~= seq![s[0]]);
    } else {
        let t = s.drop_first();
        assert forall|j: int| 0 <= j < k - 1 implies !is_terminal(#[trigger] t[j]) by {
            assert(t[j] == s[j + 1]);
        }
        lemma_through_terminal(t, k - 1);
        assert(!is_terminal(s[0]));
        if k < s.len() {
            assert(seq![s[0]] + t.take(k) =~= s.take(k + 1));
        } else {
            assert(seq![s[0]] + t =~= s);
        }
    }
}

/// The events of the document `xml` (see [`doc_events`]): those `quick_xml`
/// reports, through the first `Eof` or error.
pub fn tokenize(xml: &str) -> (r: Vec<XmlEvent>)
    ensures
        r@.map_values(|e: XmlEvent| e@) == doc_events(xml@),
        forall|i: int| 0 <= i < r@.len() ==> tag_ok(#[trigger] r@[i]@),
{
    let mut evs = read_events(xml);
    let ghost all = evs@.map_values(|e: XmlEvent| e@);
    let mut k: usize = 0;
    while k < evs.len() && !is_terminal_event(&evs[k])
        invariant
            k <= evs.len(),
            all == evs@.map_values(|e: XmlEvent| e@),
            forall|j: int| 0 <= j < k ==> !is_terminal(#[trigger] all[j]),
        decreases evs.len() - k,
    {
        assert(all[k as int] == evs@[k as int]@);
        k = k + 1;
    }
    proof {
        if k < evs.len() {
            assert(all[k as int] == evs@[k as int]@);
        }
        lemma_through_terminal(all, k as int);
    }
    let ghost before = evs@;
    if k < evs.len() {
        evs.truncate(k + 1);
        assert(evs@.map_values(|e: XmlEvent| e@) =~= all.take(k + 1));
    }
    proof {
        assert forall|i: int| 0 <= i < evs@.len() implies tag_ok(#[trigger] evs@[i]@) by {
            assert(evs@[i] == before[i]);
        }
    }
    evs
}

/// Calls `quick_xml::events::attributes::Attributes::new(content, name.len())`
/// and collects the attributes, stopping at the first error (keys and values
/// decoded from UTF-8, values not unescaped).
#[verifier::external_body]
pub(crate) fn tag_attributes(content: &str, name: &str) -> (r: Result<
    Vec<(String, String)>,
    (String, String),
>)
    requires
        name_prefix(name@, content@),
    ensures
        match (r, xml_attributes(content@, name@)) {
            (Ok(v), Ok(s)) => v@.map_values(|a: (String, String)| (a.0@, a.1@)) == s,
            (Err(e), Err(s)) => e.0@ == s.0 && e.1@ == s.1,
            _ => false,
        },
{
    quick_xml::events::attributes::Attributes::new(content, name.len()).map(|a| {
        a.map(|a| (String::from_utf8_lossy(a.key.as_ref()).into_owned(), String::from_utf8_lossy(&a.value).into_owned()))
    }).collect::<Result<Vec<_>, _>>().map_err(|e| (e.to_string(), quick_xml::Error::from(e).to_string()))
}

/// Calls `quick_xml::escape::unescape`, reporting an error as `quick_xml`'s
/// document error would (the unescaping of a text event).
#[verifier::external_body]
pub(crate) fn unescape_text(raw: &str) -> (r: Result<String, String>)
    ensures
        match (r, xml_unescaped(raw@)) {
            (Ok(v), Ok(s)) => v@ == s,
            (Err(e), Err(s)) => e@ == s,
            _ => false,
        },
{
    quick_xml::escape::unescape(raw).map(|c| c.into_owned()).map_err(|e| quick_xml::Error::from(e).to_string())
}

/// An XML whitespace character: space, tab, carriage return or line feed.
pub open spec fn is_xml_ws(c: char) -> bool {
    c == ' ' || c == '\t' || c == '\r' || c == '\n'
}

/// `s` without its leading XML whitespace.
pub open spec fn xml_trim_start(s: Seq<char>) -> Seq<char>
    decreases s.len(),
{
    if s.len() > 0 && is_xml_ws(s[0]) {
        xml_trim_start(s.drop_first())
    } else {
        s
    }
}

/// `s` without its trailing XML whitespace.
pub open spec fn xml_trim_end(s: Seq<char>) -> Seq<char>
    decreases s.len(),
{
    if s.len() > 0 && is_xml_ws(s.last()) {
        xml_trim_end(s.drop_last())
    } else {
        s
    }
}

/// `s` without leading and trailing XML whitespace (as `BytesText::inplace_trim_start`
/// followed by `inplace_trim_end`).
pub open spec fn xml_trim(s: Seq<char>) -> Seq<char> {
    xml_trim_end(xml_trim_start(s))
}

/// Trims XML whitespace from both ends of `s`.
pub fn trim_xml(s: &str) -> (r: String)
    ensures
        r@ == xml_trim(s@),
{
    let v = chars_of(s);
    let mut i: usize = 0;
    assert(v@.skip(0) =~= v@);
    while i < v.len() && (v[i] == ' ' || v[i] == '\t' || v[i] == '\r' || v[i] == '\n')
        invariant
            i <= v.len(),
            xml_trim_start(v@.skip(i as int)) == xml_trim_start(v@),
        decreases v.len() - i,
    {
        assert(v@.skip(i as int).drop_first() =~= v@.skip(i + 1));
        i = i + 1;
    }
    let mut j: usize = v.len();
    let ghost t = v@.skip(i as int);
    assert(xml_trim_start(t) == t);
    while j > i && (v[j - 1] == ' ' || v[j - 1] == '\t' || v[j - 1] == '\r' || v[j - 1] == '\n')
        invariant
            i <= j <= v.len(),
            t == v@.skip(i as int),
            xml_trim_end(v@.subrange(i as int, j as int)) == xml_trim_end(t),
        decreases j,
    {
        assert(v@.subrange(i as int, j as int).drop_last() =~= v@.subrange(i as int, j - 1));
        j = j - 1;
    }
    assert(v@.subrange(i as int, v.len() as int) =~= t);
    let mut out: Vec<char> = Vec::new();
    let mut k = i;
    while k < j
        invariant
            i <= k <= j <= v.len(),
            out@ == v@.subrange(i as int, k as int),
        decreases j - k,
    {
        out.push(v[k]);
        k = k + 1;
    }
    assert(xml_trim_end(v@.subrange(i as int, j as int)) == v@.subrange(i as int, j as int));
    string_of(out.as_slice())
}

} // verus!
