//! The `substitute` tag: a pattern in a snippet's code and the symbol whose
//! value replaces it.
use vstd::prelude::*;

use crate::xml_handler::composite::{subst_view, SubstV};
use crate::xml_handler::error::{ErrV, XMLHandlerError};
use crate::xml_handler::events::{tag_view, unescape_text, xml_unescaped, EventV, TagV, XmlEvent, XmlTag};
use crate::xml_handler::variable::{
    attr_or_empty, attribute_or_empty, ev_at, event_at, evs_view, read_attributes, tag_attrs,
};

verus! {

/// Represents the substitute tag in the XML data.
#[derive(Debug)]
pub struct Substitute {
    /// The substitute name.
    pub name: String,
    /// The substitute pattern.
    pub value: String,
}

impl Substitute {
    /// Creates a substitute.
    pub fn new(name: String, value: String) -> (r: Self)
        ensures
            r.name == name,
            r.value == value,
    {
        Substitute { name, value }
    }

    /// A copy of this substitute.
    pub fn duplicate(&self) -> (r: Self)
        ensures
            r.name == self.name,
            r.value == self.value,
    {
        Substitute { name: self.name.clone(), value: self.value.clone() }
    }
}

/// The position after the event at `pos` (which stays put past the end).
pub open spec fn skip1(evs: Seq<EventV>, pos: int) -> int {
    if 0 <= pos < evs.len() {
        pos + 1
    } else {
        pos
    }
}

/// A `substitute` element whose opening tag `t` was read before `pos`: its
/// `name` attribute, and as pattern the text of the one event at `pos`
/// (empty when that event is not text).
pub open spec fn substitute_spec(evs: Seq<EventV>, pos: int, t: TagV) -> Result<SubstV, ErrV> {
    match tag_attrs(t) {
        Err(e) => Err(ErrV::Attribute(e.0)),
        Ok(a) => {
            let name = attr_or_empty(a, "name"@);
            match ev_at(evs, pos) {
                EventV::Error(m) => Err(ErrV::Parse(m)),
                EventV::Text(raw) => match xml_unescaped(raw) {
                    Ok(v) => Ok((name, v)),
                    Err(m) => Err(ErrV::Parse(m)),
                },
                _ => Ok((name, Seq::empty())),
            }
        },
    }
}

impl Substitute {
    /// Parses the `substitute` element whose opening tag `tag` was read
    /// before `*pos` (see [`substitute_spec`]); reads one event.
    pub fn parse_substitute(evs: &Vec<XmlEvent>, pos: &mut usize, tag: &XmlTag) -> (r: Result<
        Substitute,
        XMLHandlerError,
    >)
        requires
            crate::xml_handler::events::name_prefix(tag.name@, tag.content@),
        ensures
            match (r, substitute_spec(evs_view(evs@), *old(pos) as int, tag_view(*tag))) {
                (Ok(x), Ok(v)) => subst_view(x) == v,
                (Err(e), Err(ev)) => e@ == ev,
                _ => false,
            },
            *final(pos) == skip1(evs_view(evs@), *old(pos) as int),
    {
        let attrs = read_attributes(tag);
        let e = event_at(evs, *pos);
        let ghost p0 = *pos;
        match e {
            Some(_) => {
                *pos = *pos + 1;
            },
            None => {},
        }
        assert(*pos == skip1(evs_view(evs@), p0 as int));
        let attrs = match attrs {
            Err(e) => return Err(XMLHandlerError::AttributeError { message: e.0 }),
            Ok(a) => a,
        };
        let name = attribute_or_empty(&attrs, "name");
        match e {
            Some(XmlEvent::Error(m)) => Err(XMLHandlerError::ParseError { message: m.clone() }),
            Some(XmlEvent::Text(raw)) => match unescape_text(raw.as_str()) {
                Ok(v) => Ok(Substitute::new(name, v)),
                Err(m) => Err(XMLHandlerError::ParseError { message: m }),
            },
            _ => Ok(Substitute::new(name, String::new())),
        }
    }
}

} // verus!
