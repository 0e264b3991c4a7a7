//! The `variables` tag: variables with defaults, references, constraints
//! and cases depending on other variables.
use vstd::prelude::*;

use crate::text::owned;
use crate::xml_handler::error::{ErrV, XMLHandlerError};
use crate::xml_handler::events::{
    tag_attributes, unescape_text, xml_attributes, xml_unescaped, EventV, TagV, XmlEvent, XmlTag,
};

verus! {

/// Represents a variables tag in the XML data.
#[derive(Debug)]
pub struct Variables {
    /// A list of variables associated with the variables tag.
    pub variable_array: Vec<Variable>,
}

/// Represents a variable tag (or a case of a dependency) in the XML data.
#[derive(Debug)]
pub struct Variable {
    /// A unique identifier for the variable.
    pub id: String,
    /// The default value of the variable.
    pub default: String,
    /// The value attribute of the variable.
    pub value_attr: String,
    /// A list of dependencies for this variable.
    pub depends_array: Vec<Depend>,
    /// A list of references associated with this variable.
    pub ref_array: Vec<Reference>,
    /// An optional constraint applied to the variable.
    pub constraint: Option<Constraint>,
}

/// A dependency on another variable, with a case for each of its values.
#[derive(Debug)]
pub struct Depend {
    pub re_f: String,
    pub _variables: Vec<Variable>,
}

/// A reference tag.
#[derive(Debug)]
pub struct Reference {
    pub id: String,
    pub default: String,
    pub useall: String,
    pub value: String,
}

/// The bounds of a variable, as the text of its `min` and `max` tags
/// (`None` when a tag gives no text: the bound is then 0).
#[derive(Debug)]
pub struct Constraint {
    pub min: Option<String>,
    pub max: Option<String>,
}

// ---------------------------------------------------------------------------
pub struct RefV {
    pub id: Seq<char>,
    pub default: Seq<char>,
    pub useall: Seq<char>,
    pub value: Seq<char>,
}

pub struct ConstraintV {
    pub min: Option<Seq<char>>,
    pub max: Option<Seq<char>>,
}

pub struct VariableV {
    pub id: Seq<char>,
    pub default: Seq<char>,
    pub value_attr: Seq<char>,
    pub depends: Seq<DependV>,
    pub refs: Seq<RefV>,
    pub constraint: Option<ConstraintV>,
}

pub struct DependV {
    pub re_f: Seq<char>,
    pub vars: Seq<VariableV>,
}

pub open spec fn opt_text(o: Option<String>) -> Option<Seq<char>> {
    match o {
        Some(s) => Some(s@),
        None => None,
    }
}

pub open spec fn ref_view(r: Reference) -> RefV {
    RefV { id: r.id@, default: r.default@, useall: r.useall@, value: r.value@ }
}

pub open spec fn constraint_view(c: Constraint) -> ConstraintV {
    ConstraintV { min: opt_text(c.min), max: opt_text(c.max) }
}

pub open spec fn variable_view(v: Variable) -> VariableV
    decreases v,
{
    VariableV {
        id: v.id@,
        default: v.default@,
        value_attr: v.value_attr@,
        depends: Seq::new(
            v.depends_array@.len(),
            |i: int|
                if 0 <= i < v.depends_array@.len() {
                    depend_view(v.depends_array@[i])
                } else {
                    arbitrary()
                },
        ),
        refs: v.ref_array@.map_values(|r: Reference| ref_view(r)),
        constraint: match v.constraint {
            Some(c) => Some(constraint_view(c)),
            None => None,
        },
    }
}

pub open spec fn depend_view(d: Depend) -> DependV
    decreases d,
{
    DependV {
        re_f: d.re_f@,
        vars: Seq::new(
            d._variables@.len(),
            |i: int|
                if 0 <= i < d._variables@.len() {
                    variable_view(d._variables@[i])
                } else {
                    arbitrary()
                },
        ),
    }
}

pub open spec fn variables_view(v: Seq<Variable>) -> Seq<VariableV> {
    v.map_values(|x: Variable| variable_view(x))
}

// ---------------------------------------------------------------------------
// Reading events.
/// The event at `pos`; past the end, the end of the document.
pub open spec fn ev_at(evs: Seq<EventV>, pos: int) -> EventV {
    if 0 <= pos < evs.len() {
        evs[pos]
    } else {
        EventV::Eof
    }
}

/// The value of the last attribute named `key`.
pub open spec fn last_attr(attrs: Seq<(Seq<char>, Seq<char>)>, key: Seq<char>) -> Option<Seq<char>>
    decreases attrs.len(),
{
    if attrs.len() == 0 {
        None
    } else if attrs.last().0 == key {
        Some(attrs.last().1)
    } else {
        last_attr(attrs.drop_last(), key)
    }
}

/// The value of the attribute `key`, empty when the tag has none.
pub open spec fn attr_or_empty(attrs: Seq<(Seq<char>, Seq<char>)>, key: Seq<char>) -> Seq<char> {
    match last_attr(attrs, key) {
        Some(v) => v,
        None => Seq::empty(),
    }
}

/// The attributes of an opening tag.
pub open spec fn tag_attrs(t: TagV) -> Result<Seq<(Seq<char>, Seq<char>)>, (Seq<char>, Seq<char>)> {
    xml_attributes(t.content, t.name)
}

/// The view of a sequence of events.
pub open spec fn evs_view(evs: Seq<XmlEvent>) -> Seq<EventV> {
    evs.map_values(|e: XmlEvent| e@)
}

/// The opening tags in `evs` fit their texts.
pub open spec fn tags_ok(evs: Seq<XmlEvent>) -> bool {
    forall|i: int| 0 <= i < evs.len() ==> crate::xml_handler::events::tag_ok(#[trigger] evs[i]@)
}

/// The event at `pos` (the end of the document past the end).
pub fn event_at(evs: &Vec<XmlEvent>, pos: usize) -> (r: Option<&XmlEvent>)
    ensures
        r matches Some(e) ==> e@ == ev_at(evs_view(evs@), pos as int) && pos < evs@.len() && *e
            == evs@[pos as int],
        r is None ==> ev_at(evs_view(evs@), pos as int) is Eof && pos >= evs@.len(),
        evs@.len() <= usize::MAX,
        evs_view(evs@).len() == evs@.len(),
{
    if pos < evs.len() {
        Some(&evs[pos])
    } else {
        None
    }
}

/// The attributes of a tag as (key, value) pairs, or the attribute error's
/// message and the message of the document error made from it.
pub fn read_attributes(tag: &XmlTag) -> (r: Result<Vec<(String, String)>, (String, String)>)
    requires
        crate::xml_handler::events::name_prefix(tag.name@, tag.content@),
    ensures
        match (r, xml_attributes(tag.content@, tag.name@)) {
            (Ok(v), Ok(s)) => v@.map_values(|a: (String, String)| (a.0@, a.1@)) == s,
            (Err(e), Err(s)) => e.0@ == s.0 && e.1@ == s.1,
            _ => false,
        },
{
    tag_attributes(tag.content.as_str(), tag.name.as_str())
}

/// The value of the last attribute named `key`.
pub fn attribute(attrs: &Vec<(String, String)>, key: &str) -> (r: Option<String>)
    ensures
        opt_text(r) == last_attr(attrs@.map_values(|a: (String, String)| (a.0@, a.1@)), key@),
{
    let ghost s = attrs@.map_values(|a: (String, String)| (a.0@, a.1@));
    let k = owned(key);
    let mut i = attrs.len();
    assert(s.take(i as int) =~= s);
    while i > 0
        invariant
            i <= attrs@.len(),
            s == attrs@.map_values(|a: (String, String)| (a.0@, a.1@)),
            k@ == key@,
            last_attr(s, key@) == last_attr(s.take(i as int), key@),
        decreases i,
    {
        let ghost t = s.take(i as int);
        assert(t.drop_last() =~= s.take(i - 1));
        if attrs[i - 1].0 == k {
            return Some(attrs[i - 1].1.clone());
        }
        i = i - 1;
    }
    assert(s.take(0) =~= Seq::<(Seq<char>, Seq<char>)>::empty());
    None
}

/// The value of the attribute `key`, empty when there is none.
pub fn attribute_or_empty(attrs: &Vec<(String, String)>, key: &str) -> (r: String)
    ensures
        r@ == attr_or_empty(attrs@.map_values(|a: (String, String)| (a.0@, a.1@)), key@),
{
    match attribute(attrs, key) {
        Some(v) => v,
        None => String::new(),
    }
}

/// Whether `name` is the literal `lit`.
pub fn named(name: &String, lit: &str) -> (r: bool)
    ensures
        r == (name@ == lit@),
{
    *name == owned(lit)
}

// ---------------------------------------------------------------------------
// The grammar.
/// A reference given by an empty `reference` tag: only its id.
pub open spec fn reference_attr_only_spec(t: TagV) -> Result<RefV, ErrV> {
    match tag_attrs(t) {
        Err(e) => Err(ErrV::Attribute(e.0)),
        Ok(a) => Ok(
            RefV {
                id: attr_or_empty(a, "id"@),
                default: Seq::empty(),
                useall: Seq::empty(),
                value: Seq::empty(),
            },
        ),
    }
}

/// The rest of a `reference` element from `pos`: the last text in it is the
/// default; the element ends at `</reference>`.
pub open spec fn reference_loop(evs: Seq<EventV>, pos: int, r: RefV) -> (Result<RefV, ErrV>, int)
    decreases evs.len() + 1 - pos,
{
    match ev_at(evs, pos) {
        EventV::Error(m) => (Err(ErrV::Parse(m)), pos + 1),
        EventV::Eof => (Err(ErrV::Eof("reference"@)), pos + 1),
        EventV::Text(raw) => match xml_unescaped(raw) {
            Ok(v) => reference_loop(evs, pos + 1, RefV { default: v, ..r }),
            Err(m) => (Err(ErrV::Parse(m)), pos + 1),
        },
        EventV::End(n) => if n == "reference"@ {
            (Ok(r), pos + 1)
        } else {
            reference_loop(evs, pos + 1, r)
        },
        _ => reference_loop(evs, pos + 1, r),
    }
}

/// A `reference` element whose opening tag `t` was read before `pos`.
pub open spec fn reference_spec(evs: Seq<EventV>, pos: int, t: TagV) -> (Result<RefV, ErrV>, int) {
    match tag_attrs(t) {
        Err(e) => (Err(ErrV::Attribute(e.0)), pos),
        Ok(a) => reference_loop(
            evs,
            pos,
            RefV {
                id: attr_or_empty(a, "id"@),
                default: Seq::empty(),
                useall: attr_or_empty(a, "useall"@),
                value: attr_or_empty(a, "value"@),
            },
        ),
    }
}

/// The position after an opening tag at `pos` and the event that follows it
/// (when there is one).
pub open spec fn skip2(evs: Seq<EventV>, pos: int) -> int {
    if pos + 1 < evs.len() {
        pos + 2
    } else {
        pos + 1
    }
}

/// The text of the element whose opening tag was just read, read as one
/// event at `pos`: `Ok(Some(text))` for text, `Ok(None)` for any other event.
pub open spec fn inner_text(evs: Seq<EventV>, pos: int) -> Result<Option<Seq<char>>, ErrV> {
    match ev_at(evs, pos) {
        EventV::Error(m) => Err(ErrV::Parse(m)),
        EventV::Text(raw) => match xml_unescaped(raw) {
            Ok(v) => Ok(Some(v)),
            Err(m) => Err(ErrV::Parse(m)),
        },
        _ => Ok(None),
    }
}

/// The rest of a `constraints` element from `pos`.
pub open spec fn constraint_loop(evs: Seq<EventV>, pos: int, c: ConstraintV) -> (Result<
    ConstraintV,
    ErrV,
>, int)
    decreases evs.len() + 1 - pos,
{
    match ev_at(evs, pos) {
        EventV::Error(m) => (Err(ErrV::Parse(m)), pos + 1),
        EventV::Eof => (Err(ErrV::Eof("constraints"@)), pos + 1),
        EventV::Start(t) => if t.name == "min"@ {
            match inner_text(evs, pos + 1) {
                Err(e) => (Err(e), skip2(evs, pos)),
                Ok(None) => constraint_loop(evs, skip2(evs, pos), c),
                Ok(Some(v)) => constraint_loop(evs, skip2(evs, pos), ConstraintV { min: Some(v), ..c }),
            }
        } else if t.name == "max"@ {
            match inner_text(evs, pos + 1) {
                Err(e) => (Err(e), skip2(evs, pos)),
                Ok(None) => constraint_loop(evs, skip2(evs, pos), c),
                Ok(Some(v)) => constraint_loop(evs, skip2(evs, pos), ConstraintV { max: Some(v), ..c }),
            }
        } else {
            constraint_loop(evs, pos + 1, c)
        },
        EventV::End(n) => if n == "constraints"@ {
            (Ok(c), pos + 1)
        } else {
            constraint_loop(evs, pos + 1, c)
        },
        _ => constraint_loop(evs, pos + 1, c),
    }
}

/// A `constraints` element whose opening tag was read before `pos`.
pub open spec fn constraint_spec(evs: Seq<EventV>, pos: int) -> (Result<ConstraintV, ErrV>, int) {
    constraint_loop(evs, pos, ConstraintV { min: None, max: None })
}

/// The rest of a `variable` (or `case`) element from `pos`; it ends at the
/// first `</case>` or `</variable>`.
pub open spec fn variable_loop(evs: Seq<EventV>, pos: int, v: VariableV) -> (Result<VariableV, ErrV>, int)
    decreases evs.len() + 1 - pos, 1nat,
{
    match ev_at(evs, pos) {
        EventV::Error(m) => (Err(ErrV::Parse(m)), pos + 1),
        EventV::Eof => (Err(ErrV::Eof("variable"@)), pos + 1),
        EventV::Start(t) => if t.name == "default"@ {
            match inner_text(evs, pos + 1) {
                Err(e) => (Err(e), skip2(evs, pos)),
                Ok(None) => variable_loop(evs, skip2(evs, pos), v),
                Ok(Some(d)) => variable_loop(evs, skip2(evs, pos), VariableV { default: d, ..v }),
            }
        } else if t.name == "reference"@ {
            match reference_spec(evs, pos + 1, t) {
                (Ok(r), p) => if pos < p <= evs.len() + 1 {
                    variable_loop(evs, p, VariableV { refs: v.refs.push(r), ..v })
                } else {
                    (Err(ErrV::Eof("variable"@)), p)
                },
                (Err(e), p) => (Err(e), p),
            }
        } else if t.name == "constraints"@ {
            match constraint_spec(evs, pos + 1) {
                (Ok(c), p) => if pos < p <= evs.len() + 1 {
                    variable_loop(evs, p, VariableV { constraint: Some(c), ..v })
                } else {
                    (Err(ErrV::Eof("variable"@)), p)
                },
                (Err(e), p) => (Err(e), p),
            }
        } else if t.name == "depends"@ {
            match depend_spec(evs, pos + 1, t) {
                (Ok(d), p) => if pos < p <= evs.len() + 1 {
                    variable_loop(evs, p, VariableV { depends: v.depends.push(d), ..v })
                } else {
                    (Err(ErrV::Eof("variable"@)), p)
                },
                (Err(e), p) => (Err(e), p),
            }
        } else {
            variable_loop(evs, pos + 1, v)
        },
        EventV::Empty(t) => if t.name == "reference"@ {
            match reference_attr_only_spec(t) {
                Ok(r) => variable_loop(evs, pos + 1, VariableV { refs: v.refs.push(r), ..v }),
                Err(e) => (Err(e), pos + 1),
            }
        } else {
            variable_loop(evs, pos + 1, v)
        },
        EventV::End(n) => if n == "case"@ || n == "variable"@ {
            (Ok(v), pos + 1)
        } else {
            variable_loop(evs, pos + 1, v)
        },
        _ => variable_loop(evs, pos + 1, v),
    }
}

/// A `variable` (or `case`) element whose opening tag `t` was read before `pos`.
pub open spec fn variable_spec(evs: Seq<EventV>, pos: int, t: TagV) -> (Result<VariableV, ErrV>, int)
    decreases evs.len() + 1 - pos, 2nat,
{
    match tag_attrs(t) {
        Err(e) => (Err(ErrV::Attribute(e.0)), pos),
        Ok(a) => variable_loop(
            evs,
            pos,
            VariableV {
                id: attr_or_empty(a, "id"@),
                default: Seq::empty(),
                value_attr: attr_or_empty(a, "value"@),
                depends: Seq::empty(),
                refs: Seq::empty(),
                constraint: None,
            },
        ),
    }
}

/// The rest of a `depends` element from `pos`: a variable for each `case`.
pub open spec fn depend_loop(evs: Seq<EventV>, pos: int, d: DependV) -> (Result<DependV, ErrV>, int)
    decreases evs.len() + 1 - pos, 1nat,
{
    match ev_at(evs, pos) {
        EventV::Error(m) => (Err(ErrV::Parse(m)), pos + 1),
        EventV::Eof => (Err(ErrV::Eof("depends"@)), pos + 1),
        EventV::Start(t) => if t.name == "case"@ {
            match variable_spec(evs, pos + 1, t) {
                (Ok(v), p) => if pos < p <= evs.len() + 1 {
                    depend_loop(evs, p, DependV { vars: d.vars.push(v), ..d })
                } else {
                    (Err(ErrV::Eof("depends"@)), p)
                },
                (Err(e), p) => (Err(e), p),
            }
        } else {
            depend_loop(evs, pos + 1, d)
        },
        EventV::End(n) => if n == "depends"@ {
            (Ok(d), pos + 1)
        } else {
            depend_loop(evs, pos + 1, d)
        },
        _ => depend_loop(evs, pos + 1, d),
    }
}

/// A `depends` element whose opening tag `t` was read before `pos`.
pub open spec fn depend_spec(evs: Seq<EventV>, pos: int, t: TagV) -> (Result<DependV, ErrV>, int)
    decreases evs.len() + 1 - pos, 2nat,
{
    match tag_attrs(t) {
        Err(e) => (Err(ErrV::Attribute(e.0)), pos),
        Ok(a) => depend_loop(evs, pos, DependV { re_f: attr_or_empty(a, "ref"@), vars: Seq::empty() }),
    }
}

/// The rest of a `variables` element from `pos`.
pub open spec fn variables_loop(evs: Seq<EventV>, pos: int, vs: Seq<VariableV>) -> (Result<
    Seq<VariableV>,
    ErrV,
>, int)
    decreases evs.len() + 1 - pos,
{
    match ev_at(evs, pos) {
        EventV::Error(m) => (Err(ErrV::Parse(m)), pos + 1),
        EventV::Eof => (Err(ErrV::Eof("variables"@)), pos + 1),
        EventV::Start(t) => if t.name == "variable"@ {
            match variable_spec(evs, pos + 1, t) {
                (Ok(v), p) => if pos < p <= evs.len() + 1 {
                    variables_loop(evs, p, vs.push(v))
                } else {
                    (Err(ErrV::Eof("variables"@)), p)
                },
                (Err(e), p) => (Err(e), p),
            }
        } else {
            variables_loop(evs, pos + 1, vs)
        },
        EventV::End(n) => if n == "variables"@ {
            (Ok(vs), pos + 1)
        } else {
            variables_loop(evs, pos + 1, vs)
        },
        _ => variables_loop(evs, pos + 1, vs),
    }
}


// ---------------------------------------------------------------------------
// The parsers.
/// The exec result `r` and final position `p` match the grammar's `(spec, spec_pos)`
/// under the view `view`.
pub open spec fn matches_ref(r: Result<Reference, XMLHandlerError>, p: usize, s: (Result<RefV, ErrV>, int)) -> bool {
    match (r, s.0) {
        (Ok(x), Ok(v)) => ref_view(x) == v && p == s.1,
        (Err(e), Err(ev)) => e@ == ev,
        _ => false,
    }
}

pub open spec fn matches_constraint(
    r: Result<Constraint, XMLHandlerError>,
    p: usize,
    s: (Result<ConstraintV, ErrV>, int),
) -> bool {
    match (r, s.0) {
        (Ok(x), Ok(v)) => constraint_view(x) == v && p == s.1,
        (Err(e), Err(ev)) => e@ == ev,
        _ => false,
    }
}

pub open spec fn matches_variable(
    r: Result<Variable, XMLHandlerError>,
    p: usize,
    s: (Result<VariableV, ErrV>, int),
) -> bool {
    match (r, s.0) {
        (Ok(x), Ok(v)) => variable_view(x) == v && p == s.1,
        (Err(e), Err(ev)) => e@ == ev,
        _ => false,
    }
}

pub open spec fn matches_depend(r: Result<Depend, XMLHandlerError>, p: usize, s: (Result<DependV, ErrV>, int)) -> bool {
    match (r, s.0) {
        (Ok(x), Ok(v)) => depend_view(x) == v && p == s.1,
        (Err(e), Err(ev)) => e@ == ev,
        _ => false,
    }
}

pub open spec fn matches_variables(
    r: Result<Variables, XMLHandlerError>,
    p: usize,
    s: (Result<Seq<VariableV>, ErrV>, int),
) -> bool {
    match (r, s.0) {
        (Ok(x), Ok(v)) => variables_view(x.variable_array@) == v && p == s.1,
        (Err(e), Err(ev)) => e@ == ev,
        _ => false,
    }
}

/// The unescaped text of the event at `pos`, read as the content of the
/// element whose opening tag was just read (see [`inner_text`]).
pub fn read_inner_text(evs: &Vec<XmlEvent>, pos: usize) -> (r: Result<Option<String>, XMLHandlerError>)
    ensures
        match (r, inner_text(evs_view(evs@), pos as int)) {
            (Ok(Some(t)), Ok(Some(v))) => t@ == v,
            (Ok(None), Ok(None)) => true,
            (Err(e), Err(ev)) => e@ == ev,
            _ => false,
        },
{
    match event_at(evs, pos) {
        Some(XmlEvent::Error(m)) => Err(XMLHandlerError::ParseError { message: m.clone() }),
        Some(XmlEvent::Text(raw)) => match unescape_text(raw.as_str()) {
            Ok(v) => Ok(Some(v)),
            Err(m) => Err(XMLHandlerError::ParseError { message: m }),
        },
        _ => Ok(None),
    }
}

impl Reference {
    /// Creates a reference.
    pub fn new(id: String, default: String, useall: String, value: String) -> (r: Self)
        ensures
            r.id == id,
            r.default == default,
            r.useall == useall,
            r.value == value,
    {
        Reference { id, default, useall, value }
    }

    /// A reference from an empty `reference` tag: only its id.
    pub fn parse_reference_attr_only(tag: &XmlTag) -> (r: Result<Reference, XMLHandlerError>)
        requires
            crate::xml_handler::events::name_prefix(tag.name@, tag.content@),
        ensures
            match (r, reference_attr_only_spec(crate::xml_handler::events::tag_view(*tag))) {
                (Ok(x), Ok(v)) => ref_view(x) == v,
                (Err(e), Err(ev)) => e@ == ev,
                _ => false,
            },
    {
        let attrs = match read_attributes(tag) {
            Err(e) => return Err(XMLHandlerError::AttributeError { message: e.0 }),
            Ok(a) => a,
        };
        let id = attribute_or_empty(&attrs, "id");
        Ok(Reference::new(id, String::new(), String::new(), String::new()))
    }

    /// The `reference` element whose opening tag `tag` was read before `*pos`;
    /// `*pos` ends after its closing tag.
    #[verifier::loop_isolation(false)]
    pub fn parse_reference(evs: &Vec<XmlEvent>, pos: &mut usize, tag: &XmlTag) -> (r: Result<
        Reference,
        XMLHandlerError,
    >)
        requires
            crate::xml_handler::events::name_prefix(tag.name@, tag.content@),
            *old(pos) <= evs@.len(),
        ensures
            r is Ok ==> *old(pos) < *final(pos) <= evs@.len(),
            matches_ref(
                r,
                *final(pos),
                reference_spec(
                    evs_view(evs@),
                    *old(pos) as int,
                    crate::xml_handler::events::tag_view(*tag),
                ),
            ),
    {
        let ghost ev = evs_view(evs@);
        let attrs = match read_attributes(tag) {
            Err(e) => return Err(XMLHandlerError::AttributeError { message: e.0 }),
            Ok(a) => a,
        };
        let mut r = Reference::new(
            attribute_or_empty(&attrs, "id"),
            String::new(),
            attribute_or_empty(&attrs, "useall"),
            attribute_or_empty(&attrs, "value"),
        );
        let ghost target = reference_loop(ev, *pos as int, ref_view(r));
        loop
            invariant
                ev == evs_view(evs@),
                *old(pos) <= *pos <= evs@.len(),
                reference_loop(ev, *pos as int, ref_view(r)) == target,
            decreases evs@.len() - *pos,
        {
            match event_at(evs, *pos) {
                None => {
                    return Err(XMLHandlerError::UnexpectedEof { element: owned("reference") });
                },
                Some(XmlEvent::Error(m)) => {
                    return Err(XMLHandlerError::ParseError { message: m.clone() });
                },
                Some(XmlEvent::Eof) => {
                    return Err(XMLHandlerError::UnexpectedEof { element: owned("reference") });
                },
                Some(XmlEvent::Text(raw)) => {
                    match unescape_text(raw.as_str()) {
                        Ok(v) => {
                            r.default = v;
                        },
                        Err(m) => {
                            return Err(XMLHandlerError::ParseError { message: m });
                        },
                    }
                    *pos = *pos + 1;
                },
                Some(XmlEvent::End(n)) => {
                    *pos = *pos + 1;
                    if named(n, "reference") {
                        return Ok(r);
                    }
                },
                Some(_) => {
                    *pos = *pos + 1;
                },
            }
        }
    }
}

impl Constraint {
    /// The `constraints` element whose opening tag was read before `*pos`.
    #[verifier::loop_isolation(false)]
    pub fn parse_constraint(evs: &Vec<XmlEvent>, pos: &mut usize) -> (r: Result<
        Constraint,
        XMLHandlerError,
    >)
        requires
            *old(pos) <= evs@.len(),
        ensures
            r is Ok ==> *old(pos) < *final(pos) <= evs@.len(),
            matches_constraint(r, *final(pos), constraint_spec(evs_view(evs@), *old(pos) as int)),
    {
        let ghost ev = evs_view(evs@);
        let mut c = Constraint { min: None, max: None };
        let ghost target = constraint_loop(ev, *pos as int, constraint_view(c));
        loop
            invariant
                ev == evs_view(evs@),
                *old(pos) <= *pos <= evs@.len(),
                constraint_loop(ev, *pos as int, constraint_view(c)) == target,
            decreases evs@.len() - *pos,
        {
            match event_at(evs, *pos) {
                None => {
                    return Err(XMLHandlerError::UnexpectedEof { element: owned("constraints") });
                },
                Some(XmlEvent::Error(m)) => {
                    return Err(XMLHandlerError::ParseError { message: m.clone() });
                },
                Some(XmlEvent::Eof) => {
                    return Err(XMLHandlerError::UnexpectedEof { element: owned("constraints") });
                },
                Some(XmlEvent::Start(t)) => {
                    let is_min = named(&t.name, "min");
                    let is_max = named(&t.name, "max");
                    *pos = *pos + 1;
                    if is_min || is_max {
                        let text = read_inner_text(evs, *pos);
                        if *pos < evs.len() {
                            *pos = *pos + 1;
                        }
                        match text {
                            Err(e) => {
                                return Err(e);
                            },
                            Ok(None) => {},
                            Ok(Some(v)) => {
                                if is_min {
                                    c.min = Some(v);
                                } else {
                                    c.max = Some(v);
                                }
                            },
                        }
                    }
                },
                Some(XmlEvent::End(n)) => {
                    *pos = *pos + 1;
                    if named(n, "constraints") {
                        return Ok(c);
                    }
                },
                Some(_) => {
                    *pos = *pos + 1;
                },
            }
        }
    }
}

impl Variable {
    /// Creates a variable.
    pub fn new(
        id: String,
        default: String,
        value_attr: String,
        depends_array: Vec<Depend>,
        ref_array: Vec<Reference>,
        constraint: Option<Constraint>,
    ) -> (r: Self)
        ensures
            r.id == id,
            r.default == default,
            r.value_attr == value_attr,
            r.depends_array == depends_array,
            r.ref_array == ref_array,
            r.constraint == constraint,
    {
        Variable { id, default, value_attr, depends_array, ref_array, constraint }
    }

    /// The `variable` (or `case`) element whose opening tag `tag` was read
    /// before `*pos`; `*pos` ends after its closing tag.
    pub fn parse_variable(evs: &Vec<XmlEvent>, pos: &mut usize, tag: &XmlTag) -> (r: Result<
        Variable,
        XMLHandlerError,
    >)
        requires
            crate::xml_handler::events::name_prefix(tag.name@, tag.content@),
            tags_ok(evs@),
            *old(pos) <= evs@.len(),
        ensures
            r is Ok ==> *old(pos) < *final(pos) <= evs@.len(),
            matches_variable(
                r,
                *final(pos),
                variable_spec(
                    evs_view(evs@),
                    *old(pos) as int,
                    crate::xml_handler::events::tag_view(*tag),
                ),
            ),
        decreases evs@.len() + 1 - *old(pos), 2nat,
    {
        let ghost ev = evs_view(evs@);
        let attrs = match read_attributes(tag) {
            Err(e) => return Err(XMLHandlerError::AttributeError { message: e.0 }),
            Ok(a) => a,
        };
        let mut v = Variable::new(
            attribute_or_empty(&attrs, "id"),
            String::new(),
            attribute_or_empty(&attrs, "value"),
            Vec::new(),
            Vec::new(),
            None,
        );
        assert(variable_view(v).depends =~= Seq::<DependV>::empty());
        assert(variable_view(v).refs =~= Seq::<RefV>::empty());
        Self::parse_variable_rest(evs, pos, v)
    }

    /// The rest of a `variable` element from `*pos`, `v` holding what was read so far.
    #[verifier::loop_isolation(false)]
    fn parse_variable_rest(evs: &Vec<XmlEvent>, pos: &mut usize, v: Variable) -> (r: Result<
        Variable,
        XMLHandlerError,
    >)
        requires
            tags_ok(evs@),
            *old(pos) <= evs@.len(),
        ensures
            r is Ok ==> *old(pos) < *final(pos) <= evs@.len(),
            matches_variable(
                r,
                *final(pos),
                variable_loop(evs_view(evs@), *old(pos) as int, variable_view(v)),
            ),
        decreases evs@.len() + 1 - *old(pos), 1nat,
    {
        let ghost ev = evs_view(evs@);
        let ghost target = variable_loop(ev, *pos as int, variable_view(v));
        let ghost start = *pos;
        let mut v = v;
        loop
            invariant
                ev == evs_view(evs@),
                tags_ok(evs@),
                start <= *pos <= evs@.len(),
                variable_loop(ev, *pos as int, variable_view(v)) == target,
            decreases evs@.len() - *pos,
        {
            let here = *pos;
            match event_at(evs, *pos) {
                None => {
                    return Err(XMLHandlerError::UnexpectedEof { element: owned("variable") });
                },
                Some(XmlEvent::Error(m)) => {
                    return Err(XMLHandlerError::ParseError { message: m.clone() });
                },
                Some(XmlEvent::Eof) => {
                    return Err(XMLHandlerError::UnexpectedEof { element: owned("variable") });
                },
                Some(XmlEvent::Start(t)) => {
                    assert(crate::xml_handler::events::tag_ok(evs@[here as int]@));
                    *pos = *pos + 1;
                    if named(&t.name, "default") {
                        let text = read_inner_text(evs, *pos);
                        if *pos < evs.len() {
                            *pos = *pos + 1;
                        }
                        match text {
                            Err(e) => {
                                return Err(e);
                            },
                            Ok(None) => {},
                            Ok(Some(d)) => {
                                v.default = d;
                            },
                        }
                    } else if named(&t.name, "reference") {
                        let r = Reference::parse_reference(evs, pos, t);
                        match r {
                            Err(e) => {
                                return Err(e);
                            },
                            Ok(r) => {
                                let ghost old_v = variable_view(v);
                                v.ref_array.push(r);
                                assert(variable_view(v).refs =~= old_v.refs.push(ref_view(r)));
                                assert(variable_view(v).depends =~= old_v.depends);
                            },
                        }
                    } else if named(&t.name, "constraints") {
                        let c = Constraint::parse_constraint(evs, pos);
                        match c {
                            Err(e) => {
                                return Err(e);
                            },
                            Ok(c) => {
                                let ghost old_v = variable_view(v);
                                v.constraint = Some(c);
                                assert(variable_view(v).depends =~= old_v.depends);
                            },
                        }
                    } else if named(&t.name, "depends") {
                        let d = Depend::parse_depend(evs, pos, t);
                        match d {
                            Err(e) => {
                                return Err(e);
                            },
                            Ok(d) => {
                                let ghost old_v = variable_view(v);
                                v.depends_array.push(d);
                                assert(variable_view(v).depends =~= old_v.depends.push(depend_view(d)));
                                assert(variable_view(v).refs =~= old_v.refs);
                            },
                        }
                    }
                },
                Some(XmlEvent::Empty(t)) => {
                    assert(crate::xml_handler::events::tag_ok(evs@[here as int]@));
                    *pos = *pos + 1;
                    if named(&t.name, "reference") {
                        match Reference::parse_reference_attr_only(t) {
                            Err(e) => {
                                return Err(e);
                            },
                            Ok(r) => {
                                let ghost old_v = variable_view(v);
                                v.ref_array.push(r);
                                assert(variable_view(v).refs =~= old_v.refs.push(ref_view(r)));
                                assert(variable_view(v).depends =~= old_v.depends);
                            },
                        }
                    }
                },
                Some(XmlEvent::End(n)) => {
                    *pos = *pos + 1;
                    if named(n, "case") || named(n, "variable") {
                        return Ok(v);
                    }
                },
                Some(_) => {
                    *pos = *pos + 1;
                },
            }
        }
    }
}

impl Depend {
    /// The `depends` element whose opening tag `tag` was read before `*pos`.
    pub fn parse_depend(evs: &Vec<XmlEvent>, pos: &mut usize, tag: &XmlTag) -> (r: Result<
        Depend,
        XMLHandlerError,
    >)
        requires
            crate::xml_handler::events::name_prefix(tag.name@, tag.content@),
            tags_ok(evs@),
            *old(pos) <= evs@.len(),
        ensures
            r is Ok ==> *old(pos) < *final(pos) <= evs@.len(),
            matches_depend(
                r,
                *final(pos),
                depend_spec(
                    evs_view(evs@),
                    *old(pos) as int,
                    crate::xml_handler::events::tag_view(*tag),
                ),
            ),
        decreases evs@.len() + 1 - *old(pos), 2nat,
    {
        let attrs = match read_attributes(tag) {
            Err(e) => return Err(XMLHandlerError::AttributeError { message: e.0 }),
            Ok(a) => a,
        };
        let d = Depend { re_f: attribute_or_empty(&attrs, "ref"), _variables: Vec::new() };
        assert(depend_view(d).vars =~= Seq::<VariableV>::empty());
        Self::parse_depend_rest(evs, pos, d)
    }

    #[verifier::loop_isolation(false)]
    fn parse_depend_rest(evs: &Vec<XmlEvent>, pos: &mut usize, d: Depend) -> (r: Result<
        Depend,
        XMLHandlerError,
    >)
        requires
            tags_ok(evs@),
            *old(pos) <= evs@.len(),
        ensures
            r is Ok ==> *old(pos) < *final(pos) <= evs@.len(),
            matches_depend(r, *final(pos), depend_loop(evs_view(evs@), *old(pos) as int, depend_view(d))),
        decreases evs@.len() + 1 - *old(pos), 1nat,
    {
        let ghost ev = evs_view(evs@);
        let ghost target = depend_loop(ev, *pos as int, depend_view(d));
        let ghost start = *pos;
        let mut d = d;
        loop
            invariant
                ev == evs_view(evs@),
                tags_ok(evs@),
                start <= *pos <= evs@.len(),
                depend_loop(ev, *pos as int, depend_view(d)) == target,
            decreases evs@.len() - *pos,
        {
            let here = *pos;
            match event_at(evs, *pos) {
                None => {
                    return Err(XMLHandlerError::UnexpectedEof { element: owned("depends") });
                },
                Some(XmlEvent::Error(m)) => {
                    return Err(XMLHandlerError::ParseError { message: m.clone() });
                },
                Some(XmlEvent::Eof) => {
                    return Err(XMLHandlerError::UnexpectedEof { element: owned("depends") });
                },
                Some(XmlEvent::Start(t)) => {
                    assert(crate::xml_handler::events::tag_ok(evs@[here as int]@));
                    *pos = *pos + 1;
                    if named(&t.name, "case") {
                        match Variable::parse_variable(evs, pos, t) {
                            Err(e) => {
                                return Err(e);
                            },
                            Ok(v) => {
                                let ghost old_d = depend_view(d);
                                d._variables.push(v);
                                assert(depend_view(d).vars =~= old_d.vars.push(variable_view(v)));
                            },
                        }
                    }
                },
                Some(XmlEvent::End(n)) => {
                    *pos = *pos + 1;
                    if named(n, "depends") {
                        return Ok(d);
                    }
                },
                Some(_) => {
                    *pos = *pos + 1;
                },
            }
        }
    }
}

impl Variables {
    /// The `variables` element whose opening tag was read before `*pos`.
    #[verifier::loop_isolation(false)]
    pub fn parse_variables(evs: &Vec<XmlEvent>, pos: &mut usize) -> (r: Result<
        Variables,
        XMLHandlerError,
    >)
        requires
            tags_ok(evs@),
            *old(pos) <= evs@.len(),
        ensures
            r is Ok ==> *old(pos) < *final(pos) <= evs@.len(),
            matches_variables(r, *final(pos), variables_loop(evs_view(evs@), *old(pos) as int, Seq::empty())),
    {
        let ghost ev = evs_view(evs@);
        let mut vars: Vec<Variable> = Vec::new();
        let ghost target = variables_loop(ev, *pos as int, Seq::empty());
        assert(variables_view(vars@) =~= Seq::<VariableV>::empty());
        loop
            invariant
                ev == evs_view(evs@),
                tags_ok(evs@),
                *old(pos) <= *pos <= evs@.len(),
                variables_loop(ev, *pos as int, variables_view(vars@)) == target,
            decreases evs@.len() - *pos,
        {
            let here = *pos;
            match event_at(evs, *pos) {
                None => {
                    return Err(XMLHandlerError::UnexpectedEof { element: owned("variables") });
                },
                Some(XmlEvent::Error(m)) => {
                    return Err(XMLHandlerError::ParseError { message: m.clone() });
                },
                Some(XmlEvent::Eof) => {
                    return Err(XMLHandlerError::UnexpectedEof { element: owned("variables") });
                },
                Some(XmlEvent::Start(t)) => {
                    assert(crate::xml_handler::events::tag_ok(evs@[here as int]@));
                    *pos = *pos + 1;
                    if named(&t.name, "variable") {
                        match Variable::parse_variable(evs, pos, t) {
                            Err(e) => {
                                return Err(e);
                            },
                            Ok(v) => {
                                let ghost old_vs = variables_view(vars@);
                                vars.push(v);
                                assert(variables_view(vars@) =~= old_vs.push(variable_view(v)));
                            },
                        }
                    }
                },
                Some(XmlEvent::End(n)) => {
                    *pos = *pos + 1;
                    if named(n, "variables") {
                        return Ok(Variables { variable_array: vars });
                    }
                },
                Some(_) => {
                    *pos = *pos + 1;
                },
            }
        }
    }
}


// ---------------------------------------------------------------------------
// Copies.
impl Reference {
    /// A copy of this reference.
    pub fn duplicate(&self) -> (r: Self)
        ensures
            ref_view(r) == ref_view(*self),
    {
        Reference::new(self.id.clone(), self.default.clone(), self.useall.clone(), self.value.clone())
    }
}

impl Constraint {
    /// A copy of this constraint.
    pub fn duplicate(&self) -> (r: Self)
        ensures
            constraint_view(r) == constraint_view(*self),
    {
        let min = match &self.min {
            Some(v) => Some(v.clone()),
            None => None,
        };
        let max = match &self.max {
            Some(v) => Some(v.clone()),
            None => None,
        };
        Constraint { min, max }
    }
}

impl Variable {
    /// A copy of this variable.
    pub fn duplicate(&self) -> (r: Self)
        ensures
            variable_view(r) == variable_view(*self),
        decreases self,
    {
        let mut deps: Vec<Depend> = Vec::new();
        let mut i: usize = 0;
        while i < self.depends_array.len()
            invariant
                i <= self.depends_array@.len(),
                deps@.len() == i,
                forall|k: int| 0 <= k < i ==> depend_view(#[trigger] deps@[k]) == depend_view(self.depends_array@[k]),
            decreases self.depends_array.len() - i,
        {
            proof {
                assert(decreases_to!(self => self.depends_array));
                assert(decreases_to!(self.depends_array => self.depends_array@));
                assert(decreases_to!(self.depends_array@ => self.depends_array@[i as int]));
            }
            deps.push(self.depends_array[i].duplicate());
            i = i + 1;
        }
        let mut refs: Vec<Reference> = Vec::new();
        let mut j: usize = 0;
        while j < self.ref_array.len()
            invariant
                j <= self.ref_array@.len(),
                refs@.len() == j,
                forall|k: int| 0 <= k < j ==> ref_view(#[trigger] refs@[k]) == ref_view(self.ref_array@[k]),
            decreases self.ref_array.len() - j,
        {
            refs.push(self.ref_array[j].duplicate());
            j = j + 1;
        }
        let constraint = match &self.constraint {
            Some(c) => Some(c.duplicate()),
            None => None,
        };
        let r = Variable::new(
            self.id.clone(),
            self.default.clone(),
            self.value_attr.clone(),
            deps,
            refs,
            constraint,
        );
        assert(variable_view(r).depends =~= variable_view(*self).depends);
        assert(variable_view(r).refs =~= variable_view(*self).refs);
        r
    }
}

impl Depend {
    /// A copy of this dependency.
    pub fn duplicate(&self) -> (r: Self)
        ensures
            depend_view(r) == depend_view(*self),
        decreases self,
    {
        let mut vars: Vec<Variable> = Vec::new();
        let mut i: usize = 0;
        while i < self._variables.len()
            invariant
                i <= self._variables@.len(),
                vars@.len() == i,
                forall|k: int| 0 <= k < i ==> variable_view(#[trigger] vars@[k]) == variable_view(self._variables@[k]),
            decreases self._variables.len() - i,
        {
            proof {
                assert(decreases_to!(self => self._variables));
                assert(decreases_to!(self._variables => self._variables@));
                assert(decreases_to!(self._variables@ => self._variables@[i as int]));
            }
            vars.push(self._variables[i].duplicate());
            i = i + 1;
        }
        let r = Depend { re_f: self.re_f.clone(), _variables: vars };
        assert(depend_view(r).vars =~= depend_view(*self).vars);
        r
    }
}

/// A copy of a list of variables.
pub fn duplicate_variables(v: &Vec<Variable>) -> (r: Vec<Variable>)
    ensures
        variables_view(r@) == variables_view(v@),
{
    let mut r: Vec<Variable> = Vec::new();
    let mut i: usize = 0;
    while i < v.len()
        invariant
            i <= v@.len(),
            r@.len() == i,
            forall|k: int| 0 <= k < i ==> variable_view(#[trigger] r@[k]) == variable_view(v@[k]),
        decreases v.len() - i,
    {
        r.push(v[i].duplicate());
        i = i + 1;
    }
    assert(variables_view(r@) =~= variables_view(v@));
    r
}

} // verus!
