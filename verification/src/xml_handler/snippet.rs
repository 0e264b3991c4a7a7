//! The `snippet` tag: a piece of script code with substitutions.
use vstd::prelude::*;

use crate::script_aggregator::script_buffer::ScriptBuffer;
use crate::text::{chars_of, lines_of, lines_vec, replace_string, string_of};
use crate::text::{extend_vec, owned};
use crate::xml_handler::composite::{
    append_lines, apply_scopes, apply_subs, cond_view, conds_view, lookup, opt_scope_view,
    snippet_view, subst_view, subs_view, ChunkV, CondV, SubstV, SubstitutionScope,
};
use crate::xml_handler::condition::{condition_spec, Condition};
use crate::xml_handler::error::{ErrV, XMLHandlerError};
use crate::xml_handler::events::{
    tag_view, trim_xml, unescape_text, xml_trim, xml_unescaped, EventV, TagV, XmlEvent, XmlTag,
};
use crate::xml_handler::substitute::{skip1, substitute_spec, Substitute};
use crate::xml_handler::value_map::ValueMap;
use crate::xml_handler::variable::{
    attr_or_empty, attribute_or_empty, ev_at, event_at, evs_view, named, read_attributes,
    tag_attrs, tags_ok,
};

verus! {

/// Represents the snippet tag in the XML data.
#[derive(Debug)]
pub struct Snippet {
    /// The name of the snippet.
    pub name: String,
    /// The repeat attribute of the snippet.
    pub repeat: String,
    /// The indent level
    pub indent: i32,
    /// The actual code snippet.
    pub code_snippet: String,
    /// The substitutions associated with the snippet.
    pub substitutions: Vec<Substitute>,
    /// The conditions associated with the snippet.
    pub conditions: Vec<Condition>,
    /// The inherited substitution scope, if any.
    pub parent: Option<Box<SubstitutionScope>>,
}

/// `code` with each substitution's pattern replaced by its symbol's value, in order.
pub fn substitute_all(code: String, subs: &Vec<Substitute>, val_replacement_map: &ValueMap) -> (r:
    String)
    ensures
        r@ == apply_subs(code@, subs_view(subs@), val_replacement_map@),
{
    let ghost sv = subs_view(subs@);
    let mut cur = code;
    let mut i: usize = 0;
    assert(sv.skip(0) =~= sv);
    while i < subs.len()
        invariant
            i <= subs.len(),
            sv == subs_view(subs@),
            apply_subs(cur@, sv.skip(i as int), val_replacement_map@) == apply_subs(
                code@,
                sv,
                val_replacement_map@,
            ),
        decreases subs.len() - i,
    {
        let sub = &subs[i];
        let to_val = lookup(val_replacement_map, sub.name.as_str());
        proof {
            let rest = sv.skip(i as int);
            assert(rest[0] == (sub.name@, sub.value@));
            assert(rest.drop_first() =~= sv.skip(i + 1));
        }
        cur = replace_string(&cur, &sub.value, &to_val);
        i = i + 1;
    }
    assert(sv.skip(i as int) =~= Seq::<(Seq<char>, Seq<char>)>::empty());
    cur
}

/// `code` with the substitutions of `scope` and its ancestors applied, innermost first.
pub fn substitute_scopes(
    code: String,
    scope: &Option<Box<SubstitutionScope>>,
    val_replacement_map: &ValueMap,
) -> (r: String)
    ensures
        r@ == apply_scopes(code@, opt_scope_view(*scope), val_replacement_map@),
    decreases *scope,
{
    match scope {
        None => code,
        Some(s) => {
            let inner = substitute_all(code, &s.substitutions, val_replacement_map);
            substitute_scopes(inner, &s.parent, val_replacement_map)
        },
    }
}

/// The rest of a `snippet` element from `pos`: text (trimmed of XML
/// whitespace and unescaped) is appended to the code; `substitute` and
/// `condition` elements are collected; the element ends at `</snippet>`.
pub open spec fn snippet_loop(
    evs: Seq<EventV>,
    pos: int,
    name: Seq<char>,
    repeat: Seq<char>,
    code: Seq<char>,
    subs: Seq<SubstV>,
    conds: Seq<CondV>,
) -> (Result<ChunkV, ErrV>, int)
    decreases evs.len() + 1 - pos,
{
    match ev_at(evs, pos) {
        EventV::Error(m) => (Err(ErrV::Parse(m)), pos + 1),
        EventV::Eof => (Err(ErrV::Eof("snippet"@)), pos + 1),
        EventV::Text(raw) => match xml_unescaped(xml_trim(raw)) {
            Ok(t) => snippet_loop(evs, pos + 1, name, repeat, code + t, subs, conds),
            Err(m) => (Err(ErrV::Parse(m)), pos + 1),
        },
        EventV::Start(t) => if t.name == "substitute"@ {
            match substitute_spec(evs, pos + 1, t) {
                Ok(x) => snippet_loop(evs, skip1(evs, pos + 1), name, repeat, code, subs.push(x), conds),
                Err(e) => (Err(e), skip1(evs, pos + 1)),
            }
        } else if t.name == "condition"@ {
            match condition_spec(evs, pos + 1, t) {
                Ok(x) => snippet_loop(evs, skip1(evs, pos + 1), name, repeat, code, subs, conds.push(x)),
                Err(e) => (Err(e), skip1(evs, pos + 1)),
            }
        } else {
            snippet_loop(evs, pos + 1, name, repeat, code, subs, conds)
        },
        EventV::End(n) => if n == "snippet"@ {
            (
                Ok(ChunkV::Snippet { name, repeat, indent: 0, code, subs, conds }),
                pos + 1,
            )
        } else {
            snippet_loop(evs, pos + 1, name, repeat, code, subs, conds)
        },
        _ => snippet_loop(evs, pos + 1, name, repeat, code, subs, conds),
    }
}

/// A `snippet` element whose opening tag `t` was read before `pos`.
pub open spec fn snippet_spec(evs: Seq<EventV>, pos: int, t: TagV) -> (Result<ChunkV, ErrV>, int) {
    match tag_attrs(t) {
        Err(e) => (Err(ErrV::Attribute(e.0)), pos),
        Ok(a) => snippet_loop(
            evs,
            pos,
            attr_or_empty(a, "name"@),
            attr_or_empty(a, "repeat"@),
            Seq::empty(),
            Seq::empty(),
            Seq::empty(),
        ),
    }
}

/// The parsed snippet `r`, ending at `p`, is what the grammar gives.
pub open spec fn matches_snippet(
    r: Result<Snippet, XMLHandlerError>,
    p: usize,
    s: (Result<ChunkV, ErrV>, int),
) -> bool {
    match (r, s.0) {
        (Ok(x), Ok(v)) => snippet_view(x) == v && x.parent is None && p == s.1,
        (Err(e), Err(ev)) => e@ == ev,
        _ => false,
    }
}

impl Snippet {
    /// Parses the `snippet` element whose opening tag `tag` was read before
    /// `*pos` (see [`snippet_spec`]); `*pos` ends after its closing tag.
    #[verifier::loop_isolation(false)]
    pub fn parse_snippet(evs: &Vec<XmlEvent>, pos: &mut usize, tag: &XmlTag) -> (r: Result<
        Snippet,
        XMLHandlerError,
    >)
        requires
            crate::xml_handler::events::name_prefix(tag.name@, tag.content@),
            tags_ok(evs@),
            *old(pos) <= evs@.len(),
        ensures
            r is Ok ==> *old(pos) < *final(pos) <= evs@.len(),
            matches_snippet(r, *final(pos), snippet_spec(evs_view(evs@), *old(pos) as int, tag_view(*tag))),
    {
        let ghost ev = evs_view(evs@);
        let attrs = match read_attributes(tag) {
            Err(e) => return Err(XMLHandlerError::AttributeError { message: e.0 }),
            Ok(a) => a,
        };
        let name = attribute_or_empty(&attrs, "name");
        let repeat = attribute_or_empty(&attrs, "repeat");
        let mut code: Vec<char> = Vec::new();
        let mut subs: Vec<Substitute> = Vec::new();
        let mut conds: Vec<Condition> = Vec::new();
        let ghost target = snippet_loop(ev, *pos as int, name@, repeat@, code@, subs_view(subs@), conds_view(conds@));
        assert(subs_view(subs@) =~= Seq::<SubstV>::empty());
        assert(conds_view(conds@) =~= Seq::<CondV>::empty());
        loop
            invariant
                ev == evs_view(evs@),
                tags_ok(evs@),
                *old(pos) <= *pos <= evs@.len(),
                snippet_loop(ev, *pos as int, name@, repeat@, code@, subs_view(subs@), conds_view(conds@)) == target,
            decreases evs@.len() - *pos,
        {
            let here = *pos;
            match event_at(evs, *pos) {
                None => {
                    return Err(XMLHandlerError::UnexpectedEof { element: owned("snippet") });
                },
                Some(XmlEvent::Error(m)) => {
                    return Err(XMLHandlerError::ParseError { message: m.clone() });
                },
                Some(XmlEvent::Eof) => {
                    return Err(XMLHandlerError::UnexpectedEof { element: owned("snippet") });
                },
                Some(XmlEvent::Text(raw)) => {
                    let trimmed = trim_xml(raw.as_str());
                    match unescape_text(trimmed.as_str()) {
                        Ok(t) => {
                            extend_vec(&mut code, &crate::text::chars_of(t.as_str()));
                        },
                        Err(m) => {
                            return Err(XMLHandlerError::ParseError { message: m });
                        },
                    }
                    *pos = *pos + 1;
                },
                Some(XmlEvent::Start(t)) => {
                    assert(crate::xml_handler::events::tag_ok(evs@[here as int]@));
                    *pos = *pos + 1;
                    if named(&t.name, "substitute") {
                        match Substitute::parse_substitute(evs, pos, t) {
                            Err(e) => {
                                return Err(e);
                            },
                            Ok(x) => {
                                let ghost old_s = subs_view(subs@);
                                subs.push(x);
                                assert(subs_view(subs@) =~= old_s.push(subst_view(x)));
                            },
                        }
                    } else if named(&t.name, "condition") {
                        match Condition::parse_condition(evs, pos, t) {
                            Err(e) => {
                                return Err(e);
                            },
                            Ok(x) => {
                                let ghost old_c = conds_view(conds@);
                                conds.push(x);
                                assert(conds_view(conds@) =~= old_c.push(cond_view(x)));
                            },
                        }
                    }
                },
                Some(XmlEvent::End(n)) => {
                    *pos = *pos + 1;
                    if named(n, "snippet") {
                        let code_text = string_of(code.as_slice());
                        return Ok(Snippet::new(name, repeat, code_text, subs, conds));
                    }
                },
                Some(_) => {
                    *pos = *pos + 1;
                },
            }
        }
    }

    /// Creates a snippet with no indentation and no inherited scope.
    pub fn new(
        name: String,
        repeat: String,
        code_snippet: String,
        substitutions: Vec<Substitute>,
        conditions: Vec<Condition>,
    ) -> (r: Self)
        ensures
            r.name == name,
            r.repeat == repeat,
            r.indent == 0,
            r.code_snippet == code_snippet,
            r.substitutions == substitutions,
            r.conditions == conditions,
            r.parent is None,
    {
        Snippet { name, repeat, indent: 0, code_snippet, substitutions, conditions, parent: None }
    }

    /// Applies the snippet's substitutions, then those of its inherited scopes
    /// (innermost first), and appends the resulting code to the body of the
    /// script one line at a time.
    pub fn evaluate_snippet(&self, script_buffer: &mut ScriptBuffer, val_replacement_map: &ValueMap)
        ensures
            final(script_buffer)@ == append_lines(
                old(script_buffer)@,
                lines_of(
                    apply_scopes(
                        apply_subs(
                            self.code_snippet@,
                            subs_view(self.substitutions@),
                            val_replacement_map@,
                        ),
                        opt_scope_view(self.parent),
                        val_replacement_map@,
                    ),
                ),
            ),
    {
        let code = substitute_all(self.code_snippet.clone(), &self.substitutions, val_replacement_map);
        let code = substitute_scopes(code, &self.parent, val_replacement_map);
        self.insert(script_buffer, code);
    }

    /// Appends `temp_code` to the body of the script one line at a time, so
    /// that the script uses its own line ends.
    pub fn insert(&self, script_buffer: &mut ScriptBuffer, temp_code: String)
        ensures
            final(script_buffer)@ == append_lines(old(script_buffer)@, lines_of(temp_code@)),
    {
        let lines = lines_vec(&chars_of(temp_code.as_str()));
        let ghost ls = lines_of(temp_code@);
        let mut i: usize = 0;
        assert(ls.skip(0) =~= ls);
        while i < lines.len()
            invariant
                i <= lines.len(),
                lines@.len() == ls.len(),
                forall|k: int| 0 <= k < lines@.len() ==> (#[trigger] lines@[k])@ == ls[k],
                append_lines(script_buffer@, ls.skip(i as int)) == append_lines(
                    old(script_buffer)@,
                    ls,
                ),
            decreases lines.len() - i,
        {
            let line = string_of(lines[i].as_slice());
            proof {
                assert(ls.skip(i as int).drop_first() =~= ls.skip(i + 1));
                assert(ls.skip(i as int)[0] == ls[i as int]);
            }
            script_buffer.body_append(line);
            i = i + 1;
        }
        assert(ls.skip(i as int) =~= Seq::<Seq<char>>::empty());
    }
}

} // verus!
