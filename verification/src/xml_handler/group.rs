//! The `group` tag: the outermost element of the function metadata, the
//! `composite` tag, and the `include` tag that pulls in a resource.
use vstd::prelude::*;

use crate::text::{owned, replace_seq};
use crate::xml_handler::composite::{
    chunk_parent, chunk_view, composite_view, cond_view, conds_view, snippet_view, subst_view, subs_view, ChunkV,
    Composite, CondV, SubstV,
};
use crate::xml_handler::condition::{condition_spec, Condition};
use crate::xml_handler::error::{ErrV, XMLHandlerError};
use crate::xml_handler::events::{doc_events, tag_view, tokenize, EventV, TagV, XmlEvent, XmlTag};
use crate::xml_handler::resources::{resource_index, version_marker, Resources, RESOURCE_COUNT};
use crate::xml_handler::snippet::{snippet_spec, Snippet};
use crate::xml_handler::substitute::{skip1, substitute_spec, Substitute};
use crate::xml_handler::variable::{
    attr_or_empty, attribute, attribute_or_empty, ev_at, event_at, evs_view, last_attr, named,
    duplicate_variables, opt_text, read_attributes, tag_attrs, tags_ok, variables_loop,
    variables_view, Variable, VariableV, Variables,
};

verus! {

/// A child of a group or composite: a snippet or a composite.
#[derive(Debug)]
pub enum IncludeResult {
    Snippet(Snippet),
    Composite(Composite),
}

/// What an included resource holds.
#[derive(Debug)]
pub enum ExternalFileResult {
    Snippet(Snippet),
    Composite(Composite),
    Variables(Variables),
}

/// Represents the outer-most XML node with an ID, type, children, and a list of variables.
#[derive(Debug)]
pub struct Group {
    /// The unique identifier for the group. (INITIALIZE, FINALIZE, etc.)
    pub id: String,
    /// The type of the group. (Initialize, Finalize, etc.)
    pub type_: String,
    /// The children of the group. (Composites, Snippets, etc.)
    pub children: Vec<IncludeResult>,
    /// The list of variables defined in the group.
    pub variable_list: Vec<Variable>,
}

pub enum ExtV {
    Snippet(ChunkV),
    Composite(ChunkV),
    Variables(Seq<VariableV>),
}

pub struct GroupV {
    pub id: Seq<char>,
    pub type_: Seq<char>,
    pub children: Seq<ChunkV>,
    pub vars: Seq<VariableV>,
}

pub open spec fn ext_view(e: ExternalFileResult) -> ExtV {
    match e {
        ExternalFileResult::Snippet(s) => ExtV::Snippet(snippet_view(s)),
        ExternalFileResult::Composite(c) => ExtV::Composite(composite_view(c)),
        ExternalFileResult::Variables(v) => ExtV::Variables(variables_view(v.variable_array@)),
    }
}

pub open spec fn children_view(v: Seq<IncludeResult>) -> Seq<ChunkV> {
    v.map_values(|c: IncludeResult| chunk_view(c))
}

pub open spec fn group_view(g: Group) -> GroupV {
    GroupV {
        id: g.id@,
        type_: g.type_@,
        children: children_view(g.children@),
        vars: variables_view(g.variable_list@),
    }
}

// ---------------------------------------------------------------------------
// The grammar.
/// A composite being read.
pub struct CompAcc {
    pub name: Seq<char>,
    pub type_: Option<Seq<char>>,
    pub repeat: Seq<char>,
    pub indent: int,
    pub subs: Seq<SubstV>,
    pub conds: Seq<CondV>,
    pub children: Seq<ChunkV>,
}

pub open spec fn acc_chunk(a: CompAcc) -> ChunkV {
    ChunkV::Composite {
        name: a.name,
        type_: a.type_,
        repeat: a.repeat,
        indent: a.indent,
        subs: a.subs,
        conds: a.conds,
        children: a.children,
    }
}

/// The indentation an `indent` attribute asks for: 4 for `default`, otherwise 0.
pub open spec fn indent_of(a: Seq<(Seq<char>, Seq<char>)>) -> int {
    match last_attr(a, "indent"@) {
        Some(v) => if v == "default"@ {
            4
        } else {
            0
        },
        None => 0,
    }
}

/// The `path` of an include tag (empty when its attributes cannot be read).
pub open spec fn include_path(t: TagV) -> Seq<char> {
    match tag_attrs(t) {
        Ok(a) => attr_or_empty(a, "path"@),
        Err(_) => Seq::empty(),
    }
}

/// How many more resources may be opened inside the ones in `open`.
pub open spec fn rem(open: Seq<int>) -> nat {
    if open.len() < RESOURCE_COUNT {
        (RESOURCE_COUNT - open.len()) as nat
    } else {
        0
    }
}

/// The events of resource `i` with the version filled in.
pub open spec fn resource_events(texts: Seq<Seq<char>>, version: Seq<char>, i: int) -> Seq<EventV> {
    doc_events(replace_seq(texts[i], version_marker(), version))
}

/// A `composite` element whose opening tag `t` was read before `pos`;
/// `open` lists the resources being included around it.
pub open spec fn composite_spec(
    evs: Seq<EventV>,
    pos: int,
    t: TagV,
    texts: Seq<Seq<char>>,
    version: Seq<char>,
    open: Seq<int>,
) -> (Result<ChunkV, ErrV>, int)
    decreases rem(open), evs.len() + 1 - pos, 2nat,
{
    match tag_attrs(t) {
        Err(e) => (Err(ErrV::Attribute(e.0)), pos),
        Ok(a) => composite_loop(
            evs,
            pos,
            CompAcc {
                name: attr_or_empty(a, "name"@),
                type_: last_attr(a, "type"@),
                repeat: attr_or_empty(a, "repeat"@),
                indent: indent_of(a),
                subs: Seq::empty(),
                conds: Seq::empty(),
                children: Seq::empty(),
            },
            texts,
            version,
            open,
        ),
    }
}

/// The rest of a `composite` element from `pos`: substitutions, conditions,
/// snippets, nested composites and included resources are collected; the
/// element ends at `</composite>`.
pub open spec fn composite_loop(
    evs: Seq<EventV>,
    pos: int,
    acc: CompAcc,
    texts: Seq<Seq<char>>,
    version: Seq<char>,
    open: Seq<int>,
) -> (Result<ChunkV, ErrV>, int)
    decreases rem(open), evs.len() + 1 - pos, 1nat,
{
    match ev_at(evs, pos) {
        EventV::Error(m) => (Err(ErrV::Parse(m)), pos + 1),
        EventV::Eof => (Err(ErrV::Eof("composite"@)), pos + 1),
        EventV::Start(t) => if t.name == "substitute"@ {
            match substitute_spec(evs, pos + 1, t) {
                Ok(x) => composite_loop(
                    evs,
                    skip1(evs, pos + 1),
                    CompAcc { subs: acc.subs.push(x), ..acc },
                    texts,
                    version,
                    open,
                ),
                Err(e) => (Err(e), skip1(evs, pos + 1)),
            }
        } else if t.name == "condition"@ {
            match condition_spec(evs, pos + 1, t) {
                Ok(x) => composite_loop(
                    evs,
                    skip1(evs, pos + 1),
                    CompAcc { conds: acc.conds.push(x), ..acc },
                    texts,
                    version,
                    open,
                ),
                Err(e) => (Err(e), skip1(evs, pos + 1)),
            }
        } else if t.name == "snippet"@ {
            match snippet_spec(evs, pos + 1, t) {
                (Ok(s), p) => if pos < p <= evs.len() + 1 {
                    composite_loop(
                        evs,
                        p,
                        CompAcc { children: acc.children.push(s), ..acc },
                        texts,
                        version,
                        open,
                    )
                } else {
                    (Err(ErrV::Eof("composite"@)), p)
                },
                (Err(e), p) => (Err(e), p),
            }
        } else if t.name == "composite"@ {
            match composite_spec(evs, pos + 1, t, texts, version, open) {
                (Ok(c), p) => if pos < p <= evs.len() + 1 {
                    composite_loop(
                        evs,
                        p,
                        CompAcc { children: acc.children.push(c), ..acc },
                        texts,
                        version,
                        open,
                    )
                } else {
                    (Err(ErrV::Eof("composite"@)), p)
                },
                (Err(e), p) => (Err(e), p),
            }
        } else {
            composite_loop(evs, pos + 1, acc, texts, version, open)
        },
        EventV::Empty(t) => if t.name == "include"@ {
            match include_spec(t, texts, version, open) {
                Ok(ExtV::Snippet(s)) => composite_loop(
                    evs,
                    pos + 1,
                    CompAcc { children: acc.children.push(s), ..acc },
                    texts,
                    version,
                    open,
                ),
                Ok(ExtV::Composite(c)) => composite_loop(
                    evs,
                    pos + 1,
                    CompAcc { children: acc.children.push(c), ..acc },
                    texts,
                    version,
                    open,
                ),
                Ok(ExtV::Variables(_)) => (Err(ErrV::Unsupported(include_path(t))), pos + 1),
                Err(e) => (Err(e), pos + 1),
            }
        } else {
            composite_loop(evs, pos + 1, acc, texts, version, open)
        },
        EventV::End(n) => if n == "composite"@ {
            (Ok(acc_chunk(acc)), pos + 1)
        } else {
            composite_loop(evs, pos + 1, acc, texts, version, open)
        },
        _ => composite_loop(evs, pos + 1, acc, texts, version, open),
    }
}

/// The resource named by the `path` of an `include` tag `t`, read up to its
/// first snippet, composite or variables element.  A resource already being
/// included around this one is refused.
pub open spec fn include_spec(
    t: TagV,
    texts: Seq<Seq<char>>,
    version: Seq<char>,
    open: Seq<int>,
) -> Result<ExtV, ErrV>
    decreases rem(open), 0int, 0nat,
{
    match tag_attrs(t) {
        Err(e) => Err(ErrV::Attribute(e.0)),
        Ok(a) => {
            let file = attr_or_empty(a, "path"@);
            match resource_index(file) {
                None => Err(ErrV::UnknownFile(file)),
                Some(i) => if open.len() >= RESOURCE_COUNT || open.contains(i) {
                    Err(ErrV::Unsupported(file))
                } else {
                    include_scan(
                        resource_events(texts, version, i),
                        0,
                        file,
                        texts,
                        version,
                        open.push(i),
                    )
                },
            }
        },
    }
}

/// The events of an included resource from `pos`, up to its first snippet,
/// composite or variables element.
pub open spec fn include_scan(
    evs: Seq<EventV>,
    pos: int,
    file: Seq<char>,
    texts: Seq<Seq<char>>,
    version: Seq<char>,
    open: Seq<int>,
) -> Result<ExtV, ErrV>
    decreases rem(open), evs.len() + 1 - pos, 3nat,
{
    match ev_at(evs, pos) {
        EventV::Error(m) => Err(ErrV::Parse(m)),
        EventV::Eof => Err(ErrV::Eof(file)),
        EventV::Start(t) => if t.name == "snippet"@ {
            match snippet_spec(evs, pos + 1, t).0 {
                Ok(s) => Ok(ExtV::Snippet(s)),
                Err(e) => Err(e),
            }
        } else if t.name == "composite"@ {
            match composite_spec(evs, pos + 1, t, texts, version, open).0 {
                Ok(c) => Ok(ExtV::Composite(c)),
                Err(e) => Err(e),
            }
        } else if t.name == "variables"@ {
            match variables_loop(evs, pos + 1, Seq::empty()).0 {
                Ok(vs) => Ok(ExtV::Variables(vs)),
                Err(e) => Err(e),
            }
        } else {
            include_scan(evs, pos + 1, file, texts, version, open)
        },
        _ => include_scan(evs, pos + 1, file, texts, version, open),
    }
}

/// The rest of a `group` element from `pos`: composites are collected, an
/// included composite is added and included variables become the group's
/// variables (an include that fails is skipped); the element ends at `</group>`.
pub open spec fn group_loop(
    evs: Seq<EventV>,
    pos: int,
    g: GroupV,
    texts: Seq<Seq<char>>,
    version: Seq<char>,
) -> (Result<GroupV, ErrV>, int)
    decreases evs.len() + 1 - pos,
{
    match ev_at(evs, pos) {
        EventV::Error(m) => (Err(ErrV::Parse(m)), pos + 1),
        EventV::Eof => (Err(ErrV::Eof("group"@)), pos + 1),
        EventV::Start(t) => if t.name == "composite"@ {
            match composite_spec(evs, pos + 1, t, texts, version, Seq::empty()) {
                (Ok(c), p) => if pos < p <= evs.len() + 1 {
                    group_loop(evs, p, GroupV { children: g.children.push(c), ..g }, texts, version)
                } else {
                    (Err(ErrV::Eof("group"@)), p)
                },
                (Err(e), p) => (Err(e), p),
            }
        } else {
            group_loop(evs, pos + 1, g, texts, version)
        },
        EventV::Empty(t) => if t.name == "include"@ {
            match include_spec(t, texts, version, Seq::empty()) {
                Ok(ExtV::Snippet(_)) => (Err(ErrV::Unsupported(include_path(t))), pos + 1),
                Ok(ExtV::Composite(c)) => group_loop(
                    evs,
                    pos + 1,
                    GroupV { children: g.children.push(c), ..g },
                    texts,
                    version,
                ),
                Ok(ExtV::Variables(vs)) => group_loop(
                    evs,
                    pos + 1,
                    GroupV { vars: vs, ..g },
                    texts,
                    version,
                ),
                Err(_) => group_loop(evs, pos + 1, g, texts, version),
            }
        } else {
            group_loop(evs, pos + 1, g, texts, version)
        },
        EventV::End(n) => if n == "group"@ {
            (Ok(g), pos + 1)
        } else {
            group_loop(evs, pos + 1, g, texts, version)
        },
        _ => group_loop(evs, pos + 1, g, texts, version),
    }
}

/// A `group` element whose opening tag `t` was read before `pos`.
pub open spec fn group_spec(
    evs: Seq<EventV>,
    pos: int,
    t: TagV,
    texts: Seq<Seq<char>>,
    version: Seq<char>,
) -> (Result<GroupV, ErrV>, int) {
    match tag_attrs(t) {
        Err(e) => (Err(ErrV::Attribute(e.0)), pos),
        Ok(a) => group_loop(
            evs,
            pos,
            GroupV {
                id: attr_or_empty(a, "id"@),
                type_: attr_or_empty(a, "type"@),
                children: Seq::empty(),
                vars: Seq::empty(),
            },
            texts,
            version,
        ),
    }
}

/// The groups of a document from `pos` to its end.
pub open spec fn groups_loop(
    evs: Seq<EventV>,
    pos: int,
    gs: Seq<GroupV>,
    texts: Seq<Seq<char>>,
    version: Seq<char>,
) -> Result<Seq<GroupV>, ErrV>
    decreases evs.len() + 1 - pos,
{
    match ev_at(evs, pos) {
        EventV::Error(m) => Err(ErrV::Parse(m)),
        EventV::Eof => Ok(gs),
        EventV::Start(t) => if t.name == "group"@ {
            match group_spec(evs, pos + 1, t, texts, version) {
                (Ok(g), p) => if pos < p <= evs.len() + 1 {
                    groups_loop(evs, p, gs.push(g), texts, version)
                } else {
                    Err(ErrV::Eof("group"@))
                },
                (Err(e), _) => Err(e),
            }
        } else {
            groups_loop(evs, pos + 1, gs, texts, version)
        },
        _ => groups_loop(evs, pos + 1, gs, texts, version),
    }
}


// ---------------------------------------------------------------------------
// The parsers.
pub open spec fn open_view(open: Seq<usize>) -> Seq<int> {
    open.map_values(|i: usize| i as int)
}

/// What has been read of a composite.
pub open spec fn comp_acc(c: Composite) -> CompAcc {
    CompAcc {
        name: c.name@,
        type_: opt_text(c.type_),
        repeat: c.repeat@,
        indent: c.indent as int,
        subs: subs_view(c.substitutions@),
        conds: conds_view(c.conditions@),
        children: composite_view(c)->children,
    }
}

pub open spec fn matches_composite(
    r: Result<Composite, XMLHandlerError>,
    p: usize,
    s: (Result<ChunkV, ErrV>, int),
) -> bool {
    match (r, s.0) {
        (Ok(x), Ok(v)) => composite_view(x) == v && x.parent is None && p == s.1,
        (Err(e), Err(ev)) => e@ == ev,
        _ => false,
    }
}

pub open spec fn matches_ext(r: Result<ExternalFileResult, XMLHandlerError>, s: Result<ExtV, ErrV>) -> bool {
    match (r, s) {
        (Ok(x), Ok(v)) => ext_view(x) == v,
        (Err(e), Err(ev)) => e@ == ev,
        _ => false,
    }
}

pub open spec fn matches_group(r: Result<Group, XMLHandlerError>, p: usize, s: (Result<GroupV, ErrV>, int)) -> bool {
    match (r, s.0) {
        (Ok(x), Ok(v)) => group_view(x) == v && p == s.1,
        (Err(e), Err(ev)) => e@ == ev,
        _ => false,
    }
}

pub open spec fn matches_groups(r: Result<Vec<Group>, XMLHandlerError>, s: Result<Seq<GroupV>, ErrV>) -> bool {
    match (r, s) {
        (Ok(x), Ok(v)) => x@.map_values(|g: Group| group_view(g)) == v,
        (Err(e), Err(ev)) => e@ == ev,
        _ => false,
    }
}

/// Whether `i` is in `open`.
fn is_open(open: &Vec<usize>, i: usize) -> (r: bool)
    ensures
        r == open_view(open@).contains(i as int),
{
    let mut k: usize = 0;
    while k < open.len()
        invariant
            k <= open@.len(),
            forall|j: int| 0 <= j < k ==> open@[j] != i,
        decreases open.len() - k,
    {
        if open[k] == i {
            assert(open_view(open@)[k as int] == i as int);
            return true;
        }
        k = k + 1;
    }
    proof {
        if open_view(open@).contains(i as int) {
            let j = choose|j: int| 0 <= j < open_view(open@).len() && open_view(open@)[j] == i as int;
            assert(open@[j] == i);
        }
    }
    false
}

/// `open` with `i` added.
fn with_pushed(open: &Vec<usize>, i: usize) -> (r: Vec<usize>)
    ensures
        open_view(r@) == open_view(open@).push(i as int),
{
    let mut r: Vec<usize> = Vec::new();
    let mut k: usize = 0;
    while k < open.len()
        invariant
            k <= open@.len(),
            r@ == open@.take(k as int),
        decreases open.len() - k,
    {
        r.push(open[k]);
        k = k + 1;
        assert(r@ =~= open@.take(k as int));
    }
    r.push(i);
    assert(r@ =~= open@.push(i));
    assert(open_view(r@) =~= open_view(open@).push(i as int));
    r
}

impl Composite {
    /// Parses the `composite` element whose opening tag `tag` was read
    /// before `*pos` (see [`composite_spec`]); `*pos` ends after its closing tag.
    pub fn parse_composite(
        evs: &Vec<XmlEvent>,
        pos: &mut usize,
        tag: &XmlTag,
        resources: &Resources,
    ) -> (r: Result<Composite, XMLHandlerError>)
        requires
            crate::xml_handler::events::name_prefix(tag.name@, tag.content@),
            tags_ok(evs@),
            *old(pos) <= evs@.len(),
        ensures
            r is Ok ==> *old(pos) < *final(pos) <= evs@.len(),
            matches_composite(
                r,
                *final(pos),
                composite_spec(
                    evs_view(evs@),
                    *old(pos) as int,
                    tag_view(*tag),
                    resources.texts(),
                    resources.version(),
                    Seq::empty(),
                ),
            ),
    {
        let open: Vec<usize> = Vec::new();
        assert(open_view(open@) =~= Seq::<int>::empty());
        parse_composite_in(evs, pos, tag, resources, &open)
    }
}

fn parse_composite_in(
    evs: &Vec<XmlEvent>,
    pos: &mut usize,
    tag: &XmlTag,
    resources: &Resources,
    open: &Vec<usize>,
) -> (r: Result<Composite, XMLHandlerError>)
    requires
        crate::xml_handler::events::name_prefix(tag.name@, tag.content@),
        tags_ok(evs@),
        *old(pos) <= evs@.len(),
    ensures
        r is Ok ==> *old(pos) < *final(pos) <= evs@.len(),
        matches_composite(
            r,
            *final(pos),
            composite_spec(
                evs_view(evs@),
                *old(pos) as int,
                tag_view(*tag),
                resources.texts(),
                resources.version(),
                open_view(open@),
            ),
        ),
    decreases rem(open_view(open@)), evs@.len() + 1 - *old(pos), 2nat,
{
    let attrs = match read_attributes(tag) {
        Err(e) => return Err(XMLHandlerError::AttributeError { message: e.0 }),
        Ok(a) => a,
    };
    let indent: i32 = match attribute(&attrs, "indent") {
        Some(v) => if named(&v, "default") {
            4
        } else {
            0
        },
        None => 0,
    };
    let c = Composite::new(
        attribute_or_empty(&attrs, "name"),
        attribute(&attrs, "type"),
        indent,
        attribute_or_empty(&attrs, "repeat"),
        Vec::new(),
        Vec::new(),
        Vec::new(),
    );
    assert(comp_acc(c).subs =~= Seq::<SubstV>::empty());
    assert(comp_acc(c).conds =~= Seq::<CondV>::empty());
    assert(comp_acc(c).children =~= Seq::<ChunkV>::empty());
    parse_composite_rest(evs, pos, c, resources, open)
}

#[verifier::loop_isolation(false)]
fn parse_composite_rest(
    evs: &Vec<XmlEvent>,
    pos: &mut usize,
    c: Composite,
    resources: &Resources,
    open: &Vec<usize>,
) -> (r: Result<Composite, XMLHandlerError>)
    requires
        tags_ok(evs@),
        *old(pos) <= evs@.len(),
        c.parent is None,
    ensures
        r is Ok ==> *old(pos) < *final(pos) <= evs@.len(),
        matches_composite(
            r,
            *final(pos),
            composite_loop(
                evs_view(evs@),
                *old(pos) as int,
                comp_acc(c),
                resources.texts(),
                resources.version(),
                open_view(open@),
            ),
        ),
    decreases rem(open_view(open@)), evs@.len() + 1 - *old(pos), 1nat,
{
    let ghost ev = evs_view(evs@);
    let ghost texts = resources.texts();
    let ghost version = resources.version();
    let ghost ov = open_view(open@);
    let ghost target = composite_loop(ev, *pos as int, comp_acc(c), texts, version, ov);
    let mut c = c;
    loop
        invariant
            ev == evs_view(evs@),
            tags_ok(evs@),
            *old(pos) <= *pos <= evs@.len(),
            c.parent is None,
            composite_loop(ev, *pos as int, comp_acc(c), texts, version, ov) == target,
        decreases evs@.len() - *pos,
    {
        let here = *pos;
        match event_at(evs, *pos) {
            None => {
                return Err(XMLHandlerError::UnexpectedEof { element: owned("composite") });
            },
            Some(XmlEvent::Error(m)) => {
                return Err(XMLHandlerError::ParseError { message: m.clone() });
            },
            Some(XmlEvent::Eof) => {
                return Err(XMLHandlerError::UnexpectedEof { element: owned("composite") });
            },
            Some(XmlEvent::Start(t)) => {
                assert(crate::xml_handler::events::tag_ok(evs@[here as int]@));
                *pos = *pos + 1;
                if named(&t.name, "substitute") {
                    match Substitute::parse_substitute(evs, pos, t) {
                        Err(e) => {
                            return Err(e);
                        },
                        Ok(x) => {
                            let ghost old_a = comp_acc(c);
                            c.substitutions.push(x);
                            assert(comp_acc(c).subs =~= old_a.subs.push(subst_view(x)));
                            assert(comp_acc(c).children =~= old_a.children);
                        },
                    }
                } else if named(&t.name, "condition") {
                    match Condition::parse_condition(evs, pos, t) {
                        Err(e) => {
                            return Err(e);
                        },
                        Ok(x) => {
                            let ghost old_a = comp_acc(c);
                            c.conditions.push(x);
                            assert(comp_acc(c).conds =~= old_a.conds.push(cond_view(x)));
                            assert(comp_acc(c).children =~= old_a.children);
                        },
                    }
                } else if named(&t.name, "snippet") {
                    match Snippet::parse_snippet(evs, pos, t) {
                        Err(e) => {
                            return Err(e);
                        },
                        Ok(x) => {
                            let ghost old_a = comp_acc(c);
                            let ghost xv = snippet_view(x);
                            c.sub_children.push(IncludeResult::Snippet(x));
                            assert(chunk_view(IncludeResult::Snippet(x)) == xv);
                            assert(comp_acc(c).children =~= old_a.children.push(xv));
                        },
                    }
                } else if named(&t.name, "composite") {
                    match parse_composite_in(evs, pos, t, resources, open) {
                        Err(e) => {
                            return Err(e);
                        },
                        Ok(x) => {
                            let ghost old_a = comp_acc(c);
                            let ghost xv = composite_view(x);
                            c.sub_children.push(IncludeResult::Composite(x));
                            assert(comp_acc(c).children =~= old_a.children.push(xv));
                        },
                    }
                }
            },
            Some(XmlEvent::Empty(t)) => {
                assert(crate::xml_handler::events::tag_ok(evs@[here as int]@));
                *pos = *pos + 1;
                if named(&t.name, "include") {
                    match parse_include_in(t, resources, open) {
                        Err(e) => {
                            return Err(e);
                        },
                        Ok(ExternalFileResult::Snippet(x)) => {
                            let ghost old_a = comp_acc(c);
                            let ghost xv = snippet_view(x);
                            c.sub_children.push(IncludeResult::Snippet(x));
                            assert(chunk_view(IncludeResult::Snippet(x)) == xv);
                            assert(comp_acc(c).children =~= old_a.children.push(xv));
                        },
                        Ok(ExternalFileResult::Composite(x)) => {
                            let ghost old_a = comp_acc(c);
                            let ghost xv = composite_view(x);
                            c.sub_children.push(IncludeResult::Composite(x));
                            assert(comp_acc(c).children =~= old_a.children.push(xv));
                        },
                        Ok(ExternalFileResult::Variables(_)) => {
                            return Err(
                                XMLHandlerError::UnsupportedInclude { file_name: include_path_of(t) },
                            );
                        },
                    }
                }
            },
            Some(XmlEvent::End(n)) => {
                *pos = *pos + 1;
                if named(n, "composite") {
                    return Ok(c);
                }
            },
            Some(_) => {
                *pos = *pos + 1;
            },
        }
    }
}

/// The `path` of an include tag (see [`include_path`]).
fn include_path_of(tag: &XmlTag) -> (r: String)
    requires
        crate::xml_handler::events::name_prefix(tag.name@, tag.content@),
    ensures
        r@ == include_path(tag_view(*tag)),
{
    match read_attributes(tag) {
        Ok(a) => attribute_or_empty(&a, "path"),
        Err(_) => String::new(),
    }
}

/// Reads the resource named by the `path` of the include tag `tag`, up to its
/// first snippet, composite or variables element (see [`include_spec`]).
pub fn parse_include(tag: &XmlTag, resources: &Resources) -> (r: Result<ExternalFileResult, XMLHandlerError>)
    requires
        crate::xml_handler::events::name_prefix(tag.name@, tag.content@),
    ensures
        matches_ext(r, include_spec(tag_view(*tag), resources.texts(), resources.version(), Seq::empty())),
{
    let open: Vec<usize> = Vec::new();
    assert(open_view(open@) =~= Seq::<int>::empty());
    parse_include_in(tag, resources, &open)
}

fn parse_include_in(tag: &XmlTag, resources: &Resources, open: &Vec<usize>) -> (r: Result<
    ExternalFileResult,
    XMLHandlerError,
>)
    requires
        crate::xml_handler::events::name_prefix(tag.name@, tag.content@),
    ensures
        matches_ext(r, include_spec(tag_view(*tag), resources.texts(), resources.version(), open_view(open@))),
    decreases rem(open_view(open@)), 0int, 0nat,
{
    let attrs = match read_attributes(tag) {
        Err(e) => return Err(XMLHandlerError::AttributeError { message: e.0 }),
        Ok(a) => a,
    };
    let file = attribute_or_empty(&attrs, "path");
    match crate::xml_handler::resources::resource_position(file.as_str()) {
        None => Err(XMLHandlerError::UnknownXMLFileError { file_name: file }),
        Some(i) => {
            if open.len() >= RESOURCE_COUNT || is_open(open, i) {
                return Err(XMLHandlerError::UnsupportedInclude { file_name: file });
            }
            let text = match resources.text_of(file.as_str()) {
                Some(t) => t,
                None => {
                    return Err(XMLHandlerError::UnknownXMLFileError { file_name: file });
                },
            };
            let evs = tokenize(text.as_str());
            let open2 = with_pushed(open, i);
            include_scan_exec(&evs, file, resources, &open2)
        },
    }
}

#[verifier::loop_isolation(false)]
fn include_scan_exec(evs: &Vec<XmlEvent>, file: String, resources: &Resources, open: &Vec<usize>) -> (r:
    Result<ExternalFileResult, XMLHandlerError>)
    requires
        tags_ok(evs@),
    ensures
        matches_ext(
            r,
            include_scan(evs_view(evs@), 0, file@, resources.texts(), resources.version(), open_view(open@)),
        ),
    decreases rem(open_view(open@)), evs@.len() + 1, 3nat,
{
    let ghost ev = evs_view(evs@);
    let ghost target = include_scan(ev, 0, file@, resources.texts(), resources.version(), open_view(open@));
    let mut pos: usize = 0;
    loop
        invariant
            ev == evs_view(evs@),
            tags_ok(evs@),
            pos <= evs@.len(),
            include_scan(ev, pos as int, file@, resources.texts(), resources.version(), open_view(open@)) == target,
        decreases evs@.len() - pos,
    {
        let here = pos;
        match event_at(evs, pos) {
            None => {
                return Err(XMLHandlerError::UnexpectedEof { element: file });
            },
            Some(XmlEvent::Error(m)) => {
                return Err(XMLHandlerError::ParseError { message: m.clone() });
            },
            Some(XmlEvent::Eof) => {
                return Err(XMLHandlerError::UnexpectedEof { element: file });
            },
            Some(XmlEvent::Start(t)) => {
                assert(crate::xml_handler::events::tag_ok(evs@[here as int]@));
                pos = pos + 1;
                if named(&t.name, "snippet") {
                    return match Snippet::parse_snippet(evs, &mut pos, t) {
                        Ok(x) => Ok(ExternalFileResult::Snippet(x)),
                        Err(e) => Err(e),
                    };
                } else if named(&t.name, "composite") {
                    return match parse_composite_in(evs, &mut pos, t, resources, open) {
                        Ok(x) => Ok(ExternalFileResult::Composite(x)),
                        Err(e) => Err(e),
                    };
                } else if named(&t.name, "variables") {
                    return match Variables::parse_variables(evs, &mut pos) {
                        Ok(x) => Ok(ExternalFileResult::Variables(x)),
                        Err(e) => Err(e),
                    };
                }
            },
            Some(_) => {
                pos = pos + 1;
            },
        }
    }
}

impl Group {
    /// Creates a group.
    pub fn new(id: String, type_: String, children: Vec<IncludeResult>, variable_list: Vec<Variable>) -> (r: Self)
        ensures
            r.id == id,
            r.type_ == type_,
            r.children == children,
            r.variable_list == variable_list,
    {
        Group { id, type_, children, variable_list }
    }

    /// Parses the `group` element whose opening tag `tag` was read before
    /// `*pos` (see [`group_spec`]); `*pos` ends after its closing tag.
    #[verifier::loop_isolation(false)]
    pub fn parse_group(evs: &Vec<XmlEvent>, pos: &mut usize, tag: &XmlTag, resources: &Resources) -> (r:
        Result<Group, XMLHandlerError>)
        requires
            crate::xml_handler::events::name_prefix(tag.name@, tag.content@),
            tags_ok(evs@),
            *old(pos) <= evs@.len(),
        ensures
            r is Ok ==> *old(pos) < *final(pos) <= evs@.len(),
            matches_group(
                r,
                *final(pos),
                group_spec(evs_view(evs@), *old(pos) as int, tag_view(*tag), resources.texts(), resources.version()),
            ),
    {
        let ghost ev = evs_view(evs@);
        let ghost texts = resources.texts();
        let ghost version = resources.version();
        let attrs = match read_attributes(tag) {
            Err(e) => return Err(XMLHandlerError::AttributeError { message: e.0 }),
            Ok(a) => a,
        };
        let mut g = Group::new(
            attribute_or_empty(&attrs, "id"),
            attribute_or_empty(&attrs, "type"),
            Vec::new(),
            Vec::new(),
        );
        assert(group_view(g).children =~= Seq::<ChunkV>::empty());
        assert(group_view(g).vars =~= Seq::<VariableV>::empty());
        let ghost target = group_loop(ev, *pos as int, group_view(g), texts, version);
        let empty_open: Vec<usize> = Vec::new();
        assert(open_view(empty_open@) =~= Seq::<int>::empty());
        loop
            invariant
                ev == evs_view(evs@),
                tags_ok(evs@),
                *old(pos) <= *pos <= evs@.len(),
                open_view(empty_open@) == Seq::<int>::empty(),
                group_loop(ev, *pos as int, group_view(g), texts, version) == target,
            decreases evs@.len() - *pos,
        {
            let here = *pos;
            match event_at(evs, *pos) {
                None => {
                    return Err(XMLHandlerError::UnexpectedEof { element: owned("group") });
                },
                Some(XmlEvent::Error(m)) => {
                    return Err(XMLHandlerError::ParseError { message: m.clone() });
                },
                Some(XmlEvent::Eof) => {
                    return Err(XMLHandlerError::UnexpectedEof { element: owned("group") });
                },
                Some(XmlEvent::Start(t)) => {
                    assert(crate::xml_handler::events::tag_ok(evs@[here as int]@));
                    *pos = *pos + 1;
                    if named(&t.name, "composite") {
                        match parse_composite_in(evs, pos, t, resources, &empty_open) {
                            Err(e) => {
                                return Err(e);
                            },
                            Ok(x) => {
                                let ghost old_g = group_view(g);
                                g.children.push(IncludeResult::Composite(x));
                                assert(group_view(g).children =~= old_g.children.push(composite_view(x)));
                            },
                        }
                    }
                },
                Some(XmlEvent::Empty(t)) => {
                    assert(crate::xml_handler::events::tag_ok(evs@[here as int]@));
                    *pos = *pos + 1;
                    if named(&t.name, "include") {
                        match parse_include_in(t, resources, &empty_open) {
                            Ok(ExternalFileResult::Snippet(_)) => {
                                return Err(
                                    XMLHandlerError::UnsupportedInclude { file_name: include_path_of(t) },
                                );
                            },
                            Ok(ExternalFileResult::Composite(x)) => {
                                let ghost old_g = group_view(g);
                                g.children.push(IncludeResult::Composite(x));
                                assert(group_view(g).children =~= old_g.children.push(composite_view(x)));
                            },
                            Ok(ExternalFileResult::Variables(vs)) => {
                                let ghost old_g = group_view(g);
                                g.variable_list = vs.variable_array;
                                assert(group_view(g).children =~= old_g.children);
                            },
                            Err(_) => {},
                        }
                    }
                },
                Some(XmlEvent::End(n)) => {
                    *pos = *pos + 1;
                    if named(n, "group") {
                        return Ok(g);
                    }
                },
                Some(_) => {
                    *pos = *pos + 1;
                },
            }
        }
    }
}

/// Parses every `group` element of the document `xml` (see [`groups_loop`]).
#[verifier::loop_isolation(false)]
pub fn parse_groups(xml: &str, resources: &Resources) -> (r: Result<Vec<Group>, XMLHandlerError>)
    ensures
        matches_groups(r, groups_loop(doc_events(xml@), 0, Seq::empty(), resources.texts(), resources.version())),
{
    let evs = tokenize(xml);
    let ghost ev = evs_view(evs@);
    let ghost texts = resources.texts();
    let ghost version = resources.version();
    let mut groups: Vec<Group> = Vec::new();
    let mut pos: usize = 0;
    let ghost target = groups_loop(ev, 0, Seq::empty(), texts, version);
    assert(groups@.map_values(|g: Group| group_view(g)) =~= Seq::<GroupV>::empty());
    loop
        invariant
            ev == evs_view(evs@),
            tags_ok(evs@),
            pos <= evs@.len(),
            groups_loop(ev, pos as int, groups@.map_values(|g: Group| group_view(g)), texts, version) == target,
        decreases evs@.len() - pos,
    {
        let here = pos;
        match event_at(&evs, pos) {
            None => {
                return Ok(groups);
            },
            Some(XmlEvent::Error(m)) => {
                return Err(XMLHandlerError::ParseError { message: m.clone() });
            },
            Some(XmlEvent::Eof) => {
                return Ok(groups);
            },
            Some(XmlEvent::Start(t)) => {
                assert(crate::xml_handler::events::tag_ok(evs@[here as int]@));
                pos = pos + 1;
                if named(&t.name, "group") {
                    match Group::parse_group(&evs, &mut pos, t, resources) {
                        Err(e) => {
                            return Err(e);
                        },
                        Ok(g) => {
                            let ghost old_gs = groups@.map_values(|g: Group| group_view(g));
                            groups.push(g);
                            assert(groups@.map_values(|g: Group| group_view(g)) =~= old_gs.push(group_view(g)));
                        },
                    }
                }
            },
            Some(_) => {
                pos = pos + 1;
            },
        }
    }
}

/// Parses the groups of the default function metadata resource.
pub fn parse_xml(resources: &Resources) -> (r: Result<Vec<Group>, XMLHandlerError>)
    ensures
        matches_groups(
            r,
            groups_loop(
                resource_events(resources.texts(), resources.version(), 0),
                0,
                Seq::empty(),
                resources.texts(),
                resources.version(),
            ),
        ),
{
    proof {
        reveal_strlit("DEFAULT_FUNC_METADATA");
    }
    let text = match resources.text_of("DEFAULT_FUNC_METADATA") {
        Some(t) => t,
        None => {
            return Err(XMLHandlerError::UnknownXMLFileError { file_name: owned("DEFAULT_FUNC_METADATA") });
        },
    };
    assert(resource_index("DEFAULT_FUNC_METADATA"@) == Some(0int));
    parse_groups(text.as_str(), resources)
}


/// Two lists of chunks that agree in everything the script text depends on.
pub open spec fn same_chunks(a: Seq<IncludeResult>, b: Seq<IncludeResult>) -> bool {
    &&& a.len() == b.len()
    &&& forall|i: int|
        0 <= i < a.len() ==> chunk_view(#[trigger] a[i]) == chunk_view(b[i]) && chunk_parent(a[i])
            == chunk_parent(b[i])
}

impl Group {
    /// A copy of this group.
    pub fn duplicate(&self) -> (r: Self)
        ensures
            group_view(r) == group_view(*self),
            same_chunks(r.children@, self.children@),
    {
        let mut kids: Vec<IncludeResult> = Vec::new();
        let mut i: usize = 0;
        while i < self.children.len()
            invariant
                i <= self.children@.len(),
                kids@.len() == i,
                forall|k: int|
                    0 <= k < i ==> chunk_view(#[trigger] kids@[k]) == chunk_view(self.children@[k])
                        && chunk_parent(kids@[k]) == chunk_parent(self.children@[k]),
            decreases self.children.len() - i,
        {
            kids.push(self.children[i].duplicate());
            i = i + 1;
        }
        let r = Group::new(self.id.clone(), self.type_.clone(), kids, duplicate_variables(&self.variable_list));
        assert(group_view(r).children =~= group_view(*self).children);
        r
    }
}

} // verus!
