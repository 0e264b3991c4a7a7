//! Composites and snippets as script chunks: which of them a value map
//! selects, how often they repeat, and the text they append to a script.
use vstd::prelude::*;

use crate::script_aggregator::script_buffer::{BufferState, ScriptBuffer};
use crate::text::{
    chars_of, decimal, decimal_string, find_seq, find_vec, head_vec, lines_of, owned,
    replace_seq, split_char, split_char_vec, string_of, tail_vec,
};
use crate::xml_handler::condition::{condition_check, condition_rejects, comparable, order_of, Condition, NumOrder, OrderFn};
use crate::xml_handler::group::IncludeResult;
use crate::xml_handler::snippet::Snippet;
use crate::xml_handler::substitute::Substitute;
use crate::xml_handler::value_map::ValueMap;

verus! {

/// The substitutions of an enclosing composite, and those of the composites
/// around it.
#[derive(Debug)]
pub struct SubstitutionScope {
    pub substitutions: Vec<Substitute>,
    pub parent: Option<Box<SubstitutionScope>>,
}

/// Represents the composite tag in the XML data.
#[derive(Debug)]
pub struct Composite {
    /// The name of the composite.
    pub name: String,
    /// The type of the composite, if specified (e.g., aux).
    pub type_: Option<String>,
    /// The indentation level.
    pub indent: i32,
    /// The repeat attribute of the composite.
    pub repeat: String,
    /// The conditions associated with the composite.
    pub conditions: Vec<Condition>,
    /// The substitutions associated with the composite.
    pub substitutions: Vec<Substitute>,
    /// A composite can further contain more composites or snippets.
    pub sub_children: Vec<IncludeResult>,
    /// The inherited substitution scope, if any.
    pub parent: Option<Box<SubstitutionScope>>,
}

/// A substitution as (symbol name, pattern).
pub type SubstV = (Seq<char>, Seq<char>);

/// A condition as (symbol name, operator, value).
pub type CondV = (Seq<char>, Seq<char>, Seq<char>);

/// The view of a substitution scope.
pub struct ScopeV {
    pub subs: Seq<SubstV>,
    pub parent: Option<Box<ScopeV>>,
}

/// A composite or snippet with everything but its inherited scope.
pub enum ChunkV {
    Snippet {
        name: Seq<char>,
        repeat: Seq<char>,
        indent: int,
        code: Seq<char>,
        subs: Seq<SubstV>,
        conds: Seq<CondV>,
    },
    Composite {
        name: Seq<char>,
        type_: Option<Seq<char>>,
        repeat: Seq<char>,
        indent: int,
        subs: Seq<SubstV>,
        conds: Seq<CondV>,
        children: Seq<ChunkV>,
    },
}

impl ChunkV {
    pub open spec fn repeat(self) -> Seq<char> {
        match self {
            ChunkV::Snippet { repeat, .. } => repeat,
            ChunkV::Composite { repeat, .. } => repeat,
        }
    }

    pub open spec fn indent(self) -> int {
        match self {
            ChunkV::Snippet { indent, .. } => indent,
            ChunkV::Composite { indent, .. } => indent,
        }
    }

    pub open spec fn subs(self) -> Seq<SubstV> {
        match self {
            ChunkV::Snippet { subs, .. } => subs,
            ChunkV::Composite { subs, .. } => subs,
        }
    }

    pub open spec fn conds(self) -> Seq<CondV> {
        match self {
            ChunkV::Snippet { conds, .. } => conds,
            ChunkV::Composite { conds, .. } => conds,
        }
    }
}

pub open spec fn subst_view(s: Substitute) -> SubstV {
    (s.name@, s.value@)
}

pub open spec fn subs_view(v: Seq<Substitute>) -> Seq<SubstV> {
    v.map_values(|s: Substitute| subst_view(s))
}

pub open spec fn cond_view(c: Condition) -> CondV {
    (c.name@, c.op@, c.value@)
}

pub open spec fn conds_view(v: Seq<Condition>) -> Seq<CondV> {
    v.map_values(|c: Condition| cond_view(c))
}

pub open spec fn scope_view(s: SubstitutionScope) -> ScopeV
    decreases s,
{
    ScopeV {
        subs: subs_view(s.substitutions@),
        parent: match s.parent {
            None => None,
            Some(b) => Some(Box::new(scope_view(*b))),
        },
    }
}

pub open spec fn opt_scope_view(o: Option<Box<SubstitutionScope>>) -> Option<Box<ScopeV>> {
    match o {
        None => None,
        Some(b) => Some(Box::new(scope_view(*b))),
    }
}

pub open spec fn snippet_view(s: Snippet) -> ChunkV {
    ChunkV::Snippet {
        name: s.name@,
        repeat: s.repeat@,
        indent: s.indent as int,
        code: s.code_snippet@,
        subs: subs_view(s.substitutions@),
        conds: conds_view(s.conditions@),
    }
}

pub open spec fn chunk_view(ch: IncludeResult) -> ChunkV
    decreases ch,
{
    match ch {
        IncludeResult::Snippet(s) => snippet_view(s),
        IncludeResult::Composite(c) => ChunkV::Composite {
            name: c.name@,
            type_: match c.type_ {
                None => None,
                Some(t) => Some(t@),
            },
            repeat: c.repeat@,
            indent: c.indent as int,
            subs: subs_view(c.substitutions@),
            conds: conds_view(c.conditions@),
            children: Seq::new(
                c.sub_children@.len(),
                |i: int|
                    if 0 <= i < c.sub_children@.len() {
                        chunk_view(c.sub_children@[i])
                    } else {
                        arbitrary()
                    },
            ),
        },
    }
}

pub open spec fn composite_view(c: Composite) -> ChunkV {
    chunk_view(IncludeResult::Composite(c))
}

/// The inherited scope of a chunk.
pub open spec fn chunk_parent(ch: IncludeResult) -> Option<Box<ScopeV>> {
    match ch {
        IncludeResult::Snippet(s) => opt_scope_view(s.parent),
        IncludeResult::Composite(c) => opt_scope_view(c.parent),
    }
}

/// The number of chunks in a chunk tree.
pub open spec fn chunk_size(ch: ChunkV) -> nat
    decreases ch, 1nat, 0int,
{
    match ch {
        ChunkV::Snippet { .. } => 1,
        ChunkV::Composite { children, .. } => 1 + children_size(children, 0),
    }
}

pub open spec fn children_size(cs: Seq<ChunkV>, j: int) -> nat
    decreases cs, 0nat, cs.len() - j,
{
    if j < 0 || j >= cs.len() {
        0
    } else {
        chunk_size(cs[j]) + children_size(cs, j + 1)
    }
}

// ---------------------------------------------------------------------------
// Looking symbols up in the value-replacement map.
/// The value of `k` in `m`, if any.
pub open spec fn map_get(m: Map<Seq<char>, Seq<char>>, k: Seq<char>) -> Option<Seq<char>> {
    if m.contains_key(k) {
        Some(m[k])
    } else {
        None
    }
}

/// The key under which `symbol` is looked up.  A symbol `SCOPE:REST` whose
/// `:` is not its last character is resolved through the current value of
/// `SCOPE:`: when `SCOPE:` holds `bias1`, the key is `bias1:REST`; when it
/// holds nothing, the key is empty.
pub open spec fn lookup_key(m: Map<Seq<char>, Seq<char>>, symbol: Seq<char>) -> Seq<char> {
    match find_seq(symbol, seq![':']) {
        None => symbol,
        Some(k) => if k + 1 == symbol.len() {
            symbol
        } else {
            match map_get(m, symbol.take(k) + seq![':']) {
                Some(v) => v + symbol.skip(k),
                None => Seq::empty(),
            }
        },
    }
}

/// The text `symbol` stands for in `m` (empty when there is none).
pub open spec fn looked_up(m: Map<Seq<char>, Seq<char>>, symbol: Seq<char>) -> Seq<char> {
    match map_get(m, lookup_key(m, symbol)) {
        Some(v) => v,
        None => Seq::empty(),
    }
}

/// Every condition accepts the values of `m`.
pub open spec fn conditions_hold(
    conds: Seq<CondV>,
    m: Map<Seq<char>, Seq<char>>,
    ord: OrderFn,
) -> bool {
    forall|i: int|
        0 <= i < conds.len() ==> !condition_rejects(
            (#[trigger] conds[i]).1,
            conds[i].2,
            looked_up(m, conds[i].0),
            ord(looked_up(m, conds[i].0), conds[i].2),
        )
}

/// A chunk is included only when all of its conditions accept: none at all
/// accept everything, and one more condition can only narrow what is accepted.
pub proof fn lemma_conditions_conjunction(
    conds: Seq<CondV>,
    c: CondV,
    m: Map<Seq<char>, Seq<char>>,
    ord: OrderFn,
)
    ensures
        conditions_hold(Seq::empty(), m, ord),
        conditions_hold(conds.push(c), m, ord) <==> (conditions_hold(conds, m, ord) && !condition_rejects(
            c.1,
            c.2,
            looked_up(m, c.0),
            ord(looked_up(m, c.0), c.2),
        )),
{
    let d = conds.push(c);
    if conditions_hold(d, m, ord) {
        assert(d[conds.len() as int] == c);
        assert forall|i: int| 0 <= i < conds.len() implies !condition_rejects(
            (#[trigger] conds[i]).1,
            conds[i].2,
            looked_up(m, conds[i].0),
            ord(looked_up(m, conds[i].0), conds[i].2),
        ) by {
            assert(d[i] == conds[i]);
        }
    }
    if conditions_hold(conds, m, ord) && !condition_rejects(c.1, c.2, looked_up(m, c.0), ord(looked_up(m, c.0), c.2)) {
        assert forall|i: int| 0 <= i < d.len() implies !condition_rejects(
            (#[trigger] d[i]).1,
            d[i].2,
            looked_up(m, d[i].0),
            ord(looked_up(m, d[i].0), d[i].2),
        ) by {
            if i < conds.len() {
                assert(d[i] == conds[i]);
            }
        }
    }
}

// ---------------------------------------------------------------------------
// The text of a snippet.
/// `code` with each substitution's pattern replaced by its symbol's value, in order.
pub open spec fn apply_subs(code: Seq<char>, subs: Seq<SubstV>, m: Map<Seq<char>, Seq<char>>) -> Seq<
    char,
>
    decreases subs.len(),
{
    if subs.len() == 0 {
        code
    } else {
        apply_subs(replace_seq(code, subs[0].1, looked_up(m, subs[0].0)), subs.drop_first(), m)
    }
}

/// `code` with the substitutions of `scope` and of its ancestors applied, innermost first.
pub open spec fn apply_scopes(
    code: Seq<char>,
    scope: Option<Box<ScopeV>>,
    m: Map<Seq<char>, Seq<char>>,
) -> Seq<char>
    decreases scope,
{
    match scope {
        None => code,
        Some(s) => apply_scopes(apply_subs(code, s.subs, m), s.parent, m),
    }
}

/// The buffer after appending each of `lines` to the body.
pub open spec fn append_lines(bs: BufferState, lines: Seq<Seq<char>>) -> BufferState
    decreases lines.len(),
{
    if lines.len() == 0 {
        bs
    } else {
        append_lines(bs.body_append(lines[0]), lines.drop_first())
    }
}

// ---------------------------------------------------------------------------
// The text of a chunk tree.
/// The map a repeated chunk is evaluated with for the `i`-th value `val` of its list.
pub open spec fn repeat_map(
    m: Map<Seq<char>, Seq<char>>,
    repeat: Seq<char>,
    val: Seq<char>,
    i: int,
) -> Map<Seq<char>, Seq<char>> {
    m.insert(repeat + seq![':'], val).insert(repeat + ".LOOP-COUNT"@, decimal((i + 1) as nat))
}

/// The scope a composite hands to its children.
pub open spec fn child_scope(ch: ChunkV, p: Option<Box<ScopeV>>) -> ScopeV {
    ScopeV { subs: ch.subs(), parent: p }
}

/// The buffer after `to_script` on chunk `ch` inheriting scope `p`: nothing
/// when a condition rejects `m`; otherwise, indented by the chunk's indent
/// when that is positive, the chunk evaluated once, or, when it repeats over
/// the symbol `R`, once for each comma-separated value of `R` (none when `R`
/// has no value).
pub open spec fn chunk_out(
    ch: ChunkV,
    p: Option<Box<ScopeV>>,
    bs: BufferState,
    m: Map<Seq<char>, Seq<char>>,
    ord: OrderFn,
) -> BufferState
    decreases ch, 3nat, 0int,
{
    if !conditions_hold(ch.conds(), m, ord) {
        bs
    } else {
        let bs1 = if ch.indent() > 0 {
            bs.change_indent(ch.indent())
        } else {
            bs
        };
        let bs2 = if ch.repeat().len() == 0 {
            eval_out(ch, p, bs1, m, ord)
        } else {
            match map_get(m, ch.repeat()) {
                None => bs1,
                Some(list) => repeat_out(ch, p, bs1, m, ord, split_char(list, ','), 0),
            }
        };
        if ch.indent() > 0 {
            bs2.change_indent(-ch.indent())
        } else {
            bs2
        }
    }
}

/// The evaluations of a repeated chunk for the values `vals[i..]`.
pub open spec fn repeat_out(
    ch: ChunkV,
    p: Option<Box<ScopeV>>,
    bs: BufferState,
    m: Map<Seq<char>, Seq<char>>,
    ord: OrderFn,
    vals: Seq<Seq<char>>,
    i: int,
) -> BufferState
    decreases ch, 2nat, vals.len() - i,
{
    if i < 0 || i >= vals.len() {
        bs
    } else {
        repeat_out(
            ch,
            p,
            eval_out(ch, p, bs, repeat_map(m, ch.repeat(), vals[i], i), ord),
            m,
            ord,
            vals,
            i + 1,
        )
    }
}

/// One evaluation of a chunk: a snippet appends the lines of its code with
/// all substitutions applied; a composite runs its children in order, each
/// inheriting the composite's scope.
pub open spec fn eval_out(
    ch: ChunkV,
    p: Option<Box<ScopeV>>,
    bs: BufferState,
    m: Map<Seq<char>, Seq<char>>,
    ord: OrderFn,
) -> BufferState
    decreases ch, 1nat, 0int,
{
    match ch {
        ChunkV::Snippet { code, subs, .. } => append_lines(
            bs,
            lines_of(apply_scopes(apply_subs(code, subs, m), p, m)),
        ),
        ChunkV::Composite { children, .. } => children_out(
            children,
            child_scope(ch, p),
            bs,
            m,
            ord,
            0,
        ),
    }
}

/// The chunks `cs[j..]` run in order, each inheriting `sc`.
pub open spec fn children_out(
    cs: Seq<ChunkV>,
    sc: ScopeV,
    bs: BufferState,
    m: Map<Seq<char>, Seq<char>>,
    ord: OrderFn,
    j: int,
) -> BufferState
    decreases cs, 0nat, cs.len() - j,
{
    if j < 0 || j >= cs.len() {
        bs
    } else {
        children_out(cs, sc, chunk_out(cs[j], Some(Box::new(sc)), bs, m, ord), m, ord, j + 1)
    }
}

/// Whether `to_script` evaluates `ch` at least once under `m`.
pub open spec fn evaluated(
    ch: ChunkV,
    m: Map<Seq<char>, Seq<char>>,
    ord: OrderFn,
) -> bool {
    conditions_hold(ch.conds(), m, ord) && (ch.repeat().len() == 0 || m.contains_key(ch.repeat()))
}

/// Each child of composite `c` inherits the scope made of `c`'s substitutions
/// and `c`'s own scope.
pub open spec fn children_inherit(c: Composite) -> bool {
    forall|i: int|
        0 <= i < c.sub_children@.len() ==> chunk_parent(#[trigger] c.sub_children@[i]) == Some(
            Box::new(child_scope(composite_view(c), opt_scope_view(c.parent))),
        )
}

/// The map a chunk that `to_script` evaluates is evaluated under last: `m`
/// itself, or, for a repeated chunk, `m` with the repeat symbols bound to the
/// last value of its list.
pub open spec fn last_map(ch: ChunkV, m: Map<Seq<char>, Seq<char>>) -> Map<Seq<char>, Seq<char>> {
    if ch.repeat().len() == 0 {
        m
    } else {
        let vv = split_char(m[ch.repeat()], ',');
        repeat_map(m, ch.repeat(), vv.last(), vv.len() - 1)
    }
}

/// The scopes inherited through the whole tree of `ch` after `to_script`
/// under `m`: when `ch` is a composite that is evaluated, each child inherits
/// the composite's scope chain, and the same holds of each child under the
/// map it was last evaluated with, and so on down.
pub open spec fn inherits_deep(ch: IncludeResult, m: Map<Seq<char>, Seq<char>>, ord: OrderFn) -> bool
    decreases ch,
{
    match ch {
        IncludeResult::Snippet(_) => true,
        IncludeResult::Composite(c) => evaluated(composite_view(c), m, ord) ==> (children_inherit(c)
            && forall|i: int|
            0 <= i < c.sub_children@.len() ==> inherits_deep(
                #[trigger] c.sub_children@[i],
                last_map(composite_view(c), m),
                ord,
            )),
    }
}

/// The children of a composite keep their scopes deeply (see [`inherits_deep`]) under `m`.
pub open spec fn children_deep(c: Composite, m: Map<Seq<char>, Seq<char>>, ord: OrderFn) -> bool {
    forall|i: int| 0 <= i < c.sub_children@.len() ==> inherits_deep(#[trigger] c.sub_children@[i], m, ord)
}

/// As [`children_deep`], nothing for a snippet.
pub open spec fn chunk_children_deep(ch: IncludeResult, m: Map<Seq<char>, Seq<char>>, ord: OrderFn) -> bool {
    match ch {
        IncludeResult::Snippet(_) => true,
        IncludeResult::Composite(c) => children_deep(c, m, ord),
    }
}

// ---------------------------------------------------------------------------
proof fn lemma_children_size(cs: Seq<ChunkV>, j: int, k: int)
    requires
        0 <= j <= k < cs.len(),
    ensures
        chunk_size(cs[k]) <= children_size(cs, j),
    decreases k - j,
{
    if j < k {
        lemma_children_size(cs, j + 1, k);
    }
}

proof fn lemma_child_smaller(ch: ChunkV, k: int)
    requires
        ch is Composite,
        0 <= k < ch->children.len(),
    ensures
        chunk_size(ch->children[k]) < chunk_size(ch),
{
    lemma_children_size(ch->children, 0, k);
}

/// The inherited scopes of a composite's children are all set (nothing for a snippet).
pub open spec fn chunk_children_inherit(ch: IncludeResult) -> bool {
    match ch {
        IncludeResult::Snippet(_) => true,
        IncludeResult::Composite(c) => children_inherit(c),
    }
}

proof fn lemma_split_nonempty(s: Seq<char>, c: char)
    ensures
        split_char(s, c).len() >= 1,
{
}

fn chunk_conditions(ch: &IncludeResult) -> (r: &Vec<Condition>)
    ensures
        conds_view(r@) == chunk_view(*ch).conds(),
{
    match ch {
        IncludeResult::Snippet(s) => &s.conditions,
        IncludeResult::Composite(c) => &c.conditions,
    }
}

fn chunk_indent(ch: &IncludeResult) -> (r: i32)
    ensures
        r as int == chunk_view(*ch).indent(),
{
    match ch {
        IncludeResult::Snippet(s) => s.indent,
        IncludeResult::Composite(c) => c.indent,
    }
}

fn chunk_repeat(ch: &IncludeResult) -> (r: String)
    ensures
        r@ == chunk_view(*ch).repeat(),
{
    match ch {
        IncludeResult::Snippet(s) => s.repeat.clone(),
        IncludeResult::Composite(c) => c.repeat.clone(),
    }
}

/// Sets the inherited scope of a chunk.
fn set_parent(ch: &mut IncludeResult, scope: Option<Box<SubstitutionScope>>)
    ensures
        chunk_view(*final(ch)) == chunk_view(*old(ch)),
        chunk_parent(*final(ch)) == opt_scope_view(scope),
{
    match ch {
        IncludeResult::Snippet(s) => {
            s.parent = scope;
        },
        IncludeResult::Composite(c) => {
            c.parent = scope;
        },
    }
}

/// A placeholder chunk: a snippet with no name, repeat, code, substitutions,
/// conditions, indentation or inherited scope.
fn empty_chunk() -> (r: IncludeResult)
    ensures
        r matches IncludeResult::Snippet(s) && s.name@.len() == 0 && s.repeat@.len() == 0
            && s.code_snippet@.len() == 0 && s.substitutions@.len() == 0 && s.conditions@.len() == 0
            && s.indent == 0 && s.parent is None,
{
    IncludeResult::Snippet(
        Snippet::new(String::new(), String::new(), String::new(), Vec::new(), Vec::new()),
    )
}

/// Runs the children of composite `c` in order, each inheriting the scope
/// made of `c`'s substitutions and `c`'s own scope.
fn evaluate_composite<F: Fn(&str, &str) -> Option<NumOrder>>(
    c: &mut Composite,
    script_buffer: &mut ScriptBuffer,
    val_replacement_map: &ValueMap,
    compare: &F,
)
    requires
        comparable(*compare),
    ensures
        final(script_buffer)@ == eval_out(
            composite_view(*old(c)),
            opt_scope_view(old(c).parent),
            old(script_buffer)@,
            val_replacement_map@,
            order_of(*compare),
        ),
        composite_view(*final(c)) == composite_view(*old(c)),
        opt_scope_view(final(c).parent) == opt_scope_view(old(c).parent),
        children_inherit(*final(c)),
        children_deep(*final(c), val_replacement_map@, order_of(*compare)),
    decreases chunk_size(composite_view(*old(c))), 0nat,
{
    let ghost v0 = composite_view(*c);
    let ghost p0 = opt_scope_view(c.parent);
    let ghost bs0 = script_buffer@;
    let ghost sc = child_scope(v0, p0);
    let scope = SubstitutionScope {
        substitutions: duplicate_subs(&c.substitutions),
        parent: duplicate_opt_scope(&c.parent),
    };
    assert(scope_view(scope) == sc);
    let mut kids: Vec<IncludeResult> = Vec::new();
    std::mem::swap(&mut kids, &mut c.sub_children);
    let ghost orig = kids@;
    let ghost cvs = v0->children;
    assert(cvs.len() == orig.len());
    assert(forall|k: int| 0 <= k < orig.len() ==> cvs[k] == chunk_view(#[trigger] orig[k]));
    let n = kids.len();
    let mut done: Vec<IncludeResult> = Vec::new();
    let mut j: usize = 0;
    while j < n
        invariant
            comparable(*compare),
            j <= n,
            n == orig.len(),
            kids@ =~= orig.skip(j as int),
            done@.len() == j,
            cvs.len() == orig.len(),
            forall|k: int| 0 <= k < orig.len() ==> cvs[k] == chunk_view(#[trigger] orig[k]),
            forall|k: int|
                0 <= k < j ==> chunk_view(#[trigger] done@[k]) == chunk_view(orig[k])
                    && chunk_parent(done@[k]) == Some(Box::new(sc))
                    && inherits_deep(done@[k], val_replacement_map@, order_of(*compare)),
            scope_view(scope) == sc,
            v0 is Composite,
            cvs == v0->children,
            chunk_size(v0) == chunk_size(composite_view(*old(c))),
            children_out(cvs, sc, script_buffer@, val_replacement_map@, order_of(*compare), j as int)
                == children_out(cvs, sc, bs0, val_replacement_map@, order_of(*compare), 0),
        decreases n - j,
    {
        assert(kids@.len() > 0);
        let mut child = kids.remove(0);
        assert(child == orig[j as int]);
        set_parent(&mut child, Some(Box::new(scope.duplicate())));
        proof {
            lemma_child_smaller(v0, j as int);
        }
        chunk_to_script(&mut child, script_buffer, val_replacement_map, compare);
        done.push(child);
        j = j + 1;
    }
    c.sub_children = done;
    proof {
        let v1 = composite_view(*c);
        assert(v1->children =~= cvs);
        assert(v1 == v0);
        assert(c.sub_children@ == done@);
    }
}

/// Evaluates a chunk once: a snippet appends its code, a composite runs its children.
fn evaluate_chunk<F: Fn(&str, &str) -> Option<NumOrder>>(
    ch: &mut IncludeResult,
    script_buffer: &mut ScriptBuffer,
    val_replacement_map: &ValueMap,
    compare: &F,
)
    requires
        comparable(*compare),
    ensures
        final(script_buffer)@ == eval_out(
            chunk_view(*old(ch)),
            chunk_parent(*old(ch)),
            old(script_buffer)@,
            val_replacement_map@,
            order_of(*compare),
        ),
        chunk_view(*final(ch)) == chunk_view(*old(ch)),
        chunk_parent(*final(ch)) == chunk_parent(*old(ch)),
        chunk_children_inherit(*final(ch)),
        chunk_children_deep(*final(ch), val_replacement_map@, order_of(*compare)),
    decreases chunk_size(chunk_view(*old(ch))), 1nat,
{
    let mut taken = empty_chunk();
    std::mem::swap(ch, &mut taken);
    match taken {
        IncludeResult::Snippet(s) => {
            s.evaluate_snippet(script_buffer, val_replacement_map);
            *ch = IncludeResult::Snippet(s);
        },
        IncludeResult::Composite(mut c) => {
            assert(composite_view(c) == chunk_view(*old(ch)));
            evaluate_composite(&mut c, script_buffer, val_replacement_map, compare);
            *ch = IncludeResult::Composite(c);
        },
    }
}

/// Appends the script text of a chunk (see [`chunk_out`]).  The chunk keeps
/// everything but the inherited scopes of the chunks inside it; when it is a
/// composite that was evaluated, each child inherits the composite's scope.
pub fn chunk_to_script<F: Fn(&str, &str) -> Option<NumOrder>>(
    ch: &mut IncludeResult,
    script_buffer: &mut ScriptBuffer,
    val_replacement_map: &ValueMap,
    compare: &F,
)
    requires
        comparable(*compare),
    ensures
        final(script_buffer)@ == chunk_out(
            chunk_view(*old(ch)),
            chunk_parent(*old(ch)),
            old(script_buffer)@,
            val_replacement_map@,
            order_of(*compare),
        ),
        chunk_view(*final(ch)) == chunk_view(*old(ch)),
        chunk_parent(*final(ch)) == chunk_parent(*old(ch)),
        evaluated(chunk_view(*old(ch)), val_replacement_map@, order_of(*compare)) ==> chunk_children_inherit(
            *final(ch),
        ),
        inherits_deep(*final(ch), val_replacement_map@, order_of(*compare)),
    decreases chunk_size(chunk_view(*old(ch))), 2nat,
{
    let ghost v0 = chunk_view(*ch);
    let ghost p0 = chunk_parent(*ch);
    let ghost m = val_replacement_map@;
    if !evaluate_conditions(chunk_conditions(ch), val_replacement_map, compare) {
        return ;
    }
    let indent = chunk_indent(ch);
    if indent > 0 {
        script_buffer.change_indent(indent);
    }
    let ghost bs1 = script_buffer@;
    let repeat = chunk_repeat(ch);
    let repeat_chars = chars_of(repeat.as_str());
    if repeat_chars.len() == 0 {
        evaluate_chunk(ch, script_buffer, val_replacement_map, compare);
    } else {
        match val_replacement_map.get(&repeat) {
            None => {},
            Some(list) => {
                let mut active_chars = repeat_chars.clone();
                active_chars.push(':');
                let active = string_of(active_chars.as_slice());
                let mut count_chars = repeat_chars.clone();
                crate::text::extend_vec(&mut count_chars, &chars_of(".LOOP-COUNT"));
                let count_name = string_of(count_chars.as_slice());
                let vals = split_char_vec(&chars_of(list.as_str()), ',');
                let ghost vv = split_char(list@, ',');
                proof {
                    lemma_split_nonempty(list@, ',');
                }
                let mut i: usize = 0;
                while i < vals.len()
                    invariant
                        comparable(*compare),
                        i <= vals.len(),
                        vals@.len() == vv.len(),
                        vv.len() >= 1,
                        forall|k: int| 0 <= k < vals@.len() ==> (#[trigger] vals@[k])@ == vv[k],
                        active@ == v0.repeat() + seq![':'],
                        count_name@ == v0.repeat() + ".LOOP-COUNT"@,
                        chunk_view(*ch) == v0,
                        v0 == chunk_view(*old(ch)),
                        chunk_parent(*ch) == p0,
                        val_replacement_map@ == m,
                        i > 0 ==> chunk_children_inherit(*ch),
                        i > 0 ==> chunk_children_deep(
                            *ch,
                            repeat_map(m, v0.repeat(), vv[i - 1], i - 1),
                            order_of(*compare),
                        ),
                        repeat_out(v0, p0, script_buffer@, m, order_of(*compare), vv, i as int) == repeat_out(
                            v0,
                            p0,
                            bs1,
                            m,
                            order_of(*compare),
                            vv,
                            0,
                        ),
                    decreases vals.len() - i,
                {
                    let mut m1 = val_replacement_map.clone_map();
                    m1.insert(active.clone(), string_of(vals[i].as_slice()));
                    m1.insert(count_name.clone(), decimal_string(i + 1));
                    assert(m1@ == repeat_map(m, v0.repeat(), vv[i as int], i as int));
                    evaluate_chunk(ch, script_buffer, &m1, compare);
                    i = i + 1;
                }
            },
        }
    }
    if indent > 0 {
        script_buffer.change_indent(-indent);
    }
}


impl Composite {
    /// Creates a composite with no inherited scope.
    pub fn new(
        name: String,
        type_: Option<String>,
        indent: i32,
        repeat: String,
        conditions: Vec<Condition>,
        substitutions: Vec<Substitute>,
        sub_children: Vec<IncludeResult>,
    ) -> (r: Self)
        ensures
            r.name == name,
            r.type_ == type_,
            r.indent == indent,
            r.repeat == repeat,
            r.conditions == conditions,
            r.substitutions == substitutions,
            r.sub_children == sub_children,
            r.parent is None,
    {
        Composite {
            name,
            type_,
            indent,
            repeat,
            conditions,
            substitutions,
            sub_children,
            parent: None,
        }
    }

    /// Appends the script text of this composite (see [`chunk_out`]): nothing
    /// when a condition rejects the map; otherwise, indented by the
    /// composite's indent, its children run once, or once per value of its
    /// repeat list with `REPEAT:` bound to the value and `REPEAT.LOOP-COUNT`
    /// to its position from 1.
    pub fn to_script<F: Fn(&str, &str) -> Option<NumOrder>>(
        &mut self,
        script_buffer: &mut ScriptBuffer,
        val_replacement_map: &ValueMap,
        compare: &F,
    )
        requires
            comparable(*compare),
        ensures
            final(script_buffer)@ == chunk_out(
                composite_view(*old(self)),
                opt_scope_view(old(self).parent),
                old(script_buffer)@,
                val_replacement_map@,
                order_of(*compare),
            ),
            composite_view(*final(self)) == composite_view(*old(self)),
            opt_scope_view(final(self).parent) == opt_scope_view(old(self).parent),
            evaluated(composite_view(*old(self)), val_replacement_map@, order_of(*compare))
                ==> children_inherit(*final(self)),
            inherits_deep(
                IncludeResult::Composite(*final(self)),
                val_replacement_map@,
                order_of(*compare),
            ),
    {
        let mut taken = Composite::new(
            String::new(),
            None,
            0,
            String::new(),
            Vec::new(),
            Vec::new(),
            Vec::new(),
        );
        std::mem::swap(self, &mut taken);
        let mut ch = IncludeResult::Composite(taken);
        chunk_to_script(&mut ch, script_buffer, val_replacement_map, compare);
        match ch {
            IncludeResult::Composite(c) => {
                *self = c;
            },
            IncludeResult::Snippet(_) => {},
        }
    }

    /// Runs the children in order, each inheriting this composite's scope.
    pub fn evaluate<F: Fn(&str, &str) -> Option<NumOrder>>(
        &mut self,
        script_buffer: &mut ScriptBuffer,
        val_replacement_map: &ValueMap,
        compare: &F,
    )
        requires
            comparable(*compare),
        ensures
            final(script_buffer)@ == eval_out(
                composite_view(*old(self)),
                opt_scope_view(old(self).parent),
                old(script_buffer)@,
                val_replacement_map@,
                order_of(*compare),
            ),
            composite_view(*final(self)) == composite_view(*old(self)),
            opt_scope_view(final(self).parent) == opt_scope_view(old(self).parent),
            children_inherit(*final(self)),
            children_deep(*final(self), val_replacement_map@, order_of(*compare)),
    {
        evaluate_composite(self, script_buffer, val_replacement_map, compare);
    }
}

impl Snippet {
    /// Appends the script text of this snippet (see [`chunk_out`]).
    pub fn to_script<F: Fn(&str, &str) -> Option<NumOrder>>(
        &mut self,
        script_buffer: &mut ScriptBuffer,
        val_replacement_map: &ValueMap,
        compare: &F,
    )
        requires
            comparable(*compare),
        ensures
            final(script_buffer)@ == chunk_out(
                snippet_view(*old(self)),
                opt_scope_view(old(self).parent),
                old(script_buffer)@,
                val_replacement_map@,
                order_of(*compare),
            ),
            snippet_view(*final(self)) == snippet_view(*old(self)),
            opt_scope_view(final(self).parent) == opt_scope_view(old(self).parent),
    {
        let mut taken = Snippet::new(String::new(), String::new(), String::new(), Vec::new(), Vec::new());
        std::mem::swap(self, &mut taken);
        let mut ch = IncludeResult::Snippet(taken);
        chunk_to_script(&mut ch, script_buffer, val_replacement_map, compare);
        match ch {
            IncludeResult::Snippet(s) => {
                *self = s;
            },
            IncludeResult::Composite(_) => {},
        }
    }
}

impl IncludeResult {
    /// Appends the script text of this chunk (see [`chunk_out`]).
    pub fn to_script<F: Fn(&str, &str) -> Option<NumOrder>>(
        &mut self,
        script_buffer: &mut ScriptBuffer,
        val_replacement_map: &ValueMap,
        compare: &F,
    )
        requires
            comparable(*compare),
        ensures
            final(script_buffer)@ == chunk_out(
                chunk_view(*old(self)),
                chunk_parent(*old(self)),
                old(script_buffer)@,
                val_replacement_map@,
                order_of(*compare),
            ),
            chunk_view(*final(self)) == chunk_view(*old(self)),
            chunk_parent(*final(self)) == chunk_parent(*old(self)),
            evaluated(chunk_view(*old(self)), val_replacement_map@, order_of(*compare))
                ==> chunk_children_inherit(*final(self)),
            inherits_deep(*final(self), val_replacement_map@, order_of(*compare)),
    {
        chunk_to_script(self, script_buffer, val_replacement_map, compare);
    }
}


/// A copy of a list of conditions.
pub fn duplicate_conds(v: &Vec<Condition>) -> (r: Vec<Condition>)
    ensures
        conds_view(r@) == conds_view(v@),
{
    let mut r: Vec<Condition> = Vec::new();
    let mut i: usize = 0;
    while i < v.len()
        invariant
            i <= v.len(),
            r@.len() == i,
            forall|k: int| 0 <= k < i ==> cond_view(#[trigger] r@[k]) == cond_view(v@[k]),
        decreases v.len() - i,
    {
        let c = &v[i];
        r.push(Condition::new(c.name.clone(), c.op.clone(), c.value.clone()));
        i = i + 1;
    }
    assert(conds_view(r@) =~= conds_view(v@));
    r
}

impl IncludeResult {
    /// A copy of this chunk, its children, and its inherited scope.
    pub fn duplicate(&self) -> (r: Self)
        ensures
            chunk_view(r) == chunk_view(*self),
            chunk_parent(r) == chunk_parent(*self),
        decreases chunk_size(chunk_view(*self)),
    {
        match self {
            IncludeResult::Snippet(s) => IncludeResult::Snippet(
                Snippet {
                    name: s.name.clone(),
                    repeat: s.repeat.clone(),
                    indent: s.indent,
                    code_snippet: s.code_snippet.clone(),
                    substitutions: duplicate_subs(&s.substitutions),
                    conditions: duplicate_conds(&s.conditions),
                    parent: duplicate_opt_scope(&s.parent),
                },
            ),
            IncludeResult::Composite(c) => {
                let ghost v0 = chunk_view(*self);
                let mut kids: Vec<IncludeResult> = Vec::new();
                let mut i: usize = 0;
                while i < c.sub_children.len()
                    invariant
                        i <= c.sub_children@.len(),
                        kids@.len() == i,
                        v0 == chunk_view(*self),
                        *self == IncludeResult::Composite(*c),
                        forall|k: int|
                            0 <= k < i ==> chunk_view(#[trigger] kids@[k]) == chunk_view(c.sub_children@[k]),
                    decreases c.sub_children.len() - i,
                {
                    proof {
                        lemma_child_smaller(v0, i as int);
                    }
                    kids.push(c.sub_children[i].duplicate());
                    i = i + 1;
                }
                let type_ = match &c.type_ {
                    Some(t) => Some(t.clone()),
                    None => None,
                };
                let r = Composite {
                    name: c.name.clone(),
                    type_,
                    indent: c.indent,
                    repeat: c.repeat.clone(),
                    conditions: duplicate_conds(&c.conditions),
                    substitutions: duplicate_subs(&c.substitutions),
                    sub_children: kids,
                    parent: duplicate_opt_scope(&c.parent),
                };
                assert(composite_view(r)->children =~= v0->children);
                IncludeResult::Composite(r)
            },
        }
    }
}

// ---------------------------------------------------------------------------
impl SubstitutionScope {
    /// A copy of this scope and of its ancestors.
    pub fn duplicate(&self) -> (r: Self)
        ensures
            scope_view(r) == scope_view(*self),
        decreases *self,
    {
        let parent = match &self.parent {
            None => None,
            Some(b) => Some(Box::new(b.duplicate())),
        };
        SubstitutionScope { substitutions: duplicate_subs(&self.substitutions), parent }
    }
}

/// A copy of a list of substitutions.
pub fn duplicate_subs(v: &Vec<Substitute>) -> (r: Vec<Substitute>)
    ensures
        subs_view(r@) == subs_view(v@),
{
    let mut r: Vec<Substitute> = Vec::new();
    let mut i: usize = 0;
    while i < v.len()
        invariant
            i <= v.len(),
            r@.len() == i,
            forall|k: int| 0 <= k < i ==> subst_view(#[trigger] r@[k]) == subst_view(v@[k]),
        decreases v.len() - i,
    {
        r.push(v[i].duplicate());
        i = i + 1;
    }
    assert(subs_view(r@) =~= subs_view(v@));
    r
}

/// A copy of an optional scope.
pub fn duplicate_opt_scope(o: &Option<Box<SubstitutionScope>>) -> (r: Option<
    Box<SubstitutionScope>,
>)
    ensures
        opt_scope_view(r) == opt_scope_view(*o),
{
    match o {
        None => None,
        Some(b) => Some(Box::new(b.duplicate())),
    }
}

/// The text `symbol` stands for in the value-replacement map (see
/// [`lookup_key`]); empty when there is none.
pub fn lookup(val_replacement_map: &ValueMap, symbol: &str) -> (r: String)
    ensures
        r@ == looked_up(val_replacement_map@, symbol@),
{
    let chars = chars_of(symbol);
    let colon = vec![':'];
    assert(colon@ =~= seq![':']);
    let temp = match find_vec(&chars, &colon) {
        None => owned(symbol),
        Some(k) => {
            assert(crate::text::occurs_at(chars@, colon@, k as int));
            assert(k < chars.len());
            assert(find_seq(symbol@, seq![':']) == Some(k as int));
            if k + 1 == chars.len() {
                owned(symbol)
            } else {
                let mut scope = head_vec(&chars, k);
                scope.push(':');
                let key = string_of(scope.as_slice());
                assert(key@ =~= symbol@.take(k as int) + seq![':']);
                match val_replacement_map.get(&key) {
                    Some(v) => {
                        let mut all = chars_of(v.as_str());
                        let rest = tail_vec(&chars, k);
                        crate::text::extend_vec(&mut all, &rest);
                        let t = string_of(all.as_slice());
                        assert(t@ == lookup_key(val_replacement_map@, symbol@));
                        t
                    },
                    None => {
                        let t = String::new();
                        assert(t@ == lookup_key(val_replacement_map@, symbol@));
                        t
                    },
                }
            }
        },
    };
    assert(temp@ == lookup_key(val_replacement_map@, symbol@));
    match val_replacement_map.get(&temp) {
        Some(v) => v,
        None => String::new(),
    }
}

/// Whether every condition accepts the values of the map.
pub fn evaluate_conditions<F: Fn(&str, &str) -> Option<NumOrder>>(
    conditions: &Vec<Condition>,
    val_replacement_map: &ValueMap,
    compare: &F,
) -> (r: bool)
    requires
        comparable(*compare),
    ensures
        r == conditions_hold(conds_view(conditions@), val_replacement_map@, order_of(*compare)),
{
    let ghost cv = conds_view(conditions@);
    let ghost ord = order_of(*compare);
    let mut i: usize = 0;
    while i < conditions.len()
        invariant
            comparable(*compare),
            ord == order_of(*compare),
            i <= conditions.len(),
            cv == conds_view(conditions@),
            forall|k: int|
                0 <= k < i ==> !condition_rejects(
                    (#[trigger] cv[k]).1,
                    cv[k].2,
                    looked_up(val_replacement_map@, cv[k].0),
                    ord(looked_up(val_replacement_map@, cv[k].0), cv[k].2),
                ),
        decreases conditions.len() - i,
    {
        let condition = &conditions[i];
        let object = lookup(val_replacement_map, condition.name.as_str());
        if condition_check(condition, &object, compare) {
            assert(cv[i as int] == cond_view(conditions@[i as int]));
            return false;
        }
        i = i + 1;
    }
    true
}


// ---------------------------------------------------------------------------
// What running a chunk can change in a buffer.
/// `b` is `a` with text appended to the body: the preamble, the postamble,
/// the names handed out and the settings are those of `a`, and the body of
/// `a` starts the body of `b`.
pub open spec fn body_extended(a: BufferState, b: BufferState) -> bool {
    &&& b.preamble == a.preamble
    &&& b.postamble == a.postamble
    &&& b.names == a.names
    &&& b.auto_indent == a.auto_indent
    &&& b.eol == a.eol
    &&& b.indent_enabled == a.indent_enabled
    &&& a.body.len() <= b.body.len()
    &&& b.body.subrange(0, a.body.len() as int) == a.body
}

proof fn lemma_body_extended_trans(a: BufferState, b: BufferState, c: BufferState)
    requires
        body_extended(a, b),
        body_extended(b, c),
    ensures
        body_extended(a, c),
{
    assert(c.body.subrange(0, a.body.len() as int) =~= b.body.subrange(0, a.body.len() as int));
}

proof fn lemma_append_lines_extends(bs: BufferState, lines: Seq<Seq<char>>)
    ensures
        body_extended(bs, append_lines(bs, lines)),
    decreases lines.len(),
{
    assert(bs.body.subrange(0, bs.body.len() as int) =~= bs.body);
    if lines.len() > 0 {
        let b1 = bs.body_append(lines[0]);
        assert(b1.body.subrange(0, bs.body.len() as int) =~= bs.body);
        lemma_append_lines_extends(b1, lines.drop_first());
        lemma_body_extended_trans(bs, b1, append_lines(b1, lines.drop_first()));
    }
}

proof fn lemma_change_indent_extends(bs: BufferState, v: int)
    ensures
        body_extended(bs, bs.change_indent(v)),
{
    assert(bs.body.subrange(0, bs.body.len() as int) =~= bs.body);
}

/// Running a chunk only appends text to the body of the script (and may
/// change the indentation): the preamble, the postamble and the names
/// handed out stay as they were.
pub proof fn lemma_chunk_out_extends_body(
    ch: ChunkV,
    p: Option<Box<ScopeV>>,
    bs: BufferState,
    m: Map<Seq<char>, Seq<char>>,
    ord: OrderFn,
)
    ensures
        body_extended(bs, chunk_out(ch, p, bs, m, ord)),
    decreases ch, 3nat, 0int,
{
    assert(bs.body.subrange(0, bs.body.len() as int) =~= bs.body);
    if conditions_hold(ch.conds(), m, ord) {
        let bs1 = if ch.indent() > 0 {
            bs.change_indent(ch.indent())
        } else {
            bs
        };
        lemma_change_indent_extends(bs, ch.indent());
        let bs2 = if ch.repeat().len() == 0 {
            lemma_eval_out_extends_body(ch, p, bs1, m, ord);
            eval_out(ch, p, bs1, m, ord)
        } else {
            match map_get(m, ch.repeat()) {
                None => bs1,
                Some(list) => {
                    lemma_repeat_out_extends_body(ch, p, bs1, m, ord, split_char(list, ','), 0);
                    repeat_out(ch, p, bs1, m, ord, split_char(list, ','), 0)
                },
            }
        };
        assert(bs1.body.subrange(0, bs1.body.len() as int) =~= bs1.body);
        assert(body_extended(bs1, bs2));
        lemma_body_extended_trans(bs, bs1, bs2);
        lemma_change_indent_extends(bs2, -ch.indent());
        lemma_body_extended_trans(bs, bs2, bs2.change_indent(-ch.indent()));
    }
}

pub proof fn lemma_repeat_out_extends_body(
    ch: ChunkV,
    p: Option<Box<ScopeV>>,
    bs: BufferState,
    m: Map<Seq<char>, Seq<char>>,
    ord: OrderFn,
    vals: Seq<Seq<char>>,
    i: int,
)
    ensures
        body_extended(bs, repeat_out(ch, p, bs, m, ord, vals, i)),
    decreases ch, 2nat, vals.len() - i,
{
    assert(bs.body.subrange(0, bs.body.len() as int) =~= bs.body);
    if 0 <= i < vals.len() {
        let m1 = repeat_map(m, ch.repeat(), vals[i], i);
        let b1 = eval_out(ch, p, bs, m1, ord);
        lemma_eval_out_extends_body(ch, p, bs, m1, ord);
        lemma_repeat_out_extends_body(ch, p, b1, m, ord, vals, i + 1);
        lemma_body_extended_trans(bs, b1, repeat_out(ch, p, b1, m, ord, vals, i + 1));
    }
}

pub proof fn lemma_eval_out_extends_body(
    ch: ChunkV,
    p: Option<Box<ScopeV>>,
    bs: BufferState,
    m: Map<Seq<char>, Seq<char>>,
    ord: OrderFn,
)
    ensures
        body_extended(bs, eval_out(ch, p, bs, m, ord)),
    decreases ch, 1nat, 0int,
{
    match ch {
        ChunkV::Snippet { code, subs, .. } => {
            lemma_append_lines_extends(bs, lines_of(apply_scopes(apply_subs(code, subs, m), p, m)));
        },
        ChunkV::Composite { children, .. } => {
            lemma_children_out_extends_body(children, child_scope(ch, p), bs, m, ord, 0);
        },
    }
}

pub proof fn lemma_children_out_extends_body(
    cs: Seq<ChunkV>,
    sc: ScopeV,
    bs: BufferState,
    m: Map<Seq<char>, Seq<char>>,
    ord: OrderFn,
    j: int,
)
    ensures
        body_extended(bs, children_out(cs, sc, bs, m, ord, j)),
    decreases cs, 0nat, cs.len() - j,
{
    assert(bs.body.subrange(0, bs.body.len() as int) =~= bs.body);
    if 0 <= j < cs.len() {
        let b1 = chunk_out(cs[j], Some(Box::new(sc)), bs, m, ord);
        lemma_chunk_out_extends_body(cs[j], Some(Box::new(sc)), bs, m, ord);
        lemma_children_out_extends_body(cs, sc, b1, m, ord, j + 1);
        lemma_body_extended_trans(bs, b1, children_out(cs, sc, b1, m, ord, j + 1));
    }
}

/// A chunk whose conditions reject the map adds nothing to the script.
pub proof fn lemma_rejected_chunk_adds_nothing(
    ch: ChunkV,
    p: Option<Box<ScopeV>>,
    bs: BufferState,
    m: Map<Seq<char>, Seq<char>>,
    ord: OrderFn,
)
    requires
        !conditions_hold(ch.conds(), m, ord),
    ensures
        chunk_out(ch, p, bs, m, ord) == bs,
{
}

/// A chunk that repeats over a symbol with no value adds nothing but its
/// indentation change and its undoing.
pub proof fn lemma_unbound_repeat_adds_no_text(
    ch: ChunkV,
    p: Option<Box<ScopeV>>,
    bs: BufferState,
    m: Map<Seq<char>, Seq<char>>,
    ord: OrderFn,
)
    requires
        ch.repeat().len() > 0,
        !m.contains_key(ch.repeat()),
    ensures
        chunk_out(ch, p, bs, m, ord).body == bs.body,
{
}

} // verus!
