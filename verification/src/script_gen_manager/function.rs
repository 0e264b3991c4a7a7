//! The parts every function of a generated script shares: its header and
//! footer comments, its unique name, and the body built from its metadata.
use vstd::prelude::*;

use crate::script_aggregator::script_buffer::{BufferState, ScriptBuffer};
use crate::text::{chars_of, extend_vec, is_ascii_seq, lines_of, lines_vec, owned, string_of};
use crate::xml_handler::composite::{chunk_out, composite_view, opt_scope_view};
use crate::xml_handler::condition::{comparable, order_of, NumOrder, OrderFn};
use crate::xml_handler::group::{Group, IncludeResult};
use crate::xml_handler::value_map::ValueMap;

verus! {

/// The upper-case form of `s` (as `str::to_uppercase`).
pub uninterp spec fn uppercase(s: Seq<char>) -> Seq<char>;

/// `s` with `a`-`z` turned into `A`-`Z`.
pub open spec fn ascii_upper(s: Seq<char>) -> Seq<char> {
    s.map_values(|c: char| if 'a' <= c && c <= 'z' { ((c as u32) - 32) as char } else { c })
}

/// Calls `str::to_uppercase`; its documentation maps the ASCII letters
/// `a`-`z` to `A`-`Z` and leaves other ASCII characters alone.
#[verifier::external_body]
pub(crate) fn to_uppercase(s: &str) -> (r: String)
    ensures
        r@ == uppercase(s@),
        is_ascii_seq(s@) ==> r@ == ascii_upper(s@),
{
    s.to_uppercase()
}

/// The comment lines for `lines`: each line after `-- `, joined by line feeds.
pub open spec fn comment_lines(lines: Seq<Seq<char>>) -> Seq<char>
    decreases lines.len(),
{
    if lines.len() == 0 {
        Seq::empty()
    } else if lines.len() == 1 {
        seq!['-', '-', ' '] + lines[0]
    } else {
        comment_lines(lines.drop_last()) + seq!['\n', '-', '-', ' '] + lines.last()
    }
}

/// A text as a Lua comment: each of its lines after `-- `.
pub open spec fn lua_comment(descriptor: Seq<char>) -> Seq<char> {
    comment_lines(lines_of(descriptor))
}

pub open spec fn dash_line() -> Seq<char> {
    "----------------------------------------------------------------------------"@
}

pub open spec fn double_line() -> Seq<char> {
    "--=========================================================================="@
}

/// The header of a function of type `type_`.
pub open spec fn start_out(bs: BufferState, type_: Seq<char>, description: Seq<char>) -> BufferState {
    bs.body_append(dash_line()).body_append(
        "-- START OF "@ + uppercase(type_) + " SEGMENT ... do not modify this section "@,
    ).body_append(dash_line()).body_append(double_line()).body_append(lua_comment(description)).body_append(
        double_line(),
    )
}

/// The footer of a function of type `type_`.
pub open spec fn finish_out(bs: BufferState, type_: Seq<char>) -> BufferState {
    bs.body_append(dash_line()).body_append(
        "-- END OF "@ + uppercase(type_) + " SEGMENT ... do not modify code after this point"@,
    ).body_append(dash_line() + seq!['\n']).body_append(Seq::empty())
}

/// The main composites of `children[i..]` (those without a type) run in order.
pub open spec fn main_out(
    children: Seq<IncludeResult>,
    i: int,
    bs: BufferState,
    m: Map<Seq<char>, Seq<char>>,
    ord: OrderFn,
) -> BufferState
    decreases children.len() - i,
{
    if i < 0 || i >= children.len() {
        bs
    } else {
        let b = match children[i] {
            IncludeResult::Composite(c) => if c.type_ is None {
                chunk_out(composite_view(c), opt_scope_view(c.parent), bs, m, ord)
            } else {
                bs
            },
            IncludeResult::Snippet(_) => bs,
        };
        main_out(children, i + 1, b, m, ord)
    }
}

/// A function named `name`: its header, `function NAME()`, the main
/// composites of `children` indented by four, `end`, its footer, and a call
/// of it in the postamble.
pub open spec fn build_out(
    bs: BufferState,
    type_: Seq<char>,
    description: Seq<char>,
    children: Seq<IncludeResult>,
    m: Map<Seq<char>, Seq<char>>,
    ord: OrderFn,
    name: Seq<char>,
) -> BufferState {
    let b1 = BufferState { names: bs.names.push(name), ..bs };
    let b2 = start_out(b1, type_, description).body_append("function "@ + name + "()\n"@).change_indent(4);
    let b3 = main_out(children, 0, b2, m, ord);
    finish_out(b3.change_indent(-4).body_append("end"@), type_).postamble_append(name + "()"@)
}

/// `descriptor` as a Lua comment: each of its lines after `-- `.
pub fn to_lua_comment(descriptor: &str) -> (r: String)
    ensures
        r@ == lua_comment(descriptor@),
{
    let lines = lines_vec(&chars_of(descriptor));
    let ghost ls = lines_of(descriptor@);
    let mut out: Vec<char> = Vec::new();
    let mut i: usize = 0;
    assert(ls.take(0) =~= Seq::<Seq<char>>::empty());
    while i < lines.len()
        invariant
            i <= lines@.len(),
            lines@.len() == ls.len(),
            forall|k: int| 0 <= k < lines@.len() ==> (#[trigger] lines@[k])@ == ls[k],
            out@ == comment_lines(ls.take(i as int)),
        decreases lines.len() - i,
    {
        if i > 0 {
            out.push('\n');
        }
        out.push('-');
        out.push('-');
        out.push(' ');
        extend_vec(&mut out, &lines[i]);
        proof {
            assert(ls.take(i + 1).drop_last() =~= ls.take(i as int));
            assert(ls.take(i + 1).last() == ls[i as int]);
            if i == 0 {
                assert(out@ =~= seq!['-', '-', ' '] + ls[0]);
            } else {
                assert(out@ =~= comment_lines(ls.take(i as int)) + seq!['\n', '-', '-', ' '] + ls[i as int]);
            }
        }
        i = i + 1;
    }
    assert(ls.take(i as int) =~= ls);
    string_of(out.as_slice())
}

/// `a` followed by `b` and `c`.
fn concat3(a: &str, b: &String, c: &str) -> (r: String)
    ensures
        r@ == a@ + b@ + c@,
{
    let mut v = chars_of(a);
    extend_vec(&mut v, &chars_of(b.as_str()));
    extend_vec(&mut v, &chars_of(c));
    string_of(v.as_slice())
}

/// Appends the header of a function of type `type_` (see [`start_out`]).
pub fn start_chunk(script_buffer: &mut ScriptBuffer, type_: &String, description: &String)
    ensures
        final(script_buffer)@ == start_out(old(script_buffer)@, type_@, description@),
{
    let upper = to_uppercase(type_.as_str());
    script_buffer.body_append(owned("----------------------------------------------------------------------------"));
    script_buffer.body_append(concat3("-- START OF ", &upper, " SEGMENT ... do not modify this section "));
    script_buffer.body_append(owned("----------------------------------------------------------------------------"));
    script_buffer.body_append(owned("--=========================================================================="));
    script_buffer.body_append(to_lua_comment(description.as_str()));
    script_buffer.body_append(owned("--=========================================================================="));
}

/// Appends the footer of a function of type `type_` (see [`finish_out`]).
pub fn finish_chunk(script_buffer: &mut ScriptBuffer, type_: &String)
    ensures
        final(script_buffer)@ == finish_out(old(script_buffer)@, type_@),
{
    let upper = to_uppercase(type_.as_str());
    script_buffer.body_append(owned("----------------------------------------------------------------------------"));
    script_buffer.body_append(concat3("-- END OF ", &upper, " SEGMENT ... do not modify code after this point"));
    let mut last = chars_of("----------------------------------------------------------------------------");
    last.push('\n');
    assert(last@ =~= dash_line() + seq!['\n']);
    script_buffer.body_append(string_of(last.as_slice()));
    script_buffer.body_append(String::new());
}

/// Builds the function of type `type_` from `metadata` (see [`build_out`]):
/// its name is `_TYPE` made unique among the names the buffer handed out.
pub fn build<F: Fn(&str, &str) -> Option<NumOrder>>(
    script_buffer: &mut ScriptBuffer,
    type_: &String,
    description: &String,
    metadata: &Group,
    val_replacement_map: &ValueMap,
    compare: &F,
)
    requires
        comparable(*compare),
        old(script_buffer)@.names.len() < usize::MAX,
    ensures
        exists|name: Seq<char>|
            crate::script_aggregator::script_buffer::is_unique_choice(
                old(script_buffer)@.names,
                seq!['_'] + type_@,
                name,
            ) && final(script_buffer)@ == build_out(
                old(script_buffer)@,
                type_@,
                description@,
                metadata.children@,
                val_replacement_map@,
                order_of(*compare),
                name,
            ),
{
    let mut base = Vec::new();
    base.push('_');
    extend_vec(&mut base, &chars_of(type_.as_str()));
    let chunk_name = script_buffer.get_unique_name(string_of(base.as_slice()));
    let ghost name = chunk_name@;
    let ghost b1 = script_buffer@;
    start_chunk(script_buffer, type_, description);
    script_buffer.body_append(concat3("function ", &chunk_name, "()\n"));
    script_buffer.change_indent(ScriptBuffer::DEFAULT_INDENT);
    let ghost b2 = script_buffer@;
    let children = &metadata.children;
    let mut i: usize = 0;
    while i < children.len()
        invariant
            comparable(*compare),
            i <= children@.len(),
            main_out(children@, i as int, script_buffer@, val_replacement_map@, order_of(*compare)) == main_out(
                children@,
                0,
                b2,
                val_replacement_map@,
                order_of(*compare),
            ),
        decreases children.len() - i,
    {
        match &children[i] {
            IncludeResult::Composite(c) => {
                if c.type_.is_none() {
                    let mut copy = children[i].duplicate();
                    copy.to_script(script_buffer, val_replacement_map, compare);
                }
            },
            IncludeResult::Snippet(_) => {},
        }
        i = i + 1;
    }
    script_buffer.change_indent(-ScriptBuffer::DEFAULT_INDENT);
    script_buffer.body_append(owned("end"));
    finish_chunk(script_buffer, type_);
    script_buffer.postamble_append(concat3("", &chunk_name, "()"));
    proof {
        reveal_strlit("");
        assert(""@ + name + "()"@ =~= name + "()"@);
    }
}

} // verus!
