//! The functions of a generated script that come straight from their
//! metadata: `_Initialize`, `_Finalize` and `_DataReport`.
use vstd::prelude::*;

use crate::script_aggregator::script_buffer::{is_unique_choice, BufferState, ScriptBuffer};
use crate::script_gen_manager::function::{build, build_out, main_out};
use crate::text::owned;
use crate::xml_handler::composite::{chunk_out, chunk_parent, chunk_view, composite_view, opt_scope_view};
use crate::xml_handler::condition::{comparable, order_of, NumOrder, OrderFn};
use crate::xml_handler::group::{same_chunks, Group, IncludeResult};
use crate::xml_handler::value_map::ValueMap;

verus! {

/// The text of an auxiliary composite: run in a fresh buffer that indents
/// automatically, one step in.
pub open spec fn aux_text(
    c: crate::xml_handler::composite::Composite,
    m: Map<Seq<char>, Seq<char>>,
    ord: OrderFn,
) -> Seq<char> {
    let start = BufferState { auto_indent: true, ..BufferState::initial() }.change_indent(4);
    chunk_out(composite_view(c), opt_scope_view(c.parent), start, m, ord).change_indent(-4).script()
}

/// The auxiliary composites of `children[i..]` (those with a type), each
/// appended to the preamble as a whole.
pub open spec fn aux_out(
    children: Seq<IncludeResult>,
    i: int,
    bs: BufferState,
    m: Map<Seq<char>, Seq<char>>,
    ord: OrderFn,
) -> BufferState
    decreases children.len() - i,
{
    if i < 0 || i >= children.len() {
        bs
    } else {
        let b = match children[i] {
            IncludeResult::Composite(c) => if c.type_ is Some {
                bs.preamble_append(aux_text(c, m, ord))
            } else {
                bs
            },
            IncludeResult::Snippet(_) => bs,
        };
        aux_out(children, i + 1, b, m, ord)
    }
}

/// The map the initialize function is built with.
pub open spec fn initialize_map(m: Map<Seq<char>, Seq<char>>) -> Map<Seq<char>, Seq<char>> {
    m.insert("MAX-NODES"@, "64"@).insert("APPEND-MODE"@, "1"@).insert("INCLUDE-TIMESTAMPS"@, "1"@).insert(
        "INCLUDE-SRCVALS"@,
        "1"@,
    )
}

/// The map the data report function is built with.
pub open spec fn data_report_map(m: Map<Seq<char>, Seq<char>>) -> Map<Seq<char>, Seq<char>> {
    m.insert("READING-BUFFERS"@, "{}"@).insert("READING-BUFFER-NAMES"@, "{}"@).insert(
        "READING-BUFFER-SMU-NAMES"@,
        "{}"@,
    ).insert("WAIT-INTERVAL"@, "1"@).insert("MAX-READINGS-TO-RETURN"@, "100"@).insert(
        "TAG-DATA-REPORT"@,
        "Data"@,
    ).insert("TAG-SWEEP-START"@, "SWEEP-START"@).insert("TAG-START"@, "START"@).insert(
        "TAG-EXPECTED-COUNT"@,
        "EXPECTED-COUNT"@,
    ).insert("TAG-NAME"@, "NAME"@).insert("TAG-PTS-IN-BUFF"@, "PTS-IN-BUFF"@).insert(
        "TAG-PTS-RETURNED"@,
        "PTS-RETURNED"@,
    ).insert("TAG-BASE-TIME-STAMP"@, "BASE-TIME-STAMP"@).insert("TAG-READINGS"@, "READINGS"@).insert(
        "TAG-TIMESTAMPS"@,
        "TIMESTAMPS"@,
    ).insert("TAG-SRCVALS"@, "SRCVALS"@).insert("TAG-END"@, "END"@).insert("TAG-COMPLETE"@, "COMPLETE"@)
}

proof fn lemma_main_out_same(
    a: Seq<IncludeResult>,
    b: Seq<IncludeResult>,
    i: int,
    bs: BufferState,
    m: Map<Seq<char>, Seq<char>>,
    ord: OrderFn,
)
    requires
        same_chunks(a, b),
    ensures
        main_out(a, i, bs, m, ord) == main_out(b, i, bs, m, ord),
    decreases a.len() - i,
{
    if 0 <= i < a.len() {
        let ba = match a[i] {
            IncludeResult::Composite(c) => if c.type_ is None {
                chunk_out(composite_view(c), opt_scope_view(c.parent), bs, m, ord)
            } else {
                bs
            },
            IncludeResult::Snippet(_) => bs,
        };
        assert(chunk_view(a[i]) == chunk_view(b[i]));
        lemma_main_out_same(a, b, i + 1, ba, m, ord);
    }
}

/// Runs the auxiliary composites of `children` (see [`aux_out`]).
fn run_aux<F: Fn(&str, &str) -> Option<NumOrder>>(
    children: &mut Vec<IncludeResult>,
    script_buffer: &mut ScriptBuffer,
    val_replacement_map: &ValueMap,
    compare: &F,
)
    requires
        comparable(*compare),
    ensures
        final(script_buffer)@ == aux_out(old(children)@, 0, old(script_buffer)@, val_replacement_map@, order_of(*compare)),
        final(script_buffer)@.names == old(script_buffer)@.names,
        same_chunks(final(children)@, old(children)@),
{
    let ghost orig = children@;
    let ghost bs0 = script_buffer@;
    let mut i: usize = 0;
    while i < children.len()
        invariant
            comparable(*compare),
            i <= children@.len(),
            same_chunks(children@, orig),
            script_buffer@.names == bs0.names,
            aux_out(orig, i as int, script_buffer@, val_replacement_map@, order_of(*compare)) == aux_out(
                orig,
                0,
                bs0,
                val_replacement_map@,
                order_of(*compare),
            ),
        decreases children.len() - i,
    {
        let is_aux = match &children[i] {
            IncludeResult::Composite(c) => c.type_.is_some(),
            IncludeResult::Snippet(_) => false,
        };
        proof {
            assert(chunk_view(children@[i as int]) == chunk_view(orig[i as int]));
        }
        if is_aux {
            let mut child = children.remove(i);
            match child {
                IncludeResult::Composite(mut c) => {
                    let mut temp = ScriptBuffer::new();
                    temp.set_auto_indent(true);
                    temp.change_indent(ScriptBuffer::DEFAULT_INDENT);
                    c.to_script(&mut temp, val_replacement_map, compare);
                    temp.change_indent(-ScriptBuffer::DEFAULT_INDENT);
                    script_buffer.preamble_append(temp.to_string());
                    children.insert(i, IncludeResult::Composite(c));
                },
                IncludeResult::Snippet(s) => {
                    children.insert(i, IncludeResult::Snippet(s));
                },
            }
        }
        proof {
            assert(same_chunks(children@, orig));
        }
        i = i + 1;
    }
}

/// The `_Initialize` function of a script: it prepares the test for execution.
pub struct InitializeModel {
    pub type_: String,
    pub description: String,
    pub metadata: Group,
    pub val_replacement_map: ValueMap,
}

impl InitializeModel {
    pub const DESCRIPTION: &'static str = "This function prepares the test for execution.\n    It first verifies that current setup matches project's setup.\n    Then, it initializes members used to keep track of reading buffer storage.  ";

    /// The function for the metadata `group`.
    pub fn new(group: Group) -> (r: Self)
        ensures
            r.type_ == group.type_,
            r.description@ == Self::DESCRIPTION@,
            r.metadata == group,
            r.val_replacement_map@ == Map::<Seq<char>, Seq<char>>::empty(),
    {
        InitializeModel {
            type_: group.type_.clone(),
            description: owned(Self::DESCRIPTION),
            metadata: group,
            val_replacement_map: ValueMap::new(),
        }
    }

    /// Adds the settings of the initialize function to the map, appends the
    /// auxiliary composites to the preamble and builds the function.
    pub fn to_script<F: Fn(&str, &str) -> Option<NumOrder>>(&mut self, script_buffer: &mut ScriptBuffer, compare: &F)
        requires
            comparable(*compare),
            old(script_buffer)@.names.len() < usize::MAX,
        ensures
            final(self).val_replacement_map@ == initialize_map(old(self).val_replacement_map@),
            exists|name: Seq<char>|
                is_unique_choice(old(script_buffer)@.names, seq!['_'] + old(self).type_@, name)
                    && final(script_buffer)@ == build_out(
                    aux_out(
                        old(self).metadata.children@,
                        0,
                        old(script_buffer)@,
                        initialize_map(old(self).val_replacement_map@),
                        order_of(*compare),
                    ),
                    old(self).type_@,
                    old(self).description@,
                    old(self).metadata.children@,
                    initialize_map(old(self).val_replacement_map@),
                    order_of(*compare),
                    name,
                ),
    {
        self.val_replacement_map.insert(owned("MAX-NODES"), owned("64"));
        self.val_replacement_map.insert(owned("APPEND-MODE"), owned("1"));
        self.val_replacement_map.insert(owned("INCLUDE-TIMESTAMPS"), owned("1"));
        self.val_replacement_map.insert(owned("INCLUDE-SRCVALS"), owned("1"));
        let ghost kids0 = self.metadata.children@;
        run_aux(&mut self.metadata.children, script_buffer, &self.val_replacement_map, compare);
        let ghost bs1 = script_buffer@;
        build(script_buffer, &self.type_, &self.description, &self.metadata, &self.val_replacement_map, compare);
        proof {
            let name = choose|name: Seq<char>|
                is_unique_choice(bs1.names, seq!['_'] + self.type_@, name) && script_buffer@ == build_out(
                    bs1,
                    self.type_@,
                    self.description@,
                    self.metadata.children@,
                    self.val_replacement_map@,
                    order_of(*compare),
                    name,
                );
            assert forall|bs: BufferState| #[trigger] main_out(self.metadata.children@, 0, bs, self.val_replacement_map@, order_of(*compare))
                == main_out(kids0, 0, bs, self.val_replacement_map@, order_of(*compare)) by {
                lemma_main_out_same(self.metadata.children@, kids0, 0, bs, self.val_replacement_map@, order_of(*compare));
            }
            assert(script_buffer@ == build_out(
                bs1,
                self.type_@,
                self.description@,
                kids0,
                self.val_replacement_map@,
                order_of(*compare),
                name,
            ));
        }
    }
}

/// The `_Finalize` function of a script: it leaves the instrument in a known state.
pub struct FinalizeModel {
    pub type_: String,
    pub description: String,
    pub metadata: Group,
    pub val_replacement_map: ValueMap,
}

impl FinalizeModel {
    pub const DESCRIPTION: &'static str = "The function completes the script and places the instrument in a known state.";

    /// The function for the metadata `group`.
    pub fn new(group: Group) -> (r: Self)
        ensures
            r.type_ == group.type_,
            r.description@ == Self::DESCRIPTION@,
            r.metadata == group,
            r.val_replacement_map@ == Map::<Seq<char>, Seq<char>>::empty(),
    {
        FinalizeModel {
            type_: group.type_.clone(),
            description: owned(Self::DESCRIPTION),
            metadata: group,
            val_replacement_map: ValueMap::new(),
        }
    }

    /// Builds the function.
    pub fn to_script<F: Fn(&str, &str) -> Option<NumOrder>>(&mut self, script_buffer: &mut ScriptBuffer, compare: &F)
        requires
            comparable(*compare),
            old(script_buffer)@.names.len() < usize::MAX,
        ensures
            final(self).val_replacement_map@ == old(self).val_replacement_map@,
            exists|name: Seq<char>|
                is_unique_choice(old(script_buffer)@.names, seq!['_'] + old(self).type_@, name)
                    && final(script_buffer)@ == build_out(
                    old(script_buffer)@,
                    old(self).type_@,
                    old(self).description@,
                    old(self).metadata.children@,
                    old(self).val_replacement_map@,
                    order_of(*compare),
                    name,
                ),
    {
        build(script_buffer, &self.type_, &self.description, &self.metadata, &self.val_replacement_map, compare);
    }
}

/// The `_DataReport` function of a script: it returns the reading buffers.
pub struct DataReportModel {
    pub type_: String,
    pub description: String,
    pub metadata: Group,
    pub val_replacement_map: ValueMap,
}

impl DataReportModel {
    pub const DESCRIPTION: &'static str = "This script returns a series of reading buffers. ";

    /// The function for the metadata `group`.
    pub fn new(group: Group) -> (r: Self)
        ensures
            r.type_ == group.type_,
            r.description@ == Self::DESCRIPTION@,
            r.metadata == group,
            r.val_replacement_map@ == Map::<Seq<char>, Seq<char>>::empty(),
    {
        DataReportModel {
            type_: group.type_.clone(),
            description: owned(Self::DESCRIPTION),
            metadata: group,
            val_replacement_map: ValueMap::new(),
        }
    }

    /// Adds the reading-buffer settings and report tags to the map and
    /// builds the function.
    pub fn to_script<F: Fn(&str, &str) -> Option<NumOrder>>(&mut self, script_buffer: &mut ScriptBuffer, compare: &F)
        requires
            comparable(*compare),
            old(script_buffer)@.names.len() < usize::MAX,
        ensures
            final(self).val_replacement_map@ == data_report_map(old(self).val_replacement_map@),
            exists|name: Seq<char>|
                is_unique_choice(old(script_buffer)@.names, seq!['_'] + old(self).type_@, name)
                    && final(script_buffer)@ == build_out(
                    old(script_buffer)@,
                    old(self).type_@,
                    old(self).description@,
                    old(self).metadata.children@,
                    data_report_map(old(self).val_replacement_map@),
                    order_of(*compare),
                    name,
                ),
    {
        let m = &mut self.val_replacement_map;
        m.insert(owned("READING-BUFFERS"), owned("{}"));
        m.insert(owned("READING-BUFFER-NAMES"), owned("{}"));
        m.insert(owned("READING-BUFFER-SMU-NAMES"), owned("{}"));
        m.insert(owned("WAIT-INTERVAL"), owned("1"));
        m.insert(owned("MAX-READINGS-TO-RETURN"), owned("100"));
        m.insert(owned("TAG-DATA-REPORT"), owned("Data"));
        m.insert(owned("TAG-SWEEP-START"), owned("SWEEP-START"));
        m.insert(owned("TAG-START"), owned("START"));
        m.insert(owned("TAG-EXPECTED-COUNT"), owned("EXPECTED-COUNT"));
        m.insert(owned("TAG-NAME"), owned("NAME"));
        m.insert(owned("TAG-PTS-IN-BUFF"), owned("PTS-IN-BUFF"));
        m.insert(owned("TAG-PTS-RETURNED"), owned("PTS-RETURNED"));
        m.insert(owned("TAG-BASE-TIME-STAMP"), owned("BASE-TIME-STAMP"));
        m.insert(owned("TAG-READINGS"), owned("READINGS"));
        m.insert(owned("TAG-TIMESTAMPS"), owned("TIMESTAMPS"));
        m.insert(owned("TAG-SRCVALS"), owned("SRCVALS"));
        m.insert(owned("TAG-END"), owned("END"));
        m.insert(owned("TAG-COMPLETE"), owned("COMPLETE"));
        build(script_buffer, &self.type_, &self.description, &self.metadata, &self.val_replacement_map, compare);
    }
}

} // verus!
