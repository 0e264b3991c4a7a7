//! The script: its functions in order, and the text they make together.
use vstd::prelude::*;

use crate::script_aggregator::script_buffer::{has_name, is_unique_choice, BufferState, ScriptBuffer};
use crate::script_gen_manager::catalog::Catalog;
use crate::script_gen_manager::function::{build_out, finish_out, main_out, start_out};
use crate::script_gen_manager::models::{
    aux_out, data_report_map, initialize_map, DataReportModel, FinalizeModel, InitializeModel,
};
use crate::script_gen_manager::sweep::{sweep_map, SweepModel, SweepSettings};
use crate::xml_handler::condition::{comparable, order_of, NumOrder, OrderFn};
use crate::xml_handler::group::{group_view, Group, GroupV};

verus! {

/// One function of a script.
pub enum FunctionChunk {
    Initialize(InitializeModel),
    Finalize(FinalizeModel),
    Sweep(SweepModel),
    DataReport(DataReportModel),
}

/// The name `get_unique_name(base)` hands out given the names taken.
pub open spec fn unique_name(names: Seq<Seq<char>>, base: Seq<char>) -> Seq<char> {
    choose|n: Seq<char>| is_unique_choice(names, base, n)
}

/// `get_unique_name` has one possible answer.
pub proof fn lemma_unique_choice_unique(names: Seq<Seq<char>>, base: Seq<char>, a: Seq<char>, b: Seq<char>)
    requires
        is_unique_choice(names, base, a),
        is_unique_choice(names, base, b),
    ensures
        a == b,
{
    if a != base && b != base {
        let ka = choose|k: nat|
            k >= 1 && a == base + crate::text::decimal(k) && forall|j: nat|
                1 <= j < k ==> has_name(names, #[trigger] (base + crate::text::decimal(j)));
        let kb = choose|k: nat|
            k >= 1 && b == base + crate::text::decimal(k) && forall|j: nat|
                1 <= j < k ==> has_name(names, #[trigger] (base + crate::text::decimal(j)));
        if ka < kb {
            assert(has_name(names, base + crate::text::decimal(ka)));
        } else if kb < ka {
            assert(has_name(names, base + crate::text::decimal(kb)));
        }
    }
}

/// The buffer after the function `c` runs.
pub open spec fn function_out(
    c: FunctionChunk,
    s: SweepSettings,
    bs: BufferState,
    ord: OrderFn,
) -> BufferState {
    match c {
        FunctionChunk::Initialize(f) => {
            let m = initialize_map(f.val_replacement_map@);
            build_out(
                aux_out(f.metadata.children@, 0, bs, m, ord),
                f.type_@,
                f.description@,
                f.metadata.children@,
                m,
                ord,
                unique_name(bs.names, seq!['_'] + f.type_@),
            )
        },
        FunctionChunk::Finalize(f) => build_out(
            bs,
            f.type_@,
            f.description@,
            f.metadata.children@,
            f.val_replacement_map@,
            ord,
            unique_name(bs.names, seq!['_'] + f.type_@),
        ),
        FunctionChunk::DataReport(f) => build_out(
            bs,
            f.type_@,
            f.description@,
            f.metadata.children@,
            data_report_map(f.val_replacement_map@),
            ord,
            unique_name(bs.names, seq!['_'] + f.type_@),
        ),
        FunctionChunk::Sweep(f) => if s.steps@.len() == 0 && s.sweeps@.len() == 0 {
            bs.postamble_append("-- no sweep ... requires at least 1 step channel or 1 sweep channel"@)
        } else {
            build_out(
                bs,
                f.type_@,
                f.description@,
                f.metadata.children@,
                sweep_map(s),
                ord,
                unique_name(bs.names, seq!['_'] + f.type_@),
            )
        },
    }
}

/// The buffer after the functions `cs[i..]` run in order.
pub open spec fn functions_out(
    cs: Seq<FunctionChunk>,
    i: int,
    s: SweepSettings,
    bs: BufferState,
    ord: OrderFn,
) -> BufferState
    decreases cs.len() - i,
{
    if i < 0 || i >= cs.len() {
        bs
    } else {
        functions_out(cs, i + 1, s, function_out(cs[i], s, bs, ord), ord)
    }
}

/// The buffer a script starts with: empty, indenting automatically.
pub open spec fn script_start() -> BufferState {
    BufferState { auto_indent: true, ..BufferState::initial() }
}

/// Creates and manages the individual functions that make up the script.
pub struct ScriptModel {
    pub catalog: Catalog,
    pub chunks: Vec<FunctionChunk>,
}

/// The position a function is added at: before the last one (at the start
/// when there is at most one).
pub open spec fn add_position(len: nat) -> int {
    if len > 1 {
        len - 1
    } else {
        0
    }
}

/// Where an added function goes: in a script of at least two functions, just
/// before the last one, so the first function stays first, the last stays
/// last and the others keep their places; in a script of at most one, at
/// the start.
pub proof fn lemma_add_before_last(chunks: Seq<FunctionChunk>, chunk: FunctionChunk)
    ensures
        chunks.insert(add_position(chunks.len()), chunk).len() == chunks.len() + 1,
        chunks.len() >= 2 ==> {
            let r = chunks.insert(add_position(chunks.len()), chunk);
            &&& r[0] == chunks[0]
            &&& r[r.len() - 1] == chunks[chunks.len() - 1]
            &&& r[chunks.len() - 1] == chunk
            &&& forall|i: int| 0 <= i < chunks.len() - 1 ==> r[i] == chunks[i]
        },
        chunks.len() <= 1 ==> chunks.insert(add_position(chunks.len()), chunk) == seq![chunk] + chunks,
{
    if chunks.len() <= 1 {
        assert(chunks.insert(add_position(chunks.len()), chunk) =~= seq![chunk] + chunks);
    }
}

/// Adding two functions to a script that holds a first and a last function
/// puts them between the two, in the order they were added.
pub proof fn lemma_adds_keep_order(
    first: FunctionChunk,
    last: FunctionChunk,
    a: FunctionChunk,
    b: FunctionChunk,
)
    ensures
        ({
            let s0 = seq![first, last];
            let s1 = s0.insert(add_position(s0.len()), a);
            s1.insert(add_position(s1.len()), b) == seq![first, a, b, last]
        }),
{
    let s0 = seq![first, last];
    let s1 = s0.insert(add_position(s0.len()), a);
    assert(s1 =~= seq![first, a, last]);
    assert(s1.insert(add_position(s1.len()), b) =~= seq![first, a, b, last]);
}

proof fn lemma_build_names(
    bs: BufferState,
    type_: Seq<char>,
    description: Seq<char>,
    children: Seq<crate::xml_handler::group::IncludeResult>,
    m: Map<Seq<char>, Seq<char>>,
    ord: OrderFn,
    name: Seq<char>,
)
    ensures
        build_out(bs, type_, description, children, m, ord, name).names == bs.names.push(name),
{
    let b1 = BufferState { names: bs.names.push(name), ..bs };
    let b2 = start_out(b1, type_, description).body_append("function "@ + name + "()\n"@).change_indent(4);
    lemma_main_names(children, 0, b2, m, ord);
}

proof fn lemma_main_names(
    children: Seq<crate::xml_handler::group::IncludeResult>,
    i: int,
    bs: BufferState,
    m: Map<Seq<char>, Seq<char>>,
    ord: OrderFn,
)
    ensures
        main_out(children, i, bs, m, ord).names == bs.names,
    decreases children.len() - i,
{
    if 0 <= i < children.len() {
        let b = match children[i] {
            crate::xml_handler::group::IncludeResult::Composite(c) => if c.type_ is None {
                crate::xml_handler::composite::lemma_chunk_out_extends_body(
                    crate::xml_handler::composite::composite_view(c),
                    crate::xml_handler::composite::opt_scope_view(c.parent),
                    bs,
                    m,
                    ord,
                );
                crate::xml_handler::composite::chunk_out(
                    crate::xml_handler::composite::composite_view(c),
                    crate::xml_handler::composite::opt_scope_view(c.parent),
                    bs,
                    m,
                    ord,
                )
            } else {
                bs
            },
            crate::xml_handler::group::IncludeResult::Snippet(_) => bs,
        };
        lemma_main_names(children, i + 1, b, m, ord);
    }
}

proof fn lemma_aux_names(
    children: Seq<crate::xml_handler::group::IncludeResult>,
    i: int,
    bs: BufferState,
    m: Map<Seq<char>, Seq<char>>,
    ord: OrderFn,
)
    ensures
        aux_out(children, i, bs, m, ord).names == bs.names,
    decreases children.len() - i,
{
    if 0 <= i < children.len() {
        let b = match children[i] {
            crate::xml_handler::group::IncludeResult::Composite(c) => if c.type_ is Some {
                bs.preamble_append(crate::script_gen_manager::models::aux_text(c, m, ord))
            } else {
                bs
            },
            crate::xml_handler::group::IncludeResult::Snippet(_) => bs,
        };
        lemma_aux_names(children, i + 1, b, m, ord);
    }
}

/// Runs one function.
fn run_function<F: Fn(&str, &str) -> Option<NumOrder>>(
    c: &mut FunctionChunk,
    s: &SweepSettings,
    script_buffer: &mut ScriptBuffer,
    compare: &F,
)
    requires
        comparable(*compare),
        old(script_buffer)@.names.len() < usize::MAX,
    ensures
        final(script_buffer)@ == function_out(*old(c), *s, old(script_buffer)@, order_of(*compare)),
        final(script_buffer)@.names.len() <= old(script_buffer)@.names.len() + 1,
{
    let ghost bs0 = script_buffer@;
    match c {
        FunctionChunk::Initialize(f) => {
            let ghost f0 = *f;
            let ghost m = initialize_map(f0.val_replacement_map@);
            let ghost base = seq!['_'] + f0.type_@;
            proof {
                lemma_aux_names(f0.metadata.children@, 0, bs0, m, order_of(*compare));
            }
            f.to_script(script_buffer, compare);
            proof {
                let bsa = aux_out(f0.metadata.children@, 0, bs0, m, order_of(*compare));
                let name = choose|name: Seq<char>|
                    is_unique_choice(bs0.names, base, name) && script_buffer@ == build_out(
                        bsa,
                        f0.type_@,
                        f0.description@,
                        f0.metadata.children@,
                        m,
                        order_of(*compare),
                        name,
                    );
                lemma_unique_choice_unique(bs0.names, base, name, unique_name(bs0.names, base));
                lemma_build_names(bsa, f0.type_@, f0.description@, f0.metadata.children@, m, order_of(*compare), name);
            }
        },
        FunctionChunk::Finalize(f) => {
            let ghost f0 = *f;
            let ghost base = seq!['_'] + f0.type_@;
            f.to_script(script_buffer, compare);
            proof {
                let name = choose|name: Seq<char>|
                    is_unique_choice(bs0.names, base, name) && script_buffer@ == build_out(
                        bs0,
                        f0.type_@,
                        f0.description@,
                        f0.metadata.children@,
                        f0.val_replacement_map@,
                        order_of(*compare),
                        name,
                    );
                lemma_unique_choice_unique(bs0.names, base, name, unique_name(bs0.names, base));
                lemma_build_names(bs0, f0.type_@, f0.description@, f0.metadata.children@, f0.val_replacement_map@, order_of(*compare), name);
            }
        },
        FunctionChunk::DataReport(f) => {
            let ghost f0 = *f;
            let ghost base = seq!['_'] + f0.type_@;
            f.to_script(script_buffer, compare);
            proof {
                let m = data_report_map(f0.val_replacement_map@);
                let name = choose|name: Seq<char>|
                    is_unique_choice(bs0.names, base, name) && script_buffer@ == build_out(
                        bs0,
                        f0.type_@,
                        f0.description@,
                        f0.metadata.children@,
                        m,
                        order_of(*compare),
                        name,
                    );
                lemma_unique_choice_unique(bs0.names, base, name, unique_name(bs0.names, base));
                lemma_build_names(bs0, f0.type_@, f0.description@, f0.metadata.children@, m, order_of(*compare), name);
            }
        },
        FunctionChunk::Sweep(f) => {
            let ghost f0 = *f;
            let ghost base = seq!['_'] + f0.type_@;
            f.to_script(s, script_buffer, compare);
            proof {
                if s.steps@.len() > 0 || s.sweeps@.len() > 0 {
                    let m = sweep_map(*s);
                    let name = choose|name: Seq<char>|
                        is_unique_choice(bs0.names, base, name) && script_buffer@ == build_out(
                            bs0,
                            f0.type_@,
                            f0.description@,
                            f0.metadata.children@,
                            m,
                            order_of(*compare),
                            name,
                        );
                    lemma_unique_choice_unique(bs0.names, base, name, unique_name(bs0.names, base));
                    lemma_build_names(bs0, f0.type_@, f0.description@, f0.metadata.children@, m, order_of(*compare), name);
                }
            }
        },
    }
}

impl ScriptModel {
    /// A script with no functions yet.
    pub fn new(catalog: Catalog) -> (r: Self)
        ensures
            r.catalog == catalog,
            r.chunks@.len() == 0,
    {
        ScriptModel { catalog, chunks: Vec::new() }
    }

    /// Starts over with the initialize and finalize functions, for those the
    /// catalog has metadata for.
    pub fn initialize_scripts(&mut self)
        ensures
            final(self).catalog == old(self).catalog,
            final(self).chunks@.len() == (if old(self).catalog@.contains_key("Initialize"@) { 1int } else { 0int })
                + (if old(self).catalog@.contains_key("Finalize"@) { 1int } else { 0int }),
            forall|i: int|
                0 <= i < final(self).chunks@.len() ==> (i == 0 && old(self).catalog@.contains_key("Initialize"@) ==> (
                #[trigger] final(self).chunks@[i] matches FunctionChunk::Initialize(f) && group_view(f.metadata)
                    == old(self).catalog@["Initialize"@] && f.val_replacement_map@.len() == 0))
                    && ((i == final(self).chunks@.len() - 1 && old(self).catalog@.contains_key("Finalize"@))
                    ==> (final(self).chunks@[i] matches FunctionChunk::Finalize(f) && group_view(f.metadata)
                    == old(self).catalog@["Finalize"@] && f.val_replacement_map@.len() == 0)),
    {
        self.chunks = Vec::new();
        match self.catalog.get("Initialize") {
            Some(group) => {
                let f = InitializeModel::new(group.duplicate());
                self.chunks.push(FunctionChunk::Initialize(f));
            },
            None => {},
        }
        match self.catalog.get("Finalize") {
            Some(group) => {
                let f = FinalizeModel::new(group.duplicate());
                self.chunks.push(FunctionChunk::Finalize(f));
            },
            None => {},
        }
    }

    /// Adds a function before the last one (at the start when there is at most one).
    pub fn add(&mut self, chunk: FunctionChunk)
        ensures
            final(self).catalog == old(self).catalog,
            final(self).chunks@ == old(self).chunks@.insert(add_position(old(self).chunks@.len()), chunk),
            old(self).chunks@.len() >= 2 ==> final(self).chunks@[0] == old(self).chunks@[0]
                && final(self).chunks@.last() == old(self).chunks@.last()
                && final(self).chunks@[old(self).chunks@.len() - 1] == chunk,
            old(self).chunks@.len() <= 1 ==> final(self).chunks@ == seq![chunk] + old(self).chunks@,
    {
        let index = if self.chunks.len() > 1 {
            self.chunks.len() - 1
        } else {
            0
        };
        self.chunks.insert(index, chunk);
        proof {
            lemma_add_before_last(old(self).chunks@, chunk);
        }
    }

    /// Adds the sweep function, when the catalog has metadata for it.
    pub fn add_sweep(&mut self)
        ensures
            final(self).catalog == old(self).catalog,
            !old(self).catalog@.contains_key("Sweep"@) ==> final(self).chunks@ == old(self).chunks@,
            old(self).catalog@.contains_key("Sweep"@) ==> final(self).chunks@.len() == old(self).chunks@.len() + 1
                && (final(self).chunks@[add_position(old(self).chunks@.len())] matches FunctionChunk::Sweep(f)
                && group_view(f.metadata) == old(self).catalog@["Sweep"@])
                && forall|i: int| 0 <= i < add_position(old(self).chunks@.len()) ==> final(self).chunks@[i] == old(self).chunks@[i],
    {
        match self.catalog.get("Sweep") {
            Some(group) => {
                let f = SweepModel::new(group.duplicate());
                self.add(FunctionChunk::Sweep(f));
            },
            None => {},
        }
    }

    /// Adds the data report function, when the catalog has metadata for it.
    pub fn add_data_report(&mut self)
        ensures
            final(self).catalog == old(self).catalog,
            !old(self).catalog@.contains_key("DataReport"@) ==> final(self).chunks@ == old(self).chunks@,
            old(self).catalog@.contains_key("DataReport"@) ==> final(self).chunks@.len() == old(self).chunks@.len() + 1
                && (final(self).chunks@[add_position(old(self).chunks@.len())] matches FunctionChunk::DataReport(f)
                && group_view(f.metadata) == old(self).catalog@["DataReport"@])
                && forall|i: int| 0 <= i < add_position(old(self).chunks@.len()) ==> final(self).chunks@[i] == old(self).chunks@[i],
    {
        match self.catalog.get("DataReport") {
            Some(group) => {
                let f = DataReportModel::new(group.duplicate());
                self.add(FunctionChunk::DataReport(f));
            },
            None => {},
        }
    }

    /// The text of the script: its functions run in order in a buffer that
    /// indents automatically.
    pub fn to_script<F: Fn(&str, &str) -> Option<NumOrder>>(&mut self, s: &SweepSettings, compare: &F) -> (r: String)
        requires
            comparable(*compare),
        ensures
            r@ == functions_out(old(self).chunks@, 0, *s, script_start(), order_of(*compare)).script(),
            final(self).chunks@.len() == old(self).chunks@.len(),
    {
        let mut script_buffer = ScriptBuffer::new();
        script_buffer.set_auto_indent(true);
        let ghost cs0 = self.chunks@;
        let n = self.chunks.len();
        let mut i: usize = 0;
        while i < n
            invariant
                comparable(*compare),
                i <= n,
                n == cs0.len(),
                self.chunks@.len() == n,
                forall|k: int| i <= k < n ==> self.chunks@[k] == cs0[k],
                script_buffer@.names.len() <= i,
                functions_out(cs0, i as int, *s, script_buffer@, order_of(*compare)) == functions_out(
                    cs0,
                    0,
                    *s,
                    script_start(),
                    order_of(*compare),
                ),
            decreases n - i,
        {
            let mut c = self.chunks.remove(i);
            run_function(&mut c, s, &mut script_buffer, compare);
            self.chunks.insert(i, c);
            i = i + 1;
        }
        script_buffer.to_string()
    }
}

} // verus!
