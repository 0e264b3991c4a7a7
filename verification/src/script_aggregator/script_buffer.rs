//! The three sections (preamble, body, postamble) of a generated script.
use vstd::prelude::*;

use crate::script_aggregator::indent_engine::{lemma_apply_whole_steps, IndentEngine, IndenterState};
use crate::text::{
    chars_of, decimal, decimal_string, is_ascii_seq, lemma_decimal_injective, owned, string_of,
    trim, trim_vec,
};

verus! {

/// `n` spaces.
pub open spec fn spaces(n: nat) -> Seq<char> {
    Seq::new(n, |i: int| ' ')
}

/// The four-space indentation step.
pub open spec fn four_spaces() -> Seq<char> {
    spaces(4)
}

/// `seq` holds `s`.
pub open spec fn has_name(names: Seq<Seq<char>>, s: Seq<char>) -> bool {
    exists|i: int| 0 <= i < names.len() && names[i] == s
}

/// `name` is the name that `get_unique_name(base)` hands out given the names
/// already taken: `base` itself when it is free, otherwise `base` followed by
/// the smallest positive number that makes it free.
pub open spec fn is_unique_choice(names: Seq<Seq<char>>, base: Seq<char>, name: Seq<char>) -> bool {
    !has_name(names, name) && ((name == base) || (has_name(names, base) && exists|k: nat|
        k >= 1 && name == base + decimal(k) && forall|j: nat|
            1 <= j < k ==> has_name(names, #[trigger] (base + decimal(j)))))
}

/// The `j`-th name tried for `base` (from 1): `base`, then `base1`, `base2`, ...
pub open spec fn candidate(base: Seq<char>, j: nat) -> Seq<char> {
    if j <= 1 {
        base
    } else {
        base + decimal((j - 1) as nat)
    }
}

/// The state of a [`ScriptBuffer`].
pub struct BufferState {
    pub auto_indent: bool,
    pub indent: Option<Seq<char>>,
    pub indent_count: nat,
    pub indent_enabled: bool,
    pub eol: Option<Seq<char>>,
    pub names: Seq<Seq<char>>,
    pub preamble: Seq<char>,
    pub body: Seq<char>,
    pub postamble: Seq<char>,
    pub preamble_indenter: IndenterState,
    pub body_indenter: IndenterState,
    pub postamble_indenter: IndenterState,
}

/// The text a section gains and the section's new indenter when `stmt` is appended.
pub open spec fn section_append(
    st: BufferState,
    indenter: IndenterState,
    stmt: Seq<char>,
) -> (Seq<char>, IndenterState) {
    let eol = match st.eol {
        Some(e) => e,
        None => Seq::empty(),
    };
    if st.auto_indent {
        (indenter.apply_text(stmt) + eol, indenter.apply_state(stmt))
    } else if st.indent_enabled && st.indent is Some {
        (st.indent.unwrap() + trim(stmt) + eol, indenter)
    } else {
        (stmt + eol, indenter)
    }
}

impl BufferState {
    /// The indentation text agrees with its count: none at 0, otherwise that
    /// many spaces, and never more than 20.
    pub open spec fn indent_consistent(self) -> bool {
        &&& self.indent_count <= 20
        &&& self.indent_count == 0 ==> self.indent is None
        &&& self.indent_count > 0 ==> self.indent == Some(spaces(self.indent_count))
    }

    pub open spec fn set_indent(self, value: nat) -> BufferState {
        if value == 0 {
            BufferState { indent_count: 0, indent: None, ..self }
        } else if value <= 20 {
            BufferState { indent_count: value, indent: Some(spaces(value)), ..self }
        } else {
            self
        }
    }

    pub open spec fn change_indent(self, value: int) -> BufferState {
        let sum = self.indent_count + value;
        let clamped = if sum > 20 {
            20
        } else if sum < 0 {
            0
        } else {
            sum
        };
        self.set_indent(clamped as nat)
    }

    pub open spec fn body_append(self, stmt: Seq<char>) -> BufferState {
        let (text, ind) = section_append(self, self.body_indenter, stmt);
        BufferState { body: self.body + text, body_indenter: ind, ..self }
    }

    pub open spec fn preamble_append(self, stmt: Seq<char>) -> BufferState {
        let (text, ind) = section_append(self, self.preamble_indenter, stmt);
        BufferState { preamble: self.preamble + text, preamble_indenter: ind, ..self }
    }

    pub open spec fn postamble_append(self, stmt: Seq<char>) -> BufferState {
        let (text, ind) = section_append(self, self.postamble_indenter, stmt);
        BufferState { postamble: self.postamble + text, postamble_indenter: ind, ..self }
    }

    /// The indentation of each section's indenter is a whole number of its steps.
    pub open spec fn indenters_whole(self) -> bool {
        &&& self.preamble_indenter.whole_steps()
        &&& self.body_indenter.whole_steps()
        &&& self.postamble_indenter.whole_steps()
    }

    /// What every buffer keeps: its indentation agrees with its count, its
    /// indenters indent by whole steps, and its line end is a line feed.
    pub open spec fn valid(self) -> bool {
        &&& self.indent_consistent()
        &&& self.indenters_whole()
        &&& self.eol == Some(seq!['\n'])
    }

    /// The whole script.
    pub open spec fn script(self) -> Seq<char> {
        self.preamble + self.body + self.postamble
    }

    /// A fresh buffer.
    pub open spec fn initial() -> BufferState {
        let ind = IndenterState {
            indent: Seq::empty(),
            next_indent: Seq::empty(),
            step: four_spaces(),
            step_size: 4,
            multi_line_comment: false,
        };
        BufferState {
            auto_indent: false,
            indent: None,
            indent_count: 0,
            indent_enabled: true,
            eol: Some(seq!['\n']),
            names: Seq::empty(),
            preamble: Seq::empty(),
            body: Seq::empty(),
            postamble: Seq::empty(),
            preamble_indenter: ind,
            body_indenter: ind,
            postamble_indenter: ind,
        }
    }
}


/// No name occurs twice.
pub open spec fn names_distinct(names: Seq<Seq<char>>) -> bool {
    forall|i: int, j: int| 0 <= i < j < names.len() ==> names[i] != names[j]
}

/// The names a buffer hands out stay distinct: a name chosen by
/// `get_unique_name` differs from every name handed out before.
pub proof fn lemma_unique_names_stay_distinct(names: Seq<Seq<char>>, base: Seq<char>, name: Seq<char>)
    requires
        names_distinct(names),
        is_unique_choice(names, base, name),
    ensures
        names_distinct(names.push(name)),
{
    assert forall|i: int, j: int| 0 <= i < j < names.push(name).len() implies names.push(name)[i]
        != names.push(name)[j] by {
        if j == names.len() {
            assert(names.push(name)[i] == names[i]);
            if names[i] == name {
                assert(has_name(names, name));
            }
        }
    }
}

/// Indenting by `v` and then by `-v` restores the indentation when the first
/// change stays within 0 to 20 spaces.
pub proof fn lemma_change_indent_round_trip(bs: BufferState, v: int)
    requires
        bs.indent_consistent(),
        0 <= bs.indent_count + v <= 20,
    ensures
        bs.change_indent(v).change_indent(-v) == bs,
{
}

/// A fresh buffer's script is empty, and appending to the body leaves the
/// preamble and the postamble as they were.
pub proof fn lemma_body_append_frame(bs: BufferState, stmt: Seq<char>)
    ensures
        bs.body_append(stmt).preamble == bs.preamble,
        bs.body_append(stmt).postamble == bs.postamble,
        bs.body_append(stmt).script() == bs.preamble + bs.body_append(stmt).body + bs.postamble,
        BufferState::initial().script() == Seq::<char>::empty(),
{
    assert(BufferState::initial().script() =~= Seq::<char>::empty());
}

/// Collects the preamble, body and postamble of a script, indenting statements
/// as they are appended.
#[derive(Debug)]
pub struct ScriptBuffer {
    auto_indent: bool,
    /// The indentation width and its text (none at width 0).
    indentation: (usize, Option<String>),
    indent_enabled: bool,
    eol: Option<String>,
    names: Vec<String>,
    preamble: String,
    body: String,
    postamble: String,
    preamble_indenter: IndentEngine,
    body_indenter: IndentEngine,
    postamble_indenter: IndentEngine,
}

/// The view of an optional string.
pub open spec fn opt_view(o: Option<String>) -> Option<Seq<char>> {
    match o {
        Some(s) => Some(s@),
        None => None,
    }
}

impl View for ScriptBuffer {
    type V = BufferState;

    closed spec fn view(&self) -> BufferState {
        BufferState {
            auto_indent: self.auto_indent,
            indent: opt_view(self.indentation.1),
            indent_count: self.indentation.0 as nat,
            indent_enabled: self.indent_enabled,
            eol: opt_view(self.eol),
            names: self.names@.map_values(|s: String| s@),
            preamble: self.preamble@,
            body: self.body@,
            postamble: self.postamble@,
            preamble_indenter: self.preamble_indenter@,
            body_indenter: self.body_indenter@,
            postamble_indenter: self.postamble_indenter@,
        }
    }
}

/// Creates a `String` of `n` spaces.
fn make_spaces(n: usize) -> (r: String)
    ensures
        r@ == spaces(n as nat),
{
    let mut v: Vec<char> = Vec::new();
    while v.len() < n
        invariant
            v.len() <= n,
            v@ == spaces(v.len() as nat),
        decreases n - v.len(),
    {
        v.push(' ');
        assert(v@ =~= spaces(v.len() as nat));
    }
    string_of(v.as_slice())
}

proof fn lemma_spaces_ascii(n: nat)
    ensures
        is_ascii_seq(spaces(n)),
{
}

impl ScriptBuffer {
    /// Twenty spaces: the widest indentation.
    pub const MAXIMUM_INDENT: &'static str = "                    ";

    /// The indentation step used around function bodies.
    pub const DEFAULT_INDENT: i32 = 4;

    #[verifier::type_invariant]
    spec fn inv(self) -> bool {
        &&& self.indentation.0 <= 20
        &&& self.indentation.0 == 0 ==> self.indentation.1 is None
        &&& self.indentation.0 > 0 ==> opt_view(self.indentation.1) == Some(spaces(self.indentation.0 as nat))
        &&& self.preamble_indenter@.whole_steps()
        &&& self.body_indenter@.whole_steps()
        &&& self.postamble_indenter@.whole_steps()
        &&& opt_view(self.eol) == Some(seq!['\n'])
    }

    /// An empty buffer: manual indentation, indentation off, "\n" line ends.
    pub fn new() -> (r: Self)
        ensures
            r@ == BufferState::initial(),
            r@.valid(),
    {
        let eol = owned("\n");
        proof {
            lemma_spaces_ascii(4);
            reveal_strlit("\n");
            assert(eol@ =~= seq!['\n']);
        }
        let r = ScriptBuffer {
            auto_indent: false,
            indentation: (0, None),
            indent_enabled: true,
            eol: Some(eol),
            names: Vec::new(),
            preamble: String::new(),
            body: String::new(),
            postamble: String::new(),
            preamble_indenter: IndentEngine::new(make_spaces(4)),
            body_indenter: IndentEngine::new(make_spaces(4)),
            postamble_indenter: IndentEngine::new(make_spaces(4)),
        };
        proof {
            reveal_strlit("\n");
            lemma_spaces_ascii(4);
            assert(r@.names =~= Seq::<Seq<char>>::empty());
            assert(r@.eol == Some(seq!['\n']));
        }
        r
    }

    /// Enables or disables automatic indentation.
    pub fn set_auto_indent(&mut self, auto_indent: bool)
        ensures
            final(self)@ == (BufferState { auto_indent, ..old(self)@ }),
            old(self)@.valid(),
            final(self)@.valid(),
    {
        proof {
            use_type_invariant(&*self);
        }
        self.auto_indent = auto_indent;
        proof {
            use_type_invariant(&*self);
        }
        assert(self@.names =~= old(self)@.names);
    }

    /// Changes the indentation by `value` spaces, keeping it between 0 and 20.
    pub fn change_indent(&mut self, value: i32)
        ensures
            old(self)@.valid(),
            final(self)@.valid(),
            final(self)@ == old(self)@.change_indent(value as int),
    {
        proof {
            use_type_invariant(&*self);
        }
        let sum = self.indentation.0 as i64 + value as i64;
        let clamped: i64 = if sum > 20 {
            20
        } else if sum < 0 {
            0
        } else {
            sum
        };
        self.set_indent(clamped as usize);
    }

    /// Sets the indentation to `value` spaces; values above 20 are ignored.
    pub fn set_indent(&mut self, value: usize)
        ensures
            old(self)@.valid(),
            final(self)@.valid(),
            final(self)@ == old(self)@.set_indent(value as nat),
    {
        proof {
            use_type_invariant(&*self);
        }
        if value == 0 {
            self.indentation = (0, None);
        } else if value <= 20 {
            self.indentation = (value, Some(make_spaces(value)));
        }
        proof {
            use_type_invariant(&*self);
        }
        assert(self@.names =~= old(self)@.names);
    }

    /// Appends a statement (and the line end) to the body.
    pub fn body_append(&mut self, statement: String)
        ensures
            final(self)@ == old(self)@.body_append(statement@),
            old(self)@.valid(),
            final(self)@.valid(),
    {
        proof {
            use_type_invariant(&*self);
            lemma_apply_whole_steps(self.body_indenter@, statement@);
        }
        let mut text = String::new();
        std::mem::swap(&mut self.body, &mut text);
        if self.auto_indent {
            let mut ind = IndentEngine::new(String::new());
            std::mem::swap(&mut self.body_indenter, &mut ind);
            ind.apply(&mut text, statement.as_str());
            std::mem::swap(&mut self.body_indenter, &mut ind);
        } else if self.indent_enabled && self.indentation.1.is_some() {
            match &self.indentation.1 {
                Some(indent) => text.append(indent.as_str()),
                None => {},
            }
            let t = string_of(trim_vec(&chars_of(statement.as_str())).as_slice());
            text.append(t.as_str());
        } else {
            text.append(statement.as_str());
        }
        match &self.eol {
            Some(eol) => text.append(eol.as_str()),
            None => {},
        }
        std::mem::swap(&mut self.body, &mut text);
        proof {
            use_type_invariant(&*self);
        }
        assert(self@.names =~= old(self)@.names);
        assert(self@.body =~= old(self)@.body_append(statement@).body);
    }

    /// Appends a statement (and the line end) to the postamble.
    pub fn postamble_append(&mut self, statement: String)
        ensures
            final(self)@ == old(self)@.postamble_append(statement@),
            old(self)@.valid(),
            final(self)@.valid(),
    {
        proof {
            use_type_invariant(&*self);
            lemma_apply_whole_steps(self.postamble_indenter@, statement@);
        }
        let mut text = String::new();
        std::mem::swap(&mut self.postamble, &mut text);
        if self.auto_indent {
            let mut ind = IndentEngine::new(String::new());
            std::mem::swap(&mut self.postamble_indenter, &mut ind);
            ind.apply(&mut text, statement.as_str());
            std::mem::swap(&mut self.postamble_indenter, &mut ind);
        } else if self.indent_enabled && self.indentation.1.is_some() {
            match &self.indentation.1 {
                Some(indent) => text.append(indent.as_str()),
                None => {},
            }
            let t = string_of(trim_vec(&chars_of(statement.as_str())).as_slice());
            text.append(t.as_str());
        } else {
            text.append(statement.as_str());
        }
        match &self.eol {
            Some(eol) => text.append(eol.as_str()),
            None => {},
        }
        std::mem::swap(&mut self.postamble, &mut text);
        proof {
            use_type_invariant(&*self);
        }
        assert(self@.names =~= old(self)@.names);
        assert(self@.postamble =~= old(self)@.postamble_append(statement@).postamble);
    }

    /// Appends a statement (and the line end) to the preamble.
    pub fn preamble_append(&mut self, statement: String)
        ensures
            final(self)@ == old(self)@.preamble_append(statement@),
            old(self)@.valid(),
            final(self)@.valid(),
    {
        proof {
            use_type_invariant(&*self);
            lemma_apply_whole_steps(self.preamble_indenter@, statement@);
        }
        let mut text = String::new();
        std::mem::swap(&mut self.preamble, &mut text);
        if self.auto_indent {
            let mut ind = IndentEngine::new(String::new());
            std::mem::swap(&mut self.preamble_indenter, &mut ind);
            ind.apply(&mut text, statement.as_str());
            std::mem::swap(&mut self.preamble_indenter, &mut ind);
        } else if self.indent_enabled && self.indentation.1.is_some() {
            match &self.indentation.1 {
                Some(indent) => text.append(indent.as_str()),
                None => {},
            }
            let t = string_of(trim_vec(&chars_of(statement.as_str())).as_slice());
            text.append(t.as_str());
        } else {
            text.append(statement.as_str());
        }
        match &self.eol {
            Some(eol) => text.append(eol.as_str()),
            None => {},
        }
        std::mem::swap(&mut self.preamble, &mut text);
        proof {
            use_type_invariant(&*self);
        }
        assert(self@.names =~= old(self)@.names);
        assert(self@.preamble =~= old(self)@.preamble_append(statement@).preamble);
    }

    /// Whether `name` was handed out before.
    fn name_taken(&self, name: &String) -> (r: bool)
        ensures
            r == has_name(self@.names, name@),
    {
        let mut i: usize = 0;
        while i < self.names.len()
            invariant
                i <= self.names.len(),
                self@.names == self.names@.map_values(|s: String| s@),
                forall|t: int| 0 <= t < i ==> self@.names[t] != name@,
            decreases self.names.len() - i,
        {
            assert(self@.names[i as int] == self.names@[i as int]@);
            if self.names[i] == *name {
                return true;
            }
            i = i + 1;
        }
        false
    }

    /// Makes `basename` unique among the names handed out so far (appending
    /// 1, 2, ... as needed) and records the result.
    pub fn get_unique_name(&mut self, basename: String) -> (r: String)
        requires
            old(self)@.names.len() < usize::MAX,
        ensures
            is_unique_choice(old(self)@.names, basename@, r@),
            final(self)@ == (BufferState { names: old(self)@.names.push(r@), ..old(self)@ }),
            old(self)@.valid(),
    {
        proof {
            use_type_invariant(&*self);
        }
        let ghost names = self@.names;
        let mut name = basename.clone();
        let mut copy: usize = 1;
        let ghost mut taken: Set<Seq<char>> = Set::empty();
        while self.name_taken(&name)
            invariant
                self@.names == names,
                names.len() < usize::MAX,
                1 <= copy <= names.len() + 1,
                copy == 1 ==> name@ == basename@,
                copy > 1 ==> name@ == basename@ + decimal((copy - 1) as nat),
                copy > 1 ==> has_name(names, basename@),
                forall|j: nat| 1 <= j < copy - 1 ==> has_name(names, #[trigger] (basename@ + decimal(j))),
                taken.finite(),
                taken.len() == copy - 1,
                taken.subset_of(names.to_set()),
                forall|x: Seq<char>| taken.contains(x) ==> exists|j: nat| 1 <= j < copy && x == #[trigger] candidate(basename@, j),
            decreases names.len() + 1 - copy,
        {
            proof {
                let k = names.len();
                assert(names.to_set().contains(name@)) by {
                    let i = choose|i: int| 0 <= i < names.len() && names[i] == name@;
                    assert(names[i] == name@);
                }
                assert(!taken.contains(name@)) by {
                    if taken.contains(name@) {
                        let j = choose|j: nat| 1 <= j < copy && name@ == #[trigger] candidate(basename@, j);
                        Self::lemma_candidates_distinct(basename@, j, copy as nat);
                    }
                }
                assert(name@ == candidate(basename@, copy as nat));
                taken = taken.insert(name@);
                vstd::set_lib::lemma_len_subset(taken, names.to_set());
                names.lemma_cardinality_of_set();
            }
            let d = decimal_string(copy);
            let mut next = basename.clone();
            next.append(d.as_str());
            name = next;
            copy = copy + 1;
            proof {
                assert forall|x: Seq<char>| taken.contains(x) implies exists|j: nat|
                    1 <= j < copy && x == #[trigger] candidate(basename@, j) by {
                    if x == candidate(basename@, (copy - 1) as nat) {
                        assert(1 <= (copy - 1) as nat);
                    }
                }
            }
        }
        proof {
            if copy > 1 {
                assert(is_unique_choice(names, basename@, name@)) by {
                    let k = (copy - 1) as nat;
                    assert(forall|j: nat| 1 <= j < k ==> has_name(names, #[trigger] (basename@ + decimal(j))));
                }
            }
        }
        let mut all = Vec::new();
        std::mem::swap(&mut self.names, &mut all);
        all.push(name.clone());
        std::mem::swap(&mut self.names, &mut all);
        assert(self@.names =~= names.push(name@));
        name
    }

    proof fn lemma_candidates_distinct(base: Seq<char>, j: nat, copy: nat)
        requires
            1 <= j < copy,
        ensures
            candidate(base, j) != candidate(base, copy),
    {
        crate::text::lemma_decimal_nonempty((copy - 1) as nat);
        if j == 1 {
            assert((base + decimal((copy - 1) as nat)).len() > base.len());
        } else {
            let a = base + decimal((j - 1) as nat);
            let b = base + decimal((copy - 1) as nat);
            if a == b {
                assert(a.skip(base.len() as int) =~= decimal((j - 1) as nat));
                assert(b.skip(base.len() as int) =~= decimal((copy - 1) as nat));
                lemma_decimal_injective((j - 1) as nat, (copy - 1) as nat);
            }
        }
    }

    /// The whole script: preamble, then body, then postamble.
    pub fn to_string(&self) -> (r: String)
        ensures
            r@ == self@.script(),
    {
        let mut script = String::new();
        script.append(self.preamble.as_str());
        script.append(self.body.as_str());
        script.append(self.postamble.as_str());
        script
    }
}

} // verus!
