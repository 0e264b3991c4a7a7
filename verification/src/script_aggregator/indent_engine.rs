//! Automatic indentation of Lua statements.
use vstd::prelude::*;

use crate::text::{
    byte_len, byte_offset, chars_of, char_is_alphanumeric, contains_char, contains_char_vec,
    contains_seq, contains_vec, find_seq, find_vec, head_vec, is_alphanumeric, is_ascii_seq,
    matches_at, occurs_at,
    lemma_byte_len_ascii, lemma_byte_len_concat, lemma_byte_len_take_succ, nth_char, string_of,
    trim, trim_vec,
};

verus! {

/// The state of an [`IndentEngine`].
pub struct IndenterState {
    /// Indentation written before the current statement.
    pub indent: Seq<char>,
    /// Indentation for the statement after the current one.
    pub next_indent: Seq<char>,
    /// One indentation step.
    pub step: Seq<char>,
    /// Number of characters of one step (kept as a 16-bit count).
    pub step_size: u16,
    /// Inside a `--[[ ... ]]` comment.
    pub multi_line_comment: bool,
}

pub open spec fn kw_ml_open() -> Seq<char> {
    seq!['-', '-', '[', '[']
}

pub open spec fn kw_ml_close() -> Seq<char> {
    seq![']', ']']
}

pub open spec fn kw_comment() -> Seq<char> {
    seq!['-', '-']
}

pub open spec fn kw_do() -> Seq<char> {
    seq!['d', 'o']
}

pub open spec fn kw_end() -> Seq<char> {
    seq!['e', 'n', 'd']
}

pub open spec fn kw_repeat() -> Seq<char> {
    seq!['r', 'e', 'p', 'e', 'a', 't']
}

pub open spec fn kw_then() -> Seq<char> {
    seq!['t', 'h', 'e', 'n']
}

pub open spec fn kw_until() -> Seq<char> {
    seq!['u', 'n', 't', 'i', 'l']
}

pub open spec fn kw_else() -> Seq<char> {
    seq!['e', 'l', 's', 'e']
}

pub open spec fn kw_elseif() -> Seq<char> {
    seq!['e', 'l', 's', 'e', 'i', 'f']
}

pub open spec fn kw_function() -> Seq<char> {
    seq!['f', 'u', 'n', 'c', 't', 'i', 'o', 'n']
}

/// The `k`-th character of `s` is alphanumeric (false when there is none).
pub open spec fn alnum_at(s: Seq<char>, k: int) -> bool {
    match nth_char(s, k) {
        Some(c) => char_is_alphanumeric(c),
        None => false,
    }
}

/// `kw` occurs in `stmt` at character position `i` with no alphanumeric
/// character right before it or right after it.
pub open spec fn stands_alone_at(stmt: Seq<char>, kw: Seq<char>, i: int) -> bool {
    occurs_at(stmt, kw, i) && !alnum_at(stmt, i - 1) && !alnum_at(stmt, i + kw.len())
}

/// Whether `kw` occurs somewhere in `stmt` as a standalone word, not as part
/// of a larger alphanumeric word.
pub open spec fn keyword_found(stmt: Seq<char>, kw: Seq<char>) -> bool {
    exists|i: int| #[trigger] stands_alone_at(stmt, kw, i)
}

/// The statement with a trailing `--` comment removed.
pub open spec fn strip_comment(stmt: Seq<char>) -> Seq<char> {
    match find_seq(stmt, kw_comment()) {
        Some(i) => stmt.take(i),
        None => stmt,
    }
}

/// `s` with its first `n` UTF-8 bytes removed (`n` must end on a character).
pub open spec fn drop_bytes(s: Seq<char>, n: int) -> Seq<char> {
    s.skip(choose|k: int| 0 <= k <= s.len() && byte_len(s.take(k)) == n)
}

/// Byte position `n` falls between two characters of `s`.
pub open spec fn is_cut(s: Seq<char>, n: int) -> bool {
    exists|k: int| 0 <= k <= s.len() && byte_len(s.take(k)) == n
}

/// `k` copies of `step`, one after another.
pub open spec fn repeat_step(step: Seq<char>, k: nat) -> Seq<char>
    decreases k,
{
    if k == 0 {
        Seq::empty()
    } else {
        repeat_step(step, (k - 1) as nat) + step
    }
}

impl IndenterState {
    /// The step is ASCII and `step_size` characters long, and both indents are
    /// whole numbers of steps.
    pub open spec fn whole_steps(self) -> bool {
        &&& is_ascii_seq(self.step)
        &&& self.step.len() == self.step_size
        &&& exists|k: nat| self.indent == #[trigger] repeat_step(self.step, k)
        &&& exists|k: nat| self.next_indent == #[trigger] repeat_step(self.step, k)
    }

    pub open spec fn multi_after(self, stmt: Seq<char>) -> bool {
        let m1 = if contains_seq(stmt, kw_ml_open()) {
            true
        } else {
            self.multi_line_comment
        };
        if m1 && contains_seq(stmt, kw_ml_close()) {
            false
        } else {
            m1
        }
    }

    pub open spec fn is_complete(t: Seq<char>) -> bool {
        (keyword_found(t, kw_then()) && keyword_found(t, kw_end())) || (keyword_found(t, kw_do())
            && keyword_found(t, kw_end())) || (keyword_found(t, kw_repeat()) && keyword_found(
            t,
            kw_until(),
        ))
    }

    pub open spec fn decreases_indent(t: Seq<char>) -> bool {
        keyword_found(t, kw_end()) || keyword_found(t, kw_else()) || keyword_found(t, kw_elseif())
            || keyword_found(t, kw_until()) || (contains_char(t, '}') && !contains_char(t, '{'))
    }

    pub open spec fn increases_indent(t: Seq<char>) -> bool {
        keyword_found(t, kw_function()) || keyword_found(t, kw_do()) || keyword_found(
            t,
            kw_repeat(),
        ) || keyword_found(t, kw_else()) || keyword_found(t, kw_elseif()) || keyword_found(
            t,
            kw_then(),
        ) || (contains_char(t, '{') && !contains_char(t, '}'))
    }

    /// The indent is cut by one step before this statement.
    pub open spec fn cuts_indent(self, stmt: Seq<char>) -> bool {
        let t = strip_comment(stmt);
        !self.multi_after(stmt) && !Self::is_complete(t) && Self::decreases_indent(t) && byte_len(
            self.indent,
        ) >= self.step_size
    }

    /// Cutting the indent by one step never splits a character.
    pub open spec fn slice_safe(self, stmt: Seq<char>) -> bool {
        self.cuts_indent(stmt) ==> is_cut(self.indent, self.step_size as int)
    }

    /// The state after `pre_process(stmt)`.
    pub open spec fn pre_process(self, stmt: Seq<char>) -> IndenterState {
        let m = self.multi_after(stmt);
        let t = strip_comment(stmt);
        if m || Self::is_complete(t) {
            IndenterState { multi_line_comment: m, ..self }
        } else {
            let indent = if self.cuts_indent(stmt) {
                drop_bytes(self.indent, self.step_size as int)
            } else {
                self.indent
            };
            let next = if Self::increases_indent(t) {
                indent + self.step
            } else {
                indent
            };
            IndenterState { indent: indent, next_indent: next, multi_line_comment: m, ..self }
        }
    }

    /// The state after `post_process()`.
    pub open spec fn post_process(self) -> IndenterState {
        IndenterState { indent: self.next_indent, ..self }
    }

    /// The state after `apply(buffer, stmt)`.
    pub open spec fn apply_state(self, stmt: Seq<char>) -> IndenterState {
        self.pre_process(trim(stmt)).post_process()
    }

    /// The text that `apply(buffer, stmt)` appends to the buffer.
    pub open spec fn apply_text(self, stmt: Seq<char>) -> Seq<char> {
        self.pre_process(trim(stmt)).indent + trim(stmt)
    }

    /// Both indents and the step are ASCII.
    pub open spec fn ascii(self) -> bool {
        is_ascii_seq(self.indent) && is_ascii_seq(self.next_indent) && is_ascii_seq(self.step)
    }
}

/// A complete statement (`if ... then ... end`, `for ... do ... end`,
/// `repeat ... until`) leaves the indentation as it was, and so does any
/// statement inside a multi-line comment.
pub proof fn lemma_complete_statement_keeps_indent(st: IndenterState, stmt: Seq<char>)
    requires
        st.indent == st.next_indent,
        IndenterState::is_complete(strip_comment(trim(stmt))) || st.multi_after(trim(stmt)),
    ensures
        st.apply_state(stmt).indent == st.indent,
        st.apply_state(stmt).next_indent == st.indent,
{
}

/// No block is closed or completed on the statement: it holds neither `end`
/// nor `until` as a standalone word.
pub open spec fn closes_nothing(t: Seq<char>) -> bool {
    !keyword_found(t, kw_end()) && !keyword_found(t, kw_until())
}

/// A statement that opens a block (it holds one of `function`, `do`,
/// `repeat`, `then`, `else`, `elseif` as a standalone word outside comments,
/// or opens a brace it does not close) and holds neither `end` nor `until` indents the statements after it by
/// one more step than itself.
pub proof fn lemma_opener_indents_next(st: IndenterState, stmt: Seq<char>)
    requires
        !st.multi_after(trim(stmt)),
        closes_nothing(strip_comment(trim(stmt))),
        ({
            let t = strip_comment(trim(stmt));
            ||| keyword_found(t, kw_repeat())
            ||| keyword_found(t, kw_do())
            ||| keyword_found(t, kw_then())
            ||| keyword_found(t, kw_function())
            ||| keyword_found(t, kw_else())
            ||| keyword_found(t, kw_elseif())
            ||| (contains_char(t, '{') && !contains_char(t, '}'))
        }),
    ensures
        st.apply_state(stmt).indent == st.pre_process(trim(stmt)).indent + st.step,
{
}

/// A statement that closes a block (it holds one of `end`, `until`, `else`,
/// `elseif` as a standalone word outside comments, or closes a brace it does
/// not open) without opening and
/// closing one on the same line is written one step further left, when the
/// indentation has a step to give.
pub proof fn lemma_closer_unindents(st: IndenterState, stmt: Seq<char>)
    requires
        !st.multi_after(trim(stmt)),
        byte_len(st.indent) >= st.step_size,
        ({
            let t = strip_comment(trim(stmt));
            &&& !(keyword_found(t, kw_then()) && keyword_found(t, kw_end()))
            &&& !(keyword_found(t, kw_do()) && keyword_found(t, kw_end()))
            &&& !(keyword_found(t, kw_repeat()) && keyword_found(t, kw_until()))
            &&& (keyword_found(t, kw_end()) || keyword_found(t, kw_until()) || keyword_found(
                t,
                kw_else(),
            ) || keyword_found(t, kw_elseif()) || (contains_char(t, '}') && !contains_char(t, '{')))
        }),
    ensures
        st.pre_process(trim(stmt)).indent == drop_bytes(st.indent, st.step_size as int),
{
}

/// A statement that neither opens nor closes a block (none of the keywords
/// as a standalone word outside comments, and no unbalanced brace) leaves the
/// indentation as it was: it is written with the indent it was given and the
/// next statement gets the same.
pub proof fn lemma_plain_statement_keeps_indent(st: IndenterState, stmt: Seq<char>)
    requires
        !st.multi_after(trim(stmt)),
        ({
            let t = strip_comment(trim(stmt));
            &&& !keyword_found(t, kw_end())
            &&& !keyword_found(t, kw_until())
            &&& !keyword_found(t, kw_else())
            &&& !keyword_found(t, kw_elseif())
            &&& !keyword_found(t, kw_repeat())
            &&& !keyword_found(t, kw_do())
            &&& !keyword_found(t, kw_then())
            &&& !keyword_found(t, kw_function())
            &&& !contains_char(t, '{')
            &&& !contains_char(t, '}')
        }),
    ensures
        st.pre_process(trim(stmt)).indent == st.indent,
        st.apply_state(stmt).indent == st.indent,
{
}

/// Tracks the indentation of Lua statements as they are appended.
#[derive(Debug)]
pub struct IndentEngine {
    indent: String,
    next_indent: String,
    step: String,
    step_size: u16,
    is_multi_line_comment: bool,
}

impl View for IndentEngine {
    type V = IndenterState;

    closed spec fn view(&self) -> IndenterState {
        IndenterState {
            indent: self.indent@,
            next_indent: self.next_indent@,
            step: self.step@,
            step_size: self.step_size,
            multi_line_comment: self.is_multi_line_comment,
        }
    }
}

/// Byte length of a prefix grows strictly with the prefix.
pub proof fn lemma_byte_len_take_strict(s: Seq<char>, a: int, b: int)
    requires
        0 <= a < b <= s.len(),
    ensures
        byte_len(s.take(a)) < byte_len(s.take(b)),
    decreases b - a,
{
    lemma_byte_len_take_succ(s, b - 1);
    if a < b - 1 {
        lemma_byte_len_take_strict(s, a, b - 1);
    }
}

/// In an ASCII sequence every byte position up to its length is a cut.
pub proof fn lemma_ascii_cut(s: Seq<char>, n: int)
    requires
        is_ascii_seq(s),
        0 <= n <= s.len(),
    ensures
        is_cut(s, n),
        drop_bytes(s, n) == s.skip(n),
{
    assert(is_ascii_seq(s.take(n)));
    lemma_byte_len_ascii(s.take(n));
    let k = choose|k: int| 0 <= k <= s.len() && byte_len(s.take(k)) == n;
    if k < n {
        lemma_byte_len_take_strict(s, k, n);
    } else if k > n {
        lemma_byte_len_take_strict(s, n, k);
    }
}

proof fn lemma_ascii_concat(a: Seq<char>, b: Seq<char>)
    requires
        is_ascii_seq(a),
        is_ascii_seq(b),
    ensures
        is_ascii_seq(a + b),
{
    assert forall|i: int| 0 <= i < (a + b).len() implies ((a + b)[i] as u32) < 0x80 by {
        if i < a.len() {
            assert((a + b)[i] == a[i]);
        } else {
            assert((a + b)[i] == b[i - a.len()]);
        }
    }
}

/// `k` copies of the step start with the step.
pub proof fn lemma_repeat_step_front(step: Seq<char>, k: nat)
    requires
        k >= 1,
    ensures
        repeat_step(step, k) == step + repeat_step(step, (k - 1) as nat),
    decreases k,
{
    if k == 1 {
        assert(repeat_step(step, 0) == Seq::<char>::empty());
        assert(repeat_step(step, 1) =~= step + repeat_step(step, 0));
    } else {
        lemma_repeat_step_front(step, (k - 1) as nat);
        assert(repeat_step(step, k) =~= step + repeat_step(step, (k - 1) as nat));
    }
}

/// Copies of an ASCII step are ASCII.
pub proof fn lemma_repeat_step_ascii(step: Seq<char>, k: nat)
    requires
        is_ascii_seq(step),
    ensures
        is_ascii_seq(repeat_step(step, k)),
    decreases k,
{
    if k > 0 {
        lemma_repeat_step_ascii(step, (k - 1) as nat);
        lemma_ascii_concat(repeat_step(step, (k - 1) as nat), step);
    }
}

/// An indenter whose indents are whole steps is ASCII.
pub proof fn lemma_whole_steps_ascii(st: IndenterState)
    requires
        st.whole_steps(),
    ensures
        st.ascii(),
{
    let a = choose|k: nat| st.indent == #[trigger] repeat_step(st.step, k);
    let b = choose|k: nat| st.next_indent == #[trigger] repeat_step(st.step, k);
    lemma_repeat_step_ascii(st.step, a);
    lemma_repeat_step_ascii(st.step, b);
}

/// Appending a statement to an indenter whose indents are whole steps adds a
/// whole number of steps before the trimmed statement, and leaves the indents
/// whole steps.
pub proof fn lemma_apply_whole_steps(st: IndenterState, stmt: Seq<char>)
    requires
        st.whole_steps(),
    ensures
        st.slice_safe(trim(stmt)),
        st.apply_state(stmt).whole_steps(),
        st.apply_state(stmt).step == st.step,
        exists|k: nat| st.apply_text(stmt) == #[trigger] repeat_step(st.step, k) + trim(stmt),
{
    let t = trim(stmt);
    lemma_whole_steps_ascii(st);
    lemma_pre_process_ascii(st, t);
    let p = st.pre_process(t);
    let a = choose|k: nat| st.indent == #[trigger] repeat_step(st.step, k);
    let b = choose|k: nat| st.next_indent == #[trigger] repeat_step(st.step, k);
    let m = st.multi_after(t);
    let c = strip_comment(t);
    if m || IndenterState::is_complete(c) {
        assert(p.indent == repeat_step(st.step, a));
        assert(p.next_indent == repeat_step(st.step, b));
        assert(p.whole_steps());
    } else {
        let mut i: nat = a;
        if st.cuts_indent(t) {
            lemma_byte_len_ascii(st.indent);
            lemma_repeat_step_ascii(st.step, a);
            if st.step.len() == 0 {
                assert(st.indent.skip(0) =~= st.indent);
            } else {
                if a == 0 {
                    assert(st.indent.len() == 0);
                    assert(false);
                }
                lemma_repeat_step_front(st.step, a);
                assert(st.indent.skip(st.step.len() as int) =~= repeat_step(st.step, (a - 1) as nat));
                i = (a - 1) as nat;
            }
            lemma_ascii_cut(st.indent, st.step_size as int);
        }
        assert(p.indent == repeat_step(st.step, i));
        if IndenterState::increases_indent(c) {
            assert(p.next_indent == repeat_step(st.step, i + 1));
        } else {
            assert(p.next_indent == repeat_step(st.step, i));
        }
        assert(p.whole_steps());
    }
    let q = p.post_process();
    let ni = choose|k: nat| p.next_indent == #[trigger] repeat_step(st.step, k);
    assert(q.indent == repeat_step(st.step, ni));
    assert(q.whole_steps());
    let pi = choose|k: nat| p.indent == #[trigger] repeat_step(st.step, k);
    assert(st.apply_text(stmt) == repeat_step(st.step, pi) + trim(stmt));
}

/// Keeps the indenter's text ASCII when its step is ASCII.
pub proof fn lemma_pre_process_ascii(st: IndenterState, stmt: Seq<char>)
    requires
        st.ascii(),
    ensures
        st.slice_safe(stmt),
        st.pre_process(stmt).ascii(),
        st.pre_process(stmt).post_process().ascii(),
        st.pre_process(stmt).step == st.step,
        st.pre_process(stmt).step_size == st.step_size,
{
    lemma_byte_len_ascii(st.indent);
    if st.cuts_indent(stmt) {
        lemma_ascii_cut(st.indent, st.step_size as int);
        let d = st.indent.skip(st.step_size as int);
        assert(is_ascii_seq(d));
        lemma_ascii_concat(d, st.step);
    } else {
        lemma_ascii_concat(st.indent, st.step);
    }
}

impl IndentEngine {
    /// A new engine that indents by `step`.
    pub fn new(step: String) -> (r: Self)
        ensures
            r@ == (IndenterState {
                indent: Seq::empty(),
                next_indent: Seq::empty(),
                step: step@,
                step_size: step@.len() as u16,
                multi_line_comment: false,
            }),
            is_ascii_seq(step@) && step@.len() < 65536 ==> r@.whole_steps(),
    {
        let n = chars_of(step.as_str()).len();
        let r = IndentEngine {
            indent: String::new(),
            next_indent: String::new(),
            step,
            step_size: n as u16,
            is_multi_line_comment: false,
        };
        proof {
            assert(r@.indent == repeat_step(r@.step, 0));
            assert(r@.next_indent == repeat_step(r@.step, 0));
        }
        r
    }

    /// Applies the indentation logic to `statement` and appends the indent and
    /// the trimmed statement to `buffer`.
    pub fn apply(&mut self, buffer: &mut String, statement: &str)
        requires
            old(self)@.slice_safe(trim(statement@)),
        ensures
            final(self)@ == old(self)@.apply_state(statement@),
            final(buffer)@ == old(buffer)@ + old(self)@.apply_text(statement@),
            old(self)@.whole_steps() ==> final(self)@.whole_steps(),
            old(self)@.whole_steps() ==> exists|k: nat|
                final(buffer)@ == old(buffer)@ + #[trigger] repeat_step(old(self)@.step, k) + trim(statement@),
    {
        proof {
            if self@.whole_steps() {
                lemma_apply_whole_steps(self@, statement@);
                let k = choose|k: nat| self@.apply_text(statement@) == #[trigger] repeat_step(self@.step, k) + trim(statement@);
                assert(old(buffer)@ + self@.apply_text(statement@) =~= old(buffer)@ + repeat_step(self@.step, k) + trim(statement@));
            }
        }
        let trimmed = trim_vec(&chars_of(statement));
        self.pre_process_chars(&trimmed);
        buffer.append(self.indent.as_str());
        let t = string_of(trimmed.as_slice());
        buffer.append(t.as_str());
        self.post_process();
    }

    /// Processes a statement before it is added to the output and updates the
    /// indentation accordingly.
    pub fn pre_process(&mut self, statement: &str)
        requires
            old(self)@.slice_safe(statement@),
        ensures
            final(self)@ == old(self)@.pre_process(statement@),
    {
        let v = chars_of(statement);
        self.pre_process_chars(&v);
    }

    fn pre_process_chars(&mut self, statement: &Vec<char>)
        requires
            old(self)@.slice_safe(statement@),
        ensures
            final(self)@ == old(self)@.pre_process(statement@),
    {
        let ghost st = self@;
        let ghost s = statement@;
        if contains_vec(statement, &vec!['-', '-', '[', '[']) {
            self.is_multi_line_comment = true;
        }
        if self.is_multi_line_comment && contains_vec(statement, &vec![']', ']']) {
            self.is_multi_line_comment = false;
        }
        assert(self.is_multi_line_comment == st.multi_after(s));
        if !self.is_multi_line_comment {
            let trimmed = match find_vec(statement, &vec!['-', '-']) {
                Some(index) => head_vec(statement, index),
                None => head_vec(statement, statement.len()),
            };
            assert(trimmed@ == strip_comment(s)) by {
                assert(statement@.take(statement.len() as int) =~= statement@);
            }
            let has_do = Self::find(&trimmed, &vec!['d', 'o']);
            let has_end = Self::find(&trimmed, &vec!['e', 'n', 'd']);
            let has_repeat = Self::find(&trimmed, &vec!['r', 'e', 'p', 'e', 'a', 't']);
            let has_then = Self::find(&trimmed, &vec!['t', 'h', 'e', 'n']);
            let has_until = Self::find(&trimmed, &vec!['u', 'n', 't', 'i', 'l']);
            let mut complete = has_then && has_end;
            complete = complete || (has_do && has_end);
            complete = complete || (has_repeat && has_until);
            if !complete {
                let has_else = Self::find(&trimmed, &vec!['e', 'l', 's', 'e']);
                let has_else_if = Self::find(&trimmed, &vec!['e', 'l', 's', 'e', 'i', 'f']);
                let decrease = has_end || has_else || has_else_if || has_until || (
                contains_char_vec(&trimmed, '}') && !contains_char_vec(&trimmed, '{'));
                let indent_chars = chars_of(self.indent.as_str());
                let indent_bytes = byte_offset(&indent_chars, indent_chars.len());
                assert(indent_chars@.take(indent_chars.len() as int) =~= indent_chars@);
                if decrease && indent_bytes >= self.step_size as u128 {
                    let rest = Self::drop_leading_bytes(&indent_chars, self.step_size);
                    self.indent = string_of(rest.as_slice());
                }
                self.next_indent = self.indent.clone();
                let increase = Self::find(
                    &trimmed,
                    &vec!['f', 'u', 'n', 'c', 't', 'i', 'o', 'n'],
                ) || has_do || has_repeat || has_else || has_else_if || has_then || (
                contains_char_vec(&trimmed, '{') && !contains_char_vec(&trimmed, '}'));
                if increase {
                    let mut next = self.indent.clone();
                    next.append(self.step.as_str());
                    self.next_indent = next;
                }
            }
        }
    }

    /// `s` without the characters making up its first `n` bytes.
    fn drop_leading_bytes(s: &Vec<char>, n: u16) -> (r: Vec<char>)
        requires
            is_cut(s@, n as int),
        ensures
            r@ == drop_bytes(s@, n as int),
    {
        let ghost k0 = choose|k: int| 0 <= k <= s@.len() && byte_len(s@.take(k)) == n;
        let mut k: usize = 0;
        let mut acc: u128 = 0;
        assert(s@.take(0) =~= Seq::<char>::empty());
        while acc < n as u128
            invariant
                0 <= k0 <= s@.len(),
                k0 <= s.len(),
                byte_len(s@.take(k0)) == n,
                k <= k0,
                acc == byte_len(s@.take(k as int)),
            decreases k0 - k,
        {
            proof {
                if k == k0 {
                    assert(false);
                }
                lemma_byte_len_take_succ(s@, k as int);
                if k + 1 < k0 {
                    lemma_byte_len_take_strict(s@, k + 1, k0);
                }
            }
            assert(k < k0);
            acc = acc + crate::text::char_utf8_len(s[k]);
            k = k + 1;
        }
        proof {
            if k < k0 {
                lemma_byte_len_take_strict(s@, k as int, k0);
            }
        }
        crate::text::tail_vec(s, k)
    }

    /// Checks whether `keyword` occurs in `statement` as a standalone word,
    /// that is, at some position not preceded or followed by an alphanumeric
    /// character.
    pub fn find(statement: &Vec<char>, keyword: &Vec<char>) -> (r: bool)
        ensures
            r == keyword_found(statement@, keyword@),
    {
        if keyword.len() > statement.len() {
            assert forall|j: int| !stands_alone_at(statement@, keyword@, j) by {}
            return false;
        }
        let last = statement.len() - keyword.len();
        let mut i: usize = 0;
        loop
            invariant
                i <= last,
                last + keyword.len() == statement.len(),
                forall|j: int| 0 <= j < i ==> !#[trigger] stands_alone_at(statement@, keyword@, j),
            decreases last - i,
        {
            if matches_at(statement, keyword, i) {
                let before = i > 0 && is_alphanumeric(statement[i - 1]);
                let e = i + keyword.len();
                let after = e < statement.len() && is_alphanumeric(statement[e]);
                if !before && !after {
                    assert(stands_alone_at(statement@, keyword@, i as int));
                    return true;
                }
            }
            assert(!stands_alone_at(statement@, keyword@, i as int));
            if i == last {
                assert forall|j: int| !stands_alone_at(statement@, keyword@, j) by {
                    if 0 <= j < i {
                        assert(!stands_alone_at(statement@, keyword@, j));
                    }
                }
                return false;
            }
            i = i + 1;
        }
    }

    /// Adjusts the indentation after a statement has been added to the output.
    pub fn post_process(&mut self)
        ensures
            final(self)@ == old(self)@.post_process(),
    {
        self.indent = self.next_indent.clone();
    }
}

} // verus!
