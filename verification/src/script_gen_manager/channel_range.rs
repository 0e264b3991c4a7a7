//! Reading a range value such as `100 mV`: its number and its metric prefix.
use vstd::prelude::*;

use crate::script_gen_manager::metadata::AUTO_VALUE;
use crate::text::{chars_of, owned, string_of, trim, trim_vec};

verus! {

/// A metric prefix of a range value's unit.
#[derive(Debug, Clone, Copy, PartialEq, Eq, Structural)]
pub enum ScalePrefix {
    Femto,
    Pico,
    Nano,
    Micro,
    Milli,
    Unit,
    Kilo,
    Mega,
}

/// The character is part of a number: an ASCII digit or a point.
pub open spec fn is_number_char(c: char) -> bool {
    ('0' <= c && c <= '9') || c == '.'
}

/// The characters of `s` that are part of a number, in order.
pub open spec fn number_part(s: Seq<char>) -> Seq<char>
    decreases s.len(),
{
    if s.len() == 0 {
        s
    } else if is_number_char(s.last()) {
        number_part(s.drop_last()).push(s.last())
    } else {
        number_part(s.drop_last())
    }
}

/// The other characters of `s`, in order.
pub open spec fn suffix_part(s: Seq<char>) -> Seq<char>
    decreases s.len(),
{
    if s.len() == 0 {
        s
    } else if is_number_char(s.last()) {
        suffix_part(s.drop_last())
    } else {
        suffix_part(s.drop_last()).push(s.last())
    }
}

/// What comes before `unit` at the end of `suffix`; empty when `suffix` is
/// empty or does not end with `unit`.
pub open spec fn prefix_text(suffix: Seq<char>, unit: Seq<char>) -> Seq<char> {
    if suffix.len() == 0 {
        Seq::empty()
    } else if unit.len() <= suffix.len() && suffix.skip(suffix.len() - unit.len()) == unit {
        suffix.take(suffix.len() - unit.len())
    } else {
        Seq::empty()
    }
}

/// The metric prefix a text names, if any: `f`, `p`, `n`, `µ`, `m`, none,
/// `k`, `M`.
pub open spec fn prefix_of(p: Seq<char>) -> Option<ScalePrefix> {
    if p == seq!['f'] {
        Some(ScalePrefix::Femto)
    } else if p == seq!['p'] {
        Some(ScalePrefix::Pico)
    } else if p == seq!['n'] {
        Some(ScalePrefix::Nano)
    } else if p == seq!['\u{00B5}'] {
        Some(ScalePrefix::Micro)
    } else if p == seq!['m'] {
        Some(ScalePrefix::Milli)
    } else if p.len() == 0 {
        Some(ScalePrefix::Unit)
    } else if p == seq!['k'] {
        Some(ScalePrefix::Kilo)
    } else if p == seq!['M'] {
        Some(ScalePrefix::Mega)
    } else {
        None
    }
}

/// The SI symbol of each scale: `f` (1e-15), `p` (1e-12), `n` (1e-9),
/// `µ` (1e-6), `m` (1e-3), none (1), `k` (1e3), `M` (1e6).
pub open spec fn si_symbol(x: ScalePrefix) -> Seq<char> {
    match x {
        ScalePrefix::Femto => seq!['f'],
        ScalePrefix::Pico => seq!['p'],
        ScalePrefix::Nano => seq!['n'],
        ScalePrefix::Micro => seq!['\u{00B5}'],
        ScalePrefix::Milli => seq!['m'],
        ScalePrefix::Unit => Seq::empty(),
        ScalePrefix::Kilo => seq!['k'],
        ScalePrefix::Mega => seq!['M'],
    }
}

/// A prefix text names a scale exactly when it is that scale's SI symbol:
/// every scale is read from its own symbol, and no text is read as a scale
/// whose symbol it is not (so no two symbols give the same scale).
pub proof fn lemma_prefix_is_si_symbol(t: Seq<char>, x: ScalePrefix)
    ensures
        prefix_of(t) == Some(x) <==> t == si_symbol(x),
{
    let s = si_symbol(x);
    if t == s {
        assert(prefix_of(t) == Some(x));
    }
    if prefix_of(t) == Some(x) {
        if t.len() == 1 {
            assert(t =~= seq![t[0]]);
        }
        assert(t =~= s);
    }
}

/// Two prefix texts that name the same scale are the same text.
pub proof fn lemma_prefix_injective(t: Seq<char>, u: Seq<char>)
    requires
        prefix_of(t) is Some,
        prefix_of(t) == prefix_of(u),
    ensures
        t == u,
{
    lemma_prefix_is_si_symbol(t, prefix_of(t).unwrap());
    lemma_prefix_is_si_symbol(u, prefix_of(t).unwrap());
}

/// The number and the prefix of the range value `value` whose unit is
/// `unit`: the number is made of its digits and points, the prefix is what
/// the rest (without surrounding whitespace) has before the unit.  `None`
/// when the prefix is not one of the known ones.
pub open spec fn scale_parts(value: Seq<char>, unit: Seq<char>) -> Option<(Seq<char>, ScalePrefix)> {
    match prefix_of(prefix_text(trim(suffix_part(value)), unit)) {
        Some(p) => Some((number_part(value), p)),
        None => None,
    }
}

/// The prefix before `unit` at the end of `suffix` (see [`prefix_text`]).
pub fn extract_prefix(unit: &str, suffix: &str) -> (r: String)
    ensures
        r@ == prefix_text(suffix@, unit@),
{
    let s = chars_of(suffix);
    let u = chars_of(unit);
    if s.len() == 0 {
        return String::new();
    }
    if u.len() > s.len() {
        return String::new();
    }
    let start = s.len() - u.len();
    let mut i: usize = 0;
    while i < u.len()
        invariant
            i <= u@.len(),
            s@ == suffix@,
            u@ == unit@,
            s@.len() > 0,
            start == s@.len() - u@.len(),
            start + u@.len() == s@.len(),
            forall|j: int| 0 <= j < i ==> s@[start + j] == u@[j],
        decreases u.len() - i,
    {
        assert(s@.len() == s.len());
        let j: usize = start + i;
        if s[j] != u[i] {
            assert(s@.skip(start as int)[i as int] != u@[i as int]);
            return String::new();
        }
        i = i + 1;
    }
    assert(s@.skip(start as int) =~= u@);
    let mut p: Vec<char> = Vec::new();
    let mut k: usize = 0;
    while k < start
        invariant
            k <= start,
            s@ == suffix@,
            start <= s@.len(),
            p@ == s@.take(k as int),
        decreases start - k,
    {
        p.push(s[k]);
        assert(s@.take(k + 1) =~= s@.take(k as int).push(s@[k as int]));
        k = k + 1;
    }
    string_of(p.as_slice())
}

/// The metric prefix `p` names (see [`prefix_of`]).
pub fn prefix_scale(p: &str) -> (r: Option<ScalePrefix>)
    ensures
        r == prefix_of(p@),
{
    let v = chars_of(p);
    if v.len() == 0 {
        return Some(ScalePrefix::Unit);
    }
    if v.len() > 1 {
        return None;
    }
    let c = v[0];
    assert(p@ =~= seq![c]);
    if c == 'f' {
        Some(ScalePrefix::Femto)
    } else if c == 'p' {
        Some(ScalePrefix::Pico)
    } else if c == 'n' {
        Some(ScalePrefix::Nano)
    } else if c == '\u{00B5}' {
        Some(ScalePrefix::Micro)
    } else if c == 'm' {
        Some(ScalePrefix::Milli)
    } else if c == 'k' {
        Some(ScalePrefix::Kilo)
    } else if c == 'M' {
        Some(ScalePrefix::Mega)
    } else {
        None
    }
}

/// The number and the metric prefix of the range value `value` with unit
/// `unit` (see [`scale_parts`]).
pub fn scaled_parts(value: &str, unit: &str) -> (r: Option<(String, ScalePrefix)>)
    ensures
        match (r, scale_parts(value@, unit@)) {
            (Some((n, p)), Some((sn, sp))) => n@ == sn && p == sp,
            (None, None) => true,
            _ => false,
        },
{
    let v = chars_of(value);
    let mut number: Vec<char> = Vec::new();
    let mut suffix: Vec<char> = Vec::new();
    let mut i: usize = 0;
    while i < v.len()
        invariant
            i <= v@.len(),
            number@ == number_part(v@.take(i as int)),
            suffix@ == suffix_part(v@.take(i as int)),
        decreases v.len() - i,
    {
        let c = v[i];
        assert(v@.take(i + 1).drop_last() =~= v@.take(i as int));
        if ('0' <= c && c <= '9') || c == '.' {
            number.push(c);
        } else {
            suffix.push(c);
        }
        i = i + 1;
    }
    assert(v@.take(v.len() as int) =~= v@);
    let trimmed = string_of(trim_vec(&suffix).as_slice());
    let prefix = extract_prefix(unit, trimmed.as_str());
    match prefix_scale(prefix.as_str()) {
        Some(p) => Some((string_of(number.as_slice()), p)),
        None => None,
    }
}

/// The range value that follows the current limit.
pub const RANGE_FOLLOW_LIMITI: &'static str = "FOLLOW LIMITI";

/// The range is chosen automatically.
pub fn is_range_auto(value: &String) -> (r: bool)
    ensures
        r == (value@ == AUTO_VALUE@),
{
    *value == owned(AUTO_VALUE)
}

/// The range follows the current limit.
pub fn is_range_follow_limiti(value: &String) -> (r: bool)
    ensures
        r == (value@ == RANGE_FOLLOW_LIMITI@),
{
    *value == owned(RANGE_FOLLOW_LIMITI)
}

} // verus!
