//! Character-sequence utilities used by the script builders.
//!
//! Strings are modelled by their character sequences (`Seq<char>`).  Where the
//! behaviour of a std string operation depends on UTF-8 byte offsets (for
//! instance `str::find` returns a byte index), the byte length of a character
//! prefix is computed by `byte_len`.
use vstd::prelude::*;

verus! {

/// Number of bytes in the UTF-8 encoding of `c`.
pub open spec fn utf8_len(c: char) -> nat {
    if (c as u32) < 0x80 {
        1
    } else if (c as u32) < 0x800 {
        2
    } else if (c as u32) < 0x10000 {
        3
    } else {
        4
    }
}

/// Number of bytes in the UTF-8 encoding of `s`.
pub open spec fn byte_len(s: Seq<char>) -> nat
    decreases s.len(),
{
    if s.len() == 0 {
        0
    } else {
        byte_len(s.drop_last()) + utf8_len(s.last())
    }
}

/// Every character of `s` is ASCII.
pub open spec fn is_ascii_seq(s: Seq<char>) -> bool {
    forall|i: int| 0 <= i < s.len() ==> (#[trigger] s[i] as u32) < 0x80
}

/// `p` occurs in `s` at character position `i`.
pub open spec fn occurs_at(s: Seq<char>, p: Seq<char>, i: int) -> bool {
    0 <= i && i + p.len() <= s.len() && s.subrange(i, i + p.len()) == p
}

/// The first character position at or after `i` where `p` occurs in `s`.
pub open spec fn find_from(s: Seq<char>, p: Seq<char>, i: int) -> Option<int>
    decreases s.len() + 1 - i,
{
    if i < 0 || i + p.len() > s.len() {
        None
    } else if occurs_at(s, p, i) {
        Some(i)
    } else {
        find_from(s, p, i + 1)
    }
}

/// The first character position where `p` occurs in `s` (as `str::find` does, in characters).
pub open spec fn find_seq(s: Seq<char>, p: Seq<char>) -> Option<int> {
    find_from(s, p, 0)
}

/// `p` occurs somewhere in `s` (as `str::contains`).
pub open spec fn contains_seq(s: Seq<char>, p: Seq<char>) -> bool {
    find_seq(s, p) is Some
}

/// `c` occurs somewhere in `s`.
pub open spec fn contains_char(s: Seq<char>, c: char) -> bool {
    exists|i: int| 0 <= i < s.len() && s[i] == c
}

/// The `k`-th character of `s`, as `s.chars().nth(k)`.
pub open spec fn nth_char(s: Seq<char>, k: int) -> Option<char> {
    if 0 <= k < s.len() {
        Some(s[k])
    } else {
        None
    }
}

/// Unicode `White_Space` characters, as `char::is_whitespace`.
pub open spec fn is_ws(c: char) -> bool {
    let u = c as u32;
    (9 <= u && u <= 13) || u == 32 || u == 0x85 || u == 0xA0 || u == 0x1680 || (0x2000 <= u
        && u <= 0x200A) || u == 0x2028 || u == 0x2029 || u == 0x202F || u == 0x205F || u == 0x3000
}

/// `s` without its leading whitespace (as `str::trim_start`).
pub open spec fn trim_start(s: Seq<char>) -> Seq<char>
    decreases s.len(),
{
    if s.len() > 0 && is_ws(s[0]) {
        trim_start(s.drop_first())
    } else {
        s
    }
}

/// `s` without its trailing whitespace (as `str::trim_end`).
pub open spec fn trim_end(s: Seq<char>) -> Seq<char>
    decreases s.len(),
{
    if s.len() > 0 && is_ws(s.last()) {
        trim_end(s.drop_last())
    } else {
        s
    }
}

/// `s` without leading and trailing whitespace (as `str::trim`).
pub open spec fn trim(s: Seq<char>) -> Seq<char> {
    trim_end(trim_start(s))
}

/// Whether `char::is_alphanumeric` holds of `c` (Unicode `Alphabetic` or `Numeric`).
pub uninterp spec fn char_is_alphanumeric(c: char) -> bool;

/// Calls `char::is_alphanumeric`; for ASCII characters its documentation gives
/// exactly the letters and digits.
#[verifier::external_body]
pub(crate) fn is_alphanumeric(c: char) -> (r: bool)
    ensures
        r == char_is_alphanumeric(c),
        (c as u32) < 0x80 ==> (r <==> (('a' <= c && c <= 'z') || ('A' <= c && c <= 'Z') || ('0'
            <= c && c <= '9'))),
{
    c.is_alphanumeric()
}

pub proof fn lemma_byte_len_take_succ(s: Seq<char>, i: int)
    requires
        0 <= i < s.len(),
    ensures
        byte_len(s.take(i + 1)) == byte_len(s.take(i)) + utf8_len(s[i]),
{
    assert(s.take(i + 1).drop_last() =~= s.take(i));
}

pub proof fn lemma_byte_len_bounds(s: Seq<char>)
    ensures
        s.len() <= byte_len(s) <= 4 * s.len(),
    decreases s.len(),
{
    if s.len() > 0 {
        lemma_byte_len_bounds(s.drop_last());
    }
}

pub proof fn lemma_byte_len_ascii(s: Seq<char>)
    requires
        is_ascii_seq(s),
    ensures
        byte_len(s) == s.len(),
    decreases s.len(),
{
    if s.len() > 0 {
        assert(is_ascii_seq(s.drop_last()));
        lemma_byte_len_ascii(s.drop_last());
        assert((s.last() as u32) < 0x80);
    }
}

pub proof fn lemma_byte_len_concat(a: Seq<char>, b: Seq<char>)
    ensures
        byte_len(a + b) == byte_len(a) + byte_len(b),
    decreases b.len(),
{
    if b.len() == 0 {
        assert(a + b =~= a);
    } else {
        assert((a + b).drop_last() =~= a + b.drop_last());
        lemma_byte_len_concat(a, b.drop_last());
    }
}


/// The decimal digit for `d` (0 to 9).
pub open spec fn digit_char(d: nat) -> char {
    if d == 0 {
        '0'
    } else if d == 1 {
        '1'
    } else if d == 2 {
        '2'
    } else if d == 3 {
        '3'
    } else if d == 4 {
        '4'
    } else if d == 5 {
        '5'
    } else if d == 6 {
        '6'
    } else if d == 7 {
        '7'
    } else if d == 8 {
        '8'
    } else {
        '9'
    }
}

/// The decimal representation of `n` (as integer `Display` writes it).
pub open spec fn decimal(n: nat) -> Seq<char>
    decreases n,
{
    if n < 10 {
        seq![digit_char(n)]
    } else {
        decimal(n / 10).push(digit_char(n % 10))
    }
}

pub proof fn lemma_decimal_nonempty(n: nat)
    ensures
        decimal(n).len() >= 1,
        n >= 10 ==> decimal(n).len() >= 2,
    decreases n,
{
    if n >= 10 {
        lemma_decimal_nonempty(n / 10);
    }
}

proof fn lemma_digit_char_injective(a: nat, b: nat)
    requires
        a < 10,
        b < 10,
        digit_char(a) == digit_char(b),
    ensures
        a == b,
{
}

pub proof fn lemma_decimal_injective(a: nat, b: nat)
    requires
        decimal(a) == decimal(b),
    ensures
        a == b,
    decreases a,
{
    lemma_decimal_nonempty(a);
    lemma_decimal_nonempty(b);
    if a < 10 && b < 10 {
        assert(decimal(a) == seq![digit_char(a)]);
        assert(decimal(b) == seq![digit_char(b)]);
        assert(digit_char(a) == decimal(a)[0]);
        assert(digit_char(b) == decimal(b)[0]);
        lemma_digit_char_injective(a, b);
    } else if a < 10 || b < 10 {
        assert(decimal(a).len() != decimal(b).len());
    } else {
        let da = decimal(a);
        let db = decimal(b);
        assert(da.last() == db.last());
        lemma_digit_char_injective(a % 10, b % 10);
        assert(da.drop_last() =~= decimal(a / 10));
        assert(db.drop_last() =~= decimal(b / 10));
        lemma_decimal_injective(a / 10, b / 10);
    }
}

fn digit(d: usize) -> (c: char)
    requires
        d < 10,
    ensures
        c == digit_char(d as nat),
{
    if d == 0 {
        '0'
    } else if d == 1 {
        '1'
    } else if d == 2 {
        '2'
    } else if d == 3 {
        '3'
    } else if d == 4 {
        '4'
    } else if d == 5 {
        '5'
    } else if d == 6 {
        '6'
    } else if d == 7 {
        '7'
    } else if d == 8 {
        '8'
    } else {
        '9'
    }
}

/// The decimal digits of `n`.
pub fn decimal_chars(n: usize) -> (r: Vec<char>)
    ensures
        r@ == decimal(n as nat),
    decreases n,
{
    if n < 10 {
        let mut v = Vec::new();
        v.push(digit(n));
        v
    } else {
        let mut v = decimal_chars(n / 10);
        v.push(digit(n % 10));
        v
    }
}

/// `n` written in decimal.
pub fn decimal_string(n: usize) -> (r: String)
    ensures
        r@ == decimal(n as nat),
{
    string_of(decimal_chars(n).as_slice())
}


/// `s` with every `p` replaced by `r`, as `str::replace` does: matches are
/// taken left to right without overlap, and an empty `p` matches before every
/// character and at the end.
pub open spec fn replace_seq(s: Seq<char>, p: Seq<char>, r: Seq<char>) -> Seq<char>
    decreases s.len(),
{
    if p.len() == 0 {
        if s.len() == 0 {
            r
        } else {
            r + seq![s[0]] + replace_seq(s.drop_first(), p, r)
        }
    } else {
        match find_seq(s, p) {
            None => s,
            Some(i) => {
                if 0 <= i && i + p.len() <= s.len() {
                    s.take(i) + r + replace_seq(s.skip(i + p.len()), p, r)
                } else {
                    s
                }
            },
        }
    }
}

/// The pieces of `s` between occurrences of `c`, as `str::split(c)`.
pub open spec fn split_char(s: Seq<char>, c: char) -> Seq<Seq<char>>
    decreases s.len(),
{
    match find_seq(s, seq![c]) {
        None => seq![s],
        Some(i) => {
            if 0 <= i < s.len() {
                seq![s.take(i)] + split_char(s.skip(i + 1), c)
            } else {
                seq![s]
            }
        },
    }
}

/// `line` without one trailing carriage return.
pub open spec fn strip_cr(line: Seq<char>) -> Seq<char> {
    if line.len() > 0 && line.last() == '\r' {
        line.drop_last()
    } else {
        line
    }
}

/// The lines of `s`, as `BufRead::lines` yields them: split at `'\n'`, a `'\r'`
/// before the `'\n'` removed, and no empty line after a final `'\n'`.
pub open spec fn lines_of(s: Seq<char>) -> Seq<Seq<char>>
    decreases s.len(),
{
    if s.len() == 0 {
        Seq::empty()
    } else {
        match find_seq(s, seq!['\n']) {
            None => seq![s],
            Some(i) => {
                if 0 <= i < s.len() {
                    seq![strip_cr(s.take(i))] + lines_of(s.skip(i + 1))
                } else {
                    seq![s]
                }
            },
        }
    }
}

/// Searching from `i` is searching the suffix from `i`.
pub proof fn lemma_find_from_shift(s: Seq<char>, p: Seq<char>, i: int, j: int)
    requires
        0 <= i <= j,
        i <= s.len(),
    ensures
        find_from(s, p, j) == (match find_from(s.skip(i), p, j - i) {
            Some(k) => Some(k + i),
            None => None,
        }),
    decreases s.len() + 1 - j,
{
    let t = s.skip(i);
    assert(t.len() == s.len() - i);
    if j + p.len() > s.len() {
        assert(find_from(s, p, j) is None);
        assert(find_from(t, p, j - i) is None);
    } else {
        assert(t.subrange(j - i, j - i + p.len()) =~= s.subrange(j, j + p.len()));
        assert(occurs_at(s, p, j) == occurs_at(t, p, j - i));
        if occurs_at(s, p, j) {
            assert(find_from(s, p, j) == Some(j));
            assert(find_from(t, p, j - i) == Some(j - i));
        } else {
            lemma_find_from_shift(s, p, i, j + 1);
            assert(find_from(s, p, j) == find_from(s, p, j + 1));
            assert(find_from(t, p, j - i) == find_from(t, p, j - i + 1));
        }
    }
}

/// `s` with every `p` replaced by `r`.
pub fn replace_vec(s: &Vec<char>, p: &Vec<char>, r: &Vec<char>) -> (out: Vec<char>)
    ensures
        out@ == replace_seq(s@, p@, r@),
{
    let mut out: Vec<char> = Vec::new();
    if p.len() == 0 {
        let mut k: usize = 0;
        assert(s@.skip(0) =~= s@);
        while k < s.len()
            invariant
                k <= s.len(),
                p@.len() == 0,
                out@ + replace_seq(s@.skip(k as int), p@, r@) == replace_seq(s@, p@, r@),
            decreases s.len() - k,
        {
            proof {
                let t = s@.skip(k as int);
                assert(t.drop_first() =~= s@.skip(k + 1));
                assert(t[0] == s@[k as int]);
                assert(replace_seq(t, p@, r@) == r@ + seq![t[0]] + replace_seq(t.drop_first(), p@, r@));
            }
            extend_vec(&mut out, r);
            out.push(s[k]);
            k = k + 1;
            proof {
                assert(out@ + replace_seq(s@.skip(k as int), p@, r@) =~= replace_seq(s@, p@, r@));
            }
        }
        extend_vec(&mut out, r);
        proof {
            assert(s@.skip(s.len() as int) =~= Seq::<char>::empty());
        }
        assert(out@ =~= replace_seq(s@, p@, r@));
        return out;
    }
    let mut pos: usize = 0;
    assert(s@.skip(0) =~= s@);
    loop
        invariant
            pos <= s.len(),
            p@.len() > 0,
            out@ + replace_seq(s@.skip(pos as int), p@, r@) == replace_seq(s@, p@, r@),
        decreases s.len() - pos,
    {
        let found = find_from_vec(s, p, pos);
        proof {
            lemma_find_from_shift(s@, p@, pos as int, pos as int);
            assert(s@.skip(pos as int).skip(0) =~= s@.skip(pos as int));
        }
        match found {
            None => {
                let rest = tail_vec(s, pos);
                extend_vec(&mut out, &rest);
                return out;
            },
            Some(i) => {
                let ghost t = s@.skip(pos as int);
                let mid = crate::text::slice_vec(s, pos, i);
                extend_vec(&mut out, &mid);
                extend_vec(&mut out, r);
                proof {
                    let k = (i - pos) as int;
                    assert(find_seq(t, p@) == Some(k));
                    crate::text::lemma_find_from_found(s@, p@, pos as int);
                    assert(t.take(k) =~= s@.subrange(pos as int, i as int));
                    assert(t.skip(k + p@.len()) =~= s@.skip(i + p@.len()));
                }
                pos = i + p.len();
                proof {
                    assert(out@ + replace_seq(s@.skip(pos as int), p@, r@) =~= replace_seq(s@, p@, r@));
                }
            },
        }
    }
}

/// `s` with every `from` replaced by `to` (as `str::replace`).
pub fn replace_string(s: &String, from: &String, to: &String) -> (r: String)
    ensures
        r@ == replace_seq(s@, from@, to@),
{
    let out = replace_vec(&chars_of(s.as_str()), &chars_of(from.as_str()), &chars_of(to.as_str()));
    string_of(out.as_slice())
}

/// Characters of `s` from `from` up to `to`.
pub fn slice_vec(s: &Vec<char>, from: usize, to: usize) -> (r: Vec<char>)
    requires
        from <= to <= s.len(),
    ensures
        r@ == s@.subrange(from as int, to as int),
{
    let mut r: Vec<char> = Vec::new();
    let mut k = from;
    while k < to
        invariant
            from <= k <= to <= s.len(),
            r@ == s@.subrange(from as int, k as int),
        decreases to - k,
    {
        r.push(s[k]);
        k = k + 1;
    }
    r
}

/// The pieces of `s` between occurrences of `c`.
pub fn split_char_vec(s: &Vec<char>, c: char) -> (r: Vec<Vec<char>>)
    ensures
        r@.len() == split_char(s@, c).len(),
        forall|i: int| 0 <= i < r@.len() ==> (#[trigger] r@[i])@ == split_char(s@, c)[i],
{
    let mut r: Vec<Vec<char>> = Vec::new();
    let mut pos: usize = 0;
    let sep = vec![c];
    let ghost mut done: Seq<Seq<char>> = Seq::empty();
    assert(s@.skip(0) =~= s@);
    loop
        invariant
            pos <= s.len(),
            sep@ == seq![c],
            r@.len() == done.len(),
            forall|i: int| 0 <= i < r@.len() ==> (#[trigger] r@[i])@ == done[i],
            done + split_char(s@.skip(pos as int), c) == split_char(s@, c),
        decreases s.len() - pos,
    {
        let found = find_from_vec(s, &sep, pos);
        proof {
            lemma_find_from_shift(s@, seq![c], pos as int, pos as int);
            assert(s@.skip(pos as int).skip(0) =~= s@.skip(pos as int));
        }
        match found {
            None => {
                let rest = tail_vec(s, pos);
                r.push(rest);
                proof {
                    done = done.push(rest@);
                }
                assert(done =~= split_char(s@, c));
                return r;
            },
            Some(i) => {
                let ghost t = s@.skip(pos as int);
                proof {
                    crate::text::lemma_find_from_found(s@, seq![c], pos as int);
                }
                let piece = slice_vec(s, pos, i);
                r.push(piece);
                proof {
                    let k = (i - pos) as int;
                    assert(t.take(k) =~= s@.subrange(pos as int, i as int));
                    assert(t.skip(k + 1) =~= s@.skip(i + 1));
                    done = done.push(piece@);
                }
                pos = i + 1;
                proof {
                    assert(done + split_char(s@.skip(pos as int), c) =~= split_char(s@, c));
                }
            },
        }
    }
}

/// The lines of `s`.
pub fn lines_vec(s: &Vec<char>) -> (r: Vec<Vec<char>>)
    ensures
        r@.len() == lines_of(s@).len(),
        forall|i: int| 0 <= i < r@.len() ==> (#[trigger] r@[i])@ == lines_of(s@)[i],
{
    let mut r: Vec<Vec<char>> = Vec::new();
    let mut pos: usize = 0;
    let sep = vec!['\n'];
    let ghost mut done: Seq<Seq<char>> = Seq::empty();
    assert(s@.skip(0) =~= s@);
    loop
        invariant
            pos <= s.len(),
            sep@ == seq!['\n'],
            r@.len() == done.len(),
            forall|i: int| 0 <= i < r@.len() ==> (#[trigger] r@[i])@ == done[i],
            done + lines_of(s@.skip(pos as int)) == lines_of(s@),
        decreases s.len() - pos,
    {
        if pos == s.len() {
            assert(s@.skip(pos as int) =~= Seq::<char>::empty());
            assert(done =~= lines_of(s@));
            return r;
        }
        let found = find_from_vec(s, &sep, pos);
        proof {
            lemma_find_from_shift(s@, seq!['\n'], pos as int, pos as int);
            assert(s@.skip(pos as int).skip(0) =~= s@.skip(pos as int));
        }
        match found {
            None => {
                let rest = tail_vec(s, pos);
                r.push(rest);
                proof {
                    done = done.push(rest@);
                }
                assert(done =~= lines_of(s@));
                return r;
            },
            Some(i) => {
                let ghost t = s@.skip(pos as int);
                proof {
                    crate::text::lemma_find_from_found(s@, seq!['\n'], pos as int);
                }
                let mut piece = slice_vec(s, pos, i);
                let ghost raw = piece@;
                if piece.len() > 0 && piece[piece.len() - 1] == '\r' {
                    piece.pop();
                }
                r.push(piece);
                proof {
                    let k = (i - pos) as int;
                    assert(t.take(k) =~= s@.subrange(pos as int, i as int));
                    assert(t.skip(k + 1) =~= s@.skip(i + 1));
                    assert(piece@ =~= strip_cr(raw));
                    done = done.push(piece@);
                }
                pos = i + 1;
                proof {
                    assert(done + lines_of(s@.skip(pos as int)) =~= lines_of(s@));
                }
            },
        }
    }
}

/// Whether two character vectors are equal.
pub fn chars_eq(a: &Vec<char>, b: &Vec<char>) -> (r: bool)
    ensures
        r == (a@ == b@),
{
    if a.len() != b.len() {
        return false;
    }
    let mut i: usize = 0;
    while i < a.len()
        invariant
            a.len() == b.len(),
            i <= a.len(),
            forall|t: int| 0 <= t < i ==> a@[t] == b@[t],
        decreases a.len() - i,
    {
        if a[i] != b[i] {
            return false;
        }
        i = i + 1;
    }
    assert(a@ =~= b@);
    true
}

/// Collects the characters of a string slice.
pub fn chars_of(s: &str) -> (v: Vec<char>)
    ensures
        v@ == s@,
{
    let mut v: Vec<char> = Vec::new();
    for c in it: s.chars()
        invariant
            v@ == it.seq().take(it.index() as int),
    {
        v.push(c);
    }
    v
}

/// Builds a `String` from a character vector (std `FromIterator<&char>` for `String`).
#[verifier::external_body]
pub(crate) fn string_of(v: &[char]) -> (s: String)
    ensures
        s@ == v@,
{
    v.iter().collect()
}

/// Builds a `String` from a string slice.
pub fn owned(s: &str) -> (r: String)
    ensures
        r@ == s@,
{
    s.to_owned()
}

/// Number of UTF-8 bytes of `c`.
pub fn char_utf8_len(c: char) -> (r: u128)
    ensures
        r == utf8_len(c),
{
    let u = c as u32;
    if u < 0x80 {
        1
    } else if u < 0x800 {
        2
    } else if u < 0x10000 {
        3
    } else {
        4
    }
}

/// Byte offset of character position `k` in `s`.
pub fn byte_offset(s: &Vec<char>, k: usize) -> (r: u128)
    requires
        k <= s.len(),
    ensures
        r == byte_len(s@.take(k as int)),
        r <= 4 * k,
{
    let mut i: usize = 0;
    let mut acc: u128 = 0;
    assert(s@.take(0) =~= Seq::<char>::empty());
    while i < k
        invariant
            i <= k <= s.len(),
            acc == byte_len(s@.take(i as int)),
            acc <= 4 * i,
        decreases k - i,
    {
        proof {
            lemma_byte_len_take_succ(s@, i as int);
        }
        let n = char_utf8_len(s[i]);
        acc = acc + n;
        i = i + 1;
    }
    acc
}

/// Whether `p` occurs in `s` at position `i`.
pub fn matches_at(s: &Vec<char>, p: &Vec<char>, i: usize) -> (r: bool)
    ensures
        r == occurs_at(s@, p@, i as int),
{
    if p.len() > s.len() || i > s.len() - p.len() {
        return false;
    }
    let mut j: usize = 0;
    while j < p.len()
        invariant
            i + p.len() <= s.len(),
            j <= p.len(),
            forall|t: int| 0 <= t < j ==> s@[i + t] == p@[t],
        decreases p.len() - j,
    {
        if s[i + j] != p[j] {
            assert(s@.subrange(i as int, i + p.len())[j as int] != p@[j as int]);
            return false;
        }
        j = j + 1;
    }
    assert(s@.subrange(i as int, i + p.len()) =~= p@);
    true
}

/// A found position is a real occurrence at or after the start.
pub proof fn lemma_find_from_found(s: Seq<char>, p: Seq<char>, i: int)
    ensures
        find_from(s, p, i) matches Some(j) ==> i <= j && occurs_at(s, p, j),
    decreases s.len() + 1 - i,
{
    if !(i < 0 || i + p.len() > s.len()) && !occurs_at(s, p, i) {
        lemma_find_from_found(s, p, i + 1);
    }
}

/// First position at or after `start` where `p` occurs in `s`.
pub fn find_from_vec(s: &Vec<char>, p: &Vec<char>, start: usize) -> (r: Option<usize>)
    ensures
        r matches Some(i) ==> find_from(s@, p@, start as int) == Some(i as int),
        r matches Some(i) ==> start <= i && occurs_at(s@, p@, i as int),
        r is None ==> find_from(s@, p@, start as int) is None,
{
    proof {
        lemma_find_from_found(s@, p@, start as int);
    }
    if p.len() > s.len() || start > s.len() - p.len() {
        return None;
    }
    let limit = s.len() - p.len();
    let mut i = start;
    loop
        invariant
            p.len() <= s.len(),
            limit == s.len() - p.len(),
            start <= i <= limit,
            find_from(s@, p@, start as int) == find_from(s@, p@, i as int),
        decreases limit - i,
    {
        if matches_at(s, p, i) {
            return Some(i);
        }
        if i == limit {
            assert(find_from(s@, p@, i + 1) is None);
            return None;
        }
        i = i + 1;
    }
}

/// First position where `p` occurs in `s`.
pub fn find_vec(s: &Vec<char>, p: &Vec<char>) -> (r: Option<usize>)
    ensures
        r matches Some(i) ==> find_seq(s@, p@) == Some(i as int),
        r matches Some(i) ==> occurs_at(s@, p@, i as int),
        r is None ==> find_seq(s@, p@) is None,
{
    find_from_vec(s, p, 0)
}

/// Whether `p` occurs in `s`.
pub fn contains_vec(s: &Vec<char>, p: &Vec<char>) -> (r: bool)
    ensures
        r == contains_seq(s@, p@),
{
    find_vec(s, p).is_some()
}

/// Whether `c` occurs in `s`.
pub fn contains_char_vec(s: &Vec<char>, c: char) -> (r: bool)
    ensures
        r == contains_char(s@, c),
{
    let mut i: usize = 0;
    while i < s.len()
        invariant
            i <= s.len(),
            forall|t: int| 0 <= t < i ==> s@[t] != c,
        decreases s.len() - i,
    {
        if s[i] == c {
            return true;
        }
        i = i + 1;
    }
    false
}

/// Whether `char::is_whitespace` holds of `c`.
pub fn is_whitespace(c: char) -> (r: bool)
    ensures
        r == is_ws(c),
{
    let u = c as u32;
    (9 <= u && u <= 13) || u == 32 || u == 0x85 || u == 0xA0 || u == 0x1680 || (0x2000 <= u && u
        <= 0x200A) || u == 0x2028 || u == 0x2029 || u == 0x202F || u == 0x205F || u == 0x3000
}

pub proof fn lemma_trim_start_skip(s: Seq<char>, i: int)
    requires
        0 <= i <= s.len(),
        forall|t: int| 0 <= t < i ==> is_ws(#[trigger] s[t]),
    ensures
        trim_start(s) == trim_start(s.skip(i)),
    decreases i,
{
    if i > 0 {
        assert(s.drop_first().skip(i - 1) =~= s.skip(i));
        lemma_trim_start_skip(s.drop_first(), i - 1);
    } else {
        assert(s.skip(0) =~= s);
    }
}

pub proof fn lemma_trim_end_take(s: Seq<char>, j: int)
    requires
        0 <= j <= s.len(),
        forall|t: int| j <= t < s.len() ==> is_ws(#[trigger] s[t]),
    ensures
        trim_end(s) == trim_end(s.take(j)),
    decreases s.len() - j,
{
    if j < s.len() {
        assert(s.drop_last().take(j) =~= s.take(j));
        lemma_trim_end_take(s.drop_last(), j);
    } else {
        assert(s.take(j) =~= s);
    }
}

/// `s` without leading and trailing whitespace.
pub fn trim_vec(s: &Vec<char>) -> (r: Vec<char>)
    ensures
        r@ == trim(s@),
{
    let mut i: usize = 0;
    while i < s.len() && is_whitespace(s[i])
        invariant
            i <= s.len(),
            forall|t: int| 0 <= t < i ==> is_ws(#[trigger] s@[t]),
        decreases s.len() - i,
    {
        i = i + 1;
    }
    proof {
        lemma_trim_start_skip(s@, i as int);
    }
    let ghost rest = s@.skip(i as int);
    assert(i == s.len() || !is_ws(rest[0]));
    assert(trim_start(rest) == rest);
    let mut j: usize = s.len();
    while j > i && is_whitespace(s[j - 1])
        invariant
            i <= j <= s.len(),
            forall|t: int| j <= t < s.len() ==> is_ws(#[trigger] s@[t]),
        decreases j,
    {
        j = j - 1;
    }
    let mut r: Vec<char> = Vec::new();
    let mut k = i;
    while k < j
        invariant
            i <= k <= j,
            j <= s.len(),
            r@ == s@.subrange(i as int, k as int),
        decreases j - k,
    {
        r.push(s[k]);
        k = k + 1;
    }
    proof {
        lemma_trim_end_take(rest, j - i);
        assert(rest.take(j - i) =~= s@.subrange(i as int, j as int));
        let m = rest.take(j - i);
        assert(m.len() == 0 || !is_ws(m.last()));
    }
    r
}

/// Characters of `s` from position `from` to the end.
pub fn tail_vec(s: &Vec<char>, from: usize) -> (r: Vec<char>)
    requires
        from <= s.len(),
    ensures
        r@ == s@.skip(from as int),
{
    let mut r: Vec<char> = Vec::new();
    let mut k = from;
    while k < s.len()
        invariant
            from <= k <= s.len(),
            r@ == s@.subrange(from as int, k as int),
        decreases s.len() - k,
    {
        r.push(s[k]);
        k = k + 1;
    }
    r
}

/// The first `n` characters of `s`.
pub fn head_vec(s: &Vec<char>, n: usize) -> (r: Vec<char>)
    requires
        n <= s.len(),
    ensures
        r@ == s@.take(n as int),
{
    let mut r: Vec<char> = Vec::new();
    let mut k: usize = 0;
    while k < n
        invariant
            k <= n <= s.len(),
            r@ == s@.take(k as int),
        decreases n - k,
    {
        r.push(s[k]);
        k = k + 1;
    }
    r
}

/// Appends the characters of `b` to `a`.
pub fn extend_vec(a: &mut Vec<char>, b: &Vec<char>)
    ensures
        final(a)@ == old(a)@ + b@,
{
    let mut k: usize = 0;
    while k < b.len()
        invariant
            k <= b.len(),
            a@ == old(a)@ + b@.take(k as int),
        decreases b.len() - k,
    {
        a.push(b[k]);
        k = k + 1;
    }
}

} // verus!
