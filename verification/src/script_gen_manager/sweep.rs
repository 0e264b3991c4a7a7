//! The `_Sweep` function of a script: the bias, step and sweep channels and
//! the common settings, as symbols for the sweep metadata.
use vstd::prelude::*;

use crate::script_aggregator::script_buffer::{is_unique_choice, BufferState, ScriptBuffer};
use crate::script_gen_manager::device::{device_type_name, DeviceType};
use crate::script_gen_manager::function::build_out;
use crate::text::{chars_of, decimal, decimal_string, extend_vec, is_ascii_seq, owned, string_of};
use crate::xml_handler::condition::{comparable, order_of, NumOrder, OrderFn};
use crate::xml_handler::group::Group;
use crate::xml_handler::value_map::ValueMap;

verus! {

/// What the script says of a channel, its numbers already written out.
#[derive(Debug)]
pub struct ChannelText {
    /// The node of the channel's mainframe.
    pub node_id: String,
    /// The channel's id, such as `node[37].slot[1].smu[1]`.
    pub device_id: String,
    pub model: String,
    pub device_type: DeviceType,
    pub source_function: String,
    pub meas_function: String,
    pub source_range: RangeText,
    pub meas_range: RangeText,
    /// `None` when the channel has no sense mode; otherwise the script name
    /// of its sense mode, if the metadata has one.
    pub sense: Option<Option<String>>,
    /// The voltage limit, for source-measure units.
    pub limitv: Option<String>,
    /// The current limit, for source-measure units.
    pub limiti: Option<String>,
}

/// A range: automatic, or its value written out.
#[derive(Debug)]
pub struct RangeText {
    pub auto: bool,
    pub text: String,
}

/// A bias channel and its bias value.
#[derive(Debug)]
pub struct BiasText {
    pub channel: ChannelText,
    pub bias: String,
}

/// A step or sweep channel: its style, start, stop and list values.
#[derive(Debug)]
pub struct StartStopText {
    pub channel: ChannelText,
    pub style: String,
    pub start: String,
    pub stop: String,
    pub list: Vec<String>,
}

/// Everything the sweep function reads of a sweep configuration.
#[derive(Debug)]
pub struct SweepSettings {
    pub bias: Vec<BiasText>,
    pub steps: Vec<StartStopText>,
    pub sweeps: Vec<StartStopText>,
    pub list_step: bool,
    pub step_points: i32,
    pub step_to_sweep_delay: String,
    pub list_sweep: bool,
    pub sweep_points: i32,
    pub nplc_type: String,
    pub nplc: String,
    pub aperture: String,
    pub measure_count: String,
    pub measure_auto_delay: String,
    pub measure_delay: String,
    pub source_auto_delay: String,
    pub source_delay: String,
}

/// The names given to the channels.
#[derive(Debug)]
pub struct SweepModelAttributes {
    pub device_names: Vec<String>,
    pub step_names: Vec<String>,
    pub sweep_names: Vec<String>,
    pub bias_names: Vec<String>,
}

impl SweepModelAttributes {
    /// No names yet.
    pub fn new() -> (r: Self)
        ensures
            r.device_names@.len() == 0,
            r.step_names@.len() == 0,
            r.sweep_names@.len() == 0,
            r.bias_names@.len() == 0,
    {
        SweepModelAttributes {
            device_names: Vec::new(),
            step_names: Vec::new(),
            sweep_names: Vec::new(),
            bias_names: Vec::new(),
        }
    }
}

// ---------------------------------------------------------------------------
// Indices in a channel id.
pub open spec fn is_digit(c: char) -> bool {
    '0' <= c && c <= '9'
}

/// The number written by the decimal digits `s`.
pub open spec fn digits_value(s: Seq<char>) -> nat
    decreases s.len(),
{
    if s.len() == 0 {
        0
    } else {
        digits_value(s.drop_last()) * 10 + ((s.last() as u32) - ('0' as u32)) as nat
    }
}

/// The numbers closed by `]` in `s`, after those in `numbers`, `current`
/// holding the digits read since the last `]`.  Digits that do not make a
/// `usize` are dropped.
pub open spec fn scan_numbers(s: Seq<char>, numbers: Seq<nat>, current: Seq<char>) -> Seq<nat>
    decreases s.len(),
{
    if s.len() == 0 {
        numbers
    } else if is_digit(s[0]) {
        scan_numbers(s.drop_first(), numbers, current.push(s[0]))
    } else if s[0] == ']' {
        let next = if current.len() > 0 && digits_value(current) <= usize::MAX {
            numbers.push(digits_value(current))
        } else {
            numbers
        };
        scan_numbers(s.drop_first(), next, Seq::empty())
    } else {
        scan_numbers(s.drop_first(), numbers, current)
    }
}

/// The node, slot and channel indices of a channel id such as
/// `node[37].slot[1].smu[1]` (node 0 for `localnode...`): the numbers in
/// brackets, when there are exactly three.
pub open spec fn indices_of(input: Seq<char>) -> Option<(nat, nat, nat)> {
    let start = if input.len() >= 9 && input.take(9) == "localnode"@ {
        seq![0nat]
    } else {
        Seq::empty()
    };
    let ns = scan_numbers(input, start, Seq::empty());
    if ns.len() == 3 {
        Some((ns[0], ns[1], ns[2]))
    } else {
        None
    }
}

// ---------------------------------------------------------------------------
// Symbols.
/// The lower-case form of `s` (as `str::to_lowercase`).
pub uninterp spec fn lowercase(s: Seq<char>) -> Seq<char>;

/// `s` with `A`-`Z` turned into `a`-`z`.
pub open spec fn ascii_lower(s: Seq<char>) -> Seq<char> {
    s.map_values(|c: char| if 'A' <= c && c <= 'Z' { ((c as u32) + 32) as char } else { c })
}

/// Calls `str::to_lowercase`; its documentation maps the ASCII letters
/// `A`-`Z` to `a`-`z` and leaves other ASCII characters alone.
#[verifier::external_body]
pub(crate) fn to_lowercase(s: &str) -> (r: String)
    ensures
        r@ == lowercase(s@),
        is_ascii_seq(s@) ==> r@ == ascii_lower(s@),
{
    s.to_lowercase()
}

/// The script constant for a source or measure function.
pub open spec fn function_value(f: Seq<char>) -> Seq<char> {
    if lowercase(f) == lowercase("Voltage"@) {
        "FUNC_DC_VOLTAGE"@
    } else if lowercase(f) == lowercase("Current"@) {
        "FUNC_DC_CURRENT"@
    } else {
        "FUNC_DC_IV_COMBINED"@
    }
}

/// The script value of a range.
pub open spec fn range_value(r: RangeText) -> Seq<char> {
    if r.auto {
        "CONSTANTS.AUTO"@
    } else {
        r.text@
    }
}

/// The sense mode name for a channel without sense mode.
pub open spec fn undefined_text() -> Seq<char> {
    "UNDEFINED"@
}

/// The items of `list[i..]` appended to `buf`, a comma before each item
/// that follows a non-empty text.
pub open spec fn comma_list_from(list: Seq<Seq<char>>, i: int, buf: Seq<char>) -> Seq<char>
    decreases list.len() - i,
{
    if i < 0 || i >= list.len() {
        buf
    } else if buf.len() > 0 {
        comma_list_from(list, i + 1, buf + seq![','] + list[i])
    } else {
        comma_list_from(list, i + 1, buf + list[i])
    }
}

/// The items of `list` separated by commas.
pub open spec fn comma_list(list: Seq<Seq<char>>) -> Seq<char> {
    comma_list_from(list, 0, Seq::empty())
}

/// `list` joined by `, `.
pub open spec fn join_values(list: Seq<Seq<char>>) -> Seq<char>
    decreases list.len(),
{
    if list.len() == 0 {
        Seq::empty()
    } else if list.len() == 1 {
        list[0]
    } else {
        join_values(list.drop_last()) + seq![',', ' '] + list.last()
    }
}

/// The list values of a channel: `nil`, or at most `len` of them in braces.
pub open spec fn list_text(is_list: bool, list: Seq<Seq<char>>, len: i32) -> Seq<char> {
    if is_list {
        let l = if list.len() > 0 && list.len() > (len as usize) {
            list.take((len as usize) as int)
        } else {
            list
        };
        seq!['{', ' '] + join_values(l) + seq![' ', '}']
    } else {
        "nil"@
    }
}

/// The symbols every channel `name` has, up to its measure function.
pub open spec fn channel_map(m: Map<Seq<char>, Seq<char>>, name: Seq<char>, ch: ChannelText) -> Map<
    Seq<char>,
    Seq<char>,
> {
    let m1 = m.insert(name + ":NODE"@, ch.node_id@);
    let m2 = match indices_of(ch.device_id@) {
        Some((a, b, c)) => m1.insert(name + ":NODE-IDX"@, decimal(a)).insert(name + ":SLOT-IDX"@, decimal(b)).insert(
            name + ":CHANNEL-IDX"@,
            decimal(c),
        ),
        None => m1,
    };
    m2.insert(name + ":MODEL"@, ch.model@).insert(name + ":MODEL-TYPE"@, device_type_name(ch.device_type)).insert(
        name + ":SFUNCTION"@,
        function_value(ch.source_function@),
    ).insert(name + ":SRANGE"@, range_value(ch.source_range)).insert(
        name + ":MRANGE"@,
        range_value(ch.meas_range),
    ).insert(name + ":MFUNCTION"@, function_value(ch.meas_function@))
}

/// The sense mode and limits of channel `name`.
pub open spec fn sense_limits_map(m: Map<Seq<char>, Seq<char>>, name: Seq<char>, ch: ChannelText) -> Map<
    Seq<char>,
    Seq<char>,
> {
    let m1 = match ch.sense {
        None => m.insert(name + ":SENSE"@, undefined_text()),
        Some(None) => m,
        Some(Some(v)) => m.insert(name + ":SENSE"@, v@),
    };
    let m2 = match ch.limitv {
        Some(v) => m1.insert(name + ":LIMITV"@, v@),
        None => m1.insert(name + ":LIMITV"@, "nil"@),
    };
    match ch.limiti {
        Some(v) => m2.insert(name + ":LIMITI"@, v@),
        None => m2.insert(name + ":LIMITI"@, "nil"@),
    }
}

/// The name of the `i`-th channel (from 0) with prefix `prefix`.
pub open spec fn channel_name(prefix: Seq<char>, i: int) -> Seq<char> {
    prefix + decimal((i + 1) as nat)
}

/// The names of `n` channels with prefix `prefix`.
pub open spec fn channel_names(prefix: Seq<char>, n: nat) -> Seq<Seq<char>> {
    Seq::new(n, |i: int| channel_name(prefix, i))
}

/// The symbols of the bias channels `bs[i..]`.
pub open spec fn bias_map(m: Map<Seq<char>, Seq<char>>, bs: Seq<BiasText>, i: int) -> Map<Seq<char>, Seq<char>>
    decreases bs.len() - i,
{
    if i < 0 || i >= bs.len() {
        m
    } else {
        let name = channel_name("bias"@, i);
        let m1 = sense_limits_map(channel_map(m, name, bs[i].channel), name, bs[i].channel);
        bias_map(m1.insert(name + ":BIAS"@, bs[i].bias@), bs, i + 1)
    }
}

/// The symbols of the step or sweep channels `cs[i..]` named `prefix1`, ...
pub open spec fn start_stop_map(
    m: Map<Seq<char>, Seq<char>>,
    prefix: Seq<char>,
    cs: Seq<StartStopText>,
    i: int,
    is_list: bool,
    points: i32,
) -> Map<Seq<char>, Seq<char>>
    decreases cs.len() - i,
{
    if i < 0 || i >= cs.len() {
        m
    } else {
        let name = channel_name(prefix, i);
        let c = cs[i];
        let m1 = channel_map(m, name, c.channel).insert(
            name + ":MODE"@,
            if is_list {
                "LIST"@
            } else {
                c.style@
            },
        );
        let m2 = sense_limits_map(m1, name, c.channel).insert(name + ":START"@, c.start@).insert(
            name + ":STOP"@,
            c.stop@,
        ).insert(name + ":LIST"@, list_text(is_list, c.list@.map_values(|v: String| v@), points));
        start_stop_map(m2, prefix, cs, i + 1, is_list, points)
    }
}

/// All the symbols of the sweep function.
pub open spec fn sweep_map(s: SweepSettings) -> Map<Seq<char>, Seq<char>> {
    let nb = s.bias@.len();
    let m1 = bias_map(Map::empty(), s.bias@, 0);
    let m2 = if nb > 0 {
        m1.insert("BIAS-DEVICE"@, comma_list(channel_names("bias"@, nb)))
    } else {
        m1
    };
    let ns = s.steps@.len();
    let m3 = start_stop_map(m2, "step"@, s.steps@, 0, s.list_step, s.step_points);
    let m4 = m3.insert(
        "STEP-COUNT"@,
        if ns > 0 {
            crate::script_gen_manager::device::int_text(s.step_points as int)
        } else {
            "1"@
        },
    ).insert(
        "STEP-TO-SWEEP-DELAY"@,
        if ns > 0 {
            s.step_to_sweep_delay@
        } else {
            "0"@
        },
    );
    let m5 = if ns > 0 {
        m4.insert("STEP-DEVICE"@, comma_list(channel_names("step"@, ns)))
    } else {
        m4
    };
    let nw = s.sweeps@.len();
    let m6 = start_stop_map(m5, "sweep"@, s.sweeps@, 0, s.list_sweep, s.sweep_points).insert(
        "SWEEP-POINTS"@,
        crate::script_gen_manager::device::int_text(s.sweep_points as int),
    );
    let m7 = if nw > 0 {
        m6.insert("SWEEP-DEVICE"@, comma_list(channel_names("sweep"@, nw)))
    } else {
        m6
    };
    let m8 = if s.nplc_type@ == "NPLC"@ {
        m7.insert("NPLC"@, s.nplc@).insert("APERTURE"@, "nil"@)
    } else {
        m7.insert("APERTURE"@, s.aperture@).insert("NPLC"@, "nil"@)
    };
    let m9 = m8.insert("MEASURE-COUNT"@, s.measure_count@).insert(
        "MEASURE-DELAY"@,
        if s.measure_auto_delay@ == "OFF"@ {
            s.measure_delay@
        } else {
            "nil"@
        },
    );
    m9.insert(
        "SOURCE-DELAY"@,
        if s.source_auto_delay@ == "OFF"@ {
            s.source_delay@
        } else {
            "nil"@
        },
    )
}


// ---------------------------------------------------------------------------
// Where the start and stop values of the channels end up.
/// `k` is not one of the symbols of channel `name` (those begin `name:`).
pub open spec fn outside(k: Seq<char>, name: Seq<char>) -> bool {
    !(k.len() > name.len() && k.take(name.len() as int + 1) == name.push(':'))
}

proof fn lemma_decimal_digits(n: nat)
    ensures
        forall|k: int| 0 <= k < decimal(n).len() ==> is_digit(#[trigger] decimal(n)[k]),
    decreases n,
{
    if n >= 10 {
        lemma_decimal_digits(n / 10);
        assert forall|k: int| 0 <= k < decimal(n).len() implies is_digit(#[trigger] decimal(n)[k]) by {
            if k < decimal(n).len() - 1 {
                assert(decimal(n)[k] == decimal(n / 10)[k]);
            }
        }
    }
}

/// A symbol `name` followed by text starting with `:` is one of `name`'s.
proof fn lemma_inside(name: Seq<char>, lit: Seq<char>, k: Seq<char>)
    requires
        lit.len() > 0,
        lit[0] == ':',
        outside(k, name),
    ensures
        name + lit != k,
{
    assert((name + lit).take(name.len() as int + 1) =~= name.push(':'));
}

/// The symbols of two differently numbered channels with one prefix are apart.
proof fn lemma_names_apart(prefix: Seq<char>, i: int, j: int, lit: Seq<char>)
    requires
        0 <= i,
        0 <= j,
        i != j,
        lit.len() > 0,
        lit[0] == ':',
    ensures
        outside(channel_name(prefix, i) + lit, channel_name(prefix, j)),
{
    let a = decimal((i + 1) as nat);
    let b = decimal((j + 1) as nat);
    let k = channel_name(prefix, i) + lit;
    let nj = channel_name(prefix, j);
    lemma_decimal_digits((i + 1) as nat);
    lemma_decimal_digits((j + 1) as nat);
    if k.len() > nj.len() && k.take(nj.len() as int + 1) == nj.push(':') {
        let pl = prefix.len() as int;
        if a.len() < b.len() {
            assert(k[pl + a.len()] == lit[0]);
            assert(nj.push(':')[pl + a.len()] == b[a.len() as int]);
            assert(k.take(nj.len() as int + 1)[pl + a.len()] == k[pl + a.len()]);
        } else if a.len() > b.len() {
            assert(k[pl + b.len()] == a[b.len() as int]);
            assert(nj.push(':')[pl + b.len()] == ':');
            assert(k.take(nj.len() as int + 1)[pl + b.len()] == k[pl + b.len()]);
        } else {
            assert forall|t: int| 0 <= t < a.len() implies a[t] == b[t] by {
                assert(k[pl + t] == a[t]);
                assert(nj.push(':')[pl + t] == b[t]);
                assert(k.take(nj.len() as int + 1)[pl + t] == k[pl + t]);
            }
            assert(a =~= b);
            crate::text::lemma_decimal_injective((i + 1) as nat, (j + 1) as nat);
        }
    }
}

/// The channels `cs[j..]` leave alone a symbol outside all of them.
proof fn lemma_start_stop_keeps(
    m: Map<Seq<char>, Seq<char>>,
    prefix: Seq<char>,
    cs: Seq<StartStopText>,
    j: int,
    is_list: bool,
    points: i32,
    k: Seq<char>,
)
    requires
        0 <= j,
        forall|t: int| j <= t < cs.len() ==> outside(k, #[trigger] channel_name(prefix, t)),
    ensures
        start_stop_map(m, prefix, cs, j, is_list, points).contains_key(k) == m.contains_key(k),
        start_stop_map(m, prefix, cs, j, is_list, points)[k] == m[k],
    decreases cs.len() - j,
{
    if j < cs.len() {
        let name = channel_name(prefix, j);
        let c = cs[j];
        let m0 = channel_map(m, name, c.channel);
        let m1 = m0.insert(name + ":MODE"@, if is_list { "LIST"@ } else { c.style@ });
        assert(outside(k, name));
        reveal_strlit(":MODE");
        reveal_strlit(":START");
        reveal_strlit(":STOP");
        reveal_strlit(":LIST");
        lemma_inside(name, ":MODE"@, k);
        lemma_inside(name, ":START"@, k);
        lemma_inside(name, ":STOP"@, k);
        lemma_inside(name, ":LIST"@, k);
        let m2 = sense_limits_map(m1, name, c.channel).insert(name + ":START"@, c.start@)
            .insert(name + ":STOP"@, c.stop@)
            .insert(name + ":LIST"@, list_text(is_list, c.list@.map_values(|v: String| v@), points));
        lemma_channel_keeps_sense(m1, name, c.channel, k);
        lemma_channel_map_keeps(m, name, c.channel, k);
        lemma_start_stop_keeps(m2, prefix, cs, j + 1, is_list, points, k);
    }
}

/// The sense and limit symbols of channel `name` leave every symbol outside it alone.
proof fn lemma_channel_keeps_sense(m: Map<Seq<char>, Seq<char>>, name: Seq<char>, ch: ChannelText, k: Seq<char>)
    requires
        outside(k, name),
    ensures
        sense_limits_map(m, name, ch).contains_key(k) == m.contains_key(k),
        sense_limits_map(m, name, ch)[k] == m[k],
{
    reveal_strlit(":SENSE");
    reveal_strlit(":LIMITV");
    reveal_strlit(":LIMITI");
    lemma_inside(name, ":SENSE"@, k);
    lemma_inside(name, ":LIMITV"@, k);
    lemma_inside(name, ":LIMITI"@, k);
}

/// The base symbols of channel `name` leave every symbol outside it alone.
proof fn lemma_channel_map_keeps(m: Map<Seq<char>, Seq<char>>, name: Seq<char>, ch: ChannelText, k: Seq<char>)
    requires
        outside(k, name),
    ensures
        channel_map(m, name, ch).contains_key(k) == m.contains_key(k),
        channel_map(m, name, ch)[k] == m[k],
{
    reveal_strlit(":NODE");
    reveal_strlit(":NODE-IDX");
    reveal_strlit(":SLOT-IDX");
    reveal_strlit(":CHANNEL-IDX");
    reveal_strlit(":MODEL");
    reveal_strlit(":MODEL-TYPE");
    reveal_strlit(":SFUNCTION");
    reveal_strlit(":SRANGE");
    reveal_strlit(":MRANGE");
    reveal_strlit(":MFUNCTION");
    lemma_inside(name, ":NODE"@, k);
    lemma_inside(name, ":NODE-IDX"@, k);
    lemma_inside(name, ":SLOT-IDX"@, k);
    lemma_inside(name, ":CHANNEL-IDX"@, k);
    lemma_inside(name, ":MODEL"@, k);
    lemma_inside(name, ":MODEL-TYPE"@, k);
    lemma_inside(name, ":SFUNCTION"@, k);
    lemma_inside(name, ":SRANGE"@, k);
    lemma_inside(name, ":MRANGE"@, k);
    lemma_inside(name, ":MFUNCTION"@, k);
}

/// The start and stop values of each step or sweep channel: the symbols of
/// channel `i`, named `prefix` and its number from 1, hold its start value
/// under `:START`, its stop value under `:STOP`, and under `:MODE` its style,
/// or `LIST` when the values are a list.
pub proof fn lemma_start_stop_values(
    m: Map<Seq<char>, Seq<char>>,
    prefix: Seq<char>,
    cs: Seq<StartStopText>,
    is_list: bool,
    points: i32,
    i: int,
)
    requires
        0 <= i < cs.len(),
    ensures
        start_stop_map(m, prefix, cs, 0, is_list, points).contains_key(
            prefix + decimal((i + 1) as nat) + ":START"@,
        ),
        start_stop_map(m, prefix, cs, 0, is_list, points)[prefix + decimal((i + 1) as nat) + ":START"@]
            == cs[i].start@,
        start_stop_map(m, prefix, cs, 0, is_list, points).contains_key(
            prefix + decimal((i + 1) as nat) + ":STOP"@,
        ),
        start_stop_map(m, prefix, cs, 0, is_list, points)[prefix + decimal((i + 1) as nat) + ":STOP"@]
            == cs[i].stop@,
        start_stop_map(m, prefix, cs, 0, is_list, points)[prefix + decimal((i + 1) as nat) + ":MODE"@]
            == if is_list {
            "LIST"@
        } else {
            cs[i].style@
        },
{
    lemma_start_stop_from(m, prefix, cs, 0, is_list, points, i);
}

proof fn lemma_start_stop_from(
    m: Map<Seq<char>, Seq<char>>,
    prefix: Seq<char>,
    cs: Seq<StartStopText>,
    j: int,
    is_list: bool,
    points: i32,
    i: int,
)
    requires
        0 <= j <= i < cs.len(),
    ensures
        start_stop_map(m, prefix, cs, j, is_list, points).contains_key(channel_name(prefix, i) + ":START"@),
        start_stop_map(m, prefix, cs, j, is_list, points)[channel_name(prefix, i) + ":START"@] == cs[i].start@,
        start_stop_map(m, prefix, cs, j, is_list, points).contains_key(channel_name(prefix, i) + ":STOP"@),
        start_stop_map(m, prefix, cs, j, is_list, points)[channel_name(prefix, i) + ":STOP"@] == cs[i].stop@,
        start_stop_map(m, prefix, cs, j, is_list, points).contains_key(channel_name(prefix, i) + ":MODE"@),
        start_stop_map(m, prefix, cs, j, is_list, points)[channel_name(prefix, i) + ":MODE"@] == if is_list {
            "LIST"@
        } else {
            cs[i].style@
        },
    decreases i - j,
{
    let name = channel_name(prefix, j);
    let c = cs[j];
    let m1 = channel_map(m, name, c.channel).insert(name + ":MODE"@, if is_list { "LIST"@ } else { c.style@ });
    let m2 = sense_limits_map(m1, name, c.channel).insert(name + ":START"@, c.start@)
        .insert(name + ":STOP"@, c.stop@)
        .insert(name + ":LIST"@, list_text(is_list, c.list@.map_values(|v: String| v@), points));
    if j < i {
        lemma_start_stop_from(m2, prefix, cs, j + 1, is_list, points, i);
    } else {
        reveal_strlit(":START");
        reveal_strlit(":STOP");
        reveal_strlit(":LIST");
        let ks = name + ":START"@;
        let kt = name + ":STOP"@;
        let kl = name + ":LIST"@;
        assert(ks.len() != kt.len());
        assert(ks.len() != kl.len());
        assert(kt[name.len() as int + 2] == 'T');
        assert(kl[name.len() as int + 2] == 'I');
        assert(kt != kl);
        assert forall|t: int| j + 1 <= t < cs.len() implies outside(ks, #[trigger] channel_name(prefix, t)) by {
            lemma_names_apart(prefix, i, t, ":START"@);
        }
        assert forall|t: int| j + 1 <= t < cs.len() implies outside(kt, #[trigger] channel_name(prefix, t)) by {
            lemma_names_apart(prefix, i, t, ":STOP"@);
        }
        reveal_strlit(":MODE");
        reveal_strlit(":SENSE");
        reveal_strlit(":LIMITV");
        reveal_strlit(":LIMITI");
        let km = name + ":MODE"@;
        assert(km.len() != ks.len());
        assert(km.len() != (name + ":SENSE"@).len());
        assert(km.len() != (name + ":LIMITV"@).len());
        assert(km.len() != (name + ":LIMITI"@).len());
        assert(km[name.len() as int + 1] == 'M');
        assert(kt[name.len() as int + 1] == 'S');
        assert(kl[name.len() as int + 1] == 'L');
        assert(km != kt && km != kl);
        assert forall|t: int| j + 1 <= t < cs.len() implies outside(km, #[trigger] channel_name(prefix, t)) by {
            lemma_names_apart(prefix, i, t, ":MODE"@);
        }
        lemma_start_stop_keeps(m2, prefix, cs, j + 1, is_list, points, km);
        lemma_start_stop_keeps(m2, prefix, cs, j + 1, is_list, points, ks);
        lemma_start_stop_keeps(m2, prefix, cs, j + 1, is_list, points, kt);
    }
}

/// The bias channels `bs[j..]` leave alone a symbol outside all of them.
proof fn lemma_bias_keeps(m: Map<Seq<char>, Seq<char>>, bs: Seq<BiasText>, j: int, k: Seq<char>)
    requires
        0 <= j,
        forall|t: int| j <= t < bs.len() ==> outside(k, #[trigger] channel_name("bias"@, t)),
    ensures
        bias_map(m, bs, j).contains_key(k) == m.contains_key(k),
        bias_map(m, bs, j)[k] == m[k],
    decreases bs.len() - j,
{
    if j < bs.len() {
        let name = channel_name("bias"@, j);
        assert(outside(k, name));
        reveal_strlit(":BIAS");
        lemma_inside(name, ":BIAS"@, k);
        lemma_channel_map_keeps(m, name, bs[j].channel, k);
        let m0 = channel_map(m, name, bs[j].channel);
        lemma_channel_keeps_sense(m0, name, bs[j].channel, k);
        let m1 = sense_limits_map(m0, name, bs[j].channel);
        lemma_bias_keeps(m1.insert(name + ":BIAS"@, bs[j].bias@), bs, j + 1, k);
    }
}

proof fn lemma_bias_from(m: Map<Seq<char>, Seq<char>>, bs: Seq<BiasText>, j: int, i: int)
    requires
        0 <= j <= i < bs.len(),
    ensures
        bias_map(m, bs, j).contains_key(channel_name("bias"@, i) + ":BIAS"@),
        bias_map(m, bs, j)[channel_name("bias"@, i) + ":BIAS"@] == bs[i].bias@,
    decreases i - j,
{
    let name = channel_name("bias"@, j);
    let m1 = sense_limits_map(channel_map(m, name, bs[j].channel), name, bs[j].channel);
    let m2 = m1.insert(name + ":BIAS"@, bs[j].bias@);
    if j < i {
        lemma_bias_from(m2, bs, j + 1, i);
    } else {
        let kb = name + ":BIAS"@;
        reveal_strlit(":BIAS");
        assert forall|t: int| j + 1 <= t < bs.len() implies outside(kb, #[trigger] channel_name("bias"@, t)) by {
            lemma_names_apart("bias"@, i, t, ":BIAS"@);
        }
        lemma_bias_keeps(m2, bs, j + 1, kb);
    }
}

/// In the symbols of the sweep function, each bias channel `biasN`
/// (numbered from 1) holds its bias value under `:BIAS`.
pub proof fn lemma_sweep_bias_values(s: SweepSettings, i: int)
    requires
        0 <= i < s.bias@.len(),
    ensures
        sweep_map(s).contains_key("bias"@ + decimal((i + 1) as nat) + ":BIAS"@),
        sweep_map(s)["bias"@ + decimal((i + 1) as nat) + ":BIAS"@] == s.bias@[i].bias@,
{
    reveal_strlit("bias");
    reveal_strlit("step");
    reveal_strlit("sweep");
    reveal_strlit("BIAS-DEVICE");
    let nb = s.bias@.len();
    let m1 = bias_map(Map::empty(), s.bias@, 0);
    lemma_bias_from(Map::empty(), s.bias@, 0, i);
    let k = "bias"@ + decimal((i + 1) as nat) + ":BIAS"@;
    assert(k[0] == 'b' && k[1] == 'i');
    let m2 = if nb > 0 {
        m1.insert("BIAS-DEVICE"@, comma_list(channel_names("bias"@, nb)))
    } else {
        m1
    };
    assert(k != "BIAS-DEVICE"@);
    let ns = s.steps@.len();
    assert forall|t: int| 0 <= t < ns implies outside(k, #[trigger] channel_name("step"@, t)) by {
        let n = channel_name("step"@, t);
        assert(n[1] == 't');
        if k.len() > n.len() && k.take(n.len() as int + 1) == n.push(':') {
            assert(k.take(n.len() as int + 1)[1] == k[1]);
            assert(n.push(':')[1] == n[1]);
        }
    }
    lemma_start_stop_keeps(m2, "step"@, s.steps@, 0, s.list_step, s.step_points, k);
    let m3 = start_stop_map(m2, "step"@, s.steps@, 0, s.list_step, s.step_points);
    let m4 = m3.insert(
        "STEP-COUNT"@,
        if ns > 0 {
            crate::script_gen_manager::device::int_text(s.step_points as int)
        } else {
            "1"@
        },
    ).insert(
        "STEP-TO-SWEEP-DELAY"@,
        if ns > 0 {
            s.step_to_sweep_delay@
        } else {
            "0"@
        },
    );
    let m5 = if ns > 0 {
        m4.insert("STEP-DEVICE"@, comma_list(channel_names("step"@, ns)))
    } else {
        m4
    };
    lemma_lower_b_not_global(k);
    let nw = s.sweeps@.len();
    assert forall|t: int| 0 <= t < nw implies outside(k, #[trigger] channel_name("sweep"@, t)) by {
        let n = channel_name("sweep"@, t);
        assert(n[1] == 'w');
        if k.len() > n.len() && k.take(n.len() as int + 1) == n.push(':') {
            assert(k.take(n.len() as int + 1)[1] == k[1]);
            assert(n.push(':')[1] == n[1]);
        }
    }
    lemma_start_stop_keeps(m5, "sweep"@, s.sweeps@, 0, s.list_sweep, s.sweep_points, k);
    let m6 = start_stop_map(m5, "sweep"@, s.sweeps@, 0, s.list_sweep, s.sweep_points).insert(
        "SWEEP-POINTS"@,
        crate::script_gen_manager::device::int_text(s.sweep_points as int),
    );
    lemma_tail_keeps_any(s, m6, k);
}

/// A symbol starting with `b` is none of the sweep function's upper-case symbols.
proof fn lemma_lower_b_not_global(k: Seq<char>)
    requires
        k.len() > 0,
        k[0] == 'b',
    ensures
        k != "STEP-COUNT"@,
        k != "STEP-TO-SWEEP-DELAY"@,
        k != "STEP-DEVICE"@,
        k != "SWEEP-POINTS"@,
        k != "SWEEP-DEVICE"@,
        k != "NPLC"@,
        k != "APERTURE"@,
        k != "MEASURE-COUNT"@,
        k != "MEASURE-DELAY"@,
        k != "SOURCE-DELAY"@,
{
    reveal_strlit("STEP-COUNT");
    reveal_strlit("STEP-TO-SWEEP-DELAY");
    reveal_strlit("STEP-DEVICE");
    reveal_strlit("SWEEP-POINTS");
    reveal_strlit("SWEEP-DEVICE");
    reveal_strlit("NPLC");
    reveal_strlit("APERTURE");
    reveal_strlit("MEASURE-COUNT");
    reveal_strlit("MEASURE-DELAY");
    reveal_strlit("SOURCE-DELAY");
}

/// A symbol starting with `s` is none of the sweep function's upper-case symbols.
proof fn lemma_lower_key_not_global(k: Seq<char>)
    requires
        k.len() > 0,
        k[0] == 's',
    ensures
        k != "STEP-COUNT"@,
        k != "STEP-TO-SWEEP-DELAY"@,
        k != "STEP-DEVICE"@,
        k != "SWEEP-POINTS"@,
        k != "SWEEP-DEVICE"@,
        k != "NPLC"@,
        k != "APERTURE"@,
        k != "MEASURE-COUNT"@,
        k != "MEASURE-DELAY"@,
        k != "SOURCE-DELAY"@,
{
    reveal_strlit("STEP-COUNT");
    reveal_strlit("STEP-TO-SWEEP-DELAY");
    reveal_strlit("STEP-DEVICE");
    reveal_strlit("SWEEP-POINTS");
    reveal_strlit("SWEEP-DEVICE");
    reveal_strlit("NPLC");
    reveal_strlit("APERTURE");
    reveal_strlit("MEASURE-COUNT");
    reveal_strlit("MEASURE-DELAY");
    reveal_strlit("SOURCE-DELAY");
}

/// What follows the channels in the sweep function's symbols leaves alone a
/// symbol that is none of the symbols it sets.
proof fn lemma_tail_keeps_any(s: SweepSettings, m6: Map<Seq<char>, Seq<char>>, k: Seq<char>)
    requires
        k != "SWEEP-DEVICE"@,
        k != "NPLC"@,
        k != "APERTURE"@,
        k != "MEASURE-COUNT"@,
        k != "MEASURE-DELAY"@,
        k != "SOURCE-DELAY"@,
    ensures
        ({
            let nw = s.sweeps@.len();
            let m7 = if nw > 0 {
                m6.insert("SWEEP-DEVICE"@, comma_list(channel_names("sweep"@, nw)))
            } else {
                m6
            };
            let m8 = if s.nplc_type@ == "NPLC"@ {
                m7.insert("NPLC"@, s.nplc@).insert("APERTURE"@, "nil"@)
            } else {
                m7.insert("APERTURE"@, s.aperture@).insert("NPLC"@, "nil"@)
            };
            let m9 = m8.insert("MEASURE-COUNT"@, s.measure_count@).insert(
                "MEASURE-DELAY"@,
                if s.measure_auto_delay@ == "OFF"@ {
                    s.measure_delay@
                } else {
                    "nil"@
                },
            );
            let m10 = m9.insert(
                "SOURCE-DELAY"@,
                if s.source_auto_delay@ == "OFF"@ {
                    s.source_delay@
                } else {
                    "nil"@
                },
            );
            m10.contains_key(k) == m6.contains_key(k) && m10[k] == m6[k]
        }),
{
}

/// In the symbols of the sweep function, each step channel `stepN` and each
/// sweep channel `sweepN` (numbered from 1) holds its start value under
/// `:START` and its stop value under `:STOP`.
pub proof fn lemma_sweep_start_stop(s: SweepSettings, i: int)
    ensures
        0 <= i < s.steps@.len() ==> {
            let name = "step"@ + decimal((i + 1) as nat);
            &&& sweep_map(s).contains_key(name + ":START"@)
            &&& sweep_map(s)[name + ":START"@] == s.steps@[i].start@
            &&& sweep_map(s).contains_key(name + ":STOP"@)
            &&& sweep_map(s)[name + ":STOP"@] == s.steps@[i].stop@
        },
        0 <= i < s.sweeps@.len() ==> {
            let name = "sweep"@ + decimal((i + 1) as nat);
            &&& sweep_map(s).contains_key(name + ":START"@)
            &&& sweep_map(s)[name + ":START"@] == s.sweeps@[i].start@
            &&& sweep_map(s).contains_key(name + ":STOP"@)
            &&& sweep_map(s)[name + ":STOP"@] == s.sweeps@[i].stop@
        },
{
    reveal_strlit("step");
    reveal_strlit("sweep");
    let nb = s.bias@.len();
    let m1 = bias_map(Map::empty(), s.bias@, 0);
    let m2 = if nb > 0 {
        m1.insert("BIAS-DEVICE"@, comma_list(channel_names("bias"@, nb)))
    } else {
        m1
    };
    let ns = s.steps@.len();
    let m3 = start_stop_map(m2, "step"@, s.steps@, 0, s.list_step, s.step_points);
    let m4 = m3.insert(
        "STEP-COUNT"@,
        if ns > 0 {
            crate::script_gen_manager::device::int_text(s.step_points as int)
        } else {
            "1"@
        },
    ).insert(
        "STEP-TO-SWEEP-DELAY"@,
        if ns > 0 {
            s.step_to_sweep_delay@
        } else {
            "0"@
        },
    );
    let m5 = if ns > 0 {
        m4.insert("STEP-DEVICE"@, comma_list(channel_names("step"@, ns)))
    } else {
        m4
    };
    let nw = s.sweeps@.len();
    let m6 = start_stop_map(m5, "sweep"@, s.sweeps@, 0, s.list_sweep, s.sweep_points).insert(
        "SWEEP-POINTS"@,
        crate::script_gen_manager::device::int_text(s.sweep_points as int),
    );
    if 0 <= i < ns {
        let name = "step"@ + decimal((i + 1) as nat);
        lemma_start_stop_values(m2, "step"@, s.steps@, s.list_step, s.step_points, i);
        let ks = name + ":START"@;
        let kt = name + ":STOP"@;
        assert(ks[0] == 's' && kt[0] == 's');
        assert(ks[1] == 't' && kt[1] == 't');
        lemma_lower_key_not_global(ks);
        lemma_lower_key_not_global(kt);
        assert forall|t: int| 0 <= t < nw implies outside(ks, #[trigger] channel_name("sweep"@, t)) by {
            let n = channel_name("sweep"@, t);
            assert(n[1] == 'w');
            if ks.len() > n.len() && ks.take(n.len() as int + 1) == n.push(':') {
                assert(ks.take(n.len() as int + 1)[1] == ks[1]);
                assert(n.push(':')[1] == n[1]);
            }
        }
        assert forall|t: int| 0 <= t < nw implies outside(kt, #[trigger] channel_name("sweep"@, t)) by {
            let n = channel_name("sweep"@, t);
            assert(n[1] == 'w');
            if kt.len() > n.len() && kt.take(n.len() as int + 1) == n.push(':') {
                assert(kt.take(n.len() as int + 1)[1] == kt[1]);
                assert(n.push(':')[1] == n[1]);
            }
        }
        lemma_start_stop_keeps(m5, "sweep"@, s.sweeps@, 0, s.list_sweep, s.sweep_points, ks);
        lemma_start_stop_keeps(m5, "sweep"@, s.sweeps@, 0, s.list_sweep, s.sweep_points, kt);
        lemma_tail_keeps_any(s, m6, ks);
        lemma_tail_keeps_any(s, m6, kt);
    }
    if 0 <= i < nw {
        let name = "sweep"@ + decimal((i + 1) as nat);
        lemma_start_stop_values(m5, "sweep"@, s.sweeps@, s.list_sweep, s.sweep_points, i);
        let ks = name + ":START"@;
        let kt = name + ":STOP"@;
        assert(ks[0] == 's' && kt[0] == 's');
        lemma_lower_key_not_global(ks);
        lemma_lower_key_not_global(kt);
        lemma_tail_keeps_any(s, m6, ks);
        lemma_tail_keeps_any(s, m6, kt);
    }
}

// ---------------------------------------------------------------------------
// Computing the symbols.
proof fn lemma_digits_monotone(s: Seq<char>, c: char)
    requires
        is_digit(c),
    ensures
        digits_value(s.push(c)) == digits_value(s) * 10 + ((c as u32) - ('0' as u32)) as nat,
        digits_value(s.push(c)) >= digits_value(s),
{
    assert(s.push(c).drop_last() =~= s);
}

/// The node, slot and channel indices of a channel id (see [`indices_of`]).
pub fn extract_indices(input: &str) -> (r: Option<(usize, usize, usize)>)
    ensures
        match (r, indices_of(input@)) {
            (Some((a, b, c)), Some((x, y, z))) => a == x && b == y && c == z,
            (None, None) => true,
            _ => false,
        },
{
    let chars = chars_of(input);
    let prefix = chars_of("localnode");
    let mut numbers: Vec<usize> = Vec::new();
    proof {
        reveal_strlit("localnode");
    }
    let starts = chars.len() >= 9 && crate::text::chars_eq(&crate::text::head_vec(&chars, 9), &prefix);
    if starts {
        numbers.push(0);
    }
    let ghost start: Seq<nat> = if starts { seq![0nat] } else { Seq::empty() };
    assert(numbers@.map_values(|n: usize| n as nat) =~= start);
    let mut cur_value: usize = 0;
    let mut cur_overflow = false;
    let mut cur_nonempty = false;
    let ghost mut current: Seq<char> = Seq::empty();
    let mut i: usize = 0;
    assert(chars@.skip(0) =~= chars@);
    while i < chars.len()
        invariant
            i <= chars@.len(),
            chars@ == input@,
            cur_overflow == (digits_value(current) > usize::MAX),
            cur_nonempty == (current.len() > 0),
            !cur_overflow ==> cur_value == digits_value(current),
            scan_numbers(chars@.skip(i as int), numbers@.map_values(|n: usize| n as nat), current)
                == scan_numbers(input@, start, Seq::empty()),
        decreases chars.len() - i,
    {
        let c = chars[i];
        let ghost rest = chars@.skip(i as int);
        assert(rest[0] == c);
        assert(rest.drop_first() =~= chars@.skip(i + 1));
        if '0' <= c && c <= '9' {
            proof {
                lemma_digits_monotone(current, c);
            }
            let d = (c as u32 - '0' as u32) as usize;
            if !cur_overflow {
                match cur_value.checked_mul(10) {
                    None => {
                        cur_overflow = true;
                    },
                    Some(t) => match t.checked_add(d) {
                        None => {
                            cur_overflow = true;
                        },
                        Some(v) => {
                            cur_value = v;
                        },
                    },
                }
            }
            proof {
                current = current.push(c);
            }
            cur_nonempty = true;
        } else if c == ']' {
            let ghost before = numbers@.map_values(|n: usize| n as nat);
            if cur_nonempty && !cur_overflow {
                numbers.push(cur_value);
                assert(numbers@.map_values(|n: usize| n as nat) =~= before.push(digits_value(current)));
            }
            proof {
                current = Seq::empty();
            }
            cur_value = 0;
            cur_overflow = false;
            cur_nonempty = false;
        }
        i = i + 1;
    }
    let ghost ns = numbers@.map_values(|n: usize| n as nat);
    assert(chars@.skip(i as int) =~= Seq::<char>::empty());
    assert(ns == scan_numbers(input@, start, Seq::empty()));
    if numbers.len() == 3 {
        Some((numbers[0], numbers[1], numbers[2]))
    } else {
        None
    }
}

/// The script constant for a source or measure function (see [`function_value`]).
pub fn get_function_value(f: &String) -> (r: String)
    ensures
        r@ == function_value(f@),
{
    let lower = to_lowercase(f.as_str());
    if lower == to_lowercase("Voltage") {
        owned("FUNC_DC_VOLTAGE")
    } else if lower == to_lowercase("Current") {
        owned("FUNC_DC_CURRENT")
    } else {
        owned("FUNC_DC_IV_COMBINED")
    }
}

/// The items of `list` separated by commas (see [`comma_list`]).
pub fn comma_separated_list(list: &Vec<String>) -> (r: String)
    ensures
        r@ == comma_list(list@.map_values(|v: String| v@)),
{
    let ghost l = list@.map_values(|v: String| v@);
    let mut buf: Vec<char> = Vec::new();
    let mut i: usize = 0;
    while i < list.len()
        invariant
            i <= list@.len(),
            l == list@.map_values(|v: String| v@),
            comma_list_from(l, i as int, buf@) == comma_list(l),
        decreases list.len() - i,
    {
        let ghost b0 = buf@;
        if buf.len() > 0 {
            buf.push(',');
        }
        extend_vec(&mut buf, &chars_of(list[i].as_str()));
        proof {
            assert(l[i as int] == list@[i as int]@);
            if b0.len() > 0 {
                assert(buf@ =~= b0 + seq![','] + l[i as int]);
            } else {
                assert(buf@ =~= b0 + l[i as int]);
            }
        }
        i = i + 1;
    }
    string_of(buf.as_slice())
}

/// The list values of a channel (see [`list_text`]).
pub fn process_list(is_list: bool, list: &Vec<String>, len: i32) -> (r: String)
    ensures
        r@ == list_text(is_list, list@.map_values(|v: String| v@), len),
{
    if !is_list {
        return owned("nil");
    }
    let ghost l = list@.map_values(|v: String| v@);
    let n = if list.len() > 0 && list.len() > len as usize {
        len as usize
    } else {
        list.len()
    };
    let ghost kept = if list@.len() > 0 && list@.len() > (len as usize) {
        l.take((len as usize) as int)
    } else {
        l
    };
    assert(kept.len() == n);
    let mut out: Vec<char> = Vec::new();
    out.push('{');
    out.push(' ');
    let mut i: usize = 0;
    assert(kept.take(0) =~= Seq::<Seq<char>>::empty());
    while i < n
        invariant
            i <= n,
            n <= list@.len(),
            kept.len() == n,
            forall|k: int| 0 <= k < n ==> kept[k] == l[k],
            l == list@.map_values(|v: String| v@),
            out@ == seq!['{', ' '] + join_values(kept.take(i as int)),
        decreases n - i,
    {
        if i > 0 {
            out.push(',');
            out.push(' ');
        }
        extend_vec(&mut out, &chars_of(list[i].as_str()));
        proof {
            assert(kept.take(i + 1).drop_last() =~= kept.take(i as int));
            assert(kept.take(i + 1).last() == list@[i as int]@);
            if i == 0 {
                assert(join_values(kept.take(1)) == kept.take(1)[0]);
                assert(out@ =~= seq!['{', ' '] + join_values(kept.take(i + 1)));
            } else {
                assert(out@ =~= seq!['{', ' '] + join_values(kept.take(i + 1)));
            }
        }
        i = i + 1;
    }
    out.push(' ');
    out.push('}');
    assert(kept.take(n as int) =~= kept);
    string_of(out.as_slice())
}

/// Sets `name` followed by `suffix` to `value`.
fn put(m: &mut ValueMap, name: &String, suffix: &str, value: String)
    ensures
        final(m)@ == old(m)@.insert(name@ + suffix@, value@),
{
    let mut k = chars_of(name.as_str());
    extend_vec(&mut k, &chars_of(suffix));
    m.insert(string_of(k.as_slice()), value);
}

/// The script value of a range (see [`range_value`]).
fn range_string(r: &RangeText) -> (s: String)
    ensures
        s@ == range_value(*r),
{
    if r.auto {
        owned("CONSTANTS.AUTO")
    } else {
        r.text.clone()
    }
}

/// Adds the symbols every channel has (see [`channel_map`]).
fn define_channel(m: &mut ValueMap, name: &String, ch: &ChannelText)
    ensures
        final(m)@ == channel_map(old(m)@, name@, *ch),
{
    put(m, name, ":NODE", ch.node_id.clone());
    match extract_indices(ch.device_id.as_str()) {
        Some((a, b, c)) => {
            put(m, name, ":NODE-IDX", decimal_string(a));
            put(m, name, ":SLOT-IDX", decimal_string(b));
            put(m, name, ":CHANNEL-IDX", decimal_string(c));
        },
        None => {},
    }
    put(m, name, ":MODEL", ch.model.clone());
    put(m, name, ":MODEL-TYPE", ch.device_type.to_text());
    put(m, name, ":SFUNCTION", get_function_value(&ch.source_function));
    put(m, name, ":SRANGE", range_string(&ch.source_range));
    put(m, name, ":MRANGE", range_string(&ch.meas_range));
    put(m, name, ":MFUNCTION", get_function_value(&ch.meas_function));
}

/// Adds the sense mode and limits of a channel (see [`sense_limits_map`]).
fn define_sense_limits(m: &mut ValueMap, name: &String, ch: &ChannelText)
    ensures
        final(m)@ == sense_limits_map(old(m)@, name@, *ch),
{
    match &ch.sense {
        None => put(m, name, ":SENSE", owned("UNDEFINED")),
        Some(None) => {},
        Some(Some(v)) => put(m, name, ":SENSE", v.clone()),
    }
    match &ch.limitv {
        Some(v) => put(m, name, ":LIMITV", v.clone()),
        None => put(m, name, ":LIMITV", owned("nil")),
    }
    match &ch.limiti {
        Some(v) => put(m, name, ":LIMITI", v.clone()),
        None => put(m, name, ":LIMITI", owned("nil")),
    }
}

/// The name of channel `i` (from 0): `prefix` and `i + 1`.
fn make_name(prefix: &str, i: usize) -> (r: String)
    requires
        i < usize::MAX,
    ensures
        r@ == channel_name(prefix@, i as int),
{
    let mut v = chars_of(prefix);
    extend_vec(&mut v, &chars_of(decimal_string(i + 1).as_str()));
    string_of(v.as_slice())
}

/// The `_Sweep` function of a script.
pub struct SweepModel {
    pub type_: String,
    pub description: String,
    pub metadata: Group,
    pub val_replacement_map: ValueMap,
    pub attributes: SweepModelAttributes,
}

impl SweepModel {
    pub const DESCRIPTION: &'static str = "Configures a sweeping test.";

    /// The function for the metadata `group`.
    pub fn new(group: Group) -> (r: Self)
        ensures
            r.type_ == group.type_,
            r.description@ == Self::DESCRIPTION@,
            r.metadata == group,
            r.val_replacement_map@ == Map::<Seq<char>, Seq<char>>::empty(),
    {
        SweepModel {
            type_: group.type_.clone(),
            description: owned(Self::DESCRIPTION),
            metadata: group,
            val_replacement_map: ValueMap::new(),
            attributes: SweepModelAttributes::new(),
        }
    }

    fn define_bias_channels(&mut self, s: &SweepSettings)
        requires
            old(self).attributes.bias_names@.len() == 0,
        ensures
            final(self).val_replacement_map@ == ({
                let m1 = bias_map(old(self).val_replacement_map@, s.bias@, 0);
                if s.bias@.len() > 0 {
                    m1.insert("BIAS-DEVICE"@, comma_list(channel_names("bias"@, s.bias@.len())))
                } else {
                    m1
                }
            }),
            final(self).attributes.bias_names@.map_values(|v: String| v@) == channel_names("bias"@, s.bias@.len()),
            final(self).attributes.step_names == old(self).attributes.step_names,
            final(self).attributes.sweep_names == old(self).attributes.sweep_names,
            final(self).type_ == old(self).type_,
            final(self).description == old(self).description,
            final(self).metadata == old(self).metadata,
    {
        let ghost m0 = self.val_replacement_map@;
        let mut i: usize = 0;
        while i < s.bias.len()
            invariant
                i <= s.bias@.len(),
                bias_map(self.val_replacement_map@, s.bias@, i as int) == bias_map(m0, s.bias@, 0),
                self.attributes.bias_names@.len() == i,
                forall|k: int| 0 <= k < i ==> (#[trigger] self.attributes.bias_names@[k])@ == channel_name("bias"@, k),
                self.attributes.step_names == old(self).attributes.step_names,
                self.attributes.sweep_names == old(self).attributes.sweep_names,
                self.type_ == old(self).type_,
                self.description == old(self).description,
                self.metadata == old(self).metadata,
            decreases s.bias.len() - i,
        {
            let name = make_name("bias", i);
            self.attributes.bias_names.push(name.clone());
            let b = &s.bias[i];
            define_channel(&mut self.val_replacement_map, &name, &b.channel);
            define_sense_limits(&mut self.val_replacement_map, &name, &b.channel);
            put(&mut self.val_replacement_map, &name, ":BIAS", b.bias.clone());
            i = i + 1;
        }
        assert(self.attributes.bias_names@.map_values(|v: String| v@) =~= channel_names("bias"@, s.bias@.len()));
        if self.attributes.bias_names.len() > 0 {
            let list = comma_separated_list(&self.attributes.bias_names);
            self.val_replacement_map.insert(owned("BIAS-DEVICE"), list);
        }
    }

    fn define_start_stop(
        m: &mut ValueMap,
        names: &mut Vec<String>,
        prefix: &str,
        cs: &Vec<StartStopText>,
        is_list: bool,
        points: i32,
    )
        requires
            old(names)@.len() == 0,
        ensures
            final(m)@ == start_stop_map(old(m)@, prefix@, cs@, 0, is_list, points),
            final(names)@.map_values(|v: String| v@) == channel_names(prefix@, cs@.len()),
    {
        let ghost m0 = m@;
        let mut i: usize = 0;
        while i < cs.len()
            invariant
                i <= cs@.len(),
                start_stop_map(m@, prefix@, cs@, i as int, is_list, points) == start_stop_map(
                    m0,
                    prefix@,
                    cs@,
                    0,
                    is_list,
                    points,
                ),
                names@.len() == i,
                forall|k: int| 0 <= k < i ==> (#[trigger] names@[k])@ == channel_name(prefix@, k),
            decreases cs.len() - i,
        {
            let name = make_name(prefix, i);
            names.push(name.clone());
            let c = &cs[i];
            define_channel(m, &name, &c.channel);
            let mode = if is_list {
                owned("LIST")
            } else {
                c.style.clone()
            };
            put(m, &name, ":MODE", mode);
            define_sense_limits(m, &name, &c.channel);
            put(m, &name, ":START", c.start.clone());
            put(m, &name, ":STOP", c.stop.clone());
            put(m, &name, ":LIST", process_list(is_list, &c.list, points));
            i = i + 1;
        }
        assert(names@.map_values(|v: String| v@) =~= channel_names(prefix@, cs@.len()));
    }

    /// Defines the symbols of the sweep function (see [`sweep_map`]).
    pub fn define_symbols(&mut self, s: &SweepSettings)
        ensures
            final(self).val_replacement_map@ == sweep_map(*s),
            final(self).attributes.bias_names@.map_values(|v: String| v@) == channel_names("bias"@, s.bias@.len()),
            final(self).attributes.step_names@.map_values(|v: String| v@) == channel_names("step"@, s.steps@.len()),
            final(self).attributes.sweep_names@.map_values(|v: String| v@) == channel_names("sweep"@, s.sweeps@.len()),
            final(self).type_ == old(self).type_,
            final(self).description == old(self).description,
            final(self).metadata == old(self).metadata,
    {
        self.attributes = SweepModelAttributes::new();
        self.val_replacement_map = ValueMap::new();
        self.define_bias_channels(s);
        SweepModel::define_start_stop(
            &mut self.val_replacement_map,
            &mut self.attributes.step_names,
            "step",
            &s.steps,
            s.list_step,
            s.step_points,
        );
        let has_steps = self.attributes.step_names.len() > 0;
        let count = if has_steps {
            crate::script_gen_manager::device::int_string(s.step_points)
        } else {
            owned("1")
        };
        self.val_replacement_map.insert(owned("STEP-COUNT"), count);
        let delay = if has_steps {
            s.step_to_sweep_delay.clone()
        } else {
            owned("0")
        };
        self.val_replacement_map.insert(owned("STEP-TO-SWEEP-DELAY"), delay);
        if has_steps {
            let list = comma_separated_list(&self.attributes.step_names);
            self.val_replacement_map.insert(owned("STEP-DEVICE"), list);
        }
        SweepModel::define_start_stop(
            &mut self.val_replacement_map,
            &mut self.attributes.sweep_names,
            "sweep",
            &s.sweeps,
            s.list_sweep,
            s.sweep_points,
        );
        self.val_replacement_map.insert(
            owned("SWEEP-POINTS"),
            crate::script_gen_manager::device::int_string(s.sweep_points),
        );
        if self.attributes.sweep_names.len() > 0 {
            let list = comma_separated_list(&self.attributes.sweep_names);
            self.val_replacement_map.insert(owned("SWEEP-DEVICE"), list);
        }
        if s.nplc_type == owned("NPLC") {
            self.val_replacement_map.insert(owned("NPLC"), s.nplc.clone());
            self.val_replacement_map.insert(owned("APERTURE"), owned("nil"));
        } else {
            self.val_replacement_map.insert(owned("APERTURE"), s.aperture.clone());
            self.val_replacement_map.insert(owned("NPLC"), owned("nil"));
        }
        self.val_replacement_map.insert(owned("MEASURE-COUNT"), s.measure_count.clone());
        let md = if s.measure_auto_delay == owned("OFF") {
            s.measure_delay.clone()
        } else {
            owned("nil")
        };
        self.val_replacement_map.insert(owned("MEASURE-DELAY"), md);
        let sd = if s.source_auto_delay == owned("OFF") {
            s.source_delay.clone()
        } else {
            owned("nil")
        };
        self.val_replacement_map.insert(owned("SOURCE-DELAY"), sd);
    }

    /// Without step or sweep channels, a note in the postamble; otherwise the
    /// symbols of the sweep (see [`sweep_map`]) and the function built with them.
    pub fn to_script<F: Fn(&str, &str) -> Option<NumOrder>>(&mut self, s: &SweepSettings, script_buffer: &mut ScriptBuffer, compare: &F)
        requires
            comparable(*compare),
            old(script_buffer)@.names.len() < usize::MAX,
        ensures
            s.steps@.len() == 0 && s.sweeps@.len() == 0 ==> final(script_buffer)@ == old(script_buffer)@.postamble_append(
                "-- no sweep ... requires at least 1 step channel or 1 sweep channel"@,
            ) && final(self).val_replacement_map@ == old(self).val_replacement_map@,
            s.steps@.len() > 0 || s.sweeps@.len() > 0 ==> final(self).val_replacement_map@ == sweep_map(*s)
                && exists|name: Seq<char>|
                is_unique_choice(old(script_buffer)@.names, seq!['_'] + old(self).type_@, name)
                    && final(script_buffer)@ == build_out(
                    old(script_buffer)@,
                    old(self).type_@,
                    old(self).description@,
                    old(self).metadata.children@,
                    sweep_map(*s),
                    order_of(*compare),
                    name,
                ),
    {
        if s.steps.len() == 0 && s.sweeps.len() == 0 {
            script_buffer.postamble_append(owned("-- no sweep ... requires at least 1 step channel or 1 sweep channel"));
        } else {
            self.define_symbols(s);
            crate::script_gen_manager::function::build(
                script_buffer,
                &self.type_,
                &self.description,
                &self.metadata,
                &self.val_replacement_map,
                compare,
            );
        }
    }
}

} // verus!
