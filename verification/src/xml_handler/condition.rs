//! The `condition` tag: a test on a looked-up value that decides whether a
//! composite or snippet contributes to the script.
use vstd::prelude::*;
use crate::text::{chars_eq, chars_of, owned, split_char, split_char_vec};
use crate::xml_handler::composite::{cond_view, CondV};
use crate::xml_handler::error::{ErrV, XMLHandlerError};
use crate::xml_handler::events::{tag_view, unescape_text, xml_unescaped, EventV, TagV, XmlEvent, XmlTag};
use crate::xml_handler::substitute::skip1;
use crate::xml_handler::variable::{
    attr_or_empty, attribute_or_empty, ev_at, event_at, evs_view, read_attributes, tag_attrs,
};

verus! {

/// Represents the condition tag in the XML data.
#[derive(Debug)]
pub struct Condition {
    /// The symbol whose value is tested.
    pub name: String,
    /// The operator: `ne`, `gt`, `ge`, `lt`, `le`, `in`, `regex`, anything else meaning equality.
    pub op: String,
    /// The value the symbol is compared with.
    pub value: String,
}

/// The outcome of comparing two numbers (`Unordered` when one is not a number).
#[derive(Debug, Clone, Copy, PartialEq, Eq, Structural)]
pub enum NumOrder {
    Less,
    Equal,
    Greater,
    Unordered,
}

/// The order of two numbers written as text, or `None` when one of them is
/// not a number.
pub type OrderFn = spec_fn(Seq<char>, Seq<char>) -> Option<NumOrder>;

/// The comparison `f` (of two numbers written as text) can be called on any
/// texts and gives the order that `ord` assigns them.
pub open spec fn follows<F: Fn(&str, &str) -> Option<NumOrder>>(f: F, ord: OrderFn) -> bool {
    forall|a: &str, b: &str|
        #![trigger f.requires((a, b))]
        f.requires((a, b)) && forall|r: Option<NumOrder>| f.ensures((a, b), r) ==> r == ord(a@, b@)
}

/// The comparison `f` gives the same order every time it compares the same texts.
pub open spec fn comparable<F: Fn(&str, &str) -> Option<NumOrder>>(f: F) -> bool {
    exists|ord: OrderFn| follows(f, ord)
}

/// The order the comparison `f` follows.
pub open spec fn order_of<F: Fn(&str, &str) -> Option<NumOrder>>(f: F) -> OrderFn {
    choose|ord: OrderFn| follows(f, ord)
}

/// Whether an `in` condition rejects `token`: it is accepted only when it is
/// one of the comma-separated items of `expression`, whole.
pub open spec fn in_list_rejects(expression: Seq<char>, token: Seq<char>) -> bool {
    !split_char(expression, ',').contains(token)
}

/// Whether a numeric comparison with operator `op` rejects, given the order of
/// the looked-up value against the condition's value.  Text that is not a
/// number rejects.
pub open spec fn numeric_rejects(op: Seq<char>, order: Option<NumOrder>) -> bool {
    match order {
        None => true,
        Some(o) => if op == "gt"@ {
            o == NumOrder::Less || o == NumOrder::Equal
        } else if op == "ge"@ {
            o == NumOrder::Less
        } else if op == "lt"@ {
            o == NumOrder::Greater || o == NumOrder::Equal
        } else {
            o == NumOrder::Greater
        },
    }
}

/// The operator compares numbers.
pub open spec fn is_numeric_op(op: Seq<char>) -> bool {
    op == "gt"@ || op == "ge"@ || op == "lt"@ || op == "le"@
}

/// Whether the condition `(op, value)` rejects the looked-up `object`;
/// `order` is the numeric order of `object` against `value`.
pub open spec fn condition_rejects(
    op: Seq<char>,
    value: Seq<char>,
    object: Seq<char>,
    order: Option<NumOrder>,
) -> bool {
    if op == "ne"@ {
        value == object
    } else if is_numeric_op(op) {
        numeric_rejects(op, order)
    } else if op == "in"@ {
        in_list_rejects(value, object)
    } else if op == "regex"@ {
        false
    } else {
        value != object
    }
}

/// What each operator accepts, for every looked-up value `object`, every
/// condition value `value` and every order `o` of the two numbers: `gt`
/// accepts only a greater number, `ge` a greater or equal one, `lt` only a
/// smaller one, `le` a smaller or equal one (and two numbers that do not
/// compare pass each of them); a numeric operator rejects text that is not a
/// number; `ne` rejects exactly an equal text; `regex` accepts everything;
/// any other operator accepts exactly an equal text.
pub proof fn lemma_operators(value: Seq<char>, object: Seq<char>, o: NumOrder)
    ensures
        condition_rejects("gt"@, value, object, Some(o)) <==> (o == NumOrder::Less || o == NumOrder::Equal),
        condition_rejects("ge"@, value, object, Some(o)) <==> o == NumOrder::Less,
        condition_rejects("lt"@, value, object, Some(o)) <==> (o == NumOrder::Greater || o == NumOrder::Equal),
        condition_rejects("le"@, value, object, Some(o)) <==> o == NumOrder::Greater,
        condition_rejects("gt"@, value, object, None),
        condition_rejects("ge"@, value, object, None),
        condition_rejects("lt"@, value, object, None),
        condition_rejects("le"@, value, object, None),
        condition_rejects("ne"@, value, object, Some(o)) <==> value == object,
        !condition_rejects("regex"@, value, object, Some(o)),
        condition_rejects("eq"@, value, object, Some(o)) <==> value != object,
        condition_rejects(Seq::empty(), value, object, Some(o)) <==> value != object,
{
    reveal_strlit("gt");
    reveal_strlit("ge");
    reveal_strlit("lt");
    reveal_strlit("le");
    reveal_strlit("ne");
    reveal_strlit("in");
    reveal_strlit("regex");
    reveal_strlit("eq");
    assert("gt"@[0] == 'g' && "gt"@[1] == 't');
    assert("ge"@[0] == 'g' && "ge"@[1] == 'e');
    assert("lt"@[0] == 'l' && "lt"@[1] == 't');
    assert("le"@[0] == 'l' && "le"@[1] == 'e');
    assert("ne"@[0] == 'n' && "ne"@[1] == 'e');
    assert("in"@[0] == 'i' && "in"@[1] == 'n');
    assert("regex"@.len() == 5);
    assert("eq"@[0] == 'e' && "eq"@[1] == 'q');
}

/// An `in` condition accepts a value exactly when it is one whole item of
/// the comma-separated list, whatever the numeric order.
pub proof fn lemma_in_operator(value: Seq<char>, object: Seq<char>, o: Option<NumOrder>)
    ensures
        !condition_rejects("in"@, value, object, o) <==> exists|i: int|
            0 <= i < split_char(value, ',').len() && #[trigger] split_char(value, ',')[i] == object,
{
    reveal_strlit("gt");
    reveal_strlit("ge");
    reveal_strlit("lt");
    reveal_strlit("le");
    reveal_strlit("ne");
    reveal_strlit("in");
    assert("gt"@[0] == 'g' && "ge"@[0] == 'g' && "lt"@[0] == 'l' && "le"@[0] == 'l');
    assert("ne"@[0] == 'n' && "in"@[0] == 'i');
    if !condition_rejects("in"@, value, object, o) {
        let i = choose|i: int| 0 <= i < split_char(value, ',').len() && split_char(value, ',')[i] == object;
        assert(split_char(value, ',')[i] == object);
    }
}

/// A `condition` element whose opening tag `t` was read before `pos`: its
/// `name` and `op` attributes, and as value the text of the one event at `pos`
/// (empty when that event is not text or cannot be unescaped).  An attribute
/// error is reported as a document error.
pub open spec fn condition_spec(evs: Seq<EventV>, pos: int, t: TagV) -> Result<CondV, ErrV> {
    match tag_attrs(t) {
        Err(e) => Err(ErrV::Parse(e.1)),
        Ok(a) => {
            let value = match ev_at(evs, pos) {
                EventV::Text(raw) => match xml_unescaped(raw) {
                    Ok(v) => v,
                    Err(_) => Seq::empty(),
                },
                _ => Seq::empty(),
            };
            Ok((attr_or_empty(a, "name"@), attr_or_empty(a, "op"@), value))
        },
    }
}

impl Condition {
    /// Parses the `condition` element whose opening tag `tag` was read
    /// before `*pos` (see [`condition_spec`]); reads one event.
    pub fn parse_condition(evs: &Vec<XmlEvent>, pos: &mut usize, tag: &XmlTag) -> (r: Result<
        Condition,
        XMLHandlerError,
    >)
        requires
            crate::xml_handler::events::name_prefix(tag.name@, tag.content@),
        ensures
            match (r, condition_spec(evs_view(evs@), *old(pos) as int, tag_view(*tag))) {
                (Ok(x), Ok(v)) => cond_view(x) == v,
                (Err(e), Err(ev)) => e@ == ev,
                _ => false,
            },
            *final(pos) == skip1(evs_view(evs@), *old(pos) as int),
    {
        let attrs = read_attributes(tag);
        let e = event_at(evs, *pos);
        let ghost p0 = *pos;
        match e {
            Some(_) => {
                *pos = *pos + 1;
            },
            None => {},
        }
        assert(*pos == skip1(evs_view(evs@), p0 as int));
        let attrs = match attrs {
            Err(e) => return Err(XMLHandlerError::ParseError { message: e.1 }),
            Ok(a) => a,
        };
        let value = match e {
            Some(XmlEvent::Text(raw)) => match unescape_text(raw.as_str()) {
                Ok(v) => v,
                Err(_) => String::new(),
            },
            _ => String::new(),
        };
        Ok(
            Condition::new(
                attribute_or_empty(&attrs, "name"),
                attribute_or_empty(&attrs, "op"),
                value,
            ),
        )
    }

    /// Creates a condition.
    pub fn new(name: String, op: String, value: String) -> (r: Self)
        ensures
            r.name == name,
            r.op == op,
            r.value == value,
    {
        Condition { name, op, value }
    }
}

/// Whether the text `s` equals the literal `lit`.
pub fn is_literal(s: &String, lit: &str) -> (r: bool)
    ensures
        r == (s@ == lit@),
{
    *s == owned(lit)
}

/// Whether an `in` condition rejects `token` (see [`in_list_rejects`]); every
/// item of the list is compared with it.
pub fn in_list_check(expression: &String, token: &String) -> (r: bool)
    ensures
        r == in_list_rejects(expression@, token@),
{
    let t = chars_of(token.as_str());
    let items = split_char_vec(&chars_of(expression.as_str()), ',');
    let ghost pieces = split_char(expression@, ',');
    let mut i: usize = 0;
    while i < items.len()
        invariant
            pieces == split_char(expression@, ','),
            items@.len() == pieces.len(),
            forall|j: int| 0 <= j < items@.len() ==> (#[trigger] items@[j])@ == pieces[j],
            t@ == token@,
            i <= items.len(),
            forall|j: int| 0 <= j < i ==> pieces[j] != token@,
        decreases items.len() - i,
    {
        if chars_eq(&items[i], &t) {
            assert(items@[i as int]@ == pieces[i as int]);
            assert(pieces.contains(token@));
            return false;
        }
        i = i + 1;
    }
    assert(!pieces.contains(token@));
    true
}

/// Whether `condition` rejects the looked-up `object`; numbers are compared by `compare`.
pub fn condition_check<F: Fn(&str, &str) -> Option<NumOrder>>(
    condition: &Condition,
    object: &String,
    compare: &F,
) -> (r: bool)
    requires
        comparable(*compare),
    ensures
        r == condition_rejects(condition.op@, condition.value@, object@, order_of(*compare)(object@, condition.value@)),
{
    let op = &condition.op;
    if is_literal(op, "ne") {
        condition.value == *object
    } else if is_literal(op, "gt") || is_literal(op, "ge") || is_literal(op, "lt") || is_literal(
        op,
        "le",
    ) {
        let a = object.as_str();
        let b = condition.value.as_str();
        assert(compare.requires((a, b)));
        let found = compare(a, b);
        assert(found == order_of(*compare)(object@, condition.value@));
        match found {
            None => true,
            Some(o) => {
                if is_literal(op, "gt") {
                    o == NumOrder::Less || o == NumOrder::Equal
                } else if is_literal(op, "ge") {
                    o == NumOrder::Less
                } else if is_literal(op, "lt") {
                    o == NumOrder::Greater || o == NumOrder::Equal
                } else {
                    o == NumOrder::Greater
                }
            },
        }
    } else if is_literal(op, "in") {
        in_list_check(&condition.value, object)
    } else if is_literal(op, "regex") {
        false
    } else {
        condition.value != *object
    }
}

} // verus!
