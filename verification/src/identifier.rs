//! Instance identifiers: the window an activity lives in and its slot there.

use vstd::prelude::*;
use vstd::std_specs::cmp::PartialEqSpecImpl;

verus! {

/// What an identifier stands for: a window name and a slot in that window.
pub struct IdView {
    pub window: Seq<char>,
    pub index: nat,
}

/// The identifier of slot `index` in `window`.
pub open spec fn slot_id(window: Seq<char>, index: nat) -> IdView {
    IdView { window: window, index: index }
}

/// Names one activity.
#[derive(Debug)]
pub struct InstanceId {
    pub window_name: String,
    pub instance_index: usize,
}

impl View for InstanceId {
    type V = IdView;

    open spec fn view(&self) -> IdView {
        IdView { window: self.window_name@, index: self.instance_index as nat }
    }
}

impl Clone for InstanceId {
    fn clone(&self) -> (res: Self)
        ensures
            res == *self,
    {
        InstanceId { window_name: self.window_name.clone(), instance_index: self.instance_index }
    }
}

impl PartialEq for InstanceId {
    fn eq(&self, other: &Self) -> (res: bool) {
        self.window_name == other.window_name && self.instance_index == other.instance_index
    }
}

impl PartialEqSpecImpl for InstanceId {
    open spec fn obeys_eq_spec() -> bool {
        true
    }

    open spec fn eq_spec(&self, other: &Self) -> bool {
        self@ == other@
    }
}

impl Eq for InstanceId {

}

impl InstanceId {
    /// The identifier of slot `instance_index` in window `window_name`.
    pub fn new(window_name: &str, instance_index: usize) -> (id: InstanceId)
        ensures
            id@ == slot_id(window_name@, instance_index as nat),
    {
        InstanceId { window_name: window_name.to_owned(), instance_index }
    }
}

/// Why a slot number cannot be read from the metadata of an activity.
#[derive(Debug, PartialEq, Eq, Structural, Clone, Copy)]
pub enum IdentifierError {
    /// The metadata holds no instance entry.
    MissingInstance,
    /// The instance entry is not a slot number.
    MalformedInstance,
}

/// The character is a decimal digit.
pub open spec fn is_digit(c: char) -> bool {
    '0' <= c <= '9'
}

/// The number that a decimal digit stands for.
pub open spec fn digit_value(c: char) -> nat {
    (c as nat - '0' as nat) as nat
}

/// The decimal digit of a number below ten.
pub open spec fn digit_char(d: nat) -> char {
    ('0' as nat + d) as char
}

/// Every character is a decimal digit.
pub open spec fn all_digits(s: Seq<char>) -> bool {
    forall|i: int| 0 <= i < s.len() ==> is_digit(#[trigger] s[i])
}

/// The number that a string of decimal digits stands for.
pub open spec fn decimal_value(s: Seq<char>) -> nat
    decreases s.len(),
{
    if s.len() == 0 {
        0
    } else {
        10 * decimal_value(s.drop_last()) + digit_value(s.last())
    }
}

/// A number in decimal digits, without leading zeros.
pub open spec fn decimal(n: nat) -> Seq<char>
    decreases n,
{
    if n < 10 {
        seq![digit_char(n)]
    } else {
        decimal(n / 10).push(digit_char(n % 10))
    }
}

/// The digits of a slot number as it is written: an optional `+` is not
/// part of them.
pub open spec fn unsigned_digits(s: Seq<char>) -> Seq<char> {
    if s.len() > 0 && s[0] == '+' {
        s.drop_first()
    } else {
        s
    }
}

/// The slot number that a text stands for: an optional `+`, then at least
/// one decimal digit and nothing else, of a value that fits the machine.
pub open spec fn parse_index(s: Seq<char>) -> Option<usize> {
    let digits = unsigned_digits(s);
    if digits.len() > 0 && all_digits(digits) && decimal_value(digits) <= usize::MAX {
        Some(decimal_value(digits) as usize)
    } else {
        None
    }
}

/// The value of a string of digits is at least the value of each of its
/// prefixes.
proof fn lemma_decimal_value_grows(s: Seq<char>, n: int)
    requires
        0 <= n <= s.len(),
    ensures
        decimal_value(s.take(n)) <= decimal_value(s),
    decreases s.len() - n,
{
    if n == s.len() {
        assert(s.take(n) =~= s);
    } else {
        lemma_decimal_value_grows(s, n + 1);
        assert(s.take(n + 1).drop_last() =~= s.take(n));
    }
}

/// Reading a number written in decimal gives the number back.
pub proof fn lemma_decimal_round_trip(n: nat)
    ensures
        decimal(n).len() > 0,
        all_digits(decimal(n)),
        decimal_value(decimal(n)) == n,
        unsigned_digits(decimal(n)) == decimal(n),
    decreases n,
{
    if n < 10 {
        let s = decimal(n);
        assert(s.drop_last() =~= Seq::<char>::empty());
        assert(decimal_value(s.drop_last()) == 0);
        assert(s[0] == digit_char(n));
    } else {
        lemma_decimal_round_trip(n / 10);
        let front = decimal(n / 10);
        let s = decimal(n);
        assert(s.drop_last() =~= front);
        assert(s[0] == front[0]);
        assert forall|i: int| 0 <= i < s.len() implies is_digit(#[trigger] s[i]) by {
            if i < front.len() {
                assert(s[i] == front[i]);
            }
        }
    }
}

/// A slot number written in decimal reads back as itself.
pub proof fn lemma_index_text_round_trip(idx: usize)
    ensures
        parse_index(decimal(idx as nat)) == Some(idx),
{
    lemma_decimal_round_trip(idx as nat);
    let text = decimal(idx as nat);
    assert(unsigned_digits(text) == text);
    assert(decimal_value(text) == idx);
}

/// How many digits have been read after `index` characters.
spec fn digits_seen(index: int, signed: bool) -> int {
    if signed {
        index - 1
    } else {
        index
    }
}

/// The digit that a character stands for, if it is one.
fn digit_of(c: char) -> (res: Option<usize>)
    ensures
        res is Some <==> is_digit(c),
        res matches Some(d) ==> d == digit_value(c),
{
    match c {
        '0' => Some(0),
        '1' => Some(1),
        '2' => Some(2),
        '3' => Some(3),
        '4' => Some(4),
        '5' => Some(5),
        '6' => Some(6),
        '7' => Some(7),
        '8' => Some(8),
        '9' => Some(9),
        _ => None,
    }
}

/// Reads the slot number of an activity from the instance entry of its
/// metadata.
///
/// The entry holds the number in decimal digits, which a `+` may precede.
pub fn get_conf_idx(instance: Option<&str>) -> (res: Result<usize, IdentifierError>)
    ensures
        res == match instance {
            None => Err::<usize, IdentifierError>(IdentifierError::MissingInstance),
            Some(text) => match parse_index(text@) {
                Some(index) => Ok(index),
                None => Err(IdentifierError::MalformedInstance),
            },
        },
{
    let Some(text) = instance else {
        return Err(IdentifierError::MissingInstance);
    };
    let ghost digits = unsigned_digits(text@);
    let mut value: usize = 0;
    let mut signed = false;
    let mut first = true;
    let mut any = false;
    for c in it: text.chars()
        invariant
            instance == Some(text),
            it.seq() == text@,
            digits == unsigned_digits(text@),
            first <==> it.index() == 0,
            signed <==> (it.index() > 0 && text@[0] == '+'),
            any <==> digits_seen(it.index() as int, signed) > 0,
            0 <= digits_seen(it.index() as int, signed) <= digits.len(),
            all_digits(digits.take(digits_seen(it.index() as int, signed))),
            value == decimal_value(digits.take(digits_seen(it.index() as int, signed))),
    {
        let ghost seen = digits_seen(it.index() as int, signed);
        if first && c == '+' {
            signed = true;
            assert(digits.take(0) =~= Seq::<char>::empty());
        } else {
            proof {
                assert(digits[seen] == c);
                assert(digits.take(seen + 1).drop_last() =~= digits.take(seen));
                assert(digits.take(seen + 1).last() == c);
                assert(decimal_value(digits.take(seen + 1)) == 10 * value + digit_value(c));
                lemma_decimal_value_grows(digits, seen + 1);
            }
            let Some(digit) = digit_of(c) else {
                assert(!is_digit(digits[seen]));
                return Err(IdentifierError::MalformedInstance);
            };
            let Some(tens) = value.checked_mul(10) else {
                return Err(IdentifierError::MalformedInstance);
            };
            let Some(next) = tens.checked_add(digit) else {
                return Err(IdentifierError::MalformedInstance);
            };
            proof {
                assert forall|i: int| 0 <= i < seen + 1 implies is_digit(
                    #[trigger] digits.take(seen + 1)[i],
                ) by {
                    if i < seen {
                        assert(digits.take(seen)[i] == digits.take(seen + 1)[i]);
                    }
                }
            }
            value = next;
            any = true;
        }
        first = false;
    }
    assert(digits.take(digits.len() as int) =~= digits);
    if !any {
        return Err(IdentifierError::MalformedInstance);
    }
    Ok(value)
}

/// The slot number of an activity whose instance entry is known to hold
/// one. An entry that is missing or is not a slot number is no input of
/// this function: the caller that cannot rule it out asks [`get_conf_idx`].
pub fn expect_conf_idx(instance: Option<&str>) -> (idx: usize)
    requires
        instance is Some,
        parse_index(instance->Some_0@) is Some,
    ensures
        parse_index(instance->Some_0@) == Some(idx),
{
    match get_conf_idx(instance) {
        Ok(idx) => idx,
        Err(_) => vstd::pervasive::unreached(),
    }
}

impl InstanceId {
    /// The identifier that the metadata of an activity stands for: its
    /// window, the unnamed one where none is given, and the slot number of
    /// its instance entry.
    pub fn from_metadata(window_name: Option<&str>, instance: Option<&str>) -> (res: Result<
        InstanceId,
        IdentifierError,
    >)
        ensures
            match instance {
                None => res == Err::<InstanceId, IdentifierError>(
                    IdentifierError::MissingInstance,
                ),
                Some(text) => match parse_index(text@) {
                    None => res == Err::<InstanceId, IdentifierError>(
                        IdentifierError::MalformedInstance,
                    ),
                    Some(index) => res is Ok && res->Ok_0@ == slot_id(
                        match window_name {
                            Some(name) => name@,
                            None => Seq::empty(),
                        },
                        index as nat,
                    ),
                },
            },
    {
        match get_conf_idx(instance) {
            Err(error) => Err(error),
            Ok(instance_index) => {
                let window_name = match window_name {
                    Some(name) => name.to_owned(),
                    None => String::new(),
                };
                Ok(InstanceId { window_name, instance_index })
            },
        }
    }
}

} // verus!
