use vstd::prelude::*;

use crate::json::{JsonModel, JsonValue, items_view, lemma_items_view};

verus! {

broadcast use vstd::std_specs::vec::group_vec_axioms, vstd::seq::group_seq_axioms;

/// A (parameter, value, type) triple to be set on a device.
#[derive(Clone, Debug, PartialEq, Eq)]
pub struct ParameterValue {
    pub parameter: String,
    pub value: String,
    pub value_type: String,
}

/// Whether every character is a decimal digit.
pub open spec fn all_digits(s: Seq<char>) -> bool {
    forall|i: int| 0 <= i < s.len() ==> '0' <= #[trigger] s[i] <= '9'
}

/// The number that a sequence of decimal digits denotes.
pub open spec fn digits_value(s: Seq<char>) -> nat
    decreases s.len(),
{
    if s.len() == 0 {
        0
    } else {
        digits_value(s.drop_last()) * 10 + (s.last() as nat - '0' as nat) as nat
    }
}

/// The digits of an unsigned decimal text: all that follows an optional
/// leading `+`.
pub open spec fn unsigned_digits(s: Seq<char>) -> Seq<char> {
    if s.len() > 0 && s[0] == '+' {
        s.drop_first()
    } else {
        s
    }
}

/// The `u32` that a text denotes, read as std reads one: an optional `+`,
/// then at least one decimal digit, with a value that fits.
pub open spec fn u32_of_text(s: Seq<char>) -> Option<u32> {
    let d = unsigned_digits(s);
    if d.len() > 0 && all_digits(d) && digits_value(d) <= u32::MAX {
        Some(digits_value(d) as u32)
    } else {
        None
    }
}

/// The character of a decimal digit.
pub open spec fn digit_char(d: nat) -> char {
    ('0' as nat + d) as char
}

/// The shortest decimal text of `n`.
pub open spec fn decimal_text(n: nat) -> Seq<char>
    decreases n,
{
    if n < 10 {
        seq![digit_char(n)]
    } else {
        decimal_text(n / 10).push(digit_char(n % 10))
    }
}

/// The JSON value that a parameter's value is sent as: a boolean for a
/// boolean type and a number for an unsigned-integer type, where the text
/// reads as one; a string otherwise.
pub open spec fn coerced_value(value: Seq<char>, value_type: Seq<char>) -> JsonModel {
    if value_type == "xsd:boolean"@ && (value == "true"@ || value == "false"@) {
        JsonModel::Bool(value == "true"@)
    } else if value_type == "xsd:unsignedInt"@ && u32_of_text(value) is Some {
        JsonModel::Number(decimal_text(u32_of_text(value).unwrap() as nat))
    } else {
        JsonModel::Str(value)
    }
}

proof fn lemma_digits_value_grows(s: Seq<char>, i: int)
    requires
        0 <= i <= s.len(),
        all_digits(s),
    ensures
        digits_value(s.take(i)) <= digits_value(s),
    decreases s.len() - i,
{
    if i < s.len() {
        lemma_digits_value_grows(s, i + 1);
        let t = s.take(i + 1);
        assert(t.drop_last() =~= s.take(i));
        assert('0' <= t.last() <= '9');
    } else {
        assert(s.take(i) =~= s);
    }
}

/// Reads `s` as std reads a `u32`.
pub fn parse_u32(s: &String) -> (r: Option<u32>)
    ensures
        r == u32_of_text(s@),
{
    let text = s.as_str();
    let n = text.unicode_len();
    let mut start: usize = 0;
    if n > 0 && text.get_char(0) == '+' {
        start = 1;
    }
    let ghost d = unsigned_digits(s@);
    assert(d =~= s@.subrange(start as int, n as int));
    if start >= n {
        return None;
    }
    let mut acc: u64 = 0;
    let mut i: usize = start;
    while i < n
        invariant
            start <= i <= n,
            n == s@.len(),
            text@ == s@,
            d == s@.subrange(start as int, n as int),
            d == unsigned_digits(s@),
            all_digits(d.take(i - start)),
            acc == digits_value(d.take(i - start)),
            acc <= u32::MAX,
        decreases n - i,
    {
        let c = text.get_char(i);
        let ghost t = d.take(i - start + 1);
        assert(t.drop_last() =~= d.take(i - start));
        assert(t.last() == c);
        if c < '0' || c > '9' {
            assert(d[i - start] == c);
            assert(!all_digits(d));
            return None;
        }
        acc = acc * 10 + (c as u64 - '0' as u64);
        assert(acc == digits_value(t));
        if acc > u32::MAX as u64 {
            proof {
                assert forall|j: int| 0 <= j < t.len() implies '0' <= #[trigger] t[j] <= '9' by {
                    if j < t.len() - 1 {
                        assert(t[j] == d.take(i - start)[j]);
                    }
                }
                if all_digits(d) {
                    lemma_digits_value_grows(d, i - start + 1);
                    assert(digits_value(d) > u32::MAX);
                }
            }
            return None;
        }
        i = i + 1;
    }
    assert(d.take(n - start) =~= d);
    Some(acc as u32)
}

fn digit_str(d: u32) -> (r: &'static str)
    requires
        d < 10,
    ensures
        r@ == seq![digit_char(d as nat)],
{
    proof {
        reveal_strlit("0");
        reveal_strlit("1");
        reveal_strlit("2");
        reveal_strlit("3");
        reveal_strlit("4");
        reveal_strlit("5");
        reveal_strlit("6");
        reveal_strlit("7");
        reveal_strlit("8");
        reveal_strlit("9");
    }
    let r = if d == 0 {
        "0"
    } else if d == 1 {
        "1"
    } else if d == 2 {
        "2"
    } else if d == 3 {
        "3"
    } else if d == 4 {
        "4"
    } else if d == 5 {
        "5"
    } else if d == 6 {
        "6"
    } else if d == 7 {
        "7"
    } else if d == 8 {
        "8"
    } else {
        "9"
    };
    assert(r@ =~= seq![digit_char(d as nat)]);
    r
}

/// The shortest decimal text of `n`.
pub fn decimal_string(n: u32) -> (r: String)
    ensures
        r@ == decimal_text(n as nat),
    decreases n,
{
    if n < 10 {
        String::from_str(digit_str(n))
    } else {
        let mut r = decimal_string(n / 10);
        r.append(digit_str(n % 10));
        r
    }
}

impl ParameterValue {
    /// A triple from its three parts.
    pub fn new(parameter: &str, value: &str, value_type: &str) -> (r: ParameterValue)
        ensures
            r.parameter@ == parameter@,
            r.value@ == value@,
            r.value_type@ == value_type@,
    {
        ParameterValue {
            parameter: parameter.to_string(),
            value: value.to_string(),
            value_type: value_type.to_string(),
        }
    }

    /// The three parts, in the order parameter, value, type.
    pub fn to_value(&self) -> (r: Vec<String>)
        ensures
            r@.len() == 3,
            r@[0]@ == self.parameter@,
            r@[1]@ == self.value@,
            r@[2]@ == self.value_type@,
    {
        let mut r: Vec<String> = Vec::new();
        r.push(self.parameter.clone());
        r.push(self.value.clone());
        r.push(self.value_type.clone());
        r
    }

    /// The entry sent for this triple: the pair of the parameter's name and
    /// its value, coerced by the type.
    pub fn to_json(&self) -> (r: JsonValue)
        ensures
            r@ == JsonModel::Array(
                seq![
                    JsonModel::Str(self.parameter@),
                    coerced_value(self.value@, self.value_type@),
                ],
            ),
    {
        let value = if self.value_type == "xsd:boolean".to_string() && (self.value
            == "true".to_string() || self.value == "false".to_string()) {
            JsonValue::Bool(self.value == "true".to_string())
        } else if self.value_type == "xsd:unsignedInt".to_string() {
            match parse_u32(&self.value) {
                Some(n) => JsonValue::Number(decimal_string(n)),
                None => JsonValue::Str(self.value.clone()),
            }
        } else {
            JsonValue::Str(self.value.clone())
        };
        let items = vec![JsonValue::Str(self.parameter.clone()), value];
        proof {
            lemma_items_view(items@);
        }
        let r = JsonValue::Array(items);
        assert(items_view(items@) =~= seq![
            JsonModel::Str(self.parameter@),
            coerced_value(self.value@, self.value_type@),
        ]);
        r
    }
}

} // verus!
