//! Structured JSON data held as plain values, with its mathematical view.
//! Numbers are kept as their decimal text, so nothing is lost or rounded.

use vstd::prelude::*;
use crate::text::{chars_of, decimal, decimal_digit, same_chars};

verus! {

/// A JSON value. Objects keep their entries in order.
#[derive(Debug)]
pub enum JsonValue {
    Null,
    Bool(bool),
    Number(String),
    Str(String),
    Array(Vec<JsonValue>),
    Object(Vec<(String, JsonValue)>),
}

/// The mathematical value of a JSON value.
pub enum JsonView {
    Null,
    Bool(bool),
    Number(Seq<char>),
    Str(Seq<char>),
    Array(Seq<JsonView>),
    Object(Seq<(Seq<char>, JsonView)>),
}

/// The view of one value.
pub open spec fn json_view(v: JsonValue) -> JsonView
    decreases v,
{
    match v {
        JsonValue::Null => JsonView::Null,
        JsonValue::Bool(b) => JsonView::Bool(b),
        JsonValue::Number(n) => JsonView::Number(n@),
        JsonValue::Str(s) => JsonView::Str(s@),
        JsonValue::Array(items) => JsonView::Array(items_view(items@)),
        JsonValue::Object(entries) => JsonView::Object(entries_view(entries@)),
    }
}

/// The views of a sequence of values.
pub open spec fn items_view(s: Seq<JsonValue>) -> Seq<JsonView>
    decreases s,
{
    if s.len() == 0 {
        Seq::empty()
    } else {
        items_view(s.subrange(0, s.len() - 1)).push(json_view(s[s.len() - 1]))
    }
}

/// The views of a sequence of object entries.
pub open spec fn entries_view(s: Seq<(String, JsonValue)>) -> Seq<(Seq<char>, JsonView)>
    decreases s,
{
    if s.len() == 0 {
        Seq::empty()
    } else {
        let last = s[s.len() - 1];
        proof {
            assert(decreases_to!(s => s[s.len() - 1]));
        }
        entries_view(s.subrange(0, s.len() - 1)).push((last.0@, json_view(last.1)))
    }
}

impl View for JsonValue {
    type V = JsonView;

    open spec fn view(&self) -> JsonView {
        json_view(*self)
    }
}

/// The view of a sequence of values, element by element.
pub proof fn lemma_items_view(s: Seq<JsonValue>)
    ensures
        items_view(s).len() == s.len(),
        forall|i: int| 0 <= i < s.len() ==> #[trigger] items_view(s)[i] == json_view(s[i]),
    decreases s.len(),
{
    if s.len() > 0 {
        let t = s.subrange(0, s.len() - 1);
        lemma_items_view(t);
        assert forall|i: int| 0 <= i < s.len() implies #[trigger] items_view(s)[i] == json_view(
            s[i],
        ) by {
            if i < s.len() - 1 {
                assert(t[i] == s[i]);
            }
        }
    }
}

/// The view of a sequence of entries, element by element.
pub proof fn lemma_entries_view(s: Seq<(String, JsonValue)>)
    ensures
        entries_view(s).len() == s.len(),
        forall|i: int|
            0 <= i < s.len() ==> #[trigger] entries_view(s)[i] == (s[i].0@, json_view(s[i].1)),
    decreases s.len(),
{
    if s.len() > 0 {
        let t = s.subrange(0, s.len() - 1);
        lemma_entries_view(t);
        assert forall|i: int| 0 <= i < s.len() implies #[trigger] entries_view(s)[i] == (
            s[i].0@,
            json_view(s[i].1),
        ) by {
            if i < s.len() - 1 {
                assert(t[i] == s[i]);
            }
        }
    }
}

/// The first entry of an object view with the given key, if any.
pub open spec fn lookup(entries: Seq<(Seq<char>, JsonView)>, key: Seq<char>) -> Option<JsonView> {
    if exists|i: int| 0 <= i < entries.len() && entries[i].0 == key {
        let i = choose|i: int|
            0 <= i < entries.len() && entries[i].0 == key && forall|j: int|
                0 <= j < i ==> entries[j].0 != key;
        Some(entries[i].1)
    } else {
        None
    }
}

impl JsonValue {
    /// The value of the first entry with this key, when `self` is an object
    /// that has one (`serde_json::Value::get` with a string key).
    pub fn get(&self, key: &str) -> (r: Option<&JsonValue>)
        ensures
            r matches Some(v) ==> self@ matches JsonView::Object(e) && lookup(e, key@) == Some(v@),
            r is None ==> !(self@ matches JsonView::Object(e) && lookup(e, key@) is Some),
    {
        match self {
            JsonValue::Object(entries) => {
                proof {
                    lemma_entries_view(entries@);
                }
                let ghost ev = entries_view(entries@);
                let k = chars_of(key);
                assert(self@ == JsonView::Object(ev));
                let mut i: usize = 0;
                while i < entries.len()
                    invariant
                        i <= entries.len(),
                        ev == entries_view(entries@),
                        self@ == JsonView::Object(ev),
                        ev.len() == entries@.len(),
                        k@ == key@,
                        forall|j: int| 0 <= j < entries@.len() ==> #[trigger] ev[j] == (entries@[j].0@, json_view(entries@[j].1)),
                        forall|j: int| 0 <= j < i ==> ev[j].0 != key@,
                    decreases entries.len() - i,
                {
                    let name = chars_of(entries[i].0.as_str());
                    if same_chars(&name, &k) {
                        proof {
                            assert(ev[i as int].0 == key@);
                            assert(exists|w: int| 0 <= w < ev.len() && ev[w].0 == key@);
                            assert(0 <= i < ev.len() && ev[i as int].0 == key@ && forall|j: int|
                                0 <= j < i ==> ev[j].0 != key@);
                            let w = choose|w: int|
                                0 <= w < ev.len() && ev[w].0 == key@ && forall|j: int|
                                    0 <= j < w ==> ev[j].0 != key@;
                            assert(w == i) by {
                                if w > i {
                                    assert(ev[i as int].0 != key@);
                                }
                            }
                        }
                        return Some(&entries[i].1);
                    }
                    i = i + 1;
                }
                None
            },
            _ => None,
        }
    }

    /// The text of a string value.
    pub fn as_str(&self) -> (r: Option<&String>)
        ensures
            r matches Some(s) ==> self@ == JsonView::Str(s@),
            r is None ==> !(self@ is Str),
    {
        match self {
            JsonValue::Str(s) => Some(s),
            _ => None,
        }
    }
}


impl JsonValue {
    /// The items of an array value.
    pub fn as_array(&self) -> (r: Option<&Vec<JsonValue>>)
        ensures
            r matches Some(items) ==> self@ == JsonView::Array(items_view(items@)),
            r is None ==> !(self@ is Array),
    {
        match self {
            JsonValue::Array(items) => Some(items),
            _ => None,
        }
    }

    /// The truth value of a boolean value.
    pub fn as_bool(&self) -> (r: Option<bool>)
        ensures
            r matches Some(b) ==> self@ == JsonView::Bool(b),
            r is None ==> !(self@ is Bool),
    {
        match self {
            JsonValue::Bool(b) => Some(*b),
            _ => None,
        }
    }
}

/// A copy of a JSON value.
pub fn copy_json(v: &JsonValue) -> (r: JsonValue)
    ensures
        r@ == v@,
    decreases v,
{
    match v {
        JsonValue::Null => JsonValue::Null,
        JsonValue::Bool(b) => JsonValue::Bool(*b),
        JsonValue::Number(n) => JsonValue::Number(n.clone()),
        JsonValue::Str(s) => JsonValue::Str(s.clone()),
        JsonValue::Array(items) => {
            let mut out: Vec<JsonValue> = Vec::new();
            let mut i: usize = 0;
            proof {
                lemma_items_view(items@);
            }
            while i < items.len()
                invariant
                    i <= items.len(),
                    *v == JsonValue::Array(*items),
                    out@.len() == i,
                    forall|j: int| 0 <= j < i ==> #[trigger] json_view(out@[j]) == json_view(items@[j]),
                decreases items.len() - i,
            {
                proof {
                    assert(decreases_to!(*v => (*v)->Array_0));
                    assert(decreases_to!(*items => items@));
                    assert(decreases_to!(items@ => items@[i as int]));
                }
                let c = copy_json(&items[i]);
                out.push(c);
                i = i + 1;
            }
            proof {
                lemma_items_view(out@);
                assert(items_view(out@) =~= items_view(items@));
            }
            JsonValue::Array(out)
        },
        JsonValue::Object(entries) => {
            let mut out: Vec<(String, JsonValue)> = Vec::new();
            let mut i: usize = 0;
            proof {
                lemma_entries_view(entries@);
            }
            while i < entries.len()
                invariant
                    i <= entries.len(),
                    *v == JsonValue::Object(*entries),
                    out@.len() == i,
                    forall|j: int| 0 <= j < i ==> (#[trigger] out@[j]).0@ == entries@[j].0@ && json_view(out@[j].1) == json_view(entries@[j].1),
                decreases entries.len() - i,
            {
                proof {
                    assert(decreases_to!(*v => (*v)->Object_0));
                    assert(decreases_to!(*entries => entries@));
                    assert(decreases_to!(entries@ => entries@[i as int]));
                    assert(decreases_to!(entries@[i as int] => entries@[i as int].1));
                }
                let c = copy_json(&entries[i].1);
                out.push((entries[i].0.clone(), c));
                i = i + 1;
            }
            proof {
                lemma_entries_view(out@);
                assert(entries_view(out@) =~= entries_view(entries@));
            }
            JsonValue::Object(out)
        },
    }
}

/// The text is a non-empty run of decimal digits.
pub open spec fn all_digits(s: Seq<char>) -> bool {
    s.len() > 0 && forall|i: int| 0 <= i < s.len() ==> '0' <= #[trigger] s[i] <= '9'
}

/// The value of a run of decimal digits.
pub open spec fn digits_value(s: Seq<char>) -> nat
    decreases s.len(),
{
    if s.len() == 0 {
        0
    } else {
        digits_value(s.drop_last()) * 10 + (s.last() as nat - 48) as nat
    }
}

/// The unsigned 64-bit integer that a number's text denotes, if it is one
/// (`serde_json::Value::as_u64`: a non-negative integer that fits).
pub open spec fn unsigned_of(text: Seq<char>) -> Option<u64> {
    if all_digits(text) && digits_value(text) <= u64::MAX {
        Some(digits_value(text) as u64)
    } else {
        None
    }
}

proof fn lemma_digits_value_grows(s: Seq<char>, i: int)
    requires
        all_digits(s),
        0 <= i <= s.len(),
    ensures
        digits_value(s.subrange(0, i)) <= digits_value(s),
    decreases s.len() - i,
{
    if i < s.len() {
        let t = s.subrange(0, i + 1);
        assert(t.drop_last() =~= s.subrange(0, i));
        assert(t.last() == s[i]);
        assert('0' <= s[i]);
        assert(digits_value(t) == digits_value(s.subrange(0, i)) * 10 + (s[i] as nat - 48) as nat);
        lemma_digits_value_grows(s, i + 1);
    } else {
        assert(s.subrange(0, i) =~= s);
    }
}

impl JsonValue {
    /// The value as an unsigned 64-bit integer, when it is a number that is one.
    pub fn as_u64(&self) -> (r: Option<u64>)
        ensures
            r == (match self@ {
                JsonView::Number(t) => unsigned_of(t),
                _ => None,
            }),
    {
        match self {
            JsonValue::Number(t) => {
                let c = chars_of(t.as_str());
                if c.len() == 0 {
                    return None;
                }
                let mut acc: u64 = 0;
                let mut i: usize = 0;
                while i < c.len()
                    invariant
                        i <= c.len(),
                        c@ == t@,
                        self@ == JsonView::Number(t@),
                        c@.len() > 0,
                        forall|j: int| 0 <= j < i ==> '0' <= #[trigger] c@[j] <= '9',
                        acc == digits_value(c@.subrange(0, i as int)),
                    decreases c.len() - i,
                {
                    let ch = c[i];
                    if ch < '0' || ch > '9' {
                        assert(!all_digits(c@));
                        return None;
                    }
                    let d: u64 = (ch as u32 - 48) as u64;
                    let ghost pre = c@.subrange(0, i + 1);
                    assert(pre.drop_last() =~= c@.subrange(0, i as int));
                    assert(pre.last() == ch);
                    assert(digits_value(pre) == acc * 10 + d);
                    match acc.checked_mul(10) {
                        Some(m) => match m.checked_add(d) {
                            Some(n) => {
                                acc = n;
                            },
                            None => {
                                proof {
                                    if all_digits(c@) {
                                        lemma_digits_value_grows(c@, i + 1);
                                    }
                                }
                                return None;
                            },
                        },
                        None => {
                            proof {
                                if all_digits(c@) {
                                    lemma_digits_value_grows(c@, i + 1);
                                }
                            }
                            return None;
                        },
                    }
                    i = i + 1;
                }
                assert(c@.subrange(0, c@.len() as int) =~= c@);
                Some(acc)
            },
            _ => None,
        }
    }
}

/// The value under `key` when `v` is an object that has one.
pub open spec fn field(v: JsonView, key: Seq<char>) -> Option<JsonView> {
    match v {
        JsonView::Object(e) => lookup(e, key),
        _ => None,
    }
}

/// The value under `key` of the value found, if any.
pub open spec fn field_of(v: Option<JsonView>, key: Seq<char>) -> Option<JsonView> {
    match v {
        Some(w) => field(w, key),
        None => None,
    }
}

/// The text of the value found, when it is a string.
pub open spec fn str_of(v: Option<JsonView>) -> Option<Seq<char>> {
    match v {
        Some(JsonView::Str(s)) => Some(s),
        _ => None,
    }
}

/// The value found, or null.
pub open spec fn or_null(v: Option<JsonView>) -> JsonView {
    match v {
        Some(w) => w,
        None => JsonView::Null,
    }
}

/// A number written in decimal reads back as itself: the text of `n` is a
/// run of digits whose value is `n`.
pub proof fn law_decimal_reads_back(n: nat)
    ensures
        all_digits(decimal(n)),
        digits_value(decimal(n)) == n,
    decreases n,
{
    let s = decimal(n);
    let d = decimal_digit(n % 10);
    assert((((n % 10) + 48) as u8) as nat == (n % 10) + 48);
    assert(d as nat == (n % 10) + 48);
    if n < 10 {
        assert(s == seq![d]);
        assert(s.drop_last() =~= Seq::<char>::empty());
        assert(s.last() == d);
        assert(digits_value(s) == digits_value(s.drop_last()) * 10 + (d as nat - 48) as nat);
    } else {
        law_decimal_reads_back(n / 10);
        let t = decimal(n / 10);
        assert(s == t.push(d));
        assert(s.drop_last() =~= t);
        assert(s.last() == d);
        assert(digits_value(s) == digits_value(t) * 10 + (d as nat - 48) as nat);
        assert(n == (n / 10) * 10 + n % 10) by (nonlinear_arith);
        assert forall|i: int| 0 <= i < s.len() implies '0' <= #[trigger] s[i] <= '9' by {
            if i < t.len() {
                assert(s[i] == t[i]);
            }
        }
    }
}

/// The unsigned integer written in decimal reads back as itself.
pub proof fn law_unsigned_reads_back(n: u64)
    ensures
        unsigned_of(decimal(n as nat)) == Some(n),
{
    law_decimal_reads_back(n as nat);
}

} // verus!
