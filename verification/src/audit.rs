//! Redaction of structured audit details: every value stored under a key
//! that names a credential is replaced, at every depth, before anything is
//! written to the audit log.

use vstd::prelude::*;
use crate::json::{JsonValue, JsonView, entries_view, items_view, json_view, lemma_entries_view, lemma_items_view};
use crate::patterns::{regex_is_match, regex_match};
use crate::text::owned;

verus! {

/// Keys that name credentials: API keys, authorization, passwords, secrets,
/// tokens, credentials and cookies, in any letter case.
pub const SENSITIVE_KEY_PATTERN: &'static str = "(?i)(api.?key|authorization|password|secret|token|credential|cookie)";

/// The text that replaces a redacted value.
pub const REDACTED: &'static str = "[REDACTED]";

/// Whether the values under this key are hidden. Should the pattern ever fail
/// to compile, every key counts as sensitive, so nothing leaks.
pub open spec fn key_is_sensitive(key: Seq<char>) -> bool {
    regex_match(SENSITIVE_KEY_PATTERN@, key) != Some(false)
}

/// The redaction of a value: objects keep their keys, values under sensitive
/// keys become the text `[REDACTED]`, all other values are redacted in turn;
/// arrays are redacted element by element; scalars stay as they are.
pub open spec fn redacted(v: JsonView) -> JsonView
    decreases v,
{
    match v {
        JsonView::Array(items) => JsonView::Array(redacted_items(items)),
        JsonView::Object(entries) => JsonView::Object(redacted_entries(entries)),
        _ => v,
    }
}

/// Redaction of every element of a sequence of values.
pub open spec fn redacted_items(s: Seq<JsonView>) -> Seq<JsonView>
    decreases s,
{
    if s.len() == 0 {
        Seq::empty()
    } else {
        redacted_items(s.subrange(0, s.len() - 1)).push(redacted(s[s.len() - 1]))
    }
}

/// Redaction of every entry of an object.
pub open spec fn redacted_entries(s: Seq<(Seq<char>, JsonView)>) -> Seq<(Seq<char>, JsonView)>
    decreases s,
{
    if s.len() == 0 {
        Seq::empty()
    } else {
        let last = s[s.len() - 1];
        proof {
            assert(decreases_to!(s => s[s.len() - 1]));
        }
        redacted_entries(s.subrange(0, s.len() - 1)).push(
            if key_is_sensitive(last.0) {
                (last.0, JsonView::Str(REDACTED@))
            } else {
                (last.0, redacted(last.1))
            },
        )
    }
}

/// Redaction of a sequence of values, element by element.
pub proof fn lemma_redacted_items(s: Seq<JsonView>)
    ensures
        redacted_items(s).len() == s.len(),
        forall|i: int| 0 <= i < s.len() ==> #[trigger] redacted_items(s)[i] == redacted(s[i]),
    decreases s.len(),
{
    if s.len() > 0 {
        let t = s.subrange(0, s.len() - 1);
        lemma_redacted_items(t);
        assert forall|i: int| 0 <= i < s.len() implies #[trigger] redacted_items(s)[i] == redacted(
            s[i],
        ) by {
            if i < s.len() - 1 {
                assert(t[i] == s[i]);
            }
        }
    }
}

/// Redaction of a sequence of entries, element by element.
pub proof fn lemma_redacted_entries(s: Seq<(Seq<char>, JsonView)>)
    ensures
        redacted_entries(s).len() == s.len(),
        forall|i: int|
            0 <= i < s.len() ==> #[trigger] redacted_entries(s)[i] == (if key_is_sensitive(s[i].0) {
                (s[i].0, JsonView::Str(REDACTED@))
            } else {
                (s[i].0, redacted(s[i].1))
            }),
    decreases s.len(),
{
    if s.len() > 0 {
        let t = s.subrange(0, s.len() - 1);
        lemma_redacted_entries(t);
        assert forall|i: int| 0 <= i < s.len() implies #[trigger] redacted_entries(s)[i] == (
        if key_is_sensitive(s[i].0) {
            (s[i].0, JsonView::Str(REDACTED@))
        } else {
            (s[i].0, redacted(s[i].1))
        }) by {
            if i < s.len() - 1 {
                assert(t[i] == s[i]);
            }
        }
    }
}

/// Whether the values under this key are hidden (see `key_is_sensitive`).
pub fn is_sensitive_key(key: &str) -> (r: bool)
    ensures
        r == key_is_sensitive(key@),
{
    match regex_is_match(SENSITIVE_KEY_PATTERN, key) {
        Some(found) => found,
        None => true,
    }
}

/// Redacts a value held by reference.
#[verifier::loop_isolation(false)]
fn redact_ref(value: &JsonValue) -> (r: JsonValue)
    ensures
        r@ == redacted(value@),
    decreases value,
{
    match value {
        JsonValue::Null => JsonValue::Null,
        JsonValue::Bool(b) => JsonValue::Bool(*b),
        JsonValue::Number(n) => JsonValue::Number(n.clone()),
        JsonValue::Str(s) => JsonValue::Str(s.clone()),
        JsonValue::Array(items) => {
            let ghost before = items_view(items@);
            assert(value@ == JsonView::Array(before));
            let mut out: Vec<JsonValue> = Vec::new();
            let mut i: usize = 0;
            while i < items.len()
                invariant
                    i <= items.len(),
                    out@.len() == i,
                    forall|j: int| 0 <= j < i ==> json_view(#[trigger] out@[j]) == redacted(json_view(items@[j])),
                decreases items.len() - i,
            {
                assert(decreases_to!(*value => items@[i as int])) by {
                    assert(decreases_to!(*value => *items));
                    assert(decreases_to!(*items => items@));
                }
                let r = redact_ref(&items[i]);
                out.push(r);
                i = i + 1;
            }
            proof {
                lemma_items_view(items@);
                lemma_items_view(out@);
                lemma_redacted_items(before);
                assert(items_view(out@) =~= redacted_items(before));
            }
            JsonValue::Array(out)
        },
        JsonValue::Object(entries) => {
            let ghost before = entries_view(entries@);
            assert(value@ == JsonView::Object(before));
            let mut out: Vec<(String, JsonValue)> = Vec::new();
            let mut i: usize = 0;
            while i < entries.len()
                invariant
                    i <= entries.len(),
                    out@.len() == i,
                    forall|j: int|
                        0 <= j < i ==> (#[trigger] out@[j]).0@ == entries@[j].0@ && json_view(out@[j].1)
                            == (if key_is_sensitive(entries@[j].0@) {
                            JsonView::Str(REDACTED@)
                        } else {
                            redacted(json_view(entries@[j].1))
                        }),
                decreases entries.len() - i,
            {
                let key = entries[i].0.clone();
                if is_sensitive_key(key.as_str()) {
                    out.push((key, JsonValue::Str(owned(REDACTED))));
                } else {
                    assert(decreases_to!(*value => entries@[i as int].1)) by {
                        assert(decreases_to!(*value => *entries));
                        assert(decreases_to!(*entries => entries@));
                        assert(decreases_to!(entries@ => entries@[i as int]));
                        assert(decreases_to!(entries@[i as int] => entries@[i as int].1));
                    }
                    let r = redact_ref(&entries[i].1);
                    out.push((key, r));
                }
                i = i + 1;
            }
            proof {
                lemma_entries_view(entries@);
                lemma_entries_view(out@);
                lemma_redacted_entries(before);
                assert(entries_view(out@) =~= redacted_entries(before));
            }
            JsonValue::Object(out)
        },
    }
}

/// Redacts audit details: values under credential-like keys are replaced by
/// `[REDACTED]` at every depth; everything else is kept.
pub fn redact(value: JsonValue) -> (r: JsonValue)
    ensures
        r@ == redacted(value@),
{
    redact_ref(&value)
}

/// Whether no value under a sensitive key is left visible, at any depth.
pub open spec fn fully_redacted(v: JsonView) -> bool
    decreases v,
{
    match v {
        JsonView::Array(items) => forall|i: int|
            0 <= i < items.len() ==> fully_redacted(#[trigger] items[i]),
        JsonView::Object(entries) => forall|i: int|
            0 <= i < entries.len() ==> {
                &&& key_is_sensitive((#[trigger] entries[i]).0) ==> entries[i].1 == JsonView::Str(REDACTED@)
                &&& fully_redacted(entries[i].1)
            },
        _ => true,
    }
}

/// After redaction no credential-like key holds anything but `[REDACTED]`,
/// however deeply it is nested.
pub proof fn law_redaction_hides_every_secret(v: JsonView)
    ensures
        fully_redacted(redacted(v)),
    decreases v,
{
    match v {
        JsonView::Array(items) => {
            lemma_redacted_items(items);
            let out = redacted_items(items);
            assert forall|i: int| 0 <= i < out.len() implies fully_redacted(#[trigger] out[i]) by {
                law_redaction_hides_every_secret(items[i]);
            }
        },
        JsonView::Object(entries) => {
            lemma_redacted_entries(entries);
            let out = redacted_entries(entries);
            assert forall|i: int| 0 <= i < out.len() implies {
                &&& key_is_sensitive((#[trigger] out[i]).0) ==> out[i].1 == JsonView::Str(REDACTED@)
                &&& fully_redacted(out[i].1)
            } by {
                assert(decreases_to!(entries => entries[i].1)) by {
                    assert(decreases_to!(entries[i] => entries[i].1));
                }
                law_redaction_hides_every_secret(entries[i].1);
            }
        },
        _ => {},
    }
}

/// Redacting twice is the same as redacting once.
pub proof fn law_redaction_idempotent(v: JsonView)
    ensures
        redacted(redacted(v)) == redacted(v),
    decreases v,
{
    match v {
        JsonView::Array(items) => {
            let once = redacted_items(items);
            lemma_redacted_items(items);
            lemma_redacted_items(once);
            assert forall|i: int| 0 <= i < items.len() implies #[trigger] redacted_items(once)[i]
                == once[i] by {
                law_redaction_idempotent(items[i]);
            }
            assert(redacted_items(once) =~= once);
        },
        JsonView::Object(entries) => {
            let once = redacted_entries(entries);
            lemma_redacted_entries(entries);
            lemma_redacted_entries(once);
            assert forall|i: int| 0 <= i < entries.len() implies #[trigger] redacted_entries(once)[i]
                == once[i] by {
                if !key_is_sensitive(entries[i].0) {
                    assert(decreases_to!(entries => entries[i].1)) by {
                        assert(decreases_to!(entries[i] => entries[i].1));
                    }
                    law_redaction_idempotent(entries[i].1);
                }
            }
            assert(redacted_entries(once) =~= once);
        },
        _ => {},
    }
}

/// Redaction keeps the shape of an object: the same keys in the same order.
pub proof fn law_redaction_keeps_keys(entries: Seq<(Seq<char>, JsonView)>)
    ensures
        redacted(JsonView::Object(entries)) matches JsonView::Object(out) && out.len() == entries.len()
            && forall|i: int| 0 <= i < entries.len() ==> #[trigger] out[i].0 == entries[i].0,
{
    lemma_redacted_entries(entries);
}

/// Values that are neither arrays nor objects are never changed.
pub proof fn law_redaction_keeps_scalars(v: JsonView)
    requires
        !(v is Array),
        !(v is Object),
    ensures
        redacted(v) == v,
{
}

/// `w` has the shape of `v`: at every depth each array keeps its length and
/// each object its keys in order; the value under a sensitive key may be
/// replaced, and everything else is the same.
pub open spec fn shape_kept(v: JsonView, w: JsonView) -> bool
    decreases v,
{
    match v {
        JsonView::Array(items) => w matches JsonView::Array(out) && out.len() == items.len()
            && forall|i: int| 0 <= i < items.len() ==> shape_kept(#[trigger] items[i], out[i]),
        JsonView::Object(entries) => w matches JsonView::Object(out) && out.len() == entries.len()
            && forall|i: int| 0 <= i < entries.len() ==> {
                &&& out[i].0 == (#[trigger] entries[i]).0
                &&& key_is_sensitive(entries[i].0) || shape_kept(entries[i].1, out[i].1)
            },
        _ => w == v,
    }
}

/// Redaction keeps the shape of every value at every depth: arrays keep
/// their lengths, objects their keys, scalars their values; only what
/// stands under a sensitive key is replaced.
pub proof fn law_redaction_keeps_shape(v: JsonView)
    ensures
        shape_kept(v, redacted(v)),
    decreases v,
{
    match v {
        JsonView::Array(items) => {
            lemma_redacted_items(items);
            let out = redacted_items(items);
            assert forall|i: int| 0 <= i < items.len() implies shape_kept(#[trigger] items[i], out[i]) by {
                law_redaction_keeps_shape(items[i]);
            }
        },
        JsonView::Object(entries) => {
            lemma_redacted_entries(entries);
            let out = redacted_entries(entries);
            assert forall|i: int| 0 <= i < entries.len() implies {
                &&& out[i].0 == (#[trigger] entries[i]).0
                &&& key_is_sensitive(entries[i].0) || shape_kept(entries[i].1, out[i].1)
            } by {
                if !key_is_sensitive(entries[i].0) {
                    assert(decreases_to!(entries => entries[i].1)) by {
                        assert(decreases_to!(entries[i] => entries[i].1));
                    }
                    law_redaction_keeps_shape(entries[i].1);
                }
            }
        },
        _ => {},
    }
}

} // verus!
