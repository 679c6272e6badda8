//! The trusted boundary to the template engine.  A rendering context is a
//! JSON object whose values are strings or nested objects of strings; its
//! mathematical model is the flat map from dotted paths to string values,
//! which is exactly how the engine's `{{a.b}}` lookups address it.  Every
//! key inserted at any level is dot-free and every nested object is
//! non-empty, so the flat model determines the physical nesting uniquely and
//! rendering is a function of the template text and the flat entries alone.

use vstd::prelude::*;

verus! {

#[verifier::external_type_specification]
#[verifier::external_body]
#[verifier::reject_recursive_types(K)]
#[verifier::reject_recursive_types(V)]
pub struct ExJsonMap<K, V>(serde_json::Map<K, V>);

#[verifier::external_type_specification]
#[verifier::external_body]
pub struct ExJsonValue(serde_json::Value);

#[verifier::external_type_specification]
#[verifier::external_body]
pub struct ExRenderError(handlebars::RenderError);

/// The flat contents of a context object: each string value under its key,
/// each value of a nested object under `<key>.<subkey>`.
pub uninterp spec fn jmap_entries(m: ContextData) -> Map<Seq<char>, Seq<char>>;

/// The flat contents of an object with no entries.
pub open spec fn empty_entries() -> Map<Seq<char>, Seq<char>> {
    Map::empty()
}

/// `k` holds no dot, as every key of a context level must.
pub open spec fn dot_free(k: Seq<char>) -> bool {
    forall|i: int| 0 <= i < k.len() ==> k[i] != '.'
}

/// `k` is the key itself or a dotted path below it.
pub open spec fn key_under(key: Seq<char>, k: Seq<char>) -> bool {
    k == key || (k.len() > key.len() + 1 && k.take(key.len() as int) == key && k[key.len() as int]
        == '.')
}

/// The entries of a nested object lifted below `key`: its entry `p` appears
/// at `key + "." + p`.
pub open spec fn prefixed_entries(key: Seq<char>, m: Map<Seq<char>, Seq<char>>) -> Map<
    Seq<char>,
    Seq<char>,
> {
    Map::new(
        |k: Seq<char>|
            k.len() > key.len() + 1 && k.take(key.len() as int) == key && k[key.len() as int] == '.'
                && m.dom().contains(k.skip(key.len() as int + 1)),
        |k: Seq<char>| m[k.skip(key.len() as int + 1)],
    )
}

/// A rendering context: a JSON object of strings and nested string objects.
pub type ContextData = serde_json::Map<String, serde_json::Value>;

/// Relies on serde_json::Map::new: the fresh object holds no entries.
#[verifier::external_body]
pub(crate) fn jmap_new() -> (fresh: ContextData)
    ensures
        jmap_entries(fresh) == empty_entries(),
{
    serde_json::Map::new()
}

/// Relies on serde_json::Map::insert with a string value: it adds exactly
/// the one flat entry.  The key is dot-free and nothing lies at or below it
/// yet, so no other entry is touched.
#[verifier::external_body]
pub(crate) fn jmap_insert_str(
    m: &mut ContextData,
    key: &str,
    value: String,
)
    requires
        dot_free(key@),
        forall|k: Seq<char>| jmap_entries(*old(m)).dom().contains(k) ==> !key_under(key@, k),
    ensures
        jmap_entries(*final(m)) == jmap_entries(*old(m)).insert(key@, value@),
{
    m.insert(key.to_string(), serde_json::Value::String(value));
}

/// Relies on serde_json::Map::insert with an object value: every entry of
/// the nested object becomes reachable below `<key>.`.  The key is dot-free,
/// nothing lies at or below it yet, and the nested object is non-empty, so
/// the new flat entries are exactly the old ones plus the lifted ones.
#[verifier::external_body]
pub(crate) fn jmap_insert_obj(
    m: &mut ContextData,
    key: &str,
    sub: ContextData,
)
    requires
        dot_free(key@),
        jmap_entries(sub) != empty_entries(),
        forall|k: Seq<char>| jmap_entries(*old(m)).dom().contains(k) ==> !key_under(key@, k),
    ensures
        jmap_entries(*final(m)) == jmap_entries(*old(m)).union_prefer_right(
            prefixed_entries(key@, jmap_entries(sub)),
        ),
{
    m.insert(key.to_string(), serde_json::Value::Object(sub));
}

/// The text the template engine produces for a template and a context with
/// the given flat entries.
pub uninterp spec fn rendered(template: Seq<char>, entries: Map<Seq<char>, Seq<char>>) -> Seq<char>;

/// Whether the template engine renders a template against a context with
/// the given flat entries, rather than failing (on a syntax error, or in
/// strict mode on a variable the context lacks).
pub uninterp spec fn render_ok(template: Seq<char>, entries: Map<Seq<char>, Seq<char>>) -> bool;

/// Relies on handlebars' Handlebars::render_template, run on a fresh
/// registry in strict mode with HTML escaping disabled: whether rendering
/// succeeds, and on success the output, depend on the template text and the
/// context data alone — the registry is fresh and identically configured on
/// every call, and no environment input reaches the engine.  Referencing a
/// variable the context lacks is an error, never an empty substitution.
#[verifier::external_body]
pub(crate) fn hb_render(
    template: &str,
    data: &ContextData,
) -> (r: Result<String, handlebars::RenderError>)
    ensures
        (r is Ok) == render_ok(template@, jmap_entries(*data)),
        r matches Ok(s) ==> s@ == rendered(template@, jmap_entries(*data)),
{
    let mut reg = handlebars::Handlebars::new();
    reg.set_strict_mode(true);
    reg.register_escape_fn(handlebars::no_escape);
    reg.render_template(template, data)
}

/// Relies on RenderError's Display implementation for the failure message.
#[verifier::external_body]
pub(crate) fn render_error_text(e: &handlebars::RenderError) -> String {
    e.to_string()
}

/// A key that differs from `key` at some position within `key` never lies
/// under `key`.
pub proof fn lemma_not_under_diff(key: Seq<char>, k: Seq<char>, i: int)
    requires
        0 <= i < key.len(),
        i < k.len(),
        k[i] != key[i],
    ensures
        !key_under(key, k),
{
    if k == key {
        assert(k[i] == key[i]);
    }
    if k.len() > key.len() + 1 && k.take(key.len() as int) == key {
        assert(k.take(key.len() as int)[i] == k[i]);
    }
}

/// A key lying under some prefix that differs from `key` within `key` never
/// lies under `key`.
pub proof fn lemma_not_under_via_prefix(key: Seq<char>, pre: Seq<char>, k: Seq<char>, i: int)
    requires
        0 <= i < pre.len(),
        i < key.len(),
        k.len() >= pre.len(),
        k.take(pre.len() as int) == pre,
        pre[i] != key[i],
    ensures
        !key_under(key, k),
{
    assert(k.take(pre.len() as int)[i] == k[i]);
    lemma_not_under_diff(key, k, i);
}

/// A dot-free key other than `key` never lies under `key`.
pub proof fn lemma_not_under_dot_free(key: Seq<char>, k: Seq<char>)
    requires
        dot_free(k),
        k != key,
    ensures
        !key_under(key, k),
{
    if k.len() > key.len() + 1 && k.take(key.len() as int) == key && k[key.len() as int] == '.' {
        assert(k[key.len() as int] != '.');
    }
}

} // verus!
