use vstd::prelude::*;
use crate::fields::{
    distinct_keys, has_key, lemma_pairs_view_index, lemma_upsert_all_distinct, lemma_upsert_all_identity,
    pairs_view, upsert_all, FieldMap,
};

verus! {

/// A value of a structured-text mapping, as the detector reads it.
pub enum YamlScalar {
    Text(String),
    Bool(bool),
    /// A number in its textual form.
    Number(String),
    /// Any other value, serialized back to structured text.
    Complex(String),
}

/// The model of a [`YamlScalar`].
pub ghost enum YamlItem {
    Text(Seq<char>),
    Bool(bool),
    Number(Seq<char>),
    Complex(Seq<char>),
}

impl View for YamlScalar {
    type V = YamlItem;

    open spec fn view(&self) -> YamlItem {
        match self {
            YamlScalar::Text(s) => YamlItem::Text(s@),
            YamlScalar::Bool(b) => YamlItem::Bool(*b),
            YamlScalar::Number(s) => YamlItem::Number(s@),
            YamlScalar::Complex(s) => YamlItem::Complex(s@),
        }
    }
}

pub open spec fn key_view(k: Option<String>) -> Option<Seq<char>> {
    match k {
        Some(s) => Some(s@),
        None => None,
    }
}

pub open spec fn entries_view(v: Seq<(Option<String>, YamlScalar)>) -> Seq<(Option<Seq<char>>, YamlItem)> {
    v.map_values(|e: (Option<String>, YamlScalar)| (key_view(e.0), e.1@))
}

/// The members of `raw` when it parses as a JSON object, in document order: each name
/// with its string value, or with its JSON text for any other value. `None` when `raw`
/// is no JSON object.
pub uninterp spec fn json_object_of(raw: Seq<char>) -> Option<Seq<(Seq<char>, Seq<char>)>>;

/// The entries of `raw` when it parses as a YAML mapping, in document order: the key
/// when it is a string, and the value.
pub uninterp spec fn yaml_mapping_of(raw: Seq<char>) -> Option<Seq<(Option<Seq<char>>, YamlItem)>>;

/// `s` without leading and trailing whitespace.
pub uninterp spec fn trim_of(s: Seq<char>) -> Seq<char>;

/// Relies on serde_json::from_str to parse `raw` and on serde_json::Value's `Display`
/// for the text of members that are no strings. serde_json's `Map` holds each name once.
#[verifier::external_body]
fn json_object_fields(raw: &str) -> (r: Option<Vec<(String, String)>>)
    ensures
        match r {
            Some(v) => json_object_of(raw@) == Some(pairs_view(v@)) && distinct_keys(pairs_view(v@)),
            None => json_object_of(raw@) is None,
        },
{
    match serde_json::from_str::<serde_json::Value>(raw) {
        Ok(serde_json::Value::Object(map)) => Some(map.into_iter().map(|(k, v)| match v {
            serde_json::Value::String(s) => (k, s),
            other => (k, other.to_string()),
        }).collect()),
        _ => None,
    }
}

/// Relies on serde_yaml::from_str to parse `raw`, on serde_yaml::Value::as_str for string
/// keys, on serde_yaml::Number's `Display` and on serde_yaml::to_string for other values.
#[verifier::external_body]
fn yaml_mapping_entries(raw: &str) -> (r: Option<Vec<(Option<String>, YamlScalar)>>)
    ensures
        match r {
            Some(v) => yaml_mapping_of(raw@) == Some(entries_view(v@)),
            None => yaml_mapping_of(raw@) is None,
        },
{
    match serde_yaml::from_str::<serde_yaml::Value>(raw) {
        Ok(serde_yaml::Value::Mapping(map)) => Some(map.into_iter().map(|(k, v)| (k.as_str().map(str::to_owned), match v {
            serde_yaml::Value::String(s) => YamlScalar::Text(s),
            serde_yaml::Value::Bool(b) => YamlScalar::Bool(b),
            serde_yaml::Value::Number(n) => YamlScalar::Number(n.to_string()),
            other => YamlScalar::Complex(serde_yaml::to_string(&other).unwrap_or_default()),
        })).collect()),
        _ => None,
    }
}

/// Relies on str::trim.
#[verifier::external_body]
fn trimmed(s: &str) -> (r: String)
    ensures
        r@ == trim_of(s@),
{
    s.trim().to_owned()
}

/// The text a mapping value is stored as.
pub open spec fn yaml_text(it: YamlItem) -> Seq<char> {
    match it {
        YamlItem::Text(s) => s,
        YamlItem::Bool(b) => if b { seq!['t', 'r', 'u', 'e'] } else { seq!['f', 'a', 'l', 's', 'e'] },
        YamlItem::Number(s) => s,
        YamlItem::Complex(s) => trim_of(s),
    }
}

/// The `(name, text)` pairs of the string-keyed entries, in order.
pub open spec fn yaml_pairs(es: Seq<(Option<Seq<char>>, YamlItem)>) -> Seq<(Seq<char>, Seq<char>)>
    decreases es.len(),
{
    if es.len() == 0 {
        Seq::empty()
    } else {
        let prev = yaml_pairs(es.drop_last());
        match es.last().0 {
            Some(k) => prev.push((k, yaml_text(es.last().1))),
            None => prev,
        }
    }
}

/// The fields read from `raw` as a JSON object, else as a YAML mapping; empty when it is
/// neither.
pub open spec fn structured_fields(raw: Seq<char>) -> Seq<(Seq<char>, Seq<char>)> {
    match json_object_of(raw) {
        Some(ms) => upsert_all(ms),
        None => match yaml_mapping_of(raw) {
            Some(es) => upsert_all(yaml_pairs(es)),
            None => Seq::empty(),
        },
    }
}

/// The single field `value` holding `raw`.
pub open spec fn scalar_fields(raw: Seq<char>) -> Seq<(Seq<char>, Seq<char>)> {
    seq![(seq!['v', 'a', 'l', 'u', 'e'], raw)]
}

/// The field set stored for the raw secret value `raw`.
pub open spec fn detect_spec(raw: Seq<char>) -> Seq<(Seq<char>, Seq<char>)> {
    let s = structured_fields(raw);
    if s.len() > 0 {
        s
    } else {
        scalar_fields(raw)
    }
}

/// A JSON object with at least one member gives one field per member, with the member's
/// name and its text, in document order.
pub proof fn lemma_detect_json_object(raw: Seq<char>)
    requires
        json_object_of(raw) is Some,
        json_object_of(raw)->0.len() > 0,
        distinct_keys(json_object_of(raw)->0),
    ensures
        detect_spec(raw) == json_object_of(raw)->0,
{
    lemma_upsert_all_identity(json_object_of(raw)->0);
}

/// A YAML mapping that is no JSON object and has a string-keyed entry gives one field
/// per string-keyed entry, with strings as they are, booleans and numbers as text, and
/// other values as trimmed structured text.
pub proof fn lemma_detect_yaml_mapping(raw: Seq<char>)
    requires
        json_object_of(raw) is None,
        yaml_mapping_of(raw) is Some,
        yaml_pairs(yaml_mapping_of(raw)->0).len() > 0,
        distinct_keys(yaml_pairs(yaml_mapping_of(raw)->0)),
    ensures
        detect_spec(raw) == yaml_pairs(yaml_mapping_of(raw)->0),
{
    lemma_upsert_all_identity(yaml_pairs(yaml_mapping_of(raw)->0));
}

/// A value that is neither, or whose structured reading has no field, is the single
/// field `value` holding the raw text.
pub proof fn lemma_detect_scalar(raw: Seq<char>)
    requires
        (json_object_of(raw) is None && yaml_mapping_of(raw) is None)
            || structured_fields(raw).len() == 0,
    ensures
        detect_spec(raw) == scalar_fields(raw),
{
}

/// The detector never yields an empty field set, and names each field once.
pub proof fn lemma_detect_well_formed(raw: Seq<char>)
    ensures
        detect_spec(raw).len() > 0,
        distinct_keys(detect_spec(raw)),
{
    match json_object_of(raw) {
        Some(ms) => lemma_upsert_all_distinct(ms),
        None => match yaml_mapping_of(raw) {
            Some(es) => lemma_upsert_all_distinct(yaml_pairs(es)),
            None => {},
        },
    }
}

fn yaml_value_text(v: &YamlScalar) -> (r: String)
    ensures
        r@ == yaml_text(v@),
{
    match v {
        YamlScalar::Text(s) => s.clone(),
        YamlScalar::Bool(b) => {
            proof {
                reveal_strlit("true");
                reveal_strlit("false");
            }
            assert("true"@ =~= seq!['t', 'r', 'u', 'e']);
            assert("false"@ =~= seq!['f', 'a', 'l', 's', 'e']);
            if *b {
                "true".to_owned()
            } else {
                "false".to_owned()
            }
        },
        YamlScalar::Number(s) => s.clone(),
        YamlScalar::Complex(s) => trimmed(s.as_str()),
    }
}

/// The field set of a JSON object's members, each `(name, text)`, in order.
pub fn fields_from_json(ps: &Vec<(String, String)>) -> (r: FieldMap)
    ensures
        r@ == upsert_all(pairs_view(ps@)),
        r.wf(),
{
    let mut fm = FieldMap::new();
    let mut i: usize = 0;
    while i < ps.len()
        invariant
            i <= ps@.len(),
            fm.wf(),
            fm@ == upsert_all(pairs_view(ps@).take(i as int)),
        decreases ps@.len() - i,
    {
        let k = ps[i].0.clone();
        let v = ps[i].1.clone();
        fm.insert(k, v);
        proof {
            lemma_pairs_view_index(ps@, i as int);
            assert(pairs_view(ps@).take(i + 1).drop_last() =~= pairs_view(ps@).take(i as int));
        }
        i = i + 1;
    }
    proof {
        assert(pairs_view(ps@).take(i as int) =~= pairs_view(ps@));
    }
    fm
}

/// The field set of a YAML mapping's entries: one field per string-keyed entry, in order.
pub fn fields_from_yaml(es: &Vec<(Option<String>, YamlScalar)>) -> (r: FieldMap)
    ensures
        r@ == upsert_all(yaml_pairs(entries_view(es@))),
        r.wf(),
{
    let mut fm = FieldMap::new();
    let mut i: usize = 0;
    let ghost pairs: Seq<(Seq<char>, Seq<char>)> = Seq::empty();
    while i < es.len()
        invariant
            i <= es@.len(),
            fm.wf(),
            pairs == yaml_pairs(entries_view(es@).take(i as int)),
            fm@ == upsert_all(pairs),
        decreases es@.len() - i,
    {
        let ghost ev = entries_view(es@);
        proof {
            assert(ev.take(i + 1).drop_last() =~= ev.take(i as int));
            assert(ev[i as int] == (key_view(es@[i as int].0), es@[i as int].1@));
        }
        match &es[i].0 {
            Some(k) => {
                let v = yaml_value_text(&es[i].1);
                fm.insert(k.clone(), v);
                proof {
                    pairs = pairs.push((k@, yaml_text(es@[i as int].1@)));
                    assert(pairs.drop_last() =~= yaml_pairs(ev.take(i as int)));
                }
            },
            None => {},
        }
        i = i + 1;
    }
    proof {
        assert(entries_view(es@).take(i as int) =~= entries_view(es@));
    }
    fm
}

/// Reads a raw secret value as a field set: the members of a JSON object, else the
/// string-keyed entries of a YAML mapping, else (or when that gives no field) the single
/// field `value` holding the raw text.
pub fn detect(raw: &str) -> (r: FieldMap)
    ensures
        r@ == detect_spec(raw@),
        r.wf(),
        r@.len() > 0,
{
    proof {
        lemma_detect_well_formed(raw@);
    }
    let structured = match json_object_fields(raw) {
        Some(ms) => fields_from_json(&ms),
        None => match yaml_mapping_entries(raw) {
            Some(es) => fields_from_yaml(&es),
            None => FieldMap::new(),
        },
    };
    fields_or_value(structured, raw)
}

/// `structured` when it has a field, else the single field `value` holding `raw`.
pub fn fields_or_value(structured: FieldMap, raw: &str) -> (r: FieldMap)
    requires
        structured.wf(),
    ensures
        r@ == if structured@.len() > 0 {
            structured@
        } else {
            scalar_fields(raw@)
        },
        r.wf(),
{
    if structured.len() > 0 {
        return structured;
    }
    let mut single = FieldMap::new();
    proof {
        reveal_strlit("value");
    }
    let ghost empty = single@;
    single.insert("value".to_owned(), raw.to_owned());
    proof {
        assert(!has_key(empty, "value"@));
        assert("value"@ =~= seq!['v', 'a', 'l', 'u', 'e']);
        assert(single@ =~= scalar_fields(raw@));
    }
    single
}

} // verus!
