//! Conversion of a Gemini response schema into the JSON-schema dialect that
//! OpenAI-style structured output expects.
//!
//! Gemini writes type names in upper case (`"OBJECT"`, `"STRING"`), allows
//! `nullable`, and leaves objects open. The strict dialect wants lower-case
//! type names, every property listed under `required`, and
//! `additionalProperties: false` on each object.
use vstd::prelude::*;
use crate::text::str_equal;
use crate::llm::provider::{lowercase, to_lowercase};

verus! {

broadcast use vstd::std_specs::vec::group_vec_axioms;

/// A JSON value. Object members keep the order in which they were given.
pub enum JsonValue {
    Null,
    Bool(bool),
    /// A number, in its textual form.
    Number(String),
    Str(String),
    Array(Vec<JsonValue>),
    Object(Vec<JsonMember>),
}

/// One `key: value` member of a JSON object.
pub struct JsonMember {
    pub key: String,
    pub value: JsonValue,
}

/// The mathematical form of a [`JsonValue`].
pub enum JsonModel {
    Null,
    Bool(bool),
    Number(Seq<char>),
    Str(Seq<char>),
    Array(Seq<JsonModel>),
    Object(Seq<(Seq<char>, JsonModel)>),
}

/// The members `(keys[i], values[i])`, as many as there are keys.
pub open spec fn pair_up(keys: Seq<Seq<char>>, values: Seq<JsonModel>) -> Seq<(Seq<char>, JsonModel)> {
    Seq::new(keys.len(), |i: int| (keys[i], values[i]))
}

impl View for JsonValue {
    type V = JsonModel;

    open spec fn view(&self) -> JsonModel
        decreases self,
    {
        match self {
            JsonValue::Null => JsonModel::Null,
            JsonValue::Bool(b) => JsonModel::Bool(*b),
            JsonValue::Number(n) => JsonModel::Number(n@),
            JsonValue::Str(s) => JsonModel::Str(s@),
            JsonValue::Array(items) => JsonModel::Array(
                Seq::new(
                    items.len() as nat,
                    |i: int|
                        if 0 <= i < items.len() {
                            items[i].view()
                        } else {
                            JsonModel::Null
                        },
                ),
            ),
            JsonValue::Object(members) => JsonModel::Object(
                pair_up(
                    Seq::new(members.len() as nat, |i: int| members[i].key@),
                    Seq::new(
                        members.len() as nat,
                        |i: int|
                            if 0 <= i < members.len() {
                                members[i].value.view()
                            } else {
                                JsonModel::Null
                            },
                    ),
                ),
            ),
        }
    }
}

/// A copy of `v`.
pub fn clone_json(v: &JsonValue) -> (r: JsonValue)
    ensures
        r@ == v@,
    decreases v,
{
    match v {
        JsonValue::Null => JsonValue::Null,
        JsonValue::Bool(b) => JsonValue::Bool(*b),
        JsonValue::Number(n) => JsonValue::Number(n.clone()),
        JsonValue::Str(s) => JsonValue::Str(s.clone()),
        JsonValue::Array(items) => {
            let mut out: Vec<JsonValue> = Vec::new();
            let mut i: usize = 0;
            while i < items.len()
                invariant
                    *v == JsonValue::Array(*items),
                    i <= items.len(),
                    out.len() == i,
                    forall|k: int| 0 <= k < i ==> (#[trigger] out[k])@ == items[k]@,
                decreases items.len() - i,
            {
                assert(decreases_to!(*v => v->Array_0));
                assert(decreases_to!(*items => items[i as int]));
                let c = clone_json(&items[i]);
                out.push(c);
                i = i + 1;
            }
            let r = JsonValue::Array(out);
            assert(r@->Array_0 =~= v@->Array_0);
            r
        },
        JsonValue::Object(members) => {
            let mut out: Vec<JsonMember> = Vec::new();
            let mut i: usize = 0;
            while i < members.len()
                invariant
                    *v == JsonValue::Object(*members),
                    i <= members.len(),
                    out.len() == i,
                    forall|k: int|
                        0 <= k < i ==> (#[trigger] out[k]).key@ == members[k].key@
                            && out[k].value@ == members[k].value@,
                decreases members.len() - i,
            {
                assert(decreases_to!(*v => v->Object_0));
                assert(decreases_to!(*members => members[i as int]));
                assert(decreases_to!(members[i as int] => members[i as int].value));
                let c = clone_json(&members[i].value);
                out.push(JsonMember { key: members[i].key.clone(), value: c });
                i = i + 1;
            }
            let r = JsonValue::Object(out);
            assert forall|k: int| 0 <= k < out.len() implies r@->Object_0[k] == v@->Object_0[k] by {
                assert(out[k].key@ == members[k].key@ && out[k].value@ == members[k].value@);
            }
            assert(r@->Object_0 =~= v@->Object_0);
            r
        },
    }
}

/// The members of an object value, as `(key, value)` pairs.
pub open spec fn members_view(ms: Seq<JsonMember>) -> Seq<(Seq<char>, JsonModel)> {
    Seq::new(ms.len(), |i: int| (ms[i].key@, ms[i].value@))
}

/// The view of an object is the view of its members.
pub proof fn lemma_object_view(ms: Vec<JsonMember>)
    ensures
        JsonValue::Object(ms)@ == JsonModel::Object(members_view(ms@)),
{
    assert(JsonValue::Object(ms)@->Object_0 =~= members_view(ms@));
}

/// Position of the first member named `key` at or after `from`.
pub open spec fn find_from(ms: Seq<(Seq<char>, JsonModel)>, key: Seq<char>, from: nat) -> Option<nat>
    decreases ms.len() - from,
{
    if from < ms.len() {
        if ms[from as int].0 == key {
            Some(from)
        } else {
            find_from(ms, key, from + 1)
        }
    } else {
        None
    }
}

/// Position of the first member named `key`.
pub open spec fn find_key(ms: Seq<(Seq<char>, JsonModel)>, key: Seq<char>) -> Option<nat> {
    find_from(ms, key, 0)
}

/// `find_from` gives the first position, at or after `from`, whose key is `key`.
pub proof fn lemma_find_from(ms: Seq<(Seq<char>, JsonModel)>, key: Seq<char>, from: nat)
    ensures
        match find_from(ms, key, from) {
            Some(i) => from <= i < ms.len() && ms[i as int].0 == key && forall|k: int|
                from <= k < i ==> ms[k].0 != key,
            None => forall|k: int| from <= k < ms.len() ==> ms[k].0 != key,
        },
    decreases ms.len() - from,
{
    if from < ms.len() {
        lemma_find_from(ms, key, from + 1);
    }
}

/// Whether a member is named other than `key`.
pub open spec fn named_other_than(key: Seq<char>) -> spec_fn((Seq<char>, JsonModel)) -> bool {
    |m: (Seq<char>, JsonModel)| m.0 != key
}

/// `ms` without its members named `key`.
pub open spec fn without_key(ms: Seq<(Seq<char>, JsonModel)>, key: Seq<char>) -> Seq<(Seq<char>, JsonModel)> {
    ms.filter(named_other_than(key))
}

/// `ms` with the member `key` set to `value`: the first member of that name
/// takes the new value in place, or else the member is appended.
pub open spec fn with_key(ms: Seq<(Seq<char>, JsonModel)>, key: Seq<char>, value: JsonModel) -> Seq<(Seq<char>, JsonModel)> {
    match find_key(ms, key) {
        Some(i) => ms.update(i as int, (key, value)),
        None => ms.push((key, value)),
    }
}

/// `ms` with the string value of its `type` member in lower case.
pub open spec fn lower_type(ms: Seq<(Seq<char>, JsonModel)>) -> Seq<(Seq<char>, JsonModel)> {
    match find_key(ms, "type"@) {
        Some(i) => match ms[i as int].1 {
            JsonModel::Str(t) => ms.update(i as int, (ms[i as int].0, JsonModel::Str(lowercase(t)))),
            _ => ms,
        },
        None => ms,
    }
}

/// The names of the properties `ps`, as JSON strings, in order.
pub open spec fn property_names(ps: Seq<(Seq<char>, JsonModel)>) -> Seq<JsonModel> {
    Seq::new(ps.len(), |k: int| JsonModel::Str(ps[k].0))
}

/// The properties `ps`, each schema converted by [`schema_of`].
pub open spec fn converted_properties(ps: Seq<(Seq<char>, JsonModel)>) -> Seq<(Seq<char>, JsonModel)>
    decreases ps,
{
    pair_up(
        Seq::new(ps.len(), |k: int| ps[k].0),
        Seq::new(
            ps.len(),
            |k: int|
                if 0 <= k < ps.len() {
                    schema_of(ps[k].1)
                } else {
                    JsonModel::Null
                },
        ),
    )
}

/// The strict form of a Gemini schema.
///
/// An object gets its `type` name in lower case; its `properties` object, if
/// any, is replaced by one whose property schemas are converted in turn,
/// together with `required` naming every property and
/// `additionalProperties: false` (a `properties` member that is not an object
/// is dropped); its `items` schema is converted; and `nullable` is removed.
/// Any other value is left as it is.
pub open spec fn schema_of(v: JsonModel) -> JsonModel
    decreases v,
{
    match v {
        JsonModel::Object(ms) => {
            let typed = lower_type(ms);
            let with_props = match find_key(ms, "properties"@) {
                Some(j) => {
                    proof {
                        lemma_find_from(ms, "properties"@, 0);
                    }
                    match ms[j as int].1 {
                        JsonModel::Object(ps) => {
                            with_key(
                                with_key(
                                    with_key(
                                        without_key(typed, "properties"@),
                                        "properties"@,
                                        JsonModel::Object(converted_properties(ps)),
                                    ),
                                    "required"@,
                                    JsonModel::Array(property_names(ps)),
                                ),
                                "additionalProperties"@,
                                JsonModel::Bool(false),
                            )
                        },
                        _ => without_key(typed, "properties"@),
                    }
                },
                None => typed,
            };
            let with_items = match find_key(ms, "items"@) {
                Some(j) => {
                    proof {
                        lemma_find_from(ms, "items"@, 0);
                    }
                    with_key(without_key(with_props, "items"@), "items"@, schema_of(ms[j as int].1))
                },
                None => with_props,
            };
            JsonModel::Object(without_key(with_items, "nullable"@))
        },
        _ => v,
    }
}

/// Position of the first member of `ms` named `key`.
pub fn find_member(ms: &Vec<JsonMember>, key: &str) -> (r: Option<usize>)
    ensures
        match r {
            Some(i) => i < ms.len() && find_key(members_view(ms@), key@) == Some(i as nat),
            None => find_key(members_view(ms@), key@) is None,
        },
{
    let ghost mv = members_view(ms@);
    let mut i: usize = 0;
    while i < ms.len()
        invariant
            mv == members_view(ms@),
            i <= ms.len(),
            find_key(mv, key@) == find_from(mv, key@, i as nat),
        decreases ms.len() - i,
    {
        if str_equal(ms[i].key.as_str(), key) {
            return Some(i);
        }
        i = i + 1;
    }
    None
}

/// A copy of `ms` without its members named `key`.
pub fn without_member(ms: &Vec<JsonMember>, key: &str) -> (r: Vec<JsonMember>)
    ensures
        members_view(r@) == without_key(members_view(ms@), key@),
{
    let ghost mv = members_view(ms@);
    let ghost keep = named_other_than(key@);
    let mut out: Vec<JsonMember> = Vec::new();
    let mut i: usize = 0;
    while i < ms.len()
        invariant
            mv == members_view(ms@),
            keep == named_other_than(key@),
            i <= ms.len(),
            members_view(out@) == mv.take(i as int).filter(keep),
        decreases ms.len() - i,
    {
        proof {
            reveal(Seq::filter);
            let t = mv.take(i + 1);
            assert(t.drop_last() =~= mv.take(i as int));
            assert(t.last() == mv[i as int]);
            assert(t.filter(keep) == if keep(mv[i as int]) {
                mv.take(i as int).filter(keep).push(mv[i as int])
            } else {
                mv.take(i as int).filter(keep)
            });
        }
        if !str_equal(ms[i].key.as_str(), key) {
            let value = clone_json(&ms[i].value);
            let old_out = Ghost(out@);
            out.push(JsonMember { key: ms[i].key.clone(), value });
            assert(members_view(out@) =~= members_view(old_out@).push(mv[i as int]));
        }
        i = i + 1;
    }
    assert(mv.take(ms.len() as int) =~= mv);
    out
}

/// Sets the member `key` of `ms` to `value`: the first member of that name
/// takes the new value in place, or else the member is appended.
pub fn set_member(ms: &mut Vec<JsonMember>, key: &str, value: JsonValue)
    ensures
        members_view(final(ms)@) == with_key(members_view(old(ms)@), key@, value@),
{
    let ghost before = members_view(ms@);
    let member = JsonMember { key: key.to_owned(), value };
    match find_member(ms, key) {
        Some(i) => {
            ms[i] = member;
            assert(members_view(ms@) =~= before.update(i as int, (key@, value@)));
        },
        None => {
            ms.push(member);
            assert(members_view(ms@) =~= before.push((key@, value@)));
        },
    }
}

/// Lower-cases the string value of the `type` member of `ms`, if it has one.
fn lower_type_member(ms: &mut Vec<JsonMember>)
    ensures
        members_view(final(ms)@) == lower_type(members_view(old(ms)@)),
{
    let ghost before = members_view(ms@);
    if let Some(i) = find_member(ms, "type") {
        let lowered = match &ms[i].value {
            JsonValue::Str(t) => Some(to_lowercase(t.as_str())),
            _ => None,
        };
        match lowered {
            Some(l) => {
                let key = ms[i].key.clone();
                ms[i] = JsonMember { key, value: JsonValue::Str(l) };
                assert(members_view(ms@) =~= before.update(
                    i as int,
                    (before[i as int].0, JsonModel::Str(lowercase(before[i as int].1->Str_0))),
                ));
            },
            None => {},
        }
    }
}

/// Converts a Gemini response schema into the strict JSON-schema form that
/// OpenAI-style structured output expects (see [`schema_of`]).
pub fn gemini_to_json_schema(v: JsonValue) -> (r: JsonValue)
    ensures
        r@ == schema_of(v@),
    decreases v@,
{
    match v {
        JsonValue::Object(ms) => {
            proof {
                lemma_object_view(ms);
            }
            let ghost mv = members_view(ms@);
            // What `properties` becomes: absent, dropped, or converted.
            let props: Option<Option<(Vec<JsonMember>, Vec<JsonValue>)>> = match find_member(&ms, "properties") {
                Some(j) => match &ms[j].value {
                    JsonValue::Object(ps) => {
                        proof {
                            lemma_object_view(*ps);
                        }
                        let ghost pv = members_view(ps@);
                        let mut converted: Vec<JsonMember> = Vec::new();
                        let mut names: Vec<JsonValue> = Vec::new();
                        let mut k: usize = 0;
                        while k < ps.len()
                            invariant
                                v@ == JsonModel::Object(mv),
                                j < mv.len(),
                                mv[j as int].1 == JsonModel::Object(pv),
                                pv == members_view(ps@),
                                k <= ps.len(),
                                converted.len() == k,
                                names.len() == k,
                                forall|m: int| 0 <= m < k ==> (#[trigger] converted[m]).key@ == pv[m].0
                                    && converted[m].value@ == schema_of(pv[m].1),
                                forall|m: int| 0 <= m < k ==> (#[trigger] names[m])@ == JsonModel::Str(pv[m].0),
                            decreases ps.len() - k,
                        {
                            proof {
                                assert(decreases_to!(v@ => v@->Object_0));
                                assert(decreases_to!(mv => mv[j as int]));
                                assert(decreases_to!(mv[j as int] => mv[j as int].1));
                                assert(decreases_to!(mv[j as int].1 => mv[j as int].1->Object_0));
                                assert(decreases_to!(pv => pv[k as int]));
                                assert(decreases_to!(pv[k as int] => pv[k as int].1));
                            }
                            let child = clone_json(&ps[k].value);
                            let c = gemini_to_json_schema(child);
                            converted.push(JsonMember { key: ps[k].key.clone(), value: c });
                            names.push(JsonValue::Str(ps[k].key.clone()));
                            k = k + 1;
                        }
                        proof {
                            assert(members_view(converted@) =~= converted_properties(pv));
                            lemma_object_view(converted);
                            assert(JsonValue::Array(names)@->Array_0 =~= property_names(pv));
                        }
                        Some(Some((converted, names)))
                    },
                    _ => Some(None),
                },
                None => None,
            };
            proof {
                lemma_find_from(mv, "properties"@, 0);
            }
            assert(match find_key(mv, "properties"@) {
                Some(j) => match mv[j as int].1 {
                    JsonModel::Object(ps) => props matches Some(Some((c, n)))
                        && JsonValue::Object(c)@ == JsonModel::Object(converted_properties(ps))
                        && JsonValue::Array(n)@ == JsonModel::Array(property_names(ps)),
                    _ => props matches Some(None),
                },
                None => props is None,
            });
            // What `items` becomes, if present.
            let items: Option<JsonValue> = match find_member(&ms, "items") {
                Some(j) => {
                    proof {
                        assert(decreases_to!(v@ => v@->Object_0));
                        assert(decreases_to!(mv => mv[j as int]));
                        assert(decreases_to!(mv[j as int] => mv[j as int].1));
                    }
                    let child = clone_json(&ms[j].value);
                    Some(gemini_to_json_schema(child))
                },
                None => None,
            };
            assert(match find_key(mv, "items"@) {
                Some(j) => items matches Some(it) && it@ == schema_of(mv[j as int].1),
                None => items is None,
            });
            let mut out = ms;
            lower_type_member(&mut out);
            match props {
                Some(Some((converted, names))) => {
                    out = without_member(&out, "properties");
                    set_member(&mut out, "properties", JsonValue::Object(converted));
                    set_member(&mut out, "required", JsonValue::Array(names));
                    set_member(&mut out, "additionalProperties", JsonValue::Bool(false));
                },
                Some(None) => {
                    out = without_member(&out, "properties");
                },
                None => {},
            }
            match items {
                Some(item) => {
                    out = without_member(&out, "items");
                    set_member(&mut out, "items", item);
                },
                None => {},
            }
            out = without_member(&out, "nullable");
            proof {
                lemma_object_view(out);
            }
            JsonValue::Object(out)
        },
        other => other,
    }
}

/// `with_key` leaves the other members where they are and holds the new one.
proof fn lemma_with_key(ms: Seq<(Seq<char>, JsonModel)>, key: Seq<char>, value: JsonModel)
    ensures
        with_key(ms, key, value).contains((key, value)),
        forall|m: (Seq<char>, JsonModel)| m.0 != key && ms.contains(m) ==> with_key(ms, key, value).contains(m),
{
    lemma_find_from(ms, key, 0);
    let r = with_key(ms, key, value);
    match find_key(ms, key) {
        Some(i) => {
            assert(r[i as int] == (key, value));
            assert forall|m: (Seq<char>, JsonModel)| m.0 != key && ms.contains(m) implies r.contains(m) by {
                let k = choose|k: int| 0 <= k < ms.len() && ms[k] == m;
                assert(r[k] == m);
            }
        },
        None => {
            assert(r[ms.len() as int] == (key, value));
            assert forall|m: (Seq<char>, JsonModel)| m.0 != key && ms.contains(m) implies r.contains(m) by {
                let k = choose|k: int| 0 <= k < ms.len() && ms[k] == m;
                assert(r[k] == m);
            }
        },
    }
}

/// `without_key` holds no member named `key` and keeps every other member.
proof fn lemma_without_key(ms: Seq<(Seq<char>, JsonModel)>, key: Seq<char>)
    ensures
        find_key(without_key(ms, key), key) is None,
        forall|m: (Seq<char>, JsonModel)| m.0 != key && ms.contains(m) ==> without_key(ms, key).contains(m),
{
    let keep = named_other_than(key);
    let r = ms.filter(keep);
    lemma_find_from(r, key, 0);
    if find_key(r, key) is Some {
        let i = find_key(r, key)->0;
        ms.lemma_filter_pred(keep, i as int);
    }
    assert forall|m: (Seq<char>, JsonModel)| m.0 != key && ms.contains(m) implies r.contains(m) by {
        let k = choose|k: int| 0 <= k < ms.len() && ms[k] == m;
        ms.lemma_filter_contains(keep, k);
    }
}

/// The members of the `properties` member of `ms`, when it is an object.
pub open spec fn properties_object(ms: Seq<(Seq<char>, JsonModel)>) -> Option<Seq<(Seq<char>, JsonModel)>> {
    match find_key(ms, "properties"@) {
        Some(j) => match ms[j as int].1 {
            JsonModel::Object(ps) => Some(ps),
            _ => None,
        },
        None => None,
    }
}

/// A converted object schema is strict: it has no `nullable` member, and
/// when its `properties` member is an object, it holds the converted
/// properties, `required` naming every property in order, and
/// `additionalProperties: false`.
pub proof fn law_schema_strict(ms: Seq<(Seq<char>, JsonModel)>)
    ensures
        schema_of(JsonModel::Object(ms)) is Object,
        find_key(schema_of(JsonModel::Object(ms))->Object_0, "nullable"@) is None,
        properties_object(ms) matches Some(ps) ==> {
            let out = schema_of(JsonModel::Object(ms))->Object_0;
            &&& out.contains(("properties"@, JsonModel::Object(converted_properties(ps))))
            &&& out.contains(("required"@, JsonModel::Array(property_names(ps))))
            &&& out.contains(("additionalProperties"@, JsonModel::Bool(false)))
        },
{
    reveal_strlit("nullable");
    reveal_strlit("items");
    reveal_strlit("properties");
    reveal_strlit("required");
    reveal_strlit("additionalProperties");
    assert("properties"@.len() == 10 && "required"@.len() == 8 && "additionalProperties"@.len() == 20
        && "items"@.len() == 5 && "nullable"@.len() == 8);
    assert("nullable"@ != "required"@) by {
        assert("nullable"@[0] != "required"@[0]);
    }
    let typed = lower_type(ms);
    let with_items_of = |w: Seq<(Seq<char>, JsonModel)>| match find_key(ms, "items"@) {
        Some(j) => with_key(without_key(w, "items"@), "items"@, schema_of(ms[j as int].1)),
        None => w,
    };
    match find_key(ms, "properties"@) {
        Some(j) => {
            lemma_find_from(ms, "properties"@, 0);
            match ms[j as int].1 {
                JsonModel::Object(ps) => {
                    let p = JsonModel::Object(converted_properties(ps));
                    let q = JsonModel::Array(property_names(ps));
                    let base = without_key(typed, "properties"@);
                    let w1 = with_key(base, "properties"@, p);
                    let w2 = with_key(w1, "required"@, q);
                    let w3 = with_key(w2, "additionalProperties"@, JsonModel::Bool(false));
                    lemma_with_key(base, "properties"@, p);
                    lemma_with_key(w1, "required"@, q);
                    lemma_with_key(w2, "additionalProperties"@, JsonModel::Bool(false));
                    let wi = with_items_of(w3);
                    if let Some(k) = find_key(ms, "items"@) {
                        let stripped = without_key(w3, "items"@);
                        lemma_without_key(w3, "items"@);
                        lemma_with_key(stripped, "items"@, schema_of(ms[k as int].1));
                    }
                    assert(w1.contains(("properties"@, p)));
                    assert(w2.contains(("properties"@, p)));
                    assert(w3.contains(("properties"@, p)));
                    assert(w3.contains(("required"@, q)));
                    assert(wi.contains(("properties"@, p)));
                    assert(wi.contains(("required"@, q)));
                    assert(wi.contains(("additionalProperties"@, JsonModel::Bool(false))));
                    lemma_without_key(wi, "nullable"@);
                    let out = without_key(wi, "nullable"@);
                    assert(schema_of(JsonModel::Object(ms))->Object_0 == out);
                    assert(out.contains(("properties"@, p)));
                    assert(out.contains(("required"@, q)));
                    assert(out.contains(("additionalProperties"@, JsonModel::Bool(false))));
                },
                _ => {
                    let wi = with_items_of(without_key(typed, "properties"@));
                    lemma_without_key(wi, "nullable"@);
                },
            }
        },
        None => {
            lemma_without_key(with_items_of(typed), "nullable"@);
        },
    }
}

} // verus!
