//! Decoding coded data elements from JSON.

use crate::clinical_data::{
    cde_code,
    distinct_keys,
    CDEFileValue,
    CDEModel,
    CDEValue,
    CDEValueModel,
    ClinicalDatum,
    CDE,
};
use crate::compare::find_cde;
use crate::diff::{find, lemma_find_none};
use crate::error::ModelError;
use crate::json::{Json, JsonModel};
use crate::texts::contains_text;
use vstd::prelude::*;

verus! {

/// The results of decoding every item of a list: the first error in the
/// order of the list, or all the values.
pub open spec fn collect<T>(
    items: Seq<JsonModel>,
    decode: spec_fn(JsonModel) -> Result<T, ModelError>,
) -> Result<Seq<T>, ModelError>
    decreases items.len(),
{
    if items.len() == 0 {
        Ok(Seq::empty())
    } else {
        match collect(items.drop_last(), decode) {
            Err(e) => Err(e),
            Ok(values) => match decode(items.last()) {
                Err(e) => Err(e),
                Ok(value) => Ok(values.push(value)),
            },
        }
    }
}

/// One more item is decoded after those before it.
pub proof fn lemma_collect_step<T>(
    items: Seq<JsonModel>,
    decode: spec_fn(JsonModel) -> Result<T, ModelError>,
    i: int,
)
    requires
        0 <= i < items.len(),
    ensures
        collect(items.take(i + 1), decode) == match collect(items.take(i), decode) {
            Err(e) => Err(e),
            Ok(values) => match decode(items[i]) {
                Err(e) => Err(e),
                Ok(value) => Ok(values.push(value)),
            },
        },
{
    assert(items.take(i + 1).drop_last() =~= items.take(i));
}

/// A mapping stays free of repeated keys under one more entry exactly when
/// the entry's key is new.
pub proof fn lemma_distinct_push<E, K>(entries: Seq<E>, key: spec_fn(E) -> K, e: E)
    ensures
        distinct_keys(entries.push(e), key) <==> distinct_keys(entries, key) && find(
            entries,
            key,
            key(e),
        ) is None,
{
    let grown = entries.push(e);
    lemma_find_none(entries, key, key(e));
    if distinct_keys(grown, key) {
        assert forall|i: int, j: int| 0 <= i < j < entries.len() implies key(
            #[trigger] entries[i],
        ) != key(#[trigger] entries[j]) by {
            assert(grown[i] == entries[i] && grown[j] == entries[j]);
        }
        assert forall|j: int| 0 <= j < entries.len() implies key(#[trigger] entries[j]) != key(
            e,
        ) by {
            assert(grown[j] == entries[j] && grown[entries.len() as int] == e);
        }
    }
    if distinct_keys(entries, key) && find(entries, key, key(e)) is None {
        assert forall|i: int, j: int| 0 <= i < j < grown.len() implies key(#[trigger] grown[i])
            != key(#[trigger] grown[j]) by {
            if j < entries.len() {
                assert(grown[i] == entries[i] && grown[j] == entries[j]);
            } else {
                assert(grown[i] == entries[i]);
            }
        }
    }
}

/// Whether every item of a list is a string.
pub open spec fn all_texts(items: Seq<JsonModel>) -> bool {
    forall|i: int| 0 <= i < items.len() ==> (#[trigger] items[i]) is Text
}

/// The strings of a list of strings.
pub open spec fn texts_of(items: Seq<JsonModel>) -> Seq<Seq<char>> {
    items.map_values(|x: JsonModel| x->Text_0)
}

/// The file that an object refers to: its name and its numeric id. `None`
/// for any other object: one without a name that is a string, or without
/// an id that is a number and has an unsigned reading.
pub open spec fn file_value(v: JsonModel) -> Option<CDEValueModel> {
    match v.get("file_name"@) {
        Some(JsonModel::Text(file_name)) => match v.get("django_file_id"@) {
            Some(JsonModel::Number(n)) => match n.unsigned {
                Some(id) => Some(CDEValueModel::File { file_name, django_file_id: id as u32 }),
                None => None,
            },
            _ => None,
        },
        _ => None,
    }
}

/// The value that a JSON value decodes to. An empty string and an empty
/// array have variants of their own; an array must hold strings only and is
/// read as a set; `Ok(None)` stands for a value of no known shape.
pub open spec fn cde_value(v: JsonModel) -> Result<Option<CDEValueModel>, ModelError> {
    match v {
        JsonModel::Null => Ok(Some(CDEValueModel::Null)),
        JsonModel::Bool(b) => Ok(Some(CDEValueModel::Bool(b))),
        JsonModel::Number(n) => Ok(
            match n.bits {
                Some(bits) => Some(CDEValueModel::Number(bits)),
                None => None,
            },
        ),
        JsonModel::Text(s) => Ok(
            Some(
                if s.len() == 0 {
                    CDEValueModel::EmptyString
                } else {
                    CDEValueModel::String(s)
                },
            ),
        ),
        JsonModel::Array(items) => if !all_texts(items) {
            Err(ModelError::InvalidRangeCdeValue)
        } else if items.len() == 0 {
            Ok(Some(CDEValueModel::EmptyRange))
        } else {
            Ok(Some(CDEValueModel::Range(texts_of(items).to_set())))
        },
        JsonModel::Object(_) => Ok(file_value(v)),
    }
}

/// The coded data element that a JSON value decodes to.
pub open spec fn cde_entry(v: JsonModel) -> Result<CDEModel, ModelError> {
    if v.as_object() is None {
        Err(ModelError::InvalidCde)
    } else if v.get("code"@) is None {
        Err(ModelError::MissingCdeCode)
    } else if v.get("code"@)->0.as_text() is None {
        Err(ModelError::InvalidCdeCode)
    } else if v.get("value"@) is None {
        Err(ModelError::MissingCdeValue)
    } else {
        match cde_value(v.get("value"@)->0) {
            Err(e) => Err(e),
            Ok(None) => Err(ModelError::InvalidCdeValue),
            Ok(Some(value)) => Ok(CDEModel { code: v.get("code"@)->0.as_text()->0, value }),
        }
    }
}

/// The mapping that a list of coded data elements decodes to: the first
/// error of an element, else an error where two elements share a code, else
/// the elements in their order.
pub open spec fn cde_entries(items: Seq<JsonModel>) -> Result<Seq<CDEModel>, ModelError> {
    match collect(items, |v: JsonModel| cde_entry(v)) {
        Err(e) => Err(e),
        Ok(cdes) => if distinct_keys(cdes, cde_code()) {
            Ok(cdes)
        } else {
            Err(ModelError::DuplicateCdes)
        },
    }
}

impl ClinicalDatum {
    /// Decodes the file that an object refers to.
    fn get_file_value(value: &Json) -> (r: Option<CDEValue>)
        ensures
            match r {
                Some(v) => file_value(value@) == Some(v@),
                None => file_value(value@) is None,
            },
    {
        match value.get("file_name") {
            Some(Json::Text(file_name)) => match value.get("django_file_id") {
                Some(Json::Number(n)) => match n.unsigned {
                    Some(id) => Some(
                        CDEValue::File(
                            CDEFileValue {
                                file_name: file_name.clone(),
                                django_file_id: #[verifier::truncate]
                                (id as u32),
                            },
                        ),
                    ),
                    None => None,
                },
                _ => None,
            },
            _ => None,
        }
    }

    /// Decodes the strings of an array into a range.
    fn get_range(items: &Vec<Json>) -> (r: Result<Vec<String>, ModelError>)
        ensures
            match r {
                Ok(range) => all_texts(items.deep_view()) && range.deep_view().to_set() == texts_of(
                    items.deep_view(),
                ).to_set() && (range@.len() == 0 <==> items@.len() == 0),
                Err(e) => !all_texts(items.deep_view()) && e == ModelError::InvalidRangeCdeValue,
            },
    {
        let ghost model = items.deep_view();
        let mut range: Vec<String> = Vec::new();
        let mut i: usize = 0;
        while i < items.len()
            invariant
                i <= items.len(),
                model == items.deep_view(),
                forall|k: int| 0 <= k < i ==> (#[trigger] model[k]) is Text,
                forall|x: Seq<char>|
                    range.deep_view().contains(x) <==> exists|k: int|
                        0 <= k < i && #[trigger] texts_of(model)[k] == x,
                range@.len() == 0 <==> i == 0,
            decreases items.len() - i,
        {
            match &items[i] {
                Json::Text(s) => {
                    let ghost before = range.deep_view();
                    assert(texts_of(model)[i as int] == s@);
                    if !contains_text(&range, s) {
                        range.push(s.clone());
                        assert(range.deep_view() =~= before.push(s@));
                        assert(range.deep_view()[before.len() as int] == s@);
                    }
                    assert forall|x: Seq<char>|
                        range.deep_view().contains(x) <==> exists|k: int|
                            0 <= k < i + 1 && #[trigger] texts_of(model)[k] == x by {
                        if range.deep_view().contains(x) {
                            if before.contains(x) {
                                let k = choose|k: int|
                                    0 <= k < i && #[trigger] texts_of(model)[k] == x;
                                assert(0 <= k < i + 1 && texts_of(model)[k] == x);
                            } else {
                                assert(x == s@);
                                assert(texts_of(model)[i as int] == x);
                            }
                        }
                        if exists|k: int| 0 <= k < i + 1 && #[trigger] texts_of(model)[k] == x {
                            let k = choose|k: int|
                                0 <= k < i + 1 && #[trigger] texts_of(model)[k] == x;
                            if k < i {
                                assert(before.contains(x));
                                let at = choose|at: int| 0 <= at < before.len() && before[at] == x;
                                assert(range.deep_view()[at] == x);
                            }
                        }
                    }
                },
                _ => {
                    assert(!(model[i as int] is Text));
                    return Err(ModelError::InvalidRangeCdeValue);
                },
            }
            i += 1;
        }
        proof {
            let all = texts_of(model);
            assert forall|x: Seq<char>| range.deep_view().to_set().contains(x) <==> all.to_set().contains(
                x,
            ) by {
                if all.contains(x) {
                    let k = choose|k: int| 0 <= k < all.len() && all[k] == x;
                    assert(0 <= k < i && texts_of(model)[k] == x);
                }
            }
            assert(range.deep_view().to_set() =~= all.to_set());
        }
        Ok(range)
    }

    /// Decodes the value of a coded data element.
    pub fn get_cde_value(value: &Json) -> (r: Result<Option<CDEValue>, ModelError>)
        ensures
            match r {
                Ok(Some(v)) => cde_value(value@) == Ok::<Option<CDEValueModel>, ModelError>(
                    Some(v@),
                ),
                Ok(None) => cde_value(value@) == Ok::<Option<CDEValueModel>, ModelError>(None),
                Err(e) => cde_value(value@) == Err::<Option<CDEValueModel>, ModelError>(e),
            },
    {
        match value {
            Json::Null => Ok(Some(CDEValue::Null)),
            Json::Bool(b) => Ok(Some(CDEValue::Bool(*b))),
            Json::Number(n) => match n.bits {
                Some(bits) => Ok(Some(CDEValue::Number(bits))),
                None => Ok(None),
            },
            Json::Text(s) => if s.as_str().is_empty() {
                Ok(Some(CDEValue::EmptyString))
            } else {
                Ok(Some(CDEValue::String(s.clone())))
            },
            Json::Array(items) => {
                assert(items.deep_view() =~= value@->Array_0);
                match Self::get_range(items) {
                    Err(e) => Err(e),
                    Ok(range) => if range.len() == 0 {
                        Ok(Some(CDEValue::EmptyRange))
                    } else {
                        Ok(Some(CDEValue::Range(range)))
                    },
                }
            },
            Json::Object(_) => Ok(Self::get_file_value(value)),
        }
    }

    /// Decodes one coded data element.
    pub fn get_cde(data: &Json) -> (r: Result<CDE, ModelError>)
        ensures
            match r {
                Ok(cde) => cde_entry(data@) == Ok::<CDEModel, ModelError>(cde@),
                Err(e) => cde_entry(data@) == Err::<CDEModel, ModelError>(e),
            },
    {
        if data.as_object().is_none() {
            return Err(ModelError::InvalidCde);
        }
        let code = match data.get("code") {
            None => {
                return Err(ModelError::MissingCdeCode);
            },
            Some(code) => match code {
                Json::Text(s) => s.clone(),
                _ => {
                    return Err(ModelError::InvalidCdeCode);
                },
            },
        };
        let value = match data.get("value") {
            None => {
                return Err(ModelError::MissingCdeValue);
            },
            Some(value) => value,
        };
        match Self::get_cde_value(value) {
            Err(e) => Err(e),
            Ok(None) => Err(ModelError::InvalidCdeValue),
            Ok(Some(value)) => Ok(CDE { code, value }),
        }
    }

    /// Decodes a list of coded data elements into a mapping.
    pub fn get_cdes(cdes: &Vec<Json>) -> (r: Result<Vec<CDE>, ModelError>)
        ensures
            match r {
                Ok(map) => cde_entries(cdes.deep_view()) == Ok::<Seq<CDEModel>, ModelError>(
                    map.deep_view(),
                ),
                Err(e) => cde_entries(cdes.deep_view()) == Err::<Seq<CDEModel>, ModelError>(e),
            },
    {
        let ghost items = cdes.deep_view();
        let ghost decode = |v: JsonModel| cde_entry(v);
        let mut map: Vec<CDE> = Vec::new();
        let mut repeated = false;
        let mut i: usize = 0;
        assert(items.take(0) =~= Seq::<JsonModel>::empty());
        assert(map.deep_view() =~= Seq::<CDEModel>::empty());
        while i < cdes.len()
            invariant
                i <= cdes.len(),
                items == cdes.deep_view(),
                decode == (|v: JsonModel| cde_entry(v)),
                collect(items.take(i as int), decode) == Ok::<Seq<CDEModel>, ModelError>(
                    map.deep_view(),
                ),
                repeated == !distinct_keys(map.deep_view(), cde_code()),
            decreases cdes.len() - i,
        {
            proof {
                lemma_collect_step(items, decode, i as int);
            }
            match Self::get_cde(&cdes[i]) {
                Err(e) => {
                    proof {
                        lemma_collect_rest(items, decode, i as int + 1);
                    }
                    return Err(e);
                },
                Ok(cde) => {
                    let ghost before = map.deep_view();
                    proof {
                        lemma_distinct_push(before, cde_code(), cde@);
                    }
                    if find_cde(&map, &cde.code).is_some() {
                        repeated = true;
                    }
                    map.push(cde);
                    assert(map.deep_view() =~= before.push(cde@));
                },
            }
            i += 1;
        }
        assert(items.take(cdes.len() as int) =~= items);
        if repeated {
            Err(ModelError::DuplicateCdes)
        } else {
            Ok(map)
        }
    }
}

/// An error among the first items of a list is the error of the whole list.
pub proof fn lemma_collect_rest<T>(
    items: Seq<JsonModel>,
    decode: spec_fn(JsonModel) -> Result<T, ModelError>,
    i: int,
)
    requires
        0 <= i <= items.len(),
        collect(items.take(i), decode) is Err,
    ensures
        collect(items, decode) == collect(items.take(i), decode),
    decreases items.len() - i,
{
    if i == items.len() {
        assert(items.take(i) =~= items);
    } else {
        lemma_collect_step(items, decode, i);
        lemma_collect_rest(items, decode, i + 1);
    }
}

/// What holds of every decoded value holds of every value of a decoded list.
pub proof fn lemma_collect_all<T>(
    items: Seq<JsonModel>,
    decode: spec_fn(JsonModel) -> Result<T, ModelError>,
    holds: spec_fn(T) -> bool,
)
    requires
        forall|v: JsonModel| (#[trigger] decode(v)) matches Ok(x) ==> holds(x),
        collect(items, decode) is Ok,
    ensures
        forall|i: int|
            0 <= i < collect(items, decode)->Ok_0.len() ==> holds(
                #[trigger] collect(items, decode)->Ok_0[i],
            ),
    decreases items.len(),
{
    if items.len() > 0 {
        lemma_collect_all(items.drop_last(), decode, holds);
        assert(decode(items.last()) is Ok);
    }
}

/// A decoded value is well-formed: a text is not empty and a range holds
/// something.
pub proof fn lemma_cde_value_wf(v: JsonModel)
    ensures
        cde_value(v) matches Ok(Some(value)) ==> value.wf(),
{
    if let JsonModel::Array(items) = v {
        if all_texts(items) && items.len() > 0 {
            let texts = texts_of(items);
            let range = texts.to_set();
            vstd::seq_lib::seq_to_set_is_finite(texts);
            assert(texts.contains(texts[0]));
            assert(range.contains(texts[0]));
            if range.len() == 0 {
                range.lemma_len0_is_empty();
                assert(false);
            }
        }
    }
}

/// A decoded mapping of coded data elements is well-formed.
pub proof fn lemma_cde_entries_wf(items: Seq<JsonModel>)
    ensures
        cde_entries(items) matches Ok(cdes) ==> crate::clinical_data::cde_map_wf(cdes),
{
    let decode = |v: JsonModel| cde_entry(v);
    let holds = |c: CDEModel| c.value.wf();
    if cde_entries(items) is Ok {
        assert forall|v: JsonModel| (#[trigger] decode(v)) matches Ok(x) ==> holds(x) by {
            if v.get("value"@) is Some {
                lemma_cde_value_wf(v.get("value"@)->0);
            }
        }
        lemma_collect_all(items, decode, holds);
    }
}

} // verus!
