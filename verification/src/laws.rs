//! What holds of every comparison and of every export.

use crate::clinical_data::{
    cde_code,
    datum_shape,
    distinct_keys,
    form_name,
    CDEModel,
    CDESVariantModel,
    CDEValueModel,
    ClinicalDatumModel,
    FormModel,
    PatientSliceModel,
    SectionModel,
};
use crate::compare::{
    cde_differences,
    cde_rules,
    instance_report,
    instances_report,
    longer_len,
    section_cdes_report,
    section_code_report,
    section_differences,
    section_multiple_report,
    section_rules,
    section_variant_report,
    values_differ,
};
use crate::compare_records::{
    datum_differences,
    datum_forms_report,
    datum_patient_report,
    datum_variant_report,
    form_differences,
    form_name_report,
    form_rules,
    form_sections_report,
};
use crate::compare_slices::{
    datum_rules,
    slice_data_report,
    slice_differences,
    slice_patient_report,
};
use crate::decode_records::{form_entries, form_entry};
use crate::decode_values::{collect, lemma_distinct_push};
use crate::diff::{
    find,
    left_entry,
    left_pass,
    lemma_find_none,
    lemma_find_own,
    mapping_diff,
    right_entry,
    right_pass,
    MappingRules,
};
use crate::differences::{
    CDEDifferenceModel,
    CDEDifferenceTypeModel,
    ClinicalDatumDifferenceModel,
    ClinicalDatumDifferenceTypeModel,
    FormDifferenceModel,
    FormDifferenceTypeModel,
    SectionDifferenceModel,
    SectionDifferenceTypeModel,
};
use crate::error::ModelError;
use crate::json::JsonModel;
use crate::number::{spec_differ, tolerance};
use crate::streaming::{
    fill,
    gathered_slices,
    lemma_fill_takes,
    line_kind,
    next_slice,
    slice_of,
    slices,
    state_after,
};
use vstd::arithmetic::power2::lemma_pow2_pos;
use vstd::prelude::*;

verus! {

/// A mapping compared with itself reports nothing, where its keys are
/// distinct and no entry differs from itself.
pub proof fn lemma_mapping_self<E, K, D>(rules: MappingRules<E, K, D>, m: Seq<E>)
    requires
        distinct_keys(m, rules.key),
        forall|i: int| 0 <= i < m.len() ==> (#[trigger] (rules.both)(m[i], m[i])).len() == 0,
    ensures
        mapping_diff(rules, m, m) == Seq::<D>::empty(),
{
    lemma_left_self(rules, m, m.len() as int);
    lemma_right_self(rules, m, m.len() as int);
    assert(m.take(m.len() as int) =~= m);
    assert(mapping_diff(rules, m, m) =~= Seq::<D>::empty());
}

proof fn lemma_left_self<E, K, D>(rules: MappingRules<E, K, D>, m: Seq<E>, n: int)
    requires
        0 <= n <= m.len(),
        distinct_keys(m, rules.key),
        forall|i: int| 0 <= i < m.len() ==> (#[trigger] (rules.both)(m[i], m[i])).len() == 0,
    ensures
        left_pass(rules, m.take(n), m) == Seq::<D>::empty(),
    decreases n,
{
    if n > 0 {
        lemma_left_self(rules, m, n - 1);
        assert(m.take(n).drop_last() =~= m.take(n - 1));
        lemma_find_own(m, rules.key, n - 1);
        assert((rules.both)(m[n - 1], m[n - 1]).len() == 0);
        assert(left_entry(rules, m[n - 1], m) =~= Seq::<D>::empty());
        assert(left_pass(rules, m.take(n), m) =~= Seq::<D>::empty());
    }
}

proof fn lemma_right_self<E, K, D>(rules: MappingRules<E, K, D>, m: Seq<E>, n: int)
    requires
        0 <= n <= m.len(),
        distinct_keys(m, rules.key),
    ensures
        right_pass(rules, m, m.take(n)) == Seq::<D>::empty(),
    decreases n,
{
    if n > 0 {
        lemma_right_self(rules, m, n - 1);
        assert(m.take(n).drop_last() =~= m.take(n - 1));
        lemma_find_own(m, rules.key, n - 1);
        assert(right_pass(rules, m, m.take(n)) =~= Seq::<D>::empty());
    }
}

/// A number does not differ from itself.
pub proof fn law_number_equals_itself(bits: u64)
    ensures
        !spec_differ(bits, bits),
{
    lemma_pow2_pos(1014);
    assert(tolerance() > 0) by (nonlinear_arith)
        requires
            tolerance() == 11529215046068471 * vstd::arithmetic::power2::pow2(1014),
            vstd::arithmetic::power2::pow2(1014) > 0,
    ;
}

/// A coded data element compared with itself reports nothing, whatever the
/// variant of its value.
pub proof fn law_cde_equals_itself(a: CDEModel)
    ensures
        cde_differences(a, a) == Seq::<CDEDifferenceModel>::empty(),
{
    if let CDEValueModel::Number(bits) = a.value {
        law_number_equals_itself(bits);
    }
}

/// A mapping of coded data elements with distinct codes, compared with
/// itself, reports nothing.
pub proof fn law_cde_map_equals_itself(m: Seq<CDEModel>)
    requires
        distinct_keys(m, cde_code()),
    ensures
        mapping_diff(cde_rules(), m, m) == Seq::<CDEDifferenceModel>::empty(),
{
    assert forall|i: int| 0 <= i < m.len() implies (#[trigger] (cde_rules().both)(
        m[i],
        m[i],
    )).len() == 0 by {
        law_cde_equals_itself(m[i]);
    }
    lemma_mapping_self(cde_rules(), m);
}

proof fn lemma_instances_self(code: Seq<char>, xs: Seq<Seq<CDEModel>>, n: nat)
    requires
        n <= xs.len(),
        forall|i: int| 0 <= i < xs.len() ==> distinct_keys(#[trigger] xs[i], cde_code()),
    ensures
        instances_report(code, xs, xs, n) == Seq::<SectionDifferenceModel>::empty(),
    decreases n,
{
    if n > 0 {
        lemma_instances_self(code, xs, (n - 1) as nat);
        law_cde_map_equals_itself(xs[n - 1]);
        assert(instances_report(code, xs, xs, n) =~= Seq::<SectionDifferenceModel>::empty());
    }
}

/// A well-formed section compared with itself reports nothing.
pub proof fn law_section_equals_itself(s: SectionModel)
    requires
        s.wf(),
    ensures
        section_differences(s, s) == Seq::<SectionDifferenceModel>::empty(),
{
    match s.cdes {
        CDESVariantModel::Single(x) => {
            law_cde_map_equals_itself(x);
        },
        CDESVariantModel::Multiple(xs) => {
            lemma_instances_self(s.code, xs, xs.len());
        },
    }
    assert(section_differences(s, s) =~= Seq::<SectionDifferenceModel>::empty());
}

proof fn lemma_left_pass_silent<E, K, D>(rules: MappingRules<E, K, D>, a: Seq<E>, b: Seq<E>)
    ensures
        left_pass(rules, a, b).len() == 0 <==> forall|i: int|
            0 <= i < a.len() ==> left_entry(rules, #[trigger] a[i], b).len() == 0,
    decreases a.len(),
{
    if a.len() > 0 {
        let front = a.drop_last();
        lemma_left_pass_silent(rules, front, b);
        assert(left_pass(rules, a, b).len() == left_pass(rules, front, b).len() + left_entry(
            rules,
            a.last(),
            b,
        ).len());
        assert forall|i: int| 0 <= i < front.len() implies front[i] == a[i] by {}
        if left_pass(rules, a, b).len() == 0 {
            assert forall|i: int| 0 <= i < a.len() implies left_entry(rules, #[trigger] a[i], b).len()
                == 0 by {
                if i < front.len() {
                    assert(front[i] == a[i]);
                }
            }
        }
    }
}

proof fn lemma_right_pass_silent<E, K, D>(rules: MappingRules<E, K, D>, a: Seq<E>, b: Seq<E>)
    ensures
        right_pass(rules, a, b).len() == 0 <==> forall|j: int|
            0 <= j < b.len() ==> right_entry(rules, a, #[trigger] b[j]).len() == 0,
    decreases b.len(),
{
    if b.len() > 0 {
        let front = b.drop_last();
        lemma_right_pass_silent(rules, a, front);
        assert(right_pass(rules, a, b).len() == right_pass(rules, a, front).len() + right_entry(
            rules,
            a,
            b.last(),
        ).len());
        assert forall|j: int| 0 <= j < front.len() implies front[j] == b[j] by {}
        if right_pass(rules, a, b).len() == 0 {
            assert forall|j: int| 0 <= j < b.len() implies right_entry(rules, a, #[trigger] b[j]).len()
                == 0 by {
                if j < front.len() {
                    assert(front[j] == b[j]);
                }
            }
        }
    }
}

/// Two mappings compare without a difference exactly when they have the
/// same keys and no entry differs from the entry of its key on the other
/// side.
pub proof fn law_mapping_without_differences<E, K, D>(
    rules: MappingRules<E, K, D>,
    a: Seq<E>,
    b: Seq<E>,
)
    ensures
        mapping_diff(rules, a, b).len() == 0 <==> {
            &&& forall|i: int|
                0 <= i < a.len() ==> (find(b, rules.key, (rules.key)(#[trigger] a[i])) matches Some(
                    partner,
                ) && (rules.both)(a[i], partner).len() == 0)
            &&& forall|j: int|
                0 <= j < b.len() ==> find(a, rules.key, (rules.key)(#[trigger] b[j])) is Some
        },
{
    lemma_left_pass_silent(rules, a, b);
    lemma_right_pass_silent(rules, a, b);
    assert(mapping_diff(rules, a, b).len() == left_pass(rules, a, b).len() + right_pass(
        rules,
        a,
        b,
    ).len());
    assert forall|i: int| 0 <= i < a.len() implies (left_entry(rules, #[trigger] a[i], b).len() == 0
        <==> (find(b, rules.key, (rules.key)(a[i])) matches Some(partner) && (rules.both)(
        a[i],
        partner,
    ).len() == 0)) by {}
    assert forall|j: int| 0 <= j < b.len() implies (right_entry(rules, a, #[trigger] b[j]).len() == 0
        <==> find(a, rules.key, (rules.key)(b[j])) is Some) by {}
}

/// Whether two sections are equal as a comparison sees them: the same code,
/// the same flag, and elements of one variant that do not differ. Repeated
/// instances are as many on both sides and do not differ at any place.
pub open spec fn sections_agree(a: SectionModel, b: SectionModel) -> bool {
    &&& a.code == b.code
    &&& a.allow_multiple == b.allow_multiple
    &&& match (a.cdes, b.cdes) {
        (CDESVariantModel::Single(x), CDESVariantModel::Single(y)) => mapping_diff(
            cde_rules(),
            x,
            y,
        ).len() == 0,
        (CDESVariantModel::Multiple(xs), CDESVariantModel::Multiple(ys)) => {
            &&& xs.len() == ys.len()
            &&& forall|i: int|
                0 <= i < xs.len() ==> mapping_diff(cde_rules(), #[trigger] xs[i], ys[i]).len()
                    == 0
        },
        _ => false,
    }
}

/// The first places of two lists of repeated instances report nothing
/// exactly when both lists have each of these places and the instances at
/// none of them differ.
proof fn lemma_instances_silent(
    code: Seq<char>,
    xs: Seq<Seq<CDEModel>>,
    ys: Seq<Seq<CDEModel>>,
    n: nat,
)
    ensures
        instances_report(code, xs, ys, n).len() == 0 <==> n <= xs.len() && n <= ys.len()
            && forall|i: int|
            0 <= i < n ==> mapping_diff(cde_rules(), #[trigger] xs[i], ys[i]).len() == 0,
    decreases n,
{
    if n > 0 {
        lemma_instances_silent(code, xs, ys, (n - 1) as nat);
        let before = instances_report(code, xs, ys, (n - 1) as nat);
        let last = instance_report(code, xs, ys, n - 1);
        assert(instances_report(code, xs, ys, n).len() == before.len() + last.len());
        if n <= xs.len() && n <= ys.len() {
            assert(last.len() == 0 <==> mapping_diff(cde_rules(), xs[n - 1], ys[n - 1]).len() == 0);
        } else {
            assert(last.len() == 1);
        }
    }
}

/// Two sections compare without a difference exactly when they are equal
/// as a comparison sees them; in particular two sections with different
/// numbers of repeated instances always differ.
pub proof fn law_section_without_differences(a: SectionModel, b: SectionModel)
    ensures
        section_differences(a, b).len() == 0 <==> sections_agree(a, b),
        section_differences(a, b).len() == 0 ==> (a.cdes matches CDESVariantModel::Multiple(xs)
            ==> b.cdes matches CDESVariantModel::Multiple(ys) && xs.len() == ys.len()),
{
    let one = section_code_report(a, b);
    let two = section_multiple_report(a, b);
    let three = section_variant_report(a, b);
    let four = section_cdes_report(a, b);
    assert(section_differences(a, b).len() == one.len() + two.len() + three.len() + four.len());
    match (a.cdes, b.cdes) {
        (CDESVariantModel::Multiple(xs), CDESVariantModel::Multiple(ys)) => {
            lemma_instances_silent(a.code, xs, ys, longer_len(xs, ys));
        },
        _ => {},
    }
}

/// Two coded data elements compare without a difference exactly when their
/// values are of one variant and do not differ. The codes are not compared.
pub proof fn law_cde_without_differences(a: CDEModel, b: CDEModel)
    ensures
        cde_differences(a, b).len() == 0 <==> a.value.tag() == b.value.tag() && !values_differ(
            a.value,
            b.value,
        ),
{
}

/// Two forms compare without a difference exactly when they have one name
/// and their sections compare without a difference.
pub proof fn law_form_without_differences(a: FormModel, b: FormModel)
    ensures
        form_differences(a, b).len() == 0 <==> a.name == b.name && mapping_diff(
            section_rules(),
            a.sections,
            b.sections,
        ).len() == 0,
{
    assert(form_differences(a, b).len() == form_name_report(a, b).len() + form_sections_report(
        a,
        b,
    ).len());
}

/// Two records compare without a difference exactly when they have one
/// patient and one kind and their forms compare without a difference. The
/// ids are not compared.
pub proof fn law_datum_without_differences(a: ClinicalDatumModel, b: ClinicalDatumModel)
    ensures
        datum_differences(a, b).len() == 0 <==> a.patient == b.patient && a.variant == b.variant
            && mapping_diff(form_rules(), a.forms, b.forms).len() == 0,
{
    assert(datum_differences(a, b).len() == datum_patient_report(a, b).len()
        + datum_variant_report(a, b).len() + datum_forms_report(a, b).len());
}

/// Two slices compare without a difference exactly when they have one
/// patient and their records, paired by shape, compare without a difference.
pub proof fn law_slice_without_differences(a: PatientSliceModel, b: PatientSliceModel)
    ensures
        slice_differences(a, b).len() == 0 <==> a.patient == b.patient && mapping_diff(
            datum_rules(),
            a.clinical_data,
            b.clinical_data,
        ).len() == 0,
{
    assert(slice_differences(a, b).len() == slice_patient_report(a, b).len() + slice_data_report(
        a,
        b,
    ).len());
}

/// A well-formed form compared with itself reports nothing.
pub proof fn law_form_equals_itself(f: FormModel)
    requires
        f.wf(),
    ensures
        form_differences(f, f) == Seq::<FormDifferenceModel>::empty(),
{
    assert forall|i: int| 0 <= i < f.sections.len() implies (#[trigger] (section_rules().both)(
        f.sections[i],
        f.sections[i],
    )).len() == 0 by {
        law_section_equals_itself(f.sections[i]);
    }
    lemma_mapping_self(section_rules(), f.sections);
    assert(form_differences(f, f) =~= Seq::<FormDifferenceModel>::empty());
}

/// A well-formed record compared with itself reports nothing.
pub proof fn law_datum_equals_itself(d: ClinicalDatumModel)
    requires
        d.wf(),
    ensures
        datum_differences(d, d) == Seq::<ClinicalDatumDifferenceModel>::empty(),
{
    assert forall|i: int| 0 <= i < d.forms.len() implies (#[trigger] (form_rules().both)(
        d.forms[i],
        d.forms[i],
    )).len() == 0 by {
        law_form_equals_itself(d.forms[i]);
    }
    lemma_mapping_self(form_rules(), d.forms);
    assert(datum_differences(d, d) =~= Seq::<ClinicalDatumDifferenceModel>::empty());
}

/// A well-formed slice compared with itself reports nothing.
pub proof fn law_slice_equals_itself(s: PatientSliceModel)
    requires
        s.wf(),
    ensures
        slice_differences(s, s).len() == 0,
{
    assert forall|i: int| 0 <= i < s.clinical_data.len() implies (#[trigger] (datum_rules().both)(
        s.clinical_data[i],
        s.clinical_data[i],
    )).len() == 0 by {
        law_datum_equals_itself(s.clinical_data[i]);
    }
    lemma_mapping_self(datum_rules(), s.clinical_data);
}

/// Two values of different variants report one difference of variant and no
/// difference of value: so a number against a string.
pub proof fn law_variant_only(a: CDEModel, b: CDEModel)
    requires
        a.value.tag() != b.value.tag(),
    ensures
        cde_differences(a, b) == seq![
            CDEDifferenceModel {
                code: a.code,
                diff: CDEDifferenceTypeModel::Variant(a.value, b.value),
            },
        ],
        forall|i: int|
            0 <= i < cde_differences(a, b).len() ==> !((#[trigger] cde_differences(
                a,
                b,
            )[i]).diff is Equality),
{
}

/// The number of lines since the last line that ended an element.
pub open spec fn since_terminator(lines: Seq<Seq<char>>) -> nat
    decreases lines.len(),
{
    if lines.len() == 0 {
        0
    } else if line_kind(lines.last()) is Terminator {
        0
    } else {
        since_terminator(lines.drop_last()) + 1
    }
}

/// The reader never holds more lines than it has read since the last end of
/// an element: what it holds is bounded by the length of one element,
/// however many elements came before.
pub proof fn law_reader_holds_one_element(lines: Seq<Seq<char>>)
    ensures
        state_after(lines).partial.len() <= since_terminator(lines),
        state_after(lines).finished ==> state_after(lines).partial.len() == 0,
    decreases lines.len(),
{
    if lines.len() > 0 {
        law_reader_holds_one_element(lines.drop_last());
    }
}

/// The values of a decoded list stand at the places of their items.
proof fn lemma_collect_places<T>(
    items: Seq<JsonModel>,
    decode: spec_fn(JsonModel) -> Result<T, ModelError>,
)
    requires
        collect(items, decode) is Ok,
    ensures
        collect(items, decode)->Ok_0.len() == items.len(),
        forall|i: int|
            0 <= i < items.len() ==> decode(#[trigger] items[i]) == Ok::<T, ModelError>(
                collect(items, decode)->Ok_0[i],
            ),
    decreases items.len(),
{
    if items.len() > 0 {
        let rest = items.drop_last();
        lemma_collect_places(rest, decode);
        assert forall|i: int| 0 <= i < items.len() implies decode(#[trigger] items[i]) == Ok::<
            T,
            ModelError,
        >(collect(items, decode)->Ok_0[i]) by {
            if i < rest.len() {
                assert(rest[i] == items[i]);
            }
        }
    }
}

/// A list of forms of which two share a name is refused: where every form
/// of the list can be decoded, with the error of a repeated form.
pub proof fn law_repeated_form_refused(items: Seq<JsonModel>, i: int, j: int)
    requires
        0 <= i < j < items.len(),
        form_entry(items[i]) is Ok,
        form_entry(items[j]) is Ok,
        form_entry(items[i])->Ok_0.name == form_entry(items[j])->Ok_0.name,
    ensures
        form_entries(items) is Err,
        collect(items, |v: JsonModel| form_entry(v)) is Ok ==> form_entries(items) == Err::<
            Seq<FormModel>,
            ModelError,
        >(ModelError::DuplicateForms),
{
    let decode = |v: JsonModel| form_entry(v);
    if collect(items, decode) is Ok {
        lemma_collect_places(items, decode);
        let forms = collect(items, decode)->Ok_0;
        assert(decode(items[i]) == Ok::<FormModel, ModelError>(forms[i]));
        assert(decode(items[j]) == Ok::<FormModel, ModelError>(forms[j]));
        assert(form_name()(forms[i]) == form_name()(forms[j]));
    }
}

/// The number of characters of some lines.
pub open spec fn total_chars(lines: Seq<Seq<char>>) -> nat
    decreases lines.len(),
{
    if lines.len() == 0 {
        0
    } else {
        total_chars(lines.drop_last()) + lines.last().len()
    }
}

/// The number of characters read since the last line that ended an element.
pub open spec fn chars_since_terminator(lines: Seq<Seq<char>>) -> nat
    decreases lines.len(),
{
    if lines.len() == 0 {
        0
    } else if line_kind(lines.last()) is Terminator {
        0
    } else {
        chars_since_terminator(lines.drop_last()) + lines.last().len()
    }
}

/// The reader never holds more characters than it has read since the last
/// end of an element.
pub proof fn law_reader_holds_one_element_text(lines: Seq<Seq<char>>)
    ensures
        total_chars(state_after(lines).partial) <= chars_since_terminator(lines),
        state_after(lines).finished ==> state_after(lines).partial.len() == 0,
    decreases lines.len(),
{
    if lines.len() > 0 {
        let before = state_after(lines.drop_last());
        law_reader_holds_one_element_text(lines.drop_last());
        if !before.finished && line_kind(lines.last()) is Content {
            assert(before.partial.push(lines.last()).drop_last() =~= before.partial);
        }
    }
}

/// The rules of a comparison keep their reports apart: what is reported of
/// a pair is never a report of a missing entry, a report of an entry missing
/// on one side is none of an entry missing on the other, and a report of a
/// missing entry tells which entry it is.
pub open spec fn reports_apart<E, K, D>(rules: MappingRules<E, K, D>) -> bool {
    &&& forall|x: E, y: E, e: E|
        !(#[trigger] (rules.both)(x, y)).contains(#[trigger] (rules.left_only)(e))
    &&& forall|x: E, y: E, e: E|
        !(#[trigger] (rules.both)(x, y)).contains(#[trigger] (rules.right_only)(e))
    &&& forall|x: E, e: E| #[trigger] (rules.left_only)(x) != #[trigger] (rules.right_only)(e)
    &&& forall|x: E, e: E|
        #[trigger] (rules.left_only)(x) == #[trigger] (rules.left_only)(e) ==> x == e
    &&& forall|x: E, e: E|
        #[trigger] (rules.right_only)(x) == #[trigger] (rules.right_only)(e) ==> x == e
}

proof fn lemma_concat_contains<D>(s: Seq<D>, t: Seq<D>, d: D)
    ensures
        (s + t).contains(d) <==> s.contains(d) || t.contains(d),
{
    if (s + t).contains(d) {
        let i = choose|i: int| 0 <= i < (s + t).len() && (s + t)[i] == d;
        if i < s.len() {
            assert(s[i] == d);
        } else {
            assert(t[i - s.len()] == d);
        }
    }
    if s.contains(d) {
        let i = choose|i: int| 0 <= i < s.len() && s[i] == d;
        assert((s + t)[i] == d);
    }
    if t.contains(d) {
        let j = choose|j: int| 0 <= j < t.len() && t[j] == d;
        assert((s + t)[s.len() + j] == d);
    }
}

proof fn lemma_left_pass_contains<E, K, D>(
    rules: MappingRules<E, K, D>,
    left: Seq<E>,
    right: Seq<E>,
    d: D,
)
    ensures
        left_pass(rules, left, right).contains(d) <==> exists|i: int|
            0 <= i < left.len() && left_entry(rules, #[trigger] left[i], right).contains(d),
    decreases left.len(),
{
    if left.len() == 0 {
        assert(!Seq::<D>::empty().contains(d));
    } else {
        let rest = left.drop_last();
        lemma_left_pass_contains(rules, rest, right, d);
        lemma_concat_contains(
            left_pass(rules, rest, right),
            left_entry(rules, left.last(), right),
            d,
        );
        if left_pass(rules, left, right).contains(d) {
            if left_pass(rules, rest, right).contains(d) {
                let i = choose|i: int|
                    0 <= i < rest.len() && left_entry(rules, #[trigger] rest[i], right).contains(d);
                assert(left[i] == rest[i]);
            } else {
                assert(left[left.len() - 1] == left.last());
            }
        }
        if exists|i: int|
            0 <= i < left.len() && left_entry(rules, #[trigger] left[i], right).contains(d) {
            let i = choose|i: int|
                0 <= i < left.len() && left_entry(rules, #[trigger] left[i], right).contains(d);
            if i < rest.len() {
                assert(rest[i] == left[i]);
            }
        }
    }
}

proof fn lemma_right_pass_contains<E, K, D>(
    rules: MappingRules<E, K, D>,
    left: Seq<E>,
    right: Seq<E>,
    d: D,
)
    ensures
        right_pass(rules, left, right).contains(d) <==> exists|i: int|
            0 <= i < right.len() && right_entry(rules, left, #[trigger] right[i]).contains(d),
    decreases right.len(),
{
    if right.len() == 0 {
        assert(!Seq::<D>::empty().contains(d));
    } else {
        let rest = right.drop_last();
        lemma_right_pass_contains(rules, left, rest, d);
        lemma_concat_contains(
            right_pass(rules, left, rest),
            right_entry(rules, left, right.last()),
            d,
        );
        if right_pass(rules, left, right).contains(d) {
            if right_pass(rules, left, rest).contains(d) {
                let i = choose|i: int|
                    0 <= i < rest.len() && right_entry(rules, left, #[trigger] rest[i]).contains(d);
                assert(right[i] == rest[i]);
            } else {
                assert(right[right.len() - 1] == right.last());
            }
        }
        if exists|i: int|
            0 <= i < right.len() && right_entry(rules, left, #[trigger] right[i]).contains(d) {
            let i = choose|i: int|
                0 <= i < right.len() && right_entry(rules, left, #[trigger] right[i]).contains(d);
            if i < rest.len() {
                assert(rest[i] == right[i]);
            }
        }
    }
}

/// An entry is reported as missing on the right exactly when the left
/// mapping holds it and the right mapping has no entry of its key.
pub proof fn lemma_left_only_reported<E, K, D>(
    rules: MappingRules<E, K, D>,
    a: Seq<E>,
    b: Seq<E>,
    e: E,
)
    requires
        reports_apart(rules),
    ensures
        mapping_diff(rules, a, b).contains((rules.left_only)(e)) <==> a.contains(e) && find(
            b,
            rules.key,
            (rules.key)(e),
        ) is None,
{
    let d = (rules.left_only)(e);
    lemma_concat_contains(left_pass(rules, a, b), right_pass(rules, a, b), d);
    lemma_left_pass_contains(rules, a, b, d);
    lemma_right_pass_contains(rules, a, b, d);
    if right_pass(rules, a, b).contains(d) {
        let i = choose|i: int|
            0 <= i < b.len() && right_entry(rules, a, #[trigger] b[i]).contains(d);
        let entry = right_entry(rules, a, b[i]);
        let at = choose|at: int| 0 <= at < entry.len() && entry[at] == d;
        assert(entry[at] == (rules.right_only)(b[i]));
        assert(false);
    }
    if left_pass(rules, a, b).contains(d) {
        let i = choose|i: int| 0 <= i < a.len() && left_entry(rules, #[trigger] a[i], b).contains(d);
        let entry = left_entry(rules, a[i], b);
        let at = choose|at: int| 0 <= at < entry.len() && entry[at] == d;
        if find(b, rules.key, (rules.key)(a[i])) is Some {
            assert((rules.both)(a[i], find(b, rules.key, (rules.key)(a[i]))->0).contains(d));
            assert(false);
        }
        assert(entry[at] == (rules.left_only)(a[i]));
        assert(a[i] == e);
    }
    if a.contains(e) && find(b, rules.key, (rules.key)(e)) is None {
        let i = choose|i: int| 0 <= i < a.len() && a[i] == e;
        assert(left_entry(rules, a[i], b)[0] == d);
        assert(left_entry(rules, a[i], b).contains(d));
    }
}

/// An entry is reported as missing on the left exactly when the right
/// mapping holds it and the left mapping has no entry of its key.
pub proof fn lemma_right_only_reported<E, K, D>(
    rules: MappingRules<E, K, D>,
    a: Seq<E>,
    b: Seq<E>,
    e: E,
)
    requires
        reports_apart(rules),
    ensures
        mapping_diff(rules, a, b).contains((rules.right_only)(e)) <==> b.contains(e) && find(
            a,
            rules.key,
            (rules.key)(e),
        ) is None,
{
    let d = (rules.right_only)(e);
    lemma_concat_contains(left_pass(rules, a, b), right_pass(rules, a, b), d);
    lemma_left_pass_contains(rules, a, b, d);
    lemma_right_pass_contains(rules, a, b, d);
    if left_pass(rules, a, b).contains(d) {
        let i = choose|i: int| 0 <= i < a.len() && left_entry(rules, #[trigger] a[i], b).contains(d);
        let entry = left_entry(rules, a[i], b);
        let at = choose|at: int| 0 <= at < entry.len() && entry[at] == d;
        if find(b, rules.key, (rules.key)(a[i])) is Some {
            assert((rules.both)(a[i], find(b, rules.key, (rules.key)(a[i]))->0).contains(d));
            assert(false);
        }
        assert(entry[at] == (rules.left_only)(a[i]));
        assert(false);
    }
    if right_pass(rules, a, b).contains(d) {
        let i = choose|i: int|
            0 <= i < b.len() && right_entry(rules, a, #[trigger] b[i]).contains(d);
        let entry = right_entry(rules, a, b[i]);
        let at = choose|at: int| 0 <= at < entry.len() && entry[at] == d;
        assert(entry[at] == (rules.right_only)(b[i]));
        assert(b[i] == e);
    }
    if b.contains(e) && find(a, rules.key, (rules.key)(e)) is None {
        let i = choose|i: int| 0 <= i < b.len() && b[i] == e;
        assert(right_entry(rules, a, b[i])[0] == d);
        assert(right_entry(rules, a, b[i]).contains(d));
    }
}

/// Two mappings compared one way and the other report the same entries as
/// missing, with the sides exchanged.
pub proof fn law_missing_swapped<E, K, D>(rules: MappingRules<E, K, D>, a: Seq<E>, b: Seq<E>, e: E)
    requires
        reports_apart(rules),
    ensures
        mapping_diff(rules, a, b).contains((rules.left_only)(e)) <==> mapping_diff(
            rules,
            b,
            a,
        ).contains((rules.right_only)(e)),
        mapping_diff(rules, a, b).contains((rules.right_only)(e)) <==> mapping_diff(
            rules,
            b,
            a,
        ).contains((rules.left_only)(e)),
{
    lemma_left_only_reported(rules, a, b, e);
    lemma_right_only_reported(rules, b, a, e);
    lemma_right_only_reported(rules, a, b, e);
    lemma_left_only_reported(rules, b, a, e);
}

/// The rules for coded data elements keep their reports apart.
pub proof fn lemma_cde_reports_apart()
    ensures
        reports_apart(cde_rules()),
{
    let rules = cde_rules();
    assert forall|x: CDEModel, y: CDEModel, e: CDEModel|
        !(#[trigger] (rules.both)(x, y)).contains(#[trigger] (rules.left_only)(e)) by {
        let s = (rules.both)(x, y);
        if s.contains((rules.left_only)(e)) {
            let i = choose|i: int| 0 <= i < s.len() && s[i] == (rules.left_only)(e);
            assert(!(s[i].diff is Missing));
        }
    }
    assert forall|x: CDEModel, y: CDEModel, e: CDEModel|
        !(#[trigger] (rules.both)(x, y)).contains(#[trigger] (rules.right_only)(e)) by {
        let s = (rules.both)(x, y);
        if s.contains((rules.right_only)(e)) {
            let i = choose|i: int| 0 <= i < s.len() && s[i] == (rules.right_only)(e);
            assert(!(s[i].diff is Missing));
        }
    }
}

/// Two mappings of coded data elements compared one way and the other
/// report the same elements as missing, with the sides exchanged.
pub proof fn law_missing_cdes_swapped(a: Seq<CDEModel>, b: Seq<CDEModel>, c: CDEModel)
    ensures
        mapping_diff(cde_rules(), a, b).contains(
            CDEDifferenceModel {
                code: c.code,
                diff: CDEDifferenceTypeModel::Missing(Some(c), None),
            },
        ) <==> mapping_diff(cde_rules(), b, a).contains(
            CDEDifferenceModel {
                code: c.code,
                diff: CDEDifferenceTypeModel::Missing(None, Some(c)),
            },
        ),
{
    lemma_cde_reports_apart();
    law_missing_swapped(cde_rules(), a, b, c);
}

proof fn lemma_instances_kind(
    code: Seq<char>,
    xs: Seq<Seq<CDEModel>>,
    ys: Seq<Seq<CDEModel>>,
    n: nat,
    d: SectionDifferenceModel,
)
    requires
        instances_report(code, xs, ys, n).contains(d),
    ensures
        d.diff is CDEs,
    decreases n,
{
    if n > 0 {
        lemma_concat_contains(
            instances_report(code, xs, ys, (n - 1) as nat),
            instance_report(code, xs, ys, n - 1),
            d,
        );
        if instances_report(code, xs, ys, (n - 1) as nat).contains(d) {
            lemma_instances_kind(code, xs, ys, (n - 1) as nat, d);
        } else {
            let s = instance_report(code, xs, ys, n - 1);
            let i = choose|i: int| 0 <= i < s.len() && s[i] == d;
            assert(s[i].diff is CDEs);
        }
    } else {
        assert(!Seq::<SectionDifferenceModel>::empty().contains(d));
    }
}

/// The comparison of two sections reports no section as missing.
proof fn lemma_section_reports_none_missing(x: SectionModel, y: SectionModel, d: SectionDifferenceModel)
    requires
        section_differences(x, y).contains(d),
    ensures
        !(d.diff is Missing),
{
    let one = section_code_report(x, y);
    let two = section_multiple_report(x, y);
    let three = section_variant_report(x, y);
    let four = section_cdes_report(x, y);
    lemma_concat_contains(one + two + three, four, d);
    lemma_concat_contains(one + two, three, d);
    lemma_concat_contains(one, two, d);
    if one.contains(d) {
        let i = choose|i: int| 0 <= i < one.len() && one[i] == d;
        assert(one[i].diff is Code);
    } else if two.contains(d) {
        let i = choose|i: int| 0 <= i < two.len() && two[i] == d;
        assert(two[i].diff is AllowMultiple);
    } else if three.contains(d) {
        let i = choose|i: int| 0 <= i < three.len() && three[i] == d;
        assert(three[i].diff is Variant);
    } else {
        match (x.cdes, y.cdes) {
            (CDESVariantModel::Single(a), CDESVariantModel::Single(b)) => {
                let i = choose|i: int| 0 <= i < four.len() && four[i] == d;
                assert(four[i].diff is CDEs);
            },
            (CDESVariantModel::Multiple(xs), CDESVariantModel::Multiple(ys)) => {
                lemma_instances_kind(x.code, xs, ys, longer_len(xs, ys), d);
            },
            _ => {
                assert(!Seq::<SectionDifferenceModel>::empty().contains(d));
            },
        }
    }
}

/// The rules for sections keep their reports apart.
pub proof fn lemma_section_reports_apart()
    ensures
        reports_apart(section_rules()),
{
    let rules = section_rules();
    assert forall|x: SectionModel, y: SectionModel, e: SectionModel|
        !(#[trigger] (rules.both)(x, y)).contains(#[trigger] (rules.left_only)(e)) by {
        if (rules.both)(x, y).contains((rules.left_only)(e)) {
            lemma_section_reports_none_missing(x, y, (rules.left_only)(e));
        }
    }
    assert forall|x: SectionModel, y: SectionModel, e: SectionModel|
        !(#[trigger] (rules.both)(x, y)).contains(#[trigger] (rules.right_only)(e)) by {
        if (rules.both)(x, y).contains((rules.right_only)(e)) {
            lemma_section_reports_none_missing(x, y, (rules.right_only)(e));
        }
    }
}

/// Two mappings of sections compared one way and the other report the same
/// sections as missing, with the sides exchanged.
pub proof fn law_missing_sections_swapped(a: Seq<SectionModel>, b: Seq<SectionModel>, s: SectionModel)
    ensures
        mapping_diff(section_rules(), a, b).contains(
            SectionDifferenceModel {
                code: s.code,
                diff: SectionDifferenceTypeModel::Missing(Some(s), None),
            },
        ) <==> mapping_diff(section_rules(), b, a).contains(
            SectionDifferenceModel {
                code: s.code,
                diff: SectionDifferenceTypeModel::Missing(None, Some(s)),
            },
        ),
{
    lemma_section_reports_apart();
    law_missing_swapped(section_rules(), a, b, s);
}

/// The rules for forms keep their reports apart.
pub proof fn lemma_form_reports_apart()
    ensures
        reports_apart(form_rules()),
{
    let rules = form_rules();
    assert forall|x: FormModel, y: FormModel, d: FormDifferenceModel|
        form_differences(x, y).contains(d) implies !(d.diff is Missing) by {
        let one = form_name_report(x, y);
        let two = form_sections_report(x, y);
        lemma_concat_contains(one, two, d);
        if one.contains(d) {
            let i = choose|i: int| 0 <= i < one.len() && one[i] == d;
            assert(one[i].diff is Name);
        } else {
            let i = choose|i: int| 0 <= i < two.len() && two[i] == d;
            assert(two[i].diff is Sections);
        }
    }
    assert forall|x: FormModel, y: FormModel, e: FormModel|
        !(#[trigger] (rules.both)(x, y)).contains(#[trigger] (rules.left_only)(e)) by {
        assert((rules.left_only)(e).diff is Missing);
    }
    assert forall|x: FormModel, y: FormModel, e: FormModel|
        !(#[trigger] (rules.both)(x, y)).contains(#[trigger] (rules.right_only)(e)) by {
        assert((rules.right_only)(e).diff is Missing);
    }
}

/// Two mappings of forms compared one way and the other report the same
/// forms as missing, with the sides exchanged.
pub proof fn law_missing_forms_swapped(a: Seq<FormModel>, b: Seq<FormModel>, f: FormModel)
    ensures
        mapping_diff(form_rules(), a, b).contains(
            FormDifferenceModel {
                name: f.name,
                diff: FormDifferenceTypeModel::Missing(Some(f), None),
            },
        ) <==> mapping_diff(form_rules(), b, a).contains(
            FormDifferenceModel {
                name: f.name,
                diff: FormDifferenceTypeModel::Missing(None, Some(f)),
            },
        ),
{
    lemma_form_reports_apart();
    law_missing_swapped(form_rules(), a, b, f);
}

/// The rules for the records of a slice keep their reports apart.
pub proof fn lemma_datum_reports_apart()
    ensures
        reports_apart(datum_rules()),
{
    let rules = datum_rules();
    assert forall|x: ClinicalDatumModel, y: ClinicalDatumModel, d: ClinicalDatumDifferenceModel|
        datum_differences(x, y).contains(d) implies !(d.diff is Missing) by {
        let one = datum_patient_report(x, y);
        let two = datum_variant_report(x, y);
        let three = datum_forms_report(x, y);
        lemma_concat_contains(one + two, three, d);
        lemma_concat_contains(one, two, d);
        if one.contains(d) {
            let i = choose|i: int| 0 <= i < one.len() && one[i] == d;
            assert(one[i].diff is Patient);
        } else if two.contains(d) {
            let i = choose|i: int| 0 <= i < two.len() && two[i] == d;
            assert(two[i].diff is Variant);
        } else {
            let i = choose|i: int| 0 <= i < three.len() && three[i] == d;
            assert(three[i].diff is Forms);
        }
    }
    assert forall|x: ClinicalDatumModel, y: ClinicalDatumModel, e: ClinicalDatumModel|
        !(#[trigger] (rules.both)(x, y)).contains(#[trigger] (rules.left_only)(e)) by {
        assert((rules.left_only)(e).diff is Missing);
    }
    assert forall|x: ClinicalDatumModel, y: ClinicalDatumModel, e: ClinicalDatumModel|
        !(#[trigger] (rules.both)(x, y)).contains(#[trigger] (rules.right_only)(e)) by {
        assert((rules.right_only)(e).diff is Missing);
    }
}

/// The records of two slices compared one way and the other are reported
/// as missing alike, with the sides exchanged.
pub proof fn law_missing_records_swapped(
    a: Seq<ClinicalDatumModel>,
    b: Seq<ClinicalDatumModel>,
    d: ClinicalDatumModel,
)
    ensures
        mapping_diff(datum_rules(), a, b).contains(
            ClinicalDatumDifferenceModel {
                proto_context: d.proto_context(),
                diff: ClinicalDatumDifferenceTypeModel::Missing(Some(d), None),
            },
        ) <==> mapping_diff(datum_rules(), b, a).contains(
            ClinicalDatumDifferenceModel {
                proto_context: d.proto_context(),
                diff: ClinicalDatumDifferenceTypeModel::Missing(None, Some(d)),
            },
        ),
{
    lemma_datum_reports_apart();
    law_missing_swapped(datum_rules(), a, b, d);
}

/// A slice in which no shape occurs twice and every record belongs to the
/// slice's patient stays so under every record that can join it.
pub proof fn law_added_record_keeps_slice_sound(slice: PatientSliceModel, datum: ClinicalDatumModel)
    requires
        distinct_keys(slice.clinical_data, datum_shape()),
        slice.one_patient(),
        slice.can_add(datum),
    ensures
        distinct_keys(slice.add(datum).clinical_data, datum_shape()),
        slice.add(datum).one_patient(),
        slice.add(datum).patient == slice.patient,
{
    lemma_find_none(slice.clinical_data, datum_shape(), datum.proto_context());
    lemma_distinct_push(slice.clinical_data, datum_shape(), datum);
    let next = slice.add(datum);
    assert forall|i: int| 0 <= i < next.clinical_data.len() implies (
    #[trigger] next.clinical_data[i]).patient == next.patient by {
        if i < slice.clinical_data.len() {
            assert(next.clinical_data[i] == slice.clinical_data[i]);
        }
    }
}

/// A slice in which no shape occurs twice and every record belongs to the
/// slice's patient stays so when it is filled.
pub proof fn law_filled_slice_stays_sound(slice: PatientSliceModel, records: Seq<ClinicalDatumModel>)
    requires
        distinct_keys(slice.clinical_data, datum_shape()),
        slice.one_patient(),
    ensures
        distinct_keys(fill(slice, records).0.clinical_data, datum_shape()),
        fill(slice, records).0.one_patient(),
        fill(slice, records).0.patient == slice.patient,
    decreases records.len(),
{
    if records.len() > 0 && slice.can_add(records[0]) {
        law_added_record_keeps_slice_sound(slice, records[0]);
        law_filled_slice_stays_sound(slice.add(records[0]), records.drop_first());
    }
}

/// In every slice that is handed out no shape occurs twice and every record
/// belongs to the slice's patient.
pub proof fn law_slices_are_sound(records: Seq<ClinicalDatumModel>)
    requires
        records.len() > 0,
    ensures
        next_slice(records) matches Some((slice, _)) && distinct_keys(
            slice.clinical_data,
            datum_shape(),
        ) && slice.one_patient() && slice.patient == records[0].patient,
{
    let first = PatientSliceModel { patient: records[0].patient, clinical_data: seq![records[0]] };
    law_filled_slice_stays_sound(first, records.drop_first());
}

proof fn lemma_gathered_from(slice: PatientSliceModel, records: Seq<ClinicalDatumModel>)
    ensures
        gathered_slices(Some(slice), records) == seq![fill(slice, records).0] + slices(
            fill(slice, records).1,
        ),
    decreases records.len(),
{
    if records.len() == 0 {
        assert(seq![slice] + Seq::<PatientSliceModel>::empty() =~= seq![slice]);
    } else {
        let rest = records.drop_first();
        if slice.can_add(records[0]) {
            lemma_gathered_from(slice.add(records[0]), rest);
        } else {
            lemma_gathered_from(slice_of(records[0]), rest);
            lemma_fill_takes(slice_of(records[0]), rest);
        }
    }
}

/// Records that arrive one by one are gathered into the same slices as
/// records that are all at hand.
pub proof fn law_gathering_gives_the_same_slices(records: Seq<ClinicalDatumModel>)
    ensures
        gathered_slices(None, records) == slices(records),
{
    if records.len() > 0 {
        let rest = records.drop_first();
        lemma_gathered_from(slice_of(records[0]), rest);
        lemma_fill_takes(slice_of(records[0]), rest);
    }
}

} // verus!
