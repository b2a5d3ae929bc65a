//! The comparison of coded data elements and of mappings of them.

use crate::clinical_data::{
    cde_code,
    section_code,
    CDEModel,
    CDESVariant,
    CDESVariantModel,
    CDEValue,
    CDEValueModel,
    Section,
    SectionModel,
    CDE,
};
use crate::diff::{
    find,
    left_entry,
    left_pass,
    lemma_find_at,
    lemma_find_none,
    lemma_left_pass_step,
    lemma_right_pass_step,
    mapping_diff,
    right_entry,
    right_pass,
    Diff,
    MappingRules,
};
use crate::differences::{
    optional,
    CDEDifference,
    CDEDifferenceModel,
    CDEDifferenceType,
    CDEDifferenceTypeModel,
    SectionDifference,
    SectionDifferenceModel,
    SectionDifferenceType,
    SectionDifferenceTypeModel,
};
use crate::number::{differ, spec_differ};
use crate::texts::same_texts;
use vstd::prelude::*;

verus! {

/// Whether two values of one variant differ. Values without a payload never
/// do; numbers differ beyond the tolerance; ranges differ as sets.
pub open spec fn values_differ(a: CDEValueModel, b: CDEValueModel) -> bool {
    match (a, b) {
        (CDEValueModel::Bool(x), CDEValueModel::Bool(y)) => x != y,
        (CDEValueModel::String(x), CDEValueModel::String(y)) => x != y,
        (CDEValueModel::Number(x), CDEValueModel::Number(y)) => spec_differ(x, y),
        (CDEValueModel::Range(x), CDEValueModel::Range(y)) => x != y,
        (
            CDEValueModel::File { file_name: n1, django_file_id: i1 },
            CDEValueModel::File { file_name: n2, django_file_id: i2 },
        ) => n1 != n2 || i1 != i2,
        _ => false,
    }
}

/// The comparison of two coded data elements: a difference of variant and
/// nothing more where the variants differ, else a difference of value where
/// the values differ, else nothing. The report carries the left code.
pub open spec fn cde_differences(a: CDEModel, b: CDEModel) -> Seq<CDEDifferenceModel> {
    if a.value.tag() != b.value.tag() {
        seq![
            CDEDifferenceModel {
                code: a.code,
                diff: CDEDifferenceTypeModel::Variant(a.value, b.value),
            },
        ]
    } else if values_differ(a.value, b.value) {
        seq![
            CDEDifferenceModel {
                code: a.code,
                diff: CDEDifferenceTypeModel::Equality(a.value, b.value),
            },
        ]
    } else {
        Seq::empty()
    }
}

/// How two mappings of coded data elements are compared.
pub open spec fn cde_rules() -> MappingRules<CDEModel, Seq<char>, CDEDifferenceModel> {
    MappingRules {
        key: cde_code(),
        left_only: |c: CDEModel|
            CDEDifferenceModel {
                code: c.code,
                diff: CDEDifferenceTypeModel::Missing(Some(c), None),
            },
        right_only: |c: CDEModel|
            CDEDifferenceModel {
                code: c.code,
                diff: CDEDifferenceTypeModel::Missing(None, Some(c)),
            },
        both: |a: CDEModel, b: CDEModel| cde_differences(a, b),
    }
}

impl CDEValue {
    /// The number of the variant.
    pub fn tag(&self) -> (t: u8)
        ensures
            t == self@.tag(),
    {
        match self {
            CDEValue::Null => 0,
            CDEValue::Bool(_) => 1,
            CDEValue::EmptyString => 2,
            CDEValue::String(_) => 3,
            CDEValue::Number(_) => 4,
            CDEValue::EmptyRange => 5,
            CDEValue::Range(_) => 6,
            CDEValue::File(_) => 7,
        }
    }

    /// Whether two values of one variant differ.
    pub fn differs_from(&self, comp: &CDEValue) -> (r: bool)
        ensures
            r == values_differ(self@, comp@),
    {
        match (self, comp) {
            (CDEValue::Bool(x), CDEValue::Bool(y)) => *x != *y,
            (CDEValue::String(x), CDEValue::String(y)) => !(*x == *y),
            (CDEValue::Number(x), CDEValue::Number(y)) => differ(*x, *y),
            (CDEValue::Range(x), CDEValue::Range(y)) => !same_texts(x, y),
            (CDEValue::File(x), CDEValue::File(y)) => !(x.file_name == y.file_name)
                || x.django_file_id != y.django_file_id,
            _ => false,
        }
    }
}

impl<'a> Diff<'a> for CDE {
    type Difference = CDEDifference<'a>;

    open spec fn differences(&self, comp: &Self) -> Seq<CDEDifferenceModel> {
        cde_differences(self@, comp@)
    }

    fn diff(&'a self, comp: &'a Self) -> (r: Option<Vec<CDEDifference<'a>>>) {
        if self.value.tag() != comp.value.tag() {
            let mut diffs: Vec<CDEDifference<'a>> = Vec::new();
            diffs.push(
                CDEDifference {
                    code: self.code.as_str(),
                    diff: CDEDifferenceType::Variant(&self.value, &comp.value),
                },
            );
            assert(diffs.deep_view() =~= cde_differences(self@, comp@));
            Some(diffs)
        } else if self.value.differs_from(&comp.value) {
            let mut diffs: Vec<CDEDifference<'a>> = Vec::new();
            diffs.push(
                CDEDifference {
                    code: self.code.as_str(),
                    diff: CDEDifferenceType::Equality(&self.value, &comp.value),
                },
            );
            assert(diffs.deep_view() =~= cde_differences(self@, comp@));
            Some(diffs)
        } else {
            None
        }
    }
}

/// The entry of a mapping that carries the given code.
pub fn find_cde<'a>(cdes: &'a Vec<CDE>, code: &String) -> (r: Option<&'a CDE>)
    ensures
        optional(r) == find(cdes.deep_view(), cde_code(), code@),
{
    let mut i: usize = 0;
    while i < cdes.len()
        invariant
            i <= cdes.len(),
            forall|j: int| 0 <= j < i ==> cde_code()(#[trigger] cdes.deep_view()[j]) != code@,
        decreases cdes.len() - i,
    {
        if cdes[i].code == *code {
            proof {
                lemma_find_at(cdes.deep_view(), cde_code(), code@, i as int);
            }
            return Some(&cdes[i]);
        }
        i += 1;
    }
    proof {
        lemma_find_none(cdes.deep_view(), cde_code(), code@);
    }
    None
}

/// Compares two mappings of coded data elements.
pub fn diff_cdes<'a>(c1: &'a Vec<CDE>, c2: &'a Vec<CDE>) -> (r: Option<Vec<CDEDifference<'a>>>)
    ensures
        r is None <==> mapping_diff(cde_rules(), c1.deep_view(), c2.deep_view()).len() == 0,
        r matches Some(d) ==> d.deep_view() == mapping_diff(
            cde_rules(),
            c1.deep_view(),
            c2.deep_view(),
        ),
{
    let ghost left = c1.deep_view();
    let ghost right = c2.deep_view();
    let mut diffs: Vec<CDEDifference<'a>> = Vec::new();
    let mut i: usize = 0;
    assert(diffs.deep_view() =~= left_pass(cde_rules(), left.take(0), right));
    while i < c1.len()
        invariant
            i <= c1.len(),
            left == c1.deep_view(),
            right == c2.deep_view(),
            diffs.deep_view() == left_pass(cde_rules(), left.take(i as int), right),
        decreases c1.len() - i,
    {
        let ghost before = diffs.deep_view();
        proof {
            lemma_left_pass_step(cde_rules(), left, right, i as int);
        }
        let v1 = &c1[i];
        match find_cde(c2, &v1.code) {
            None => {
                diffs.push(
                    CDEDifference {
                        code: v1.code.as_str(),
                        diff: CDEDifferenceType::Missing(Some(v1), None),
                    },
                );
                assert(diffs.deep_view() =~= before + left_entry(cde_rules(), left[i as int], right));
            },
            Some(v2) => {
                match v1.diff(v2) {
                    None => {
                        assert(diffs.deep_view() =~= before + left_entry(
                            cde_rules(),
                            left[i as int],
                            right,
                        ));
                    },
                    Some(mut found) => {
                        let ghost added = found.deep_view();
                        diffs.append(&mut found);
                        assert(diffs.deep_view() =~= before + added);
                    },
                }
            },
        }
        i += 1;
    }
    assert(left.take(c1.len() as int) =~= left);
    let ghost first = diffs.deep_view();
    let mut j: usize = 0;
    assert(diffs.deep_view() =~= first + right_pass(cde_rules(), left, right.take(0)));
    while j < c2.len()
        invariant
            j <= c2.len(),
            left == c1.deep_view(),
            right == c2.deep_view(),
            first == left_pass(cde_rules(), left, right),
            diffs.deep_view() == first + right_pass(cde_rules(), left, right.take(j as int)),
        decreases c2.len() - j,
    {
        let ghost before = diffs.deep_view();
        proof {
            lemma_right_pass_step(cde_rules(), left, right, j as int);
        }
        let v = &c2[j];
        match find_cde(c1, &v.code) {
            None => {
                diffs.push(
                    CDEDifference {
                        code: v.code.as_str(),
                        diff: CDEDifferenceType::Missing(None, Some(v)),
                    },
                );
                assert(diffs.deep_view() =~= before + right_entry(cde_rules(), left, right[j as int]));
            },
            Some(_) => {
                assert(diffs.deep_view() =~= before + right_entry(cde_rules(), left, right[j as int]));
            },
        }
        j += 1;
    }
    assert(right.take(c2.len() as int) =~= right);
    if diffs.len() == 0 {
        None
    } else {
        Some(diffs)
    }
}

/// Every element of a mapping, reported as missing on the other side: the
/// comparison of the mapping with the empty mapping, which stands on the
/// right where `on_left` holds and on the left where it does not.
pub fn missing_cdes<'a>(cdes: &'a Vec<CDE>, on_left: bool) -> (r: Vec<CDEDifference<'a>>)
    ensures
        r.deep_view() == if on_left {
            mapping_diff(cde_rules(), cdes.deep_view(), Seq::empty())
        } else {
            mapping_diff(cde_rules(), Seq::empty(), cdes.deep_view())
        },
{
    let ghost all = cdes.deep_view();
    let ghost none = Seq::<CDEModel>::empty();
    let mut diffs: Vec<CDEDifference<'a>> = Vec::new();
    let mut i: usize = 0;
    assert(diffs.deep_view() =~= left_pass(cde_rules(), all.take(0), none));
    assert(diffs.deep_view() =~= right_pass(cde_rules(), none, all.take(0)));
    while i < cdes.len()
        invariant
            i <= cdes.len(),
            all == cdes.deep_view(),
            none == Seq::<CDEModel>::empty(),
            on_left ==> diffs.deep_view() == left_pass(cde_rules(), all.take(i as int), none),
            !on_left ==> diffs.deep_view() == right_pass(cde_rules(), none, all.take(i as int)),
        decreases cdes.len() - i,
    {
        let ghost before = diffs.deep_view();
        proof {
            lemma_left_pass_step(cde_rules(), all, none, i as int);
            lemma_right_pass_step(cde_rules(), none, all, i as int);
        }
        let v = &cdes[i];
        if on_left {
            diffs.push(
                CDEDifference {
                    code: v.code.as_str(),
                    diff: CDEDifferenceType::Missing(Some(v), None),
                },
            );
            assert(diffs.deep_view() =~= before + left_entry(cde_rules(), all[i as int], none));
        } else {
            diffs.push(
                CDEDifference {
                    code: v.code.as_str(),
                    diff: CDEDifferenceType::Missing(None, Some(v)),
                },
            );
            assert(diffs.deep_view() =~= before + right_entry(cde_rules(), none, all[i as int]));
        }
        i += 1;
    }
    assert(all.take(cdes.len() as int) =~= all);
    proof {
        if on_left {
            assert(diffs.deep_view() + right_pass(cde_rules(), all, none) =~= diffs.deep_view());
        } else {
            assert(left_pass(cde_rules(), none, all) + diffs.deep_view() =~= diffs.deep_view());
        }
    }
    diffs
}

/// What is reported of two mappings of one section: their differences in
/// one entry, or nothing where they have none.
pub open spec fn cdes_report(code: Seq<char>, x: Seq<CDEModel>, y: Seq<CDEModel>) -> Seq<
    SectionDifferenceModel,
> {
    let d = mapping_diff(cde_rules(), x, y);
    if d.len() == 0 {
        Seq::empty()
    } else {
        seq![SectionDifferenceModel { code, diff: SectionDifferenceTypeModel::CDEs(d) }]
    }
}

/// The instance at a place, or the empty mapping where the list has no such
/// place.
pub open spec fn instance_at(xs: Seq<Seq<CDEModel>>, i: int) -> Seq<CDEModel> {
    if 0 <= i < xs.len() {
        xs[i]
    } else {
        Seq::empty()
    }
}

/// What is reported of the repeated instances at one place. Where both
/// lists have the place, the two instances are compared as mappings. Where
/// only one has it, its instance is compared with the empty mapping and the
/// entry is reported whatever it holds: every element of the instance is
/// missing on the other side.
pub open spec fn instance_report(
    code: Seq<char>,
    xs: Seq<Seq<CDEModel>>,
    ys: Seq<Seq<CDEModel>>,
    i: int,
) -> Seq<SectionDifferenceModel> {
    if i < xs.len() && i < ys.len() {
        cdes_report(code, xs[i], ys[i])
    } else {
        seq![
            SectionDifferenceModel {
                code,
                diff: SectionDifferenceTypeModel::CDEs(
                    mapping_diff(cde_rules(), instance_at(xs, i), instance_at(ys, i)),
                ),
            },
        ]
    }
}

/// What is reported of the first `n` places of two lists of repeated
/// instances, place by place.
pub open spec fn instances_report(
    code: Seq<char>,
    xs: Seq<Seq<CDEModel>>,
    ys: Seq<Seq<CDEModel>>,
    n: nat,
) -> Seq<SectionDifferenceModel>
    decreases n,
{
    if n == 0 {
        Seq::empty()
    } else {
        instances_report(code, xs, ys, (n - 1) as nat) + instance_report(code, xs, ys, n - 1)
    }
}

/// The number of places that at least one of two lists has.
pub open spec fn longer_len<T>(xs: Seq<T>, ys: Seq<T>) -> nat {
    if xs.len() <= ys.len() {
        ys.len()
    } else {
        xs.len()
    }
}

pub open spec fn section_code_report(a: SectionModel, b: SectionModel) -> Seq<SectionDifferenceModel> {
    if a.code != b.code {
        seq![
            SectionDifferenceModel {
                code: a.code,
                diff: SectionDifferenceTypeModel::Code(a.code, b.code),
            },
        ]
    } else {
        Seq::empty()
    }
}

pub open spec fn section_multiple_report(a: SectionModel, b: SectionModel) -> Seq<
    SectionDifferenceModel,
> {
    if a.allow_multiple != b.allow_multiple {
        seq![
            SectionDifferenceModel {
                code: a.code,
                diff: SectionDifferenceTypeModel::AllowMultiple(a.allow_multiple, b.allow_multiple),
            },
        ]
    } else {
        Seq::empty()
    }
}

pub open spec fn section_variant_report(a: SectionModel, b: SectionModel) -> Seq<
    SectionDifferenceModel,
> {
    if (a.cdes is Single) != (b.cdes is Single) {
        seq![
            SectionDifferenceModel {
                code: a.code,
                diff: SectionDifferenceTypeModel::Variant(a.cdes, b.cdes),
            },
        ]
    } else {
        Seq::empty()
    }
}

pub open spec fn section_cdes_report(a: SectionModel, b: SectionModel) -> Seq<SectionDifferenceModel> {
    match (a.cdes, b.cdes) {
        (CDESVariantModel::Single(x), CDESVariantModel::Single(y)) => cdes_report(a.code, x, y),
        (CDESVariantModel::Multiple(xs), CDESVariantModel::Multiple(ys)) => instances_report(
            a.code,
            xs,
            ys,
            longer_len(xs, ys),
        ),
        _ => Seq::empty(),
    }
}

/// The comparison of two sections: their codes, whether they allow repeated
/// instances, the variant of their elements, and, where the variants agree,
/// the elements themselves. Repeated instances are compared place by place;
/// an instance at a place that the other section lacks is reported with all
/// its elements missing, so two sections with different numbers of instances
/// always differ. Every report carries the left code.
pub open spec fn section_differences(a: SectionModel, b: SectionModel) -> Seq<SectionDifferenceModel> {
    section_code_report(a, b) + section_multiple_report(a, b) + section_variant_report(a, b)
        + section_cdes_report(a, b)
}

/// How two mappings of sections are compared.
pub open spec fn section_rules() -> MappingRules<SectionModel, Seq<char>, SectionDifferenceModel> {
    MappingRules {
        key: section_code(),
        left_only: |s: SectionModel|
            SectionDifferenceModel {
                code: s.code,
                diff: SectionDifferenceTypeModel::Missing(Some(s), None),
            },
        right_only: |s: SectionModel|
            SectionDifferenceModel {
                code: s.code,
                diff: SectionDifferenceTypeModel::Missing(None, Some(s)),
            },
        both: |a: SectionModel, b: SectionModel| section_differences(a, b),
    }
}

impl CDESVariant {
    pub fn is_single(&self) -> (r: bool)
        ensures
            r == (self@ is Single),
    {
        match self {
            CDESVariant::Single(_) => true,
            CDESVariant::Multiple(_) => false,
        }
    }
}

impl<'a> Diff<'a> for Section {
    type Difference = SectionDifference<'a>;

    open spec fn differences(&self, comp: &Self) -> Seq<SectionDifferenceModel> {
        section_differences(self@, comp@)
    }

    fn diff(&'a self, comp: &'a Self) -> (r: Option<Vec<SectionDifference<'a>>>) {
        let mut diffs: Vec<SectionDifference<'a>> = Vec::new();
        if !(self.code == comp.code) {
            diffs.push(
                SectionDifference {
                    code: self.code.as_str(),
                    diff: SectionDifferenceType::Code(self.code.as_str(), comp.code.as_str()),
                },
            );
        }
        assert(diffs.deep_view() =~= section_code_report(self@, comp@));
        let ghost one = diffs.deep_view();
        if self.allow_multiple != comp.allow_multiple {
            diffs.push(
                SectionDifference {
                    code: self.code.as_str(),
                    diff: SectionDifferenceType::AllowMultiple(
                        self.allow_multiple,
                        comp.allow_multiple,
                    ),
                },
            );
        }
        assert(diffs.deep_view() =~= one + section_multiple_report(self@, comp@));
        let ghost two = diffs.deep_view();
        if self.cdes.is_single() != comp.cdes.is_single() {
            diffs.push(
                SectionDifference {
                    code: self.code.as_str(),
                    diff: SectionDifferenceType::Variant(&self.cdes, &comp.cdes),
                },
            );
        }
        assert(diffs.deep_view() =~= two + section_variant_report(self@, comp@));
        let ghost three = diffs.deep_view();
        match (&self.cdes, &comp.cdes) {
            (CDESVariant::Single(c1), CDESVariant::Single(c2)) => {
                match diff_cdes(c1, c2) {
                    None => {},
                    Some(d) => {
                        diffs.push(
                            SectionDifference {
                                code: self.code.as_str(),
                                diff: SectionDifferenceType::CDEs(d),
                            },
                        );
                    },
                }
                assert(diffs.deep_view() =~= three + section_cdes_report(self@, comp@));
            },
            (CDESVariant::Multiple(v1), CDESVariant::Multiple(v2)) => {
                let ghost xs = v1.deep_view();
                let ghost ys = v2.deep_view();
                let n = if v1.len() <= v2.len() {
                    v2.len()
                } else {
                    v1.len()
                };
                let mut i: usize = 0;
                assert(diffs.deep_view() =~= three + instances_report(self.code@, xs, ys, 0));
                while i < n
                    invariant
                        i <= n,
                        n == longer_len(xs, ys),
                        xs == v1.deep_view(),
                        ys == v2.deep_view(),
                        diffs.deep_view() == three + instances_report(
                            self.code@,
                            xs,
                            ys,
                            i as nat,
                        ),
                    decreases n - i,
                {
                    let ghost before = diffs.deep_view();
                    let found = if i < v1.len() && i < v2.len() {
                        diff_cdes(&v1[i], &v2[i])
                    } else if i < v1.len() {
                        Some(missing_cdes(&v1[i], true))
                    } else {
                        Some(missing_cdes(&v2[i], false))
                    };
                    match found {
                        None => {},
                        Some(d) => {
                            diffs.push(
                                SectionDifference {
                                    code: self.code.as_str(),
                                    diff: SectionDifferenceType::CDEs(d),
                                },
                            );
                        },
                    }
                    assert(diffs.deep_view() =~= before + instance_report(
                        self.code@,
                        xs,
                        ys,
                        i as int,
                    ));
                    i += 1;
                }
            },
            _ => {
                assert(diffs.deep_view() =~= three + section_cdes_report(self@, comp@));
            },
        }
        if diffs.len() == 0 {
            None
        } else {
            Some(diffs)
        }
    }
}

} // verus!
