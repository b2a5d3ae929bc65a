//! Reading an export line by line, and gathering its records into slices.
//!
//! The reader is made for one way of writing an array and no other: `[`
//! alone on the first line, `]` alone on the last, and every element an
//! object whose last line is `    }` or `    },`. It holds the lines of one
//! element at a time and nothing of the elements before it.
//!
//! The records are gathered into one slice for each run of records of one
//! patient. A slice ends where the next record belongs to another patient,
//! or has a shape that the slice already holds: the records of one patient
//! may so be spread over several slices.
//!
//! There are two ways to use this. [`ArrayReader::push_line`] and
//! [`SliceAssembler::push`] take one line and one record at a time and hold
//! one element and one slice, however long the export is. The functions that
//! take all lines or all records at once state the same results for an
//! export that is at hand as a whole, and hold all of it.

use crate::clinical_data::{ClinicalDatum, ClinicalDatumModel, PatientSlice, PatientSliceModel};
use crate::decode_records::datum_of;
use crate::error::ModelError;
use crate::json::{parse_value, parsed_text, value_model, values_model, JsonModel};
use crate::texts::same_text;
use vstd::prelude::*;
use vstd::string::StringExecFns;

verus! {

/// What a line of an export is to the reader.
pub enum LineKind {
    /// `[`: the array begins.
    Open,
    /// `]`: the array ends.
    Close,
    /// `    }` or `    },`: an element ends.
    Terminator,
    /// Any other line: a part of an element.
    Content,
}

pub open spec fn line_kind(line: Seq<char>) -> LineKind {
    if line == "["@ {
        LineKind::Open
    } else if line == "]"@ {
        LineKind::Close
    } else if line == "    }"@ || line == "    },"@ {
        LineKind::Terminator
    } else {
        LineKind::Content
    }
}

/// The reader of an export: the lines of the element that is being read.
#[derive(Debug)]
pub struct ArrayReader {
    pub partial: Vec<String>,
    pub finished: bool,
}

pub struct ArrayReaderModel {
    pub partial: Seq<Seq<char>>,
    pub finished: bool,
}

impl DeepView for ArrayReader {
    type V = ArrayReaderModel;

    open spec fn deep_view(&self) -> ArrayReaderModel {
        ArrayReaderModel { partial: self.partial.deep_view(), finished: self.finished }
    }
}

/// An element of an export that is no JSON document, with its text.
#[derive(Debug)]
pub struct MalformedElement {
    pub text: String,
}

/// Lines put together with a line feed between two.
pub open spec fn joined_lines(lines: Seq<Seq<char>>) -> Seq<char>
    decreases lines.len(),
{
    if lines.len() == 0 {
        Seq::empty()
    } else if lines.len() == 1 {
        lines[0]
    } else {
        joined_lines(lines.drop_last()) + "\n"@ + lines.last()
    }
}

/// The text of an element: its lines and a closing brace.
pub open spec fn element_text(partial: Seq<Seq<char>>) -> Seq<char> {
    joined_lines(partial.push("}"@))
}

/// The reader after one more line. The end of the array empties it and
/// stops it for good; the end of an element empties it; a part of an element
/// is kept.
pub open spec fn after_line(state: ArrayReaderModel, line: Seq<char>) -> ArrayReaderModel {
    if state.finished {
        state
    } else {
        match line_kind(line) {
            LineKind::Open => state,
            LineKind::Close => ArrayReaderModel { partial: Seq::empty(), finished: true },
            LineKind::Terminator => ArrayReaderModel { partial: Seq::empty(), finished: false },
            LineKind::Content => ArrayReaderModel {
                partial: state.partial.push(line),
                finished: false,
            },
        }
    }
}

/// The text of the element that a line completes, if it completes one.
pub open spec fn emitted_text(state: ArrayReaderModel, line: Seq<char>) -> Option<Seq<char>> {
    if !state.finished && line_kind(line) is Terminator {
        Some(element_text(state.partial))
    } else {
        None
    }
}

pub open spec fn fresh_reader() -> ArrayReaderModel {
    ArrayReaderModel { partial: Seq::empty(), finished: false }
}

/// The reader after the given lines.
pub open spec fn state_after(lines: Seq<Seq<char>>) -> ArrayReaderModel
    decreases lines.len(),
{
    if lines.len() == 0 {
        fresh_reader()
    } else {
        after_line(state_after(lines.drop_last()), lines.last())
    }
}

/// The texts of the elements that the given lines complete, in order.
pub open spec fn element_texts(lines: Seq<Seq<char>>) -> Seq<Seq<char>>
    decreases lines.len(),
{
    if lines.len() == 0 {
        Seq::empty()
    } else {
        match emitted_text(state_after(lines.drop_last()), lines.last()) {
            None => element_texts(lines.drop_last()),
            Some(text) => element_texts(lines.drop_last()).push(text),
        }
    }
}

/// The documents that the texts hold, or the first text that holds none.
pub open spec fn parse_all(texts: Seq<Seq<char>>) -> Result<Seq<JsonModel>, Seq<char>>
    decreases texts.len(),
{
    if texts.len() == 0 {
        Ok(Seq::empty())
    } else {
        match parse_all(texts.drop_last()) {
            Err(text) => Err(text),
            Ok(values) => match parsed_text(texts.last()) {
                None => Err(texts.last()),
                Some(value) => Ok(values.push(value)),
            },
        }
    }
}

/// The records that the rows hold, without the rows of collections that are
/// not modelled, or the first error of a row.
pub open spec fn records_of(rows: Seq<JsonModel>) -> Result<Seq<ClinicalDatumModel>, ModelError>
    decreases rows.len(),
{
    if rows.len() == 0 {
        Ok(Seq::empty())
    } else {
        match records_of(rows.drop_last()) {
            Err(e) => Err(e),
            Ok(records) => match datum_of(rows.last()) {
                Err(e) => Err(e),
                Ok(None) => Ok(records),
                Ok(Some(record)) => Ok(records.push(record)),
            },
        }
    }
}

proof fn lemma_lines_step(lines: Seq<Seq<char>>, i: int)
    requires
        0 <= i < lines.len(),
    ensures
        state_after(lines.take(i + 1)) == after_line(state_after(lines.take(i)), lines[i]),
        element_texts(lines.take(i + 1)) == match emitted_text(
            state_after(lines.take(i)),
            lines[i],
        ) {
            None => element_texts(lines.take(i)),
            Some(text) => element_texts(lines.take(i)).push(text),
        },
{
    assert(lines.take(i + 1).drop_last() =~= lines.take(i));
}

proof fn lemma_parse_all_push(texts: Seq<Seq<char>>, text: Seq<char>)
    ensures
        parse_all(texts.push(text)) == match parse_all(texts) {
            Err(t) => Err(t),
            Ok(values) => match parsed_text(text) {
                None => Err(text),
                Some(value) => Ok(values.push(value)),
            },
        },
{
    assert(texts.push(text).drop_last() =~= texts);
}

/// A text among the first that holds no document is the error of all lines.
proof fn lemma_parse_all_rest(lines: Seq<Seq<char>>, i: int)
    requires
        0 <= i <= lines.len(),
        parse_all(element_texts(lines.take(i))) is Err,
    ensures
        parse_all(element_texts(lines)) == parse_all(element_texts(lines.take(i))),
    decreases lines.len() - i,
{
    if i == lines.len() {
        assert(lines.take(i) =~= lines);
    } else {
        lemma_lines_step(lines, i);
        match emitted_text(state_after(lines.take(i)), lines[i]) {
            None => {},
            Some(text) => {
                lemma_parse_all_push(element_texts(lines.take(i)), text);
            },
        }
        lemma_parse_all_rest(lines, i + 1);
    }
}

proof fn lemma_records_step(rows: Seq<JsonModel>, i: int)
    requires
        0 <= i < rows.len(),
    ensures
        records_of(rows.take(i + 1)) == match records_of(rows.take(i)) {
            Err(e) => Err(e),
            Ok(records) => match datum_of(rows[i]) {
                Err(e) => Err(e),
                Ok(None) => Ok(records),
                Ok(Some(record)) => Ok(records.push(record)),
            },
        },
{
    assert(rows.take(i + 1).drop_last() =~= rows.take(i));
}

proof fn lemma_records_rest(rows: Seq<JsonModel>, i: int)
    requires
        0 <= i <= rows.len(),
        records_of(rows.take(i)) is Err,
    ensures
        records_of(rows) == records_of(rows.take(i)),
    decreases rows.len() - i,
{
    if i == rows.len() {
        assert(rows.take(i) =~= rows);
    } else {
        lemma_records_step(rows, i);
        lemma_records_rest(rows, i + 1);
    }
}

/// Lines put together with a line feed between two.
pub fn join_lines(lines: &Vec<String>) -> (r: String)
    ensures
        r@ == joined_lines(lines.deep_view()),
{
    let ghost all = lines.deep_view();
    let mut text = String::new();
    let mut i: usize = 0;
    assert(all.take(0) =~= Seq::<Seq<char>>::empty());
    while i < lines.len()
        invariant
            i <= lines.len(),
            all == lines.deep_view(),
            text@ == joined_lines(all.take(i as int)),
        decreases lines.len() - i,
    {
        assert(all.take(i + 1).drop_last() =~= all.take(i as int));
        if i > 0 {
            text.append("\n");
        } else {
            assert(text@ + all[0] =~= all[0]);
        }
        text.append(lines[i].as_str());
        i += 1;
    }
    assert(all.take(lines.len() as int) =~= all);
    text
}

impl ArrayReader {
    /// A reader that has read nothing.
    pub fn new() -> (r: ArrayReader)
        ensures
            r.deep_view() == fresh_reader(),
    {
        let r = ArrayReader { partial: Vec::new(), finished: false };
        assert(r.partial.deep_view() =~= Seq::<Seq<char>>::empty());
        r
    }

    /// Takes in the next line of the export. A line that ends an element
    /// hands the element out, parsed, and empties the reader; an element
    /// that is no JSON document is an error.
    pub fn push_line(&mut self, line: &str) -> (r: Result<
        Option<serde_json::Value>,
        MalformedElement,
    >)
        ensures
            final(self).deep_view() == after_line(old(self).deep_view(), line@),
            match emitted_text(old(self).deep_view(), line@) {
                None => r matches Ok(None),
                Some(text) => match parsed_text(text) {
                    Some(model) => r matches Ok(Some(v)) && value_model(v) == model,
                    None => r matches Err(e) && e.text@ == text,
                },
            },
    {
        if self.finished || same_text(line, "[") {
            return Ok(None);
        }
        if same_text(line, "]") {
            self.partial.clear();
            self.finished = true;
            assert(self.partial.deep_view() =~= Seq::<Seq<char>>::empty());
            return Ok(None);
        }
        if same_text(line, "    }") || same_text(line, "    },") {
            let ghost before = self.partial.deep_view();
            self.partial.push(String::from_str("}"));
            assert(self.partial.deep_view() =~= before.push("}"@));
            let text = join_lines(&self.partial);
            self.partial.clear();
            assert(self.partial.deep_view() =~= Seq::<Seq<char>>::empty());
            return match parse_value(text.as_str()) {
                Ok(value) => Ok(Some(value)),
                Err(_) => Err(MalformedElement { text }),
            };
        }
        let ghost before = self.partial.deep_view();
        self.partial.push(line.to_owned());
        assert(self.partial.deep_view() =~= before.push(line@));
        Ok(None)
    }
}

/// Reads the elements of an export from its lines.
///
/// This takes the whole export and returns all its elements: it holds as
/// much as the export is long. Where an export is too large for that, hand
/// its lines one by one to [`ArrayReader::push_line`], which holds one
/// element, and the records to [`SliceAssembler::push`], which holds one
/// slice.
pub fn read_array_file_to_values(lines: &Vec<String>) -> (r: Result<
    Vec<serde_json::Value>,
    MalformedElement,
>)
    ensures
        match parse_all(element_texts(lines.deep_view())) {
            Ok(models) => r matches Ok(values) && values_model(values@) == models,
            Err(text) => r matches Err(e) && e.text@ == text,
        },
{
    let ghost all = lines.deep_view();
    let mut reader = ArrayReader::new();
    let mut values: Vec<serde_json::Value> = Vec::new();
    let mut i: usize = 0;
    assert(all.take(0) =~= Seq::<Seq<char>>::empty());
    assert(values_model(values@) =~= Seq::<JsonModel>::empty());
    while i < lines.len()
        invariant
            i <= lines.len(),
            all == lines.deep_view(),
            reader.deep_view() == state_after(all.take(i as int)),
            parse_all(element_texts(all.take(i as int))) == Ok::<Seq<JsonModel>, Seq<char>>(
                values_model(values@),
            ),
        decreases lines.len() - i,
    {
        proof {
            lemma_lines_step(all, i as int);
            match emitted_text(state_after(all.take(i as int)), all[i as int]) {
                None => {},
                Some(text) => {
                    lemma_parse_all_push(element_texts(all.take(i as int)), text);
                },
            }
        }
        match reader.push_line(lines[i].as_str()) {
            Ok(None) => {},
            Ok(Some(value)) => {
                let ghost before = values_model(values@);
                let ghost added = value_model(value);
                values.push(value);
                assert(values_model(values@) =~= before.push(added));
            },
            Err(e) => {
                proof {
                    lemma_parse_all_rest(all, i as int + 1);
                }
                return Err(e);
            },
        }
        i += 1;
    }
    assert(all.take(lines.len() as int) =~= all);
    Ok(values)
}

/// Builds the records of the rows of an export and leaves out the rows of
/// collections that are not modelled.
pub fn map_values_to_clinical_data(values: &Vec<serde_json::Value>) -> (r: Result<
    Vec<ClinicalDatum>,
    ModelError,
>)
    ensures
        match r {
            Ok(records) => records_of(values_model(values@)) == Ok::<
                Seq<ClinicalDatumModel>,
                ModelError,
            >(records.deep_view()),
            Err(e) => records_of(values_model(values@)) == Err::<
                Seq<ClinicalDatumModel>,
                ModelError,
            >(e),
        },
{
    let ghost rows = values_model(values@);
    let mut records: Vec<ClinicalDatum> = Vec::new();
    let mut i: usize = 0;
    assert(rows.take(0) =~= Seq::<JsonModel>::empty());
    assert(records.deep_view() =~= Seq::<ClinicalDatumModel>::empty());
    while i < values.len()
        invariant
            i <= values.len(),
            rows == values_model(values@),
            records_of(rows.take(i as int)) == Ok::<Seq<ClinicalDatumModel>, ModelError>(
                records.deep_view(),
            ),
        decreases values.len() - i,
    {
        proof {
            lemma_records_step(rows, i as int);
        }
        match ClinicalDatum::from(&values[i]) {
            Err(e) => {
                proof {
                    lemma_records_rest(rows, i as int + 1);
                }
                return Err(e);
            },
            Ok(None) => {},
            Ok(Some(record)) => {
                let ghost before = records.deep_view();
                let ghost added = record@;
                records.push(record);
                assert(records.deep_view() =~= before.push(added));
            },
        }
        i += 1;
    }
    assert(rows.take(values.len() as int) =~= rows);
    Ok(records)
}

/// A slice that holds one record.
pub open spec fn slice_of(datum: ClinicalDatumModel) -> PatientSliceModel {
    PatientSliceModel { patient: datum.patient, clinical_data: seq![datum] }
}

/// A slice filled with the records in front that can join it, and the
/// records that are left.
pub open spec fn fill(slice: PatientSliceModel, records: Seq<ClinicalDatumModel>) -> (
    PatientSliceModel,
    Seq<ClinicalDatumModel>,
)
    decreases records.len(),
{
    if records.len() > 0 && slice.can_add(records[0]) {
        fill(slice.add(records[0]), records.drop_first())
    } else {
        (slice, records)
    }
}

/// The first slice of the records and the records after it.
pub open spec fn next_slice(records: Seq<ClinicalDatumModel>) -> Option<
    (PatientSliceModel, Seq<ClinicalDatumModel>),
> {
    if records.len() == 0 {
        None
    } else {
        Some(fill(slice_of(records[0]), records.drop_first()))
    }
}

/// Filling a slice takes records from the front and leaves the others.
pub proof fn lemma_fill_takes(slice: PatientSliceModel, records: Seq<ClinicalDatumModel>)
    ensures
        fill(slice, records).1.len() <= records.len(),
    decreases records.len(),
{
    if records.len() > 0 && slice.can_add(records[0]) {
        lemma_fill_takes(slice.add(records[0]), records.drop_first());
    }
}

/// All the slices of the records, in order: the first slice, then the slices
/// of the records after it.
pub open spec fn slices(records: Seq<ClinicalDatumModel>) -> Seq<PatientSliceModel>
    decreases records.len(),
{
    match next_slice(records) {
        None => Seq::empty(),
        Some((slice, rest)) => if rest.len() < records.len() {
            seq![slice] + slices(rest)
        } else {
            seq![slice]
        },
    }
}

/// The slices that come of records which arrive one by one, the slice that
/// is being gathered last.
pub open spec fn gathered_slices(
    open: Option<PatientSliceModel>,
    records: Seq<ClinicalDatumModel>,
) -> Seq<PatientSliceModel>
    decreases records.len(),
{
    if records.len() == 0 {
        match open {
            None => Seq::empty(),
            Some(slice) => seq![slice],
        }
    } else {
        match open {
            None => gathered_slices(Some(slice_of(records[0])), records.drop_first()),
            Some(slice) => if slice.can_add(records[0]) {
                gathered_slices(Some(slice.add(records[0])), records.drop_first())
            } else {
                seq![slice] + gathered_slices(Some(slice_of(records[0])), records.drop_first())
            },
        }
    }
}

/// The records of an export that have not been handed out yet.
#[derive(Debug)]
pub struct RegistryData {
    /// The records that are left, the next one last.
    pub pending: Vec<ClinicalDatum>,
}

impl RegistryData {
    /// The records that are left, in their order.
    pub open spec fn remaining(&self) -> Seq<ClinicalDatumModel> {
        self.pending.deep_view().reverse()
    }

    /// Takes the records of an export, in their order, all of them at once.
    pub fn from(clinical_data: Vec<ClinicalDatum>) -> (r: RegistryData)
        ensures
            r.remaining() == clinical_data.deep_view(),
    {
        let ghost all = clinical_data.deep_view();
        let mut clinical_data = clinical_data;
        let mut pending: Vec<ClinicalDatum> = Vec::new();
        assert(pending.deep_view() =~= all.skip(all.len() as int).reverse());
        while clinical_data.len() > 0
            invariant
                clinical_data.deep_view() == all.take(clinical_data.len() as int),
                pending.deep_view() == all.skip(clinical_data.len() as int).reverse(),
                clinical_data.len() <= all.len(),
            decreases clinical_data.len(),
        {
            let ghost n = clinical_data.len() as int;
            let ghost before = pending.deep_view();
            let ghost given = clinical_data.deep_view();
            let datum = clinical_data.pop().unwrap();
            assert(datum@ == given[n - 1]);
            assert(clinical_data.deep_view() =~= all.take(n - 1));
            pending.push(datum);
            assert(pending.deep_view() =~= before.push(all[n - 1]));
            assert(before.push(all[n - 1]) =~= all.skip(n - 1).reverse());
        }
        assert(all.skip(0) =~= all);
        let r = RegistryData { pending };
        assert(r.remaining() =~= all);
        r
    }

    /// Hands out the next slice: the next record and the records after it
    /// that can join it.
    pub fn next(&mut self) -> (r: Option<PatientSlice>)
        ensures
            match next_slice(old(self).remaining()) {
                None => r is None && final(self).remaining() == old(self).remaining(),
                Some((slice, rest)) => r matches Some(s) && s@ == slice
                    && final(self).remaining() == rest,
            },
    {
        let ghost start = self.remaining();
        if self.pending.len() == 0 {
            return None;
        }
        let ghost stack = self.pending.deep_view();
        let first = self.pending.pop().unwrap();
        assert(first@ == stack.last());
        assert(self.pending.deep_view() =~= stack.drop_last());
        assert(self.remaining() =~= start.drop_first());
        let mut slice = PatientSlice::from(first.patient);
        slice.add(first);
        assert(slice@.clinical_data =~= seq![start[0]]);
        while self.pending.len() > 0
            invariant
                start.len() > 0,
                start == old(self).remaining(),
                next_slice(start) == Some(fill(slice@, self.remaining())),
            decreases self.pending.len(),
        {
            let ghost stack = self.pending.deep_view();
            let ghost left = self.remaining();
            let n = self.pending.len();
            assert(left[0] == stack.last());
            assert(self.pending[n - 1]@ == stack[n - 1]);
            let ghost before = slice@;
            if !slice.can_add(&self.pending[n - 1]) {
                assert(!before.can_add(left[0]));
                assert(fill(before, left) == (before, left));
                return Some(slice);
            }
            let datum = self.pending.pop().unwrap();
            assert(datum@ == stack.last());
            assert(self.pending.deep_view() =~= stack.drop_last());
            assert(self.remaining() =~= left.drop_first());
            slice.add(datum);
        }
        assert(self.remaining() =~= Seq::<ClinicalDatumModel>::empty());
        Some(slice)
    }
}

/// The part of a slice that is being gathered from records that arrive one
/// by one.
#[derive(Debug)]
pub struct SliceAssembler {
    pub open: Option<PatientSlice>,
}

impl SliceAssembler {
    /// The slice that is being gathered, if any.
    pub open spec fn gathered(&self) -> Option<PatientSliceModel> {
        match self.open {
            Some(slice) => Some(slice@),
            None => None,
        }
    }

    /// An assembler that holds nothing.
    pub fn new() -> (r: SliceAssembler)
        ensures
            r.gathered() is None,
    {
        SliceAssembler { open: None }
    }

    /// Takes in the next record. The record joins the slice that is being
    /// gathered where it can; else that slice is handed out and the record
    /// begins the next one.
    pub fn push(&mut self, datum: ClinicalDatum) -> (r: Option<PatientSlice>)
        ensures
            match old(self).gathered() {
                None => r is None && final(self).gathered() == Some(slice_of(datum@)),
                Some(slice) => if slice.can_add(datum@) {
                    r is None && final(self).gathered() == Some(slice.add(datum@))
                } else {
                    r matches Some(done) && done@ == slice && final(self).gathered() == Some(
                        slice_of(datum@),
                    )
                },
            },
    {
        match self.open.take() {
            None => {
                let mut fresh = PatientSlice::from(datum.patient);
                let ghost added = datum@;
                fresh.add(datum);
                assert(fresh@.clinical_data =~= seq![added]);
                self.open = Some(fresh);
                None
            },
            Some(mut slice) => {
                if slice.can_add(&datum) {
                    slice.add(datum);
                    self.open = Some(slice);
                    None
                } else {
                    let mut fresh = PatientSlice::from(datum.patient);
                    let ghost added = datum@;
                    fresh.add(datum);
                    assert(fresh@.clinical_data =~= seq![added]);
                    self.open = Some(fresh);
                    Some(slice)
                }
            },
        }
    }

    /// Hands out the slice that is being gathered, at the end of the
    /// records.
    pub fn finish(&mut self) -> (r: Option<PatientSlice>)
        ensures
            final(self).gathered() is None,
            match old(self).gathered() {
                None => r is None,
                Some(slice) => r matches Some(done) && done@ == slice,
            },
    {
        self.open.take()
    }
}

/// Why an export could not be loaded.
#[derive(Debug)]
pub enum LoadError {
    /// An element is no JSON document.
    Malformed(MalformedElement),
    /// A row is no clinical record.
    Invalid(ModelError),
}

} // verus!
