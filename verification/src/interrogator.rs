//! The tag list of the image interrogator: the tag names and categories read
//! from the model's `selected_tags.csv`.
use vstd::prelude::*;
use crate::error::AppError;
use crate::text::{chars_of, parse_u32, parse_u32_chars, push_str};
use crate::uri::has_prefix;

verus! {

/// A tag the interrogator can report: its name and category number.
pub struct TagDef {
    pub name: String,
    pub category: u8,
}

impl View for TagDef {
    type V = (Seq<char>, u8);

    open spec fn view(&self) -> (Seq<char>, u8) {
        (self.name@, self.category)
    }
}

/// The records of CSV bytes as the csv crate's `Reader` with its default
/// settings reads them: the first row is the header and is not among them,
/// every row has as many fields as the first, fields are UTF-8; `None` when
/// reading meets an error. A function of the bytes alone.
pub uninterp spec fn csv_records_of(bytes: Seq<u8>) -> Option<Seq<Seq<Seq<char>>>>;

/// csv `Reader::from_reader(..).records()`, each record as its fields: every
/// record, or the first error's message.
#[verifier::external_body]
fn csv_records(bytes: &[u8]) -> (r: Result<Vec<Vec<String>>, String>)
    ensures
        match r {
            Ok(v) => csv_records_of(bytes@) == Some(v.deep_view()),
            Err(_) => csv_records_of(bytes@) is None,
        },
{
    csv::Reader::from_reader(bytes)
        .records()
        .map(|rec| rec.map(|rec| rec.iter().map(|f| f.to_string()).collect::<Vec<String>>()))
        .collect::<Result<Vec<Vec<String>>, csv::Error>>()
        .map_err(|e| e.to_string())
}

/// Field `i` of a record, empty when the record is shorter.
pub open spec fn field(rec: Seq<Seq<char>>, i: int) -> Seq<char> {
    if 0 <= i < rec.len() {
        rec[i]
    } else {
        Seq::empty()
    }
}

/// What `str::parse::<u8>` gives for a text.
pub open spec fn parse_u8(s: Seq<char>) -> Option<u8> {
    match parse_u32(s) {
        Some(v) => if v <= 255 {
            Some(v as u8)
        } else {
            None
        },
        None => None,
    }
}

/// The category of a tag record: its third field as a `u8`, else 0.
pub open spec fn category_of(rec: Seq<Seq<char>>) -> u8 {
    match parse_u8(field(rec, 2)) {
        Some(c) => c,
        None => 0,
    }
}

/// The tags of the records (`tag_id, name, category, count`): one per record
/// whose name is not empty, in order.
pub open spec fn tag_defs(rows: Seq<Seq<Seq<char>>>) -> Seq<(Seq<char>, u8)>
    decreases rows.len(),
{
    if rows.len() == 0 {
        Seq::empty()
    } else {
        let rest = tag_defs(rows.drop_last());
        let rec = rows.last();
        if field(rec, 1).len() > 0 {
            rest.push((field(rec, 1), category_of(rec)))
        } else {
            rest
        }
    }
}

/// The tags as values.
pub open spec fn tags_view(v: Seq<TagDef>) -> Seq<(Seq<char>, u8)> {
    v.map_values(|t: TagDef| t@)
}

fn category_exec(rec: &Vec<String>) -> (c: u8)
    ensures
        c == category_of(rec.deep_view()),
{
    if rec.len() <= 2 {
        return 0;
    }
    let cs = chars_of(rec[2].as_str());
    assert(cs@.subrange(0, cs@.len() as int) =~= cs@);
    match parse_u32_chars(&cs, 0, cs.len()) {
        Some(v) => if v <= 255 {
            v as u8
        } else {
            0
        },
        None => 0,
    }
}

/// The tags of CSV records (see [`tag_defs`]).
pub fn tags_from_records(records: &Vec<Vec<String>>) -> (r: Vec<TagDef>)
    ensures
        tags_view(r@) == tag_defs(records.deep_view()),
{
    let ghost rv = records.deep_view();
    let mut out: Vec<TagDef> = Vec::new();
    let mut i: usize = 0;
    while i < records.len()
        invariant
            i <= records@.len(),
            rv == records.deep_view(),
            tags_view(out@) == tag_defs(rv.take(i as int)),
        decreases records@.len() - i,
    {
        let rec = &records[i];
        assert(rv[i as int] == rec.deep_view());
        assert(rv.take(i + 1).drop_last() =~= rv.take(i as int));
        assert(rv.take(i + 1).last() == rv[i as int]);
        if rec.len() > 1 && rec[1].as_str().unicode_len() > 0 {
            let ghost before = tags_view(out@);
            let t = TagDef { name: rec[1].clone(), category: category_exec(rec) };
            out.push(t);
            assert(tags_view(out@) =~= before.push((field(rv[i as int], 1), category_of(rv[i as int]))));
        }
        i += 1;
    }
    assert(rv.take(records@.len() as int) =~= rv);
    out
}

/// The interrogator's tags from the bytes of its `selected_tags.csv`; a CSV
/// error is reported as an interrogator error `CSV parse error: ...`.
pub fn parse_tags_csv(bytes: &[u8]) -> (r: Result<Vec<TagDef>, AppError>)
    ensures
        match csv_records_of(bytes@) {
            Some(rows) => r matches Ok(v) && tags_view(v@) == tag_defs(rows),
            None => r matches Err(AppError::InterrogatorError(m)) && has_prefix(m@, "CSV parse error: "@),
        },
{
    match csv_records(bytes) {
        Ok(rows) => Ok(tags_from_records(&rows)),
        Err(e) => {
            let mut m = String::from_str("CSV parse error: ");
            let ghost p = m@;
            push_str(&mut m, e.as_str());
            proof {
                reveal_strlit("CSV parse error: ");
                assert(m@.subrange(0, p.len() as int) =~= p);
            }
            Err(AppError::InterrogatorError(m))
        },
    }
}

} // verus!
