//! Parsing text into records and dataframes.
use vstd::prelude::*;
use std::collections::HashMap;
use crate::data::{Data, FormValue};
use crate::dist::{IntDistance, SymmetricDistance};
use crate::dom::{AllDomain, MapDomain, VectorDomain};
use crate::error::Fallible;
use crate::framework::{Domain, Function, LinearRelation, Transformation};
use crate::text::{spec_lines, spec_split, spec_trim, spec_views, split, split_lines, trim};
use crate::traits::HashKey;

verus! {

/// A dataframe: columns of data, keyed by column name.
pub type DataFrame<K> = HashMap<K, Data>;

/// The domain of dataframes.
pub type DataFrameDomain<K> = MapDomain<AllDomain<K>, AllDomain<Data>>;

/// The views of a sequence of strings.
pub open spec fn spec_string_views(v: Seq<String>) -> Seq<Seq<char>> {
    v.map_values(|x: String| x@)
}

/// `record` with `len` cells: cut down where longer, padded with empty
/// strings where shorter.
pub open spec fn spec_conform(len: int, record: Seq<Seq<char>>) -> Seq<Seq<char>> {
    Seq::new(len as nat, |j: int| if j < record.len() { record[j] } else { Seq::<char>::empty() })
}

/// Every record of `records`, conformed to `len` cells.
pub open spec fn spec_conform_all(len: int, records: Seq<Seq<Seq<char>>>) -> Seq<Seq<Seq<char>>> {
    records.map_values(|r: Seq<Seq<char>>| spec_conform(len, r))
}

/// The views of the records.
pub open spec fn spec_record_views(records: Seq<Vec<&str>>) -> Seq<Seq<Seq<char>>> {
    records.map_values(|r: Vec<&str>| spec_views(r@))
}

/// Ensures all records have `len` cells.
pub fn conform_records<'a>(len: usize, records: &[Vec<&'a str>]) -> (r: Vec<Vec<&'a str>>)
    ensures
        spec_record_views(r@) == spec_conform_all(len as int, spec_record_views(records@)),
{
    let empty: &'a str = "";
    proof {
        reveal_strlit("");
    }
    let mut out: Vec<Vec<&'a str>> = Vec::new();
    let mut i: usize = 0;
    while i < records.len()
        invariant
            i <= records@.len(),
            empty@ == Seq::<char>::empty(),
            spec_record_views(out@) == spec_conform_all(len as int, spec_record_views(records@)).take(i as int),
        decreases records@.len() - i,
    {
        let record = &records[i];
        let mut row: Vec<&'a str> = Vec::new();
        let mut j: usize = 0;
        while j < len
            invariant
                j <= len,
                empty@ == Seq::<char>::empty(),
                record == records@[i as int],
                spec_views(row@) == spec_conform(len as int, spec_views(record@)).take(j as int),
            decreases len - j,
        {
            let cell = if j < record.len() {
                record[j]
            } else {
                empty
            };
            proof {
                assert(spec_views(row@.push(cell)) == spec_views(row@).push(cell@));
                assert(spec_conform(len as int, spec_views(record@)).take(j + 1) =~= spec_conform(
                    len as int,
                    spec_views(record@),
                ).take(j as int).push(cell@));
            }
            row.push(cell);
            j = j + 1;
        }
        proof {
            assert(spec_conform(len as int, spec_views(record@)).take(len as int) == spec_conform(
                len as int,
                spec_views(record@),
            ));
            assert(spec_record_views(out@.push(row)) == spec_record_views(out@).push(spec_views(row@)));
            assert(spec_conform_all(len as int, spec_record_views(records@)).take(i + 1) =~= spec_conform_all(
                len as int,
                spec_record_views(records@),
            ).take(i as int).push(spec_views(row@)));
        }
        out.push(row);
        i = i + 1;
    }
    proof {
        assert(spec_conform_all(len as int, spec_record_views(records@)).take(records@.len() as int)
            == spec_conform_all(len as int, spec_record_views(records@)));
    }
    out
}

/// Column `i` of rectangular records.
pub open spec fn spec_column(records: Seq<Seq<Seq<char>>>, i: int) -> Seq<Seq<char>> {
    Seq::new(records.len(), |r: int| records[r][i])
}

/// `m` is the dataframe whose columns, named by `names`, are read from
/// `records` conformed to one cell per name: each name maps to the column
/// at its last position.
pub open spec fn spec_is_dataframe<K: HashKey>(m: Map<K, Data>, names: Seq<K>, records: Seq<Seq<Seq<char>>>) -> bool {
    let rows = spec_conform_all(names.len() as int, records);
    &&& m.dom() == names.to_set()
    &&& forall|i: int|
        0 <= i < names.len() && (forall|j: int| i < j < names.len() ==> names[j] != names[i]) ==> {
            &&& (#[trigger] m[names[i]]).spec_form() is VecStr
            &&& spec_string_views(m[names[i]].spec_form()->VecStr_0@) == spec_column(rows, i)
        }
}

/// Builds a dataframe from records: the records are conformed to one cell
/// per column name, and each name keys the column at its position.
pub fn create_dataframe<K: HashKey + Copy>(col_names: Vec<K>, records: &[Vec<&str>]) -> (r: DataFrame<K>)
    ensures
        spec_is_dataframe(r@, col_names@, spec_record_views(records@)),
{
    let rows = conform_records(col_names.len(), records);
    let ghost rv = spec_record_views(rows@);
    proof {
        K::lemma_obeys_key_model();
    }
    let mut m: HashMap<K, Data> = HashMap::new();
    let mut i: usize = 0;
    while i < col_names.len()
        invariant
            i <= col_names@.len(),
            vstd::std_specs::hash::obeys_key_model::<K>(),
            rv == spec_record_views(rows@),
            rv == spec_conform_all(col_names@.len() as int, spec_record_views(records@)),
            m@.dom() == col_names@.take(i as int).to_set(),
            forall|a: int|
                0 <= a < i && (forall|b: int| a < b < i ==> col_names@[b] != col_names@[a]) ==> {
                    &&& (#[trigger] m@[col_names@[a]]).spec_form() is VecStr
                    &&& spec_string_views(m@[col_names@[a]].spec_form()->VecStr_0@) == spec_column(rv, a)
                },
        decreases col_names@.len() - i,
    {
        let mut column: Vec<String> = Vec::new();
        let mut r: usize = 0;
        while r < rows.len()
            invariant
                i < col_names@.len(),
                r <= rows@.len(),
                rv == spec_record_views(rows@),
                rv == spec_conform_all(col_names@.len() as int, spec_record_views(records@)),
                spec_string_views(column@) == spec_column(rv, i as int).take(r as int),
            decreases rows@.len() - r,
        {
            proof {
                assert(rv[r as int] == spec_views(rows@[r as int]@));
                assert(rv[r as int].len() == col_names@.len());
            }
            let cell = String::from_str(rows[r][i]);
            proof {
                assert(spec_string_views(column@.push(cell)) == spec_string_views(column@).push(cell@));
                assert(spec_column(rv, i as int).take(r + 1) =~= spec_column(rv, i as int).take(r as int).push(cell@));
            }
            column.push(cell);
            r = r + 1;
        }
        proof {
            assert(spec_column(rv, i as int).take(rows@.len() as int) == spec_column(rv, i as int));
        }
        let d = Data::new(column);
        let key = col_names[i];
        m.insert(key, d);
        proof {
            assert(col_names@.take(i + 1) == col_names@.take(i as int).push(key));
            col_names@.take(i as int).lemma_push_to_set_commute(key);
            assert(col_names@.take(i + 1).to_set() =~= col_names@.take(i as int).to_set().insert(key));
        }
        i = i + 1;
    }
    proof {
        assert(col_names@.take(col_names@.len() as int) == col_names@);
    }
    m
}

/// The domain of dataframes with keys of type `K`.
pub fn create_dataframe_domain<K>() -> (r: DataFrameDomain<K>)
    ensures
        forall|k: K| r.key_domain.spec_member(k),
        forall|v: Data| r.value_domain.spec_member(v),
{
    MapDomain::new(AllDomain::new(), AllDomain::new())
}

/// The views of a slice of strings.
pub fn vec_string_to_str(src: &[String]) -> (r: Vec<&str>)
    ensures
        spec_views(r@) == spec_string_views(src@),
{
    let mut out: Vec<&str> = Vec::new();
    let mut i: usize = 0;
    while i < src.len()
        invariant
            i <= src@.len(),
            spec_views(out@) == spec_string_views(src@).take(i as int),
        decreases src@.len() - i,
    {
        let s = src[i].as_str();
        proof {
            assert(spec_views(out@.push(s)) == spec_views(out@).push(s@));
            assert(spec_string_views(src@).take(i + 1) =~= spec_string_views(src@).take(i as int).push(s@));
        }
        out.push(s);
        i = i + 1;
    }
    proof {
        assert(spec_string_views(src@).take(src@.len() as int) == spec_string_views(src@));
    }
    out
}

/// Owned copies of string slices.
pub fn vec_str_to_string(src: Vec<&str>) -> (r: Vec<String>)
    ensures
        spec_string_views(r@) == spec_views(src@),
{
    let mut out: Vec<String> = Vec::new();
    let mut i: usize = 0;
    while i < src.len()
        invariant
            i <= src@.len(),
            spec_string_views(out@) == spec_views(src@).take(i as int),
        decreases src@.len() - i,
    {
        let s = String::from_str(src[i]);
        proof {
            assert(spec_string_views(out@.push(s)) == spec_string_views(out@).push(s@));
            assert(spec_views(src@).take(i + 1) =~= spec_views(src@).take(i as int).push(s@));
        }
        out.push(s);
        i = i + 1;
    }
    proof {
        assert(spec_views(src@).take(src@.len() as int) == spec_views(src@));
    }
    out
}

/// A line split into its trimmed fields.
pub open spec fn spec_record(separator: Seq<char>, line: Seq<char>) -> Seq<Seq<char>> {
    spec_split(line, separator).map_values(|f: Seq<char>| spec_trim(f))
}

/// Splits each line at `separator` into trimmed fields.
pub fn split_records<'a>(separator: &str, lines: &[&'a str]) -> (r: Vec<Vec<&'a str>>)
    ensures
        r@.len() == lines@.len(),
        forall|i: int| 0 <= i < lines@.len() ==> spec_views((#[trigger] r@[i])@) == spec_record(separator@, lines@[i]@),
{
    let mut out: Vec<Vec<&'a str>> = Vec::new();
    let mut i: usize = 0;
    while i < lines.len()
        invariant
            i <= lines@.len(),
            out@.len() == i,
            forall|k: int| 0 <= k < i ==> spec_views((#[trigger] out@[k])@) == spec_record(separator@, lines@[k]@),
        decreases lines@.len() - i,
    {
        let fields = split(lines[i], separator);
        let mut row: Vec<&'a str> = Vec::new();
        let mut j: usize = 0;
        while j < fields.len()
            invariant
                j <= fields@.len(),
                spec_views(fields@) == spec_split(lines@[i as int]@, separator@),
                spec_views(row@) == spec_record(separator@, lines@[i as int]@).take(j as int),
            decreases fields@.len() - j,
        {
            let f = trim(fields[j]);
            proof {
                assert(spec_views(fields@)[j as int] == fields@[j as int]@);
                assert(spec_views(row@.push(f)) == spec_views(row@).push(f@));
                assert(spec_record(separator@, lines@[i as int]@).take(j + 1) =~= spec_record(
                    separator@,
                    lines@[i as int]@,
                ).take(j as int).push(f@));
            }
            row.push(f);
            j = j + 1;
        }
        proof {
            assert(spec_record(separator@, lines@[i as int]@).take(fields@.len() as int) == spec_record(
                separator@,
                lines@[i as int]@,
            ));
        }
        out.push(row);
        i = i + 1;
    }
    out
}

/// The records of a text: its lines, each split into trimmed fields.
pub open spec fn spec_parse(separator: Seq<char>, s: Seq<char>) -> Seq<Seq<Seq<char>>> {
    spec_lines(s).map_values(|l: Seq<char>| spec_record(separator, l))
}

/// Conforming twice is conforming once.
proof fn lemma_conform_idempotent(len: int, records: Seq<Seq<Seq<char>>>)
    requires
        len >= 0,
    ensures
        spec_conform_all(len, spec_conform_all(len, records)) == spec_conform_all(len, records),
{
    assert forall|i: int| 0 <= i < records.len() implies spec_conform(len, spec_conform(len, records[i])) == spec_conform(
        len,
        records[i],
    ) by {
        assert(spec_conform(len, spec_conform(len, records[i])) =~= spec_conform(len, records[i]));
    }
    assert(spec_conform_all(len, spec_conform_all(len, records)) =~= spec_conform_all(len, records));
}

/// Parses a text into a dataframe: lines, fields split at `separator` and
/// trimmed, records conformed to one cell per column name.
pub fn split_dataframe<K: HashKey + Copy>(separator: &str, col_names: Vec<K>, s: &str) -> (r: DataFrame<K>)
    ensures
        spec_is_dataframe(r@, col_names@, spec_parse(separator@, s@)),
{
    let lines = split_lines(s);
    let records = split_records(separator, lines.as_slice());
    let records = conform_records(col_names.len(), records.as_slice());
    proof {
        assert(spec_record_views(records@) =~= spec_conform_all(col_names@.len() as int, spec_parse(separator@, s@))) by {
            let pre = spec_conform_all(col_names@.len() as int, spec_record_views(records@));
            assert(spec_parse(separator@, s@).len() == lines@.len());
        }
    }
    let r = create_dataframe(col_names, records.as_slice());
    proof {
        lemma_conform_idempotent(col_names@.len() as int, spec_parse(separator@, s@));
    }
    r
}

/// Splits a string into its lines.
pub struct SplitLinesFunction;

impl Function for SplitLinesFunction {
    type Input = String;
    type Output = Vec<String>;

    open spec fn spec_eval(&self, arg: Seq<char>) -> Option<Seq<Seq<char>>> {
        Some(spec_lines(arg))
    }

    fn eval(&self, arg: &String) -> (r: Fallible<Vec<String>>) {
        let lines = split_lines(arg.as_str());
        let out = vec_str_to_string(lines);
        assert(out.deep_view() =~= spec_string_views(out@));
        Ok(out)
    }
}

/// A transformation that splits a string into a vector of its lines.
pub fn make_split_lines() -> (r: Fallible<
    Transformation<
        AllDomain<String>,
        VectorDomain<AllDomain<String>>,
        SymmetricDistance,
        SymmetricDistance,
        SplitLinesFunction,
        LinearRelation<IntDistance, IntDistance>,
    >,
>)
    ensures
        r matches Ok(t) ==> t.stability_relation.spec_c_num() == 1 && t.stability_relation.spec_c_den() == 1,
        r.is_ok(),
{
    Ok(
        Transformation::new(
            AllDomain::new(),
            VectorDomain::new_all(),
            SplitLinesFunction,
            SymmetricDistance,
            SymmetricDistance,
            LinearRelation::new_from_constant(1u32),
        ),
    )
}

/// Splits each line of a vector into trimmed fields.
pub struct SplitRecordsFunction {
    pub separator: String,
}

impl Function for SplitRecordsFunction {
    type Input = Vec<String>;
    type Output = Vec<Vec<String>>;

    open spec fn spec_eval(&self, arg: Seq<Seq<char>>) -> Option<Seq<Seq<Seq<char>>>> {
        Some(arg.map_values(|l: Seq<char>| spec_record(self.separator@, l)))
    }

    fn eval(&self, arg: &Vec<String>) -> (r: Fallible<Vec<Vec<String>>>) {
        let lines = vec_string_to_str(arg.as_slice());
        let records = split_records(self.separator.as_str(), lines.as_slice());
        let mut out: Vec<Vec<String>> = Vec::new();
        let mut i: usize = 0;
        proof {
            assert(spec_views(lines@).len() == lines@.len());
            assert(spec_string_views(arg@).len() == arg@.len());
        }
        while i < records.len()
            invariant
                i <= records@.len(),
                records@.len() == arg@.len(),
                lines@.len() == arg@.len(),
                spec_views(lines@) == spec_string_views(arg@),
                forall|k: int| 0 <= k < arg@.len() ==> spec_views((#[trigger] records@[k])@) == spec_record(self.separator@, lines@[k]@),
                out@.len() == i,
                forall|k: int| 0 <= k < i ==> (#[trigger] out@[k]).deep_view() == spec_record(self.separator@, arg@[k]@),
            decreases records@.len() - i,
        {
            let row = vec_str_to_string(records[i].clone());
            proof {
                assert(spec_views(lines@)[i as int] == lines@[i as int]@);
                assert(lines@[i as int]@ == spec_string_views(arg@)[i as int]);
                assert(row.deep_view() =~= spec_string_views(row@));
            }
            out.push(row);
            i = i + 1;
        }
        proof {
            assert(out.deep_view() =~= arg.deep_view().map_values(|l: Seq<char>| spec_record(self.separator@, l)));
        }
        Ok(out)
    }
}

/// A transformation that splits each line into fields at `separator`, a
/// comma where none is given.
pub fn make_split_records(separator: Option<&str>) -> (r: Fallible<
    Transformation<
        VectorDomain<AllDomain<String>>,
        VectorDomain<VectorDomain<AllDomain<String>>>,
        SymmetricDistance,
        SymmetricDistance,
        SplitRecordsFunction,
        LinearRelation<IntDistance, IntDistance>,
    >,
>)
    ensures
        r.is_ok(),
        r matches Ok(t) ==> t.stability_relation.spec_c_num() == 1 && t.stability_relation.spec_c_den() == 1,
        r matches Ok(t) ==> (match separator {
            Some(sep) => t.function.separator@ == sep@,
            None => t.function.separator@ == seq![','],
        }),
{
    let sep = match separator {
        Some(s) => String::from_str(s),
        None => {
            proof {
                reveal_strlit(",");
            }
            String::from_str(",")
        },
    };
    Ok(
        Transformation::new(
            VectorDomain::new_all(),
            VectorDomain::new(VectorDomain::new_all()),
            SplitRecordsFunction { separator: sep },
            SymmetricDistance,
            SymmetricDistance,
            LinearRelation::new_from_constant(1u32),
        ),
    )
}


/// Law: conforming a record gives exactly `len` cells: the record's first
/// cells, in order, then empty cells where the record is shorter.
pub proof fn lemma_conform_cells(len: int, record: Seq<Seq<char>>)
    requires
        len >= 0,
    ensures
        spec_conform(len, record).len() == len,
        forall|j: int| 0 <= j < len && j < record.len() ==> #[trigger] spec_conform(len, record)[j] == record[j],
        forall|j: int| record.len() <= j < len ==> #[trigger] spec_conform(len, record)[j] == Seq::<char>::empty(),
        record.len() == len ==> spec_conform(len, record) == record,
{
    if record.len() == len {
        assert(spec_conform(len, record) =~= record);
    }
}

} // verus!
