//! The benchmark's tables and output formats.

use vstd::prelude::*;

verus! {

/// One of the benchmark's six tables. Five are synthesized row by row; the
/// zone table is sourced from a pre-existing external dataset.
#[derive(Debug, Copy, Clone, PartialEq, Eq, Structural)]
pub enum Table {
    Vehicle,
    Driver,
    Customer,
    Trip,
    Building,
    Zone,
}

/// The serialization format of one output artifact.
#[derive(Debug, Copy, Clone, PartialEq, Eq, Structural)]
pub enum OutputFormat {
    Tbl,
    Csv,
    Parquet,
}

/// The lower-case name of a table, as used in file names and messages.
pub open spec fn spec_table_name(t: Table) -> Seq<char> {
    match t {
        Table::Vehicle => "vehicle"@,
        Table::Driver => "driver"@,
        Table::Customer => "customer"@,
        Table::Trip => "trip"@,
        Table::Building => "building"@,
        Table::Zone => "zone"@,
    }
}

/// The file extension of an output format.
pub open spec fn spec_format_extension(f: OutputFormat) -> Seq<char> {
    match f {
        OutputFormat::Tbl => "tbl"@,
        OutputFormat::Csv => "csv"@,
        OutputFormat::Parquet => "parquet"@,
    }
}

impl Table {
    /// Returns the table's lower-case name.
    pub fn name(&self) -> (r: &'static str)
        ensures
            r@ == spec_table_name(*self),
    {
        match self {
            Table::Vehicle => "vehicle",
            Table::Driver => "driver",
            Table::Customer => "customer",
            Table::Trip => "trip",
            Table::Building => "building",
            Table::Zone => "zone",
        }
    }

    /// Parses a table from its full name or its one-letter abbreviation.
    pub fn from_str(s: &str) -> (r: Result<Table, ()>)
        ensures
            r is Ok <==> spec_parse_table(s@) is Some,
            r is Ok ==> r->Ok_0 == spec_parse_table(s@)->0,
    {
        let tables: [Table; 6] = [
            Table::Driver,
            Table::Vehicle,
            Table::Customer,
            Table::Trip,
            Table::Building,
            Table::Zone,
        ];
        let mut i: usize = 0;
        while i < 6
            invariant
                i <= 6,
                spec_parse_table(s@) == spec_parse_table_from(s@, i as int),
                tables@ == spec_table_order(),
            decreases 6 - i,
        {
            let t = tables[i];
            if str_eq(s, t.name()) || str_eq(s, table_abbreviation(t)) {
                return Ok(t);
            }
            i = i + 1;
        }
        Err(())
    }
}

/// The fixed order in which table names are tried when parsing.
pub open spec fn spec_table_order() -> Seq<Table> {
    seq![
        Table::Driver,
        Table::Vehicle,
        Table::Customer,
        Table::Trip,
        Table::Building,
        Table::Zone,
    ]
}

/// The one-letter abbreviation accepted for a table.
pub open spec fn spec_table_abbreviation(t: Table) -> Seq<char> {
    match t {
        Table::Vehicle => "V"@,
        Table::Driver => "d"@,
        Table::Customer => "c"@,
        Table::Trip => "T"@,
        Table::Building => "b"@,
        Table::Zone => "z"@,
    }
}

/// Which table, if any, the characters name, trying each table in order and
/// matching either its full name or its abbreviation.
pub open spec fn spec_parse_table_from(s: Seq<char>, i: int) -> Option<Table>
    decreases 6 - i,
{
    if i < 0 || i >= 6 {
        None
    } else if s == spec_table_name(spec_table_order()[i]) || s == spec_table_abbreviation(
        spec_table_order()[i],
    ) {
        Some(spec_table_order()[i])
    } else {
        spec_parse_table_from(s, i + 1)
    }
}

/// Which table, if any, the given characters name (full name or abbreviation).
pub open spec fn spec_parse_table(s: Seq<char>) -> Option<Table> {
    spec_parse_table_from(s, 0)
}

/// The file a table is written to for a format: the table's name with the
/// format's extension.
pub open spec fn spec_output_filename(t: Table, f: OutputFormat) -> Seq<char> {
    spec_table_name(t) + "."@ + spec_format_extension(f)
}

/// Returns the output file name for a table in a format.
pub fn output_filename(table: Table, format: OutputFormat) -> (r: String)
    ensures
        r@ == spec_output_filename(table, format),
{
    let mut r = table.name().to_owned();
    r.append(".");
    let ext = match format {
        OutputFormat::Tbl => "tbl",
        OutputFormat::Csv => "csv",
        OutputFormat::Parquet => "parquet",
    };
    r.append(ext);
    r
}

/// Returns the one-letter abbreviation accepted for a table.
fn table_abbreviation(t: Table) -> (r: &'static str)
    ensures
        r@ == spec_table_abbreviation(t),
{
    match t {
        Table::Vehicle => "V",
        Table::Driver => "d",
        Table::Customer => "c",
        Table::Trip => "T",
        Table::Building => "b",
        Table::Zone => "z",
    }
}

/// Exact equality of two string slices, usable wherever contracts compare views.
pub fn str_eq(a: &str, b: &str) -> (r: bool)
    ensures
        r <==> a@ == b@,
{
    let sa = a.to_owned();
    let sb = b.to_owned();
    sa == sb
}

} // verus!
