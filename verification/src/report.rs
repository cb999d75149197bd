//! The text report: one line per field, laid out in fixed-width columns.
use vstd::prelude::*;
use crate::error::DataError;
use crate::text::{add_spaces, decimal, decimal_text, padded, same_text};

verus! {

/// Width of the column that holds the field names.
pub const NAME_WIDTH: usize = 14;

/// Width of each column of the numeric table.
pub const CELL_WIDTH: usize = 10;

/// How a field of the log is summarised.
#[derive(Clone, Copy, Debug, PartialEq, Eq, Structural)]
pub enum FieldKind {
    /// A binary sensor: did it fire at all.
    Boolean,
    /// The event bitmask: the highest code seen, by name.
    Categorical,
    /// A measurement: mean, median, deviation, range and outliers.
    Numeric,
}

/// One field of the log: its name in the report and its column in a row.
#[derive(Clone, Copy, Debug)]
pub struct Field {
    pub name: &'static str,
    pub column: usize,
    pub kind: FieldKind,
}

/// What an event code stands for.
#[derive(Clone, Copy, Debug, PartialEq, Eq, Structural)]
pub enum EventCategory {
    NoEvent,
    Session,
    Button,
    SessionAndButton,
    /// A code outside the table.
    Error,
}

/// The statistics of one numeric field, each already written out as text.
pub struct NumericCells {
    pub mean: String,
    pub median: String,
    pub std_dev: String,
    pub min: String,
    pub max: String,
    pub outliers: u64,
}

/// The value of one field, or the reason it has none.
pub enum FieldValue {
    Flag(Result<bool, DataError>),
    Event(Result<EventCategory, DataError>),
    Numbers(Result<NumericCells, DataError>),
}

/// One field's name and value, ready to be laid out.
pub struct ReportEntry {
    pub name: String,
    pub value: FieldValue,
}

/// The fields of the log in report order: four binary sensors, the event
/// mask, then fifteen measurements. The log has no header row; this table
/// is the only place that knows which column is which.
pub open spec fn field_layout() -> Seq<(Seq<char>, usize, FieldKind)> {
    seq![
        ("Touch"@, 1usize, FieldKind::Boolean),
        ("Flame"@, 2usize, FieldKind::Boolean),
        ("Metal"@, 3usize, FieldKind::Boolean),
        ("Motion"@, 4usize, FieldKind::Boolean),
        ("Events"@, 9usize, FieldKind::Categorical),
        ("IR"@, 5usize, FieldKind::Numeric),
        ("Visible"@, 6usize, FieldKind::Numeric),
        ("UV"@, 7usize, FieldKind::Numeric),
        ("Distance"@, 8usize, FieldKind::Numeric),
        ("Temperature"@, 10usize, FieldKind::Numeric),
        ("Humidity"@, 11usize, FieldKind::Numeric),
        ("Barometer"@, 12usize, FieldKind::Numeric),
        ("Dew Point"@, 13usize, FieldKind::Numeric),
        ("EMF"@, 14usize, FieldKind::Numeric),
        ("Ion"@, 15usize, FieldKind::Numeric),
        ("Plasma"@, 16usize, FieldKind::Numeric),
        ("Radiation"@, 17usize, FieldKind::Numeric),
        ("Acceleration"@, 21usize, FieldKind::Numeric),
        ("Gyro"@, 25usize, FieldKind::Numeric),
        ("GMF"@, 29usize, FieldKind::Numeric),
    ]
}

/// What a `Field` holds, as the layout states it.
pub open spec fn field_view(field: Field) -> (Seq<char>, usize, FieldKind) {
    (field.name@, field.column, field.kind)
}

fn field(name: &'static str, column: usize, kind: FieldKind) -> (f: Field)
    ensures
        field_view(f) == (name@, column, kind),
{
    Field { name, column, kind }
}

/// The field table.
pub fn field_table() -> (table: Vec<Field>)
    ensures
        table@.map_values(|f: Field| field_view(f)) == field_layout(),
{
    let mut table: Vec<Field> = Vec::new();
    table.push(field("Touch", 1, FieldKind::Boolean));
    table.push(field("Flame", 2, FieldKind::Boolean));
    table.push(field("Metal", 3, FieldKind::Boolean));
    table.push(field("Motion", 4, FieldKind::Boolean));
    table.push(field("Events", 9, FieldKind::Categorical));
    table.push(field("IR", 5, FieldKind::Numeric));
    table.push(field("Visible", 6, FieldKind::Numeric));
    table.push(field("UV", 7, FieldKind::Numeric));
    table.push(field("Distance", 8, FieldKind::Numeric));
    table.push(field("Temperature", 10, FieldKind::Numeric));
    table.push(field("Humidity", 11, FieldKind::Numeric));
    table.push(field("Barometer", 12, FieldKind::Numeric));
    table.push(field("Dew Point", 13, FieldKind::Numeric));
    table.push(field("EMF", 14, FieldKind::Numeric));
    table.push(field("Ion", 15, FieldKind::Numeric));
    table.push(field("Plasma", 16, FieldKind::Numeric));
    table.push(field("Radiation", 17, FieldKind::Numeric));
    table.push(field("Acceleration", 21, FieldKind::Numeric));
    table.push(field("Gyro", 25, FieldKind::Numeric));
    table.push(field("GMF", 29, FieldKind::Numeric));
    assert(table@.map_values(|f: Field| field_view(f)) =~= field_layout());
    table
}

/// Whether `index` is the first place in the layout with the given name.
pub open spec fn first_named(name: Seq<char>, index: int) -> bool {
    &&& 0 <= index < field_layout().len()
    &&& field_layout()[index].0 == name
    &&& forall|j: int| 0 <= j < index ==> (#[trigger] field_layout()[j]).0 != name
}

/// Looks a field up by its name. The names are those of the field table,
/// letter for letter.
pub fn find_field(name: &str) -> (found: Option<Field>)
    ensures
        found matches Some(f) ==> exists|i: int|
            first_named(name@, i) && field_view(f) == field_layout()[i],
        found.is_none() ==> forall|i: int|
            0 <= i < field_layout().len() ==> (#[trigger] field_layout()[i]).0 != name@,
{
    let table = field_table();
    let mut i: usize = 0;
    while i < table.len()
        invariant
            i <= table.len(),
            table@.map_values(|f: Field| field_view(f)) == field_layout(),
            forall|j: int| 0 <= j < i ==> (#[trigger] field_layout()[j]).0 != name@,
        decreases table.len() - i,
    {
        assert(table@.map_values(|f: Field| field_view(f))[i as int] == field_view(table@[i as int]));
        if same_text(table[i].name, name) {
            assert(first_named(name@, i as int));
            return Some(table[i]);
        }
        i += 1;
    }
    assert(table@.map_values(|f: Field| field_view(f)).len() == table.len());
    None
}

/// The name under which an event code is reported.
pub open spec fn event_name(category: EventCategory) -> Seq<char> {
    match category {
        EventCategory::NoEvent => "None"@,
        EventCategory::Session => "Session"@,
        EventCategory::Button => "Button"@,
        EventCategory::SessionAndButton => "Session + Button"@,
        EventCategory::Error => "Error"@,
    }
}

/// What stands in the report in place of a value that could not be computed.
pub open spec fn placeholder(error: DataError) -> Seq<char> {
    match error {
        DataError::Parse => "n/a (short row)"@,
        DataError::InsufficientData => "n/a (no data)"@,
    }
}

/// How a flag is written.
pub open spec fn flag_name(flag: bool) -> Seq<char> {
    if flag {
        "true"@
    } else {
        "false"@
    }
}

/// The cells of a numeric row: five padded statistics, then the count.
pub open spec fn cells_text(cells: NumericCells) -> Seq<char> {
    padded(cells.mean@, CELL_WIDTH as nat) + padded(cells.median@, CELL_WIDTH as nat) + padded(
        cells.std_dev@,
        CELL_WIDTH as nat,
    ) + padded(cells.min@, CELL_WIDTH as nat) + padded(cells.max@, CELL_WIDTH as nat) + decimal(
        cells.outliers as nat,
    )
}

/// What follows the name on a field's line, line ending included. A flag or
/// a measurement ends in one blank line, the event mask in three.
pub open spec fn value_text(value: FieldValue) -> Seq<char> {
    match value {
        FieldValue::Flag(Ok(flag)) => flag_name(flag) + "\n\n"@,
        FieldValue::Flag(Err(e)) => placeholder(e) + "\n\n"@,
        FieldValue::Event(Ok(category)) => event_name(category) + "\n\n\n\n"@,
        FieldValue::Event(Err(e)) => placeholder(e) + "\n\n\n\n"@,
        FieldValue::Numbers(Ok(cells)) => cells_text(cells) + "\n\n"@,
        FieldValue::Numbers(Err(e)) => placeholder(e) + "\n\n"@,
    }
}

/// A field's line: its padded name, then its value.
pub open spec fn entry_text(entry: ReportEntry) -> Seq<char> {
    padded(entry.name@, NAME_WIDTH as nat) + value_text(entry.value)
}

/// Whether an entry belongs to the numeric table.
pub open spec fn in_table(entry: ReportEntry) -> bool {
    entry.value is Numbers
}

/// The lines, in order, of those entries that belong to the numeric table
/// (`table` true) or that stand above it (`table` false).
pub open spec fn section_text(entries: Seq<ReportEntry>, table: bool) -> Seq<char>
    decreases entries.len(),
{
    if entries.len() == 0 {
        Seq::empty()
    } else {
        let before = section_text(entries.drop_last(), table);
        if in_table(entries.last()) == table {
            before + entry_text(entries.last())
        } else {
            before
        }
    }
}

/// The heading of the numeric table.
pub open spec fn header_text() -> Seq<char> {
    padded("Parameter"@, NAME_WIDTH as nat) + padded("Mean"@, CELL_WIDTH as nat) + padded(
        "Median"@,
        CELL_WIDTH as nat,
    ) + padded("SD"@, CELL_WIDTH as nat) + padded("Min"@, CELL_WIDTH as nat) + padded(
        "Max"@,
        CELL_WIDTH as nat,
    ) + padded("Z Count"@, CELL_WIDTH as nat) + "\n\n"@
}

/// The whole report: the flags and the event mask, the table heading, then
/// the numeric rows.
pub open spec fn report_text(entries: Seq<ReportEntry>) -> Seq<char> {
    section_text(entries, false) + header_text() + section_text(entries, true)
}

/// The text that stands for a missing value.
pub fn placeholder_text(error: DataError) -> (out: &'static str)
    ensures
        out@ == placeholder(error),
{
    match error {
        DataError::Parse => "n/a (short row)",
        DataError::InsufficientData => "n/a (no data)",
    }
}

/// The name of an event code.
pub fn event_text(category: EventCategory) -> (out: &'static str)
    ensures
        out@ == event_name(category),
{
    match category {
        EventCategory::NoEvent => "None",
        EventCategory::Session => "Session",
        EventCategory::Button => "Button",
        EventCategory::SessionAndButton => "Session + Button",
        EventCategory::Error => "Error",
    }
}

fn append_cells(out: &mut String, cells: &NumericCells)
    ensures
        final(out)@ == old(out)@ + cells_text(*cells),
{
    let mean = add_spaces(cells.mean.as_str(), CELL_WIDTH);
    let median = add_spaces(cells.median.as_str(), CELL_WIDTH);
    let std_dev = add_spaces(cells.std_dev.as_str(), CELL_WIDTH);
    let min = add_spaces(cells.min.as_str(), CELL_WIDTH);
    let max = add_spaces(cells.max.as_str(), CELL_WIDTH);
    let count = decimal_text(cells.outliers);
    out.append(mean.as_str());
    out.append(median.as_str());
    out.append(std_dev.as_str());
    out.append(min.as_str());
    out.append(max.as_str());
    out.append(count.as_str());
    assert(out@ =~= old(out)@ + cells_text(*cells));
}

/// Lays out one field's line.
pub fn render_entry(entry: &ReportEntry) -> (out: String)
    ensures
        out@ == entry_text(*entry),
{
    let mut out = add_spaces(entry.name.as_str(), NAME_WIDTH);
    let ghost name = out@;
    match &entry.value {
        FieldValue::Flag(Ok(flag)) => {
            if *flag {
                out.append("true");
            } else {
                out.append("false");
            }
            out.append("\n\n");
        },
        FieldValue::Event(Ok(category)) => {
            out.append(event_text(*category));
            out.append("\n\n\n\n");
        },
        FieldValue::Numbers(Ok(cells)) => {
            append_cells(&mut out, cells);
            out.append("\n\n");
        },
        FieldValue::Event(Err(e)) => {
            out.append(placeholder_text(*e));
            out.append("\n\n\n\n");
        },
        FieldValue::Flag(Err(e)) | FieldValue::Numbers(Err(e)) => {
            out.append(placeholder_text(*e));
            out.append("\n\n");
        },
    }
    assert(out@ =~= name + value_text(entry.value));
    out
}

/// Writes the heading of the numeric table.
pub fn render_header() -> (out: String)
    ensures
        out@ == header_text(),
{
    let mut out = add_spaces("Parameter", NAME_WIDTH);
    let mean = add_spaces("Mean", CELL_WIDTH);
    let median = add_spaces("Median", CELL_WIDTH);
    let std_dev = add_spaces("SD", CELL_WIDTH);
    let min = add_spaces("Min", CELL_WIDTH);
    let max = add_spaces("Max", CELL_WIDTH);
    let count = add_spaces("Z Count", CELL_WIDTH);
    out.append(mean.as_str());
    out.append(median.as_str());
    out.append(std_dev.as_str());
    out.append(min.as_str());
    out.append(max.as_str());
    out.append(count.as_str());
    out.append("\n\n");
    assert(out@ =~= header_text());
    out
}

fn append_section(out: &mut String, entries: &Vec<ReportEntry>, table: bool)
    ensures
        final(out)@ == old(out)@ + section_text(entries@, table),
{
    let mut i: usize = 0;
    assert(out@ =~= old(out)@ + section_text(entries@.take(0), table));
    while i < entries.len()
        invariant
            i <= entries.len(),
            out@ == old(out)@ + section_text(entries@.take(i as int), table),
        decreases entries.len() - i,
    {
        let is_numbers = match &entries[i].value {
            FieldValue::Numbers(_) => true,
            _ => false,
        };
        proof {
            assert(entries@.take(i + 1).drop_last() =~= entries@.take(i as int));
            assert(entries@.take(i + 1).last() == entries@[i as int]);
        }
        if is_numbers == table {
            let line = render_entry(&entries[i]);
            out.append(line.as_str());
            assert(out@ =~= old(out)@ + section_text(entries@.take(i + 1), table));
        }
        i += 1;
    }
    assert(entries@.take(entries.len() as int) =~= entries@);
}

/// Lays out the report for the given fields. Flags and event masks come
/// first, in the order given; the measurements follow under one heading.
/// An entry without a value still gets its line, with a placeholder.
pub fn process_data(entries: &Vec<ReportEntry>) -> (out: String)
    ensures
        out@ == report_text(entries@),
{
    let mut out = String::new();
    append_section(&mut out, entries, false);
    let header = render_header();
    out.append(header.as_str());
    append_section(&mut out, entries, true);
    assert(out@ =~= report_text(entries@));
    out
}

/// No two fields share a name, so a name stands for one field.
pub proof fn lemma_field_names_distinct()
    ensures
        forall|i: int, j: int|
            0 <= i < j < field_layout().len() ==> (#[trigger] field_layout()[i]).0
                != (#[trigger] field_layout()[j]).0,
{
    reveal_strlit("Touch");
    reveal_strlit("Flame");
    reveal_strlit("Metal");
    reveal_strlit("Motion");
    reveal_strlit("Events");
    reveal_strlit("IR");
    reveal_strlit("Visible");
    reveal_strlit("UV");
    reveal_strlit("Distance");
    reveal_strlit("Temperature");
    reveal_strlit("Humidity");
    reveal_strlit("Barometer");
    reveal_strlit("Dew Point");
    reveal_strlit("EMF");
    reveal_strlit("Ion");
    reveal_strlit("Plasma");
    reveal_strlit("Radiation");
    reveal_strlit("Acceleration");
    reveal_strlit("Gyro");
    reveal_strlit("GMF");
    let layout = field_layout();
    assert forall|i: int, j: int| 0 <= i < j < layout.len() implies (#[trigger] layout[i]).0 != (
    #[trigger] layout[j]).0 by {
        let a = layout[i].0;
        let b = layout[j].0;
        if a == b {
            assert(a.len() == b.len());
            assert(a[0] == b[0]);
        }
    }
}

} // verus!
