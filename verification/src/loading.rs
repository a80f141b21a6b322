//! Reading the party and the ability tables from YAML text.

use vstd::prelude::*;
use std::collections::HashMap;
use crate::cooldown::{check_table, table_fault, TableError};
use crate::session::MAX_PARTY;

verus! {

/// One row of the ability table: the character's name, the name of the
/// ability, and the cooldown in seconds of each variant by the hold in
/// milliseconds that selects it.
pub type AbilityEntry = (String, String, HashMap<u32, u32>);

/// The error type of `serde_yaml`, carried through and never looked into.
#[verifier::external_type_specification]
#[verifier::external_body]
pub struct ExYamlError(serde_yaml::Error);

/// The most bytes that a line of a text may hold. Block collections nest
/// by indentation, so a line's length bounds how deep they nest, and with it
/// how deep the reader of the text recurses.
pub const MAX_LINE_LEN: usize = 100;

/// Why a text does not give a party or an ability table.
#[derive(Clone, Copy, Debug, PartialEq, Eq, Structural)]
pub enum LoadError {
    /// A line of the text has more than `MAX_LINE_LEN` bytes.
    LineTooLong,
    /// The text is not YAML for a list of names.
    Party,
    /// The text is not YAML for a list of ability rows.
    Abilities,
    /// The party has more than `MAX_PARTY` characters.
    TooManyCharacters,
    /// The table of the row `row` cannot back a cooldown record, for the
    /// reason `fault`.
    BadRow { row: usize, fault: TableError },
}

/// The number of bytes between the position `pos` of `text` and the line
/// feed before it, or the start of the text where there is none.
pub open spec fn run_before(text: Seq<u8>, pos: int) -> nat
    decreases pos,
{
    if pos <= 0 {
        0
    } else if text[pos - 1] == 10u8 {
        0
    } else {
        run_before(text, pos - 1) + 1
    }
}

/// Whether no line of `text` has more than `limit` bytes.
pub open spec fn lines_fit(text: Seq<u8>, limit: nat) -> bool {
    forall|pos: int| 0 <= pos <= text.len() ==> run_before(text, pos) <= limit
}

/// The variant tables of the rows.
pub open spec fn row_tables(rows: Seq<(Seq<char>, Seq<char>, Map<u32, u32>)>) -> Seq<
    Map<u32, u32>,
> {
    rows.map_values(|row: (Seq<char>, Seq<char>, Map<u32, u32>)| row.2)
}

/// Whether every one of the tables can back a cooldown record.
pub open spec fn all_tables_sound(tables: Seq<Map<u32, u32>>) -> bool {
    forall|row: int| 0 <= row < tables.len() ==> table_fault(#[trigger] tables[row]) is None
}

/// Whether `row` is the first of the tables that cannot back a cooldown
/// record, and `fault` the reason.
pub open spec fn is_first_bad_table(tables: Seq<Map<u32, u32>>, row: int, fault: TableError) -> bool {
    &&& 0 <= row < tables.len()
    &&& table_fault(tables[row]) == Some(fault)
    &&& forall|earlier: int| 0 <= earlier < row ==> table_fault(#[trigger] tables[earlier]) is None
}

/// The names that `serde_yaml` reads out of `text` as a list of strings, or
/// nothing where it reports an error.
pub uninterp spec fn yaml_party(text: Seq<u8>) -> Option<Seq<Seq<char>>>;

/// The rows that `serde_yaml` reads out of `text` as a list of triples of two
/// strings and a map from integer to integer, or nothing where it reports
/// an error.
pub uninterp spec fn yaml_abilities(text: Seq<u8>) -> Option<
    Seq<(Seq<char>, Seq<char>, Map<u32, u32>)>,
>;

/// The names as sequences of characters.
pub open spec fn names_view(names: Seq<String>) -> Seq<Seq<char>> {
    names.map_values(|name: String| name@)
}

/// One row with its strings as sequences of characters and its table as a
/// map.
pub open spec fn entry_view(entry: AbilityEntry) -> (Seq<char>, Seq<char>, Map<u32, u32>) {
    (entry.0@, entry.1@, entry.2@)
}

/// The rows, each as `entry_view` gives it.
pub open spec fn entries_view(entries: Seq<AbilityEntry>) -> Seq<
    (Seq<char>, Seq<char>, Map<u32, u32>),
> {
    entries.map_values(|entry: AbilityEntry| entry_view(entry))
}

/// `serde_yaml::from_slice` at the type `Vec<String>`. Nothing is claimed of
/// which texts it accepts or what it reads out of them, only that the same
/// text always gives the same outcome: `yaml_party` is the names it returned,
/// and is nothing where it returned an error. Texts with a line of more
/// than `MAX_LINE_LEN` bytes are left out: the reader recurses once for each
/// level of nesting, and only the length of a line bounds how deep block
/// collections nest.
#[verifier::external_body]
fn decode_party(text: &[u8]) -> (decoded: Result<Vec<String>, serde_yaml::Error>)
    requires
        lines_fit(text@, MAX_LINE_LEN as nat),
    ensures
        match decoded {
            Ok(names) => yaml_party(text@) == Some(names_view(names@)),
            Err(_) => yaml_party(text@) is None,
        },
{
    serde_yaml::from_slice(text)
}

/// `serde_yaml::from_slice` at the type of a list of ability rows. Nothing
/// is claimed of which texts it accepts or what it reads out of them, only
/// that the same text always gives the same outcome: `yaml_abilities` is the
/// rows it returned, and is nothing where it returned an error. Texts with
/// a line of more than `MAX_LINE_LEN` bytes are left out, as for the party.
#[verifier::external_body]
fn decode_abilities(text: &[u8]) -> (decoded: Result<Vec<AbilityEntry>, serde_yaml::Error>)
    requires
        lines_fit(text@, MAX_LINE_LEN as nat),
    ensures
        match decoded {
            Ok(entries) => yaml_abilities(text@) == Some(entries_view(entries@)),
            Err(_) => yaml_abilities(text@) is None,
        },
{
    serde_yaml::from_slice(text)
}

/// Tells whether no line of `text` has more than `MAX_LINE_LEN` bytes.
pub fn check_lines(text: &[u8]) -> (fit: bool)
    ensures
        fit == lines_fit(text@, MAX_LINE_LEN as nat),
{
    let mut run: usize = 0;
    let mut pos: usize = 0;
    while pos < text.len()
        invariant
            pos <= text.len(),
            run == run_before(text@, pos as int),
            run <= MAX_LINE_LEN,
            forall|p: int| 0 <= p <= pos ==> run_before(text@, p) <= MAX_LINE_LEN,
        decreases text.len() - pos,
    {
        if text[pos] == 10u8 {
            run = 0;
        } else {
            run = run + 1;
        }
        pos = pos + 1;
        assert(run == run_before(text@, pos as int));
        if run > MAX_LINE_LEN {
            return false;
        }
    }
    true
}

/// Tells whether a party has no more characters than a session takes.
pub fn check_party(names: &Vec<String>) -> (checked: Result<(), LoadError>)
    ensures
        match checked {
            Ok(_) => names.len() <= MAX_PARTY,
            Err(fault) => fault == LoadError::TooManyCharacters && names.len() > MAX_PARTY,
        },
{
    if names.len() > MAX_PARTY {
        Err(LoadError::TooManyCharacters)
    } else {
        Ok(())
    }
}

/// Tells whether the table of every row can back a cooldown record: it has
/// a variant, and every variant of it takes time. The error names the first
/// row of which that fails, whether or not its character is in the party.
pub fn check_rows(entries: &Vec<AbilityEntry>) -> (checked: Result<(), LoadError>)
    ensures
        match checked {
            Ok(_) => all_tables_sound(row_tables(entries_view(entries@))),
            Err(LoadError::BadRow { row, fault }) => is_first_bad_table(
                row_tables(entries_view(entries@)),
                row as int,
                fault,
            ),
            Err(_) => false,
        },
{
    let ghost tables = row_tables(entries_view(entries@));
    let mut row: usize = 0;
    while row < entries.len()
        invariant
            row <= entries.len(),
            tables == row_tables(entries_view(entries@)),
            tables.len() == entries.len(),
            forall|earlier: int| 0 <= earlier < row ==> table_fault(#[trigger] tables[earlier]) is None,
        decreases entries.len() - row,
    {
        assert(tables[row as int] == entries@[row as int].2@);
        match check_table(&entries[row].2) {
            Ok(_) => {},
            Err(fault) => {
                return Err(LoadError::BadRow { row, fault });
            },
        }
        row = row + 1;
    }
    Ok(())
}

/// Reads the party, an ordered list of character names, from YAML text. A
/// text with a line too long is refused unread, and so is a party of more
/// than `MAX_PARTY`.
pub fn parse_party(text: &[u8]) -> (parsed: Result<Vec<String>, LoadError>)
    ensures
        !lines_fit(text@, MAX_LINE_LEN as nat) ==> parsed == Err::<Vec<String>, LoadError>(
            LoadError::LineTooLong,
        ),
        lines_fit(text@, MAX_LINE_LEN as nat) ==> match yaml_party(text@) {
            None => parsed == Err::<Vec<String>, LoadError>(LoadError::Party),
            Some(names) => if names.len() > MAX_PARTY {
                parsed == Err::<Vec<String>, LoadError>(LoadError::TooManyCharacters)
            } else {
                parsed matches Ok(party) && names_view(party@) == names
            },
        },
{
    if !check_lines(text) {
        return Err(LoadError::LineTooLong);
    }
    match decode_party(text) {
        Ok(names) => match check_party(&names) {
            Ok(_) => Ok(names),
            Err(fault) => Err(fault),
        },
        Err(_) => Err(LoadError::Party),
    }
}

/// Reads the ability table, a list of rows, from YAML text. A text with a
/// line too long is refused unread, and so is a table with a row that
/// `check_rows` refuses: every row that comes back has a variant, and none
/// with a cooldown of zero.
pub fn parse_abilities(text: &[u8]) -> (parsed: Result<Vec<AbilityEntry>, LoadError>)
    ensures
        !lines_fit(text@, MAX_LINE_LEN as nat) ==> parsed == Err::<Vec<AbilityEntry>, LoadError>(
            LoadError::LineTooLong,
        ),
        lines_fit(text@, MAX_LINE_LEN as nat) ==> match yaml_abilities(text@) {
            None => parsed == Err::<Vec<AbilityEntry>, LoadError>(LoadError::Abilities),
            Some(rows) => match parsed {
                Ok(entries) => entries_view(entries@) == rows && all_tables_sound(row_tables(rows)),
                Err(LoadError::BadRow { row, fault }) => is_first_bad_table(
                    row_tables(rows),
                    row as int,
                    fault,
                ),
                Err(_) => false,
            },
        },
{
    if !check_lines(text) {
        return Err(LoadError::LineTooLong);
    }
    match decode_abilities(text) {
        Ok(entries) => match check_rows(&entries) {
            Ok(_) => Ok(entries),
            Err(fault) => Err(fault),
        },
        Err(_) => Err(LoadError::Abilities),
    }
}

} // verus!
