//! Reading a symbol store: the public function symbols that a program
//! database lists, each with its offset in the image.

use pdb::FallibleIterator;
use vstd::prelude::*;

use crate::module::{PublicFunction, SymbolStore};

verus! {

/// `std::io::Cursor`: a reader over bytes in memory.
#[verifier::external_type_specification]
#[verifier::external_body]
#[verifier::reject_recursive_types(T)]
pub struct ExCursor<T>(std::io::Cursor<T>);

/// `pdb::PDB`: an opened program database.
#[verifier::external_type_specification]
#[verifier::external_body]
#[verifier::reject_recursive_types(S)]
pub struct ExPdb<'s, S>(pdb::PDB<'s, S>);

/// `pdb::SymbolTable`: the table of global symbols of a program database.
#[verifier::external_type_specification]
#[verifier::external_body]
pub struct ExSymbolTable<'s>(pdb::SymbolTable<'s>);

/// `pdb::SymbolIter`: an iterator over a table of symbols.
#[verifier::external_type_specification]
#[verifier::external_body]
pub struct ExSymbolIter<'t>(pdb::SymbolIter<'t>);

/// `pdb::Symbol`: a symbol record that is not parsed yet.
#[verifier::external_type_specification]
#[verifier::external_body]
pub struct ExSymbol<'t>(pdb::Symbol<'t>);

/// `pdb::Error`: why a program database could not be read.
#[verifier::external_type_specification]
#[verifier::external_body]
pub struct ExError(pdb::Error);

/// The kind of a public symbol record.
pub const S_PUB32: u16 = 0x110e;

/// The kind of a public symbol record that holds its name with the length
/// before it.
pub const S_PUB32_ST: u16 = 0x1009;

/// What a public symbol record of a store says.
pub struct PublicRecord {
    /// Whether the symbol is a function.
    pub function: bool,
    /// The section of the image that holds the symbol, counted from 1.
    pub section: u16,
    /// The offset of the symbol in its section.
    pub offset: u32,
    pub name: String,
}

/// What a public symbol record holds.
pub struct RecordView {
    pub function: bool,
    pub section: u16,
    pub offset: u32,
    pub name: Seq<char>,
}

impl View for PublicRecord {
    type V = RecordView;

    open spec fn view(&self) -> RecordView {
        RecordView {
            function: self.function,
            section: self.section,
            offset: self.offset,
            name: self.name@,
        }
    }
}

/// What `records` hold.
pub open spec fn records_view(records: Seq<PublicRecord>) -> Seq<RecordView> {
    records.map_values(|record: PublicRecord| record@)
}

/// The records of the table of global symbols of the program database that
/// `bytes` hold, in the order of the table and up to its first failure: for
/// each symbol what it says as a public symbol, `None` for a symbol of any
/// other kind and for one that cannot be parsed. The sequence is empty where
/// the store has no table that can be read, and there is none where `bytes`
/// are no program database.
pub uninterp spec fn database_records(bytes: Seq<u8>) -> Option<Seq<Option<RecordView>>>;

/// The records of the table of global symbols of an opened store, as
/// `database_records` describes them.
pub uninterp spec fn store_records(
    store: pdb::PDB<'static, std::io::Cursor<Vec<u8>>>,
) -> Seq<Option<RecordView>>;

/// The records of a table of symbols, in its order and up to its first
/// failure.
pub uninterp spec fn table_records(table: pdb::SymbolTable<'static>) -> Seq<Option<RecordView>>;

/// The records that an iterator has yet to yield before its first failure.
pub uninterp spec fn records_left(iter: pdb::SymbolIter<'static>) -> Seq<Option<RecordView>>;

/// The kind of a symbol record.
pub uninterp spec fn kind_of(symbol: pdb::Symbol<'static>) -> u16;

/// What a symbol of a public kind says, where it can be parsed.
pub uninterp spec fn public_said(symbol: pdb::Symbol<'static>) -> Option<RecordView>;

/// Whether `kind` is a kind of public symbol records.
pub open spec fn is_public_kind(kind: u16) -> bool {
    kind == S_PUB32 || kind == S_PUB32_ST
}

/// What a symbol says as a public symbol: nothing where it is of any other
/// kind.
pub open spec fn record_of(symbol: pdb::Symbol<'static>) -> Option<RecordView> {
    if is_public_kind(kind_of(symbol)) {
        public_said(symbol)
    } else {
        None
    }
}

/// Whether `bytes` are a program database.
pub open spec fn is_program_database(bytes: Seq<u8>) -> bool {
    database_records(bytes) is Some
}

/// The public symbols among `records` that are functions, in their order.
pub open spec fn functions_among(records: Seq<Option<RecordView>>) -> Seq<RecordView>
    decreases records.len(),
{
    if records.len() == 0 {
        Seq::empty()
    } else {
        let rest = functions_among(records.skip(1));
        match records[0] {
            Some(record) => if record.function {
                seq![record] + rest
            } else {
                rest
            },
            None => rest,
        }
    }
}

/// `pdb::PDB::open` on a store that is held in memory: finds the store's
/// table of streams, or fails where the bytes are no program database. The
/// contract names what the opened store holds and claims nothing else of it.
#[verifier::external_body]
fn open_store(bytes: Vec<u8>) -> (opened: Result<
    pdb::PDB<'static, std::io::Cursor<Vec<u8>>>,
    pdb::Error,
>)
    ensures
        match opened {
            Ok(store) => database_records(bytes@) == Some(store_records(store)),
            Err(_) => database_records(bytes@) is None,
        },
{
    pdb::PDB::open(std::io::Cursor::new(bytes))
}

/// `pdb::PDB::global_symbols`: the store's table of global symbols. The
/// contract names what the table holds; a store whose table cannot be had
/// holds no records.
#[verifier::external_body]
fn global_symbols(store: &mut pdb::PDB<'static, std::io::Cursor<Vec<u8>>>) -> (table: Result<
    pdb::SymbolTable<'static>,
    pdb::Error,
>)
    ensures
        match table {
            Ok(table) => table_records(table) == store_records(*old(store)),
            Err(_) => store_records(*old(store)).len() == 0,
        },
{
    store.global_symbols()
}

/// `pdb::SymbolTable::iter`: an iterator over the table, from its start.
#[verifier::external_body]
fn symbols<'a>(table: &'a pdb::SymbolTable<'static>) -> (iter: pdb::SymbolIter<'a>)
    ensures
        records_left(iter) == table_records(*table),
{
    table.iter()
}

/// `pdb::SymbolIter::next`: the next symbol of the table, `None` at its end,
/// or the reason why the table cannot be read on. A symbol that is yielded
/// is the first of those that were left, and the others are left behind it;
/// at the end and at a failure none is left.
#[verifier::external_body]
fn next_symbol<'a>(iter: &mut pdb::SymbolIter<'a>) -> (next: Result<
    Option<pdb::Symbol<'a>>,
    pdb::Error,
>)
    ensures
        match next {
            Ok(Some(symbol)) => {
                &&& records_left(*old(iter)).len() > 0
                &&& records_left(*old(iter))[0] == record_of(symbol)
                &&& records_left(*final(iter)) == records_left(*old(iter)).skip(1)
            },
            _ => records_left(*old(iter)).len() == 0,
        },
{
    iter.next()
}

/// `pdb::Symbol::raw_kind`: the kind of a symbol that an iterator yielded.
#[verifier::external_body]
fn raw_kind(symbol: &pdb::Symbol<'_>) -> (kind: u16)
    ensures
        kind == kind_of(*symbol),
{
    symbol.raw_kind()
}

/// `pdb::Symbol::parse` on a public symbol: what the symbol says, `None`
/// where it cannot be parsed. Symbols of other kinds are left out, since
/// the crate's parsers for some of them give up on values that they do not
/// know.
#[verifier::external_body]
fn public_record(symbol: &pdb::Symbol<'_>) -> (record: Option<PublicRecord>)
    requires
        is_public_kind(kind_of(*symbol)),
    ensures
        match record {
            Some(record) => public_said(*symbol) == Some(record@),
            None => public_said(*symbol) is None,
        },
{
    match symbol.parse() {
        Ok(pdb::SymbolData::Public(data)) => Some(
            PublicRecord {
                function: data.function,
                section: data.offset.section,
                offset: data.offset.offset,
                name: data.name.to_string().into_owned(),
            },
        ),
        _ => None,
    }
}

/// The `Display` text of a `pdb::Error`.
#[verifier::external_body]
fn error_text(error: &pdb::Error) -> (text: String) {
    error.to_string()
}

/// What a symbol that an iterator yielded says as a public symbol.
fn read_record(symbol: &pdb::Symbol<'_>) -> (record: Option<PublicRecord>)
    ensures
        match record {
            Some(record) => record_of(*symbol) == Some(record@),
            None => record_of(*symbol) is None,
        },
{
    let kind = raw_kind(symbol);
    if kind == S_PUB32 || kind == S_PUB32_ST {
        public_record(symbol)
    } else {
        None
    }
}

/// Reads the public function symbols of the program database that `bytes`
/// hold: of the records of its table of global symbols, in the order of the
/// table and up to its first failure, those that are public symbols and
/// functions. A store without a table that can be read has none. Bytes that
/// are no program database give the reason as a text.
pub fn read_function_records(bytes: Vec<u8>) -> (result: Result<Vec<PublicRecord>, String>)
    ensures
        match result {
            Ok(records) => database_records(bytes@) matches Some(found) && records_view(records@)
                == functions_among(found),
            Err(_) => database_records(bytes@) is None,
        },
{
    let mut records: Vec<PublicRecord> = Vec::new();
    assert(records_view(records@) =~= Seq::<RecordView>::empty());
    let mut database = match open_store(bytes) {
        Ok(database) => database,
        Err(error) => { return Err(error_text(&error)); },
    };
    let ghost found = store_records(database);
    let table = match global_symbols(&mut database) {
        Ok(table) => table,
        Err(_) => { return Ok(records); },
    };
    let mut iter = symbols(&table);
    loop
        invariant
            functions_among(found) == records_view(records@) + functions_among(
                records_left(iter),
            ),
            database_records(bytes@) == Some(found),
        decreases records_left(iter).len(),
    {
        let ghost left = records_left(iter);
        let ghost before = records_view(records@);
        let symbol = match next_symbol(&mut iter) {
            Ok(Some(symbol)) => symbol,
            _ => {
                assert(before + functions_among(left) =~= before);
                return Ok(records);
            },
        };
        if let Some(record) = read_record(&symbol) {
            if record.function {
                let ghost said = record@;
                records.push(record);
                assert(records_view(records@) =~= before.push(said));
                assert(before.push(said) + functions_among(left.skip(1)) =~= before + (seq![said]
                    + functions_among(left.skip(1))));
            }
        }
    }
}

impl SymbolStore {
    /// A store without symbols.
    pub fn new() -> (store: SymbolStore)
        ensures
            store.functions@.len() == 0,
    {
        SymbolStore { functions: Vec::new() }
    }

    /// Puts a function behind the functions of the store, with the offset
    /// in the image that the store's map gave it, or 0 where it gave none.
    pub fn add_function(&mut self, name: String, rva: Option<u32>)
        ensures
            final(self).functions@ == old(self).functions@.push(
                PublicFunction {
                    name,
                    rva: match rva {
                        Some(value) => value,
                        None => 0,
                    },
                },
            ),
    {
        let rva = match rva {
            Some(value) => value,
            None => 0,
        };
        self.functions.push(PublicFunction { name, rva });
    }
}

} // verus!
