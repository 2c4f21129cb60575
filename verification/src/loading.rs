//! Reading a module from the memory of the target, read by read: what each
//! step reads, what it makes of what came, and on what it fails.
//!
//! A source may give anything, so nothing here says what a module holds. The
//! relations say of an outcome that it is the one that the reads led to: each
//! names the reads that were made, by `MemorySource::gives`, and how the
//! outcome follows from what they gave.

use vstd::prelude::*;
use vstd::string::*;

use crate::memory::{
    data_from, data_read, full_array_from, full_array_read, short_read, string_from, string_read,
    MemorySource,
};
use crate::module::{
    choose_module_name, codeview_plan, debug_entries, debug_entry_count, plan_codeview, rebase,
    rebased, Export, ExportTables, ExportTarget, Module, PdbInfo, TargetPlan,
    DEBUG_ENTRY_SIZE, MAX_EXPORT_NAME, MAX_MODULE_NAME, PDB_INFO_SIZE,
};
use crate::pe::{DebugDirectory, DosHeader, ExportDirectory, NtHeaders64};
use crate::text::digits;

verus! {

/// The text `Address out of range`: the failure of a read at an address that
/// does not fit in 64 bits.
pub open spec fn out_of_range() -> Seq<char> {
    "Address out of range"@
}

/// The text `Debug record too short`.
pub open spec fn record_too_short() -> Seq<char> {
    "Debug record too short"@
}

/// The text `Ordinal out of range`.
pub open spec fn ordinal_out_of_range() -> Seq<char> {
    "Ordinal out of range"@
}

/// The text `No matching PDB`: why a module that was just read has no symbol
/// store.
pub open spec fn no_matching_store() -> Seq<char> {
    "No matching PDB"@
}

/// What a text that may be missing holds.
pub open spec fn text_view(text: Option<String>) -> Option<Seq<char>> {
    match text {
        Some(text) => Some(text@),
        None => None,
    }
}

/// Where an export leads, with the name of a forwarder as a text.
pub enum TargetView {
    RVA(u64),
    Forwarder(Seq<char>),
}

/// What an export holds.
pub struct ExportView {
    pub name: Option<Seq<char>>,
    pub ordinal: u32,
    pub target: TargetView,
}

/// What `export` holds.
pub open spec fn export_view(export: Export) -> ExportView {
    ExportView {
        name: text_view(export.name),
        ordinal: export.ordinal,
        target: match export.target {
            ExportTarget::RVA(address) => TargetView::RVA(address),
            ExportTarget::Forwarder(name) => TargetView::Forwarder(name@),
        },
    }
}

/// What `exports` hold.
pub open spec fn exports_view(exports: Seq<Export>) -> Seq<ExportView> {
    exports.map_values(|export: Export| export_view(export))
}

/// Why a CodeView entry has no plan: its record is shorter than a
/// descriptor, or it does not lie within 64 bits.
pub open spec fn codeview_failure(entry: DebugDirectory) -> Seq<char> {
    if entry.size_of_data < PDB_INFO_SIZE {
        record_too_short()
    } else {
        out_of_range()
    }
}

/// Whether `outcome` is what reading the entries of the debug directory
/// from number `from` on leads to, where `found` is what the entries before
/// gave. Each entry is read in full; a CodeView entry has its descriptor
/// read and then the name behind it, and is then what is found. The first
/// read that comes back short, the first entry that does not fit in 64 bits
/// and the first CodeView record that is too short is the failure.
pub open spec fn debug_entries_read<M: MemorySource + ?Sized>(
    source: &M,
    module_address: u64,
    table_addr: u64,
    from: int,
    count: int,
    found: (Option<PdbInfo>, Option<Seq<char>>),
    outcome: Result<(Option<PdbInfo>, Option<Seq<char>>), Seq<char>>,
) -> bool
    decreases count - from,
{
    if from >= count {
        outcome == Ok::<(Option<PdbInfo>, Option<Seq<char>>), Seq<char>>(found)
    } else if from < 0 || table_addr + from * DEBUG_ENTRY_SIZE > u64::MAX {
        outcome == Err::<(Option<PdbInfo>, Option<Seq<char>>), Seq<char>>(out_of_range())
    } else {
        exists|entry: Option<DebugDirectory>|
            #[trigger] data_read(source, (table_addr + from * DEBUG_ENTRY_SIZE) as u64, entry)
                && match entry {
                None => outcome == Err::<(Option<PdbInfo>, Option<Seq<char>>), Seq<char>>(
                    short_read(),
                ),
                Some(entry) => match codeview_plan(entry, module_address) {
                    None => debug_entries_read(
                        source,
                        module_address,
                        table_addr,
                        from + 1,
                        count,
                        found,
                        outcome,
                    ),
                    Some(None) => outcome == Err::<
                        (Option<PdbInfo>, Option<Seq<char>>),
                        Seq<char>,
                    >(codeview_failure(entry)),
                    Some(Some(plan)) => exists|info: Option<PdbInfo>|
                        #[trigger] data_read(source, plan.info_at, info) && match info {
                            None => outcome == Err::<
                                (Option<PdbInfo>, Option<Seq<char>>),
                                Seq<char>,
                            >(short_read()),
                            Some(info) => exists|name: Seq<char>|
                                #[trigger] string_read(
                                    source,
                                    plan.name_at,
                                    plan.name_limit,
                                    false,
                                    name,
                                ) && debug_entries_read(
                                    source,
                                    module_address,
                                    table_addr,
                                    from + 1,
                                    count,
                                    (Some(info), Some(name)),
                                    outcome,
                                ),
                        },
                },
            }
    }
}

/// Whether `outcome` is what reading the debug directory of a module leads
/// to: nothing where the directory has no entry to look at, the failure
/// where the directory does not lie within 64 bits, else what reading its
/// entries leads to.
pub open spec fn debug_info_read<M: MemorySource + ?Sized>(
    source: &M,
    header: NtHeaders64,
    module_address: u64,
    outcome: Result<(Option<PdbInfo>, Option<Seq<char>>), Seq<char>>,
) -> bool {
    if debug_entries(header.debug_table) == 0 {
        outcome == Ok::<(Option<PdbInfo>, Option<Seq<char>>), Seq<char>>((None, None))
    } else {
        match rebased(module_address, header.debug_table.virtual_address) {
            None => outcome == Err::<(Option<PdbInfo>, Option<Seq<char>>), Seq<char>>(
                out_of_range(),
            ),
            Some(table_addr) => debug_entries_read(
                source,
                module_address,
                table_addr,
                0,
                debug_entries(header.debug_table),
                (None, None),
                outcome,
            ),
        }
    }
}

/// What the result of reading the debug directory holds.
pub open spec fn debug_outcome(
    result: Result<(Option<PdbInfo>, Option<String>), &'static str>,
) -> Result<(Option<PdbInfo>, Option<Seq<char>>), Seq<char>> {
    match result {
        Ok((info, name)) => Ok((info, text_view(name))),
        Err(message) => Err(message@),
    }
}

/// Reads the debug directory from a source of any kind.
pub(crate) fn debug_info_from<M: MemorySource + ?Sized>(
    pe_header: &NtHeaders64,
    module_address: u64,
    source: &M,
) -> (result: Result<(Option<PdbInfo>, Option<String>), &'static str>)
    ensures
        debug_info_read(source, *pe_header, module_address, debug_outcome(result)),
        result matches Ok((info, name)) ==> (info is Some <==> name is Some),
{
    let mut pdb_info_result: Option<PdbInfo> = None;
    let mut pdb_name_result: Option<String> = None;
    let count = debug_entry_count(&pe_header.debug_table);
    if count == 0 {
        return Ok((pdb_info_result, pdb_name_result));
    }
    let debug_table_addr = match rebase(module_address, pe_header.debug_table.virtual_address) {
        Ok(address) => address,
        Err(message) => { return Err(message); },
    };
    let mut dir_index: u64 = 0;
    while dir_index < count
        invariant
            dir_index <= count,
            count == debug_entries(pe_header.debug_table),
            count > 0,
            rebased(module_address, pe_header.debug_table.virtual_address) == Some(
                debug_table_addr,
            ),
            pdb_info_result is Some <==> pdb_name_result is Some,
            forall|outcome: Result<(Option<PdbInfo>, Option<Seq<char>>), Seq<char>>|
                #[trigger] debug_entries_read(
                    source,
                    module_address,
                    debug_table_addr,
                    dir_index as int,
                    count as int,
                    (pdb_info_result, text_view(pdb_name_result)),
                    outcome,
                ) ==> debug_entries_read(
                    source,
                    module_address,
                    debug_table_addr,
                    0,
                    count as int,
                    (None, None),
                    outcome,
                ),
        decreases count - dir_index,
    {
        let ghost found = (pdb_info_result, text_view(pdb_name_result));
        let debug_dir_addr = match debug_table_addr.checked_add(dir_index * DEBUG_ENTRY_SIZE) {
            Some(address) => address,
            None => {
                assert(debug_entries_read(
                    source,
                    module_address,
                    debug_table_addr,
                    dir_index as int,
                    count as int,
                    found,
                    Err(out_of_range()),
                ));
                return Err("Address out of range");
            },
        };
        let debug_dir: DebugDirectory = match data_from(source, debug_dir_addr) {
            Ok(entry) => entry,
            Err(message) => {
                assert(data_read::<DebugDirectory, M>(source, debug_dir_addr, None));
                assert(debug_entries_read(
                    source,
                    module_address,
                    debug_table_addr,
                    dir_index as int,
                    count as int,
                    found,
                    Err(short_read()),
                ));
                return Err(message);
            },
        };
        assert(data_read(source, debug_dir_addr, Some(debug_dir)));
        match plan_codeview(&debug_dir, module_address) {
            Err(message) => {
                assert(debug_entries_read(
                    source,
                    module_address,
                    debug_table_addr,
                    dir_index as int,
                    count as int,
                    found,
                    Err(codeview_failure(debug_dir)),
                ));
                return Err(message);
            },
            Ok(None) => {
                assert forall|outcome: Result<(Option<PdbInfo>, Option<Seq<char>>), Seq<char>>|
                    #[trigger] debug_entries_read(
                        source,
                        module_address,
                        debug_table_addr,
                        dir_index + 1,
                        count as int,
                        found,
                        outcome,
                    ) implies debug_entries_read(
                    source,
                    module_address,
                    debug_table_addr,
                    dir_index as int,
                    count as int,
                    found,
                    outcome,
                ) by {
                    assert(data_read(source, debug_dir_addr, Some(debug_dir)));
                }
            },
            Ok(Some(plan)) => {
                let pdb_info: PdbInfo = match data_from(source, plan.info_at) {
                    Ok(info) => info,
                    Err(message) => {
                        assert(data_read::<PdbInfo, M>(source, plan.info_at, None));
                        assert(debug_entries_read(
                            source,
                            module_address,
                            debug_table_addr,
                            dir_index as int,
                            count as int,
                            found,
                            Err(short_read()),
                        ));
                        return Err(message);
                    },
                };
                let pdb_name = string_from(source, plan.name_at, plan.name_limit, false);
                assert forall|outcome: Result<(Option<PdbInfo>, Option<Seq<char>>), Seq<char>>|
                    #[trigger] debug_entries_read(
                        source,
                        module_address,
                        debug_table_addr,
                        dir_index + 1,
                        count as int,
                        (Some(pdb_info), Some(pdb_name@)),
                        outcome,
                    ) implies debug_entries_read(
                    source,
                    module_address,
                    debug_table_addr,
                    dir_index as int,
                    count as int,
                    found,
                    outcome,
                ) by {
                    assert(data_read(source, debug_dir_addr, Some(debug_dir)));
                    assert(data_read(source, plan.info_at, Some(pdb_info)));
                    assert(string_read(source, plan.name_at, plan.name_limit, false, pdb_name@));
                }
                pdb_info_result = Some(pdb_info);
                pdb_name_result = Some(pdb_name);
            },
        }
        dir_index += 1;
    }
    assert(debug_entries_read(
        source,
        module_address,
        debug_table_addr,
        count as int,
        count as int,
        (pdb_info_result, text_view(pdb_name_result)),
        Ok((pdb_info_result, text_view(pdb_name_result))),
    ));
    Ok((pdb_info_result, pdb_name_result))
}

/// Whether `export` is the export number `index` that the tables plan,
/// with the names that were read for it: its own name at the place that the
/// plan gives, and the name of a forwarder at the place of its target.
pub open spec fn export_read<M: MemorySource + ?Sized>(
    source: &M,
    tables: ExportTables,
    index: int,
    export: ExportView,
) -> bool {
    &&& tables.spec_plan(index) matches Some(plan)
    &&& export.ordinal == plan.ordinal
    &&& match plan.name_at {
        Some(name_addr) => export.name matches Some(name) && string_read(
            source,
            name_addr,
            MAX_EXPORT_NAME,
            false,
            name,
        ),
        None => export.name is None,
    }
    &&& match plan.target {
        TargetPlan::Code(address) => export.target == TargetView::RVA(address),
        TargetPlan::ForwarderAt(address) => export.target matches TargetView::Forwarder(name)
            && string_read(source, address, MAX_EXPORT_NAME, false, name),
    }
}

/// Why the tables have no plan for the export number `index`.
pub open spec fn plan_failure(tables: ExportTables, index: int) -> Seq<char> {
    if tables.base + index > u32::MAX {
        ordinal_out_of_range()
    } else {
        out_of_range()
    }
}

/// Whether `outcome` is what reading the exports that the tables plan leads
/// to: one export for each entry of the address table, in its order, with
/// `name` as the name of the module; or the failure of the first entry for
/// which the tables have no plan.
pub open spec fn export_entries_read<M: MemorySource + ?Sized>(
    source: &M,
    tables: ExportTables,
    name: Option<Seq<char>>,
    outcome: Result<(Seq<ExportView>, Option<Seq<char>>), Seq<char>>,
) -> bool {
    match outcome {
        Ok((exports, given)) => {
            &&& given == name
            &&& exports.len() == tables.functions@.len()
            &&& forall|i: int|
                0 <= i < exports.len() ==> export_read(source, tables, i, #[trigger] exports[i])
        },
        Err(message) => exists|at: int|
            0 <= at < tables.functions@.len() && (#[trigger] tables.spec_plan(at)) is None
                && message == plan_failure(tables, at) && forall|i: int|
                0 <= i < at ==> (#[trigger] tables.spec_plan(i)) is Some,
    }
}

/// Whether `tables` are the tables of a module at `module_address` whose
/// export directory spans `[start, end)`, with these entries.
pub open spec fn tables_hold(
    tables: ExportTables,
    module_address: u64,
    start: u64,
    end: u64,
    base: u32,
    ordinals: Seq<u16>,
    names: Seq<u32>,
    functions: Seq<u32>,
) -> bool {
    &&& tables.module_address == module_address
    &&& tables.table_addr == start
    &&& tables.table_end == end
    &&& tables.base == base
    &&& tables.ordinals@ == ordinals
    &&& tables.names@ == names
    &&& tables.functions@ == functions
}

/// Whether `outcome` is what reading the three tables of an export
/// directory and then its exports leads to. The table of ordinals, the table
/// of names and the table of addresses are read in this order, each in full
/// at the place that the directory gives; a table that comes back short or
/// does not lie within 64 bits is the failure.
pub open spec fn export_tables_read<M: MemorySource + ?Sized>(
    source: &M,
    module_address: u64,
    start: u64,
    end: u64,
    directory: ExportDirectory,
    name: Option<Seq<char>>,
    outcome: Result<(Seq<ExportView>, Option<Seq<char>>), Seq<char>>,
) -> bool {
    if directory.number_of_names > usize::MAX / 4 || directory.number_of_functions > usize::MAX
        / 4 {
        outcome == Err::<(Seq<ExportView>, Option<Seq<char>>), Seq<char>>(short_read())
    } else if module_address + directory.address_of_name_ordinals > u64::MAX {
        outcome == Err::<(Seq<ExportView>, Option<Seq<char>>), Seq<char>>(out_of_range())
    } else {
        exists|ordinals: Option<Seq<u16>>|
            #[trigger] full_array_read(
                source,
                (module_address + directory.address_of_name_ordinals) as u64,
                directory.number_of_names as usize,
                ordinals,
            ) && match ordinals {
                None => outcome == Err::<(Seq<ExportView>, Option<Seq<char>>), Seq<char>>(
                    short_read(),
                ),
                Some(ordinals) => export_names_read(
                    source,
                    module_address,
                    start,
                    end,
                    directory,
                    name,
                    ordinals,
                    outcome,
                ),
            }
    }
}

/// The same, once the table of ordinals is read.
pub open spec fn export_names_read<M: MemorySource + ?Sized>(
    source: &M,
    module_address: u64,
    start: u64,
    end: u64,
    directory: ExportDirectory,
    name: Option<Seq<char>>,
    ordinals: Seq<u16>,
    outcome: Result<(Seq<ExportView>, Option<Seq<char>>), Seq<char>>,
) -> bool {
    if module_address + directory.address_of_names > u64::MAX {
        outcome == Err::<(Seq<ExportView>, Option<Seq<char>>), Seq<char>>(out_of_range())
    } else {
        exists|names: Option<Seq<u32>>|
            #[trigger] full_array_read(
                source,
                (module_address + directory.address_of_names) as u64,
                directory.number_of_names as usize,
                names,
            ) && match names {
                None => outcome == Err::<(Seq<ExportView>, Option<Seq<char>>), Seq<char>>(
                    short_read(),
                ),
                Some(names) => export_functions_read(
                    source,
                    module_address,
                    start,
                    end,
                    directory,
                    name,
                    ordinals,
                    names,
                    outcome,
                ),
            }
    }
}

/// The same, once the table of names is read too.
pub open spec fn export_functions_read<M: MemorySource + ?Sized>(
    source: &M,
    module_address: u64,
    start: u64,
    end: u64,
    directory: ExportDirectory,
    name: Option<Seq<char>>,
    ordinals: Seq<u16>,
    names: Seq<u32>,
    outcome: Result<(Seq<ExportView>, Option<Seq<char>>), Seq<char>>,
) -> bool {
    if module_address + directory.address_of_functions > u64::MAX {
        outcome == Err::<(Seq<ExportView>, Option<Seq<char>>), Seq<char>>(out_of_range())
    } else {
        exists|functions: Option<Seq<u32>>|
            #[trigger] full_array_read(
                source,
                (module_address + directory.address_of_functions) as u64,
                directory.number_of_functions as usize,
                functions,
            ) && match functions {
                None => outcome == Err::<(Seq<ExportView>, Option<Seq<char>>), Seq<char>>(
                    short_read(),
                ),
                Some(functions) => exists|tables: ExportTables|
                    tables_hold(
                        tables,
                        module_address,
                        start,
                        end,
                        directory.base,
                        ordinals,
                        names,
                        functions,
                    ) && #[trigger] export_entries_read(source, tables, name, outcome),
            }
    }
}

/// Whether `outcome` is what reading the name that an export directory
/// gives the module, and then its tables, leads to. A directory without a
/// name gives none; a name that does not lie within 64 bits is the failure.
pub open spec fn export_name_read<M: MemorySource + ?Sized>(
    source: &M,
    module_address: u64,
    start: u64,
    end: u64,
    directory: ExportDirectory,
    outcome: Result<(Seq<ExportView>, Option<Seq<char>>), Seq<char>>,
) -> bool {
    if directory.name == 0 {
        export_tables_read(source, module_address, start, end, directory, None, outcome)
    } else if module_address + directory.name > u64::MAX {
        outcome == Err::<(Seq<ExportView>, Option<Seq<char>>), Seq<char>>(out_of_range())
    } else {
        exists|name: Seq<char>|
            #[trigger] string_read(
                source,
                (module_address + directory.name) as u64,
                MAX_MODULE_NAME,
                false,
                name,
            ) && export_tables_read(
                source,
                module_address,
                start,
                end,
                directory,
                Some(name),
                outcome,
            )
    }
}

/// Whether `outcome` is what reading the export directory of a module leads
/// to: no exports and no name where the module has no export directory, the
/// failure where the directory does not lie within 64 bits or its header
/// comes back short, else what reading its name, its tables and its exports
/// leads to.
pub open spec fn exports_read<M: MemorySource + ?Sized>(
    source: &M,
    header: NtHeaders64,
    module_address: u64,
    outcome: Result<(Seq<ExportView>, Option<Seq<char>>), Seq<char>>,
) -> bool {
    if header.export_table.virtual_address == 0 {
        outcome == Ok::<(Seq<ExportView>, Option<Seq<char>>), Seq<char>>((Seq::empty(), None))
    } else if module_address + header.export_table.virtual_address + header.export_table.size
        > u64::MAX {
        outcome == Err::<(Seq<ExportView>, Option<Seq<char>>), Seq<char>>(out_of_range())
    } else {
        exists|directory: Option<ExportDirectory>|
            #[trigger] data_read(
                source,
                (module_address + header.export_table.virtual_address) as u64,
                directory,
            ) && match directory {
                None => outcome == Err::<(Seq<ExportView>, Option<Seq<char>>), Seq<char>>(
                    short_read(),
                ),
                Some(directory) => export_name_read(
                    source,
                    module_address,
                    (module_address + header.export_table.virtual_address) as u64,
                    (module_address + header.export_table.virtual_address
                        + header.export_table.size) as u64,
                    directory,
                    outcome,
                ),
            }
    }
}

/// What the result of reading the export directory holds.
pub open spec fn exports_outcome(
    result: Result<(Vec<Export>, Option<String>), &'static str>,
) -> Result<(Seq<ExportView>, Option<Seq<char>>), Seq<char>> {
    match result {
        Ok((exports, name)) => Ok((exports_view(exports@), text_view(name))),
        Err(message) => Err(message@),
    }
}

/// Reads the exports that the tables plan.
fn export_entries_from<M: MemorySource + ?Sized>(
    tables: &ExportTables,
    module_name: Option<String>,
    source: &M,
) -> (result: Result<(Vec<Export>, Option<String>), &'static str>)
    requires
        tables.names@.len() == tables.ordinals@.len(),
    ensures
        export_entries_read(source, *tables, text_view(module_name), exports_outcome(result)),
        result matches Ok((exports, name)) ==> {
            &&& crate::module::no_code_in_span(
                exports@,
                tables.table_addr as int,
                tables.table_end as int,
            )
            &&& crate::module::exports_in_order(exports@, tables.module_address)
        },
{
    let mut exports: Vec<Export> = Vec::new();
    let mut unbiased_ordinal: usize = 0;
    while unbiased_ordinal < tables.functions.len()
        invariant
            unbiased_ordinal <= tables.functions.len(),
            tables.names@.len() == tables.ordinals@.len(),
            exports@.len() == unbiased_ordinal,
            crate::module::no_code_in_span(
                exports@,
                tables.table_addr as int,
                tables.table_end as int,
            ),
            forall|i: int|
                0 <= i < exports@.len() ==> {
                    &&& (#[trigger] exports@[i]).ordinal == tables.base + i
                    &&& exports@[i].target matches ExportTarget::RVA(address)
                        ==> tables.module_address <= address <= tables.module_address + u32::MAX
                    &&& export_read(source, *tables, i, export_view(exports@[i]))
                },
        decreases tables.functions.len() - unbiased_ordinal,
    {
        let plan = match tables.plan(unbiased_ordinal) {
            Ok(plan) => plan,
            Err(message) => {
                assert(tables.spec_plan(unbiased_ordinal as int) is None);
                assert forall|i: int| 0 <= i < unbiased_ordinal implies (
                #[trigger] tables.spec_plan(i)) is Some by {
                    assert(export_read(source, *tables, i, export_view(exports@[i])));
                }
                return Err(message);
            },
        };
        let export_name = match plan.name_at {
            Some(name_addr) => Some(string_from(source, name_addr, MAX_EXPORT_NAME, false)),
            None => None,
        };
        let target = match plan.target {
            TargetPlan::ForwarderAt(target_addr) => {
                // A forwarder name has no known limit; this one is generous.
                let forwarding_name = string_from(source, target_addr, MAX_EXPORT_NAME, false);
                ExportTarget::Forwarder(forwarding_name)
            },
            TargetPlan::Code(target_addr) => ExportTarget::RVA(target_addr),
        };
        let export = Export { name: export_name, ordinal: plan.ordinal, target };
        assert(export_read(source, *tables, unbiased_ordinal as int, export_view(export)));
        exports.push(export);
        unbiased_ordinal += 1;
    }
    proof {
        let views = exports_view(exports@);
        assert forall|i: int| 0 <= i < views.len() implies export_read(
            source,
            *tables,
            i,
            #[trigger] views[i],
        ) by {
            assert(views[i] == export_view(exports@[i]));
            assert(export_read(source, *tables, i, export_view(exports@[i])));
        }
    }
    Ok((exports, module_name))
}

/// Reads the export directory from a source of any kind.
pub(crate) fn exports_from<M: MemorySource + ?Sized>(
    pe_header: &NtHeaders64,
    module_address: u64,
    source: &M,
) -> (result: Result<(Vec<Export>, Option<String>), &'static str>)
    ensures
        exports_read(source, *pe_header, module_address, exports_outcome(result)),
        pe_header.export_table.virtual_address == 0 ==> (result matches Ok((exports, name))
            && exports@.len() == 0 && name is None),
        result matches Ok((exports, name)) ==> {
            &&& crate::module::no_code_in_span(
                exports@,
                module_address + pe_header.export_table.virtual_address,
                module_address + pe_header.export_table.virtual_address
                    + pe_header.export_table.size,
            )
            &&& crate::module::exports_in_order(exports@, module_address)
        },
{
    let export_table_info = pe_header.export_table;
    if export_table_info.virtual_address == 0 {
        let exports: Vec<Export> = Vec::new();
        assert(exports_view(exports@) =~= Seq::<ExportView>::empty());
        return Ok((exports, None));
    }
    let export_table_addr = match rebase(module_address, export_table_info.virtual_address) {
        Ok(address) => address,
        Err(message) => { return Err(message); },
    };
    let export_table_end = match export_table_addr.checked_add(export_table_info.size as u64) {
        Some(address) => address,
        None => { return Err("Address out of range"); },
    };
    let export_directory: ExportDirectory = match data_from(source, export_table_addr) {
        Ok(directory) => directory,
        Err(message) => {
            assert(data_read::<ExportDirectory, M>(source, export_table_addr, None));
            return Err(message);
        },
    };
    assert(data_read(source, export_table_addr, Some(export_directory)));
    // This is a fallback that lets us find a name if none was available.
    let module_name: Option<String> = if export_directory.name != 0 {
        let name_addr = match rebase(module_address, export_directory.name) {
            Ok(address) => address,
            Err(message) => { return Err(message); },
        };
        Some(string_from(source, name_addr, MAX_MODULE_NAME, false))
    } else {
        None
    };
    let result = export_tables_from(
        &export_directory,
        module_address,
        export_table_addr,
        export_table_end,
        module_name,
        source,
    );
    proof {
        let outcome = exports_outcome(result);
        assert(export_tables_read(
            source,
            module_address,
            export_table_addr,
            export_table_end,
            export_directory,
            text_view(module_name),
            outcome,
        ));
        assert(export_name_read(
            source,
            module_address,
            export_table_addr,
            export_table_end,
            export_directory,
            outcome,
        ));
    }
    result
}

/// Reads the three tables of an export directory and then its exports.
fn export_tables_from<M: MemorySource + ?Sized>(
    directory: &ExportDirectory,
    module_address: u64,
    start: u64,
    end: u64,
    module_name: Option<String>,
    source: &M,
) -> (result: Result<(Vec<Export>, Option<String>), &'static str>)
    ensures
        export_tables_read(
            source,
            module_address,
            start,
            end,
            *directory,
            text_view(module_name),
            exports_outcome(result),
        ),
        result matches Ok((exports, name)) ==> {
            &&& crate::module::no_code_in_span(exports@, start as int, end as int)
            &&& crate::module::exports_in_order(exports@, module_address)
        },
{
    // The name table is read first: a list of (ordinal, name) pairs that give names
    // to some or all of the exports, stored as parallel arrays.
    let name_count = directory.number_of_names as usize;
    let function_count = directory.number_of_functions as usize;
    if name_count > usize::MAX / 4 || function_count > usize::MAX / 4 {
        return Err("Could not read all items");
    }
    let ordinal_array_addr = match rebase(module_address, directory.address_of_name_ordinals) {
        Ok(address) => address,
        Err(message) => { return Err(message); },
    };
    let ordinals = match full_array_from::<u16, M>(source, ordinal_array_addr, name_count) {
        Ok(ordinals) => ordinals,
        Err(message) => {
            assert(full_array_read::<u16, M>(source, ordinal_array_addr, name_count, None));
            return Err(message);
        },
    };
    assert(full_array_read(source, ordinal_array_addr, name_count, Some(ordinals@)));
    let name_array_addr = match rebase(module_address, directory.address_of_names) {
        Ok(address) => address,
        Err(message) => { return Err(message); },
    };
    let names = match full_array_from::<u32, M>(source, name_array_addr, name_count) {
        Ok(names) => names,
        Err(message) => {
            assert(full_array_read::<u32, M>(source, name_array_addr, name_count, None));
            return Err(message);
        },
    };
    assert(full_array_read(source, name_array_addr, name_count, Some(names@)));
    let address_table_addr = match rebase(module_address, directory.address_of_functions) {
        Ok(address) => address,
        Err(message) => { return Err(message); },
    };
    let functions = match full_array_from::<u32, M>(source, address_table_addr, function_count) {
        Ok(functions) => functions,
        Err(message) => {
            assert(full_array_read::<u32, M>(source, address_table_addr, function_count, None));
            return Err(message);
        },
    };
    assert(full_array_read(source, address_table_addr, function_count, Some(functions@)));
    let tables = ExportTables {
        module_address,
        table_addr: start,
        table_end: end,
        base: directory.base,
        ordinals,
        names,
        functions,
    };
    let result = export_entries_from(&tables, module_name, source);
    proof {
        let outcome = exports_outcome(result);
        assert(tables_hold(
            tables,
            module_address,
            start,
            end,
            directory.base,
            tables.ordinals@,
            tables.names@,
            tables.functions@,
        ));
        assert(export_entries_read(source, tables, text_view(module_name), outcome));
        assert(export_functions_read(
            source,
            module_address,
            start,
            end,
            *directory,
            text_view(module_name),
            tables.ordinals@,
            tables.names@,
            outcome,
        ));
        assert(export_names_read(
            source,
            module_address,
            start,
            end,
            *directory,
            text_view(module_name),
            tables.ordinals@,
            outcome,
        ));
    }
    result
}

/// The name of a module loaded at `address`: the one it was loaded under;
/// else the one that its export directory gives; else `module_` and the
/// address in capital hexadecimal digits.
pub open spec fn name_for(
    hint: Option<Seq<char>>,
    export_name: Option<Seq<char>>,
    address: u64,
) -> Seq<char> {
    match hint {
        Some(name) => name,
        None => match export_name {
            Some(name) => name,
            None => crate::module::fallback_prefix() + digits(address as nat, 16, true),
        },
    }
}

/// Whether `module` is the module at `module_address` that is made of
/// these parts: the size that the header gives, the exports and the store
/// that were read, the name chosen of the three, and no symbol store yet.
pub open spec fn module_holds(
    module: Module,
    module_address: u64,
    hint: Option<Seq<char>>,
    header: NtHeaders64,
    info: Option<PdbInfo>,
    store_name: Option<Seq<char>>,
    exports: Seq<ExportView>,
    export_name: Option<Seq<char>>,
) -> bool {
    &&& module.address == module_address
    &&& module.size == header.size_of_image
    &&& module.name@ == name_for(hint, export_name, module_address)
    &&& exports_view(module.exports@) == exports
    &&& module.pdb_info == info
    &&& text_view(module.pdb_name) == store_name
    &&& module.pdb matches Err(message) && message@ == no_matching_store()
}

/// Whether `outcome` is what reading the debug directory and the export
/// directory of a module with this header leads to: the failure of the
/// first of the two that fails, else the module that is made of what they
/// gave.
pub open spec fn directories_read<M: MemorySource + ?Sized>(
    source: &M,
    module_address: u64,
    hint: Option<Seq<char>>,
    header: NtHeaders64,
    outcome: Result<Module, Seq<char>>,
) -> bool {
    exists|debug: Result<(Option<PdbInfo>, Option<Seq<char>>), Seq<char>>|
        #[trigger] debug_info_read(source, header, module_address, debug) && match debug {
            Err(message) => outcome == Err::<Module, Seq<char>>(message),
            Ok((info, store_name)) => exists|
                exports: Result<(Seq<ExportView>, Option<Seq<char>>), Seq<char>>,
            |
                #[trigger] exports_read(source, header, module_address, exports)
                    && match exports {
                    Err(message) => outcome == Err::<Module, Seq<char>>(message),
                    Ok((exports, export_name)) => outcome matches Ok(module) && module_holds(
                        module,
                        module_address,
                        hint,
                        header,
                        info,
                        store_name,
                        exports,
                        export_name,
                    ),
                },
        }
}

/// Whether `outcome` is what reading the module at `module_address` leads
/// to. The leading header is read at the address of the module and the
/// second header at the offset that the first gives; then the debug
/// directory and the export directory are read. A header that comes back
/// short, and a second header that lies before the module or not within 64
/// bits, is the failure.
pub open spec fn module_read<M: MemorySource + ?Sized>(
    source: &M,
    module_address: u64,
    hint: Option<Seq<char>>,
    outcome: Result<Module, Seq<char>>,
) -> bool {
    exists|dos: Option<DosHeader>|
        #[trigger] data_read(source, module_address, dos) && match dos {
            None => outcome == Err::<Module, Seq<char>>(short_read()),
            Some(dos) => if dos.e_lfanew < 0 || module_address + dos.e_lfanew > u64::MAX {
                outcome == Err::<Module, Seq<char>>(out_of_range())
            } else {
                exists|header: Option<NtHeaders64>|
                    #[trigger] data_read(
                        source,
                        (module_address + dos.e_lfanew) as u64,
                        header,
                    ) && match header {
                        None => outcome == Err::<Module, Seq<char>>(short_read()),
                        Some(header) => directories_read(
                            source,
                            module_address,
                            hint,
                            header,
                            outcome,
                        ),
                    }
            },
        }
}

/// What the result of reading a module holds.
pub open spec fn module_outcome(result: Result<Module, String>) -> Result<Module, Seq<char>> {
    match result {
        Ok(module) => Ok(module),
        Err(message) => Err(message@),
    }
}

/// Reads the module that is loaded at `module_address` from a source of any
/// kind.
pub(crate) fn module_from<M: MemorySource + ?Sized>(
    module_address: u64,
    module_name: Option<String>,
    source: &M,
) -> (result: Result<Module, String>)
    ensures
        module_read(source, module_address, text_view(module_name), module_outcome(result)),
        result matches Ok(module) ==> {
            &&& module.size <= u32::MAX
            &&& (module.pdb_name is Some <==> module.pdb_info is Some)
            &&& crate::module::exports_in_order(module.exports@, module_address)
        },
{
    let ghost hint = text_view(module_name);
    let dos_header: DosHeader = match data_from(source, module_address) {
        Ok(header) => header,
        Err(message) => {
            assert(data_read::<DosHeader, M>(source, module_address, None));
            return Err(String::from_str(message));
        },
    };
    assert(data_read(source, module_address, Some(dos_header)));
    if dos_header.e_lfanew < 0 {
        return Err(String::from_str("Address out of range"));
    }
    let pe_header_addr = match rebase(module_address, dos_header.e_lfanew as u32) {
        Ok(address) => address,
        Err(message) => { return Err(String::from_str(message)); },
    };
    let pe_header: NtHeaders64 = match data_from(source, pe_header_addr) {
        Ok(header) => header,
        Err(message) => {
            assert(data_read::<NtHeaders64, M>(source, pe_header_addr, None));
            return Err(String::from_str(message));
        },
    };
    assert(data_read(source, pe_header_addr, Some(pe_header)));
    let debug = debug_info_from(&pe_header, module_address, source);
    assert(debug_info_read(source, pe_header, module_address, debug_outcome(debug)));
    let (pdb_info, pdb_name) = match debug {
        Ok(found) => found,
        Err(message) => {
            let text = String::from_str(message);
            assert(directories_read(source, module_address, hint, pe_header, Err(text@)));
            return Err(text);
        },
    };
    let read = exports_from(&pe_header, module_address, source);
    assert(exports_read(source, pe_header, module_address, exports_outcome(read)));
    let (exports, export_table_module_name) = match read {
        Ok(found) => found,
        Err(message) => {
            let text = String::from_str(message);
            assert(directories_read(source, module_address, hint, pe_header, Err(text@)));
            return Err(text);
        },
    };
    let ghost export_name = text_view(export_table_module_name);
    let ghost views = exports_view(exports@);
    let name = choose_module_name(module_name, export_table_module_name, module_address);
    let module = Module {
        name,
        address: module_address,
        size: pe_header.size_of_image as u64,
        exports,
        pdb_name,
        pdb_info,
        pdb: Err(String::from_str("No matching PDB")),
    };
    assert(module_holds(
        module,
        module_address,
        hint,
        pe_header,
        pdb_info,
        text_view(pdb_name),
        views,
        export_name,
    ));
    assert(directories_read(source, module_address, hint, pe_header, Ok(module)));
    Ok(module)
}

} // verus!
