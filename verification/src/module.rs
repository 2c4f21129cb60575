//! A loaded executable image: its address range, its exports and the public
//! function symbols of its symbol store.

use vstd::prelude::*;
use vstd::string::*;

use crate::loading::{
    debug_info_from, debug_info_read, debug_outcome, exports_from, exports_outcome, exports_read,
    module_from, module_outcome, module_read, text_view,
};
use crate::memory::MemorySource;
use crate::pe::{DataDirectory, DebugDirectory, NtHeaders64, DEBUG_TYPE_CODEVIEW};
use crate::text::{digits, push_number};

verus! {

/// Where an export leads.
pub enum ExportTarget {
    /// Relative virtual address, rebased: the absolute address of the code.
    RVA(u64),
    /// The name of the export in another module that this one is forwarded to.
    Forwarder(String),
}

/// An exported function of a module.
pub struct Export {
    pub name: Option<String>,
    /// This is the "biased" ordinal.
    pub ordinal: u32,
    pub target: ExportTarget,
}

/// The text `Ordinal`.
pub open spec fn ordinal_prefix() -> Seq<char> {
    seq!['O', 'r', 'd', 'i', 'n', 'a', 'l']
}

impl Export {
    /// The name under which the export is shown: its own, or `Ordinal<N>`.
    pub open spec fn display_name(&self) -> Seq<char> {
        match self.name {
            Some(name) => name@,
            None => ordinal_prefix() + digits(self.ordinal as nat, 10, false),
        }
    }

    /// The name under which the export is shown.
    pub fn to_string(&self) -> (text: String)
        ensures
            text@ == self.display_name(),
    {
        match &self.name {
            Some(name) => name.clone(),
            None => {
                let mut text = String::from_str("Ordinal");
                proof {
                    reveal_strlit("Ordinal");
                    assert(text@ =~= ordinal_prefix());
                }
                push_number(&mut text, self.ordinal as u64, 10, false, 0, ' ');
                text
            },
        }
    }
}

/// A 128-bit identifier, as executable images store it.
#[derive(Copy, Clone, Debug, PartialEq, Eq)]
pub struct Guid {
    pub data1: u32,
    pub data2: u16,
    pub data3: u16,
    pub data4: [u8; 8],
}

/// The descriptor of a symbol store that an image embeds; the store's name
/// follows it in memory.
#[derive(Copy, Clone, Debug)]
pub struct PdbInfo {
    pub signature: u32,
    pub guid: Guid,
    pub age: u32,
}

impl Default for PdbInfo {
    /// The descriptor whose every field is zero.
    fn default() -> (info: PdbInfo)
        ensures
            info.signature == 0,
            info.age == 0,
            info.guid.data1 == 0,
            info.guid.data2 == 0,
            info.guid.data3 == 0,
            info.guid.data4@ == seq![0u8, 0u8, 0u8, 0u8, 0u8, 0u8, 0u8, 0u8],
    {
        let info = PdbInfo {
            signature: 0,
            guid: Guid { data1: 0, data2: 0, data3: 0, data4: [0, 0, 0, 0, 0, 0, 0, 0] },
            age: 0,
        };
        assert(info.guid.data4@ =~= seq![0u8, 0u8, 0u8, 0u8, 0u8, 0u8, 0u8, 0u8]);
        info
    }
}

/// A public function symbol of a symbol store.
pub struct PublicFunction {
    pub name: String,
    /// Offset of the function from the start of the image.
    pub rva: u32,
}

/// What a symbol store says of an image: its public function symbols, in the
/// order in which the store lists them.
pub struct SymbolStore {
    pub functions: Vec<PublicFunction>,
}

/// A loaded executable image.
pub struct Module {
    pub name: String,
    pub address: u64,
    pub size: u64,
    pub exports: Vec<Export>,
    pub pdb_name: Option<String>,
    pub pdb_info: Option<PdbInfo>,
    /// The symbol store, or why there is none.
    pub pdb: Result<SymbolStore, String>,
}

impl Module {
    /// Whether `address` lies in `[self.address, self.address + self.size)`.
    pub open spec fn spec_contains_address(&self, address: u64) -> bool {
        self.address <= address < self.address + self.size
    }

    /// The public function symbols of the module: those of its symbol store,
    /// none where it has no store.
    pub open spec fn public_functions(&self) -> Seq<PublicFunction> {
        match self.pdb {
            Ok(store) => store.functions@,
            Err(_) => Seq::empty(),
        }
    }

    /// Whether `address` lies in the image.
    #[verifier::when_used_as_spec(spec_contains_address)]
    pub fn contains_address(&self, address: u64) -> (inside: bool)
        ensures
            inside == self.spec_contains_address(address),
    {
        self.address <= address && address - self.address < self.size
    }
}

/// The most entries of the debug directory that are looked at.
pub const MAX_DEBUG_ENTRIES: u64 = 20;

/// The most characters that are read of the name of a module.
pub const MAX_MODULE_NAME: usize = 512;

/// The most characters that are read of the name of an export or of a
/// forwarder.
pub const MAX_EXPORT_NAME: usize = 4096;

/// The text `module_`, with which the name of a nameless module starts.
pub open spec fn fallback_prefix() -> Seq<char> {
    seq!['m', 'o', 'd', 'u', 'l', 'e', '_']
}

/// The name of a module: the one it was loaded under; else the one that its
/// export directory gives; else `module_` and its address in capital
/// hexadecimal digits.
pub open spec fn module_name_for(
    hint: Option<String>,
    export_name: Option<String>,
    address: u64,
) -> Seq<char> {
    match hint {
        Some(name) => name@,
        None => match export_name {
            Some(name) => name@,
            None => fallback_prefix() + digits(address as nat, 16, true),
        },
    }
}

/// The name of a module loaded at `address`.
pub fn choose_module_name(hint: Option<String>, export_name: Option<String>, address: u64) -> (name:
    String)
    ensures
        name@ == module_name_for(hint, export_name, address),
{
    match hint {
        Some(name) => name,
        None => match export_name {
            Some(name) => name,
            None => {
                let mut name = String::from_str("module_");
                proof {
                    reveal_strlit("module_");
                    assert(name@ =~= fallback_prefix());
                }
                push_number(&mut name, address, 16, true, 0, ' ');
                name
            },
        },
    }
}

/// Whether `address` lies in the span `[start, end)`. An export whose target
/// lies in the span of the export directory is a forwarder: the target is
/// then the place of a name, not of code.
pub open spec fn in_span(address: u64, start: u64, end: u64) -> bool {
    start <= address < end
}

/// The address `rva` behind `base`, where it fits in 64 bits.
pub open spec fn rebased(base: u64, rva: u32) -> Option<u64> {
    if base + rva <= u64::MAX {
        Some((base + rva) as u64)
    } else {
        None
    }
}

/// The absolute address of what lies `rva` behind `base`.
pub fn rebase(base: u64, rva: u32) -> (address: Result<u64, &'static str>)
    ensures
        match address {
            Ok(value) => rebased(base, rva) == Some(value),
            Err(message) => rebased(base, rva) is None && message@ == "Address out of range"@,
        },
{
    match base.checked_add(rva as u64) {
        Some(value) => Ok(value),
        None => Err("Address out of range"),
    }
}

/// Whether `at` is the first place of `ordinals` that holds `index`.
pub open spec fn is_name_index(ordinals: Seq<u16>, index: int, at: int) -> bool {
    &&& 0 <= at < ordinals.len()
    &&& ordinals[at] == index
    &&& forall|j: int| 0 <= j < at ==> ordinals[j] != index
}

/// The place of the name of the export number `index`: the first place of
/// the ordinal table that holds `index`.
pub open spec fn name_index(ordinals: Seq<u16>, index: int) -> Option<int> {
    if exists|at: int| is_name_index(ordinals, index, at) {
        Some(choose|at: int| is_name_index(ordinals, index, at))
    } else {
        None
    }
}

/// The place of the name of the export number `index`.
pub fn find_name_index(ordinals: &Vec<u16>, index: usize) -> (found: Option<usize>)
    ensures
        match found {
            Some(at) => name_index(ordinals@, index as int) == Some(at as int),
            None => name_index(ordinals@, index as int) is None,
        },
{
    let mut i: usize = 0;
    while i < ordinals.len()
        invariant
            i <= ordinals.len(),
            forall|j: int| 0 <= j < i ==> ordinals@[j] != index,
        decreases ordinals.len() - i,
    {
        if ordinals[i] as usize == index {
            assert(is_name_index(ordinals@, index as int, i as int));
            return Some(i);
        }
        i += 1;
    }
    None
}

/// Where an export leads, before any name is read.
#[derive(Copy, Clone, Debug, PartialEq, Eq, Structural)]
pub enum TargetPlan {
    /// To code at this address.
    Code(u64),
    /// To the export of another module, whose name stands at this address.
    ForwarderAt(u64),
}

/// What is known of an export from the tables of the export directory: its
/// ordinal, where its name stands, and where it leads.
#[derive(Copy, Clone, Debug, PartialEq, Eq, Structural)]
pub struct ExportPlan {
    pub ordinal: u32,
    pub name_at: Option<u64>,
    pub target: TargetPlan,
}

/// The tables of an export directory, as they were read.
pub struct ExportTables {
    /// The address of the module.
    pub module_address: u64,
    /// The span of the export directory.
    pub table_addr: u64,
    pub table_end: u64,
    /// The ordinal of the first entry of the address table.
    pub base: u32,
    /// For each name, the index of its export in the address table.
    pub ordinals: Vec<u16>,
    /// For each name, where it stands, relative to the module.
    pub names: Vec<u32>,
    /// For each export, where it leads, relative to the module.
    pub functions: Vec<u32>,
}

impl ExportTables {
    /// What the tables say of the export number `index`; `None` where its
    /// ordinal or one of its addresses does not fit.
    pub open spec fn spec_plan(&self, index: int) -> Option<ExportPlan> {
        let target = rebased(self.module_address, self.functions@[index]);
        let name = match name_index(self.ordinals@, index) {
            Some(at) => Some(rebased(self.module_address, self.names@[at])),
            None => None,
        };
        if self.base + index > u32::MAX || target is None || name == Some(None::<u64>) {
            None
        } else {
            Some(
                ExportPlan {
                    ordinal: (self.base + index) as u32,
                    name_at: match name {
                        Some(address) => address,
                        None => None,
                    },
                    target: if in_span(target->0, self.table_addr, self.table_end) {
                        TargetPlan::ForwarderAt(target->0)
                    } else {
                        TargetPlan::Code(target->0)
                    },
                },
            )
        }
    }

    /// What the tables say of the export number `index`.
    pub fn plan(&self, index: usize) -> (planned: Result<ExportPlan, &'static str>)
        requires
            index < self.functions@.len(),
            self.names@.len() == self.ordinals@.len(),
        ensures
            match planned {
                Ok(plan) => self.spec_plan(index as int) == Some(plan),
                Err(message) => self.spec_plan(index as int) is None && message@ == if self.base
                    + index > u32::MAX {
                    "Ordinal out of range"@
                } else {
                    "Address out of range"@
                },
            },
    {
        if index > u32::MAX as usize {
            return Err("Ordinal out of range");
        }
        let ordinal = match self.base.checked_add(index as u32) {
            Some(ordinal) => ordinal,
            None => { return Err("Ordinal out of range"); },
        };
        let target_addr = rebase(self.module_address, self.functions[index])?;
        let name_at = match find_name_index(&self.ordinals, index) {
            Some(at) => Some(rebase(self.module_address, self.names[at])?),
            None => None,
        };
        // An address that falls inside the export directory is actually a forwarder.
        let target = if target_addr >= self.table_addr && target_addr < self.table_end {
            TargetPlan::ForwarderAt(target_addr)
        } else {
            TargetPlan::Code(target_addr)
        };
        Ok(ExportPlan { ordinal, name_at, target })
    }
}

/// The first and the last address of the span of an export directory lead to
/// a forwarder; the address just behind the span, and the one just before
/// it, lead to code.
pub proof fn lemma_forwarder_boundaries(start: u64, end: u64)
    requires
        start < end,
    ensures
        in_span(start, start, end),
        in_span((end - 1) as u64, start, end),
        !in_span(end, start, end),
        start > 0 ==> !in_span((start - 1) as u64, start, end),
{
}

/// An export is planned as a forwarder exactly where its target lies in the
/// span of the export directory, and never as code there.
pub proof fn lemma_forwarder_iff_in_span(tables: ExportTables, index: int)
    requires
        tables.spec_plan(index) is Some,
    ensures
        rebased(tables.module_address, tables.functions@[index]) matches Some(target) && (
        tables.spec_plan(index)->0.target == if in_span(target, tables.table_addr, tables.table_end) {
            TargetPlan::ForwarderAt(target)
        } else {
            TargetPlan::Code(target)
        }),
{
}

/// Size of an entry of the debug directory, in bytes.
pub const DEBUG_ENTRY_SIZE: u64 = 28;

/// Size of the descriptor of a symbol store, in bytes; the name of the store
/// follows it.
pub const PDB_INFO_SIZE: u32 = 24;

/// Number of entries of the debug directory that are looked at: as many as
/// its size holds, `MAX_DEBUG_ENTRIES` at most, and none where the image has
/// no debug directory.
pub open spec fn debug_entries(directory: DataDirectory) -> int {
    if directory.virtual_address == 0 {
        0
    } else if directory.size / 28 < MAX_DEBUG_ENTRIES {
        directory.size as int / 28
    } else {
        MAX_DEBUG_ENTRIES as int
    }
}

/// Number of entries of the debug directory that are looked at.
pub fn debug_entry_count(directory: &DataDirectory) -> (count: u64)
    ensures
        count == debug_entries(*directory),
        count <= MAX_DEBUG_ENTRIES,
{
    if directory.virtual_address == 0 {
        return 0;
    }
    // The number of entries is limited to keep it sane.
    let declared = directory.size as u64 / DEBUG_ENTRY_SIZE;
    if declared < MAX_DEBUG_ENTRIES {
        declared
    } else {
        MAX_DEBUG_ENTRIES
    }
}

/// Where the CodeView record of a debug entry stands: the descriptor of the
/// symbol store, and behind it the name of the store with its longest length.
#[derive(Copy, Clone, Debug, PartialEq, Eq, Structural)]
pub struct CodeViewPlan {
    pub info_at: u64,
    pub name_at: u64,
    pub name_limit: usize,
}

/// What a debug entry says of a symbol store, for a module at
/// `module_address`: nothing where it is no CodeView entry, else where its
/// record stands, and `None` inside where the record is shorter than a
/// descriptor or does not lie within 64 bits.
pub open spec fn codeview_plan(entry: DebugDirectory, module_address: u64) -> Option<
    Option<CodeViewPlan>,
> {
    if entry.kind != DEBUG_TYPE_CODEVIEW {
        None
    } else if entry.size_of_data < PDB_INFO_SIZE || module_address + entry.address_of_raw_data
        + PDB_INFO_SIZE > u64::MAX {
        Some(None)
    } else {
        Some(
            Some(
                CodeViewPlan {
                    info_at: (module_address + entry.address_of_raw_data) as u64,
                    name_at: (module_address + entry.address_of_raw_data + PDB_INFO_SIZE) as u64,
                    name_limit: (entry.size_of_data - PDB_INFO_SIZE) as usize,
                },
            ),
        )
    }
}

/// What a debug entry says of a symbol store.
pub fn plan_codeview(entry: &DebugDirectory, module_address: u64) -> (planned: Result<
    Option<CodeViewPlan>,
    &'static str,
>)
    ensures
        match planned {
            Ok(Some(plan)) => codeview_plan(*entry, module_address) == Some(Some(plan)),
            Ok(None) => codeview_plan(*entry, module_address) is None,
            Err(message) => codeview_plan(*entry, module_address) == Some(None::<CodeViewPlan>)
                && message@ == if entry.size_of_data < PDB_INFO_SIZE {
                "Debug record too short"@
            } else {
                "Address out of range"@
            },
        },
{
    if entry.kind != DEBUG_TYPE_CODEVIEW {
        return Ok(None);
    }
    if entry.size_of_data < PDB_INFO_SIZE {
        return Err("Debug record too short");
    }
    let info_at = rebase(module_address, entry.address_of_raw_data)?;
    let name_at = match info_at.checked_add(PDB_INFO_SIZE as u64) {
        Some(address) => address,
        None => { return Err("Address out of range"); },
    };
    Ok(Some(CodeViewPlan { info_at, name_at, name_limit: (entry.size_of_data - PDB_INFO_SIZE) as usize }))
}

/// Whether no export of `exports` leads to code inside `[start, end)`.
pub open spec fn no_code_in_span(exports: Seq<Export>, start: int, end: int) -> bool {
    forall|i: int|
        0 <= i < exports.len() ==> ((#[trigger] exports[i]).target matches ExportTarget::RVA(address)
            ==> !(start <= address < end))
}

/// Whether `exports` can be the exports of a module at `module_address`:
/// their ordinals count up from that of the first, and those that lead to
/// code lead to an address that lies less than 2^32 behind the module's.
pub open spec fn exports_in_order(exports: Seq<Export>, module_address: u64) -> bool {
    forall|i: int|
        0 <= i < exports.len() ==> {
            &&& (#[trigger] exports[i]).ordinal == exports[0].ordinal + i
            &&& exports[i].target matches ExportTarget::RVA(address) ==> module_address <= address
                <= module_address + u32::MAX
        }
}

impl Module {
    /// Reads the module that is loaded at `module_address`: its headers, its
    /// debug directory and its exports. The module has no symbol store yet.
    /// A read that comes back short, or an address in the image that does
    /// not fit in 64 bits, fails the load. The result is what the reads led
    /// to, as `module_read` says it read by read.
    pub fn from_memory_view(
        module_address: u64,
        module_name: Option<String>,
        memory_source: &dyn MemorySource,
    ) -> (result: Result<Module, String>)
        ensures
            module_read(
                memory_source,
                module_address,
                text_view(module_name),
                module_outcome(result),
            ),
            result matches Ok(module) ==> {
                &&& module.address == module_address
                &&& module.size <= u32::MAX
                &&& (module_name matches Some(name) ==> module.name@ == name@)
                &&& (module.pdb matches Err(message) && message@ == "No matching PDB"@)
                &&& (module.pdb_name is Some <==> module.pdb_info is Some)
                &&& exports_in_order(module.exports@, module_address)
            },
    {
        module_from(module_address, module_name, memory_source)
    }

    /// Reads the debug directory and gives the descriptor and the name of the
    /// symbol store of its last CodeView entry. At most `MAX_DEBUG_ENTRIES`
    /// entries are looked at. A directory without entries gives `None` for
    /// both, whatever the memory holds. The result is what the reads led to,
    /// as `debug_info_read` says it read by read.
    pub fn read_debug_info(
        pe_header: &NtHeaders64,
        module_address: u64,
        memory_source: &dyn MemorySource,
    ) -> (result: Result<(Option<PdbInfo>, Option<String>), &'static str>)
        ensures
            debug_info_read(memory_source, *pe_header, module_address, debug_outcome(result)),
            result matches Ok((info, name)) ==> (info is Some <==> name is Some),
            debug_entries(pe_header.debug_table) == 0 ==> (result matches Ok((info, name))
                && info is None && name is None),
    {
        debug_info_from(pe_header, module_address, memory_source)
    }

    /// Reads the export directory and gives the exports, in the order of the
    /// address table, and the name that the directory gives the module.
    /// Without an export directory there are no exports and no name. The
    /// three tables must be read in full. No export that leads to code lies
    /// in the span of the export directory; the ordinals count up from that
    /// of the first export, and code lies less than 2^32 behind the module.
    /// The result is what the reads led to, as `exports_read` says it read by
    /// read.
    pub fn read_exports(
        pe_header: &NtHeaders64,
        module_address: u64,
        memory_source: &dyn MemorySource,
    ) -> (result: Result<(Vec<Export>, Option<String>), &'static str>)
        ensures
            exports_read(memory_source, *pe_header, module_address, exports_outcome(result)),
            pe_header.export_table.virtual_address == 0 ==> (result matches Ok((exports, name))
                && exports@.len() == 0 && name is None),
            result matches Ok((exports, name)) ==> {
                &&& no_code_in_span(
                    exports@,
                    module_address + pe_header.export_table.virtual_address,
                    module_address + pe_header.export_table.virtual_address
                        + pe_header.export_table.size,
                )
                &&& exports_in_order(exports@, module_address)
            },
    {
        exports_from(pe_header, module_address, memory_source)
    }

    /// Gives the module its symbol store, or the reason why it has none.
    pub fn set_symbol_store(&mut self, store: Result<SymbolStore, String>)
        ensures
            final(self).pdb == store,
            final(self).name == old(self).name,
            final(self).address == old(self).address,
            final(self).size == old(self).size,
            final(self).exports == old(self).exports,
            final(self).pdb_name == old(self).pdb_name,
            final(self).pdb_info == old(self).pdb_info,
    {
        self.pdb = store;
    }
}

} // verus!
