//! Between addresses and names: the nearest symbol before an address, and the
//! address of a `module!function` name.

use vstd::prelude::*;
use vstd::string::*;

use crate::module::{Export, ExportTarget, Module, PublicFunction};
use crate::process::{containing_module, module_by_name, Process};
use crate::text::{chars_of, digits, find_char, first_occurrence, push_number, str_eq, string_of};

verus! {

/// The address of an export that leads to code; a forwarder has none.
pub open spec fn export_address(export: Export) -> Option<u64> {
    match export.target {
        ExportTarget::RVA(address) => Some(address),
        ExportTarget::Forwarder(_) => None,
    }
}

/// Whether `exports[at]` is the nearest export at or before `address`: no
/// export that leads to code lies closer, and of those at the same address
/// it is the first.
pub open spec fn is_nearest_export(exports: Seq<Export>, address: u64, at: int) -> bool {
    &&& 0 <= at < exports.len()
    &&& export_address(exports[at]) matches Some(best)
    &&& best <= address
    &&& forall|j: int|
        0 <= j < exports.len() ==> (#[trigger] export_address(exports[j]) matches Some(other)
            ==> other <= address ==> other <= best && (j < at ==> other < best))
}

/// The absolute address of a public function of a module loaded at `base`.
pub open spec fn function_address(base: u64, function: PublicFunction) -> int {
    base + function.rva
}

/// Whether `functions[at]` is the nearest public function at or before
/// `address`: none lies closer, and of those at the same address it is the
/// last.
pub open spec fn is_nearest_function(
    functions: Seq<PublicFunction>,
    base: u64,
    address: u64,
    at: int,
) -> bool {
    &&& 0 <= at < functions.len()
    &&& function_address(base, functions[at]) <= address
    &&& forall|j: int|
        0 <= j < functions.len() && #[trigger] function_address(base, functions[j]) <= address
            ==> function_address(base, functions[j]) <= function_address(base, functions[at]) && (
        j > at ==> function_address(base, functions[j]) < function_address(base, functions[at]))
}

/// A symbol near an address: its name and where it starts.
pub struct Nearest {
    pub name: Seq<char>,
    pub address: int,
}

/// The symbol of `module` that is nearest at or before `address`. The
/// nearest public function of the symbol store is taken where it lies at or
/// behind the nearest export, or where there is no such export; else the
/// nearest export.
pub open spec fn nearest_symbol(module: Module, address: u64) -> Option<Nearest> {
    let exports = module.exports@;
    let functions = module.public_functions();
    let base = module.address;
    if exists|e: int| is_nearest_export(exports, address, e) {
        let e = choose|e: int| is_nearest_export(exports, address, e);
        let floor = export_address(exports[e])->0;
        if exists|f: int|
            is_nearest_function(functions, base, address, f) && floor <= function_address(
                base,
                functions[f],
            ) {
            let f = choose|f: int| is_nearest_function(functions, base, address, f);
            Some(Nearest { name: functions[f].name@, address: function_address(base, functions[f]) })
        } else {
            Some(Nearest { name: exports[e].display_name(), address: floor as int })
        }
    } else if exists|f: int| is_nearest_function(functions, base, address, f) {
        let f = choose|f: int| is_nearest_function(functions, base, address, f);
        Some(Nearest { name: functions[f].name@, address: function_address(base, functions[f]) })
    } else {
        None
    }
}

/// Only one export is the nearest, and only one public function.
pub proof fn lemma_nearest_is_unique(module: Module, address: u64, a: int, b: int)
    ensures
        is_nearest_export(module.exports@, address, a) && is_nearest_export(
            module.exports@,
            address,
            b,
        ) ==> a == b,
        is_nearest_function(module.public_functions(), module.address, address, a)
            && is_nearest_function(module.public_functions(), module.address, address, b) ==> a
            == b,
{
}

/// Where a module has both a nearest export and a nearest public function,
/// the public function is taken where it lies at the address of the export
/// or behind it, and the export where the public function lies before it.
pub proof fn lemma_symbol_store_wins_ties(module: Module, address: u64, e: int, f: int)
    requires
        is_nearest_export(module.exports@, address, e),
        is_nearest_function(module.public_functions(), module.address, address, f),
    ensures
        nearest_symbol(module, address) == Some(
            if export_address(module.exports@[e])->0 <= function_address(
                module.address,
                module.public_functions()[f],
            ) {
                Nearest {
                    name: module.public_functions()[f].name@,
                    address: function_address(module.address, module.public_functions()[f]),
                }
            } else {
                Nearest {
                    name: module.exports@[e].display_name(),
                    address: export_address(module.exports@[e])->0 as int,
                }
            },
        ),
{
    let chosen_export = choose|e: int| is_nearest_export(module.exports@, address, e);
    let chosen_function = choose|f: int|
        is_nearest_function(module.public_functions(), module.address, address, f);
    lemma_nearest_is_unique(module, address, e, chosen_export);
    lemma_nearest_is_unique(module, address, f, chosen_function);
    let floor = export_address(module.exports@[e])->0;
    if floor <= function_address(module.address, module.public_functions()[f]) {
    } else {
        assert forall|g: int|
            is_nearest_function(module.public_functions(), module.address, address, g) implies !(
        floor <= function_address(module.address, module.public_functions()[g])) by {
            lemma_nearest_is_unique(module, address, f, g);
        }
    }
}

/// `module!symbol`, followed by `+0x` and the offset in hexadecimal where the
/// offset is not zero.
pub open spec fn symbol_text(module_name: Seq<char>, symbol: Seq<char>, offset: nat) -> Seq<char> {
    let qualified = module_name + seq!['!'] + symbol;
    if offset == 0 {
        qualified
    } else {
        qualified + seq!['+', '0', 'x'] + digits(offset, 16, false)
    }
}

/// The name that stands for `address` in a process with these modules: that
/// of the nearest symbol at or before it in the first module that holds it.
pub open spec fn address_name(modules: Seq<Module>, address: u64) -> Option<Seq<char>> {
    match containing_module(modules, address) {
        Some(at) => match nearest_symbol(modules[at], address) {
            Some(nearest) => Some(
                symbol_text(modules[at].name@, nearest.name, (address - nearest.address) as nat),
            ),
            None => None,
        },
        None => None,
    }
}

/// Writes `module!symbol` with the offset behind it.
fn format_symbol(module_name: &str, symbol: &str, offset: u64) -> (text: String)
    ensures
        text@ == symbol_text(module_name@, symbol@, offset as nat),
{
    let mut text = module_name.to_owned();
    text.push('!');
    text.append(symbol);
    if offset != 0 {
        text.push('+');
        text.push('0');
        text.push('x');
        push_number(&mut text, offset, 16, false, 0, ' ');
        assert(text@ =~= module_name@ + seq!['!'] + symbol@ + seq!['+', '0', 'x'] + digits(
            offset as nat,
            16,
            false,
        ));
    } else {
        assert(text@ =~= module_name@ + seq!['!'] + symbol@);
    }
    text
}

/// The nearest export at or before `address`: its place and its address.
fn find_nearest_export(exports: &Vec<Export>, address: u64) -> (found: Option<(usize, u64)>)
    ensures
        match found {
            Some((at, best)) => is_nearest_export(exports@, address, at as int) && export_address(
                exports@[at as int],
            ) == Some(best),
            None => forall|e: int| !is_nearest_export(exports@, address, e),
        },
{
    let mut closest: Option<(usize, u64)> = None;
    let mut i: usize = 0;
    while i < exports.len()
        invariant
            i <= exports.len(),
            match closest {
                Some((at, closest_addr)) => {
                    &&& at < i
                    &&& export_address(exports@[at as int]) == Some(closest_addr)
                    &&& closest_addr <= address
                    &&& forall|j: int|
                        0 <= j < i ==> (#[trigger] export_address(exports@[j]) matches Some(other)
                            ==> other <= address ==> other <= closest_addr && (j < at ==> other
                            < closest_addr))
                },
                None => forall|j: int|
                    0 <= j < i ==> (#[trigger] export_address(exports@[j]) matches Some(other)
                        ==> other > address),
            },
        decreases exports.len() - i,
    {
        if let ExportTarget::RVA(export_addr) = exports[i].target {
            let closer = match closest {
                Some((_, closest_addr)) => closest_addr < export_addr,
                None => true,
            };
            if export_addr <= address && closer {
                closest = Some((i, export_addr));
            }
        }
        i += 1;
    }
    closest
}

/// The nearest public function at or before `address`: its place and its
/// address.
fn find_nearest_function(functions: &Vec<PublicFunction>, base: u64, address: u64) -> (found:
    Option<(usize, u64)>)
    ensures
        match found {
            Some((at, best)) => is_nearest_function(functions@, base, address, at as int)
                && function_address(base, functions@[at as int]) == best,
            None => forall|f: int| !is_nearest_function(functions@, base, address, f),
        },
{
    let mut closest: Option<(usize, u64)> = None;
    let mut i: usize = 0;
    while i < functions.len()
        invariant
            i <= functions.len(),
            match closest {
                Some((at, closest_addr)) => {
                    &&& at < i
                    &&& function_address(base, functions@[at as int]) == closest_addr
                    &&& closest_addr <= address
                    &&& forall|j: int|
                        0 <= j < i && #[trigger] function_address(base, functions@[j]) <= address
                            ==> function_address(base, functions@[j]) <= closest_addr && (j > at
                            ==> function_address(base, functions@[j]) < closest_addr)
                },
                None => forall|j: int|
                    0 <= j < i ==> #[trigger] function_address(base, functions@[j]) > address,
            },
        decreases functions.len() - i,
    {
        // An address that does not fit in 64 bits lies behind every address.
        if let Some(global_addr) = base.checked_add(functions[i].rva as u64) {
            let closer = match closest {
                Some((_, closest_addr)) => closest_addr <= global_addr,
                None => true,
            };
            if global_addr <= address && closer {
                closest = Some((i, global_addr));
            }
        }
        i += 1;
    }
    closest
}

/// The name of the nearest symbol at or before `address` in `module`, with
/// the offset of `address` from it.
pub fn resolve_address_in_module(module: &Module, address: u64) -> (name: Option<String>)
    ensures
        match name {
            Some(text) => nearest_symbol(*module, address) matches Some(nearest) && text@
                == symbol_text(module.name@, nearest.name, (address - nearest.address) as nat),
            None => nearest_symbol(*module, address) is None,
        },
{
    // The export with the closest address that comes before the address we're looking for.
    let export = find_nearest_export(&module.exports, address);
    // The public symbol with the closest address that comes before it, where it lies
    // at the export or behind it.
    let floor = match export {
        Some((_, export_addr)) => export_addr,
        None => 0,
    };
    if let Ok(store) = &module.pdb {
        if let Some((f, function_addr)) = find_nearest_function(
            &store.functions,
            module.address,
            address,
        ) {
            if floor <= function_addr {
                proof {
                    let chosen = choose|g: int|
                        is_nearest_function(
                            module.public_functions(),
                            module.address,
                            address,
                            g,
                        );
                    lemma_nearest_is_unique(*module, address, f as int, chosen);
                    if let Some((e, _)) = export {
                        let taken = choose|g: int| is_nearest_export(module.exports@, address, g);
                        lemma_nearest_is_unique(*module, address, e as int, taken);
                    }
                }
                return Some(
                    format_symbol(
                        module.name.as_str(),
                        store.functions[f].name.as_str(),
                        address - function_addr,
                    ),
                );
            }
            proof {
                assert forall|g: int|
                    is_nearest_function(
                        module.public_functions(),
                        module.address,
                        address,
                        g,
                    ) implies !(floor <= function_address(
                    module.address,
                    module.public_functions()[g],
                )) by {
                    lemma_nearest_is_unique(*module, address, f as int, g);
                }
            }
        }
    }
    match export {
        Some((e, export_addr)) => {
            let shown = module.exports[e].to_string();
            Some(format_symbol(module.name.as_str(), shown.as_str(), address - export_addr))
        },
        None => None,
    }
}

/// The name that stands for `address`: `module!symbol` for the nearest symbol
/// at or before it in the module that holds it, with `+0x<offset>` behind it
/// where the address lies behind the symbol; `None` where no module holds the
/// address or the module has no symbol at or before it.
pub fn resolve_address_to_name(address: u64, process: &Process) -> (name: Option<String>)
    ensures
        match name {
            Some(text) => address_name(process.modules(), address) == Some(text@),
            None => address_name(process.modules(), address) is None,
        },
{
    match process.get_containing_module(address) {
        Some(module) => resolve_address_in_module(module, address),
        None => None,
    }
}

/// Whether `exports[at]` is the first export named `function`.
pub open spec fn is_first_named(exports: Seq<Export>, function: Seq<char>, at: int) -> bool {
    &&& 0 <= at < exports.len()
    &&& exports[at].name matches Some(name) && name@ == function
    &&& forall|j: int|
        0 <= j < at ==> !((#[trigger] exports[j]).name matches Some(name) && name@ == function)
}

/// The address of the function `function` of `module`: that of its first
/// export of that name, where that export leads to code.
pub open spec fn function_in_module(module: Module, function: Seq<char>) -> Option<u64> {
    if exists|at: int| is_first_named(module.exports@, function, at) {
        export_address(module.exports@[choose|at: int| is_first_named(module.exports@, function, at)])
    } else {
        None
    }
}

/// What `symbol` resolves to in a process with these modules: the address of
/// the function behind the first `!` in the module named before it, or the
/// message that says what is missing.
pub open spec fn name_address(modules: Seq<Module>, symbol: Seq<char>) -> Result<u64, Seq<char>> {
    match first_occurrence(symbol, '!') {
        None => Err("Searching all modules for a symbol is not yet implmented"@),
        Some(pos) => {
            let module_name = symbol.take(pos);
            let func_name = symbol.skip(pos + 1);
            match module_by_name(modules, module_name) {
                Some(at) => match function_in_module(modules[at], func_name) {
                    Some(address) => Ok(address),
                    None => Err(
                        "Could not find "@ + func_name + " in module "@ + module_name,
                    ),
                },
                None => Err("Could not find module "@ + module_name),
            }
        },
    }
}

/// The address of the export named `func` in `module`. The exports are
/// searched in order and the first of that name decides: a forwarder has no
/// address in this module, so the result is then `None`, as it is where no
/// export has the name.
pub fn resolve_function_in_module(module: &Module, func: &str) -> (address: Option<u64>)
    ensures
        address == function_in_module(*module, func@),
{
    let mut i: usize = 0;
    while i < module.exports.len()
        invariant
            i <= module.exports.len(),
            forall|j: int|
                0 <= j < i ==> !((#[trigger] module.exports@[j]).name matches Some(name) && name@
                    == func@),
        decreases module.exports.len() - i,
    {
        let export = &module.exports[i];
        if let Some(export_name) = &export.name {
            if str_eq(export_name.as_str(), func) {
                assert(is_first_named(module.exports@, func@, i as int));
                return match export.target {
                    ExportTarget::RVA(export_addr) => Some(export_addr),
                    ExportTarget::Forwarder(_) => None,
                };
            }
        }
        i += 1;
    }
    None
}

/// The address of `module!function`. The symbol is split at its first `!`;
/// one without `!` is refused, since no search over all modules is made.
pub fn resolve_name_to_address(symbol: &str, process: &Process) -> (address: Result<u64, String>)
    ensures
        match address {
            Ok(value) => name_address(process.modules(), symbol@) == Ok::<u64, Seq<char>>(value),
            Err(message) => name_address(process.modules(), symbol@) == Err::<u64, Seq<char>>(
                message@,
            ),
        },
{
    let chars = chars_of(symbol);
    match find_char(&chars, '!') {
        None => {
            // Search all modules
            Err(String::from_str("Searching all modules for a symbol is not yet implmented"))
        },
        Some(pos) => {
            let module_name = string_of(&chars, 0, pos);
            let func_name = string_of(&chars, pos + 1, chars.len());
            assert(chars@.subrange(0, pos as int) =~= symbol@.take(pos as int));
            assert(chars@.subrange(pos + 1, chars.len() as int) =~= symbol@.skip(pos + 1));
            if let Some(module) = process.get_module_by_name(module_name.as_str()) {
                if let Some(addr) = resolve_function_in_module(module, func_name.as_str()) {
                    Ok(addr)
                } else {
                    let mut message = String::from_str("Could not find ");
                    message.append(func_name.as_str());
                    message.append(" in module ");
                    message.append(module_name.as_str());
                    Err(message)
                }
            } else {
                let mut message = String::from_str("Could not find module ");
                message.append(module_name.as_str());
                Err(message)
            }
        },
    }
}

} // verus!
