//! The one target process: its loaded modules, in load order, and its live
//! threads.

use vstd::prelude::*;

use crate::events::ThreadId;
use crate::loading::{module_from, module_read, text_view};
use crate::memory::MemorySource;
use crate::module::Module;
use crate::text::{last_component, last_path_component, lowercase, str_eq, to_lowercase};

verus! {

/// Whether `modules[at]` is the first module that holds `address`.
pub open spec fn is_first_containing(modules: Seq<Module>, address: u64, at: int) -> bool {
    &&& 0 <= at < modules.len()
    &&& modules[at].spec_contains_address(address)
    &&& forall|j: int| 0 <= j < at ==> !(#[trigger] modules[j]).spec_contains_address(address)
}

/// Index of the first module that holds `address`.
pub open spec fn containing_module(modules: Seq<Module>, address: u64) -> Option<int> {
    if exists|i: int| is_first_containing(modules, address, i) {
        Some(choose|i: int| is_first_containing(modules, address, i))
    } else {
        None
    }
}

/// Whether the module is named exactly `name`.
pub open spec fn exact_name(module: Module, name: Seq<char>) -> bool {
    module.name@ == name
}

/// Whether the last component of the module's path is `name`, letter case
/// aside.
pub open spec fn trimmed_name(module: Module, name: Seq<char>) -> bool {
    lowercase(last_component(module.name@)) == lowercase(name)
}

/// Whether `modules[at]` is the first module named exactly `name`.
pub open spec fn is_first_exact(modules: Seq<Module>, name: Seq<char>, at: int) -> bool {
    &&& 0 <= at < modules.len()
    &&& exact_name(modules[at], name)
    &&& forall|j: int| 0 <= j < at ==> !exact_name(#[trigger] modules[j], name)
}

/// Whether `modules[at]` is the first module whose file name is `name`,
/// letter case aside.
pub open spec fn is_first_trimmed(modules: Seq<Module>, name: Seq<char>, at: int) -> bool {
    &&& 0 <= at < modules.len()
    &&& trimmed_name(modules[at], name)
    &&& forall|j: int| 0 <= j < at ==> !trimmed_name(#[trigger] modules[j], name)
}

/// Index of the module that `name` stands for: the first one named exactly
/// so; where there is none, the first one whose file name is `name`, letter
/// case aside.
pub open spec fn module_by_name(modules: Seq<Module>, name: Seq<char>) -> Option<int> {
    if exists|i: int| is_first_exact(modules, name, i) {
        Some(choose|i: int| is_first_exact(modules, name, i))
    } else if exists|i: int| is_first_trimmed(modules, name, i) {
        Some(choose|i: int| is_first_trimmed(modules, name, i))
    } else {
        None
    }
}

/// Some module named exactly `name` stands at or before `upto`, so one of
/// them is the first.
proof fn lemma_first_exact_exists(modules: Seq<Module>, name: Seq<char>, upto: int) -> (at: int)
    requires
        0 <= upto < modules.len(),
        exact_name(modules[upto], name),
    ensures
        at <= upto,
        is_first_exact(modules, name, at),
    decreases upto,
{
    if exists|j: int| 0 <= j < upto && exact_name(#[trigger] modules[j], name) {
        let j = choose|j: int| 0 <= j < upto && exact_name(#[trigger] modules[j], name);
        lemma_first_exact_exists(modules, name, j)
    } else {
        upto
    }
}

/// A module named exactly `name` outranks every module that matches `name`
/// by its file name only, wherever the two stand among the loaded modules:
/// the lookup yields a module named exactly `name`, the first of them.
pub proof fn lemma_exact_name_outranks_trimmed(modules: Seq<Module>, name: Seq<char>, exact: int)
    requires
        0 <= exact < modules.len(),
        exact_name(modules[exact], name),
    ensures
        module_by_name(modules, name) matches Some(at) && is_first_exact(modules, name, at) && at
            <= exact,
{
    let first = lemma_first_exact_exists(modules, name, exact);
    let chosen = choose|i: int| is_first_exact(modules, name, i);
    assert(is_first_exact(modules, name, chosen));
    if chosen > exact {
        assert(!exact_name(modules[exact], name));
    }
}

/// Where no module is named exactly `name`, the lookup yields the first
/// module whose file name is `name`, letter case aside.
pub proof fn lemma_trimmed_name_is_fallback(modules: Seq<Module>, name: Seq<char>, at: int)
    requires
        forall|j: int| 0 <= j < modules.len() ==> !exact_name(#[trigger] modules[j], name),
        is_first_trimmed(modules, name, at),
    ensures
        module_by_name(modules, name) == Some(at),
{
    let chosen = choose|i: int| is_first_trimmed(modules, name, i);
    assert(is_first_trimmed(modules, name, chosen));
    if chosen < at {
        assert(!trimmed_name(modules[chosen], name));
    }
    if at < chosen {
        assert(!trimmed_name(modules[at], name));
    }
}

/// The target process.
pub struct Process {
    modules: Vec<Module>,
    threads: Vec<ThreadId>,
}

impl Process {
    /// The loaded modules, in load order.
    pub closed spec fn modules(&self) -> Seq<Module> {
        self.modules@
    }

    /// The live threads, in the order in which they were reported.
    pub closed spec fn threads(&self) -> Seq<ThreadId> {
        self.threads@
    }

    /// A process without modules and threads.
    pub fn new() -> (process: Process)
        ensures
            process.modules().len() == 0,
            process.threads().len() == 0,
    {
        Process { modules: Vec::new(), threads: Vec::new() }
    }

    /// Index of the first module that holds `address`.
    fn find_containing(&self, address: u64) -> (found: Option<usize>)
        ensures
            match found {
                Some(at) => containing_module(self.modules(), address) == Some(at as int),
                None => containing_module(self.modules(), address) is None,
            },
    {
        let mut i: usize = 0;
        while i < self.modules.len()
            invariant
                i <= self.modules.len(),
                forall|j: int|
                    0 <= j < i ==> !(#[trigger] self.modules@[j]).spec_contains_address(address),
            decreases self.modules.len() - i,
        {
            if self.modules[i].contains_address(address) {
                assert(is_first_containing(self.modules@, address, i as int));
                return Some(i);
            }
            i += 1;
        }
        None
    }

    /// Index of the module that `module_name` stands for.
    fn find_by_name(&self, module_name: &str) -> (found: Option<usize>)
        ensures
            match found {
                Some(at) => module_by_name(self.modules(), module_name@) == Some(at as int),
                None => module_by_name(self.modules(), module_name@) is None,
            },
    {
        let mut potential_trimmed_match: Option<usize> = None;
        let wanted = to_lowercase(module_name);
        let mut i: usize = 0;
        while i < self.modules.len()
            invariant
                i <= self.modules.len(),
                wanted@ == lowercase(module_name@),
                forall|j: int|
                    0 <= j < i ==> !exact_name(#[trigger] self.modules@[j], module_name@),
                match potential_trimmed_match {
                    Some(at) => at < i && is_first_trimmed(self.modules@, module_name@, at as int),
                    None => forall|j: int|
                        0 <= j < i ==> !trimmed_name(#[trigger] self.modules@[j], module_name@),
                },
            decreases self.modules.len() - i,
        {
            let module = &self.modules[i];
            // Exact match
            if str_eq(module.name.as_str(), module_name) {
                assert(is_first_exact(self.modules@, module_name@, i as int));
                return Some(i);
            }
            // Trimmed match: the file part of the path matches.
            // The loop goes on after one is found, because an exact match is higher priority.
            if potential_trimmed_match.is_none() {
                let trimmed = last_path_component(module.name.as_str());
                let lowered = to_lowercase(trimmed.as_str());
                if lowered == wanted {
                    potential_trimmed_match = Some(i);
                }
            }
            i += 1;
        }
        proof {
            if let Some(at) = potential_trimmed_match {
                assert(is_first_trimmed(self.modules@, module_name@, at as int));
            }
        }
        potential_trimmed_match
    }

    /// The first module that holds `address`.
    pub fn get_containing_module(&self, address: u64) -> (found: Option<&Module>)
        ensures
            match found {
                Some(module) => containing_module(self.modules(), address) matches Some(at)
                    && *module == self.modules()[at],
                None => containing_module(self.modules(), address) is None,
            },
    {
        match self.find_containing(address) {
            Some(at) => Some(&self.modules[at]),
            None => None,
        }
    }

    /// The first module that holds `address`, for changing it in place.
    pub fn get_containing_module_mut(&mut self, address: u64) -> (found: Option<&mut Module>)
        ensures
            final(self).threads() == old(self).threads(),
            match found {
                Some(module) => {
                    &&& containing_module(old(self).modules(), address) matches Some(at)
                    &&& *module == old(self).modules()[at]
                    &&& final(self).modules() == old(self).modules().update(at, *final(module))
                },
                None => {
                    &&& containing_module(old(self).modules(), address) is None
                    &&& final(self).modules() == old(self).modules()
                },
            },
    {
        match self.find_containing(address) {
            Some(at) => Some(&mut self.modules[at]),
            None => None,
        }
    }

    /// The module that `module_name` stands for: the first one named exactly
    /// so, else the first one whose file name is `module_name`, letter case
    /// aside.
    pub fn get_module_by_name(&self, module_name: &str) -> (found: Option<&Module>)
        ensures
            match found {
                Some(module) => module_by_name(self.modules(), module_name@) matches Some(at)
                    && *module == self.modules()[at],
                None => module_by_name(self.modules(), module_name@) is None,
            },
    {
        match self.find_by_name(module_name) {
            Some(at) => Some(&self.modules[at]),
            None => None,
        }
    }

    /// The module that `module_name` stands for, for changing it in place.
    pub fn get_module_by_name_mut(&mut self, module_name: &str) -> (found: Option<&mut Module>)
        ensures
            final(self).threads() == old(self).threads(),
            match found {
                Some(module) => {
                    &&& module_by_name(old(self).modules(), module_name@) matches Some(at)
                    &&& *module == old(self).modules()[at]
                    &&& final(self).modules() == old(self).modules().update(at, *final(module))
                },
                None => {
                    &&& module_by_name(old(self).modules(), module_name@) is None
                    &&& final(self).modules() == old(self).modules()
                },
            },
    {
        match self.find_by_name(module_name) {
            Some(at) => Some(&mut self.modules[at]),
            None => None,
        }
    }

    /// Reads the module that is loaded at `address` from a source of any kind
    /// and puts it behind the loaded modules.
    pub(crate) fn add_module_from<M: MemorySource + ?Sized>(
        &mut self,
        address: u64,
        name: Option<String>,
        source: &M,
    ) -> (result: Result<&Module, String>)
        ensures
            final(self).threads() == old(self).threads(),
            match result {
                Ok(module) => {
                    &&& module_read(source, address, text_view(name), Ok(*module))
                    &&& final(self).modules() == old(self).modules().push(*module)
                    &&& module.address == address
                    &&& (name matches Some(given) ==> module.name@ == given@)
                },
                Err(message) => {
                    &&& module_read(source, address, text_view(name), Err(message@))
                    &&& final(self).modules() == old(self).modules()
                },
            },
    {
        let module = match module_from(address, name, source) {
            Ok(module) => module,
            Err(message) => { return Err(message); },
        };
        self.modules.push(module);
        let last = self.modules.len() - 1;
        Ok(&self.modules[last])
    }

    /// Reads the module that is loaded at `address` from the target's memory
    /// and puts it behind the loaded modules. Where the module cannot be
    /// read, the process stays as it is. The module, or the failure, is what
    /// the reads led to, as `module_read` says it read by read.
    pub fn add_module(
        &mut self,
        address: u64,
        name: Option<String>,
        memory_source: &dyn MemorySource,
    ) -> (result: Result<&Module, String>)
        ensures
            final(self).threads() == old(self).threads(),
            match result {
                Ok(module) => {
                    &&& module_read(memory_source, address, text_view(name), Ok(*module))
                    &&& final(self).modules() == old(self).modules().push(*module)
                    &&& module.address == address
                    &&& (name matches Some(given) ==> module.name@ == given@)
                },
                Err(message) => {
                    &&& module_read(memory_source, address, text_view(name), Err(message@))
                    &&& final(self).modules() == old(self).modules()
                },
            },
    {
        self.add_module_from(address, name, memory_source)
    }

    /// Puts `module` behind the loaded modules.
    pub fn push_module(&mut self, module: Module)
        ensures
            final(self).modules() == old(self).modules().push(module),
            final(self).threads() == old(self).threads(),
    {
        self.modules.push(module);
    }

    /// Number of loaded modules.
    pub fn module_count(&self) -> (count: usize)
        ensures
            count == self.modules().len(),
    {
        self.modules.len()
    }

    /// The module at place `index` of the load order.
    pub fn module_at(&self, index: usize) -> (module: &Module)
        requires
            index < self.modules().len(),
        ensures
            *module == self.modules()[index as int],
    {
        &self.modules[index]
    }

    /// Puts `thread` behind the live threads.
    pub fn add_thread(&mut self, thread: ThreadId)
        ensures
            final(self).threads() == old(self).threads().push(thread),
            final(self).modules() == old(self).modules(),
    {
        self.threads.push(thread);
    }

    /// Takes every entry of `thread` out of the live threads.
    pub fn remove_thread(&mut self, thread: ThreadId)
        ensures
            final(self).threads() == old(self).threads().filter(|t: ThreadId| t != thread),
            final(self).modules() == old(self).modules(),
    {
        let mut kept: Vec<ThreadId> = Vec::new();
        let mut i: usize = 0;
        let ghost keep = |t: ThreadId| t != thread;
        proof {
            reveal(Seq::filter);
            assert(self.threads@.take(0) =~= Seq::<ThreadId>::empty());
        }
        while i < self.threads.len()
            invariant
                i <= self.threads.len(),
                *self == *old(self),
                keep == (|t: ThreadId| t != thread),
                kept@ == self.threads@.take(i as int).filter(keep),
            decreases self.threads.len() - i,
        {
            let current = self.threads[i];
            proof {
                reveal(Seq::filter);
                let next = self.threads@.take(i + 1);
                assert(next.drop_last() =~= self.threads@.take(i as int));
                assert(next.last() == current);
            }
            if current != thread {
                kept.push(current);
            }
            i += 1;
        }
        assert(self.threads@.take(i as int) =~= self.threads@);
        self.threads = kept;
    }

    /// The live threads, in the order in which they were reported.
    pub fn thread_ids(&self) -> (threads: &Vec<ThreadId>)
        ensures
            threads@ == self.threads(),
    {
        &self.threads
    }
}

} // verus!
