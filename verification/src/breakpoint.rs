//! The breakpoint registry: a list of breakpoints kept sorted by id, where
//! each new breakpoint takes the lowest id that is not in use.

use vstd::prelude::*;
use vstd::string::*;

use crate::module::Module;
use crate::name_resolution::{address_name, resolve_address_to_name};
use crate::process::Process;
use crate::text::{digits, padded, push_number};

verus! {

/// Number of breakpoint ids: ids are drawn from `0..MAX_BREAKPOINTS`.
pub const MAX_BREAKPOINTS: u32 = 1024;

/// Identifier of a registered breakpoint.
#[derive(Copy, Clone, Debug, PartialEq, Eq, PartialOrd, Ord, Structural)]
pub struct BreakpointId(pub u32);

/// One registered breakpoint.
#[derive(Copy, Clone, Debug, PartialEq, Eq, Structural)]
pub struct Breakpoint {
    pub id: BreakpointId,
    pub address: u64,
}

/// Whether `list` is strictly increasing by id, with every id below the ceiling.
pub open spec fn sorted_by_id(list: Seq<Breakpoint>) -> bool {
    &&& forall|i: int| 0 <= i < list.len() ==> (#[trigger] list[i]).id.0 < MAX_BREAKPOINTS
    &&& forall|i: int, j: int|
        0 <= i < j < list.len() ==> (#[trigger] list[i]).id.0 < (#[trigger] list[j]).id.0
}

/// Whether some breakpoint of `list` has the id `id`.
pub open spec fn has_id(list: Seq<Breakpoint>, id: u32) -> bool {
    exists|i: int| 0 <= i < list.len() && (#[trigger] list[i]).id.0 == id
}

/// Whether `id` is the lowest id that no breakpoint of `list` has.
pub open spec fn is_lowest_free(list: Seq<Breakpoint>, id: u32) -> bool {
    &&& !has_id(list, id)
    &&& forall|k: u32| k < id ==> #[trigger] has_id(list, k)
}

/// The lowest id that no breakpoint of `list` has.
pub open spec fn lowest_free(list: Seq<Breakpoint>) -> u32 {
    choose|id: u32| is_lowest_free(list, id)
}

/// `list` without the breakpoints whose id is `id`, order kept.
pub open spec fn without_id(list: Seq<Breakpoint>, id: u32) -> Seq<Breakpoint> {
    list.filter(|b: Breakpoint| b.id.0 != id)
}

/// `list` with a new breakpoint at `address` under the lowest free id. In a
/// sorted list every lower id is taken, so the id is also the place.
pub open spec fn with_breakpoint(list: Seq<Breakpoint>, address: u64) -> Seq<Breakpoint> {
    list.insert(
        lowest_free(list) as int,
        Breakpoint { id: BreakpointId(lowest_free(list)), address },
    )
}

/// The line that shows a breakpoint: the id, right-aligned in three columns,
/// the address in 16 hexadecimal digits behind `0x`, and the symbol in
/// brackets where the address has one.
pub open spec fn breakpoint_line(breakpoint: Breakpoint, modules: Seq<Module>) -> Seq<char> {
    let shown = padded(digits(breakpoint.id.0 as nat, 10, false), 3, ' ') + seq![' ', '0', 'x']
        + padded(digits(breakpoint.address as nat, 16, false), 16, '0');
    match address_name(modules, breakpoint.address) {
        Some(symbol) => shown + seq![' ', '('] + symbol + seq![')'],
        None => shown,
    }
}

/// Only one id is the lowest free one.
pub proof fn lemma_lowest_free_unique(list: Seq<Breakpoint>, a: u32, b: u32)
    requires
        is_lowest_free(list, a),
        is_lowest_free(list, b),
    ensures
        a == b,
{
    if a < b {
        assert(has_id(list, a));
    }
    if b < a {
        assert(has_id(list, b));
    }
}

/// In a sorted list the breakpoints below the lowest free id stand at the
/// places that their ids name.
pub proof fn lemma_ids_below_free(list: Seq<Breakpoint>, id: u32, k: int)
    requires
        sorted_by_id(list),
        is_lowest_free(list, id),
        0 <= k <= id,
    ensures
        k <= list.len(),
        forall|j: int| 0 <= j < k ==> (#[trigger] list[j]).id.0 == j,
    decreases k,
{
    if k > 0 {
        lemma_ids_below_free(list, id, k - 1);
        let wanted = (k - 1) as u32;
        assert(has_id(list, wanted));
        let at = choose|i: int| 0 <= i < list.len() && (#[trigger] list[i]).id.0 == wanted;
        if at < k - 1 {
            assert(list[at].id.0 == at);
        }
        if at > k - 1 {
            assert(list[k - 1].id.0 < list[at].id.0);
            if k - 1 > 0 {
                assert(list[k - 2].id.0 < list[k - 1].id.0);
            }
        }
    }
}

/// A sorted list keeps its order, and its ids stay apart, when a breakpoint
/// under the lowest free id is put in.
proof fn lemma_with_breakpoint_sorted(list: Seq<Breakpoint>, address: u64)
    requires
        sorted_by_id(list),
        exists|id: u32| id < MAX_BREAKPOINTS && is_lowest_free(list, id),
    ensures
        sorted_by_id(with_breakpoint(list, address)),
        lowest_free(list) < MAX_BREAKPOINTS,
        is_lowest_free(list, lowest_free(list)),
{
    let witness = choose|id: u32| id < MAX_BREAKPOINTS && is_lowest_free(list, id);
    let id = lowest_free(list);
    lemma_lowest_free_unique(list, witness, id);
    lemma_ids_below_free(list, id, id as int);
    let fresh = Breakpoint { id: BreakpointId(id), address };
    let after = list.insert(id as int, fresh);
    assert forall|i: int, j: int| 0 <= i < j < after.len() implies (#[trigger] after[i]).id.0 < (
    #[trigger] after[j]).id.0 by {
        if j == id {
            assert(after[i] == list[i]);
        } else if i == id {
            assert(after[j] == list[j - 1]);
            assert(!has_id(list, id));
            if id > 0 {
                assert(list[id as int - 1].id.0 == id - 1);
                if j - 1 > id as int - 1 {
                    assert(list[id as int - 1].id.0 < list[j - 1].id.0);
                }
            }
            assert(list[j - 1].id.0 != id);
            if id > 0 {
                assert(list[j - 1].id.0 > id - 1);
            }
        } else if i < id && j < id {
            assert(after[i] == list[i] && after[j] == list[j]);
        } else if i < id && j > id {
            assert(after[i] == list[i] && after[j] == list[j - 1]);
        } else {
            assert(after[i] == list[i - 1] && after[j] == list[j - 1]);
        }
    }
    assert forall|i: int| 0 <= i < after.len() implies (#[trigger] after[i]).id.0
        < MAX_BREAKPOINTS by {
        if i < id {
            assert(after[i] == list[i]);
        } else if i > id {
            assert(after[i] == list[i - 1]);
        }
    }
}

/// Taking out an id that no breakpoint has changes nothing.
pub proof fn lemma_without_absent_id(list: Seq<Breakpoint>, id: u32)
    requires
        !has_id(list, id),
    ensures
        without_id(list, id) == list,
    decreases list.len(),
{
    reveal(Seq::filter);
    if list.len() > 0 {
        let head = list.drop_last();
        assert(!has_id(head, id)) by {
            if has_id(head, id) {
                let at = choose|i: int| 0 <= i < head.len() && (#[trigger] head[i]).id.0 == id;
                assert(list[at].id.0 == id);
            }
        }
        lemma_without_absent_id(head, id);
        assert(list.last().id.0 != id) by {
            assert(list[list.len() - 1] == list.last());
        }
        assert(head.push(list.last()) =~= list);
    }
}

/// Taking the id of `list[at]` out of a sorted list takes out that one
/// breakpoint.
pub proof fn lemma_without_present_id(list: Seq<Breakpoint>, at: int)
    requires
        sorted_by_id(list),
        0 <= at < list.len(),
    ensures
        without_id(list, list[at].id.0) == list.remove(at),
    decreases list.len(),
{
    reveal(Seq::filter);
    let id = list[at].id.0;
    let head = list.drop_last();
    if at == list.len() - 1 {
        assert(!has_id(head, id)) by {
            if has_id(head, id) {
                let k = choose|i: int| 0 <= i < head.len() && (#[trigger] head[i]).id.0 == id;
                assert(list[k].id.0 < list[at].id.0);
            }
        }
        lemma_without_absent_id(head, id);
        assert(list.remove(at) =~= head);
    } else {
        assert(sorted_by_id(head)) by {
            assert forall|i: int| 0 <= i < head.len() implies (#[trigger] head[i]).id.0
                < MAX_BREAKPOINTS by {
                assert(head[i] == list[i]);
            }
            assert forall|i: int, j: int| 0 <= i < j < head.len() implies (#[trigger] head[i]).id.0
                < (#[trigger] head[j]).id.0 by {
                assert(head[i] == list[i] && head[j] == list[j]);
            }
        }
        assert(head[at] == list[at]);
        lemma_without_present_id(head, at);
        assert(list[at].id.0 < list[list.len() - 1].id.0);
        assert(head.remove(at).push(list.last()) =~= list.remove(at));
    }
}

/// An id that was taken out of a sorted list is free again, and the lowest
/// free id is then that id or the one that was free before, whichever is
/// lower: the next breakpoint takes the lowest freed id.
pub proof fn lemma_freed_id_is_reused(list: Seq<Breakpoint>, at: int, free: u32)
    requires
        sorted_by_id(list),
        0 <= at < list.len(),
        is_lowest_free(list, free),
    ensures
        is_lowest_free(
            without_id(list, list[at].id.0),
            if list[at].id.0 < free {
                list[at].id.0
            } else {
                free
            },
        ),
{
    let id = list[at].id.0;
    lemma_without_present_id(list, at);
    let after = list.remove(at);
    let lowest = if id < free { id } else { free };
    assert(!has_id(after, lowest)) by {
        if has_id(after, lowest) {
            let k = choose|i: int| 0 <= i < after.len() && (#[trigger] after[i]).id.0 == lowest;
            if k < at {
                assert(after[k] == list[k]);
                assert(list[k].id.0 < list[at].id.0);
            } else {
                assert(after[k] == list[k + 1]);
                assert(list[at].id.0 < list[k + 1].id.0);
            }
            assert(has_id(list, lowest));
        }
    }
    assert forall|k: u32| k < lowest implies #[trigger] has_id(after, k) by {
        assert(has_id(list, k));
        let i = choose|i: int| 0 <= i < list.len() && (#[trigger] list[i]).id.0 == k;
        if i < at {
            assert(after[i] == list[i]);
        } else {
            assert(i != at);
            assert(after[i - 1] == list[i]);
        }
    }
}

/// The registered breakpoints, sorted by id.
pub struct BreakpointManager {
    breakpoints: Vec<Breakpoint>,
}

impl View for BreakpointManager {
    type V = Seq<Breakpoint>;

    closed spec fn view(&self) -> Seq<Breakpoint> {
        self.breakpoints@
    }
}

impl BreakpointManager {
    /// The registry's invariant: sorted by id, ids unique and below the ceiling.
    pub open spec fn wf(&self) -> bool {
        sorted_by_id(self@)
    }

    /// A registry without breakpoints.
    pub fn new() -> (manager: BreakpointManager)
        ensures
            manager.wf(),
            manager@ == Seq::<Breakpoint>::empty(),
    {
        BreakpointManager { breakpoints: Vec::new() }
    }

    /// Number of registered breakpoints.
    pub fn len(&self) -> (count: usize)
        ensures
            count == self@.len(),
    {
        self.breakpoints.len()
    }

    /// The breakpoint at place `index` of the list.
    pub fn get(&self, index: usize) -> (breakpoint: Breakpoint)
        requires
            index < self@.len(),
        ensures
            breakpoint == self@[index as int],
    {
        self.breakpoints[index]
    }

    /// Whether every id is taken, so that no breakpoint can be added.
    pub fn is_full(&self) -> (full: bool)
        ensures
            full == (self@.len() >= MAX_BREAKPOINTS),
    {
        self.breakpoints.len() >= 1024
    }

    /// The lowest id that no breakpoint has.
    pub fn get_free_id(&self) -> (id: BreakpointId)
        requires
            self.wf(),
            self@.len() < MAX_BREAKPOINTS,
        ensures
            id.0 < MAX_BREAKPOINTS,
            is_lowest_free(self@, id.0),
            id.0 == lowest_free(self@),
    {
        let mut potential_id: usize = 0;
        while potential_id < self.breakpoints.len() && self.breakpoints[potential_id].id.0 as usize
            == potential_id
            invariant
                self.wf(),
                self@.len() <= MAX_BREAKPOINTS,
                potential_id <= self.breakpoints.len(),
                forall|j: int| 0 <= j < potential_id ==> (#[trigger] self@[j]).id.0 == j,
            decreases self.breakpoints.len() - potential_id,
        {
            potential_id += 1;
        }
        proof {
            lemma_gap_is_lowest_free(self@, potential_id as int);
            lemma_lowest_free_unique(self@, lowest_free(self@), potential_id as u32);
        }
        BreakpointId(potential_id as u32)
    }

    /// Registers a breakpoint at `address` under the lowest free id.
    pub fn add_breakpoint(&mut self, address: u64)
        requires
            old(self).wf(),
            old(self)@.len() < MAX_BREAKPOINTS,
        ensures
            final(self).wf(),
            final(self)@ == with_breakpoint(old(self)@, address),
            is_lowest_free(old(self)@, lowest_free(old(self)@)),
            lowest_free(old(self)@) <= old(self)@.len(),
            final(self)@.len() == old(self)@.len() + 1,
    {
        let id = self.get_free_id();
        proof {
            lemma_with_breakpoint_sorted(self@, address);
            lemma_ids_below_free(self@, id.0, id.0 as int);
        }
        self.breakpoints.insert(id.0 as usize, Breakpoint { id, address });
    }

    /// Takes the breakpoint `id` out; an id that no breakpoint has changes
    /// nothing.
    pub fn remove_breakpoint(&mut self, id: BreakpointId)
        requires
            old(self).wf(),
        ensures
            final(self).wf(),
            final(self)@ == without_id(old(self)@, id.0),
            !has_id(old(self)@, id.0) ==> final(self)@ == old(self)@,
            has_id(old(self)@, id.0) ==> final(self)@.len() == old(self)@.len() - 1,
    {
        let mut i: usize = 0;
        while i < self.breakpoints.len()
            invariant
                i <= self.breakpoints.len(),
                *self == *old(self),
                self.wf(),
                forall|j: int| 0 <= j < i ==> (#[trigger] self@[j]).id.0 != id.0,
            decreases self.breakpoints.len() - i,
        {
            if self.breakpoints[i].id.0 == id.0 {
                proof {
                    lemma_without_present_id(self@, i as int);
                    lemma_remove_sorted(self@, i as int);
                }
                self.breakpoints.remove(i);
                return;
            }
            i += 1;
        }
        proof {
            lemma_without_absent_id(self@, id.0);
        }
    }

    /// One line for each breakpoint, in the order of the list.
    pub fn list_breakpoints(&self, process: &Process) -> (lines: Vec<String>)
        ensures
            lines@.len() == self@.len(),
            forall|i: int|
                0 <= i < lines@.len() ==> (#[trigger] lines@[i])@ == breakpoint_line(
                    self@[i],
                    process.modules(),
                ),
    {
        let mut lines: Vec<String> = Vec::new();
        let mut i: usize = 0;
        while i < self.breakpoints.len()
            invariant
                i <= self.breakpoints.len(),
                lines@.len() == i,
                forall|k: int|
                    0 <= k < i ==> (#[trigger] lines@[k])@ == breakpoint_line(
                        self@[k],
                        process.modules(),
                    ),
            decreases self.breakpoints.len() - i,
        {
            let breakpoint = self.breakpoints[i];
            let mut line = String::new();
            push_number(&mut line, breakpoint.id.0 as u64, 10, false, 3, ' ');
            line.push(' ');
            line.push('0');
            line.push('x');
            push_number(&mut line, breakpoint.address, 16, false, 16, '0');
            let ghost shown = line@;
            assert(shown =~= padded(digits(breakpoint.id.0 as nat, 10, false), 3, ' ') + seq![
                ' ',
                '0',
                'x',
            ] + padded(digits(breakpoint.address as nat, 16, false), 16, '0'));
            if let Some(symbol) = resolve_address_to_name(breakpoint.address, process) {
                line.push(' ');
                line.push('(');
                line.append(symbol.as_str());
                line.push(')');
                assert(line@ =~= shown + seq![' ', '('] + symbol@ + seq![')']);
            }
            lines.push(line);
            i += 1;
        }
        lines
    }
}

/// A place up to which every breakpoint of a sorted list has its place as
/// its id, and which the breakpoint at it, if any, has not, is the lowest free
/// id.
proof fn lemma_gap_is_lowest_free(list: Seq<Breakpoint>, gap: int)
    requires
        sorted_by_id(list),
        0 <= gap <= list.len(),
        forall|j: int| 0 <= j < gap ==> (#[trigger] list[j]).id.0 == j,
        gap < list.len() ==> list[gap].id.0 != gap,
    ensures
        gap <= MAX_BREAKPOINTS,
        is_lowest_free(list, gap as u32),
{
    assert(gap <= MAX_BREAKPOINTS) by {
        if gap > 0 {
            assert(list[gap - 1].id.0 == gap - 1);
        }
    }
    assert(!has_id(list, gap as u32)) by {
        if has_id(list, gap as u32) {
            let k = choose|i: int| 0 <= i < list.len() && (#[trigger] list[i]).id.0 == gap as u32;
            if k < gap {
                assert(list[k].id.0 == k);
            } else if k > gap {
                assert(list[gap].id.0 < list[k].id.0);
                if gap > 0 {
                    assert(list[gap - 1].id.0 < list[gap].id.0);
                }
            }
        }
    }
    assert forall|k: u32| k < gap implies #[trigger] has_id(list, k) by {
        assert(list[k as int].id.0 == k);
    }
}

/// In a sorted list no two breakpoints have the same id.
pub proof fn lemma_sorted_ids_distinct(list: Seq<Breakpoint>, i: int, j: int)
    requires
        sorted_by_id(list),
        0 <= i < list.len(),
        0 <= j < list.len(),
        i != j,
    ensures
        list[i].id != list[j].id,
{
    if i < j {
        assert(list[i].id.0 < list[j].id.0);
    } else {
        assert(list[j].id.0 < list[i].id.0);
    }
}

/// A sorted list stays sorted when a breakpoint is taken out.
proof fn lemma_remove_sorted(list: Seq<Breakpoint>, at: int)
    requires
        sorted_by_id(list),
        0 <= at < list.len(),
    ensures
        sorted_by_id(list.remove(at)),
{
    let after = list.remove(at);
    assert forall|i: int| 0 <= i < after.len() implies (#[trigger] after[i]).id.0
        < MAX_BREAKPOINTS by {
        if i < at {
            assert(after[i] == list[i]);
        } else {
            assert(after[i] == list[i + 1]);
        }
    }
    assert forall|i: int, j: int| 0 <= i < j < after.len() implies (#[trigger] after[i]).id.0 < (
    #[trigger] after[j]).id.0 by {
        let a = if i < at { i } else { i + 1 };
        let b = if j < at { j } else { j + 1 };
        assert(after[i] == list[a] && after[j] == list[b]);
    }
}

} // verus!
