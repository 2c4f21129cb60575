//! The debug session: what each debug event of the target and each command
//! of the operator does to the session's state, and what has to happen next.
//!
//! The session does not wait for events, read commands or print. Whoever
//! drives it hands it each event and each command and carries out what it
//! answers: `Session::handle_event`, then `Session::load_module_at_address`
//! where the answer asks for it, then `Session::execute_command` until one
//! resumes the target or quits.

use std::collections::HashMap;
use vstd::prelude::*;
use vstd::string::*;

use crate::breakpoint::{
    breakpoint_line, with_breakpoint, without_id, Breakpoint, BreakpointId, BreakpointManager,
    MAX_BREAKPOINTS,
};
use crate::command::grammar::{Action, CommandExpr};
use crate::eval::{evaluate_expression, value_of, EvalContext};
use crate::events::{
    DebugContinueStatus, DebugEvent, DebugEventContext, ThreadId, EXCEPTION_CODE_SINGLE_STEP,
    TRAP_FLAG,
};
use crate::loading::{module_read, text_view};
use crate::memory::MemorySource;
use crate::module::{Module, SymbolStore};
use crate::name_resolution::{address_name, resolve_address_to_name};
use crate::process::Process;

verus! {

broadcast use vstd::std_specs::hash::group_hash_axioms;

/// What the session remembers of a thread of the target.
#[derive(Copy, Clone, Debug, PartialEq, Eq, Structural)]
pub struct ThreadState {
    /// Whether the next single-step exception of the thread comes from a
    /// step that the debugger asked for.
    pub expect_step_exception: bool,
}

impl ThreadState {
    /// The state of a thread that was not stepped.
    pub fn new() -> (state: Self)
        ensures
            state == (ThreadState { expect_step_exception: false }),
    {
        ThreadState { expect_step_exception: false }
    }
}

/// The key under which a thread's state is kept: the process id in the high
/// half, the thread id in the low half.
pub open spec fn thread_key(context: DebugEventContext) -> u64 {
    (context.process.0 * 0x1_0000_0000 + context.thread.0) as u64
}

fn key_of(context: DebugEventContext) -> (key: u64)
    ensures
        key == thread_key(context),
{
    context.process.0 as u64 * 0x1_0000_0000 + context.thread.0 as u64
}

/// Two threads have the same key only where they are the same thread.
pub proof fn lemma_thread_key_injective(a: DebugEventContext, b: DebugEventContext)
    requires
        thread_key(a) == thread_key(b),
    ensures
        a == b,
{
}

/// The states of the threads that the session knows, by process and thread.
pub struct ThreadTable {
    states: HashMap<u64, ThreadState>,
}

impl View for ThreadTable {
    type V = Map<DebugEventContext, ThreadState>;

    closed spec fn view(&self) -> Map<DebugEventContext, ThreadState> {
        Map::new(
            |context: DebugEventContext| self.states@.contains_key(thread_key(context)),
            |context: DebugEventContext| self.states@[thread_key(context)],
        )
    }
}

impl ThreadTable {
    /// A table without threads.
    pub fn new() -> (table: ThreadTable)
        ensures
            table@ == Map::<DebugEventContext, ThreadState>::empty(),
    {
        let table = ThreadTable { states: HashMap::new() };
        assert(table@ =~= Map::<DebugEventContext, ThreadState>::empty());
        table
    }

    /// The state of the thread, where the table knows it.
    pub fn get(&self, context: DebugEventContext) -> (state: Option<ThreadState>)
        ensures
            state == if self@.contains_key(context) {
                Some(self@[context])
            } else {
                None
            },
    {
        let key = key_of(context);
        match self.states.get(&key) {
            Some(state) => Some(*state),
            None => None,
        }
    }

    /// Sets the state of the thread, known or not.
    pub fn set(&mut self, context: DebugEventContext, state: ThreadState)
        ensures
            final(self)@ == old(self)@.insert(context, state),
    {
        let key = key_of(context);
        self.states.insert(key, state);
        assert(self@ =~= old(self)@.insert(context, state)) by {
            assert forall|other: DebugEventContext|
                thread_key(other) == thread_key(context) implies other == context by {
                lemma_thread_key_injective(other, context);
            }
        }
    }

    /// Takes the thread out of the table.
    pub fn remove(&mut self, context: DebugEventContext)
        ensures
            final(self)@ == old(self)@.remove(context),
    {
        let key = key_of(context);
        self.states.remove(&key);
        assert(self@ =~= old(self)@.remove(context)) by {
            assert forall|other: DebugEventContext|
                thread_key(other) == thread_key(context) implies other == context by {
                lemma_thread_key_injective(other, context);
            }
        }
    }
}

/// Why a session cannot go on: its picture of the target no longer matches
/// what the operating system reports, or a module cannot be read.
pub enum SessionError {
    /// An event came from a thread that the session does not know.
    UnknownThread(DebugEventContext),
    /// A thread was reported as created that the session knows already.
    DuplicateThread(DebugEventContext),
    /// A module could not be read from the target's memory.
    ModuleLoad(String),
}

/// A module to read from the target's memory.
pub struct ModuleLoad {
    pub base_addr: u64,
    pub name: Option<String>,
}

/// What has to happen after a debug event.
pub struct EventDecision {
    /// How the target goes on once the operator resumes it.
    pub continue_status: DebugContinueStatus,
    /// Whether the event is an exception that the operator is told of.
    pub report_exception: bool,
    /// The module to load before the operator is prompted.
    pub load_module: Option<ModuleLoad>,
    /// Whether the session ends once the event has been continued, without
    /// a prompt.
    pub terminate: bool,
}

/// Whether the event is the single-step exception that ends a step which
/// the debugger asked of this thread.
pub open spec fn consumes_step(
    threads: Map<DebugEventContext, ThreadState>,
    context: DebugEventContext,
    event: DebugEvent,
) -> bool {
    &&& event matches DebugEvent::Exception { code, .. }
    &&& code == EXCEPTION_CODE_SINGLE_STEP
    &&& threads.contains_key(context)
    &&& threads[context].expect_step_exception
}

/// The violation that the event shows, if any: an exception or an exit of a
/// thread that is not known, or the creation of one that is.
pub open spec fn event_error(
    threads: Map<DebugEventContext, ThreadState>,
    context: DebugEventContext,
    event: DebugEvent,
) -> Option<SessionError> {
    match event {
        DebugEvent::Exception { .. } | DebugEvent::ExitThread { .. } | DebugEvent::ExitProcess {
            ..
        } => if threads.contains_key(context) {
            None
        } else {
            Some(SessionError::UnknownThread(context))
        },
        DebugEvent::CreateThread | DebugEvent::CreateProcess { .. } => if threads.contains_key(
            context,
        ) {
            Some(SessionError::DuplicateThread(context))
        } else {
            None
        },
        _ => None,
    }
}

/// The thread states after an event that shows no violation.
pub open spec fn threads_after_event(
    threads: Map<DebugEventContext, ThreadState>,
    context: DebugEventContext,
    event: DebugEvent,
) -> Map<DebugEventContext, ThreadState> {
    match event {
        DebugEvent::Exception { .. } => if consumes_step(threads, context, event) {
            threads.insert(context, ThreadState { expect_step_exception: false })
        } else {
            threads
        },
        DebugEvent::CreateThread | DebugEvent::CreateProcess { .. } => threads.insert(
            context,
            ThreadState { expect_step_exception: false },
        ),
        DebugEvent::ExitThread { .. } | DebugEvent::ExitProcess { .. } => threads.remove(context),
        _ => threads,
    }
}

/// Whether the event is an exception that the operator is told of: any but
/// the one that ends a step.
pub open spec fn reports_exception(
    threads: Map<DebugEventContext, ThreadState>,
    context: DebugEventContext,
    event: DebugEvent,
) -> bool {
    event is Exception && !consumes_step(threads, context, event)
}

/// How the target goes on after the event: an exception that is reported is
/// passed on to the target as not handled.
pub open spec fn status_after_event(
    threads: Map<DebugEventContext, ThreadState>,
    context: DebugEventContext,
    event: DebugEvent,
) -> DebugContinueStatus {
    if reports_exception(threads, context, event) {
        DebugContinueStatus::ExceptionNotHandled
    } else {
        DebugContinueStatus::Continue
    }
}

/// The live threads of the process after the event.
pub open spec fn live_threads_after_event(
    live: Seq<ThreadId>,
    context: DebugEventContext,
    event: DebugEvent,
) -> Seq<ThreadId> {
    match event {
        DebugEvent::CreateThread | DebugEvent::CreateProcess { .. } => live.push(context.thread),
        DebugEvent::ExitThread { .. } => live.filter(|t: ThreadId| t != context.thread),
        _ => live,
    }
}

/// The module that the event asks to load.
pub open spec fn load_of_event(event: DebugEvent) -> Option<ModuleLoad> {
    match event {
        DebugEvent::CreateProcess { name, base_addr } => Some(ModuleLoad { base_addr, name }),
        DebugEvent::LoadDll { name, base_addr } => Some(ModuleLoad { base_addr, name }),
        _ => None,
    }
}

/// The thread states after a step command for the thread `context`.
pub open spec fn threads_after_step(
    threads: Map<DebugEventContext, ThreadState>,
    context: DebugEventContext,
) -> Map<DebugEventContext, ThreadState> {
    threads.insert(context, ThreadState { expect_step_exception: true })
}

/// A step arms the flag of one thread and of no other. The single-step
/// exception that this thread reports next clears the flag and is not
/// reported. An exception of another thread whose flag is not armed is
/// reported and passed on as not handled, and so is any other exception of
/// the stepped thread; both leave the flag of the stepped thread armed.
pub proof fn lemma_step_is_consumed_once(
    threads: Map<DebugEventContext, ThreadState>,
    stepped: DebugEventContext,
    other: DebugEventContext,
    first_chance: bool,
    code: i32,
)
    requires
        threads.contains_key(stepped),
        threads.contains_key(other),
        other != stepped,
        !threads[other].expect_step_exception,
    ensures
        ({
            let armed = threads_after_step(threads, stepped);
            let step_done = DebugEvent::Exception { first_chance, code: EXCEPTION_CODE_SINGLE_STEP };
            let unrelated = DebugEvent::Exception { first_chance, code };
            let done = threads_after_event(armed, stepped, step_done);
            &&& armed[stepped].expect_step_exception
            &&& forall|c: DebugEventContext|
                c != stepped ==> (armed.contains_key(c) <==> threads.contains_key(c)) && (
                threads.contains_key(c) ==> armed[c] == threads[c])
            &&& event_error(armed, stepped, step_done) is None
            &&& !reports_exception(armed, stepped, step_done)
            &&& status_after_event(armed, stepped, step_done) == DebugContinueStatus::Continue
            &&& !done[stepped].expect_step_exception
            &&& !consumes_step(done, stepped, step_done)
            &&& event_error(armed, other, unrelated) is None
            &&& reports_exception(armed, other, unrelated)
            &&& status_after_event(armed, other, unrelated)
                == DebugContinueStatus::ExceptionNotHandled
            &&& threads_after_event(armed, other, unrelated) == armed
            &&& code != EXCEPTION_CODE_SINGLE_STEP ==> reports_exception(armed, stepped, unrelated)
                && threads_after_event(armed, stepped, unrelated) == armed
        }),
{
}

/// What the operator sees of a command.
pub enum CommandOutput {
    /// Nothing.
    Nothing,
    /// The help text.
    Help,
    /// The registers of the current thread.
    Registers,
    /// The bytes that could be read at the address.
    Bytes(Vec<u8>),
    /// The value of the expression.
    Value(u64),
    /// The symbol nearest to the address, where there is one.
    Nearest(Option<String>),
    /// One line for each breakpoint.
    Breakpoints(Vec<String>),
    /// Why the expression of the command could not be evaluated.
    Failed(String),
    /// Why the command was not carried out though its expression has a
    /// value.
    Refused(String),
}

/// What follows a command.
#[derive(Copy, Clone, Debug, PartialEq, Eq, Structural)]
pub enum Flow {
    /// The operator is prompted again.
    Prompt,
    /// The target is resumed.
    Resume,
    /// The session ends.
    Quit,
}

/// What a command did.
pub struct CommandOutcome {
    pub flow: Flow,
    pub output: CommandOutput,
    /// The flags register of the current thread as it is to be from now on.
    pub flags: u32,
}

/// What follows a command that was carried out.
pub open spec fn flow_of(action: Action) -> Flow {
    match action {
        Action::Step | Action::Continue => Flow::Resume,
        Action::Quit => Flow::Quit,
        _ => Flow::Prompt,
    }
}

/// The text `Too many breakpoints!`.
pub open spec fn too_many_breakpoints() -> Seq<char> {
    "Too many breakpoints!"@
}

/// The breakpoints after a command whose expression has the value `value`.
pub open spec fn breakpoints_after(
    list: Seq<Breakpoint>,
    action: Action,
    value: Result<u64, Seq<char>>,
) -> Seq<Breakpoint> {
    match (action, value) {
        (Action::AddBreakpoint, Ok(address)) => if list.len() < MAX_BREAKPOINTS {
            with_breakpoint(list, address)
        } else {
            list
        },
        (Action::RemoveBreakpoint, Ok(id)) => if id <= u32::MAX {
            without_id(list, id as u32)
        } else {
            list
        },
        _ => list,
    }
}

/// The state of a debug session.
pub struct Session {
    thread_states: ThreadTable,
    process: Process,
    breakpoints: BreakpointManager,
}

impl Session {
    /// The states of the threads that the session knows.
    pub closed spec fn threads(&self) -> Map<DebugEventContext, ThreadState> {
        self.thread_states@
    }

    /// The modules of the target, in load order.
    pub closed spec fn modules(&self) -> Seq<Module> {
        self.process.modules()
    }

    /// The live threads of the target.
    pub closed spec fn live_threads(&self) -> Seq<ThreadId> {
        self.process.threads()
    }

    /// The registered breakpoints, sorted by id.
    pub closed spec fn breakpoints(&self) -> Seq<Breakpoint> {
        self.breakpoints@
    }

    /// The session's invariant: that of its breakpoint registry.
    pub closed spec fn wf(&self) -> bool {
        self.breakpoints.wf()
    }

    /// A session that knows no thread, module or breakpoint.
    pub fn new() -> (session: Session)
        ensures
            session.wf(),
            session.threads() == Map::<DebugEventContext, ThreadState>::empty(),
            session.modules().len() == 0,
            session.live_threads().len() == 0,
            session.breakpoints().len() == 0,
    {
        Session {
            thread_states: ThreadTable::new(),
            process: Process::new(),
            breakpoints: BreakpointManager::new(),
        }
    }

    /// The target process.
    pub fn process(&self) -> (process: &Process)
        ensures
            process.modules() == self.modules(),
            process.threads() == self.live_threads(),
    {
        &self.process
    }

    /// The breakpoint registry.
    pub fn breakpoint_manager(&self) -> (manager: &BreakpointManager)
        ensures
            manager@ == self.breakpoints(),
            self.wf() ==> manager.wf(),
    {
        &self.breakpoints
    }

    /// The state of a thread, where the session knows it.
    pub fn thread_state(&self, context: DebugEventContext) -> (state: Option<ThreadState>)
        ensures
            state == if self.threads().contains_key(context) {
                Some(self.threads()[context])
            } else {
                None
            },
    {
        self.thread_states.get(context)
    }

    /// Takes a debug event of the target in and says what has to happen
    /// next. An event that does not fit what the session knows of the
    /// target's threads is an error, and the session stays as it is.
    pub fn handle_event(&mut self, context: DebugEventContext, event: DebugEvent) -> (result:
        Result<EventDecision, SessionError>)
        requires
            old(self).wf(),
        ensures
            final(self).wf(),
            final(self).modules() == old(self).modules(),
            final(self).breakpoints() == old(self).breakpoints(),
            match result {
                Ok(decision) => {
                    &&& event_error(old(self).threads(), context, event) is None
                    &&& final(self).threads() == threads_after_event(
                        old(self).threads(),
                        context,
                        event,
                    )
                    &&& final(self).live_threads() == live_threads_after_event(
                        old(self).live_threads(),
                        context,
                        event,
                    )
                    &&& decision.continue_status == status_after_event(
                        old(self).threads(),
                        context,
                        event,
                    )
                    &&& decision.report_exception == reports_exception(
                        old(self).threads(),
                        context,
                        event,
                    )
                    &&& decision.load_module == load_of_event(event)
                    &&& decision.terminate == (event is ExitProcess)
                },
                Err(error) => {
                    &&& event_error(old(self).threads(), context, event) == Some(error)
                    &&& final(self).threads() == old(self).threads()
                    &&& final(self).live_threads() == old(self).live_threads()
                },
            },
    {
        let known = self.thread_states.get(context);
        let mut decision = EventDecision {
            continue_status: DebugContinueStatus::Continue,
            report_exception: false,
            load_module: None,
            terminate: false,
        };
        match event {
            DebugEvent::Exception { first_chance, code } => {
                // The first single-step exception of a thread after a step is taken to
                // come from that step.
                let thread_state = match known {
                    Some(state) => state,
                    None => { return Err(SessionError::UnknownThread(context)); },
                };
                if thread_state.expect_step_exception && code == EXCEPTION_CODE_SINGLE_STEP {
                    self.thread_states.set(context, ThreadState { expect_step_exception: false });
                } else {
                    decision.report_exception = true;
                    decision.continue_status = DebugContinueStatus::ExceptionNotHandled;
                }
            },
            DebugEvent::CreateThread => {
                if known.is_some() {
                    return Err(SessionError::DuplicateThread(context));
                }
                self.process.add_thread(context.thread);
                // Register the thread.
                self.thread_states.set(context, ThreadState::new());
            },
            DebugEvent::ExitThread { exit_code } => {
                if known.is_none() {
                    return Err(SessionError::UnknownThread(context));
                }
                self.process.remove_thread(context.thread);
                // Unregister the thread.
                self.thread_states.remove(context);
            },
            DebugEvent::CreateProcess { name, base_addr } => {
                if known.is_some() {
                    return Err(SessionError::DuplicateThread(context));
                }
                // Register the thread.
                self.thread_states.set(context, ThreadState::new());
                decision.load_module = Some(ModuleLoad { base_addr, name });
                self.process.add_thread(context.thread);
            },
            DebugEvent::ExitProcess { exit_code } => {
                if known.is_none() {
                    return Err(SessionError::UnknownThread(context));
                }
                // Unregister the thread.
                self.thread_states.remove(context);
                // The session ends.
                decision.terminate = true;
            },
            DebugEvent::LoadDll { name, base_addr } => {
                decision.load_module = Some(ModuleLoad { base_addr, name });
            },
            DebugEvent::UnloadDll => {},
            DebugEvent::OutputDebugString(debug_string) => {},
            DebugEvent::Rip { error, info_type } => {},
        }
        Ok(decision)
    }

    /// Reads the module at `base_address` from the target's memory, adds it
    /// to the process and gives its name. A module that cannot be read ends
    /// the session; the process stays as it is. The module, or the failure,
    /// is what the reads led to, as `module_read` says it read by read.
    pub fn load_module_at_address(
        &mut self,
        memory_source: &dyn MemorySource,
        base_address: u64,
        module_name: Option<String>,
    ) -> (result: Result<String, SessionError>)
        requires
            old(self).wf(),
        ensures
            final(self).wf(),
            final(self).threads() == old(self).threads(),
            final(self).live_threads() == old(self).live_threads(),
            final(self).breakpoints() == old(self).breakpoints(),
            match result {
                Ok(name) => {
                    &&& final(self).modules().len() == old(self).modules().len() + 1
                    &&& final(self).modules().drop_last() == old(self).modules()
                    &&& module_read(
                        memory_source,
                        base_address,
                        text_view(module_name),
                        Ok(final(self).modules().last()),
                    )
                    &&& final(self).modules().last().address == base_address
                    &&& final(self).modules().last().name@ == name@
                    &&& (module_name matches Some(given) ==> name@ == given@)
                },
                Err(error) => {
                    &&& error matches SessionError::ModuleLoad(message) && module_read(
                        memory_source,
                        base_address,
                        text_view(module_name),
                        Err(message@),
                    )
                    &&& final(self).modules() == old(self).modules()
                },
            },
    {
        match self.process.add_module_from(base_address, module_name, memory_source) {
            Ok(module) => {
                let name = module.name.clone();
                assert(self.process.modules().drop_last() =~= old(self).process.modules());
                Ok(name)
            },
            Err(message) => Err(SessionError::ModuleLoad(message)),
        }
    }

    /// Gives the first module that holds `address` its symbol store, or the
    /// reason why it has none. Without such a module nothing changes.
    pub fn attach_symbol_store(&mut self, address: u64, store: Result<SymbolStore, String>) -> (
        attached: bool)
        requires
            old(self).wf(),
        ensures
            final(self).wf(),
            final(self).threads() == old(self).threads(),
            final(self).live_threads() == old(self).live_threads(),
            final(self).breakpoints() == old(self).breakpoints(),
            final(self).modules().len() == old(self).modules().len(),
            match crate::process::containing_module(old(self).modules(), address) {
                Some(at) => {
                    &&& attached
                    &&& final(self).modules()[at].pdb == store
                    &&& final(self).modules()[at].name == old(self).modules()[at].name
                    &&& final(self).modules()[at].address == old(self).modules()[at].address
                    &&& final(self).modules()[at].size == old(self).modules()[at].size
                    &&& final(self).modules()[at].exports == old(self).modules()[at].exports
                    &&& forall|i: int|
                        0 <= i < old(self).modules().len() && i != at ==> final(self).modules()[i]
                            == old(self).modules()[i]
                },
                None => !attached && final(self).modules() == old(self).modules(),
            },
    {
        match self.process.get_containing_module_mut(address) {
            Some(module) => {
                module.set_symbol_store(store);
                true
            },
            None => false,
        }
    }

    /// The name that stands for `address`, for the prompt.
    pub fn location(&self, address: u64) -> (name: Option<String>)
        ensures
            match name {
                Some(text) => address_name(self.modules(), address) == Some(text@),
                None => address_name(self.modules(), address) is None,
            },
    {
        resolve_address_to_name(address, &self.process)
    }

    /// Carries out a command of the operator for the thread `context`, whose
    /// flags register holds `flags`.
    ///
    /// A step sets the trap flag in the flags and arms the step expectation
    /// of the thread; it and a continue resume the target. A command whose
    /// expression does not evaluate fails with the evaluator's message, and
    /// a breakpoint for which no id is left is refused; the operator is then
    /// prompted again. Display-bytes shows what one read of 16 bytes at the
    /// address gave. A step for a thread that the session does not know is
    /// an error, and the session stays as it is.
    pub fn execute_command(
        &mut self,
        context: DebugEventContext,
        command: CommandExpr,
        flags: u32,
        memory_source: &dyn MemorySource,
    ) -> (result: Result<CommandOutcome, SessionError>)
        requires
            old(self).wf(),
        ensures
            final(self).wf(),
            final(self).modules() == old(self).modules(),
            final(self).live_threads() == old(self).live_threads(),
            ({
                let action = command@.keyword.action();
                let value = match command@.argument {
                    Some(expr) => value_of(expr, old(self).modules()),
                    None => Ok(0u64),
                };
                match result {
                    Err(error) => {
                        &&& action == Action::Step
                        &&& !old(self).threads().contains_key(context)
                        &&& error == SessionError::UnknownThread(context)
                        &&& final(self).threads() == old(self).threads()
                        &&& final(self).breakpoints() == old(self).breakpoints()
                    },
                    Ok(outcome) => {
                        &&& action == Action::Step ==> old(self).threads().contains_key(context)
                        &&& outcome.flow == flow_of(action)
                        &&& outcome.flags == if action == Action::Step {
                            flags | TRAP_FLAG
                        } else {
                            flags
                        }
                        &&& final(self).threads() == if action == Action::Step {
                            threads_after_step(old(self).threads(), context)
                        } else {
                            old(self).threads()
                        }
                        &&& final(self).breakpoints() == breakpoints_after(
                            old(self).breakpoints(),
                            action,
                            value,
                        )
                        &&& match (value, outcome.output) {
                            (Err(message), CommandOutput::Failed(text)) => text@ == message,
                            (Err(_), _) => false,
                            (Ok(number), output) => match action {
                                Action::Help => output is Help,
                                Action::DisplayRegisters => output is Registers,
                                Action::DisplayBytes => output matches CommandOutput::Bytes(bytes)
                                    && bytes@.len() <= 16 && memory_source.gives(
                                    number,
                                    16,
                                    bytes@,
                                ),
                                Action::Evaluate => output == CommandOutput::Value(number),
                                Action::ListNearest => match output {
                                    CommandOutput::Nearest(Some(text)) => address_name(
                                        old(self).modules(),
                                        number,
                                    ) == Some(text@),
                                    CommandOutput::Nearest(None) => address_name(
                                        old(self).modules(),
                                        number,
                                    ) is None,
                                    _ => false,
                                },
                                Action::AddBreakpoint => if old(self).breakpoints().len()
                                    < MAX_BREAKPOINTS {
                                    output is Nothing
                                } else {
                                    output matches CommandOutput::Refused(text) && text@
                                        == too_many_breakpoints()
                                },
                                Action::ListBreakpoint => output matches CommandOutput::Breakpoints(
                                    lines,
                                ) && lines@.len() == old(self).breakpoints().len() && forall|
                                    i: int,
                                |
                                    0 <= i < lines@.len() ==> (#[trigger] lines@[i])@
                                        == breakpoint_line(
                                        old(self).breakpoints()[i],
                                        old(self).modules(),
                                    ),
                                _ => output is Nothing,
                            },
                        }
                    },
                }
            }),
    {
        let (keyword, argument) = command.into_parts();
        let action = keyword.get_action();
        let value: u64 = match argument {
            Some(expr) => {
                let eval_context = EvalContext { process: &self.process };
                match evaluate_expression(expr, &eval_context) {
                    Ok(value) => value,
                    Err(message) => {
                        return Ok(
                            CommandOutcome {
                                flow: Flow::Prompt,
                                output: CommandOutput::Failed(message),
                                flags,
                            },
                        );
                    },
                }
            },
            None => 0,
        };
        let mut outcome = CommandOutcome { flow: Flow::Prompt, output: CommandOutput::Nothing, flags };
        match action {
            Action::Help => {
                outcome.output = CommandOutput::Help;
            },
            Action::Step => {
                if self.thread_states.get(context).is_none() {
                    return Err(SessionError::UnknownThread(context));
                }
                // The trap flag raises a single-step exception after the next instruction.
                outcome.flags = flags | TRAP_FLAG;
                self.thread_states.set(context, ThreadState { expect_step_exception: true });
                outcome.flow = Flow::Resume;
            },
            Action::Continue => {
                outcome.flow = Flow::Resume;
            },
            Action::DisplayRegisters => {
                outcome.output = CommandOutput::Registers;
            },
            Action::DisplayBytes => {
                let bytes = memory_source.read_raw_memory(value, 16);
                outcome.output = CommandOutput::Bytes(bytes);
            },
            Action::Evaluate => {
                outcome.output = CommandOutput::Value(value);
            },
            Action::ListNearest => {
                outcome.output = CommandOutput::Nearest(
                    resolve_address_to_name(value, &self.process),
                );
            },
            Action::AddBreakpoint => {
                if self.breakpoints.is_full() {
                    outcome.output = CommandOutput::Refused(String::from_str("Too many breakpoints!"));
                } else {
                    self.breakpoints.add_breakpoint(value);
                }
            },
            Action::RemoveBreakpoint => {
                if value <= u32::MAX as u64 {
                    self.breakpoints.remove_breakpoint(BreakpointId(value as u32));
                }
            },
            Action::ListBreakpoint => {
                outcome.output = CommandOutput::Breakpoints(
                    self.breakpoints.list_breakpoints(&self.process),
                );
            },
            Action::Quit => {
                // The target ends with the session, which does not detach from it.
                outcome.flow = Flow::Quit;
            },
        }
        Ok(outcome)
    }
}

} // verus!
