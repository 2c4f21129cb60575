//! What the operating system reports about the target, as plain values.

use vstd::prelude::*;
use vstd::string::*;

use crate::loading::text_view;
use crate::memory::{
    indirect_string_read, string_from, string_indirect_from, string_read, MemorySource,
};
use crate::text::{last_component, last_path_component};

verus! {

/// The processor flag that makes the next instruction raise a single-step
/// exception.
pub const TRAP_FLAG: u32 = 0x100;

/// Code of the exception that a single step raises.
pub const EXCEPTION_CODE_SINGLE_STEP: i32 = -0x7FFF_FFFC;

/// Status value that resumes the target with the event handled.
pub const DBG_CONTINUE: i32 = 0x0001_0002;

/// Status value that resumes the target and passes the exception on to it.
pub const DBG_EXCEPTION_NOT_HANDLED: i32 = -0x7FFE_FFFF;

#[derive(Copy, Clone, Debug, PartialEq, Eq, Hash, Structural)]
pub struct ThreadId(pub u32);

#[derive(Copy, Clone, Debug, PartialEq, Eq, Hash, Structural)]
pub struct ProcessId(pub u32);

/// A debug event of the target.
pub enum DebugEvent {
    Exception { first_chance: bool, code: i32 },
    CreateProcess { name: Option<String>, base_addr: u64 },
    ExitProcess { exit_code: u32 },
    CreateThread,
    ExitThread { exit_code: u32 },
    LoadDll { name: Option<String>, base_addr: u64 },
    UnloadDll,
    OutputDebugString(String),
    /// System debugging error
    Rip { error: u32, info_type: u32 },
}

/// The process and thread that a debug event came from.
#[derive(Copy, Clone, Debug, PartialEq, Eq, Structural)]
pub struct DebugEventContext {
    pub process: ProcessId,
    pub thread: ThreadId,
}

/// How the target goes on after a debug event.
#[derive(Copy, Clone, Debug, PartialEq, Eq, Structural)]
pub enum DebugContinueStatus {
    Continue,
    ExceptionNotHandled,
}

impl DebugContinueStatus {
    /// The status value that the operating system takes for this choice.
    pub fn get_win32_value(&self) -> (value: i32)
        ensures
            value == match *self {
                DebugContinueStatus::Continue => DBG_CONTINUE,
                DebugContinueStatus::ExceptionNotHandled => DBG_EXCEPTION_NOT_HANDLED,
            },
    {
        match *self {
            DebugContinueStatus::Continue => DBG_CONTINUE,
            DebugContinueStatus::ExceptionNotHandled => DBG_EXCEPTION_NOT_HANDLED,
        }
    }
}

/// The most characters that are read of the name of a loaded library.
pub const MAX_IMAGE_NAME: usize = 260;

/// A debug event as the operating system hands it over, before anything is
/// read from the target: flags are still numbers, texts still addresses.
pub enum RawDebugEvent {
    Exception { first_chance: u32, code: i32 },
    /// A new thread; `thread_id` is the id behind the handle of the thread.
    CreateThread { thread_id: u32 },
    ExitThread { exit_code: u32 },
    /// A new process; `image_path` is the full path of its image.
    CreateProcess { image_path: String, base_addr: u64 },
    ExitProcess { exit_code: u32 },
    /// A loaded library; `image_name` is the address at which the address of
    /// its name stands, or 0.
    LoadDll { base_addr: u64, image_name: u64, unicode: u16 },
    UnloadDll,
    /// A text of the target for the debugger, `length` units long.
    OutputDebugString { address: u64, length: u16, unicode: u16 },
    Rip { error: u32, info_type: u32 },
}

/// An event that does not fit the thread that it is reported for.
#[derive(Copy, Clone, Debug, PartialEq, Eq, Structural)]
pub struct ThreadMismatch {
    /// The thread that the event is reported for.
    pub reported: ThreadId,
    /// The thread that was created.
    pub created: ThreadId,
}

/// The file name of an image: the last component of its path, `None` where
/// that is empty.
pub open spec fn image_name_of(path: Seq<char>) -> Option<Seq<char>> {
    if last_component(path).len() == 0 {
        None
    } else {
        Some(last_component(path))
    }
}

/// Makes a debug event of what the operating system handed over: flags
/// become truth values, the path of a new process its file name, and the
/// texts that stand in the target's memory are read: the name of a library
/// through the address that the event gives, the text of the target at its
/// address and in its length. A library whose name cannot be read has none. The creation of a thread other than the one that
/// the event is reported for is an error.
pub fn interpret_event(
    context: DebugEventContext,
    raw: RawDebugEvent,
    mem_source: &dyn MemorySource,
) -> (event: Result<DebugEvent, ThreadMismatch>)
    ensures
        match raw {
            RawDebugEvent::Exception { first_chance, code } => event matches Ok(
                DebugEvent::Exception { first_chance: chance, code: same },
            ) && chance == (first_chance != 0) && same == code,
            RawDebugEvent::CreateThread { thread_id } => if thread_id == context.thread.0 {
                event matches Ok(DebugEvent::CreateThread)
            } else {
                event == Err::<DebugEvent, ThreadMismatch>(
                    ThreadMismatch { reported: context.thread, created: ThreadId(thread_id) },
                )
            },
            RawDebugEvent::ExitThread { exit_code } => event matches Ok(
                DebugEvent::ExitThread { exit_code: same },
            ) && same == exit_code,
            RawDebugEvent::CreateProcess { image_path, base_addr } => event matches Ok(
                DebugEvent::CreateProcess { name, base_addr: same },
            ) && same == base_addr && match name {
                Some(text) => image_name_of(image_path@) == Some(text@),
                None => image_name_of(image_path@) is None,
            },
            RawDebugEvent::ExitProcess { exit_code } => event matches Ok(
                DebugEvent::ExitProcess { exit_code: same },
            ) && same == exit_code,
            RawDebugEvent::LoadDll { base_addr, image_name, unicode } => event matches Ok(
                DebugEvent::LoadDll { name, base_addr: same },
            ) && same == base_addr && if image_name == 0 {
                name is None
            } else {
                indirect_string_read(
                    mem_source,
                    image_name,
                    MAX_IMAGE_NAME,
                    unicode != 0,
                    text_view(name),
                )
            },
            RawDebugEvent::UnloadDll => event matches Ok(DebugEvent::UnloadDll),
            RawDebugEvent::OutputDebugString { address, length, unicode } => event matches Ok(
                DebugEvent::OutputDebugString(text),
            ) && string_read(mem_source, address, length as usize, unicode != 0, text@),
            RawDebugEvent::Rip { error, info_type } => event matches Ok(
                DebugEvent::Rip { error: same, info_type: kind },
            ) && same == error && kind == info_type,
        },
{
    match raw {
        RawDebugEvent::Exception { first_chance, code } => Ok(
            DebugEvent::Exception { first_chance: first_chance != 0, code },
        ),
        RawDebugEvent::CreateThread { thread_id } => {
            if thread_id == context.thread.0 {
                Ok(DebugEvent::CreateThread)
            } else {
                Err(ThreadMismatch { reported: context.thread, created: ThreadId(thread_id) })
            }
        },
        RawDebugEvent::ExitThread { exit_code } => Ok(DebugEvent::ExitThread { exit_code }),
        RawDebugEvent::CreateProcess { image_path, base_addr } => {
            // The full path is not to be had for every module, so the file name is used.
            let file_name = last_path_component(image_path.as_str());
            let name = if file_name.as_str().unicode_len() == 0 {
                None
            } else {
                Some(file_name)
            };
            Ok(DebugEvent::CreateProcess { name, base_addr })
        },
        RawDebugEvent::ExitProcess { exit_code } => Ok(DebugEvent::ExitProcess { exit_code }),
        RawDebugEvent::LoadDll { base_addr, image_name, unicode } => {
            let name = if image_name == 0 {
                None
            } else {
                let is_wide = unicode != 0;
                match string_indirect_from(mem_source, image_name, MAX_IMAGE_NAME, is_wide) {
                    Ok(name) => Some(name),
                    Err(_) => None,
                }
            };
            Ok(DebugEvent::LoadDll { name, base_addr })
        },
        RawDebugEvent::UnloadDll => Ok(DebugEvent::UnloadDll),
        RawDebugEvent::OutputDebugString { address, length, unicode } => {
            let is_wide = unicode != 0;
            let debug_string = string_from(mem_source, address, length as usize, is_wide);
            Ok(DebugEvent::OutputDebugString(debug_string))
        },
        RawDebugEvent::Rip { error, info_type } => Ok(DebugEvent::Rip { error, info_type }),
    }
}

} // verus!
