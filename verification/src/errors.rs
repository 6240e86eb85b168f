//! The errors that the capabilities report to the programs calling them.
use vstd::prelude::*;
use vstd::string::StringExecFns;

use crate::irq::IrqHandle;
use crate::memory::{
    InvalidRegionPermissionBitsError, PERM_R, PERM_W, PERM_X, RegionHandle, RegionPermissions,
};
use crate::program::CallTag;
use crate::values::Tag;

verus! {

/// Every error that can occur while running the `Daedalus` capabilities.
#[derive(Debug, PartialEq, Eq)]
pub enum DaedalusCapErrors {
    /// A program was looked up under this name, but none exists.
    CouldNotFindProgram { looked_up_program_name: String },
    /// A program name was expected as per the capability, but a valid one
    /// could not be found.
    ProgramNameExpected,
    /// The next phase is `end`.
    EndOfPhases,
    /// The scheduler found nothing runnable: every program is blocked.
    NothingToRunDeadLock,
    /// A message payload was expected on the stack, but it was empty.
    StackUnderflowExpectedMessageArgPayload,
    /// A program name was expected on the stack, but it was empty.
    StackUnderflowExpectedProgramName,
    /// A call tag to reply with was expected on the stack, but it was empty.
    StackUnderflowExpectedCallTag,
    /// A call named a program that is not running (never started, or ended).
    UnknownDestination(&'static str),
    /// A program called itself.
    CallToSelf(&'static str),
    /// The next phase's entry argument was expected on the stack for
    /// `finish`, but it was empty.
    StackUnderflowFinishArg,
    /// A reply tag was expected, but a value of another type was found.
    ReplyTagExpected { found_type: &'static str },
    /// This tag has no outstanding request to reply to.
    UnknownReplyTag(CallTag),
    /// The caller to reply to is no longer running.
    CallerGone(&'static str),
    /// These region permission bits do not exist.
    InvalidRegionPermission(InvalidRegionPermissionBitsError),
    /// The region would extend past the end of the address space.
    RegionOverflow { base: usize, len: usize },
    /// The region is writable and overlaps the memory of `Daedalus`.
    WritableOverDaedalus { base: usize, len: usize },
    /// The access needs permissions that the region does not hold.
    PermissionDenied { need: RegionPermissions, held: RegionPermissions },
    /// The end of the access would lie past the end of the address space.
    AccessOverflow { offset: usize, width: usize },
    /// The access exceeds the length of the region.
    OutOfRegion { offset: usize, width: usize, len: usize },
    /// The accessed address is not aligned to the width of the access.
    Misaligned { address: usize, width: usize },
    /// The access width is not one of 1, 2, 4 or 8 bytes.
    InvalidAccessWidth { width: usize },
    /// A grant up to the start of `Daedalus` has its base above that start.
    GrantBaseAboveDaedalus { role: &'static str, base: usize },
    /// A grant up to the end of memory has its base at or past that end.
    GrantBaseOutsideMemory { role: &'static str, base: usize },
    /// The entry point of the named program could not be entered.
    FailedToEnterProgramEntryPoint { name: &'static str },
    /// A grant `role` was expected on the stack, but it was empty.
    StackUnderflowExpectedGrantRole,
    /// A grant role name was expected, but a valid one could not be found.
    GrantRoleExpected,
    /// The current program holds no grant with this role.
    CouldNotFindGrantRole { looked_up_role: String },
    /// A region handle was expected on the stack, but it was empty.
    StackUnderflowExpectedRegionHandle,
    /// A region handle was expected, but a value of another type was found.
    RegionHandleExpected { found_type: &'static str },
    /// Region permissions were expected on the stack, but it was empty.
    StackUnderflowExpectedRegionPermissions,
    /// Region permissions were expected, but a value of another type was
    /// found.
    RegionPermissionsExpected { found_type: &'static str },
    /// An access or derive length was expected on the stack, but it was
    /// empty.
    StackUnderflowExpectedRegionAccessDeriveLength,
    /// An access or derive length was expected, but a value of another type
    /// was found.
    RegionAccessDeriveLengthExpected { found_type: &'static str },
    /// The length does not fit in a machine word.
    LengthTooLarge { illegal_length: u64 },
    /// An access or derive offset was expected on the stack, but it was
    /// empty.
    StackUnderflowExpectedRegionAccessDeriveOffset,
    /// An access or derive offset was expected, but a value of another type
    /// was found.
    RegionAccessDeriveOffsetExpected { found_type: &'static str },
    /// The offset does not fit in a machine word.
    OffsetTooLarge { illegal_offset: u64 },
    /// This tag is not a handle to a region of the current program.
    UnknownRegionHandle(RegionHandle),
    /// An IRQ handle was expected on the stack, but it was empty.
    StackUnderflowExpectedIrqHandle,
    /// An IRQ handle was expected, but a value of another type was found.
    IrqHandleExpected { found_type: &'static str },
    /// This tag is not a live IRQ handle of the current program.
    UnknownIrqHandle(IrqHandle),
    /// An interrupt ID was expected on the stack, but it was empty.
    StackUnderflowExpectedInterruptId,
    /// An interrupt ID was expected, but a value of another type was found.
    InterruptIdExpected { found_type: &'static str },
    /// The interrupt ID is not one the interrupt controller can route.
    InvalidInterruptId { raw_interrupt_id: u64 },
    /// The program's manifest does not declare this interrupt.
    InterruptNotDeclared { interrupt_id: u32, program: &'static str },
    /// The interrupt is already bound to a program.
    InterruptAlreadyRegistered {
        interrupt_id: u32,
        original_program: &'static str,
        new_program: &'static str,
    },
}

/// The character of the decimal digit `d`.
pub open spec fn digit_char(d: nat) -> char {
    (48 + d) as char
}

/// The decimal digits of `n`, most significant first, without leading
/// zeros (`0` for zero).
pub open spec fn decimal_chars(n: nat) -> Seq<char>
    decreases n,
{
    if n < 10 {
        seq![digit_char(n)]
    } else {
        decimal_chars(n / 10) + seq![digit_char(n % 10)]
    }
}

/// The one-character string of the decimal digit `d`.
fn digit_str(d: u64) -> (digit: &'static str)
    requires
        d < 10,
    ensures
        digit@ == seq![digit_char(d as nat)],
{
    proof {
        reveal_strlit("0");
        reveal_strlit("1");
        reveal_strlit("2");
        reveal_strlit("3");
        reveal_strlit("4");
        reveal_strlit("5");
        reveal_strlit("6");
        reveal_strlit("7");
        reveal_strlit("8");
        reveal_strlit("9");
    }
    match d {
        0 => "0",
        1 => "1",
        2 => "2",
        3 => "3",
        4 => "4",
        5 => "5",
        6 => "6",
        7 => "7",
        8 => "8",
        _ => "9",
    }
}

/// Appends the decimal digits of `n` to `text`.
pub fn push_decimal(text: &mut String, n: u64)
    ensures
        final(text)@ == old(text)@ + decimal_chars(n as nat),
    decreases n,
{
    if n >= 10 {
        push_decimal(text, n / 10);
    }
    text.append(digit_str(n % 10));
    proof {
        if n >= 10 {
            assert(old(text)@ + decimal_chars(n as nat) =~= old(text)@ + decimal_chars((n / 10) as nat)
                + seq![digit_char((n % 10) as nat)]);
        } else {
            assert(old(text)@ + decimal_chars(n as nat) =~= old(text)@ + seq![digit_char(n as nat)]);
        }
    }
}

/// `<str as Debug>::fmt`'s text for a string of the characters `s`: the
/// string in double quotes, its special characters escaped.
pub uninterp spec fn debug_quoted(s: Seq<char>) -> Seq<char>;

/// `<str as Debug>::fmt`, through `format!`: the debug text of `s`, which
/// is `debug_quoted` of its characters.
#[verifier::external_body]
fn str_debug(s: &str) -> (quoted: String)
    ensures
        quoted@ == debug_quoted(s@),
{
    format!("{s:?}")
}

/// The text of permissions: `r`, `w` and `x` for the bits held, `-` for
/// those not held.
pub open spec fn perms_chars(perms: RegionPermissions) -> Seq<char> {
    (if perms.0 & PERM_R != 0 { "r"@ } else { "-"@ }) + (if perms.0 & PERM_W != 0 {
        "w"@
    } else {
        "-"@
    }) + (if perms.0 & PERM_X != 0 { "x"@ } else { "-"@ })
}

/// Appends the text of `perms` to `text`.
fn push_perms(text: &mut String, perms: RegionPermissions)
    ensures
        final(text)@ == old(text)@ + perms_chars(perms),
{
    text.append(if perms.0 & PERM_R != 0 { "r" } else { "-" });
    text.append(if perms.0 & PERM_W != 0 { "w" } else { "-" });
    text.append(if perms.0 & PERM_X != 0 { "x" } else { "-" });
}

/// The debug text of a handle of kind `kind` (a tuple struct holding a
/// tag), such as `CallTag(Tag(7))`.
pub open spec fn handle_debug(kind: Seq<char>, tag: Tag) -> Seq<char> {
    kind + "(Tag("@ + decimal_chars(tag.0 as nat) + "))"@
}

/// Appends the debug text of the handle of kind `kind` holding `tag`.
fn push_handle_debug(text: &mut String, kind: &str, tag: Tag)
    ensures
        final(text)@ == old(text)@ + handle_debug(kind@, tag),
{
    text.append(kind);
    text.append("(Tag(");
    push_decimal(text, tag.0);
    text.append("))");
}

/// The message that describes `error`.
pub open spec fn error_text(error: DaedalusCapErrors) -> Seq<char> {
    match error {
        DaedalusCapErrors::EndOfPhases => "daedalus reached the `end` of the boot phases!"@,
        DaedalusCapErrors::CouldNotFindProgram { looked_up_program_name } => {
            "daedalus capability tried to look up program `"@
                + looked_up_program_name@
                + "`, but could not find any program with that name!"@
        },
        DaedalusCapErrors::ProgramNameExpected => {
            "daedalus capability expected a program name as a value, found an invalid one!"@
        },
        DaedalusCapErrors::NothingToRunDeadLock => {
            "daedalus scheduler could find no runnable program, every program must be blocked in a deadlock!"@
        },
        DaedalusCapErrors::StackUnderflowExpectedMessageArgPayload => {
            "daedalus expected to find some payload/arg to a message on the stack, but nothing was found!"@
        },
        DaedalusCapErrors::StackUnderflowExpectedProgramName => {
            "daedalus expected to find some program name on the stack but nothing was found!"@
        },
        DaedalusCapErrors::UnknownDestination(name) => {
            "daedalus found a call destination `"@
                + debug_quoted(name@)
                + "`, but it is not currently running/was never started!"@
        },
        DaedalusCapErrors::CallToSelf(name) => {
            "daedalus found a program call that called its own program: `"@
                + debug_quoted(name@)
                + "`, this is not good behaviour and explicitly disallowed!"@
        },
        DaedalusCapErrors::StackUnderflowFinishArg => {
            "daedalus expected to find some argument to the next phase's program but nothing was found!"@
        },
        DaedalusCapErrors::StackUnderflowExpectedCallTag => {
            "daedalus expected to find some call tag to reply with but nothing was found!"@
        },
        DaedalusCapErrors::ReplyTagExpected { found_type } => {
            "daedalus expected to find some call tag to reply with, but instead found a `"@
                + found_type@
                + "`!"@
        },
        DaedalusCapErrors::UnknownReplyTag(tag) => {
            "daedalus found attempt to call non_block_reply with tag `"@
                + handle_debug("CallTag"@, tag.0)
                + "`, but this tag has no outstanding request to reply with, did it really get allocated by `block_recv`?"@
        },
        DaedalusCapErrors::CallerGone(name) => {
            "daedalus expected to find a reply target `"@
                + debug_quoted(name@)
                + "`, but there is no longer a running program by the time we are replying to it!"@
        },
        DaedalusCapErrors::InvalidRegionPermission(region_error) => {
            "daedalus expected a valid set of permission bits in provided permission, however `"@
                + decimal_chars(region_error.0 as nat)
                + "` contained invalid permission bits!"@
        },
        DaedalusCapErrors::RegionOverflow { base, len } => {
            "a region was attempted to be created which overflows the available memory of the system, with base `"@
                + decimal_chars(base as nat)
                + "` and length `"@
                + decimal_chars(len as nat)
                + "`."@
        },
        DaedalusCapErrors::WritableOverDaedalus { base, len } => {
            "a region was attempted to be created which has `write` permission and overlaps with the memory of daedalus! with base `"@
                + decimal_chars(base as nat)
                + "` and length `"@
                + decimal_chars(len as nat)
                + "`."@
        },
        DaedalusCapErrors::PermissionDenied { need, held } => {
            "region access permission denied: attempted to access with permissions `"@
                + perms_chars(need)
                + "`, actual held region permissions `"@
                + perms_chars(held)
                + "`."@
        },
        DaedalusCapErrors::AccessOverflow { offset, width } => {
            "a access was attempted which overflows the available memory of the system, with offset `"@
                + decimal_chars(offset as nat)
                + "` and width `"@
                + decimal_chars(width as nat)
                + "`."@
        },
        DaedalusCapErrors::OutOfRegion { offset, width, len } => {
            "a region access was attempted with offset `"@
                + decimal_chars(offset as nat)
                + "` and width `"@
                + decimal_chars(width as nat)
                + "`, however this exceeds the bounds of the region which has length `"@
                + decimal_chars(len as nat)
                + "`."@
        },
        DaedalusCapErrors::Misaligned { address, width } => {
            "a region access was attempted at address `"@
                + decimal_chars(address as nat)
                + "`, however this address is not aligned to the requested access width of `"@
                + decimal_chars(width as nat)
                + "` bytes."@
        },
        DaedalusCapErrors::InvalidAccessWidth { width } => {
            "attempted an access with invalid width of `"@
                + decimal_chars(width as nat)
                + "` bytes, must be one of [1, 2, 4, 8]."@
        },
        DaedalusCapErrors::GrantBaseAboveDaedalus { role, base } => {
            "the grant with role `"@
                + role@
                + "` and length `to_start_daedalus` was given base `"@
                + decimal_chars(base as nat)
                + "` which exceeds the starting address of daedalus."@
        },
        DaedalusCapErrors::GrantBaseOutsideMemory { role, base } => {
            "the grant with role `"@
                + role@
                + "` and length `to_end_of_memory` was given base `"@
                + decimal_chars(base as nat)
                + "`, but this is at or past the end of physical memory as specified by daedalus."@
        },
        DaedalusCapErrors::FailedToEnterProgramEntryPoint { name } => {
            "expected to be able to enter entry point of program with name `"@
                + name@
                + "` but this failed!"@
        },
        DaedalusCapErrors::StackUnderflowExpectedGrantRole => {
            "daedalus expected to find a grant `role` name on the stack but nothing was found!"@
        },
        DaedalusCapErrors::GrantRoleExpected => {
            "daedalus expected a grant `role` name as a `Boson3` string value (UInt Array), found an invalid one!"@
        },
        DaedalusCapErrors::CouldNotFindGrantRole { looked_up_role } => {
            "daedalus capability tried to look up grant with role `"@
                + looked_up_role@
                + "`, but could not find any grants with that role!"@
        },
        DaedalusCapErrors::StackUnderflowExpectedRegionHandle => {
            "daedalus expected to find a memory region handle on the stack but nothing was found!"@
        },
        DaedalusCapErrors::RegionHandleExpected { found_type } => {
            "daedalus expected a memory region handle, but instead found a `"@
                + found_type@
                + "`!"@
        },
        DaedalusCapErrors::StackUnderflowExpectedRegionPermissions => {
            "daedalus expected to find memory region permissions on the stack but nothing was found!"@
        },
        DaedalusCapErrors::RegionPermissionsExpected { found_type } => {
            "daedalus expected memory region permissions, but instead found a `"@
                + found_type@
                + "`!"@
        },
        DaedalusCapErrors::StackUnderflowExpectedRegionAccessDeriveLength => {
            "daedalus expected to find memory length for region access/derive size on the stack but nothing was found!"@
        },
        DaedalusCapErrors::RegionAccessDeriveLengthExpected { found_type } => {
            "daedalus expected memory length for region access/derive size, but instead found a `"@
                + found_type@
                + "`!"@
        },
        DaedalusCapErrors::LengthTooLarge { illegal_length } => {
            "daedalus expected memory length for region access/derive size to be within the bounds of `usize`, however it was not! instead got illegal length of `"@
                + decimal_chars(illegal_length as nat)
                + "`!"@
        },
        DaedalusCapErrors::StackUnderflowExpectedRegionAccessDeriveOffset => {
            "daedalus expected to find memory offset from base for region access/derive on the stack but nothing was found!"@
        },
        DaedalusCapErrors::RegionAccessDeriveOffsetExpected { found_type } => {
            "daedalus expected memory offset from base for region access/derive, but instead found a `"@
                + found_type@
                + "`!"@
        },
        DaedalusCapErrors::OffsetTooLarge { illegal_offset } => {
            "daedalus expected memory offset from base for region access/derive to be within the bounds of `usize`, however it was not! instead got illegal offset of `"@
                + decimal_chars(illegal_offset as nat)
                + "`!"@
        },
        DaedalusCapErrors::UnknownRegionHandle(handle) => {
            "daedalus found attempt to invoke region operation with tag `"@
                + handle_debug("RegionHandle"@, handle.0)
                + "`, but this tag is not a handle to a region, does it really refer to a valid memory region?"@
        },
        DaedalusCapErrors::StackUnderflowExpectedIrqHandle => {
            "daedalus expected to find an irq handle on the stack but nothing was found!"@
        },
        DaedalusCapErrors::IrqHandleExpected { found_type } => {
            "daedalus expected an irq handle, but instead found a `"@
                + found_type@
                + "`!"@
        },
        DaedalusCapErrors::UnknownIrqHandle(handle) => {
            "daedalus found attempt to invoke irq operation with tag `"@
                + handle_debug("IrqHandle"@, handle.0)
                + "`, but this tag is not a handle to a live irq binding of the current program!"@
        },
        DaedalusCapErrors::StackUnderflowExpectedInterruptId => {
            "daedalus expected to find an interrupt id on the stack but nothing was found!"@
        },
        DaedalusCapErrors::InterruptIdExpected { found_type } => {
            "daedalus expected an interrupt id, but instead found a `"@
                + found_type@
                + "`!"@
        },
        DaedalusCapErrors::InvalidInterruptId { raw_interrupt_id } => {
            "daedalus expected an interrupt id that the interrupt controller can route, however `"@
                + decimal_chars(raw_interrupt_id as nat)
                + "` is not one!"@
        },
        DaedalusCapErrors::InterruptNotDeclared { interrupt_id, program } => {
            "program `"@
                + program@
                + "` attempted to register interrupt `"@
                + decimal_chars(interrupt_id as nat)
                + "`, but its manifest does not declare it!"@
        },
        DaedalusCapErrors::InterruptAlreadyRegistered { interrupt_id, original_program, new_program } => {
            "program `"@
                + new_program@
                + "` attempted to register interrupt `"@
                + decimal_chars(interrupt_id as nat)
                + "`, but it is already registered to program `"@
                + original_program@
                + "`!"@
        },
    }
}

/// The place of `error`'s variant in the declaration of the enum.
pub open spec fn variant_index(error: DaedalusCapErrors) -> int {
    match error {
        DaedalusCapErrors::CouldNotFindProgram { .. } => 0,
        DaedalusCapErrors::ProgramNameExpected => 1,
        DaedalusCapErrors::EndOfPhases => 2,
        DaedalusCapErrors::NothingToRunDeadLock => 3,
        DaedalusCapErrors::StackUnderflowExpectedMessageArgPayload => 4,
        DaedalusCapErrors::StackUnderflowExpectedProgramName => 5,
        DaedalusCapErrors::StackUnderflowExpectedCallTag => 6,
        DaedalusCapErrors::UnknownDestination(..) => 7,
        DaedalusCapErrors::CallToSelf(..) => 8,
        DaedalusCapErrors::StackUnderflowFinishArg => 9,
        DaedalusCapErrors::ReplyTagExpected { .. } => 10,
        DaedalusCapErrors::UnknownReplyTag(..) => 11,
        DaedalusCapErrors::CallerGone(..) => 12,
        DaedalusCapErrors::InvalidRegionPermission(..) => 13,
        DaedalusCapErrors::RegionOverflow { .. } => 14,
        DaedalusCapErrors::WritableOverDaedalus { .. } => 15,
        DaedalusCapErrors::PermissionDenied { .. } => 16,
        DaedalusCapErrors::AccessOverflow { .. } => 17,
        DaedalusCapErrors::OutOfRegion { .. } => 18,
        DaedalusCapErrors::Misaligned { .. } => 19,
        DaedalusCapErrors::InvalidAccessWidth { .. } => 20,
        DaedalusCapErrors::GrantBaseAboveDaedalus { .. } => 21,
        DaedalusCapErrors::GrantBaseOutsideMemory { .. } => 22,
        DaedalusCapErrors::FailedToEnterProgramEntryPoint { .. } => 23,
        DaedalusCapErrors::StackUnderflowExpectedGrantRole => 24,
        DaedalusCapErrors::GrantRoleExpected => 25,
        DaedalusCapErrors::CouldNotFindGrantRole { .. } => 26,
        DaedalusCapErrors::StackUnderflowExpectedRegionHandle => 27,
        DaedalusCapErrors::RegionHandleExpected { .. } => 28,
        DaedalusCapErrors::StackUnderflowExpectedRegionPermissions => 29,
        DaedalusCapErrors::RegionPermissionsExpected { .. } => 30,
        DaedalusCapErrors::StackUnderflowExpectedRegionAccessDeriveLength => 31,
        DaedalusCapErrors::RegionAccessDeriveLengthExpected { .. } => 32,
        DaedalusCapErrors::LengthTooLarge { .. } => 33,
        DaedalusCapErrors::StackUnderflowExpectedRegionAccessDeriveOffset => 34,
        DaedalusCapErrors::RegionAccessDeriveOffsetExpected { .. } => 35,
        DaedalusCapErrors::OffsetTooLarge { .. } => 36,
        DaedalusCapErrors::UnknownRegionHandle(..) => 37,
        DaedalusCapErrors::StackUnderflowExpectedIrqHandle => 38,
        DaedalusCapErrors::IrqHandleExpected { .. } => 39,
        DaedalusCapErrors::UnknownIrqHandle(..) => 40,
        DaedalusCapErrors::StackUnderflowExpectedInterruptId => 41,
        DaedalusCapErrors::InterruptIdExpected { .. } => 42,
        DaedalusCapErrors::InvalidInterruptId { .. } => 43,
        DaedalusCapErrors::InterruptNotDeclared { .. } => 44,
        DaedalusCapErrors::InterruptAlreadyRegistered { .. } => 45,
    }
}

/// The variant a message of `error_text` comes from, told by a few of its
/// characters, counted from its start or from its end.
pub open spec fn variant_of_text(t: Seq<char>) -> int {
    if t[t.len() - 2] == 'e' {
        if t[37] == 'p' {
            0
        } else if t[37] == 'm' {
            1
        } else if t[37] == ' ' {
            25
        } else if t[37] == 'g' {
            26
        } else {
            43
        }
    } else if t[t.len() - 2] == 's' {
        if t[0] == 'd' {
            if t[9] == 'r' {
                2
            } else {
                13
            }
        } else if t[0] == 'a' {
            19
        } else {
            if t[t.len() - 11] == 'f' {
                21
            } else {
                22
            }
        }
    } else if t[t.len() - 2] == 'k' {
        3
    } else if t[t.len() - 2] == 'd' {
        if t[31] == 'p' {
            if t[32] == 'a' {
                4
            } else {
                5
            }
        } else if t[31] == 'c' {
            6
        } else if t[31] == 'o' {
            if t[9] == 'f' {
                7
            } else {
                27
            }
        } else if t[31] == 'h' {
            8
        } else if t[31] == 'a' {
            9
        } else if t[31] == 't' {
            if t[0] == 'e' {
                23
            } else {
                41
            }
        } else if t[31] == 'n' {
            24
        } else if t[31] == 'y' {
            if t[33] == 'r' {
                29
            } else if t[33] == 'l' {
                31
            } else {
                34
            }
        } else {
            38
        }
    } else if t[t.len() - 2] == '`' {
        if t[0] == 'd' {
            if t[25] == ' ' {
                if t[9] == 'e' {
                    10
                } else {
                    11
                }
            } else if t[25] == 'y' {
                28
            } else if t[25] == 'r' {
                if t[18] == 'm' {
                    30
                } else {
                    42
                }
            } else if t[25] == 'l' {
                if t[61] == ',' {
                    32
                } else {
                    33
                }
            } else if t[25] == 'o' {
                if t[66] == ',' {
                    35
                } else {
                    36
                }
            } else {
                39
            }
        } else if t[0] == 'a' {
            if t[23] == 't' {
                if t[43] == 'o' {
                    14
                } else {
                    15
                }
            } else if t[23] == 'w' {
                17
            } else {
                18
            }
        } else if t[0] == 'r' {
            16
        } else {
            45
        }
    } else if t[t.len() - 2] == 't' {
        if t[0] == 'd' {
            12
        } else {
            44
        }
    } else if t[t.len() - 2] == ']' {
        20
    } else if t[t.len() - 2] == 'n' {
        37
    } else {
        40
    }
}

/// The variant of an error can be read back from its message.
proof fn lemma_variant_of_text(error: DaedalusCapErrors)
    ensures
        variant_of_text(error_text(error)) == variant_index(error),
{
    let t = error_text(error);
    match error {
        DaedalusCapErrors::CouldNotFindProgram { .. } => {
            reveal_strlit("daedalus capability tried to look up program `");
            reveal_strlit("`, but could not find any program with that name!");
            assert(t[t.len() - 2] == 'e');
            assert(t[37] == 'p');
        },
        DaedalusCapErrors::ProgramNameExpected => {
            reveal_strlit("daedalus capability expected a program name as a value, found an invalid one!");
            assert(t[t.len() - 2] == 'e');
            assert(t[37] == 'm');
        },
        DaedalusCapErrors::EndOfPhases => {
            reveal_strlit("daedalus reached the `end` of the boot phases!");
            assert(t[t.len() - 2] == 's');
            assert(t[0] == 'd');
            assert(t[9] == 'r');
        },
        DaedalusCapErrors::NothingToRunDeadLock => {
            reveal_strlit("daedalus scheduler could find no runnable program, every program must be blocked in a deadlock!");
            assert(t[t.len() - 2] == 'k');
        },
        DaedalusCapErrors::StackUnderflowExpectedMessageArgPayload => {
            reveal_strlit("daedalus expected to find some payload/arg to a message on the stack, but nothing was found!");
            assert(t[t.len() - 2] == 'd');
            assert(t[31] == 'p');
            assert(t[32] == 'a');
        },
        DaedalusCapErrors::StackUnderflowExpectedProgramName => {
            reveal_strlit("daedalus expected to find some program name on the stack but nothing was found!");
            assert(t[t.len() - 2] == 'd');
            assert(t[31] == 'p');
            assert(t[32] == 'r');
        },
        DaedalusCapErrors::StackUnderflowExpectedCallTag => {
            reveal_strlit("daedalus expected to find some call tag to reply with but nothing was found!");
            assert(t[t.len() - 2] == 'd');
            assert(t[31] == 'c');
        },
        DaedalusCapErrors::UnknownDestination(..) => {
            reveal_strlit("daedalus found a call destination `");
            reveal_strlit("`, but it is not currently running/was never started!");
            assert(t[t.len() - 2] == 'd');
            assert(t[31] == 'o');
            assert(t[9] == 'f');
        },
        DaedalusCapErrors::CallToSelf(..) => {
            reveal_strlit("daedalus found a program call that called its own program: `");
            reveal_strlit("`, this is not good behaviour and explicitly disallowed!");
            assert(t[t.len() - 2] == 'd');
            assert(t[31] == 'h');
        },
        DaedalusCapErrors::StackUnderflowFinishArg => {
            reveal_strlit("daedalus expected to find some argument to the next phase's program but nothing was found!");
            assert(t[t.len() - 2] == 'd');
            assert(t[31] == 'a');
        },
        DaedalusCapErrors::ReplyTagExpected { .. } => {
            reveal_strlit("daedalus expected to find some call tag to reply with, but instead found a `");
            reveal_strlit("`!");
            assert(t[t.len() - 2] == '`');
            assert(t[0] == 'd');
            assert(t[25] == ' ');
            assert(t[9] == 'e');
        },
        DaedalusCapErrors::UnknownReplyTag(..) => {
            reveal_strlit("daedalus found attempt to call non_block_reply with tag `");
            reveal_strlit("`, but this tag has no outstanding request to reply with, did it really get allocated by `block_recv`?");
            assert(t[t.len() - 2] == '`');
            assert(t[0] == 'd');
            assert(t[25] == ' ');
            assert(t[9] == 'f');
        },
        DaedalusCapErrors::CallerGone(..) => {
            reveal_strlit("daedalus expected to find a reply target `");
            reveal_strlit("`, but there is no longer a running program by the time we are replying to it!");
            assert(t[t.len() - 2] == 't');
            assert(t[0] == 'd');
        },
        DaedalusCapErrors::InvalidRegionPermission(..) => {
            reveal_strlit("daedalus expected a valid set of permission bits in provided permission, however `");
            reveal_strlit("` contained invalid permission bits!");
            assert(t[t.len() - 2] == 's');
            assert(t[0] == 'd');
            assert(t[9] == 'e');
        },
        DaedalusCapErrors::RegionOverflow { .. } => {
            reveal_strlit("a region was attempted to be created which overflows the available memory of the system, with base `");
            reveal_strlit("`.");
            assert(t[t.len() - 2] == '`');
            assert(t[0] == 'a');
            assert(t[23] == 't');
            assert(t[43] == 'o');
        },
        DaedalusCapErrors::WritableOverDaedalus { .. } => {
            reveal_strlit("a region was attempted to be created which has `write` permission and overlaps with the memory of daedalus! with base `");
            reveal_strlit("`.");
            assert(t[t.len() - 2] == '`');
            assert(t[0] == 'a');
            assert(t[23] == 't');
            assert(t[43] == 'h');
        },
        DaedalusCapErrors::PermissionDenied { .. } => {
            reveal_strlit("region access permission denied: attempted to access with permissions `");
            reveal_strlit("`.");
            assert(t[t.len() - 2] == '`');
            assert(t[0] == 'r');
        },
        DaedalusCapErrors::AccessOverflow { .. } => {
            reveal_strlit("a access was attempted which overflows the available memory of the system, with offset `");
            reveal_strlit("`.");
            assert(t[t.len() - 2] == '`');
            assert(t[0] == 'a');
            assert(t[23] == 'w');
        },
        DaedalusCapErrors::OutOfRegion { .. } => {
            reveal_strlit("a region access was attempted with offset `");
            reveal_strlit("`.");
            assert(t[t.len() - 2] == '`');
            assert(t[0] == 'a');
            assert(t[23] == 'e');
        },
        DaedalusCapErrors::Misaligned { .. } => {
            reveal_strlit("a region access was attempted at address `");
            reveal_strlit("` bytes.");
            assert(t[t.len() - 2] == 's');
            assert(t[0] == 'a');
        },
        DaedalusCapErrors::InvalidAccessWidth { .. } => {
            reveal_strlit("attempted an access with invalid width of `");
            reveal_strlit("` bytes, must be one of [1, 2, 4, 8].");
            assert(t[t.len() - 2] == ']');
        },
        DaedalusCapErrors::GrantBaseAboveDaedalus { .. } => {
            reveal_strlit("the grant with role `");
            reveal_strlit("` which exceeds the starting address of daedalus.");
            assert(t[t.len() - 2] == 's');
            assert(t[0] == 't');
            assert(t[t.len() - 11] == 'f');
        },
        DaedalusCapErrors::GrantBaseOutsideMemory { .. } => {
            reveal_strlit("the grant with role `");
            reveal_strlit("`, but this is at or past the end of physical memory as specified by daedalus.");
            assert(t[t.len() - 2] == 's');
            assert(t[0] == 't');
            assert(t[t.len() - 11] == 'y');
        },
        DaedalusCapErrors::FailedToEnterProgramEntryPoint { .. } => {
            reveal_strlit("expected to be able to enter entry point of program with name `");
            reveal_strlit("` but this failed!");
            assert(t[t.len() - 2] == 'd');
            assert(t[31] == 't');
            assert(t[0] == 'e');
        },
        DaedalusCapErrors::StackUnderflowExpectedGrantRole => {
            reveal_strlit("daedalus expected to find a grant `role` name on the stack but nothing was found!");
            assert(t[t.len() - 2] == 'd');
            assert(t[31] == 'n');
        },
        DaedalusCapErrors::GrantRoleExpected => {
            reveal_strlit("daedalus expected a grant `role` name as a `Boson3` string value (UInt Array), found an invalid one!");
            assert(t[t.len() - 2] == 'e');
            assert(t[37] == ' ');
        },
        DaedalusCapErrors::CouldNotFindGrantRole { .. } => {
            reveal_strlit("daedalus capability tried to look up grant with role `");
            reveal_strlit("`, but could not find any grants with that role!");
            assert(t[t.len() - 2] == 'e');
            assert(t[37] == 'g');
        },
        DaedalusCapErrors::StackUnderflowExpectedRegionHandle => {
            reveal_strlit("daedalus expected to find a memory region handle on the stack but nothing was found!");
            assert(t[t.len() - 2] == 'd');
            assert(t[31] == 'o');
            assert(t[9] == 'e');
        },
        DaedalusCapErrors::RegionHandleExpected { .. } => {
            reveal_strlit("daedalus expected a memory region handle, but instead found a `");
            reveal_strlit("`!");
            assert(t[t.len() - 2] == '`');
            assert(t[0] == 'd');
            assert(t[25] == 'y');
        },
        DaedalusCapErrors::StackUnderflowExpectedRegionPermissions => {
            reveal_strlit("daedalus expected to find memory region permissions on the stack but nothing was found!");
            assert(t[t.len() - 2] == 'd');
            assert(t[31] == 'y');
            assert(t[33] == 'r');
        },
        DaedalusCapErrors::RegionPermissionsExpected { .. } => {
            reveal_strlit("daedalus expected memory region permissions, but instead found a `");
            reveal_strlit("`!");
            assert(t[t.len() - 2] == '`');
            assert(t[0] == 'd');
            assert(t[25] == 'r');
            assert(t[18] == 'm');
        },
        DaedalusCapErrors::StackUnderflowExpectedRegionAccessDeriveLength => {
            reveal_strlit("daedalus expected to find memory length for region access/derive size on the stack but nothing was found!");
            assert(t[t.len() - 2] == 'd');
            assert(t[31] == 'y');
            assert(t[33] == 'l');
        },
        DaedalusCapErrors::RegionAccessDeriveLengthExpected { .. } => {
            reveal_strlit("daedalus expected memory length for region access/derive size, but instead found a `");
            reveal_strlit("`!");
            assert(t[t.len() - 2] == '`');
            assert(t[0] == 'd');
            assert(t[25] == 'l');
            assert(t[61] == ',');
        },
        DaedalusCapErrors::LengthTooLarge { .. } => {
            reveal_strlit("daedalus expected memory length for region access/derive size to be within the bounds of `usize`, however it was not! instead got illegal length of `");
            reveal_strlit("`!");
            assert(t[t.len() - 2] == '`');
            assert(t[0] == 'd');
            assert(t[25] == 'l');
            assert(t[61] == ' ');
        },
        DaedalusCapErrors::StackUnderflowExpectedRegionAccessDeriveOffset => {
            reveal_strlit("daedalus expected to find memory offset from base for region access/derive on the stack but nothing was found!");
            assert(t[t.len() - 2] == 'd');
            assert(t[31] == 'y');
            assert(t[33] == 'o');
        },
        DaedalusCapErrors::RegionAccessDeriveOffsetExpected { .. } => {
            reveal_strlit("daedalus expected memory offset from base for region access/derive, but instead found a `");
            reveal_strlit("`!");
            assert(t[t.len() - 2] == '`');
            assert(t[0] == 'd');
            assert(t[25] == 'o');
            assert(t[66] == ',');
        },
        DaedalusCapErrors::OffsetTooLarge { .. } => {
            reveal_strlit("daedalus expected memory offset from base for region access/derive to be within the bounds of `usize`, however it was not! instead got illegal offset of `");
            reveal_strlit("`!");
            assert(t[t.len() - 2] == '`');
            assert(t[0] == 'd');
            assert(t[25] == 'o');
            assert(t[66] == ' ');
        },
        DaedalusCapErrors::UnknownRegionHandle(..) => {
            reveal_strlit("daedalus found attempt to invoke region operation with tag `");
            reveal_strlit("`, but this tag is not a handle to a region, does it really refer to a valid memory region?");
            assert(t[t.len() - 2] == 'n');
        },
        DaedalusCapErrors::StackUnderflowExpectedIrqHandle => {
            reveal_strlit("daedalus expected to find an irq handle on the stack but nothing was found!");
            assert(t[t.len() - 2] == 'd');
            assert(t[31] == 'q');
        },
        DaedalusCapErrors::IrqHandleExpected { .. } => {
            reveal_strlit("daedalus expected an irq handle, but instead found a `");
            reveal_strlit("`!");
            assert(t[t.len() - 2] == '`');
            assert(t[0] == 'd');
            assert(t[25] == 'h');
        },
        DaedalusCapErrors::UnknownIrqHandle(..) => {
            reveal_strlit("daedalus found attempt to invoke irq operation with tag `");
            reveal_strlit("`, but this tag is not a handle to a live irq binding of the current program!");
            assert(t[t.len() - 2] == 'm');
        },
        DaedalusCapErrors::StackUnderflowExpectedInterruptId => {
            reveal_strlit("daedalus expected to find an interrupt id on the stack but nothing was found!");
            assert(t[t.len() - 2] == 'd');
            assert(t[31] == 't');
            assert(t[0] == 'd');
        },
        DaedalusCapErrors::InterruptIdExpected { .. } => {
            reveal_strlit("daedalus expected an interrupt id, but instead found a `");
            reveal_strlit("`!");
            assert(t[t.len() - 2] == '`');
            assert(t[0] == 'd');
            assert(t[25] == 'r');
            assert(t[18] == 'a');
        },
        DaedalusCapErrors::InvalidInterruptId { .. } => {
            reveal_strlit("daedalus expected an interrupt id that the interrupt controller can route, however `");
            reveal_strlit("` is not one!");
            assert(t[t.len() - 2] == 'e');
            assert(t[37] == 't');
        },
        DaedalusCapErrors::InterruptNotDeclared { .. } => {
            reveal_strlit("program `");
            reveal_strlit("`, but its manifest does not declare it!");
            assert(t[t.len() - 2] == 't');
            assert(t[0] == 'p');
        },
        DaedalusCapErrors::InterruptAlreadyRegistered { .. } => {
            reveal_strlit("program `");
            reveal_strlit("`!");
            assert(t[t.len() - 2] == '`');
            assert(t[0] == 'p');
        },
    }
}

/// Errors of different variants are described by different messages,
/// whatever their fields hold: the message tells the variant.
pub proof fn lemma_messages_tell_variants(first: DaedalusCapErrors, second: DaedalusCapErrors)
    requires
        variant_index(first) != variant_index(second),
    ensures
        error_text(first) != error_text(second),
{
    lemma_variant_of_text(first);
    lemma_variant_of_text(second);
}

impl DaedalusCapErrors {
    /// The message that describes this error to a person.
    pub fn describe(&self) -> (text: String)
        ensures
            text@ == error_text(*self),
    {
        match self {
            DaedalusCapErrors::EndOfPhases => String::from_str("daedalus reached the `end` of the boot phases!"),
            DaedalusCapErrors::CouldNotFindProgram { looked_up_program_name } => {
                let mut text = String::from_str("daedalus capability tried to look up program `");
                text.append(looked_up_program_name.as_str());
                text.append("`, but could not find any program with that name!");
                text
            },
            DaedalusCapErrors::ProgramNameExpected => String::from_str("daedalus capability expected a program name as a value, found an invalid one!"),
            DaedalusCapErrors::NothingToRunDeadLock => String::from_str("daedalus scheduler could find no runnable program, every program must be blocked in a deadlock!"),
            DaedalusCapErrors::StackUnderflowExpectedMessageArgPayload => String::from_str("daedalus expected to find some payload/arg to a message on the stack, but nothing was found!"),
            DaedalusCapErrors::StackUnderflowExpectedProgramName => String::from_str("daedalus expected to find some program name on the stack but nothing was found!"),
            DaedalusCapErrors::UnknownDestination(name) => {
                let mut text = String::from_str("daedalus found a call destination `");
                text.append(str_debug(name).as_str());
                text.append("`, but it is not currently running/was never started!");
                text
            },
            DaedalusCapErrors::CallToSelf(name) => {
                let mut text = String::from_str("daedalus found a program call that called its own program: `");
                text.append(str_debug(name).as_str());
                text.append("`, this is not good behaviour and explicitly disallowed!");
                text
            },
            DaedalusCapErrors::StackUnderflowFinishArg => String::from_str("daedalus expected to find some argument to the next phase's program but nothing was found!"),
            DaedalusCapErrors::StackUnderflowExpectedCallTag => String::from_str("daedalus expected to find some call tag to reply with but nothing was found!"),
            DaedalusCapErrors::ReplyTagExpected { found_type } => {
                let mut text = String::from_str("daedalus expected to find some call tag to reply with, but instead found a `");
                text.append(found_type);
                text.append("`!");
                text
            },
            DaedalusCapErrors::UnknownReplyTag(tag) => {
                let mut text = String::from_str("daedalus found attempt to call non_block_reply with tag `");
                push_handle_debug(&mut text, "CallTag", tag.0);
                text.append("`, but this tag has no outstanding request to reply with, did it really get allocated by `block_recv`?");
                text
            },
            DaedalusCapErrors::CallerGone(name) => {
                let mut text = String::from_str("daedalus expected to find a reply target `");
                text.append(str_debug(name).as_str());
                text.append("`, but there is no longer a running program by the time we are replying to it!");
                text
            },
            DaedalusCapErrors::InvalidRegionPermission(region_error) => {
                let mut text = String::from_str("daedalus expected a valid set of permission bits in provided permission, however `");
                push_decimal(&mut text, region_error.0 as u64);
                text.append("` contained invalid permission bits!");
                text
            },
            DaedalusCapErrors::RegionOverflow { base, len } => {
                let mut text = String::from_str("a region was attempted to be created which overflows the available memory of the system, with base `");
                push_decimal(&mut text, *base as u64);
                text.append("` and length `");
                push_decimal(&mut text, *len as u64);
                text.append("`.");
                text
            },
            DaedalusCapErrors::WritableOverDaedalus { base, len } => {
                let mut text = String::from_str("a region was attempted to be created which has `write` permission and overlaps with the memory of daedalus! with base `");
                push_decimal(&mut text, *base as u64);
                text.append("` and length `");
                push_decimal(&mut text, *len as u64);
                text.append("`.");
                text
            },
            DaedalusCapErrors::PermissionDenied { need, held } => {
                let mut text = String::from_str("region access permission denied: attempted to access with permissions `");
                push_perms(&mut text, *need);
                text.append("`, actual held region permissions `");
                push_perms(&mut text, *held);
                text.append("`.");
                text
            },
            DaedalusCapErrors::AccessOverflow { offset, width } => {
                let mut text = String::from_str("a access was attempted which overflows the available memory of the system, with offset `");
                push_decimal(&mut text, *offset as u64);
                text.append("` and width `");
                push_decimal(&mut text, *width as u64);
                text.append("`.");
                text
            },
            DaedalusCapErrors::OutOfRegion { offset, width, len } => {
                let mut text = String::from_str("a region access was attempted with offset `");
                push_decimal(&mut text, *offset as u64);
                text.append("` and width `");
                push_decimal(&mut text, *width as u64);
                text.append("`, however this exceeds the bounds of the region which has length `");
                push_decimal(&mut text, *len as u64);
                text.append("`.");
                text
            },
            DaedalusCapErrors::Misaligned { address, width } => {
                let mut text = String::from_str("a region access was attempted at address `");
                push_decimal(&mut text, *address as u64);
                text.append("`, however this address is not aligned to the requested access width of `");
                push_decimal(&mut text, *width as u64);
                text.append("` bytes.");
                text
            },
            DaedalusCapErrors::InvalidAccessWidth { width } => {
                let mut text = String::from_str("attempted an access with invalid width of `");
                push_decimal(&mut text, *width as u64);
                text.append("` bytes, must be one of [1, 2, 4, 8].");
                text
            },
            DaedalusCapErrors::GrantBaseAboveDaedalus { role, base } => {
                let mut text = String::from_str("the grant with role `");
                text.append(role);
                text.append("` and length `to_start_daedalus` was given base `");
                push_decimal(&mut text, *base as u64);
                text.append("` which exceeds the starting address of daedalus.");
                text
            },
            DaedalusCapErrors::GrantBaseOutsideMemory { role, base } => {
                let mut text = String::from_str("the grant with role `");
                text.append(role);
                text.append("` and length `to_end_of_memory` was given base `");
                push_decimal(&mut text, *base as u64);
                text.append("`, but this is at or past the end of physical memory as specified by daedalus.");
                text
            },
            DaedalusCapErrors::FailedToEnterProgramEntryPoint { name } => {
                let mut text = String::from_str("expected to be able to enter entry point of program with name `");
                text.append(name);
                text.append("` but this failed!");
                text
            },
            DaedalusCapErrors::StackUnderflowExpectedGrantRole => String::from_str("daedalus expected to find a grant `role` name on the stack but nothing was found!"),
            DaedalusCapErrors::GrantRoleExpected => String::from_str("daedalus expected a grant `role` name as a `Boson3` string value (UInt Array), found an invalid one!"),
            DaedalusCapErrors::CouldNotFindGrantRole { looked_up_role } => {
                let mut text = String::from_str("daedalus capability tried to look up grant with role `");
                text.append(looked_up_role.as_str());
                text.append("`, but could not find any grants with that role!");
                text
            },
            DaedalusCapErrors::StackUnderflowExpectedRegionHandle => String::from_str("daedalus expected to find a memory region handle on the stack but nothing was found!"),
            DaedalusCapErrors::RegionHandleExpected { found_type } => {
                let mut text = String::from_str("daedalus expected a memory region handle, but instead found a `");
                text.append(found_type);
                text.append("`!");
                text
            },
            DaedalusCapErrors::StackUnderflowExpectedRegionPermissions => String::from_str("daedalus expected to find memory region permissions on the stack but nothing was found!"),
            DaedalusCapErrors::RegionPermissionsExpected { found_type } => {
                let mut text = String::from_str("daedalus expected memory region permissions, but instead found a `");
                text.append(found_type);
                text.append("`!");
                text
            },
            DaedalusCapErrors::StackUnderflowExpectedRegionAccessDeriveLength => String::from_str("daedalus expected to find memory length for region access/derive size on the stack but nothing was found!"),
            DaedalusCapErrors::RegionAccessDeriveLengthExpected { found_type } => {
                let mut text = String::from_str("daedalus expected memory length for region access/derive size, but instead found a `");
                text.append(found_type);
                text.append("`!");
                text
            },
            DaedalusCapErrors::LengthTooLarge { illegal_length } => {
                let mut text = String::from_str("daedalus expected memory length for region access/derive size to be within the bounds of `usize`, however it was not! instead got illegal length of `");
                push_decimal(&mut text, *illegal_length as u64);
                text.append("`!");
                text
            },
            DaedalusCapErrors::StackUnderflowExpectedRegionAccessDeriveOffset => String::from_str("daedalus expected to find memory offset from base for region access/derive on the stack but nothing was found!"),
            DaedalusCapErrors::RegionAccessDeriveOffsetExpected { found_type } => {
                let mut text = String::from_str("daedalus expected memory offset from base for region access/derive, but instead found a `");
                text.append(found_type);
                text.append("`!");
                text
            },
            DaedalusCapErrors::OffsetTooLarge { illegal_offset } => {
                let mut text = String::from_str("daedalus expected memory offset from base for region access/derive to be within the bounds of `usize`, however it was not! instead got illegal offset of `");
                push_decimal(&mut text, *illegal_offset as u64);
                text.append("`!");
                text
            },
            DaedalusCapErrors::UnknownRegionHandle(handle) => {
                let mut text = String::from_str("daedalus found attempt to invoke region operation with tag `");
                push_handle_debug(&mut text, "RegionHandle", handle.0);
                text.append("`, but this tag is not a handle to a region, does it really refer to a valid memory region?");
                text
            },
            DaedalusCapErrors::StackUnderflowExpectedIrqHandle => String::from_str("daedalus expected to find an irq handle on the stack but nothing was found!"),
            DaedalusCapErrors::IrqHandleExpected { found_type } => {
                let mut text = String::from_str("daedalus expected an irq handle, but instead found a `");
                text.append(found_type);
                text.append("`!");
                text
            },
            DaedalusCapErrors::UnknownIrqHandle(handle) => {
                let mut text = String::from_str("daedalus found attempt to invoke irq operation with tag `");
                push_handle_debug(&mut text, "IrqHandle", handle.0);
                text.append("`, but this tag is not a handle to a live irq binding of the current program!");
                text
            },
            DaedalusCapErrors::StackUnderflowExpectedInterruptId => String::from_str("daedalus expected to find an interrupt id on the stack but nothing was found!"),
            DaedalusCapErrors::InterruptIdExpected { found_type } => {
                let mut text = String::from_str("daedalus expected an interrupt id, but instead found a `");
                text.append(found_type);
                text.append("`!");
                text
            },
            DaedalusCapErrors::InvalidInterruptId { raw_interrupt_id } => {
                let mut text = String::from_str("daedalus expected an interrupt id that the interrupt controller can route, however `");
                push_decimal(&mut text, *raw_interrupt_id as u64);
                text.append("` is not one!");
                text
            },
            DaedalusCapErrors::InterruptNotDeclared { interrupt_id, program } => {
                let mut text = String::from_str("program `");
                text.append(program);
                text.append("` attempted to register interrupt `");
                push_decimal(&mut text, *interrupt_id as u64);
                text.append("`, but its manifest does not declare it!");
                text
            },
            DaedalusCapErrors::InterruptAlreadyRegistered { interrupt_id, original_program, new_program } => {
                let mut text = String::from_str("program `");
                text.append(new_program);
                text.append("` attempted to register interrupt `");
                push_decimal(&mut text, *interrupt_id as u64);
                text.append("`, but it is already registered to program `");
                text.append(original_program);
                text.append("`!");
                text
            },
        }
    }
}

impl From<InvalidRegionPermissionBitsError> for DaedalusCapErrors {
    fn from(value: InvalidRegionPermissionBitsError) -> (error: Self) {
        DaedalusCapErrors::InvalidRegionPermission(value)
    }
}

impl vstd::std_specs::convert::FromSpecImpl<InvalidRegionPermissionBitsError> for DaedalusCapErrors {
    open spec fn obeys_from_spec() -> bool {
        true
    }

    open spec fn from_spec(value: InvalidRegionPermissionBitsError) -> DaedalusCapErrors {
        DaedalusCapErrors::InvalidRegionPermission(value)
    }
}

} // verus!
