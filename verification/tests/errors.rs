use daedalus_caps::errors::{push_decimal, DaedalusCapErrors};
use daedalus_caps::irq::IrqHandle;
use daedalus_caps::memory::{InvalidRegionPermissionBitsError, RegionHandle, RegionPermissions};
use daedalus_caps::program::CallTag;
use daedalus_caps::values::Tag;

#[test]
fn decimal_digits() {
    let mut text = String::from("n=");
    push_decimal(&mut text, 0);
    assert_eq!(text, "n=0");
    let mut text = String::new();
    push_decimal(&mut text, u64::MAX);
    assert_eq!(text, u64::MAX.to_string());
    let mut text = String::new();
    push_decimal(&mut text, 1020);
    assert_eq!(text, "1020");
}

#[test]
fn plain_messages() {
    assert_eq!(
        DaedalusCapErrors::EndOfPhases.describe(),
        "daedalus reached the `end` of the boot phases!"
    );
    assert_eq!(
        DaedalusCapErrors::GrantRoleExpected.describe(),
        "daedalus expected a grant `role` name as a `Boson3` string value (UInt Array), found an invalid one!"
    );
}

#[test]
fn messages_with_names() {
    assert_eq!(
        DaedalusCapErrors::CouldNotFindProgram { looked_up_program_name: "fsd".to_string() }
            .describe(),
        "daedalus capability tried to look up program `fsd`, but could not find any program with that name!"
    );
    assert_eq!(
        DaedalusCapErrors::UnknownDestination("net\"d").describe(),
        format!(
            "daedalus found a call destination `{:?}`, but it is not currently running/was never started!",
            "net\"d"
        )
    );
    assert_eq!(
        DaedalusCapErrors::CallToSelf("netd").describe(),
        "daedalus found a program call that called its own program: `\"netd\"`, this is not good behaviour and explicitly disallowed!"
    );
    assert_eq!(
        DaedalusCapErrors::ReplyTagExpected { found_type: "bool" }.describe(),
        "daedalus expected to find some call tag to reply with, but instead found a `bool`!"
    );
}

#[test]
fn messages_with_numbers() {
    assert_eq!(
        DaedalusCapErrors::RegionOverflow { base: 0xffff_0000, len: 65537 }.describe(),
        "a region was attempted to be created which overflows the available memory of the system, with base `4294901760` and length `65537`."
    );
    assert_eq!(
        DaedalusCapErrors::InvalidRegionPermission(InvalidRegionPermissionBitsError(9)).describe(),
        "daedalus expected a valid set of permission bits in provided permission, however `9` contained invalid permission bits!"
    );
    assert_eq!(
        DaedalusCapErrors::OutOfRegion { offset: 8, width: 4, len: 10 }.describe(),
        "a region access was attempted with offset `8` and width `4`, however this exceeds the bounds of the region which has length `10`."
    );
    assert_eq!(
        DaedalusCapErrors::InterruptAlreadyRegistered {
            interrupt_id: 40,
            original_program: "netd",
            new_program: "uartd",
        }
        .describe(),
        "program `uartd` attempted to register interrupt `40`, but it is already registered to program `netd`!"
    );
}

#[test]
fn messages_with_handles_and_permissions() {
    assert_eq!(
        DaedalusCapErrors::UnknownReplyTag(CallTag(Tag(7))).describe(),
        format!(
            "daedalus found attempt to call non_block_reply with tag `{:?}`, but this tag has no outstanding request to reply with, did it really get allocated by `block_recv`?",
            CallTag(Tag(7))
        )
    );
    assert_eq!(
        DaedalusCapErrors::UnknownRegionHandle(RegionHandle(Tag(12))).describe(),
        format!(
            "daedalus found attempt to invoke region operation with tag `{:?}`, but this tag is not a handle to a region, does it really refer to a valid memory region?",
            RegionHandle(Tag(12))
        )
    );
    assert!(DaedalusCapErrors::UnknownIrqHandle(IrqHandle(Tag(3)))
        .describe()
        .contains("`IrqHandle(Tag(3))`"));
    assert_eq!(
        DaedalusCapErrors::PermissionDenied {
            need: RegionPermissions(0b011),
            held: RegionPermissions(0b101),
        }
        .describe(),
        "region access permission denied: attempted to access with permissions `rw-`, actual held region permissions `r-x`."
    );
}

#[test]
fn different_variants_give_different_messages() {
    let not_declared = DaedalusCapErrors::InterruptNotDeclared {
        interrupt_id: 40,
        program: "a` attempted to register interrupt `40`, but it is already registered to program `b",
    };
    let already = DaedalusCapErrors::InterruptAlreadyRegistered {
        interrupt_id: 40,
        original_program: "b` attempted to register interrupt `40`, but its manifest does not declare it",
        new_program: "a",
    };
    assert_ne!(not_declared.describe(), already.describe());
    assert_ne!(
        DaedalusCapErrors::GrantBaseAboveDaedalus { role: "r", base: 1 }.describe(),
        DaedalusCapErrors::GrantBaseOutsideMemory { role: "r", base: 1 }.describe()
    );
    assert_ne!(
        DaedalusCapErrors::StackUnderflowExpectedCallTag.describe(),
        DaedalusCapErrors::ReplyTagExpected { found_type: "" }.describe()
    );
}
