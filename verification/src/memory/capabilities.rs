//! The memory capabilities.
use vstd::prelude::*;
use vstd::utf8::encode_utf8_decode_utf8;

use crate::errors::DaedalusCapErrors;
use crate::ipc::capabilities::{
    DaedalusVm, VmView, str_from_utf8, string_chars, string_value_bytes, vm_handles_fresh,
};
use crate::irq::capabilities::popped;
use crate::values::Value;

verus! {

/// `mem_grant`: consumes the grant role on top of the stack, a string
/// value (an array of `UInt` bytes), and pushes the handle of the region
/// that the current program was granted under that role.
///
///     [<top> role]  ->  [<top> region]
///
/// This is how programs first receive their regions.
pub fn cap_mem_grant(virtual_machine: &mut DaedalusVm) -> (result: Result<(), DaedalusCapErrors>)
    ensures
        old(virtual_machine)@.stack.len() == 0 ==> {
            &&& result == Err::<(), _>(DaedalusCapErrors::StackUnderflowExpectedGrantRole)
            &&& final(virtual_machine)@ == old(virtual_machine)@
        },
        old(virtual_machine)@.stack.len() > 0 ==> {
            let vm = old(virtual_machine)@;
            let role = string_chars(vm.heap, vm.stack.last());
            &&& role is None ==> {
                &&& result == Err::<(), _>(DaedalusCapErrors::GrantRoleExpected)
                &&& final(virtual_machine)@ == popped(vm)
            }
            &&& role matches Some(r) ==> match vm.state.named_grants.get(r) {
                Some(handle) => {
                    &&& result is Ok
                    &&& final(virtual_machine)@ == (VmView {
                        stack: vm.stack.drop_last().push(Value::Tag(handle.0)),
                        ..vm
                    })
                },
                None => {
                    &&& result matches Err(DaedalusCapErrors::CouldNotFindGrantRole { looked_up_role })
                        && looked_up_role@ == r
                    &&& final(virtual_machine)@ == popped(vm)
                },
            }
        },
        vm_handles_fresh(old(virtual_machine)@) ==> vm_handles_fresh(final(virtual_machine)@),
{
    let name_value = match virtual_machine.stack.pop() {
        Some(value) => value,
        None => {
            return Err(DaedalusCapErrors::StackUnderflowExpectedGrantRole);
        },
    };
    // A string is an array of byte-sized `UInt`s, which must be UTF-8.
    let bytes = match string_value_bytes(&name_value, &virtual_machine.heap) {
        Some(bytes) => bytes,
        None => {
            return Err(DaedalusCapErrors::GrantRoleExpected);
        },
    };
    let role = match str_from_utf8(bytes.as_slice()) {
        Some(role) => role,
        None => {
            return Err(DaedalusCapErrors::GrantRoleExpected);
        },
    };
    proof {
        encode_utf8_decode_utf8(role@);
    }
    let handle = match virtual_machine.capability_state.named_grants.get(role) {
        Some(handle) => handle,
        None => {
            return Err(DaedalusCapErrors::CouldNotFindGrantRole { looked_up_role: role.to_owned() });
        },
    };
    virtual_machine.stack.push(Value::Tag(handle.0));
    Ok(())
}

} // verus!
