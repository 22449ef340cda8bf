//! Null capabilities and empty slots.
//!
//! A slot is empty iff its type tag is null; minting into an empty slot
//! is how every other capability comes to exist.

use vstd::prelude::*;

use crate::capability::{CapRaw, ObjType};
use crate::cnode::CNodeEntry;

verus! {

/// A typed view of an empty slot.
#[derive(Debug, Clone, Copy)]
pub struct NullCap {
    pub cap: CapRaw,
}

impl NullCap {
    /// The capability record is well-formed for this type.
    pub open spec fn wf(self) -> bool {
        self.cap.cap_type == ObjType::NullObj
    }

    /// The all-null capability record.
    pub fn mint() -> (r: CapRaw)
        ensures
            r == CapRaw::spec_default(),
    {
        CapRaw::default()
    }

    /// Typed view of `slot`, if it is empty.
    pub fn try_from_slot(slot: &CNodeEntry) -> (r: Option<Self>)
        ensures
            match r {
                Some(c) => slot@.cap_type == ObjType::NullObj && c.cap == slot@,
                None => slot@.cap_type != ObjType::NullObj,
            },
    {
        let cap = slot.get();
        if matches!(cap.cap_type, ObjType::NullObj) {
            Some(Self { cap })
        } else {
            None
        }
    }

    /// Replace the contents of an empty slot with a freshly minted
    /// record; the record must not yet be linked into the derivation
    /// chain.
    pub fn insert_raw(slot: &mut CNodeEntry, raw: CapRaw)
        requires
            old(slot)@.cap_type == ObjType::NullObj,
        ensures
            final(slot)@ == raw,
    {
        slot.set(raw);
    }

    /// Describe this capability in the caller's message registers.
    pub fn identify(&self, tcb: &mut crate::tcb::Tcb) -> (r: u64)
        requires
            old(tcb).wf(),
        ensures
            r == 1,
            final(tcb).wf(),
            final(tcb).context.registers@ == old(tcb).context.registers@.update(
                crate::tcb::MR1 as int,
                ObjType::NullObj.spec_code(),
            ),
    {
        tcb.set_mr(crate::tcb::MR1, ObjType::NullObj.code());
        1
    }
}

} // verus!
