use vstd::prelude::*;
use crate::statistic::VmExecutionStatistics;

verus! {

/// An event emitted by a contract.
#[derive(Clone, Copy, Debug, PartialEq, Eq, Structural)]
pub struct VmEvent {
    pub address: u64,
    pub topic: u64,
    pub value: u64,
}

/// A message from layer two to layer one: a fixed-width sender and payload.
#[derive(Clone, Copy, Debug, PartialEq, Eq, Structural)]
pub struct L2ToL1Message {
    pub sender: u64,
    pub key: u64,
    pub value: u64,
}

/// One write to storage: the key, the value before and after, and whether
/// it is the first write of the key in the batch.
#[derive(Clone, Copy, Debug, PartialEq, Eq, Structural)]
pub struct StorageLogEntry {
    pub key: u64,
    pub previous_value: u64,
    pub value: u64,
    pub is_first_write: bool,
}

/// Why a transaction halted.
#[derive(Clone, Copy, Debug, PartialEq, Eq, Structural)]
pub enum HaltReason {
    OutOfGasForSystemCall,
    InvalidBytecode,
    ResourceLimitExceeded,
}

/// How the execution of a transaction ended.
#[derive(Clone, Debug, PartialEq, Eq)]
pub enum ExecutionResult {
    /// The transaction succeeded.
    Success { return_data: Vec<u8> },
    /// The transaction reverted: its effects are undone, its gas is charged.
    Revert { reason: Vec<u8> },
    /// The transaction halted: it contributes no state effects.
    Halt { reason: HaltReason },
}

impl ExecutionResult {
    pub fn is_failed(&self) -> (r: bool)
        ensures
            r == !(self is Success),
    {
        !matches!(self, ExecutionResult::Success { .. })
    }

    pub fn is_halt(&self) -> (r: bool)
        ensures
            r == (self is Halt),
    {
        matches!(self, ExecutionResult::Halt { .. })
    }
}

/// Resources returned to the payer after execution.
#[derive(Clone, Copy, Debug, PartialEq, Eq, Structural)]
pub struct Refunds {
    pub gas_refunded: u64,
    pub slots_refunded: u64,
}

/// What a transaction was charged for and what it used.
#[derive(Clone, Copy, Debug, PartialEq, Eq, Structural)]
pub struct ResourceUsage {
    pub gas_charged: u64,
    pub gas_used: u64,
    pub slots_charged: u64,
    pub slots_used: u64,
}

/// Why refunds could not be computed.
#[derive(Clone, Copy, Debug, PartialEq, Eq, Structural)]
pub enum RefundError {
    /// The refund rules belong to another protocol version than the active one.
    VersionMismatch { rules_version: u16, active_version: u16 },
    /// More gas or storage slots were used than charged.
    UsageExceedsCharge,
}

impl Refunds {
    /// Refunds of the unused gas and storage slots, under refund rules of
    /// `rules_version`, which must be the active protocol version.
    pub fn compute(rules_version: u16, active_version: u16, usage: &ResourceUsage) -> (r: Result<
        Refunds,
        RefundError,
    >)
        ensures
            rules_version != active_version ==> r == Err::<Refunds, RefundError>(
                RefundError::VersionMismatch { rules_version, active_version },
            ),
            rules_version == active_version && (usage.gas_used > usage.gas_charged
                || usage.slots_used > usage.slots_charged) ==> r == Err::<Refunds, RefundError>(
                RefundError::UsageExceedsCharge,
            ),
            r is Ok <==> rules_version == active_version && usage.gas_used <= usage.gas_charged
                && usage.slots_used <= usage.slots_charged,
            r matches Ok(f) ==> f.gas_refunded == usage.gas_charged - usage.gas_used
                && f.slots_refunded == usage.slots_charged - usage.slots_used
                && f.gas_refunded <= usage.gas_charged && f.slots_refunded <= usage.slots_charged,
    {
        if rules_version != active_version {
            return Err(RefundError::VersionMismatch { rules_version, active_version });
        }
        if usage.gas_used > usage.gas_charged || usage.slots_used > usage.slots_charged {
            return Err(RefundError::UsageExceedsCharge);
        }
        Ok(Refunds {
            gas_refunded: usage.gas_charged - usage.gas_used,
            slots_refunded: usage.slots_charged - usage.slots_used,
        })
    }
}

/// Everything one transaction produced, in the order it was produced.
#[derive(Clone, Debug, PartialEq, Eq)]
pub struct VmExecutionLogs {
    pub events: Vec<VmEvent>,
    pub l2_to_l1_messages: Vec<L2ToL1Message>,
    pub storage_logs: Vec<StorageLogEntry>,
    pub published_bytecodes: Vec<Vec<u8>>,
}

impl VmExecutionLogs {
    pub fn empty() -> (r: Self)
        ensures
            r.events@.len() == 0,
            r.l2_to_l1_messages@.len() == 0,
            r.storage_logs@.len() == 0,
            r.published_bytecodes@.len() == 0,
    {
        VmExecutionLogs {
            events: Vec::new(),
            l2_to_l1_messages: Vec::new(),
            storage_logs: Vec::new(),
            published_bytecodes: Vec::new(),
        }
    }

    pub fn push_event(&mut self, e: VmEvent)
        ensures
            final(self).events@ == old(self).events@.push(e),
            final(self).l2_to_l1_messages == old(self).l2_to_l1_messages,
            final(self).storage_logs == old(self).storage_logs,
            final(self).published_bytecodes == old(self).published_bytecodes,
    {
        self.events.push(e);
    }

    pub fn push_message(&mut self, m: L2ToL1Message)
        ensures
            final(self).l2_to_l1_messages@ == old(self).l2_to_l1_messages@.push(m),
            final(self).events == old(self).events,
            final(self).storage_logs == old(self).storage_logs,
            final(self).published_bytecodes == old(self).published_bytecodes,
    {
        self.l2_to_l1_messages.push(m);
    }

    pub fn push_storage_log(&mut self, e: StorageLogEntry)
        ensures
            final(self).storage_logs@ == old(self).storage_logs@.push(e),
            final(self).events == old(self).events,
            final(self).l2_to_l1_messages == old(self).l2_to_l1_messages,
            final(self).published_bytecodes == old(self).published_bytecodes,
    {
        self.storage_logs.push(e);
    }

    pub fn push_bytecode(&mut self, code: Vec<u8>)
        ensures
            final(self).published_bytecodes@ == old(self).published_bytecodes@.push(code),
            final(self).events == old(self).events,
            final(self).l2_to_l1_messages == old(self).l2_to_l1_messages,
            final(self).storage_logs == old(self).storage_logs,
    {
        self.published_bytecodes.push(code);
    }
}

/// The outcome of one transaction: how it ended, what it logged, what it is
/// refunded and what it cost.
#[derive(Clone, Debug, PartialEq, Eq)]
pub struct VmExecutionResultAndLogs {
    pub result: ExecutionResult,
    pub logs: VmExecutionLogs,
    pub refunds: Refunds,
    pub statistics: VmExecutionStatistics,
}

} // verus!
