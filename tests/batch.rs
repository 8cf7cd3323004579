use vm_outputs::execution_result::{
    ExecutionResult, HaltReason, L2ToL1Message, Refunds, StorageLogEntry, VmEvent, VmExecutionLogs,
    VmExecutionResultAndLogs,
};
use vm_outputs::execution_state::{BootloaderMemory, CurrentExecutionState, StateDiff};
use vm_outputs::finished_l1batch::{BatchError, L1BatchBuilder};
use vm_outputs::pubdata::PubdataInput;
use vm_outputs::statistic::VmExecutionStatistics;

fn stats(gas: u64) -> VmExecutionStatistics {
    VmExecutionStatistics {
        gas_used: gas,
        computational_gas_used: gas / 2,
        cycles_used: gas * 3,
        pubdata_published: 1,
        total_log_queries: 2,
    }
}

fn write(key: u64, previous_value: u64, value: u64, is_first_write: bool) -> StorageLogEntry {
    StorageLogEntry { key, previous_value, value, is_first_write }
}

fn tx(result: ExecutionResult, writes: Vec<StorageLogEntry>, messages: Vec<L2ToL1Message>, codes: Vec<Vec<u8>>, gas: u64) -> VmExecutionResultAndLogs {
    VmExecutionResultAndLogs {
        result,
        logs: VmExecutionLogs {
            events: vec![],
            l2_to_l1_messages: messages,
            storage_logs: writes,
            published_bytecodes: codes,
        },
        refunds: Refunds { gas_refunded: 0, slots_refunded: 0 },
        statistics: stats(gas),
    }
}

fn ok() -> ExecutionResult {
    ExecutionResult::Success { return_data: vec![] }
}

fn memory() -> BootloaderMemory {
    BootloaderMemory { words: vec![(0, 7)] }
}

#[test]
fn two_writes_of_one_key_give_one_diff() {
    let mut b = L1BatchBuilder::new();
    b.start_l2_block(1, 100).unwrap();
    b.append_transaction(tx(ok(), vec![write(0xAA, 0, 1, true)], vec![], vec![], 10)).unwrap();
    b.append_transaction(tx(ok(), vec![write(0xAA, 1, 2, false)], vec![], vec![], 20)).unwrap();
    let f = b.seal(memory()).unwrap();
    assert_eq!(
        f.pubdata.state_diffs,
        vec![StateDiff { key: 0xAA, initial_value: 0, final_value: 2, is_first_write: true }]
    );
    assert_eq!(f.statistics.gas_used, 30);
    assert_eq!(f.statistics.computational_gas_used, 15);
    assert_eq!(f.statistics.cycles_used, 90);
    assert_eq!(f.statistics.pubdata_published, 2);
    assert_eq!(f.statistics.total_log_queries, 4);
}

#[test]
fn last_writer_wins_keeps_first_flag() {
    let mut s = CurrentExecutionState::new();
    s.append(&tx(ok(), vec![write(5, 9, 1, false), write(6, 0, 3, true), write(5, 1, 4, true)], vec![], vec![], 1));
    assert_eq!(
        s.storage_diffs,
        vec![
            StateDiff { key: 5, initial_value: 9, final_value: 4, is_first_write: false },
            StateDiff { key: 6, initial_value: 0, final_value: 3, is_first_write: true },
        ]
    );
}

#[test]
fn halted_transaction_contributes_statistics_only() {
    let mut s = CurrentExecutionState::new();
    let msg = L2ToL1Message { sender: 1, key: 2, value: 3 };
    s.append(&tx(
        ExecutionResult::Halt { reason: HaltReason::InvalidBytecode },
        vec![write(1, 0, 1, true)],
        vec![msg],
        vec![vec![1, 2]],
        50,
    ));
    assert!(s.storage_diffs.is_empty());
    assert!(s.l2_to_l1_messages.is_empty());
    assert!(s.deployed_bytecodes.is_empty());
    assert_eq!(s.statistics.gas_used, 50);
}

#[test]
fn reverted_transaction_still_counts() {
    let mut s = CurrentExecutionState::new();
    s.append(&tx(ExecutionResult::Revert { reason: vec![1] }, vec![write(1, 0, 1, true)], vec![], vec![], 5));
    assert_eq!(s.storage_diffs.len(), 1);
    assert_eq!(s.statistics.gas_used, 5);
}

#[test]
fn block_numbers_must_increase() {
    let mut b = L1BatchBuilder::new();
    assert_eq!(b.start_l2_block(3, 100), Ok(()));
    assert_eq!(b.start_l2_block(3, 100), Err(BatchError::BlockOrder));
    assert_eq!(b.start_l2_block(2, 200), Err(BatchError::BlockOrder));
    assert_eq!(b.start_l2_block(4, 99), Err(BatchError::BlockOrder));
    assert_eq!(b.start_l2_block(4, 100), Ok(()));
    let f = b.seal(memory()).unwrap();
    let numbers: Vec<u64> = f.l2_blocks.iter().map(|b| b.number).collect();
    assert_eq!(numbers, vec![3, 4]);
}

#[test]
fn transaction_before_block_fails() {
    let mut b = L1BatchBuilder::new();
    assert_eq!(b.append_transaction(tx(ok(), vec![], vec![], vec![], 1)), Err(BatchError::NoOpenBlock));
}

#[test]
fn statistics_overflow_is_refused() {
    let mut b = L1BatchBuilder::new();
    b.start_l2_block(1, 1).unwrap();
    let mut big = tx(ok(), vec![], vec![], vec![], 0);
    big.statistics.gas_used = u64::MAX;
    b.append_transaction(big.clone()).unwrap();
    let mut more = tx(ok(), vec![], vec![], vec![], 0);
    more.statistics.gas_used = 1;
    assert_eq!(b.append_transaction(more), Err(BatchError::StatisticsOverflow));
}

#[test]
fn empty_batch_seals_to_empty_pubdata() {
    let mut b = L1BatchBuilder::new();
    let f = b.seal(memory()).unwrap();
    assert!(f.pubdata.is_empty());
    assert_eq!(f.statistics, VmExecutionStatistics::zero());
    assert_eq!(f.pubdata_bytes, vec![0u8; 24]);
    assert!(f.l2_blocks.is_empty());
}

#[test]
fn sealing_twice_fails() {
    let mut b = L1BatchBuilder::new();
    b.start_l2_block(1, 1).unwrap();
    assert!(b.seal(memory()).is_ok());
    assert_eq!(b.seal(memory()).err(), Some(BatchError::DoubleSeal));
    assert_eq!(b.append_transaction(tx(ok(), vec![], vec![], vec![], 1)), Err(BatchError::AppendAfterSeal));
    assert_eq!(b.start_l2_block(2, 2), Err(BatchError::AppendAfterSeal));
}

#[test]
fn building_pubdata_twice_is_identical() {
    let mut s = CurrentExecutionState::new();
    s.append(&tx(ok(), vec![write(9, 0, 1, true), write(2, 0, 5, true)], vec![], vec![vec![7]], 1));
    let p = PubdataInput::build(&s);
    let q = PubdataInput::build(&s);
    assert_eq!(p, q);
    assert_eq!(p.to_bytes(), q.to_bytes());
}

#[test]
fn same_transactions_give_same_batch() {
    let run = || {
        let mut b = L1BatchBuilder::new();
        b.start_l2_block(1, 10).unwrap();
        b.append_transaction(tx(ok(), vec![write(3, 0, 1, true)], vec![L2ToL1Message { sender: 1, key: 1, value: 1 }], vec![vec![1]], 4)).unwrap();
        b.start_l2_block(2, 10).unwrap();
        b.append_transaction(tx(ok(), vec![write(1, 0, 8, true), write(3, 1, 2, false)], vec![], vec![vec![1], vec![2]], 6)).unwrap();
        b.seal(memory()).unwrap()
    };
    let a = run();
    let b = run();
    assert_eq!(a.pubdata_bytes, b.pubdata_bytes);
    assert_eq!(a.statistics, b.statistics);
    assert_eq!(a.l2_blocks.len(), 2);
    assert_eq!(a.l2_blocks[1].statistics.gas_used, 6);
}

#[test]
fn statistics_add_field_by_field() {
    let mut s = CurrentExecutionState::new();
    s.append(&tx(ok(), vec![], vec![], vec![], 7));
    s.append(&tx(ok(), vec![], vec![], vec![], 11));
    assert_eq!(s.statistics, stats(7).combine(&stats(11)));
    assert_eq!(s.statistics.gas_used, 18);
    assert_eq!(s.statistics.cycles_used, 54);
}

#[test]
fn diffs_are_sorted_and_no_op_diffs_dropped() {
    let mut s = CurrentExecutionState::new();
    s.append(&tx(ok(), vec![write(30, 0, 1, true), write(10, 4, 4, true), write(20, 0, 2, false)], vec![], vec![], 1));
    let p = PubdataInput::build(&s);
    let keys: Vec<u64> = p.state_diffs.iter().map(|d| d.key).collect();
    assert_eq!(keys, vec![20, 30]);
}

#[test]
fn write_back_to_initial_value_is_not_published() {
    let mut s = CurrentExecutionState::new();
    s.append(&tx(ok(), vec![write(1, 5, 6, true)], vec![], vec![], 1));
    s.append(&tx(ok(), vec![write(1, 6, 5, false)], vec![], vec![], 1));
    assert!(PubdataInput::build(&s).state_diffs.is_empty());
}

#[test]
fn messages_keep_emission_order() {
    let mut s = CurrentExecutionState::new();
    let m1 = L2ToL1Message { sender: 9, key: 1, value: 1 };
    let m2 = L2ToL1Message { sender: 1, key: 2, value: 2 };
    s.append(&tx(ok(), vec![], vec![m1], vec![], 1));
    s.append(&tx(ok(), vec![], vec![m2], vec![], 1));
    assert_eq!(PubdataInput::build(&s).l2_to_l1_messages, vec![m1, m2]);
}

#[test]
fn bytecodes_are_deduplicated() {
    let mut s = CurrentExecutionState::new();
    s.append(&tx(ok(), vec![], vec![], vec![vec![1, 2], vec![3], vec![1, 2]], 1));
    s.append(&tx(ok(), vec![], vec![], vec![vec![3], vec![4]], 1));
    assert_eq!(s.deployed_bytecodes, vec![vec![1, 2], vec![3], vec![4]]);
}

#[test]
fn pubdata_byte_layout() {
    let mut s = CurrentExecutionState::new();
    s.append(&tx(
        ok(),
        vec![write(0x0102, 0, 0x0A, true)],
        vec![L2ToL1Message { sender: 1, key: 2, value: 3 }],
        vec![vec![0xEE, 0xFF]],
        1,
    ));
    let bytes = PubdataInput::build(&s).to_bytes();
    let mut expected: Vec<u8> = vec![];
    expected.extend_from_slice(&1u64.to_be_bytes());
    expected.extend_from_slice(&0x0102u64.to_be_bytes());
    expected.extend_from_slice(&0x0Au64.to_be_bytes());
    expected.push(1);
    expected.extend_from_slice(&1u64.to_be_bytes());
    expected.extend_from_slice(&1u64.to_be_bytes());
    expected.extend_from_slice(&2u64.to_be_bytes());
    expected.extend_from_slice(&3u64.to_be_bytes());
    expected.extend_from_slice(&1u64.to_be_bytes());
    expected.extend_from_slice(&2u64.to_be_bytes());
    expected.extend_from_slice(&[0xEE, 0xFF]);
    assert_eq!(bytes, expected);
}

#[test]
fn execution_result_classification() {
    assert!(!ok().is_failed());
    assert!(ExecutionResult::Revert { reason: vec![] }.is_failed());
    let halt = ExecutionResult::Halt { reason: HaltReason::OutOfGasForSystemCall };
    assert!(halt.is_failed());
    assert!(halt.is_halt());
    assert!(!ok().is_halt());
}

#[test]
fn logs_collect_in_order() {
    let mut logs = VmExecutionLogs::empty();
    logs.push_event(VmEvent { address: 1, topic: 2, value: 3 });
    logs.push_message(L2ToL1Message { sender: 4, key: 5, value: 6 });
    logs.push_storage_log(write(7, 0, 8, true));
    logs.push_storage_log(write(7, 8, 9, false));
    logs.push_bytecode(vec![1, 2, 3]);
    assert_eq!(logs.events, vec![VmEvent { address: 1, topic: 2, value: 3 }]);
    assert_eq!(logs.l2_to_l1_messages, vec![L2ToL1Message { sender: 4, key: 5, value: 6 }]);
    assert_eq!(logs.storage_logs, vec![write(7, 0, 8, true), write(7, 8, 9, false)]);
    assert_eq!(logs.published_bytecodes, vec![vec![1, 2, 3]]);
}
