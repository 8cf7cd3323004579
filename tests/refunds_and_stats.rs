use vm_outputs::execution_result::{RefundError, Refunds, ResourceUsage};
use vm_outputs::statistic::{VmExecutionStatistics, VmMemoryMetrics};

fn usage(gas_charged: u64, gas_used: u64, slots_charged: u64, slots_used: u64) -> ResourceUsage {
    ResourceUsage { gas_charged, gas_used, slots_charged, slots_used }
}

#[test]
fn refunds_return_unused_resources() {
    assert_eq!(
        Refunds::compute(24, 24, &usage(1000, 600, 10, 3)),
        Ok(Refunds { gas_refunded: 400, slots_refunded: 7 })
    );
}

#[test]
fn refunds_reject_other_protocol_version() {
    assert_eq!(
        Refunds::compute(23, 24, &usage(1000, 600, 10, 3)),
        Err(RefundError::VersionMismatch { rules_version: 23, active_version: 24 })
    );
}

#[test]
fn refunds_reject_overuse() {
    assert_eq!(Refunds::compute(1, 1, &usage(10, 11, 0, 0)), Err(RefundError::UsageExceedsCharge));
    assert_eq!(Refunds::compute(1, 1, &usage(10, 10, 2, 3)), Err(RefundError::UsageExceedsCharge));
    assert_eq!(
        Refunds::compute(1, 1, &usage(10, 10, 3, 3)),
        Ok(Refunds { gas_refunded: 0, slots_refunded: 0 })
    );
}

#[test]
fn statistics_combine_and_overflow_check() {
    let a = VmExecutionStatistics {
        gas_used: 1,
        computational_gas_used: 2,
        cycles_used: 3,
        pubdata_published: 4,
        total_log_queries: 5,
    };
    let b = VmExecutionStatistics {
        gas_used: 10,
        computational_gas_used: 20,
        cycles_used: 30,
        pubdata_published: 40,
        total_log_queries: 50,
    };
    assert!(a.can_combine(&b));
    let c = a.combine(&b);
    assert_eq!(
        c,
        VmExecutionStatistics {
            gas_used: 11,
            computational_gas_used: 22,
            cycles_used: 33,
            pubdata_published: 44,
            total_log_queries: 55,
        }
    );
    let mut full = VmExecutionStatistics::zero();
    full.cycles_used = u64::MAX;
    assert!(!full.can_combine(&a));
    assert!(full.can_combine(&VmExecutionStatistics::zero()));
}

#[test]
fn memory_metrics_merge_by_maximum() {
    let a = VmMemoryMetrics { heap_peak_bytes: 5, stack_peak_bytes: 9, storage_cache_entries: 1 };
    let b = VmMemoryMetrics { heap_peak_bytes: 7, stack_peak_bytes: 2, storage_cache_entries: 1 };
    assert_eq!(
        a.merge(&b),
        VmMemoryMetrics { heap_peak_bytes: 7, stack_peak_bytes: 9, storage_cache_entries: 1 }
    );
    assert_eq!(VmMemoryMetrics::zero().merge(&a), a);
}
