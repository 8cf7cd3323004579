use vstd::prelude::*;

verus! {

/// Counters gathered while executing one transaction, a block or a batch.
/// They are combined field by field by addition.
#[derive(Clone, Copy, Debug, PartialEq, Eq, Structural)]
pub struct VmExecutionStatistics {
    pub gas_used: u64,
    pub computational_gas_used: u64,
    pub cycles_used: u64,
    pub pubdata_published: u64,
    pub total_log_queries: u64,
}

impl VmExecutionStatistics {
    /// All counters at zero.
    pub open spec fn spec_zero() -> Self {
        VmExecutionStatistics {
            gas_used: 0,
            computational_gas_used: 0,
            cycles_used: 0,
            pubdata_published: 0,
            total_log_queries: 0,
        }
    }

    /// Every field-wise sum of `self` and `o` fits in a `u64`.
    pub open spec fn sum_fits(self, o: Self) -> bool {
        &&& self.gas_used + o.gas_used <= u64::MAX
        &&& self.computational_gas_used + o.computational_gas_used <= u64::MAX
        &&& self.cycles_used + o.cycles_used <= u64::MAX
        &&& self.pubdata_published + o.pubdata_published <= u64::MAX
        &&& self.total_log_queries + o.total_log_queries <= u64::MAX
    }

    /// The field-wise sum (meaningful where `sum_fits` holds).
    pub open spec fn spec_sum(self, o: Self) -> Self {
        VmExecutionStatistics {
            gas_used: (self.gas_used + o.gas_used) as u64,
            computational_gas_used: (self.computational_gas_used + o.computational_gas_used) as u64,
            cycles_used: (self.cycles_used + o.cycles_used) as u64,
            pubdata_published: (self.pubdata_published + o.pubdata_published) as u64,
            total_log_queries: (self.total_log_queries + o.total_log_queries) as u64,
        }
    }

    /// Adding in two steps is adding the sum of the two.
    pub proof fn lemma_sum_assoc(a: Self, b: Self, c: Self)
        requires
            a.sum_fits(b),
            a.spec_sum(b).sum_fits(c),
        ensures
            b.sum_fits(c),
            a.sum_fits(b.spec_sum(c)),
            a.spec_sum(b).spec_sum(c) == a.spec_sum(b.spec_sum(c)),
    {
    }

    pub fn zero() -> (r: Self)
        ensures
            r == Self::spec_zero(),
    {
        VmExecutionStatistics {
            gas_used: 0,
            computational_gas_used: 0,
            cycles_used: 0,
            pubdata_published: 0,
            total_log_queries: 0,
        }
    }

    /// Field-wise sum of two sets of counters.
    pub fn combine(&self, other: &Self) -> (r: Self)
        requires
            self.sum_fits(*other),
        ensures
            r == self.spec_sum(*other),
    {
        VmExecutionStatistics {
            gas_used: self.gas_used + other.gas_used,
            computational_gas_used: self.computational_gas_used + other.computational_gas_used,
            cycles_used: self.cycles_used + other.cycles_used,
            pubdata_published: self.pubdata_published + other.pubdata_published,
            total_log_queries: self.total_log_queries + other.total_log_queries,
        }
    }

    /// Whether `combine` may be called on these two values.
    pub fn can_combine(&self, other: &Self) -> (r: bool)
        ensures
            r == self.sum_fits(*other),
    {
        self.gas_used <= u64::MAX - other.gas_used
            && self.computational_gas_used <= u64::MAX - other.computational_gas_used
            && self.cycles_used <= u64::MAX - other.cycles_used
            && self.pubdata_published <= u64::MAX - other.pubdata_published
            && self.total_log_queries <= u64::MAX - other.total_log_queries
    }
}

/// Memory high-water marks; combined field by field by maximum.
#[derive(Clone, Copy, Debug, PartialEq, Eq, Structural)]
pub struct VmMemoryMetrics {
    pub heap_peak_bytes: u64,
    pub stack_peak_bytes: u64,
    pub storage_cache_entries: u64,
}

pub open spec fn max_u64(a: u64, b: u64) -> u64 {
    if a >= b { a } else { b }
}

impl VmMemoryMetrics {
    pub open spec fn spec_merge(self, o: Self) -> Self {
        VmMemoryMetrics {
            heap_peak_bytes: max_u64(self.heap_peak_bytes, o.heap_peak_bytes),
            stack_peak_bytes: max_u64(self.stack_peak_bytes, o.stack_peak_bytes),
            storage_cache_entries: max_u64(self.storage_cache_entries, o.storage_cache_entries),
        }
    }

    pub fn zero() -> (r: Self)
        ensures
            r.heap_peak_bytes == 0 && r.stack_peak_bytes == 0 && r.storage_cache_entries == 0,
    {
        VmMemoryMetrics { heap_peak_bytes: 0, stack_peak_bytes: 0, storage_cache_entries: 0 }
    }

    /// Field-wise maximum of two sets of high-water marks.
    pub fn merge(&self, other: &Self) -> (r: Self)
        ensures
            r == self.spec_merge(*other),
    {
        VmMemoryMetrics {
            heap_peak_bytes: if self.heap_peak_bytes >= other.heap_peak_bytes {
                self.heap_peak_bytes
            } else {
                other.heap_peak_bytes
            },
            stack_peak_bytes: if self.stack_peak_bytes >= other.stack_peak_bytes {
                self.stack_peak_bytes
            } else {
                other.stack_peak_bytes
            },
            storage_cache_entries: if self.storage_cache_entries >= other.storage_cache_entries {
                self.storage_cache_entries
            } else {
                other.storage_cache_entries
            },
        }
    }
}

} // verus!
