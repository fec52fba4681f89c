use vstd::prelude::*;

verus! {

/// The unique identifier of a clock, fixed when the instance starts.
#[derive(Debug, Clone, Copy, PartialEq, Eq, Structural)]
pub struct ClockIdentity(pub u64);

/// A port: the clock it belongs to and its number on that clock.
#[derive(Debug, Clone, Copy, PartialEq, Eq, Structural)]
pub struct PortIdentity {
    pub clock: ClockIdentity,
    pub port: u16,
}

/// What a time source announces of itself. Lower values are better in every
/// compared field.
#[derive(Debug, Clone, Copy, PartialEq, Eq, Structural)]
pub struct Dataset {
    pub priority_1: u8,
    pub clock_class: u8,
    pub clock_accuracy: u8,
    pub offset_scaled_log_variance: u16,
    pub priority_2: u8,
    pub identity: ClockIdentity,
    pub steps_removed: u16,
}

/// How one dataset compares to another.
#[derive(Debug, Clone, Copy, PartialEq, Eq, Structural)]
pub enum DatasetOrdering {
    Better,
    Worse,
    Same,
}

/// Whether `a` and `b` agree in every compared field.
pub open spec fn same_rank(a: Dataset, b: Dataset) -> bool {
    a.priority_1 == b.priority_1 && a.clock_class == b.clock_class && a.clock_accuracy
        == b.clock_accuracy && a.offset_scaled_log_variance == b.offset_scaled_log_variance
        && a.priority_2 == b.priority_2 && a.identity == b.identity && a.steps_removed
        == b.steps_removed
}

/// Whether `a` is a better source than `b`: the first field in which they
/// differ, in the order priority 1, clock class, clock accuracy, variance,
/// priority 2, identity and steps removed, is lower in `a`.
pub open spec fn better(a: Dataset, b: Dataset) -> bool {
    if a.priority_1 != b.priority_1 {
        a.priority_1 < b.priority_1
    } else if a.clock_class != b.clock_class {
        a.clock_class < b.clock_class
    } else if a.clock_accuracy != b.clock_accuracy {
        a.clock_accuracy < b.clock_accuracy
    } else if a.offset_scaled_log_variance != b.offset_scaled_log_variance {
        a.offset_scaled_log_variance < b.offset_scaled_log_variance
    } else if a.priority_2 != b.priority_2 {
        a.priority_2 < b.priority_2
    } else if a.identity.0 != b.identity.0 {
        a.identity.0 < b.identity.0
    } else {
        a.steps_removed < b.steps_removed
    }
}

/// The comparison of `a` with `b`.
pub open spec fn ordering_of(a: Dataset, b: Dataset) -> DatasetOrdering {
    if better(a, b) {
        DatasetOrdering::Better
    } else if better(b, a) {
        DatasetOrdering::Worse
    } else {
        DatasetOrdering::Same
    }
}

/// Compares two datasets field by field.
pub fn compare(a: &Dataset, b: &Dataset) -> (r: DatasetOrdering)
    ensures
        r == ordering_of(*a, *b),
{
    if a.priority_1 != b.priority_1 {
        return if a.priority_1 < b.priority_1 { DatasetOrdering::Better } else { DatasetOrdering::Worse };
    }
    if a.clock_class != b.clock_class {
        return if a.clock_class < b.clock_class { DatasetOrdering::Better } else { DatasetOrdering::Worse };
    }
    if a.clock_accuracy != b.clock_accuracy {
        return if a.clock_accuracy < b.clock_accuracy {
            DatasetOrdering::Better
        } else {
            DatasetOrdering::Worse
        };
    }
    if a.offset_scaled_log_variance != b.offset_scaled_log_variance {
        return if a.offset_scaled_log_variance < b.offset_scaled_log_variance {
            DatasetOrdering::Better
        } else {
            DatasetOrdering::Worse
        };
    }
    if a.priority_2 != b.priority_2 {
        return if a.priority_2 < b.priority_2 { DatasetOrdering::Better } else { DatasetOrdering::Worse };
    }
    if a.identity.0 != b.identity.0 {
        return if a.identity.0 < b.identity.0 { DatasetOrdering::Better } else { DatasetOrdering::Worse };
    }
    if a.steps_removed != b.steps_removed {
        return if a.steps_removed < b.steps_removed {
            DatasetOrdering::Better
        } else {
            DatasetOrdering::Worse
        };
    }
    DatasetOrdering::Same
}

/// The comparison is a strict total order on the compared fields: comparing
/// in the other direction gives the opposite answer, `Same` comes exactly when
/// every compared field agrees, and being better is transitive.
pub proof fn lemma_compare_strict_total_order(a: Dataset, b: Dataset, c: Dataset)
    ensures
        ordering_of(a, b) == DatasetOrdering::Better <==> ordering_of(b, a) == DatasetOrdering::Worse,
        ordering_of(a, b) == DatasetOrdering::Same <==> ordering_of(b, a) == DatasetOrdering::Same,
        ordering_of(a, b) == DatasetOrdering::Same <==> same_rank(a, b),
        !(better(a, b) && better(b, a)),
        better(a, b) || better(b, a) || same_rank(a, b),
        better(a, b) && better(b, c) ==> better(a, c),
{
}

} // verus!
