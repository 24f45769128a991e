use pytpch::error::DbgenError;
use pytpch::request::{check_partition, generation_outcome};

#[test]
fn step_beyond_count_is_rejected() {
    assert_eq!(
        check_partition(Some(11), Some(10)),
        Err(DbgenError::InvalidPartition { step: 11, n_steps: 10 })
    );
    assert_eq!(
        check_partition(Some(2), Some(1)),
        Err(DbgenError::InvalidPartition { step: 2, n_steps: 1 })
    );
}

#[test]
fn valid_partitions_pass() {
    assert_eq!(check_partition(None, None), Ok(()));
    assert_eq!(check_partition(Some(5), None), Ok(()));
    assert_eq!(check_partition(None, Some(10)), Ok(()));
    assert_eq!(check_partition(Some(10), Some(10)), Ok(()));
    assert_eq!(check_partition(Some(1), Some(10)), Ok(()));
}

#[test]
fn exit_status_is_authoritative() {
    assert_eq!(generation_outcome(0), Ok(()));
    assert_eq!(generation_outcome(1), Err(DbgenError::GenerationFailed { code: 1 }));
    assert_eq!(generation_outcome(-3), Err(DbgenError::GenerationFailed { code: -3 }));
}
