use seirchain::svm::{SvmError, SvmExecutor};

#[test]
fn new_executor_is_empty() {
    let svm = SvmExecutor::new(4);
    assert!(svm.contract_states.is_empty());
    assert!(svm.execution_queue.is_empty());
}

#[test]
fn execution_stores_input_as_state() {
    let mut svm = SvmExecutor::new(4);
    let shard = svm.begin_execution("contract1", vec![]).unwrap();
    assert!(shard < 4);
    assert!(svm.dependencies_met("contract1"));
    let output = svm.complete_execution("contract1", b"input data");
    assert_eq!(output, b"input data".to_vec());
    assert_eq!(svm.get_contract_state("contract1"), Some(b"input data".to_vec()));
    assert!(svm.contract_exists("contract1"));
    assert!(svm.remove_contract_state("contract1"));
    assert!(!svm.remove_contract_state("contract1"));
    assert!(!svm.contract_exists("contract1"));
}

#[test]
fn empty_contract_id_is_refused() {
    let mut svm = SvmExecutor::new(4);
    assert_eq!(svm.begin_execution("", vec![]), Err(SvmError::EmptyContractId));
    assert_eq!(SvmError::EmptyContractId.message(), "Contract ID cannot be empty");
}

#[test]
fn dependencies_wait_for_states() {
    let mut svm = SvmExecutor::new(4);
    svm.begin_execution("contract2", vec!["contract1".to_string(), "contract1".to_string()]).unwrap();
    assert_eq!(svm.dependencies.get("contract2").unwrap().len(), 1);
    assert!(!svm.dependencies_met("contract2"));
    svm.begin_execution("contract1", vec![]).unwrap();
    svm.complete_execution("contract1", b"input1");
    assert!(svm.dependencies_met("contract2"));
    svm.complete_execution("contract2", b"input2");
    assert_eq!(svm.get_contract_state("contract2"), Some(b"input2".to_vec()));
    svm.clear_contract_states();
    assert!(svm.contract_states.is_empty());
    assert!(svm.dependencies.is_empty());
}

#[test]
fn shard_is_the_multiplicative_hash_of_the_id() {
    let svm = SvmExecutor::new(7);
    let expected = ((b'a' as u64) * 33 + b'b' as u64) % 7;
    assert_eq!(svm.get_shard_id("ab"), expected as usize);
    assert_eq!(svm.get_shard_id(""), 0);
}
