use gossip_broadcast::counter::{
    counter_start, counter_step, CounterAction, CounterEvent, CounterRequest,
};

#[test]
fn init_seeds_the_key_with_zero() {
    let (task, action) = counter_start(CounterRequest::Init);
    assert!(task.is_none());
    assert_eq!(action, CounterAction::Put { value: 0 });
}

#[test]
fn add_reads_then_swaps_to_the_raised_value() {
    let (task, action) = counter_start(CounterRequest::Add { delta: 5 });
    assert_eq!(action, CounterAction::Get);
    let (task, action) = counter_step(task.unwrap(), CounterEvent::GetOk { value: 10 });
    assert_eq!(action, CounterAction::Cas { from: 10, to: 15, create_if_missing: true });
    let (task, action) = counter_step(task.unwrap(), CounterEvent::CasOk);
    assert!(task.is_none());
    assert_eq!(action, CounterAction::ReplyOk);
}

#[test]
fn a_missing_key_counts_as_zero_on_the_first_read() {
    let (task, _) = counter_start(CounterRequest::Add { delta: 3 });
    let (task, action) = counter_step(task.unwrap(), CounterEvent::GetFailed);
    assert_eq!(action, CounterAction::Cas { from: 0, to: 3, create_if_missing: true });
    assert!(task.is_some());
}

#[test]
fn a_lost_swap_rereads_and_retries() {
    let (task, _) = counter_start(CounterRequest::Add { delta: 5 });
    let (task, _) = counter_step(task.unwrap(), CounterEvent::GetOk { value: 10 });
    let (task, action) = counter_step(task.unwrap(), CounterEvent::CasFailed);
    assert_eq!(action, CounterAction::Get);
    let (task, action) = counter_step(task.unwrap(), CounterEvent::GetOk { value: 12 });
    assert_eq!(action, CounterAction::Cas { from: 12, to: 17, create_if_missing: true });
    let (task, action) = counter_step(task.unwrap(), CounterEvent::CasOk);
    assert!(task.is_none());
    assert_eq!(action, CounterAction::ReplyOk);
}

#[test]
fn a_failed_reread_surfaces_the_error() {
    let (task, _) = counter_start(CounterRequest::Add { delta: 5 });
    let (task, _) = counter_step(task.unwrap(), CounterEvent::GetOk { value: 10 });
    let (task, _) = counter_step(task.unwrap(), CounterEvent::CasFailed);
    let (task, action) = counter_step(task.unwrap(), CounterEvent::GetFailed);
    assert!(task.is_none());
    assert_eq!(action, CounterAction::Fail);
}

#[test]
fn read_confirms_the_value_with_a_swap_to_itself() {
    let (task, action) = counter_start(CounterRequest::Read);
    assert_eq!(action, CounterAction::Get);
    let (task, action) = counter_step(task.unwrap(), CounterEvent::GetOk { value: 21 });
    assert_eq!(action, CounterAction::Cas { from: 21, to: 21, create_if_missing: true });
    let (task, action) = counter_step(task.unwrap(), CounterEvent::CasOk);
    assert!(task.is_none());
    assert_eq!(action, CounterAction::ReplyValue { value: 21 });
}
