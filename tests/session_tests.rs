use llm_inference_service::session::{Orchestrator, Outcome, RequestPhase, SessionError, SessionEvent};

fn run_to_generating(o: &mut Orchestrator, id: u64) {
    assert!(o.try_admit(id));
    assert_eq!(o.advance(id, SessionEvent::InstanceLocked), Ok(RequestPhase::InstanceHeld));
    assert_eq!(o.advance(id, SessionEvent::Started), Ok(RequestPhase::Generating));
}

#[test]
fn only_one_generation_runs() {
    let mut o = Orchestrator::new();
    o.enqueue(1).unwrap();
    o.enqueue(2).unwrap();
    run_to_generating(&mut o, 1);
    assert_eq!(o.running(), Some(1));
    assert!(!o.try_admit(2));
    assert_eq!(o.advance(2, SessionEvent::Started), Err(SessionError::NotHolder));
    assert_eq!(o.advance(1, SessionEvent::Ended(Outcome::Completed)), Ok(RequestPhase::Completed));
    assert_eq!(o.running(), None);
    run_to_generating(&mut o, 2);
    assert_eq!(o.running(), Some(2));
}

#[test]
fn cancelled_stream_releases_the_ticket() {
    let mut o = Orchestrator::new();
    o.enqueue(1).unwrap();
    o.enqueue(2).unwrap();
    run_to_generating(&mut o, 1);
    assert_eq!(o.advance(1, SessionEvent::Ended(Outcome::Cancelled)), Ok(RequestPhase::Cancelled));
    assert!(o.try_admit(2));
    assert_eq!(o.advance(2, SessionEvent::InstanceLocked), Ok(RequestPhase::InstanceHeld));
}

#[test]
fn tickets_go_in_arrival_order() {
    let mut o = Orchestrator::new();
    o.enqueue(5).unwrap();
    o.enqueue(3).unwrap();
    assert!(!o.try_admit(3));
    assert!(o.try_admit(5));
    assert_eq!(o.waiting_len(), 1);
}

#[test]
fn failed_resolution_releases_the_ticket() {
    let mut o = Orchestrator::new();
    o.enqueue(1).unwrap();
    o.enqueue(2).unwrap();
    assert!(o.try_admit(1));
    assert_eq!(o.advance(1, SessionEvent::Started), Err(SessionError::OutOfOrder));
    assert_eq!(o.advance(1, SessionEvent::Ended(Outcome::Failed)), Ok(RequestPhase::Failed));
    assert!(o.try_admit(2));
}

#[test]
fn duplicate_and_withdrawn_requests() {
    let mut o = Orchestrator::new();
    o.enqueue(1).unwrap();
    assert_eq!(o.enqueue(1), Err(SessionError::DuplicateRequest));
    o.enqueue(2).unwrap();
    assert_eq!(o.withdraw(1), Ok(()));
    assert_eq!(o.withdraw(1), Err(SessionError::NotWaiting));
    assert!(o.try_admit(2));
    assert_eq!(o.enqueue(2), Err(SessionError::DuplicateRequest));
}
