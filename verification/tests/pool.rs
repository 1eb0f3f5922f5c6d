use gemini_fastapi_rs::pool::{AskAction, Failover, Rotation};

#[test]
fn clients_take_turns() {
    let mut rotation = Rotation::new(3);
    assert_eq!(rotation.take_turn(), vec![0, 1, 2]);
    assert_eq!(rotation.take_turn(), vec![1, 2, 0]);
    assert_eq!(rotation.take_turn(), vec![2, 0, 1]);
    assert_eq!(rotation.take_turn(), vec![0, 1, 2]);
    assert_eq!(Rotation::new(0).take_turn(), Vec::<usize>::new());
    let mut single = Rotation::new(1);
    assert_eq!(single.take_turn(), vec![0]);
    assert_eq!(single.take_turn(), vec![0]);
}

fn asked(action: AskAction) -> usize {
    match action {
        AskAction::Ask(client) => client,
        other => panic!("{:?}", other),
    }
}

#[test]
fn first_client_that_answers_gives_the_answer() {
    let mut failover = Failover::new(vec![1, 2, 0]);
    assert_eq!(asked(failover.step(None)), 1);
    assert_eq!(asked(failover.step(Some(Err("a".to_string())))), 2);
    match failover.step(Some(Ok("hi".to_string()))) {
        AskAction::Answer(answer) => assert_eq!(answer, "hi"),
        other => panic!("{:?}", other),
    }
    assert_eq!(failover.asked, 2);
}

#[test]
fn requests_fail_when_all_clients_fail() {
    let mut failover = Failover::new(vec![1, 0]);
    assert_eq!(asked(failover.step(None)), 1);
    assert_eq!(asked(failover.step(Some(Err("a".to_string())))), 0);
    match failover.step(Some(Err("b".to_string()))) {
        AskAction::Fail(error) => assert_eq!(error, "b"),
        other => panic!("{:?}", other),
    }
    match Failover::new(Vec::new()).step(None) {
        AskAction::Fail(error) => assert_eq!(error, "no Gemini client is configured"),
        other => panic!("{:?}", other),
    }
}
