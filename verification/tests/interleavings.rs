use zero2prod::dispatcher::{complete_delivery, dequeue_task, ClaimedTask, DeliveryOutcome};
use zero2prod::gateway::{rollback, save_response, try_processing, NextAction, Transaction};
use zero2prod::key::IdempotencyKey;
use zero2prod::outbox::{enqueue_delivery_tasks, insert_newsletter_issue_with_id};
use zero2prod::publish::{publish_newsletter_with_id, FormData, PublishOutcome};
use zero2prod::response::Response;
use zero2prod::store::Store;

struct Dice(u64);

impl Dice {
    fn roll(&mut self, sides: u64) -> u64 {
        self.0 = self.0.wrapping_mul(6364136223846793005).wrapping_add(1442695040888963407);
        (self.0 >> 33) % sides
    }
}

fn store_with_confirmed(n: usize) -> Store {
    let mut store = Store::new();
    for i in 0..n {
        let id = i as u128 + 1;
        store.insert_subscriber_row(id, format!("reader{}@example.com", i), "reader".to_string()).unwrap();
        store.confirm_subscriber(id).unwrap();
    }
    store
}

enum Submitter {
    Asking { may_give_up: bool },
    Holding { transaction: Transaction, stage: u8, may_give_up: bool },
    Done(Response),
}

fn advance(store: &mut Store, submitter: Submitter, me: u128, key: &IdempotencyKey, dice: &mut Dice) -> Submitter {
    match submitter {
        Submitter::Asking { may_give_up } => match try_processing(store, key, 7, 1000 + me as i64) {
            NextAction::StartProcessing(transaction) => {
                Submitter::Holding { transaction, stage: 0, may_give_up }
            }
            NextAction::ReturnSavedResponse(response) => Submitter::Done(response),
            NextAction::Wait => Submitter::Asking { may_give_up },
        },
        Submitter::Holding { transaction, stage, may_give_up } => {
            if may_give_up && dice.roll(4) == 0 {
                rollback(store, transaction).unwrap();
                return Submitter::Asking { may_give_up: false };
            }
            match stage {
                0 => {
                    insert_newsletter_issue_with_id(store, &transaction, 100 + me, "t", "x", "h", 0)
                        .unwrap();
                    Submitter::Holding { transaction, stage: 1, may_give_up }
                }
                1 => {
                    enqueue_delivery_tasks(store, &transaction, 100 + me).unwrap();
                    Submitter::Holding { transaction, stage: 2, may_give_up }
                }
                _ => {
                    let mut response = Response::see_other("/admin/newsletters");
                    response.body = vec![me as u8];
                    Submitter::Done(save_response(store, transaction, response).unwrap())
                }
            }
        }
        done => done,
    }
}

#[test]
fn many_submitters_of_one_command_run_it_once() {
    for seed in 0..200 {
        let mut dice = Dice(seed);
        let mut store = store_with_confirmed(3);
        let key = IdempotencyKey::parse("9f3a".to_string()).unwrap();
        let mut submitters: Vec<Option<Submitter>> =
            (0..5).map(|_| Some(Submitter::Asking { may_give_up: true })).collect();
        let mut steps = 0;
        while submitters.iter().any(|s| !matches!(s, Some(Submitter::Done(_)))) {
            let i = dice.roll(5) as usize;
            let submitter = submitters[i].take().unwrap();
            submitters[i] = Some(advance(&mut store, submitter, i as u128, &key, &mut dice));
            assert!(store.pending_count() <= 1);
            assert!(store.saved_count() <= 1);
            steps += 1;
            assert!(steps < 10_000);
        }
        let responses: Vec<Response> = submitters
            .into_iter()
            .map(|s| match s {
                Some(Submitter::Done(response)) => response,
                _ => unreachable!(),
            })
            .collect();
        for response in &responses {
            assert_eq!(response, &responses[0]);
        }
        assert_eq!(store.saved_count(), 1);
        assert_eq!(store.pending_count(), 0);
        assert_eq!(store.issue_count(), 1);
        assert_eq!(store.queue_len(), 3);
        assert_eq!(store.get_saved_response(7, &key).as_ref(), Some(&responses[0]));
    }
}

#[test]
fn many_dispatchers_process_each_task_once() {
    for seed in 0..200 {
        let mut dice = Dice(seed);
        let mut store = store_with_confirmed(10);
        let form = FormData {
            title: "t".to_string(),
            html_content: "h".to_string(),
            text_content: "x".to_string(),
            idempotency_key: "k".to_string(),
        };
        assert!(matches!(
            publish_newsletter_with_id(&mut store, 7, &form, 42, 0),
            PublishOutcome::Accepted(_)
        ));
        let mut held: Vec<Option<ClaimedTask>> = vec![None, None, None];
        let mut retired: Vec<String> = Vec::new();
        let mut steps = 0;
        while store.queue_len() > 0 {
            let i = dice.roll(3) as usize;
            match held[i].take() {
                None => {
                    held[i] = dequeue_task(&mut store);
                    if let Some(mine) = &held[i] {
                        let holders = held
                            .iter()
                            .flatten()
                            .filter(|task| task.recipient() == mine.recipient())
                            .count();
                        assert_eq!(holders, 1);
                    }
                }
                Some(task) => {
                    let outcome = match dice.roll(3) {
                        0 => DeliveryOutcome::TransientFailure,
                        1 => DeliveryOutcome::PermanentFailure,
                        _ => DeliveryOutcome::Delivered,
                    };
                    let recipient = task.recipient().to_string();
                    complete_delivery(&mut store, task, outcome).unwrap();
                    if outcome != DeliveryOutcome::TransientFailure {
                        retired.push(recipient.clone());
                    }
                    assert_eq!(
                        store.is_queued(42, &recipient),
                        outcome == DeliveryOutcome::TransientFailure
                    );
                }
            }
            steps += 1;
            assert!(steps < 100_000);
        }
        assert!(held.iter().all(|task| task.is_none()));
        retired.sort();
        let mut expected: Vec<String> =
            (0..10).map(|i| format!("reader{}@example.com", i)).collect();
        expected.sort();
        assert_eq!(retired, expected);
    }
}
