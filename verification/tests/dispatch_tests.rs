use adcrawl::dispatch::{successes, Dispatcher, Step};

fn run(tasks: usize, limit: usize, fails: &dyn Fn(usize) -> bool) -> (Vec<Option<usize>>, usize, Vec<usize>) {
    let mut d = Dispatcher::<usize>::new(tasks, limit).unwrap();
    let mut under_way: Vec<usize> = Vec::new();
    let mut most = 0;
    let mut order = Vec::new();
    loop {
        match d.poll() {
            Step::Start(task) => {
                order.push(task);
                under_way.push(task);
                assert_eq!(d.running(), under_way.len());
                assert!(under_way.len() <= limit);
                most = most.max(under_way.len());
            }
            Step::Wait => {
                assert!(!under_way.is_empty());
                let task = under_way.remove(under_way.len() / 2);
                let outcome = if fails(task) { None } else { Some(task * 10) };
                assert!(d.complete(task, outcome));
                assert_eq!(d.running(), under_way.len());
            }
            Step::Done => break,
        }
    }
    assert!(under_way.is_empty());
    assert!(d.is_done());
    (d.into_outcomes().unwrap(), most, order)
}

#[test]
fn dispatcher_never_runs_more_than_the_limit() {
    for tasks in 0..25usize {
        for limit in 1..12usize {
            let (outcomes, most, order) = run(tasks, limit, &|_| false);
            assert_eq!(outcomes.len(), tasks);
            assert!(most <= limit);
            assert_eq!(most, tasks.min(limit));
            assert_eq!(order, (0..tasks).collect::<Vec<usize>>());
            for (task, outcome) in outcomes.iter().enumerate() {
                assert_eq!(*outcome, Some(task * 10));
            }
        }
    }
}

#[test]
fn dispatcher_gives_one_outcome_for_each_task_when_some_fail() {
    let (outcomes, most, order) = run(23, 10, &|task| task % 3 == 1);
    assert_eq!(outcomes.len(), 23);
    assert_eq!(most, 10);
    assert_eq!(order.len(), 23);
    for (task, outcome) in outcomes.iter().enumerate() {
        if task % 3 == 1 {
            assert_eq!(*outcome, None);
        } else {
            assert_eq!(*outcome, Some(task * 10));
        }
    }
}

#[test]
fn dispatcher_goes_on_when_every_task_fails() {
    let (outcomes, _, order) = run(15, 4, &|_| true);
    assert_eq!(outcomes, vec![None; 15]);
    assert_eq!(order.len(), 15);
}

#[test]
fn dispatcher_without_tasks_is_done_at_once() {
    let mut d = Dispatcher::<u8>::new(0, 10).unwrap();
    assert!(d.is_done());
    assert_eq!(d.poll(), Step::Done);
    assert_eq!(d.into_outcomes(), Some(Vec::new()));
}

#[test]
fn dispatcher_refuses_a_limit_of_zero() {
    assert!(Dispatcher::<u8>::new(3, 0).is_none());
    assert!(Dispatcher::<u8>::new(0, 0).is_none());
    assert!(Dispatcher::<u8>::new(3, 1).is_some());
}

#[test]
fn dispatcher_waits_when_the_limit_is_reached() {
    let mut d = Dispatcher::<&str>::new(3, 2).unwrap();
    assert_eq!(d.len(), 3);
    assert_eq!(d.limit(), 2);
    assert_eq!(d.poll(), Step::Start(0));
    assert_eq!(d.poll(), Step::Start(1));
    assert_eq!(d.running(), 2);
    assert_eq!(d.poll(), Step::Wait);
    assert_eq!(d.poll(), Step::Wait);
    assert!(d.complete(1, None));
    assert_eq!(d.running(), 1);
    assert_eq!(d.poll(), Step::Start(2));
    assert_eq!(d.poll(), Step::Wait);
    assert!(!d.is_done());
    assert!(d.complete(0, Some("a")));
    assert!(d.complete(2, Some("c")));
    assert_eq!(d.poll(), Step::Done);
    assert_eq!(d.into_outcomes(), Some(vec![Some("a"), None, Some("c")]));
}

#[test]
fn dispatcher_refuses_the_end_of_a_task_that_is_not_under_way() {
    let mut d = Dispatcher::<u8>::new(2, 1).unwrap();
    assert!(!d.complete(0, Some(1)));
    assert!(!d.complete(5, Some(1)));
    assert_eq!(d.poll(), Step::Start(0));
    assert!(!d.complete(1, Some(1)));
    assert!(d.complete(0, Some(7)));
    assert!(!d.complete(0, Some(8)));
    assert_eq!(d.running(), 0);
    assert_eq!(d.poll(), Step::Start(1));
    assert!(d.complete(1, None));
    assert_eq!(d.into_outcomes(), Some(vec![Some(7), None]));
}

#[test]
fn dispatcher_keeps_its_outcomes_until_every_task_has_ended() {
    let mut d = Dispatcher::<u8>::new(2, 2).unwrap();
    assert_eq!(d.poll(), Step::Start(0));
    assert!(d.complete(0, Some(1)));
    assert!(!d.is_done());
    assert!(d.into_outcomes().is_none());
}

#[test]
fn a_failed_task_frees_its_place_like_any_other() {
    let mut failed = Dispatcher::<u8>::new(4, 2).unwrap();
    let mut succeeded = Dispatcher::<u8>::new(4, 2).unwrap();
    for d in [&mut failed, &mut succeeded] {
        assert_eq!(d.poll(), Step::Start(0));
        assert_eq!(d.poll(), Step::Start(1));
        assert_eq!(d.poll(), Step::Wait);
    }
    assert!(failed.complete(0, None));
    assert!(succeeded.complete(0, Some(1)));
    for _ in 0..3 {
        let a = failed.poll();
        let b = succeeded.poll();
        assert_eq!(a, b);
        assert_eq!(failed.running(), succeeded.running());
    }
}

#[test]
fn successes_keeps_what_was_brought_in_order() {
    assert_eq!(successes(vec![Some(1), None, Some(3), None, None, Some(6)]), vec![1, 3, 6]);
    assert_eq!(successes(vec![None::<u8>, None]), Vec::<u8>::new());
    assert_eq!(successes(Vec::<Option<u8>>::new()), Vec::<u8>::new());
    assert_eq!(successes(vec![Some("a"), Some("b")]), vec!["a", "b"]);
}
