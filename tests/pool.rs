use hls_demo::pool::{Next, TaskQueue};

#[test]
fn hundred_tasks_each_handed_out_once_in_order() {
    let mut q: TaskQueue<u32> = TaskQueue::new();
    for i in 0..100 {
        assert!(q.submit(i).is_ok());
    }
    q.close();
    let mut seen = Vec::new();
    loop {
        match q.next() {
            Next::Run(t) => seen.push(t),
            Next::Idle => panic!("a closed queue never asks to wait"),
            Next::Stop => break,
        }
    }
    assert_eq!(seen, (0..100).collect::<Vec<u32>>());
    assert!(matches!(q.next(), Next::Stop));
}

#[test]
fn closed_queue_hands_task_back() {
    let mut q: TaskQueue<&str> = TaskQueue::new();
    assert!(q.submit("a").is_ok());
    q.close();
    assert!(!q.is_accepting());
    assert_eq!(q.submit("b"), Err("b"));
    assert_eq!(q.len(), 1);
    assert!(matches!(q.next(), Next::Run("a")));
    assert!(matches!(q.next(), Next::Stop));
}

#[test]
fn open_empty_queue_asks_to_wait() {
    let mut q: TaskQueue<u8> = TaskQueue::new();
    assert!(matches!(q.next(), Next::Idle));
    assert!(q.submit(7).is_ok());
    assert!(matches!(q.next(), Next::Run(7)));
    assert!(matches!(q.next(), Next::Idle));
}
