use frakt::pool::{Pick, Pool, Worker};
use frakt::structs::fragment_request::FragmentRequest;

fn names(pool: &Pool<u32>) -> Vec<String> {
    pool.workers.iter().map(|w| w.get_worker_name().to_string()).collect()
}

#[test]
fn worker_accessors() {
    let mut w = Worker::new("alpha", 300, 7u32);
    assert_eq!(w.get_worker_name(), "alpha");
    assert_eq!(w.get_maximal_work_load(), 300);
    assert_eq!(*w.get_stream(), 7);
    assert!(w.task.is_none());
    w.set_stream(9);
    assert_eq!(*w.get_stream(), 9);
    w.set_task(Some("abcdefgh"));
    assert_eq!(w.task.as_deref(), Some("abcdefgh"));
    w.set_task(None);
    assert!(w.task.is_none());
    assert_eq!(w.get_worker_name(), "alpha");
}

#[test]
fn worker_from_request() {
    let request = FragmentRequest::new("beta", 42);
    let w = Worker::from_fragment_request(&request, 1u32);
    assert_eq!(w.get_worker_name(), "beta");
    assert_eq!(w.get_maximal_work_load(), 42);
}

#[test]
fn add_rejects_duplicate_names() {
    let mut pool: Pool<u32> = Pool::new();
    pool.add_worker(Worker::new("a", 1, 1));
    pool.add_worker(Worker::new("b", 2, 2));
    pool.add_worker(Worker::new("a", 3, 3));
    assert_eq!(names(&pool), vec!["a", "b"]);
    assert_eq!(pool.workers[0].get_maximal_work_load(), 1);
}

#[test]
fn remove_keeps_order() {
    let mut pool: Pool<u32> = Pool::default();
    for (i, n) in ["a", "b", "c", "d"].iter().enumerate() {
        pool.add_worker(Worker::new(n, i as u32, i as u32));
    }
    pool.remove_worker("b");
    assert_eq!(names(&pool), vec!["a", "c", "d"]);
    pool.remove_worker("zzz");
    assert_eq!(names(&pool), vec!["a", "c", "d"]);
    pool.remove_worker("a");
    pool.remove_worker("d");
    assert_eq!(names(&pool), vec!["c"]);
}

#[test]
fn reregistering_replaces_worker() {
    let mut pool: Pool<u32> = Pool::new();
    pool.add_worker(Worker::new("a", 1, 10));
    pool.add_worker(Worker::new("b", 2, 20));
    pool.remove_worker("a");
    pool.add_worker(Worker::new("a", 5, 50));
    assert_eq!(names(&pool), vec!["b", "a"]);
    let w = pool.get_worker("a").unwrap();
    assert_eq!(w.get_maximal_work_load(), 5);
    assert_eq!(*w.get_stream(), 50);
}

#[test]
fn lookups() {
    let mut pool: Pool<u32> = Pool::new();
    pool.add_worker(Worker::new("a", 1, 10));
    pool.add_worker(Worker::new("b", 2, 20));
    assert!(pool.get_worker("c").is_none());
    pool.get_worker("b").unwrap().set_task(Some("task-1"));
    assert!(pool.get_worker_with_task("task-2").is_none());
    let w = pool.get_worker_with_task("task-1").unwrap();
    assert_eq!(w.get_worker_name(), "b");
    w.set_task(None);
    assert!(pool.get_worker_with_task("task-1").is_none());
}

#[test]
fn random_worker() {
    let mut pool: Pool<u32> = Pool::new();
    assert!(pool.get_random_worker().is_none());
    pool.add_worker(Worker::new("a", 1, 10));
    pool.add_worker(Worker::new("b", 2, 20));
    for _ in 0..20 {
        let name = pool.get_random_worker().unwrap().get_worker_name().to_string();
        assert!(name == "a" || name == "b");
    }
}

#[test]
fn finishing_a_task_frees_its_worker() {
    let mut pool: Pool<u32> = Pool::new();
    pool.add_worker(Worker::new("a", 1, 10));
    pool.add_worker(Worker::new("b", 2, 20));
    pool.workers[1].set_task(Some("task0001"));
    let (name, previous) = pool.finish_task("task0001", 99);
    assert_eq!(name, "b");
    assert_eq!(previous, Some(20));
    assert!(pool.workers[1].task.is_none());
    assert_eq!(*pool.workers[1].get_stream(), 99);
    assert_eq!(pool.workers[1].get_maximal_work_load(), 2);
    assert_eq!(*pool.workers[0].get_stream(), 10);
}

#[test]
fn finishing_an_unknown_task_changes_nothing() {
    let mut pool: Pool<u32> = Pool::new();
    pool.add_worker(Worker::new("a", 1, 10));
    pool.workers[0].set_task(Some("task0001"));
    let (name, previous) = pool.finish_task("task0002", 99);
    assert_eq!(name, "[unknown-worker]");
    assert_eq!(previous, None);
    assert_eq!(pool.workers[0].task.as_deref(), Some("task0001"));
    assert_eq!(*pool.workers[0].get_stream(), 10);
}

#[test]
fn register_moves_worker_to_the_end() {
    let mut pool: Pool<u32> = Pool::new();
    pool.add_worker(Worker::new("a", 1, 1));
    pool.add_worker(Worker::new("b", 2, 2));
    pool.register(Worker::new("a", 5, 3));
    assert_eq!(names(&pool), vec!["b", "a"]);
    assert_eq!(pool.workers[1].get_maximal_work_load(), 5);
    pool.register(Worker::new("c", 6, 4));
    assert_eq!(names(&pool), vec!["b", "a", "c"]);
}

#[test]
fn replace_stream_hands_back_the_old_one() {
    let mut w = Worker::new("a", 1, 5u32);
    assert_eq!(w.replace_stream(6), 5);
    assert_eq!(*w.get_stream(), 6);
}

#[test]
fn picking_a_worker() {
    let mut pool: Pool<u32> = Pool::new();
    assert_eq!(pool.pick_worker(), Pick::Empty);
    pool.add_worker(Worker::new("a", 1, 1));
    assert_eq!(pool.pick_worker(), Pick::Free(0));
    pool.workers[0].set_task(Some("abcdefgh"));
    assert_eq!(pool.pick_worker(), Pick::Busy(0));
}

#[test]
fn recording_deliveries() {
    let mut pool: Pool<u32> = Pool::new();
    pool.add_worker(Worker::new("a", 1, 1));
    pool.add_worker(Worker::new("b", 2, 2));
    assert!(pool.record_delivery(1, "task0001", false));
    assert!(pool.workers[1].task.is_none());
    assert!(!pool.record_delivery(1, "task0001", true));
    assert_eq!(pool.workers[1].task.as_deref(), Some("task0001"));
    assert!(pool.workers[0].task.is_none());
}
