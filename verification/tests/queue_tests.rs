use labeld::canvas::{Canvas, PIN_COUNT};
use labeld::queue::{PrintJobStatus, PrintQueue};

fn payload() -> Canvas {
    Canvas::from_raw(2, PIN_COUNT, vec![0u8; (2 * PIN_COUNT) as usize]).unwrap()
}

#[test]
fn ids_are_strictly_increasing_and_start_at_one() {
    let mut q = PrintQueue::new();
    let a = q.add_job(10, payload(), 1);
    let b = q.add_job(11, payload(), 2);
    let c = q.add_job(12, payload(), 3);
    assert_eq!(a, 1);
    assert_eq!(b, 2);
    assert_eq!(c, 3);
    assert!(a < b && b < c);
}

#[test]
fn ids_keep_increasing_after_dequeue() {
    let mut q = PrintQueue::new();
    let a = q.add_job(1, payload(), 1);
    let _ = q.dequeue_next().unwrap();
    let b = q.add_job(2, payload(), 1);
    assert!(b > a);
}

#[test]
fn dequeue_is_fifo() {
    let mut q = PrintQueue::new();
    let a = q.add_job(5, payload(), 1);
    let b = q.add_job(6, payload(), 1);
    let first = q.dequeue_next().unwrap();
    let second = q.dequeue_next().unwrap();
    assert_eq!(first.id, a);
    assert_eq!(second.id, b);
    assert!(q.dequeue_next().is_none());
}

#[test]
fn queue_depth_tracks_pending() {
    let mut q = PrintQueue::new();
    assert_eq!(q.queue_depth(), 0);
    q.add_job(1, payload(), 1);
    q.add_job(2, payload(), 1);
    assert_eq!(q.queue_depth(), 2);
    q.dequeue_next();
    assert_eq!(q.queue_depth(), 1);
}

#[test]
fn a_job_is_visible_in_exactly_one_partition() {
    let mut q = PrintQueue::new();
    let id = q.add_job(7, payload(), 2);

    // Pending only.
    let meta = q.lookup(id).unwrap();
    assert!(matches!(meta.status, PrintJobStatus::Pending));
    let snapshot = labeld::api::get_print_queue(&q);
    assert!(snapshot.jobs_todo.iter().any(|m| m.id == id));
    assert!(!snapshot.jobs_finished_or_failed.iter().any(|m| m.id == id));

    // Between pop and the terminal record the job is owned by the dispatcher
    // and visible nowhere (the documented eventually-consistent window).
    let job = q.dequeue_next().unwrap();
    assert!(q.lookup(id).is_none());

    // Terminal only.
    q.record_terminal(job.id, job.timestamp, job.quantity, PrintJobStatus::Complete);
    let meta = q.lookup(id).unwrap();
    assert!(matches!(meta.status, PrintJobStatus::Complete));
    let snapshot = labeld::api::get_print_queue(&q);
    assert!(!snapshot.jobs_todo.iter().any(|m| m.id == id));
    assert_eq!(
        snapshot.jobs_finished_or_failed.iter().filter(|m| m.id == id).count(),
        1
    );
}

#[test]
fn terminal_records_keep_metadata_only() {
    let mut q = PrintQueue::new();
    let id = q.add_job(99, payload(), 4);
    let job = q.dequeue_next().unwrap();
    assert!(job.data.is_some());
    q.record_terminal(job.id, job.timestamp, 1, PrintJobStatus::Failed);
    let meta = q.lookup(id).unwrap();
    assert_eq!(meta.id, id);
    assert_eq!(meta.timestamp, 99);
    assert_eq!(meta.quantity, 1);
    assert!(matches!(meta.status, PrintJobStatus::Failed));
}

#[test]
fn snapshots_report_metadata_in_order() {
    let mut q = PrintQueue::new();
    let a = q.add_job(1, payload(), 1);
    let b = q.add_job(2, payload(), 2);
    let pending = q.snapshot_pending();
    assert_eq!(pending.len(), 2);
    assert_eq!(pending[0].id, a);
    assert_eq!(pending[1].id, b);
    assert!(q.snapshot_terminal().is_empty());

    let job = q.dequeue_next().unwrap();
    q.record_terminal(job.id, job.timestamp, job.quantity, PrintJobStatus::Complete);
    let terminal = q.snapshot_terminal();
    assert_eq!(terminal.len(), 1);
    assert_eq!(terminal[0].id, a);
    assert_eq!(q.snapshot_pending().len(), 1);
}

#[test]
fn print_data_carries_either_payload_kind() {
    let image = labeld::queue::PrintData::Image(payload());
    let text = labeld::queue::PrintData::Text(String::from("hi"));
    assert!(matches!(image, labeld::queue::PrintData::Image(_)));
    assert!(matches!(text, labeld::queue::PrintData::Text(_)));
}

#[test]
fn lookup_misses_unknown_ids() {
    let mut q = PrintQueue::new();
    assert!(q.lookup(1).is_none());
    q.add_job(1, payload(), 1);
    assert!(q.lookup(2).is_none());
}
