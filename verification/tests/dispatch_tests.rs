use labeld::canvas::{Canvas, PIN_COUNT};
use labeld::dispatch::{DispatchAction, DispatchEvent, Dispatcher};
use labeld::queue::{PrintJobStatus, PrintQueue};
use labeld::raster::rasterise_image;

fn payload() -> Canvas {
    Canvas::from_raw(3, PIN_COUNT, vec![0x20u8; (3 * PIN_COUNT) as usize]).unwrap()
}

/// A printer stand-in that fails on one chosen transmission.
struct FlakySink {
    calls: u32,
    fail_on: u32,
}

impl FlakySink {
    fn send(&mut self, _lines: &[Vec<u8>]) -> Result<(), ()> {
        self.calls += 1;
        if self.calls == self.fail_on {
            Err(())
        } else {
            Ok(())
        }
    }
}

/// Drive the dispatcher against the sink until the queue drains, and count
/// how many times the printer was asked to reinitialise.
fn run_until_idle(q: &mut PrintQueue, sink: &mut FlakySink) -> u32 {
    let mut d = Dispatcher::new();
    let mut event = DispatchEvent::Tick;
    let mut reinits: u32 = 0;
    loop {
        let action = d.step(q, event);
        event = match action {
            DispatchAction::Sleep => return reinits,
            DispatchAction::Advance => DispatchEvent::Tick,
            DispatchAction::Reinit => {
                reinits += 1;
                DispatchEvent::Tick
            }
            DispatchAction::Send(lines) => match sink.send(&lines) {
                Ok(()) => DispatchEvent::SendOk,
                Err(()) => DispatchEvent::SendErr,
            },
        };
    }
}

#[test]
fn failing_copy_yields_one_failed_record_and_the_loop_goes_on() {
    let mut q = PrintQueue::new();
    let first = q.add_job(100, payload(), 3);
    let second = q.add_job(101, payload(), 1);

    // The second transmission fails: job `first` loses its second copy.
    let mut sink = FlakySink { calls: 0, fail_on: 2 };
    let reinits = run_until_idle(&mut q, &mut sink);

    assert_eq!(reinits, 1);
    assert_eq!(q.queue_depth(), 0);
    let list = labeld::api::get_print_queue(&q);
    let records = list.jobs_finished_or_failed;
    assert_eq!(records.len(), 2);

    // Exactly one record for the failed job, and it is Failed, never Complete.
    let first_records: Vec<_> = records.iter().filter(|m| m.id == first).collect();
    assert_eq!(first_records.len(), 1);
    assert!(matches!(first_records[0].status, PrintJobStatus::Failed));
    // It reports the single copy that did print before the fault.
    assert_eq!(first_records[0].quantity, 1);

    // The next queued job was processed afterwards and completed.
    let second_records: Vec<_> = records.iter().filter(|m| m.id == second).collect();
    assert_eq!(second_records.len(), 1);
    assert!(matches!(second_records[0].status, PrintJobStatus::Complete));
}

#[test]
fn all_copies_succeeding_yield_one_complete_record() {
    let mut q = PrintQueue::new();
    let id = q.add_job(50, payload(), 4);
    let mut sink = FlakySink { calls: 0, fail_on: 0 };
    let reinits = run_until_idle(&mut q, &mut sink);

    assert_eq!(reinits, 0);
    assert_eq!(sink.calls, 4);
    let list = labeld::api::get_print_queue(&q);
    assert_eq!(list.jobs_finished_or_failed.len(), 1);
    let rec = &list.jobs_finished_or_failed[0];
    assert_eq!(rec.id, id);
    assert_eq!(rec.quantity, 4);
    assert!(matches!(rec.status, PrintJobStatus::Complete));
}

#[test]
fn failure_on_first_copy_records_zero_printed_copies() {
    let mut q = PrintQueue::new();
    let id = q.add_job(1, payload(), 2);
    let mut sink = FlakySink { calls: 0, fail_on: 1 };
    run_until_idle(&mut q, &mut sink);
    let list = labeld::api::get_print_queue(&q);
    assert_eq!(list.jobs_finished_or_failed.len(), 1);
    assert_eq!(list.jobs_finished_or_failed[0].id, id);
    assert_eq!(list.jobs_finished_or_failed[0].quantity, 0);
    assert!(matches!(
        list.jobs_finished_or_failed[0].status,
        PrintJobStatus::Failed
    ));
}

#[test]
fn dispatcher_transmits_the_encoded_payload() {
    let mut q = PrintQueue::new();
    let data = payload();
    let expected = rasterise_image(&data).unwrap();
    q.add_job(7, data, 1);

    let mut d = Dispatcher::new();
    let action = d.step(&mut q, DispatchEvent::Tick);
    match action {
        DispatchAction::Send(lines) => assert_eq!(lines, expected),
        _ => panic!("expected a transmission"),
    }
}

#[test]
fn idle_dispatcher_sleeps_on_an_empty_queue() {
    let mut q = PrintQueue::new();
    let mut d = Dispatcher::new();
    assert!(matches!(
        d.step(&mut q, DispatchEvent::Tick),
        DispatchAction::Sleep
    ));
}
