use barepdf::printing::controller::{PrintControllerError, PrintReservations};
use barepdf::printing::job::{
    check_bitmap_size, print_total_pages, rgba_to_bgra, target_dpi_is_valid, PrintEvent,
};

#[test]
fn concurrent_reservation_is_rejected_and_release_is_idempotent() {
    let mut controller = PrintReservations::new();
    let first = controller.reserve_job().expect("first job should reserve");

    assert!(matches!(controller.reserve_job(), Err(PrintControllerError::Busy)));
    controller.release_reservation(first);
    controller.release_reservation(first);
    assert!(controller.reserve_job().is_ok());
    controller.abandon();
    controller.abandon();
    assert!(!controller.is_active());
}

#[test]
fn job_ids_grow_and_events_of_other_jobs_are_dropped() {
    let mut controller = PrintReservations::new();
    let first = controller.reserve_job().expect("reserve");
    assert_eq!(first, 1);
    assert!(controller.cancel_flag(first).is_ok());
    assert!(matches!(controller.cancel_flag(first + 1), Err(PrintControllerError::NotActive)));
    assert!(!controller.admit_event(first + 1, true));
    assert!(controller.admit_event(first, false));
    assert!(controller.is_active());
    assert!(controller.cancel());
    assert!(controller.admit_event(first, true));
    assert!(!controller.is_active());
    assert!(!controller.cancel());
    let second = controller.reserve_job().expect("reserve again");
    assert_eq!(second, 2);
    assert!(!controller.admit_event(first, true));
}

#[test]
fn print_events_name_their_job() {
    let progress = PrintEvent::Progress { job_id: 4, completed: 1, total: 3 };
    assert_eq!(progress.job_id(), 4);
    assert!(!progress.is_terminal());
    assert!(PrintEvent::Finished { job_id: 4 }.is_terminal());
    assert!(PrintEvent::Failed { job_id: 5, message: "x".into() }.is_terminal());
    assert_eq!(PrintEvent::Cancelled { job_id: 6 }.job_id(), 6);
}

#[test]
fn page_totals_count_every_copy_and_refuse_overflow() {
    assert_eq!(print_total_pages(2, 4, 3), Ok(9));
    assert_eq!(print_total_pages(0, 0, 1), Ok(1));
    assert_eq!(print_total_pages(4, 2, 1), Err("print page count overflow"));
    assert_eq!(print_total_pages(0, u32::MAX, 0), Err("print page count overflow"));
    assert_eq!(print_total_pages(0, u32::MAX / 2, 3), Err("print page count overflow"));
}

#[test]
fn printer_resolution_and_bitmap_budget() {
    assert!(!target_dpi_is_valid(0));
    assert!(target_dpi_is_valid(300));
    assert!(target_dpi_is_valid(600));
    assert!(!target_dpi_is_valid(601));
    assert!(check_bitmap_size(8192, 8192).is_ok());
    assert_eq!(
        check_bitmap_size(8192, 8193),
        Err("print bitmap exceeds the 256 MiB page limit")
    );
    assert!(check_bitmap_size(u32::MAX, u32::MAX).is_err());
}

#[test]
fn rgba_pixels_become_bgra_and_back() {
    let mut pixels = vec![1, 2, 3, 4, 5, 6, 7, 8, 9, 10];
    rgba_to_bgra(&mut pixels);
    assert_eq!(pixels, vec![3, 2, 1, 4, 7, 6, 5, 8, 9, 10]);
    rgba_to_bgra(&mut pixels);
    assert_eq!(pixels, vec![1, 2, 3, 4, 5, 6, 7, 8, 9, 10]);
}
