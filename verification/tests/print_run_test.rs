use barepdf::printing::run::{PrintAction, PrintProgress, PrintRun, PrintRunError};

#[test]
fn each_copy_prints_the_range_in_order_then_finishes() {
    let mut run = match PrintRun::start(2, 3, 2, 300) {
        Ok(run) => run,
        Err(e) => panic!("unexpected {e:?}"),
    };
    let mut pages = Vec::new();
    let mut reports = Vec::new();
    loop {
        match run.next_action(false) {
            PrintAction::RenderPage(page) => {
                pages.push(page);
                reports.push(run.page_written());
            }
            PrintAction::Finish => break,
            PrintAction::Cancel => panic!("not cancelled"),
        }
    }
    assert_eq!(pages, vec![2, 3, 2, 3]);
    assert_eq!(reports.last(), Some(&PrintProgress { completed: 4, total: 4 }));
}

#[test]
fn a_cancel_stops_at_the_next_page_boundary() {
    let mut run = match PrintRun::start(0, 4, 1, 600) {
        Ok(run) => run,
        Err(e) => panic!("unexpected {e:?}"),
    };
    assert_eq!(run.next_action(false), PrintAction::RenderPage(0));
    run.page_written();
    assert_eq!(run.next_action(true), PrintAction::Cancel);
    assert_eq!(run.progress(), PrintProgress { completed: 1, total: 5 });
}

#[test]
fn a_cancel_after_the_last_page_still_cancels() {
    let mut run = match PrintRun::start(0, 0, 1, 72) {
        Ok(run) => run,
        Err(e) => panic!("unexpected {e:?}"),
    };
    assert_eq!(run.next_action(false), PrintAction::RenderPage(0));
    run.page_written();
    assert_eq!(run.next_action(true), PrintAction::Cancel);
    assert_eq!(run.next_action(false), PrintAction::Finish);
}

#[test]
fn print_runs_refuse_overflow_and_bad_resolutions() {
    assert_eq!(PrintRun::start(0, u32::MAX, 1, 300).err(), Some(PrintRunError::PageCountOverflow));
    assert_eq!(PrintRun::start(0, 70000, 65535, 300).err(), Some(PrintRunError::PageCountOverflow));
    assert_eq!(PrintRun::start(0, 1, 1, 0).err(), Some(PrintRunError::InvalidDpi(0)));
    assert_eq!(PrintRun::start(0, 1, 1, 601).err(), Some(PrintRunError::InvalidDpi(601)));
}
