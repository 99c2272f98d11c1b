use resource_installer::downloader::{finished_message, status_message, Downloader, StreamEvent, StreamStep};
use resource_installer::unzip::{
    classify, create_new_only, entry_line, first_entry_step, next_entry_step,
    styled_status_label, EntryOutcome, EntryProgress, EntryStatus, EntryStep, UnzipTally,
};

#[test]
fn fresh_downloader_counts_nothing() {
    let d = Downloader::new();
    assert_eq!(d.downloaded(), 0);
    assert_eq!(d.size(), 0);
}

#[test]
fn chunks_add_up_and_seconds_start_anew() {
    let mut d = Downloader::new();
    d.start(5_000_000);
    assert!(!d.record_chunk(400_000, 0));
    assert!(!d.record_chunk(700_000, 0));
    assert!(d.record_chunk(100, 1));
    assert_eq!(d.downloaded(), 1_100_100);
    assert!(!d.record_chunk(200, 1));
    assert!(d.record_chunk(10, 3));
    assert_eq!(d.downloaded(), 1_100_310);
    assert_eq!(d.size(), 5_000_000);
}

#[test]
fn status_message_in_megabytes_per_second() {
    assert_eq!(status_message("ignored", Some(2), 2, 12), "  2MB/s 2/12 MB");
    assert_eq!(status_message("", Some(17), 17, 17), "  17MB/s 17/17 MB");
}

#[test]
fn status_message_below_a_megabyte_shows_the_fraction() {
    assert_eq!(status_message("0.123456", None, 0, 3), "  0.123KB/s 0/3 MB");
    assert_eq!(status_message("0.5", None, 0, 3), "  0.5KB/s 0/3 MB");
    assert_eq!(finished_message(0, 3), "  0MB/s 0/3 MB");
}

#[test]
fn start_resets_the_counters() {
    let mut d = Downloader::new();
    d.record_chunk(10, 4);
    d.start(99);
    assert_eq!(d.downloaded(), 0);
    assert_eq!(d.size(), 99);
    assert!(!d.record_chunk(1, 0));
}

#[test]
fn outcomes_map_to_statuses() {
    assert_eq!(classify(EntryOutcome::DirectoryCreated), EntryStatus::Done);
    assert_eq!(classify(EntryOutcome::FileWritten), EntryStatus::Done);
    assert_eq!(classify(EntryOutcome::DirectoryNotCreated), EntryStatus::Skip);
    assert_eq!(classify(EntryOutcome::FileNotOpened), EntryStatus::Skip);
    assert_eq!(classify(EntryOutcome::CopyFailed), EntryStatus::Error);
    assert_eq!(classify(EntryOutcome::FlushFailed), EntryStatus::Error);
    assert!(create_new_only(false));
    assert!(!create_new_only(true));
}

#[test]
fn tally_counts_each_entry_once() {
    let mut t = UnzipTally::new();
    let outcomes = [
        EntryOutcome::DirectoryCreated,
        EntryOutcome::FileWritten,
        EntryOutcome::FileNotOpened,
        EntryOutcome::CopyFailed,
        EntryOutcome::DirectoryNotCreated,
        EntryOutcome::FlushFailed,
        EntryOutcome::FileWritten,
    ];
    for o in outcomes {
        t.record(o);
    }
    assert_eq!((t.created, t.skipped, t.failed), (3, 2, 2));
    assert_eq!(
        t.summary_line(7),
        format!(
            "[Amount:{}, \x1b[32mCreate:{}\x1b[0m, \x1b[33mSkip:{}\x1b[0m, \x1b[31mError:{}\x1b[0m]",
            7, 3, 2, 2
        )
    );
}

#[test]
fn entry_line_matches_formatter() {
    let line = entry_line(" Done", 0, 12, "maps/de_x.bsp");
    assert_eq!(line, format!("[{}] [{:>5}/{:>5}] {}", " Done", 1, 12, "maps/de_x.bsp"));
    let line = entry_line("Error", 123_455, 123_456, "a");
    assert_eq!(line, "[Error] [123456/123456] a");
}

#[test]
fn stream_events_drive_the_download() {
    let mut d = Downloader::new();
    d.start(2_000_000);
    assert_eq!(d.on_event(StreamEvent::Chunk(1_500_000), 0), StreamStep::Continue { new_second: false });
    assert_eq!(d.on_event(StreamEvent::Chunk(10), 2), StreamStep::Continue { new_second: true });
    assert_eq!(d.downloaded(), 1_500_010);
    assert_eq!(d.on_event(StreamEvent::End, 0), StreamStep::Stop { finished: true });
    assert_eq!(d.on_event(StreamEvent::Failed, 0), StreamStep::Stop { finished: false });
    assert_eq!(d.downloaded(), 1_500_010);
}

#[test]
fn received_bytes_never_go_back() {
    let mut d = Downloader::new();
    d.start(10_000_000);
    let mut last = 0;
    for (len, secs) in [(999_999u64, 0u64), (1, 0), (3, 1), (2_000_000, 1), (0, 2)] {
        d.record_chunk(len, secs);
        assert!(d.downloaded() >= last);
        last = d.downloaded();
    }
    assert_eq!(last, 3_000_003);
}

fn run_entry(is_dir: bool, results: &[bool]) -> EntryOutcome {
    let mut step = first_entry_step(is_dir);
    let mut k = 0;
    loop {
        match next_entry_step(step, results[k]) {
            EntryProgress::Next(s) => step = s,
            EntryProgress::Finished(o) => return o,
        }
        k += 1;
    }
}

#[test]
fn entry_steps_stop_at_the_first_failure() {
    assert_eq!(first_entry_step(true), EntryStep::CreateDirectory);
    assert_eq!(first_entry_step(false), EntryStep::OpenFile);
    assert_eq!(run_entry(true, &[true]), EntryOutcome::DirectoryCreated);
    assert_eq!(run_entry(true, &[false]), EntryOutcome::DirectoryNotCreated);
    assert_eq!(run_entry(false, &[false]), EntryOutcome::FileNotOpened);
    assert_eq!(run_entry(false, &[true, false]), EntryOutcome::CopyFailed);
    assert_eq!(run_entry(false, &[true, true, false]), EntryOutcome::FlushFailed);
    assert_eq!(run_entry(false, &[true, true, true]), EntryOutcome::FileWritten);
}

#[test]
fn styled_labels_follow_the_colour_flag() {
    assert_eq!(styled_status_label(EntryStatus::Skip, true), "\x1b[33m Skip\x1b[0m");
    assert_eq!(styled_status_label(EntryStatus::Skip, false), " Skip");
    assert_eq!(styled_status_label(EntryStatus::Error, true), "\x1b[31mError\x1b[0m");
    assert_eq!(styled_status_label(EntryStatus::Done, false), " Done");
    assert_eq!(styled_status_label(EntryStatus::Done, true), "\x1b[32m Done\x1b[0m");
}
