//! Unpacking report: what became of each entry of the archive, the line
//! printed for it, and the counts printed at the end.

use vstd::prelude::*;
use crate::terminal::{colours_enabled, paint_green, paint_red, paint_yellow, painted, styled};
use crate::text::{decimal, decimal_string, pad_left, push_char, push_padded};

verus! {

/// What happened to one entry of the archive.
#[derive(Clone, Copy, Debug, PartialEq, Eq, Structural)]
pub enum EntryOutcome {
    /// A directory entry whose directory was created.
    DirectoryCreated,
    /// A directory entry whose directory could not be created (it exists).
    DirectoryNotCreated,
    /// A file entry whose file could not be opened for writing (it exists,
    /// and is not to be overwritten).
    FileNotOpened,
    /// A file entry written and flushed.
    FileWritten,
    /// A file entry whose copy failed.
    CopyFailed,
    /// A file entry copied but not flushed.
    FlushFailed,
}

/// The status shown for an entry.
#[derive(Clone, Copy, Debug, PartialEq, Eq, Structural)]
pub enum EntryStatus {
    Done,
    Skip,
    Error,
}

/// The status of an outcome: created or written is done, an existing
/// directory or file is skipped, a failed copy or flush is an error.
pub open spec fn status_of(outcome: EntryOutcome) -> EntryStatus {
    match outcome {
        EntryOutcome::DirectoryCreated => EntryStatus::Done,
        EntryOutcome::FileWritten => EntryStatus::Done,
        EntryOutcome::DirectoryNotCreated => EntryStatus::Skip,
        EntryOutcome::FileNotOpened => EntryStatus::Skip,
        EntryOutcome::CopyFailed => EntryStatus::Error,
        EntryOutcome::FlushFailed => EntryStatus::Error,
    }
}

/// The file-system step that comes next for an entry.
#[derive(Clone, Copy, Debug, PartialEq, Eq, Structural)]
pub enum EntryStep {
    /// Create the entry's directory.
    CreateDirectory,
    /// Open the entry's file for writing.
    OpenFile,
    /// Copy the entry's data into the opened file.
    Copy,
    /// Flush the written file.
    Flush,
}

/// After a step: another step, or the entry's outcome.
#[derive(Clone, Copy, Debug, PartialEq, Eq, Structural)]
pub enum EntryProgress {
    Next(EntryStep),
    Finished(EntryOutcome),
}

/// The first step for an entry: a directory is created, a file opened.
pub open spec fn first_step(is_directory: bool) -> EntryStep {
    if is_directory { EntryStep::CreateDirectory } else { EntryStep::OpenFile }
}

/// What follows a step that succeeded or failed: a created directory or
/// a flushed file is done; an opened file is copied and a copied file
/// flushed; a directory or file that could not be made is skipped; a
/// failed copy or flush is an error.
pub open spec fn after_step(step: EntryStep, succeeded: bool) -> EntryProgress {
    match step {
        EntryStep::CreateDirectory => EntryProgress::Finished(
            if succeeded { EntryOutcome::DirectoryCreated } else { EntryOutcome::DirectoryNotCreated },
        ),
        EntryStep::OpenFile => if succeeded {
            EntryProgress::Next(EntryStep::Copy)
        } else {
            EntryProgress::Finished(EntryOutcome::FileNotOpened)
        },
        EntryStep::Copy => if succeeded {
            EntryProgress::Next(EntryStep::Flush)
        } else {
            EntryProgress::Finished(EntryOutcome::CopyFailed)
        },
        EntryStep::Flush => EntryProgress::Finished(
            if succeeded { EntryOutcome::FileWritten } else { EntryOutcome::FlushFailed },
        ),
    }
}

/// The first step for an entry.
pub fn first_entry_step(is_directory: bool) -> (s: EntryStep)
    ensures
        s == first_step(is_directory),
{
    if is_directory { EntryStep::CreateDirectory } else { EntryStep::OpenFile }
}

/// What follows `step`, which succeeded or failed.
pub fn next_entry_step(step: EntryStep, succeeded: bool) -> (p: EntryProgress)
    ensures
        p == after_step(step, succeeded),
{
    match step {
        EntryStep::CreateDirectory => EntryProgress::Finished(
            if succeeded { EntryOutcome::DirectoryCreated } else { EntryOutcome::DirectoryNotCreated },
        ),
        EntryStep::OpenFile => if succeeded {
            EntryProgress::Next(EntryStep::Copy)
        } else {
            EntryProgress::Finished(EntryOutcome::FileNotOpened)
        },
        EntryStep::Copy => if succeeded {
            EntryProgress::Next(EntryStep::Flush)
        } else {
            EntryProgress::Finished(EntryOutcome::CopyFailed)
        },
        EntryStep::Flush => EntryProgress::Finished(
            if succeeded { EntryOutcome::FileWritten } else { EntryOutcome::FlushFailed },
        ),
    }
}

/// The steps an entry has at most still to go.
pub open spec fn steps_left(step: EntryStep) -> nat {
    match step {
        EntryStep::CreateDirectory => 1,
        EntryStep::OpenFile => 3,
        EntryStep::Copy => 2,
        EntryStep::Flush => 1,
    }
}

/// The outcome of a file entry whose open, copy and flush succeeded or
/// failed as given (later steps are not taken after a failure).
pub open spec fn file_outcome(opened: bool, copied: bool, flushed: bool) -> EntryOutcome {
    if !opened {
        EntryOutcome::FileNotOpened
    } else if !copied {
        EntryOutcome::CopyFailed
    } else if !flushed {
        EntryOutcome::FlushFailed
    } else {
        EntryOutcome::FileWritten
    }
}

/// Every entry ends: each step leaves fewer steps to go.
pub proof fn lemma_entry_steps_end(step: EntryStep, succeeded: bool)
    ensures
        after_step(step, succeeded) matches EntryProgress::Next(s) ==> steps_left(s) < steps_left(step),
{
}

/// A file entry runs open, copy, flush, stopping at the first failure,
/// and ends as `file_outcome` says; a directory entry ends after its
/// creation.
pub proof fn lemma_entry_run(is_directory: bool, first: bool, second: bool, third: bool)
    ensures
        is_directory ==> after_step(first_step(is_directory), first) == EntryProgress::Finished(
            if first { EntryOutcome::DirectoryCreated } else { EntryOutcome::DirectoryNotCreated },
        ),
        !is_directory && !first ==> after_step(first_step(is_directory), first) == EntryProgress::Finished(
            file_outcome(first, second, third),
        ),
        !is_directory && first && !second ==> after_step(EntryStep::Copy, second) == EntryProgress::Finished(
            file_outcome(first, second, third),
        ),
        !is_directory && first && second ==> after_step(EntryStep::Flush, third) == EntryProgress::Finished(
            file_outcome(first, second, third),
        ),
        status_of(file_outcome(first, second, third)) == (if !first {
            EntryStatus::Skip
        } else if second && third {
            EntryStatus::Done
        } else {
            EntryStatus::Error
        }),
{
}

/// Whether a file is opened only when it does not exist yet: so unless
/// existing files are to be overwritten.
pub fn create_new_only(overwrite: bool) -> (b: bool)
    ensures
        b == !overwrite,
{
    !overwrite
}

/// The status of an outcome.
pub fn classify(outcome: EntryOutcome) -> (s: EntryStatus)
    ensures
        s == status_of(outcome),
{
    match outcome {
        EntryOutcome::DirectoryCreated => EntryStatus::Done,
        EntryOutcome::FileWritten => EntryStatus::Done,
        EntryOutcome::DirectoryNotCreated => EntryStatus::Skip,
        EntryOutcome::FileNotOpened => EntryStatus::Skip,
        EntryOutcome::CopyFailed => EntryStatus::Error,
        EntryOutcome::FlushFailed => EntryStatus::Error,
    }
}

/// The counts of entries created, skipped and failed.
pub struct UnzipTally {
    pub created: usize,
    pub skipped: usize,
    pub failed: usize,
}

/// The counts after one more entry of the given status.
pub open spec fn tally_after(t: UnzipTally, status: EntryStatus) -> UnzipTally {
    match status {
        EntryStatus::Done => UnzipTally { created: (t.created + 1) as usize, ..t },
        EntryStatus::Skip => UnzipTally { skipped: (t.skipped + 1) as usize, ..t },
        EntryStatus::Error => UnzipTally { failed: (t.failed + 1) as usize, ..t },
    }
}

/// All entries counted so far.
pub open spec fn tally_total(t: UnzipTally) -> nat {
    (t.created + t.skipped + t.failed) as nat
}

impl UnzipTally {
    /// No entry counted.
    pub fn new() -> (t: Self)
        ensures
            t.created == 0 && t.skipped == 0 && t.failed == 0,
    {
        UnzipTally { created: 0, skipped: 0, failed: 0 }
    }

    /// Counts one entry with the given outcome and returns its status.
    pub fn record(&mut self, outcome: EntryOutcome) -> (s: EntryStatus)
        requires
            tally_total(*old(self)) < usize::MAX,
        ensures
            s == status_of(outcome),
            *final(self) == tally_after(*old(self), s),
            tally_total(*final(self)) == tally_total(*old(self)) + 1,
    {
        let s = classify(outcome);
        match s {
            EntryStatus::Done => self.created = self.created + 1,
            EntryStatus::Skip => self.skipped = self.skipped + 1,
            EntryStatus::Error => self.failed = self.failed + 1,
        }
        s
    }
}

/// The label of a status, five columns wide.
pub open spec fn label_text(status: EntryStatus) -> Seq<char> {
    match status {
        EntryStatus::Done => seq![' ', 'D', 'o', 'n', 'e'],
        EntryStatus::Skip => seq![' ', 'S', 'k', 'i', 'p'],
        EntryStatus::Error => seq!['E', 'r', 'r', 'o', 'r'],
    }
}

/// The colour code of a status: green for done, yellow for skipped, red
/// for an error.
pub open spec fn label_colour(status: EntryStatus) -> Seq<char> {
    match status {
        EntryStatus::Done => seq!['3', '2'],
        EntryStatus::Skip => seq!['3', '3'],
        EntryStatus::Error => seq!['3', '1'],
    }
}

/// The label of a status, in its colour when `colours` is on and bare
/// when it is off.
pub fn styled_status_label(status: EntryStatus, colours: bool) -> (l: String)
    ensures
        l@ == styled(colours, painted(label_colour(status), label_text(status)), label_text(status)),
{
    match status {
        EntryStatus::Done => {
            proof {
                reveal_strlit(" Done");
            }
            paint_green(" Done", colours)
        },
        EntryStatus::Skip => {
            proof {
                reveal_strlit(" Skip");
            }
            paint_yellow(" Skip", colours)
        },
        EntryStatus::Error => {
            proof {
                reveal_strlit("Error");
            }
            paint_red("Error", colours)
        },
    }
}

/// The label of a status as console writes it on stdout: in its colour
/// when console has colours enabled, bare otherwise.
pub fn status_label(status: EntryStatus) -> (l: String)
    ensures
        exists|colours: bool| l@ == styled(colours, painted(label_colour(status), label_text(status)), label_text(status)),
{
    let colours = colours_enabled();
    styled_status_label(status, colours)
}

/// `"[{label}] [{number:>5}/{count:>5}] {name}"`.
pub open spec fn entry_text(label: Seq<char>, number: nat, count: nat, name: Seq<char>) -> Seq<char> {
    seq!['['] + label + seq![']', ' ', '['] + pad_left(decimal(number), 5, ' ') + seq!['/']
        + pad_left(decimal(count), 5, ' ') + seq![']', ' '] + name
}

/// The line printed for entry `index` (counted from zero) of `count`.
pub fn entry_line(label: &str, index: usize, count: usize, name: &str) -> (line: String)
    requires
        index < count,
    ensures
        line@ == entry_text(label@, (index + 1) as nat, count as nat, name@),
{
    let number = decimal_string((index + 1) as u64);
    let total = decimal_string(count as u64);
    let mut line = String::new();
    push_char(&mut line, '[');
    line.append(label);
    push_char(&mut line, ']');
    push_char(&mut line, ' ');
    push_char(&mut line, '[');
    push_padded(&mut line, number.as_str(), 5, ' ');
    push_char(&mut line, '/');
    push_padded(&mut line, total.as_str(), 5, ' ');
    push_char(&mut line, ']');
    push_char(&mut line, ' ');
    line.append(name);
    assert(line@ =~= entry_text(label@, (index + 1) as nat, count as nat, name@));
    line
}

/// `"[Amount:{count}, Create:{created}, Skip:{skipped}, Error:{failed}]"`,
/// the three counts each in its colour, written with escape sequences.
pub open spec fn summary_text(count: nat, t: UnzipTally) -> Seq<char> {
    seq!['[', 'A', 'm', 'o', 'u', 'n', 't', ':'] + decimal(count) + seq![',', ' ']
        + painted(seq!['3', '2'], seq!['C', 'r', 'e', 'a', 't', 'e', ':'] + decimal(t.created as nat))
        + seq![',', ' '] + painted(seq!['3', '3'], seq!['S', 'k', 'i', 'p', ':'] + decimal(t.skipped as nat))
        + seq![',', ' '] + painted(seq!['3', '1'], seq!['E', 'r', 'r', 'o', 'r', ':'] + decimal(t.failed as nat))
        + seq![']']
}

/// Appends `label` and the decimal `n` between the colour code `a b` and
/// a reset.
fn push_painted_count(out: &mut String, a: char, b: char, label: &str, n: usize)
    ensures
        final(out)@ == old(out)@ + painted(seq![a, b], label@ + decimal(n as nat)),
{
    let digits = decimal_string(n as u64);
    push_char(out, '\x1b');
    push_char(out, '[');
    push_char(out, a);
    push_char(out, b);
    push_char(out, 'm');
    out.append(label);
    out.append(digits.as_str());
    push_char(out, '\x1b');
    push_char(out, '[');
    push_char(out, '0');
    push_char(out, 'm');
    assert(out@ =~= old(out)@ + painted(seq![a, b], label@ + decimal(n as nat)));
}

impl UnzipTally {
    /// The line printed after the last entry of `count`.
    pub fn summary_line(&self, count: usize) -> (line: String)
        ensures
            line@ == summary_text(count as nat, *self),
    {
        let amount = decimal_string(count as u64);
        let mut line = String::new();
        proof {
            reveal_strlit("[Amount:");
            reveal_strlit(", ");
            reveal_strlit("Create:");
            reveal_strlit("Skip:");
            reveal_strlit("Error:");
        }
        line.append("[Amount:");
        line.append(amount.as_str());
        line.append(", ");
        let ghost head = line@;
        push_painted_count(&mut line, '3', '2', "Create:", self.created);
        line.append(", ");
        push_painted_count(&mut line, '3', '3', "Skip:", self.skipped);
        line.append(", ");
        push_painted_count(&mut line, '3', '1', "Error:", self.failed);
        push_char(&mut line, ']');
        assert(head =~= seq!['[', 'A', 'm', 'o', 'u', 'n', 't', ':'] + decimal(count as nat) + seq![',', ' ']);
        assert(line@ =~= summary_text(count as nat, *self));
        line
    }
}


/// The counts after entries with the given outcomes, in order.
pub open spec fn tally_after_all(t: UnzipTally, outcomes: Seq<EntryOutcome>) -> UnzipTally
    decreases outcomes.len(),
{
    if outcomes.len() == 0 {
        t
    } else {
        tally_after_all(tally_after(t, status_of(outcomes[0])), outcomes.drop_first())
    }
}

/// Every entry is counted once, under exactly one of the three counts.
pub proof fn lemma_every_entry_counted_once(t: UnzipTally, outcomes: Seq<EntryOutcome>)
    requires
        tally_total(t) + outcomes.len() <= usize::MAX,
    ensures
        tally_total(tally_after_all(t, outcomes)) == tally_total(t) + outcomes.len(),
    decreases outcomes.len(),
{
    if outcomes.len() > 0 {
        lemma_every_entry_counted_once(tally_after(t, status_of(outcomes[0])), outcomes.drop_first());
    }
}

/// An entry that could not be made because its directory or file is
/// there already.
pub open spec fn is_existing(o: EntryOutcome) -> bool {
    o == EntryOutcome::DirectoryNotCreated || o == EntryOutcome::FileNotOpened
}

/// An entry made: a directory created or a file written.
pub open spec fn is_made(o: EntryOutcome) -> bool {
    o == EntryOutcome::DirectoryCreated || o == EntryOutcome::FileWritten
}

/// An entry whose copy or flush failed.
pub open spec fn is_failure(o: EntryOutcome) -> bool {
    o == EntryOutcome::CopyFailed || o == EntryOutcome::FlushFailed
}

/// How many of `outcomes` satisfy `p`.
pub open spec fn count_where(outcomes: Seq<EntryOutcome>, p: spec_fn(EntryOutcome) -> bool) -> nat
    decreases outcomes.len(),
{
    if outcomes.len() == 0 {
        0
    } else {
        (if p(outcomes[0]) { 1nat } else { 0nat }) + count_where(outcomes.drop_first(), p)
    }
}

/// Each count goes up by one for an entry of its kind and stays for the
/// others: created for a made entry, skipped for an existing one, failed
/// for a failed copy or flush.
pub proof fn lemma_record_counts_its_kind(t: UnzipTally, o: EntryOutcome)
    requires
        tally_total(t) < usize::MAX,
    ensures
        tally_after(t, status_of(o)).created == t.created + (if is_made(o) { 1int } else { 0int }),
        tally_after(t, status_of(o)).skipped == t.skipped + (if is_existing(o) { 1int } else { 0int }),
        tally_after(t, status_of(o)).failed == t.failed + (if is_failure(o) { 1int } else { 0int }),
{
}

/// After any entries, the counts are those before plus the made, the
/// existing and the failed entries among them.
pub proof fn lemma_counts_are_the_kinds(t: UnzipTally, outcomes: Seq<EntryOutcome>)
    requires
        tally_total(t) + outcomes.len() <= usize::MAX,
    ensures
        tally_after_all(t, outcomes).created == t.created + count_where(outcomes, |o: EntryOutcome| is_made(o)),
        tally_after_all(t, outcomes).skipped == t.skipped + count_where(outcomes, |o: EntryOutcome| is_existing(o)),
        tally_after_all(t, outcomes).failed == t.failed + count_where(outcomes, |o: EntryOutcome| is_failure(o)),
    decreases outcomes.len(),
{
    if outcomes.len() > 0 {
        let o = outcomes[0];
        lemma_record_counts_its_kind(t, o);
        let next = tally_after(t, status_of(o));
        assert(tally_total(next) == tally_total(t) + 1);
        lemma_counts_are_the_kinds(next, outcomes.drop_first());
    }
}

} // verus!
