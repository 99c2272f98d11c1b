//! Bookkeeping of a download: the bytes received, the second of wall-clock
//! time the last chunk came in, and the status line shown beside the
//! progress bar.

use vstd::prelude::*;
use crate::text::{decimal, decimal_string, push_char};

verus! {

/// The counters of a download.
pub struct Downloader {
    size: u64,
    downloaded: u64,
    second: u64,
}

/// The counters of a download as numbers: the announced size, the bytes
/// received, and the whole second of the last chunk.
pub struct Transfer {
    pub size: nat,
    pub downloaded: nat,
    pub second: nat,
}

impl View for Downloader {
    type V = Transfer;

    closed spec fn view(&self) -> Transfer {
        Transfer { size: self.size as nat, downloaded: self.downloaded as nat, second: self.second as nat }
    }
}

/// The counters before any byte arrived, for a download of `size` bytes.
pub open spec fn fresh_transfer(size: nat) -> Transfer {
    Transfer { size, downloaded: 0, second: 0 }
}

/// A chunk of `len` bytes arrived `secs` whole seconds after the start:
/// it is counted, and its second becomes the current one.
pub open spec fn after_chunk(t: Transfer, len: nat, secs: nat) -> Transfer {
    Transfer { size: t.size, downloaded: t.downloaded + len, second: secs }
}

/// A chunk in another second than the last one starts a new second: the
/// speed of the finished second is then taken over and the written data
/// flushed.
pub open spec fn starts_new_second(t: Transfer, secs: nat) -> bool {
    secs != t.second
}

/// `" {received}/{size} MB"`.
pub open spec fn amount_text(received_mb: nat, size_mb: nat) -> Seq<char> {
    decimal(received_mb) + seq!['/'] + decimal(size_mb) + seq![' ', 'M', 'B']
}

/// The first five characters of `s`, or `s` when it is shorter.
pub open spec fn first_five(s: Seq<char>) -> Seq<char> {
    if s.len() >= 5 { s.take(5) } else { s }
}

/// The status line while data arrives. Below a megabyte per second
/// (`whole_mb_per_s` is `None`) the speed is the first five characters of
/// `speed_text` labelled `KB/s`; from a megabyte per second on it is the
/// whole megabytes per second labelled `MB/s`. Then the megabytes received
/// and the megabytes in all.
pub open spec fn status_text(speed_text: Seq<char>, whole_mb_per_s: Option<u64>, received_mb: nat, size_mb: nat) -> Seq<char> {
    seq![' ', ' '] + (match whole_mb_per_s {
        None => first_five(speed_text) + seq!['K', 'B', '/', 's', ' '],
        Some(v) => decimal(v as nat) + seq!['M', 'B', '/', 's', ' '],
    }) + amount_text(received_mb, size_mb)
}

/// The status line once no more data comes.
pub open spec fn finished_text(received_mb: nat, size_mb: nat) -> Seq<char> {
    seq![' ', ' ', '0', 'M', 'B', '/', 's', ' '] + amount_text(received_mb, size_mb)
}

/// What the response stream gave: a chunk of so many bytes, its end, or
/// an error.
#[derive(Clone, Copy, Debug, PartialEq, Eq, Structural)]
pub enum StreamEvent {
    Chunk(u64),
    End,
    Failed,
}

/// What the download does after a stream event.
#[derive(Clone, Copy, Debug, PartialEq, Eq, Structural)]
pub enum StreamStep {
    /// Go on reading; `new_second` when the chunk started a new second,
    /// whose speed is then taken over and the written data flushed.
    Continue { new_second: bool },
    /// Stop reading; `finished` when the stream ended, which shows the
    /// finished status line, and not when it failed, which shows nothing new.
    Stop { finished: bool },
}

impl Downloader {
    /// Counters for a download of unknown size that has not begun.
    pub fn new() -> (d: Self)
        ensures
            d@ == fresh_transfer(0),
    {
        Downloader { size: 0, downloaded: 0, second: 0 }
    }

    /// Starts counting a download of `size` bytes.
    pub fn start(&mut self, size: u64)
        ensures
            final(self)@ == fresh_transfer(size as nat),
    {
        *self = Downloader { size, downloaded: 0, second: 0 };
    }

    /// Counts a chunk of `len` bytes that arrived `secs` whole seconds
    /// after the start. Returns whether it started a new second.
    pub fn record_chunk(&mut self, len: u64, secs: u64) -> (new_second: bool)
        requires
            old(self)@.downloaded + len <= u64::MAX,
        ensures
            final(self)@ == after_chunk(old(self)@, len as nat, secs as nat),
            new_second == starts_new_second(old(self)@, secs as nat),
    {
        let new_second = secs != self.second;
        self.downloaded = self.downloaded + len;
        self.second = secs;
        new_second
    }

    /// The download's answer to a stream event `secs` whole seconds after
    /// the start: a chunk is counted and reading goes on; the end stops it
    /// with the finished status line; an error stops it with no new line.
    pub fn on_event(&mut self, event: StreamEvent, secs: u64) -> (step: StreamStep)
        requires
            event matches StreamEvent::Chunk(len) ==> old(self)@.downloaded + len <= u64::MAX,
        ensures
            event matches StreamEvent::Chunk(len) ==> final(self)@ == after_chunk(old(self)@, len as nat, secs as nat)
                && step == (StreamStep::Continue { new_second: starts_new_second(old(self)@, secs as nat) }),
            event is End ==> final(self)@ == old(self)@ && step == (StreamStep::Stop { finished: true }),
            event is Failed ==> final(self)@ == old(self)@ && step == (StreamStep::Stop { finished: false }),
    {
        match event {
            StreamEvent::Chunk(len) => {
                let new_second = self.record_chunk(len, secs);
                StreamStep::Continue { new_second }
            },
            StreamEvent::End => StreamStep::Stop { finished: true },
            StreamEvent::Failed => StreamStep::Stop { finished: false },
        }
    }

    /// The bytes received so far.
    pub fn downloaded(&self) -> (n: u64)
        ensures
            n == self@.downloaded,
    {
        self.downloaded
    }

    /// The size announced for the download.
    pub fn size(&self) -> (n: u64)
        ensures
            n == self@.size,
    {
        self.size
    }
}

fn push_amount(out: &mut String, received_mb: u64, size_mb: u64)
    ensures
        final(out)@ == old(out)@ + amount_text(received_mb as nat, size_mb as nat),
{
    let received = decimal_string(received_mb);
    let total = decimal_string(size_mb);
    out.append(received.as_str());
    push_char(out, '/');
    out.append(total.as_str());
    push_char(out, ' ');
    push_char(out, 'M');
    push_char(out, 'B');
    assert(out@ =~= old(out)@ + amount_text(received_mb as nat, size_mb as nat));
}

/// The status line while data arrives: the speed, given as the caller's
/// text of its megabytes per second when below one (`whole_mb_per_s` is
/// `None`) and as whole megabytes per second otherwise, then the
/// megabytes received of the megabytes in all.
pub fn status_message(speed_text: &str, whole_mb_per_s: Option<u64>, received_mb: u64, size_mb: u64) -> (m: String)
    ensures
        m@ == status_text(speed_text@, whole_mb_per_s, received_mb as nat, size_mb as nat),
{
    let mut m = String::new();
    push_char(&mut m, ' ');
    push_char(&mut m, ' ');
    match whole_mb_per_s {
        None => {
            let n = speed_text.unicode_len();
            if n >= 5 {
                m.append(speed_text.substring_char(0, 5));
            } else {
                m.append(speed_text);
            }
            push_char(&mut m, 'K');
        },
        Some(v) => {
            let speed = decimal_string(v);
            m.append(speed.as_str());
            push_char(&mut m, 'M');
        },
    }
    push_char(&mut m, 'B');
    push_char(&mut m, '/');
    push_char(&mut m, 's');
    push_char(&mut m, ' ');
    push_amount(&mut m, received_mb, size_mb);
    assert(m@ =~= status_text(speed_text@, whole_mb_per_s, received_mb as nat, size_mb as nat));
    m
}

/// The status line once no more data comes.
pub fn finished_message(received_mb: u64, size_mb: u64) -> (m: String)
    ensures
        m@ == finished_text(received_mb as nat, size_mb as nat),
{
    let mut m = String::new();
    push_char(&mut m, ' ');
    push_char(&mut m, ' ');
    push_char(&mut m, '0');
    push_char(&mut m, 'M');
    push_char(&mut m, 'B');
    push_char(&mut m, '/');
    push_char(&mut m, 's');
    push_char(&mut m, ' ');
    push_amount(&mut m, received_mb, size_mb);
    assert(m@ =~= finished_text(received_mb as nat, size_mb as nat));
    m
}

/// The counters after chunks `(length, whole seconds)` arrived in order.
pub open spec fn after_chunks(t: Transfer, chunks: Seq<(nat, nat)>) -> Transfer
    decreases chunks.len(),
{
    if chunks.len() == 0 {
        t
    } else {
        after_chunks(after_chunk(t, chunks[0].0, chunks[0].1), chunks.drop_first())
    }
}

/// The total length of chunks.
pub open spec fn total_length(chunks: Seq<(nat, nat)>) -> nat
    decreases chunks.len(),
{
    if chunks.len() == 0 {
        0
    } else {
        chunks[0].0 + total_length(chunks.drop_first())
    }
}

/// Every chunk is counted once: after any chunks, the bytes received grew
/// by their total length, so never went back, and the size stayed.
pub proof fn lemma_every_chunk_counted(t: Transfer, chunks: Seq<(nat, nat)>)
    ensures
        after_chunks(t, chunks).downloaded == t.downloaded + total_length(chunks),
        after_chunks(t, chunks).downloaded >= t.downloaded,
        after_chunks(t, chunks).size == t.size,
    decreases chunks.len(),
{
    if chunks.len() > 0 {
        lemma_every_chunk_counted(after_chunk(t, chunks[0].0, chunks[0].1), chunks.drop_first());
    }
}

/// Chunks within one second start no new second after the first of them.
pub proof fn lemma_same_second_starts_nothing(t: Transfer, len: nat, secs: nat, more: nat)
    ensures
        !starts_new_second(after_chunk(t, len, secs), secs),
        starts_new_second(after_chunk(t, len, secs), more) <==> more != secs,
{
}

} // verus!
