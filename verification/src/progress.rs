//! The progress line: a message, the elapsed time, a bar and a percentage.

use vstd::prelude::*;
use vstd::string::StringSliceAdditionalSpecFns;
use vstd::utf8::{encode_utf8, is_ascii_chars, is_ascii_chars_encode_utf8};
use crate::text::{
    decimal, decimal_string, digit_char, lemma_decimal_length, pad_left, pow10, push_char, push_padded,
    push_repeated, repeat, signed_decimal, signed_decimal_string,
};

verus! {

/// `"  {minutes}:{seconds, two digits} "` for an elapsed time in seconds.
pub open spec fn elapsed_text(secs: nat) -> Seq<char> {
    seq![' ', ' '] + decimal(secs / 60) + seq![':'] + pad_left(decimal(secs % 60), 2, '0') + seq![' ']
}

/// `" {percent, right-aligned in three columns}% "`.
pub open spec fn percent_text(percent: int) -> Seq<char> {
    seq![' '] + pad_left(signed_decimal(percent), 3, ' ') + seq!['%', ' ']
}

/// The columns left for the bar: the terminal width less the lengths of
/// the elapsed time, the percentage, the two brackets and the message's
/// bytes.
pub open spec fn bar_width(message_bytes: nat, secs: nat, percent: int, term_width: nat) -> int {
    term_width - (elapsed_text(secs).len() + percent_text(percent).len() + 2 + message_bytes)
}

/// A bar `width` columns wide with `done` of them filled: brackets around
/// the `#`s and the `-`s; nothing when there is no room.
pub open spec fn bar_text(width: int, done: int) -> Seq<char> {
    if width > 0 {
        seq!['['] + repeat('#', if done > 0 { done as nat } else { 0 })
            + repeat('-', if width - done > 0 { (width - done) as nat } else { 0 }) + seq![']']
    } else {
        Seq::empty()
    }
}

/// The progress line: message, elapsed time, bar, percentage.
pub open spec fn progress_text(message: Seq<char>, message_bytes: nat, secs: nat, percent: int, term_width: nat, done: int) -> Seq<char> {
    message + elapsed_text(secs) + bar_text(bar_width(message_bytes, secs, percent, term_width), done)
        + percent_text(percent)
}

/// The elapsed time as the progress line writes it.
pub fn elapsed_string(secs: u64) -> (s: String)
    ensures
        s@ == elapsed_text(secs as nat),
        s@.len() <= 26,
{
    let minutes = decimal_string(secs / 60);
    let seconds = decimal_string(secs % 60);
    proof {
        assert(pow10(20) == 100_000_000_000_000_000_000) by {
            reveal_with_fuel(pow10, 21);
        }
        lemma_decimal_length((secs / 60) as nat, 20);
        assert(pow10(2) == 100) by {
            reveal_with_fuel(pow10, 3);
        }
        lemma_decimal_length((secs % 60) as nat, 2);
    }
    let mut s = String::new();
    push_char(&mut s, ' ');
    push_char(&mut s, ' ');
    s.append(minutes.as_str());
    push_char(&mut s, ':');
    push_padded(&mut s, seconds.as_str(), 2, '0');
    push_char(&mut s, ' ');
    assert(s@ =~= elapsed_text(secs as nat));
    s
}

/// The percentage as the progress line writes it.
pub fn percent_string(percent: i32) -> (s: String)
    ensures
        s@ == percent_text(percent as int),
        s@.len() <= 14,
{
    let digits = signed_decimal_string(percent as i64);
    proof {
        assert(pow10(10) == 10_000_000_000) by {
            reveal_with_fuel(pow10, 11);
        }
        if percent < 0 {
            lemma_decimal_length((-percent) as nat, 10);
        } else {
            lemma_decimal_length(percent as nat, 10);
        }
    }
    let mut s = String::new();
    push_char(&mut s, ' ');
    push_padded(&mut s, digits.as_str(), 3, ' ');
    push_char(&mut s, '%');
    push_char(&mut s, ' ');
    assert(s@ =~= percent_text(percent as int));
    s
}

/// The columns left for the bar beside `message` after `secs` seconds at
/// `percent` on a terminal `term_width` columns wide.
pub fn progress_bar_width(message: &str, secs: u64, percent: i32, term_width: u16) -> (w: isize)
    requires
        message.spec_bytes().len() + 64 <= isize::MAX,
    ensures
        w == bar_width(message.spec_bytes().len(), secs as nat, percent as int, term_width as nat),
{
    let time = elapsed_string(secs);
    let pct = percent_string(percent);
    let used: usize = time.as_str().unicode_len() + pct.as_str().unicode_len() + 2 + message.len();
    term_width as isize - used as isize
}

/// The progress line for `message` after `secs` seconds at `percent`, on
/// a terminal `term_width` columns wide, with `done` columns of the bar
/// filled.
pub fn progress_line(message: &str, secs: u64, percent: i32, term_width: u16, done: i32) -> (line: String)
    requires
        message.spec_bytes().len() + 64 <= isize::MAX,
        bar_width(message.spec_bytes().len(), secs as nat, percent as int, term_width as nat) > 0
            ==> bar_width(message.spec_bytes().len(), secs as nat, percent as int, term_width as nat) - done <= i32::MAX,
    ensures
        line@ == progress_text(message@, message.spec_bytes().len(), secs as nat, percent as int, term_width as nat, done as int),
{
    let width = progress_bar_width(message, secs, percent, term_width);
    let time = elapsed_string(secs);
    let pct = percent_string(percent);
    let mut line = String::new();
    line.append(message);
    line.append(time.as_str());
    if width > 0 {
        push_char(&mut line, '[');
        if done > 0 {
            push_repeated(&mut line, '#', done as u64);
        }
        let rest: i64 = width as i64 - done as i64;
        if rest > 0 {
            push_repeated(&mut line, '-', rest as u64);
        }
        push_char(&mut line, ']');
    }
    line.append(pct.as_str());
    proof {
        assert(repeat('#', 0) =~= Seq::<char>::empty());
        assert(repeat('-', 0) =~= Seq::<char>::empty());
    }
    assert(line@ =~= progress_text(message@, message.spec_bytes().len(), secs as nat, percent as int, term_width as nat, done as int));
    line
}

/// The UTF-8 bytes of two texts one after the other are the bytes of the
/// first followed by those of the second.
pub proof fn lemma_bytes_of_concat(a: Seq<char>, b: Seq<char>)
    ensures
        encode_utf8(a + b) == encode_utf8(a) + encode_utf8(b),
    decreases a.len(),
{
    if a.len() == 0 {
        assert(a + b =~= b);
        assert(encode_utf8(a) + encode_utf8(b) =~= encode_utf8(b));
    } else {
        assert((a + b).drop_first() =~= a.drop_first() + b);
        assert((a + b)[0] == a[0]);
        lemma_bytes_of_concat(a.drop_first(), b);
        assert(encode_utf8(a + b) =~= encode_utf8(a) + encode_utf8(b));
    }
}

proof fn lemma_ascii_concat(a: Seq<char>, b: Seq<char>)
    requires
        is_ascii_chars(a),
        is_ascii_chars(b),
    ensures
        is_ascii_chars(a + b),
{
    assert forall|i: int| 0 <= i < (a + b).len() implies '\0' <= #[trigger] (a + b)[i] <= '\u{7f}' by {
        if i < a.len() {
            assert((a + b)[i] == a[i]);
        } else {
            assert((a + b)[i] == b[i - a.len()]);
        }
    }
}

proof fn lemma_repeat_ascii(c: char, n: nat)
    requires
        '\0' <= c <= '\u{7f}',
    ensures
        is_ascii_chars(repeat(c, n)),
{
}

proof fn lemma_decimal_ascii(n: nat)
    ensures
        is_ascii_chars(decimal(n)),
    decreases n,
{
    if n >= 10 {
        lemma_decimal_ascii(n / 10);
        lemma_ascii_concat(decimal(n / 10), seq![digit_char(n % 10)]);
        assert(decimal(n) =~= decimal(n / 10) + seq![digit_char(n % 10)]);
    }
}

proof fn lemma_signed_decimal_ascii(i: int)
    ensures
        is_ascii_chars(signed_decimal(i)),
{
    if i < 0 {
        lemma_decimal_ascii((-i) as nat);
        lemma_ascii_concat(seq!['-'], decimal((-i) as nat));
    } else {
        lemma_decimal_ascii(i as nat);
    }
}

proof fn lemma_pad_left_ascii(s: Seq<char>, width: nat, fill: char)
    requires
        is_ascii_chars(s),
        '\0' <= fill <= '\u{7f}',
    ensures
        is_ascii_chars(pad_left(s, width, fill)),
{
    if s.len() < width {
        lemma_repeat_ascii(fill, (width - s.len()) as nat);
        lemma_ascii_concat(repeat(fill, (width - s.len()) as nat), s);
    }
}

proof fn lemma_fixed_parts_ascii(secs: nat, percent: int, width: int, done: int)
    ensures
        is_ascii_chars(elapsed_text(secs)),
        is_ascii_chars(percent_text(percent)),
        is_ascii_chars(bar_text(width, done)),
{
    lemma_decimal_ascii(secs / 60);
    lemma_decimal_ascii(secs % 60);
    lemma_pad_left_ascii(decimal(secs % 60), 2, '0');
    let e1 = seq![' ', ' '] + decimal(secs / 60);
    lemma_ascii_concat(seq![' ', ' '], decimal(secs / 60));
    lemma_ascii_concat(e1, seq![':']);
    lemma_ascii_concat(e1 + seq![':'], pad_left(decimal(secs % 60), 2, '0'));
    lemma_ascii_concat(e1 + seq![':'] + pad_left(decimal(secs % 60), 2, '0'), seq![' ']);
    lemma_signed_decimal_ascii(percent);
    lemma_pad_left_ascii(signed_decimal(percent), 3, ' ');
    lemma_ascii_concat(seq![' '], pad_left(signed_decimal(percent), 3, ' '));
    lemma_ascii_concat(seq![' '] + pad_left(signed_decimal(percent), 3, ' '), seq!['%', ' ']);
    if width > 0 {
        let hashes = repeat('#', if done > 0 { done as nat } else { 0 });
        let dashes = repeat('-', if width - done > 0 { (width - done) as nat } else { 0 });
        lemma_repeat_ascii('#', if done > 0 { done as nat } else { 0 });
        lemma_repeat_ascii('-', if width - done > 0 { (width - done) as nat } else { 0 });
        lemma_ascii_concat(seq!['['], hashes);
        lemma_ascii_concat(seq!['['] + hashes, dashes);
        lemma_ascii_concat(seq!['['] + hashes + dashes, seq![']']);
    } else {
        assert(bar_text(width, done) =~= Seq::<char>::empty());
    }
}

/// With room for a bar and at most its width filled, the progress line
/// is exactly as many bytes as the terminal is wide, whatever the message:
/// the message's bytes, the elapsed time, the bar of `bar_width` columns
/// between its brackets, and the percentage.
pub proof fn lemma_line_fills_the_terminal(message: Seq<char>, secs: nat, percent: int, term_width: nat, done: int)
    requires
        bar_width(encode_utf8(message).len(), secs, percent, term_width) > 0,
        0 <= done <= bar_width(encode_utf8(message).len(), secs, percent, term_width),
    ensures
        encode_utf8(progress_text(message, encode_utf8(message).len(), secs, percent, term_width, done)).len()
            == term_width,
        bar_text(bar_width(encode_utf8(message).len(), secs, percent, term_width), done).len()
            == bar_width(encode_utf8(message).len(), secs, percent, term_width) + 2,
{
    let w = bar_width(encode_utf8(message).len(), secs, percent, term_width);
    let e = elapsed_text(secs);
    let b = bar_text(w, done);
    let p = percent_text(percent);
    assert(b.len() == w + 2);
    lemma_fixed_parts_ascii(secs, percent, w, done);
    is_ascii_chars_encode_utf8(e);
    is_ascii_chars_encode_utf8(b);
    is_ascii_chars_encode_utf8(p);
    lemma_bytes_of_concat(message, e);
    lemma_bytes_of_concat(message + e, b);
    lemma_bytes_of_concat(message + e + b, p);
}

/// The bar as drawn: with room for it and `0 <= done <= width`, the line
/// holds, right after the message and the elapsed time, a `[`, then
/// exactly `done` columns of `#`, then exactly `width - done` columns of
/// `-`, then a `]`, and then the percentage.
pub proof fn lemma_bar_shows_the_part_done(message: Seq<char>, message_bytes: nat, secs: nat, percent: int, term_width: nat, done: int)
    requires
        bar_width(message_bytes, secs, percent, term_width) > 0,
        0 <= done <= bar_width(message_bytes, secs, percent, term_width),
    ensures ({
        let w = bar_width(message_bytes, secs, percent, term_width);
        let line = progress_text(message, message_bytes, secs, percent, term_width, done);
        let at: int = message.len() as int + elapsed_text(secs).len() as int;
        &&& line.len() == at + w + 2 + percent_text(percent).len()
        &&& line.take(message.len() as int) == message
        &&& line[at] == '['
        &&& (forall|i: int| at + 1 <= i <= at + done ==> line[i] == '#')
        &&& (forall|i: int| at + done < i <= at + w ==> line[i] == '-')
        &&& line[at + w + 1] == ']'
        &&& line.skip(at + w + 2) == percent_text(percent)
    }),
{
    let w = bar_width(message_bytes, secs, percent, term_width);
    let line = progress_text(message, message_bytes, secs, percent, term_width, done);
    let at: int = message.len() as int + elapsed_text(secs).len() as int;
    let head = message + elapsed_text(secs);
    let bar = bar_text(w, done);
    let hashes = repeat('#', done as nat);
    let dashes = repeat('-', (w - done) as nat);
    assert(bar =~= seq!['['] + hashes + dashes + seq![']']);
    assert(line =~= head + bar + percent_text(percent));
    assert forall|i: int| at + 1 <= i <= at + done implies line[i] == '#' by {
        assert(line[i] == bar[i - at]);
        assert(bar[i - at] == hashes[i - at - 1]);
    }
    assert forall|i: int| at + done < i <= at + w implies line[i] == '-' by {
        assert(line[i] == bar[i - at]);
        assert(bar[i - at] == dashes[i - at - 1 - done]);
    }
    assert(line[at] == bar[0]);
    assert(line[at + w + 1] == bar[w + 1]);
    assert(line.take(message.len() as int) =~= message);
    assert(line.skip(at + w + 2) =~= percent_text(percent));
}

} // verus!
