use vstd::prelude::*;

use crate::args::MediaModes;
use crate::strings::{decimal, push_char, push_decimal};

verus! {

pub const TEMPORARY_IMAGE_FILE_NAME: &'static str = "ImageToTextTemp.bmp";

/// Whether the input is played as a video: as the media mode says, and
/// without one, when `ffprobe` counted more than one frame.
pub fn is_video(media_mode: Option<MediaModes>, frames: Option<u32>) -> (r: bool)
    ensures
        r == match media_mode {
            Some(MediaModes::Video) => true,
            Some(MediaModes::Image) => false,
            None => frames matches Some(n) && n > 1,
        },
{
    match media_mode {
        Some(MediaModes::Video) => true,
        Some(MediaModes::Image) => false,
        None => match frames {
            Some(x) if x > 1 => true,
            _ => false,
        },
    }
}

/// The number of `\n` in `s`.
pub open spec fn newline_count(s: Seq<char>) -> nat
    decreases s.len(),
{
    if s.len() == 0 {
        0
    } else {
        newline_count(s.drop_last()) + if s.last() == '\n' {
            1nat
        } else {
            0nat
        }
    }
}

/// How many lines `str::lines` finds in `s`: one per `\n`, and one more for
/// text after the last `\n`.
pub open spec fn line_count(s: Seq<char>) -> nat {
    newline_count(s) + if s.len() > 0 && s.last() != '\n' {
        1nat
    } else {
        0nat
    }
}

/// The number of lines above the last one in a frame's text: how far the
/// cursor has to go back up before the next frame.
pub fn rows_after(text: &str) -> (rows: usize)
    requires
        line_count(text@) >= 1,
    ensures
        rows == line_count(text@) - 1,
{
    let n = text.unicode_len();
    let mut count: usize = 0;
    let mut last: Option<char> = None;
    for c in it: text.chars()
        invariant
            n == text@.len(),
            it.seq() == text@,
            count == newline_count(text@.take(it.index() as int)),
            count <= it.index(),
            it.index() <= text@.len(),
            last == (if it.index() == 0 {
                None
            } else {
                Some(text@[it.index() - 1])
            }),
    {
        let ghost k = it.index();
        assert(text@.take(k + 1).drop_last() == text@.take(k));
        assert(text@.take(k + 1).last() == c);
        if c == '\n' {
            count = count + 1;
        }
        last = Some(c);
    }
    assert(text@.take(text@.len() as int) == text@);
    match last {
        Some(c) if c != '\n' => count,
        _ => count - 1,
    }
}

/// The escape that moves the cursor to the start of the line and `rows`
/// lines up, so that the next frame overwrites the last one; nothing for 0.
pub open spec fn frame_prefix_spec(rows: nat) -> Seq<char> {
    if rows == 0 {
        Seq::empty()
    } else {
        "\x1b[1G\x1b["@ + decimal(rows) + seq!['A']
    }
}

/// The escape written before a frame whose predecessor left `rows` lines
/// above the cursor.
pub fn frame_prefix(rows: usize) -> (s: String)
    ensures
        s@ == frame_prefix_spec(rows as nat),
{
    if rows != 0 {
        let mut s = String::from_str("\x1b[1G\x1b[");
        push_decimal(&mut s, rows as u64);
        push_char(&mut s, 'A');
        s
    } else {
        String::new()
    }
}

/// `s` holds no `\n`.
pub open spec fn no_newline(s: Seq<char>) -> bool {
    forall|i: int| 0 <= i < s.len() ==> s[i] != '\n'
}

/// Newlines of a joined text are those of its parts.
pub proof fn lemma_newline_count_concat(a: Seq<char>, b: Seq<char>)
    ensures
        newline_count(a + b) == newline_count(a) + newline_count(b),
    decreases b.len(),
{
    if b.len() > 0 {
        lemma_newline_count_concat(a, b.drop_last());
        assert((a + b).drop_last() == a + b.drop_last());
        assert((a + b).last() == b.last());
    } else {
        assert(a + b == a);
    }
}

/// A text without newlines counts none.
pub proof fn lemma_no_newline_count(s: Seq<char>)
    requires
        no_newline(s),
    ensures
        newline_count(s) == 0,
    decreases s.len(),
{
    if s.len() > 0 {
        assert(no_newline(s.drop_last()));
        lemma_no_newline_count(s.drop_last());
    }
}

} // verus!
