use vstd::prelude::*;

use crate::strings::{
    chars_of, decimal, has_prefix, parse_u32, parse_u32_spec, push_decimal, range_equals,
    range_has_prefix, string_from_range,
};

verus! {

/// What `ffprobe -show_streams` reports of the first video stream.
///
/// The duration is kept as the text that `ffprobe` printed; reading it as a
/// number of seconds is left to the caller.
pub struct Meta {
    pub scale: (u32, u32),
    pub duration: Option<String>,
    pub frames: Option<u32>,
    pub fps: Option<String>,
}

/// `Meta` with its strings taken as character sequences.
pub struct MetaView {
    pub scale: (u32, u32),
    pub duration: Option<Seq<char>>,
    pub frames: Option<u32>,
    pub fps: Option<Seq<char>>,
}

pub open spec fn opt_string_view(o: Option<String>) -> Option<Seq<char>> {
    match o {
        Some(s) => Some(s@),
        None => None,
    }
}

impl View for Meta {
    type V = MetaView;

    open spec fn view(&self) -> MetaView {
        MetaView {
            scale: self.scale,
            duration: opt_string_view(self.duration),
            frames: self.frames,
            fps: opt_string_view(self.fps),
        }
    }
}

/// Nothing read yet: no size, no duration, no frame count, no frame rate.
pub open spec fn meta_start() -> MetaView {
    MetaView { scale: (0, 0), duration: None, frames: None, fps: None }
}

/// The effect of one line of `ffprobe` output. Only the first of the keys
/// `r_frame_rate`, `nb_frames`, `duration`, `width`, `height` that the line
/// starts with counts; a later line overrides an earlier one, except that a
/// frame rate of `N/A` and a width or height that is not a `u32` are ignored.
pub open spec fn probe_line(st: MetaView, line: Seq<char>) -> MetaView {
    if has_prefix(line, "r_frame_rate="@) {
        let x = line.skip("r_frame_rate="@.len() as int);
        if x == "N/A"@ {
            st
        } else {
            MetaView { fps: Some(x), ..st }
        }
    } else if has_prefix(line, "nb_frames="@) {
        MetaView { frames: parse_u32_spec(line.skip("nb_frames="@.len() as int)), ..st }
    } else if has_prefix(line, "duration="@) {
        MetaView { duration: Some(line.skip("duration="@.len() as int)), ..st }
    } else if has_prefix(line, "width="@) {
        match parse_u32_spec(line.skip("width="@.len() as int)) {
            Some(w) => MetaView { scale: (w, st.scale.1), ..st },
            None => st,
        }
    } else if has_prefix(line, "height="@) {
        match parse_u32_spec(line.skip("height="@.len() as int)) {
            Some(h) => MetaView { scale: (st.scale.0, h), ..st },
            None => st,
        }
    } else {
        st
    }
}

/// A line ended by `\n` loses one `\r` before the `\n`, as `str::lines` does.
pub open spec fn strip_cr(line: Seq<char>) -> Seq<char> {
    if line.len() > 0 && line.last() == '\r' {
        line.drop_last()
    } else {
        line
    }
}

/// Feeds the lines of `rest` (as `str::lines` splits them) to `probe_line`,
/// `line` being the part of the current line already read.
pub open spec fn probe_text(st: MetaView, line: Seq<char>, rest: Seq<char>) -> MetaView
    decreases rest.len(),
{
    if rest.len() == 0 {
        if line.len() == 0 {
            st
        } else {
            probe_line(st, line)
        }
    } else if rest[0] == '\n' {
        probe_text(probe_line(st, strip_cr(line)), Seq::empty(), rest.skip(1))
    } else {
        probe_text(st, line.push(rest[0]), rest.skip(1))
    }
}

/// The whole of `ffprobe`'s output, read line by line.
pub open spec fn probe_all(text: Seq<char>) -> MetaView {
    probe_text(meta_start(), Seq::empty(), text)
}

fn apply_line(m: &mut Meta, cs: &[char], from: usize, to: usize)
    requires
        from <= to <= cs@.len(),
    ensures
        final(m)@ == probe_line(old(m)@, cs@.subrange(from as int, to as int)),
{
    let ghost line = cs@.subrange(from as int, to as int);
    proof {
        reveal_strlit("r_frame_rate=");
        reveal_strlit("nb_frames=");
        reveal_strlit("duration=");
        reveal_strlit("width=");
        reveal_strlit("height=");
    }
    if range_has_prefix(cs, from, to, "r_frame_rate=") {
        let start = from + 13;
        assert(cs@.subrange(start as int, to as int) == line.skip(13));
        if !range_equals(cs, start, to, "N/A") {
            m.fps = Some(string_from_range(cs, start, to));
        }
    } else if range_has_prefix(cs, from, to, "nb_frames=") {
        let start = from + 10;
        assert(cs@.subrange(start as int, to as int) == line.skip(10));
        m.frames = parse_u32(cs, start, to);
    } else if range_has_prefix(cs, from, to, "duration=") {
        let start = from + 9;
        assert(cs@.subrange(start as int, to as int) == line.skip(9));
        m.duration = Some(string_from_range(cs, start, to));
    } else if range_has_prefix(cs, from, to, "width=") {
        let start = from + 6;
        assert(cs@.subrange(start as int, to as int) == line.skip(6));
        if let Some(w) = parse_u32(cs, start, to) {
            m.scale = (w, m.scale.1);
        }
    } else if range_has_prefix(cs, from, to, "height=") {
        let start = from + 7;
        assert(cs@.subrange(start as int, to as int) == line.skip(7));
        if let Some(h) = parse_u32(cs, start, to) {
            m.scale = (m.scale.0, h);
        }
    }
}

/// Reads the output of `ffprobe -show_streams` (`key=value` lines) into a
/// [`Meta`]. Empty output is an error, and so is output that names no
/// non-zero width and height.
#[verifier::spinoff_prover]
pub fn parse_meta(stdout: &str) -> (res: Result<Meta, String>)
    ensures
        stdout@.len() == 0 ==> (res matches Err(e) && e@
            == "file is not an image or video (or not parsable by ffmpeg)"@),
        stdout@.len() > 0 ==> {
            let m = probe_all(stdout@);
            if m.scale.0 == 0 || m.scale.1 == 0 {
                (res matches Err(e) && e@ == "No width or height found in ffprobe result"@)
            } else {
                (res matches Ok(r) && r@ == m)
            }
        },
{
    let cs = chars_of(stdout);
    if cs.len() == 0 {
        return Err(String::from_str("file is not an image or video (or not parsable by ffmpeg)"));
    }
    let mut m = Meta { scale: (0, 0), duration: None, frames: None, fps: None };
    let n = cs.len();
    let mut line_start: usize = 0;
    let mut i: usize = 0;
    assert(cs@.skip(0) == cs@);
    assert(cs@.subrange(0, 0) == Seq::<char>::empty());
    assert(m@ == meta_start());
    while i < n
        invariant
            n == cs@.len(),
            line_start <= i <= n,
            probe_text(m@, cs@.subrange(line_start as int, i as int), cs@.skip(i as int))
                == probe_all(cs@),
        decreases n - i,
    {
        let ghost line = cs@.subrange(line_start as int, i as int);
        assert(cs@.skip(i as int)[0] == cs@[i as int]);
        assert(cs@.skip(i as int).skip(1) == cs@.skip(i + 1));
        if cs[i] == '\n' {
            let mut end = i;
            if end > line_start && cs[end - 1] == '\r' {
                end = end - 1;
            }
            assert(cs@.subrange(line_start as int, end as int) == strip_cr(line));
            apply_line(&mut m, &cs, line_start, end);
            line_start = i + 1;
            assert(cs@.subrange(line_start as int, i + 1) == Seq::<char>::empty());
        } else {
            assert(cs@.subrange(line_start as int, i + 1) == line.push(cs@[i as int]));
        }
        i = i + 1;
    }
    if line_start < n {
        apply_line(&mut m, &cs, line_start, n);
    }
    if m.scale.0 == 0 || m.scale.1 == 0 {
        return Err(String::from_str("No width or height found in ffprobe result"));
    }
    Ok(m)
}

/// The texts of a list of strings.
pub open spec fn texts(v: Seq<String>) -> Seq<Seq<char>> {
    v.map_values(|s: String| s@)
}

/// The arguments of the `ffmpeg` run that decodes the input into raw RGB
/// frames of the internal size, at the input's frame rate, on its stdout.
pub open spec fn ffmpeg_args_spec(
    input: Seq<char>,
    fps: Seq<char>,
    format: Option<Seq<char>>,
    internal_scale: (u32, u32),
) -> Seq<Seq<char>> {
    seq!["-y"@] + match format {
        Some(f) => seq!["-f"@, f],
        None => Seq::empty(),
    } + seq![
        "-readrate"@,
        "1.0"@,
        "-i"@,
        input,
        "-vf"@,
        "scale="@ + decimal(internal_scale.0 as nat) + seq![':'] + decimal(
            internal_scale.1 as nat,
        ) + ",fps="@ + fps,
        "-pix_fmt"@,
        "rgb24"@,
        "-f"@,
        "rawvideo"@,
        "pipe:1"@,
    ]
}

fn push_str(v: &mut Vec<String>, s: &str)
    ensures
        final(v)@.len() == old(v)@.len() + 1,
        texts(final(v)@) == texts(old(v)@).push(s@),
{
    v.push(String::from_str(s));
    assert(texts(v@) =~= texts(old(v)@).push(s@));
}

fn push_string(v: &mut Vec<String>, s: String)
    ensures
        texts(final(v)@) == texts(old(v)@).push(s@),
{
    let ghost t = s@;
    v.push(s);
    assert(texts(v@) =~= texts(old(v)@).push(t));
}

/// The arguments `Pegger::new` hands to `ffmpeg`: the input path, the frame
/// rate that `ffprobe` reported, an input format when one was given, and the
/// size frames are scaled to.
pub fn ffmpeg_args(
    input_file: &str,
    fps: &Option<String>,
    format: &Option<String>,
    internal_scale: (u32, u32),
) -> (args: Vec<String>)
    requires
        fps is Some,
    ensures
        texts(args@) == ffmpeg_args_spec(
            input_file@,
            fps->0@,
            opt_string_view(*format),
            internal_scale,
        ),
{
    let mut args: Vec<String> = Vec::new();
    push_str(&mut args, "-y");
    if let Some(format) = format {
        push_str(&mut args, "-f");
        push_str(&mut args, format.as_str());
    }
    let ghost fmt_part: Seq<Seq<char>> = match opt_string_view(*format) {
        Some(f) => seq!["-f"@, f],
        None => Seq::empty(),
    };
    assert(texts(args@) =~= seq!["-y"@] + fmt_part);
    push_str(&mut args, "-readrate");
    push_str(&mut args, "1.0");
    push_str(&mut args, "-i");
    push_str(&mut args, input_file);
    push_str(&mut args, "-vf");
    let mut filter = String::from_str("scale=");
    push_decimal(&mut filter, internal_scale.0 as u64);
    crate::strings::push_char(&mut filter, ':');
    push_decimal(&mut filter, internal_scale.1 as u64);
    filter.append(",fps=");
    match fps {
        Some(f) => filter.append(f.as_str()),
        None => {},
    }
    assert(filter@ == "scale="@ + decimal(internal_scale.0 as nat) + seq![':'] + decimal(
            internal_scale.1 as nat,
        ) + ",fps="@ + fps->0@);
    push_string(&mut args, filter);
    push_str(&mut args, "-pix_fmt");
    push_str(&mut args, "rgb24");
    push_str(&mut args, "-f");
    push_str(&mut args, "rawvideo");
    push_str(&mut args, "pipe:1");
    assert(texts(args@) =~= ffmpeg_args_spec(
        input_file@,
        fps->0@,
        opt_string_view(*format),
        internal_scale,
    ));
    args
}

/// The arguments of the `ffplay` run that plays the input's sound at `volume`.
pub fn ffplay_args(file_name: &str, volume: u8) -> (args: Vec<String>)
    ensures
        texts(args@) == seq![
            file_name@,
            "-nodisp"@,
            "-autoexit"@,
            "-v"@,
            "quiet"@,
            "-volume"@,
            decimal(volume as nat),
        ],
{
    let mut args: Vec<String> = Vec::new();
    push_str(&mut args, file_name);
    push_str(&mut args, "-nodisp");
    push_str(&mut args, "-autoexit");
    push_str(&mut args, "-v");
    push_str(&mut args, "quiet");
    push_str(&mut args, "-volume");
    let mut v = String::new();
    push_decimal(&mut v, volume as u64);
    push_string(&mut args, v);
    assert(texts(args@) =~= seq![
        file_name@,
        "-nodisp"@,
        "-autoexit"@,
        "-v"@,
        "quiet"@,
        "-volume"@,
        decimal(volume as nat),
    ]);
    args
}

/// The arguments of the `ffprobe` run that describes the first video stream.
pub fn ffprobe_args(file_name: &str) -> (args: Vec<String>)
    ensures
        texts(args@) == seq![
            "-v"@,
            "quiet"@,
            "-show_streams"@,
            "-select_streams"@,
            "v:0"@,
            file_name@,
        ],
{
    let mut args: Vec<String> = Vec::new();
    push_str(&mut args, "-v");
    push_str(&mut args, "quiet");
    push_str(&mut args, "-show_streams");
    push_str(&mut args, "-select_streams");
    push_str(&mut args, "v:0");
    push_str(&mut args, file_name);
    assert(texts(args@) =~= seq![
        "-v"@,
        "quiet"@,
        "-show_streams"@,
        "-select_streams"@,
        "v:0"@,
        file_name@,
    ]);
    args
}

/// The length in bytes of one raw RGB frame of the internal size.
pub fn frame_size(internal_scale: (u32, u32)) -> (n: usize)
    requires
        internal_scale.0 * internal_scale.1 * 3 <= u32::MAX,
    ensures
        n == internal_scale.0 * internal_scale.1 * 3,
{
    assert(internal_scale.0 * internal_scale.1 <= internal_scale.0 * internal_scale.1 * 3) by (nonlinear_arith)
        requires
            internal_scale.0 * internal_scale.1 >= 0,
    ;
    assert(internal_scale.0 * internal_scale.1 >= 0) by (nonlinear_arith);
    (internal_scale.0 * internal_scale.1 * 3) as usize
}

/// `s` without its trailing `\r` and `\n` characters.
pub open spec fn trim_line_ends(s: Seq<char>) -> Seq<char>
    decreases s.len(),
{
    if s.len() > 0 && (s.last() == '\r' || s.last() == '\n') {
        trim_line_ends(s.drop_last())
    } else {
        s
    }
}

/// The pieces of `rest` between commas, `field` being the part of the
/// current piece already read (as `str::split(',')` gives them).
pub open spec fn split_commas(field: Seq<char>, rest: Seq<char>) -> Seq<Seq<char>>
    decreases rest.len(),
{
    if rest.len() == 0 {
        seq![field]
    } else if rest[0] == ',' {
        seq![field] + split_commas(Seq::empty(), rest.skip(1))
    } else {
        split_commas(field.push(rest[0]), rest.skip(1))
    }
}

/// The comma-separated fields of `ffprobe -of csv=p=0` output.
pub open spec fn csv_fields(text: Seq<char>) -> Seq<Seq<char>> {
    split_commas(Seq::empty(), trim_line_ends(text))
}

/// The output can be read as `width,height,duration,nb_frames`: it has at
/// least four fields and the first two are numbers.
pub open spec fn csv_readable(text: Seq<char>) -> bool {
    let f = csv_fields(text);
    f.len() >= 4 && parse_u32_spec(f[0]) is Some && parse_u32_spec(f[1]) is Some
}

/// Where each comma-separated field of the output lies in `cs`: field `k` is
/// `cs[starts[k]..ends[k]]`, the fields being those of `csv_fields`.
#[verifier::spinoff_prover]
fn csv_field_bounds(cs: &Vec<char>) -> (r: (Vec<usize>, Vec<usize>))
    ensures
        r.0@.len() == r.1@.len(),
        forall|k: int| 0 <= k < r.0@.len() ==> #[trigger] r.0@[k] <= r.1@[k] <= cs@.len(),
        Seq::new(r.0@.len(), |k: int| cs@.subrange(r.0@[k] as int, r.1@[k] as int)) == csv_fields(cs@),
{
    // drop trailing line ends
    let mut end = cs.len();
    assert(cs@.take(end as int) == cs@);
    while end > 0 && (cs[end - 1] == '\r' || cs[end - 1] == '\n')
        invariant
            end <= cs@.len(),
            trim_line_ends(cs@.take(end as int)) == trim_line_ends(cs@),
        decreases end,
    {
        assert(cs@.take(end as int).drop_last() == cs@.take(end - 1));
        end = end - 1;
    }
    let ghost text = cs@.take(end as int);
    assert(trim_line_ends(cs@) == text);
    // split at commas: field i is cs[starts[i]..ends[i]]
    let mut starts: Vec<usize> = Vec::new();
    let mut ends: Vec<usize> = Vec::new();
    let mut field_start: usize = 0;
    let mut i: usize = 0;
    assert(text.skip(0) == text);
    assert(cs@.subrange(0, 0) == Seq::<char>::empty());
    assert(Seq::new(starts@.len(), |k: int| cs@.subrange(starts@[k] as int, ends@[k] as int))
        =~= Seq::<Seq<char>>::empty());
    assert(Seq::<Seq<char>>::empty() + split_commas(Seq::empty(), text) =~= split_commas(Seq::empty(), text));
    while i < end
        invariant
            end <= cs@.len(),
            text == cs@.take(end as int),
            field_start <= i <= end,
            starts@.len() == ends@.len(),
            forall|k: int| 0 <= k < starts@.len() ==> #[trigger] starts@[k] <= ends@[k] <= end,
            Seq::new(starts@.len(), |k: int| cs@.subrange(starts@[k] as int, ends@[k] as int))
                + split_commas(cs@.subrange(field_start as int, i as int), text.skip(i as int))
                == split_commas(Seq::empty(), text),
        decreases end - i,
    {
        let ghost done = Seq::new(starts@.len(), |k: int| cs@.subrange(starts@[k] as int, ends@[k] as int));
        assert(text.skip(i as int)[0] == cs@[i as int]);
        assert(text.skip(i as int).skip(1) == text.skip(i + 1));
        if cs[i] == ',' {
            let ghost (s0, e0) = (starts@, ends@);
            starts.push(field_start);
            ends.push(i);
            assert forall|k: int| 0 <= k < starts@.len() implies #[trigger] starts@[k] <= ends@[k] <= end by {
                if k < s0.len() {
                    assert(starts@[k] == s0[k] && ends@[k] == e0[k]);
                }
            }
            let ghost now = Seq::new(starts@.len(), |k: int| cs@.subrange(starts@[k] as int, ends@[k] as int));
            assert(now == done + seq![cs@.subrange(field_start as int, i as int)]);
            field_start = i + 1;
            assert(cs@.subrange(field_start as int, i + 1) == Seq::<char>::empty());
        } else {
            assert(cs@.subrange(field_start as int, i + 1) == cs@.subrange(field_start as int, i as int).push(cs@[i as int]));
        }
        i = i + 1;
    }
    let ghost (s0, e0) = (starts@, ends@);
    starts.push(field_start);
    ends.push(end);
    assert forall|k: int| 0 <= k < starts@.len() implies #[trigger] starts@[k] <= ends@[k] <= cs@.len() by {
        if k < s0.len() {
            assert(starts@[k] == s0[k] && ends@[k] == e0[k]);
        }
    }
    let ghost fields = Seq::new(starts@.len(), |k: int| cs@.subrange(starts@[k] as int, ends@[k] as int));
    assert(fields == split_commas(Seq::empty(), text));
    (starts, ends)
}

/// Whether `parse_meta_csv` can read the output: it is empty, or it has at
/// least four comma-separated fields of which the first two are numbers.
pub fn is_csv_readable(stdout: &str) -> (b: bool)
    ensures
        b == (stdout@.len() > 0 ==> csv_readable(stdout@)),
{
    let cs = chars_of(stdout);
    if cs.len() == 0 {
        return true;
    }
    let (starts, ends) = csv_field_bounds(&cs);
    let ghost fields = Seq::new(starts@.len(), |k: int| cs@.subrange(starts@[k] as int, ends@[k] as int));
    assert(fields == csv_fields(stdout@));
    if starts.len() < 4 {
        return false;
    }
    let width = parse_u32(&cs, starts[0], ends[0]);
    let height = parse_u32(&cs, starts[1], ends[1]);
    assert(fields[0] == cs@.subrange(starts@[0] as int, ends@[0] as int));
    assert(fields[1] == cs@.subrange(starts@[1] as int, ends@[1] as int));
    width.is_some() && height.is_some()
}

/// Reads the output of `ffprobe -show_entries stream=width,height,duration,nb_frames -of csv=p=0`:
/// the size, the duration as printed, and the frame count if it is a number.
pub fn parse_meta_csv(stdout: &str) -> (res: Result<((u32, u32), String, Option<u32>), String>)
    requires
        stdout@.len() > 0 ==> csv_readable(stdout@),
    ensures
        stdout@.len() == 0 ==> (res matches Err(e) && e@
            == "file is not an image or video (or not parsable by ffmpeg)"@),
        stdout@.len() > 0 ==> (res matches Ok(r) && {
            let f = csv_fields(stdout@);
            &&& r.0 == (parse_u32_spec(f[0])->0, parse_u32_spec(f[1])->0)
            &&& r.1@ == f[2]
            &&& r.2 == parse_u32_spec(f[3])
        }),
{
    let cs = chars_of(stdout);
    if cs.len() == 0 {
        return Err(String::from_str("file is not an image or video (or not parsable by ffmpeg)"));
    }
    let (starts, ends) = csv_field_bounds(&cs);
    let ghost fields = Seq::new(starts@.len(), |k: int| cs@.subrange(starts@[k] as int, ends@[k] as int));
    assert(fields == csv_fields(stdout@));
    assert(fields.len() >= 4);
    assert(fields[0] == cs@.subrange(starts@[0] as int, ends@[0] as int));
    assert(fields[1] == cs@.subrange(starts@[1] as int, ends@[1] as int));
    assert(fields[2] == cs@.subrange(starts@[2] as int, ends@[2] as int));
    assert(fields[3] == cs@.subrange(starts@[3] as int, ends@[3] as int));
    let width = parse_u32(&cs, starts[0], ends[0]);
    let height = parse_u32(&cs, starts[1], ends[1]);
    let duration = string_from_range(&cs, starts[2], ends[2]);
    let frames = parse_u32(&cs, starts[3], ends[3]);
    match (width, height) {
        (Some(w), Some(h)) => Ok(((w, h), duration, frames)),
        _ => Err(String::from_str("no values gotten from ffprobe")),
    }
}

} // verus!
