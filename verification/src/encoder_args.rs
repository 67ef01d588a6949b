//! Choosing an encoder, and the argument list of the encoder child.

use crate::text::{chars_of, is_space, is_space_char, nat_text, trim_start};
use vstd::prelude::*;

verus! {

/// Encoders by preference: hardware first, software last.
pub const ENCODER_LADDER: [&'static str; 4] = ["h264_nvenc", "h264_qsv", "h264_amf", "libx264"];

/// The ladder as text.
pub open spec fn ladder() -> Seq<Seq<char>> {
    seq!["h264_nvenc"@, "h264_qsv"@, "h264_amf"@, "libx264"@]
}

/// Strings as text.
pub open spec fn texts(v: Seq<String>) -> Seq<Seq<char>> {
    v.map_values(|s: String| s@)
}

/// The name at place `i` of the ladder.
fn ladder_name(i: usize) -> (r: &'static str)
    requires
        i < 4,
    ensures
        r@ == ladder()[i as int],
{
    let names: [&'static str; 4] = ENCODER_LADDER;
    names[i]
}

/// Whether two strings hold the same text.
pub fn same_text(a: &str, b: &str) -> (r: bool)
    ensures
        r <==> a@ == b@,
{
    let ca: Vec<char> = chars_of(a);
    assert(ca@.subrange(0, ca@.len() as int) =~= ca@);
    matches_at(&ca, 0, ca.len(), b)
}

/// Whether `cs` holds exactly `name` from `from` to `to`.
fn matches_at(cs: &Vec<char>, from: usize, to: usize, name: &str) -> (r: bool)
    requires
        from <= to <= cs@.len(),
    ensures
        r <==> cs@.subrange(from as int, to as int) == name@,
{
    let cn: Vec<char> = chars_of(name);
    let ghost part = cs@.subrange(from as int, to as int);
    if cn.len() != to - from {
        assert(part.len() != cn@.len());
        return false;
    }
    let mut i: usize = 0;
    while i < cn.len()
        invariant
            i <= cn@.len(),
            from <= to <= cs@.len(),
            cn@.len() == to - from,
            part == cs@.subrange(from as int, to as int),
            cn@ == name@,
            forall|j: int| 0 <= j < i ==> #[trigger] part[j] == cn@[j],
        decreases cn@.len() - i,
    {
        assert(part[i as int] == cs@[from + i]);
        if cs[from + i] != cn[i] {
            assert(part != cn@);
            return false;
        }
        i = i + 1;
    }
    assert(part =~= cn@);
    true
}

/// The first name of the ladder, from place `i` on, that is available; the
/// software encoder when none is.
pub open spec fn first_available(available: Seq<Seq<char>>, i: int) -> Seq<char>
    decreases 4 - i,
{
    if i >= 4 {
        "libx264"@
    } else if available.contains(ladder()[i]) {
        ladder()[i]
    } else {
        first_available(available, i + 1)
    }
}

/// Pick the most preferred available encoder.
pub fn select_encoder(available: &[String]) -> (r: String)
    ensures
        r@ == first_available(texts(available@), 0),
{
    let mut i: usize = 0;
    while i < 4
        invariant
            i <= 4,
            first_available(texts(available@), 0) == first_available(texts(available@), i as int),
        decreases 4 - i,
    {
        let name: &str = ladder_name(i);
        let mut j: usize = 0;
        while j < available.len()
            invariant
                i < 4,
                j <= available@.len(),
                name@ == ladder()[i as int],
                first_available(texts(available@), 0) == first_available(
                    texts(available@),
                    i as int,
                ),
                forall|k: int| 0 <= k < j ==> #[trigger] texts(available@)[k] != name@,
            decreases available@.len() - j,
        {
            if same_text(available[j].as_str(), name) {
                assert(texts(available@)[j as int] == name@);
                return String::from_str(name);
            }
            assert(texts(available@)[j as int] == available@[j as int]@);
            j = j + 1;
        }
        assert(!texts(available@).contains(name@));
        i = i + 1;
    }
    String::from_str("libx264")
}

/// `s` from its first white space on.
pub open spec fn after_word(s: Seq<char>) -> Seq<char>
    decreases s.len(),
{
    if s.len() > 0 && !is_space(s[0]) {
        after_word(s.skip(1))
    } else {
        s
    }
}

/// The second word of a line; `None` when it has fewer than two.
pub open spec fn second_word(line: Seq<char>) -> Option<Seq<char>> {
    let rest = trim_start(after_word(trim_start(line)));
    if rest.len() == 0 {
        None
    } else {
        Some(rest.take(rest.len() - after_word(rest).len()))
    }
}

/// The line at the start of `s`.
pub open spec fn first_line(s: Seq<char>) -> Seq<char>
    decreases s.len(),
{
    if s.len() == 0 || s[0] == '\n' {
        Seq::empty()
    } else {
        seq![s[0]] + first_line(s.skip(1))
    }
}

/// What follows the first line of `s` and its line break.
pub open spec fn other_lines(s: Seq<char>) -> Seq<char>
    decreases s.len(),
{
    if s.len() == 0 {
        s
    } else if s[0] == '\n' {
        s.skip(1)
    } else {
        other_lines(s.skip(1))
    }
}

/// `found` with the encoder that `line` names, if the ladder has it and it is
/// new.
pub open spec fn found_with(found: Seq<Seq<char>>, line: Seq<char>) -> Seq<Seq<char>> {
    match second_word(line) {
        Some(name) => if ladder().contains(name) && !found.contains(name) {
            found.push(name)
        } else {
            found
        },
        None => found,
    }
}

proof fn lemma_other_lines_shrink(s: Seq<char>)
    requires
        s.len() > 0,
    ensures
        other_lines(s).len() < s.len(),
    decreases s.len(),
{
    reveal_with_fuel(other_lines, 2);
    if s[0] != '\n' && s.skip(1).len() > 0 {
        lemma_other_lines_shrink(s.skip(1));
    }
}

/// The ladder encoders that the lines of `s` name, in order of appearance.
pub open spec fn encoders_in(found: Seq<Seq<char>>, s: Seq<char>) -> Seq<Seq<char>>
    decreases s.len(),
    via encoders_in_terminates
{
    if s.len() == 0 {
        found
    } else {
        encoders_in(found_with(found, first_line(s)), other_lines(s))
    }
}

#[via_fn]
proof fn encoders_in_terminates(found: Seq<Seq<char>>, s: Seq<char>) {
    if s.len() > 0 {
        lemma_other_lines_shrink(s);
    }
}

/// End of the run of characters from `from` that are white space, or that are
/// not, before `to`.
fn run_end(cs: &Vec<char>, from: usize, to: usize, space: bool) -> (r: usize)
    requires
        from <= to <= cs@.len(),
    ensures
        from <= r <= to,
        space ==> cs@.subrange(r as int, to as int) == trim_start(
            cs@.subrange(from as int, to as int),
        ),
        !space ==> cs@.subrange(r as int, to as int) == after_word(
            cs@.subrange(from as int, to as int),
        ),
{
    let mut i: usize = from;
    let ghost whole = cs@.subrange(from as int, to as int);
    while i < to && is_space_char(cs[i]) == space
        invariant
            from <= i <= to <= cs@.len(),
            whole == cs@.subrange(from as int, to as int),
            space ==> trim_start(cs@.subrange(i as int, to as int)) == trim_start(whole),
            !space ==> after_word(cs@.subrange(i as int, to as int)) == after_word(whole),
        decreases to - i,
    {
        let ghost here = cs@.subrange(i as int, to as int);
        assert(here[0] == cs@[i as int]);
        assert(here.skip(1) =~= cs@.subrange(i + 1, to as int));
        i = i + 1;
    }
    proof {
        let here = cs@.subrange(i as int, to as int);
        if i < to {
            assert(here[0] == cs@[i as int]);
        }
    }
    i
}

/// End of the line that starts at `from`.
fn line_end(cs: &Vec<char>, from: usize) -> (r: usize)
    requires
        from <= cs@.len(),
    ensures
        from <= r <= cs@.len(),
        first_line(cs@.skip(from as int)) == cs@.subrange(from as int, r as int),
        other_lines(cs@.skip(from as int)) == if r < cs@.len() {
            cs@.skip(r + 1)
        } else {
            Seq::empty()
        },
{
    let mut i: usize = from;
    let ghost whole = cs@.skip(from as int);
    while i < cs.len() && cs[i] != '\n'
        invariant
            from <= i <= cs@.len(),
            whole == cs@.skip(from as int),
            first_line(whole) == cs@.subrange(from as int, i as int) + first_line(
                cs@.skip(i as int),
            ),
            other_lines(whole) == other_lines(cs@.skip(i as int)),
        decreases cs@.len() - i,
    {
        let ghost here = cs@.skip(i as int);
        proof {
            assert(here[0] == cs@[i as int]);
            assert(here.skip(1) =~= cs@.skip(i + 1));
            assert(cs@.subrange(from as int, i as int) + (seq![here[0]] + first_line(
                cs@.skip(i + 1),
            )) =~= cs@.subrange(from as int, i + 1) + first_line(cs@.skip(i + 1)));
        }
        i = i + 1;
    }
    proof {
        let here = cs@.skip(i as int);
        if i < cs@.len() {
            assert(here[0] == cs@[i as int]);
            assert(here.skip(1) =~= cs@.skip(i + 1));
        } else {
            assert(here =~= Seq::empty());
        }
        assert(cs@.subrange(from as int, i as int) + Seq::<char>::empty() =~= cs@.subrange(
            from as int,
            i as int,
        ));
    }
    i
}

/// Add the ladder encoder that stands between `from` and `to`, if it is one and
/// new.
fn note_encoder(found: &mut Vec<String>, cs: &Vec<char>, from: usize, to: usize)
    requires
        from <= to <= cs@.len(),
    ensures
        ({
            let name = cs@.subrange(from as int, to as int);
            texts(final(found)@) == if ladder().contains(name) && !texts(old(found)@).contains(
                name,
            ) {
                texts(old(found)@).push(name)
            } else {
                texts(old(found)@)
            }
        }),
{
    let ghost name = cs@.subrange(from as int, to as int);
    let mut j: usize = 0;
    while j < found.len()
        invariant
            j <= found@.len(),
            from <= to <= cs@.len(),
            name == cs@.subrange(from as int, to as int),
            found@ == old(found)@,
            forall|k: int| 0 <= k < j ==> #[trigger] texts(found@)[k] != name,
        decreases found@.len() - j,
    {
        assert(texts(found@)[j as int] == found@[j as int]@);
        if matches_at(cs, from, to, found[j].as_str()) {
            assert(texts(found@).contains(name));
            return;
        }
        j = j + 1;
    }
    assert(!texts(found@).contains(name));
    let mut i: usize = 0;
    while i < 4
        invariant
            i <= 4,
            from <= to <= cs@.len(),
            name == cs@.subrange(from as int, to as int),
            found@ == old(found)@,
            !texts(found@).contains(name),
            forall|k: int| 0 <= k < i ==> #[trigger] ladder()[k] != name,
        decreases 4 - i,
    {
        let candidate: &str = ladder_name(i);
        if matches_at(cs, from, to, candidate) {
            found.push(String::from_str(candidate));
            assert(ladder()[i as int] == name);
            assert(texts(found@) =~= texts(old(found)@).push(name));
            return;
        }
        i = i + 1;
    }
    assert(!ladder().contains(name)) by {
        if ladder().contains(name) {
            let k = choose|k: int| 0 <= k < ladder().len() && ladder()[k] == name;
            assert(ladder()[k] != name);
        }
    }
}

/// The ladder encoders that the child's own list names: the second word of each
/// line, each once.
pub fn parse_available_encoders(encoders_stdout: &str) -> (r: Vec<String>)
    ensures
        texts(r@) == encoders_in(Seq::empty(), encoders_stdout@),
{
    let cs: Vec<char> = chars_of(encoders_stdout);
    let mut found: Vec<String> = Vec::new();
    let mut at: usize = 0;
    proof {
        assert(texts(found@) =~= Seq::empty());
        assert(cs@.skip(0) =~= cs@);
    }
    while at < cs.len()
        invariant
            at <= cs@.len(),
            encoders_in(texts(found@), cs@.skip(at as int)) == encoders_in(Seq::empty(), cs@),
        decreases cs@.len() - at,
    {
        let end: usize = line_end(&cs, at);
        let w1: usize = run_end(&cs, at, end, true);
        let e1: usize = run_end(&cs, w1, end, false);
        let w2: usize = run_end(&cs, e1, end, true);
        let ghost line = cs@.subrange(at as int, end as int);
        let ghost before = texts(found@);
        if w2 < end {
            let e2: usize = run_end(&cs, w2, end, false);
            proof {
                let rest = cs@.subrange(w2 as int, end as int);
                assert(rest.take(rest.len() - after_word(rest).len()) =~= cs@.subrange(
                    w2 as int,
                    e2 as int,
                ));
                assert(second_word(line) == Some(cs@.subrange(w2 as int, e2 as int)));
            }
            note_encoder(&mut found, &cs, w2, e2);
        }
        assert(texts(found@) == found_with(before, line));
        at = if end < cs.len() {
            end + 1
        } else {
            end
        };
        proof {
            if end == cs@.len() {
                assert(cs@.skip(at as int) =~= Seq::empty());
            }
        }
    }
    assert(cs@.skip(at as int) =~= Seq::empty());
    found
}

/// The loopback address of a port.
pub open spec fn loopback_url(port: int) -> Seq<char> {
    "tcp://127.0.0.1:"@ + crate::text::decimal_nat(port as nat)
}

/// Extra arguments of the software encoder.
pub open spec fn tuning_args(encoder: Seq<char>) -> Seq<Seq<char>> {
    if encoder == "libx264"@ {
        seq!["-preset"@, "ultrafast"@, "-tune"@, "zerolatency"@]
    } else {
        Seq::empty()
    }
}

/// Arguments up to the video encoder: both inputs. Only the video input is
/// stamped by the wall clock; the audio keeps its sample-count timestamps.
pub open spec fn input_args(video_port: int, audio_port: int, encoder: Seq<char>) -> Seq<Seq<char>> {
    seq![
        "-hide_banner"@,
        "-loglevel"@,
        "error"@,
        "-use_wallclock_as_timestamps"@,
        "1"@,
        "-f"@,
        "rawvideo"@,
        "-pix_fmt"@,
        "nv12"@,
        "-s"@,
        "640x360"@,
        "-i"@,
        loopback_url(video_port),
        "-f"@,
        "f32le"@,
        "-ar"@,
        "48000"@,
        "-ac"@,
        "2"@,
        "-i"@,
        loopback_url(audio_port),
        "-c:v"@,
        encoder,
    ]
}

/// Arguments from the bitrate on: half a megabit of video, fragmented MP4 on the
/// standard output, two fragments a second.
pub open spec fn output_args() -> Seq<Seq<char>> {
    seq![
        "-b:v"@,
        "500k"@,
        "-maxrate"@,
        "500k"@,
        "-bufsize"@,
        "500k"@,
        "-g"@,
        "25"@,
        "-fps_mode"@,
        "cfr"@,
        "-r"@,
        "25"@,
        "-c:a"@,
        "aac"@,
        "-b:a"@,
        "64k"@,
        "-movflags"@,
        "+frag_keyframe+empty_moov+default_base_moof"@,
        "-frag_duration"@,
        "500000"@,
        "-flush_packets"@,
        "1"@,
        "-f"@,
        "mp4"@,
        "pipe:1"@,
    ]
}

/// The whole argument list.
pub open spec fn ffmpeg_args(video_port: int, audio_port: int, encoder: Seq<char>) -> Seq<
    Seq<char>,
> {
    input_args(video_port, audio_port, encoder) + tuning_args(encoder) + output_args()
}

fn push_text(args: &mut Vec<String>, s: &str)
    ensures
        texts(final(args)@) == texts(old(args)@).push(s@),
{
    args.push(String::from_str(s));
    assert(texts(args@) =~= texts(old(args)@).push(s@));
}

fn push_url(args: &mut Vec<String>, port: u16)
    ensures
        texts(final(args)@) == texts(old(args)@).push(loopback_url(port as int)),
{
    let mut url: String = String::from_str("tcp://127.0.0.1:");
    let digits: String = nat_text(port as u64);
    url.append(digits.as_str());
    push_text(args, url.as_str());
}

fn push_inputs(args: &mut Vec<String>, video_port: u16, audio_port: u16, encoder: &str)
    requires
        texts(old(args)@) == Seq::<Seq<char>>::empty(),
    ensures
        texts(final(args)@) == input_args(video_port as int, audio_port as int, encoder@),
{
    push_text(args, "-hide_banner");
    push_text(args, "-loglevel");
    push_text(args, "error");
    push_text(args, "-use_wallclock_as_timestamps");
    push_text(args, "1");
    push_text(args, "-f");
    push_text(args, "rawvideo");
    push_text(args, "-pix_fmt");
    push_text(args, "nv12");
    push_text(args, "-s");
    push_text(args, "640x360");
    push_text(args, "-i");
    push_url(args, video_port);
    push_text(args, "-f");
    push_text(args, "f32le");
    push_text(args, "-ar");
    push_text(args, "48000");
    push_text(args, "-ac");
    push_text(args, "2");
    push_text(args, "-i");
    push_url(args, audio_port);
    push_text(args, "-c:v");
    push_text(args, encoder);
}

fn push_outputs(args: &mut Vec<String>)
    ensures
        texts(final(args)@) == texts(old(args)@) + output_args(),
{
    let ghost head = texts(args@);
    push_text(args, "-b:v");
    push_text(args, "500k");
    push_text(args, "-maxrate");
    push_text(args, "500k");
    push_text(args, "-bufsize");
    push_text(args, "500k");
    push_text(args, "-g");
    push_text(args, "25");
    push_text(args, "-fps_mode");
    push_text(args, "cfr");
    push_text(args, "-r");
    push_text(args, "25");
    push_text(args, "-c:a");
    push_text(args, "aac");
    push_text(args, "-b:a");
    push_text(args, "64k");
    push_text(args, "-movflags");
    push_text(args, "+frag_keyframe+empty_moov+default_base_moof");
    push_text(args, "-frag_duration");
    push_text(args, "500000");
    push_text(args, "-flush_packets");
    push_text(args, "1");
    push_text(args, "-f");
    push_text(args, "mp4");
    push_text(args, "pipe:1");
    assert(texts(args@) =~= head + output_args());
}

/// The exact argument list of the encoder child: raw video and audio from two
/// loopback ports, fragmented MP4 to its standard output.
pub fn build_ffmpeg_args(video_port: u16, audio_port: u16, encoder: &str) -> (r: Vec<String>)
    ensures
        texts(r@) == ffmpeg_args(video_port as int, audio_port as int, encoder@),
{
    let mut args: Vec<String> = Vec::new();
    assert(texts(args@) =~= Seq::empty());
    push_inputs(&mut args, video_port, audio_port, encoder);
    let ghost inputs = texts(args@);
    if same_text(encoder, "libx264") {
        push_text(&mut args, "-preset");
        push_text(&mut args, "ultrafast");
        push_text(&mut args, "-tune");
        push_text(&mut args, "zerolatency");
    }
    assert(texts(args@) =~= inputs + tuning_args(encoder@));
    push_outputs(&mut args);
    args
}


/// The lengths of the fixed arguments.
proof fn lemma_argument_lengths()
    ensures
        "-itsoffset"@.len() == 10,
        "-use_wallclock_as_timestamps"@.len() == 28,
        "tcp://127.0.0.1:"@.len() == 16,
        forall|i: int|
            0 <= i < output_args().len() ==> (#[trigger] output_args()[i]).len() != 10
                && output_args()[i].len() != 28,
        forall|e: Seq<char>, i: int|
            0 <= i < tuning_args(e).len() ==> (#[trigger] tuning_args(e)[i]).len() != 10
                && tuning_args(e)[i].len() != 28,
        forall|v: int, a: int, e: Seq<char>, i: int|
            0 <= i < 22 && i != 3 && i != 12 && i != 20 ==> (#[trigger] input_args(
                v,
                a,
                e,
            )[i]).len() != 10 && input_args(v, a, e)[i].len() != 28,
{
    reveal_strlit("-itsoffset");
    reveal_strlit("-use_wallclock_as_timestamps");
    reveal_strlit("tcp://127.0.0.1:");
    reveal_strlit("-hide_banner");
    reveal_strlit("-loglevel");
    reveal_strlit("error");
    reveal_strlit("1");
    reveal_strlit("-f");
    reveal_strlit("rawvideo");
    reveal_strlit("-pix_fmt");
    reveal_strlit("nv12");
    reveal_strlit("-s");
    reveal_strlit("640x360");
    reveal_strlit("-i");
    reveal_strlit("f32le");
    reveal_strlit("-ar");
    reveal_strlit("48000");
    reveal_strlit("-ac");
    reveal_strlit("2");
    reveal_strlit("-c:v");
    reveal_strlit("-preset");
    reveal_strlit("ultrafast");
    reveal_strlit("-tune");
    reveal_strlit("zerolatency");
    reveal_strlit("-b:v");
    reveal_strlit("500k");
    reveal_strlit("-maxrate");
    reveal_strlit("-bufsize");
    reveal_strlit("-g");
    reveal_strlit("25");
    reveal_strlit("-fps_mode");
    reveal_strlit("cfr");
    reveal_strlit("-r");
    reveal_strlit("-c:a");
    reveal_strlit("aac");
    reveal_strlit("-b:a");
    reveal_strlit("64k");
    reveal_strlit("-movflags");
    reveal_strlit("+frag_keyframe+empty_moov+default_base_moof");
    reveal_strlit("-frag_duration");
    reveal_strlit("500000");
    reveal_strlit("-flush_packets");
    reveal_strlit("mp4");
    reveal_strlit("pipe:1");
}

proof fn lemma_url_is_an_address(port: int)
    requires
        0 <= port <= 0xffff,
    ensures
        17 <= loopback_url(port).len() <= 21,
{
    lemma_argument_lengths();
    lemma_port_digits(port as nat);
}

proof fn lemma_port_digits(n: nat)
    requires
        n < 100_000,
    ensures
        1 <= crate::text::decimal_nat(n).len() <= 5,
{
    reveal_with_fuel(crate::text::decimal_nat, 6);
}

/// Whatever the ports and the encoder, exactly one input is stamped by the wall
/// clock, and the flag stands before the video input's address.
pub proof fn law_only_the_video_input_is_stamped(
    video_port: u16,
    audio_port: u16,
    encoder: Seq<char>,
    i: int,
)
    requires
        encoder != "-use_wallclock_as_timestamps"@,
        0 <= i < ffmpeg_args(video_port as int, audio_port as int, encoder).len(),
    ensures
        ffmpeg_args(video_port as int, audio_port as int, encoder)[i]
            == "-use_wallclock_as_timestamps"@ <==> i == 3,
        ffmpeg_args(video_port as int, audio_port as int, encoder)[12] == loopback_url(
            video_port as int,
        ),
{
    lemma_argument_lengths();
    lemma_url_is_an_address(video_port as int);
    lemma_url_is_an_address(audio_port as int);
    let args = ffmpeg_args(video_port as int, audio_port as int, encoder);
    let inputs = input_args(video_port as int, audio_port as int, encoder);
    let tuning = tuning_args(encoder);
    if i < 23 {
        assert(args[i] == inputs[i]);
    } else if i < 23 + tuning.len() {
        assert(args[i] == tuning[i - 23]);
    } else {
        assert(args[i] == output_args()[i - 23 - tuning.len()]);
    }
}

/// Whatever the ports and the encoder, no input is shifted in time: the audio
/// feeder aligns the audio instead.
pub proof fn law_no_input_is_shifted(
    video_port: u16,
    audio_port: u16,
    encoder: Seq<char>,
)
    requires
        encoder != "-itsoffset"@,
    ensures
        !ffmpeg_args(video_port as int, audio_port as int, encoder).contains("-itsoffset"@),
{
    lemma_argument_lengths();
    lemma_url_is_an_address(video_port as int);
    lemma_url_is_an_address(audio_port as int);
    let args = ffmpeg_args(video_port as int, audio_port as int, encoder);
    let inputs = input_args(video_port as int, audio_port as int, encoder);
    let tuning = tuning_args(encoder);
    assert forall|i: int| 0 <= i < args.len() implies #[trigger] args[i] != "-itsoffset"@ by {
        if i < 23 {
            assert(args[i] == inputs[i]);
        } else if i < 23 + tuning.len() {
            assert(args[i] == tuning[i - 23]);
        } else {
            assert(args[i] == output_args()[i - 23 - tuning.len()]);
        }
    }
}

/// The selected encoder is on the ladder.
pub proof fn law_selected_encoder_is_on_the_ladder(available: Seq<Seq<char>>, i: int)
    requires
        0 <= i,
    ensures
        ladder().contains(first_available(available, i)),
    decreases 4 - i,
{
    if i >= 4 {
        assert(ladder()[3] == "libx264"@);
    } else if !available.contains(ladder()[i]) {
        law_selected_encoder_is_on_the_ladder(available, i + 1);
    }
}

/// What the probe finds is on the ladder, each encoder once.
pub proof fn law_found_encoders_are_distinct(found: Seq<Seq<char>>, s: Seq<char>)
    requires
        found.no_duplicates(),
        forall|i: int| 0 <= i < found.len() ==> ladder().contains(#[trigger] found[i]),
    ensures
        encoders_in(found, s).no_duplicates(),
        forall|i: int|
            0 <= i < encoders_in(found, s).len() ==> ladder().contains(
                #[trigger] encoders_in(found, s)[i],
            ),
    decreases s.len(),
{
    if s.len() > 0 {
        lemma_other_lines_shrink(s);
        law_found_encoders_are_distinct(found_with(found, first_line(s)), other_lines(s));
    }
}

/// Hardware goes first, each maker in its turn, and software is what is left: the first
/// of the four that is available, whatever else is and in whatever order.
pub proof fn law_hardware_is_preferred(available: Seq<Seq<char>>)
    ensures
        ({
            let chosen = first_available(available, 0);
            let (nvenc, qsv, amf) = (
                available.contains("h264_nvenc"@),
                available.contains("h264_qsv"@),
                available.contains("h264_amf"@),
            );
            &&& nvenc ==> chosen == "h264_nvenc"@
            &&& !nvenc && qsv ==> chosen == "h264_qsv"@
            &&& !nvenc && !qsv && amf ==> chosen == "h264_amf"@
            &&& !nvenc && !qsv && !amf ==> chosen == "libx264"@
        }),
{
    reveal_with_fuel(first_available, 5);
}

proof fn lemma_after_word_skips(word: Seq<char>, rest: Seq<char>)
    requires
        forall|i: int| 0 <= i < word.len() ==> !is_space(#[trigger] word[i]),
        rest.len() > 0 ==> is_space(rest[0]),
    ensures
        after_word(word + rest) == rest,
    decreases word.len(),
{
    if word.len() > 0 {
        assert((word + rest)[0] == word[0]);
        assert((word + rest).skip(1) =~= word.skip(1) + rest);
        lemma_after_word_skips(word.skip(1), rest);
    } else {
        assert(word + rest =~= rest);
    }
}

/// The second word of a line is what stands between its second and its third stretch of
/// white space, or the end of the line; white space at the start of the line counts for
/// none.
pub proof fn law_the_second_word_of_a_line(
    indent: Seq<char>,
    first: Seq<char>,
    gap: Seq<char>,
    second: Seq<char>,
    rest: Seq<char>,
)
    requires
        first.len() > 0,
        gap.len() > 0,
        second.len() > 0,
        forall|i: int| 0 <= i < indent.len() ==> is_space(#[trigger] indent[i]),
        forall|i: int| 0 <= i < first.len() ==> !is_space(#[trigger] first[i]),
        forall|i: int| 0 <= i < gap.len() ==> is_space(#[trigger] gap[i]),
        forall|i: int| 0 <= i < second.len() ==> !is_space(#[trigger] second[i]),
        rest.len() > 0 ==> is_space(rest[0]),
    ensures
        second_word(indent + first + gap + second + rest) == Some(second),
        second_word(indent + first + gap) is None,
{
    let tail = second + rest;
    let line = indent + first + gap + second + rest;
    assert(line =~= indent + (first + (gap + tail)));
    crate::text::lemma_trim_start_skips(indent, first + (gap + tail));
    assert((first + (gap + tail))[0] == first[0]);
    assert((gap + tail)[0] == gap[0]);
    lemma_after_word_skips(first, gap + tail);
    crate::text::lemma_trim_start_skips(gap, tail);
    assert(tail[0] == second[0]);
    lemma_after_word_skips(second, rest);
    assert(tail.take(tail.len() - rest.len()) =~= second);
    let short = indent + first + gap;
    assert(short =~= indent + (first + gap));
    crate::text::lemma_trim_start_skips(indent, first + gap);
    assert((first + gap)[0] == first[0]);
    lemma_after_word_skips(first, gap);
    let none = Seq::<char>::empty();
    assert(gap =~= gap + none);
    crate::text::lemma_trim_start_skips(gap, none);
}

proof fn lemma_first_line_of(line: Seq<char>, rest: Seq<char>)
    requires
        forall|i: int| 0 <= i < line.len() ==> #[trigger] line[i] != '\n',
        rest.len() > 0 ==> rest[0] == '\n',
    ensures
        first_line(line + rest) == line,
        other_lines(line + rest) == if rest.len() > 0 {
            rest.skip(1)
        } else {
            rest
        },
    decreases line.len(),
{
    let s = line + rest;
    if line.len() > 0 {
        assert(s[0] == line[0]);
        assert(s.skip(1) =~= line.skip(1) + rest);
        lemma_first_line_of(line.skip(1), rest);
        assert(seq![s[0]] + line.skip(1) =~= line);
    } else {
        assert(s =~= rest);
        assert(first_line(s) =~= line);
    }
}

/// A listing is read line by line, from the first to the last: each line adds the
/// encoder that it names, if that is known and was not found before.
pub proof fn law_a_listing_is_read_line_by_line(
    found: Seq<Seq<char>>,
    line: Seq<char>,
    more: Seq<char>,
)
    requires
        line.len() > 0,
        forall|i: int| 0 <= i < line.len() ==> #[trigger] line[i] != '\n',
    ensures
        encoders_in(found, line) == found_with(found, line),
        encoders_in(found, line + seq!['\n'] + more) == encoders_in(found_with(found, line), more),
{
    let none = Seq::<char>::empty();
    reveal_with_fuel(encoders_in, 2);
    assert(line + none =~= line);
    lemma_first_line_of(line, none);
    let rest = seq!['\n'] + more;
    assert(line + seq!['\n'] + more =~= line + rest);
    lemma_first_line_of(line, rest);
    assert(rest.skip(1) =~= more);
}

/// A line adds an encoder exactly when its second word is one of the four that are
/// known and was not found before; it is added last, and nothing found is lost.
pub proof fn law_what_a_line_adds(found: Seq<Seq<char>>, line: Seq<char>)
    ensures
        ({
            let after = found_with(found, line);
            let known = second_word(line) matches Some(w) && (w == "h264_nvenc"@ || w
                == "h264_qsv"@ || w == "h264_amf"@ || w == "libx264"@) && !found.contains(w);
            &&& known ==> after == found.push(second_word(line)->0)
            &&& !known ==> after == found
        }),
{
    let names = ladder();
    assert(names[0] == "h264_nvenc"@ && names[1] == "h264_qsv"@ && names[2] == "h264_amf"@
        && names[3] == "libx264"@);
    if let Some(w) = second_word(line) {
        if names.contains(w) {
            let i = choose|i: int| 0 <= i < names.len() && names[i] == w;
            assert(0 <= i < 4);
        }
    }
}

/// `args` gives the option `name` the value `value`.
pub open spec fn has_option(args: Seq<Seq<char>>, name: Seq<char>, value: Seq<char>) -> bool {
    exists|i: int| 0 <= i < args.len() - 1 && #[trigger] args[i] == name && args[i + 1] == value
}

/// The child reads raw pictures of the canvas's size from the video port and stereo
/// floats at 48 kHz from the audio port, each described before its own address, the
/// video first; it uses the encoder it was given, and writes fragmented MP4 of 25
/// frames and 500 kbit a second to its standard output.
pub proof fn law_the_child_is_told_what_it_reads(
    video_port: u16,
    audio_port: u16,
    encoder: Seq<char>,
)
    ensures
        ({
            let args = ffmpeg_args(video_port as int, audio_port as int, encoder);
            let video = args.take(13);
            let audio = args.subrange(13, 21);
            let output = args.skip(21);
            &&& video.last() == "tcp://127.0.0.1:"@ + crate::text::decimal_nat(video_port as nat)
            &&& video[11] == "-i"@
            &&& has_option(video, "-f"@, "rawvideo"@)
            &&& has_option(video, "-pix_fmt"@, "nv12"@)
            &&& has_option(video, "-s"@, "640x360"@)
            &&& audio.last() == "tcp://127.0.0.1:"@ + crate::text::decimal_nat(audio_port as nat)
            &&& audio[6] == "-i"@
            &&& has_option(audio, "-f"@, "f32le"@)
            &&& has_option(audio, "-ar"@, "48000"@)
            &&& has_option(audio, "-ac"@, "2"@)
            &&& has_option(output, "-c:v"@, encoder)
            &&& has_option(output, "-b:v"@, "500k"@)
            &&& has_option(output, "-r"@, "25"@)
            &&& has_option(output, "-g"@, "25"@)
            &&& has_option(output, "-c:a"@, "aac"@)
            &&& has_option(
                output,
                "-movflags"@,
                "+frag_keyframe+empty_moov+default_base_moof"@,
            )
            &&& has_option(output, "-frag_duration"@, "500000"@)
            &&& has_option(output, "-f"@, "mp4"@)
            &&& output.last() == "pipe:1"@
        }),
{
    let args = ffmpeg_args(video_port as int, audio_port as int, encoder);
    let tuning = tuning_args(encoder);
    let video = args.take(13);
    let audio = args.subrange(13, 21);
    let output = args.skip(21);
    let n = (2 + tuning.len()) as int;
    assert(video[5] == "-f"@ && video[6] == "rawvideo"@);
    assert(video[7] == "-pix_fmt"@ && video[8] == "nv12"@);
    assert(video[9] == "-s"@ && video[10] == "640x360"@);
    assert(audio[0] == "-f"@ && audio[1] == "f32le"@);
    assert(audio[2] == "-ar"@ && audio[3] == "48000"@);
    assert(audio[4] == "-ac"@ && audio[5] == "2"@);
    assert(output[0] == "-c:v"@ && output[1] == encoder);
    let last = output_args();
    assert forall|k: int| 0 <= k < last.len() implies output[n + k] == #[trigger] last[k] by {}
    assert(last[0] == output[n + 0] && last[1] == output[n + 1]);
    assert(last[6] == output[n + 6] && last[7] == output[n + 7]);
    assert(last[10] == output[n + 10] && last[11] == output[n + 11]);
    assert(last[12] == output[n + 12] && last[13] == output[n + 13]);
    assert(last[16] == output[n + 16] && last[17] == output[n + 17]);
    assert(last[18] == output[n + 18] && last[19] == output[n + 19]);
    assert(last[22] == output[n + 22] && last[23] == output[n + 23]);
    assert(last[24] == output[n + 24]);
}

/// Only the software encoder is tuned: for speed, and not to hold frames back.
pub proof fn law_only_software_is_tuned(encoder: Seq<char>)
    ensures
        encoder == "libx264"@ ==> has_option(tuning_args(encoder), "-preset"@, "ultrafast"@)
            && has_option(tuning_args(encoder), "-tune"@, "zerolatency"@),
        encoder != "libx264"@ ==> tuning_args(encoder).len() == 0,
{
    if encoder == "libx264"@ {
        let args = tuning_args(encoder);
        assert(args[0] == "-preset"@ && args[1] == "ultrafast"@);
        assert(args[2] == "-tune"@ && args[3] == "zerolatency"@);
    }
}

} // verus!
