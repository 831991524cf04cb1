//! Progress parsing for the engines' console output, and the console text
//! derived from it.
use vstd::prelude::*;

use crate::checkpoint::PipelineStage;

use crate::text::{
    ascii_lower, chars_to_string, contains, contains_chars, decimal, decimal2, field_bounds,
    fields, find, first_occurrence, is_digit, parse_u64, parse_u64_spec, push_chars, push_decimal,
    push_decimal2, str_chars, to_ascii_lower, trim, trim_bounds,
};

verus! {

/// `line.strip_prefix("frame=")?.trim().parse().ok()`: the frame counter of
/// an FFmpeg `-progress` line.
pub open spec fn parse_ffmpeg_frame_spec(line: Seq<char>) -> Option<u64> {
    let prefix = "frame="@;
    if prefix.len() <= line.len() && line.subrange(0, prefix.len() as int) == prefix {
        parse_u64_spec(trim(line.subrange(prefix.len() as int, line.len() as int)))
    } else {
        None
    }
}

/// The frame counter of an FFmpeg `-progress` line, if it is one.
pub fn parse_ffmpeg_frame(line: &str) -> (r: Option<u64>)
    ensures
        r == parse_ffmpeg_frame_spec(line@),
{
    let chars = str_chars(line);
    let prefix = str_chars("frame=");
    let n = chars.len();
    let plen = prefix.len();
    if plen > n {
        return None;
    }
    let mut k: usize = 0;
    while k < plen
        invariant
            plen == prefix@.len() <= n == chars@.len(),
            chars@ == line@,
            prefix@ == "frame="@,
            k <= plen,
            forall|j: int| 0 <= j < k ==> chars@[j] == prefix@[j],
        decreases plen - k,
    {
        if chars[k] != prefix[k] {
            proof {
                assert(chars@.subrange(0, plen as int)[k as int] != prefix@[k as int]);
            }
            return None;
        }
        k = k + 1;
    }
    proof {
        assert(chars@.subrange(0, plen as int) =~= prefix@);
    }
    let (a, b) = trim_bounds(chars.as_slice(), plen, n);
    parse_u64(chars.as_slice(), a, b)
}

/// `(current, total)` from the first `[current/total]` of a COLMAP line.
pub open spec fn parse_bracket_progress_spec(line: Seq<char>) -> Option<(u64, u64)> {
    if !contains(line, seq!['[']) {
        None
    } else {
        let open = choose|p: int| first_occurrence(line, seq!['['], p);
        let after = line.subrange(open + 1, line.len() as int);
        if !contains(after, seq![']']) {
            None
        } else {
            let close = choose|p: int| first_occurrence(after, seq![']'], p);
            let value = after.subrange(0, close);
            if !contains(value, seq!['/']) {
                None
            } else {
                let slash = choose|p: int| first_occurrence(value, seq!['/'], p);
                match (
                    parse_u64_spec(trim(value.subrange(0, slash))),
                    parse_u64_spec(trim(value.subrange(slash + 1, value.len() as int))),
                ) {
                    (Some(current), Some(total)) => Some((current, total)),
                    _ => None,
                }
            }
        }
    }
}

proof fn lemma_first_occurrence_unique(s: Seq<char>, needle: Seq<char>, p: int, q: int)
    requires
        first_occurrence(s, needle, p),
        first_occurrence(s, needle, q),
    ensures
        p == q,
{
    if p < q {
        assert(!crate::text::occurs_at(s, needle, p));
    } else if q < p {
        assert(!crate::text::occurs_at(s, needle, q));
    }
}

/// Finds the single character `c` in `v[from..to]` and pins the choice that
/// the specifications make.
fn find_char(v: &[char], from: usize, to: usize, c: char) -> (r: Option<usize>)
    requires
        from <= to <= v@.len(),
    ensures
        match r {
            Some(p) => {
                &&& contains(v@.subrange(from as int, to as int), seq![c])
                &&& p as int == choose|q: int|
                    first_occurrence(v@.subrange(from as int, to as int), seq![c], q)
                &&& from + p < to
                &&& v@[from + p] == c
            },
            None => !contains(v@.subrange(from as int, to as int), seq![c]),
        },
{
    let needle = vec![c];
    proof {
        assert(needle@ =~= seq![c]);
    }
    let r = find(v, from, to, needle.as_slice());
    match r {
        Some(p) => {
            proof {
                let s = v@.subrange(from as int, to as int);
                let q = choose|q: int| first_occurrence(s, seq![c], q);
                assert(first_occurrence(s, seq![c], p as int));
                lemma_first_occurrence_unique(s, seq![c], p as int, q);
                assert(s.subrange(p as int, p + 1)[0] == c);
            }
            Some(p)
        },
        None => None,
    }
}

/// The `[current/total]` counter of a COLMAP line, if it has one.
pub fn parse_bracket_progress(line: &str) -> (r: Option<(u64, u64)>)
    ensures
        r == parse_bracket_progress_spec(line@),
{
    let chars = str_chars(line);
    let n = chars.len();
    proof {
        assert(chars@.subrange(0, n as int) == line@);
    }
    let open = find_char(chars.as_slice(), 0, n, '[')?;
    let close_rel = find_char(chars.as_slice(), open + 1, n, ']')?;
    let close = open + 1 + close_rel;
    proof {
        let after = line@.subrange(open + 1, line@.len() as int);
        assert(chars@.subrange(open + 1, n as int) == after);
    }
    proof {
        let after = line@.subrange(open + 1, line@.len() as int);
        let value = after.subrange(0, close_rel as int);
        assert(chars@.subrange(open + 1, close as int) =~= value);
    }
    let slash_rel = find_char(chars.as_slice(), open + 1, close, '/')?;
    let slash = open + 1 + slash_rel;
    proof {
        let after = line@.subrange(open + 1, line@.len() as int);
        let value = after.subrange(0, close_rel as int);
        assert(chars@.subrange(open + 1, close as int) =~= value);
        assert(value.subrange(0, slash_rel as int) =~= chars@.subrange(open + 1, slash as int));
        assert(value.subrange(slash_rel + 1, value.len() as int) =~= chars@.subrange(
            slash + 1,
            close as int,
        ));
    }
    let (a, b) = trim_bounds(chars.as_slice(), open + 1, slash);
    let current = parse_u64(chars.as_slice(), a, b);
    let (c, d) = trim_bounds(chars.as_slice(), slash + 1, close);
    let total = parse_u64(chars.as_slice(), c, d);
    match (current, total) {
        (Some(current), Some(total)) => Some((current, total)),
        _ => None,
    }
}

/// `str::trim_matches(|ch: char| !ch.is_ascii_digit())`.
pub open spec fn trim_non_digits(s: Seq<char>) -> Seq<char>
    decreases s.len(),
{
    if s.len() > 0 && !is_digit(s[0]) {
        trim_non_digits(s.drop_first())
    } else if s.len() > 0 && !is_digit(s.last()) {
        trim_non_digits(s.drop_last())
    } else {
        s
    }
}

/// The first whitespace-separated word after the first `marker`, with
/// non-digits trimmed from both ends.
pub open spec fn value_after_spec(line: Seq<char>, marker: Seq<char>) -> Option<Seq<char>> {
    if !contains(line, marker) {
        None
    } else {
        let p = choose|p: int| first_occurrence(line, marker, p);
        let words = fields(line.subrange(p + marker.len(), line.len() as int));
        if words.len() == 0 {
            None
        } else {
            Some(trim_non_digits(words[0]))
        }
    }
}

fn trim_non_digit_bounds(v: &[char], from: usize, to: usize) -> (r: (usize, usize))
    requires
        from <= to <= v@.len(),
    ensures
        from <= r.0 <= r.1 <= to,
        v@.subrange(r.0 as int, r.1 as int) == trim_non_digits(v@.subrange(from as int, to as int)),
{
    let mut a = from;
    let mut b = to;
    while a < b && !(v[a] >= '0' && v[a] <= '9') || a < b && !(v[b - 1] >= '0' && v[b - 1] <= '9')
        invariant
            from <= a <= b <= to <= v@.len(),
            trim_non_digits(v@.subrange(from as int, to as int)) == trim_non_digits(
                v@.subrange(a as int, b as int),
            ),
        decreases b - a,
    {
        let ghost t = v@.subrange(a as int, b as int);
        if !(v[a] >= '0' && v[a] <= '9') {
            proof {
                assert(t[0] == v@[a as int]);
                assert(t.drop_first() =~= v@.subrange(a + 1, b as int));
            }
            a = a + 1;
        } else {
            proof {
                assert(t[0] == v@[a as int]);
                assert(t.last() == v@[b - 1]);
                assert(t.drop_last() =~= v@.subrange(a as int, b - 1));
            }
            b = b - 1;
        }
    }
    proof {
        let t = v@.subrange(a as int, b as int);
        if a < b {
            assert(t[0] == v@[a as int]);
            assert(t.last() == v@[b - 1]);
        }
        assert(trim_non_digits(t) == t);
    }
    (a, b)
}

/// The bounds in `v` of `value_after(v[..], marker)`.
fn value_after(v: &[char], marker: &[char]) -> (r: Option<(usize, usize)>)
    ensures
        match r {
            Some(p) => p.0 <= p.1 <= v@.len() && value_after_spec(v@, marker@) == Some(
                v@.subrange(p.0 as int, p.1 as int),
            ),
            None => value_after_spec(v@, marker@) is None,
        },
{
    let n = v.len();
    proof {
        assert(v@.subrange(0, n as int) == v@);
    }
    let p = match find(v, 0, n, marker) {
        None => {
            return None;
        },
        Some(p) => p,
    };
    proof {
        let q = choose|q: int| first_occurrence(v@, marker@, q);
        lemma_first_occurrence_unique(v@, marker@, p as int, q);
    }
    let start = p + marker.len();
    let words = field_bounds(v, start, n);
    if words.len() == 0 {
        return None;
    }
    let (wa, wb) = words[0];
    let (a, b) = trim_non_digit_bounds(v, wa, wb);
    Some((a, b))
}

/// One parsed mapper progress signal.
///
/// The incremental mapper registers images one by one; the global mapper only
/// announces which stage it entered, as a share of the whole run in percent.
#[derive(Debug, Clone, PartialEq, Eq)]
pub enum MapperProgress {
    Registered { current: u64, total: Option<u64>, message: String },
    Stage { percent: u32, message: String },
}

/// The values a `MapperProgress` carries, with its message as characters.
pub enum MapperProgressView {
    Registered { current: u64, total: Option<u64>, message: Seq<char> },
    Stage { percent: u32, message: Seq<char> },
}

impl MapperProgress {
    pub open spec fn view(self) -> MapperProgressView {
        match self {
            MapperProgress::Registered { current, total, message } => MapperProgressView::Registered {
                current,
                total,
                message: message@,
            },
            MapperProgress::Stage { percent, message } => MapperProgressView::Stage {
                percent,
                message: message@,
            },
        }
    }
}

/// Banner of the `k`-th global mapper stage.
pub open spec fn stage_marker(k: int) -> Seq<char> {
    if k == 0 {
        "=== Running rotation averaging ==="@
    } else if k == 1 {
        "=== Running track establishment ==="@
    } else if k == 2 {
        "=== Running global positioning ==="@
    } else if k == 3 {
        "=== Running iterative bundle adjustment ==="@
    } else {
        "=== Running iterative retriangulation and refinement ==="@
    }
}

/// Where the run stands, in percent, once the `k`-th stage begins: the
/// positioning solve dominates on real footage.
pub open spec fn stage_percent(k: int) -> u32 {
    if k == 0 {
        5
    } else if k == 1 {
        15
    } else if k == 2 {
        30
    } else if k == 3 {
        65
    } else {
        80
    }
}

pub open spec fn stage_label(k: int) -> Seq<char> {
    if k == 0 {
        "全局重建：旋转平均"@
    } else if k == 1 {
        "全局重建：建立轨迹"@
    } else if k == 2 {
        "全局重建：全局定位（最耗时）"@
    } else if k == 3 {
        "全局重建：整体光束法平差"@
    } else {
        "全局重建：重三角化与精化"@
    }
}

/// The first stage whose banner the line holds.
pub open spec fn first_stage(line: Seq<char>, k: int) -> bool {
    0 <= k < 5 && contains(line, stage_marker(k)) && forall|j: int|
        0 <= j < k ==> !contains(line, #[trigger] stage_marker(j))
}

pub open spec fn has_stage(line: Seq<char>) -> bool {
    exists|k: int| first_stage(line, k)
}

/// The registration count a line reports after `num_reg_frames=` (or, when
/// that marker is absent, `num_reg_frames =`).
pub open spec fn reported_count(line: Seq<char>) -> Option<u64> {
    let value = match value_after_spec(line, "num_reg_frames="@) {
        Some(v) => Some(v),
        None => value_after_spec(line, "num_reg_frames ="@),
    };
    match value {
        Some(v) => parse_u64_spec(v),
        None => None,
    }
}

/// Lines that close an incremental reconstruction.
pub open spec fn is_refinement(line: Seq<char>) -> bool {
    contains(ascii_lower(line), "retriangulation"@) || contains(
        ascii_lower(line),
        "global bundle adjustment"@,
    )
}

/// Whether the line registers one more image without reporting a count.
pub open spec fn registers_one_more(line: Seq<char>) -> bool {
    !has_stage(line) && reported_count(line) is None && !is_refinement(line) && contains(
        line,
        "Registering image #"@,
    )
}

pub open spec fn max_u64(a: u64, b: u64) -> u64 {
    if a >= b {
        a
    } else {
        b
    }
}

/// The counter after a line, and the progress signal the line gives, for a
/// counter that holds the most images registered so far.
pub open spec fn mapper_progress_spec(line: Seq<char>, counter: u64, expected_total: Option<u64>) -> (
    u64,
    Option<MapperProgressView>,
) {
    if has_stage(line) {
        let k = choose|k: int| first_stage(line, k);
        (
            counter,
            Some(MapperProgressView::Stage { percent: stage_percent(k), message: stage_label(k) }),
        )
    } else if is_refinement(line) {
        let c = match reported_count(line) {
            Some(r) => max_u64(counter, r),
            None => counter,
        };
        if c > 0 {
            (
                c,
                Some(
                    MapperProgressView::Registered {
                        current: c,
                        total: expected_total,
                        message: friendly_line_spec(line),
                    },
                ),
            )
        } else {
            (c, None)
        }
    } else if reported_count(line) is Some {
        let c = max_u64(counter, reported_count(line)->0);
        (
            c,
            Some(
                MapperProgressView::Registered {
                    current: c,
                    total: expected_total,
                    message: "已注册 "@ + decimal(c as nat) + " 张图像"@,
                },
            ),
        )
    } else if contains(line, "Registering image #"@) {
        let c = (counter + 1) as u64;
        (
            c,
            Some(
                MapperProgressView::Registered {
                    current: c,
                    total: expected_total,
                    message: "正在注册第 "@ + decimal(c as nat) + " 张图像"@,
                },
            ),
        )
    } else {
        (counter, None)
    }
}

/// Reads one line of mapper output. The counter holds the most images
/// registered so far: a reported count only ever raises it, and a bare
/// registration line adds one.
pub fn parse_mapper_progress(line: &str, counter: &mut u64, expected_total: Option<u64>) -> (r:
    Option<MapperProgress>)
    requires
        registers_one_more(line@) ==> *old(counter) < u64::MAX,
    ensures
        *final(counter) == mapper_progress_spec(line@, *old(counter), expected_total).0,
        match r {
            Some(p) => mapper_progress_spec(line@, *old(counter), expected_total).1 == Some(p.view()),
            None => mapper_progress_spec(line@, *old(counter), expected_total).1 is None,
        },
{
    let chars = str_chars(line);
    let n = chars.len();
    proof {
        assert(chars@.subrange(0, n as int) == line@);
    }
    let mut k: usize = 0;
    while k < 5
        invariant
            k <= 5,
            chars@ == line@,
            n == chars@.len(),
            forall|j: int| 0 <= j < k ==> !contains(line@, #[trigger] stage_marker(j)),
        decreases 5 - k,
    {
        let marker = if k == 0 {
            str_chars("=== Running rotation averaging ===")
        } else if k == 1 {
            str_chars("=== Running track establishment ===")
        } else if k == 2 {
            str_chars("=== Running global positioning ===")
        } else if k == 3 {
            str_chars("=== Running iterative bundle adjustment ===")
        } else {
            str_chars("=== Running iterative retriangulation and refinement ===")
        };
        proof {
            assert(marker@ == stage_marker(k as int));
            assert(chars@.subrange(0, n as int) == line@);
        }
        if contains_chars(chars.as_slice(), 0, n, marker.as_slice()) {
            let (percent, label): (u32, &str) = if k == 0 {
                (5, "全局重建：旋转平均")
            } else if k == 1 {
                (15, "全局重建：建立轨迹")
            } else if k == 2 {
                (30, "全局重建：全局定位（最耗时）")
            } else if k == 3 {
                (65, "全局重建：整体光束法平差")
            } else {
                (80, "全局重建：重三角化与精化")
            };
            proof {
                assert(first_stage(line@, k as int));
                let q = choose|q: int| first_stage(line@, q);
                if q < k {
                    assert(!contains(line@, stage_marker(q)));
                } else if q > k {
                    assert(!contains(line@, stage_marker(k as int)));
                }
            }
            return Some(MapperProgress::Stage { percent, message: String::from_str(label) });
        }
        k = k + 1;
    }
    proof {
        assert forall|q: int| !first_stage(line@, q) by {
            if 0 <= q < 5 {
                assert(!contains(line@, stage_marker(q)));
            }
        }
    }
    let eq = str_chars("num_reg_frames=");
    let spaced = str_chars("num_reg_frames =");
    let value = match value_after(chars.as_slice(), eq.as_slice()) {
        Some(p) => Some(p),
        None => value_after(chars.as_slice(), spaced.as_slice()),
    };
    let reported = match value {
        Some((a, b)) => parse_u64(chars.as_slice(), a, b),
        None => None,
    };
    proof {
        assert(reported == reported_count(line@));
    }
    let lower = to_ascii_lower(chars.as_slice());
    let retri = str_chars("retriangulation");
    let gba = str_chars("global bundle adjustment");
    let ln = lower.len();
    proof {
        assert(lower@.subrange(0, ln as int) == lower@);
    }
    if contains_chars(lower.as_slice(), 0, ln, retri.as_slice()) || contains_chars(
        lower.as_slice(),
        0,
        ln,
        gba.as_slice(),
    ) {
        if let Some(current) = reported {
            if current > *counter {
                *counter = current;
            }
        }
        let current = *counter;
        if current > 0 {
            return Some(
                MapperProgress::Registered {
                    current,
                    total: expected_total,
                    message: friendly_engine_line(line),
                },
            );
        }
        return None;
    }
    if let Some(current) = reported {
        if current > *counter {
            *counter = current;
        }
        let current = *counter;
        let mut message = String::from_str("已注册 ");
        push_decimal(&mut message, current);
        message.append(" 张图像");
        return Some(MapperProgress::Registered { current, total: expected_total, message });
    }
    let registering = str_chars("Registering image #");
    if contains_chars(chars.as_slice(), 0, n, registering.as_slice()) {
        *counter = *counter + 1;
        let current = *counter;
        let mut message = String::from_str("正在注册第 ");
        push_decimal(&mut message, current);
        message.append(" 张图像");
        return Some(MapperProgress::Registered { current, total: expected_total, message });
    }
    None
}

/// The registration counter never goes back: a line keeps it, raises it to a
/// larger reported count, or adds one image; and a registration signal
/// reports the counter as it stands after the line.
pub proof fn lemma_mapper_counter_only_moves_forward(
    line: Seq<char>,
    counter: u64,
    expected_total: Option<u64>,
)
    requires
        registers_one_more(line) ==> counter < u64::MAX,
    ensures
        mapper_progress_spec(line, counter, expected_total).0 >= counter,
        mapper_progress_spec(line, counter, expected_total).1 matches Some(
            MapperProgressView::Registered { current, total, .. },
        ) ==> current == mapper_progress_spec(line, counter, expected_total).0 && total
            == expected_total,
{
}

/// The global mapper's stages advance the progress in the order they run,
/// and leave room for completion.
pub proof fn lemma_stage_progress_advances(earlier: int, later: int)
    requires
        0 <= earlier < later < 5,
    ensures
        stage_percent(earlier) < stage_percent(later),
        stage_percent(later) < 100,
        stage_percent(earlier) > 0,
{
}

/// Lines worth forwarding to the console even when they carry no progress.
pub open spec fn is_useful_line_spec(line: Seq<char>) -> bool {
    let lower = ascii_lower(line);
    ||| contains(lower, "bundle"@)
    ||| contains(lower, "register"@)
    ||| contains(lower, "triang"@)
    ||| contains(lower, "elapsed"@)
    ||| contains(lower, "warning"@)
    ||| contains(lower, "error"@)
    ||| contains(lower, "writing"@)
    ||| contains(lower, "loading"@)
}

/// Whether an engine line is worth showing in the log.
pub fn is_useful_line(line: &str) -> (b: bool)
    ensures
        b == is_useful_line_spec(line@),
{
    let chars = str_chars(line);
    let lower = to_ascii_lower(chars.as_slice());
    let n = lower.len();
    proof {
        assert(lower@.subrange(0, n as int) == lower@);
    }
    let l = lower.as_slice();
    contains_chars(l, 0, n, str_chars("bundle").as_slice()) || contains_chars(
        l,
        0,
        n,
        str_chars("register").as_slice(),
    ) || contains_chars(l, 0, n, str_chars("triang").as_slice()) || contains_chars(
        l,
        0,
        n,
        str_chars("elapsed").as_slice(),
    ) || contains_chars(l, 0, n, str_chars("warning").as_slice()) || contains_chars(
        l,
        0,
        n,
        str_chars("error").as_slice(),
    ) || contains_chars(l, 0, n, str_chars("writing").as_slice()) || contains_chars(
        l,
        0,
        n,
        str_chars("loading").as_slice(),
    )
}

/// Longest engine line shown, in characters.
pub const MAX_LINE_CHARS: usize = 360;

/// An engine line as the console shows it: trimmed, and cut to 360
/// characters with an ellipsis.
pub open spec fn friendly_line_spec(line: Seq<char>) -> Seq<char> {
    let t = trim(line);
    if t.len() > MAX_LINE_CHARS {
        t.subrange(0, MAX_LINE_CHARS as int) + "…"@
    } else {
        t
    }
}

/// An engine line as the log shows it: trimmed and cut to 360 characters.
pub fn friendly_engine_line(line: &str) -> (s: String)
    ensures
        s@ == friendly_line_spec(line@),
{
    let chars = str_chars(line);
    let n = chars.len();
    proof {
        assert(chars@.subrange(0, n as int) == line@);
    }
    let (a, b) = trim_bounds(chars.as_slice(), 0, n);
    if b - a > MAX_LINE_CHARS {
        let mut s = chars_to_string(chars.as_slice(), a, a + MAX_LINE_CHARS);
        s.append("…");
        proof {
            assert(chars@.subrange(a as int, a + MAX_LINE_CHARS) =~= chars@.subrange(
                a as int,
                b as int,
            ).subrange(0, MAX_LINE_CHARS as int));
        }
        s
    } else {
        chars_to_string(chars.as_slice(), a, b)
    }
}

/// `HH:MM:SS` of a duration in milliseconds; hours may exceed two digits.
pub open spec fn format_duration_spec(milliseconds: u64) -> Seq<char> {
    let seconds = milliseconds / 1000;
    decimal2((seconds / 3600) as nat) + seq![':'] + decimal2(((seconds % 3600) / 60) as nat)
        + seq![':'] + decimal2((seconds % 60) as nat)
}

/// A duration in milliseconds as `HH:MM:SS`.
pub fn format_duration(milliseconds: u64) -> (s: String)
    ensures
        s@ == format_duration_spec(milliseconds),
{
    let seconds = milliseconds / 1000;
    let mut s = String::new();
    push_decimal2(&mut s, seconds / 3600);
    crate::text::string_push(&mut s, ':');
    push_decimal2(&mut s, (seconds % 3600) / 60);
    crate::text::string_push(&mut s, ':');
    push_decimal2(&mut s, seconds % 60);
    proof {
        assert(s@ =~= format_duration_spec(milliseconds));
    }
    s
}


/// The status line shown while Brush trains. Brush reports no progress of its
/// own, so the bar follows a duration estimate (`progress_percent`, in whole
/// percent) and stops short of completion; once the run passes a known
/// estimate the line says so instead of showing a frozen percentage.
pub fn brush_progress_message(elapsed_ms: u64, estimated_duration_ms: u64, progress_percent: u64) -> (s: String)
    ensures
        s@ == if estimated_duration_ms > 0 && elapsed_ms > estimated_duration_ms {
            "Brush 训练中 · 已超过预估时间 · 已用时 "@ + format_duration_spec(elapsed_ms)
                + "（训练仍在继续，可查看日志确认）"@
        } else {
            "Brush 训练中 · 估算进度 "@ + decimal(progress_percent as nat) + "% · 已用时 "@
                + format_duration_spec(elapsed_ms)
        },
{
    let duration = format_duration(elapsed_ms);
    if estimated_duration_ms > 0 && elapsed_ms > estimated_duration_ms {
        let mut s = String::from_str("Brush 训练中 · 已超过预估时间 · 已用时 ");
        s.append(duration.as_str());
        s.append("（训练仍在继续，可查看日志确认）");
        s
    } else {
        let mut s = String::from_str("Brush 训练中 · 估算进度 ");
        push_decimal(&mut s, progress_percent);
        s.append("% · 已用时 ");
        s.append(duration.as_str());
        s
    }
}


/// Which engine output an observer reads.
#[derive(Debug, Clone, Copy, PartialEq, Eq, Structural)]
pub enum ObserverMode {
    /// FFmpeg `-progress` output.
    Ffmpeg,
    /// COLMAP's `[current/total]` counters.
    BracketProgress,
    /// COLMAP's mapper log.
    Mapper,
    /// Brush, which reports no progress of its own.
    Brush,
}

/// What one line of engine output amounts to.
pub enum ObservedLine {
    /// A progress report.
    Progress(MapperProgress),
    /// A line worth showing in the log, as shown.
    Log(String),
    /// Nothing to report.
    Quiet,
}

pub enum ObservedLineView {
    Progress(MapperProgressView),
    Log(Seq<char>),
    Quiet,
}

impl ObservedLine {
    pub open spec fn view(self) -> ObservedLineView {
        match self {
            ObservedLine::Progress(p) => ObservedLineView::Progress(p.view()),
            ObservedLine::Log(s) => ObservedLineView::Log(s@),
            ObservedLine::Quiet => ObservedLineView::Quiet,
        }
    }
}

/// The progress a line reports in `mode`, with the mapper's registration
/// counter after it.
pub open spec fn parsed_progress_spec(
    mode: ObserverMode,
    line: Seq<char>,
    counter: u64,
    expected_total: Option<u64>,
) -> (u64, Option<MapperProgressView>) {
    match mode {
        ObserverMode::Ffmpeg => (
            counter,
            match parse_ffmpeg_frame_spec(line) {
                Some(current) => Some(
                    MapperProgressView::Registered {
                        current,
                        total: expected_total,
                        message: "FFmpeg 已输出 "@ + decimal(current as nat) + " 帧"@,
                    },
                ),
                None => None,
            },
        ),
        ObserverMode::BracketProgress => (
            counter,
            match parse_bracket_progress_spec(line) {
                Some((current, total)) => Some(
                    MapperProgressView::Registered {
                        current,
                        total: Some(total),
                        message: friendly_line_spec(line),
                    },
                ),
                None => None,
            },
        ),
        ObserverMode::Mapper => mapper_progress_spec(line, counter, expected_total),
        ObserverMode::Brush => (counter, None),
    }
}

/// An empty line is quiet; a line that reports progress in `mode` is that
/// progress; any other line is logged, trimmed and shortened, when it comes
/// from Brush or says something useful.
pub open spec fn observe_line_spec(
    mode: ObserverMode,
    line: Seq<char>,
    counter: u64,
    expected_total: Option<u64>,
) -> (u64, ObservedLineView) {
    if line.len() == 0 {
        (counter, ObservedLineView::Quiet)
    } else {
        let (next, parsed) = parsed_progress_spec(mode, line, counter, expected_total);
        match parsed {
            Some(p) => (next, ObservedLineView::Progress(p)),
            None => if mode == ObserverMode::Brush || is_useful_line_spec(line) {
                (next, ObservedLineView::Log(friendly_line_spec(line)))
            } else {
                (next, ObservedLineView::Quiet)
            },
        }
    }
}

/// Reads one line of engine output; `counter` is the mapper's count of
/// registered images, which only the mapper's lines move.
pub fn observe_line(
    mode: ObserverMode,
    line: &str,
    counter: &mut u64,
    expected_total: Option<u64>,
) -> (r: ObservedLine)
    requires
        mode == ObserverMode::Mapper && registers_one_more(line@) ==> *old(counter) < u64::MAX,
    ensures
        *final(counter) == observe_line_spec(mode, line@, *old(counter), expected_total).0,
        r.view() == observe_line_spec(mode, line@, *old(counter), expected_total).1,
{
    if line.unicode_len() == 0 {
        return ObservedLine::Quiet;
    }
    let parsed = match mode {
        ObserverMode::Ffmpeg => match parse_ffmpeg_frame(line) {
            Some(current) => {
                let mut message = String::from_str("FFmpeg 已输出 ");
                push_decimal(&mut message, current);
                message.append(" 帧");
                Some(MapperProgress::Registered { current, total: expected_total, message })
            },
            None => None,
        },
        ObserverMode::BracketProgress => match parse_bracket_progress(line) {
            Some((current, total)) => Some(
                MapperProgress::Registered {
                    current,
                    total: Some(total),
                    message: friendly_engine_line(line),
                },
            ),
            None => None,
        },
        ObserverMode::Mapper => parse_mapper_progress(line, counter, expected_total),
        ObserverMode::Brush => None,
    };
    match parsed {
        Some(p) => ObservedLine::Progress(p),
        None => {
            if mode == ObserverMode::Brush || is_useful_line(line) {
                ObservedLine::Log(friendly_engine_line(line))
            } else {
                ObservedLine::Quiet
            }
        },
    }
}


/// Only the mapper's lines move the registration counter, and never back.
pub proof fn lemma_only_mapper_lines_move_the_counter(
    mode: ObserverMode,
    line: Seq<char>,
    counter: u64,
    expected_total: Option<u64>,
)
    requires
        mode == ObserverMode::Mapper && registers_one_more(line) ==> counter < u64::MAX,
    ensures
        observe_line_spec(mode, line, counter, expected_total).0 >= counter,
        mode != ObserverMode::Mapper ==> observe_line_spec(mode, line, counter, expected_total).0
            == counter,
{
    if mode == ObserverMode::Mapper && line.len() > 0 {
        lemma_mapper_counter_only_moves_forward(line, counter, expected_total);
    }
}


/// What one smart-filter run kept and why it dropped the rest.
#[derive(Debug, Clone, Copy, PartialEq, Eq, Structural)]
pub struct FilterSummary {
    pub total_frames: usize,
    pub kept_frames: usize,
    pub rejected_blur: usize,
    pub rejected_exposure: usize,
    pub rejected_redundant: usize,
    /// Frames kept only so that no window was left empty.
    pub forced_keeps: usize,
}

impl FilterSummary {
    /// The line that reports the run.
    pub fn message(&self) -> (s: String)
        ensures
            s@ == "已智能筛选 "@ + decimal(self.kept_frames as nat) + " / "@ + decimal(
                self.total_frames as nat,
            ) + " 帧（模糊 "@ + decimal(self.rejected_blur as nat) + " · 曝光 "@ + decimal(
                self.rejected_exposure as nat,
            ) + " · 冗余 "@ + decimal(self.rejected_redundant as nat) + " · 兜底 "@ + decimal(
                self.forced_keeps as nat,
            ) + "）"@,
    {
        let mut s = String::from_str("已智能筛选 ");
        push_decimal(&mut s, self.kept_frames as u64);
        s.append(" / ");
        push_decimal(&mut s, self.total_frames as u64);
        s.append(" 帧（模糊 ");
        push_decimal(&mut s, self.rejected_blur as u64);
        s.append(" · 曝光 ");
        push_decimal(&mut s, self.rejected_exposure as u64);
        s.append(" · 冗余 ");
        push_decimal(&mut s, self.rejected_redundant as u64);
        s.append(" · 兜底 ");
        push_decimal(&mut s, self.forced_keeps as u64);
        s.append("）");
        s
    }

    /// Whether forced keeps make up more than a tenth of the frames, which
    /// points at poor footage or filter settings.
    pub fn too_many_forced_keeps(&self) -> (b: bool)
        ensures
            b == (self.forced_keeps * 10 > self.total_frames),
    {
        self.forced_keeps as u128 * 10 > self.total_frames as u128
    }
}


/// The line that reports extracted video frames, and their masks for
/// footage with transparency.
pub fn extraction_message(frames: u64, masks: u64, has_alpha: bool) -> (s: String)
    ensures
        s@ == if has_alpha {
            "已提取 "@ + decimal(frames as nat) + " 张透明 PNG 和 "@ + decimal(masks as nat)
                + " 张 Mask"@
        } else {
            "已提取 "@ + decimal(frames as nat) + " 帧"@
        },
{
    let mut s = String::from_str("已提取 ");
    push_decimal(&mut s, frames);
    if has_alpha {
        s.append(" 张透明 PNG 和 ");
        push_decimal(&mut s, masks);
        s.append(" 张 Mask");
    } else {
        s.append(" 帧");
    }
    s
}

/// The line that reports a prepared image sequence, and its masks for images
/// with transparency.
pub fn image_preparation_message(images: u64, masks: u64, has_alpha: bool) -> (s: String)
    ensures
        s@ == if has_alpha {
            "已准备 "@ + decimal(images as nat) + " 张图片和 "@ + decimal(masks as nat)
                + " 张 Mask"@
        } else {
            "已准备 "@ + decimal(images as nat) + " 张图片"@
        },
{
    let mut s = String::from_str("已准备 ");
    push_decimal(&mut s, images);
    if has_alpha {
        s.append(" 张图片和 ");
        push_decimal(&mut s, masks);
        s.append(" 张 Mask");
    } else {
        s.append(" 张图片");
    }
    s
}


/// A `frame=<n>` line reports exactly `n` frames: FFmpeg's counter parses
/// back to the number it printed, and the observer turns it into one
/// registered count with the expected total and its message, leaving the
/// mapper's counter alone.
pub proof fn lemma_frame_lines_report_their_count(n: u64, counter: u64, expected_total: Option<u64>)
    ensures
        parse_ffmpeg_frame_spec("frame="@ + decimal(n as nat)) == Some(n),
        observe_line_spec(ObserverMode::Ffmpeg, "frame="@ + decimal(n as nat), counter, expected_total)
            == (
            counter,
            ObservedLineView::Progress(
                MapperProgressView::Registered {
                    current: n,
                    total: expected_total,
                    message: "FFmpeg 已输出 "@ + decimal(n as nat) + " 帧"@,
                },
            ),
        ),
{
    reveal_strlit("frame=");
    let line = "frame="@ + decimal(n as nat);
    assert(line.subrange(0, 6) =~= "frame="@);
    assert(line.subrange(6, line.len() as int) =~= decimal(n as nat));
    crate::text::lemma_decimal_parses_back(n);
}


/// The engine an event comes from.
#[derive(Debug, Clone, Copy, PartialEq, Eq, Structural)]
pub enum PipelineEngine {
    System,
    Ffmpeg,
    Colmap,
    Brush,
}

#[derive(Debug, Clone, Copy, PartialEq, Eq, Structural)]
pub enum EventKind {
    Progress,
    Log,
}

/// How far a stage has come, in exact numbers.
#[derive(Debug, Clone, Copy, PartialEq, Eq, Structural)]
pub enum StageShare {
    /// `done` out of `of`, which is never zero.
    Count { done: u64, of: u64 },
    /// A whole percentage, at most 100.
    Percent(u32),
    /// Brush's estimated share, in hundredths of a percent.
    BasisPoints(u64),
}

/// What an event's counts count.
#[derive(Debug, Clone, Copy, PartialEq, Eq, Structural)]
pub enum EventUnit {
    Images,
    EstimatedProgress,
}

impl EventUnit {
    /// The unit as the event stream names it.
    pub fn name(&self) -> (s: &'static str)
        ensures
            s@ == match self {
                EventUnit::Images => "张"@,
                EventUnit::EstimatedProgress => "estimated_progress"@,
            },
    {
        match self {
            EventUnit::Images => "张",
            EventUnit::EstimatedProgress => "estimated_progress",
        }
    }
}

/// The event an observed line becomes.
pub struct ObserverEvent {
    pub stage: PipelineStage,
    pub engine: PipelineEngine,
    pub kind: EventKind,
    pub share: Option<StageShare>,
    /// The event carries no share of the stage.
    pub indeterminate: bool,
    pub message: String,
    pub current: Option<u64>,
    pub total: Option<u64>,
    pub unit: Option<EventUnit>,
}

pub struct ObserverEventView {
    pub stage: PipelineStage,
    pub engine: PipelineEngine,
    pub kind: EventKind,
    pub share: Option<StageShare>,
    pub indeterminate: bool,
    pub message: Seq<char>,
    pub current: Option<u64>,
    pub total: Option<u64>,
    pub unit: Option<EventUnit>,
}

impl ObserverEvent {
    pub open spec fn view(self) -> ObserverEventView {
        ObserverEventView {
            stage: self.stage,
            engine: self.engine,
            kind: self.kind,
            share: self.share,
            indeterminate: self.indeterminate,
            message: self.message@,
            current: self.current,
            total: self.total,
            unit: self.unit,
        }
    }
}

/// A registered count becomes a progress event counted in images, with a
/// share when its total is known and positive; a mapper stage becomes a
/// progress event with its percentage; a logged line becomes a log event,
/// which for Brush carries the estimated share (indeterminate while it is
/// zero); a quiet line emits nothing.
pub open spec fn observer_event_spec(
    stage: PipelineStage,
    engine: PipelineEngine,
    mode: ObserverMode,
    observed: ObservedLineView,
    expected_total: Option<u64>,
    brush_basis_points: u64,
) -> Option<ObserverEventView> {
    match observed {
        ObservedLineView::Quiet => None,
        ObservedLineView::Progress(MapperProgressView::Registered { current, total, message }) => {
            let share = match total {
                Some(t) => if t > 0 {
                    Some(StageShare::Count { done: current, of: t })
                } else {
                    None
                },
                None => None,
            };
            Some(
                ObserverEventView {
                    stage,
                    engine,
                    kind: EventKind::Progress,
                    share,
                    indeterminate: share is None,
                    message,
                    current: Some(current),
                    total,
                    unit: Some(EventUnit::Images),
                },
            )
        },
        ObservedLineView::Progress(MapperProgressView::Stage { percent, message }) => Some(
            ObserverEventView {
                stage,
                engine,
                kind: EventKind::Progress,
                share: Some(
                    StageShare::Percent(
                        if percent > 100 {
                            100
                        } else {
                            percent
                        },
                    ),
                ),
                indeterminate: false,
                message,
                current: None,
                total: expected_total,
                unit: None,
            },
        ),
        ObservedLineView::Log(message) => if mode == ObserverMode::Brush {
            Some(
                ObserverEventView {
                    stage,
                    engine,
                    kind: EventKind::Log,
                    share: Some(StageShare::BasisPoints(brush_basis_points)),
                    indeterminate: brush_basis_points == 0,
                    message,
                    current: None,
                    total: expected_total,
                    unit: Some(EventUnit::EstimatedProgress),
                },
            )
        } else {
            Some(
                ObserverEventView {
                    stage,
                    engine,
                    kind: EventKind::Log,
                    share: None,
                    indeterminate: true,
                    message,
                    current: None,
                    total: expected_total,
                    unit: None,
                },
            )
        },
    }
}

/// The event that the observer of `stage` and `engine` emits for an
/// observed line, if any; `brush_basis_points` is Brush's latest estimated
/// share.
pub fn observer_event(
    stage: PipelineStage,
    engine: PipelineEngine,
    mode: ObserverMode,
    observed: ObservedLine,
    expected_total: Option<u64>,
    brush_basis_points: u64,
) -> (r: Option<ObserverEvent>)
    ensures
        match r {
            Some(event) => observer_event_spec(
                stage,
                engine,
                mode,
                observed.view(),
                expected_total,
                brush_basis_points,
            ) == Some(event.view()),
            None => observer_event_spec(
                stage,
                engine,
                mode,
                observed.view(),
                expected_total,
                brush_basis_points,
            ) is None,
        },
{
    match observed {
        ObservedLine::Quiet => None,
        ObservedLine::Progress(MapperProgress::Registered { current, total, message }) => {
            let share = match total {
                Some(t) => if t > 0 {
                    Some(StageShare::Count { done: current, of: t })
                } else {
                    None
                },
                None => None,
            };
            Some(
                ObserverEvent {
                    stage,
                    engine,
                    kind: EventKind::Progress,
                    share,
                    indeterminate: share.is_none(),
                    message,
                    current: Some(current),
                    total,
                    unit: Some(EventUnit::Images),
                },
            )
        },
        ObservedLine::Progress(MapperProgress::Stage { percent, message }) => Some(
            ObserverEvent {
                stage,
                engine,
                kind: EventKind::Progress,
                share: Some(
                    StageShare::Percent(
                        if percent > 100 {
                            100
                        } else {
                            percent
                        },
                    ),
                ),
                indeterminate: false,
                message,
                current: None,
                total: expected_total,
                unit: None,
            },
        ),
        ObservedLine::Log(message) => {
            if mode == ObserverMode::Brush {
                Some(
                    ObserverEvent {
                        stage,
                        engine,
                        kind: EventKind::Log,
                        share: Some(StageShare::BasisPoints(brush_basis_points)),
                        indeterminate: brush_basis_points == 0,
                        message,
                        current: None,
                        total: expected_total,
                        unit: Some(EventUnit::EstimatedProgress),
                    },
                )
            } else {
                Some(
                    ObserverEvent {
                        stage,
                        engine,
                        kind: EventKind::Log,
                        share: None,
                        indeterminate: true,
                        message,
                        current: None,
                        total: expected_total,
                        unit: None,
                    },
                )
            }
        },
    }
}

/// An FFmpeg observer with a known positive total emits nothing for an
/// empty line, and for a `frame=<n>` line exactly one progress event of that
/// stage and engine: `n` of the total images, not indeterminate, with its
/// message.
pub proof fn lemma_frame_lines_emit_one_progress_event(
    stage: PipelineStage,
    engine: PipelineEngine,
    n: u64,
    total: u64,
    counter: u64,
    brush_basis_points: u64,
)
    requires
        total > 0,
    ensures
        observer_event_spec(
            stage,
            engine,
            ObserverMode::Ffmpeg,
            observe_line_spec(ObserverMode::Ffmpeg, Seq::<char>::empty(), counter, Some(total)).1,
            Some(total),
            brush_basis_points,
        ) is None,
        observer_event_spec(
            stage,
            engine,
            ObserverMode::Ffmpeg,
            observe_line_spec(
                ObserverMode::Ffmpeg,
                "frame="@ + decimal(n as nat),
                counter,
                Some(total),
            ).1,
            Some(total),
            brush_basis_points,
        ) == Some(
            ObserverEventView {
                stage,
                engine,
                kind: EventKind::Progress,
                share: Some(StageShare::Count { done: n, of: total }),
                indeterminate: false,
                message: "FFmpeg 已输出 "@ + decimal(n as nat) + " 帧"@,
                current: Some(n),
                total: Some(total),
                unit: Some(EventUnit::Images),
            },
        ),
{
    lemma_frame_lines_report_their_count(n, counter, Some(total));
}


/// A line is worth logging when its lower-cased text mentions bundle
/// adjustment, registration, triangulation, elapsed time, a warning, an
/// error, writing or loading.
pub proof fn lemma_useful_lines_name_the_mapper_work(line: Seq<char>)
    ensures
        contains(ascii_lower(line), "bundle"@) ==> is_useful_line_spec(line),
        contains(ascii_lower(line), "register"@) ==> is_useful_line_spec(line),
        contains(ascii_lower(line), "triang"@) ==> is_useful_line_spec(line),
        contains(ascii_lower(line), "elapsed"@) ==> is_useful_line_spec(line),
        contains(ascii_lower(line), "warning"@) ==> is_useful_line_spec(line),
        contains(ascii_lower(line), "error"@) ==> is_useful_line_spec(line),
        contains(ascii_lower(line), "writing"@) ==> is_useful_line_spec(line),
        contains(ascii_lower(line), "loading"@) ==> is_useful_line_spec(line),
{
}

/// A non-empty engine line that reports no progress and mentions an error
/// is logged, trimmed, in every mode.
pub proof fn lemma_error_lines_are_logged(
    mode: ObserverMode,
    line: Seq<char>,
    counter: u64,
    expected_total: Option<u64>,
)
    requires
        line.len() > 0,
        contains(ascii_lower(line), "error"@),
        parsed_progress_spec(mode, line, counter, expected_total).1 is None,
    ensures
        observe_line_spec(mode, line, counter, expected_total).1 == ObservedLineView::Log(
            friendly_line_spec(line),
        ),
{
}

} // verus!
