//! Validation of the Gaussian PLY files that Brush writes.
use vstd::prelude::*;
use vstd::utf8::{decode_utf8, valid_utf8};

use crate::text::{field_bounds, fields, is_whitespace, is_ws, parse_u64, parse_u64_spec, str_chars, trim_end};

verus! {

#[derive(Debug, Clone, Copy, PartialEq, Eq, Structural)]
pub struct PlyInfo {
    pub file_size: u64,
    pub splat_count: u64,
}

/// Largest PLY header read before the file is refused: 256 KiB.
pub const MAX_PLY_HEADER_BYTES: u64 = 262144;

/// A per-splat property that every Gaussian PLY must declare.
#[derive(Debug, Clone, Copy, PartialEq, Eq, Structural)]
pub enum GaussianProperty {
    X,
    Y,
    Z,
    FDc0,
    Opacity,
    Scale0,
    Rot0,
}

/// Why a PLY file is not a usable Gaussian splat.
#[derive(Debug, Clone, Copy, PartialEq, Eq, Structural)]
pub enum PlyError {
    /// The file is empty.
    Empty,
    /// No `end_header` line within the first 256 KiB.
    HeaderTooLarge,
    /// The header is not UTF-8 text.
    NotUtf8,
    /// The file ends before an `end_header` line.
    MissingEndHeader,
    /// The first line is not `ply`.
    NotPly,
    /// No positive `element vertex` count.
    NoVertices,
    /// A Gaussian property is not declared.
    MissingProperty(GaussianProperty),
}

/// Property name as the header declares it, in the order they are checked.
pub open spec fn property_name(k: int) -> Seq<char> {
    if k == 0 {
        "x"@
    } else if k == 1 {
        "y"@
    } else if k == 2 {
        "z"@
    } else if k == 3 {
        "f_dc_0"@
    } else if k == 4 {
        "opacity"@
    } else if k == 5 {
        "scale_0"@
    } else {
        "rot_0"@
    }
}

pub open spec fn property_of(k: int) -> GaussianProperty {
    if k == 0 {
        GaussianProperty::X
    } else if k == 1 {
        GaussianProperty::Y
    } else if k == 2 {
        GaussianProperty::Z
    } else if k == 3 {
        GaussianProperty::FDc0
    } else if k == 4 {
        GaussianProperty::Opacity
    } else if k == 5 {
        GaussianProperty::Scale0
    } else {
        GaussianProperty::Rot0
    }
}

impl GaussianProperty {
    /// The property's name in the header.
    pub fn name(&self) -> (s: &'static str)
        ensures
            s@ == property_name(property_index(*self)),
    {
        match self {
            GaussianProperty::X => "x",
            GaussianProperty::Y => "y",
            GaussianProperty::Z => "z",
            GaussianProperty::FDc0 => "f_dc_0",
            GaussianProperty::Opacity => "opacity",
            GaussianProperty::Scale0 => "scale_0",
            GaussianProperty::Rot0 => "rot_0",
        }
    }
}

/// The message shown for a refused PLY.
pub open spec fn ply_error_message(e: PlyError) -> Seq<char> {
    match e {
        PlyError::Empty => "Brush 输出的 PLY 为空"@,
        PlyError::HeaderTooLarge => "PLY header 超过 256 KiB 安全限制"@,
        PlyError::NotUtf8 => "PLY header 不是有效 UTF-8 文本"@,
        PlyError::MissingEndHeader => "PLY 缺少 end_header"@,
        PlyError::NotPly => "输出不是合法 PLY 文件"@,
        PlyError::NoVertices => "PLY 不包含 Gaussian 顶点"@,
        PlyError::MissingProperty(p) => "PLY 缺少 Gaussian 属性："@ + property_name(
            property_index(p),
        ),
    }
}

/// Where `p` stands in the order the properties are checked.
pub open spec fn property_index(p: GaussianProperty) -> int {
    match p {
        GaussianProperty::X => 0,
        GaussianProperty::Y => 1,
        GaussianProperty::Z => 2,
        GaussianProperty::FDc0 => 3,
        GaussianProperty::Opacity => 4,
        GaussianProperty::Scale0 => 5,
        GaussianProperty::Rot0 => 6,
    }
}

impl PlyError {
    /// The message shown to the user.
    pub fn message(&self) -> (s: String)
        ensures
            s@ == ply_error_message(*self),
    {
        let mut s = String::new();
        match self {
            PlyError::Empty => s.append("Brush 输出的 PLY 为空"),
            PlyError::HeaderTooLarge => s.append("PLY header 超过 256 KiB 安全限制"),
            PlyError::NotUtf8 => s.append("PLY header 不是有效 UTF-8 文本"),
            PlyError::MissingEndHeader => s.append("PLY 缺少 end_header"),
            PlyError::NotPly => s.append("输出不是合法 PLY 文件"),
            PlyError::NoVertices => s.append("PLY 不包含 Gaussian 顶点"),
            PlyError::MissingProperty(p) => {
                s.append("PLY 缺少 Gaussian 属性：");
                s.append(p.name());
            },
        }
        proof {
            assert(s@ =~= ply_error_message(*self));
        }
        s
    }
}

/// End of the line that starts at `i`: just past its `\n`, or the end of the
/// data for a last line without one.
pub open spec fn line_end(d: Seq<u8>, i: int) -> int
    decreases d.len() - i,
{
    if i >= d.len() {
        d.len() as int
    } else if d[i] == 10 {
        i + 1
    } else {
        line_end(d, i + 1)
    }
}

pub open spec fn end_header_bytes() -> Seq<u8> {
    seq![101u8, 110, 100, 95, 104, 101, 97, 100, 101, 114]
}

/// A line that reads `end_header` once its `\n`, then its `\r`, is removed.
pub open spec fn is_end_header_line(line: Seq<u8>) -> bool {
    let a = if line.len() > 0 && line.last() == 10 {
        line.drop_last()
    } else {
        line
    };
    let b = if a.len() > 0 && a.last() == 13 {
        a.drop_last()
    } else {
        a
    };
    b == end_header_bytes()
}

pub enum HeaderScan {
    /// The header ends at this offset, after its `end_header` line.
    Found(int),
    TooLarge,
    Missing,
}

/// Reads the header line by line from offset `start`, as a reader limited to
/// 256 KiB + 1 bytes does.
pub open spec fn scan_header(d: Seq<u8>, start: int) -> HeaderScan
    decreases d.len() - start,
{
    if start < 0 || start >= d.len() {
        if d.len() > MAX_PLY_HEADER_BYTES {
            HeaderScan::TooLarge
        } else {
            HeaderScan::Missing
        }
    } else {
        let t = line_end(d, start);
        if t > MAX_PLY_HEADER_BYTES {
            HeaderScan::TooLarge
        } else if is_end_header_line(d.subrange(start, t)) {
            HeaderScan::Found(t)
        } else {
            proof {
                lemma_line_end_bounds(d, start);
            }
            scan_header(d, t)
        }
    }
}

/// A line ends after it starts and within the data, at its first `\n`.
pub proof fn lemma_line_end_bounds(d: Seq<u8>, i: int)
    requires
        0 <= i < d.len(),
    ensures
        i < line_end(d, i) <= d.len(),
        forall|j: int| i <= j < line_end(d, i) - 1 ==> d[j] != 10,
        line_end(d, i) < d.len() ==> d[line_end(d, i) - 1] == 10,
        line_end(d, i) == d.len() || d[line_end(d, i) - 1] == 10,
    decreases d.len() - i,
{
    if d[i] == 10 {
    } else if i + 1 < d.len() {
        lemma_line_end_bounds(d, i + 1);
    } else {
        assert(line_end(d, i + 1) == d.len());
    }
}

/// The first 256 KiB + 1 bytes of `d`: as much as a reader limited to that
/// many bytes gets.
pub open spec fn bounded_prefix(d: Seq<u8>) -> Seq<u8> {
    if d.len() <= MAX_PLY_HEADER_BYTES + 1 {
        d
    } else {
        d.take(MAX_PLY_HEADER_BYTES + 1)
    }
}

proof fn lemma_line_end_truncated(d: Seq<u8>, i: int)
    requires
        0 <= i < bounded_prefix(d).len(),
    ensures
        ({
            let l = bounded_prefix(d).len() as int;
            line_end(bounded_prefix(d), i) == if line_end(d, i) <= l {
                line_end(d, i)
            } else {
                l
            }
        }),
    decreases d.len() - i,
{
    let t = bounded_prefix(d);
    assert(t.len() <= d.len());
    assert(t[i] == d[i]);
    lemma_line_end_bounds(d, i);
    if d[i] != 10 {
        if i + 1 < t.len() {
            lemma_line_end_truncated(d, i + 1);
        } else {
            assert(line_end(t, i + 1) == t.len());
            if i + 1 < d.len() {
                lemma_line_end_bounds(d, i + 1);
            } else {
                assert(line_end(d, i + 1) == d.len());
            }
        }
    }
}

proof fn lemma_scan_header_truncated(d: Seq<u8>, start: int)
    requires
        0 <= start <= MAX_PLY_HEADER_BYTES,
    ensures
        scan_header(bounded_prefix(d), start) == scan_header(d, start),
    decreases d.len() - start,
{
    let t = bounded_prefix(d);
    assert(t.len() <= d.len());
    assert(d.len() > MAX_PLY_HEADER_BYTES <==> t.len() > MAX_PLY_HEADER_BYTES);
    if start < d.len() {
        assert(start < t.len());
        lemma_line_end_truncated(d, start);
        lemma_line_end_bounds(d, start);
        let e = line_end(d, start);
        if e <= MAX_PLY_HEADER_BYTES {
            assert(e <= t.len());
            assert(t.subrange(start, e) =~= d.subrange(start, e));
            lemma_scan_header_truncated(d, e);
        }
    }
}

/// Only the first 256 KiB + 1 bytes count: a reader limited to that many
/// bytes gets the same answer as one that reads the whole file.
pub proof fn lemma_inspect_reads_a_bounded_prefix(file_size: u64, head: Seq<u8>)
    ensures
        inspect_spec(file_size, bounded_prefix(head)) == inspect_spec(file_size, head),
{
    lemma_scan_header_truncated(head, 0);
    let t = bounded_prefix(head);
    if let HeaderScan::Found(end) = scan_header(head, 0) {
        lemma_scan_header_found_bounds(head, 0);
        assert(end <= t.len());
        assert forall|i: int| 0 <= i < end implies t[i] == head[i] by {
            assert(t.len() <= head.len());
        }
        assert(t.subrange(0, end) =~= head.subrange(0, end));
    }
}

proof fn lemma_scan_header_found_bounds(d: Seq<u8>, start: int)
    requires
        0 <= start,
    ensures
        scan_header(d, start) matches HeaderScan::Found(end) ==> start < end
            <= MAX_PLY_HEADER_BYTES && end <= d.len(),
    decreases d.len() - start,
{
    if start < d.len() {
        lemma_line_end_bounds(d, start);
        lemma_scan_header_found_bounds(d, line_end(d, start));
    }
}

/// End of the text line that starts at `i`.
pub open spec fn char_line_end(s: Seq<char>, i: int) -> int
    decreases s.len() - i,
{
    if i >= s.len() {
        s.len() as int
    } else if s[i] == '\n' {
        i + 1
    } else {
        char_line_end(s, i + 1)
    }
}

/// `text[i..].lines().map(str::trim_end)`.
pub open spec fn lines_from(s: Seq<char>, i: int) -> Seq<Seq<char>>
    decreases s.len() - i,
{
    if i < 0 || i >= s.len() {
        Seq::<Seq<char>>::empty()
    } else {
        proof {
            lemma_char_line_end_bounds(s, i);
        }
        seq![trim_end(s.subrange(i, char_line_end(s, i)))] + lines_from(s, char_line_end(s, i))
    }
}

/// A text line ends after it starts and within the text.
pub proof fn lemma_char_line_end_bounds(s: Seq<char>, i: int)
    requires
        0 <= i < s.len(),
    ensures
        i < char_line_end(s, i) <= s.len(),
    decreases s.len() - i,
{
    if s[i] == '\n' {
    } else if i + 1 < s.len() {
        lemma_char_line_end_bounds(s, i + 1);
    } else {
        assert(char_line_end(s, i + 1) == s.len());
    }
}

/// The count of an `element vertex <count>` line.
pub open spec fn vertex_count(line: Seq<char>) -> Option<u64> {
    let f = fields(line);
    if f.len() >= 2 && f[0] == "element"@ && f[1] == "vertex"@ && f.len() >= 3 {
        parse_u64_spec(f[2])
    } else {
        None
    }
}

/// The first vertex count among the lines.
pub open spec fn first_vertex_count(lines: Seq<Seq<char>>) -> Option<u64>
    decreases lines.len(),
{
    if lines.len() == 0 {
        None
    } else {
        match first_vertex_count(lines.drop_last()) {
            Some(v) => Some(v),
            None => vertex_count(lines.last()),
        }
    }
}

/// A `property <type> <name>` line.
pub open spec fn declares(line: Seq<char>, name: Seq<char>) -> bool {
    let f = fields(line);
    f.len() >= 3 && f[0] == "property"@ && f[2] == name
}

pub open spec fn has_property(lines: Seq<Seq<char>>, k: int) -> bool {
    exists|i: int| 0 <= i < lines.len() && declares(#[trigger] lines[i], property_name(k))
}

/// The first Gaussian property the lines do not declare.
pub open spec fn first_missing(lines: Seq<Seq<char>>, k: int) -> bool {
    0 <= k < 7 && !has_property(lines, k) && forall|j: int|
        0 <= j < k ==> #[trigger] has_property(lines, j)
}

/// The verdict on the lines of a decoded header.
pub open spec fn inspect_lines_spec(file_size: u64, lines: Seq<Seq<char>>) -> Result<PlyInfo, PlyError> {
    if lines.len() == 0 || lines[0] != "ply"@ {
        Err(PlyError::NotPly)
    } else {
        let rest = lines.drop_first();
        let count = match first_vertex_count(rest) {
            Some(v) => v,
            None => 0,
        };
        if count == 0 {
            Err(PlyError::NoVertices)
        } else if exists|k: int| first_missing(rest, k) {
            Err(PlyError::MissingProperty(property_of(choose|k: int| first_missing(rest, k))))
        } else {
            Ok(PlyInfo { file_size, splat_count: count })
        }
    }
}

/// What inspecting a PLY file of `file_size` bytes gives, from its leading
/// bytes `head`.
pub open spec fn inspect_spec(file_size: u64, head: Seq<u8>) -> Result<PlyInfo, PlyError> {
    if file_size == 0 {
        Err(PlyError::Empty)
    } else {
        match scan_header(head, 0) {
            HeaderScan::TooLarge => Err(PlyError::HeaderTooLarge),
            HeaderScan::Missing => Err(PlyError::MissingEndHeader),
            HeaderScan::Found(t) => {
                let header = head.subrange(0, t);
                if !valid_utf8(header) {
                    Err(PlyError::NotUtf8)
                } else {
                    inspect_lines_spec(file_size, lines_from(decode_utf8(header), 0))
                }
            },
        }
    }
}

/// std's `String::from_utf8`, with its error dropped. Trusted: the contract
/// claims, as std documents, that it succeeds exactly on valid UTF-8 and
/// that the text it returns is the one the bytes encode.
#[verifier::external_body]
fn string_from_utf8(bytes: Vec<u8>) -> (r: Option<String>)
    ensures
        r is Some <==> valid_utf8(bytes@),
        r matches Some(s) ==> s@ == decode_utf8(bytes@),
{
    String::from_utf8(bytes).ok()
}

fn is_end_header(d: &[u8], start: usize, t: usize) -> (b: bool)
    requires
        start <= t <= d@.len(),
    ensures
        b == is_end_header_line(d@.subrange(start as int, t as int)),
{
    let ghost line = d@.subrange(start as int, t as int);
    let mut e = t;
    if e > start && d[e - 1] == 10 {
        e = e - 1;
    }
    if e > start && d[e - 1] == 13 {
        e = e - 1;
    }
    proof {
        let a = if line.len() > 0 && line.last() == 10 {
            line.drop_last()
        } else {
            line
        };
        let b = if a.len() > 0 && a.last() == 13 {
            a.drop_last()
        } else {
            a
        };
        assert(b =~= d@.subrange(start as int, e as int));
    }
    let word: [u8; 10] = [101, 110, 100, 95, 104, 101, 97, 100, 101, 114];
    if e - start != 10 {
        return false;
    }
    let mut k: usize = 0;
    while k < 10
        invariant
            k <= 10,
            e == start + 10,
            start <= e <= t <= d@.len(),
            is_end_header_line(d@.subrange(start as int, t as int)) == (d@.subrange(
                start as int,
                e as int,
            ) == end_header_bytes()),
            word@ == end_header_bytes(),
            forall|j: int| 0 <= j < k ==> d@[start + j] == end_header_bytes()[j],
        decreases 10 - k,
    {
        if d[start + k] != word[k] {
            proof {
                assert(d@.subrange(start as int, e as int)[k as int] != end_header_bytes()[k as int]);
            }
            return false;
        }
        k = k + 1;
    }
    proof {
        assert(d@.subrange(start as int, e as int) =~= end_header_bytes());
    }
    true
}

fn next_line_end(d: &[u8], start: usize) -> (t: usize)
    requires
        start < d@.len(),
    ensures
        t == line_end(d@, start as int),
{
    let mut i = start;
    while i < d.len() && d[i] != 10
        invariant
            start <= i <= d@.len(),
            line_end(d@, start as int) == line_end(d@, i as int),
        decreases d.len() - i,
    {
        i = i + 1;
    }
    if i < d.len() {
        i + 1
    } else {
        i
    }
}

/// Where the header in `head` ends, or why none is there.
fn find_header_end(head: &[u8]) -> (r: Result<usize, PlyError>)
    ensures
        match r {
            Ok(t) => scan_header(head@, 0) == HeaderScan::Found(t as int) && t <= head@.len(),
            Err(PlyError::HeaderTooLarge) => scan_header(head@, 0) == HeaderScan::TooLarge,
            Err(PlyError::MissingEndHeader) => scan_header(head@, 0) == HeaderScan::Missing,
            Err(_) => false,
        },
{
    let mut start: usize = 0;
    while start < head.len()
        invariant
            start <= head@.len(),
            scan_header(head@, 0) == scan_header(head@, start as int),
        decreases head.len() - start,
    {
        let t = next_line_end(head, start);
        proof {
            lemma_line_end_bounds(head@, start as int);
        }
        if t as u64 > MAX_PLY_HEADER_BYTES {
            return Err(PlyError::HeaderTooLarge);
        }
        if is_end_header(head, start, t) {
            return Ok(t);
        }
        start = t;
    }
    if head.len() as u64 > MAX_PLY_HEADER_BYTES {
        Err(PlyError::HeaderTooLarge)
    } else {
        Err(PlyError::MissingEndHeader)
    }
}

proof fn lemma_first_vertex_push(lines: Seq<Seq<char>>, line: Seq<char>)
    ensures
        first_vertex_count(lines.push(line)) == match first_vertex_count(lines) {
            Some(v) => Some(v),
            None => vertex_count(line),
        },
{
    assert(lines.push(line).drop_last() =~= lines);
}

/// `v[a..b]` equals the text `word`.
fn chars_equal_to(v: &[char], a: usize, b: usize, word: &[char]) -> (r: bool)
    requires
        a <= b <= v@.len(),
    ensures
        r == (v@.subrange(a as int, b as int) == word@),
{
    if b - a != word.len() {
        return false;
    }
    let mut k: usize = 0;
    while k < word.len()
        invariant
            a <= b <= v@.len(),
            b - a == word@.len(),
            k <= word@.len(),
            forall|j: int| 0 <= j < k ==> v@[a + j] == word@[j],
        decreases word.len() - k,
    {
        if v[a + k] != word[k] {
            proof {
                assert(v@.subrange(a as int, b as int)[k as int] != word@[k as int]);
            }
            return false;
        }
        k = k + 1;
    }
    proof {
        assert(v@.subrange(a as int, b as int) =~= word@);
    }
    true
}

/// End of the trailing-whitespace-trimmed line `v[a..b]`.
fn trim_end_bound(v: &[char], a: usize, b: usize) -> (e: usize)
    requires
        a <= b <= v@.len(),
    ensures
        a <= e <= b,
        v@.subrange(a as int, e as int) == trim_end(v@.subrange(a as int, b as int)),
{
    let mut e = b;
    while e > a && is_whitespace(v[e - 1])
        invariant
            a <= e <= b <= v@.len(),
            trim_end(v@.subrange(a as int, b as int)) == trim_end(v@.subrange(a as int, e as int)),
        decreases e,
    {
        proof {
            assert(v@.subrange(a as int, e as int).drop_last() =~= v@.subrange(a as int, e - 1));
        }
        e = e - 1;
    }
    proof {
        let t = v@.subrange(a as int, e as int);
        assert(trim_end(t) == t);
    }
    e
}

fn line_char_end(v: &[char], start: usize) -> (t: usize)
    requires
        start < v@.len(),
    ensures
        t == char_line_end(v@, start as int),
{
    let mut i = start;
    while i < v.len() && v[i] != '\n'
        invariant
            start <= i <= v@.len(),
            char_line_end(v@, start as int) == char_line_end(v@, i as int),
        decreases v.len() - i,
    {
        i = i + 1;
    }
    if i < v.len() {
        i + 1
    } else {
        i
    }
}

fn property_word(k: usize) -> (w: Vec<char>)
    requires
        k < 7,
    ensures
        w@ == property_name(k as int),
{
    if k == 0 {
        str_chars("x")
    } else if k == 1 {
        str_chars("y")
    } else if k == 2 {
        str_chars("z")
    } else if k == 3 {
        str_chars("f_dc_0")
    } else if k == 4 {
        str_chars("opacity")
    } else if k == 5 {
        str_chars("scale_0")
    } else {
        str_chars("rot_0")
    }
}

fn property_at(k: usize) -> (p: GaussianProperty)
    requires
        k < 7,
    ensures
        p == property_of(k as int),
{
    if k == 0 {
        GaussianProperty::X
    } else if k == 1 {
        GaussianProperty::Y
    } else if k == 2 {
        GaussianProperty::Z
    } else if k == 3 {
        GaussianProperty::FDc0
    } else if k == 4 {
        GaussianProperty::Opacity
    } else if k == 5 {
        GaussianProperty::Scale0
    } else {
        GaussianProperty::Rot0
    }
}

/// The first property not found, if any.
fn first_false(found: &Vec<bool>) -> (r: Option<usize>)
    requires
        found@.len() == 7,
    ensures
        match r {
            Some(m) => m < 7 && !found@[m as int] && forall|j: int| 0 <= j < m ==> found@[j],
            None => forall|j: int| 0 <= j < 7 ==> found@[j],
        },
{
    let mut m: usize = 0;
    while m < 7
        invariant
            m <= 7,
            found@.len() == 7,
            forall|j: int| 0 <= j < m ==> found@[j],
        decreases 7 - m,
    {
        if !found[m] {
            return Some(m);
        }
        m = m + 1;
    }
    None
}

/// Marks each Gaussian property that the line `text[start..e]` declares.
fn record_declarations(
    found: &mut Vec<bool>,
    text: &[char],
    start: usize,
    e: usize,
    words: &Vec<(usize, usize)>,
    names: &Vec<Vec<char>>,
    line: Ghost<Seq<char>>,
)
    requires
        old(found)@.len() == 7,
        names@.len() == 7,
        forall|q: int| 0 <= q < 7 ==> (#[trigger] names@[q])@ == property_name(q),
        start <= e <= text@.len(),
        line@ == text@.subrange(start as int, e as int),
        words@.len() == fields(line@).len(),
        forall|q: int|
            0 <= q < words@.len() ==> {
                &&& start <= (#[trigger] words@[q]).0 <= words@[q].1 <= e
                &&& text@.subrange(words@[q].0 as int, words@[q].1 as int) == fields(line@)[q]
            },
    ensures
        final(found)@.len() == 7,
        forall|q: int|
            0 <= q < 7 ==> final(found)@[q] == (old(found)@[q] || declares(line@, property_name(q))),
{
    let property = str_chars("property");
    let ghost f = fields(line@);
    let declared = if words.len() >= 3 {
        let (a0, b0) = words[0];
        chars_equal_to(text, a0, b0, property.as_slice())
    } else {
        false
    };
    let mut j: usize = 0;
    while j < 7
        invariant
            j <= 7,
            found@.len() == 7,
            names@.len() == 7,
            forall|q: int| 0 <= q < 7 ==> (#[trigger] names@[q])@ == property_name(q),
            start <= e <= text@.len(),
            f == fields(line@),
            words@.len() == f.len(),
            declared == (f.len() >= 3 && f[0] == "property"@),
            forall|q: int|
                0 <= q < words@.len() ==> {
                    &&& start <= (#[trigger] words@[q]).0 <= words@[q].1 <= e
                    &&& text@.subrange(words@[q].0 as int, words@[q].1 as int) == f[q]
                },
            forall|q: int|
                0 <= q < j ==> found@[q] == (old(found)@[q] || declares(line@, property_name(q))),
            forall|q: int| j <= q < 7 ==> found@[q] == old(found)@[q],
        decreases 7 - j,
    {
        if declared && !found[j] {
            let (a2, b2) = words[2];
            if chars_equal_to(text, a2, b2, names[j].as_slice()) {
                found.set(j, true);
            }
        }
        j = j + 1;
    }
}

/// Checks the decoded header text line by line.
fn inspect_text(file_size: u64, text: &[char]) -> (r: Result<PlyInfo, PlyError>)
    ensures
        r == inspect_lines_spec(file_size, lines_from(text@, 0)),
{
    let n = text.len();
    let ply = str_chars("ply");
    let element = str_chars("element");
    let vertex = str_chars("vertex");
    let property = str_chars("property");
    let mut names: Vec<Vec<char>> = Vec::new();
    let mut k: usize = 0;
    while k < 7
        invariant
            k <= 7,
            names@.len() == k,
            forall|j: int| 0 <= j < k ==> (#[trigger] names@[j])@ == property_name(j),
        decreases 7 - k,
    {
        names.push(property_word(k));
        k = k + 1;
    }
    let mut found: Vec<bool> = vec![false, false, false, false, false, false, false];
    let mut count: Option<u64> = None;
    let mut first_ok = false;
    let mut index: usize = 0;
    let mut start: usize = 0;
    let ghost mut done: Seq<Seq<char>> = Seq::empty();
    while start < n
        invariant
            n == text@.len(),
            start <= n,
            index == done.len(),
            index <= start,
            index == 0 ==> count is None,
            lines_from(text@, 0) == done + lines_from(text@, start as int),
            ply@ == "ply"@,
            element@ == "element"@,
            vertex@ == "vertex"@,
            property@ == "property"@,
            names@.len() == 7,
            found@.len() == 7,
            forall|j: int| 0 <= j < 7 ==> (#[trigger] names@[j])@ == property_name(j),
            index > 0 ==> first_ok == (done[0] == "ply"@),
            index > 0 ==> count == first_vertex_count(done.drop_first()),
            forall|j: int| 0 <= j < 7 ==> found@[j] == (index > 0 && has_property(done.drop_first(), j)),
        decreases n - start,
    {
        let t = line_char_end(text, start);
        proof {
            lemma_char_line_end_bounds(text@, start as int);
        }
        let e = trim_end_bound(text, start, t);
        let ghost line = trim_end(text@.subrange(start as int, t as int));
        proof {
            assert(lines_from(text@, start as int) == seq![line] + lines_from(text@, t as int));
            assert(done.push(line) + lines_from(text@, t as int) =~= done + (seq![line]
                + lines_from(text@, t as int)));
        }
        if index == 0 {
            first_ok = chars_equal_to(text, start, e, ply.as_slice());
            proof {
                assert(done.push(line)[0] == line);
                assert(done.push(line).drop_first() =~= Seq::<Seq<char>>::empty());
                assert(first_vertex_count(Seq::<Seq<char>>::empty()) is None);
                assert forall|j: int| 0 <= j < 7 implies !has_property(
                    done.push(line).drop_first(),
                    j,
                ) by {}
            }
        } else {
            let words = field_bounds(text, start, e);
            let ghost f = fields(line);
            proof {
                assert(done.push(line).drop_first() =~= done.drop_first().push(line));
                assert(done.push(line)[0] == done[0]);
            }
            if count.is_none() {
                let mut candidate: Option<u64> = None;
                if words.len() >= 3 {
                    let (a0, b0) = words[0];
                    let (a1, b1) = words[1];
                    let (a2, b2) = words[2];
                    if chars_equal_to(text, a0, b0, element.as_slice()) && chars_equal_to(
                        text,
                        a1,
                        b1,
                        vertex.as_slice(),
                    ) {
                        candidate = parse_u64(text, a2, b2);
                    }
                }
                count = candidate;
                proof {
                    assert(candidate == vertex_count(line));
                    lemma_first_vertex_push(done.drop_first(), line);
                }
            } else {
                proof {
                    lemma_first_vertex_push(done.drop_first(), line);
                }
            }
            let ghost old_found = found@;
            record_declarations(&mut found, text, start, e, &words, &names, Ghost(line));
            proof {
                let d2 = done.drop_first().push(line);
                assert forall|q: int| 0 <= q < 7 implies found@[q] == has_property(d2, q) by {
                    if declares(line, property_name(q)) {
                        assert(d2[d2.len() - 1] == line);
                    }
                    if has_property(done.drop_first(), q) {
                        let i = choose|i: int|
                            0 <= i < done.drop_first().len() && declares(
                                #[trigger] done.drop_first()[i],
                                property_name(q),
                            );
                        assert(d2[i] == done.drop_first()[i]);
                    }
                    if has_property(d2, q) {
                        let i = choose|i: int|
                            0 <= i < d2.len() && declares(#[trigger] d2[i], property_name(q));
                        if i < d2.len() - 1 {
                            assert(d2[i] == done.drop_first()[i]);
                        }
                    }
                }
            }
        }
        proof {
            done = done.push(line);
        }
        index = index + 1;
        start = t;
    }
    proof {
        assert(lines_from(text@, n as int) == Seq::<Seq<char>>::empty());
        assert(done + Seq::<Seq<char>>::empty() =~= done);
    }
    if index == 0 || !first_ok {
        return Err(PlyError::NotPly);
    }
    let splats = match count {
        Some(v) => v,
        None => 0,
    };
    if splats == 0 {
        return Err(PlyError::NoVertices);
    }
    let rest = Ghost(done.drop_first());
    match first_false(&found) {
        Some(m) => {
            proof {
                assert(first_missing(rest@, m as int));
                let q = choose|q: int| first_missing(rest@, q);
                if q < m {
                    assert(has_property(rest@, q));
                } else if q > m {
                    assert(has_property(rest@, m as int));
                }
            }
            return Err(PlyError::MissingProperty(property_at(m)));
        },
        None => {
            proof {
                assert forall|q: int| !first_missing(rest@, q) by {
                    if 0 <= q < 7 {
                        assert(has_property(rest@, q));
                    }
                }
            }
        },
    }
    Ok(PlyInfo { file_size, splat_count: splats })
}

/// Checks that a PLY file of `file_size` bytes is a Gaussian splat, from its
/// leading bytes `head`: at least its first 256 KiB + 1 bytes, or all of it.
pub fn inspect_gaussian_ply(file_size: u64, head: &[u8]) -> (r: Result<PlyInfo, PlyError>)
    ensures
        r == inspect_spec(file_size, head@),
{
    if file_size == 0 {
        return Err(PlyError::Empty);
    }
    let t = find_header_end(head)?;
    let mut header: Vec<u8> = Vec::new();
    let mut i: usize = 0;
    while i < t
        invariant
            t <= head@.len(),
            i <= t,
            header@ == head@.subrange(0, i as int),
        decreases t - i,
    {
        header.push(head[i]);
        proof {
            assert(head@.subrange(0, i + 1) == head@.subrange(0, i as int).push(head@[i as int]));
        }
        i = i + 1;
    }
    let ghost bytes = header@;
    let text = match string_from_utf8(header) {
        None => {
            return Err(PlyError::NotUtf8);
        },
        Some(text) => text,
    };
    let chars = str_chars(text.as_str());
    proof {
        assert(chars@ == decode_utf8(bytes));
    }
    inspect_text(file_size, chars.as_slice())
}

/// The file size of a valid Gaussian PLY.
pub fn validate_gaussian_ply(file_size: u64, head: &[u8]) -> (r: Result<u64, PlyError>)
    ensures
        match inspect_spec(file_size, head@) {
            Ok(info) => r == Ok::<u64, PlyError>(info.file_size),
            Err(e) => r == Err::<u64, PlyError>(e),
        },
{
    let info = inspect_gaussian_ply(file_size, head)?;
    Ok(info.file_size)
}


/// An accepted PLY has its `end_header` within the first 256 KiB, a UTF-8
/// header that starts with `ply`, a positive vertex count that it reports
/// as the splat count together with the file size, and a `property` line for
/// every Gaussian property: x, y, z, f_dc_0, opacity, scale_0 and rot_0.
pub proof fn lemma_accepted_ply_declares_every_gaussian_property(file_size: u64, head: Seq<u8>)
    requires
        inspect_spec(file_size, head) is Ok,
    ensures
        file_size > 0,
        scan_header(head, 0) is Found,
        ({
            let end = scan_header(head, 0)->Found_0;
            let header = head.subrange(0, end);
            let lines = lines_from(decode_utf8(header), 0);
            let info = inspect_spec(file_size, head)->Ok_0;
            let declared = |name: Seq<char>|
                exists|i: int| 1 <= i < lines.len() && declares(#[trigger] lines[i], name);
            &&& end <= MAX_PLY_HEADER_BYTES
            &&& valid_utf8(header)
            &&& lines.len() > 0 && lines[0] == "ply"@
            &&& info.file_size == file_size
            &&& info.splat_count > 0
            &&& Some(info.splat_count) == first_vertex_count(lines.drop_first())
            &&& declared("x"@)
            &&& declared("y"@)
            &&& declared("z"@)
            &&& declared("f_dc_0"@)
            &&& declared("opacity"@)
            &&& declared("scale_0"@)
            &&& declared("rot_0"@)
        }),
{
    lemma_scan_header_found_bounds(head, 0);
    let end = scan_header(head, 0)->Found_0;
    let lines = lines_from(decode_utf8(head.subrange(0, end)), 0);
    let rest = lines.drop_first();
    assert(!exists|k: int| first_missing(rest, k));
    assert(has_property(rest, 0)) by {
        if !has_property(rest, 0) {
            assert(first_missing(rest, 0));
        }
    }
    assert(has_property(rest, 1)) by {
        if !has_property(rest, 1) {
            assert(first_missing(rest, 1));
        }
    }
    assert(has_property(rest, 2)) by {
        if !has_property(rest, 2) {
            assert(first_missing(rest, 2));
        }
    }
    assert(has_property(rest, 3)) by {
        if !has_property(rest, 3) {
            assert(first_missing(rest, 3));
        }
    }
    assert(has_property(rest, 4)) by {
        if !has_property(rest, 4) {
            assert(first_missing(rest, 4));
        }
    }
    assert(has_property(rest, 5)) by {
        if !has_property(rest, 5) {
            assert(first_missing(rest, 5));
        }
    }
    assert(has_property(rest, 6)) by {
        if !has_property(rest, 6) {
            assert(first_missing(rest, 6));
        }
    }
    lemma_declared_after_the_first_line(lines, 0);
    lemma_declared_after_the_first_line(lines, 1);
    lemma_declared_after_the_first_line(lines, 2);
    lemma_declared_after_the_first_line(lines, 3);
    lemma_declared_after_the_first_line(lines, 4);
    lemma_declared_after_the_first_line(lines, 5);
    lemma_declared_after_the_first_line(lines, 6);
}

proof fn lemma_declared_after_the_first_line(lines: Seq<Seq<char>>, k: int)
    requires
        lines.len() > 0,
        has_property(lines.drop_first(), k),
    ensures
        exists|i: int| 1 <= i < lines.len() && declares(#[trigger] lines[i], property_name(k)),
{
    let rest = lines.drop_first();
    let j = choose|j: int| 0 <= j < rest.len() && declares(#[trigger] rest[j], property_name(k));
    assert(lines[j + 1] == rest[j]);
}

} // verus!
