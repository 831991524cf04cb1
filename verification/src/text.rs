//! Character-level text helpers shared by the engine-output parsers, the PLY
//! header reader and the console messages.
use vstd::prelude::*;

verus! {

/// `char::is_whitespace`: the Unicode `White_Space` property.
pub open spec fn is_ws(c: char) -> bool {
    let u = c as u32;
    ||| u == 0x20
    ||| (0x09 <= u && u <= 0x0d)
    ||| u == 0x85
    ||| u == 0xa0
    ||| u == 0x1680
    ||| (0x2000 <= u && u <= 0x200a)
    ||| u == 0x2028
    ||| u == 0x2029
    ||| u == 0x202f
    ||| u == 0x205f
    ||| u == 0x3000
}

/// `char::is_whitespace`: the Unicode `White_Space` property.
pub fn is_whitespace(c: char) -> (b: bool)
    ensures
        b == is_ws(c),
{
    let u = c as u32;
    u == 0x20 || (0x09 <= u && u <= 0x0d) || u == 0x85 || u == 0xa0 || u == 0x1680 || (0x2000
        <= u && u <= 0x200a) || u == 0x2028 || u == 0x2029 || u == 0x202f || u == 0x205f || u
        == 0x3000
}

/// `str::trim_end`.
pub open spec fn trim_end(s: Seq<char>) -> Seq<char>
    decreases s.len(),
{
    if s.len() > 0 && is_ws(s.last()) {
        trim_end(s.drop_last())
    } else {
        s
    }
}

/// `str::trim_start`.
pub open spec fn trim_start(s: Seq<char>) -> Seq<char>
    decreases s.len(),
{
    if s.len() > 0 && is_ws(s[0]) {
        trim_start(s.drop_first())
    } else {
        s
    }
}

/// `str::trim`.
pub open spec fn trim(s: Seq<char>) -> Seq<char> {
    trim_start(trim_end(s))
}

/// The fields that `str::split_whitespace` yields, with `cur` the part of a
/// field read so far.
pub open spec fn split_ws_from(s: Seq<char>, cur: Seq<char>) -> Seq<Seq<char>>
    decreases s.len(),
{
    if s.len() == 0 {
        if cur.len() > 0 {
            seq![cur]
        } else {
            seq![]
        }
    } else if is_ws(s[0]) {
        (if cur.len() > 0 {
            seq![cur]
        } else {
            Seq::<Seq<char>>::empty()
        }) + split_ws_from(s.drop_first(), Seq::<char>::empty())
    } else {
        split_ws_from(s.drop_first(), cur.push(s[0]))
    }
}

/// `str::split_whitespace`.
pub open spec fn fields(s: Seq<char>) -> Seq<Seq<char>> {
    split_ws_from(s, Seq::<char>::empty())
}

pub open spec fn is_digit(c: char) -> bool {
    '0' <= c && c <= '9'
}

pub open spec fn all_digits(s: Seq<char>) -> bool {
    forall|i: int| 0 <= i < s.len() ==> is_digit(#[trigger] s[i])
}

/// Value of a run of decimal digits.
pub open spec fn digits_value(s: Seq<char>) -> nat
    decreases s.len(),
{
    if s.len() == 0 {
        0
    } else {
        digits_value(s.drop_last()) * 10 + ((s.last() as u32) - ('0' as u32)) as nat
    }
}

/// `<u64 as FromStr>::from_str`: an optional `+`, then one or more ASCII
/// digits whose value fits in 64 bits.
pub open spec fn parse_u64_spec(s: Seq<char>) -> Option<u64> {
    let d = if s.len() > 0 && s[0] == '+' {
        s.drop_first()
    } else {
        s
    };
    if d.len() > 0 && all_digits(d) && digits_value(d) <= u64::MAX {
        Some(digits_value(d) as u64)
    } else {
        None
    }
}

pub open spec fn digit_char(d: nat) -> char {
    (d + ('0' as u32)) as char
}

/// Decimal text of `n`, as `format!("{n}")` writes it.
pub open spec fn decimal(n: nat) -> Seq<char>
    decreases n,
{
    if n < 10 {
        seq![digit_char(n)]
    } else {
        decimal(n / 10).push(digit_char(n % 10))
    }
}

/// `format!("{n:02}")`.
pub open spec fn decimal2(n: nat) -> Seq<char> {
    if n < 10 {
        seq!['0', digit_char(n)]
    } else {
        decimal(n)
    }
}

/// Whether `needle` occurs in `hay` at position `i`.
pub open spec fn occurs_at(hay: Seq<char>, needle: Seq<char>, i: int) -> bool {
    0 <= i && i + needle.len() <= hay.len() && hay.subrange(i, i + needle.len()) == needle
}

/// `str::contains` with a string pattern.
pub open spec fn contains(hay: Seq<char>, needle: Seq<char>) -> bool {
    exists|i: int| occurs_at(hay, needle, i)
}

/// First position at which `needle` occurs, as `str::find` reports it.
pub open spec fn first_occurrence(hay: Seq<char>, needle: Seq<char>, i: int) -> bool {
    occurs_at(hay, needle, i) && forall|j: int| 0 <= j < i ==> !occurs_at(hay, needle, j)
}

pub open spec fn ascii_lower_char(c: char) -> char {
    if 'A' <= c && c <= 'Z' {
        ((c as u32) + 32) as char
    } else {
        c
    }
}

/// `str::to_ascii_lowercase`.
pub open spec fn ascii_lower(s: Seq<char>) -> Seq<char> {
    Seq::new(s.len(), |i: int| ascii_lower_char(s[i]))
}

/// The characters of `s`.
pub fn str_chars(s: &str) -> (v: Vec<char>)
    ensures
        v@ == s@,
{
    let mut v: Vec<char> = Vec::new();
    for c in it: s.chars()
        invariant
            v@ == it.seq().take(it.index() as int),
            it.seq() == s@,
    {
        v.push(c);
    }
    v
}

/// Appends `c` to `s` with std's `String::push`. Trusted: the contract
/// claims, as std documents, that `c` becomes the string's last character
/// and the others stay.
#[verifier::external_body]
pub(crate) fn string_push(s: &mut String, c: char)
    ensures
        final(s)@ == old(s)@.push(c),
{
    s.push(c);
}

/// The string made of the characters `v[from..to]`.
pub fn chars_to_string(v: &[char], from: usize, to: usize) -> (s: String)
    requires
        from <= to <= v@.len(),
    ensures
        s@ == v@.subrange(from as int, to as int),
{
    let mut s = String::new();
    let mut i = from;
    while i < to
        invariant
            from <= i <= to <= v@.len(),
            s@ == v@.subrange(from as int, i as int),
        decreases to - i,
    {
        string_push(&mut s, v[i]);
        proof {
            assert(v@.subrange(from as int, i + 1) == v@.subrange(from as int, i as int).push(
                v@[i as int],
            ));
        }
        i = i + 1;
    }
    s
}

/// Appends every character of `v` to `s`.
pub fn push_chars(s: &mut String, v: &[char])
    ensures
        final(s)@ == old(s)@ + v@,
{
    let mut i: usize = 0;
    while i < v.len()
        invariant
            i <= v@.len(),
            s@ == old(s)@ + v@.subrange(0, i as int),
        decreases v.len() - i,
    {
        string_push(s, v[i]);
        proof {
            assert(v@.subrange(0, i + 1) == v@.subrange(0, i as int).push(v@[i as int]));
        }
        i = i + 1;
    }
    proof {
        assert(v@.subrange(0, v@.len() as int) == v@);
    }
}

/// Every number has at least one digit.
pub proof fn lemma_decimal_nonempty(n: nat)
    ensures
        decimal(n).len() >= 1,
    decreases n,
{
    if n >= 10 {
        lemma_decimal_nonempty(n / 10);
    }
}

/// The decimal text of a number is all digits, and reads back as that number.
pub proof fn lemma_decimal_digits(n: nat)
    ensures
        decimal(n).len() >= 1,
        all_digits(decimal(n)),
        digits_value(decimal(n)) == n,
    decreases n,
{
    if n < 10 {
        let d = decimal(n);
        assert(d.drop_last() =~= Seq::<char>::empty());
        assert(d.last() == digit_char(n));
        assert((digit_char(n) as u32) == n + ('0' as u32));
        assert(digits_value(d) == digits_value(d.drop_last()) * 10 + n);
    } else {
        lemma_decimal_digits(n / 10);
        let d = decimal(n);
        assert(d.drop_last() =~= decimal(n / 10));
        assert(d.last() == digit_char(n % 10));
        assert((digit_char(n % 10) as u32) == n % 10 + ('0' as u32));
        assert(digits_value(d) == digits_value(decimal(n / 10)) * 10 + n % 10);
        assert((n / 10) * 10 + n % 10 == n);
        assert forall|i: int| 0 <= i < d.len() implies is_digit(#[trigger] d[i]) by {
            if i < d.len() - 1 {
                assert(d[i] == decimal(n / 10)[i]);
            }
        }
    }
}

/// Formatting a `u64` and parsing the text back gives the number, and the
/// text has no surrounding whitespace to trim.
pub proof fn lemma_decimal_parses_back(n: u64)
    ensures
        trim(decimal(n as nat)) == decimal(n as nat),
        parse_u64_spec(decimal(n as nat)) == Some(n),
{
    let d = decimal(n as nat);
    lemma_decimal_digits(n as nat);
    assert(is_digit(d.last()));
    assert(is_digit(d[0]));
    assert(trim_end(d) == d);
    assert(trim_start(d) == d);
}

/// Appends the decimal text of `n`.
pub fn push_decimal(s: &mut String, n: u64)
    ensures
        final(s)@ == old(s)@ + decimal(n as nat),
    decreases n,
{
    if n >= 10 {
        push_decimal(s, n / 10);
    }
    let d = (n % 10) as u8;
    let c = (d + 48u8) as char;
    proof {
        assert(digit_char((n % 10) as nat) == c);
    }
    string_push(s, c);
    proof {
        if n >= 10 {
            assert(decimal(n as nat) == decimal((n / 10) as nat).push(c));
        } else {
            assert(decimal(n as nat) == seq![c]);
        }
    }
}

/// Appends the decimal text of a 128-bit `n`.
pub fn push_decimal_wide(s: &mut String, n: u128)
    ensures
        final(s)@ == old(s)@ + decimal(n as nat),
    decreases n,
{
    if n >= 10 {
        push_decimal_wide(s, n / 10);
    }
    let d = (n % 10) as u8;
    let c = (d + 48u8) as char;
    proof {
        assert(digit_char((n % 10) as nat) == c);
    }
    string_push(s, c);
    proof {
        if n >= 10 {
            assert(decimal(n as nat) == decimal((n / 10) as nat).push(c));
        } else {
            assert(decimal(n as nat) == seq![c]);
        }
    }
}

/// Appends `format!("{n:02}")`.
pub fn push_decimal2(s: &mut String, n: u64)
    ensures
        final(s)@ == old(s)@ + decimal2(n as nat),
{
    if n < 10 {
        string_push(s, '0');
    }
    push_decimal(s, n);
    proof {
        if n < 10 {
            assert(decimal(n as nat) == seq![digit_char(n as nat)]);
        }
    }
}

/// Decimal text of `n`.
pub fn decimal_string(n: u64) -> (s: String)
    ensures
        s@ == decimal(n as nat),
{
    let mut s = String::new();
    push_decimal(&mut s, n);
    s
}

/// Trimming the end keeps a prefix.
pub proof fn lemma_trim_end_shape(s: Seq<char>)
    ensures
        trim_end(s).len() <= s.len(),
        trim_end(s) == s.subrange(0, trim_end(s).len() as int),
        forall|i: int| trim_end(s).len() <= i < s.len() ==> is_ws(#[trigger] s[i]),
        trim_end(s).len() > 0 ==> !is_ws(trim_end(s).last()),
    decreases s.len(),
{
    if s.len() > 0 && is_ws(s.last()) {
        lemma_trim_end_shape(s.drop_last());
        assert forall|i: int| trim_end(s).len() <= i < s.len() implies is_ws(#[trigger] s[i]) by {
            if i < s.len() - 1 {
                assert(s[i] == s.drop_last()[i]);
            }
        }
    }
}

/// Trimming the start keeps a suffix.
pub proof fn lemma_trim_start_shape(s: Seq<char>)
    ensures
        trim_start(s).len() <= s.len(),
        trim_start(s) == s.subrange(s.len() - trim_start(s).len(), s.len() as int),
        forall|i: int| 0 <= i < s.len() - trim_start(s).len() ==> is_ws(#[trigger] s[i]),
        trim_start(s).len() > 0 ==> !is_ws(trim_start(s)[0]),
    decreases s.len(),
{
    if s.len() > 0 && is_ws(s[0]) {
        lemma_trim_start_shape(s.drop_first());
        assert forall|i: int| 0 <= i < s.len() - trim_start(s).len() implies is_ws(
            #[trigger] s[i],
        ) by {
            if i > 0 {
                assert(s[i] == s.drop_first()[i - 1]);
            }
        }
    }
}

/// Bounds `[a, b)` of `trim(v[from..to])` inside `v`.
pub fn trim_bounds(v: &[char], from: usize, to: usize) -> (r: (usize, usize))
    requires
        from <= to <= v@.len(),
    ensures
        from <= r.0 <= r.1 <= to,
        v@.subrange(r.0 as int, r.1 as int) == trim(v@.subrange(from as int, to as int)),
{
    let ghost s = v@.subrange(from as int, to as int);
    let mut b = to;
    while b > from && is_whitespace(v[b - 1])
        invariant
            from <= b <= to <= v@.len(),
            trim_end(s) == trim_end(v@.subrange(from as int, b as int)),
        decreases b,
    {
        proof {
            let t = v@.subrange(from as int, b as int);
            assert(t.drop_last() == v@.subrange(from as int, b - 1));
        }
        b = b - 1;
    }
    proof {
        let t = v@.subrange(from as int, b as int);
        assert(trim_end(t) == t);
    }
    let mut a = from;
    while a < b && is_whitespace(v[a])
        invariant
            from <= a <= b <= to <= v@.len(),
            trim(s) == trim_start(v@.subrange(a as int, b as int)),
        decreases b - a,
    {
        proof {
            let t = v@.subrange(a as int, b as int);
            assert(t.drop_first() == v@.subrange(a + 1, b as int));
        }
        a = a + 1;
    }
    proof {
        let t = v@.subrange(a as int, b as int);
        assert(trim_start(t) == t);
    }
    (a, b)
}

/// `str::split_whitespace` over `v[from..to]`, each field as the bounds of
/// its characters inside `v`.
pub fn field_bounds(v: &[char], from: usize, to: usize) -> (r: Vec<(usize, usize)>)
    requires
        from <= to <= v@.len(),
    ensures
        r@.len() == fields(v@.subrange(from as int, to as int)).len(),
        forall|k: int|
            0 <= k < r@.len() ==> {
                &&& from <= (#[trigger] r@[k]).0 <= r@[k].1 <= to
                &&& v@.subrange(r@[k].0 as int, r@[k].1 as int) == fields(
                    v@.subrange(from as int, to as int),
                )[k]
            },
{
    let ghost s = v@.subrange(from as int, to as int);
    let mut r: Vec<(usize, usize)> = Vec::new();
    let mut start = from;
    let mut i = from;
    proof {
        assert(v@.subrange(from as int, from as int) =~= Seq::<char>::empty());
        assert(r@.map_values(|p: (usize, usize)| v@.subrange(p.0 as int, p.1 as int))
            =~= Seq::<Seq<char>>::empty());
        assert(Seq::<Seq<char>>::empty() + split_ws_from(s, Seq::<char>::empty()) =~= fields(s));
    }
    while i < to
        invariant
            from <= start <= i <= to <= v@.len(),
            s == v@.subrange(from as int, to as int),
            fields(s) == r@.map_values(
                |p: (usize, usize)| v@.subrange(p.0 as int, p.1 as int),
            ) + split_ws_from(v@.subrange(i as int, to as int), v@.subrange(start as int, i as int)),
            forall|k: int|
                0 <= k < r@.len() ==> from <= (#[trigger] r@[k]).0 <= r@[k].1 <= start,
        decreases to - i,
    {
        let ghost rest = v@.subrange(i as int, to as int);
        let ghost cur = v@.subrange(start as int, i as int);
        let ghost before = r@;
        proof {
            assert(rest[0] == v@[i as int]);
            assert(rest.drop_first() == v@.subrange(i + 1, to as int));
        }
        if is_whitespace(v[i]) {
            if start < i {
                r.push((start, i));
                proof {
                    assert(r@.map_values(|p: (usize, usize)| v@.subrange(p.0 as int, p.1 as int))
                        == before.map_values(
                        |p: (usize, usize)| v@.subrange(p.0 as int, p.1 as int),
                    ) + seq![cur]);
                }
            }
            start = i + 1;
            proof {
                assert(v@.subrange(start as int, i + 1) == Seq::<char>::empty());
            }
        } else {
            proof {
                assert(v@.subrange(start as int, i + 1) == cur.push(v@[i as int]));
            }
        }
        i = i + 1;
    }
    proof {
        let cur = v@.subrange(start as int, to as int);
        let m = r@.map_values(|p: (usize, usize)| v@.subrange(p.0 as int, p.1 as int));
        assert(v@.subrange(to as int, to as int) == Seq::<char>::empty());
        if start < to {
            assert(fields(s) == m + seq![cur]);
        } else {
            assert(fields(s) == m);
        }
    }
    if start < to {
        r.push((start, to));
    }
    proof {
        let m = r@.map_values(|p: (usize, usize)| v@.subrange(p.0 as int, p.1 as int));
        assert(fields(s) == m);
        assert forall|k: int| 0 <= k < r@.len() implies v@.subrange(
            (#[trigger] r@[k]).0 as int,
            r@[k].1 as int,
        ) == fields(s)[k] by {
            assert(m[k] == v@.subrange(r@[k].0 as int, r@[k].1 as int));
        }
    }
    r
}

/// Reading one more digit multiplies by ten and adds it.
pub proof fn lemma_digits_value_step(s: Seq<char>, i: int)
    requires
        0 <= i < s.len(),
    ensures
        digits_value(s.subrange(0, i + 1)) == digits_value(s.subrange(0, i)) * 10 + ((s[i] as u32)
            - ('0' as u32)) as nat,
{
    let t = s.subrange(0, i + 1);
    assert(t.drop_last() == s.subrange(0, i));
}

/// A longer run of digits has at least the value of its prefix.
pub proof fn lemma_digits_value_grows(s: Seq<char>, i: int)
    requires
        0 <= i <= s.len(),
        all_digits(s),
    ensures
        digits_value(s.subrange(0, i)) <= digits_value(s),
    decreases s.len() - i,
{
    if i < s.len() {
        lemma_digits_value_step(s, i);
        lemma_digits_value_grows(s, i + 1);
    } else {
        assert(s.subrange(0, i) == s);
    }
}

/// `v[from..to].parse::<u64>()`.
pub fn parse_u64(v: &[char], from: usize, to: usize) -> (r: Option<u64>)
    requires
        from <= to <= v@.len(),
    ensures
        r == parse_u64_spec(v@.subrange(from as int, to as int)),
{
    let ghost s = v@.subrange(from as int, to as int);
    let mut a = from;
    if a < to && v[a] == '+' {
        a = a + 1;
        proof {
            assert(s.drop_first() == v@.subrange(a as int, to as int));
        }
    }
    let ghost d = v@.subrange(a as int, to as int);
    proof {
        assert(d == (if s.len() > 0 && s[0] == '+' {
            s.drop_first()
        } else {
            s
        }));
    }
    if a == to {
        proof {
            assert(d.len() == 0);
        }
        return None;
    }
    let mut value: u64 = 0;
    let mut i = a;
    while i < to
        invariant
            from <= a <= i <= to <= v@.len(),
            s == v@.subrange(from as int, to as int),
            d == (if s.len() > 0 && s[0] == '+' {
                s.drop_first()
            } else {
                s
            }),
            d == v@.subrange(a as int, to as int),
            all_digits(d.subrange(0, i - a)),
            value as nat == digits_value(d.subrange(0, i - a)),
        decreases to - i,
    {
        let c = v[i];
        proof {
            assert(d[i - a] == c);
        }
        if !('0' <= c && c <= '9') {
            proof {
                assert(!all_digits(d));
            }
            return None;
        }
        let digit = (c as u32 - '0' as u32) as u64;
        proof {
            lemma_digits_value_step(d, i - a);
            assert forall|j: int| 0 <= j < i + 1 - a implies is_digit(
                #[trigger] d.subrange(0, i + 1 - a)[j],
            ) by {
                if j < i - a {
                    assert(d.subrange(0, i + 1 - a)[j] == d.subrange(0, i - a)[j]);
                }
            }
        }
        if value > (u64::MAX - digit) / 10 {
            proof {
                assert(digits_value(d.subrange(0, i + 1 - a)) > u64::MAX) by (nonlinear_arith)
                    requires
                        value > (u64::MAX - digit) / 10,
                        digits_value(d.subrange(0, i + 1 - a)) == value * 10 + digit,
                ;
                if all_digits(d) {
                    lemma_digits_value_grows(d, i + 1 - a);
                    assert(digits_value(d) > u64::MAX);
                }
                assert(parse_u64_spec(s).is_none());
            }
            return None;
        }
        proof {
            assert(value * 10 + digit <= u64::MAX) by (nonlinear_arith)
                requires
                    value <= (u64::MAX - digit) / 10,
                    digit <= 9,
            ;
        }
        value = value * 10 + digit;
        i = i + 1;
    }
    proof {
        assert(d.subrange(0, i - a) == d);
    }
    Some(value)
}

/// Whether `needle` occurs in `hay[from..to]` at `hay` position `i`.
pub fn occurs_in(hay: &[char], from: usize, to: usize, needle: &[char], i: usize) -> (b: bool)
    requires
        from <= i <= to <= hay@.len(),
    ensures
        b == occurs_at(hay@.subrange(from as int, to as int), needle@, i - from),
{
    let ghost h = hay@.subrange(from as int, to as int);
    if needle.len() > to - i {
        return false;
    }
    let mut k: usize = 0;
    while k < needle.len()
        invariant
            from <= i <= to <= hay@.len(),
            h == hay@.subrange(from as int, to as int),
            needle@.len() <= to - i,
            k <= needle@.len(),
            forall|j: int| 0 <= j < k ==> hay@[i + j] == needle@[j],
        decreases needle.len() - k,
    {
        if hay[i + k] != needle[k] {
            proof {
                if occurs_at(h, needle@, i - from) {
                    let w = h.subrange(i - from, i - from + needle@.len());
                    assert(w[k as int] == hay@[i + k]);
                    assert(w[k as int] == needle@[k as int]);
                }
            }
            return false;
        }
        k = k + 1;
    }
    proof {
        assert(h.subrange(i - from, i - from + needle@.len()) =~= needle@);
    }
    true
}

/// Position of the first occurrence of `needle` in `hay[from..to]`, relative
/// to `from`.
pub fn find(hay: &[char], from: usize, to: usize, needle: &[char]) -> (r: Option<usize>)
    requires
        from <= to <= hay@.len(),
    ensures
        match r {
            Some(p) => first_occurrence(hay@.subrange(from as int, to as int), needle@, p as int),
            None => !contains(hay@.subrange(from as int, to as int), needle@),
        },
{
    let ghost h = hay@.subrange(from as int, to as int);
    let mut i = from;
    while i <= to
        invariant
            from <= i <= to + 1,
            to <= hay@.len(),
            h == hay@.subrange(from as int, to as int),
            forall|j: int| 0 <= j < i - from ==> !occurs_at(h, needle@, j),
        decreases to + 1 - i,
    {
        let here = occurs_in(hay, from, to, needle, i);
        if here {
            proof {
                assert(occurs_at(h, needle@, (i - from) as int));
            }
            return Some(i - from);
        }
        proof {
            assert(!occurs_at(h, needle@, (i - from) as int));
            assert forall|j: int| 0 <= j < i + 1 - from implies !occurs_at(h, needle@, j) by {
                if j < i - from {
                } else {
                    assert(j == i - from);
                }
            }
        }
        if i == to {
            proof {
                assert forall|j: int| occurs_at(h, needle@, j) implies false by {
                    assert(j < i + 1 - from);
                }
            }
            return None;
        }
        i = i + 1;
    }
    None
}

/// `hay[from..to].contains(needle)`.
pub fn contains_chars(hay: &[char], from: usize, to: usize, needle: &[char]) -> (b: bool)
    requires
        from <= to <= hay@.len(),
    ensures
        b == contains(hay@.subrange(from as int, to as int), needle@),
{
    match find(hay, from, to, needle) {
        Some(_) => true,
        None => false,
    }
}

/// `str::to_ascii_lowercase`.
pub fn to_ascii_lower(v: &[char]) -> (r: Vec<char>)
    ensures
        r@ == ascii_lower(v@),
{
    let mut r: Vec<char> = Vec::new();
    let mut i: usize = 0;
    while i < v.len()
        invariant
            i <= v@.len(),
            r@ == ascii_lower(v@.subrange(0, i as int)),
        decreases v.len() - i,
    {
        let c = v[i];
        let l = if 'A' <= c && c <= 'Z' {
            ((c as u8) + 32u8) as char
        } else {
            c
        };
        proof {
            assert(l == ascii_lower_char(c));
        }
        r.push(l);
        proof {
            assert(r@ =~= ascii_lower(v@.subrange(0, i + 1)));
        }
        i = i + 1;
    }
    proof {
        assert(v@.subrange(0, v@.len() as int) == v@);
    }
    r
}

/// `a == b` on character slices.
pub fn chars_eq(a: &[char], b: &[char]) -> (r: bool)
    ensures
        r == (a@ == b@),
{
    if a.len() != b.len() {
        return false;
    }
    let mut i: usize = 0;
    while i < a.len()
        invariant
            a@.len() == b@.len(),
            i <= a@.len(),
            forall|j: int| 0 <= j < i ==> a@[j] == b@[j],
        decreases a.len() - i,
    {
        if a[i] != b[i] {
            return false;
        }
        i = i + 1;
    }
    proof {
        assert(a@ =~= b@);
    }
    true
}

} // verus!
