//! Text primitives over `Seq<char>`: whitespace trimming, line splitting and
//! separator splitting, each given as a spec function with the meaning of the
//! corresponding `str` method, and executable versions that work on ranges of
//! a `Vec<char>`.
use vstd::prelude::*;

verus! {

/// Unicode `White_Space`, the set that `char::is_whitespace` tests.
pub open spec fn is_ws(c: char) -> bool {
    let n = c as u32;
    ||| 9 <= n <= 13
    ||| n == 32
    ||| n == 0x85
    ||| n == 0xA0
    ||| n == 0x1680
    ||| 0x2000 <= n <= 0x200A
    ||| n == 0x2028
    ||| n == 0x2029
    ||| n == 0x202F
    ||| n == 0x205F
    ||| n == 0x3000
}

/// `s` with leading whitespace removed.
pub open spec fn trim_start(s: Seq<char>) -> Seq<char>
    decreases s.len(),
{
    if s.len() > 0 && is_ws(s[0]) {
        trim_start(s.drop_first())
    } else {
        s
    }
}

/// `s` with trailing whitespace removed.
pub open spec fn trim_end(s: Seq<char>) -> Seq<char>
    decreases s.len(),
{
    if s.len() > 0 && is_ws(s.last()) {
        trim_end(s.drop_last())
    } else {
        s
    }
}

/// `s` with whitespace removed at both ends, as `str::trim` does.
pub open spec fn trim(s: Seq<char>) -> Seq<char> {
    trim_end(trim_start(s))
}

/// Index of the first `c` in `s`, or `s.len()` when `s` holds none.
pub open spec fn first_index(s: Seq<char>, c: char) -> int
    decreases s.len(),
{
    if s.len() == 0 {
        0
    } else if s[0] == c {
        0
    } else {
        1 + first_index(s.drop_first(), c)
    }
}

/// The pieces of `s` between occurrences of `sep`, as `str::split` yields them.
pub open spec fn split(s: Seq<char>, sep: char) -> Seq<Seq<char>>
    decreases s.len(),
{
    let i = first_index(s, sep);
    if 0 <= i < s.len() {
        seq![s.take(i)] + split(s.skip(i + 1), sep)
    } else {
        seq![s]
    }
}

/// A line with one trailing carriage return removed.
pub open spec fn strip_cr(s: Seq<char>) -> Seq<char> {
    if s.len() > 0 && s.last() == '\r' {
        s.drop_last()
    } else {
        s
    }
}

/// The lines of `s`, as `str::lines` yields them: split at `\n`, a `\r` before
/// the `\n` removed, and no empty line after a final `\n`.
pub open spec fn lines(s: Seq<char>) -> Seq<Seq<char>>
    decreases s.len(),
{
    if s.len() == 0 {
        seq![]
    } else {
        let i = first_index(s, '\n');
        if 0 <= i < s.len() {
            seq![strip_cr(s.take(i))] + lines(s.skip(i + 1))
        } else {
            seq![s]
        }
    }
}

/// `s` begins with `p`.
pub open spec fn starts_with(s: Seq<char>, p: Seq<char>) -> bool {
    p.len() <= s.len() && s.take(p.len() as int) == p
}

/// `s` begins with the character `c`.
pub open spec fn starts_with_char(s: Seq<char>, c: char) -> bool {
    s.len() > 0 && s[0] == c
}

/// The first `width` characters of `s` (all of `s` when it is shorter).
pub open spec fn shorten(s: Seq<char>, width: nat) -> Seq<char> {
    if s.len() <= width {
        s
    } else {
        s.take(width as int)
    }
}

/// The views of a sequence of strings.
pub open spec fn views(v: Seq<String>) -> Seq<Seq<char>> {
    v.map_values(|s: String| s@)
}

/// The pieces of `s` that the ranges `r` cut out.
pub open spec fn cut(s: Seq<char>, r: Seq<(usize, usize)>) -> Seq<Seq<char>> {
    r.map_values(|p: (usize, usize)| s.subrange(p.0 as int, p.1 as int))
}

/// The pieces of `parts` joined with `sep` between consecutive pieces.
pub open spec fn join(parts: Seq<Seq<char>>, sep: Seq<char>) -> Seq<char>
    decreases parts.len(),
{
    if parts.len() == 0 {
        seq![]
    } else if parts.len() == 1 {
        parts[0]
    } else {
        join(parts.drop_last(), sep) + sep + parts.last()
    }
}

pub open spec fn ranges_within(r: Seq<(usize, usize)>, start: int, end: int) -> bool {
    forall|k: int| 0 <= k < r.len() ==> start <= (#[trigger] r[k]).0 <= r[k].1 <= end
}

pub proof fn lemma_first_index_bounds(s: Seq<char>, c: char)
    ensures
        0 <= first_index(s, c) <= s.len(),
        first_index(s, c) < s.len() ==> s[first_index(s, c)] == c,
        forall|k: int| 0 <= k < first_index(s, c) ==> s[k] != c,
    decreases s.len(),
{
    if s.len() > 0 && s[0] != c {
        lemma_first_index_bounds(s.drop_first(), c);
        assert forall|k: int| 0 <= k < first_index(s, c) implies s[k] != c by {
            if k > 0 {
                assert(s[k] == s.drop_first()[k - 1]);
            }
        }
    }
}

/// `first_index` is the one index that the scan finds.
pub proof fn lemma_first_index_is(s: Seq<char>, c: char, i: int)
    requires
        0 <= i <= s.len(),
        i < s.len() ==> s[i] == c,
        forall|k: int| 0 <= k < i ==> s[k] != c,
    ensures
        first_index(s, c) == i,
{
    lemma_first_index_bounds(s, c);
    let j = first_index(s, c);
    if j < i {
        assert(s[j] != c);
    } else if i < j {
        assert(s[i] != c);
    }
}

pub proof fn lemma_trim_start_skip(s: Seq<char>, a: int)
    requires
        0 <= a <= s.len(),
        forall|k: int| 0 <= k < a ==> is_ws(#[trigger] s[k]),
    ensures
        trim_start(s) == trim_start(s.skip(a)),
    decreases a,
{
    if a > 0 {
        assert(is_ws(s[0]));
        let t = s.drop_first();
        assert forall|k: int| 0 <= k < a - 1 implies is_ws(#[trigger] t[k]) by {
            assert(t[k] == s[k + 1]);
        }
        lemma_trim_start_skip(t, a - 1);
        assert(t.skip(a - 1) =~= s.skip(a));
    } else {
        assert(s.skip(0) =~= s);
    }
}

pub proof fn lemma_trim_end_take(s: Seq<char>, b: int)
    requires
        0 <= b <= s.len(),
        forall|k: int| b <= k < s.len() ==> is_ws(#[trigger] s[k]),
    ensures
        trim_end(s) == trim_end(s.take(b)),
    decreases s.len() - b,
{
    if b < s.len() {
        assert(is_ws(s.last()));
        let t = s.drop_last();
        assert forall|k: int| b <= k < t.len() implies is_ws(#[trigger] t[k]) by {
            assert(t[k] == s[k]);
        }
        lemma_trim_end_take(t, b);
        assert(t.take(b) =~= s.take(b));
    } else {
        assert(s.take(b) =~= s);
    }
}

/// Whitespace test, as `char::is_whitespace`.
pub fn is_whitespace(c: char) -> (r: bool)
    ensures
        r == is_ws(c),
{
    let n: u32 = c as u32;
    (9 <= n && n <= 13) || n == 32 || n == 0x85 || n == 0xA0 || n == 0x1680 || (0x2000 <= n && n
        <= 0x200A) || n == 0x2028 || n == 0x2029 || n == 0x202F || n == 0x205F || n == 0x3000
}

/// The characters of `s`.
pub fn chars_of(s: &str) -> (res: Vec<char>)
    ensures
        res@ == s@,
{
    let mut res: Vec<char> = Vec::new();
    for c in it: s.chars()
        invariant
            res@ == it.seq().take(it.index() as int),
            it.seq() == s@,
    {
        res.push(c);
    }
    res
}

/// The characters of `s` from `a` up to `b`, as an owned string.
pub fn substring(s: &str, a: usize, b: usize) -> (res: String)
    requires
        a <= b <= s@.len(),
    ensures
        res@ == s@.subrange(a as int, b as int),
{
    s.substring_char(a, b).to_owned()
}

/// The range of `v[start..end]` left once whitespace at both ends is removed.
pub fn trim_range(v: &Vec<char>, start: usize, end: usize) -> (r: (usize, usize))
    requires
        start <= end <= v@.len(),
    ensures
        start <= r.0 <= r.1 <= end,
        v@.subrange(r.0 as int, r.1 as int) == trim(v@.subrange(start as int, end as int)),
{
    let ghost s = v@.subrange(start as int, end as int);
    let mut a: usize = start;
    while a < end && is_whitespace(v[a])
        invariant
            start <= a <= end <= v@.len(),
            s == v@.subrange(start as int, end as int),
            forall|k: int| start <= k < a ==> is_ws(#[trigger] v@[k]),
        decreases end - a,
    {
        a = a + 1;
    }
    proof {
        assert forall|k: int| 0 <= k < a - start implies is_ws(#[trigger] s[k]) by {
            assert(s[k] == v@[start + k]);
        }
        lemma_trim_start_skip(s, a - start);
        assert(s.skip(a - start) =~= v@.subrange(a as int, end as int));
        let t = v@.subrange(a as int, end as int);
        if a < end {
            assert(t[0] == v@[a as int]);
        }
        assert(trim_start(s) == t);
    }
    let ghost t = v@.subrange(a as int, end as int);
    let mut b: usize = end;
    while b > a && is_whitespace(v[b - 1])
        invariant
            start <= a <= b <= end <= v@.len(),
            t == v@.subrange(a as int, end as int),
            forall|k: int| b <= k < end ==> is_ws(#[trigger] v@[k]),
        decreases b - a,
    {
        b = b - 1;
    }
    proof {
        assert forall|k: int| b - a <= k < t.len() implies is_ws(#[trigger] t[k]) by {
            assert(t[k] == v@[a + k]);
        }
        lemma_trim_end_take(t, b - a);
        let u = v@.subrange(a as int, b as int);
        assert(t.take(b - a) =~= u);
        if b > a {
            assert(u.last() == v@[b - 1]);
        }
        assert(trim_end(u) == u);
    }
    (a, b)
}

/// The range of `v[start..end]` left once trailing whitespace is removed.
pub fn trim_end_range(v: &Vec<char>, start: usize, end: usize) -> (r: usize)
    requires
        start <= end <= v@.len(),
    ensures
        start <= r <= end,
        v@.subrange(start as int, r as int) == trim_end(v@.subrange(start as int, end as int)),
{
    let ghost t = v@.subrange(start as int, end as int);
    let mut b: usize = end;
    while b > start && is_whitespace(v[b - 1])
        invariant
            start <= b <= end <= v@.len(),
            t == v@.subrange(start as int, end as int),
            forall|k: int| b <= k < end ==> is_ws(#[trigger] v@[k]),
        decreases b - start,
    {
        b = b - 1;
    }
    proof {
        assert forall|k: int| b - start <= k < t.len() implies is_ws(#[trigger] t[k]) by {
            assert(t[k] == v@[start + k]);
        }
        lemma_trim_end_take(t, b - start);
        let u = v@.subrange(start as int, b as int);
        assert(t.take(b - start) =~= u);
        if b > start {
            assert(u.last() == v@[b - 1]);
        }
        assert(trim_end(u) == u);
    }
    b
}

/// `v[start..end]` is empty once trimmed.
pub fn is_blank(v: &Vec<char>, start: usize, end: usize) -> (r: bool)
    requires
        start <= end <= v@.len(),
    ensures
        r == (trim(v@.subrange(start as int, end as int)).len() == 0),
{
    let (a, b) = trim_range(v, start, end);
    a == b
}

/// The first index in `start..end` that holds `c`, or `end`.
pub fn find_char(v: &Vec<char>, start: usize, end: usize, c: char) -> (r: usize)
    requires
        start <= end <= v@.len(),
    ensures
        start <= r <= end,
        r - start == first_index(v@.subrange(start as int, end as int), c),
{
    let mut i: usize = start;
    while i < end && v[i] != c
        invariant
            start <= i <= end <= v@.len(),
            forall|k: int| start <= k < i ==> v@[k] != c,
        decreases end - i,
    {
        i = i + 1;
    }
    proof {
        let s = v@.subrange(start as int, end as int);
        assert forall|k: int| 0 <= k < i - start implies s[k] != c by {
            assert(s[k] == v@[start + k]);
        }
        if i < end {
            assert(s[i - start] == v@[i as int]);
        }
        lemma_first_index_is(s, c, i - start);
    }
    i
}

/// The ranges of the pieces of `v[start..end]` between occurrences of `sep`.
pub fn split_ranges(v: &Vec<char>, start: usize, end: usize, sep: char) -> (res: Vec<
    (usize, usize),
>)
    requires
        start <= end <= v@.len(),
    ensures
        ranges_within(res@, start as int, end as int),
        cut(v@, res@) == split(v@.subrange(start as int, end as int), sep),
{
    let mut res: Vec<(usize, usize)> = Vec::new();
    let mut seg: usize = start;
    loop
        invariant
            start <= seg <= end <= v@.len(),
            ranges_within(res@, start as int, end as int),
            split(v@.subrange(start as int, end as int), sep) == cut(v@, res@) + split(
                v@.subrange(seg as int, end as int),
                sep,
            ),
        decreases end - seg,
    {
        let i = find_char(v, seg, end, sep);
        let ghost s = v@.subrange(seg as int, end as int);
        proof {
            lemma_first_index_bounds(s, sep);
        }
        if i < end {
            proof {
                assert(s.take(i - seg) =~= v@.subrange(seg as int, i as int));
                assert(s.skip(i - seg + 1) =~= v@.subrange(i + 1, end as int));
                assert(split(s, sep) == seq![s.take(i - seg)] + split(s.skip(i - seg + 1), sep));
            }
            let ghost before = res@;
            res.push((seg, i));
            proof {
                assert(cut(v@, res@) =~= cut(v@, before) + seq![
                    v@.subrange(seg as int, i as int),
                ]);
                assert(ranges_within(res@, start as int, end as int)) by {
                    assert forall|k: int| 0 <= k < res@.len() implies start <= (
                    #[trigger] res@[k]).0 <= res@[k].1 <= end by {
                        if k < before.len() {
                            assert(res@[k] == before[k]);
                        }
                    }
                }
            }
            seg = i + 1;
        } else {
            let ghost before = res@;
            res.push((seg, end));
            proof {
                assert(split(s, sep) == seq![s]);
                assert(cut(v@, res@) =~= cut(v@, before) + seq![s]);
                assert(ranges_within(res@, start as int, end as int)) by {
                    assert forall|k: int| 0 <= k < res@.len() implies start <= (
                    #[trigger] res@[k]).0 <= res@[k].1 <= end by {
                        if k < before.len() {
                            assert(res@[k] == before[k]);
                        }
                    }
                }
                assert(split(v@.subrange(start as int, end as int), sep) =~= cut(v@, res@));
            }
            return res;
        }
    }
}

/// The ranges of the lines of `v`, as `str::lines` cuts them.
pub fn line_ranges(v: &Vec<char>) -> (res: Vec<(usize, usize)>)
    ensures
        ranges_within(res@, 0, v@.len() as int),
        cut(v@, res@) == lines(v@),
{
    let mut res: Vec<(usize, usize)> = Vec::new();
    let mut seg: usize = 0;
    let end: usize = v.len();
    proof {
        assert(v@.subrange(0, end as int) =~= v@);
    }
    loop
        invariant
            0 <= seg <= end,
            end == v@.len(),
            ranges_within(res@, 0, end as int),
            lines(v@) == cut(v@, res@) + lines(v@.subrange(seg as int, end as int)),
        decreases end - seg,
    {
        let ghost s = v@.subrange(seg as int, end as int);
        if seg == end {
            proof {
                assert(lines(s) == Seq::<Seq<char>>::empty());
                assert(lines(v@) =~= cut(v@, res@));
            }
            return res;
        }
        let i = find_char(v, seg, end, '\n');
        proof {
            lemma_first_index_bounds(s, '\n');
        }
        let ghost before = res@;
        if i < end {
            let stop: usize = if i > seg && v[i - 1] == '\r' {
                i - 1
            } else {
                i
            };
            proof {
                let line = s.take(i - seg);
                assert(line =~= v@.subrange(seg as int, i as int));
                if i > seg && v@[i - 1] == '\r' {
                    assert(line.last() == v@[i - 1]);
                    assert(strip_cr(line) =~= v@.subrange(seg as int, stop as int));
                } else {
                    if line.len() > 0 {
                        assert(line.last() == v@[i - 1]);
                    }
                    assert(strip_cr(line) =~= v@.subrange(seg as int, stop as int));
                }
                assert(s.skip(i - seg + 1) =~= v@.subrange(i + 1, end as int));
            }
            res.push((seg, stop));
            proof {
                assert(cut(v@, res@) =~= cut(v@, before) + seq![
                    v@.subrange(seg as int, stop as int),
                ]);
                assert forall|k: int| 0 <= k < res@.len() implies 0 <= (#[trigger] res@[k]).0
                    <= res@[k].1 <= end by {
                    if k < before.len() {
                        assert(res@[k] == before[k]);
                    }
                }
            }
            seg = i + 1;
        } else {
            res.push((seg, end));
            proof {
                assert(lines(s) == seq![s]);
                assert(cut(v@, res@) =~= cut(v@, before) + seq![s]);
                assert forall|k: int| 0 <= k < res@.len() implies 0 <= (#[trigger] res@[k]).0
                    <= res@[k].1 <= end by {
                    if k < before.len() {
                        assert(res@[k] == before[k]);
                    }
                }
                assert(lines(v@) =~= cut(v@, res@));
            }
            return res;
        }
    }
}

/// `v[start..end]` equals `lit`.
pub fn range_eq(v: &Vec<char>, start: usize, end: usize, lit: &str) -> (r: bool)
    requires
        start <= end <= v@.len(),
    ensures
        r == (v@.subrange(start as int, end as int) == lit@),
{
    let p = chars_of(lit);
    if end - start != p.len() {
        proof {
            assert(v@.subrange(start as int, end as int).len() != lit@.len());
        }
        return false;
    }
    let mut i: usize = 0;
    while i < p.len()
        invariant
            start <= end <= v@.len(),
            end - start == p@.len(),
            p@ == lit@,
            i <= p@.len(),
            forall|k: int| 0 <= k < i ==> v@[start + k] == p@[k],
        decreases p@.len() - i,
    {
        if v[start + i] != p[i] {
            proof {
                assert(v@.subrange(start as int, end as int)[i as int] != lit@[i as int]);
            }
            return false;
        }
        i = i + 1;
    }
    proof {
        assert(v@.subrange(start as int, end as int) =~= lit@);
    }
    true
}

/// `v[start..end]` begins with `lit`.
pub fn range_starts_with(v: &Vec<char>, start: usize, end: usize, lit: &str) -> (r: bool)
    requires
        start <= end <= v@.len(),
    ensures
        r == starts_with(v@.subrange(start as int, end as int), lit@),
{
    let n = lit.unicode_len();
    if n > end - start {
        return false;
    }
    let r = range_eq(v, start, start + n, lit);
    proof {
        assert(v@.subrange(start as int, end as int).take(n as int) =~= v@.subrange(
            start as int,
            start + n,
        ));
    }
    r
}

/// The strings of `parts` joined with `sep` between consecutive strings.
pub fn join_strings(parts: &Vec<String>, sep: &str) -> (res: String)
    ensures
        res@ == join(views(parts@), sep@),
{
    let mut res = String::new();
    let ghost all = views(parts@);
    let mut i: usize = 0;
    while i < parts.len()
        invariant
            i <= parts@.len(),
            all == views(parts@),
            res@ == join(all.take(i as int), sep@),
        decreases parts@.len() - i,
    {
        proof {
            let t = all.take(i + 1);
            assert(t.drop_last() =~= all.take(i as int));
            assert(t.last() == parts@[i as int]@);
        }
        if i > 0 {
            res.append(sep);
        } else {
            proof {
                assert(res@ =~= seq![]);
            }
        }
        res.append(parts[i].as_str());
        proof {
            let t = all.take(i + 1);
            if i == 0 {
                assert(res@ =~= t[0]);
            } else {
                assert(res@ =~= join(t.drop_last(), sep@) + sep@ + t.last());
            }
        }
        i = i + 1;
    }
    proof {
        assert(all.take(parts@.len() as int) =~= all);
    }
    res
}

/// Owned copies of `parts`.
pub fn to_strings(parts: &[&str]) -> (res: Vec<String>)
    ensures
        views(res@) == parts@.map_values(|p: &str| p@),
{
    let mut res: Vec<String> = Vec::new();
    let mut i: usize = 0;
    while i < parts.len()
        invariant
            i <= parts@.len(),
            views(res@) == parts@.take(i as int).map_values(|p: &str| p@),
        decreases parts@.len() - i,
    {
        let ghost before = res@;
        let item = parts[i].to_owned();
        res.push(item);
        proof {
            let want = parts@.take(i + 1).map_values(|p: &str| p@);
            assert(views(before).len() == before.len());
            assert(before.len() == i);
            assert(res@.len() == i + 1);
            assert(views(res@).len() == want.len());
            assert forall|k: int| 0 <= k < want.len() implies views(res@)[k] == want[k] by {
                if k < i {
                    assert(res@[k] == before[k]);
                    assert(views(before)[k] == parts@.take(i as int).map_values(|p: &str| p@)[k]);
                } else {
                    assert(res@[k] == item);
                }
            }
            assert(views(res@) =~= want);
        }
        i = i + 1;
    }
    proof {
        assert(parts@.take(parts@.len() as int) =~= parts@);
    }
    res
}

/// Appends `c` to `s` with `String::push`, whose documentation says that it
/// appends the given char to the end of the string; that is all the contract
/// claims.
#[verifier::external_body]
pub fn push_char(s: &mut String, c: char)
    ensures
        final(s)@ == old(s)@.push(c),
{
    s.push(c);
}

/// `s` without its last character (unchanged when empty), as `String::pop` leaves it.
pub fn drop_last_char(s: &String) -> (r: String)
    ensures
        r@ == if s@.len() > 0 {
            s@.drop_last()
        } else {
            s@
        },
{
    let n = s.as_str().unicode_len();
    if n == 0 {
        s.clone()
    } else {
        proof {
            assert(s@.subrange(0, n - 1) =~= s@.drop_last());
        }
        substring(s.as_str(), 0, n - 1)
    }
}

/// The decimal digits of `n`.
pub open spec fn decimal(n: nat) -> Seq<char>
    decreases n,
{
    if n < 10 {
        seq![digit_char(n)]
    } else {
        decimal(n / 10).push(digit_char(n % 10))
    }
}

pub open spec fn digit_char(d: nat) -> char {
    if d == 0 {
        '0'
    } else if d == 1 {
        '1'
    } else if d == 2 {
        '2'
    } else if d == 3 {
        '3'
    } else if d == 4 {
        '4'
    } else if d == 5 {
        '5'
    } else if d == 6 {
        '6'
    } else if d == 7 {
        '7'
    } else if d == 8 {
        '8'
    } else {
        '9'
    }
}

fn digit(d: u64) -> (c: char)
    requires
        d < 10,
    ensures
        c == digit_char(d as nat),
{
    if d == 0 {
        '0'
    } else if d == 1 {
        '1'
    } else if d == 2 {
        '2'
    } else if d == 3 {
        '3'
    } else if d == 4 {
        '4'
    } else if d == 5 {
        '5'
    } else if d == 6 {
        '6'
    } else if d == 7 {
        '7'
    } else if d == 8 {
        '8'
    } else {
        '9'
    }
}

/// Appends the decimal digits of `n` to `s`.
pub fn push_decimal(s: &mut String, n: u64)
    ensures
        final(s)@ == old(s)@ + decimal(n as nat),
    decreases n,
{
    if n < 10 {
        push_char(s, digit(n));
        proof {
            assert(s@ =~= old(s)@ + decimal(n as nat));
        }
    } else {
        push_decimal(s, n / 10);
        push_char(s, digit(n % 10));
        proof {
            assert(s@ =~= old(s)@ + decimal(n as nat));
        }
    }
}

/// Index of the first whitespace character in `s`, or `s.len()`.
pub open spec fn first_ws(s: Seq<char>) -> int
    decreases s.len(),
{
    if s.len() == 0 {
        0
    } else if is_ws(s[0]) {
        0
    } else {
        1 + first_ws(s.drop_first())
    }
}

/// The words of `s`, as `str::split_whitespace` yields them.
pub open spec fn words(s: Seq<char>) -> Seq<Seq<char>>
    decreases s.len(),
{
    let t = trim_start(s);
    if t.len() == 0 {
        seq![]
    } else {
        let i = first_ws(t);
        if 0 < i <= t.len() && t.len() < s.len() + 1 {
            seq![t.take(i)] + words(t.skip(i))
        } else {
            seq![t]
        }
    }
}

pub proof fn lemma_trim_start_len(s: Seq<char>)
    ensures
        trim_start(s).len() <= s.len(),
        trim_start(s).len() > 0 ==> !is_ws(trim_start(s)[0]),
        exists|k: int| 0 <= k <= s.len() && trim_start(s) == s.skip(k),
    decreases s.len(),
{
    if s.len() > 0 && is_ws(s[0]) {
        lemma_trim_start_len(s.drop_first());
        let k = choose|k: int|
            0 <= k <= s.drop_first().len() && trim_start(s.drop_first()) == s.drop_first().skip(
                k,
            );
        assert(s.drop_first().skip(k) =~= s.skip(k + 1));
    } else {
        assert(s.skip(0) =~= s);
    }
}

pub proof fn lemma_first_ws_bounds(s: Seq<char>)
    ensures
        0 <= first_ws(s) <= s.len(),
        first_ws(s) < s.len() ==> is_ws(s[first_ws(s)]),
        forall|k: int| 0 <= k < first_ws(s) ==> !is_ws(s[k]),
    decreases s.len(),
{
    if s.len() > 0 && !is_ws(s[0]) {
        lemma_first_ws_bounds(s.drop_first());
        assert forall|k: int| 0 <= k < first_ws(s) implies !is_ws(s[k]) by {
            if k > 0 {
                assert(s[k] == s.drop_first()[k - 1]);
            }
        }
    }
}

/// The ranges of the words of `v`, as `str::split_whitespace` cuts them.
pub fn word_ranges(v: &Vec<char>) -> (res: Vec<(usize, usize)>)
    ensures
        ranges_within(res@, 0, v@.len() as int),
        cut(v@, res@) == words(v@),
{
    let mut res: Vec<(usize, usize)> = Vec::new();
    let end: usize = v.len();
    let mut pos: usize = 0;
    proof {
        assert(v@.subrange(0, end as int) =~= v@);
    }
    loop
        invariant
            pos <= end,
            end == v@.len(),
            ranges_within(res@, 0, end as int),
            words(v@) == cut(v@, res@) + words(v@.subrange(pos as int, end as int)),
        decreases end - pos,
    {
        let ghost s = v@.subrange(pos as int, end as int);
        let mut a: usize = pos;
        while a < end && is_whitespace(v[a])
            invariant
                pos <= a <= end,
                end == v@.len(),
                forall|k: int| pos <= k < a ==> is_ws(#[trigger] v@[k]),
            decreases end - a,
        {
            a = a + 1;
        }
        proof {
            assert forall|k: int| 0 <= k < a - pos implies is_ws(#[trigger] s[k]) by {
                assert(s[k] == v@[pos + k]);
            }
            lemma_trim_start_skip(s, a - pos);
            assert(s.skip(a - pos) =~= v@.subrange(a as int, end as int));
            let t = v@.subrange(a as int, end as int);
            if a < end {
                assert(t[0] == v@[a as int]);
            }
            assert(trim_start(s) == t);
        }
        if a == end {
            proof {
                assert(words(s) == Seq::<Seq<char>>::empty());
                assert(words(v@) =~= cut(v@, res@));
            }
            return res;
        }
        let mut b: usize = a;
        while b < end && !is_whitespace(v[b])
            invariant
                a <= b <= end,
                end == v@.len(),
                forall|k: int| a <= k < b ==> !is_ws(#[trigger] v@[k]),
            decreases end - b,
        {
            b = b + 1;
        }
        let ghost before = res@;
        proof {
            let t = v@.subrange(a as int, end as int);
            lemma_first_ws_bounds(t);
            assert(t[0] == v@[a as int]);
            let i = first_ws(t);
            assert(i == b - a) by {
                if i < b - a {
                    assert(t[i] == v@[a + i]);
                } else if i > b - a {
                    assert(t[b - a] == v@[b as int]);
                }
            }
            assert(t.take(b - a) =~= v@.subrange(a as int, b as int));
            assert(t.skip(b - a) =~= v@.subrange(b as int, end as int));
            assert(words(s) == seq![t.take(b - a)] + words(t.skip(b - a)));
        }
        res.push((a, b));
        proof {
            assert(cut(v@, res@) =~= cut(v@, before) + seq![v@.subrange(a as int, b as int)]);
            assert forall|k: int| 0 <= k < res@.len() implies 0 <= (#[trigger] res@[k]).0
                <= res@[k].1 <= end by {
                if k < before.len() {
                    assert(res@[k] == before[k]);
                }
            }
        }
        pos = b;
    }
}

/// The words of `s`, as `str::split_whitespace` yields them.
pub fn split_words(s: &str) -> (res: Vec<String>)
    ensures
        views(res@) == words(s@),
{
    let v = chars_of(s);
    let rs = word_ranges(&v);
    let mut res: Vec<String> = Vec::new();
    let mut i: usize = 0;
    while i < rs.len()
        invariant
            v@ == s@,
            ranges_within(rs@, 0, v@.len() as int),
            cut(v@, rs@) == words(v@),
            i <= rs@.len(),
            views(res@) == words(v@).take(i as int),
        decreases rs@.len() - i,
    {
        let (a, b) = rs[i];
        proof {
            assert(rs@[i as int] == (a, b));
        }
        let ghost before = res@;
        let w = substring(s, a, b);
        res.push(w);
        proof {
            assert(views(res@) =~= views(before).push(w@));
            assert(words(v@)[i as int] == v@.subrange(a as int, b as int));
            assert(words(v@).take(i + 1) =~= words(v@).take(i as int).push(words(v@)[i as int]));
        }
        i = i + 1;
    }
    proof {
        assert(words(v@).take(rs@.len() as int) =~= words(v@));
    }
    res
}

/// Joining puts the first piece, then the separator, then the rest joined.
pub proof fn lemma_join_front(parts: Seq<Seq<char>>, sep: Seq<char>)
    requires
        parts.len() >= 2,
    ensures
        join(parts, sep) == parts[0] + sep + join(parts.drop_first(), sep),
    decreases parts.len(),
{
    if parts.len() > 2 {
        let init = parts.drop_last();
        let tail = parts.drop_first();
        lemma_join_front(init, sep);
        assert(init.drop_first() =~= tail.drop_last());
        assert(tail.last() == parts.last());
        assert(init[0] == parts[0]);
        let mid = join(init.drop_first(), sep);
        assert(join(parts, sep) == join(init, sep) + sep + parts.last());
        assert(join(init, sep) == parts[0] + sep + mid);
        assert(join(tail, sep) == join(tail.drop_last(), sep) + sep + tail.last());
        assert(join(tail, sep) == mid + sep + parts.last());
        assert(parts[0] + sep + mid + sep + parts.last() =~= parts[0] + sep + (mid + sep
            + parts.last()));
        assert(join(parts, sep) =~= parts[0] + sep + join(tail, sep));
    } else {
        assert(parts.drop_first() =~= seq![parts[1]]);
        assert(parts.drop_last() =~= seq![parts[0]]);
        assert(join(parts.drop_first(), sep) == parts[1]);
        assert(join(parts.drop_last(), sep) == parts[0]);
        assert(parts.last() == parts[1]);
        assert(join(parts, sep) =~= parts[0] + sep + parts[1]);
    }
}

/// Pieces and a separator free of `c` join into text free of `c`.
pub proof fn lemma_join_free_of(parts: Seq<Seq<char>>, sep: Seq<char>, c: char)
    requires
        forall|i: int| 0 <= i < parts.len() ==> !(#[trigger] parts[i]).contains(c),
        !sep.contains(c),
    ensures
        !join(parts, sep).contains(c),
    decreases parts.len(),
{
    if parts.len() >= 2 {
        lemma_join_free_of(parts.drop_last(), sep, c);
        let j = join(parts.drop_last(), sep);
        let whole = j + sep + parts.last();
        assert(!parts.last().contains(c));
        assert forall|k: int| 0 <= k < whole.len() implies whole[k] != c by {
            if k < j.len() {
                assert(whole[k] == j[k]);
            } else if k < j.len() + sep.len() {
                assert(whole[k] == sep[k - j.len()]);
            } else {
                assert(whole[k] == parts.last()[k - j.len() - sep.len()]);
            }
        }
    } else if parts.len() == 1 {
        assert(!parts[0].contains(c));
    }
}

/// Splitting pieces that hold no separator, joined by it, gives them back.
pub proof fn lemma_split_join(fields: Seq<Seq<char>>, sep: char)
    requires
        fields.len() >= 1,
        forall|i: int| 0 <= i < fields.len() ==> !(#[trigger] fields[i]).contains(sep),
    ensures
        split(join(fields, seq![sep]), sep) == fields,
    decreases fields.len(),
{
    let f0 = fields[0];
    assert(!f0.contains(sep));
    if fields.len() == 1 {
        lemma_first_index_is(f0, sep, f0.len() as int);
        assert(split(f0, sep) =~= seq![f0]);
    } else {
        lemma_join_front(fields, seq![sep]);
        let rest = fields.drop_first();
        assert forall|i: int| 0 <= i < rest.len() implies !(#[trigger] rest[i]).contains(sep) by {
            assert(rest[i] == fields[i + 1]);
        }
        lemma_split_join(rest, sep);
        let text = f0 + seq![sep] + join(rest, seq![sep]);
        assert forall|k: int| 0 <= k < f0.len() implies text[k] != sep by {
            assert(text[k] == f0[k]);
        }
        lemma_first_index_is(text, sep, f0.len() as int);
        assert(text.take(f0.len() as int) =~= f0);
        assert(text.skip(f0.len() as int + 1) =~= join(rest, seq![sep]));
        assert(seq![f0] + rest =~= fields);
    }
}

/// A text with no line break or carriage return, followed by a line break,
/// is one line.
pub proof fn lemma_one_line(s: Seq<char>)
    requires
        !s.contains('\n'),
        !s.contains('\r'),
    ensures
        lines(s + seq!['\n']) == seq![s],
{
    let t = s + seq!['\n'];
    assert forall|k: int| 0 <= k < s.len() implies t[k] != '\n' by {
        assert(t[k] == s[k]);
    }
    lemma_first_index_is(t, '\n', s.len() as int);
    assert(t.take(s.len() as int) =~= s);
    assert(t.skip(s.len() as int + 1) =~= Seq::<char>::empty());
    if s.len() > 0 {
        assert(s.last() != '\r');
    }
    assert(strip_cr(s) == s);
    assert(lines(Seq::<char>::empty()) =~= Seq::<Seq<char>>::empty());
    assert(seq![s] + Seq::<Seq<char>>::empty() =~= seq![s]);
}

} // verus!
