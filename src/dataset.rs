use vstd::prelude::*;

use crate::viewport::UNITS_PER_DEGREE;

verus! {

/// What separates the pieces of a text.
#[derive(Clone, Copy, Debug, PartialEq, Eq, Structural)]
pub enum Separator {
    /// A line feed: the pieces are lines.
    Newline,
    /// ASCII white space: the pieces are fields.
    Space,
}

/// ASCII white space: space, tab, line feed, vertical tab, form feed and
/// carriage return.
pub open spec fn is_space(b: u8) -> bool {
    b == 32 || (9 <= b && b <= 13)
}

/// Whether `b` ends a piece.
pub open spec fn separates(sep: Separator, b: u8) -> bool {
    match sep {
        Separator::Newline => b == 10,
        Separator::Space => is_space(b),
    }
}

/// Splitting a text from its start: the pieces completed so far and the
/// piece under way.
pub open spec fn split_state(s: Seq<u8>, sep: Separator) -> (Seq<Seq<u8>>, Seq<u8>)
    decreases s.len(),
{
    if s.len() == 0 {
        (Seq::empty(), Seq::empty())
    } else {
        let (done, cur) = split_state(s.drop_last(), sep);
        if separates(sep, s.last()) {
            if cur.len() > 0 {
                (done.push(cur), Seq::empty())
            } else {
                (done, Seq::empty())
            }
        } else {
            (done, cur.push(s.last()))
        }
    }
}

/// The maximal non-empty runs of bytes between separators, in order.
pub open spec fn pieces(s: Seq<u8>, sep: Separator) -> Seq<Seq<u8>> {
    let (done, cur) = split_state(s, sep);
    if cur.len() > 0 {
        done.push(cur)
    } else {
        done
    }
}

/// A line that holds only white space.
pub open spec fn is_blank(line: Seq<u8>) -> bool {
    forall|i: int| 0 <= i < line.len() ==> is_space(#[trigger] line[i])
}

/// The records of a dataset text: its lines that are not blank, in order.
pub open spec fn records(text: Seq<u8>) -> Seq<Seq<u8>> {
    pieces(text, Separator::Newline).filter(|l: Seq<u8>| !is_blank(l))
}

pub open spec fn is_digit(b: u8) -> bool {
    48 <= b <= 57
}

pub open spec fn all_digits(s: Seq<u8>) -> bool {
    forall|i: int| 0 <= i < s.len() ==> is_digit(#[trigger] s[i])
}

/// The number that a string of decimal digits writes.
pub open spec fn digits_value(s: Seq<u8>) -> int
    decreases s.len(),
{
    if s.len() == 0 {
        0
    } else {
        digits_value(s.drop_last()) * 10 + (s.last() - 48)
    }
}

pub open spec fn pow10(n: nat) -> int
    decreases n,
{
    if n == 0 {
        1
    } else {
        10 * pow10((n - 1) as nat)
    }
}

/// The index of the first `.`, or the length where there is none.
pub open spec fn dot_index(s: Seq<u8>) -> int
    decreases s.len(),
{
    if s.len() == 0 {
        0
    } else if s[0] == 46 {
        0
    } else {
        1 + dot_index(s.subrange(1, s.len() as int))
    }
}

/// Digits of a fraction, cut or padded with zeros to the seven digits that
/// a fixed-point unit holds.
pub open spec fn fraction_digits(f: Seq<u8>) -> Seq<u8> {
    Seq::new(7, |j: int| if j < f.len() { f[j] } else { 48u8 })
}

/// The most integer digits that a coordinate may have.
pub const MAX_INTEGER_DIGITS: usize = 9;

/// An unsigned decimal `D+` or `D+.D+` in fixed-point units, with at most
/// nine integer digits; fraction digits beyond the seventh are dropped.
pub open spec fn unsigned_units(s: Seq<u8>) -> Option<int> {
    let k = dot_index(s);
    let whole = s.subrange(0, k);
    if !(1 <= whole.len() <= MAX_INTEGER_DIGITS && all_digits(whole)) {
        None
    } else if k == s.len() {
        Some(digits_value(whole) * UNITS_PER_DEGREE)
    } else {
        let frac = s.subrange(k + 1, s.len() as int);
        if frac.len() >= 1 && all_digits(frac) {
            Some(digits_value(whole) * UNITS_PER_DEGREE + digits_value(fraction_digits(frac)))
        } else {
            None
        }
    }
}

/// A decimal with an optional sign, in fixed-point units.
pub open spec fn decimal_units(s: Seq<u8>) -> Option<int> {
    if s.len() > 0 && s[0] == 45 {
        match unsigned_units(s.subrange(1, s.len() as int)) {
            Some(v) => Some(-v),
            None => None,
        }
    } else if s.len() > 0 && s[0] == 43 {
        unsigned_units(s.subrange(1, s.len() as int))
    } else {
        unsigned_units(s)
    }
}

/// A record: its first two fields are the longitude and the latitude;
/// further fields are ignored.
pub open spec fn parse_record(line: Seq<u8>) -> Option<(i64, i64)> {
    let f = pieces(line, Separator::Space);
    if f.len() >= 2 && decimal_units(f[0]) is Some && decimal_units(f[1]) is Some {
        Some((decimal_units(f[0])->Some_0 as i64, decimal_units(f[1])->Some_0 as i64))
    } else {
        None
    }
}

/// Every record of the text parses.
pub open spec fn all_records_parse(text: Seq<u8>) -> bool {
    forall|k: int| 0 <= k < records(text).len() ==> (#[trigger] parse_record(records(text)[k])) is Some
}

/// The points of a dataset text whose every record parses.
pub open spec fn dataset_points(text: Seq<u8>) -> Seq<(i64, i64)> {
    records(text).map_values(|l: Seq<u8>| parse_record(l)->Some_0)
}

/// Why a dataset text was refused.
#[derive(Clone, Copy, Debug, PartialEq, Eq, Structural)]
pub enum DatasetError {
    /// The record with this index (counting non-blank lines from zero) is
    /// not two decimal numbers.
    BadRecord(usize),
}

/// Whether a byte separates pieces.
pub fn is_separator(sep: Separator, b: u8) -> (r: bool)
    ensures
        r == separates(sep, b),
{
    match sep {
        Separator::Newline => b == 10,
        Separator::Space => b == 32 || (9 <= b && b <= 13),
    }
}

/// The contents of a sequence of byte vectors.
pub open spec fn views(v: Seq<Vec<u8>>) -> Seq<Seq<u8>> {
    v.map_values(|p: Vec<u8>| p@)
}

/// Splits `s` into its maximal non-empty runs between separators.
pub fn split(s: &[u8], sep: Separator) -> (r: Vec<Vec<u8>>)
    ensures
        views(r@) == pieces(s@, sep),
{
    let mut done: Vec<Vec<u8>> = Vec::new();
    let mut cur: Vec<u8> = Vec::new();
    let mut i: usize = 0;
    while i < s.len()
        invariant
            i <= s@.len(),
            (views(done@), cur@) == split_state(s@.subrange(0, i as int), sep),
        decreases s@.len() - i,
    {
        let b = s[i];
        proof {
            assert(s@.subrange(0, i as int + 1).drop_last() =~= s@.subrange(0, i as int));
        }
        if is_separator(sep, b) {
            if cur.len() > 0 {
                let piece = cur;
                cur = Vec::new();
                done.push(piece);
                assert(views(done@) =~= split_state(s@.subrange(0, i as int), sep).0.push(piece@));
            } else {
                cur = Vec::new();
            }
            assert(cur@ =~= Seq::<u8>::empty());
        } else {
            cur.push(b);
        }
        i = i + 1;
    }
    assert(s@.subrange(0, s@.len() as int) =~= s@);
    if cur.len() > 0 {
        let last = cur;
        done.push(last);
        assert(views(done@) =~= pieces(s@, sep));
    }
    done
}

/// Whether a line holds only white space.
pub fn blank(line: &Vec<u8>) -> (r: bool)
    ensures
        r == is_blank(line@),
{
    let mut i: usize = 0;
    while i < line.len()
        invariant
            i <= line@.len(),
            forall|j: int| 0 <= j < i ==> is_space(#[trigger] line@[j]),
        decreases line@.len() - i,
    {
        if !is_separator(Separator::Space, line[i]) {
            return false;
        }
        i = i + 1;
    }
    true
}

proof fn lemma_pow10_grows(a: nat, b: nat)
    requires
        a <= b,
    ensures
        1 <= pow10(a) <= pow10(b),
    decreases b,
{
    if a < b {
        lemma_pow10_grows(a, (b - 1) as nat);
    } else if a > 0 {
        lemma_pow10_grows((a - 1) as nat, (a - 1) as nat);
    }
}

/// The number that the digits `s[lo..hi]` write.
fn digits_value_of(s: &Vec<u8>, lo: usize, hi: usize) -> (r: u64)
    requires
        lo <= hi <= s@.len(),
        hi - lo <= MAX_INTEGER_DIGITS,
        all_digits(s@.subrange(lo as int, hi as int)),
    ensures
        r == digits_value(s@.subrange(lo as int, hi as int)),
        r < pow10((hi - lo) as nat),
        r < 1_000_000_000,
{
    let mut v: u64 = 0;
    let mut i: usize = lo;
    while i < hi
        invariant
            lo <= i <= hi <= s@.len(),
            hi - lo <= MAX_INTEGER_DIGITS,
            all_digits(s@.subrange(lo as int, hi as int)),
            v == digits_value(s@.subrange(lo as int, i as int)),
            0 <= v < pow10((i - lo) as nat),
        decreases hi - i,
    {
        proof {
            lemma_pow10_grows((i + 1 - lo) as nat, 9);
            assert(s@.subrange(lo as int, i as int + 1).drop_last() =~= s@.subrange(lo as int, i as int));
            assert(is_digit(s@.subrange(lo as int, hi as int)[i - lo]));
            assert(pow10((i + 1 - lo) as nat) == 10 * pow10((i - lo) as nat));
            lemma_pow10_values();
        }
        let d: u64 = (s[i] - 48) as u64;
        v = v * 10 + d;
        i = i + 1;
    }
    proof {
        lemma_pow10_grows((hi - lo) as nat, 9);
        lemma_pow10_values();
    }
    v
}

proof fn lemma_pow10_values()
    ensures
        pow10(7) == 10_000_000,
        pow10(9) == 1_000_000_000,
{
    reveal_with_fuel(pow10, 10);
}

proof fn lemma_dot_index(s: Seq<u8>, k: int)
    requires
        0 <= k <= s.len(),
        forall|j: int| 0 <= j < k ==> s[j] != 46,
        k == s.len() || s[k] == 46,
    ensures
        dot_index(s) == k,
    decreases s.len(),
{
    if s.len() > 0 && k > 0 {
        let t = s.subrange(1, s.len() as int);
        assert forall|j: int| 0 <= j < k - 1 implies t[j] != 46 by {
            assert(t[j] == s[j + 1]);
        }
        lemma_dot_index(t, k - 1);
    }
}

/// The bytes `s[lo..hi]` as a value in fixed-point units, read as an
/// unsigned decimal.
fn unsigned_units_of(s: &Vec<u8>, lo: usize, hi: usize) -> (r: Option<i64>)
    requires
        lo <= hi <= s@.len(),
    ensures
        match unsigned_units(s@.subrange(lo as int, hi as int)) {
            Some(v) => r == Some(v as i64) && 0 <= v < 20_000_000_000_000_000,
            None => r is None,
        },
{
    let ghost t = s@.subrange(lo as int, hi as int);
    let mut k: usize = lo;
    while k < hi && s[k] != 46
        invariant
            lo <= k <= hi <= s@.len(),
            t == s@.subrange(lo as int, hi as int),
            forall|j: int| 0 <= j < k - lo ==> t[j] != 46,
        decreases hi - k,
    {
        k = k + 1;
    }
    proof {
        lemma_dot_index(t, k - lo);
        assert(t.subrange(0, k - lo) =~= s@.subrange(lo as int, k as int));
    }
    if k == lo || k - lo > MAX_INTEGER_DIGITS {
        return None;
    }
    let mut j: usize = lo;
    while j < k
        invariant
            lo <= j <= k <= hi <= s@.len(),
            t == s@.subrange(lo as int, hi as int),
            dot_index(t) == k - lo,
            t.subrange(0, k - lo) == s@.subrange(lo as int, k as int),
            forall|m: int| lo <= m < j ==> is_digit(#[trigger] s@[m]),
        decreases k - j,
    {
        if !(48 <= s[j] && s[j] <= 57) {
            assert(s@.subrange(lo as int, k as int)[j - lo] == s@[j as int]);
            return None;
        }
        j = j + 1;
    }
    assert(all_digits(s@.subrange(lo as int, k as int)));
    let whole: u64 = digits_value_of(s, lo, k);
    if k == hi {
        return Some(whole as i64 * UNITS_PER_DEGREE);
    }
    let ghost frac = t.subrange(k - lo + 1, t.len() as int);
    assert(frac =~= s@.subrange(k + 1, hi as int));
    if k + 1 == hi {
        return None;
    }
    let mut j: usize = k + 1;
    while j < hi
        invariant
            lo <= k,
            k + 1 <= j <= hi <= s@.len(),
            t == s@.subrange(lo as int, hi as int),
            dot_index(t) == k - lo,
            t.subrange(0, k - lo) == s@.subrange(lo as int, k as int),
            frac == s@.subrange(k + 1, hi as int),
            frac == t.subrange(k - lo + 1, t.len() as int),
            forall|m: int| k + 1 <= m < j ==> is_digit(#[trigger] s@[m]),
        decreases hi - j,
    {
        if !(48 <= s[j] && s[j] <= 57) {
            assert(frac[j - k - 1] == s@[j as int]);
            return None;
        }
        j = j + 1;
    }
    assert(all_digits(frac));
    let mut padded: Vec<u8> = Vec::new();
    let mut m: usize = 0;
    while m < 7
        invariant
            m <= 7,
            frac == s@.subrange(k + 1, hi as int),
            padded@ =~= fraction_digits(frac).subrange(0, m as int),
            all_digits(frac),
            k + 1 <= hi <= s@.len(),
        decreases 7 - m,
    {
        if m < hi - (k + 1) {
            padded.push(s[k + 1 + m]);
        } else {
            padded.push(48);
        }
        m = m + 1;
    }
    assert(padded@ =~= fraction_digits(frac));
    assert(all_digits(padded@.subrange(0, 7)));
    assert(padded@.subrange(0, 7) =~= padded@);
    let part: u64 = digits_value_of(&padded, 0, 7);
    proof {
        lemma_pow10_values();
    }
    Some(whole as i64 * UNITS_PER_DEGREE + part as i64)
}

/// Reads a signed decimal in fixed-point units.
pub fn decimal_units_of(s: &Vec<u8>) -> (r: Option<i64>)
    ensures
        match decimal_units(s@) {
            Some(v) => r == Some(v as i64) && -20_000_000_000_000_000 < v < 20_000_000_000_000_000,
            None => r is None,
        },
{
    if s.len() > 0 && (s[0] == 45 || s[0] == 43) {
        match unsigned_units_of(s, 1, s.len()) {
            Some(v) => if s[0] == 45 {
                Some(-v)
            } else {
                Some(v)
            },
            None => None,
        }
    } else {
        assert(s@.subrange(0, s@.len() as int) =~= s@);
        unsigned_units_of(s, 0, s.len())
    }
}

/// Reads a record: the first two fields as longitude and latitude.
pub fn parse_record_of(line: &Vec<u8>) -> (r: Option<(i64, i64)>)
    ensures
        r == parse_record(line@),
{
    let fields = split(line.as_slice(), Separator::Space);
    if fields.len() < 2 {
        return None;
    }
    assert(fields@[0]@ == pieces(line@, Separator::Space)[0]);
    assert(fields@[1]@ == pieces(line@, Separator::Space)[1]);
    let x = decimal_units_of(&fields[0]);
    let y = decimal_units_of(&fields[1]);
    match (x, y) {
        (Some(x), Some(y)) => Some((x, y)),
        _ => None,
    }
}

proof fn lemma_filter_prefix(s: Seq<Seq<u8>>, i: int, p: spec_fn(Seq<u8>) -> bool)
    requires
        0 <= i <= s.len(),
    ensures
        s.subrange(0, i).filter(p).len() <= s.filter(p).len(),
        forall|k: int| 0 <= k < s.subrange(0, i).filter(p).len()
            ==> #[trigger] s.subrange(0, i).filter(p)[k] == s.filter(p)[k],
    decreases s.len(),
{
    reveal(Seq::filter);
    if i == s.len() {
        assert(s.subrange(0, i) =~= s);
    } else {
        lemma_filter_prefix(s.drop_last(), i, p);
        assert(s.drop_last().subrange(0, i) =~= s.subrange(0, i));
    }
}

/// Reads a dataset text: one point per line, in file order, blank lines
/// skipped. Fails on the first record that is not two decimal numbers.
pub fn parse_dataset(text: &[u8]) -> (r: Result<Vec<(i64, i64)>, DatasetError>)
    ensures
        match r {
            Ok(points) => all_records_parse(text@) && points@ == dataset_points(text@),
            Err(DatasetError::BadRecord(k)) => {
                &&& k < records(text@).len()
                &&& parse_record(records(text@)[k as int]) is None
                &&& forall|j: int| 0 <= j < k ==> (#[trigger] parse_record(records(text@)[j])) is Some
            },
        },
{
    let lines = split(text, Separator::Newline);
    let ghost ls = pieces(text@, Separator::Newline);
    let ghost nonblank = |l: Seq<u8>| !is_blank(l);
    let mut points: Vec<(i64, i64)> = Vec::new();
    let mut i: usize = 0;
    while i < lines.len()
        invariant
            i <= lines@.len(),
            views(lines@) == ls,
            ls == pieces(text@, Separator::Newline),
            nonblank == (|l: Seq<u8>| !is_blank(l)),
            records(text@) == ls.filter(nonblank),
            points@.len() == ls.subrange(0, i as int).filter(nonblank).len(),
            forall|k: int| 0 <= k < points@.len() ==> {
                &&& parse_record(#[trigger] ls.subrange(0, i as int).filter(nonblank)[k]) is Some
                &&& points@[k] == parse_record(ls.subrange(0, i as int).filter(nonblank)[k])->Some_0
            },
        decreases lines@.len() - i,
    {
        proof {
            reveal(Seq::filter);
            assert(ls.subrange(0, i as int + 1).drop_last() =~= ls.subrange(0, i as int));
            assert(lines@[i as int]@ == ls[i as int]);
            assert(ls.subrange(0, i as int + 1).last() == ls[i as int]);
            lemma_filter_prefix(ls, i as int + 1, nonblank);
        }
        let line = &lines[i];
        if !blank(line) {
            match parse_record_of(line) {
                Some(p) => {
                    points.push(p);
                },
                None => {
                    let k = points.len();
                    proof {
                        let before = ls.subrange(0, i as int).filter(nonblank);
                        let after = ls.subrange(0, i as int + 1).filter(nonblank);
                        assert(after == before.push(ls[i as int]));
                        assert(after[k as int] == ls[i as int]);
                        assert(records(text@)[k as int] == ls[i as int]);
                        assert forall|j: int| 0 <= j < k implies (#[trigger] parse_record(records(text@)[j])) is Some by {
                            assert(after[j] == before[j]);
                            assert(records(text@)[j] == after[j]);
                        }
                    }
                    return Err(DatasetError::BadRecord(k));
                },
            }
        }
        i = i + 1;
    }
    assert(ls.subrange(0, ls.len() as int) =~= ls);
    assert(points@ =~= dataset_points(text@));
    Ok(points)
}

/// A dataset text whose records all parse gives one point per non-blank
/// line, in the order of the lines.
pub proof fn lemma_one_point_per_record(text: Seq<u8>)
    requires
        all_records_parse(text),
    ensures
        dataset_points(text).len() == records(text).len(),
        forall|k: int| 0 <= k < records(text).len()
            ==> Some(#[trigger] dataset_points(text)[k]) == parse_record(records(text)[k]),
{
}

} // verus!
