//! Character-level text utilities shared by the filters and selectors.
//!
//! Every exec function here mirrors a spec function over `Seq<char>`, so the
//! string transformations the pipeline applies are pinned down exactly.

use vstd::prelude::*;

verus! {

use vstd::string::StrSliceExecFns;

/// Unicode `White_Space` code points, as `char::is_whitespace` defines them.
pub open spec fn is_space_char(c: char) -> bool {
    ||| c == '\u{0009}'
    ||| c == '\u{000A}'
    ||| c == '\u{000B}'
    ||| c == '\u{000C}'
    ||| c == '\u{000D}'
    ||| c == '\u{0020}'
    ||| c == '\u{0085}'
    ||| c == '\u{00A0}'
    ||| c == '\u{1680}'
    ||| c == '\u{2000}'
    ||| c == '\u{2001}'
    ||| c == '\u{2002}'
    ||| c == '\u{2003}'
    ||| c == '\u{2004}'
    ||| c == '\u{2005}'
    ||| c == '\u{2006}'
    ||| c == '\u{2007}'
    ||| c == '\u{2008}'
    ||| c == '\u{2009}'
    ||| c == '\u{200A}'
    ||| c == '\u{2028}'
    ||| c == '\u{2029}'
    ||| c == '\u{202F}'
    ||| c == '\u{205F}'
    ||| c == '\u{3000}'
}

/// Whether `c` is Unicode white space, by the same table as
/// `is_space_char`.
pub fn is_space(c: char) -> (r: bool)
    ensures
        r == is_space_char(c),
{
    c == '\u{0009}' || c == '\u{000A}' || c == '\u{000B}' || c == '\u{000C}'
        || c == '\u{000D}' || c == '\u{0020}' || c == '\u{0085}' || c == '\u{00A0}'
        || c == '\u{1680}' || c == '\u{2000}' || c == '\u{2001}' || c == '\u{2002}'
        || c == '\u{2003}' || c == '\u{2004}' || c == '\u{2005}' || c == '\u{2006}'
        || c == '\u{2007}' || c == '\u{2008}' || c == '\u{2009}' || c == '\u{200A}'
        || c == '\u{2028}' || c == '\u{2029}' || c == '\u{202F}' || c == '\u{205F}'
        || c == '\u{3000}'
}

/// Relies on String::push: appends a single character.
#[verifier::external_body]
pub fn push_char(s: &mut String, c: char)
    ensures
        final(s)@ == old(s)@.push(c),
{
    s.push(c);
}

/// The characters of a string, as a vector.
pub fn str_to_chars(s: &str) -> (v: Vec<char>)
    ensures
        v@ == s@,
{
    let n: usize = s.unicode_len();
    let mut v: Vec<char> = Vec::new();
    let mut i: usize = 0;
    while i < n
        invariant
            i <= n,
            n == s@.len(),
            v@ == s@.take(i as int),
        decreases n - i,
    {
        v.push(s.get_char(i));
        i = i + 1;
        proof {
            assert(v@ =~= s@.take(i as int));
        }
    }
    proof {
        assert(v@ =~= s@);
    }
    v
}

/// A string holding the given characters.
pub fn chars_to_string(v: &Vec<char>) -> (s: String)
    ensures
        s@ == v@,
{
    let mut s = String::new();
    let mut i: usize = 0;
    while i < v.len()
        invariant
            i <= v@.len(),
            s@ == v@.take(i as int),
        decreases v@.len() - i,
    {
        push_char(&mut s, v[i]);
        i = i + 1;
        proof {
            assert(s@ =~= v@.take(i as int));
        }
    }
    proof {
        assert(s@ =~= v@);
    }
    s
}

/// Whether `pat` occurs in `s` starting at position `i`.
pub open spec fn matches_at(s: Seq<char>, pat: Seq<char>, i: int) -> bool {
    0 <= i && i + pat.len() <= s.len() && s.subrange(i, i + pat.len()) == pat
}

/// Whether `pat` occurs in `s` starting at `i`.
pub fn match_at(s: &Vec<char>, pat: &Vec<char>, i: usize) -> (r: bool)
    requires
        i <= s@.len(),
    ensures
        r == matches_at(s@, pat@, i as int),
{
    if pat.len() > s.len() - i {
        proof {
            assert(!matches_at(s@, pat@, i as int));
        }
        return false;
    }
    let mut j: usize = 0;
    while j < pat.len()
        invariant
            0 <= j <= pat@.len(),
            i + pat@.len() <= s@.len(),
            forall|k: int| 0 <= k < j ==> s@[i + k] == pat@[k],
        decreases pat@.len() - j,
    {
        let n: usize = s.len();
        assert(i + j < n);
        if s[i + j] != pat[j] {
            proof {
                assert(s@.subrange(i as int, i + pat@.len())[j as int] == s@[i + j]);
            }
            return false;
        }
        j = j + 1;
    }
    proof {
        assert(s@.subrange(i as int, i + pat@.len()) =~= pat@);
    }
    true
}

/// Index of the first occurrence of `pat` at or after `i`, if any.
pub open spec fn find_from(s: Seq<char>, pat: Seq<char>, i: int) -> Option<int>
    decreases s.len() - i,
{
    if !(0 <= i && i <= s.len()) {
        None
    } else if matches_at(s, pat, i) {
        Some(i)
    } else if i == s.len() {
        None
    } else {
        find_from(s, pat, i + 1)
    }
}

/// First occurrence of `pat` at or after `i`.
pub fn find_sub(s: &Vec<char>, pat: &Vec<char>, i: usize) -> (r: Option<usize>)
    requires
        i <= s@.len(),
    ensures
        match r {
            Some(j) => find_from(s@, pat@, i as int) == Some(j as int),
            None => find_from(s@, pat@, i as int) is None,
        },
    decreases s@.len() - i,
{
    if match_at(s, pat, i) {
        Some(i)
    } else if i == s.len() {
        None
    } else {
        find_sub(s, pat, i + 1)
    }
}

/// `matches_at` is insensitive to dropping a prefix that lies before it.
pub proof fn lemma_matches_skip(s: Seq<char>, pat: Seq<char>, i: int, j: int)
    requires
        0 <= i <= s.len(),
        0 <= j,
        i + j <= s.len(),
    ensures
        matches_at(s, pat, i + j) == matches_at(s.skip(i), pat, j),
{
    if i + j + pat.len() <= s.len() {
        assert(s.skip(i).subrange(j, j + pat.len()) =~= s.subrange(i + j, i + j + pat.len()));
    }
}

/// Every occurrence that `find_from` reports really is one.
pub proof fn lemma_find_from_some(s: Seq<char>, pat: Seq<char>, i: int, j: int)
    requires
        0 <= i <= s.len(),
        find_from(s, pat, i) == Some(j),
    ensures
        i <= j,
        matches_at(s, pat, j),
        j + pat.len() <= s.len(),
    decreases s.len() - i,
{
    if matches_at(s, pat, i) {
    } else if i == s.len() {
    } else {
        lemma_find_from_some(s, pat, i + 1, j);
    }
}

/// Every occurrence of `from` replaced by `to`, scanning left to right.
/// An empty `from` inserts `to` before every character and at the end.
pub open spec fn replace_seq(s: Seq<char>, from: Seq<char>, to: Seq<char>) -> Seq<char>
    decreases s.len(),
{
    if from.len() == 0 {
        if s.len() == 0 {
            to
        } else {
            to + seq![s[0]] + replace_seq(s.skip(1), from, to)
        }
    } else if s.len() == 0 {
        Seq::<char>::empty()
    } else if matches_at(s, from, 0) {
        to + replace_seq(s.skip(from.len() as int), from, to)
    } else {
        seq![s[0]] + replace_seq(s.skip(1), from, to)
    }
}

fn replace_step(s: &Vec<char>, from: &Vec<char>, to: &Vec<char>, i: usize, out: &mut Vec<char>)
    requires
        i <= s@.len(),
    ensures
        final(out)@ == old(out)@ + replace_seq(s@.skip(i as int), from@, to@),
    decreases s@.len() - i,
{
    let ghost rest = s@.skip(i as int);
    if from.len() == 0 {
        let mut k: usize = 0;
        while k < to.len()
            invariant
                k <= to@.len(),
                out@ == old(out)@ + to@.take(k as int),
            decreases to@.len() - k,
        {
            out.push(to[k]);
            k = k + 1;
            proof {
                assert(out@ =~= old(out)@ + to@.take(k as int));
            }
        }
        proof {
            assert(out@ =~= old(out)@ + to@);
        }
        if i < s.len() {
            out.push(s[i]);
            proof {
                assert(rest[0] == s@[i as int]);
                assert(out@ =~= old(out)@ + to@ + seq![rest[0]]);
                assert(s@.skip(i + 1) =~= rest.skip(1));
            }
            replace_step(s, from, to, i + 1, out);
            proof {
                assert(out@ =~= old(out)@ + replace_seq(rest, from@, to@));
            }
        } else {
            proof {
                assert(rest.len() == 0);
            }
        }
    } else if i == s.len() {
        proof {
            assert(rest.len() == 0);
            assert(out@ =~= old(out)@ + replace_seq(rest, from@, to@));
        }
    } else if match_at(s, from, i) {
        proof {
            lemma_matches_skip(s@, from@, i as int, 0);
            assert(matches_at(rest, from@, 0));
        }
        let mut k: usize = 0;
        while k < to.len()
            invariant
                k <= to@.len(),
                out@ == old(out)@ + to@.take(k as int),
            decreases to@.len() - k,
        {
            out.push(to[k]);
            k = k + 1;
            proof {
                assert(out@ =~= old(out)@ + to@.take(k as int));
            }
        }
        proof {
            assert(out@ =~= old(out)@ + to@);
            assert(i + from@.len() <= s@.len());
            assert(s@.skip(i + from@.len()) =~= rest.skip(from@.len() as int));
        }
        replace_step(s, from, to, i + from.len(), out);
        proof {
            assert(out@ =~= old(out)@ + replace_seq(rest, from@, to@));
        }
    } else {
        proof {
            lemma_matches_skip(s@, from@, i as int, 0);
            assert(!matches_at(rest, from@, 0));
        }
        out.push(s[i]);
        proof {
            assert(rest[0] == s@[i as int]);
            assert(s@.skip(i + 1) =~= rest.skip(1));
        }
        replace_step(s, from, to, i + 1, out);
        proof {
            assert(out@ =~= old(out)@ + replace_seq(rest, from@, to@));
        }
    }
}

/// Every occurrence of `from` in `s` replaced by `to`.
pub fn replace_chars(s: &Vec<char>, from: &Vec<char>, to: &Vec<char>) -> (r: Vec<char>)
    ensures
        r@ == replace_seq(s@, from@, to@),
{
    let mut out: Vec<char> = Vec::new();
    replace_step(s, from, to, 0, &mut out);
    proof {
        assert(s@.skip(0) =~= s@);
        assert(out@ =~= replace_seq(s@, from@, to@));
    }
    out
}

/// The pieces of `s` between occurrences of `sep`, scanning left to right.
/// There is always at least one piece; a separator at the edge produces an
/// empty piece.
pub open spec fn split_seq(s: Seq<char>, sep: Seq<char>) -> Seq<Seq<char>>
    recommends
        sep.len() > 0,
    decreases s.len(),
    via split_seq_decreases
{
    if sep.len() == 0 {
        seq![s]
    } else {
        match find_from(s, sep, 0) {
            Some(j) => seq![s.take(j)] + split_seq(s.skip(j + sep.len()), sep),
            None => seq![s],
        }
    }
}

#[via_fn]
proof fn split_seq_decreases(s: Seq<char>, sep: Seq<char>) {
    if sep.len() > 0 {
        match find_from(s, sep, 0) {
            Some(j) => {
                lemma_find_from_some(s, sep, 0, j);
            },
            None => {},
        }
    }
}

/// The pieces joined again, with `sep` between neighbours.
pub open spec fn join_seq(parts: Seq<Seq<char>>, sep: Seq<char>) -> Seq<char>
    decreases parts.len(),
{
    if parts.len() == 0 {
        Seq::<char>::empty()
    } else if parts.len() == 1 {
        parts[0]
    } else {
        parts[0] + sep + join_seq(parts.skip(1), sep)
    }
}

/// Splitting never yields an empty list of pieces.
pub proof fn lemma_split_nonempty(s: Seq<char>, sep: Seq<char>)
    ensures
        split_seq(s, sep).len() >= 1,
{
}

/// Joining the pieces of a split restores the original string.
pub proof fn lemma_split_join(s: Seq<char>, sep: Seq<char>)
    requires
        sep.len() > 0,
    ensures
        join_seq(split_seq(s, sep), sep) == s,
    decreases s.len(),
{
    match find_from(s, sep, 0) {
        Some(j) => {
            lemma_find_from_some(s, sep, 0, j);
            let rest = s.skip(j + sep.len());
            lemma_split_join(rest, sep);
            let parts = split_seq(s, sep);
            lemma_split_nonempty(rest, sep);
            assert(parts == seq![s.take(j)] + split_seq(rest, sep));
            assert(parts.len() >= 2);
            assert(parts[0] == s.take(j));
            assert(parts.skip(1) =~= split_seq(rest, sep));
            assert(s.subrange(j, j + sep.len()) == sep);
            assert(s.take(j) + sep + rest =~= s);
        },
        None => {},
    }
}

/// The string with leading white space removed.
pub open spec fn ltrim_seq(s: Seq<char>) -> Seq<char>
    decreases s.len(),
{
    if s.len() > 0 && is_space_char(s[0]) {
        ltrim_seq(s.skip(1))
    } else {
        s
    }
}

/// The string with trailing white space removed.
pub open spec fn rtrim_seq(s: Seq<char>) -> Seq<char>
    decreases s.len(),
{
    if s.len() > 0 && is_space_char(s[s.len() - 1]) {
        rtrim_seq(s.take(s.len() - 1))
    } else {
        s
    }
}

/// The string with leading and trailing white space removed.
pub open spec fn trim_seq(s: Seq<char>) -> Seq<char> {
    rtrim_seq(ltrim_seq(s))
}

/// The characters of `v` with leading and trailing white space removed.
pub fn trim_chars(v: &Vec<char>) -> (r: Vec<char>)
    ensures
        r@ == trim_seq(v@),
{
    let mut lo: usize = 0;
    proof {
        assert(v@.skip(0) =~= v@);
    }
    while lo < v.len() && is_space(v[lo])
        invariant
            lo <= v@.len(),
            ltrim_seq(v@) == ltrim_seq(v@.skip(lo as int)),
        decreases v@.len() - lo,
    {
        proof {
            assert(v@.skip(lo as int).skip(1) =~= v@.skip(lo + 1));
            assert(v@.skip(lo as int)[0] == v@[lo as int]);
        }
        lo = lo + 1;
    }
    let ghost mid = v@.skip(lo as int);
    proof {
        if lo < v@.len() {
            assert(mid[0] == v@[lo as int]);
        }
        assert(ltrim_seq(v@) == mid);
    }
    let mut hi: usize = v.len();
    proof {
        assert(mid.take(hi - lo) =~= mid);
    }
    while hi > lo && is_space(v[hi - 1])
        invariant
            lo <= hi <= v@.len(),
            mid == v@.skip(lo as int),
            rtrim_seq(mid) == rtrim_seq(mid.take(hi - lo)),
        decreases hi,
    {
        proof {
            let part = mid.take(hi - lo);
            assert(part.len() == hi - lo);
            assert(part[hi - lo - 1] == mid[hi - lo - 1]);
            assert(mid[hi - lo - 1] == v@[hi - 1]);
            assert(is_space_char(part[part.len() - 1]));
            assert(part.take(part.len() - 1) =~= mid.take(hi - 1 - lo));
        }
        hi = hi - 1;
    }
    proof {
        let part = mid.take(hi - lo);
        if hi > lo {
            assert(part.len() == hi - lo);
            assert(part[hi - lo - 1] == mid[hi - lo - 1]);
            assert(mid[hi - lo - 1] == v@[hi - 1]);
        }
        assert(rtrim_seq(mid) == part);
    }
    let mut r: Vec<char> = Vec::new();
    let mut i: usize = lo;
    while i < hi
        invariant
            lo <= i <= hi <= v@.len(),
            r@ == v@.subrange(lo as int, i as int),
        decreases hi - i,
    {
        r.push(v[i]);
        i = i + 1;
        proof {
            assert(r@ =~= v@.subrange(lo as int, i as int));
        }
    }
    proof {
        assert(r@ =~= mid.take(hi - lo));
    }
    r
}

/// `s` with leading and trailing white space removed.
pub fn trim_str(s: &str) -> (r: String)
    ensures
        r@ == trim_seq(s@),
{
    let v = str_to_chars(s);
    let t = trim_chars(&v);
    chars_to_string(&t)
}

/// Whether `c` is a decimal digit.
pub open spec fn is_digit_char(c: char) -> bool {
    '0' <= c && c <= '9'
}

/// The numeric value of a decimal digit.
pub open spec fn digit_val(c: char) -> nat {
    (c as nat - '0' as nat) as nat
}

/// The value of a string of decimal digits, most significant first.
pub open spec fn digits_to_nat(s: Seq<char>) -> nat
    decreases s.len(),
{
    if s.len() == 0 {
        0
    } else {
        digits_to_nat(s.drop_last()) * 10 + digit_val(s.last())
    }
}

/// The decimal digits of `n`, most significant first.
pub open spec fn nat_to_digits(n: nat) -> Seq<char>
    decreases n,
{
    let d = (n % 10) as nat;
    let c = digit_of(d);
    if n < 10 {
        seq![c]
    } else {
        nat_to_digits(n / 10).push(c)
    }
}

/// The digit character for a value below ten.
pub open spec fn digit_of(d: nat) -> char {
    if d == 0 { '0' }
    else if d == 1 { '1' }
    else if d == 2 { '2' }
    else if d == 3 { '3' }
    else if d == 4 { '4' }
    else if d == 5 { '5' }
    else if d == 6 { '6' }
    else if d == 7 { '7' }
    else if d == 8 { '8' }
    else if d == 9 { '9' }
    else { '0' }
}

/// Whether every character is a decimal digit.
pub open spec fn all_digits(s: Seq<char>) -> bool {
    forall|k: int| 0 <= k < s.len() ==> is_digit_char(#[trigger] s[k])
}

/// How `str::parse::<i64>` reads a string: an optional sign followed by at
/// least one decimal digit, rejecting anything else and values out of range.
pub open spec fn parse_i64_spec(s: Seq<char>) -> Option<i64> {
    let neg = s.len() > 0 && s[0] == '-';
    let signed = s.len() > 0 && (s[0] == '-' || s[0] == '+');
    let ds = if signed { s.skip(1) } else { s };
    if ds.len() == 0 {
        None
    } else if !all_digits(ds) {
        None
    } else if neg {
        if digits_to_nat(ds) <= 0x8000_0000_0000_0000 {
            Some((0 - digits_to_nat(ds) as int) as i64)
        } else {
            None
        }
    } else {
        if digits_to_nat(ds) <= 0x7fff_ffff_ffff_ffff {
            Some(digits_to_nat(ds) as i64)
        } else {
            None
        }
    }
}

/// The canonical decimal rendering of an integer.
pub open spec fn int_to_string_spec(n: int) -> Seq<char> {
    if n < 0 {
        seq!['-'] + nat_to_digits((0 - n) as nat)
    } else {
        nat_to_digits(n as nat)
    }
}

/// Appending a digit multiplies the value by ten and adds the digit.
proof fn lemma_digits_push(s: Seq<char>, c: char)
    ensures
        digits_to_nat(s.push(c)) == digits_to_nat(s) * 10 + digit_val(c),
{
    assert(s.push(c).drop_last() =~= s);
    assert(s.push(c).last() == c);
}

/// The digits of `n` really denote `n`.
pub proof fn lemma_digits_of_nat(n: nat)
    ensures
        digits_to_nat(nat_to_digits(n)) == n,
        nat_to_digits(n).len() >= 1,
        forall|k: int| 0 <= k < nat_to_digits(n).len() ==> is_digit_char(#[trigger] nat_to_digits(n)[k]),
        digit_val(digit_of((n % 10) as nat)) == n % 10,
    decreases n,
{
    let d = (n % 10) as nat;
    let c = digit_of(d);
    assert(digit_val(c) == d);
    if n < 10 {
        assert(nat_to_digits(n) == seq![c]);
        assert(digits_to_nat(seq![c]) == digits_to_nat(seq![c].drop_last()) * 10 + digit_val(c));
        assert(seq![c].drop_last() =~= Seq::<char>::empty());
    } else {
        lemma_digits_of_nat(n / 10);
        lemma_digits_push(nat_to_digits(n / 10), c);
    }
}

/// Parsing the canonical rendering of an integer gives the integer back.
pub proof fn lemma_int_string_round_trip(n: i64)
    ensures
        parse_i64_spec(int_to_string_spec(n as int)) == Some(n),
{
    if n >= 0 {
        lemma_digits_of_nat(n as nat);
        let s = nat_to_digits(n as nat);
        assert(is_digit_char(s[0]));
        assert(s[0] != '-' && s[0] != '+');
        assert(parse_i64_spec(s) == Some(n));
    } else {
        let m = (0 - n as int) as nat;
        lemma_digits_of_nat(m);
        let ds = nat_to_digits(m);
        let s = seq!['-'] + ds;
        assert(s[0] == '-');
        assert(s.skip(1) =~= ds);
        assert(m <= 0x8000_0000_0000_0000);
        assert(parse_i64_spec(s) == Some(n));
    }
}


/// What `str::to_lowercase` returns: a function of the characters alone.
pub uninterp spec fn lower_of(s: Seq<char>) -> Seq<char>;

/// What `str::to_uppercase` returns: a function of the characters alone.
pub uninterp spec fn upper_of(s: Seq<char>) -> Seq<char>;

/// Relies on str::to_lowercase: the result depends on the characters alone,
/// and an empty string stays empty.
#[verifier::external_body]
pub fn lowercase(s: &str) -> (r: String)
    ensures
        r@ == lower_of(s@),
        s@.len() == 0 ==> r@.len() == 0,
{
    s.to_lowercase()
}

/// Relies on str::to_uppercase: the result depends on the characters alone,
/// and an empty string stays empty.
#[verifier::external_body]
pub fn uppercase(s: &str) -> (r: String)
    ensures
        r@ == upper_of(s@),
        s@.len() == 0 ==> r@.len() == 0,
{
    s.to_uppercase()
}

/// The digit character for an executable digit value.
pub fn digit_char(d: u64) -> (c: char)
    requires
        d < 10,
    ensures
        c == digit_of(d as nat),
{
    if d == 0 { '0' }
    else if d == 1 { '1' }
    else if d == 2 { '2' }
    else if d == 3 { '3' }
    else if d == 4 { '4' }
    else if d == 5 { '5' }
    else if d == 6 { '6' }
    else if d == 7 { '7' }
    else if d == 8 { '8' }
    else { '9' }
}

pub fn nat_digits_chars(m0: u64) -> (out: Vec<char>)
    ensures
        out@ == nat_to_digits(m0 as nat),
{
    let mut out: Vec<char> = Vec::new();
    let mut m: u64 = m0;
    while m >= 10
        invariant
            nat_to_digits(m0 as nat) == nat_to_digits(m as nat) + out@,
        decreases m,
    {
        let d = digit_char(m % 10);
        proof {
            assert(nat_to_digits(m as nat) == nat_to_digits((m as nat) / 10).push(digit_of(((m as nat) % 10) as nat)));
            assert((m / 10) as nat == (m as nat) / 10);
            assert((m % 10) as nat == (m as nat) % 10);
            assert(nat_to_digits((m / 10) as nat).push(d) =~= nat_to_digits((m / 10) as nat) + seq![d]);
            assert(nat_to_digits((m / 10) as nat) + seq![d] + out@ =~= nat_to_digits((m / 10) as nat) + (seq![d] + out@));
        }
        out.insert(0, d);
        m = m / 10;
    }
    let d = digit_char(m % 10);
    proof {
        assert((m % 10) as nat == m as nat);
        assert(nat_to_digits(m as nat) == seq![d]);
        assert(seq![d] + out@ =~= nat_to_digits(m as nat) + out@);
    }
    out.insert(0, d);
    out
}

/// The canonical decimal rendering of `n`.
pub fn i64_to_chars(n: i64) -> (out: Vec<char>)
    ensures
        out@ == int_to_string_spec(n as int),
{
    if n >= 0 {
        nat_digits_chars(n as u64)
    } else {
        let m: u64 = if n == i64::MIN {
            9223372036854775808u64
        } else {
            (-n) as u64
        };
        proof {
            assert(m as nat == (0 - n as int) as nat);
        }
        let mut out = nat_digits_chars(m);
        out.insert(0, '-');
        proof {
            assert(out@ =~= seq!['-'] + nat_to_digits((0 - n as int) as nat));
        }
        out
    }
}

/// Appending more digits can only keep or grow the denoted value.
proof fn lemma_digits_take_monotonic(s: Seq<char>, i: int)
    requires
        0 <= i <= s.len(),
    ensures
        digits_to_nat(s.take(i)) <= digits_to_nat(s),
    decreases s.len() - i,
{
    if i < s.len() {
        lemma_digits_push(s.take(i), s[i]);
        assert(s.take(i).push(s[i]) =~= s.take(i + 1));
        assert(digits_to_nat(s.take(i)) <= digits_to_nat(s.take(i + 1)));
        lemma_digits_take_monotonic(s, i + 1);
    } else {
        assert(s.take(i) =~= s);
    }
}

/// How `str::parse::<i64>` reads the characters of `s`.
pub fn parse_i64_chars(s: &Vec<char>) -> (r: Option<i64>)
    ensures
        r == parse_i64_spec(s@),
{
    let n = s.len();
    if n == 0 {
        return None;
    }
    let c0 = s[0];
    let neg = c0 == '-';
    let signed = c0 == '-' || c0 == '+';
    let start: usize = if signed { 1 } else { 0 };
    let ghost ds = if signed { s@.skip(1) } else { s@ };
    let threshold: u64 = 922337203685477580u64;
    let last_max: u64 = if neg { 8 } else { 7 };
    let ghost limit: nat = if neg { 0x8000_0000_0000_0000nat } else { 0x7fff_ffff_ffff_ffffnat };
    if n == start {
        proof {
            assert(ds.len() == 0);
        }
        return None;
    }
    let mut acc: u64 = 0;
    let mut i: usize = start;
    while i < n
        invariant
            start <= i <= n,
            n == s@.len(),
            neg == (s@.len() > 0 && s@[0] == '-'),
            signed == (s@.len() > 0 && (s@[0] == '-' || s@[0] == '+')),
            start == if signed { 1int } else { 0int },
            ds == if signed { s@.skip(1) } else { s@ },
            limit == if neg { 0x8000_0000_0000_0000nat } else { 0x7fff_ffff_ffff_ffffnat },
            threshold == 922337203685477580u64,
            last_max == if neg { 8u64 } else { 7u64 },
            forall|k: int| 0 <= k < i - start ==> is_digit_char(#[trigger] ds[k]),
            acc as nat == digits_to_nat(ds.take(i - start)),
            acc as nat <= limit,
        decreases n - i,
    {
        let c = s[i];
        proof {
            assert(ds[i - start] == s@[i as int]);
        }
        if !(c >= '0' && c <= '9') {
            proof {
                assert(0 <= i - start < ds.len());
                assert(!is_digit_char(ds[i - start]));
                assert(!all_digits(ds));
                assert(parse_i64_spec(s@) is None);
            }
            return None;
        }
        let d: u64 = (c as u32 - '0' as u32) as u64;
        proof {
            assert(is_digit_char(ds[i - start]));
            assert(d as nat == digit_val(c));
            assert(d < 10);
        }
        if acc > threshold || (acc == threshold && d > last_max) {
            proof {
                lemma_digits_push(ds.take(i - start), c);
                assert(ds.take(i - start).push(c) =~= ds.take(i + 1 - start));
                assert(digits_to_nat(ds.take(i + 1 - start)) > limit);
                lemma_digits_take_monotonic(ds, i + 1 - start);
                assert(digits_to_nat(ds) > limit);
                assert(parse_i64_spec(s@) is None);
            }
            return None;
        }
        proof {
            lemma_digits_push(ds.take(i - start), c);
            assert(ds.take(i - start).push(c) =~= ds.take(i + 1 - start));
        }
        acc = acc * 10 + d;
        i = i + 1;
    }
    proof {
        assert(ds.take(n - start) =~= ds);
        assert(acc as nat == digits_to_nat(ds));
    }
    if neg {
        if acc == 9223372036854775808u64 {
            proof {
                assert(parse_i64_spec(s@) == Some(i64::MIN));
            }
            Some(i64::MIN)
        } else {
            let v = -(acc as i64);
            proof {
                assert(v as int == 0 - digits_to_nat(ds) as int);
            }
            Some(v)
        }
    } else {
        Some(acc as i64)
    }
}


/// Whether two strings hold the same characters.
pub fn str_eq(a: &str, b: &str) -> (r: bool)
    ensures
        r == (a@ == b@),
{
    let va = str_to_chars(a);
    let vb = str_to_chars(b);
    if va.len() != vb.len() {
        return false;
    }
    let r = match_at(&va, &vb, 0);
    proof {
        if a@ == b@ {
            assert(a@.subrange(0, b@.len() as int) =~= b@);
        }
        if r {
            assert(a@.subrange(0, b@.len() as int) =~= a@);
        }
    }
    r
}


/// The characters of `v` between `from` and `to`.
pub fn vec_range(v: &Vec<char>, from: usize, to: usize) -> (out: Vec<char>)
    requires
        from <= to <= v@.len(),
    ensures
        out@ == v@.subrange(from as int, to as int),
{
    let mut out: Vec<char> = Vec::new();
    let mut i: usize = from;
    while i < to
        invariant
            from <= i <= to <= v@.len(),
            out@ == v@.subrange(from as int, i as int),
        decreases to - i,
    {
        out.push(v[i]);
        i = i + 1;
        proof {
            assert(out@ =~= v@.subrange(from as int, i as int));
        }
    }
    proof {
        assert(out@ =~= v@.subrange(from as int, to as int));
    }
    out
}

/// Appends every character of `v`.
pub fn push_all(out: &mut Vec<char>, v: &Vec<char>)
    ensures
        final(out)@ == old(out)@ + v@,
{
    let mut i: usize = 0;
    while i < v.len()
        invariant
            i <= v@.len(),
            out@ == old(out)@ + v@.take(i as int),
        decreases v@.len() - i,
    {
        out.push(v[i]);
        i = i + 1;
        proof {
            assert(out@ =~= old(out)@ + v@.take(i as int));
        }
    }
    proof {
        assert(out@ =~= old(out)@ + v@);
    }
}

/// Searching the whole string agrees with searching its tail.
pub proof fn lemma_find_shift(s: Seq<char>, pat: Seq<char>, base: int, i: int)
    requires
        0 <= base <= s.len(),
        base <= i <= s.len(),
    ensures
        find_from(s, pat, i) == match find_from(s.skip(base), pat, i - base) {
            Some(j) => Some(j + base),
            None => None::<int>,
        },
    decreases s.len() - i,
{
    lemma_matches_skip(s, pat, base, i - base);
    if matches_at(s, pat, i) {
    } else if i == s.len() {
    } else {
        lemma_find_shift(s, pat, base, i + 1);
    }
}


/// Whether two character vectors hold the same characters.
pub fn chars_eq(a: &Vec<char>, b: &Vec<char>) -> (r: bool)
    ensures
        r == (a@ == b@),
{
    if a.len() != b.len() {
        return false;
    }
    let r = match_at(a, b, 0);
    proof {
        if a@ == b@ {
            assert(a@.subrange(0, b@.len() as int) =~= b@);
        }
        if r {
            assert(a@.subrange(0, b@.len() as int) =~= a@);
        }
    }
    r
}


/// The character vectors of `vs` from position `start` on, copied.
pub fn copy_chars_range(vs: &Vec<Vec<char>>, start: usize) -> (out: Vec<Vec<char>>)
    requires
        start <= vs@.len(),
    ensures
        out@.len() == vs@.len() - start,
        forall|k: int| 0 <= k < out@.len() ==> #[trigger] out@[k]@ == vs@[start + k]@,
    decreases vs@.len() - start,
{
    if start == vs.len() {
        Vec::new()
    } else {
        let mut rest = copy_chars_range(vs, start + 1);
        let piece = vec_range(&vs[start], 0, vs[start].len());
        proof {
            assert(piece@ =~= vs@[start as int]@);
        }
        rest.insert(0, piece);
        rest
    }
}


/// Why a decimal integer fails to parse, in the words `str::parse` uses:
/// an empty string, a stray character, or a value out of range.
pub open spec fn parse_i64_cause(s: Seq<char>) -> Seq<char> {
    let signed = s.len() > 0 && (s[0] == '-' || s[0] == '+');
    let ds = if signed { s.skip(1) } else { s };
    if s.len() == 0 {
        "cannot parse integer from empty string"@
    } else if ds.len() == 0 || !all_digits(ds) {
        "invalid digit found in string"@
    } else if s[0] == '-' {
        "number too small to fit in target type"@
    } else {
        "number too large to fit in target type"@
    }
}

/// The cause a failing decimal parse reports.
pub fn parse_i64_cause_str(v: &Vec<char>) -> (r: &'static str)
    ensures
        r@ == parse_i64_cause(v@),
{
    let n = v.len();
    if n == 0 {
        return "cannot parse integer from empty string";
    }
    let c0 = v[0];
    let signed = c0 == '-' || c0 == '+';
    let start: usize = if signed { 1 } else { 0 };
    let ghost ds = if signed { v@.skip(1) } else { v@ };
    if n == start {
        proof {
            assert(ds.len() == 0);
        }
        return "invalid digit found in string";
    }
    let mut i: usize = start;
    while i < n
        invariant
            start <= i <= n,
            n == v@.len(),
            signed == (v@.len() > 0 && (v@[0] == '-' || v@[0] == '+')),
            start == if signed { 1int } else { 0int },
            ds == if signed { v@.skip(1) } else { v@ },
            forall|k: int| 0 <= k < i - start ==> is_digit_char(#[trigger] ds[k]),
        decreases n - i,
    {
        let c = v[i];
        proof {
            assert(ds[i - start] == v@[i as int]);
        }
        if !(c >= '0' && c <= '9') {
            proof {
                assert(!is_digit_char(ds[i - start]));
                assert(!all_digits(ds));
            }
            return "invalid digit found in string";
        }
        i = i + 1;
    }
    proof {
        assert(all_digits(ds));
    }
    if c0 == '-' {
        "number too small to fit in target type"
    } else {
        "number too large to fit in target type"
    }
}

} // verus!
