//! Reading a control-query response: line-oriented text in which one line
//! starts with a volume marker followed by a fractional number, optionally
//! followed by a bracketed mute marker. The fraction is converted to an
//! integer percentage by multiplying by one hundred and truncating toward
//! zero, computed here exactly on the decimal digits.
use vstd::prelude::*;

use crate::text::lemma_digits_val_nonneg;
use crate::text::spec_all_digits;
use crate::text::spec_digit_val;
use crate::text::spec_digits_val;
use crate::text::spec_is_digit;
use crate::text::str_eq;

verus! {

/// The first index of `t` whose character satisfies `p`, or `t.len()`.
pub open spec fn spec_scan(t: Seq<char>, p: spec_fn(char) -> bool) -> nat
    decreases t.len(),
{
    if t.len() == 0 {
        0
    } else if p(t[0]) {
        0
    } else {
        (1 + spec_scan(t.drop_first(), p)) as nat
    }
}

/// An index below which no character satisfies `p`, and at which one does
/// (or the end), is exactly where the scan stops.
pub proof fn lemma_scan_at(t: Seq<char>, p: spec_fn(char) -> bool, i: int)
    requires
        0 <= i <= t.len(),
        forall|k: int| 0 <= k < i ==> !p(#[trigger] t[k]),
        i < t.len() ==> p(t[i]),
    ensures
        spec_scan(t, p) == i,
    decreases i,
{
    if i == 0 {
    } else {
        assert(!p(t[0]));
        lemma_scan_at(t.drop_first(), p, i - 1);
    }
}

/// A blank character inside one line of a response.
pub open spec fn spec_is_space(c: char) -> bool {
    c == ' ' || c == '\t' || c == '\r'
}

/// Index of the first line feed in `s`, or its length.
pub open spec fn spec_line_break(s: Seq<char>) -> nat {
    spec_scan(s, |c: char| c == '\n')
}

/// One line as yielded: a carriage return directly before the line feed is
/// not part of it.
pub open spec fn spec_strip_cr(l: Seq<char>) -> Seq<char> {
    if l.len() > 0 && l.last() == '\r' {
        l.drop_last()
    } else {
        l
    }
}

/// The lines of `s`, split at line feeds, each stripped of a carriage
/// return before its line feed; a final piece without a line feed is kept
/// as it stands, and a trailing line feed yields no extra empty line.
pub open spec fn spec_split_lines(s: Seq<char>) -> Seq<Seq<char>>
    decreases s.len(),
{
    if s.len() == 0 {
        Seq::empty()
    } else {
        let i = spec_line_break(s);
        if i >= s.len() {
            seq![s]
        } else {
            seq![spec_strip_cr(s.take(i as int))] + spec_split_lines(s.skip(i + 1int))
        }
    }
}

/// The first blank-separated token of `t`, if `t` holds any non-blank
/// character.
pub open spec fn spec_first_token(t: Seq<char>) -> Option<Seq<char>> {
    let a = spec_scan(t, |c: char| !spec_is_space(c));
    if a >= t.len() {
        Option::None
    } else {
        let rest = t.skip(a as int);
        Option::Some(rest.take(spec_scan(rest, |c: char| spec_is_space(c)) as int))
    }
}

/// The value a fraction's first two fractional digits contribute to the
/// percentage.
pub open spec fn spec_frac_pct(fpart: Seq<char>) -> int {
    (if fpart.len() >= 1 {
        spec_digit_val(fpart[0]) * 10
    } else {
        0
    }) + (if fpart.len() >= 2 {
        spec_digit_val(fpart[1])
    } else {
        0
    })
}

/// A non-negative value clamped into `u32` range.
pub open spec fn spec_sat_u32(v: int) -> u32 {
    if v > u32::MAX {
        u32::MAX
    } else {
        v as u32
    }
}

/// The percentage an unsigned decimal fraction denotes, truncated toward
/// zero: digits, at most one dot, at least one digit in all. Anything else
/// is not a number.
pub open spec fn spec_fraction_pct(t: Seq<char>) -> Option<u32> {
    let d = spec_scan(t, |c: char| c == '.');
    let ipart = t.take(d as int);
    let fpart = if d < t.len() {
        t.skip(d + 1int)
    } else {
        Seq::empty()
    };
    if ipart.len() + fpart.len() > 0 && spec_all_digits(ipart) && spec_all_digits(fpart) {
        Option::Some(spec_sat_u32(spec_digits_val(ipart) * 100 + spec_frac_pct(fpart)))
    } else {
        Option::None
    }
}

/// What one line contributes: the parsed percentage when the line starts
/// with the volume marker and its first token after the marker is a
/// fraction.
pub open spec fn spec_line_volume(l: Seq<char>) -> Option<u32> {
    if l.len() >= 7 && l.take(7) == "Volume:"@ {
        match spec_first_token(l.skip(7)) {
            Option::Some(tok) => spec_fraction_pct(tok),
            Option::None => Option::None,
        }
    } else {
        Option::None
    }
}

/// The first line that contributes a percentage decides.
pub open spec fn spec_scan_volume(lines: Seq<Seq<char>>) -> Option<u32>
    decreases lines.len(),
{
    if lines.len() == 0 {
        Option::None
    } else {
        match spec_line_volume(lines[0]) {
            Option::Some(p) => Option::Some(p),
            Option::None => spec_scan_volume(lines.drop_first()),
        }
    }
}

/// The volume percentage a whole response text yields, if any line does.
pub open spec fn spec_volume_pct(s: Seq<char>) -> Option<u32> {
    spec_scan_volume(spec_split_lines(s))
}

/// Whether the response text holds the bracketed mute marker anywhere.
pub open spec fn spec_contains_mute_marker(s: Seq<char>) -> bool {
    exists|i: int| 0 <= i && i + 7 <= s.len() && #[trigger] s.subrange(i, i + 7) == "[MUTED]"@
}

/// Whether `c` is blank, as `spec_is_space` says.
fn is_space_char(c: char) -> (r: bool)
    ensures
        r == spec_is_space(c),
{
    c == ' ' || c == '\t' || c == '\r'
}

/// Splits a response into its lines.
pub fn split_lines(s: &str) -> (r: Vec<String>)
    ensures
        r.deep_view() == spec_split_lines(s@),
{
    let n = s.unicode_len();
    let mut r: Vec<String> = Vec::new();
    let mut pos: usize = 0;
    proof {
        assert(r.deep_view() =~= Seq::<Seq<char>>::empty());
        assert(s@.skip(0) =~= s@);
        assert(Seq::<Seq<char>>::empty() + spec_split_lines(s@) =~= spec_split_lines(s@));
    }
    while pos < n
        invariant
            pos <= n,
            n == s@.len(),
            spec_split_lines(s@) == r.deep_view() + spec_split_lines(s@.skip(pos as int)),
        decreases n - pos,
    {
        let ghost prev = r.deep_view();
        let ghost t = s@.skip(pos as int);
        // find the next line feed
        let mut j: usize = pos;
        while j < n
            invariant_except_break
                pos <= j <= n,
                n == s@.len(),
                forall|k: int| pos <= k < j ==> s@[k] != '\n',
            ensures
                pos <= j <= n,
                n == s@.len(),
                forall|k: int| pos <= k < j ==> s@[k] != '\n',
                j < n ==> s@[j as int] == '\n',
            decreases n - j,
        {
            if s.get_char(j) == '\n' {
                break;
            }
            j += 1;
        }
        proof {
            assert forall|k: int| 0 <= k < j - pos implies !((|c: char| c == '\n')(t[k])) by {
                assert(t[k] == s@[pos + k]);
            }
            assert(j < n ==> (|c: char| c == '\n')(t[j - pos]));
            lemma_scan_at(t, |c: char| c == '\n', j - pos);
        }
        // the line runs to the line feed, less a carriage return before it
        let mut end: usize = j;
        if j < n {
            if end > pos && s.get_char(end - 1) == '\r' {
                end -= 1;
            }
        }
        let piece: &str = s.substring_char(pos, end);
        r.push(piece.to_owned());
        proof {
            let i = spec_line_break(t) as int;
            assert(i == j - pos);
            assert(r.deep_view() =~= prev.push(piece@));
            if j < n {
                assert(t.take(i) =~= s@.subrange(pos as int, j as int));
                assert(spec_strip_cr(t.take(i)) =~= s@.subrange(pos as int, end as int)) by {
                    if j > pos && s@[j - 1] == '\r' {
                        assert(t.take(i).last() == s@[j - 1]);
                        assert(t.take(i).drop_last() =~= s@.subrange(pos as int, j - 1));
                    } else {
                        if t.take(i).len() > 0 {
                            assert(t.take(i).last() == s@[j - 1]);
                        }
                    }
                }
                assert(t.skip(i + 1) =~= s@.skip(j + 1));
                assert(spec_split_lines(t) == seq![piece@] + spec_split_lines(s@.skip(j + 1)));
                assert(prev + spec_split_lines(t) =~= r.deep_view() + spec_split_lines(
                    s@.skip(j + 1),
                ));
            } else {
                assert(t =~= s@.subrange(pos as int, end as int));
                assert(spec_split_lines(t) == seq![piece@]);
                assert(spec_split_lines(s@.skip(n as int)) =~= Seq::<Seq<char>>::empty());
                assert(prev + spec_split_lines(t) =~= r.deep_view() + spec_split_lines(
                    s@.skip(n as int),
                ));
            }
        }
        if j < n {
            pos = j + 1;
        } else {
            pos = n;
        }
    }
    proof {
        assert(s@.skip(n as int) =~= Seq::<char>::empty());
        assert(spec_split_lines(s@.skip(n as int)) =~= Seq::<Seq<char>>::empty());
        assert(r.deep_view() + Seq::<Seq<char>>::empty() =~= r.deep_view());
    }
    r
}

/// Reads an unsigned decimal fraction as a truncated percentage.
#[verifier::loop_isolation(false)]
pub fn parse_fraction(t: &str) -> (r: Option<u32>)
    ensures
        r == spec_fraction_pct(t@),
{
    let n = t.unicode_len();
    // find the first dot
    let mut d: usize = n;
    let mut k: usize = 0;
    while k < n
        invariant
            k <= n,
            d == n || d < k,
            d == n ==> forall|x: int| 0 <= x < k ==> t@[x] != '.',
            d < n ==> t@[d as int] == '.' && (forall|x: int| 0 <= x < d ==> t@[x] != '.'),
        decreases n - k,
    {
        if d == n && t.get_char(k) == '.' {
            d = k;
        }
        k += 1;
    }
    proof {
        assert forall|x: int| 0 <= x < d implies !((|c: char| c == '.')(t@[x])) by {}
        assert(d < n ==> (|c: char| c == '.')(t@[d as int]));
        lemma_scan_at(t@, |c: char| c == '.', d as int);
    }
    let ghost ipart = t@.take(d as int);
    let ghost fpart = if (d as int) < t@.len() {
        t@.skip(d + 1)
    } else {
        Seq::<char>::empty()
    };
    if d == 0 && n <= 1 {
        // no digits at all: the empty token or a lone dot
        return None;
    }
    // integer part: all digits, value saturated just past u32 range
    let mut acc: u64 = 0;
    let mut i: usize = 0;
    while i < d
        invariant
            i <= d <= n,
            n == t@.len(),
            ipart == t@.take(d as int),
            spec_all_digits(ipart.take(i as int)),
            acc <= u32::MAX as u64 + 1,
            acc <= u32::MAX as u64 ==> acc == spec_digits_val(ipart.take(i as int)),
            acc == u32::MAX as u64 + 1 ==> spec_digits_val(ipart.take(i as int)) > u32::MAX,
        decreases d - i,
    {
        let c: char = t.get_char(i);
        let cv: u32 = c as u32;
        proof {
            assert(ipart[i as int] == t@[i as int]);
        }
        if cv < 48 || cv > 57 {
            proof {
                assert(!spec_is_digit(ipart[i as int]));
                assert(!spec_all_digits(ipart));
            }
            return None;
        }
        let dd: u64 = (cv - 48) as u64;
        proof {
            assert(ipart.take(i + 1).drop_last() =~= ipart.take(i as int));
            assert(ipart.take(i + 1).last() == ipart[i as int]);
            lemma_digits_val_nonneg(ipart.take(i as int));
        }
        if acc <= u32::MAX as u64 {
            acc = acc * 10 + dd;
            if acc > u32::MAX as u64 {
                acc = u32::MAX as u64 + 1;
            }
        }
        i += 1;
    }
    proof {
        assert(ipart.take(d as int) =~= ipart);
    }
    // fractional part: all digits, of which the first two count
    let mut f: u64 = 0;
    if d < n {
        let mut j: usize = d + 1;
        while j < n
            invariant
                d + 1 <= j <= n,
                n == t@.len(),
                fpart == t@.skip(d + 1),
                d < n,
                spec_all_digits(fpart.take(j - d - 1)),
            decreases n - j,
        {
            let c: char = t.get_char(j);
            let cv: u32 = c as u32;
            proof {
                assert(fpart[j - d - 1] == t@[j as int]);
            }
            if cv < 48 || cv > 57 {
                proof {
                    assert(!spec_is_digit(fpart[j - d - 1]));
                    assert(!spec_all_digits(fpart));
                }
                return None;
            }
            proof {
                assert(fpart.take(j - d) =~= fpart.take(j - d - 1).push(fpart[j - d - 1]));
                assert(forall|k: int|
                    0 <= k < j - d ==> spec_is_digit(#[trigger] fpart.take(j - d)[k]));
            }
            j += 1;
        }
        proof {
            assert(fpart.take(n - d - 1) =~= fpart);
        }
        if n > d + 1 {
            let c1: u32 = t.get_char(d + 1) as u32;
            proof {
                assert(fpart[0] == t@[d + 1]);
                assert(spec_is_digit(fpart[0]));
            }
            f = ((c1 - 48) * 10) as u64;
            if n > d + 2 {
                let c2: u32 = t.get_char(d + 2) as u32;
                proof {
                    assert(fpart[1] == t@[d + 2]);
                    assert(spec_is_digit(fpart[1]));
                }
                f = f + (c2 - 48) as u64;
            }
        }
    }
    proof {
        lemma_digits_val_nonneg(ipart);
        if fpart.len() >= 1 {
            assert(spec_is_digit(fpart[0]));
        }
        if fpart.len() >= 2 {
            assert(spec_is_digit(fpart[1]));
        }
    }
    if acc > u32::MAX as u64 {
        return Some(u32::MAX);
    }
    let pct: u64 = acc * 100 + f;
    if pct > u32::MAX as u64 {
        Some(u32::MAX)
    } else {
        Some(pct as u32)
    }
}

/// What one line of the response contributes.
fn line_volume(l: &str) -> (r: Option<u32>)
    ensures
        r == spec_line_volume(l@),
{
    let n = l.unicode_len();
    if n < 7 {
        return None;
    }
    let head: &str = l.substring_char(0, 7);
    proof {
        assert(head@ =~= l@.take(7));
    }
    if !str_eq(head, "Volume:") {
        return None;
    }
    let rest: &str = l.substring_char(7, n);
    let ghost rv = l@.skip(7);
    proof {
        assert(rest@ =~= rv);
    }
    let m = n - 7;
    // skip blanks before the token
    let mut a: usize = 0;
    while a < m
        invariant_except_break
            a <= m,
            m == rv.len(),
            rest@ == rv,
            forall|k: int| 0 <= k < a ==> spec_is_space(#[trigger] rv[k]),
        ensures
            a <= m,
            m == rv.len(),
            rest@ == rv,
            forall|k: int| 0 <= k < a ==> spec_is_space(#[trigger] rv[k]),
            a < m ==> !spec_is_space(rv[a as int]),
        decreases m - a,
    {
        if !is_space_char(rest.get_char(a)) {
            break;
        }
        a += 1;
    }
    proof {
        assert forall|k: int| 0 <= k < a implies !((|c: char| !spec_is_space(c))(rv[k])) by {}
        lemma_scan_at(rv, |c: char| !spec_is_space(c), a as int);
    }
    if a == m {
        // only blanks: no token on this line
        return None;
    }
    // the token runs to the next blank
    let mut b: usize = a;
    while b < m
        invariant_except_break
            a <= b <= m,
            m == rv.len(),
            rest@ == rv,
            forall|k: int| a <= k < b ==> !spec_is_space(#[trigger] rv[k]),
        ensures
            a <= b <= m,
            m == rv.len(),
            rest@ == rv,
            forall|k: int| a <= k < b ==> !spec_is_space(#[trigger] rv[k]),
            b < m ==> spec_is_space(rv[b as int]),
        decreases m - b,
    {
        if is_space_char(rest.get_char(b)) {
            break;
        }
        b += 1;
    }
    let ghost within = rv.skip(a as int);
    proof {
        assert forall|k: int| 0 <= k < b - a implies !((|c: char| spec_is_space(c))(within[k])) by {
            assert(within[k] == rv[a + k]);
        }
        assert(b < m ==> (|c: char| spec_is_space(c))(within[b - a]));
        lemma_scan_at(within, |c: char| spec_is_space(c), b - a);
    }
    let tok: &str = rest.substring_char(a, b);
    proof {
        assert(tok@ =~= within.take(b - a));
    }
    parse_fraction(tok)
}

/// Reads the volume percentage out of a control-query response, if one of
/// its lines carries it.
pub fn parse_volume_response(s: &str) -> (r: Option<u32>)
    ensures
        r == spec_volume_pct(s@),
{
    let lines = split_lines(s);
    let ghost dv = lines.deep_view();
    let n = lines.len();
    proof {
        assert(dv.len() == n);
    }
    let mut i: usize = 0;
    proof {
        assert(dv.skip(0) =~= dv);
    }
    while i < n
        invariant
            i <= n,
            n == lines@.len(),
            dv == lines.deep_view(),
            dv.len() == n,
            spec_scan_volume(dv.skip(i as int)) == spec_scan_volume(dv),
            spec_volume_pct(s@) == spec_scan_volume(dv),
        decreases n - i,
    {
        proof {
            assert(lines@[i as int]@ == dv[i as int]);
            assert(dv.skip(i as int)[0] == dv[i as int]);
        }
        match line_volume(lines[i].as_str()) {
            Some(p) => {
                return Some(p);
            },
            None => {
                proof {
                    assert(dv.skip(i as int).drop_first() =~= dv.skip(i + 1));
                }
            },
        }
        i += 1;
    }
    proof {
        assert(dv.skip(n as int) =~= Seq::<Seq<char>>::empty());
    }
    None
}

/// Whether a control-query response reports the sink muted: the bracketed
/// mute marker appears in it.
pub fn parse_mute_response(s: &str) -> (r: bool)
    ensures
        r == spec_contains_mute_marker(s@),
{
    let n = s.unicode_len();
    if n < 7 {
        return false;
    }
    let mut i: usize = 0;
    while i <= n - 7
        invariant
            7 <= n,
            n == s@.len(),
            i <= n - 7 + 1,
            forall|k: int| 0 <= k < i ==> #[trigger] s@.subrange(k, k + 7) != "[MUTED]"@,
        decreases n - i,
    {
        let w: &str = s.substring_char(i, i + 7);
        if str_eq(w, "[MUTED]") {
            proof {
                assert(w@ =~= s@.subrange(i as int, i + 7));
            }
            return true;
        }
        proof {
            assert(w@ =~= s@.subrange(i as int, i + 7));
        }
        i += 1;
    }
    false
}

} // verus!
