//! Reading the daemon's listen address out of the socket listings that the
//! system tools print (`ss` on Linux, `lsof` on macOS).
use vstd::prelude::*;
use vstd::string::*;
use crate::model::opt_view;

verus! {

/// Unicode white space, which separates the columns of a listing.
pub open spec fn is_ws(c: char) -> bool {
    let x = c as u32;
    (9 <= x && x <= 13) || x == 32 || x == 0x85 || x == 0xa0 || x == 0x1680 || (0x2000 <= x && x
        <= 0x200a) || x == 0x2028 || x == 0x2029 || x == 0x202f || x == 0x205f || x == 0x3000
}

fn is_ws_exec(c: char) -> (r: bool)
    ensures
        r == is_ws(c),
{
    let x = c as u32;
    (9 <= x && x <= 13) || x == 32 || x == 0x85 || x == 0xa0 || x == 0x1680 || (0x2000 <= x && x
        <= 0x200a) || x == 0x2028 || x == 0x2029 || x == 0x202f || x == 0x205f || x == 0x3000
}

pub open spec fn spans_view(v: Seq<(usize, usize)>) -> Seq<(int, int)> {
    v.map_values(|p: (usize, usize)| (p.0 as int, p.1 as int))
}

/// The words of `s[lo..i)` that are complete, and the start of the word
/// still open at `i`.
pub open spec fn word_scan(s: Seq<char>, lo: int, i: int) -> (Seq<(int, int)>, Option<int>)
    decreases i - lo,
{
    if i <= lo {
        (seq![], None)
    } else {
        let prev = word_scan(s, lo, i - 1);
        if is_ws(s[i - 1]) {
            match prev.1 {
                Some(st) => (prev.0.push((st, i - 1)), None),
                None => (prev.0, None),
            }
        } else {
            match prev.1 {
                Some(st) => (prev.0, Some(st)),
                None => (prev.0, Some(i - 1)),
            }
        }
    }
}

/// The maximal runs of non-white-space characters of `s[lo..hi)`, as
/// `(start, end)` positions, in order.
pub open spec fn word_spans(s: Seq<char>, lo: int, hi: int) -> Seq<(int, int)> {
    let r = word_scan(s, lo, hi);
    match r.1 {
        Some(st) => r.0.push((st, hi)),
        None => r.0,
    }
}

/// The lines of `s[0..i)` that are complete, and the start of the open one.
pub open spec fn line_scan(s: Seq<char>, i: int) -> (Seq<(int, int)>, int)
    decreases i,
{
    if i <= 0 {
        (seq![], 0)
    } else {
        let prev = line_scan(s, i - 1);
        if s[i - 1] == '\n' {
            (prev.0.push((prev.1, i - 1)), i)
        } else {
            prev
        }
    }
}

/// The lines of `s`, split at each newline, as `(start, end)` positions.
pub open spec fn line_spans(s: Seq<char>) -> Seq<(int, int)> {
    let r = line_scan(s, s.len() as int);
    r.0.push((r.1, s.len() as int))
}

/// The last position in `s[a..k)` that holds `c`.
pub open spec fn last_index_of(s: Seq<char>, c: char, a: int, k: int) -> Option<int>
    decreases k - a,
{
    if k <= a {
        None
    } else if s[k - 1] == c {
        Some(k - 1)
    } else {
        last_index_of(s, c, a, k - 1)
    }
}

/// The first position in `s[i..b)` that holds `c`.
pub open spec fn first_index_of(s: Seq<char>, c: char, i: int, b: int) -> Option<int>
    decreases b - i,
{
    if i >= b {
        None
    } else if s[i] == c {
        Some(i)
    } else {
        first_index_of(s, c, i + 1, b)
    }
}

/// A line of `ss -tlnH`: its fourth column is `address:port`; the address
/// is what precedes the last colon, with the wildcard forms made 0.0.0.0.
pub open spec fn ss_line_address(s: Seq<char>, line: (int, int)) -> Option<Seq<char>> {
    let w = word_spans(s, line.0, line.1);
    if w.len() >= 4 {
        match last_index_of(s, ':', w[3].0, w[3].1) {
            Some(k) => {
                let addr = s.subrange(w[3].0, k);
                Some(
                    if addr == "*"@ || addr == "0.0.0.0"@ || addr == "::"@ {
                        "0.0.0.0"@
                    } else {
                        addr
                    },
                )
            },
            None => None,
        }
    } else {
        None
    }
}

/// The address in the last of the first `k` columns that holds a colon and
/// does not start with a parenthesis: what precedes its first colon, with
/// `*` made 0.0.0.0.
pub open spec fn lsof_pick(s: Seq<char>, w: Seq<(int, int)>, k: int) -> Option<Seq<char>>
    decreases k,
{
    if k <= 0 || k > w.len() {
        None
    } else {
        let a = w[k - 1].0;
        let b = w[k - 1].1;
        match first_index_of(s, ':', a, b) {
            Some(c) => if s[a] != '(' {
                let addr = s.subrange(a, c);
                Some(
                    if addr == "*"@ {
                        "0.0.0.0"@
                    } else {
                        addr
                    },
                )
            } else {
                lsof_pick(s, w, k - 1)
            },
            None => lsof_pick(s, w, k - 1),
        }
    }
}

/// A line of `lsof -i :port -sTCP:LISTEN -n -P` with at least nine columns.
pub open spec fn lsof_line_address(s: Seq<char>, line: (int, int)) -> Option<Seq<char>> {
    let w = word_spans(s, line.0, line.1);
    if w.len() >= 9 {
        lsof_pick(s, w, w.len() as int)
    } else {
        None
    }
}

pub open spec fn line_address(s: Seq<char>, line: (int, int), lsof: bool) -> Option<Seq<char>> {
    if lsof {
        lsof_line_address(s, line)
    } else {
        ss_line_address(s, line)
    }
}

/// The address of the first line, from line `k` on, that gives one.
pub open spec fn first_address(s: Seq<char>, lines: Seq<(int, int)>, k: int, lsof: bool) -> Option<
    Seq<char>,
>
    decreases lines.len() - k,
{
    if k < 0 || k >= lines.len() {
        None
    } else {
        match line_address(s, lines[k], lsof) {
            Some(a) => Some(a),
            None => first_address(s, lines, k + 1, lsof),
        }
    }
}

pub(crate) fn chars_of(s: &str) -> (r: Vec<char>)
    ensures
        r@ == s@,
{
    let n = s.unicode_len();
    let mut v: Vec<char> = Vec::new();
    let mut i: usize = 0;
    while i < n
        invariant
            i <= n,
            n == s@.len(),
            v@ == s@.subrange(0, i as int),
        decreases n - i,
    {
        v.push(s.get_char(i));
        i = i + 1;
        assert(v@ =~= s@.subrange(0, i as int));
    }
    assert(v@ =~= s@);
    v
}

pub(crate) fn words(cs: &Vec<char>, lo: usize, hi: usize) -> (r: Vec<(usize, usize)>)
    requires
        lo <= hi <= cs@.len(),
    ensures
        spans_view(r@) == word_spans(cs@, lo as int, hi as int),
        forall|k: int| 0 <= k < r@.len() ==> lo <= (#[trigger] r@[k]).0 < r@[k].1 <= hi,
        forall|k1: int, k2: int| 0 <= k1 < k2 < r@.len() ==> (#[trigger] r@[k1]).1 <= (#[trigger] r@[k2]).0,
{
    let mut out: Vec<(usize, usize)> = Vec::new();
    let mut cur: Option<usize> = None;
    let mut i: usize = lo;
    while i < hi
        invariant
            lo <= i <= hi <= cs@.len(),
            (spans_view(out@), crate::text::opt_int(cur)) == word_scan(cs@, lo as int, i as int),
            forall|k: int| 0 <= k < out@.len() ==> lo <= (#[trigger] out@[k]).0 < out@[k].1 <= i,
            forall|k1: int, k2: int| 0 <= k1 < k2 < out@.len() ==> (#[trigger] out@[k1]).1 <= (#[trigger] out@[k2]).0,
            cur matches Some(st) ==> lo <= st < i,
            cur matches Some(st) ==> forall|k: int| 0 <= k < out@.len() ==> (#[trigger] out@[k]).1 <= st,
        decreases hi - i,
    {
        let ghost old_out = out@;
        if is_ws_exec(cs[i]) {
            match cur {
                Some(st) => {
                    out.push((st, i));
                    assert(spans_view(out@) =~= spans_view(old_out).push((st as int, i as int)));
                    cur = None;
                },
                None => {},
            }
        } else {
            match cur {
                Some(_) => {},
                None => {
                    cur = Some(i);
                },
            }
        }
        i = i + 1;
    }
    match cur {
        Some(st) => {
            let ghost old_out = out@;
            out.push((st, hi));
            assert(spans_view(out@) =~= spans_view(old_out).push((st as int, hi as int)));
        },
        None => {},
    }
    out
}

pub(crate) fn lines(cs: &Vec<char>) -> (r: Vec<(usize, usize)>)
    ensures
        spans_view(r@) == line_spans(cs@),
        forall|k: int| 0 <= k < r@.len() ==> (#[trigger] r@[k]).0 <= r@[k].1 <= cs@.len(),
{
    let mut out: Vec<(usize, usize)> = Vec::new();
    let mut st: usize = 0;
    let mut i: usize = 0;
    while i < cs.len()
        invariant
            i <= cs@.len(),
            (spans_view(out@), st as int) == line_scan(cs@, i as int),
            forall|k: int| 0 <= k < out@.len() ==> (#[trigger] out@[k]).0 <= out@[k].1 <= i,
            st <= i,
        decreases cs.len() - i,
    {
        if cs[i] == '\n' {
            let ghost old_out = out@;
            out.push((st, i));
            assert(spans_view(out@) =~= spans_view(old_out).push((st as int, i as int)));
            st = i + 1;
        }
        i = i + 1;
    }
    let ghost old_out = out@;
    out.push((st, cs.len()));
    assert(spans_view(out@) =~= spans_view(old_out).push((st as int, cs@.len() as int)));
    out
}

fn last_index(cs: &Vec<char>, c: char, a: usize, b: usize) -> (r: Option<usize>)
    requires
        a <= b <= cs@.len(),
    ensures
        crate::text::opt_int(r) == last_index_of(cs@, c, a as int, b as int),
        r matches Some(k) ==> a <= k < b,
{
    let mut k: usize = b;
    while k > a
        invariant
            a <= k <= b <= cs@.len(),
            last_index_of(cs@, c, a as int, k as int) == last_index_of(cs@, c, a as int, b as int),
        decreases k - a,
    {
        if cs[k - 1] == c {
            return Some(k - 1);
        }
        k = k - 1;
    }
    None
}

fn first_index(cs: &Vec<char>, c: char, a: usize, b: usize) -> (r: Option<usize>)
    requires
        a <= b <= cs@.len(),
    ensures
        crate::text::opt_int(r) == first_index_of(cs@, c, a as int, b as int),
        r matches Some(k) ==> a <= k < b,
{
    let mut i: usize = a;
    while i < b
        invariant
            a <= i <= b <= cs@.len(),
            first_index_of(cs@, c, i as int, b as int) == first_index_of(cs@, c, a as int, b as int),
        decreases b - i,
    {
        if cs[i] == c {
            return Some(i);
        }
        i = i + 1;
    }
    None
}

fn text_eq(s: &String, lit: &str) -> (r: bool)
    ensures
        r == (s@ == lit@),
{
    *s == String::from_str(lit)
}

fn ss_line(s: &str, cs: &Vec<char>, lo: usize, hi: usize) -> (r: Option<String>)
    requires
        cs@ == s@,
        lo <= hi <= cs@.len(),
    ensures
        opt_view(r) == ss_line_address(cs@, (lo as int, hi as int)),
{
    let w = words(cs, lo, hi);
    if w.len() < 4 {
        return None;
    }
    let (a, b) = w[3];
    assert(spans_view(w@)[3] == (a as int, b as int));
    match last_index(cs, ':', a, b) {
        Some(k) => {
            let addr = String::from_str(s.substring_char(a, k));
            if text_eq(&addr, "*") || text_eq(&addr, "0.0.0.0") || text_eq(&addr, "::") {
                Some(String::from_str("0.0.0.0"))
            } else {
                Some(addr)
            }
        },
        None => None,
    }
}

fn lsof_line(s: &str, cs: &Vec<char>, lo: usize, hi: usize) -> (r: Option<String>)
    requires
        cs@ == s@,
        lo <= hi <= cs@.len(),
    ensures
        opt_view(r) == lsof_line_address(cs@, (lo as int, hi as int)),
{
    let w = words(cs, lo, hi);
    let ghost ws = spans_view(w@);
    if w.len() < 9 {
        return None;
    }
    let mut k: usize = w.len();
    while k > 0
        invariant
            k <= w@.len(),
            w@.len() >= 9,
            ws == spans_view(w@),
            ws == word_spans(cs@, lo as int, hi as int),
            cs@ == s@,
            hi <= cs@.len(),
            forall|j: int| 0 <= j < w@.len() ==> lo <= (#[trigger] w@[j]).0 < w@[j].1 <= hi,
            lsof_pick(cs@, ws, k as int) == lsof_pick(cs@, ws, w@.len() as int),
        decreases k,
    {
        let (a, b) = w[k - 1];
        assert(ws[k - 1] == (a as int, b as int));
        match first_index(cs, ':', a, b) {
            Some(c) => {
                if cs[a] != '(' {
                    let addr = String::from_str(s.substring_char(a, c));
                    if text_eq(&addr, "*") {
                        return Some(String::from_str("0.0.0.0"));
                    }
                    return Some(addr);
                }
            },
            None => {},
        }
        k = k - 1;
    }
    None
}

fn first_listed_address(s: &str, lsof: bool) -> (r: Option<String>)
    ensures
        opt_view(r) == first_address(s@, line_spans(s@), if lsof { 1 } else { 0 }, lsof),
{
    let cs = chars_of(s);
    let ls = lines(&cs);
    let ghost lv = spans_view(ls@);
    let mut k: usize = if lsof {
        1
    } else {
        0
    };
    let ghost k0 = k as int;
    while k < ls.len()
        invariant
            cs@ == s@,
            lv == spans_view(ls@),
            lv == line_spans(cs@),
            forall|j: int| 0 <= j < ls@.len() ==> (#[trigger] ls@[j]).0 <= ls@[j].1 <= cs@.len(),
            k0 == (if lsof { 1int } else { 0int }),
            first_address(cs@, lv, k as int, lsof) == first_address(cs@, lv, k0, lsof),
        decreases ls.len() - k,
    {
        let (lo, hi) = ls[k];
        assert(lv[k as int] == (lo as int, hi as int));
        let found = if lsof {
            lsof_line(s, &cs, lo, hi)
        } else {
            ss_line(s, &cs, lo, hi)
        };
        match found {
            Some(a) => {
                return Some(a);
            },
            None => {},
        }
        k = k + 1;
    }
    None
}

/// The listen address in the output of `ss -tlnH sport = :port`: that of
/// the first line that names one.
pub fn listen_address_from_ss(output: &str) -> (r: Option<String>)
    ensures
        opt_view(r) == first_address(output@, line_spans(output@), 0, false),
{
    first_listed_address(output, false)
}

/// The listen address in the output of `lsof -i :port -sTCP:LISTEN -n -P`:
/// that of the first line after the header that names one.
pub fn listen_address_from_lsof(output: &str) -> (r: Option<String>)
    ensures
        opt_view(r) == first_address(output@, line_spans(output@), 1, true),
{
    first_listed_address(output, true)
}

} // verus!
