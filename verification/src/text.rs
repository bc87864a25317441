//! Character-level layer: characters of the input, lines, tokens and numbers.
use vstd::prelude::*;

verus! {

/// Space and horizontal tab separate the tokens of a line.
pub open spec fn is_ws(c: char) -> bool {
    c == ' ' || c == '\t'
}

/// ASCII white space: space, horizontal tab, line feed, form feed and
/// carriage return.
pub open spec fn is_space(c: char) -> bool {
    c == ' ' || c == '\t' || c == '\n' || c == '\x0c' || c == '\r'
}

/// Carriage return and line feed end a line.
pub open spec fn is_nl(c: char) -> bool {
    c == '\n' || c == '\r'
}

/// The characters of a string, one by one.
pub fn chars_of(s: &str) -> (v: Vec<char>)
    ensures
        v@ == s@,
{
    broadcast use vstd::string::group_string_axioms;

    let mut v: Vec<char> = Vec::new();
    for c in it: s.chars()
        invariant
            v@ == it.seq().take(it.index()),
    {
        v.push(c);
    }
    v
}

/// First position at or after `i` (and before `hi`) that is not a token separator.
pub open spec fn skip_ws(s: Seq<char>, i: int, hi: int) -> int
    decreases hi - i,
{
    if i >= hi || !is_ws(s[i]) {
        i
    } else {
        skip_ws(s, i + 1, hi)
    }
}

/// First position at or after `i` (and before `hi`) that is a token separator.
pub open spec fn tok_end(s: Seq<char>, i: int, hi: int) -> int
    decreases hi - i,
{
    if i >= hi || is_ws(s[i]) {
        i
    } else {
        tok_end(s, i + 1, hi)
    }
}

/// The tokens of the segment `s[i..hi]`: maximal runs of characters that are
/// not separators, each given by its start and end position in `s`.
pub open spec fn seg_tokens(s: Seq<char>, i: int, hi: int) -> Seq<(usize, usize)>
    decreases hi - i,
{
    let j = skip_ws(s, i, hi);
    if i >= hi || j >= hi {
        Seq::empty()
    } else {
        let e = tok_end(s, j, hi);
        proof {
            lemma_skip_tok_bounds(s, i, hi);
            lemma_skip_tok_bounds(s, j, hi);
        }
        seq![(j as usize, e as usize)] + seg_tokens(s, e, hi)
    }
}

pub proof fn lemma_skip_tok_bounds(s: Seq<char>, i: int, hi: int)
    ensures
        i <= hi ==> i <= skip_ws(s, i, hi) <= hi,
        i <= hi ==> i <= tok_end(s, i, hi) <= hi,
        i < hi && skip_ws(s, i, hi) < hi ==> !is_ws(s[skip_ws(s, i, hi)]),
        i < hi && skip_ws(s, i, hi) < hi ==> tok_end(s, skip_ws(s, i, hi), hi) > skip_ws(s, i, hi),
    decreases hi - i,
{
    if i < hi {
        lemma_skip_tok_bounds(s, i + 1, hi);
    }
}

/// Token spans are non-empty, lie inside `s`, and come in order.
pub open spec fn toks_wf(s: Seq<char>, ts: Seq<(usize, usize)>) -> bool {
    &&& forall|k: int| 0 <= k < ts.len() ==> #[trigger] ts[k].0 < ts[k].1 <= s.len()
    &&& forall|k1: int, k2: int|
        0 <= k1 < k2 < ts.len() ==> #[trigger] ts[k1].1 <= #[trigger] ts[k2].0
}

/// The text of token `k`.
pub open spec fn word(s: Seq<char>, ts: Seq<(usize, usize)>, k: int) -> Seq<char> {
    s.subrange(ts[k].0 as int, ts[k].1 as int)
}

/// The text from the start of token `a` to the end of token `b - 1`,
/// separators between them included.
pub open spec fn text(s: Seq<char>, ts: Seq<(usize, usize)>, a: int, b: int) -> Seq<char> {
    s.subrange(ts[a].0 as int, ts[b - 1].1 as int)
}

pub proof fn lemma_seg_tokens_wf(s: Seq<char>, i: int, hi: int)
    requires
        0 <= i,
        hi <= s.len(),
        s.len() <= usize::MAX,
    ensures
        toks_wf(s, seg_tokens(s, i, hi)),
        forall|k: int|
            0 <= k < seg_tokens(s, i, hi).len() ==> i <= #[trigger] seg_tokens(s, i, hi)[k].0,
        forall|k: int|
            0 <= k < seg_tokens(s, i, hi).len() ==> #[trigger] seg_tokens(s, i, hi)[k].1 <= hi,
    decreases hi - i,
{
    let j = skip_ws(s, i, hi);
    if i >= hi || j >= hi {
    } else {
        lemma_skip_tok_bounds(s, i, hi);
        lemma_skip_tok_bounds(s, j, hi);
        let e = tok_end(s, j, hi);
        lemma_seg_tokens_wf(s, e, hi);
        let rest = seg_tokens(s, e, hi);
        let all = seg_tokens(s, i, hi);
        assert(all == seq![(j as usize, e as usize)] + rest);
        assert forall|k: int| 0 <= k < all.len() implies #[trigger] all[k].0 < all[k].1 <= s.len() by {
            if k > 0 {
                assert(all[k] == rest[k - 1]);
            }
        }
        assert forall|k1: int, k2: int| 0 <= k1 < k2 < all.len() implies #[trigger] all[k1].1
            <= #[trigger] all[k2].0 by {
            assert(all[k2] == rest[k2 - 1]);
            if k1 > 0 {
                assert(all[k1] == rest[k1 - 1]);
            }
        }
        assert forall|k: int| 0 <= k < all.len() implies i <= #[trigger] all[k].0 by {
            if k > 0 {
                assert(all[k] == rest[k - 1]);
            }
        }
        assert forall|k: int| 0 <= k < all.len() implies #[trigger] all[k].1 <= hi by {
            if k > 0 {
                assert(all[k] == rest[k - 1]);
            }
        }
    }
}

/// Splits the segment `v[lo..hi]` into its tokens.
pub fn tokenize(v: &Vec<char>, lo: usize, hi: usize) -> (ts: Vec<(usize, usize)>)
    requires
        lo <= hi <= v.len(),
    ensures
        ts@ == seg_tokens(v@, lo as int, hi as int),
        toks_wf(v@, ts@),
{
    let mut ts: Vec<(usize, usize)> = Vec::new();
    let mut i = lo;
    while i < hi
        invariant
            lo <= i <= hi <= v.len(),
            ts@ + seg_tokens(v@, i as int, hi as int) == seg_tokens(v@, lo as int, hi as int),
        decreases hi - i,
    {
        let ghost i0 = i as int;
        let mut j = i;
        while j < hi && (v[j] == ' ' || v[j] == '\t')
            invariant
                i0 <= j <= hi <= v.len(),
                skip_ws(v@, j as int, hi as int) == skip_ws(v@, i0, hi as int),
            decreases hi - j,
        {
            j = j + 1;
        }
        if j >= hi {
            assert(seg_tokens(v@, i0, hi as int) =~= Seq::<(usize, usize)>::empty());
            assert(ts@ =~= ts@ + seg_tokens(v@, i0, hi as int));
            i = hi;
        } else {
            let mut e = j;
            while e < hi && !(v[e] == ' ' || v[e] == '\t')
                invariant
                    j <= e <= hi <= v.len(),
                    tok_end(v@, e as int, hi as int) == tok_end(v@, j as int, hi as int),
                decreases hi - e,
            {
                e = e + 1;
            }
            proof {
                lemma_skip_tok_bounds(v@, i0, hi as int);
                lemma_skip_tok_bounds(v@, j as int, hi as int);
            }
            let ghost old_ts = ts@;
            ts.push((j, e));
            assert(seg_tokens(v@, i0, hi as int) == seq![(j, e)] + seg_tokens(v@, e as int, hi as int));
            assert(ts@ + seg_tokens(v@, e as int, hi as int) =~= old_ts + seg_tokens(v@, i0, hi as int));
            i = e;
        }
    }
    assert(seg_tokens(v@, i as int, hi as int) =~= Seq::<(usize, usize)>::empty());
    assert(ts@ =~= ts@ + seg_tokens(v@, i as int, hi as int));
    proof {
        lemma_seg_tokens_wf(v@, lo as int, hi as int);
    }
    ts
}

/// Whether `v[a..b]` spells `lit`.
pub fn chars_eq(v: &Vec<char>, a: usize, b: usize, lit: &str) -> (r: bool)
    requires
        a <= b <= v.len(),
    ensures
        r == (v@.subrange(a as int, b as int) == lit@),
{
    let n = lit.unicode_len();
    if b - a != n {
        assert(v@.subrange(a as int, b as int).len() != lit@.len());
        return false;
    }
    let mut i: usize = 0;
    while i < n
        invariant
            i <= n,
            n == lit@.len(),
            b - a == n,
            a <= b <= v.len(),
            forall|j: int| 0 <= j < i ==> v@[a + j] == lit@[j],
        decreases n - i,
    {
        if v[a + i] != lit.get_char(i) {
            assert(v@.subrange(a as int, b as int)[i as int] != lit@[i as int]);
            return false;
        }
        i = i + 1;
    }
    assert(v@.subrange(a as int, b as int) =~= lit@);
    true
}

/// Whether token `k` spells `lit`.
pub fn word_is(v: &Vec<char>, ts: &Vec<(usize, usize)>, k: usize, lit: &str) -> (r: bool)
    requires
        toks_wf(v@, ts@),
        k < ts.len(),
    ensures
        r == (word(v@, ts@, k as int) == lit@),
{
    let (a, b) = ts[k];
    chars_eq(v, a, b, lit)
}


pub open spec fn is_digit(c: char) -> bool {
    '0' <= c <= '9'
}

pub open spec fn all_digits(w: Seq<char>) -> bool {
    forall|i: int| 0 <= i < w.len() ==> is_digit(#[trigger] w[i])
}

pub open spec fn digit_val(c: char) -> nat {
    (c as int - '0' as int) as nat
}

/// The value of a string of decimal digits.
pub open spec fn digits_val(w: Seq<char>) -> nat
    decreases w.len(),
{
    if w.len() == 0 {
        0
    } else {
        digits_val(w.drop_last()) * 10 + digit_val(w.last())
    }
}

/// A non-empty run of decimal digits whose value is at most `max`.
pub open spec fn nat_tok(w: Seq<char>, max: nat) -> Option<nat> {
    if w.len() > 0 && all_digits(w) && digits_val(w) <= max {
        Some(digits_val(w))
    } else {
        None
    }
}

pub open spec fn u16_tok(w: Seq<char>) -> Option<u16> {
    match nat_tok(w, u16::MAX as nat) {
        Some(n) => Some(n as u16),
        None => None,
    }
}

pub open spec fn u32_tok(w: Seq<char>) -> Option<u32> {
    match nat_tok(w, u32::MAX as nat) {
        Some(n) => Some(n as u32),
        None => None,
    }
}

pub open spec fn u64_tok(w: Seq<char>) -> Option<u64> {
    match nat_tok(w, u64::MAX as nat) {
        Some(n) => Some(n as u64),
        None => None,
    }
}

/// A decimal integer with an optional sign that fits in an `i32`.
pub open spec fn i32_tok(w: Seq<char>) -> Option<i32> {
    if w.len() > 0 && w[0] == '-' {
        match nat_tok(w.drop_first(), 0x8000_0000) {
            Some(n) => Some((-n) as i32),
            None => None,
        }
    } else if w.len() > 0 && w[0] == '+' {
        match nat_tok(w.drop_first(), i32::MAX as nat) {
            Some(n) => Some(n as i32),
            None => None,
        }
    } else {
        match nat_tok(w, i32::MAX as nat) {
            Some(n) => Some(n as i32),
            None => None,
        }
    }
}

pub proof fn lemma_digits_val_prefix(w: Seq<char>, j: int)
    requires
        0 <= j <= w.len(),
    ensures
        digits_val(w.subrange(0, j)) <= digits_val(w),
    decreases w.len(),
{
    if j < w.len() {
        lemma_digits_val_prefix(w.drop_last(), j);
        assert(w.drop_last().subrange(0, j) =~= w.subrange(0, j));
    } else {
        assert(w.subrange(0, j) =~= w);
    }
}

/// The value of the digits `v[a..b]`, if they are digits and fit in a `u64`.
pub fn parse_nat(v: &Vec<char>, a: usize, b: usize) -> (r: Option<u64>)
    requires
        a <= b <= v.len(),
    ensures
        r == u64_tok(v@.subrange(a as int, b as int)),
{
    let ghost w = v@.subrange(a as int, b as int);
    if a == b {
        return None;
    }
    let mut acc: u64 = 0;
    let mut i = a;
    while i < b
        invariant
            a <= i <= b <= v.len(),
            w == v@.subrange(a as int, b as int),
            all_digits(w.subrange(0, i - a)),
            acc == digits_val(w.subrange(0, i - a)),
        decreases b - i,
    {
        let c = v[i];
        if !(c >= '0' && c <= '9') {
            assert(w[i - a] == c);
            return None;
        }
        let d = ((c as u32) - ('0' as u32)) as u64;
        let ghost prefix = w.subrange(0, i + 1 - a);
        assert(prefix.drop_last() =~= w.subrange(0, i - a));
        assert(prefix.last() == c);
        if acc > (u64::MAX - d) / 10 {
            proof {
                assert(acc * 10 + d > u64::MAX) by (nonlinear_arith)
                    requires
                        acc > (u64::MAX - d) / 10,
                        d <= 9,
                ;
                lemma_digits_val_prefix(w, i + 1 - a);
            }
            return None;
        }
        acc = acc * 10 + d;
        i = i + 1;
        assert(all_digits(w.subrange(0, i - a))) by {
            assert forall|t: int| 0 <= t < i - a implies is_digit(#[trigger] w.subrange(0, i - a)[t]) by {
                if t < i - 1 - a {
                    assert(w.subrange(0, i - a)[t] == w.subrange(0, i - 1 - a)[t]);
                }
            }
        }
    }
    assert(w.subrange(0, b - a) =~= w);
    Some(acc)
}

pub fn parse_u16(v: &Vec<char>, a: usize, b: usize) -> (r: Option<u16>)
    requires
        a <= b <= v.len(),
    ensures
        r == u16_tok(v@.subrange(a as int, b as int)),
{
    match parse_nat(v, a, b) {
        Some(n) => if n <= 0xffff { Some(n as u16) } else { None },
        None => None,
    }
}

pub fn parse_u32(v: &Vec<char>, a: usize, b: usize) -> (r: Option<u32>)
    requires
        a <= b <= v.len(),
    ensures
        r == u32_tok(v@.subrange(a as int, b as int)),
{
    match parse_nat(v, a, b) {
        Some(n) => if n <= 0xffff_ffff { Some(n as u32) } else { None },
        None => None,
    }
}

pub fn parse_u64(v: &Vec<char>, a: usize, b: usize) -> (r: Option<u64>)
    requires
        a <= b <= v.len(),
    ensures
        r == u64_tok(v@.subrange(a as int, b as int)),
{
    parse_nat(v, a, b)
}

pub fn parse_i32(v: &Vec<char>, a: usize, b: usize) -> (r: Option<i32>)
    requires
        a <= b <= v.len(),
    ensures
        r == i32_tok(v@.subrange(a as int, b as int)),
{
    let ghost w = v@.subrange(a as int, b as int);
    if a < b && v[a] == '-' {
        assert(v@.subrange(a + 1, b as int) =~= w.drop_first());
        match parse_nat(v, a + 1, b) {
            Some(n) => if n <= 0x8000_0000 { Some((0 - (n as i64)) as i32) } else { None },
            None => None,
        }
    } else if a < b && v[a] == '+' {
        assert(v@.subrange(a + 1, b as int) =~= w.drop_first());
        match parse_nat(v, a + 1, b) {
            Some(n) => if n <= 0x7fff_ffff { Some(n as i32) } else { None },
            None => None,
        }
    } else {
        match parse_nat(v, a, b) {
            Some(n) => if n <= 0x7fff_ffff { Some(n as i32) } else { None },
            None => None,
        }
    }
}

/// The code of `c` with ASCII upper case letters mapped to lower case.
pub open spec fn lower(c: char) -> int {
    if 'A' <= c <= 'Z' {
        c as int + 32
    } else {
        c as int
    }
}

/// Equality of strings when ASCII case is ignored.
pub open spec fn eq_ignore_case(w: Seq<char>, t: Seq<char>) -> bool {
    w.len() == t.len() && forall|i: int| 0 <= i < w.len() ==> lower(#[trigger] w[i]) == lower(t[i])
}

fn lower_code(c: char) -> (r: u32)
    ensures
        r == lower(c),
{
    if c >= 'A' && c <= 'Z' {
        (c as u32) + 32
    } else {
        c as u32
    }
}

/// Whether `v[a..b]` spells `lit` when ASCII case is ignored.
pub fn chars_eq_ignore_case(v: &Vec<char>, a: usize, b: usize, lit: &str) -> (r: bool)
    requires
        a <= b <= v.len(),
    ensures
        r == eq_ignore_case(v@.subrange(a as int, b as int), lit@),
{
    let ghost w = v@.subrange(a as int, b as int);
    let n = lit.unicode_len();
    if b - a != n {
        return false;
    }
    let mut i: usize = 0;
    while i < n
        invariant
            i <= n,
            n == lit@.len(),
            b - a == n,
            a <= b <= v.len(),
            w == v@.subrange(a as int, b as int),
            forall|j: int| 0 <= j < i ==> lower(#[trigger] w[j]) == lower(lit@[j]),
        decreases n - i,
    {
        if lower_code(v[a + i]) != lower_code(lit.get_char(i)) {
            assert(w[i as int] == v@[a + i]);
            return false;
        }
        assert(w[i as int] == v@[a + i]);
        i = i + 1;
    }
    true
}

} // verus!
