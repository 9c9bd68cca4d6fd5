use vstd::prelude::*;

verus! {

/// Exec comparison of two string slices, by contents.
pub fn str_eq(a: &str, b: &str) -> (r: bool)
    ensures
        r == (a@ == b@),
{
    let a_owned: String = a.to_owned();
    let b_owned: String = b.to_owned();
    a_owned.eq(&b_owned)
}

/// Whether `s` begins with `prefix`, by contents.
pub fn str_starts_with(s: &str, prefix: &str) -> (r: bool)
    ensures
        r == (s@.len() >= prefix@.len() && s@.take(prefix@.len() as int) == prefix@),
{
    let n = prefix.unicode_len();
    if s.unicode_len() < n {
        return false;
    }
    let mut i: usize = 0;
    while i < n
        invariant
            i <= n == prefix@.len(),
            s@.len() >= n,
            forall|j: int| 0 <= j < i ==> s@[j] == prefix@[j],
        decreases n - i,
    {
        if s.get_char(i) != prefix.get_char(i) {
            assert(s@.take(prefix@.len() as int)[i as int] != prefix@[i as int]);
            return false;
        }
        i = i + 1;
    }
    assert(s@.take(prefix@.len() as int) =~= prefix@);
    true
}

/// Strict lexicographic order on character sequences, by code point.
pub open spec fn spec_lex_lt(a: Seq<char>, b: Seq<char>) -> bool
    decreases a.len(),
{
    if b.len() == 0 {
        false
    } else if a.len() == 0 {
        true
    } else if a.first() != b.first() {
        (a.first() as int) < (b.first() as int)
    } else {
        spec_lex_lt(a.drop_first(), b.drop_first())
    }
}

/// Exec lexicographic comparison of two strings.
pub fn str_lex_lt(a: &str, b: &str) -> (r: bool)
    ensures
        r == spec_lex_lt(a@, b@),
{
    let na = a.unicode_len();
    let nb = b.unicode_len();
    let mut i: usize = 0;
    proof {
        assert(a@.skip(0) =~= a@);
        assert(b@.skip(0) =~= b@);
    }
    loop
        invariant
            i <= na,
            i <= nb,
            na == a@.len(),
            nb == b@.len(),
            spec_lex_lt(a@, b@) == spec_lex_lt(a@.skip(i as int), b@.skip(i as int)),
        decreases na - i,
    {
        if i >= nb {
            assert(b@.skip(i as int).len() == 0);
            return false;
        }
        if i >= na {
            assert(a@.skip(i as int).len() == 0 && b@.skip(i as int).len() > 0);
            return true;
        }
        let ca = a.get_char(i);
        let cb = b.get_char(i);
        assert(a@.skip(i as int).first() == ca && b@.skip(i as int).first() == cb);
        if ca != cb {
            return (ca as u32) < (cb as u32);
        }
        proof {
            assert(a@.skip(i as int).drop_first() =~= a@.skip(i + 1));
            assert(b@.skip(i as int).drop_first() =~= b@.skip(i + 1));
        }
        i = i + 1;
    }
}

/// The whitespace characters that token trimming strips.
pub open spec fn spec_is_ws(c: char) -> bool {
    c == ' ' || c == '\t' || c == '\n' || c == '\r'
}

fn is_ws(c: char) -> (r: bool)
    ensures
        r == spec_is_ws(c),
{
    c == ' ' || c == '\t' || c == '\n' || c == '\r'
}

pub open spec fn spec_ltrim(s: Seq<char>) -> Seq<char>
    decreases s.len(),
{
    if s.len() > 0 && spec_is_ws(s.first()) {
        spec_ltrim(s.drop_first())
    } else {
        s
    }
}

pub open spec fn spec_rtrim(s: Seq<char>) -> Seq<char>
    decreases s.len(),
{
    if s.len() > 0 && spec_is_ws(s.last()) {
        spec_rtrim(s.drop_last())
    } else {
        s
    }
}

/// A token with surrounding whitespace removed.
pub open spec fn spec_trim(s: Seq<char>) -> Seq<char> {
    spec_rtrim(spec_ltrim(s))
}

proof fn lemma_ltrim_skip(s: Seq<char>, a: int)
    requires
        0 <= a <= s.len(),
        forall|i: int| 0 <= i < a ==> spec_is_ws(s[i]),
        a < s.len() ==> !spec_is_ws(s[a]),
    ensures
        spec_ltrim(s) == s.skip(a),
    decreases a,
{
    if a == 0 {
        if s.len() > 0 && spec_is_ws(s.first()) {
            assert(false);
        }
        assert(s.skip(0) =~= s);
    } else {
        assert(spec_is_ws(s.first()));
        lemma_ltrim_skip(s.drop_first(), a - 1);
        assert(s.drop_first().skip(a - 1) =~= s.skip(a));
    }
}

proof fn lemma_rtrim_take(s: Seq<char>, b: int)
    requires
        0 <= b <= s.len(),
        forall|i: int| b <= i < s.len() ==> spec_is_ws(s[i]),
        b > 0 ==> !spec_is_ws(s[b - 1]),
    ensures
        spec_rtrim(s) == s.take(b),
    decreases s.len() - b,
{
    if b == s.len() {
        if s.len() > 0 && spec_is_ws(s.last()) {
            assert(false);
        }
        assert(s.take(b) =~= s);
    } else {
        assert(spec_is_ws(s.last()));
        lemma_rtrim_take(s.drop_last(), b);
        assert(s.drop_last().take(b) =~= s.take(b));
    }
}

/// Trim surrounding whitespace from a string.
pub fn trim(s: &str) -> (r: String)
    ensures
        r@ == spec_trim(s@),
{
    let n = s.unicode_len();
    let mut a: usize = 0;
    while a < n && is_ws(s.get_char(a))
        invariant
            a <= n == s@.len(),
            forall|i: int| 0 <= i < a ==> spec_is_ws(s@[i]),
        decreases n - a,
    {
        a = a + 1;
    }
    proof {
        lemma_ltrim_skip(s@, a as int);
    }
    let mut b: usize = n;
    while b > a && is_ws(s.get_char(b - 1))
        invariant
            a <= b <= n == s@.len(),
            forall|i: int| b <= i < n ==> spec_is_ws(s@[i]),
            spec_ltrim(s@) == s@.skip(a as int),
        decreases b,
    {
        b = b - 1;
    }
    proof {
        if b == a {
            lemma_rtrim_take(s@.skip(a as int), 0);
        } else {
            lemma_rtrim_take(s@.skip(a as int), b - a);
        }
        assert(s@.skip(a as int).take(b - a) =~= s@.subrange(a as int, b as int));
    }
    let piece = s.substring_char(a, b);
    piece.to_owned()
}

/// The comma-separated raw tokens of a string: always one more token than
/// there are commas, empty tokens included.
pub open spec fn spec_raw_tokens(s: Seq<char>) -> Seq<Seq<char>>
    decreases s.len(),
{
    if s.len() == 0 {
        seq![Seq::<char>::empty()]
    } else {
        let rest = spec_raw_tokens(s.drop_last());
        if s.last() == ',' {
            rest.push(Seq::<char>::empty())
        } else {
            rest.update(rest.len() - 1, rest.last().push(s.last()))
        }
    }
}

/// The keyword list carried by a comma-separated field: each token trimmed,
/// empty tokens dropped.
pub open spec fn spec_keyword_list(s: Seq<char>) -> Seq<Seq<char>> {
    spec_raw_tokens(s).map_values(|t: Seq<char>| spec_trim(t)).filter(|t: Seq<char>| t.len() > 0)
}

/// Split on commas, trim each piece, and drop the empty ones.
pub fn split_trim_nonempty(s: &str) -> (r: Vec<String>)
    ensures
        r.deep_view() == spec_keyword_list(s@),
{
    let n = s.unicode_len();
    let mut raw: Vec<String> = Vec::new();
    raw.push(String::new());
    let mut i: usize = 0;
    while i < n
        invariant
            i <= n == s@.len(),
            raw@.len() >= 1,
            raw.deep_view() == spec_raw_tokens(s@.take(i as int)),
        decreases n - i,
    {
        let c = s.get_char(i);
        assert(s@.take(i + 1).drop_last() =~= s@.take(i as int));
        assert(s@.take(i + 1).last() == c);
        if c == ',' {
            raw.push(String::new());
            assert(raw.deep_view() =~= spec_raw_tokens(s@.take(i + 1)));
        } else {
            let last_idx = raw.len() - 1;
            let mut tail = raw.remove(last_idx);
            crate::geo::push_char(&mut tail, c);
            raw.push(tail);
            proof {
                let prev = spec_raw_tokens(s@.take(i as int));
                assert(raw.deep_view() =~= prev.update(prev.len() - 1,
                    prev.last().push(c)));
            }
        }
        i = i + 1;
    }
    assert(s@.take(n as int) =~= s@);
    let ghost toks = spec_raw_tokens(s@);
    let mut out: Vec<String> = Vec::new();
    let mut j: usize = 0;
    while j < raw.len()
        invariant
            j <= raw@.len(),
            raw.deep_view() == toks,
            out.deep_view() == toks.take(j as int).map_values(|t: Seq<char>| spec_trim(t))
                .filter(|t: Seq<char>| t.len() > 0),
        decreases raw@.len() - j,
    {
        let piece = trim(raw[j].as_str());
        proof {
            let pref = toks.take(j as int).map_values(|t: Seq<char>| spec_trim(t));
            let pref1 = toks.take(j + 1).map_values(|t: Seq<char>| spec_trim(t));
            assert(pref1.drop_last() =~= pref);
            assert(pref1.last() == spec_trim(toks[j as int]));
            reveal_with_fuel(Seq::filter, 2);
        }
        if !piece.as_str().is_empty() {
            out.push(piece);
            proof {
                let pref1 = toks.take(j + 1).map_values(|t: Seq<char>| spec_trim(t));
                assert(out.deep_view() =~= pref1.filter(|t: Seq<char>| t.len() > 0));
            }
        } else {
            proof {
                let pref1 = toks.take(j + 1).map_values(|t: Seq<char>| spec_trim(t));
                assert(out.deep_view() =~= pref1.filter(|t: Seq<char>| t.len() > 0));
            }
        }
        j = j + 1;
    }
    assert(toks.take(raw@.len() as int) =~= toks);
    out
}

pub open spec fn spec_pow10(n: nat) -> nat
    decreases n,
{
    if n == 0 { 1 } else { 10 * spec_pow10((n - 1) as nat) }
}

pub proof fn lemma_pow10_pos(n: nat)
    ensures
        spec_pow10(n) >= 1,
    decreases n,
{
    if n > 0 {
        lemma_pow10_pos((n - 1) as nat);
    }
}

pub proof fn lemma_pow10_19()
    ensures
        spec_pow10(19) == 10_000_000_000_000_000_000,
{
    reveal_with_fuel(spec_pow10, 21);
}

pub proof fn lemma_pow10_mono(a: nat, b: nat)
    requires
        a <= b,
    ensures
        spec_pow10(a) <= spec_pow10(b),
    decreases b,
{
    if a < b {
        lemma_pow10_mono(a, (b - 1) as nat);
        lemma_pow10_pos((b - 1) as nat);
    }
}

/// 10 to the `n`-th, for digit work.
pub fn pow10_u64(n: u64) -> (r: u64)
    requires
        n <= 19,
    ensures
        r == spec_pow10(n as nat),
{
    proof {
        lemma_pow10_mono(n as nat, 19);
        lemma_pow10_19();
    }
    let mut r: u64 = 1;
    let mut i: u64 = 0;
    while i < n
        invariant
            i <= n <= 19,
            r == spec_pow10(i as nat),
        decreases n - i,
    {
        proof {
            lemma_pow10_mono((i + 1) as nat, 19);
            lemma_pow10_19();
        }
        r = r * 10;
        i = i + 1;
    }
    r
}

pub open spec fn spec_is_digit(c: char) -> bool {
    '0' <= c <= '9'
}

pub open spec fn all_digits(s: Seq<char>) -> bool {
    forall|i: int| 0 <= i < s.len() ==> spec_is_digit(#[trigger] s[i])
}

/// The number written by a digit string.
pub open spec fn spec_digits_val(s: Seq<char>) -> int
    decreases s.len(),
{
    if s.len() == 0 {
        0
    } else {
        spec_digits_val(s.drop_last()) * 10 + (s.last() as int - '0' as int)
    }
}

/// The index of the first `.` in `s`, or the length if there is none.
pub open spec fn spec_find_dot(s: Seq<char>) -> int
    decreases s.len(),
{
    if s.len() == 0 {
        0
    } else if s.first() == '.' {
        0
    } else {
        1 + spec_find_dot(s.drop_first())
    }
}

/// How many digits the whole part of a parsed number may have: large enough
/// for any coordinate or duration, small enough that scaling by a million
/// can never overflow a 64-bit value.
pub const MAX_WHOLE_DIGITS: usize = 12;

/// A plain decimal literal, scaled to an integer: sign, digits, and an
/// optional fraction, whose digits beyond `scale` places are dropped. Other
/// shapes (exponents, lone dots, anything non-numeric) have no value here.
pub open spec fn spec_parse_scaled(s: Seq<char>, scale: nat) -> Option<int> {
    let negative = s.len() > 0 && s.first() == '-';
    let t = if s.len() > 0 && (s.first() == '-' || s.first() == '+') {
        s.drop_first()
    } else {
        s
    };
    let d = spec_find_dot(t);
    let whole = t.take(d);
    let frac = if d < t.len() { t.skip(d + 1) } else { Seq::<char>::empty() };
    if whole.len() < 1 || whole.len() > MAX_WHOLE_DIGITS || !all_digits(whole)
        || (d < t.len() && (frac.len() < 1 || !all_digits(frac))) {
        None
    } else {
        let kept = if frac.len() > scale { frac.take(scale as int) } else { frac };
        let padded = spec_digits_val(kept) * spec_pow10((scale - kept.len()) as nat);
        let magnitude = spec_digits_val(whole) * spec_pow10(scale) + padded;
        Some(if negative { -magnitude } else { magnitude })
    }
}

proof fn lemma_find_dot_char(s: Seq<char>, d: int)
    requires
        0 <= d <= s.len(),
        forall|i: int| 0 <= i < d ==> s[i] != '.',
        d < s.len() ==> s[d] == '.',
    ensures
        spec_find_dot(s) == d,
    decreases s.len(),
{
    if s.len() == 0 {
    } else if s.first() == '.' {
        assert(d == 0);
    } else {
        assert(d >= 1);
        let t = s.drop_first();
        assert forall|i: int| 0 <= i < d - 1 implies t[i] != '.' by {
            assert(t[i] == s[i + 1]);
        };
        assert(d - 1 < t.len() ==> t[d - 1] == '.');
        lemma_find_dot_char(t, d - 1);
    }
}

/// Read the digit run `s[from..to]` as a number. `None` when some character
/// there is not a digit.
fn read_digits(s: &str, from: usize, to: usize) -> (r: Option<u64>)
    requires
        from <= to <= s@.len(),
        to - from <= 12,
    ensures
        match r {
            Some(v) => all_digits(s@.subrange(from as int, to as int))
                && v == spec_digits_val(s@.subrange(from as int, to as int))
                && v < spec_pow10((to - from) as nat),
            None => !all_digits(s@.subrange(from as int, to as int)),
        },
{
    let ghost piece = s@.subrange(from as int, to as int);
    let mut v: u64 = 0;
    let mut k: usize = from;
    while k < to
        invariant
            from <= k <= to <= s@.len(),
            to - from <= 12,
            piece == s@.subrange(from as int, to as int),
            all_digits(piece.take(k - from)),
            v == spec_digits_val(piece.take(k - from)),
            v < spec_pow10((k - from) as nat),
        decreases to - k,
    {
        let c = s.get_char(k);
        assert(piece[k - from] == c);
        if c < '0' || c > '9' {
            assert(!spec_is_digit(piece[k - from]));
            return None;
        }
        proof {
            assert(piece.take(k - from + 1).drop_last() =~= piece.take(k - from));
            assert(piece.take(k - from + 1).last() == c);
            lemma_pow10_mono((k - from + 1) as nat, 12);
            reveal_with_fuel(spec_pow10, 14);
        }
        v = v * 10 + (c as u64 - '0' as u64);
        k = k + 1;
    }
    assert(piece.take((to - from) as int) =~= piece);
    Some(v)
}

/// Parse a decimal literal into an integer holding `scale` fractional digits
/// (6 for microdegree coordinates, 3 for millisecond durations).
#[verifier::rlimit(100)]
pub fn parse_scaled(s: &str, scale: u64) -> (r: Option<i64>)
    requires
        scale <= 6,
    ensures
        match r {
            Some(v) => spec_parse_scaled(s@, scale as nat) == Some(v as int),
            None => spec_parse_scaled(s@, scale as nat) is None,
        },
{
    let n = s.unicode_len();
    let mut start: usize = 0;
    let mut negative = false;
    if n > 0 {
        let c0 = s.get_char(0);
        if c0 == '-' {
            negative = true;
            start = 1;
        } else if c0 == '+' {
            start = 1;
        }
    }
    let ghost t = if s@.len() > 0 && (s@.first() == '-' || s@.first() == '+') {
        s@.drop_first()
    } else {
        s@
    };
    assert(t =~= s@.skip(start as int));

    // Locate the first dot inside `t`.
    let mut dot: usize = n;
    let mut i: usize = start;
    while i < n && dot == n
        invariant
            start <= i <= n == s@.len(),
            start <= dot,
            dot == n || (dot < i && s@[dot as int] == '.'),
            forall|j: int| start <= j < (if dot == n { i as int } else { dot as int })
                ==> s@[j] != '.',
        decreases n - i,
    {
        if s.get_char(i) == '.' {
            dot = i;
        }
        i = i + 1;
    }
    proof {
        assert forall|j: int| 0 <= j < dot - start implies t[j] != '.' by {
            assert(t[j] == s@[j + start]);
        };
        if dot < n {
            assert(t[dot - start] == s@[dot as int]);
        }
        lemma_find_dot_char(t, dot - start);
    }

    let whole_len = dot - start;
    if whole_len < 1 || whole_len > MAX_WHOLE_DIGITS {
        return None;
    }
    let ghost whole = t.take((dot - start) as int);
    assert(whole =~= s@.subrange(start as int, dot as int));
    let wv = match read_digits(s, start, dot) {
        Some(v) => v,
        None => {
            return None;
        }
    };

    // The fraction, if a dot was seen: keep only the first `scale` digits.
    let ghost frac = if dot < n { t.skip((dot - start) + 1) } else { Seq::<char>::empty() };
    let mut fv: u64 = 0;
    let mut kept_len: u64 = 0;
    if dot < n {
        let frac_len = n - dot - 1;
        if frac_len < 1 {
            return None;
        }
        assert(frac =~= s@.skip(dot + 1));
        // All fraction digits must be digits, kept or not.
        let mut k: usize = dot + 1;
        while k < n
            invariant
                start <= dot,
                dot + 1 <= k <= n == s@.len(),
                frac == s@.skip(dot + 1),
                all_digits(frac.take(k - dot - 1)),
                t == (if s@.len() > 0 && (s@.first() == '-' || s@.first() == '+') {
                    s@.drop_first()
                } else {
                    s@
                }),
                t == s@.skip(start as int),
                spec_find_dot(t) == dot - start,
                frac == t.skip((dot - start) + 1),
            decreases n - k,
        {
            let c = s.get_char(k);
            assert(frac[k - dot - 1] == c);
            if c < '0' || c > '9' {
                assert(!spec_is_digit(frac[k - dot - 1]));
                assert(!all_digits(frac));
                assert(spec_parse_scaled(s@, scale as nat) is None);
                return None;
            }
            assert(frac.take(k - dot).drop_last() =~= frac.take(k - dot - 1));
            k = k + 1;
        }
        assert(frac.take((n - dot - 1) as int) =~= frac);
        let keep: usize = if frac_len > scale as usize { scale as usize } else { frac_len };
        let ghost kept = if frac.len() > scale { frac.take(scale as int) } else { frac };
        assert(kept =~= s@.subrange(dot + 1, dot + 1 + keep as int));
        match read_digits(s, dot + 1, dot + 1 + keep) {
            Some(v) => {
                fv = v;
                kept_len = keep as u64;
            }
            None => {
                assert(false);
            }
        }
        proof {
            lemma_pow10_mono(kept_len as nat, 6);
            reveal_with_fuel(spec_pow10, 8);
        }
    }

    // Assemble, scaling the whole part and padding the kept fraction.
    let pad = pow10_u64(scale - kept_len);
    let mul = pow10_u64(scale);
    proof {
        lemma_pow10_mono(scale as nat, 6);
        lemma_pow10_mono(whole_len as nat, 12);
        reveal_with_fuel(spec_pow10, 14);
        lemma_pow10_add(kept_len as nat, (scale - kept_len) as nat);
        assert(wv * mul <= 999_999_999_999 * 1_000_000) by (nonlinear_arith)
            requires 0 <= wv <= 999_999_999_999, 0 <= mul <= 1_000_000;
        if kept_len == 0 {
            assert(fv == 0);
        } else {
            assert(fv * pad < spec_pow10(kept_len as nat) * pad) by (nonlinear_arith)
                requires 0 <= fv < spec_pow10(kept_len as nat), pad >= 1;
        }
        assert(spec_pow10(kept_len as nat) * pad == spec_pow10(scale as nat));
        assert(fv * pad < 1_000_001);
    }
    let magnitude = wv * mul + fv * pad;
    if negative {
        Some(-(magnitude as i64))
    } else {
        Some(magnitude as i64)
    }
}

pub proof fn lemma_pow10_add(a: nat, b: nat)
    ensures
        spec_pow10(a) * spec_pow10(b) == spec_pow10((a + b) as nat),
    decreases a,
{
    if a == 0 {
        assert(spec_pow10(0) == 1);
        assert(1 * spec_pow10(b) == spec_pow10(b)) by (nonlinear_arith);
    } else {
        lemma_pow10_add((a - 1) as nat, b);
        assert(spec_pow10(a) == 10 * spec_pow10((a - 1) as nat));
        assert(spec_pow10((a + b) as nat) == 10 * spec_pow10((a + b - 1) as nat));
        assert(spec_pow10(a) * spec_pow10(b) == 10 * (spec_pow10((a - 1) as nat)
            * spec_pow10(b))) by (nonlinear_arith)
            requires spec_pow10(a) == 10 * spec_pow10((a - 1) as nat);
    }
}


/// The decimal digits of a number, most significant first.
pub open spec fn spec_u64_digits(v: nat) -> Seq<char>
    decreases v,
{
    if v < 10 {
        seq![crate::hashing::spec_hex_digit(v as int)]
    } else {
        spec_u64_digits(v / 10).push(crate::hashing::spec_hex_digit((v % 10) as int))
    }
}

fn dec_digit(d: u64) -> (c: char)
    requires
        d < 10,
    ensures
        c == crate::hashing::spec_hex_digit(d as int),
{
    match d {
        0 => '0', 1 => '1', 2 => '2', 3 => '3', 4 => '4',
        5 => '5', 6 => '6', 7 => '7', 8 => '8', _ => '9',
    }
}

/// Write a number in decimal.
pub fn u64_to_string(v: u64) -> (r: String)
    ensures
        r@ == spec_u64_digits(v as nat),
    decreases v,
{
    if v < 10 {
        let mut s = String::new();
        crate::geo::push_char(&mut s, dec_digit(v));
        assert(s@ =~= spec_u64_digits(v as nat));
        s
    } else {
        let mut s = u64_to_string(v / 10);
        crate::geo::push_char(&mut s, dec_digit(v % 10));
        s
    }
}

} // verus!
