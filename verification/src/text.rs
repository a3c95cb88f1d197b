//! Verified character and string utilities: case-insensitive comparison,
//! substring search, pattern replacement, and decimal conversion. All
//! executable functions carry exact contracts over `Seq<char>` views.

use vstd::prelude::*;

verus! {

/// Is `c` an ASCII decimal digit?
pub open spec fn is_digit(c: char) -> bool {
    48 <= c as u32 <= 57
}

/// The numeric value of an ASCII digit character.
pub open spec fn digit_val(c: char) -> nat {
    (c as u32 - 48) as nat
}

/// ASCII lowercase folding of one character; others are unchanged.
pub open spec fn lower_char(c: char) -> char {
    if 65 <= c as u32 <= 90 {
        (((c as u32) + 32) as u8) as char
    } else {
        c
    }
}

/// Equality of two character sequences under ASCII case folding.
pub open spec fn eq_ic(a: Seq<char>, b: Seq<char>) -> bool {
    a.len() == b.len() && (forall|i: int| 0 <= i < a.len() ==> lower_char(a[i]) == lower_char(b[i]))
}

/// The needle `n` occurs in `h` starting at position `i`.
pub open spec fn match_at(h: Seq<char>, n: Seq<char>, i: int) -> bool {
    0 <= i && i + n.len() <= h.len() && h.subrange(i, i + n.len() as int) == n
}

/// The needle `n` occurs somewhere in `h`.
pub open spec fn contains_seq(h: Seq<char>, n: Seq<char>) -> bool {
    exists|i: int| match_at(h, n, i)
}

/// The needle `n` occurs in `h` at position `i`, under ASCII case folding.
pub open spec fn match_at_ic(h: Seq<char>, n: Seq<char>, i: int) -> bool {
    0 <= i && i + n.len() <= h.len() && eq_ic(h.subrange(i, i + n.len() as int), n)
}

/// The needle `n` occurs somewhere in `h`, under ASCII case folding.
pub open spec fn contains_seq_ic(h: Seq<char>, n: Seq<char>) -> bool {
    exists|i: int| match_at_ic(h, n, i)
}

/// ASCII lowercase folding of one character.
pub fn lower(c: char) -> (r: char)
    ensures
        r == lower_char(c),
{
    let u = c as u32;
    if 65 <= u && u <= 90 {
        ((u + 32) as u8) as char
    } else {
        c
    }
}

/// Character-wise string equality.
pub fn str_eq(a: &str, b: &str) -> (r: bool)
    ensures
        r == (a@ == b@),
{
    let al = a.unicode_len();
    let bl = b.unicode_len();
    if al != bl {
        return false;
    }
    let mut i: usize = 0;
    while i < al
        invariant
            al == a@.len(),
            al == b@.len(),
            i <= al,
            forall|j: int| 0 <= j < i ==> a@[j] == b@[j],
        decreases al - i,
    {
        if a.get_char(i) != b.get_char(i) {
            return false;
        }
        i += 1;
    }
    proof {
        assert(a@ =~= b@);
    }
    true
}

/// String equality under ASCII case folding.
pub fn str_eq_ignore_case(a: &str, b: &str) -> (r: bool)
    ensures
        r == eq_ic(a@, b@),
{
    let al = a.unicode_len();
    let bl = b.unicode_len();
    if al != bl {
        return false;
    }
    let mut i: usize = 0;
    while i < al
        invariant
            al == a@.len(),
            al == b@.len(),
            i <= al,
            forall|j: int| 0 <= j < i ==> lower_char(a@[j]) == lower_char(b@[j]),
        decreases al - i,
    {
        if lower(a.get_char(i)) != lower(b.get_char(i)) {
            return false;
        }
        i += 1;
    }
    true
}

/// Does the needle occur in `h` starting exactly at position `i`?
pub fn match_at_exec(h: &str, n: &str, i: usize) -> (r: bool)
    ensures
        r == match_at(h@, n@, i as int),
{
    let hl = h.unicode_len();
    let nl = n.unicode_len();
    if nl > hl || i > hl - nl {
        return false;
    }
    let mut j: usize = 0;
    while j < nl
        invariant
            hl == h@.len(),
            nl == n@.len(),
            i + nl <= hl,
            j <= nl,
            forall|k: int| 0 <= k < j ==> h@[i + k] == n@[k],
        decreases nl - j,
    {
        if h.get_char(i + j) != n.get_char(j) {
            proof {
                assert(h@.subrange(i as int, i + n@.len() as int)[j as int] == h@[i + j]);
            }
            return false;
        }
        j += 1;
    }
    proof {
        assert(h@.subrange(i as int, i + n@.len() as int) =~= n@);
    }
    true
}

/// Does the needle occur in `h` at position `i`, under ASCII case folding?
pub fn match_at_ic_exec(h: &str, n: &str, i: usize) -> (r: bool)
    ensures
        r == match_at_ic(h@, n@, i as int),
{
    let hl = h.unicode_len();
    let nl = n.unicode_len();
    if nl > hl || i > hl - nl {
        return false;
    }
    let mut j: usize = 0;
    while j < nl
        invariant
            hl == h@.len(),
            nl == n@.len(),
            i + nl <= hl,
            j <= nl,
            forall|k: int| 0 <= k < j ==> lower_char(h@[i + k]) == lower_char(n@[k]),
        decreases nl - j,
    {
        if lower(h.get_char(i + j)) != lower(n.get_char(j)) {
            proof {
                assert(h@.subrange(i as int, i + n@.len() as int)[j as int] == h@[i + j]);
            }
            return false;
        }
        j += 1;
    }
    proof {
        assert(forall|k: int|
            0 <= k < n@.len() ==> #[trigger] h@.subrange(i as int, i + n@.len() as int)[k] == h@[i
                + k]);
    }
    true
}

/// Substring search: does `n` occur anywhere in `h`?
pub fn contains_str(h: &str, n: &str) -> (r: bool)
    ensures
        r == contains_seq(h@, n@),
{
    let hl = h.unicode_len();
    let nl = n.unicode_len();
    if nl > hl {
        return false;
    }
    if nl == 0 {
        proof {
            assert(h@.subrange(0, 0) =~= n@);
            assert(match_at(h@, n@, 0));
        }
        return true;
    }
    let mut i: usize = 0;
    while i <= hl - nl
        invariant
            hl == h@.len(),
            nl == n@.len(),
            0 < nl <= hl,
            i <= hl - nl + 1,
            forall|j: int| 0 <= j < i ==> !match_at(h@, n@, j),
        decreases hl - nl - i + 1,
    {
        if match_at_exec(h, n, i) {
            return true;
        }
        i += 1;
    }
    false
}

/// Substring search under ASCII case folding.
pub fn contains_str_ignore_case(h: &str, n: &str) -> (r: bool)
    ensures
        r == contains_seq_ic(h@, n@),
{
    let hl = h.unicode_len();
    let nl = n.unicode_len();
    if nl > hl {
        return false;
    }
    if nl == 0 {
        proof {
            assert(h@.subrange(0, 0) =~= n@);
            assert(match_at_ic(h@, n@, 0));
        }
        return true;
    }
    let mut i: usize = 0;
    while i <= hl - nl
        invariant
            hl == h@.len(),
            nl == n@.len(),
            0 < nl <= hl,
            i <= hl - nl + 1,
            forall|j: int| 0 <= j < i ==> !match_at_ic(h@, n@, j),
        decreases hl - nl - i + 1,
    {
        if match_at_ic_exec(h, n, i) {
            return true;
        }
        i += 1;
    }
    false
}

/// The result of replacing every non-overlapping occurrence of `pat` in `s`
/// with `rep`, scanning left to right (the semantics of `str::replace`).
pub open spec fn replace_seq(s: Seq<char>, pat: Seq<char>, rep: Seq<char>) -> Seq<char>
    decreases s.len(),
{
    if pat.len() == 0 || s.len() < pat.len() {
        s
    } else if s.subrange(0, pat.len() as int) == pat {
        rep + replace_seq(s.subrange(pat.len() as int, s.len() as int), pat, rep)
    } else {
        seq![s[0]] + replace_seq(s.subrange(1, s.len() as int), pat, rep)
    }
}

/// Replace every non-overlapping occurrence of `pat` in `s` with `rep`,
/// scanning left to right.
pub fn replace_str(s: &str, pat: &str, rep: &str) -> (r: String)
    requires
        pat@.len() > 0,
    ensures
        r@ == replace_seq(s@, pat@, rep@),
{
    let sl = s.unicode_len();
    let pl = pat.unicode_len();
    let mut out = String::new();
    let mut i: usize = 0;
    proof {
        assert(s@.subrange(0, sl as int) =~= s@);
        assert(Seq::<char>::empty() + replace_seq(s@, pat@, rep@) =~= replace_seq(s@, pat@, rep@));
    }
    while i < sl
        invariant
            sl == s@.len(),
            pl == pat@.len(),
            pl > 0,
            i <= sl,
            out@ + replace_seq(s@.subrange(i as int, sl as int), pat@, rep@)
                == replace_seq(s@, pat@, rep@),
        decreases sl - i,
    {
        let ghost tail = s@.subrange(i as int, sl as int);
        if pl <= sl - i && match_at_exec(s, pat, i) {
            out.append(rep);
            proof {
                assert(tail.subrange(0, pat@.len() as int) =~= s@.subrange(
                    i as int,
                    i + pat@.len() as int,
                ));
                assert(tail.subrange(pat@.len() as int, tail.len() as int) =~= s@.subrange(
                    i + pl as int,
                    sl as int,
                ));
            }
            i += pl;
        } else {
            let piece = s.substring_char(i, i + 1);
            out.append(piece);
            proof {
                if i + pl <= sl {
                    assert(tail.subrange(0, pat@.len() as int) =~= s@.subrange(
                        i as int,
                        i + pat@.len() as int,
                    ));
                }
                assert(piece@ =~= seq![tail[0]]);
                assert(tail.subrange(1, tail.len() as int) =~= s@.subrange(i + 1, sl as int));
            }
            i += 1;
        }
    }
    proof {
        assert(s@.subrange(sl as int, sl as int) =~= Seq::<char>::empty());
        assert(out@ + Seq::<char>::empty() =~= out@);
    }
    out
}

/// The end of the run of ASCII digits starting at `from`: the first
/// position at or after `from` holding a non-digit, or the length of `s`.
pub open spec fn digit_run_end(s: Seq<char>, from: int) -> int
    decreases s.len() - from,
    when 0 <= from <= s.len()
{
    if from >= s.len() {
        s.len() as int
    } else if !is_digit(s[from]) {
        from
    } else {
        digit_run_end(s, from + 1)
    }
}

/// The characterization of [`digit_run_end`]: everything before the end of
/// the run is a digit, and the run stops at a non-digit or at the end.
pub proof fn lemma_digit_run_end(s: Seq<char>, from: int)
    requires
        0 <= from <= s.len(),
    ensures
        from <= digit_run_end(s, from) <= s.len(),
        forall|j: int| from <= j < digit_run_end(s, from) ==> is_digit(#[trigger] s[j]),
        digit_run_end(s, from) < s.len() ==> !is_digit(s[digit_run_end(s, from)]),
    decreases s.len() - from,
{
    if from < s.len() && is_digit(s[from]) {
        lemma_digit_run_end(s, from + 1);
    }
}

/// A run of digits from `from` up to a non-digit (or the end) at `to` makes
/// `to` the end of the digit run starting at `from`.
pub proof fn lemma_digit_run_end_all(s: Seq<char>, from: int, to: int)
    requires
        0 <= from <= to <= s.len(),
        forall|j: int| from <= j < to ==> is_digit(#[trigger] s[j]),
        to < s.len() ==> !is_digit(s[to]),
    ensures
        digit_run_end(s, from) == to,
    decreases to - from,
{
    if from < to {
        assert(is_digit(s[from]));
        lemma_digit_run_end_all(s, from + 1, to);
    }
}

/// The end of the run of ASCII digits starting at `from`.
pub fn digit_run_end_exec(s: &str, from: usize) -> (r: usize)
    requires
        from <= s@.len(),
    ensures
        r == digit_run_end(s@, from as int),
{
    let len = s.unicode_len();
    let mut i = from;
    while i < len
        invariant
            from <= i <= len,
            len == s@.len(),
            digit_run_end(s@, from as int) == digit_run_end(s@, i as int),
        decreases len - i,
    {
        let u = s.get_char(i) as u32;
        if !(48 <= u && u <= 57) {
            return i;
        }
        i += 1;
    }
    i
}

/// The numeric value of a sequence of ASCII digits, most significant first.
pub open spec fn seq_num(s: Seq<char>) -> nat
    decreases s.len(),
{
    if s.len() == 0 {
        0
    } else {
        seq_num(s.drop_last()) * 10 + digit_val(s.last())
    }
}

/// Every character of `s` is an ASCII digit.
pub open spec fn all_digits(s: Seq<char>) -> bool {
    forall|i: int| 0 <= i < s.len() ==> is_digit(s[i])
}

/// The digit character of a value below ten.
pub open spec fn digit_char(d: nat) -> char {
    ((48 + (d % 10)) as u8) as char
}

/// The decimal representation of `n`, most significant digit first,
/// without leading zeros (`0` itself is `"0"`).
pub open spec fn dec_rep(n: nat) -> Seq<char>
    decreases n,
{
    if n < 10 {
        seq![digit_char(n)]
    } else {
        dec_rep(n / 10).push(digit_char(n % 10))
    }
}

/// Append the decimal representation of `n` to `out`.
pub fn push_u64_dec(n: u64, out: &mut String)
    ensures
        final(out)@ == old(out)@ + dec_rep(n as nat),
    decreases n,
{
    proof {
        reveal_strlit("0123456789");
    }
    let digits = "0123456789";
    if n >= 10 {
        push_u64_dec(n / 10, out);
    }
    let d = (n % 10) as usize;
    let piece = digits.substring_ascii(d, d + 1);
    proof {
        assert(piece@ =~= seq![digit_char((n % 10) as nat)]);
    }
    out.append(piece);
    proof {
        if n >= 10 {
            assert(old(out)@ + dec_rep(n as nat) =~= (old(out)@ + dec_rep((n / 10) as nat)) + seq![
                digit_char((n % 10) as nat),
            ]);
        } else {
            assert(old(out)@ + dec_rep(n as nat) =~= old(out)@ + seq![digit_char(n as nat)]);
        }
    }
}

/// The decimal representation of `n` as a fresh string.
pub fn u64_to_dec(n: u64) -> (r: String)
    ensures
        r@ == dec_rep(n as nat),
{
    let mut out = String::new();
    push_u64_dec(n, &mut out);
    proof {
        assert(Seq::<char>::empty() + dec_rep(n as nat) =~= dec_rep(n as nat));
    }
    out
}


/// The signed decimal representation of `v`: a minus sign before the
/// magnitude for negative values.
pub open spec fn i64_dec(v: int) -> Seq<char> {
    if v < 0 {
        seq!['-'] + dec_rep((-v) as nat)
    } else {
        dec_rep(v as nat)
    }
}

/// Append the signed decimal representation of `n` to `out`.
pub fn push_i64_dec(n: i64, out: &mut String)
    ensures
        final(out)@ == old(out)@ + i64_dec(n as int),
{
    if n < 0 {
        out.append("-");
        let mag: u64 = if n == i64::MIN {
            9223372036854775808u64
        } else {
            (-n) as u64
        };
        push_u64_dec(mag, out);
        proof {
            reveal_strlit("-");
            assert("-"@ =~= seq!['-']);
            assert((old(out)@ + "-"@) + dec_rep(mag as nat) =~= old(out)@ + i64_dec(n as int));
        }
    } else {
        push_u64_dec(n as u64, out);
    }
}


/// Two characters with the same scalar value are the same character.
pub proof fn lemma_char_injective(a: char, b: char)
    requires
        a as u32 == b as u32,
    ensures
        a == b,
{
    vstd::utf8::char_u32_cast(a, a as u32);
    vstd::utf8::char_u32_cast(b, b as u32);
}

} // verus!
