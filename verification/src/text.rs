//! Byte-level text helpers shared by the wire protocols: ASCII digits,
//! whitespace trimming, comma-separated fields, and a fixed-point decimal
//! reader.
//!
//! Numeric fields of the sensor protocols are exact decimals of limited
//! width; they are held as integers in millionths of the carried unit, so no
//! floating point enters the verified logic.

use vstd::prelude::*;

verus! {

/// True for an ASCII decimal digit.
pub open spec fn is_ascii_digit(b: u8) -> bool {
    48 <= b <= 57
}

/// True for the ASCII whitespace bytes that field trimming removes.
pub open spec fn is_ascii_ws(b: u8) -> bool {
    b == 32 || b == 9 || b == 10 || b == 11 || b == 12 || b == 13
}

/// `s` without its leading whitespace.
pub open spec fn trim_front(s: Seq<u8>) -> Seq<u8>
    decreases s.len(),
{
    if s.len() > 0 && is_ascii_ws(s[0]) {
        trim_front(s.skip(1))
    } else {
        s
    }
}

/// `s` without its trailing whitespace.
pub open spec fn trim_back(s: Seq<u8>) -> Seq<u8>
    decreases s.len(),
{
    if s.len() > 0 && is_ascii_ws(s.last()) {
        trim_back(s.drop_last())
    } else {
        s
    }
}

/// `s` without leading and trailing whitespace.
pub open spec fn trimmed(s: Seq<u8>) -> Seq<u8> {
    trim_back(trim_front(s))
}

proof fn lemma_trim_front_skip(s: Seq<u8>, a: int)
    requires
        0 <= a <= s.len(),
        forall|j: int| 0 <= j < a ==> is_ascii_ws(#[trigger] s[j]),
        a < s.len() ==> !is_ascii_ws(s[a]),
    ensures
        trim_front(s) == s.skip(a),
    decreases a,
{
    if a == 0 {
        assert(s.skip(0) =~= s);
    } else {
        let t = s.skip(1);
        assert(forall|j: int| 0 <= j < a - 1 ==> is_ascii_ws(#[trigger] t[j]));
        lemma_trim_front_skip(t, a - 1);
        assert(t.skip(a - 1) =~= s.skip(a));
    }
}

proof fn lemma_trim_back_take(s: Seq<u8>, e: int)
    requires
        0 <= e <= s.len(),
        forall|j: int| e <= j < s.len() ==> is_ascii_ws(#[trigger] s[j]),
        e > 0 ==> !is_ascii_ws(s[e - 1]),
    ensures
        trim_back(s) == s.take(e),
    decreases s.len() - e,
{
    if e == s.len() {
        assert(s.take(e) =~= s);
    } else {
        let t = s.drop_last();
        assert(forall|j: int| e <= j < t.len() ==> is_ascii_ws(#[trigger] t[j]));
        lemma_trim_back_take(t, e);
        assert(t.take(e) =~= s.take(e));
    }
}

fn is_ws_byte(b: u8) -> (r: bool)
    ensures
        r == is_ascii_ws(b),
{
    b == 32 || b == 9 || b == 10 || b == 11 || b == 12 || b == 13
}

/// The executable trim: copies `s` without its outer whitespace.
pub fn trim_bytes(s: &[u8]) -> (r: Vec<u8>)
    ensures
        r@ == trimmed(s@),
{
    let n = s.len();
    let mut a: usize = 0;
    while a < n && is_ws_byte(s[a])
        invariant
            a <= n,
            n == s@.len(),
            forall|j: int| 0 <= j < a ==> is_ascii_ws(#[trigger] s@[j]),
        decreases n - a,
    {
        a = a + 1;
    }
    let mut e: usize = n;
    while e > a && is_ws_byte(s[e - 1])
        invariant
            a <= e <= n,
            n == s@.len(),
            forall|j: int| e <= j < n ==> is_ascii_ws(#[trigger] s@[j]),
        decreases e,
    {
        e = e - 1;
    }
    proof {
        lemma_trim_front_skip(s@, a as int);
        let t = s@.skip(a as int);
        assert forall|j: int| e - a <= j < t.len() implies is_ascii_ws(#[trigger] t[j]) by {
            assert(t[j] == s@[j + a]);
        }
        if e > a {
            assert(t[e - a - 1] == s@[e - 1]);
        }
        lemma_trim_back_take(t, e - a);
    }
    let mut r: Vec<u8> = Vec::new();
    let mut k: usize = a;
    while k < e
        invariant
            a <= k <= e <= n,
            n == s@.len(),
            r@ == s@.subrange(a as int, k as int),
        decreases e - k,
    {
        r.push(s[k]);
        k = k + 1;
        proof {
            assert(r@ =~= s@.subrange(a as int, k as int));
        }
    }
    proof {
        assert(s@.subrange(a as int, e as int) =~= s@.skip(a as int).take(e - a));
    }
    r
}

/// Position of the first comma in `s`, or -1 when `s` holds none.
pub open spec fn comma_pos(s: Seq<u8>) -> int
    decreases s.len(),
{
    if s.len() == 0 {
        -1
    } else if s[0] == 44 {
        0
    } else {
        let p = comma_pos(s.skip(1));
        if p < 0 {
            -1
        } else {
            p + 1
        }
    }
}

/// `s` split at every comma; one more field than commas, in order.
pub open spec fn split_fields(s: Seq<u8>) -> Seq<Seq<u8>>
    decreases s.len(),
{
    let p = comma_pos(s);
    if 0 <= p && p < s.len() {
        seq![s.take(p)] + split_fields(s.skip(p + 1))
    } else {
        seq![s]
    }
}

/// The fields of `s`, each without its outer whitespace.
pub open spec fn trimmed_fields(s: Seq<u8>) -> Seq<Seq<u8>> {
    split_fields(s).map_values(|f: Seq<u8>| trimmed(f))
}

proof fn lemma_comma_pos_first(s: Seq<u8>)
    ensures
        comma_pos(s) >= 0 ==> comma_pos(s) < s.len() && s[comma_pos(s)] == 44,
        comma_pos(s) >= 0 ==> forall|j: int| 0 <= j < comma_pos(s) ==> s[j] != 44,
        comma_pos(s) < 0 ==> forall|j: int| 0 <= j < s.len() ==> s[j] != 44,
    decreases s.len(),
{
    if s.len() == 0 {
    } else if s[0] == 44 {
    } else {
        let t = s.skip(1);
        lemma_comma_pos_first(t);
        assert(forall|j: int| 1 <= j < s.len() ==> s[j] == t[j - 1]);
    }
}

proof fn lemma_comma_pos_at(s: Seq<u8>, i: int)
    requires
        0 <= i < s.len(),
        s[i] == 44,
        forall|j: int| 0 <= j < i ==> s[j] != 44,
    ensures
        comma_pos(s) == i,
{
    lemma_comma_pos_first(s);
}

/// The executable splitter: the fields of `line`, each trimmed.
pub fn split_and_trim(line: &[u8]) -> (r: Vec<Vec<u8>>)
    ensures
        r@.len() == trimmed_fields(line@).len(),
        forall|i: int| 0 <= i < r@.len() ==> r@[i]@ == trimmed_fields(line@)[i],
{
    let mut r: Vec<Vec<u8>> = Vec::new();
    let n = line.len();
    let mut start: usize = 0;
    let mut k: usize = 0;
    proof {
        assert(line@.skip(0) =~= line@);
        assert(r@.map_values(|f: Vec<u8>| f@) =~= Seq::<Seq<u8>>::empty());
        assert(trimmed_fields(line@) =~= r@.map_values(|f: Vec<u8>| f@) + trimmed_fields(
            line@.skip(0),
        ));
    }
    while k < n
        invariant
            start <= k <= n,
            n == line@.len(),
            forall|j: int| start <= j < k ==> line@[j] != 44,
            trimmed_fields(line@) =~= r@.map_values(|f: Vec<u8>| f@) + trimmed_fields(
                line@.skip(start as int),
            ),
        decreases n - k,
    {
        if line[k] == 44 {
            let ghost rest = line@.skip(start as int);
            let ghost prev_views = r@.map_values(|f: Vec<u8>| f@);
            proof {
                assert forall|j: int| 0 <= j < k - start implies rest[j] != 44 by {
                    assert(rest[j] == line@[j + start]);
                }
                assert(rest[k - start] == line@[k as int]);
                lemma_comma_pos_at(rest, k - start);
                assert(rest.take(k - start) =~= line@.subrange(start as int, k as int));
                assert(rest.skip(k - start + 1) =~= line@.skip(k + 1));
                assert(split_fields(rest) == seq![line@.subrange(start as int, k as int)]
                    + split_fields(line@.skip(k + 1)));
                assert(trimmed_fields(rest) =~= seq![
                    trimmed(line@.subrange(start as int, k as int)),
                ] + trimmed_fields(line@.skip(k + 1)));
            }
            let field = trim_subrange(line, start, k);
            r.push(field);
            proof {
                assert(r@.map_values(|f: Vec<u8>| f@) =~= prev_views + seq![
                    trimmed(line@.subrange(start as int, k as int)),
                ]);
                assert(trimmed_fields(line@) =~= r@.map_values(|f: Vec<u8>| f@) + trimmed_fields(
                    line@.skip(k + 1),
                ));
            }
            start = k + 1;
        }
        k = k + 1;
    }
    let ghost rest = line@.skip(start as int);
    let ghost prev_views = r@.map_values(|f: Vec<u8>| f@);
    proof {
        assert forall|j: int| 0 <= j < rest.len() implies rest[j] != 44 by {
            assert(rest[j] == line@[j + start]);
        }
        lemma_comma_pos_first(rest);
        assert(split_fields(rest) == seq![rest]);
        assert(trimmed_fields(rest) =~= seq![trimmed(rest)]);
        assert(rest =~= line@.subrange(start as int, n as int));
    }
    let field = trim_subrange(line, start, n);
    r.push(field);
    proof {
        assert(r@.map_values(|f: Vec<u8>| f@) =~= prev_views + seq![
            trimmed(line@.subrange(start as int, n as int)),
        ]);
        assert(trimmed_fields(line@) =~= r@.map_values(|f: Vec<u8>| f@));
    }
    r
}

/// Trims the bytes of `s` between `from` and `to`.
fn trim_subrange(s: &[u8], from: usize, to: usize) -> (r: Vec<u8>)
    requires
        from <= to <= s@.len(),
    ensures
        r@ == trimmed(s@.subrange(from as int, to as int)),
{
    let mut part: Vec<u8> = Vec::new();
    let mut k: usize = from;
    while k < to
        invariant
            from <= k <= to <= s@.len(),
            part@ == s@.subrange(from as int, k as int),
        decreases to - k,
    {
        part.push(s[k]);
        k = k + 1;
        proof {
            assert(part@ =~= s@.subrange(from as int, k as int));
        }
    }
    trim_bytes(part.as_slice())
}

/// Ten to the `n`.
pub open spec fn pow10(n: nat) -> int
    decreases n,
{
    if n == 0 {
        1
    } else {
        10 * pow10((n - 1) as nat)
    }
}

proof fn lemma_pow10_pos(n: nat)
    ensures
        pow10(n) >= 1,
    decreases n,
{
    if n > 0 {
        lemma_pow10_pos((n - 1) as nat);
    }
}

proof fn lemma_pow10_mono(n: nat, m: nat)
    requires
        n <= m,
    ensures
        pow10(n) <= pow10(m),
    decreases m,
{
    if n < m {
        lemma_pow10_mono(n, (m - 1) as nat);
        lemma_pow10_pos((m - 1) as nat);
    }
}

proof fn lemma_pow10_le_12(n: nat)
    requires
        n <= 12,
    ensures
        pow10(n) <= 1_000_000_000_000,
{
    lemma_pow10_mono(n, 12);
    reveal_with_fuel(pow10, 14);
    assert(pow10(12) == 1_000_000_000_000);
}

proof fn lemma_pow10_add(a: nat, b: nat)
    ensures
        pow10(a + b) == pow10(a) * pow10(b),
    decreases a,
{
    if a == 0 {
    } else {
        lemma_pow10_add((a - 1) as nat, b);
        assert(pow10(a + b) == 10 * pow10((a + b - 1) as nat));
        assert(pow10(a) * pow10(b) == 10 * (pow10((a - 1) as nat) * pow10(b)))
            by (nonlinear_arith)
            requires
                pow10(a) == 10 * pow10((a - 1) as nat),
        ;
    }
}

/// True when every byte of `s` is an ASCII digit.
pub open spec fn all_digits(s: Seq<u8>) -> bool {
    forall|i: int| 0 <= i < s.len() ==> is_ascii_digit(#[trigger] s[i])
}

/// The number written by a string of ASCII digits, most significant first.
pub open spec fn digits_val(s: Seq<u8>) -> int
    decreases s.len(),
{
    if s.len() == 0 {
        0
    } else {
        digits_val(s.drop_last()) * 10 + (s.last() - 48)
    }
}

/// A digit string of length `n` writes a number below ten to the `n`.
proof fn lemma_digits_val_bound(s: Seq<u8>)
    requires
        all_digits(s),
    ensures
        0 <= digits_val(s) < pow10(s.len()),
    decreases s.len(),
{
    if s.len() > 0 {
        let t = s.drop_last();
        assert(all_digits(t));
        lemma_digits_val_bound(t);
        assert(pow10(s.len()) == 10 * pow10(t.len()));
    }
}

/// Position of the first dot in `s`, or -1 when `s` holds none.
pub open spec fn dot_pos(s: Seq<u8>) -> int
    decreases s.len(),
{
    if s.len() == 0 {
        -1
    } else if s[0] == 46 {
        0
    } else {
        let p = dot_pos(s.skip(1));
        if p < 0 {
            -1
        } else {
            p + 1
        }
    }
}

proof fn lemma_dot_pos_first(s: Seq<u8>)
    ensures
        dot_pos(s) >= 0 ==> dot_pos(s) < s.len() && s[dot_pos(s)] == 46,
        dot_pos(s) >= 0 ==> forall|j: int| 0 <= j < dot_pos(s) ==> s[j] != 46,
        dot_pos(s) < 0 ==> forall|j: int| 0 <= j < s.len() ==> s[j] != 46,
    decreases s.len(),
{
    if s.len() == 0 {
    } else if s[0] == 46 {
    } else {
        let t = s.skip(1);
        lemma_dot_pos_first(t);
        assert(forall|j: int| 1 <= j < s.len() ==> s[j] == t[j - 1]);
    }
}

proof fn lemma_dot_pos_at(s: Seq<u8>, i: int)
    requires
        0 <= i < s.len(),
        s[i] == 46,
        forall|j: int| 0 <= j < i ==> s[j] != 46,
    ensures
        dot_pos(s) == i,
{
    lemma_dot_pos_first(s);
}

/// Largest count of integer digits a decimal field may carry.
pub const MAX_INT_DIGITS: usize = 12;

/// Largest count of fractional digits a decimal field may carry.
pub const MAX_FRAC_DIGITS: usize = 6;

/// The exact value, in millionths, of a decimal field: an optional minus
/// sign, then digits with at most one dot, at least one digit in all, at
/// most twelve integer and six fractional digits. Anything else reads as
/// nothing.
pub open spec fn spec_decimal_micro(s: Seq<u8>) -> Option<i64> {
    let neg = s.len() > 0 && s[0] == 45;
    let t = if neg {
        s.skip(1)
    } else {
        s
    };
    let p = dot_pos(t);
    let ip = if p < 0 {
        t
    } else {
        t.take(p)
    };
    let fp = if p < 0 {
        Seq::<u8>::empty()
    } else {
        t.skip(p + 1)
    };
    if all_digits(ip) && all_digits(fp) && ip.len() + fp.len() > 0 && ip.len() <= MAX_INT_DIGITS
        && fp.len() <= MAX_FRAC_DIGITS {
        let v = digits_val(ip) * 1_000_000 + digits_val(fp) * pow10(
            (MAX_FRAC_DIGITS - fp.len()) as nat,
        );
        Some((if neg { -v } else { v }) as i64)
    } else {
        None
    }
}

/// Reads the digits `s[from..to]` as a number.
fn read_digits(s: &[u8], from: usize, to: usize) -> (r: Option<i64>)
    requires
        from <= to <= s@.len(),
    ensures
        to - from <= MAX_INT_DIGITS && all_digits(s@.subrange(from as int, to as int)) ==> (r
            matches Some(v) && v == digits_val(s@.subrange(from as int, to as int))),
        !(to - from <= MAX_INT_DIGITS && all_digits(s@.subrange(from as int, to as int))) ==> r
            is None,
{
    if to - from > MAX_INT_DIGITS {
        return None;
    }
    let mut val: i64 = 0;
    let mut k: usize = from;
    while k < to
        invariant
            from <= k <= to <= s@.len(),
            to - from <= MAX_INT_DIGITS,
            all_digits(s@.subrange(from as int, k as int)),
            val == digits_val(s@.subrange(from as int, k as int)),
            0 <= val < pow10((k - from) as nat),
            val < 1_000_000_000_000,
        decreases to - k,
    {
        let b = s[k];
        if !(48 <= b && b <= 57) {
            proof {
                assert(s@.subrange(from as int, to as int)[k - from] == s@[k as int]);
                assert(!all_digits(s@.subrange(from as int, to as int)));
            }
            return None;
        }
        proof {
            let pre = s@.subrange(from as int, k as int);
            let cur = s@.subrange(from as int, k + 1);
            assert(cur.drop_last() =~= pre);
            assert(cur.last() == s@[k as int]);
            assert forall|i: int| 0 <= i < cur.len() implies is_ascii_digit(#[trigger] cur[i]) by {
                if i < cur.len() - 1 {
                    assert(cur[i] == pre[i]);
                } else {
                    assert(cur[i] == s@[k as int]);
                }
            }
            lemma_digits_val_bound(cur);
            lemma_pow10_le_12((k + 1 - from) as nat);
        }
        val = val * 10 + (b - 48) as i64;
        k = k + 1;
    }
    proof {
        assert(s@.subrange(from as int, k as int) =~= s@.subrange(from as int, to as int));
    }
    Some(val)
}

/// Ten to the `n`, executable, for the fractional scales.
fn pow10_small(n: usize) -> (r: i64)
    requires
        n <= 6,
    ensures
        r == pow10(n as nat),
{
    let mut r: i64 = 1;
    let mut k: usize = 0;
    while k < n
        invariant
            k <= n <= 6,
            r == pow10(k as nat),
            1 <= r <= 1_000_000,
        decreases n - k,
    {
        proof {
            lemma_pow10_mono((k + 1) as nat, 6);
            reveal_with_fuel(pow10, 8);
            assert(pow10(6) == 1_000_000);
            lemma_pow10_pos(k as nat);
        }
        r = r * 10;
        k = k + 1;
    }
    r
}

/// The fractional digits, scaled to millionths, stay below one million.
proof fn lemma_frac_bound(fp: Seq<u8>)
    requires
        all_digits(fp),
        fp.len() <= 6,
    ensures
        0 <= digits_val(fp) * pow10((6 - fp.len()) as nat) < 1_000_000,
{
    lemma_digits_val_bound(fp);
    let k = fp.len();
    let a = digits_val(fp);
    lemma_pow10_pos((6 - k) as nat);
    assert(pow10(k) * pow10((6 - k) as nat) == 1_000_000) by {
        lemma_pow10_add(k, (6 - k) as nat);
        reveal_with_fuel(pow10, 8);
        assert(pow10(6) == 1_000_000);
    }
    assert(a * pow10((6 - k) as nat) < pow10(k) * pow10((6 - k) as nat)) by (nonlinear_arith)
        requires
            0 <= a < pow10(k),
            pow10((6 - k) as nat) >= 1,
    ;
    assert(a * pow10((6 - k) as nat) >= 0) by (nonlinear_arith)
        requires
            a >= 0,
            pow10((6 - k) as nat) >= 1,
    ;
}

/// The executable decimal reader; agrees exactly with
/// [`spec_decimal_micro`].
pub fn parse_decimal_micro(s: &[u8]) -> (r: Option<i64>)
    ensures
        r == spec_decimal_micro(s@),
{
    let n = s.len();
    let neg = n > 0 && s[0] == 45;
    let start: usize = if neg {
        1
    } else {
        0
    };
    let ghost t = if neg {
        s@.skip(1)
    } else {
        s@
    };
    proof {
        assert(t =~= s@.subrange(start as int, n as int));
    }
    let mut dot: usize = n;
    let mut k: usize = start;
    while k < n && dot == n
        invariant
            start <= k <= n,
            n == s@.len(),
            dot == n || (start <= dot < k && s@[dot as int] == 46),
            forall|j: int| start <= j < (if dot == n { k as int } else { dot as int }) ==> s@[j]
                != 46,
        decreases n - k,
    {
        if s[k] == 46 {
            dot = k;
        }
        k = k + 1;
    }
    proof {
        if dot < n {
            assert forall|j: int| 0 <= j < dot - start implies t[j] != 46 by {
                assert(t[j] == s@[j + start]);
            }
            assert(t[dot - start] == s@[dot as int]);
            lemma_dot_pos_at(t, dot - start);
            assert(t.take(dot - start) =~= s@.subrange(start as int, dot as int));
            assert(t.skip(dot - start + 1) =~= s@.subrange(dot + 1, n as int));
        } else {
            assert forall|j: int| 0 <= j < t.len() implies t[j] != 46 by {
                assert(t[j] == s@[j + start]);
            }
            lemma_dot_pos_first(t);
        }
    }
    let ip_end: usize = if dot < n {
        dot
    } else {
        n
    };
    let ghost ip = s@.subrange(start as int, ip_end as int);
    let ghost fp: Seq<u8> = if dot < n {
        s@.subrange(dot + 1, n as int)
    } else {
        Seq::empty()
    };
    proof {
        if dot == n {
            assert(ip =~= t);
        }
    }
    if ip_end - start == 0 && (dot >= n || n - (dot + 1) == 0) {
        proof {
            if dot == n {
                assert(ip.len() == 0 && fp.len() == 0);
            }
        }
        return None;
    }
    if dot < n && n - (dot + 1) > MAX_FRAC_DIGITS {
        return None;
    }
    let int_val = match read_digits(s, start, ip_end) {
        Some(v) => v,
        None => {
            proof {
                assert(ip.len() <= MAX_INT_DIGITS && all_digits(ip) ==> false);
            }
            return None;
        },
    };
    let frac_len: usize = if dot < n {
        n - (dot + 1)
    } else {
        0
    };
    let frac_val = if dot < n {
        match read_digits(s, dot + 1, n) {
            Some(v) => v,
            None => {
                return None;
            },
        }
    } else {
        0i64
    };
    proof {
        assert(frac_val == digits_val(fp));
        assert(fp.len() == frac_len);
        lemma_digits_val_bound(ip);
        lemma_pow10_le_12(ip.len());
        lemma_frac_bound(fp);
    }
    let scale = pow10_small(MAX_FRAC_DIGITS - frac_len);
    let v = int_val * 1_000_000 + frac_val * scale;
    if neg {
        Some(-v)
    } else {
        Some(v)
    }
}

} // verus!
