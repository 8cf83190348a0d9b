//! Text helpers and fan-in aggregation shared across the library.

use vstd::prelude::*;
use vstd::std_specs::iter::IteratorSpec;

use crate::errors::{Error, ErrorKind};

verus! {

/// The characters of `s`, as a vector.
pub fn str_to_chars(s: &str) -> (v: Vec<char>)
    ensures
        v@ == s@,
{
    broadcast use vstd::string::next_postcondition, vstd::string::axiom_spec_iter;

    let mut it = s.chars();
    let mut v: Vec<char> = Vec::new();
    loop
        invariant
            it.obeys_prophetic_iter_laws(),
            it.decrease() is Some,
            v@ + it.remaining() == s@,
        decreases it.decrease()->0,
    {
        match it.next() {
            Some(c) => {
                v.push(c);
            },
            None => {
                assert(v@ + it.remaining() == v@);
                return v;
            },
        }
    }
}

/// Whether two character vectors hold the same text.
pub fn chars_eq(a: &Vec<char>, b: &Vec<char>) -> (r: bool)
    ensures
        r == (a@ == b@),
{
    if a.len() != b.len() {
        return false;
    }
    let mut i: usize = 0;
    while i < a.len()
        invariant
            0 <= i <= a.len(),
            a.len() == b.len(),
            forall|j: int| 0 <= j < i ==> a@[j] == b@[j],
        decreases a.len() - i,
    {
        if a[i] != b[i] {
            return false;
        }
        i += 1;
    }
    proof {
        assert(a@ =~= b@);
    }
    true
}

/// A copy of `a` (its characters are `Copy`).
pub fn chars_clone(a: &Vec<char>) -> (r: Vec<char>)
    ensures
        r@ == a@,
{
    let mut r: Vec<char> = Vec::new();
    let mut i: usize = 0;
    while i < a.len()
        invariant
            0 <= i <= a.len(),
            r@ == a@.take(i as int),
        decreases a.len() - i,
    {
        r.push(a[i]);
        i += 1;
    }
    proof {
        assert(a@.take(a.len() as int) =~= a@);
    }
    r
}

/// Whether `c` counts as trailing whitespace in a brightness file.
pub open spec fn spec_is_space(c: char) -> bool {
    c == ' ' || c == '\n' || c == '\r' || c == '\t'
}

/// `s` with trailing whitespace removed.
pub open spec fn spec_trim_end(s: Seq<char>) -> Seq<char>
    decreases s.len(),
{
    if s.len() > 0 && spec_is_space(s.last()) {
        spec_trim_end(s.drop_last())
    } else {
        s
    }
}

/// Whether `s` is a non-empty run of decimal digits.
pub open spec fn spec_is_digits(s: Seq<char>) -> bool {
    s.len() > 0 && forall|i: int| 0 <= i < s.len() ==> '0' <= #[trigger] s[i] <= '9'
}

/// The number denoted by a run of decimal digits.
pub open spec fn spec_digits_value(s: Seq<char>) -> int
    decreases s.len(),
{
    if s.len() == 0 {
        0
    } else {
        spec_digits_value(s.drop_last()) * 10 + (s.last() as int - '0' as int)
    }
}

/// A digit run's value only grows as more digits follow.
proof fn lemma_digits_value_grows(s: Seq<char>, i: int)
    requires
        0 <= i <= s.len(),
        spec_is_digits(s) || s.len() == 0,
    ensures
        spec_digits_value(s.take(i)) <= spec_digits_value(s),
        spec_digits_value(s) >= 0,
    decreases s.len() - i,
{
    if i == s.len() {
        assert(s.take(i) =~= s);
        lemma_digits_value_nonneg(s);
    } else {
        lemma_digits_value_grows(s, i + 1);
        lemma_digits_value_nonneg(s.take(i));
        assert(s.take(i + 1).drop_last() =~= s.take(i));
        assert(spec_digits_value(s.take(i + 1)) == spec_digits_value(s.take(i)) * 10 + (s[i] as int
            - '0' as int));
        assert(spec_digits_value(s.take(i)) <= spec_digits_value(s.take(i)) * 10) by (nonlinear_arith)
            requires
                spec_digits_value(s.take(i)) >= 0,
        ;
    }
}

proof fn lemma_digits_value_nonneg(s: Seq<char>)
    requires
        s.len() == 0 || spec_is_digits(s),
    ensures
        spec_digits_value(s) >= 0,
    decreases s.len(),
{
    if s.len() > 0 {
        if s.len() == 1 {
            assert(s.drop_last().len() == 0);
        } else {
            assert(spec_is_digits(s.drop_last())) by {
                assert(forall|i: int|
                    0 <= i < s.drop_last().len() ==> #[trigger] s.drop_last()[i] == s[i]);
            }
            lemma_digits_value_nonneg(s.drop_last());
        }
        assert(spec_digits_value(s.drop_last()) * 10 >= 0) by (nonlinear_arith)
            requires
                spec_digits_value(s.drop_last()) >= 0,
        ;
    }
}

/// Read a raw brightness number from the text of a sysfs attribute file:
/// decimal digits, with trailing whitespace ignored. Anything else, or a
/// value beyond `u32`, is an I/O error.
pub fn parse_raw_brightness(s: &str) -> (r: Result<u32, Error>)
    ensures
        ({
            let t = spec_trim_end(s@);
            &&& (r is Ok <==> spec_is_digits(t) && spec_digits_value(t) <= u32::MAX)
            &&& (r matches Ok(v) ==> v == spec_digits_value(t))
            &&& (r matches Err(e) ==> e.kind == ErrorKind::Io)
        }),
{
    let chars = str_to_chars(s);
    let trimmed = trim_end_chars(&chars);
    let t = trimmed;
    if t.len() == 0 {
        return Err(Error::of_kind(ErrorKind::Io));
    }
    let mut value: u64 = 0;
    let mut i: usize = 0;
    while i < t.len()
        invariant
            0 <= i <= t.len(),
            t@ == spec_trim_end(s@),
            t@.len() > 0,
            forall|j: int| 0 <= j < i ==> '0' <= #[trigger] t@[j] <= '9',
            value == spec_digits_value(t@.take(i as int)),
            value <= u32::MAX,
        decreases t.len() - i,
    {
        let c = t[i];
        if c < '0' || c > '9' {
            proof {
                assert(!('0' <= t@[i as int] <= '9'));
            }
            return Err(Error::of_kind(ErrorKind::Io));
        }
        let d: u64 = (c as u32) as u64 - 48;
        proof {
            assert(t@.take(i + 1 as int).drop_last() =~= t@.take(i as int));
        }
        let next: u64 = value * 10 + d;
        if next > u32::MAX as u64 {
            proof {
                if spec_is_digits(t@) {
                    lemma_digits_value_grows(t@, i + 1 as int);
                }
            }
            return Err(Error::of_kind(ErrorKind::Io));
        }
        value = next;
        i += 1;
    }
    proof {
        assert(t@.take(t@.len() as int) =~= t@);
    }
    Ok(value as u32)
}

/// Powers of ten.
pub open spec fn spec_pow10(n: nat) -> int
    decreases n,
{
    if n == 0 {
        1
    } else {
        10 * spec_pow10((n - 1) as nat)
    }
}

/// Prepending a digit adds its value at the run's magnitude.
proof fn lemma_digits_value_prepend(c: char, s: Seq<char>)
    ensures
        spec_digits_value(seq![c] + s) == (c as int - '0' as int) * spec_pow10(s.len())
            + spec_digits_value(s),
    decreases s.len(),
{
    if s.len() == 0 {
        assert(seq![c] + s =~= seq![c]);
        assert(seq![c].drop_last() =~= Seq::<char>::empty());
        assert(spec_digits_value(Seq::<char>::empty()) == 0);
        assert(spec_digits_value(seq![c]) == spec_digits_value(seq![c].drop_last()) * 10 + (
        seq![c].last() as int - '0' as int));
        assert(seq![c].last() == c);
        assert(spec_pow10(0) == 1);
        assert((c as int - '0' as int) * 1 == c as int - '0' as int) by (nonlinear_arith);
    } else {
        let t = seq![c] + s;
        assert(t.drop_last() =~= seq![c] + s.drop_last());
        assert(t.last() == s.last());
        lemma_digits_value_prepend(c, s.drop_last());
        let d = c as int - '0' as int;
        let p = spec_pow10((s.len() - 1) as nat);
        assert(spec_digits_value(t) == (d * p + spec_digits_value(s.drop_last())) * 10 + (s.last()
            as int - '0' as int));
        assert((d * p + spec_digits_value(s.drop_last())) * 10 == d * (10 * p)
            + spec_digits_value(s.drop_last()) * 10) by (nonlinear_arith);
        assert(spec_pow10(s.len()) == 10 * p);
    }
}

/// The decimal text of `v`: digits only, no leading zero except for 0 itself.
pub fn u32_to_chars(v: u32) -> (r: Vec<char>)
    ensures
        spec_is_digits(r@),
        spec_digits_value(r@) == v,
{
    let mut r: Vec<char> = Vec::new();
    if v == 0 {
        r.push('0');
        proof {
            assert(r@.drop_last() =~= Seq::<char>::empty());
            assert(spec_digits_value(r@) == spec_digits_value(r@.drop_last()) * 10 + (r@.last()
                as int - '0' as int));
            assert(spec_digits_value(r@.drop_last()) == 0);
            assert(r@.last() == '0');
        }
        return r;
    }
    let mut x = v;
    while x > 0
        invariant
            0 <= x,
            x as int * spec_pow10(r@.len()) + spec_digits_value(r@) == v as int,
            forall|j: int| 0 <= j < r@.len() ==> '0' <= #[trigger] r@[j] <= '9',
            x == 0 ==> r@.len() > 0,
        decreases x,
    {
        let d: u32 = x % 10;
        let c: char = (48 + d as u8) as char;
        let ghost old_r = r@;
        r.insert(0, c);
        proof {
            assert(r@ =~= seq![c] + old_r);
            lemma_digits_value_prepend(c, old_r);
            assert(c as int == 48 + d);
            vstd::arithmetic::div_mod::lemma_fundamental_div_mod(x as int, 10);
            assert((x as int / 10) * (10 * spec_pow10(old_r.len())) + (x as int % 10) * spec_pow10(
                old_r.len(),
            ) == x as int * spec_pow10(old_r.len())) by (nonlinear_arith)
                requires
                    x as int == 10 * (x as int / 10) + x as int % 10,
            ;
        }
        x = x / 10;
    }
    r
}

/// The payloads of the `Ok` entries of `s`, in order.
pub open spec fn spec_ok_values<T>(s: Seq<Result<T, Error>>) -> Seq<T>
    decreases s.len(),
{
    if s.len() == 0 {
        Seq::empty()
    } else {
        let rest = spec_ok_values(s.drop_last());
        match s.last() {
            Ok(v) => rest.push(v),
            Err(_) => rest,
        }
    }
}

/// Fan-in with partial-failure tolerance: keep every success, in order, and
/// fail with `NoDevices` only when there is not a single success.
pub fn accept_single_ok<T>(results: Vec<Result<T, Error>>) -> (r: Result<Vec<T>, Error>)
    ensures
        r is Ok <==> spec_ok_values(results@).len() > 0,
        r matches Ok(v) ==> v@ == spec_ok_values(results@),
        r matches Err(e) ==> e.kind == ErrorKind::NoDevices,
{
    let ghost orig = results@;
    let mut rest = results;
    let mut ok: Vec<T> = Vec::new();
    let ghost mut seen: Seq<Result<T, Error>> = Seq::empty();
    while rest.len() > 0
        invariant
            orig == seen + rest@,
            ok@ == spec_ok_values(seen),
        decreases rest.len(),
    {
        let x = rest.remove(0);
        proof {
            assert(seen.push(orig[seen.len() as int]).drop_last() =~= seen);
            seen = seen.push(x);
            assert(orig =~= seen + rest@);
        }
        match x {
            Ok(v) => {
                ok.push(v);
            },
            Err(_) => {},
        }
    }
    proof {
        assert(orig =~= seen);
    }
    if ok.len() == 0 {
        Err(Error::of_kind(ErrorKind::NoDevices))
    } else {
        Ok(ok)
    }
}

/// The sum of a sequence of readings.
pub open spec fn spec_sum(s: Seq<u64>) -> int
    decreases s.len(),
{
    if s.len() == 0 {
        0
    } else {
        spec_sum(s.drop_last()) + s.last()
    }
}

proof fn lemma_sum_bound(s: Seq<u64>, bound: int)
    requires
        forall|i: int| 0 <= i < s.len() ==> #[trigger] s[i] <= bound,
        bound >= 0,
    ensures
        0 <= spec_sum(s) <= s.len() * bound,
    decreases s.len(),
{
    if s.len() > 0 {
        assert(forall|i: int|
            0 <= i < s.drop_last().len() ==> #[trigger] s.drop_last()[i] <= bound);
        lemma_sum_bound(s.drop_last(), bound);
        assert((s.len() - 1) * bound + bound == s.len() * bound) by (nonlinear_arith);
    }
}

/// The arithmetic mean of the readings, rounded towards zero.
pub fn mean_brightness(values: &Vec<u64>) -> (r: u64)
    requires
        values@.len() > 0,
        forall|i: int| 0 <= i < values@.len() ==> #[trigger] values@[i] <= crate::SCALE,
    ensures
        r == spec_sum(values@) / (values@.len() as int),
        r <= crate::SCALE,
{
    let n = values.len();
    let mut sum: u128 = 0;
    let mut i: usize = 0;
    while i < n
        invariant
            0 <= i <= n,
            n == values@.len(),
            forall|j: int| 0 <= j < values@.len() ==> #[trigger] values@[j] <= crate::SCALE,
            sum == spec_sum(values@.take(i as int)),
            sum <= i * crate::SCALE,
        decreases n - i,
    {
        proof {
            assert(values@.take(i + 1 as int).drop_last() =~= values@.take(i as int));
        }
        sum = sum + values[i] as u128;
        i += 1;
    }
    proof {
        assert(values@.take(n as int) =~= values@);
        lemma_sum_bound(values@, crate::SCALE as int);
        vstd::arithmetic::div_mod::lemma_div_is_ordered(
            spec_sum(values@),
            values@.len() * crate::SCALE as int,
            values@.len() as int,
        );
        vstd::arithmetic::div_mod::lemma_div_multiples_vanish(
            crate::SCALE as int,
            values@.len() as int,
        );
        vstd::arithmetic::div_mod::lemma_div_pos_is_pos(spec_sum(values@), values@.len() as int);
        assert(values@.len() as int * crate::SCALE as int == crate::SCALE as int * values@.len() as int)
            by (nonlinear_arith);
    }
    (sum / n as u128) as u64
}

/// Newlines in `s`.
pub open spec fn spec_count_newlines(s: Seq<char>) -> int
    decreases s.len(),
{
    if s.len() == 0 {
        0
    } else {
        spec_count_newlines(s.drop_last()) + if s.last() == '\n' {
            1int
        } else {
            0int
        }
    }
}

proof fn lemma_count_newlines_bound(s: Seq<char>)
    ensures
        0 <= spec_count_newlines(s) <= s.len(),
    decreases s.len(),
{
    if s.len() > 0 {
        lemma_count_newlines_bound(s.drop_last());
    }
}

/// The 1-based line number of the character at `offset`: one more than the
/// newlines that precede it.
pub fn line_of_offset(text: &Vec<char>, offset: usize) -> (r: usize)
    requires
        offset <= text@.len(),
        text@.len() < usize::MAX,
    ensures
        r == 1 + spec_count_newlines(text@.take(offset as int)),
{
    let mut count: usize = 0;
    let mut i: usize = 0;
    while i < offset
        invariant
            0 <= i <= offset <= text@.len() < usize::MAX,
            count == spec_count_newlines(text@.take(i as int)),
            count <= i,
        decreases offset - i,
    {
        proof {
            assert(text@.take(i + 1 as int).drop_last() =~= text@.take(i as int));
            lemma_count_newlines_bound(text@.take(i as int));
        }
        if text[i] == '\n' {
            count += 1;
        }
        i += 1;
    }
    count + 1
}

/// Whether `c` counts as trailing whitespace in a brightness file.
pub fn is_space_char(c: char) -> (r: bool)
    ensures
        r == spec_is_space(c),
{
    c == ' ' || c == '\n' || c == '\r' || c == '\t'
}

/// `chars` with trailing whitespace removed.
pub fn trim_end_chars(chars: &Vec<char>) -> (r: Vec<char>)
    ensures
        r@ == spec_trim_end(chars@),
{
    let mut end: usize = chars.len();
    proof {
        assert(chars@.take(chars@.len() as int) =~= chars@);
    }
    while end > 0 && is_space_char(chars[end - 1])
        invariant
            0 <= end <= chars.len(),
            spec_trim_end(chars@) == spec_trim_end(chars@.take(end as int)),
        decreases end,
    {
        proof {
            assert(chars@.take(end as int).drop_last() =~= chars@.take(end - 1));
            assert(chars@.take(end as int).last() == chars@[end - 1]);
        }
        end -= 1;
    }
    let mut r: Vec<char> = Vec::new();
    let mut i: usize = 0;
    while i < end
        invariant
            0 <= i <= end <= chars.len(),
            r@ == chars@.take(end as int).take(i as int),
            spec_trim_end(chars@) == spec_trim_end(chars@.take(end as int)),
            end > 0 ==> !spec_is_space(chars@[end - 1]),
        decreases end - i,
    {
        proof {
            assert(chars@.take(end as int).take(i + 1 as int) =~= chars@.take(end as int).take(
                i as int,
            ).push(chars@[i as int]));
        }
        r.push(chars[i]);
        i += 1;
    }
    proof {
        assert(r@ =~= chars@.take(end as int));
        if end > 0 {
            assert(!spec_is_space(chars@.take(end as int).last()));
        }
    }
    r
}

} // verus!
