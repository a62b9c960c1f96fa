//! Artifact wire format: an extracted stream is written to a file named
//! `<offset>.<ext>`, and injection recovers the offset from the longest
//! leading run of decimal digits of the file stem. A stem without a
//! leading digit, or whose leading number does not fit in 64 bits, is
//! silently skipped by the injector.

use vstd::prelude::*;

verus! {

/// Whether a byte is an ASCII decimal digit.
pub open spec fn is_digit(c: u8) -> bool {
    0x30 <= c <= 0x39
}

/// The decimal digit bytes of `n`, most significant first.
pub open spec fn dec_digits(n: nat) -> Seq<u8>
    decreases n,
{
    if n < 10 {
        seq![(0x30 + n) as u8]
    } else {
        dec_digits(n / 10) + seq![(0x30 + n % 10) as u8]
    }
}

/// The numeric value of a run of decimal digit bytes.
pub open spec fn digits_value(s: Seq<u8>) -> nat
    decreases s.len(),
{
    if s.len() == 0 {
        0nat
    } else {
        (digits_value(s.drop_last()) * 10 + (s.last() - 0x30)) as nat
    }
}

/// The length of the leading run of decimal digit bytes.
pub open spec fn digit_prefix_len(s: Seq<u8>) -> int
    decreases s.len(),
{
    if s.len() == 0 || !is_digit(s[0]) {
        0
    } else {
        1 + digit_prefix_len(s.skip(1))
    }
}

/// The offset encoded in an artifact file stem: the value of the longest
/// leading digit run, or `None` when there is no leading digit or the
/// value does not fit in 64 bits.
pub open spec fn parse_offset_spec(s: Seq<u8>) -> Option<nat> {
    let k = digit_prefix_len(s);
    if k == 0 {
        None
    } else {
        let v = digits_value(s.subrange(0, k));
        if v > u64::MAX {
            None
        } else {
            Some(v)
        }
    }
}

/// The digit-prefix length is the unique position that has digits before
/// it and no digit at it.
proof fn lemma_digit_prefix_len_char(s: Seq<u8>)
    ensures
        0 <= digit_prefix_len(s) <= s.len(),
        forall|i: int| 0 <= i < digit_prefix_len(s) ==> is_digit(#[trigger] s[i]),
        digit_prefix_len(s) < s.len() ==> !is_digit(s[digit_prefix_len(s)]),
    decreases s.len(),
{
    if s.len() > 0 && is_digit(s[0]) {
        lemma_digit_prefix_len_char(s.skip(1));
        assert(forall|i: int|
            0 <= i < digit_prefix_len(s.skip(1)) ==> is_digit(#[trigger] s.skip(1)[i]));
        assert(forall|i: int| 1 <= i < digit_prefix_len(s) ==> s[i] == s.skip(1)[i - 1]);
    }
}

/// A digit run's value never shrinks as the run is extended.
proof fn lemma_digits_value_mono(s: Seq<u8>, j: int, k: int)
    requires
        0 <= j <= k <= s.len(),
        forall|i: int| 0 <= i < k ==> is_digit(#[trigger] s[i]),
    ensures
        digits_value(s.subrange(0, j)) <= digits_value(s.subrange(0, k)),
    decreases k - j,
{
    if j < k {
        lemma_digits_value_mono(s, j, k - 1);
        let pre = s.subrange(0, k);
        assert(pre.drop_last() =~= s.subrange(0, k - 1));
        assert(digits_value(s.subrange(0, k - 1)) * 10 >= digits_value(s.subrange(0, k - 1)));
    }
}

/// Parses the offset from an artifact file stem: the longest leading run
/// of decimal digits; a stem with no leading digit, or a value that does
/// not fit in 64 bits, parses to `None`.
pub fn parse_artifact_offset(stem: &[u8]) -> (r: Option<u64>)
    ensures
        r matches Some(v) ==> parse_offset_spec(stem@) == Some(v as nat),
        r is None ==> parse_offset_spec(stem@) is None,
{
    proof {
        vstd::slice::axiom_spec_len(stem);
        lemma_digit_prefix_len_char(stem@);
    }
    let n = stem.len();
    let ghost kk = digit_prefix_len(stem@);

    // Measure the leading digit run.
    let mut k: usize = 0;
    while k < n && stem[k] >= 0x30 && stem[k] <= 0x39
        invariant
            n == stem@.len(),
            kk == digit_prefix_len(stem@),
            0 <= kk <= n,
            forall|i: int| 0 <= i < kk ==> is_digit(#[trigger] stem@[i]),
            kk < n ==> !is_digit(stem@[kk as int]),
            k <= kk,
        decreases n - k,
    {
        k = k + 1;
    }
    proof {
        assert(k == kk);
    }
    if k == 0 {
        return None;
    }

    // Accumulate the value, watching for 64-bit overflow.
    let mut v: u64 = 0;
    let mut j: usize = 0;
    while j < k
        invariant
            n == stem@.len(),
            kk == digit_prefix_len(stem@),
            forall|i: int| 0 <= i < kk ==> is_digit(#[trigger] stem@[i]),
            0 < k == kk <= n,
            j <= k,
            v as nat == digits_value(stem@.subrange(0, j as int)),
        decreases k - j,
    {
        let d = (stem[j] - 0x30) as u64;
        let wide = (v as u128) * 10 + (d as u128);
        proof {
            let pre = stem@.subrange(0, j as int + 1);
            assert(pre.drop_last() =~= stem@.subrange(0, j as int));
            assert(pre.last() == stem@[j as int]);
        }
        if wide > u64::MAX as u128 {
            proof {
                lemma_digits_value_mono(stem@, j as int + 1, k as int);
            }
            return None;
        }
        v = wide as u64;
        j = j + 1;
    }
    proof {
        assert(stem@.subrange(0, k as int) =~= stem@.subrange(0, kk));
    }
    Some(v)
}

/// Writes `offset` as decimal digit bytes, most significant first.
pub fn format_offset_decimal(offset: u64) -> (r: Vec<u8>)
    ensures
        r@ == dec_digits(offset as nat),
{
    let mut tmp: Vec<u8> = Vec::new();
    let mut x = offset;
    loop
        invariant_except_break
            dec_digits(offset as nat) == dec_digits(x as nat) + tmp@.reverse(),
        ensures
            dec_digits(offset as nat) == tmp@.reverse(),
            tmp@.len() > 0,
        decreases x,
    {
        let d = 0x30 + (x % 10) as u8;
        let ghost tmp0 = tmp@;
        tmp.push(d);
        proof {
            assert(tmp@.reverse() =~= seq![d] + tmp0.reverse());
        }
        let ghost x0 = x as nat;
        x = x / 10;
        if x == 0 {
            proof {
                assert(dec_digits(x0) == seq![(0x30 + x0) as u8]);
                assert(dec_digits(offset as nat) =~= tmp@.reverse());
            }
            break ;
        }
        proof {
            assert(dec_digits(x0) == dec_digits(x0 / 10) + seq![(0x30 + x0 % 10) as u8]);
            assert(dec_digits(offset as nat) =~= dec_digits(x as nat) + tmp@.reverse());
        }
    }
    let mut r: Vec<u8> = Vec::new();
    let len = tmp.len();
    let mut m: usize = 0;
    while m < len
        invariant
            len == tmp@.len(),
            m <= len,
            r@.len() == m,
            forall|i: int| 0 <= i < m ==> r@[i] == tmp@[len - 1 - i],
        decreases len - m,
    {
        r.push(tmp[len - 1 - m]);
        m = m + 1;
    }
    proof {
        assert(r@ =~= tmp@.reverse());
    }
    r
}

/// Builds an artifact file name, `<offset>.<ext>`, as bytes.
pub fn artifact_file_name(offset: u64, ext: &[u8]) -> (r: Vec<u8>)
    ensures
        r@ == dec_digits(offset as nat) + seq![0x2eu8] + ext@,
{
    proof {
        vstd::slice::axiom_spec_len(ext);
    }
    let mut r = format_offset_decimal(offset);
    let ghost digits = r@;
    r.push(0x2e);
    let mut j: usize = 0;
    while j < ext.len()
        invariant
            r@ == digits + seq![0x2eu8] + ext@.subrange(0, j as int),
            j <= ext@.len(),
            digits == dec_digits(offset as nat),
        decreases ext@.len() - j,
    {
        let ghost r0 = r@;
        r.push(ext[j]);
        j = j + 1;
        proof {
            assert(r@ =~= digits + seq![0x2eu8] + ext@.subrange(0, j as int));
        }
    }
    proof {
        assert(ext@.subrange(0, ext@.len() as int) =~= ext@);
        assert(r@ =~= dec_digits(offset as nat) + seq![0x2eu8] + ext@);
    }
    r
}

/// Every digit of a formatted offset is a decimal digit.
proof fn lemma_dec_digits_are_digits(n: nat)
    ensures
        dec_digits(n).len() >= 1,
        forall|i: int| 0 <= i < dec_digits(n).len() ==> is_digit(#[trigger] dec_digits(n)[i]),
    decreases n,
{
    if n >= 10 {
        lemma_dec_digits_are_digits(n / 10);
    }
}

/// Reading back a formatted offset recovers its value.
proof fn lemma_dec_digits_value(n: nat)
    ensures
        digits_value(dec_digits(n)) == n,
    decreases n,
{
    if n < 10 {
        assert(dec_digits(n).drop_last() =~= Seq::<u8>::empty());
        assert(digits_value(Seq::<u8>::empty()) == 0);
        assert(dec_digits(n).last() == (0x30 + n) as u8);
        assert(((0x30 + n) as u8) as int == 0x30 + n);
        assert(digits_value(dec_digits(n)) == (0 * 10 + ((0x30 + n) as u8 - 0x30)) as nat);
    } else {
        lemma_dec_digits_value(n / 10);
        assert(dec_digits(n).drop_last() =~= dec_digits(n / 10));
        assert(dec_digits(n).last() == (0x30 + n % 10) as u8);
        assert(((0x30 + n % 10) as u8) as int == 0x30 + n % 10);
        assert(digits_value(dec_digits(n)) == (n / 10) * 10 + n % 10);
        vstd::arithmetic::div_mod::lemma_fundamental_div_mod(n as int, 10);
    }
}

/// A run that is all digits has itself as its digit prefix.
proof fn lemma_all_digits_prefix(s: Seq<u8>)
    requires
        forall|i: int| 0 <= i < s.len() ==> is_digit(#[trigger] s[i]),
    ensures
        digit_prefix_len(s) == s.len(),
    decreases s.len(),
{
    if s.len() > 0 {
        assert(forall|i: int| 0 <= i < s.skip(1).len() ==> s.skip(1)[i] == s[i + 1]);
        lemma_all_digits_prefix(s.skip(1));
    }
}

/// Round trip of the artifact wire format: the file stem written for an
/// offset parses back to exactly that offset.
pub proof fn lemma_offset_round_trip(offset: u64)
    ensures
        parse_offset_spec(dec_digits(offset as nat)) == Some(offset as nat),
{
    let s = dec_digits(offset as nat);
    lemma_dec_digits_are_digits(offset as nat);
    lemma_dec_digits_value(offset as nat);
    lemma_all_digits_prefix(s);
    assert(s.subrange(0, s.len() as int) =~= s);
}

/// Whether an artifact of `source_size` bytes fits into a destination of
/// `dest_size` bytes when written at `offset`: the check made before an
/// injection copies anything.
pub fn injection_fits(offset: u64, source_size: u64, dest_size: u64) -> (r: bool)
    ensures
        r == (offset + source_size <= dest_size),
{
    offset <= dest_size && source_size <= dest_size - offset
}

/// The injection strategy choice: whether a file of `size` bytes is
/// addressable by one mapped view on a platform whose pointers are
/// `pointer_bytes` wide and whose largest mappable length is `max_view`.
/// Platforms with pointers narrower than eight bytes cannot map a file
/// longer than their address range; the caller falls back to buffered
/// copying there.
pub fn mappable_in_one_view(pointer_bytes: usize, max_view: u64, size: u64) -> (r: bool)
    ensures
        r == !(pointer_bytes < 8 && size > max_view),
{
    !(pointer_bytes < 8 && size > max_view)
}

} // verus!
