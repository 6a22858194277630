//! Decimal numbers as the query tool prints them: an optional sign, integer
//! digits and fraction digits. Values are kept in a canonical form so that a
//! reading renders the way the tool's output reads.
use vstd::prelude::*;
use vstd::string::*;

verus! {

/// A decimal digit character, `'0'` through `'9'`.
pub open spec fn is_digit(c: char) -> bool {
    48 <= c as u32 <= 57
}

/// Every character of `s` is a decimal digit.
pub open spec fn all_digits(s: Seq<char>) -> bool {
    forall|i: int| 0 <= i < s.len() ==> is_digit(#[trigger] s[i])
}

/// The numeric value of one digit character.
pub open spec fn digit_val(c: char) -> nat {
    (c as u32 - 48) as nat
}

/// The value of a digit string read in base ten.
pub open spec fn digits_val(s: Seq<char>) -> nat
    decreases s.len(),
{
    if s.len() == 0 {
        0
    } else {
        digits_val(s.drop_last()) * 10 + digit_val(s.last())
    }
}

proof fn lemma_digits_val_two(s: Seq<char>)
    requires
        s.len() == 2,
    ensures
        digits_val(s) == digit_val(s[0]) * 10 + digit_val(s[1]),
{
    let dl = s.drop_last();
    assert(dl.len() == 1);
    assert(dl.drop_last().len() == 0);
    assert(digits_val(dl.drop_last()) == 0);
    assert(dl.last() == s[0]);
    assert(digits_val(dl) == digit_val(s[0]));
    assert(s.last() == s[1]);
}

proof fn lemma_digits_val_ge_100(s: Seq<char>)
    requires
        s.len() >= 3,
        digit_val(s[0]) >= 1,
    ensures
        digits_val(s) >= 100,
    decreases s.len(),
{
    let dl = s.drop_last();
    if s.len() == 3 {
        assert(dl.len() == 2);
        assert(dl[0] == s[0]);
        lemma_digits_val_two(dl);
        assert(digits_val(dl) >= 10);
        assert(digits_val(s) == digits_val(dl) * 10 + digit_val(s.last()));
    } else {
        assert(dl[0] == s[0]);
        lemma_digits_val_ge_100(dl);
        assert(digits_val(s) == digits_val(dl) * 10 + digit_val(s.last()));
    }
}

/// A digit other than the character zero has a nonzero value.
proof fn lemma_nonzero_digit(c: char)
    requires
        c != '0',
        is_digit(c),
    ensures
        c as u32 != 48,
        digit_val(c) >= 1,
{
}

/// An ASCII whitespace character, as the query tool's output is trimmed.
pub open spec fn is_space(c: char) -> bool {
    c == ' ' || c == '\t' || c == '\n' || c == '\r'
}

/// `s` with its leading whitespace removed.
pub open spec fn trim_front(s: Seq<char>) -> Seq<char>
    decreases s.len(),
{
    if s.len() > 0 && is_space(s[0]) {
        trim_front(s.drop_first())
    } else {
        s
    }
}

/// `s` with its trailing whitespace removed.
pub open spec fn trim_back(s: Seq<char>) -> Seq<char>
    decreases s.len(),
{
    if s.len() > 0 && is_space(s.last()) {
        trim_back(s.drop_last())
    } else {
        s
    }
}

/// `s` with whitespace removed at both ends.
pub open spec fn trimmed(s: Seq<char>) -> Seq<char> {
    trim_back(trim_front(s))
}

/// The text starts with a minus sign.
pub open spec fn is_neg(s: Seq<char>) -> bool {
    s.len() > 0 && s[0] == '-'
}

/// The text after the optional minus sign.
pub open spec fn body_of(s: Seq<char>) -> Seq<char> {
    if is_neg(s) {
        s.drop_first()
    } else {
        s
    }
}

/// Position `k` holds the sole decimal point of `b`, with digits on both sides.
pub open spec fn dot_split_ok(b: Seq<char>, k: int) -> bool {
    &&& 0 <= k < b.len()
    &&& b[k] == '.'
    &&& all_digits(b.subrange(0, k))
    &&& all_digits(b.subrange(k + 1, b.len() as int))
}

/// The unsigned part of a number: digits, with at most one decimal point and
/// at least one digit.
pub open spec fn wf_body(b: Seq<char>) -> bool {
    (b.len() >= 1 && all_digits(b)) || (b.len() >= 2 && exists|k: int| dot_split_ok(b, k))
}

/// The (already trimmed) text is a decimal number: an optional minus sign,
/// then digits around at most one decimal point, with at least one digit.
pub open spec fn wf_number(s: Seq<char>) -> bool {
    wf_body(body_of(s))
}

/// Leading zeros removed, down to a single digit.
pub open spec fn strip_leading_zeros(s: Seq<char>) -> Seq<char>
    decreases s.len(),
{
    if s.len() > 1 && s[0] == '0' {
        strip_leading_zeros(s.drop_first())
    } else {
        s
    }
}

/// The canonical integer part: leading zeros dropped, an empty part read as zero.
pub open spec fn canon_int(s: Seq<char>) -> Seq<char> {
    if s.len() == 0 {
        seq!['0']
    } else {
        strip_leading_zeros(s)
    }
}

/// Trailing zeros removed entirely.
pub open spec fn strip_trailing_zeros(s: Seq<char>) -> Seq<char>
    decreases s.len(),
{
    if s.len() > 0 && s.last() == '0' {
        strip_trailing_zeros(s.drop_last())
    } else {
        s
    }
}

/// `d` is the canonical reading of the (trimmed, well-formed) number text `s`.
pub open spec fn represents(d: Decimal, s: Seq<char>) -> bool {
    let b = body_of(s);
    &&& d.neg == is_neg(s)
    &&& if all_digits(b) {
        d.int_digits@ == canon_int(b) && d.frac_digits@.len() == 0
    } else {
        exists|k: int|
            #[trigger] dot_split_ok(b, k) && d.int_digits@ == canon_int(b.subrange(0, k))
                && d.frac_digits@ == strip_trailing_zeros(b.subrange(k + 1, b.len() as int))
    }
}

/// A text with two decimal points is not a number.
proof fn lemma_two_dots(b: Seq<char>, k1: int, k2: int)
    requires
        0 <= k1 < k2 < b.len(),
        b[k1] == '.',
        b[k2] == '.',
    ensures
        !wf_body(b),
{
    assert(!is_digit(b[k1]));
    assert forall|k: int| !dot_split_ok(b, k) by {
        if dot_split_ok(b, k) {
            if k <= k1 {
                assert(b.subrange(k + 1, b.len() as int)[k2 - k - 1] == b[k2]);
                assert(false);
            } else {
                assert(b.subrange(0, k)[k1] == b[k1]);
                assert(false);
            }
        }
    }
}

/// A text with a character that is neither a digit nor the decimal point is
/// not a number.
proof fn lemma_bad_char(b: Seq<char>, j: int)
    requires
        0 <= j < b.len(),
        !is_digit(b[j]),
        b[j] != '.',
    ensures
        !wf_body(b),
{
    assert forall|k: int| !dot_split_ok(b, k) by {
        if dot_split_ok(b, k) {
            if j < k {
                assert(b.subrange(0, k)[j] == b[j]);
                assert(false);
            } else if j > k {
                assert(b.subrange(k + 1, b.len() as int)[j - k - 1] == b[j]);
                assert(false);
            }
        }
    }
}

/// Appending one more digit keeps a range all digits.
proof fn lemma_all_digits_push(s: Seq<char>, lo: int, i: int)
    requires
        0 <= lo <= i < s.len(),
        all_digits(s.subrange(lo, i)),
        is_digit(s[i]),
    ensures
        all_digits(s.subrange(lo, i + 1)),
{
    let s1 = s.subrange(lo, i);
    let s2 = s.subrange(lo, i + 1);
    assert forall|j: int| 0 <= j < s2.len() implies is_digit(#[trigger] s2[j]) by {
        if j < s1.len() {
            assert(s2[j] == s1[j]);
        } else {
            assert(s2[j] == s[i]);
        }
    }
}

/// Whether `c` is ASCII whitespace.
fn is_space_char(c: char) -> (r: bool)
    ensures
        r == is_space(c),
{
    c == ' ' || c == '\t' || c == '\n' || c == '\r'
}

/// Whether `c` is a decimal digit.
fn is_digit_char(c: char) -> (r: bool)
    ensures
        r == is_digit(c),
{
    let v: u32 = c as u32;
    v >= 48 && v <= 57
}

/// Remove whitespace from both ends, as the query tool's output carries a
/// trailing newline.
pub fn trim_str(s: &str) -> (r: &str)
    ensures
        r@ == trimmed(s@),
{
    let n: usize = s.unicode_len();
    proof {
        assert(s@.subrange(0, n as int) =~= s@);
    }
    let mut a: usize = 0;
    while a < n && is_space_char(s.get_char(a))
        invariant
            0 <= a <= n,
            n == s@.len(),
            trim_front(s@) == trim_front(s@.subrange(a as int, n as int)),
        decreases n - a,
    {
        proof {
            let sub = s@.subrange(a as int, n as int);
            assert(sub.len() > 0 && is_space(sub[0]));
            assert(sub.drop_first() =~= s@.subrange(a as int + 1, n as int));
        }
        a += 1;
    }
    proof {
        let sub = s@.subrange(a as int, n as int);
        assert(trim_front(sub) == sub);
        assert(trim_front(s@) == s@.subrange(a as int, n as int));
    }
    let mut b: usize = n;
    while b > a && is_space_char(s.get_char(b - 1))
        invariant
            a <= b <= n,
            n == s@.len(),
            trim_front(s@) == s@.subrange(a as int, n as int),
            trim_back(s@.subrange(a as int, n as int)) == trim_back(s@.subrange(a as int, b as int)),
        decreases b,
    {
        proof {
            let sub = s@.subrange(a as int, b as int);
            assert(sub.len() > 0 && is_space(sub.last()));
            assert(sub.drop_last() =~= s@.subrange(a as int, b as int - 1));
        }
        b -= 1;
    }
    proof {
        let sub = s@.subrange(a as int, b as int);
        assert(trim_back(sub) == sub);
        assert(trimmed(s@) == s@.subrange(a as int, b as int));
    }
    s.substring_char(a, b)
}

/// Copy the digit region, dropping leading zeros; an empty region reads as "0".
fn canon_int_region(t: &str, lo: usize, hi: usize) -> (r: String)
    requires
        lo <= hi <= t@.len(),
        all_digits(t@.subrange(lo as int, hi as int)),
    ensures
        r@ == canon_int(t@.subrange(lo as int, hi as int)),
        all_digits(r@),
        r@.len() >= 1,
        r@.len() > 1 ==> r@[0] != '0',
{
    let region = Ghost(t@.subrange(lo as int, hi as int));
    if lo == hi {
        let r = String::from_str("0");
        proof {
            reveal_strlit("0");
            assert(r@ =~= seq!['0']);
            assert(canon_int(region@) == seq!['0']);
            assert(is_digit('0'));
        }
        return r;
    }
    let mut a: usize = lo;
    while a + 1 < hi && t.get_char(a) == '0'
        invariant
            lo <= a < hi <= t@.len(),
            all_digits(t@.subrange(lo as int, hi as int)),
            strip_leading_zeros(t@.subrange(lo as int, hi as int)) == strip_leading_zeros(
                t@.subrange(a as int, hi as int),
            ),
        decreases hi - a,
    {
        proof {
            let sub = t@.subrange(a as int, hi as int);
            assert(sub.len() > 1 && sub[0] == '0');
            assert(sub.drop_first() =~= t@.subrange(a as int + 1, hi as int));
        }
        a += 1;
    }
    proof {
        let sub = t@.subrange(a as int, hi as int);
        assert(strip_leading_zeros(sub) == sub);
        assert(canon_int(region@) == sub);
        assert forall|j: int| 0 <= j < sub.len() implies is_digit(#[trigger] sub[j]) by {
            assert(sub[j] == region@[j + (a - lo)]);
        }
        assert(sub.len() > 1 ==> sub[0] != '0');
    }
    String::from_str(t.substring_char(a, hi))
}

/// Copy the digit region, dropping trailing zeros.
fn frac_region(t: &str, lo: usize, hi: usize) -> (r: String)
    requires
        lo <= hi <= t@.len(),
        all_digits(t@.subrange(lo as int, hi as int)),
    ensures
        r@ == strip_trailing_zeros(t@.subrange(lo as int, hi as int)),
        all_digits(r@),
        r@.len() > 0 ==> r@.last() != '0',
{
    let region = Ghost(t@.subrange(lo as int, hi as int));
    let mut b: usize = hi;
    while b > lo && t.get_char(b - 1) == '0'
        invariant
            lo <= b <= hi <= t@.len(),
            all_digits(t@.subrange(lo as int, hi as int)),
            strip_trailing_zeros(t@.subrange(lo as int, hi as int)) == strip_trailing_zeros(
                t@.subrange(lo as int, b as int),
            ),
        decreases b,
    {
        proof {
            let sub = t@.subrange(lo as int, b as int);
            assert(sub.len() > 0 && sub.last() == '0');
            assert(sub.drop_last() =~= t@.subrange(lo as int, b as int - 1));
        }
        b -= 1;
    }
    proof {
        let sub = t@.subrange(lo as int, b as int);
        assert(strip_trailing_zeros(sub) == sub);
        assert forall|j: int| 0 <= j < sub.len() implies is_digit(#[trigger] sub[j]) by {
            assert(sub[j] == region@[j]);
        }
    }
    String::from_str(t.substring_char(lo, b))
}

/// A decimal number parsed from the query tool's output, held in canonical
/// form: the sign, the integer digits and the fraction digits.
#[derive(Debug)]
pub struct Decimal {
    pub neg: bool,
    pub int_digits: String,
    pub frac_digits: String,
}

impl Decimal {
    /// Canonical form: the integer part is a nonempty digit string with no
    /// leading zero (unless it is exactly "0"), and the fraction digits carry
    /// no trailing zero.
    pub open spec fn wf(self) -> bool {
        &&& all_digits(self.int_digits@)
        &&& self.int_digits@.len() >= 1
        &&& (self.int_digits@.len() > 1 ==> self.int_digits@[0] != '0')
        &&& all_digits(self.frac_digits@)
        &&& (self.frac_digits@.len() > 0 ==> self.frac_digits@.last() != '0')
    }

    /// The number is strictly greater than seventy. In canonical form a
    /// nonempty fraction is strictly positive, so seventy-point-something
    /// exceeds seventy while exactly seventy does not.
    pub open spec fn gt_seventy(self) -> bool {
        &&& !self.neg
        &&& (digits_val(self.int_digits@) > 70 || (digits_val(self.int_digits@) == 70
            && self.frac_digits@.len() > 0))
    }

    /// The canonical text of the number, as a reading renders it.
    pub open spec fn text(self) -> Seq<char> {
        (if self.neg {
            seq!['-']
        } else {
            Seq::<char>::empty()
        }) + self.int_digits@ + (if self.frac_digits@.len() > 0 {
            seq!['.'] + self.frac_digits@
        } else {
            Seq::<char>::empty()
        })
    }

    /// The zero value, used as the fallback when the load query fails.
    pub fn zero() -> (d: Decimal)
        ensures
            d.wf(),
            !d.gt_seventy(),
            d.text() =~= "0"@,
            d.text() =~= seq!['0'],
    {
        let d = Decimal { neg: false, int_digits: String::from_str("0"), frac_digits: String::new() };
        proof {
            reveal_strlit("0");
            assert(d.int_digits@ =~= seq!['0']);
            assert(d.int_digits@.len() == 1);
            assert(d.int_digits@.last() == '0');
            assert(d.int_digits@.drop_last().len() == 0);
            assert(digits_val(d.int_digits@.drop_last()) == 0);
            assert(digits_val(d.int_digits@) == digit_val('0'));
            assert(digit_val('0') == 0);
        }
        d
    }

    /// Decide the strict comparison against seventy from the digits.
    pub fn is_gt_seventy(&self) -> (r: bool)
        requires
            self.wf(),
        ensures
            r == self.gt_seventy(),
    {
        if self.neg {
            return false;
        }
        let s = self.int_digits.as_str();
        let n = s.unicode_len();
        if n > 2 {
            proof {
                let c = self.int_digits@[0];
                assert(is_digit(c));
                assert(c != '0');
                lemma_nonzero_digit(c);
                assert(digit_val(c) >= 1);
                lemma_digits_val_ge_100(self.int_digits@);
            }
            true
        } else if n == 2 {
            let d0 = digit_of(s.get_char(0));
            let d1 = digit_of(s.get_char(1));
            proof {
                lemma_digits_val_two(self.int_digits@);
            }
            let v: u32 = 10 * (d0 as u32) + (d1 as u32);
            if v > 70 {
                true
            } else if v == 70 {
                let empty = self.frac_digits.as_str().unicode_len() == 0;
                !empty
            } else {
                false
            }
        } else {
            proof {
                let sv = self.int_digits@;
                assert(sv.drop_last().len() == 0);
                assert(digits_val(sv.drop_last()) == 0);
                assert(digits_val(sv) == digit_val(sv[0]));
            }
            false
        }
    }

    /// Render the number as its canonical text.
    pub fn to_text(&self) -> (r: String)
        ensures
            r@ == self.text(),
    {
        let mut out = String::new();
        if self.neg {
            out.append("-");
            proof {
                reveal_strlit("-");
            }
        }
        out.append(self.int_digits.as_str());
        if self.frac_digits.as_str().unicode_len() > 0 {
            out.append(".");
            out.append(self.frac_digits.as_str());
            proof {
                reveal_strlit(".");
            }
        }
        proof {
            assert(out@ =~= self.text()) by {
                reveal_strlit("-");
                reveal_strlit(".");
            }
        }
        out
    }

    /// Parse the query tool's output text as a decimal number, after trimming
    /// whitespace: an optional minus sign, then digits around at most one
    /// decimal point, with at least one digit. Exactly the well-formed texts
    /// parse, and the result is the canonical reading of the text.
    pub fn parse(s: &str) -> (r: Option<Decimal>)
        ensures
            r is Some <==> wf_number(trimmed(s@)),
            r matches Some(d) ==> d.wf() && represents(d, trimmed(s@)),
    {
        let t = trim_str(s);
        let n: usize = t.unicode_len();
        let neg = n > 0 && t.get_char(0) == '-';
        let start: usize = if neg { 1 } else { 0 };
        let b = Ghost(t@.subrange(start as int, n as int));
        proof {
            assert(neg == is_neg(t@));
            assert(b@ =~= body_of(t@));
        }
        let mut i: usize = start;
        let mut dot: Option<usize> = None;
        let mut valid: bool = true;
        while i < n
            invariant
                start <= i <= n,
                n == t@.len(),
                start == if is_neg(t@) { 1int } else { 0int },
                b@ == body_of(t@),
                b@ == t@.subrange(start as int, n as int),
                t@ == trimmed(s@),
                valid ==> match dot {
                    None => all_digits(t@.subrange(start as int, i as int)),
                    Some(k) => start <= k < i && t@[k as int] == '.' && all_digits(
                        t@.subrange(start as int, k as int),
                    ) && all_digits(t@.subrange(k as int + 1, i as int)),
                },
                !valid ==> !wf_number(trimmed(s@)),
            decreases n - i,
        {
            let c = t.get_char(i);
            if c == '.' {
                if dot.is_none() {
                    dot = Some(i);
                    proof {
                        assert(t@.subrange(i as int + 1, i as int + 1).len() == 0);
                    }
                } else {
                    proof {
                        if valid {
                            let k = dot->0 as int;
                            assert(b@[k - start] == t@[k]);
                            assert(b@[i - start] == t@[i as int]);
                            lemma_two_dots(b@, k - start, i - start);
                        }
                    }
                    valid = false;
                }
            } else {
                let digit = is_digit_char(c);
                if digit {
                    proof {
                        if valid {
                            match dot {
                                None => lemma_all_digits_push(t@, start as int, i as int),
                                Some(k) => lemma_all_digits_push(t@, k as int + 1, i as int),
                            }
                        }
                    }
                } else {
                    proof {
                        if valid {
                            assert(b@[i - start] == t@[i as int]);
                            lemma_bad_char(b@, i - start);
                        }
                    }
                    valid = false;
                }
            }
            i += 1;
        }
        if !valid {
            return None;
        }
        match dot {
            None => {
                if n > start {
                    proof {
                        assert(all_digits(b@));
                        assert(b@.len() >= 1);
                    }
                    let int_digits = canon_int_region(t, start, n);
                    let d = Decimal { neg, int_digits, frac_digits: String::new() };
                    proof {
                        assert(d.wf());
                        assert(represents(d, trimmed(s@)));
                    }
                    Some(d)
                } else {
                    proof {
                        assert(b@.len() == 0);
                        assert forall|k: int| !dot_split_ok(b@, k) by {}
                        assert(!wf_body(b@));
                    }
                    None
                }
            },
            Some(k) => {
                if n - start >= 2 {
                    proof {
                        assert(b@.subrange(0, k - start) =~= t@.subrange(start as int, k as int));
                        assert(b@.subrange(k - start + 1, b@.len() as int) =~= t@.subrange(
                            k as int + 1,
                            n as int,
                        ));
                        assert(b@[k - start] == t@[k as int]);
                        assert(dot_split_ok(b@, k - start));
                        assert(wf_body(b@));
                        assert(!is_digit('.'));
                        assert(!all_digits(b@));
                    }
                    let int_digits = canon_int_region(t, start, k);
                    let frac_digits = frac_region(t, k + 1, n);
                    let d = Decimal { neg, int_digits, frac_digits };
                    proof {
                        assert(d.int_digits@ == canon_int(b@.subrange(0, k - start)));
                        assert(d.frac_digits@ == strip_trailing_zeros(
                            b@.subrange(k - start + 1, b@.len() as int),
                        ));
                        assert(dot_split_ok(b@, k - start) && d.int_digits@ == canon_int(
                            b@.subrange(0, k - start),
                        ) && d.frac_digits@ == strip_trailing_zeros(
                            b@.subrange(k - start + 1, b@.len() as int),
                        ));
                        assert(represents(d, trimmed(s@)));
                    }
                    Some(d)
                } else {
                    proof {
                        assert(b@.len() == 1);
                        assert(b@[0] == t@[k as int]);
                        assert(!is_digit('.'));
                        assert(!all_digits(b@));
                        assert(!wf_body(b@));
                    }
                    None
                }
            },
        }
    }
}

/// The numeric value of a digit character.
fn digit_of(c: char) -> (v: u8)
    requires
        is_digit(c),
    ensures
        v as nat == digit_val(c),
{
    ((c as u32) - 48) as u8
}

} // verus!
