//! Decimal field value for typed FIX field encoding.
//!
//! A field value is a sign plus canonical integer and fraction digit strings.
//! `read` accepts exactly the strings matching `-?[0-9]+(\.[0-9]+)?` and
//! normalizes them; `write` renders the shortest faithful decimal form.

use vstd::prelude::*;

verus! {

/// An ASCII decimal digit.
pub open spec fn is_ascii_digit(c: u8) -> bool {
    48 <= c && c <= 57
}

/// Every byte of `s` is an ASCII digit.
pub open spec fn all_ascii_digits(s: Seq<u8>) -> bool {
    forall|i: int| 0 <= i < s.len() ==> is_ascii_digit(#[trigger] s[i])
}

/// Every byte of `s` is the digit zero.
pub open spec fn all_zero_digits(s: Seq<u8>) -> bool {
    forall|i: int| 0 <= i < s.len() ==> #[trigger] s[i] == 48
}

/// Index of the first dot at or after `i`, or `s.len()` if there is none.
pub open spec fn first_dot_from(s: Seq<u8>, i: int) -> int
    decreases s.len() - i,
{
    if i < 0 || i >= s.len() {
        s.len() as int
    } else if s[i] == 46 {
        i
    } else {
        first_dot_from(s, i + 1)
    }
}

/// Index of the first dot of `s`, or `s.len()` if there is none.
pub open spec fn dot_index(s: Seq<u8>) -> int {
    first_dot_from(s, 0)
}

/// Whether `s` starts with a minus sign.
pub open spec fn has_minus(s: Seq<u8>) -> bool {
    s.len() > 0 && s[0] == 45
}

/// `s` with its leading minus sign, if any, removed.
pub open spec fn unsigned_body(s: Seq<u8>) -> Seq<u8> {
    if has_minus(s) {
        s.subrange(1, s.len() as int)
    } else {
        s
    }
}

/// The bytes of `b` before its first dot.
pub open spec fn int_part(b: Seq<u8>) -> Seq<u8> {
    b.subrange(0, dot_index(b))
}

/// The bytes of `b` after its first dot; empty if `b` has no dot.
pub open spec fn frac_part(b: Seq<u8>) -> Seq<u8> {
    if dot_index(b) < b.len() {
        b.subrange(dot_index(b) + 1, b.len() as int)
    } else {
        Seq::empty()
    }
}

/// `s` matches the decimal field grammar `-?[0-9]+(\.[0-9]+)?`: an optional
/// leading minus, at least one digit, and at most one dot followed by at
/// least one digit. A leading plus, a second dot, or any other byte is
/// rejected.
pub open spec fn is_valid_decimal(s: Seq<u8>) -> bool {
    let b = unsigned_body(s);
    &&& int_part(b).len() >= 1
    &&& all_ascii_digits(int_part(b))
    &&& (dot_index(b) < b.len() ==> frac_part(b).len() >= 1 && all_ascii_digits(frac_part(b)))
}

/// `s` with leading zero digits removed, keeping at least one byte.
pub open spec fn strip_leading_zeros(s: Seq<u8>) -> Seq<u8>
    decreases s.len(),
{
    if s.len() <= 1 {
        s
    } else if s[0] == 48 {
        strip_leading_zeros(s.subrange(1, s.len() as int))
    } else {
        s
    }
}

/// `s` with trailing zero digits removed.
pub open spec fn strip_trailing_zeros(s: Seq<u8>) -> Seq<u8>
    decreases s.len(),
{
    if s.len() == 0 {
        s
    } else if s[s.len() - 1] == 48 {
        strip_trailing_zeros(s.subrange(0, s.len() - 1))
    } else {
        s
    }
}

/// Canonical integer digits of the decimal string `s`.
pub open spec fn canon_int(s: Seq<u8>) -> Seq<u8> {
    strip_leading_zeros(int_part(unsigned_body(s)))
}

/// Canonical fraction digits of the decimal string `s`.
pub open spec fn canon_frac(s: Seq<u8>) -> Seq<u8> {
    strip_trailing_zeros(frac_part(unsigned_body(s)))
}

/// Canonical sign of the decimal string `s`: negative only when nonzero.
pub open spec fn canon_negative(s: Seq<u8>) -> bool {
    has_minus(s) && !(all_zero_digits(int_part(unsigned_body(s)))
        && all_zero_digits(frac_part(unsigned_body(s))))
}

proof fn lemma_first_dot_bounds(s: Seq<u8>, i: int)
    requires
        0 <= i <= s.len(),
    ensures
        i <= first_dot_from(s, i) <= s.len(),
        first_dot_from(s, i) < s.len() ==> s[first_dot_from(s, i)] == 46,
        forall|k: int| i <= k < first_dot_from(s, i) ==> #[trigger] s[k] != 46,
    decreases s.len() - i,
{
    if i < s.len() && s[i] != 46 {
        lemma_first_dot_bounds(s, i + 1);
    }
}

proof fn lemma_first_dot_at(s: Seq<u8>, i: int, d: int)
    requires
        0 <= i <= d <= s.len(),
        forall|k: int| i <= k < d ==> #[trigger] s[k] != 46,
        d == s.len() || s[d] == 46,
    ensures
        first_dot_from(s, i) == d,
    decreases d - i,
{
    if i < d {
        lemma_first_dot_at(s, i + 1, d);
    }
}

proof fn lemma_strip_leading_props(s: Seq<u8>)
    requires
        s.len() >= 1,
        all_ascii_digits(s),
    ensures
        1 <= strip_leading_zeros(s).len() <= s.len(),
        all_ascii_digits(strip_leading_zeros(s)),
        strip_leading_zeros(s).len() > 1 ==> strip_leading_zeros(s)[0] != 48,
        (strip_leading_zeros(s) == seq![48u8]) <==> all_zero_digits(s),
    decreases s.len(),
{
    if s.len() <= 1 {
        if s[0] == 48 {
            assert(s =~= seq![48u8]);
        } else {
            assert(s != seq![48u8]) by {
                assert(seq![48u8][0] == 48);
            }
        }
    } else if s[0] == 48 {
        let t = s.subrange(1, s.len() as int);
        assert forall|k: int| 0 <= k < t.len() implies is_ascii_digit(#[trigger] t[k]) by {
            assert(t[k] == s[k + 1]);
        }
        lemma_strip_leading_props(t);
        if all_zero_digits(t) {
            assert forall|k: int| 0 <= k < s.len() implies #[trigger] s[k] == 48 by {
                if k > 0 {
                    assert(t[k - 1] == s[k]);
                }
            }
        } else {
            let w = choose|k: int| 0 <= k < t.len() && t[k] != 48;
            assert(s[w + 1] != 48);
        }
    } else {
        assert(s != seq![48u8]) by {
            assert(seq![48u8][0] == 48);
        }
        assert(!all_zero_digits(s)) by {
            assert(s[0] != 48);
        }
    }
}

proof fn lemma_strip_trailing_props(s: Seq<u8>)
    requires
        all_ascii_digits(s),
    ensures
        strip_trailing_zeros(s).len() <= s.len(),
        all_ascii_digits(strip_trailing_zeros(s)),
        strip_trailing_zeros(s).len() > 0 ==> strip_trailing_zeros(s)[strip_trailing_zeros(
            s,
        ).len() - 1] != 48,
        (strip_trailing_zeros(s).len() == 0) <==> all_zero_digits(s),
    decreases s.len(),
{
    if s.len() == 0 {
    } else if s[s.len() - 1] == 48 {
        let t = s.subrange(0, s.len() - 1);
        assert forall|k: int| 0 <= k < t.len() implies is_ascii_digit(#[trigger] t[k]) by {
            assert(t[k] == s[k]);
        }
        lemma_strip_trailing_props(t);
        if all_zero_digits(t) {
            assert forall|k: int| 0 <= k < s.len() implies #[trigger] s[k] == 48 by {
                if k < s.len() - 1 {
                    assert(t[k] == s[k]);
                }
            }
        } else {
            let w = choose|k: int| 0 <= k < t.len() && t[k] != 48;
            assert(s[w] != 48);
        }
    } else {
        assert(!all_zero_digits(s)) by {
            assert(s[s.len() - 1] != 48);
        }
    }
}

proof fn lemma_strip_leading_at(s: Seq<u8>, j: int)
    requires
        0 <= j < s.len(),
        forall|k: int| 0 <= k < j ==> #[trigger] s[k] == 48,
        j == s.len() - 1 || s[j] != 48,
    ensures
        strip_leading_zeros(s) == s.subrange(j, s.len() as int),
    decreases j,
{
    if j == 0 {
        assert(s.subrange(0, s.len() as int) =~= s);
    } else {
        let t = s.subrange(1, s.len() as int);
        assert(s[0] == 48);
        lemma_strip_leading_at(t, j - 1);
        assert(t.subrange(j - 1, t.len() as int) =~= s.subrange(j, s.len() as int));
    }
}

proof fn lemma_strip_trailing_at(s: Seq<u8>, e: int)
    requires
        0 <= e <= s.len(),
        forall|k: int| e <= k < s.len() ==> #[trigger] s[k] == 48,
        e == 0 || s[e - 1] != 48,
    ensures
        strip_trailing_zeros(s) == s.subrange(0, e),
    decreases s.len(),
{
    if e == s.len() {
        if s.len() == 0 {
            assert(s.subrange(0, 0) =~= s);
        } else {
            assert(s.subrange(0, s.len() as int) =~= s);
        }
    } else {
        assert(s[s.len() - 1] == 48);
        let t = s.subrange(0, s.len() - 1);
        lemma_strip_trailing_at(t, e);
        assert(t.subrange(0, e) =~= s.subrange(0, e));
    }
}

/// Decimal field value in canonical form.
pub struct FixFloat {
    /// Sign; never set on a zero value.
    pub negative: bool,
    /// Integer digits, no leading zero unless the single digit zero.
    pub int_digits: Vec<u8>,
    /// Fraction digits, no trailing zero; empty when the value is integral.
    pub frac_digits: Vec<u8>,
}

impl FixFloat {
    /// The value denotes zero.
    pub open spec fn is_zero(&self) -> bool {
        self.int_digits@ == seq![48u8] && self.frac_digits@.len() == 0
    }

    /// Canonical-form invariant: digits only, no redundant zeros, no
    /// negative zero.
    pub open spec fn wf(&self) -> bool {
        &&& self.int_digits@.len() >= 1
        &&& all_ascii_digits(self.int_digits@)
        &&& (self.int_digits@.len() > 1 ==> self.int_digits@[0] != 48)
        &&& all_ascii_digits(self.frac_digits@)
        &&& (self.frac_digits@.len() > 0 ==> self.frac_digits@[self.frac_digits@.len() - 1]
            != 48)
        &&& (self.negative ==> !self.is_zero())
    }

    /// The canonical wire rendering: minus sign when negative, the integer
    /// digits, and a dot followed by the fraction digits when the fraction
    /// is nonempty.
    pub open spec fn rendered(&self) -> Seq<u8> {
        (if self.negative {
            seq![45u8]
        } else {
            Seq::<u8>::empty()
        }) + self.int_digits@ + (if self.frac_digits@.len() > 0 {
            seq![46u8] + self.frac_digits@
        } else {
            Seq::<u8>::empty()
        })
    }
}

impl FixFloat {
    /// Parses a decimal field from `input`. Exactly the strings matching
    /// `-?[0-9]+(\.[0-9]+)?` are accepted and stored in canonical form; any
    /// other input is rejected and the prior value is left untouched.
    #[verifier::rlimit(80)]
    pub fn read(&mut self, input: &[u8]) -> (r: Result<(), ()>)
        ensures
            r is Ok <==> is_valid_decimal(input@),
            is_valid_decimal(input@) ==> final(self).wf()
                && final(self).negative == canon_negative(input@)
                && final(self).int_digits@ == canon_int(input@)
                && final(self).frac_digits@ == canon_frac(input@),
            !is_valid_decimal(input@) ==> *final(self) == *old(self),
    {
        let n = input.len();
        let neg = n > 0 && input[0] == 45;
        let off: usize = if neg {
            1
        } else {
            0
        };
        let ghost body = unsigned_body(input@);
        proof {
            assert(has_minus(input@) == neg);
            assert(body.len() == n - off);
            assert forall|k: int| 0 <= k < body.len() implies #[trigger] body[k] == input@[k
                + off] by {
                if has_minus(input@) {
                    assert(body[k] == input@[k + 1]);
                }
            }
        }
        // scan the integer digits
        let mut i: usize = off;
        while i < n && 48 <= input[i] && input[i] <= 57
            invariant
                off <= i <= n,
                n == input@.len(),
                forall|k: int| off <= k < i ==> is_ascii_digit(#[trigger] input@[k]),
            decreases n - i,
        {
            i = i + 1;
        }
        let int_end = i;
        if int_end == off {
            // no integer digit where the grammar demands at least one
            proof {
                lemma_first_dot_bounds(body, 0);
                let d = dot_index(body);
                if body.len() > 0 && d > 0 {
                    assert(body[0] == input@[off as int]);
                    assert(!is_ascii_digit(body[0]));
                    assert(int_part(body)[0] == body[0]);
                    assert(!all_ascii_digits(int_part(body)));
                }
                assert(!is_valid_decimal(input@));
            }
            return Err(());
        }
        let mut frac_start: usize = int_end;
        let mut frac_end: usize = int_end;
        if i < n {
            if input[i] != 46 {
                // a byte that is neither digit nor dot ends up in the
                // integer part of the grammar, which takes digits only
                proof {
                    lemma_first_dot_bounds(body, 0);
                    let d = dot_index(body);
                    let p = int_end - off;
                    assert(body[p as int] == input@[int_end as int]);
                    if d < p as int {
                        assert(body[d] == input@[d + off]);
                        assert(is_ascii_digit(input@[d + off]));
                        assert(body[d] == 46);
                        assert(false);
                    }
                    if d == p as int {
                        assert(body[d] == 46);
                        assert(false);
                    }
                    assert(int_part(body)[p as int] == body[p as int]);
                    assert(!is_ascii_digit(body[p as int]));
                    assert(!all_ascii_digits(int_part(body)));
                    assert(!is_valid_decimal(input@));
                }
                return Err(());
            }
            i = i + 1;
            frac_start = i;
            while i < n && 48 <= input[i] && input[i] <= 57
                invariant
                    frac_start <= i <= n,
                    n == input@.len(),
                    forall|k: int| frac_start <= k < i ==> is_ascii_digit(#[trigger] input@[k]),
                decreases n - i,
            {
                i = i + 1;
            }
            proof {
                // the first dot of the body sits right after its integer digits
                let d = int_end - off;
                assert(body[d as int] == input@[int_end as int]);
                assert forall|k: int| 0 <= k < d implies #[trigger] body[k] != 46 by {
                    assert(body[k] == input@[k + off]);
                    assert(is_ascii_digit(input@[k + off]));
                }
                lemma_first_dot_at(body, 0, d as int);
                assert(frac_part(body) =~= input@.subrange(frac_start as int, n as int));
            }
            if i < n {
                // a non-digit (a second dot included) inside the fraction
                proof {
                    assert(frac_part(body)[i - frac_start] == input@[i as int]);
                    assert(!is_ascii_digit(input@[i as int]));
                    assert(!all_ascii_digits(frac_part(body)));
                    assert(!is_valid_decimal(input@));
                }
                return Err(());
            }
            if frac_start == n {
                // a trailing dot with no fraction digit behind it
                proof {
                    assert(frac_part(body).len() == 0);
                    assert(dot_index(body) < body.len());
                    assert(!is_valid_decimal(input@));
                }
                return Err(());
            }
            frac_end = n;
        } else {
            proof {
                assert forall|k: int| 0 <= k < body.len() implies #[trigger] body[k] != 46 by {
                    assert(body[k] == input@[k + off]);
                    assert(is_ascii_digit(input@[k + off]));
                }
                lemma_first_dot_at(body, 0, body.len() as int);
            }
        }
        proof {
            // the grammar is met
            assert(dot_index(body) == int_end - off);
            assert(int_part(body) =~= input@.subrange(off as int, int_end as int));
            if frac_end > int_end {
                assert(frac_part(body).len() >= 1);
                assert(all_ascii_digits(frac_part(body)));
            } else {
                assert(frac_part(body) =~= Seq::<u8>::empty());
            }
            assert(is_valid_decimal(input@));
        }
        // drop leading zeros of the integer digits, keeping the last
        let mut j: usize = off;
        while j + 1 < int_end && input[j] == 48
            invariant
                off <= j < int_end,
                int_end <= n,
                n == input@.len(),
                forall|k: int| off <= k < j ==> #[trigger] input@[k] == 48,
            decreases int_end - j,
        {
            j = j + 1;
        }
        let mut ints: Vec<u8> = Vec::new();
        proof {
            assert(ints@ =~= input@.subrange(j as int, j as int));
        }
        let mut k: usize = j;
        while k < int_end
            invariant
                j <= k <= int_end,
                int_end <= n,
                n == input@.len(),
                ints@ == input@.subrange(j as int, k as int),
            decreases int_end - k,
        {
            let digit = input[k];
            ints.push(digit);
            k = k + 1;
            proof {
                assert(ints@ =~= input@.subrange(j as int, k as int));
            }
        }
        // drop trailing zeros of the fraction digits
        let mut e: usize = frac_end;
        while e > frac_start && input[e - 1] == 48
            invariant
                frac_start <= e <= frac_end,
                frac_end <= n,
                n == input@.len(),
                forall|k2: int| e <= k2 < frac_end ==> #[trigger] input@[k2] == 48,
            decreases e,
        {
            e = e - 1;
        }
        let mut fracs: Vec<u8> = Vec::new();
        proof {
            assert(fracs@ =~= input@.subrange(frac_start as int, frac_start as int));
        }
        let mut k2: usize = frac_start;
        while k2 < e
            invariant
                frac_start <= k2 <= e,
                e <= n,
                n == input@.len(),
                fracs@ == input@.subrange(frac_start as int, k2 as int),
            decreases e - k2,
        {
            let digit = input[k2];
            fracs.push(digit);
            k2 = k2 + 1;
            proof {
                assert(fracs@ =~= input@.subrange(frac_start as int, k2 as int));
            }
        }
        let zero = ints.len() == 1 && ints[0] == 48 && fracs.len() == 0;
        proof {
            let iseq = int_part(body);
            assert(iseq =~= input@.subrange(off as int, int_end as int));
            assert forall|q: int| 0 <= q < j - off implies #[trigger] iseq[q] == 48 by {
                assert(iseq[q] == input@[q + off]);
            }
            lemma_strip_leading_at(iseq, j as int - off as int);
            assert(iseq.subrange(j as int - off as int, iseq.len() as int) =~= input@.subrange(
                j as int,
                int_end as int,
            ));
            assert(canon_int(input@) == ints@);
            let fseq = frac_part(body);
            assert(fseq =~= input@.subrange(frac_start as int, frac_end as int));
            assert forall|q: int| e - frac_start <= q < fseq.len() implies #[trigger] fseq[q]
                == 48 by {
                assert(fseq[q] == input@[q + frac_start]);
            }
            lemma_strip_trailing_at(fseq, e as int - frac_start as int);
            assert(fseq.subrange(0, e as int - frac_start as int) =~= input@.subrange(
                frac_start as int,
                e as int,
            ));
            assert(canon_frac(input@) == fracs@);
            lemma_strip_leading_props(iseq);
            lemma_strip_trailing_props(fseq);
            if zero {
                assert(ints@ =~= seq![48u8]);
            }
            if ints@ == seq![48u8] {
                assert(ints@.len() == 1 && ints@[0] == 48);
            }
        }
        self.negative = neg && !zero;
        self.int_digits = ints;
        self.frac_digits = fracs;
        Ok(())
    }

    /// Renders the shortest faithful decimal representation of the value.
    pub fn write(&self) -> (out: Vec<u8>)
        ensures
            out@ == self.rendered(),
    {
        let mut out: Vec<u8> = Vec::new();
        if self.negative {
            out.push(45);
        }
        proof {
            assert(out@ =~= (if self.negative {
                seq![45u8]
            } else {
                Seq::<u8>::empty()
            }));
        }
        let ghost head = out@;
        let mut i: usize = 0;
        while i < self.int_digits.len()
            invariant
                i <= self.int_digits@.len(),
                out@ == head + self.int_digits@.subrange(0, i as int),
            decreases self.int_digits@.len() - i,
        {
            out.push(self.int_digits[i]);
            i = i + 1;
            proof {
                assert(out@ =~= head + self.int_digits@.subrange(0, i as int));
            }
        }
        proof {
            assert(self.int_digits@.subrange(0, self.int_digits@.len() as int)
                =~= self.int_digits@);
        }
        if self.frac_digits.len() > 0 {
            out.push(46);
            let ghost mid = out@;
            let mut j: usize = 0;
            while j < self.frac_digits.len()
                invariant
                    j <= self.frac_digits@.len(),
                    out@ == mid + self.frac_digits@.subrange(0, j as int),
                decreases self.frac_digits@.len() - j,
            {
                out.push(self.frac_digits[j]);
                j = j + 1;
                proof {
                    assert(out@ =~= mid + self.frac_digits@.subrange(0, j as int));
                }
            }
            proof {
                assert(self.frac_digits@.subrange(0, self.frac_digits@.len() as int)
                    =~= self.frac_digits@);
                assert(out@ =~= self.rendered());
            }
        } else {
            proof {
                assert(out@ =~= self.rendered());
            }
        }
        out
    }
}

/// Law: a well-formed field value renders to a valid decimal string, and
/// reading the rendered bytes back yields the same field value — the
/// write/read round trip is the identity, canonical formatting included.
pub proof fn lemma_write_read_round_trip(f: FixFloat)
    requires
        f.wf(),
    ensures
        is_valid_decimal(f.rendered()),
        canon_negative(f.rendered()) == f.negative,
        canon_int(f.rendered()) == f.int_digits@,
        canon_frac(f.rendered()) == f.frac_digits@,
{
    let s = f.rendered();
    let ints = f.int_digits@;
    let fracs = f.frac_digits@;
    let tail = if fracs.len() > 0 {
        seq![46u8] + fracs
    } else {
        Seq::<u8>::empty()
    };
    let b = ints + tail;
    if f.negative {
        assert(s[0] == 45);
        assert(unsigned_body(s) =~= b);
    } else {
        assert(s =~= b);
        assert(s[0] == ints[0]);
        assert(is_ascii_digit(ints[0]));
        assert(!has_minus(s));
    }
    assert(unsigned_body(s) == b);
    if fracs.len() == 0 {
        assert(b =~= ints);
        assert forall|k: int| 0 <= k < b.len() implies #[trigger] b[k] != 46 by {
            assert(is_ascii_digit(b[k]));
        }
        lemma_first_dot_at(b, 0, b.len() as int);
        assert(int_part(b) =~= ints);
        assert(frac_part(b) =~= fracs);
    } else {
        let d = ints.len() as int;
        assert(b[d] == 46);
        assert forall|k: int| 0 <= k < d implies #[trigger] b[k] != 46 by {
            assert(b[k] == ints[k]);
            assert(is_ascii_digit(ints[k]));
        }
        lemma_first_dot_at(b, 0, d);
        assert(int_part(b) =~= ints);
        assert(frac_part(b) =~= fracs);
    }
    assert(strip_leading_zeros(ints) == ints);
    assert(strip_trailing_zeros(fracs) == fracs);
    lemma_strip_leading_props(ints);
    lemma_strip_trailing_props(fracs);
    if f.negative && all_zero_digits(ints) && all_zero_digits(fracs) {
        assert(ints == seq![48u8]);
        assert(fracs.len() == 0);
        assert(f.is_zero());
        assert(false);
    }
}

impl Default for FixFloat {
    /// The zero field value, rendered as a single zero digit.
    fn default() -> (f: FixFloat)
        ensures
            f.wf(),
            f.is_zero(),
            !f.negative,
    {
        let f = FixFloat { negative: false, int_digits: vec![48u8], frac_digits: Vec::new() };
        proof {
            assert(f.int_digits@ =~= seq![48u8]);
            assert(f.frac_digits@ =~= Seq::<u8>::empty());
        }
        f
    }
}

} // verus!
