use vstd::prelude::*;

verus! {

/// Relies on `String::push` from std: it appends exactly the one character to
/// the end of the string.
#[verifier::external_body]
pub(crate) fn push_char(s: &mut String, c: char)
    ensures
        final(s)@ == old(s)@.push(c),
{
    s.push(c);
}

/// Relies on `str`'s `PartialEq` from std: two string slices are equal
/// exactly when their character sequences are equal.
#[verifier::external_body]
pub(crate) fn str_eq(a: &str, b: &str) -> (r: bool)
    ensures
        r == (a@ == b@),
{
    a == b
}

/// The character for the decimal digit `d`, which is expected to lie below
/// ten.
pub open spec fn dec_digit_char(d: int) -> char {
    if d == 0 {
        '0'
    } else if d == 1 {
        '1'
    } else if d == 2 {
        '2'
    } else if d == 3 {
        '3'
    } else if d == 4 {
        '4'
    } else if d == 5 {
        '5'
    } else if d == 6 {
        '6'
    } else if d == 7 {
        '7'
    } else if d == 8 {
        '8'
    } else {
        '9'
    }
}

/// The decimal text of a natural number, most significant digit first, with
/// no sign and no padding.
pub open spec fn nat_text(n: nat) -> Seq<char>
    decreases n,
{
    if n < 10 {
        seq![dec_digit_char(n as int)]
    } else {
        nat_text(n / 10) + seq![dec_digit_char((n % 10) as int)]
    }
}

/// The decimal text of an integer: the magnitude's text, preceded by a minus
/// sign when the integer is negative.
pub open spec fn int_text(n: int) -> Seq<char> {
    if n >= 0 {
        nat_text(n as nat)
    } else {
        seq!['-'] + nat_text((-n) as nat)
    }
}

/// The character for the decimal digit `d`, which must lie below ten.
fn digit_char(d: u64) -> (c: char)
    requires
        d < 10,
    ensures
        c == dec_digit_char(d as int),
{
    if d == 0 {
        '0'
    } else if d == 1 {
        '1'
    } else if d == 2 {
        '2'
    } else if d == 3 {
        '3'
    } else if d == 4 {
        '4'
    } else if d == 5 {
        '5'
    } else if d == 6 {
        '6'
    } else if d == 7 {
        '7'
    } else if d == 8 {
        '8'
    } else {
        '9'
    }
}

/// Formats an unsigned integer as its decimal text.
pub fn u64_text(n: u64) -> (r: String)
    ensures
        r@ == nat_text(n as nat),
        is_json_number(r@),
{
    proof {
        lemma_nat_text_number(n as nat);
    }
    let mut digits: Vec<char> = Vec::new();
    let mut m: u64 = n;
    if n == 0 {
        let mut r = String::new();
        push_char(&mut r, '0');
        return r;
    }
    while m > 0
        invariant
            n > 0,
            nat_text(n as nat) =~= (if m > 0 {
                nat_text(m as nat)
            } else {
                Seq::<char>::empty()
            }) + digits@,
        decreases m,
    {
        let d = m % 10;
        let c = digit_char(d);
        let ghost old_digits = digits@;
        let ghost old_m = m;
        digits.insert(0, c);
        m = m / 10;
        proof {
            assert(digits@ =~= seq![c] + old_digits);
            if old_m >= 10 {
                assert(nat_text(old_m as nat) == nat_text((old_m as nat) / 10) + seq![
                    dec_digit_char(((old_m as nat) % 10) as int),
                ]);
                assert(nat_text(m as nat) + digits@ =~= nat_text(old_m as nat) + old_digits);
            } else {
                assert(nat_text(old_m as nat) == seq![dec_digit_char(old_m as int)]);
                assert(Seq::<char>::empty() + digits@ =~= nat_text(old_m as nat) + old_digits);
            }
        }
    }
    let mut r = String::new();
    let mut i: usize = 0;
    while i < digits.len()
        invariant
            i <= digits.len(),
            r@ =~= digits@.take(i as int),
            digits@ =~= nat_text(n as nat),
        decreases digits.len() - i,
    {
        push_char(&mut r, digits[i]);
        proof {
            assert(digits@.take(i as int).push(digits@[i as int]) =~= digits@.take(i + 1));
        }
        i = i + 1;
    }
    proof {
        assert(digits@.take(digits@.len() as int) =~= digits@);
    }
    r
}

/// Formats a signed integer as its decimal text.
pub fn i64_text(n: i64) -> (r: String)
    ensures
        r@ == int_text(n as int),
        is_json_number(r@),
{
    proof {
        lemma_int_text_number(n as int);
    }
    if n >= 0 {
        let r = u64_text(n as u64);
        r
    } else {
        let mag: u64 = if n == i64::MIN {
            9223372036854775808u64
        } else {
            (-n) as u64
        };
        assert(mag as nat == ((-(n as int)) as nat));
        let tail = u64_text(mag);
        let mut r = String::new();
        push_char(&mut r, '-');
        r.append(tail.as_str());
        proof {
            assert(r@ =~= seq!['-'] + nat_text(mag as nat));
        }
        r
    }
}

/// Whether `c` is a decimal digit.
pub open spec fn is_digit(c: char) -> bool {
    48 <= c as u32 <= 57
}

/// The first position at or after `i` that does not hold a decimal digit, or
/// the end of the text.
pub open spec fn digit_run_end(s: Seq<char>, i: int) -> int
    decreases s.len() - i,
{
    if i < 0 || i >= s.len() {
        i
    } else if is_digit(s[i]) {
        digit_run_end(s, i + 1)
    } else {
        i
    }
}

/// Whether the text is a well-formed JSON number literal: an optional minus
/// sign, an integer part with no superfluous leading zero, an optional
/// fraction of at least one digit, and an optional exponent of at least one
/// digit with an optional sign.
pub open spec fn is_json_number(s: Seq<char>) -> bool {
    let start: int = if s.len() > 0 && s[0] == '-' {
        1
    } else {
        0
    };
    start < s.len() && is_digit(s[start]) && {
        let int_end: int = if s[start] == '0' {
            start + 1
        } else {
            digit_run_end(s, start)
        };
        frac_ok(s, int_end)
    }
}

/// Whether the remainder of a JSON number starting at `i` is a well-formed
/// optional fraction followed by a well-formed optional exponent.
pub open spec fn frac_ok(s: Seq<char>, i: int) -> bool {
    if i < s.len() && s[i] == '.' {
        i + 1 < s.len() && is_digit(s[i + 1]) && exp_ok(s, digit_run_end(s, i + 1))
    } else {
        exp_ok(s, i)
    }
}

/// Whether the remainder of a JSON number starting at `i` is a well-formed
/// optional exponent reaching the end of the text.
pub open spec fn exp_ok(s: Seq<char>, i: int) -> bool {
    if i < s.len() && (s[i] == 'e' || s[i] == 'E') {
        let j: int = if i + 1 < s.len() && (s[i + 1] == '+' || s[i + 1] == '-') {
            i + 2
        } else {
            i + 1
        };
        j < s.len() && is_digit(s[j]) && digit_run_end(s, j) == s.len()
    } else {
        i == s.len()
    }
}

/// Every character of a natural number's decimal text is a digit, and its
/// first character is the zero digit exactly when the number is zero.
pub proof fn lemma_nat_text_digits(n: nat)
    ensures
        nat_text(n).len() >= 1,
        forall|i: int| 0 <= i < nat_text(n).len() ==> is_digit(#[trigger] nat_text(n)[i]),
        (nat_text(n)[0] == '0') <==> (n == 0),
    decreases n,
{
    if n < 10 {
        assert(nat_text(n) == seq![dec_digit_char(n as int)]);
        assert(is_digit(dec_digit_char(n as int)));
    } else {
        lemma_nat_text_digits(n / 10);
        assert(nat_text(n) == nat_text(n / 10) + seq![dec_digit_char((n % 10) as int)]);
        assert(is_digit(dec_digit_char((n % 10) as int)));
        assert forall|i: int| 0 <= i < nat_text(n).len() implies is_digit(
            #[trigger] nat_text(n)[i],
        ) by {
            if i < nat_text(n / 10).len() {
                assert(nat_text(n)[i] == nat_text(n / 10)[i]);
            } else {
                assert(nat_text(n)[i] == dec_digit_char((n % 10) as int));
            }
        }
        assert(nat_text(n)[0] == nat_text(n / 10)[0]);
    }
}

/// A text that holds digits from `i` to its end scans to its end.
pub proof fn lemma_digit_run_to_end(s: Seq<char>, i: int)
    requires
        0 <= i <= s.len(),
        forall|j: int| i <= j < s.len() ==> is_digit(#[trigger] s[j]),
    ensures
        digit_run_end(s, i) == s.len(),
    decreases s.len() - i,
{
    if i < s.len() {
        lemma_digit_run_to_end(s, i + 1);
    }
}

/// The decimal text of a natural number is a well-formed JSON number
/// literal: digits only, with no superfluous leading zero.
pub proof fn lemma_nat_text_number(n: nat)
    ensures
        is_json_number(nat_text(n)),
{
    lemma_nat_text_digits(n);
    let s = nat_text(n);
    assert(s[0] != '-');
    if s[0] == '0' {
        assert(n == 0);
        assert(s == seq![dec_digit_char(0)]);
        assert(s.len() == 1);
    } else {
        lemma_digit_run_to_end(s, 0);
    }
}

/// The decimal text of any integer is a well-formed JSON number literal.
pub proof fn lemma_int_text_number(n: int)
    ensures
        is_json_number(int_text(n)),
{
    if n >= 0 {
        lemma_nat_text_number(n as nat);
    } else {
        let m = (-n) as nat;
        lemma_nat_text_digits(m);
        let s = int_text(n);
        assert(s == seq!['-'] + nat_text(m));
        assert(s[0] == '-');
        assert(s.len() == nat_text(m).len() + 1);
        assert(s[1] == nat_text(m)[0]);
        assert forall|j: int| 1 <= j < s.len() implies is_digit(#[trigger] s[j]) by {
            assert(s[j] == nat_text(m)[j - 1]);
        }
        lemma_digit_run_to_end(s, 1);
        assert(s[1] != '0');
    }
}

/// Whether `c` is a decimal digit.
fn digit_exec(c: char) -> (r: bool)
    ensures
        r == is_digit(c),
{
    let u = c as u32;
    48 <= u && u <= 57
}

/// Advances a cursor over the run of decimal digits that starts at `i`.
fn scan_digits(s: &str, n: usize, i: usize) -> (r: usize)
    requires
        n == s@.len(),
        i <= n,
    ensures
        r == digit_run_end(s@, i as int),
        i <= r <= n,
{
    let mut j = i;
    while j < n && digit_exec(s.get_char(j))
        invariant
            i <= j <= n,
            n == s@.len(),
            digit_run_end(s@, i as int) == digit_run_end(s@, j as int),
        decreases n - j,
    {
        j = j + 1;
    }
    proof {
        assert(digit_run_end(s@, j as int) == j);
    }
    j
}

/// Decides whether the text is a well-formed JSON number literal.
pub fn is_number_literal(s: &str) -> (r: bool)
    ensures
        r == is_json_number(s@),
{
    let n = s.unicode_len();
    let start: usize = if n > 0 && s.get_char(0) == '-' {
        1
    } else {
        0
    };
    if start >= n {
        return false;
    }
    let first = s.get_char(start);
    if !digit_exec(first) {
        return false;
    }
    let int_end: usize = if first == '0' {
        start + 1
    } else {
        scan_digits(s, n, start)
    };
    // optional fraction
    let frac_end: usize = if int_end < n && s.get_char(int_end) == '.' {
        if int_end + 1 < n && digit_exec(s.get_char(int_end + 1)) {
            scan_digits(s, n, int_end + 1)
        } else {
            return false;
        }
    } else {
        int_end
    };
    // optional exponent
    if frac_end < n {
        let e = s.get_char(frac_end);
        if e == 'e' || e == 'E' {
            let sign_end: usize = if frac_end + 1 < n {
                let sc = s.get_char(frac_end + 1);
                if sc == '+' || sc == '-' {
                    frac_end + 2
                } else {
                    frac_end + 1
                }
            } else {
                frac_end + 1
            };
            if sign_end < n && digit_exec(s.get_char(sign_end)) {
                let exp_end = scan_digits(s, n, sign_end);
                exp_end == n
            } else {
                false
            }
        } else {
            false
        }
    } else {
        true
    }
}

} // verus!
