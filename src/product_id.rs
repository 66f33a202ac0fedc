//! Product identifiers: `{manufacturer}-{sequence}`, the sequence in decimal,
//! zero-padded to six digits.

use vstd::prelude::*;

verus! {

pub open spec fn digit_char(d: nat) -> char {
    if d == 0 { '0' } else if d == 1 { '1' } else if d == 2 { '2' } else if d == 3 { '3' }
    else if d == 4 { '4' } else if d == 5 { '5' } else if d == 6 { '6' } else if d == 7 { '7' }
    else if d == 8 { '8' } else { '9' }
}

pub open spec fn digit_value(c: char) -> nat {
    if c == '1' { 1 } else if c == '2' { 2 } else if c == '3' { 3 } else if c == '4' { 4 }
    else if c == '5' { 5 } else if c == '6' { 6 } else if c == '7' { 7 } else if c == '8' { 8 }
    else if c == '9' { 9 } else { 0 }
}

/// Decimal digits of `n`, most significant first, without leading zeros.
pub open spec fn decimal(n: nat) -> Seq<char>
    decreases n,
{
    if n < 10 { seq![digit_char(n)] } else { decimal(n / 10).push(digit_char(n % 10)) }
}

pub open spec fn zero_padded(s: Seq<char>, width: nat) -> Seq<char> {
    if s.len() < width { Seq::new((width - s.len()) as nat, |_i: int| '0') + s } else { s }
}

/// The identifier of the `n`-th minted product of manufacturer `addr`.
pub open spec fn product_id_for(addr: Seq<char>, n: nat) -> Seq<char> {
    addr + seq!['-'] + zero_padded(decimal(n), 6)
}

/// Relies on `String::push`: appends one character.
#[verifier::external_body]
fn push_char(s: &mut String, c: char)
    ensures
        final(s)@ == old(s)@.push(c),
{
    s.push(c)
}

fn digit(d: u64) -> (r: char)
    requires
        d < 10,
    ensures
        r == digit_char(d as nat),
{
    if d == 0 { '0' } else if d == 1 { '1' } else if d == 2 { '2' } else if d == 3 { '3' }
    else if d == 4 { '4' } else if d == 5 { '5' } else if d == 6 { '6' } else if d == 7 { '7' }
    else if d == 8 { '8' } else { '9' }
}

fn decimal_digits(n: u64) -> (r: Vec<char>)
    ensures
        r@ == decimal(n as nat),
    decreases n,
{
    if n < 10 {
        let mut v: Vec<char> = Vec::new();
        v.push(digit(n));
        assert(v@ =~= seq![digit_char(n as nat)]);
        v
    } else {
        let mut v = decimal_digits(n / 10);
        v.push(digit(n % 10));
        v
    }
}

/// The identifier of the `n`-th product of manufacturer `addr`.
pub fn format_product_id(addr: &String, n: u64) -> (r: String)
    ensures
        r@ == product_id_for(addr@, n as nat),
{
    let d = decimal_digits(n);
    let mut r = addr.clone();
    push_char(&mut r, '-');
    let ghost head = r@;
    let mut k: usize = d.len();
    while k < 6
        invariant
            d.len() <= k <= 6 || (k == d.len() && d.len() > 6),
            r@ == head + Seq::new((k - d.len()) as nat, |_i: int| '0'),
        decreases 6 - k,
    {
        push_char(&mut r, '0');
        k = k + 1;
        assert(r@ =~= head + Seq::new((k - d.len()) as nat, |_i: int| '0'));
    }
    let ghost body = r@;
    let mut i: usize = 0;
    while i < d.len()
        invariant
            0 <= i <= d@.len(),
            r@ == body + d@.subrange(0, i as int),
        decreases d@.len() - i,
    {
        push_char(&mut r, d[i]);
        i = i + 1;
        assert(r@ =~= body + d@.subrange(0, i as int));
    }
    assert(d@.subrange(0, d@.len() as int) =~= d@);
    let ghost zeros = Seq::new((k - d.len()) as nat, |_i: int| '0');
    assert(zero_padded(decimal(n as nat), 6) =~= zeros + d@);
    assert(r@ =~= addr@ + seq!['-'] + (zeros + d@));
    r
}

spec fn digits_value(s: Seq<char>) -> nat
    decreases s.len(),
{
    if s.len() == 0 { 0 } else { digits_value(s.drop_last()) * 10 + digit_value(s.last()) }
}

spec fn all_digits(s: Seq<char>) -> bool {
    forall|i: int| 0 <= i < s.len() ==> #[trigger] s[i] != '-'
}

proof fn lemma_digit_round_trip(d: nat)
    requires
        d < 10,
    ensures
        digit_value(digit_char(d)) == d,
        digit_char(d) != '-',
{
}

proof fn lemma_decimal_value(n: nat)
    ensures
        digits_value(decimal(n)) == n,
        all_digits(decimal(n)),
    decreases n,
{
    if n >= 10 {
        lemma_decimal_value(n / 10);
        lemma_digit_round_trip(n % 10);
        let d = decimal(n);
        assert(d.last() == digit_char(n % 10));
        assert(d.drop_last() =~= decimal(n / 10));
        assert(n == (n / 10) * 10 + n % 10) by (nonlinear_arith);
        assert(digits_value(d) == digits_value(decimal(n / 10)) * 10 + n % 10);
        assert forall|i: int| 0 <= i < d.len() implies #[trigger] d[i] != '-' by {
            if i < d.len() - 1 {
                assert(d[i] == decimal(n / 10)[i]);
            }
        }
    } else {
        lemma_digit_round_trip(n);
        assert(decimal(n).drop_last() =~= Seq::<char>::empty());
        assert(digits_value(Seq::<char>::empty()) == 0);
        assert(digits_value(decimal(n)) == digits_value(decimal(n).drop_last()) * 10 + digit_value(decimal(n).last()));
    }
}

proof fn lemma_zeros_value(k: nat, s: Seq<char>)
    ensures
        digits_value(Seq::new(k, |_i: int| '0') + s) == digits_value(s),
    decreases s.len(), k,
{
    let z = Seq::new(k, |_i: int| '0');
    if s.len() > 0 {
        assert((z + s).drop_last() =~= z + s.drop_last());
        lemma_zeros_value(k, s.drop_last());
    } else if k > 0 {
        assert((z + s).drop_last() =~= Seq::new((k - 1) as nat, |_i: int| '0') + s);
        lemma_zeros_value((k - 1) as nat, s);
    } else {
        assert(z + s =~= s);
    }
}

proof fn lemma_padded(n: nat)
    ensures
        digits_value(zero_padded(decimal(n), 6)) == n,
        all_digits(zero_padded(decimal(n), 6)),
{
    lemma_decimal_value(n);
    let d = decimal(n);
    if d.len() < 6 {
        lemma_zeros_value((6 - d.len()) as nat, d);
        let p = zero_padded(d, 6);
        assert forall|i: int| 0 <= i < p.len() implies #[trigger] p[i] != '-' by {
            if i >= 6 - d.len() {
                assert(p[i] == d[i - (6 - d.len())]);
            }
        }
    }
}

proof fn lemma_dash_suffix(a1: Seq<char>, d1: Seq<char>, a2: Seq<char>, d2: Seq<char>)
    requires
        all_digits(d1),
        all_digits(d2),
        a1 + seq!['-'] + d1 == a2 + seq!['-'] + d2,
    ensures
        d1 == d2,
        a1 == a2,
{
    let s = a1 + seq!['-'] + d1;
    let t = a2 + seq!['-'] + d2;
    let n = s.len();
    if d1.len() < d2.len() {
        let p = n - 1 - d1.len();
        assert(s[p] == '-');
        assert(t[p] == d2[p - a2.len() - 1]);
    } else if d2.len() < d1.len() {
        let p = n - 1 - d2.len();
        assert(t[p] == '-');
        assert(s[p] == d1[p - a1.len() - 1]);
    } else {
        assert forall|i: int| 0 <= i < d1.len() implies d1[i] == d2[i] by {
            assert(s[n - d1.len() + i] == d1[i]);
            assert(t[n - d1.len() + i] == d2[i]);
        }
        assert(d1 =~= d2);
        assert forall|i: int| 0 <= i < a1.len() implies a1[i] == a2[i] by {
            assert(s[i] == a1[i]);
            assert(t[i] == a2[i]);
        }
        assert(a1 =~= a2);
    }
}

/// Identifiers are equal only for the same manufacturer address and the
/// same sequence number.
pub proof fn lemma_product_id_injective(a1: Seq<char>, n1: nat, a2: Seq<char>, n2: nat)
    requires
        product_id_for(a1, n1) == product_id_for(a2, n2),
    ensures
        a1 == a2,
        n1 == n2,
{
    lemma_padded(n1);
    lemma_padded(n2);
    lemma_dash_suffix(a1, zero_padded(decimal(n1), 6), a2, zero_padded(decimal(n2), 6));
}

} // verus!
