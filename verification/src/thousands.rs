//! Decimal rendering of counts with a comma between groups of three digits.

use vstd::prelude::*;

verus! {

/// The character of a decimal digit.
pub open spec fn digit_char(d: nat) -> char {
    (48 + d) as char
}

/// The decimal digits of `n`, most significant first, with no leading zero.
pub open spec fn decimal(n: nat) -> Seq<char>
    decreases n,
{
    if n < 10 {
        seq![digit_char(n)]
    } else {
        decimal(n / 10).push(digit_char(n % 10))
    }
}

/// A digit string with a comma inserted before every complete group of three
/// digits counted from the right, the leftmost group excepted.
pub open spec fn group_thousands(d: Seq<char>) -> Seq<char>
    decreases d.len(),
{
    if d.len() <= 3 {
        d
    } else {
        group_thousands(d.take(d.len() - 3)) + seq![','] + d.skip(d.len() - 3)
    }
}

/// What `thousandify(n)` renders.
pub open spec fn thousands_text(n: nat) -> Seq<char> {
    group_thousands(decimal(n))
}

/// Appends one character to a string.
#[verifier::external_body]
pub(crate) fn push_char(s: &mut String, c: char)
    ensures
        final(s)@ == old(s)@.push(c),
{
    s.push(c);
}

fn digit_of(d: u32) -> (c: char)
    requires
        d < 10,
    ensures
        c == digit_char(d as nat),
{
    let b: u8 = 48u8 + (d as u8);
    b as char
}

/// The decimal digits of `n`.
pub fn decimal_digits(n: u32) -> (v: Vec<char>)
    ensures
        v@ == decimal(n as nat),
    decreases n,
{
    let c = digit_of(n % 10);
    if n < 10 {
        let mut v: Vec<char> = Vec::new();
        v.push(c);
        v
    } else {
        let mut v = decimal_digits(n / 10);
        v.push(c);
        v
    }
}

proof fn lemma_decimal_len(n: nat)
    ensures
        decimal(n).len() >= 1,
    decreases n,
{
    if n >= 10 {
        lemma_decimal_len(n / 10);
    }
}

proof fn lemma_group_step(d: Seq<char>, k: int)
    requires
        1 <= k,
        k + 3 <= d.len(),
    ensures
        group_thousands(d.take(k + 3)) == group_thousands(d.take(k)) + seq![','] + d.subrange(
            k,
            k + 3,
        ),
{
    let t = d.take(k + 3);
    assert(t.take(t.len() - 3) =~= d.take(k));
    assert(t.skip(t.len() - 3) =~= d.subrange(k, k + 3));
}

/// Renders `num` in decimal with a comma between groups of three digits,
/// such as `1,234,567`.
pub fn thousandify(num: u32) -> (s: String)
    ensures
        s@ == thousands_text(num as nat),
{
    let d = decimal_digits(num);
    let len = d.len();
    proof {
        lemma_decimal_len(num as nat);
    }
    let first = (len - 1) % 3 + 1;
    let mut out = String::new();
    let mut k: usize = 0;
    while k < first
        invariant
            first <= len,
            len == d@.len(),
            k <= first,
            out@ == d@.take(k as int),
        decreases first - k,
    {
        push_char(&mut out, d[k]);
        assert(d@.take(k + 1) =~= d@.take(k as int).push(d@[k as int]));
        k += 1;
    }
    assert(out@ == group_thousands(d@.take(k as int)));
    while k < len
        invariant
            1 <= first <= k <= len,
            len == d@.len(),
            (len - k) % 3 == 0,
            out@ == group_thousands(d@.take(k as int)),
        decreases len - k,
    {
        proof {
            lemma_group_step(d@, k as int);
        }
        let ghost before = out@;
        push_char(&mut out, ',');
        push_char(&mut out, d[k]);
        push_char(&mut out, d[k + 1]);
        push_char(&mut out, d[k + 2]);
        assert(out@ =~= before + seq![','] + d@.subrange(k as int, k + 3));
        k += 3;
    }
    assert(d@.take(len as int) =~= d@);
    out
}

/// `s` with every comma taken out.
pub open spec fn without_commas(s: Seq<char>) -> Seq<char> {
    s.filter(|c: char| c != ',')
}

/// Every character of `s` is a decimal digit.
pub open spec fn all_digits(s: Seq<char>) -> bool {
    forall|i: int| 0 <= i < s.len() ==> '0' <= #[trigger] s[i] <= '9'
}

proof fn lemma_decimal_digits(n: nat)
    ensures
        all_digits(decimal(n)),
    decreases n,
{
    if n >= 10 {
        lemma_decimal_digits(n / 10);
    }
}

proof fn lemma_filter_keeps_digits(d: Seq<char>)
    requires
        all_digits(d),
    ensures
        without_commas(d) == d,
    decreases d.len(),
{
    reveal_with_fuel(Seq::filter, 1);
    if d.len() > 0 {
        assert(all_digits(d.drop_last()));
        lemma_filter_keeps_digits(d.drop_last());
        assert(d.drop_last().push(d.last()) =~= d);
    }
}

proof fn lemma_group_properties(d: Seq<char>)
    requires
        all_digits(d),
        d.len() >= 1,
    ensures
        without_commas(group_thousands(d)) == d,
        group_thousands(d).len() == d.len() + (d.len() - 1) / 3,
        forall|i: int|
            0 <= i < group_thousands(d).len() ==> (#[trigger] group_thousands(d)[i] == ','
                <==> (group_thousands(d).len() - i) % 4 == 0),
    decreases d.len(),
{
    let pred = |c: char| c != ',';
    if d.len() <= 3 {
        lemma_filter_keeps_digits(d);
    } else {
        let p = d.take(d.len() - 3);
        let t = d.skip(d.len() - 3);
        assert(all_digits(p));
        lemma_group_properties(p);
        let gp = group_thousands(p);
        let g = group_thousands(d);
        assert(g == gp + seq![','] + t);
        broadcast use Seq::filter_distributes_over_add;
        assert((gp + seq![','] + t).filter(pred) == (gp + seq![',']).filter(pred) + t.filter(pred));
        assert((gp + seq![',']).filter(pred) == gp.filter(pred) + seq![','].filter(pred));
        assert(seq![','].filter(pred) =~= Seq::<char>::empty()) by {
            reveal_with_fuel(Seq::filter, 2);
            assert(seq![','].drop_last() =~= Seq::<char>::empty());
        }
        assert(all_digits(t));
        lemma_filter_keeps_digits(t);
        assert(p + t =~= d);
        assert(g.len() == d.len() + (d.len() - 1) / 3);
        assert forall|i: int| 0 <= i < g.len() implies (#[trigger] g[i] == ',' <==> (g.len() - i)
            % 4 == 0) by {
            if i < gp.len() {
                assert(g[i] == gp[i]);
                assert((g.len() - i) % 4 == (gp.len() - i) % 4);
            } else if i == gp.len() {
            } else {
                assert(g[i] == t[i - gp.len() - 1]);
            }
        }
    }
}

/// Taking the commas out of a rendered count gives back its plain decimal
/// digits.
pub proof fn lemma_thousands_without_commas(n: nat)
    ensures
        without_commas(thousands_text(n)) == decimal(n),
{
    lemma_decimal_len(n);
    lemma_decimal_digits(n);
    lemma_group_properties(decimal(n));
}

/// A rendered count holds one comma per complete group of three digits
/// beyond the leftmost group, and a character is a comma exactly when the
/// number of characters from it to the end is a multiple of four.
pub proof fn lemma_thousands_layout(n: nat)
    ensures
        thousands_text(n).len() == decimal(n).len() + (decimal(n).len() - 1) / 3,
        forall|i: int|
            0 <= i < thousands_text(n).len() ==> (#[trigger] thousands_text(n)[i] == ','
                <==> (thousands_text(n).len() - i) % 4 == 0),
{
    lemma_decimal_len(n);
    lemma_decimal_digits(n);
    lemma_group_properties(decimal(n));
}

/// The value of the digit string `s` read as a base-10 numeral.
pub open spec fn numeral_value(s: Seq<char>) -> nat
    decreases s.len(),
{
    if s.len() == 0 {
        0
    } else {
        numeral_value(s.drop_last()) * 10 + ((s.last() as int - '0' as int) as nat)
    }
}

/// The decimal digits of `n`, read as a base-10 numeral, give back `n`; they
/// are all digits, and the leading one is `0` only for `n == 0` itself.
pub proof fn lemma_decimal_value(n: nat)
    ensures
        numeral_value(decimal(n)) == n,
        all_digits(decimal(n)),
        decimal(n).len() >= 1,
        decimal(n)[0] == '0' ==> n == 0,
    decreases n,
{
    lemma_decimal_digits(n);
    lemma_decimal_len(n);
    let r = n % 10;
    assert(digit_char(r) as int == 48 + r);
    if n >= 10 {
        lemma_decimal_value(n / 10);
        let d = decimal(n);
        assert(d.drop_last() =~= decimal(n / 10));
        assert(d.last() == digit_char(r));
        assert(d[0] == decimal(n / 10)[0]);
        assert(numeral_value(d) == numeral_value(decimal(n / 10)) * 10 + r);
        assert((n / 10) * 10 + r == n);
    } else {
        let d = decimal(n);
        assert(d.drop_last() =~= Seq::<char>::empty());
        assert(numeral_value(d.drop_last()) == 0);
        assert(r == n);
    }
}

/// Without its commas, a rendered count is a numeral with no needless leading
/// zero whose value is the count.
pub proof fn lemma_thousands_value(n: nat)
    ensures
        numeral_value(without_commas(thousands_text(n))) == n,
        all_digits(without_commas(thousands_text(n))),
        without_commas(thousands_text(n)).len() >= 1,
        without_commas(thousands_text(n))[0] == '0' ==> n == 0,
{
    lemma_thousands_without_commas(n);
    lemma_decimal_value(n);
}

} // verus!
