//! Small text routines: decimal rendering of numbers, amounts in cents,
//! the domain part of an address and the first word of a name.

use vstd::prelude::*;

verus! {

/// The decimal digit for `d`, where `d < 10`.
pub open spec fn digit_char(d: nat) -> char {
    if d == 0 { '0' }
    else if d == 1 { '1' }
    else if d == 2 { '2' }
    else if d == 3 { '3' }
    else if d == 4 { '4' }
    else if d == 5 { '5' }
    else if d == 6 { '6' }
    else if d == 7 { '7' }
    else if d == 8 { '8' }
    else { '9' }
}

/// The decimal notation of `n`, without leading zeros.
pub open spec fn decimal(n: nat) -> Seq<char>
    decreases n,
{
    if n < 10 {
        seq![digit_char(n)]
    } else {
        decimal(n / 10).push(digit_char(n % 10))
    }
}

proof fn lemma_digit_char_injective(a: nat, b: nat)
    requires
        a < 10,
        b < 10,
        digit_char(a) == digit_char(b),
    ensures
        a == b,
{
}

/// A decimal notation has at least one digit, and ends in the last digit.
pub proof fn lemma_decimal_shape(n: nat)
    ensures
        decimal(n).len() >= 1,
        decimal(n).last() == digit_char(n % 10),
        n >= 10 ==> decimal(n).len() >= 2,
    decreases n,
{
    if n >= 10 {
        lemma_decimal_shape(n / 10);
    }
}

/// Distinct numbers have distinct decimal notations.
pub proof fn lemma_decimal_injective(a: nat, b: nat)
    requires
        decimal(a) == decimal(b),
    ensures
        a == b,
    decreases a,
{
    lemma_decimal_shape(a);
    lemma_decimal_shape(b);
    lemma_digit_char_injective(a % 10, b % 10);
    if a >= 10 && b >= 10 {
        assert(decimal(a / 10) == decimal(a).drop_last());
        assert(decimal(b / 10) == decimal(b).drop_last());
        lemma_decimal_injective(a / 10, b / 10);
    }
}

fn digit_str(d: u64) -> (r: &'static str)
    requires
        d < 10,
    ensures
        r@ == seq![digit_char(d as nat)],
{
    proof {
        reveal_strlit("0");
        reveal_strlit("1");
        reveal_strlit("2");
        reveal_strlit("3");
        reveal_strlit("4");
        reveal_strlit("5");
        reveal_strlit("6");
        reveal_strlit("7");
        reveal_strlit("8");
        reveal_strlit("9");
    }
    let r = if d == 0 { "0" }
    else if d == 1 { "1" }
    else if d == 2 { "2" }
    else if d == 3 { "3" }
    else if d == 4 { "4" }
    else if d == 5 { "5" }
    else if d == 6 { "6" }
    else if d == 7 { "7" }
    else if d == 8 { "8" }
    else { "9" };
    assert(r@ =~= seq![digit_char(d as nat)]);
    r
}

/// Appends the decimal notation of `n` to `out`.
pub fn push_decimal(out: &mut String, n: u64)
    ensures
        final(out)@ == old(out)@ + decimal(n as nat),
    decreases n,
{
    if n < 10 {
        out.append(digit_str(n));
    } else {
        push_decimal(out, n / 10);
        out.append(digit_str(n % 10));
        assert(final(out)@ =~= old(out)@ + decimal(n as nat));
    }
}


/// The amount `c` (in cents) as units, a point and two decimals: `4250` is `42.50`.
pub open spec fn cents_text(c: nat) -> Seq<char> {
    decimal(c / 100) + seq!['.', digit_char((c % 100) / 10), digit_char(c % 10)]
}

/// Renders an amount given in cents with exactly two decimals.
pub fn format_cents(cents: u64) -> (r: String)
    ensures
        r@ == cents_text(cents as nat),
{
    let mut out = String::new();
    push_decimal(&mut out, cents / 100);
    proof {
        reveal_strlit(".");
    }
    out.append(".");
    out.append(digit_str((cents % 100) / 10));
    out.append(digit_str(cents % 10));
    assert(out@ =~= cents_text(cents as nat));
    out
}

/// The amount of 4250 cents reads `42.50`.
pub proof fn lemma_cents_text_example()
    ensures
        cents_text(4250) == "42.50"@,
{
    reveal_strlit("42.50");
    assert(decimal(4) == seq!['4']);
    assert(decimal(42) == seq!['4', '2']);
    assert(cents_text(4250) =~= "42.50"@);
}

/// The first position at or after `from` that holds `c`, or the length of
/// `s` where there is none.
pub open spec fn find_from(s: Seq<char>, c: char, from: nat) -> nat
    decreases s.len() - from,
{
    if from >= s.len() {
        s.len()
    } else if s[from as int] == c {
        from
    } else {
        find_from(s, c, from + 1)
    }
}

proof fn lemma_find_from_bounds(s: Seq<char>, c: char, from: nat)
    requires
        from <= s.len(),
    ensures
        from <= find_from(s, c, from) <= s.len(),
        find_from(s, c, from) < s.len() ==> s[find_from(s, c, from) as int] == c,
    decreases s.len() - from,
{
    if from < s.len() && s[from as int] != c {
        lemma_find_from_bounds(s, c, from + 1);
    }
}

fn find_char(s: &str, c: char, from: usize) -> (r: usize)
    requires
        from <= s@.len(),
    ensures
        r as nat == find_from(s@, c, from as nat),
{
    let n = s.unicode_len();
    let mut i: usize = from;
    while i < n
        invariant
            n == s@.len(),
            from <= i <= n,
            find_from(s@, c, from as nat) == find_from(s@, c, i as nat),
        decreases n - i,
    {
        if s.get_char(i) == c {
            return i;
        }
        i = i + 1;
    }
    i
}

/// The second piece of `s` when it is cut at every `@`: the text between the
/// first `@` and the next one (or the end); none where `s` holds no `@`.
pub open spec fn domain_part(s: Seq<char>) -> Option<Seq<char>> {
    let a = find_from(s, '@', 0);
    if a >= s.len() {
        None
    } else {
        Some(s.subrange(a + 1 as int, find_from(s, '@', a + 1) as int))
    }
}

/// The domain to greet the mail relay with, taken from the sender's address.
pub fn get_ehlo_domain(email: &str) -> (r: Option<String>)
    ensures
        r matches Some(d) ==> domain_part(email@) == Some(d@),
        r is None ==> domain_part(email@) is None,
{
    let a = find_char(email, '@', 0);
    proof {
        lemma_find_from_bounds(email@, '@', 0);
    }
    if a >= email.unicode_len() {
        None
    } else {
        let b = find_char(email, '@', a + 1);
        proof {
            lemma_find_from_bounds(email@, '@', (a + 1) as nat);
        }
        Some(String::from_str(email.substring_char(a + 1, b)))
    }
}

/// The first piece of `s` when it is cut at every space (all of `s` where
/// it holds none).
pub open spec fn first_word_of(s: Seq<char>) -> Seq<char> {
    s.subrange(0, find_from(s, ' ', 0) as int)
}

/// The first name of a submitter: the name up to its first space.
pub fn first_word(name: &str) -> (r: String)
    ensures
        r@ == first_word_of(name@),
{
    let a = find_char(name, ' ', 0);
    proof {
        lemma_find_from_bounds(name@, ' ', 0);
    }
    String::from_str(name.substring_char(0, a))
}


/// An ASCII letter or digit.
pub open spec fn is_alphanumeric(c: char) -> bool {
    ('a' <= c && c <= 'z') || ('A' <= c && c <= 'Z') || ('0' <= c && c <= '9')
}

/// Relies on `rand::thread_rng` sampled with `rand::distributions::Alphanumeric`
/// and `take(len)`: `len` characters, each an ASCII letter or digit; which
/// ones is left to chance.
#[verifier::external_body]
pub(crate) fn random_alphanumeric(len: usize) -> (r: String)
    ensures
        r@.len() == len,
        forall|i: int| 0 <= i < len ==> is_alphanumeric(#[trigger] r@[i]),
{
    rand::Rng::sample_iter(rand::thread_rng(), rand::distributions::Alphanumeric)
        .take(len)
        .map(char::from)
        .collect()
}

} // verus!
