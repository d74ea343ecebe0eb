//! Decimal rendering of integers and booleans as strings, with exact
//! character-level specifications, and the small text helpers the rest of
//! the crate builds its strings with. These renderings are the building
//! blocks of the SQL compiler and of validation diagnostics.

use vstd::prelude::*;

use crate::escape::quote_free;

verus! {

/// The character for a single decimal digit.
pub open spec fn digit_char(d: int) -> char {
    if d == 0 {
        '0'
    } else if d == 1 {
        '1'
    } else if d == 2 {
        '2'
    } else if d == 3 {
        '3'
    } else if d == 4 {
        '4'
    } else if d == 5 {
        '5'
    } else if d == 6 {
        '6'
    } else if d == 7 {
        '7'
    } else if d == 8 {
        '8'
    } else {
        '9'
    }
}

/// Decimal representation of a non-negative integer, most significant digit
/// first, with no leading zeros (except for zero itself).
pub open spec fn dec_rep(n: nat) -> Seq<char>
    decreases n,
{
    if n < 10 {
        seq![digit_char(n as int)]
    } else {
        dec_rep(n / 10).push(digit_char((n % 10) as int))
    }
}

/// Decimal representation of a signed integer: a leading '-' for negative
/// values, then the digits of the magnitude.
pub open spec fn int_rep(i: int) -> Seq<char> {
    if i >= 0 {
        dec_rep(i as nat)
    } else {
        seq!['-'] + dec_rep((-i) as nat)
    }
}

/// The SQL rendering of a boolean literal.
pub open spec fn bool_rep(b: bool) -> Seq<char> {
    if b {
        "true"@
    } else {
        "false"@
    }
}

/// Relies on str's `==` (PartialEq): character-for-character equality.
#[verifier::external_body]
pub(crate) fn str_eq(a: &str, b: &str) -> (r: bool)
    ensures
        r == (a@ == b@),
{
    a == b
}

/// Relies on String::push: appends exactly the given character.
#[verifier::external_body]
pub fn push_char(s: &mut String, c: char)
    ensures
        final(s)@ == old(s)@.push(c),
{
    s.push(c);
}

fn digit_to_char(d: u64) -> (c: char)
    requires
        d < 10,
    ensures
        c == digit_char(d as int),
{
    if d == 0 {
        '0'
    } else if d == 1 {
        '1'
    } else if d == 2 {
        '2'
    } else if d == 3 {
        '3'
    } else if d == 4 {
        '4'
    } else if d == 5 {
        '5'
    } else if d == 6 {
        '6'
    } else if d == 7 {
        '7'
    } else if d == 8 {
        '8'
    } else {
        '9'
    }
}

/// Renders an unsigned integer in decimal.
pub fn u64_to_string(n: u64) -> (r: String)
    ensures
        r@ == dec_rep(n as nat),
    decreases n,
{
    if n < 10 {
        let mut r = String::new();
        push_char(&mut r, digit_to_char(n));
        assert(r@ =~= dec_rep(n as nat));
        r
    } else {
        let mut r = u64_to_string(n / 10);
        push_char(&mut r, digit_to_char(n % 10));
        r
    }
}

/// Renders a signed integer in decimal, with a leading '-' when negative.
pub fn i64_to_string(n: i64) -> (r: String)
    ensures
        r@ == int_rep(n as int),
{
    if n >= 0 {
        u64_to_string(n as u64)
    } else {
        let mag: u64 = if n == i64::MIN {
            9223372036854775808u64
        } else {
            (-n) as u64
        };
        let mut r = String::new();
        push_char(&mut r, '-');
        let digits = u64_to_string(mag);
        r.append(digits.as_str());
        assert(r@ =~= int_rep(n as int));
        r
    }
}

/// The sequences joined with the separator between consecutive elements.
pub open spec fn join_with(parts: Seq<Seq<char>>, sep: Seq<char>) -> Seq<char>
    decreases parts.len(),
{
    if parts.len() == 0 {
        Seq::empty()
    } else if parts.len() == 1 {
        parts[0]
    } else {
        parts[0] + sep + join_with(parts.skip(1), sep)
    }
}

/// Joining one more part appends a separator and that part.
pub proof fn lemma_join_with_snoc(parts: Seq<Seq<char>>, sep: Seq<char>)
    requires
        parts.len() > 1,
    ensures
        join_with(parts, sep) == join_with(parts.drop_last(), sep) + sep + parts.last(),
    decreases parts.len(),
{
    if parts.len() == 2 {
        assert(parts.skip(1).len() == 1);
        assert(join_with(parts.skip(1), sep) == parts.skip(1)[0]);
        assert(parts.skip(1)[0] == parts[1]);
        assert(parts.drop_last().len() == 1);
        assert(join_with(parts.drop_last(), sep) == parts.drop_last()[0]);
        assert(parts.drop_last()[0] == parts[0]);
        assert(join_with(parts, sep) == parts[0] + sep + join_with(parts.skip(1), sep));
        assert(join_with(parts, sep) =~= join_with(parts.drop_last(), sep) + sep
            + parts.last());
    } else {
        let a = parts[0];
        let rest = parts.skip(1);
        lemma_join_with_snoc(rest, sep);
        assert(rest.drop_last() =~= parts.drop_last().skip(1));
        assert(rest.last() == parts.last());
        assert(parts.drop_last().len() > 1);
        assert(parts.drop_last()[0] == a);
        assert(join_with(parts, sep) == a + sep + join_with(rest, sep));
        assert(join_with(rest, sep) == join_with(rest.drop_last(), sep) + sep + rest.last());
        assert(join_with(parts.drop_last(), sep) == a + sep + join_with(rest.drop_last(), sep));
        assert(a + sep + (join_with(rest.drop_last(), sep) + sep + rest.last()) =~= (a + sep
            + join_with(rest.drop_last(), sep)) + sep + rest.last());
    }
}

/// The views of a sequence of strings.
pub open spec fn views_of(parts: Seq<String>) -> Seq<Seq<char>> {
    parts.map_values(|p: String| p@)
}

/// Joins the strings with the separator between consecutive elements.
pub fn join_strings(parts: &Vec<String>, sep: &str) -> (r: String)
    ensures
        r@ == join_with(views_of(parts@), sep@),
{
    let mut r = String::new();
    let n = parts.len();
    let mut i: usize = 0;
    while i < n
        invariant
            n == parts@.len(),
            i <= n,
            r@ == join_with(views_of(parts@).take(i as int), sep@),
        decreases n - i,
    {
        proof {
            let ps = views_of(parts@);
            assert(ps.take(i + 1).len() == i + 1);
            assert(ps.take(i + 1).last() == ps[i as int]);
            assert(ps.take(i + 1).drop_last() =~= ps.take(i as int));
            if i > 0 {
                lemma_join_with_snoc(ps.take(i + 1), sep@);
            } else {
                assert(join_with(ps.take(1), sep@) == ps[0]);
            }
        }
        if i > 0 {
            r.append(sep);
        }
        r.append(parts[i].as_str());
        i += 1;
    }
    proof {
        assert(views_of(parts@).take(n as int) =~= views_of(parts@));
    }
    r
}

/// Two quote-free texts concatenate to a quote-free text.
pub proof fn lemma_quote_free_concat(a: Seq<char>, b: Seq<char>)
    requires
        quote_free(a),
        quote_free(b),
    ensures
        quote_free(a + b),
{
    assert forall|i: int| 0 <= i < (a + b).len() implies (a + b)[i] != '\'' by {
        if i < a.len() {
            assert((a + b)[i] == a[i]);
        } else {
            assert((a + b)[i] == b[i - a.len()]);
        }
    }
}

/// A decimal rendering holds digits only, never a quote.
pub proof fn lemma_dec_rep_quote_free(n: nat)
    ensures
        quote_free(dec_rep(n)),
    decreases n,
{
    if n >= 10 {
        lemma_dec_rep_quote_free(n / 10);
        assert(digit_char((n % 10) as int) != '\'');
        assert(forall|i: int|
            0 <= i < dec_rep(n).len() ==> #[trigger] dec_rep(n)[i] != '\'');
    } else {
        assert(digit_char(n as int) != '\'');
    }
}

/// A signed decimal rendering never holds a quote.
pub proof fn lemma_int_rep_quote_free(i: int)
    ensures
        quote_free(int_rep(i)),
{
    if i >= 0 {
        lemma_dec_rep_quote_free(i as nat);
    } else {
        lemma_dec_rep_quote_free((-i) as nat);
        assert(quote_free(seq!['-']));
        lemma_quote_free_concat(seq!['-'], dec_rep((-i) as nat));
    }
}

/// A boolean rendering never holds a quote.
pub proof fn lemma_bool_rep_quote_free(b: bool)
    ensures
        quote_free(bool_rep(b)),
{
    if b {
        reveal_strlit("true");
        assert(("true")@ =~= seq!['t', 'r', 'u', 'e']);
    } else {
        reveal_strlit("false");
        assert(("false")@ =~= seq!['f', 'a', 'l', 's', 'e']);
    }
}

/// Renders a boolean as SQL's `true` / `false`.
pub fn bool_to_string(b: bool) -> (r: String)
    ensures
        r@ == bool_rep(b),
{
    if b {
        String::from_str("true")
    } else {
        String::from_str("false")
    }
}

} // verus!
