//! The compound-key tokenization codec.
//!
//! A key string is a sequence of up to 11 typed fragments, each introduced
//! by a one-character separator: `$` starts a string fragment whose value is
//! the text up to the next separator or the end, and `#` starts an integer
//! fragment whose value is parsed from the following optionally signed
//! digits. A key that does not start with a separator, or that cannot be
//! tokenized by this grammar, is not suitable for indexing: the codec
//! signals "no fragments" rather than an error. Fragments beyond the 11th
//! are silently dropped.

use vstd::prelude::*;

verus! {

/// One decoded fragment of a compound key.
#[derive(Clone, Debug)]
pub enum Fragment {
    String(String),
    Integer(i64),
}

/// The mathematical value of a decoded fragment.
pub enum FragmentView {
    Str(Seq<char>),
    Int(int),
}

impl View for Fragment {
    type V = FragmentView;

    open spec fn view(&self) -> FragmentView {
        match self {
            Fragment::String(s) => FragmentView::Str(s@),
            Fragment::Integer(n) => FragmentView::Int(*n as int),
        }
    }
}

/// The views of a decoded fragment list.
pub open spec fn frags_view(s: Seq<Fragment>) -> Seq<FragmentView> {
    s.map_values(|f: Fragment| f@)
}

/// Whether the character introduces a fragment.
pub open spec fn is_sep(c: char) -> bool {
    c == '$' || c == '#'
}

/// Whether the character is a decimal digit.
pub open spec fn is_digit(c: char) -> bool {
    c == '0' || c == '1' || c == '2' || c == '3' || c == '4' || c == '5' || c == '6' || c == '7'
        || c == '8' || c == '9'
}

/// The value of one decimal digit.
pub open spec fn digit_val(c: char) -> int {
    if c == '0' {
        0
    } else if c == '1' {
        1
    } else if c == '2' {
        2
    } else if c == '3' {
        3
    } else if c == '4' {
        4
    } else if c == '5' {
        5
    } else if c == '6' {
        6
    } else if c == '7' {
        7
    } else if c == '8' {
        8
    } else {
        9
    }
}

/// The first position at or after `i` holding a separator, or the end.
pub open spec fn text_end(s: Seq<char>, i: int) -> int
    decreases s.len() - i,
{
    if i < 0 || i >= s.len() {
        s.len() as int
    } else if is_sep(s[i]) {
        i
    } else {
        text_end(s, i + 1)
    }
}

/// `text_end` stays between its start and the end of the string.
pub proof fn lemma_text_end_bounds(s: Seq<char>, i: int)
    requires
        0 <= i <= s.len(),
    ensures
        i <= text_end(s, i) <= s.len(),
    decreases s.len() - i,
{
    if i < s.len() && !is_sep(s[i]) {
        lemma_text_end_bounds(s, i + 1);
    }
}

/// The first position at or after `i` holding a non-digit, or the end.
pub open spec fn digits_end(s: Seq<char>, i: int) -> int
    decreases s.len() - i,
{
    if i < 0 || i >= s.len() {
        s.len() as int
    } else if !is_digit(s[i]) {
        i
    } else {
        digits_end(s, i + 1)
    }
}

/// `digits_end` stays between its start and the end of the string.
pub proof fn lemma_digits_end_bounds(s: Seq<char>, i: int)
    requires
        0 <= i <= s.len(),
    ensures
        i <= digits_end(s, i) <= s.len(),
    decreases s.len() - i,
{
    if i < s.len() && is_digit(s[i]) {
        lemma_digits_end_bounds(s, i + 1);
    }
}

/// The numeric value of a digit sequence, most significant digit first.
pub open spec fn digits_val(ds: Seq<char>) -> int
    decreases ds.len(),
{
    if ds.len() == 0 {
        0
    } else {
        digits_val(ds.drop_last()) * 10 + digit_val(ds.last())
    }
}

/// A digit sequence's value is non-negative.
pub proof fn lemma_digits_val_nonneg(ds: Seq<char>)
    ensures
        digits_val(ds) >= 0,
    decreases ds.len(),
{
    if ds.len() > 0 {
        lemma_digits_val_nonneg(ds.drop_last());
        assert(digit_val(ds.last()) >= 0);
    }
}

/// Extending a digit run (weakly) grows its value.
pub proof fn lemma_digits_val_monotone(s: Seq<char>, i: int, j: int, k: int)
    requires
        0 <= i <= j <= k <= s.len(),
    ensures
        digits_val(s.subrange(i, j)) <= digits_val(s.subrange(i, k)),
    decreases k - j,
{
    if j < k {
        lemma_digits_val_monotone(s, i, j, k - 1);
        let prev = s.subrange(i, k - 1);
        let cur = s.subrange(i, k);
        assert(cur.drop_last() =~= prev);
        lemma_digits_val_nonneg(prev);
        assert(digits_val(cur) == digits_val(prev) * 10 + digit_val(cur.last()));
        assert(digit_val(cur.last()) >= 0);
    }
}

/// The parsed fragments of the key text starting at position `i`, with
/// `count` fragments already taken: `None` when the remaining text cannot
/// be tokenized, the at most `11 - count` further fragments otherwise.
pub open spec fn parse_frags(s: Seq<char>, i: int, count: nat) -> Option<Seq<FragmentView>>
    decreases s.len() - i,
{
    if i < 0 || i >= s.len() || count >= 11 {
        Option::Some(Seq::empty())
    } else if s[i] == '$' {
        let j = text_end(s, i + 1);
        proof {
            lemma_text_end_bounds(s, i + 1);
        }
        match parse_frags(s, j, count + 1) {
            Option::None => Option::None,
            Option::Some(rest) => Option::Some(
                seq![FragmentView::Str(s.subrange(i + 1, j))] + rest,
            ),
        }
    } else if s[i] == '#' {
        let neg = i + 1 < s.len() && s[i + 1] == '-';
        let di = if neg {
            i + 2
        } else {
            i + 1
        };
        if di > s.len() {
            Option::None
        } else {
            let j = digits_end(s, di);
            proof {
                lemma_digits_end_bounds(s, di);
            }
            if j == di {
                Option::None
            } else {
                let mag = digits_val(s.subrange(di, j));
                let v = if neg {
                    -mag
                } else {
                    mag
                };
                if v < i64::MIN || v > i64::MAX {
                    Option::None
                } else {
                    match parse_frags(s, j, count + 1) {
                        Option::None => Option::None,
                        Option::Some(rest) => Option::Some(seq![FragmentView::Int(v)] + rest),
                    }
                }
            }
        }
    } else {
        Option::None
    }
}

/// The decoded fragments of a whole key: `None` when the key is empty, does
/// not start with a separator, or cannot be tokenized.
pub open spec fn key_frags(s: Seq<char>) -> Option<Seq<FragmentView>> {
    if s.len() == 0 {
        Option::None
    } else {
        parse_frags(s, 0, 0)
    }
}

fn digit_of(c: char) -> (r: Option<u64>)
    ensures
        r is Some <==> is_digit(c),
        r matches Some(d) ==> d == digit_val(c),
{
    match c {
        '0' => Some(0),
        '1' => Some(1),
        '2' => Some(2),
        '3' => Some(3),
        '4' => Some(4),
        '5' => Some(5),
        '6' => Some(6),
        '7' => Some(7),
        '8' => Some(8),
        '9' => Some(9),
        _ => None,
    }
}

/// Decodes a key into its fragments: `None` when the key is not suitable
/// for indexing, the (at most 11) decoded fragments otherwise.
#[verifier::loop_isolation(false)]
pub fn parse_key(key: &str) -> (r: Option<Vec<Fragment>>)
    ensures
        r is Some <==> key_frags(key@) is Some,
        r matches Some(v) ==> key_frags(key@) matches Some(fs) && frags_view(v@) == fs,
{
    let n = key.unicode_len();
    if n == 0 {
        return None;
    }
    let mut out: Vec<Fragment> = Vec::new();
    let mut i: usize = 0;
    let mut count: usize = 0;
    proof {
        assert(frags_view(out@) =~= Seq::<FragmentView>::empty());
    }
    while i < n && count < 11
        invariant
            i <= n,
            count <= 11,
            count == out@.len(),
            match parse_frags(key@, i as int, count as nat) {
                Option::None => key_frags(key@) is None,
                Option::Some(rest) => key_frags(key@) matches Some(all) && all == frags_view(out@)
                    + rest,
            },
        decreases n - i,
    {
        let c = key.get_char(i);
        if c == '$' {
            // string fragment: runs to the next separator or the end
            let mut j: usize = i + 1;
            while j < n
                invariant
                    i + 1 <= j <= n,
                    text_end(key@, i + 1) == text_end(key@, j as int),
                decreases n - j,
            {
                let cj = key.get_char(j);
                if cj == '$' || cj == '#' {
                    break ;
                }
                j += 1;
            }
            proof {
                lemma_text_end_bounds(key@, i + 1);
                assert(text_end(key@, j as int) == j as int);
            }
            let text = key.substring_char(i + 1, j);
            let ghost prev = out@;
            out.push(Fragment::String(text.to_owned()));
            proof {
                let frag = FragmentView::Str(key@.subrange(i + 1, j as int));
                assert(frags_view(out@) =~= frags_view(prev).push(frag));
                assert(frags_view(prev).push(frag) =~= frags_view(prev) + seq![frag]);
                let pf = parse_frags(key@, j as int, (count + 1) as nat);
                if pf is Some {
                    let rest = pf->0;
                    assert(frags_view(prev) + (seq![frag] + rest) =~= frags_view(out@) + rest);
                }
            }
            i = j;
            count += 1;
        } else if c == '#' {
            // integer fragment: optionally signed digits
            let neg = i + 1 < n && key.get_char(i + 1) == '-';
            let di: usize = if neg {
                i + 2
            } else {
                i + 1
            };
            if di > n {
                return None;
            }
            let mut j: usize = di;
            let mut acc: u64 = 0;
            let mut overflow = false;
            proof {
                lemma_digits_end_bounds(key@, di as int);
            }
            while j < n
                invariant
                    di <= j <= n,
                    digits_end(key@, di as int) == digits_end(key@, j as int),
                    di <= digits_end(key@, di as int) <= n,
                    forall|k: int| di <= k < j ==> is_digit(key@[k]),
                    !overflow ==> acc == digits_val(key@.subrange(di as int, j as int)),
                    !overflow ==> acc <= 9223372036854775808u64,
                    overflow ==> digits_val(
                        key@.subrange(di as int, digits_end(key@, di as int)),
                    ) > 9223372036854775808u64,
                decreases n - j,
            {
                let cj = key.get_char(j);
                match digit_of(cj) {
                    Option::None => {
                        break ;
                    },
                    Option::Some(d) => {
                        proof {
                            assert(digits_end(key@, j as int) == digits_end(key@, j + 1));
                        }
                        if overflow {
                            // keep scanning the digit run to find its end
                        } else {
                            proof {
                                assert(key@.subrange(di as int, j + 1).drop_last() =~= key@
                                    .subrange(di as int, j as int));
                            }
                            if acc > (9223372036854775808u64 - d) / 10 {
                                overflow = true;
                                proof {
                                    let full_end = digits_end(key@, di as int);
                                    lemma_digits_end_bounds(key@, j + 1);
                                    assert(full_end == digits_end(key@, j + 1));
                                    assert(full_end >= j + 1);
                                    lemma_digits_val_monotone(key@, di as int, j + 1, full_end);
                                    assert(digits_val(key@.subrange(di as int, j + 1)) == acc * 10
                                        + d);
                                    assert(acc * 10 + d > 9223372036854775808u64) by (nonlinear_arith)
                                        requires
                                            acc > (9223372036854775808u64 - d) / 10,
                                            d < 10,
                                    ;
                                }
                            } else {
                                proof {
                                    assert(acc * 10 + d <= 9223372036854775808u64)
                                        by (nonlinear_arith)
                                        requires
                                            acc <= (9223372036854775808u64 - d) / 10,
                                            d < 10,
                                    ;
                                }
                                acc = acc * 10 + d;
                            }
                        }
                        j += 1;
                    },
                }
            }
            proof {
                if !overflow {
                    assert(digits_end(key@, j as int) == j as int);
                }
            }
            if overflow {
                return None;
            }
            if j == di {
                return None;
            }
            let value: i64 = if neg {
                if acc > 9223372036854775808u64 {
                    return None;
                }
                if acc == 9223372036854775808u64 {
                    i64::MIN
                } else {
                    -(acc as i64)
                }
            } else {
                if acc > 9223372036854775807u64 {
                    return None;
                }
                acc as i64
            };
            let ghost prev = out@;
            out.push(Fragment::Integer(value));
            proof {
                let mag = digits_val(key@.subrange(di as int, j as int));
                let v: int = if neg {
                    -mag
                } else {
                    mag
                };
                assert(v == value as int);
                let frag = FragmentView::Int(v);
                assert(frags_view(out@) =~= frags_view(prev) + seq![frag]);
                let pf = parse_frags(key@, j as int, (count + 1) as nat);
                if pf is Some {
                    let rest = pf->0;
                    assert(frags_view(prev) + (seq![frag] + rest) =~= frags_view(out@) + rest);
                }
            }
            i = j;
            count += 1;
        } else {
            return None;
        }
    }
    Some(out)
}

/// Whether the key decodes to at least one fragment and so takes part in
/// fragment indexing.
pub fn is_suitable_for_index(key: &str) -> (r: bool)
    ensures
        r == (key_frags(key@) is Some),
{
    parse_key(key).is_some()
}

/// The string value at a position of a decoded fragment list, if the
/// fragment at that position is a string.
pub open spec fn frag_string_at(fs: Seq<FragmentView>, position: int) -> Option<Seq<char>> {
    if 0 <= position < fs.len() {
        match fs[position] {
            FragmentView::Str(t) => Option::Some(t),
            FragmentView::Int(_) => Option::None,
        }
    } else {
        Option::None
    }
}

/// The integer value at a position of a decoded fragment list, if the
/// fragment at that position is an integer.
pub open spec fn frag_integer_at(fs: Seq<FragmentView>, position: int) -> Option<int> {
    if 0 <= position < fs.len() {
        match fs[position] {
            FragmentView::Str(_) => Option::None,
            FragmentView::Int(v) => Option::Some(v),
        }
    } else {
        Option::None
    }
}

/// The string fragment at the given position, if any.
pub fn extract_string_fragment(frags: &Vec<Fragment>, position: usize) -> (r: Option<String>)
    ensures
        r is Some <==> frag_string_at(frags_view(frags@), position as int) is Some,
        r matches Some(s) ==> frag_string_at(frags_view(frags@), position as int) == Some(s@),
{
    if position < frags.len() {
        match &frags[position] {
            Fragment::String(s) => Some(s.clone()),
            Fragment::Integer(_) => None,
        }
    } else {
        None
    }
}

/// The integer fragment at the given position, if any.
pub fn extract_integer_fragment(frags: &Vec<Fragment>, position: usize) -> (r: Option<i64>)
    ensures
        r is Some <==> frag_integer_at(frags_view(frags@), position as int) is Some,
        r matches Some(v) ==> frag_integer_at(frags_view(frags@), position as int) == Some(
            v as int,
        ),
{
    if position < frags.len() {
        match &frags[position] {
            Fragment::String(_) => None,
            Fragment::Integer(v) => Some(*v),
        }
    } else {
        None
    }
}

} // verus!
