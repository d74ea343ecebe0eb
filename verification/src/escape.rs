//! Literal escaping for SQL text assembly.
//!
//! Every literal that the compiler interpolates into SQL text passes through
//! [`pg_escape`]: embedded single quotes are doubled, and the control
//! characters BEL, BS, TAB, LF, VT, FF, CR, together with space and
//! backslash itself, are backslash-escaped. All other characters pass
//! through unchanged.
//!
//! The module also proves the safety laws for the escaping: a SQL string
//! tokenizer scanning an escaped literal never terminates early on an
//! embedded quote, and decodes exactly the original text.

use vstd::prelude::*;

verus! {

/// Characters that the escaping replaces with a backslash escape.
pub open spec fn is_backslash_escaped(c: char) -> bool {
    c == '\u{7}' || c == '\u{8}' || c == '\t' || c == '\n' || c == '\u{b}' || c == '\u{c}'
        || c == '\r' || c == ' ' || c == '\\'
}

/// The code letter written after the backslash for an escaped character.
pub open spec fn escape_code(c: char) -> char {
    if c == '\u{7}' {
        'a'
    } else if c == '\u{8}' {
        'b'
    } else if c == '\t' {
        't'
    } else if c == '\n' {
        'n'
    } else if c == '\u{b}' {
        'v'
    } else if c == '\u{c}' {
        'f'
    } else if c == '\r' {
        'r'
    } else {
        c
    }
}

/// The character a SQL tokenizer reads back for a backslash escape code.
pub open spec fn unescape_code(c: char) -> char {
    if c == 'a' {
        '\u{7}'
    } else if c == 'b' {
        '\u{8}'
    } else if c == 't' {
        '\t'
    } else if c == 'n' {
        '\n'
    } else if c == 'v' {
        '\u{b}'
    } else if c == 'f' {
        '\u{c}'
    } else if c == 'r' {
        '\r'
    } else {
        c
    }
}

/// The escaped rendering of one character.
pub open spec fn escaped_char(c: char) -> Seq<char> {
    if c == '\'' {
        seq!['\'', '\'']
    } else if is_backslash_escaped(c) {
        seq!['\\', escape_code(c)]
    } else {
        seq![c]
    }
}

/// The escaped rendering of a whole string.
pub open spec fn escape_seq(s: Seq<char>) -> Seq<char>
    decreases s.len(),
{
    if s.len() == 0 {
        Seq::empty()
    } else {
        escaped_char(s[0]) + escape_seq(s.skip(1))
    }
}

/// Appending one character to the input appends its escaped rendering to the
/// output.
pub proof fn lemma_escape_seq_snoc(s: Seq<char>)
    requires
        s.len() > 0,
    ensures
        escape_seq(s) == escape_seq(s.drop_last()) + escaped_char(s.last()),
    decreases s.len(),
{
    if s.len() == 1 {
        assert(s.skip(1) =~= Seq::<char>::empty());
        assert(s.drop_last() =~= Seq::<char>::empty());
        assert(escape_seq(s) =~= escape_seq(s.drop_last()) + escaped_char(s.last()));
    } else {
        lemma_escape_seq_snoc(s.skip(1));
        assert(s.skip(1).drop_last() =~= s.drop_last().skip(1));
        assert(s.skip(1).last() == s.last());
        assert(s.drop_last().len() > 0);
        assert(s.drop_last()[0] == s[0]);
        assert(escape_seq(s) =~= escape_seq(s.drop_last()) + escaped_char(s.last()));
    }
}

/// Escapes a literal for interpolation into SQL text: doubles every single
/// quote and backslash-escapes BEL, BS, TAB, LF, VT, FF, CR, space, and
/// backslash; all other characters (including non-ASCII) are unchanged.
pub fn pg_escape(text: &str) -> (r: String)
    ensures
        r@ == escape_seq(text@),
{
    let n = text.unicode_len();
    let mut r = String::new();
    let mut i: usize = 0;
    while i < n
        invariant
            n == text@.len(),
            i <= n,
            r@ == escape_seq(text@.take(i as int)),
        decreases n - i,
    {
        let c = text.get_char(i);
        proof {
            lemma_escape_seq_snoc(text@.take(i + 1));
            assert(text@.take(i + 1).drop_last() =~= text@.take(i as int));
            assert(text@.take(i + 1).last() == text@[i as int]);
        }
        if c == '\'' {
            r.append("''");
            proof {
                reveal_strlit("''");
                assert(("''")@ =~= escaped_char('\''));
            }
        } else if c == '\u{7}' {
            r.append("\\a");
            proof {
                reveal_strlit("\\a");
                assert(("\\a")@ =~= escaped_char('\u{7}'));
            }
        } else if c == '\u{8}' {
            r.append("\\b");
            proof {
                reveal_strlit("\\b");
                assert(("\\b")@ =~= escaped_char('\u{8}'));
            }
        } else if c == '\t' {
            r.append("\\t");
            proof {
                reveal_strlit("\\t");
                assert(("\\t")@ =~= escaped_char('\t'));
            }
        } else if c == '\n' {
            r.append("\\n");
            proof {
                reveal_strlit("\\n");
                assert(("\\n")@ =~= escaped_char('\n'));
            }
        } else if c == '\u{b}' {
            r.append("\\v");
            proof {
                reveal_strlit("\\v");
                assert(("\\v")@ =~= escaped_char('\u{b}'));
            }
        } else if c == '\u{c}' {
            r.append("\\f");
            proof {
                reveal_strlit("\\f");
                assert(("\\f")@ =~= escaped_char('\u{c}'));
            }
        } else if c == '\r' {
            r.append("\\r");
            proof {
                reveal_strlit("\\r");
                assert(("\\r")@ =~= escaped_char('\r'));
            }
        } else if c == ' ' {
            r.append("\\ ");
            proof {
                reveal_strlit("\\ ");
                assert(("\\ ")@ =~= escaped_char(' '));
            }
        } else if c == '\\' {
            r.append("\\\\");
            proof {
                reveal_strlit("\\\\");
                assert(("\\\\")@ =~= escaped_char('\\'));
            }
        } else {
            crate::strfmt::push_char(&mut r, c);
            assert(r@ =~= escape_seq(text@.take(i as int)) + escaped_char(c));
        }
        i += 1;
    }
    proof {
        assert(text@.take(n as int) =~= text@);
    }
    r
}

/// A left-to-right scan of a SQL string literal body, as a SQL string
/// tokenizer performs it: a doubled quote stands for one quote, a backslash
/// escape stands for its decoded character, and a single quote not followed
/// by another quote terminates the literal. Returns the decoded value and
/// the number of characters consumed before the terminating quote (or before
/// the end of input when no terminator occurs).
pub open spec fn scan_literal(q: Seq<char>) -> (Seq<char>, int)
    decreases q.len(),
{
    if q.len() == 0 {
        (Seq::empty(), 0)
    } else if q[0] == '\'' {
        if q.len() >= 2 && q[1] == '\'' {
            let (v, n) = scan_literal(q.skip(2));
            (seq!['\''] + v, 2 + n)
        } else {
            (Seq::empty(), 0)
        }
    } else if q[0] == '\\' && q.len() >= 2 {
        let (v, n) = scan_literal(q.skip(2));
        (seq![unescape_code(q[1])] + v, 2 + n)
    } else {
        let (v, n) = scan_literal(q.skip(1));
        (seq![q[0]] + v, 1 + n)
    }
}

/// The scan consumes between zero characters and the whole input.
pub proof fn lemma_scan_literal_bounds(q: Seq<char>)
    ensures
        0 <= scan_literal(q).1 <= q.len(),
    decreases q.len(),
{
    if q.len() > 0 {
        if q[0] == '\'' {
            if q.len() >= 2 && q[1] == '\'' {
                lemma_scan_literal_bounds(q.skip(2));
            }
        } else if q[0] == '\\' && q.len() >= 2 {
            lemma_scan_literal_bounds(q.skip(2));
        } else {
            lemma_scan_literal_bounds(q.skip(1));
        }
    }
}

/// The scanner walks an escaped body without stopping: scanning the
/// escaped text followed by anything decodes the original text and then
/// continues exactly as a scan of the rest alone.
pub proof fn lemma_scan_escape_prefix(s: Seq<char>, b: Seq<char>)
    ensures
        scan_literal(escape_seq(s) + b).0 == s + scan_literal(b).0,
        scan_literal(escape_seq(s) + b).1 == escape_seq(s).len() + scan_literal(b).1,
    decreases s.len(),
{
    let q = escape_seq(s) + b;
    if s.len() == 0 {
        assert(escape_seq(s) =~= Seq::<char>::empty());
        assert(q =~= b);
        assert(scan_literal(q).0 =~= s + scan_literal(b).0);
    } else {
        let c = s[0];
        let t = s.skip(1);
        lemma_scan_escape_prefix(t, b);
        let qt = escape_seq(t) + b;
        assert(escape_seq(s) =~= escaped_char(c) + escape_seq(t));
        if c == '\'' {
            assert(q[0] == '\'' && q[1] == '\'');
            assert(q.skip(2) =~= qt);
            assert(scan_literal(q).0 =~= seq!['\''] + scan_literal(qt).0);
            assert(scan_literal(q).0 =~= s + scan_literal(b).0);
        } else if is_backslash_escaped(c) {
            assert(q[0] == '\\');
            assert(q[1] == escape_code(c));
            assert(q.len() >= 2);
            assert(q.skip(2) =~= qt);
            assert(unescape_code(escape_code(c)) == c);
            assert(scan_literal(q).0 =~= seq![c] + scan_literal(qt).0);
            assert(scan_literal(q).0 =~= s + scan_literal(b).0);
        } else {
            assert(q[0] == c);
            assert(c != '\'' && c != '\\');
            assert(q.skip(1) =~= qt);
            assert(scan_literal(q).0 =~= seq![c] + scan_literal(qt).0);
            assert(scan_literal(q).0 =~= s + scan_literal(b).0);
        }
    }
}

/// The central safety law of the escaping: when an escaped literal is
/// followed by its closing quote, a SQL string tokenizer consumes the whole
/// escaped body — no embedded quote terminates the literal early — and the
/// value it decodes is exactly the original text.
pub proof fn lemma_escape_round_trip(s: Seq<char>)
    ensures
        scan_literal(escape_seq(s) + seq!['\'']).0 == s,
        scan_literal(escape_seq(s) + seq!['\'']).1 == escape_seq(s).len(),
{
    lemma_scan_escape_prefix(s, seq!['\'']);
    assert(scan_literal(seq!['\'']).0 =~= Seq::<char>::empty());
    assert(s + Seq::<char>::empty() =~= s);
}

/// Escaping text made only of characters the escaping leaves untouched
/// (no quote, nothing backslash-escaped) is the identity.
pub proof fn lemma_escape_seq_identity(s: Seq<char>)
    requires
        forall|i: int| 0 <= i < s.len() ==> !(#[trigger] s[i] == '\'' || is_backslash_escaped(s[i])),
    ensures
        escape_seq(s) == s,
    decreases s.len(),
{
    if s.len() > 0 {
        assert(forall|i: int|
            0 <= i < s.skip(1).len() ==> !(#[trigger] s.skip(1)[i] == '\'' || is_backslash_escaped(
                s.skip(1)[i],
            )));
        lemma_escape_seq_identity(s.skip(1));
        assert(escaped_char(s[0]) =~= seq![s[0]]);
        assert(escape_seq(s) =~= s);
    }
}

/// Whether the text contains no single quote at all.
pub open spec fn quote_free(s: Seq<char>) -> bool {
    forall|i: int| 0 <= i < s.len() ==> s[i] != '\''
}

/// Escaping text without quotes yields text without quotes.
pub proof fn lemma_escape_quote_free(s: Seq<char>)
    requires
        quote_free(s),
    ensures
        quote_free(escape_seq(s)),
    decreases s.len(),
{
    if s.len() > 0 {
        assert(quote_free(s.skip(1)));
        lemma_escape_quote_free(s.skip(1));
        assert(s[0] != '\'');
        assert(forall|i: int|
            0 <= i < escaped_char(s[0]).len() ==> #[trigger] escaped_char(s[0])[i] != '\'');
        assert(forall|i: int|
            0 <= i < escape_seq(s).len() ==> #[trigger] escape_seq(s)[i] != '\'');
    }
}

/// Whether a whole piece of SQL text scans cleanly: every single quote
/// opens a string literal that a left-to-right tokenizer finds properly
/// terminated — no literal runs off the end of the text.
pub open spec fn sql_text_ok(q: Seq<char>) -> bool
    decreases q.len(),
{
    if q.len() == 0 {
        true
    } else if q[0] != '\'' {
        sql_text_ok(q.skip(1))
    } else {
        let body = q.skip(1);
        let n = scan_literal(body).1;
        proof {
            lemma_scan_literal_bounds(body);
        }
        if n < body.len() {
            sql_text_ok(body.skip(n + 1))
        } else {
            false
        }
    }
}

/// Text is scan-neutral when putting it in front of any further text
/// neither breaks nor repairs the scan of that text.
pub open spec fn scan_neutral(x: Seq<char>) -> bool {
    forall|b: Seq<char>| #[trigger] sql_text_ok(x + b) == sql_text_ok(b)
}

/// Quote-free text is scan-neutral.
pub proof fn lemma_quote_free_neutral(x: Seq<char>)
    requires
        quote_free(x),
    ensures
        scan_neutral(x),
    decreases x.len(),
{
    if x.len() == 0 {
        assert forall|b: Seq<char>| #[trigger] sql_text_ok(x + b) == sql_text_ok(b) by {
            assert(x + b =~= b);
        }
    } else {
        assert(quote_free(x.skip(1)));
        lemma_quote_free_neutral(x.skip(1));
        assert forall|b: Seq<char>| #[trigger] sql_text_ok(x + b) == sql_text_ok(b) by {
            assert((x + b)[0] == x[0]);
            assert(x[0] != '\'');
            assert((x + b).skip(1) =~= x.skip(1) + b);
            assert(sql_text_ok(x.skip(1) + b) == sql_text_ok(b));
        }
    }
}

/// Scan-neutrality is closed under concatenation.
pub proof fn lemma_neutral_concat(x: Seq<char>, y: Seq<char>)
    requires
        scan_neutral(x),
        scan_neutral(y),
    ensures
        scan_neutral(x + y),
{
    assert forall|b: Seq<char>| #[trigger] sql_text_ok((x + y) + b) == sql_text_ok(b) by {
        assert((x + y) + b =~= x + (y + b));
        assert(sql_text_ok(x + (y + b)) == sql_text_ok(y + b));
        assert(sql_text_ok(y + b) == sql_text_ok(b));
    }
}

/// A quoted, escaped literal is scan-neutral: the tokenizer consumes the
/// whole literal — however hostile its text — and carries on exactly as it
/// would have without it.
pub proof fn lemma_quoted_literal_neutral(s: Seq<char>)
    ensures
        scan_neutral(seq!['\''] + (escape_seq(s) + seq!['\''])),
{
    let x = seq!['\''] + (escape_seq(s) + seq!['\'']);
    assert forall|b: Seq<char>| #[trigger] sql_text_ok(x + b) == sql_text_ok(b) by {
        let q = x + b;
        assert(q[0] == '\'');
        let body = q.skip(1);
        assert(body =~= escape_seq(s) + (seq!['\''] + b));
        lemma_scan_escape_prefix(s, seq!['\''] + b);
        let inner = seq!['\''] + b;
        let n = scan_literal(body).1;
        lemma_scan_literal_bounds(body);
        if b.len() == 0 {
            // the literal sits at the very end: the closing quote is lone
            assert(inner =~= seq!['\'']);
            assert(scan_literal(inner).1 == 0);
            assert(n == escape_seq(s).len());
            assert(body.len() == escape_seq(s).len() + 1);
            assert(body.skip(n + 1) =~= b);
            assert(sql_text_ok(q) == sql_text_ok(b));
        } else if b[0] == '\'' {
            // the closing quote pairs with a following quote: the scan
            // continues inside one merged literal, exactly as the scan of
            // the rest alone would after its own opening quote
            assert(inner[0] == '\'' && inner[1] == '\'');
            assert(inner.skip(2) =~= b.skip(1));
            assert(scan_literal(inner).1 == 2 + scan_literal(b.skip(1)).1);
            let m = scan_literal(b.skip(1)).1;
            lemma_scan_literal_bounds(b.skip(1));
            assert(n == escape_seq(s).len() + 2 + m);
            assert(body.len() == escape_seq(s).len() + 1 + b.len());
            if m < b.skip(1).len() {
                assert(n < body.len());
                assert(body.skip(n + 1) =~= b.skip(1).skip(m + 1));
                assert(sql_text_ok(q) == sql_text_ok(b.skip(1).skip(m + 1)));
                assert(sql_text_ok(b) == sql_text_ok(b.skip(1).skip(m + 1)));
            } else {
                assert(n >= body.len());
                assert(!sql_text_ok(q));
                assert(!sql_text_ok(b));
            }
        } else {
            // the closing quote is lone: the literal ends there and the
            // scan continues at the rest
            assert(inner[0] == '\'');
            assert(!(inner.len() >= 2 && inner[1] == '\''));
            assert(scan_literal(inner).1 == 0);
            assert(n == escape_seq(s).len());
            assert(n < body.len());
            assert(body.skip(n + 1) =~= b);
            assert(sql_text_ok(q) == sql_text_ok(b));
        }
    }
}

} // verus!
