//! Primitives of the wire format: decimal rendering of an integer, JSON
//! string escaping, and the JSON number grammar.  Each executable function is
//! verified against a specification function that states the format exactly.
use vstd::prelude::*;
use vstd::string::*;

verus! {

/// The character for one digit value, `0` to `15`, lowercase.
pub open spec fn digit_char(d: nat) -> char {
    if d == 0 {
        '0'
    } else if d == 1 {
        '1'
    } else if d == 2 {
        '2'
    } else if d == 3 {
        '3'
    } else if d == 4 {
        '4'
    } else if d == 5 {
        '5'
    } else if d == 6 {
        '6'
    } else if d == 7 {
        '7'
    } else if d == 8 {
        '8'
    } else if d == 9 {
        '9'
    } else if d == 10 {
        'a'
    } else if d == 11 {
        'b'
    } else if d == 12 {
        'c'
    } else if d == 13 {
        'd'
    } else if d == 14 {
        'e'
    } else {
        'f'
    }
}

/// The decimal rendering of `n`, most significant digit first, no sign and
/// no leading zero (`0` renders as `"0"`).
pub open spec fn dec_chars(n: nat) -> Seq<char>
    decreases n,
{
    if n < 10 {
        seq![digit_char(n)]
    } else {
        dec_chars(n / 10).push(digit_char(n % 10))
    }
}

fn digit_str(d: u64) -> (r: &'static str)
    requires
        d < 16,
    ensures
        r@ == seq![digit_char(d as nat)],
{
    let r: &'static str = if d == 0 {
        proof {
            reveal_strlit("0");
        }
        "0"
    } else if d == 1 {
        proof {
            reveal_strlit("1");
        }
        "1"
    } else if d == 2 {
        proof {
            reveal_strlit("2");
        }
        "2"
    } else if d == 3 {
        proof {
            reveal_strlit("3");
        }
        "3"
    } else if d == 4 {
        proof {
            reveal_strlit("4");
        }
        "4"
    } else if d == 5 {
        proof {
            reveal_strlit("5");
        }
        "5"
    } else if d == 6 {
        proof {
            reveal_strlit("6");
        }
        "6"
    } else if d == 7 {
        proof {
            reveal_strlit("7");
        }
        "7"
    } else if d == 8 {
        proof {
            reveal_strlit("8");
        }
        "8"
    } else if d == 9 {
        proof {
            reveal_strlit("9");
        }
        "9"
    } else if d == 10 {
        proof {
            reveal_strlit("a");
        }
        "a"
    } else if d == 11 {
        proof {
            reveal_strlit("b");
        }
        "b"
    } else if d == 12 {
        proof {
            reveal_strlit("c");
        }
        "c"
    } else if d == 13 {
        proof {
            reveal_strlit("d");
        }
        "d"
    } else if d == 14 {
        proof {
            reveal_strlit("e");
        }
        "e"
    } else {
        proof {
            reveal_strlit("f");
        }
        "f"
    };
    proof {
        assert(r@ =~= seq![digit_char(d as nat)]);
    }
    r
}

/// Renders `n` in decimal, exactly as [`dec_chars`] states.
pub fn u64_to_dec(n: u64) -> (r: String)
    ensures
        r@ == dec_chars(n as nat),
    decreases n,
{
    if n < 10 {
        digit_str(n).to_owned()
    } else {
        let mut s = u64_to_dec(n / 10);
        s.append(digit_str(n % 10));
        proof {
            assert(dec_chars(n as nat) =~= dec_chars((n / 10) as nat) + seq![
                digit_char((n % 10) as nat),
            ]);
        }
        s
    }
}

/// What one character becomes inside a JSON string literal: quotes and
/// backslashes are escaped, the five named control characters take their
/// short escapes, any other control character takes a `\u00..` escape, and
/// everything else stands as itself.
pub open spec fn escape_char(c: char) -> Seq<char> {
    if c == '"' {
        seq!['\\', '"']
    } else if c == '\\' {
        seq!['\\', '\\']
    } else if c == '\u{8}' {
        seq!['\\', 'b']
    } else if c == '\t' {
        seq!['\\', 't']
    } else if c == '\n' {
        seq!['\\', 'n']
    } else if c == '\u{c}' {
        seq!['\\', 'f']
    } else if c == '\r' {
        seq!['\\', 'r']
    } else if (c as u32) < 0x20 {
        seq!['\\', 'u', '0', '0', digit_char(((c as u32) / 16) as nat), digit_char(
            ((c as u32) % 16) as nat,
        )]
    } else {
        seq![c]
    }
}

/// A whole string escaped for use inside a JSON string literal.
pub open spec fn json_escaped(s: Seq<char>) -> Seq<char>
    decreases s.len(),
{
    if s.len() == 0 {
        Seq::empty()
    } else {
        escape_char(s[0]) + json_escaped(s.drop_first())
    }
}

/// Escaping distributes over concatenation.
pub proof fn lemma_json_escaped_concat(a: Seq<char>, b: Seq<char>)
    ensures
        json_escaped(a + b) == json_escaped(a) + json_escaped(b),
    decreases a.len(),
{
    if a.len() == 0 {
        assert(a + b =~= b);
        assert(json_escaped(a) + json_escaped(b) =~= json_escaped(b));
    } else {
        assert((a + b)[0] == a[0]);
        assert((a + b).drop_first() =~= a.drop_first() + b);
        lemma_json_escaped_concat(a.drop_first(), b);
        assert(escape_char(a[0]) + (json_escaped(a.drop_first()) + json_escaped(b)) =~= (
        escape_char(a[0]) + json_escaped(a.drop_first())) + json_escaped(b));
    }
}

proof fn lemma_escape_head(c1: char, c2: char, t1: Seq<char>, t2: Seq<char>)
    requires
        escape_char(c1) + t1 == escape_char(c2) + t2,
    ensures
        c1 == c2,
        t1 == t2,
{
    let ea = escape_char(c1);
    let eb = escape_char(c2);
    let s = ea + t1;
    assert(s == eb + t2);
    assert(s[0] == ea[0] && s[0] == eb[0]);
    if ea[0] == '\\' && eb[0] == '\\' {
        // Both characters are escaped; the second output character tells the
        // escapes apart, and for the numeric escape the two hex digits pin
        // the code point.
        assert(s[1] == ea[1] && s[1] == eb[1]);
        if ea[1] == 'u' && eb[1] == 'u' {
            let d1 = c1 as u32;
            let d2 = c2 as u32;
            assert(s[4] == ea[4] && s[4] == eb[4]);
            assert(s[5] == ea[5] && s[5] == eb[5]);
            assert(digit_char((d1 / 16) as nat) == digit_char((d2 / 16) as nat));
            assert(digit_char((d1 % 16) as nat) == digit_char((d2 % 16) as nat));
            assert(d1 / 16 == d2 / 16 && d1 % 16 == d2 % 16);
            assert(d1 == d2);
            assert(c1 == c2);
        } else {
            assert(c1 == c2);
        }
    } else {
        // An unescaped character stands as itself and is never a backslash,
        // so when one head is unescaped the other is too, and the heads are
        // the characters themselves.
        assert(c1 == c2);
    }
    assert(ea == eb);
    assert(s.len() == ea.len() + t1.len());
    assert(s.len() == eb.len() + t2.len());
    assert forall|i: int| 0 <= i < t1.len() implies t1[i] == t2[i] by {
        assert(s[ea.len() + i] == t1[i]);
        assert(s[eb.len() + i] == t2[i]);
    }
    assert(t1 =~= t2);
}

/// Escaping is injective: two texts with the same escaped form are the same
/// text, so an escaped string inside a document still determines the
/// unescaped text it came from.
pub proof fn lemma_json_escaped_injective(a: Seq<char>, b: Seq<char>)
    requires
        json_escaped(a) == json_escaped(b),
    ensures
        a == b,
    decreases a.len(),
{
    if a.len() == 0 && b.len() > 0 {
        assert(json_escaped(b).len() >= escape_char(b[0]).len());
        assert(escape_char(b[0]).len() >= 1);
        assert(false);
    } else if b.len() == 0 && a.len() > 0 {
        assert(json_escaped(a).len() >= escape_char(a[0]).len());
        assert(escape_char(a[0]).len() >= 1);
        assert(false);
    } else if a.len() == 0 && b.len() == 0 {
        assert(a =~= b);
    } else {
        lemma_escape_head(a[0], b[0], json_escaped(a.drop_first()), json_escaped(b.drop_first()));
        lemma_json_escaped_injective(a.drop_first(), b.drop_first());
        assert forall|i: int| 0 <= i < a.len() implies a[i] == b[i] by {
            if i >= 1 {
                assert(a[i] == a.drop_first()[i - 1]);
                assert(b[i] == b.drop_first()[i - 1]);
            }
        }
        assert(a.len() == a.drop_first().len() + 1);
        assert(b.len() == b.drop_first().len() + 1);
        assert(a =~= b);
    }
}

proof fn lemma_escaped_take_step(s: Seq<char>, i: int)
    requires
        0 <= i < s.len(),
    ensures
        json_escaped(s.take(i + 1)) == json_escaped(s.take(i)) + escape_char(s[i]),
{
    assert(s.take(i + 1) =~= s.take(i) + seq![s[i]]);
    lemma_json_escaped_concat(s.take(i), seq![s[i]]);
    assert(seq![s[i]].drop_first() =~= Seq::<char>::empty());
    assert(json_escaped(seq![s[i]]) == escape_char(s[i]) + json_escaped(
        Seq::<char>::empty(),
    ));
    assert(escape_char(s[i]) + Seq::<char>::empty() =~= escape_char(s[i]));
}

/// Escapes `s` for use inside a JSON string literal, exactly as
/// [`json_escaped`] states.
pub fn json_escape(s: &str) -> (r: String)
    ensures
        r@ == json_escaped(s@),
{
    let n = s.unicode_len();
    let mut out = String::new();
    let mut i: usize = 0;
    while i < n
        invariant
            n == s@.len(),
            i <= n,
            out@ == json_escaped(s@.take(i as int)),
        decreases n - i,
    {
        let c = s.get_char(i);
        let ghost out0 = out@;
        if c == '"' {
            proof {
                reveal_strlit("\\\"");
            }
            out.append("\\\"");
            proof {
                assert(out@ =~= out0 + escape_char(c));
            }
        } else if c == '\\' {
            proof {
                reveal_strlit("\\\\");
            }
            out.append("\\\\");
            proof {
                assert(out@ =~= out0 + escape_char(c));
            }
        } else if c == '\u{8}' {
            proof {
                reveal_strlit("\\b");
            }
            out.append("\\b");
            proof {
                assert(out@ =~= out0 + escape_char(c));
            }
        } else if c == '\t' {
            proof {
                reveal_strlit("\\t");
            }
            out.append("\\t");
            proof {
                assert(out@ =~= out0 + escape_char(c));
            }
        } else if c == '\n' {
            proof {
                reveal_strlit("\\n");
            }
            out.append("\\n");
            proof {
                assert(out@ =~= out0 + escape_char(c));
            }
        } else if c == '\u{c}' {
            proof {
                reveal_strlit("\\f");
            }
            out.append("\\f");
            proof {
                assert(out@ =~= out0 + escape_char(c));
            }
        } else if c == '\r' {
            proof {
                reveal_strlit("\\r");
            }
            out.append("\\r");
            proof {
                assert(out@ =~= out0 + escape_char(c));
            }
        } else if (c as u32) < 0x20 {
            let d: u32 = c as u32;
            proof {
                reveal_strlit("\\u00");
            }
            out.append("\\u00");
            out.append(digit_str((d / 16) as u64));
            out.append(digit_str((d % 16) as u64));
            proof {
                assert(out@ =~= out0 + escape_char(c));
            }
        } else {
            let piece = s.substring_char(i, i + 1);
            out.append(piece);
            proof {
                assert(piece@ =~= seq![s@[i as int]]);
                assert(out@ =~= out0 + escape_char(c));
            }
        }
        proof {
            lemma_escaped_take_step(s@, i as int);
        }
        i = i + 1;
    }
    proof {
        assert(s@.take(n as int) =~= s@);
    }
    out
}

/// A decimal digit.
pub open spec fn is_digit(c: char) -> bool {
    '0' <= c && c <= '9'
}

/// The first position at or after `i` that does not hold a digit.
pub open spec fn digits_end(s: Seq<char>, i: int) -> int
    decreases s.len() - i,
    when 0 <= i <= s.len()
{
    if i < s.len() && is_digit(s[i]) {
        digits_end(s, i + 1)
    } else {
        i
    }
}

proof fn lemma_digits_end_bounds(s: Seq<char>, i: int)
    requires
        0 <= i <= s.len(),
    ensures
        i <= digits_end(s, i) <= s.len(),
    decreases s.len() - i,
{
    if i < s.len() && is_digit(s[i]) {
        lemma_digits_end_bounds(s, i + 1);
    }
}

proof fn lemma_digits_end_digits(s: Seq<char>, i: int)
    requires
        0 <= i <= s.len(),
    ensures
        forall|j: int| i <= j < digits_end(s, i) ==> is_digit(s[j]),
    decreases s.len() - i,
{
    if i < s.len() && is_digit(s[i]) {
        lemma_digits_end_digits(s, i + 1);
    }
}

/// End of the integer part starting at `i` (a digit is required at `i`):
/// a leading `0` stands alone, any other leading digit takes all digits
/// that follow.
pub open spec fn int_end(s: Seq<char>, i: int) -> int {
    if i < s.len() && s[i] == '0' {
        i + 1
    } else {
        digits_end(s, i)
    }
}

/// End of the optional fraction part starting at `i`: a `.` followed by at
/// least one digit takes all digits that follow it, anything else adds
/// nothing.
pub open spec fn frac_end(s: Seq<char>, i: int) -> int {
    if i < s.len() && s[i] == '.' && i + 1 < s.len() && is_digit(s[i + 1]) {
        digits_end(s, i + 1)
    } else {
        i
    }
}

/// End of the optional exponent part starting at `i`: an `e` or `E`, an
/// optional sign, and at least one digit; anything else adds nothing.
pub open spec fn exp_end(s: Seq<char>, i: int) -> int {
    if i < s.len() && (s[i] == 'e' || s[i] == 'E') {
        let j: int = if i + 1 < s.len() && (s[i + 1] == '+' || s[i + 1] == '-') {
            i + 2
        } else {
            i + 1
        };
        if j < s.len() && is_digit(s[j]) {
            digits_end(s, j)
        } else {
            i
        }
    } else {
        i
    }
}

/// The JSON number grammar: an optional minus, an integer part without a
/// superfluous leading zero, an optional fraction, an optional exponent, and
/// nothing after them.
pub open spec fn is_json_number(s: Seq<char>) -> bool {
    let i0: int = if s.len() > 0 && s[0] == '-' {
        1
    } else {
        0
    };
    &&& i0 < s.len()
    &&& is_digit(s[i0])
    &&& exp_end(s, frac_end(s, int_end(s, i0))) == s.len()
}

/// The characters a JSON number can be made of; none of them is a quote, a
/// comma, a brace or a bracket, which is what keeps a number text from
/// disturbing the structure around it in a serialized document.
pub open spec fn is_number_char(c: char) -> bool {
    is_digit(c) || c == '-' || c == '+' || c == '.' || c == 'e' || c == 'E'
}

/// Every character of a JSON number is drawn from the number alphabet.
pub proof fn lemma_number_chars(s: Seq<char>)
    requires
        is_json_number(s),
    ensures
        forall|i: int| 0 <= i < s.len() ==> is_number_char(#[trigger] s[i]),
{
    let i0: int = if s.len() > 0 && s[0] == '-' {
        1
    } else {
        0
    };
    let ie = int_end(s, i0);
    let fe = frac_end(s, ie);
    let ee = exp_end(s, fe);
    lemma_digits_end_bounds(s, i0);
    lemma_digits_end_digits(s, i0);
    assert(i0 <= ie <= s.len());
    assert(forall|j: int| i0 <= j < ie ==> is_digit(s[j]));
    if fe != ie {
        lemma_digits_end_bounds(s, ie + 1);
        lemma_digits_end_digits(s, ie + 1);
    }
    assert(ie <= fe <= s.len());
    assert(forall|j: int| ie <= j < fe ==> is_number_char(#[trigger] s[j]));
    if ee != fe {
        let j0: int = if fe + 1 < s.len() && (s[fe + 1] == '+' || s[fe + 1] == '-') {
            fe + 2
        } else {
            fe + 1
        };
        lemma_digits_end_bounds(s, j0);
        lemma_digits_end_digits(s, j0);
    }
    assert(forall|j: int| fe <= j < ee ==> is_number_char(#[trigger] s[j]));
}

fn is_digit_exec(c: char) -> (r: bool)
    ensures
        r == is_digit(c),
{
    '0' <= c && c <= '9'
}

fn digit_at(s: &str, j: usize) -> (r: bool)
    requires
        j < s@.len(),
    ensures
        r == is_digit(s@[j as int]),
{
    is_digit_exec(s.get_char(j))
}

fn digits_end_exec(s: &str, i: usize, n: usize) -> (r: usize)
    requires
        n == s@.len(),
        i <= n,
    ensures
        r == digits_end(s@, i as int),
        i <= r <= n,
{
    let mut j: usize = i;
    while j < n && digit_at(s, j)
        invariant
            n == s@.len(),
            i <= j <= n,
            digits_end(s@, i as int) == digits_end(s@, j as int),
        decreases n - j,
    {
        j = j + 1;
    }
    proof {
        lemma_digits_end_bounds(s@, j as int);
    }
    j
}

/// Decides the JSON number grammar, exactly as [`is_json_number`] states.
pub fn check_json_number(s: &str) -> (r: bool)
    ensures
        r == is_json_number(s@),
{
    let n = s.unicode_len();
    let i0: usize = if n > 0 && s.get_char(0) == '-' {
        1
    } else {
        0
    };
    if i0 >= n {
        return false;
    }
    let c0 = s.get_char(i0);
    if !is_digit_exec(c0) {
        return false;
    }
    let ie: usize = if c0 == '0' {
        i0 + 1
    } else {
        digits_end_exec(s, i0, n)
    };
    let fe: usize = if ie < n && s.get_char(ie) == '.' && ie + 1 < n && is_digit_exec(
        s.get_char(ie + 1),
    ) {
        digits_end_exec(s, ie + 1, n)
    } else {
        ie
    };
    let ee: usize = if fe < n && {
        let c = s.get_char(fe);
        c == 'e' || c == 'E'
    } {
        let j: usize = if fe + 1 < n && {
            let c = s.get_char(fe + 1);
            c == '+' || c == '-'
        } {
            fe + 2
        } else {
            fe + 1
        };
        if j < n && is_digit_exec(s.get_char(j)) {
            digits_end_exec(s, j, n)
        } else {
            fe
        }
    } else {
        fe
    };
    ee == n
}

} // verus!
