//! Small verified operations on text: comparison, order, trimming, decimals.
use vstd::prelude::*;
use vstd::string::*;

verus! {

/// Whether two texts hold the same characters.
pub fn same_text(a: &str, b: &str) -> (r: bool)
    ensures
        r == (a@ == b@),
{
    a.to_owned() == b.to_owned()
}

/// Lexicographic order by code points.
pub open spec fn text_le(a: Seq<char>, b: Seq<char>) -> bool
    decreases a.len(),
{
    if a.len() == 0 {
        true
    } else if b.len() == 0 {
        false
    } else if a[0] != b[0] {
        (a[0] as int) < (b[0] as int)
    } else {
        text_le(a.drop_first(), b.drop_first())
    }
}

/// Of two texts, one comes before the other or they are equal.
pub proof fn lemma_text_le_total(a: Seq<char>, b: Seq<char>)
    ensures
        text_le(a, b) || text_le(b, a),
    decreases a.len(),
{
    if a.len() > 0 && b.len() > 0 && a[0] == b[0] {
        lemma_text_le_total(a.drop_first(), b.drop_first());
    }
}

/// Texts that come before each other are equal.
pub proof fn lemma_text_le_antisymmetric(a: Seq<char>, b: Seq<char>)
    requires
        text_le(a, b),
        text_le(b, a),
    ensures
        a == b,
    decreases a.len(),
{
    if a.len() > 0 && b.len() > 0 {
        lemma_text_le_antisymmetric(a.drop_first(), b.drop_first());
        assert(a =~= seq![a[0]] + a.drop_first());
        assert(b =~= seq![b[0]] + b.drop_first());
    } else {
        assert(a =~= b);
    }
}

/// The order of texts is transitive.
pub proof fn lemma_text_le_transitive(a: Seq<char>, b: Seq<char>, c: Seq<char>)
    requires
        text_le(a, b),
        text_le(b, c),
    ensures
        text_le(a, c),
    decreases a.len(),
{
    if a.len() > 0 && b.len() > 0 && c.len() > 0 && a[0] == b[0] && b[0] == c[0] {
        lemma_text_le_transitive(a.drop_first(), b.drop_first(), c.drop_first());
    }
}

/// Whether `a` comes before `b` or is equal to it.
pub fn is_text_le(a: &str, b: &str) -> (r: bool)
    ensures
        r == text_le(a@, b@),
{
    let a_len = a.unicode_len();
    let b_len = b.unicode_len();
    let mut i: usize = 0;
    assert(a@.skip(0) =~= a@);
    assert(b@.skip(0) =~= b@);
    while i < a_len
        invariant
            a_len == a@.len(),
            b_len == b@.len(),
            i <= a_len,
            i <= b_len,
            text_le(a@, b@) == text_le(a@.skip(i as int), b@.skip(i as int)),
        decreases a_len - i,
    {
        if i >= b_len {
            return false;
        }
        let x = a.get_char(i);
        let y = b.get_char(i);
        if x != y {
            return (x as u32) < (y as u32);
        }
        assert(a@.skip(i as int).drop_first() =~= a@.skip(i + 1));
        assert(b@.skip(i as int).drop_first() =~= b@.skip(i + 1));
        i = i + 1;
    }
    true
}

/// A white space character.
pub open spec fn is_space(c: char) -> bool {
    let n = c as u32;
    ||| 0x09 <= n <= 0x0d
    ||| n == 0x20
    ||| n == 0x85
    ||| n == 0xa0
    ||| n == 0x1680
    ||| 0x2000 <= n <= 0x200a
    ||| n == 0x2028
    ||| n == 0x2029
    ||| n == 0x202f
    ||| n == 0x205f
    ||| n == 0x3000
}

/// The text without the white space that it starts with.
pub open spec fn trimmed_start(s: Seq<char>) -> Seq<char>
    decreases s.len(),
{
    if s.len() > 0 && is_space(s[0]) {
        trimmed_start(s.drop_first())
    } else {
        s
    }
}

/// The text without the white space that it starts with.
pub fn trim_start<'a>(s: &'a str) -> (r: &'a str)
    ensures
        r@ == trimmed_start(s@),
{
    let len = s.unicode_len();
    let mut i: usize = 0;
    assert(s@.skip(0) =~= s@);
    while i < len
        invariant
            len == s@.len(),
            i <= len,
            trimmed_start(s@) == trimmed_start(s@.skip(i as int)),
        decreases len - i,
    {
        let n = s.get_char(i) as u32;
        let space = (0x09 <= n && n <= 0x0d) || n == 0x20 || n == 0x85 || n == 0xa0 || n == 0x1680
            || (0x2000 <= n && n <= 0x200a) || n == 0x2028 || n == 0x2029 || n == 0x202f || n
            == 0x205f || n == 0x3000;
        if !space {
            return s.substring_char(i, len);
        }
        assert(s@.skip(i as int).drop_first() =~= s@.skip(i + 1));
        i = i + 1;
    }
    s.substring_char(len, len)
}

/// The decimal digit of a number below ten.
pub open spec fn digit(d: nat) -> char {
    ('0' as nat + d) as char
}

/// A number in decimal.
pub open spec fn decimal(n: nat) -> Seq<char>
    decreases n,
{
    if n < 10 {
        seq![digit(n)]
    } else {
        decimal(n / 10).push(digit(n % 10))
    }
}

fn digit_text(d: usize) -> (r: &'static str)
    requires
        d < 10,
    ensures
        r@ == seq![digit(d as nat)],
{
    proof {
        reveal_strlit("0");
        reveal_strlit("1");
        reveal_strlit("2");
        reveal_strlit("3");
        reveal_strlit("4");
        reveal_strlit("5");
        reveal_strlit("6");
        reveal_strlit("7");
        reveal_strlit("8");
        reveal_strlit("9");
    }
    let r = match d {
        0 => "0",
        1 => "1",
        2 => "2",
        3 => "3",
        4 => "4",
        5 => "5",
        6 => "6",
        7 => "7",
        8 => "8",
        _ => "9",
    };
    assert(r@ =~= seq![digit(d as nat)]);
    r
}

/// A number in decimal.
pub fn to_decimal(n: usize) -> (r: String)
    ensures
        r@ == decimal(n as nat),
    decreases n,
{
    if n < 10 {
        digit_text(n).to_owned()
    } else {
        let mut r = to_decimal(n / 10);
        r.append(digit_text(n % 10));
        assert(r@ =~= decimal(n as nat));
        r
    }
}

/// The order of texts is that of their first difference: `a` comes before `b` if `b` goes on where
/// `a` ends, or if `a` has the lower character at the first place where they differ.
pub proof fn law_first_difference_decides(a: Seq<char>, b: Seq<char>)
    ensures
        text_le(a, b) <==> {
            ||| a.len() <= b.len() && b.take(a.len() as int) == a
            ||| exists|k: int|
                {
                    &&& 0 <= k < a.len()
                    &&& k < b.len()
                    &&& (#[trigger] a[k] as int) < (b[k] as int)
                    &&& forall|i: int| 0 <= i < k ==> #[trigger] a[i] == b[i]
                }
        },
    decreases a.len(),
{
    if a.len() == 0 {
        assert(b.take(0) =~= a);
    } else if b.len() > 0 {
        let at = a.drop_first();
        let bt = b.drop_first();
        if a[0] == b[0] {
            law_first_difference_decides(at, bt);
            if at.len() <= bt.len() && bt.take(at.len() as int) == at {
                assert forall|i: int| 0 <= i < a.len() implies b[i] == a[i] by {
                    if i > 0 {
                        assert(bt.take(at.len() as int)[i - 1] == at[i - 1]);
                    }
                }
                assert(b.take(a.len() as int) =~= a);
            } else if text_le(at, bt) {
                let k = choose|k: int|
                    {
                        &&& 0 <= k < at.len()
                        &&& k < bt.len()
                        &&& (#[trigger] at[k] as int) < (bt[k] as int)
                        &&& forall|i: int| 0 <= i < k ==> #[trigger] at[i] == bt[i]
                    };
                assert forall|i: int| 0 <= i < k + 1 implies #[trigger] a[i] == b[i] by {
                    if i > 0 {
                        assert(at[i - 1] == bt[i - 1]);
                    }
                }
                assert((a[k + 1] as int) < (b[k + 1] as int));
            } else {
                if a.len() <= b.len() && b.take(a.len() as int) == a {
                    assert forall|i: int| 0 <= i < at.len() implies bt[i] == at[i] by {
                        assert(b.take(a.len() as int)[i + 1] == a[i + 1]);
                    }
                    assert(bt.take(at.len() as int) =~= at);
                }
                assert forall|k: int|
                    {
                        &&& 0 <= k < a.len()
                        &&& k < b.len()
                        &&& (#[trigger] a[k] as int) < (b[k] as int)
                        &&& forall|i: int| 0 <= i < k ==> #[trigger] a[i] == b[i]
                    } implies false by {
                    assert(at[k - 1] == a[k] && bt[k - 1] == b[k]);
                    assert forall|i: int| 0 <= i < k - 1 implies #[trigger] at[i] == bt[i] by {
                        assert(a[i + 1] == b[i + 1]);
                    }
                }
            }
        } else {
            if a.len() <= b.len() && b.take(a.len() as int) == a {
                assert(b.take(a.len() as int)[0] == b[0]);
            }
            if text_le(a, b) {
                assert((a[0] as int) < (b[0] as int));
            } else {
                assert forall|k: int|
                    {
                        &&& 0 <= k < a.len()
                        &&& k < b.len()
                        &&& (#[trigger] a[k] as int) < (b[k] as int)
                        &&& forall|i: int| 0 <= i < k ==> #[trigger] a[i] == b[i]
                    } implies false by {
                    if k > 0 {
                        assert(a[0] == b[0]);
                    }
                }
            }
        }
    }
}

/// Trimming drops white space from the start of a text, as much as there is, and nothing else.
pub proof fn law_trimming_drops_white_space(s: Seq<char>)
    ensures
        exists|n: int|
            {
                &&& 0 <= n <= s.len()
                &&& trimmed_start(s) == #[trigger] s.skip(n)
                &&& forall|i: int| 0 <= i < n ==> is_space(#[trigger] s[i])
                &&& n < s.len() ==> !is_space(s[n])
            },
    decreases s.len(),
{
    if s.len() > 0 && is_space(s[0]) {
        let t = s.drop_first();
        law_trimming_drops_white_space(t);
        let m = choose|n: int|
            {
                &&& 0 <= n <= t.len()
                &&& trimmed_start(t) == #[trigger] t.skip(n)
                &&& forall|i: int| 0 <= i < n ==> is_space(#[trigger] t[i])
                &&& n < t.len() ==> !is_space(t[n])
            };
        assert(t.skip(m) =~= s.skip(m + 1));
        assert forall|i: int| 0 <= i < m + 1 implies is_space(#[trigger] s[i]) by {
            if i > 0 {
                assert(is_space(t[i - 1]));
            }
        }
    } else {
        assert(s.skip(0) =~= s);
    }
}

/// White space is the blank and the other separators of words, lines and paragraphs, and the
/// control characters by which a text moves on.
pub proof fn law_white_space(c: char)
    ensures
        is_space(c) <==> {
            ||| c == ' ' || c == '\u{a0}' || c == '\u{1680}' || c == '\u{2000}' || c == '\u{2001}'
            ||| c == '\u{2002}' || c == '\u{2003}' || c == '\u{2004}' || c == '\u{2005}'
            ||| c == '\u{2006}' || c == '\u{2007}' || c == '\u{2008}' || c == '\u{2009}'
            ||| c == '\u{200a}' || c == '\u{202f}' || c == '\u{205f}' || c == '\u{3000}'
            ||| c == '\u{2028}' || c == '\u{2029}'
            ||| c == '\t' || c == '\n' || c == '\u{b}' || c == '\u{c}' || c == '\r' || c == '\u{85}'
        },
{
}

/// The number that a text of digits stands for.
pub open spec fn number_of(digits: Seq<char>) -> int
    decreases digits.len(),
{
    if digits.len() == 0 {
        0
    } else {
        number_of(digits.drop_last()) * 10 + (digits.last() as int - '0' as int)
    }
}

/// A number in decimal is read back as the number: it is made of digits, the first of which is no
/// zero unless it is the only one.
pub proof fn law_decimals_are_read_back(n: nat)
    ensures
        number_of(decimal(n)) == n,
        decimal(n).len() > 0,
        forall|i: int| 0 <= i < decimal(n).len() ==> '0' <= #[trigger] decimal(n)[i] <= '9',
        decimal(n)[0] == '0' ==> n == 0,
    decreases n,
{
    let text = decimal(n);
    if n < 10 {
        assert(text.drop_last() =~= Seq::<char>::empty());
        assert(text.last() == digit(n));
        assert(number_of(Seq::<char>::empty()) == 0);
    } else {
        let init = decimal(n / 10);
        law_decimals_are_read_back(n / 10);
        assert(text.drop_last() =~= init);
        assert(text.last() == digit(n % 10));
        assert(text[0] == init[0]);
        assert forall|i: int| 0 <= i < text.len() implies '0' <= #[trigger] text[i] <= '9' by {
            if i < init.len() {
                assert(text[i] == init[i]);
            }
        }
    }
}

} // verus!
