//! Unicode properties of characters, and what is built on them.
use vstd::prelude::*;

use crate::text::{ascii_lower, ascii_lower_seq, chars_of};

verus! {

/// A character of the ASCII range.
pub open spec fn ascii(c: char) -> bool {
    c < '\u{80}'
}

/// What `char::is_alphanumeric` says of a character beyond ASCII.
pub uninterp spec fn wide_alphanumeric(c: char) -> bool;

/// Letters and digits.
pub open spec fn alphanumeric(c: char) -> bool {
    if ascii(c) {
        ('a' <= c && c <= 'z') || ('A' <= c && c <= 'Z') || ('0' <= c && c <= '9')
    } else {
        wide_alphanumeric(c)
    }
}

/// `char::is_alphanumeric`: whether a character is alphabetic or numeric. Of
/// ASCII the letters and the digits are.
pub assume_specification[ char::is_alphanumeric ](c: char) -> (b: bool)
    ensures
        !ascii(c) ==> b == wide_alphanumeric(c),
        ascii(c) ==> b == alphanumeric(c),
;

/// What `char::is_whitespace` says of a character beyond ASCII.
pub uninterp spec fn wide_white(c: char) -> bool;

/// White space.
pub open spec fn white(c: char) -> bool {
    if ascii(c) {
        c == ' ' || ('\t' <= c && c <= '\r')
    } else {
        wide_white(c)
    }
}

/// `char::is_whitespace`: whether a character has the `White_Space` property. Of
/// ASCII the space and the controls from the tab to the carriage return have it.
pub assume_specification[ char::is_whitespace ](c: char) -> (b: bool)
    ensures
        !ascii(c) ==> b == wide_white(c),
        ascii(c) ==> b == white(c),
;

/// The characters that `char::to_lowercase` yields beyond ASCII.
pub uninterp spec fn wide_lowercase(c: char) -> Seq<char>;

/// The lowercase mapping of a character.
pub open spec fn lowercase(c: char) -> Seq<char> {
    if ascii(c) {
        seq![ascii_lower(c)]
    } else {
        wide_lowercase(c)
    }
}

/// `char::to_lowercase`: the lowercase mapping of a character, which may be more
/// than one character. Of ASCII the capitals map to the small letters and the
/// rest to itself.
#[verifier::external_body]
fn lower_char(c: char) -> (r: Vec<char>)
    ensures
        !ascii(c) ==> r@ == wide_lowercase(c),
        ascii(c) ==> r@ == lowercase(c),
{
    c.to_lowercase().collect()
}

/// The text that `str::to_lowercase` yields for a text beyond ASCII.
pub uninterp spec fn wide_lowercase_text(s: Seq<char>) -> Seq<char>;

/// The lowercase equivalent of a text.
pub open spec fn lowercase_text(s: Seq<char>) -> Seq<char> {
    if forall|i: int| 0 <= i < s.len() ==> ascii(#[trigger] s[i]) {
        ascii_lower_seq(s)
    } else {
        wide_lowercase_text(s)
    }
}

/// `str::to_lowercase`: the lowercase equivalent of a text. One of ASCII alone
/// has its capitals replaced by the small letters.
#[verifier::external_body]
fn lower_str(s: &str) -> (r: String)
    ensures
        !(forall|i: int| 0 <= i < s@.len() ==> ascii(#[trigger] s@[i])) ==> r@ == wide_lowercase_text(s@),
        (forall|i: int| 0 <= i < s@.len() ==> ascii(#[trigger] s@[i])) ==> r@ == lowercase_text(s@),
{
    s.to_lowercase()
}

/// The lowercase equivalent of a text.
pub fn lowercased(s: &str) -> (r: String)
    ensures
        r@ == lowercase_text(s@),
{
    lower_str(s)
}

/// A character as it is scored: lowercase, or a space where it is neither letter
/// nor digit.
pub open spec fn folded_char(c: char) -> Seq<char> {
    if alphanumeric(c) {
        lowercase(c)
    } else {
        seq![' ']
    }
}

/// A text as it is scored, before its spaces are collapsed.
pub open spec fn folded(s: Seq<char>) -> Seq<char>
    decreases s.len(),
{
    if s.len() == 0 {
        Seq::empty()
    } else {
        folded(s.drop_last()) + folded_char(s.last())
    }
}

/// Folds a text character by character.
pub fn fold(s: &str) -> (r: Vec<char>)
    ensures
        r@ == folded(s@),
{
    let c = chars_of(s);
    let mut out: Vec<char> = Vec::new();
    for i in 0..c.len()
        invariant
            c@ == s@,
            out@ == folded(s@.take(i as int)),
    {
        if c[i].is_alphanumeric() {
            let mut l = lower_char(c[i]);
            out.append(&mut l);
        } else {
            out.push(' ');
        }
        assert(s@.take(i + 1).drop_last() =~= s@.take(i as int));
        assert(out@ =~= folded(s@.take(i + 1)));
    }
    assert(s@.take(c@.len() as int) =~= s@);
    out
}

/// The maximal runs of characters that are not white space.
pub open spec fn words(s: Seq<char>) -> Seq<Seq<char>>
    decreases s.len(),
{
    if s.len() == 0 {
        Seq::empty()
    } else {
        let w = words(s.drop_last());
        let c = s.last();
        if white(c) {
            w
        } else if s.len() >= 2 && !white(s[s.len() - 2]) {
            w.drop_last().push(w.last().push(c))
        } else {
            w.push(seq![c])
        }
    }
}

/// A run never is empty, and is never missing where the text ends in one.
pub proof fn lemma_words(s: Seq<char>)
    ensures
        s.len() > 0 && !white(s.last()) ==> words(s).len() > 0,
        forall|i: int| 0 <= i < words(s).len() ==> (#[trigger] words(s)[i]).len() > 0,
        forall|i: int, j: int|
            0 <= i < words(s).len() && 0 <= j < words(s)[i].len() ==> !white(#[trigger] words(s)[i][j]),
    decreases s.len(),
{
    if s.len() > 0 {
        let t = s.drop_last();
        lemma_words(t);
        if !white(s.last()) && s.len() >= 2 && !white(s[s.len() - 2]) {
            assert(t.last() == s[s.len() - 2]);
            let w = words(t);
            let l = w.last();
            assert(words(s) == w.drop_last().push(l.push(s.last())));
            assert forall|i: int, j: int| 0 <= i < words(s).len() && 0 <= j < words(s)[i].len() implies !white(
                #[trigger] words(s)[i][j],
            ) by {
                if i < w.len() - 1 {
                    assert(words(s)[i] == w[i]);
                } else {
                    assert(words(s)[i] == l.push(s.last()));
                    if j < l.len() {
                        assert(!white(w[w.len() - 1][j]));
                    }
                }
            }
        } else if !white(s.last()) {
            let w = words(t);
            assert forall|i: int, j: int| 0 <= i < words(s).len() && 0 <= j < words(s)[i].len() implies !white(
                #[trigger] words(s)[i][j],
            ) by {
                if i < w.len() {
                    assert(words(s)[i] == w[i]);
                }
            }
        }
    }
}

/// Splits a text at its white space.
pub fn split_whitespace(s: &[char]) -> (r: Vec<Vec<char>>)
    ensures
        r@.len() == words(s@).len(),
        forall|i: int| 0 <= i < r@.len() ==> (#[trigger] r@[i])@ == words(s@)[i],
{
    let mut out: Vec<Vec<char>> = Vec::new();
    let mut cur: Vec<char> = Vec::new();
    let mut open: bool = false;
    let ghost mut w: Seq<Seq<char>> = Seq::empty();
    for i in 0..s.len()
        invariant
            out@.len() == w.len(),
            forall|k: int| 0 <= k < out@.len() ==> (#[trigger] out@[k])@ == w[k],
            open == (i > 0 && !white(s@[i - 1])),
            words(s@.take(i as int)) == if open {
                w.push(cur@)
            } else {
                w
            },
            !open ==> cur@.len() == 0,
    {
        let c: char = s[i];
        let ghost t = s@.take(i + 1);
        assert(t.drop_last() =~= s@.take(i as int));
        assert(t.last() == c);
        assert(i > 0 ==> t[t.len() - 2] == s@[i - 1]);
        if c.is_whitespace() {
            if open {
                out.push(cur);
                proof {
                    w = w.push(cur@);
                }
                cur = Vec::new();
                open = false;
            }
        } else {
            let ghost before = cur@;
            cur.push(c);
            proof {
                if open {
                    assert(w.push(before).drop_last() =~= w);
                    assert(w.push(before).last() == before);
                } else {
                    assert(cur@ =~= seq![c]);
                }
            }
            open = true;
        }
    }
    assert(s@.take(s@.len() as int) =~= s@);
    if open {
        out.push(cur);
    }
    out
}

/// Words with one space between two of them.
pub open spec fn spaced(w: Seq<Seq<char>>) -> Seq<char>
    decreases w.len(),
{
    if w.len() == 0 {
        Seq::empty()
    } else if w.len() == 1 {
        w[0]
    } else {
        spaced(w.drop_last()).push(' ') + w.last()
    }
}

/// The white space at both ends removed.
pub open spec fn trimmed(s: Seq<char>) -> Seq<char>
    decreases s.len(),
{
    if s.len() > 0 && white(s[0]) {
        trimmed(s.skip(1))
    } else if s.len() > 0 && white(s.last()) {
        trimmed(s.drop_last())
    } else {
        s
    }
}

/// Removes the white space at both ends.
pub fn trim(s: &[char]) -> (r: Vec<char>)
    ensures
        r@ == trimmed(s@),
{
    let mut a: usize = 0;
    let mut b: usize = s.len();
    assert(s@.subrange(0, b as int) =~= s@);
    while a < b && s[a].is_whitespace()
        invariant
            a <= b <= s@.len(),
            trimmed(s@) == trimmed(s@.subrange(a as int, b as int)),
        decreases b - a,
    {
        assert(s@.subrange(a as int, b as int).skip(1) =~= s@.subrange(a + 1, b as int));
        a = a + 1;
    }
    while a < b && s[b - 1].is_whitespace()
        invariant
            a <= b <= s@.len(),
            trimmed(s@) == trimmed(s@.subrange(a as int, b as int)),
            a < b ==> !white(s@[a as int]),
        decreases b - a,
    {
        assert(s@.subrange(a as int, b as int).drop_last() =~= s@.subrange(a as int, b - 1));
        b = b - 1;
    }
    let mut out: Vec<char> = Vec::new();
    for i in a..b
        invariant
            a <= i <= b <= s@.len(),
            out@ == s@.subrange(a as int, i as int),
    {
        out.push(s[i]);
    }
    out
}

/// A word behind nothing, or behind white space, is one more word.
proof fn lemma_word_behind(a: Seq<char>, b: Seq<char>)
    requires
        a.len() == 0 || white(a.last()),
        b.len() > 0,
        forall|i: int| 0 <= i < b.len() ==> !white(#[trigger] b[i]),
    ensures
        words(a + b) == words(a).push(b),
    decreases b.len(),
{
    let s = a + b;
    assert(s.drop_last() =~= a + b.drop_last());
    assert(s.last() == b.last());
    if b.len() == 1 {
        assert(a + b.drop_last() =~= a);
        assert(b =~= seq![b.last()]);
        if s.len() >= 2 {
            assert(s[s.len() - 2] == a.last());
        }
    } else {
        lemma_word_behind(a, b.drop_last());
        assert(s[s.len() - 2] == b[b.len() - 2]);
        let w = words(a).push(b.drop_last());
        assert(w.drop_last() =~= words(a));
        assert(b.drop_last().push(b.last()) =~= b);
    }
}

/// Splitting words that were joined by spaces gives the words back.
pub proof fn law_split_undoes_join(w: Seq<Seq<char>>)
    requires
        forall|i: int| 0 <= i < w.len() ==> (#[trigger] w[i]).len() > 0,
        forall|i: int, j: int| 0 <= i < w.len() && 0 <= j < w[i].len() ==> !white(#[trigger] w[i][j]),
    ensures
        words(spaced(w)) == w,
    decreases w.len(),
{
    if w.len() == 0 {
        assert(w =~= Seq::empty());
    } else if w.len() == 1 {
        assert forall|i: int| 0 <= i < w[0].len() implies !white(#[trigger] w[0][i]) by {}
        lemma_word_behind(Seq::empty(), w[0]);
        assert(Seq::empty() + w[0] =~= w[0]);
        assert(words(Seq::<char>::empty()).push(w[0]) =~= w);
    } else {
        let v = w.drop_last();
        assert forall|i: int, j: int| 0 <= i < v.len() && 0 <= j < v[i].len() implies !white(#[trigger] v[i][j]) by {
            assert(!white(w[i][j]));
        }
        law_split_undoes_join(v);
        let a = spaced(v).push(' ');
        assert(a.drop_last() =~= spaced(v));
        assert forall|i: int| 0 <= i < w.last().len() implies !white(#[trigger] w.last()[i]) by {
            assert(!white(w[w.len() - 1][i]));
        }
        lemma_word_behind(a, w.last());
        assert(v.push(w.last()) =~= w);
    }
}

} // verus!
