use vstd::prelude::*;
use vstd::string::*;

verus! {

/// An ASCII decimal digit.
pub open spec fn is_digit(c: char) -> bool {
    '0' <= c && c <= '9'
}

/// The value of a decimal digit.
pub open spec fn digit_value(c: char) -> int {
    c as int - '0' as int
}

/// Every character of `s` is a decimal digit.
pub open spec fn all_digits(s: Seq<char>) -> bool {
    forall|k: int| 0 <= k < s.len() ==> is_digit(#[trigger] s[k])
}

/// The number that a run of decimal digits spells, most significant first.
pub open spec fn digits_value(s: Seq<char>) -> int
    decreases s.len(),
{
    if s.len() == 0 {
        0
    } else {
        digits_value(s.drop_last()) * 10 + digit_value(s.last())
    }
}

/// The characters of a string, one by one.
pub fn to_chars(s: &str) -> (r: Vec<char>)
    ensures
        r@ == s@,
{
    let n = s.unicode_len();
    let mut v: Vec<char> = Vec::new();
    let mut i: usize = 0;
    while i < n
        invariant
            n == s@.len(),
            i <= n,
            v@ == s@.subrange(0, i as int),
        decreases n - i,
    {
        let c = s.get_char(i);
        v.push(c);
        proof {
            assert(s@.subrange(0, i + 1) == s@.subrange(0, i as int).push(c));
        }
        i = i + 1;
    }
    proof {
        assert(s@.subrange(0, n as int) == s@);
    }
    v
}

/// Whether `c` is a decimal digit.
pub fn char_is_digit(c: char) -> (r: bool)
    ensures
        r == is_digit(c),
{
    '0' <= c && c <= '9'
}

/// The value of the decimal digit `c`.
pub fn char_digit(c: char) -> (r: usize)
    requires
        is_digit(c),
    ensures
        r as int == digit_value(c),
        r < 10,
{
    (c as u32 - '0' as u32) as usize
}

/// The pieces of `s` between the separators `sep`; `n` separators give
/// `n + 1` pieces, some of which may be empty.
pub open spec fn split_on<A>(s: Seq<A>, sep: A) -> Seq<Seq<A>>
    decreases s.len(),
{
    if s.len() == 0 {
        seq![Seq::<A>::empty()]
    } else {
        let prev = split_on(s.drop_last(), sep);
        if s.last() == sep {
            prev.push(Seq::<A>::empty())
        } else {
            prev.update(prev.len() - 1, prev.last().push(s.last()))
        }
    }
}

/// Splitting always gives at least one piece.
pub proof fn lemma_split_nonempty<A>(s: Seq<A>, sep: A)
    ensures
        split_on(s, sep).len() >= 1,
    decreases s.len(),
{
    if s.len() > 0 {
        lemma_split_nonempty(s.drop_last(), sep);
    }
}

} // verus!

verus! {

/// Relies on `String::push`: the character is appended at the end.
#[verifier::external_body]
pub fn push_char(s: &mut String, c: char)
    ensures
        final(s)@ == old(s)@.push(c),
{
    s.push(c);
}

/// The character of the decimal digit `d`.
pub open spec fn digit_char(d: int) -> char {
    ((d + 48) as u8) as char
}

/// The character of a digit is a digit of that value.
pub proof fn lemma_digit_char(d: int)
    requires
        0 <= d < 10,
    ensures
        is_digit(digit_char(d)),
        digit_value(digit_char(d)) == d,
{
}

/// The character of the decimal digit `d`.
pub fn make_digit_char(d: usize) -> (c: char)
    requires
        d < 10,
    ensures
        c == digit_char(d as int),
        is_digit(c),
        digit_value(c) == d,
{
    (d as u8 + 48u8) as char
}

} // verus!

verus! {

/// The view of a list of character vectors.
pub open spec fn texts_view(v: Seq<Vec<char>>) -> Seq<Seq<char>> {
    v.map_values(|w: Vec<char>| w@)
}

/// Cuts `chars` at every `sep`.
pub fn split_chars(chars: &Vec<char>, sep: char) -> (r: Vec<Vec<char>>)
    ensures
        texts_view(r@) == split_on(chars@, sep),
{
    let ghost t = chars@;
    let mut done: Vec<Vec<char>> = Vec::new();
    let mut cur: Vec<char> = Vec::new();
    let mut i: usize = 0;
    proof {
        assert(t.subrange(0, 0) =~= Seq::<char>::empty());
        assert(split_on(t.subrange(0, 0), sep) =~= texts_view(done@).push(cur@));
    }
    while i < chars.len()
        invariant
            t == chars@,
            i <= t.len(),
            split_on(t.subrange(0, i as int), sep) == texts_view(done@).push(cur@),
        decreases t.len() - i,
    {
        let c = chars[i];
        proof {
            assert(t.subrange(0, i + 1).drop_last() == t.subrange(0, i as int));
            assert(t.subrange(0, i + 1).last() == c);
            lemma_split_nonempty(t.subrange(0, i as int), sep);
        }
        let ghost before = texts_view(done@);
        let ghost cur_before = cur@;
        if c == sep {
            let piece = cur;
            cur = Vec::new();
            done.push(piece);
            proof {
                assert(texts_view(done@) =~= before.push(cur_before));
                assert(split_on(t.subrange(0, i + 1), sep) =~= texts_view(done@).push(cur@));
            }
        } else {
            cur.push(c);
            proof {
                assert(split_on(t.subrange(0, i + 1), sep) =~= texts_view(done@).push(cur@));
            }
        }
        i = i + 1;
    }
    proof {
        assert(t.subrange(0, t.len() as int) == t);
    }
    let ghost before = texts_view(done@);
    let ghost last = cur@;
    done.push(cur);
    proof {
        assert(texts_view(done@) =~= before.push(last));
    }
    done
}

/// A character that separates words: the characters Unicode lists as white space.
pub open spec fn is_white(c: char) -> bool {
    ||| c == ' '
    ||| ('\u{9}' <= c && c <= '\u{d}')
    ||| c == '\u{85}'
    ||| c == '\u{a0}'
    ||| c == '\u{1680}'
    ||| ('\u{2000}' <= c && c <= '\u{200a}')
    ||| c == '\u{2028}'
    ||| c == '\u{2029}'
    ||| c == '\u{202f}'
    ||| c == '\u{205f}'
    ||| c == '\u{3000}'
}

/// Whether `c` separates words.
pub fn char_is_white(c: char) -> (r: bool)
    ensures
        r == is_white(c),
{
    c == ' ' || ('\u{9}' <= c && c <= '\u{d}') || c == '\u{85}' || c == '\u{a0}' || c
        == '\u{1680}' || ('\u{2000}' <= c && c <= '\u{200a}') || c == '\u{2028}' || c
        == '\u{2029}' || c == '\u{202f}' || c == '\u{205f}' || c == '\u{3000}'
}

/// The words of `s`: its longest runs of characters that are not white space, in order.
pub open spec fn words(s: Seq<char>) -> Seq<Seq<char>>
    decreases s.len(),
{
    if s.len() == 0 {
        Seq::empty()
    } else {
        let prev = words(s.drop_last());
        let c = s.last();
        if is_white(c) {
            prev
        } else if s.len() >= 2 && !is_white(s[s.len() - 2]) {
            prev.update(prev.len() - 1, prev.last().push(c))
        } else {
            prev.push(seq![c])
        }
    }
}

/// Splits `chars` into its words.
pub fn split_words(chars: &Vec<char>) -> (r: Vec<Vec<char>>)
    ensures
        texts_view(r@) == words(chars@),
{
    let ghost t = chars@;
    let mut done: Vec<Vec<char>> = Vec::new();
    let mut cur: Vec<char> = Vec::new();
    let mut i: usize = 0;
    proof {
        assert(t.subrange(0, 0) =~= Seq::<char>::empty());
        assert(texts_view(done@) =~= Seq::<Seq<char>>::empty());
    }
    while i < chars.len()
        invariant
            t == chars@,
            i <= t.len(),
            i == 0 ==> cur@.len() == 0,
            i > 0 && is_white(t[i - 1]) ==> cur@.len() == 0,
            i > 0 && !is_white(t[i - 1]) ==> cur@.len() > 0,
            cur@.len() == 0 ==> words(t.subrange(0, i as int)) == texts_view(done@),
            cur@.len() > 0 ==> words(t.subrange(0, i as int)) == texts_view(done@).push(cur@),
        decreases t.len() - i,
    {
        let c = chars[i];
        let ghost pre = t.subrange(0, i as int);
        let ghost next = t.subrange(0, i + 1);
        proof {
            assert(next.drop_last() == pre);
            assert(next.last() == c);
            if i > 0 {
                assert(next[next.len() - 2] == t[i - 1]);
            }
        }
        let ghost before = texts_view(done@);
        let ghost cur_before = cur@;
        if char_is_white(c) {
            if cur.len() > 0 {
                let piece = cur;
                cur = Vec::new();
                done.push(piece);
                proof {
                    assert(texts_view(done@) =~= before.push(cur_before));
                }
            }
        } else {
            cur.push(c);
            proof {
                if cur_before.len() > 0 {
                    assert(words(next) =~= texts_view(done@).push(cur@));
                } else {
                    assert(cur@ =~= seq![c]);
                    assert(words(next) =~= texts_view(done@).push(cur@));
                }
            }
        }
        i = i + 1;
    }
    proof {
        assert(t.subrange(0, t.len() as int) == t);
    }
    if cur.len() > 0 {
        let ghost before = texts_view(done@);
        let ghost last = cur@;
        done.push(cur);
        proof {
            assert(texts_view(done@) =~= before.push(last));
        }
    }
    done
}

/// Whether the characters `a` spell the string `w`.
pub fn same_text(a: &Vec<char>, w: &str) -> (r: bool)
    ensures
        r == (a@ == w@),
{
    let b = to_chars(w);
    if a.len() != b.len() {
        return false;
    }
    let mut i: usize = 0;
    while i < a.len()
        invariant
            i <= a@.len(),
            a@.len() == b@.len(),
            b@ == w@,
            forall|k: int| 0 <= k < i ==> a@[k] == b@[k],
        decreases a@.len() - i,
    {
        if a[i] != b[i] {
            return false;
        }
        i = i + 1;
    }
    proof {
        assert(a@ =~= b@);
    }
    true
}

/// The decimal digits of `n`, most significant first, without leading zeros
/// (zero is the single digit `0`).
pub open spec fn decimal_digits(n: nat) -> Seq<char>
    decreases n,
{
    if n < 10 {
        seq![digit_char(n as int)]
    } else {
        decimal_digits(n / 10).push(digit_char((n % 10) as int))
    }
}

/// Appends the decimal digits of `n` to `v`.
pub fn push_decimal_digits(v: &mut Vec<char>, n: u64)
    ensures
        final(v)@ == old(v)@ + decimal_digits(n as nat),
    decreases n,
{
    if n >= 10 {
        push_decimal_digits(v, n / 10);
    }
    let c = make_digit_char((n % 10) as usize);
    v.push(c);
    proof {
        if n >= 10 {
            assert(old(v)@ + decimal_digits(n as nat) =~= old(v)@ + decimal_digits(
                (n / 10) as nat,
            ) + seq![c]);
        } else {
            assert(old(v)@ + decimal_digits(n as nat) =~= old(v)@.push(c));
        }
    }
}

} // verus!
