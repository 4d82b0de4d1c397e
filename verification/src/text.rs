//! Case-insensitive whole-word text matching: the query is split into
//! lowercased terms, and a term matches a document when it occurs as a
//! whitespace-delimited word of the document's indexed text.
//!
//! Case folding is ASCII-only: that is the case-insensitivity every
//! contract here states. Characters outside the ASCII range compare
//! verbatim.

use vstd::prelude::*;

verus! {

/// ASCII whitespace, the token separator.
pub open spec fn is_ws(c: char) -> bool {
    c == ' ' || c == '\t' || c == '\n' || c == '\r' || c == '\u{c}'
}

/// ASCII case folding of one character.
pub open spec fn lower_char(c: char) -> char {
    if 'A' <= c && c <= 'Z' {
        ((c as int) + 32) as char
    } else {
        c
    }
}

/// ASCII case folding of a character sequence.
pub open spec fn lower_seq(s: Seq<char>) -> Seq<char> {
    s.map_values(|c: char| lower_char(c))
}

pub fn lower_char_exec(c: char) -> (r: char)
    ensures
        r == lower_char(c),
{
    if 'A' <= c && c <= 'Z' {
        (((c as u8) + 32) as char)
    } else {
        c
    }
}

pub fn is_ws_exec(c: char) -> (r: bool)
    ensures
        r == is_ws(c),
{
    c == ' ' || c == '\t' || c == '\n' || c == '\r' || c == '\u{c}'
}

/// The characters of `s`, with random access.
pub fn chars_of(s: &str) -> (r: Vec<char>)
    ensures
        r@ == s@,
{
    let n = s.unicode_len();
    let mut r: Vec<char> = Vec::new();
    let mut i: usize = 0;
    while i < n
        invariant
            0 <= i <= n,
            n == s@.len(),
            r@ == s@.subrange(0, i as int),
        decreases n - i,
    {
        r.push(s.get_char(i));
        assert(r@ =~= s@.subrange(0, i + 1));
        i += 1;
    }
    assert(r@ =~= s@);
    r
}


/// The lowercased terms of a query: maximal runs of non-whitespace
/// characters, scanned from position `i` with the partial term `cur`.
pub open spec fn terms_from(s: Seq<char>, i: int, cur: Seq<char>) -> Seq<Seq<char>>
    decreases s.len() - i,
{
    if i < 0 || i >= s.len() {
        if cur.len() > 0 {
            seq![cur]
        } else {
            Seq::empty()
        }
    } else if is_ws(s[i]) {
        if cur.len() > 0 {
            seq![cur] + terms_from(s, i + 1, Seq::empty())
        } else {
            terms_from(s, i + 1, Seq::empty())
        }
    } else {
        terms_from(s, i + 1, cur.push(lower_char(s[i])))
    }
}

/// The lowercased whitespace-separated terms of a query text.
pub open spec fn terms_of(s: Seq<char>) -> Seq<Seq<char>> {
    terms_from(s, 0, Seq::empty())
}

/// Splits a query into its lowercased terms.
#[verifier::loop_isolation(false)]
pub fn tokenize(text: &str) -> (r: Vec<Vec<char>>)
    ensures
        r@.map_values(|t: Vec<char>| t@) == terms_of(text@),
{
    let chars = chars_of(text);
    let mut r: Vec<Vec<char>> = Vec::new();
    let mut cur: Vec<char> = Vec::new();
    let mut i: usize = 0;
    while i < chars.len()
        invariant
            0 <= i <= chars.len(),
            chars@ == text@,
            terms_of(text@) == r@.map_values(|t: Vec<char>| t@) + terms_from(
                text@,
                i as int,
                cur@,
            ),
        decreases chars.len() - i,
    {
        let c = chars[i];
        proof {
            assert(terms_from(text@, i as int, cur@) == (if is_ws(text@[i as int]) {
                if cur@.len() > 0 {
                    seq![cur@] + terms_from(text@, i + 1, Seq::<char>::empty())
                } else {
                    terms_from(text@, i + 1, Seq::<char>::empty())
                }
            } else {
                terms_from(text@, i + 1, cur@.push(lower_char(text@[i as int])))
            }));
        }
        if is_ws_exec(c) {
            if cur.len() > 0 {
                let ghost old_r = r@;
                let ghost old_cur = cur@;
                let done = cur;
                cur = Vec::new();
                r.push(done);
                proof {
                    assert(cur@ =~= Seq::<char>::empty());
                    assert(r@.map_values(|t: Vec<char>| t@) =~= old_r.map_values(
                        |t: Vec<char>| t@,
                    ).push(old_cur));
                    assert(old_r.map_values(|t: Vec<char>| t@) + (seq![old_cur] + terms_from(
                        text@,
                        i + 1,
                        Seq::empty(),
                    )) =~= r@.map_values(|t: Vec<char>| t@) + terms_from(
                        text@,
                        i + 1,
                        Seq::empty(),
                    ));
                }
            } else {
                proof {
                    assert(cur@ =~= Seq::<char>::empty());
                }
            }
        } else {
            cur.push(lower_char_exec(c));
        }
        i += 1;
    }
    if cur.len() > 0 {
        let ghost old_r = r@;
        let ghost old_cur = cur@;
        r.push(cur);
        proof {
            assert(r@.map_values(|t: Vec<char>| t@) =~= old_r.map_values(
                |t: Vec<char>| t@,
            ).push(old_cur));
            assert(old_r.map_values(|t: Vec<char>| t@) + seq![old_cur] =~= r@.map_values(
                |t: Vec<char>| t@,
            ));
        }
    } else {
        proof {
            assert(r@.map_values(|t: Vec<char>| t@) + Seq::<Seq<char>>::empty() =~= r@.map_values(
                |t: Vec<char>| t@,
            ));
        }
    }
    r
}

/// Whether the (already lowercased, nonempty) term `term` occurs in `hay`
/// as a whole whitespace-delimited word, ignoring ASCII case.
pub open spec fn word_at(hay: Seq<char>, term: Seq<char>, i: int) -> bool {
    &&& 0 <= i
    &&& i + term.len() <= hay.len()
    &&& lower_seq(hay.subrange(i, i + term.len() as int)) == term
    &&& (i == 0 || is_ws(hay[i - 1]))
    &&& (i + term.len() == hay.len() || is_ws(hay[i + term.len() as int]))
}

/// Whether `term` matches somewhere in `hay` as a whole word.
pub open spec fn word_in(hay: Seq<char>, term: Seq<char>) -> bool {
    term.len() > 0 && exists|i: int| word_at(hay, term, i)
}

#[verifier::loop_isolation(false)]
fn window_matches(hay: &Vec<char>, term: &Vec<char>, at: usize) -> (r: bool)
    requires
        at + term@.len() <= hay@.len(),
    ensures
        r == (lower_seq(hay@.subrange(at as int, at + term@.len())) == term@),
{
    let n = hay.len();
    let mut k: usize = 0;
    while k < term.len()
        invariant
            0 <= k <= term@.len(),
            n == hay@.len(),
            forall|m: int| 0 <= m < k ==> lower_char(hay@[at + m]) == term@[m],
        decreases term@.len() - k,
    {
        assert(at + k < n);
        if lower_char_exec(hay[at + k]) != term[k] {
            proof {
                let w = lower_seq(hay@.subrange(at as int, at + term@.len()));
                assert(w[k as int] == lower_char(hay@[at + k]));
            }
            return false;
        }
        k += 1;
    }
    proof {
        assert(lower_seq(hay@.subrange(at as int, at + term@.len())) =~= term@);
    }
    true
}

/// Whether `term` occurs in `hay` as a whole whitespace-delimited word.
#[verifier::loop_isolation(false)]
pub fn find_word(hay: &Vec<char>, term: &Vec<char>) -> (r: bool)
    ensures
        r == word_in(hay@, term@),
{
    if term.len() == 0 {
        return false;
    }
    if term.len() > hay.len() {
        assert forall|i: int| !word_at(hay@, term@, i) by {}
        return false;
    }
    let last = hay.len() - term.len();
    let mut i: usize = 0;
    while i <= last
        invariant
            0 <= i <= last + 1,
            last == hay@.len() - term@.len(),
            forall|j: int| 0 <= j < i ==> !word_at(hay@, term@, j),
        decreases last + 1 - i,
    {
        let head_ok = if i == 0 {
            true
        } else {
            is_ws_exec(hay[i - 1])
        };
        let tail_ok = if i == last {
            true
        } else {
            is_ws_exec(hay[i + term.len()])
        };
        if head_ok && tail_ok && window_matches(hay, term, i) {
            assert(word_at(hay@, term@, i as int));
            return true;
        }
        assert(!word_at(hay@, term@, i as int));
        i += 1;
    }
    assert forall|j: int| !word_at(hay@, term@, j) by {
        if 0 <= j <= last {
            assert(!word_at(hay@, term@, j));
        }
    }
    false
}

} // verus!
