//! Splits raw command-line input into whitespace-separated words. No
//! quoting and no operators: the grammar is just `COMMAND value`.
use vstd::prelude::*;
use crate::text::{is_space, is_space_char, chars_of};

verus! {

#[derive(Debug, Clone, PartialEq)]
pub enum Token {
    Word(String),
}

/// The maximal runs of non-whitespace characters of `s`, in order.
pub open spec fn words(s: Seq<char>) -> Seq<Seq<char>>
    decreases s.len(),
{
    if s.len() == 0 {
        seq![]
    } else {
        let w = words(s.drop_last());
        let c = s.last();
        if is_space(c) {
            w
        } else if s.len() > 1 && !is_space(s[s.len() - 2]) {
            w.update(w.len() - 1, w.last().push(c))
        } else {
            w.push(seq![c])
        }
    }
}

pub open spec fn token_text(t: Token) -> Seq<char> {
    match t {
        Token::Word(w) => w@,
    }
}

/// The words a token list carries.
pub open spec fn token_texts(ts: Seq<Token>) -> Seq<Seq<char>> {
    ts.map_values(|t: Token| token_text(t))
}

proof fn lemma_leading_space(c: char, s: Seq<char>)
    requires
        is_space(c),
    ensures
        words(seq![c] + s) == words(s),
    decreases s.len(),
{
    let t = seq![c] + s;
    if s.len() == 0 {
        assert(t.drop_last() =~= Seq::<char>::empty());
        assert(s =~= Seq::<char>::empty());
        assert(words(t) == words(t.drop_last()));
    } else {
        lemma_leading_space(c, s.drop_last());
        assert(t.drop_last() =~= seq![c] + s.drop_last());
        assert(words(t.drop_last()) == words(s.drop_last()));
        assert(t.last() == s.last());
        if s.len() >= 2 {
            assert(t[t.len() - 2] == s[s.len() - 2]);
        } else {
            assert(t[t.len() - 2] == c);
        }
    }
}

proof fn lemma_same_suffix(p: Seq<char>, q: Seq<char>, b: Seq<char>)
    requires
        words(p) == words(q),
        p.len() > 0,
        q.len() > 0,
        is_space(p.last()),
        is_space(q.last()),
    ensures
        words(p + b) == words(q + b),
    decreases b.len(),
{
    if b.len() == 0 {
        assert(p + b =~= p);
        assert(q + b =~= q);
    } else {
        lemma_same_suffix(p, q, b.drop_last());
        assert((p + b).drop_last() =~= p + b.drop_last());
        assert((q + b).drop_last() =~= q + b.drop_last());
        assert((p + b).last() == b.last());
        assert((q + b).last() == b.last());
        let pb = p + b;
        let qb = q + b;
        if b.len() >= 2 {
            assert(pb[pb.len() - 2] == b[b.len() - 2]);
            assert(qb[qb.len() - 2] == b[b.len() - 2]);
        } else {
            assert(pb[pb.len() - 2] == p.last());
            assert(qb[qb.len() - 2] == q.last());
        }
    }
}

/// Whitespace only separates words: leading or trailing whitespace, and
/// a run of several whitespace characters in place of one, give the same
/// words.
pub proof fn law_whitespace_only_separates(a: Seq<char>, b: Seq<char>, c: char, d: char)
    requires
        is_space(c),
        is_space(d),
    ensures
        words(seq![c] + a) == words(a),
        words(a.push(c)) == words(a),
        words(a + seq![c, d] + b) == words(a + seq![c] + b),
{
    lemma_leading_space(c, a);
    assert(a.push(c).drop_last() =~= a);
    let p = a + seq![c];
    let q = a + seq![c, d];
    assert(q.drop_last() =~= p);
    assert(p.drop_last() =~= a);
    assert(p.last() == c);
    assert(q.last() == d);
    lemma_same_suffix(q, p, b);
}

/// Split `input` on Unicode whitespace into words.
pub fn tokenize(input: &str) -> (r: Vec<Token>)
    ensures
        token_texts(r@) == words(input@),
{
    let v = chars_of(input);
    let ghost s = input@;
    let n = v.len();
    let mut tokens: Vec<Token> = Vec::new();
    let mut start: usize = 0;
    let mut in_word = false;
    let mut i: usize = 0;
    while i < n
        invariant
            n == s.len(),
            s == input@,
            v@ == s,
            i <= n,
            in_word ==> start < i,
            in_word ==> !is_space(s[i - 1]),
            !in_word ==> (i == 0 || is_space(s[i - 1])),
            in_word ==> token_texts(tokens@).push(s.subrange(start as int, i as int)) == words(
                s.take(i as int),
            ),
            !in_word ==> token_texts(tokens@) == words(s.take(i as int)),
        decreases n - i,
    {
        let c = v[i];
        let ghost prefix = s.take(i as int);
        let ghost next = s.take(i + 1);
        assert(next.drop_last() =~= prefix);
        assert(next.last() == s[i as int]);
        if is_space_char(c) {
            if in_word {
                let word = String::from_str(input.substring_char(start, i));
                let ghost before = token_texts(tokens@);
                let ghost wv = word@;
                tokens.push(Token::Word(word));
                assert(token_text(tokens@.last()) == wv);
                assert(token_texts(tokens@) =~= before.push(s.subrange(start as int, i as int)));
            }
            in_word = false;
        } else {
            if in_word {
                assert(next[next.len() - 2] == s[i - 1]);
                assert(s.subrange(start as int, i + 1) =~= s.subrange(start as int, i as int).push(
                    c,
                ));
                let ghost w = token_texts(tokens@).push(s.subrange(start as int, i as int));
                assert(w.update(w.len() - 1, w.last().push(c)) =~= token_texts(tokens@).push(
                    s.subrange(start as int, i + 1),
                ));
            } else {
                if i > 0 {
                    assert(next[next.len() - 2] == s[i - 1]);
                }
                assert(s.subrange(i as int, i + 1) =~= seq![c]);
                start = i;
                in_word = true;
            }
        }
        i = i + 1;
    }
    assert(s.take(n as int) =~= s);
    if in_word {
        let word = String::from_str(input.substring_char(start, n));
        let ghost before = token_texts(tokens@);
        let ghost wv = word@;
        tokens.push(Token::Word(word));
        assert(token_text(tokens@.last()) == wv);
        assert(token_texts(tokens@) =~= before.push(s.subrange(start as int, n as int)));
    }
    tokens
}

} // verus!
