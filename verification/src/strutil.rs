//! Splitting a log line into space-delimited tokens, and the facts about
//! splitting that the round-trip proofs rest on.

use vstd::prelude::*;

verus! {

/// Relies on str::chars: yields exactly the characters of the string, in order.
#[verifier::external_body]
fn to_chars(s: &str) -> (v: Vec<char>)
    ensures
        v@ == s@,
{
    s.chars().collect()
}

/// Relies on String::push: appends exactly the given character.
#[verifier::external_body]
fn push_char(s: &mut String, c: char)
    ensures
        final(s)@ == old(s)@.push(c),
{
    s.push(c);
}

/// Splitting on the space character. The empty string splits into one empty
/// token; every space ends the current token and starts a new one, so k
/// spaces always yield k + 1 tokens.
pub open spec fn split_sp(s: Seq<char>) -> Seq<Seq<char>>
    decreases s.len(),
{
    if s.len() == 0 {
        seq![Seq::<char>::empty()]
    } else {
        let rest = split_sp(s.drop_last());
        if s.last() == ' ' {
            rest.push(Seq::<char>::empty())
        } else {
            rest.update(rest.len() - 1, rest.last().push(s.last()))
        }
    }
}

/// A split always yields at least one token.
pub proof fn lemma_split_sp_len(s: Seq<char>)
    ensures
        split_sp(s).len() >= 1,
    decreases s.len(),
{
    if s.len() > 0 {
        lemma_split_sp_len(s.drop_last());
    }
}

/// Appending a space-free tail extends the last token and nothing else.
pub proof fn lemma_split_sp_append(s: Seq<char>, t: Seq<char>)
    requires
        !t.contains(' '),
    ensures
        split_sp(s + t) == split_sp(s).update(
            split_sp(s).len() - 1,
            split_sp(s).last() + t,
        ),
    decreases t.len(),
{
    lemma_split_sp_len(s);
    if t.len() == 0 {
        assert(s + t =~= s);
        assert(split_sp(s).last() + t =~= split_sp(s).last());
        assert(split_sp(s).update(split_sp(s).len() - 1, split_sp(s).last() + t) =~= split_sp(s));
    } else {
        let t0 = t.drop_last();
        assert(!t0.contains(' ')) by {
            if t0.contains(' ') {
                let i = choose|i: int| 0 <= i < t0.len() && t0[i] == ' ';
                assert(t[i] == ' ');
            }
        }
        lemma_split_sp_append(s, t0);
        assert(t.last() != ' ') by {
            if t.last() == ' ' {
                assert(t.contains(' ')) by {
                    assert(t[t.len() - 1] == ' ');
                }
            }
        }
        assert((s + t).drop_last() =~= s + t0);
        assert((s + t).last() == t.last());
        let x = split_sp(s + t0);
        assert(split_sp(s + t) == x.update(x.len() - 1, x.last().push(t.last())));
        assert(x.last() == split_sp(s).last() + t0);
        assert((split_sp(s).last() + t0).push(t.last()) =~= split_sp(s).last() + t);
        assert(split_sp(s + t) =~= split_sp(s).update(
            split_sp(s).len() - 1,
            split_sp(s).last() + t,
        ));
    }
}

/// Appending one space closes the current token and opens an empty one.
pub proof fn lemma_split_sp_space(s: Seq<char>)
    ensures
        split_sp(s + seq![' ']) == split_sp(s).push(Seq::<char>::empty()),
{
    assert((s + seq![' ']).drop_last() =~= s);
    assert((s + seq![' ']).last() == ' ');
}

/// A space-free string splits into itself as the only token.
pub proof fn lemma_split_sp_single(t: Seq<char>)
    requires
        !t.contains(' '),
    ensures
        split_sp(t) == seq![t],
{
    assert(Seq::<char>::empty() + t =~= t);
    lemma_split_sp_append(Seq::<char>::empty(), t);
    assert(split_sp(Seq::<char>::empty()) == seq![Seq::<char>::empty()]);
    assert(split_sp(t) =~= seq![Seq::<char>::empty() + t]);
    assert(Seq::<char>::empty() + t =~= t);
    assert(split_sp(t) =~= seq![t]);
}

/// Splits a line into its space-delimited tokens.
pub fn split_spaces(s: &String) -> (toks: Vec<String>)
    ensures
        toks.deep_view() == split_sp(s@),
        toks.len() >= 1,
{
    let chars = to_chars(s.as_str());
    let mut toks: Vec<String> = Vec::new();
    let mut cur = String::new();
    let mut i: usize = 0;
    proof {
        assert(s@.take(0) =~= Seq::<char>::empty());
        assert(toks.deep_view().push(cur@) =~= split_sp(s@.take(0)));
    }
    while i < chars.len()
        invariant
            chars@ == s@,
            i <= chars.len(),
            toks.deep_view().push(cur@) == split_sp(s@.take(i as int)),
        decreases chars.len() - i,
    {
        let ghost pre_toks = toks.deep_view();
        let ghost pre_cur = cur@;
        let c = chars[i];
        proof {
            assert(s@.take(i as int + 1).drop_last() =~= s@.take(i as int));
            assert(s@.take(i as int + 1).last() == c);
            lemma_split_sp_len(s@.take(i as int));
        }
        if c == ' ' {
            toks.push(cur);
            cur = String::new();
            proof {
                assert(toks.deep_view() =~= pre_toks.push(pre_cur));
                assert(toks.deep_view().push(cur@) =~= split_sp(s@.take(i as int + 1)));
            }
        } else {
            push_char(&mut cur, c);
            proof {
                let prev = split_sp(s@.take(i as int));
                assert(prev == pre_toks.push(pre_cur));
                assert(prev.last() == pre_cur);
                assert(prev.len() - 1 == pre_toks.len());
                assert(split_sp(s@.take(i as int + 1)) == prev.update(
                    prev.len() - 1,
                    prev.last().push(c),
                ));
                assert(toks.deep_view().push(cur@) =~= prev.update(
                    prev.len() - 1,
                    prev.last().push(c),
                ));
            }
        }
        i = i + 1;
    }
    proof {
        assert(s@.take(chars.len() as int) =~= s@);
    }
    let ghost pre_toks = toks.deep_view();
    let ghost pre_cur = cur@;
    toks.push(cur);
    proof {
        assert(toks.deep_view() =~= pre_toks.push(pre_cur));
    }
    toks
}

} // verus!
