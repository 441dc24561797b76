//! The append-only log's line format: `SET <key> <value>` and
//! `DEL <key1> <key2> ...`, one mutating operation per line. This module
//! serializes a request into its line and parses a line back; the round-trip
//! proofs show the two agree whenever keys and values are free of spaces
//! (a documented limit of the space-delimited format).

use vstd::prelude::*;

use crate::request::{Request, RequestModel, RequestType};
use crate::strutil::{
    lemma_split_sp_append, lemma_split_sp_len, lemma_split_sp_single, lemma_split_sp_space,
    split_sp, split_spaces,
};

verus! {

/// The log line recording one `Set`.
pub open spec fn set_line(k: Seq<char>, v: Seq<char>) -> Seq<char> {
    "SET "@ + k + " "@ + v
}

/// The text following the `DEL` keyword: one space before each key.
pub open spec fn del_tail(keys: Seq<Seq<char>>) -> Seq<char>
    decreases keys.len(),
{
    if keys.len() == 0 {
        Seq::<char>::empty()
    } else {
        del_tail(keys.drop_last()) + seq![' '] + keys.last()
    }
}

/// The log line recording one `Del`.
pub open spec fn del_line(keys: Seq<Seq<char>>) -> Seq<char> {
    "DEL"@ + del_tail(keys)
}

/// What `redis_operation` produces: the log line of a mutating request whose
/// fields are present, and the empty string for everything else.
pub open spec fn operation_line(r: RequestModel) -> Seq<char> {
    match r.request_type {
        RequestType::SetCmd => if r.arity_ok() {
            set_line(r.key0(), r.val())
        } else {
            Seq::<char>::empty()
        },
        RequestType::Del => if r.key is Some && r.keys().len() >= 1 {
            del_line(r.keys())
        } else {
            Seq::<char>::empty()
        },
        _ => Seq::<char>::empty(),
    }
}

/// What a log line parses back into: a `SET` line with exactly three tokens
/// becomes a `Set`, a line starting with `DEL` becomes a `Del` of the
/// remaining tokens, and anything else is `Illegal` (skipped during replay).
pub open spec fn parse_line(s: Seq<char>) -> RequestModel {
    let toks = split_sp(s);
    if toks[0] == "SET"@ && toks.len() == 3 {
        RequestModel {
            key: Some(seq![toks[1]]),
            value: Some(toks[2]),
            request_type: RequestType::SetCmd,
        }
    } else if toks[0] == "DEL"@ {
        RequestModel {
            key: Some(toks.subrange(1, toks.len() as int)),
            value: None,
            request_type: RequestType::Del,
        }
    } else {
        RequestModel { key: None, value: None, request_type: RequestType::Illegal }
    }
}

/// Serializes a mutating request into its log line; non-mutating or
/// incomplete requests yield the empty string, which is never appended.
pub fn redis_operation(req: &Request) -> (r: String)
    ensures
        r@ == operation_line(req@),
{
    match req.request_type {
        RequestType::SetCmd => {
            if let (Some(ks), Some(v)) = (&req.key, &req.value) {
                if ks.len() == 1 {
                    let mut s = String::new();
                    s.append("SET ");
                    s.append(ks[0].as_str());
                    s.append(" ");
                    s.append(v.as_str());
                    proof {
                        assert(req@.keys()[0] == ks@[0]@);
                        assert(s@ =~= set_line(req@.key0(), req@.val()));
                    }
                    return s;
                }
            }
            String::new()
        },
        RequestType::Del => {
            if let Some(ks) = &req.key {
                if ks.len() >= 1 {
                    let mut s = String::new();
                    s.append("DEL");
                    let mut i: usize = 0;
                    proof {
                        assert(ks.deep_view().take(0) =~= Seq::<Seq<char>>::empty());
                        assert(s@ =~= "DEL"@ + del_tail(ks.deep_view().take(0)));
                    }
                    while i < ks.len()
                        invariant
                            i <= ks.len(),
                            ks.deep_view().len() == ks.len(),
                            s@ == "DEL"@ + del_tail(ks.deep_view().take(i as int)),
                        decreases ks.len() - i,
                    {
                        let ghost kv = ks.deep_view();
                        s.append(" ");
                        s.append(ks[i].as_str());
                        proof {
                            reveal_strlit(" ");
                            assert(kv.take(i as int + 1).drop_last() =~= kv.take(i as int));
                            assert(kv.take(i as int + 1).last() == kv[i as int]);
                            assert(kv[i as int] == ks@[i as int]@);
                            assert(s@ =~= "DEL"@ + del_tail(kv.take(i as int + 1)));
                        }
                        i = i + 1;
                    }
                    proof {
                        assert(ks.deep_view().take(ks.len() as int) =~= ks.deep_view());
                    }
                    return s;
                }
            }
            String::new()
        },
        _ => String::new(),
    }
}

/// Parses one log line back into a request; lines with an unrecognized
/// keyword come back as `Illegal` and are skipped by recovery.
pub fn operation(operation_str: &String) -> (req: Request)
    ensures
        req@ == parse_line(operation_str@),
{
    let toks = split_spaces(operation_str);
    proof {
        lemma_split_sp_len(operation_str@);
        assert(toks.deep_view()[0] == toks@[0]@);
    }
    let set_kw = String::from_str("SET");
    let del_kw = String::from_str("DEL");
    if toks.len() == 3 && toks[0] == set_kw {
        let r = Request {
            key: Some(vec![toks[1].clone()]),
            value: Some(toks[2].clone()),
            request_type: RequestType::SetCmd,
        };
        proof {
            assert(toks.deep_view()[1] == toks@[1]@);
            assert(toks.deep_view()[2] == toks@[2]@);
            assert(r@.keys() =~= seq![split_sp(operation_str@)[1]]);
        }
        r
    } else if toks[0] == del_kw {
        let mut ks: Vec<String> = Vec::new();
        let mut i: usize = 1;
        proof {
            assert(ks.deep_view() =~= toks.deep_view().subrange(1, 1));
        }
        while i < toks.len()
            invariant
                1 <= i <= toks.len(),
                toks.deep_view().len() == toks.len(),
                ks.deep_view() == toks.deep_view().subrange(1, i as int),
            decreases toks.len() - i,
        {
            let ghost pre = ks.deep_view();
            ks.push(toks[i].clone());
            proof {
                assert(toks.deep_view()[i as int] == toks@[i as int]@);
                assert(ks.deep_view() =~= pre.push(toks.deep_view()[i as int]));
                assert(ks.deep_view() =~= toks.deep_view().subrange(1, i as int + 1));
            }
            i = i + 1;
        }
        let r = Request { key: Some(ks), value: None, request_type: RequestType::Del };
        proof {
            let tdv = toks.deep_view();
            assert(r@.keys() =~= tdv.subrange(1, tdv.len() as int));
        }
        r
    } else {
        Request { key: None, value: None, request_type: RequestType::Illegal }
    }
}

/// Splitting the line of a `Set` recovers the keyword, the key and the value,
/// provided neither holds a space.
pub proof fn lemma_split_set_line(k: Seq<char>, v: Seq<char>)
    requires
        !k.contains(' '),
        !v.contains(' '),
    ensures
        split_sp(set_line(k, v)) == seq!["SET"@, k, v],
{
    reveal_strlit("SET ");
    reveal_strlit("SET");
    reveal_strlit(" ");
    assert(!"SET"@.contains(' ')) by {
        if "SET"@.contains(' ') {
            let i = choose|i: int| 0 <= i < "SET"@.len() && "SET"@[i] == ' ';
        }
    }
    lemma_split_sp_single("SET"@);
    lemma_split_sp_space("SET"@);
    assert("SET"@ + seq![' '] =~= "SET "@);
    assert(split_sp("SET "@) == seq!["SET"@, Seq::<char>::empty()]);
    lemma_split_sp_append("SET "@, k);
    assert(split_sp("SET "@ + k) =~= seq!["SET"@, k]) by {
        assert(Seq::<char>::empty() + k =~= k);
    }
    lemma_split_sp_space("SET "@ + k);
    assert(("SET "@ + k) + seq![' '] =~= "SET "@ + k + " "@);
    assert(split_sp("SET "@ + k + " "@) == seq!["SET"@, k, Seq::<char>::empty()]);
    lemma_split_sp_append("SET "@ + k + " "@, v);
    assert(split_sp(set_line(k, v)) =~= seq!["SET"@, k, v]) by {
        assert(set_line(k, v) =~= ("SET "@ + k + " "@) + v);
        assert(Seq::<char>::empty() + v =~= v);
    }
}

/// Splitting the line of a `Del` recovers the keyword and the keys, provided
/// no key holds a space.
pub proof fn lemma_split_del_line(keys: Seq<Seq<char>>)
    requires
        keys.len() >= 1,
        forall|i: int| 0 <= i < keys.len() ==> !(#[trigger] keys[i]).contains(' '),
    ensures
        split_sp(del_line(keys)) == seq!["DEL"@] + keys,
    decreases keys.len(),
{
    reveal_strlit("DEL");
    assert(!"DEL"@.contains(' ')) by {
        if "DEL"@.contains(' ') {
            let i = choose|i: int| 0 <= i < "DEL"@.len() && "DEL"@[i] == ' ';
        }
    }
    if keys.len() == 1 {
        lemma_split_sp_single("DEL"@);
        lemma_split_sp_space("DEL"@);
        lemma_split_sp_append("DEL"@ + seq![' '], keys[0]);
        assert(del_tail(keys.drop_last()) =~= Seq::<char>::empty());
        assert(del_line(keys) =~= ("DEL"@ + seq![' ']) + keys[0]);
        assert(split_sp("DEL"@ + seq![' ']) == seq!["DEL"@, Seq::<char>::empty()]);
        assert(split_sp(del_line(keys)) =~= seq!["DEL"@] + keys) by {
            assert(Seq::<char>::empty() + keys[0] =~= keys[0]);
            assert(keys =~= seq![keys[0]]);
        }
    } else {
        let front = keys.drop_last();
        assert(forall|i: int| 0 <= i < front.len() ==> !(#[trigger] front[i]).contains(' '));
        lemma_split_del_line(front);
        lemma_split_sp_space(del_line(front));
        lemma_split_sp_append(del_line(front) + seq![' '], keys.last());
        assert(del_line(keys) =~= (del_line(front) + seq![' ']) + keys.last());
        assert(split_sp(del_line(front) + seq![' ']) == (seq!["DEL"@] + front).push(
            Seq::<char>::empty(),
        ));
        assert(split_sp(del_line(keys)) =~= seq!["DEL"@] + keys) by {
            let x = split_sp(del_line(front) + seq![' ']);
            assert(x.last() == Seq::<char>::empty());
            assert(Seq::<char>::empty() + keys.last() =~= keys.last());
            assert(x.update(x.len() - 1, keys.last()) =~= seq!["DEL"@] + keys);
        }
    }
}

} // verus!
