//! The laws of the store and its log, proved once and for all: last write
//! wins, replay is deterministic, and a recorded log line replays to exactly
//! the mutation it recorded.

use vstd::prelude::*;

use crate::aof::{
    del_line, lemma_split_del_line, lemma_split_set_line, parse_line, set_line,
};
use crate::dispatch::{get_value, log_line_of};
use crate::request::{RequestModel, RequestType};
use crate::recovery::replay_lines;
use crate::semantics::{
    apply_ops, apply_request, lemma_remove_keys, remove_keys, StoreModel,
};

verus! {

/// What a command sequence did, last to first, to one key.
pub enum KeyOutcome {
    /// No command in the sequence wrote or removed the key.
    Untouched,
    /// The most recent command touching the key was a `Set` of this value.
    Written(Seq<char>),
    /// The most recent command touching the key was a `Del` listing it.
    Erased,
}

/// The most recent effect a command sequence had on one key.
pub open spec fn key_outcome(ops: Seq<RequestModel>, k: Seq<char>) -> KeyOutcome
    decreases ops.len(),
{
    if ops.len() == 0 {
        KeyOutcome::Untouched
    } else {
        let last = ops.last();
        if last.request_type is SetCmd && last.arity_ok() && last.key0() == k {
            KeyOutcome::Written(last.val())
        } else if last.request_type is Del && last.key is Some && last.keys().contains(k) {
            KeyOutcome::Erased
        } else {
            key_outcome(ops.drop_last(), k)
        }
    }
}

/// Last write wins: after any sequence of commands, a key holds the value of
/// its most recent `Set` unless a later `Del` listed it; a key no command
/// touched is as it was, and a `Get` answers accordingly (the `NULL!`
/// sentinel for an absent key).
pub proof fn lemma_last_write_wins(m: StoreModel, ops: Seq<RequestModel>, k: Seq<char>)
    ensures
        match key_outcome(ops, k) {
            KeyOutcome::Written(v) => apply_ops(m, ops).contains_key(k) && apply_ops(m, ops)[k]
                == v && get_value(apply_ops(m, ops), k) == v,
            KeyOutcome::Erased => !apply_ops(m, ops).contains_key(k) && get_value(
                apply_ops(m, ops),
                k,
            ) == "NULL!"@,
            KeyOutcome::Untouched => apply_ops(m, ops).contains_key(k) == m.contains_key(k) && (
            m.contains_key(k) ==> apply_ops(m, ops)[k] == m[k]) && get_value(apply_ops(m, ops), k)
                == get_value(m, k),
        },
    decreases ops.len(),
{
    if ops.len() > 0 {
        lemma_last_write_wins(m, ops.drop_last(), k);
        let last = ops.last();
        if last.request_type is Del && last.key is Some {
            lemma_remove_keys(apply_ops(m, ops.drop_last()), last.keys(), k);
        }
    }
}

/// Replay is deterministic: two fresh stores that replay the same log lines
/// end in the same state.
pub proof fn lemma_replay_deterministic(lines: Seq<Seq<char>>, m1: StoreModel, m2: StoreModel)
    requires
        m1 == replay_lines(Map::<Seq<char>, Seq<char>>::empty(), lines),
        m2 == replay_lines(Map::<Seq<char>, Seq<char>>::empty(), lines),
    ensures
        m1 == m2,
{
}

/// Parsing the recorded line of a `Set` gives back exactly that command,
/// provided key and value hold no space (the documented limit of the
/// space-delimited format).
pub proof fn lemma_parse_set_line(k: Seq<char>, v: Seq<char>)
    requires
        !k.contains(' '),
        !v.contains(' '),
    ensures
        parse_line(set_line(k, v)) == (RequestModel {
            key: Some(seq![k]),
            value: Some(v),
            request_type: RequestType::SetCmd,
        }),
{
    lemma_split_set_line(k, v);
    let toks = seq!["SET"@, k, v];
    assert(toks[0] == "SET"@);
    assert(parse_line(set_line(k, v)).keys() =~= seq![k]);
}

/// Parsing the recorded line of a `Del` gives back exactly that command,
/// provided no key holds a space.
pub proof fn lemma_parse_del_line(keys: Seq<Seq<char>>)
    requires
        keys.len() >= 1,
        forall|i: int| 0 <= i < keys.len() ==> !(#[trigger] keys[i]).contains(' '),
    ensures
        parse_line(del_line(keys)) == (RequestModel {
            key: Some(keys),
            value: None,
            request_type: RequestType::Del,
        }),
{
    lemma_split_del_line(keys);
    let toks = seq!["DEL"@] + keys;
    assert(toks[0] == "DEL"@);
    assert(!(toks[0] == "SET"@ && toks.len() == 3)) by {
        reveal_strlit("SET");
        reveal_strlit("DEL");
        assert("SET"@[0] != "DEL"@[0]);
    }
    assert(parse_line(del_line(keys)).keys() =~= keys);
}

/// Whether every key (and, for `Set`, the value) of a mutating command is
/// free of spaces, so its log line parses back unambiguously.
pub open spec fn space_free(r: RequestModel) -> bool {
    &&& forall|i: int| 0 <= i < r.keys().len() ==> !(#[trigger] r.keys()[i]).contains(' ')
    &&& (r.request_type is SetCmd ==> !r.val().contains(' '))
}

/// The log is faithful: the line recorded for a mutating command, parsed
/// back, has on any store exactly the effect the command itself had.
pub proof fn lemma_log_entry_faithful(m: StoreModel, r: RequestModel)
    requires
        r.arity_ok(),
        r.request_type is SetCmd || r.request_type is Del,
        space_free(r),
    ensures
        log_line_of(r) is Some,
        apply_request(m, parse_line(log_line_of(r)->Some_0)) == apply_request(m, r),
{
    if r.request_type is SetCmd {
        lemma_parse_set_line(r.key0(), r.val());
        let parsed = parse_line(set_line(r.key0(), r.val()));
        assert(parsed.keys() == seq![r.key0()]);
        assert(apply_request(m, parsed) == m.insert(r.key0(), r.val()));
    } else {
        lemma_parse_del_line(r.keys());
        let parsed = parse_line(del_line(r.keys()));
        assert(apply_request(m, parsed) == remove_keys(m, r.keys()));
    }
}

/// Round trip: a fresh store recovered from the log of a single `Set` holds
/// exactly that key and value, and a `Get` of the key answers the value.
pub proof fn lemma_set_round_trip(k: Seq<char>, v: Seq<char>)
    requires
        !k.contains(' '),
        !v.contains(' '),
    ensures
        replay_lines(Map::<Seq<char>, Seq<char>>::empty(), seq![set_line(k, v)])
            == Map::<Seq<char>, Seq<char>>::empty().insert(k, v),
        get_value(
            replay_lines(Map::<Seq<char>, Seq<char>>::empty(), seq![set_line(k, v)]),
            k,
        ) == v,
{
    lemma_parse_set_line(k, v);
    let empty_m = Map::<Seq<char>, Seq<char>>::empty();
    let lines = seq![set_line(k, v)];
    assert(lines.drop_first() =~= Seq::<Seq<char>>::empty());
    let parsed = parse_line(set_line(k, v));
    assert(parsed.keys() == seq![k]);
    let m1 = apply_request(empty_m, parsed);
    assert(m1 == empty_m.insert(k, v));
    assert(lines.first() == set_line(k, v));
    assert(replay_lines(empty_m, lines) == replay_lines(m1, lines.drop_first()));
    assert(replay_lines(m1, lines.drop_first()) == m1);
    assert(m1.contains_key(k) && m1[k] == v);
}

/// A command sequence can be applied from the front as well as from the
/// back: peeling off the first command first reaches the same state.
pub proof fn lemma_apply_ops_first(m: StoreModel, ops: Seq<RequestModel>)
    requires
        ops.len() >= 1,
    ensures
        apply_ops(m, ops) == apply_ops(apply_request(m, ops.first()), ops.drop_first()),
    decreases ops.len(),
{
    if ops.len() == 1 {
        assert(ops.drop_first() =~= Seq::<RequestModel>::empty());
        assert(ops.drop_last() =~= Seq::<RequestModel>::empty());
        assert(ops.first() == ops.last());
        assert(apply_ops(m, ops) == apply_request(apply_ops(m, ops.drop_last()), ops.last()));
        assert(apply_ops(m, ops.drop_last()) == m);
        assert(apply_ops(apply_request(m, ops.first()), ops.drop_first()) == apply_request(
            m,
            ops.first(),
        ));
    } else {
        let front = ops.drop_last();
        let m1 = apply_request(m, ops.first());
        lemma_apply_ops_first(m, front);
        assert(front.first() == ops.first());
        assert(front.drop_first() =~= ops.drop_first().drop_last());
        assert(ops.drop_first().last() == ops.last());
        assert(ops.drop_first().len() >= 1);
        assert(apply_ops(m, ops) == apply_request(apply_ops(m, front), ops.last()));
        assert(apply_ops(m, front) == apply_ops(m1, front.drop_first()));
        assert(apply_ops(m1, ops.drop_first()) == apply_request(
            apply_ops(m1, ops.drop_first().drop_last()),
            ops.drop_first().last(),
        ));
        assert(apply_ops(m1, ops.drop_first().drop_last()) == apply_ops(m1, front.drop_first()));
    }
}

/// The log lines a run of mutating commands records, in the order the
/// mutations were applied.
pub open spec fn log_of_ops(ops: Seq<RequestModel>) -> Seq<Seq<char>> {
    ops.map_values(|r: RequestModel| log_line_of(r)->Some_0)
}

/// Durability: replaying the log recorded by a run of mutating commands, in
/// the order their mutations were applied, rebuilds exactly the state the
/// run reached — one line per mutation, keys and values space-free.
pub proof fn lemma_replay_rebuilds_run(m: StoreModel, ops: Seq<RequestModel>)
    requires
        forall|i: int| 0 <= i < ops.len() ==> {
            let r = #[trigger] ops[i];
            (r.request_type is SetCmd || r.request_type is Del) && r.arity_ok() && space_free(r)
        },
    ensures
        replay_lines(m, log_of_ops(ops)) == apply_ops(m, ops),
    decreases ops.len(),
{
    if ops.len() == 0 {
        assert(log_of_ops(ops) =~= Seq::<Seq<char>>::empty());
    } else {
        let lines = log_of_ops(ops);
        assert(ops[0] == ops.first());
        lemma_log_entry_faithful(m, ops.first());
        let m1 = apply_request(m, ops.first());
        assert(lines.first() == log_line_of(ops.first())->Some_0);
        assert(apply_request(m, parse_line(lines.first())) == m1);
        assert(lines.drop_first() =~= log_of_ops(ops.drop_first()));
        assert(forall|i: int| 0 <= i < ops.drop_first().len() ==> #[trigger] ops.drop_first()[i]
            == ops[i + 1]);
        lemma_replay_rebuilds_run(m1, ops.drop_first());
        lemma_apply_ops_first(m, ops);
    }
}

/// Any serialization of `Set` commands on pairwise distinct keys leaves
/// every one of them visible with its own value, and each command records
/// exactly one log line. Since each dispatch call mutates the store and
/// hands out its log line in one step, any interleaving of concurrent calls
/// is one such serialization, in the order the mutations became visible.
pub proof fn lemma_distinct_sets_all_visible(m: StoreModel, ops: Seq<RequestModel>)
    requires
        forall|i: int| 0 <= i < ops.len() ==> (#[trigger] ops[i]).request_type is SetCmd
            && ops[i].arity_ok(),
        forall|i: int, j: int| 0 <= i < j < ops.len() ==> ops[i].key0() != ops[j].key0(),
    ensures
        forall|i: int| 0 <= i < ops.len() ==> apply_ops(m, ops).contains_key(
            (#[trigger] ops[i]).key0(),
        ) && apply_ops(m, ops)[ops[i].key0()] == ops[i].val(),
        forall|i: int| 0 <= i < ops.len() ==> (#[trigger] log_line_of(ops[i])) is Some,
    decreases ops.len(),
{
    if ops.len() > 0 {
        let front = ops.drop_last();
        assert(forall|i: int| 0 <= i < front.len() ==> front[i] == ops[i]);
        lemma_distinct_sets_all_visible(m, front);
        let last = ops.last();
        assert(apply_ops(m, ops) == apply_ops(m, front).insert(last.key0(), last.val()));
        assert forall|i: int| 0 <= i < ops.len() implies apply_ops(m, ops).contains_key(
            (#[trigger] ops[i]).key0(),
        ) && apply_ops(m, ops)[ops[i].key0()] == ops[i].val() by {
            if i < ops.len() - 1 {
                assert(ops[i].key0() != last.key0());
            }
        }
    }
}

} // verus!
