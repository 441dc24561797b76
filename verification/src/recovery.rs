//! Recovery: replaying the durability log into a store at startup. The
//! caller reads the log file line by line (a missing file yields no lines)
//! and hands the lines over; each line is parsed back into a command and its
//! effect applied directly to the store, bypassing the dispatcher and the
//! log, so nothing is appended twice. A line that fails to parse is skipped,
//! not fatal.

use vstd::prelude::*;

use crate::aof::{operation, parse_line};
use crate::request::RequestType;
use crate::semantics::{apply_request, StoreModel};
use crate::store::S;

verus! {

/// The state a store reaches after replaying the lines in order, starting
/// from the given state: each line is parsed and its effect applied;
/// unrecognized lines have no effect.
pub open spec fn replay_lines(m: StoreModel, lines: Seq<Seq<char>>) -> StoreModel
    decreases lines.len(),
{
    if lines.len() == 0 {
        m
    } else {
        replay_lines(apply_request(m, parse_line(lines.first())), lines.drop_first())
    }
}

/// Replays the log lines into the store, in file order.
pub fn rebuild_data_from_aof(s: &mut S, lines: &Vec<String>)
    ensures
        final(s)@ == replay_lines(old(s)@, lines.deep_view()),
        final(s).aof_file == old(s).aof_file,
{
    let ghost lv = lines.deep_view();
    let ghost orig = old(s)@;
    let mut i: usize = 0;
    proof {
        assert(lv.skip(0) =~= lv);
    }
    while i < lines.len()
        invariant
            i <= lines.len(),
            lv == lines.deep_view(),
            lv.len() == lines.len(),
            replay_lines(orig, lv) == replay_lines(s@, lv.skip(i as int)),
            s.aof_file == old(s).aof_file,
        decreases lines.len() - i,
    {
        let ghost rest = lv.skip(i as int);
        proof {
            assert(lv[i as int] == lines@[i as int]@);
            assert(rest.first() == lv[i as int]);
            assert(rest.drop_first() =~= lv.skip(i as int + 1));
        }
        let req = operation(&lines[i]);
        let ghost rm = req@;
        let rt = req.request_type;
        match rt {
            RequestType::SetCmd => {
                if let (Some(ks), Some(v)) = (req.key, req.value) {
                    if ks.len() == 1 {
                        let k = ks[0].clone();
                        proof {
                            assert(rm.keys() == ks.deep_view());
                            assert(rm.key0() == ks@[0]@);
                            assert(rm.val() == v@);
                        }
                        s.set(k, v);
                    } else {
                        proof {
                            assert(false);
                        }
                    }
                } else {
                    proof {
                        assert(false);
                    }
                }
            },
            RequestType::Del => {
                if let Some(ks) = req.key {
                    proof {
                        assert(rm.keys() == ks.deep_view());
                    }
                    let _ = s.delete(&ks);
                } else {
                    proof {
                        assert(false);
                    }
                }
            },
            _ => {},
        }
        i = i + 1;
    }
    proof {
        assert(lv.skip(lines.len() as int) =~= Seq::<Seq<char>>::empty());
    }
}

} // verus!
