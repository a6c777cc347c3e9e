//! What holds of whole runs of pin operations.
use vstd::prelude::*;
use crate::gpio::{
    PinModel, PinError, enforcing_model, monitor_model, write_step, read_step, constructor_text,
};

verus! {

/// One operation on a pin: writing a level, or reading one.
pub enum PinOp {
    Write(bool),
    Read,
}

/// The state after one operation.
pub open spec fn op_step(m: PinModel, op: PinOp) -> PinModel {
    match op {
        PinOp::Write(v) => write_step(m, v).0,
        PinOp::Read => read_step(m).0,
    }
}

/// The state after the operations `ops`, in order.
pub open spec fn apply_ops(m: PinModel, ops: Seq<PinOp>) -> PinModel
    decreases ops.len(),
{
    if ops.len() == 0 {
        m
    } else {
        op_step(apply_ops(m, ops.drop_last()), ops.last())
    }
}

/// The state after writing the levels `vs` in order, and the outcome of each write.
pub open spec fn apply_writes(m: PinModel, vs: Seq<bool>) -> (PinModel, Seq<Result<(), PinError>>)
    decreases vs.len(),
{
    if vs.len() == 0 {
        (m, Seq::empty())
    } else {
        let (m1, rs) = apply_writes(m, vs.drop_last());
        let (m2, r) = write_step(m1, vs.last());
        (m2, rs.push(r))
    }
}

proof fn lemma_matching_prefix(label: Seq<char>, s: Seq<bool>, k: int)
    requires
        0 <= k <= s.len(),
    ensures
        apply_writes(enforcing_model(label, s), s.take(k)).0
            == (PinModel { cursor: k as nat, ..enforcing_model(label, s) }),
        apply_writes(enforcing_model(label, s), s.take(k)).1
            =~= Seq::new(k as nat, |i: int| Ok::<(), PinError>(())),
    decreases k,
{
    if k > 0 {
        assert(s.take(k).drop_last() =~= s.take(k - 1));
        lemma_matching_prefix(label, s, k - 1);
    } else {
        assert(s.take(k) =~= Seq::<bool>::empty());
    }
}

/// An enforcing pin that is written exactly the levels of its script, in order,
/// accepts every write and ends with the whole script consumed.
pub proof fn lemma_matching_writes_succeed(label: Seq<char>, s: Seq<bool>)
    ensures
        apply_writes(enforcing_model(label, s), s).0.cursor == s.len(),
        apply_writes(enforcing_model(label, s), s).0.data == s,
        apply_writes(enforcing_model(label, s), s).1.len() == s.len(),
        forall|i: int|
            0 <= i < s.len() ==> #[trigger] apply_writes(enforcing_model(label, s), s).1[i]
                == Ok::<(), PinError>(()),
{
    lemma_matching_prefix(label, s, s.len() as int);
    assert(s.take(s.len() as int) =~= s);
}

/// On an enforcing pin with script values left, writing the level that the
/// script does not expect next is reported as a mismatch at that position
/// (counted from 1), and consumes the value.
pub proof fn lemma_wrong_level_is_mismatch(m: PinModel, v: bool)
    requires
        m.enforce,
        !m.exhausted(),
        v != m.data[m.cursor as int],
    ensures
        write_step(m, v).1 == Err::<(), PinError>(
            PinError::Mismatch { expected: m.data[m.cursor as int], index: (m.cursor + 1) as usize },
        ),
        write_step(m, v).0.cursor == m.cursor + 1,
{
}

proof fn lemma_ops_consume_one_each(label: Seq<char>, s: Seq<bool>, ops: Seq<PinOp>)
    ensures
        apply_ops(enforcing_model(label, s), ops).cursor == ops.len(),
        apply_ops(enforcing_model(label, s), ops).data == s,
        apply_ops(enforcing_model(label, s), ops).enforce,
    decreases ops.len(),
{
    if ops.len() > 0 {
        lemma_ops_consume_one_each(label, s, ops.drop_last());
    }
}

/// After as many operations (reads and writes in any order) as its script has
/// values, an enforcing pin is used up: one more write is refused as exhausted
/// at operation number `length + 1`, and one more read returns the last value
/// read. Either only advances the cursor.
pub proof fn lemma_operation_past_script(label: Seq<char>, s: Seq<bool>, ops: Seq<PinOp>, v: bool)
    requires
        ops.len() == s.len(),
    ensures
        apply_ops(enforcing_model(label, s), ops).cursor == s.len(),
        write_step(apply_ops(enforcing_model(label, s), ops), v) == (
            PinModel { cursor: s.len() + 1, ..apply_ops(enforcing_model(label, s), ops) },
            Err::<(), PinError>(PinError::Exhausted { consumed: s.len() as usize }),
        ),
        read_step(apply_ops(enforcing_model(label, s), ops)) == (
            PinModel { cursor: s.len() + 1, ..apply_ops(enforcing_model(label, s), ops) },
            apply_ops(enforcing_model(label, s), ops).last,
        ),
{
    lemma_ops_consume_one_each(label, s, ops);
}

/// A monitor pin records the levels written to it in order, accepts every
/// write, and renders a constructor call whose script is exactly those levels.
pub proof fn lemma_monitor_records_writes(label: Seq<char>, vs: Seq<bool>)
    ensures
        apply_writes(monitor_model(label), vs).0.data == vs,
        apply_writes(monitor_model(label), vs).0.label == label,
        !apply_writes(monitor_model(label), vs).0.enforce,
        forall|i: int|
            0 <= i < vs.len() ==> #[trigger] apply_writes(monitor_model(label), vs).1[i]
                == Ok::<(), PinError>(()),
        apply_writes(monitor_model(label), vs).1.len() == vs.len(),
        constructor_text(
            apply_writes(monitor_model(label), vs).0.label,
            apply_writes(monitor_model(label), vs).0.data,
        ) == constructor_text(label, vs),
    decreases vs.len(),
{
    if vs.len() > 0 {
        lemma_monitor_records_writes(label, vs.drop_last());
        let rs = apply_writes(monitor_model(label), vs).1;
        assert forall|i: int| 0 <= i < vs.len() implies #[trigger] rs[i] == Ok::<(), PinError>(()) by {
            if i < vs.len() - 1 {
                assert(rs[i] == apply_writes(monitor_model(label), vs.drop_last()).1[i]);
            }
        }
        assert(apply_writes(monitor_model(label), vs.drop_last()).0.data.push(vs.last()) =~= vs);
    } else {
        assert(Seq::<bool>::empty() =~= vs);
    }
}

} // verus!
