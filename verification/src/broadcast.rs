//! Commands for several workers at once.
use vstd::prelude::*;

use crate::ids::WorkerId;
use crate::output::{NamespaceOutput, OutputView};
use crate::sorted_map::{increasing, Key, SortedMap};
use crate::types::{CommandView, FabricStatus, NamespaceWorkerState, WorkerCommand};

verus! {

/// The workers whose fabric is up, in name order, without the one named `except`.
pub open spec fn targets(
    workers: Seq<(WorkerId, NamespaceWorkerState)>,
    except: Option<Seq<char>>,
) -> Seq<WorkerId>
    decreases workers.len(),
{
    if workers.len() == 0 {
        seq![]
    } else {
        let rest = targets(workers.drop_last(), except);
        let last = workers.last();
        if last.1.fabric_status == FabricStatus::Active && except != Some(last.0.id()) {
            rest.push(last.0)
        } else {
            rest
        }
    }
}

/// A worker of the table whose fabric is up, and not the one named `except`.
pub open spec fn reached(
    workers: Seq<(WorkerId, NamespaceWorkerState)>,
    except: Option<Seq<char>>,
    worker_id: WorkerId,
) -> bool {
    exists|i: int|
        0 <= i < workers.len() && (#[trigger] workers[i]).0 == worker_id
            && workers[i].1.fabric_status == FabricStatus::Active && except != Some(worker_id.id())
}

/// One command for each of `to`.
pub open spec fn to_each(to: Seq<WorkerId>, command: CommandView) -> Seq<(WorkerId, CommandView)> {
    to.map_values(|w: WorkerId| (w, command))
}

/// A worker is a target exactly if its fabric is up and it is not the excluded one.
pub proof fn law_targets(
    workers: Seq<(WorkerId, NamespaceWorkerState)>,
    except: Option<Seq<char>>,
    worker_id: WorkerId,
)
    ensures
        targets(workers, except).contains(worker_id) <==> reached(workers, except, worker_id),
    decreases workers.len(),
{
    if workers.len() > 0 {
        let front = workers.drop_last();
        law_targets(front, except, worker_id);
        let rest = targets(front, except);
        let last = workers.last();
        let all = targets(workers, except);
        if rest.contains(worker_id) {
            let i = choose|i: int|
                0 <= i < front.len() && (#[trigger] front[i]).0 == worker_id
                    && front[i].1.fabric_status == FabricStatus::Active && except != Some(
                    worker_id.id(),
                );
            assert(workers[i].0 == worker_id);
            let k = rest.index_of(worker_id);
            assert(all[k] == worker_id);
        }
        if all.contains(worker_id) && !rest.contains(worker_id) {
            let k = all.index_of(worker_id);
            assert(k == rest.len());
            assert(workers[workers.len() - 1].0 == worker_id);
        }
        if reached(workers, except, worker_id) {
            let i = choose|i: int|
                0 <= i < workers.len() && (#[trigger] workers[i]).0 == worker_id
                    && workers[i].1.fabric_status == FabricStatus::Active && except != Some(
                    worker_id.id(),
                );
            if i < front.len() {
                assert(front[i].0 == worker_id);
            } else {
                assert(all[rest.len() as int] == worker_id);
            }
        }
    }
}

/// No worker is a target twice, and the targets stand in name order.
pub proof fn law_no_worker_is_a_target_twice(
    workers: Seq<(WorkerId, NamespaceWorkerState)>,
    except: Option<Seq<char>>,
)
    requires
        increasing(workers),
    ensures
        forall|i: int, j: int|
            0 <= i < j < targets(workers, except).len() ==> WorkerId::before(
                (#[trigger] targets(workers, except)[i]).id(),
                (#[trigger] targets(workers, except)[j]).id(),
            ),
        targets(workers, except).no_duplicates(),
    decreases workers.len(),
{
    let all = targets(workers, except);
    if workers.len() > 0 {
        let front = workers.drop_last();
        let rest = targets(front, except);
        let last = workers.len() - 1;
        assert(increasing(front));
        law_no_worker_is_a_target_twice(front, except);
        assert forall|i: int, j: int| 0 <= i < j < all.len() implies WorkerId::before(
            (#[trigger] all[i]).id(),
            (#[trigger] all[j]).id(),
        ) by {
            assert(all[i] == rest[i]);
            if j < rest.len() {
                assert(all[j] == rest[j]);
            } else {
                law_targets(front, except, rest[i]);
                let k = choose|k: int|
                    0 <= k < front.len() && (#[trigger] front[k]).0 == rest[i]
                        && front[k].1.fabric_status == FabricStatus::Active && except != Some(
                        rest[i].id(),
                    );
                assert(workers[k] == front[k]);
                assert(WorkerId::before(workers[k].0.id(), workers[last].0.id()));
            }
        }
    }
    assert forall|i: int, j: int| 0 <= i < all.len() && 0 <= j < all.len() && i != j implies all[i]
        != all[j] by {
        WorkerId::before_irreflexive(all[i].id());
        if i < j {
            assert(WorkerId::before(all[i].id(), all[j].id()));
        } else {
            assert(WorkerId::before(all[j].id(), all[i].id()));
        }
    }
}

/// A broadcast keeps what was there and adds exactly one command, made for it, for each worker of the
/// table whose fabric is up and that is not the excluded one.
pub proof fn law_each_target_gets_one_command<F: Fn(&WorkerId) -> WorkerCommand>(
    make_cmd: F,
    workers: Seq<(WorkerId, NamespaceWorkerState)>,
    except: Option<Seq<char>>,
    before: Seq<(WorkerId, WorkerCommand)>,
    after: Seq<(WorkerId, WorkerCommand)>,
)
    requires
        increasing(workers),
        made_for(make_cmd, targets(workers, except), before, after),
    ensures
        after.take(before.len() as int) == before,
        forall|i: int|
            before.len() <= i < after.len() ==> reached(
                workers,
                except,
                (#[trigger] after[i]).0,
            ) && call_ensures(make_cmd, (&after[i].0,), after[i].1),
        forall|worker_id: WorkerId| #[trigger]
            reached(workers, except, worker_id) ==> exists|i: int|
                before.len() <= i < after.len() && (#[trigger] after[i]).0 == worker_id,
        forall|i: int, j: int|
            before.len() <= i < j < after.len() ==> (#[trigger] after[i]).0 != (
            #[trigger] after[j]).0,
{
    let to = targets(workers, except);
    let n = before.len() as int;
    law_no_worker_is_a_target_twice(workers, except);
    assert(after.take(n) =~= before);
    assert forall|i: int| n <= i < after.len() implies reached(
        workers,
        except,
        (#[trigger] after[i]).0,
    ) && call_ensures(make_cmd, (&after[i].0,), after[i].1) by {
        assert(after[n + (i - n)].0 == to[i - n]);
        law_targets(workers, except, to[i - n]);
        assert(to.contains(to[i - n]));
    }
    assert forall|worker_id: WorkerId| #[trigger] reached(
        workers,
        except,
        worker_id,
    ) implies exists|i: int| n <= i < after.len() && (#[trigger] after[i]).0 == worker_id by {
        law_targets(workers, except, worker_id);
        let k = to.index_of(worker_id);
        assert(after[n + k].0 == worker_id);
    }
    assert forall|i: int, j: int| n <= i < j < after.len() implies (#[trigger] after[i]).0 != (
    #[trigger] after[j]).0 by {
        assert(after[n + (i - n)].0 == to[i - n]);
        assert(after[n + (j - n)].0 == to[j - n]);
    }
}

/// Where the excluded worker is no target anyway, to exclude it makes no difference.
pub proof fn law_excluding_no_target_changes_nothing(
    workers: Seq<(WorkerId, NamespaceWorkerState)>,
    exclude: Seq<char>,
)
    requires
        forall|i: int|
            0 <= i < workers.len() && (#[trigger] workers[i]).0.id() == exclude
                ==> workers[i].1.fabric_status != FabricStatus::Active,
    ensures
        targets(workers, Some(exclude)) == targets(workers, None),
    decreases workers.len(),
{
    if workers.len() > 0 {
        let front = workers.drop_last();
        assert forall|i: int| 0 <= i < front.len() && (#[trigger] front[i]).0.id()
            == exclude implies front[i].1.fabric_status != FabricStatus::Active by {
            assert(workers[i] == front[i]);
        }
        law_excluding_no_target_changes_nothing(front, exclude);
        assert(workers[workers.len() - 1] == workers.last());
    }
}

/// Where the excluded worker is no target anyway, both ways to broadcast add commands to the same
/// workers in the same order, and where the commands are determined by their workers, the same
/// commands.
pub proof fn law_broadcasts_agree<F: Fn(&WorkerId) -> WorkerCommand>(
    make_cmd: F,
    workers: Seq<(WorkerId, NamespaceWorkerState)>,
    exclude: Seq<char>,
    before: Seq<(WorkerId, WorkerCommand)>,
    to_all: Seq<(WorkerId, WorkerCommand)>,
    to_others: Seq<(WorkerId, WorkerCommand)>,
)
    requires
        forall|i: int|
            0 <= i < workers.len() && (#[trigger] workers[i]).0.id() == exclude
                ==> workers[i].1.fabric_status != FabricStatus::Active,
        made_for(make_cmd, targets(workers, None), before, to_all),
        made_for(make_cmd, targets(workers, Some(exclude)), before, to_others),
    ensures
        to_all.len() == to_others.len(),
        forall|i: int| 0 <= i < to_all.len() ==> (#[trigger] to_all[i]).0 == to_others[i].0,
        (forall|w: &WorkerId, a: WorkerCommand, b: WorkerCommand| #[trigger]
            call_ensures(make_cmd, (w,), a) && #[trigger] call_ensures(make_cmd, (w,), b) ==> a
                == b) ==> to_all == to_others,
{
    law_excluding_no_target_changes_nothing(workers, exclude);
    let to = targets(workers, None);
    assert forall|i: int| 0 <= i < to_all.len() implies (#[trigger] to_all[i]).0
        == to_others[i].0 by {
        if i < before.len() {
            assert(to_others[i] == before[i]);
        } else {
            let k = i - before.len();
            assert(to_all[before.len() + k].0 == to[k]);
            assert(to_others[before.len() + k].0 == to[k]);
        }
    }
    if forall|w: &WorkerId, a: WorkerCommand, b: WorkerCommand| #[trigger]
        call_ensures(make_cmd, (w,), a) && #[trigger] call_ensures(make_cmd, (w,), b) ==> a == b {
        assert forall|i: int| 0 <= i < to_all.len() implies to_all[i] == to_others[i] by {
            if i < before.len() {
                assert(to_all[i] == before[i] && to_others[i] == before[i]);
            } else {
                let k = i - before.len();
                assert(to_all[before.len() + k].0 == to[k]);
                assert(to_others[before.len() + k].0 == to[k]);
                assert(call_ensures(make_cmd, (&to[k],), to_all[i].1));
                assert(call_ensures(make_cmd, (&to[k],), to_others[i].1));
            }
        }
        assert(to_all =~= to_others);
    }
}

/// Sends each active worker the command that `make_cmd` makes for it.
pub fn broadcast_to_active_workers<F: Fn(&WorkerId) -> WorkerCommand>(
    workers: &SortedMap<WorkerId, NamespaceWorkerState>,
    out: &mut NamespaceOutput,
    make_cmd: F,
)
    requires
        forall|w: &WorkerId| #[trigger] call_requires(make_cmd, (w,)),
    ensures
        made_for(
            make_cmd,
            targets(workers.seq(), None),
            old(out).worker_commands@,
            final(out).worker_commands@,
        ),
        increasing(workers.seq()),
        final(out)@ == (OutputView {
            worker_commands: final(out)@.worker_commands,
            ..old(out)@
        }),
{
    broadcast_filtered(workers, None, out, make_cmd);
}

/// Sends each active worker but `exclude` the command that `make_cmd` makes for it.
pub fn broadcast_to_active_workers_except<F: Fn(&WorkerId) -> WorkerCommand>(
    workers: &SortedMap<WorkerId, NamespaceWorkerState>,
    exclude: &WorkerId,
    out: &mut NamespaceOutput,
    make_cmd: F,
)
    requires
        forall|w: &WorkerId| #[trigger] call_requires(make_cmd, (w,)),
    ensures
        made_for(
            make_cmd,
            targets(workers.seq(), Some(exclude.id())),
            old(out).worker_commands@,
            final(out).worker_commands@,
        ),
        increasing(workers.seq()),
        final(out)@ == (OutputView {
            worker_commands: final(out)@.worker_commands,
            ..old(out)@
        }),
{
    broadcast_filtered(workers, Some(exclude), out, make_cmd);
}

/// `after` is `before` and then, for each of `to`, a command that `make_cmd` made for it.
pub open spec fn made_for<F: Fn(&WorkerId) -> WorkerCommand>(
    make_cmd: F,
    to: Seq<WorkerId>,
    before: Seq<(WorkerId, WorkerCommand)>,
    after: Seq<(WorkerId, WorkerCommand)>,
) -> bool {
    &&& after.len() == before.len() + to.len()
    &&& forall|i: int| 0 <= i < before.len() ==> #[trigger] after[i] == before[i]
    &&& forall|i: int|
        0 <= i < to.len() ==> (#[trigger] after[before.len() + i]).0 == to[i] && call_ensures(
            make_cmd,
            (&to[i],),
            after[before.len() + i].1,
        )
}

/// The name of the excluded worker.
pub open spec fn excluded(except: Option<&WorkerId>) -> Option<Seq<char>> {
    match except {
        Some(w) => Some(w.id()),
        None => None,
    }
}

fn is_target(
    worker_id: &WorkerId,
    state: &NamespaceWorkerState,
    except: Option<&WorkerId>,
) -> (r: bool)
    ensures
        r == (state.fabric_status == FabricStatus::Active && excluded(except) != Some(
            worker_id.id(),
        )),
{
    if state.fabric_status == FabricStatus::Active {
        match except {
            Some(e) => !e.same(worker_id),
            None => true,
        }
    } else {
        false
    }
}

fn broadcast_filtered<F: Fn(&WorkerId) -> WorkerCommand>(
    workers: &SortedMap<WorkerId, NamespaceWorkerState>,
    except: Option<&WorkerId>,
    out: &mut NamespaceOutput,
    make_cmd: F,
)
    requires
        forall|w: &WorkerId| #[trigger] call_requires(make_cmd, (w,)),
    ensures
        made_for(
            make_cmd,
            targets(workers.seq(), excluded(except)),
            old(out).worker_commands@,
            final(out).worker_commands@,
        ),
        increasing(workers.seq()),
        final(out)@ == (OutputView {
            worker_commands: final(out)@.worker_commands,
            ..old(out)@
        }),
{
    let n: usize = workers.len();
    let mut i: usize = 0;
    let ghost s = workers.seq();
    let ghost ex = excluded(except);
    let ghost before = out.worker_commands@;
    proof {
        assert(s.take(0) =~= Seq::<(WorkerId, NamespaceWorkerState)>::empty());
    }
    while i < n
        invariant
            n == s.len(),
            s == workers.seq(),
            increasing(s),
            i <= n,
            ex == excluded(except),
            before == old(out).worker_commands@,
            forall|w: &WorkerId| #[trigger] call_requires(make_cmd, (w,)),
            made_for(make_cmd, targets(s.take(i as int), ex), before, out.worker_commands@),
            out@ == (OutputView { worker_commands: out@.worker_commands, ..old(out)@ }),
        decreases n - i,
    {
        let worker_id: &WorkerId = workers.key_at(i);
        let state: &NamespaceWorkerState = workers.value_at(i);
        proof {
            assert(s.take(i + 1).drop_last() =~= s.take(i as int));
            assert(s.take(i + 1).last() == s[i as int]);
        }
        if is_target(worker_id, state, except) {
            let command: WorkerCommand = make_cmd(worker_id);
            out.worker_commands.push((worker_id.clone(), command));
            proof {
                assert(out@ =~= (OutputView { worker_commands: out@.worker_commands, ..old(out)@ }));
            }
        }
        i = i + 1;
    }
    proof {
        assert(s.take(n as int) =~= s);
    }
}

/// Sends one command to each active worker but `except`.
pub fn send_to_active_workers(
    workers: &SortedMap<WorkerId, NamespaceWorkerState>,
    except: Option<&WorkerId>,
    command: &WorkerCommand,
    out: &mut NamespaceOutput,
)
    ensures
        final(out)@ == old(out)@.with_commands(
            to_each(targets(workers.seq(), excluded(except)), command@),
        ),
        increasing(workers.seq()),
{
    let n: usize = workers.len();
    let mut i: usize = 0;
    let ghost s = workers.seq();
    let ghost ex = excluded(except);
    proof {
        assert(s.take(0) =~= Seq::<(WorkerId, NamespaceWorkerState)>::empty());
        assert(out@ =~= old(out)@.with_commands(to_each(targets(s.take(0), ex), command@)));
    }
    while i < n
        invariant
            n == s.len(),
            s == workers.seq(),
            increasing(s),
            i <= n,
            ex == excluded(except),
            out@ == old(out)@.with_commands(to_each(targets(s.take(i as int), ex), command@)),
        decreases n - i,
    {
        let worker_id: &WorkerId = workers.key_at(i);
        let state: &NamespaceWorkerState = workers.value_at(i);
        proof {
            assert(s.take(i + 1).drop_last() =~= s.take(i as int));
            assert(s.take(i + 1).last() == s[i as int]);
        }
        if is_target(worker_id, state, except) {
            out.command(worker_id.clone(), command.clone());
        }
        proof {
            assert(out@ =~= old(out)@.with_commands(
                to_each(targets(s.take(i + 1), ex), command@),
            ));
        }
        i = i + 1;
    }
    proof {
        assert(s.take(n as int) =~= s);
    }
}

/// Sends one command to one worker.
pub fn send_to_worker(worker_id: &WorkerId, out: &mut NamespaceOutput, cmd: WorkerCommand)
    ensures
        final(out)@ == old(out)@.with_command(*worker_id, cmd@),
{
    out.command(worker_id.clone(), cmd);
}

} // verus!
