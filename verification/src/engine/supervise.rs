//! Keeping one live task for each symbol that is traded.

use crate::engine::state::GridEngine;
use crate::names::{contains, distinct, lemma_named_push, named};
use crate::text::same_text;
use vstd::prelude::*;

verus! {

/// A task that polls a symbol.
#[derive(Debug)]
pub struct Task {
    pub symbol: String,
    /// Whether it has ended.
    pub finished: bool,
}

/// What is to be done about the tasks.
#[derive(Debug)]
pub struct Plan {
    /// The symbols whose tasks are to be stopped.
    pub stop: Vec<String>,
    /// The symbols that are to get a task.
    pub spawn: Vec<String>,
}

/// Whether a symbol has a task.
pub open spec fn has_task(tasks: Seq<Task>, symbol: Seq<char>) -> bool {
    exists|i: int| 0 <= i < tasks.len() && (#[trigger] tasks[i]).symbol@ == symbol
}

/// Whether a symbol has a task that has not ended.
pub open spec fn has_live_task(tasks: Seq<Task>, symbol: Seq<char>) -> bool {
    exists|i: int|
        0 <= i < tasks.len() && (#[trigger] tasks[i]).symbol@ == symbol && !tasks[i].finished
}

/// Whether a plan stops the tasks of exactly the symbols that are no longer traded, and
/// starts one, once, for exactly the symbols that are traded and have no live task.
pub open spec fn plans(active: Seq<String>, tasks: Seq<Task>, plan: Plan) -> bool {
    &&& distinct(plan.spawn@)
    &&& forall|symbol: Seq<char>| #[trigger]
        named(plan.stop@, symbol) <==> has_task(tasks, symbol) && !named(active, symbol)
    &&& forall|symbol: Seq<char>| #[trigger]
        named(plan.spawn@, symbol) <==> named(active, symbol) && !has_live_task(tasks, symbol)
}

fn is_live(tasks: &Vec<Task>, symbol: &str) -> (r: bool)
    ensures
        r == has_live_task(tasks@, symbol@),
{
    let mut i: usize = 0;
    while i < tasks.len()
        invariant
            i <= tasks.len(),
            forall|j: int|
                0 <= j < i ==> !((#[trigger] tasks@[j]).symbol@ == symbol@ && !tasks@[j].finished),
        decreases tasks.len() - i,
    {
        if same_text(tasks[i].symbol.as_str(), symbol) && !tasks[i].finished {
            assert(tasks@[i as int].symbol@ == symbol@);
            return true;
        }
        i = i + 1;
    }
    false
}

/// What is to be done: the tasks of symbols that are no longer traded are stopped, and
/// symbols that are traded and have no live task get one, once.
fn plan(active: &Vec<String>, tasks: &Vec<Task>) -> (r: Plan)
    ensures
        plans(active@, tasks@, r),
{
    let mut stop: Vec<String> = Vec::new();
    let mut i: usize = 0;
    while i < tasks.len()
        invariant
            i <= tasks.len(),
            forall|symbol: Seq<char>| #[trigger]
                named(stop@, symbol) <==> has_task(tasks@.take(i as int), symbol) && !named(
                    active@,
                    symbol,
                ),
        decreases tasks.len() - i,
    {
        let symbol = &tasks[i].symbol;
        proof {
            lemma_has_task_step(tasks@, i as int);
        }
        if !contains(active, symbol.as_str()) {
            let name = symbol.clone();
            proof {
                lemma_named_push(stop@, name);
            }
            stop.push(name);
        }
        i = i + 1;
    }
    assert(tasks@.take(i as int) =~= tasks@);
    let mut spawn: Vec<String> = Vec::new();
    let mut i: usize = 0;
    while i < active.len()
        invariant
            i <= active.len(),
            distinct(spawn@),
            forall|symbol: Seq<char>| #[trigger]
                named(spawn@, symbol) <==> named(active@.take(i as int), symbol)
                    && !has_live_task(tasks@, symbol),
        decreases active.len() - i,
    {
        let symbol = &active[i];
        proof {
            assert(active@.take(i + 1) =~= active@.take(i as int).push(active@[i as int]));
            lemma_named_push(active@.take(i as int), active@[i as int]);
        }
        if !is_live(tasks, symbol.as_str()) && !contains(&spawn, symbol.as_str()) {
            let name = symbol.clone();
            proof {
                lemma_named_push(spawn@, name);
            }
            spawn.push(name);
        }
        i = i + 1;
    }
    assert(active@.take(i as int) =~= active@);
    Plan { stop, spawn }
}

impl GridEngine {
    /// What the supervisor does after a look at the table: where it could not be read, the
    /// tasks stay as they are.
    pub fn run(active: Result<Vec<String>, String>, tasks: &Vec<Task>) -> (r: Plan)
        ensures
            match active {
                Ok(active) => plans(active@, tasks@, r),
                Err(_) => r.stop.len() == 0 && r.spawn.len() == 0,
            },
    {
        match active {
            Ok(active) => plan(&active, tasks),
            Err(_) => Plan { stop: Vec::new(), spawn: Vec::new() },
        }
    }
}

/// One task more.
proof fn lemma_has_task_step(tasks: Seq<Task>, i: int)
    requires
        0 <= i < tasks.len(),
    ensures
        forall|symbol: Seq<char>| #[trigger]
            has_task(tasks.take(i + 1), symbol) <==> has_task(tasks.take(i), symbol)
                || tasks[i].symbol@ == symbol,
{
    assert forall|symbol: Seq<char>| #[trigger]
        has_task(tasks.take(i + 1), symbol) <==> has_task(tasks.take(i), symbol)
            || tasks[i].symbol@ == symbol by {
        if has_task(tasks.take(i), symbol) {
            let j = choose|j: int| 0 <= j < i && (#[trigger] tasks.take(i)[j]).symbol@ == symbol;
            assert(tasks.take(i + 1)[j].symbol@ == symbol);
        }
        if has_task(tasks.take(i + 1), symbol) {
            let j = choose|j: int|
                0 <= j < i + 1 && (#[trigger] tasks.take(i + 1)[j]).symbol@ == symbol;
            if j < i {
                assert(tasks.take(i)[j].symbol@ == symbol);
            }
        }
        assert(tasks.take(i + 1)[i].symbol@ == tasks[i].symbol@);
    }
}

/// When the plan is carried out exactly the symbols that are traded have a live task: one
/// that was live and is not stopped, or one that is started, and never both.
pub proof fn law_every_active_symbol_has_one_live_task(
    active: Seq<String>,
    tasks: Seq<Task>,
    plan: Plan,
    symbol: Seq<char>,
)
    requires
        plans(active, tasks, plan),
    ensures
        ({
            let left = has_live_task(tasks, symbol) && !named(plan.stop@, symbol);
            let started = named(plan.spawn@, symbol);
            &&& named(active, symbol) <==> left || started
            &&& !(left && started)
        }),
{
    if has_live_task(tasks, symbol) {
        let i = choose|i: int|
            0 <= i < tasks.len() && (#[trigger] tasks[i]).symbol@ == symbol && !tasks[i].finished;
        assert(tasks[i].symbol@ == symbol);
        assert(has_task(tasks, symbol));
    }
}

/// After a look at the table a symbol is to get a task if it is traded and has none that lives,
/// once; the task of a symbol is to be stopped if it is not traded. If the table could not be
/// read nothing is done.
pub proof fn law_tasks_follow_the_traded_symbols(
    active: Result<Vec<String>, String>,
    tasks: &Vec<Task>,
    plan: Plan,
    i: int,
    j: int,
)
    requires
        call_ensures(GridEngine::run, (active, tasks), plan),
    ensures
        active is Err ==> plan.stop.len() == 0 && plan.spawn.len() == 0,
        0 <= i < j < plan.spawn.len() ==> plan.spawn@[i]@ != plan.spawn@[j]@,
        active matches Ok(symbols) ==> {
            // What is started is traded and has no task that lives.
            &&& 0 <= i < plan.spawn.len() ==> (exists|k: int|
                0 <= k < symbols.len() && (#[trigger] symbols@[k])@ == plan.spawn@[i]@) && forall|
                k: int,
            |
                0 <= k < tasks.len() && (#[trigger] tasks@[k]).symbol@ == plan.spawn@[i]@
                    ==> tasks@[k].finished
            // What is traded and has no task that lives is started.
            &&& 0 <= i < symbols.len() && (forall|k: int|
                0 <= k < tasks.len() && (#[trigger] tasks@[k]).symbol@ == symbols@[i]@
                    ==> tasks@[k].finished) ==> exists|k: int|
                0 <= k < plan.spawn.len() && (#[trigger] plan.spawn@[k])@ == symbols@[i]@
            // What is stopped has a task and is not traded.
            &&& 0 <= i < plan.stop.len() ==> (exists|k: int|
                0 <= k < tasks.len() && (#[trigger] tasks@[k]).symbol@ == plan.stop@[i]@) && forall|
                k: int,
            |
                0 <= k < symbols.len() ==> (#[trigger] symbols@[k])@ != plan.stop@[i]@
            // What has a task and is not traded is stopped.
            &&& 0 <= i < tasks.len() && (forall|k: int|
                0 <= k < symbols.len() ==> (#[trigger] symbols@[k])@ != tasks@[i].symbol@)
                ==> exists|k: int|
                0 <= k < plan.stop.len() && (#[trigger] plan.stop@[k])@ == tasks@[i].symbol@
        },
{
    if let Ok(symbols) = active {
        if 0 <= i < plan.spawn.len() {
            assert(named(plan.spawn@, plan.spawn@[i]@));
            assert(named(symbols@, plan.spawn@[i]@));
            assert(!has_live_task(tasks@, plan.spawn@[i]@));
        }
        if 0 <= i < symbols.len() {
            assert(named(symbols@, symbols@[i]@));
            if forall|k: int|
                0 <= k < tasks.len() && (#[trigger] tasks@[k]).symbol@ == symbols@[i]@
                    ==> tasks@[k].finished {
                assert(!has_live_task(tasks@, symbols@[i]@));
                assert(named(plan.spawn@, symbols@[i]@));
            }
        }
        if 0 <= i < plan.stop.len() {
            assert(named(plan.stop@, plan.stop@[i]@));
            assert(has_task(tasks@, plan.stop@[i]@));
            assert(!named(symbols@, plan.stop@[i]@));
        }
        if 0 <= i < tasks.len() {
            assert(has_task(tasks@, tasks@[i].symbol@));
            if forall|k: int| 0 <= k < symbols.len() ==> (#[trigger] symbols@[k])@
                != tasks@[i].symbol@ {
                assert(!named(symbols@, tasks@[i].symbol@));
                assert(named(plan.stop@, tasks@[i].symbol@));
            }
        }
    }
}

} // verus!
