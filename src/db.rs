//! The access task: the one owner of the knowledge base, which runs the
//! commands it receives one at a time, in the order they arrive.
use vstd::prelude::*;

use crate::command::{Command, Context, Response, command_ok, execute_post};
use crate::tree::Tree;

verus! {

/// What reaches the access task.
pub enum TaskEvent {
    /// A command arrived on the queue.
    Received(Command),
    /// The queue was closed: no command will come any more.
    Closed,
}

/// What the access task does next.
pub enum TaskAction {
    /// Send this response to whoever sent the command.
    Reply(Response),
    /// Stop: nothing is left to serve.
    Stop,
}

/// The access task: running until its queue closes, then stopped for good.
pub struct AccessTask {
    context: Context,
    running: bool,
}

impl AccessTask {
    pub closed spec fn tree_spec(&self) -> Tree {
        self.context.tree
    }

    pub closed spec fn running_spec(&self) -> bool {
        self.running
    }

    pub open spec fn wf(&self) -> bool {
        self.tree_spec().wf()
    }

    /// A running task that owns `tree`.
    pub fn new(tree: Tree) -> (r: AccessTask)
        requires
            tree.wf(),
        ensures
            r.wf(),
            r.running_spec(),
            r.tree_spec() == tree,
    {
        AccessTask { context: Context::new(tree), running: true }
    }

    /// The tree the task owns, to be read between events.
    pub fn tree(&self) -> (r: &Tree)
        ensures
            *r == self.tree_spec(),
    {
        &self.context.tree
    }

    pub fn is_running(&self) -> (r: bool)
        ensures
            r == self.running_spec(),
    {
        self.running
    }

    /// Handles one event: a command is run, and answered once; a closed
    /// queue stops the task; a stopped task runs nothing.
    pub fn on_event(&mut self, event: TaskEvent) -> (action: TaskAction)
        requires
            old(self).wf(),
            event matches TaskEvent::Received(cmd) ==> command_ok(cmd),
        ensures
            final(self).wf(),
            task_step(old(self), event, final(self), action),
    {
        if !self.running {
            return TaskAction::Stop;
        }
        match event {
            TaskEvent::Closed => {
                self.running = false;
                TaskAction::Stop
            },
            TaskEvent::Received(cmd) => TaskAction::Reply(self.context.execute(cmd)),
        }
    }
}


/// What handling `event` on task `old` does: the task becomes `new` and
/// takes `action`.
pub open spec fn task_step(old: &AccessTask, event: TaskEvent, new: &AccessTask, action: TaskAction) -> bool {
    &&& !old.running_spec() ==> action is Stop && !new.running_spec()
        && new.tree_spec().providers_spec() == old.tree_spec().providers_spec()
    &&& old.running_spec() && event is Closed ==> action is Stop && !new.running_spec()
        && new.tree_spec().providers_spec() == old.tree_spec().providers_spec()
    &&& old.running_spec() ==> (event matches TaskEvent::Received(cmd) ==> (action matches TaskAction::Reply(resp)
        && new.running_spec() && execute_post(&old.tree_spec(), &new.tree_spec(), cmd, resp)))
}

/// Commands are served one at a time, in the order they arrive: when a
/// running task receives commands one after another, each command gets
/// exactly one reply, and that reply and the tree it leaves are those of
/// running the command on the tree that the commands before it left.
pub proof fn lemma_commands_served_in_order(tasks: Seq<AccessTask>, commands: Seq<Command>, actions: Seq<TaskAction>)
    requires
        tasks.len() == commands.len() + 1,
        actions.len() == commands.len(),
        tasks[0].running_spec(),
        forall|i: int| 0 <= i < commands.len() ==> task_step(&tasks[i], TaskEvent::Received(#[trigger] commands[i]), &tasks[i + 1], actions[i]),
    ensures
        forall|i: int| 0 <= i < commands.len() ==> (#[trigger] actions[i] matches TaskAction::Reply(resp)
            && execute_post(&tasks[i].tree_spec(), &tasks[i + 1].tree_spec(), commands[i], resp)),
        tasks[commands.len() as int].running_spec(),
    decreases commands.len(),
{
    if commands.len() > 0 {
        let n = commands.len() - 1;
        lemma_commands_served_in_order(tasks.take(n + 1), commands.take(n), actions.take(n));
        assert forall|i: int| 0 <= i < n implies #[trigger] actions[i] matches TaskAction::Reply(resp)
            && execute_post(&tasks[i].tree_spec(), &tasks[i + 1].tree_spec(), commands[i], resp) by {
            assert(actions.take(n)[i] == actions[i]);
            assert(commands.take(n)[i] == commands[i]);
            assert(tasks.take(n + 1)[i] == tasks[i]);
            assert(tasks.take(n + 1)[i + 1] == tasks[i + 1]);
        }
        assert(tasks.take(n + 1)[n] == tasks[n]);
        assert(task_step(&tasks[n], TaskEvent::Received(commands[n]), &tasks[n + 1], actions[n]));
    }
}

} // verus!
