//! The draw command log: what user code records during a frame, in call
//! order, until the batching pass drains it.

use vstd::prelude::*;
use crate::context::ContextState;
use crate::primitive::Primitive;

verus! {

/// A recorded instruction: a new context, or a primitive to draw under the
/// context in force.
#[derive(Debug)]
pub enum DrawCommand {
    Context(ContextState),
    Primitive(Primitive),
}

/// The context in force after `commands` were replayed from `start`: the
/// payload of the last context command, or `start` where there is none.
pub open spec fn context_after(start: ContextState, commands: Seq<DrawCommand>) -> ContextState
    decreases commands.len(),
{
    if commands.len() == 0 {
        start
    } else {
        match commands.last() {
            DrawCommand::Context(c) => c,
            DrawCommand::Primitive(_) => context_after(start, commands.drop_last()),
        }
    }
}

/// The payload of the last context command among `commands`, if there is
/// one.
pub open spec fn last_context(commands: Seq<DrawCommand>) -> Option<ContextState>
    decreases commands.len(),
{
    if commands.len() == 0 {
        None
    } else {
        match commands.last() {
            DrawCommand::Context(c) => Some(c),
            DrawCommand::Primitive(_) => last_context(commands.drop_last()),
        }
    }
}

/// The log after a primitive was drawn under `context`: the context is
/// recorded first if it is not the last one recorded, then the primitive.
pub open spec fn drawn(commands: Seq<DrawCommand>, context: ContextState, primitive: Primitive) -> Seq<DrawCommand> {
    if last_context(commands) == Some(context) {
        commands.push(DrawCommand::Primitive(primitive))
    } else {
        commands.push(DrawCommand::Context(context)).push(DrawCommand::Primitive(primitive))
    }
}

/// The commands of one surface, in the order in which they were recorded.
#[derive(Debug)]
pub struct DrawLog {
    commands: Vec<DrawCommand>,
    /// The payload of the last context command in the log.
    recorded: Option<ContextState>,
}

impl View for DrawLog {
    type V = Seq<DrawCommand>;

    closed spec fn view(&self) -> Seq<DrawCommand> {
        self.commands@
    }
}

impl DrawLog {
    /// The log knows the last context that it holds.
    pub closed spec fn wf(&self) -> bool {
        self.recorded == last_context(self.commands@)
    }

    /// An empty log.
    pub fn new() -> (log: DrawLog)
        ensures
            log.wf(),
            log@ == Seq::<DrawCommand>::empty(),
    {
        DrawLog { commands: Vec::new(), recorded: None }
    }

    /// The number of commands that wait to be drained.
    pub fn len(&self) -> (n: usize)
        ensures
            n == self@.len(),
    {
        self.commands.len()
    }

    pub fn is_empty(&self) -> (e: bool)
        ensures
            e == (self@.len() == 0),
    {
        self.commands.len() == 0
    }

    /// Appends `command` behind everything recorded before.
    pub fn record(&mut self, command: DrawCommand)
        requires
            old(self).wf(),
        ensures
            final(self).wf(),
            final(self)@ == old(self)@.push(command),
    {
        let payload = match &command {
            DrawCommand::Context(c) => Some(*c),
            DrawCommand::Primitive(_) => self.recorded,
        };
        self.commands.push(command);
        self.recorded = payload;
        proof {
            lemma_push_keeps_context(old(self)@, command);
        }
    }

    /// Records a primitive that is to be drawn under `context`. The log
    /// gets a context command first if `context` is not the last context it
    /// holds, so that a replay draws the primitive under `context`.
    pub fn draw(&mut self, context: ContextState, primitive: Primitive)
        requires
            old(self).wf(),
        ensures
            final(self).wf(),
            final(self)@ == drawn(old(self)@, context, primitive),
            last_context(final(self)@) == Some(context),
    {
        let known = match self.recorded {
            Some(c) => c == context,
            None => false,
        };
        if !known {
            self.record(DrawCommand::Context(context));
        }
        proof {
            lemma_push_keeps_context(self@, DrawCommand::Primitive(primitive));
        }
        self.record(DrawCommand::Primitive(primitive));
    }

    /// Takes every command out, in the order of recording, and leaves the
    /// log empty for the next frame.
    pub fn drain(&mut self) -> (commands: Vec<DrawCommand>)
        ensures
            final(self).wf(),
            commands@ == old(self)@,
            final(self)@ == Seq::<DrawCommand>::empty(),
    {
        let mut out: Vec<DrawCommand> = Vec::new();
        core::mem::swap(&mut out, &mut self.commands);
        self.recorded = None;
        out
    }
}

proof fn lemma_push_keeps_context(commands: Seq<DrawCommand>, command: DrawCommand)
    ensures
        last_context(commands.push(command)) == (match command {
            DrawCommand::Context(c) => Some(c),
            DrawCommand::Primitive(_) => last_context(commands),
        }),
{
    assert(commands.push(command).drop_last() =~= commands);
}

/// A replay is in the last context that the commands hold, or in the one
/// it started with where they hold none.
pub proof fn lemma_replay_context(start: ContextState, commands: Seq<DrawCommand>)
    ensures
        context_after(start, commands) == (match last_context(commands) {
            Some(c) => c,
            None => start,
        }),
    decreases commands.len(),
{
    if commands.len() > 0 {
        lemma_replay_context(start, commands.drop_last());
    }
}

/// A primitive that was drawn under a context is replayed under it: after
/// `draw`, the primitive is the last command of the log, and the context in
/// force before it is the one it was drawn with, wherever the replay
/// started.
pub proof fn lemma_drawn_is_replayed_in_context(
    start: ContextState,
    commands: Seq<DrawCommand>,
    context: ContextState,
    primitive: Primitive,
)
    ensures
        drawn(commands, context, primitive).last() == DrawCommand::Primitive(primitive),
        context_after(start, drawn(commands, context, primitive).drop_last()) == context,
{
    let after = drawn(commands, context, primitive);
    if last_context(commands) == Some(context) {
        assert(after.drop_last() =~= commands);
    } else {
        assert(after.drop_last() =~= commands.push(DrawCommand::Context(context)));
        lemma_push_keeps_context(commands, DrawCommand::Context(context));
    }
    lemma_replay_context(start, after.drop_last());
}

/// The log as it stands after `commands` were recorded in order.
pub open spec fn recorded(log: Seq<DrawCommand>, commands: Seq<DrawCommand>) -> Seq<DrawCommand>
    decreases commands.len(),
{
    if commands.len() == 0 {
        log
    } else {
        recorded(log, commands.drop_last()).push(commands.last())
    }
}

/// Recording keeps the order of the calls and drops nothing: the log after
/// any run of `record` calls is what it was, followed by the commands in
/// call order, and a drain hands out exactly that.
pub proof fn lemma_recorded_in_order(log: Seq<DrawCommand>, commands: Seq<DrawCommand>)
    ensures
        recorded(log, commands) == log + commands,
    decreases commands.len(),
{
    if commands.len() == 0 {
        assert(log + commands =~= log);
    } else {
        lemma_recorded_in_order(log, commands.drop_last());
        assert((log + commands.drop_last()).push(commands.last()) =~= log + commands);
    }
}

/// Replaying context commands replaces the context and never merges: after
/// a sequence that ends in a context command, the context in force is that
/// command's payload, whatever came before.
pub proof fn lemma_last_context_wins(start: ContextState, commands: Seq<DrawCommand>, payload: ContextState)
    ensures
        context_after(start, commands.push(DrawCommand::Context(payload))) == payload,
{
}

/// Primitives leave the context as it is.
pub proof fn lemma_primitive_keeps_context(start: ContextState, commands: Seq<DrawCommand>, primitive: Primitive)
    ensures
        context_after(start, commands.push(DrawCommand::Primitive(primitive))) == context_after(start, commands),
{
    assert(commands.push(DrawCommand::Primitive(primitive)).drop_last() =~= commands);
}

} // verus!
