//! Naming a change after the fact.

use vstd::prelude::*;
use vstd::string::*;

use crate::commits::Commit;
use crate::engine::RepoEngine;
#[allow(unused_imports)]
use crate::engine::is_log_entry;
use crate::error::EngineError;
#[allow(unused_imports)]
use crate::error::ErrorKind;
use crate::ids::short_commit_id;
#[allow(unused_imports)]
use crate::ids::{hex_text, reverse_hex_text};
use crate::ops::Op;
#[allow(unused_imports)]
use crate::ops::{
    describes, facts_after, facts_after_all, facts_are_kept, facts_of, locks, ops_view,
    starts_change, takes_tree, Facts, OpView, Performed,
};
use crate::proto::LogEntry;
#[allow(unused_imports)]
use crate::text::head;

verus! {

/// What a description waits for.
#[derive(Debug, Clone, Copy, PartialEq, Eq, Structural)]
pub enum DescribePhase {
    Start,
    Finding,
    Writing,
    Syncing,
    FindingAgain,
    Over,
}

/// The rewrite of the description of one commit: that of `change`, or the
/// working-copy commit of the workspace.
pub struct Describe {
    pub ws: String,
    pub change: Option<String>,
    pub message: String,
    pub phase: DescribePhase,
    /// The commit before the rewrite, once it was found.
    pub target: Option<Commit>,
}

/// What has to be done next for a description.
pub enum DescribeAction {
    /// Resolve the prefix against the visible commits.
    FindChange(String),
    /// Read the working-copy commit of the workspace.
    FindWorkingCopy(String),
    /// Perform these operations.
    Run(Vec<Op>),
    /// Point the on-disk state of the workspace at its working-copy commit.
    SyncWorkingCopy(String),
    /// Drop what is open and answer.
    Finish(Result<LogEntry, EngineError>),
}

/// What came of an action.
pub enum DescribeReply {
    Begin,
    Found(Result<Commit, EngineError>),
    Ran(Result<(), EngineError>),
    Synced(Result<(), EngineError>),
}

/// The operations that give a commit another description.
pub open spec fn describe_ops(target: Seq<u8>, message: Seq<char>) -> Seq<OpView> {
    seq![
        OpView::Begin,
        OpView::Describe { commit: target, message },
        OpView::Rebase,
        OpView::Commit("describe "@ + head(hex_text(target), 12)),
    ]
}

pub open spec fn describe_fails(
    post: Describe,
    action: DescribeAction,
    why: (ErrorKind, Seq<char>),
) -> bool {
    &&& post.phase == DescribePhase::Over
    &&& action matches DescribeAction::Finish(r)
    &&& r matches Err(e)
    &&& e@ == why
}

/// One step of a description. `engine` is the repo as it is at the step.
pub open spec fn describe_step(
    engine: RepoEngine,
    pre: Describe,
    reply: DescribeReply,
    post: Describe,
    action: DescribeAction,
) -> bool {
    &&& post.ws == pre.ws
    &&& post.change == pre.change
    &&& post.message == pre.message
    &&& match (pre.phase, reply) {
        (DescribePhase::Start, DescribeReply::Begin) => {
            &&& post.phase == DescribePhase::Finding
            &&& match pre.change {
                Some(prefix) => action matches DescribeAction::FindChange(p) && p@ == prefix@,
                None => action matches DescribeAction::FindWorkingCopy(ws) && ws@ == pre.ws@,
            }
        },
        (DescribePhase::Finding, DescribeReply::Found(r)) => match r {
            Err(e) => describe_fails(post, action, e@),
            Ok(c) => {
                &&& post.phase == DescribePhase::Writing
                &&& post.target == Some(c)
                &&& action matches DescribeAction::Run(ops)
                &&& ops_view(ops@) == describe_ops(c.id@, pre.message@)
            },
        },
        (DescribePhase::Writing, DescribeReply::Ran(r)) => match r {
            Err(e) => describe_fails(post, action, e@),
            Ok(_) => {
                &&& post.phase == DescribePhase::Syncing
                &&& post.target == pre.target
                &&& action matches DescribeAction::SyncWorkingCopy(ws)
                &&& ws@ == pre.ws@
            },
        },
        (DescribePhase::Syncing, DescribeReply::Synced(r)) => match r {
            Err(e) => describe_fails(post, action, e@),
            Ok(_) => {
                &&& post.phase == DescribePhase::FindingAgain
                &&& post.target == pre.target
                &&& action matches DescribeAction::FindChange(prefix)
                &&& prefix@ == reverse_hex_text(pre.target->0.change_id@)
            },
        },
        (DescribePhase::FindingAgain, DescribeReply::Found(r)) => match r {
            Err(e) => describe_fails(post, action, e@),
            Ok(c) => {
                &&& post.phase == DescribePhase::Over
                &&& action matches DescribeAction::Finish(answer)
                &&& answer matches Ok(row)
                &&& is_log_entry(row, engine.view, c)
            },
        },
        _ => describe_fails(post, action, (ErrorKind::Internal, "unexpected reply"@)),
    }
}

impl RepoEngine {
    /// The rewrite of a description, by default that of the working copy of `ws`.
    pub fn describe(&self, ws: String, change: Option<String>, message: String) -> (r: Describe)
        ensures
            r.wf(),
            r.ws == ws,
            r.change == change,
            r.message == message,
            r.phase == DescribePhase::Start,
    {
        Describe { ws, change, message, phase: DescribePhase::Start, target: None }
    }
}

impl Describe {
    pub open spec fn wf(self) -> bool {
        self.phase == DescribePhase::Writing || self.phase == DescribePhase::Syncing
            ==> self.target is Some
    }

    fn fail(&mut self, e: EngineError) -> (action: DescribeAction)
        ensures
            final(self).ws == old(self).ws,
            final(self).change == old(self).change,
            final(self).message == old(self).message,
            final(self).wf(),
            describe_fails(*final(self), action, e@),
    {
        self.phase = DescribePhase::Over;
        DescribeAction::Finish(Err(e))
    }

    /// Takes the reply to the last action and says what has to be done next.
    pub fn step(&mut self, engine: &RepoEngine, reply: DescribeReply) -> (action: DescribeAction)
        requires
            old(self).wf(),
        ensures
            final(self).wf(),
            describe_step(*engine, *old(self), reply, *final(self), action),
    {
        match (self.phase, reply) {
            (DescribePhase::Start, DescribeReply::Begin) => {
                self.phase = DescribePhase::Finding;
                match &self.change {
                    Some(prefix) => DescribeAction::FindChange(prefix.clone()),
                    None => DescribeAction::FindWorkingCopy(self.ws.clone()),
                }
            },
            (DescribePhase::Finding, DescribeReply::Found(r)) => match r {
                Err(e) => self.fail(e),
                Ok(c) => {
                    let mut ops: Vec<Op> = Vec::new();
                    ops.push(Op::Begin);
                    ops.push(Op::Describe { commit: c.id.copy(), message: self.message.clone() });
                    ops.push(Op::Rebase);
                    ops.push(
                        Op::Commit(
                            "describe ".to_string().concat(short_commit_id(&c.id).as_str()),
                        ),
                    );
                    assert(ops_view(ops@) =~= describe_ops(c.id@, self.message@));
                    self.phase = DescribePhase::Writing;
                    self.target = Some(c);
                    DescribeAction::Run(ops)
                },
            },
            (DescribePhase::Writing, DescribeReply::Ran(r)) => match r {
                Err(e) => self.fail(e),
                Ok(_) => {
                    self.phase = DescribePhase::Syncing;
                    DescribeAction::SyncWorkingCopy(self.ws.clone())
                },
            },
            (DescribePhase::Syncing, DescribeReply::Synced(r)) => match r {
                Err(e) => self.fail(e),
                Ok(_) => {
                    self.phase = DescribePhase::FindingAgain;
                    let prefix = match &self.target {
                        Some(c) => c.change_id.reverse_hex(),
                        None => String::new(),
                    };
                    DescribeAction::FindChange(prefix)
                },
            },
            (DescribePhase::FindingAgain, DescribeReply::Found(r)) => match r {
                Err(e) => self.fail(e),
                Ok(c) => {
                    self.phase = DescribePhase::Over;
                    DescribeAction::Finish(Ok(engine.log_entry_for(&c)))
                },
            },
            _ => self.fail(EngineError::Internal("unexpected reply".to_string())),
        }
    }
}

/// A description reports the change that it named: what it looks for in the end is
/// the full change id of the commit that it rewrote, and a visible commit with that
/// change id and no other is what it finds.
pub proof fn described_change_is_reported(
    engine: RepoEngine,
    pre: Describe,
    post: Describe,
    action: DescribeAction,
    visible: Seq<Commit>,
    k: int,
)
    requires
        pre.wf(),
        pre.phase == DescribePhase::Syncing,
        describe_step(engine, pre, DescribeReply::Synced(Ok(())), post, action),
        0 <= k < visible.len(),
        visible[k].change_id@ == pre.target->0.change_id@,
        visible[k].change_id@.len() > 0,
        forall|i: int| 0 <= i < visible.len() ==> (#[trigger] visible[i]).change_id@.len()
            == visible[k].change_id@.len(),
        forall|i: int|
            0 <= i < visible.len() && (#[trigger] visible[i]).change_id@ == visible[k].change_id@
                ==> i == k,
    ensures
        action matches DescribeAction::FindChange(prefix) && crate::engine::resolution(
            visible,
            prefix@,
        ) == Ok::<_, (ErrorKind, Seq<char>)>(visible[k]),
{
    crate::engine::full_change_id_resolves(visible, k);
}

/// The operations of a description give the commit that was named the message, and do
/// nothing else to it and nothing to any other: change, parents and files stay. They
/// start no change, and touch nothing on disk outside the repo.
pub proof fn describing_sets_one_message(
    target: Seq<u8>,
    message: Seq<char>,
    other: Seq<u8>,
    before: Facts,
    taken: int,
)
    ensures
        facts_after(describe_ops(target, message), target, before, taken) == (Facts {
            change_id: before.change_id,
            message,
            parents: before.parents,
            tree: before.tree,
        }),
        other != target ==> facts_after(describe_ops(target, message), other, before, taken)
            == before,
        !takes_tree(describe_ops(target, message)),
        !starts_change(describe_ops(target, message)),
        !locks(describe_ops(target, message)),
{
    let ops = describe_ops(target, message);
    let three = ops.drop_last();
    let two = three.drop_last();
    let one = two.drop_last();
    assert(ops.last() is Commit);
    assert(three.last() is Rebase);
    assert(two.last() == OpView::Describe { commit: target, message });
    assert(one.last() is Begin);
    assert(one.drop_last().len() == 0);
    assert forall|c: Seq<u8>| #[trigger] facts_after(one, c, before, taken) == before by {
        assert(facts_after(one.drop_last(), c, before, taken) == before);
    }
    assert(facts_after(one, target, before, taken) == before);
    assert(facts_after(one, other, before, taken) == before);
    assert(facts_after(three, target, before, taken) == facts_after(two, target, before, taken));
    assert(facts_after(three, other, before, taken) == facts_after(two, other, before, taken));
}

/// A message stays: whatever operations follow a description, as long as none of them
/// describes a commit, the commit has the message that it was given, under the change
/// that it was. Snapshots and imports make none that does.
pub proof fn described_messages_stay(
    target: Seq<u8>,
    message: Seq<char>,
    before: Facts,
    taken: int,
    later: Seq<Performed>,
)
    requires
        forall|k: int| 0 <= k < later.len() ==> !describes((#[trigger] later[k]).ops),
    ensures
        ({
            let first = Performed { ops: describe_ops(target, message), commit: target, taken };
            let after = facts_after_all(seq![first] + later, before);
            &&& after.message == message
            &&& after.change_id == before.change_id
            &&& after.parents == before.parents
        }),
    decreases later.len(),
{
    let first = Performed { ops: describe_ops(target, message), commit: target, taken };
    let all = seq![first] + later;
    if later.len() == 0 {
        assert(all.drop_last() =~= Seq::empty());
        assert(facts_after_all(all.drop_last(), before) == before);
        assert(all.last() == first);
        describing_sets_one_message(target, message, target, before, taken);
    } else {
        let front = later.drop_last();
        assert forall|k: int| 0 <= k < front.len() implies !describes(
            (#[trigger] front[k]).ops,
        ) by {
            assert(front[k] == later[k]);
        }
        described_messages_stay(target, message, before, taken, front);
        assert(all.drop_last() =~= seq![first] + front);
        assert(all.last() == later[later.len() - 1]);
        let last = all.last();
        facts_are_kept(
            last.ops,
            last.commit,
            facts_after_all(all.drop_last(), before),
            last.taken,
        );
    }
}

/// A description from its start on: the repo at each step, the states, the replies,
/// and the action that followed each.
pub open spec fn is_describe_run(
    engines: Seq<RepoEngine>,
    states: Seq<Describe>,
    replies: Seq<DescribeReply>,
    actions: Seq<DescribeAction>,
) -> bool {
    &&& states.len() == replies.len() + 1
    &&& engines.len() == replies.len()
    &&& actions.len() == replies.len()
    &&& states[0].phase == DescribePhase::Start
    &&& forall|i: int|
        0 <= i < replies.len() ==> describe_step(
            engines[i],
            states[i],
            #[trigger] replies[i],
            states[i + 1],
            actions[i],
        )
}

proof fn describe_run_shows(
    engines: Seq<RepoEngine>,
    states: Seq<Describe>,
    replies: Seq<DescribeReply>,
    actions: Seq<DescribeAction>,
    i: int,
)
    requires
        is_describe_run(engines, states, replies, actions),
        0 <= i < states.len(),
        states[i].phase != DescribePhase::Over,
    ensures
        states[i].message == states[0].message,
        states[i].change == states[0].change,
        states[i].ws == states[0].ws,
        states[i].phase == DescribePhase::Start ==> i == 0,
        states[i].phase == DescribePhase::Finding ==> i == 1,
        states[i].phase == DescribePhase::Writing ==> i == 2,
        states[i].phase == DescribePhase::Syncing ==> i == 3,
        states[i].phase == DescribePhase::FindingAgain ==> i == 4,
        i > 0 ==> match states[0].change {
            Some(prefix) => actions[0] matches DescribeAction::FindChange(p) && p@ == prefix@,
            None => actions[0] matches DescribeAction::FindWorkingCopy(ws) && ws@ == states[0].ws@,
        },
        i > 1 ==> states[i].target is Some && replies[1] == DescribeReply::Found(
            Ok(states[i].target->0),
        ) && (actions[1] matches DescribeAction::Run(ops) && ops_view(ops@) == describe_ops(
            states[i].target->0.id@,
            states[0].message@,
        )),
        i > 2 ==> (replies[2] matches DescribeReply::Ran(r) && r is Ok),
        i > 3 ==> (actions[3] matches DescribeAction::FindChange(p) && p@ == reverse_hex_text(
            states[i].target->0.change_id@,
        )),
    decreases i,
{
    if i > 0 {
        assert(describe_step(
            engines[i - 1],
            states[i - 1],
            replies[i - 1],
            states[i],
            actions[i - 1],
        ));
        describe_run_shows(engines, states, replies, actions, i - 1);
    }
}

/// A description that goes well shows its message, under the change that it named:
/// where the commit that is found again by its full change id is what the performed
/// operations made of the one that was named, the answer has the message that was
/// asked for, and the commit has the parents and the files that it had.
pub proof fn described_change_shows_its_message(
    engines: Seq<RepoEngine>,
    states: Seq<Describe>,
    replies: Seq<DescribeReply>,
    actions: Seq<DescribeAction>,
    i: int,
    target: Commit,
    tree: int,
    found: Commit,
    found_tree: int,
    taken: int,
)
    requires
        is_describe_run(engines, states, replies, actions),
        0 <= i < actions.len(),
        actions[i] matches DescribeAction::Finish(r) && r is Ok,
        replies[1] == DescribeReply::Found(Ok(target)),
        replies[i] == DescribeReply::Found(Ok(found)),
        facts_of(found, found_tree) == facts_after(
            ops_view(actions[1]->Run_0@),
            target.id@,
            facts_of(target, tree),
            taken,
        ),
    ensures
        i == 4,
        match states[0].change {
            Some(prefix) => actions[0] matches DescribeAction::FindChange(p) && p@ == prefix@,
            None => actions[0] matches DescribeAction::FindWorkingCopy(ws) && ws@ == states[0].ws@,
        },
        actions[3] matches DescribeAction::FindChange(p) && p@ == reverse_hex_text(
            target.change_id@,
        ),
        actions[i]->Finish_0->Ok_0.description@ == states[0].message@,
        actions[i]->Finish_0->Ok_0.change_id@ == head(reverse_hex_text(target.change_id@), 12),
        facts_of(found, found_tree).parents == facts_of(target, tree).parents,
        found_tree == tree,
{
    assert(describe_step(engines[i], states[i], replies[i], states[i + 1], actions[i]));
    describe_run_shows(engines, states, replies, actions, i);
    describing_sets_one_message(
        target.id@,
        states[0].message@,
        target.id@,
        facts_of(target, tree),
        taken,
    );
}

} // verus!
