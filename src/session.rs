//! Step decisions of a single generation session.
//!
//! The caller runs the loop: it asks for the next action, runs the forward
//! pass at the given token and position, obtains the next token (the next
//! prompt token while the prompt lasts, else a sampled one), and hands it
//! back. Positions start at zero and grow by exactly one per forward pass;
//! none reaches `seq_len`.

use vstd::prelude::*;

verus! {

/// Token id that begins a sequence.
pub const BOS: i32 = 1;

/// Token id that ends a sequence.
pub const EOS: i32 = 2;

/// Why a session stopped.
#[derive(Debug, Clone, Copy, PartialEq, Eq)]
pub enum StopReason {
    /// The end-of-sequence token was produced.
    EndOfSequence,
    /// The step budget is spent.
    StepBudget,
    /// The next position would not fit in the cache.
    ContextFull,
}

/// What the caller does next.
#[derive(Debug, Clone, Copy, PartialEq, Eq)]
pub enum Action {
    /// Run the forward pass on `token` at position `pos`.
    Forward { token: i32, pos: usize },
    /// Stop generating.
    Stop(StopReason),
}

/// The state of one generation session.
#[derive(Debug, Clone)]
pub struct Generation {
    /// Prompt token ids, fed verbatim before any sampling.
    pub prompt: Vec<i32>,
    /// Maximum number of forward passes.
    pub max_steps: usize,
    /// Maximum sequence length of the model.
    pub seq_len: usize,
    /// Forward passes done so far; also the next position.
    pub step: usize,
    /// Input token of the next forward pass.
    pub token: i32,
    /// The end-of-sequence token has been produced.
    pub ended: bool,
}

impl Generation {
    /// The session is consistent: it has a prompt and never went past its
    /// budget or the cache.
    pub open spec fn wf(&self) -> bool {
        &&& self.prompt@.len() > 0
        &&& self.step <= self.max_steps
        &&& self.step <= self.seq_len
    }

    /// The action that the state calls for.
    pub open spec fn spec_action(&self) -> Action {
        if self.ended {
            Action::Stop(StopReason::EndOfSequence)
        } else if self.step >= self.max_steps {
            Action::Stop(StopReason::StepBudget)
        } else if self.step >= self.seq_len {
            Action::Stop(StopReason::ContextFull)
        } else {
            Action::Forward { token: self.token, pos: self.step }
        }
    }

    /// Starts a session on a non-empty prompt: the first input is the first
    /// prompt token, at position zero.
    pub fn new(prompt: Vec<i32>, max_steps: usize, seq_len: usize) -> (r: Generation)
        requires
            prompt@.len() > 0,
        ensures
            r.wf(),
            r.prompt@ == prompt@,
            r.max_steps == max_steps,
            r.seq_len == seq_len,
            r.step == 0,
            r.token == prompt@[0],
            !r.ended,
    {
        let token = prompt[0];
        Generation { prompt, max_steps, seq_len, step: 0, token, ended: false }
    }

    /// Returns what to do next: stop once the end-of-sequence token came, the
    /// budget is spent or the cache is full; otherwise run the forward pass
    /// on the current token at the current position.
    pub fn next_action(&self) -> (r: Action)
        requires
            self.wf(),
        ensures
            r == self.spec_action(),
            r matches Action::Forward { pos, .. } ==> pos < self.seq_len,
    {
        if self.ended {
            Action::Stop(StopReason::EndOfSequence)
        } else if self.step >= self.max_steps {
            Action::Stop(StopReason::StepBudget)
        } else if self.step >= self.seq_len {
            Action::Stop(StopReason::ContextFull)
        } else {
            Action::Forward { token: self.token, pos: self.step }
        }
    }

    /// After the forward pass of the current step: the prompt token that
    /// must follow, or `None` once the prompt is used up and the next token
    /// is to be sampled.
    pub fn forced_token(&self) -> (r: Option<i32>)
        ensures
            r is Some <==> self.step + 1 < self.prompt@.len(),
            r is Some ==> r->Some_0 == self.prompt@[self.step + 1],
    {
        if self.step < self.prompt.len() && self.step + 1 < self.prompt.len() {
            Some(self.prompt[self.step + 1])
        } else {
            None
        }
    }

    /// Records the token that followed the forward pass of the current step.
    /// It becomes the next input, at the next position, unless it ends the
    /// sequence.
    pub fn advance(&mut self, next: i32)
        requires
            old(self).wf(),
            old(self).spec_action() is Forward,
        ensures
            final(self).wf(),
            final(self).step == old(self).step + 1,
            final(self).token == next,
            final(self).ended == (next == EOS),
            final(self).prompt@ == old(self).prompt@,
            final(self).max_steps == old(self).max_steps,
            final(self).seq_len == old(self).seq_len,
    {
        self.step = self.step + 1;
        self.token = next;
        self.ended = next == EOS;
    }
}

/// Positions grow by one per forward pass: after the pass at `pos`, the next
/// forward pass (if any) runs at `pos + 1`, below `seq_len`.
pub proof fn lemma_positions_advance(g: Generation, g2: Generation, pos: usize, next: i32)
    requires
        g.wf(),
        g.spec_action() matches Action::Forward { pos: p, .. } && p == pos,
        g2.step == g.step + 1,
        g2.token == next,
        g2.ended == (next == EOS),
        g2.prompt@ == g.prompt@,
        g2.max_steps == g.max_steps,
        g2.seq_len == g.seq_len,
    ensures
        g2.spec_action() matches Action::Forward { pos: p2, token: t2 } ==> p2 == pos + 1 && p2 < g2.seq_len && t2 == next,
{
}

} // verus!
