//! The middleware pipeline: an ordered chain of middleware around a
//! handler.
//!
//! Middleware and handlers are run by the code that embeds the library,
//! which knows them by the identifiers it registered them under. The
//! pipeline decides what runs when: a `Next` is the rest of a pipeline, and
//! invoking it either enters the next middleware, which is handed the rest
//! after it, or runs what ends the chain.

pub mod compression;
pub mod security;

use crate::http::response::{Response, ResponseView};
use crate::text::{copy_range, extend};
use vstd::prelude::*;

verus! {

/// What ends a chain of middleware.
#[derive(PartialEq, Eq, Structural, Copy, Clone, Debug)]
pub enum Terminal {
    /// The handler registered under this identifier.
    Handler(u64),
    /// An empty response with the status 200, and no handler.
    EmptyOk,
}

/// An ordered list of middleware, by their identifiers. The first is the
/// outermost.
#[derive(Debug)]
pub struct MiddlewareManager {
    pub middlewares: Vec<u64>,
}

impl View for MiddlewareManager {
    type V = Seq<u64>;

    open spec fn view(&self) -> Seq<u64> {
        self.middlewares@
    }
}

/// The rest of a pipeline: the middleware still to enter, and what ends
/// the chain.
#[derive(Debug)]
pub struct Next {
    pub chain: Vec<u64>,
    pub terminal: Terminal,
}

/// The mathematical value of a `Next`.
pub struct NextView {
    pub chain: Seq<u64>,
    pub terminal: Terminal,
}

impl View for Next {
    type V = NextView;

    open spec fn view(&self) -> NextView {
        NextView { chain: self.chain@, terminal: self.terminal }
    }
}

/// What invoking a continuation runs.
#[derive(Debug)]
pub enum Step {
    /// The middleware `id`, which is handed `next` as its continuation.
    Middleware { id: u64, next: Next },
    /// What ends the chain.
    End(Terminal),
}

/// The mathematical value of a `Step`.
pub enum StepView {
    Middleware { id: u64, next: NextView },
    End(Terminal),
}

impl View for Step {
    type V = StepView;

    open spec fn view(&self) -> StepView {
        match self {
            Step::Middleware { id, next } => StepView::Middleware { id: *id, next: next@ },
            Step::End(terminal) => StepView::End(*terminal),
        }
    }
}

/// One thing that a pipeline ran.
pub enum Ran {
    Middleware(u64),
    End(Terminal),
}

impl Terminal {
    /// The response that ends a chain without a handler: empty, with the
    /// status 200. A handler gives its own answer, so there is none here.
    pub fn answer(&self) -> (r: Option<Response>)
        ensures
            match self {
                Terminal::EmptyOk => r matches Some(response) && response@ == ResponseView::empty(
                    200,
                ),
                Terminal::Handler(_) => r.is_none(),
            },
    {
        match self {
            Terminal::EmptyOk => Some(Response::new(200)),
            Terminal::Handler(_) => None,
        }
    }
}

impl NextView {
    /// What invoking the continuation runs: the first middleware of the
    /// chain, with the rest of the chain as its continuation, or what ends
    /// the chain where no middleware is left.
    pub open spec fn step(self) -> StepView {
        if self.chain.len() == 0 {
            StepView::End(self.terminal)
        } else {
            StepView::Middleware {
                id: self.chain[0],
                next: NextView { chain: self.chain.skip(1), terminal: self.terminal },
            }
        }
    }

    /// The continuation with the middleware `outer` entered before it.
    pub open spec fn wrapped(self, outer: Seq<u64>) -> NextView {
        NextView { chain: outer + self.chain, terminal: self.terminal }
    }

    /// What runs, in order, when the continuation is invoked and the
    /// middleware at each place `i` of the chain invokes its own
    /// continuation if and only if `forwards[i]`.
    pub open spec fn trace(self, forwards: Seq<bool>) -> Seq<Ran>
        decreases self.chain.len(),
    {
        match self.step() {
            StepView::End(terminal) => seq![Ran::End(terminal)],
            StepView::Middleware { id, next } => if forwards.len() > 0 && forwards[0] {
                seq![Ran::Middleware(id)] + next.trace(forwards.skip(1))
            } else {
                seq![Ran::Middleware(id)]
            },
        }
    }
}

/// The middleware of a chain run in the order of the chain, from the
/// outermost on. Where the middleware at the place `stop` does not invoke
/// its continuation, nothing after it runs: no later middleware and not
/// what ends the chain.
pub proof fn lemma_short_circuit(next: NextView, forwards: Seq<bool>, stop: int)
    requires
        forwards.len() == next.chain.len(),
        0 <= stop < next.chain.len(),
        !forwards[stop],
    ensures
        next.trace(forwards).len() <= stop + 1,
        forall|k: int|
            0 <= k < next.trace(forwards).len() ==> #[trigger] next.trace(forwards)[k]
                == Ran::Middleware(next.chain[k]),
    decreases next.chain.len(),
{
    if forwards[0] {
        let rest = NextView { chain: next.chain.skip(1), terminal: next.terminal };
        lemma_short_circuit(rest, forwards.skip(1), stop - 1);
        let tail = rest.trace(forwards.skip(1));
        assert forall|k: int| 0 <= k < next.trace(forwards).len() implies #[trigger] next.trace(
            forwards,
        )[k] == Ran::Middleware(next.chain[k]) by {
            if k > 0 {
                assert(next.trace(forwards)[k] == tail[k - 1]);
            }
        }
    }
}

/// Where every middleware invokes its continuation, each runs once, in the
/// order of the chain, and then what ends the chain runs.
pub proof fn lemma_full_run(next: NextView, forwards: Seq<bool>)
    requires
        forwards.len() == next.chain.len(),
        forall|i: int| 0 <= i < forwards.len() ==> forwards[i],
    ensures
        next.trace(forwards).len() == next.chain.len() + 1,
        forall|k: int|
            0 <= k < next.chain.len() ==> #[trigger] next.trace(forwards)[k] == Ran::Middleware(
                next.chain[k],
            ),
        next.trace(forwards)[next.chain.len() as int] == Ran::End(next.terminal),
    decreases next.chain.len(),
{
    if next.chain.len() > 0 {
        let rest = NextView { chain: next.chain.skip(1), terminal: next.terminal };
        lemma_full_run(rest, forwards.skip(1));
        let tail = rest.trace(forwards.skip(1));
        assert forall|k: int| 0 <= k < next.chain.len() implies #[trigger] next.trace(forwards)[k]
            == Ran::Middleware(next.chain[k]) by {
            if k > 0 {
                assert(next.trace(forwards)[k] == tail[k - 1]);
            }
        }
        assert(next.trace(forwards)[next.chain.len() as int] == tail[next.chain.len() - 1]);
    }
}

impl Next {
    /// The continuation that runs the handler `handler` and nothing else.
    pub fn new(handler: u64) -> (next: Next)
        ensures
            next@ == (NextView { chain: Seq::empty(), terminal: Terminal::Handler(handler) }),
    {
        Next { chain: Vec::new(), terminal: Terminal::Handler(handler) }
    }

    /// The continuation that ends in `terminal` and runs nothing else.
    pub fn new_handler(terminal: Terminal) -> (next: Next)
        ensures
            next@ == (NextView { chain: Seq::empty(), terminal }),
    {
        Next { chain: Vec::new(), terminal }
    }

    /// Invokes the continuation: says what runs now.
    pub fn handle(self) -> (step: Step)
        ensures
            step@ == self@.step(),
    {
        if self.chain.len() == 0 {
            Step::End(self.terminal)
        } else {
            let id = self.chain[0];
            let rest = copy_range(self.chain.as_slice(), 1, self.chain.len());
            assert(rest@ =~= self.chain@.skip(1));
            Step::Middleware { id, next: Next { chain: rest, terminal: self.terminal } }
        }
    }
}

impl MiddlewareManager {
    /// The empty list.
    pub fn new() -> (m: MiddlewareManager)
        ensures
            m@ == Seq::<u64>::empty(),
    {
        MiddlewareManager { middlewares: Vec::new() }
    }

    /// Adds the middleware `middleware` as the innermost.
    pub fn add(&mut self, middleware: u64)
        ensures
            final(self)@ == old(self)@.push(middleware),
    {
        self.middlewares.push(middleware);
    }

    /// Adds the middleware of `other` inside those of `self`, in their
    /// order.
    pub fn append(&mut self, other: MiddlewareManager) -> (r: &Self)
        ensures
            final(self)@ == old(self)@ + other@,
            r@ == final(self)@,
    {
        extend(&mut self.middlewares, other.middlewares.as_slice());
        self
    }

    /// A list with the same middleware in the same order.
    pub fn duplicate(&self) -> (m: MiddlewareManager)
        ensures
            m@ == self@,
    {
        let middlewares = copy_range(self.middlewares.as_slice(), 0, self.middlewares.len());
        assert(middlewares@ =~= self.middlewares@);
        MiddlewareManager { middlewares }
    }

    /// The continuation that enters the middleware of the list, from the
    /// first on, and then continues with `next`.
    pub fn call(&self, next: Next) -> (wrapped: Next)
        ensures
            wrapped@ == next@.wrapped(self@),
    {
        let mut chain = copy_range(self.middlewares.as_slice(), 0, self.middlewares.len());
        assert(chain@ =~= self.middlewares@);
        extend(&mut chain, next.chain.as_slice());
        Next { chain, terminal: next.terminal }
    }
}

} // verus!
