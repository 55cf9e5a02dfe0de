use crate::business_result::BusinessResult;
use vstd::prelude::*;

verus! {

/// The message that asks for one more attempt. It carries the number of attempts
/// that are still allowed, the one it asks for included.
#[derive(Clone, Copy, Debug, PartialEq, Eq)]
pub struct Try(pub u16);

/// What the coordinator does after it has seen the outcome of one attempt.
#[derive(Debug, PartialEq, Eq)]
pub enum RetryStep<U> {
    /// The call is over: hand this result to the caller.
    Deliver(BusinessResult<U>),
    /// Wait for the given number of milliseconds, then make the attempt the message asks for.
    RetryLater(Try, u64),
    /// The caller already has its result: the outcome is thrown away.
    Dropped,
}

/// The state of one `retry` call: the fixed delay between attempts, and whether the
/// caller has been answered.
pub struct RetryActor {
    delay_millis: u64,
    delivered: bool,
}

/// The fixed-delay retry plan: how many attempts, and how long to wait between two of them.
pub struct Retrier {
    tries: u16,
    delay_millis: u64,
}

/// The number of attempts a plan allows: a plan of zero attempts still makes one.
pub open spec fn attempts_allowed(tries: u16) -> nat {
    if tries == 0 {
        1
    } else {
        tries as nat
    }
}

/// What a whole `retry` call did: how often the operation ran, the waits between the
/// runs in order, and the result the caller got.
pub struct RetryRun<U> {
    pub invocations: nat,
    pub waits: Seq<u64>,
    pub result: BusinessResult<U>,
}

impl RetryActor {
    pub closed spec fn delay_millis(&self) -> u64 {
        self.delay_millis
    }

    pub closed spec fn delivered(&self) -> bool {
        self.delivered
    }

    /// The step that follows the outcome of the attempt that `msg` asked for.
    pub open spec fn step_of<U>(self, msg: Try, outcome: BusinessResult<U>) -> RetryStep<U> {
        if outcome is Err && msg.0 > 1 {
            RetryStep::RetryLater(Try((msg.0 - 1) as u16), self.delay_millis())
        } else if self.delivered() {
            RetryStep::Dropped
        } else {
            RetryStep::Deliver(outcome)
        }
    }

    /// Whether the caller has its answer once `step` is taken.
    pub open spec fn delivered_after<U>(self, step: RetryStep<U>) -> bool {
        self.delivered() || step is Deliver
    }

    /// Decides what follows the outcome of one attempt. A success, or a failure of the
    /// last attempt allowed, goes to the caller unchanged, once; a failure with
    /// attempts left asks for the next attempt after the fixed delay.
    pub fn handle<U>(&mut self, msg: Try, outcome: BusinessResult<U>) -> (step: RetryStep<U>)
        ensures
            step == old(self).step_of(msg, outcome),
            final(self).delay_millis() == old(self).delay_millis(),
            final(self).delivered() == old(self).delivered_after(step),
    {
        match outcome {
            Ok(value) => {
                if self.delivered {
                    RetryStep::Dropped
                } else {
                    self.delivered = true;
                    RetryStep::Deliver(Ok(value))
                }
            },
            Err(problem) => {
                if msg.0 > 1 {
                    RetryStep::RetryLater(Try(msg.0 - 1), self.delay_millis)
                } else if self.delivered {
                    RetryStep::Dropped
                } else {
                    self.delivered = true;
                    RetryStep::Deliver(Err(problem))
                }
            },
        }
    }

    /// The whole call that starts with `msg` in state `self`, when the attempts yield
    /// `outcomes` in order; `None` where `outcomes` ends before the caller is answered.
    pub open spec fn run<U>(self, msg: Try, outcomes: Seq<BusinessResult<U>>) -> Option<
        RetryRun<U>,
    >
        decreases outcomes.len(),
    {
        if outcomes.len() == 0 {
            None
        } else {
            match self.step_of(msg, outcomes[0]) {
                RetryStep::Deliver(result) => Some(
                    RetryRun { invocations: 1, waits: Seq::empty(), result },
                ),
                RetryStep::RetryLater(next, delay) => match self.run(next, outcomes.skip(1)) {
                    Some(rest) => Some(
                        RetryRun {
                            invocations: rest.invocations + 1,
                            waits: seq![delay] + rest.waits,
                            result: rest.result,
                        },
                    ),
                    None => None,
                },
                RetryStep::Dropped => None,
            }
        }
    }
}

impl Retrier {
    pub closed spec fn spec_tries(&self) -> u16 {
        self.tries
    }

    pub closed spec fn spec_delay_millis(&self) -> u64 {
        self.delay_millis
    }

    /// A plan of `tries` attempts with `delay_millis` milliseconds between two of them.
    pub fn new(tries: u16, delay_millis: u64) -> (r: Retrier)
        ensures
            r.spec_tries() == tries,
            r.spec_delay_millis() == delay_millis,
    {
        Retrier { tries, delay_millis }
    }

    #[verifier::when_used_as_spec(spec_tries)]
    pub fn tries(&self) -> (n: u16)
        ensures
            n == self.spec_tries(),
    {
        self.tries
    }

    #[verifier::when_used_as_spec(spec_delay_millis)]
    pub fn delay_millis(&self) -> (d: u64)
        ensures
            d == self.spec_delay_millis(),
    {
        self.delay_millis
    }

    /// The state in which a call begins.
    pub open spec fn initial_actor(self) -> RetryActor {
        RetryActor::starting(self.spec_delay_millis())
    }

    /// The state of a fresh call and the message that asks for its first attempt.
    pub fn start(&self) -> (begin: (RetryActor, Try))
        ensures
            begin.0 == self.initial_actor(),
            begin.1.0 == self.spec_tries(),
    {
        (RetryActor { delay_millis: self.delay_millis, delivered: false }, Try(self.tries))
    }

    /// The call this plan makes when the attempts yield `outcomes` in order.
    pub open spec fn run<U>(self, outcomes: Seq<BusinessResult<U>>) -> Option<RetryRun<U>> {
        self.initial_actor().run(Try(self.spec_tries()), outcomes)
    }

    /// Runs `factory` on `context` until it succeeds or the plan's attempts are used
    /// up, and calls `pause` with the fixed delay between two attempts. The runs of
    /// `factory` yield a sequence of outcomes; the call is the one the plan makes
    /// of exactly these outcomes, it ends with the last of them, and its result is
    /// the result of that call. `pause` has been called for each wait of the call.
    pub fn retry<C, U, F, P>(&self, context: C, factory: F, pause: P) -> (r: BusinessResult<U>)
        where F: Fn(&C) -> BusinessResult<U>, P: Fn(u64)
        requires
            factory.requires((&context,)),
            pause.requires((self.spec_delay_millis(),)),
        ensures
            factory.ensures((&context,), r),
            exists|outcomes: Seq<BusinessResult<U>>|
                (forall|i: int|
                    0 <= i < outcomes.len() ==> factory.ensures(
                        (&context,),
                        #[trigger] outcomes[i],
                    )) && (#[trigger] self.run(outcomes)) is Some && self.run(
                    outcomes,
                ).unwrap().invocations == outcomes.len() && self.run(outcomes).unwrap().result
                    == r && (forall|k: int|
                    0 <= k < self.run(outcomes).unwrap().waits.len() ==> pause.ensures(
                        (#[trigger] self.run(outcomes).unwrap().waits[k],),
                        (),
                    )),
    {
        let (mut actor, mut msg) = self.start();
        let ghost mut trace: Seq<BusinessResult<U>> = Seq::empty();
        proof {
            RetryActor::lemma_starting(self.spec_delay_millis());
        }
        loop
            invariant
                !actor.delivered(),
                actor.delay_millis() == self.spec_delay_millis(),
                factory.requires((&context,)),
                pause.requires((self.spec_delay_millis(),)),
                trace.len() + attempts_allowed(msg.0) == attempts_allowed(self.spec_tries()),
                forall|i: int|
                    0 <= i < trace.len() ==> (#[trigger] trace[i]) is Err && factory.ensures(
                        (&context,),
                        trace[i],
                    ),
                trace.len() > 0 ==> pause.ensures((self.spec_delay_millis(),), ()),
            decreases msg.0,
        {
            let outcome = factory(&context);
            let ghost seen = outcome;
            let ghost before = trace;
            proof {
                trace = trace.push(seen);
            }
            match actor.handle(msg, outcome) {
                RetryStep::Deliver(result) => {
                    proof {
                        assert(result == seen);
                        let failures = before.len();
                        assert forall|i: int| 0 <= i < failures implies trace[i] is Err by {
                            assert(trace[i] == before[i]);
                        }
                        assert forall|i: int| 0 <= i < trace.len() implies factory.ensures(
                            (&context,),
                            #[trigger] trace[i],
                        ) by {
                            if i < failures {
                                assert(trace[i] == before[i]);
                            }
                        }
                        if seen is Ok {
                            self.lemma_success_ends_the_call(trace, failures);
                        } else {
                            self.lemma_all_attempts_fail(trace);
                        }
                        let done = self.run(trace).unwrap();
                        assert(done.invocations == trace.len());
                        assert(done.result == result);
                        assert forall|k: int| 0 <= k < done.waits.len() implies pause.ensures(
                            (#[trigger] done.waits[k],),
                            (),
                        ) by {
                            assert(done.waits[k] == self.spec_delay_millis());
                        }
                    }
                    return result;
                },
                RetryStep::RetryLater(next, delay) => {
                    pause(delay);
                    msg = next;
                    proof {
                        assert forall|i: int| 0 <= i < trace.len() implies (#[trigger] trace[i])
                             is Err && factory.ensures((&context,), trace[i]) by {
                            if i < before.len() {
                                assert(trace[i] == before[i]);
                            }
                        }
                    }
                },
                RetryStep::Dropped => {
                    assert(false);
                },
            }
        }
    }
}

impl RetryActor {
    /// The state of a call that has not answered yet.
    pub closed spec fn starting(delay_millis: u64) -> RetryActor {
        RetryActor { delay_millis, delivered: false }
    }

    pub proof fn lemma_starting(delay_millis: u64)
        ensures
            Self::starting(delay_millis).delay_millis() == delay_millis,
            !Self::starting(delay_millis).delivered(),
    {
    }
}

impl Default for Retrier {
    /// Five attempts, half a second apart.
    fn default() -> (r: Retrier)
        ensures
            r.spec_tries() == 5,
            r.spec_delay_millis() == 500,
    {
        Retrier { tries: 5, delay_millis: 500 }
    }
}

impl RetryActor {
    /// Every call that answers has run the operation at least once and at most as
    /// often as the message allows, has waited the fixed delay between any two runs,
    /// has stopped at the first success, and answers with the outcome of its last run.
    pub proof fn lemma_run_shape<U>(self, msg: Try, outcomes: Seq<BusinessResult<U>>)
        requires
            !self.delivered(),
        ensures
            match self.run(msg, outcomes) {
                Some(done) => {
                    &&& 1 <= done.invocations <= attempts_allowed(msg.0)
                    &&& done.invocations <= outcomes.len()
                    &&& done.waits.len() == done.invocations - 1
                    &&& forall|i: int|
                        0 <= i < done.waits.len() ==> done.waits[i] == self.delay_millis()
                    &&& forall|i: int| 0 <= i < done.invocations - 1 ==> outcomes[i] is Err
                    &&& done.result == outcomes[done.invocations - 1]
                    &&& done.result is Ok || done.invocations == attempts_allowed(msg.0)
                },
                None => outcomes.len() < attempts_allowed(msg.0) && forall|i: int|
                    0 <= i < outcomes.len() ==> outcomes[i] is Err,
            },
        decreases outcomes.len(),
    {
        if outcomes.len() > 0 {
            match self.step_of(msg, outcomes[0]) {
                RetryStep::RetryLater(next, delay) => {
                    let rest = outcomes.skip(1);
                    self.lemma_run_shape(next, rest);
                    match self.run(next, rest) {
                        Some(tail) => {
                            let done = self.run(msg, outcomes).unwrap();
                            assert forall|i: int| 0 <= i < done.waits.len() implies done.waits[i]
                                == self.delay_millis() by {
                                if i > 0 {
                                    assert(done.waits[i] == tail.waits[i - 1]);
                                }
                            }
                            assert forall|i: int| 0 <= i < done.invocations - 1 implies outcomes[i]
                                 is Err by {
                                if i > 0 {
                                    assert(outcomes[i] == rest[i - 1]);
                                }
                            }
                            assert(rest[tail.invocations - 1] == outcomes[tail.invocations as int]);
                        },
                        None => {
                            assert forall|i: int| 0 <= i < outcomes.len() implies outcomes[i]
                                 is Err by {
                                if i > 0 {
                                    assert(outcomes[i] == rest[i - 1]);
                                }
                            }
                        },
                    }
                },
                _ => {},
            }
        }
    }
}

impl Retrier {
    /// Against an operation that fails every time, the plan runs it exactly as often
    /// as it allows, waits the fixed delay between any two runs, and answers with the
    /// failure of the last run.
    pub proof fn lemma_all_attempts_fail<U>(self, outcomes: Seq<BusinessResult<U>>)
        requires
            outcomes.len() >= attempts_allowed(self.spec_tries()),
            forall|i: int| 0 <= i < attempts_allowed(self.spec_tries()) ==> outcomes[i] is Err,
        ensures
            self.run(outcomes) is Some,
            self.run(outcomes).unwrap().invocations == attempts_allowed(self.spec_tries()),
            self.run(outcomes).unwrap().waits == Seq::new(
                (attempts_allowed(self.spec_tries()) - 1) as nat,
                |i: int| self.spec_delay_millis(),
            ),
            self.run(outcomes).unwrap().result == outcomes[attempts_allowed(self.spec_tries())
                - 1],
    {
        RetryActor::lemma_starting(self.spec_delay_millis());
        self.initial_actor().lemma_run_shape(Try(self.spec_tries()), outcomes);
        let done = self.run(outcomes).unwrap();
        assert(done.result is Err);
        assert(done.waits =~= Seq::new(
            (attempts_allowed(self.spec_tries()) - 1) as nat,
            |i: int| self.spec_delay_millis(),
        ));
    }

    /// Against an operation that fails `failures` times and then succeeds, with
    /// `failures` below the number of attempts allowed, the plan runs it exactly
    /// `failures + 1` times and answers with the success.
    pub proof fn lemma_success_ends_the_call<U>(
        self,
        outcomes: Seq<BusinessResult<U>>,
        failures: nat,
    )
        requires
            failures < attempts_allowed(self.spec_tries()),
            failures < outcomes.len(),
            forall|i: int| 0 <= i < failures ==> outcomes[i] is Err,
            outcomes[failures as int] is Ok,
        ensures
            self.run(outcomes) is Some,
            self.run(outcomes).unwrap().invocations == failures + 1,
            self.run(outcomes).unwrap().waits == Seq::new(
                failures,
                |i: int| self.spec_delay_millis(),
            ),
            self.run(outcomes).unwrap().result == outcomes[failures as int],
    {
        RetryActor::lemma_starting(self.spec_delay_millis());
        self.initial_actor().lemma_run_shape(Try(self.spec_tries()), outcomes);
        let done = self.run(outcomes).unwrap();
        if done.invocations < failures + 1 {
            assert(outcomes[done.invocations - 1] is Err);
        }
        assert(done.waits =~= Seq::new(failures, |i: int| self.spec_delay_millis()));
    }

    /// The call a plan makes runs the operation at least once and at most as often
    /// as the plan allows, waits the plan's delay between any two runs, stops at the
    /// first success, and answers with the outcome of its last run: a success, or
    /// the failure of the last attempt allowed.
    pub proof fn lemma_call_shape<U>(self, outcomes: Seq<BusinessResult<U>>)
        requires
            self.run(outcomes) is Some,
        ensures
            1 <= self.run(outcomes).unwrap().invocations <= attempts_allowed(self.spec_tries()),
            self.run(outcomes).unwrap().invocations <= outcomes.len(),
            self.run(outcomes).unwrap().waits == Seq::new(
                (self.run(outcomes).unwrap().invocations - 1) as nat,
                |i: int| self.spec_delay_millis(),
            ),
            forall|i: int|
                0 <= i < self.run(outcomes).unwrap().invocations - 1 ==> outcomes[i] is Err,
            self.run(outcomes).unwrap().result == outcomes[self.run(outcomes).unwrap().invocations
                - 1],
            self.run(outcomes).unwrap().result is Ok || self.run(outcomes).unwrap().invocations
                == attempts_allowed(self.spec_tries()),
    {
        RetryActor::lemma_starting(self.spec_delay_millis());
        self.initial_actor().lemma_run_shape(Try(self.spec_tries()), outcomes);
        let done = self.run(outcomes).unwrap();
        assert(done.waits =~= Seq::new(
            (done.invocations - 1) as nat,
            |i: int| self.spec_delay_millis(),
        ));
    }

    /// A call never runs the operation more often than the plan allows, and it
    /// answers whenever the operation yields that many outcomes.
    pub proof fn lemma_attempts_are_bounded<U>(self, outcomes: Seq<BusinessResult<U>>)
        ensures
            self.run(outcomes) is Some ==> self.run(outcomes).unwrap().invocations
                <= attempts_allowed(self.spec_tries()),
            outcomes.len() >= attempts_allowed(self.spec_tries()) ==> self.run(outcomes) is Some,
    {
        RetryActor::lemma_starting(self.spec_delay_millis());
        self.initial_actor().lemma_run_shape(Try(self.spec_tries()), outcomes);
    }
}

} // verus!
