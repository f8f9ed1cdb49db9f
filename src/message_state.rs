//! Routing of one inbound message along a chain of handlers, of which at most
//! one runs: the first that claims the message.

use vstd::prelude::*;

verus! {

/// Identifier that ties a response to its request.
#[derive(Debug, PartialEq, Eq)]
pub enum RequestId {
    Num(i32),
    Text(String),
}

/// A message that asks for no answer.
#[derive(Debug, PartialEq, Eq)]
pub struct Notification<P> {
    pub method: String,
    pub params: P,
}

/// A message that asks for an answer.
#[derive(Debug, PartialEq, Eq)]
pub struct Request<P> {
    pub id: RequestId,
    pub method: String,
    pub params: P,
}

/// The answer to a request.
#[derive(Debug, PartialEq, Eq)]
pub struct Response<V> {
    pub id: RequestId,
    pub result: Option<V>,
}

/// A message on its way along a chain of handlers.
#[derive(Debug, PartialEq, Eq)]
pub enum MessageState<I, O> {
    /// No handler has claimed the input yet.
    Unhandled(I),
    /// A handler has run and left this output.
    Handled(O),
}

/// What a `handle` call that returns `Ok` leaves of the state `before`, where
/// `claims` tells whether the handler's method is the message's and its
/// decoder accepted the payload: a claimed unhandled message is handled, and
/// everything else passes through unchanged.
pub open spec fn handle_step<I, O>(
    before: MessageState<I, O>,
    claims: bool,
    after: MessageState<I, O>,
) -> bool {
    match before {
        MessageState::Unhandled(_) => if claims {
            after is Handled
        } else {
            after == before
        },
        MessageState::Handled(_) => after == before,
    }
}

/// A step of `handle` on a notification by the handler for `method`, whose
/// decoder accepts the payload or not.
pub open spec fn notification_step<P>(
    before: MessageState<Notification<P>, ()>,
    method: Seq<char>,
    accepted: bool,
    after: MessageState<Notification<P>, ()>,
) -> bool {
    handle_step(before, before is Unhandled && before->Unhandled_0.method@ == method && accepted, after)
}

/// A step of `handle` on a request by the handler for `method`, whose
/// decoder accepts the payload or not.
pub open spec fn request_step<P, V>(
    before: MessageState<Request<P>, Response<V>>,
    method: Seq<char>,
    accepted: bool,
    after: MessageState<Request<P>, Response<V>>,
) -> bool {
    handle_step(before, before is Unhandled && before->Unhandled_0.method@ == method && accepted, after)
}

/// Along a chain, the handler at `i` claims the message: its method is the
/// message's method `m` and its decoder accepted the payload.
pub open spec fn claims_at(methods: Seq<Seq<char>>, accepted: Seq<bool>, m: Seq<char>, i: int) -> bool {
    methods[i] == m && accepted[i]
}

/// The handler at `i` runs: the message reaches it unhandled and leaves it handled.
pub open spec fn runs_at<I, O>(states: Seq<MessageState<I, O>>, i: int) -> bool {
    states[i] is Unhandled && states[i + 1] is Handled
}

/// A chain of handlers, for the methods `methods` in the order of
/// registration, took a message of method `m` from `states[0]` through each
/// state of `states` in turn.
pub open spec fn chain_run<I, O>(
    states: Seq<MessageState<I, O>>,
    methods: Seq<Seq<char>>,
    accepted: Seq<bool>,
    m: Seq<char>,
) -> bool {
    &&& states.len() == methods.len() + 1
    &&& accepted.len() == methods.len()
    &&& states[0] is Unhandled
    &&& forall|i: int|
        0 <= i < methods.len() ==> handle_step(
            #[trigger] states[i],
            claims_at(methods, accepted, m, i),
            states[i + 1],
        )
}

proof fn lemma_unhandled_until_claimed<I, O>(
    states: Seq<MessageState<I, O>>,
    methods: Seq<Seq<char>>,
    accepted: Seq<bool>,
    m: Seq<char>,
    n: int,
)
    requires
        chain_run(states, methods, accepted, m),
        0 <= n <= methods.len(),
    ensures
        states[n] is Unhandled <==> forall|j: int| 0 <= j < n ==> !claims_at(methods, accepted, m, j),
    decreases n,
{
    if n > 0 {
        lemma_unhandled_until_claimed(states, methods, accepted, m, n - 1);
        assert(handle_step(
            states[n - 1],
            claims_at(methods, accepted, m, n - 1),
            states[n],
        ));
        if !(states[n] is Unhandled) && forall|j: int|
            0 <= j < n ==> !claims_at(methods, accepted, m, j) {
            assert(forall|j: int| 0 <= j < n - 1 ==> !claims_at(methods, accepted, m, j));
        }
    }
}

/// Whatever the order in which handlers are registered, at most one of them
/// runs on a message, and the one that runs is the first whose method is the
/// message's and whose decoder accepts the payload; where every decoder
/// accepts, it is the first whose method matches. The message ends handled
/// exactly when some handler claims it.
pub proof fn lemma_first_claim_wins<I, O>(
    states: Seq<MessageState<I, O>>,
    methods: Seq<Seq<char>>,
    accepted: Seq<bool>,
    m: Seq<char>,
)
    requires
        chain_run(states, methods, accepted, m),
    ensures
        forall|i: int, j: int|
            0 <= i < j < methods.len() && #[trigger] runs_at(states, i) ==> !#[trigger] runs_at(
                states,
                j,
            ),
        forall|k: int|
            0 <= k < methods.len() && #[trigger] runs_at(states, k) ==> claims_at(methods, accepted, m, k)
                && forall|j: int| 0 <= j < k ==> !claims_at(methods, accepted, m, j),
        forall|k: int|
            0 <= k < methods.len() && #[trigger] runs_at(states, k) && (forall|j: int|
                0 <= j < methods.len() ==> accepted[j]) ==> forall|j: int| 0 <= j < k ==> methods[j] != m,
        states.last() is Handled <==> exists|k: int|
            0 <= k < methods.len() && claims_at(methods, accepted, m, k),
{
    assert forall|k: int| 0 <= k < methods.len() && #[trigger] runs_at(states, k) implies claims_at(
        methods,
        accepted,
        m,
        k,
    ) && forall|j: int| 0 <= j < k ==> !claims_at(methods, accepted, m, j) by {
        lemma_unhandled_until_claimed(states, methods, accepted, m, k);
        lemma_unhandled_until_claimed(states, methods, accepted, m, k + 1);
        if !claims_at(methods, accepted, m, k) {
            assert forall|j: int| 0 <= j < k + 1 implies !claims_at(methods, accepted, m, j) by {}
        }
    }
    assert forall|i: int, j: int|
        0 <= i < j < methods.len() && #[trigger] runs_at(states, i) implies !#[trigger] runs_at(
            states,
            j,
        ) by {
        if runs_at(states, j) {
            assert(claims_at(methods, accepted, m, i));
        }
    }
    assert forall|k: int|
        0 <= k < methods.len() && #[trigger] runs_at(states, k) && (forall|j: int|
            0 <= j < methods.len() ==> accepted[j]) implies forall|j: int|
        0 <= j < k ==> methods[j] != m by {
        assert forall|j: int| 0 <= j < k implies methods[j] != m by {
            assert(!claims_at(methods, accepted, m, j));
        }
    }
    let n = methods.len() as int;
    lemma_unhandled_until_claimed(states, methods, accepted, m, n);
    assert(states.last() == states[n]);
}

proof fn lemma_unhandled_unchanged<I, O>(states: Seq<MessageState<I, O>>, claims: Seq<bool>, n: int)
    requires
        states.len() == claims.len() + 1,
        forall|i: int|
            0 <= i < claims.len() ==> handle_step(#[trigger] states[i], claims[i], states[i + 1]),
        0 <= n <= claims.len(),
    ensures
        states[n] is Unhandled ==> states[n] == states[0],
    decreases n,
{
    if n > 0 {
        lemma_unhandled_unchanged(states, claims, n - 1);
        assert(handle_step(states[n - 1], claims[n - 1], states[n]));
    }
}

/// A run of `handle` calls on a notification, each returning `Ok`, is a chain
/// run for the message's method.
pub proof fn lemma_notification_chain<P>(
    states: Seq<MessageState<Notification<P>, ()>>,
    methods: Seq<Seq<char>>,
    accepted: Seq<bool>,
)
    requires
        states.len() == methods.len() + 1,
        accepted.len() == methods.len(),
        states[0] is Unhandled,
        forall|i: int|
            0 <= i < methods.len() ==> notification_step(
                #[trigger] states[i],
                methods[i],
                accepted[i],
                states[i + 1],
            ),
    ensures
        chain_run(states, methods, accepted, states[0]->Unhandled_0.method@),
{
    let claims = Seq::new(
        methods.len(),
        |i: int|
            states[i] is Unhandled && states[i]->Unhandled_0.method@ == methods[i] && accepted[i],
    );
    assert forall|i: int| 0 <= i < claims.len() implies handle_step(
        #[trigger] states[i],
        claims[i],
        states[i + 1],
    ) by {
        assert(notification_step(states[i], methods[i], accepted[i], states[i + 1]));
    }
    assert forall|i: int| 0 <= i < methods.len() implies handle_step(
        #[trigger] states[i],
        claims_at(methods, accepted, states[0]->Unhandled_0.method@, i),
        states[i + 1],
    ) by {
        assert(notification_step(states[i], methods[i], accepted[i], states[i + 1]));
        lemma_unhandled_unchanged(states, claims, i);
    }
}

/// A run of `handle` calls on a request, each returning `Ok`, is a chain run
/// for the message's method.
pub proof fn lemma_request_chain<P, V>(
    states: Seq<MessageState<Request<P>, Response<V>>>,
    methods: Seq<Seq<char>>,
    accepted: Seq<bool>,
)
    requires
        states.len() == methods.len() + 1,
        accepted.len() == methods.len(),
        states[0] is Unhandled,
        forall|i: int|
            0 <= i < methods.len() ==> request_step(
                #[trigger] states[i],
                methods[i],
                accepted[i],
                states[i + 1],
            ),
    ensures
        chain_run(states, methods, accepted, states[0]->Unhandled_0.method@),
{
    let claims = Seq::new(
        methods.len(),
        |i: int|
            states[i] is Unhandled && states[i]->Unhandled_0.method@ == methods[i] && accepted[i],
    );
    assert forall|i: int| 0 <= i < claims.len() implies handle_step(
        #[trigger] states[i],
        claims[i],
        states[i + 1],
    ) by {
        assert(request_step(states[i], methods[i], accepted[i], states[i + 1]));
    }
    assert forall|i: int| 0 <= i < methods.len() implies handle_step(
        #[trigger] states[i],
        claims_at(methods, accepted, states[0]->Unhandled_0.method@, i),
        states[i + 1],
    ) by {
        assert(request_step(states[i], methods[i], accepted[i], states[i + 1]));
        lemma_unhandled_unchanged(states, claims, i);
    }
}

impl<P> MessageState<Notification<P>, ()> {
    /// Offers an unhandled notification to the handler for `method`: where the
    /// methods agree and `decode` makes parameters of the payload, `handler`
    /// runs on them and its failure is passed on.
    pub fn handle<Q, E, D, F>(self, method: &str, decode: D, handler: F) -> (r: Result<Self, E>)
        where D: FnOnce(&P) -> Option<Q>, F: FnOnce(Q) -> Result<(), E>
        requires
            forall|p: &P| decode.requires((p,)),
            forall|q: Q| handler.requires((q,)),
        ensures
            r matches Ok(s) ==> exists|accepted: bool|
                #[trigger] notification_step(self, method@, accepted, s),
            self is Handled ==> r == Ok::<Self, E>(self),
            self is Unhandled && self->Unhandled_0.method@ != method@ ==> r == Ok::<Self, E>(self),
            self is Unhandled && self->Unhandled_0.method@ == method@ ==> exists|d: Option<Q>|
                #![trigger decode.ensures((&self->Unhandled_0.params,), d)]
                decode.ensures((&self->Unhandled_0.params,), d) && match d {
                    None => r == Ok::<Self, E>(self),
                    Some(q) => exists|h: Result<(), E>|
                        #![trigger handler.ensures((q,), h)]
                        handler.ensures((q,), h) && match h {
                            Ok(_) => r == Ok::<Self, E>(MessageState::Handled(())),
                            Err(e) => r == Err::<Self, E>(e),
                        },
                },
    {
        let ghost before = self;
        match self {
            MessageState::Unhandled(not) => {
                if crate::text::same_text(not.method.as_str(), method) {
                    if let Some(params) = decode(&not.params) {
                        return match handler(params) {
                            Ok(()) => {
                                let after = MessageState::Handled(());
                                assert(notification_step(before, method@, true, after));
                                Ok(after)
                            },
                            Err(e) => Err(e),
                        };
                    }
                }
                let after = MessageState::Unhandled(not);
                assert(notification_step(before, method@, false, after));
                Ok(after)
            },
            MessageState::Handled(out) => {
                let after = MessageState::Handled(out);
                assert(notification_step(before, method@, false, after));
                Ok(after)
            },
        }
    }
}

impl<P, V> MessageState<Request<P>, Response<V>> {
    /// Offers an unhandled request to the handler for `method`: where the
    /// methods agree and `decode` makes parameters of the payload, `handler`
    /// runs on them, and its result answers the request under the request's
    /// id; its failure is passed on.
    pub fn handle<Q, E, D, F>(self, method: &str, decode: D, handler: F) -> (r: Result<Self, E>)
        where D: FnOnce(&P) -> Option<Q>, F: FnOnce(Q) -> Result<V, E>
        requires
            forall|p: &P| decode.requires((p,)),
            forall|q: Q| handler.requires((q,)),
        ensures
            r matches Ok(s) ==> exists|accepted: bool|
                #[trigger] request_step(self, method@, accepted, s),
            self is Handled ==> r == Ok::<Self, E>(self),
            self is Unhandled && self->Unhandled_0.method@ != method@ ==> r == Ok::<Self, E>(self),
            self is Unhandled && self->Unhandled_0.method@ == method@ ==> exists|d: Option<Q>|
                #![trigger decode.ensures((&self->Unhandled_0.params,), d)]
                decode.ensures((&self->Unhandled_0.params,), d) && match d {
                    None => r == Ok::<Self, E>(self),
                    Some(q) => exists|h: Result<V, E>|
                        #![trigger handler.ensures((q,), h)]
                        handler.ensures((q,), h) && match h {
                            Ok(v) => r == Ok::<Self, E>(
                                MessageState::Handled(
                                    Response { id: self->Unhandled_0.id, result: Some(v) },
                                ),
                            ),
                            Err(e) => r == Err::<Self, E>(e),
                        },
                },
    {
        let ghost before = self;
        match self {
            MessageState::Unhandled(req) => {
                if crate::text::same_text(req.method.as_str(), method) {
                    if let Some(params) = decode(&req.params) {
                        return match handler(params) {
                            Ok(v) => {
                                let after = MessageState::Handled(Response { id: req.id, result: Some(v) });
                                assert(request_step(before, method@, true, after));
                                Ok(after)
                            },
                            Err(e) => Err(e),
                        };
                    }
                }
                let after = MessageState::Unhandled(req);
                assert(request_step(before, method@, false, after));
                Ok(after)
            },
            MessageState::Handled(out) => {
                let after = MessageState::Handled(out);
                assert(request_step(before, method@, false, after));
                Ok(after)
            },
        }
    }
}

} // verus!
