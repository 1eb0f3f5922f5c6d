//! In which order the clients are asked, and when that is over.
use vstd::prelude::*;

verus! {

/// Clients that are asked in turn: how many there are, and which of them is next.
#[derive(Debug)]
pub struct Rotation {
    pub clients: usize,
    pub next: usize,
}

/// The order in which clients are asked, beginning with that one: all of them, in a circle.
pub open spec fn order_from(start: int, clients: int) -> Seq<int> {
    Seq::new(clients as nat, |k: int| (start + k) % clients)
}

/// The clients of a list, as numbers.
pub open spec fn numbers(order: Seq<usize>) -> Seq<int> {
    order.map_values(|k: usize| k as int)
}

impl Rotation {
    /// Whether the client that is next is one of them.
    pub open spec fn is_valid(&self) -> bool {
        self.clients == 0 || self.next < self.clients
    }

    pub fn new(clients: usize) -> (r: Rotation)
        ensures
            r.is_valid(),
            r.clients == clients,
            r.next == 0,
    {
        Rotation { clients, next: 0 }
    }

    /// The order in which the clients are asked for a request, until one of them answers. The
    /// next request begins with the next client.
    pub fn take_turn(&mut self) -> (r: Vec<usize>)
        requires
            old(self).is_valid(),
        ensures
            final(self).is_valid(),
            final(self).clients == old(self).clients,
            final(self).next == if old(self).clients == 0 {
                old(self).next as int
            } else {
                (old(self).next + 1) % (old(self).clients as int)
            },
            numbers(r@) == order_from(old(self).next as int, old(self).clients as int),
            r@.len() == old(self).clients,
            old(self).clients > 0 ==> r@[0] == old(self).next,
            old(self).clients > 1 ==> r@[1] == final(self).next,
    {
        let n: usize = self.clients;
        let mut order: Vec<usize> = Vec::new();
        let mut k: usize = 0;
        let mut at: usize = self.next;
        proof {
            if n > 0 {
                vstd::arithmetic::div_mod::lemma_small_mod(self.next as nat, n as nat);
            }
        }
        while k < n
            invariant
                k <= n,
                n > 0 ==> at < n,
                n > 0 ==> at == (self.next + k) % (n as int),
                n > 0 ==> self.next < n,
                numbers(order@) == order_from(self.next as int, n as int).take(k as int),
            decreases n - k,
        {
            let ghost earlier = order@;
            order.push(at);
            assert(numbers(order@) == numbers(earlier).push(at as int));
            at = if at + 1 == n {
                0
            } else {
                at + 1
            };
            k = k + 1;
            proof {
                lemma_next_place(self.next + k - 1, n as int);
            }
        }
        assert(order_from(self.next as int, n as int).take(k as int) == order_from(
            self.next as int,
            n as int,
        ));
        if n > 0 {
            proof {
                lemma_next_place(self.next as int, n as int);
            }
            proof {
                let taken = order_from(self.next as int, n as int);
                assert(order@.len() == numbers(order@).len());
                assert(numbers(order@)[0] == taken[0]);
                if n > 1 {
                    assert(numbers(order@)[1] == taken[1]);
                }
            }
            self.next = if self.next + 1 == n {
                0
            } else {
                self.next + 1
            };
        }
        assert(order@.len() == numbers(order@).len());
        order
    }
}

proof fn lemma_next_place(a: int, n: int)
    requires
        0 <= a,
        0 < n,
    ensures
        (a + 1) % n == if a % n + 1 == n {
            0
        } else {
            a % n + 1
        },
{
    let q = a / n;
    let m = a % n;
    vstd::arithmetic::div_mod::lemma_fundamental_div_mod(a, n);
    if m + 1 == n {
        assert(a + 1 == n * (q + 1)) by (nonlinear_arith)
            requires
                a == n * q + m,
                m + 1 == n,
        ;
        vstd::arithmetic::div_mod::lemma_fundamental_div_mod_converse(a + 1, n, q + 1, 0);
    } else {
        vstd::arithmetic::div_mod::lemma_fundamental_div_mod_converse(a + 1, n, q, m + 1);
    }
}

/// Whichever client a request begins with, every client is asked before it fails, and none of
/// them twice.
pub proof fn law_every_client_is_asked_once(start: int, clients: int, client: int)
    requires
        0 <= start < clients,
        0 <= client < clients,
    ensures
        ({
            let k = if client >= start {
                client - start
            } else {
                client - start + clients
            };
            &&& order_from(start, clients)[k] == client
            &&& forall|j: int|
                0 <= j < clients && j != k ==> #[trigger] order_from(start, clients)[j] != client
        }),
{
    let k = if client >= start {
        client - start
    } else {
        client - start + clients
    };
    assert forall|j: int| 0 <= j < clients implies #[trigger] order_from(start, clients)[j] == if start
        + j < clients {
        start + j
    } else {
        start + j - clients
    } by {
        if start + j < clients {
            vstd::arithmetic::div_mod::lemma_small_mod((start + j) as nat, clients as nat);
        } else {
            vstd::arithmetic::div_mod::lemma_fundamental_div_mod_converse(
                start + j,
                clients,
                1,
                start + j - clients,
            );
        }
    }
    assert(0 <= k < clients);
}

/// What is done next for a request: a client is asked, or the request is answered, or it
/// fails.
#[derive(Debug)]
pub enum AskAction {
    Ask(usize),
    Answer(String),
    Fail(String),
}

/// What is done next for a request.
#[verifier::ext_equal]
pub enum AskView {
    Ask(int),
    Answer(Seq<char>),
    Fail(Seq<char>),
}

impl View for AskAction {
    type V = AskView;

    open spec fn view(&self) -> AskView {
        match self {
            AskAction::Ask(client) => AskView::Ask(*client as int),
            AskAction::Answer(answer) => AskView::Answer(answer@),
            AskAction::Fail(error) => AskView::Fail(error@),
        }
    }
}

/// What a client answered, or why it failed.
pub open spec fn outcome_view(outcome: Result<String, String>) -> Result<Seq<char>, Seq<char>> {
    match outcome {
        Ok(answer) => Ok(answer@),
        Err(error) => Err(error@),
    }
}

/// What the client that was asked last answered, or why it failed, where one was asked.
pub open spec fn last_view(last: Option<Result<String, String>>) -> Option<
    Result<Seq<char>, Seq<char>>,
> {
    match last {
        Some(outcome) => Some(outcome_view(outcome)),
        None => None,
    }
}

/// What is done next, where so many clients of an order were asked and that came of the last
/// one: an answer is handed out, else the next client is asked. Where there is none, the
/// request fails as the last client did.
pub open spec fn next_step(
    order: Seq<int>,
    asked: int,
    last: Option<Result<Seq<char>, Seq<char>>>,
) -> AskView {
    match last {
        Some(Ok(answer)) => AskView::Answer(answer),
        Some(Err(error)) => if asked < order.len() {
            AskView::Ask(order[asked])
        } else {
            AskView::Fail(error)
        },
        None => if asked < order.len() {
            AskView::Ask(order[asked])
        } else {
            AskView::Fail("no Gemini client is configured"@)
        },
    }
}

/// A request that goes from client to client: the order, and how many were asked.
#[derive(Debug)]
pub struct Failover {
    pub order: Vec<usize>,
    pub asked: usize,
}

impl Failover {
    pub fn new(order: Vec<usize>) -> (r: Failover)
        ensures
            r.order == order,
            r.asked == 0,
    {
        Failover { order, asked: 0 }
    }

    /// Takes note of what came of the client that was asked last, if one was.
    pub fn step(&mut self, last: Option<Result<String, String>>) -> (action: AskAction)
        ensures
            final(self).order == old(self).order,
            action@ == next_step(numbers(old(self).order@), old(self).asked as int, last_view(last)),
            final(self).asked == if action is Ask {
                old(self).asked + 1
            } else {
                old(self).asked as int
            },
    {
        if let Some(Ok(answer)) = last {
            return AskAction::Answer(answer);
        }
        if self.asked < self.order.len() {
            let client: usize = self.order[self.asked];
            self.asked = self.asked + 1;
            return AskAction::Ask(client);
        }
        match last {
            Some(Err(error)) => AskAction::Fail(error),
            _ => AskAction::Fail("no Gemini client is configured".to_owned()),
        }
    }
}

/// What becomes of a request for which so many clients were asked, where that came of the
/// last one and those are the outcomes of the clients, in their order.
pub open spec fn outcome_from(
    order: Seq<int>,
    outcomes: Seq<Result<Seq<char>, Seq<char>>>,
    asked: int,
    last: Option<Result<Seq<char>, Seq<char>>>,
) -> Result<Seq<char>, Seq<char>>
    decreases order.len() - asked,
{
    match next_step(order, asked, last) {
        AskView::Ask(_) => if asked < order.len() {
            outcome_from(order, outcomes, asked + 1, Some(outcomes[asked]))
        } else {
            Err(Seq::empty())
        },
        AskView::Answer(answer) => Ok(answer),
        AskView::Fail(error) => Err(error),
    }
}

proof fn lemma_clients_that_fail_are_passed_over(
    order: Seq<int>,
    outcomes: Seq<Result<Seq<char>, Seq<char>>>,
    asked: int,
    last: Option<Result<Seq<char>, Seq<char>>>,
    k: int,
)
    requires
        0 <= asked <= k < order.len(),
        order.len() == outcomes.len(),
        !(last matches Some(Ok(_))),
        forall|i: int| asked <= i < k ==> #[trigger] outcomes[i] is Err,
    ensures
        outcome_from(order, outcomes, asked, last) == outcome_from(
            order,
            outcomes,
            k + 1,
            Some(outcomes[k]),
        ),
    decreases k - asked,
{
    if asked < k {
        assert(outcomes[asked] is Err);
        lemma_clients_that_fail_are_passed_over(
            order,
            outcomes,
            asked + 1,
            Some(outcomes[asked]),
            k,
        );
    }
}

/// The first client that answers gives the answer to a request.
pub proof fn law_first_answer_is_the_answer(
    order: Seq<int>,
    outcomes: Seq<Result<Seq<char>, Seq<char>>>,
    k: int,
)
    requires
        order.len() == outcomes.len(),
        0 <= k < order.len(),
        outcomes[k] is Ok,
        forall|i: int| 0 <= i < k ==> #[trigger] outcomes[i] is Err,
    ensures
        outcome_from(order, outcomes, 0, None) == outcomes[k],
{
    lemma_clients_that_fail_are_passed_over(order, outcomes, 0, None, k);
}

/// A request fails only where every client failed, and as the last of them did.
pub proof fn law_requests_fail_when_all_clients_fail(
    order: Seq<int>,
    outcomes: Seq<Result<Seq<char>, Seq<char>>>,
)
    requires
        order.len() == outcomes.len(),
        order.len() > 0,
    ensures
        outcome_from(order, outcomes, 0, None) is Err <==> forall|i: int|
            0 <= i < outcomes.len() ==> #[trigger] outcomes[i] is Err,
        outcome_from(order, outcomes, 0, None) is Err ==> outcome_from(order, outcomes, 0, None)
            == outcomes.last(),
{
    if forall|i: int| 0 <= i < outcomes.len() ==> #[trigger] outcomes[i] is Err {
        let k = outcomes.len() - 1;
        lemma_clients_that_fail_are_passed_over(order, outcomes, 0, None, k);
        assert(outcomes[k] is Err);
    } else {
        lemma_first_answer_exists(outcomes, outcomes.len() as int);
        let k = choose|k: int|
            0 <= k < outcomes.len() && #[trigger] outcomes[k] is Ok && forall|i: int|
                0 <= i < k ==> #[trigger] outcomes[i] is Err;
        law_first_answer_is_the_answer(order, outcomes, k);
    }
}

proof fn lemma_first_answer_exists(outcomes: Seq<Result<Seq<char>, Seq<char>>>, n: int)
    requires
        0 <= n <= outcomes.len(),
        exists|i: int| 0 <= i < n && !(#[trigger] outcomes[i] is Err),
    ensures
        exists|k: int|
            0 <= k < outcomes.len() && #[trigger] outcomes[k] is Ok && forall|i: int|
                0 <= i < k ==> #[trigger] outcomes[i] is Err,
    decreases n,
{
    if n > 0 {
        if exists|i: int| 0 <= i < n - 1 && !(#[trigger] outcomes[i] is Err) {
            lemma_first_answer_exists(outcomes, n - 1);
        } else {
            assert(outcomes[n - 1] is Ok);
        }
    }
}

/// The clients are asked one after the other in the order that was taken, each one once the
/// one before it has failed, and none after an answer.
pub proof fn law_clients_are_asked_in_their_order(
    order: Seq<int>,
    asked: int,
    error: Seq<char>,
    answer: Seq<char>,
)
    requires
        0 <= asked <= order.len(),
    ensures
        asked < order.len() ==> next_step(order, asked, None) == AskView::Ask(order[asked]),
        asked < order.len() ==> next_step(order, asked, Some(Err(error))) == AskView::Ask(
            order[asked],
        ),
        asked == order.len() ==> next_step(order, asked, Some(Err(error))) == AskView::Fail(error),
        next_step(order, asked, Some(Ok(answer))) == AskView::Answer(answer),
{
}

/// A request begins with the client whose turn it is, and goes on with the one after it, the
/// first one after the last.
pub proof fn law_turns_go_round(start: int, clients: int, k: int)
    requires
        0 <= start < clients,
        0 <= k < clients,
    ensures
        order_from(start, clients).len() == clients,
        order_from(start, clients)[0] == start,
        k + 1 < clients ==> order_from(start, clients)[k + 1] == if order_from(start, clients)[k]
            + 1 == clients {
            0
        } else {
            order_from(start, clients)[k] + 1
        },
{
    vstd::arithmetic::div_mod::lemma_small_mod(start as nat, clients as nat);
    lemma_next_place(start + k, clients);
}

} // verus!
