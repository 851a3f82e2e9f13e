use vstd::prelude::*;

use crate::routing::{key_of, queue_name, routing_key, topic_match, topic_matches};

verus! {

/// How an exchange routes the messages published to it.
#[derive(Clone, Copy, Debug, PartialEq, Eq, Structural)]
pub enum ExchangeKind {
    Topic,
    Direct,
    Fanout,
}

/// Why a declaration was refused.
#[derive(Clone, Copy, Debug, PartialEq, Eq, Structural)]
pub enum TopologyError {
    /// The exchange exists with another kind or durability.
    ExchangeMismatch,
    /// The queue exists with another durability.
    QueueMismatch,
}

/// A declared exchange and how it routes.
pub struct ExchangeDecl {
    pub name: String,
    pub kind: ExchangeKind,
    pub durable: bool,
}

/// A declared queue and whether it outlives a broker restart.
pub struct QueueDecl {
    pub name: String,
    pub durable: bool,
}

/// A queue bound to an exchange: the exchange delivers to `queue` the
/// messages whose routing key matches `pattern`.
pub struct QueueBinding {
    pub exchange: String,
    pub queue: String,
    pub pattern: String,
}

pub type BindingView = (Seq<char>, Seq<char>, Seq<char>);

impl QueueBinding {
    pub open spec fn view(&self) -> BindingView {
        (self.exchange@, self.queue@, self.pattern@)
    }
}

/// What a broker holds: exchanges with their kind and durability, queues with their
/// durability, and bindings.
pub struct TopologyView {
    pub exchanges: Seq<(Seq<char>, (ExchangeKind, bool))>,
    pub queues: Seq<(Seq<char>, bool)>,
    pub bindings: Seq<BindingView>,
}

/// The exchanges, queues and bindings that have been declared on a broker.
pub struct Topology {
    pub exchanges: Vec<ExchangeDecl>,
    pub queues: Vec<QueueDecl>,
    pub bindings: Vec<QueueBinding>,
}

pub open spec fn declare_exchange_spec(
    es: Seq<(Seq<char>, (ExchangeKind, bool))>,
    name: Seq<char>,
    kind: ExchangeKind,
    durable: bool,
) -> Result<Seq<(Seq<char>, (ExchangeKind, bool))>, TopologyError> {
    if es.contains((name, (kind, durable))) {
        Ok(es)
    } else if exists|i: int| 0 <= i < es.len() && es[i].0 == name {
        Err(TopologyError::ExchangeMismatch)
    } else {
        Ok(es.push((name, (kind, durable))))
    }
}

pub open spec fn declare_queue_spec(qs: Seq<(Seq<char>, bool)>, name: Seq<char>, durable: bool) -> Result<
    Seq<(Seq<char>, bool)>,
    TopologyError,
> {
    if qs.contains((name, durable)) {
        Ok(qs)
    } else if exists|i: int| 0 <= i < qs.len() && qs[i].0 == name {
        Err(TopologyError::QueueMismatch)
    } else {
        Ok(qs.push((name, durable)))
    }
}

pub open spec fn bind_spec(bs: Seq<BindingView>, b: BindingView) -> Seq<BindingView> {
    if bs.contains(b) {
        bs
    } else {
        bs.push(b)
    }
}

/// The binding of the queue of `kind` for `org` to `exchange`.
pub open spec fn binding_of(exchange: Seq<char>, org: Seq<char>, kind: Seq<char>) -> BindingView {
    (exchange, key_of(org, kind), key_of(org, kind))
}

/// Declares, for each kind in turn, its durable queue and its binding.
pub open spec fn ensure_kinds(
    t: TopologyView,
    exchange: Seq<char>,
    org: Seq<char>,
    kinds: Seq<Seq<char>>,
) -> Result<TopologyView, TopologyError>
    decreases kinds.len(),
{
    if kinds.len() == 0 {
        Ok(t)
    } else {
        match ensure_kinds(t, exchange, org, kinds.drop_last()) {
            Err(e) => Err(e),
            Ok(t1) => match declare_queue_spec(t1.queues, key_of(org, kinds.last()), true) {
                Err(e) => Err(e),
                Ok(qs) => Ok(
                    TopologyView {
                        exchanges: t1.exchanges,
                        queues: qs,
                        bindings: bind_spec(t1.bindings, binding_of(exchange, org, kinds.last())),
                    },
                ),
            },
        }
    }
}

/// The durable topic exchange, then the queues and bindings of each kind.
pub open spec fn ensure_spec(
    t: TopologyView,
    exchange: Seq<char>,
    org: Seq<char>,
    kinds: Seq<Seq<char>>,
) -> Result<TopologyView, TopologyError> {
    match declare_exchange_spec(t.exchanges, exchange, ExchangeKind::Topic, true) {
        Err(e) => Err(e),
        Ok(es) => ensure_kinds(
            TopologyView { exchanges: es, queues: t.queues, bindings: t.bindings },
            exchange,
            org,
            kinds,
        ),
    }
}

/// Whether a message published to `exchange` under `key` is delivered to
/// `queue`.
pub open spec fn routes_to(t: TopologyView, exchange: Seq<char>, key: Seq<char>, queue: Seq<char>) -> bool {
    exists|i: int|
        0 <= i < t.bindings.len() && t.bindings[i].0 == exchange && t.bindings[i].1 == queue
            && topic_match(t.bindings[i].2, key)
}

impl View for Topology {
    type V = TopologyView;

    open spec fn view(&self) -> TopologyView {
        TopologyView {
            exchanges: self.exchanges@.map_values(|e: ExchangeDecl| (e.name@, (e.kind, e.durable))),
            queues: self.queues@.map_values(|q: QueueDecl| (q.name@, q.durable)),
            bindings: self.bindings@.map_values(|b: QueueBinding| b.view()),
        }
    }
}

/// No two entries share a name.
pub open spec fn unique_names<K>(s: Seq<(Seq<char>, K)>) -> bool {
    forall|i: int, j: int| 0 <= i < j < s.len() ==> s[i].0 != s[j].0
}

impl TopologyView {
    /// No two exchanges and no two queues share a name.
    pub open spec fn wf(&self) -> bool {
        unique_names(self.exchanges) && unique_names(self.queues)
    }
}

impl Topology {
    /// A broker on which nothing has been declared.
    pub fn new() -> (r: Topology)
        ensures
            r@.wf(),
            r@.exchanges.len() == 0,
            r@.queues.len() == 0,
            r@.bindings.len() == 0,
    {
        Topology { exchanges: Vec::new(), queues: Vec::new(), bindings: Vec::new() }
    }

    /// Declares an exchange. Declaring it again with the same kind and
    /// durability changes nothing; with other ones it is refused.
    pub fn declare_exchange(&mut self, name: &str, kind: ExchangeKind, durable: bool) -> (r: Result<(), TopologyError>)
        requires
            old(self)@.wf(),
        ensures
            final(self)@.wf(),
            match declare_exchange_spec(old(self)@.exchanges, name@, kind, durable) {
                Ok(es) => r is Ok && final(self)@ == (TopologyView { exchanges: es, ..old(self)@ }),
                Err(e) => r == Err::<(), TopologyError>(e) && final(self)@ == old(self)@,
            },
    {
        let ghost es = self@.exchanges;
        let owned = String::from_str(name);
        let mut i: usize = 0;
        while i < self.exchanges.len()
            invariant
                es == self@.exchanges,
                self@ == old(self)@,
                old(self)@.wf(),
                unique_names(es),
                owned@ == name@,
                i <= es.len(),
                forall|j: int| 0 <= j < i ==> es[j].0 != name@,
            decreases self.exchanges.len() - i,
        {
            assert(es[i as int] == (self.exchanges@[i as int].name@, (self.exchanges@[i as int].kind, self.exchanges@[i as int].durable)));
            if self.exchanges[i].name == owned {
                if self.exchanges[i].kind == kind && self.exchanges[i].durable == durable {
                    assert(es[i as int] == (name@, (kind, durable)));
                    return Ok(());
                } else {
                    assert(!es.contains((name@, (kind, durable))));
                    return Err(TopologyError::ExchangeMismatch);
                }
            }
            i += 1;
        }
        self.exchanges.push(ExchangeDecl { name: owned, kind, durable });
        proof {
            assert(self@.exchanges =~= es.push((name@, (kind, durable))));
            assert(self@.queues =~= old(self)@.queues);
            assert(self@.bindings =~= old(self)@.bindings);
        }
        Ok(())
    }

    /// Declares a queue. Declaring it again with the same durability changes
    /// nothing; with another durability it is refused.
    pub fn declare_queue(&mut self, name: &str, durable: bool) -> (r: Result<(), TopologyError>)
        requires
            old(self)@.wf(),
        ensures
            final(self)@.wf(),
            match declare_queue_spec(old(self)@.queues, name@, durable) {
                Ok(qs) => r is Ok && final(self)@ == (TopologyView { queues: qs, ..old(self)@ }),
                Err(e) => r == Err::<(), TopologyError>(e) && final(self)@ == old(self)@,
            },
    {
        let ghost qs = self@.queues;
        let owned = String::from_str(name);
        let mut i: usize = 0;
        while i < self.queues.len()
            invariant
                qs == self@.queues,
                self@ == old(self)@,
                old(self)@.wf(),
                unique_names(qs),
                owned@ == name@,
                i <= qs.len(),
                forall|j: int| 0 <= j < i ==> qs[j].0 != name@,
            decreases self.queues.len() - i,
        {
            assert(qs[i as int] == (self.queues@[i as int].name@, self.queues@[i as int].durable));
            if self.queues[i].name == owned {
                if self.queues[i].durable == durable {
                    assert(qs[i as int] == (name@, durable));
                    return Ok(());
                } else {
                    assert(!qs.contains((name@, durable)));
                    return Err(TopologyError::QueueMismatch);
                }
            }
            i += 1;
        }
        self.queues.push(QueueDecl { name: owned, durable });
        proof {
            assert(self@.queues =~= qs.push((name@, durable)));
            assert(self@.exchanges =~= old(self)@.exchanges);
            assert(self@.bindings =~= old(self)@.bindings);
        }
        Ok(())
    }

    /// Binds `queue` to `exchange` with `pattern`; a binding that exists
    /// already is kept as it is.
    pub fn bind_queue(&mut self, exchange: &str, queue: &str, pattern: &str)
        requires
            old(self)@.wf(),
        ensures
            final(self)@.wf(),
            final(self)@ == (TopologyView {
                bindings: bind_spec(old(self)@.bindings, (exchange@, queue@, pattern@)),
                ..old(self)@
            }),
    {
        let ghost bs = self@.bindings;
        let ghost b = (exchange@, queue@, pattern@);
        let ex = String::from_str(exchange);
        let qu = String::from_str(queue);
        let pa = String::from_str(pattern);
        let mut i: usize = 0;
        while i < self.bindings.len()
            invariant
                bs == self@.bindings,
                self@ == old(self)@,
                old(self)@.wf(),
                b == (exchange@, queue@, pattern@),
                ex@ == exchange@,
                qu@ == queue@,
                pa@ == pattern@,
                i <= bs.len(),
                forall|j: int| 0 <= j < i ==> bs[j] != b,
            decreases self.bindings.len() - i,
        {
            assert(bs[i as int] == self.bindings@[i as int].view());
            if self.bindings[i].exchange == ex && self.bindings[i].queue == qu
                && self.bindings[i].pattern == pa {
                assert(bs[i as int] == b);
                return ;
            }
            i += 1;
        }
        self.bindings.push(QueueBinding { exchange: ex, queue: qu, pattern: pa });
        proof {
            assert(self@.bindings =~= bs.push(b));
            assert(self@.exchanges =~= old(self)@.exchanges);
            assert(self@.queues =~= old(self)@.queues);
        }
    }

    /// Makes sure that `exchange` exists as a durable topic exchange and that, for each
    /// kind, the durable queue `<org>.<kind>` exists and is bound to it with the
    /// pattern `<org>.<kind>`. What exists already with the same parameters is
    /// kept as it is; a declaration with other parameters is refused.
    pub fn ensure_topology(&mut self, exchange: &str, org: &str, kinds: &Vec<String>) -> (r: Result<
        (),
        TopologyError,
    >)
        requires
            old(self)@.wf(),
        ensures
            match ensure_spec(old(self)@, exchange@, org@, kinds_view(kinds@)) {
                Ok(t) => r is Ok && final(self)@ == t && t.wf(),
                Err(e) => r == Err::<(), TopologyError>(e) && final(self)@.wf() && failed_state(
                    old(self)@,
                    exchange@,
                    org@,
                    kinds_view(kinds@),
                    final(self)@,
                    e,
                ),
            },
    {
        let ghost kv = kinds_view(kinds@);
        match self.declare_exchange(exchange, ExchangeKind::Topic, true) {
            Err(e) => {
                return Err(e);
            },
            Ok(()) => {},
        }
        let ghost t0 = self@;
        proof {
            assert(kv.take(0) =~= Seq::<Seq<char>>::empty());
        }
        let mut i: usize = 0;
        while i < kinds.len()
            invariant
                kv == kinds_view(kinds@),
                i <= kinds.len(),
                self@.wf(),
                t0 == (TopologyView { exchanges: t0.exchanges, queues: old(self)@.queues, bindings: old(self)@.bindings }),
                declare_exchange_spec(old(self)@.exchanges, exchange@, ExchangeKind::Topic, true) == Ok::<
                    Seq<(Seq<char>, (ExchangeKind, bool))>,
                    TopologyError,
                >(t0.exchanges),
                ensure_kinds(t0, exchange@, org@, kv.take(i as int)) == Ok::<TopologyView, TopologyError>(self@),
            decreases kinds.len() - i,
        {
            let ghost before = self@;
            let q = queue_name(org, kinds[i].as_str());
            proof {
                assert(kv.take(i + 1).drop_last() =~= kv.take(i as int));
                assert(kv.take(i + 1).last() == kinds@[i as int]@);
            }
            match self.declare_queue(q.as_str(), true) {
                Err(e) => {
                    proof {
                        lemma_error_extends(t0, exchange@, org@, kv, i + 1, e);
                        assert(kv[i as int] == kinds@[i as int]@);
                        assert(self@ == before);
                        assert(ensure_kinds(t0, exchange@, org@, kv.take(i as int)) == Ok::<TopologyView, TopologyError>(self@));
                        assert(declare_queue_spec(self@.queues, key_of(org@, kv[i as int]), true) == Err::<Seq<(Seq<char>, bool)>, TopologyError>(e));
                    }
                    return Err(e);
                },
                Ok(()) => {},
            }
            let k = routing_key(org, kinds[i].as_str());
            self.bind_queue(exchange, q.as_str(), k.as_str());
            i += 1;
        }
        proof {
            assert(kv.take(kinds.len() as int) =~= kv);
        }
        Ok(())
    }

    /// The queues that a message published to `exchange` under `key` is
    /// delivered to: those bound to it with a pattern that matches `key`.
    pub fn route(&self, exchange: &str, key: &str) -> (r: Vec<String>)
        ensures
            forall|k: int| 0 <= k < r.len() ==> routes_to(self@, exchange@, key@, #[trigger] r@[k]@),
            forall|q: Seq<char>|
                routes_to(self@, exchange@, key@, q) ==> exists|k: int| 0 <= k < r.len() && #[trigger] r@[k]@ == q,
            forall|a: int, b: int| 0 <= a < b < r.len() ==> r@[a]@ != r@[b]@,
    {
        let ghost bs = self@.bindings;
        let ex = String::from_str(exchange);
        let mut out: Vec<String> = Vec::new();
        let mut i: usize = 0;
        while i < self.bindings.len()
            invariant
                bs == self@.bindings,
                ex@ == exchange@,
                i <= bs.len(),
                forall|k: int| 0 <= k < out.len() ==> routes_to(self@, exchange@, key@, #[trigger] out@[k]@),
                forall|a: int, b: int| 0 <= a < b < out.len() ==> out@[a]@ != out@[b]@,
                forall|j: int|
                    0 <= j < i && #[trigger] bs[j].0 == exchange@ && topic_match(bs[j].2, key@) ==> exists|k: int|
                        0 <= k < out.len() && #[trigger] out@[k]@ == bs[j].1,
            decreases self.bindings.len() - i,
        {
            assert(bs[i as int] == self.bindings@[i as int].view());
            if self.bindings[i].exchange == ex && topic_matches(self.bindings[i].pattern.as_str(), key) {
                let q = self.bindings[i].queue.clone();
                if !contains_text(&out, &q) {
                    let ghost prev = out@;
                    out.push(q);
                    proof {
                        assert(out@[out.len() - 1]@ == bs[i as int].1);
                        assert forall|a: int, b: int| 0 <= a < b < out.len() implies out@[a]@ != out@[b]@ by {
                            if b < prev.len() {
                                assert(out@[a] == prev[a] && out@[b] == prev[b]);
                            } else {
                                assert(out@[a] == prev[a]);
                            }
                        }
                        assert forall|j: int|
                            0 <= j < i + 1 && #[trigger] bs[j].0 == exchange@ && topic_match(bs[j].2, key@) implies exists|k: int|
                                0 <= k < out.len() && #[trigger] out@[k]@ == bs[j].1 by {
                            if j < i {
                                let k0 = choose|k: int| 0 <= k < prev.len() && #[trigger] prev[k]@ == bs[j].1;
                                assert(out@[k0] == prev[k0]);
                            } else {
                                assert(out@[out.len() - 1]@ == bs[j].1);
                            }
                        }
                    }
                }
            }
            i += 1;
        }
        proof {
            assert forall|q: Seq<char>| routes_to(self@, exchange@, key@, q) implies exists|k: int|
                0 <= k < out.len() && #[trigger] out@[k]@ == q by {
                let j = choose|j: int|
                    0 <= j < bs.len() && bs[j].0 == exchange@ && bs[j].1 == q && topic_match(bs[j].2, key@);
                assert(bs[j].0 == exchange@);
            }
        }
        out
    }
}

/// The state after a failed ensure: nothing has changed when the exchange
/// was refused; otherwise the kinds before the failing one `n` are ensured,
/// the queue of kind `n` was refused, and nothing after it was tried.
pub open spec fn failed_state(
    old: TopologyView,
    exchange: Seq<char>,
    org: Seq<char>,
    kinds: Seq<Seq<char>>,
    now: TopologyView,
    e: TopologyError,
) -> bool {
    match declare_exchange_spec(old.exchanges, exchange, ExchangeKind::Topic, true) {
        Err(_) => now == old,
        Ok(es) => exists|n: int|
            0 <= n < kinds.len() && ensure_kinds(
                TopologyView { exchanges: es, queues: old.queues, bindings: old.bindings },
                exchange,
                org,
                kinds.take(n),
            ) == Ok::<TopologyView, TopologyError>(now) && declare_queue_spec(
                now.queues,
                key_of(org, kinds[n]),
                true,
            ) == Err::<Seq<(Seq<char>, bool)>, TopologyError>(e),
    }
}

fn contains_text(v: &Vec<String>, s: &String) -> (r: bool)
    ensures
        r == exists|k: int| 0 <= k < v.len() && #[trigger] v@[k]@ == s@,
{
    let mut i: usize = 0;
    while i < v.len()
        invariant
            i <= v.len(),
            forall|k: int| 0 <= k < i ==> #[trigger] v@[k]@ != s@,
        decreases v.len() - i,
    {
        if v[i] == *s {
            return true;
        }
        i += 1;
    }
    false
}

/// The channel kinds as text.
pub open spec fn kinds_view(kinds: Seq<String>) -> Seq<Seq<char>> {
    kinds.map_values(|k: String| k@)
}

proof fn lemma_error_extends(
    t: TopologyView,
    exchange: Seq<char>,
    org: Seq<char>,
    kinds: Seq<Seq<char>>,
    n: int,
    e: TopologyError,
)
    requires
        0 <= n <= kinds.len(),
        ensure_kinds(t, exchange, org, kinds.take(n)) == Err::<TopologyView, TopologyError>(e),
    ensures
        ensure_kinds(t, exchange, org, kinds) == Err::<TopologyView, TopologyError>(e),
    decreases kinds.len() - n,
{
    if n == kinds.len() {
        assert(kinds.take(n) =~= kinds);
    } else {
        assert(kinds.take(n + 1).drop_last() =~= kinds.take(n));
        lemma_error_extends(t, exchange, org, kinds, n + 1, e);
    }
}

proof fn lemma_kinds_grow(t: TopologyView, exchange: Seq<char>, org: Seq<char>, kinds: Seq<Seq<char>>)
    requires
        ensure_kinds(t, exchange, org, kinds) is Ok,
    ensures
        ({
            let t1 = ensure_kinds(t, exchange, org, kinds)->Ok_0;
            &&& t1.exchanges == t.exchanges
            &&& forall|q| t.queues.contains(q) ==> t1.queues.contains(q)
            &&& forall|b| t.bindings.contains(b) ==> t1.bindings.contains(b)
            &&& forall|i: int|
                0 <= i < kinds.len() ==> t1.queues.contains((key_of(org, #[trigger] kinds[i]), true))
                    && t1.bindings.contains(binding_of(exchange, org, kinds[i]))
        }),
    decreases kinds.len(),
{
    if kinds.len() > 0 {
        let init = kinds.drop_last();
        lemma_kinds_grow(t, exchange, org, init);
        let t1 = ensure_kinds(t, exchange, org, init)->Ok_0;
        let t2 = ensure_kinds(t, exchange, org, kinds)->Ok_0;
        let q = (key_of(org, kinds.last()), true);
        let b = binding_of(exchange, org, kinds.last());
        assert(t2.queues.contains(q)) by {
            if !t1.queues.contains(q) {
                assert(t2.queues == t1.queues.push(q));
                assert(t2.queues[t1.queues.len() as int] == q);
            }
        }
        assert(t2.bindings.contains(b)) by {
            if !t1.bindings.contains(b) {
                assert(t2.bindings[t1.bindings.len() as int] == b);
            }
        }
        assert forall|x| t1.queues.contains(x) implies t2.queues.contains(x) by {
            let j = choose|j: int| 0 <= j < t1.queues.len() && t1.queues[j] == x;
            assert(t2.queues[j] == x);
        }
        assert forall|x| t1.bindings.contains(x) implies t2.bindings.contains(x) by {
            let j = choose|j: int| 0 <= j < t1.bindings.len() && t1.bindings[j] == x;
            assert(t2.bindings[j] == x);
        }
        assert forall|i: int| 0 <= i < kinds.len() implies t2.queues.contains(
            (key_of(org, #[trigger] kinds[i]), true),
        ) && t2.bindings.contains(binding_of(exchange, org, kinds[i])) by {
            if i < kinds.len() - 1 {
                assert(kinds[i] == init[i]);
            }
        }
    }
}

proof fn lemma_kinds_present(t: TopologyView, exchange: Seq<char>, org: Seq<char>, kinds: Seq<Seq<char>>)
    requires
        forall|i: int|
            0 <= i < kinds.len() ==> t.queues.contains((key_of(org, #[trigger] kinds[i]), true))
                && t.bindings.contains(binding_of(exchange, org, kinds[i])),
    ensures
        ensure_kinds(t, exchange, org, kinds) == Ok::<TopologyView, TopologyError>(t),
    decreases kinds.len(),
{
    if kinds.len() > 0 {
        let init = kinds.drop_last();
        assert forall|i: int| 0 <= i < init.len() implies t.queues.contains(
            (key_of(org, #[trigger] init[i]), true),
        ) && t.bindings.contains(binding_of(exchange, org, init[i])) by {
            assert(init[i] == kinds[i]);
        }
        lemma_kinds_present(t, exchange, org, init);
        assert(t.queues.contains((key_of(org, kinds[kinds.len() - 1]), true)));
        assert(t.bindings.contains(binding_of(exchange, org, kinds[kinds.len() - 1])));
    }
}

/// Ensuring a topology that was ensured already succeeds and leaves the
/// exchanges, queues and bindings as they are.
pub proof fn lemma_ensure_idempotent(t: TopologyView, exchange: Seq<char>, org: Seq<char>, kinds: Seq<Seq<char>>)
    requires
        ensure_spec(t, exchange, org, kinds) is Ok,
    ensures
        ensure_spec(ensure_spec(t, exchange, org, kinds)->Ok_0, exchange, org, kinds) == ensure_spec(
            t,
            exchange,
            org,
            kinds,
        ),
{
    let es = declare_exchange_spec(t.exchanges, exchange, ExchangeKind::Topic, true)->Ok_0;
    let t0 = TopologyView { exchanges: es, queues: t.queues, bindings: t.bindings };
    assert(es.contains((exchange, (ExchangeKind::Topic, true)))) by {
        if !t.exchanges.contains((exchange, (ExchangeKind::Topic, true))) {
            assert(es[t.exchanges.len() as int] == (exchange, (ExchangeKind::Topic, true)));
        }
    }
    lemma_kinds_grow(t0, exchange, org, kinds);
    let t1 = ensure_spec(t, exchange, org, kinds)->Ok_0;
    assert(declare_exchange_spec(t1.exchanges, exchange, ExchangeKind::Topic, true) == Ok::<
        Seq<(Seq<char>, (ExchangeKind, bool))>,
        TopologyError,
    >(t1.exchanges));
    lemma_kinds_present(t1, exchange, org, kinds);
    assert((TopologyView { exchanges: t1.exchanges, queues: t1.queues, bindings: t1.bindings }) == t1);
}

/// Declaring an exchange a second time with the same kind and durability succeeds and
/// leaves the exchanges as they are.
pub proof fn lemma_declare_exchange_idempotent(
    es: Seq<(Seq<char>, (ExchangeKind, bool))>,
    name: Seq<char>,
    kind: ExchangeKind,
    durable: bool,
)
    requires
        declare_exchange_spec(es, name, kind, durable) is Ok,
    ensures
        declare_exchange_spec(declare_exchange_spec(es, name, kind, durable)->Ok_0, name, kind, durable)
            == declare_exchange_spec(es, name, kind, durable),
{
    if !es.contains((name, (kind, durable))) {
        assert(es.push((name, (kind, durable)))[es.len() as int] == (name, (kind, durable)));
    }
}

/// Declaring a queue a second time with the same durability succeeds and
/// leaves the queues as they are.
pub proof fn lemma_declare_queue_idempotent(qs: Seq<(Seq<char>, bool)>, name: Seq<char>, durable: bool)
    requires
        declare_queue_spec(qs, name, durable) is Ok,
    ensures
        declare_queue_spec(declare_queue_spec(qs, name, durable)->Ok_0, name, durable) == declare_queue_spec(
            qs,
            name,
            durable,
        ),
{
    if !qs.contains((name, durable)) {
        assert(qs.push((name, durable))[qs.len() as int] == (name, durable));
    }
}

} // verus!
