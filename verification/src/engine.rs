//! What the engines (chat, presence) share: the context of a connection passed to their
//! lifecycle hooks, and the description of their background timers.
use vstd::prelude::*;
use crate::registry::connection::ConnId;
use crate::text::copy_str;
use crate::engines::chat::ChatEngine;
use crate::engines::presence::PresenceEngine;

verus! {

/// The connection that a lifecycle hook is about.
pub struct EngineConnContext {
    pub conn_id: ConnId,
    pub tenant_id: String,
    pub user_id: String,
}

/// A background task of an engine: its label, for logs, and how often it runs, in
/// seconds. The task's body is run by the server's timer loop.
pub struct TimerTask {
    pub label: &'static str,
    pub interval_secs: u64,
}

/// A registered engine.
pub enum Engine {
    Chat(ChatEngine),
    Presence(PresenceEngine),
}

/// The storage namespaces an engine uses.
pub open spec fn engine_namespaces(e: Engine) -> Seq<Seq<char>> {
    match e {
        Engine::Chat(_) => seq!["herald.blocks"@],
        Engine::Presence(_) => seq!["herald.presence_overrides"@],
    }
}

/// The background tasks of an engine, as `(label, interval in seconds)`.
pub open spec fn engine_timers(e: Engine) -> Seq<(Seq<char>, u64)> {
    match e {
        Engine::Chat(_) => seq![("chat:typing-ttl"@, crate::engines::chat::TYPING_SWEEP_SECS)],
        Engine::Presence(_) => seq![
            ("presence:override-expiry"@, crate::engines::presence::OVERRIDE_SWEEP_SECS),
        ],
    }
}

/// The namespaces of the engines `es`, engine after engine.
pub open spec fn all_namespaces(es: Seq<Engine>) -> Seq<Seq<char>>
    decreases es.len(),
{
    if es.len() == 0 {
        Seq::empty()
    } else {
        all_namespaces(es.drop_last()) + engine_namespaces(es.last())
    }
}

/// The background tasks of the engines `es`, engine after engine.
pub open spec fn all_timers(es: Seq<Engine>) -> Seq<(Seq<char>, u64)>
    decreases es.len(),
{
    if es.len() == 0 {
        Seq::empty()
    } else {
        all_timers(es.drop_last()) + engine_timers(es.last())
    }
}

/// The contents of a list of static strings.
pub open spec fn strs_view(v: Seq<&'static str>) -> Seq<Seq<char>> {
    Seq::new(v.len(), |i: int| v[i]@)
}

/// The contents of a list of timer tasks.
pub open spec fn timers_view(v: Seq<TimerTask>) -> Seq<(Seq<char>, u64)> {
    Seq::new(v.len(), |i: int| (v[i].label@, v[i].interval_secs))
}

/// The registered engines, in the order their hooks and filters run.
pub struct EngineSet {
    engines: Vec<Engine>,
}

impl EngineSet {
    pub closed spec fn engines(&self) -> Seq<Engine> {
        self.engines@
    }

    pub fn new(engines: Vec<Engine>) -> (s: EngineSet)
        ensures
            s.engines() == engines@,
    {
        EngineSet { engines }
    }

    /// No engine.
    pub fn empty() -> (s: EngineSet)
        ensures
            s.engines() == Seq::<Engine>::empty(),
    {
        EngineSet { engines: Vec::new() }
    }

    /// The number of engines.
    pub fn len(&self) -> (n: usize)
        ensures
            n == self.engines().len(),
    {
        self.engines.len()
    }

    /// The next step of the fan-out filter of these engines (see [`fanout_filter_step`]).
    pub fn fanout_filter(&self, query: &FilterQuery, answers: &Vec<bool>) -> (s: FilterStep)
        requires
            answers@.len() <= self.engines().len(),
        ensures
            is_filter_step(self.engines().len(), *query, answers@, s),
    {
        fanout_filter_step(self.engines.len(), query, answers)
    }

    /// The storage namespaces of all engines, engine after engine.
    pub fn namespaces(&self) -> (v: Vec<&'static str>)
        ensures
            strs_view(v@) == all_namespaces(self.engines()),
    {
        let mut v: Vec<&'static str> = Vec::new();
        let mut i: usize = 0;
        while i < self.engines.len()
            invariant
                i <= self.engines@.len(),
                strs_view(v@) == all_namespaces(self.engines@.take(i as int)),
            decreases self.engines@.len() - i,
        {
            let ns = match &self.engines[i] {
                Engine::Chat(e) => e.namespaces(),
                Engine::Presence(e) => e.namespaces(),
            };
            let ghost before = v@;
            let mut k: usize = 0;
            while k < ns.len()
                invariant
                    k <= ns@.len(),
                    v@ == before + ns@.take(k as int),
                decreases ns@.len() - k,
            {
                v.push(ns[k]);
                k += 1;
                assert(v@ =~= before + ns@.take(k as int));
            }
            proof {
                assert(ns@.take(ns@.len() as int) =~= ns@);
                assert(self.engines@.take(i + 1).drop_last() =~= self.engines@.take(i as int));
                assert(self.engines@.take(i + 1).last() == self.engines@[i as int]);
                assert(strs_view(ns@) =~= engine_namespaces(self.engines@[i as int]));
                assert(strs_view(v@) =~= strs_view(before) + strs_view(ns@));
            }
            i += 1;
        }
        assert(self.engines@.take(self.engines@.len() as int) =~= self.engines@);
        v
    }

    /// The background tasks of all engines, engine after engine.
    pub fn timers(&self) -> (v: Vec<TimerTask>)
        ensures
            timers_view(v@) == all_timers(self.engines()),
    {
        let mut v: Vec<TimerTask> = Vec::new();
        let mut i: usize = 0;
        while i < self.engines.len()
            invariant
                i <= self.engines@.len(),
                timers_view(v@) == all_timers(self.engines@.take(i as int)),
            decreases self.engines@.len() - i,
        {
            let mut ts = match &self.engines[i] {
                Engine::Chat(e) => e.timers(),
                Engine::Presence(e) => e.timers(),
            };
            let ghost before = v@;
            let ghost added = ts@;
            v.append(&mut ts);
            proof {
                assert(v@ =~= before + added);
                assert(self.engines@.take(i + 1).drop_last() =~= self.engines@.take(i as int));
                assert(self.engines@.take(i + 1).last() == self.engines@[i as int]);
                assert(timers_view(added) =~= engine_timers(self.engines@[i as int]));
                assert(timers_view(v@) =~= timers_view(before) + timers_view(added));
            }
            i += 1;
        }
        assert(self.engines@.take(self.engines@.len() as int) =~= self.engines@);
        v
    }
}

/// The engines of the server: chat, then presence.
pub fn default_engines() -> (s: EngineSet)
    ensures
        s.engines().len() == 2,
        s.engines()[0] is Chat,
        s.engines()[1] is Presence,
{
    EngineSet::new(vec![Engine::Chat(ChatEngine::new()), Engine::Presence(PresenceEngine::new())])
}

/// The question put to each engine's delivery filter: may a frame from `sender_id` go
/// to `subscriber_id`, in `tenant_id`.
pub struct FilterQuery {
    pub tenant_id: String,
    pub subscriber_id: String,
    pub sender_id: String,
}

/// The next step of a fan-out filter.
pub enum FilterStep {
    /// Ask `query` of the filter of the engine at `engine` among the registered ones.
    Ask { engine: usize, query: FilterQuery },
    /// Whether the frame is delivered.
    Verdict(bool),
}

/// Whether `s` is the step after the answers `answers` of a fan-out filter over
/// `engine_count` engines asked `query`: `false` as soon as an engine said `false`;
/// otherwise the next engine, asked the same question, or `true` once all said `true`.
pub open spec fn is_filter_step(engine_count: nat, query: FilterQuery, answers: Seq<bool>, s: FilterStep) -> bool {
    &&& (exists|i: int| 0 <= i < answers.len() && !#[trigger] answers[i]) ==> s
        == FilterStep::Verdict(false)
    &&& (forall|i: int| 0 <= i < answers.len() ==> #[trigger] answers[i]) ==> if answers.len()
        < engine_count {
        s matches FilterStep::Ask { engine, query: q } && engine == answers.len()
            && q.tenant_id@ == query.tenant_id@ && q.subscriber_id@ == query.subscriber_id@
            && q.sender_id@ == query.sender_id@
    } else {
        s == FilterStep::Verdict(true)
    }
}

/// The fan-out filter of `engine_count` registered engines, one step at a time:
/// `answers` holds what the engines asked so far answered, in order. The engines are
/// asked in turn, each the same question; the first `false` ends it with `false`, and
/// when every engine said `true` (or there is none) the frame is delivered.
pub fn fanout_filter_step(engine_count: usize, query: &FilterQuery, answers: &Vec<bool>) -> (s:
    FilterStep)
    requires
        answers@.len() <= engine_count,
    ensures
        is_filter_step(engine_count as nat, *query, answers@, s),
{
    let mut i: usize = 0;
    while i < answers.len()
        invariant
            i <= answers@.len(),
            forall|j: int| 0 <= j < i ==> #[trigger] answers@[j],
        decreases answers@.len() - i,
    {
        if !answers[i] {
            return FilterStep::Verdict(false);
        }
        i += 1;
    }
    if answers.len() < engine_count {
        FilterStep::Ask {
            engine: answers.len(),
            query: FilterQuery {
                tenant_id: copy_str(query.tenant_id.as_str()),
                subscriber_id: copy_str(query.subscriber_id.as_str()),
                sender_id: copy_str(query.sender_id.as_str()),
            },
        }
    } else {
        FilterStep::Verdict(true)
    }
}

/// How many engines a fan-out filter asks when their answers would be `f`, in order:
/// up to and including the first `false`, or all of them.
pub open spec fn engines_asked(f: Seq<bool>) -> nat
    decreases f.len(),
{
    if f.len() == 0 {
        0
    } else if !f[0] {
        1
    } else {
        1 + engines_asked(f.drop_first())
    }
}

proof fn lemma_engines_asked(f: Seq<bool>)
    ensures
        engines_asked(f) <= f.len(),
        forall|i: int| 0 <= i < engines_asked(f) - 1 ==> #[trigger] f[i],
        (engines_asked(f) > 0 && !f[engines_asked(f) - 1]) || (engines_asked(f) == f.len()
            && forall|i: int| 0 <= i < f.len() ==> #[trigger] f[i]),
    decreases f.len(),
{
    if f.len() > 0 && f[0] {
        let g = f.drop_first();
        lemma_engines_asked(g);
        assert forall|i: int| 0 <= i < engines_asked(f) - 1 implies #[trigger] f[i] by {
            if i > 0 {
                assert(f[i] == g[i - 1]);
            }
        }
        if engines_asked(g) > 0 && !g[engines_asked(g) - 1] {
            assert(f[engines_asked(f) - 1] == g[engines_asked(g) - 1]);
        } else {
            assert forall|i: int| 0 <= i < f.len() implies #[trigger] f[i] by {
                if i > 0 {
                    assert(f[i] == g[i - 1]);
                }
            }
        }
    }
}

/// The fan-out filter over engines whose answers would be `f`, driven step by step:
/// after the answers of the first `k` engines asked, while `k < engines_asked(f)`, the
/// next step asks engine `k` the same question; after `engines_asked(f)` answers, the
/// verdict is that every engine says `true` (`true` when there is none). So the engines
/// are asked in order, each the same question, and none after the first `false`.
pub proof fn lemma_filter_run(query: FilterQuery, f: Seq<bool>, k: nat, s: FilterStep)
    requires
        k <= engines_asked(f),
        is_filter_step(f.len(), query, f.take(k as int), s),
    ensures
        k < engines_asked(f) ==> (s matches FilterStep::Ask { engine, query: q } && engine == k
            && q.tenant_id@ == query.tenant_id@ && q.subscriber_id@ == query.subscriber_id@
            && q.sender_id@ == query.sender_id@),
        k == engines_asked(f) ==> s == FilterStep::Verdict(
            forall|i: int| 0 <= i < f.len() ==> #[trigger] f[i],
        ),
{
    lemma_engines_asked(f);
    let a = engines_asked(f);
    let t = f.take(k as int);
    if k < a {
        assert forall|i: int| 0 <= i < t.len() implies #[trigger] t[i] by {
            assert(t[i] == f[i]);
        }
    } else {
        if a > 0 && !f[a - 1] {
            assert(t[a - 1] == f[a - 1]);
            assert(!(forall|i: int| 0 <= i < f.len() ==> #[trigger] f[i]));
        } else {
            assert(t =~= f);
        }
    }
}

} // verus!
