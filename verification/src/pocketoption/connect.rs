//! The order in which a PocketOption client tries WebSocket servers: the
//! default URL, then the configured URLs, then the servers the platform
//! names (or fixed fallbacks when it names none), pausing briefly after
//! each failed URL of the last two lists.

use std::collections::VecDeque;

use vstd::prelude::*;

use crate::connector::{ConnectorError, ConnectorErrorView};

verus! {

/// The connector of the PocketOption platform.
#[derive(Debug, Clone, Copy)]
pub struct PocketConnect;

/// The servers tried when the platform does not say which to use.
pub open spec fn fallback_urls() -> Seq<Seq<char>> {
    seq![
        "wss://api-eu.po.market/socket.io/?EIO=4&transport=websocket"@,
        "wss://api-us-south.po.market/socket.io/?EIO=4&transport=websocket"@,
        "wss://api-asia.po.market/socket.io/?EIO=4&transport=websocket"@,
    ]
}

/// The plain form of a list of strings.
pub open spec fn texts(v: Seq<String>) -> Seq<Seq<char>> {
    v.map_values(|s: String| s@)
}

/// Where a connection attempt stands.
#[derive(Debug, Clone, Copy, PartialEq, Eq, Structural)]
pub enum ConnectStage {
    /// Trying the default URL.
    DefaultUrl,
    /// Trying the configured URLs.
    ConfiguredUrls,
    /// Waiting for the platform's list of servers.
    AwaitingServers,
    /// Trying the platform's servers.
    PlatformUrls,
    /// Every URL failed.
    Exhausted,
}

/// What the caller does next.
#[derive(Debug)]
pub enum ConnectStep {
    /// Connect to this URL.
    Try(String),
    /// Wait a short random delay, from 200 to 500 milliseconds.
    Pause,
    /// Ask the platform for its servers.
    FetchServers,
    /// Stop: no URL could be connected to.
    GiveUp(ConnectorError),
}

/// The plain form of a [`ConnectStep`].
pub enum ConnectStepView {
    Try(Seq<char>),
    Pause,
    FetchServers,
    GiveUp(ConnectorErrorView),
}

impl View for ConnectStep {
    type V = ConnectStepView;

    open spec fn view(&self) -> ConnectStepView {
        match self {
            ConnectStep::Try(u) => ConnectStepView::Try(u@),
            ConnectStep::Pause => ConnectStepView::Pause,
            ConnectStep::FetchServers => ConnectStepView::FetchServers,
            ConnectStep::GiveUp(e) => ConnectStepView::GiveUp(e@),
        }
    }
}

/// The plain form of a [`ConnectAttempt`]: its stage, the URLs of the stage
/// not tried yet, and the configured URLs still to come.
pub struct AttemptModel {
    pub stage: ConnectStage,
    pub queue: Seq<Seq<char>>,
    pub configured: Seq<Seq<char>>,
}

/// Starting on the configured URLs.
pub open spec fn enter_configured(configured: Seq<Seq<char>>) -> (AttemptModel, ConnectStepView) {
    if configured.len() > 0 {
        (
            AttemptModel { stage: ConnectStage::ConfiguredUrls, queue: configured.drop_first(), configured: Seq::empty() },
            ConnectStepView::Try(configured[0]),
        )
    } else {
        (
            AttemptModel { stage: ConnectStage::AwaitingServers, queue: Seq::empty(), configured: Seq::empty() },
            ConnectStepView::FetchServers,
        )
    }
}

/// The first step of an attempt.
pub open spec fn begin_step(default_url: Option<Seq<char>>, configured: Seq<Seq<char>>) -> (
    AttemptModel,
    ConnectStepView,
) {
    match default_url {
        Some(u) => (
            AttemptModel { stage: ConnectStage::DefaultUrl, queue: Seq::empty(), configured },
            ConnectStepView::Try(u),
        ),
        None => enter_configured(configured),
    }
}

/// The step after a failed connection: the default URL gives way to the
/// configured ones at once; a failed URL of a list is followed by a pause.
pub open spec fn failure_step(m: AttemptModel) -> (AttemptModel, ConnectStepView) {
    if m.stage == ConnectStage::DefaultUrl {
        enter_configured(m.configured)
    } else {
        (m, ConnectStepView::Pause)
    }
}

/// The step after a pause: the next URL of the list, else the next stage.
pub open spec fn pause_step(m: AttemptModel) -> (AttemptModel, ConnectStepView) {
    if m.queue.len() > 0 {
        (AttemptModel { queue: m.queue.drop_first(), ..m }, ConnectStepView::Try(m.queue[0]))
    } else if m.stage == ConnectStage::ConfiguredUrls {
        (
            AttemptModel { stage: ConnectStage::AwaitingServers, queue: Seq::empty(), configured: Seq::empty() },
            ConnectStepView::FetchServers,
        )
    } else {
        (AttemptModel { stage: ConnectStage::Exhausted, queue: Seq::empty(), configured: Seq::empty() }, ConnectStepView::GiveUp(exhausted_error()))
    }
}

/// The URLs of the last stage: the platform's servers, or the fallbacks
/// when the platform could not say.
pub open spec fn platform_urls(servers: Option<Seq<Seq<char>>>) -> Seq<Seq<char>> {
    match servers {
        Some(s) => s,
        None => fallback_urls(),
    }
}

/// The step once the platform's servers are known (or known to be
/// unavailable).
pub open spec fn servers_step(servers: Option<Seq<Seq<char>>>) -> (AttemptModel, ConnectStepView) {
    let urls = platform_urls(servers);
    if urls.len() > 0 {
        (
            AttemptModel { stage: ConnectStage::PlatformUrls, queue: urls.drop_first(), configured: Seq::empty() },
            ConnectStepView::Try(urls[0]),
        )
    } else {
        (AttemptModel { stage: ConnectStage::Exhausted, queue: Seq::empty(), configured: Seq::empty() }, ConnectStepView::GiveUp(exhausted_error()))
    }
}

/// A connection attempt in progress.
pub struct ConnectAttempt {
    stage: ConnectStage,
    queue: VecDeque<String>,
    configured: Vec<String>,
}

impl View for ConnectAttempt {
    type V = AttemptModel;

    closed spec fn view(&self) -> AttemptModel {
        AttemptModel { stage: self.stage, queue: texts(self.queue@), configured: texts(self.configured@) }
    }
}

/// The error of an attempt that tried every URL.
pub open spec fn exhausted_error() -> ConnectorErrorView {
    ConnectorErrorView::Custom("Failed to connect to any of the provided URLs"@)
}

/// The error of an attempt that tried every URL.
fn exhausted() -> (e: ConnectorError)
    ensures
        e@ == exhausted_error(),
{
    ConnectorError::Custom(String::from_str("Failed to connect to any of the provided URLs"))
}

/// The servers tried when the platform does not say which to use.
fn fallback_list() -> (v: Vec<String>)
    ensures
        texts(v@) == fallback_urls(),
{
    let mut v: Vec<String> = Vec::new();
    v.push(String::from_str("wss://api-eu.po.market/socket.io/?EIO=4&transport=websocket"));
    v.push(String::from_str("wss://api-us-south.po.market/socket.io/?EIO=4&transport=websocket"));
    v.push(String::from_str("wss://api-asia.po.market/socket.io/?EIO=4&transport=websocket"));
    assert(texts(v@) =~= fallback_urls());
    v
}

/// A queue holding the URLs of a list, in order.
fn queue_of(urls: Vec<String>) -> (q: VecDeque<String>)
    ensures
        texts(q@) == texts(urls@),
{
    let mut q: VecDeque<String> = VecDeque::new();
    let mut i: usize = 0;
    while i < urls.len()
        invariant
            i <= urls.len(),
            texts(q@) == texts(urls@.take(i as int)),
        decreases urls.len() - i,
    {
        let u = urls[i].clone();
        let ghost before = q@;
        q.push_back(u);
        proof {
            assert(u@ == urls@[i as int]@);
            assert(q@ == before.push(u));
            assert(texts(before.push(u)) =~= texts(before).push(u@));
            assert(urls@.take(i + 1) =~= urls@.take(i as int).push(urls@[i as int]));
            assert(texts(urls@.take(i as int).push(urls@[i as int])) =~= texts(urls@.take(i as int)).push(urls@[i as int]@));
            assert(texts(q@) =~= texts(urls@.take(i + 1)));
        }
        i = i + 1;
    }
    assert(urls@.take(urls.len() as int) =~= urls@);
    q
}

impl ConnectAttempt {
    /// Moves on to the configured URLs.
    fn start_configured(configured: Vec<String>) -> (r: (ConnectAttempt, ConnectStep))
        ensures
            (r.0@, r.1@) == enter_configured(texts(configured@)),
    {
        let ghost configured_view = texts(configured@);
        let mut queue = queue_of(configured);
        match queue.pop_front() {
            Some(first) => {
                let a = ConnectAttempt { stage: ConnectStage::ConfiguredUrls, queue, configured: Vec::new() };
                assert(a@.queue =~= configured_view.drop_first());
                assert(a@.configured =~= Seq::<Seq<char>>::empty());
                (a, ConnectStep::Try(first))
            },
            None => {
                let a = ConnectAttempt { stage: ConnectStage::AwaitingServers, queue, configured: Vec::new() };
                assert(a@.queue =~= Seq::<Seq<char>>::empty());
                assert(a@.configured =~= Seq::<Seq<char>>::empty());
                (a, ConnectStep::FetchServers)
            },
        }
    }

    /// Takes the next step after a failed connection to the URL last tried.
    pub fn after_failure(&mut self) -> (step: ConnectStep)
        ensures
            (final(self)@, step@) == failure_step(old(self)@),
    {
        if self.stage == ConnectStage::DefaultUrl {
            let mut configured: Vec<String> = Vec::new();
            std::mem::swap(&mut configured, &mut self.configured);
            let (next, step) = ConnectAttempt::start_configured(configured);
            *self = next;
            step
        } else {
            ConnectStep::Pause
        }
    }

    /// Takes the next step after a pause; when no URL is left, gives up with
    /// the error "Failed to connect to any of the provided URLs".
    pub fn after_pause(&mut self) -> (step: ConnectStep)
        ensures
            (final(self)@, step@) == pause_step(old(self)@),
            step is GiveUp ==> step->GiveUp_0@ == ConnectorErrorView::Custom(
                "Failed to connect to any of the provided URLs"@,
            ),
    {
        let ghost before = self@;
        match self.queue.pop_front() {
            Some(next) => {
                assert(self@.queue =~= before.queue.drop_first());
                ConnectStep::Try(next)
            },
            None => {
                if self.stage == ConnectStage::ConfiguredUrls {
                    *self = ConnectAttempt { stage: ConnectStage::AwaitingServers, queue: VecDeque::new(), configured: Vec::new() };
                    assert(self@.queue =~= Seq::<Seq<char>>::empty());
                    assert(self@.configured =~= Seq::<Seq<char>>::empty());
                    ConnectStep::FetchServers
                } else {
                    *self = ConnectAttempt { stage: ConnectStage::Exhausted, queue: VecDeque::new(), configured: Vec::new() };
                    assert(self@.queue =~= Seq::<Seq<char>>::empty());
                    assert(self@.configured =~= Seq::<Seq<char>>::empty());
                    ConnectStep::GiveUp(exhausted())
                }
            },
        }
    }

    /// Takes the next step once the platform's servers are known; `None`
    /// when the platform could not be asked. With no server to try, gives up
    /// with the error "Failed to connect to any of the provided URLs".
    pub fn after_servers(&mut self, servers: Option<Vec<String>>) -> (step: ConnectStep)
        ensures
            (final(self)@, step@) == servers_step(match servers {
                Some(s) => Some(texts(s@)),
                None => None,
            }),
            step is GiveUp ==> step->GiveUp_0@ == ConnectorErrorView::Custom(
                "Failed to connect to any of the provided URLs"@,
            ),
    {
        let urls = match servers {
            Some(s) => s,
            None => fallback_list(),
        };
        let ghost urls_view = texts(urls@);
        let mut queue = queue_of(urls);
        match queue.pop_front() {
            Some(first) => {
                *self = ConnectAttempt { stage: ConnectStage::PlatformUrls, queue, configured: Vec::new() };
                assert(self@.queue =~= urls_view.drop_first());
                assert(self@.configured =~= Seq::<Seq<char>>::empty());
                ConnectStep::Try(first)
            },
            None => {
                *self = ConnectAttempt { stage: ConnectStage::Exhausted, queue, configured: Vec::new() };
                assert(self@.queue =~= Seq::<Seq<char>>::empty());
                assert(self@.configured =~= Seq::<Seq<char>>::empty());
                ConnectStep::GiveUp(exhausted())
            },
        }
    }
}

impl PocketConnect {
    /// Starts an attempt: the default URL first, if there is one, else the
    /// configured URLs, else the platform's servers.
    pub fn begin(&self, default_url: Option<String>, configured: Vec<String>) -> (r: (ConnectAttempt, ConnectStep))
        ensures
            (r.0@, r.1@) == begin_step(
                match default_url {
                    Some(u) => Some(u@),
                    None => None,
                },
                texts(configured@),
            ),
    {
        match default_url {
            Some(u) => {
                let a = ConnectAttempt { stage: ConnectStage::DefaultUrl, queue: VecDeque::new(), configured };
                assert(a@.queue =~= Seq::<Seq<char>>::empty());
                (a, ConnectStep::Try(u))
            },
            None => ConnectAttempt::start_configured(configured),
        }
    }
}

/// The steps that follow `step`, taken in state `m`, when every connection
/// fails and the platform names `servers` (`None`: it could not be asked),
/// for at most `fuel` steps; the steps end when the attempt gives up.
pub open spec fn failing_run(m: AttemptModel, step: ConnectStepView, servers: Option<Seq<Seq<char>>>, fuel: nat) -> Seq<
    ConnectStepView,
>
    decreases fuel,
{
    if fuel == 0 {
        Seq::empty()
    } else {
        match step {
            ConnectStepView::GiveUp(_) => Seq::empty(),
            _ => {
                let next = match step {
                    ConnectStepView::Try(_) => failure_step(m),
                    ConnectStepView::Pause => pause_step(m),
                    _ => servers_step(servers),
                };
                seq![next.1] + failing_run(next.0, next.1, servers, (fuel - 1) as nat)
            },
        }
    }
}

/// Each URL of a list tried, each failure followed by a pause.
pub open spec fn tries_with_pauses(urls: Seq<Seq<char>>) -> Seq<ConnectStepView>
    decreases urls.len(),
{
    if urls.len() == 0 {
        Seq::empty()
    } else {
        seq![ConnectStepView::Try(urls[0]), ConnectStepView::Pause] + tries_with_pauses(urls.drop_first())
    }
}

/// Every step of an attempt in which every connection fails: the default
/// URL, each configured URL with a pause after it, the request for the
/// platform's servers, each of those (or of the fallbacks) with a pause
/// after it, and the end.
pub open spec fn all_failing_steps(default_url: Option<Seq<char>>, configured: Seq<Seq<char>>, servers: Option<Seq<Seq<char>>>) -> Seq<
    ConnectStepView,
> {
    (match default_url {
        Some(d) => seq![ConnectStepView::Try(d)],
        None => Seq::empty(),
    }) + tries_with_pauses(configured) + seq![ConnectStepView::FetchServers] + tries_with_pauses(
        platform_urls(servers),
    ) + seq![ConnectStepView::GiveUp(exhausted_error())]
}

proof fn lemma_tries_with_pauses_len(urls: Seq<Seq<char>>)
    ensures
        tries_with_pauses(urls).len() == 2 * urls.len(),
    decreases urls.len(),
{
    if urls.len() > 0 {
        lemma_tries_with_pauses_len(urls.drop_first());
    }
}

/// On the platform's list, after a failed URL: a pause and the rest of the
/// list, then the end.
proof fn lemma_platform_run(m: AttemptModel, url: Seq<char>, servers: Option<Seq<Seq<char>>>)
    requires
        m.stage == ConnectStage::PlatformUrls,
    ensures
        failing_run(m, ConnectStepView::Try(url), servers, 2 * m.queue.len() + 2) == seq![ConnectStepView::Pause]
            + tries_with_pauses(m.queue) + seq![ConnectStepView::GiveUp(exhausted_error())],
    decreases m.queue.len(),
{
    let fuel = (2 * m.queue.len() + 2) as nat;
    let (m1, s1) = failure_step(m);
    assert(s1 == ConnectStepView::Pause && m1 == m);
    let (m2, s2) = pause_step(m1);
    if m.queue.len() > 0 {
        let rest = m.queue.drop_first();
        lemma_platform_run(m2, m.queue[0], servers);
        assert(m2.queue == rest);
        assert(failing_run(m1, s1, servers, (fuel - 1) as nat) == seq![s2] + failing_run(m2, s2, servers, (fuel - 2) as nat));
        assert(tries_with_pauses(m.queue) == seq![ConnectStepView::Try(m.queue[0]), ConnectStepView::Pause] + tries_with_pauses(rest));
        assert(failing_run(m, ConnectStepView::Try(url), servers, fuel) =~= seq![ConnectStepView::Pause]
            + tries_with_pauses(m.queue) + seq![ConnectStepView::GiveUp(exhausted_error())]);
    } else {
        assert(s2 == ConnectStepView::GiveUp(exhausted_error()));
        assert(failing_run(m2, s2, servers, 0) == Seq::<ConnectStepView>::empty());
        assert(failing_run(m1, s1, servers, 1) =~= seq![s2]);
        assert(tries_with_pauses(m.queue) =~= Seq::<ConnectStepView>::empty());
        assert(failing_run(m, ConnectStepView::Try(url), servers, fuel) =~= seq![ConnectStepView::Pause]
            + tries_with_pauses(m.queue) + seq![ConnectStepView::GiveUp(exhausted_error())]);
    }
}

/// Once the platform's servers are asked for: each of its URLs with a
/// pause after it, then the end.
proof fn lemma_servers_run(m: AttemptModel, servers: Option<Seq<Seq<char>>>)
    ensures
        failing_run(m, ConnectStepView::FetchServers, servers, 2 * platform_urls(servers).len() + 1)
            == tries_with_pauses(platform_urls(servers)) + seq![ConnectStepView::GiveUp(exhausted_error())],
{
    let urls = platform_urls(servers);
    let fuel = (2 * urls.len() + 1) as nat;
    let (m1, s1) = servers_step(servers);
    if urls.len() > 0 {
        lemma_platform_run(m1, urls[0], servers);
        assert(m1.queue == urls.drop_first());
        assert(tries_with_pauses(urls) == seq![ConnectStepView::Try(urls[0]), ConnectStepView::Pause] + tries_with_pauses(urls.drop_first()));
        assert(failing_run(m, ConnectStepView::FetchServers, servers, fuel) =~= tries_with_pauses(urls) + seq![ConnectStepView::GiveUp(exhausted_error())]);
    } else {
        assert(s1 == ConnectStepView::GiveUp(exhausted_error()));
        assert(failing_run(m1, s1, servers, 0) == Seq::<ConnectStepView>::empty());
        assert(tries_with_pauses(urls) =~= Seq::<ConnectStepView>::empty());
        assert(failing_run(m, ConnectStepView::FetchServers, servers, fuel) =~= tries_with_pauses(urls) + seq![ConnectStepView::GiveUp(exhausted_error())]);
    }
}

/// On the configured list, after a failed URL: a pause and the rest of the
/// list, then the platform's servers.
proof fn lemma_configured_run(m: AttemptModel, url: Seq<char>, servers: Option<Seq<Seq<char>>>)
    requires
        m.stage == ConnectStage::ConfiguredUrls,
    ensures
        failing_run(m, ConnectStepView::Try(url), servers, 2 * m.queue.len() + 2 * platform_urls(servers).len() + 3)
            == seq![ConnectStepView::Pause] + tries_with_pauses(m.queue) + seq![ConnectStepView::FetchServers]
            + tries_with_pauses(platform_urls(servers)) + seq![ConnectStepView::GiveUp(exhausted_error())],
    decreases m.queue.len(),
{
    let p = platform_urls(servers);
    let fuel = (2 * m.queue.len() + 2 * p.len() + 3) as nat;
    let (m1, s1) = failure_step(m);
    assert(s1 == ConnectStepView::Pause && m1 == m);
    let (m2, s2) = pause_step(m1);
    assert(failing_run(m, ConnectStepView::Try(url), servers, fuel) == seq![s1] + failing_run(m1, s1, servers, (fuel - 1) as nat));
    assert(failing_run(m1, s1, servers, (fuel - 1) as nat) == seq![s2] + failing_run(m2, s2, servers, (fuel - 2) as nat));
    if m.queue.len() > 0 {
        let rest = m.queue.drop_first();
        lemma_configured_run(m2, m.queue[0], servers);
        assert(m2.queue == rest);
        assert(tries_with_pauses(m.queue) == seq![ConnectStepView::Try(m.queue[0]), ConnectStepView::Pause] + tries_with_pauses(rest));
        assert(failing_run(m, ConnectStepView::Try(url), servers, fuel) =~= seq![ConnectStepView::Pause]
            + tries_with_pauses(m.queue) + seq![ConnectStepView::FetchServers] + tries_with_pauses(p)
            + seq![ConnectStepView::GiveUp(exhausted_error())]);
    } else {
        assert(s2 == ConnectStepView::FetchServers);
        lemma_servers_run(m2, servers);
        assert(tries_with_pauses(m.queue) =~= Seq::<ConnectStepView>::empty());
        assert(failing_run(m, ConnectStepView::Try(url), servers, fuel) =~= seq![ConnectStepView::Pause]
            + tries_with_pauses(m.queue) + seq![ConnectStepView::FetchServers] + tries_with_pauses(p)
            + seq![ConnectStepView::GiveUp(exhausted_error())]);
    }
}

/// From the configured URLs on: each configured URL with a pause after it,
/// then the platform's servers.
proof fn lemma_from_configured(configured: Seq<Seq<char>>, servers: Option<Seq<Seq<char>>>)
    ensures
        ({
            let (m, s) = enter_configured(configured);
            seq![s] + failing_run(m, s, servers, 2 * configured.len() + 2 * platform_urls(servers).len() + 1)
                == tries_with_pauses(configured) + seq![ConnectStepView::FetchServers] + tries_with_pauses(
                platform_urls(servers),
            ) + seq![ConnectStepView::GiveUp(exhausted_error())]
        }),
{
    let (m, s) = enter_configured(configured);
    let p = platform_urls(servers);
    if configured.len() > 0 {
        lemma_configured_run(m, configured[0], servers);
        assert(tries_with_pauses(configured) == seq![ConnectStepView::Try(configured[0]), ConnectStepView::Pause]
            + tries_with_pauses(configured.drop_first()));
        assert(seq![s] + failing_run(m, s, servers, 2 * configured.len() + 2 * p.len() + 1) =~= tries_with_pauses(
            configured,
        ) + seq![ConnectStepView::FetchServers] + tries_with_pauses(p) + seq![ConnectStepView::GiveUp(exhausted_error())]);
    } else {
        lemma_servers_run(m, servers);
        assert(tries_with_pauses(configured) =~= Seq::<ConnectStepView>::empty());
        assert(seq![s] + failing_run(m, s, servers, 2 * configured.len() + 2 * p.len() + 1) =~= tries_with_pauses(
            configured,
        ) + seq![ConnectStepView::FetchServers] + tries_with_pauses(p) + seq![ConnectStepView::GiveUp(exhausted_error())]);
    }
}

/// When every connection fails, an attempt tries the default URL, then each
/// configured URL, then each of the platform's servers (or, if the platform
/// could not be asked, each fallback), each URL once and in that order, and
/// gives up only after the last, with the error "Failed to connect to any of
/// the provided URLs".
pub proof fn lemma_connect_order(default_url: Option<Seq<char>>, configured: Seq<Seq<char>>, servers: Option<Seq<Seq<char>>>)
    ensures
        ({
            let (m, s) = begin_step(default_url, configured);
            let steps = all_failing_steps(default_url, configured, servers);
            seq![s] + failing_run(m, s, servers, (steps.len() - 1) as nat) == steps
        }),
{
    let p = platform_urls(servers);
    lemma_tries_with_pauses_len(configured);
    lemma_tries_with_pauses_len(p);
    let steps = all_failing_steps(default_url, configured, servers);
    let (m, s) = begin_step(default_url, configured);
    lemma_from_configured(configured, servers);
    match default_url {
        Some(d) => {
            assert(steps.len() == 2 * configured.len() + 2 * p.len() + 3);
            let (m1, s1) = failure_step(m);
            assert((m1, s1) == enter_configured(configured));
            assert(failing_run(m, s, servers, (steps.len() - 1) as nat) == seq![s1] + failing_run(
                m1,
                s1,
                servers,
                (steps.len() - 2) as nat,
            ));
            assert(seq![s] + failing_run(m, s, servers, (steps.len() - 1) as nat) =~= steps);
        },
        None => {
            assert(steps =~= tries_with_pauses(configured) + seq![ConnectStepView::FetchServers] + tries_with_pauses(p)
                + seq![ConnectStepView::GiveUp(exhausted_error())]);
        },
    }
}

} // verus!
