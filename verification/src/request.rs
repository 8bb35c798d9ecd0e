//! Requests to the services, and how often one is sent.
use std::sync::Arc;
use reqwest::cookie::Jar;
use vstd::arithmetic::power2::{lemma2_to64, pow2};
use vstd::prelude::*;
use crate::text::same;

verus! {

/// The agent that every request names.
pub const USER_AGENT: &'static str =
    "Mozilla/5.0 (X11; Linux x86_64; rv:88.0) Gecko/20100101 Firefox/88.0";

/// How a request is sent.
#[derive(Clone, Copy, PartialEq, Eq, Structural, Debug)]
pub enum Method {
    Get,
    Post,
}

/// Texts in pairs: the headers of a request or the fields of a form.
pub type Pairs = Vec<(String, String)>;

/// What a list of pairs says.
pub type PairsView = Seq<(Seq<char>, Seq<char>)>;

/// Adds a pair at the end of a list.
pub(crate) fn add_pair(pairs: &mut Pairs, name: &str, value: &str)
    ensures
        final(pairs).deep_view() == old(pairs).deep_view().push((name@, value@)),
{
    let ghost before = pairs.deep_view();
    pairs.push((name.to_owned(), value.to_owned()));
    assert(pairs.deep_view() =~= before.push((name@, value@)));
}

/// A request that goes out through one of two routes, with the proxy or without.
pub struct ZjuRequestBuilder {
    pub jar: Arc<Jar>,
    pub method: Method,
    pub url: String,
    pub headers: Pairs,
    pub form: Option<Pairs>,
    pub custom_proxy: Option<String>,
    pub proxy_first: bool,
}

/// What a request says.
pub struct RequestView {
    pub jar: Arc<Jar>,
    pub method: Method,
    pub url: Seq<char>,
    pub headers: PairsView,
    pub form: Option<PairsView>,
    pub custom_proxy: Option<Seq<char>>,
    pub proxy_first: bool,
}

impl DeepView for ZjuRequestBuilder {
    type V = RequestView;

    open spec fn deep_view(&self) -> RequestView {
        RequestView {
            jar: self.jar,
            method: self.method,
            url: self.url@,
            headers: self.headers.deep_view(),
            form: self.form.deep_view(),
            custom_proxy: self.custom_proxy.deep_view(),
            proxy_first: self.proxy_first,
        }
    }
}

/// A pair of texts with the given name stands in the list.
pub open spec fn names(list: PairsView, name: Seq<char>) -> bool {
    exists|i: int| 0 <= i < list.len() && (#[trigger] list[i]).0 == name
}

/// `list` without the pairs whose names `others` has.
pub open spec fn without_names(list: PairsView, others: PairsView) -> PairsView
    decreases list.len(),
{
    if list.len() == 0 {
        Seq::empty()
    } else if names(others, list.last().0) {
        without_names(list.drop_last(), others)
    } else {
        without_names(list.drop_last(), others).push(list.last())
    }
}

fn has_name(list: &Pairs, name: &str) -> (yes: bool)
    ensures
        yes == names(list.deep_view(), name@),
{
    for i in 0..list.len()
        invariant
            forall|j: int| 0 <= j < i ==> (#[trigger] list.deep_view()[j]).0 != name@,
    {
        if same(list[i].0.as_str(), name) {
            assert(list.deep_view()[i as int].0 == name@);
            return true;
        }
    }
    false
}

impl ZjuRequestBuilder {
    /// Adds headers; those of the same name are replaced.
    pub fn headers(&mut self, headers: Pairs) -> (request: &mut Self)
        ensures
            request.deep_view() == (RequestView {
                headers: without_names(old(self).deep_view().headers, headers.deep_view())
                    + headers.deep_view(),
                ..old(self).deep_view()
            }),
            *final(self) == *final(request),
    {
        let mut headers = headers;
        let ghost added = headers.deep_view();
        let ghost before = self.headers.deep_view();
        let mut kept: Pairs = Vec::new();
        for i in 0..self.headers.len()
            invariant
                before == self.headers.deep_view(),
                added == headers.deep_view(),
                kept.deep_view() == without_names(before.take(i as int), added),
        {
            assert(before.take(i + 1).drop_last() =~= before.take(i as int));
            if !has_name(&headers, self.headers[i].0.as_str()) {
                let ghost so_far = kept.deep_view();
                kept.push((self.headers[i].0.clone(), self.headers[i].1.clone()));
                assert(kept.deep_view() =~= so_far.push(before[i as int]));
            }
        }
        assert(before.take(before.len() as int) =~= before);
        let ghost remaining = kept.deep_view();
        kept.append(&mut headers);
        assert(kept.deep_view() =~= remaining + added);
        self.headers = kept;
        self
    }

    /// Sets the fields of the form that is sent.
    pub fn form(&mut self, form: Pairs) -> (request: &mut Self)
        ensures
            request.deep_view() == (RequestView {
                form: Some(form.deep_view()),
                ..old(self).deep_view()
            }),
            *final(self) == *final(request),
    {
        self.form = Some(form);
        self
    }
}

/// One of the two routes of a request.
#[derive(Clone, Copy, PartialEq, Eq, Structural, Debug)]
pub enum Route {
    First,
    Second,
}

/// What to do after an attempt to send.
#[derive(Clone, Copy, PartialEq, Eq, Structural, Debug)]
pub enum SendStep {
    /// The last outcome stands.
    Stop,
    /// Wait, then send once more.
    Retry { after_ms: u64, route: Route },
}

/// The number of times a request is sent at most.
pub const MAX_ATTEMPTS: u64 = 6;

/// The route of an attempt, counted from zero: the two take turns.
pub open spec fn route_of(attempt: int) -> Route {
    if attempt % 2 == 0 {
        Route::First
    } else {
        Route::Second
    }
}

/// A wait that doubles with each round, counted from zero.
pub open spec fn backoff(round: nat) -> nat {
    100 * pow2(round)
}

/// The sending of one request: the attempts made, and the next wait.
pub struct SendFlow {
    pub made: u64,
    pub delay_ms: u64,
}

impl SendFlow {
    /// Between one and all attempts are made, and the wait fits their number.
    pub open spec fn well_formed(&self) -> bool {
        1 <= self.made <= MAX_ATTEMPTS && self.delay_ms == backoff((self.made - 1) as nat)
    }

    /// Decides what follows the attempt that was made last.
    pub fn next(&mut self, failed: bool) -> (step: SendStep)
        requires
            old(self).well_formed(),
        ensures
            final(self).well_formed(),
            step == send_step(old(self).made as int, failed),
            final(self).made == old(self).made + if step is Retry {
                1int
            } else {
                0
            },
    {
        proof {
            lemma2_to64();
        }
        if !failed || self.made == MAX_ATTEMPTS {
            return SendStep::Stop;
        }
        let after_ms: u64 = self.delay_ms;
        let route = if self.made % 2 == 0 {
            Route::First
        } else {
            Route::Second
        };
        self.made = self.made + 1;
        self.delay_ms = after_ms * 2;
        SendStep::Retry { after_ms, route }
    }
}

/// What follows when `made` attempts are made and the last one failed or not.
pub open spec fn send_step(made: int, failed: bool) -> SendStep {
    if !failed || made == MAX_ATTEMPTS {
        SendStep::Stop
    } else {
        SendStep::Retry { after_ms: backoff((made - 1) as nat) as u64, route: route_of(made) }
    }
}

impl ZjuRequestBuilder {
    /// The route of the attempt that is made first.
    pub fn first_route(&self) -> (route: Route)
        ensures
            route == route_of(0),
    {
        Route::First
    }

    /// Starts to send: the first attempt is made, by the first route.
    pub fn send(&self) -> (flow: SendFlow)
        ensures
            flow.well_formed(),
            flow.made == 1,
    {
        proof {
            lemma2_to64();
        }
        SendFlow { made: 1, delay_ms: 100 }
    }

    /// A route goes through the proxy.
    pub open spec fn route_has_proxy(&self, route: Route) -> bool {
        (route is First) == self.proxy_first
    }

    /// Whether a route goes through the proxy.
    pub fn through_proxy(&self, route: Route) -> (yes: bool)
        ensures
            yes == self.route_has_proxy(route),
    {
        match route {
            Route::First => self.proxy_first,
            Route::Second => !self.proxy_first,
        }
    }
}

/// How many of the first `n` attempts take a route.
pub open spec fn attempts_by(route: Route, n: nat) -> nat
    decreases n,
{
    if n == 0 {
        0
    } else {
        attempts_by(route, (n - 1) as nat) + if route_of(n - 1) == route {
            1nat
        } else {
            0
        }
    }
}

/// A request that always fails is sent six times, three times by each route.
pub proof fn each_route_three_times()
    ensures
        attempts_by(Route::First, MAX_ATTEMPTS as nat) == 3,
        attempts_by(Route::Second, MAX_ATTEMPTS as nat) == 3,
{
    reveal_with_fuel(attempts_by, 7);
}

/// A request is sent again exactly while it fails and attempts are left.
pub proof fn retries_are_bounded(made: int, failed: bool)
    requires
        1 <= made <= MAX_ATTEMPTS,
    ensures
        send_step(made, failed) is Retry <==> failed && made < MAX_ATTEMPTS,
{
}

/// The first wait is a tenth of a second, and each one that follows is twice as long.
pub proof fn every_wait_is_twice_the_last(made: int)
    requires
        1 <= made < MAX_ATTEMPTS,
    ensures
        send_step(made, true) matches SendStep::Retry { after_ms, .. } && {
            &&& made == 1 ==> after_ms == 100
            &&& made + 1 < MAX_ATTEMPTS ==> (send_step(made + 1, true) matches SendStep::Retry {
                after_ms: next,
                ..
            } && next == 2 * after_ms)
        },
        backoff(0) == 100,
        backoff(made as nat) == 2 * backoff((made - 1) as nat),
{
    lemma2_to64();
    assert(pow2(0) == 1 && pow2(1) == 2 && pow2(2) == 4 && pow2(3) == 8 && pow2(4) == 16 && pow2(5)
        == 32);
    assert(made == 1 || made == 2 || made == 3 || made == 4 || made == 5);
}

/// A request goes by its first route first, and after each failure by the other one. One that did
/// not fail is not sent again, and neither is one that failed six times.
pub proof fn routes_take_turns(made: int)
    requires
        1 <= made,
    ensures
        route_of(0) == Route::First,
        route_of(made) != route_of(made - 1),
        send_step(made, false) is Stop,
        made < 6 ==> (send_step(made, true) matches SendStep::Retry { route, .. } && route
            == route_of(made)),
        send_step(6, true) is Stop,
{
}

impl ZjuRequestBuilder {
    /// One of the two routes has the proxy of the request: the first one where it goes first.
    pub proof fn one_route_has_the_proxy(&self)
        ensures
            self.route_has_proxy(Route::First) != self.route_has_proxy(Route::Second),
            self.proxy_first ==> self.route_has_proxy(Route::First),
            !self.proxy_first ==> self.route_has_proxy(Route::Second),
    {
    }
}

/// A pair of a list has a name that is none of the names of another list.
pub open spec fn is_apart(list: PairsView, others: PairsView, i: int) -> bool {
    forall|k: int| 0 <= k < others.len() ==> (#[trigger] others[k]).0 != list[i].0
}

/// Of a list, the pairs stay whose names another list does not have, and no others.
pub proof fn pairs_of_other_names_stay(list: PairsView, others: PairsView)
    ensures
        forall|i: int|
            0 <= i < list.len() && #[trigger] is_apart(list, others, i) ==> without_names(
                list,
                others,
            ).contains(list[i]),
        forall|j: int|
            0 <= j < without_names(list, others).len() ==> list.contains(
                #[trigger] without_names(list, others)[j],
            ) && is_apart(without_names(list, others), others, j),
    decreases list.len(),
{
    if list.len() > 0 {
        let head = list.drop_last();
        let last = list.len() - 1;
        let before = without_names(head, others);
        let kept = without_names(list, others);
        pairs_of_other_names_stay(head, others);
        assert(forall|i: int| 0 <= i < before.len() ==> before[i] == #[trigger] kept[i]);
        assert forall|i: int| 0 <= i < list.len() && #[trigger] is_apart(
            list,
            others,
            i,
        ) implies kept.contains(list[i]) by {
            if i < last {
                assert(head[i] == list[i]);
                assert(is_apart(head, others, i));
                let j = choose|j: int| 0 <= j < before.len() && before[j] == head[i];
                assert(kept[j] == list[i]);
            } else {
                assert(!names(others, list.last().0));
                assert(kept[kept.len() - 1] == list[i]);
            }
        }
        assert forall|j: int| 0 <= j < kept.len() implies list.contains(#[trigger] kept[j])
            && is_apart(kept, others, j) by {
            if j < before.len() {
                assert(before[j] == kept[j]);
                assert(head.contains(before[j]) && is_apart(before, others, j));
                let i = choose|i: int| 0 <= i < head.len() && head[i] == before[j];
                assert(list[i] == kept[j]);
            } else {
                assert(list[last] == kept[j]);
                assert forall|k: int| 0 <= k < others.len() implies (#[trigger] others[k]).0
                    != kept[j].0 by {
                    if others[k].0 == list.last().0 {
                        assert(names(others, list.last().0));
                    }
                }
            }
        }
    }
}

/// One pair more is kept behind the others, where its name is none of the names of the other
/// list.
pub proof fn one_pair_more_is_kept_last(
    list: PairsView,
    others: PairsView,
    pair: (Seq<char>, Seq<char>),
)
    ensures
        without_names(Seq::empty(), others).len() == 0,
        without_names(list.push(pair), others) == if exists|k: int|
            0 <= k < others.len() && (#[trigger] others[k]).0 == pair.0 {
            without_names(list, others)
        } else {
            without_names(list, others).push(pair)
        },
{
    assert(list.push(pair).drop_last() =~= list);
}

} // verus!
