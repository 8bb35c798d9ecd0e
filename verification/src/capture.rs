//! The sessions that capture live transcripts, and those that are scheduled.
use std::collections::{HashMap, HashSet};
use vstd::prelude::*;
use vstd::std_specs::iter::IteratorSpec;
use crate::boundary::{check_socket, cookies_shown, socket_refusal, CLASSROOM_SITE};
use crate::classroom::asked_with;
use crate::courses::with_number;
use crate::error::{outcome, Error, ErrorOf, ErrorView};
use crate::json::json_of_bytes;
use crate::live::{catalogue_url, live_ws_url, socket_found};
use crate::login::token_in;
use crate::model::{
    LineView, LiveTranscriptLine, LiveTranscriptSessionStatus, StatusView, SubtitleContent,
    SubtitleView,
};
use crate::numeral::{decimal, numbers_are_written_apart};
use crate::request::{Pairs, PairsView, ZjuRequestBuilder, USER_AGENT};
use crate::transcript::{
    backfill, backfilled, keys_of, line_key, line_keys, merged, merging_keeps_keys_apart,
    merging_only_adds, merging_takes_every_key, message_lines, recorded_lines, transcript_text, write_transcript,
};
use crate::zju_assist::ZjuAssist;

verus! {

broadcast use vstd::std_specs::hash::group_hash_axioms;

// ---------------------------------------------------------------- the store

/// A session that captures the transcript of a lecture.
pub struct LiveTranscriptSession {
    pub course_id: i64,
    pub sub_id: i64,
    pub ws_url: String,
    pub started_at_ms: u64,
    pub lines: Vec<LiveTranscriptLine>,
    /// The keys that the capture has seen.
    pub keys: Vec<String>,
    pub running: bool,
}

/// What a session says.
pub struct CaptureView {
    pub course_id: i64,
    pub sub_id: i64,
    pub ws_url: Seq<char>,
    pub started_at_ms: u64,
    pub lines: Seq<LineView>,
    pub keys: Seq<Seq<char>>,
    pub running: bool,
}

impl DeepView for LiveTranscriptSession {
    type V = CaptureView;

    open spec fn deep_view(&self) -> CaptureView {
        CaptureView {
            course_id: self.course_id,
            sub_id: self.sub_id,
            ws_url: self.ws_url@,
            started_at_ms: self.started_at_ms,
            lines: self.lines.deep_view(),
            keys: self.keys.deep_view(),
            running: self.running,
        }
    }
}

/// The sessions by the number of the lecture, and the lectures whose capture is scheduled.
pub struct LiveTranscriptStore {
    pub sessions: HashMap<i64, LiveTranscriptSession>,
    pub scheduled: HashSet<i64>,
}

/// What the store says.
pub struct StoreView {
    pub sessions: Map<i64, CaptureView>,
    pub scheduled: Set<i64>,
}

/// What sessions say.
pub open spec fn captures(sessions: Map<i64, LiveTranscriptSession>) -> Map<i64, CaptureView> {
    sessions.map_values(|session: LiveTranscriptSession| session.deep_view())
}

impl DeepView for LiveTranscriptStore {
    type V = StoreView;

    open spec fn deep_view(&self) -> StoreView {
        StoreView { sessions: captures(self.sessions@), scheduled: self.scheduled@ }
    }
}

impl StoreView {
    /// The lines of the session of a lecture, none if there is no session.
    pub open spec fn lines(self, sub_id: i64) -> Seq<LineView> {
        if self.sessions.contains_key(sub_id) {
            self.sessions[sub_id].lines
        } else {
            Seq::empty()
        }
    }

    /// The store without what it has on a lecture.
    pub open spec fn without(self, sub_id: i64) -> StoreView {
        StoreView {
            sessions: self.sessions.remove(sub_id),
            scheduled: self.scheduled.remove(sub_id),
        }
    }

    /// The store with a session for a lecture.
    pub open spec fn with(self, sub_id: i64, session: CaptureView) -> StoreView {
        StoreView { sessions: self.sessions.insert(sub_id, session), ..self }
    }
}

impl LiveTranscriptStore {
    /// A store without sessions and schedules.
    pub fn new() -> (store: LiveTranscriptStore)
        ensures
            store.deep_view() == (StoreView { sessions: Map::empty(), scheduled: Set::empty() }),
    {
        let store = LiveTranscriptStore { sessions: HashMap::new(), scheduled: HashSet::new() };
        assert(store.deep_view().sessions =~= Map::empty());
        store
    }

    fn take(&mut self, sub_id: i64) -> (session: Option<LiveTranscriptSession>)
        ensures
            final(self).deep_view() == (StoreView {
                sessions: old(self).deep_view().sessions.remove(sub_id),
                ..old(self).deep_view()
            }),
            final(self).sessions@ == old(self).sessions@.remove(sub_id),
            final(self).scheduled == old(self).scheduled,
            match session {
                Some(session) => old(self).deep_view().sessions.contains_key(sub_id)
                    && session.deep_view() == old(self).deep_view().sessions[sub_id],
                None => !old(self).deep_view().sessions.contains_key(sub_id),
            },
    {
        let session = self.sessions.remove(&sub_id);
        assert(captures(self.sessions@) =~= captures(old(self).sessions@).remove(sub_id));
        session
    }

    fn put(&mut self, sub_id: i64, session: LiveTranscriptSession)
        ensures
            final(self).deep_view() == old(self).deep_view().with(sub_id, session.deep_view()),
    {
        self.sessions.insert(sub_id, session);
        assert(captures(self.sessions@) =~= captures(old(self).sessions@).insert(
            sub_id,
            session.deep_view(),
        ));
    }
}

// ---------------------------------------------------------------- starting a capture

/// What the start of a capture leaves to do: the lines that an earlier capture of the lecture
/// has left, whether that capture and a scheduled one must be stopped, and the request for the
/// catalogue.
pub struct CaptureStart {
    pub lines: Vec<LiveTranscriptLine>,
    pub stops_capture: bool,
    pub stops_schedule: bool,
    pub request: Result<ZjuRequestBuilder, Error>,
}

impl LiveTranscriptStore {
    /// Takes out what the store has on a lecture: the lines, and whether there was a session
    /// and a schedule.
    pub fn take_over(&mut self, sub_id: i64) -> (taken: (Vec<LiveTranscriptLine>, bool, bool))
        ensures
            final(self).deep_view() == old(self).deep_view().without(sub_id),
            taken.0.deep_view() == old(self).deep_view().lines(sub_id),
            taken.1 == old(self).deep_view().sessions.contains_key(sub_id),
            taken.2 == old(self).deep_view().scheduled.contains(sub_id),
    {
        let session = self.take(sub_id);
        let was_scheduled = self.scheduled.remove(&sub_id);
        match session {
            Some(session) => (session.lines, true, was_scheduled),
            None => {
                let lines: Vec<LiveTranscriptLine> = Vec::new();
                assert(lines.deep_view() =~= Seq::<LineView>::empty());
                (lines, false, was_scheduled)
            },
        }
    }
}

/// The address of the socket, unless it is refused.
pub open spec fn accepted_socket(ws_url: Seq<char>, refusal: Option<Seq<char>>) -> Result<
    Seq<char>,
    ErrorView,
> {
    match refusal {
        Some(reason) => Err(ErrorOf::InvalidSocketUrl { url: ws_url, reason }),
        None => Ok(ws_url),
    }
}

/// The session of a capture that starts with the lines that are there.
pub open spec fn new_capture(
    course_id: i64,
    sub_id: i64,
    ws_url: Seq<char>,
    started_at_ms: u64,
    lines: Seq<LineView>,
) -> CaptureView {
    CaptureView {
        course_id,
        sub_id,
        ws_url,
        started_at_ms,
        lines,
        keys: keys_of(lines),
        running: true,
    }
}

/// The headers with which a socket is opened.
pub open spec fn socket_headers() -> PairsView {
    seq![("Origin"@, "https://classroom.zju.edu.cn"@), ("user-agent"@, USER_AGENT@)]
}

impl ZjuAssist {
    /// Starts to capture the transcript of a lecture: an earlier capture and a schedule of it
    /// end, and the catalogue of the course is asked for.
    pub fn start_live_transcript_capture(
        &self,
        store: &mut LiveTranscriptStore,
        course_id: i64,
        sub_id: i64,
    ) -> (start: Result<CaptureStart, Error>)
        ensures
            match start {
                Err(error) => {
                    &&& !self.have_login
                    &&& error.deep_view() == ErrorOf::<Seq<char>>::NotLogin
                    &&& final(store).deep_view() == old(store).deep_view()
                },
                Ok(start) => {
                    &&& self.have_login
                    &&& final(store).deep_view() == old(store).deep_view().without(sub_id)
                    &&& start.lines.deep_view() == old(store).deep_view().lines(sub_id)
                    &&& start.stops_capture == old(store).deep_view().sessions.contains_key(sub_id)
                    &&& start.stops_schedule == old(store).deep_view().scheduled.contains(sub_id)
                    &&& exists|cookies: Option<Seq<char>>|
                        cookies_shown(*self.jar, CLASSROOM_SITE@, cookies) && outcome(
                            start.request,
                        ) == asked_with(
                            self.deep_view(),
                            catalogue_url(course_id),
                            #[trigger] token_in(cookies),
                        )
                },
            },
    {
        if !self.have_login {
            return Err(ErrorOf::NotLogin);
        }
        let (lines, stops_capture, stops_schedule) = store.take_over(sub_id);
        let request = self.get_trans_socket_url(course_id);
        Ok(CaptureStart { lines, stops_capture, stops_schedule, request })
    }

    /// The address of a socket, unless it is refused.
    pub fn accept_socket(ws_url: String, refusal: Option<String>) -> (accepted: Result<
        String,
        Error,
    >)
        ensures
            outcome(accepted) == accepted_socket(ws_url@, refusal.deep_view()),
    {
        match refusal {
            Some(reason) => Err(ErrorOf::InvalidSocketUrl { url: ws_url, reason }),
            None => Ok(ws_url),
        }
    }

    /// The address of the socket on which the transcript of a lecture comes, in a reply with
    /// the catalogue.
    pub fn capture_socket(body: &[u8], sub_id: i64) -> (ws_url: Result<String, Error>)
        ensures
            outcome(ws_url) == match socket_found(json_of_bytes(body@), sub_id) {
                Ok(url) => accepted_socket(live_ws_url(url), socket_refusal(live_ws_url(url))),
                Err(error) => Err(error),
            },
    {
        match ZjuAssist::trans_socket_url(body, sub_id) {
            Err(error) => Err(error),
            Ok(url) => {
                let ws_url = ZjuAssist::normalize_live_ws_url(url.as_str());
                let refusal = check_socket(ws_url.as_str());
                ZjuAssist::accept_socket(ws_url, refusal)
            },
        }
    }

    /// The headers with which a socket is opened.
    pub fn capture_headers() -> (headers: Pairs)
        ensures
            headers.deep_view() == socket_headers(),
    {
        let mut headers: Pairs = Vec::new();
        headers.push(("Origin".to_owned(), "https://classroom.zju.edu.cn".to_owned()));
        headers.push(("user-agent".to_owned(), USER_AGENT.to_owned()));
        assert(headers.deep_view() =~= socket_headers());
        headers
    }

    /// Takes up that the socket is open, or why it is not: the lecture then has a session,
    /// which goes on with the lines of an earlier one.
    pub fn capture_connected(
        store: &mut LiveTranscriptStore,
        course_id: i64,
        sub_id: i64,
        ws_url: String,
        lines: Vec<LiveTranscriptLine>,
        connected: Result<(), String>,
        started_at_ms: u64,
    ) -> (status: Result<LiveTranscriptSessionStatus, Error>)
        ensures
            match connected {
                Ok(_) => {
                    &&& final(store).deep_view() == old(store).deep_view().with(
                        sub_id,
                        new_capture(course_id, sub_id, ws_url@, started_at_ms, lines.deep_view()),
                    )
                    &&& outcome(status) == Ok::<StatusView, ErrorView>(
                        StatusView {
                            course_id,
                            sub_id,
                            ws_url: ws_url@,
                            started_at_ms,
                            line_count: 0,
                            is_running: true,
                        },
                    )
                },
                Err(reason) => {
                    &&& final(store).deep_view() == old(store).deep_view()
                    &&& outcome(status) == Err::<StatusView, ErrorView>(
                        ErrorOf::SocketConnect { url: ws_url@, reason: reason@ },
                    )
                },
            },
    {
        if let Err(reason) = connected {
            return Err(ErrorOf::SocketConnect { url: ws_url, reason });
        }
        let keys = line_keys(&lines);
        let session = LiveTranscriptSession {
            course_id,
            sub_id,
            ws_url: ws_url.clone(),
            started_at_ms,
            lines,
            keys,
            running: true,
        };
        store.put(sub_id, session);
        Ok(
            LiveTranscriptSessionStatus {
                course_id,
                sub_id,
                ws_url,
                started_at_ms,
                line_count: 0,
                is_running: true,
            },
        )
    }
}

// ---------------------------------------------------------------- the running capture

/// What is sent when the socket is open.
pub const CAPTURE_OPENING: &'static str = r#"in{"version":"1.9.1"}"#;

/// What is sent from time to time.
pub const HEARTBEAT: &'static str = "po";

/// The time between two heartbeats.
pub const HEARTBEAT_SECS: u64 = 30;

/// What happens to a running capture.
pub enum CaptureEvent {
    /// The socket is open.
    Opened,
    /// A text came.
    Text(String),
    /// Something else came.
    Other,
    /// It is time for a heartbeat.
    Tick,
    /// The socket was closed or failed, or something could not be sent.
    Over,
}

/// What an event of a running capture says.
pub enum CaptureEventView {
    Opened,
    Text(Seq<char>),
    Other,
    Tick,
    Over,
}

impl DeepView for CaptureEvent {
    type V = CaptureEventView;

    open spec fn deep_view(&self) -> CaptureEventView {
        match self {
            CaptureEvent::Opened => CaptureEventView::Opened,
            CaptureEvent::Text(text) => CaptureEventView::Text(text@),
            CaptureEvent::Other => CaptureEventView::Other,
            CaptureEvent::Tick => CaptureEventView::Tick,
            CaptureEvent::Over => CaptureEventView::Over,
        }
    }
}

/// What a running capture does next; `T` is the type of its texts.
pub enum CaptureActionOf<T> {
    Wait,
    Send(T),
    Stop,
}

/// What a running capture does next.
pub type CaptureAction = CaptureActionOf<String>;

/// What the next action of a running capture says.
pub type CaptureActionView = CaptureActionOf<Seq<char>>;

impl DeepView for CaptureAction {
    type V = CaptureActionView;

    open spec fn deep_view(&self) -> CaptureActionView {
        match self {
            CaptureActionOf::Wait => CaptureActionOf::Wait,
            CaptureActionOf::Send(text) => CaptureActionOf::Send(text@),
            CaptureActionOf::Stop => CaptureActionOf::Stop,
        }
    }
}

/// The session after a message.
pub open spec fn after_message(
    session: CaptureView,
    text: Seq<char>,
    received_at_ms: u64,
) -> CaptureView {
    let (lines, keys) = merged(session.lines, session.keys, message_lines(text, received_at_ms));
    CaptureView { lines, keys, ..session }
}

/// The store after an event of the capture of a lecture.
pub open spec fn store_after(
    store: StoreView,
    sub_id: i64,
    event: CaptureEventView,
    now_ms: u64,
) -> StoreView {
    if !store.sessions.contains_key(sub_id) {
        store
    } else {
        let session = store.sessions[sub_id];
        match event {
            CaptureEventView::Text(text) => store.with(
                sub_id,
                after_message(session, text, now_ms),
            ),
            CaptureEventView::Over => store.with(
                sub_id,
                CaptureView { running: false, ..session },
            ),
            _ => store,
        }
    }
}

/// What a capture does after an event.
pub open spec fn action_after(event: CaptureEventView) -> CaptureActionView {
    match event {
        CaptureEventView::Opened => CaptureActionOf::Send(CAPTURE_OPENING@),
        CaptureEventView::Tick => CaptureActionOf::Send(HEARTBEAT@),
        CaptureEventView::Over => CaptureActionOf::Stop,
        _ => CaptureActionOf::Wait,
    }
}

impl ZjuAssist {
    /// Takes up an event of the capture of a lecture.
    pub fn capture_event(
        store: &mut LiveTranscriptStore,
        sub_id: i64,
        event: CaptureEvent,
        now_ms: u64,
    ) -> (action: CaptureAction)
        ensures
            final(store).deep_view() == store_after(
                old(store).deep_view(),
                sub_id,
                event.deep_view(),
                now_ms,
            ),
            action.deep_view() == action_after(event.deep_view()),
    {
        match event {
            CaptureEvent::Opened => CaptureActionOf::Send(CAPTURE_OPENING.to_owned()),
            CaptureEvent::Tick => CaptureActionOf::Send(HEARTBEAT.to_owned()),
            CaptureEvent::Other => CaptureActionOf::Wait,
            CaptureEvent::Text(text) => {
                if let Some(mut session) = store.take(sub_id) {
                    ZjuAssist::parse_live_ws_message(
                        &mut session.lines,
                        &mut session.keys,
                        text.as_str(),
                        now_ms,
                    );
                    store.put(sub_id, session);
                }
                assert(store.deep_view().sessions =~= store_after(
                    old(store).deep_view(),
                    sub_id,
                    event.deep_view(),
                    now_ms,
                ).sessions);
                CaptureActionOf::Wait
            },
            CaptureEvent::Over => {
                if let Some(mut session) = store.take(sub_id) {
                    session.running = false;
                    store.put(sub_id, session);
                }
                assert(store.deep_view().sessions =~= store_after(
                    old(store).deep_view(),
                    sub_id,
                    event.deep_view(),
                    now_ms,
                ).sessions);
                CaptureActionOf::Stop
            },
        }
    }
}

/// Whatever comes, a capture only adds lines to its own session, and touches nothing else.
pub proof fn a_capture_only_adds_lines(
    store: StoreView,
    sub_id: i64,
    event: CaptureEventView,
    now_ms: u64,
)
    ensures
        ({
            let after = store_after(store, sub_id, event, now_ms);
            &&& after.scheduled == store.scheduled
            &&& after.sessions.dom() == store.sessions.dom()
            &&& forall|other: i64|
                other != sub_id && #[trigger] store.sessions.contains_key(other)
                    ==> after.sessions[other] == store.sessions[other]
            &&& store.lines(sub_id).is_prefix_of(after.lines(sub_id))
        }),
{
    let after = store_after(store, sub_id, event, now_ms);
    assert(after.sessions.dom() =~= store.sessions.dom());
    if let CaptureEventView::Text(text) = event {
        if store.sessions.contains_key(sub_id) {
            let session = store.sessions[sub_id];
            merging_only_adds(session.lines, session.keys, message_lines(text, now_ms));
        }
    }
}

/// A capture brings no line twice: as long as the keys it has seen are those of the lines, and
/// these are all different, a message keeps them so.
pub proof fn a_capture_brings_no_line_twice(session: CaptureView, text: Seq<char>, now_ms: u64)
    requires
        session.keys == keys_of(session.lines),
        session.keys.no_duplicates(),
    ensures
        ({
            let after = after_message(session, text, now_ms);
            after.keys == keys_of(after.lines) && after.keys.no_duplicates()
        }),
{
    let more = message_lines(text, now_ms);
    let after = after_message(session, text, now_ms);
    merging_only_adds(session.lines, session.keys, more);
    merging_keeps_keys_apart(session.lines, session.keys, more);
    assert(after.lines =~= session.lines + after.lines.skip(session.lines.len() as int));
    assert(after.keys =~= keys_of(after.lines));
}

// ---------------------------------------------------------------- schedules

/// What follows the wish to capture a lecture from a time on.
#[derive(Clone, Copy, PartialEq, Eq, Structural, Debug)]
pub enum ScheduleStep {
    /// The capture starts now.
    Start,
    /// There is a session or a schedule already.
    Nothing,
    /// The capture starts after a wait.
    Wait { delay_secs: u64 },
}

/// What follows the wish to capture a lecture from a time on: within two seconds it starts at
/// once.
pub open spec fn schedule_step(
    store: StoreView,
    sub_id: i64,
    start_at: i64,
    now: i64,
) -> ScheduleStep {
    if start_at <= now + 2 {
        ScheduleStep::Start
    } else if store.sessions.contains_key(sub_id) || store.scheduled.contains(sub_id) {
        ScheduleStep::Nothing
    } else {
        ScheduleStep::Wait { delay_secs: (start_at - now) as u64 }
    }
}

impl ZjuAssist {
    /// Schedules the capture of a lecture for a time, both in seconds.
    pub fn schedule_live_transcript_capture_at(
        &self,
        store: &mut LiveTranscriptStore,
        sub_id: i64,
        start_at: i64,
        now: i64,
    ) -> (step: Result<ScheduleStep, Error>)
        requires
            0 <= now <= i64::MAX - 2,
        ensures
            match step {
                Err(error) => {
                    &&& !self.have_login
                    &&& error.deep_view() == ErrorOf::<Seq<char>>::NotLogin
                    &&& final(store).deep_view() == old(store).deep_view()
                },
                Ok(step) => {
                    &&& self.have_login
                    &&& step == schedule_step(old(store).deep_view(), sub_id, start_at, now)
                    &&& final(store).deep_view() == if step is Wait {
                        StoreView {
                            scheduled: old(store).deep_view().scheduled.insert(sub_id),
                            ..old(store).deep_view()
                        }
                    } else {
                        old(store).deep_view()
                    }
                },
            },
    {
        if !self.have_login {
            return Err(ErrorOf::NotLogin);
        }
        if start_at <= now + 2 {
            return Ok(ScheduleStep::Start);
        }
        if store.sessions.contains_key(&sub_id) || store.scheduled.contains(&sub_id) {
            return Ok(ScheduleStep::Nothing);
        }
        let delay_secs: u64 = (start_at - now) as u64;
        store.scheduled.insert(sub_id);
        Ok(ScheduleStep::Wait { delay_secs })
    }

    /// Takes up that a scheduled capture had its turn.
    pub fn scheduled_capture_done(store: &mut LiveTranscriptStore, sub_id: i64)
        ensures
            final(store).deep_view() == (StoreView {
                scheduled: old(store).deep_view().scheduled.remove(sub_id),
                ..old(store).deep_view()
            }),
    {
        store.scheduled.remove(&sub_id);
    }

    /// Cancels the schedule of a lecture.
    pub fn cancel_scheduled_live_transcript_capture(
        store: &mut LiveTranscriptStore,
        sub_id: i64,
    ) -> (result: Result<(), Error>)
        ensures
            final(store).deep_view() == (StoreView {
                scheduled: old(store).deep_view().scheduled.remove(sub_id),
                ..old(store).deep_view()
            }),
            outcome(result) == if old(store).deep_view().scheduled.contains(sub_id) {
                Ok::<(), ErrorView>(())
            } else {
                Err(ErrorOf::ScheduleNotFound(sub_id))
            },
    {
        if store.scheduled.remove(&sub_id) {
            Ok(())
        } else {
            Err(ErrorOf::ScheduleNotFound(sub_id))
        }
    }

    /// Stops the capture of a lecture; its lines stay.
    pub fn stop_live_transcript_capture(store: &mut LiveTranscriptStore, sub_id: i64) -> (result:
        Result<(), Error>)
        ensures
            final(store).deep_view() == store_after(
                old(store).deep_view(),
                sub_id,
                CaptureEventView::Over,
                0,
            ),
            outcome(result) == if old(store).deep_view().sessions.contains_key(sub_id) {
                Ok::<(), ErrorView>(())
            } else {
                Err(ErrorOf::SessionNotFound(sub_id))
            },
    {
        if !store.sessions.contains_key(&sub_id) {
            return Err(ErrorOf::SessionNotFound(sub_id));
        }
        ZjuAssist::capture_event(store, sub_id, CaptureEvent::Over, 0);
        Ok(())
    }

    /// Ends the session and the schedule of a lecture and forgets the lines.
    pub fn clear_live_transcript_session(store: &mut LiveTranscriptStore, sub_id: i64) -> (result:
        Result<(), Error>)
        ensures
            final(store).deep_view() == old(store).deep_view().without(sub_id),
            outcome(result) == if old(store).deep_view().sessions.contains_key(sub_id) {
                Ok::<(), ErrorView>(())
            } else {
                Err(ErrorOf::SessionNotFound(sub_id))
            },
    {
        let (_, had_session, _) = store.take_over(sub_id);
        if had_session {
            Ok(())
        } else {
            Err(ErrorOf::SessionNotFound(sub_id))
        }
    }
}

/// A lecture whose capture was stopped and started again keeps its lines.
pub proof fn a_restart_keeps_the_lines(
    store: StoreView,
    sub_id: i64,
    course_id: i64,
    ws_url: Seq<char>,
    started_at_ms: u64,
)
    requires
        store.sessions.contains_key(sub_id),
    ensures
        ({
            let stopped = store_after(store, sub_id, CaptureEventView::Over, 0);
            let restarted = stopped.without(sub_id).with(
                sub_id,
                new_capture(course_id, sub_id, ws_url, started_at_ms, stopped.lines(sub_id)),
            );
            &&& !stopped.sessions[sub_id].running
            &&& stopped.lines(sub_id) == store.lines(sub_id)
            &&& restarted.sessions[sub_id].running
            &&& restarted.lines(sub_id) == store.lines(sub_id)
            &&& restarted.sessions.remove(sub_id) =~= store.sessions.remove(sub_id)
        }),
{
}

// ---------------------------------------------------------------- what was captured

/// The lines of the session of a lecture.
pub open spec fn session_lines(store: StoreView, sub_id: i64) -> Result<Seq<LineView>, ErrorView> {
    if store.sessions.contains_key(sub_id) {
        Ok(store.sessions[sub_id].lines)
    } else {
        Err(ErrorOf::SessionNotFound(sub_id))
    }
}

/// The state of a session.
pub open spec fn status_of(session: CaptureView) -> StatusView {
    StatusView {
        course_id: session.course_id,
        sub_id: session.sub_id,
        ws_url: session.ws_url,
        started_at_ms: session.started_at_ms,
        line_count: session.lines.len() as int,
        is_running: session.running,
    }
}

/// The states of sessions, in an order of their lectures.
pub open spec fn statuses_in(sessions: Map<i64, CaptureView>, order: Seq<i64>) -> Seq<StatusView> {
    order.map_values(|sub_id: i64| status_of(sessions[sub_id]))
}

fn duplicate_lines(lines: &Vec<LiveTranscriptLine>) -> (copies: Vec<LiveTranscriptLine>)
    ensures
        copies.deep_view() == lines.deep_view(),
{
    let ghost all = lines.deep_view();
    let mut copies: Vec<LiveTranscriptLine> = Vec::new();
    assert(copies.deep_view() =~= all.take(0));
    for i in 0..lines.len()
        invariant
            all == lines.deep_view(),
            copies.deep_view() =~= all.take(i as int),
    {
        let ghost before = copies.deep_view();
        let copy = lines[i].duplicate();
        copies.push(copy);
        assert(copies.deep_view() =~= before.push(copy.deep_view()));
        assert(all[i as int] == lines@[i as int].deep_view());
    }
    assert(all.take(all.len() as int) =~= all);
    copies
}

impl ZjuAssist {
    /// The lines that the session of a lecture has.
    pub fn get_live_transcript_lines(store: &LiveTranscriptStore, sub_id: i64) -> (lines: Result<
        Vec<LiveTranscriptLine>,
        Error,
    >)
        ensures
            outcome(lines) == session_lines(store.deep_view(), sub_id),
    {
        match store.sessions.get(&sub_id) {
            Some(session) => Ok(duplicate_lines(&session.lines)),
            None => Err(ErrorOf::SessionNotFound(sub_id)),
        }
    }

    /// The states of all sessions, each once, in no particular order.
    pub fn get_live_transcript_sessions(store: &LiveTranscriptStore) -> (statuses: Vec<
        LiveTranscriptSessionStatus,
    >)
        ensures
            exists|order: Seq<i64>|
                {
                    &&& order.no_duplicates()
                    &&& order.to_set() == store.deep_view().sessions.dom()
                    &&& statuses.deep_view() == #[trigger] statuses_in(
                        store.deep_view().sessions,
                        order,
                    )
                },
    {
        let ghost sessions = store.deep_view().sessions;
        let mut statuses: Vec<LiveTranscriptSessionStatus> = Vec::new();
        let found = store.sessions.keys();
        let ghost all = found.remaining();
        let ghost order = all.unref();
        assert(statuses.deep_view() =~= statuses_in(sessions, order.take(0)));
        for sub_id in keys: found
            invariant
                sessions == store.deep_view().sessions,
                keys.seq() == all,
                order == all.unref(),
                order.to_set() == store.sessions@.dom(),
                statuses.deep_view() == statuses_in(sessions, order.take(keys.index())),
        {
            assert(order.to_set().contains(order[keys.index()]));
            if let Some(session) = store.sessions.get(sub_id) {
                let status = LiveTranscriptSessionStatus {
                    course_id: session.course_id,
                    sub_id: session.sub_id,
                    ws_url: session.ws_url.clone(),
                    started_at_ms: session.started_at_ms,
                    line_count: session.lines.len(),
                    is_running: session.running,
                };
                let ghost before = statuses.deep_view();
                statuses.push(status);
                assert(statuses.deep_view() =~= before.push(status.deep_view()));
                assert(order.take(keys.index() + 1) =~= order.take(keys.index()).push(*sub_id));
            }
        }
        assert(order.take(order.len() as int) =~= order);
        assert(order.no_duplicates());
        assert(sessions.dom() =~= store.sessions@.dom());
        statuses
    }

    /// The transcript of the session of a lecture, written out.
    pub fn export_live_transcript_text(
        store: &LiveTranscriptStore,
        sub_id: i64,
        include_original: bool,
        with_timestamps: bool,
    ) -> (text: Result<String, Error>)
        ensures
            outcome(text) == match session_lines(store.deep_view(), sub_id) {
                Ok(lines) => Ok::<Seq<char>, ErrorView>(
                    transcript_text(lines, include_original, with_timestamps),
                ),
                Err(error) => Err(error),
            },
    {
        match store.sessions.get(&sub_id) {
            Some(session) => Ok(
                write_transcript(&session.lines, include_original, with_timestamps),
            ),
            None => Err(ErrorOf::SessionNotFound(sub_id)),
        }
    }

    /// Merges a recorded transcript into the lines of the session of a lecture, and counts the
    /// lines that it brought. The keys that a running capture has seen stay as they are.
    pub fn backfill_lines(
        store: &mut LiveTranscriptStore,
        sub_id: i64,
        items: &Vec<SubtitleContent>,
        received_at_ms: u64,
    ) -> (inserted: Result<usize, Error>)
        ensures
            match session_lines(old(store).deep_view(), sub_id) {
                Err(error) => {
                    &&& final(store).deep_view() == old(store).deep_view()
                    &&& outcome_of_count(inserted) == Err::<int, ErrorView>(error)
                },
                Ok(lines) => {
                    let after = backfilled(lines, items.deep_view(), received_at_ms);
                    &&& final(store).deep_view() == old(store).deep_view().with(
                        sub_id,
                        CaptureView { lines: after, ..old(store).deep_view().sessions[sub_id] },
                    )
                    &&& outcome_of_count(inserted) == Ok::<int, ErrorView>(
                        after.len() - lines.len(),
                    )
                },
            },
    {
        match store.take(sub_id) {
            None => {
                assert(store.deep_view().sessions =~= old(store).deep_view().sessions);
                Err(ErrorOf::SessionNotFound(sub_id))
            },
            Some(session) => {
                let mut session = session;
                let inserted: usize = backfill(&mut session.lines, items, received_at_ms);
                store.put(sub_id, session);
                assert(store.deep_view().sessions =~= old(store).deep_view().sessions.insert(
                    sub_id,
                    session.deep_view(),
                ));
                Ok(inserted)
            },
        }
    }
}

/// What an outcome with a number says.
pub open spec fn outcome_of_count(result: Result<usize, Error>) -> Result<int, ErrorView> {
    match result {
        Ok(count) => Ok(count as int),
        Err(error) => Err(error.deep_view()),
    }
}

/// A store is sound: every session stands under the number of its lecture, and a capture knows
/// no key but those of its lines.
pub open spec fn sound(store: StoreView) -> bool {
    forall|sub_id: i64| #[trigger]
        store.sessions.contains_key(sub_id) ==> sound_session(store.sessions[sub_id], sub_id)
}

/// A session stands under the number of its lecture, and knows no key but those of its lines.
pub open spec fn sound_session(session: CaptureView, sub_id: i64) -> bool {
    &&& session.sub_id == sub_id
    &&& forall|key: Seq<char>| #[trigger]
        session.keys.contains(key) ==> keys_of(session.lines).contains(key)
}

/// A key of lines stays one when lines are added.
proof fn keys_stay(lines: Seq<LineView>, more: Seq<LineView>, key: Seq<char>)
    requires
        lines.is_prefix_of(more),
        keys_of(lines).contains(key),
    ensures
        keys_of(more).contains(key),
{
    let i = choose|i: int| 0 <= i < keys_of(lines).len() && keys_of(lines)[i] == key;
    assert(more[i] == lines[i]);
    assert(keys_of(more)[i] == key);
}

/// Every operation keeps a store sound: taking a lecture out, starting and running its capture,
/// stopping it, and filling its lines up from a recorded transcript.
pub proof fn every_operation_keeps_a_store_sound(
    store: StoreView,
    sub_id: i64,
    event: CaptureEventView,
    items: Seq<SubtitleView>,
    course_id: i64,
    ws_url: Seq<char>,
    lines: Seq<LineView>,
    now_ms: u64,
)
    requires
        sound(store),
    ensures
        sound(store.without(sub_id)),
        sound(store.with(sub_id, new_capture(course_id, sub_id, ws_url, now_ms, lines))),
        sound(store_after(store, sub_id, event, now_ms)),
        store.sessions.contains_key(sub_id) ==> sound(
            store.with(
                sub_id,
                CaptureView {
                    lines: backfilled(store.lines(sub_id), items, now_ms),
                    ..store.sessions[sub_id]
                },
            ),
        ),
{
    if store.sessions.contains_key(sub_id) {
        let session = store.sessions[sub_id];
        let filled = backfilled(session.lines, items, now_ms);
        merging_only_adds(
            session.lines,
            keys_of(session.lines),
            recorded_lines(items, now_ms),
        );
        assert(session.lines.is_prefix_of(filled));
        assert forall|key: Seq<char>| session.keys.contains(key) implies keys_of(filled).contains(
            key,
        ) by {
            keys_stay(session.lines, filled, key);
        }
        if let CaptureEventView::Text(text) = event {
            let after = after_message(session, text, now_ms);
            let more = message_lines(text, now_ms);
            let added = keys_of(after.lines.skip(session.lines.len() as int));
            merging_only_adds(session.lines, session.keys, more);
            assert(session.lines.is_prefix_of(after.lines));
            assert forall|key: Seq<char>| #[trigger] after.keys.contains(key) implies keys_of(
                after.lines,
            ).contains(key) by {
                let i = choose|i: int| 0 <= i < after.keys.len() && after.keys[i] == key;
                if i < session.keys.len() {
                    assert(session.keys[i] == key);
                    assert(session.keys.contains(key));
                    keys_stay(session.lines, after.lines, key);
                } else {
                    let j = i - session.keys.len() + session.lines.len();
                    assert(added[i - session.keys.len()] == key);
                    assert(keys_of(after.lines)[j] == key);
                }
            }
        }
    }
}

// ---------------------------------------------------------------- recorded transcripts

/// Where the recorded transcript of a lecture is.
pub open spec fn subtitle_url(sub_id: i64) -> Seq<char> {
    "https://yjapi.cmc.zju.edu.cn/courseapi/v3/web-socket/search-trans-result?sub_id="@ + decimal(
        sub_id as int,
    ) + "&format=json"@
}

/// A reply with recorded transcripts.
pub struct SubtitleReply {
    pub code: i64,
    pub list: Vec<Vec<SubtitleContent>>,
}

/// What a reply with recorded transcripts says.
pub struct SubtitleReplyView {
    pub code: i64,
    pub list: Seq<Seq<SubtitleView>>,
}

impl DeepView for SubtitleReply {
    type V = SubtitleReplyView;

    open spec fn deep_view(&self) -> SubtitleReplyView {
        SubtitleReplyView { code: self.code, list: self.list.deep_view() }
    }
}

/// The transcript in a reply: the first of those that it has, none if it has none.
pub open spec fn subtitle_in(reply: SubtitleReplyView) -> Result<Seq<SubtitleView>, ErrorView> {
    if reply.code != 0 {
        Err(ErrorOf::SubtitleFailed(reply.code))
    } else if reply.list.len() > 0 {
        Ok(reply.list.first())
    } else {
        Ok(Seq::empty())
    }
}

impl ZjuAssist {
    /// Asks for the recorded transcript of a lecture.
    pub fn get_subtitle(&self, sub_id: i64) -> (request: ZjuRequestBuilder)
        ensures
            request.deep_view() == self.deep_view().get(subtitle_url(sub_id)),
    {
        let url = with_number(
            "https://yjapi.cmc.zju.edu.cn/courseapi/v3/web-socket/search-trans-result?sub_id=",
            sub_id,
            "&format=json",
        );
        self.get(url.as_str())
    }

    /// The recorded transcript in a reply.
    pub fn subtitle_reply(reply: SubtitleReply) -> (items: Result<Vec<SubtitleContent>, Error>)
        ensures
            outcome(items) == subtitle_in(reply.deep_view()),
    {
        if reply.code != 0 {
            return Err(ErrorOf::SubtitleFailed(reply.code));
        }
        let mut list = reply.list;
        if list.len() > 0 {
            let first = list.remove(0);
            assert(first.deep_view() == reply.deep_view().list[0]);
            Ok(first)
        } else {
            let items: Vec<SubtitleContent> = Vec::new();
            assert(items.deep_view() =~= Seq::<SubtitleView>::empty());
            Ok(items)
        }
    }

    /// Starts to fill up the lines of a lecture from its recorded transcript.
    pub fn backfill_live_transcript_from_history(&self, sub_id: i64) -> (request: ZjuRequestBuilder)
        ensures
            request.deep_view() == self.deep_view().get(subtitle_url(sub_id)),
    {
        self.get_subtitle(sub_id)
    }
}

// ---------------------------------------------------------------- what captures say

/// A capture starts at once where the lecture starts within two seconds or has started. Otherwise
/// it waits until exactly the start, unless the lecture is captured or awaited already.
pub proof fn a_capture_starts_with_its_lecture(
    store: StoreView,
    sub_id: i64,
    start_at: i64,
    now: i64,
)
    ensures
        match schedule_step(store, sub_id, start_at, now) {
            ScheduleStep::Start => start_at - now <= 2,
            ScheduleStep::Nothing => {
                &&& start_at - now > 2
                &&& store.sessions.contains_key(sub_id) || store.scheduled.contains(sub_id)
            },
            ScheduleStep::Wait { delay_secs } => {
                &&& delay_secs > 2
                &&& now + delay_secs == start_at
                &&& !store.sessions.contains_key(sub_id)
                &&& !store.scheduled.contains(sub_id)
            },
        },
{
}

/// A new capture has the numbers, the address, the time and the lines that it was given, runs,
/// and has the key of every line in the place of the line.
pub proof fn a_new_capture_has_what_it_was_given(
    course_id: i64,
    sub_id: i64,
    ws_url: Seq<char>,
    started_at_ms: u64,
    lines: Seq<LineView>,
)
    ensures
        ({
            let session = new_capture(course_id, sub_id, ws_url, started_at_ms, lines);
            &&& session.course_id == course_id && session.sub_id == sub_id
            &&& session.ws_url == ws_url
            &&& session.started_at_ms == started_at_ms
            &&& session.lines == lines
            &&& session.running
            &&& session.keys.len() == lines.len()
            &&& forall|i: int|
                0 <= i < lines.len() ==> #[trigger] session.keys[i] == line_key(lines[i])
        }),
{
}

/// The status of a capture says what the capture is: its numbers, its address, since when it
/// runs, how many lines it has, and whether it still runs.
pub proof fn a_status_says_what_the_capture_is(
    sessions: Map<i64, CaptureView>,
    order: Seq<i64>,
    i: int,
)
    requires
        0 <= i < order.len(),
    ensures
        statuses_in(sessions, order).len() == order.len(),
        ({
            let session = sessions[order[i]];
            let status = statuses_in(sessions, order)[i];
            &&& status.course_id == session.course_id
            &&& status.sub_id == session.sub_id
            &&& status.ws_url == session.ws_url
            &&& status.started_at_ms == session.started_at_ms
            &&& status.line_count == session.lines.len()
            &&& status.is_running == session.running
        }),
{
}

/// What happens in one capture is done to it alone. A text may add lines that the text holds, the
/// end stops it, and nothing else changes it.
pub proof fn an_event_changes_its_capture_alone(
    store: StoreView,
    sub_id: i64,
    event: CaptureEventView,
    now_ms: u64,
)
    ensures
        ({
            let after = store_after(store, sub_id, event, now_ms);
            &&& !store.sessions.contains_key(sub_id) ==> after == store
            &&& event is Opened || event is Other || event is Tick ==> after == store
            &&& store.sessions.contains_key(sub_id) ==> {
                let old_session = store.sessions[sub_id];
                let session = after.sessions[sub_id];
                &&& session.course_id == old_session.course_id
                &&& session.sub_id == old_session.sub_id
                &&& session.ws_url == old_session.ws_url
                &&& session.started_at_ms == old_session.started_at_ms
                &&& event is Over ==> !session.running && session.lines == old_session.lines
                    && session.keys == old_session.keys
                &&& !(event is Over) ==> session.running == old_session.running
                &&& (event matches CaptureEventView::Text(text) ==> {
                    &&& old_session.lines.len() <= session.lines.len()
                    &&& forall|i: int|
                        old_session.lines.len() <= i < session.lines.len() ==> message_lines(
                            text,
                            now_ms,
                        ).contains(#[trigger] session.lines[i])
                    &&& forall|k: int|
                        0 <= k < message_lines(text, now_ms).len() ==> session.keys.contains(
                            line_key(#[trigger] message_lines(text, now_ms)[k]),
                        )
                })
            }
        }),
{
    if store.sessions.contains_key(sub_id) {
        if let CaptureEventView::Text(text) = event {
            let session = store.sessions[sub_id];
            let more = message_lines(text, now_ms);
            merging_only_adds(session.lines, session.keys, more);
            merging_takes_every_key(session.lines, session.keys, more);
        }
    }
}

/// A socket that opens is greeted, one that is still open is sent a heartbeat in time, one that is
/// over is left, and to what comes nothing is sent.
pub proof fn a_socket_is_greeted_and_kept_alive(text: Seq<char>)
    ensures
        action_after(CaptureEventView::Opened) == CaptureActionOf::Send(CAPTURE_OPENING@),
        action_after(CaptureEventView::Tick) == CaptureActionOf::Send(HEARTBEAT@),
        action_after(CaptureEventView::Over) is Stop,
        action_after(CaptureEventView::Text(text)) is Wait,
        action_after(CaptureEventView::Other) is Wait,
{
}

/// To take a capture out of a store, or to put one in, changes nothing else in it.
pub proof fn captures_come_and_go_alone(
    store: StoreView,
    sub_id: i64,
    other: i64,
    session: CaptureView,
)
    requires
        sub_id != other,
    ensures
        !store.without(sub_id).sessions.contains_key(sub_id),
        !store.without(sub_id).scheduled.contains(sub_id),
        store.without(sub_id).lines(sub_id).len() == 0,
        store.without(sub_id).sessions.contains_key(other) == store.sessions.contains_key(other),
        store.without(sub_id).scheduled.contains(other) == store.scheduled.contains(other),
        store.without(sub_id).lines(other) == store.lines(other),
        store.with(sub_id, session).sessions.contains_key(sub_id),
        store.with(sub_id, session).sessions[sub_id] == session,
        store.with(sub_id, session).lines(sub_id) == session.lines,
        store.with(sub_id, session).lines(other) == store.lines(other),
        store.with(sub_id, session).scheduled == store.scheduled,
{
}

/// The lines of a capture are those that it has; a lecture that was never captured is an error
/// with its number.
pub proof fn only_a_capture_has_lines(store: StoreView, sub_id: i64)
    ensures
        store.sessions.contains_key(sub_id) ==> session_lines(store, sub_id) == Ok::<
            Seq<LineView>,
            ErrorView,
        >(store.sessions[sub_id].lines),
        !store.sessions.contains_key(sub_id) ==> session_lines(store, sub_id) == Err::<
            Seq<LineView>,
            ErrorView,
        >(ErrorView::SessionNotFound(sub_id)),
{
}

/// An address is taken as it is, unless it is refused: then the error has it with the reason.
pub proof fn a_socket_is_taken_unless_refused(ws_url: Seq<char>, words: Seq<char>)
    ensures
        accepted_socket(ws_url, None) == Ok::<Seq<char>, ErrorView>(ws_url),
        accepted_socket(ws_url, Some(words)) == Err::<Seq<char>, ErrorView>(
            ErrorView::InvalidSocketUrl { url: ws_url, reason: words },
        ),
{
}

/// A record is the first list of its reply, where there is one and the code of the reply is zero.
/// Any other code is an error that has it.
pub proof fn a_record_is_the_first_list(reply: SubtitleReplyView)
    ensures
        reply.code != 0 ==> subtitle_in(reply) == Err::<Seq<SubtitleView>, ErrorView>(
            ErrorView::SubtitleFailed(reply.code),
        ),
        reply.code == 0 && reply.list.len() > 0 ==> subtitle_in(reply) == Ok::<
            Seq<SubtitleView>,
            ErrorView,
        >(reply.list[0]),
        reply.code == 0 && reply.list.len() == 0 ==> (subtitle_in(reply) matches Ok(items)
            && items.len() == 0),
{
}

/// The records of two lectures have two addresses.
pub proof fn records_are_asked_for_apart(one: i64, other: i64)
    requires
        one != other,
    ensures
        subtitle_url(one) != subtitle_url(other),
{
    if subtitle_url(one) == subtitle_url(other) {
        numbers_are_written_apart(
            "https://yjapi.cmc.zju.edu.cn/courseapi/v3/web-socket/search-trans-result?sub_id="@,
            one,
            other,
            "&format=json"@,
        );
    }
}

/// A socket is told where it is asked from and by which browser.
pub proof fn a_socket_is_told_where_it_is_asked_from()
    ensures
        socket_headers().len() == 2,
        socket_headers()[0] == ("Origin"@, "https://classroom.zju.edu.cn"@),
        socket_headers()[1] == ("user-agent"@, USER_AGENT@),
{
}

} // verus!
