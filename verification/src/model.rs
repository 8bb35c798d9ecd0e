//! The things that the services offer: files, lectures and their transcripts.
use vstd::prelude::*;

verus! {

/// A file of a course.
#[derive(Clone, Debug, PartialEq, Eq)]
pub struct Upload {
    pub id: i64,
    pub reference_id: i64,
    pub file_name: String,
    pub course_name: String,
    pub path: String,
    pub size: u64,
}

/// What a file of a course says.
pub struct UploadView {
    pub id: i64,
    pub reference_id: i64,
    pub file_name: Seq<char>,
    pub course_name: Seq<char>,
    pub path: Seq<char>,
    pub size: u64,
}

impl DeepView for Upload {
    type V = UploadView;

    open spec fn deep_view(&self) -> UploadView {
        UploadView {
            id: self.id,
            reference_id: self.reference_id,
            file_name: self.file_name@,
            course_name: self.course_name@,
            path: self.path@,
            size: self.size,
        }
    }
}

impl Upload {
    /// The same file once more.
    pub fn duplicate(&self) -> (copy: Upload)
        ensures
            copy.deep_view() == self.deep_view(),
    {
        Upload {
            id: self.id,
            reference_id: self.reference_id,
            file_name: self.file_name.clone(),
            course_name: self.course_name.clone(),
            path: self.path.clone(),
            size: self.size,
        }
    }
}

/// A lecture of a classroom course.
#[derive(Clone, Debug, PartialEq, Eq)]
pub struct Subject {
    pub course_id: i64,
    pub course_name: String,
    pub sub_id: i64,
    pub sub_name: String,
    pub lecturer_name: String,
    pub path: String,
    pub ppt_image_urls: Vec<String>,
    pub start_at: Option<i64>,
    pub room: Option<String>,
    pub tenant_code: Option<String>,
    pub sub_public: Option<String>,
}

/// What a lecture says.
pub struct SubjectView {
    pub course_id: i64,
    pub course_name: Seq<char>,
    pub sub_id: i64,
    pub sub_name: Seq<char>,
    pub lecturer_name: Seq<char>,
    pub path: Seq<char>,
    pub ppt_image_urls: Seq<Seq<char>>,
    pub start_at: Option<i64>,
    pub room: Option<Seq<char>>,
    pub tenant_code: Option<Seq<char>>,
    pub sub_public: Option<Seq<char>>,
}

impl DeepView for Subject {
    type V = SubjectView;

    open spec fn deep_view(&self) -> SubjectView {
        SubjectView {
            course_id: self.course_id,
            course_name: self.course_name@,
            sub_id: self.sub_id,
            sub_name: self.sub_name@,
            lecturer_name: self.lecturer_name@,
            path: self.path@,
            ppt_image_urls: self.ppt_image_urls.deep_view(),
            start_at: self.start_at,
            room: self.room.deep_view(),
            tenant_code: self.tenant_code.deep_view(),
            sub_public: self.sub_public.deep_view(),
        }
    }
}

/// A line of a live transcript.
#[derive(Clone, Debug, PartialEq, Eq)]
pub struct LiveTranscriptLine {
    pub source_text: String,
    pub trans_text: String,
    pub text_begin_time: Option<i64>,
    pub text_end_time: Option<i64>,
    pub end_time: Option<i64>,
    pub received_at_ms: u64,
}

/// What a line of a live transcript says.
pub struct LineView {
    pub source_text: Seq<char>,
    pub trans_text: Seq<char>,
    pub text_begin_time: Option<i64>,
    pub text_end_time: Option<i64>,
    pub end_time: Option<i64>,
    pub received_at_ms: u64,
}

impl DeepView for LiveTranscriptLine {
    type V = LineView;

    open spec fn deep_view(&self) -> LineView {
        LineView {
            source_text: self.source_text@,
            trans_text: self.trans_text@,
            text_begin_time: self.text_begin_time,
            text_end_time: self.text_end_time,
            end_time: self.end_time,
            received_at_ms: self.received_at_ms,
        }
    }
}

impl LiveTranscriptLine {
    /// The same line once more.
    pub fn duplicate(&self) -> (copy: LiveTranscriptLine)
        ensures
            copy.deep_view() == self.deep_view(),
    {
        LiveTranscriptLine {
            source_text: self.source_text.clone(),
            trans_text: self.trans_text.clone(),
            text_begin_time: self.text_begin_time,
            text_end_time: self.text_end_time,
            end_time: self.end_time,
            received_at_ms: self.received_at_ms,
        }
    }
}

/// The state of a capture.
#[derive(Clone, Debug, PartialEq, Eq)]
pub struct LiveTranscriptSessionStatus {
    pub course_id: i64,
    pub sub_id: i64,
    pub ws_url: String,
    pub started_at_ms: u64,
    pub line_count: usize,
    pub is_running: bool,
}

/// What the state of a capture says.
pub struct StatusView {
    pub course_id: i64,
    pub sub_id: i64,
    pub ws_url: Seq<char>,
    pub started_at_ms: u64,
    pub line_count: int,
    pub is_running: bool,
}

impl DeepView for LiveTranscriptSessionStatus {
    type V = StatusView;

    open spec fn deep_view(&self) -> StatusView {
        StatusView {
            course_id: self.course_id,
            sub_id: self.sub_id,
            ws_url: self.ws_url@,
            started_at_ms: self.started_at_ms,
            line_count: self.line_count as int,
            is_running: self.is_running,
        }
    }
}

/// A line of a recorded transcript.
#[derive(Clone, Debug, PartialEq, Eq)]
pub struct SubtitleContent {
    pub begin_sec: u64,
    pub end_sec: u64,
    pub text: String,
    pub trans_text: String,
}

/// What a line of a recorded transcript says.
pub struct SubtitleView {
    pub begin_sec: u64,
    pub end_sec: u64,
    pub text: Seq<char>,
    pub trans_text: Seq<char>,
}

impl DeepView for SubtitleContent {
    type V = SubtitleView;

    open spec fn deep_view(&self) -> SubtitleView {
        SubtitleView {
            begin_sec: self.begin_sec,
            end_sec: self.end_sec,
            text: self.text@,
            trans_text: self.trans_text@,
        }
    }
}

} // verus!
