use zju_assist::error::{Error, ErrorOf};
use zju_assist::request::{Method, ZjuRequestBuilder};
use zju_assist::zdbk::{
    EvaluationStep, ScoreEvent, ScoreStage, ScoreStep, SessionEvent, SessionStage, SessionStep,
    SsoMeta,
};
use zju_assist::zju_assist::ZjuAssist;

fn logged_in() -> ZjuAssist {
    let mut assist = ZjuAssist::new();
    assist.have_login = true;
    assist.username = "32100".to_string();
    assist
}

fn sent(step: SessionStep) -> (ZjuRequestBuilder, SessionStage) {
    match step {
        SessionStep::Send { request, stage } => (request, stage),
        _ => panic!("a request"),
    }
}

fn meta(status: &str, login_url: Option<&str>) -> SessionEvent {
    SessionEvent::Meta(Ok(SsoMeta {
        status: status.to_string(),
        login_url: login_url.map(|url| url.to_string()),
    }))
}

fn refused(step: SessionStep) -> Error {
    match step {
        SessionStep::Done(Err(error)) => error,
        _ => panic!("a refusal"),
    }
}

#[test]
fn a_session_is_opened_in_four_requests() {
    let assist = logged_in();
    let (request, stage) = sent(assist.ensure_zdbk_session());
    assert_eq!(
        request.url,
        "https://zjuam.zju.edu.cn/cas/login?service=https%3A%2F%2Fzdbk.zju.edu.cn%2Fjwglxt%2Fxtgl%2Flogin_slogin.html"
    );
    let (request, stage) = sent(assist.zdbk_session_step(stage, SessionEvent::Visited));
    assert_eq!(request.url, "https://zdbk.zju.edu.cn/jwglxt/xtgl/login_slogin.html");
    let (request, stage) = sent(assist.zdbk_session_step(stage, SessionEvent::Visited));
    assert_eq!(request.method, Method::Post);
    assert_eq!(request.url, "https://zdbk.zju.edu.cn/jwglxt/xtgl/login_cxSsoLoginUrl.html");
    let (request, stage) = sent(assist.zdbk_session_step(stage, meta("success", Some("https://sso/"))));
    assert_eq!(request.url, "https://sso/");
    assert_eq!(stage, SessionStage::Open);
    let step = assist.zdbk_session_step(stage, SessionEvent::Visited);
    assert!(matches!(step, SessionStep::Done(Ok(()))));
}

#[test]
fn a_session_is_refused_with_a_reason() {
    let assist = logged_in();
    let error = refused(assist.zdbk_session_step(SessionStage::Meta, meta("success", None)));
    assert_eq!(error.message(), "zdbk SSO login failed: ssologinurl missing in successful response");
    let error = refused(assist.zdbk_session_step(SessionStage::Meta, meta("fail", Some("u"))));
    assert_eq!(error.message(), "zdbk SSO login failed: status is 'fail'");
    let event = SessionEvent::Meta(Err("missing field `status`".to_string()));
    let error = refused(assist.zdbk_session_step(SessionStage::Meta, event));
    assert_eq!(error.message(), "Parse zdbk SSO login url failed: missing field `status`");
    let event = SessionEvent::Failed("down".to_string());
    assert_eq!(refused(assist.zdbk_session_step(SessionStage::Cas, event)).message(), "down");
    assert!(matches!(refused(ZjuAssist::new().ensure_zdbk_session()), ErrorOf::NotLogin));
}

#[test]
fn the_evaluation_is_asked_for_again_after_a_new_login() {
    let assist = logged_in();
    match assist.check_evaluation_done() {
        EvaluationStep::Send { request, again } => {
            assert!(!again);
            assert_eq!(request.method, Method::Post);
            assert_eq!(
                request.url,
                "https://zdbk.zju.edu.cn/jwglxt/xtgl/index_cxMyCosJxpj.html?gnmkdm=N5083&su=32100"
            );
        },
        _ => panic!("a request"),
    }
    assert!(matches!(ZjuAssist::evaluation_reply(false, "<html>"), EvaluationStep::Relogin));
    assert!(matches!(
        assist.evaluation_relogin(Ok(())),
        EvaluationStep::Send { again: true, .. }
    ));
    assert!(matches!(
        assist.evaluation_relogin(Err(ErrorOf::WrongPassword)),
        EvaluationStep::Done(Err(ErrorOf::WrongPassword))
    ));
    assert!(matches!(
        ZjuAssist::evaluation_reply(true, "<html>"),
        EvaluationStep::Done(Err(ErrorOf::EvaluationFailed))
    ));
    assert!(matches!(
        ZjuAssist::evaluation_reply(false, r#"{"result": "1"}"#),
        EvaluationStep::Done(Ok(true))
    ));
    assert!(matches!(
        ZjuAssist::evaluation_reply(true, r#"{"result": "0"}"#),
        EvaluationStep::Done(Ok(false))
    ));
    assert!(matches!(
        ZjuAssist::evaluation_reply(false, "{}"),
        EvaluationStep::Done(Err(ErrorOf::Malformed))
    ));
    assert!(matches!(
        ZjuAssist::new().check_evaluation_done(),
        EvaluationStep::Done(Err(ErrorOf::NotLogin))
    ));
}

fn field<'a>(request: &'a ZjuRequestBuilder, name: &str) -> &'a str {
    let form = request.form.as_ref().unwrap();
    &form.iter().find(|pair| pair.0 == name).unwrap().1
}

#[test]
fn marks_are_asked_for_once_the_trial_passes() {
    let assist = logged_in();
    assert!(matches!(assist.get_score(), ScoreStep::Ensure { stage: ScoreStage::Session }));
    let request = match assist.score_step(ScoreStage::Session, ScoreEvent::Finished(Ok(())), 0) {
        ScoreStep::Send { request, stage: ScoreStage::Probe } => request,
        _ => panic!("a trial"),
    };
    assert_eq!(request.form.as_ref().unwrap().len(), 11);
    assert_eq!(field(&request, "nd"), "0");
    assert_eq!(field(&request, "queryModel.showCount"), "1");
    let event = ScoreEvent::Text("{}".to_string());
    let request = match assist.score_step(ScoreStage::Probe, event, 1700000000123) {
        ScoreStep::Send { request, stage: ScoreStage::Query } => request,
        _ => panic!("the question"),
    };
    assert_eq!(
        request.url,
        "https://zdbk.zju.edu.cn/jwglxt/cxdy/xscjcx_cxXscjIndex.html?doType=query&gnmkdm=N508301&su=32100"
    );
    assert_eq!(field(&request, "nd"), "1700000000123");
    assert_eq!(field(&request, "queryModel.showCount"), "5000");
    assert_eq!(field(&request, "queryModel.sortName"), "xkkh");
    let event = ScoreEvent::Text(r#"{"items": [{"cj": "90"}]}"#.to_string());
    match assist.score_step(ScoreStage::Query, event, 0) {
        ScoreStep::Done(Ok(marks)) => assert_eq!(marks[0].text_at("cj"), Some("90")),
        _ => panic!("the marks"),
    }
}

#[test]
fn a_failed_trial_leads_to_one_new_login() {
    let assist = logged_in();
    for event in [ScoreEvent::Text("统一身份认证平台".to_string()), ScoreEvent::Failed("x".to_string())] {
        let step = assist.score_step(ScoreStage::Probe, event, 0);
        assert!(matches!(step, ScoreStep::Relogin { stage: ScoreStage::Relogin }));
    }
    let step = assist.score_step(ScoreStage::Relogin, ScoreEvent::Finished(Ok(())), 0);
    assert!(matches!(step, ScoreStep::Ensure { stage: ScoreStage::SessionAgain }));
    let step = assist.score_step(ScoreStage::SessionAgain, ScoreEvent::Finished(Ok(())), 5);
    assert!(matches!(step, ScoreStep::Send { stage: ScoreStage::Query, .. }));
    let event = ScoreEvent::Finished(Err(ErrorOf::SsoUrlMissing));
    let step = assist.score_step(ScoreStage::SessionAgain, event, 5);
    assert!(matches!(step, ScoreStep::Done(Err(ErrorOf::SsoUrlMissing))));
    let event = ScoreEvent::Finished(Err(ErrorOf::SsoUrlMissing));
    let step = assist.score_step(ScoreStage::Session, event, 5);
    assert!(matches!(step, ScoreStep::Done(Err(ErrorOf::ScoreSession))));
    let event = ScoreEvent::Finished(Err(ErrorOf::WrongPassword));
    let step = assist.score_step(ScoreStage::Relogin, event, 5);
    assert!(matches!(step, ScoreStep::Done(Err(ErrorOf::WrongPassword))));
    let step = assist.score_step(ScoreStage::Query, ScoreEvent::Text("<".to_string()), 5);
    assert!(matches!(step, ScoreStep::Done(Err(ErrorOf::ScoreFailed))));
    let step = assist.score_step(ScoreStage::Query, ScoreEvent::Text("{}".to_string()), 5);
    assert!(matches!(step, ScoreStep::Done(Err(ErrorOf::Malformed))));
    let step = assist.score_step(ScoreStage::Query, ScoreEvent::Failed("w".to_string()), 5);
    assert!(matches!(step, ScoreStep::Done(Err(ErrorOf::Failed(_)))));
}

#[test]
fn a_trial_tells_a_login_page_from_other_failures() {
    assert!(ZjuAssist::probe_reply("[]").is_ok());
    for text in ["统一身份认证平台", "<a href=\"/cas/login\">", "login_slogin.html"] {
        assert!(matches!(ZjuAssist::probe_reply(text), Err(ErrorOf::ProbeRedirected)));
    }
    assert!(matches!(ZjuAssist::probe_reply("error"), Err(ErrorOf::ProbeFailed)));
    assert!(ZjuAssist::probe_outcome(true, "/cas/login").is_ok());
}
