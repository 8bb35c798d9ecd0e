//! The session with the university's services: who is logged in, and by which steps.
use std::sync::Arc;
use reqwest::cookie::Jar;
use vstd::prelude::*;
use crate::boundary::{check_proxy, jar_seed, new_jar, proxy_refusal};
use crate::error::{Error, ErrorOf};
use crate::request::{Method, Pairs, PairsView, RequestView, ZjuRequestBuilder, USER_AGENT};

verus! {

/// A session: its cookies, the account that is logged in, and the way to the network.
#[derive(Clone)]
pub struct ZjuAssist {
    pub jar: Arc<Jar>,
    pub have_login: bool,
    pub username: String,
    pub password: String,
    pub proxy_first: bool,
    pub custom_proxy: Option<String>,
}

/// What a session says.
pub struct AssistView {
    pub jar: Arc<Jar>,
    pub have_login: bool,
    pub username: Seq<char>,
    pub password: Seq<char>,
    pub proxy_first: bool,
    pub custom_proxy: Option<Seq<char>>,
}

impl DeepView for ZjuAssist {
    type V = AssistView;

    open spec fn deep_view(&self) -> AssistView {
        AssistView {
            jar: self.jar,
            have_login: self.have_login,
            username: self.username@,
            password: self.password@,
            proxy_first: self.proxy_first,
            custom_proxy: self.custom_proxy.deep_view(),
        }
    }
}

/// The headers that every request carries.
pub open spec fn agent_headers() -> PairsView {
    seq![("user-agent"@, USER_AGENT@)]
}

/// The headers of a request that shows a token.
pub open spec fn token_headers(token: Seq<char>) -> PairsView {
    seq![("user-agent"@, USER_AGENT@), ("authorization"@, "Bearer "@ + token)]
}

impl AssistView {
    /// A request of this session.
    pub open spec fn request(self, method: Method, url: Seq<char>) -> RequestView {
        RequestView {
            jar: self.jar,
            method,
            url,
            headers: agent_headers(),
            form: None,
            custom_proxy: self.custom_proxy,
            proxy_first: self.proxy_first,
        }
    }

    /// A request that fetches a page.
    pub open spec fn get(self, url: Seq<char>) -> RequestView {
        self.request(Method::Get, url)
    }

    /// A request that posts to a page.
    pub open spec fn post(self, url: Seq<char>) -> RequestView {
        self.request(Method::Post, url)
    }

    /// The session with nobody logged in and another jar.
    pub open spec fn logged_out(self, jar: Arc<Jar>) -> AssistView {
        AssistView {
            jar,
            have_login: false,
            username: Seq::empty(),
            password: Seq::empty(),
            ..self
        }
    }
}

impl ZjuAssist {
    /// A session in which nobody is logged in, through the default proxy first.
    pub fn new() -> (assist: ZjuAssist)
        ensures
            !assist.have_login,
            assist.username@.len() == 0,
            assist.password@.len() == 0,
            assist.proxy_first,
            assist.custom_proxy is None,
            jar_seed(*assist.jar) is None,
    {
        ZjuAssist {
            jar: Arc::new(new_jar()),
            have_login: false,
            username: String::new(),
            password: String::new(),
            proxy_first: true,
            custom_proxy: None,
        }
    }

    /// Sets or removes the dedicated proxy; an address that is none is refused.
    pub fn set_custom_proxy(&mut self, proxy_url: Option<String>) -> (result: Result<(), Error>)
        ensures
            match proxy_url {
                Some(url) => match proxy_refusal(url@) {
                    Some(reason) => {
                        &&& result matches Err(error)
                        &&& error.deep_view() == ErrorOf::InvalidProxy { url: url@, reason }
                        &&& *final(self) == *old(self)
                    },
                    None => result is Ok && *final(self) == (ZjuAssist {
                        custom_proxy: proxy_url,
                        ..*old(self)
                    }),
                },
                None => result is Ok && *final(self) == (ZjuAssist {
                    custom_proxy: None,
                    ..*old(self)
                }),
            },
    {
        if let Some(url) = &proxy_url {
            if let Some(reason) = check_proxy(url.as_str()) {
                return Err(ErrorOf::InvalidProxy { url: url.clone(), reason });
            }
        }
        self.custom_proxy = proxy_url;
        Ok(())
    }

    /// The dedicated proxy.
    pub fn get_custom_proxy(&self) -> (proxy_url: Option<String>)
        ensures
            proxy_url.deep_view() == self.custom_proxy.deep_view(),
    {
        match &self.custom_proxy {
            Some(url) => Some(url.clone()),
            None => None,
        }
    }

    /// A request of this session.
    pub fn request(&self, method: Method, url: &str) -> (request: ZjuRequestBuilder)
        ensures
            request.deep_view() == self.deep_view().request(method, url@),
    {
        let mut headers: Pairs = Vec::new();
        headers.push(("user-agent".to_owned(), USER_AGENT.to_owned()));
        assert(headers.deep_view() =~= agent_headers());
        ZjuRequestBuilder {
            jar: self.jar.clone(),
            method,
            url: url.to_owned(),
            headers,
            form: None,
            custom_proxy: self.get_custom_proxy(),
            proxy_first: self.proxy_first,
        }
    }

    /// A request that fetches a page.
    pub fn get(&self, url: &str) -> (request: ZjuRequestBuilder)
        ensures
            request.deep_view() == self.deep_view().get(url@),
    {
        self.request(Method::Get, url)
    }

    /// A request that posts to a page.
    pub fn post(&self, url: &str) -> (request: ZjuRequestBuilder)
        ensures
            request.deep_view() == self.deep_view().post(url@),
    {
        self.request(Method::Post, url)
    }

    /// The account that is logged in.
    pub fn get_username(&self) -> (username: String)
        ensures
            username@ == self.username@,
    {
        self.username.clone()
    }

    /// Whether an account is logged in.
    pub fn is_login(&self) -> (yes: bool)
        ensures
            yes == self.have_login,
    {
        self.have_login
    }

    /// Forgets the account and its cookies.
    pub fn logout(&mut self)
        ensures
            final(self).deep_view() == old(self).deep_view().logged_out(final(self).jar),
            jar_seed(*final(self).jar) is None,
    {
        self.jar = Arc::new(new_jar());
        self.have_login = false;
        self.username = String::new();
        self.password = String::new();
    }
}

/// A request goes as the session goes: with its cookies and its proxies, to the address that is
/// given, under the name of the same browser, and with no form.
pub proof fn a_request_goes_as_the_session_goes(assist: AssistView, url: Seq<char>)
    ensures
        assist.get(url).method is Get,
        assist.post(url).method is Post,
        assist.get(url).url == url,
        assist.get(url).jar == assist.jar,
        assist.get(url).custom_proxy == assist.custom_proxy,
        assist.get(url).proxy_first == assist.proxy_first,
        assist.get(url).form is None,
        assist.get(url).headers.len() == 1,
        assist.get(url).headers[0] == ("user-agent"@, USER_AGENT@),
        assist.post(url) == (RequestView { method: Method::Post, ..assist.get(url) }),
{
}

/// Who logs out leaves no account behind, and no cookies; the proxies stay as they were.
pub proof fn logging_out_leaves_no_account(assist: AssistView, jar: Arc<Jar>)
    ensures
        !assist.logged_out(jar).have_login,
        assist.logged_out(jar).username.len() == 0,
        assist.logged_out(jar).password.len() == 0,
        assist.logged_out(jar).jar == jar,
        assist.logged_out(jar).proxy_first == assist.proxy_first,
        assist.logged_out(jar).custom_proxy == assist.custom_proxy,
{
}

/// A token is shown behind the word for its kind, beside the name of the browser.
pub proof fn a_token_is_shown_as_it_is(token: Seq<char>)
    ensures
        token_headers(token).len() == 2,
        token_headers(token)[0] == agent_headers()[0],
        token_headers(token)[1].0 == "authorization"@,
        token_headers(token)[1].1 == "Bearer "@ + token,
{
}

} // verus!
