//! The decisions of the command line tool.
use vstd::prelude::*;
use crate::boundary::proxy_refusal;
use crate::error::{outcome, Error, ErrorOf, ErrorView};
use crate::json::{Json, JsonView};
use crate::model::{Subject, SubjectView, SubtitleContent, SubtitleView};
use crate::numeral::{decimal, u64_text};
use crate::text::{
    after_last, behind_a_character_is_the_last_part, from_last_char, is_blank, join, joined, same, trim, trim_line_ends, trimmed,
    without_trailing,
};
use crate::zju_assist::{AssistView, ZjuAssist};

verus! {

/// The file that holds the tool's settings.
pub const CONFIG_FILE_NAME: &'static str = "cli-config.json";

/// The file that holds a password where there is no keyring.
pub const CREDENTIAL_FILE_NAME: &'static str = "cli-credentials.json";

/// Where a password is kept.
#[derive(Clone, Copy, PartialEq, Eq, Structural, Debug)]
pub enum CredentialBackend {
    Auto,
    Keyring,
    File,
}

/// The surroundings that decide where settings are kept.
pub struct ConfigEnv {
    pub windows: bool,
    pub appdata: Option<String>,
    pub xdg_config_home: Option<String>,
    pub home: Option<String>,
    /// The current directory, or why it is not known.
    pub current_dir: Result<String, String>,
}

/// The directory of the settings, as parts that are joined in order.
pub open spec fn config_dir(env: ConfigEnv) -> Result<Seq<Seq<char>>, ErrorView> {
    if env.windows && env.appdata is Some {
        Ok(seq![env.appdata->0@, "zju-learning-assistant"@])
    } else if env.xdg_config_home is Some {
        Ok(seq![env.xdg_config_home->0@, "zju-learning-assistant"@])
    } else if env.home is Some {
        Ok(seq![env.home->0@, ".config"@, "zju-learning-assistant"@])
    } else {
        match env.current_dir {
            Ok(dir) => Ok(seq![dir@, ".zju-learning-assistant"@]),
            Err(words) => Err(ErrorOf::Failed(words@)),
        }
    }
}

/// A file in the directory of the settings.
pub open spec fn config_file(env: ConfigEnv, name: Seq<char>) -> Result<
    Seq<Seq<char>>,
    ErrorView,
> {
    match config_dir(env) {
        Ok(parts) => Ok(parts.push(name)),
        Err(error) => Err(error),
    }
}

/// The directory of the settings, as parts to be joined.
pub fn cli_config_dir(env: &ConfigEnv) -> (parts: Result<Vec<String>, Error>)
    ensures
        outcome(parts) == config_dir(*env),
{
    let mut parts: Vec<String> = Vec::new();
    if env.windows {
        if let Some(dir) = &env.appdata {
            parts.push(dir.clone());
            parts.push("zju-learning-assistant".to_owned());
            assert(parts.deep_view() =~= config_dir(*env)->Ok_0);
            return Ok(parts);
        }
    }
    if let Some(dir) = &env.xdg_config_home {
        parts.push(dir.clone());
        parts.push("zju-learning-assistant".to_owned());
        assert(parts.deep_view() =~= config_dir(*env)->Ok_0);
        return Ok(parts);
    }
    if let Some(dir) = &env.home {
        parts.push(dir.clone());
        parts.push(".config".to_owned());
        parts.push("zju-learning-assistant".to_owned());
        assert(parts.deep_view() =~= config_dir(*env)->Ok_0);
        return Ok(parts);
    }
    match &env.current_dir {
        Ok(dir) => {
            parts.push(dir.clone());
            parts.push(".zju-learning-assistant".to_owned());
            assert(parts.deep_view() =~= config_dir(*env)->Ok_0);
            Ok(parts)
        },
        Err(words) => Err(ErrorOf::Failed(words.clone())),
    }
}

fn in_config_dir(env: &ConfigEnv, name: &str) -> (parts: Result<Vec<String>, Error>)
    ensures
        outcome(parts) == config_file(*env, name@),
{
    match cli_config_dir(env) {
        Ok(dir) => {
            let mut parts = dir;
            let ghost before = parts.deep_view();
            parts.push(name.to_owned());
            assert(parts.deep_view() =~= before.push(name@));
            Ok(parts)
        },
        Err(error) => Err(error),
    }
}

/// The file of the settings, as parts to be joined.
pub fn cli_config_path(env: &ConfigEnv) -> (parts: Result<Vec<String>, Error>)
    ensures
        outcome(parts) == config_file(*env, CONFIG_FILE_NAME@),
{
    in_config_dir(env, CONFIG_FILE_NAME)
}

/// The file of the password, as parts to be joined.
pub fn credentials_file_path(env: &ConfigEnv) -> (parts: Result<Vec<String>, Error>)
    ensures
        outcome(parts) == config_file(*env, CREDENTIAL_FILE_NAME@),
{
    in_config_dir(env, CREDENTIAL_FILE_NAME)
}

/// Where a password is kept unless something else is set. Linux servers often have no
/// working secret service, so there it is a file.
pub fn default_credential_backend(linux: bool) -> (backend: CredentialBackend)
    ensures
        backend == if linux {
            CredentialBackend::File
        } else {
            CredentialBackend::Keyring
        },
{
    if linux {
        CredentialBackend::File
    } else {
        CredentialBackend::Keyring
    }
}

// ---------------------------------------------------------------- settings

/// The settings of the tool.
pub struct CliConfig {
    pub username: Option<String>,
    pub proxy: Option<String>,
    pub save_password: bool,
    pub credential_backend: CredentialBackend,
}

/// What the settings say.
pub struct ConfigView {
    pub username: Option<Seq<char>>,
    pub proxy: Option<Seq<char>>,
    pub save_password: bool,
    pub credential_backend: CredentialBackend,
}

impl DeepView for CliConfig {
    type V = ConfigView;

    open spec fn deep_view(&self) -> ConfigView {
        ConfigView {
            username: self.username.deep_view(),
            proxy: self.proxy.deep_view(),
            save_password: self.save_password,
            credential_backend: self.credential_backend,
        }
    }
}

/// Where a password is kept, with the choice made where it is left to the tool.
pub open spec fn resolved(backend: CredentialBackend, linux: bool) -> CredentialBackend {
    match backend {
        CredentialBackend::Auto => if linux {
            CredentialBackend::File
        } else {
            CredentialBackend::Keyring
        },
        _ => backend,
    }
}

fn resolve(backend: CredentialBackend, linux: bool) -> (chosen: CredentialBackend)
    ensures
        chosen == resolved(backend, linux),
{
    match backend {
        CredentialBackend::Auto => default_credential_backend(linux),
        _ => backend,
    }
}

/// Settings that are read from a file leave no choice open: the password has a place, and that place stays.
pub proof fn no_choice_is_left_open(backend: CredentialBackend, linux: bool)
    ensures
        !(resolved(backend, linux) is Auto),
        resolved(resolved(backend, linux), linux) == resolved(backend, linux),
{
}

/// The settings when there is no file of them.
pub fn default_config() -> (config: CliConfig)
    ensures
        config.deep_view() == (ConfigView {
            username: None,
            proxy: None,
            save_password: false,
            credential_backend: CredentialBackend::Auto,
        }),
{
    CliConfig {
        username: None,
        proxy: None,
        save_password: false,
        credential_backend: CredentialBackend::Auto,
    }
}

/// The settings that a file holds, with the choice made where it is left to the tool; without a
/// file nothing is chosen yet.
pub fn load_cli_config(stored: Option<CliConfig>, linux: bool) -> (config: CliConfig)
    ensures
        match stored {
            None => config.deep_view() == (ConfigView {
                username: None,
                proxy: None,
                save_password: false,
                credential_backend: CredentialBackend::Auto,
            }),
            Some(stored) => config.deep_view() == (ConfigView {
                credential_backend: resolved(stored.credential_backend, linux),
                ..stored.deep_view()
            }),
        },
{
    match stored {
        None => default_config(),
        Some(stored) => CliConfig {
            credential_backend: resolve(stored.credential_backend, linux),
            ..stored
        },
    }
}

/// A session that goes through the proxy of the settings.
pub fn build_assist_from_config(config: &CliConfig) -> (assist: Result<ZjuAssist, Error>)
    ensures
        match config.deep_view().proxy {
            Some(url) => match proxy_refusal(url) {
                Some(reason) => outcome(assist) == Err::<AssistView, ErrorView>(
                    ErrorOf::InvalidProxy { url, reason },
                ),
                None => assist matches Ok(assist) && new_session(assist.deep_view(), Some(url)),
            },
            None => assist matches Ok(assist) && new_session(assist.deep_view(), None),
        },
{
    let mut assist = ZjuAssist::new();
    let proxy = match &config.proxy {
        Some(url) => Some(url.clone()),
        None => None,
    };
    match assist.set_custom_proxy(proxy) {
        Ok(_) => Ok(assist),
        Err(error) => Err(error),
    }
}

/// A session in which nobody is logged in, with a proxy of its own or none.
pub open spec fn new_session(assist: AssistView, custom_proxy: Option<Seq<char>>) -> bool {
    &&& !assist.have_login
    &&& assist.username.len() == 0
    &&& assist.password.len() == 0
    &&& assist.proxy_first
    &&& assist.custom_proxy == custom_proxy
}

/// The settings with another proxy; an address that is none is refused.
pub fn config_with_proxy(config: CliConfig, proxy: Option<String>) -> (changed: Result<
    CliConfig,
    Error,
>)
    ensures
        outcome(changed) == match proxy.deep_view() {
            Some(url) => match proxy_refusal(url) {
                Some(reason) => Err::<ConfigView, ErrorView>(ErrorOf::InvalidProxy { url, reason }),
                None => Ok(ConfigView { proxy: Some(url), ..config.deep_view() }),
            },
            None => Ok(ConfigView { proxy: None, ..config.deep_view() }),
        },
{
    let mut assist = ZjuAssist::new();
    let wanted = match &proxy {
        Some(url) => Some(url.clone()),
        None => None,
    };
    match assist.set_custom_proxy(wanted) {
        Ok(_) => Ok(CliConfig { proxy, ..config }),
        Err(error) => Err(error),
    }
}

// ---------------------------------------------------------------- finding a password

/// Where the password of an account comes from.
pub enum PasswordSource {
    /// It is there.
    Ready(String),
    /// It is read from the keyring; `fixed` says that the keyring is what is set.
    Keyring { fixed: bool },
    /// It is read from a file.
    File,
}

/// What the source of a password says.
pub enum SourceView {
    Ready(Seq<char>),
    Keyring { fixed: bool },
    File,
}

impl DeepView for PasswordSource {
    type V = SourceView;

    open spec fn deep_view(&self) -> SourceView {
        match self {
            PasswordSource::Ready(password) => SourceView::Ready(password@),
            PasswordSource::Keyring { fixed } => SourceView::Keyring { fixed: *fixed },
            PasswordSource::File => SourceView::File,
        }
    }
}

/// Where the password comes from: the environment first, if there is one that is not blank,
/// else what the settings say, if a password is saved.
pub open spec fn password_source(env: Option<Seq<char>>, config: ConfigView) -> Result<
    SourceView,
    ErrorView,
> {
    if env is Some && trimmed(env->0).len() > 0 {
        Ok(SourceView::Ready(env->0))
    } else if !config.save_password {
        Err(ErrorOf::NoPassword)
    } else {
        Ok(
            match config.credential_backend {
                CredentialBackend::Keyring => SourceView::Keyring { fixed: true },
                CredentialBackend::Auto => SourceView::Keyring { fixed: false },
                CredentialBackend::File => SourceView::File,
            },
        )
    }
}

/// Where the password comes from, given the one in the environment.
pub fn load_password(env: Option<String>, config: &CliConfig) -> (source: Result<
    PasswordSource,
    Error,
>)
    ensures
        outcome(source) == password_source(env.deep_view(), config.deep_view()),
{
    if let Some(password) = env {
        if !is_blank(password.as_str()) {
            return Ok(PasswordSource::Ready(password));
        }
    }
    if !config.save_password {
        return Err(ErrorOf::NoPassword);
    }
    match config.credential_backend {
        CredentialBackend::Keyring => Ok(PasswordSource::Keyring { fixed: true }),
        CredentialBackend::Auto => Ok(PasswordSource::Keyring { fixed: false }),
        CredentialBackend::File => Ok(PasswordSource::File),
    }
}

/// The password that the keyring gave, or why it gave none.
pub fn keyring_password(fixed: bool, read: Result<String, String>) -> (password: Result<
    String,
    Error,
>)
    ensures
        outcome(password) == match read {
            Err(reason) => Err::<Seq<char>, ErrorView>(ErrorOf::KeyringRead(reason@)),
            Ok(text) => if trimmed(text@).len() > 0 {
                Ok(text@)
            } else if fixed {
                Err(ErrorOf::KeyringEmpty)
            } else {
                Err(ErrorOf::KeyringBlank)
            },
        },
{
    match read {
        Err(reason) => Err(ErrorOf::KeyringRead(reason)),
        Ok(text) => {
            if !is_blank(text.as_str()) {
                Ok(text)
            } else if fixed {
                Err(ErrorOf::KeyringEmpty)
            } else {
                Err(ErrorOf::KeyringBlank)
            }
        },
    }
}

/// What the file of the password holds.
pub struct StoredCredential {
    pub username: String,
    pub password: String,
}

/// The password in the file, if it is this account's and not blank.
pub open spec fn stored_password(stored: Option<StoredCredential>, username: Seq<char>) -> Option<
    Seq<char>,
> {
    match stored {
        Some(stored) => if stored.username@ == username && trimmed(stored.password@).len() > 0 {
            Some(stored.password@)
        } else {
            None
        },
        None => None,
    }
}

/// The password in the file, if there is a file with this account's and it is not blank.
pub fn read_password_file(stored: Option<StoredCredential>, username: &str) -> (password: Option<
    String,
>)
    ensures
        password.deep_view() == stored_password(stored, username@),
{
    match stored {
        Some(stored) => {
            if same(stored.username.as_str(), username) && !is_blank(stored.password.as_str()) {
                Some(stored.password)
            } else {
                None
            }
        },
        None => None,
    }
}

/// The password that the file gave.
pub fn file_password(read: Option<String>) -> (password: Result<String, Error>)
    ensures
        outcome(password) == match read.deep_view() {
            Some(password) => Ok::<Seq<char>, ErrorView>(password),
            None => Err(ErrorOf::NoStoredPassword),
        },
{
    match read {
        Some(password) => Ok(password),
        None => Err(ErrorOf::NoStoredPassword),
    }
}

/// The account of the settings.
pub fn saved_username(config: &CliConfig) -> (username: Result<String, Error>)
    ensures
        outcome(username) == match config.deep_view().username {
            Some(username) => Ok::<Seq<char>, ErrorView>(username),
            None => Err(ErrorOf::UsernameMissing),
        },
{
    match &config.username {
        Some(username) => Ok(username.clone()),
        None => Err(ErrorOf::UsernameMissing),
    }
}

// ---------------------------------------------------------------- logging in

/// How the password of a login is given.
pub enum PasswordInput {
    Given(String),
    Stdin,
    Prompt,
}

/// What the way in which a password is given says.
pub enum InputView {
    Given(Seq<char>),
    Stdin,
    Prompt,
}

impl DeepView for PasswordInput {
    type V = InputView;

    open spec fn deep_view(&self) -> InputView {
        match self {
            PasswordInput::Given(password) => InputView::Given(password@),
            PasswordInput::Stdin => InputView::Stdin,
            PasswordInput::Prompt => InputView::Prompt,
        }
    }
}

/// The account of a login: the one that is given, or else that of the settings.
pub fn login_username(given: Option<String>, config: &CliConfig) -> (username: Result<
    String,
    Error,
>)
    ensures
        outcome(username) == match (given.deep_view(), config.deep_view().username) {
            (Some(username), _) => Ok::<Seq<char>, ErrorView>(username),
            (None, Some(username)) => Ok(username),
            (None, None) => Err(ErrorOf::UsernameRequired),
        },
{
    match given {
        Some(username) => Ok(username),
        None => match &config.username {
            Some(username) => Ok(username.clone()),
            None => Err(ErrorOf::UsernameRequired),
        },
    }
}

/// How the password of a login is given; in one way only.
pub fn login_password(password: Option<String>, password_stdin: bool) -> (input: Result<
    PasswordInput,
    Error,
>)
    ensures
        outcome(input) == match (password_stdin, password.deep_view()) {
            (true, Some(_)) => Err::<InputView, ErrorView>(ErrorOf::PasswordTwice),
            (true, None) => Ok(InputView::Stdin),
            (false, Some(password)) => Ok(InputView::Given(password)),
            (false, None) => Ok(InputView::Prompt),
        },
{
    match password {
        Some(password) => {
            if password_stdin {
                Err(ErrorOf::PasswordTwice)
            } else {
                Ok(PasswordInput::Given(password))
            }
        },
        None => {
            if password_stdin {
                Ok(PasswordInput::Stdin)
            } else {
                Ok(PasswordInput::Prompt)
            }
        },
    }
}

/// The password that was typed; it must not be blank.
pub fn read_password_interactive(typed: String) -> (password: Result<String, Error>)
    ensures
        outcome(password) == if trimmed(typed@).len() == 0 {
            Err::<Seq<char>, ErrorView>(ErrorOf::PasswordEmpty)
        } else {
            Ok(typed@)
        },
{
    if is_blank(typed.as_str()) {
        Err(ErrorOf::PasswordEmpty)
    } else {
        Ok(typed)
    }
}

/// The password that came on the standard input, without the line ends behind it; it must not
/// be blank.
pub fn read_password_stdin(input: &str) -> (password: Result<String, Error>)
    ensures
        ({
            let line = without_trailing(input@, set!['\r', '\n']);
            outcome(password) == if trimmed(line).len() == 0 {
                Err::<Seq<char>, ErrorView>(ErrorOf::PasswordStdinEmpty)
            } else {
                Ok(line)
            }
        }),
{
    let password = trim_line_ends(input);
    if is_blank(password.as_str()) {
        Err(ErrorOf::PasswordStdinEmpty)
    } else {
        Ok(password)
    }
}

/// The settings after a login: on Linux a password that is saved goes to a file.
pub open spec fn logged_in_config(
    config: ConfigView,
    username: Seq<char>,
    save_password: bool,
    linux: bool,
) -> ConfigView {
    ConfigView {
        username: Some(username),
        save_password,
        credential_backend: if save_password && linux {
            CredentialBackend::File
        } else {
            resolved(config.credential_backend, linux)
        },
        ..config
    }
}

/// The settings after a login.
pub fn config_after_login(
    config: CliConfig,
    username: &str,
    save_password: bool,
    linux: bool,
) -> (changed: CliConfig)
    ensures
        changed.deep_view() == logged_in_config(
            config.deep_view(),
            username@,
            save_password,
            linux,
        ),
{
    let credential_backend = if save_password && linux {
        CredentialBackend::File
    } else {
        resolve(config.credential_backend, linux)
    };
    CliConfig {
        username: Some(username.to_owned()),
        proxy: config.proxy,
        save_password,
        credential_backend,
    }
}

/// What is done with the password of a login.
#[derive(Clone, Copy, PartialEq, Eq, Structural, Debug)]
pub enum PersistAction {
    /// It is removed from the keyring and from the file, as far as it is there.
    Forget,
    /// It is put into the keyring and removed from the file.
    Keyring,
    /// It is put into the file and removed from the keyring.
    File,
}

/// What is done with the password of a login.
pub open spec fn persist_action(
    save_password: bool,
    backend: CredentialBackend,
    linux: bool,
) -> PersistAction {
    if !save_password {
        PersistAction::Forget
    } else if resolved(backend, linux) is File {
        PersistAction::File
    } else {
        PersistAction::Keyring
    }
}

/// What is done with the password of a login, and what is set afterwards.
pub fn persist_password(save_password: bool, backend: CredentialBackend, linux: bool) -> (plan: (
    PersistAction,
    CredentialBackend,
))
    ensures
        plan.0 == persist_action(save_password, backend, linux),
        plan.1 == if save_password {
            resolved(backend, linux)
        } else {
            backend
        },
{
    if !save_password {
        return (PersistAction::Forget, backend);
    }
    match resolve(backend, linux) {
        CredentialBackend::File => (PersistAction::File, CredentialBackend::File),
        _ => (PersistAction::Keyring, CredentialBackend::Keyring),
    }
}

/// A password that a login saves is looked for where it was put, when the settings are read
/// again.
pub proof fn a_saved_password_is_found_again(
    config: ConfigView,
    username: Seq<char>,
    linux: bool,
    env: Option<Seq<char>>,
)
    requires
        !(env is Some && trimmed(env->0).len() > 0),
    ensures
        ({
            let set = logged_in_config(config, username, true, linux);
            let kept = resolved(set.credential_backend, linux);
            let read = ConfigView { credential_backend: resolved(kept, linux), ..set };
            match persist_action(true, set.credential_backend, linux) {
                PersistAction::File => password_source(env, read) == Ok::<SourceView, ErrorView>(
                    SourceView::File,
                ),
                PersistAction::Keyring => password_source(env, read) == Ok::<SourceView, ErrorView>(
                    SourceView::Keyring { fixed: true },
                ),
                PersistAction::Forget => false,
            }
        }),
{
}

/// A password that a login does not save is not looked for later.
pub proof fn an_unsaved_password_is_not_looked_for(
    config: ConfigView,
    username: Seq<char>,
    linux: bool,
    env: Option<Seq<char>>,
)
    requires
        !(env is Some && trimmed(env->0).len() > 0),
    ensures
        password_source(env, logged_in_config(config, username, false, linux)) == Err::<
            SourceView,
            ErrorView,
        >(ErrorOf::NoPassword),
{
}

// ---------------------------------------------------------------- lists and files

/// Where files are stored unless something else is said.
pub const DEFAULT_PATH: &'static str = "Downloads";

/// Where files are stored.
pub fn save_path(path: Option<String>) -> (chosen: String)
    ensures
        chosen@ == match path.deep_view() {
            Some(path) => path,
            None => DEFAULT_PATH@,
        },
{
    match path {
        Some(path) => path,
        None => DEFAULT_PATH.to_owned(),
    }
}

/// The courses with a number, or all where none is given.
pub open spec fn picked_courses(courses: Seq<JsonView>, course_id: Option<i64>) -> Seq<JsonView>
    decreases courses.len(),
{
    if courses.len() == 0 {
        Seq::empty()
    } else {
        let before = picked_courses(courses.drop_last(), course_id);
        if course_id is None || courses.last().at("id"@).signed() == course_id {
            before.push(courses.last())
        } else {
            before
        }
    }
}

/// The courses with a number, or all where none is given.
pub fn pick_courses(courses: &Vec<Json>, course_id: Option<i64>) -> (picked: Vec<Json>)
    ensures
        picked.deep_view() == picked_courses(courses.deep_view(), course_id),
{
    let ghost all = courses.deep_view();
    let mut picked: Vec<Json> = Vec::new();
    assert(picked.deep_view() =~= Seq::<JsonView>::empty());
    for i in 0..courses.len()
        invariant
            all == courses.deep_view(),
            picked.deep_view() == picked_courses(all.take(i as int), course_id),
    {
        assert(all.take(i + 1).drop_last() =~= all.take(i as int));
        assert(all[i as int] == courses@[i as int]@);
        if course_id.is_none() || courses[i].i64_at("id") == course_id {
            let ghost before = picked.deep_view();
            let copy = courses[i].duplicate();
            picked.push(copy);
            assert(picked.deep_view() =~= before.push(copy@));
        }
    }
    assert(all.take(all.len() as int) =~= all);
    picked
}

/// The lectures with a number, or all where none is given.
pub open spec fn picked_subs(subs: Seq<SubjectView>, sub_id: Option<i64>) -> Seq<SubjectView>
    decreases subs.len(),
{
    if subs.len() == 0 {
        Seq::empty()
    } else {
        let before = picked_subs(subs.drop_last(), sub_id);
        if sub_id is None || sub_id == Some(subs.last().sub_id) {
            before.push(subs.last())
        } else {
            before
        }
    }
}

/// The lectures with a number, or all where none is given; there must be one.
pub fn pick_subs(subs: Vec<Subject>, sub_id: Option<i64>, course_id: i64) -> (picked: Result<
    Vec<Subject>,
    Error,
>)
    ensures
        outcome(picked) == if picked_subs(subs.deep_view(), sub_id).len() == 0 {
            Err::<Seq<SubjectView>, ErrorView>(ErrorOf::SubsNotFound(course_id))
        } else {
            Ok(picked_subs(subs.deep_view(), sub_id))
        },
{
    let ghost all = subs.deep_view();
    let ghost given = subs@;
    let count: usize = subs.len();
    let mut rest = subs;
    let mut picked: Vec<Subject> = Vec::new();
    assert(picked.deep_view() =~= Seq::<SubjectView>::empty());
    for i in 0..count
        invariant
            count == given.len(),
            given == subs@,
            all == subs.deep_view(),
            rest@ == given.skip(i as int),
            picked.deep_view() == picked_subs(all.take(i as int), sub_id),
    {
        assert(all.take(i + 1).drop_last() =~= all.take(i as int));
        assert(all[i as int] == given[i as int].deep_view());
        let next = rest.remove(0);
        assert(rest@ =~= given.skip(i + 1));
        let wanted = match sub_id {
            Some(id) => next.sub_id == id,
            None => true,
        };
        if wanted {
            let ghost before = picked.deep_view();
            picked.push(next);
            assert(picked.deep_view() =~= before.push(next.deep_view()));
        }
    }
    assert(all.take(all.len() as int) =~= all);
    assert(picked.deep_view().len() == picked@.len());
    if picked.len() == 0 {
        Err(ErrorOf::SubsNotFound(course_id))
    } else {
        Ok(picked)
    }
}

/// The name of the file for a slide, counted from zero: its number and the ending of its address.
pub open spec fn ppt_image_name(index: nat, url: Seq<char>) -> Seq<char> {
    let ending = after_last(url, '.');
    decimal(index as int + 1) + "."@ + if ending.len() == 0 {
        "jpg"@
    } else {
        ending
    }
}

/// The name of the file for a slide.
pub fn ppt_image_file(index: usize, url: &str) -> (name: String)
    requires
        index < u64::MAX,
    ensures
        name@ == ppt_image_name(index as nat, url@),
{
    let number: u64 = index as u64 + 1;
    let ending = from_last_char(url, '.');
    let mut name = u64_text(number);
    name.append(".");
    if ending.as_str().is_empty() {
        name.append("jpg");
    } else {
        name.append(ending.as_str());
    }
    name
}

/// The name of the file for all slides of a lecture.
pub fn ppt_pdf_file(course_name: &str, sub_name: &str) -> (name: String)
    ensures
        name@ == course_name@ + "-"@ + sub_name@ + ".pdf"@,
{
    let mut name = course_name.to_owned();
    name.append("-");
    name.append(sub_name);
    name.append(".pdf");
    name
}

/// The lines of a recorded transcript, without the space around them and without blank ones.
pub open spec fn asr_lines(items: Seq<SubtitleView>) -> Seq<Seq<char>>
    decreases items.len(),
{
    if items.len() == 0 {
        Seq::empty()
    } else {
        let before = asr_lines(items.drop_last());
        let line = trimmed(items.last().text);
        if line.len() == 0 {
            before
        } else {
            before.push(line)
        }
    }
}

/// A recorded transcript as a text.
pub fn asr_text(items: &Vec<SubtitleContent>) -> (text: String)
    ensures
        text@ == joined(asr_lines(items.deep_view()), "\n"@),
{
    let ghost all = items.deep_view();
    let mut lines: Vec<String> = Vec::new();
    assert(lines.deep_view() =~= Seq::<Seq<char>>::empty());
    for i in 0..items.len()
        invariant
            all == items.deep_view(),
            lines.deep_view() == asr_lines(all.take(i as int)),
    {
        assert(all.take(i + 1).drop_last() =~= all.take(i as int));
        assert(all[i as int] == items@[i as int].deep_view());
        let line = trim(items[i].text.as_str());
        if !line.as_str().is_empty() {
            let ghost before = lines.deep_view();
            lines.push(line);
            assert(lines.deep_view() =~= before.push(line@));
        }
    }
    assert(all.take(all.len() as int) =~= all);
    join(&lines, "\n")
}

/// The number and the texts that a list shows of an entry, with what stands for those that are
/// not there.
pub struct ListRow {
    pub id: i64,
    pub title: String,
    pub end_time: String,
}

/// What a list shows of an entry.
pub struct RowView {
    pub id: i64,
    pub title: Seq<char>,
    pub end_time: Seq<char>,
}

impl DeepView for ListRow {
    type V = RowView;

    open spec fn deep_view(&self) -> RowView {
        RowView { id: self.id, title: self.title@, end_time: self.end_time@ }
    }
}

/// The number of an entry, zero if it has none.
pub open spec fn number_or_zero(entry: JsonView) -> i64 {
    match entry.at("id"@).signed() {
        Some(id) => id,
        None => 0,
    }
}

fn id_or_zero(entry: &Json) -> (id: i64)
    ensures
        id == number_or_zero(entry@),
{
    match entry.i64_at("id") {
        Some(id) => id,
        None => 0,
    }
}

/// What the list of what is due shows of an entry.
pub fn todo_row(todo: &Json) -> (row: ListRow)
    ensures
        row.deep_view() == (RowView {
            id: number_or_zero(todo@),
            title: todo@.text_or("title"@, "Unknown"@),
            end_time: todo@.text_or("end_time"@, "No deadline"@),
        }),
{
    ListRow {
        id: id_or_zero(todo),
        title: todo.text_or("title", "Unknown"),
        end_time: todo.text_or("end_time", "No deadline"),
    }
}

/// What the list of courses shows of a course.
pub fn course_row(course: &Json) -> (row: (i64, String))
    ensures
        row.0 == number_or_zero(course@),
        row.1@ == course@.text_or("name"@, "Unknown"@),
{
    (id_or_zero(course), course.text_or("name", "Unknown"))
}

// ---------------------------------------------------------------- what is decided

/// Without a number all courses are picked, in their order. With one, a course more is picked
/// behind the others exactly where it has that number.
pub proof fn courses_are_picked_by_their_number(
    courses: Seq<JsonView>,
    course: JsonView,
    number: i64,
)
    ensures
        picked_courses(courses, None) == courses,
        picked_courses(Seq::empty(), Some(number)).len() == 0,
        course.at("id"@).signed() == Some(number) ==> picked_courses(
            courses.push(course),
            Some(number),
        ) == picked_courses(courses, Some(number)).push(course),
        course.at("id"@).signed() != Some(number) ==> picked_courses(
            courses.push(course),
            Some(number),
        ) == picked_courses(courses, Some(number)),
    decreases courses.len(),
{
    assert(courses.push(course).drop_last() =~= courses);
    if courses.len() > 0 {
        courses_are_picked_by_their_number(courses.drop_last(), course, number);
        assert(courses.drop_last().push(courses.last()) =~= courses);
    } else {
        assert(picked_courses(courses, None) =~= courses);
    }
}

/// Without a number all lectures are picked, in their order. With one, a lecture more is picked
/// behind the others exactly where it has that number.
pub proof fn lectures_are_picked_by_their_number(
    subs: Seq<SubjectView>,
    sub: SubjectView,
    number: i64,
)
    ensures
        picked_subs(subs, None) == subs,
        picked_subs(Seq::empty(), Some(number)).len() == 0,
        sub.sub_id == number ==> picked_subs(subs.push(sub), Some(number)) == picked_subs(
            subs,
            Some(number),
        ).push(sub),
        sub.sub_id != number ==> picked_subs(subs.push(sub), Some(number)) == picked_subs(
            subs,
            Some(number),
        ),
    decreases subs.len(),
{
    assert(subs.push(sub).drop_last() =~= subs);
    if subs.len() > 0 {
        lectures_are_picked_by_their_number(subs.drop_last(), sub, number);
        assert(subs.drop_last().push(subs.last()) =~= subs);
    } else {
        assert(picked_subs(subs, None) =~= subs);
    }
}

/// The file for a slide is named by its number, counted from one, and by what stands behind the
/// last dot of its address. An address that ends in a dot is that of a photograph.
pub proof fn a_slide_is_named_by_its_number(index: nat, before: Seq<char>, ending: Seq<char>)
    requires
        forall|i: int| 0 <= i < ending.len() ==> #[trigger] ending[i] != '.',
    ensures
        ending.len() > 0 ==> ppt_image_name(index, before + "."@ + ending) == decimal(
            index as int + 1,
        ) + "."@ + ending,
        ending.len() == 0 ==> ppt_image_name(index, before + "."@ + ending) == decimal(
            index as int + 1,
        ) + "."@ + "jpg"@,
        ending.len() > 0 ==> ppt_image_name(index, ending) == decimal(index as int + 1) + "."@
            + ending,
{
    reveal_strlit(".");
    let url = before + "."@ + ending;
    behind_a_character_is_the_last_part(url, '.');
    behind_a_character_is_the_last_part(ending, '.');
    let found = after_last(url, '.');
    assert(url[before.len() as int] == '.');
    if found.len() < ending.len() {
        let at = url.len() - found.len() - 1;
        assert(url[at] == ending[at - before.len() - 1]);
    } else if found.len() > ending.len() {
        let at = before.len() - (url.len() - found.len());
        assert(found[at] == url[before.len() as int]);
    }
    assert(found =~= ending) by {
        assert forall|i: int| 0 <= i < ending.len() implies found[i] == #[trigger] ending[i] by {
            assert(found[i] == url[url.len() - found.len() + i]);
        }
    }
    let alone = after_last(ending, '.');
    if alone.len() < ending.len() {
        assert(ending[ending.len() - alone.len() - 1] == '.');
    }
    assert(alone =~= ending);
}

/// One record more is one line more of a transcript, behind the others and without the space
/// around it, unless it is blank.
pub proof fn one_record_more_is_written_last(items: Seq<SubtitleView>, item: SubtitleView)
    ensures
        asr_lines(Seq::empty()).len() == 0,
        trimmed(item.text).len() > 0 ==> asr_lines(items.push(item)) == asr_lines(items).push(
            trimmed(item.text),
        ),
        trimmed(item.text).len() == 0 ==> asr_lines(items.push(item)) == asr_lines(items),
{
    assert(items.push(item).drop_last() =~= items);
}

/// The settings are kept where the system keeps settings: on Windows in its own place for them,
/// elsewhere in the place that is set for them, or below the home, and otherwise in the current
/// directory. A file stands right below that place.
pub proof fn settings_are_kept_in_the_first_place_there_is(env: ConfigEnv, name: Seq<char>)
    ensures
        env.windows && env.appdata is Some ==> config_dir(env) == Ok::<Seq<Seq<char>>, ErrorView>(
            seq![env.appdata->0@, "zju-learning-assistant"@],
        ),
        !(env.windows && env.appdata is Some) && env.xdg_config_home is Some ==> config_dir(env)
            == Ok::<Seq<Seq<char>>, ErrorView>(
            seq![env.xdg_config_home->0@, "zju-learning-assistant"@],
        ),
        !(env.windows && env.appdata is Some) && env.xdg_config_home is None && env.home is Some
            ==> config_dir(env) == Ok::<Seq<Seq<char>>, ErrorView>(
            seq![env.home->0@, ".config"@, "zju-learning-assistant"@],
        ),
        !(env.windows && env.appdata is Some) && env.xdg_config_home is None && env.home is None
            ==> match env.current_dir {
            Ok(dir) => config_dir(env) == Ok::<Seq<Seq<char>>, ErrorView>(
                seq![dir@, ".zju-learning-assistant"@],
            ),
            Err(words) => config_dir(env) == Err::<Seq<Seq<char>>, ErrorView>(
                ErrorView::Failed(words@),
            ),
        },
        match (config_dir(env), config_file(env, name)) {
            (Ok(dir), Ok(file)) => file.len() == dir.len() + 1 && file.drop_last() == dir
                && file.last() == name,
            (Err(error), Err(same_error)) => error == same_error,
            _ => false,
        },
{
    if let Ok(dir) = config_dir(env) {
        assert(dir.push(name).drop_last() =~= dir);
    }
}

/// A place for a password that is set stays. Where none is set it is the file on Linux, and the
/// keyring elsewhere.
pub proof fn a_place_that_is_set_stays(linux: bool)
    ensures
        resolved(CredentialBackend::File, linux) is File,
        resolved(CredentialBackend::Keyring, linux) is Keyring,
        resolved(CredentialBackend::Auto, true) is File,
        resolved(CredentialBackend::Auto, false) is Keyring,
{
}

/// A password that the environment gives is taken as it is, unless it is blank. Otherwise it is
/// looked for only where one is saved, and in the place that is set.
pub proof fn a_password_is_looked_for_where_it_is(config: ConfigView, password: Seq<char>)
    ensures
        trimmed(password).len() > 0 ==> password_source(Some(password), config) == Ok::<
            SourceView,
            ErrorView,
        >(SourceView::Ready(password)),
        trimmed(password).len() == 0 ==> password_source(Some(password), config) == password_source(
            None,
            config,
        ),
        !config.save_password ==> password_source(None, config) == Err::<SourceView, ErrorView>(
            ErrorView::NoPassword,
        ),
        config.save_password ==> password_source(None, config) == Ok::<SourceView, ErrorView>(
            match config.credential_backend {
                CredentialBackend::Auto => SourceView::Keyring { fixed: false },
                CredentialBackend::Keyring => SourceView::Keyring { fixed: true },
                CredentialBackend::File => SourceView::File,
            },
        ),
{
}

/// A stored password is only for the account that it was stored for, and never a blank one.
pub proof fn a_stored_password_is_for_its_account(stored: StoredCredential, username: Seq<char>)
    ensures
        stored_password(None, username) is None,
        stored.username@ != username ==> stored_password(Some(stored), username) is None,
        trimmed(stored.password@).len() == 0 ==> stored_password(Some(stored), username) is None,
        stored.username@ == username && trimmed(stored.password@).len() > 0 ==> stored_password(
            Some(stored),
            username,
        ) == Some(stored.password@),
{
}

/// After a login the settings name the account and say whether its password is saved; on Linux a
/// saved one is in the file. The proxy stays as it was.
pub proof fn the_settings_name_the_account(
    config: ConfigView,
    username: Seq<char>,
    save_password: bool,
    linux: bool,
)
    ensures
        ({
            let set = logged_in_config(config, username, save_password, linux);
            &&& set.username == Some(username)
            &&& set.save_password == save_password
            &&& set.proxy == config.proxy
            &&& !(set.credential_backend is Auto)
            &&& save_password && linux ==> set.credential_backend is File
            &&& !(save_password && linux) && !(config.credential_backend is Auto)
                ==> set.credential_backend == config.credential_backend
        }),
        persist_action(false, config.credential_backend, linux) is Forget,
        persist_action(true, CredentialBackend::File, linux) is File,
        persist_action(true, CredentialBackend::Keyring, linux) is Keyring,
        persist_action(true, CredentialBackend::Auto, true) is File,
        persist_action(true, CredentialBackend::Auto, false) is Keyring,
{
}

/// A list shows the number of an entry, and zero where it has none.
pub proof fn a_list_shows_the_number_of_an_entry(entry: JsonView, n: i64)
    ensures
        entry.at("id"@).signed() == Some(n) ==> number_or_zero(entry) == n,
        entry.at("id"@).signed() is None ==> number_or_zero(entry) == 0,
{
}

/// A new session is that of nobody: it has no name and no password, and goes by its proxy first.
pub proof fn a_new_session_is_that_of_nobody(
    assist: AssistView,
    custom_proxy: Option<Seq<char>>,
)
    requires
        new_session(assist, custom_proxy),
    ensures
        !assist.have_login,
        assist.username == Seq::<char>::empty(),
        assist.password == Seq::<char>::empty(),
        assist.proxy_first,
        assist.custom_proxy == custom_proxy,
{
    assert(assist.username =~= Seq::<char>::empty());
    assert(assist.password =~= Seq::<char>::empty());
}

} // verus!
