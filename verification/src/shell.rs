//! The application shell: sections, the beginner tutorial, the sidebar, the
//! sign-in gate and the startup sequence that restores persisted preferences.

use vstd::prelude::*;
use crate::api::{Account, ConnectionDto};
use crate::connection::{
    connection_from_dto, connections_from_dtos, lists_id, ConnectionState,
};
use crate::i18n::{locale_from_code, Locale};
use crate::icons::IconName;
use crate::page_size::{valid_page_size, validate_page_size};
use crate::repos::{sync_step, sync_step_of, SyncStep};
use crate::text::{chars_of, decimal, decimal_string, replace, replace_all, string_of, trim, trim_seq};

verus! {

// ---------------------------------------------------------------------------
// Sections
// ---------------------------------------------------------------------------

#[derive(Debug, Clone, Copy, PartialEq, Eq, Structural)]
pub enum AppSection {
    Repos,
    Connect,
    Keys,
}

pub open spec fn section_label_key(s: AppSection) -> Seq<char> {
    match s {
        AppSection::Repos => "nav.repos"@,
        AppSection::Connect => "nav.connect"@,
        AppSection::Keys => "nav.keys"@,
    }
}

pub open spec fn section_icon(s: AppSection) -> IconName {
    match s {
        AppSection::Repos => IconName::Folder,
        AppSection::Connect => IconName::Server,
        AppSection::Keys => IconName::Key,
    }
}

impl AppSection {
    /// The sections in sidebar order.
    pub fn all() -> (r: Vec<AppSection>)
        ensures
            r@ == seq![AppSection::Repos, AppSection::Connect, AppSection::Keys],
    {
        let r = vec![AppSection::Repos, AppSection::Connect, AppSection::Keys];
        assert(r@ =~= seq![AppSection::Repos, AppSection::Connect, AppSection::Keys]);
        r
    }

    /// String-table key of the section's label.
    pub fn label_key(self) -> (r: &'static str)
        ensures
            r@ == section_label_key(self),
    {
        match self {
            AppSection::Repos => "nav.repos",
            AppSection::Connect => "nav.connect",
            AppSection::Keys => "nav.keys",
        }
    }

    /// The section's icon.
    pub fn icon(self) -> (r: IconName)
        ensures
            r == section_icon(self),
    {
        match self {
            AppSection::Repos => IconName::Folder,
            AppSection::Connect => IconName::Server,
            AppSection::Keys => IconName::Key,
        }
    }
}

// ---------------------------------------------------------------------------
// Beginner tutorial
// ---------------------------------------------------------------------------

#[derive(Debug, Clone, Copy, PartialEq, Eq, Structural)]
pub enum TutorialStep {
    SignIn,
    Sync,
    Connect,
    CreateKey,
    BindKey,
    CloneRepo,
    ConnectRepo,
    TestRepo,
}

/// The tutorial's steps in order.
pub open spec fn tutorial_steps() -> Seq<TutorialStep> {
    seq![
        TutorialStep::SignIn,
        TutorialStep::Sync,
        TutorialStep::Connect,
        TutorialStep::CreateKey,
        TutorialStep::BindKey,
        TutorialStep::CloneRepo,
        TutorialStep::ConnectRepo,
        TutorialStep::TestRepo,
    ]
}

/// Position of a step in the tutorial.
pub open spec fn step_index(s: TutorialStep) -> nat {
    match s {
        TutorialStep::SignIn => 0,
        TutorialStep::Sync => 1,
        TutorialStep::Connect => 2,
        TutorialStep::CreateKey => 3,
        TutorialStep::BindKey => 4,
        TutorialStep::CloneRepo => 5,
        TutorialStep::ConnectRepo => 6,
        TutorialStep::TestRepo => 7,
    }
}

/// The section a step is shown on.
pub open spec fn step_section(s: TutorialStep) -> AppSection {
    match s {
        TutorialStep::Connect => AppSection::Connect,
        TutorialStep::CreateKey => AppSection::Keys,
        _ => AppSection::Repos,
    }
}

/// What pressing "next" on a step leads to.
#[derive(Debug, Clone, Copy, PartialEq, Eq, Structural)]
pub enum TutorialMove {
    /// Show this step.
    Show(TutorialStep),
    /// The last step was done: close the tutorial and remember it was seen.
    Finish,
}

pub open spec fn step_next(s: TutorialStep) -> TutorialMove {
    if step_index(s) + 1 >= tutorial_steps().len() {
        TutorialMove::Finish
    } else {
        TutorialMove::Show(tutorial_steps()[step_index(s) + 1int])
    }
}

pub open spec fn step_previous(s: TutorialStep) -> TutorialStep {
    if step_index(s) == 0 { s } else { tutorial_steps()[step_index(s) - 1] }
}

impl TutorialStep {
    /// The tutorial's steps in order.
    pub fn all() -> (r: Vec<TutorialStep>)
        ensures
            r@ == tutorial_steps(),
    {
        let r = vec![
            TutorialStep::SignIn,
            TutorialStep::Sync,
            TutorialStep::Connect,
            TutorialStep::CreateKey,
            TutorialStep::BindKey,
            TutorialStep::CloneRepo,
            TutorialStep::ConnectRepo,
            TutorialStep::TestRepo,
        ];
        assert(r@ =~= tutorial_steps());
        r
    }

    /// Position of the step in the tutorial.
    pub fn index(self) -> (r: usize)
        ensures
            r == step_index(self),
            tutorial_steps()[r as int] == self,
    {
        match self {
            TutorialStep::SignIn => 0,
            TutorialStep::Sync => 1,
            TutorialStep::Connect => 2,
            TutorialStep::CreateKey => 3,
            TutorialStep::BindKey => 4,
            TutorialStep::CloneRepo => 5,
            TutorialStep::ConnectRepo => 6,
            TutorialStep::TestRepo => 7,
        }
    }

    /// The section the step is shown on.
    pub fn section(self) -> (r: AppSection)
        ensures
            r == step_section(self),
    {
        match self {
            TutorialStep::Connect => AppSection::Connect,
            TutorialStep::CreateKey => AppSection::Keys,
            _ => AppSection::Repos,
        }
    }

    /// The step's icon.
    pub fn icon(self) -> (r: IconName)
        ensures
            self == TutorialStep::SignIn ==> r == IconName::Github,
            self == TutorialStep::Sync || self == TutorialStep::CloneRepo ==> r == IconName::Download,
            self == TutorialStep::Connect || self == TutorialStep::ConnectRepo || self == TutorialStep::TestRepo ==> r == IconName::Server,
            self == TutorialStep::CreateKey || self == TutorialStep::BindKey ==> r == IconName::Key,
    {
        match self {
            TutorialStep::SignIn => IconName::Github,
            TutorialStep::Sync | TutorialStep::CloneRepo => IconName::Download,
            TutorialStep::Connect | TutorialStep::ConnectRepo | TutorialStep::TestRepo => IconName::Server,
            TutorialStep::CreateKey | TutorialStep::BindKey => IconName::Key,
        }
    }

    /// String-table key of the step's title.
    pub fn title_key(self) -> (r: &'static str)
        ensures
            r@ == step_title_key(self),
    {
        match self {
            TutorialStep::SignIn => "tutorial.signin.title",
            TutorialStep::Sync => "tutorial.sync.title",
            TutorialStep::Connect => "tutorial.connect.title",
            TutorialStep::CreateKey => "tutorial.create_key.title",
            TutorialStep::BindKey => "tutorial.bind_key.title",
            TutorialStep::CloneRepo => "tutorial.clone_repo.title",
            TutorialStep::ConnectRepo => "tutorial.connect_repo.title",
            TutorialStep::TestRepo => "tutorial.test_repo.title",
        }
    }

    /// String-table key of the step's body.
    pub fn body_key(self) -> (r: &'static str)
        ensures
            r@ == step_body_key(self),
    {
        match self {
            TutorialStep::SignIn => "tutorial.signin.body",
            TutorialStep::Sync => "tutorial.sync.body",
            TutorialStep::Connect => "tutorial.connect.body",
            TutorialStep::CreateKey => "tutorial.create_key.body",
            TutorialStep::BindKey => "tutorial.bind_key.body",
            TutorialStep::CloneRepo => "tutorial.clone_repo.body",
            TutorialStep::ConnectRepo => "tutorial.connect_repo.body",
            TutorialStep::TestRepo => "tutorial.test_repo.body",
        }
    }

    /// Selector of the element the step points at.
    pub fn target_selector(self) -> (r: &'static str)
        ensures
            r@ == step_target_selector(self),
    {
        match self {
            TutorialStep::SignIn => "[data-tutorial-target='sign-in']",
            TutorialStep::Sync => "[data-tutorial-target='sync-repos']",
            TutorialStep::Connect => "[data-tutorial-target='connect-environment']",
            TutorialStep::CreateKey => "[data-tutorial-target='create-key']",
            TutorialStep::BindKey => "[data-tutorial-target='bind-key']",
            TutorialStep::CloneRepo => "[data-tutorial-target='clone-repo']",
            TutorialStep::ConnectRepo => "[data-tutorial-target='connect-repo']",
            TutorialStep::TestRepo => "[data-tutorial-target='test-repo']",
        }
    }

    /// The step "back" leads to; the first step stays where it is.
    pub fn previous(self) -> (r: TutorialStep)
        ensures
            r == step_previous(self),
    {
        let i = self.index();
        if i == 0 {
            return self;
        }
        let steps = TutorialStep::all();
        steps[i - 1]
    }

    /// What "next" leads to: the following step, or finishing after the last.
    pub fn next(self) -> (r: TutorialMove)
        ensures
            r == step_next(self),
    {
        let i = self.index();
        let steps = TutorialStep::all();
        if i + 1 >= steps.len() {
            return TutorialMove::Finish;
        }
        TutorialMove::Show(steps[i + 1])
    }
}

pub open spec fn step_title_key(s: TutorialStep) -> Seq<char> {
    match s {
        TutorialStep::SignIn => "tutorial.signin.title"@,
        TutorialStep::Sync => "tutorial.sync.title"@,
        TutorialStep::Connect => "tutorial.connect.title"@,
        TutorialStep::CreateKey => "tutorial.create_key.title"@,
        TutorialStep::BindKey => "tutorial.bind_key.title"@,
        TutorialStep::CloneRepo => "tutorial.clone_repo.title"@,
        TutorialStep::ConnectRepo => "tutorial.connect_repo.title"@,
        TutorialStep::TestRepo => "tutorial.test_repo.title"@,
    }
}

pub open spec fn step_body_key(s: TutorialStep) -> Seq<char> {
    match s {
        TutorialStep::SignIn => "tutorial.signin.body"@,
        TutorialStep::Sync => "tutorial.sync.body"@,
        TutorialStep::Connect => "tutorial.connect.body"@,
        TutorialStep::CreateKey => "tutorial.create_key.body"@,
        TutorialStep::BindKey => "tutorial.bind_key.body"@,
        TutorialStep::CloneRepo => "tutorial.clone_repo.body"@,
        TutorialStep::ConnectRepo => "tutorial.connect_repo.body"@,
        TutorialStep::TestRepo => "tutorial.test_repo.body"@,
    }
}

pub open spec fn step_target_selector(s: TutorialStep) -> Seq<char> {
    match s {
        TutorialStep::SignIn => "[data-tutorial-target='sign-in']"@,
        TutorialStep::Sync => "[data-tutorial-target='sync-repos']"@,
        TutorialStep::Connect => "[data-tutorial-target='connect-environment']"@,
        TutorialStep::CreateKey => "[data-tutorial-target='create-key']"@,
        TutorialStep::BindKey => "[data-tutorial-target='bind-key']"@,
        TutorialStep::CloneRepo => "[data-tutorial-target='clone-repo']"@,
        TutorialStep::ConnectRepo => "[data-tutorial-target='connect-repo']"@,
        TutorialStep::TestRepo => "[data-tutorial-target='test-repo']"@,
    }
}

/// "Back" undoes "next", and "next" undoes "back" away from the first step.
pub proof fn law_tutorial_back_and_next_are_inverse(s: TutorialStep)
    ensures
        step_next(s) matches TutorialMove::Show(n) ==> step_previous(n) == s,
        step_index(s) > 0 ==> step_next(step_previous(s)) == TutorialMove::Show(s),
{
}

/// Walking the tutorial with "next" from the first step visits every step in
/// order and finishes after the last one.
pub proof fn law_tutorial_walk(i: nat)
    requires
        i < 8,
    ensures
        step_index(tutorial_steps()[i as int]) == i,
        i + 1 < 8 ==> step_next(tutorial_steps()[i as int]) == TutorialMove::Show(tutorial_steps()[i + 1int]),
        i + 1 == 8 ==> step_next(tutorial_steps()[i as int]) == TutorialMove::Finish,
{
}

/// The "step n of m" line: `{current}` replaced by the step's number (from 1)
/// and `{total}` by the number of steps.
pub fn tutorial_step_count(template: &str, step: TutorialStep) -> (r: Vec<char>)
    ensures
        r@ == replace_all(
            replace_all(template@, "{current}"@, decimal((step_index(step) + 1) as nat)),
            "{total}"@,
            decimal(8),
        ),
{
    proof {
        reveal_strlit("{current}");
        reveal_strlit("{total}");
    }
    let current = chars_of(decimal_string((step.index() + 1) as u64).as_str());
    let total = chars_of(decimal_string(8).as_str());
    let first = replace(&chars_of(template), &chars_of("{current}"), &current);
    replace(&first, &chars_of("{total}"), &total)
}

/// Classes of one progress dot: the active step, a step already done, or a
/// step still ahead.
pub fn tutorial_dot_class(item: TutorialStep, active: TutorialStep) -> (r: &'static str)
    ensures
        item == active ==> r@ == "h-1 flex-1 rounded-full bg-primary"@,
        item != active && step_index(item) < step_index(active) ==> r@ == "h-1 flex-1 rounded-full bg-primary/40"@,
        item != active && step_index(item) >= step_index(active) ==> r@ == "h-1 flex-1 rounded-full bg-border"@,
{
    if item == active {
        "h-1 flex-1 rounded-full bg-primary"
    } else if item.index() < active.index() {
        "h-1 flex-1 rounded-full bg-primary/40"
    } else {
        "h-1 flex-1 rounded-full bg-border"
    }
}

// ---------------------------------------------------------------------------
// Sidebar
// ---------------------------------------------------------------------------

/// The sidebar's collapsed state: a manual choice, when the user made one,
/// overrides the automatic choice made from the window width.
#[derive(Debug, Clone, Copy, PartialEq, Eq, Structural)]
pub struct SidebarState {
    pub manual: Option<bool>,
    pub auto: bool,
}

pub open spec fn sidebar_collapsed(s: SidebarState) -> bool {
    match s.manual {
        Some(m) => m,
        None => s.auto,
    }
}

impl SidebarState {
    /// Starting state: no manual choice, automatic choice from the width.
    pub fn new(auto_collapsed: bool) -> (s: Self)
        ensures
            s.manual is None,
            s.auto == auto_collapsed,
    {
        SidebarState { manual: None, auto: auto_collapsed }
    }

    /// Whether the sidebar is collapsed.
    pub fn collapsed(&self) -> (r: bool)
        ensures
            r == sidebar_collapsed(*self),
    {
        match self.manual {
            Some(m) => m,
            None => self.auto,
        }
    }

    /// The window was resized: when the automatic choice flips, the manual
    /// choice is dropped so the new width takes effect.
    pub fn on_resize(&mut self, next_auto_collapsed: bool)
        ensures
            final(self).auto == next_auto_collapsed,
            next_auto_collapsed != old(self).auto ==> final(self).manual is None,
            next_auto_collapsed == old(self).auto ==> final(self).manual == old(self).manual,
    {
        if next_auto_collapsed != self.auto {
            self.manual = None;
        }
        self.auto = next_auto_collapsed;
    }

    /// The toggle button: collapse when expanded, expand when collapsed.
    pub fn toggle(&mut self)
        ensures
            final(self).auto == old(self).auto,
            final(self).manual == Some(!sidebar_collapsed(*old(self))),
    {
        let c = self.collapsed();
        self.manual = Some(!c);
    }
}

/// The toggle always flips what is shown, and a width change across the
/// threshold always shows the automatic choice for the new width.
pub proof fn law_sidebar_toggle_and_resize(s: SidebarState, next_auto: bool)
    ensures
        sidebar_collapsed(SidebarState { manual: Some(!sidebar_collapsed(s)), ..s }) == !sidebar_collapsed(s),
        next_auto != s.auto ==> sidebar_collapsed(SidebarState { manual: None, auto: next_auto }) == next_auto,
{
}

// ---------------------------------------------------------------------------
// Sign-in gate
// ---------------------------------------------------------------------------

/// The token to send when the user submits the sign-in form: nothing while a
/// sign-in is already running or when the token is blank, otherwise the token
/// without surrounding whitespace.
pub fn token_to_submit(signing_in: bool, token: &str) -> (r: Option<Vec<char>>)
    ensures
        signing_in ==> r is None,
        !signing_in && trim_seq(token@).len() == 0 ==> r is None,
        !signing_in && trim_seq(token@).len() > 0 ==> r is Some && r->0@ == trim_seq(token@),
{
    if signing_in {
        return None;
    }
    let t = trim(token);
    if t.len() == 0 {
        None
    } else {
        Some(t)
    }
}

// ---------------------------------------------------------------------------
// Settings
// ---------------------------------------------------------------------------

/// Classes of a settings tab button.
pub fn settings_tab_button_class(active: bool) -> (r: &'static str)
    ensures
        active ==> r@ == "w-full flex h-10 items-center whitespace-nowrap rounded-lg bg-primary-soft px-3 text-sm font-medium text-primary focus:outline-none"@,
        !active ==> r@ == "w-full flex h-10 items-center whitespace-nowrap rounded-lg px-3 text-sm font-medium text-muted hover:bg-surface hover:text-content focus:outline-none"@,
{
    if active {
        "w-full flex h-10 items-center whitespace-nowrap rounded-lg bg-primary-soft px-3 text-sm font-medium text-primary focus:outline-none"
    } else {
        "w-full flex h-10 items-center whitespace-nowrap rounded-lg px-3 text-sm font-medium text-muted hover:bg-surface hover:text-content focus:outline-none"
    }
}

/// Classes of a theme choice button in the settings.
pub fn settings_theme_button_class(active: bool) -> (r: &'static str)
    ensures
        active ==> r@ == "inline-flex h-8 items-center gap-2 rounded-md bg-primary px-3 text-sm font-medium text-on-primary"@,
        !active ==> r@ == "inline-flex h-8 items-center gap-2 rounded-md px-3 text-sm font-medium text-muted hover:bg-bg hover:text-content"@,
{
    if active {
        "inline-flex h-8 items-center gap-2 rounded-md bg-primary px-3 text-sm font-medium text-on-primary"
    } else {
        "inline-flex h-8 items-center gap-2 rounded-md px-3 text-sm font-medium text-muted hover:bg-bg hover:text-content"
    }
}

// ---------------------------------------------------------------------------
// Startup
// ---------------------------------------------------------------------------

/// What the app restores at startup.
pub struct StartupState {
    pub locale: Locale,
    pub page_size: usize,
    pub connection: ConnectionState,
    pub account: Option<Account>,
}

impl StartupState {
    /// Apply what the host returned at startup, in order: the stored language,
    /// the stored page size (when valid), the connection list, the stored
    /// active connection, and the signed-in account. A value the host could
    /// not provide is `None` and leaves that part as it was.
    pub fn apply_startup(
        &mut self,
        language: Option<String>,
        page_size: Option<usize>,
        connections: Option<Vec<ConnectionDto>>,
        active_connection: Option<String>,
        session: Option<Account>,
    )
        ensures
            language is Some ==> final(self).locale == locale_from_code(language->0@),
            language is None ==> final(self).locale == old(self).locale,
            page_size is Some && valid_page_size(page_size->0 as int) ==> final(self).page_size == page_size->0,
            !(page_size is Some && valid_page_size(page_size->0 as int)) ==> final(self).page_size == old(self).page_size,
            connections is Some ==> final(self).connection.connections@ == connections->0@.map_values(|d: ConnectionDto| connection_from_dto(d)),
            connections is None ==> final(self).connection.connections == old(self).connection.connections,
            active_connection is Some && active_connection->0@.len() == 0 ==> final(self).connection.connected_id is None,
            active_connection is Some && active_connection->0@.len() != 0 ==> final(self).connection.connected_id == active_connection,
            active_connection is None && connections is None ==> final(self).connection.connected_id == old(self).connection.connected_id,
            active_connection is None && connections is Some ==> (if old(self).connection.connected_id is Some
                && lists_id(final(self).connection.connections@, old(self).connection.connected_id->0@) {
                final(self).connection.connected_id == old(self).connection.connected_id
            } else {
                final(self).connection.connected_id is None
            }),
            session is Some ==> final(self).account == session,
            session is None ==> final(self).account == old(self).account,
    {
        if let Some(code) = language {
            self.locale = Locale::from_code(code.as_str());
        }
        if let Some(size) = page_size {
            if let Some(valid) = validate_page_size(size) {
                self.page_size = valid;
            }
        }
        if let Some(list) = connections {
            self.connection.set_connections(connections_from_dtos(list));
        }
        if let Some(value) = active_connection {
            self.connection.apply_persisted(value);
        }
        if let Some(acct) = session {
            self.account = Some(acct);
        }
    }
}


// ---------------------------------------------------------------------------
// Session and sign-in screen
// ---------------------------------------------------------------------------

/// The two top-level screens.
#[derive(Debug, Clone, Copy, PartialEq, Eq, Structural)]
pub enum Screen {
    Main,
    SignIn,
}

/// The signed-in account and the sign-in screen's state.
pub struct Session {
    pub screen: Screen,
    pub signing_in: bool,
    pub error: Option<String>,
    pub account: Option<Account>,
}

impl Session {
    /// The app opens on the main screen, signed out.
    pub fn new() -> (s: Self)
        ensures
            s.screen == Screen::Main,
            !s.signing_in,
            s.error is None,
            s.account is None,
    {
        Session { screen: Screen::Main, signing_in: false, error: None, account: None }
    }

    /// Open the token sign-in screen with no error shown.
    pub fn start_auth(&mut self)
        ensures
            final(self).screen == Screen::SignIn,
            final(self).error is None,
            final(self).signing_in == old(self).signing_in,
            final(self).account == old(self).account,
    {
        self.error = None;
        self.screen = Screen::SignIn;
    }

    /// Pressing Sync on the repository list: a signed-out user is taken to
    /// the sign-in screen (as by `start_auth`) instead of meeting an error;
    /// a signed-in user's session is left as it is. The step says what the
    /// list does next.
    pub fn sync_pressed(&mut self, syncing: bool) -> (r: SyncStep)
        ensures
            r == sync_step_of(old(self).account is Some, syncing),
            old(self).account is None ==> final(self).screen == Screen::SignIn && final(self).error is None
                && final(self).signing_in == old(self).signing_in && final(self).account is None,
            old(self).account is Some ==> *final(self) == *old(self),
    {
        let step = sync_step(self.account.is_some(), syncing);
        if let SyncStep::OpenSignIn = step {
            self.start_auth();
        }
        step
    }

    /// Leave the sign-in screen.
    pub fn cancel_auth(&mut self)
        ensures
            final(self).screen == Screen::Main,
            final(self).error is None,
            !final(self).signing_in,
            final(self).account == old(self).account,
    {
        self.screen = Screen::Main;
        self.error = None;
        self.signing_in = false;
    }

    /// Submitting a pasted token: nothing happens while a sign-in runs or for
    /// a blank token; otherwise the trimmed token is returned for the host,
    /// the sign-in is running and the error cleared.
    pub fn submit_token(&mut self, token: &str) -> (r: Option<String>)
        ensures
            (old(self).signing_in || trim_seq(token@).len() == 0) ==> r is None && final(self).signing_in
                == old(self).signing_in && final(self).error == old(self).error,
            !old(self).signing_in && trim_seq(token@).len() > 0 ==> r is Some && r->0@ == trim_seq(token@)
                && final(self).signing_in && final(self).error is None,
            final(self).screen == old(self).screen,
            final(self).account == old(self).account,
    {
        match token_to_submit(self.signing_in, token) {
            Some(t) => {
                self.signing_in = true;
                self.error = None;
                Some(string_of(&t))
            },
            None => None,
        }
    }

    /// The host answered the sign-in: on success the account is set and the
    /// main screen shown (the caller confirms with a notice: `true`); on
    /// failure the error is kept and the screen stays. Either way the
    /// sign-in is no longer running.
    pub fn sign_in_finished(&mut self, result: Result<Account, String>) -> (signed_in: bool)
        ensures
            !final(self).signing_in,
            signed_in == result is Ok,
            result matches Ok(a) ==> final(self).account == Some(a) && final(self).screen == Screen::Main
                && final(self).error == old(self).error,
            result matches Err(e) ==> final(self).error == Some(e) && final(self).screen == old(self).screen
                && final(self).account == old(self).account,
    {
        self.signing_in = false;
        match result {
            Ok(a) => {
                self.account = Some(a);
                self.screen = Screen::Main;
                true
            },
            Err(e) => {
                self.error = Some(e);
                false
            },
        }
    }

    /// The host finished signing out (whatever it answered): the account is
    /// dropped. Returns the string-table key of the notice to show.
    pub fn signed_out(&mut self) -> (notice: &'static str)
        ensures
            final(self).account is None,
            final(self).screen == old(self).screen,
            final(self).signing_in == old(self).signing_in,
            final(self).error == old(self).error,
            notice@ == "sign_out.success"@,
    {
        self.account = None;
        "sign_out.success"
    }
}

// ---------------------------------------------------------------------------
// Tutorial guide
// ---------------------------------------------------------------------------

/// The beginner tutorial: the step shown, if any.
#[derive(Debug, Clone, Copy, PartialEq, Eq, Structural)]
pub struct TutorialState {
    pub step: Option<TutorialStep>,
}

/// What a tutorial action asks the host to do besides changing the step.
#[derive(Debug, Clone, Copy, PartialEq, Eq, Structural)]
pub struct TutorialUpdate {
    /// The section to show, when the step changed.
    pub show_section: Option<AppSection>,
    /// Whether to remember that the tutorial was seen.
    pub mark_seen: bool,
}

/// Showing step `s`: its section comes forward.
pub open spec fn show_step(s: TutorialStep) -> TutorialUpdate {
    TutorialUpdate { show_section: Some(step_section(s)), mark_seen: false }
}

/// Closing the tutorial: it is remembered as seen; the section stays.
pub open spec fn closing() -> TutorialUpdate {
    TutorialUpdate { show_section: None, mark_seen: true }
}

pub open spec fn no_update() -> TutorialUpdate {
    TutorialUpdate { show_section: None, mark_seen: false }
}

impl TutorialState {
    /// At startup the tutorial opens on its first step unless it was seen.
    pub fn at_startup(seen: bool) -> (t: Self)
        ensures
            seen ==> t.step is None,
            !seen ==> t.step == Some(TutorialStep::SignIn),
    {
        if seen {
            TutorialState { step: None }
        } else {
            TutorialState { step: Some(TutorialStep::SignIn) }
        }
    }

    /// The help button reopens the tutorial on its first step.
    pub fn open(&mut self) -> (u: TutorialUpdate)
        ensures
            final(self).step == Some(TutorialStep::SignIn),
            u == show_step(TutorialStep::SignIn),
    {
        self.step = Some(TutorialStep::SignIn);
        TutorialUpdate { show_section: Some(TutorialStep::SignIn.section()), mark_seen: false }
    }

    /// "Next": the following step and its section, or after the last step
    /// the tutorial closes and is remembered as seen.
    pub fn next(&mut self) -> (u: TutorialUpdate)
        ensures
            old(self).step is None ==> *final(self) == *old(self) && u == no_update(),
            old(self).step matches Some(s) ==> match step_next(s) {
                TutorialMove::Show(n) => final(self).step == Some(n) && u == show_step(n),
                TutorialMove::Finish => final(self).step is None && u == closing(),
            },
    {
        match self.step {
            None => TutorialUpdate { show_section: None, mark_seen: false },
            Some(s) => match s.next() {
                TutorialMove::Show(n) => {
                    self.step = Some(n);
                    TutorialUpdate { show_section: Some(n.section()), mark_seen: false }
                },
                TutorialMove::Finish => {
                    self.step = None;
                    TutorialUpdate { show_section: None, mark_seen: true }
                },
            },
        }
    }

    /// "Previous": the step before and its section; nothing on the first
    /// step.
    pub fn previous(&mut self) -> (u: TutorialUpdate)
        ensures
            old(self).step is None ==> *final(self) == *old(self) && u == no_update(),
            old(self).step matches Some(s) ==> (if step_index(s) == 0 {
                *final(self) == *old(self) && u == no_update()
            } else {
                final(self).step == Some(step_previous(s)) && u == show_step(step_previous(s))
            }),
    {
        match self.step {
            None => TutorialUpdate { show_section: None, mark_seen: false },
            Some(s) => {
                if s.index() == 0 {
                    return TutorialUpdate { show_section: None, mark_seen: false };
                }
                let p = s.previous();
                self.step = Some(p);
                TutorialUpdate { show_section: Some(p.section()), mark_seen: false }
            },
        }
    }

    /// Close or skip: the tutorial hides and is remembered as seen.
    pub fn close(&mut self) -> (u: TutorialUpdate)
        ensures
            final(self).step is None,
            u == closing(),
    {
        self.step = None;
        TutorialUpdate { show_section: None, mark_seen: true }
    }
}

} // verus!
