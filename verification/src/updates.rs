//! What the window shows of an update of the program: a mark in the title bar, and a panel below
//! it.

use vstd::prelude::*;

use crate::icons::IconName;

verus! {

/// Where an update stands.
#[derive(Clone, Debug, PartialEq, Eq)]
pub enum UpdateState {
    /// Nothing was looked for.
    Idle,
    /// The program is looking.
    Checking,
    /// There is a newer version.
    Available,
    /// It is being fetched.
    Downloading {
        /// The bytes so far.
        downloaded: u64,
        /// All bytes, where that is known.
        total: Option<u64>,
        /// The bytes per second.
        bytes_per_sec: u64,
    },
    /// It waits for a restart.
    Ready {
        /// Whether the background service can go on running.
        daemon_compatible: bool,
    },
    /// It failed.
    Error(String),
    /// There is no newer version.
    UpToDate,
}

/// A text of the update views.
#[derive(Clone, Copy, Debug, PartialEq, Eq, Structural)]
pub enum UpdateText {
    /// There is a newer version.
    AvailableTooltip,
    /// It is being fetched.
    Downloading,
    /// It waits for a restart.
    ReadyTooltip,
    /// It failed.
    ErrorTitle,
    /// It waits for a restart of the window.
    ReadyRestart,
    /// It waits for a restart of the window and the background service.
    ReadyRestartWithDaemon,
    /// The restart ends what runs in the terminals.
    DaemonWarning,
    /// Not now.
    Later,
    /// Restart the window.
    Restart,
    /// Restart the window and the background service.
    RestartWithDaemon,
    /// Try again.
    Retry,
    /// There is no newer version.
    UpToDate,
}

/// The mark in the title bar.
#[derive(Clone, Copy, Debug, PartialEq, Eq)]
pub struct UpdateIndicator {
    /// Its icon.
    pub icon: IconName,
    /// What the pointer brings up.
    pub tooltip: UpdateText,
    /// Whether it stands out.
    pub tinted: bool,
    /// How much was fetched and of how much, where a bar is shown.
    pub progress: Option<(u64, u64)>,
}

/// All bytes to fetch, one at least.
pub open spec fn whole(total: Option<u64>) -> u64 {
    match total {
        Some(n) => if n == 0 {
            1
        } else {
            n
        },
        None => 1,
    }
}

/// The mark for a state; none while there is nothing to say.
pub open spec fn indicator_for(state: UpdateState) -> Option<UpdateIndicator> {
    match state {
        UpdateState::Available => Some(
            UpdateIndicator {
                icon: IconName::Download,
                tooltip: UpdateText::AvailableTooltip,
                tinted: true,
                progress: None,
            },
        ),
        UpdateState::Downloading { downloaded, total, .. } => Some(
            UpdateIndicator {
                icon: IconName::Download,
                tooltip: UpdateText::Downloading,
                tinted: false,
                progress: Some((downloaded, whole(total))),
            },
        ),
        UpdateState::Ready { .. } => Some(
            UpdateIndicator {
                icon: IconName::CheckmarkCircle,
                tooltip: UpdateText::ReadyTooltip,
                tinted: true,
                progress: None,
            },
        ),
        UpdateState::Error(_) | UpdateState::UpToDate => Some(
            UpdateIndicator {
                icon: IconName::AlertCircle,
                tooltip: UpdateText::ErrorTitle,
                tinted: false,
                progress: None,
            },
        ),
        UpdateState::Idle | UpdateState::Checking => None,
    }
}

fn whole_size(total: Option<u64>) -> (r: u64)
    ensures
        r == whole(total),
{
    match total {
        Some(n) => if n == 0 {
            1
        } else {
            n
        },
        None => 1,
    }
}

/// The mark for a state.
pub fn update_indicator(state: &UpdateState) -> (r: Option<UpdateIndicator>)
    ensures
        r == indicator_for(*state),
{
    match state {
        UpdateState::Available => Some(
            UpdateIndicator {
                icon: IconName::Download,
                tooltip: UpdateText::AvailableTooltip,
                tinted: true,
                progress: None,
            },
        ),
        UpdateState::Downloading { downloaded, total, .. } => Some(
            UpdateIndicator {
                icon: IconName::Download,
                tooltip: UpdateText::Downloading,
                tinted: false,
                progress: Some((*downloaded, whole_size(*total))),
            },
        ),
        UpdateState::Ready { .. } => Some(
            UpdateIndicator {
                icon: IconName::CheckmarkCircle,
                tooltip: UpdateText::ReadyTooltip,
                tinted: true,
                progress: None,
            },
        ),
        UpdateState::Error(_) | UpdateState::UpToDate => Some(
            UpdateIndicator {
                icon: IconName::AlertCircle,
                tooltip: UpdateText::ErrorTitle,
                tinted: false,
                progress: None,
            },
        ),
        UpdateState::Idle | UpdateState::Checking => None,
    }
}

/// What a click on the mark does.
#[derive(Clone, Copy, Debug, PartialEq, Eq, Structural)]
pub enum IndicatorClick {
    /// Opens the window that describes the newer version.
    OpenWindow,
    /// Opens or closes the panel, which is then open or not.
    Panel(bool),
}

/// What a click on the mark does: a newer version has a window of its own, all else the panel.
pub fn indicator_click(state: &UpdateState, panel_open: bool) -> (r: IndicatorClick)
    ensures
        r == if *state is Available {
            IndicatorClick::OpenWindow
        } else {
            IndicatorClick::Panel(!panel_open)
        },
{
    match state {
        UpdateState::Available => IndicatorClick::OpenWindow,
        _ => IndicatorClick::Panel(!panel_open),
    }
}

/// What the panel shows.
#[derive(Clone, Debug, PartialEq, Eq)]
pub enum UpdatePanel {
    /// A sentence, a bar, and the speed.
    Downloading {
        /// The sentence.
        heading: UpdateText,
        /// The bytes so far.
        downloaded: u64,
        /// All bytes, one at least.
        total: u64,
        /// The bytes per second.
        bytes_per_sec: u64,
    },
    /// A sentence, a warning where the background service must restart too, and two buttons.
    Ready {
        /// The sentence.
        heading: UpdateText,
        /// The warning.
        warning: Option<UpdateText>,
        /// The button that puts it off.
        later: UpdateText,
        /// The button that restarts.
        restart: UpdateText,
    },
    /// What went wrong, and a button to try again.
    Error {
        /// What stands in front of the message.
        title: UpdateText,
        /// What went wrong.
        message: String,
        /// The button.
        retry: UpdateText,
    },
    /// A sentence.
    UpToDate {
        /// The sentence.
        heading: UpdateText,
    },
}

/// What the panel shows, its text as a sequence of characters.
pub enum PanelView {
    /// A sentence, a bar, and the speed.
    Downloading {
        /// The sentence.
        heading: UpdateText,
        /// The bytes so far.
        downloaded: u64,
        /// All bytes, one at least.
        total: u64,
        /// The bytes per second.
        bytes_per_sec: u64,
    },
    /// A sentence, a warning, two buttons.
    Ready {
        /// The sentence.
        heading: UpdateText,
        /// The warning.
        warning: Option<UpdateText>,
        /// The button that puts it off.
        later: UpdateText,
        /// The button that restarts.
        restart: UpdateText,
    },
    /// What went wrong, and a button.
    Error {
        /// What stands in front of the message.
        title: UpdateText,
        /// What went wrong.
        message: Seq<char>,
        /// The button.
        retry: UpdateText,
    },
    /// A sentence.
    UpToDate {
        /// The sentence.
        heading: UpdateText,
    },
}

impl UpdatePanel {
    /// The text as a sequence of characters.
    pub open spec fn model(&self) -> PanelView {
        match *self {
            UpdatePanel::Downloading { heading, downloaded, total, bytes_per_sec } =>
                PanelView::Downloading { heading, downloaded, total, bytes_per_sec },
            UpdatePanel::Ready { heading, warning, later, restart } => PanelView::Ready {
                heading,
                warning,
                later,
                restart,
            },
            UpdatePanel::Error { title, message, retry } => PanelView::Error {
                title,
                message: message@,
                retry,
            },
            UpdatePanel::UpToDate { heading } => PanelView::UpToDate { heading },
        }
    }
}

/// What the panel shows for a state; nothing while it is closed, or while there is nothing to say
/// in it.
pub open spec fn panel_for(open: bool, state: UpdateState) -> Option<PanelView> {
    if !open {
        None
    } else {
        match state {
            UpdateState::Idle | UpdateState::Checking | UpdateState::Available => None,
            UpdateState::Downloading { downloaded, total, bytes_per_sec } => Some(
                PanelView::Downloading {
                    heading: UpdateText::Downloading,
                    downloaded,
                    total: whole(total),
                    bytes_per_sec,
                },
            ),
            UpdateState::Ready { daemon_compatible } => Some(
                PanelView::Ready {
                    heading: if daemon_compatible {
                        UpdateText::ReadyRestart
                    } else {
                        UpdateText::ReadyRestartWithDaemon
                    },
                    warning: if daemon_compatible {
                        None
                    } else {
                        Some(UpdateText::DaemonWarning)
                    },
                    later: UpdateText::Later,
                    restart: if daemon_compatible {
                        UpdateText::Restart
                    } else {
                        UpdateText::RestartWithDaemon
                    },
                },
            ),
            UpdateState::Error(message) => Some(
                PanelView::Error {
                    title: UpdateText::ErrorTitle,
                    message: message@,
                    retry: UpdateText::Retry,
                },
            ),
            UpdateState::UpToDate => Some(PanelView::UpToDate { heading: UpdateText::UpToDate }),
        }
    }
}

/// What the panel shows for a state.
pub fn update_panel(open: bool, state: &UpdateState) -> (r: Option<UpdatePanel>)
    ensures
        match (r, panel_for(open, *state)) {
            (Some(p), Some(k)) => p.model() == k,
            (None, None) => true,
            _ => false,
        },
{
    if !open {
        return None;
    }
    match state {
        UpdateState::Idle | UpdateState::Checking | UpdateState::Available => None,
        UpdateState::Downloading { downloaded, total, bytes_per_sec } => Some(
            UpdatePanel::Downloading {
                heading: UpdateText::Downloading,
                downloaded: *downloaded,
                total: whole_size(*total),
                bytes_per_sec: *bytes_per_sec,
            },
        ),
        UpdateState::Ready { daemon_compatible } => if *daemon_compatible {
            Some(
                UpdatePanel::Ready {
                    heading: UpdateText::ReadyRestart,
                    warning: None,
                    later: UpdateText::Later,
                    restart: UpdateText::Restart,
                },
            )
        } else {
            Some(
                UpdatePanel::Ready {
                    heading: UpdateText::ReadyRestartWithDaemon,
                    warning: Some(UpdateText::DaemonWarning),
                    later: UpdateText::Later,
                    restart: UpdateText::RestartWithDaemon,
                },
            )
        },
        UpdateState::Error(message) => Some(
            UpdatePanel::Error {
                title: UpdateText::ErrorTitle,
                message: message.clone(),
                retry: UpdateText::Retry,
            },
        ),
        UpdateState::UpToDate => Some(UpdatePanel::UpToDate { heading: UpdateText::UpToDate }),
    }
}

/// The line that says what went wrong.
pub fn error_line(title: &str, message: &str) -> (r: String)
    ensures
        r@ == title@ + ": "@ + message@,
{
    let mut r: String = title.to_owned();
    r.append(": ");
    r.append(message);
    r
}

/// A button of the panel.
#[derive(Clone, Copy, Debug, PartialEq, Eq, Structural)]
pub enum PanelButton {
    /// Put the update off.
    Later,
    /// Restart.
    Restart,
    /// Look again.
    Retry,
}

/// What a button does beside what it asks of the updater.
#[derive(Clone, Copy, Debug, PartialEq, Eq, Structural)]
pub enum UpdaterRequest {
    /// Forget the update for now.
    Dismiss,
    /// Put the new version in place and restart; report a failure.
    InstallAndRestart,
    /// Look for a newer version, on the user's behalf.
    Check,
}

/// What a button asks of the updater, and whether the panel stays open.
pub fn panel_button(button: PanelButton, open: bool) -> (r: (UpdaterRequest, bool))
    ensures
        r == match button {
            PanelButton::Later => (UpdaterRequest::Dismiss, false),
            PanelButton::Restart => (UpdaterRequest::InstallAndRestart, open),
            PanelButton::Retry => (UpdaterRequest::Check, false),
        },
{
    match button {
        PanelButton::Later => (UpdaterRequest::Dismiss, false),
        PanelButton::Restart => (UpdaterRequest::InstallAndRestart, open),
        PanelButton::Retry => (UpdaterRequest::Check, false),
    }
}

/// A panel is shown only below a mark.
pub proof fn a_panel_has_a_mark(open: bool, state: UpdateState)
    ensures
        panel_for(open, state) is Some ==> indicator_for(state) is Some,
{
}

/// Ending what runs in the terminals is never offered without a warning.
pub proof fn a_full_restart_is_warned_of(open: bool, state: UpdateState)
    ensures
        panel_for(open, state) matches Some(PanelView::Ready { warning, restart, .. })
            ==> (restart == UpdateText::RestartWithDaemon <==> warning == Some(
            UpdateText::DaemonWarning,
        )),
{
}

/// The mark of an update is shown from the time that one is available: an arrow while it can be or is
/// being fetched, a tick once it is ready, and a warning where it failed or there is none. Only what
/// waits for the user is tinted.
pub proof fn the_mark_tells_the_state(state: UpdateState)
    ensures
        state is Idle || state is Checking <==> indicator_for(state) is None,
        state is Available ==> indicator_for(state) == Some(
            UpdateIndicator {
                icon: IconName::Download,
                tooltip: UpdateText::AvailableTooltip,
                tinted: true,
                progress: None,
            },
        ),
        state is Downloading ==> (indicator_for(state) matches Some(i) && i.icon == IconName::Download
            && i.tooltip == UpdateText::Downloading && !i.tinted && i.progress is Some),
        state is Ready ==> indicator_for(state) == Some(
            UpdateIndicator {
                icon: IconName::CheckmarkCircle,
                tooltip: UpdateText::ReadyTooltip,
                tinted: true,
                progress: None,
            },
        ),
        state is Error || state is UpToDate ==> indicator_for(state) == Some(
            UpdateIndicator {
                icon: IconName::AlertCircle,
                tooltip: UpdateText::ErrorTitle,
                tinted: false,
                progress: None,
            },
        ),
{
}

/// While an update is fetched, mark and panel tell how much of how much there is, and how fast it comes;
/// a size that is not known or is nothing counts as one, so that it can be divided by.
pub proof fn progress_is_told(downloaded: u64, total: Option<u64>, bytes_per_sec: u64)
    ensures
        ({
            let state = UpdateState::Downloading { downloaded, total, bytes_per_sec };
            &&& indicator_for(state) matches Some(i) && (i.progress matches Some((have, all)) && have
                == downloaded && all > 0 && (total matches Some(n) ==> (n > 0 ==> all == n)) && (
            total is None ==> all == 1))
            &&& panel_for(true, state) matches Some(PanelView::Downloading {
                heading,
                downloaded: have,
                total: all,
                bytes_per_sec: speed,
            }) && heading == UpdateText::Downloading && have == downloaded && speed
                == bytes_per_sec && all > 0 && (total matches Some(n) ==> (n > 0 ==> all == n))
        }),
{
}

/// The panel is closed where the user closed it and where there is nothing to tell; else it tells the
/// state: what failed, that all is well, or what a restart takes with it.
pub proof fn the_panel_tells_the_state(open: bool, state: UpdateState)
    ensures
        panel_for(false, state) is None,
        state is Idle || state is Checking || state is Available <==> panel_for(true, state) is None,
        state matches UpdateState::Error(message) ==> (panel_for(true, state) matches Some(
            PanelView::Error { title, message: m, retry },
        ) && title == UpdateText::ErrorTitle && m == message@ && retry == UpdateText::Retry),
        state is UpToDate ==> panel_for(true, state) == Some(
            PanelView::UpToDate { heading: UpdateText::UpToDate },
        ),
        state matches UpdateState::Ready { daemon_compatible } ==> (panel_for(
            true,
            state,
        ) matches Some(PanelView::Ready { heading, warning, later, restart }) && later
            == UpdateText::Later && (daemon_compatible ==> heading == UpdateText::ReadyRestart
            && warning is None && restart == UpdateText::Restart) && (!daemon_compatible ==> heading
            == UpdateText::ReadyRestartWithDaemon && warning == Some(UpdateText::DaemonWarning)
            && restart == UpdateText::RestartWithDaemon)),
{
}

} // verus!
