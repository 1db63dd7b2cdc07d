use vstd::prelude::*;
use crate::application::update_controller::{
    is_busy_state, UpdateController, UpdateUiState, UpdaterView,
};
use crate::update::manifest::VerifiedUpdate;
use crate::text::{chars_of, lines, lines_of, string_of};

verus! {

/// How long an automatic check stays fresh: one day.
pub const AUTO_CHECK_INTERVAL_SECONDS: u64 = 86400;

/// An automatic check is due when none was recorded, when the recorded time lies in the
/// future (the clock moved back), or when a day has passed.
pub open spec fn check_is_due(last_check_unix: Option<u64>, now: u64) -> bool {
    match last_check_unix {
        None => true,
        Some(last) => last > now || now - last >= AUTO_CHECK_INTERVAL_SECONDS,
    }
}

pub fn update_check_is_due(last_check_unix: Option<u64>, now: u64) -> (r: bool)
    ensures
        r == check_is_due(last_check_unix, now),
{
    match last_check_unix {
        None => true,
        Some(last) => last > now || now - last >= AUTO_CHECK_INTERVAL_SECONDS,
    }
}

/// At startup a check runs when the user agreed to automatic checks, the updater is idle
/// and a check is due.
pub fn startup_update_check_should_run(
    update: &UpdateController,
    persisted_consent: Option<bool>,
    last_check_unix: Option<u64>,
    now: u64,
) -> (r: bool)
    ensures
        r == (!is_busy_state(update@.ui) && persisted_consent == Some(true) && check_is_due(
            last_check_unix,
            now,
        )),
{
    update.allows_automatic_checks(persisted_consent) && update_check_is_due(last_check_unix, now)
}

/// The headline of release notes: their first line, cut to 160 characters.
pub open spec fn note_headline(notes: Seq<char>) -> Seq<char> {
    let ls = lines_of(notes);
    let first = if ls.len() > 0 {
        ls[0]
    } else {
        Seq::<char>::empty()
    };
    if first.len() > 160 {
        first.take(160)
    } else {
        first
    }
}

pub fn release_note_headline(notes: &str) -> (r: String)
    ensures
        r@ == note_headline(notes@),
{
    let ls = lines(chars_of(notes).as_slice());
    if ls.len() == 0 {
        return String::new();
    }
    assert(ls@[0]@ == lines_of(notes@)[0]);
    let first = ls[0].as_slice();
    if first.len() > 160 {
        let mut cut: Vec<char> = Vec::new();
        let mut i: usize = 0;
        while i < 160
            invariant
                i <= 160 < first.len(),
                cut@ == first@.take(i as int),
            decreases 160 - i,
        {
            cut.push(first[i]);
            assert(cut@ =~= first@.take(i + 1));
            i += 1;
        }
        string_of(cut.as_slice())
    } else {
        string_of(first)
    }
}

/// The status line of an offered update: the translated label, the version, and the
/// headline of its notes when there is one.
pub open spec fn available_status_text(label: Seq<char>, version: Seq<char>, notes: Seq<char>) -> Seq<
    char,
> {
    let note = note_headline(notes);
    if note.len() == 0 {
        label + " v"@ + version
    } else {
        label + " v"@ + version + " — "@ + note
    }
}

pub fn available_status(label: &str, version: &str, notes: &str) -> (r: String)
    ensures
        r@ == available_status_text(label@, version@, notes@),
{
    let note = release_note_headline(notes);
    let mut s = label.to_string();
    s.append(" v");
    s.append(version);
    if !note.as_str().is_empty() {
        s.append(" — ");
        s.append(note.as_str());
    }
    s
}

/// What the update section shows for a state: the translation keys of its status and of
/// its action (none when there is no action), whether the action is enabled, and whether
/// the banner offers it.
pub struct UpdateUiPlan {
    pub status_key: &'static str,
    pub action_key: Option<&'static str>,
    pub action_enabled: bool,
    pub show_banner: bool,
}

/// The plan for a state; an offered update's action downloads it in an installed build
/// and opens its release page otherwise.
pub open spec fn ui_plan_for(p: UpdateUiPlan, ui: UpdateUiState, installed: bool) -> bool {
    match ui {
        UpdateUiState::Ready => p.status_key@ == "updates.status.ready"@ && p.action_key is None
            && !p.action_enabled && !p.show_banner,
        UpdateUiState::Checking => p.status_key@ == "updates.status.checking"@ && p.action_key is None
            && !p.action_enabled && !p.show_banner,
        UpdateUiState::Current => p.status_key@ == "updates.status.current"@ && p.action_key is None
            && !p.action_enabled && !p.show_banner,
        UpdateUiState::Downloading => p.status_key@ == "updates.status.downloading"@
            && p.action_key is None && !p.action_enabled && !p.show_banner,
        UpdateUiState::Installing => p.status_key@ == "updates.status.installing"@
            && p.action_key is None && !p.action_enabled && !p.show_banner,
        UpdateUiState::Error => p.status_key@ == "updates.status.error"@ && p.action_key is None
            && !p.action_enabled && !p.show_banner,
        UpdateUiState::Verified => {
            &&& p.status_key@ == "updates.status.verified"@
            &&& p.action_key matches Some(a) && a@ == "updates.action.install"@
            &&& p.action_enabled
            &&& p.show_banner
        },
        UpdateUiState::Available => {
            &&& p.status_key@ == "updates.status.available"@
            &&& p.action_key matches Some(a) && a@ == (if installed {
                "updates.action.download"@
            } else {
                "updates.action.release"@
            })
            &&& p.action_enabled
            &&& p.show_banner
        },
    }
}

pub fn update_ui_plan(ui: UpdateUiState, installed: bool) -> (r: UpdateUiPlan)
    ensures
        ui_plan_for(r, ui, installed),
{
    let (status_key, action_key, action_enabled, show_banner) = match ui {
        UpdateUiState::Ready => ("updates.status.ready", None, false, false),
        UpdateUiState::Checking => ("updates.status.checking", None, false, false),
        UpdateUiState::Current => ("updates.status.current", None, false, false),
        UpdateUiState::Downloading => ("updates.status.downloading", None, false, false),
        UpdateUiState::Installing => ("updates.status.installing", None, false, false),
        UpdateUiState::Error => ("updates.status.error", None, false, false),
        UpdateUiState::Verified => (
            "updates.status.verified",
            Some("updates.action.install"),
            true,
            true,
        ),
        UpdateUiState::Available => (
            "updates.status.available",
            Some(
                if installed {
                    "updates.action.download"
                } else {
                    "updates.action.release"
                },
            ),
            true,
            true,
        ),
    };
    UpdateUiPlan { status_key, action_key, action_enabled, show_banner }
}

/// What the update button asks for: install a verified download, open the release page,
/// start a download, or nothing.
pub enum UpdateAction {
    Install { path: String, update: VerifiedUpdate },
    OpenReleasePage(String),
    Download(VerifiedUpdate),
    Nothing,
}

/// Decides what the update button does. While the updater is busy: nothing. A verified
/// download is installed first; otherwise a portable copy (`installed` false) opens the
/// release page of the update in hand, and an installed copy downloads an offered update.
pub fn update_action(update: &mut UpdateController, installed: bool) -> (r: UpdateAction)
    ensures
        is_busy_state(old(update)@.ui) ==> r is Nothing && final(update)@ == old(update)@,
        !is_busy_state(old(update)@.ui) && old(update)@.ui == UpdateUiState::Verified ==> {
            &&& r matches UpdateAction::Install { path, update: u } && old(update)@.path == Some(
                path@,
            ) && old(update)@.update == Some(u@)
            &&& final(update)@ == (UpdaterView {
                ui: UpdateUiState::Installing,
                update: old(update)@.update,
                path: None,
            })
        },
        !is_busy_state(old(update)@.ui) && old(update)@.ui != UpdateUiState::Verified && !installed
            ==> {
            &&& final(update)@ == old(update)@
            &&& match old(update)@.update {
                Some(u) => r matches UpdateAction::OpenReleasePage(url) && url@ == u.release_url,
                None => r is Nothing,
            }
        },
        !is_busy_state(old(update)@.ui) && old(update)@.ui != UpdateUiState::Verified && installed
            ==> if old(update)@.ui == UpdateUiState::Available {
            &&& r matches UpdateAction::Download(u) && old(update)@.update == Some(u@)
            &&& final(update)@ == (UpdaterView {
                ui: UpdateUiState::Downloading,
                update: old(update)@.update,
                path: None,
            })
        } else {
            r is Nothing && final(update)@ == old(update)@
        },
{
    if update.is_busy() {
        return UpdateAction::Nothing;
    }
    match update.begin_install() {
        Some((path, verified)) => return UpdateAction::Install { path, update: verified },
        None => {},
    }
    if !installed {
        return match update.release_url() {
            Some(url) => UpdateAction::OpenReleasePage(url.to_string()),
            None => UpdateAction::Nothing,
        };
    }
    match update.begin_download() {
        Some(offered) => UpdateAction::Download(offered),
        None => UpdateAction::Nothing,
    }
}

} // verus!
