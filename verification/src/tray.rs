//! The tray menu: what each menu item does to the window, the settings and
//! the running work.

use vstd::prelude::*;
use crate::text::{chars_of, eq_str, owned, views_of};

verus! {

/// What a tray menu item asks for.
pub struct TrayAction {
    /// Bring the main window to the front.
    pub show_window: bool,
    /// An event to send to the interface after showing it.
    pub event: Option<String>,
    /// Settings to write, in order, with their new values.
    pub settings: Vec<(String, bool)>,
    /// Cancel running work and disable automations.
    pub stop_all: bool,
    /// Quit the application.
    pub exit: bool,
}

/// The view of a tray action: window, event, settings, stop, exit.
pub struct TrayView {
    pub show_window: bool,
    pub event: Option<Seq<char>>,
    pub settings: Seq<(Seq<char>, bool)>,
    pub stop_all: bool,
    pub exit: bool,
}

/// The view of a tray action.
pub open spec fn tray_view(a: TrayAction) -> TrayView {
    TrayView {
        show_window: a.show_window,
        event: match a.event {
            Some(e) => Some(e@),
            None => None,
        },
        settings: a.settings@.map_values(|p: (String, bool)| (p.0@, p.1)),
        stop_all: a.stop_all,
        exit: a.exit,
    }
}

/// An action that does only the given things.
pub open spec fn act(show_window: bool, event: Option<Seq<char>>, settings: Seq<(Seq<char>, bool)>, stop_all: bool, exit: bool) -> TrayView {
    TrayView { show_window, event, settings, stop_all, exit }
}

/// What each menu item does; unknown items do nothing.
pub open spec fn tray_plan(id: Seq<char>) -> TrayView {
    if id == "open"@ {
        act(true, None, Seq::empty(), false, false)
    } else if id == "quick"@ {
        act(true, Some("ob://quick-command"@), Seq::empty(), false, false)
    } else if id == "pause"@ {
        act(false, None, seq![("paused"@, true)], false, false)
    } else if id == "resume"@ {
        act(false, None, seq![("paused"@, false)], false, false)
    } else if id == "stop"@ {
        act(false, None, Seq::empty(), true, false)
    } else if id == "privacy"@ {
        act(
            false,
            None,
            seq![
                ("local_only"@, true),
                ("privacy.microphone"@, false),
                ("privacy.camera"@, false),
                ("privacy.screen_capture"@, false),
            ],
            false,
            false,
        )
    } else if id == "settings"@ {
        act(true, Some("ob://open-settings"@), Seq::empty(), false, false)
    } else if id == "exit"@ {
        act(false, None, Seq::empty(), false, true)
    } else {
        act(false, None, Seq::empty(), false, false)
    }
}

fn plain(show_window: bool, event: Option<String>, stop_all: bool, exit: bool) -> (r: TrayAction)
    ensures
        r.show_window == show_window,
        r.event == event,
        r.settings@.len() == 0,
        r.stop_all == stop_all,
        r.exit == exit,
{
    TrayAction { show_window, event, settings: Vec::new(), stop_all, exit }
}

/// The action of the tray menu item with this identifier.
pub fn tray_action(id: &str) -> (r: TrayAction)
    ensures
        tray_view(r) == tray_plan(id@),
{
    let c = chars_of(id);
    let r = if eq_str(&c, "open") {
        plain(true, None, false, false)
    } else if eq_str(&c, "quick") {
        plain(true, Some(owned("ob://quick-command")), false, false)
    } else if eq_str(&c, "pause") {
        let mut s: Vec<(String, bool)> = Vec::new();
        s.push((owned("paused"), true));
        TrayAction { show_window: false, event: None, settings: s, stop_all: false, exit: false }
    } else if eq_str(&c, "resume") {
        let mut s: Vec<(String, bool)> = Vec::new();
        s.push((owned("paused"), false));
        TrayAction { show_window: false, event: None, settings: s, stop_all: false, exit: false }
    } else if eq_str(&c, "stop") {
        plain(false, None, true, false)
    } else if eq_str(&c, "privacy") {
        let mut s: Vec<(String, bool)> = Vec::new();
        s.push((owned("local_only"), true));
        s.push((owned("privacy.microphone"), false));
        s.push((owned("privacy.camera"), false));
        s.push((owned("privacy.screen_capture"), false));
        TrayAction { show_window: false, event: None, settings: s, stop_all: false, exit: false }
    } else if eq_str(&c, "settings") {
        plain(true, Some(owned("ob://open-settings")), false, false)
    } else if eq_str(&c, "exit") {
        plain(false, None, false, true)
    } else {
        plain(false, None, false, false)
    };
    assert(tray_view(r).settings =~= tray_plan(id@).settings);
    r
}

/// Privacy Mode turns Local Only on and the microphone, camera and screen
/// capture off, and nothing in it turns a sensor on.
pub proof fn law_privacy_mode_closes_sensors()
    ensures
        tray_plan("privacy"@).settings.contains(("local_only"@, true)),
        tray_plan("privacy"@).settings.contains(("privacy.microphone"@, false)),
        tray_plan("privacy"@).settings.contains(("privacy.camera"@, false)),
        tray_plan("privacy"@).settings.contains(("privacy.screen_capture"@, false)),
        !tray_plan("privacy"@).exit,
{
    reveal_strlit("open");
    reveal_strlit("quick");
    reveal_strlit("pause");
    reveal_strlit("resume");
    reveal_strlit("stop");
    reveal_strlit("privacy");
    assert("privacy"@ != "open"@) by { assert("privacy"@.len() != "open"@.len()); }
    assert("privacy"@ != "quick"@) by { assert("privacy"@.len() != "quick"@.len()); }
    assert("privacy"@ != "pause"@) by { assert("privacy"@.len() != "pause"@.len()); }
    assert("privacy"@ != "resume"@) by { assert("privacy"@.len() != "resume"@.len()); }
    assert("privacy"@ != "stop"@) by { assert("privacy"@.len() != "stop"@.len()); }
    let s = tray_plan("privacy"@).settings;
    assert(s[0] == ("local_only"@, true));
    assert(s[1] == ("privacy.microphone"@, false));
    assert(s[2] == ("privacy.camera"@, false));
    assert(s[3] == ("privacy.screen_capture"@, false));
}

/// Pause and Resume touch only the pause switch.
pub proof fn law_pause_resume_only_touch_pause()
    ensures
        tray_plan("pause"@).settings == seq![("paused"@, true)],
        tray_plan("resume"@).settings == seq![("paused"@, false)],
{
    reveal_strlit("open");
    reveal_strlit("quick");
    reveal_strlit("pause");
    reveal_strlit("resume");
    assert("pause"@ != "open"@) by { assert("pause"@[1] != "open"@[1]); }
    assert("pause"@ != "quick"@) by { assert("pause"@[0] != "quick"@[0]); }
    assert("resume"@ != "open"@) by { assert("resume"@.len() != "open"@.len()); }
    assert("resume"@ != "quick"@) by { assert("resume"@.len() != "quick"@.len()); }
    assert("resume"@ != "pause"@) by { assert("resume"@.len() != "pause"@.len()); }
}

/// Stop All asks to cancel the running work and disable the automations,
/// and does nothing else: no window, no event, no setting, no exit.
pub proof fn law_stop_halts_all_work()
    ensures
        tray_plan("stop"@) == act(false, None, Seq::empty(), true, false),
        tray_plan("stop"@).stop_all,
{
    reveal_strlit("open");
    reveal_strlit("quick");
    reveal_strlit("pause");
    reveal_strlit("resume");
    reveal_strlit("stop");
    assert("stop"@ != "open"@) by { assert("stop"@[0] != "open"@[0]); }
    assert("stop"@ != "quick"@) by { assert("stop"@.len() != "quick"@.len()); }
    assert("stop"@ != "pause"@) by { assert("stop"@.len() != "pause"@.len()); }
    assert("stop"@ != "resume"@) by { assert("stop"@.len() != "resume"@.len()); }
}

} // verus!
