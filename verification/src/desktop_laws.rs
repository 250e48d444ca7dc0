//! What the menu, the status line, the window and the launcher's coming up promise.

use vstd::prelude::*;

use crate::effect::outcome;
use crate::effect::yes;
use crate::effect::EffectOf;
use crate::effect::EffectView;
use crate::effect::Phase;
use crate::effect::ReplyView;
use crate::launcher::setup_step;
use crate::launcher::SetupOf;
use crate::launcher::SetupView;
use crate::linux_service;
use crate::locations::managed;
use crate::locations::Platform;
use crate::macos_service;
use crate::macos_service::MacService;
use crate::text::ascii_lower;
use crate::text::lower;
use crate::tray::chosen;
use crate::tray::current_msg;
use crate::tray::menu;
use crate::tray::menu_step;
use crate::tray::show_status;
use crate::tray::status_step;
use crate::tray::status_text;
use crate::tray::ACTION_MSG_TIME;
use crate::tray::ActionMsg;
use crate::tray::Choice;
use crate::tray::DshStatus;
use crate::tray::MenuEntryOf;
use crate::tray::MenuEntryView;
use crate::tray::Polling;
use crate::window::external;
use crate::window::is_web_address;
use crate::window::load_step;
use crate::window::open_step;
use crate::window::save_step;
use crate::window::startup_step;
use crate::window::url_opener;
use crate::window::window_effects;
use crate::window::LoadingOf;
use crate::window::LoadingView;
use crate::window::Opening;
use crate::window::STARTUP_UI_WAIT;
use crate::window::Saving;
use crate::window::WEB_PORT;
use crate::window::WEB_URL;
use crate::window::WINDOW_LABEL;
use crate::window::Waiting;
use crate::window::WindowEvent;

verus! {

// ---- the menu ----

/// The name by which a menu entry is chosen, where it has one.
pub open spec fn entry_id(e: MenuEntryView) -> Option<Seq<char>> {
    match e {
        MenuEntryOf::Item { id, .. } => Some(id),
        MenuEntryOf::Check { id, .. } => Some(id),
        MenuEntryOf::Separator => None,
    }
}

proof fn lemma_ids()
    ensures
        "status"@.len() == 6,
        "open"@.len() == 4,
        "restart"@.len() == 7,
        "stop"@.len() == 4 && "stop"@[0] == 's',
        "open"@[0] == 'o',
        "start"@.len() == 5,
        "autostart"@.len() == 9,
        "log"@.len() == 3,
        "quit"@.len() == 4 && "quit"@[0] == 'q',
{
    reveal_strlit("status");
    reveal_strlit("open");
    reveal_strlit("restart");
    reveal_strlit("stop");
    reveal_strlit("start");
    reveal_strlit("autostart");
    reveal_strlit("log");
    reveal_strlit("quit");
}

/// No two entries of the menu go by the same name.
pub proof fn law_menu_ids_are_distinct(autostart: bool, i: int, j: int)
    requires
        0 <= i < j < menu(autostart).len(),
        entry_id(menu(autostart)[i]) is Some,
    ensures
        entry_id(menu(autostart)[i]) != entry_id(menu(autostart)[j]),
{
    lemma_ids();
}

/// Every entry of the menu but the status line does something where the platform can run the
/// service, and the status line does nothing.
pub proof fn law_every_entry_does_something(
    platform: Platform,
    autostart: bool,
    log_file: Seq<u8>,
    i: int,
)
    requires
        managed(platform),
        0 <= i < menu(autostart).len(),
        entry_id(menu(autostart)[i]) is Some,
    ensures
        chosen(platform, entry_id(menu(autostart)[i])->0, autostart, log_file).1.len() == 0
            <==> entry_id(menu(autostart)[i])->0 == "status"@,
{
    lemma_ids();
}

/// Every entry of the menu that can be chosen is enabled.
pub proof fn law_every_entry_is_enabled(autostart: bool, i: int)
    requires
        0 <= i < menu(autostart).len(),
        entry_id(menu(autostart)[i]) is Some,
    ensures
        match menu(autostart)[i] {
            MenuEntryOf::Item { enabled, .. } => enabled,
            MenuEntryOf::Check { enabled, .. } => enabled,
            MenuEntryOf::Separator => false,
        },
{
}

/// A name that no entry of the menu goes by does nothing.
pub proof fn law_unknown_choice_does_nothing(
    platform: Platform,
    id: Seq<char>,
    autostart: bool,
    log_file: Seq<u8>,
)
    requires
        forall|i: int|
            0 <= i < menu(autostart).len() ==> entry_id(#[trigger] menu(autostart)[i]) != Some(id),
    ensures
        chosen(platform, id, autostart, log_file) == (Choice::Ended, Seq::<EffectView>::empty()),
{
    let m = menu(autostart);
    assert(entry_id(m[1]) == Some("open"@));
    assert(entry_id(m[3]) == Some("restart"@));
    assert(entry_id(m[4]) == Some("stop"@));
    assert(entry_id(m[5]) == Some("start"@));
    assert(entry_id(m[7]) == Some("autostart"@));
    assert(entry_id(m[8]) == Some("log"@));
    assert(entry_id(m[10]) == Some("quit"@));
}

/// Leaving the launcher leaves the service alone: all that happens is a line in the log and the
/// end of the launcher.
pub proof fn law_quit_leaves_service_alone(
    platform: Platform,
    autostart: bool,
    log_file: Seq<u8>,
    reply: ReplyView,
)
    ensures
        menu_step(platform, "quit"@, autostart, log_file, Choice::Start, reply) == (
            Choice::Ended,
            seq![EffectView::Log("menu: "@ + "quit"@), EffectView::Exit(0)],
        ),
{
    lemma_ids();
    assert(menu_step(platform, "quit"@, autostart, log_file, Choice::Start, reply).1 =~= seq![
        EffectView::Log("menu: "@ + "quit"@),
        EffectView::Exit(0),
    ]);
}

/// Nothing but the entry for leaving ends the launcher.
pub proof fn law_only_quit_exits(
    platform: Platform,
    id: Seq<char>,
    autostart: bool,
    log_file: Seq<u8>,
    state: Choice,
    reply: ReplyView,
    code: i32,
)
    requires
        menu_step(platform, id, autostart, log_file, state, reply).1.contains(
            EffectView::Exit(code),
        ),
    ensures
        id == "quit"@,
        code == 0,
{
    let effects = menu_step(platform, id, autostart, log_file, state, reply).1;
    let k = choose|k: int| 0 <= k < effects.len() && effects[k] == EffectView::Exit(code);
    assert(effects[k] == EffectView::Exit(code));
    let first = chosen(platform, id, autostart, log_file).1;
    if state == Choice::Start {
        assert(k > 0);
        assert(effects[k] == first[k - 1]);
    }
}

/// Choosing the login entry stores and shows the other choice, and choosing it twice brings the
/// first one back, on both platforms.
pub proof fn law_login_toggles(
    mac: MacService,
    autostart: bool,
    log_file: Seq<u8>,
    platform: Platform,
    reply: ReplyView,
)
    requires
        managed(platform),
    ensures
        chosen(platform, "autostart"@, autostart, log_file).1.last() == EffectView::SetAutostart(
            !autostart,
        ),
        chosen(platform, "autostart"@, !autostart, log_file).1.last() == EffectView::SetAutostart(
            autostart,
        ),
        macos_service::set_autostart_step(mac, !autostart, Phase::Start, reply).1[0]
            == EffectView::StoreAutostart(!autostart),
        linux_service::set_autostart_step(!autostart, Phase::Start, reply).1[0]
            == EffectView::StoreAutostart(!autostart),
        menu(!autostart)[7] == (MenuEntryView::Check {
            id: "autostart"@,
            text: "开机自启 dsh"@,
            enabled: true,
            checked: !autostart,
        }),
{
    lemma_ids();
}

// ---- the status line ----

/// A message shows for its time and no longer; then the status is looked at.
pub proof fn law_message_shows_for_its_time(m: ActionMsg, now: u64, reply: ReplyView)
    ensures
        now < m.at + ACTION_MSG_TIME ==> status_step(Some(m), now, Polling::Start, reply) == (
            Polling::Start,
            show_status(m.text@),
        ),
        now >= m.at + ACTION_MSG_TIME ==> status_step(Some(m), now, Polling::Start, reply) == (
            Polling::Probing,
            seq![EffectView::ProbePort(WEB_PORT)],
        ),
        current_msg(Some(m), now) is Some <==> now < m.at + ACTION_MSG_TIME,
{
}

/// What the status line tells after a look is what the look found: the two texts differ, and
/// the one for a running service shows exactly where the service answers.
pub proof fn law_status_tells_the_truth(slot: Option<ActionMsg>, now: u64, reply: ReplyView)
    ensures
        status_text(DshStatus::Running) != status_text(DshStatus::Stopped),
        ({
            let effects = status_step(slot, now, Polling::Probing, reply).1;
            &&& effects.contains(EffectView::SetTooltip(status_text(DshStatus::Running)))
                <==> yes(reply)
            &&& effects.contains(EffectView::SetTooltip(status_text(DshStatus::Stopped)))
                <==> !yes(reply)
        }),
{
    reveal_strlit("dsh: 运行中");
    reveal_strlit("dsh: 已停止");
    let running = status_text(DshStatus::Running);
    let stopped = status_text(DshStatus::Stopped);
    assert(running[5] != stopped[5]);
    let effects = status_step(slot, now, Polling::Probing, reply).1;
    assert(effects[1] == EffectView::SetTooltip(
        if yes(reply) {
            running
        } else {
            stopped
        },
    ));
}

/// The line that is changed is an entry of the menu.
pub proof fn law_status_line_is_in_the_menu(autostart: bool, text: Seq<char>)
    ensures
        show_status(text)[1] matches EffectOf::SetMenuText { id, text: shown } && shown == text
            && entry_id(menu(autostart)[0]) == Some(id),
{
}

// ---- addresses ----

proof fn lemma_lower_again(c: char)
    ensures
        lower(lower(c)) == lower(c),
{
    if 'A' <= c <= 'Z' {
        let b: u8 = c as u8;
        assert(65 <= b <= 90);
        assert((b + 32) as char as u8 == b + 32);
    }
}

/// The case of an address is of no account.
pub proof fn law_address_case_is_ignored(url: Seq<char>, other: Seq<char>)
    requires
        ascii_lower(url) == ascii_lower(other),
    ensures
        is_web_address(url) == is_web_address(other),
        is_web_address(ascii_lower(url)) == is_web_address(url),
{
    assert forall|i: int| 0 <= i < url.len() implies ascii_lower(ascii_lower(url))[i]
        == ascii_lower(url)[i] by {
        lemma_lower_again(url[i]);
    }
    assert(ascii_lower(ascii_lower(url)) =~= ascii_lower(url));
}

/// An address of another kind is ignored, and one for a browser is handed on as it was written.
pub proof fn law_external_addresses(platform: Platform, url: Seq<char>)
    ensures
        !is_web_address(url) ==> external(platform, url).len() == 0,
        is_web_address(url) ==> external(platform, url).last() == url_opener(platform, url),
        url_opener(platform, url) matches EffectOf::Spawn { args, .. } && args.last() == url,
{
}

/// The launcher's own address is one for a browser.
pub proof fn law_own_address_is_for_browsers()
    ensures
        is_web_address(WEB_URL@),
{
    reveal_strlit("http://127.0.0.1:3080");
    reveal_strlit("http://");
    assert(ascii_lower(WEB_URL@) =~= WEB_URL@);
    assert("http://"@.is_prefix_of(ascii_lower(WEB_URL@))) by {
        assert(WEB_URL@.take(7) =~= "http://"@);
    }
}

// ---- the window ----

/// There is never a second window: one is made only after the answer that there is none.
pub proof fn law_one_window(
    platform: Platform,
    now: u64,
    state: Opening,
    reply: ReplyView,
    label: Seq<char>,
    url: Seq<char>,
    title: Seq<char>,
)
    requires
        open_step(platform, now, state, reply).1.contains(
            EffectView::CreateWindow { label, url, title },
        ),
    ensures
        state == Opening::Looking,
        !yes(reply),
        label == WINDOW_LABEL@,
        url == WEB_URL@,
        open_step(platform, now, Opening::Start, reply).1.last() == EffectView::FindWindow(label),
{
    let effects = open_step(platform, now, state, reply).1;
    let made = EffectView::CreateWindow { label, url, title };
    let k = choose|k: int| 0 <= k < effects.len() && effects[k] == made;
    assert(effects[k] == made);
}

/// Where no window can be made, the web interface opens in the user's browser.
pub proof fn law_no_window_means_browser(
    platform: Platform,
    now: u64,
    persist_after: u64,
    reply: ReplyView,
)
    ensures
        open_step(platform, now, Opening::Making { persist_after }, reply).1.contains(
            url_opener(platform, WEB_URL@),
        ) <==> outcome(reply) is Err,
{
    let effects = open_step(platform, now, Opening::Making { persist_after }, reply).1;
    if outcome(reply) is Err {
        assert(effects[1] == url_opener(platform, WEB_URL@));
    }
}

/// Closing the window only hides it: the size is remembered, the close is prevented and the
/// window hidden, in this order.
pub proof fn law_close_hides(platform: Platform, now: u64, persist_after: u64)
    ensures
        window_effects(platform, WindowEvent::CloseRequested, now, persist_after).take(3) == seq![
            EffectView::SaveCurrentWindowSize,
            EffectView::PreventClose,
            EffectView::HideWindow,
        ],
{
    assert(window_effects(platform, WindowEvent::CloseRequested, now, persist_after).take(3)
        =~= seq![
        EffectView::SaveCurrentWindowSize,
        EffectView::PreventClose,
        EffectView::HideWindow,
    ]);
}

/// No window event ends the launcher or touches the service.
pub proof fn law_window_events_stay_with_the_window(
    platform: Platform,
    event: WindowEvent,
    now: u64,
    persist_after: u64,
    i: int,
)
    requires
        0 <= i < window_effects(platform, event, now, persist_after).len(),
    ensures
        ({
            let e = window_effects(platform, event, now, persist_after)[i];
            e is SaveWindowSize || e is SaveCurrentWindowSize || e is PreventClose
                || e is HideWindow || e is SetActivation
        }),
{
}

/// A size that comes before the window has settled is not remembered, except by closing.
pub proof fn law_unsettled_size_is_forgotten(
    platform: Platform,
    event: WindowEvent,
    now: u64,
    persist_after: u64,
)
    requires
        now < persist_after,
        event != WindowEvent::CloseRequested,
    ensures
        window_effects(platform, event, now, persist_after).len() == 0,
{
}

/// A size that no window can have is never written.
pub proof fn law_invalid_size_is_forgotten(
    dir: Option<Seq<u8>>,
    path: Seq<u8>,
    raw: Result<Seq<char>, Seq<char>>,
    reply: ReplyView,
)
    ensures
        save_step(dir, path, false, raw, Saving::Start, reply) == (
            Saving::Ended,
            Seq::<EffectView>::empty(),
        ),
{
}

/// The written form of a valid size is looked up as it was written: it goes to the file that is
/// read later, whether or not the directory could be made, and comes back from it unchanged.
pub proof fn law_saved_size_is_looked_up(
    dir: Seq<u8>,
    path: Seq<u8>,
    text: Seq<char>,
    first: ReplyView,
    second: ReplyView,
)
    ensures
        ({
            let (s1, e1) = save_step(Some(dir), path, true, Ok(text), Saving::Start, first);
            let (s2, e2) = save_step(Some(dir), path, true, Ok(text), s1, second);
            &&& e1 == seq![EffectView::CreateDirs(dir)]
            &&& e2 == seq![EffectView::WriteText { path, text }]
        }),
        load_step(path, LoadingOf::Start, first) == (
            LoadingView::Reading,
            seq![EffectView::ReadText(path)],
        ),
        load_step(path, LoadingOf::Reading, ReplyView::Text(Ok(text))).0 == LoadingView::Ended(
            Some(text),
        ),
{
}

/// The window opens at startup whatever the service answers: once its time is over, two more
/// answers lead to it, and before that only a service that does not answer keeps it waiting.
pub proof fn law_window_opens_at_startup(
    start: u64,
    now: u64,
    first: ReplyView,
    second: ReplyView,
    third: ReplyView,
)
    requires
        start + STARTUP_UI_WAIT <= u64::MAX,
    ensures
        ({
            let (s1, e1) = startup_step(start, Waiting::Start, first);
            let (s2, e2) = startup_step(now, s1, second);
            let (s3, e3) = startup_step(now, s2, third);
            &&& s2 == s1 <==> !yes(second) && now < start + STARTUP_UI_WAIT
            &&& s2 != s1 ==> s3 == Waiting::Opening && e3.last()
                == EffectView::OpenDshUiOnMainThread
        }),
{
}

// ---- the launcher's coming up ----

/// The launcher starts the service exactly where it does not answer and the platform can run it.
pub proof fn law_setup_starts_a_silent_service(
    platform: Platform,
    state: SetupView,
    reply: ReplyView,
)
    ensures
        setup_step(platform, state, reply).1.contains(EffectView::ServiceStart) <==> state
            is Probing && managed(platform) && !yes(reply),
{
    let effects = setup_step(platform, state, reply).1;
    if state is Probing && managed(platform) && !yes(reply) {
        assert(effects[1] == EffectView::ServiceStart);
    }
}

/// A definition that cannot be seen to keeps nothing back: the launcher goes on to look at the
/// service.
pub proof fn law_setup_goes_on_without_definition(platform: Platform, reply: ReplyView)
    ensures
        setup_step(platform, SetupOf::Definition, reply).0 == SetupView::Probing,
        setup_step(platform, SetupOf::Definition, reply).1.last() == EffectView::ProbePort(
            WEB_PORT,
        ),
{
}

/// The launcher is up exactly where both the menu and the icon could be made, and then the
/// status line and the window at startup are on their way.
pub proof fn law_setup_ends_well_with_menu_and_icon(
    platform: Platform,
    menu_reply: ReplyView,
    tray_reply: ReplyView,
)
    ensures
        setup_step(platform, SetupOf::Menu, menu_reply).0 is Ended <==> outcome(menu_reply) is Err,
        ({
            let (end, effects) = setup_step(platform, SetupOf::Tray, tray_reply);
            &&& end == SetupView::Ended(outcome(tray_reply))
            &&& effects.contains(EffectView::StartStatusPoller) <==> outcome(tray_reply) is Ok
            &&& effects.contains(EffectView::StartStartupUi) <==> outcome(tray_reply) is Ok
        }),
{
    let effects = setup_step(platform, SetupOf::Tray, tray_reply).1;
    if outcome(tray_reply) is Ok {
        assert(outcome(tray_reply)->Ok_0 == ());
        assert(effects[1] == EffectView::StartStatusPoller);
        assert(effects[3] == EffectView::StartStartupUi);
    }
}

} // verus!
