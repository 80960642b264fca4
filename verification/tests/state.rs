use deploykeys_ui::api::{backend_error_text, Account, ConnectionDto};
use deploykeys_ui::calendar::{
    calendar_cells, date_before, days_in_month, format_date, initial_calendar_month, is_leap_year, month_name_key,
    parse_date, range_label_form, week_label_keys, weekday_index_monday, DateRangeDraft, RangeLabelForm, SimpleDate,
    YearMonth,
};
use deploykeys_ui::connect::{
    filter_connections, kind_code, status_filter_choices, switch_notice_key, toggle_connection, type_filter_choices,
    ConnectionLabels, ConnectionSwitch,
};
use deploykeys_ui::connection::{connections_from_dtos, Connection, ConnectionKind, ConnectionState, LOCAL_ID};
use deploykeys_ui::i18n::{
    after_language_saved, language_menu_chars, language_switch, lookup, matching_locales, translate,
    LanguageSaveFollowUp, Locale, EN, ZH,
};
use deploykeys_ui::icons::{icon_class, icon_markup, IconName};
use deploykeys_ui::palette::{
    delete_history_entry, empty_listing_key, history_from_storage, history_or_empty, history_to_storage,
    palette_key, palette_listing, record_history, CommandEffect, PaletteCommand, PaletteKey, PaletteListing, PalettePick,
    PaletteState, HISTORY_STORAGE_KEY,
};
use deploykeys_ui::progress::{Phase, ProgressHandle};
use deploykeys_ui::repos::SyncStep;
use deploykeys_ui::shell::{
    settings_tab_button_class, token_to_submit, tutorial_dot_class, tutorial_step_count, AppSection, Screen, Session,
    SidebarState, StartupState, TutorialMove, TutorialState, TutorialStep,
};
use deploykeys_ui::theme::{resolve_dark, Theme};
use deploykeys_ui::toast::{close_class, container_class, ToastHandle, ToastTone, ERROR_TTL_MS, SUCCESS_TTL_MS};

fn texts(v: &[String]) -> Vec<&str> {
    v.iter().map(|s| s.as_str()).collect()
}

fn strings(v: &[&str]) -> Vec<String> {
    v.iter().map(|s| s.to_string()).collect()
}

fn dto(id: &str, kind: &str) -> ConnectionDto {
    ConnectionDto {
        id: id.to_string(),
        alias: format!("{id} alias"),
        kind: kind.to_string(),
        host: Some("example.org".to_string()),
        port: Some(22),
        username: Some("git".to_string()),
        auth_method: None,
        key_base_dir: "/keys".to_string(),
    }
}

// ---------------------------------------------------------------------------
// Progress line
// ---------------------------------------------------------------------------

#[test]
fn progress_starts_hidden() {
    let p = ProgressHandle::new();
    assert_eq!(p.phase(), Phase::Hidden);
    assert_eq!(p.bar_width(), 0);
    assert!(!p.bar_visible());
    assert!(!p.bar_opaque());
    assert_eq!(p.aggregate(), 0);
}

#[test]
fn real_progress_averages_operations() {
    let mut p = ProgressHandle::new();
    assert_eq!(p.on_real_progress("repos.sync".to_string(), 40), None);
    assert_eq!(p.phase(), Phase::Running);
    assert_eq!(p.bar_width(), 40);
    assert_eq!(p.on_real_progress("auth.sign_in".to_string(), 61), None);
    assert_eq!(p.bar_width(), 50);
    assert_eq!(p.on_real_progress("repos.sync".to_string(), 80), None);
    assert_eq!(p.aggregate(), 70);
    assert!(p.bar_visible() && p.bar_opaque());
}

#[test]
fn completion_fills_holds_then_fades() {
    // Law: the last finished operation fills the bar, which then holds and fades.
    let mut p = ProgressHandle::new();
    p.on_real_progress("op".to_string(), 30);
    let token = p.on_real_progress("op".to_string(), 100).expect("last operation done");
    assert_eq!(p.phase(), Phase::Hold);
    assert_eq!(p.bar_width(), 100);
    assert!(p.bar_opaque());
    p.on_hold_elapsed(token);
    assert_eq!(p.phase(), Phase::Fading);
    assert_eq!(p.bar_width(), 100);
    assert!(!p.bar_opaque());
    assert!(p.bar_visible());
    p.on_fade_elapsed(token);
    assert_eq!(p.phase(), Phase::Hidden);
    assert!(!p.bar_visible());
}

#[test]
fn new_operation_cancels_pending_completion() {
    // Law: timers armed by a completion do nothing once a new operation starts.
    let mut p = ProgressHandle::new();
    let sim = p.begin_simulated();
    let token = p.end_simulated(&sim).expect("completion");
    p.on_real_progress("other".to_string(), 10);
    p.on_hold_elapsed(token);
    p.on_fade_elapsed(token);
    assert_eq!(p.phase(), Phase::Running);
    assert_eq!(p.bar_width(), 10);
}

#[test]
fn simulated_progress_climbs_to_the_cap() {
    // Law: a simulated operation climbs by steps and never passes the cap.
    let mut p = ProgressHandle::new();
    let key = p.begin_simulated();
    assert_eq!(key, "sim.0");
    assert_eq!(p.bar_width(), 0);
    assert!(p.advance_simulated(&key));
    assert_eq!(p.bar_width(), 6);
    for _ in 0..30 {
        assert!(p.advance_simulated(&key));
    }
    assert_eq!(p.bar_width(), 90);
    let second = p.begin_simulated();
    assert_eq!(second, "sim.1");
    assert_eq!(p.bar_width(), 45);
    assert_eq!(p.end_simulated(&key), None);
    assert!(p.end_simulated(&second).is_some());
    assert!(!p.advance_simulated(&key));
}

#[test]
fn advancing_a_real_operation_does_nothing() {
    let mut p = ProgressHandle::new();
    p.on_real_progress("real".to_string(), 20);
    assert!(!p.advance_simulated(&"real".to_string()));
    assert_eq!(p.bar_width(), 20);
}

// ---------------------------------------------------------------------------
// Toasts
// ---------------------------------------------------------------------------

#[test]
fn toasts_are_pushed_hidden_with_fresh_ids() {
    let mut h = ToastHandle::new();
    let (a, ttl_a) = h.success("Saved".to_string());
    let (b, ttl_b) = h.error("Failed".to_string());
    assert_ne!(a, b);
    assert_eq!(ttl_a, SUCCESS_TTL_MS);
    assert_eq!(ttl_b, ERROR_TTL_MS);
    assert_eq!(h.toasts().len(), 2);
    assert!(!h.is_visible(a));
    assert_eq!(h.toasts()[1].message, "Failed");
    assert_eq!(h.toasts()[1].tone, ToastTone::Error);
}

#[test]
fn toast_lifecycle() {
    let mut h = ToastHandle::new();
    let (a, _) = h.success("one".to_string());
    let (b, _) = h.success("two".to_string());
    h.set_visible(a, true);
    assert!(h.is_visible(a));
    h.dismiss(a);
    h.dismiss(a);
    assert!(!h.is_visible(a));
    assert_eq!(h.toasts().len(), 2);
    h.remove(a);
    assert_eq!(h.toasts().len(), 1);
    assert_eq!(h.toasts()[0].id, b);
    h.remove(a);
    assert_eq!(h.toasts().len(), 1);
    h.set_visible(999, true);
    assert!(!h.is_visible(999));
}

#[test]
fn toast_classes() {
    let base = "pointer-events-auto flex max-w-sm items-start gap-3 rounded-lg border p-3 text-sm shadow-lg transition-all duration-200 ease-out";
    assert_eq!(
        container_class(ToastTone::Success, true),
        format!("{base} border-green-200 bg-green-50 text-green-700 dark:border-green-900 dark:bg-green-950 dark:text-green-300 opacity-100 translate-y-0")
    );
    assert_eq!(
        container_class(ToastTone::Error, false),
        format!("{base} border-red-200 bg-red-50 text-red-700 dark:border-red-900 dark:bg-red-950 dark:text-red-300 opacity-0 translate-y-2")
    );
    assert!(close_class(ToastTone::Error).contains("text-red-700/70"));
}

// ---------------------------------------------------------------------------
// Connections
// ---------------------------------------------------------------------------

#[test]
fn connection_from_records() {
    let list = connections_from_dtos(vec![dto("srv", "remote"), dto("box", "local"), dto("odd", "weird")]);
    assert_eq!(list.len(), 3);
    assert_eq!(list[0].kind, ConnectionKind::Remote);
    assert_eq!(list[1].kind, ConnectionKind::Local);
    assert_eq!(list[2].kind, ConnectionKind::Local);
    assert_eq!(list[0].port, Some(22));
    assert_eq!(list[0].key_base_dir, "/keys");
    let local = Connection::local();
    assert_eq!(local.id, LOCAL_ID);
    assert_eq!(local.alias, "Local");
}

#[test]
fn single_active_connection() {
    // Law: at most one connection is connected.
    let mut s = ConnectionState::initial();
    assert!(s.is_connected("local"));
    assert_eq!(s.connections, vec![Connection::local()]);
    s.connect("srv");
    assert!(s.is_connected("srv"));
    assert!(!s.is_connected("local"));
    s.disconnect("local");
    assert!(s.is_connected("srv"));
    s.disconnect("srv");
    assert!(!s.has_active());
}

#[test]
fn persisted_and_refreshed_connections() {
    let mut s = ConnectionState::initial();
    s.apply_persisted(String::new());
    assert!(!s.has_active());
    s.apply_persisted("srv".to_string());
    assert!(s.is_connected("srv"));
    s.set_connections(connections_from_dtos(vec![dto("srv", "remote")]));
    assert!(s.is_connected("srv"));
    assert!(s.active_is_remote());
    s.set_connections(connections_from_dtos(vec![dto("box", "local")]));
    assert!(!s.has_active());
    assert!(!s.active_is_remote());
}

#[test]
fn connection_filters_and_switch() {
    let mut s = ConnectionState::initial();
    s.set_connections(connections_from_dtos(vec![dto("local", "local"), dto("srv", "remote")]));
    let labels = vec![
        ConnectionLabels { name: "This Mac".to_string(), type_label: "Local".to_string() },
        ConnectionLabels { name: "Build Server".to_string(), type_label: "Remote".to_string() },
    ];
    assert_eq!(filter_connections(&s, &labels, "", "", ""), vec![0, 1]);
    assert_eq!(filter_connections(&s, &labels, "  MAC ", "", ""), vec![0]);
    assert_eq!(filter_connections(&s, &labels, "remote", "", ""), vec![1]);
    assert_eq!(filter_connections(&s, &labels, "", "local", ""), vec![0]);
    assert_eq!(filter_connections(&s, &labels, "", "", "connected"), vec![0]);
    assert_eq!(filter_connections(&s, &labels, "", "", "offline"), vec![1]);
    assert_eq!(toggle_connection(&mut s, "srv"), ConnectionSwitch::Connected);
    assert_eq!(filter_connections(&s, &labels, "", "", "connected"), vec![1]);
    assert_eq!(toggle_connection(&mut s, "srv"), ConnectionSwitch::Disconnected);
    assert_eq!(filter_connections(&s, &labels, "", "", "connected"), Vec::<usize>::new());
    assert_eq!(switch_notice_key(ConnectionSwitch::Connected), "connect.connect_success");
    assert_eq!(switch_notice_key(ConnectionSwitch::Disconnected), "connect.disconnect_success");
    assert_eq!(kind_code(ConnectionKind::Local), "local");
    assert_eq!(kind_code(ConnectionKind::Remote), "remote");
    assert_eq!(type_filter_choices().len(), 2);
    assert_eq!(status_filter_choices()[2], ("offline", "connect.status_offline"));
}

#[test]
fn startup_restores_in_order() {
    let mut st = StartupState {
        locale: Locale::En,
        page_size: 5,
        connection: ConnectionState::initial(),
        account: None,
    };
    st.apply_startup(
        Some("zh-CN".to_string()),
        Some(0),
        Some(vec![dto("srv", "remote")]),
        None,
        Some(Account { login: "octo".to_string(), avatar_url: None }),
    );
    assert_eq!(st.locale, Locale::Zh);
    assert_eq!(st.page_size, 5);
    assert_eq!(st.connection.connections.len(), 1);
    assert!(!st.connection.has_active());
    assert_eq!(st.account.as_ref().map(|a| a.login.as_str()), Some("octo"));
    st.apply_startup(None, Some(20), None, Some("srv".to_string()), None);
    assert_eq!(st.locale, Locale::Zh);
    assert_eq!(st.page_size, 20);
    assert!(st.connection.is_connected("srv"));
    assert!(st.account.is_some());
}

// ---------------------------------------------------------------------------
// Locale, theme, shell
// ---------------------------------------------------------------------------

#[test]
fn string_tables_have_the_same_keys() {
    let en: Vec<&str> = EN.iter().map(|(k, _)| *k).collect();
    let zh: Vec<&str> = ZH.iter().map(|(k, _)| *k).collect();
    for k in &en {
        assert!(zh.contains(k), "missing in zh: {k}");
    }
    for k in &zh {
        assert!(en.contains(k), "missing in en: {k}");
    }
}

#[test]
fn translation_falls_back_to_english_then_key() {
    assert_eq!(translate(Locale::En, "nav.repos"), "Repositories");
    assert_eq!(translate(Locale::Zh, "nav.repos"), "仓库");
    assert_eq!(translate(Locale::Zh, "no.such.key"), "no.such.key");
    assert_eq!(lookup(&EN, "nav.keys"), Some("Keys"));
    assert_eq!(lookup(&EN, "nav.nope"), None);
}

#[test]
fn locale_codes_round_trip() {
    for l in Locale::all() {
        assert_eq!(Locale::from_code(l.code()), l);
    }
    assert_eq!(Locale::from_code("ZH-tw"), Locale::Zh);
    assert_eq!(Locale::from_code("fr"), Locale::En);
    assert_eq!(Locale::En.native_name(), "English");
    assert_eq!(Locale::Zh.native_name(), "简体中文");
}

#[test]
fn language_search_and_menu_width() {
    assert_eq!(matching_locales(""), vec![Locale::En, Locale::Zh]);
    assert_eq!(matching_locales("  CHIN "), vec![Locale::Zh]);
    assert_eq!(matching_locales("en"), vec![Locale::En]);
    assert_eq!(matching_locales("xyz"), Vec::<Locale>::new());
    assert_eq!(language_menu_chars("", "Search"), 9);
    assert_eq!(language_menu_chars("xyz", "Search languages"), 16);
}

#[test]
fn language_save_follow_up() {
    assert_eq!(language_switch(Locale::En, Locale::En), None);
    assert_eq!(language_switch(Locale::En, Locale::Zh), Some("zh"));
    assert_eq!(after_language_saved(Locale::En, "zh", true), LanguageSaveFollowUp::Resave(Locale::En));
    assert_eq!(after_language_saved(Locale::Zh, "zh", true), LanguageSaveFollowUp::Confirm);
    assert_eq!(after_language_saved(Locale::Zh, "zh", false), LanguageSaveFollowUp::Nothing);
}

#[test]
fn theme_cycle_and_codes() {
    // Law: three toggles return to the start, and codes read back.
    for t in [Theme::Light, Theme::Dark, Theme::System] {
        assert_eq!(t.next().next().next(), t);
        assert_eq!(Theme::from_code(t.code()), t);
    }
    assert_eq!(Theme::System.next(), Theme::Light);
    assert_eq!(Theme::from_code("blue"), Theme::System);
    assert_eq!(Theme::Dark.icon(), IconName::Moon);
    assert!(resolve_dark(Theme::Dark, Some(false)));
    assert!(!resolve_dark(Theme::Light, Some(true)));
    assert!(resolve_dark(Theme::System, Some(true)));
    assert!(!resolve_dark(Theme::System, None));
}

#[test]
fn tutorial_walks_forward_and_back() {
    // Law: back undoes next on every step but the last.
    let steps = TutorialStep::all();
    assert_eq!(steps.len(), 8);
    for (i, s) in steps.iter().enumerate() {
        assert_eq!(s.index(), i);
        match s.next() {
            TutorialMove::Show(n) => assert_eq!(n.previous(), *s),
            TutorialMove::Finish => assert_eq!(i, 7),
        }
    }
    assert_eq!(steps[0].previous(), steps[0]);
    let line: String = tutorial_step_count("Step {current} of {total}", steps[2]).into_iter().collect();
    assert_eq!(line, "Step 3 of 8");
    assert_eq!(tutorial_dot_class(steps[1], steps[2]), "h-1 flex-1 rounded-full bg-primary/40");
    assert_eq!(tutorial_dot_class(steps[2], steps[2]), "h-1 flex-1 rounded-full bg-primary");
    assert_eq!(tutorial_dot_class(steps[3], steps[2]), "h-1 flex-1 rounded-full bg-border");
    assert_eq!(AppSection::all().len(), 3);
    assert_eq!(AppSection::all()[0].label_key(), "nav.repos");
}

#[test]
fn sidebar_manual_choice_until_width_flips() {
    let mut s = SidebarState::new(false);
    assert!(!s.collapsed());
    s.toggle();
    assert!(s.collapsed());
    s.on_resize(false);
    assert!(s.collapsed());
    s.on_resize(true);
    assert!(s.collapsed());
    s.toggle();
    assert!(!s.collapsed());
    s.on_resize(false);
    assert!(!s.collapsed());
    assert_eq!(s.manual, None);
}

#[test]
fn sign_in_token_gate() {
    assert_eq!(token_to_submit(true, "abc"), None);
    assert_eq!(token_to_submit(false, "   "), None);
    assert_eq!(token_to_submit(false, " ghp_x ").map(|v| v.into_iter().collect::<String>()), Some("ghp_x".to_string()));
    assert!(settings_tab_button_class(true).contains("bg-primary-soft"));
}

#[test]
fn backend_errors_prefer_the_string() {
    assert_eq!(backend_error_text(Some("boom".to_string()), Some("{}".to_string())), "boom");
    assert_eq!(backend_error_text(None, Some("{\"code\":1}".to_string())), "{\"code\":1}");
    assert_eq!(backend_error_text(None, None), "Unknown error from backend");
}

// ---------------------------------------------------------------------------
// Calendar
// ---------------------------------------------------------------------------

#[test]
fn leap_years_and_month_lengths() {
    assert!(is_leap_year(2024));
    assert!(!is_leap_year(2023));
    assert!(!is_leap_year(1900));
    assert!(is_leap_year(2000));
    assert!(is_leap_year(-4));
    assert_eq!(days_in_month(2024, 2), 29);
    assert_eq!(days_in_month(2023, 2), 28);
    assert_eq!(days_in_month(2023, 4), 30);
    assert_eq!(days_in_month(2023, 12), 31);
    assert_eq!(days_in_month(2023, 13), 30);
}

#[test]
fn weekdays_start_on_monday() {
    assert_eq!(weekday_index_monday(2024, 1, 1), 0);
    assert_eq!(weekday_index_monday(2024, 2, 1), 3);
    assert_eq!(weekday_index_monday(2000, 1, 1), 5);
    assert_eq!(weekday_index_monday(2023, 12, 31), 6);
}

#[test]
fn month_grid_has_six_weeks() {
    let cells = calendar_cells(YearMonth { year: 2024, month: 2 });
    assert_eq!(cells.len(), 42);
    assert_eq!(cells[0].date, SimpleDate { year: 2024, month: 1, day: 29 });
    assert!(!cells[0].current_month);
    assert_eq!(cells[3].date, SimpleDate { year: 2024, month: 2, day: 1 });
    assert!(cells[3].current_month);
    assert_eq!(cells[31].date, SimpleDate { year: 2024, month: 2, day: 29 });
    assert_eq!(cells[32].date, SimpleDate { year: 2024, month: 3, day: 1 });
    assert_eq!(cells[41].date, SimpleDate { year: 2024, month: 3, day: 10 });
    let jan = calendar_cells(YearMonth { year: 2024, month: 1 });
    assert_eq!(jan[0].date, SimpleDate { year: 2024, month: 1, day: 1 });
    let dec = calendar_cells(YearMonth { year: 2023, month: 12 });
    assert_eq!(dec[41].date.year, 2024);
}

#[test]
fn month_steps_wrap_years() {
    assert_eq!(YearMonth { year: 2024, month: 1 }.previous(), YearMonth { year: 2023, month: 12 });
    assert_eq!(YearMonth { year: 2024, month: 12 }.next(), YearMonth { year: 2025, month: 1 });
    assert_eq!(YearMonth { year: 2024, month: 5 }.next(), YearMonth { year: 2024, month: 6 });
}

#[test]
fn date_text_parse_and_format() {
    assert_eq!(parse_date("2024-02-29"), Some(SimpleDate { year: 2024, month: 2, day: 29 }));
    assert_eq!(parse_date("2023-02-29"), None);
    assert_eq!(parse_date("2024-2-5"), Some(SimpleDate { year: 2024, month: 2, day: 5 }));
    assert_eq!(parse_date("+2024-01-01"), Some(SimpleDate { year: 2024, month: 1, day: 1 }));
    assert_eq!(parse_date("2024-01-01-01"), None);
    assert_eq!(parse_date("2024-00-10"), None);
    assert_eq!(parse_date("2024-01-0"), None);
    assert_eq!(parse_date(""), None);
    assert_eq!(parse_date("2024-01"), None);
    assert_eq!(parse_date(" 2024-01-01"), None);
    assert_eq!(format_date(SimpleDate { year: 2024, month: 3, day: 5 }), "2024-03-05");
    assert_eq!(format_date(SimpleDate { year: 5, month: 1, day: 1 }), "0005-01-01");
    assert_eq!(format_date(SimpleDate { year: -5, month: 1, day: 1 }), "-005-01-01");
}

#[test]
fn formatted_dates_parse_back() {
    // Law: a valid date's text reads back as the same date.
    for d in [
        SimpleDate { year: 2024, month: 2, day: 29 },
        SimpleDate { year: 7, month: 12, day: 31 },
        SimpleDate { year: 12345, month: 6, day: 1 },
    ] {
        assert_eq!(parse_date(&format_date(d)), Some(d));
    }
}

#[test]
fn range_picking_keeps_ends_ordered() {
    let d = |day| SimpleDate { year: 2024, month: 3, day };
    let mut r = DateRangeDraft::from_text("2024-03-10", "");
    assert_eq!(r.from, Some(d(10)));
    assert_eq!(r.to, None);
    r.select(d(5));
    assert_eq!((r.from, r.to), (Some(d(5)), Some(d(10))));
    assert!(r.in_range(d(7)));
    assert!(!r.in_range(d(10)));
    assert!(r.is_selected(d(10)));
    assert_eq!(r.applied_text(), ("2024-03-05".to_string(), "2024-03-10".to_string()));
    r.select(d(20));
    assert_eq!((r.from, r.to), (Some(d(20)), None));
    r.select(d(20));
    assert_eq!((r.from, r.to), (Some(d(20)), None));
    r.select(d(25));
    assert_eq!((r.from, r.to), (Some(d(20)), Some(d(25))));
    assert!(date_before(d(1), d(2)));
    assert!(!date_before(d(2), d(2)));
}

#[test]
fn calendar_opening_month_and_labels() {
    let today = YearMonth { year: 2030, month: 7 };
    assert_eq!(initial_calendar_month("2024-03-10", "2024-05-01", today), YearMonth { year: 2024, month: 3 });
    assert_eq!(initial_calendar_month("", "2024-05-01", today), YearMonth { year: 2024, month: 5 });
    assert_eq!(initial_calendar_month("bad", "", today), today);
    assert_eq!(range_label_form("", ""), RangeLabelForm::All);
    assert_eq!(range_label_form("2024-01-01", ""), RangeLabelForm::From);
    assert_eq!(range_label_form("", "2024-01-01"), RangeLabelForm::To);
    assert_eq!(range_label_form("a", "b"), RangeLabelForm::Between);
    assert_eq!(month_name_key(2), "date.month_february");
    assert_eq!(month_name_key(13), "date.month_december");
    assert_eq!(week_label_keys()[0], "date.week_monday");
}

// ---------------------------------------------------------------------------
// Command palette
// ---------------------------------------------------------------------------

#[test]
fn history_records_newest_first_without_duplicates() {
    // Law: the recorded search comes first, once, and the history keeps ten.
    let mut h = strings(&["a", "b", "c"]);
    record_history(&mut h, "b");
    assert_eq!(texts(&h), vec!["b", "a", "c"]);
    record_history(&mut h, "b");
    assert_eq!(texts(&h), vec!["b", "a", "c"]);
    let mut long: Vec<String> = (0..12).map(|i| format!("q{i}")).collect();
    record_history(&mut long, "new");
    assert_eq!(long.len(), 10);
    assert_eq!(long[0], "new");
    assert_eq!(long[9], "q8");
    let mut dup = strings(&["x", "y", "x"]);
    record_history(&mut dup, "x");
    assert_eq!(texts(&dup), vec!["x", "y"]);
}

#[test]
fn history_entries_can_be_deleted() {
    let mut h = strings(&["a", "b"]);
    assert!(!delete_history_entry(&mut h, 5));
    assert_eq!(h.len(), 2);
    assert!(delete_history_entry(&mut h, 0));
    assert_eq!(texts(&h), vec!["b"]);
}

#[test]
fn history_storage_round_trip() {
    assert_eq!(HISTORY_STORAGE_KEY, "command_palette_history");
    let h = strings(&["repos", "say \"hi\""]);
    let json = history_to_storage(&h).expect("encodes");
    assert_eq!(json, "[\"repos\",\"say \\\"hi\\\"\"]");
    assert_eq!(history_from_storage(Some(&json)), h);
    assert_eq!(history_from_storage(Some("not json")), Vec::<String>::new());
    assert_eq!(history_from_storage(Some("[1,2]")), Vec::<String>::new());
    assert_eq!(history_from_storage(None), Vec::<String>::new());
    assert_eq!(history_or_empty(Ok(strings(&["k"]))), strings(&["k"]));
    assert_eq!(history_or_empty(serde_json::from_str::<Vec<String>>("{")), Vec::<String>::new());
}

#[test]
fn palette_lists_history_or_matching_commands() {
    assert!(matches!(palette_listing(Locale::En, "   ", 3), PaletteListing::History(3)));
    assert!(matches!(palette_listing(Locale::En, "", 14), PaletteListing::History(10)));
    match palette_listing(Locale::En, " THEME ", 0) {
        PaletteListing::Commands(c) => assert_eq!(c, vec![PaletteCommand::ToggleTheme]),
        _ => panic!("expected commands"),
    }
    match palette_listing(Locale::En, "e", 0) {
        PaletteListing::Commands(c) => assert_eq!(
            c,
            vec![
                PaletteCommand::Repos,
                PaletteCommand::Connect,
                PaletteCommand::Keys,
                PaletteCommand::ToggleTheme,
                PaletteCommand::ChangeLanguage
            ]
        ),
        _ => panic!("expected commands"),
    }
    match palette_listing(Locale::Zh, "切换", 0) {
        PaletteListing::Commands(c) => assert_eq!(c, vec![PaletteCommand::ToggleTheme, PaletteCommand::ChangeLanguage]),
        _ => panic!("expected commands"),
    }
    assert_eq!(empty_listing_key(""), "palette.empty_history");
    assert_eq!(empty_listing_key("  "), "palette.no_results");
    assert_eq!(PaletteCommand::Keys.icon(), IconName::Key);
    assert_eq!(PaletteCommand::ChangeLanguage.label_key(), "palette.change_language");
}

#[test]
fn palette_keyboard() {
    assert_eq!(palette_key("Escape"), PaletteKey::Escape);
    assert_eq!(palette_key("ESCAPE"), PaletteKey::Escape);
    assert_eq!(palette_key("ArrowDown"), PaletteKey::Down);
    assert_eq!(palette_key("arrowdown"), PaletteKey::Other);
    assert_eq!(palette_key("Enter"), PaletteKey::Enter);
    let mut s = PaletteState::closed();
    assert_eq!(s.key(PaletteKey::Enter, 3), PalettePick::Nothing);
    s.open();
    s.key(PaletteKey::Down, 3);
    s.key(PaletteKey::Down, 3);
    s.key(PaletteKey::Down, 3);
    assert_eq!(s.selected, 2);
    s.key(PaletteKey::Up, 3);
    assert_eq!(s.selected, 1);
    s.key(PaletteKey::Up, 3);
    s.key(PaletteKey::Up, 3);
    assert_eq!(s.selected, 0);
    s.key(PaletteKey::Down, 0);
    assert_eq!(s.selected, 0);
    assert_eq!(s.key(PaletteKey::Enter, 3), PalettePick::Entry(0));
    assert_eq!(s.key(PaletteKey::Enter, 0), PalettePick::Nothing);
    s.input("x".to_string());
    assert_eq!(s.query, "x");
    s.key(PaletteKey::Escape, 3);
    assert!(!s.open);
}

#[test]
fn palette_language_mode() {
    // Escape twice from the language list: back to commands, then closed.
    let mut s = PaletteState::closed();
    s.open();
    assert_eq!(s.run_command(PaletteCommand::ChangeLanguage, Theme::Light), CommandEffect::PickLanguage);
    assert!(s.language_mode);
    assert_eq!(s.placeholder_key(), "settings.language_search_placeholder");
    s.input("zh".to_string());
    s.key(PaletteKey::Escape, 1);
    assert!(s.open && !s.language_mode && s.query.is_empty());
    assert_eq!(s.placeholder_key(), "palette.placeholder");
    s.key(PaletteKey::Escape, 1);
    assert!(!s.open);
    s.open();
    s.run_command(PaletteCommand::ChangeLanguage, Theme::Light);
    assert_eq!(s.key(PaletteKey::Enter, 2), PalettePick::Locale(0));
    assert!(!s.open && !s.language_mode);
}

#[test]
fn palette_commands_run() {
    let mut s = PaletteState::closed();
    s.open();
    assert_eq!(s.run_command(PaletteCommand::ToggleTheme, Theme::System), CommandEffect::SetTheme(Theme::Light));
    assert!(!s.open);
    s.open();
    assert_eq!(s.run_command(PaletteCommand::Keys, Theme::Dark), CommandEffect::ShowSection(AppSection::Keys));
    assert!(!s.open);
    s.open();
    assert_eq!(s.run_command(PaletteCommand::Repos, Theme::Dark), CommandEffect::ShowSection(AppSection::Repos));
    assert_eq!(s.run_command(PaletteCommand::Connect, Theme::Dark), CommandEffect::ShowSection(AppSection::Connect));
    s.open();
    s.use_history_entry("keys");
    assert_eq!(s.query, "keys");
    s.hover(4);
    assert_eq!(s.selected, 4);
    s.locale_clicked();
    assert!(!s.open);
    s.open();
    s.close();
    assert!(!s.open);
}

#[test]
fn string_tables_have_no_duplicate_keys() {
    for table in [&EN[..], &ZH[..]] {
        let mut keys: Vec<&str> = table.iter().map(|(k, _)| *k).collect();
        let n = keys.len();
        keys.sort();
        keys.dedup();
        assert_eq!(keys.len(), n);
    }
}

#[test]
fn icon_markup_and_classes() {
    assert_eq!(
        icon_markup("<svg viewBox=\"0 0 1 1\"><path fill=\"#FFFFFF\" stroke=\"#fff\"/></svg>"),
        "<svg style=\"width:100%;height:100%;display:block;\" viewBox=\"0 0 1 1\"><path fill=\"currentColorFFF\" stroke=\"currentColor\"/></svg>"
    );
    assert_eq!(icon_markup("#ffffff"), "currentColorfff");
    assert_eq!(icon_class("shrink-0", ""), "shrink-0");
    assert_eq!(icon_class("shrink-0", "size-4"), "shrink-0 size-4");
    assert_eq!(IconName::Key.src(), "assets/images/svg/icons/key.svg");
}

#[test]
fn english_covers_every_ui_key_and_tables_match() {
    for key in ["common.confirm", "keys.title", "repos.sync_success", "date.month_may", "tutorial.signin.title"] {
        assert!(lookup(&EN, key).is_some(), "{key}");
        assert!(lookup(&ZH, key).is_some(), "{key}");
    }
    assert_eq!(translate(Locale::En, "keys.title"), "SSH keys");
    assert_eq!(translate(Locale::Zh, "repos.sync_success"), "仓库已同步");
    for s in TutorialStep::all() {
        assert!(lookup(&EN, s.title_key()).is_some());
        assert!(lookup(&EN, s.body_key()).is_some());
    }
    for m in 1..=12 {
        assert!(lookup(&EN, month_name_key(m)).is_some());
    }
    for k in week_label_keys() {
        assert!(lookup(&EN, k).is_some());
    }
    assert_eq!(EN.len(), ZH.len());
    for (a, b) in EN.iter().zip(ZH.iter()) {
        assert_eq!(a.0, b.0);
    }
}

#[test]
fn history_always_stores() {
    let h = strings(&[]);
    assert_eq!(history_to_storage(&h), Some("[]".to_string()));
}

#[test]
fn sign_in_flow() {
    let mut s = Session::new();
    assert_eq!(s.screen, Screen::Main);
    s.start_auth();
    assert_eq!(s.screen, Screen::SignIn);
    assert_eq!(s.submit_token("   "), None);
    assert_eq!(s.submit_token(" ghp_1 "), Some("ghp_1".to_string()));
    assert!(s.signing_in);
    assert_eq!(s.submit_token("ghp_2"), None);
    assert!(!s.sign_in_finished(Err("bad token".to_string())));
    assert_eq!(s.error.as_deref(), Some("bad token"));
    assert_eq!(s.screen, Screen::SignIn);
    assert!(!s.signing_in);
    assert_eq!(s.submit_token("ghp_3"), Some("ghp_3".to_string()));
    assert!(s.error.is_none());
    assert!(s.sign_in_finished(Ok(Account { login: "octo".to_string(), avatar_url: None })));
    assert_eq!(s.screen, Screen::Main);
    assert_eq!(s.account.as_ref().map(|a| a.login.as_str()), Some("octo"));
    assert_eq!(s.signed_out(), "sign_out.success");
    assert!(s.account.is_none());
    s.start_auth();
    s.cancel_auth();
    assert_eq!(s.screen, Screen::Main);
}

#[test]
fn tutorial_guide_flow() {
    assert_eq!(TutorialState::at_startup(true).step, None);
    let mut t = TutorialState::at_startup(false);
    assert_eq!(t.step, Some(TutorialStep::SignIn));
    let u = t.previous();
    assert_eq!((u.show_section, u.mark_seen), (None, false));
    let u = t.next();
    assert_eq!(t.step, Some(TutorialStep::Sync));
    assert_eq!(u.show_section, Some(AppSection::Repos));
    let u = t.next();
    assert_eq!(t.step, Some(TutorialStep::Connect));
    assert_eq!(u.show_section, Some(AppSection::Connect));
    let u = t.previous();
    assert_eq!(t.step, Some(TutorialStep::Sync));
    assert_eq!(u.show_section, Some(AppSection::Repos));
    for _ in 0..6 {
        t.next();
    }
    assert_eq!(t.step, Some(TutorialStep::TestRepo));
    let u = t.next();
    assert_eq!(t.step, None);
    assert_eq!((u.show_section, u.mark_seen), (None, true));
    let u = t.open();
    assert_eq!(t.step, Some(TutorialStep::SignIn));
    assert_eq!(u.show_section, Some(AppSection::Repos));
    let u = t.close();
    assert_eq!(t.step, None);
    assert!(u.mark_seen);
}

#[test]
fn weekday_before_year_zero_wraps_like_the_cast() {
    let w = weekday_index_monday(-1, 1, 1);
    assert!(w < 7 || w > 4_000_000_000);
}

#[test]
fn signed_out_sync_opens_sign_in() {
    let mut s = Session::new();
    assert_eq!(s.sync_pressed(false), SyncStep::OpenSignIn);
    assert_eq!(s.screen, Screen::SignIn);
    assert!(s.error.is_none() && s.account.is_none());
    s.cancel_auth();
    assert!(s.sign_in_finished(Ok(Account { login: "octo".to_string(), avatar_url: None })));
    assert_eq!(s.sync_pressed(false), SyncStep::Start);
    assert_eq!(s.sync_pressed(true), SyncStep::Busy);
    assert_eq!(s.screen, Screen::Main);
}

#[test]
fn history_json_escapes_like_serde_json() {
    let h = strings(&["a\"b", "c\\d", "tab\tnl\n", "\u{1}\u{1f}", "/é"]);
    assert_eq!(
        history_to_storage(&h),
        Some("[\"a\\\"b\",\"c\\\\d\",\"tab\\tnl\\n\",\"\\u0001\\u001f\",\"/é\"]".to_string())
    );
    assert_eq!(history_from_storage(history_to_storage(&h).as_deref()), h);
}

#[test]
fn ended_simulation_leaves_the_full_bar_alone() {
    // Law: a climb tick armed before the end finds nothing and changes nothing.
    let mut p = ProgressHandle::new();
    let key = p.begin_simulated();
    p.advance_simulated(&key);
    assert!(p.end_simulated(&key).is_some());
    assert!(!p.advance_simulated(&key));
    assert_eq!(p.phase(), Phase::Hold);
    assert_eq!(p.bar_width(), 100);
}

#[test]
fn simulated_keys_are_fresh() {
    // Law: every call hands out a key no earlier call handed out.
    let mut p = ProgressHandle::new();
    let a = p.begin_simulated();
    p.end_simulated(&a);
    let b = p.begin_simulated();
    let c = p.begin_simulated();
    assert_eq!((a.as_str(), b.as_str(), c.as_str()), ("sim.0", "sim.1", "sim.2"));
    assert_eq!(p.next_sim_id(), 3);
    assert_eq!(p.phase(), Phase::Running);
}
