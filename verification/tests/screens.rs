use deploykeys_ui::api::{CloneTask, Repo, SshKey};
use deploykeys_ui::keys::{key_files_check, DialogError, EditNext, KeyDialog, KeyFilesCheck};
use deploykeys_ui::keys::{
    algorithm_filter_choices, cell_has_bubble, choose_sort, filter_keys, key_algorithm_choices, selected_option,
    validate_key_edit, validate_new_key, visible_keys, CreatedAtSort, KeyFormError, DEFAULT_KEY_ALGORITHM,
};
use deploykeys_ui::repos::{
    bind_step, clone_dialog_title, clone_range_choices, clone_route, clone_status_class, clone_status_key,
    compact_clone_log, compact_clone_log_line, default_bind_key, filter_clone_tasks, filter_repos,
    has_clearable_tasks, language_color, language_filter_values, range_cutoff_secs, remote_clone_step,
    running_badge, running_clone_count, sync_step, upsert_clone_task, visibility_filter_choices, BindStep,
    CloneRoute, LoadStep, RemoteCloneStep, RepoList, SyncStep, DEFAULT_REMOTE_CLONE_DIR, OTHER_LANGUAGE,
};

fn repo(id: i64, full_name: &str, private: bool, language: Option<&str>) -> Repo {
    let (owner, name) = full_name.split_once('/').unwrap_or(("", full_name));
    Repo {
        id,
        full_name: full_name.to_string(),
        owner: owner.to_string(),
        name: name.to_string(),
        private,
        archived: false,
        language: language.map(|l| l.to_string()),
        default_branch: Some("main".to_string()),
        html_url: format!("https://github.com/{full_name}"),
        ssh_url: format!("git@github.com:{full_name}.git"),
    }
}

fn key(id: i64, directory: &str, algorithm: &str, comment: &str, remark: &str, created_at: &str) -> SshKey {
    SshKey {
        id,
        directory: directory.to_string(),
        algorithm: algorithm.to_string(),
        comment: comment.to_string(),
        remark: remark.to_string(),
        created_at: created_at.to_string(),
    }
}

fn task(id: u64, full_name: &str, path: &str, status: &str, started_at: i64) -> CloneTask {
    CloneTask {
        id,
        repo_id: id as i64,
        repo_full_name: full_name.to_string(),
        repo_name: full_name.rsplit('/').next().unwrap_or("").to_string(),
        local_path: path.to_string(),
        command: format!("git clone {full_name}"),
        status: status.to_string(),
        log: String::new(),
        started_at,
        finished_at: None,
        exit_code: None,
        error: None,
    }
}

fn sample_repos() -> Vec<Repo> {
    vec![
        repo(1, "acme/Deploy-Tool", false, Some("Rust")),
        repo(2, "acme/website", true, Some("TypeScript")),
        repo(3, "acme/notes", false, None),
        repo(4, "other/deploy-docs", true, Some("Rust")),
    ]
}

// ---------------------------------------------------------------------------
// Repositories
// ---------------------------------------------------------------------------

#[test]
fn repo_search_is_case_insensitive() {
    let repos = sample_repos();
    assert_eq!(filter_repos(&repos, "DEPLOY", "all", ""), vec![0, 3]);
    assert_eq!(filter_repos(&repos, "", "all", ""), vec![0, 1, 2, 3]);
    assert_eq!(filter_repos(&repos, "zzz", "all", ""), Vec::<usize>::new());
}

#[test]
fn repo_visibility_filter() {
    let repos = sample_repos();
    assert_eq!(filter_repos(&repos, "", "public", ""), vec![0, 2]);
    assert_eq!(filter_repos(&repos, "", "private", ""), vec![1, 3]);
    assert_eq!(filter_repos(&repos, "", "anything", ""), vec![0, 1, 2, 3]);
}

#[test]
fn repo_language_filter() {
    let repos = sample_repos();
    assert_eq!(filter_repos(&repos, "", "all", "Rust"), vec![0, 3]);
    assert_eq!(filter_repos(&repos, "", "all", OTHER_LANGUAGE), vec![2]);
    assert_eq!(filter_repos(&repos, "deploy", "private", "Rust"), vec![3]);
}

#[test]
fn language_choices_are_sorted_and_distinct() {
    let repos = vec![
        repo(1, "a/a", false, Some("Rust")),
        repo(2, "a/b", false, Some("Go")),
        repo(3, "a/c", false, Some("Rust")),
        repo(4, "a/d", false, Some("C")),
    ];
    let values = language_filter_values(&repos);
    assert_eq!(values.languages, vec!["C", "Go", "Rust"]);
    assert!(!values.has_other);
    let values = language_filter_values(&sample_repos());
    assert_eq!(values.languages, vec!["Rust", "TypeScript"]);
    assert!(values.has_other);
    let values = language_filter_values(&[]);
    assert!(values.languages.is_empty());
    assert!(!values.has_other);
}

#[test]
fn language_choices_order_like_str() {
    let repos = vec![
        repo(1, "a/a", false, Some("rust")),
        repo(2, "a/b", false, Some("Rust")),
        repo(3, "a/c", false, Some("Élan")),
    ];
    assert_eq!(language_filter_values(&repos).languages, vec!["Rust", "rust", "Élan"]);
}

#[test]
fn upsert_replaces_or_prepends() {
    let mut tasks = vec![task(1, "a/x", "/tmp/x", "running", 10), task(2, "a/y", "/tmp/y", "failed", 5)];
    upsert_clone_task(&mut tasks, task(2, "a/y", "/tmp/y", "running", 20));
    assert_eq!(tasks.iter().map(|t| (t.id, t.status.as_str())).collect::<Vec<_>>(), vec![(1, "running"), (2, "running")]);
    upsert_clone_task(&mut tasks, task(3, "a/z", "/tmp/z", "running", 30));
    assert_eq!(tasks.iter().map(|t| t.id).collect::<Vec<_>>(), vec![3, 1, 2]);
}

#[test]
fn upsert_twice_keeps_ids_unique() {
    // Law: ids stay unique and the recorded task is found under its id.
    let mut tasks = vec![task(1, "a/x", "/x", "running", 1)];
    upsert_clone_task(&mut tasks, task(5, "a/y", "/y", "running", 2));
    upsert_clone_task(&mut tasks, task(5, "a/y", "/y", "succeeded", 3));
    let ids: Vec<u64> = tasks.iter().map(|t| t.id).collect();
    assert_eq!(ids, vec![5, 1]);
    assert_eq!(tasks[0].status, "succeeded");
}

#[test]
fn running_counts_and_badge() {
    let tasks = vec![
        task(1, "a/x", "/x", "running", 1),
        task(2, "a/y", "/y", "failed", 1),
        task(3, "a/z", "/z", "running", 1),
    ];
    assert_eq!(running_clone_count(&tasks), 2);
    assert!(has_clearable_tasks(&tasks));
    assert!(!has_clearable_tasks(&tasks[..1]));
    assert!(!has_clearable_tasks(&[]));
    assert_eq!(running_badge(5), 5);
    assert_eq!(running_badge(99), 99);
    assert_eq!(running_badge(150), 99);
}

#[test]
fn clone_status_labels_and_classes() {
    assert_eq!(clone_status_key("running"), Some("repos.clone_status_running"));
    assert_eq!(clone_status_key("succeeded"), Some("repos.clone_status_succeeded"));
    assert_eq!(clone_status_key("failed"), Some("repos.clone_status_failed"));
    assert_eq!(clone_status_key("queued"), None);
    let base = "shrink-0 rounded-full border border-border px-2 py-0.5 text-[11px] font-medium";
    assert_eq!(clone_status_class("running"), format!("{base} text-primary"));
    assert_eq!(clone_status_class("succeeded"), format!("{base} text-primary"));
    assert_eq!(clone_status_class("failed"), format!("{base} text-red-600 dark:text-red-400"));
    assert_eq!(clone_status_class("other"), format!("{base} text-muted"));
}

#[test]
fn range_cutoffs() {
    let now = 1_700_000_000;
    assert_eq!(range_cutoff_secs("5h", now), Some(now - 5 * 3600));
    assert_eq!(range_cutoff_secs("24h", now), Some(now - 86_400));
    assert_eq!(range_cutoff_secs("7d", now), Some(now - 7 * 86_400));
    assert_eq!(range_cutoff_secs("365d", now), Some(now - 365 * 86_400));
    assert_eq!(range_cutoff_secs("all", now), None);
    assert_eq!(range_cutoff_secs("bogus", now), None);
    let choices = clone_range_choices();
    assert_eq!(choices.len(), 9);
    assert_eq!(choices[0], ("5h", "repos.clone_range_5h"));
    assert_eq!(choices[8], ("all", "repos.clone_range_all"));
}

#[test]
fn clone_task_filter_by_text_and_time() {
    let tasks = vec![
        task(1, "acme/Tool", "/home/me/tool", "running", 100),
        task(2, "acme/web", "/srv/WEB", "failed", 50),
        task(3, "other/x", "/tmp/x", "succeeded", 200),
    ];
    assert_eq!(filter_clone_tasks(&tasks, "", None), vec![0, 1, 2]);
    assert_eq!(filter_clone_tasks(&tasks, "ACME", None), vec![0, 1]);
    assert_eq!(filter_clone_tasks(&tasks, "web", None), vec![1]);
    assert_eq!(filter_clone_tasks(&tasks, "", Some(100)), vec![0, 2]);
    assert_eq!(filter_clone_tasks(&tasks, "acme", Some(100)), vec![0]);
}

#[test]
fn compact_log_keeps_milestones_and_errors() {
    let log = "Cloning into 'repo'...\r\nremote: Enumerating objects: 10, done.\r\n\
               remote: Counting objects:  50% (5/10)\rremote: Counting objects: 100% (10/10), done.\n\
               Receiving objects:  30% (3/10)\rReceiving objects: 100% (10/10), done.\n\
               Resolving deltas: 100% (2/2), done.\n  \nsomething else\nfatal: could not read\n";
    let expected = "Cloning into 'repo'...\nremote: Enumerating objects: 10, done.\n\
                    remote: Counting objects: 100% (10/10), done.\nReceiving objects: 100% (10/10), done.\n\
                    Resolving deltas: 100% (2/2), done.\nfatal: could not read\n";
    assert_eq!(compact_clone_log(log), expected);
    assert_eq!(compact_clone_log(""), "");
}

#[test]
fn compact_log_line_rules() {
    let line = |t: &str| compact_clone_log_line(&t.chars().collect::<Vec<char>>()).map(|v| v.into_iter().collect::<String>());
    assert_eq!(line("  Cloning into 'x'...  "), Some("Cloning into 'x'...".to_string()));
    assert_eq!(line("remote: Total 3 (delta 0)"), Some("remote: Total 3 (delta 0)".to_string()));
    assert_eq!(line("remote: Compressing objects:  40% (2/5)"), None);
    assert_eq!(line("git@github.com: Permission denied (publickey)."), Some("git@github.com: Permission denied (publickey).".to_string()));
    assert_eq!(line("Host key verification failed."), Some("Host key verification failed.".to_string()));
    assert_eq!(line("ERROR: Repository not found."), Some("ERROR: Repository not found.".to_string()));
    assert_eq!(line("ssh: connect to host"), Some("ssh: connect to host".to_string()));
    assert_eq!(line("error: RPC failed"), Some("error: RPC failed".to_string()));
    assert_eq!(line("   "), None);
    assert_eq!(line("Updating files: 100% (3/3), done."), None);
}

#[test]
fn language_colors() {
    assert_eq!(language_color("Rust"), "#dea584");
    assert_eq!(language_color("Go"), "#00ADD8");
    assert_eq!(language_color("TeX"), "#3D6117");
    assert_eq!(language_color("rust"), "#9ca3af");
    assert_eq!(language_color(""), "#9ca3af");
}

#[test]
fn repo_action_routing() {
    assert_eq!(sync_step(false, false), SyncStep::OpenSignIn);
    assert_eq!(sync_step(false, true), SyncStep::OpenSignIn);
    assert_eq!(sync_step(true, true), SyncStep::Busy);
    assert_eq!(sync_step(true, false), SyncStep::Start);
    assert_eq!(clone_route(true, true), CloneRoute::Busy);
    assert_eq!(clone_route(false, true), CloneRoute::RemoteDialog);
    assert_eq!(clone_route(false, false), CloneRoute::LocalPicker);
}

#[test]
fn remote_clone_needs_a_directory() {
    assert!(matches!(remote_clone_step(true, Some(1), "~/apps"), RemoteCloneStep::Ignore));
    assert!(matches!(remote_clone_step(false, None, "~/apps"), RemoteCloneStep::Ignore));
    assert!(matches!(remote_clone_step(false, Some(1), "   "), RemoteCloneStep::PathRequired));
    match remote_clone_step(false, Some(7), "  ~/apps/x ") {
        RemoteCloneStep::Start { repo_id, path } => {
            assert_eq!(repo_id, 7);
            assert_eq!(path, "~/apps/x");
        }
        _ => panic!("expected a start"),
    }
    assert_eq!(DEFAULT_REMOTE_CLONE_DIR, "~/apps");
}

#[test]
fn bind_needs_a_key() {
    assert_eq!(bind_step(true, Some(1), Some(2)), BindStep::Ignore);
    assert_eq!(bind_step(false, None, Some(2)), BindStep::Ignore);
    assert_eq!(bind_step(false, Some(1), None), BindStep::KeyRequired);
    assert_eq!(bind_step(false, Some(1), Some(2)), BindStep::Submit { repo_id: 1, key_id: 2 });
    let keys = vec![key(9, "a", "ed25519", "c", "", "2024-01-01"), key(3, "b", "rsa2048", "d", "", "2024-01-02")];
    assert_eq!(default_bind_key(&keys), Some(9));
    assert_eq!(default_bind_key(&[]), None);
}

#[test]
fn clone_dialog_title_fills_the_name() {
    assert_eq!(clone_dialog_title("Clone {}", "acme/web"), "Clone acme/web");
    assert_eq!(clone_dialog_title("No placeholder", "acme/web"), "No placeholder");
}

#[test]
fn visibility_choices() {
    assert_eq!(
        visibility_filter_choices(),
        vec![("all", "repos.all"), ("public", "repos.public"), ("private", "repos.private")]
    );
}

// ---------------------------------------------------------------------------
// Keys
// ---------------------------------------------------------------------------

fn sample_keys() -> Vec<SshKey> {
    vec![
        key(1, "~/.ssh/Work", "ed25519", "me@work", "laptop", "2024-03-10 08:00:00"),
        key(2, "~/.ssh/home", "rsa4096", "me@home", "Desktop", "2024-01-05 12:00:00"),
        key(3, "~/.ssh/ci", "ed25519", "ci-bot", "", "2024-03-10 08:00:00"),
        key(4, "~/.ssh/old", "rsa2048", "legacy", "WORK archive", "2023-12-31 23:59:59"),
        key(5, "~/.ssh/short", "ed25519", "x", "", "2024"),
    ]
}

#[test]
fn key_search_over_directory_comment_and_remark() {
    let keys = sample_keys();
    assert_eq!(filter_keys(&keys, "work", "", "", ""), vec![0, 3]);
    assert_eq!(filter_keys(&keys, "DESKTOP", "", "", ""), vec![1]);
    assert_eq!(filter_keys(&keys, "", "", "", ""), vec![0, 1, 2, 3, 4]);
}

#[test]
fn key_algorithm_filter_is_exact() {
    let keys = sample_keys();
    assert_eq!(filter_keys(&keys, "", "ed25519", "", ""), vec![0, 2, 4]);
    assert_eq!(filter_keys(&keys, "", "rsa", "", ""), Vec::<usize>::new());
}

#[test]
fn key_date_range_uses_the_first_ten_bytes() {
    let keys = sample_keys();
    assert_eq!(filter_keys(&keys, "", "", "2024-01-01", ""), vec![0, 1, 2]);
    assert_eq!(filter_keys(&keys, "", "", "", "2024-01-05"), vec![1, 3, 4]);
    assert_eq!(filter_keys(&keys, "", "", "2024-03-10", "2024-03-10"), vec![0, 2]);
}

#[test]
fn keys_sorted_newest_first_by_default() {
    let keys = sample_keys();
    // Oldest first: the short date sorts by its full text; ties keep list order.
    assert_eq!(visible_keys(&keys, "", "", "", "", CreatedAtSort::Asc), vec![3, 4, 1, 0, 2]);
    assert_eq!(visible_keys(&keys, "", "", "", "", CreatedAtSort::Desc), vec![2, 0, 1, 4, 3]);
}

#[test]
fn switching_direction_reverses_the_list() {
    // Law: the newest-first listing is the oldest-first listing reversed.
    let keys = sample_keys();
    for (q, alg) in [("", ""), ("work", ""), ("", "ed25519")] {
        let mut asc = visible_keys(&keys, q, alg, "", "", CreatedAtSort::Asc);
        let desc = visible_keys(&keys, q, alg, "", "", CreatedAtSort::Desc);
        asc.reverse();
        assert_eq!(asc, desc);
    }
}

#[test]
fn sort_direction_toggle() {
    assert_eq!(CreatedAtSort::Desc.toggled(), CreatedAtSort::Asc);
    assert_eq!(CreatedAtSort::Asc.toggled(), CreatedAtSort::Desc);
    assert_eq!(CreatedAtSort::Asc.indicator(), "▲");
    assert_eq!(CreatedAtSort::Desc.indicator(), "▼");
    assert_eq!(CreatedAtSort::Asc.toggle_label_key(), "keys.sort_created_at_desc");
    assert_eq!(CreatedAtSort::Desc.toggle_label_key(), "keys.sort_created_at_asc");
    assert_eq!(choose_sort(CreatedAtSort::Desc, CreatedAtSort::Desc), (CreatedAtSort::Desc, false));
    assert_eq!(choose_sort(CreatedAtSort::Desc, CreatedAtSort::Asc), (CreatedAtSort::Asc, true));
}

#[test]
fn new_key_form_requires_directory_and_comment() {
    let ok = validate_new_key("  ~/.ssh/a ", "rsa4096", " me ", "  note ").ok().unwrap();
    assert_eq!(ok.directory, "~/.ssh/a");
    assert_eq!(ok.algorithm, "rsa4096");
    assert_eq!(ok.comment, "me");
    assert_eq!(ok.remark, "note");
    assert!(matches!(validate_new_key(" ", "ed25519", "me", ""), Err(KeyFormError::Required)));
    assert!(matches!(validate_new_key("~/.ssh", "ed25519", "\t", ""), Err(KeyFormError::Required)));
    assert!(validate_new_key("d", "ed25519", "c", "").is_ok());
    assert_eq!(DEFAULT_KEY_ALGORITHM, "ed25519");
}

#[test]
fn edit_key_form_requires_directory() {
    let ok = validate_key_edit(" ~/.ssh/b ", " r ").ok().unwrap();
    assert_eq!(ok.directory, "~/.ssh/b");
    assert_eq!(ok.remark, "r");
    assert!(matches!(validate_key_edit("  ", "r"), Err(KeyFormError::Required)));
}

#[test]
fn key_choice_lists() {
    assert_eq!(
        key_algorithm_choices(),
        vec![
            ("ed25519", "keys.algorithm_ed25519"),
            ("rsa2048", "keys.algorithm_rsa2048"),
            ("rsa4096", "keys.algorithm_rsa4096")
        ]
    );
    let filter = algorithm_filter_choices();
    assert_eq!(filter[0], ("", "keys.filter_algorithm_all"));
    assert_eq!(filter[3], ("rsa4096", "RSA 4096"));
}

#[test]
fn cell_bubbles_and_dropdown_labels() {
    assert!(cell_has_bubble("some text"));
    assert!(!cell_has_bubble("   "));
    assert!(!cell_has_bubble("—"));
    assert!(cell_has_bubble(" — "));
    let options = vec![
        ("".to_string(), "All".to_string()),
        ("a".to_string(), "A".to_string()),
        ("a".to_string(), "second".to_string()),
    ];
    assert_eq!(selected_option(&options, "a"), Some(1));
    assert_eq!(selected_option(&options, ""), Some(0));
    assert_eq!(selected_option(&options, "z"), None);
}

#[test]
fn key_files_check_routes_the_action() {
    assert!(matches!(key_files_check(Ok(true)), KeyFilesCheck::Proceed));
    assert!(matches!(key_files_check(Ok(false)), KeyFilesCheck::Missing));
    match key_files_check(Err("disk gone".to_string())) {
        KeyFilesCheck::Failed(m) => assert_eq!(m, "disk gone"),
        _ => panic!("expected a failure"),
    }
}

#[test]
fn create_key_dialog_flow() {
    let mut d = KeyDialog::closed();
    d.show();
    assert!(d.open);
    assert!(d.submit_create(" ", "ed25519", "c", "").is_none());
    assert_eq!(d.error, Some(DialogError::Required));
    let req = d.submit_create(" dir ", "rsa2048", " me ", " r ").expect("valid form");
    assert_eq!((req.directory.as_str(), req.comment.as_str(), req.remark.as_str()), ("dir", "me", "r"));
    assert!(d.busy && d.error.is_none());
    assert!(!d.finish_create(Err("exists".to_string())));
    assert!(d.open && !d.busy);
    assert_eq!(d.error, Some(DialogError::Host("exists".to_string())));
    d.submit_create("dir", "ed25519", "me", "");
    assert!(d.finish_create(Ok(key(1, "dir", "ed25519", "me", "", "2024-01-01"))));
    assert!(!d.open && !d.busy);
}

#[test]
fn edit_key_dialog_flow() {
    let mut d = KeyDialog::closed();
    d.show();
    assert!(d.submit_edit("  ", "r").is_none());
    assert_eq!(d.error, Some(DialogError::Required));
    let req = d.submit_edit(" d2 ", " note ").expect("valid form");
    assert_eq!((req.directory.as_str(), req.remark.as_str()), ("d2", "note"));
    assert_eq!(d.after_files_check(Ok(true)), EditNext::Update);
    assert!(d.busy && d.open);
    assert!(d.finish_edit(Ok(key(1, "d2", "ed25519", "c", "note", "2024-01-01"))));
    assert!(!d.open && !d.busy);
    d.show();
    d.submit_edit("d", "");
    assert_eq!(d.after_files_check(Ok(false)), EditNext::Missing);
    assert!(!d.open && !d.busy);
    d.show();
    d.submit_edit("d", "");
    assert_eq!(d.after_files_check(Err("io".to_string())), EditNext::Stop);
    assert!(d.open && !d.busy);
    assert_eq!(d.error, Some(DialogError::Host("io".to_string())));
}

#[test]
fn first_load_shows_stored_repositories() {
    let mut l = RepoList::new();
    assert!(l.repos.is_empty() && !l.loading && !l.syncing);
    assert!(matches!(l.session_changed(true), LoadStep::List));
    assert!(l.loading);
    assert!(matches!(l.first_list_answered(Ok(sample_repos())), LoadStep::Done));
    assert_eq!(l.repos, sample_repos());
    assert!(!l.loading && !l.syncing);
    // Signing out clears the list.
    assert!(matches!(l.session_changed(false), LoadStep::Done));
    assert!(l.repos.is_empty() && !l.loading);
}

#[test]
fn first_load_of_an_empty_list_syncs_once() {
    let mut l = RepoList::new();
    l.session_changed(true);
    assert!(matches!(l.first_list_answered(Ok(Vec::new())), LoadStep::Sync));
    assert!(l.syncing && l.loading);
    assert!(matches!(l.first_sync_answered(true), LoadStep::List));
    assert!(l.syncing && l.loading);
    l.relist_answered(Ok(sample_repos()));
    assert_eq!(l.repos, sample_repos());
    assert!(!l.syncing && !l.loading);
}

#[test]
fn failed_first_sync_stays_quiet() {
    let mut l = RepoList::new();
    l.session_changed(true);
    l.first_list_answered(Ok(Vec::new()));
    assert!(matches!(l.first_sync_answered(false), LoadStep::Done));
    assert!(l.repos.is_empty() && !l.syncing && !l.loading);
}

#[test]
fn failed_first_list_shows_the_error() {
    let mut l = RepoList::new();
    l.session_changed(true);
    match l.first_list_answered(Err("offline".to_string())) {
        LoadStep::ShowError(e) => assert_eq!(e, "offline"),
        _ => panic!("expected the error"),
    }
    assert!(!l.loading && l.repos.is_empty());
}

#[test]
fn sync_runs_once_and_relists() {
    let mut l = RepoList::new();
    assert_eq!(l.start_sync(), SyncStep::Start);
    assert!(l.syncing);
    assert_eq!(l.start_sync(), SyncStep::Busy);
    l.relist_answered(Err("gone".to_string()));
    assert!(l.repos.is_empty() && !l.syncing);
    assert_eq!(l.start_sync(), SyncStep::Start);
    l.relist_answered(Ok(sample_repos()));
    assert_eq!(l.repos.len(), sample_repos().len());
}
