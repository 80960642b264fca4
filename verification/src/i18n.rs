//! Interface languages and the string tables.
//!
//! English is the baseline table; a key missing from the active language falls
//! back to English, and a key missing from both falls back to the key itself,
//! which surfaces typos loudly rather than silently.

use vstd::prelude::*;
use vstd::string::*;
use crate::text::{
    ascii_lower_chars, ascii_lower_seq, chars_of, contains_chars, has_infix, has_prefix,
    starts_with_chars, str_eq, trim, trim_seq,
};

verus! {

#[derive(Debug, Clone, Copy, PartialEq, Eq, Structural)]
pub enum Locale {
    En,
    Zh,
}

/// Every supported locale, in menu order.
pub open spec fn all_locales() -> Seq<Locale> {
    seq![Locale::En, Locale::Zh]
}

pub open spec fn locale_code(l: Locale) -> Seq<char> {
    match l {
        Locale::En => "en"@,
        Locale::Zh => "zh"@,
    }
}

pub open spec fn locale_native_name(l: Locale) -> Seq<char> {
    match l {
        Locale::En => "English"@,
        Locale::Zh => "简体中文"@,
    }
}

pub open spec fn locale_english_name(l: Locale) -> Seq<char> {
    match l {
        Locale::En => "English"@,
        Locale::Zh => "Chinese (Simplified)"@,
    }
}

/// The locale a stored or detected language code selects: codes starting with
/// `zh` in any letter case are Simplified Chinese, everything else English.
pub open spec fn locale_from_code(code: Seq<char>) -> Locale {
    if has_prefix(ascii_lower_seq(code), "zh"@) { Locale::Zh } else { Locale::En }
}

impl Locale {
    /// Every supported locale, in menu order.
    pub fn all() -> (r: Vec<Locale>)
        ensures
            r@ == all_locales(),
    {
        let r = vec![Locale::En, Locale::Zh];
        assert(r@ =~= all_locales());
        r
    }

    /// The locale code, used for persistence and `<html lang>`.
    pub fn code(self) -> (r: &'static str)
        ensures
            r@ == locale_code(self),
    {
        match self {
            Locale::En => "en",
            Locale::Zh => "zh",
        }
    }

    /// The language's own name, shown in the picker.
    pub fn native_name(self) -> (r: &'static str)
        ensures
            r@ == locale_native_name(self),
    {
        match self {
            Locale::En => "English",
            Locale::Zh => "简体中文",
        }
    }

    /// The language's English name, also matched by the picker's search.
    pub fn english_name(self) -> (r: &'static str)
        ensures
            r@ == locale_english_name(self),
    {
        match self {
            Locale::En => "English",
            Locale::Zh => "Chinese (Simplified)",
        }
    }

    /// The locale a stored or detected code selects (`zh`, `zh-CN`, `ZH-tw`
    /// select Chinese; anything else English).
    pub fn from_code(code: &str) -> (r: Locale)
        ensures
            r == locale_from_code(code@),
    {
        let lowered = ascii_lower_chars(&chars_of(code));
        let zh = chars_of("zh");
        if starts_with_chars(&lowered, &zh) { Locale::Zh } else { Locale::En }
    }
}

/// A persisted code restores the locale it was saved from.
pub proof fn law_code_round_trip(l: Locale)
    ensures
        locale_from_code(locale_code(l)) == l,
{
    reveal_strlit("en");
    reveal_strlit("zh");
    assert(ascii_lower_seq("en"@) =~= "en"@);
    assert(ascii_lower_seq("zh"@) =~= "zh"@);
    assert("zh"@.subrange(0, 2) =~= "zh"@);
    if l == Locale::En {
        assert("en"@.subrange(0, 2) != "zh"@) by {
            assert("en"@.subrange(0, 2)[0] != "zh"@[0]);
        }
    }
}

/// The English string table: the baseline, complete for every key the
/// screens ask for.
pub const EN: [(&'static str, &'static str); 257] = [
    ("app.brand", "DeployKeys Desktop"),
    ("app.tagline", "Target-based GitHub Deploy Keys Manager"),
    ("common.cancel", "Cancel"),
    ("common.confirm", "Confirm"),
    ("common.sign_out", "Sign out"),
    ("connect.actions", "Actions"),
    ("connect.add", "Add connection"),
    ("connect.add_help", "Server connections are coming soon"),
    ("connect.connect", "Connect"),
    ("connect.connect_success", "Connected to {}"),
    ("connect.delete", "Delete"),
    ("connect.disconnect", "Disconnect"),
    ("connect.disconnect_success", "Disconnected from {}"),
    ("connect.edit", "Edit"),
    ("connect.filter_status_all", "All statuses"),
    ("connect.filter_type_all", "All types"),
    ("connect.local_locked", "The local connection cannot be removed"),
    ("connect.local_name", "This device"),
    ("connect.name", "Name"),
    ("connect.no_match", "No connections match the filters"),
    ("connect.required_hint", "Connect to an environment first"),
    ("connect.search_placeholder", "Search connections"),
    ("connect.status", "Status"),
    ("connect.status_connected", "Connected"),
    ("connect.status_offline", "Offline"),
    ("connect.title", "Connect"),
    ("connect.type", "Type"),
    ("connect.type_local", "Local"),
    ("date.month_april", "April"),
    ("date.month_august", "August"),
    ("date.month_december", "December"),
    ("date.month_february", "February"),
    ("date.month_january", "January"),
    ("date.month_july", "July"),
    ("date.month_june", "June"),
    ("date.month_march", "March"),
    ("date.month_may", "May"),
    ("date.month_november", "November"),
    ("date.month_october", "October"),
    ("date.month_september", "September"),
    ("date.next_month", "Next month"),
    ("date.previous_month", "Previous month"),
    ("date.week_friday", "Fr"),
    ("date.week_monday", "Mo"),
    ("date.week_saturday", "Sa"),
    ("date.week_sunday", "Su"),
    ("date.week_thursday", "Th"),
    ("date.week_tuesday", "Tu"),
    ("date.week_wednesday", "We"),
    ("keys.actions", "Actions"),
    ("keys.algorithm", "Algorithm"),
    ("keys.algorithm_ed25519", "Ed25519 (recommended)"),
    ("keys.algorithm_rsa2048", "RSA 2048"),
    ("keys.algorithm_rsa4096", "RSA 4096"),
    ("keys.copy_public_key", "Copy public key"),
    ("keys.copy_success", "Public key copied"),
    ("keys.create", "Create key"),
    ("keys.create_success", "Key created"),
    ("keys.created_at", "Created"),
    ("keys.creating", "Creating…"),
    ("keys.delete", "Delete"),
    ("keys.delete_confirm_message", "This deletes the key pair and its files. This cannot be undone."),
    ("keys.delete_confirm_title", "Delete this key?"),
    ("keys.delete_success", "Key deleted"),
    ("keys.dialog_algorithm_help", "Ed25519 is short and fast; choose RSA only for older servers."),
    ("keys.dialog_algorithm_label", "Algorithm"),
    ("keys.dialog_cancel", "Cancel"),
    ("keys.dialog_comment_help", "Stored in the public key to recognise it later."),
    ("keys.dialog_comment_label", "Comment"),
    ("keys.dialog_comment_placeholder", "e.g. deploy@server"),
    ("keys.dialog_directory_help", "Folder under the key storage where the key files are written."),
    ("keys.dialog_directory_label", "Directory"),
    ("keys.dialog_directory_placeholder", "e.g. my-project"),
    ("keys.dialog_edit_submit", "Save"),
    ("keys.dialog_editing", "Saving…"),
    ("keys.dialog_remark_label", "Remark"),
    ("keys.dialog_remark_placeholder", "Optional note"),
    ("keys.dialog_submit", "Create"),
    ("keys.dialog_title_create", "Create SSH key"),
    ("keys.dialog_title_edit", "Edit SSH key"),
    ("keys.directory", "Directory"),
    ("keys.edit", "Edit"),
    ("keys.edit_success", "Key updated"),
    ("keys.empty", "No keys yet"),
    ("keys.filter_algorithm_all", "All algorithms"),
    ("keys.filter_created_from", "From"),
    ("keys.filter_created_to", "Until"),
    ("keys.filter_date_all", "All dates"),
    ("keys.missing_confirm_message", "The key files are gone from disk. Remove this record?"),
    ("keys.missing_confirm_title", "Key files missing"),
    ("keys.no_connection", "Connect to an environment to manage its keys"),
    ("keys.no_match", "No keys match the filters"),
    ("keys.remark", "Remark"),
    ("keys.required", "Please fill in the required fields"),
    ("keys.search_placeholder", "Search keys"),
    ("keys.sort_created_at_asc", "Sort oldest first"),
    ("keys.sort_created_at_desc", "Sort newest first"),
    ("keys.title", "SSH keys"),
    ("nav.connect", "Connect"),
    ("nav.keys", "Keys"),
    ("nav.repos", "Repositories"),
    ("oauth.copy", "Copy"),
    ("oauth.instruction", "Open the link and enter the code to authorise this app."),
    ("oauth.step_code", "Enter this code"),
    ("oauth.step_visit", "Visit"),
    ("oauth.title", "Authorise with GitHub"),
    ("oauth.waiting", "Waiting for authorisation…"),
    ("palette.change_language", "Change language"),
    ("palette.close", "Close"),
    ("palette.empty_history", "No recent searches"),
    ("palette.navigate", "Navigate"),
    ("palette.no_results", "No results found"),
    ("palette.placeholder", "Type a command or search..."),
    ("palette.select", "Select"),
    ("palette.toggle_theme", "Toggle theme"),
    ("palette.trigger", "Search"),
    ("quick_routes.feedback", "Feedback"),
    ("quick_routes.github_repository", "GitHub"),
    ("quick_routes.support", "Technical support"),
    ("quick_routes.title", "Quick routes"),
    ("repos.actions", "Actions"),
    ("repos.all", "All"),
    ("repos.all_languages", "All languages"),
    ("repos.bind_dialog_authorization_help", "Write access lets the key push to the repository."),
    ("repos.bind_dialog_authorization_label", "Access"),
    ("repos.bind_dialog_key_label", "SSH key"),
    ("repos.bind_dialog_no_keys", "No keys yet. Create one on the Keys page."),
    ("repos.bind_dialog_pull", "Read only"),
    ("repos.bind_dialog_push", "Read and write"),
    ("repos.bind_dialog_submit", "Bind"),
    ("repos.bind_dialog_title", "Bind deploy key"),
    ("repos.bind_key", "Bind key"),
    ("repos.bind_key_required", "Choose a key to bind"),
    ("repos.bind_success", "Deploy key bound"),
    ("repos.clone_clear", "Clear finished"),
    ("repos.clone_dialog_title", "Choose where to clone {}"),
    ("repos.clone_no_log", "No output yet"),
    ("repos.clone_no_match", "No tasks match the filters"),
    ("repos.clone_range_12h", "Last 12 hours"),
    ("repos.clone_range_15d", "Last 15 days"),
    ("repos.clone_range_180d", "Last 180 days"),
    ("repos.clone_range_24h", "Last 24 hours"),
    ("repos.clone_range_30d", "Last 30 days"),
    ("repos.clone_range_365d", "Last 365 days"),
    ("repos.clone_range_5h", "Last 5 hours"),
    ("repos.clone_range_7d", "Last 7 days"),
    ("repos.clone_range_all", "All time"),
    ("repos.clone_repository", "Clone"),
    ("repos.clone_search_placeholder", "Search repository or path"),
    ("repos.clone_status_failed", "Failed"),
    ("repos.clone_status_running", "Running"),
    ("repos.clone_status_succeeded", "Done"),
    ("repos.clone_tasks", "Clone tasks"),
    ("repos.clone_tasks_empty", "No clone tasks yet"),
    ("repos.clone_tasks_subtitle", "Clones started from this app"),
    ("repos.clone_tasks_title", "Clone tasks"),
    ("repos.connect_remote", "Use deploy key remote"),
    ("repos.connect_success", "Remote updated to the deploy key"),
    ("repos.empty", "No repositories yet. Click Refresh to sync from GitHub."),
    ("repos.go_to_page_after", ""),
    ("repos.go_to_page_before", "Go to page "),
    ("repos.language", "Language"),
    ("repos.more_actions", "More actions"),
    ("repos.no_match", "No repositories match the current filters."),
    ("repos.other", "Other"),
    ("repos.page_size", "Per page"),
    ("repos.page_size_unit", "items"),
    ("repos.private", "Private"),
    ("repos.public", "Public"),
    ("repos.remote_clone_directory", "Directory on the server"),
    ("repos.remote_clone_path_required", "Enter a directory"),
    ("repos.remote_clone_title", "Clone on the server"),
    ("repos.repository", "Repository"),
    ("repos.search_placeholder", "Search repositories"),
    ("repos.sign_in_required", "Sign in with GitHub to sync your repositories."),
    ("repos.sync", "Sync"),
    ("repos.sync_success", "Repositories synced"),
    ("repos.test_remote", "Test remote"),
    ("repos.test_success", "Remote reachable"),
    ("repos.total", "Total {}"),
    ("repos.visibility", "Visibility"),
    ("search.clear", "Clear"),
    ("settings.back", "Back"),
    ("settings.choose_folder", "Choose folder"),
    ("settings.config_file", "SSH config"),
    ("settings.config_placeholder", "# ~/.ssh/config"),
    ("settings.config_saved", "SSH config saved"),
    ("settings.general", "General"),
    ("settings.key_storage", "Key storage"),
    ("settings.key_storage_help", "Folder where new keys are created."),
    ("settings.key_storage_placeholder", "~/.ssh/deploykeys"),
    ("settings.key_storage_saved", "Key storage saved"),
    ("settings.language", "Language"),
    ("settings.language_changed", "Language changed"),
    ("settings.language_no_results", "No matching language"),
    ("settings.language_search_placeholder", "Search languages"),
    ("settings.reload", "Reload"),
    ("settings.save", "Save"),
    ("settings.theme", "Theme"),
    ("settings.theme_dark", "Dark"),
    ("settings.theme_light", "Light"),
    ("settings.theme_system", "System"),
    ("settings.title", "Settings"),
    ("sidebar.collapse", "Collapse sidebar"),
    ("sidebar.expand", "Expand sidebar"),
    ("sign_out.confirm_message", "You can sign in again with a token at any time."),
    ("sign_out.confirm_title", "Sign out?"),
    ("sign_out.success", "Signed out"),
    ("signin.create_token", "Create a token on GitHub →"),
    ("signin.instruction", "Paste your GitHub fine-grained access token."),
    ("signin.permissions_help", "Administration (Read and write) + Metadata (Read)"),
    ("signin.repository_access_help", "Choose an appropriate repository scope or selected repositories for your situation."),
    ("signin.resource_owner_help", "Choose your personal account or organization."),
    ("signin.submit", "Sign in"),
    ("signin.success", "Signed in"),
    ("signin.title", "Sign in with a token"),
    ("signin.token_label", "Access token"),
    ("tutorial.bind_key.body", "Bind a key to a repository as its deploy key."),
    ("tutorial.bind_key.title", "Bind a deploy key"),
    ("tutorial.clone_repo.body", "Clone the repository with its deploy key."),
    ("tutorial.clone_repo.title", "Clone"),
    ("tutorial.close", "Close"),
    ("tutorial.connect.body", "Pick the environment where keys live."),
    ("tutorial.connect.title", "Choose a connection"),
    ("tutorial.connect_repo.body", "Point an existing clone at the deploy-key remote."),
    ("tutorial.connect_repo.title", "Switch the remote"),
    ("tutorial.create_key.body", "Create an SSH key on the connected environment."),
    ("tutorial.create_key.title", "Create a key"),
    ("tutorial.demo_ready", "Ready"),
    ("tutorial.finish", "Finish"),
    ("tutorial.next", "Next"),
    ("tutorial.open", "Tutorial"),
    ("tutorial.previous", "Previous"),
    ("tutorial.signin.body", "Sign in with a GitHub token to list your repositories."),
    ("tutorial.signin.title", "Sign in"),
    ("tutorial.skip", "Skip"),
    ("tutorial.step_count", "Step {current} of {total}"),
    ("tutorial.sync.body", "Sync to fetch your repositories from GitHub."),
    ("tutorial.sync.title", "Sync repositories"),
    ("tutorial.test_repo.body", "Check that the clone reaches GitHub with the key."),
    ("tutorial.test_repo.title", "Test the remote"),
    ("welcome.sign_in", "Sign in with GitHub"),
    ("welcome.signing_in", "Connecting…"),
    ("nav.home", "Home"),
    ("repos.archived", "Archived"),
    ("repos.count", "repositories"),
    ("repos.filter_language", "Language"),
    ("repos.filter_visibility", "Visibility"),
    ("repos.items", "items"),
    ("repos.loading", "Loading…"),
    ("repos.page_of", "Page {page} of {pages}"),
    ("repos.syncing", "Syncing…"),
    ("screen.placeholder_phase4", "This screen will be implemented in Phase 4"),
    ("search.placeholder", "Search"),
    ("session.not_signed_in", "Not signed in"),
    ("settings.placeholder", "Settings"),
    ("signin.submitting", "Signing in…"),
];


/// The Simplified Chinese string table.
pub const ZH: [(&'static str, &'static str); 257] = [
    ("app.brand", "DeployKeys Desktop"),
    ("app.tagline", "基于目标环境的 GitHub Deploy Keys 管理器"),
    ("common.cancel", "取消"),
    ("common.confirm", "确认"),
    ("common.sign_out", "退出登录"),
    ("connect.actions", "操作"),
    ("connect.add", "添加连接"),
    ("connect.add_help", "服务器连接即将推出"),
    ("connect.connect", "连接"),
    ("connect.connect_success", "已连接到 {}"),
    ("connect.delete", "删除"),
    ("connect.disconnect", "断开连接"),
    ("connect.disconnect_success", "已断开 {}"),
    ("connect.edit", "编辑"),
    ("connect.filter_status_all", "全部状态"),
    ("connect.filter_type_all", "全部类型"),
    ("connect.local_locked", "本机连接不可删除"),
    ("connect.local_name", "本机"),
    ("connect.name", "名称"),
    ("connect.no_match", "没有符合筛选条件的连接"),
    ("connect.required_hint", "请先连接一个环境"),
    ("connect.search_placeholder", "搜索连接"),
    ("connect.status", "状态"),
    ("connect.status_connected", "已连接"),
    ("connect.status_offline", "离线"),
    ("connect.title", "连接"),
    ("connect.type", "类型"),
    ("connect.type_local", "本地"),
    ("date.month_april", "四月"),
    ("date.month_august", "八月"),
    ("date.month_december", "十二月"),
    ("date.month_february", "二月"),
    ("date.month_january", "一月"),
    ("date.month_july", "七月"),
    ("date.month_june", "六月"),
    ("date.month_march", "三月"),
    ("date.month_may", "五月"),
    ("date.month_november", "十一月"),
    ("date.month_october", "十月"),
    ("date.month_september", "九月"),
    ("date.next_month", "下个月"),
    ("date.previous_month", "上个月"),
    ("date.week_friday", "五"),
    ("date.week_monday", "一"),
    ("date.week_saturday", "六"),
    ("date.week_sunday", "日"),
    ("date.week_thursday", "四"),
    ("date.week_tuesday", "二"),
    ("date.week_wednesday", "三"),
    ("keys.actions", "操作"),
    ("keys.algorithm", "算法"),
    ("keys.algorithm_ed25519", "Ed25519（推荐）"),
    ("keys.algorithm_rsa2048", "RSA 2048"),
    ("keys.algorithm_rsa4096", "RSA 4096"),
    ("keys.copy_public_key", "复制公钥"),
    ("keys.copy_success", "公钥已复制"),
    ("keys.create", "创建密钥"),
    ("keys.create_success", "密钥已创建"),
    ("keys.created_at", "创建时间"),
    ("keys.creating", "创建中…"),
    ("keys.delete", "删除"),
    ("keys.delete_confirm_message", "这将删除密钥对及其文件，且无法撤销。"),
    ("keys.delete_confirm_title", "删除此密钥？"),
    ("keys.delete_success", "密钥已删除"),
    ("keys.dialog_algorithm_help", "Ed25519 短小且快速；仅在旧服务器上选择 RSA。"),
    ("keys.dialog_algorithm_label", "算法"),
    ("keys.dialog_cancel", "取消"),
    ("keys.dialog_comment_help", "写入公钥，便于日后识别。"),
    ("keys.dialog_comment_label", "注释"),
    ("keys.dialog_comment_placeholder", "例如 deploy@server"),
    ("keys.dialog_directory_help", "密钥文件写入密钥存储下的此文件夹。"),
    ("keys.dialog_directory_label", "目录"),
    ("keys.dialog_directory_placeholder", "例如 my-project"),
    ("keys.dialog_edit_submit", "保存"),
    ("keys.dialog_editing", "保存中…"),
    ("keys.dialog_remark_label", "备注"),
    ("keys.dialog_remark_placeholder", "可选备注"),
    ("keys.dialog_submit", "创建"),
    ("keys.dialog_title_create", "创建 SSH 密钥"),
    ("keys.dialog_title_edit", "编辑 SSH 密钥"),
    ("keys.directory", "目录"),
    ("keys.edit", "编辑"),
    ("keys.edit_success", "密钥已更新"),
    ("keys.empty", "暂无密钥"),
    ("keys.filter_algorithm_all", "全部算法"),
    ("keys.filter_created_from", "起始"),
    ("keys.filter_created_to", "截至"),
    ("keys.filter_date_all", "全部日期"),
    ("keys.missing_confirm_message", "密钥文件已不在磁盘上。要移除此记录吗？"),
    ("keys.missing_confirm_title", "密钥文件缺失"),
    ("keys.no_connection", "连接一个环境以管理其密钥"),
    ("keys.no_match", "没有符合筛选条件的密钥"),
    ("keys.remark", "备注"),
    ("keys.required", "请填写必填项"),
    ("keys.search_placeholder", "搜索密钥"),
    ("keys.sort_created_at_asc", "按创建时间升序"),
    ("keys.sort_created_at_desc", "按创建时间降序"),
    ("keys.title", "SSH 密钥"),
    ("nav.connect", "连接"),
    ("nav.keys", "密钥"),
    ("nav.repos", "仓库"),
    ("oauth.copy", "复制"),
    ("oauth.instruction", "打开链接并输入代码以授权本应用。"),
    ("oauth.step_code", "输入此代码"),
    ("oauth.step_visit", "访问"),
    ("oauth.title", "使用 GitHub 授权"),
    ("oauth.waiting", "等待授权…"),
    ("palette.change_language", "切换语言"),
    ("palette.close", "关闭"),
    ("palette.empty_history", "无搜索记录"),
    ("palette.navigate", "导航"),
    ("palette.no_results", "无结果"),
    ("palette.placeholder", "输入命令或搜索..."),
    ("palette.select", "选择"),
    ("palette.toggle_theme", "切换主题"),
    ("palette.trigger", "搜索"),
    ("quick_routes.feedback", "反馈意见"),
    ("quick_routes.github_repository", "GitHub"),
    ("quick_routes.support", "技术支持"),
    ("quick_routes.title", "快速路由"),
    ("repos.actions", "操作"),
    ("repos.all", "全部"),
    ("repos.all_languages", "全部语言"),
    ("repos.bind_dialog_authorization_help", "写权限允许该密钥推送到仓库。"),
    ("repos.bind_dialog_authorization_label", "权限"),
    ("repos.bind_dialog_key_label", "SSH 密钥"),
    ("repos.bind_dialog_no_keys", "暂无密钥。请在密钥页面创建。"),
    ("repos.bind_dialog_pull", "只读"),
    ("repos.bind_dialog_push", "读写"),
    ("repos.bind_dialog_submit", "绑定"),
    ("repos.bind_dialog_title", "绑定部署密钥"),
    ("repos.bind_key", "绑定密钥"),
    ("repos.bind_key_required", "请选择要绑定的密钥"),
    ("repos.bind_success", "部署密钥已绑定"),
    ("repos.clone_clear", "清除已完成"),
    ("repos.clone_dialog_title", "选择 {} 的克隆位置"),
    ("repos.clone_no_log", "暂无输出"),
    ("repos.clone_no_match", "没有符合筛选条件的任务"),
    ("repos.clone_range_12h", "最近 12 小时"),
    ("repos.clone_range_15d", "最近 15 天"),
    ("repos.clone_range_180d", "最近 180 天"),
    ("repos.clone_range_24h", "最近 24 小时"),
    ("repos.clone_range_30d", "最近 30 天"),
    ("repos.clone_range_365d", "最近 365 天"),
    ("repos.clone_range_5h", "最近 5 小时"),
    ("repos.clone_range_7d", "最近 7 天"),
    ("repos.clone_range_all", "全部时间"),
    ("repos.clone_repository", "克隆"),
    ("repos.clone_search_placeholder", "搜索仓库或路径"),
    ("repos.clone_status_failed", "失败"),
    ("repos.clone_status_running", "进行中"),
    ("repos.clone_status_succeeded", "完成"),
    ("repos.clone_tasks", "克隆任务"),
    ("repos.clone_tasks_empty", "暂无克隆任务"),
    ("repos.clone_tasks_subtitle", "从本应用发起的克隆"),
    ("repos.clone_tasks_title", "克隆任务"),
    ("repos.connect_remote", "使用部署密钥远程地址"),
    ("repos.connect_success", "远程地址已切换为部署密钥"),
    ("repos.empty", "暂无仓库。点击刷新从 GitHub 同步。"),
    ("repos.go_to_page_after", "页"),
    ("repos.go_to_page_before", "前往第"),
    ("repos.language", "语言"),
    ("repos.more_actions", "更多操作"),
    ("repos.no_match", "没有符合当前筛选条件的仓库。"),
    ("repos.other", "其他"),
    ("repos.page_size", "每页"),
    ("repos.page_size_unit", "条"),
    ("repos.private", "私有"),
    ("repos.public", "公开"),
    ("repos.remote_clone_directory", "服务器上的目录"),
    ("repos.remote_clone_path_required", "请输入目录"),
    ("repos.remote_clone_title", "在服务器上克隆"),
    ("repos.repository", "仓库"),
    ("repos.search_placeholder", "搜索仓库"),
    ("repos.sign_in_required", "使用 GitHub 登录以同步你的仓库"),
    ("repos.sync", "同步"),
    ("repos.sync_success", "仓库已同步"),
    ("repos.test_remote", "测试远程连接"),
    ("repos.test_success", "远程地址可访问"),
    ("repos.total", "共 {} 条"),
    ("repos.visibility", "可见性"),
    ("search.clear", "清除"),
    ("settings.back", "返回"),
    ("settings.choose_folder", "选择文件夹"),
    ("settings.config_file", "SSH 配置"),
    ("settings.config_placeholder", "# ~/.ssh/config"),
    ("settings.config_saved", "SSH 配置已保存"),
    ("settings.general", "通用"),
    ("settings.key_storage", "密钥存储"),
    ("settings.key_storage_help", "新密钥创建所在的文件夹。"),
    ("settings.key_storage_placeholder", "~/.ssh/deploykeys"),
    ("settings.key_storage_saved", "密钥存储已保存"),
    ("settings.language", "语言"),
    ("settings.language_changed", "语言已切换"),
    ("settings.language_no_results", "没有匹配的语言"),
    ("settings.language_search_placeholder", "搜索语言"),
    ("settings.reload", "重新加载"),
    ("settings.save", "保存"),
    ("settings.theme", "主题"),
    ("settings.theme_dark", "深色"),
    ("settings.theme_light", "浅色"),
    ("settings.theme_system", "跟随系统"),
    ("settings.title", "设置"),
    ("sidebar.collapse", "收起菜单"),
    ("sidebar.expand", "展开菜单"),
    ("sign_out.confirm_message", "你可以随时使用令牌重新登录。"),
    ("sign_out.confirm_title", "退出登录？"),
    ("sign_out.success", "已退出登录"),
    ("signin.create_token", "在 GitHub 上创建令牌 →"),
    ("signin.instruction", "粘贴您的 GitHub fine-grained 访问令牌。"),
    ("signin.permissions_help", "Administration（读写）+ Metadata（读）"),
    ("signin.repository_access_help", "根据你的实际情况选择合适的仓库范围或指定仓库"),
    ("signin.resource_owner_help", "选择个人或您的组织"),
    ("signin.submit", "登录"),
    ("signin.success", "登录成功"),
    ("signin.title", "用令牌登录"),
    ("signin.token_label", "访问令牌"),
    ("tutorial.bind_key.body", "将密钥绑定到仓库作为部署密钥。"),
    ("tutorial.bind_key.title", "绑定部署密钥"),
    ("tutorial.clone_repo.body", "使用部署密钥克隆仓库。"),
    ("tutorial.clone_repo.title", "克隆"),
    ("tutorial.close", "关闭"),
    ("tutorial.connect.body", "选择密钥所在的环境。"),
    ("tutorial.connect.title", "选择连接"),
    ("tutorial.connect_repo.body", "将已有克隆的远程地址切换为部署密钥。"),
    ("tutorial.connect_repo.title", "切换远程地址"),
    ("tutorial.create_key.body", "在已连接的环境中创建 SSH 密钥。"),
    ("tutorial.create_key.title", "创建密钥"),
    ("tutorial.demo_ready", "就绪"),
    ("tutorial.finish", "完成"),
    ("tutorial.next", "下一步"),
    ("tutorial.open", "教程"),
    ("tutorial.previous", "上一步"),
    ("tutorial.signin.body", "使用 GitHub 令牌登录以列出你的仓库。"),
    ("tutorial.signin.title", "登录"),
    ("tutorial.skip", "跳过"),
    ("tutorial.step_count", "第 {current} 步，共 {total} 步"),
    ("tutorial.sync.body", "同步以从 GitHub 获取你的仓库。"),
    ("tutorial.sync.title", "同步仓库"),
    ("tutorial.test_repo.body", "检查克隆能否通过该密钥访问 GitHub。"),
    ("tutorial.test_repo.title", "测试远程连接"),
    ("welcome.sign_in", "使用 GitHub 登录"),
    ("welcome.signing_in", "正在连接…"),
    ("nav.home", "主页"),
    ("repos.archived", "已归档"),
    ("repos.count", "个仓库"),
    ("repos.filter_language", "语言"),
    ("repos.filter_visibility", "可见性"),
    ("repos.items", "条"),
    ("repos.loading", "加载中…"),
    ("repos.page_of", "第 {page} 页，共 {pages} 页"),
    ("repos.syncing", "同步中…"),
    ("screen.placeholder_phase4", "此界面将在 Phase 4 实现"),
    ("search.placeholder", "搜索"),
    ("session.not_signed_in", "未登录"),
    ("settings.placeholder", "设置"),
    ("signin.submitting", "登录中…"),
];

/// The keys the screens pass to the string lookup, in text order.
pub open spec fn ui_keys() -> Seq<Seq<char>> {
    seq![
        "app.brand"@,
        "app.tagline"@,
        "common.cancel"@,
        "common.confirm"@,
        "common.sign_out"@,
        "connect.actions"@,
        "connect.add"@,
        "connect.add_help"@,
        "connect.connect"@,
        "connect.connect_success"@,
        "connect.delete"@,
        "connect.disconnect"@,
        "connect.disconnect_success"@,
        "connect.edit"@,
        "connect.filter_status_all"@,
        "connect.filter_type_all"@,
        "connect.local_locked"@,
        "connect.local_name"@,
        "connect.name"@,
        "connect.no_match"@,
        "connect.required_hint"@,
        "connect.search_placeholder"@,
        "connect.status"@,
        "connect.status_connected"@,
        "connect.status_offline"@,
        "connect.title"@,
        "connect.type"@,
        "connect.type_local"@,
        "date.month_april"@,
        "date.month_august"@,
        "date.month_december"@,
        "date.month_february"@,
        "date.month_january"@,
        "date.month_july"@,
        "date.month_june"@,
        "date.month_march"@,
        "date.month_may"@,
        "date.month_november"@,
        "date.month_october"@,
        "date.month_september"@,
        "date.next_month"@,
        "date.previous_month"@,
        "date.week_friday"@,
        "date.week_monday"@,
        "date.week_saturday"@,
        "date.week_sunday"@,
        "date.week_thursday"@,
        "date.week_tuesday"@,
        "date.week_wednesday"@,
        "keys.actions"@,
        "keys.algorithm"@,
        "keys.algorithm_ed25519"@,
        "keys.algorithm_rsa2048"@,
        "keys.algorithm_rsa4096"@,
        "keys.copy_public_key"@,
        "keys.copy_success"@,
        "keys.create"@,
        "keys.create_success"@,
        "keys.created_at"@,
        "keys.creating"@,
        "keys.delete"@,
        "keys.delete_confirm_message"@,
        "keys.delete_confirm_title"@,
        "keys.delete_success"@,
        "keys.dialog_algorithm_help"@,
        "keys.dialog_algorithm_label"@,
        "keys.dialog_cancel"@,
        "keys.dialog_comment_help"@,
        "keys.dialog_comment_label"@,
        "keys.dialog_comment_placeholder"@,
        "keys.dialog_directory_help"@,
        "keys.dialog_directory_label"@,
        "keys.dialog_directory_placeholder"@,
        "keys.dialog_edit_submit"@,
        "keys.dialog_editing"@,
        "keys.dialog_remark_label"@,
        "keys.dialog_remark_placeholder"@,
        "keys.dialog_submit"@,
        "keys.dialog_title_create"@,
        "keys.dialog_title_edit"@,
        "keys.directory"@,
        "keys.edit"@,
        "keys.edit_success"@,
        "keys.empty"@,
        "keys.filter_algorithm_all"@,
        "keys.filter_created_from"@,
        "keys.filter_created_to"@,
        "keys.filter_date_all"@,
        "keys.missing_confirm_message"@,
        "keys.missing_confirm_title"@,
        "keys.no_connection"@,
        "keys.no_match"@,
        "keys.remark"@,
        "keys.required"@,
        "keys.search_placeholder"@,
        "keys.sort_created_at_asc"@,
        "keys.sort_created_at_desc"@,
        "keys.title"@,
        "nav.connect"@,
        "nav.keys"@,
        "nav.repos"@,
        "oauth.copy"@,
        "oauth.instruction"@,
        "oauth.step_code"@,
        "oauth.step_visit"@,
        "oauth.title"@,
        "oauth.waiting"@,
        "palette.change_language"@,
        "palette.close"@,
        "palette.empty_history"@,
        "palette.navigate"@,
        "palette.no_results"@,
        "palette.placeholder"@,
        "palette.select"@,
        "palette.toggle_theme"@,
        "palette.trigger"@,
        "quick_routes.feedback"@,
        "quick_routes.github_repository"@,
        "quick_routes.support"@,
        "quick_routes.title"@,
        "repos.actions"@,
        "repos.all"@,
        "repos.all_languages"@,
        "repos.bind_dialog_authorization_help"@,
        "repos.bind_dialog_authorization_label"@,
        "repos.bind_dialog_key_label"@,
        "repos.bind_dialog_no_keys"@,
        "repos.bind_dialog_pull"@,
        "repos.bind_dialog_push"@,
        "repos.bind_dialog_submit"@,
        "repos.bind_dialog_title"@,
        "repos.bind_key"@,
        "repos.bind_key_required"@,
        "repos.bind_success"@,
        "repos.clone_clear"@,
        "repos.clone_dialog_title"@,
        "repos.clone_no_log"@,
        "repos.clone_no_match"@,
        "repos.clone_range_12h"@,
        "repos.clone_range_15d"@,
        "repos.clone_range_180d"@,
        "repos.clone_range_24h"@,
        "repos.clone_range_30d"@,
        "repos.clone_range_365d"@,
        "repos.clone_range_5h"@,
        "repos.clone_range_7d"@,
        "repos.clone_range_all"@,
        "repos.clone_repository"@,
        "repos.clone_search_placeholder"@,
        "repos.clone_status_failed"@,
        "repos.clone_status_running"@,
        "repos.clone_status_succeeded"@,
        "repos.clone_tasks"@,
        "repos.clone_tasks_empty"@,
        "repos.clone_tasks_subtitle"@,
        "repos.clone_tasks_title"@,
        "repos.connect_remote"@,
        "repos.connect_success"@,
        "repos.empty"@,
        "repos.go_to_page_after"@,
        "repos.go_to_page_before"@,
        "repos.language"@,
        "repos.more_actions"@,
        "repos.no_match"@,
        "repos.other"@,
        "repos.page_size"@,
        "repos.page_size_unit"@,
        "repos.private"@,
        "repos.public"@,
        "repos.remote_clone_directory"@,
        "repos.remote_clone_path_required"@,
        "repos.remote_clone_title"@,
        "repos.repository"@,
        "repos.search_placeholder"@,
        "repos.sign_in_required"@,
        "repos.sync"@,
        "repos.sync_success"@,
        "repos.test_remote"@,
        "repos.test_success"@,
        "repos.total"@,
        "repos.visibility"@,
        "search.clear"@,
        "settings.back"@,
        "settings.choose_folder"@,
        "settings.config_file"@,
        "settings.config_placeholder"@,
        "settings.config_saved"@,
        "settings.general"@,
        "settings.key_storage"@,
        "settings.key_storage_help"@,
        "settings.key_storage_placeholder"@,
        "settings.key_storage_saved"@,
        "settings.language"@,
        "settings.language_changed"@,
        "settings.language_no_results"@,
        "settings.language_search_placeholder"@,
        "settings.reload"@,
        "settings.save"@,
        "settings.theme"@,
        "settings.theme_dark"@,
        "settings.theme_light"@,
        "settings.theme_system"@,
        "settings.title"@,
        "sidebar.collapse"@,
        "sidebar.expand"@,
        "sign_out.confirm_message"@,
        "sign_out.confirm_title"@,
        "sign_out.success"@,
        "signin.create_token"@,
        "signin.instruction"@,
        "signin.permissions_help"@,
        "signin.repository_access_help"@,
        "signin.resource_owner_help"@,
        "signin.submit"@,
        "signin.success"@,
        "signin.title"@,
        "signin.token_label"@,
        "tutorial.bind_key.body"@,
        "tutorial.bind_key.title"@,
        "tutorial.clone_repo.body"@,
        "tutorial.clone_repo.title"@,
        "tutorial.close"@,
        "tutorial.connect.body"@,
        "tutorial.connect.title"@,
        "tutorial.connect_repo.body"@,
        "tutorial.connect_repo.title"@,
        "tutorial.create_key.body"@,
        "tutorial.create_key.title"@,
        "tutorial.demo_ready"@,
        "tutorial.finish"@,
        "tutorial.next"@,
        "tutorial.open"@,
        "tutorial.previous"@,
        "tutorial.signin.body"@,
        "tutorial.signin.title"@,
        "tutorial.skip"@,
        "tutorial.step_count"@,
        "tutorial.sync.body"@,
        "tutorial.sync.title"@,
        "tutorial.test_repo.body"@,
        "tutorial.test_repo.title"@,
        "welcome.sign_in"@,
        "welcome.signing_in"@,
    ]
}

/// A string table as character sequences.
pub open spec fn table_view(t: Seq<(&'static str, &'static str)>) -> Seq<(Seq<char>, Seq<char>)> {
    t.map_values(|p: (&'static str, &'static str)| (p.0@, p.1@))
}

/// The value of the first entry of `t` with key `key`.
pub open spec fn table_lookup(t: Seq<(Seq<char>, Seq<char>)>, key: Seq<char>) -> Option<Seq<char>>
    decreases t.len(),
{
    if t.len() == 0 {
        None
    } else if t[0].0 == key {
        Some(t[0].1)
    } else {
        table_lookup(t.drop_first(), key)
    }
}

/// The table of a locale.
pub open spec fn locale_table(l: Locale) -> Seq<(Seq<char>, Seq<char>)> {
    match l {
        Locale::En => table_view(EN@),
        Locale::Zh => table_view(ZH@),
    }
}

/// The string shown for `key` in locale `l`: the locale's own entry, else the
/// English entry, else the key itself.
pub open spec fn translated(l: Locale, key: Seq<char>) -> Seq<char> {
    match table_lookup(locale_table(l), key) {
        Some(v) => v,
        None => match table_lookup(table_view(EN@), key) {
            Some(v) => v,
            None => key,
        },
    }
}

/// A key the locale's table lacks is shown in English, and a key no table
/// has is shown as the key itself, so a typo is visible rather than blank.
pub proof fn law_missing_key_falls_back(l: Locale, key: Seq<char>)
    requires
        table_lookup(locale_table(l), key) is None,
    ensures
        table_lookup(table_view(EN@), key) matches Some(v) ==> translated(l, key) == v,
        table_lookup(table_view(EN@), key) is None ==> translated(l, key) == key,
{
}

/// The keys of a string table, in order.
pub open spec fn table_keys(t: Seq<(Seq<char>, Seq<char>)>) -> Seq<Seq<char>> {
    t.map_values(|p: (Seq<char>, Seq<char>)| p.0)
}

/// Tables with the same keys in the same order find the same keys.
proof fn lemma_same_keys_same_lookups(a: Seq<(Seq<char>, Seq<char>)>, b: Seq<(Seq<char>, Seq<char>)>, key: Seq<char>)
    requires
        table_keys(a) == table_keys(b),
    ensures
        table_lookup(a, key) is Some <==> table_lookup(b, key) is Some,
    decreases a.len(),
{
    assert(a.len() == table_keys(a).len() && b.len() == table_keys(b).len());
    if a.len() > 0 {
        assert(a[0].0 == table_keys(a)[0] && b[0].0 == table_keys(b)[0]);
        assert(table_keys(a.drop_first()) =~= table_keys(a).drop_first());
        assert(table_keys(b.drop_first()) =~= table_keys(b).drop_first());
        lemma_same_keys_same_lookups(a.drop_first(), b.drop_first(), key);
    }
}

/// Every locale's table has exactly the keys of the English table, in the
/// same order, so a key is found in one exactly when it is found in the
/// other, and a translation only ever shows a key that no table has.
pub proof fn law_tables_share_keys(l: Locale, key: Seq<char>)
    ensures
        table_keys(locale_table(l)) == table_keys(table_view(EN@)),
        table_lookup(locale_table(l), key) is Some <==> table_lookup(table_view(EN@), key) is Some,
        translated(l, key) == key <== table_lookup(table_view(EN@), key) is None,
{
    assert(EN@.len() == 257 && ZH@.len() == 257);
    assert(forall|i: int| 0 <= i < 257 ==> #[trigger] EN@[i].0@ == ZH@[i].0@);
    assert(table_keys(table_view(ZH@)) =~= table_keys(table_view(EN@)));
    lemma_same_keys_same_lookups(locale_table(l), table_view(EN@), key);
}

proof fn lemma_present_is_found(t: Seq<(Seq<char>, Seq<char>)>, key: Seq<char>, j: int)
    requires
        0 <= j < t.len(),
        t[j].0 == key,
    ensures
        table_lookup(t, key) is Some,
    decreases j,
{
    if j > 0 && t[0].0 != key {
        lemma_present_is_found(t.drop_first(), key, j - 1);
    }
}

/// English is the baseline and complete: every key the screens ask for has
/// an English entry (and, by `law_tables_share_keys`, an entry in every
/// locale), so no screen ever shows a raw key.
pub proof fn law_english_covers_ui_keys(key: Seq<char>)
    requires
        ui_keys().contains(key),
    ensures
        table_lookup(table_view(EN@), key) is Some,
{
    assert(ui_keys().len() == 243 && EN@.len() == 257);
    assert(forall|i: int| 0 <= i < 243 ==> #[trigger] ui_keys()[i] == EN@[i].0@);
    let i = choose|i: int| 0 <= i < ui_keys().len() && ui_keys()[i] == key;
    assert(table_view(EN@)[i].0 == EN@[i].0@);
    lemma_present_is_found(table_view(EN@), key, i);
}

/// The value of the first entry of `table` with key `key`.
pub fn lookup(table: &[(&'static str, &'static str)], key: &str) -> (r: Option<&'static str>)
    ensures
        r is Some <==> table_lookup(table_view(table@), key@) is Some,
        r is Some ==> r->0@ == table_lookup(table_view(table@), key@)->0,
{
    let n = table.len();
    let ghost tv = table_view(table@);
    let mut i: usize = 0;
    assert(tv.subrange(0, n as int) =~= tv);
    while i < n
        invariant
            n == table@.len(),
            tv == table_view(table@),
            i <= n,
            table_lookup(tv, key@) == table_lookup(tv.subrange(i as int, n as int), key@),
        decreases n - i,
    {
        let ghost rest = tv.subrange(i as int, n as int);
        assert(rest[0] == (table@[i as int].0@, table@[i as int].1@));
        if str_eq(table[i].0, key) {
            return Some(table[i].1);
        }
        assert(rest.drop_first() =~= tv.subrange(i as int + 1, n as int));
        i = i + 1;
    }
    None
}

/// The string shown for `key` in locale `loc`, falling back to English and
/// then to the key itself.
pub fn translate<'a>(loc: Locale, key: &'a str) -> (r: &'a str)
    ensures
        r@ == translated(loc, key@),
{
    let own = match loc {
        Locale::En => lookup(&EN, key),
        Locale::Zh => lookup(&ZH, key),
    };
    match own {
        Some(v) => v,
        None => match lookup(&EN, key) {
            Some(v) => v,
            None => key,
        },
    }
}

/// Whether the picker's search `query` matches locale `l`: after trimming and
/// ASCII case folding, an empty query matches everything, otherwise the query
/// must occur in the native name, the English name or the code.
pub open spec fn locale_matches_query(l: Locale, query: Seq<char>) -> bool {
    let q = ascii_lower_seq(trim_seq(query));
    ||| q.len() == 0
    ||| has_infix(ascii_lower_seq(locale_native_name(l)), q)
    ||| has_infix(ascii_lower_seq(locale_english_name(l)), q)
    ||| has_infix(ascii_lower_seq(locale_code(l)), q)
}

/// Whether the picker's search `query` matches `loc`.
pub fn locale_matches(loc: Locale, query: &str) -> (r: bool)
    ensures
        r == locale_matches_query(loc, query@),
{
    let q = ascii_lower_chars(&trim(query));
    if q.len() == 0 {
        return true;
    }
    if contains_chars(&ascii_lower_chars(&chars_of(loc.native_name())), &q) {
        return true;
    }
    if contains_chars(&ascii_lower_chars(&chars_of(loc.english_name())), &q) {
        return true;
    }
    contains_chars(&ascii_lower_chars(&chars_of(loc.code())), &q)
}

/// The locales the picker lists for `query`, in menu order.
pub fn matching_locales(query: &str) -> (r: Vec<Locale>)
    ensures
        r@ == all_locales().filter(|l: Locale| locale_matches_query(l, query@)),
{
    let all = Locale::all();
    let ghost pred = |l: Locale| locale_matches_query(l, query@);
    let mut r: Vec<Locale> = Vec::new();
    let mut i: usize = 0;
    while i < all.len()
        invariant
            all@ == all_locales(),
            i <= all@.len(),
            pred == (|l: Locale| locale_matches_query(l, query@)),
            r@ == all@.take(i as int).filter(pred),
        decreases all@.len() - i,
    {
        reveal(Seq::filter);
        assert(all@.take(i as int + 1).drop_last() =~= all@.take(i as int));
        if locale_matches(all[i], query) {
            r.push(all[i]);
        }
        i = i + 1;
    }
    assert(all@.take(all@.len() as int) =~= all@);
    r
}

/// What to do once a language save finished. Selections can be clicked faster
/// than saves complete; when the active locale moved on meanwhile, the stored
/// value is repaired so a restart restores the language the user ended on.
#[derive(Debug, Clone, Copy, PartialEq, Eq, Structural)]
pub enum LanguageSaveFollowUp {
    /// Save the active locale again: an older save finished last.
    Resave(Locale),
    /// The save stuck: confirm the change to the user.
    Confirm,
    /// The save failed and nothing newer is pending: stay quiet.
    Nothing,
}

/// Switching to `next` while `current` is active: `None` when it is already
/// active (nothing to do), otherwise the code to persist.
pub fn language_switch(current: Locale, next: Locale) -> (r: Option<&'static str>)
    ensures
        current == next ==> r is None,
        current != next ==> r is Some && r->0@ == locale_code(next),
{
    if current == next {
        None
    } else {
        Some(next.code())
    }
}

/// The follow-up after saving `saved_code` finished, with `current` active now.
pub fn after_language_saved(current: Locale, saved_code: &str, saved_ok: bool) -> (r: LanguageSaveFollowUp)
    ensures
        locale_code(current) != saved_code@ ==> r == LanguageSaveFollowUp::Resave(current),
        locale_code(current) == saved_code@ && saved_ok ==> r == LanguageSaveFollowUp::Confirm,
        locale_code(current) == saved_code@ && !saved_ok ==> r == LanguageSaveFollowUp::Nothing,
{
    if !str_eq(current.code(), saved_code) {
        LanguageSaveFollowUp::Resave(current)
    } else if saved_ok {
        LanguageSaveFollowUp::Confirm
    } else {
        LanguageSaveFollowUp::Nothing
    }
}

/// Width of a picker row's label in characters: native name plus code.
pub open spec fn label_chars(l: Locale) -> nat {
    locale_native_name(l).len() + locale_code(l).len()
}

/// The widest content of the language menu in characters: the longest label
/// among the locales matching `query`, or the search placeholder if longer.
pub open spec fn menu_content_chars(matching: Seq<Locale>, placeholder: Seq<char>) -> nat
    decreases matching.len(),
{
    if matching.len() == 0 {
        placeholder.len()
    } else {
        let rest = menu_content_chars(matching.drop_last(), placeholder);
        let here = label_chars(matching.last());
        if here > rest { here } else { rest }
    }
}

/// The widest content of the language menu for `query`, in characters.
pub fn language_menu_chars(query: &str, placeholder: &str) -> (r: usize)
    ensures
        r == menu_content_chars(all_locales().filter(|l: Locale| locale_matches_query(l, query@)), placeholder@),
{
    let matching = matching_locales(query);
    let mut best: usize = placeholder.unicode_len();
    let mut i: usize = 0;
    while i < matching.len()
        invariant
            i <= matching@.len(),
            best == menu_content_chars(matching@.take(i as int), placeholder@),
        decreases matching@.len() - i,
    {
        assert(matching@.take(i as int + 1).drop_last() =~= matching@.take(i as int));
        let l = matching[i];
        proof {
            reveal_strlit("English");
            reveal_strlit("简体中文");
            reveal_strlit("en");
            reveal_strlit("zh");
        }
        let here = l.native_name().unicode_len() + l.code().unicode_len();
        if here > best {
            best = here;
        }
        i = i + 1;
    }
    assert(matching@.take(matching@.len() as int) =~= matching@);
    best
}

/// Text order on character sequences: lexicographic by code point.
pub open spec fn text_before(a: Seq<char>, b: Seq<char>) -> bool
    decreases a.len(),
{
    if a.len() == 0 {
        b.len() > 0
    } else if b.len() == 0 {
        false
    } else if a[0] != b[0] {
        a[0] < b[0]
    } else {
        text_before(a.drop_first(), b.drop_first())
    }
}

proof fn lemma_text_before_irreflexive(a: Seq<char>)
    ensures
        !text_before(a, a),
    decreases a.len(),
{
    if a.len() > 0 {
        lemma_text_before_irreflexive(a.drop_first());
    }
}

proof fn lemma_text_before_transitive(a: Seq<char>, b: Seq<char>, c: Seq<char>)
    requires
        text_before(a, b),
        text_before(b, c),
    ensures
        text_before(a, c),
    decreases a.len(),
{
    if a.len() > 0 && b.len() > 0 && c.len() > 0 && a[0] == b[0] && b[0] == c[0] {
        lemma_text_before_transitive(a.drop_first(), b.drop_first(), c.drop_first());
    }
}

/// Consecutive ascent over `lo..hi` gives ascent between any two positions.
proof fn lemma_ascending_range(s: Seq<Seq<char>>, lo: int, hi: int)
    requires
        0 <= lo <= hi <= s.len(),
        forall|i: int| lo <= i && i + 1 < hi ==> text_before(#[trigger] s[i], s[i + 1]),
    ensures
        forall|i: int, j: int| lo <= i < j < hi ==> text_before(#[trigger] s[i], #[trigger] s[j]),
    decreases hi - lo,
{
    if hi - lo > 1 {
        lemma_ascending_range(s, lo + 1, hi);
        assert forall|i: int, j: int| lo <= i < j < hi implies text_before(#[trigger] s[i], #[trigger] s[j]) by {
            if i == lo && j > lo + 1 {
                lemma_text_before_transitive(s[lo], s[lo + 1], s[j]);
            }
        }
    }
}

/// A key placed strictly between positions `p - 1` and `p` of the ascending
/// part differs from every key of that part.
proof fn lemma_extra_key_differs(keys: Seq<Seq<char>>, idx: int, p: int)
    requires
        0 < p < 243 <= idx < keys.len(),
        forall|i: int, j: int| 0 <= i < j < 243 ==> text_before(#[trigger] keys[i], #[trigger] keys[j]),
        text_before(keys[p - 1], keys[idx]),
        text_before(keys[idx], keys[p]),
    ensures
        forall|i: int| 0 <= i < 243 ==> #[trigger] keys[i] != keys[idx],
{
    assert forall|i: int| 0 <= i < 243 implies #[trigger] keys[i] != keys[idx] by {
        if keys[i] == keys[idx] {
            if i < p {
                if i < p - 1 {
                    lemma_text_before_transitive(keys[i], keys[p - 1], keys[idx]);
                }
            } else {
                if i > p {
                    lemma_text_before_transitive(keys[idx], keys[p], keys[i]);
                }
            }
            lemma_text_before_irreflexive(keys[idx]);
        }
    }
}

/// Keys 0 to 40 of the English table ascend in text order.
proof fn lemma_english_keys_ascend_0()
    ensures
        forall|i: int| 0 <= i < 40 ==> text_before(#[trigger] EN@[i].0@, EN@[i + 1].0@),
{
    reveal_strlit("app.brand");
    reveal_strlit("app.tagline");
    reveal_strlit("common.cancel");
    reveal_strlit("common.confirm");
    reveal_strlit("common.sign_out");
    reveal_strlit("connect.actions");
    reveal_strlit("connect.add");
    reveal_strlit("connect.add_help");
    reveal_strlit("connect.connect");
    reveal_strlit("connect.connect_success");
    reveal_strlit("connect.delete");
    reveal_strlit("connect.disconnect");
    reveal_strlit("connect.disconnect_success");
    reveal_strlit("connect.edit");
    reveal_strlit("connect.filter_status_all");
    reveal_strlit("connect.filter_type_all");
    reveal_strlit("connect.local_locked");
    reveal_strlit("connect.local_name");
    reveal_strlit("connect.name");
    reveal_strlit("connect.no_match");
    reveal_strlit("connect.required_hint");
    reveal_strlit("connect.search_placeholder");
    reveal_strlit("connect.status");
    reveal_strlit("connect.status_connected");
    reveal_strlit("connect.status_offline");
    reveal_strlit("connect.title");
    reveal_strlit("connect.type");
    reveal_strlit("connect.type_local");
    reveal_strlit("date.month_april");
    reveal_strlit("date.month_august");
    reveal_strlit("date.month_december");
    reveal_strlit("date.month_february");
    reveal_strlit("date.month_january");
    reveal_strlit("date.month_july");
    reveal_strlit("date.month_june");
    reveal_strlit("date.month_march");
    reveal_strlit("date.month_may");
    reveal_strlit("date.month_november");
    reveal_strlit("date.month_october");
    reveal_strlit("date.month_september");
    reveal_strlit("date.next_month");
    reveal_with_fuel(text_before, 20);
    assert forall|i: int| 0 <= i < 40 implies text_before(#[trigger] EN@[i].0@, EN@[i + 1].0@) by {}
}

/// Keys 40 to 80 of the English table ascend in text order.
proof fn lemma_english_keys_ascend_1()
    ensures
        forall|i: int| 40 <= i < 80 ==> text_before(#[trigger] EN@[i].0@, EN@[i + 1].0@),
{
    reveal_strlit("date.next_month");
    reveal_strlit("date.previous_month");
    reveal_strlit("date.week_friday");
    reveal_strlit("date.week_monday");
    reveal_strlit("date.week_saturday");
    reveal_strlit("date.week_sunday");
    reveal_strlit("date.week_thursday");
    reveal_strlit("date.week_tuesday");
    reveal_strlit("date.week_wednesday");
    reveal_strlit("keys.actions");
    reveal_strlit("keys.algorithm");
    reveal_strlit("keys.algorithm_ed25519");
    reveal_strlit("keys.algorithm_rsa2048");
    reveal_strlit("keys.algorithm_rsa4096");
    reveal_strlit("keys.copy_public_key");
    reveal_strlit("keys.copy_success");
    reveal_strlit("keys.create");
    reveal_strlit("keys.create_success");
    reveal_strlit("keys.created_at");
    reveal_strlit("keys.creating");
    reveal_strlit("keys.delete");
    reveal_strlit("keys.delete_confirm_message");
    reveal_strlit("keys.delete_confirm_title");
    reveal_strlit("keys.delete_success");
    reveal_strlit("keys.dialog_algorithm_help");
    reveal_strlit("keys.dialog_algorithm_label");
    reveal_strlit("keys.dialog_cancel");
    reveal_strlit("keys.dialog_comment_help");
    reveal_strlit("keys.dialog_comment_label");
    reveal_strlit("keys.dialog_comment_placeholder");
    reveal_strlit("keys.dialog_directory_help");
    reveal_strlit("keys.dialog_directory_label");
    reveal_strlit("keys.dialog_directory_placeholder");
    reveal_strlit("keys.dialog_edit_submit");
    reveal_strlit("keys.dialog_editing");
    reveal_strlit("keys.dialog_remark_label");
    reveal_strlit("keys.dialog_remark_placeholder");
    reveal_strlit("keys.dialog_submit");
    reveal_strlit("keys.dialog_title_create");
    reveal_strlit("keys.dialog_title_edit");
    reveal_strlit("keys.directory");
    reveal_with_fuel(text_before, 24);
    assert forall|i: int| 40 <= i < 80 implies text_before(#[trigger] EN@[i].0@, EN@[i + 1].0@) by {}
}

/// Keys 80 to 120 of the English table ascend in text order.
proof fn lemma_english_keys_ascend_2()
    ensures
        forall|i: int| 80 <= i < 120 ==> text_before(#[trigger] EN@[i].0@, EN@[i + 1].0@),
{
    reveal_strlit("keys.directory");
    reveal_strlit("keys.edit");
    reveal_strlit("keys.edit_success");
    reveal_strlit("keys.empty");
    reveal_strlit("keys.filter_algorithm_all");
    reveal_strlit("keys.filter_created_from");
    reveal_strlit("keys.filter_created_to");
    reveal_strlit("keys.filter_date_all");
    reveal_strlit("keys.missing_confirm_message");
    reveal_strlit("keys.missing_confirm_title");
    reveal_strlit("keys.no_connection");
    reveal_strlit("keys.no_match");
    reveal_strlit("keys.remark");
    reveal_strlit("keys.required");
    reveal_strlit("keys.search_placeholder");
    reveal_strlit("keys.sort_created_at_asc");
    reveal_strlit("keys.sort_created_at_desc");
    reveal_strlit("keys.title");
    reveal_strlit("nav.connect");
    reveal_strlit("nav.keys");
    reveal_strlit("nav.repos");
    reveal_strlit("oauth.copy");
    reveal_strlit("oauth.instruction");
    reveal_strlit("oauth.step_code");
    reveal_strlit("oauth.step_visit");
    reveal_strlit("oauth.title");
    reveal_strlit("oauth.waiting");
    reveal_strlit("palette.change_language");
    reveal_strlit("palette.close");
    reveal_strlit("palette.empty_history");
    reveal_strlit("palette.navigate");
    reveal_strlit("palette.no_results");
    reveal_strlit("palette.placeholder");
    reveal_strlit("palette.select");
    reveal_strlit("palette.toggle_theme");
    reveal_strlit("palette.trigger");
    reveal_strlit("quick_routes.feedback");
    reveal_strlit("quick_routes.github_repository");
    reveal_strlit("quick_routes.support");
    reveal_strlit("quick_routes.title");
    reveal_strlit("repos.actions");
    reveal_with_fuel(text_before, 23);
    assert forall|i: int| 80 <= i < 120 implies text_before(#[trigger] EN@[i].0@, EN@[i + 1].0@) by {}
}

/// Keys 120 to 160 of the English table ascend in text order.
proof fn lemma_english_keys_ascend_3()
    ensures
        forall|i: int| 120 <= i < 160 ==> text_before(#[trigger] EN@[i].0@, EN@[i + 1].0@),
{
    reveal_strlit("repos.actions");
    reveal_strlit("repos.all");
    reveal_strlit("repos.all_languages");
    reveal_strlit("repos.bind_dialog_authorization_help");
    reveal_strlit("repos.bind_dialog_authorization_label");
    reveal_strlit("repos.bind_dialog_key_label");
    reveal_strlit("repos.bind_dialog_no_keys");
    reveal_strlit("repos.bind_dialog_pull");
    reveal_strlit("repos.bind_dialog_push");
    reveal_strlit("repos.bind_dialog_submit");
    reveal_strlit("repos.bind_dialog_title");
    reveal_strlit("repos.bind_key");
    reveal_strlit("repos.bind_key_required");
    reveal_strlit("repos.bind_success");
    reveal_strlit("repos.clone_clear");
    reveal_strlit("repos.clone_dialog_title");
    reveal_strlit("repos.clone_no_log");
    reveal_strlit("repos.clone_no_match");
    reveal_strlit("repos.clone_range_12h");
    reveal_strlit("repos.clone_range_15d");
    reveal_strlit("repos.clone_range_180d");
    reveal_strlit("repos.clone_range_24h");
    reveal_strlit("repos.clone_range_30d");
    reveal_strlit("repos.clone_range_365d");
    reveal_strlit("repos.clone_range_5h");
    reveal_strlit("repos.clone_range_7d");
    reveal_strlit("repos.clone_range_all");
    reveal_strlit("repos.clone_repository");
    reveal_strlit("repos.clone_search_placeholder");
    reveal_strlit("repos.clone_status_failed");
    reveal_strlit("repos.clone_status_running");
    reveal_strlit("repos.clone_status_succeeded");
    reveal_strlit("repos.clone_tasks");
    reveal_strlit("repos.clone_tasks_empty");
    reveal_strlit("repos.clone_tasks_subtitle");
    reveal_strlit("repos.clone_tasks_title");
    reveal_strlit("repos.connect_remote");
    reveal_strlit("repos.connect_success");
    reveal_strlit("repos.empty");
    reveal_strlit("repos.go_to_page_after");
    reveal_strlit("repos.go_to_page_before");
    reveal_with_fuel(text_before, 34);
    assert forall|i: int| 120 <= i < 160 implies text_before(#[trigger] EN@[i].0@, EN@[i + 1].0@) by {}
}

/// Keys 160 to 200 of the English table ascend in text order.
proof fn lemma_english_keys_ascend_4()
    ensures
        forall|i: int| 160 <= i < 200 ==> text_before(#[trigger] EN@[i].0@, EN@[i + 1].0@),
{
    reveal_strlit("repos.go_to_page_before");
    reveal_strlit("repos.language");
    reveal_strlit("repos.more_actions");
    reveal_strlit("repos.no_match");
    reveal_strlit("repos.other");
    reveal_strlit("repos.page_size");
    reveal_strlit("repos.page_size_unit");
    reveal_strlit("repos.private");
    reveal_strlit("repos.public");
    reveal_strlit("repos.remote_clone_directory");
    reveal_strlit("repos.remote_clone_path_required");
    reveal_strlit("repos.remote_clone_title");
    reveal_strlit("repos.repository");
    reveal_strlit("repos.search_placeholder");
    reveal_strlit("repos.sign_in_required");
    reveal_strlit("repos.sync");
    reveal_strlit("repos.sync_success");
    reveal_strlit("repos.test_remote");
    reveal_strlit("repos.test_success");
    reveal_strlit("repos.total");
    reveal_strlit("repos.visibility");
    reveal_strlit("search.clear");
    reveal_strlit("settings.back");
    reveal_strlit("settings.choose_folder");
    reveal_strlit("settings.config_file");
    reveal_strlit("settings.config_placeholder");
    reveal_strlit("settings.config_saved");
    reveal_strlit("settings.general");
    reveal_strlit("settings.key_storage");
    reveal_strlit("settings.key_storage_help");
    reveal_strlit("settings.key_storage_placeholder");
    reveal_strlit("settings.key_storage_saved");
    reveal_strlit("settings.language");
    reveal_strlit("settings.language_changed");
    reveal_strlit("settings.language_no_results");
    reveal_strlit("settings.language_search_placeholder");
    reveal_strlit("settings.reload");
    reveal_strlit("settings.save");
    reveal_strlit("settings.theme");
    reveal_strlit("settings.theme_dark");
    reveal_strlit("settings.theme_light");
    reveal_with_fuel(text_before, 23);
    assert forall|i: int| 160 <= i < 200 implies text_before(#[trigger] EN@[i].0@, EN@[i + 1].0@) by {}
}

/// Keys 200 to 240 of the English table ascend in text order.
proof fn lemma_english_keys_ascend_5()
    ensures
        forall|i: int| 200 <= i < 240 ==> text_before(#[trigger] EN@[i].0@, EN@[i + 1].0@),
{
    reveal_strlit("settings.theme_light");
    reveal_strlit("settings.theme_system");
    reveal_strlit("settings.title");
    reveal_strlit("sidebar.collapse");
    reveal_strlit("sidebar.expand");
    reveal_strlit("sign_out.confirm_message");
    reveal_strlit("sign_out.confirm_title");
    reveal_strlit("sign_out.success");
    reveal_strlit("signin.create_token");
    reveal_strlit("signin.instruction");
    reveal_strlit("signin.permissions_help");
    reveal_strlit("signin.repository_access_help");
    reveal_strlit("signin.resource_owner_help");
    reveal_strlit("signin.submit");
    reveal_strlit("signin.success");
    reveal_strlit("signin.title");
    reveal_strlit("signin.token_label");
    reveal_strlit("tutorial.bind_key.body");
    reveal_strlit("tutorial.bind_key.title");
    reveal_strlit("tutorial.clone_repo.body");
    reveal_strlit("tutorial.clone_repo.title");
    reveal_strlit("tutorial.close");
    reveal_strlit("tutorial.connect.body");
    reveal_strlit("tutorial.connect.title");
    reveal_strlit("tutorial.connect_repo.body");
    reveal_strlit("tutorial.connect_repo.title");
    reveal_strlit("tutorial.create_key.body");
    reveal_strlit("tutorial.create_key.title");
    reveal_strlit("tutorial.demo_ready");
    reveal_strlit("tutorial.finish");
    reveal_strlit("tutorial.next");
    reveal_strlit("tutorial.open");
    reveal_strlit("tutorial.previous");
    reveal_strlit("tutorial.signin.body");
    reveal_strlit("tutorial.signin.title");
    reveal_strlit("tutorial.skip");
    reveal_strlit("tutorial.step_count");
    reveal_strlit("tutorial.sync.body");
    reveal_strlit("tutorial.sync.title");
    reveal_strlit("tutorial.test_repo.body");
    reveal_strlit("tutorial.test_repo.title");
    reveal_with_fuel(text_before, 24);
    assert forall|i: int| 200 <= i < 240 implies text_before(#[trigger] EN@[i].0@, EN@[i + 1].0@) by {}
}

/// Keys 240 to 242 of the English table ascend in text order.
proof fn lemma_english_keys_ascend_6()
    ensures
        forall|i: int| 240 <= i < 242 ==> text_before(#[trigger] EN@[i].0@, EN@[i + 1].0@),
{
    reveal_strlit("tutorial.test_repo.title");
    reveal_strlit("welcome.sign_in");
    reveal_strlit("welcome.signing_in");
    reveal_with_fuel(text_before, 14);
    assert forall|i: int| 240 <= i < 242 implies text_before(#[trigger] EN@[i].0@, EN@[i + 1].0@) by {}
}

/// Keys 243 to 256 of the English table ascend in text order.
proof fn lemma_english_keys_ascend_7()
    ensures
        forall|i: int| 243 <= i < 256 ==> text_before(#[trigger] EN@[i].0@, EN@[i + 1].0@),
{
    reveal_strlit("nav.home");
    reveal_strlit("repos.archived");
    reveal_strlit("repos.count");
    reveal_strlit("repos.filter_language");
    reveal_strlit("repos.filter_visibility");
    reveal_strlit("repos.items");
    reveal_strlit("repos.loading");
    reveal_strlit("repos.page_of");
    reveal_strlit("repos.syncing");
    reveal_strlit("screen.placeholder_phase4");
    reveal_strlit("search.placeholder");
    reveal_strlit("session.not_signed_in");
    reveal_strlit("settings.placeholder");
    reveal_strlit("signin.submitting");
    reveal_with_fuel(text_before, 15);
    assert forall|i: int| 243 <= i < 256 implies text_before(#[trigger] EN@[i].0@, EN@[i + 1].0@) by {}
}

/// The keys the screens do not use sit between neighbouring keys of the
/// ascending part of the English table.
proof fn lemma_english_extra_keys_placed()
    ensures
        text_before(EN@[98].0@, EN@[243].0@),
        text_before(EN@[243].0@, EN@[99].0@),
        text_before(EN@[122].0@, EN@[244].0@),
        text_before(EN@[244].0@, EN@[123].0@),
        text_before(EN@[157].0@, EN@[245].0@),
        text_before(EN@[245].0@, EN@[158].0@),
        text_before(EN@[158].0@, EN@[246].0@),
        text_before(EN@[246].0@, EN@[159].0@),
        text_before(EN@[158].0@, EN@[247].0@),
        text_before(EN@[247].0@, EN@[159].0@),
        text_before(EN@[160].0@, EN@[248].0@),
        text_before(EN@[248].0@, EN@[161].0@),
        text_before(EN@[161].0@, EN@[249].0@),
        text_before(EN@[249].0@, EN@[162].0@),
        text_before(EN@[164].0@, EN@[250].0@),
        text_before(EN@[250].0@, EN@[165].0@),
        text_before(EN@[176].0@, EN@[251].0@),
        text_before(EN@[251].0@, EN@[177].0@),
        text_before(EN@[180].0@, EN@[252].0@),
        text_before(EN@[252].0@, EN@[181].0@),
        text_before(EN@[181].0@, EN@[253].0@),
        text_before(EN@[253].0@, EN@[182].0@),
        text_before(EN@[181].0@, EN@[254].0@),
        text_before(EN@[254].0@, EN@[182].0@),
        text_before(EN@[195].0@, EN@[255].0@),
        text_before(EN@[255].0@, EN@[196].0@),
        text_before(EN@[213].0@, EN@[256].0@),
        text_before(EN@[256].0@, EN@[214].0@),
{
    reveal_strlit("nav.connect");
    reveal_strlit("nav.home");
    reveal_strlit("nav.keys");
    reveal_strlit("repos.all_languages");
    reveal_strlit("repos.archived");
    reveal_strlit("repos.bind_dialog_authorization_help");
    reveal_strlit("repos.connect_success");
    reveal_strlit("repos.count");
    reveal_strlit("repos.empty");
    reveal_strlit("repos.filter_language");
    reveal_strlit("repos.filter_visibility");
    reveal_strlit("repos.go_to_page_after");
    reveal_strlit("repos.go_to_page_before");
    reveal_strlit("repos.items");
    reveal_strlit("repos.language");
    reveal_strlit("repos.loading");
    reveal_strlit("repos.more_actions");
    reveal_strlit("repos.other");
    reveal_strlit("repos.page_of");
    reveal_strlit("repos.page_size");
    reveal_strlit("repos.sync_success");
    reveal_strlit("repos.syncing");
    reveal_strlit("repos.test_remote");
    reveal_strlit("repos.visibility");
    reveal_strlit("screen.placeholder_phase4");
    reveal_strlit("search.clear");
    reveal_strlit("search.placeholder");
    reveal_strlit("session.not_signed_in");
    reveal_strlit("settings.back");
    reveal_strlit("settings.language_search_placeholder");
    reveal_strlit("settings.placeholder");
    reveal_strlit("settings.reload");
    reveal_strlit("signin.submit");
    reveal_strlit("signin.submitting");
    reveal_strlit("signin.success");
    reveal_with_fuel(text_before, 15);
}

/// Each string table holds each key once: no two entries of a locale's table
/// share a key.
pub proof fn law_tables_hold_each_key_once(l: Locale)
    ensures
        forall|i: int, j: int|
            0 <= i < j < locale_table(l).len() ==> (#[trigger] locale_table(l)[i]).0 != (#[trigger] locale_table(l)[j]).0,
{
    let keys = table_keys(table_view(EN@));
    assert(keys.len() == 257);
    assert forall|i: int| 0 <= i < 257 implies #[trigger] keys[i] == EN@[i].0@ by {}
    lemma_english_keys_ascend_0();
    lemma_english_keys_ascend_1();
    lemma_english_keys_ascend_2();
    lemma_english_keys_ascend_3();
    lemma_english_keys_ascend_4();
    lemma_english_keys_ascend_5();
    lemma_english_keys_ascend_6();
    lemma_english_keys_ascend_7();
    lemma_english_extra_keys_placed();
    lemma_ascending_range(keys, 0, 243);
    lemma_ascending_range(keys, 243, 257);
    lemma_extra_key_differs(keys, 243, 99);
    lemma_extra_key_differs(keys, 244, 123);
    lemma_extra_key_differs(keys, 245, 158);
    lemma_extra_key_differs(keys, 246, 159);
    lemma_extra_key_differs(keys, 247, 159);
    lemma_extra_key_differs(keys, 248, 161);
    lemma_extra_key_differs(keys, 249, 162);
    lemma_extra_key_differs(keys, 250, 165);
    lemma_extra_key_differs(keys, 251, 177);
    lemma_extra_key_differs(keys, 252, 181);
    lemma_extra_key_differs(keys, 253, 182);
    lemma_extra_key_differs(keys, 254, 182);
    lemma_extra_key_differs(keys, 255, 196);
    lemma_extra_key_differs(keys, 256, 214);
    law_tables_share_keys(l, Seq::empty());
    let t = locale_table(l);
    assert forall|i: int, j: int| 0 <= i < j < t.len() implies (#[trigger] t[i]).0 != (#[trigger] t[j]).0 by {
        assert(t[i].0 == table_keys(t)[i] && t[j].0 == table_keys(t)[j]);
        if j < 243 || i >= 243 {
            lemma_text_before_irreflexive(keys[i]);
        }
    }
}

} // verus!
