//! The Repositories screen's rules: loading the list (with a first sync when
//! nothing is stored), the search and filters, the language filter's choices,
//! the clone task list, and the compacted clone log.

use vstd::prelude::*;
use vstd::string::*;
use vstd::utf8::encode_utf8;
use crate::api::{CloneTask, Repo};
use crate::listing::{
    bytes_equal, bytes_less, bytes_lt, text_bytes, indices_where, lemma_indices_where_contains, lemma_bytes_total, lemma_bytes_transitive,
};
use crate::text::{
    all_digits, chars_of, contains_chars, digits_value, has_infix, has_prefix, replace, replace_all, split_chars, split_on,
    starts_with_chars, str_eq, string_of, to_lowercase, trim_chars, trim_seq, unicode_lowercase,
};

verus! {

/// Language-filter value standing for "repositories without a language".
pub const OTHER_LANGUAGE: &'static str = "\u{1}other";

// ---------------------------------------------------------------------------
// Search and filters
// ---------------------------------------------------------------------------

/// Whether a repository passes the filters: the lower-cased query occurs in the
/// lower-cased full name (an empty query passes), the visibility filter
/// (`public`, `private`, anything else = all) and the language filter (empty =
/// all, `OTHER_LANGUAGE` = no language, otherwise that exact language).
pub open spec fn repo_visible(r: Repo, q: Seq<char>, vis: Seq<char>, lang: Seq<char>) -> bool {
    &&& (q.len() == 0 || has_infix(unicode_lowercase(r.full_name@), q))
    &&& (if vis == "public"@ { !r.private } else if vis == "private"@ { r.private } else { true })
    &&& (if lang.len() == 0 {
        true
    } else if lang == "\u{1}other"@ {
        r.language is None
    } else {
        r.language is Some && r.language->0@ == lang
    })
}

fn repo_passes(r: &Repo, q: &[char], vis: &str, lang: &str) -> (b: bool)
    ensures
        b == repo_visible(*r, q@, vis@, lang@),
{
    let name_ok = q.len() == 0 || contains_chars(&chars_of(to_lowercase(r.full_name.as_str()).as_str()), q);
    let vis_ok = if str_eq(vis, "public") {
        !r.private
    } else if str_eq(vis, "private") {
        r.private
    } else {
        true
    };
    let lang_ok = if lang.is_empty() {
        true
    } else if str_eq(lang, OTHER_LANGUAGE) {
        r.language.is_none()
    } else {
        match &r.language {
            Some(l) => str_eq(l.as_str(), lang),
            None => false,
        }
    };
    name_ok && vis_ok && lang_ok
}

/// Positions of the repositories that pass the search and filters, in order.
pub fn filter_repos(repos: &[Repo], query: &str, visibility: &str, language: &str) -> (r: Vec<usize>)
    ensures
        r@ == indices_where(
            repos@.len(),
            |i: int| repo_visible(repos@[i], unicode_lowercase(query@), visibility@, language@),
        ),
{
    let q = chars_of(to_lowercase(query).as_str());
    let ghost keep = |i: int| repo_visible(repos@[i], unicode_lowercase(query@), visibility@, language@);
    let mut r: Vec<usize> = Vec::new();
    let mut i: usize = 0;
    while i < repos.len()
        invariant
            i <= repos@.len(),
            q@ == unicode_lowercase(query@),
            keep == (|i: int| repo_visible(repos@[i], unicode_lowercase(query@), visibility@, language@)),
            r@ == indices_where(i as nat, keep),
        decreases repos@.len() - i,
    {
        if repo_passes(&repos[i], &q, visibility, language) {
            r.push(i);
        }
        i = i + 1;
    }
    r
}

// ---------------------------------------------------------------------------
// Language filter choices
// ---------------------------------------------------------------------------

pub open spec fn bytes_of_all(v: Seq<String>) -> Seq<Seq<u8>> {
    v.map_values(|s: String| text_bytes(s))
}

pub open spec fn strictly_increasing(b: Seq<Seq<u8>>) -> bool {
    forall|i: int, j: int| 0 <= i < j < b.len() ==> bytes_lt(#[trigger] b[i], #[trigger] b[j])
}

/// Whether some repository's language has exactly these bytes.
pub open spec fn some_language_is(repos: Seq<Repo>, b: Seq<u8>) -> bool {
    exists|i: int| 0 <= i < repos.len() && repos[i].language is Some && #[trigger] encode_utf8(repos[i].language->0@) == b
}

/// The values the language filter offers besides "all languages".
pub struct LanguageFilterValues {
    /// Each distinct language once, in text order.
    pub languages: Vec<String>,
    /// Whether some repository has no language (the "Other" choice).
    pub has_other: bool,
}

/// Each distinct language of the repositories once, in text order, and
/// whether any repository has no language.
pub fn language_filter_values(repos: &[Repo]) -> (r: LanguageFilterValues)
    ensures
        strictly_increasing(bytes_of_all(r.languages@)),
        forall|b: Seq<u8>| #[trigger] bytes_of_all(r.languages@).contains(b) <==> some_language_is(repos@, b),
        r.has_other == exists|i: int| 0 <= i < repos@.len() && #[trigger] repos@[i].language is None,
{
    let mut langs: Vec<String> = Vec::new();
    let mut has_other = false;
    let mut i: usize = 0;
    while i < repos.len()
        invariant
            i <= repos@.len(),
            strictly_increasing(bytes_of_all(langs@)),
            forall|b: Seq<u8>| #[trigger] bytes_of_all(langs@).contains(b) <==> some_language_is(repos@.take(i as int), b),
            has_other == exists|k: int| 0 <= k < i && #[trigger] repos@[k].language is None,
        decreases repos@.len() - i,
    {
        let ghost prefix = repos@.take(i as int);
        let ghost next = repos@.take(i as int + 1);
        match &repos[i].language {
            Some(l) => {
                let ghost before = bytes_of_all(langs@);
                insert_sorted_unique(&mut langs, l.clone());
                assert forall|b: Seq<u8>| #[trigger] bytes_of_all(langs@).contains(b) <==> some_language_is(next, b) by {
                    if some_language_is(next, b) {
                        let k = choose|k: int| 0 <= k < next.len() && next[k].language is Some && #[trigger] encode_utf8(next[k].language->0@) == b;
                        if k < i {
                            assert(prefix[k] == next[k]);
                            assert(some_language_is(prefix, b));
                        }
                    }
                    if some_language_is(prefix, b) {
                        let k = choose|k: int| 0 <= k < prefix.len() && prefix[k].language is Some && #[trigger] encode_utf8(prefix[k].language->0@) == b;
                        assert(next[k] == prefix[k]);
                    }
                    if b == encode_utf8(l@) {
                        assert(next[i as int] == repos@[i as int]);
                    }
                }
            },
            None => {
                has_other = true;
                assert forall|b: Seq<u8>| #[trigger] bytes_of_all(langs@).contains(b) <==> some_language_is(next, b) by {
                    if some_language_is(next, b) {
                        let k = choose|k: int| 0 <= k < next.len() && next[k].language is Some && #[trigger] encode_utf8(next[k].language->0@) == b;
                        assert(k != i);
                        assert(prefix[k] == next[k]);
                    }
                    if some_language_is(prefix, b) {
                        let k = choose|k: int| 0 <= k < prefix.len() && prefix[k].language is Some && #[trigger] encode_utf8(prefix[k].language->0@) == b;
                        assert(next[k] == prefix[k]);
                    }
                }
            },
        }
        i = i + 1;
    }
    assert(repos@.take(repos@.len() as int) =~= repos@);
    LanguageFilterValues { languages: langs, has_other }
}

/// Insert `x` into the strictly increasing `v` unless a text with the same
/// bytes is already there.
fn insert_sorted_unique(v: &mut Vec<String>, x: String)
    requires
        strictly_increasing(bytes_of_all(old(v)@)),
    ensures
        strictly_increasing(bytes_of_all(final(v)@)),
        forall|b: Seq<u8>| #[trigger] bytes_of_all(final(v)@).contains(b) <==> (bytes_of_all(old(v)@).contains(b) || b == text_bytes(x)),
{
    let ghost before = bytes_of_all(v@);
    let ghost xb = text_bytes(x);
    let n = v.len();
    let mut j: usize = 0;
    while j < n && bytes_less(v[j].as_str().as_bytes(), x.as_str().as_bytes())
        invariant
            n == v@.len(),
            j <= n,
            before == bytes_of_all(v@),
            xb == text_bytes(x),
            strictly_increasing(before),
            forall|k: int| 0 <= k < j ==> bytes_lt(#[trigger] before[k], xb),
        decreases n - j,
    {
        assert(before[j as int] == text_bytes(v@[j as int]));
        j = j + 1;
    }
    if j < n && bytes_equal(v[j].as_str().as_bytes(), x.as_str().as_bytes()) {
        assert(before[j as int] == xb);
        assert forall|b: Seq<u8>| #[trigger] before.contains(b) <==> (before.contains(b) || b == xb) by {
            if b == xb {
                assert(before[j as int] == b);
            }
        }
        return;
    }
    proof {
        if j < n {
            assert(before[j as int] == text_bytes(v@[j as int]));
            lemma_bytes_total(before[j as int], xb);
            assert(bytes_lt(xb, before[j as int]));
        }
    }
    v.insert(j, x);
    let ghost after = bytes_of_all(v@);
    assert(after =~= before.insert(j as int, xb));
    assert forall|a: int, b: int| 0 <= a < b < after.len() implies bytes_lt(#[trigger] after[a], #[trigger] after[b]) by {
        if b < j {
            assert(after[a] == before[a] && after[b] == before[b]);
        } else if b == j {
            assert(after[a] == before[a]);
        } else if a == j {
            assert(after[b] == before[b - 1]);
            if b - 1 > j {
                assert(bytes_lt(before[j as int], before[b - 1]));
                lemma_bytes_transitive(xb, before[j as int], before[b - 1]);
            }
        } else if a < j {
            assert(after[a] == before[a] && after[b] == before[b - 1]);
        } else {
            assert(after[a] == before[a - 1] && after[b] == before[b - 1]);
        }
    }
    assert forall|b: Seq<u8>| #[trigger] after.contains(b) <==> (before.contains(b) || b == xb) by {
        if after.contains(b) {
            let k = choose|k: int| 0 <= k < after.len() && after[k] == b;
            if k < j {
                assert(before[k] == b);
            } else if k > j {
                assert(before[k - 1] == b);
            }
        }
        if before.contains(b) {
            let k = choose|k: int| 0 <= k < before.len() && before[k] == b;
            if k < j {
                assert(after[k] == b);
            } else {
                assert(after[k + 1] == b);
            }
        }
        if b == xb {
            assert(after[j as int] == b);
        }
    }
}

// ---------------------------------------------------------------------------
// Clone tasks
// ---------------------------------------------------------------------------

/// Position of the first task with `id`.
pub open spec fn first_task_with_id(ts: Seq<CloneTask>, id: u64) -> Option<int>
    decreases ts.len(),
{
    if ts.len() == 0 {
        None
    } else if ts[0].id == id {
        Some(0)
    } else {
        match first_task_with_id(ts.drop_first(), id) {
            Some(k) => Some(k + 1),
            None => None,
        }
    }
}

/// The task list after recording `next`: the first task with the same id is
/// replaced, or else `next` goes first (the list is newest first).
pub open spec fn upserted(ts: Seq<CloneTask>, next: CloneTask) -> Seq<CloneTask> {
    match first_task_with_id(ts, next.id) {
        Some(i) => ts.update(i, next),
        None => seq![next] + ts,
    }
}

/// No two tasks share an id.
pub open spec fn ids_unique(ts: Seq<CloneTask>) -> bool {
    forall|a: int, b: int| 0 <= a < b < ts.len() ==> (#[trigger] ts[a]).id != (#[trigger] ts[b]).id
}

proof fn lemma_first_task_with_id(ts: Seq<CloneTask>, id: u64)
    ensures
        first_task_with_id(ts, id) matches Some(i) ==> 0 <= i < ts.len() && ts[i].id == id && forall|k: int|
            0 <= k < i ==> (#[trigger] ts[k]).id != id,
        first_task_with_id(ts, id) is None ==> forall|k: int| 0 <= k < ts.len() ==> (#[trigger] ts[k]).id != id,
    decreases ts.len(),
{
    if ts.len() > 0 && ts[0].id != id {
        let rest = ts.drop_first();
        lemma_first_task_with_id(rest, id);
        assert forall|k: int| 1 <= k < ts.len() implies (#[trigger] ts[k]).id == rest[k - 1].id by {}
    }
}

/// Recording a task update keeps task ids unique, and afterwards the task
/// found under that id is exactly the update.
pub proof fn law_upsert_keeps_ids_unique(ts: Seq<CloneTask>, next: CloneTask)
    requires
        ids_unique(ts),
    ensures
        ids_unique(upserted(ts, next)),
        first_task_with_id(upserted(ts, next), next.id) matches Some(k) && upserted(ts, next)[k] == next,
{
    lemma_first_task_with_id(ts, next.id);
    let u = upserted(ts, next);
    lemma_first_task_with_id(u, next.id);
    match first_task_with_id(ts, next.id) {
        Some(i) => {
            assert forall|a: int, b: int| 0 <= a < b < u.len() implies (#[trigger] u[a]).id != (#[trigger] u[b]).id by {
                assert(ts[a].id != ts[b].id);
            }
            if first_task_with_id(u, next.id) is None {
                assert(u[i].id == next.id);
            }
            let k = first_task_with_id(u, next.id)->0;
            if k != i {
                assert(k < i);
                assert(ts[k].id == next.id);
            }
        },
        None => {
            assert forall|a: int, b: int| 0 <= a < b < u.len() implies (#[trigger] u[a]).id != (#[trigger] u[b]).id by {
                if a == 0 {
                    assert(u[b] == ts[b - 1]);
                } else {
                    assert(u[a] == ts[a - 1] && u[b] == ts[b - 1]);
                }
            }
            assert(u[0] == next);
            assert(first_task_with_id(u, next.id) == Some(0int));
        },
    }
}

/// Where a recorded update lands: an update of a listed task takes that
/// task's place and leaves every other task where it was; a task not listed
/// yet goes first, with the earlier tasks following in their order.
pub proof fn law_upsert_places_task(ts: Seq<CloneTask>, next: CloneTask)
    requires
        ids_unique(ts),
    ensures
        (exists|k: int| 0 <= k < ts.len() && #[trigger] ts[k].id == next.id) ==> {
            &&& upserted(ts, next).len() == ts.len()
            &&& forall|k: int| 0 <= k < ts.len() ==> (#[trigger] upserted(ts, next)[k]) == (if ts[k].id == next.id {
                next
            } else {
                ts[k]
            })
        },
        (forall|k: int| 0 <= k < ts.len() ==> #[trigger] ts[k].id != next.id) ==> {
            &&& upserted(ts, next).len() == ts.len() + 1
            &&& upserted(ts, next)[0] == next
            &&& forall|k: int| 0 <= k < ts.len() ==> #[trigger] upserted(ts, next)[k + 1] == ts[k]
        },
{
    lemma_first_task_with_id(ts, next.id);
    if let Some(i) = first_task_with_id(ts, next.id) {
        assert forall|k: int| 0 <= k < ts.len() implies (#[trigger] upserted(ts, next)[k]) == (if ts[k].id == next.id {
            next
        } else {
            ts[k]
        }) by {
            if k != i && ts[k].id == next.id {
                if k < i {
                    assert(ts[k].id != next.id);
                } else {
                    assert(ts[i].id != ts[k].id);
                }
            }
        }
    }
}

/// Record a task update: replace the task with the same id, or put a new task
/// first (the list is newest first).
pub fn upsert_clone_task(tasks: &mut Vec<CloneTask>, next: CloneTask)
    ensures
        final(tasks)@ == upserted(old(tasks)@, next),
{
    let n = tasks.len();
    let mut i: usize = 0;
    let ghost all = tasks@;
    assert(all.skip(0) =~= all);
    while i < n
        invariant
            n == tasks@.len(),
            all == tasks@,
            all == old(tasks)@,
            i <= n,
            first_task_with_id(all, next.id) == (match first_task_with_id(all.skip(i as int), next.id) {
                Some(k) => Some(k + i),
                None => None::<int>,
            }),
        decreases n - i,
    {
        let ghost rest = all.skip(i as int);
        assert(rest[0] == all[i as int]);
        if tasks[i].id == next.id {
            assert(first_task_with_id(rest, next.id) == Some(0int));
            tasks.set(i, next);
            return;
        }
        assert(rest.drop_first() =~= all.skip(i + 1));
        i = i + 1;
    }
    tasks.insert(0, next);
    assert(tasks@ =~= seq![next] + all);
}

/// Whether a task is still running.
pub open spec fn task_running(t: CloneTask) -> bool {
    t.status@ == "running"@
}

/// Number of running tasks.
pub fn running_clone_count(tasks: &[CloneTask]) -> (r: usize)
    ensures
        r == indices_where(tasks@.len(), |i: int| task_running(tasks@[i])).len(),
{
    let ghost keep = |i: int| task_running(tasks@[i]);
    let mut count: usize = 0;
    let mut i: usize = 0;
    while i < tasks.len()
        invariant
            i <= tasks@.len(),
            keep == (|i: int| task_running(tasks@[i])),
            count == indices_where(i as nat, keep).len(),
            count <= i,
        decreases tasks@.len() - i,
    {
        if str_eq(tasks[i].status.as_str(), "running") {
            count = count + 1;
        }
        i = i + 1;
    }
    count
}

/// The number shown on the clone-tasks badge: the running count, capped at 99.
pub fn running_badge(count: usize) -> (r: usize)
    ensures
        r == (if count < 99 { count } else { 99 }),
{
    if count < 99 { count } else { 99 }
}

/// Whether "clear" has anything to remove: some task is no longer running.
pub fn has_clearable_tasks(tasks: &[CloneTask]) -> (r: bool)
    ensures
        r == exists|i: int| 0 <= i < tasks@.len() && !task_running(#[trigger] tasks@[i]),
{
    let mut i: usize = 0;
    while i < tasks.len()
        invariant
            i <= tasks@.len(),
            forall|k: int| 0 <= k < i ==> task_running(#[trigger] tasks@[k]),
        decreases tasks@.len() - i,
    {
        if !str_eq(tasks[i].status.as_str(), "running") {
            return true;
        }
        i = i + 1;
    }
    false
}

/// String-table key of a task status label; `None` shows the raw status.
pub open spec fn status_label_key(status: Seq<char>) -> Option<Seq<char>> {
    if status == "running"@ {
        Some("repos.clone_status_running"@)
    } else if status == "succeeded"@ {
        Some("repos.clone_status_succeeded"@)
    } else if status == "failed"@ {
        Some("repos.clone_status_failed"@)
    } else {
        None
    }
}

/// String-table key of a task status label; `None` shows the raw status.
pub fn clone_status_key(status: &str) -> (r: Option<&'static str>)
    ensures
        r is Some == status_label_key(status@) is Some,
        r is Some ==> r->0@ == status_label_key(status@)->0,
{
    if str_eq(status, "running") {
        Some("repos.clone_status_running")
    } else if str_eq(status, "succeeded") {
        Some("repos.clone_status_succeeded")
    } else if str_eq(status, "failed") {
        Some("repos.clone_status_failed")
    } else {
        None
    }
}

pub open spec fn status_badge_base() -> Seq<char> {
    "shrink-0 rounded-full border border-border px-2 py-0.5 text-[11px] font-medium"@
}

/// The colour classes that follow the base classes of a status badge.
pub open spec fn status_badge_tone(status: Seq<char>) -> Seq<char> {
    if status == "running"@ || status == "succeeded"@ {
        " text-primary"@
    } else if status == "failed"@ {
        " text-red-600 dark:text-red-400"@
    } else {
        " text-muted"@
    }
}

/// Classes of a task's status badge.
pub fn clone_status_class(status: &str) -> (r: String)
    ensures
        r@ == status_badge_base() + status_badge_tone(status@),
{
    let mut r = String::from_str("shrink-0 rounded-full border border-border px-2 py-0.5 text-[11px] font-medium");
    if str_eq(status, "running") || str_eq(status, "succeeded") {
        r.append(" text-primary");
    } else if str_eq(status, "failed") {
        r.append(" text-red-600 dark:text-red-400");
    } else {
        r.append(" text-muted");
    }
    r
}

/// Length of a time-range choice in seconds; `None` for "all time".
pub open spec fn range_window(range: Seq<char>) -> Option<int> {
    if range == "5h"@ {
        Some(5int * 3600)
    } else if range == "12h"@ {
        Some(12int * 3600)
    } else if range == "24h"@ {
        Some(24int * 3600)
    } else if range == "7d"@ {
        Some(7int * 86400)
    } else if range == "15d"@ {
        Some(15int * 86400)
    } else if range == "30d"@ {
        Some(30int * 86400)
    } else if range == "180d"@ {
        Some(180int * 86400)
    } else if range == "365d"@ {
        Some(365int * 86400)
    } else {
        None
    }
}

/// Earliest start time (seconds since the epoch) a task may have to be listed
/// under a time-range choice, given the current time; `None` means all time.
pub fn range_cutoff_secs(range: &str, now_secs: i64) -> (r: Option<i64>)
    requires
        now_secs >= i64::MIN + 365 * 86400,
    ensures
        range_window(range@) is None ==> r is None,
        range_window(range@) is Some ==> r == Some((now_secs - range_window(range@)->0) as i64),
{
    let window: i64 = if str_eq(range, "5h") {
        5 * 3600
    } else if str_eq(range, "12h") {
        12 * 3600
    } else if str_eq(range, "24h") {
        24 * 3600
    } else if str_eq(range, "7d") {
        7 * 86_400
    } else if str_eq(range, "15d") {
        15 * 86_400
    } else if str_eq(range, "30d") {
        30 * 86_400
    } else if str_eq(range, "180d") {
        180 * 86_400
    } else if str_eq(range, "365d") {
        365 * 86_400
    } else {
        return None;
    };
    Some(now_secs - window)
}

/// The time-range choices of the task list: value and label key.
pub fn clone_range_choices() -> (r: Vec<(&'static str, &'static str)>)
    ensures
        r@.len() == 9,
        r@[0].0@ == "5h"@ && r@[0].1@ == "repos.clone_range_5h"@,
        r@[1].0@ == "12h"@ && r@[1].1@ == "repos.clone_range_12h"@,
        r@[2].0@ == "24h"@ && r@[2].1@ == "repos.clone_range_24h"@,
        r@[3].0@ == "7d"@ && r@[3].1@ == "repos.clone_range_7d"@,
        r@[4].0@ == "15d"@ && r@[4].1@ == "repos.clone_range_15d"@,
        r@[5].0@ == "30d"@ && r@[5].1@ == "repos.clone_range_30d"@,
        r@[6].0@ == "180d"@ && r@[6].1@ == "repos.clone_range_180d"@,
        r@[7].0@ == "365d"@ && r@[7].1@ == "repos.clone_range_365d"@,
        r@[8].0@ == "all"@ && r@[8].1@ == "repos.clone_range_all"@,
{
    vec![
        ("5h", "repos.clone_range_5h"),
        ("12h", "repos.clone_range_12h"),
        ("24h", "repos.clone_range_24h"),
        ("7d", "repos.clone_range_7d"),
        ("15d", "repos.clone_range_15d"),
        ("30d", "repos.clone_range_30d"),
        ("180d", "repos.clone_range_180d"),
        ("365d", "repos.clone_range_365d"),
        ("all", "repos.clone_range_all"),
    ]
}

/// Whether a task is listed: the lower-cased search occurs in its repository
/// name or local path (an empty search passes), and it started at or after the
/// cutoff when there is one.
pub open spec fn task_listed(t: CloneTask, q: Seq<char>, cutoff: Option<i64>) -> bool {
    &&& (q.len() == 0 || has_infix(unicode_lowercase(t.repo_full_name@), q) || has_infix(unicode_lowercase(t.local_path@), q))
    &&& (cutoff matches Some(c) ==> t.started_at >= c)
}

/// Positions of the listed tasks, in order.
pub fn filter_clone_tasks(tasks: &[CloneTask], search: &str, cutoff: Option<i64>) -> (r: Vec<usize>)
    ensures
        r@ == indices_where(tasks@.len(), |i: int| task_listed(tasks@[i], unicode_lowercase(search@), cutoff)),
{
    let q = chars_of(to_lowercase(search).as_str());
    let ghost keep = |i: int| task_listed(tasks@[i], unicode_lowercase(search@), cutoff);
    let mut r: Vec<usize> = Vec::new();
    let mut i: usize = 0;
    while i < tasks.len()
        invariant
            i <= tasks@.len(),
            q@ == unicode_lowercase(search@),
            keep == (|i: int| task_listed(tasks@[i], unicode_lowercase(search@), cutoff)),
            r@ == indices_where(i as nat, keep),
        decreases tasks@.len() - i,
    {
        let t = &tasks[i];
        let query_ok = q.len() == 0 || contains_chars(&chars_of(to_lowercase(t.repo_full_name.as_str()).as_str()), &q)
            || contains_chars(&chars_of(to_lowercase(t.local_path.as_str()).as_str()), &q);
        let time_ok = match cutoff {
            Some(c) => t.started_at >= c,
            None => true,
        };
        if query_ok && time_ok {
            r.push(i);
        }
        i = i + 1;
    }
    r
}

// ---------------------------------------------------------------------------
// Compacted clone log
// ---------------------------------------------------------------------------

/// Line breaks unified: `\r\n` and lone `\r` both become `\n`.
pub open spec fn normalize_breaks(s: Seq<char>) -> Seq<char> {
    replace_all(replace_all(s, "\r\n"@, "\n"@), "\r"@, "\n"@)
}

/// The lines of text without `\r` (what `str::lines` yields): the parts between
/// `\n`, without the empty part after a final `\n`.
pub open spec fn lines_of(s: Seq<char>) -> Seq<Seq<char>> {
    let parts = split_on(s, '\n');
    if parts.last().len() == 0 { parts.drop_last() } else { parts }
}

/// Whether a trimmed output line of `git clone` is worth keeping.
pub open spec fn keep_log_line(t: Seq<char>) -> bool {
    ||| has_prefix(t, "Cloning into "@)
    ||| has_prefix(t, "remote: Enumerating objects:"@)
    ||| has_prefix(t, "remote: Total "@)
    ||| (has_prefix(t, "remote: Counting objects:"@) && has_infix(t, "done."@))
    ||| (has_prefix(t, "remote: Compressing objects:"@) && has_infix(t, "done."@))
    ||| (has_prefix(t, "Receiving objects:"@) && has_infix(t, "done."@))
    ||| (has_prefix(t, "Resolving deltas:"@) && has_infix(t, "done."@))
    ||| has_prefix(t, "fatal:"@)
    ||| has_prefix(t, "error:"@)
    ||| has_prefix(t, "ssh:"@)
    ||| has_infix(t, "Permission denied"@)
    ||| has_infix(t, "Host key verification failed"@)
    ||| has_infix(t, "Repository not found"@)
}

/// The compacted form of one log line: trimmed, kept only when non-empty and
/// worth keeping.
pub open spec fn compact_line(line: Seq<char>) -> Option<Seq<char>> {
    let t = trim_seq(line);
    if t.len() > 0 && keep_log_line(t) { Some(t) } else { None }
}

/// The kept lines, each followed by `\n`.
pub open spec fn compact_lines(ls: Seq<Seq<char>>) -> Seq<char>
    decreases ls.len(),
{
    if ls.len() == 0 {
        Seq::empty()
    } else {
        compact_lines(ls.drop_last()) + match compact_line(ls.last()) {
            Some(t) => t.push('\n'),
            None => Seq::empty(),
        }
    }
}

/// Whether `v` starts with the text `p`.
fn starts_with_text(v: &[char], p: &str) -> (r: bool)
    ensures
        r == has_prefix(v@, p@),
{
    starts_with_chars(v, &chars_of(p))
}

/// Whether the text `p` occurs in `v`.
fn contains_text(v: &[char], p: &str) -> (r: bool)
    ensures
        r == has_infix(v@, p@),
{
    contains_chars(v, &chars_of(p))
}

/// The compacted form of one log line.
pub fn compact_clone_log_line(line: &[char]) -> (r: Option<Vec<char>>)
    ensures
        r is Some <==> compact_line(line@) is Some,
        r is Some ==> r->0@ == compact_line(line@)->0,
{
    let t = trim_chars(line);
    if t.len() == 0 {
        return None;
    }
    let done = contains_text(&t, "done.");
    let keep = starts_with_text(&t, "Cloning into ") || starts_with_text(&t, "remote: Enumerating objects:")
        || starts_with_text(&t, "remote: Total ") || (starts_with_text(&t, "remote: Counting objects:") && done)
        || (starts_with_text(&t, "remote: Compressing objects:") && done) || (starts_with_text(&t, "Receiving objects:")
        && done) || (starts_with_text(&t, "Resolving deltas:") && done) || starts_with_text(&t, "fatal:")
        || starts_with_text(&t, "error:") || starts_with_text(&t, "ssh:") || contains_text(&t, "Permission denied")
        || contains_text(&t, "Host key verification failed") || contains_text(&t, "Repository not found");
    if keep {
        Some(t)
    } else {
        None
    }
}

/// The clone log reduced to its meaningful lines (progress counters and noise
/// dropped), one per line.
pub fn compact_clone_log(log: &str) -> (r: String)
    ensures
        r@ == compact_lines(lines_of(normalize_breaks(log@))),
{
    proof {
        reveal_strlit("\r\n");
        reveal_strlit("\n");
        reveal_strlit("\r");
    }
    let once = replace(&chars_of(log), &chars_of("\r\n"), &chars_of("\n"));
    let unified = replace(&once, &chars_of("\r"), &chars_of("\n"));
    let parts = split_chars(&unified, '\n');
    let ghost pv = parts@.map_values(|p: Vec<char>| p@);
    proof {
        crate::text::lemma_split_nonempty(unified@, '\n');
    }
    let last_empty = parts[parts.len() - 1].len() == 0;
    let count = if last_empty { parts.len() - 1 } else { parts.len() };
    let ghost lines = lines_of(normalize_breaks(log@));
    assert(pv.last() == parts@[parts@.len() - 1]@);
    assert(lines =~= pv.take(count as int));
    let mut out: Vec<char> = Vec::new();
    let mut i: usize = 0;
    while i < count
        invariant
            count <= parts@.len(),
            pv == parts@.map_values(|p: Vec<char>| p@),
            lines == pv.take(count as int),
            i <= count,
            out@ == compact_lines(lines.take(i as int)),
        decreases count - i,
    {
        assert(lines.take(i as int + 1).drop_last() =~= lines.take(i as int));
        assert(lines.take(i as int + 1).last() == parts@[i as int]@);
        match compact_clone_log_line(&parts[i]) {
            Some(t) => {
                let mut k: usize = 0;
                let ghost start = out@;
                while k < t.len()
                    invariant
                        k <= t@.len(),
                        out@ == start + t@.take(k as int),
                    decreases t@.len() - k,
                {
                    out.push(t[k]);
                    k = k + 1;
                    assert(out@ =~= start + t@.take(k as int));
                }
                out.push('\n');
                assert(t@.take(t@.len() as int) =~= t@);
                assert(out@ =~= start + t@.push('\n'));
            },
            None => {
                assert(out@ =~= out@ + Seq::<char>::empty());
            },
        }
        i = i + 1;
    }
    assert(lines.take(count as int) =~= lines);
    string_of(&out)
}

// ---------------------------------------------------------------------------
// Language colours
// ---------------------------------------------------------------------------

/// GitHub-style dot colour of a primary language, grey for anything unmapped.
pub open spec fn language_color_of(language: Seq<char>) -> Seq<char> {
    if language == "Rust"@ {
        "#dea584"@
    } else if language == "Go"@ {
        "#00ADD8"@
    } else if language == "Python"@ {
        "#3572A5"@
    } else if language == "JavaScript"@ {
        "#f1e05a"@
    } else if language == "TypeScript"@ {
        "#3178c6"@
    } else if language == "Java"@ {
        "#b07219"@
    } else if language == "Kotlin"@ {
        "#A97BFF"@
    } else if language == "Swift"@ {
        "#F05138"@
    } else if language == "C"@ {
        "#555555"@
    } else if language == "C++"@ {
        "#f34b7d"@
    } else if language == "C#"@ {
        "#178600"@
    } else if language == "Ruby"@ {
        "#701516"@
    } else if language == "PHP"@ {
        "#4F5D95"@
    } else if language == "Shell"@ {
        "#89e051"@
    } else if language == "HTML"@ {
        "#e34c26"@
    } else if language == "CSS"@ {
        "#563d7c"@
    } else if language == "SCSS"@ {
        "#c6538c"@
    } else if language == "Vue"@ {
        "#41b883"@
    } else if language == "Svelte"@ {
        "#ff3e00"@
    } else if language == "Dart"@ {
        "#00B4AB"@
    } else if language == "Scala"@ {
        "#c22d40"@
    } else if language == "Elixir"@ {
        "#6e4a7e"@
    } else if language == "Erlang"@ {
        "#B83998"@
    } else if language == "Haskell"@ {
        "#5e5086"@
    } else if language == "Clojure"@ {
        "#db5855"@
    } else if language == "Lua"@ {
        "#000080"@
    } else if language == "Perl"@ {
        "#0298c3"@
    } else if language == "R"@ {
        "#198CE7"@
    } else if language == "Julia"@ {
        "#a270ba"@
    } else if language == "Objective-C"@ {
        "#438eff"@
    } else if language == "Zig"@ {
        "#ec915c"@
    } else if language == "Nix"@ {
        "#7e7eff"@
    } else if language == "Dockerfile"@ {
        "#384d54"@
    } else if language == "Makefile"@ {
        "#427819"@
    } else if language == "PowerShell"@ {
        "#012456"@
    } else if language == "Vim Script"@ {
        "#199f4b"@
    } else if language == "TeX"@ {
        "#3D6117"@
    } else {
        "#9ca3af"@
    }
}

/// GitHub-style dot colour of a primary language, grey for anything unmapped.
pub fn language_color(language: &str) -> (r: &'static str)
    ensures
        r@ == language_color_of(language@),
{
    if str_eq(language, "Rust") {
        "#dea584"
    } else if str_eq(language, "Go") {
        "#00ADD8"
    } else if str_eq(language, "Python") {
        "#3572A5"
    } else if str_eq(language, "JavaScript") {
        "#f1e05a"
    } else if str_eq(language, "TypeScript") {
        "#3178c6"
    } else if str_eq(language, "Java") {
        "#b07219"
    } else if str_eq(language, "Kotlin") {
        "#A97BFF"
    } else if str_eq(language, "Swift") {
        "#F05138"
    } else if str_eq(language, "C") {
        "#555555"
    } else if str_eq(language, "C++") {
        "#f34b7d"
    } else if str_eq(language, "C#") {
        "#178600"
    } else if str_eq(language, "Ruby") {
        "#701516"
    } else if str_eq(language, "PHP") {
        "#4F5D95"
    } else if str_eq(language, "Shell") {
        "#89e051"
    } else if str_eq(language, "HTML") {
        "#e34c26"
    } else if str_eq(language, "CSS") {
        "#563d7c"
    } else if str_eq(language, "SCSS") {
        "#c6538c"
    } else if str_eq(language, "Vue") {
        "#41b883"
    } else if str_eq(language, "Svelte") {
        "#ff3e00"
    } else if str_eq(language, "Dart") {
        "#00B4AB"
    } else if str_eq(language, "Scala") {
        "#c22d40"
    } else if str_eq(language, "Elixir") {
        "#6e4a7e"
    } else if str_eq(language, "Erlang") {
        "#B83998"
    } else if str_eq(language, "Haskell") {
        "#5e5086"
    } else if str_eq(language, "Clojure") {
        "#db5855"
    } else if str_eq(language, "Lua") {
        "#000080"
    } else if str_eq(language, "Perl") {
        "#0298c3"
    } else if str_eq(language, "R") {
        "#198CE7"
    } else if str_eq(language, "Julia") {
        "#a270ba"
    } else if str_eq(language, "Objective-C") {
        "#438eff"
    } else if str_eq(language, "Zig") {
        "#ec915c"
    } else if str_eq(language, "Nix") {
        "#7e7eff"
    } else if str_eq(language, "Dockerfile") {
        "#384d54"
    } else if str_eq(language, "Makefile") {
        "#427819"
    } else if str_eq(language, "PowerShell") {
        "#012456"
    } else if str_eq(language, "Vim Script") {
        "#199f4b"
    } else if str_eq(language, "TeX") {
        "#3D6117"
    } else {
        "#9ca3af"
    }
}


// ---------------------------------------------------------------------------
// Actions
// ---------------------------------------------------------------------------

/// The directory a remote clone starts with.
pub const DEFAULT_REMOTE_CLONE_DIR: &'static str = "~/apps";

/// What pressing Sync does.
#[derive(Debug, Clone, Copy, PartialEq, Eq, Structural)]
pub enum SyncStep {
    /// Signed out: go to the sign-in screen; nothing is synced and no error
    /// is shown.
    OpenSignIn,
    /// A sync is already running.
    Busy,
    /// Start a sync.
    Start,
}

/// What pressing Sync does: a signed-out user is sent to the sign-in screen,
/// a running sync is not started twice.
pub open spec fn sync_step_of(signed_in: bool, syncing: bool) -> SyncStep {
    if !signed_in {
        SyncStep::OpenSignIn
    } else if syncing {
        SyncStep::Busy
    } else {
        SyncStep::Start
    }
}

/// What pressing Sync does, by session and by whether a sync runs.
pub fn sync_step(signed_in: bool, syncing: bool) -> (r: SyncStep)
    ensures
        r == sync_step_of(signed_in, syncing),
{
    if !signed_in {
        SyncStep::OpenSignIn
    } else if syncing {
        SyncStep::Busy
    } else {
        SyncStep::Start
    }
}

/// What the list asks the host for next.
pub enum LoadStep {
    /// Nothing: the list is settled.
    Done,
    /// Read the stored repositories.
    List,
    /// Sync the repositories from GitHub.
    Sync,
    /// Show this error.
    ShowError(String),
}

/// The repository list and what is being fetched into it.
pub struct RepoList {
    pub repos: Vec<Repo>,
    pub loading: bool,
    pub syncing: bool,
}

impl RepoList {
    /// An empty list with nothing in flight.
    pub fn new() -> (l: Self)
        ensures
            l.repos@.len() == 0,
            !l.loading,
            !l.syncing,
    {
        RepoList { repos: Vec::new(), loading: false, syncing: false }
    }

    /// The session appeared or went away. Signing out clears the list and
    /// ends the loading; signing in starts loading and asks for the stored
    /// repositories.
    pub fn session_changed(&mut self, signed_in: bool) -> (r: LoadStep)
        ensures
            !signed_in ==> final(self).repos@.len() == 0 && !final(self).loading && r is Done,
            signed_in ==> final(self).repos@ == old(self).repos@ && final(self).loading && r is List,
            final(self).syncing == old(self).syncing,
    {
        if signed_in {
            self.loading = true;
            LoadStep::List
        } else {
            self.repos = Vec::new();
            self.loading = false;
            LoadStep::Done
        }
    }

    /// The stored repositories arrived on a first load. A non-empty list is
    /// shown; an empty one starts a first sync (the load goes on); an error is
    /// shown and the load ends.
    pub fn first_list_answered(&mut self, result: Result<Vec<Repo>, String>) -> (r: LoadStep)
        ensures
            result matches Ok(l) ==> if l@.len() > 0 {
                final(self).repos@ == l@ && !final(self).loading && final(self).syncing == old(self).syncing
                    && r is Done
            } else {
                final(self).repos@ == old(self).repos@ && final(self).loading == old(self).loading
                    && final(self).syncing && r is Sync
            },
            result matches Err(e) ==> final(self).repos@ == old(self).repos@ && !final(self).loading
                && final(self).syncing == old(self).syncing && r == LoadStep::ShowError(e),
    {
        match result {
            Ok(list) => {
                if list.len() > 0 {
                    self.repos = list;
                    self.loading = false;
                    LoadStep::Done
                } else {
                    self.syncing = true;
                    LoadStep::Sync
                }
            },
            Err(e) => {
                self.loading = false;
                LoadStep::ShowError(e)
            },
        }
    }

    /// The first sync answered. After a success the stored repositories are
    /// read again; a failure stays quiet (the empty list leads the user to
    /// Sync, which shows the error) and ends the load.
    pub fn first_sync_answered(&mut self, ok: bool) -> (r: LoadStep)
        ensures
            ok ==> *final(self) == *old(self) && r is List,
            !ok ==> final(self).repos@ == old(self).repos@ && !final(self).syncing && !final(self).loading
                && r is Done,
    {
        if ok {
            LoadStep::List
        } else {
            self.syncing = false;
            self.loading = false;
            LoadStep::Done
        }
    }

    /// Pressing Sync while signed in: nothing while a sync runs, otherwise
    /// the sync starts.
    pub fn start_sync(&mut self) -> (r: SyncStep)
        ensures
            old(self).syncing ==> *final(self) == *old(self) && r == SyncStep::Busy,
            !old(self).syncing ==> final(self).syncing && final(self).repos@ == old(self).repos@
                && final(self).loading == old(self).loading && r == SyncStep::Start,
    {
        if self.syncing {
            SyncStep::Busy
        } else {
            self.syncing = true;
            SyncStep::Start
        }
    }

    /// The stored repositories arrived after a sync: they replace the list
    /// when the read succeeded. The sync and the load are over either way.
    pub fn relist_answered(&mut self, result: Result<Vec<Repo>, String>)
        ensures
            result matches Ok(l) ==> final(self).repos@ == l@,
            result is Err ==> final(self).repos@ == old(self).repos@,
            !final(self).syncing,
            !final(self).loading,
    {
        if let Ok(list) = result {
            self.repos = list;
        }
        self.syncing = false;
        self.loading = false;
    }
}

/// Where a clone request goes.
#[derive(Debug, Clone, Copy, PartialEq, Eq, Structural)]
pub enum CloneRoute {
    /// A local clone is still being set up.
    Busy,
    /// The active connection is remote: ask for the remote directory.
    RemoteDialog,
    /// Let the host pick a local folder and clone there.
    LocalPicker,
}

/// Where a clone request goes: nowhere while a local clone is being set up,
/// to the remote-directory dialog when the active connection is remote,
/// otherwise to the local folder picker.
pub fn clone_route(picker_busy: bool, active_is_remote: bool) -> (r: CloneRoute)
    ensures
        picker_busy ==> r == CloneRoute::Busy,
        !picker_busy && active_is_remote ==> r == CloneRoute::RemoteDialog,
        !picker_busy && !active_is_remote ==> r == CloneRoute::LocalPicker,
{
    if picker_busy {
        CloneRoute::Busy
    } else if active_is_remote {
        CloneRoute::RemoteDialog
    } else {
        CloneRoute::LocalPicker
    }
}

/// What submitting the remote-clone dialog does.
pub enum RemoteCloneStep {
    /// A remote clone is running or no repository is chosen.
    Ignore,
    /// The directory is blank.
    PathRequired,
    /// Clone this repository into this directory.
    Start { repo_id: i64, path: String },
}

/// Submitting the remote-clone dialog: ignored while a clone runs or without
/// a repository; the trimmed directory is required.
pub fn remote_clone_step(running: bool, repo_id: Option<i64>, input: &str) -> (r: RemoteCloneStep)
    ensures
        (running || repo_id is None) ==> r is Ignore,
        !running && repo_id is Some && trim_seq(input@).len() == 0 ==> r is PathRequired,
        !running && repo_id is Some && trim_seq(input@).len() > 0 ==> (r matches RemoteCloneStep::Start {
            repo_id: id,
            path,
        } && id == repo_id->0 && path@ == trim_seq(input@)),
{
    if running {
        return RemoteCloneStep::Ignore;
    }
    match repo_id {
        None => RemoteCloneStep::Ignore,
        Some(id) => {
            let path = trim_chars(&chars_of(input));
            if path.len() == 0 {
                RemoteCloneStep::PathRequired
            } else {
                RemoteCloneStep::Start { repo_id: id, path: string_of(&path) }
            }
        },
    }
}

/// What submitting the bind-key dialog does.
#[derive(Debug, Clone, Copy, PartialEq, Eq, Structural)]
pub enum BindStep {
    /// A bind is running or no repository is chosen.
    Ignore,
    /// No key is selected.
    KeyRequired,
    /// Bind this key to this repository.
    Submit { repo_id: i64, key_id: i64 },
}

/// Submitting the bind-key dialog: ignored while a bind runs or without a
/// repository; a key must be selected.
pub fn bind_step(submitting: bool, repo_id: Option<i64>, key_id: Option<i64>) -> (r: BindStep)
    ensures
        (submitting || repo_id is None) ==> r == BindStep::Ignore,
        !submitting && repo_id is Some && key_id is None ==> r == BindStep::KeyRequired,
        !submitting && repo_id is Some && key_id is Some ==> r == (BindStep::Submit {
            repo_id: repo_id->0,
            key_id: key_id->0,
        }),
{
    if submitting {
        return BindStep::Ignore;
    }
    match (repo_id, key_id) {
        (None, _) => BindStep::Ignore,
        (Some(_), None) => BindStep::KeyRequired,
        (Some(r), Some(k)) => BindStep::Submit { repo_id: r, key_id: k },
    }
}

/// The key the bind dialog preselects: the first listed one.
pub fn default_bind_key(keys: &[crate::api::SshKey]) -> (r: Option<i64>)
    ensures
        keys@.len() == 0 ==> r is None,
        keys@.len() > 0 ==> r == Some(keys@[0].id),
{
    if keys.len() == 0 {
        None
    } else {
        Some(keys[0].id)
    }
}

/// The title of the clone dialog: the template with `{}` replaced by the
/// repository's full name.
pub fn clone_dialog_title(template: &str, full_name: &str) -> (r: String)
    ensures
        r@ == replace_all(template@, "{}"@, full_name@),
{
    proof {
        reveal_strlit("{}");
    }
    crate::text::replace_str(template, "{}", full_name)
}

/// The visibility filter's values with their label keys.
pub fn visibility_filter_choices() -> (r: Vec<(&'static str, &'static str)>)
    ensures
        r@.len() == 3,
        r@[0].0@ == "all"@ && r@[0].1@ == "repos.all"@,
        r@[1].0@ == "public"@ && r@[1].1@ == "repos.public"@,
        r@[2].0@ == "private"@ && r@[2].1@ == "repos.private"@,
{
    vec![("all", "repos.all"), ("public", "repos.public"), ("private", "repos.private")]
}

/// The search looks at a repository's full name (`owner/name`). For a
/// non-empty (lower-cased) query, a repository is listed exactly when the
/// query occurs in its lower-cased full name and it is listed with the same
/// filters and no query.
pub proof fn law_repo_search_full_name(repos: Seq<Repo>, q: Seq<char>, vis: Seq<char>, lang: Seq<char>, i: int)
    requires
        repos.len() <= usize::MAX,
        0 <= i < repos.len(),
        q.len() > 0,
    ensures
        indices_where(repos.len(), |j: int| repo_visible(repos[j], q, vis, lang)).contains(i as usize) <==> (
        has_infix(unicode_lowercase(repos[i].full_name@), q) && indices_where(
            repos.len(),
            |j: int| repo_visible(repos[j], Seq::empty(), vis, lang),
        ).contains(i as usize)),
{
    lemma_indices_where_contains(repos.len(), |j: int| repo_visible(repos[j], q, vis, lang), i);
    lemma_indices_where_contains(repos.len(), |j: int| repo_visible(repos[j], Seq::empty(), vis, lang), i);
}

/// Seconds in the unit a time-range label ends with: `h` hours, `d` days.
pub open spec fn range_unit_secs(unit: char) -> int {
    if unit == 'h' {
        3600
    } else if unit == 'd' {
        86400
    } else {
        0
    }
}

/// Every time-range window is what its label says: a label is a decimal
/// count followed by `h` (hours) or `d` (days), and the window is that many
/// hours or days in seconds; "all" has no window.
pub proof fn law_range_window_matches_label(range: Seq<char>)
    ensures
        range_window(range) matches Some(w) ==> {
            &&& range.len() >= 2
            &&& all_digits(range.drop_last())
            &&& range_unit_secs(range.last()) > 0
            &&& w == digits_value(range.drop_last()) * range_unit_secs(range.last())
        },
        range_window("all"@) is None,
{
    reveal_strlit("5h");
    reveal_strlit("12h");
    reveal_strlit("24h");
    reveal_strlit("7d");
    reveal_strlit("15d");
    reveal_strlit("30d");
    reveal_strlit("180d");
    reveal_strlit("365d");
    reveal_strlit("all");
    reveal_with_fuel(digits_value, 4);
    if range_window(range) is Some {
        let d = range.drop_last();
        if range == "5h"@ {
            assert(d =~= seq!['5']);
        } else if range == "12h"@ {
            assert(d =~= seq!['1', '2']);
            assert(d.drop_last() =~= seq!['1']);
        } else if range == "24h"@ {
            assert(d =~= seq!['2', '4']);
            assert(d.drop_last() =~= seq!['2']);
        } else if range == "7d"@ {
            assert(d =~= seq!['7']);
        } else if range == "15d"@ {
            assert(d =~= seq!['1', '5']);
            assert(d.drop_last() =~= seq!['1']);
        } else if range == "30d"@ {
            assert(d =~= seq!['3', '0']);
            assert(d.drop_last() =~= seq!['3']);
        } else if range == "180d"@ {
            assert(d =~= seq!['1', '8', '0']);
            assert(d.drop_last() =~= seq!['1', '8']);
            assert(d.drop_last().drop_last() =~= seq!['1']);
        } else {
            assert(d =~= seq!['3', '6', '5']);
            assert(d.drop_last() =~= seq!['3', '6']);
            assert(d.drop_last().drop_last() =~= seq!['3']);
        }
    }
    assert("all"@[0] != "12h"@[0] && "all"@[0] != "24h"@[0] && "all"@[0] != "15d"@[0] && "all"@[0] != "30d"@[0]);
}

/// The visibility and language filters narrow the list: "public" keeps
/// exactly the listed public repositories and "private" the private ones;
/// a language keeps exactly the listed repositories of that language, and
/// the "other" choice those with no language.
pub proof fn law_repo_filters_narrow(repos: Seq<Repo>, q: Seq<char>, vis: Seq<char>, lang: Seq<char>, i: int)
    requires
        repos.len() <= usize::MAX,
        0 <= i < repos.len(),
    ensures
        indices_where(repos.len(), |j: int| repo_visible(repos[j], q, "public"@, lang)).contains(i as usize) <==> (
        !repos[i].private && indices_where(repos.len(), |j: int| repo_visible(repos[j], q, "all"@, lang)).contains(
            i as usize,
        )),
        indices_where(repos.len(), |j: int| repo_visible(repos[j], q, "private"@, lang)).contains(i as usize) <==> (
        repos[i].private && indices_where(repos.len(), |j: int| repo_visible(repos[j], q, "all"@, lang)).contains(
            i as usize,
        )),
        indices_where(repos.len(), |j: int| repo_visible(repos[j], q, vis, OTHER_LANGUAGE@)).contains(i as usize)
            <==> (repos[i].language is None && indices_where(
            repos.len(),
            |j: int| repo_visible(repos[j], q, vis, Seq::empty()),
        ).contains(i as usize)),
        lang.len() > 0 && lang != OTHER_LANGUAGE@ ==> (indices_where(
            repos.len(),
            |j: int| repo_visible(repos[j], q, vis, lang),
        ).contains(i as usize) <==> ((repos[i].language matches Some(l) && l@ == lang) && indices_where(
            repos.len(),
            |j: int| repo_visible(repos[j], q, vis, Seq::empty()),
        ).contains(i as usize))),
{
    reveal_strlit("public");
    reveal_strlit("private");
    reveal_strlit("all");
    reveal_strlit("\u{1}other");
    lemma_indices_where_contains(repos.len(), |j: int| repo_visible(repos[j], q, "public"@, lang), i);
    lemma_indices_where_contains(repos.len(), |j: int| repo_visible(repos[j], q, "private"@, lang), i);
    lemma_indices_where_contains(repos.len(), |j: int| repo_visible(repos[j], q, "all"@, lang), i);
    lemma_indices_where_contains(repos.len(), |j: int| repo_visible(repos[j], q, vis, OTHER_LANGUAGE@), i);
    lemma_indices_where_contains(repos.len(), |j: int| repo_visible(repos[j], q, vis, lang), i);
    lemma_indices_where_contains(repos.len(), |j: int| repo_visible(repos[j], q, vis, Seq::empty()), i);
    assert("all"@ != "public"@ && "all"@ != "private"@) by {
        assert("all"@.len() != "public"@.len() && "all"@.len() != "private"@.len());
    }
    assert("public"@ != "private"@) by {
        assert("public"@.len() != "private"@.len());
    }
}

/// The task search looks at the repository name and the local path: for a
/// non-empty (lower-cased) search, a task is listed exactly when the search
/// occurs in one of the two, lower-cased, and the task is listed with no
/// search. A cutoff keeps exactly the listed tasks that started at or after
/// it.
pub proof fn law_task_filters(tasks: Seq<CloneTask>, q: Seq<char>, cutoff: Option<i64>, i: int)
    requires
        tasks.len() <= usize::MAX,
        0 <= i < tasks.len(),
    ensures
        q.len() > 0 ==> (indices_where(tasks.len(), |j: int| task_listed(tasks[j], q, cutoff)).contains(i as usize)
            <==> ((has_infix(unicode_lowercase(tasks[i].repo_full_name@), q) || has_infix(
            unicode_lowercase(tasks[i].local_path@),
            q,
        )) && indices_where(tasks.len(), |j: int| task_listed(tasks[j], Seq::empty(), cutoff)).contains(
            i as usize,
        ))),
        cutoff matches Some(c) ==> (indices_where(tasks.len(), |j: int| task_listed(tasks[j], q, cutoff)).contains(
            i as usize,
        ) <==> (tasks[i].started_at >= c && indices_where(
            tasks.len(),
            |j: int| task_listed(tasks[j], q, None),
        ).contains(i as usize))),
{
    lemma_indices_where_contains(tasks.len(), |j: int| task_listed(tasks[j], q, cutoff), i);
    lemma_indices_where_contains(tasks.len(), |j: int| task_listed(tasks[j], Seq::empty(), cutoff), i);
    lemma_indices_where_contains(tasks.len(), |j: int| task_listed(tasks[j], q, None), i);
}

} // verus!
