//! The stack of toast notifications in the bottom-right corner.
//!
//! Every backend-backed operation reports its outcome here: a green toast on
//! success, a red one on failure. A toast is pushed hidden, becomes visible a
//! frame later (enter transition), is dismissed after its tone's lifetime or
//! by the user (exit transition), and is dropped from the stack once the exit
//! fade finished. The host runs those timers and calls back into the stack.

use vstd::prelude::*;
use vstd::string::*;

verus! {

/// Milliseconds a success toast stays shown before it starts fading out.
pub const SUCCESS_TTL_MS: u64 = 4000;
/// Milliseconds an error toast stays shown before it starts fading out.
pub const ERROR_TTL_MS: u64 = 6000;
/// Milliseconds after insertion at which the toast is made visible.
pub const ENTER_DELAY_MS: u64 = 16;
/// Milliseconds of the exit fade, after which the toast is dropped.
pub const EXIT_FADE_MS: u64 = 220;

#[derive(Clone, Copy, Debug, PartialEq, Eq, Structural)]
pub enum ToastTone {
    Success,
    Error,
}

/// One toast in the stack.
#[derive(Clone, Debug)]
pub struct Toast {
    pub id: u64,
    pub message: String,
    pub tone: ToastTone,
    pub visible: bool,
}

/// Abstract view of one toast.
pub struct ToastView {
    pub id: nat,
    pub message: Seq<char>,
    pub tone: ToastTone,
    pub visible: bool,
}

pub open spec fn toast_view(t: Toast) -> ToastView {
    ToastView { id: t.id as nat, message: t.message@, tone: t.tone, visible: t.visible }
}

/// Abstract state of the stack.
pub struct ToastStackView {
    pub toasts: Seq<ToastView>,
    pub next_id: nat,
}

pub open spec fn has_id(s: Seq<ToastView>, id: nat) -> bool {
    exists|i: int| 0 <= i < s.len() && #[trigger] s[i].id == id
}

pub open spec fn id_index(s: Seq<ToastView>, id: nat) -> int {
    choose|i: int| 0 <= i < s.len() && #[trigger] s[i].id == id
}

/// Lifetime of a toast of the given tone, in milliseconds.
pub open spec fn tone_ttl(tone: ToastTone) -> u64 {
    match tone {
        ToastTone::Success => SUCCESS_TTL_MS,
        ToastTone::Error => ERROR_TTL_MS,
    }
}

impl ToastStackView {
    /// Ids strictly increase along the stack and stay below `next_id`.
    pub open spec fn wf(self) -> bool {
        &&& forall|i: int, j: int| 0 <= i < j < self.toasts.len() ==> #[trigger] self.toasts[i].id < #[trigger] self.toasts[j].id
        &&& forall|i: int| 0 <= i < self.toasts.len() ==> #[trigger] self.toasts[i].id < self.next_id
    }

    pub open spec fn push(self, tone: ToastTone, message: Seq<char>) -> Self {
        ToastStackView {
            toasts: self.toasts.push(ToastView { id: self.next_id, message, tone, visible: false }),
            next_id: self.next_id + 1,
        }
    }

    pub open spec fn set_visible(self, id: nat, visible: bool) -> Self {
        if has_id(self.toasts, id) {
            let i = id_index(self.toasts, id);
            ToastStackView { toasts: self.toasts.update(i, ToastView { visible, ..self.toasts[i] }), ..self }
        } else {
            self
        }
    }

    pub open spec fn remove(self, id: nat) -> Self {
        if has_id(self.toasts, id) {
            ToastStackView { toasts: self.toasts.remove(id_index(self.toasts, id)), ..self }
        } else {
            self
        }
    }

    pub open spec fn is_visible(self, id: nat) -> bool {
        has_id(self.toasts, id) && self.toasts[id_index(self.toasts, id)].visible
    }
}

proof fn lemma_id_index_unique(s: ToastStackView, id: nat, i: int)
    requires
        s.wf(),
        0 <= i < s.toasts.len(),
        s.toasts[i].id == id,
    ensures
        has_id(s.toasts, id),
        id_index(s.toasts, id) == i,
{
    assert(has_id(s.toasts, id));
    let j = id_index(s.toasts, id);
    if j < i {
        assert(s.toasts[j].id < s.toasts[i].id);
    } else if i < j {
        assert(s.toasts[i].id < s.toasts[j].id);
    }
}

proof fn lemma_remove_wf(s: ToastStackView, id: nat)
    requires
        s.wf(),
    ensures
        s.remove(id).wf(),
        !has_id(s.remove(id).toasts, id),
{
    if has_id(s.toasts, id) {
        let k = id_index(s.toasts, id);
        let r = s.toasts.remove(k);
        assert forall|i: int, j: int| 0 <= i < j < r.len() implies #[trigger] r[i].id < #[trigger] r[j].id by {
            let si = if i < k { i } else { i + 1 };
            let sj = if j < k { j } else { j + 1 };
            assert(r[i] == s.toasts[si] && r[j] == s.toasts[sj]);
            assert(s.toasts[si].id < s.toasts[sj].id);
        }
        assert forall|i: int| 0 <= i < r.len() implies #[trigger] r[i].id < s.next_id by {
            let si = if i < k { i } else { i + 1 };
            assert(r[i] == s.toasts[si]);
        }
        if has_id(r, id) {
            let m = choose|m: int| 0 <= m < r.len() && #[trigger] r[m].id == id;
            let sm = if m < k { m } else { m + 1 };
            assert(r[m] == s.toasts[sm]);
            if sm < k {
                assert(s.toasts[sm].id < s.toasts[k].id);
            } else {
                assert(s.toasts[k].id < s.toasts[sm].id);
            }
        }
    }
}

/// A pushed toast starts hidden, carries a fresh id that no other toast has,
/// and keeps the stack well formed.
pub proof fn law_push_fresh_hidden(s: ToastStackView, tone: ToastTone, message: Seq<char>)
    requires
        s.wf(),
    ensures
        s.push(tone, message).wf(),
        !has_id(s.toasts, s.next_id),
        has_id(s.push(tone, message).toasts, s.next_id),
        !s.push(tone, message).is_visible(s.next_id),
{
    let t = s.push(tone, message);
    let n = s.toasts.len() as int;
    if has_id(s.toasts, s.next_id) {
        let m = choose|m: int| 0 <= m < s.toasts.len() && #[trigger] s.toasts[m].id == s.next_id;
        assert(s.toasts[m].id < s.next_id);
    }
    assert forall|i: int, j: int| 0 <= i < j < t.toasts.len() implies #[trigger] t.toasts[i].id < #[trigger] t.toasts[j].id by {
        if j == n {
            assert(t.toasts[i] == s.toasts[i]);
        } else {
            assert(s.toasts[i].id < s.toasts[j].id);
        }
    }
    assert(t.toasts[n].id == s.next_id);
    lemma_id_index_unique(t, s.next_id, n);
}

/// Dismissing is idempotent: the manual close and the auto-dismiss timer may
/// both fire, and the second changes nothing.
pub proof fn law_dismiss_idempotent(s: ToastStackView, id: nat)
    requires
        s.wf(),
    ensures
        s.set_visible(id, false).set_visible(id, false) == s.set_visible(id, false),
        s.set_visible(id, false).wf(),
{
    let t = s.set_visible(id, false);
    if has_id(s.toasts, id) {
        let i = id_index(s.toasts, id);
        assert forall|a: int, b: int| 0 <= a < b < t.toasts.len() implies #[trigger] t.toasts[a].id < #[trigger] t.toasts[b].id by {
            assert(s.toasts[a].id < s.toasts[b].id);
        }
        assert forall|a: int| 0 <= a < t.toasts.len() implies #[trigger] t.toasts[a].id < t.next_id by {
            assert(s.toasts[a].id < s.next_id);
        }
        lemma_id_index_unique(t, id, i);
        assert(t.toasts.update(i, ToastView { visible: false, ..t.toasts[i] }) =~= t.toasts);
    }
}

/// Removing a toast drops exactly that toast: afterwards it is gone and every
/// other toast is still there, unchanged and in order.
pub proof fn law_remove_only_that_toast(s: ToastStackView, id: nat)
    requires
        s.wf(),
        has_id(s.toasts, id),
    ensures
        !has_id(s.remove(id).toasts, id),
        s.remove(id).toasts.len() == s.toasts.len() - 1,
        forall|i: int| 0 <= i < s.toasts.len() && s.toasts[i].id != id ==> #[trigger] s.remove(id).toasts.contains(s.toasts[i]),
{
    lemma_remove_wf(s, id);
    let k = id_index(s.toasts, id);
    let r = s.remove(id).toasts;
    assert forall|i: int| 0 <= i < s.toasts.len() && s.toasts[i].id != id implies #[trigger] r.contains(s.toasts[i]) by {
        if i < k {
            assert(r[i] == s.toasts[i]);
        } else {
            assert(i != k);
            assert(r[i - 1] == s.toasts[i]);
        }
    }
}

/// The toast stack.
pub struct ToastHandle {
    toasts: Vec<Toast>,
    next_id: u64,
}

impl View for ToastHandle {
    type V = ToastStackView;

    closed spec fn view(&self) -> ToastStackView {
        ToastStackView {
            toasts: self.toasts@.map_values(|t: Toast| toast_view(t)),
            next_id: self.next_id as nat,
        }
    }
}

impl ToastHandle {
    /// An empty stack.
    pub fn new() -> (h: Self)
        ensures
            h@.toasts.len() == 0,
            h@.next_id == 0,
            h@.wf(),
    {
        let h = ToastHandle { toasts: Vec::new(), next_id: 0 };
        assert(h@.toasts =~= Seq::<ToastView>::empty());
        h
    }

    /// The id the next toast gets; a toast can be pushed while it is below
    /// `u64::MAX`.
    pub fn next_id(&self) -> (r: u64)
        ensures
            r == self@.next_id,
    {
        self.next_id
    }

    /// The toasts, oldest first.
    pub fn toasts(&self) -> (r: &Vec<Toast>)
        ensures
            r@.map_values(|t: Toast| toast_view(t)) == self@.toasts,
    {
        &self.toasts
    }

    /// Show a success (green) toast; returns its id and how long it stays.
    pub fn success(&mut self, message: String) -> (r: (u64, u64))
        requires
            old(self)@.wf(),
            old(self)@.next_id < u64::MAX,
        ensures
            final(self)@ == old(self)@.push(ToastTone::Success, message@),
            r.0 == old(self)@.next_id,
            r.1 == SUCCESS_TTL_MS,
            final(self)@.wf(),
    {
        self.push(ToastTone::Success, message)
    }

    /// Show an error (red) toast; returns its id and how long it stays.
    pub fn error(&mut self, message: String) -> (r: (u64, u64))
        requires
            old(self)@.wf(),
            old(self)@.next_id < u64::MAX,
        ensures
            final(self)@ == old(self)@.push(ToastTone::Error, message@),
            r.0 == old(self)@.next_id,
            r.1 == ERROR_TTL_MS,
            final(self)@.wf(),
    {
        self.push(ToastTone::Error, message)
    }

    /// Append a hidden toast; returns its id and its lifetime in milliseconds.
    pub fn push(&mut self, tone: ToastTone, message: String) -> (r: (u64, u64))
        requires
            old(self)@.wf(),
            old(self)@.next_id < u64::MAX,
        ensures
            final(self)@ == old(self)@.push(tone, message@),
            r.0 == old(self)@.next_id,
            r.1 == tone_ttl(tone),
            final(self)@.wf(),
    {
        proof {
            law_push_fresh_hidden(self@, tone, message@);
        }
        let ghost before = self@;
        let id = self.next_id;
        self.next_id = self.next_id + 1;
        let ghost mv = message@;
        self.toasts.push(Toast { id, message, tone, visible: false });
        assert(self@.toasts =~= before.toasts.push(ToastView { id: id as nat, message: mv, tone, visible: false }));
        let ttl = match tone {
            ToastTone::Success => SUCCESS_TTL_MS,
            ToastTone::Error => ERROR_TTL_MS,
        };
        (id, ttl)
    }

    fn find(&self, id: u64) -> (r: Option<usize>)
        requires
            self@.wf(),
        ensures
            r is Some ==> r->0 < self@.toasts.len() && id_index(self@.toasts, id as nat) == r->0 && has_id(self@.toasts, id as nat),
            r is None ==> !has_id(self@.toasts, id as nat),
    {
        let mut i: usize = 0;
        while i < self.toasts.len()
            invariant
                i <= self@.toasts.len(),
                self@.wf(),
                forall|k: int| 0 <= k < i ==> self@.toasts[k].id != id,
            decreases self@.toasts.len() - i,
        {
            if self.toasts[i].id == id {
                assert(self@.toasts[i as int].id == id);
                proof {
                    lemma_id_index_unique(self@, id as nat, i as int);
                }
                return Some(i);
            }
            i = i + 1;
        }
        None
    }

    /// Set the visibility of the toast with `id`, if it is still there.
    pub fn set_visible(&mut self, id: u64, visible: bool)
        requires
            old(self)@.wf(),
        ensures
            final(self)@ == old(self)@.set_visible(id as nat, visible),
            final(self)@.wf(),
    {
        proof {
            law_dismiss_idempotent(self@, id as nat);
        }
        let ghost before = self@;
        if let Some(i) = self.find(id) {
            let cur = &self.toasts[i];
            let t = Toast { id: cur.id, message: cur.message.clone(), tone: cur.tone, visible };
            let ghost tv = toast_view(t);
            self.toasts.set(i, t);
            assert(tv == ToastView { visible, ..before.toasts[i as int] });
            assert(self@.toasts =~= before.toasts.update(i as int, tv));
            assert forall|a: int, b: int| 0 <= a < b < self@.toasts.len() implies #[trigger] self@.toasts[a].id < #[trigger] self@.toasts[b].id by {
                assert(before.toasts[a].id < before.toasts[b].id);
            }
            assert forall|a: int| 0 <= a < self@.toasts.len() implies #[trigger] self@.toasts[a].id < self@.next_id by {
                assert(before.toasts[a].id < before.next_id);
            }
        }
    }

    /// Begin dismissing a toast: hide it (the host drops it after the exit
    /// fade). Idempotent.
    pub fn dismiss(&mut self, id: u64)
        requires
            old(self)@.wf(),
        ensures
            final(self)@ == old(self)@.set_visible(id as nat, false),
            final(self)@.wf(),
    {
        self.set_visible(id, false)
    }

    /// Drop the toast with `id` from the stack (after its exit fade).
    pub fn remove(&mut self, id: u64)
        requires
            old(self)@.wf(),
        ensures
            final(self)@ == old(self)@.remove(id as nat),
            final(self)@.wf(),
    {
        proof {
            lemma_remove_wf(self@, id as nat);
        }
        let ghost before = self@;
        if let Some(i) = self.find(id) {
            self.toasts.remove(i);
            assert(self@.toasts =~= before.toasts.remove(i as int));
        }
    }

    /// Whether the toast with `id` is present and visible.
    pub fn is_visible(&self, id: u64) -> (r: bool)
        requires
            self@.wf(),
        ensures
            r == self@.is_visible(id as nat),
    {
        match self.find(id) {
            Some(i) => self.toasts[i].visible,
            None => false,
        }
    }
}

/// Shared classes of every toast.
pub open spec fn toast_base_class() -> Seq<char> {
    "pointer-events-auto flex max-w-sm items-start gap-3 rounded-lg border p-3 text-sm shadow-lg transition-all duration-200 ease-out"@
}

/// Colour classes of a toast of the given tone.
pub open spec fn toast_tone_class(tone: ToastTone) -> Seq<char> {
    match tone {
        ToastTone::Error => "border-red-200 bg-red-50 text-red-700 dark:border-red-900 dark:bg-red-950 dark:text-red-300"@,
        ToastTone::Success => "border-green-200 bg-green-50 text-green-700 dark:border-green-900 dark:bg-green-950 dark:text-green-300"@,
    }
}

/// Transition classes for the shown or hidden state.
pub open spec fn toast_state_class(visible: bool) -> Seq<char> {
    if visible {
        "opacity-100 translate-y-0"@
    } else {
        "opacity-0 translate-y-2"@
    }
}

/// Classes of the toast container: base, tone, then the visibility state.
pub fn container_class(tone: ToastTone, visible: bool) -> (r: String)
    ensures
        r@ == toast_base_class() + " "@ + toast_tone_class(tone) + " "@ + toast_state_class(visible),
{
    let mut r = String::from_str(
        "pointer-events-auto flex max-w-sm items-start gap-3 rounded-lg border p-3 text-sm shadow-lg transition-all duration-200 ease-out",
    );
    r.append(" ");
    match tone {
        ToastTone::Error => r.append(
            "border-red-200 bg-red-50 text-red-700 dark:border-red-900 dark:bg-red-950 dark:text-red-300",
        ),
        ToastTone::Success => r.append(
            "border-green-200 bg-green-50 text-green-700 dark:border-green-900 dark:bg-green-950 dark:text-green-300",
        ),
    }
    r.append(" ");
    if visible {
        r.append("opacity-100 translate-y-0");
    } else {
        r.append("opacity-0 translate-y-2");
    }
    r
}

/// Colour classes of a toast's close button.
pub open spec fn toast_close_class(tone: ToastTone) -> Seq<char> {
    match tone {
        ToastTone::Error => "inline-flex shrink-0 items-center justify-center size-5 rounded text-red-700/70 hover:text-red-700 focus:outline-none dark:text-red-300/70 dark:hover:text-red-300"@,
        ToastTone::Success => "inline-flex shrink-0 items-center justify-center size-5 rounded text-green-700/70 hover:text-green-700 focus:outline-none dark:text-green-300/70 dark:hover:text-green-300"@,
    }
}

/// Classes of a toast's close button.
pub fn close_class(tone: ToastTone) -> (r: &'static str)
    ensures
        r@ == toast_close_class(tone),
{
    match tone {
        ToastTone::Error => "inline-flex shrink-0 items-center justify-center size-5 rounded text-red-700/70 hover:text-red-700 focus:outline-none dark:text-red-300/70 dark:hover:text-red-300",
        ToastTone::Success => "inline-flex shrink-0 items-center justify-center size-5 rounded text-green-700/70 hover:text-green-700 focus:outline-none dark:text-green-300/70 dark:hover:text-green-300",
    }
}

} // verus!
