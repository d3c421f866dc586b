//! What the bot remembers: questions that wait for an answer, and chats that are busy.

use vstd::prelude::*;
use crate::text::same_text;
use crate::timer::{TargetModel, TimerTarget};

verus! {

/// A reading of a clock that never goes back, in nanoseconds.
#[derive(Clone, Copy, Debug, PartialEq, Eq)]
pub struct Instant {
    pub nanos: u64,
}

/// How long a question waits for its answer, in seconds.
pub const CONFIRM_TTL_SECS: u64 = 120;

pub const TIMER_INPUT_TTL_SECS: u64 = 300;

pub const SERVER_WIZARD_TTL_SECS: u64 = 900;

/// The reading after a number of seconds.
pub open spec fn later_by(now: Instant, secs: u64) -> nat {
    now.nanos as nat + secs as nat * 1_000_000_000
}

fn expiry(now: Instant, secs: u64) -> (r: u128)
    ensures
        r == later_by(now, secs),
{
    assert(secs as u128 * 1_000_000_000 <= u64::MAX as u128 * 1_000_000_000) by (nonlinear_arith)
        requires
            secs <= u64::MAX,
    ;
    now.nanos as u128 + secs as u128 * 1_000_000_000
}

// ---------------------------------------------------------------------------
// One thing for each chat, for some time
// ---------------------------------------------------------------------------

struct Entry<T> {
    chat: i64,
    value: T,
    expires_at: u128,
}

/// What is kept for a chat: the thing, and when it is no longer kept.
pub struct ChatStore<T> {
    entries: Vec<Entry<T>>,
}

pub open spec fn shown<T: View>(o: Option<T>) -> Option<T::V> {
    match o {
        Some(v) => Some(v@),
        None => None,
    }
}

spec fn holds<T: View>(s: Seq<Entry<T>>, chat: i64) -> bool {
    exists|i: int| 0 <= i < s.len() && (#[trigger] s[i]).chat == chat
}

spec fn index_of<T: View>(s: Seq<Entry<T>>, chat: i64) -> int {
    choose|i: int| 0 <= i < s.len() && (#[trigger] s[i]).chat == chat
}

spec fn unique<T: View>(s: Seq<Entry<T>>) -> bool {
    forall|i: int, j: int|
        0 <= i < j < s.len() ==> (#[trigger] s[i]).chat != (#[trigger] s[j]).chat
}

spec fn as_map<T: View>(s: Seq<Entry<T>>) -> Map<i64, (T::V, nat)> {
    Map::new(
        |chat: i64| holds(s, chat),
        |chat: i64| (s[index_of(s, chat)].value@, s[index_of(s, chat)].expires_at as nat),
    )
}

proof fn lemma_as_map<T: View>(s: Seq<Entry<T>>, i: int)
    requires
        unique(s),
        0 <= i < s.len(),
    ensures
        as_map(s).dom().contains(s[i].chat),
        as_map(s)[s[i].chat] == (s[i].value@, s[i].expires_at as nat),
{
    assert(holds(s, s[i].chat));
    let j = index_of(s, s[i].chat);
    assert(0 <= j < s.len() && s[j].chat == s[i].chat);
    if i < j {
        assert(s[i].chat != s[j].chat);
    } else if j < i {
        assert(s[j].chat != s[i].chat);
    }
}

/// Two maps that come of lists with the same entries for each chat are the same.
proof fn lemma_map_is<T: View>(s: Seq<Entry<T>>, m: Map<i64, (T::V, nat)>)
    requires
        unique(s),
        forall|i: int|
            0 <= i < s.len() ==> m.dom().contains((#[trigger] s[i]).chat) && m[s[i].chat] == (
                s[i].value@,
                s[i].expires_at as nat,
            ),
        forall|chat: i64| #[trigger] m.dom().contains(chat) ==> holds(s, chat),
    ensures
        as_map(s) == m,
{
    assert forall|chat: i64| as_map(s).dom().contains(chat) == m.dom().contains(chat) by {
        if holds(s, chat) {
            let i = index_of(s, chat);
            assert(m.dom().contains(s[i].chat));
        }
    }
    assert forall|chat: i64| as_map(s).dom().contains(chat) implies as_map(s)[chat] == m[chat] by {
        let i = index_of(s, chat);
        lemma_as_map(s, i);
        assert(m[s[i].chat] == (s[i].value@, s[i].expires_at as nat));
    }
    assert(as_map(s) =~= m);
}

/// The entries that are still kept at `now`.
spec fn kept<T: View>(s: Seq<Entry<T>>, now: Instant) -> Seq<Entry<T>>
    decreases s.len(),
{
    if s.len() == 0 {
        Seq::empty()
    } else if s.last().expires_at > now.nanos {
        kept(s.drop_last(), now).push(s.last())
    } else {
        kept(s.drop_last(), now)
    }
}

proof fn lemma_kept<T: View>(s: Seq<Entry<T>>, now: Instant)
    ensures
        forall|i: int|
            0 <= i < kept(s, now).len() ==> (#[trigger] kept(s, now)[i]).expires_at > now.nanos
                && exists|j: int| 0 <= j < s.len() && #[trigger] s[j] == kept(s, now)[i],
        forall|j: int|
            0 <= j < s.len() && (#[trigger] s[j]).expires_at > now.nanos ==> exists|i: int|
                0 <= i < kept(s, now).len() && #[trigger] kept(s, now)[i] == s[j],
        unique(s) ==> unique(kept(s, now)),
    decreases s.len(),
{
    if s.len() > 0 {
        let d = s.drop_last();
        lemma_kept(d, now);
        let k = kept(s, now);
        let kd = kept(d, now);
        assert forall|i: int| 0 <= i < k.len() implies (#[trigger] k[i]).expires_at > now.nanos
            && exists|j: int| 0 <= j < s.len() && #[trigger] s[j] == k[i] by {
            if i < kd.len() {
                assert(k[i] == kd[i]);
                let j = choose|j: int| 0 <= j < d.len() && #[trigger] d[j] == kd[i];
                assert(s[j] == k[i]);
            } else {
                assert(s[s.len() - 1] == k[i]);
            }
        }
        assert forall|j: int|
            0 <= j < s.len() && (#[trigger] s[j]).expires_at > now.nanos implies exists|i: int|
            0 <= i < k.len() && #[trigger] k[i] == s[j] by {
            if j < d.len() {
                assert(d[j] == s[j]);
                let i = choose|i: int| 0 <= i < kd.len() && #[trigger] kd[i] == d[j];
                assert(k[i] == s[j]);
            } else {
                assert(k[k.len() - 1] == s[j]);
            }
        }
        if unique(s) {
            assert(unique(d)) by {
                assert forall|a: int, b: int| 0 <= a < b < d.len() implies (#[trigger] d[a]).chat
                    != (#[trigger] d[b]).chat by {
                    assert(d[a] == s[a] && d[b] == s[b]);
                }
            }
            assert forall|a: int, b: int| 0 <= a < b < k.len() implies (#[trigger] k[a]).chat != (
            #[trigger] k[b]).chat by {
                assert(k[a] == kd[a]);
                if b < kd.len() {
                    assert(k[b] == kd[b]);
                } else {
                    let j = choose|j: int| 0 <= j < d.len() && #[trigger] d[j] == kd[a];
                    assert(s[j].chat != s[s.len() - 1].chat);
                }
            }
        }
    }
}

/// What is still kept at `now`.
pub open spec fn pruned<T>(m: Map<i64, (T, nat)>, now: Instant) -> Map<i64, (T, nat)> {
    m.restrict(Set::new(|chat: i64| m.dom().contains(chat) && m[chat].1 > now.nanos))
}

proof fn lemma_kept_map<T: View>(s: Seq<Entry<T>>, now: Instant)
    requires
        unique(s),
    ensures
        as_map(kept(s, now)) == pruned(as_map(s), now),
{
    lemma_kept(s, now);
    let k = kept(s, now);
    let m = pruned(as_map(s), now);
    assert forall|i: int| 0 <= i < k.len() implies m.dom().contains((#[trigger] k[i]).chat)
        && m[k[i].chat] == (k[i].value@, k[i].expires_at as nat) by {
        let j = choose|j: int| 0 <= j < s.len() && #[trigger] s[j] == k[i];
        lemma_as_map(s, j);
    }
    assert forall|chat: i64| #[trigger] m.dom().contains(chat) implies holds(k, chat) by {
        let j = index_of(s, chat);
        assert(holds(s, chat));
        lemma_as_map(s, j);
        assert(s[j].expires_at > now.nanos);
        let i = choose|i: int| 0 <= i < k.len() && #[trigger] k[i] == s[j];
        assert(k[i].chat == chat);
    }
    lemma_map_is(k, m);
}

impl<T: View> ChatStore<T> {
    pub closed spec fn view(&self) -> Map<i64, (T::V, nat)> {
        as_map(self.entries@)
    }

    /// No chat has two entries.
    pub closed spec fn wf(&self) -> bool {
        unique(self.entries@)
    }

    pub fn new() -> (r: Self)
        ensures
            r.wf(),
            r@ == Map::<i64, (T::V, nat)>::empty(),
    {
        let r = ChatStore { entries: Vec::new() };
        assert(r@ =~= Map::<i64, (T::V, nat)>::empty());
        r
    }

    fn position(&self, chat: i64) -> (r: usize)
        ensures
            r <= self.entries@.len(),
            r < self.entries@.len() ==> self.entries@[r as int].chat == chat,
            r == self.entries@.len() ==> !holds(self.entries@, chat),
    {
        let mut i: usize = 0;
        while i < self.entries.len()
            invariant
                i <= self.entries@.len(),
                forall|k: int| 0 <= k < i ==> (#[trigger] self.entries@[k]).chat != chat,
            decreases self.entries@.len() - i,
        {
            if self.entries[i].chat == chat {
                return i;
            }
            i += 1;
        }
        i
    }

    /// Drops what is no longer kept.
    pub fn prune(&mut self, now: Instant)
        requires
            old(self).wf(),
        ensures
            final(self).wf(),
            final(self)@ == pruned(old(self)@, now),
    {
        let ghost all = self.entries@;
        let ghost mut done: int = 0;
        let mut i: usize = 0;
        assert(kept(all.subrange(0, 0), now) + all.subrange(0, all.len() as int) =~= all);
        while i < self.entries.len()
            invariant
                0 <= done <= all.len(),
                i == kept(all.subrange(0, done), now).len(),
                self.entries@ == kept(all.subrange(0, done), now) + all.subrange(
                    done,
                    all.len() as int,
                ),
            decreases all.len() - done,
        {
            let ghost before = self.entries@;
            let ghost k = kept(all.subrange(0, done), now);
            proof {
                assert(before.len() == k.len() + (all.len() - done));
                assert(before[i as int] == all[done]);
                assert(all.subrange(0, done + 1).drop_last() =~= all.subrange(0, done));
                assert(all.subrange(0, done + 1).last() == all[done]);
            }
            if self.entries[i].expires_at > now.nanos as u128 {
                proof {
                    assert(kept(all.subrange(0, done + 1), now) == k.push(all[done]));
                    assert(before =~= k.push(all[done]) + all.subrange(
                        done + 1,
                        all.len() as int,
                    ));
                }
                i += 1;
            } else {
                self.entries.remove(i);
                proof {
                    assert(kept(all.subrange(0, done + 1), now) == k);
                    assert(self.entries@ =~= k + all.subrange(done + 1, all.len() as int));
                }
            }
            proof {
                done = done + 1;
            }
        }
        proof {
            assert(done == all.len());
            assert(all.subrange(0, done) =~= all);
            assert(self.entries@ =~= kept(all, now));
            lemma_kept(all, now);
            lemma_kept_map(all, now);
        }
    }

    /// Drops the entry of a chat and gives it.
    pub fn remove(&mut self, chat: i64) -> (r: Option<T>)
        requires
            old(self).wf(),
        ensures
            final(self).wf(),
            final(self)@ == old(self)@.remove(chat),
            shown(r) == (if old(self)@.dom().contains(chat) {
                Some(old(self)@[chat].0)
            } else {
                None
            }),
    {
        let i = self.position(chat);
        let ghost all = self.entries@;
        if i == self.entries.len() {
            assert(self@ =~= old(self)@.remove(chat));
            return None;
        }
        let entry = self.entries.remove(i);
        proof {
            lemma_as_map(all, i as int);
            let now = self.entries@;
            let m = as_map(all).remove(chat);
            assert forall|a: int, b: int| 0 <= a < b < now.len() implies (#[trigger] now[a]).chat
                != (#[trigger] now[b]).chat by {
                let a0 = if a < i {
                    a
                } else {
                    a + 1
                };
                let b0 = if b < i {
                    b
                } else {
                    b + 1
                };
                assert(now[a] == all[a0] && now[b] == all[b0]);
            }
            assert forall|a: int| 0 <= a < now.len() implies m.dom().contains(
                (#[trigger] now[a]).chat,
            ) && m[now[a].chat] == (now[a].value@, now[a].expires_at as nat) by {
                let a0 = if a < i {
                    a
                } else {
                    a + 1
                };
                assert(now[a] == all[a0]);
                lemma_as_map(all, a0);
                if a0 < i {
                    assert(all[a0].chat != all[i as int].chat);
                } else {
                    assert(all[i as int].chat != all[a0].chat);
                }
            }
            assert forall|c: i64| #[trigger] m.dom().contains(c) implies holds(now, c) by {
                let a0 = index_of(all, c);
                assert(holds(all, c));
                if a0 < i {
                    assert(now[a0] == all[a0]);
                } else {
                    assert(now[a0 - 1] == all[a0]);
                }
            }
            lemma_map_is(now, m);
        }
        Some(entry.value)
    }

    /// Keeps something for a chat, in place of what was kept for it.
    pub fn insert(&mut self, chat: i64, value: T, now: Instant, secs: u64)
        requires
            old(self).wf(),
        ensures
            final(self).wf(),
            final(self)@ == old(self)@.insert(chat, (value@, later_by(now, secs))),
    {
        let expires_at: u128 = expiry(now, secs);
        let _ = self.remove(chat);
        let ghost all = self.entries@;
        assert(!holds(all, chat)) by {
            assert(!as_map(all).dom().contains(chat));
        }
        let entry = Entry { chat, value, expires_at };
        self.entries.push(entry);
        proof {
            let now_entries = self.entries@;
            let m = old(self)@.insert(chat, (value@, expires_at as nat));
            assert forall|a: int, b: int| 0 <= a < b < now_entries.len() implies (
            #[trigger] now_entries[a]).chat != (#[trigger] now_entries[b]).chat by {
                assert(now_entries[a] == all[a]);
                if b < all.len() {
                    assert(now_entries[b] == all[b]);
                }
            }
            assert forall|a: int| 0 <= a < now_entries.len() implies m.dom().contains(
                (#[trigger] now_entries[a]).chat,
            ) && m[now_entries[a].chat] == (
                now_entries[a].value@,
                now_entries[a].expires_at as nat,
            ) by {
                if a < all.len() {
                    assert(now_entries[a] == all[a]);
                    lemma_as_map(all, a);
                    assert(all[a].chat != chat);
                }
            }
            assert forall|c: i64| #[trigger] m.dom().contains(c) implies holds(now_entries, c) by {
                if c == chat {
                    assert(now_entries[all.len() as int].chat == c);
                } else {
                    assert(as_map(all).dom().contains(c));
                    let a = index_of(all, c);
                    assert(now_entries[a] == all[a]);
                }
            }
            lemma_map_is(now_entries, m);
        }
    }

    /// How many chats something is kept for.
    pub fn len(&self) -> (r: usize)
        requires
            self.wf(),
        ensures
            self@.dom().finite(),
            r == self@.dom().len(),
    {
        proof {
            lemma_map_len(self.entries@);
        }
        self.entries.len()
    }
}

proof fn lemma_map_len<T: View>(s: Seq<Entry<T>>)
    requires
        unique(s),
    ensures
        as_map(s).dom().finite(),
        as_map(s).dom().len() == s.len(),
    decreases s.len(),
{
    if s.len() == 0 {
        assert(as_map(s).dom() =~= Set::<i64>::empty());
    } else {
        let d = s.drop_last();
        let c = s.last().chat;
        assert forall|a: int, b: int| 0 <= a < b < d.len() implies (#[trigger] d[a]).chat != (
        #[trigger] d[b]).chat by {
            assert(d[a] == s[a] && d[b] == s[b]);
        }
        lemma_map_len(d);
        assert(!holds(d, c)) by {
            if holds(d, c) {
                let i = index_of(d, c);
                assert(s[i].chat != s[s.len() - 1].chat);
            }
        }
        assert forall|k: i64| as_map(s).dom().contains(k) == as_map(d).dom().insert(c).contains(
            k,
        ) by {
            if holds(s, k) {
                let i = index_of(s, k);
                if i < d.len() {
                    assert(d[i].chat == k);
                }
            }
            if holds(d, k) {
                let i = index_of(d, k);
                assert(s[i].chat == k);
            }
            if k == c {
                assert(s[s.len() - 1].chat == k);
            }
        }
        assert(as_map(s).dom() =~= as_map(d).dom().insert(c));
    }
}

// ---------------------------------------------------------------------------
// Times that are waited for
// ---------------------------------------------------------------------------

/// What a time that is entered is for.
#[derive(Debug, PartialEq, Eq)]
pub enum TimerInputMode {
    New,
    Edit(TimerTarget),
}

pub enum InputModel {
    New,
    Edit(TargetModel),
}

impl View for TimerInputMode {
    type V = InputModel;

    open spec fn view(&self) -> InputModel {
        match self {
            TimerInputMode::New => InputModel::New,
            TimerInputMode::Edit(t) => InputModel::Edit(t@),
        }
    }
}

pub struct TimerInputStore {
    pending: ChatStore<TimerInputMode>,
}

impl TimerInputStore {
    pub closed spec fn view(&self) -> Map<i64, (InputModel, nat)> {
        self.pending@
    }

    pub closed spec fn wf(&self) -> bool {
        self.pending.wf()
    }

    pub fn new() -> (r: Self)
        ensures
            r.wf(),
            r@ == Map::<i64, (InputModel, nat)>::empty(),
    {
        TimerInputStore { pending: ChatStore::new() }
    }

    /// A time is waited for in a chat.
    pub fn set(&mut self, chat_id: i64, mode: TimerInputMode, now: Instant)
        requires
            old(self).wf(),
        ensures
            final(self).wf(),
            final(self)@ == pruned(old(self)@, now).insert(
                chat_id,
                (mode@, later_by(now, TIMER_INPUT_TTL_SECS)),
            ),
    {
        self.pending.prune(now);
        self.pending.insert(chat_id, mode, now, TIMER_INPUT_TTL_SECS);
    }

    /// What the next text of a chat is for. It is given once.
    pub fn take(&mut self, chat_id: i64, now: Instant) -> (r: Option<TimerInputMode>)
        requires
            old(self).wf(),
        ensures
            final(self).wf(),
            shown(r) == taken(old(self)@, chat_id, now),
            final(self)@ == pruned(old(self)@, now).remove(chat_id),
    {
        self.pending.prune(now);
        self.pending.remove(chat_id)
    }

    pub fn prune(&mut self, now: Instant)
        requires
            old(self).wf(),
        ensures
            final(self).wf(),
            final(self)@ == pruned(old(self)@, now),
    {
        self.pending.prune(now);
    }
}

/// What is kept for a chat at `now`.
pub open spec fn taken<T>(m: Map<i64, (T, nat)>, chat: i64, now: Instant) -> Option<T> {
    if m.dom().contains(chat) && m[chat].1 > now.nanos {
        Some(m[chat].0)
    } else {
        None
    }
}

/// What is asked for is answered once, and only while it is kept: `secs` seconds.
pub proof fn asked_once<T>(
    m: Map<i64, (T, nat)>,
    chat: i64,
    value: T,
    asked: Instant,
    secs: u64,
    now: Instant,
    later: Instant,
)
    requires
        asked.nanos <= now.nanos <= later.nanos,
    ensures
        ({
            let set = pruned(m, asked).insert(chat, (value, later_by(asked, secs)));
            let after = pruned(set, now).remove(chat);
            &&& (now.nanos < later_by(asked, secs) ==> taken(set, chat, now) == Some(value))
            &&& (now.nanos >= later_by(asked, secs) ==> taken(set, chat, now) is None)
            &&& taken(after, chat, later) is None
        }),
{
}

/// What is done for one chat leaves the others as they are.
pub proof fn chats_are_apart<T>(
    m: Map<i64, (T, nat)>,
    chat: i64,
    other: i64,
    value: T,
    asked: Instant,
    secs: u64,
    now: Instant,
)
    requires
        chat != other,
        asked.nanos <= now.nanos,
    ensures
        taken(pruned(m, asked).insert(chat, (value, later_by(asked, secs))), other, now) == taken(
            m,
            other,
            now,
        ),
        taken(pruned(m, asked).remove(chat), other, now) == taken(m, other, now),
{
}

// ---------------------------------------------------------------------------
// Servers that are being added
// ---------------------------------------------------------------------------

/// What the next text is, while a server is being added.
pub enum ServerWizardStep {
    Name,
    Address { name: String },
    Token { name: String, address: String },
}

#[verifier::ext_equal]
pub enum StepModel {
    Name,
    Address { name: Seq<char> },
    Token { name: Seq<char>, address: Seq<char> },
}

impl View for ServerWizardStep {
    type V = StepModel;

    open spec fn view(&self) -> StepModel {
        match self {
            ServerWizardStep::Name => StepModel::Name,
            ServerWizardStep::Address { name } => StepModel::Address { name: name@ },
            ServerWizardStep::Token { name, address } => StepModel::Token {
                name: name@,
                address: address@,
            },
        }
    }
}

pub struct ServerWizardStore {
    pending: ChatStore<ServerWizardStep>,
}

impl ServerWizardStore {
    pub closed spec fn view(&self) -> Map<i64, (StepModel, nat)> {
        self.pending@
    }

    pub closed spec fn wf(&self) -> bool {
        self.pending.wf()
    }

    pub fn new() -> (r: Self)
        ensures
            r.wf(),
            r@ == Map::<i64, (StepModel, nat)>::empty(),
    {
        ServerWizardStore { pending: ChatStore::new() }
    }

    /// Begins with the name.
    pub fn start(&mut self, chat_id: i64, now: Instant)
        requires
            old(self).wf(),
        ensures
            final(self).wf(),
            final(self)@ == pruned(old(self)@, now).insert(
                chat_id,
                (StepModel::Name, later_by(now, SERVER_WIZARD_TTL_SECS)),
            ),
    {
        self.pending.prune(now);
        let _ = self.pending.remove(chat_id);
        self.pending.insert(chat_id, ServerWizardStep::Name, now, SERVER_WIZARD_TTL_SECS);
        assert(self@ =~= pruned(old(self)@, now).insert(
            chat_id,
            (StepModel::Name, later_by(now, SERVER_WIZARD_TTL_SECS)),
        ));
    }

    pub fn set_step(&mut self, chat_id: i64, step: ServerWizardStep, now: Instant)
        requires
            old(self).wf(),
        ensures
            final(self).wf(),
            final(self)@ == pruned(old(self)@, now).insert(
                chat_id,
                (step@, later_by(now, SERVER_WIZARD_TTL_SECS)),
            ),
    {
        self.pending.prune(now);
        self.pending.insert(chat_id, step, now, SERVER_WIZARD_TTL_SECS);
    }

    pub fn take_step(&mut self, chat_id: i64, now: Instant) -> (r: Option<ServerWizardStep>)
        requires
            old(self).wf(),
        ensures
            final(self).wf(),
            shown(r) == taken(old(self)@, chat_id, now),
            final(self)@ == pruned(old(self)@, now).remove(chat_id),
    {
        self.pending.prune(now);
        self.pending.remove(chat_id)
    }

    pub fn prune(&mut self, now: Instant)
        requires
            old(self).wf(),
        ensures
            final(self).wf(),
            final(self)@ == pruned(old(self)@, now),
    {
        self.pending.prune(now);
    }
}

// ---------------------------------------------------------------------------
// Servers that are being changed
// ---------------------------------------------------------------------------

/// What the next text is, while a server is being changed.
#[derive(Debug, PartialEq, Eq)]
pub enum ServerEditMode {
    Name { server_id: String },
    Address { server_id: String },
    Token { server_id: String },
}

pub enum EditModel {
    Name(Seq<char>),
    Address(Seq<char>),
    Token(Seq<char>),
}

impl View for ServerEditMode {
    type V = EditModel;

    open spec fn view(&self) -> EditModel {
        match self {
            ServerEditMode::Name { server_id } => EditModel::Name(server_id@),
            ServerEditMode::Address { server_id } => EditModel::Address(server_id@),
            ServerEditMode::Token { server_id } => EditModel::Token(server_id@),
        }
    }
}

pub struct ServerEditStore {
    pending: ChatStore<ServerEditMode>,
}

impl ServerEditStore {
    pub closed spec fn view(&self) -> Map<i64, (EditModel, nat)> {
        self.pending@
    }

    pub closed spec fn wf(&self) -> bool {
        self.pending.wf()
    }

    pub fn new() -> (r: Self)
        ensures
            r.wf(),
            r@ == Map::<i64, (EditModel, nat)>::empty(),
    {
        ServerEditStore { pending: ChatStore::new() }
    }

    pub fn set(&mut self, chat_id: i64, mode: ServerEditMode, now: Instant)
        requires
            old(self).wf(),
        ensures
            final(self).wf(),
            final(self)@ == pruned(old(self)@, now).insert(
                chat_id,
                (mode@, later_by(now, SERVER_WIZARD_TTL_SECS)),
            ),
    {
        self.pending.prune(now);
        self.pending.insert(chat_id, mode, now, SERVER_WIZARD_TTL_SECS);
    }

    pub fn take(&mut self, chat_id: i64, now: Instant) -> (r: Option<ServerEditMode>)
        requires
            old(self).wf(),
        ensures
            final(self).wf(),
            shown(r) == taken(old(self)@, chat_id, now),
            final(self)@ == pruned(old(self)@, now).remove(chat_id),
    {
        self.pending.prune(now);
        self.pending.remove(chat_id)
    }

    pub fn cancel(&mut self, chat_id: i64)
        requires
            old(self).wf(),
        ensures
            final(self).wf(),
            final(self)@ == old(self)@.remove(chat_id),
    {
        let _ = self.pending.remove(chat_id);
    }

    pub fn prune(&mut self, now: Instant)
        requires
            old(self).wf(),
        ensures
            final(self).wf(),
            final(self)@ == pruned(old(self)@, now),
    {
        self.pending.prune(now);
    }

    pub fn pending_count(&self) -> (r: usize)
        requires
            self.wf(),
        ensures
            r == self@.dom().len(),
    {
        self.pending.len()
    }
}

// ---------------------------------------------------------------------------
// Messages about timers
// ---------------------------------------------------------------------------

/// The messages about timers that are still to be seen in the chats.
pub struct TimerMessageStore {
    messages: Vec<(i64, i32)>,
}

/// The messages of one chat, in the order in which they were recorded.
pub open spec fn of_chat(all: Seq<(i64, i32)>, chat: i64) -> Seq<i32>
    decreases all.len(),
{
    if all.len() == 0 {
        Seq::empty()
    } else if all.last().0 == chat {
        of_chat(all.drop_last(), chat).push(all.last().1)
    } else {
        of_chat(all.drop_last(), chat)
    }
}

/// The messages of the other chats.
spec fn not_of_chat(all: Seq<(i64, i32)>, chat: i64) -> Seq<(i64, i32)>
    decreases all.len(),
{
    if all.len() == 0 {
        Seq::empty()
    } else if all.last().0 == chat {
        not_of_chat(all.drop_last(), chat)
    } else {
        not_of_chat(all.drop_last(), chat).push(all.last())
    }
}

proof fn lemma_not_of_chat(all: Seq<(i64, i32)>, chat: i64, other: i64)
    ensures
        of_chat(not_of_chat(all, chat), other) == (if other == chat {
            Seq::<i32>::empty()
        } else {
            of_chat(all, other)
        }),
    decreases all.len(),
{
    if all.len() > 0 {
        let d = all.drop_last();
        lemma_not_of_chat(d, chat, other);
        if all.last().0 != chat {
            let n = not_of_chat(d, chat);
            assert(n.push(all.last()).drop_last() =~= n);
        }
    }
}

proof fn lemma_of_chat_contains(all: Seq<(i64, i32)>, chat: i64, message: i32)
    ensures
        of_chat(all, chat).contains(message) <==> all.contains((chat, message)),
    decreases all.len(),
{
    if all.len() > 0 {
        let d = all.drop_last();
        lemma_of_chat_contains(d, chat, message);
        let o = of_chat(all, chat);
        let od = of_chat(d, chat);
        if o.contains(message) {
            let i = choose|i: int| 0 <= i < o.len() && o[i] == message;
            if all.last().0 == chat && i == od.len() {
                assert(all[all.len() - 1] == (chat, message));
            } else {
                assert(od[i] == message);
                let j = choose|j: int| 0 <= j < d.len() && d[j] == (chat, message);
                assert(all[j] == (chat, message));
            }
        }
        if all.contains((chat, message)) {
            let j = choose|j: int| 0 <= j < all.len() && all[j] == (chat, message);
            if j < d.len() {
                assert(d[j] == (chat, message));
                let i = choose|i: int| 0 <= i < od.len() && od[i] == message;
                assert(o[i] == message);
            } else {
                assert(o[o.len() - 1] == message);
            }
        }
    }
}

impl TimerMessageStore {
    pub closed spec fn of(&self, chat: i64) -> Seq<i32> {
        of_chat(self.messages@, chat)
    }

    pub fn new() -> (r: Self)
        ensures
            forall|chat: i64| #[trigger] r.of(chat) == Seq::<i32>::empty(),
    {
        TimerMessageStore { messages: Vec::new() }
    }

    /// Records a message, once.
    pub fn record(&mut self, chat_id: i64, message_id: i32)
        ensures
            forall|chat: i64| #[trigger]
                final(self).of(chat) == (if chat == chat_id && !old(self).of(chat).contains(
                    message_id,
                ) {
                    old(self).of(chat).push(message_id)
                } else {
                    old(self).of(chat)
                }),
    {
        let ghost all = self.messages@;
        let mut i: usize = 0;
        proof {
            lemma_of_chat_contains(all, chat_id, message_id);
        }
        while i < self.messages.len()
            invariant
                i <= self.messages@.len(),
                self.messages@ == all,
                all == old(self).messages@,
                of_chat(all, chat_id).contains(message_id) <==> all.contains((chat_id, message_id)),
                forall|k: int| 0 <= k < i ==> #[trigger] all[k] != (chat_id, message_id),
            decreases self.messages@.len() - i,
        {
            if self.messages[i].0 == chat_id && self.messages[i].1 == message_id {
                assert(all[i as int] == (chat_id, message_id));
                return;
            }
            i += 1;
        }
        self.messages.push((chat_id, message_id));
        assert(self.messages@.drop_last() =~= all);
    }

    /// The messages of a chat; they are no longer recorded.
    pub fn take_all(&mut self, chat_id: i64) -> (r: Vec<i32>)
        ensures
            r@ == old(self).of(chat_id),
            forall|chat: i64| #[trigger]
                final(self).of(chat) == (if chat == chat_id {
                    Seq::<i32>::empty()
                } else {
                    old(self).of(chat)
                }),
    {
        let ghost all = self.messages@;
        let mut mine: Vec<i32> = Vec::new();
        let mut others: Vec<(i64, i32)> = Vec::new();
        let mut i: usize = 0;
        while i < self.messages.len()
            invariant
                i <= self.messages@.len(),
                self.messages@ == all,
                mine@ == of_chat(all.subrange(0, i as int), chat_id),
                others@ == not_of_chat(all.subrange(0, i as int), chat_id),
            decreases self.messages@.len() - i,
        {
            let ghost t = all.subrange(0, i + 1);
            assert(t.drop_last() =~= all.subrange(0, i as int));
            let (chat, message) = self.messages[i];
            if chat == chat_id {
                mine.push(message);
            } else {
                others.push((chat, message));
            }
            i += 1;
        }
        assert(all.subrange(0, all.len() as int) =~= all);
        self.messages = others;
        proof {
            assert forall|chat: i64| #[trigger] self.of(chat) == (if chat == chat_id {
                Seq::<i32>::empty()
            } else {
                old(self).of(chat)
            }) by {
                lemma_not_of_chat(all, chat_id, chat);
            }
        }
        mine
    }

    pub fn count(&self, chat_id: i64) -> (r: usize)
        ensures
            r == self.of(chat_id).len(),
    {
        let mut n: usize = 0;
        let mut i: usize = 0;
        while i < self.messages.len()
            invariant
                i <= self.messages@.len(),
                n <= i,
                n == of_chat(self.messages@.subrange(0, i as int), chat_id).len(),
            decreases self.messages@.len() - i,
        {
            let ghost t = self.messages@.subrange(0, i + 1);
            assert(t.drop_last() =~= self.messages@.subrange(0, i as int));
            if self.messages[i].0 == chat_id {
                n += 1;
            }
            i += 1;
        }
        assert(self.messages@.subrange(0, self.messages@.len() as int) =~= self.messages@);
        n
    }
}

// ---------------------------------------------------------------------------
// Busy chats
// ---------------------------------------------------------------------------

/// The chats for which something is under way.
pub struct BotBusyStore {
    chats: Vec<i64>,
}

impl BotBusyStore {
    pub closed spec fn view(&self) -> Set<i64> {
        self.chats@.to_set()
    }

    pub closed spec fn wf(&self) -> bool {
        self.chats@.no_duplicates()
    }

    pub fn new() -> (r: Self)
        ensures
            r.wf(),
            r@ == Set::<i64>::empty(),
    {
        let r = BotBusyStore { chats: Vec::new() };
        assert(r@ =~= Set::<i64>::empty());
        r
    }

    fn position(&self, chat_id: i64) -> (r: usize)
        ensures
            r <= self.chats@.len(),
            r < self.chats@.len() ==> self.chats@[r as int] == chat_id && self@.contains(chat_id),
            r == self.chats@.len() ==> !self@.contains(chat_id),
    {
        let mut i: usize = 0;
        while i < self.chats.len()
            invariant
                i <= self.chats@.len(),
                forall|k: int| 0 <= k < i ==> #[trigger] self.chats@[k] != chat_id,
            decreases self.chats@.len() - i,
        {
            if self.chats[i] == chat_id {
                assert(self.chats@.contains(chat_id));
                return i;
            }
            i += 1;
        }
        i
    }

    /// Something is begun for a chat, unless something is under way for it.
    pub fn try_enter(&mut self, chat_id: i64) -> (r: bool)
        requires
            old(self).wf(),
        ensures
            final(self).wf(),
            r == !old(self)@.contains(chat_id),
            final(self)@ == old(self)@.insert(chat_id),
    {
        let i = self.position(chat_id);
        if i < self.chats.len() {
            assert(self@ =~= old(self)@.insert(chat_id));
            return false;
        }
        let ghost before = self.chats@;
        self.chats.push(chat_id);
        proof {
            assert forall|c: i64| self@.contains(c) == old(self)@.insert(chat_id).contains(c) by {
                if self.chats@.contains(c) {
                    let j = choose|j: int| 0 <= j < self.chats@.len() && self.chats@[j] == c;
                    if j < before.len() {
                        assert(before[j] == c);
                    }
                }
                if before.contains(c) {
                    let j = choose|j: int| 0 <= j < before.len() && before[j] == c;
                    assert(self.chats@[j] == c);
                }
                if c == chat_id {
                    assert(self.chats@[before.len() as int] == c);
                }
            }
            assert(self@ =~= old(self)@.insert(chat_id));
            assert(forall|k: int| 0 <= k < before.len() ==> before[k] != chat_id) by {
                assert forall|k: int| 0 <= k < before.len() implies before[k] != chat_id by {
                    assert(before.contains(before[k]));
                    assert(old(self)@.contains(before[k]));
                }
            }
        }
        true
    }

    /// What was begun for a chat is over.
    pub fn leave(&mut self, chat_id: i64)
        requires
            old(self).wf(),
        ensures
            final(self).wf(),
            final(self)@ == old(self)@.remove(chat_id),
    {
        let i = self.position(chat_id);
        let ghost before = self.chats@;
        if i < self.chats.len() {
            self.chats.remove(i);
            proof {
                let now = self.chats@;
                assert forall|c: i64| self@.contains(c) == old(self)@.remove(chat_id).contains(c) by {
                    if now.contains(c) {
                        let j = choose|j: int| 0 <= j < now.len() && now[j] == c;
                        let j0 = if j < i {
                            j
                        } else {
                            j + 1
                        };
                        assert(before[j0] == c);
                    }
                    if before.contains(c) && c != chat_id {
                        let j = choose|j: int| 0 <= j < before.len() && before[j] == c;
                        if j < i {
                            assert(now[j] == c);
                        } else {
                            assert(now[j - 1] == c);
                        }
                    }
                }
                assert forall|a: int, b: int|
                    0 <= a < now.len() && 0 <= b < now.len() && a != b implies now[a] != now[b] by {
                    let a0 = if a < i {
                        a
                    } else {
                        a + 1
                    };
                    let b0 = if b < i {
                        b
                    } else {
                        b + 1
                    };
                    assert(now[a] == before[a0] && now[b] == before[b0]);
                }
            }
        }
        assert(self@ =~= old(self)@.remove(chat_id));
    }
}

// ---------------------------------------------------------------------------
// Confirmations
// ---------------------------------------------------------------------------

pub open spec fn hex_digit(n: nat) -> char {
    if n < 10 {
        ('0' as nat + n) as char
    } else {
        ('a' as nat + n - 10) as char
    }
}

/// A number in lower case hexadecimal.
pub open spec fn hex(n: nat) -> Seq<char>
    decreases n,
{
    if n < 16 {
        seq![hex_digit(n)]
    } else {
        hex(n / 16).push(hex_digit(n % 16))
    }
}

fn hex_char(n: u128) -> (r: char)
    requires
        n < 16,
    ensures
        r == hex_digit(n as nat),
{
    match n {
        0 => '0',
        1 => '1',
        2 => '2',
        3 => '3',
        4 => '4',
        5 => '5',
        6 => '6',
        7 => '7',
        8 => '8',
        9 => '9',
        10 => 'a',
        11 => 'b',
        12 => 'c',
        13 => 'd',
        14 => 'e',
        _ => 'f',
    }
}

fn hex_text(n: u128) -> (r: String)
    ensures
        r@ == hex(n as nat),
    decreases n,
{
    if n < 16 {
        let mut r = String::new();
        r.push(hex_char(n));
        assert(r@ =~= seq![hex_digit(n as nat)]);
        r
    } else {
        let mut r = hex_text(n / 16);
        r.push(hex_char(n % 16));
        r
    }
}

proof fn lemma_hex_digit(a: nat, b: nat)
    requires
        a < 16,
        b < 16,
        hex_digit(a) == hex_digit(b),
    ensures
        a == b,
{
}

proof fn lemma_hex_differs(a: nat, b: nat)
    requires
        hex(a) == hex(b),
    ensures
        a == b,
    decreases a,
{
    lemma_hex_len(a);
    lemma_hex_len(b);
    if a < 16 || b < 16 {
        assert(hex(a).len() == hex(b).len());
        assert(a < 16 && b < 16);
        assert(hex(a) == seq![hex_digit(a)]);
        assert(hex(b) == seq![hex_digit(b)]);
        assert(hex(a)[0] == hex_digit(a));
        assert(hex(b)[0] == hex_digit(b));
        lemma_hex_digit(a, b);
    } else {
        assert(hex(a).drop_last() =~= hex(a / 16));
        assert(hex(b).drop_last() =~= hex(b / 16));
        assert(hex(a) == hex(a / 16).push(hex_digit(a % 16)));
        assert(hex(b) == hex(b / 16).push(hex_digit(b % 16)));
        assert(hex(a).last() == hex_digit(a % 16));
        assert(hex(b).last() == hex_digit(b % 16));
        lemma_hex_digit(a % 16, b % 16);
        lemma_hex_differs(a / 16, b / 16);
    }
}

proof fn lemma_hex_len(a: nat)
    ensures
        hex(a).len() >= 1,
        hex(a).len() == 1 <==> a < 16,
    decreases a,
{
    if a >= 16 {
        lemma_hex_len(a / 16);
    }
}

/// What a confirmation is known by.
pub open spec fn nonce_of(counter: u64, millis: u128) -> Seq<char> {
    hex(millis as nat) + hex(counter as nat)
}

pub fn next_nonce(counter: u64, millis: u128) -> (r: String)
    ensures
        r@ == nonce_of(counter, millis),
{
    let mut r = hex_text(millis);
    r.append(hex_text(counter as u128).as_str());
    r
}

/// Two confirmations are known by different names, as long as the clock's readings have equally
/// many digits.
pub proof fn nonces_differ(c1: u64, m1: u128, c2: u64, m2: u128)
    requires
        hex(m1 as nat).len() == hex(m2 as nat).len(),
        c1 != c2 || m1 != m2,
    ensures
        nonce_of(c1, m1) != nonce_of(c2, m2),
{
    if nonce_of(c1, m1) == nonce_of(c2, m2) {
        let n = hex(m1 as nat).len() as int;
        let a = nonce_of(c1, m1);
        let b = nonce_of(c2, m2);
        assert(hex(m1 as nat) =~= a.subrange(0, n));
        assert(hex(m2 as nat) =~= b.subrange(0, n));
        assert(hex(c1 as nat) =~= a.subrange(n, a.len() as int));
        assert(hex(c2 as nat) =~= b.subrange(n, b.len() as int));
        lemma_hex_differs(m1 as nat, m2 as nat);
        lemma_hex_differs(c1 as nat, c2 as nat);
    }
}

struct PendingConfirmation {
    nonce: String,
    server_id: String,
    expires_at: u128,
    used: bool,
}

/// What a confirmation is for, until when it can be given, and whether it was.
pub struct Confirmation {
    pub server_id: Seq<char>,
    pub expires_at: nat,
    pub used: bool,
}

/// The confirmations that were asked for.
pub struct ConfirmationStore {
    counter: u64,
    pending: Vec<PendingConfirmation>,
}

/// What became of a confirmation.
#[derive(Clone, Copy, Debug, PartialEq, Eq)]
pub enum ConfirmConsume {
    Accepted,
    Missing,
    Mismatch,
    Expired,
    AlreadyUsed,
}

spec fn confirmation_of(p: PendingConfirmation) -> Confirmation {
    Confirmation { server_id: p.server_id@, expires_at: p.expires_at as nat, used: p.used }
}

spec fn has_nonce(s: Seq<PendingConfirmation>, nonce: Seq<char>) -> bool {
    exists|i: int| 0 <= i < s.len() && (#[trigger] s[i]).nonce@ == nonce
}

spec fn nonce_index(s: Seq<PendingConfirmation>, nonce: Seq<char>) -> int {
    choose|i: int| 0 <= i < s.len() && (#[trigger] s[i]).nonce@ == nonce
}

spec fn nonces_unique(s: Seq<PendingConfirmation>) -> bool {
    forall|i: int, j: int|
        0 <= i < j < s.len() ==> (#[trigger] s[i]).nonce@ != (#[trigger] s[j]).nonce@
}

spec fn confirmations(s: Seq<PendingConfirmation>) -> Map<Seq<char>, Confirmation> {
    Map::new(
        |nonce: Seq<char>| has_nonce(s, nonce),
        |nonce: Seq<char>| confirmation_of(s[nonce_index(s, nonce)]),
    )
}

proof fn lemma_confirmation(s: Seq<PendingConfirmation>, i: int)
    requires
        nonces_unique(s),
        0 <= i < s.len(),
    ensures
        has_nonce(s, s[i].nonce@),
        nonce_index(s, s[i].nonce@) == i,
        confirmations(s)[s[i].nonce@] == confirmation_of(s[i]),
{
    let j = nonce_index(s, s[i].nonce@);
    assert(has_nonce(s, s[i].nonce@));
    if j < i {
        assert(s[j].nonce@ != s[i].nonce@);
    }
    if i < j {
        assert(s[i].nonce@ != s[j].nonce@);
    }
}

/// The confirmations that can still be given.
pub open spec fn still_open(m: Map<Seq<char>, Confirmation>, now: Instant) -> Map<
    Seq<char>,
    Confirmation,
> {
    Map::new(
        |nonce: Seq<char>| m.dom().contains(nonce) && m[nonce].expires_at > now.nanos,
        |nonce: Seq<char>| m[nonce],
    )
}

/// What becomes of a confirmation that is given at `now`.
pub open spec fn consumed(
    m: Map<Seq<char>, Confirmation>,
    server_id: Seq<char>,
    nonce: Seq<char>,
    now: Instant,
) -> ConfirmConsume {
    if !m.dom().contains(nonce) {
        ConfirmConsume::Missing
    } else if m[nonce].server_id != server_id {
        ConfirmConsume::Mismatch
    } else if m[nonce].expires_at <= now.nanos {
        ConfirmConsume::Expired
    } else if m[nonce].used {
        ConfirmConsume::AlreadyUsed
    } else {
        ConfirmConsume::Accepted
    }
}

/// The confirmations after one was given at `now`.
pub open spec fn after_consume(
    m: Map<Seq<char>, Confirmation>,
    server_id: Seq<char>,
    nonce: Seq<char>,
    now: Instant,
) -> Map<Seq<char>, Confirmation> {
    if consumed(m, server_id, nonce, now) == ConfirmConsume::Accepted {
        still_open(m.insert(nonce, Confirmation { used: true, ..m[nonce] }), now)
    } else {
        still_open(m, now)
    }
}

/// The confirmations after one was asked for.
pub open spec fn after_insert(
    m: Map<Seq<char>, Confirmation>,
    server_id: Seq<char>,
    nonce: Seq<char>,
    now: Instant,
) -> Map<Seq<char>, Confirmation> {
    still_open(m, now).insert(
        nonce,
        Confirmation { server_id, expires_at: later_by(now, CONFIRM_TTL_SECS), used: false },
    )
}

/// A confirmation that was asked for is accepted once, for its own server, within its time.
pub proof fn confirmation_is_single_use(
    m: Map<Seq<char>, Confirmation>,
    server_id: Seq<char>,
    given_for: Seq<char>,
    nonce: Seq<char>,
    asked: Instant,
    now: Instant,
    later: Instant,
)
    requires
        asked.nanos <= now.nanos <= later.nanos,
    ensures
        ({
            let open = after_insert(m, server_id, nonce, asked);
            let given = after_consume(open, given_for, nonce, now);
            &&& consumed(open, given_for, nonce, now) == ConfirmConsume::Accepted <==> given_for
                == server_id && now.nanos < later_by(asked, CONFIRM_TTL_SECS)
            &&& consumed(open, given_for, nonce, now) == ConfirmConsume::Accepted ==> consumed(
                given,
                given_for,
                nonce,
                later,
            ) != ConfirmConsume::Accepted
        }),
{
}

/// What can happen to the confirmations: one is asked for, one is given, or those that came
/// too late are forgotten.
pub enum ConfirmEvent {
    Pruned { now: Instant },
    Asked { server_id: Seq<char>, nonce: Seq<char>, now: Instant },
    Given { server_id: Seq<char>, nonce: Seq<char>, now: Instant },
}

pub open spec fn after_event(m: Map<Seq<char>, Confirmation>, event: ConfirmEvent) -> Map<
    Seq<char>,
    Confirmation,
> {
    match event {
        ConfirmEvent::Pruned { now } => still_open(m, now),
        ConfirmEvent::Asked { server_id, nonce, now } => after_insert(m, server_id, nonce, now),
        ConfirmEvent::Given { server_id, nonce, now } => after_consume(m, server_id, nonce, now),
    }
}

/// The confirmations after all this has happened.
pub open spec fn after_events(m: Map<Seq<char>, Confirmation>, events: Seq<ConfirmEvent>) -> Map<
    Seq<char>,
    Confirmation,
>
    decreases events.len(),
{
    if events.len() == 0 {
        m
    } else {
        after_event(after_events(m, events.drop_last()), events.last())
    }
}

/// No confirmation is asked for under this nonce.
pub open spec fn never_asked(events: Seq<ConfirmEvent>, nonce: Seq<char>) -> bool {
    forall|i: int|
        0 <= i < events.len() ==> !((#[trigger] events[i]) matches ConfirmEvent::Asked {
            server_id: _,
            nonce: n,
            now: _,
        } && n == nonce)
}

spec fn is_spent(m: Map<Seq<char>, Confirmation>, nonce: Seq<char>) -> bool {
    m.dom().contains(nonce) ==> m[nonce].used
}

proof fn lemma_spent_stays(
    m: Map<Seq<char>, Confirmation>,
    nonce: Seq<char>,
    events: Seq<ConfirmEvent>,
)
    requires
        is_spent(m, nonce),
        never_asked(events, nonce),
    ensures
        is_spent(after_events(m, events), nonce),
    decreases events.len(),
{
    if events.len() > 0 {
        let before = events.drop_last();
        assert forall|i: int| 0 <= i < before.len() implies !((#[trigger] before[i])
            matches ConfirmEvent::Asked { server_id: _, nonce: n, now: _ } && n == nonce) by {
            assert(before[i] == events[i]);
        }
        lemma_spent_stays(m, nonce, before);
        let last = events[events.len() - 1];
        assert(last == events.last());
    }
}

/// A confirmation that was accepted is never accepted again, for whatever server and
/// whatever the clock says, after whatever else was asked for and given, as long as its
/// nonce is not given out again.
pub proof fn accepted_confirmation_is_spent(
    m: Map<Seq<char>, Confirmation>,
    server_id: Seq<char>,
    nonce: Seq<char>,
    now: Instant,
    events: Seq<ConfirmEvent>,
    given_for: Seq<char>,
    later: Instant,
)
    requires
        consumed(m, server_id, nonce, now) == ConfirmConsume::Accepted,
        never_asked(events, nonce),
    ensures
        consumed(
            after_events(after_consume(m, server_id, nonce, now), events),
            given_for,
            nonce,
            later,
        ) != ConfirmConsume::Accepted,
{
    lemma_spent_stays(after_consume(m, server_id, nonce, now), nonce, events);
}

/// The events leave a confirmation alone: they come no later than `later`, none asks for
/// it, and where it is given, it is for another server.
pub open spec fn leave_alone(
    events: Seq<ConfirmEvent>,
    server_id: Seq<char>,
    nonce: Seq<char>,
    later: Instant,
) -> bool {
    forall|i: int|
        0 <= i < events.len() ==> match #[trigger] events[i] {
            ConfirmEvent::Pruned { now } => now.nanos <= later.nanos,
            ConfirmEvent::Asked { server_id: _, nonce: n, now } => n != nonce && now.nanos
                <= later.nanos,
            ConfirmEvent::Given { server_id: s, nonce: n, now } => (n == nonce ==> s != server_id)
                && now.nanos <= later.nanos,
        }
}

/// A confirmation stays open until it is given for its own server or its time is over. To
/// give it for another server does not use it up.
pub proof fn mismatch_leaves_confirmation_open(
    m: Map<Seq<char>, Confirmation>,
    server_id: Seq<char>,
    nonce: Seq<char>,
    events: Seq<ConfirmEvent>,
    later: Instant,
)
    requires
        leave_alone(events, server_id, nonce, later),
    ensures
        consumed(after_events(m, events), server_id, nonce, later) == ConfirmConsume::Accepted
            <==> consumed(m, server_id, nonce, later) == ConfirmConsume::Accepted,
    decreases events.len(),
{
    if events.len() > 0 {
        let before = events.drop_last();
        assert forall|i: int| 0 <= i < before.len() implies match #[trigger] before[i] {
            ConfirmEvent::Pruned { now } => now.nanos <= later.nanos,
            ConfirmEvent::Asked { server_id: _, nonce: n, now } => n != nonce && now.nanos
                <= later.nanos,
            ConfirmEvent::Given { server_id: s, nonce: n, now } => (n == nonce ==> s != server_id)
                && now.nanos <= later.nanos,
        } by {
            assert(before[i] == events[i]);
        }
        mismatch_leaves_confirmation_open(m, server_id, nonce, before, later);
        let last = events[events.len() - 1];
        assert(last == events.last());
    }
}

/// What happens to one confirmation changes nothing for another.
pub proof fn confirmations_are_apart(
    m: Map<Seq<char>, Confirmation>,
    server_id: Seq<char>,
    nonce: Seq<char>,
    other_server: Seq<char>,
    other: Seq<char>,
    now: Instant,
    later: Instant,
)
    requires
        nonce != other,
        now.nanos <= later.nanos,
    ensures
        consumed(after_consume(m, server_id, nonce, now), other_server, other, later)
            == ConfirmConsume::Accepted <==> consumed(m, other_server, other, later)
            == ConfirmConsume::Accepted,
        consumed(after_insert(m, server_id, nonce, now), other_server, other, later)
            == ConfirmConsume::Accepted <==> consumed(m, other_server, other, later)
            == ConfirmConsume::Accepted,
{
}

impl ConfirmationStore {
    pub closed spec fn view(&self) -> Map<Seq<char>, Confirmation> {
        confirmations(self.pending@)
    }

    /// How many confirmations were asked for, and one.
    pub closed spec fn next(&self) -> u64 {
        self.counter
    }

    pub closed spec fn wf(&self) -> bool {
        nonces_unique(self.pending@)
    }

    pub fn new() -> (r: Self)
        ensures
            r.wf(),
            r.next() == 1,
            r@ == Map::<Seq<char>, Confirmation>::empty(),
    {
        let r = ConfirmationStore { counter: 1, pending: Vec::new() };
        assert(r@ =~= Map::<Seq<char>, Confirmation>::empty());
        r
    }

    fn position(&self, nonce: &str) -> (r: usize)
        ensures
            r <= self.pending@.len(),
            r < self.pending@.len() ==> self.pending@[r as int].nonce@ == nonce@,
            r == self.pending@.len() ==> !has_nonce(self.pending@, nonce@),
    {
        let mut i: usize = 0;
        while i < self.pending.len()
            invariant
                i <= self.pending@.len(),
                forall|k: int| 0 <= k < i ==> (#[trigger] self.pending@[k]).nonce@ != nonce@,
            decreases self.pending@.len() - i,
        {
            if same_text(self.pending[i].nonce.as_str(), nonce) {
                return i;
            }
            i += 1;
        }
        i
    }

    /// Forgets the confirmations that came too late.
    pub fn prune(&mut self, now: Instant)
        requires
            old(self).wf(),
        ensures
            final(self).wf(),
            final(self).next() == old(self).next(),
            final(self)@ == still_open(old(self)@, now),
    {
        let ghost before = self.pending@;
        let mut i: usize = 0;
        while i < self.pending.len()
            invariant
                i <= self.pending@.len(),
                self.counter == old(self).counter,
                nonces_unique(self.pending@),
                forall|k: int|
                    0 <= k < i ==> (#[trigger] self.pending@[k]).expires_at > now.nanos,
                still_open(confirmations(self.pending@), now) == still_open(
                    confirmations(before),
                    now,
                ),
            decreases self.pending@.len() - i,
        {
            if self.pending[i].expires_at > now.nanos as u128 {
                i += 1;
            } else {
                let ghost s = self.pending@;
                let _ = self.pending.remove(i);
                proof {
                    lemma_removed(s, i as int);
                    assert(still_open(confirmations(self.pending@), now) =~= still_open(
                        confirmations(s),
                        now,
                    )) by {
                        lemma_confirmation(s, i as int);
                    }
                }
            }
        }
        proof {
            let s = self.pending@;
            assert(still_open(confirmations(s), now) =~= confirmations(s));
        }
    }

    /// Asks for a confirmation for a server, which is then known by the text that comes back.
    pub fn insert(&mut self, server_id: &str, now: Instant, millis: u128) -> (nonce: String)
        requires
            old(self).wf(),
        ensures
            final(self).wf(),
            nonce@ == nonce_of(old(self).next(), millis),
            final(self).next() == (if old(self).next() == u64::MAX {
                0
            } else {
                old(self).next() + 1
            }),
            final(self)@ == after_insert(old(self)@, server_id@, nonce@, now),
    {
        self.prune(now);
        let nonce = next_nonce(self.counter, millis);
        self.counter = self.counter.wrapping_add(1);
        let ghost s = self.pending@;
        let i = self.position(nonce.as_str());
        if i < self.pending.len() {
            let _ = self.pending.remove(i);
            proof {
                lemma_removed(s, i as int);
            }
        } else {
            assert(confirmations(s).remove(nonce@) =~= confirmations(s));
        }
        let ghost t = self.pending@;
        assert(confirmations(t) == confirmations(s).remove(nonce@));
        let known = nonce.clone();
        self.pending.push(
            PendingConfirmation {
                nonce: known,
                server_id: server_id.to_owned(),
                expires_at: expiry(now, CONFIRM_TTL_SECS),
                used: false,
            },
        );
        proof {
            let u = self.pending@;
            assert(!confirmations(t).dom().contains(nonce@));
            assert(!has_nonce(t, nonce@));
            assert forall|a: int, b: int| 0 <= a < b < u.len() implies (#[trigger] u[a]).nonce@ != (
            #[trigger] u[b]).nonce@ by {
                assert(u[a] == t[a]);
                if b < t.len() {
                    assert(u[b] == t[b]);
                } else {
                    assert(t[a].nonce@ != nonce@);
                }
            }
            assert(confirmations(u) =~= confirmations(t).insert(
                nonce@,
                confirmation_of(u.last()),
            )) by {
                assert forall|k: Seq<char>|
                    #![trigger has_nonce(u, k)]
                    has_nonce(u, k) == (has_nonce(t, k) || k == nonce@) by {
                    if has_nonce(u, k) {
                        let j = nonce_index(u, k);
                        if j < t.len() {
                            assert(t[j].nonce@ == k);
                        }
                    }
                    if has_nonce(t, k) {
                        let j = nonce_index(t, k);
                        assert(u[j].nonce@ == k);
                    }
                    assert(u[t.len() as int].nonce@ == nonce@);
                }
                lemma_confirmation(u, t.len() as int);
                assert forall|k: Seq<char>| has_nonce(t, k) implies confirmations(u)[k]
                    == confirmations(t)[k] by {
                    let j = nonce_index(t, k);
                    assert(u[j].nonce@ == k);
                    lemma_confirmation(u, j);
                }
            }
            assert(self@ =~= after_insert(old(self)@, server_id@, nonce@, now));
        }
        nonce
    }

    /// A confirmation was given.
    pub fn consume(&mut self, server_id: &str, nonce: &str, now: Instant) -> (r: ConfirmConsume)
        requires
            old(self).wf(),
        ensures
            final(self).wf(),
            final(self).next() == old(self).next(),
            r == consumed(old(self)@, server_id@, nonce@, now),
            final(self)@ == after_consume(old(self)@, server_id@, nonce@, now),
    {
        let i = self.position(nonce);
        let ghost s = self.pending@;
        if i == self.pending.len() {
            self.prune(now);
            return ConfirmConsume::Missing;
        }
        proof {
            lemma_confirmation(s, i as int);
        }
        if !same_text(self.pending[i].server_id.as_str(), server_id) {
            self.prune(now);
            return ConfirmConsume::Mismatch;
        }
        if self.pending[i].expires_at <= now.nanos as u128 {
            self.prune(now);
            return ConfirmConsume::Expired;
        }
        if self.pending[i].used {
            self.prune(now);
            return ConfirmConsume::AlreadyUsed;
        }
        let p = self.pending.remove(i);
        self.pending.insert(
            i,
            PendingConfirmation {
                nonce: p.nonce,
                server_id: p.server_id,
                expires_at: p.expires_at,
                used: true,
            },
        );
        proof {
            let t = self.pending@;
            assert(t =~= s.update(i as int, t[i as int]));
            assert(nonces_unique(t)) by {
                assert forall|a: int, b: int| 0 <= a < b < t.len() implies (
                #[trigger] t[a]).nonce@ != (#[trigger] t[b]).nonce@ by {
                    assert(t[a].nonce@ == s[a].nonce@ && t[b].nonce@ == s[b].nonce@);
                }
            }
            assert(confirmations(t) =~= confirmations(s).insert(
                nonce@,
                confirmation_of(t[i as int]),
            )) by {
                assert forall|k: Seq<char>|
                    #![trigger has_nonce(t, k)]
                    has_nonce(t, k) == has_nonce(s, k) by {
                    if has_nonce(t, k) {
                        let j = nonce_index(t, k);
                        assert(s[j].nonce@ == k);
                    }
                    if has_nonce(s, k) {
                        let j = nonce_index(s, k);
                        assert(t[j].nonce@ == k);
                    }
                }
                lemma_confirmation(t, i as int);
                assert forall|k: Seq<char>| has_nonce(s, k) && k != nonce@ implies confirmations(
                    t,
                )[k] == confirmations(s)[k] by {
                    let j = nonce_index(s, k);
                    assert(t[j] == s[j]);
                    lemma_confirmation(t, j);
                }
            }
        }
        self.prune(now);
        ConfirmConsume::Accepted
    }
}

proof fn lemma_removed(s: Seq<PendingConfirmation>, i: int)
    requires
        nonces_unique(s),
        0 <= i < s.len(),
    ensures
        nonces_unique(s.remove(i)),
        confirmations(s.remove(i)) == confirmations(s).remove(s[i].nonce@),
{
    let t = s.remove(i);
    assert forall|a: int, b: int| 0 <= a < b < t.len() implies (#[trigger] t[a]).nonce@ != (
    #[trigger] t[b]).nonce@ by {
        let a0 = if a < i {
            a
        } else {
            a + 1
        };
        let b0 = if b < i {
            b
        } else {
            b + 1
        };
        assert(t[a] == s[a0] && t[b] == s[b0]);
    }
    assert forall|k: Seq<char>|
        #![trigger has_nonce(t, k)]
        has_nonce(t, k) == (has_nonce(s, k) && k != s[i].nonce@) by {
        if has_nonce(t, k) {
            let j = nonce_index(t, k);
            let j0 = if j < i {
                j
            } else {
                j + 1
            };
            assert(s[j0].nonce@ == k);
            if j0 < i {
                assert(s[j0].nonce@ != s[i].nonce@);
            } else {
                assert(s[i].nonce@ != s[j0].nonce@);
            }
        }
        if has_nonce(s, k) && k != s[i].nonce@ {
            let j = nonce_index(s, k);
            if j < i {
                assert(t[j].nonce@ == k);
            } else {
                assert(t[j - 1].nonce@ == k);
            }
        }
    }
    assert forall|k: Seq<char>| has_nonce(t, k) implies confirmations(t)[k] == confirmations(
        s,
    )[k] by {
        let j = nonce_index(t, k);
        let j0 = if j < i {
            j
        } else {
            j + 1
        };
        assert(t[j] == s[j0]);
        lemma_confirmation(s, j0);
        lemma_confirmation(t, j);
    }
    assert(confirmations(t) =~= confirmations(s).remove(s[i].nonce@));
}

} // verus!
