//! The waiting time between two changes of address, as far as it has been learnt.

use vstd::prelude::*;
use crate::boil::BoilApiError;
use crate::config::ChangeIpCooldownConfig;
use crate::number::{decimal, decimal_text, parse_i64, parsed_i64};
use crate::text::{chars_of, contains_str, contains_text, is_digit, rest, slice_text};
use crate::time::Duration;

verus! {

/// Seconds that are waited in addition to what the API asks for.
pub const CHANGE_IP_COOLDOWN_SAFETY_MARGIN_SECS: i64 = 3;

/// How long a change has still to wait.
#[derive(Clone, Copy, Debug, PartialEq, Eq, Structural)]
pub struct ReconnectCooldown {
    pub remaining: Duration,
    pub available_at: i64,
}

/// `n` where it is a signed 64-bit number, and the nearest one where it is not.
pub open spec fn clamped(n: int) -> int {
    if n > i64::MAX {
        i64::MAX as int
    } else if n < i64::MIN {
        i64::MIN as int
    } else {
        n
    }
}

fn clamp(n: i128) -> (r: i64)
    ensures
        r == clamped(n as int),
{
    if n > i64::MAX as i128 {
        i64::MAX
    } else if n < i64::MIN as i128 {
        i64::MIN
    } else {
        n as i64
    }
}

/// The whole seconds of a length of time.
pub open spec fn secs_i64(d: Duration) -> int {
    clamped(d.secs as int)
}

pub fn duration_secs_i64(duration: Duration) -> (r: i64)
    ensures
        r == secs_i64(duration),
{
    clamp(duration.secs as i128)
}

/// The seconds since the start of 1970; `since_epoch` is `None` for a clock that stands
/// before it.
pub fn unix_seconds(since_epoch: Option<u64>) -> (r: i64)
    ensures
        r == (match since_epoch {
            Some(s) => clamped(s as int),
            None => 0,
        }),
{
    match since_epoch {
        Some(s) => clamp(s as i128),
        None => 0,
    }
}

/// What has been learnt: how long to wait after a change, when the last change was,
/// and when the next one can be.
#[derive(Clone, Copy, Debug, PartialEq, Eq)]
pub struct ChangeIpCooldownState {
    pub cooldown: Option<Duration>,
    pub last_changeip_at: Option<i64>,
    pub next_changeip_available_at: Option<i64>,
}

impl Default for ChangeIpCooldownState {
    fn default() -> (r: Self)
        ensures
            r == (ChangeIpCooldownState {
                cooldown: None,
                last_changeip_at: None,
                next_changeip_available_at: None,
            }),
    {
        ChangeIpCooldownState {
            cooldown: None,
            last_changeip_at: None,
            next_changeip_available_at: None,
        }
    }
}

/// What is kept of a state in the configuration.
pub open spec fn config_of(s: ChangeIpCooldownState) -> Option<ChangeIpCooldownConfig> {
    if s.cooldown is Some || s.last_changeip_at is Some || s.next_changeip_available_at is Some {
        Some(
            ChangeIpCooldownConfig {
                cooldown_seconds: match s.cooldown {
                    Some(d) => Some(d.secs),
                    None => None,
                },
                last_changeip_at: s.last_changeip_at,
                next_changeip_available_at: s.next_changeip_available_at,
            },
        )
    } else {
        None
    }
}

pub open spec fn state_of(c: ChangeIpCooldownConfig) -> ChangeIpCooldownState {
    ChangeIpCooldownState {
        cooldown: match c.cooldown_seconds {
            Some(s) => Some(Duration { secs: s, nanos: 0 }),
            None => None,
        },
        last_changeip_at: c.last_changeip_at,
        next_changeip_available_at: c.next_changeip_available_at,
    }
}

/// The waiting time at `now`, where there is one.
pub open spec fn hit_at(s: ChangeIpCooldownState, now: int) -> Option<ReconnectCooldown> {
    match s.next_changeip_available_at {
        None => None,
        Some(at) => if clamped(at - now) > 0 {
            Some(
                ReconnectCooldown {
                    remaining: Duration { secs: clamped(at - now) as u64, nanos: 0 },
                    available_at: at,
                },
            )
        } else {
            None
        },
    }
}

/// The state after a change that was requested at `request_at`.
pub open spec fn after_success(s: ChangeIpCooldownState, request_at: int) -> ChangeIpCooldownState {
    ChangeIpCooldownState {
        cooldown: s.cooldown,
        last_changeip_at: Some(request_at as i64),
        next_changeip_available_at: match s.cooldown {
            Some(d) => if request_at + secs_i64(d) <= i64::MAX {
                Some((request_at + secs_i64(d)) as i64)
            } else {
                None
            },
            None => s.next_changeip_available_at,
        },
    }
}

/// When the next change can be, with the margin.
pub open spec fn with_margin(api_next_available_at: int) -> int {
    clamped(api_next_available_at + CHANGE_IP_COOLDOWN_SAFETY_MARGIN_SECS)
}

/// The waiting time that the API showed: since the last change, or since this request
/// where no change is known; a second at least.
pub open spec fn observed_secs(
    s: ChangeIpCooldownState,
    request_at: int,
    api_next_available_at: int,
) -> int {
    let base = match s.last_changeip_at {
        Some(t) => t as int,
        None => request_at,
    };
    let observed = clamped(with_margin(api_next_available_at) - base);
    if observed < 1 {
        1
    } else {
        observed
    }
}

/// The state after a request at `request_at` that was refused until `api_next_available_at`.
pub open spec fn after_rate_limit(
    s: ChangeIpCooldownState,
    request_at: int,
    api_next_available_at: int,
) -> ChangeIpCooldownState {
    let observed = observed_secs(s, request_at, api_next_available_at);
    ChangeIpCooldownState {
        cooldown: match s.cooldown {
            Some(d) => if observed > d.secs {
                Some(Duration { secs: observed as u64, nanos: 0 })
            } else {
                Some(d)
            },
            None => Some(Duration { secs: observed as u64, nanos: 0 }),
        },
        last_changeip_at: s.last_changeip_at,
        next_changeip_available_at: Some(with_margin(api_next_available_at) as i64),
    }
}

impl ChangeIpCooldownState {
    pub fn from_config(config: &ChangeIpCooldownConfig) -> (r: Self)
        ensures
            r == state_of(*config),
    {
        ChangeIpCooldownState {
            cooldown: match config.cooldown_seconds {
                Some(s) => Some(Duration::from_secs(s)),
                None => None,
            },
            last_changeip_at: config.last_changeip_at,
            next_changeip_available_at: config.next_changeip_available_at,
        }
    }

    /// The state that a configuration starts with.
    pub fn from_persisted(config: &Option<ChangeIpCooldownConfig>) -> (r: Self)
        ensures
            r == (match config {
                Some(c) => state_of(*c),
                None => ChangeIpCooldownState {
                    cooldown: None,
                    last_changeip_at: None,
                    next_changeip_available_at: None,
                },
            }),
    {
        match config {
            Some(c) => Self::from_config(c),
            None => Self::default(),
        }
    }

    pub fn to_config(&self) -> (r: Option<ChangeIpCooldownConfig>)
        ensures
            r == config_of(*self),
    {
        if self.cooldown.is_some() || self.last_changeip_at.is_some()
            || self.next_changeip_available_at.is_some() {
            Some(
                ChangeIpCooldownConfig {
                    cooldown_seconds: match self.cooldown {
                        Some(d) => Some(d.as_secs()),
                        None => None,
                    },
                    last_changeip_at: self.last_changeip_at,
                    next_changeip_available_at: self.next_changeip_available_at,
                },
            )
        } else {
            None
        }
    }

    pub fn cooldown_hit_at(&self, now: i64) -> (r: Option<ReconnectCooldown>)
        ensures
            r == hit_at(*self, now as int),
    {
        match self.next_changeip_available_at {
            None => None,
            Some(available_at) => {
                let remaining: i64 = clamp(available_at as i128 - now as i128);
                if remaining > 0 {
                    Some(
                        ReconnectCooldown {
                            remaining: Duration::from_secs(remaining as u64),
                            available_at,
                        },
                    )
                } else {
                    None
                }
            },
        }
    }

    pub fn record_success(&mut self, request_at: i64)
        ensures
            *final(self) == after_success(*old(self), request_at as int),
    {
        self.last_changeip_at = Some(request_at);
        match self.cooldown {
            Some(cooldown) => {
                self.next_changeip_available_at =
                request_at.checked_add(duration_secs_i64(cooldown));
            },
            None => {},
        }
    }

    pub fn record_rate_limit(&mut self, request_at: i64, api_next_available_at: i64)
        ensures
            *final(self) == after_rate_limit(
                *old(self),
                request_at as int,
                api_next_available_at as int,
            ),
    {
        let adjusted: i64 = clamp(
            api_next_available_at as i128 + CHANGE_IP_COOLDOWN_SAFETY_MARGIN_SECS as i128,
        );
        let base: i64 = match self.last_changeip_at {
            Some(t) => t,
            None => request_at,
        };
        let since_base: i64 = clamp(adjusted as i128 - base as i128);
        let observed: i64 = if since_base < 1 {
            1
        } else {
            since_base
        };
        let longer = match self.cooldown {
            Some(d) => observed as u64 > d.secs,
            None => true,
        };
        if longer {
            self.cooldown = Some(Duration::from_secs(observed as u64));
        }
        self.next_changeip_available_at = Some(adjusted);
    }
}

/// What is kept in the configuration is the state, but for parts of a second.
pub proof fn cooldown_config_round_trip(c: ChangeIpCooldownConfig)
    requires
        c.cooldown_seconds is Some || c.last_changeip_at is Some || c.next_changeip_available_at
            is Some,
    ensures
        config_of(state_of(c)) == Some(c),
{
}

/// The known waiting time never becomes shorter: a refusal makes it longer or leaves
/// it, and a success leaves it.
pub proof fn cooldown_only_grows(s: ChangeIpCooldownState, request_at: int, api_next: int)
    ensures
        after_success(s, request_at).cooldown == s.cooldown,
        s.cooldown matches Some(d) ==> after_rate_limit(
            s,
            request_at,
            api_next,
        ).cooldown matches Some(e) && e.secs >= d.secs,
        after_rate_limit(s, request_at, api_next).cooldown is Some,
{
}

/// After a refusal, no change is tried before the time that the API named.
pub proof fn refusal_is_waited_for(
    s: ChangeIpCooldownState,
    request_at: int,
    api_next: int,
    now: int,
)
    requires
        i64::MIN <= api_next < i64::MAX,
        i64::MIN <= now <= api_next,
    ensures
        hit_at(after_rate_limit(s, request_at, api_next), now) is Some,
{
}

/// A change is held back exactly as long as the next allowed time lies ahead, for as many
/// seconds as are left until then.
pub proof fn held_back_until_allowed(s: ChangeIpCooldownState, now: i64)
    ensures
        s.next_changeip_available_at is None ==> hit_at(s, now as int) is None,
        s.next_changeip_available_at matches Some(at) ==> {
            &&& hit_at(s, now as int) is Some <==> now < at
            &&& hit_at(s, now as int) matches Some(h) ==> {
                &&& h.available_at == at
                &&& h.remaining.nanos == 0
                &&& h.remaining.secs == (if at - now <= i64::MAX {
                    at - now
                } else {
                    i64::MAX as int
                })
            }
        },
{
}

/// After a success, a change is held back until the known cooldown is over, counted from that
/// request, and no longer, whatever was known of earlier changes. The cooldown stays known.
pub proof fn success_holds_back_for_the_cooldown(
    s: ChangeIpCooldownState,
    d: Duration,
    request_at: i64,
    now: i64,
)
    requires
        s.cooldown == Some(d),
        request_at + d.secs <= i64::MAX,
        d.secs <= i64::MAX,
    ensures
        ({
            let t = after_success(s, request_at as int);
            &&& t.cooldown == s.cooldown
            &&& t.last_changeip_at == Some(request_at)
            &&& t.next_changeip_available_at == Some((request_at + d.secs) as i64)
            &&& now >= request_at + d.secs ==> hit_at(t, now as int) is None
            &&& now < request_at + d.secs ==> hit_at(t, now as int) is Some
            &&& request_at <= now < request_at + d.secs ==> (hit_at(t, now as int) matches Some(h)
                && h.remaining.secs == request_at + d.secs - now && h.remaining.nanos == 0
                && h.available_at == request_at + d.secs)
        }),
{
}

/// A success tells nothing of a cooldown that is not known: only its own time is remembered.
/// Where the end of the cooldown is past what can be counted, nothing is held back.
pub proof fn success_without_cooldown(s: ChangeIpCooldownState, request_at: i64, now: i64)
    ensures
        after_success(s, request_at as int).last_changeip_at == Some(request_at),
        after_success(s, request_at as int).cooldown == s.cooldown,
        s.cooldown is None ==> after_success(
            s,
            request_at as int,
        ).next_changeip_available_at == s.next_changeip_available_at,
        s.cooldown matches Some(d) ==> (request_at + d.secs > i64::MAX && request_at > 0 ==> hit_at(
            after_success(s, request_at as int),
            now as int,
        ) is None),
{
}

/// After a refusal, a change is held back until three seconds after the time that the API
/// named, and no longer. The last change stays known, and the cooldown is as long as the API
/// has shown: from the last change, or from this request, to that time, unless a longer one
/// was known.
pub proof fn refusal_holds_back_until_named_time(
    s: ChangeIpCooldownState,
    request_at: i64,
    api_next: i64,
    now: i64,
)
    requires
        api_next + 3 <= i64::MAX,
    ensures
        ({
            let t = after_rate_limit(s, request_at as int, api_next as int);
            &&& t.last_changeip_at == s.last_changeip_at
            &&& t.next_changeip_available_at == Some((api_next + 3) as i64)
            &&& hit_at(t, now as int) is Some <==> now < api_next + 3
            &&& 0 < api_next + 3 - now <= i64::MAX ==> (hit_at(t, now as int) matches Some(h)
                && h.remaining.secs == api_next + 3 - now)
            &&& s.last_changeip_at matches Some(l) ==> (0 < api_next + 3 - l <= i64::MAX ==> {
                &&& t.cooldown matches Some(d) && d.secs >= api_next + 3 - l && (d.secs == api_next
                    + 3 - l || t.cooldown == s.cooldown)
            })
            &&& s.last_changeip_at is None ==> (0 < api_next + 3 - request_at <= i64::MAX ==> {
                &&& t.cooldown matches Some(d) && d.secs >= api_next + 3 - request_at && (d.secs
                    == api_next + 3 - request_at || t.cooldown == s.cooldown)
            })
            &&& s.cooldown is None && s.last_changeip_at is None && api_next + 3 <= request_at ==> (
            t.cooldown matches Some(d) && d.secs == 1)
            &&& s.cooldown is None ==> (s.last_changeip_at matches Some(l) ==> (api_next + 3 <= l
                ==> (t.cooldown matches Some(d) && d.secs == 1)))
            &&& s.cooldown matches Some(old) ==> (t.cooldown matches Some(d) && d.secs >= old.secs)
        }),
{
}

/// What a refusal has shown is kept to: after the next success, a change is held back for as
/// long as the API made the last one wait.
pub proof fn refusal_is_learnt_from(
    s: ChangeIpCooldownState,
    last: i64,
    refused_at: i64,
    api_next: i64,
    request_at: i64,
    now: i64,
)
    requires
        s.last_changeip_at == Some(last),
        api_next + 3 <= i64::MAX,
        0 < api_next + 3 - last <= i64::MAX,
        request_at + (api_next + 3 - last) <= i64::MAX,
        s.cooldown matches Some(d) ==> d.secs <= api_next + 3 - last,
        now < request_at + (api_next + 3 - last),
    ensures
        hit_at(
            after_success(
                after_rate_limit(s, refused_at as int, api_next as int),
                request_at as int,
            ),
            now as int,
        ) matches Some(h) && h.available_at == request_at + (api_next + 3 - last),
{
}

/// The wait that is told after a refusal is the one that the learnt state asks for, and none
/// where the named time is over.
pub proof fn told_wait_is_the_learnt_one(
    s: ChangeIpCooldownState,
    request_at: i64,
    api_next: i64,
    now: i64,
)
    requires
        api_next + 3 <= i64::MAX,
    ensures
        hit_or_zero(now as int, api_next as int).available_at == api_next + 3,
        hit_or_zero(now as int, api_next as int).remaining.nanos == 0,
        now >= api_next + 3 ==> hit_or_zero(now as int, api_next as int).remaining.secs == 0,
        now < api_next + 3 && api_next + 3 - now <= i64::MAX ==> hit_or_zero(
            now as int,
            api_next as int,
        ).remaining.secs == api_next + 3 - now,
        now < api_next + 3 ==> hit_at(
            after_rate_limit(s, request_at as int, api_next as int),
            now as int,
        ) == Some(hit_or_zero(now as int, api_next as int)),
{
}

/// The whole state is kept in the configuration and comes back from it, but for parts of a
/// second of the cooldown.
pub proof fn cooldown_state_is_kept(s: ChangeIpCooldownState)
    ensures
        config_of(s) is None <==> s.cooldown is None && s.last_changeip_at is None
            && s.next_changeip_available_at is None,
        config_of(s) matches Some(c) ==> {
            &&& state_of(c).last_changeip_at == s.last_changeip_at
            &&& state_of(c).next_changeip_available_at == s.next_changeip_available_at
            &&& s.cooldown is None ==> state_of(c).cooldown is None
            &&& s.cooldown matches Some(d) ==> (state_of(c).cooldown matches Some(e) && e.secs
                == d.secs && e.nanos == 0)
        },
{
}

// ---------------------------------------------------------------------------
// What the API says of it
// ---------------------------------------------------------------------------

/// The number of digits that `s` begins with.
pub open spec fn run_len(s: Seq<char>) -> nat
    decreases s.len(),
{
    if s.len() == 0 || !is_digit(s[0]) {
        0
    } else {
        1 + run_len(rest(s, 1))
    }
}

/// The numbers in a text: its runs of digits.
pub open spec fn digit_runs(s: Seq<char>) -> Seq<Seq<char>>
    decreases s.len(),
{
    if s.len() == 0 {
        Seq::empty()
    } else if !is_digit(s[0]) {
        digit_runs(rest(s, 1))
    } else {
        let n = run_len(s) as int;
        if 0 < n <= s.len() {
            seq![s.subrange(0, n)] + digit_runs(rest(s, n))
        } else {
            Seq::empty()
        }
    }
}

/// The last of the numbers that is a signed 64-bit number.
pub open spec fn last_fitting(runs: Seq<Seq<char>>) -> Option<int>
    decreases runs.len(),
{
    if runs.len() == 0 {
        None
    } else {
        match parsed_i64(runs.last()) {
            Some(n) => Some(n),
            None => last_fitting(runs.drop_last()),
        }
    }
}

fn run_end(cs: &Vec<char>, from: usize) -> (r: usize)
    requires
        from <= cs@.len(),
    ensures
        from <= r <= cs@.len(),
        r == from + run_len(rest(cs@, from as int)),
{
    let mut i: usize = from;
    while i < cs.len() && '0' <= cs[i] && cs[i] <= '9'
        invariant
            from <= i <= cs@.len(),
            from + run_len(rest(cs@, from as int)) == i + run_len(rest(cs@, i as int)),
        decreases cs@.len() - i,
    {
        let ghost t = rest(cs@, i as int);
        proof {
            assert(t[0] == cs@[i as int]);
            assert(rest(t, 1) =~= rest(cs@, i + 1));
        }
        i += 1;
    }
    proof {
        let t = rest(cs@, i as int);
        if i < cs@.len() {
            assert(t[0] == cs@[i as int]);
        }
    }
    i
}

/// The last number in a text.
pub fn last_integer_in_text(text: &str) -> (r: Option<i64>)
    ensures
        match r {
            Some(n) => last_fitting(digit_runs(text@)) == Some(n as int),
            None => last_fitting(digit_runs(text@)) is None,
        },
{
    let cs = chars_of(text);
    let mut last: Option<i64> = None;
    let mut i: usize = 0;
    let ghost mut met: Seq<Seq<char>> = Seq::empty();
    assert(rest(text@, 0) =~= text@);
    assert(met + digit_runs(text@) =~= digit_runs(text@));
    while i < cs.len()
        invariant
            cs@ == text@,
            i <= cs@.len(),
            met + digit_runs(rest(text@, i as int)) == digit_runs(text@),
            match last {
                Some(n) => last_fitting(met) == Some(n as int),
                None => last_fitting(met) is None,
            },
        decreases cs@.len() - i,
    {
        let ghost t = rest(text@, i as int);
        assert(t[0] == text@[i as int]);
        if '0' <= cs[i] && cs[i] <= '9' {
            let n = run_end(&cs, i);
            let run = slice_text(&cs, i, n);
            proof {
                assert(run_len(t) == 1 + run_len(rest(t, 1)));
                assert(t.subrange(0, n - i) =~= run@);
                assert(rest(t, n - i) =~= rest(text@, n as int));
                assert(met + (seq![run@] + digit_runs(rest(text@, n as int))) =~= met.push(run@)
                    + digit_runs(rest(text@, n as int)));
                assert(met.push(run@).drop_last() =~= met);
                met = met.push(run@);
            }
            match parse_i64(run.as_str()) {
                Some(v) => {
                    last = Some(v);
                },
                None => {},
            }
            i = n;
        } else {
            assert(rest(t, 1) =~= rest(text@, i + 1));
            i += 1;
        }
    }
    assert(met + digit_runs(rest(text@, i as int)) =~= met);
    last
}

/// The time of the next change that an error names, where it says that changes come
/// too often.
pub open spec fn rate_limit_time(e: BoilApiError) -> Option<int> {
    match e {
        BoilApiError::ApiRejected { message, .. } => if contains_text(message@, "频率限制"@)
            && contains_text(message@, "下次可用时间"@) {
            last_fitting(digit_runs(message@))
        } else {
            None
        },
        _ => None,
    }
}

proof fn lemma_run_stays(a: Seq<char>, w: Seq<char>)
    requires
        a.len() > 0,
        !is_digit(a.last()),
    ensures
        run_len(a + w) == run_len(a),
        run_len(a) < a.len(),
    decreases a.len(),
{
    if is_digit(a[0]) {
        let b = rest(a, 1);
        assert(b.len() > 0 && b.last() == a.last());
        assert(rest(a + w, 1) =~= b + w);
        lemma_run_stays(b, w);
    }
}

proof fn lemma_all_digits_run(d: Seq<char>, w: Seq<char>)
    requires
        forall|i: int| 0 <= i < d.len() ==> is_digit(#[trigger] d[i]),
        w.len() > 0 ==> !is_digit(w[0]),
    ensures
        run_len(d + w) == d.len(),
    decreases d.len(),
{
    if d.len() == 0 {
        assert(d + w =~= w);
    } else {
        let e = rest(d, 1);
        assert forall|i: int| 0 <= i < e.len() implies is_digit(#[trigger] e[i]) by {
            assert(e[i] == d[i + 1]);
        }
        assert(is_digit(d[0]));
        assert(rest(d + w, 1) =~= e + w);
        lemma_all_digits_run(e, w);
    }
}

proof fn lemma_no_runs(b: Seq<char>)
    requires
        forall|i: int| 0 <= i < b.len() ==> !is_digit(#[trigger] b[i]),
    ensures
        digit_runs(b).len() == 0,
    decreases b.len(),
{
    if b.len() > 0 {
        let c = rest(b, 1);
        assert forall|i: int| 0 <= i < c.len() implies !is_digit(#[trigger] c[i]) by {
            assert(c[i] == b[i + 1]);
        }
        assert(!is_digit(b[0]));
        lemma_no_runs(c);
    }
}

proof fn lemma_runs_after(a: Seq<char>, w: Seq<char>)
    requires
        a.len() > 0 ==> !is_digit(a.last()),
    ensures
        digit_runs(a + w) == digit_runs(a) + digit_runs(w),
    decreases a.len(),
{
    if a.len() == 0 {
        assert(a + w =~= w);
        assert(digit_runs(a) + digit_runs(w) =~= digit_runs(w));
    } else {
        let s = a + w;
        let n = if is_digit(a[0]) {
            run_len(a) as int
        } else {
            1
        };
        lemma_run_stays(a, w);
        if is_digit(a[0]) {
            assert(run_len(a) == 1 + run_len(rest(a, 1)));
        }
        let b = rest(a, n);
        assert(rest(s, n) =~= b + w);
        assert(b.len() > 0 ==> b.last() == a.last());
        lemma_runs_after(b, w);
        if is_digit(a[0]) {
            assert(s.subrange(0, n) =~= a.subrange(0, n));
            assert(digit_runs(s) =~= seq![a.subrange(0, n)] + (digit_runs(b) + digit_runs(w)));
            assert(digit_runs(s) =~= digit_runs(a) + digit_runs(w));
        }
    }
}

/// Where the API says that changes come too often and when the next one is possible, the last
/// number of its message is that time. Other errors, and other messages, name none.
pub proof fn refusal_names_the_last_number(
    e: BoilApiError,
    before: Seq<char>,
    t: i64,
    after: Seq<char>,
)
    requires
        t >= 0,
        before.len() > 0 ==> !is_digit(before.last()),
        forall|i: int| 0 <= i < after.len() ==> !is_digit(#[trigger] after[i]),
    ensures
        rate_limit_time(e) is Some ==> (e matches BoilApiError::ApiRejected { message, .. }
            && contains_text(message@, "频率限制"@) && contains_text(message@, "下次可用时间"@)),
        (e matches BoilApiError::ApiRejected { message, .. } && message@ == before + decimal(
            t as nat,
        ) + after && contains_text(message@, "频率限制"@) && contains_text(
            message@,
            "下次可用时间"@,
        )) ==> rate_limit_time(e) == Some(t as int),
{
    let d = decimal(t as nat);
    crate::number::lemma_decimal_digits(t as nat);
    crate::number::decimal_int_reads_back(t as int);
    let w = d + after;
    assert(before + d + after =~= before + w);
    lemma_runs_after(before, w);
    lemma_all_digits_run(d, after);
    lemma_no_runs(after);
    assert(is_digit(d[0]));
    assert(w[0] == d[0]);
    assert(w.subrange(0, d.len() as int) =~= d);
    assert(rest(w, d.len() as int) =~= after);
    assert(digit_runs(w) =~= seq![d]);
    let runs = digit_runs(before + w);
    assert(runs.last() == d);
}

/// A number that is too large for a time is passed over, and without any number there is no
/// time.
pub proof fn too_large_number_is_passed_over(
    before: Seq<char>,
    t: i64,
    between: Seq<char>,
    large: nat,
    after: Seq<char>,
)
    requires
        t >= 0,
        large > i64::MAX,
        before.len() > 0 ==> !is_digit(before.last()),
        between.len() > 0,
        forall|i: int| 0 <= i < between.len() ==> !is_digit(#[trigger] between[i]),
        forall|i: int| 0 <= i < after.len() ==> !is_digit(#[trigger] after[i]),
    ensures
        last_fitting(digit_runs(before + decimal(t as nat) + between + decimal(large) + after))
            == Some(t as int),
        last_fitting(digit_runs(after)) is None,
{
    let d = decimal(t as nat);
    let e = decimal(large);
    crate::number::lemma_decimal_digits(t as nat);
    crate::number::lemma_decimal_digits(large);
    crate::number::decimal_int_reads_back(t as int);
    lemma_no_runs(after);
    let end = e + after;
    lemma_all_digits_run(e, after);
    assert(is_digit(e[0]) && end[0] == e[0]);
    assert(end.subrange(0, e.len() as int) =~= e);
    assert(rest(end, e.len() as int) =~= after);
    assert(digit_runs(end) =~= seq![e]);
    lemma_no_runs(between);
    assert(!is_digit(between[between.len() - 1]));
    lemma_runs_after(between, end);
    let tail = between + end;
    assert(digit_runs(tail) =~= seq![e]);
    let w = d + tail;
    assert(tail[0] == between[0]);
    lemma_all_digits_run(d, tail);
    assert(is_digit(d[0]) && w[0] == d[0]);
    assert(w.subrange(0, d.len() as int) =~= d);
    assert(rest(w, d.len() as int) =~= tail);
    assert(digit_runs(w) =~= seq![d, e]);
    lemma_runs_after(before, w);
    assert(before + d + between + e + after =~= before + w);
    let runs = digit_runs(before + w);
    assert(runs.last() == e);
    assert(runs.drop_last().last() == d);
    assert(parsed_i64(e) is None) by {
        assert(is_digit(e[0]));
    }
    reveal_with_fuel(last_fitting, 3);
}

pub fn parse_rate_limit_next_available_at(error: &BoilApiError) -> (r: Option<i64>)
    ensures
        match r {
            Some(t) => rate_limit_time(*error) == Some(t as int),
            None => rate_limit_time(*error) is None,
        },
{
    match error {
        BoilApiError::ApiRejected { message, .. } => {
            if !(contains_str(message.as_str(), "频率限制") && contains_str(
                message.as_str(),
                "下次可用时间",
            )) {
                return None;
            }
            last_integer_in_text(message.as_str())
        },
        _ => None,
    }
}

/// The waiting time at `now` until a time that the API named; zero where it is over.
pub open spec fn hit_or_zero(now: int, api_next_available_at: int) -> ReconnectCooldown {
    let at = with_margin(api_next_available_at);
    ReconnectCooldown {
        remaining: Duration {
            secs: (if clamped(at - now) > 0 {
                clamped(at - now)
            } else {
                0
            }) as u64,
            nanos: 0,
        },
        available_at: at as i64,
    }
}

pub fn cooldown_hit_or_zero(now: i64, api_next_available_at: i64) -> (r: ReconnectCooldown)
    ensures
        r == hit_or_zero(now as int, api_next_available_at as int),
{
    let available_at: i64 = clamp(
        api_next_available_at as i128 + CHANGE_IP_COOLDOWN_SAFETY_MARGIN_SECS as i128,
    );
    let remaining: i64 = clamp(available_at as i128 - now as i128);
    ReconnectCooldown {
        remaining: Duration::from_secs(
            if remaining > 0 {
                remaining as u64
            } else {
                0
            },
        ),
        available_at,
    }
}

// ---------------------------------------------------------------------------
// What is said of it
// ---------------------------------------------------------------------------

/// `n` divided by sixty, rounded up.
pub open spec fn minutes_up(n: nat) -> nat {
    (n + 59) / 60
}

/// A waiting time in words: seconds below a minute, minutes below an hour, and hours
/// with minutes.
pub open spec fn wait_text(secs: nat) -> Seq<char> {
    if secs < 60 {
        decimal(secs) + " 秒"@
    } else if secs < 3600 {
        decimal(minutes_up(secs)) + " 分钟"@
    } else if secs % 3600 == 0 {
        decimal(secs / 3600) + " 小时"@
    } else {
        decimal(secs / 3600) + " 小时 "@ + decimal(minutes_up(secs % 3600)) + " 分钟"@
    }
}

pub fn format_wait_duration(duration: Duration) -> (r: String)
    ensures
        r@ == wait_text(duration.secs as nat),
{
    let seconds: u64 = duration.as_secs();
    if seconds < 60 {
        let mut r = decimal_text(seconds);
        r.append(" 秒");
        r
    } else if seconds < 3600 {
        let mut r = decimal_text((seconds + 59) / 60);
        r.append(" 分钟");
        r
    } else {
        let hours: u64 = seconds / 3600;
        let minutes: u64 = (seconds % 3600 + 59) / 60;
        if minutes == 0 {
            let mut r = decimal_text(hours);
            r.append(" 小时");
            r
        } else {
            let mut r = decimal_text(hours);
            r.append(" 小时 ");
            r.append(decimal_text(minutes).as_str());
            r.append(" 分钟");
            r
        }
    }
}

/// A waiting time is told in the unit that fits it, rounded up: what is told is never
/// shorter than the time, and longer by less than a minute.
pub proof fn told_time_is_rounded_up(secs: nat)
    ensures
        secs < 60 ==> wait_text(secs) == decimal(secs) + " 秒"@,
        60 <= secs < 3600 ==> exists|m: nat| #[trigger]
            wait_text(secs) == decimal(m) + " 分钟"@ && secs <= 60 * m < secs + 60,
        secs >= 3600 && secs % 3600 == 0 ==> wait_text(secs) == decimal(secs / 3600) + " 小时"@,
        secs >= 3600 && secs % 3600 != 0 ==> exists|h: nat, m: nat|
            #![trigger decimal(h), decimal(m)]
            wait_text(secs) == decimal(h) + " 小时 "@ + decimal(m) + " 分钟"@ && secs <= 3600 * h
                + 60 * m < secs + 60 && 1 <= m <= 60,
{
    if 60 <= secs < 3600 {
        let m = minutes_up(secs);
        assert(wait_text(secs) == decimal(m) + " 分钟"@ && secs <= 60 * m < secs + 60);
    }
    if secs >= 3600 && secs % 3600 != 0 {
        let h = secs / 3600;
        let m = minutes_up(secs % 3600);
        assert(secs <= 3600 * h + 60 * m < secs + 60);
        assert(wait_text(secs) == decimal(h) + " 小时 "@ + decimal(m) + " 分钟"@);
    }
}

pub open spec fn manual_cooldown_text(secs: nat) -> Seq<char> {
    "⏳ 换 IP 频率限制中\n\n预计 "@ + wait_text(secs) + "后可再次换 IP"@
}

pub fn manual_cooldown_message(remaining: Duration) -> (r: String)
    ensures
        r@ == manual_cooldown_text(remaining.secs as nat),
{
    let mut r = "⏳ 换 IP 频率限制中\n\n预计 ".to_owned();
    r.append(format_wait_duration(remaining).as_str());
    r.append("后可再次换 IP");
    r
}

} // verus!
