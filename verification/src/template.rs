//! State behind the template helpers: cooldown timers that fire on rising
//! edges, stage-stable random choices, and unbiased secure random indices.
//!
//! Time is counted in milliseconds on a monotonic clock.
use vstd::prelude::*;

use crate::text::{chars_eq, chars_of};

verus! {

/// One cooldown timer.
#[derive(Debug, Clone, Copy, PartialEq, Eq, Structural)]
pub struct CooldownState {
    pub activated_at: Option<u64>,
    pub last_trigger: bool,
    pub last_ready: bool,
}

impl CooldownState {
    /// A timer that never fired: ready, trigger low.
    pub fn new() -> (r: Self)
        ensures
            r == (CooldownState { activated_at: None, last_trigger: false, last_ready: true }),
    {
        CooldownState { activated_at: None, last_trigger: false, last_ready: true }
    }
}

impl Default for CooldownState {
    fn default() -> (r: Self)
        ensures
            r == (CooldownState { activated_at: None, last_trigger: false, last_ready: true }),
    {
        CooldownState::new()
    }
}

pub open spec fn elapsed_since(from: u64, to: u64) -> int {
    if to >= from {
        to - from
    } else {
        0
    }
}

/// One evaluation of a timer at `now`: it is ready once its duration has
/// passed; a rising edge of the trigger while ready starts it (not ready).
pub open spec fn cooldown_step(s: CooldownState, duration: u64, trigger: bool, now: u64) -> (
    CooldownState,
    bool,
) {
    let expired = match s.activated_at {
        None => true,
        Some(a) => elapsed_since(a, now) >= duration,
    };
    let activated = if expired {
        None
    } else {
        s.activated_at
    };
    let fires = expired && trigger && !s.last_trigger;
    let ready = expired && !fires;
    (
        CooldownState {
            activated_at: if fires {
                Some(now)
            } else {
                activated
            },
            last_trigger: trigger,
            last_ready: ready,
        },
        ready,
    )
}

/// The timers of the live templates, by id, and a revision that changes
/// whenever a timer's readiness changes.
#[derive(Debug)]
pub struct TemplateRuntimeState {
    cooldowns: Vec<(String, CooldownState)>,
    revision: u64,
}

pub open spec fn cooldowns_view(v: Seq<(String, CooldownState)>) -> Seq<(Seq<char>, CooldownState)> {
    v.map_values(|p: (String, CooldownState)| (p.0@, p.1))
}

/// The timer of `id` (a fresh one when unknown).
pub open spec fn timer_of(c: Seq<(Seq<char>, CooldownState)>, id: Seq<char>) -> CooldownState
    decreases c.len(),
{
    if c.len() == 0 {
        CooldownState { activated_at: None, last_trigger: false, last_ready: true }
    } else if c.last().0 == id {
        c.last().1
    } else {
        timer_of(c.drop_last(), id)
    }
}

pub open spec fn wrapping_next(r: u64) -> u64 {
    if r == u64::MAX {
        0
    } else {
        (r + 1) as u64
    }
}

impl TemplateRuntimeState {
    pub closed spec fn timers(&self) -> Seq<(Seq<char>, CooldownState)> {
        cooldowns_view(self.cooldowns@)
    }

    pub closed spec fn spec_revision(&self) -> u64 {
        self.revision
    }

    /// No timer, revision zero.
    pub fn new() -> (r: Self)
        ensures
            r.timers().len() == 0,
            r.spec_revision() == 0,
    {
        let r = TemplateRuntimeState { cooldowns: Vec::new(), revision: 0 };
        assert(r.timers() =~= Seq::empty());
        r
    }

    /// Evaluates the timer `id` at `now` for a trigger condition; returns
    /// whether it is ready.
    pub fn cooldown_ready(&mut self, id: &str, duration: u64, trigger: bool, now: u64) -> (ready: bool)
        ensures
            ({
                let (next, r) = cooldown_step(timer_of(old(self).timers(), id@), duration, trigger, now);
                &&& ready == r
                &&& timer_of(final(self).timers(), id@) == next
                &&& forall|other: Seq<char>| other != id@ ==> #[trigger] timer_of(final(self).timers(), other)
                    == timer_of(old(self).timers(), other)
                &&& final(self).spec_revision() == if r != timer_of(old(self).timers(), id@).last_ready {
                    wrapping_next(old(self).spec_revision())
                } else {
                    old(self).spec_revision()
                }
            }),
    {
        let key = chars_of(id);
        let n = self.cooldowns.len();
        let ghost c = self.timers();
        let mut i: usize = n;
        assert(c.take(n as int) =~= c);
        while i > 0 && !key_is(&self.cooldowns[i - 1].0, &key)
            invariant
                i <= n,
                n == self.cooldowns@.len(),
                c == self.timers(),
                c == cooldowns_view(self.cooldowns@),
                key@ == id@,
                timer_of(c, id@) == timer_of(c.take(i as int), id@),
                forall|j: int| i <= j < n ==> #[trigger] c[j].0 != id@,
            decreases i,
        {
            assert(c.take(i as int).drop_last() =~= c.take(i - 1));
            i = i - 1;
        }
        let found = i > 0;
        let state = if found {
            self.cooldowns[i - 1].1
        } else {
            CooldownState::new()
        };
        assert(state == timer_of(c, id@)) by {
            if !found {
                assert(c.take(0) =~= Seq::<(Seq<char>, CooldownState)>::empty());
            } else {
                assert(c.take(i as int).last() == c[i - 1]);
            }
        }
        let expired = match state.activated_at {
            None => true,
            Some(a) => (if now >= a {
                now - a
            } else {
                0
            }) >= duration,
        };
        let fires = expired && trigger && !state.last_trigger;
        let ready = expired && !fires;
        let next = CooldownState {
            activated_at: if fires {
                Some(now)
            } else if expired {
                None
            } else {
                state.activated_at
            },
            last_trigger: trigger,
            last_ready: ready,
        };
        let ghost before = self.cooldowns@;
        if found {
            self.cooldowns.set(i - 1, (crate::text::owned(id), next));
        } else {
            self.cooldowns.push((crate::text::owned(id), next));
        }
        proof {
            let now_c = self.timers();
            if found {
                lemma_timer_update(c, (i - 1) as int, id@, next);
                assert(now_c =~= c.update((i - 1) as int, (id@, next)));
            } else {
                assert(now_c =~= c.push((id@, next)));
                assert(c.push((id@, next)).drop_last() =~= c);
                assert(timer_of(now_c, id@) == next);
                assert forall|other: Seq<char>| other != id@ implies #[trigger] timer_of(now_c, other)
                    == timer_of(c, other) by {
                    assert(now_c.last().0 == id@);
                }
            }
        }
        if ready != state.last_ready {
            self.revision = if self.revision == u64::MAX {
                0
            } else {
                self.revision + 1
            };
        }
        ready
    }

    pub fn revision(&self) -> (r: u64)
        ensures
            r == self.spec_revision(),
    {
        self.revision
    }

    /// Forgets every timer; the revision moves when there was one.
    pub fn clear(&mut self)
        ensures
            final(self).timers().len() == 0,
            final(self).spec_revision() == if old(self).timers().len() > 0 {
                wrapping_next(old(self).spec_revision())
            } else {
                old(self).spec_revision()
            },
    {
        if self.cooldowns.len() > 0 {
            self.cooldowns = Vec::new();
            self.revision = if self.revision == u64::MAX {
                0
            } else {
                self.revision + 1
            };
        }
        assert(self.timers() =~= Seq::empty());
    }
}

fn key_is(a: &String, key: &Vec<char>) -> (r: bool)
    ensures
        r == (a@ == key@),
{
    let k = chars_of(a.as_str());
    chars_eq(&k, key)
}

proof fn lemma_timer_update(c: Seq<(Seq<char>, CooldownState)>, i: int, id: Seq<char>, next: CooldownState)
    requires
        0 <= i < c.len(),
        c[i].0 == id,
        forall|j: int| i < j < c.len() ==> c[j].0 != id,
    ensures
        timer_of(c.update(i, (id, next)), id) == next,
        forall|other: Seq<char>| other != id ==> #[trigger] timer_of(c.update(i, (id, next)), other) == timer_of(c, other),
    decreases c.len(),
{
    let u = c.update(i, (id, next));
    if i < c.len() - 1 {
        assert(u.drop_last() =~= c.drop_last().update(i, (id, next)));
        lemma_timer_update(c.drop_last(), i, id, next);
        assert forall|other: Seq<char>| other != id implies #[trigger] timer_of(u, other) == timer_of(c, other) by {
            assert(u.last() == c.last());
            assert(timer_of(c.drop_last().update(i, (id, next)), other) == timer_of(c.drop_last(), other));
        }
    } else {
        assert(u.drop_last() =~= c.drop_last());
        assert forall|other: Seq<char>| other != id implies #[trigger] timer_of(u, other) == timer_of(c, other) by {
            assert(u.last().0 == id);
            assert(c.last().0 == id);
        }
    }
}

impl Default for TemplateRuntimeState {
    fn default() -> (r: Self)
        ensures
            r.timers().len() == 0,
            r.spec_revision() == 0,
    {
        TemplateRuntimeState::new()
    }
}


// ---------------------------------------------------------------------------
// Random choices
// ---------------------------------------------------------------------------

/// `getrandom::u64`: a value from the operating system's secure random
/// source, or the source's error text. Nothing is stated of the value.
#[verifier::external_body]
fn random_u64() -> (r: Result<u64, String>) {
    match getrandom::u64() {
        Ok(value) => Ok(value),
        Err(error) => Err(error.to_string()),
    }
}

pub open spec fn random_failure_prefix() -> Seq<char> {
    "system random source failed: "@
}

/// The largest multiple of `upper_bound` that fits below `u64::MAX`:
/// random values under it map onto every index equally often.
pub open spec fn unbiased_limit(upper_bound: u64) -> u64 {
    (u64::MAX - u64::MAX % upper_bound) as u64
}

/// The index that a random value gives for `upper_bound` choices: its
/// remainder when it lies under the unbiased limit, nothing otherwise (the
/// value is drawn again).
pub open spec fn spec_index_from_random(value: u64, upper_bound: u64) -> Option<u64> {
    if value < unbiased_limit(upper_bound) {
        Some(value % upper_bound)
    } else {
        None
    }
}

/// Rejection sampling is fair: the unbiased limit is a whole number of
/// rounds of `upper_bound` values, so every index has the same number of
/// accepted values, and every index is reachable.
pub proof fn law_unbiased_limit_is_fair(upper_bound: u64, i: u64)
    requires
        upper_bound > 1,
        i < upper_bound,
    ensures
        unbiased_limit(upper_bound) % upper_bound == 0,
        unbiased_limit(upper_bound) >= upper_bound,
        u64::MAX - unbiased_limit(upper_bound) < upper_bound,
        spec_index_from_random(i, upper_bound) == Some(i),
{
    let n = upper_bound as int;
    let q = (u64::MAX as int) / n;
    vstd::arithmetic::div_mod::lemma_fundamental_div_mod(u64::MAX as int, n);
    assert(unbiased_limit(upper_bound) == n * q);
    vstd::arithmetic::div_mod::lemma_mod_multiples_basic(q, n);
    assert(q * n == n * q) by (nonlinear_arith);
    assert(q >= 1) by (nonlinear_arith)
        requires
            q == (u64::MAX as int) / n,
            1 < n <= u64::MAX,
    ;
    assert(n * q >= n) by (nonlinear_arith)
        requires
            q >= 1,
            n > 1,
    ;
    vstd::arithmetic::div_mod::lemma_small_mod(i as nat, upper_bound as nat);
}

/// The index that the random `value` gives for `upper_bound` choices, or
/// `None` when the value must be drawn again.
pub fn index_from_random(value: u64, upper_bound: u64) -> (r: Option<u64>)
    requires
        upper_bound > 0,
    ensures
        r == spec_index_from_random(value, upper_bound),
        r matches Some(i) ==> i < upper_bound,
{
    let limit = u64::MAX - u64::MAX % upper_bound;
    if value < limit {
        Some(value % upper_bound)
    } else {
        None
    }
}

/// An index in `0..upper_bound` drawn uniformly from the secure random
/// source by rejection sampling. Any returned index is below the bound; a
/// single choice needs no randomness.
/// Whether `v` is a value that the secure random source returned.
pub closed spec fn random_source_gave(v: u64) -> bool {
    call_ensures(random_u64, (), Ok::<u64, String>(v))
}

/// `i` is a fair index among `n` choices drawn from the secure random
/// source: the only index of a single choice, else the index that a value
/// the source gave yields (a value under the unbiased limit, reduced modulo
/// `n`).
pub open spec fn secure_draw(i: int, n: int) -> bool {
    &&& n == 1 ==> i == 0
    &&& n > 1 ==> exists|v: u64|
        random_source_gave(v) && #[trigger] spec_index_from_random(v, n as u64) == Some(i as u64)
}

/// Draws from `source` until a value lies under the unbiased limit and
/// returns its index; the index comes from a value that the source can give.
fn rejection_sample<F: Fn() -> Result<u64, String>>(upper: u64, source: F) -> (r: Result<u64, String>)
    requires
        upper > 1,
        call_requires(source, ()),
    ensures
        r matches Ok(i) ==> exists|v: u64|
            call_ensures(source, (), Ok::<u64, String>(v)) && #[trigger] spec_index_from_random(v, upper) == Some(i),
        r matches Err(m) ==> random_failure_prefix().is_prefix_of(m@),
{
    let mut attempts: u64 = 0;
    while attempts < u64::MAX
        invariant
            upper > 1,
            call_requires(source, ()),
        decreases u64::MAX - attempts,
    {
        match source() {
            Ok(value) => {
                match index_from_random(value, upper) {
                    Some(index) => {
                        return Ok(index);
                    },
                    None => {},
                }
            },
            Err(error) => {
                return Err(random_failure(error.as_str()));
            },
        }
        attempts = attempts + 1;
    }
    Err(random_failure("no unbiased sample"))
}

pub fn secure_random_index(upper_bound: usize) -> (r: Result<usize, String>)
    requires
        upper_bound > 0,
    ensures
        r matches Ok(i) ==> i < upper_bound,
        upper_bound == 1 ==> r == Ok::<usize, String>(0),
        r matches Ok(i) ==> secure_draw(i as int, upper_bound as int),
        r matches Err(m) ==> random_failure_prefix().is_prefix_of(m@),
{
    if upper_bound == 1 {
        return Ok(0);
    }
    let upper = upper_bound as u64;
    match rejection_sample(upper, random_u64) {
        Ok(index) => Ok(index as usize),
        Err(error) => Err(error),
    }
}

fn random_failure(detail: &str) -> (r: String)
    ensures
        random_failure_prefix().is_prefix_of(r@),
{
    let mut message = chars_of("system random source failed: ");
    proof {
        reveal_strlit("system random source failed: ");
    }
    let ghost prefix = message@;
    crate::text::append_str(&mut message, detail);
    assert(message@.subrange(0, prefix.len() as int) =~= prefix);
    crate::text::string_of(&message)
}

pub open spec fn choices_view(v: Seq<String>) -> Seq<Seq<char>> {
    v.map_values(|s: String| s@)
}

/// The cached index of a choice list.
pub open spec fn cached_choice(c: Seq<(Seq<Seq<char>>, usize)>, key: Seq<Seq<char>>) -> Option<usize>
    decreases c.len(),
{
    if c.len() == 0 {
        None
    } else if c.last().0 == key {
        Some(c.last().1)
    } else {
        cached_choice(c.drop_last(), key)
    }
}

/// One stage choice for the list `key`: a cached list gives its cached
/// index and leaves the cache alone; a new list gives a fresh index below its
/// length that is then cached, or a failure that caches nothing.
pub open spec fn stage_choice(
    before: Seq<(Seq<Seq<char>>, usize)>,
    after: Seq<(Seq<Seq<char>>, usize)>,
    key: Seq<Seq<char>>,
    r: Result<usize, String>,
) -> bool {
    match cached_choice(before, key) {
        Some(i) => r == Ok::<usize, String>(i) && i < key.len() && after == before,
        None => match r {
            Ok(i) => i < key.len() && after == before.push((key, i)) && secure_draw(i as int, key.len() as int),
            Err(_) => after == before,
        },
    }
}

/// Random choices that stay fixed for a stage: each distinct list of
/// choices is drawn once and then reused.
#[derive(Debug)]
pub struct StageRandomState {
    choices: Vec<(Vec<String>, usize)>,
}

fn same_choices(a: &Vec<String>, b: &Vec<String>) -> (r: bool)
    ensures
        r == (choices_view(a@) == choices_view(b@)),
{
    if a.len() != b.len() {
        proof {
            assert(choices_view(a@).len() != choices_view(b@).len());
        }
        return false;
    }
    let mut i: usize = 0;
    while i < a.len()
        invariant
            i <= a@.len(),
            a@.len() == b@.len(),
            forall|j: int| 0 <= j < i ==> #[trigger] a@[j]@ == b@[j]@,
        decreases a@.len() - i,
    {
        let x = chars_of(a[i].as_str());
        let y = chars_of(b[i].as_str());
        if !chars_eq(&x, &y) {
            proof {
                assert(choices_view(a@)[i as int] != choices_view(b@)[i as int]);
            }
            return false;
        }
        i = i + 1;
    }
    assert(choices_view(a@) =~= choices_view(b@));
    true
}

fn copy_choices(a: &Vec<String>) -> (r: Vec<String>)
    ensures
        choices_view(r@) == choices_view(a@),
{
    let mut r: Vec<String> = Vec::new();
    let mut i: usize = 0;
    while i < a.len()
        invariant
            i <= a@.len(),
            r@.len() == i,
            forall|j: int| 0 <= j < i ==> #[trigger] r@[j]@ == a@[j]@,
        decreases a@.len() - i,
    {
        r.push(a[i].clone());
        i = i + 1;
    }
    assert(choices_view(r@) =~= choices_view(a@));
    r
}

impl StageRandomState {
    /// Every cached index lies within its list of choices.
    #[verifier::type_invariant]
    spec fn indices_in_range(&self) -> bool {
        forall|i: int| 0 <= i < self.choices@.len() ==> #[trigger] self.choices@[i].1 < self.choices@[i].0@.len()
    }

    pub closed spec fn cache(&self) -> Seq<(Seq<Seq<char>>, usize)> {
        self.choices@.map_values(|p: (Vec<String>, usize)| (choices_view(p.0@), p.1))
    }

    /// Nothing drawn yet.
    pub fn new() -> (r: Self)
        ensures
            r.cache().len() == 0,
    {
        let r = StageRandomState { choices: Vec::new() };
        assert(r.cache() =~= Seq::empty());
        r
    }

    /// The index for `choices`: the cached one, else a fresh secure draw
    /// that is cached; an empty list of choices is an error.
    pub fn choice_for(&mut self, choices: &Vec<String>) -> (r: Result<usize, String>)
        ensures
            choices@.len() == 0 ==> (r matches Err(m) && m@ == no_choice_message()) && final(self).cache()
                == old(self).cache(),
            choices@.len() > 0 ==> stage_choice(old(self).cache(), final(self).cache(), choices_view(choices@), r),
    {
        proof {
            use_type_invariant(&*self);
        }
        if choices.len() == 0 {
            let m = crate::text::owned("random requires at least one string argument");
            proof {
                reveal_strlit("random requires at least one string argument");
            }
            return Err(m);
        }
        let ghost c = self.cache();
        let ghost key = choices_view(choices@);
        let n = self.choices.len();
        let mut i: usize = n;
        assert(c.take(n as int) =~= c);
        while i > 0 && !same_choices(&self.choices[i - 1].0, choices)
            invariant
                i <= n,
                n == self.choices@.len(),
                c == self.cache(),
                key == choices_view(choices@),
                cached_choice(c, key) == cached_choice(c.take(i as int), key),
                forall|j: int| 0 <= j < n ==> #[trigger] self.choices@[j].1 < self.choices@[j].0@.len(),
            decreases i,
        {
            assert(c.take(i as int).drop_last() =~= c.take(i - 1));
            i = i - 1;
        }
        if i > 0 {
            assert(c.take(i as int).last() == c[i - 1]);
            let found = self.choices[i - 1].1;
            proof {
                assert(choices_view(self.choices@[i - 1].0@) == key);
                assert(self.choices@[i - 1].0@.len() == choices_view(self.choices@[i - 1].0@).len());
            }
            return Ok(found);
        }
        assert(c.take(0) =~= Seq::<(Seq<Seq<char>>, usize)>::empty());
        match secure_random_index(choices.len()) {
            Ok(index) => {
                let key_copy = copy_choices(choices);
                assert(key_copy@.len() == choices_view(key_copy@).len());
                let mut entries: Vec<(Vec<String>, usize)> = Vec::new();
                std::mem::swap(&mut entries, &mut self.choices);
                entries.push((key_copy, index));
                self.choices = entries;
                assert(self.cache() =~= c.push((key, index)));
                Ok(index)
            },
            Err(e) => Err(e),
        }
    }

    /// How many choice lists were drawn.
    pub fn cached_choice_count(&self) -> (r: usize)
        ensures
            r == self.cache().len(),
    {
        self.choices.len()
    }
}

impl Default for StageRandomState {
    fn default() -> (r: Self)
        ensures
            r.cache().len() == 0,
    {
        StageRandomState::new()
    }
}

/// How the `random` helper picks: securely each time, fixed per stage, or
/// always the first choice (stable previews).
#[derive(Debug)]
pub enum RandomMode {
    Secure,
    Stage(StageRandomState),
    First,
}

/// The error of the `random` helper without any choice.
pub open spec fn no_choice_message() -> Seq<char> {
    "random requires at least one string argument"@
}

/// The index the `random` helper uses for `choices` in `mode`; an empty
/// list of choices is an error.
pub fn random_choice_index(mode: &mut RandomMode, choices: &Vec<String>) -> (r: Result<usize, String>)
    ensures
        r is Ok ==> r->Ok_0 < choices@.len(),
        choices@.len() == 0 ==> (r matches Err(m) && m@ == no_choice_message()) && *final(mode) == *old(mode),
        choices@.len() > 0 ==> match *old(mode) {
            RandomMode::First => r == Ok::<usize, String>(0) && *final(mode) is First,
            RandomMode::Secure => (choices@.len() == 1 ==> r == Ok::<usize, String>(0)) && (r matches Ok(i)
                ==> secure_draw(i as int, choices@.len() as int)) && (r matches Err(m) ==> random_failure_prefix().is_prefix_of(
                m@,
            )) && *final(mode) is Secure,
            RandomMode::Stage(state) => *final(mode) matches RandomMode::Stage(next) && stage_choice(
                state.cache(),
                next.cache(),
                choices_view(choices@),
                r,
            ),
        },
{
    let n = choices.len();
    if n == 0 {
        let m = crate::text::owned("random requires at least one string argument");
        proof {
            reveal_strlit("random requires at least one string argument");
        }
        return Err(m);
    }
    let first = match mode {
        RandomMode::First => true,
        _ => false,
    };
    if first {
        return Ok(0);
    }
    let secure = match mode {
        RandomMode::Secure => true,
        _ => false,
    };
    if secure {
        return secure_random_index(n);
    }
    match mode {
        RandomMode::Stage(state) => state.choice_for(choices),
        _ => Ok(0),
    }
}

/// A cooldown id must hold something besides white space.
pub fn valid_cooldown_id(id: &str) -> (r: bool)
    ensures
        r == (crate::text::trimmed(id@).len() > 0),
{
    let c = chars_of(id);
    let t = crate::text::trim(&c);
    t.len() > 0
}

/// Laws of the cooldown timer: a held trigger is one event, and a rising
/// edge while ready starts the timer.
pub proof fn law_cooldown_fires_on_rising_edges_only(s: CooldownState, duration: u64, now: u64)
    requires
        duration > 0,
    ensures
        s.last_trigger ==> cooldown_step(s, duration, true, now).0.activated_at == (match s.activated_at {
            Some(a) => if elapsed_since(a, now) >= duration {
                None
            } else {
                Some(a)
            },
            None => None,
        }),
        !s.last_trigger && cooldown_step(s, duration, true, now).1 == false ==> cooldown_step(s, duration, true, now).0.activated_at is Some,
        cooldown_step(s, duration, false, now).0.last_trigger == false,
{
}

} // verus!
