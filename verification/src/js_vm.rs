//! The bookkeeping of a renderer's JavaScript VM: its configuration, its
//! timers and its event listeners. The callbacks themselves are run by the
//! caller: setting a timer gives its name, and the operations that fire
//! timers or listeners give back which ones to run, in order.

use vstd::prelude::*;
use crate::error::Result;
use crate::renderer::RendererConfig;
use crate::table::{KeyedTable, Entries, table_get, table_insert, lemma_reinsert, lemma_get_after_insert};
use crate::text::{decimal, decimal_string, concat_str, str_to_string, str_equal};
use crate::time::{Duration, Timestamp, max_timestamp_nanos};
use crate::security::opt_text;

verus! {

/// JavaScript VM configuration
#[derive(Debug, Clone)]
pub struct JsVmConfig {
    /// Enable JIT compilation
    pub jit_enabled: bool,
    /// Enable WebAssembly
    pub wasm_enabled: bool,
    /// Memory limit (in MB)
    pub memory_limit_mb: usize,
    /// Execution timeout (in milliseconds)
    pub execution_timeout_ms: u64,
    /// Enable strict mode
    pub strict_mode: bool,
    /// Enable console logging
    pub console_logging: bool,
}

/// Execution state
#[derive(Debug, Clone)]
pub enum ExecutionState {
    /// Not executed
    NotExecuted,
    /// Currently executing
    Executing,
    /// Successfully completed
    Completed,
    /// Failed with error
    Failed(String),
}

/// JavaScript function
#[derive(Debug)]
pub struct JsFunction {
    /// Function name
    pub name: String,
    /// Function parameters
    pub parameters: Vec<String>,
    /// Function body
    pub body: String,
    /// Whether the function is async
    pub is_async: bool,
}

/// Script context
#[derive(Debug)]
pub struct ScriptContext {
    /// Context ID
    pub context_id: String,
    /// Script source
    pub source: String,
    /// Compiled bytecode (if applicable)
    pub bytecode: Option<Vec<u8>>,
    /// Execution state
    pub execution_state: ExecutionState,
    /// Variables
    pub variables: KeyedTable<serde_json::Value>,
    /// Functions
    pub functions: KeyedTable<JsFunction>,
}

/// JavaScript event listener; its callback is kept by the caller, at the
/// same position.
#[derive(Debug)]
pub struct JsEventListener {
    /// Event type
    pub event_type: String,
    /// Element ID (if applicable)
    pub element_id: Option<String>,
    /// Whether the listener is active
    pub active: bool,
}

/// Timer type
#[derive(Debug, Clone, Copy, PartialEq, Eq, Structural)]
pub enum TimerType {
    /// setTimeout
    Timeout,
    /// setInterval
    Interval,
}

/// Timer; its callback is kept by the caller, under the timer's name.
#[derive(Debug)]
pub struct Timer {
    /// Timer ID
    pub timer_id: String,
    /// Timer type
    pub timer_type: TimerType,
    /// Interval (for setInterval)
    pub interval_ms: Option<u64>,
    /// Next execution time
    pub next_execution: Timestamp,
    /// Whether the timer is active
    pub active: bool,
}

/// JavaScript VM manager
pub struct JavaScriptVmManager {
    config: JsVmConfig,
    global_scope: serde_json::Value,
    script_contexts: KeyedTable<ScriptContext>,
    event_listeners: Vec<JsEventListener>,
    timers: KeyedTable<Timer>,
    next_timer_id: u64,
}

/// The name of the timer numbered `n`.
pub open spec fn timer_name(n: nat) -> Seq<char> {
    "timer_"@ + decimal(n)
}

/// Nanoseconds in `ms` milliseconds.
pub open spec fn millis(ms: u64) -> nat {
    (ms * 1_000_000) as nat
}

/// The latest moment from which every interval can still be counted.
pub open spec fn schedulable(now: Timestamp) -> bool {
    now@ + 18_446_744_073_709_551_615_000_000 <= max_timestamp_nanos()
}

/// `new` is `old` with an active timer of the given kind stored under `id`,
/// due at `at`.
pub open spec fn timer_added(
    old: Entries<Timer>,
    new: Entries<Timer>,
    id: Seq<char>,
    kind: TimerType,
    interval: Option<u64>,
    at: nat,
) -> bool {
    match table_get(new, id) {
        Some(t) => new == table_insert(old, id, t) && t.timer_id@ == id && t.timer_type == kind && t.interval_ms
            == interval && t.next_execution@ == at && t.active,
        None => false,
    }
}

/// A timer is due at `now`: active, and its time has come.
pub open spec fn is_due(t: Timer, now: Timestamp) -> bool {
    t.active && now@ >= t.next_execution@
}

/// `t2` is `t` after a round of firing at `now`: a due timeout is switched
/// off, a due interval is rescheduled one interval after `now`; a timer
/// not due is untouched.
pub open spec fn stepped(t2: Timer, t: Timer, now: Timestamp) -> bool {
    if is_due(t, now) {
        &&& t2.timer_id == t.timer_id
        &&& t2.timer_type == t.timer_type
        &&& t2.interval_ms == t.interval_ms
        &&& match (t.timer_type, t.interval_ms) {
            (TimerType::Timeout, _) => !t2.active && t2.next_execution == t.next_execution,
            (TimerType::Interval, Some(ms)) => t2.active && t2.next_execution@ == now@ + millis(ms),
            (TimerType::Interval, None) => t2.active && t2.next_execution == t.next_execution,
        }
    } else {
        t2 == t
    }
}

/// The names of the timers due at `now`, in table order.
pub open spec fn due_names(t: Entries<Timer>, now: Timestamp) -> Seq<Seq<char>>
    decreases t.len(),
{
    if t.len() == 0 {
        Seq::empty()
    } else {
        let rest = due_names(t.drop_last(), now);
        if is_due(t.last().1, now) {
            rest.push(t.last().0)
        } else {
            rest
        }
    }
}

/// The number of active timers.
pub open spec fn active_count(t: Entries<Timer>) -> nat
    decreases t.len(),
{
    if t.len() == 0 {
        0
    } else {
        active_count(t.drop_last()) + if t.last().1.active {
            1nat
        } else {
            0nat
        }
    }
}

/// A listener for `event_type` on the element `element_id` (or on none).
pub open spec fn listener_matches(l: JsEventListener, event_type: Seq<char>, element_id: Option<Seq<char>>) -> bool {
    l.event_type@ == event_type && opt_text(l.element_id) == element_id
}

/// The listeners that do not match, in order.
pub open spec fn kept_listeners(
    s: Seq<JsEventListener>,
    event_type: Seq<char>,
    element_id: Option<Seq<char>>,
) -> Seq<JsEventListener>
    decreases s.len(),
{
    if s.len() == 0 {
        Seq::empty()
    } else {
        let rest = kept_listeners(s.drop_last(), event_type, element_id);
        if listener_matches(s.last(), event_type, element_id) {
            rest
        } else {
            rest.push(s.last())
        }
    }
}

/// The positions of the listeners that match, in order.
pub open spec fn matching_positions(
    s: Seq<JsEventListener>,
    event_type: Seq<char>,
    element_id: Option<Seq<char>>,
) -> Seq<int>
    decreases s.len(),
{
    if s.len() == 0 {
        Seq::empty()
    } else {
        let rest = matching_positions(s.drop_last(), event_type, element_id);
        if listener_matches(s.last(), event_type, element_id) {
            rest.push(s.len() - 1)
        } else {
            rest
        }
    }
}

/// The positions of the active listeners for `event_type`, in order.
pub open spec fn firing_positions(s: Seq<JsEventListener>, event_type: Seq<char>) -> Seq<int>
    decreases s.len(),
{
    if s.len() == 0 {
        Seq::empty()
    } else {
        let rest = firing_positions(s.drop_last(), event_type);
        if s.last().active && s.last().event_type@ == event_type {
            rest.push(s.len() - 1)
        } else {
            rest
        }
    }
}

/// A positions list as integers.
pub open spec fn positions(v: Seq<usize>) -> Seq<int> {
    v.map_values(|x: usize| x as int)
}

/// A copy of a listener.
fn copy_listener(l: &JsEventListener) -> (r: JsEventListener)
    ensures
        r == *l,
{
    let element_id = match &l.element_id {
        Some(id) => Some(id.clone()),
        None => None,
    };
    JsEventListener { event_type: l.event_type.clone(), element_id, active: l.active }
}

/// Whether a listener's element is `element_id`.
fn same_element(a: &Option<String>, b: Option<&str>) -> (r: bool)
    ensures
        r == (opt_text(*a) == match b {
            Some(s) => Some(s@),
            None => None::<Seq<char>>,
        }),
{
    match (a, b) {
        (Some(x), Some(y)) => str_equal(x.as_str(), y),
        (None, None) => true,
        _ => false,
    }
}

impl JavaScriptVmManager {
    /// The VM configuration.
    pub closed spec fn settings(&self) -> JsVmConfig {
        self.config
    }

    /// The global scope.
    pub closed spec fn scope(&self) -> serde_json::Value {
        self.global_scope
    }

    /// The script contexts, by name.
    pub closed spec fn contexts(&self) -> Entries<ScriptContext> {
        self.script_contexts@
    }

    /// The event listeners, in order of addition.
    pub closed spec fn listeners(&self) -> Seq<JsEventListener> {
        self.event_listeners@
    }

    /// The timers, by name.
    pub closed spec fn timers(&self) -> Entries<Timer> {
        self.timers@
    }

    /// The number the next timer gets.
    pub closed spec fn next_number(&self) -> u64 {
        self.next_timer_id
    }

    /// Create a new JavaScript VM manager with the renderer's JIT,
    /// WebAssembly and memory settings, a five second execution timeout,
    /// strict mode and console logging, and `global_scope` as its global
    /// scope; it starts with no contexts, listeners or timers.
    pub fn new(config: &RendererConfig, global_scope: serde_json::Value) -> (r: Result<Self>)
        ensures
            r matches Ok(m) && {
                &&& m.settings().jit_enabled == config.js_jit_enabled
                &&& m.settings().wasm_enabled == config.wasm_enabled
                &&& m.settings().memory_limit_mb == config.memory_limit_mb
                &&& m.settings().execution_timeout_ms == 5000
                &&& m.settings().strict_mode
                &&& m.settings().console_logging
                &&& m.scope() == global_scope
                &&& m.contexts().len() == 0
                &&& m.listeners().len() == 0
                &&& m.timers().len() == 0
                &&& m.next_number() == 1
            },
    {
        let js_config = JsVmConfig {
            jit_enabled: config.js_jit_enabled,
            wasm_enabled: config.wasm_enabled,
            memory_limit_mb: config.memory_limit_mb,
            execution_timeout_ms: 5000,
            strict_mode: true,
            console_logging: true,
        };
        Ok(
            JavaScriptVmManager {
                config: js_config,
                global_scope,
                script_contexts: KeyedTable::new(),
                event_listeners: Vec::new(),
                timers: KeyedTable::new(),
                next_timer_id: 1,
            },
        )
    }

    /// Initialize the JavaScript VM manager: the global scope and the
    /// built-in functions are set up, which binds nothing yet.
    pub fn initialize(&mut self) -> (r: Result<()>)
        ensures
            r is Ok,
            *final(self) == *old(self),
    {
        self.initialize_global_scope()?;
        self.setup_builtin_functions()?;
        Ok(())
    }

    /// Initialize global scope: console, timer and DOM functions.
    fn initialize_global_scope(&mut self) -> (r: Result<()>)
        ensures
            r is Ok,
            *final(self) == *old(self),
    {
        self.setup_console_functions()?;
        self.setup_timer_functions()?;
        self.setup_dom_functions()?;
        Ok(())
    }

    /// Set up built-in functions; none is bound yet.
    fn setup_builtin_functions(&mut self) -> (r: Result<()>)
        ensures
            r is Ok,
            *final(self) == *old(self),
    {
        Ok(())
    }

    /// Set up console functions; none is bound yet.
    fn setup_console_functions(&mut self) -> (r: Result<()>)
        ensures
            r is Ok,
            *final(self) == *old(self),
    {
        Ok(())
    }

    /// Set up timer functions; none is bound yet.
    fn setup_timer_functions(&mut self) -> (r: Result<()>)
        ensures
            r is Ok,
            *final(self) == *old(self),
    {
        Ok(())
    }

    /// Set up DOM functions; none is bound yet.
    fn setup_dom_functions(&mut self) -> (r: Result<()>)
        ensures
            r is Ok,
            *final(self) == *old(self),
    {
        Ok(())
    }

    /// A new timer of the given kind, named `timer_` and the next number,
    /// due `delay_ms` after `now`.
    fn add_timer(&mut self, timer_type: TimerType, interval_ms: Option<u64>, delay_ms: u64, now: Timestamp) -> (r:
        Result<String>)
        requires
            old(self).next_number() < u64::MAX,
            now@ + millis(delay_ms) <= max_timestamp_nanos(),
        ensures
            r matches Ok(id) && id@ == timer_name(old(self).next_number() as nat) && timer_added(
                old(self).timers(),
                final(self).timers(),
                id@,
                timer_type,
                interval_ms,
                now@ + millis(delay_ms),
            ),
            final(self).next_number() == old(self).next_number() + 1,
            final(self).settings() == old(self).settings(),
            final(self).scope() == old(self).scope(),
            final(self).contexts() == old(self).contexts(),
            final(self).listeners() == old(self).listeners(),
    {
        let digits = decimal_string(self.next_timer_id as u128);
        let timer_id = concat_str("timer_", digits.as_str());
        self.next_timer_id = self.next_timer_id + 1;
        let delay = Duration::from_millis(delay_ms);
        let timer = Timer {
            timer_id: str_to_string(timer_id.as_str()),
            timer_type,
            interval_ms,
            next_execution: now.plus(delay),
            active: true,
        };
        let ghost stored = timer;
        self.timers.insert(str_to_string(timer_id.as_str()), timer);
        proof {
            lemma_get_after_insert(old(self).timers@, timer_id@, stored);
        }
        Ok(timer_id)
    }

    /// Set a timeout: a timer due `delay_ms` after `now`, run once.
    pub fn set_timeout(&mut self, delay_ms: u64, now: Timestamp) -> (r: Result<String>)
        requires
            old(self).next_number() < u64::MAX,
            now@ + millis(delay_ms) <= max_timestamp_nanos(),
        ensures
            r matches Ok(id) && id@ == timer_name(old(self).next_number() as nat) && timer_added(
                old(self).timers(),
                final(self).timers(),
                id@,
                TimerType::Timeout,
                None,
                now@ + millis(delay_ms),
            ),
            final(self).next_number() == old(self).next_number() + 1,
            final(self).settings() == old(self).settings(),
            final(self).scope() == old(self).scope(),
            final(self).contexts() == old(self).contexts(),
            final(self).listeners() == old(self).listeners(),
    {
        self.add_timer(TimerType::Timeout, None, delay_ms, now)
    }

    /// Set an interval: a timer due `interval_ms` after `now`, run again
    /// every `interval_ms`.
    pub fn set_interval(&mut self, interval_ms: u64, now: Timestamp) -> (r: Result<String>)
        requires
            old(self).next_number() < u64::MAX,
            now@ + millis(interval_ms) <= max_timestamp_nanos(),
        ensures
            r matches Ok(id) && id@ == timer_name(old(self).next_number() as nat) && timer_added(
                old(self).timers(),
                final(self).timers(),
                id@,
                TimerType::Interval,
                Some(interval_ms),
                now@ + millis(interval_ms),
            ),
            final(self).next_number() == old(self).next_number() + 1,
            final(self).settings() == old(self).settings(),
            final(self).scope() == old(self).scope(),
            final(self).contexts() == old(self).contexts(),
            final(self).listeners() == old(self).listeners(),
    {
        self.add_timer(TimerType::Interval, Some(interval_ms), interval_ms, now)
    }

    /// Clear a timeout or interval: it stays, switched off; nothing happens
    /// where there is no such timer.
    pub fn clear_timer(&mut self, timer_id: &str) -> (r: Result<()>)
        ensures
            r is Ok,
            match table_get(old(self).timers(), timer_id@) {
                None => final(self).timers() == old(self).timers(),
                Some(t) => match table_get(final(self).timers(), timer_id@) {
                    Some(t2) => final(self).timers() == table_insert(old(self).timers(), timer_id@, t2)
                        && t2.timer_id == t.timer_id && t2.timer_type == t.timer_type && t2.interval_ms
                        == t.interval_ms && t2.next_execution == t.next_execution && !t2.active,
                    None => false,
                },
            },
            final(self).next_number() == old(self).next_number(),
            final(self).settings() == old(self).settings(),
            final(self).scope() == old(self).scope(),
            final(self).contexts() == old(self).contexts(),
            final(self).listeners() == old(self).listeners(),
    {
        let i = self.timers.position(timer_id);
        if i < self.timers.len() {
            let ghost t = self.timers@;
            proof {
                crate::table::lemma_index_of_key_bounds(t, timer_id@);
            }
            let (key, mut timer) = self.timers.remove_at(i);
            timer.active = false;
            let ghost done = timer;
            self.timers.insert_at(i, key, timer);
            proof {
                lemma_reinsert(t, i as int, done);
            }
        }
        Ok(())
    }

    /// Update timers at `now`: the names of the timers due, in table order,
    /// for the caller to run their callbacks; each due timeout is switched
    /// off and each due interval rescheduled one interval after `now`.
    pub fn update_timers(&mut self, now: Timestamp) -> (r: Result<Vec<String>>)
        requires
            schedulable(now),
        ensures
            r matches Ok(ids) && ids@.map_values(|s: String| s@) == due_names(old(self).timers(), now),
            final(self).timers().len() == old(self).timers().len(),
            forall|j: int|
                0 <= j < old(self).timers().len() ==> (#[trigger] final(self).timers()[j]).0 == old(
                    self,
                ).timers()[j].0 && stepped(final(self).timers()[j].1, old(self).timers()[j].1, now),
            final(self).next_number() == old(self).next_number(),
            final(self).settings() == old(self).settings(),
            final(self).scope() == old(self).scope(),
            final(self).contexts() == old(self).contexts(),
            final(self).listeners() == old(self).listeners(),
    {
        let ghost t0 = self.timers@;
        let n = self.timers.len();
        let mut due: Vec<String> = Vec::new();
        let mut i: usize = 0;
        while i < n
            invariant
                n == t0.len(),
                i <= n,
                self.timers@.len() == n,
                crate::table::distinct_keys(self.timers@),
                forall|j: int| 0 <= j < n ==> (#[trigger] self.timers@[j]).0 == t0[j].0,
                forall|j: int| 0 <= j < i ==> stepped(#[trigger] self.timers@[j].1, t0[j].1, now),
                forall|j: int| i <= j < n ==> #[trigger] self.timers@[j].1 == t0[j].1,
                due@.map_values(|s: String| s@) == due_names(t0.take(i as int), now),
                schedulable(now),
                self.next_timer_id == old(self).next_timer_id,
                self.config == old(self).config,
                self.global_scope == old(self).global_scope,
                self.script_contexts == old(self).script_contexts,
                self.event_listeners == old(self).event_listeners,
            decreases n - i,
        {
            let (_, current) = self.timers.entry_at(i);
            let fire = current.active && !now.is_before(&current.next_execution);
            assert(t0.take(i + 1).drop_last() =~= t0.take(i as int));
            assert(t0.take(i + 1).last() == t0[i as int]);
            if fire {
                let ghost t = self.timers@;
                let (key, mut timer) = self.timers.remove_at(i);
                let ghost before = due@.map_values(|s: String| s@);
                due.push(key.clone());
                assert(due@.map_values(|s: String| s@) =~= before.push(key@));
                match timer.timer_type {
                    TimerType::Timeout => {
                        timer.active = false;
                    },
                    TimerType::Interval => {
                        if let Some(interval_ms) = timer.interval_ms {
                            timer.next_execution = now.plus(Duration::from_millis(interval_ms));
                        }
                    },
                }
                let ghost done = timer;
                proof {
                    lemma_reinsert(t, i as int, done);
                }
                self.timers.insert_at(i, key, timer);
                proof {
                    assert(t.remove(i as int).insert(i as int, (t[i as int].0, done)) =~= t.update(
                        i as int,
                        (t[i as int].0, done),
                    ));
                }
            }
            i = i + 1;
        }
        assert(t0.take(n as int) =~= t0);
        Ok(due)
    }

    /// Add an event listener, for the caller to keep its callback at the
    /// same position.
    pub fn add_event_listener(&mut self, event_type: &str, element_id: Option<&str>) -> (r: Result<()>)
        ensures
            r is Ok,
            final(self).listeners().len() == old(self).listeners().len() + 1,
            final(self).listeners().drop_last() == old(self).listeners(),
            final(self).listeners().last().event_type@ == event_type@,
            opt_text(final(self).listeners().last().element_id) == match element_id {
                Some(s) => Some(s@),
                None => None::<Seq<char>>,
            },
            final(self).listeners().last().active,
            final(self).timers() == old(self).timers(),
            final(self).next_number() == old(self).next_number(),
            final(self).settings() == old(self).settings(),
            final(self).scope() == old(self).scope(),
            final(self).contexts() == old(self).contexts(),
    {
        let element = match element_id {
            Some(id) => Some(str_to_string(id)),
            None => None,
        };
        let listener = JsEventListener { event_type: str_to_string(event_type), element_id: element, active: true };
        self.event_listeners.push(listener);
        assert(self.event_listeners@.drop_last() =~= old(self).event_listeners@);
        Ok(())
    }

    /// Remove the event listeners for `event_type` on `element_id`: their
    /// positions are given back, for the caller to drop their callbacks.
    pub fn remove_event_listener(&mut self, event_type: &str, element_id: Option<&str>) -> (r: Result<Vec<usize>>)
        ensures
            ({
                let id = match element_id {
                    Some(s) => Some(s@),
                    None => None::<Seq<char>>,
                };
                &&& r matches Ok(p) && positions(p@) == matching_positions(old(self).listeners(), event_type@, id)
                &&& final(self).listeners() == kept_listeners(old(self).listeners(), event_type@, id)
            }),
            final(self).timers() == old(self).timers(),
            final(self).next_number() == old(self).next_number(),
            final(self).settings() == old(self).settings(),
            final(self).scope() == old(self).scope(),
            final(self).contexts() == old(self).contexts(),
    {
        let ghost id = match element_id {
            Some(s) => Some(s@),
            None => None::<Seq<char>>,
        };
        let ghost s0 = self.event_listeners@;
        let mut kept: Vec<JsEventListener> = Vec::new();
        let mut removed: Vec<usize> = Vec::new();
        let mut i: usize = 0;
        while i < self.event_listeners.len()
            invariant
                i <= s0.len(),
                self.event_listeners@ == s0,
                kept@ == kept_listeners(s0.take(i as int), event_type@, id),
                positions(removed@) == matching_positions(s0.take(i as int), event_type@, id),
                id == match element_id {
                    Some(s) => Some(s@),
                    None => None::<Seq<char>>,
                },
            decreases s0.len() - i,
        {
            let l = &self.event_listeners[i];
            assert(s0.take(i + 1).drop_last() =~= s0.take(i as int));
            assert(s0.take(i + 1).last() == s0[i as int]);
            if str_equal(l.event_type.as_str(), event_type) && same_element(&l.element_id, element_id) {
                let ghost before = positions(removed@);
                removed.push(i);
                assert(positions(removed@) =~= before.push(i as int));
            } else {
                kept.push(copy_listener(l));
            }
            i = i + 1;
        }
        assert(s0.take(s0.len() as int) =~= s0);
        self.event_listeners = kept;
        Ok(removed)
    }

    /// Trigger an event: the positions of the active listeners for
    /// `event_type`, in order, whose callbacks the caller runs.
    pub fn trigger_event(&self, event_type: &str) -> (r: Result<Vec<usize>>)
        ensures
            r matches Ok(p) && positions(p@) == firing_positions(self.listeners(), event_type@),
    {
        let ghost s0 = self.event_listeners@;
        let mut firing: Vec<usize> = Vec::new();
        let mut i: usize = 0;
        while i < self.event_listeners.len()
            invariant
                i <= s0.len(),
                self.event_listeners@ == s0,
                positions(firing@) == firing_positions(s0.take(i as int), event_type@),
            decreases s0.len() - i,
        {
            let l = &self.event_listeners[i];
            assert(s0.take(i + 1).drop_last() =~= s0.take(i as int));
            assert(s0.take(i + 1).last() == s0[i as int]);
            if l.active && str_equal(l.event_type.as_str(), event_type) {
                let ghost before = positions(firing@);
                firing.push(i);
                assert(positions(firing@) =~= before.push(i as int));
            }
            i = i + 1;
        }
        assert(s0.take(s0.len() as int) =~= s0);
        Ok(firing)
    }

    /// The number the next timer gets.
    pub fn next_timer_number(&self) -> (r: u64)
        ensures
            r == self.next_number(),
    {
        self.next_timer_id
    }

    /// The VM configuration.
    pub fn config(&self) -> (r: &JsVmConfig)
        ensures
            *r == self.settings(),
    {
        &self.config
    }

    /// The global scope.
    pub fn global_scope(&self) -> (r: &serde_json::Value)
        ensures
            *r == self.scope(),
    {
        &self.global_scope
    }

    /// The number of script contexts.
    pub fn script_context_count(&self) -> (r: usize)
        ensures
            r == self.contexts().len(),
    {
        self.script_contexts.len()
    }

    /// The number of event listeners.
    pub fn event_listener_count(&self) -> (r: usize)
        ensures
            r == self.listeners().len(),
    {
        self.event_listeners.len()
    }

    /// The number of active timers.
    pub fn active_timer_count(&self) -> (r: usize)
        ensures
            r == active_count(self.timers()),
    {
        let ghost t0 = self.timers@;
        let n = self.timers.len();
        let mut count: usize = 0;
        let mut i: usize = 0;
        while i < n
            invariant
                n == t0.len(),
                t0 == self.timers@,
                i <= n,
                count == active_count(t0.take(i as int)),
                count <= i,
            decreases n - i,
        {
            let (_, t) = self.timers.entry_at(i);
            assert(t0.take(i + 1).drop_last() =~= t0.take(i as int));
            assert(t0.take(i + 1).last() == t0[i as int]);
            if t.active {
                count = count + 1;
            }
            i = i + 1;
        }
        assert(t0.take(n as int) =~= t0);
        count
    }
}

/// The names of timers numbered differently differ.
pub proof fn lemma_timer_names_distinct(a: nat, b: nat)
    requires
        a != b,
    ensures
        timer_name(a) != timer_name(b),
{
    crate::text::lemma_decimal_roundtrip(a);
    crate::text::lemma_decimal_roundtrip(b);
    reveal_strlit("timer_");
    if timer_name(a) == timer_name(b) {
        assert(timer_name(a).subrange(6, timer_name(a).len() as int) =~= decimal(a));
        assert(timer_name(b).subrange(6, timer_name(b).len() as int) =~= decimal(b));
    }
}

} // verus!
