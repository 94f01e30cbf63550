//! The progress state machine of each tool, and the tracker that holds one
//! state per tool and knows which tools have a visual indicator.
//!
//! Drawing the indicators is left to the caller: the tracker decides which
//! indicators exist, which transitions are accepted, and what each indicator
//! shows.
use vstd::prelude::*;
use vstd::string::*;
use crate::parallel::{Tool, ToolSet, lists_in_order, display_name_of};

verus! {

/// Where a tool stands in its update.
#[derive(Debug, Clone, Copy, PartialEq, Eq, Structural)]
pub enum SimpleProgressState {
    Preparing,
    Executing,
    ExecutingMid,
    ExecutingLate,
    Completed,
    Failed,
}

pub open spec fn percentage_of(s: SimpleProgressState) -> u64 {
    match s {
        SimpleProgressState::Preparing => 0,
        SimpleProgressState::Executing => 25,
        SimpleProgressState::ExecutingMid => 50,
        SimpleProgressState::ExecutingLate => 75,
        SimpleProgressState::Completed => 100,
        SimpleProgressState::Failed => 100,
    }
}

/// Completed and Failed end a tool's progress.
pub open spec fn is_terminal(s: SimpleProgressState) -> bool {
    s == SimpleProgressState::Completed || s == SimpleProgressState::Failed
}

/// The transition table: Preparing goes to Executing only; each executing
/// phase goes to the next phase, to Completed or to Failed; a terminal state
/// goes nowhere. A state never moves to itself.
pub open spec fn is_valid_transition(from: SimpleProgressState, to: SimpleProgressState) -> bool {
    match from {
        SimpleProgressState::Preparing => to == SimpleProgressState::Executing,
        SimpleProgressState::Executing => to == SimpleProgressState::ExecutingMid || is_terminal(to),
        SimpleProgressState::ExecutingMid => to == SimpleProgressState::ExecutingLate || is_terminal(
            to,
        ),
        SimpleProgressState::ExecutingLate => is_terminal(to),
        SimpleProgressState::Completed => false,
        SimpleProgressState::Failed => false,
    }
}

/// The message shown for a tool named `name` in state `s`.
pub open spec fn message_of(s: SimpleProgressState, name: Seq<char>) -> Seq<char> {
    match s {
        SimpleProgressState::Preparing => name + " 准备中..."@,
        SimpleProgressState::Executing => name + " 执行中..."@,
        SimpleProgressState::ExecutingMid => name + " 执行中..."@,
        SimpleProgressState::ExecutingLate => name + " 即将完成..."@,
        SimpleProgressState::Completed => "✓ "@ + name + " 完成"@,
        SimpleProgressState::Failed => "✗ "@ + name + " 失败"@,
    }
}

/// The message an indicator keeps when the run ends in state `s`: the
/// terminal message, or an interruption when no terminal state was reached.
pub open spec fn final_message_of(s: SimpleProgressState, name: Seq<char>) -> Seq<char> {
    if is_terminal(s) {
        message_of(s, name)
    } else {
        "⏸ "@ + name + " 中断"@
    }
}

impl SimpleProgressState {
    /// The fixed percentage of the state.
    pub fn progress_percentage(&self) -> (r: u64)
        ensures
            r == percentage_of(*self),
    {
        match self {
            SimpleProgressState::Preparing => 0,
            SimpleProgressState::Executing => 25,
            SimpleProgressState::ExecutingMid => 50,
            SimpleProgressState::ExecutingLate => 75,
            SimpleProgressState::Completed => 100,
            SimpleProgressState::Failed => 100,
        }
    }

    /// The message shown for the tool named `tool_name` in this state.
    pub fn display_message(&self, tool_name: &str) -> (r: String)
        ensures
            r@ == message_of(*self, tool_name@),
    {
        match self {
            SimpleProgressState::Preparing => String::from_str(tool_name).concat(" 准备中..."),
            SimpleProgressState::Executing => String::from_str(tool_name).concat(" 执行中..."),
            SimpleProgressState::ExecutingMid => String::from_str(tool_name).concat(" 执行中..."),
            SimpleProgressState::ExecutingLate => String::from_str(tool_name).concat(" 即将完成..."),
            SimpleProgressState::Completed => String::from_str("✓ ").concat(tool_name).concat(" 完成"),
            SimpleProgressState::Failed => String::from_str("✗ ").concat(tool_name).concat(" 失败"),
        }
    }

    /// Whether the state ends a tool's progress.
    pub fn is_terminal(&self) -> (r: bool)
        ensures
            r == is_terminal(*self),
    {
        match self {
            SimpleProgressState::Completed | SimpleProgressState::Failed => true,
            _ => false,
        }
    }

    /// Whether the table allows moving from this state to `to`.
    pub fn can_transition_to(&self, to: &SimpleProgressState) -> (r: bool)
        ensures
            r == is_valid_transition(*self, *to),
    {
        match self {
            SimpleProgressState::Preparing => *to == SimpleProgressState::Executing,
            SimpleProgressState::Executing => *to == SimpleProgressState::ExecutingMid
                || to.is_terminal(),
            SimpleProgressState::ExecutingMid => *to == SimpleProgressState::ExecutingLate
                || to.is_terminal(),
            SimpleProgressState::ExecutingLate => to.is_terminal(),
            SimpleProgressState::Completed => false,
            SimpleProgressState::Failed => false,
        }
    }

    /// The message an indicator keeps when the run ends in this state.
    pub fn final_message(&self, tool_name: &str) -> (r: String)
        ensures
            r@ == final_message_of(*self, tool_name@),
    {
        if self.is_terminal() {
            self.display_message(tool_name)
        } else {
            String::from_str("⏸ ").concat(tool_name).concat(" 中断")
        }
    }
}

/// Terminal idempotence: no transition leaves Completed or Failed.
pub proof fn lemma_terminal_states_are_final(from: SimpleProgressState, to: SimpleProgressState)
    requires
        is_terminal(from),
    ensures
        !is_valid_transition(from, to),
{
}

/// The progress of each registered tool, and which of them have a visual
/// indicator.
///
/// A tool is registered once; from then on its state moves only along the
/// transition table. Indicators exist only for tools registered while the
/// output was interactive; the state is tracked either way.
pub struct SimpleProgressManager {
    indicators: ToolSet,
    homebrew: Option<SimpleProgressState>,
    rustup: Option<SimpleProgressState>,
    mise: Option<SimpleProgressState>,
}

impl SimpleProgressManager {
    /// The state of `t`, if `t` is registered.
    pub closed spec fn state(&self, t: Tool) -> Option<SimpleProgressState> {
        match t {
            Tool::Homebrew => self.homebrew,
            Tool::Rustup => self.rustup,
            Tool::Mise => self.mise,
        }
    }

    /// The tools that have a visual indicator.
    pub closed spec fn indicators(&self) -> Set<Tool> {
        self.indicators@
    }

    /// Only a registered tool has an indicator.
    pub open spec fn wf(&self) -> bool {
        forall|t: Tool| #[trigger] self.indicators().contains(t) ==> self.state(t).is_some()
    }

    /// A tracker with no tool registered.
    pub fn new() -> (r: SimpleProgressManager)
        ensures
            r.wf(),
            forall|t: Tool| #[trigger] r.state(t) == None::<SimpleProgressState>,
            r.indicators() == Set::<Tool>::empty(),
    {
        SimpleProgressManager { indicators: ToolSet::new(), homebrew: None, rustup: None, mise: None }
    }

    /// The state of `tool`, if it is registered.
    pub fn state_of(&self, tool: &Tool) -> (r: Option<SimpleProgressState>)
        ensures
            r == self.state(*tool),
    {
        match tool {
            Tool::Homebrew => self.homebrew,
            Tool::Rustup => self.rustup,
            Tool::Mise => self.mise,
        }
    }

    fn set_state(&mut self, tool: Tool, s: SimpleProgressState)
        ensures
            final(self).indicators == old(self).indicators,
            final(self).indicators() == old(self).indicators(),
            final(self).state(tool) == Some(s),
            forall|t: Tool| t != tool ==> #[trigger] final(self).state(t) == old(self).state(t),
    {
        match tool {
            Tool::Homebrew => self.homebrew = Some(s),
            Tool::Rustup => self.rustup = Some(s),
            Tool::Mise => self.mise = Some(s),
        }
    }

    /// Puts `tool` in state Preparing, with an indicator when `with_indicator` holds.
    fn register(&mut self, tool: Tool, with_indicator: bool)
        ensures
            final(self).state(tool) == Some(SimpleProgressState::Preparing),
            forall|t: Tool| t != tool ==> #[trigger] final(self).state(t) == old(self).state(t),
            final(self).indicators() == if with_indicator {
                old(self).indicators().insert(tool)
            } else {
                old(self).indicators()
            },
    {
        if with_indicator {
            self.indicators.insert(tool);
        }
        match tool {
            Tool::Homebrew => self.homebrew = Some(SimpleProgressState::Preparing),
            Tool::Rustup => self.rustup = Some(SimpleProgressState::Preparing),
            Tool::Mise => self.mise = Some(SimpleProgressState::Preparing),
        }
    }

    /// Registers each tool of `tools` that is not registered yet, in state
    /// Preparing, with an indicator when `interactive` holds. A tool that is
    /// registered already is left as it is. Returns the tools that received
    /// an indicator, in declaration order.
    pub fn create_progress_bars(&mut self, tools: &[Tool], interactive: bool) -> (created: Vec<Tool>)
        requires
            old(self).wf(),
        ensures
            final(self).wf(),
            forall|t: Tool|
                #[trigger] final(self).state(t) == if tools@.contains(t) && old(self).state(
                    t,
                ).is_none() {
                    Some(SimpleProgressState::Preparing)
                } else {
                    old(self).state(t)
                },
            final(self).indicators() == old(self).indicators() + created@.to_set(),
            lists_in_order(
                created@,
                Set::new(
                    |t: Tool| interactive && tools@.contains(t) && old(self).state(t).is_none(),
                ),
            ),
    {
        let ghost old_self = *old(self);
        let mut created_set = ToolSet::new();
        let mut i: usize = 0;
        while i < tools.len()
            invariant
                i <= tools.len(),
                self.wf(),
                forall|t: Tool|
                    #[trigger] self.state(t) == if (exists|k: int| 0 <= k < i && #[trigger] tools@[k] == t)
                        && old_self.state(t).is_none() {
                        Some(SimpleProgressState::Preparing)
                    } else {
                        old_self.state(t)
                    },
                forall|t: Tool|
                    #[trigger] created_set@.contains(t) <==> interactive && (exists|k: int|
                        0 <= k < i && #[trigger] tools@[k] == t) && old_self.state(t).is_none(),
                forall|t: Tool|
                    #[trigger] self.indicators().contains(t) <==> old_self.indicators().contains(t)
                        || created_set@.contains(t),
            decreases tools.len() - i,
        {
            let t = tools[i];
            let ghost before = *self;
            if self.state_of(&t).is_none() {
                self.register(t, interactive);
                if interactive {
                    created_set.insert(t);
                }
            }
            proof {
                assert(tools@[i as int] == t);
                assert(self.state(t) == if before.state(t).is_none() {
                    Some(SimpleProgressState::Preparing)
                } else {
                    before.state(t)
                });
                assert(forall|u: Tool| u != t ==> #[trigger] self.state(u) == before.state(u));
                assert(before.state(t) == if (exists|k: int| 0 <= k < i && #[trigger] tools@[k] == t)
                    && old_self.state(t).is_none() {
                    Some(SimpleProgressState::Preparing)
                } else {
                    old_self.state(t)
                });
                assert forall|u: Tool|
                    #[trigger] self.state(u) == if (exists|k: int|
                        0 <= k < i + 1 && #[trigger] tools@[k] == u) && old_self.state(u).is_none() {
                        Some(SimpleProgressState::Preparing)
                    } else {
                        old_self.state(u)
                    } by {
                    if u != t {
                        if exists|k: int| 0 <= k < i + 1 && #[trigger] tools@[k] == u {
                            let k = choose|k: int| 0 <= k < i + 1 && #[trigger] tools@[k] == u;
                            assert(k != i);
                        }
                    } else {
                        assert(0 <= i < i + 1 && tools@[i as int] == u);
                        if exists|k: int| 0 <= k < i && #[trigger] tools@[k] == t {
                            let k = choose|k: int| 0 <= k < i && #[trigger] tools@[k] == t;
                            assert(0 <= k < i + 1 && tools@[k] == u);
                        }
                    }
                }
                assert forall|u: Tool|
                    #[trigger] created_set@.contains(u) <==> interactive && (exists|k: int|
                        0 <= k < i + 1 && #[trigger] tools@[k] == u) && old_self.state(u).is_none() by {
                    if u != t {
                        if exists|k: int| 0 <= k < i + 1 && #[trigger] tools@[k] == u {
                            let k = choose|k: int| 0 <= k < i + 1 && #[trigger] tools@[k] == u;
                            assert(k != i);
                        }
                    }
                }
            }
            i = i + 1;
        }
        let created = created_set.to_vec();
        proof {
            assert forall|t: Tool| #[trigger] tools@.contains(t) <==> exists|k: int|
                0 <= k < tools@.len() && #[trigger] tools@[k] == t by {}
            assert(self.indicators() =~= old_self.indicators() + created@.to_set());
            assert(created_set@ =~= Set::new(
                |t: Tool| interactive && tools@.contains(t) && old_self.state(t).is_none(),
            ));
        }
        created
    }

    /// Moves `tool` to `new_state` if `tool` is registered and the table
    /// allows the move from its current state; otherwise changes nothing.
    /// Returns whether the move was made. A rejected move is no error: the
    /// caller may warn about it, and the run goes on.
    pub fn update_state(&mut self, tool: &Tool, new_state: SimpleProgressState) -> (accepted: bool)
        requires
            old(self).wf(),
        ensures
            final(self).wf(),
            accepted == (old(self).state(*tool) is Some && is_valid_transition(
                old(self).state(*tool)->Some_0,
                new_state,
            )),
            accepted ==> final(self).state(*tool) == Some(new_state),
            forall|t: Tool|
                (t != *tool || !accepted) ==> #[trigger] final(self).state(t) == old(self).state(t),
            final(self).indicators() == old(self).indicators(),
    {
        match self.state_of(tool) {
            Some(current) => {
                if current.can_transition_to(&new_state) {
                    self.set_state(*tool, new_state);
                    true
                } else {
                    false
                }
            },
            None => false,
        }
    }

    /// Whether `tool` has a visual indicator.
    pub fn has_progress_bar(&self, tool: &Tool) -> (r: bool)
        ensures
            r == self.indicators().contains(*tool),
    {
        self.indicators.contains(tool)
    }

    /// The number of visual indicators.
    pub fn progress_bar_count(&self) -> (r: usize)
        ensures
            r == self.indicators().len(),
    {
        self.indicators.len()
    }

    /// The message each indicator keeps at the end of the run, one pair per
    /// tool with an indicator, in declaration order: the terminal message of
    /// its last state, or an interruption when it reached no terminal state.
    pub fn finalize_all(&self) -> (r: Vec<(Tool, String)>)
        requires
            self.wf(),
        ensures
            lists_in_order(r@.map_values(|p: (Tool, String)| p.0), self.indicators()),
            forall|i: int|
                0 <= i < r@.len() ==> (#[trigger] r@[i]).1@ == final_message_of(
                    self.state(r@[i].0)->Some_0,
                    display_name_of(r@[i].0),
                ),
    {
        let tools = self.indicators.to_vec();
        let mut r: Vec<(Tool, String)> = Vec::new();
        let mut i: usize = 0;
        while i < tools.len()
            invariant
                i <= tools.len(),
                self.wf(),
                lists_in_order(tools@, self.indicators()),
                r@.len() == i,
                forall|k: int| 0 <= k < i ==> (#[trigger] r@[k]).0 == tools@[k],
                forall|k: int|
                    0 <= k < i ==> (#[trigger] r@[k]).1@ == final_message_of(
                        self.state(r@[k].0)->Some_0,
                        display_name_of(r@[k].0),
                    ),
            decreases tools.len() - i,
        {
            let t = tools[i];
            assert(tools@.contains(t));
            assert(self.indicators().contains(t));
            assert(self.state(t).is_some());
            let state = match self.state_of(&t) {
                Some(s) => s,
                None => SimpleProgressState::Preparing,
            };
            let ghost old_r = r@;
            r.push((t, state.final_message(t.display_name())));
            assert(forall|k: int| 0 <= k < i ==> r@[k] == old_r[k]);
            assert(r@[i as int].0 == t);
            assert(r@[i as int].1@ == final_message_of(self.state(t)->Some_0, display_name_of(t)));
            i = i + 1;
        }
        assert(r@.map_values(|p: (Tool, String)| p.0) =~= tools@);
        r
    }
}

} // verus!
