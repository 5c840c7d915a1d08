use vstd::prelude::*;

verus! {

/// When a watch triggers: when its condition becomes true, while it is
/// true, or when it becomes false.
#[derive(Clone, Copy, Debug, PartialEq, Eq, Structural)]
pub enum WatchType {
    Rising,
    Constant,
    Falling,
}

/// Whether a watch of `watch_type` triggers on `val` after `last`.
pub open spec fn watch_triggers(watch_type: WatchType, last: bool, val: bool) -> bool {
    match watch_type {
        WatchType::Rising => val && !last,
        WatchType::Constant => val,
        WatchType::Falling => !val && last,
    }
}

/// A named condition on the machine, checked after each instruction. The
/// condition itself is evaluated by the caller; the watch keeps the previous
/// result to detect edges.
pub struct Watch {
    pub name: &'static str,
    pub watch_type: WatchType,
    pub last_result: bool,
}

impl Watch {
    pub fn new(name: &'static str, watch_type: WatchType) -> (r: Watch)
        ensures
            r.name == name,
            r.watch_type == watch_type,
            !r.last_result,
    {
        Watch { name, watch_type, last_result: false }
    }

    /// Takes the condition's latest value; whether the watch triggers.
    pub fn test(&mut self, val: bool) -> (r: bool)
        ensures
            r == watch_triggers(old(self).watch_type, old(self).last_result, val),
            final(self).last_result == val,
            final(self).name == old(self).name,
            final(self).watch_type == old(self).watch_type,
    {
        let trigger = match self.watch_type {
            WatchType::Rising => val && !self.last_result,
            WatchType::Constant => val,
            WatchType::Falling => !val && self.last_result,
        };
        self.last_result = val;
        trigger
    }

    pub fn name(&self) -> (r: &str)
        ensures
            r == self.name,
    {
        self.name
    }
}

/// The same edge choice for function watches.
#[derive(Clone, Copy, Debug, PartialEq, Eq, Structural)]
pub enum WatchFnType {
    Rising,
    Constant,
    Falling,
}

pub open spec fn watch_fn_triggers(watch_type: WatchFnType, last: bool, val: bool) -> bool {
    match watch_type {
        WatchFnType::Rising => val && !last,
        WatchFnType::Constant => val,
        WatchFnType::Falling => !val && last,
    }
}

/// A watch on a condition that the caller evaluates.
pub struct WatchFn {
    pub name: &'static str,
    pub watch_type: WatchFnType,
    pub last_result: bool,
}

impl WatchFn {
    pub fn new(name: &'static str, watch_type: WatchFnType) -> (r: WatchFn)
        ensures
            r.name == name,
            r.watch_type == watch_type,
            !r.last_result,
    {
        WatchFn { name, watch_type, last_result: false }
    }

    pub fn test(&mut self, val: bool) -> (r: bool)
        ensures
            r == watch_fn_triggers(old(self).watch_type, old(self).last_result, val),
            final(self).last_result == val,
            final(self).name == old(self).name,
            final(self).watch_type == old(self).watch_type,
    {
        let trigger = match self.watch_type {
            WatchFnType::Rising => val && !self.last_result,
            WatchFnType::Constant => val,
            WatchFnType::Falling => !val && self.last_result,
        };
        self.last_result = val;
        trigger
    }
}

/// A watch that triggers when a value differs from the one seen before.
pub struct WatchValueChange {
    pub name: &'static str,
    pub last_value: Option<u16>,
}

impl WatchValueChange {
    pub fn new(name: &'static str) -> (r: WatchValueChange)
        ensures
            r.name == name,
            r.last_value is None,
    {
        WatchValueChange { name, last_value: None }
    }

    /// Takes the latest value; triggers when an earlier value was seen and
    /// differs from it.
    pub fn test(&mut self, val: u16) -> (r: bool)
        ensures
            r == (old(self).last_value matches Some(lv) && lv != val),
            final(self).last_value == Some(val),
            final(self).name == old(self).name,
    {
        let trigger = match self.last_value {
            None => false,
            Some(lv) => val != lv,
        };
        self.last_value = Some(val);
        trigger
    }
}

/// What a debugger command asks of the running loop.
#[derive(Clone, Copy, Debug, PartialEq, Eq, Structural)]
pub enum CommandResult {
    PauseGame,
    Continue,
    ResumeGame,
}

/// Why an address argument could not be read.
#[derive(Clone, Copy, Debug, PartialEq, Eq, Structural)]
pub enum ArgError {
    Missing,
    NotHex,
}

/// A debugger command, as parsed from one input line.
#[derive(Debug)]
pub enum Command {
    Pause,
    Go,
    GoTo(Result<u16, ArgError>),
    Status,
    GraphicsStatus,
    Next,
    NextStatus,
    Read(Result<u16, ArgError>),
    Break(Result<u16, ArgError>),
    BreakClear,
    Watch(Result<u16, ArgError>),
    WatchClear,
    Quit,
    Jumps(Vec<u16>),
    JumpsClear,
    Help,
    Unknown,
}

/// The debugger's state between instructions: a single-step request, a
/// status request, a run-to address, watched addresses and breakpoints.
pub struct DebugConsole {
    pub pause_next: bool,
    pub stat_next: bool,
    pub runto_address: Option<u16>,
    pub watch_addrs: Vec<u16>,
    pub break_pc_addrs: Vec<u16>,
}

/// What the debugger decided before an instruction.
#[derive(Clone, Copy, Debug, PartialEq, Eq, Structural)]
pub struct BreakCheck {
    pub pause: bool,
    pub runto_reached: bool,
    pub breakpoint_hit: bool,
    pub print_status: bool,
}

impl DebugConsole {
    pub fn new() -> (r: DebugConsole)
        ensures
            !r.pause_next && !r.stat_next,
            r.runto_address is None,
            r.watch_addrs@.len() == 0 && r.break_pc_addrs@.len() == 0,
    {
        DebugConsole {
            pause_next: false,
            stat_next: false,
            runto_address: None,
            watch_addrs: Vec::new(),
            break_pc_addrs: Vec::new(),
        }
    }

    /// Before the instruction at `pc`: pause after a single step, at the
    /// run-to address (which is then forgotten) or at a breakpoint; report a
    /// status requested by the step before.
    pub fn before_instruction(&mut self, pc: u16) -> (r: BreakCheck)
        ensures
            r.runto_reached == (old(self).runto_address == Some(pc)),
            r.breakpoint_hit == (!old(self).pause_next && !r.runto_reached
                && old(self).break_pc_addrs@.contains(pc)),
            r.pause == (old(self).pause_next || r.runto_reached || r.breakpoint_hit),
            r.print_status == old(self).stat_next,
            !final(self).pause_next && !final(self).stat_next,
            final(self).runto_address == if r.runto_reached {
                None
            } else {
                old(self).runto_address
            },
            final(self).watch_addrs@ == old(self).watch_addrs@,
            final(self).break_pc_addrs@ == old(self).break_pc_addrs@,
    {
        let mut pause = self.pause_next;
        self.pause_next = false;
        let runto_reached = match self.runto_address {
            Some(addr) => addr == pc,
            None => false,
        };
        if runto_reached {
            self.runto_address = None;
            pause = true;
        }
        let mut breakpoint_hit = false;
        if !pause {
            let mut i: usize = 0;
            while i < self.break_pc_addrs.len() && !breakpoint_hit
                invariant
                    i <= self.break_pc_addrs@.len(),
                    breakpoint_hit ==> self.break_pc_addrs@.contains(pc),
                    !breakpoint_hit ==> forall|j: int| 0 <= j < i ==> self.break_pc_addrs@[j] != pc,
                decreases self.break_pc_addrs@.len() - i,
            {
                if self.break_pc_addrs[i] == pc {
                    assert(self.break_pc_addrs@[i as int] == pc);
                    breakpoint_hit = true;
                }
                i = i + 1;
            }
            if breakpoint_hit {
                pause = true;
            }
        }
        let print_status = self.stat_next;
        self.stat_next = false;
        BreakCheck { pause, runto_reached, breakpoint_hit, print_status }
    }

    /// Applies the state changes of a command and says whether the game is
    /// to pause, resume or go on as it was.
    pub fn apply(&mut self, command: &Command) -> (r: CommandResult)
        ensures
            *command == Command::Pause ==> r == CommandResult::PauseGame,
            *command == Command::Go ==> r == CommandResult::ResumeGame,
            (command matches Command::GoTo(Ok(a)) ==> r == CommandResult::ResumeGame
                && final(self).runto_address == Some(*a)),
            (command matches Command::GoTo(Err(_)) ==> r == CommandResult::Continue),
            (*command == Command::Next || *command == Command::NextStatus) ==> r
                == CommandResult::ResumeGame && final(self).pause_next,
            *command == Command::NextStatus ==> final(self).stat_next,
            (command matches Command::Break(Ok(a)) ==> final(self).break_pc_addrs@ == old(
                self,
            ).break_pc_addrs@.push(*a)),
            *command == Command::BreakClear ==> final(self).break_pc_addrs@.len() == 0,
            (command matches Command::Watch(Ok(a)) ==> final(self).watch_addrs@ == old(
                self,
            ).watch_addrs@.push(*a)),
            *command == Command::WatchClear ==> final(self).watch_addrs@.len() == 0,
            !(*command == Command::Pause || *command == Command::Go || command is GoTo
                || *command == Command::Next || *command == Command::NextStatus) ==> r
                == CommandResult::Continue,
            !(command is Break || *command == Command::BreakClear) ==> final(self).break_pc_addrs@
                == old(self).break_pc_addrs@,
            !(command is Watch || *command == Command::WatchClear) ==> final(self).watch_addrs@
                == old(self).watch_addrs@,
            !(*command == Command::Next || *command == Command::NextStatus) ==> final(self).pause_next
                == old(self).pause_next,
            *command != Command::NextStatus ==> final(self).stat_next == old(self).stat_next,
            !(command matches Command::GoTo(Ok(_))) ==> final(self).runto_address == old(
                self,
            ).runto_address,
    {
        match command {
            Command::Pause => CommandResult::PauseGame,
            Command::Go => CommandResult::ResumeGame,
            Command::GoTo(arg) => match arg {
                Ok(a) => {
                    self.runto_address = Some(*a);
                    CommandResult::ResumeGame
                },
                Err(_) => CommandResult::Continue,
            },
            Command::Next => {
                self.pause_next = true;
                CommandResult::ResumeGame
            },
            Command::NextStatus => {
                self.pause_next = true;
                self.stat_next = true;
                CommandResult::ResumeGame
            },
            Command::Break(arg) => {
                match arg {
                    Ok(a) => self.break_pc_addrs.push(*a),
                    Err(_) => {},
                }
                CommandResult::Continue
            },
            Command::BreakClear => {
                self.break_pc_addrs.clear();
                CommandResult::Continue
            },
            Command::Watch(arg) => {
                match arg {
                    Ok(a) => self.watch_addrs.push(*a),
                    Err(_) => {},
                }
                CommandResult::Continue
            },
            Command::WatchClear => {
                self.watch_addrs.clear();
                CommandResult::Continue
            },
            _ => CommandResult::Continue,
        }
    }
}

} // verus!
