use vstd::prelude::*;

verus! {

/// What a line typed into the shell asks for.
#[derive(Clone, Copy, Debug, PartialEq, Eq, Structural)]
pub enum ReplCommand {
    Quit,
    Clear,
    History,
    Source,
}

/// The most commands the history shows.
pub const HISTORY_SHOWN: usize = 10;

/// The shell's state: every line entered so far, oldest first.
pub struct REPL {
    pub command_buffer: Vec<String>,
}

impl REPL {
    pub fn new() -> (r: Self)
        ensures
            r.command_buffer@.len() == 0,
    {
        REPL { command_buffer: Vec::new() }
    }

    /// Remembers a line the user entered.
    pub fn record(&mut self, line: String)
        ensures
            final(self).command_buffer@ == old(self).command_buffer@.push(line),
    {
        self.command_buffer.push(line);
    }

    /// The newest commands, newest first, at most `HISTORY_SHOWN` of them.
    pub fn history(&self) -> (r: Vec<String>)
        ensures
            r@.len() == if self.command_buffer@.len() < HISTORY_SHOWN {
                self.command_buffer@.len()
            } else {
                HISTORY_SHOWN as nat
            },
            forall|i: int| 0 <= i < r@.len() ==> #[trigger] r@[i] == self.command_buffer@[self.command_buffer@.len() - 1 - i],
    {
        let n = self.command_buffer.len();
        let shown = if n < HISTORY_SHOWN { n } else { HISTORY_SHOWN };
        let mut out: Vec<String> = Vec::new();
        let mut i: usize = 0;
        while i < shown
            invariant
                n == self.command_buffer@.len(),
                shown <= n,
                i <= shown,
                out@.len() == i,
                forall|j: int| 0 <= j < i ==> #[trigger] out@[j] == self.command_buffer@[n - 1 - j],
            decreases shown - i,
        {
            out.push(self.command_buffer[n - 1 - i].clone());
            i = i + 1;
        }
        out
    }

    /// Tells the shell's own commands from program text.
    pub fn classify(line: &String) -> (r: ReplCommand)
        ensures
            r == if line@ == ":quit"@ {
                ReplCommand::Quit
            } else if line@ == ":clear"@ {
                ReplCommand::Clear
            } else if line@ == ":history"@ {
                ReplCommand::History
            } else {
                ReplCommand::Source
            },
    {
        if *line == ":quit".to_owned() {
            ReplCommand::Quit
        } else if *line == ":clear".to_owned() {
            ReplCommand::Clear
        } else if *line == ":history".to_owned() {
            ReplCommand::History
        } else {
            ReplCommand::Source
        }
    }
}

} // verus!
