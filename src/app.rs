//! The installer's screen state machine.
use vstd::prelude::*;
use crate::command::InstallError;
use crate::text::{cat, owned};

verus! {

/// The screens of the installer.
#[derive(Debug, Clone, PartialEq)]
pub enum AppState {
    BootSplash,
    Welcome,
    Error(String),
    Exit,
}

pub open spec fn display_of(s: AppState) -> Seq<char> {
    match s {
        AppState::BootSplash => "BootSplash"@,
        AppState::Welcome => "Welcome"@,
        AppState::Error(m) => "Error: "@ + m@,
        AppState::Exit => "Exit"@,
    }
}

impl AppState {
    /// The state's name, with the message of an error.
    pub fn to_display_string(&self) -> (r: String)
        ensures
            r@ == display_of(*self),
    {
        match self {
            AppState::BootSplash => owned("BootSplash"),
            AppState::Welcome => owned("Welcome"),
            AppState::Error(m) => cat("Error: ", m.as_str()),
            AppState::Exit => owned("Exit"),
        }
    }
}

/// The controller: the current screen and whether the program should stop.
pub struct App {
    state: AppState,
    should_exit: bool,
}

pub open spec fn is_quit_key(c: char) -> bool {
    c == 'q' || c == 'Q'
}

/// The text shown on each screen, one entry per line.
pub open spec fn display_lines(s: AppState) -> Seq<Seq<char>> {
    match s {
        AppState::BootSplash => seq!["TruthDB Installer"@, "Initializing..."@],
        AppState::Welcome => seq![
            "TruthDB Installer"@,
            "Status: booted"@,
            "Press Q to quit (for now)"@,
        ],
        AppState::Error(m) => seq!["TruthDB Installer"@, "ERROR: "@ + m@, "Press Q to quit"@],
        AppState::Exit => seq!["TruthDB Installer"@, "Shutting down..."@],
    }
}

impl App {
    pub closed spec fn current(&self) -> AppState {
        self.state
    }

    pub closed spec fn exiting(&self) -> bool {
        self.should_exit
    }

    /// A controller on the boot splash screen.
    pub fn new() -> (r: App)
        ensures
            r.current() is BootSplash,
            !r.exiting(),
    {
        App { state: AppState::BootSplash, should_exit: false }
    }

    pub fn state(&self) -> (r: &AppState)
        ensures
            *r == self.current(),
    {
        &self.state
    }

    pub fn should_exit(&self) -> (r: bool)
        ensures
            r == self.exiting(),
    {
        self.should_exit
    }

    /// Moves to `new_state`; reaching `Exit` asks the program to stop.
    fn transition_to(&mut self, new_state: AppState)
        ensures
            final(self).current() == new_state,
            final(self).exiting() == (old(self).exiting() || new_state is Exit),
    {
        if let AppState::Exit = new_state {
            self.should_exit = true;
        }
        self.state = new_state;
    }

    /// Leaves the boot splash for the welcome screen; any other screen stays.
    pub fn initialize(&mut self) -> (r: Result<(), InstallError>)
        ensures
            r is Ok,
            old(self).current() is BootSplash ==> final(self).current() is Welcome,
            !(old(self).current() is BootSplash) ==> final(self).current() == old(self).current(),
            final(self).exiting() == old(self).exiting(),
    {
        if let AppState::BootSplash = self.state {
            self.transition_to(AppState::Welcome);
        }
        Ok(())
    }

    /// On the welcome and error screens `q` or `Q` leads to `Exit`; every other key, and every
    /// key on the other screens, is ignored.
    pub fn handle_input(&mut self, key: char) -> (r: Result<(), InstallError>)
        ensures
            r is Ok,
            ((old(self).current() is Welcome || old(self).current() is Error) && is_quit_key(key))
                ==> final(self).current() is Exit && final(self).exiting(),
            !((old(self).current() is Welcome || old(self).current() is Error) && is_quit_key(key))
                ==> final(self).current() == old(self).current() && final(self).exiting()
                == old(self).exiting(),
    {
        let quit = key == 'q' || key == 'Q';
        match self.state {
            AppState::Welcome => {
                if quit {
                    self.transition_to(AppState::Exit);
                }
            },
            AppState::Error(_) => {
                if quit {
                    self.transition_to(AppState::Exit);
                }
            },
            _ => {},
        }
        Ok(())
    }

    /// Shows `error` on the error screen.
    pub fn handle_error(&mut self, error: String)
        ensures
            final(self).current() == AppState::Error(error),
            final(self).exiting() == old(self).exiting(),
    {
        self.state = AppState::Error(error);
    }

    /// The lines of text for the current screen.
    pub fn get_display_text(&self) -> (r: Vec<String>)
        ensures
            crate::command::strs(r@) == display_lines(self.current()),
    {
        let mut v: Vec<String> = Vec::new();
        v.push(owned("TruthDB Installer"));
        match &self.state {
            AppState::BootSplash => {
                v.push(owned("Initializing..."));
            },
            AppState::Welcome => {
                v.push(owned("Status: booted"));
                v.push(owned("Press Q to quit (for now)"));
            },
            AppState::Error(msg) => {
                v.push(cat("ERROR: ", msg.as_str()));
                v.push(owned("Press Q to quit"));
            },
            AppState::Exit => {
                v.push(owned("Shutting down..."));
            },
        }
        assert(crate::command::strs(v@) =~= display_lines(self.current()));
        v
    }
}

} // verus!
