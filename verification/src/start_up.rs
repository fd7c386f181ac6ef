//! What the program does for each subcommand.

use crate::model::commandline::Mode;
use vstd::prelude::*;
use vstd::string::*;

verus! {

/// A front end that is reserved and does nothing yet.
#[derive(Clone, Copy, Debug, PartialEq, Eq, Structural)]
pub enum FrontEnd {
    Cli,
    Desktop,
}

/// What the program is to do.
#[derive(Debug)]
pub enum StartUp {
    /// Load the rune from `file` and run its flow at `flow_idx`.
    Run { file: String, flow_idx: usize },
    /// Say that the front end is not implemented.
    NotImplemented(FrontEnd),
}

/// Mathematical value of a [`StartUp`].
pub enum StartUpView {
    Run { file: Seq<char>, flow_idx: usize },
    NotImplemented(FrontEnd),
}

impl View for StartUp {
    type V = StartUpView;

    open spec fn view(&self) -> StartUpView {
        match self {
            StartUp::Run { file, flow_idx } => StartUpView::Run {
                file: file@,
                flow_idx: *flow_idx,
            },
            StartUp::NotImplemented(front_end) => StartUpView::NotImplemented(*front_end),
        }
    }
}

/// Decides what the program does in `mode`: `run` runs the first flow of
/// the file given, or of `.runer` where none is given; the other
/// subcommands are reserved.
pub fn handle_mod(mode: Mode) -> (plan: StartUp)
    ensures
        plan@ == (match mode {
            Mode::Run(args) => StartUpView::Run {
                file: match args.file {
                    Some(file) => file@,
                    None => ".runer"@,
                },
                flow_idx: 0,
            },
            Mode::Cli => StartUpView::NotImplemented(FrontEnd::Cli),
            Mode::Desktop => StartUpView::NotImplemented(FrontEnd::Desktop),
        }),
{
    match mode {
        Mode::Run(args) => {
            let file = match args.file {
                Some(file) => file,
                None => String::from_str(".runer"),
            };
            StartUp::Run { file, flow_idx: 0 }
        },
        Mode::Cli => StartUp::NotImplemented(FrontEnd::Cli),
        Mode::Desktop => StartUp::NotImplemented(FrontEnd::Desktop),
    }
}

} // verus!
