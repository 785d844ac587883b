use vstd::prelude::*;

use crate::text::first_word;
use crate::text::first_word_of;

verus! {

/// One operator meta command, classified by the first whitespace-delimited
/// word of the input line. `Open` keeps the whole line, arguments included.
#[derive(Debug, PartialEq)]
pub enum MetaCommand {
    Exit,
    Help,
    Open(String),
    Unknown,
}

impl MetaCommand {
    /// Classifies one input line by its first word.
    pub fn new(command: String) -> (r: MetaCommand)
        ensures
            ({
                let w = first_word(command@);
                match r {
                    MetaCommand::Exit => w == ".exit"@,
                    MetaCommand::Help => w == ".help"@,
                    MetaCommand::Open(c) => w == ".open"@ && c@ == command@,
                    MetaCommand::Unknown => w != ".exit"@ && w != ".help"@ && w != ".open"@,
                }
            }),
    {
        let w = first_word_of(command.as_str());
        if w == ".exit".to_owned() {
            MetaCommand::Exit
        } else if w == ".help".to_owned() {
            MetaCommand::Help
        } else if w == ".open".to_owned() {
            MetaCommand::Open(command)
        } else {
            MetaCommand::Unknown
        }
    }
}

} // verus!
