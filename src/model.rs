use vstd::prelude::*;

verus! {

/// Presentation hint attached to a command; the core never interprets it.
#[derive(Clone, Copy, Debug, PartialEq, Eq, Structural)]
pub enum Tag {
    Magenta,
    BrightMagenta,
    BrightYellow,
    BrightBlue,
    BrightGreen,
    BrightBlack,
}

/// The presentation hint of each known section; any other name gets `BrightBlack`.
pub open spec fn section_tag_spec(name: Seq<char>) -> Tag {
    if name == "APT System Update"@ {
        Tag::BrightMagenta
    } else if name == "Flatpak Update"@ {
        Tag::BrightYellow
    } else if name == "Snap Update"@ {
        Tag::BrightBlue
    } else if name == "Firmware Update"@ {
        Tag::BrightGreen
    } else if name == "HackerOS Update"@ {
        Tag::Magenta
    } else {
        Tag::BrightBlack
    }
}

pub fn section_tag(name: &String) -> (r: Tag)
    ensures
        r == section_tag_spec(name@),
{
    if *name == String::from_str("APT System Update") {
        Tag::BrightMagenta
    } else if *name == String::from_str("Flatpak Update") {
        Tag::BrightYellow
    } else if *name == String::from_str("Snap Update") {
        Tag::BrightBlue
    } else if *name == String::from_str("Firmware Update") {
        Tag::BrightGreen
    } else if *name == String::from_str("HackerOS Update") {
        Tag::Magenta
    } else {
        Tag::BrightBlack
    }
}

/// One external action, with an optional read-only preview invocation.
pub struct CommandSpec {
    pub name: String,
    pub invocation: String,
    pub list_invocation: Option<String>,
    pub tag: Tag,
}

impl CommandSpec {
    pub fn new(name: String, invocation: String, list_invocation: Option<String>, tag: Tag) -> (r:
        CommandSpec)
        ensures
            r.name == name,
            r.invocation == invocation,
            r.list_invocation == list_invocation,
            r.tag == tag,
    {
        CommandSpec { name, invocation, list_invocation, tag }
    }
}

/// A named, ordered group of commands.
pub struct Section {
    pub name: String,
    pub commands: Vec<CommandSpec>,
}

impl Section {
    pub fn new(name: String, commands: Vec<CommandSpec>) -> (r: Section)
        ensures
            r.name == name,
            r.commands == commands,
    {
        Section { name, commands }
    }
}

} // verus!
