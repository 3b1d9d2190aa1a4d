//! Which clipboard tool takes a recalled value, how it is started, and how its
//! failures are reported. Starting the tool is left to the caller.

use crate::secret::SecretError;
use vstd::prelude::*;
use vstd::string::*;

verus! {

/// Something that delivers a text to the system clipboard.
pub trait Clipboard {
    /// Puts `text` on the clipboard.
    fn copy(&self, text: &str) -> Result<(), SecretError>;
}

/// The operating systems that the vault knows of.
#[derive(Clone, Copy, Debug, PartialEq, Eq, Structural)]
pub enum Platform {
    Linux,
    MacOs,
    Windows,
}

/// The tools that can fill the clipboard, in the order of preference.
#[derive(Clone, Copy, Debug, PartialEq, Eq, Structural)]
pub enum ClipboardTool {
    /// `wl-copy`, for Wayland.
    WlCopy,
    /// `xsel`, for X11.
    Xsel,
}

/// The step of a copy at which a tool failed.
#[derive(Clone, Copy, Debug, PartialEq, Eq, Structural)]
pub enum CopyStage {
    /// The tool could not be started.
    Spawn,
    /// The text could not be written to the tool's input.
    Write,
    /// The tool's end could not be awaited.
    Wait,
}

/// The tool to use, or the message that says why there is none.
pub open spec fn strategy(platform: Platform, wl_copy_installed: bool, xsel_installed: bool) -> Result<
    ClipboardTool,
    Seq<char>,
> {
    match platform {
        Platform::Linux => if wl_copy_installed {
            Ok(ClipboardTool::WlCopy)
        } else if xsel_installed {
            Ok(ClipboardTool::Xsel)
        } else {
            Err("You need to install wl-copy or xsel"@)
        },
        Platform::MacOs => Err("No clipboard support for MacOS yet"@),
        Platform::Windows => Err("No, why would you use Windows?"@),
    }
}

/// Picks the clipboard tool for `platform`, given which tools are installed:
/// on Linux `wl-copy` before `xsel`; elsewhere none, whatever is installed.
pub fn get_clipboard_strategy(
    platform: Platform,
    wl_copy_installed: bool,
    xsel_installed: bool,
) -> (r: Result<ClipboardTool, SecretError>)
    ensures
        match r {
            Ok(tool) => strategy(platform, wl_copy_installed, xsel_installed) == Ok::<
                ClipboardTool,
                Seq<char>,
            >(tool),
            Err(SecretError::ClipboardErr(m)) => strategy(
                platform,
                wl_copy_installed,
                xsel_installed,
            ) == Err::<ClipboardTool, Seq<char>>(m@),
            Err(_) => false,
        },
{
    match platform {
        Platform::Linux => {
            if wl_copy_installed {
                Ok(ClipboardTool::WlCopy)
            } else if xsel_installed {
                Ok(ClipboardTool::Xsel)
            } else {
                Err(SecretError::ClipboardErr("You need to install wl-copy or xsel".to_owned()))
            }
        },
        Platform::MacOs => Err(
            SecretError::ClipboardErr("No clipboard support for MacOS yet".to_owned()),
        ),
        Platform::Windows => Err(
            SecretError::ClipboardErr("No, why would you use Windows?".to_owned()),
        ),
    }
}

impl ClipboardTool {
    /// The name of the program.
    pub open spec fn spec_program(self) -> Seq<char> {
        match self {
            ClipboardTool::WlCopy => "wl-copy"@,
            ClipboardTool::Xsel => "xsel"@,
        }
    }

    /// The arguments with which the program reads the clipboard's new content
    /// from its input.
    pub open spec fn spec_arguments(self) -> Seq<Seq<char>> {
        match self {
            ClipboardTool::WlCopy => seq![],
            ClipboardTool::Xsel => seq!["--input"@, "--clipboard"@],
        }
    }

    /// The name of the program to start.
    pub fn program(&self) -> (name: &'static str)
        ensures
            name@ == self.spec_program(),
    {
        match self {
            ClipboardTool::WlCopy => "wl-copy",
            ClipboardTool::Xsel => "xsel",
        }
    }

    /// The arguments to start the program with.
    pub fn arguments(&self) -> (args: Vec<&'static str>)
        ensures
            args@.len() == self.spec_arguments().len(),
            forall|i: int| 0 <= i < args@.len() ==> args@[i]@ == self.spec_arguments()[i],
    {
        let mut args: Vec<&'static str> = Vec::new();
        match self {
            ClipboardTool::WlCopy => {},
            ClipboardTool::Xsel => {
                args.push("--input");
                args.push("--clipboard");
            },
        }
        args
    }

    /// The message for a failure of this tool at `stage`, with the system's
    /// words for the cause.
    pub open spec fn failure_text(self, stage: CopyStage, detail: Seq<char>) -> Seq<char> {
        stage.phrase() + self.spec_program() + ": "@ + detail
    }

    /// The error for a failure of this tool at `stage`: always a
    /// `ClipboardErr`, whose message names the stage, the tool and the cause.
    pub fn failure(&self, stage: CopyStage, detail: &str) -> (e: SecretError)
        ensures
            e matches SecretError::ClipboardErr(m) && m@ == self.failure_text(stage, detail@),
    {
        let phrase = match stage {
            CopyStage::Spawn => "Failed to spawn ",
            CopyStage::Write => "Failed to write to ",
            CopyStage::Wait => "Failed to wait for ",
        };
        let message = phrase.to_owned().concat(self.program()).concat(": ").concat(detail);
        SecretError::ClipboardErr(message)
    }
}

impl CopyStage {
    /// How a message about this stage begins.
    pub open spec fn phrase(self) -> Seq<char> {
        match self {
            CopyStage::Spawn => "Failed to spawn "@,
            CopyStage::Write => "Failed to write to "@,
            CopyStage::Wait => "Failed to wait for "@,
        }
    }
}

} // verus!
