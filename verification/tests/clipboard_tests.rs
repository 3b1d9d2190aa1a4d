use vaulter::clipboard::{get_clipboard_strategy, ClipboardTool, CopyStage, Platform};
use vaulter::secret::SecretError;

fn refusal(platform: Platform, wl_copy: bool, xsel: bool) -> String {
    match get_clipboard_strategy(platform, wl_copy, xsel) {
        Ok(tool) => panic!("picked {:?}", tool),
        Err(SecretError::ClipboardErr(m)) => m,
        Err(other) => panic!("wrong error: {:?}", other),
    }
}

#[test]
fn linux_prefers_wl_copy() {
    assert_eq!(
        get_clipboard_strategy(Platform::Linux, true, true).unwrap(),
        ClipboardTool::WlCopy
    );
    assert_eq!(
        get_clipboard_strategy(Platform::Linux, true, false).unwrap(),
        ClipboardTool::WlCopy
    );
}

#[test]
fn linux_falls_back_to_xsel() {
    assert_eq!(
        get_clipboard_strategy(Platform::Linux, false, true).unwrap(),
        ClipboardTool::Xsel
    );
}

#[test]
fn linux_without_a_tool_says_what_to_install() {
    assert_eq!(
        refusal(Platform::Linux, false, false),
        "You need to install wl-copy or xsel"
    );
}

#[test]
fn macos_has_no_clipboard_whatever_is_installed() {
    for wl_copy in [false, true] {
        for xsel in [false, true] {
            assert_eq!(
                refusal(Platform::MacOs, wl_copy, xsel),
                "No clipboard support for MacOS yet"
            );
        }
    }
}

#[test]
fn windows_has_no_clipboard_whatever_is_installed() {
    for wl_copy in [false, true] {
        for xsel in [false, true] {
            assert_eq!(
                refusal(Platform::Windows, wl_copy, xsel),
                "No, why would you use Windows?"
            );
        }
    }
}

#[test]
fn tools_name_their_program_and_arguments() {
    assert_eq!(ClipboardTool::WlCopy.program(), "wl-copy");
    assert!(ClipboardTool::WlCopy.arguments().is_empty());
    assert_eq!(ClipboardTool::Xsel.program(), "xsel");
    assert_eq!(ClipboardTool::Xsel.arguments(), vec!["--input", "--clipboard"]);
}

#[test]
fn failures_name_stage_tool_and_cause() {
    let cases = [
        (ClipboardTool::WlCopy, CopyStage::Spawn, "Failed to spawn wl-copy: no such file"),
        (ClipboardTool::WlCopy, CopyStage::Write, "Failed to write to wl-copy: no such file"),
        (ClipboardTool::WlCopy, CopyStage::Wait, "Failed to wait for wl-copy: no such file"),
        (ClipboardTool::Xsel, CopyStage::Spawn, "Failed to spawn xsel: no such file"),
        (ClipboardTool::Xsel, CopyStage::Write, "Failed to write to xsel: no such file"),
        (ClipboardTool::Xsel, CopyStage::Wait, "Failed to wait for xsel: no such file"),
    ];
    for (tool, stage, expected) in cases {
        match tool.failure(stage, "no such file") {
            SecretError::ClipboardErr(m) => assert_eq!(m, expected),
            other => panic!("wrong error: {:?}", other),
        }
    }
}
