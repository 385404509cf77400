use krun::icon_source::{after_shortcut, needs_stored_copy, visit, SourceError, SourceStep};
use krun::shell::EnvVar;

fn windir() -> Vec<EnvVar> {
    vec![EnvVar { name: "WINDIR".to_string(), value: Some(r"C:\Windows".to_string()) }]
}

#[test]
fn icon_files_are_the_answer_at_index_zero() {
    let mut seen = Vec::new();
    match visit(&mut seen, r"C:\Tools\App.EXE".to_string()) {
        SourceStep::Found(source) => {
            assert_eq!(source.path, r"C:\Tools\App.EXE");
            assert_eq!(source.index, 0);
        }
        _ => panic!("an .exe holds icons"),
    }
    assert_eq!(seen, vec![r"C:\Tools\App.EXE".to_string()]);
    assert!(matches!(visit(&mut seen, r"C:\Links\App.LNK".to_string()), SourceStep::ReadShortcut));
    assert!(matches!(
        visit(&mut seen, r"C:\notes.txt".to_string()),
        SourceStep::Fail(SourceError::Unsupported)
    ));
    assert_eq!(seen.len(), 3);
}

#[test]
fn revisiting_or_nesting_too_deeply_is_a_cycle() {
    let mut seen = Vec::new();
    assert!(matches!(visit(&mut seen, r"C:\a.lnk".to_string()), SourceStep::ReadShortcut));
    assert!(matches!(visit(&mut seen, r"C:\a.lnk".to_string()), SourceStep::Fail(SourceError::Cycle)));
    assert_eq!(seen.len(), 1);
    let mut deep: Vec<String> = (0..16).map(|i| format!(r"C:\l{i}.lnk")).collect();
    assert!(matches!(visit(&mut deep, r"C:\app.exe".to_string()), SourceStep::Fail(SourceError::Cycle)));
    assert_eq!(deep.len(), 16);
}

#[test]
fn shortcuts_lead_to_their_icon_location_or_target() {
    let env = windir();
    match after_shortcut(r"%WINDIR%\System32\shell32.dll", 4, r"C:\ignored.exe", r"C:\Links", &env) {
        SourceStep::IconFile { path, index } => {
            assert_eq!(path, r"C:\Windows\System32\shell32.dll");
            assert_eq!(index, 4);
        }
        _ => panic!("the icon location names a file"),
    }
    match after_shortcut("  \"other.lnk\" ", 0, "", r"C:\Links", &env) {
        SourceStep::Follow(path) => assert_eq!(path, r"C:\Links\other.lnk"),
        _ => panic!("a shortcut as icon location is followed"),
    }
    match after_shortcut("   ", 7, r"%WINDIR%\notepad.exe", r"C:\Links", &env) {
        SourceStep::Follow(path) => assert_eq!(path, r"C:\Windows\notepad.exe"),
        _ => panic!("without an icon location the target is followed"),
    }
    assert!(matches!(
        after_shortcut("", 0, " ", r"C:\Links", &env),
        SourceStep::Fail(SourceError::NoTarget)
    ));
}

#[test]
fn only_ico_files_are_copied() {
    assert!(needs_stored_copy(r"C:\Icons\App.ICO"));
    assert!(!needs_stored_copy(r"C:\Windows\System32\shell32.dll"));
    assert!(!needs_stored_copy(r"C:\Icons\ico"));
}
