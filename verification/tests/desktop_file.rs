use onagre::desktop_file::{parse_desktop_file, AcquisitionError, DesktopFile};

fn file(name: &str, exec_command: &str, icon: Option<&str>) -> Result<DesktopFile, AcquisitionError> {
    Ok(DesktopFile {
        name: name.to_string(),
        exec_command: exec_command.to_string(),
        icon: icon.map(|icon| icon.to_string()),
    })
}

#[test]
fn reads_name_command_and_icon() {
    let text = "[Desktop Entry]\nType=Application\nName=Firefox\nExec=firefox %u\nIcon=firefox\n";
    assert_eq!(parse_desktop_file(text), file("Firefox", "firefox %u", Some("firefox")));
}

#[test]
fn icon_may_be_missing() {
    let text = "[Desktop Entry]\nName=Files\nExec=nautilus --new-window %U";
    assert_eq!(parse_desktop_file(text), file("Files", "nautilus --new-window %U", None));
}

#[test]
fn blanks_around_keys_and_values_do_not_count() {
    let text = "  [Desktop Entry]\t\r\n  Name =  GNU Image  \r\nExec\t=gimp %F   \nIcon=\n";
    assert_eq!(parse_desktop_file(text), file("GNU Image", "gimp %F", Some("")));
}

#[test]
fn value_keeps_later_equals_signs() {
    let text = "[Desktop Entry]\nName=a=b\nExec=env A=1 B=2 run\n";
    assert_eq!(parse_desktop_file(text), file("a=b", "env A=1 B=2 run", None));
}

#[test]
fn first_line_of_a_key_counts() {
    let text = "[Desktop Entry]\nName=First\nName=Second\nExec=one\nExec=two\n";
    assert_eq!(parse_desktop_file(text), file("First", "one", None));
}

#[test]
fn keys_are_matched_exactly() {
    let text = "[Desktop Entry]\nName[de]=Dateien\nGenericName=Browser\nname=lower\nName=Files\nTryExec=x\nExec=files\n";
    assert_eq!(parse_desktop_file(text), file("Files", "files", None));
}

#[test]
fn only_the_application_group_counts() {
    let text = "Name=Before\n[Other]\nName=Other\nExec=other\n[Desktop Entry]\nName=Main\nExec=main\n[Desktop Action new]\nName=Action\nExec=action\nIcon=late\n";
    assert_eq!(parse_desktop_file(text), file("Main", "main", None));
}

#[test]
fn text_without_a_name_describes_nothing() {
    assert_eq!(parse_desktop_file(""), Err(AcquisitionError::NoName));
    assert_eq!(parse_desktop_file("Name=x\nExec=y\n"), Err(AcquisitionError::NoName));
    assert_eq!(parse_desktop_file("[Desktop Entry]\nExec=y\n"), Err(AcquisitionError::NoName));
    assert_eq!(parse_desktop_file("[Desktop Entry]\n[Next]\nName=x\nExec=y\n"), Err(AcquisitionError::NoName));
    assert_eq!(parse_desktop_file("[Desktop Entry\nName=x\nExec=y\n"), Err(AcquisitionError::NoName));
}

#[test]
fn text_without_a_command_describes_nothing() {
    assert_eq!(parse_desktop_file("[Desktop Entry]\nName=x\n"), Err(AcquisitionError::NoCommand));
    assert_eq!(
        parse_desktop_file("[Desktop Entry]\nName=x\nExec\n[Next]\nExec=y\n"),
        Err(AcquisitionError::NoCommand)
    );
}

#[test]
fn other_characters_are_kept() {
    let text = "[Desktop Entry]\nName=Café – été\nExec=\"/opt/my app/run\" --flag\nIcon=/usr/share/icons/é.svg";
    assert_eq!(
        parse_desktop_file(text),
        file("Café – été", "\"/opt/my app/run\" --flag", Some("/usr/share/icons/é.svg"))
    );
}
