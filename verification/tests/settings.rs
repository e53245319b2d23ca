use pdfix::path::PathStyle;
use pdfix::settings::{
    begin_settings_write, read_failure, removal_result, settings_file, ReadStep, Removal, SettingsAction,
    SettingsStage,
};
use pdfix::staging::Event;

#[test]
fn settings_file_is_in_the_directory() {
    assert_eq!(settings_file("/home/u/.config/com.pdfix.app", PathStyle::Posix), "/home/u/.config/com.pdfix.app/settings.json");
    assert_eq!(settings_file("/cfg/", PathStyle::Posix), "/cfg/settings.json");
    assert_eq!(settings_file("", PathStyle::Posix), "settings.json");
}

#[test]
fn settings_write_goes_through_a_temporary_file() {
    let (mut w, a) = begin_settings_write("/cfg", PathStyle::Posix);
    assert_eq!(a, SettingsAction::CreateDir("/cfg".to_string()));
    assert_eq!(w.step(Event::Succeeded), SettingsAction::Serialize);
    assert_eq!(w.step(Event::Succeeded), SettingsAction::WriteTemp("/cfg/settings.json.tmp".to_string()));
    assert_eq!(
        w.step(Event::Succeeded),
        SettingsAction::Rename { from: "/cfg/settings.json.tmp".to_string(), to: "/cfg/settings.json".to_string() }
    );
    assert_eq!(w.step(Event::Succeeded), SettingsAction::Finish(Ok(())));
    assert_eq!(w.stage, SettingsStage::Finished);
}

#[test]
fn settings_write_failures_are_reported() {
    let (mut w, _) = begin_settings_write("/cfg", PathStyle::Posix);
    assert_eq!(
        w.step(Event::Failed("denied".to_string())),
        SettingsAction::Finish(Err("create config dir (/cfg): denied".to_string()))
    );
    let (mut w, _) = begin_settings_write("/cfg", PathStyle::Posix);
    w.step(Event::Succeeded);
    assert_eq!(
        w.step(Event::Failed("bad float".to_string())),
        SettingsAction::Finish(Err("serialize settings: bad float".to_string()))
    );
    let (mut w, _) = begin_settings_write("/cfg", PathStyle::Posix);
    w.step(Event::Succeeded);
    w.step(Event::Succeeded);
    assert_eq!(
        w.step(Event::Failed("disk full".to_string())),
        SettingsAction::Finish(Err("write temp (/cfg/settings.json.tmp): disk full".to_string()))
    );
}

#[test]
fn failed_rename_removes_the_temporary_file() {
    let (mut w, _) = begin_settings_write("/cfg", PathStyle::Posix);
    w.step(Event::Succeeded);
    w.step(Event::Succeeded);
    w.step(Event::Succeeded);
    assert_eq!(
        w.step(Event::Failed("busy".to_string())),
        SettingsAction::Remove("/cfg/settings.json.tmp".to_string())
    );
    assert_eq!(
        w.step(Event::Succeeded),
        SettingsAction::Finish(Err("rename /cfg/settings.json.tmp -> /cfg/settings.json: busy".to_string()))
    );
}

#[test]
fn windows_settings_file() {
    assert_eq!(settings_file(r"C:\Users\u\AppData\Roaming\pdfix", PathStyle::Windows), r"C:\Users\u\AppData\Roaming\pdfix\settings.json");
    assert_eq!(settings_file("C:", PathStyle::Windows), "C:settings.json");
}

#[test]
fn settings_read_and_remove_messages() {
    assert_eq!(read_failure(ReadStep::Reading, "/cfg/settings.json", "not found"), "read settings (/cfg/settings.json): not found");
    assert_eq!(read_failure(ReadStep::Parsing, "/cfg/settings.json", "bad json"), "parse settings (/cfg/settings.json): bad json");
    assert_eq!(removal_result("/cfg/settings.json", Removal::Removed), Ok(()));
    assert_eq!(removal_result("/cfg/settings.json", Removal::Missing), Ok(()));
    assert_eq!(
        removal_result("/cfg/settings.json", Removal::Failed("denied".to_string())),
        Err("remove settings (/cfg/settings.json): denied".to_string())
    );
}
