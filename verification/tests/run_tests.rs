use wallpicker::messages::{no_wallpapers_message, success_message};
use wallpicker::run::{step, Action, Event, RemoveOutcome, RunState};
use wallpicker::scan::FileEntry;

const DIR: &str = "/home/user/pictures/wallpapers";

fn entry(name: &str) -> FileEntry {
    FileEntry { name: name.to_string(), path: format!("{}/{}", DIR, name) }
}

/// Drives one full run of the machine against a scripted environment and
/// records what it did to the world.
struct World {
    link: Option<String>,
    notifications: Vec<String>,
    picker_fed: Vec<Vec<String>>,
    setter_ran: Vec<String>,
    reports: Vec<String>,
}

impl World {
    fn new(link: Option<String>) -> World {
        World {
            link,
            notifications: Vec::new(),
            picker_fed: Vec::new(),
            setter_ran: Vec::new(),
            reports: Vec::new(),
        }
    }
}

/// Runs the machine from a scan to the finished state. The picker and the
/// two apply steps behave as scripted.
fn drive(
    world: &mut World,
    entries: Vec<FileEntry>,
    picker_exit_ok: bool,
    picker_output: &str,
    setter_exit_ok: bool,
    remove_outcome: RemoveOutcome,
    link_ok: bool,
) {
    let mut state = RunState::Scanning { dir: DIR.to_string() };
    let mut pending: Option<Event> = Some(Event::Scanned { entries });
    while let Some(event) = pending.take() {
        let (next, action) = step(state, event);
        state = next;
        match action {
            Action::NotifyNoWallpapers { message } => {
                world.notifications.push(message);
            }
            Action::RunPicker { names } => {
                world.picker_fed.push(names);
                pending = Some(Event::PickerDone {
                    exit_ok: picker_exit_ok,
                    output: picker_output.to_string(),
                });
            }
            Action::ReportNoSelection => {
                world.reports.push("no selection".to_string());
            }
            Action::RunSetter { path } => {
                world.setter_ran.push(path);
                pending = Some(Event::SetterDone { exit_ok: setter_exit_ok });
            }
            Action::RemoveLink => {
                world.link = None;
                pending = Some(Event::RemoveDone { outcome: remove_outcome });
            }
            Action::CreateLink { target } => {
                if link_ok {
                    world.link = Some(target);
                }
                pending = Some(Event::LinkDone { ok: link_ok });
            }
            Action::NotifySuccess { message } => {
                world.notifications.push(message);
            }
            Action::ReportSetterFailed => {
                world.reports.push("setter failed".to_string());
            }
            Action::ReportRemoveFailed => {
                world.reports.push("remove failed".to_string());
            }
            Action::ReportLinkFailed => {
                world.reports.push("link failed".to_string());
            }
        }
    }
    assert!(matches!(state, RunState::Finished));
}

#[test]
fn empty_directory_takes_no_wallpapers_path() {
    let mut world = World::new(Some("/old/target.png".to_string()));
    world.link = Some("/old/target.png".to_string());
    drive(&mut world, vec![entry("notes.txt"), entry("music.mp3")], true, "", true,
        RemoveOutcome::Missing, true);
    assert_eq!(world.notifications, vec![format!("No wallpapers found in {}", DIR)]);
    assert!(world.picker_fed.is_empty());
    assert!(world.setter_ran.is_empty());
    assert_eq!(world.link, Some("/old/target.png".to_string()));
}

#[test]
fn cancelled_picker_leaves_link_untouched() {
    let mut world = World::new(Some("/old/target.png".to_string()));
    drive(&mut world, vec![entry("beach.png")], false, "", true, RemoveOutcome::Missing, true);
    assert_eq!(world.reports, vec!["no selection".to_string()]);
    assert!(world.setter_ran.is_empty());
    assert!(world.notifications.is_empty());
    assert_eq!(world.link, Some("/old/target.png".to_string()));
}

#[test]
fn stale_picker_output_yields_no_selection() {
    let mut world = World::new(None);
    drive(&mut world, vec![entry("beach.png")], true, "gone.png\n", true,
        RemoveOutcome::Missing, true);
    assert_eq!(world.reports, vec!["no selection".to_string()]);
    assert!(world.setter_ran.is_empty());
    assert_eq!(world.link, None);
}

#[test]
fn full_success_scenario() {
    let mut world = World::new(None);
    drive(&mut world, vec![entry("beach.png"), entry("notes.txt")], true, "beach.png\n",
        true, RemoveOutcome::Missing, true);
    assert_eq!(world.picker_fed, vec![vec!["beach.png".to_string()]]);
    assert_eq!(world.setter_ran, vec![format!("{}/beach.png", DIR)]);
    assert_eq!(world.link, Some(format!("{}/beach.png", DIR)));
    assert_eq!(world.notifications, vec![format!("Wallpaper set to {}/beach.png", DIR)]);
    assert!(world.reports.is_empty());
}

#[test]
fn setter_failure_leaves_link_and_sends_no_success() {
    let old = Some("/old/target.png".to_string());
    let mut world = World::new(old.clone());
    drive(&mut world, vec![entry("beach.png")], true, "beach.png\n", false,
        RemoveOutcome::Missing, true);
    assert_eq!(world.setter_ran, vec![format!("{}/beach.png", DIR)]);
    assert_eq!(world.reports, vec!["setter failed".to_string()]);
    assert!(world.notifications.is_empty());
    assert_eq!(world.link, old);
}

#[test]
fn remove_failure_stops_before_creating_link() {
    let mut world = World::new(None);
    drive(&mut world, vec![entry("beach.png")], true, "beach.png\n", true,
        RemoveOutcome::Failed, true);
    assert_eq!(world.reports, vec!["remove failed".to_string()]);
    assert!(world.notifications.is_empty());
    assert_eq!(world.link, None);
}

#[test]
fn link_failure_sends_no_success_notification() {
    let mut world = World::new(None);
    drive(&mut world, vec![entry("beach.png")], true, "beach.png\n", true,
        RemoveOutcome::Missing, false);
    assert_eq!(world.reports, vec!["link failed".to_string()]);
    assert!(world.notifications.is_empty());
    assert_eq!(world.link, None);
}

#[test]
fn rerunning_success_keeps_only_second_link() {
    let mut world = World::new(Some("/old/target.png".to_string()));
    drive(&mut world, vec![entry("beach.png"), entry("dune.jpg")], true, "beach.png\n",
        true, RemoveOutcome::Missing, true);
    assert_eq!(world.link, Some(format!("{}/beach.png", DIR)));
    drive(&mut world, vec![entry("beach.png"), entry("dune.jpg")], true, "dune.jpg\n",
        true, RemoveOutcome::Removed, true);
    assert_eq!(world.link, Some(format!("{}/dune.jpg", DIR)));
    assert_eq!(world.notifications, vec![
        format!("Wallpaper set to {}/beach.png", DIR),
        format!("Wallpaper set to {}/dune.jpg", DIR),
    ]);
}

#[test]
fn message_texts_are_exact() {
    assert_eq!(
        no_wallpapers_message("/home/user/pictures/wallpapers"),
        "No wallpapers found in /home/user/pictures/wallpapers"
    );
    assert_eq!(success_message("/a/b.png"), "Wallpaper set to /a/b.png");
}

#[test]
fn picker_is_fed_each_catalog_name_once() {
    let mut world = World::new(None);
    drive(&mut world,
        vec![entry("beach.png"), entry("dune.jpg"), entry("notes.txt"), entry("anim.gif")],
        false, "", true, RemoveOutcome::Missing, true);
    assert_eq!(world.picker_fed.len(), 1);
    let mut fed = world.picker_fed[0].clone();
    fed.sort();
    assert_eq!(fed, vec![
        "anim.gif".to_string(),
        "beach.png".to_string(),
        "dune.jpg".to_string(),
    ]);
}
