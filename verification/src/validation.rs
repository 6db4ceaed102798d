//! Checks on the configuration before a batch starts: the folders, the calibrated
//! positions, CapCut's installation, and the choice of projects.
//!
//! The file system, the screen and the registry are read by the application into a
//! [`ValidationProbe`]; the rules that turn those readings into errors are here.

use vstd::prelude::*;
use crate::text::{has_substring, lowercase, lowercased, push_signed, signed_digits, text_contains};

verus! {

/// One failed check: the field it concerns and what is wrong.
#[derive(Debug)]
pub struct ValidationError {
    pub field: String,
    pub message: String,
}

/// The outcome of the checks: `ok` exactly when there is no error.
#[derive(Debug)]
pub struct ValidationResult {
    pub ok: bool,
    pub errors: Vec<ValidationError>,
}

/// The bounds of the virtual screen (all monitors together).
#[derive(Clone, Copy, Debug)]
pub struct VirtualScreen {
    pub x: i32,
    pub y: i32,
    pub width: i32,
    pub height: i32,
}

/// What the application read for the checks.
pub struct ValidationProbe {
    /// The projects folder exists.
    pub project_folder_exists: bool,
    /// The error of listing the projects folder, where it exists and could not be read.
    pub project_folder_read_error: Option<String>,
    /// The error of creating the export folder, where it was missing and could not be created.
    pub export_create_error: Option<String>,
    /// Where the export folder exists (after any creation): whether a test file could be written.
    pub export_writable: Option<bool>,
    /// The virtual screen on Windows; `None` on other systems.
    pub screen: Option<VirtualScreen>,
    /// CapCut Desktop is installed.
    pub capcut_installed: bool,
}

/// A position lies on the screen: inside the virtual screen, or (without one) with
/// both coordinates positive.
pub open spec fn spec_in_screen(c: [i32; 2], screen: Option<VirtualScreen>) -> bool {
    match screen {
        Some(s) => c[0] >= s.x && c[0] < s.x + s.width && c[1] >= s.y && c[1] < s.y + s.height,
        None => c[0] > 0 && c[1] > 0,
    }
}

/// The screen bounds are added without overflow where the check reaches them.
pub open spec fn screen_arith_ok(c: [i32; 2], screen: Option<VirtualScreen>) -> bool {
    match screen {
        Some(s) => (c[0] >= s.x ==> s.x + s.width <= i32::MAX && s.x + s.width >= i32::MIN) && (c[0] >= s.x
            && c[0] < s.x + s.width && c[1] >= s.y ==> s.y + s.height <= i32::MAX && s.y + s.height >= i32::MIN),
        None => true,
    }
}

/// Whether a position lies on the screen.
pub fn is_coord_in_screen(coord: [i32; 2], screen: Option<VirtualScreen>) -> (r: bool)
    requires
        screen_arith_ok(coord, screen),
    ensures
        r == spec_in_screen(coord, screen),
{
    match screen {
        Some(s) => coord[0] >= s.x && coord[0] < s.x + s.width && coord[1] >= s.y && coord[1] < s.y + s.height,
        None => coord[0] > 0 && coord[1] > 0,
    }
}

/// A registry entry names CapCut: its lower-case form contains "capcut".
pub open spec fn spec_mentions_capcut(name: Seq<char>) -> bool {
    has_substring(lowercased(name), "capcut"@)
}

/// Whether an installed program's key name or display name is CapCut's.
pub fn name_mentions_capcut(name: &str) -> (r: bool)
    ensures
        r == spec_mentions_capcut(name@),
{
    let l = lowercase(name);
    text_contains(l.as_str(), "capcut")
}

/// What the machine shows of a CapCut installation.
pub struct InstallProbe {
    /// Whether CapCut.exe lies under Program Files or Program Files (x86).
    pub program_files_exe: bool,
    /// Whether `%LOCALAPPDATA%\CapCut\Apps` exists.
    pub local_apps_dir: bool,
    /// The installed programs listed under the registry's Uninstall keys: the key's
    /// name and its display name (empty where it has none).
    pub uninstall_entries: Vec<(String, String)>,
}

/// CapCut is installed when its executable or its per-user folder is there, or an
/// installed program's key name or display name mentions it.
pub open spec fn spec_capcut_installed(exe: bool, local_apps: bool, entries: Seq<(String, String)>) -> bool {
    exe || local_apps || exists|i: int|
        0 <= i < entries.len() && (spec_mentions_capcut(#[trigger] entries[i].0@) || spec_mentions_capcut(entries[i].1@))
}

/// Whether CapCut Desktop is installed, from what the machine shows.
pub fn is_capcut_installed(probe: &InstallProbe) -> (r: bool)
    ensures
        r == spec_capcut_installed(probe.program_files_exe, probe.local_apps_dir, probe.uninstall_entries@),
{
    if probe.program_files_exe || probe.local_apps_dir {
        return true;
    }
    let entries = &probe.uninstall_entries;
    let mut i: usize = 0;
    while i < entries.len()
        invariant
            entries@ == probe.uninstall_entries@,
            i <= entries@.len(),
            forall|k: int|
                0 <= k < i ==> !(spec_mentions_capcut(#[trigger] entries@[k].0@) || spec_mentions_capcut(entries@[k].1@)),
        decreases entries@.len() - i,
    {
        let entry = &entries[i];
        let hit = name_mentions_capcut(entry.0.as_str()) || name_mentions_capcut(entry.1.as_str());
        if hit {
            return true;
        }
        assert forall|k: int| 0 <= k < i + 1 implies !(spec_mentions_capcut(#[trigger] entries@[k].0@)
            || spec_mentions_capcut(entries@[k].1@)) by {
            if k == i {
                assert(!hit);
            }
        }
        i = i + 1;
    }
    false
}

pub type ErrorView = (Seq<char>, Seq<char>);

pub open spec fn errors_view(v: Seq<ValidationError>) -> Seq<ErrorView> {
    v.map_values(|e: ValidationError| (e.field@, e.message@))
}

pub open spec fn position_text(label: Seq<char>, c: [i32; 2]) -> Seq<char> {
    "Tọa độ "@ + label + " ("@ + signed_digits(c[0] as int) + ","@ + signed_digits(c[1] as int) + ") nằm ngoài màn hình"@
}

pub open spec fn position_errors(field: Seq<char>, uncalibrated: Seq<char>, label: Seq<char>, c: [i32; 2], screen: Option<VirtualScreen>) -> Seq<ErrorView> {
    if c[0] == 0 && c[1] == 0 {
        seq![(field, uncalibrated)]
    } else if !spec_in_screen(c, screen) {
        seq![(field, position_text(label, c))]
    } else {
        seq![]
    }
}

/// The projects folder must be chosen, exist, and be readable.
pub open spec fn folder_errors(project_folder: Seq<char>, exists: bool, read_error: Option<Seq<char>>) -> Seq<ErrorView> {
    if project_folder.len() == 0 {
        seq![("project_folder"@, "Chưa chọn thư mục Projects"@)]
    } else if !exists {
        seq![("project_folder"@, "Thư mục không tồn tại: "@ + project_folder)]
    } else {
        match read_error {
            Some(e) => seq![("project_folder"@, "Không đọc được thư mục Projects: "@ + e)],
            None => seq![],
        }
    }
}

pub open spec fn export_errors(export_folder: Seq<char>, create_error: Option<Seq<char>>, writable: Option<bool>) -> Seq<ErrorView> {
    if export_folder.len() == 0 {
        seq![("export_folder"@, "Chưa chọn thư mục Export"@)]
    } else {
        (match create_error {
            Some(e) => seq![("export_folder"@, "Không thể tạo thư mục export: "@ + e)],
            None => seq![],
        }) + (if writable == Some(false) {
            seq![("export_folder"@, "Thư mục export không có quyền ghi"@)]
        } else {
            seq![]
        })
    }
}

pub open spec fn install_errors(capcut: bool, names_empty: bool) -> Seq<ErrorView> {
    (if !capcut {
        seq![("capcut"@, "Không tìm thấy CapCut Desktop. Vui lòng cài đặt CapCut trước."@)]
    } else {
        seq![]
    }) + (if names_empty {
        seq![("project_names"@, "Chưa chọn project nào để render"@)]
    } else {
        seq![]
    })
}

/// The errors, in the order of the checks: projects folder, export folder, the
/// first-project position, the export-path position, CapCut, the project choice.
pub open spec fn spec_validation_errors(
    project_folder: Seq<char>,
    export_folder: Seq<char>,
    first: [i32; 2],
    export_box: [i32; 2],
    names_empty: bool,
    exists: bool,
    read_error: Option<Seq<char>>,
    create_error: Option<Seq<char>>,
    writable: Option<bool>,
    screen: Option<VirtualScreen>,
    capcut: bool,
) -> Seq<ErrorView> {
    folder_errors(project_folder, exists, read_error) + export_errors(export_folder, create_error, writable) + position_errors(
        "first_project_coords"@,
        "Chưa calibrate tọa độ Project (Tọa độ XY)"@,
        "Project"@,
        first,
        screen,
    ) + position_errors("export_box_coords"@, "Chưa calibrate tọa độ Export Path"@, "Export"@, export_box, screen)
        + install_errors(capcut, names_empty)
}

fn push_error(errors: &mut Vec<ValidationError>, field: &str, message: String)
    ensures
        errors_view(final(errors)@) == errors_view(old(errors)@).push((field@, message@)),
{
    let ghost before = errors_view(errors@);
    errors.push(ValidationError { field: String::from_str(field), message });
    assert(errors_view(errors@) =~= before.push((field@, message@)));
}

fn check_position(errors: &mut Vec<ValidationError>, field: &str, uncalibrated: &str, label: &str, c: [i32; 2], screen: Option<VirtualScreen>)
    requires
        screen_arith_ok(c, screen),
    ensures
        errors_view(final(errors)@) == errors_view(old(errors)@) + position_errors(field@, uncalibrated@, label@, c, screen),
{
    let ghost before = errors_view(errors@);
    if c[0] == 0 && c[1] == 0 {
        push_error(errors, field, String::from_str(uncalibrated));
    } else if !is_coord_in_screen(c, screen) {
        let mut m = String::from_str("Tọa độ ");
        m.append(label);
        m.append(" (");
        push_signed(&mut m, c[0] as i64);
        m.append(",");
        push_signed(&mut m, c[1] as i64);
        m.append(") nằm ngoài màn hình");
        push_error(errors, field, m);
    }
    assert(errors_view(errors@) =~= before + position_errors(field@, uncalibrated@, label@, c, screen));
}

fn check_folder(errors: &mut Vec<ValidationError>, project_folder: &str, exists: bool, read_error: &Option<String>)
    ensures
        errors_view(final(errors)@) == errors_view(old(errors)@) + folder_errors(project_folder@, exists, match read_error {
            Some(e) => Some(e@),
            None => None,
        }),
{
    let ghost before = errors_view(errors@);
    if project_folder.unicode_len() == 0 {
        push_error(errors, "project_folder", String::from_str("Chưa chọn thư mục Projects"));
    } else if !exists {
        let mut m = String::from_str("Thư mục không tồn tại: ");
        m.append(project_folder);
        push_error(errors, "project_folder", m);
    } else {
        match read_error {
            Some(e) => {
                let mut m = String::from_str("Không đọc được thư mục Projects: ");
                m.append(e.as_str());
                push_error(errors, "project_folder", m);
            },
            None => {},
        }
    }
    assert(errors_view(errors@) =~= before + folder_errors(project_folder@, exists, match read_error {
        Some(e) => Some(e@),
        None => None,
    }));
}

fn check_export(errors: &mut Vec<ValidationError>, export_folder: &str, create_error: &Option<String>, writable: Option<bool>)
    ensures
        errors_view(final(errors)@) == errors_view(old(errors)@) + export_errors(export_folder@, match create_error {
            Some(e) => Some(e@),
            None => None,
        }, writable),
{
    let ghost before = errors_view(errors@);
    if export_folder.unicode_len() == 0 {
        push_error(errors, "export_folder", String::from_str("Chưa chọn thư mục Export"));
    } else {
        match create_error {
            Some(e) => {
                let mut m = String::from_str("Không thể tạo thư mục export: ");
                m.append(e.as_str());
                push_error(errors, "export_folder", m);
            },
            None => {},
        }
        if writable == Some(false) {
            push_error(errors, "export_folder", String::from_str("Thư mục export không có quyền ghi"));
        }
    }
    assert(errors_view(errors@) =~= before + export_errors(export_folder@, match create_error {
        Some(e) => Some(e@),
        None => None,
    }, writable));
}

fn check_install(errors: &mut Vec<ValidationError>, capcut: bool, names_empty: bool)
    ensures
        errors_view(final(errors)@) == errors_view(old(errors)@) + install_errors(capcut, names_empty),
{
    let ghost before = errors_view(errors@);
    if !capcut {
        push_error(errors, "capcut", String::from_str("Không tìm thấy CapCut Desktop. Vui lòng cài đặt CapCut trước."));
    }
    if names_empty {
        push_error(errors, "project_names", String::from_str("Chưa chọn project nào để render"));
    }
    assert(errors_view(errors@) =~= before + install_errors(capcut, names_empty));
}

/// Checks the configuration against what the application read.
pub fn validate_config(
    project_folder: &str,
    export_folder: &str,
    first_project_coords: [i32; 2],
    export_box_coords: [i32; 2],
    project_names: &Vec<String>,
    probe: &ValidationProbe,
) -> (r: ValidationResult)
    requires
        screen_arith_ok(first_project_coords, probe.screen),
        screen_arith_ok(export_box_coords, probe.screen),
    ensures
        errors_view(r.errors@) == spec_validation_errors(
            project_folder@,
            export_folder@,
            first_project_coords,
            export_box_coords,
            project_names@.len() == 0,
            probe.project_folder_exists,
            match probe.project_folder_read_error {
                Some(e) => Some(e@),
                None => None,
            },
            match probe.export_create_error {
                Some(e) => Some(e@),
                None => None,
            },
            probe.export_writable,
            probe.screen,
            probe.capcut_installed,
        ),
        r.ok == (r.errors@.len() == 0),
{
    let mut errors: Vec<ValidationError> = Vec::new();
    assert(errors_view(errors@) =~= seq![]);
    check_folder(&mut errors, project_folder, probe.project_folder_exists, &probe.project_folder_read_error);
    check_export(&mut errors, export_folder, &probe.export_create_error, probe.export_writable);
    check_position(&mut errors, "first_project_coords", "Chưa calibrate tọa độ Project (Tọa độ XY)", "Project", first_project_coords, probe.screen);
    check_position(&mut errors, "export_box_coords", "Chưa calibrate tọa độ Export Path", "Export", export_box_coords, probe.screen);
    check_install(&mut errors, probe.capcut_installed, project_names.len() == 0);
    let ok = errors.len() == 0;
    ValidationResult { ok, errors }
}

} // verus!
