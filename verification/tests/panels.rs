//! The history panel, messages, files and preferences.

use riemanifold::document::Document;
use riemanifold::features::{BooleanOp, FeatureId, FeatureKind};
use riemanifold::kernel::{error_message, flat_path, flat_profile, problems, KernelError};
use riemanifold::panel::{
    apply_event, count_text, operation_name, problem_text, rows, HistoryState, PanelEvent,
    RowStyle,
};
use riemanifold::project::{
    check_project, config_dir, entry_text, file_name, load, pack_project, prefs_path, status_line,
    unpack_project, EntryError, FileTask, Platform, Prefs,
};
use riemanifold::regen::RegenError;
use riemanifold::scalar::{DVec3, Scalar};
use riemanifold::sketch::ProfileElem;
use riemanifold::theme::Theme;

fn s(v: f64) -> Scalar {
    Scalar::from_bits(v.to_bits())
}

fn f(v: Scalar) -> f64 {
    f64::from_bits(v.to_bits())
}

/// A box, a move of it, a cylinder, and the union of the two.
fn sample() -> (Document, [FeatureId; 4]) {
    let mut doc = Document::new("panel");
    let b = doc.add("Box", FeatureKind::Box { size: DVec3::splat(s(10.0)) });
    let m = doc.add(
        "Move",
        FeatureKind::Translate { source: b, offset: DVec3::splat(s(1.0)) },
    );
    let c = doc.add("Pin", FeatureKind::Cylinder { radius: s(2.0), height: s(9.0) });
    let u = doc.add("Join", FeatureKind::Boolean { op: BooleanOp::Union, target: m, tool: c });
    (doc, [b, m, c, u])
}

#[test]
fn rows_show_failures_before_anything_else() {
    let (mut doc, [b, m, c, u]) = sample();
    let mut state = HistoryState::default();
    state.selected = Some(c);
    state.errors = vec![(u, "first".to_string()), (u, "second".to_string())];
    doc.set_rollback(3);
    doc.history.set_suppressed(m, true);
    let r = rows(&doc, &state);
    let styles: Vec<RowStyle> = r.iter().map(|row| row.style).collect();
    assert_eq!(
        styles,
        vec![RowStyle::Normal, RowStyle::Weak, RowStyle::Normal, RowStyle::Error]
    );
    assert_eq!(r[0].label, "Box  ·  Box");
    assert_eq!(r[3].message.as_deref(), Some("first"));
    assert!(r[2].selected && !r[0].selected);
    assert!(!r[0].can_move_up && r[0].can_move_down);
    assert!(r[3].can_move_up && !r[3].can_move_down);
    assert_eq!(r[1].id, m);
    assert_eq!(state.error_for(b), None);
    assert_eq!(count_text(&doc), "4 features");
}

#[test]
fn the_bar_is_moved_and_sent_to_the_tip() {
    let (mut doc, _) = sample();
    let mut state = HistoryState::default();
    assert!(!apply_event(&mut doc, &mut state, PanelEvent::RollToTip), "already there");
    assert!(apply_event(&mut doc, &mut state, PanelEvent::SetRollback(1)));
    assert_eq!(doc.rollback(), 1);
    assert!(apply_event(&mut doc, &mut state, PanelEvent::RollToTip));
    assert!(doc.is_at_tip());
}

#[test]
fn clicks_select_and_deselect() {
    let (mut doc, [b, m, ..]) = sample();
    let mut state = HistoryState::default();
    assert!(!apply_event(&mut doc, &mut state, PanelEvent::Click(b)));
    assert_eq!(state.selected, Some(b));
    apply_event(&mut doc, &mut state, PanelEvent::Click(m));
    assert_eq!(state.selected, Some(m));
    apply_event(&mut doc, &mut state, PanelEvent::Click(m));
    assert_eq!(state.selected, None);
}

#[test]
fn deleting_the_selected_row_deselects_it() {
    let (mut doc, [b, m, _c, u]) = sample();
    let mut state = HistoryState::default();
    state.selected = Some(m);
    assert!(apply_event(&mut doc, &mut state, PanelEvent::Delete(m)));
    assert_eq!(state.selected, None);
    assert_eq!(doc.history.get(u).unwrap().kind.inputs()[0], b);
    assert!(apply_event(&mut doc, &mut state, PanelEvent::SetSuppressed(b, true)));
    assert!(doc.history.get(b).unwrap().suppressed);
}

#[test]
fn arrows_move_rows_as_far_as_references_allow() {
    let (mut doc, [b, m, c, u]) = sample();
    let mut state = HistoryState::default();
    let order = |doc: &Document| -> Vec<FeatureId> {
        doc.history.features().iter().map(|x| x.id).collect()
    };
    assert!(!apply_event(&mut doc, &mut state, PanelEvent::MoveUp(b)), "the first row");
    assert!(!apply_event(&mut doc, &mut state, PanelEvent::MoveDown(u)), "the last row");
    assert!(apply_event(&mut doc, &mut state, PanelEvent::MoveUp(c)));
    assert_eq!(order(&doc), vec![b, c, m, u]);
    assert!(apply_event(&mut doc, &mut state, PanelEvent::MoveUp(u)), "refused, but asked for");
    assert_eq!(order(&doc), vec![b, c, m, u]);
    assert!(apply_event(&mut doc, &mut state, PanelEvent::MoveDown(b)));
    assert_eq!(order(&doc), vec![c, b, m, u]);
}

#[test]
fn parameters_are_edited_one_by_one() {
    let (mut doc, [b, m, c, u]) = sample();
    let mut state = HistoryState::default();
    assert!(!apply_event(&mut doc, &mut state, PanelEvent::SetParameter(0, s(3.0))));
    state.selected = Some(b);
    assert!(apply_event(&mut doc, &mut state, PanelEvent::SetParameter(1, s(3.0))));
    let read = |doc: &Document, id| -> Vec<(&'static str, f64)> {
        let kind = &doc.history.get(id).unwrap().kind;
        kind.parameters().iter().map(|(l, v)| (*l, f(*v))).collect()
    };
    assert_eq!(read(&doc, b), vec![("X", 10.0), ("Y", 3.0), ("Z", 10.0)]);
    assert!(!apply_event(&mut doc, &mut state, PanelEvent::SetParameter(3, s(3.0))));
    assert_eq!(read(&doc, m), vec![("dX", 1.0), ("dY", 1.0), ("dZ", 1.0)]);
    state.selected = Some(c);
    assert!(apply_event(&mut doc, &mut state, PanelEvent::SetParameter(1, s(4.0))));
    assert_eq!(read(&doc, c), vec![("Radius", 2.0), ("Height", 4.0)]);
    assert!(!apply_event(&mut doc, &mut state, PanelEvent::SetOperation(BooleanOp::Subtract)));
    state.selected = Some(u);
    assert_eq!(read(&doc, u), vec![]);
    assert!(apply_event(&mut doc, &mut state, PanelEvent::SetOperation(BooleanOp::Subtract)));
    assert!(matches!(
        doc.history.get(u).unwrap().kind,
        FeatureKind::Boolean { op: BooleanOp::Subtract, .. }
    ));
    assert_eq!(operation_name(BooleanOp::Intersect), "Intersect");
}

#[test]
fn problems_are_named() {
    let (doc, [b, ..]) = sample();
    assert_eq!(problem_text(&doc, b, "broke"), "• Box: broke");
    assert_eq!(problem_text(&doc, FeatureId(0), "broke"), "• FeatureId(0): broke");
}

#[test]
fn failures_are_explained() {
    let (doc, [b, m, ..]) = sample();
    let refused = RegenError::Backend { feature: b, source: KernelError("too thin".to_string()) };
    let missing = RegenError::MissingInput { feature: m, input: b };
    let deleted = RegenError::MissingInput { feature: m, input: FeatureId(99) };
    let senseless = RegenError::Invalid { feature: m, reason: "no loop" };
    assert_eq!(error_message(&refused, &doc), "too thin");
    assert_eq!(error_message(&missing, &doc), "needs 'Box' (suppressed)");
    assert_eq!(error_message(&deleted, &doc), "needs a step that was deleted");
    assert_eq!(error_message(&senseless, &doc), "no loop");
    let all = problems(&[refused, senseless], &doc);
    assert_eq!(all, vec![(b, "too thin".to_string()), (m, "no loop".to_string())]);
}

#[test]
fn only_known_project_files_are_opened() {
    assert_eq!(check_project(Some(1), true), Ok(()));
    assert_eq!(
        check_project(Some(2), true),
        Err("unsupported project version 2".to_string())
    );
    assert_eq!(check_project(None, false), Err("unsupported project version 0".to_string()));
    assert_eq!(check_project(Some(1), false), Err("missing document".to_string()));
}

#[test]
fn files_are_named_and_reported() {
    assert_eq!(status_line(FileTask::Export, "/a.stl", None), "Exported /a.stl");
    assert_eq!(status_line(FileTask::Save, "/a", Some("disk full")), "Save failed: disk full");
    assert_eq!(status_line(FileTask::Open, "/a", Some("gone")), "Open failed: gone");
    assert_eq!(file_name("part", FileTask::Export), "part.stl");
    assert_eq!(file_name("part", FileTask::Save), "part.cdt");
}

#[test]
fn preferences_fall_back_to_the_default() {
    assert_eq!(load(None), Prefs { theme: Theme::Light });
    assert_eq!(load(Some(Prefs { theme: Theme::Dark })).theme, Theme::Dark);
    assert_eq!(
        config_dir(Platform::MacOs, Some("/home/a"), None, None),
        Some(("/home/a", "Library/Application Support/Cadette"))
    );
    assert_eq!(config_dir(Platform::Windows, Some("/home/a"), None, None), None);
    assert_eq!(
        config_dir(Platform::Other, Some("/home/a"), None, Some("/cfg")),
        Some(("/cfg", "Cadette"))
    );
    assert_eq!(
        config_dir(Platform::Other, Some("/home/a"), None, None),
        Some(("/home/a", ".config/Cadette"))
    );
    assert_eq!(prefs_path(Some("/cfg")), Some(("/cfg", "prefs.json")));
    assert_eq!(prefs_path::<&str>(None), None);
}

#[test]
fn a_packed_project_unpacks_to_its_text() {
    let text: Vec<u8> = (0..5000u32).map(|i| (i * i % 251) as u8).collect();
    let file = pack_project(&text).unwrap();
    assert_ne!(file, text);
    assert!(file.starts_with(b"PK"), "a zip archive");
    assert_eq!(unpack_project(&file).unwrap(), text);
    assert_eq!(unpack_project(&pack_project(&[]).unwrap()).unwrap(), Vec::<u8>::new());
}

#[test]
fn text_that_does_not_compress_is_packed_all_the_same() {
    let mut state: u64 = 1;
    let text: Vec<u8> = (0..3_000_000)
        .map(|_| {
            state = state.wrapping_mul(6364136223846793005).wrapping_add(1442695040888963407);
            (state >> 56) as u8
        })
        .collect();
    let file = pack_project(&text).unwrap();
    assert!(file.len() > text.len(), "nothing was saved");
    assert!(file.len() < text.len() + text.len() / 2);
    assert_eq!(unpack_project(&file).unwrap(), text);
}

#[test]
fn other_files_are_not_projects() {
    assert!(unpack_project(b"not an archive").is_err());
    let mut broken = pack_project(b"some text, some text, some text").unwrap();
    let n = broken.len();
    broken.truncate(n - 10);
    assert!(unpack_project(&broken).is_err());
    let missing = EntryError::Entry("specified file not found in archive".to_string());
    assert_eq!(
        entry_text(Err(missing)),
        Err("not a Riemanifold project: specified file not found in archive".to_string())
    );
    assert_eq!(entry_text(Err(EntryError::Archive("no".to_string()))), Err("no".to_string()));
    assert_eq!(entry_text(Err(EntryError::Contents("bad".to_string()))), Err("bad".to_string()));
    assert_eq!(entry_text(Ok(vec![1, 2])), Ok(vec![1, 2]));
}

#[test]
fn an_archive_without_the_entry_is_no_project() {
    let mut zip = zip::ZipWriter::new(std::io::Cursor::new(Vec::new()));
    zip.start_file("other.json", zip::write::SimpleFileOptions::default()).unwrap();
    let file = zip.finish().unwrap().into_inner();
    let message = unpack_project(&file).unwrap_err();
    assert!(message.starts_with("not a Riemanifold project: "), "{message}");
}

#[test]
fn profiles_are_laid_out_for_the_kernel() {
    let at = |x: f64, y: f64| [s(x), s(y)];
    let line = ProfileElem::Line { a: at(0.0, 0.0), b: at(1.0, 2.0) };
    let curve = ProfileElem::Bezier {
        a: at(1.0, 2.0),
        c1: at(3.0, 4.0),
        c2: at(5.0, 6.0),
        b: at(7.0, 8.0),
    };
    let floats = |v: Vec<Scalar>| -> Vec<f64> { v.into_iter().map(f).collect() };
    let (points, segments) = flat_profile(&[line, curve]);
    assert_eq!(floats(points), vec![0.0, 0.0, 1.0, 2.0]);
    assert_eq!(floats(segments), vec![0.0, 0.0, 0.0, 0.0, 0.0, 1.0, 3.0, 4.0, 5.0, 6.0]);
    let (points, _) = flat_path(&[line, curve]);
    assert_eq!(floats(points), vec![0.0, 0.0, 1.0, 2.0, 7.0, 8.0]);
    assert!(flat_path(&[]).0.is_empty());
}
