use tile_wave::{
    make_context_menu, AppState, Canvas, CanvasLens, CanvasPos, Color, Command,
    ContextMenuController, Delegate, MenuAction, Outcome, CLEAR_CANVAS, MAP_SIZE, SAVE_CANVAS,
    SHOW_MAP_WINDOW, TILE_DIRECTORY,
};

const RED: Color = Color { r: 255, g: 0, b: 0 };
const BLACK: Color = Color { r: 0, g: 0, b: 0 };

fn painted_state() -> AppState {
    let mut state = AppState::new(&Vec::new()).unwrap();
    state.click_add_module();
    state.get_active_module_mut().set(CanvasPos { row: 1, col: 2 }, RED).unwrap();
    state
}

#[test]
fn command_show_map_fills_the_map() {
    let mut state = painted_state();
    let outcome = Delegate.command(Command::ShowMapWindow, &mut state).unwrap();
    assert_eq!(outcome, Outcome::ShowMap);
    assert!(outcome.handled());
    assert_eq!(state.map().len(), MAP_SIZE);
    assert!(state.map().iter().all(|row| row.len() == MAP_SIZE));
    assert_eq!(state.modules().len(), 2);
}

#[test]
fn command_save_encodes_the_active_tile() {
    let mut state = painted_state();
    let outcome = Delegate.command(Command::SaveCanvas, &mut state).unwrap();
    assert!(outcome.handled());
    match outcome {
        Outcome::Save(file) => {
            assert_eq!(file.path, "tile_images/test_1.png");
            assert!(file.path.starts_with(TILE_DIRECTORY));
            let back = Canvas::new_from_image(&file, 1).unwrap();
            assert_eq!(back.storage(), state.get_active_module().storage());
        }
        other => panic!("unexpected outcome {:?}", other),
    }
    assert_eq!(state.get_active_module().get(CanvasPos { row: 1, col: 2 }), Ok(RED));
    assert!(state.map().is_empty());
}

#[test]
fn command_clear_blanks_the_active_tile() {
    let mut state = painted_state();
    let outcome = Delegate.command(Command::ClearCanvas, &mut state).unwrap();
    assert_eq!(outcome, Outcome::Cleared);
    assert!(outcome.handled());
    assert!(state.get_active_module().storage().iter().all(|c| *c == BLACK));
    assert_eq!(state.active_canvas_id(), 1);
}

#[test]
fn other_commands_are_not_handled() {
    let mut state = painted_state();
    let outcome = Delegate.command(Command::Other, &mut state).unwrap();
    assert_eq!(outcome, Outcome::NotHandled);
    assert!(!outcome.handled());
    assert_eq!(state.get_active_module().get(CanvasPos { row: 1, col: 2 }), Ok(RED));
    assert!(state.map().is_empty());
}

#[test]
fn command_names() {
    assert_eq!(SAVE_CANVAS, "tile-wave.save-canvas");
    assert_eq!(CLEAR_CANVAS, "tile-wave.clear-canvas");
    assert_eq!(SHOW_MAP_WINDOW, "tile-wave.show-map-window");
    assert_eq!(TILE_DIRECTORY, "tile_images");
}

#[test]
fn context_menu_offers_save_clear_and_show_map() {
    let entries = make_context_menu();
    let lines: Vec<(&str, Command)> =
        entries.iter().map(|entry| (entry.label, entry.command)).collect();
    assert_eq!(
        lines,
        vec![
            ("Save", Command::SaveCanvas),
            ("Clear", Command::ClearCanvas),
            ("Show Map", Command::ShowMapWindow),
        ]
    );
}

#[test]
fn secondary_button_opens_the_context_menu() {
    let mut controller = ContextMenuController;
    assert_eq!(controller.event(true), MenuAction::ShowContextMenu(make_context_menu()));
    assert_eq!(controller.event(false), MenuAction::Forward);
}

#[test]
fn lens_reads_the_active_tile() {
    let state = painted_state();
    let id = CanvasLens.with(&state, |canvas: &Canvas| canvas.id());
    assert_eq!(id, 1);
    let color = CanvasLens.with(&state, |canvas: &Canvas| canvas.get(CanvasPos { row: 1, col: 2 }));
    assert_eq!(color, Ok(RED));
}

#[test]
fn lens_changes_the_active_tile() {
    let mut state = painted_state();
    let result = CanvasLens.with_mut(&mut state, |canvas: &mut Canvas| {
        canvas.set(CanvasPos { row: 0, col: 0 }, RED)
    });
    assert_eq!(result, Ok(()));
    assert_eq!(state.get_active_module().get(CanvasPos { row: 0, col: 0 }), Ok(RED));
    assert_eq!(state.modules()[0], Canvas::new(0));
}
