use resource_installer::installer::{choice_of, install_menu, InstallChoice, INITIAL_SELECTION};
use resource_installer::menu::{Menu, MenuAction, MenuKey};

fn two_entries() -> Menu<'static> {
    let mut m = Menu::new();
    m.add("Install");
    m.add("Cancel");
    m
}

#[test]
fn new_menu_is_empty_and_add_appends() {
    let mut m = Menu::new();
    assert_eq!(m.len(), 0);
    m.add("a");
    m.add("b");
    assert_eq!(m.len(), 2);
    assert_eq!(m.compose_line(-1, ""), "  a   b \x1b[0m\x1b[0K");
}

#[test]
fn arrows_stop_at_the_ends() {
    let m = two_entries();
    assert_eq!(m.react(0, MenuKey::ArrowLeft), MenuAction::Redraw(0));
    assert_eq!(m.react(1, MenuKey::ArrowLeft), MenuAction::Redraw(0));
    assert_eq!(m.react(0, MenuKey::ArrowRight), MenuAction::Redraw(1));
    assert_eq!(m.react(1, MenuKey::ArrowRight), MenuAction::Redraw(1));
}

#[test]
fn other_keys_keep_the_selection() {
    let m = two_entries();
    assert_eq!(m.react(1, MenuKey::Other), MenuAction::Redraw(1));
    assert_eq!(m.react(7, MenuKey::Other), MenuAction::Redraw(7));
}

#[test]
fn enter_chooses_and_negative_counts_as_first() {
    let m = two_entries();
    assert_eq!(m.react(1, MenuKey::Enter), MenuAction::Chosen(1));
    assert_eq!(m.react(0, MenuKey::Enter), MenuAction::Chosen(0));
    assert_eq!(m.react(-4, MenuKey::Enter), MenuAction::Chosen(0));
}

#[test]
fn right_on_an_empty_menu_goes_below_zero() {
    let m = Menu::new();
    assert_eq!(m.react(0, MenuKey::ArrowRight), MenuAction::Redraw(-1));
    assert_eq!(m.react(-1, MenuKey::Enter), MenuAction::Chosen(0));
}

#[test]
fn left_then_right_returns() {
    let mut m = Menu::new();
    m.add("x");
    m.add("y");
    m.add("z");
    let s = match m.react(2, MenuKey::ArrowLeft) {
        MenuAction::Redraw(s) => s,
        MenuAction::Chosen(_) => panic!("left does not choose"),
    };
    assert_eq!(m.react(s, MenuKey::ArrowRight), MenuAction::Redraw(2));
}

#[test]
fn line_highlights_only_the_selection() {
    let m = two_entries();
    assert_eq!(m.compose_line(1, "<Cancel>"), "  Install  <Cancel>\x1b[0m\x1b[0K");
    assert_eq!(m.compose_line(0, "<Install>"), " <Install>  Cancel \x1b[0m\x1b[0K");
}

#[test]
fn opening_question_defaults_to_cancel() {
    let m = install_menu();
    assert_eq!(m.len(), 2);
    let chosen = match m.react(INITIAL_SELECTION, MenuKey::Enter) {
        MenuAction::Chosen(c) => c,
        MenuAction::Redraw(_) => panic!("enter chooses"),
    };
    assert_eq!(choice_of(chosen), InstallChoice::Cancel);
    assert_eq!(choice_of(0), InstallChoice::Install);
}

#[test]
fn opening_question_install_after_left() {
    let m = install_menu();
    let s = match m.react(INITIAL_SELECTION, MenuKey::ArrowLeft) {
        MenuAction::Redraw(s) => s,
        MenuAction::Chosen(_) => panic!("left does not choose"),
    };
    match m.react(s, MenuKey::Enter) {
        MenuAction::Chosen(c) => assert_eq!(choice_of(c), InstallChoice::Install),
        MenuAction::Redraw(_) => panic!("enter chooses"),
    }
}

#[test]
fn right_then_left_returns() {
    let m = two_entries();
    let s = match m.react(0, MenuKey::ArrowRight) {
        MenuAction::Redraw(s) => s,
        MenuAction::Chosen(_) => panic!("right does not choose"),
    };
    assert_eq!(s, 1);
    assert_eq!(m.react(s, MenuKey::ArrowLeft), MenuAction::Redraw(0));
}

#[test]
fn styled_line_follows_the_colour_flag() {
    let m = two_entries();
    assert_eq!(m.styled_line(0, true), " \x1b[30m\x1b[47m Install \x1b[0m  Cancel \x1b[0m\x1b[0K");
    assert_eq!(m.styled_line(0, false), "  Install   Cancel \x1b[0m\x1b[0K");
    assert_eq!(m.styled_line(-1, true), "  Install   Cancel \x1b[0m\x1b[0K");
}

