use montui::dialog::{build_run_args, CreateDialogState};

#[test]
fn fresh_dialog_is_empty_and_focused_on_image() {
    let d = CreateDialogState::new();
    assert_eq!(d.selected_field, 0);
    assert_eq!(d.image_name, "");
    assert_eq!(d.container_name, "");
    assert_eq!(d.ports, "");
    assert_eq!(d.env_vars, "");
    assert_eq!(d.volumes, "");
    assert_eq!(d.command, "");
}

#[test]
fn focus_cycles_forward_and_backward() {
    let mut d = CreateDialogState::new();
    for expected in [1, 2, 3, 4, 5, 0, 1] {
        d.focus_next();
        assert_eq!(d.selected_field, expected);
    }
    let mut e = CreateDialogState::new();
    e.focus_previous();
    assert_eq!(e.selected_field, 5);
    e.focus_previous();
    assert_eq!(e.selected_field, 4);
}

#[test]
fn typing_edits_the_focused_field() {
    let mut d = CreateDialogState::new();
    d.type_char('n');
    d.type_char('g');
    assert_eq!(d.image_name, "ng");
    d.focus_next();
    d.type_char('w');
    assert_eq!(d.container_name, "w");
    assert_eq!(d.image_name, "ng");
    d.backspace();
    assert_eq!(d.container_name, "");
    d.backspace();
    assert_eq!(d.container_name, "");
    assert_eq!(d.image_name, "ng");
}

#[test]
fn current_field_follows_focus() {
    let mut d = CreateDialogState::new();
    d.selected_field = 2;
    d.get_current_field_mut().push('p');
    assert_eq!(d.ports, "p");
    d.selected_field = 5;
    d.get_current_field_mut().push('c');
    assert_eq!(d.command, "c");
}

#[test]
fn out_of_range_focus_falls_back_to_image_field() {
    let mut d = CreateDialogState::new();
    d.selected_field = 9;
    d.get_current_field_mut().push('x');
    assert_eq!(d.image_name, "x");
}

#[test]
fn empty_image_name_refuses_submission() {
    let mut d = CreateDialogState::new();
    d.container_name = String::from("web");
    assert!(build_run_args(&d).is_none());
}

#[test]
fn full_dialog_builds_exact_argument_vector() {
    let mut d = CreateDialogState::new();
    d.image_name = String::from("nginx:latest");
    d.container_name = String::from("web");
    d.ports = String::from("8080:80, 443:443");
    d.env_vars = String::from("A=1,B=2");
    d.volumes = String::from("/host:/container");
    d.command = String::from("nginx -g daemon");
    let args = build_run_args(&d).unwrap();
    assert_eq!(
        args,
        vec![
            "run", "-d", "--name", "web", "-p", "8080:80", "-p", "443:443", "-e", "A=1", "-e",
            "B=2", "-v", "/host:/container", "nginx:latest", "nginx", "-g", "daemon",
        ]
    );
}

#[test]
fn minimal_dialog_builds_minimal_vector() {
    let mut d = CreateDialogState::new();
    d.image_name = String::from("redis:alpine");
    let args = build_run_args(&d).unwrap();
    assert_eq!(args, vec!["run", "-d", "redis:alpine"]);
}
