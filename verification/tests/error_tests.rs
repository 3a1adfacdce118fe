use cargo_playground::error::{Error, ErrorKind};
use cargo_playground::new::NewOpts;
use cargo_playground::open::{EditorOpts, Gui, OpenOpts, Tmux};

#[test]
fn error_carries_kind_and_message() {
    let e = Error::new(ErrorKind::NotFound, "no such playground".to_string());
    assert_eq!(e.get_kind(), ErrorKind::NotFound);
    assert_eq!(e.get_message().as_str(), "no such playground");
    assert!(e.get_help().is_none());
}

#[test]
fn with_help_attaches_a_help_line() {
    let e = Error::new(ErrorKind::Other, "boom".to_string())
        .with_help("try again".to_string());
    assert_eq!(e.get_kind(), ErrorKind::Other);
    assert_eq!(e.get_message().as_str(), "boom");
    assert_eq!(e.get_help().as_ref().expect("help attached").as_str(), "try again");
}

#[test]
fn gui_backend_remembers_the_wait_flag() {
    let g = Gui::new(false);
    assert!(!g.no_w);
    assert!(g.wait_flag());
    let g = Gui::new(true);
    assert!(!g.wait_flag());
    let _ = Tmux;
}

#[test]
fn option_types_carry_their_fields() {
    let opts = OpenOpts {
        editor_opts: EditorOpts { editor: "vim".to_string(), args: vec!["-p".to_string()] },
        name: "playground-1".to_string(),
        gui: false,
        skip_check: true,
    };
    assert_eq!(opts.editor_opts.editor, "vim");
    assert_eq!(opts.name, "playground-1");
    assert!(opts.skip_check);
    let nopts = NewOpts {
        name: None,
        editor_opts: EditorOpts { editor: "code".to_string(), args: Vec::new() },
        no_w: false,
        gui: true,
        template: Some("rand".to_string()),
        deps: vec!["serde".to_string()],
    };
    assert!(nopts.gui);
    assert_eq!(nopts.template.as_deref(), Some("rand"));
}
