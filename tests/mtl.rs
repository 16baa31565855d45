use obj2three::mtl::{directive, DirectiveKind, LineReassembler};

#[test]
fn directive_kinds() {
    let d = directive("newmtl red");
    assert_eq!(d.kind, DirectiveKind::NewMaterial);
    assert_eq!(d.keyword, "newmtl");
    assert_eq!(d.rest, "red");

    let d = directive("map_Kd textures/red.png");
    assert_eq!(d.kind, DirectiveKind::DiffuseMap);
    assert_eq!(d.keyword, "map_Kd");
    assert_eq!(d.rest, "textures/red.png");

    let d = directive("Kd 1.0 0.0 0.0");
    assert_eq!(d.kind, DirectiveKind::Other);
    assert_eq!(d.keyword, "Kd");
    assert_eq!(d.rest, "1.0 0.0 0.0");
}

#[test]
fn directive_without_space_has_empty_rest() {
    let d = directive("newmtl");
    assert_eq!(d.kind, DirectiveKind::NewMaterial);
    assert_eq!(d.rest, "");
}

#[test]
fn directive_keyword_is_trimmed() {
    let d = directive("\tnewmtl\r shiny metal");
    assert_eq!(d.kind, DirectiveKind::NewMaterial);
    assert_eq!(d.keyword, "newmtl");
    assert_eq!(d.rest, "shiny metal");

    let d = directive(" newmtl red");
    assert_eq!(d.kind, DirectiveKind::Other);
    assert_eq!(d.keyword, "");
    assert_eq!(d.rest, "newmtl red");

    let d = directive("\u{3000}map_Kd\u{a0} a.png");
    assert_eq!(d.kind, DirectiveKind::DiffuseMap);
    assert_eq!(d.keyword, "map_Kd");
}

#[test]
fn complete_lines_are_dispatched_at_once() {
    let mut r = LineReassembler::new();
    let d = r.push_line("newmtl red").unwrap();
    assert_eq!(d.kind, DirectiveKind::NewMaterial);
    assert_eq!(d.rest, "red");
    assert_eq!(r.pending(), "");
}

#[test]
fn continued_lines_are_joined() {
    let mut r = LineReassembler::new();
    assert_eq!(r.push_line("map_Kd tex\\\\"), None);
    assert_eq!(r.pending(), "map_Kd tex");
    assert_eq!(r.push_line("tures/\\\\"), None);
    assert_eq!(r.pending(), "map_Kd textures/");
    let d = r.push_line("red.png").unwrap();
    assert_eq!(d.kind, DirectiveKind::DiffuseMap);
    assert_eq!(d.rest, "textures/red.png");
    assert_eq!(r.pending(), "");
}

#[test]
fn only_the_last_marker_is_removed() {
    let mut r = LineReassembler::new();
    assert_eq!(r.push_line("a\\\\\\"), None);
    assert_eq!(r.pending(), "a\\");
    let d = r.push_line("b").unwrap();
    assert_eq!(d.keyword, "a\\b");
}

#[test]
fn a_single_backslash_does_not_continue() {
    let mut r = LineReassembler::new();
    let d = r.push_line("Ka 1 1 1\\").unwrap();
    assert_eq!(d.rest, "1 1 1\\");
    assert_eq!(r.pending(), "");
}

#[test]
fn empty_lines_dispatch_nothing() {
    let mut r = LineReassembler::new();
    assert_eq!(r.push_line(""), None);
    assert_eq!(r.pending(), "");
}

#[test]
fn an_empty_line_ends_a_continuation() {
    let mut r = LineReassembler::new();
    assert_eq!(r.push_line("newmtl\\\\"), None);
    assert_eq!(r.pending(), "newmtl");
    let d = r.push_line("").unwrap();
    assert_eq!(d.kind, DirectiveKind::NewMaterial);
    assert_eq!(r.pending(), "");
}

#[test]
fn read_failure_flushes_the_held_fragment() {
    let mut r = LineReassembler::new();
    assert_eq!(r.read_failed(), None);
    assert_eq!(r.push_line("newmtl blue\\\\"), None);
    let d = r.read_failed().unwrap();
    assert_eq!(d.kind, DirectiveKind::NewMaterial);
    assert_eq!(d.rest, "blue");
    assert_eq!(r.pending(), "");
    assert_eq!(r.read_failed(), None);
}
