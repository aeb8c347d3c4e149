use vit::driver::{add_unique, classify_line, first_visit, parse_args, Command, Directive};

fn args(v: &[&str]) -> Vec<String> {
    v.iter().map(|s| s.to_string()).collect()
}

#[test]
fn import_lines_give_their_path() {
    match classify_line("  import \"lib/math.vit\";  ") {
        Directive::Import(p) => assert_eq!(p, "lib/math.vit"),
        _ => panic!("not an import"),
    }
}

#[test]
fn link_lines_give_their_flag() {
    match classify_line("link \"-lsqlite3\" ;") {
        Directive::Link(f) => assert_eq!(f, "-lsqlite3"),
        _ => panic!("not a link"),
    }
    match classify_line("link shim.c;") {
        Directive::Link(f) => assert_eq!(f, "shim.c"),
        _ => panic!("not a link"),
    }
}

#[test]
fn other_lines_are_code() {
    assert!(matches!(classify_line("let important: i32 = 1;"), Directive::Code));
    assert!(matches!(classify_line("importer();"), Directive::Code));
    assert!(matches!(classify_line(""), Directive::Code));
}

#[test]
fn link_flags_are_kept_once_in_order() {
    let mut flags = Vec::new();
    add_unique(&mut flags, "-lm".to_string());
    add_unique(&mut flags, "-lsqlite3".to_string());
    add_unique(&mut flags, "-lm".to_string());
    assert_eq!(flags, vec!["-lm".to_string(), "-lsqlite3".to_string()]);
}

#[test]
fn too_few_arguments_ask_for_usage() {
    assert!(matches!(parse_args(&args(&["vit"])), Command::Usage));
    assert!(matches!(parse_args(&args(&["vit", "-v"])), Command::Usage));
}

#[test]
fn help_wins_wherever_it_stands() {
    assert!(matches!(parse_args(&args(&["vit", "app.vit", "--help"])), Command::Help));
    assert!(matches!(parse_args(&args(&["vit", "-h"])), Command::Help));
}

#[test]
fn run_build_flags_and_positionals_are_told_apart() {
    match parse_args(&args(&["vit", "run", "app.vit", "-v", "-lm", "shim.c", "run"])) {
        Command::Compile { verbose, run, positional, link_flags } => {
            assert!(verbose);
            assert!(run);
            assert_eq!(positional, args(&["app.vit", "run"]));
            assert_eq!(link_flags, args(&["-lm", "shim.c"]));
        }
        _ => panic!("expected a compile command"),
    }
    match parse_args(&args(&["vit", "build", "app.vit", "out", "x.o"])) {
        Command::Compile { verbose, run, positional, link_flags } => {
            assert!(!verbose);
            assert!(!run);
            assert_eq!(positional, args(&["app.vit", "out"]));
            assert_eq!(link_flags, args(&["x.o"]));
        }
        _ => panic!("expected a compile command"),
    }
}

#[test]
fn a_file_is_visited_once() {
    let mut seen: Vec<String> = Vec::new();
    assert!(first_visit(&mut seen, "/a/lib.vit".to_string()));
    assert!(first_visit(&mut seen, "/a/other.vit".to_string()));
    assert!(!first_visit(&mut seen, "/a/lib.vit".to_string()));
    assert_eq!(seen, vec!["/a/lib.vit".to_string(), "/a/other.vit".to_string()]);
}
