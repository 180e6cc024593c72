use raysnail::cursor::Input;
use raysnail::lexer::{
    build_symbol_map, push_non_empty, read_tokens, strip_line_comments, to_symbol, tokenize,
    Symbol, Token,
};

fn texts(v: &[Token]) -> Vec<String> {
    v.iter().map(|t| t.text.clone()).collect()
}

#[test]
fn strip_line_comments_keeps_text_before_marker() {
    assert_eq!(strip_line_comments(&"sphere { // a ball".to_string()), "sphere { ");
    assert_eq!(strip_line_comments(&"no comment".to_string()), "no comment");
    assert_eq!(strip_line_comments(&"// all comment".to_string()), "");
    assert_eq!(strip_line_comments(&"a / b".to_string()), "a / b");
}

#[test]
fn tokenize_splits_on_separators() {
    let v = tokenize(&"sphere { <0, -1.5, 2>, 0.5 }".to_string(), 7);
    assert_eq!(
        texts(&v),
        vec!["sphere", "{", "<", "0", ",", "-", "1.5", ",", "2", ">", ",", "0.5", "}"]
    );
    assert!(v.iter().all(|t| t.line == 7));
}

#[test]
fn tokenize_drops_comments_and_blank_separators() {
    let v = tokenize(&"  #declare R = 2*(x+1); // radius".to_string(), 3);
    assert_eq!(
        texts(&v),
        vec!["#declare", "R", "=", "2", "*", "(", "x", "+", "1", ")", ";"]
    );
}

#[test]
fn tokenize_trims_tabs_inside_words() {
    let v = tokenize(&"\tcamera\t{".to_string(), 1);
    assert_eq!(texts(&v), vec!["camera", "{"]);
}

#[test]
fn tokenize_empty_line() {
    assert!(tokenize(&"".to_string(), 1).is_empty());
    assert!(tokenize(&"   ".to_string(), 1).is_empty());
}

#[test]
fn push_non_empty_trims_and_skips_blank() {
    let mut v = Vec::new();
    push_non_empty(&mut v, "  box ", 4);
    push_non_empty(&mut v, " \t ", 4);
    assert_eq!(texts(&v), vec!["box"]);
    assert_eq!(v[0].line, 4);
}

#[test]
fn read_tokens_numbers_lines_from_one() {
    let v = read_tokens("camera {\r\n  angle 45\n}\n");
    assert_eq!(texts(&v), vec!["START", "camera", "{", "angle", "45", "}"]);
    let lines: Vec<u32> = v.iter().map(|t| t.line).collect();
    assert_eq!(lines, vec![0, 1, 1, 2, 2, 3]);
}

#[test]
fn read_tokens_of_empty_text_is_start_only() {
    let v = read_tokens("");
    assert_eq!(texts(&v), vec!["START"]);
}

#[test]
fn to_symbol_maps_keywords_and_identifiers() {
    let map = build_symbol_map();
    assert_eq!(to_symbol(&map, &"sphere".to_string()), Symbol::Sphere);
    assert_eq!(to_symbol(&map, &"phong_size".to_string()), Symbol::PhongSize);
    assert_eq!(to_symbol(&map, &"#while".to_string()), Symbol::While);
    assert_eq!(to_symbol(&map, &"<".to_string()), Symbol::VectorOpen);
    assert_eq!(to_symbol(&map, &"1.5".to_string()), Symbol::Id);
    assert_eq!(to_symbol(&map, &"Sphere".to_string()), Symbol::Id);
}

#[test]
fn cursor_reads_symbols_in_order() {
    let mut input = Input::new(read_tokens("box { }"));
    assert_eq!(input.symbol(), Symbol::Unset);
    input.nextsym();
    assert_eq!(input.symbol(), Symbol::Box);
    assert!(!input.accept(Symbol::Sphere));
    assert_eq!(input.pos(), 1);
    assert!(input.accept(Symbol::Box));
    assert!(input.expect(Symbol::BlockOpen));
    assert_eq!(input.current_text(), "}");
    assert_eq!(input.current_line(), 1);
    assert!(input.expect_quiet(Symbol::BlockClose));
    assert_eq!(input.symbol(), Symbol::Eof);
    assert!(input.at_end());
    assert_eq!(input.current_text(), "}");
    assert_eq!(input.current_line(), 4);
}

#[test]
fn cursor_skips_to_loop_end() {
    let mut input = Input::new(read_tokens("#while (1 < 0) box #end sphere"));
    input.nextsym();
    input.fast_forward_to_end();
    assert_eq!(input.symbol(), Symbol::Sphere);
}

#[test]
fn cursor_fast_forward_without_end_stops_at_eof() {
    let mut input = Input::new(read_tokens("#while box"));
    input.nextsym();
    input.fast_forward_to_end();
    assert_eq!(input.symbol(), Symbol::Eof);
    assert!(input.at_end());
}

#[test]
fn cursor_repeats_loop_from_mark() {
    let mut input = Input::new(read_tokens("#while box #end"));
    input.nextsym();
    input.mark_loop(input.pos());
    input.nextsym();
    assert_eq!(input.symbol(), Symbol::Box);
    input.nextsym();
    assert_eq!(input.symbol(), Symbol::End);
    assert!(input.repeat_loop());
    assert_eq!(input.pos(), 1);
    assert_eq!(input.symbol(), Symbol::While);
    assert!(!input.repeat_loop());
    assert_eq!(input.pos(), 1);
}
