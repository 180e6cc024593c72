use raysnail::cursor::Input;
use raysnail::lexer::{read_tokens, Symbol};
use raysnail::number::float_text;
use raysnail::syntax::{
    parse_expression, parse_statement, parse_vector, CameraItem, Expr, Finish, Modifier, Pigment, SdlParser, Statement,
    Texture, VectorExpr,
};

fn start(text: &str) -> Input {
    let mut input = Input::new(read_tokens(text));
    input.nextsym();
    input
}

fn num(s: &str) -> Expr {
    Expr::Number(s.to_string())
}

fn vector(x: &str, y: &str, z: &str) -> VectorExpr {
    VectorExpr { x: num(x), y: num(y), z: num(z) }
}

fn float_ok(s: &str) -> bool {
    let c: Vec<char> = s.chars().collect();
    float_text(&c)
}

#[test]
fn float_text_accepts_rust_float_syntax() {
    for s in ["1", "1.5", ".5", "5.", "1e10", "2.5E3", "1e+3", "+3", "inf", "Infinity", "NaN"] {
        assert!(float_ok(s), "{}", s);
        assert_eq!(float_ok(s), s.parse::<f64>().is_ok());
    }
    for s in ["", ".", "e5", "1e", "1.2.3", "abc", "1x", "--1", "in"] {
        assert!(!float_ok(s), "{}", s);
        assert_eq!(float_ok(s), s.parse::<f64>().is_ok());
    }
}

#[test]
fn expression_precedence() {
    let mut input = start("1 + 2 * 3 - 4");
    let e = parse_expression(&mut input, &Vec::new()).unwrap();
    let expected = Expr::Sub(
        Box::new(Expr::Add(
            Box::new(num("1")),
            Box::new(Expr::Mul(Box::new(num("2")), Box::new(num("3")))),
        )),
        Box::new(num("4")),
    );
    assert_eq!(e, expected);
    assert!(input.at_end());
}

#[test]
fn expression_leading_minus_and_parentheses() {
    let mut input = start("-(1 + x) / 2");
    let decls = vec![("x".to_string(), true)];
    let e = parse_expression(&mut input, &decls).unwrap();
    // the leading minus negates the whole first term
    let expected = Expr::Neg(Box::new(Expr::Div(
        Box::new(Expr::Add(Box::new(num("1")), Box::new(Expr::Name("x".to_string())))),
        Box::new(num("2")),
    )));
    assert_eq!(e, expected);
}

#[test]
fn expression_undeclared_name_fails() {
    let mut input = start("x + 1");
    assert_eq!(parse_expression(&mut input, &Vec::new()), None);
    assert_eq!(input.pos(), 1);
}

#[test]
fn sphere_with_texture_and_modifiers() {
    let text = "sphere { <0, 1, 2>, 0.5 texture { pigment { color rgb <1, 0, 0> } finish { phong 1 } } translate <1, 1, 1> scale 2 }";
    let mut input = start(text);
    let mut decls = Vec::new();
    let st = parse_statement(&mut input, &mut decls).unwrap().unwrap();
    let expected = Statement::Sphere(
        vector("0", "1", "2"),
        num("0.5"),
        Some(Texture {
            pigment: Some(Pigment::Color(vector("1", "0", "0"))),
            finish: Finish::Phong { reflection: None, phong: Some("1".to_string()), phong_size: None },
        }),
        vec![Modifier::Translate(vector("1", "1", "1")), Modifier::ScaleAll("2".to_string())],
    );
    assert_eq!(st, expected);
    assert!(input.at_end());
}

#[test]
fn camera_items() {
    let mut input = start("camera { location <0, 1, -3> look_at <0, 0, 0> angle 45 }");
    let st = parse_statement(&mut input, &mut Vec::new()).unwrap().unwrap();
    assert_eq!(
        st,
        Statement::Camera(vec![
            CameraItem::Location(VectorExpr { x: num("0"), y: num("1"), z: Expr::Neg(Box::new(num("3"))) }),
            CameraItem::LookAt(vector("0", "0", "0")),
            CameraItem::Angle(num("45")),
        ])
    );
}

#[test]
fn declare_records_number_names() {
    let mut input = start("#declare R = 2; sphere { <0, 0, 0>, R }");
    let mut decls = Vec::new();
    let st = parse_statement(&mut input, &mut decls).unwrap().unwrap();
    assert_eq!(st, Statement::DeclareNumber("R".to_string(), num("2")));
    assert_eq!(decls, vec![("R".to_string(), true)]);
    let st = parse_statement(&mut input, &mut decls).unwrap().unwrap();
    assert_eq!(
        st,
        Statement::Sphere(vector("0", "0", "0"), Expr::Name("R".to_string()), None, vec![])
    );
}

#[test]
fn while_reports_its_position() {
    let mut input = start("box { <0,0,0>, <1,1,1> } #while (i < 3) #end");
    let mut decls = vec![("i".to_string(), true)];
    parse_statement(&mut input, &mut decls).unwrap().unwrap();
    let at = input.pos();
    let st = parse_statement(&mut input, &mut decls).unwrap().unwrap();
    assert_eq!(
        st,
        Statement::While(at, Expr::Name("i".to_string()), num("3"))
    );
    assert_eq!(input.symbol(), Symbol::End);
    assert_eq!(parse_statement(&mut input, &mut decls).unwrap(), Some(Statement::End));
}

#[test]
fn difference_needs_two_shapes() {
    let mut input = start("difference { sphere { <0,0,0>, 1 } box { <0,0,0>, <1,1,1> } }");
    let st = parse_statement(&mut input, &mut Vec::new()).unwrap().unwrap();
    match st {
        Statement::Difference(a, b, None, m) => {
            assert!(matches!(*a, Statement::Sphere(..)));
            assert!(matches!(*b, Statement::Box(..)));
            assert!(m.is_empty());
        }
        other => panic!("{:?}", other),
    }
    let mut input = start("difference { camera { } sphere { <0,0,0>, 1 } }");
    assert_eq!(parse_statement(&mut input, &mut Vec::new()).unwrap(), None);
}

#[test]
fn malformed_sphere_is_an_error() {
    let mut input = start("sphere {\n 1, 2 }");
    let e = parse_statement(&mut input, &mut Vec::new()).unwrap_err();
    assert_eq!(e.line, 2);
}

#[test]
fn unknown_statement_is_none() {
    let mut input = start("teapot { }");
    assert_eq!(parse_statement(&mut input, &mut Vec::new()).unwrap(), None);
    assert_eq!(input.pos(), 1);
}

#[test]
fn open_reads_first_symbol() {
    let input = SdlParser::open("// scene\nlight { <0, 9, 0>, color rgb <1, 1, 1> }").unwrap();
    assert_eq!(input.pos(), 1);
    assert_eq!(input.symbol(), Symbol::Light);
    assert_eq!(input.current_line(), 2);
    let empty = SdlParser::open("").unwrap();
    assert!(empty.at_end());
    assert_eq!(empty.symbol(), Symbol::Eof);
}

#[test]
fn light_statement() {
    let mut input = SdlParser::open("light { <0, 9, 0>, color rgb <1, 0.5, 1> }").unwrap();
    let st = parse_statement(&mut input, &mut Vec::new()).unwrap().unwrap();
    assert_eq!(st, Statement::Light(vector("0", "9", "0"), vector("1", "0.5", "1")));
    assert!(input.at_end());
}

#[test]
fn vector_commas_and_close_are_optional() {
    let mut input = start("<1 2 3");
    let v = parse_vector(&mut input, &Vec::new()).unwrap().unwrap();
    assert_eq!(v, vector("1", "2", "3"));
    assert!(input.at_end());
}

#[test]
fn vector_with_bad_coordinate_reports_line() {
    let mut input = start("<1,\n\n oops, 3>");
    let e = parse_vector(&mut input, &Vec::new()).unwrap_err();
    assert_eq!(e.line, 3);
}

#[test]
fn no_vector_leaves_cursor() {
    let mut input = start("sphere");
    assert_eq!(parse_vector(&mut input, &Vec::new()).unwrap(), None);
    assert_eq!(input.pos(), 1);
}

#[test]
fn surface_and_checker_textures() {
    let text = "box { <0,0,0>, <1,1,1> texture { pigment { checker color rgb <1,1,1>, color rgb <0,0,0> } surface { metallic diffuse 0.3 } } rotate <0, 45, 0> }";
    let mut input = start(text);
    let st = parse_statement(&mut input, &mut Vec::new()).unwrap().unwrap();
    let expected = Statement::Box(
        vector("0", "0", "0"),
        vector("1", "1", "1"),
        Some(Texture {
            pigment: Some(Pigment::Checker(vector("1", "1", "1"), vector("0", "0", "0"))),
            finish: Finish::DiffuseMetal("0.3".to_string()),
        }),
        vec![Modifier::Rotate(vector("0", "45", "0"))],
    );
    assert_eq!(st, expected);
    assert!(input.at_end());
}

#[test]
fn texture_without_finish_is_lambertian() {
    let mut input = start("sphere { <0,0,0>, 1 texture { } }");
    let st = parse_statement(&mut input, &mut Vec::new()).unwrap().unwrap();
    assert_eq!(
        st,
        Statement::Sphere(
            vector("0", "0", "0"),
            num("1"),
            Some(Texture { pigment: None, finish: Finish::Lambertian }),
            vec![]
        )
    );
}

#[test]
fn finish_setting_needs_a_number() {
    let mut input = start("sphere { <0,0,0>, 1 texture { finish { phong x } } }");
    assert!(parse_statement(&mut input, &mut Vec::new()).is_err());
}

#[test]
fn camera_with_unknown_item_is_none() {
    let mut input = start("camera { zoom 2 }");
    assert_eq!(parse_statement(&mut input, &mut Vec::new()).unwrap(), None);
}

#[test]
fn while_without_parenthesis_is_none() {
    let mut input = start("#while 1 < 2");
    assert_eq!(parse_statement(&mut input, &mut Vec::new()).unwrap(), None);
}

#[test]
fn object_reference_with_modifiers() {
    let mut input = start("object { Ball translate <0, 1, 0> scale 0.5 }");
    let st = parse_statement(&mut input, &mut Vec::new()).unwrap().unwrap();
    assert_eq!(
        st,
        Statement::Object(
            "Ball".to_string(),
            vec![Modifier::Translate(vector("0", "1", "0")), Modifier::ScaleAll("0.5".to_string())]
        )
    );
}

#[test]
fn intersection_of_two_shapes() {
    let mut input = start("intersection { box { <0,0,0>, <2,2,2> } sphere { <1,1,1>, 1 } translate <1, 0, 0> }");
    let st = parse_statement(&mut input, &mut Vec::new()).unwrap().unwrap();
    match st {
        Statement::Intersection(a, b, None, m) => {
            assert!(matches!(*a, Statement::Box(..)));
            assert!(matches!(*b, Statement::Sphere(..)));
            assert_eq!(m, vec![Modifier::Translate(vector("1", "0", "0"))]);
        }
        other => panic!("{:?}", other),
    }
    assert!(input.at_end());
}

#[test]
fn declared_shape_and_bad_operand() {
    let mut input = start("#declare Ball = sphere { <0,0,0>, 1 }");
    let mut decls = Vec::new();
    let st = parse_statement(&mut input, &mut decls).unwrap().unwrap();
    match st {
        Statement::DeclareStatement(name, Some(inner)) => {
            assert_eq!(name, "Ball");
            assert!(matches!(*inner, Statement::Sphere(..)));
        }
        other => panic!("{:?}", other),
    }
    assert_eq!(decls, vec![("Ball".to_string(), false)]);
    let mut input = start("difference { sphere { 1 } box { <0,0,0>, <1,1,1> } }");
    assert!(parse_statement(&mut input, &mut Vec::new()).is_err());
}
