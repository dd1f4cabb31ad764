use rbatis::eval::{evaluate, Context};
use rbatis::expr::EvalError;
use rbatis::cache::TemplateCache;
use rbatis::lexer::{tokenize, LexError, Token};
use rbatis::parser::{parse, ParseError};
use rbatis::render::{render, Registry, RenderError};
use rbatis::syntax_tree::{DefName, IfNode, Name, NodeType, OtherwiseNode, WhereNode};
use rbatis::value::Value;

fn text(v: &[u8]) -> String {
    String::from_utf8(v.to_vec()).unwrap()
}

fn context(vars: Vec<(&str, Value)>) -> Context {
    let mut ctx = Context::new();
    for (name, value) in vars {
        ctx.set(name.as_bytes(), value);
    }
    ctx
}

fn run(template: &str, vars: Vec<(&str, Value)>) -> (String, Vec<Value>) {
    let tree = parse(template.as_bytes()).unwrap();
    let out = render(&tree, context(vars), &Registry::new()).unwrap();
    (text(&out.text), out.args)
}

fn run_err(template: &str, vars: Vec<(&str, Value)>) -> RenderError {
    let tree = parse(template.as_bytes()).unwrap();
    render(&tree, context(vars), &Registry::new()).unwrap_err()
}

fn eval(expr: &str, vars: Vec<(&str, Value)>) -> Result<Value, EvalError> {
    evaluate(expr.as_bytes(), &context(vars))
}

fn ints(v: &[i64]) -> Value {
    Value::Array(v.iter().map(|n| Value::I64(*n)).collect())
}

fn string(s: &str) -> Value {
    Value::String(s.as_bytes().to_vec())
}

#[test]
fn literal_text_is_handed_on() {
    let (sql, args) = run("select * from t where a < 1 and b = 'x'", vec![("a", Value::I64(1))]);
    assert_eq!(sql, "select * from t where a < 1 and b = 'x'");
    assert!(args.is_empty());
}

#[test]
fn empty_template_renders_nothing() {
    let (sql, args) = run("", vec![]);
    assert_eq!(sql, "");
    assert!(args.is_empty());
}

#[test]
fn bound_marker_gives_placeholder_and_value() {
    let (sql, args) = run("id = #{id} and name = #{name}", vec![
        ("id", Value::I64(7)),
        ("name", string("bob")),
    ]);
    assert_eq!(sql, "id = ? and name = ?");
    assert_eq!(args, vec![Value::I64(7), string("bob")]);
}

#[test]
fn float_values_are_bound_as_they_are() {
    let bits = 1.5f64.to_bits();
    let (sql, args) = run("x = #{x}", vec![("x", Value::F64(bits))]);
    assert_eq!(sql, "x = ?");
    assert_eq!(args, vec![Value::F64(bits)]);
}

#[test]
fn inline_marker_writes_the_text() {
    let (sql, args) = run("select * from ${table} limit ${n}", vec![
        ("table", string("users")),
        ("n", Value::U64(10)),
    ]);
    assert_eq!(sql, "select * from users limit 10");
    assert!(args.is_empty());
}

#[test]
fn inline_float_is_a_mismatch() {
    let e = run_err("${x}", vec![("x", Value::F32(0))]);
    assert_eq!(e, RenderError::Eval(EvalError::TypeMismatch));
}

#[test]
fn if_false_renders_nothing() {
    let (sql, args) = run("<if test=\"a == 2\">and a = #{a}</if>", vec![("a", Value::I64(1))]);
    assert_eq!(sql, "");
    assert!(args.is_empty());
}

#[test]
fn if_true_renders_children() {
    let (sql, args) = run("x <if test=\"a == 1\">and a = #{a}</if>", vec![("a", Value::I64(1))]);
    assert_eq!(sql, "x and a = ?");
    assert_eq!(args, vec![Value::I64(1)]);
}

#[test]
fn zero_and_empty_text_are_true_nil_and_false_are_not() {
    assert_eq!(run("<if test=\"a\">y</if>", vec![("a", Value::I64(0))]).0, "y");
    assert_eq!(run("<if test=\"a\">y</if>", vec![("a", string(""))]).0, "y");
    assert_eq!(run("<if test=\"a\">y</if>", vec![("a", Value::Nil)]).0, "");
    assert_eq!(run("<if test=\"a\">y</if>", vec![("a", Value::Boolean(false))]).0, "");
    assert_eq!(run("<if test=\"missing\">y</if>", vec![]).0, "");
}

#[test]
fn foreach_over_empty_array_renders_nothing() {
    let (sql, args) = run(
        "<foreach collection=\"ids\" open=\"(\" close=\")\" separator=\",\">#{item}</foreach>",
        vec![("ids", Value::Array(vec![]))],
    );
    assert_eq!(sql, "");
    assert!(args.is_empty());
}

#[test]
fn foreach_over_array_joins_rounds() {
    let (sql, args) = run(
        "<foreach collection=\"ids\" item=\"x\" separator=\",\">#{x}</foreach>",
        vec![("ids", ints(&[1, 2, 3]))],
    );
    assert_eq!(sql, "?,?,?");
    assert_eq!(args, vec![Value::I64(1), Value::I64(2), Value::I64(3)]);
}

#[test]
fn foreach_wraps_and_binds_index() {
    let (sql, args) = run(
        "in <foreach collection=\"ids\" open=\"(\" close=\")\" separator=\", \">${index}:#{item}</foreach>",
        vec![("ids", ints(&[5, 6]))],
    );
    assert_eq!(sql, "in (0:?, 1:?)");
    assert_eq!(args, vec![Value::I64(5), Value::I64(6)]);
}

#[test]
fn foreach_over_pairs_binds_key_and_value() {
    let pairs = Value::Pairs(vec![(string("a"), Value::I64(1)), (string("b"), Value::I64(2))]);
    let (sql, args) = run(
        "<foreach collection=\"m\" index=\"k\" item=\"v\" separator=\", \">${k} = #{v}</foreach>",
        vec![("m", pairs)],
    );
    assert_eq!(sql, "a = ?, b = ?");
    assert_eq!(args, vec![Value::I64(1), Value::I64(2)]);
}

#[test]
fn foreach_bindings_end_with_the_loop() {
    let (sql, _) = run(
        "<foreach collection=\"ids\" item=\"x\">${x}</foreach>${x}",
        vec![("ids", ints(&[1])), ("x", string("outer"))],
    );
    assert_eq!(sql, "1outer");
}

#[test]
fn foreach_over_a_number_is_an_error() {
    let e = run_err("<foreach collection=\"n\">x</foreach>", vec![("n", Value::I64(3))]);
    assert_eq!(e, RenderError::CollectionTypeError);
}

#[test]
fn trim_strips_override_and_adds_prefix() {
    let (sql, _) = run(
        "<trim prefix=\"WHERE\" prefixOverrides=\"AND|OR\"> AND a=1</trim>",
        vec![],
    );
    assert_eq!(sql, "WHERE a=1");
}

#[test]
fn trim_of_empty_body_is_empty() {
    let (sql, _) = run("<trim prefix=\"WHERE\" prefixOverrides=\"AND|OR\">  </trim>", vec![]);
    assert_eq!(sql, "");
}

#[test]
fn trim_strips_suffix_override_and_adds_suffix() {
    let (sql, _) = run(
        "<trim prefix=\"(\" suffix=\")\" suffixOverrides=\",\">a, b,</trim>",
        vec![],
    );
    assert_eq!(sql, "( a, b )");
}

#[test]
fn trim_leaves_a_longer_word_alone() {
    let (sql, _) = run("<trim prefixOverrides=\"OR\">ORDER BY a</trim>", vec![]);
    assert_eq!(sql, "ORDER BY a");
}

#[test]
fn where_of_empty_children_is_empty() {
    let (sql, args) = run(
        "select 1 <where><if test=\"a != null\">and a = #{a}</if></where>",
        vec![],
    );
    assert_eq!(sql, "select 1 ");
    assert!(args.is_empty());
}

#[test]
fn where_strips_leading_connective_without_regard_to_case() {
    let (sql, args) = run(
        "<where><if test=\"a != null\"> and a = #{a}</if><if test=\"b != null\"> or b = #{b}</if></where>",
        vec![("a", Value::I64(1)), ("b", Value::I64(2))],
    );
    assert_eq!(sql, "WHERE a = ? or b = ?");
    assert_eq!(args, vec![Value::I64(1), Value::I64(2)]);
}

#[test]
fn set_strips_one_trailing_comma() {
    let (sql, args) = run(
        "update t <set><if test=\"a != null\">a = #{a},</if><if test=\"b != null\">b = #{b},</if></set>",
        vec![("a", Value::I64(1)), ("b", Value::I64(2))],
    );
    assert_eq!(sql, "update t SET a = ?,b = ?");
    assert_eq!(args.len(), 2);
}

#[test]
fn choose_takes_first_true_branch() {
    let tpl = "<choose> <when test=\"a == 1\">one</when> <when test=\"a == 2\">two</when> <otherwise>many</otherwise> </choose>";
    assert_eq!(run(tpl, vec![("a", Value::I64(1))]).0, "one");
    assert_eq!(run(tpl, vec![("a", Value::I64(2))]).0, "two");
    assert_eq!(run(tpl, vec![("a", Value::I64(3))]).0, "many");
}

#[test]
fn choose_without_fallback_contributes_nothing() {
    let tpl = "<choose><when test=\"a == 1\">one</when></choose>";
    assert_eq!(run(tpl, vec![("a", Value::I64(5))]).0, "");
}

#[test]
fn choose_accepts_short_fallback_tag() {
    let tpl = "<choose><when test=\"false\">one</when><_>other</_></choose>";
    assert_eq!(run(tpl, vec![]).0, "other");
}

#[test]
fn bind_holds_for_later_siblings_only() {
    let (sql, args) = run(
        "${p}|<bind name=\"p\" value=\"a + 1\"/>${p}|#{p}",
        vec![("a", Value::I64(1))],
    );
    assert_eq!(sql, "nil|2|?");
    assert_eq!(args, vec![Value::I64(2)]);
}

#[test]
fn bind_inside_a_directive_ends_with_it() {
    let (sql, _) = run(
        "<if test=\"true\"><bind name=\"p\" value=\"1\"/>${p}</if>${p}",
        vec![],
    );
    assert_eq!(sql, "1nil");
}

#[test]
fn include_renders_registered_fragment() {
    let mut reg = Registry::new();
    reg.register(b"cols", parse(b"id, name").unwrap());
    reg.register(b"sel", parse(b"select <include refid=\"cols\"/> from t").unwrap());
    let tree = parse(b"<include refid=\"sel\"/> where id = #{id}").unwrap();
    let out = render(&tree, context(vec![("id", Value::I64(1))]), &reg).unwrap();
    assert_eq!(text(&out.text), "select id, name from t where id = ?");
    assert_eq!(out.args, vec![Value::I64(1)]);
}

#[test]
fn include_of_unknown_fragment_is_an_error() {
    let e = run_err("<include refid=\"nope\"/>", vec![]);
    assert_eq!(e, RenderError::MissingTemplate);
}

#[test]
fn include_may_name_a_fragment_registered_later() {
    let mut reg = Registry::new();
    reg.register(b"sel", parse(b"select <include refid=\"cols\"/>").unwrap());
    reg.register(b"cols", parse(b"id").unwrap());
    reg.register(b"cols", parse(b"id, name").unwrap());
    let tree = parse(b"<include refid=\"sel\"/>").unwrap();
    let out = render(&tree, Context::new(), &reg).unwrap();
    assert_eq!(text(&out.text), "select id, name");
}

#[test]
fn fragments_cannot_include_one_another_in_a_ring() {
    let mut reg = Registry::new();
    reg.register(b"a", parse(b"a<include refid=\"b\"/>").unwrap());
    reg.register(b"b", parse(b"b<include refid=\"a\"/>").unwrap());
    let tree = parse(b"<include refid=\"a\"/>").unwrap();
    assert_eq!(render(&tree, Context::new(), &reg).unwrap_err(), RenderError::MissingTemplate);
}

#[test]
fn fragment_cannot_include_itself() {
    let mut reg = Registry::new();
    reg.register(b"a", parse(b"<include refid=\"a\"/>").unwrap());
    let tree = parse(b"<include refid=\"a\"/>").unwrap();
    let e = render(&tree, Context::new(), &reg).unwrap_err();
    assert_eq!(e, RenderError::MissingTemplate);
}

#[test]
fn placeholders_match_values() {
    let (sql, args) = run(
        "<where><foreach collection=\"ids\" separator=\" or \">id = #{item}</foreach> and n = #{n}</where>",
        vec![("ids", ints(&[1, 2, 3, 4])), ("n", string("x"))],
    );
    assert_eq!(sql.matches('?').count(), args.len());
    assert_eq!(args.len(), 5);
}

#[test]
fn parsing_twice_gives_equal_trees() {
    let tpl = "a <if test=\"x\">b #{x}</if> <foreach collection=\"c\">${item}</foreach>";
    let one = parse(tpl.as_bytes()).unwrap();
    let two = parse(tpl.as_bytes()).unwrap();
    assert_eq!(format!("{:?}", one), format!("{:?}", two));
}

#[test]
fn unknown_directive_is_reported() {
    match parse(b"ab<foo>x</foo>") {
        Err(ParseError::UnknownDirective { name, pos }) => {
            assert_eq!(name, b"foo".to_vec());
            assert_eq!(pos, 2);
        }
        other => panic!("{:?}", other),
    }
}

#[test]
fn missing_attribute_is_reported() {
    match parse(b"<if>x</if>") {
        Err(ParseError::MissingAttribute { name, attribute, pos }) => {
            assert_eq!(name, b"if".to_vec());
            assert_eq!(attribute, b"test".to_vec());
            assert_eq!(pos, 0);
        }
        other => panic!("{:?}", other),
    }
    assert!(matches!(parse(b"<foreach>x</foreach>"), Err(ParseError::MissingAttribute { .. })));
    assert!(matches!(parse(b"<bind name=\"a\"/>"), Err(ParseError::MissingAttribute { .. })));
    assert!(matches!(parse(b"<include/>"), Err(ParseError::MissingAttribute { .. })));
}

#[test]
fn unbalanced_tags_are_reported() {
    match parse(b"<where>x</set>") {
        Err(ParseError::UnbalancedTag { expected, expected_pos, found, found_pos }) => {
            assert_eq!(expected, b"where".to_vec());
            assert_eq!(expected_pos, 0);
            assert_eq!(found, b"set".to_vec());
            assert_eq!(found_pos, 8);
        }
        other => panic!("{:?}", other),
    }
    match parse(b"<where>x") {
        Err(ParseError::UnbalancedTag { expected, found, found_pos, .. }) => {
            assert_eq!(expected, b"where".to_vec());
            assert!(found.is_empty());
            assert_eq!(found_pos, 8);
        }
        other => panic!("{:?}", other),
    }
    match parse(b"x</where>") {
        Err(ParseError::UnbalancedTag { expected, found, found_pos, .. }) => {
            assert!(expected.is_empty());
            assert_eq!(found, b"where".to_vec());
            assert_eq!(found_pos, 1);
        }
        other => panic!("{:?}", other),
    }
}

#[test]
fn misplaced_branches_are_reported() {
    assert!(matches!(parse(b"<when test=\"a\">x</when>"), Err(ParseError::Misplaced { .. })));
    assert!(matches!(parse(b"<choose>text</choose>"), Err(ParseError::Misplaced { .. })));
    assert!(matches!(
        parse(b"<choose><otherwise>a</otherwise><when test=\"a\">x</when></choose>"),
        Err(ParseError::Misplaced { .. })
    ));
}

#[test]
fn lex_errors_carry_the_offset() {
    assert!(matches!(parse(b"ab<if test=\"x"), Err(ParseError::Lex(LexError::UnterminatedQuote(11)))));
    assert!(matches!(parse(b"ab<if test=\"x\" "), Err(ParseError::Lex(LexError::UnterminatedTag(2)))));
    assert!(matches!(parse(b"a #{x"), Err(ParseError::Lex(LexError::UnterminatedMarker(2)))));
    assert!(matches!(parse(b"</if"), Err(ParseError::Lex(LexError::UnterminatedTag(0)))));
}

#[test]
fn comparison_of_integer_kinds() {
    assert_eq!(eval("1 == 1", vec![]), Ok(Value::Boolean(true)));
    assert_eq!(eval("a == b", vec![("a", Value::I64(1)), ("b", Value::U64(1))]), Ok(Value::Boolean(true)));
    assert_eq!(eval("a < b", vec![("a", Value::I64(-1)), ("b", Value::U64(u64::MAX))]), Ok(Value::Boolean(true)));
    assert_eq!(eval("2 >= 3", vec![]), Ok(Value::Boolean(false)));
    assert_eq!(eval("2 != 3", vec![]), Ok(Value::Boolean(true)));
}

#[test]
fn comparison_of_text_and_number() {
    assert_eq!(eval("\"abc\" == 1", vec![]), Ok(Value::Boolean(false)));
    assert_eq!(eval("'1' == 1", vec![]), Ok(Value::Boolean(true)));
    assert_eq!(eval("'10' > 9", vec![]), Ok(Value::Boolean(true)));
    assert_eq!(eval("'abc' > 9", vec![]), Ok(Value::Boolean(true)));
    assert_eq!(eval("'abc' < 'abd'", vec![]), Ok(Value::Boolean(true)));
    assert_eq!(eval("'ab' < 'abc'", vec![]), Ok(Value::Boolean(true)));
}

#[test]
fn numbers_with_a_fraction_are_compared_exactly() {
    assert_eq!(eval("1 == 1.0", vec![]), Ok(Value::Boolean(true)));
    assert_eq!(eval("1.0 == 1", vec![]), Ok(Value::Boolean(true)));
    assert_eq!(eval("1 != 1.000", vec![]), Ok(Value::Boolean(false)));
    assert_eq!(eval("1.5 > 1", vec![]), Ok(Value::Boolean(true)));
    assert_eq!(eval("1.5 >= 2", vec![]), Ok(Value::Boolean(false)));
    assert_eq!(eval("1.50 == 1.5", vec![]), Ok(Value::Boolean(true)));
    assert_eq!(eval("0.1 < 0.09", vec![]), Ok(Value::Boolean(false)));
    assert_eq!(eval("-1.5 < -1", vec![]), Ok(Value::Boolean(true)));
    assert_eq!(eval("(1.5) <= x", vec![("x", Value::U64(u64::MAX))]), Ok(Value::Boolean(true)));
    assert_eq!(eval("x < 0.5", vec![("x", Value::I64(i64::MIN))]), Ok(Value::Boolean(true)));
    assert_eq!(eval("1.2332ESF == 1.2332", vec![]), Ok(Value::Boolean(true)));
    assert_eq!(eval("1 + 1 == 2.0", vec![]), Ok(Value::Boolean(true)));
    assert_eq!(eval("1.5 == null", vec![]), Ok(Value::Boolean(false)));
    assert_eq!(eval("x != 1.5", vec![]), Ok(Value::Boolean(true)));
    assert_eq!(eval("1.5 < null", vec![]), Err(EvalError::TypeMismatch));
    assert_eq!(eval("1.5 == 'a'", vec![]), Err(EvalError::TypeMismatch));
    assert_eq!(eval("1.5 == x", vec![("x", Value::F64(0))]), Err(EvalError::TypeMismatch));
    assert_eq!(eval("1.5 == 1 / 0", vec![]), Err(EvalError::ArithmeticError));
}

#[test]
fn numbers_with_a_fraction_stand_in_comparisons_only() {
    assert_eq!(eval("1.5", vec![]), Err(EvalError::UnsupportedNumber(0)));
    assert_eq!(eval("2 + 1.5", vec![]), Err(EvalError::UnsupportedNumber(4)));
    assert_eq!(eval("!1.5", vec![]), Err(EvalError::UnsupportedNumber(1)));
    assert_eq!(eval("1 == 1.5 + 1", vec![]), Err(EvalError::UnsupportedNumber(5)));
    assert_eq!(eval("1 == 0.1234567890123456789", vec![]), Err(EvalError::UnsupportedNumber(5)));
    assert_eq!(eval("1 == 18446744073709551615.5", vec![]), Err(EvalError::UnsupportedNumber(5)));
    assert_eq!(run_err("#{1.5}", vec![]), RenderError::Eval(EvalError::UnsupportedNumber(0)));
    assert_eq!(eval("1. == 1", vec![]), Err(EvalError::Syntax(2)));
}

#[test]
fn float_values_are_not_computed_with() {
    assert_eq!(eval("x + 1", vec![("x", Value::F64(0))]), Err(EvalError::TypeMismatch));
    assert_eq!(eval("x != null", vec![("x", Value::F64(0))]), Ok(Value::Boolean(true)));
    assert_eq!(eval("99999999999999999999", vec![]), Err(EvalError::UnsupportedNumber(0)));
}

#[test]
fn number_suffix_is_left_out() {
    assert_eq!(eval("123L", vec![]), Ok(Value::I64(123)));
    assert_eq!(eval("7u + 1", vec![]), Ok(Value::I64(8)));
    assert_eq!(eval("18446744073709551615", vec![]), Ok(Value::U64(u64::MAX)));
}

#[test]
fn arithmetic_and_precedence() {
    assert_eq!(eval("1 + 2 * 3", vec![]), Ok(Value::I64(7)));
    assert_eq!(eval("(1 + 2) * 3", vec![]), Ok(Value::I64(9)));
    assert_eq!(eval("10 - 4 - 3", vec![]), Ok(Value::I64(3)));
    assert_eq!(eval("-7 / 2", vec![]), Ok(Value::I64(-3)));
    assert_eq!(eval("7 / -2", vec![]), Ok(Value::I64(-3)));
    assert_eq!(eval("1 + 1 == 2 && 2 < 3 || false", vec![]), Ok(Value::Boolean(true)));
    assert_eq!(eval("!(1 == 1)", vec![]), Ok(Value::Boolean(false)));
    assert_eq!(eval("a - b", vec![("a", Value::U64(3)), ("b", Value::U64(5))]), Ok(Value::I64(-2)));
    assert_eq!(eval("a + b", vec![("a", Value::U64(3)), ("b", Value::U64(5))]), Ok(Value::U64(8)));
}

#[test]
fn arithmetic_errors() {
    assert_eq!(eval("1 / 0", vec![]), Err(EvalError::ArithmeticError));
    assert_eq!(eval("a * 2", vec![("a", Value::U64(u64::MAX))]), Err(EvalError::ArithmeticError));
    assert_eq!(eval("a - 1", vec![("a", Value::I64(i64::MIN))]), Err(EvalError::ArithmeticError));
    assert_eq!(eval("-a", vec![("a", Value::U64(u64::MAX))]), Err(EvalError::ArithmeticError));
}

#[test]
fn type_mismatches() {
    assert_eq!(eval("a < true", vec![("a", Value::Array(vec![]))]), Err(EvalError::TypeMismatch));
    assert_eq!(eval("'a' + 1", vec![]), Err(EvalError::TypeMismatch));
    assert_eq!(eval("true < false", vec![]), Err(EvalError::TypeMismatch));
    assert_eq!(eval("null < 1", vec![]), Err(EvalError::TypeMismatch));
}

#[test]
fn short_circuit_leaves_the_right_operand_alone() {
    assert_eq!(eval("x != 0 && 10 / x > 1", vec![("x", Value::I64(0))]), Ok(Value::Boolean(false)));
    assert_eq!(eval("x == 0 || 10 / x > 1", vec![("x", Value::I64(0))]), Ok(Value::Boolean(true)));
    assert_eq!(eval("x == 0 && 10 / x > 1", vec![("x", Value::I64(0))]), Err(EvalError::ArithmeticError));
}

#[test]
fn paths_into_values() {
    let user = Value::Pairs(vec![
        (string("name"), string("bob")),
        (string("tags"), Value::Array(vec![string("a"), string("b")])),
    ]);
    assert_eq!(eval("user.name", vec![("user", user.clone())]), Ok(string("bob")));
    assert_eq!(eval("user.tags[1]", vec![("user", user.clone())]), Ok(string("b")));
    assert_eq!(eval("user['name']", vec![("user", user.clone())]), Ok(string("bob")));
    assert_eq!(eval("user.tags[5]", vec![("user", user.clone())]), Ok(Value::Nil));
    assert_eq!(eval("user.age", vec![("user", user.clone())]), Ok(Value::Nil));
    assert_eq!(eval("nobody.name == null", vec![]), Ok(Value::Boolean(true)));
}

#[test]
fn syntax_errors_carry_the_offset() {
    assert_eq!(eval("1 +", vec![]), Err(EvalError::Syntax(3)));
    assert_eq!(eval("(1", vec![]), Err(EvalError::Syntax(2)));
    assert_eq!(eval("1 2", vec![]), Err(EvalError::Syntax(2)));
    assert_eq!(eval("'abc", vec![]), Err(EvalError::Syntax(0)));
    assert_eq!(eval("", vec![]), Err(EvalError::Syntax(0)));
    assert_eq!(eval("a = 1", vec![]), Err(EvalError::Syntax(2)));
}

#[test]
fn later_binding_hides_earlier() {
    let mut ctx = Context::new();
    ctx.set(b"a", Value::I64(1));
    ctx.set(b"a", Value::I64(2));
    assert_eq!(evaluate(b"a", &ctx), Ok(Value::I64(2)));
    assert_eq!(ctx.len(), 2);
}

#[test]
fn cache_parses_each_text_once() {
    let mut cache = TemplateCache::new();
    let a = cache.get_or_parse(b"select #{a}").unwrap();
    let b = cache.get_or_parse(b"select #{b}").unwrap();
    let again = cache.get_or_parse(b"select #{a}").unwrap();
    assert_eq!((a, b, again), (0, 1, 0));
    assert_eq!(cache.entries.len(), 2);
    assert!(cache.get_or_parse(b"<if>").is_err());
    assert_eq!(cache.entries.len(), 2);
    assert_eq!(cache.position(b"select #{b}"), Some(1));
    assert_eq!(cache.position(b"other"), None);
    let out = render(cache.tree(a), context(vec![("a", Value::I64(1))]), &Registry::new()).unwrap();
    assert_eq!(text(&out.text), "select ?");
}

#[test]
fn node_kinds_have_their_tags() {
    assert_eq!(OtherwiseNode::name(), "otherwise");
    assert_eq!(OtherwiseNode::def_name(), "_");
    assert_eq!(IfNode::name(), "if");
    assert_eq!(WhereNode::def_name(), "where");
    let tree = parse(b"x<set>a</set>").unwrap();
    assert_eq!(tree.childs[0].name(), "string");
    assert_eq!(tree.childs[1].name(), "set");
    assert_eq!(tree.childs[1].def_name(), "set");
    assert!(matches!(tree.childs[1], NodeType::NSet(_)));
}

#[test]
fn tokens_of_a_template() {
    let tokens = tokenize(b"a <if test='x > 1' >b</if><bind name=\"n\" value=\"1\"/>${c}").unwrap();
    assert_eq!(tokens.len(), 6);
    assert!(matches!(&tokens[0], Token::Literal(t) if t == b"a "));
    match &tokens[1] {
        Token::TagOpen { name, attrs, pos } => {
            assert_eq!(name, b"if");
            assert_eq!(*pos, 2);
            assert_eq!(attrs.len(), 1);
            assert_eq!(attrs[0].name, b"test".to_vec());
            assert_eq!(attrs[0].value, b"x > 1".to_vec());
        }
        other => panic!("{:?}", other),
    }
    assert!(matches!(&tokens[3], Token::TagClose { name, pos } if name == b"if" && *pos == 21));
    assert!(matches!(&tokens[4], Token::SelfClosing { name, .. } if name == b"bind"));
    assert!(matches!(&tokens[5], Token::Subst { expr, bound } if expr == b"c" && !*bound));
}
