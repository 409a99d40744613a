use stainless_extraction::ast::{
    ADTConstructor, ADTSort, BooleanLiteral, Expr, Flag, FunDef, IfExpr, Int32Literal, IntValue,
    BVLiteral, MatchCase, MatchExpr, Not, Pattern, Plus, StringLiteral, Type, UnitLiteral, ValDef,
    Variable, WildcardPattern, Block, NoTree, Tuple,
};
use stainless_extraction::encode::{serialize_expr, serialize_pattern, serialize_type};
use stainless_extraction::factory::Factory;
use stainless_extraction::ser::{BufferSerializer, MarkerId};
use stainless_extraction::symbols::Symbols;

fn bytes_of_expr(e: Expr<'_>) -> Vec<u8> {
    let mut s = BufferSerializer::new();
    serialize_expr(e, &mut s);
    s.to_buffer()
}

fn len(n: u8) -> Vec<u8> {
    vec![0, 0, 0, 0, 0, 0, 0, n]
}

fn cat(parts: &[&[u8]]) -> Vec<u8> {
    parts.concat()
}

#[test]
fn marker_below_255_is_one_byte_and_others_are_escaped() {
    let mut s = BufferSerializer::new();
    s.write_marker(MarkerId(0));
    s.write_marker(MarkerId(254));
    s.write_marker(MarkerId(255));
    s.write_marker(MarkerId(256));
    s.write_marker(MarkerId(600));
    assert_eq!(s.as_slice(), &[0, 254, 255, 0, 255, 1, 255, 255, 90]);
}

#[test]
fn integers_are_big_endian_in_twos_complement() {
    let mut s = BufferSerializer::new();
    s.write_int(1);
    s.write_int(-1);
    s.write_int(0x0102_0304);
    s.write_int(i32::MIN);
    s.write_len(258);
    s.write_bool(true);
    s.write_bool(false);
    assert_eq!(
        s.to_buffer(),
        vec![
            0, 0, 0, 1, 255, 255, 255, 255, 1, 2, 3, 4, 128, 0, 0, 0, 0, 0, 0, 0, 0, 0, 1, 2, 1,
            0
        ]
    );
}

#[test]
fn strings_are_utf8_behind_their_length() {
    let mut s = BufferSerializer::new();
    s.write_str("aé");
    s.write_strings(&vec!["x".to_string(), "".to_string()]);
    assert_eq!(
        s.to_buffer(),
        cat(&[&len(3), &[0x61, 0xc3, 0xa9], &len(2), &len(1), &[0x78], &len(0)])
    );
}

#[test]
fn big_integers_are_a_sign_and_a_magnitude() {
    let mut s = BufferSerializer::new();
    s.write_big_int(&IntValue { negative: false, magnitude: 0 });
    s.write_big_int(&IntValue { negative: true, magnitude: 1125 });
    s.write_big_int(&IntValue { negative: false, magnitude: 0x1_0000 });
    s.write_big_int(&IntValue { negative: false, magnitude: u128::MAX });
    assert_eq!(
        s.to_buffer(),
        cat(&[
            &[1],
            &len(1),
            &[0],
            &[0],
            &len(2),
            &[4, 101],
            &[2],
            &len(3),
            &[1, 0, 0],
            &[2],
            &len(16),
            &[255; 16]
        ])
    );
}

#[test]
fn literals_are_a_marker_and_their_fields() {
    let f = Factory::new();
    assert_eq!(bytes_of_expr(Expr::UnitLiteral(f.allocate(UnitLiteral {}))), vec![25]);
    assert_eq!(
        bytes_of_expr(Expr::BooleanLiteral(f.allocate(BooleanLiteral { value: true }))),
        vec![23, 1]
    );
    assert_eq!(
        bytes_of_expr(Expr::BVLiteral(f.Int32Literal(-2))),
        cat(&[&[20, 1, 0], &len(1), &[2], &[0, 0, 0, 32]])
    );
    assert_eq!(
        bytes_of_expr(Expr::StringLiteral(f.allocate(StringLiteral { value: "hi".to_string() }))),
        cat(&[&[24], &len(2), b"hi"])
    );
}

#[test]
fn nodes_are_written_with_their_fields_in_declared_order() {
    let f = Factory::new();
    let one = Expr::BVLiteral(f.Int32Literal(1));
    let t = Expr::BooleanLiteral(f.allocate(BooleanLiteral { value: true }));
    let unit = Expr::UnitLiteral(f.allocate(UnitLiteral {}));
    let one_bytes = bytes_of_expr(one);
    let plus = Expr::Plus(f.allocate(Plus { lhs: one, rhs: unit }));
    assert_eq!(bytes_of_expr(plus), cat(&[&[37], &one_bytes, &[25]]));
    let negation = Expr::Not(f.allocate(Not { expr: t }));
    assert_eq!(bytes_of_expr(negation), vec![33, 23, 1]);
    let conditional = Expr::IfExpr(f.allocate(IfExpr { cond: t, thenn: unit, elze: negation }));
    assert_eq!(bytes_of_expr(conditional), vec![18, 23, 1, 25, 33, 23, 1]);
    let tuple = Expr::Tuple(f.allocate(Tuple { exprs: vec![unit, t] }));
    assert_eq!(bytes_of_expr(tuple), cat(&[&[57], &len(2), &[25, 23, 1]]));
    let block = Expr::Block(f.allocate(Block { exprs: vec![t], last: unit }));
    assert_eq!(bytes_of_expr(block), cat(&[&[190], &len(1), &[23, 1, 25]]));
    let placeholder = Expr::NoTree(f.allocate(NoTree { tpe: Type::Untyped }));
    assert_eq!(bytes_of_expr(placeholder), vec![120, 74]);
}

#[test]
fn types_and_patterns_are_written_with_their_markers() {
    let f = Factory::new();
    let mut s = BufferSerializer::new();
    serialize_type(Type::BooleanType, &mut s);
    serialize_type(Type::UnitType, &mut s);
    serialize_type(Type::StringType, &mut s);
    serialize_type(Type::BVType(f.Int32Type()), &mut s);
    assert_eq!(s.to_buffer(), vec![75, 76, 80, 81, 1, 0, 0, 0, 32]);

    let wildcard = Pattern::WildcardPattern(f.allocate(WildcardPattern { binder: None }));
    let mut s = BufferSerializer::new();
    serialize_pattern(wildcard, &mut s);
    assert_eq!(s.to_buffer(), vec![128, 0]);

    let unit = Expr::UnitLiteral(f.allocate(UnitLiteral {}));
    let case: &MatchCase = f.MatchCase(wildcard, Some(unit), unit);
    let m = Expr::MatchExpr(f.allocate(MatchExpr { scrutinee: unit, cases: vec![case] }));
    assert_eq!(
        bytes_of_expr(m),
        cat(&[&[126, 25], &len(1), &[127, 128, 0, 1, 25, 25]])
    );
}

fn symbol<'l>(
    f: &'l Factory,
    name: &str,
    global_id: i32,
) -> &'l stainless_extraction::ast::SymbolIdentifier<'l> {
    let id = f.Identifier(name.to_string(), global_id, 0);
    f.SymbolIdentifier(id, vec![name.to_string()])
}

#[test]
fn identifiers_are_written_by_their_numbers_and_their_path() {
    let f = Factory::new();
    let id = symbol(&f, "ab", 7);
    let mut s = BufferSerializer::new();
    id.serialize(&mut s);
    assert_eq!(
        s.to_buffer(),
        cat(&[&[145], &[0, 0, 0, 7], &[0, 0, 0, 0], &len(1), &len(2), b"ab", &[0, 0, 0, 7]])
    );
    let mut s = BufferSerializer::new();
    id.id.serialize(&mut s);
    assert_eq!(s.to_buffer(), cat(&[&[90], &len(2), b"ab", &[0, 0, 0, 7], &[0, 0, 0, 0]]));

    let v: &Variable = f.allocate(Variable { id, tpe: Type::BooleanType, flags: vec![Flag::Extern] });
    let vd: &ValDef = f.allocate(ValDef { v });
    let mut id_bytes = BufferSerializer::new();
    id.serialize(&mut id_bytes);
    let mut s = BufferSerializer::new();
    vd.serialize(&mut s);
    assert_eq!(
        s.to_buffer(),
        cat(&[&[94, 11], id_bytes.as_slice(), &[75], &len(1), &[139]])
    );
}

fn function<'l>(f: &'l Factory, name: &str, global_id: i32, value: i32) -> &'l FunDef<'l> {
    f.allocate(FunDef {
        id: symbol(f, name, global_id),
        tparams: vec![],
        params: vec![],
        return_type: Type::BVType(f.Int32Type()),
        full_body: Expr::BVLiteral(f.Int32Literal(value)),
        flags: vec![],
    })
}

fn sort<'l>(f: &'l Factory, name: &str, global_id: i32) -> &'l ADTSort<'l> {
    let id = symbol(f, name, global_id);
    let constructor: &ADTConstructor = f.ADTConstructor(symbol(f, name, global_id + 100), id, vec![]);
    f.allocate(ADTSort { id, tparams: vec![], constructors: vec![constructor], flags: vec![] })
}

fn bytes_of_symbols(symbols: &Symbols<'_>) -> Vec<u8> {
    let mut s = BufferSerializer::new();
    symbols.serialize(&mut s);
    s.to_buffer()
}

#[test]
fn order_of_insertion_does_not_change_the_bytes() {
    let f = Factory::new();
    let (f1, f2, f3) = (function(&f, "a", 5, 1), function(&f, "b", 2, 2), function(&f, "c", 9, 3));
    let (s1, s2) = (sort(&f, "S", 4), sort(&f, "T", 1));
    let one = Symbols::new(vec![s1, s2], vec![f1, f2, f3]);
    let other = Symbols::new(vec![s2, s1], vec![f3, f1, f2]);
    assert_eq!(one, other);
    assert_eq!(bytes_of_symbols(&one), bytes_of_symbols(&other));
    let keys: Vec<i32> = one.functions().iter().map(|fd| fd.id.id.global_id).collect();
    assert_eq!(keys, vec![2, 5, 9]);
    let keys: Vec<i32> = other.sorts().iter().map(|s| s.id.id.global_id).collect();
    assert_eq!(keys, vec![1, 4]);
}

#[test]
fn later_definition_of_the_same_key_stays() {
    let f = Factory::new();
    let (old, new) = (function(&f, "a", 5, 1), function(&f, "a", 5, 2));
    let symbols = Symbols::new(vec![], vec![old, new]);
    assert_eq!(symbols.functions().len(), 1);
    assert_eq!(symbols.functions()[0].full_body, Expr::BVLiteral(&Int32Literal(2)));
}

#[test]
fn table_is_a_block_behind_its_length() {
    let f = Factory::new();
    let empty = Symbols::new(vec![], vec![]);
    assert_eq!(bytes_of_symbols(&empty), cat(&[&len(16), &len(0), &len(0)]));

    let (f1, f2) = (function(&f, "a", 5, 1), function(&f, "b", 2, 2));
    let s1 = sort(&f, "S", 4);
    let symbols = Symbols::new(vec![s1], vec![f1, f2]);
    let mut block = BufferSerializer::new();
    block.write_len(2);
    f2.serialize(&mut block);
    f1.serialize(&mut block);
    block.write_len(1);
    s1.serialize(&mut block);
    let block = block.to_buffer();
    let bytes = bytes_of_symbols(&symbols);
    assert_eq!(bytes[..8], (block.len() as u64).to_be_bytes());
    assert_eq!(bytes[8..], block[..]);
}

#[test]
fn function_is_written_field_by_field() {
    let f = Factory::new();
    let fd = function(&f, "a", 5, 1);
    let mut id_bytes = BufferSerializer::new();
    fd.id.serialize(&mut id_bytes);
    let mut s = BufferSerializer::new();
    fd.serialize(&mut s);
    assert_eq!(
        s.to_buffer(),
        cat(&[
            &[98],
            id_bytes.as_slice(),
            &len(0),
            &len(0),
            &[81, 1, 0, 0, 0, 32],
            &bytes_of_expr(Expr::BVLiteral(f.Int32Literal(1))),
            &len(0)
        ])
    );
    assert_eq!(
        *f.Int32Literal(1),
        BVLiteral { signed: true, value: IntValue { negative: false, magnitude: 1 }, size: 32 }
    );
}
