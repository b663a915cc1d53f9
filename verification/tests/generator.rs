use oxa::generator::GenerateAst;

#[test]
fn generator_needs_an_empty_directory() {
    assert!(GenerateAst::for_path("out", true).is_some());
    assert!(GenerateAst::for_path("out", false).is_none());
}

#[test]
fn generator_writes_expression_file() {
    let generator = GenerateAst::for_path("out/ast", true).unwrap();
    let types = vec![("Literal", vec![("value", "token::Literal")])];
    let file = generator.define_expr_ast("Expr", &types);
    assert_eq!(file.path, "out/ast/expr.rs");
    let expected = [
        "use crate::token;\n",
        "use std::fmt::{Display, Formatter, Result};\n",
        "use std::marker;\n",
        "\n",
        "pub trait Expr<T, V: Visitor<T>>: Display {\n",
        "    fn accept(&self, visitor: &V) -> T;\n",
        "}\n\n",
        "pub trait Visitor<T> {\n",
        "    fn visit_literal_expr(&self, expr: &Literal<T, Self>) -> T;\n",
        "}\n\n",
        "pub struct Literal<T, V: ?Sized> {\n",
        "    pub value: token::Literal,\n",
        "    _marker_1: marker::PhantomData<T>,\n",
        "    _marker_2: marker::PhantomData<V>,\n",
        "}\n\n",
        "impl<T, V> Literal<T, V> {\n",
        "\tpub fn new(value: token::Literal) -> Self  {\n",
        "        Literal {\n",
        "            value,\n",
        "            _marker_1: marker::PhantomData::default(),\n",
        "            _marker_2: marker::PhantomData::default(),\n",
        "        }\n",
        "    }\n",
        "}\n\n",
        "impl<T, V: Visitor<T>> Expr<T, V> for Literal<T, V> {\n",
        "    fn accept(&self, visitor: &V) -> T {\n",
        "\t\tvisitor.visit_literal_expr(self)\n",
        "    }\n",
        "}\n\n",
        "impl<T, V: Visitor<T>> Display for Literal<T, V> {\n",
        "    fn fmt(&self, f: &mut Formatter<'_>) -> Result {\n",
        "        write!(f, \"{}\", self.value)\n",
        "    }\n",
        "}\n\n",
    ]
    .concat();
    assert_eq!(file.contents, expected);
}

#[test]
fn generator_writes_statement_file() {
    let generator = GenerateAst::for_path("dir", true).unwrap();
    let types = vec![("Let", vec![("name", "token::Token"), ("initializer", "Box<dyn Expr<T, V>>")])];
    let file = generator.define_stmt_ast("Stmt", &types);
    assert_eq!(file.path, "dir/stmt.rs");
    assert!(file.contents.starts_with("use crate::ast::expr::Expr;\nuse crate::token;\n"));
    assert!(file.contents.contains("pub trait Stmt<T, U: Visitor<T, V>, V>: Display {\n    fn accept(&self, visitor: &mut U) -> T;\n}\n\n"));
    assert!(file.contents.contains("    fn visit_let_stmt(&mut self, stmt: &Let<T, Self, V>) -> T;\n"));
    assert!(file.contents.contains("\tpub fn new(name: token::Token, initializer: Box<dyn Expr<T, V>>) -> Self {\n"));
    assert!(file.contents.contains("        write!(f, \"{} {}\", self.name, self.initializer)\n"));
    assert!(file.contents.contains("    _marker_3: marker::PhantomData<V>,\n"));
}
