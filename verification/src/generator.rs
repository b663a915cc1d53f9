//! Generates the source files of the syntax tree: for each kind of node a
//! struct, its constructor, its visitor hook and its rendering, together with
//! the node trait and the visitor trait.
//!
//! A node kind is given by its name and its fields, each a name and a type.
//! The library builds the text of a file; writing it is the caller's part.

use vstd::prelude::*;

use crate::text::{append, lowercase, text, to_lowercase};

verus! {

/// Generates syntax-tree source files into a directory.
pub struct GenerateAst {
    out_dir: String,
}

/// A generated file: where it goes and what it holds.
pub struct AstFile {
    pub path: String,
    pub contents: String,
}

/// The text of a field list.
pub open spec fn fields_view(v: Seq<(&str, &str)>) -> Seq<(Seq<char>, Seq<char>)> {
    Seq::new(v.len(), |i: int| (v[i].0@, v[i].1@))
}

/// The text of a list of node kinds.
pub open spec fn types_view(v: Seq<(&str, Vec<(&str, &str)>)>) -> Seq<(Seq<char>, Seq<(Seq<char>, Seq<char>)>)> {
    Seq::new(v.len(), |i: int| (v[i].0@, fields_view(v[i].1@)))
}

/// The texts `f(x)` for `x` in `xs`, one after the other.
pub open spec fn concat_each<A>(xs: Seq<A>, f: spec_fn(A) -> Seq<char>) -> Seq<char>
    decreases xs.len(),
{
    if xs.len() == 0 {
        Seq::empty()
    } else {
        concat_each(xs.drop_last(), f) + f(xs.last())
    }
}

/// The texts `f(x)` for `x` in `xs`, with `sep` between two of them.
pub open spec fn join_each<A>(xs: Seq<A>, sep: Seq<char>, f: spec_fn(A) -> Seq<char>) -> Seq<char>
    decreases xs.len(),
{
    if xs.len() == 0 {
        Seq::empty()
    } else if xs.len() == 1 {
        f(xs[0])
    } else {
        join_each(xs.drop_last(), sep, f) + sep + f(xs.last())
    }
}

proof fn lemma_concat_step<A>(xs: Seq<A>, i: int, f: spec_fn(A) -> Seq<char>)
    requires
        0 <= i < xs.len(),
    ensures
        concat_each(xs.take(i + 1), f) == concat_each(xs.take(i), f) + f(xs[i]),
{
    assert(xs.take(i + 1).drop_last() =~= xs.take(i));
}

proof fn lemma_join_step<A>(xs: Seq<A>, i: int, sep: Seq<char>, f: spec_fn(A) -> Seq<char>)
    requires
        0 <= i < xs.len(),
    ensures
        join_each(xs.take(i + 1), sep, f) == if i == 0 {
            f(xs[0])
        } else {
            join_each(xs.take(i), sep, f) + sep + f(xs[i])
        },
{
    assert(xs.take(i + 1).drop_last() =~= xs.take(i));
}

/// The name of a node kind's visitor hook: `visit_<kind>_<base>`, both in
/// lowercase.
pub open spec fn visit_name(struct_name: Seq<char>, base_name: Seq<char>) -> Seq<char> {
    "visit_"@ + lowercase(struct_name) + "_"@ + lowercase(base_name)
}

/// The declaration of the node trait.
pub open spec fn trait_text(base_name: Seq<char>, generic: Seq<char>, visitor: Seq<char>) -> Seq<char> {
    "pub trait "@ + base_name + generic + ": Display {"@ + "\n"@ + "    fn accept(&self, visitor: "@ + visitor
        + ") -> T;"@ + "\n"@ + "}"@ + "\n\n"@
}

/// The hook of one expression kind in the visitor trait.
pub open spec fn expr_hook(base_name: Seq<char>, t: (Seq<char>, Seq<(Seq<char>, Seq<char>)>)) -> Seq<char> {
    "    fn "@ + visit_name(t.0, base_name) + "(&self, "@ + lowercase(base_name) + ": &"@ + t.0
        + "<T, Self>) -> T;"@ + "\n"@
}

/// The hook of one statement kind in the visitor trait.
pub open spec fn stmt_hook(base_name: Seq<char>, t: (Seq<char>, Seq<(Seq<char>, Seq<char>)>)) -> Seq<char> {
    "    fn "@ + visit_name(t.0, base_name) + "(&mut self, "@ + lowercase(base_name) + ": &"@ + t.0
        + "<T, Self, V>) -> T;"@ + "\n"@
}

/// The visitor trait of expressions.
pub open spec fn expr_visitor_text(base_name: Seq<char>, types: Seq<(Seq<char>, Seq<(Seq<char>, Seq<char>)>)>) -> Seq<char> {
    "pub trait Visitor<T> {"@ + "\n"@ + concat_each(types, |t| expr_hook(base_name, t)) + "}"@ + "\n\n"@
}

/// The visitor trait of statements.
pub open spec fn stmt_visitor_text(base_name: Seq<char>, types: Seq<(Seq<char>, Seq<(Seq<char>, Seq<char>)>)>) -> Seq<char> {
    "pub trait Visitor<T, V> {"@ + "\n"@ + concat_each(types, |t| stmt_hook(base_name, t)) + "}"@ + "\n\n"@
}

/// A field in a struct declaration.
pub open spec fn field_decl(p: (Seq<char>, Seq<char>)) -> Seq<char> {
    "    pub "@ + p.0 + ": "@ + p.1 + ","@ + "\n"@
}

/// A constructor parameter.
pub open spec fn field_param(p: (Seq<char>, Seq<char>)) -> Seq<char> {
    p.0 + ": "@ + p.1
}

/// A field in the constructor's struct expression.
pub open spec fn field_init(p: (Seq<char>, Seq<char>)) -> Seq<char> {
    "            "@ + p.0 + ","@ + "\n"@
}

/// A placeholder in the rendering's format string.
pub open spec fn field_brace(p: (Seq<char>, Seq<char>)) -> Seq<char> {
    "{}"@
}

/// A field in the rendering's arguments.
pub open spec fn field_ref(p: (Seq<char>, Seq<char>)) -> Seq<char> {
    "self."@ + p.0
}

/// The rendering implementation of a node struct, given its header.
pub open spec fn display_text(header: Seq<char>, fields: Seq<(Seq<char>, Seq<char>)>) -> Seq<char> {
    header + "\n"@ + "    fn fmt(&self, f: &mut Formatter<'_>) -> Result {"@ + "\n"@ + "        write!(f, \""@
        + join_each(fields, " "@, |p| field_brace(p)) + "\", "@ + join_each(fields, ", "@, |p| field_ref(p)) + ")"@
        + "\n"@ + "    }"@ + "\n"@ + "}"@ + "\n\n"@
}

/// The declaration, constructor, visitor hook and rendering of one
/// expression kind.
pub open spec fn expr_type_text(base_name: Seq<char>, s: Seq<char>, fields: Seq<(Seq<char>, Seq<char>)>) -> Seq<char> {
    "pub struct "@ + s + "<T, V: ?Sized> {"@ + "\n"@ + concat_each(fields, |p| field_decl(p))
        + "    _marker_1: marker::PhantomData<T>,"@ + "\n"@ + "    _marker_2: marker::PhantomData<V>,"@ + "\n"@
        + "}"@ + "\n\n"@ + "impl<T, V> "@ + s + "<T, V> {"@ + "\n"@ + "\tpub fn new("@ + join_each(
        fields,
        ", "@,
        |p| field_param(p),
    ) + ") -> Self  {"@ + "\n"@ + "        "@ + s + " {"@ + "\n"@ + concat_each(fields, |p| field_init(p))
        + "            _marker_1: marker::PhantomData::default(),"@ + "\n"@
        + "            _marker_2: marker::PhantomData::default(),"@ + "\n"@ + "        }"@ + "\n"@ + "    }"@
        + "\n"@ + "}"@ + "\n\n"@ + "impl<T, V: Visitor<T>> "@ + base_name + "<T, V> for "@ + s + "<T, V> {"@
        + "\n"@ + "    fn accept(&self, visitor: &V) -> T {"@ + "\n"@ + "\t\tvisitor."@ + visit_name(s, base_name)
        + "(self)"@ + "\n"@ + "    }"@ + "\n"@ + "}"@ + "\n\n"@ + display_text(
        "impl<T, V: Visitor<T>> Display for "@ + s + "<T, V> {"@,
        fields,
    )
}

/// The declaration, constructor, visitor hook and rendering of one
/// statement kind.
pub open spec fn stmt_type_text(base_name: Seq<char>, s: Seq<char>, fields: Seq<(Seq<char>, Seq<char>)>) -> Seq<char> {
    "pub struct "@ + s + "<T, U: ?Sized, V: ?Sized> {"@ + "\n"@ + concat_each(fields, |p| field_decl(p))
        + "    _marker_1: marker::PhantomData<T>,"@ + "\n"@ + "    _marker_2: marker::PhantomData<U>,"@ + "\n"@
        + "    _marker_3: marker::PhantomData<V>,"@ + "\n"@ + "}"@ + "\n\n"@ + "impl<T, U, V> "@ + s
        + "<T, U, V> {"@ + "\n"@ + "\tpub fn new("@ + join_each(fields, ", "@, |p| field_param(p))
        + ") -> Self {"@ + "\n"@ + "        "@ + s + " {"@ + "\n"@ + concat_each(fields, |p| field_init(p))
        + "            _marker_1: marker::PhantomData::default(),"@ + "\n"@
        + "            _marker_2: marker::PhantomData::default(),"@ + "\n"@
        + "            _marker_3: marker::PhantomData::default(),"@ + "\n"@ + "        }"@ + "\n"@ + "    }"@
        + "\n"@ + "}"@ + "\n\n"@ + "impl<T, U: Visitor<T, V>, V> "@ + base_name + "<T, U, V> for "@ + s
        + "<T, U, V> {"@ + "\n"@ + "    fn accept(&self, visitor: &mut U) -> T {"@ + "\n"@ + "\t\tvisitor."@
        + visit_name(s, base_name) + "(self)"@ + "\n"@ + "    }"@ + "\n"@ + "}"@ + "\n\n"@ + display_text(
        "impl<T, U: Visitor<T, V>, V> Display for "@ + s + "<T, U, V> {"@,
        fields,
    )
}

/// The file of expression nodes.
pub open spec fn expr_ast_text(base_name: Seq<char>, types: Seq<(Seq<char>, Seq<(Seq<char>, Seq<char>)>)>) -> Seq<char> {
    "use crate::token;\n"@ + "use std::fmt::{Display, Formatter, Result};\n"@ + "use std::marker;\n"@ + "\n"@
        + trait_text(base_name, "<T, V: Visitor<T>>"@, "&V"@) + expr_visitor_text(base_name, types)
        + concat_each(types, |t: (Seq<char>, Seq<(Seq<char>, Seq<char>)>)| expr_type_text(base_name, t.0, t.1))
}

/// The file of statement nodes.
pub open spec fn stmt_ast_text(base_name: Seq<char>, types: Seq<(Seq<char>, Seq<(Seq<char>, Seq<char>)>)>) -> Seq<char> {
    "use crate::ast::expr::Expr;\n"@ + "use crate::token;\n"@ + "use std::fmt::{Display, Formatter, Result};\n"@
        + "use std::marker;\n"@ + "\n"@ + trait_text(base_name, "<T, U: Visitor<T, V>, V>"@, "&mut U"@)
        + stmt_visitor_text(base_name, types) + concat_each(
        types,
        |t: (Seq<char>, Seq<(Seq<char>, Seq<char>)>)| stmt_type_text(base_name, t.0, t.1),
    )
}

/// Where the file of a base node goes: `<dir>/<base in lowercase>.rs`.
pub open spec fn ast_file_path(dir: Seq<char>, base_name: Seq<char>) -> Seq<char> {
    dir + "/"@ + lowercase(base_name) + ".rs"@
}

impl View for GenerateAst {
    type V = Seq<char>;

    /// The directory the files go to.
    closed spec fn view(&self) -> Seq<char> {
        self.out_dir@
    }
}

/// The name of a node kind's visitor hook (see [`visit_name`]).
fn visit_hook_name(struct_name: &str, base_name: &str) -> (r: String)
    ensures
        r@ == visit_name(struct_name@, base_name@),
{
    let mut r = text("visit_");
    let s = to_lowercase(struct_name);
    append(&mut r, s.as_str());
    append(&mut r, "_");
    let b = to_lowercase(base_name);
    append(&mut r, b.as_str());
    r
}

/// The fields of a struct declaration.
fn field_decls(fields: &Vec<(&str, &str)>) -> (r: String)
    ensures
        r@ == concat_each(fields_view(fields@), |p| field_decl(p)),
{
    let ghost fv = fields_view(fields@);
    let mut r = String::new();
    let mut i: usize = 0;
    while i < fields.len()
        invariant
            i <= fields@.len(),
            fv == fields_view(fields@),
            r@ == concat_each(fv.take(i as int), |p| field_decl(p)),
        decreases fields.len() - i,
    {
        proof {
            lemma_concat_step(fv, i as int, |p| field_decl(p));
        }
        let mut line = text("    pub ");
        append(&mut line, fields[i].0);
        append(&mut line, ": ");
        append(&mut line, fields[i].1);
        append(&mut line, ",");
        append(&mut line, "\n");
        append(&mut r, line.as_str());
        i = i + 1;
    }
    assert(fv.take(fields@.len() as int) =~= fv);
    r
}

/// The fields of the constructor's struct expression.
fn field_inits(fields: &Vec<(&str, &str)>) -> (r: String)
    ensures
        r@ == concat_each(fields_view(fields@), |p| field_init(p)),
{
    let ghost fv = fields_view(fields@);
    let mut r = String::new();
    let mut i: usize = 0;
    while i < fields.len()
        invariant
            i <= fields@.len(),
            fv == fields_view(fields@),
            r@ == concat_each(fv.take(i as int), |p| field_init(p)),
        decreases fields.len() - i,
    {
        proof {
            lemma_concat_step(fv, i as int, |p| field_init(p));
        }
        let mut line = text("            ");
        append(&mut line, fields[i].0);
        append(&mut line, ",");
        append(&mut line, "\n");
        append(&mut r, line.as_str());
        i = i + 1;
    }
    assert(fv.take(fields@.len() as int) =~= fv);
    r
}

/// The constructor's parameters, separated by `, `.
fn field_params(fields: &Vec<(&str, &str)>) -> (r: String)
    ensures
        r@ == join_each(fields_view(fields@), ", "@, |p| field_param(p)),
{
    let ghost fv = fields_view(fields@);
    let mut r = String::new();
    let mut i: usize = 0;
    while i < fields.len()
        invariant
            i <= fields@.len(),
            fv == fields_view(fields@),
            r@ == join_each(fv.take(i as int), ", "@, |p| field_param(p)),
        decreases fields.len() - i,
    {
        proof {
            lemma_join_step(fv, i as int, ", "@, |p| field_param(p));
        }
        if i > 0 {
            append(&mut r, ", ");
        }
        let mut item = text(fields[i].0);
        append(&mut item, ": ");
        append(&mut item, fields[i].1);
        append(&mut r, item.as_str());
        i = i + 1;
    }
    assert(fv.take(fields@.len() as int) =~= fv);
    r
}

/// The placeholders of the rendering's format string, separated by spaces.
fn field_braces(fields: &Vec<(&str, &str)>) -> (r: String)
    ensures
        r@ == join_each(fields_view(fields@), " "@, |p| field_brace(p)),
{
    let ghost fv = fields_view(fields@);
    let mut r = String::new();
    let mut i: usize = 0;
    while i < fields.len()
        invariant
            i <= fields@.len(),
            fv == fields_view(fields@),
            r@ == join_each(fv.take(i as int), " "@, |p| field_brace(p)),
        decreases fields.len() - i,
    {
        proof {
            lemma_join_step(fv, i as int, " "@, |p| field_brace(p));
        }
        if i > 0 {
            append(&mut r, " ");
        }
        append(&mut r, "{}");
        i = i + 1;
    }
    assert(fv.take(fields@.len() as int) =~= fv);
    r
}

/// The rendering's arguments, separated by `, `.
fn field_refs(fields: &Vec<(&str, &str)>) -> (r: String)
    ensures
        r@ == join_each(fields_view(fields@), ", "@, |p| field_ref(p)),
{
    let ghost fv = fields_view(fields@);
    let mut r = String::new();
    let mut i: usize = 0;
    while i < fields.len()
        invariant
            i <= fields@.len(),
            fv == fields_view(fields@),
            r@ == join_each(fv.take(i as int), ", "@, |p| field_ref(p)),
        decreases fields.len() - i,
    {
        proof {
            lemma_join_step(fv, i as int, ", "@, |p| field_ref(p));
        }
        if i > 0 {
            append(&mut r, ", ");
        }
        let mut item = text("self.");
        append(&mut item, fields[i].0);
        append(&mut r, item.as_str());
        i = i + 1;
    }
    assert(fv.take(fields@.len() as int) =~= fv);
    r
}

/// The rendering implementation of a node struct (see [`display_text`]).
fn define_display(header: &str, fields: &Vec<(&str, &str)>) -> (r: String)
    ensures
        r@ == display_text(header@, fields_view(fields@)),
{
    let mut r = text(header);
    append(&mut r, "\n");
    append(&mut r, "    fn fmt(&self, f: &mut Formatter<'_>) -> Result {");
    append(&mut r, "\n");
    append(&mut r, "        write!(f, \"");
    let braces = field_braces(fields);
    append(&mut r, braces.as_str());
    append(&mut r, "\", ");
    let refs = field_refs(fields);
    append(&mut r, refs.as_str());
    append(&mut r, ")");
    append(&mut r, "\n");
    append(&mut r, "    }");
    append(&mut r, "\n");
    append(&mut r, "}");
    append(&mut r, "\n\n");
    r
}

impl GenerateAst {
    /// A generator that writes into the existing directory `path`, given
    /// whether that directory is empty; none for a directory that already
    /// holds an entry.
    pub fn for_path(path: &str, is_empty: bool) -> (r: Option<GenerateAst>)
        ensures
            r is Some <==> is_empty,
            r matches Some(g) ==> g@ == path@,
    {
        if !is_empty {
            return None;
        }
        Some(GenerateAst { out_dir: text(path) })
    }

    /// The declaration of the node trait (see [`trait_text`]).
    fn define_trait(&self, base_name: &str, generic: &str, visitor: &str) -> (r: String)
        ensures
            r@ == trait_text(base_name@, generic@, visitor@),
    {
        let mut r = text("pub trait ");
        append(&mut r, base_name);
        append(&mut r, generic);
        append(&mut r, ": Display {");
        append(&mut r, "\n");
        append(&mut r, "    fn accept(&self, visitor: ");
        append(&mut r, visitor);
        append(&mut r, ") -> T;");
        append(&mut r, "\n");
        append(&mut r, "}");
        append(&mut r, "\n\n");
        r
    }

    /// The visitor trait of statements (see [`stmt_visitor_text`]).
    fn define_stmt_visitor(&self, base_name: &str, types: &Vec<(&str, Vec<(&str, &str)>)>) -> (r: String)
        ensures
            r@ == stmt_visitor_text(base_name@, types_view(types@)),
    {
        let ghost tv = types_view(types@);
        let ghost hook = |t: (Seq<char>, Seq<(Seq<char>, Seq<char>)>)| stmt_hook(base_name@, t);
        let mut hooks = String::new();
        let mut i: usize = 0;
        while i < types.len()
            invariant
                i <= types@.len(),
                tv == types_view(types@),
                hook == (|t: (Seq<char>, Seq<(Seq<char>, Seq<char>)>)| stmt_hook(base_name@, t)),
                hooks@ == concat_each(tv.take(i as int), hook),
            decreases types.len() - i,
        {
            proof {
                lemma_concat_step(tv, i as int, hook);
            }
            let mut line = text("    fn ");
            let v = visit_hook_name(types[i].0, base_name);
            append(&mut line, v.as_str());
            append(&mut line, "(&mut self, ");
            let b = to_lowercase(base_name);
            append(&mut line, b.as_str());
            append(&mut line, ": &");
            append(&mut line, types[i].0);
            append(&mut line, "<T, Self, V>) -> T;");
            append(&mut line, "\n");
            append(&mut hooks, line.as_str());
            i = i + 1;
        }
        assert(tv.take(types@.len() as int) =~= tv);
        let mut r = text("pub trait Visitor<T, V> {");
        append(&mut r, "\n");
        append(&mut r, hooks.as_str());
        append(&mut r, "}");
        append(&mut r, "\n\n");
        r
    }

    /// The visitor trait of expressions (see [`expr_visitor_text`]).
    fn define_expr_visitor(&self, base_name: &str, types: &Vec<(&str, Vec<(&str, &str)>)>) -> (r: String)
        ensures
            r@ == expr_visitor_text(base_name@, types_view(types@)),
    {
        let ghost tv = types_view(types@);
        let ghost hook = |t: (Seq<char>, Seq<(Seq<char>, Seq<char>)>)| expr_hook(base_name@, t);
        let mut hooks = String::new();
        let mut i: usize = 0;
        while i < types.len()
            invariant
                i <= types@.len(),
                tv == types_view(types@),
                hook == (|t: (Seq<char>, Seq<(Seq<char>, Seq<char>)>)| expr_hook(base_name@, t)),
                hooks@ == concat_each(tv.take(i as int), hook),
            decreases types.len() - i,
        {
            proof {
                lemma_concat_step(tv, i as int, hook);
            }
            let mut line = text("    fn ");
            let v = visit_hook_name(types[i].0, base_name);
            append(&mut line, v.as_str());
            append(&mut line, "(&self, ");
            let b = to_lowercase(base_name);
            append(&mut line, b.as_str());
            append(&mut line, ": &");
            append(&mut line, types[i].0);
            append(&mut line, "<T, Self>) -> T;");
            append(&mut line, "\n");
            append(&mut hooks, line.as_str());
            i = i + 1;
        }
        assert(tv.take(types@.len() as int) =~= tv);
        let mut r = text("pub trait Visitor<T> {");
        append(&mut r, "\n");
        append(&mut r, hooks.as_str());
        append(&mut r, "}");
        append(&mut r, "\n\n");
        r
    }
}

impl GenerateAst {
    /// The declaration, constructor, visitor hook and rendering of one
    /// expression kind (see [`expr_type_text`]).
    fn define_expr_type(&self, base_name: &str, struct_name: &str, struct_fields: &Vec<(&str, &str)>) -> (r: String)
        ensures
            r@ == expr_type_text(base_name@, struct_name@, fields_view(struct_fields@)),
    {
        // struct definition
        let mut r = text("pub struct ");
        append(&mut r, struct_name);
        append(&mut r, "<T, V: ?Sized> {");
        append(&mut r, "\n");
        let decls = field_decls(struct_fields);
        append(&mut r, decls.as_str());
        append(&mut r, "    _marker_1: marker::PhantomData<T>,");
        append(&mut r, "\n");
        append(&mut r, "    _marker_2: marker::PhantomData<V>,");
        append(&mut r, "\n");
        append(&mut r, "}");
        append(&mut r, "\n\n");
        // struct constructor
        append(&mut r, "impl<T, V> ");
        append(&mut r, struct_name);
        append(&mut r, "<T, V> {");
        append(&mut r, "\n");
        append(&mut r, "\tpub fn new(");
        let params = field_params(struct_fields);
        append(&mut r, params.as_str());
        append(&mut r, ") -> Self  {");
        append(&mut r, "\n");
        append(&mut r, "        ");
        append(&mut r, struct_name);
        append(&mut r, " {");
        append(&mut r, "\n");
        let inits = field_inits(struct_fields);
        append(&mut r, inits.as_str());
        append(&mut r, "            _marker_1: marker::PhantomData::default(),");
        append(&mut r, "\n");
        append(&mut r, "            _marker_2: marker::PhantomData::default(),");
        append(&mut r, "\n");
        append(&mut r, "        }");
        append(&mut r, "\n");
        append(&mut r, "    }");
        append(&mut r, "\n");
        append(&mut r, "}");
        append(&mut r, "\n\n");
        // struct trait impl
        append(&mut r, "impl<T, V: Visitor<T>> ");
        append(&mut r, base_name);
        append(&mut r, "<T, V> for ");
        append(&mut r, struct_name);
        append(&mut r, "<T, V> {");
        append(&mut r, "\n");
        append(&mut r, "    fn accept(&self, visitor: &V) -> T {");
        append(&mut r, "\n");
        append(&mut r, "\t\tvisitor.");
        let hook = visit_hook_name(struct_name, base_name);
        append(&mut r, hook.as_str());
        append(&mut r, "(self)");
        append(&mut r, "\n");
        append(&mut r, "    }");
        append(&mut r, "\n");
        append(&mut r, "}");
        append(&mut r, "\n\n");
        // struct display trait impl
        let mut header = text("impl<T, V: Visitor<T>> Display for ");
        append(&mut header, struct_name);
        append(&mut header, "<T, V> {");
        let display = define_display(header.as_str(), struct_fields);
        append(&mut r, display.as_str());
        r
    }

    /// The declaration, constructor, visitor hook and rendering of one
    /// statement kind (see [`stmt_type_text`]).
    fn define_stmt_type(&self, base_name: &str, struct_name: &str, struct_fields: &Vec<(&str, &str)>) -> (r: String)
        ensures
            r@ == stmt_type_text(base_name@, struct_name@, fields_view(struct_fields@)),
    {
        // struct definition
        let mut r = text("pub struct ");
        append(&mut r, struct_name);
        append(&mut r, "<T, U: ?Sized, V: ?Sized> {");
        append(&mut r, "\n");
        let decls = field_decls(struct_fields);
        append(&mut r, decls.as_str());
        append(&mut r, "    _marker_1: marker::PhantomData<T>,");
        append(&mut r, "\n");
        append(&mut r, "    _marker_2: marker::PhantomData<U>,");
        append(&mut r, "\n");
        append(&mut r, "    _marker_3: marker::PhantomData<V>,");
        append(&mut r, "\n");
        append(&mut r, "}");
        append(&mut r, "\n\n");
        // struct constructor
        append(&mut r, "impl<T, U, V> ");
        append(&mut r, struct_name);
        append(&mut r, "<T, U, V> {");
        append(&mut r, "\n");
        append(&mut r, "\tpub fn new(");
        let params = field_params(struct_fields);
        append(&mut r, params.as_str());
        append(&mut r, ") -> Self {");
        append(&mut r, "\n");
        append(&mut r, "        ");
        append(&mut r, struct_name);
        append(&mut r, " {");
        append(&mut r, "\n");
        let inits = field_inits(struct_fields);
        append(&mut r, inits.as_str());
        append(&mut r, "            _marker_1: marker::PhantomData::default(),");
        append(&mut r, "\n");
        append(&mut r, "            _marker_2: marker::PhantomData::default(),");
        append(&mut r, "\n");
        append(&mut r, "            _marker_3: marker::PhantomData::default(),");
        append(&mut r, "\n");
        append(&mut r, "        }");
        append(&mut r, "\n");
        append(&mut r, "    }");
        append(&mut r, "\n");
        append(&mut r, "}");
        append(&mut r, "\n\n");
        // struct trait impl
        append(&mut r, "impl<T, U: Visitor<T, V>, V> ");
        append(&mut r, base_name);
        append(&mut r, "<T, U, V> for ");
        append(&mut r, struct_name);
        append(&mut r, "<T, U, V> {");
        append(&mut r, "\n");
        append(&mut r, "    fn accept(&self, visitor: &mut U) -> T {");
        append(&mut r, "\n");
        append(&mut r, "\t\tvisitor.");
        let hook = visit_hook_name(struct_name, base_name);
        append(&mut r, hook.as_str());
        append(&mut r, "(self)");
        append(&mut r, "\n");
        append(&mut r, "    }");
        append(&mut r, "\n");
        append(&mut r, "}");
        append(&mut r, "\n\n");
        // struct display trait impl
        let mut header = text("impl<T, U: Visitor<T, V>, V> Display for ");
        append(&mut header, struct_name);
        append(&mut header, "<T, U, V> {");
        let display = define_display(header.as_str(), struct_fields);
        append(&mut r, display.as_str());
        r
    }

    /// The node structs of all expression kinds, in order.
    fn define_expr_types(&self, base_name: &str, types: &Vec<(&str, Vec<(&str, &str)>)>) -> (r: String)
        ensures
            r@ == concat_each(
                types_view(types@),
                |t: (Seq<char>, Seq<(Seq<char>, Seq<char>)>)| expr_type_text(base_name@, t.0, t.1),
            ),
    {
        let ghost tv = types_view(types@);
        let ghost item = |t: (Seq<char>, Seq<(Seq<char>, Seq<char>)>)| expr_type_text(base_name@, t.0, t.1);
        let mut r = String::new();
        let mut i: usize = 0;
        while i < types.len()
            invariant
                i <= types@.len(),
                tv == types_view(types@),
                item == (|t: (Seq<char>, Seq<(Seq<char>, Seq<char>)>)| expr_type_text(base_name@, t.0, t.1)),
                r@ == concat_each(tv.take(i as int), item),
            decreases types.len() - i,
        {
            proof {
                lemma_concat_step(tv, i as int, item);
            }
            let t = self.define_expr_type(base_name, types[i].0, &types[i].1);
            append(&mut r, t.as_str());
            i = i + 1;
        }
        assert(tv.take(types@.len() as int) =~= tv);
        r
    }

    /// The node structs of all statement kinds, in order.
    fn define_stmt_types(&self, base_name: &str, types: &Vec<(&str, Vec<(&str, &str)>)>) -> (r: String)
        ensures
            r@ == concat_each(
                types_view(types@),
                |t: (Seq<char>, Seq<(Seq<char>, Seq<char>)>)| stmt_type_text(base_name@, t.0, t.1),
            ),
    {
        let ghost tv = types_view(types@);
        let ghost item = |t: (Seq<char>, Seq<(Seq<char>, Seq<char>)>)| stmt_type_text(base_name@, t.0, t.1);
        let mut r = String::new();
        let mut i: usize = 0;
        while i < types.len()
            invariant
                i <= types@.len(),
                tv == types_view(types@),
                item == (|t: (Seq<char>, Seq<(Seq<char>, Seq<char>)>)| stmt_type_text(base_name@, t.0, t.1)),
                r@ == concat_each(tv.take(i as int), item),
            decreases types.len() - i,
        {
            proof {
                lemma_concat_step(tv, i as int, item);
            }
            let t = self.define_stmt_type(base_name, types[i].0, &types[i].1);
            append(&mut r, t.as_str());
            i = i + 1;
        }
        assert(tv.take(types@.len() as int) =~= tv);
        r
    }

    /// Where the file of a base node goes (see [`ast_file_path`]).
    fn file_path(&self, base_name: &str) -> (r: String)
        ensures
            r@ == ast_file_path(self@, base_name@),
    {
        let mut r = self.out_dir.clone();
        append(&mut r, "/");
        let b = to_lowercase(base_name);
        append(&mut r, b.as_str());
        append(&mut r, ".rs");
        r
    }

    /// The file of expression nodes: the node trait, the visitor trait and a
    /// struct for each expression kind (see [`expr_ast_text`]), to be written
    /// to `<dir>/<base in lowercase>.rs`.
    pub fn define_expr_ast(&self, base_name: &str, types: &Vec<(&str, Vec<(&str, &str)>)>) -> (r: AstFile)
        ensures
            r.path@ == ast_file_path(self@, base_name@),
            r.contents@ == expr_ast_text(base_name@, types_view(types@)),
    {
        let path = self.file_path(base_name);
        let mut r = text("use crate::token;\n");
        append(&mut r, "use std::fmt::{Display, Formatter, Result};\n");
        append(&mut r, "use std::marker;\n");
        append(&mut r, "\n");
        // Expr
        let t = self.define_trait(base_name, "<T, V: Visitor<T>>", "&V");
        append(&mut r, t.as_str());
        // Visitor
        let v = self.define_expr_visitor(base_name, types);
        append(&mut r, v.as_str());
        // Types
        let d = self.define_expr_types(base_name, types);
        append(&mut r, d.as_str());
        AstFile { path, contents: r }
    }

    /// The file of statement nodes: the node trait, the visitor trait and a
    /// struct for each statement kind (see [`stmt_ast_text`]), to be written
    /// to `<dir>/<base in lowercase>.rs`.
    pub fn define_stmt_ast(&self, base_name: &str, types: &Vec<(&str, Vec<(&str, &str)>)>) -> (r: AstFile)
        ensures
            r.path@ == ast_file_path(self@, base_name@),
            r.contents@ == stmt_ast_text(base_name@, types_view(types@)),
    {
        let path = self.file_path(base_name);
        let mut r = text("use crate::ast::expr::Expr;\n");
        append(&mut r, "use crate::token;\n");
        append(&mut r, "use std::fmt::{Display, Formatter, Result};\n");
        append(&mut r, "use std::marker;\n");
        append(&mut r, "\n");
        // Expr
        let t = self.define_trait(base_name, "<T, U: Visitor<T, V>, V>", "&mut U");
        append(&mut r, t.as_str());
        // Visitor
        let v = self.define_stmt_visitor(base_name, types);
        append(&mut r, v.as_str());
        // Types
        let d = self.define_stmt_types(base_name, types);
        append(&mut r, d.as_str());
        AstFile { path, contents: r }
    }
}

/// The texts of the first `j` items of `xs` start the texts of all of them.
proof fn lemma_concat_prefix<A>(xs: Seq<A>, j: int, f: spec_fn(A) -> Seq<char>)
    requires
        0 <= j <= xs.len(),
    ensures
        concat_each(xs.take(j), f).len() <= concat_each(xs, f).len(),
        concat_each(xs, f).subrange(0, concat_each(xs.take(j), f).len() as int) == concat_each(xs.take(j), f),
    decreases xs.len(),
{
    if j == xs.len() {
        assert(xs.take(j) =~= xs);
        assert(concat_each(xs, f).subrange(0, concat_each(xs, f).len() as int) =~= concat_each(xs, f));
    } else {
        let d = xs.drop_last();
        lemma_concat_prefix(d, j, f);
        assert(d.take(j) =~= xs.take(j));
        let c = concat_each(d, f);
        let p = concat_each(xs.take(j), f);
        assert(concat_each(xs, f) == c + f(xs.last()));
        assert((c + f(xs.last())).subrange(0, p.len() as int) =~= c.subrange(0, p.len() as int));
    }
}

/// The text of item `i` stands in the texts of all items, right after those
/// of the items before it.
proof fn lemma_concat_holds<A>(xs: Seq<A>, i: int, f: spec_fn(A) -> Seq<char>)
    requires
        0 <= i < xs.len(),
    ensures
        ({
            let k = concat_each(xs.take(i), f).len() as int;
            &&& k + f(xs[i]).len() <= concat_each(xs, f).len()
            &&& concat_each(xs, f).subrange(k, k + f(xs[i]).len()) == f(xs[i])
        }),
{
    lemma_concat_step(xs, i, f);
    lemma_concat_prefix(xs, i + 1, f);
    let a = concat_each(xs.take(i), f);
    let all = concat_each(xs, f);
    let pre = concat_each(xs.take(i + 1), f);
    assert(all.subrange(a.len() as int, (a.len() + f(xs[i]).len()) as int) =~= pre.subrange(a.len() as int, pre.len() as int));
    assert(pre.subrange(a.len() as int, pre.len() as int) =~= f(xs[i]));
}

/// The text of the fields before field `i` of a declaration.
pub open spec fn decls_before(fields: Seq<(Seq<char>, Seq<char>)>, i: int) -> Seq<char> {
    concat_each(fields.take(i), |p| field_decl(p))
}

/// Where the field lines of a declaration stand: each right after the ones
/// before it.
proof fn lemma_fields_in_declaration(text: Seq<char>, header: Seq<char>, fields: Seq<(Seq<char>, Seq<char>)>)
    requires
        text.len() >= header.len() + concat_each(fields, |p| field_decl(p)).len(),
        text.subrange(header.len() as int, (header.len() + concat_each(fields, |p| field_decl(p)).len()) as int)
            == concat_each(fields, |p| field_decl(p)),
    ensures
        forall|i: int|
            0 <= i < fields.len() ==> {
                let k = (header.len() + (#[trigger] decls_before(fields, i)).len()) as int;
                &&& k + field_line(fields[i]).len() <= header.len() + concat_each(fields, |p| field_decl(p)).len()
                &&& text.subrange(k, k + field_line(fields[i]).len()) == field_line(fields[i])
            },
{
    let d = concat_each(fields, |p| field_decl(p));
    assert forall|i: int| 0 <= i < fields.len() implies {
        let k = (header.len() + (#[trigger] decls_before(fields, i)).len()) as int;
        &&& k + field_line(fields[i]).len() <= header.len() + d.len()
        &&& text.subrange(k, k + field_line(fields[i]).len()) == field_line(fields[i])
    } by {
        lemma_concat_holds(fields, i, |p| field_decl(p));
        let k0 = decls_before(fields, i).len() as int;
        let line = field_line(fields[i]);
        assert(field_decl(fields[i]) == line);
        let k = header.len() + k0;
        assert(d.subrange(k0, k0 + line.len()) == line);
        assert(text.subrange(k, k + line.len()) =~= d.subrange(k0, k0 + line.len()));
    }
}

/// A text that starts with `a`, `b` and `c` holds each of them in turn.
proof fn lemma_prefix_parts(text: Seq<char>, a: Seq<char>, b: Seq<char>, c: Seq<char>)
    requires
        a.len() + b.len() + c.len() <= text.len(),
        text.subrange(0, (a.len() + b.len() + c.len()) as int) == a + b + c,
    ensures
        text.subrange(0, a.len() as int) == a,
        text.subrange(a.len() as int, (a.len() + b.len()) as int) == b,
        text.subrange((a.len() + b.len()) as int, (a.len() + b.len() + c.len()) as int) == c,
{
    let n = (a.len() + b.len() + c.len()) as int;
    let p = text.subrange(0, n);
    assert forall|i: int| 0 <= i < n implies text[i] == (a + b + c)[i] by {
        assert(p[i] == text[i]);
    }
    assert forall|i: int| 0 <= i < a.len() implies text.subrange(0, a.len() as int)[i] == a[i] by {
        assert((a + b + c)[i] == (a + b)[i]);
    }
    assert forall|i: int| 0 <= i < b.len() implies text.subrange(a.len() as int, (a.len() + b.len()) as int)[i]
        == b[i] by {
        assert((a + b + c)[a.len() + i] == (a + b)[a.len() + i]);
    }
    assert forall|i: int| 0 <= i < c.len() implies text.subrange(
        (a.len() + b.len()) as int,
        (a.len() + b.len() + c.len()) as int,
    )[i] == c[i] by {
        assert((a + b + c)[a.len() + b.len() + i] == c[i]);
    }
    assert(text.subrange(0, a.len() as int) =~= a);
    assert(text.subrange(a.len() as int, (a.len() + b.len()) as int) =~= b);
    assert(text.subrange((a.len() + b.len()) as int, (a.len() + b.len() + c.len()) as int) =~= c);
}

/// The line that declares a field: `    pub name: type,`.
pub open spec fn field_line(p: (Seq<char>, Seq<char>)) -> Seq<char> {
    "    pub "@ + p.0 + ": "@ + p.1 + ","@ + "\n"@
}

/// Every field given for a statement kind is declared in its struct: the text
/// opens with the struct's header, each field's line `    pub name: type,`
/// stands after that header, in the order given, and the first marker field
/// comes after all of them.
#[verifier::spinoff_prover]
#[verifier::rlimit(100)]
pub proof fn lemma_stmt_fields_declared(base_name: Seq<char>, s: Seq<char>, fields: Seq<(Seq<char>, Seq<char>)>)
    ensures
        ({
            let text = stmt_type_text(base_name, s, fields);
            let header = "pub struct "@ + s + "<T, U: ?Sized, V: ?Sized> {"@ + "\n"@;
            let marker = "    _marker_1: marker::PhantomData<T>,"@;
            let m = (header.len() + decls_before(fields, fields.len() as int).len()) as int;
            &&& text.subrange(0, header.len() as int) == header
            &&& m + marker.len() <= text.len()
            &&& text.subrange(m, m + marker.len()) == marker
            &&& forall|i: int|
                0 <= i < fields.len() ==> {
                    let k = (header.len() + (#[trigger] decls_before(fields, i)).len()) as int;
                    &&& k + field_line(fields[i]).len() <= m
                    &&& text.subrange(k, k + field_line(fields[i]).len()) == field_line(fields[i])
                }
        }),
{
    let text = stmt_type_text(base_name, s, fields);
    let header = "pub struct "@ + s + "<T, U: ?Sized, V: ?Sized> {"@ + "\n"@;
    let marker = "    _marker_1: marker::PhantomData<T>,"@;
    let d = concat_each(fields, |p| field_decl(p));
    assert(fields.take(fields.len() as int) =~= fields);
    let pre = header + d + marker;
    assert(text.subrange(0, pre.len() as int) =~= pre);
    lemma_prefix_parts(text, header, d, marker);
    lemma_fields_in_declaration(text, header, fields);
}

/// Every field given for an expression kind is declared in its struct: the text
/// opens with the struct's header, each field's line `    pub name: type,`
/// stands after that header, in the order given, and the first marker field
/// comes after all of them.
#[verifier::spinoff_prover]
#[verifier::rlimit(100)]
pub proof fn lemma_expr_fields_declared(base_name: Seq<char>, s: Seq<char>, fields: Seq<(Seq<char>, Seq<char>)>)
    ensures
        ({
            let text = expr_type_text(base_name, s, fields);
            let header = "pub struct "@ + s + "<T, V: ?Sized> {"@ + "\n"@;
            let marker = "    _marker_1: marker::PhantomData<T>,"@;
            let m = (header.len() + decls_before(fields, fields.len() as int).len()) as int;
            &&& text.subrange(0, header.len() as int) == header
            &&& m + marker.len() <= text.len()
            &&& text.subrange(m, m + marker.len()) == marker
            &&& forall|i: int|
                0 <= i < fields.len() ==> {
                    let k = (header.len() + (#[trigger] decls_before(fields, i)).len()) as int;
                    &&& k + field_line(fields[i]).len() <= m
                    &&& text.subrange(k, k + field_line(fields[i]).len()) == field_line(fields[i])
                }
        }),
{
    let text = expr_type_text(base_name, s, fields);
    let header = "pub struct "@ + s + "<T, V: ?Sized> {"@ + "\n"@;
    let marker = "    _marker_1: marker::PhantomData<T>,"@;
    let d = concat_each(fields, |p| field_decl(p));
    assert(fields.take(fields.len() as int) =~= fields);
    let pre = header + d + marker;
    assert(text.subrange(0, pre.len() as int) =~= pre);
    lemma_prefix_parts(text, header, d, marker);
    lemma_fields_in_declaration(text, header, fields);
}

} // verus!
