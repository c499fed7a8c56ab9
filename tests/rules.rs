//! The rules run on Python sources, parsed with rustpython and walked into events.

use rustpython_ast::text_size::TextRange as AstRange;
use rustpython_ast::{self as ast, Constant, Visitor};
use rustpython_parser::Parse;
use vipyrdocs::constants::{
    arg_in_docstr_msg,
    arg_not_in_docstr_msg,
    args_section_in_docstr_msg,
    args_section_not_in_docstr_msg,
    docstr_missing_msg,
    duplicate_arg_msg,
    duplicate_exc_msg,
    exc_in_docstr_msg,
    exc_not_in_docstr_msg,
    mult_args_sections_in_docstr_msg,
    mult_raises_sections_in_docstr_msg,
    mult_yields_sections_in_docstr_msg,
    raises_section_in_docstr_msg,
    raises_section_not_in_docstr_msg,
    re_raise_no_exc_in_docstr_msg,
    returns_section_in_docstr_msg,
    returns_section_not_in_docstr_msg,
    yields_section_in_docstr_msg,
    yields_section_not_in_docstr_msg,
};
use vipyrdocs::engine::check_module;
use vipyrdocs::position::TextRange;
use vipyrdocs::syntax::{
    Callee, ClassDef, Decorator, Event, ExcExpr, ExcName, FunctionDef, Param, Params, RaiseStmt,
    ReturnStmt, StringLiteral, YieldExpr,
};

fn range_of(r: AstRange) -> TextRange {
    TextRange { start: r.start().to_usize(), end: r.end().to_usize() }
}

fn decorator(e: &ast::Expr) -> Decorator {
    match e {
        ast::Expr::Name(n) => Decorator::Name(n.id.to_string()),
        ast::Expr::Attribute(a) => Decorator::Attribute {
            base: match a.value.as_ref() {
                ast::Expr::Name(n) => Some(n.id.to_string()),
                _ => None,
            },
            attr: a.attr.to_string(),
        },
        ast::Expr::Call(c) => match c.func.as_ref() {
            ast::Expr::Name(n) => Decorator::CallName(n.id.to_string()),
            ast::Expr::Attribute(a) => Decorator::CallAttribute(a.attr.to_string()),
            _ => Decorator::Other,
        },
        _ => Decorator::Other,
    }
}

fn param(a: &ast::Arg) -> Param {
    Param { name: a.arg.to_string(), range: range_of(a.range) }
}

fn params(a: &ast::Arguments) -> Params {
    Params {
        posonlyargs: a.posonlyargs.iter().map(|p| param(&p.def)).collect(),
        args: a.args.iter().map(|p| param(&p.def)).collect(),
        vararg: a.vararg.as_deref().map(param),
        kwonlyargs: a.kwonlyargs.iter().map(|p| param(&p.def)).collect(),
        kwarg: a.kwarg.as_deref().map(param),
    }
}

fn exc_name(name: &str, range: AstRange) -> ExcName {
    ExcName { name: name.to_string(), range: range_of(range) }
}

fn exc_expr(e: &ast::Expr) -> ExcExpr {
    match e {
        ast::Expr::Name(n) => ExcExpr::Name(exc_name(n.id.as_str(), n.range)),
        ast::Expr::Attribute(a) => ExcExpr::Attribute(exc_name(a.attr.as_str(), a.range)),
        ast::Expr::Call(c) => ExcExpr::Call(match c.func.as_ref() {
            ast::Expr::Name(n) => Callee::Name(exc_name(n.id.as_str(), n.range)),
            ast::Expr::Attribute(a) => Callee::Attribute(exc_name(a.attr.as_str(), a.range)),
            _ => Callee::Other,
        }),
        ast::Expr::NamedExpr(n) => match n.target.as_ref() {
            ast::Expr::Name(t) => ExcExpr::Named(exc_name(t.id.as_str(), t.range)),
            _ => ExcExpr::Other,
        },
        _ => ExcExpr::Other,
    }
}

/// Collects the events of a walk over statements, in source order.
#[derive(Default)]
struct Walker {
    events: Vec<Event>,
}

impl Walker {
    fn function(
        &mut self,
        name: &str,
        args: &ast::Arguments,
        decorators: &[ast::Expr],
        range: AstRange,
        is_async: bool,
        body: Vec<ast::Stmt>,
    ) {
        self.events.push(Event::FunctionStart(FunctionDef {
            name: name.to_string(),
            params: params(args),
            decorators: decorators.iter().map(decorator).collect(),
            range: range_of(range),
            is_async,
        }));
        for s in body {
            self.visit_stmt(s);
        }
        self.events.push(Event::End);
    }
}

// Walks through rustpython's `Visitor`, an outside trait that the verified library cannot
// implement or call through.
impl Visitor for Walker {
    fn visit_stmt(&mut self, node: ast::Stmt) {
        match node {
            ast::Stmt::FunctionDef(d) => {
                self.function(d.name.as_str(), &d.args, &d.decorator_list, d.range, false, d.body)
            }
            ast::Stmt::AsyncFunctionDef(d) => {
                self.function(d.name.as_str(), &d.args, &d.decorator_list, d.range, true, d.body)
            }
            ast::Stmt::ClassDef(c) => {
                self.events.push(Event::ClassStart(ClassDef {
                    name: c.name.to_string(),
                    range: range_of(c.range),
                }));
                for s in c.body {
                    self.visit_stmt(s);
                }
                self.events.push(Event::End);
            }
            ast::Stmt::Return(r) => {
                self.events.push(Event::Return(ReturnStmt {
                    range: range_of(r.range),
                    has_value: r.value.is_some(),
                }));
                if let Some(v) = r.value {
                    self.visit_expr(*v);
                }
            }
            ast::Stmt::Raise(r) => {
                self.events.push(Event::Raise(RaiseStmt {
                    range: range_of(r.range),
                    exc: r.exc.as_deref().map(exc_expr),
                }));
                if let Some(e) = r.exc {
                    self.visit_expr(*e);
                }
                if let Some(c) = r.cause {
                    self.visit_expr(*c);
                }
            }
            ast::Stmt::Expr(e) => match e.value.as_ref() {
                ast::Expr::Constant(ast::ExprConstant { value: Constant::Str(s), range, .. }) => {
                    self.events.push(Event::StringStatement(StringLiteral {
                        value: s.clone(),
                        range: range_of(*range),
                    }));
                }
                _ => {
                    self.events.push(Event::Statement);
                    self.visit_expr(*e.value);
                }
            },
            other => {
                self.events.push(Event::Statement);
                self.generic_visit_stmt(other);
            }
        }
    }

    fn visit_expr_yield(&mut self, node: ast::ExprYield) {
        self.events.push(Event::Yield(YieldExpr { range: range_of(node.range), is_from: false }));
        if let Some(v) = node.value {
            self.visit_expr(*v);
        }
    }

    fn visit_expr_yield_from(&mut self, node: ast::ExprYieldFrom) {
        self.events.push(Event::Yield(YieldExpr { range: range_of(node.range), is_from: true }));
        self.visit_expr(*node.value);
    }
}

/// Parses `code` and walks its statements. A parse failure is reported, never read as an
/// empty module.
fn events_of(code: &str, file_name: Option<&str>) -> Result<Vec<Event>, String> {
    let path = file_name.unwrap_or("<embedded>");
    let suite = ast::Suite::parse(code, path).map_err(|e| e.to_string())?;
    let mut walker = Walker::default();
    for stmt in suite {
        walker.visit_stmt(stmt);
    }
    Ok(walker.events)
}

fn lint_named(code: &str, file_name: Option<&str>) -> Vec<String> {
    let events = events_of(code, file_name).expect("the source parses");
    check_module(&events, &code.as_bytes().to_vec(), file_name)
}

fn lint(code: &str) -> Vec<String> {
    lint_named(code, None)
}

fn general_test(code: &str, expected: Vec<String>) {
    let output = lint(code);
    assert_eq!(output.len(), expected.len(), "output: {:#?}", output);
    for (index, exp) in expected.iter().enumerate() {
        assert_eq!(
            &output[index], exp,
            "Mismatch at output index {}: got `{}`, expected `{}`",
            index, output[index], exp
        );
    }
}

#[test]
fn test_rule_20_function_has_single_arg_docstring_no_args_section() {
    let code: &str = r#"
def function_1(arg_1):
    """Docstring 1."""
"#;
    let expected: Vec<String> = vec![format!("3:4 {}", args_section_not_in_docstr_msg())];
    general_test(code, expected);
}

#[test]
fn test_rule_20_multiple_function_has_single_arg_docstring_no_args_section() {
    let code: &str = r#"
def function_1(arg_1):
    """Docstring 1."""

def function_2(arg_2):
    """Docstring 2."""
"#;
    let expected: Vec<String> = vec![
        format!("3:4 {}", args_section_not_in_docstr_msg()),
        format!("6:4 {}", args_section_not_in_docstr_msg()),
    ];
    general_test(code, expected);
}

#[test]
fn test_rule_20_method_has_single_arg_docstring_no_args_section() {
    let code: &str = r#"
class Class1:
    """Docstring."""
    def function_1(self, arg_1):
        """Docstring 1."""
"#;
    let expected: Vec<String> = vec![format!("5:8 {}", args_section_not_in_docstr_msg())];
    general_test(code, expected);
}

#[test]
fn test_rule_21_function_has_no_args_docstring_args_section() {
    let code: &str = r#"
def function_1():
    """Docstring 1.

    Args:
    """
"#;
    let expected: Vec<String> = vec![format!("3:4 {}", args_section_in_docstr_msg())];
    general_test(code, expected);
}

#[test]
fn test_rule_21_private_function_has_no_args_docstring_args_section() {
    let code: &str = r#"
def _function_1():
    """Docstring 1.

    Args:
    """
"#;
    let expected: Vec<String> = vec![format!("3:4 {}", args_section_in_docstr_msg())];
    general_test(code, expected);
}

#[test]
fn test_rule_21_function_has_single_unused_arg_docstring_args() {
    let code: &str = r#"
def function_1(_arg_1):
    """Docstring 1.

    Args:
    """
"#;
    let expected: Vec<String> = vec![format!("3:4 {}", args_section_in_docstr_msg())];
    general_test(code, expected);
}

#[test]
fn test_rule_22_function_has_single_args_docstring_multiple_args_sections_same_name() {
    let code: &str = r#"
def function_1(arg_1):
    """Docstring 1.

    Args:
arg_1:

    Args:
arg_1:
    """
"#;
    // Each spelling of the repeated section is listed once.
    let expected: Vec<String> = vec![format!(
        "3:4 {}",
        mult_args_sections_in_docstr_msg(&"Args".to_string())
    )];
    general_test(code, expected);
}

#[test]
fn test_rule_22_function_has_single_args_docstring_multiple_args_sections_different_name() {
    let code: &str = r#"
def function_1(arg_1):
    """Docstring 1.

    Args:
arg_1:

    Arguments:
arg_1:
    """
"#;
    let expected: Vec<String> = vec![format!(
        "3:4 {}",
        mult_args_sections_in_docstr_msg(&"Args,Arguments".to_string())
    )];
    general_test(code, expected);
}

#[test]
fn test_rule_23_function_has_single_arg_docstring_no_arg() {
    let code: &str = r#"
def function_1(arg_1):
    """Docstring 1.

    Args:
    """
"#;
    let expected: Vec<String> = vec![format!("2:15 {}", arg_not_in_docstr_msg("arg_1"))];
    general_test(code, expected);
}

#[test]
fn test_rule_23_async_function_has_single_arg_docstring_no_arg() {
    let code: &str = r#"
async def function_1(arg_1):
    """Docstring 1.

    Args:
    """
"#;
    let expected: Vec<String> = vec![format!("2:21 {}", arg_not_in_docstr_msg("arg_1"))];
    general_test(code, expected);
}

#[test]
fn test_rule_23_function_single_positional_only_arg_docstring_no_arg() {
    let code: &str = r#"
def function_1(arg_1, /):
    """Docstring 1.

    Args:
    """
"#;
    let expected: Vec<String> = vec![format!("2:15 {}", arg_not_in_docstr_msg("arg_1"))];
    general_test(code, expected);
}

#[test]
fn test_rule_23_function_multiple_positional_only_args_docstring_no_arg() {
    let code: &str = r#"
def function_1(arg_1, arg_2, /):
    """Docstring 1.

    Args:
    """
"#;
    let expected: Vec<String> = vec![
        format!("2:15 {}", arg_not_in_docstr_msg("arg_1")),
        format!("2:22 {}", arg_not_in_docstr_msg("arg_2")),
    ];
    general_test(code, expected);
}

#[test]
fn test_rule_23_method_single_positional_only_arg_docstring_no_arg() {
    let code: &str = r#"
class Class1:
    """Docstring."""
    def function_1(self, arg_1, /):
        """Docstring 1.

        Args:
        """
"#;
    let expected: Vec<String> = vec![format!("4:25 {}", arg_not_in_docstr_msg("arg_1"))];
    general_test(code, expected);
}

#[test]
fn test_rule_23_function_single_kwonly_arg_docstring_no_arg() {
    let code: &str = r#"
def function_1(*, arg_1):
    """Docstring 1.

    Args:
    """
"#;
    let expected: Vec<String> = vec![format!("2:18 {}", arg_not_in_docstr_msg("arg_1"))];
    general_test(code, expected);
}

#[test]
fn test_rule_23_function_multiple_kwonly_args_docstring_no_arg() {
    let code: &str = r#"
def function_1(*, arg_1, arg_2):
    """Docstring 1.

    Args:
    """
"#;
    let expected: Vec<String> = vec![
        format!("2:18 {}", arg_not_in_docstr_msg("arg_1")),
        format!("2:25 {}", arg_not_in_docstr_msg("arg_2")),
    ];
    general_test(code, expected);
}

#[test]
fn test_rule_23_method_single_kwonly_arg_docstring_no_arg() {
    let code: &str = r#"
class Class1:
    """Docstring."""
    def function_1(self, *, arg_1):
        """Docstring 1.

        Args:
        """
"#;
    let expected: Vec<String> = vec![format!("4:28 {}", arg_not_in_docstr_msg("arg_1"))];
    general_test(code, expected);
}

#[test]
fn test_rule_23_function_with_args_docstring_no_arg() {
    let code: &str = r#"
def function_1(*args):
    """Docstring 1.

    Args:
    """
"#;
    let expected: Vec<String> = vec![format!("2:16 {}", arg_not_in_docstr_msg("args"))];
    general_test(code, expected);
}

#[test]
fn test_rule_23_function_with_kwargs_docstring_no_arg() {
    let code: &str = r#"
def function_1(**kwargs):
    """Docstring 1.

    Args:
    """
"#;
    let expected: Vec<String> = vec![format!("2:17 {}", arg_not_in_docstr_msg("kwargs"))];
    general_test(code, expected);
}

#[test]
fn test_rule_23_function_with_args_and_kwargs_docstring_no_arg() {
    let code: &str = r#"
def function_1(*args, **kwargs):
    """Docstring 1.

    Args:
    """
"#;
    let expected: Vec<String> = vec![
        format!("2:16 {}", arg_not_in_docstr_msg("args")),
        format!("2:24 {}", arg_not_in_docstr_msg("kwargs")),
    ];
    general_test(code, expected);
}

#[test]
fn test_rule_23_function_with_args_and_kwonly_docstring_no_arg() {
    let code: &str = r#"
def function_1(*args, arg_1):
    """Docstring 1.

    Args:
    """
"#;
    let expected: Vec<String> = vec![
        format!("2:16 {}", arg_not_in_docstr_msg("args")),
        format!("2:22 {}", arg_not_in_docstr_msg("arg_1")),
    ];
    general_test(code, expected);
}

#[test]
fn test_rule_23_function_multiple_args_docstring_no_args() {
    let code: &str = r#"
def function_1(arg_1, arg_2):
    """Docstring 1.

    Args:
    """
"#;
    let expected: Vec<String> = vec![
        format!("2:15 {}", arg_not_in_docstr_msg("arg_1")),
        format!("2:22 {}", arg_not_in_docstr_msg("arg_2")),
    ];
    general_test(code, expected);
}

#[test]
fn test_rule_23_function_args_first_ignored_docstring_no_arg() {
    let code: &str = r#"
def function_1(_arg_1, arg_2):
    """Docstring 1.

    Args:
    """
"#;
    let expected: Vec<String> = vec![format!("2:23 {}", arg_not_in_docstr_msg("arg_2"))];
    general_test(code, expected);
}

#[test]
fn test_rule_23_function_args_second_ignored_docstring_no_arg() {
    let code: &str = r#"
def function_1(arg_1, _arg_2):
    """Docstring 1.

    Args:
    """
"#;
    let expected: Vec<String> = vec![format!("2:15 {}", arg_not_in_docstr_msg("arg_1"))];
    general_test(code, expected);
}

#[test]
fn test_rule_23_function_docstring_has_first_arg_only() {
    let code: &str = r#"
def function_1(arg_1, arg_2):
    """Docstring 1.

    Args:
        arg_1:
    """
"#;
    let expected: Vec<String> = vec![format!("2:22 {}", arg_not_in_docstr_msg("arg_2"))];
    general_test(code, expected);
}

#[test]
fn test_rule_23_function_docstring_has_second_arg_only() {
    let code: &str = r#"
def function_1(arg_1, arg_2):
    """Docstring 1.

    Args:
        arg_2:
    """
"#;
    let expected: Vec<String> = vec![format!("2:15 {}", arg_not_in_docstr_msg("arg_1"))];
    general_test(code, expected);
}

#[test]
fn test_rule_24_function_has_single_arg_docstring_arg_different() {
    let code: &str = r#"
def function_1(arg_1):
    """Docstring 1.

    Args:
        arg_2:
    """
"#;
    let expected: Vec<String> = vec![
        format!("2:15 {}", arg_not_in_docstr_msg("arg_1")),
        format!("6:8 {}", arg_in_docstr_msg("arg_2")),
    ];
    general_test(code, expected);
}

#[test]
fn test_rule_24_function_single_arg_docstring_multiple_args_different() {
    let code: &str = r#"
def function_1(arg_1):
    """Docstring 1.

    Args:
        arg_2:
        arg_3:
    """
"#;
    let expected: Vec<String> = vec![
        format!("2:15 {}", arg_not_in_docstr_msg("arg_1")),
        format!("6:8 {}", arg_in_docstr_msg("arg_2")),
        format!("7:8 {}", arg_in_docstr_msg("arg_3")),
    ];
    general_test(code, expected);
}

#[test]
fn test_rule_24_function_multiple_arg_docstring_multiple_args_different() {
    let code: &str = r#"
def function_1(arg_1, arg_2):
    """Docstring 1.

    Args:
        arg_3:
        arg_4:
    """
"#;
    let expected: Vec<String> = vec![
        format!("2:15 {}", arg_not_in_docstr_msg("arg_1")),
        format!("2:22 {}", arg_not_in_docstr_msg("arg_2")),
        format!("6:8 {}", arg_in_docstr_msg("arg_3")),
        format!("7:8 {}", arg_in_docstr_msg("arg_4")),
    ];
    general_test(code, expected);
}

#[test]
fn test_rule_24_function_multiple_arg_docstring_multiple_args_first_different() {
    let code: &str = r#"
def function_1(arg_1, arg_2):
    """Docstring 1.

    Args:
        arg_3:
        arg_2:
    """
"#;
    let expected: Vec<String> = vec![
        format!("2:15 {}", arg_not_in_docstr_msg("arg_1")),
        format!("6:8 {}", arg_in_docstr_msg("arg_3")),
    ];
    general_test(code, expected);
}

#[test]
fn test_rule_24_function_multiple_arg_docstring_multiple_args_last_different() {
    let code: &str = r#"
def function_1(arg_1, arg_2):
    """Docstring 1.

    Args:
        arg_1:
        arg_3:
    """
"#;
    let expected: Vec<String> = vec![
        format!("2:22 {}", arg_not_in_docstr_msg("arg_2")),
        format!("7:8 {}", arg_in_docstr_msg("arg_3")),
    ];
    general_test(code, expected);
}

#[test]
fn test_rule_25_function_single_arg_docstring_duplicate_arg() {
    let code: &str = r#"
def function_1(arg_1):
    """Docstring 1.

    Args:
        arg_1:
        arg_1:
    """
"#;
    let expected: Vec<String> = vec![format!("3:4 {}", duplicate_arg_msg("arg_1"))];
    general_test(code, expected);
}

#[test]
fn test_rule_25_function_single_unused_arg_docstring_duplicate_arg() {
    let code: &str = r#"
def function_1(_arg_1):
    """Docstring 1.

    Args:
        _arg_1:
        _arg_1:
    """
"#;
    let expected: Vec<String> = vec![format!("3:4 {}", duplicate_arg_msg("_arg_1"))];
    general_test(code, expected);
}

#[test]
fn test_rule_25_function_single_arg_docstring_duplicate_arg_many() {
    let code: &str = r#"
def function_1(arg_1):
    """Docstring 1.

    Args:
        arg_1:
        arg_1:
        arg_1:
    """
"#;
    let expected: Vec<String> = vec![format!("3:4 {}", duplicate_arg_msg("arg_1"))];
    general_test(code, expected);
}

#[test]
fn test_rule_25_function_multiple_arg_docstring_duplicate_arg_first() {
    let code: &str = r#"
def function_1(arg_1, arg_2):
    """Docstring 1.

    Args:
        arg_1:
        arg_1:
        arg_2:
    """
"#;
    let expected: Vec<String> = vec![format!("3:4 {}", duplicate_arg_msg("arg_1"))];
    general_test(code, expected);
}

#[test]
fn test_rule_25_function_multiple_arg_docstring_duplicate_arg_second() {
    let code: &str = r#"
def function_1(arg_1, arg_2):
    """Docstring 1.

    Args:
        arg_1:
        arg_2:
        arg_2:
    """
"#;
    let expected: Vec<String> = vec![format!("3:4 {}", duplicate_arg_msg("arg_2"))];
    general_test(code, expected);
}

#[test]
fn test_rule_25_function_multiple_arg_docstring_duplicate_arg_all() {
    let code: &str = r#"
def function_1(arg_1, arg_2):
    """Docstring 1.

    Args:
        arg_1:
        arg_1:
        arg_2:
        arg_2:
    """
"#;
    let expected: Vec<String> = vec![
        format!("3:4 {}", duplicate_arg_msg("arg_1")),
        format!("3:4 {}", duplicate_arg_msg("arg_2")),
    ];
    general_test(code, expected);
}

#[test]
fn test_rule_25_method_single_arg_docstring_single_arg_duplicate() {
    let code: &str = r#"
class Class1:
    """Docstring."""
    def function_1(self, arg_1):
        """Docstring 1.

        Args:
            arg_1:
            arg_1:
        """
"#;
    let expected: Vec<String> = vec![format!("5:8 {}", duplicate_arg_msg("arg_1"))];
    general_test(code, expected);
}

#[test]
fn test_rule_2x_function_single_arg_docstring_single_arg() {
    let code: &str = r#"
def function_1(arg_1):
    """Docstring 1.

    Args:
        arg_1:
    """
"#;
    let expected: Vec<String> = vec![];
    general_test(code, expected);
}

#[test]
fn test_rule_2x_private_function_single_arg_docstring_single_arg() {
    let code: &str = r#"
def _function_1(arg_1):
    """Docstring 1.

    Args:
        arg_1:
    """
"#;
    let expected: Vec<String> = vec![];
    general_test(code, expected);
}

#[test]
fn test_rule_2x_function_single_unused_arg_docstring_single_arg() {
    let code: &str = r#"
def function_1(_arg_1):
    """Docstring 1.

    Args:
        _arg_1:
    """
"#;
    let expected: Vec<String> = vec![];
    general_test(code, expected);
}

#[test]
fn test_rule_2x_private_function_single_arg_docstring_no_arg() {
    let code: &str = r#"
def _function_1(arg_1):
    """Docstring 1."""
"#;
    let expected: Vec<String> = vec![];
    general_test(code, expected);
}

#[test]
fn test_rule_2x_function_single_unused_arg_docstring_no_args() {
    let code: &str = r#"
def function_1(_arg_1):
    """Docstring 1."""
"#;
    let expected: Vec<String> = vec![];
    general_test(code, expected);
}

#[test]
fn test_rule_2x_function_single_unused_args_vararg_docstring_single_arg() {
    let code: &str = r#"
def function_1(*_args):
    """Docstring 1.

    Args:
        _args:
    """
"#;
    let expected: Vec<String> = vec![];
    general_test(code, expected);
}

#[test]
fn test_rule_2x_function_single_unused_args_vararg_docstring_no_args() {
    let code: &str = r#"
def function_1(*_args):
    """Docstring 1."""
"#;
    let expected: Vec<String> = vec![];
    general_test(code, expected);
}

#[test]
fn test_rule_2x_function_single_unused_kwargs_docstring_single_arg() {
    let code: &str = r#"
def function_1(**_kwargs):
    """Docstring 1.

    Args:
        _kwargs:
    """
"#;
    let expected: Vec<String> = vec![];
    general_test(code, expected);
}

#[test]
fn test_rule_2x_function_single_unused_kwargs_docstring_no_args() {
    let code: &str = r#"
def function_1(**_kwargs):
    """Docstring 1."""
"#;
    let expected: Vec<String> = vec![];
    general_test(code, expected);
}

#[test]
fn test_rule_2x_function_varargs_docstring_varargs() {
    let code: &str = r#"
def function_1(*args):
    """Docstring 1.

    Args:
        args:
    """
"#;
    let expected: Vec<String> = vec![];
    general_test(code, expected);
}

#[test]
fn test_rule_2x_function_kwargs_docstring_kwargs() {
    let code: &str = r#"
def function_1(**kwargs):
    """Docstring 1.

    Args:
        kwargs:
    """
"#;
    let expected: Vec<String> = vec![];
    general_test(code, expected);
}

#[test]
fn test_rule_2x_function_varargs_kwargs_docstring_both() {
    let code: &str = r#"
def function_1(*args, **kwargs):
    """Docstring 1.

    Args:
        args:
        kwargs:
    """
"#;
    let expected: Vec<String> = vec![];
    general_test(code, expected);
}

#[test]
fn test_rule_2x_function_multiple_args_docstring_multiple_args() {
    let code: &str = r#"
def function_1(arg_1, arg_2):
    """Docstring 1.

    Args:
        arg_1:
        arg_2:
    """
"#;
    let expected: Vec<String> = vec![];
    general_test(code, expected);
}

#[test]
fn test_rule_2x_function_multiple_args_first_unused_docstring_second_arg() {
    let code: &str = r#"
def function_1(_arg_1, arg_2):
    """Docstring 1.

    Args:
        arg_2:
    """
"#;
    let expected: Vec<String> = vec![];
    general_test(code, expected);
}

#[test]
fn test_rule_2x_function_multiple_args_second_unused_docstring_first_arg() {
    let code: &str = r#"
def function_1(arg_1, _arg_2):
    """Docstring 1.

    Args:
        arg_1:
    """
"#;
    let expected: Vec<String> = vec![];
    general_test(code, expected);
}

#[test]
fn test_rule_2x_method_single_arg_docstring_single_arg() {
    let code: &str = r#"
class Class1:
    """Docstring."""
    def function_1(self, arg_1):
        """Docstring 1.

        Args:
            arg_1:
        """
"#;
    let expected: Vec<String> = vec![];
    general_test(code, expected);
}

#[test]
fn test_rule_2x_method_single_arg_docstring_single_arg_staticmethod() {
    let code: &str = r#"
class Class1:
    """Docstring."""
    @staticmethod
    def function_1(arg_1):
        """Docstring 1.

        Args:
            arg_1:
        """
"#;
    let expected: Vec<String> = vec![];
    general_test(code, expected);
}

#[test]
fn test_rule_2x_method_single_arg_docstring_single_arg_classmethod() {
    let code: &str = r#"
class Class1:
    """Docstring."""
    @classmethod
    def function_1(cls, arg_1):
        """Docstring 1.

        Args:
            arg_1:
        """
"#;
    let expected: Vec<String> = vec![];
    general_test(code, expected);
}

#[test]
fn test_rule_40_function_single_yield_value_yields_not_in_docstring() {
    let code: &str = r#"
def function_1():
    """Docstring."""
    yield 1
"#;
    let expected: Vec<String> = vec![format!("4:4 {}", yields_section_not_in_docstr_msg())];
    general_test(code, expected);
}

#[test]
fn test_rule_40_private_function_single_yield_value_yields_not_in_docstring() {
    let code: &str = r#"
def _function_1():
    """Docstring."""
    yield 1
"#;
    let expected: Vec<String> = Vec::new();
    general_test(code, expected);
}

#[test]
fn test_rule_40_function_single_yield_from_value_yields_not_in_docstring() {
    let code: &str = r#"
def function_1():
    """Docstring."""
    yield from tuple()
"#;
    let expected: Vec<String> = vec![format!("4:4 {}", yields_section_not_in_docstr_msg())];
    general_test(code, expected);
}

#[test]
fn test_rule_40_function_single_falsely_yield_value_yields_not_in_docstring() {
    let code: &str = r#"
def function_1():
    """Docstring."""
    yield 0
"#;
    let expected: Vec<String> = vec![format!("4:4 {}", yields_section_not_in_docstr_msg())];
    general_test(code, expected);
}

#[test]
fn test_rule_40_function_single_none_yield_value_yields_not_in_docstring() {
    let code: &str = r#"
def function_1():
    """Docstring."""
    yield None
"#;
    let expected: Vec<String> = vec![format!("4:4 {}", yields_section_not_in_docstr_msg())];
    general_test(code, expected);
}

#[test]
fn test_rule_40_async_function_single_yield_value_yields_not_in_docstring() {
    let code: &str = r#"
async def function_1():
    """Docstring."""
    yield 1
"#;
    let expected: Vec<String> = vec![format!("4:4 {}", yields_section_not_in_docstr_msg())];
    general_test(code, expected);
}

#[test]
fn test_rule_40_method_single_yield_value_yields_not_in_docstring() {
    let code: &str = r#"
class FooClass:
    """Docstring."""
    def function_1(self):
        """Docstring."""
        yield 1
"#;
    let expected: Vec<String> = vec![format!("6:8 {}", yields_section_not_in_docstr_msg())];
    general_test(code, expected);
}

#[test]
fn test_rule_40_function_single_nested_yield_value_yields_not_in_docstring() {
    let code: &str = r#"
def function_1():
    """Docstring."""
    if True:
        yield 1
"#;
    let expected: Vec<String> = vec![format!("5:8 {}", yields_section_not_in_docstr_msg())];
    general_test(code, expected);
}

#[test]
fn test_rule_40_function_multiple_yield_values_yields_not_in_docstring() {
    let code: &str = r#"
def function_1():
    """Docstring."""
    yield 11
    yield 12
"#;
    let expected: Vec<String> = vec![
        format!("4:4 {}", yields_section_not_in_docstr_msg()),
        format!("5:4 {}", yields_section_not_in_docstr_msg()),
    ];
    general_test(code, expected);
}

#[test]
fn test_rule_40_function_multiple_yield_first_value_yields_not_in_docstring() {
    let code: &str = r#"
def function_1():
    """Docstring."""
    yield 11
    yield
"#;
    let expected: Vec<String> = vec![format!("4:4 {}", yields_section_not_in_docstr_msg())];
    general_test(code, expected);
}

#[test]
fn test_rule_40_function_multiple_yield_second_value_yields_not_in_docstring() {
    let code: &str = r#"
def function_1():
    """Docstring."""
    yield
    yield 12
"#;
    let expected: Vec<String> = vec![format!("5:4 {}", yields_section_not_in_docstr_msg())];
    general_test(code, expected);
}

#[test]
fn test_rule_40_function_multiple_yield_from_values_yields_not_in_docstring() {
    let code: &str = r#"
def function_1():
    """Docstring."""
    yield from tuple()
    yield from list()
"#;
    let expected: Vec<String> = vec![
        format!("4:4 {}", yields_section_not_in_docstr_msg()),
        format!("5:4 {}", yields_section_not_in_docstr_msg()),
    ];
    general_test(code, expected);
}

#[test]
fn test_rule_40_function_multiple_yield_from_first_value_yields_not_in_docstring() {
    let code: &str = r#"
def function_1():
    """Docstring."""
    yield from tuple()
    yield
"#;
    let expected: Vec<String> = vec![format!("4:4 {}", yields_section_not_in_docstr_msg())];
    general_test(code, expected);
}

#[test]
fn test_rule_40_function_multiple_yield_from_second_value_yields_not_in_docstring() {
    let code: &str = r#"
def function_1():
    """Docstring."""
    yield
    yield from list()
"#;
    let expected: Vec<String> = vec![format!("5:4 {}", yields_section_not_in_docstr_msg())];
    general_test(code, expected);
}

#[test]
fn test_rule_41_function_no_yield_yields_in_docstring() {
    let code: &str = r#"
def function_1():
    """Docstring.

    Yields:
    """
"#;
    let expected: Vec<String> = vec![format!("3:4 {}", yields_section_in_docstr_msg())];
    general_test(code, expected);
}

#[test]
fn test_rule_41_private_function_no_yield_yields_in_docstring() {
    let code: &str = r#"
def _function_1():
    """Docstring.

    Yields:
    """
"#;
    let expected: Vec<String> = vec![format!("3:4 {}", yields_section_in_docstr_msg())];
    general_test(code, expected);
}

#[test]
fn test_rule_41_method_no_yield_yields_in_docstring() {
    let code: &str = r#"
class Class1:
    """Docstring."""
    def function_1():
        """Docstring.

        Yields:
        """
"#;
    let expected: Vec<String> = vec![format!("5:8 {}", yields_section_in_docstr_msg())];
    general_test(code, expected);
}

#[test]
fn test_rule_41_function_yield_no_value_yields_in_docstring() {
    let code: &str = r#"
def function_1():
    """Docstring.

    Yields:
    """
    yield
"#;
    let expected: Vec<String> = vec![format!("3:4 {}", yields_section_in_docstr_msg())];
    general_test(code, expected);
}

#[test]
fn test_rule_42_function_yield_multiple_yields_in_docstring() {
    let code: &str = r#"
def function_1():
    """Docstring.

    Yields:

    Yields:
    """
    yield 1
"#;
    // Each spelling of the repeated section is listed once.
    let expected: Vec<String> = vec![format!(
        "3:4 {}",
        mult_yields_sections_in_docstr_msg(&"Yields".to_string())
    )];
    general_test(code, expected);
}

#[test]
fn test_rule_42_function_yield_from_multiple_yields_in_docstring() {
    let code: &str = r#"
def function_1():
    """Docstring.

    Yields:

    Yields:
    """
    yield from tuple()
"#;
    // Each spelling of the repeated section is listed once.
    let expected: Vec<String> = vec![format!(
        "3:4 {}",
        mult_yields_sections_in_docstr_msg(&"Yields".to_string())
    )];
    general_test(code, expected);
}

#[test]
fn test_rule_42_method_yield_multiple_yields_in_docstring() {
    let code: &str = r#"
class Class1:
    """Docstring."""
    def function_1():
        """Docstring.

        Yields:

        Yields:
        """
        yield 1
"#;
    // Each spelling of the repeated section is listed once.
    let expected: Vec<String> = vec![format!(
        "5:8 {}",
        mult_yields_sections_in_docstr_msg(&"Yields".to_string())
    )];
    general_test(code, expected);
}

#[test]
fn test_rule_50_method_raises_single_exc_docstring_no_raises_section() {
    let code: &str = r#"
class Class1:
    """Docstring."""
    def function_1(self):
        """Docstring 1."""
        raise Exc1
"#;
    let expected: Vec<String> = vec![format!("6:8 {}", raises_section_not_in_docstr_msg())];
    general_test(code, expected);
}

#[test]
fn test_rule_50_function_raises_single_exc_docstring_no_raises_section() {
    let code: &str = r#"
def function_1():
    """Docstring 1."""
    raise Exc1
"#;
    let expected: Vec<String> = vec![format!("4:4 {}", raises_section_not_in_docstr_msg())];
    general_test(code, expected);
}

#[test]
fn test_rule_50_private_function_raises_single_exc_docstring_no_raises_section() {
    let code: &str = r#"
def _function_1():
    """Docstring 1."""
    raise Exc1
"#;
    let expected: Vec<String> = vec![];
    general_test(code, expected);
}

#[test]
fn test_rule_50_multiple_function_raises_single_exc_docstring_no_raises_section() {
    let code: &str = r#"
def function_1():
    """Docstring 1."""
    raise Exc1

def function_2():
    """Docstring 2."""
    raise Exc2
"#;
    let expected: Vec<String> = vec![
        format!("4:4 {}", raises_section_not_in_docstr_msg()),
        format!("8:4 {}", raises_section_not_in_docstr_msg()),
    ];
    general_test(code, expected);
}

#[test]
fn test_rule_51_function_raises_no_exc_docstring_raises_section() {
    let code: &str = r#"
def function_1():
    """Docstring 1.

    Raises:
    """
"#;
    let expected: Vec<String> = vec![format!("3:4 {}", raises_section_in_docstr_msg())];
    general_test(code, expected);
}

#[test]
fn test_rule_51_private_function_raises_no_exc_docstring_raises_section() {
    let code: &str = r#"
def _function_1():
    """Docstring 1.

    Raises:
    """
"#;
    let expected: Vec<String> = vec![format!("3:4 {}", raises_section_in_docstr_msg())];
    general_test(code, expected);
}

#[test]
fn test_rule_51_method_raises_no_exc_docstring_raises_section() {
    let code: &str = r#"
class Class1:
    """Docstring."""
    def function_1(self):
        """Docstring 1.

        Raises:
        """
"#;
    let expected: Vec<String> = vec![format!("5:8 {}", raises_section_in_docstr_msg())];
    general_test(code, expected);
}

#[test]
fn test_rule_52_function_raises_single_excs_docstring_multiple_raises_sections_same_name() {
    let code: &str = r#"
def function_1():
    """Docstring 1.

    Raises:
        Exc1:

    Raises:
        Exc1:
    """
    raise Exc1
"#;
    // Each spelling of the repeated section is listed once.
    let expected: Vec<String> = vec![format!(
        "3:4 {}",
        mult_raises_sections_in_docstr_msg("Raises")
    )];
    general_test(code, expected);
}

#[test]
fn test_rule_52_function_raises_single_excs_docstring_multiple_raises_sections_different_name() {
    let code: &str = r#"
def function_1():
    """Docstring 1.

    Raises:
        Exc1:

    Raise:
        Exc1:
    """
    raise Exc1
"#;
    let expected: Vec<String> = vec![format!(
        "3:4 {}",
        mult_raises_sections_in_docstr_msg("Raises,Raise")
    )];
    general_test(code, expected);
}

#[test]
fn test_rule_53_function_raises_single_exc_docstring_no_exc() {
    let code: &str = r#"
def function_1():
    """Docstring 1.

    Raises:
    """
    raise Exc1
"#;
    let expected: Vec<String> = vec![format!("7:10 {}", exc_not_in_docstr_msg("Exc1"))];
    general_test(code, expected);
}


#[test]
fn test_rule_53_function_raises_exc_call_docstring_no_exc() {
    let code: &str = r#"
def function_1():
    """Docstring 1.

    Raises:
    """
    raise Exc1()
"#;
    let expected: Vec<String> = vec![format!("7:10 {}", exc_not_in_docstr_msg("Exc1"))];
    general_test(code, expected);
}

#[test]
fn test_rule_53_function_raises_nested_exc_docstring_no_exc() {
    let code: &str = r#"
def function_1():
    """Docstring 1.

    Raises:
    """
    raise module.Exc1
"#;
    let expected: Vec<String> = vec![format!("7:17 {}", exc_not_in_docstr_msg("Exc1"))];
    general_test(code, expected);
}

#[test]
fn test_rule_53_async_function_raises_exc_docstring_no_exc() {
    let code: &str = r#"
async def function_1():
    """Docstring 1.

    Raises:
    """
    raise Exc1
"#;
    let expected: Vec<String> = vec![format!("7:10 {}", exc_not_in_docstr_msg("Exc1"))];
    general_test(code, expected);
}

#[test]
fn test_rule_53_function_raises_multiple_excs_docstring_no_exc() {
    let code: &str = r#"
def function_1():
    """Docstring 1.

    Raises:
    """
    raise Exc1
    raise Exc2
"#;
    let expected: Vec<String> = vec![
        format!("7:10 {}", exc_not_in_docstr_msg("Exc1")),
        format!("8:10 {}", exc_not_in_docstr_msg("Exc2")),
    ];
    general_test(code, expected);
}

#[test]
fn test_rule_53_nested_function_raises_docstring_no_exc_on_outer() {
    let code: &str = r#"
def function_1():
    """Docstring 1.

    Raises:
    """
    def function_2():
        """Docstring 2.

        Raises:
            Exc1:
        """
        raise Exc1
    raise Exc2
"#;
    let expected: Vec<String> = vec![format!("14:10 {}", exc_not_in_docstr_msg("Exc2"))];
    general_test(code, expected);
}

#[test]
fn test_rule_53_nested_async_function_raises_docstring_no_exc_on_outer() {
    let code: &str = r#"
def function_1():
    """Docstring 1.

    Raises:
    """
    async def function_2():
        """Docstring 2.

        Raises:
            Exc1:
        """
        raise Exc1
    raise Exc2
"#;
    let expected: Vec<String> = vec![format!("14:10 {}", exc_not_in_docstr_msg("Exc2"))];
    general_test(code, expected);
}

#[test]
fn test_rule_53_nested_class_raises_docstring_no_exc_on_outer() {
    let code: &str = r#"
def function_1():
    """Docstring 1.

    Raises:
    """
    class Class1:
        """Docstring 2."""
        raise Exc1
    raise Exc2
"#;
    let expected: Vec<String> = vec![format!("10:10 {}", exc_not_in_docstr_msg("Exc2"))];
    general_test(code, expected);
}

#[test]
fn test_rule_53_function_raises_then_nested_function() {
    let code: &str = r#"
def function_1():
    """Docstring 1.

    Raises:
    """
    raise Exc1
    def function_2():
        """Docstring 2.

        Raises:
            Exc2:
        """
        raise Exc2
"#;
    let expected: Vec<String> = vec![format!("7:10 {}", exc_not_in_docstr_msg("Exc1"))];
    general_test(code, expected);
}

#[test]
fn test_rule_53_function_multiple_excs_docstring_first() {
    let code: &str = r#"
def function_1():
    """Docstring 1.

    Raises:
        Exc1:
    """
    raise Exc1
    raise Exc2
"#;
    let expected: Vec<String> = vec![format!("9:10 {}", exc_not_in_docstr_msg("Exc2"))];
    general_test(code, expected);
}

#[test]
fn test_rule_53_function_multiple_excs_docstring_second() {
    let code: &str = r#"
def function_1():
    """Docstring 1.

    Raises:
        Exc2:
    """
    raise Exc1
    raise Exc2
"#;
    let expected: Vec<String> = vec![format!("8:10 {}", exc_not_in_docstr_msg("Exc1"))];
    general_test(code, expected);
}

#[test]
fn test_rule_53_method_raises_single_exc_docstring_no_exc() {
    let code: &str = r#"
class Class1:
    """Docstring."""
    def function_1(self):
        """Docstring 1.

        Raises:
        """
        raise Exc1
"#;
    let expected: Vec<String> = vec![format!("9:14 {}", exc_not_in_docstr_msg("Exc1"))];
    general_test(code, expected);
}

#[test]
fn test_rule_53_staticmethod_raises_single_exc_docstring_no_exc() {
    let code: &str = r#"
class Class1:
    """Docstring."""
    @staticmethod
    def function_1():
        """Docstring 1.

        Raises:
        """
        raise Exc1
"#;
    let expected: Vec<String> = vec![format!("10:14 {}", exc_not_in_docstr_msg("Exc1"))];
    general_test(code, expected);
}

#[test]
fn test_rule_53_classmethod_raises_single_exc_docstring_no_exc() {
    let code: &str = r#"
class Class1:
    """Docstring."""
    @classmethod
    def function_1(cls):
        """Docstring 1.

        Raises:
        """
        raise Exc1
"#;
    let expected: Vec<String> = vec![format!("10:14 {}", exc_not_in_docstr_msg("Exc1"))];
    general_test(code, expected);
}

#[test]
fn test_rule_54_function_raises_single_exc_docstring_exc_different() {
    let code: &str = r#"
def function_1():
    """Docstring 1.

    Raises:
        Exc2:
    """
    raise Exc1
"#;
    let expected: Vec<String> = vec![
        format!("8:10 {}", exc_not_in_docstr_msg("Exc1")),
        format!("3:4 {}", exc_in_docstr_msg("Exc2")),
    ];
    general_test(code, expected);
}

#[test]
fn test_rule_54_function_single_exc_docstring_multiple_exc_different() {
    let code: &str = r#"
def function_1():
    """Docstring 1.

    Raises:
        Exc2:
        Exc3:
    """
    raise Exc1
"#;
    let expected: Vec<String> = vec![
        format!("9:10 {}", exc_not_in_docstr_msg("Exc1")),
        format!("3:4 {}", exc_in_docstr_msg("Exc2")),
        format!("3:4 {}", exc_in_docstr_msg("Exc3")),
    ];
    general_test(code, expected);
}

#[test]
fn test_rule_54_function_multiple_exc_docstring_multiple_exc_different() {
    let code: &str = r#"
def function_1():
    """Docstring 1.

    Raises:
        Exc3:
        Exc4:
    """
    raise Exc1
    raise Exc2
"#;
    let expected: Vec<String> = vec![
        format!("9:10 {}", exc_not_in_docstr_msg("Exc1")),
        format!("10:10 {}", exc_not_in_docstr_msg("Exc2")),
        format!("3:4 {}", exc_in_docstr_msg("Exc3")),
        format!("3:4 {}", exc_in_docstr_msg("Exc4")),
    ];
    general_test(code, expected);
}

#[test]
fn test_rule_54_function_multiple_exc_docstring_multiple_exc_first_different() {
    let code: &str = r#"
def function_1():
    """Docstring 1.

    Raises:
        Exc3:
        Exc2:
    """
    raise Exc1
    raise Exc2
"#;
    let expected: Vec<String> = vec![
        format!("9:10 {}", exc_not_in_docstr_msg("Exc1")),
        format!("3:4 {}", exc_in_docstr_msg("Exc3")),
    ];
    general_test(code, expected);
}

#[test]
fn test_rule_54_function_multiple_exc_docstring_multiple_exc_last_different() {
    let code: &str = r#"
def function_1():
    """Docstring 1.

    Raises:
        Exc1:
        Exc3:
    """
    raise Exc1
    raise Exc2
"#;
    let expected: Vec<String> = vec![
        format!("10:10 {}", exc_not_in_docstr_msg("Exc2")),
        format!("3:4 {}", exc_in_docstr_msg("Exc3")),
    ];
    general_test(code, expected);
}




#[test]
fn test_rule_56_function_single_raise_docstring_raises_duplicate() {
    let code: &str = r#"
def function_1():
    """Docstring 1.

    Raises:
        Exc1:
        Exc1:
    """
    raise Exc1
"#;
    let expected: Vec<String> = vec![format!("3:4 {}", duplicate_exc_msg("Exc1"))];
    general_test(code, expected);
}

#[test]
fn test_rule_56_function_single_raise_docstring_raises_duplicate_many() {
    let code: &str = r#"
def function_1():
    """Docstring 1.

    Raises:
        Exc1:
        Exc1:
        Exc1:
    """
    raise Exc1
"#;
    let expected: Vec<String> = vec![format!("3:4 {}", duplicate_exc_msg("Exc1"))];
    general_test(code, expected);
}

#[test]
fn test_rule_56_function_multiple_raise_docstring_raises_duplicate_first() {
    let code: &str = r#"
def function_1():
    """Docstring 1.

    Raises:
        Exc1:
        Exc1:
        Exc2:
    """
    raise Exc1
    raise Exc2
"#;
    let expected: Vec<String> = vec![format!("3:4 {}", duplicate_exc_msg("Exc1"))];
    general_test(code, expected);
}

#[test]
fn test_rule_56_function_multiple_raise_docstring_raises_duplicate_second() {
    let code: &str = r#"
def function_1():
    """Docstring 1.

    Raises:
        Exc1:
        Exc2:
        Exc2:
    """
    raise Exc1
    raise Exc2
"#;
    let expected: Vec<String> = vec![format!("3:4 {}", duplicate_exc_msg("Exc2"))];
    general_test(code, expected);
}

#[test]
fn test_rule_56_function_multiple_raise_docstring_raises_duplicate_all() {
    let code: &str = r#"
def function_1():
    """Docstring 1.

    Raises:
        Exc1:
        Exc1:
        Exc2:
        Exc2:
    """
    raise Exc1
    raise Exc2
"#;
    let expected: Vec<String> = vec![
        format!("3:4 {}", duplicate_exc_msg("Exc1")),
        format!("3:4 {}", duplicate_exc_msg("Exc2")),
    ];
    general_test(code, expected);
}

#[test]
fn test_rule_5x_private_function_raises_single_exc_docstring_no_raises_section() {
    let code: &str = r#"
def _function_1():
    """Docstring 1."""
    raise Exc1
"#;
    let expected: Vec<String> = vec![];
    general_test(code, expected);
}

#[test]
fn test_rule_5x_function_single_raise_no_exc_docstring_raises_exc() {
    let code: &str = r#"
def function_1():
    """Docstring 1.

    Raises:
      Exc1:
    """
    raise
"#;
    // A raise that names no exception stays out of the comparison, so the documented
    // exception that no statement names is reported.
    let expected: Vec<String> = vec![format!("3:4 {}", exc_in_docstr_msg("Exc1"))];
    general_test(code, expected);
}

#[test]
fn test_rule_5x_private_function_single_raise_no_exc_docstring_raises_exc() {
    let code: &str = r#"
def _function_1():
    """Docstring 1.

    Raises:
      Exc1:
    """
    raise
"#;
    let expected: Vec<String> = vec![];
    general_test(code, expected);
}

#[test]
fn test_rule_5x_function_single_raise_exc_docstring_raises() {
    let code: &str = r#"
def function_1():
    """Docstring 1.

    Raises:
        Exc1:
    """
    raise Exc1
"#;
    let expected: Vec<String> = vec![];
    general_test(code, expected);
}

#[test]
fn test_rule_5x_function_single_nested_function_exc_docstring_no_raises() {
    let code: &str = r#"
def function_1():
    """Docstring 1."""
    def function_2():
        """Docstring 2.

        Raises:
            Exc1:
        """
        raise Exc1
"#;
    let expected: Vec<String> = vec![];
    general_test(code, expected);
}

#[test]
fn test_rule_5x_function_single_nested_async_function_exc_docstring_no_raises() {
    let code: &str = r#"
def function_1():
    """Docstring 1."""
    async def function_2():
        """Docstring 2.

        Raises:
            Exc1:
        """
        raise Exc1
"#;
    let expected: Vec<String> = vec![];
    general_test(code, expected);
}

#[test]
fn test_rule_5x_function_single_nested_class_exc_docstring_no_raises() {
    let code: &str = r#"
def function_1():
    """Docstring 1."""
    class Class1:
        """Docstring 2."""
        raise Exc1
"#;
    let expected: Vec<String> = vec![];
    general_test(code, expected);
}

#[test]
fn test_rule_5x_function_single_exc_call_docstring_single_exc() {
    let code: &str = r#"
def function_1():
    """Docstring 1.

    Raises:
        Exc1:
    """
    raise Exc1()
"#;
    let expected: Vec<String> = vec![];
    general_test(code, expected);
}

#[test]
fn test_rule_5x_function_single_exc_lambda_docstring_single_exc() {
    let code: &str = r#"
def function_1():
    """Docstring 1.

    Raises:
        Exc1:
    """
    raise (lambda: True)()
"#;
    // A raise that names no exception stays out of the comparison, so the documented
    // exception that no statement names is reported.
    let expected: Vec<String> = vec![format!("3:4 {}", exc_in_docstr_msg("Exc1"))];
    general_test(code, expected);
}

#[test]
fn test_rule_5x_function_single_exc_attribute_docstring_single_exc() {
    let code: &str = r#"
def function_1():
    """Docstring 1.

    Raises:
        Exc1:
    """
    raise module.Exc1
"#;
    let expected: Vec<String> = vec![];
    general_test(code, expected);
}

#[test]
fn test_rule_5x_function_single_exc_attribute_call_docstring_single_exc() {
    let code: &str = r#"
def function_1():
    """Docstring 1.

    Raises:
        Exc1:
    """
    raise module.Exc1()
"#;
    let expected: Vec<String> = vec![];
    general_test(code, expected);
}

#[test]
fn test_rule_5x_function_multiple_exc_docstring_multiple_exc() {
    let code: &str = r#"
def function_1():
    """Docstring 1.

    Raises:
        Exc1:
        Exc2:
    """
    raise Exc1
    raise Exc2
"#;
    let expected: Vec<String> = vec![];
    general_test(code, expected);
}

#[test]
fn test_rule_5x_method_single_exc_docstring_single_exc() {
    let code: &str = r#"
class Class1:
    """Docstring."""
    def function_1(self):
        """Docstring 1.

        Raises:
            Exc1:
        """
        raise Exc1
"#;
    let expected: Vec<String> = vec![];
    general_test(code, expected);
}

#[test]
fn test_rule_5x_method_single_exc_docstring_single_exc_staticmethod() {
    let code: &str = r#"
class Class1:
    """Docstring."""
    @staticmethod
    def function_1():
        """Docstring 1.

        Raises:
            Exc1:
        """
        raise Exc1
"#;
    let expected: Vec<String> = vec![];
    general_test(code, expected);
}

#[test]
fn test_rule_5x_method_single_exc_docstring_single_exc_classmethod() {
    let code: &str = r#"
class Class1:
    """Docstring."""
    @classmethod
    def function_1(cls):
        """Docstring 1.

        Raises:
            Exc1:
        """
        raise Exc1
"#;
    let expected: Vec<String> = vec![];
    general_test(code, expected);
}

#[test]
fn test_rule_31_function_return_no_value_returns_in_docstring() {
    let code: &str = r#"
def function_1():
    """Docstring.

    Returns:
    """
    return
"#;
    let expected: Vec<String> = vec![format!("3:4 {}", returns_section_in_docstr_msg())];
    general_test(code, expected);
}

#[test]
fn test_rule_30_async_function_single_return_value_returns_not_in_docstring() {
    let code: &str = r#"
async def function_1():
    """Docstring."""
    return 1
"#;
    let expected: Vec<String> = vec![format!("4:4 {}", returns_section_not_in_docstr_msg())];
    general_test(code, expected);
}

#[test]
fn test_rule_30_function_single_nested_return_str_value_returns_not_in_docstring() {
    let code: &str = r#"
def function_1():
    """Docstring."""
    if False:
        return "true"
"#;
    let expected: Vec<String> = vec![format!("5:8 {}", returns_section_not_in_docstr_msg())];
    general_test(code, expected);
}

#[test]
fn test_rule_30_function_single_nested_return_value_returns_not_in_docstring() {
    let code: &str = r#"
def function_1():
    """Docstring."""
    if True:
        return 1
"#;
    let expected: Vec<String> = vec![format!("5:8 {}", returns_section_not_in_docstr_msg())];
    general_test(code, expected);
}

#[test]
fn test_rule_30() {
    let cases: Vec<(&str, Vec<String>)> = vec![
        (
            r#"
def function_1():
    """Docstring."""
"#,
            Vec::<String>::new(),
        ),
        (
            r#"
def function_1():
    """Docstring."""
    return 1
"#,
            vec![format!("4:4 {}", returns_section_not_in_docstr_msg())],
        ),
        (
            r#"
def function_1():
    """Docstring."""
    return 0
"#,
            vec![format!("4:4 {}", returns_section_not_in_docstr_msg())],
        ),
        (
            r#"
def function_1():
    """Docstring."""
    return None
"#,
            vec![format!("4:4 {}", returns_section_not_in_docstr_msg())],
        ),
        (
            r#"
async def function_1():
    """Docstring."""
    return 1
"#,
            vec![format!("4:4 {}", returns_section_not_in_docstr_msg())],
        ),
        (
            r#"
class FooClass:
    """Docstring."""
    def function_1(self):
        """Docstring."""
        return 1
"#,
            vec![format!("6:8 {}", returns_section_not_in_docstr_msg())],
        ),
        (
            r#"
def function_1():
    """Docstring."""
    if True:
        return 1
"#,
            vec![format!("5:8 {}", returns_section_not_in_docstr_msg())],
        ),
        (
            r#"
def function_1():
    """Docstring."""
    return 11
    return 12
"#,
            vec![
        format!("4:4 {}", returns_section_not_in_docstr_msg()),
        format!("5:4 {}", returns_section_not_in_docstr_msg())
    ],
        ),
        (
            r#"
def function_1():
    """Docstring."""
    return 11
    return
"#,
            vec![format!("4:4 {}", returns_section_not_in_docstr_msg())],
        ),
        (
            r#"
def function_1():
    """Docstring."""
    return
    return 12
"#,
            vec![format!("5:4 {}", returns_section_not_in_docstr_msg())],
        ),
    ];
    for (code, expected) in cases {
        general_test(code, expected);
    }
}

#[test]
fn test_rule_31() {
    let cases: Vec<(&str, Vec<String>)> = vec![
        (
            r#"
def function_1():
    """Docstring.

    Returns:
    """
"#,
            vec![format!("3:4 {}", returns_section_in_docstr_msg())],
        ),
        (
            r#"
def _function_1():
    """Docstring.

    Returns:
    """
"#,
            vec![format!("3:4 {}", returns_section_in_docstr_msg())],
        ),
        (
            r#"
class Class1:
    """Docstring."""
    def function_1():
        """Docstring.

        Returns:
        """
"#,
            vec![format!("5:8 {}", returns_section_in_docstr_msg())],
        ),
        (
            r#"
def function_1():
    """Docstring.

    Returns:
    """
    return
"#,
            vec![format!("3:4 {}", returns_section_in_docstr_msg())],
        ),
    ];
    for (code, expected) in cases {
        general_test(code, expected);
    }
}

#[test]
fn test_lint_file() {
    let cases: Vec<(&str, Vec<String>)> = vec![
        (
            r#"
@pytest.fixture(scope="module")
def foo_prefix_call():
    pass
"#,
            Vec::new(),
        ),
        (
            r#"
@additional.pytest.fixture
def foo_nested_prefix():
    pass
"#,
            Vec::new(),
        ),
        (
            r#"
@overload
def function_1():
    ...
"#,
            Vec::new(),
        ),
        (
            r#"
def function_1():
    1
"#,
            Vec::new(),
        ),
        (
            r#"
@overload()
def function_1():
    ...
"#,
            Vec::new(),
        ),
        (
            r#"
@typing.overload
def function_1():
    ...
"#,
            Vec::new(),
        ),
    ];
    let _ = lint_named(
        r#"
@pytest.fixture(scope="module")
def foo():
    pass
"#,
        Some("conftest.py"),
    );
    for (code, expected) in cases {
        let output = lint(code);
        for index in 0..expected.len() {
            assert_eq!(output[index], expected[index]);
        }
    }
}

#[test]
fn scenario_return_value_without_returns_section() {
    let out = lint("def f():\n    \"\"\"Doc.\"\"\"\n    return 1\n");
    assert_eq!(out, vec![format!("3:4 {}", returns_section_not_in_docstr_msg())]);
}

#[test]
fn scenario_returns_section_without_return() {
    let out = lint("def f():\n    \"\"\"Doc.\n\n    Returns:\n    \"\"\"\n");
    assert_eq!(out, vec![format!("2:4 {}", returns_section_in_docstr_msg())]);
}

#[test]
fn scenario_argument_documented_twice() {
    let out = lint("def f(arg_1):\n    \"\"\"Doc.\n\n    Args:\n        arg_1:\n        arg_1:\n    \"\"\"\n");
    assert_eq!(out, vec![format!("2:4 {}", duplicate_arg_msg("arg_1"))]);
}

#[test]
fn scenario_overload_without_docstring_is_silent() {
    assert!(lint("@overload\ndef f(a):\n    return a\n").is_empty());
    assert!(lint("@typing.overload\ndef f(a):\n    raise E\n").is_empty());
}

#[test]
fn scenario_raise_without_docstring_gives_only_missing_docstring() {
    let out = lint("def f():\n    raise Exc1\n");
    assert_eq!(out, vec![format!("1:0 {}", docstr_missing_msg())]);
}

#[test]
fn no_docstring_gives_one_finding_whatever_the_body() {
    let out = lint("def f(a, b):\n    yield a\n    return b\n    raise E\n");
    assert_eq!(out, vec![format!("1:0 {}", docstr_missing_msg())]);
}

#[test]
fn same_input_gives_same_output() {
    let code = "def f(a):\n    \"\"\"Doc.\n\n    Returns:\n    \"\"\"\n    yield a\n";
    assert_eq!(lint(code), lint(code));
    assert_eq!(lint(code).len(), 3);
}

#[test]
fn fixtures_and_tests_are_exempt_in_test_files_only() {
    let code = "@pytest.fixture\ndef thing():\n    return 1\n\ndef test_a():\n    pass\n";
    assert!(lint_named(code, Some("tests/test_mod.py")).is_empty());
    assert_eq!(lint_named(code, Some("mod.py")).len(), 2);
}

#[test]
fn properties_are_exempt() {
    assert!(lint("class A:\n    \"\"\"Doc.\"\"\"\n    @property\n    def x(self):\n        return 1\n").is_empty());
    assert!(lint("@functools.cached_property\ndef x():\n    return 1\n").is_empty());
}

#[test]
fn returns_of_nested_functions_stay_with_them() {
    let code = "def f():\n    \"\"\"Doc.\"\"\"\n    def g():\n        \"\"\"Doc.\"\"\"\n        return 1\n    return\n";
    assert_eq!(lint(code), vec![format!("5:8 {}", returns_section_not_in_docstr_msg())]);
}

#[test]
fn bare_raise_needs_a_documented_exception() {
    let code = "def f():\n    \"\"\"Doc.\n\n    Raises:\n    \"\"\"\n    raise\n";
    assert_eq!(lint(code), vec![format!("6:4 {}", re_raise_no_exc_in_docstr_msg())]);
}

#[test]
fn exception_documented_twice() {
    let code = "def f():\n    \"\"\"Doc.\n\n    Raises:\n        E:\n        E:\n    \"\"\"\n    raise E\n";
    assert_eq!(lint(code), vec![format!("2:4 {}", duplicate_exc_msg("E"))]);
}

#[test]
fn every_raise_without_raises_section_is_reported() {
    let code = "def f():\n    \"\"\"Doc.\"\"\"\n    raise E\n    raise\n";
    assert_eq!(
        lint(code),
        vec![
            format!("3:4 {}", raises_section_not_in_docstr_msg()),
            format!("4:4 {}", raises_section_not_in_docstr_msg()),
            format!("4:4 {}", re_raise_no_exc_in_docstr_msg()),
        ]
    );
}

#[test]
fn a_parse_failure_is_not_an_empty_module() {
    assert!(events_of("def f(:\n", None).is_err());
}

#[test]
fn test_rule_53_function_raises_single_and_plain_raise_docstring_no_exc() {
    let code: &str = r#"
def function_1():
    """Docstring 1.

    Raises:
    """
    raise Exc1
    raise
"#;
    // A bare raise with no exception documented is reported as well.
    let expected: Vec<String> = vec![
        format!("7:10 {}", exc_not_in_docstr_msg("Exc1")),
        format!("8:4 {}", re_raise_no_exc_in_docstr_msg()),
    ];
    general_test(code, expected);
}

#[test]
fn test_rule_55_function_single_raise_no_exc_docstring_no_raises_exc() {
    let code: &str = r#"
def function_1():
    """Docstring 1."""
    raise
"#;
    // Both findings point at the raise statement itself.
    let expected: Vec<String> = vec![
        format!("4:4 {}", raises_section_not_in_docstr_msg()),
        format!("4:4 {}", re_raise_no_exc_in_docstr_msg()),
    ];
    general_test(code, expected);
}

#[test]
fn test_rule_55_method_raise_no_exc_docstring_no_raises() {
    let code: &str = r#"
class Class1:
    """Docstring."""
    def function_1(self):
        """Docstring 1."""
        raise
"#;
    // Both findings point at the raise statement itself.
    let expected: Vec<String> = vec![
        format!("6:8 {}", raises_section_not_in_docstr_msg()),
        format!("6:8 {}", re_raise_no_exc_in_docstr_msg()),
    ];
    general_test(code, expected);
}

#[test]
fn test_rule_55_function_raise_no_exc_docstring_raises_empty() {
    let code: &str = r#"
def function_1():
    """Docstring 1.

    Raises:
    """
    raise
"#;
    // The finding points at the raise statement itself.
    let expected: Vec<String> = vec![format!("7:4 {}", re_raise_no_exc_in_docstr_msg())];
    general_test(code, expected);
}

#[test]
fn missing_argument_points_at_the_parameter() {
    let code = "def set_value(value, e):\n    \"\"\"Doc.\n\n    Args:\n        value: the value.\n    \"\"\"\n";
    assert_eq!(lint(code), vec![format!("1:21 {}", arg_not_in_docstr_msg("e"))]);
}

#[test]
fn missing_exception_points_at_the_raise() {
    let code = "def f():\n    \"\"\"Doc about E.\n\n    Raises:\n        A:\n    \"\"\"\n    raise A\n    raise m.E()\n";
    assert_eq!(lint(code), vec![format!("8:12 {}", exc_not_in_docstr_msg("E"))]);
}

#[test]
fn multiple_sections_are_listed_as_written() {
    let code = "def f(kwargs):\n    \"\"\"Doc.\n\n    ARGS:\n        kwargs:\n\n    Parameters:\n        kwargs:\n    \"\"\"\n";
    assert_eq!(lint(code), vec![format!("2:4 {}", mult_args_sections_in_docstr_msg("ARGS,Parameters"))]);
}

#[test]
fn extra_argument_points_into_the_docstring() {
    let code = "def f(arg_1):\n    \"\"\"Doc.\n\n    Args:\n        arg_1:\n        arg:\n    \"\"\"\n";
    assert_eq!(lint(code), vec![format!("6:8 {}", arg_in_docstr_msg("arg"))]);
}

#[test]
fn extra_argument_points_at_its_own_item() {
    let code = "def f(data):\n    \"\"\"Doc.\n\n    Args:\n        data: values.\n        a: extra.\n    \"\"\"\n";
    assert_eq!(lint(code), vec![format!("6:8 {}", arg_in_docstr_msg("a"))]);
}

#[test]
fn sections_are_looked_for_inside_the_docstring_only() {
    let code = "def f(*args: int):\n    \"\"\"Doc.\n\n    Args:\n        args:\n\n    Args:\n        args:\n    \"\"\"\n";
    assert_eq!(lint(code), vec![format!("2:4 {}", mult_args_sections_in_docstr_msg("Args"))]);
}

#[test]
fn keyword_at_line_start_is_two_lines_up() {
    let code = "def f():\n    \"\"\"Doc.\n\nReturns:\n    \"\"\"\n";
    assert_eq!(lint(code), vec![format!("2:0 {}", returns_section_in_docstr_msg())]);
}

#[test]
fn missing_args_section_points_at_any_docstring() {
    let code = "def f(a):\n    '''Doc.'''\n";
    assert_eq!(lint(code), vec![format!("2:4 {}", args_section_not_in_docstr_msg())]);
}
