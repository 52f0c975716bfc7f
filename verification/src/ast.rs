use vstd::prelude::*;

verus! {

// The abstract syntax tree the parser builds, together with its mathematical
// model (the `Spec*` mirror types, over `Seq<char>` and `int`) and the
// semantic pass that reports unused variables.

#[derive(Debug, Clone, PartialEq)]
pub enum Expression {
    /// A text literal.
    StringLiteral(String),
    /// A reference to a variable.
    Variable(String),
    /// A routine call; meaningful only inside format interpolation.
    FunctionCall(String),
}

pub enum SpecExpression {
    StringLiteral(Seq<char>),
    Variable(Seq<char>),
    FunctionCall(Seq<char>),
}

impl View for Expression {
    type V = SpecExpression;

    open spec fn view(&self) -> SpecExpression {
        match self {
            Expression::StringLiteral(s) => SpecExpression::StringLiteral(s@),
            Expression::Variable(s) => SpecExpression::Variable(s@),
            Expression::FunctionCall(s) => SpecExpression::FunctionCall(s@),
        }
    }
}

#[derive(Debug, Clone, Copy, PartialEq, Eq, Structural)]
pub enum BinaryOperator {
    Add,
    Subtract,
    Multiply,
    Divide,
}

#[derive(Debug, PartialEq)]
pub enum NumExpression {
    /// A number literal, kept as its source digits.
    NumberLiteral(String),
    /// A reference to a numeric variable.
    Variable(String),
    /// A binary operation on two sub-expressions.
    BinaryOp(Box<NumExpression>, BinaryOperator, Box<NumExpression>),
    /// A parenthesized sub-expression.
    Grouping(Box<NumExpression>),
}

pub enum SpecNumExpression {
    NumberLiteral(Seq<char>),
    Variable(Seq<char>),
    BinaryOp(Box<SpecNumExpression>, BinaryOperator, Box<SpecNumExpression>),
    Grouping(Box<SpecNumExpression>),
}

pub open spec fn deep_num(e: NumExpression) -> SpecNumExpression
    decreases e,
{
    match e {
        NumExpression::NumberLiteral(s) => SpecNumExpression::NumberLiteral(s@),
        NumExpression::Variable(s) => SpecNumExpression::Variable(s@),
        NumExpression::BinaryOp(l, op, r) => SpecNumExpression::BinaryOp(
            Box::new(deep_num(*l)),
            op,
            Box::new(deep_num(*r)),
        ),
        NumExpression::Grouping(inner) => SpecNumExpression::Grouping(Box::new(deep_num(*inner))),
    }
}

impl View for NumExpression {
    type V = SpecNumExpression;

    open spec fn view(&self) -> SpecNumExpression {
        deep_num(*self)
    }
}

#[derive(Debug, Clone, PartialEq)]
pub enum FormatPart {
    /// A literal stretch of the format string.
    Literal(String),
    /// An interpolated expression between braces.
    Expression(Expression),
}

pub enum SpecFormatPart {
    Literal(Seq<char>),
    Expression(SpecExpression),
}

impl View for FormatPart {
    type V = SpecFormatPart;

    open spec fn view(&self) -> SpecFormatPart {
        match self {
            FormatPart::Literal(s) => SpecFormatPart::Literal(s@),
            FormatPart::Expression(e) => SpecFormatPart::Expression(e@),
        }
    }
}

pub open spec fn deep_parts(ps: Seq<FormatPart>) -> Seq<SpecFormatPart> {
    ps.map_values(|p: FormatPart| p@)
}

#[derive(Debug, PartialEq)]
pub enum Statement {
    /// Print of a single expression.
    Print(Expression),
    /// Print of an interpolated format string.
    PrintFormat(Vec<FormatPart>),
    /// Text variable declaration: name, initializer, source line.
    VariableDeclaration(String, Expression, usize),
    /// Numeric variable declaration: name, initializer, source line.
    NumDeclaration(String, NumExpression, usize),
    /// Reassignment of a text variable.
    VariableAssignment(String, Expression, usize),
    /// Reassignment of a numeric variable.
    NumAssignment(String, NumExpression, usize),
    /// Routine definition: name and body.
    FunctionDefinition(String, Vec<Statement>),
    /// A standalone routine call.
    FunctionCall(String),
}

pub enum SpecStatement {
    Print(SpecExpression),
    PrintFormat(Seq<SpecFormatPart>),
    VariableDeclaration(Seq<char>, SpecExpression, int),
    NumDeclaration(Seq<char>, SpecNumExpression, int),
    VariableAssignment(Seq<char>, SpecExpression, int),
    NumAssignment(Seq<char>, SpecNumExpression, int),
    FunctionDefinition(Seq<char>, Seq<SpecStatement>),
    FunctionCall(Seq<char>),
}

pub open spec fn deep_stmt(s: Statement) -> SpecStatement
    decreases s,
{
    match s {
        Statement::Print(e) => SpecStatement::Print(e@),
        Statement::PrintFormat(ps) => SpecStatement::PrintFormat(deep_parts(ps@)),
        Statement::VariableDeclaration(n, e, l) => SpecStatement::VariableDeclaration(
            n@,
            e@,
            l as int,
        ),
        Statement::NumDeclaration(n, e, l) => SpecStatement::NumDeclaration(
            n@,
            deep_num(e),
            l as int,
        ),
        Statement::VariableAssignment(n, e, l) => SpecStatement::VariableAssignment(
            n@,
            e@,
            l as int,
        ),
        Statement::NumAssignment(n, e, l) => SpecStatement::NumAssignment(n@, deep_num(e), l as int),
        Statement::FunctionDefinition(n, body) => SpecStatement::FunctionDefinition(
            n@,
            deep_stmts(body@),
        ),
        Statement::FunctionCall(n) => SpecStatement::FunctionCall(n@),
    }
}

pub open spec fn deep_stmts(ss: Seq<Statement>) -> Seq<SpecStatement>
    decreases ss,
{
    if ss.len() == 0 {
        Seq::empty()
    } else {
        seq![deep_stmt(ss.first())] + deep_stmts(ss.drop_first())
    }
}

impl View for Statement {
    type V = SpecStatement;

    open spec fn view(&self) -> SpecStatement {
        deep_stmt(*self)
    }
}

pub proof fn lemma_deep_stmts_len(ss: Seq<Statement>)
    ensures
        deep_stmts(ss).len() == ss.len(),
        forall|i: int| 0 <= i < ss.len() ==> deep_stmts(ss)[i] == deep_stmt(ss[i]),
    decreases ss.len(),
{
    if ss.len() > 0 {
        lemma_deep_stmts_len(ss.drop_first());
    }
}

pub proof fn lemma_deep_stmts_push(ss: Seq<Statement>, s: Statement)
    ensures
        deep_stmts(ss.push(s)) == deep_stmts(ss).push(deep_stmt(s)),
{
    lemma_deep_stmts_len(ss);
    lemma_deep_stmts_len(ss.push(s));
    assert(deep_stmts(ss.push(s)) =~= deep_stmts(ss).push(deep_stmt(s)));
}

// ---------------------------------------------------------------------------
// Semantic pass: unused-variable warnings.
//
// Declarations are collected program-wide (descending one level into routine
// bodies, since every variable is global), keeping the line of the first
// declaration of each name. A name counts as used when it is referenced in a
// plain print, as a variable inside format interpolation, or anywhere inside
// a numeric expression; text initializers and routine calls are not uses.
// ---------------------------------------------------------------------------

/// Every variable name referenced inside a numeric expression.
pub open spec fn spec_num_expr_vars(e: SpecNumExpression) -> Set<Seq<char>>
    decreases e,
{
    match e {
        SpecNumExpression::NumberLiteral(_) => Set::empty(),
        SpecNumExpression::Variable(n) => set![n],
        SpecNumExpression::BinaryOp(l, _, r) => spec_num_expr_vars(*l) + spec_num_expr_vars(*r),
        SpecNumExpression::Grouping(inner) => spec_num_expr_vars(*inner),
    }
}

pub open spec fn spec_part_used(p: SpecFormatPart) -> Set<Seq<char>> {
    match p {
        SpecFormatPart::Expression(SpecExpression::Variable(n)) => set![n],
        _ => Set::empty(),
    }
}

pub open spec fn spec_parts_used(ps: Seq<SpecFormatPart>, i: int) -> Set<Seq<char>>
    decreases ps.len() - i,
{
    if i < 0 || i >= ps.len() {
        Set::empty()
    } else {
        spec_part_used(ps[i]) + spec_parts_used(ps, i + 1)
    }
}

/// Names one statement uses, not descending into routine bodies.
pub open spec fn spec_used_shallow(s: SpecStatement) -> Set<Seq<char>> {
    match s {
        SpecStatement::Print(SpecExpression::Variable(n)) => set![n],
        SpecStatement::PrintFormat(ps) => spec_parts_used(ps, 0),
        SpecStatement::NumDeclaration(_, e, _) => spec_num_expr_vars(e),
        SpecStatement::NumAssignment(_, e, _) => spec_num_expr_vars(e),
        _ => Set::empty(),
    }
}

pub open spec fn spec_used_body(ss: Seq<SpecStatement>, i: int) -> Set<Seq<char>>
    decreases ss.len() - i,
{
    if i < 0 || i >= ss.len() {
        Set::empty()
    } else {
        spec_used_shallow(ss[i]) + spec_used_body(ss, i + 1)
    }
}

/// Names one statement uses, descending one level into a routine body.
pub open spec fn spec_used_stmt(s: SpecStatement) -> Set<Seq<char>> {
    match s {
        SpecStatement::FunctionDefinition(_, body) => spec_used_body(body, 0),
        _ => spec_used_shallow(s),
    }
}

pub open spec fn spec_used_program(p: Seq<SpecStatement>, i: int) -> Set<Seq<char>>
    decreases p.len() - i,
{
    if i < 0 || i >= p.len() {
        Set::empty()
    } else {
        spec_used_stmt(p[i]) + spec_used_program(p, i + 1)
    }
}

/// Every name the program uses.
pub open spec fn spec_used(p: Seq<SpecStatement>) -> Set<Seq<char>> {
    spec_used_program(p, 0)
}

pub open spec fn spec_has_name(acc: Seq<(Seq<char>, int)>, n: Seq<char>) -> bool {
    exists|k: int| 0 <= k < acc.len() && acc[k].0 == n
}

/// Record a declaration; the line of the first declaration of a name wins.
pub open spec fn spec_add_decl(acc: Seq<(Seq<char>, int)>, n: Seq<char>, l: int) -> Seq<
    (Seq<char>, int),
> {
    if spec_has_name(acc, n) {
        acc
    } else {
        acc.push((n, l))
    }
}

pub open spec fn spec_decls_shallow(acc: Seq<(Seq<char>, int)>, s: SpecStatement) -> Seq<
    (Seq<char>, int),
> {
    match s {
        SpecStatement::VariableDeclaration(n, _, l) => spec_add_decl(acc, n, l),
        SpecStatement::NumDeclaration(n, _, l) => spec_add_decl(acc, n, l),
        _ => acc,
    }
}

pub open spec fn spec_decls_body(acc: Seq<(Seq<char>, int)>, ss: Seq<SpecStatement>, i: int) -> Seq<
    (Seq<char>, int),
>
    decreases ss.len() - i,
{
    if i < 0 || i >= ss.len() {
        acc
    } else {
        spec_decls_body(spec_decls_shallow(acc, ss[i]), ss, i + 1)
    }
}

pub open spec fn spec_decls_stmt(acc: Seq<(Seq<char>, int)>, s: SpecStatement) -> Seq<
    (Seq<char>, int),
> {
    match s {
        SpecStatement::FunctionDefinition(_, body) => spec_decls_body(acc, body, 0),
        _ => spec_decls_shallow(acc, s),
    }
}

pub open spec fn spec_decls_program(
    acc: Seq<(Seq<char>, int)>,
    p: Seq<SpecStatement>,
    i: int,
) -> Seq<(Seq<char>, int)>
    decreases p.len() - i,
{
    if i < 0 || i >= p.len() {
        acc
    } else {
        spec_decls_program(spec_decls_stmt(acc, p[i]), p, i + 1)
    }
}

/// Every declared name with the line of its first declaration, in program
/// order.
pub open spec fn spec_declared(p: Seq<SpecStatement>) -> Seq<(Seq<char>, int)> {
    spec_decls_program(Seq::empty(), p, 0)
}

/// The exact text of one unused-variable warning.
pub open spec fn spec_warning_text(n: Seq<char>, l: int) -> Seq<char> {
    "Unused variable '"@ + n + "' at line "@ + crate::strutil::spec_dec(l as nat)
}

pub open spec fn spec_warnings_upto(
    decls: Seq<(Seq<char>, int)>,
    used: Set<Seq<char>>,
    i: int,
) -> Seq<Seq<char>>
    decreases i,
{
    if i <= 0 {
        Seq::empty()
    } else {
        spec_warnings_upto(decls, used, i - 1) + (if used.contains(decls[i - 1].0) {
            Seq::<Seq<char>>::empty()
        } else {
            seq![spec_warning_text(decls[i - 1].0, decls[i - 1].1)]
        })
    }
}

/// The warnings of a program: one per declared-but-never-used name, in
/// first-declaration order.
pub open spec fn spec_warnings(p: Seq<SpecStatement>) -> Seq<Seq<char>> {
    spec_warnings_upto(spec_declared(p), spec_used(p), spec_declared(p).len() as int)
}

/// The declared names as a model sequence.
pub open spec fn pairs_view(s: Seq<(String, usize)>) -> Seq<(Seq<char>, int)> {
    s.map_values(|p: (String, usize)| (p.0@, p.1 as int))
}

/// The set of names a vector of strings holds.
pub open spec fn name_set(ss: Seq<String>) -> Set<Seq<char>> {
    Set::new(|n: Seq<char>| exists|i: int| 0 <= i < ss.len() && ss[i]@ == n)
}

pub proof fn lemma_name_set_push(ss: Seq<String>, s: String)
    ensures
        name_set(ss.push(s)) == name_set(ss) + set![s@],
{
    assert forall|n: Seq<char>| name_set(ss.push(s)).contains(n) implies (name_set(ss)
        + set![s@]).contains(n) by {
        let i = choose|i: int| 0 <= i < ss.push(s).len() && ss.push(s)[i]@ == n;
        if i < ss.len() {
            assert(ss[i]@ == n);
        }
    }
    assert forall|n: Seq<char>| (name_set(ss) + set![s@]).contains(n) implies name_set(
        ss.push(s),
    ).contains(n) by {
        if name_set(ss).contains(n) {
            let i = choose|i: int| 0 <= i < ss.len() && ss[i]@ == n;
            assert(ss.push(s)[i]@ == n);
        } else {
            assert(ss.push(s)[ss.len() as int]@ == n);
        }
    }
    assert(name_set(ss.push(s)) =~= name_set(ss) + set![s@]);
}

fn vec_contains_name(ss: &Vec<String>, n: &String) -> (r: bool)
    ensures
        r == name_set(ss@).contains(n@),
{
    let mut i: usize = 0;
    while i < ss.len()
        invariant
            i <= ss@.len(),
            forall|k: int| 0 <= k < i ==> ss@[k]@ != n@,
        decreases ss@.len() - i,
    {
        if crate::strutil::str_eq_chars(ss[i].as_str(), n.as_str()) {
            assert(name_set(ss@).contains(n@));
            return true;
        }
        i = i + 1;
    }
    assert(!name_set(ss@).contains(n@));
    false
}

fn pairs_contains_name(ps: &Vec<(String, usize)>, n: &String) -> (r: bool)
    ensures
        r == spec_has_name(pairs_view(ps@), n@),
{
    let mut i: usize = 0;
    while i < ps.len()
        invariant
            i <= ps@.len(),
            forall|k: int| 0 <= k < i ==> ps@[k].0@ != n@,
        decreases ps@.len() - i,
    {
        if crate::strutil::str_eq_chars(ps[i].0.as_str(), n.as_str()) {
            assert(pairs_view(ps@)[i as int].0 == n@);
            return true;
        }
        i = i + 1;
    }
    assert(forall|k: int| 0 <= k < pairs_view(ps@).len() ==> pairs_view(ps@)[k].0 != n@);
    false
}

fn add_decl(decls: &mut Vec<(String, usize)>, n: &String, l: usize)
    ensures
        pairs_view(final(decls)@) == spec_add_decl(pairs_view(old(decls)@), n@, l as int),
{
    if !pairs_contains_name(decls, n) {
        let ghost before = decls@;
        decls.push((n.clone(), l));
        assert(pairs_view(decls@) =~= pairs_view(before).push((n@, l as int)));
    }
}

fn collect_decls_shallow(decls: &mut Vec<(String, usize)>, stmt: &Statement)
    ensures
        pairs_view(final(decls)@) == spec_decls_shallow(pairs_view(old(decls)@), stmt@),
{
    match stmt {
        Statement::VariableDeclaration(n, _, l) => add_decl(decls, n, *l),
        Statement::NumDeclaration(n, _, l) => add_decl(decls, n, *l),
        _ => {},
    }
}

fn collect_decls_stmt(decls: &mut Vec<(String, usize)>, stmt: &Statement)
    ensures
        pairs_view(final(decls)@) == spec_decls_stmt(pairs_view(old(decls)@), stmt@),
{
    match stmt {
        Statement::FunctionDefinition(_, body) => {
            proof {
                lemma_deep_stmts_len(body@);
            }
            let mut k: usize = 0;
            while k < body.len()
                invariant
                    k <= body@.len(),
                    deep_stmts(body@).len() == body@.len(),
                    forall|i: int|
                        0 <= i < body@.len() ==> deep_stmts(body@)[i] == deep_stmt(body@[i]),
                    spec_decls_body(pairs_view(decls@), deep_stmts(body@), k as int)
                        == spec_decls_body(pairs_view(old(decls)@), deep_stmts(body@), 0),
                decreases body@.len() - k,
            {
                collect_decls_shallow(decls, &body[k]);
                k = k + 1;
            }
        },
        _ => collect_decls_shallow(decls, stmt),
    }
}

/// Walks a numeric expression and records every variable it references.
fn collect_num_expr_variables(expr: &NumExpression, used: &mut Vec<String>)
    ensures
        name_set(final(used)@) == name_set(old(used)@) + spec_num_expr_vars(deep_num(*expr)),
    decreases *expr,
{
    match expr {
        NumExpression::Variable(n) => {
            let ghost before = used@;
            used.push(n.clone());
            proof {
                lemma_name_set_push(before, *n);
            }
        },
        NumExpression::BinaryOp(l, _, r) => {
            collect_num_expr_variables(l, used);
            collect_num_expr_variables(r, used);
            assert(name_set(used@) =~= name_set(old(used)@) + spec_num_expr_vars(
                deep_num(*expr),
            ));
        },
        NumExpression::Grouping(inner) => {
            collect_num_expr_variables(inner, used);
        },
        NumExpression::NumberLiteral(_) => {
            assert(name_set(used@) =~= name_set(old(used)@) + spec_num_expr_vars(
                deep_num(*expr),
            ));
        },
    }
}

fn collect_used_shallow(used: &mut Vec<String>, stmt: &Statement)
    ensures
        name_set(final(used)@) == name_set(old(used)@) + spec_used_shallow(stmt@),
{
    match stmt {
        Statement::Print(Expression::Variable(n)) => {
            let ghost before = used@;
            used.push(n.clone());
            proof {
                lemma_name_set_push(before, *n);
            }
        },
        Statement::PrintFormat(parts) => {
            let mut k: usize = 0;
            while k < parts.len()
                invariant
                    k <= parts@.len(),
                    name_set(used@) + spec_parts_used(deep_parts(parts@), k as int) == name_set(
                        old(used)@,
                    ) + spec_parts_used(deep_parts(parts@), 0),
                decreases parts@.len() - k,
            {
                match &parts[k] {
                    FormatPart::Expression(Expression::Variable(n)) => {
                        let ghost before = used@;
                        used.push(n.clone());
                        proof {
                            lemma_name_set_push(before, *n);
                            assert(name_set(used@) + spec_parts_used(
                                deep_parts(parts@),
                                k as int + 1,
                            ) =~= name_set(before) + spec_parts_used(
                                deep_parts(parts@),
                                k as int,
                            ));
                        }
                    },
                    _ => {
                        proof {
                            assert(spec_part_used(deep_parts(parts@)[k as int]) =~= Set::<
                                Seq<char>,
                            >::empty());
                            assert(name_set(used@) + spec_parts_used(
                                deep_parts(parts@),
                                k as int + 1,
                            ) =~= name_set(used@) + spec_parts_used(deep_parts(parts@), k as int));
                        }
                    },
                }
                k = k + 1;
            }
            assert(name_set(used@) =~= name_set(used@) + spec_parts_used(
                deep_parts(parts@),
                parts@.len() as int,
            ));
        },
        Statement::NumDeclaration(_, e, _) => collect_num_expr_variables(e, used),
        Statement::NumAssignment(_, e, _) => collect_num_expr_variables(e, used),
        _ => {
            assert(name_set(used@) =~= name_set(old(used)@) + spec_used_shallow(stmt@));
        },
    }
}

fn collect_used_stmt(used: &mut Vec<String>, stmt: &Statement)
    ensures
        name_set(final(used)@) == name_set(old(used)@) + spec_used_stmt(stmt@),
{
    match stmt {
        Statement::FunctionDefinition(_, body) => {
            proof {
                lemma_deep_stmts_len(body@);
            }
            let mut k: usize = 0;
            while k < body.len()
                invariant
                    k <= body@.len(),
                    deep_stmts(body@).len() == body@.len(),
                    forall|i: int|
                        0 <= i < body@.len() ==> deep_stmts(body@)[i] == deep_stmt(body@[i]),
                    name_set(used@) + spec_used_body(deep_stmts(body@), k as int) == name_set(
                        old(used)@,
                    ) + spec_used_body(deep_stmts(body@), 0),
                decreases body@.len() - k,
            {
                let ghost before = used@;
                collect_used_shallow(used, &body[k]);
                proof {
                    assert(name_set(used@) + spec_used_body(deep_stmts(body@), k as int + 1)
                        =~= name_set(before) + spec_used_body(deep_stmts(body@), k as int));
                }
                k = k + 1;
            }
            assert(name_set(used@) =~= name_set(old(used)@) + spec_used_stmt(stmt@));
        },
        _ => {
            collect_used_shallow(used, stmt);
            assert(name_set(used@) =~= name_set(old(used)@) + spec_used_stmt(stmt@));
        },
    }
}

/// Analyzes the program: passes the statements through unchanged and returns
/// one warning per declared-but-never-used variable, citing the line of the
/// name's first declaration. A reference inside a routine body counts.
pub fn analyze(ast: Vec<Statement>) -> (r: (Vec<Statement>, Vec<String>))
    ensures
        r.0@ == ast@,
        r.1@.map_values(|w: String| w@) == spec_warnings(deep_stmts(ast@)),
{
    let ghost p = deep_stmts(ast@);
    proof {
        lemma_deep_stmts_len(ast@);
    }
    let mut decls: Vec<(String, usize)> = Vec::new();
    let mut i: usize = 0;
    proof {
        assert(pairs_view(decls@) =~= Seq::<(Seq<char>, int)>::empty());
    }
    while i < ast.len()
        invariant
            i <= ast@.len(),
            p == deep_stmts(ast@),
            p.len() == ast@.len(),
            forall|k: int| 0 <= k < ast@.len() ==> p[k] == deep_stmt(ast@[k]),
            spec_decls_program(pairs_view(decls@), p, i as int) == spec_declared(p),
        decreases ast@.len() - i,
    {
        collect_decls_stmt(&mut decls, &ast[i]);
        i = i + 1;
    }

    let mut used: Vec<String> = Vec::new();
    let mut j: usize = 0;
    proof {
        assert(name_set(used@) =~= Set::<Seq<char>>::empty());
    }
    while j < ast.len()
        invariant
            j <= ast@.len(),
            p == deep_stmts(ast@),
            p.len() == ast@.len(),
            forall|k: int| 0 <= k < ast@.len() ==> p[k] == deep_stmt(ast@[k]),
            name_set(used@) + spec_used_program(p, j as int) == spec_used(p),
        decreases ast@.len() - j,
    {
        let ghost before = used@;
        collect_used_stmt(&mut used, &ast[j]);
        proof {
            assert(name_set(used@) + spec_used_program(p, j as int + 1) =~= name_set(before)
                + spec_used_program(p, j as int));
        }
        j = j + 1;
    }
    proof {
        assert(name_set(used@) =~= name_set(used@) + spec_used_program(p, ast@.len() as int));
    }

    let mut warnings: Vec<String> = Vec::new();
    let mut k: usize = 0;
    proof {
        assert(warnings@.map_values(|w: String| w@) =~= spec_warnings_upto(
            pairs_view(decls@),
            name_set(used@),
            0,
        ));
    }
    while k < decls.len()
        invariant
            k <= decls@.len(),
            pairs_view(decls@) == spec_declared(p),
            name_set(used@) == spec_used(p),
            warnings@.map_values(|w: String| w@) == spec_warnings_upto(
                pairs_view(decls@),
                name_set(used@),
                k as int,
            ),
        decreases decls@.len() - k,
    {
        if !vec_contains_name(&used, &decls[k].0) {
            let mut w = crate::strutil::lit("Unused variable '");
            vstd::string::StringExecFns::append(&mut w, decls[k].0.as_str());
            vstd::string::StringExecFns::append(&mut w, "' at line ");
            crate::strutil::push_dec(&mut w, decls[k].1 as u64);
            proof {
                assert(w@ =~= spec_warning_text(
                    pairs_view(decls@)[k as int].0,
                    pairs_view(decls@)[k as int].1,
                ));
            }
            let ghost wbefore = warnings@;
            warnings.push(w);
            proof {
                assert(warnings@.map_values(|w2: String| w2@) =~= wbefore.map_values(
                    |w2: String| w2@,
                ).push(w@));
                assert(warnings@.map_values(|w2: String| w2@) =~= spec_warnings_upto(
                    pairs_view(decls@),
                    name_set(used@),
                    k as int + 1,
                ));
            }
        } else {
            proof {
                assert(warnings@.map_values(|w2: String| w2@) =~= spec_warnings_upto(
                    pairs_view(decls@),
                    name_set(used@),
                    k as int + 1,
                ));
            }
        }
        k = k + 1;
    }
    (ast, warnings)
}

} // verus!
