use vstd::prelude::*;
use crate::error::Error;
use crate::strutil::str_eq;

verus! {

/// The tree-shaped expression IR handed over by the front end.
///
/// Integer literals keep their decimal digits, so that values wider than a
/// machine word survive deserialization; only the immutables size is later
/// required to fit into one word.
#[derive(Debug)]
pub enum Expression {
    IntegerLiteral(String),
    Identifier(String),
    List(Vec<Expression>),
}

/// The mathematical shape of an `Expression`: text as character sequences,
/// lists as sequences of shapes.
pub enum ExprShape {
    Int(Seq<char>),
    Ident(Seq<char>),
    List(Seq<ExprShape>),
}

impl Expression {
    /// The shape of this expression.
    pub open spec fn deep(&self) -> ExprShape
        decreases self,
    {
        match self {
            Expression::IntegerLiteral(t) => ExprShape::Int(t@),
            Expression::Identifier(t) => ExprShape::Ident(t@),
            Expression::List(items) => ExprShape::List(deep_seq(items@)),
        }
    }
}

/// The shapes of a sequence of expressions, element by element.
pub open spec fn deep_seq(s: Seq<Expression>) -> Seq<ExprShape>
    decreases s,
{
    if s.len() == 0 {
        Seq::empty()
    } else {
        deep_seq(s.drop_last()).push(s.last().deep())
    }
}

pub broadcast proof fn lemma_deep_seq_len(s: Seq<Expression>)
    ensures
        (#[trigger] deep_seq(s)).len() == s.len(),
    decreases s,
{
    if s.len() > 0 {
        lemma_deep_seq_len(s.drop_last());
    }
}

pub broadcast proof fn lemma_deep_seq_index(s: Seq<Expression>, i: int)
    requires
        0 <= i < s.len(),
    ensures
        #[trigger] deep_seq(s)[i] == s[i].deep(),
    decreases s,
{
    lemma_deep_seq_len(s);
    lemma_deep_seq_len(s.drop_last());
    if i < s.len() - 1 {
        lemma_deep_seq_index(s.drop_last(), i);
        assert(deep_seq(s)[i] == deep_seq(s.drop_last())[i]);
        assert(s.drop_last()[i] == s[i]);
    }
}

/// The number of nodes of an expression tree.
pub open spec fn node_count(e: ExprShape) -> nat
    decreases e,
{
    match e {
        ExprShape::Int(_) => 1,
        ExprShape::Ident(_) => 1,
        ExprShape::List(items) => 1 + node_count_seq(items),
    }
}

pub open spec fn node_count_seq(items: Seq<ExprShape>) -> nat
    decreases items,
{
    if items.len() == 0 {
        0
    } else {
        node_count_seq(items.drop_last()) + node_count(items.last())
    }
}

/// Whether the expression mentions `name` as an identifier anywhere.
pub open spec fn mentions(e: ExprShape, name: Seq<char>) -> bool
    decreases e, 0int,
{
    match e {
        ExprShape::Int(_) => false,
        ExprShape::Ident(t) => t == name,
        ExprShape::List(items) => mentions_any(items, name, 0),
    }
}

/// Whether any element at or after position `i` mentions `name`.
pub open spec fn mentions_any(items: Seq<ExprShape>, name: Seq<char>, i: int) -> bool
    decreases items, items.len() - i when 0 <= i <= items.len()
{
    if i >= items.len() {
        false
    } else {
        mentions(items[i], name) || mentions_any(items, name, i + 1)
    }
}

pub open spec fn is_ident(e: ExprShape, text: Seq<char>) -> bool {
    e matches ExprShape::Ident(t) && t == text
}

/// The identifier that heads the deploy marker of a root list.
pub open spec fn deploy_ident() -> Seq<char> {
    "deploy"@
}

/// The identifier that heads a function definition node.
pub open spec fn label_ident() -> Seq<char> {
    "label"@
}

/// A root-list item holding the runtime region: a list headed by the
/// deploy identifier, with the immutables size and the runtime code at the
/// two following positions.
pub open spec fn is_deploy_marker(e: ExprShape) -> bool {
    e matches ExprShape::List(items) && items.len() >= 1 && is_ident(items[0], deploy_ident())
}

/// The first deploy marker at or after position `i`, if any.
pub open spec fn first_marker_from(items: Seq<ExprShape>, i: int) -> Option<int>
    decreases items.len() - i when 0 <= i <= items.len()
{
    if i >= items.len() {
        None
    } else if is_deploy_marker(items[i]) {
        Some(i)
    } else {
        first_marker_from(items, i + 1)
    }
}

pub proof fn lemma_first_marker_props(items: Seq<ExprShape>, j: int, i: int)
    requires
        0 <= j <= items.len(),
        first_marker_from(items, j) == Some(i),
    ensures
        j <= i < items.len(),
        is_deploy_marker(items[i]),
    decreases items.len() - j,
{
    if j < items.len() && !is_deploy_marker(items[j]) {
        lemma_first_marker_props(items, j + 1, i);
    }
}

/// Spec-level error cases of the region split.
pub enum SplitErr {
    MissingImmutablesSize,
    MissingRuntimeCode,
}

/// What extracting the runtime region from a root expression yields: the
/// remainder of the root, and, when a deploy marker is present, the runtime
/// code with the immutables-size literal.
pub open spec fn sp_extract_runtime_code(root: ExprShape) -> Result<
    (ExprShape, Option<(ExprShape, ExprShape)>),
    SplitErr,
> {
    match root {
        ExprShape::List(items) => match first_marker_from(items, 0) {
            Some(i) => match items[i] {
                ExprShape::List(m) => if m.len() < 2 {
                    Err(SplitErr::MissingImmutablesSize)
                } else if m.len() < 3 {
                    Err(SplitErr::MissingRuntimeCode)
                } else {
                    Ok((ExprShape::List(items.remove(i)), Some((m[2], m[1]))))
                },
                _ => arbitrary(),
            },
            None => Ok((root, None)),
        },
        _ => Ok((root, None)),
    }
}

pub open spec fn shape_of_opt_pair(o: Option<(Expression, Expression)>) -> Option<
    (ExprShape, ExprShape),
> {
    match o {
        Some((a, b)) => Some((a.deep(), b.deep())),
        None => None,
    }
}

/// Decides whether an expression is a deploy marker.
fn is_marker(e: &Expression) -> (r: bool)
    ensures
        r == is_deploy_marker(e.deep()),
{
    match e {
        Expression::List(items) => {
            proof {
                lemma_deep_seq_len(items@);
                if items@.len() >= 1 {
                    lemma_deep_seq_index(items@, 0);
                }
            }
            if items.len() >= 1 {
                match &items[0] {
                    Expression::Identifier(t) => str_eq(t.as_str(), "deploy"),
                    _ => false,
                }
            } else {
                false
            }
        },
        _ => false,
    }
}

/// Finds the first deploy marker of a root list.
fn find_marker(items: &Vec<Expression>) -> (r: Option<usize>)
    ensures
        match r {
            Some(j) => j < items@.len() && first_marker_from(deep_seq(items@), 0) == Some(j as int),
            None => first_marker_from(deep_seq(items@), 0) is None,
        },
{
    let ghost shapes = deep_seq(items@);
    proof {
        lemma_deep_seq_len(items@);
    }
    let mut i: usize = 0;
    while i < items.len()
        invariant
            i <= items@.len(),
            shapes == deep_seq(items@),
            shapes.len() == items@.len(),
            first_marker_from(shapes, 0) == first_marker_from(shapes, i as int),
        decreases items@.len() - i,
    {
        let hit = is_marker(&items[i]);
        proof {
            lemma_deep_seq_index(items@, i as int);
            assert(shapes[i as int] == items@[i as int].deep());
        }
        if hit {
            proof {
                assert(is_deploy_marker(shapes[i as int]));
                assert(first_marker_from(shapes, i as int) == Some(i as int));
            }
            return Some(i);
        }
        proof {
            assert(!is_deploy_marker(shapes[i as int]));
            assert(first_marker_from(shapes, i as int) == first_marker_from(
                shapes,
                i as int + 1,
            ));
        }
        i += 1;
    }
    proof {
        assert(first_marker_from(shapes, i as int) is None);
    }
    None
}

/// A region item defining a function: a list headed by the label
/// identifier, with the function name and the body following it.
pub open spec fn is_function_def(e: ExprShape) -> bool {
    e matches ExprShape::List(items) && items.len() >= 1 && is_ident(items[0], label_ident())
}

/// Decides whether an expression is a function definition node.
fn is_function_def_exec(e: &Expression) -> (r: bool)
    ensures
        r == is_function_def(e.deep()),
{
    match e {
        Expression::List(items) => {
            proof {
                lemma_deep_seq_len(items@);
                if items@.len() >= 1 {
                    lemma_deep_seq_index(items@, 0);
                }
            }
            if items.len() >= 1 {
                match &items[0] {
                    Expression::Identifier(t) => str_eq(t.as_str(), "label"),
                    _ => false,
                }
            } else {
                false
            }
        },
        _ => false,
    }
}

/// Walks `items` from position `i`, keeping non-function items as the
/// residual region and collecting every function definition in order.
pub open spec fn sp_extract_functions_from(
    items: Seq<ExprShape>,
    i: int,
    residual: Seq<ExprShape>,
    funs: Seq<(Seq<char>, ExprShape)>,
) -> Result<(Seq<ExprShape>, Seq<(Seq<char>, ExprShape)>), ()>
    decreases items.len() - i when 0 <= i <= items.len()
{
    if i >= items.len() {
        Ok((residual, funs))
    } else if is_function_def(items[i]) {
        match items[i] {
            ExprShape::List(f) => if f.len() >= 2 {
                match f[1] {
                    ExprShape::Ident(name) => sp_extract_functions_from(
                        items,
                        i + 1,
                        residual,
                        funs.push((name, ExprShape::List(f.subrange(2, f.len() as int)))),
                    ),
                    _ => Err(()),
                }
            } else {
                Err(())
            },
            _ => arbitrary(),
        }
    } else {
        sp_extract_functions_from(items, i + 1, residual.push(items[i]), funs)
    }
}

/// What extracting the functions of a code region yields: the residual
/// region and the ordered function definitions. A region that is not a
/// list holds no functions.
pub open spec fn sp_extract_functions(region: ExprShape) -> Result<
    (ExprShape, Seq<(Seq<char>, ExprShape)>),
    (),
> {
    match region {
        ExprShape::List(items) => match sp_extract_functions_from(
            items,
            0,
            Seq::empty(),
            Seq::empty(),
        ) {
            Ok((res, funs)) => Ok((ExprShape::List(res), funs)),
            Err(_) => Err(()),
        },
        _ => Ok((region, Seq::empty())),
    }
}

pub open spec fn deep_fun_seq(s: Seq<(String, Expression)>) -> Seq<(Seq<char>, ExprShape)> {
    Seq::new(s.len(), |i: int| (s[i].0@, s[i].1.deep()))
}

impl Expression {
    /// Removes and returns the runtime-code region and the immutables-size
    /// literal from the root. A root without a deploy marker yields no
    /// runtime region; a marker without the expected positional layout is a
    /// hard shape error.
    pub fn extract_runtime_code(self) -> (r: Result<
        (Expression, Option<(Expression, Expression)>),
        Error,
    >)
        ensures
            match r {
                Ok((rem, opt)) => sp_extract_runtime_code(self.deep()) == Ok::<
                    (ExprShape, Option<(ExprShape, ExprShape)>),
                    SplitErr,
                >((rem.deep(), shape_of_opt_pair(opt))),
                Err(e) => {
                    ||| (sp_extract_runtime_code(self.deep()) == Err::<
                        (ExprShape, Option<(ExprShape, ExprShape)>),
                        SplitErr,
                    >(SplitErr::MissingImmutablesSize) && e matches Error::MissingImmutablesSize)
                    ||| (sp_extract_runtime_code(self.deep()) == Err::<
                        (ExprShape, Option<(ExprShape, ExprShape)>),
                        SplitErr,
                    >(SplitErr::MissingRuntimeCode) && e matches Error::MissingRuntimeCode)
                },
            },
    {
        match self {
            Expression::List(mut items) => {
                let ghost shapes = deep_seq(items@);
                proof {
                    lemma_deep_seq_len(items@);
                }
                match find_marker(&items) {
                    None => {
                        let r = Expression::List(items);
                        Ok((r, None))
                    },
                    Some(j) => {
                        proof {
                            lemma_first_marker_props(shapes, 0, j as int);
                        }
                        let ghost items_old = items@;
                        let marker = items.remove(j);
                        proof {
                            lemma_deep_seq_index(items_old, j as int);
                            assert(marker.deep() == shapes[j as int]);
                            lemma_deep_seq_len(items@);
                            assert forall|k: int| 0 <= k < items@.len() implies deep_seq(
                                items@,
                            )[k] == shapes.remove(j as int)[k] by {
                                lemma_deep_seq_index(items@, k);
                                if k < j {
                                    lemma_deep_seq_index(items_old, k);
                                } else {
                                    lemma_deep_seq_index(items_old, k + 1);
                                }
                            }
                            assert(deep_seq(items@) =~= shapes.remove(j as int));
                        }
                        match marker {
                            Expression::List(mut m) => {
                                let ghost mshape = deep_seq(m@);
                                proof {
                                    lemma_deep_seq_len(m@);
                                    assert(shapes[j as int] == ExprShape::List(mshape));
                                }
                                if m.len() < 2 {
                                    Err(Error::MissingImmutablesSize)
                                } else if m.len() < 3 {
                                    Err(Error::MissingRuntimeCode)
                                } else {
                                    let ghost m_old = m@;
                                    let immutables = m.remove(1);
                                    let runtime = m.remove(1);
                                    proof {
                                        lemma_deep_seq_index(m_old, 1);
                                        lemma_deep_seq_index(m_old, 2);
                                        assert(immutables == m_old[1]);
                                        assert(runtime == m_old.remove(1)[1]);
                                        assert(runtime == m_old[2]);
                                        assert(immutables.deep() == mshape[1]);
                                        assert(runtime.deep() == mshape[2]);
                                    }
                                    let rem = Expression::List(items);
                                    Ok((rem, Some((runtime, immutables))))
                                }
                            },
                            _ => {
                                proof {
                                    assert(false);
                                }
                                Err(Error::MissingImmutablesSize)
                            },
                        }
                    },
                }
            },
            other => {
                Ok((other, None))
            },
        }
    }

    /// Consumes the remainder of the root as the deploy-code region, which
    /// must be a list.
    pub fn try_into_deploy_code(self) -> (r: Result<Expression, Error>)
        ensures
            match r {
                Ok(region) => self.deep() matches ExprShape::List(_) && region.deep()
                    == self.deep(),
                Err(e) => !(self.deep() matches ExprShape::List(_)) && e matches Error::DeployCodeShape,
            },
    {
        match self {
            Expression::List(items) => Ok(Expression::List(items)),
            _ => Err(Error::DeployCodeShape),
        }
    }

    /// Pulls every function definition out of a code region, in source
    /// order, leaving the other statements as the region's residual body.
    pub fn extract_functions(self) -> (r: Result<
        (Expression, Vec<(String, Expression)>),
        Error,
    >)
        ensures
            match r {
                Ok((res, funs)) => sp_extract_functions(self.deep()) == Ok::<
                    (ExprShape, Seq<(Seq<char>, ExprShape)>),
                    (),
                >((res.deep(), deep_fun_seq(funs@))),
                Err(e) => sp_extract_functions(self.deep()) == Err::<
                    (ExprShape, Seq<(Seq<char>, ExprShape)>),
                    (),
                >(()) && e matches Error::MalformedFunctionDefinition,
            },
    {
        match self {
            Expression::List(items) => {
                let ghost shapes = deep_seq(items@);
                proof {
                    lemma_deep_seq_len(items@);
                }
                let mut residual: Vec<Expression> = Vec::new();
                let mut funs: Vec<(String, Expression)> = Vec::new();
                let mut rest = items;
                let ghost total = shapes.len();
                let n = rest.len();
                let mut i: usize = 0;
                proof {
                    assert(deep_fun_seq(funs@) =~= Seq::<(Seq<char>, ExprShape)>::empty());
                    assert(deep_seq(rest@) =~= shapes.subrange(0, total as int));
                }
                while i < n
                    invariant
                        self.deep() == ExprShape::List(shapes),
                        n == total,
                        rest@.len() == total - i,
                        i <= total,
                        shapes.len() == total,
                        deep_seq(rest@) =~= shapes.subrange(i as int, total as int),
                        sp_extract_functions_from(shapes, 0, Seq::empty(), Seq::empty())
                            == sp_extract_functions_from(
                            shapes,
                            i as int,
                            deep_seq(residual@),
                            deep_fun_seq(funs@),
                        ),
                    decreases total - i,
                {
                    let ghost res_old = deep_seq(residual@);
                    let ghost funs_old = deep_fun_seq(funs@);
                    let ghost rest_old = rest@;
                    let item = rest.remove(0);
                    proof {
                        lemma_deep_seq_len(rest_old);
                        lemma_deep_seq_len(rest@);
                        assert(item == rest_old[0]);
                        lemma_deep_seq_index(rest_old, 0);
                        assert(deep_seq(rest_old) == shapes.subrange(i as int, total as int));
                        assert(item.deep() == shapes[i as int]);
                        assert(rest@ =~= rest_old.remove(0));
                        assert forall|k: int| 0 <= k < rest@.len() implies deep_seq(rest@)[k]
                            == shapes.subrange(i + 1, total as int)[k] by {
                            lemma_deep_seq_index(rest@, k);
                            lemma_deep_seq_index(rest_old, k + 1);
                            assert(deep_seq(rest@)[k] == rest@[k].deep());
                            assert(rest@[k] == rest_old[k + 1]);
                            assert(deep_seq(rest_old)[k + 1] == shapes.subrange(
                                i as int,
                                total as int,
                            )[k + 1]);
                        }
                        assert(deep_seq(rest@) =~= shapes.subrange(i + 1, total as int));
                    }
                    if is_function_def_exec(&item) {
                        match item {
                            Expression::List(mut f) => {
                                let ghost fshape = deep_seq(f@);
                                proof {
                                    lemma_deep_seq_len(f@);
                                    assert(shapes[i as int] == ExprShape::List(fshape));
                                }
                                if f.len() < 2 {
                                    proof {
                                        assert(sp_extract_functions_from(
                                            shapes,
                                            i as int,
                                            res_old,
                                            funs_old,
                                        ) == Err::<(Seq<ExprShape>, Seq<(Seq<char>, ExprShape)>), ()>(
                                            (),
                                        ));
                                    }
                                    return Err(Error::MalformedFunctionDefinition);
                                }
                                let ghost f_orig = f@;
                                let _head = f.remove(0);
                                let name_expr = f.remove(0);
                                proof {
                                    lemma_deep_seq_len(f@);
                                    assert(fshape.len() == f_orig.len());
                                    assert(name_expr == f_orig.remove(0)[0]);
                                    assert(name_expr == f_orig[1]);
                                    lemma_deep_seq_index(f_orig, 1);
                                    assert(name_expr.deep() == fshape[1]);
                                    assert(f@ =~= f_orig.remove(0).remove(0));
                                    assert forall|k: int| 0 <= k < f@.len() implies deep_seq(
                                        f@,
                                    )[k] == fshape.subrange(2, fshape.len() as int)[k] by {
                                        lemma_deep_seq_index(f@, k);
                                        lemma_deep_seq_index(f_orig, k + 2);
                                        assert(deep_seq(f@)[k] == f@[k].deep());
                                        assert(f@[k] == f_orig[k + 2]);
                                    }
                                    assert(deep_seq(f@) =~= fshape.subrange(
                                        2,
                                        fshape.len() as int,
                                    ));
                                }
                                match name_expr {
                                    Expression::Identifier(name) => {
                                        let body = Expression::List(f);
                                        funs.push((name, body));
                                        proof {
                                            assert(deep_fun_seq(funs@) =~= funs_old.push(
                                                (
                                                    funs@.last().0@,
                                                    funs@.last().1.deep(),
                                                ),
                                            ));
                                            assert(sp_extract_functions_from(
                                                shapes,
                                                i as int,
                                                res_old,
                                                funs_old,
                                            ) == sp_extract_functions_from(
                                                shapes,
                                                i + 1,
                                                res_old,
                                                deep_fun_seq(funs@),
                                            ));
                                        }
                                    },
                                    _ => {
                                        proof {
                                            assert(sp_extract_functions_from(
                                                shapes,
                                                i as int,
                                                res_old,
                                                funs_old,
                                            ) == Err::<
                                                (Seq<ExprShape>, Seq<(Seq<char>, ExprShape)>),
                                                (),
                                            >(()));
                                        }
                                        return Err(Error::MalformedFunctionDefinition);
                                    },
                                }
                            },
                            _ => {
                                proof {
                                    assert(false);
                                }
                                return Err(Error::MalformedFunctionDefinition);
                            },
                        }
                    } else {
                        let ghost residual_old = residual@;
                        residual.push(item);
                        proof {
                            lemma_deep_seq_len(residual_old);
                            lemma_deep_seq_len(residual@);
                            assert forall|k: int| 0 <= k < residual@.len() implies deep_seq(
                                residual@,
                            )[k] == res_old.push(item.deep())[k] by {
                                lemma_deep_seq_index(residual@, k);
                                if k < residual@.len() - 1 {
                                    lemma_deep_seq_index(residual_old, k);
                                    assert(residual@[k] == residual_old[k]);
                                }
                            }
                            assert(deep_seq(residual@) =~= res_old.push(item.deep()));
                            assert(sp_extract_functions_from(shapes, i as int, res_old, funs_old)
                                == sp_extract_functions_from(
                                shapes,
                                i + 1,
                                deep_seq(residual@),
                                funs_old,
                            ));
                        }
                    }
                    i += 1;
                }
                let region = Expression::List(residual);
                Ok((region, funs))
            },
            other => {
                let funs: Vec<(String, Expression)> = Vec::new();
                proof {
                    assert(deep_fun_seq(funs@) =~= Seq::<(Seq<char>, ExprShape)>::empty());
                }
                Ok((other, funs))
            },
        }
    }
}

proof fn lemma_node_count_seq_remove(s: Seq<ExprShape>, i: int)
    requires
        0 <= i < s.len(),
    ensures
        node_count_seq(s) == node_count_seq(s.remove(i)) + node_count(s[i]),
    decreases s.len(),
{
    if i == s.len() - 1 {
        assert(s.remove(i) =~= s.drop_last());
    } else {
        lemma_node_count_seq_remove(s.drop_last(), i);
        assert(s.remove(i).drop_last() =~= s.drop_last().remove(i));
        assert(s.remove(i).last() == s.last());
    }
}

/// Round trip of the region split: extracting the runtime region and the
/// immutables-size literal from a well-formed root, then taking the
/// remainder as the deploy region, partitions the root's nodes exactly.
/// With a deploy marker holding exactly its three expected positions, the
/// deploy region, the runtime region and the immutables-size literal
/// together account for every node of the original root except the marker
/// list itself and its heading identifier.
pub proof fn lemma_region_split_counts(
    root: ExprShape,
    items: Seq<ExprShape>,
    i: int,
    m: Seq<ExprShape>,
    rem: ExprShape,
    rt: ExprShape,
    imm: ExprShape,
)
    requires
        root == ExprShape::List(items),
        first_marker_from(items, 0) == Some(i),
        items[i] == ExprShape::List(m),
        m.len() == 3,
        sp_extract_runtime_code(root) == Ok::<
            (ExprShape, Option<(ExprShape, ExprShape)>),
            SplitErr,
        >((rem, Some((rt, imm)))),
    ensures
        node_count(root) == node_count(rem) + node_count(rt) + node_count(imm) + 2,
{
    lemma_first_marker_props(items, 0, i);
    lemma_node_count_seq_remove(items, i);
    assert(rem == ExprShape::List(items.remove(i)));
    assert(node_count(root) == 1 + node_count_seq(items));
    assert(node_count(rem) == 1 + node_count_seq(items.remove(i)));
    assert(node_count(items[i]) == 1 + node_count_seq(m));
    let m2 = m.drop_last();
    let m1 = m2.drop_last();
    let m0 = m1.drop_last();
    assert(m0 =~= Seq::<ExprShape>::empty());
    assert(node_count_seq(m0) == 0);
    assert(m1.last() == m[0] && m2.last() == m[1] && m.last() == m[2]);
    assert(node_count_seq(m) == node_count_seq(m2) + node_count(m[2]));
    assert(node_count_seq(m2) == node_count_seq(m1) + node_count(m[1]));
    assert(node_count_seq(m1) == node_count_seq(m0) + node_count(m[0]));
    assert(is_deploy_marker(items[i]));
    assert(node_count(m[0]) == 1);
    assert(rt == m[2] && imm == m[1]);
}

} // verus!
