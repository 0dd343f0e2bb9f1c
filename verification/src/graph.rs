//! A tensor program under construction: a list of operations, each on earlier results or
//! on arguments, and the expression that every result stands for.
use vstd::prelude::*;

verus! {

/// Element type of a tensor.
#[derive(Debug, Clone, Copy, PartialEq, Eq, Structural)]
pub enum Elem {
    Single,
    Integer,
    Truth,
}

/// An operation.
#[derive(Debug, Clone, Copy, PartialEq, Eq, Structural)]
pub enum OpKind {
    /// A scalar, by the bits of its value.
    Constant,
    Sum,
    Difference,
    Product,
    Quotient,
    Maximum,
    InverseRoot,
    Tanh,
    Negate,
    Exponential,
    /// Spread over a larger shape; the list gives the place of each dimension.
    Broadcast,
    Reshape,
    /// The list gives the source of each dimension.
    Transpose,
    /// Contract one dimension of each operand; the list gives the number of leading batch
    /// dimensions and the two contracted ones.
    Dot,
    /// Add up along the dimension of the list.
    ReduceSum,
    /// The largest along the dimension of the list.
    ReduceMaximum,
    AtLeast,
    ToSingle,
    /// The rows of the first operand that the second one names.
    GatherRows,
    Select,
    /// Join along the dimension of the list.
    Concatenate,
}

/// What a result stands for: an argument, or an operation on expressions.
pub ghost enum Expr {
    Arg { index: nat, shape: Seq<usize>, elem: Elem },
    Node {
        kind: OpKind,
        bits: u32,
        list: Seq<usize>,
        shape: Seq<usize>,
        elem: Elem,
        a: Option<Box<Expr>>,
        b: Option<Box<Expr>>,
        c: Option<Box<Expr>>,
    },
}

impl Expr {
    pub open spec fn shape(self) -> Seq<usize> {
        match self {
            Expr::Arg { shape, .. } => shape,
            Expr::Node { shape, .. } => shape,
        }
    }

    pub open spec fn rank(self) -> int {
        self.shape().len() as int
    }
}

/// An operation without a list and without bits.
pub open spec fn node(
    kind: OpKind,
    list: Seq<usize>,
    shape: Seq<usize>,
    elem: Elem,
    a: Option<Expr>,
    b: Option<Expr>,
    c: Option<Expr>,
) -> Expr {
    Expr::Node { kind, bits: 0, list, shape, elem, a: boxed(a), b: boxed(b), c: boxed(c) }
}

pub open spec fn boxed(e: Option<Expr>) -> Option<Box<Expr>> {
    match e {
        Some(e) => Some(Box::new(e)),
        None => None,
    }
}

/// A scalar constant.
pub open spec fn constant_of(bits: u32, elem: Elem) -> Expr {
    Expr::Node {
        kind: OpKind::Constant,
        bits,
        list: Seq::empty(),
        shape: Seq::empty(),
        elem,
        a: None,
        b: None,
        c: None,
    }
}

/// An operation on singles, element by element.
pub open spec fn each(kind: OpKind, a: Expr, b: Expr) -> Expr {
    node(kind, Seq::empty(), a.shape(), Elem::Single, Some(a), Some(b), None)
}

/// A function of singles, element by element.
pub open spec fn map_each(kind: OpKind, a: Expr) -> Expr {
    node(kind, Seq::empty(), a.shape(), Elem::Single, Some(a), None, None)
}

/// A result or an argument.
#[derive(Debug, Clone, Copy, PartialEq, Eq, Structural)]
pub enum Source {
    Arg(usize),
    Op(usize),
}

/// An operation of a program.
#[derive(Debug)]
pub struct Op {
    pub kind: OpKind,
    pub bits: u32,
    pub list: Vec<usize>,
    pub shape: Vec<usize>,
    pub elem: Elem,
    pub a: Option<Source>,
    pub b: Option<Source>,
    pub c: Option<Source>,
}

/// A value of a program, with the expression that it stands for.
pub struct Val {
    pub source: Source,
    pub shape: Vec<usize>,
    pub elem: Elem,
    pub tree: Ghost<Expr>,
}

/// A program under construction.
#[derive(Debug)]
pub struct Builder {
    pub ops: Vec<Op>,
    pub args: Vec<TensorType>,
}

/// The expression of an operand of operation `k`.
pub open spec fn operand(ops: Seq<Op>, args: Seq<TensorType>, s: Option<Source>, k: nat) -> Option<
    Box<Expr>,
>
    decreases k, 0nat,
{
    match s {
        None => None,
        Some(Source::Arg(i)) => Some(Box::new(argument(args, i as int))),
        Some(Source::Op(j)) => if j < k {
            Some(Box::new(denote(ops, args, j as nat)))
        } else {
            None
        },
    }
}

/// The expression of operation `k`.
pub open spec fn denote(ops: Seq<Op>, args: Seq<TensorType>, k: nat) -> Expr
    decreases k, 1nat,
{
    let op = ops[k as int];
    Expr::Node {
        kind: op.kind,
        bits: op.bits,
        list: op.list@,
        shape: op.shape@,
        elem: op.elem,
        a: operand(ops, args, op.a, k),
        b: operand(ops, args, op.b, k),
        c: operand(ops, args, op.c, k),
    }
}

/// The type of a tensor.
#[derive(Debug)]
pub struct TensorType {
    pub shape: Vec<usize>,
    pub elem: Elem,
}

/// An argument of a program.
pub open spec fn argument(args: Seq<TensorType>, i: int) -> Expr {
    Expr::Arg { index: i as nat, shape: args[i].shape@, elem: args[i].elem }
}

/// The expression of a result or an argument.
pub open spec fn meaning(ops: Seq<Op>, args: Seq<TensorType>, s: Source) -> Expr {
    match s {
        Source::Arg(i) => argument(args, i as int),
        Source::Op(k) => denote(ops, args, k as nat),
    }
}

/// Every operand is there.
pub open spec fn exists_in(ops: nat, args: nat, s: Option<Source>) -> bool {
    match s {
        None => true,
        Some(Source::Arg(i)) => i < args,
        Some(Source::Op(k)) => k < ops,
    }
}

proof fn lemma_denote_prefix(ops: Seq<Op>, more: Seq<Op>, args: Seq<TensorType>, k: nat)
    requires
        k < ops.len() <= more.len(),
        forall|i: int| 0 <= i < ops.len() ==> ops[i] == more[i],
    ensures
        denote(ops, args, k) == denote(more, args, k),
    decreases k,
{
    let op = ops[k as int];
    if let Some(Source::Op(j)) = op.a {
        if j < k {
            lemma_denote_prefix(ops, more, args, j as nat);
        }
    }
    if let Some(Source::Op(j)) = op.b {
        if j < k {
            lemma_denote_prefix(ops, more, args, j as nat);
        }
    }
    if let Some(Source::Op(j)) = op.c {
        if j < k {
            lemma_denote_prefix(ops, more, args, j as nat);
        }
    }
}

/// `e` is an expression or a part of one of its operands.
pub open spec fn is_part(e: Expr, whole: Expr) -> bool
    decreases whole,
{
    e == whole || match whole {
        Expr::Arg { .. } => false,
        Expr::Node { a, b, c, .. } => {
            ||| a matches Some(x) && is_part(e, *x)
            ||| b matches Some(x) && is_part(e, *x)
            ||| c matches Some(x) && is_part(e, *x)
        },
    }
}

/// A part of a part is a part.
pub proof fn lemma_part_of_part(e: Expr, part: Expr, whole: Expr)
    requires
        is_part(e, part),
        is_part(part, whole),
    ensures
        is_part(e, whole),
    decreases whole,
{
    if part != whole {
        match whole {
            Expr::Arg { .. } => {},
            Expr::Node { a, b, c, .. } => {
                if a is Some && is_part(part, *a.unwrap()) {
                    lemma_part_of_part(e, part, *a.unwrap());
                } else if b is Some && is_part(part, *b.unwrap()) {
                    lemma_part_of_part(e, part, *b.unwrap());
                } else {
                    lemma_part_of_part(e, part, *c.unwrap());
                }
            },
        }
    }
}

/// The operation has the result of operation `k` for an operand.
pub open spec fn works_on(op: Op, k: usize) -> bool {
    ||| op.a == Some(Source::Op(k))
    ||| op.b == Some(Source::Op(k))
    ||| op.c == Some(Source::Op(k))
}

fn copied(v: &[usize]) -> (r: Vec<usize>)
    ensures
        r@ == v@,
{
    vstd::slice::slice_to_vec(v)
}

impl Val {
    /// The same value once more.
    pub fn again(&self) -> (r: Val)
        ensures
            r.source == self.source && r.shape@ == self.shape@ && r.elem == self.elem,
            r.tree == self.tree,
    {
        Val {
            source: self.source,
            shape: copied(self.shape.as_slice()),
            elem: self.elem,
            tree: self.tree,
        }
    }
}

impl Builder {
    /// Every operation works on arguments and on earlier results.
    pub open spec fn wf(&self) -> bool {
        forall|k: int|
            0 <= k < self.ops@.len() ==> ({
                let op = #[trigger] self.ops@[k];
                &&& exists_in(k as nat, self.args@.len(), op.a)
                &&& exists_in(k as nat, self.args@.len(), op.b)
                &&& exists_in(k as nat, self.args@.len(), op.c)
            })
    }

    /// The value is one of the program, and stands for its expression.
    #[verifier::opaque]
    pub open spec fn knows(&self, v: Val) -> bool {
        &&& exists_in(self.ops@.len(), self.args@.len(), Some(v.source))
        &&& meaning(self.ops@, self.args@, v.source) == v.tree@
        &&& v.shape@ == v.tree@.shape()
    }

    /// Operation `k` is there, and no operation works on its result.
    #[verifier::opaque]
    pub open spec fn is_unused(&self, k: usize) -> bool {
        &&& k < self.ops@.len()
        &&& forall|j: int| k < j < self.ops@.len() ==> !works_on(#[trigger] self.ops@[j], k)
    }

    /// Of the results since an earlier state only `r` can be unused, and of the earlier ones
    /// none of `inputs` any more.
    pub open spec fn consumes(&self, before: Builder, inputs: Set<Source>, r: Val) -> bool {
        &&& before.ops@.len() < self.ops@.len()
        &&& r.source matches Source::Op(k) && before.ops@.len() <= k < self.ops@.len()
        &&& forall|k: usize| #[trigger] before.is_unused(k) ==> k < before.ops@.len()
        &&& forall|k: usize| #[trigger]
            self.is_unused(k) ==> r.source == Source::Op(k) || (before.is_unused(k) && !inputs.contains(
                Source::Op(k),
            ))
    }

    /// Where the result of every operation but `v` is worked on, every operation is a part
    /// of what `v` stands for.
    pub proof fn lemma_all_parts(&self, v: Val, k: usize)
        requires
            self.wf(),
            self.knows(v),
            forall|j: usize| #[trigger] self.is_unused(j) ==> v.source == Source::Op(j),
            k < self.ops@.len() <= usize::MAX,
        ensures
            is_part(meaning(self.ops@, self.args@, Source::Op(k)), v.tree@),
        decreases self.ops@.len() - k,
    {
        reveal(Builder::knows);
        reveal(Builder::is_unused);
        if !self.is_unused(k) {
            let j = choose|j: int|
                k < j < self.ops@.len() && works_on(#[trigger] self.ops@[j], k);
            self.lemma_all_parts(v, j as usize);
            let part = denote(self.ops@, self.args@, k as nat);
            let user = denote(self.ops@, self.args@, j as nat);
            assert(is_part(part, part));
            assert(is_part(part, user));
            lemma_part_of_part(part, user, v.tree@);
        }
    }

    /// Everything that an earlier state knew is still known.
    pub open spec fn keeps(&self, before: Builder) -> bool {
        &&& self.args == before.args
        &&& forall|v: Val| before.knows(v) ==> #[trigger] self.knows(v)
    }

    pub fn new(args: Vec<TensorType>) -> (r: Self)
        ensures
            r.wf(),
            r.args == args,
            r.ops@.len() == 0,
            forall|k: usize| !#[trigger] r.is_unused(k),
    {
        reveal(Builder::is_unused);
        Builder { ops: Vec::new(), args }
    }

    /// Argument `i`.
    pub fn arg(&self, i: usize) -> (r: Val)
        requires
            i < self.args@.len(),
        ensures
            self.knows(r),
            r.tree@ == argument(self.args@, i as int),
    {
        reveal(Builder::knows);
        Val {
            source: Source::Arg(i),
            shape: copied(self.args[i].shape.as_slice()),
            elem: self.args[i].elem,
            tree: Ghost(argument(self.args@, i as int)),
        }
    }

    fn push(
        &mut self,
        kind: OpKind,
        bits: u32,
        list: Vec<usize>,
        shape: Vec<usize>,
        elem: Elem,
        a: Option<&Val>,
        b: Option<&Val>,
        c: Option<&Val>,
    ) -> (r: Val)
        requires
            old(self).wf(),
            a matches Some(v) ==> old(self).knows(*v),
            b matches Some(v) ==> old(self).knows(*v),
            c matches Some(v) ==> old(self).knows(*v),
        ensures
            final(self).wf(),
            final(self).keeps(*old(self)),
            final(self).knows(r),
            final(self).consumes(*old(self), operands(a, b, c), r),
            r.tree@ == (Expr::Node {
                kind,
                bits,
                list: list@,
                shape: shape@,
                elem,
                a: tree_of(a),
                b: tree_of(b),
                c: tree_of(c),
            }),
    {
        reveal(Builder::knows);
        let ghost before = *self;
        let k: usize = self.ops.len();
        let result_shape = copied(shape.as_slice());
        let ghost tree = Expr::Node {
            kind,
            bits,
            list: list@,
            shape: shape@,
            elem,
            a: tree_of(a),
            b: tree_of(b),
            c: tree_of(c),
        };
        let op = Op {
            kind,
            bits,
            list,
            shape,
            elem,
            a: source_of(a),
            b: source_of(b),
            c: source_of(c),
        };
        self.ops.push(op);
        proof {
            let ops = before.ops@;
            let more = self.ops@;
            assert forall|j: nat| j < ops.len() implies #[trigger] denote(ops, self.args@, j)
                == denote(more, self.args@, j) by {
                lemma_denote_prefix(ops, more, self.args@, j);
            }
            assert(denote(more, self.args@, k as nat) == tree);
            assert forall|v: Val| before.knows(v) implies #[trigger] self.knows(v) by {}
            assert forall|j: int| 0 <= j < more.len() implies ({
                let op = #[trigger] more[j];
                &&& exists_in(j as nat, self.args@.len(), op.a)
                &&& exists_in(j as nat, self.args@.len(), op.b)
                &&& exists_in(j as nat, self.args@.len(), op.c)
            }) by {
                if j < ops.len() {
                    assert(more[j] == ops[j]);
                }
            }
            reveal(Builder::is_unused);
            assert forall|j: usize| #[trigger] self.is_unused(j) implies j == k || (before.is_unused(j)
                && !operands(a, b, c).contains(Source::Op(j))) by {
                if j != k {
                    assert(!works_on(more[k as int], j));
                    assert forall|i: int| j < i < ops.len() implies !works_on(
                        #[trigger] ops[i],
                        j,
                    ) by {
                        assert(more[i] == ops[i]);
                    }
                }
            }
        }
        Val { source: Source::Op(k), shape: result_shape, elem, tree: Ghost(tree) }
    }

    /// A single-precision scalar, by its bits.
    pub fn constant(&mut self, bits: u32) -> (r: Val)
        requires
            old(self).wf(),
        ensures
            final(self).wf(),
            final(self).keeps(*old(self)),
            final(self).knows(r),
            final(self).consumes(*old(self), Set::empty(), r),
            r.tree@ == constant_of(bits, Elem::Single),
    {
        let r = self.push(
            OpKind::Constant,
            bits,
            Vec::new(),
            Vec::new(),
            Elem::Single,
            None,
            None,
            None,
        );
        assert(r.tree@->list =~= Seq::<usize>::empty());
        r
    }

    /// The integer zero.
    pub fn integer_zero(&mut self) -> (r: Val)
        requires
            old(self).wf(),
        ensures
            final(self).wf(),
            final(self).keeps(*old(self)),
            final(self).knows(r),
            final(self).consumes(*old(self), Set::empty(), r),
            r.tree@ == constant_of(0, Elem::Integer),
    {
        self.push(OpKind::Constant, 0, Vec::new(), Vec::new(), Elem::Integer, None, None, None)
    }

    /// An operation on singles, element by element; the result has the shape of the first
    /// operand.
    pub fn each(&mut self, kind: OpKind, a: &Val, b: &Val) -> (r: Val)
        requires
            old(self).wf(),
            old(self).knows(*a),
            old(self).knows(*b),
        ensures
            final(self).wf(),
            final(self).keeps(*old(self)),
            final(self).knows(r),
            final(self).consumes(*old(self), set![a.source, b.source], r),
            r.tree@ == each(kind, a.tree@, b.tree@),
    {
        reveal(Builder::knows);
        let shape = copied(a.shape.as_slice());
        self.push(kind, 0, Vec::new(), shape, Elem::Single, Some(a), Some(b), None)
    }

    /// A function of singles, element by element.
    pub fn map_each(&mut self, kind: OpKind, a: &Val) -> (r: Val)
        requires
            old(self).wf(),
            old(self).knows(*a),
        ensures
            final(self).wf(),
            final(self).keeps(*old(self)),
            final(self).knows(r),
            final(self).consumes(*old(self), set![a.source], r),
            r.tree@ == map_each(kind, a.tree@),
    {
        reveal(Builder::knows);
        let shape = copied(a.shape.as_slice());
        self.push(kind, 0, Vec::new(), shape, Elem::Single, Some(a), None, None)
    }

    /// An operation with a list and a result type of its own.
    pub fn apply(
        &mut self,
        kind: OpKind,
        list: &[usize],
        shape: &[usize],
        elem: Elem,
        a: &Val,
        b: Option<&Val>,
        c: Option<&Val>,
    ) -> (r: Val)
        requires
            old(self).wf(),
            old(self).knows(*a),
            b matches Some(v) ==> old(self).knows(*v),
            c matches Some(v) ==> old(self).knows(*v),
        ensures
            final(self).wf(),
            final(self).keeps(*old(self)),
            final(self).knows(r),
            final(self).consumes(*old(self), operands(Some(a), b, c), r),
            r.tree@ == node(
                kind,
                list@,
                shape@,
                elem,
                Some(a.tree@),
                plain_tree(b),
                plain_tree(c),
            ),
    {
        self.push(kind, 0, copied(list), copied(shape), elem, Some(a), b, c)
    }
}

/// The sources of operands.
pub open spec fn operands(a: Option<&Val>, b: Option<&Val>, c: Option<&Val>) -> Set<Source> {
    with_source(with_source(with_source(Set::empty(), a), b), c)
}

/// The sources and that of one more operand, where there is one.
pub open spec fn with_source(sources: Set<Source>, v: Option<&Val>) -> Set<Source> {
    match v {
        Some(v) => sources.insert(v.source),
        None => sources,
    }
}

pub open spec fn tree_of(v: Option<&Val>) -> Option<Box<Expr>> {
    boxed(plain_tree(v))
}

/// The expression of an optional value.
pub open spec fn plain_tree(v: Option<&Val>) -> Option<Expr> {
    match v {
        Some(v) => Some(v.tree@),
        None => None,
    }
}

fn source_of(v: Option<&Val>) -> (r: Option<Source>)
    ensures
        r == match v {
            Some(v) => Some(v.source),
            None => None,
        },
{
    match v {
        Some(v) => Some(v.source),
        None => None,
    }
}

} // verus!
