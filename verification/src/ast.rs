//! The syntax tree that parsing builds, and its mathematical model.
use std::rc::Rc;
use vstd::prelude::*;
use vstd::string::*;

verus! {

/// A source line number, counted from 1.
pub type Line = u16;

/// A named type, with its generic arguments if any were written. No
/// arguments (`None`) and an empty list of arguments are different things.
#[derive(Debug, PartialEq)]
pub struct SingleType {
    pub name: Rc<String>,
    pub generic: Option<Vec<ParsedType>>,
}

/// A tuple of types.
#[derive(Debug, PartialEq)]
pub struct TypeTuple {
    pub vec: Vec<ParsedType>,
}

/// A type annotation as it is written in the source.
#[derive(Debug, PartialEq)]
pub enum ParsedType {
    Single(SingleType),
    Tuple(TypeTuple),
    MySelf,
}

/// The model of a [`ParsedType`].
pub enum TypeModel {
    Single { name: Seq<char>, generic: Option<Seq<TypeModel>> },
    Tuple(Seq<TypeModel>),
    MySelf,
}

impl View for ParsedType {
    type V = TypeModel;

    open spec fn view(&self) -> TypeModel
        decreases self,
    {
        match self {
            ParsedType::Single(single) => TypeModel::Single {
                name: single.name@,
                generic: match single.generic {
                    Some(args) => Some(first_type_models(args, args.len() as nat)),
                    None => None,
                },
            },
            ParsedType::Tuple(tuple) => TypeModel::Tuple(
                first_type_models(tuple.vec, tuple.vec.len() as nat),
            ),
            ParsedType::MySelf => TypeModel::MySelf,
        }
    }
}

/// The models of the first `n` types of a vector, in order.
pub open spec fn first_type_models(types: Vec<ParsedType>, n: nat) -> Seq<TypeModel>
    decreases types, n,
{
    if 0 < n <= types.len() {
        first_type_models(types, (n - 1) as nat).push(types[n - 1]@)
    } else {
        Seq::empty()
    }
}

/// The models of a run of types, in order.
pub open spec fn type_models(types: Seq<ParsedType>) -> Seq<TypeModel> {
    types.map_values(|t: ParsedType| t@)
}

/// The model of an optional type.
pub open spec fn optional_type_model(ty: Option<ParsedType>) -> Option<TypeModel> {
    match ty {
        Some(t) => Some(t@),
        None => None,
    }
}

/// The models of the first `n` types of a vector are the models of the
/// first `n` entries of its view.
pub proof fn lemma_first_type_models(types: Vec<ParsedType>, n: nat)
    requires
        n <= types.len(),
    ensures
        first_type_models(types, n) == type_models(types@.take(n as int)),
    decreases n,
{
    if n > 0 {
        lemma_first_type_models(types, (n - 1) as nat);
        assert(type_models(types@.take(n as int)) =~= type_models(types@.take(n - 1)).push(
            types[n - 1]@,
        ));
    } else {
    }
}

/// The model of a tuple type is the tuple of its members' models.
pub proof fn lemma_tuple_model(tuple: TypeTuple)
    ensures
        ParsedType::Tuple(tuple)@ == TypeModel::Tuple(type_models(tuple.vec@)),
{
    lemma_first_type_models(tuple.vec, tuple.vec.len() as nat);
    assert(tuple.vec@.take(tuple.vec.len() as int) =~= tuple.vec@);
}

/// The model of a named type holds its name and its arguments' models.
pub proof fn lemma_single_model(single: SingleType)
    ensures
        ParsedType::Single(single)@ == (TypeModel::Single {
            name: single.name@,
            generic: match single.generic {
                Some(args) => Some(type_models(args@)),
                None => None,
            },
        }),
{
    if let Some(args) = single.generic {
        lemma_first_type_models(args, args.len() as nat);
        assert(args@.take(args.len() as int) =~= args@);
    }
}

/// How a type is shown: a named type as its name and, between angle
/// brackets, `None` or `Some(..)` around the list of its arguments; a tuple
/// as the list of its members; the receiver type as `Self`.
pub open spec fn type_text(ty: TypeModel) -> Seq<char>
    decreases ty, 0int,
{
    match ty {
        TypeModel::Single { name, generic } => name + "<"@ + (match generic {
            Some(args) => "Some("@ + type_list_text(args) + ")"@,
            None => "None"@,
        }) + ">"@,
        TypeModel::Tuple(items) => type_list_text(items),
        TypeModel::MySelf => "Self"@,
    }
}

/// How a list of types is shown: between square brackets, with a comma and
/// a space between one and the next.
pub open spec fn type_list_text(items: Seq<TypeModel>) -> Seq<char>
    decreases items, items.len() + 1,
{
    "["@ + joined_type_text(items, items.len()) + "]"@
}

/// The first `n` types of a list as they are shown, with a comma and a
/// space between one and the next.
pub open spec fn joined_type_text(items: Seq<TypeModel>, n: nat) -> Seq<char>
    decreases items, n,
{
    if n == 0 || n > items.len() {
        Seq::empty()
    } else if n == 1 {
        type_text(items[0])
    } else {
        joined_type_text(items, (n - 1) as nat) + ", "@ + type_text(items[n - 1])
    }
}

impl ParsedType {
    /// The type as text.
    pub fn describe(&self) -> (r: String)
        ensures
            r@ == type_text(self@),
        decreases self,
    {
        match self {
            ParsedType::Single(single) => {
                proof {
                    lemma_single_model(*single);
                }
                let mut r = String::from_str(single.name.as_str());
                r.append("<");
                match &single.generic {
                    Some(args) => {
                        r.append("Some(");
                        r.append(describe_types(args).as_str());
                        r.append(")");
                    },
                    None => {
                        r.append("None");
                    },
                }
                r.append(">");
                r
            },
            ParsedType::Tuple(tuple) => {
                proof {
                    lemma_tuple_model(*tuple);
                }
                describe_types(&tuple.vec)
            },
            ParsedType::MySelf => String::from_str("Self"),
        }
    }
}

/// A list of types as text.
pub fn describe_types(types: &Vec<ParsedType>) -> (r: String)
    ensures
        r@ == type_list_text(type_models(types@)),
    decreases types,
{
    let ghost models = type_models(types@);
    let mut r = String::from_str("[");
    let mut i: usize = 0;
    while i < types.len()
        invariant
            i <= types.len(),
            models == type_models(types@),
            r@ == "["@ + joined_type_text(models, i as nat),
        decreases types.len() - i,
    {
        if i > 0 {
            r.append(", ");
        }
        r.append(types[i].describe().as_str());
        i += 1;
    }
    r.append("]");
    r
}

/// A reference to a variable. Parsing gives only `Name`; the others stand
/// for what a later resolution pass puts in its place.
#[derive(Debug, Clone, PartialEq)]
pub enum Var {
    Name(Rc<String>),
    LocalInt(u16, u8),
    LocalNum(u16, u8),
    LocalChar(u16, u8),
    LocalBool(u16, u8),
    LocalRef(u16),
    StaticInt(u16),
    StaticNum(u16),
    StaticChar(u16),
    StaticBool(u16),
    StaticRef(u16),
    Class(u16),
    Enum(u16),
    Interface(u16),
    BuiltinType(u16),
    DirectFn(u16),
}

/// The model of a [`Var`].
pub enum VarModel {
    Name(Seq<char>),
    LocalInt(u16, u8),
    LocalNum(u16, u8),
    LocalChar(u16, u8),
    LocalBool(u16, u8),
    LocalRef(u16),
    StaticInt(u16),
    StaticNum(u16),
    StaticChar(u16),
    StaticBool(u16),
    StaticRef(u16),
    Class(u16),
    Enum(u16),
    Interface(u16),
    BuiltinType(u16),
    DirectFn(u16),
}

impl View for Var {
    type V = VarModel;

    open spec fn view(&self) -> VarModel {
        match self {
            Var::Name(name) => VarModel::Name(name@),
            Var::LocalInt(slot, depth) => VarModel::LocalInt(*slot, *depth),
            Var::LocalNum(slot, depth) => VarModel::LocalNum(*slot, *depth),
            Var::LocalChar(slot, depth) => VarModel::LocalChar(*slot, *depth),
            Var::LocalBool(slot, depth) => VarModel::LocalBool(*slot, *depth),
            Var::LocalRef(slot) => VarModel::LocalRef(*slot),
            Var::StaticInt(slot) => VarModel::StaticInt(*slot),
            Var::StaticNum(slot) => VarModel::StaticNum(*slot),
            Var::StaticChar(slot) => VarModel::StaticChar(*slot),
            Var::StaticBool(slot) => VarModel::StaticBool(*slot),
            Var::StaticRef(slot) => VarModel::StaticRef(*slot),
            Var::Class(index) => VarModel::Class(*index),
            Var::Enum(index) => VarModel::Enum(*index),
            Var::Interface(index) => VarModel::Interface(*index),
            Var::BuiltinType(index) => VarModel::BuiltinType(*index),
            Var::DirectFn(index) => VarModel::DirectFn(*index),
        }
    }
}

/// The primitive categories of a value.
#[derive(Debug, Clone, Copy, PartialEq, Eq)]
pub enum BasicType {
    Int,
    Num,
    Char,
    Bool,
    Ref,
}

/// How a primitive category is shown.
pub open spec fn basic_type_text(ty: BasicType) -> Seq<char> {
    match ty {
        BasicType::Int => "int"@,
        BasicType::Num => "num"@,
        BasicType::Char => "char"@,
        BasicType::Bool => "bool"@,
        BasicType::Ref => "Ref"@,
    }
}

impl BasicType {
    /// The category as text.
    pub fn name(&self) -> (r: &'static str)
        ensures
            r@ == basic_type_text(*self),
    {
        match self {
            BasicType::Int => "int",
            BasicType::Num => "num",
            BasicType::Char => "char",
            BasicType::Bool => "bool",
            BasicType::Ref => "Ref",
        }
    }
}

/// How a field of an object is addressed.
#[derive(Debug, PartialEq)]
pub enum VarId {
    Index(u16, u8),
    Name(Rc<String>),
    DoubleIndex(u16, u16),
}

/// The model of a [`VarId`].
pub enum VarIdModel {
    Index(u16, u8),
    Name(Seq<char>),
    DoubleIndex(u16, u16),
}

impl View for VarId {
    type V = VarIdModel;

    open spec fn view(&self) -> VarIdModel {
        match self {
            VarId::Index(slot, depth) => VarIdModel::Index(*slot, *depth),
            VarId::Name(name) => VarIdModel::Name(name@),
            VarId::DoubleIndex(outer, inner) => VarIdModel::DoubleIndex(*outer, *inner),
        }
    }
}

/// A type once it is resolved.
#[derive(Debug, Clone, Copy, PartialEq, Eq)]
pub enum DataType {
    Int,
    Num,
    Char,
    Bool,
}

/// How a resolved type is shown.
pub open spec fn data_type_text(ty: DataType) -> Seq<char> {
    match ty {
        DataType::Int => "int"@,
        DataType::Num => "num"@,
        DataType::Char => "char"@,
        DataType::Bool => "bool"@,
    }
}

impl DataType {
    /// The type as text.
    pub fn name(&self) -> (r: &'static str)
        ensures
            r@ == data_type_text(*self),
    {
        match self {
            DataType::Int => "int",
            DataType::Num => "num",
            DataType::Char => "char",
            DataType::Bool => "bool",
        }
    }
}

/// The type of an expression: as written, or as resolved.
#[derive(Debug, PartialEq)]
pub enum ExprType {
    Parsed(ParsedType),
    Analyzed(DataType),
}

/// The model of an [`ExprType`].
pub enum ExprTypeModel {
    Parsed(TypeModel),
    Analyzed(DataType),
}

impl View for ExprType {
    type V = ExprTypeModel;

    open spec fn view(&self) -> ExprTypeModel {
        match self {
            ExprType::Parsed(ty) => ExprTypeModel::Parsed(ty@),
            ExprType::Analyzed(ty) => ExprTypeModel::Analyzed(*ty),
        }
    }
}

/// The construction of an object: its type, and for each field how it is
/// addressed, its category and the expression that initializes it.
#[derive(Debug, PartialEq)]
pub struct Construction {
    pub class_type: ExprType,
    pub fields: Vec<(VarId, BasicType, Expression)>,
}

/// An expression. `Num` holds the bits of a 64-bit IEEE 754 number.
#[derive(Debug, PartialEq)]
pub enum Expression {
    /// The absent value.
    Absent,
    Int(i64),
    Num(u64),
    Char(char),
    Bool(bool),
    Str(Rc<String>),
    Var(Box<Var>),
    Tuple(Box<Vec<Expression>>),
    /// The elements, their category, and whether the literal is a queue.
    Array(Box<(Vec<Expression>, BasicType, bool)>),
    Construct(Box<Construction>),
    /// The source, the type as written, and the type once resolved.
    Cast(Box<(Expression, ParsedType, DataType)>),
    NegOp(Box<Expression>),
    NotOp(Box<Expression>),
}

/// The model of a [`Construction`].
pub struct ConstructionModel {
    pub class_type: ExprTypeModel,
    pub fields: Seq<(VarIdModel, BasicType, ExprModel)>,
}

/// The model of an [`Expression`].
pub enum ExprModel {
    Absent,
    Int(i64),
    Num(u64),
    Char(char),
    Bool(bool),
    Str(Seq<char>),
    Var(VarModel),
    Tuple(Seq<ExprModel>),
    Array(Seq<ExprModel>, BasicType, bool),
    Construct(ConstructionModel),
    Cast(Box<ExprModel>, TypeModel, DataType),
    NegOp(Box<ExprModel>),
    NotOp(Box<ExprModel>),
}

impl View for Expression {
    type V = ExprModel;

    open spec fn view(&self) -> ExprModel
        decreases self,
    {
        match self {
            Expression::Absent => ExprModel::Absent,
            Expression::Int(value) => ExprModel::Int(*value),
            Expression::Num(bits) => ExprModel::Num(*bits),
            Expression::Char(value) => ExprModel::Char(*value),
            Expression::Bool(value) => ExprModel::Bool(*value),
            Expression::Str(text) => ExprModel::Str(text@),
            Expression::Var(var) => ExprModel::Var((**var).view()),
            Expression::Tuple(items) => ExprModel::Tuple(
                first_expr_models(**items, items.len() as nat),
            ),
            Expression::Array(array) => ExprModel::Array(
                first_expr_models(array.0, array.0.len() as nat),
                array.1,
                array.2,
            ),
            Expression::Construct(construction) => ExprModel::Construct(
                ConstructionModel {
                    class_type: construction.class_type@,
                    fields: first_field_models(
                        construction.fields,
                        construction.fields.len() as nat,
                    ),
                },
            ),
            Expression::Cast(cast) => ExprModel::Cast(Box::new(cast.0.view()), cast.1@, cast.2),
            Expression::NegOp(inner) => ExprModel::NegOp(Box::new((**inner).view())),
            Expression::NotOp(inner) => ExprModel::NotOp(Box::new((**inner).view())),
        }
    }
}

/// The models of the first `n` expressions of a vector, in order.
pub open spec fn first_expr_models(items: Vec<Expression>, n: nat) -> Seq<ExprModel>
    decreases items, n,
{
    if 0 < n <= items.len() {
        first_expr_models(items, (n - 1) as nat).push(items[n - 1]@)
    } else {
        Seq::empty()
    }
}

/// The models of the first `n` fields of a construction, in order.
pub open spec fn first_field_models(fields: Vec<(VarId, BasicType, Expression)>, n: nat) -> Seq<
    (VarIdModel, BasicType, ExprModel),
>
    decreases fields, n,
{
    if 0 < n <= fields.len() {
        first_field_models(fields, (n - 1) as nat).push(
            (fields[n - 1].0@, fields[n - 1].1, fields[n - 1].2@),
        )
    } else {
        Seq::empty()
    }
}

/// A statement, with the line it stands on.
#[derive(Debug, PartialEq)]
pub enum Statement {
    /// The variable, its declared type if any, the initializer, the line.
    Let(Box<(Var, Option<ParsedType>, Expression, Line)>),
    /// An expression whose value is used.
    Expr(Expression, u16),
    /// An expression whose value is dropped.
    Discard(Expression, u16),
}

/// The model of a [`Statement`].
pub enum StatementModel {
    Let { var: VarModel, declared: Option<TypeModel>, init: ExprModel, line: u16 },
    Expr(ExprModel, u16),
    Discard(ExprModel, u16),
}

impl View for Statement {
    type V = StatementModel;

    open spec fn view(&self) -> StatementModel {
        match self {
            Statement::Let(parts) => StatementModel::Let {
                var: parts.0@,
                declared: optional_type_model(parts.1),
                init: parts.2@,
                line: parts.3,
            },
            Statement::Expr(expr, line) => StatementModel::Expr(expr@, *line),
            Statement::Discard(expr, line) => StatementModel::Discard(expr@, *line),
        }
    }
}

/// The models of a run of statements, in order.
pub open spec fn statement_models(statements: Seq<Statement>) -> Seq<StatementModel> {
    statements.map_values(|s: Statement| s@)
}

/// A function: its parameters, its body and its return type if declared.
#[derive(Debug, PartialEq)]
pub struct ParsedFunc {
    pub params: Vec<(Rc<String>, ParsedType)>,
    pub body: Vec<Statement>,
    pub return_type: Option<ParsedType>,
}

/// The model of a [`ParsedFunc`].
pub struct FuncModel {
    pub params: Seq<(Seq<char>, TypeModel)>,
    pub body: Seq<StatementModel>,
    pub return_type: Option<TypeModel>,
}

impl View for ParsedFunc {
    type V = FuncModel;

    open spec fn view(&self) -> FuncModel {
        FuncModel {
            params: self.params@.map_values(|p: (Rc<String>, ParsedType)| (p.0@, p.1@)),
            body: statement_models(self.body@),
            return_type: optional_type_model(self.return_type),
        }
    }
}

/// A parsed file: its functions, each with its name and whether it is
/// public, its top-level statements, and its index among the files of a
/// compilation.
#[derive(Debug, PartialEq)]
pub struct ParsedFile {
    pub funcs: Vec<(Rc<String>, ParsedFunc, bool)>,
    pub statements: Vec<Statement>,
    pub index: u16,
}

/// The model of a [`ParsedFile`].
pub struct FileModel {
    pub funcs: Seq<(Seq<char>, FuncModel, bool)>,
    pub statements: Seq<StatementModel>,
    pub index: u16,
}

impl View for ParsedFile {
    type V = FileModel;

    open spec fn view(&self) -> FileModel {
        FileModel {
            funcs: self.funcs@.map_values(|f: (Rc<String>, ParsedFunc, bool)| (f.0@, f.1@, f.2)),
            statements: statement_models(self.statements@),
            index: self.index,
        }
    }
}

} // verus!
