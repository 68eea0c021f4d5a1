//! The abstract syntax consumed by the compiler.
//!
//! Items arrive already parsed: defines, function definitions, calls and
//! macro invocations, each identifier carrying its literal text, the name of
//! the source unit it came from, and its character span in that unit.

use vstd::prelude::*;

verus! {

/// A half-open character range into a source unit's text.
#[derive(Debug, Clone, Copy, PartialEq, Eq, Structural)]
pub struct Span {
    pub start: usize,
    pub end: usize,
}

/// The smallest span covering both `a` and `b`.
pub open spec fn merge_spans(a: Span, b: Span) -> Span {
    Span {
        start: if a.start <= b.start {
            a.start
        } else {
            b.start
        },
        end: if a.end >= b.end {
            a.end
        } else {
            b.end
        },
    }
}

impl Span {
    pub fn new(start: usize, end: usize) -> (r: Span)
        ensures
            r == (Span { start, end }),
    {
        Span { start, end }
    }

    /// The smallest span covering both `self` and `other`.
    pub fn merge(self, other: Span) -> (r: Span)
        ensures
            r == merge_spans(self, other),
    {
        Span {
            start: if self.start <= other.start {
                self.start
            } else {
                other.start
            },
            end: if self.end >= other.end {
                self.end
            } else {
                other.end
            },
        }
    }
}

/// The mathematical image of an identifier.
pub struct IdentV {
    pub literal: Seq<char>,
    pub buf_name: Seq<char>,
    pub location: Span,
}

/// An identifier: shared literal text, the owning source unit's name, and
/// the source span.  Identifiers are compared by literal text alone.
#[derive(Debug)]
pub struct Ident {
    literal: String,
    buf_name: String,
    location: Span,
}

impl View for Ident {
    type V = IdentV;

    closed spec fn view(&self) -> IdentV {
        IdentV { literal: self.literal@, buf_name: self.buf_name@, location: self.location }
    }
}

impl Ident {
    pub fn new(literal: String, buf_name: String, location: Span) -> (r: Ident)
        ensures
            r@ == (IdentV { literal: literal@, buf_name: buf_name@, location }),
    {
        Ident { literal, buf_name, location }
    }

    /// The identifier's literal text.
    pub fn literal(&self) -> (r: &String)
        ensures
            r@ == self@.literal,
    {
        &self.literal
    }

    /// The name of the source unit the identifier was read from.
    pub fn path(&self) -> (r: &String)
        ensures
            r@ == self@.buf_name,
    {
        &self.buf_name
    }

    /// The identifier's span within its source unit.
    pub fn span(&self) -> (r: Span)
        ensures
            r == self@.location,
    {
        self.location
    }

    /// A deep copy.
    pub fn duplicate(&self) -> (r: Ident)
        ensures
            r@ == self@,
    {
        Ident {
            literal: self.literal.clone(),
            buf_name: self.buf_name.clone(),
            location: self.location,
        }
    }
}

/// The views of a sequence of identifiers.
pub open spec fn idents_view(s: Seq<Ident>) -> Seq<IdentV> {
    s.map_values(|i: Ident| i@)
}

/// A deep copy of a vector of identifiers.
pub fn duplicate_idents(v: &Vec<Ident>) -> (r: Vec<Ident>)
    ensures
        idents_view(r@) == idents_view(v@),
{
    let mut r: Vec<Ident> = Vec::new();
    let n = v.len();
    let mut i: usize = 0;
    while i < n
        invariant
            n == v@.len(),
            0 <= i <= n,
            r@.len() == i,
            forall|j: int| 0 <= j < i ==> r@[j]@ == v@[j]@,
        decreases n - i,
    {
        r.push(v[i].duplicate());
        i = i + 1;
    }
    proof {
        assert(idents_view(r@) =~= idents_view(v@));
    }
    r
}

/// A define: `NAME = VALUE`.
#[derive(Debug)]
pub struct Define {
    pub name: Ident,
    pub value: Ident,
}

pub struct DefineV {
    pub name: IdentV,
    pub value: IdentV,
}

impl View for Define {
    type V = DefineV;

    open spec fn view(&self) -> DefineV {
        DefineV { name: self.name@, value: self.value@ }
    }
}

/// A call of a built-in opcode mnemonic or of a defined function.
#[derive(Debug)]
pub struct Calling {
    pub called: Ident,
    pub args: Vec<Ident>,
}

pub struct CallingV {
    pub called: IdentV,
    pub args: Seq<IdentV>,
}

impl View for Calling {
    type V = CallingV;

    open spec fn view(&self) -> CallingV {
        CallingV { called: self.called@, args: idents_view(self.args@) }
    }
}

impl Calling {
    pub fn new(called: Ident, args: Vec<Ident>) -> (r: Calling)
        ensures
            r@.called == called@,
            r@.args == idents_view(args@),
    {
        Calling { called, args }
    }

    /// A deep copy.
    pub fn duplicate(&self) -> (r: Calling)
        ensures
            r@ == self@,
    {
        let r = Calling { called: self.called.duplicate(), args: duplicate_idents(&self.args) };
        proof {
            assert(r@ == self@);
        }
        r
    }
}

/// A macro invocation: `#NAME ARG...`.
#[derive(Debug)]
pub struct Macro {
    pub called: Ident,
    pub args: Vec<Ident>,
}

pub struct MacroV {
    pub called: IdentV,
    pub args: Seq<IdentV>,
}

impl View for Macro {
    type V = MacroV;

    open spec fn view(&self) -> MacroV {
        MacroV { called: self.called@, args: idents_view(self.args@) }
    }
}

impl Macro {
    pub fn new(called: Ident, args: Vec<Ident>) -> (r: Macro)
        ensures
            r@.called == called@,
            r@.args == idents_view(args@),
    {
        Macro { called, args }
    }

    /// A deep copy.
    pub fn duplicate(&self) -> (r: Macro)
        ensures
            r@ == self@,
    {
        let r = Macro { called: self.called.duplicate(), args: duplicate_idents(&self.args) };
        proof {
            assert(r@ == self@);
        }
        r
    }
}

/// A statement of a function body: a call or a macro invocation.
#[derive(Debug)]
pub enum Stmt {
    Calling(Calling),
    Macro(Macro),
}

pub enum StmtV {
    Calling(CallingV),
    Macro(MacroV),
}

impl View for Stmt {
    type V = StmtV;

    open spec fn view(&self) -> StmtV {
        match self {
            Stmt::Calling(c) => StmtV::Calling(c@),
            Stmt::Macro(m) => StmtV::Macro(m@),
        }
    }
}

impl Stmt {
    /// A deep copy.
    pub fn duplicate(&self) -> (r: Stmt)
        ensures
            r@ == self@,
    {
        match self {
            Stmt::Calling(c) => Stmt::Calling(c.duplicate()),
            Stmt::Macro(m) => Stmt::Macro(m.duplicate()),
        }
    }
}

/// The views of a sequence of statements.
pub open spec fn stmts_view(s: Seq<Stmt>) -> Seq<StmtV> {
    s.map_values(|x: Stmt| x@)
}

/// A deep copy of a vector of statements.
pub fn duplicate_stmts(v: &Vec<Stmt>) -> (r: Vec<Stmt>)
    ensures
        stmts_view(r@) == stmts_view(v@),
{
    let mut r: Vec<Stmt> = Vec::new();
    let n = v.len();
    let mut i: usize = 0;
    while i < n
        invariant
            n == v@.len(),
            0 <= i <= n,
            r@.len() == i,
            forall|j: int| 0 <= j < i ==> r@[j]@ == v@[j]@,
        decreases n - i,
    {
        r.push(v[i].duplicate());
        i = i + 1;
    }
    proof {
        assert(stmts_view(r@) =~= stmts_view(v@));
    }
    r
}

/// A function definition: name, ordered formals, unexpanded body.
#[derive(Debug)]
pub struct Function {
    pub name: Ident,
    pub args: Vec<Ident>,
    pub body: Vec<Stmt>,
}

pub struct FunctionV {
    pub name: IdentV,
    pub args: Seq<IdentV>,
    pub body: Seq<StmtV>,
}

impl View for Function {
    type V = FunctionV;

    open spec fn view(&self) -> FunctionV {
        FunctionV {
            name: self.name@,
            args: idents_view(self.args@),
            body: stmts_view(self.body@),
        }
    }
}

impl Function {
    pub fn new(name: Ident, args: Vec<Ident>, body: Vec<Stmt>) -> (r: Function)
        ensures
            r@.name == name@,
            r@.args == idents_view(args@),
            r@.body == stmts_view(body@),
    {
        Function { name, args, body }
    }

    /// A deep copy.
    pub fn duplicate(&self) -> (r: Function)
        ensures
            r@ == self@,
    {
        let r = Function {
            name: self.name.duplicate(),
            args: duplicate_idents(&self.args),
            body: duplicate_stmts(&self.body),
        };
        proof {
            assert(r@ == self@);
        }
        r
    }
}

/// A top-level item of a source unit.
#[derive(Debug)]
pub enum Item {
    Define(Define),
    Function(Function),
    Calling(Calling),
    Macro(Macro),
}

pub enum ItemV {
    Define(DefineV),
    Function(FunctionV),
    Calling(CallingV),
    Macro(MacroV),
}

impl View for Item {
    type V = ItemV;

    open spec fn view(&self) -> ItemV {
        match self {
            Item::Define(d) => ItemV::Define(d@),
            Item::Function(f) => ItemV::Function(f@),
            Item::Calling(c) => ItemV::Calling(c@),
            Item::Macro(m) => ItemV::Macro(m@),
        }
    }
}

impl Item {
    /// A deep copy.
    pub fn duplicate(&self) -> (r: Item)
        ensures
            r@ == self@,
    {
        match self {
            Item::Define(d) => Item::Define(
                Define { name: d.name.duplicate(), value: d.value.duplicate() },
            ),
            Item::Function(f) => Item::Function(f.duplicate()),
            Item::Calling(c) => Item::Calling(c.duplicate()),
            Item::Macro(m) => Item::Macro(m.duplicate()),
        }
    }
}

/// The views of a sequence of items.
pub open spec fn items_view(s: Seq<Item>) -> Seq<ItemV> {
    s.map_values(|x: Item| x@)
}

/// A deep copy of a vector of items.
pub fn duplicate_items(v: &Vec<Item>) -> (r: Vec<Item>)
    ensures
        items_view(r@) == items_view(v@),
{
    let mut r: Vec<Item> = Vec::new();
    let n = v.len();
    let mut i: usize = 0;
    while i < n
        invariant
            n == v@.len(),
            0 <= i <= n,
            r@.len() == i,
            forall|j: int| 0 <= j < i ==> r@[j]@ == v@[j]@,
        decreases n - i,
    {
        r.push(v[i].duplicate());
        i = i + 1;
    }
    proof {
        assert(items_view(r@) =~= items_view(v@));
    }
    r
}

} // verus!
