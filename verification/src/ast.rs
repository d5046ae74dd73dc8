//! The structured item list that the syntax-parsing collaborator hands over
//! for each source file, together with its mathematical view. Type
//! expressions keep path segments, generic arguments and wrapper shapes;
//! everything else a declaration carries is plain text.
use vstd::prelude::*;

verus! {

/// A structured type expression, kept unresolved until rendering.
pub enum TypeExpr {
    /// A path such as `a::b::C<T, U>`: its segments and generic arguments.
    Path { segments: Vec<String>, args: Vec<TypeExpr> },
    /// A reference, with an optional lifetime token and a mutability marker.
    Reference { lifetime: Option<String>, mutable: bool, inner: Box<TypeExpr> },
    /// An array; its length is not retained.
    Array { elem: Box<TypeExpr> },
    /// A slice.
    Slice { elem: Box<TypeExpr> },
    /// A tuple of element types.
    Tuple { elems: Vec<TypeExpr> },
    /// Any other kind of type expression.
    Opaque,
}

/// The mathematical shape of a `TypeExpr`.
pub enum TypeExprV {
    Path { segments: Seq<Seq<char>>, args: Seq<TypeExprV> },
    Reference { lifetime: Option<Seq<char>>, mutable: bool, inner: Box<TypeExprV> },
    Array { elem: Box<TypeExprV> },
    Slice { elem: Box<TypeExprV> },
    Tuple { elems: Seq<TypeExprV> },
    Opaque,
}

pub open spec fn type_expr_view(t: TypeExpr) -> TypeExprV
    decreases t,
{
    match t {
        TypeExpr::Path { segments, args } => TypeExprV::Path {
            segments: segments.deep_view(),
            args: type_exprs_view(args@),
        },
        TypeExpr::Reference { lifetime, mutable, inner } => TypeExprV::Reference {
            lifetime: lifetime.deep_view(),
            mutable,
            inner: Box::new(type_expr_view(*inner)),
        },
        TypeExpr::Array { elem } => TypeExprV::Array { elem: Box::new(type_expr_view(*elem)) },
        TypeExpr::Slice { elem } => TypeExprV::Slice { elem: Box::new(type_expr_view(*elem)) },
        TypeExpr::Tuple { elems } => TypeExprV::Tuple { elems: type_exprs_view(elems@) },
        TypeExpr::Opaque => TypeExprV::Opaque,
    }
}

pub open spec fn type_exprs_view(s: Seq<TypeExpr>) -> Seq<TypeExprV>
    decreases s,
{
    if s.len() == 0 {
        Seq::empty()
    } else {
        seq![type_expr_view(s[0])] + type_exprs_view(s.subrange(1, s.len() as int))
    }
}

/// Element-wise reading of `type_exprs_view`.
pub proof fn lemma_type_exprs_view(s: Seq<TypeExpr>)
    ensures
        type_exprs_view(s).len() == s.len(),
        forall|i: int| 0 <= i < s.len() ==> #[trigger] type_exprs_view(s)[i] == type_expr_view(
            s[i],
        ),
    decreases s,
{
    if s.len() > 0 {
        lemma_type_exprs_view(s.subrange(1, s.len() as int));
    }
}

impl View for TypeExpr {
    type V = TypeExprV;

    open spec fn view(&self) -> TypeExprV {
        type_expr_view(*self)
    }
}

/// One declared field: its name, empty for a tuple field, and its type.
pub struct FieldDecl {
    pub name: String,
    pub ty: TypeExpr,
}

pub struct FieldDeclV {
    pub name: Seq<char>,
    pub ty: TypeExprV,
}

impl View for FieldDecl {
    type V = FieldDeclV;

    open spec fn view(&self) -> FieldDeclV {
        FieldDeclV { name: self.name@, ty: self.ty@ }
    }
}

impl DeepView for FieldDecl {
    type V = FieldDeclV;

    open spec fn deep_view(&self) -> FieldDeclV {
        self.view()
    }
}

/// One declared parameter of a function: the receiver, or a named, typed
/// parameter whose name is empty when the pattern is not a plain name.
pub enum FnParam {
    Receiver,
    Typed { name: String, ty: TypeExpr },
}

pub enum FnParamV {
    Receiver,
    Typed { name: Seq<char>, ty: TypeExprV },
}

impl View for FnParam {
    type V = FnParamV;

    open spec fn view(&self) -> FnParamV {
        match self {
            FnParam::Receiver => FnParamV::Receiver,
            FnParam::Typed { name, ty } => FnParamV::Typed { name: name@, ty: ty@ },
        }
    }
}

impl DeepView for FnParam {
    type V = FnParamV;

    open spec fn deep_view(&self) -> FnParamV {
        self.view()
    }
}

/// The declaration of a function or method: its name and parameters.
pub struct FnDecl {
    pub name: String,
    pub params: Vec<FnParam>,
}

pub struct FnDeclV {
    pub name: Seq<char>,
    pub params: Seq<FnParamV>,
}

impl View for FnDecl {
    type V = FnDeclV;

    open spec fn view(&self) -> FnDeclV {
        FnDeclV { name: self.name@, params: self.params.deep_view() }
    }
}

impl DeepView for FnDecl {
    type V = FnDeclV;

    open spec fn deep_view(&self) -> FnDeclV {
        self.view()
    }
}

/// The tree of one import declaration.
pub enum UseTree {
    /// A path prefix segment followed by the rest of the tree.
    Prefix { ident: String, rest: Box<UseTree> },
    /// A plain imported name.
    Name { ident: String },
    /// An import renamed for the local scope.
    Rename { ident: String, alias: String },
    /// A braced group sharing the accumulated prefix.
    Group { items: Vec<UseTree> },
    /// A wildcard import; it contributes no alias.
    Glob,
}

pub enum UseTreeV {
    Prefix { ident: Seq<char>, rest: Box<UseTreeV> },
    Name { ident: Seq<char> },
    Rename { ident: Seq<char>, alias: Seq<char> },
    Group { items: Seq<UseTreeV> },
    Glob,
}

pub open spec fn use_tree_view(t: UseTree) -> UseTreeV
    decreases t,
{
    match t {
        UseTree::Prefix { ident, rest } => UseTreeV::Prefix {
            ident: ident@,
            rest: Box::new(use_tree_view(*rest)),
        },
        UseTree::Name { ident } => UseTreeV::Name { ident: ident@ },
        UseTree::Rename { ident, alias } => UseTreeV::Rename { ident: ident@, alias: alias@ },
        UseTree::Group { items } => UseTreeV::Group { items: use_trees_view(items@) },
        UseTree::Glob => UseTreeV::Glob,
    }
}

pub open spec fn use_trees_view(s: Seq<UseTree>) -> Seq<UseTreeV>
    decreases s,
{
    if s.len() == 0 {
        Seq::empty()
    } else {
        seq![use_tree_view(s[0])] + use_trees_view(s.subrange(1, s.len() as int))
    }
}

/// Element-wise reading of `use_trees_view`.
pub proof fn lemma_use_trees_view(s: Seq<UseTree>)
    ensures
        use_trees_view(s).len() == s.len(),
        forall|i: int| 0 <= i < s.len() ==> #[trigger] use_trees_view(s)[i] == use_tree_view(s[i]),
    decreases s,
{
    if s.len() > 0 {
        lemma_use_trees_view(s.subrange(1, s.len() as int));
    }
}

impl View for UseTree {
    type V = UseTreeV;

    open spec fn view(&self) -> UseTreeV {
        use_tree_view(*self)
    }
}

/// One top-level declaration of a source file, as the parsing collaborator
/// reports it.
pub enum Item {
    /// An import declaration.
    Use { tree: UseTree },
    /// A structure declaration with its ordered fields.
    StructDecl { name: String, fields: Vec<FieldDecl> },
    /// An enumeration declaration with its ordered variant names.
    EnumDecl { name: String, variants: Vec<String> },
    /// A trait declaration with its method signatures.
    TraitDecl { name: String, methods: Vec<FnDecl> },
    /// A free function declaration.
    FunctionDecl { decl: FnDecl },
    /// An implementation block for a target type.
    ImplBlock { target: TypeExpr, methods: Vec<FnDecl> },
    /// A constant: its declared type and its initializer as opaque text.
    ConstDecl { name: String, ty: TypeExpr, value: String },
    /// A type alias.
    TypeAliasDecl { name: String, ty: TypeExpr },
    /// A submodule declaration, inline or backed by a file.
    ModDecl { name: String, inline: Option<Vec<Item>> },
    /// A macro invocation: its name and its tokens as opaque text.
    MacroCall { name: String, tokens: String },
    /// Any top-level declaration kind outside this model.
    Unsupported,
}

pub enum ItemV {
    Use { tree: UseTreeV },
    StructDecl { name: Seq<char>, fields: Seq<FieldDeclV> },
    EnumDecl { name: Seq<char>, variants: Seq<Seq<char>> },
    TraitDecl { name: Seq<char>, methods: Seq<FnDeclV> },
    FunctionDecl { decl: FnDeclV },
    ImplBlock { target: TypeExprV, methods: Seq<FnDeclV> },
    ConstDecl { name: Seq<char>, ty: TypeExprV, value: Seq<char> },
    TypeAliasDecl { name: Seq<char>, ty: TypeExprV },
    ModDecl { name: Seq<char>, inline: Option<Seq<ItemV>> },
    MacroCall { name: Seq<char>, tokens: Seq<char> },
    Unsupported,
}

pub open spec fn item_view(t: Item) -> ItemV
    decreases t,
{
    match t {
        Item::Use { tree } => ItemV::Use { tree: tree@ },
        Item::StructDecl { name, fields } => ItemV::StructDecl {
            name: name@,
            fields: fields.deep_view(),
        },
        Item::EnumDecl { name, variants } => ItemV::EnumDecl {
            name: name@,
            variants: variants.deep_view(),
        },
        Item::TraitDecl { name, methods } => ItemV::TraitDecl {
            name: name@,
            methods: methods.deep_view(),
        },
        Item::FunctionDecl { decl } => ItemV::FunctionDecl { decl: decl@ },
        Item::ImplBlock { target, methods } => ItemV::ImplBlock {
            target: target@,
            methods: methods.deep_view(),
        },
        Item::ConstDecl { name, ty, value } => ItemV::ConstDecl {
            name: name@,
            ty: ty@,
            value: value@,
        },
        Item::TypeAliasDecl { name, ty } => ItemV::TypeAliasDecl { name: name@, ty: ty@ },
        Item::ModDecl { name, inline } => ItemV::ModDecl {
            name: name@,
            inline: match inline {
                Some(items) => Some(items_view(items@)),
                None => None,
            },
        },
        Item::MacroCall { name, tokens } => ItemV::MacroCall { name: name@, tokens: tokens@ },
        Item::Unsupported => ItemV::Unsupported,
    }
}

pub open spec fn items_view(s: Seq<Item>) -> Seq<ItemV>
    decreases s,
{
    if s.len() == 0 {
        Seq::empty()
    } else {
        seq![item_view(s[0])] + items_view(s.subrange(1, s.len() as int))
    }
}

/// Element-wise reading of `items_view`.
pub proof fn lemma_items_view(s: Seq<Item>)
    ensures
        items_view(s).len() == s.len(),
        forall|i: int| 0 <= i < s.len() ==> #[trigger] items_view(s)[i] == item_view(s[i]),
    decreases s,
{
    if s.len() > 0 {
        lemma_items_view(s.subrange(1, s.len() as int));
    }
}

impl View for Item {
    type V = ItemV;

    open spec fn view(&self) -> ItemV {
        item_view(*self)
    }
}

/// A fresh list holding the same strings.
pub fn dup_strings(v: &Vec<String>) -> (r: Vec<String>)
    ensures
        r@ == v@,
{
    let mut out: Vec<String> = Vec::new();
    let mut i: usize = 0;
    while i < v.len()
        invariant
            i <= v.len(),
            out@ =~= v@.take(i as int),
        decreases v.len() - i,
    {
        out.push(v[i].clone());
        proof {
            assert(out@ =~= v@.take(i + 1));
        }
        i = i + 1;
    }
    proof {
        assert(v@.take(v.len() as int) =~= v@);
    }
    out
}

impl TypeExpr {
    /// A fresh type expression with the same view.
    pub fn duplicate(&self) -> (r: TypeExpr)
        ensures
            r@ == self@,
        decreases *self,
    {
        match self {
            TypeExpr::Path { segments, args } => {
                let segments2 = dup_strings(segments);
                let mut args2: Vec<TypeExpr> = Vec::new();
                let mut i: usize = 0;
                while i < args.len()
                    invariant
                        i <= args.len(),
                        args2.len() == i,
                        forall|j: int| 0 <= j < i ==> type_expr_view(#[trigger] args2@[j])
                            == type_expr_view(args@[j]),
                        forall|j: int| 0 <= j < args.len() ==> decreases_to!(*self => args@[j]),
                    decreases args.len() - i,
                {
                    args2.push(args[i].duplicate());
                    i = i + 1;
                }
                proof {
                    lemma_type_exprs_view(args2@);
                    lemma_type_exprs_view(args@);
                    assert(type_exprs_view(args2@) =~= type_exprs_view(args@));
                    assert(segments2.deep_view() =~= segments.deep_view());
                }
                TypeExpr::Path { segments: segments2, args: args2 }
            },
            TypeExpr::Reference { lifetime, mutable, inner } => {
                let lifetime2 = match lifetime {
                    Some(l) => Some(l.clone()),
                    None => None,
                };
                proof {
                    assert(lifetime2.deep_view() == lifetime.deep_view());
                }
                TypeExpr::Reference {
                    lifetime: lifetime2,
                    mutable: *mutable,
                    inner: Box::new(inner.duplicate()),
                }
            },
            TypeExpr::Array { elem } => TypeExpr::Array { elem: Box::new(elem.duplicate()) },
            TypeExpr::Slice { elem } => TypeExpr::Slice { elem: Box::new(elem.duplicate()) },
            TypeExpr::Tuple { elems } => {
                let mut elems2: Vec<TypeExpr> = Vec::new();
                let mut i: usize = 0;
                while i < elems.len()
                    invariant
                        i <= elems.len(),
                        elems2.len() == i,
                        forall|j: int| 0 <= j < i ==> type_expr_view(#[trigger] elems2@[j])
                            == type_expr_view(elems@[j]),
                        forall|j: int| 0 <= j < elems.len() ==> decreases_to!(*self => elems@[j]),
                    decreases elems.len() - i,
                {
                    elems2.push(elems[i].duplicate());
                    i = i + 1;
                }
                proof {
                    lemma_type_exprs_view(elems2@);
                    lemma_type_exprs_view(elems@);
                    assert(type_exprs_view(elems2@) =~= type_exprs_view(elems@));
                }
                TypeExpr::Tuple { elems: elems2 }
            },
            TypeExpr::Opaque => TypeExpr::Opaque,
        }
    }
}

impl FieldDecl {
    /// A fresh field declaration with the same view.
    pub fn duplicate(&self) -> (r: FieldDecl)
        ensures
            r@ == self@,
    {
        FieldDecl { name: self.name.clone(), ty: self.ty.duplicate() }
    }
}

impl FnParam {
    /// A fresh parameter with the same view.
    pub fn duplicate(&self) -> (r: FnParam)
        ensures
            r@ == self@,
    {
        match self {
            FnParam::Receiver => FnParam::Receiver,
            FnParam::Typed { name, ty } => FnParam::Typed {
                name: name.clone(),
                ty: ty.duplicate(),
            },
        }
    }
}

impl FnDecl {
    /// A fresh declaration with the same view.
    pub fn duplicate(&self) -> (r: FnDecl)
        ensures
            r@ == self@,
    {
        let mut params2: Vec<FnParam> = Vec::new();
        let mut i: usize = 0;
        while i < self.params.len()
            invariant
                i <= self.params.len(),
                params2.len() == i,
                forall|j: int| 0 <= j < i ==> (#[trigger] params2@[j])@ == self.params@[j]@,
            decreases self.params.len() - i,
        {
            params2.push(self.params[i].duplicate());
            i = i + 1;
        }
        proof {
            assert(params2.deep_view() =~= self.params.deep_view());
        }
        FnDecl { name: self.name.clone(), params: params2 }
    }
}

impl UseTree {
    /// A fresh import tree with the same view.
    pub fn duplicate(&self) -> (r: UseTree)
        ensures
            r@ == self@,
        decreases *self,
    {
        match self {
            UseTree::Prefix { ident, rest } => UseTree::Prefix {
                ident: ident.clone(),
                rest: Box::new(rest.duplicate()),
            },
            UseTree::Name { ident } => UseTree::Name { ident: ident.clone() },
            UseTree::Rename { ident, alias } => UseTree::Rename {
                ident: ident.clone(),
                alias: alias.clone(),
            },
            UseTree::Group { items } => {
                let mut items2: Vec<UseTree> = Vec::new();
                let mut i: usize = 0;
                while i < items.len()
                    invariant
                        i <= items.len(),
                        items2.len() == i,
                        forall|j: int| 0 <= j < i ==> use_tree_view(#[trigger] items2@[j])
                            == use_tree_view(items@[j]),
                        forall|j: int| 0 <= j < items.len() ==> decreases_to!(*self => items@[j]),
                    decreases items.len() - i,
                {
                    items2.push(items[i].duplicate());
                    i = i + 1;
                }
                proof {
                    lemma_use_trees_view(items2@);
                    lemma_use_trees_view(items@);
                    assert(use_trees_view(items2@) =~= use_trees_view(items@));
                }
                UseTree::Group { items: items2 }
            },
            UseTree::Glob => UseTree::Glob,
        }
    }
}

/// Fresh function declarations with the same views.
pub fn dup_fn_decls(v: &Vec<FnDecl>) -> (r: Vec<FnDecl>)
    ensures
        r.deep_view() == v.deep_view(),
{
    let mut out: Vec<FnDecl> = Vec::new();
    let mut i: usize = 0;
    while i < v.len()
        invariant
            i <= v.len(),
            out.len() == i,
            forall|j: int| 0 <= j < i ==> (#[trigger] out@[j])@ == v@[j]@,
        decreases v.len() - i,
    {
        out.push(v[i].duplicate());
        i = i + 1;
    }
    proof {
        assert(out.deep_view() =~= v.deep_view());
    }
    out
}

impl Item {
    /// A fresh item with the same view.
    pub fn duplicate(&self) -> (r: Item)
        ensures
            r@ == self@,
        decreases *self,
    {
        match self {
            Item::Use { tree } => Item::Use { tree: tree.duplicate() },
            Item::StructDecl { name, fields } => {
                let mut fields2: Vec<FieldDecl> = Vec::new();
                let mut i: usize = 0;
                while i < fields.len()
                    invariant
                        i <= fields.len(),
                        fields2.len() == i,
                        forall|j: int| 0 <= j < i ==> (#[trigger] fields2@[j])@ == fields@[j]@,
                    decreases fields.len() - i,
                {
                    fields2.push(fields[i].duplicate());
                    i = i + 1;
                }
                proof {
                    assert(fields2.deep_view() =~= fields.deep_view());
                }
                Item::StructDecl { name: name.clone(), fields: fields2 }
            },
            Item::EnumDecl { name, variants } => Item::EnumDecl {
                name: name.clone(),
                variants: dup_strings(variants),
            },
            Item::TraitDecl { name, methods } => Item::TraitDecl {
                name: name.clone(),
                methods: dup_fn_decls(methods),
            },
            Item::FunctionDecl { decl } => Item::FunctionDecl { decl: decl.duplicate() },
            Item::ImplBlock { target, methods } => Item::ImplBlock {
                target: target.duplicate(),
                methods: dup_fn_decls(methods),
            },
            Item::ConstDecl { name, ty, value } => Item::ConstDecl {
                name: name.clone(),
                ty: ty.duplicate(),
                value: value.clone(),
            },
            Item::TypeAliasDecl { name, ty } => Item::TypeAliasDecl {
                name: name.clone(),
                ty: ty.duplicate(),
            },
            Item::ModDecl { name, inline } => {
                let inline2 = match inline {
                    Some(body) => {
                        let mut body2: Vec<Item> = Vec::new();
                        let mut i: usize = 0;
                        while i < body.len()
                            invariant
                                i <= body.len(),
                                body2.len() == i,
                                forall|j: int| 0 <= j < i ==> item_view(#[trigger] body2@[j])
                                    == item_view(body@[j]),
                                forall|j: int| 0 <= j < body.len() ==> decreases_to!(
                                    *self => body@[j]),
                            decreases body.len() - i,
                        {
                            body2.push(body[i].duplicate());
                            i = i + 1;
                        }
                        proof {
                            lemma_items_view(body2@);
                            lemma_items_view(body@);
                            assert(items_view(body2@) =~= items_view(body@));
                        }
                        Some(body2)
                    },
                    None => None,
                };
                Item::ModDecl { name: name.clone(), inline: inline2 }
            },
            Item::MacroCall { name, tokens } => Item::MacroCall {
                name: name.clone(),
                tokens: tokens.clone(),
            },
            Item::Unsupported => Item::Unsupported,
        }
    }
}

/// Fresh items with the same views.
pub fn dup_items(v: &Vec<Item>) -> (r: Vec<Item>)
    ensures
        items_view(r@) == items_view(v@),
{
    let mut out: Vec<Item> = Vec::new();
    let mut i: usize = 0;
    while i < v.len()
        invariant
            i <= v.len(),
            out.len() == i,
            forall|j: int| 0 <= j < i ==> item_view(#[trigger] out@[j]) == item_view(v@[j]),
        decreases v.len() - i,
    {
        out.push(v[i].duplicate());
        i = i + 1;
    }
    proof {
        lemma_items_view(out@);
        lemma_items_view(v@);
        assert(items_view(out@) =~= items_view(v@));
    }
    out
}

} // verus!
