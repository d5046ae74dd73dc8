//! The semantic model: entity records, the module tree, and the pass that
//! builds the tree from a source tree of parsed item lists. Entities of one
//! module live in one name-keyed map; a later declaration under the same
//! name overwrites the earlier one. Import aliases are scoped to the module
//! that declared them: a submodule starts with an empty alias map and its
//! aliases are never merged back into the parent.
use crate::ast::{
    dup_strings, item_view, items_view, lemma_items_view, lemma_type_exprs_view,
    lemma_use_trees_view, type_exprs_view, use_tree_view, FieldDecl, FieldDeclV, FnDecl, FnDeclV,
    FnParam, FnParamV, Item, ItemV, TypeExpr, TypeExprV, UseTree, UseTreeV,
};
use crate::strutil::{seq_join, str_eq};
use vstd::prelude::*;
use vstd::string::StringExecFns;

verus! {

/// An alias bound to a type reference: a field, an argument, or a type
/// alias entity.
pub struct TypeAlias {
    pub alias: String,
    pub ty: TypeExpr,
}

pub struct TypeAliasV {
    pub alias: Seq<char>,
    pub ty: TypeExprV,
}

impl View for TypeAlias {
    type V = TypeAliasV;

    open spec fn view(&self) -> TypeAliasV {
        TypeAliasV { alias: self.alias@, ty: self.ty@ }
    }
}

impl DeepView for TypeAlias {
    type V = TypeAliasV;

    open spec fn deep_view(&self) -> TypeAliasV {
        self.view()
    }
}

/// A function or method: its name and its ordered arguments, the receiver
/// excluded.
pub struct Function {
    pub name: String,
    pub args: Vec<TypeAlias>,
}

pub struct FunctionV {
    pub name: Seq<char>,
    pub args: Seq<TypeAliasV>,
}

impl View for Function {
    type V = FunctionV;

    open spec fn view(&self) -> FunctionV {
        FunctionV { name: self.name@, args: self.args.deep_view() }
    }
}

impl DeepView for Function {
    type V = FunctionV;

    open spec fn deep_view(&self) -> FunctionV {
        self.view()
    }
}

/// A structure: its ordered fields and its method map, populated only by
/// implementation blocks bound after the structure's own creation.
pub struct Struct {
    pub name: String,
    pub fields: Vec<TypeAlias>,
    pub methods: Vec<Function>,
}

pub struct StructV {
    pub name: Seq<char>,
    pub fields: Seq<TypeAliasV>,
    pub methods: Seq<FunctionV>,
}

impl View for Struct {
    type V = StructV;

    open spec fn view(&self) -> StructV {
        StructV {
            name: self.name@,
            fields: self.fields.deep_view(),
            methods: self.methods.deep_view(),
        }
    }
}

/// An enumeration: its ordered variant names; payload shapes are not
/// retained.
pub struct Enum {
    pub name: String,
    pub variants: Vec<String>,
}

pub struct EnumV {
    pub name: Seq<char>,
    pub variants: Seq<Seq<char>>,
}

impl View for Enum {
    type V = EnumV;

    open spec fn view(&self) -> EnumV {
        EnumV { name: self.name@, variants: self.variants.deep_view() }
    }
}

/// A trait: its method signatures, keyed by name; bodies are not retained.
pub struct Trait {
    pub name: String,
    pub functions: Vec<Function>,
}

pub struct TraitV {
    pub name: Seq<char>,
    pub functions: Seq<FunctionV>,
}

impl View for Trait {
    type V = TraitV;

    open spec fn view(&self) -> TraitV {
        TraitV { name: self.name@, functions: self.functions.deep_view() }
    }
}

/// A constant: its declared type and its initializer as opaque source text,
/// never evaluated.
pub struct Constant {
    pub name: String,
    pub ty: TypeExpr,
    pub value: String,
}

pub struct ConstantV {
    pub name: Seq<char>,
    pub ty: TypeExprV,
    pub value: Seq<char>,
}

impl View for Constant {
    type V = ConstantV;

    open spec fn view(&self) -> ConstantV {
        ConstantV { name: self.name@, ty: self.ty@, value: self.value@ }
    }
}

/// A macro invocation: its name and its tokens as opaque text, not
/// expanded.
pub struct Macro {
    pub name: String,
    pub body: String,
}

pub struct MacroV {
    pub name: Seq<char>,
    pub body: Seq<char>,
}

impl View for Macro {
    type V = MacroV;

    open spec fn view(&self) -> MacroV {
        MacroV { name: self.name@, body: self.body@ }
    }
}

/// One entity of a module's name-keyed entity map.
pub enum Entity {
    Structure(Struct),
    Enumeration(Enum),
    TraitDef(Trait),
    Func(Function),
    Const(Constant),
    MacroInv(Macro),
    Alias(TypeAlias),
}

pub enum EntityV {
    Structure(StructV),
    Enumeration(EnumV),
    TraitDef(TraitV),
    Func(FunctionV),
    Const(ConstantV),
    MacroInv(MacroV),
    Alias(TypeAliasV),
}

impl View for Entity {
    type V = EntityV;

    open spec fn view(&self) -> EntityV {
        match self {
            Entity::Structure(s) => EntityV::Structure(s@),
            Entity::Enumeration(e) => EntityV::Enumeration(e@),
            Entity::TraitDef(t) => EntityV::TraitDef(t@),
            Entity::Func(f) => EntityV::Func(f@),
            Entity::Const(c) => EntityV::Const(c@),
            Entity::MacroInv(m) => EntityV::MacroInv(m@),
            Entity::Alias(a) => EntityV::Alias(a@),
        }
    }
}

impl DeepView for Entity {
    type V = EntityV;

    open spec fn deep_view(&self) -> EntityV {
        self.view()
    }
}

/// The name an entity is keyed by.
pub open spec fn entity_name(e: EntityV) -> Seq<char> {
    match e {
        EntityV::Structure(s) => s.name,
        EntityV::Enumeration(n) => n.name,
        EntityV::TraitDef(t) => t.name,
        EntityV::Func(f) => f.name,
        EntityV::Const(c) => c.name,
        EntityV::MacroInv(m) => m.name,
        EntityV::Alias(a) => a.alias,
    }
}

/// One alias of a module's import map, bound to a qualified path.
pub struct Import {
    pub alias: String,
    pub path: String,
}

pub struct ImportV {
    pub alias: Seq<char>,
    pub path: Seq<char>,
}

impl View for Import {
    type V = ImportV;

    open spec fn view(&self) -> ImportV {
        ImportV { alias: self.alias@, path: self.path@ }
    }
}

impl DeepView for Import {
    type V = ImportV;

    open spec fn deep_view(&self) -> ImportV {
        self.view()
    }
}

/// A module: its entity map, its import alias map, and its submodules, each
/// keyed by name. The sequences are maps: a lookup takes the first entry
/// under the name, and an insertion overwrites that entry in place.
pub struct Module {
    pub name: String,
    pub entities: Vec<Entity>,
    pub imports: Vec<Import>,
    pub submodules: Vec<Module>,
}

pub struct ModuleV {
    pub name: Seq<char>,
    pub entities: Seq<EntityV>,
    pub imports: Seq<ImportV>,
    pub submodules: Seq<ModuleV>,
}

pub open spec fn module_view(m: Module) -> ModuleV
    decreases m,
{
    ModuleV {
        name: m.name@,
        entities: m.entities.deep_view(),
        imports: m.imports.deep_view(),
        submodules: modules_view(m.submodules@),
    }
}

pub open spec fn modules_view(s: Seq<Module>) -> Seq<ModuleV>
    decreases s,
{
    if s.len() == 0 {
        Seq::empty()
    } else {
        seq![module_view(s[0])] + modules_view(s.subrange(1, s.len() as int))
    }
}

/// Element-wise reading of `modules_view`.
pub proof fn lemma_modules_view(s: Seq<Module>)
    ensures
        modules_view(s).len() == s.len(),
        forall|i: int| 0 <= i < s.len() ==> #[trigger] modules_view(s)[i] == module_view(s[i]),
    decreases s,
{
    if s.len() > 0 {
        lemma_modules_view(s.subrange(1, s.len() as int));
    }
}

impl View for Module {
    type V = ModuleV;

    open spec fn view(&self) -> ModuleV {
        module_view(*self)
    }
}

/// The first index keyed by `k`, or -1 when no entry is.
pub open spec fn entity_index(s: Seq<EntityV>, k: Seq<char>) -> int
    decreases s.len(),
{
    if s.len() == 0 {
        -1
    } else if entity_name(s[0]) == k {
        0
    } else {
        let r = entity_index(s.subrange(1, s.len() as int), k);
        if r < 0 {
            -1
        } else {
            r + 1
        }
    }
}

/// The map under `s` after writing `e` under its name: the first entry under
/// that name overwritten in place, or `e` appended when the name is new.
pub open spec fn entity_upsert(s: Seq<EntityV>, e: EntityV) -> Seq<EntityV> {
    let i = entity_index(s, entity_name(e));
    if i < 0 {
        s.push(e)
    } else {
        s.update(i, e)
    }
}

/// The entry of `s` keyed by `k`, if any.
pub open spec fn entity_lookup(s: Seq<EntityV>, k: Seq<char>) -> Option<EntityV> {
    let i = entity_index(s, k);
    if i < 0 {
        None
    } else {
        Some(s[i])
    }
}

/// `entity_index` finds the first entry under `k`, and -1 exactly when no
/// entry is under `k`.
pub proof fn lemma_entity_index(s: Seq<EntityV>, k: Seq<char>)
    ensures
        -1 <= entity_index(s, k) < s.len(),
        entity_index(s, k) >= 0 ==> entity_name(s[entity_index(s, k)]) == k,
        forall|j: int|
            0 <= j < entity_index(s, k) ==> entity_name(#[trigger] s[j]) != k,
        entity_index(s, k) == -1 ==> forall|j: int|
            0 <= j < s.len() ==> entity_name(#[trigger] s[j]) != k,
    decreases s.len(),
{
    if s.len() > 0 {
        let sub = s.subrange(1, s.len() as int);
        lemma_entity_index(sub, k);
        assert(forall|j: int| 1 <= j < s.len() ==> #[trigger] s[j] == sub[j - 1]);
    }
}

/// As `entity_index`, for the import alias map.
pub open spec fn import_index(s: Seq<ImportV>, alias: Seq<char>) -> int
    decreases s.len(),
{
    if s.len() == 0 {
        -1
    } else if s[0].alias == alias {
        0
    } else {
        let r = import_index(s.subrange(1, s.len() as int), alias);
        if r < 0 {
            -1
        } else {
            r + 1
        }
    }
}

/// As `entity_upsert`, for the import alias map.
pub open spec fn import_upsert(s: Seq<ImportV>, imp: ImportV) -> Seq<ImportV> {
    let i = import_index(s, imp.alias);
    if i < 0 {
        s.push(imp)
    } else {
        s.update(i, imp)
    }
}

/// The qualified path an alias is bound to, if any.
pub open spec fn import_lookup(s: Seq<ImportV>, alias: Seq<char>) -> Option<Seq<char>> {
    let i = import_index(s, alias);
    if i < 0 {
        None
    } else {
        Some(s[i].path)
    }
}

/// As `lemma_entity_index`, for the import alias map.
pub proof fn lemma_import_index(s: Seq<ImportV>, alias: Seq<char>)
    ensures
        -1 <= import_index(s, alias) < s.len(),
        import_index(s, alias) >= 0 ==> s[import_index(s, alias)].alias == alias,
        forall|j: int| 0 <= j < import_index(s, alias) ==> (#[trigger] s[j]).alias != alias,
        import_index(s, alias) == -1 ==> forall|j: int|
            0 <= j < s.len() ==> (#[trigger] s[j]).alias != alias,
    decreases s.len(),
{
    if s.len() > 0 {
        let sub = s.subrange(1, s.len() as int);
        lemma_import_index(sub, alias);
        assert(forall|j: int| 1 <= j < s.len() ==> #[trigger] s[j] == sub[j - 1]);
    }
}

/// As `entity_index`, for a function map.
pub open spec fn function_index(s: Seq<FunctionV>, k: Seq<char>) -> int
    decreases s.len(),
{
    if s.len() == 0 {
        -1
    } else if s[0].name == k {
        0
    } else {
        let r = function_index(s.subrange(1, s.len() as int), k);
        if r < 0 {
            -1
        } else {
            r + 1
        }
    }
}

/// As `entity_upsert`, for a function map.
pub open spec fn function_upsert(s: Seq<FunctionV>, f: FunctionV) -> Seq<FunctionV> {
    let i = function_index(s, f.name);
    if i < 0 {
        s.push(f)
    } else {
        s.update(i, f)
    }
}

/// As `lemma_entity_index`, for a function map.
pub proof fn lemma_function_index(s: Seq<FunctionV>, k: Seq<char>)
    ensures
        -1 <= function_index(s, k) < s.len(),
        function_index(s, k) >= 0 ==> s[function_index(s, k)].name == k,
        forall|j: int| 0 <= j < function_index(s, k) ==> (#[trigger] s[j]).name != k,
        function_index(s, k) == -1 ==> forall|j: int|
            0 <= j < s.len() ==> (#[trigger] s[j]).name != k,
    decreases s.len(),
{
    if s.len() > 0 {
        let sub = s.subrange(1, s.len() as int);
        lemma_function_index(sub, k);
        assert(forall|j: int| 1 <= j < s.len() ==> #[trigger] s[j] == sub[j - 1]);
    }
}

/// As `entity_index`, for the submodule map.
pub open spec fn submodule_index(s: Seq<ModuleV>, k: Seq<char>) -> int
    decreases s.len(),
{
    if s.len() == 0 {
        -1
    } else if s[0].name == k {
        0
    } else {
        let r = submodule_index(s.subrange(1, s.len() as int), k);
        if r < 0 {
            -1
        } else {
            r + 1
        }
    }
}

/// As `entity_upsert`, for the submodule map.
pub open spec fn submodule_upsert(s: Seq<ModuleV>, m: ModuleV) -> Seq<ModuleV> {
    let i = submodule_index(s, m.name);
    if i < 0 {
        s.push(m)
    } else {
        s.update(i, m)
    }
}

/// As `lemma_entity_index`, for the submodule map.
pub proof fn lemma_submodule_index(s: Seq<ModuleV>, k: Seq<char>)
    ensures
        -1 <= submodule_index(s, k) < s.len(),
        submodule_index(s, k) >= 0 ==> s[submodule_index(s, k)].name == k,
        forall|j: int| 0 <= j < submodule_index(s, k) ==> (#[trigger] s[j]).name != k,
        submodule_index(s, k) == -1 ==> forall|j: int|
            0 <= j < s.len() ==> (#[trigger] s[j]).name != k,
    decreases s.len(),
{
    if s.len() > 0 {
        let sub = s.subrange(1, s.len() as int);
        lemma_submodule_index(sub, k);
        assert(forall|j: int| 1 <= j < s.len() ==> #[trigger] s[j] == sub[j - 1]);
    }
}

impl Entity {
    /// The name this entity is keyed by.
    pub fn key(&self) -> (k: &String)
        ensures
            k@ == entity_name(self@),
    {
        match self {
            Entity::Structure(s) => &s.name,
            Entity::Enumeration(e) => &e.name,
            Entity::TraitDef(t) => &t.name,
            Entity::Func(f) => &f.name,
            Entity::Const(c) => &c.name,
            Entity::MacroInv(m) => &m.name,
            Entity::Alias(a) => &a.alias,
        }
    }
}

/// The index of the first entity keyed by `k`, if any.
fn find_entity_idx(v: &Vec<Entity>, k: &str) -> (r: Option<usize>)
    ensures
        match r {
            Some(i) => entity_index(v.deep_view(), k@) == i && i < v.len(),
            None => entity_index(v.deep_view(), k@) == -1,
        },
{
    proof {
        lemma_entity_index(v.deep_view(), k@);
    }
    let mut i: usize = 0;
    while i < v.len()
        invariant
            i <= v.len(),
            v.deep_view().len() == v.len(),
            forall|j: int| 0 <= j < i ==> entity_name(#[trigger] v.deep_view()[j]) != k@,
        decreases v.len() - i,
    {
        if str_eq(v[i].key().as_str(), k) {
            proof {
                assert(v.deep_view()[i as int] == v@[i as int].deep_view());
                lemma_entity_index(v.deep_view(), k@);
            }
            return Some(i);
        }
        i = i + 1;
    }
    None
}

/// The qualified path bound to `alias`, if any.
pub fn lookup_import(imports: &Vec<Import>, alias: &str) -> (r: Option<String>)
    ensures
        match r {
            Some(p) => import_lookup(imports.deep_view(), alias@) == Some(p@),
            None => import_lookup(imports.deep_view(), alias@) is None,
        },
{
    proof {
        lemma_import_index(imports.deep_view(), alias@);
    }
    match find_import_idx(imports, alias) {
        Some(i) => {
            proof {
                assert(imports.deep_view()[i as int] == imports@[i as int].deep_view());
            }
            Some(imports[i].path.clone())
        },
        None => None,
    }
}

/// The index of the first import under `alias`, if any.
fn find_import_idx(v: &Vec<Import>, alias: &str) -> (r: Option<usize>)
    ensures
        match r {
            Some(i) => import_index(v.deep_view(), alias@) == i && i < v.len(),
            None => import_index(v.deep_view(), alias@) == -1,
        },
{
    proof {
        lemma_import_index(v.deep_view(), alias@);
    }
    let mut i: usize = 0;
    while i < v.len()
        invariant
            i <= v.len(),
            v.deep_view().len() == v.len(),
            forall|j: int| 0 <= j < i ==> (#[trigger] v.deep_view()[j]).alias != alias@,
        decreases v.len() - i,
    {
        if str_eq(v[i].alias.as_str(), alias) {
            proof {
                assert(v.deep_view()[i as int] == v@[i as int].deep_view());
                lemma_import_index(v.deep_view(), alias@);
            }
            return Some(i);
        }
        i = i + 1;
    }
    None
}

/// The index of the first function named `k`, if any.
fn find_function_idx(v: &Vec<Function>, k: &str) -> (r: Option<usize>)
    ensures
        match r {
            Some(i) => function_index(v.deep_view(), k@) == i && i < v.len(),
            None => function_index(v.deep_view(), k@) == -1,
        },
{
    proof {
        lemma_function_index(v.deep_view(), k@);
    }
    let mut i: usize = 0;
    while i < v.len()
        invariant
            i <= v.len(),
            v.deep_view().len() == v.len(),
            forall|j: int| 0 <= j < i ==> (#[trigger] v.deep_view()[j]).name != k@,
        decreases v.len() - i,
    {
        if str_eq(v[i].name.as_str(), k) {
            proof {
                assert(v.deep_view()[i as int] == v@[i as int].deep_view());
                lemma_function_index(v.deep_view(), k@);
            }
            return Some(i);
        }
        i = i + 1;
    }
    None
}

/// Writes `f` into the function map, overwriting the function of the same
/// name if one is there.
pub fn upsert_function(fs: &mut Vec<Function>, f: Function)
    ensures
        final(fs).deep_view() == function_upsert(old(fs).deep_view(), f@),
{
    let idx = find_function_idx(fs, f.name.as_str());
    let ghost s0 = fs.deep_view();
    match idx {
        Some(i) => {
            fs.set(i, f);
            proof {
                assert(fs.deep_view() =~= s0.update(i as int, f@));
            }
        },
        None => {
            fs.push(f);
            proof {
                assert(fs.deep_view() =~= s0.push(f@));
            }
        },
    }
}

impl Module {
    /// Writes `e` into the entity map, overwriting the entity of the same
    /// name if one is there.
    pub fn upsert_entity(&mut self, e: Entity)
        ensures
            final(self)@ == (ModuleV {
                entities: entity_upsert(old(self)@.entities, e@),
                ..old(self)@
            }),
    {
        let idx = find_entity_idx(&self.entities, e.key().as_str());
        let ghost s0 = self.entities.deep_view();
        match idx {
            Some(i) => {
                self.entities.set(i, e);
                proof {
                    assert(self.entities.deep_view() =~= s0.update(i as int, e@));
                }
            },
            None => {
                self.entities.push(e);
                proof {
                    assert(self.entities.deep_view() =~= s0.push(e@));
                }
            },
        }
    }

    /// Binds `alias` to a qualified path, overwriting an earlier binding of
    /// the same alias.
    pub fn upsert_import(&mut self, imp: Import)
        ensures
            final(self)@ == (ModuleV {
                imports: import_upsert(old(self)@.imports, imp@),
                ..old(self)@
            }),
    {
        upsert_import_in(&mut self.imports, imp);
    }

    /// Writes a submodule under its name, overwriting the submodule of the
    /// same name if one is there.
    pub fn upsert_submodule(&mut self, sm: Module)
        ensures
            final(self)@ == (ModuleV {
                submodules: submodule_upsert(old(self)@.submodules, sm@),
                ..old(self)@
            }),
    {
        let idx = find_submodule_idx(&self.submodules, sm.name.as_str());
        let ghost s0 = modules_view(self.submodules@);
        proof {
            lemma_modules_view(self.submodules@);
        }
        match idx {
            Some(i) => {
                self.submodules.set(i, sm);
                proof {
                    lemma_modules_view(self.submodules@);
                    assert(modules_view(self.submodules@) =~= s0.update(i as int, module_view(sm)));
                }
            },
            None => {
                self.submodules.push(sm);
                proof {
                    lemma_modules_view(self.submodules@);
                    assert(modules_view(self.submodules@) =~= s0.push(module_view(sm)));
                }
            },
        }
    }
}

/// A non-fatal condition: the offending construct is dropped from the
/// model and the pass goes on.
pub enum Warning {
    /// A top-level declaration kind outside the model.
    UnsupportedItem,
    /// An implementation block whose target is not a simple named-type
    /// path.
    UnsupportedImplTarget,
    /// An implementation block whose target structure is not in the
    /// current module.
    StructNotFound { name: String },
}

pub enum WarningV {
    UnsupportedItem,
    UnsupportedImplTarget,
    StructNotFound { name: Seq<char> },
}

impl View for Warning {
    type V = WarningV;

    open spec fn view(&self) -> WarningV {
        match self {
            Warning::UnsupportedItem => WarningV::UnsupportedItem,
            Warning::UnsupportedImplTarget => WarningV::UnsupportedImplTarget,
            Warning::StructNotFound { name } => WarningV::StructNotFound { name: name@ },
        }
    }
}

impl DeepView for Warning {
    type V = WarningV;

    open spec fn deep_view(&self) -> WarningV {
        self.view()
    }
}

/// Declared fields as field records, in order; a tuple field keeps its
/// empty name.
pub open spec fn fields_of_decls(fs: Seq<FieldDeclV>) -> Seq<TypeAliasV> {
    fs.map_values(|f: FieldDeclV| TypeAliasV { alias: f.name, ty: f.ty })
}

/// Declared parameters as argument records, in order, the receiver
/// excluded.
pub open spec fn args_of_params(ps: Seq<FnParamV>) -> Seq<TypeAliasV>
    decreases ps.len(),
{
    if ps.len() == 0 {
        Seq::empty()
    } else {
        let rest = args_of_params(ps.subrange(1, ps.len() as int));
        match ps[0] {
            FnParamV::Receiver => rest,
            FnParamV::Typed { name, ty } => seq![TypeAliasV { alias: name, ty }] + rest,
        }
    }
}

/// The function record a declaration yields.
pub open spec fn function_of_decl(d: FnDeclV) -> FunctionV {
    FunctionV { name: d.name, args: args_of_params(d.params) }
}

/// The function map after writing each declaration's record, in order.
pub open spec fn functions_fold(fs: Seq<FunctionV>, ds: Seq<FnDeclV>) -> Seq<FunctionV>
    decreases ds.len(),
{
    if ds.len() == 0 {
        fs
    } else {
        functions_fold(function_upsert(fs, function_of_decl(ds[0])), ds.subrange(1, ds.len() as int))
    }
}

/// What an implementation block does to a module: for a simple named-type
/// path target whose last segment names a structure of the module, each
/// contained method is written into that structure's method map; any other
/// target, or a missing structure, drops the block with a warning.
pub open spec fn bind_impl(m: ModuleV, target: TypeExprV, methods: Seq<FnDeclV>) -> (
    ModuleV,
    Seq<WarningV>,
) {
    match target {
        TypeExprV::Path { segments, args } => {
            if args.len() == 0 && segments.len() > 0 {
                let name = segments.last();
                match entity_lookup(m.entities, name) {
                    Some(EntityV::Structure(st)) => (
                        ModuleV {
                            entities: entity_upsert(
                                m.entities,
                                EntityV::Structure(
                                    StructV { methods: functions_fold(st.methods, methods), ..st },
                                ),
                            ),
                            ..m
                        },
                        Seq::empty(),
                    ),
                    _ => (m, seq![WarningV::StructNotFound { name }]),
                }
            } else {
                (m, seq![WarningV::UnsupportedImplTarget])
            }
        },
        _ => (m, seq![WarningV::UnsupportedImplTarget]),
    }
}

/// What one non-module declaration does to the module and which warnings
/// it raises; a submodule declaration is the resolver's business and
/// leaves the module as it is here.
pub open spec fn apply_item(m: ModuleV, item: ItemV) -> (ModuleV, Seq<WarningV>) {
    match item {
        ItemV::Use { tree } => (
            ModuleV { imports: import_upsert_all(m.imports, use_entries(tree, Seq::empty())), ..m },
            Seq::empty(),
        ),
        ItemV::StructDecl { name, fields } => (
            ModuleV {
                entities: entity_upsert(
                    m.entities,
                    EntityV::Structure(
                        StructV { name, fields: fields_of_decls(fields), methods: Seq::empty() },
                    ),
                ),
                ..m
            },
            Seq::empty(),
        ),
        ItemV::EnumDecl { name, variants } => (
            ModuleV {
                entities: entity_upsert(m.entities, EntityV::Enumeration(EnumV { name, variants })),
                ..m
            },
            Seq::empty(),
        ),
        ItemV::TraitDecl { name, methods } => (
            ModuleV {
                entities: entity_upsert(
                    m.entities,
                    EntityV::TraitDef(
                        TraitV { name, functions: functions_fold(Seq::empty(), methods) },
                    ),
                ),
                ..m
            },
            Seq::empty(),
        ),
        ItemV::FunctionDecl { decl } => (
            ModuleV {
                entities: entity_upsert(m.entities, EntityV::Func(function_of_decl(decl))),
                ..m
            },
            Seq::empty(),
        ),
        ItemV::ImplBlock { target, methods } => bind_impl(m, target, methods),
        ItemV::ConstDecl { name, ty, value } => (
            ModuleV {
                entities: entity_upsert(m.entities, EntityV::Const(ConstantV { name, ty, value })),
                ..m
            },
            Seq::empty(),
        ),
        ItemV::TypeAliasDecl { name, ty } => (
            ModuleV {
                entities: entity_upsert(m.entities, EntityV::Alias(TypeAliasV { alias: name, ty })),
                ..m
            },
            Seq::empty(),
        ),
        ItemV::ModDecl { name, inline } => (m, Seq::empty()),
        ItemV::MacroCall { name, tokens } => (
            ModuleV {
                entities: entity_upsert(
                    m.entities,
                    EntityV::MacroInv(MacroV { name, body: tokens }),
                ),
                ..m
            },
            Seq::empty(),
        ),
        ItemV::Unsupported => (m, seq![WarningV::UnsupportedItem]),
    }
}

/// One source file being turned into a module tree: the folder it lives
/// in, its file stem, and its parsed root modules keyed by name.
pub struct File {
    pub folder: Vec<String>,
    pub file_stem: String,
    pub modules: Vec<Module>,
}

pub struct FileV {
    pub folder: Seq<Seq<char>>,
    pub file_stem: Seq<char>,
    pub modules: Seq<ModuleV>,
}

impl View for File {
    type V = FileV;

    open spec fn view(&self) -> FileV {
        FileV {
            folder: self.folder.deep_view(),
            file_stem: self.file_stem@,
            modules: modules_view(self.modules@),
        }
    }
}

impl File {
    /// A new file record with no modules parsed yet.
    pub fn new(file_stem: String, folder: Vec<String>) -> (f: File)
        ensures
            f@ == (FileV {
                folder: folder.deep_view(),
                file_stem: file_stem@,
                modules: Seq::<ModuleV>::empty(),
            }),
    {
        File { folder, file_stem, modules: Vec::new() }
    }

    /// Walks one import declaration's tree, binding every alias it
    /// contributes into the module's import map; `prefix` is the
    /// accumulated path and is handed back as it came.
    pub fn parse_use_tree(tree: &UseTree, prefix: &mut Vec<String>, module: &mut Module)
        ensures
            final(module)@ == (ModuleV {
                imports: import_upsert_all(
                    old(module)@.imports,
                    use_entries(tree@, old(prefix).deep_view()),
                ),
                ..old(module)@
            }),
            final(prefix)@ == old(prefix)@,
        decreases *tree,
    {
        let ghost pre0 = prefix.deep_view();
        let ghost pre0s = prefix@;
        match tree {
            UseTree::Prefix { ident, rest } => {
                prefix.push(ident.clone());
                proof {
                    assert(prefix.deep_view() =~= pre0.push(ident@));
                }
                File::parse_use_tree(rest, prefix, module);
                prefix.pop();
                proof {
                    assert(prefix@ =~= pre0s);
                }
            },
            UseTree::Name { ident } => {
                prefix.push(ident.clone());
                proof {
                    assert(prefix.deep_view() =~= pre0.push(ident@));
                }
                let path = crate::strutil::join_segments(prefix, "::");
                prefix.pop();
                proof {
                    assert(prefix@ =~= pre0s);
                }
                module.upsert_import(Import { alias: ident.clone(), path });
                proof {
                    let e = ImportV { alias: ident@, path: seq_join(pre0.push(ident@), "::"@) };
                    lemma_import_upsert_all_single(old(module)@.imports, e);
                }
            },
            UseTree::Rename { ident, alias } => {
                prefix.push(ident.clone());
                proof {
                    assert(prefix.deep_view() =~= pre0.push(ident@));
                }
                let path = crate::strutil::join_segments(prefix, "::");
                prefix.pop();
                proof {
                    assert(prefix@ =~= pre0s);
                }
                module.upsert_import(Import { alias: alias.clone(), path });
                proof {
                    let e = ImportV { alias: alias@, path: seq_join(pre0.push(ident@), "::"@) };
                    lemma_import_upsert_all_single(old(module)@.imports, e);
                }
            },
            UseTree::Group { items } => {
                let ghost m0 = module@;
                let ghost itemsv = crate::ast::use_trees_view(items@);
                proof {
                    lemma_use_trees_view(items@);
                }
                let mut j: usize = 0;
                while j < items.len()
                    invariant
                        j <= items.len(),
                        itemsv.len() == items.len(),
                        itemsv == crate::ast::use_trees_view(items@),
                        forall|x: int| 0 <= x < items.len() ==> #[trigger] itemsv[x]
                            == use_tree_view(items@[x]),
                        prefix@ == pre0s,
                        prefix.deep_view() == pre0,
                        module@ == (ModuleV {
                            imports: import_upsert_all(
                                m0.imports,
                                use_entries_list(itemsv.take(j as int), pre0),
                            ),
                            ..m0
                        }),
                        forall|x: int| 0 <= x < items.len() ==> decreases_to!(*tree => items@[x]),
                    decreases items.len() - j,
                {
                    proof {
                        lemma_use_entries_list_snoc(itemsv.take(j as int), itemsv[j as int], pre0);
                        lemma_import_upsert_all_concat(
                            m0.imports,
                            use_entries_list(itemsv.take(j as int), pre0),
                            use_entries(itemsv[j as int], pre0),
                        );
                        assert(itemsv.take(j as int).push(itemsv[j as int]) =~= itemsv.take(
                            j as int + 1,
                        ));
                    }
                    File::parse_use_tree(&items[j], prefix, module);
                    j = j + 1;
                }
                proof {
                    assert(itemsv.take(items.len() as int) =~= itemsv);
                }
            },
            UseTree::Glob => {
                proof {
                    assert(import_upsert_all(old(module)@.imports, Seq::empty())
                        == old(module)@.imports);
                }
            },
        }
    }
}

impl Module {
    /// Declared fields as field records, in order.
    pub fn parse_fields(mut fields: Vec<FieldDecl>) -> (r: Vec<TypeAlias>)
        ensures
            r.deep_view() == fields_of_decls(fields.deep_view()),
    {
        let ghost fv = fields.deep_view();
        let mut out: Vec<TypeAlias> = Vec::new();
        while fields.len() > 0
            invariant
                out.len() + fields.len() == fv.len(),
                fields.deep_view() =~= fv.subrange(out.len() as int, fv.len() as int),
                forall|i: int| 0 <= i < out.len() ==> #[trigger] out.deep_view()[i]
                    == (TypeAliasV { alias: fv[i].name, ty: fv[i].ty }),
            decreases fields.len(),
        {
            let ghost outv0 = out.deep_view();
            let ghost remv0 = fields.deep_view();
            let f = fields.remove(0);
            let FieldDecl { name, ty } = f;
            out.push(TypeAlias { alias: name, ty });
            proof {
                assert(fields.deep_view() =~= remv0.subrange(1, remv0.len() as int));
                assert(out.deep_view() =~= outv0.push(TypeAliasV { alias: f@.name, ty: f@.ty }));
                assert(f@ == remv0[0]);
                assert(remv0[0] == fv[outv0.len() as int]);
            }
        }
        proof {
            assert(out.deep_view() =~= fields_of_decls(fv));
        }
        out
    }

    /// Declared parameters as argument records, in order, the receiver
    /// excluded.
    pub fn parse_args(mut params: Vec<FnParam>) -> (r: Vec<TypeAlias>)
        ensures
            r.deep_view() == args_of_params(params.deep_view()),
    {
        let ghost pv = params.deep_view();
        let mut out: Vec<TypeAlias> = Vec::new();
        while params.len() > 0
            invariant
                args_of_params(pv) == out.deep_view() + args_of_params(params.deep_view()),
            decreases params.len(),
        {
            let ghost outv0 = out.deep_view();
            let ghost remv0 = params.deep_view();
            let p = params.remove(0);
            proof {
                assert(params.deep_view() =~= remv0.subrange(1, remv0.len() as int));
                assert(p@ == remv0[0]);
            }
            match p {
                FnParam::Receiver => {
                    proof {
                        assert(args_of_params(remv0) == args_of_params(params.deep_view()));
                    }
                },
                FnParam::Typed { name, ty } => {
                    let ghost tv = TypeAliasV { alias: name@, ty: ty@ };
                    out.push(TypeAlias { alias: name, ty });
                    proof {
                        assert(out.deep_view() =~= outv0.push(tv));
                        assert(args_of_params(remv0) == seq![tv] + args_of_params(
                            params.deep_view(),
                        ));
                        assert(outv0 + (seq![tv] + args_of_params(params.deep_view()))
                            =~= outv0.push(tv) + args_of_params(params.deep_view()));
                    }
                },
            }
        }
        proof {
            assert(args_of_params(params.deep_view()) == Seq::<TypeAliasV>::empty());
            assert(out.deep_view() + Seq::<TypeAliasV>::empty() =~= out.deep_view());
        }
        out
    }

    /// Builds the method record of one declaration and writes it into a
    /// method map.
    pub fn parse_method(methods: &mut Vec<Function>, decl: FnDecl)
        ensures
            final(methods).deep_view() == function_upsert(
                old(methods).deep_view(),
                function_of_decl(decl@),
            ),
    {
        let FnDecl { name, params } = decl;
        let args = Module::parse_args(params);
        upsert_function(methods, Function { name, args });
    }

    /// Records a structure declaration: its fields in order, its method
    /// map empty until an implementation block is bound.
    pub fn parse_struct(&mut self, name: String, fields: Vec<FieldDecl>)
        ensures
            final(self)@ == apply_item(
                old(self)@,
                ItemV::StructDecl { name: name@, fields: fields.deep_view() },
            ).0,
    {
        let fields = Module::parse_fields(fields);
        let methods: Vec<Function> = Vec::new();
        proof {
            assert(methods.deep_view() =~= Seq::<FunctionV>::empty());
        }
        self.upsert_entity(Entity::Structure(Struct { name, fields, methods }));
    }

    /// Records a free function declaration.
    pub fn parse_function(&mut self, decl: FnDecl)
        ensures
            final(self)@ == apply_item(old(self)@, ItemV::FunctionDecl { decl: decl@ }).0,
    {
        let FnDecl { name, params } = decl;
        let args = Module::parse_args(params);
        self.upsert_entity(Entity::Func(Function { name, args }));
    }

    /// Records an enumeration declaration.
    pub fn parse_enum(&mut self, name: String, variants: Vec<String>)
        ensures
            final(self)@ == apply_item(
                old(self)@,
                ItemV::EnumDecl { name: name@, variants: variants.deep_view() },
            ).0,
    {
        self.upsert_entity(Entity::Enumeration(Enum { name, variants }));
    }

    /// Records a constant declaration; its initializer stays opaque text.
    pub fn parse_constant(&mut self, name: String, ty: TypeExpr, value: String)
        ensures
            final(self)@ == apply_item(
                old(self)@,
                ItemV::ConstDecl { name: name@, ty: ty@, value: value@ },
            ).0,
    {
        self.upsert_entity(Entity::Const(Constant { name, ty, value }));
    }

    /// Records a type alias declaration.
    pub fn parse_type_alias(&mut self, name: String, ty: TypeExpr)
        ensures
            final(self)@ == apply_item(old(self)@, ItemV::TypeAliasDecl { name: name@, ty: ty@ }).0,
    {
        self.upsert_entity(Entity::Alias(TypeAlias { alias: name, ty }));
    }

    /// Records a macro invocation; its tokens stay opaque text.
    pub fn parse_macro(&mut self, name: String, tokens: String)
        ensures
            final(self)@ == apply_item(
                old(self)@,
                ItemV::MacroCall { name: name@, tokens: tokens@ },
            ).0,
    {
        self.upsert_entity(Entity::MacroInv(Macro { name, body: tokens }));
    }

    /// Records a trait declaration: its method map holds one record per
    /// declared signature, a later signature of the same name overwriting
    /// the earlier.
    pub fn parse_trait(&mut self, name: String, mut methods: Vec<FnDecl>)
        ensures
            final(self)@ == apply_item(
                old(self)@,
                ItemV::TraitDecl { name: name@, methods: methods.deep_view() },
            ).0,
    {
        let ghost dv = methods.deep_view();
        let mut functions: Vec<Function> = Vec::new();
        proof {
            assert(functions.deep_view() =~= Seq::<FunctionV>::empty());
        }
        while methods.len() > 0
            invariant
                functions_fold(Seq::empty(), dv) == functions_fold(
                    functions.deep_view(),
                    methods.deep_view(),
                ),
            decreases methods.len(),
        {
            let ghost remv0 = methods.deep_view();
            let d = methods.remove(0);
            proof {
                assert(methods.deep_view() =~= remv0.subrange(1, remv0.len() as int));
                assert(d@ == remv0[0]);
            }
            Module::parse_method(&mut functions, d);
        }
        self.upsert_entity(Entity::TraitDef(Trait { name, functions }));
    }

    /// Binds an implementation block: for a simple named-type path target
    /// naming a structure of this module, writes each method into that
    /// structure's method map; otherwise drops the block with a warning.
    pub fn parse_impl(&mut self, target: TypeExpr, mut methods: Vec<FnDecl>, warnings: &mut Vec<
        Warning,
    >)
        ensures
            final(self)@ == bind_impl(old(self)@, target@, methods.deep_view()).0,
            final(warnings).deep_view() == old(warnings).deep_view() + bind_impl(
                old(self)@,
                target@,
                methods.deep_view(),
            ).1,
    {
        let ghost w0 = warnings.deep_view();
        match target {
            TypeExpr::Path { mut segments, args } => {
                proof {
                    lemma_type_exprs_view(args@);
                    assert(target@ == (TypeExprV::Path {
                        segments: segments.deep_view(),
                        args: type_exprs_view(args@),
                    }));
                }
                if args.len() == 0 && segments.len() > 0 {
                    let ghost segv = segments.deep_view();
                    let name = match segments.pop() {
                        Some(n) => n,
                        None => {
                            proof {
                                assert(false);
                            }
                            String::new()
                        },
                    };
                    proof {
                        assert(name@ == segv.last());
                    }
                    let idx = find_entity_idx(&self.entities, name.as_str());
                    let ghost ents0 = self.entities.deep_view();
                    match idx {
                        Some(i) => {
                            let ent = self.entities.remove(i);
                            proof {
                                assert(ent.deep_view() == ents0[i as int]);
                            }
                            match ent {
                                Entity::Structure(st) => {
                                    let Struct { name: sname, fields, methods: mut ms } = st;
                                    let ghost st0 = StructV {
                                        name: sname@,
                                        fields: fields.deep_view(),
                                        methods: ms.deep_view(),
                                    };
                                    let ghost dv = methods.deep_view();
                                    while methods.len() > 0
                                        invariant
                                            functions_fold(st0.methods, dv) == functions_fold(
                                                ms.deep_view(),
                                                methods.deep_view(),
                                            ),
                                        decreases methods.len(),
                                    {
                                        let ghost remv0 = methods.deep_view();
                                        let d = methods.remove(0);
                                        proof {
                                            assert(methods.deep_view() =~= remv0.subrange(
                                                1,
                                                remv0.len() as int,
                                            ));
                                            assert(d@ == remv0[0]);
                                        }
                                        Module::parse_method(&mut ms, d);
                                    }
                                    proof {
                                        assert(methods.deep_view().len() == 0);
                                        assert(functions_fold(st0.methods, dv) == ms.deep_view());
                                        lemma_entity_index(ents0, segv.last());
                                    }
                                    let rebuilt = Struct { name: sname, fields, methods: ms };
                                    let ghost newent = EntityV::Structure(
                                        StructV { methods: functions_fold(st0.methods, dv), ..st0 },
                                    );
                                    self.entities.insert(i, Entity::Structure(rebuilt));
                                    proof {
                                        assert(self.entities.deep_view() =~= ents0.update(
                                            i as int,
                                            newent,
                                        ));
                                        assert(warnings.deep_view() =~= w0
                                            + Seq::<WarningV>::empty());
                                    }
                                },
                                other => {
                                    self.entities.insert(i, other);
                                    proof {
                                        assert(self.entities.deep_view() =~= ents0);
                                    }
                                    warnings.push(Warning::StructNotFound { name });
                                    proof {
                                        assert(warnings.deep_view() =~= w0.push(
                                            WarningV::StructNotFound { name: segv.last() },
                                        ));
                                        assert(w0.push(WarningV::StructNotFound {
                                            name: segv.last(),
                                        }) =~= w0 + seq![WarningV::StructNotFound {
                                            name: segv.last(),
                                        }]);
                                    }
                                },
                            }
                        },
                        None => {
                            warnings.push(Warning::StructNotFound { name });
                            proof {
                                assert(warnings.deep_view() =~= w0.push(WarningV::StructNotFound {
                                    name: segv.last(),
                                }));
                                assert(w0.push(WarningV::StructNotFound { name: segv.last() }) =~= w0
                                    + seq![WarningV::StructNotFound { name: segv.last() }]);
                            }
                        },
                    }
                } else {
                    warnings.push(Warning::UnsupportedImplTarget);
                    proof {
                        assert(warnings.deep_view() =~= w0.push(WarningV::UnsupportedImplTarget));
                        assert(w0.push(WarningV::UnsupportedImplTarget) =~= w0
                            + seq![WarningV::UnsupportedImplTarget]);
                    }
                }
            },
            _ => {
                warnings.push(Warning::UnsupportedImplTarget);
                proof {
                    assert(warnings.deep_view() =~= w0.push(WarningV::UnsupportedImplTarget));
                    assert(w0.push(WarningV::UnsupportedImplTarget) =~= w0
                        + seq![WarningV::UnsupportedImplTarget]);
                }
            },
        }
    }
}

impl File {
    /// Processes one declaration against the module: imports, entities and
    /// bound methods per kind; a submodule declaration recurses on its
    /// inline body or on the first usable backing file of the four
    /// candidate paths.
    fn parse_item(
        tree: &SourceTree,
        module: &mut Module,
        item: Item,
        dir: &Vec<String>,
        fuel: usize,
        warnings: &mut Vec<Warning>,
    ) -> (r: Result<(), ParseError>)
        ensures
            ({
                let sr = spec_item(tree@, old(module)@, item@, dir.deep_view(), fuel as nat);
                match sr {
                    Ok(p) => r is Ok && final(module)@ == p.0 && final(warnings).deep_view()
                        == old(warnings).deep_view() + p.1,
                    Err(e) => is_err(r, e),
                }
            }),
        decreases fuel, item@, 1int,
    {
        let ghost w0 = warnings.deep_view();
        match item {
            Item::Use { tree: use_tree } => {
                let mut prefix: Vec<String> = Vec::new();
                proof {
                    assert(prefix.deep_view() =~= Seq::<Seq<char>>::empty());
                }
                File::parse_use_tree(&use_tree, &mut prefix, module);
                proof {
                    assert(w0 + Seq::<WarningV>::empty() =~= w0);
                }
                Ok(())
            },
            Item::StructDecl { name, fields } => {
                module.parse_struct(name, fields);
                proof {
                    assert(w0 + Seq::<WarningV>::empty() =~= w0);
                }
                Ok(())
            },
            Item::EnumDecl { name, variants } => {
                module.parse_enum(name, variants);
                proof {
                    assert(w0 + Seq::<WarningV>::empty() =~= w0);
                }
                Ok(())
            },
            Item::TraitDecl { name, methods } => {
                module.parse_trait(name, methods);
                proof {
                    assert(w0 + Seq::<WarningV>::empty() =~= w0);
                }
                Ok(())
            },
            Item::FunctionDecl { decl } => {
                module.parse_function(decl);
                proof {
                    assert(w0 + Seq::<WarningV>::empty() =~= w0);
                }
                Ok(())
            },
            Item::ImplBlock { target, methods } => {
                module.parse_impl(target, methods, warnings);
                Ok(())
            },
            Item::ConstDecl { name, ty, value } => {
                module.parse_constant(name, ty, value);
                proof {
                    assert(w0 + Seq::<WarningV>::empty() =~= w0);
                }
                Ok(())
            },
            Item::TypeAliasDecl { name, ty } => {
                module.parse_type_alias(name, ty);
                proof {
                    assert(w0 + Seq::<WarningV>::empty() =~= w0);
                }
                Ok(())
            },
            Item::MacroCall { name, tokens } => {
                module.parse_macro(name, tokens);
                proof {
                    assert(w0 + Seq::<WarningV>::empty() =~= w0);
                }
                Ok(())
            },
            Item::Unsupported => {
                warnings.push(Warning::UnsupportedItem);
                proof {
                    assert(warnings.deep_view() =~= w0.push(WarningV::UnsupportedItem));
                    assert(w0.push(WarningV::UnsupportedItem) =~= w0 + seq![
                        WarningV::UnsupportedItem,
                    ]);
                }
                Ok(())
            },
            Item::ModDecl { name, inline } => {
                module.parse_submodule(tree, name, inline, dir, fuel, warnings)
            },
        }
    }

    /// Processes a file's declarations in order; the first fatal error
    /// aborts the file.
    fn parse_items(
        tree: &SourceTree,
        module: &mut Module,
        items: Vec<Item>,
        dir: &Vec<String>,
        fuel: usize,
        warnings: &mut Vec<Warning>,
    ) -> (r: Result<(), ParseError>)
        ensures
            ({
                let sr = spec_items(
                    tree@,
                    old(module)@,
                    items_view(items@),
                    dir.deep_view(),
                    fuel as nat,
                );
                match sr {
                    Ok(p) => r is Ok && final(module)@ == p.0 && final(warnings).deep_view()
                        == old(warnings).deep_view() + p.1,
                    Err(e) => is_err(r, e),
                }
            }),
        decreases fuel, items_view(items@), 2int,
    {
        let ghost w0 = warnings.deep_view();
        let ghost iv = items_view(items@);
        proof {
            lemma_items_view(items@);
        }
        if items.len() == 0 {
            proof {
                assert(w0 + Seq::<WarningV>::empty() =~= w0);
            }
            Ok(())
        } else {
            let mut rest = items;
            let it = rest.remove(0);
            proof {
                assert(rest@ =~= items@.subrange(1, items@.len() as int));
                lemma_items_view(rest@);
                assert(items_view(rest@) =~= iv.subrange(1, iv.len() as int));
                assert(item_view(it) == iv[0]);
            }
            match File::parse_item(tree, module, it, dir, fuel, warnings) {
                Err(e) => Err(e),
                Ok(()) => {
                    let ghost w1 = warnings.deep_view();
                    match File::parse_items(tree, module, rest, dir, fuel, warnings) {
                        Err(e) => Err(e),
                        Ok(()) => {
                            proof {
                                let sr1 = spec_item(
                                    tree@,
                                    old(module)@,
                                    iv[0],
                                    dir.deep_view(),
                                    fuel as nat,
                                );
                                match sr1 {
                                    Ok(p1) => {
                                        let sr2 = spec_items(
                                            tree@,
                                            p1.0,
                                            iv.subrange(1, iv.len() as int),
                                            dir.deep_view(),
                                            fuel as nat,
                                        );
                                        match sr2 {
                                            Ok(p2) => {
                                                assert((w0 + p1.1) + p2.1 =~= w0 + (p1.1 + p2.1));
                                            },
                                            Err(e) => {},
                                        }
                                    },
                                    Err(e) => {},
                                }
                            }
                            Ok(())
                        },
                    }
                },
            }
        }
    }
}

/// The view of an optional inline module body.
pub open spec fn inline_view(o: Option<Vec<Item>>) -> Option<Seq<ItemV>> {
    match o {
        Some(b) => Some(items_view(b@)),
        None => None,
    }
}

impl Module {
    /// Resolves one submodule declaration, as `spec_item` describes for a
    /// module declaration: an inline body is processed directly under a
    /// fresh module; otherwise the first usable of the four candidate
    /// files backs the submodule, and with none the declaration fails
    /// fatally.
    pub fn parse_submodule(
        &mut self,
        tree: &SourceTree,
        name: String,
        inline: Option<Vec<Item>>,
        dir: &Vec<String>,
        fuel: usize,
        warnings: &mut Vec<Warning>,
    ) -> (r: Result<(), ParseError>)
        ensures
            ({
                let sr = spec_item(
                    tree@,
                    old(self)@,
                    ItemV::ModDecl { name: name@, inline: inline_view(inline) },
                    dir.deep_view(),
                    fuel as nat,
                );
                match sr {
                    Ok(p) => r is Ok && final(self)@ == p.0 && final(warnings).deep_view()
                        == old(warnings).deep_view() + p.1,
                    Err(e) => is_err(r, e),
                }
            }),
        decreases fuel, (ItemV::ModDecl { name: name@, inline: inline_view(inline) }), 0int,
    {
        match inline {
            Some(body) => {
                let mut d2 = dup_strings(dir);
                d2.push(name.clone());
                proof {
                    assert(d2.deep_view() =~= dir.deep_view().push(name@));
                }
                let mut sub = Module::new(name.clone());
                proof {
                    assert(sub@ == empty_module(name@));
                }
                match File::parse_items(tree, &mut sub, body, &d2, fuel, warnings) {
                    Err(e) => Err(e),
                    Ok(()) => {
                        self.upsert_submodule(sub);
                        Ok(())
                    },
                }
            },
            None => {
                if fuel == 0 {
                    return Err(ParseError::RecursionLimit);
                }
                let mod_stem = String::from_str("mod");
                let mut c2d = dup_strings(dir);
                c2d.push(name.clone());
                let mut c3d = dup_strings(dir);
                c3d.push(self.name.clone());
                let mut c4d = dup_strings(&c3d);
                c4d.push(name.clone());
                proof {
                    assert(c2d.deep_view() =~= dir.deep_view().push(name@));
                    assert(c3d.deep_view() =~= dir.deep_view().push(self.name@));
                    assert(c4d.deep_view() =~= dir.deep_view().push(self.name@).push(name@));
                }
                let picked: Option<(&Vec<String>, &String)> = if file_usable_exec(
                    tree,
                    dir,
                    name.as_str(),
                ) {
                    Some((dir, &name))
                } else if file_usable_exec(tree, &c2d, mod_stem.as_str()) {
                    Some((&c2d, &mod_stem))
                } else if file_usable_exec(tree, &c3d, name.as_str()) {
                    Some((&c3d, &name))
                } else if file_usable_exec(tree, &c4d, mod_stem.as_str()) {
                    Some((&c4d, &mod_stem))
                } else {
                    None
                };
                match picked {
                    None => Err(ParseError::ModuleNotFound { name }),
                    Some((cdir, cstem)) => {
                        match File::parse_file_inner(tree, cdir, cstem, fuel - 1, warnings) {
                            Err(e) => Err(e),
                            Ok(mut sub) => {
                                sub.name = name;
                                self.upsert_submodule(sub);
                                Ok(())
                            },
                        }
                    },
                }
            },
        }
    }
}

impl File {
    /// Parses the file at `dir` with stem `stem` out of the tree into a
    /// fresh module named after the stem.
    fn parse_file_inner(
        tree: &SourceTree,
        dir: &Vec<String>,
        stem: &String,
        fuel: usize,
        warnings: &mut Vec<Warning>,
    ) -> (r: Result<Module, ParseError>)
        ensures
            ({
                let sr = spec_parse_file(tree@, dir.deep_view(), stem@, fuel as nat);
                match sr {
                    Ok(p) => (match r {
                        Ok(m) => m@ == p.0 && final(warnings).deep_view() == old(
                            warnings,
                        ).deep_view() + p.1,
                        Err(_) => false,
                    }),
                    Err(e) => is_err(r, e),
                }
            }),
        decreases fuel, tree@.files, 3int,
    {
        proof {
            lemma_file_index(tree@.files, dir.deep_view(), stem@);
            lemma_spec_parse_in(tree@, tree@.files, dir.deep_view(), stem@, fuel as nat);
        }
        match find_file(tree, dir, stem.as_str()) {
            None => Err(ParseError::FileMissing),
            Some(fi) => {
                proof {
                    assert(tree@.files[fi as int] == tree.files@[fi as int].deep_view());
                }
                match &tree.files[fi].items {
                    None => Err(ParseError::FileUnparsed),
                    Some(items_ref) => {
                        let items = crate::ast::dup_items(items_ref);
                        let mut root = Module::new(stem.clone());
                        proof {
                            assert(root@ == empty_module(stem@));
                        }
                        match File::parse_items(tree, &mut root, items, dir, fuel, warnings) {
                            Err(e) => Err(e),
                            Ok(()) => Ok(root),
                        }
                    },
                }
            },
        }
    }

    /// One full parse of this file: builds its module tree from the source
    /// tree and stores it under the root module's name, handing back the
    /// warnings of the pass; a fatal error leaves the record as it was.
    pub fn parse(&mut self, tree: &SourceTree) -> (r: Result<Vec<Warning>, ParseError>)
        ensures
            ({
                let sr = spec_parse_file(
                    tree@,
                    old(self)@.folder,
                    old(self)@.file_stem,
                    tree@.files.len(),
                );
                match sr {
                    Ok(p) => (match r {
                        Ok(ws) => ws.deep_view() == p.1 && final(self)@ == (FileV {
                            modules: submodule_upsert(old(self)@.modules, p.0),
                            ..old(self)@
                        }),
                        Err(_) => false,
                    }),
                    Err(e) => is_err(r, e) && final(self)@ == old(self)@,
                }
            }),
    {
        let mut warnings: Vec<Warning> = Vec::new();
        proof {
            assert(warnings.deep_view() =~= Seq::<WarningV>::empty());
        }
        let fuel = tree.files.len();
        let stem = self.file_stem.clone();
        match File::parse_file_inner(tree, &self.folder, &stem, fuel, &mut warnings) {
            Err(e) => Err(e),
            Ok(root) => {
                upsert_module_in(&mut self.modules, root);
                proof {
                    assert(Seq::<WarningV>::empty() + warnings.deep_view() =~= warnings.deep_view());
                }
                Ok(warnings)
            },
        }
    }
}

/// Writes a module into a name-keyed module list, overwriting the entry
/// of the same name if one is there.
fn upsert_module_in(v: &mut Vec<Module>, sm: Module)
    ensures
        modules_view(final(v)@) == submodule_upsert(modules_view(old(v)@), sm@),
{
    let idx = find_submodule_idx(v, sm.name.as_str());
    let ghost s0 = modules_view(v@);
    proof {
        lemma_modules_view(v@);
    }
    match idx {
        Some(i) => {
            v.set(i, sm);
            proof {
                lemma_modules_view(v@);
                assert(modules_view(v@) =~= s0.update(i as int, module_view(sm)));
            }
        },
        None => {
            v.push(sm);
            proof {
                lemma_modules_view(v@);
                assert(modules_view(v@) =~= s0.push(module_view(sm)));
            }
        },
    }
}

/// Binds `alias` to a qualified path in an import map, overwriting an
/// earlier binding of the same alias.
pub fn upsert_import_in(v: &mut Vec<Import>, imp: Import)
    ensures
        final(v).deep_view() == import_upsert(old(v).deep_view(), imp@),
{
    let idx = find_import_idx(v, imp.alias.as_str());
    let ghost s0 = v.deep_view();
    match idx {
        Some(i) => {
            v.set(i, imp);
            proof {
                assert(v.deep_view() =~= s0.update(i as int, imp@));
            }
        },
        None => {
            v.push(imp);
            proof {
                assert(v.deep_view() =~= s0.push(imp@));
            }
        },
    }
}

/// The index of the first submodule named `k`, if any.
fn find_submodule_idx(v: &Vec<Module>, k: &str) -> (r: Option<usize>)
    ensures
        match r {
            Some(i) => submodule_index(modules_view(v@), k@) == i && i < v.len(),
            None => submodule_index(modules_view(v@), k@) == -1,
        },
{
    proof {
        lemma_submodule_index(modules_view(v@), k@);
        lemma_modules_view(v@);
    }
    let mut i: usize = 0;
    while i < v.len()
        invariant
            i <= v.len(),
            modules_view(v@).len() == v.len(),
            forall|j: int| 0 <= j < v.len() ==> #[trigger] modules_view(v@)[j] == module_view(
                v@[j],
            ),
            forall|j: int| 0 <= j < i ==> (#[trigger] modules_view(v@)[j]).name != k@,
        decreases v.len() - i,
    {
        if str_eq(v[i].name.as_str(), k) {
            proof {
                lemma_modules_view(v@);
                assert(modules_view(v@)[i as int] == module_view(v@[i as int]));
                lemma_submodule_index(modules_view(v@), k@);
            }
            return Some(i);
        }
        i = i + 1;
    }
    None
}

/// The map under `m` after writing every entry of `es`, in order.
pub open spec fn import_upsert_all(m: Seq<ImportV>, es: Seq<ImportV>) -> Seq<ImportV>
    decreases es.len(),
{
    if es.len() == 0 {
        m
    } else {
        import_upsert_all(import_upsert(m, es[0]), es.subrange(1, es.len() as int))
    }
}

/// Writing two entry lists one after the other writes their concatenation.
pub proof fn lemma_import_upsert_all_concat(m: Seq<ImportV>, a: Seq<ImportV>, b: Seq<ImportV>)
    ensures
        import_upsert_all(m, a + b) == import_upsert_all(import_upsert_all(m, a), b),
    decreases a.len(),
{
    if a.len() == 0 {
        assert(a + b =~= b);
    } else {
        assert((a + b)[0] == a[0]);
        assert((a + b).subrange(1, (a + b).len() as int) =~= a.subrange(1, a.len() as int) + b);
        lemma_import_upsert_all_concat(import_upsert(m, a[0]), a.subrange(1, a.len() as int), b);
    }
}

/// Writing a single-entry list is one write.
pub proof fn lemma_import_upsert_all_single(m: Seq<ImportV>, e: ImportV)
    ensures
        import_upsert_all(m, seq![e]) == import_upsert(m, e),
{
    assert(seq![e].subrange(1, 1) =~= Seq::<ImportV>::empty());
    assert(import_upsert_all(import_upsert(m, e), Seq::<ImportV>::empty()) == import_upsert(m, e));
}

/// The alias bindings contributed by one import tree under the accumulated
/// prefix: a plain name binds itself, a rename binds the local name, a
/// group fans out, and a wildcard contributes nothing.
pub open spec fn use_entries(t: UseTreeV, prefix: Seq<Seq<char>>) -> Seq<ImportV>
    decreases t,
{
    match t {
        UseTreeV::Prefix { ident, rest } => use_entries(*rest, prefix.push(ident)),
        UseTreeV::Name { ident } => seq![
            ImportV { alias: ident, path: seq_join(prefix.push(ident), "::"@) },
        ],
        UseTreeV::Rename { ident, alias } => seq![
            ImportV { alias: alias, path: seq_join(prefix.push(ident), "::"@) },
        ],
        UseTreeV::Group { items } => use_entries_list(items, prefix),
        UseTreeV::Glob => Seq::empty(),
    }
}

pub open spec fn use_entries_list(s: Seq<UseTreeV>, prefix: Seq<Seq<char>>) -> Seq<ImportV>
    decreases s,
{
    if s.len() == 0 {
        Seq::empty()
    } else {
        use_entries(s[0], prefix) + use_entries_list(s.subrange(1, s.len() as int), prefix)
    }
}

/// One more tree in a group appends its entries.
pub proof fn lemma_use_entries_list_snoc(s: Seq<UseTreeV>, t: UseTreeV, prefix: Seq<Seq<char>>)
    ensures
        use_entries_list(s.push(t), prefix) == use_entries_list(s, prefix) + use_entries(t, prefix),
    decreases s,
{
    if s.len() == 0 {
        assert(s.push(t).subrange(1, 1) =~= Seq::<UseTreeV>::empty());
        assert(use_entries_list(s.push(t).subrange(1, 1), prefix) =~= Seq::<ImportV>::empty());
        assert(use_entries_list(s.push(t), prefix) =~= use_entries(t, prefix));
        assert(use_entries_list(s, prefix) + use_entries(t, prefix) =~= use_entries(t, prefix));
    } else {
        assert(s.push(t)[0] == s[0]);
        assert(s.push(t).subrange(1, s.len() as int + 1) =~= s.subrange(1, s.len() as int).push(t));
        lemma_use_entries_list_snoc(s.subrange(1, s.len() as int), t, prefix);
        assert(use_entries(s[0], prefix) + (use_entries_list(s.subrange(1, s.len() as int), prefix)
            + use_entries(t, prefix)) =~= (use_entries(s[0], prefix) + use_entries_list(
            s.subrange(1, s.len() as int),
            prefix,
        )) + use_entries(t, prefix));
    }
}

/// One file of the source tree: its folder path from the tree root, its
/// file stem, and its parsed top-level items; `None` when the
/// syntax-parsing collaborator failed on the file.
pub struct SourceFile {
    pub dir: Vec<String>,
    pub stem: String,
    pub items: Option<Vec<Item>>,
}

/// The mathematical shape of a source file, generic in the item type so
/// that the item list counts as a recursive position for termination
/// measures.
pub struct SourceFileG<T> {
    pub dir: Seq<Seq<char>>,
    pub stem: Seq<char>,
    pub items: Option<Seq<T>>,
}

pub type SourceFileV = SourceFileG<ItemV>;

impl View for SourceFile {
    type V = SourceFileV;

    open spec fn view(&self) -> SourceFileV {
        SourceFileG {
            dir: self.dir.deep_view(),
            stem: self.stem@,
            items: match self.items {
                Some(v) => Some(items_view(v@)),
                None => None,
            },
        }
    }
}

impl DeepView for SourceFile {
    type V = SourceFileV;

    open spec fn deep_view(&self) -> SourceFileV {
        self.view()
    }
}

/// The whole input: every source file, already taken through the
/// syntax-parsing collaborator.
pub struct SourceTree {
    pub files: Vec<SourceFile>,
}

pub struct SourceTreeV {
    pub files: Seq<SourceFileV>,
}

impl View for SourceTree {
    type V = SourceTreeV;

    open spec fn view(&self) -> SourceTreeV {
        SourceTreeV { files: self.files.deep_view() }
    }
}

/// A condition fatal to the current pass.
#[derive(Debug)]
pub enum ParseError {
    /// The requested file is not in the source tree.
    FileMissing,
    /// The requested file is in the tree but its syntax parse failed.
    FileUnparsed,
    /// A declared submodule has no usable backing file among its four
    /// candidate paths.
    ModuleNotFound { name: String },
    /// The declared module graph nests deeper than the number of files in
    /// the tree, so it cannot be backed by distinct files.
    RecursionLimit,
}

pub enum ParseErrorV {
    FileMissing,
    FileUnparsed,
    ModuleNotFound { name: Seq<char> },
    RecursionLimit,
}

impl View for ParseError {
    type V = ParseErrorV;

    open spec fn view(&self) -> ParseErrorV {
        match self {
            ParseError::FileMissing => ParseErrorV::FileMissing,
            ParseError::FileUnparsed => ParseErrorV::FileUnparsed,
            ParseError::ModuleNotFound { name } => ParseErrorV::ModuleNotFound { name: name@ },
            ParseError::RecursionLimit => ParseErrorV::RecursionLimit,
        }
    }
}

/// The first index of the file at `dir` with stem `stem`, or -1.
pub open spec fn file_index(files: Seq<SourceFileV>, dir: Seq<Seq<char>>, stem: Seq<char>) -> int
    decreases files.len(),
{
    if files.len() == 0 {
        -1
    } else if files[0].dir == dir && files[0].stem == stem {
        0
    } else {
        let r = file_index(files.subrange(1, files.len() as int), dir, stem);
        if r < 0 {
            -1
        } else {
            r + 1
        }
    }
}

/// As `lemma_entity_index`, for the source tree.
pub proof fn lemma_file_index(files: Seq<SourceFileV>, dir: Seq<Seq<char>>, stem: Seq<char>)
    ensures
        -1 <= file_index(files, dir, stem) < files.len(),
        file_index(files, dir, stem) >= 0 ==> files[file_index(files, dir, stem)].dir == dir
            && files[file_index(files, dir, stem)].stem == stem,
        forall|j: int|
            0 <= j < file_index(files, dir, stem) ==> !((#[trigger] files[j]).dir == dir
                && files[j].stem == stem),
        file_index(files, dir, stem) == -1 ==> forall|j: int|
            0 <= j < files.len() ==> !((#[trigger] files[j]).dir == dir && files[j].stem == stem),
    decreases files.len(),
{
    if files.len() > 0 {
        let sub = files.subrange(1, files.len() as int);
        lemma_file_index(sub, dir, stem);
        assert(forall|j: int| 1 <= j < files.len() ==> #[trigger] files[j] == sub[j - 1]);
    }
}

/// Whether a candidate file both exists in the tree and parsed.
pub open spec fn file_usable(t: SourceTreeV, dir: Seq<Seq<char>>, stem: Seq<char>) -> bool {
    let i = file_index(t.files, dir, stem);
    i >= 0 && t.files[i].items is Some
}

/// A module with the given name and empty maps.
pub open spec fn empty_module(name: Seq<char>) -> ModuleV {
    ModuleV {
        name,
        entities: Seq::empty(),
        imports: Seq::empty(),
        submodules: Seq::empty(),
    }
}

/// What parsing the file at `dir` with stem `stem` yields, searching the
/// remaining files `files`: the module tree it builds and the warnings it
/// raises, or the fatal error.
pub open spec fn spec_parse_in(
    t: SourceTreeV,
    files: Seq<SourceFileV>,
    dir: Seq<Seq<char>>,
    stem: Seq<char>,
    fuel: nat,
) -> Result<(ModuleV, Seq<WarningV>), ParseErrorV>
    decreases fuel, files, 2int,
{
    if files.len() == 0 {
        Err(ParseErrorV::FileMissing)
    } else if files[0].dir == dir && files[0].stem == stem {
        match files[0].items {
            None => Err(ParseErrorV::FileUnparsed),
            Some(items) => spec_items(t, empty_module(stem), items, dir, fuel),
        }
    } else {
        spec_parse_in(t, files.subrange(1, files.len() as int), dir, stem, fuel)
    }
}

/// As `spec_parse_in`, starting from the whole tree.
pub open spec fn spec_parse_file(
    t: SourceTreeV,
    dir: Seq<Seq<char>>,
    stem: Seq<char>,
    fuel: nat,
) -> Result<(ModuleV, Seq<WarningV>), ParseErrorV>
    decreases fuel, t.files, 3int,
{
    spec_parse_in(t, t.files, dir, stem, fuel)
}

/// What processing an item list does to a module, left to right, warnings
/// concatenated in order; the first fatal error aborts.
pub open spec fn spec_items(
    t: SourceTreeV,
    m: ModuleV,
    items: Seq<ItemV>,
    dir: Seq<Seq<char>>,
    fuel: nat,
) -> Result<(ModuleV, Seq<WarningV>), ParseErrorV>
    decreases fuel, items, 1int,
{
    if items.len() == 0 {
        Ok((m, Seq::empty()))
    } else {
        match spec_item(t, m, items[0], dir, fuel) {
            Err(e) => Err(e),
            Ok(p1) => match spec_items(t, p1.0, items.subrange(1, items.len() as int), dir, fuel) {
                Err(e) => Err(e),
                Ok(p2) => Ok((p2.0, p1.1 + p2.1)),
            },
        }
    }
}

/// What one declaration does to a module. A submodule declaration with an
/// inline body recurses on that body under a fresh module, with the module
/// name pushed onto the directory path. One without a body probes four
/// filesystem candidates in fixed precedence order: a sibling source file
/// named after the module, a directory named after the module holding an
/// index-named file, and the same two shapes under a directory named after
/// the current module. The first candidate that exists and parsed wins;
/// whatever its own parse then yields, including a deeper fatal error, is
/// the declaration's outcome. With no usable candidate, resolution fails
/// with a fatal module-not-found error. Either way the submodule's import
/// scope starts empty and is discarded toward the parent on return.
pub open spec fn spec_item(
    t: SourceTreeV,
    m: ModuleV,
    item: ItemV,
    dir: Seq<Seq<char>>,
    fuel: nat,
) -> Result<(ModuleV, Seq<WarningV>), ParseErrorV>
    decreases fuel, item, 0int,
{
    match item {
        ItemV::ModDecl { name, inline } => match inline {
            Some(body) => match spec_items(t, empty_module(name), body, dir.push(name), fuel) {
                Err(e) => Err(e),
                Ok(p) => Ok(
                    (ModuleV { submodules: submodule_upsert(m.submodules, p.0), ..m }, p.1),
                ),
            },
            None => {
                if fuel == 0 {
                    Err(ParseErrorV::RecursionLimit)
                } else {
                    let parent = m.name;
                    let chosen = if file_usable(t, dir, name) {
                        Some((dir, name))
                    } else if file_usable(t, dir.push(name), "mod"@) {
                        Some((dir.push(name), "mod"@))
                    } else if file_usable(t, dir.push(parent), name) {
                        Some((dir.push(parent), name))
                    } else if file_usable(t, dir.push(parent).push(name), "mod"@) {
                        Some((dir.push(parent).push(name), "mod"@))
                    } else {
                        None
                    };
                    match chosen {
                        None => Err(ParseErrorV::ModuleNotFound { name }),
                        Some(c) => match spec_parse_file(t, c.0, c.1, (fuel - 1) as nat) {
                            Err(e) => Err(e),
                            Ok(p) => Ok(
                                (
                                    ModuleV {
                                        submodules: submodule_upsert(
                                            m.submodules,
                                            ModuleV { name, ..p.0 },
                                        ),
                                        ..m
                                    },
                                    p.1,
                                ),
                            ),
                        },
                    }
                }
            },
        },
        _ => Ok(apply_item(m, item)),
    }
}

/// `spec_parse_in` read through `file_index`: the file is missing exactly
/// when no entry matches, and otherwise the first matching entry decides.
pub proof fn lemma_spec_parse_in(
    t: SourceTreeV,
    files: Seq<SourceFileV>,
    dir: Seq<Seq<char>>,
    stem: Seq<char>,
    fuel: nat,
)
    ensures
        file_index(files, dir, stem) == -1 ==> spec_parse_in(t, files, dir, stem, fuel) == Err::<
            (ModuleV, Seq<WarningV>),
            ParseErrorV,
        >(ParseErrorV::FileMissing),
        file_index(files, dir, stem) >= 0 ==> spec_parse_in(t, files, dir, stem, fuel) == (match
            files[file_index(files, dir, stem)].items {
            None => Err(ParseErrorV::FileUnparsed),
            Some(items) => spec_items(t, empty_module(stem), items, dir, fuel),
        }),
    decreases files.len(),
{
    if files.len() > 0 && !(files[0].dir == dir && files[0].stem == stem) {
        let sub = files.subrange(1, files.len() as int);
        lemma_spec_parse_in(t, sub, dir, stem, fuel);
        lemma_file_index(files, dir, stem);
        lemma_file_index(sub, dir, stem);
        assert(forall|j: int| 1 <= j < files.len() ==> #[trigger] files[j] == sub[j - 1]);
        if file_index(sub, dir, stem) >= 0 {
            assert(file_index(files, dir, stem) == file_index(sub, dir, stem) + 1);
            assert(files[file_index(files, dir, stem)] == sub[file_index(sub, dir, stem)]);
        }
    }
}

/// `r` is the given fatal error.
pub open spec fn is_err<T>(r: Result<T, ParseError>, e: ParseErrorV) -> bool {
    match r {
        Ok(_) => false,
        Err(pe) => pe@ == e,
    }
}

/// Compares two segment lists.
fn segs_eq(a: &Vec<String>, b: &Vec<String>) -> (r: bool)
    ensures
        r == (a.deep_view() == b.deep_view()),
{
    if a.len() != b.len() {
        proof {
            assert(a.deep_view().len() == a@.len());
            assert(b.deep_view().len() == b@.len());
        }
        return false;
    }
    let mut i: usize = 0;
    while i < a.len()
        invariant
            i <= a.len(),
            a.len() == b.len(),
            forall|j: int| 0 <= j < i ==> #[trigger] a.deep_view()[j] == b.deep_view()[j],
        decreases a.len() - i,
    {
        if !str_eq(a[i].as_str(), b[i].as_str()) {
            proof {
                assert(a.deep_view()[i as int] != b.deep_view()[i as int]);
            }
            return false;
        }
        i = i + 1;
    }
    proof {
        assert(a.deep_view() =~= b.deep_view());
    }
    true
}

/// The index of the first file at `dir` with stem `stem`, if any.
fn find_file(tree: &SourceTree, dir: &Vec<String>, stem: &str) -> (r: Option<usize>)
    ensures
        match r {
            Some(i) => file_index(tree@.files, dir.deep_view(), stem@) == i
                && i < tree.files.len(),
            None => file_index(tree@.files, dir.deep_view(), stem@) == -1,
        },
{
    proof {
        lemma_file_index(tree@.files, dir.deep_view(), stem@);
    }
    let mut i: usize = 0;
    while i < tree.files.len()
        invariant
            i <= tree.files.len(),
            tree@.files.len() == tree.files.len(),
            forall|j: int| 0 <= j < i ==> !((#[trigger] tree@.files[j]).dir == dir.deep_view()
                && tree@.files[j].stem == stem@),
        decreases tree.files.len() - i,
    {
        proof {
            assert(tree@.files[i as int] == tree.files@[i as int].deep_view());
        }
        if segs_eq(&tree.files[i].dir, dir) && str_eq(tree.files[i].stem.as_str(), stem) {
            proof {
                lemma_file_index(tree@.files, dir.deep_view(), stem@);
            }
            return Some(i);
        }
        i = i + 1;
    }
    None
}

/// Whether a candidate file both exists in the tree and parsed.
fn file_usable_exec(tree: &SourceTree, dir: &Vec<String>, stem: &str) -> (r: bool)
    ensures
        r == file_usable(tree@, dir.deep_view(), stem@),
{
    match find_file(tree, dir, stem) {
        None => false,
        Some(i) => {
            proof {
                assert(tree@.files[i as int] == tree.files@[i as int].deep_view());
            }
            tree.files[i].items.is_some()
        },
    }
}

impl Module {
    /// A new module under the given name, with empty maps.
    pub fn new(name: String) -> (m: Module)
        ensures
            m@ == (ModuleV {
                name: name@,
                entities: Seq::<EntityV>::empty(),
                imports: Seq::<ImportV>::empty(),
                submodules: Seq::<ModuleV>::empty(),
            }),
    {
        let m = Module { name, entities: Vec::new(), imports: Vec::new(), submodules: Vec::new() };
        proof {
            assert(m.entities.deep_view() =~= Seq::<EntityV>::empty());
            assert(m.imports.deep_view() =~= Seq::<ImportV>::empty());
        }
        m
    }
}

} // verus!
