//! The project-wide definition index and the symbol resolver.
//!
//! A `ResolutionContext` owns the tables that the original design kept as
//! process-wide state: the builtin registry, the override table for renamed
//! constructor classes, the two-pass definition index, the global enum-name
//! set, and the auxiliary tables the legacy extraction consults. `resolve`
//! applies the three tables in precedence order — builtins first, then
//! overrides, then the project index — and fails with `UnresolvedSymbol`
//! when all three miss.

use vstd::prelude::*;
use vstd::string::StringExecFns;
use vstd::hash_map::StringHashMap;
use vstd::hash_set::StringHashSet;
use crate::ast::{MetaDeclaration, MetaDeclV, Program, ProgramItem, ProgramItemV, metas_view,
    program_view};
use crate::token::SyntaxError;

verus! {

/// A name that matched none of the three resolution tables.
#[derive(Debug)]
pub struct UnresolvedSymbol(pub String);

/// The view of a name table: bare symbol to qualified name.
pub open spec fn table_view(m: Map<Seq<char>, String>) -> Map<Seq<char>, Seq<char>> {
    m.map_values(|v: String| v@)
}

/// The resolution tables of one compilation run.
pub struct ResolutionContext {
    /// Primitive scalar types and host-provided composites, seeded once per
    /// run before any file is processed.
    pub builtin: StringHashMap<String>,
    /// Renamed constructor classes: `Model.Constructor` aliases.
    pub overrides: StringHashMap<String>,
    /// The two-pass project-wide definition index.
    pub index: StringHashMap<String>,
    /// Every enum name declared anywhere in the project.
    pub enum_types: StringHashSet,
    /// Names whose definitions already exist and need no extraction.
    pub existing: StringHashSet,
    /// Legacy constructor class name to its model name.
    pub model_types: StringHashMap<String>,
}

/// The qualified name of a bare symbol under the precedence rule: the
/// builtin registry wins, then the override table, then the project index.
pub open spec fn resolve_spec(ctx: ResolutionContext, name: Seq<char>) -> Option<Seq<char>> {
    if ctx.builtin@.contains_key(name) {
        Some(ctx.builtin@[name]@)
    } else if ctx.overrides@.contains_key(name) {
        Some(ctx.overrides@[name]@)
    } else if ctx.index@.contains_key(name) {
        Some(ctx.index@[name]@)
    } else {
        None
    }
}

/// A name present in the builtin registry resolves to its builtin mapping,
/// whatever the project index holds for it.
pub proof fn lemma_builtin_wins(ctx: ResolutionContext, name: Seq<char>)
    requires
        ctx.builtin@.contains_key(name),
    ensures
        resolve_spec(ctx, name) == Some(ctx.builtin@[name]@),
{
}

impl ResolutionContext {
    /// An empty context: nothing registered yet.
    pub fn new() -> (r: Self)
        ensures
            r.builtin@ == Map::<Seq<char>, String>::empty(),
            r.overrides@ == Map::<Seq<char>, String>::empty(),
            r.index@ == Map::<Seq<char>, String>::empty(),
            r.enum_types@ == Set::<Seq<char>>::empty(),
            r.existing@ == Set::<Seq<char>>::empty(),
            r.model_types@ == Map::<Seq<char>, String>::empty(),
    {
        ResolutionContext {
            builtin: StringHashMap::new(),
            overrides: StringHashMap::new(),
            index: StringHashMap::new(),
            enum_types: StringHashSet::new(),
            existing: StringHashSet::new(),
            model_types: StringHashMap::new(),
        }
    }

    /// Seeds one builtin name, marking it as existing.
    pub fn register_builtin(&mut self, name: String, fqn: String)
        ensures
            final(self).builtin@ == old(self).builtin@.insert(name@, fqn),
            final(self).existing@ == old(self).existing@.insert(name@),
            final(self).overrides@ == old(self).overrides@,
            final(self).index@ == old(self).index@,
            final(self).enum_types@ == old(self).enum_types@,
            final(self).model_types@ == old(self).model_types@,
    {
        self.existing.insert(name.clone());
        self.builtin.insert(name, fqn);
    }

    /// Registers one project definition directly, as the demand-driven
    /// extraction does after synthesizing a missing definition.
    pub fn register_definition(&mut self, name: String, path: String)
        ensures
            final(self).index@ == old(self).index@.insert(name@, path),
            final(self).builtin@ == old(self).builtin@,
            final(self).overrides@ == old(self).overrides@,
            final(self).enum_types@ == old(self).enum_types@,
            final(self).existing@ == old(self).existing@,
            final(self).model_types@ == old(self).model_types@,
    {
        self.index.insert(name, path);
    }

    /// Adds a name to the project-wide enum-name set.
    pub fn register_enum_name(&mut self, name: String)
        ensures
            final(self).enum_types@ == old(self).enum_types@.insert(name@),
            final(self).builtin@ == old(self).builtin@,
            final(self).overrides@ == old(self).overrides@,
            final(self).index@ == old(self).index@,
            final(self).existing@ == old(self).existing@,
            final(self).model_types@ == old(self).model_types@,
    {
        self.enum_types.insert(name);
    }

    /// Marks a name as already defined, so the demand-driven extraction
    /// does not synthesize it again.
    pub fn register_existing(&mut self, name: String)
        ensures
            final(self).existing@ == old(self).existing@.insert(name@),
            final(self).builtin@ == old(self).builtin@,
            final(self).overrides@ == old(self).overrides@,
            final(self).index@ == old(self).index@,
            final(self).enum_types@ == old(self).enum_types@,
            final(self).model_types@ == old(self).model_types@,
    {
        self.existing.insert(name);
    }

    /// Registers one legacy model: its constructor class maps to the model
    /// name derived from the base class (every `ModelBase` becoming
    /// `Model`), and that model's `Constructor` reference is marked as
    /// existing.
    pub fn register_legacy_model(&mut self, base_class: &str, ctor_class: String)
        ensures
            table_view(final(self).model_types@) == table_view(old(self).model_types@).insert(
                ctor_class@,
                crate::text::replace_seq(base_class@, "ModelBase"@, "Model"@),
            ),
            final(self).existing@ == old(self).existing@.insert(
                crate::text::replace_seq(base_class@, "ModelBase"@, "Model"@) + ".Constructor"@,
            ),
            final(self).builtin@ == old(self).builtin@,
            final(self).overrides@ == old(self).overrides@,
            final(self).index@ == old(self).index@,
            final(self).enum_types@ == old(self).enum_types@,
    {
        let ghost pre_types = table_view(self.model_types@);
        let model_name = crate::text::replace_all(base_class, "ModelBase", "Model");
        let mut ctor_ref = model_name.clone();
        ctor_ref.append(".Constructor");
        self.model_types.insert(ctor_class, model_name);
        self.existing.insert(ctor_ref);
        proof {
            assert(table_view(self.model_types@) =~= pre_types.insert(
                ctor_class@,
                crate::text::replace_seq(base_class@, "ModelBase"@, "Model"@),
            ));
        }
    }

    /// Resolves a bare name through the three tables in precedence order.
    pub fn resolve(&self, name: &str) -> (r: Result<String, UnresolvedSymbol>)
        ensures
            match r {
                Ok(f) => resolve_spec(*self, name@) == Some(f@),
                Err(e) => resolve_spec(*self, name@) is None && e.0@ == name@,
            },
    {
        if let Some(f) = self.builtin.get(name) {
            return Ok(f.clone());
        }
        if let Some(f) = self.overrides.get(name) {
            return Ok(f.clone());
        }
        if let Some(f) = self.index.get(name) {
            return Ok(f.clone());
        }
        Err(UnresolvedSymbol(name.to_owned()))
    }
}

/// The value of the first `meta` line with the given key, if any.
pub open spec fn meta_value(ms: Seq<MetaDeclV>, key: Seq<char>) -> Option<Seq<char>>
    decreases ms.len(),
{
    if ms.len() == 0 {
        None
    } else if ms[0].key == key {
        Some(ms[0].value)
    } else {
        meta_value(ms.subrange(1, ms.len() as int), key)
    }
}

/// Finds the value of the first `meta` line with the given key.
pub fn find_meta<'a>(metas: &'a Vec<MetaDeclaration>, key: &str) -> (r: Option<&'a String>)
    ensures
        match r {
            Some(v) => meta_value(metas_view(metas@), key@) == Some(v@),
            None => meta_value(metas_view(metas@), key@) is None,
        },
{
    let ghost msv = metas_view(metas@);
    proof {
        assert(msv.subrange(0, msv.len() as int) =~= msv);
    }
    let mut k: usize = 0;
    while k < metas.len()
        invariant
            0 <= k <= metas@.len(),
            msv == metas_view(metas@),
            msv.len() == metas@.len(),
            forall|t: int| 0 <= t < metas@.len() ==> #[trigger] msv[t] == crate::ast::meta_view(
                metas@[t],
            ),
            meta_value(msv, key@) == meta_value(msv.subrange(k as int, msv.len() as int), key@),
        decreases metas@.len() - k,
    {
        proof {
            assert(msv.subrange(k as int, msv.len() as int).subrange(
                1,
                msv.len() - k as int,
            ) =~= msv.subrange(k + 1, msv.len() as int));
        }
        if crate::text::str_eq(metas[k].key.value.0.as_str(), key) {
            return Some(&metas[k].value.value.0);
        }
        k += 1;
    }
    proof {
        assert(msv.subrange(k as int, msv.len() as int) =~= Seq::<MetaDeclV>::empty());
    }
    None
}

/// The index and enum-name set after registering the declarations of one
/// parsed file under the given dot-joined qualified path: models register
/// under a `Base`-suffixed path, payload types and enums under the path
/// itself, and enum names also join the enum-name set.
pub open spec fn pass1(
    items: Seq<ProgramItemV>,
    path: Seq<char>,
    index: Map<Seq<char>, Seq<char>>,
    enums: Set<Seq<char>>,
) -> (Map<Seq<char>, Seq<char>>, Set<Seq<char>>)
    decreases items.len(),
{
    if items.len() == 0 {
        (index, enums)
    } else {
        let rest = items.subrange(1, items.len() as int);
        match items[0] {
            ProgramItemV::Model(m) => pass1(rest, path, index.insert(m.name, path + "Base"@), enums),
            ProgramItemV::Type(t) => pass1(rest, path, index.insert(t.name, path), enums),
            ProgramItemV::Enum(e) => pass1(
                rest,
                path,
                index.insert(e.name, path),
                enums.insert(e.name),
            ),
            ProgramItemV::Meta(_) => pass1(rest, path, index, enums),
        }
    }
}

impl ResolutionContext {
    /// The first index-building pass over one parsed file: registers every
    /// declared model, payload-type and enum name against its derived
    /// qualified path, and classifies enum names.
    pub fn register_program_definitions(&mut self, program: &Program, path: &str)
        ensures
            (table_view(final(self).index@), final(self).enum_types@) == pass1(
                program_view(*program).body,
                path@,
                table_view(old(self).index@),
                old(self).enum_types@,
            ),
            final(self).builtin@ == old(self).builtin@,
            final(self).overrides@ == old(self).overrides@,
            final(self).existing@ == old(self).existing@,
            final(self).model_types@ == old(self).model_types@,
    {
        let ghost items = program_view(*program).body;
        proof {
            assert(items.subrange(0, items.len() as int) =~= items);
        }
        let mut k: usize = 0;
        while k < program.body.len()
            invariant
                0 <= k <= program.body@.len(),
                items == program_view(*program).body,
                items.len() == program.body@.len(),
                forall|t: int| 0 <= t < program.body@.len() ==> #[trigger] items[t]
                    == crate::ast::program_item_view(program.body@[t]),
                pass1(items, path@, table_view(old(self).index@), old(self).enum_types@) == pass1(
                    items.subrange(k as int, items.len() as int),
                    path@,
                    table_view(self.index@),
                    self.enum_types@,
                ),
                self.builtin@ == old(self).builtin@,
                self.overrides@ == old(self).overrides@,
                self.existing@ == old(self).existing@,
                self.model_types@ == old(self).model_types@,
            decreases program.body@.len() - k,
        {
            let ghost pre_index = table_view(self.index@);
            let ghost pre_enums = self.enum_types@;
            proof {
                assert(items.subrange(k as int, items.len() as int).subrange(
                    1,
                    items.len() - k as int,
                ) =~= items.subrange(k + 1, items.len() as int));
                assert(items.subrange(k as int, items.len() as int)[0] == items[k as int]);
            }
            match &program.body[k] {
                ProgramItem::Model(m) => {
                    let mut base_path = String::from_str(path);
                    base_path.append("Base");
                    self.index.insert(m.name.value.0.clone(), base_path);
                    proof {
                        assert(table_view(self.index@) =~= pre_index.insert(
                            m.name.value.0@,
                            path@ + "Base"@,
                        ));
                    }
                },
                ProgramItem::Type(t) => {
                    self.index.insert(t.name.value.0.clone(), String::from_str(path));
                    proof {
                        assert(table_view(self.index@) =~= pre_index.insert(
                            t.name.value.0@,
                            path@,
                        ));
                    }
                },
                ProgramItem::Enum(e) => {
                    self.index.insert(e.name.value.0.clone(), String::from_str(path));
                    self.enum_types.insert(e.name.value.0.clone());
                    proof {
                        assert(table_view(self.index@) =~= pre_index.insert(
                            e.name.value.0@,
                            path@,
                        ));
                    }
                },
                ProgramItem::Meta(_) => {},
            }
            k += 1;
        }
        proof {
            assert(items.subrange(k as int, items.len() as int) =~= Seq::<ProgramItemV>::empty());
        }
    }
}

/// Finds the first constructor item of a model body.
pub fn first_constructor<'a>(body: &'a Vec<crate::ast::ModelItem>) -> (r: Option<
    &'a crate::ast::ConstructorDeclaration,
>)
    ensures
        match r {
            Some(c) => crate::lower::first_ctor_upto(
                crate::ast::model_items_view(body@),
                body@.len() as int,
            ) == Some(crate::ast::ctor_view(*c)),
            None => crate::lower::first_ctor_upto(
                crate::ast::model_items_view(body@),
                body@.len() as int,
            ) is None,
        },
{
    let ghost items = crate::ast::model_items_view(body@);
    let mut k: usize = 0;
    while k < body.len()
        invariant
            0 <= k <= body@.len(),
            items == crate::ast::model_items_view(body@),
            items.len() == body@.len(),
            forall|t: int| 0 <= t < body@.len() ==> #[trigger] items[t]
                == crate::ast::model_item_view(body@[t]),
            crate::lower::first_ctor_upto(items, k as int) is None,
        decreases body@.len() - k,
    {
        match &body[k] {
            crate::ast::ModelItem::Constructor(c) => {
                proof {
                    assert(items[k as int] == crate::ast::model_item_view(body@[k as int]));
                    assert(crate::lower::first_ctor_upto(items, k + 1) == Some(
                        crate::ast::ctor_view(*c)));
                    crate::lower::lemma_first_ctor_monotone(items, k + 1, items.len() as int);
                }
                return Some(c);
            },
            _ => {},
        }
        k += 1;
    }
    None
}

/// The override and index tables after the second pass over one parsed
/// file: each model with a constructor registers `Name.Constructor` and
/// `NameBase.Constructor` aliases for the constructor's declared class name,
/// and the class name itself against its declared package. A constructor
/// without `client_package` and `client_name` annotations stops the pass.
pub open spec fn pass2(
    items: Seq<ProgramItemV>,
    overrides: Map<Seq<char>, Seq<char>>,
    index: Map<Seq<char>, Seq<char>>,
) -> Option<(Map<Seq<char>, Seq<char>>, Map<Seq<char>, Seq<char>>)>
    decreases items.len(),
{
    if items.len() == 0 {
        Some((overrides, index))
    } else {
        let rest = items.subrange(1, items.len() as int);
        match items[0] {
            ProgramItemV::Model(m) => match crate::lower::first_ctor_upto(
                m.body,
                m.body.len() as int,
            ) {
                Some(c) => match (meta_value(c.meta, "client_package"@), meta_value(
                    c.meta,
                    "client_name"@,
                )) {
                    (Some(pkg), Some(cls)) => pass2(
                        rest,
                        overrides.insert(m.name + ".Constructor"@, cls).insert(
                            m.name + "Base.Constructor"@,
                            cls,
                        ),
                        index.insert(cls, pkg + "."@ + cls),
                    ),
                    _ => None,
                },
                None => pass2(rest, overrides, index),
            },
            _ => pass2(rest, overrides, index),
        }
    }
}

impl ResolutionContext {
    /// The second index-building pass over one parsed file: registers the
    /// constructor aliases of every model that has a constructor. Fails on a
    /// constructor that lacks its `client_package` or `client_name`
    /// annotation.
    pub fn register_constructor_aliases(&mut self, program: &Program) -> (r: Result<
        (),
        SyntaxError,
    >)
        ensures
            match r {
                Ok(_) => {
                    &&& pass2(
                        program_view(*program).body,
                        table_view(old(self).overrides@),
                        table_view(old(self).index@),
                    ) == Some(
                        (table_view(final(self).overrides@), table_view(final(self).index@)),
                    )
                    &&& final(self).builtin@ == old(self).builtin@
                    &&& final(self).enum_types@ == old(self).enum_types@
                    &&& final(self).existing@ == old(self).existing@
                    &&& final(self).model_types@ == old(self).model_types@
                },
                Err(_) => pass2(
                    program_view(*program).body,
                    table_view(old(self).overrides@),
                    table_view(old(self).index@),
                ) is None,
            },
    {
        let ghost items = program_view(*program).body;
        proof {
            assert(items.subrange(0, items.len() as int) =~= items);
        }
        let mut k: usize = 0;
        while k < program.body.len()
            invariant
                0 <= k <= program.body@.len(),
                items == program_view(*program).body,
                items.len() == program.body@.len(),
                forall|t: int| 0 <= t < program.body@.len() ==> #[trigger] items[t]
                    == crate::ast::program_item_view(program.body@[t]),
                pass2(items, table_view(old(self).overrides@), table_view(old(self).index@))
                    == pass2(
                    items.subrange(k as int, items.len() as int),
                    table_view(self.overrides@),
                    table_view(self.index@),
                ),
                self.builtin@ == old(self).builtin@,
                self.enum_types@ == old(self).enum_types@,
                self.existing@ == old(self).existing@,
                self.model_types@ == old(self).model_types@,
            decreases program.body@.len() - k,
        {
            proof {
                assert(items.subrange(k as int, items.len() as int).subrange(
                    1,
                    items.len() - k as int,
                ) =~= items.subrange(k + 1, items.len() as int));
                assert(items.subrange(k as int, items.len() as int)[0] == items[k as int]);
            }
            match &program.body[k] {
                ProgramItem::Model(m) => {
                    match first_constructor(&m.body) {
                        Some(c) => {
                            let pkg = match find_meta(&c.meta, "client_package") {
                                Some(v) => v.clone(),
                                None => {
                                    return Err(SyntaxError::new(String::from_str(
                                        "constructor lacks a client_package annotation",
                                    )));
                                },
                            };
                            let cls = match find_meta(&c.meta, "client_name") {
                                Some(v) => v.clone(),
                                None => {
                                    return Err(SyntaxError::new(String::from_str(
                                        "constructor lacks a client_name annotation",
                                    )));
                                },
                            };
                            let ghost pre_overrides = table_view(self.overrides@);
                            let ghost pre_index = table_view(self.index@);
                            let mut key1 = m.name.value.0.clone();
                            key1.append(".Constructor");
                            self.overrides.insert(key1, cls.clone());
                            let mut key2 = m.name.value.0.clone();
                            key2.append("Base.Constructor");
                            self.overrides.insert(key2, cls.clone());
                            let mut fqn = pkg.clone();
                            fqn.append(".");
                            fqn.append(cls.as_str());
                            self.index.insert(cls.clone(), fqn);
                            proof {
                                assert(table_view(self.overrides@) =~= pre_overrides.insert(
                                    m.name.value.0@ + ".Constructor"@,
                                    cls@,
                                ).insert(m.name.value.0@ + "Base.Constructor"@, cls@));
                                assert(table_view(self.index@) =~= pre_index.insert(
                                    cls@,
                                    pkg@ + "."@ + cls@,
                                ));
                            }
                        },
                        None => {},
                    }
                },
                _ => {},
            }
            k += 1;
        }
        proof {
            assert(items.subrange(k as int, items.len() as int) =~= Seq::<ProgramItemV>::empty());
        }
        Ok(())
    }
}

} // verus!
