//! Helper resolution: the helpers that each required extension provides, put
//! into a render call's own engine.

use vstd::prelude::*;
use crate::engine::{
    builtin_helpers, engine_config, helper_table, register_helper, without_helpers, Engine,
    StaticHelper,
};
use crate::requirement::{requirements_view, ExtensionRequirement, RequirementView};

verus! {

/// A catalog entry: the extension, the helper's name, and the helper.
pub type EntryView = (Seq<char>, Seq<char>, StaticHelper);

/// A helper table.
pub type HelperTable = Map<Seq<char>, StaticHelper>;

/// `table` after registering, in catalog order, each catalog helper of
/// `extension` under its name.
pub open spec fn register_all(table: HelperTable, catalog: Seq<EntryView>, extension: Seq<char>) -> HelperTable
    decreases catalog.len(),
{
    if catalog.len() == 0 {
        table
    } else {
        let before = register_all(table, catalog.drop_last(), extension);
        if catalog.last().0 == extension {
            before.insert(catalog.last().1, catalog.last().2)
        } else {
            before
        }
    }
}

/// `table` after registering the helpers of each requirement in turn.
pub open spec fn plan_table(table: HelperTable, catalog: Seq<EntryView>, reqs: Seq<RequirementView>) -> HelperTable
    decreases reqs.len(),
{
    if reqs.len() == 0 {
        table
    } else {
        register_all(plan_table(table, catalog, reqs.drop_last()), catalog, reqs.last().name)
    }
}

/// Registering into a table overrides its entries with those registered into
/// an empty one.
pub proof fn lemma_register_all_union(table: HelperTable, catalog: Seq<EntryView>, extension: Seq<char>)
    ensures
        register_all(table, catalog, extension) == table.union_prefer_right(
            register_all(Map::empty(), catalog, extension),
        ),
    decreases catalog.len(),
{
    if catalog.len() == 0 {
        assert(table =~= table.union_prefer_right(Map::empty()));
    } else {
        lemma_register_all_union(table, catalog.drop_last(), extension);
        let e = catalog.last();
        let r0 = register_all(Map::empty(), catalog.drop_last(), extension);
        if e.0 == extension {
            assert(table.union_prefer_right(r0).insert(e.1, e.2) =~= table.union_prefer_right(
                r0.insert(e.1, e.2),
            ));
        }
    }
}

/// The names registered for `extension` are those that `helpers_for` lists.
pub proof fn lemma_register_all_names(catalog: Seq<EntryView>, extension: Seq<char>)
    ensures
        register_all(Map::empty(), catalog, extension).dom() == helpers_for(catalog, extension).to_set(),
    decreases catalog.len(),
{
    if catalog.len() == 0 {
        assert(Seq::<Seq<char>>::empty().to_set() =~= Set::empty());
    } else {
        lemma_register_all_names(catalog.drop_last(), extension);
        let e = catalog.last();
        if e.0 == extension {
            helpers_for(catalog.drop_last(), extension).lemma_push_to_set_commute(e.1);
            assert(register_all(Map::empty(), catalog, extension).dom() =~= helpers_for(
                catalog,
                extension,
            ).to_set());
        }
    }
}

/// Registering a plan into a table overrides its entries with those of the
/// plan registered into an empty one.
pub proof fn lemma_plan_table_union(table: HelperTable, catalog: Seq<EntryView>, reqs: Seq<RequirementView>)
    ensures
        plan_table(table, catalog, reqs) == table.union_prefer_right(
            plan_table(Map::empty(), catalog, reqs),
        ),
    decreases reqs.len(),
{
    if reqs.len() == 0 {
        assert(table =~= table.union_prefer_right(Map::empty()));
    } else {
        let init = reqs.drop_last();
        let ext = reqs.last().name;
        lemma_plan_table_union(table, catalog, init);
        let p0 = plan_table(Map::empty(), catalog, init);
        let r = register_all(Map::empty(), catalog, ext);
        lemma_register_all_union(plan_table(table, catalog, init), catalog, ext);
        lemma_register_all_union(p0, catalog, ext);
        assert(table.union_prefer_right(p0).union_prefer_right(r) =~= table.union_prefer_right(
            p0.union_prefer_right(r),
        ));
    }
}

/// The names that a plan registers are those that `helper_plan` lists.
pub proof fn lemma_plan_table_names(catalog: Seq<EntryView>, reqs: Seq<RequirementView>)
    ensures
        plan_table(Map::empty(), catalog, reqs).dom() == helper_plan(catalog, reqs).to_set(),
    decreases reqs.len(),
{
    if reqs.len() == 0 {
        assert(Seq::<Seq<char>>::empty().to_set() =~= Set::empty());
    } else {
        let init = reqs.drop_last();
        let ext = reqs.last().name;
        lemma_plan_table_names(catalog, init);
        lemma_register_all_names(catalog, ext);
        lemma_register_all_union(plan_table(Map::empty(), catalog, init), catalog, ext);
        vstd::seq_lib::seq_to_set_distributes_over_add(
            helper_plan(catalog, init),
            helpers_for(catalog, ext),
        );
        assert(plan_table(Map::empty(), catalog, reqs).dom() =~= helper_plan(catalog, reqs).to_set());
    }
}

/// The names of the helpers that `catalog` holds for `extension`, in catalog
/// order.
pub open spec fn helpers_for(catalog: Seq<EntryView>, extension: Seq<char>) -> Seq<Seq<char>>
    decreases catalog.len(),
{
    if catalog.len() == 0 {
        Seq::empty()
    } else {
        let rest = helpers_for(catalog.drop_last(), extension);
        if catalog.last().0 == extension {
            rest.push(catalog.last().1)
        } else {
            rest
        }
    }
}

/// The names of the helpers registered for `reqs`, requirement by requirement.
pub open spec fn helper_plan(catalog: Seq<EntryView>, reqs: Seq<RequirementView>) -> Seq<
    Seq<char>,
>
    decreases reqs.len(),
{
    if reqs.len() == 0 {
        Seq::empty()
    } else {
        helper_plan(catalog, reqs.drop_last()) + helpers_for(catalog, reqs.last().name)
    }
}

/// The first name of `plan` that an earlier one repeats, if any.
pub open spec fn first_repeat(plan: Seq<Seq<char>>) -> Option<Seq<char>>
    decreases plan.len(),
{
    if plan.len() == 0 {
        None
    } else {
        match first_repeat(plan.drop_last()) {
            Some(n) => Some(n),
            None => if plan.drop_last().contains(plan.last()) {
                Some(plan.last())
            } else {
                None
            },
        }
    }
}

/// A repeat found in a prefix is the first repeat of the whole sequence.
proof fn lemma_first_repeat_extends(s: Seq<Seq<char>>, k: int)
    requires
        0 <= k <= s.len(),
        first_repeat(s.take(k)) is Some,
    ensures
        first_repeat(s) == first_repeat(s.take(k)),
    decreases s.len() - k,
{
    if k < s.len() {
        assert(s.take(k + 1).drop_last() =~= s.take(k));
        lemma_first_repeat_extends(s, k + 1);
    } else {
        assert(s.take(k) =~= s);
    }
}

/// A helper name is among those for `extension` exactly when a catalog entry
/// of that extension has it.
pub proof fn lemma_helpers_for_member(catalog: Seq<EntryView>, extension: Seq<char>, h: Seq<char>)
    ensures
        helpers_for(catalog, extension).contains(h) <==> exists|j: int|
            0 <= j < catalog.len() && (catalog[j].0 == extension && catalog[j].1 == h),
    decreases catalog.len(),
{
    if catalog.len() > 0 {
        let init = catalog.drop_last();
        let rest = helpers_for(init, extension);
        let all = helpers_for(catalog, extension);
        lemma_helpers_for_member(init, extension, h);
        assert(rest.contains(h) ==> all.contains(h)) by {
            if rest.contains(h) {
                let k = choose|k: int| 0 <= k < rest.len() && rest[k] == h;
                assert(all[k] == h);
            }
        }
        if exists|j: int| 0 <= j < catalog.len() && (catalog[j].0 == extension && catalog[j].1 == h) {
            let j = choose|j: int| 0 <= j < catalog.len() && (catalog[j].0 == extension && catalog[j].1 == h);
            if j < init.len() {
                assert((init[j].0 == extension && init[j].1 == h));
            } else {
                assert(all[all.len() - 1] == h);
            }
        }
        if all.contains(h) {
            let k = choose|k: int| 0 <= k < all.len() && all[k] == h;
            if k < rest.len() {
                assert(rest[k] == h);
                let j = choose|j: int| 0 <= j < init.len() && (init[j].0 == extension && init[j].1 == h);
                assert((catalog[j].0 == extension && catalog[j].1 == h));
            } else {
                assert((catalog[catalog.len() - 1].0 == extension && catalog[catalog.len() - 1].1 == h));
            }
        }
    }
}

/// A helper name is in the plan exactly when some requirement names an
/// extension whose catalog entries have it.
pub proof fn lemma_helper_plan_member(
    catalog: Seq<EntryView>,
    reqs: Seq<RequirementView>,
    h: Seq<char>,
)
    ensures
        helper_plan(catalog, reqs).contains(h) <==> exists|i: int, j: int|
            0 <= i < reqs.len() && 0 <= j < catalog.len() && (catalog[j].0 == reqs[i].name && catalog[j].1 == h),
    decreases reqs.len(),
{
    if reqs.len() > 0 {
        let init = reqs.drop_last();
        let last = reqs.last();
        lemma_helper_plan_member(catalog, init, h);
        lemma_helpers_for_member(catalog, last.name, h);
        let a = helper_plan(catalog, init);
        let b = helpers_for(catalog, last.name);
        assert((a + b).contains(h) <==> a.contains(h) || b.contains(h)) by {
            if (a + b).contains(h) {
                let k = choose|k: int| 0 <= k < (a + b).len() && (a + b)[k] == h;
                if k >= a.len() {
                    assert(b[k - a.len()] == h);
                }
            }
            if a.contains(h) {
                let k = choose|k: int| 0 <= k < a.len() && a[k] == h;
                assert((a + b)[k] == h);
            }
            if b.contains(h) {
                let k = choose|k: int| 0 <= k < b.len() && b[k] == h;
                assert((a + b)[a.len() + k] == h);
            }
        }
        if exists|i: int, j: int|
            0 <= i < reqs.len() && 0 <= j < catalog.len() && (catalog[j].0 == reqs[i].name && catalog[j].1 == h) {
            let (i, j) = choose|i: int, j: int|
                0 <= i < reqs.len() && 0 <= j < catalog.len() && (catalog[j].0 == reqs[i].name && catalog[j].1 == h);
            if i < init.len() {
                assert(init[i] == reqs[i]);
            }
        }
        if a.contains(h) {
            let (i, j) = choose|i: int, j: int|
                0 <= i < init.len() && 0 <= j < catalog.len() && (catalog[j].0 == init[i].name && catalog[j].1 == h);
            assert(reqs[i] == init[i]);
        }
    }
}

/// Helper scoping: in an engine that starts fresh, a helper that only
/// `extension` provides, and that is no built-in, is registered exactly when
/// a requirement names `extension`.
pub proof fn lemma_helper_scoping(
    catalog: Seq<EntryView>,
    reqs: Seq<RequirementView>,
    extension: Seq<char>,
    h: Seq<char>,
)
    requires
        exists|j: int| 0 <= j < catalog.len() && (catalog[j].0 == extension && catalog[j].1 == h),
        forall|j: int| 0 <= j < catalog.len() && #[trigger] catalog[j].1 == h ==> catalog[j].0
            == extension,
        !builtin_helpers().contains(h),
    ensures
        (builtin_helpers() + helper_plan(catalog, reqs).to_set()).contains(h) <==> exists|i: int|
            0 <= i < reqs.len() && reqs[i].name == extension,
{
    lemma_helper_plan_member(catalog, reqs, h);
    if exists|i: int| 0 <= i < reqs.len() && reqs[i].name == extension {
        let i = choose|i: int| 0 <= i < reqs.len() && reqs[i].name == extension;
        let j = choose|j: int| 0 <= j < catalog.len() && (catalog[j].0 == extension && catalog[j].1 == h);
        assert((catalog[j].0 == reqs[i].name && catalog[j].1 == h));
    }
    if helper_plan(catalog, reqs).contains(h) {
        let (i, j) = choose|i: int, j: int|
            0 <= i < reqs.len() && 0 <= j < catalog.len() && (catalog[j].0 == reqs[i].name && catalog[j].1 == h);
        assert(catalog[j].1 == h);
    }
}

/// Why the helpers for a render could not be registered.
#[derive(Debug)]
pub enum HelperRegistrationError {
    /// Two of the helpers to register share this name.
    DuplicateHelper(String),
    /// The resolver does not support this extension.
    UnsupportedExtension(String),
}

impl View for HelperRegistrationError {
    type V = Seq<char>;

    open spec fn view(&self) -> Seq<char> {
        match self {
            HelperRegistrationError::DuplicateHelper(n) => n@,
            HelperRegistrationError::UnsupportedExtension(n) => n@,
        }
    }
}

/// A helper resolver over an in-memory catalog of `(extension, helper name,
/// helper)` entries: for a requirement it registers the catalog's helpers for
/// that extension, and none for an extension the catalog does not know.
pub struct FakeHelperResolver {
    helpers: Vec<(&'static str, &'static str, StaticHelper)>,
}

impl FakeHelperResolver {
    pub fn new(helpers: Vec<(&'static str, &'static str, StaticHelper)>) -> (r: Self)
        ensures
            r.catalog() == catalog_view(helpers@),
    {
        FakeHelperResolver { helpers }
    }

    /// The catalog as plain values.
    pub closed spec fn catalog(&self) -> Seq<EntryView> {
        catalog_view(self.helpers@)
    }

}

/// A helper resolver: for one extension requirement, registers the helpers
/// that the extension provides into a render call's engine.
pub trait HelperResolver {
    /// The helpers that the resolver knows, each with its extension.
    spec fn helper_catalog(&self) -> Seq<EntryView>;

    /// Whether registration may fail for a reason of the resolver's own, such
    /// as an extension that it does not support.
    spec fn registration_may_fail(&self) -> bool;

    /// The names of the catalog's helpers for `extension`, in catalog order.
    fn helper_names_for(&self, extension: &str) -> (r: Vec<String>)
        ensures
            strings_view(r@) == helpers_for(self.helper_catalog(), extension@),
    ;

    /// Registers into `template_registry` each catalog helper of the
    /// requirement's extension, under its name and in catalog order. Nothing
    /// else of the engine changes; with no such helper, nothing changes; a
    /// failed registration leaves the engine as it was.
    fn register_template_helpers(
        &self,
        template_registry: &mut Engine,
        extension_requirement: &ExtensionRequirement,
    ) -> (r: Result<(), HelperRegistrationError>)
        ensures
            r is Ok ==> helper_table(*final(template_registry)) == register_all(
                helper_table(*old(template_registry)),
                self.helper_catalog(),
                extension_requirement@.name,
            ),
            r is Ok ==> engine_config(*final(template_registry)) == engine_config(
                *old(template_registry),
            ),
            r is Ok ==> without_helpers(*final(template_registry)) == without_helpers(
                *old(template_registry),
            ),
            r is Ok && helpers_for(self.helper_catalog(), extension_requirement@.name).len() == 0
                ==> *final(template_registry) == *old(template_registry),
            r is Err ==> *final(template_registry) == *old(template_registry),
            !self.registration_may_fail() ==> r is Ok,
    ;
}

impl HelperResolver for FakeHelperResolver {
    open spec fn helper_catalog(&self) -> Seq<EntryView> {
        self.catalog()
    }

    /// The in-memory catalog registers zero helpers for an extension it does
    /// not know, and never fails.
    open spec fn registration_may_fail(&self) -> bool {
        false
    }

    fn helper_names_for(&self, extension: &str) -> (r: Vec<String>) {
        let mut out: Vec<String> = Vec::new();
        let n = self.helpers.len();
        for j in 0..n
            invariant
                n == self.helpers@.len(),
                strings_view(out@) == helpers_for(self.catalog().take(j as int), extension@),
        {
            let ghost before = self.catalog().take(j as int);
            assert(self.catalog().take(j + 1).drop_last() =~= before);
            let entry = &self.helpers[j];
            if str_eq(entry.0, extension) {
                out.push(String::from_str(entry.1));
                assert(strings_view(out@) =~= helpers_for(before, extension@).push(entry.1@));
            }
        }
        assert(self.catalog().take(n as int) =~= self.catalog());
        out
    }

    fn register_template_helpers(
        &self,
        template_registry: &mut Engine,
        extension_requirement: &ExtensionRequirement,
    ) -> (r: Result<(), HelperRegistrationError>) {
        let ghost start = *template_registry;
        let ghost ext = extension_requirement@.name;
        let n = self.helpers.len();
        for j in 0..n
            invariant
                n == self.helpers@.len(),
                ext == extension_requirement@.name,
                helper_table(*template_registry) == register_all(
                    helper_table(start),
                    self.catalog().take(j as int),
                    ext,
                ),
                engine_config(*template_registry) == engine_config(start),
                without_helpers(*template_registry) == without_helpers(start),
                helpers_for(self.catalog().take(j as int), ext).len() == 0 ==> *template_registry
                    == start,
        {
            let ghost before = self.catalog().take(j as int);
            assert(self.catalog().take(j + 1).drop_last() =~= before);
            let entry = &self.helpers[j];
            if str_eq(entry.0, extension_requirement.name.as_str()) {
                register_helper(template_registry, entry.1, &entry.2);
            }
        }
        assert(self.catalog().take(n as int) =~= self.catalog());
        Ok(())
    }
}

/// The names of the helpers to register for `reqs`, requirement by
/// requirement; refused where two of them share a name, which is then the
/// first name that repeats an earlier one.
pub fn plan_helpers<H: HelperResolver>(resolver: &H, reqs: &[ExtensionRequirement]) -> (r: Result<
    Vec<String>,
    HelperRegistrationError,
>)
    ensures
        match first_repeat(helper_plan(resolver.helper_catalog(), requirements_view(reqs@))) {
            None => r matches Ok(v) && strings_view(v@) == helper_plan(
                resolver.helper_catalog(),
                requirements_view(reqs@),
            ),
            Some(name) => r matches Err(e) && e@ == name,
        },
{
    let ghost rv = requirements_view(reqs@);
    let ghost cat = resolver.helper_catalog();
    let mut plan: Vec<String> = Vec::new();
    let n = reqs.len();
    for i in 0..n
        invariant
            n == reqs@.len(),
            rv == requirements_view(reqs@),
            cat == resolver.helper_catalog(),
            strings_view(plan@) == helper_plan(cat, rv.take(i as int)),
    {
        assert(rv.take(i + 1).drop_last() =~= rv.take(i as int));
        let mut more = resolver.helper_names_for(reqs[i].name.as_str());
        plan.append(&mut more);
        assert(strings_view(plan@) =~= helper_plan(cat, rv.take(i + 1)));
    }
    assert(rv.take(n as int) =~= rv);
    let ghost full = strings_view(plan@);
    let m = plan.len();
    for i in 0..m
        invariant
            m == plan@.len(),
            full == strings_view(plan@),
            full == helper_plan(resolver.helper_catalog(), requirements_view(reqs@)),
            first_repeat(full.take(i as int)) is None,
    {
        assert(full.take(i + 1).drop_last() =~= full.take(i as int));
        for j in 0..i
            invariant
                i < m == plan@.len(),
                full == strings_view(plan@),
                full == helper_plan(resolver.helper_catalog(), requirements_view(reqs@)),
                first_repeat(full.take(i as int)) is None,
                full.take(i + 1).drop_last() == full.take(i as int),
                forall|k: int| 0 <= k < j ==> full[k] != full[i as int],
        {
            if plan[j] == plan[i] {
                assert(full.take(i as int)[j as int] == full[i as int]);
                assert(first_repeat(full.take(i + 1)) == Some(full[i as int]));
                proof {
                    lemma_first_repeat_extends(full, i + 1);
                }
                return Err(HelperRegistrationError::DuplicateHelper(plan[i].clone()));
            }
        }
        assert(!full.take(i as int).contains(full[i as int]));
    }
    assert(full.take(m as int) =~= full);
    Ok(plan)
}

/// The catalog entries as plain values.
pub open spec fn catalog_view(helpers: Seq<(&'static str, &'static str, StaticHelper)>) -> Seq<
    EntryView,
> {
    helpers.map_values(|e: (&'static str, &'static str, StaticHelper)| (e.0@, e.1@, e.2))
}

/// The views of a sequence of strings.
pub open spec fn strings_view(v: Seq<String>) -> Seq<Seq<char>> {
    v.map_values(|s: String| s@)
}

/// Whether two strings hold the same characters.
fn str_eq(a: &str, b: &str) -> (r: bool)
    ensures
        r == (a@ == b@),
{
    let x = String::from_str(a);
    let y = String::from_str(b);
    x.eq(&y)
}

} // verus!
