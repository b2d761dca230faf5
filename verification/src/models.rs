//! The models that a session can run on.

use vstd::prelude::*;
use crate::order;
use crate::text;

verus! {

/// A model with everything that the controller reads of it.
#[derive(Debug, PartialEq)]
pub struct ResolvedModel {
    /// The short name by which users pick the model.
    pub alias: String,
    /// The provider that serves it.
    pub provider_name: String,
    /// The name that goes over the wire.
    pub model_name: String,
    /// The size of the context window in tokens.
    pub context_size: usize,
}

impl ResolvedModel {
    /// A copy of the model.
    pub fn copy(&self) -> (r: Self)
        ensures
            r == *self,
    {
        ResolvedModel {
            alias: self.alias.clone(),
            provider_name: self.provider_name.clone(),
            model_name: self.model_name.clone(),
            context_size: self.context_size,
        }
    }
}

/// The first model with this alias.
pub open spec fn find_alias(models: Seq<ResolvedModel>, alias: Seq<char>) -> Option<ResolvedModel>
    decreases models.len(),
{
    if models.len() == 0 {
        None
    } else if models[0].alias@ == alias {
        Some(models[0])
    } else {
        find_alias(models.drop_first(), alias)
    }
}

/// The first model with this wire identity.
pub open spec fn find_wire(
    models: Seq<ResolvedModel>,
    provider: Seq<char>,
    model: Seq<char>,
) -> Option<ResolvedModel>
    decreases models.len(),
{
    if models.len() == 0 {
        None
    } else if models[0].provider_name@ == provider && models[0].model_name@ == model {
        Some(models[0])
    } else {
        find_wire(models.drop_first(), provider, model)
    }
}

/// The aliases of the models.
pub open spec fn aliases(models: Seq<ResolvedModel>) -> Seq<Seq<char>> {
    Seq::new(models.len(), |i: int| models[i].alias@)
}

/// The models that the configuration declares.
#[derive(Debug, PartialEq)]
pub struct ModelRegistry {
    pub models: Vec<ResolvedModel>,
    /// The alias used where none is named.
    pub default_alias: String,
}

impl ModelRegistry {
    /// The model with this alias.
    pub fn resolve(&self, alias: &str) -> (r: Option<&ResolvedModel>)
        ensures
            match r {
                Some(m) => find_alias(self.models@, alias@) == Some(*m),
                None => find_alias(self.models@, alias@) is None,
            },
    {
        let mut i: usize = 0;
        assert(self.models@.skip(0) =~= self.models@);
        while i < self.models.len()
            invariant
                i <= self.models@.len(),
                find_alias(self.models@, alias@) == find_alias(self.models@.skip(i as int), alias@),
            decreases self.models@.len() - i,
        {
            let ghost s = self.models@.skip(i as int);
            assert(s[0] == self.models@[i as int]);
            assert(s.drop_first() =~= self.models@.skip(i + 1));
            if text::same(self.models[i].alias.as_str(), alias) {
                return Some(&self.models[i]);
            }
            i += 1;
        }
        None
    }

    /// The model with this wire identity.
    pub fn find_by_wire_id(&self, provider: &str, model: &str) -> (r: Option<&ResolvedModel>)
        ensures
            match r {
                Some(m) => find_wire(self.models@, provider@, model@) == Some(*m),
                None => find_wire(self.models@, provider@, model@) is None,
            },
    {
        let mut i: usize = 0;
        assert(self.models@.skip(0) =~= self.models@);
        while i < self.models.len()
            invariant
                i <= self.models@.len(),
                find_wire(self.models@, provider@, model@) == find_wire(
                    self.models@.skip(i as int),
                    provider@,
                    model@,
                ),
            decreases self.models@.len() - i,
        {
            let ghost s = self.models@.skip(i as int);
            assert(s[0] == self.models@[i as int]);
            assert(s.drop_first() =~= self.models@.skip(i + 1));
            if text::same(self.models[i].provider_name.as_str(), provider) && text::same(
                self.models[i].model_name.as_str(),
                model,
            ) {
                return Some(&self.models[i]);
            }
            i += 1;
        }
        None
    }

    /// The alias used where none is named.
    pub fn default_alias(&self) -> (r: &str)
        ensures
            r@ == self.default_alias@,
    {
        self.default_alias.as_str()
    }

    /// The aliases in alphabetical order.
    pub fn aliases_sorted(&self) -> (r: Vec<String>)
        ensures
            text::strs(r@) == order::sorted_texts(aliases(self.models@)),
    {
        let mut all: Vec<String> = Vec::new();
        let mut i: usize = 0;
        while i < self.models.len()
            invariant
                i <= self.models@.len(),
                all@.len() == i,
                forall|j: int| 0 <= j < i ==> (#[trigger] all@[j])@ == self.models@[j].alias@,
            decreases self.models@.len() - i,
        {
            all.push(self.models[i].alias.clone());
            i += 1;
        }
        assert(text::strs(all@) =~= aliases(self.models@));
        order::sort_strings(&all)
    }
}

/// What error messages list: the aliases in alphabetical order.
pub open spec fn alias_listing(models: Seq<ResolvedModel>) -> Seq<char> {
    text::join(order::sorted_texts(aliases(models)), ", "@)
}

/// A model that is found has the alias it was looked up by.
pub proof fn law_found_by_alias(models: Seq<ResolvedModel>, alias: Seq<char>)
    ensures
        find_alias(models, alias) matches Some(m) ==> m.alias@ == alias && models.contains(m),
        find_alias(models, alias) is Some <==> aliases(models).contains(alias),
    decreases models.len(),
{
    if models.len() > 0 {
        let rest = models.drop_first();
        law_found_by_alias(rest, alias);
        if models[0].alias@ == alias {
            assert(aliases(models)[0] == alias);
            assert(models[0] == models[0]);
        } else {
            if let Some(m) = find_alias(rest, alias) {
                let i = choose|i: int| 0 <= i < rest.len() && rest[i] == m;
                assert(models[i + 1] == m);
                assert(aliases(models)[i + 1] == alias);
            }
            if aliases(models).contains(alias) {
                let i = choose|i: int| 0 <= i < models.len() && aliases(models)[i] == alias;
                assert(aliases(rest)[i - 1] == alias);
            }
        }
    }
}

/// An alias leads to the first model that has it, wherever that stands, and to none
/// where no model has it.
pub proof fn law_alias_leads_to_the_first(models: Seq<ResolvedModel>, alias: Seq<char>, i: int)
    ensures
        0 <= i < models.len() && models[i].alias@ == alias && (forall|j: int|
            0 <= j < i ==> (#[trigger] models[j]).alias@ != alias) ==> find_alias(models, alias)
            == Some(models[i]),
        (forall|j: int| 0 <= j < models.len() ==> (#[trigger] models[j]).alias@ != alias)
            ==> find_alias(models, alias) is None,
    decreases models.len(),
{
    if models.len() > 0 {
        let rest = models.drop_first();
        law_alias_leads_to_the_first(rest, alias, i - 1);
        assert forall|j: int| 0 <= j < rest.len() implies rest[j] == #[trigger] models[j + 1] by {}
        if 0 < i < models.len() && models[i].alias@ == alias && (forall|j: int|
            0 <= j < i ==> (#[trigger] models[j]).alias@ != alias) {
            assert(models[0].alias@ != alias);
            assert(rest[i - 1] == models[i]);
            assert forall|j: int| 0 <= j < i - 1 implies (#[trigger] rest[j]).alias@ != alias by {
                assert(rest[j] == models[j + 1]);
            }
        }
        if forall|j: int| 0 <= j < models.len() ==> (#[trigger] models[j]).alias@ != alias {
            assert(models[0].alias@ != alias);
            assert forall|j: int| 0 <= j < rest.len() implies (#[trigger] rest[j]).alias@
                != alias by {
                assert(rest[j] == models[j + 1]);
            }
        }
    }
}

/// A wire identity leads to the first model with that provider and that name, and to
/// none where no model has both.
pub proof fn law_wire_leads_to_the_first(
    models: Seq<ResolvedModel>,
    provider: Seq<char>,
    model: Seq<char>,
    i: int,
)
    ensures
        0 <= i < models.len() && models[i].provider_name@ == provider && models[i].model_name@
            == model && (forall|j: int|
            0 <= j < i ==> (#[trigger] models[j]).provider_name@ != provider || models[j].model_name@
                != model) ==> find_wire(models, provider, model) == Some(models[i]),
        (forall|j: int|
            0 <= j < models.len() ==> (#[trigger] models[j]).provider_name@ != provider
                || models[j].model_name@ != model) ==> find_wire(models, provider, model) is None,
        find_wire(models, provider, model) matches Some(m) ==> m.provider_name@ == provider
            && m.model_name@ == model && models.contains(m),
    decreases models.len(),
{
    if models.len() > 0 {
        let rest = models.drop_first();
        law_wire_leads_to_the_first(rest, provider, model, i - 1);
        if 0 < i < models.len() && models[i].provider_name@ == provider && models[i].model_name@
            == model && (forall|j: int|
            0 <= j < i ==> (#[trigger] models[j]).provider_name@ != provider || models[j].model_name@
                != model) {
            assert(models[0].provider_name@ != provider || models[0].model_name@ != model);
            assert(rest[i - 1] == models[i]);
            assert forall|j: int| 0 <= j < i - 1 implies (#[trigger] rest[j]).provider_name@
                != provider || rest[j].model_name@ != model by {
                assert(rest[j] == models[j + 1]);
            }
        }
        if forall|j: int|
            0 <= j < models.len() ==> (#[trigger] models[j]).provider_name@ != provider
                || models[j].model_name@ != model {
            assert(models[0].provider_name@ != provider || models[0].model_name@ != model);
            assert forall|j: int| 0 <= j < rest.len() implies (#[trigger] rest[j]).provider_name@
                != provider || rest[j].model_name@ != model by {
                assert(rest[j] == models[j + 1]);
            }
        }
        if models[0].provider_name@ == provider && models[0].model_name@ == model {
            assert(models.contains(models[0]));
        } else if let Some(m) = find_wire(rest, provider, model) {
            let k = choose|k: int| 0 <= k < rest.len() && rest[k] == m;
            assert(models[k + 1] == m);
        }
    }
}

/// A listing of aliases names every model, once each, in alphabetical order.
pub proof fn law_listing_is_complete(models: Seq<ResolvedModel>) -> (o: Seq<int>)
    ensures
        o.len() == models.len(),
        o.no_duplicates(),
        forall|i: int| 0 <= i < o.len() ==> 0 <= #[trigger] o[i] < models.len(),
        forall|i: int, j: int|
            0 <= i < j < o.len() ==> order::text_le(
                models[#[trigger] o[i]].alias@,
                models[#[trigger] o[j]].alias@,
            ),
        alias_listing(models) == text::join(
            Seq::new(o.len(), |i: int| models[o[i]].alias@),
            ", "@,
        ),
{
    let all = aliases(models);
    let o = order::law_sorted_texts(all);
    assert(order::sorted_texts(all) =~= Seq::new(o.len(), |i: int| models[o[i]].alias@));
    o
}

/// An alias can be resolved exactly where some declared model has it.
pub proof fn law_alias_is_known_iff_declared(models: Seq<ResolvedModel>, alias: Seq<char>)
    ensures
        find_alias(models, alias) is Some <==> exists|i: int|
            0 <= i < models.len() && (#[trigger] models[i]).alias@ == alias,
        find_alias(models, alias) matches Some(m) ==> m.alias@ == alias && models.contains(m),
{
    law_found_by_alias(models, alias);
    if let Some(m) = find_alias(models, alias) {
        let i = choose|i: int| 0 <= i < models.len() && models[i] == m;
        assert(models[i].alias@ == alias);
    }
    if exists|i: int| 0 <= i < models.len() && (#[trigger] models[i]).alias@ == alias {
        let i = choose|i: int| 0 <= i < models.len() && (#[trigger] models[i]).alias@ == alias;
        assert(aliases(models)[i] == alias);
    }
}

/// A wire identity can be resolved exactly where some declared model has it.
pub proof fn law_wire_is_known_iff_declared(
    models: Seq<ResolvedModel>,
    provider: Seq<char>,
    model: Seq<char>,
)
    ensures
        find_wire(models, provider, model) is Some <==> exists|i: int|
            0 <= i < models.len() && (#[trigger] models[i]).provider_name@ == provider
                && models[i].model_name@ == model,
        find_wire(models, provider, model) matches Some(m) ==> m.provider_name@ == provider
            && m.model_name@ == model && models.contains(m),
{
    law_wire_leads_to_the_first(models, provider, model, 0);
    if let Some(m) = find_wire(models, provider, model) {
        let i = choose|i: int| 0 <= i < models.len() && models[i] == m;
        assert(models[i].provider_name@ == provider);
    } else if exists|i: int|
        0 <= i < models.len() && (#[trigger] models[i]).provider_name@ == provider
            && models[i].model_name@ == model {
        let i = choose|i: int|
            0 <= i < models.len() && (#[trigger] models[i]).provider_name@ == provider
                && models[i].model_name@ == model;
        lemma_wire_found(models, i);
    }
}

proof fn lemma_wire_found(models: Seq<ResolvedModel>, i: int)
    requires
        0 <= i < models.len(),
    ensures
        find_wire(models, models[i].provider_name@, models[i].model_name@) is Some,
    decreases i,
{
    if i > 0 {
        lemma_wire_found(models.drop_first(), i - 1);
    }
}

} // verus!
