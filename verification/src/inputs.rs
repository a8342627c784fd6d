//! What a program is run with: its arguments and environment variables, resolved and
//! flattened.
use vstd::prelude::*;
use crate::model::Model;
use crate::strmap::{StrMap, Entries, collected, lemma_key_index};
use crate::reference_value::{RefOrValue, LazyRefOrValue, ReferencedValue, RefModel, model_value};
use crate::cli::{Arguments, Environment, DraftArguments, DraftEnvironments};
use crate::processor::{Processor, Install, DefinedProcessorOverride, ArgumentsModel, EnvironmentsModel};

verus! {

/// Arguments as a program is given them: an unresolved reference gives none.
pub open spec fn resolved_arguments(a: ArgumentsModel) -> ArgumentsModel {
    match a {
        RefModel::Ref(_) => RefModel::Value(Seq::empty()),
        _ => a,
    }
}

/// Environment variables as a program is given them: an unresolved reference gives none.
pub open spec fn resolved_environment(e: EnvironmentsModel) -> EnvironmentsModel {
    match e {
        RefModel::Ref(_) => RefModel::Value(Seq::empty()),
        _ => e,
    }
}

/// The arguments of each list, one list after another.
pub open spec fn flattened_arguments(arguments: Seq<ArgumentsModel>) -> Seq<Seq<char>>
    decreases arguments.len(),
{
    if arguments.len() == 0 {
        Seq::empty()
    } else {
        flattened_arguments(arguments.drop_last()) + match model_value::<Vec<String>>(arguments.last()) {
            Some(values) => values,
            None => Seq::empty(),
        }
    }
}

/// The variables of each environment, one environment after another.
pub open spec fn concatenated_variables(environments: Seq<EnvironmentsModel>) -> Entries<Seq<char>>
    decreases environments.len(),
{
    if environments.len() == 0 {
        Seq::empty()
    } else {
        concatenated_variables(environments.drop_last()) + match model_value::<StrMap<String>>(environments.last()) {
            Some(variables) => variables,
            None => Seq::empty(),
        }
    }
}

/// The variables of all the environments; a variable set twice has its last value.
pub open spec fn flattened_environments(environments: Seq<EnvironmentsModel>) -> Entries<Seq<char>> {
    collected(concatenated_variables(environments))
}

/// Arguments as a program is given them.
fn resolve_arguments(arguments: &Vec<DraftArguments>) -> (r: Vec<Arguments>)
    ensures
        r.model() == arguments.model().map_values(|a: ArgumentsModel| resolved_arguments(a)),
{
    let mut resolved: Vec<Arguments> = Vec::new();
    let mut i: usize = 0;
    while i < arguments.len()
        invariant
            i <= arguments@.len(),
            resolved@.len() == i,
            forall|j: int| 0 <= j < i ==> (#[trigger] resolved@[j]).model() == resolved_arguments(arguments@[j].model()),
        decreases arguments.len() - i,
    {
        let argument = match &arguments[i] {
            LazyRefOrValue::Ref(_) => {
                let none: Vec<String> = Vec::new();
                assert(none.model() =~= Seq::<Seq<char>>::empty());
                RefOrValue::Value(none)
            },
            LazyRefOrValue::ReferencedValue(rv) => RefOrValue::ReferencedValue(
                ReferencedValue { reference: rv.reference.clone(), value: rv.value.duplicate() },
            ),
            LazyRefOrValue::Value(values) => RefOrValue::Value(values.duplicate()),
        };
        resolved.push(argument);
        i = i + 1;
    }
    assert(resolved.model() =~= arguments.model().map_values(|a: ArgumentsModel| resolved_arguments(a)));
    resolved
}

/// Environments as a program is given them.
fn resolve_environments(environments: &Vec<DraftEnvironments>) -> (r: Vec<Environment>)
    ensures
        r.model() == environments.model().map_values(|e: EnvironmentsModel| resolved_environment(e)),
{
    let mut resolved: Vec<Environment> = Vec::new();
    let mut i: usize = 0;
    while i < environments.len()
        invariant
            i <= environments@.len(),
            resolved@.len() == i,
            forall|j: int| 0 <= j < i ==> (#[trigger] resolved@[j]).model() == resolved_environment(environments@[j].model()),
        decreases environments.len() - i,
    {
        let environment = match &environments[i] {
            LazyRefOrValue::Ref(_) => RefOrValue::Value(StrMap::new()),
            LazyRefOrValue::ReferencedValue(rv) => RefOrValue::ReferencedValue(
                ReferencedValue { reference: rv.reference.clone(), value: rv.value.duplicate() },
            ),
            LazyRefOrValue::Value(values) => RefOrValue::Value(values.duplicate()),
        };
        resolved.push(environment);
        i = i + 1;
    }
    assert(resolved.model() =~= environments.model().map_values(|e: EnvironmentsModel| resolved_environment(e)));
    resolved
}

/// What a program is run with.
pub trait Inputs {
    spec fn arguments_model(&self) -> Seq<ArgumentsModel>;

    spec fn environments_model(&self) -> Seq<EnvironmentsModel>;

    /// The lists of arguments, in order.
    fn arguments(&self) -> (r: Vec<Arguments>)
        ensures
            r.model() == self.arguments_model(),
    ;

    /// The environments, in order.
    fn environments(&self) -> (r: Vec<Environment>)
        ensures
            r.model() == self.environments_model(),
    ;

    /// All the arguments, one list after another.
    fn flatten_arguments(&self) -> (r: Vec<String>)
        ensures
            r.model() == flattened_arguments(self.arguments_model()),
    {
        let lists = self.arguments();
        let ghost m = lists.model();
        let mut all: Vec<String> = Vec::new();
        let mut i: usize = 0;
        assert(m.take(0) =~= Seq::<ArgumentsModel>::empty());
        assert(all.model() =~= Seq::<Seq<char>>::empty());
        while i < lists.len()
            invariant
                i <= lists@.len(),
                m == lists.model(),
                all.model() == flattened_arguments(m.take(i as int)),
            decreases lists.len() - i,
        {
            let ghost before = all.model();
            let values = lists[i].unwrap();
            let mut j: usize = 0;
            while j < values.len()
                invariant
                    j <= values@.len(),
                    all.model() == before + values.model().take(j as int),
                decreases values.len() - j,
            {
                let ghost a0 = all.model();
                all.push(values[j].clone());
                assert(all.model() =~= a0.push(values@[j as int]@));
                assert(values.model().take(j + 1) =~= values.model().take(j as int).push(values@[j as int]@));
                j = j + 1;
            }
            assert(values.model().take(values@.len() as int) =~= values.model());
            assert(m.take(i + 1).drop_last() =~= m.take(i as int));
            assert(m.take(i + 1).last() == lists@[i as int].model());
            i = i + 1;
        }
        assert(m.take(lists@.len() as int) =~= m);
        all
    }

    /// All the environment variables; a variable set twice has its last value.
    fn flatten_environments(&self) -> (r: StrMap<String>)
        ensures
            r.model() == flattened_environments(self.environments_model()),
    {
        let environments = self.environments();
        let ghost m = environments.model();
        let mut all: StrMap<String> = StrMap::new();
        let mut i: usize = 0;
        assert(m.take(0) =~= Seq::<EnvironmentsModel>::empty());
        assert(all.model() =~= collected(concatenated_variables(m.take(0))));
        while i < environments.len()
            invariant
                i <= environments@.len(),
                m == environments.model(),
                all.model() == collected(concatenated_variables(m.take(i as int))),
            decreases environments.len() - i,
        {
            let ghost prefix = concatenated_variables(m.take(i as int));
            let variables = environments[i].unwrap();
            let ghost vm = variables.model();
            let n = variables.len();
            let mut j: usize = 0;
            assert(prefix + vm.take(0) =~= prefix);
            while j < n
                invariant
                    n == vm.len(),
                    vm == variables.model(),
                    j <= n,
                    all.model() == collected(prefix + vm.take(j as int)),
                decreases n - j,
            {
                all.insert(variables.key_at(j).clone(), variables.value_at(j).clone());
                assert((prefix + vm.take(j + 1)).drop_last() =~= prefix + vm.take(j as int));
                assert((prefix + vm.take(j + 1)).last() == vm[j as int]);
                j = j + 1;
            }
            assert(vm.take(n as int) =~= vm);
            assert(m.take(i + 1).drop_last() =~= m.take(i as int));
            assert(m.take(i + 1).last() == environments@[i as int].model());
            i = i + 1;
        }
        assert(m.take(environments@.len() as int) =~= m);
        all
    }
}

impl Inputs for Install {
    open spec fn arguments_model(&self) -> Seq<ArgumentsModel> {
        self.model().arguments.map_values(|a: ArgumentsModel| resolved_arguments(a))
    }

    open spec fn environments_model(&self) -> Seq<EnvironmentsModel> {
        self.model().environments.map_values(|e: EnvironmentsModel| resolved_environment(e))
    }

    fn arguments(&self) -> (r: Vec<Arguments>) {
        resolve_arguments(&self.arguments)
    }

    fn environments(&self) -> (r: Vec<Environment>) {
        resolve_environments(&self.environments)
    }
}

impl Inputs for Processor {
    open spec fn arguments_model(&self) -> Seq<ArgumentsModel> {
        self.model().arguments.map_values(|a: ArgumentsModel| resolved_arguments(a))
    }

    open spec fn environments_model(&self) -> Seq<EnvironmentsModel> {
        self.model().environments.map_values(|e: EnvironmentsModel| resolved_environment(e))
    }

    fn arguments(&self) -> (r: Vec<Arguments>) {
        resolve_arguments(&self.arguments)
    }

    fn environments(&self) -> (r: Vec<Environment>) {
        resolve_environments(&self.environments)
    }
}

/// A use of a processor runs with the processor's arguments and then its own, and with its
/// own environments and then the processor's.
impl Inputs for DefinedProcessorOverride {
    open spec fn arguments_model(&self) -> Seq<ArgumentsModel> {
        (*self.processor.value).model().arguments.map_values(|a: ArgumentsModel| resolved_arguments(a))
            + self.model().arguments.map_values(|a: ArgumentsModel| resolved_arguments(a))
    }

    open spec fn environments_model(&self) -> Seq<EnvironmentsModel> {
        self.model().environments.map_values(|e: EnvironmentsModel| resolved_environment(e))
            + (*self.processor.value).model().environments.map_values(|e: EnvironmentsModel| resolved_environment(e))
    }

    fn arguments(&self) -> (r: Vec<Arguments>) {
        let mut all = resolve_arguments(&(*self.processor.value).arguments);
        let ghost first = all.model();
        let mut own = resolve_arguments(&self.arguments);
        let ghost second = own.model();
        all.append(&mut own);
        assert(all.model() =~= first + second);
        all
    }

    fn environments(&self) -> (r: Vec<Environment>) {
        let mut all = resolve_environments(&self.environments);
        let ghost first = all.model();
        let mut inherited = resolve_environments(&(*self.processor.value).environments);
        let ghost second = inherited.model();
        all.append(&mut inherited);
        assert(all.model() =~= first + second);
        all
    }
}

} // verus!
